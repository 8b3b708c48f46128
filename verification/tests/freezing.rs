use starlark_heap::error::FreezeError;
use starlark_heap::freeze::Freezer;
use starlark_heap::heap::{FrozenPayload, Heap, Payload};
use starlark_heap::slots::{ModuleSlotId, MutableSlots};
use starlark_heap::trace::Tracer;
use starlark_heap::value::{
    FrozenValue, Value, EMPTY_ARRAY_INDEX, EMPTY_LIST_INDEX, EMPTY_TUPLE_INDEX,
};

fn ref_index(v: Value) -> usize {
    match v {
        Value::Ref(i) => i,
        _ => panic!("expected a heap reference"),
    }
}

fn frozen_index(fv: FrozenValue) -> usize {
    match fv {
        FrozenValue::Ref(i) => i,
        _ => panic!("expected a frozen reference"),
    }
}

#[test]
fn tuple_cycle_freeze() {
    let mut heap = Heap::new();
    let list = heap.alloc_list(vec![]);
    let tuple = heap.alloc_tuple(vec![list]);
    heap.list_push(list, tuple);
    let mut slots = MutableSlots::new();
    slots.ensure_slots(1);
    slots.set_slot(ModuleSlotId::new(0), tuple);
    let mut freezer = Freezer::new(&heap);
    slots.freeze(&heap, &mut freezer).unwrap();
}

#[test]
fn frozen_cycle_is_still_a_cycle() {
    let mut heap = Heap::new();
    let list = heap.alloc_list(vec![]);
    let tuple = heap.alloc_tuple(vec![list]);
    heap.list_push(list, tuple);
    let mut freezer = Freezer::new(&heap);
    let frozen_tuple = freezer.freeze(&heap, tuple).unwrap();
    let (frozen_heap, _) = freezer.finish();
    let ti = frozen_index(frozen_tuple);
    let li = match frozen_heap.payload(ti) {
        FrozenPayload::Tuple(t) => frozen_index(t.content[0]),
        _ => panic!("expected a frozen tuple"),
    };
    match frozen_heap.payload(li) {
        FrozenPayload::List(l) => {
            // The list's single element leads back to the same tuple
            // record: the cycle survived, without duplicating the
            // shared sub-graph.
            assert_eq!(l.content.len(), 1);
            assert_eq!(frozen_index(l.content[0]), ti);
        },
        _ => panic!("expected a frozen list"),
    }
}

#[test]
fn shared_subgraph_frozen_once() {
    let mut heap = Heap::new();
    let shared = heap.alloc_str(b"hi".to_vec());
    let t1 = heap.alloc_tuple(vec![shared, shared]);
    let mut freezer = Freezer::new(&heap);
    let ft = freezer.freeze(&heap, t1).unwrap();
    let (frozen_heap, _) = freezer.finish();
    match frozen_heap.payload(frozen_index(ft)) {
        FrozenPayload::Tuple(t) => {
            // Both references resolve to the same frozen record.
            assert_eq!(t.content[0], t.content[1]);
        },
        _ => panic!("expected a frozen tuple"),
    }
}

#[test]
fn freezing_twice_yields_the_same_record() {
    let mut heap = Heap::new();
    let s = heap.alloc_str(b"once".to_vec());
    let mut freezer = Freezer::new(&heap);
    let first = freezer.freeze(&heap, s).unwrap();
    let second = freezer.freeze(&heap, s).unwrap();
    assert_eq!(first, second);
}

#[test]
fn immediates_freeze_to_themselves() {
    let heap = Heap::new();
    let mut freezer = Freezer::new(&heap);
    assert_eq!(
        freezer.freeze(&heap, Value::new_none()).unwrap(),
        FrozenValue::NoneType
    );
    assert_eq!(
        freezer.freeze(&heap, Value::new_bool(true)).unwrap(),
        FrozenValue::Bool(true)
    );
    assert_eq!(
        freezer.freeze(&heap, Value::new_int(-7)).unwrap(),
        FrozenValue::Int(-7)
    );
    assert_eq!(
        freezer.freeze(&heap, Value::new_unassigned()).unwrap(),
        FrozenValue::Unassigned
    );
}

#[test]
fn string_content_survives_freeze() {
    let mut heap = Heap::new();
    let s = heap.alloc_str(b"abc".to_vec());
    let mut freezer = Freezer::new(&heap);
    let fs = freezer.freeze(&heap, s).unwrap();
    let (frozen_heap, _) = freezer.finish();
    match frozen_heap.payload(frozen_index(fs)) {
        FrozenPayload::Str(st) => assert_eq!(st.bytes, b"abc".to_vec()),
        _ => panic!("expected a frozen string"),
    }
}

#[test]
fn static_singletons_are_shared() {
    let mut heap = Heap::new();
    let records_before = heap.record_count();
    let t1 = heap.alloc_tuple(vec![]);
    let t2 = heap.alloc_tuple(vec![]);
    // Two empty tuples are the same shared constant, not merely equal.
    assert_eq!(t1, t2);
    assert_eq!(heap.record_count(), records_before);
    let s1 = heap.alloc_str(vec![]);
    let s2 = heap.alloc_str(vec![]);
    assert_eq!(s1, s2);

    // Two empty lists are distinct list records sharing the static
    // zero-capacity backing array.
    let l1 = heap.alloc_list(vec![]);
    let l2 = heap.alloc_list(vec![]);
    assert_ne!(l1, l2);
    let backing = |v: Value, heap: &Heap| match heap.payload(ref_index(v)) {
        Payload::List(l) => l.array,
        _ => panic!("expected a list record"),
    };
    assert_eq!(backing(l1, &heap), EMPTY_ARRAY_INDEX);
    assert_eq!(backing(l2, &heap), EMPTY_ARRAY_INDEX);

    // Freezing either yields the shared static frozen-empty instances,
    // and nothing is allocated in the frozen arena on that path.
    let mut freezer = Freezer::new(&heap);
    assert_eq!(
        freezer.freeze(&heap, t1).unwrap(),
        FrozenValue::Ref(EMPTY_TUPLE_INDEX)
    );
    assert_eq!(
        freezer.freeze(&heap, l1).unwrap(),
        FrozenValue::Ref(EMPTY_LIST_INDEX)
    );
    assert_eq!(
        freezer.freeze(&heap, l2).unwrap(),
        FrozenValue::Ref(EMPTY_LIST_INDEX)
    );
    let (frozen_heap, _) = freezer.finish();
    assert_eq!(
        frozen_heap.record_count(),
        starlark_heap::value::STATIC_FROZEN_COUNT
    );
}

#[test]
fn bare_array_declines_to_freeze() {
    let mut heap = Heap::new();
    let array = heap.alloc_array(4);
    heap.array_push(array, Value::new_int(1));
    let tuple = heap.alloc_tuple(vec![array]);
    let mut freezer = Freezer::new(&heap);
    match freezer.freeze(&heap, tuple) {
        Err(FreezeError::UnfreezableArray { index }) => assert_eq!(index, ref_index(array)),
        _ => panic!("expected the freeze pass to decline"),
    }
}

#[test]
fn def_is_registered_on_freeze() {
    let mut heap = Heap::new();
    let captured = heap.alloc_str(b"x".to_vec());
    let def = heap.alloc_def(b"f".to_vec(), vec![captured]);
    let mut freezer = Freezer::new(&heap);
    let fd = freezer.freeze(&heap, def).unwrap();
    let (frozen_heap, frozen_defs) = freezer.finish();
    assert_eq!(frozen_defs.len(), 1);
    assert_eq!(frozen_defs[0], frozen_index(fd));
    match frozen_heap.payload(frozen_defs[0]) {
        FrozenPayload::Def(d) => {
            assert_eq!(d.name, b"f".to_vec());
            assert_eq!(d.captured.len(), 1);
        },
        _ => panic!("expected a frozen function definition"),
    }
}

#[test]
fn record_fields_survive_freeze() {
    let mut heap = Heap::new();
    let inner = heap.alloc_str(b"v".to_vec());
    let record = heap.alloc_record(vec![inner, Value::new_int(3)]);
    let mut freezer = Freezer::new(&heap);
    let fr = freezer.freeze(&heap, record).unwrap();
    let (frozen_heap, _) = freezer.finish();
    match frozen_heap.payload(frozen_index(fr)) {
        FrozenPayload::Record(r) => {
            assert_eq!(r.fields.len(), 2);
            assert_eq!(r.fields[1], FrozenValue::Int(3));
        },
        _ => panic!("expected a frozen record"),
    }
}

#[test]
fn trace_relocates_cycles_and_sharing() {
    let mut heap = Heap::new();
    let list = heap.alloc_list(vec![]);
    let tuple = heap.alloc_tuple(vec![list, list]);
    heap.list_push(list, tuple);
    let mut tracer = Tracer::new(&heap);
    let moved = tracer.trace(&heap, tuple);
    let target = tracer.finish();
    let ti = ref_index(moved);
    let (first, second) = match target.payload(ti) {
        Payload::Tuple(t) => (t.content[0], t.content[1]),
        _ => panic!("expected a tuple record"),
    };
    // Sharing is preserved: both elements are the same relocated list.
    assert_eq!(first, second);
    let ai = match target.payload(ref_index(first)) {
        Payload::List(l) => l.array,
        _ => panic!("expected a list record"),
    };
    match target.payload(ai) {
        Payload::Array(a) => {
            // The cycle is preserved through the backing array.
            assert_eq!(a.content()[0], Value::Ref(ti));
        },
        _ => panic!("expected an array record"),
    }
}

#[test]
fn trace_drops_unused_capacity() {
    let mut heap = Heap::new();
    let array = heap.alloc_array(16);
    heap.array_push(array, Value::new_int(5));
    heap.array_push(array, Value::new_int(6));
    let mut tracer = Tracer::new(&heap);
    let moved = tracer.trace(&heap, array);
    let target = tracer.finish();
    match target.payload(ref_index(moved)) {
        Payload::Array(a) => {
            assert_eq!(a.len(), 2);
            assert_eq!(a.capacity(), 2);
            assert_eq!(a.content()[1], Value::new_int(6));
        },
        _ => panic!("expected an array record"),
    }
}

#[test]
fn trace_sends_empty_array_to_static() {
    let mut heap = Heap::new();
    let array = heap.alloc_array(8);
    let mut tracer = Tracer::new(&heap);
    let moved = tracer.trace(&heap, array);
    assert_eq!(moved, Value::Ref(EMPTY_ARRAY_INDEX));
}

#[test]
fn frozen_references_pass_through_both_engines() {
    let mut heap = Heap::new();
    let empty_string = heap.alloc_str(vec![]);
    let mut tracer = Tracer::new(&heap);
    assert_eq!(tracer.trace(&heap, empty_string), empty_string);
    let mut freezer = Freezer::new(&heap);
    assert_eq!(
        freezer.freeze(&heap, empty_string).unwrap(),
        FrozenValue::Ref(starlark_heap::value::EMPTY_STRING_INDEX)
    );
}
