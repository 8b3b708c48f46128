use starlark_heap::array::Array;
use starlark_heap::error::{Operation, TypeTag, ValueError};
use starlark_heap::freeze::Freezer;
use starlark_heap::heap::{Def, Heap, List, Payload, Record, StarlarkStr, Tuple};
use starlark_heap::num::StarlarkFloat;
use starlark_heap::traits::{ComplexValue, Mode, NoSimpleValue, StarlarkValue};
use starlark_heap::value::{FrozenValue, Value};

fn sample_payloads() -> Vec<Payload> {
    vec![
        Payload::Str(StarlarkStr { bytes: b"a".to_vec() }),
        Payload::Tuple(Tuple { content: vec![Value::new_int(1)] }),
        Payload::List(List { array: 0 }),
        Payload::Array(Array::new(2)),
        Payload::Float(StarlarkFloat::new(0, Some(0)).unwrap()),
        Payload::Record(Record { fields: vec![] }),
        Payload::Def(Def { name: b"f".to_vec(), captured: vec![] }),
    ]
}

#[test]
fn downcast_ref_matches_exactly_one_type() {
    for (k, p) in sample_payloads().iter().enumerate() {
        assert_eq!(p.downcast_ref::<StarlarkStr>().is_some(), k == 0);
        assert_eq!(p.downcast_ref::<Tuple>().is_some(), k == 1);
        assert_eq!(p.downcast_ref::<List>().is_some(), k == 2);
        assert_eq!(p.downcast_ref::<Array>().is_some(), k == 3);
        assert_eq!(p.downcast_ref::<StarlarkFloat>().is_some(), k == 4);
        assert_eq!(p.downcast_ref::<Record>().is_some(), k == 5);
        assert_eq!(p.downcast_ref::<Def>().is_some(), k == 6);
        assert!(p.downcast_ref::<NoSimpleValue>().is_none());
    }
}

#[test]
fn downcast_ref_returns_the_payload_itself() {
    let p = Payload::Str(StarlarkStr { bytes: b"hi".to_vec() });
    let s: &StarlarkStr = p.downcast_ref().unwrap();
    assert_eq!(s.bytes, b"hi".to_vec());
}

#[test]
fn type_identity() {
    let s = StarlarkStr { bytes: vec![] };
    assert_eq!(s.get_type(), "string");
    assert_eq!(s.get_type_tag(), TypeTag::Str);
    assert!(s.matches_type(TypeTag::Str));
    assert!(!s.matches_type(TypeTag::List));
    let d = Def { name: vec![], captured: vec![] };
    assert_eq!(d.get_type(), "function");
    assert_eq!(d.get_type_tag(), TypeTag::Function);
    let n = NoSimpleValue;
    assert_eq!(n.get_type(), "no_simple_value");
    assert_eq!(n.get_type_tag(), TypeTag::NoSimple);
}

#[test]
fn modes_of_payloads() {
    let modes: Vec<Mode> = sample_payloads().iter().map(|p| p.mode()).collect();
    assert_eq!(
        modes,
        vec![
            Mode::Direct,
            Mode::Direct,
            Mode::Direct,
            Mode::Direct,
            Mode::Direct,
            Mode::Complex,
            Mode::Complex
        ]
    );
}

#[test]
fn extra_len_and_memory_size() {
    let p = Payload::Str(StarlarkStr { bytes: vec![1, 2, 3] });
    assert_eq!(p.extra_len(), 3);
    assert_eq!(p.memory_size(), 5);
    let a = Payload::Array(Array::new(7));
    // An array's extra region is its whole capacity, allocated up front.
    assert_eq!(a.extra_len(), 7);
    assert_eq!(a.memory_size(), 9);
    let f = Payload::Float(StarlarkFloat::new(0, Some(0)).unwrap());
    assert_eq!(f.extra_len(), 0);
    assert_eq!(f.memory_size(), 2);
}

#[test]
fn default_operations_report_typed_errors() {
    let t = Tuple { content: vec![Value::new_int(1)] };
    assert_eq!(
        t.to_int(),
        Err(ValueError::Unsupported { type_tag: TypeTag::Tuple, op: Operation::ToInt })
    );
    assert_eq!(t.equals(Value::new_int(1)), Ok(false));
    assert_eq!(
        t.add(Value::new_int(1)),
        Err(ValueError::Unsupported { type_tag: TypeTag::Tuple, op: Operation::Add })
    );
    assert_eq!(
        t.set_at(Value::new_int(0), Value::new_int(1)),
        Err(ValueError::CannotMutateImmutableValue)
    );
    assert!(t.radd(Value::new_int(1)).is_none());
    assert!(t.to_bool());
    assert_eq!(t.length(), Ok(1));
    let l = List { array: 0 };
    assert_eq!(
        l.length(),
        Err(ValueError::Unsupported { type_tag: TypeTag::List, op: Operation::Length })
    );
    let a = Array::new(3);
    assert_eq!(a.length(), Ok(0));
}

#[test]
fn hashing_through_the_heap() {
    let mut heap = Heap::new();
    let s1 = heap.alloc_str(b"ab".to_vec());
    let s2 = heap.alloc_str(b"ab".to_vec());
    assert_eq!(heap.get_hash(s1).unwrap(), heap.get_hash(s2).unwrap());

    let zero_float = heap.alloc_float(StarlarkFloat::new(0, Some(0)).unwrap());
    assert_eq!(
        heap.get_hash(zero_float).unwrap(),
        heap.get_hash(Value::new_int(0)).unwrap()
    );

    let def = heap.alloc_def(b"f".to_vec(), vec![]);
    assert_eq!(heap.get_hash(def), Ok(0));

    let list = heap.alloc_list(vec![Value::new_int(1)]);
    assert_eq!(
        heap.get_hash(list),
        Err(ValueError::NotHashable { type_tag: TypeTag::List })
    );
}

#[test]
fn hash_stable_across_freeze() {
    let mut heap = Heap::new();
    let s = heap.alloc_str(b"hi".to_vec());
    let f = heap.alloc_float(StarlarkFloat::new(2.5_f64.to_bits(), None).unwrap());
    let d = heap.alloc_def(b"g".to_vec(), vec![]);
    let before = [
        heap.get_hash(s).unwrap(),
        heap.get_hash(f).unwrap(),
        heap.get_hash(d).unwrap(),
    ];
    let mut freezer = Freezer::new(&heap);
    let fs = freezer.freeze(&heap, s).unwrap();
    let ff = freezer.freeze(&heap, f).unwrap();
    let fd = freezer.freeze(&heap, d).unwrap();
    let (frozen_heap, _) = freezer.finish();
    assert_eq!(frozen_heap.get_hash(fs).unwrap(), before[0]);
    assert_eq!(frozen_heap.get_hash(ff).unwrap(), before[1]);
    assert_eq!(frozen_heap.get_hash(fd).unwrap(), before[2]);
    assert_eq!(
        frozen_heap.get_hash(FrozenValue::Int(-3)).unwrap(),
        heap.get_hash(Value::new_int(-3)).unwrap()
    );
}

#[test]
fn complex_values_expose_and_rebuild_owned_values() {
    let r = Record { fields: vec![Value::new_int(1), Value::new_none()] };
    let owned = r.owned_values();
    assert_eq!(owned, vec![Value::new_int(1), Value::new_none()]);
    let rebuilt = r.with_owned(vec![Value::new_int(2), Value::new_bool(true)]);
    assert_eq!(rebuilt.fields, vec![Value::new_int(2), Value::new_bool(true)]);
    let frozen = rebuilt.freeze_with(vec![FrozenValue::Int(2), FrozenValue::Bool(true)]).unwrap();
    assert_eq!(frozen.fields, vec![FrozenValue::Int(2), FrozenValue::Bool(true)]);

    let d = Def { name: b"f".to_vec(), captured: vec![Value::new_int(9)] };
    assert_eq!(d.owned_values(), vec![Value::new_int(9)]);
    let moved = d.with_owned(vec![Value::new_int(10)]);
    // Rebuilding around relocated values keeps the function's name.
    assert_eq!(moved.name, b"f".to_vec());
    assert_eq!(moved.captured, vec![Value::new_int(10)]);
    let fd = moved.freeze_with(vec![FrozenValue::Int(10)]).unwrap();
    assert_eq!(fd.name, b"f".to_vec());
    assert_eq!(fd.captured, vec![FrozenValue::Int(10)]);
}

#[test]
fn basic_representations() {
    assert_eq!(Value::new_none().repr_basic().unwrap(), "None");
    assert_eq!(Value::new_bool(true).repr_basic().unwrap(), "True");
    assert_eq!(Value::new_bool(false).repr_basic().unwrap(), "False");
    assert_eq!(Value::new_int(0).repr_basic().unwrap(), "0");
    assert_eq!(Value::new_int(1234).repr_basic().unwrap(), "1234");
    assert_eq!(Value::new_int(-56).repr_basic().unwrap(), "-56");
    assert_eq!(
        Value::new_int(i32::MIN).repr_basic().unwrap(),
        "-2147483648"
    );
    assert!(Value::Ref(0).repr_basic().is_none());
}
