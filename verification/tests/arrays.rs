use starlark_heap::array::Array;
use starlark_heap::heap::{Heap, Payload};
use starlark_heap::value::Value;

fn heap_array_index(v: Value) -> usize {
    match v {
        Value::Ref(i) => i,
        _ => panic!("expected a heap reference"),
    }
}

fn heap_array_repr(heap: &Heap, v: Value) -> String {
    match heap.payload(heap_array_index(v)) {
        Payload::Array(a) => a.repr().unwrap(),
        _ => panic!("expected an array record"),
    }
}

#[test]
fn debug() {
    let mut heap = Heap::new();
    let array = heap.alloc_array(10);
    heap.array_push(array, Value::new_int(23));
    // Just check it does not crash.
    drop(heap_array_repr(&heap, array));
}

#[test]
fn display() {
    let mut heap = Heap::new();
    let array = heap.alloc_array(10);
    heap.array_push(array, Value::new_int(29));
    heap.array_push(array, Value::new_none());
    assert_eq!("array([29, None], cap=10)", heap_array_repr(&heap, array));
}

#[test]
fn push() {
    let mut heap = Heap::new();
    let array = heap.alloc_array(10);
    heap.array_push(array, Value::new_int(17));
    heap.array_push(array, Value::new_int(19));
    match heap.payload(heap_array_index(array)) {
        Payload::Array(a) => assert_eq!(Value::new_int(19), a.content()[1]),
        _ => panic!("expected an array record"),
    }
}

#[test]
fn capacity_invariant_through_mutations() {
    let mut a = Array::new(6);
    a.push(Value::new_int(1));
    a.push(Value::new_int(2));
    a.insert(0, Value::new_int(0));
    a.insert(3, Value::new_int(3));
    a.extend(vec![Value::new_int(4), Value::new_int(5)]);
    assert!(a.len() <= a.capacity());
    assert_eq!(a.content().len(), a.len());
    assert_eq!(a.len(), 6);
    assert_eq!(a.remaining_capacity(), 0);
    for k in 0..6 {
        assert_eq!(a.content()[k], Value::new_int(k as i32));
    }
    let removed = a.remove(5);
    assert_eq!(removed, Value::new_int(5));
    assert!(a.len() <= a.capacity());
    assert_eq!(a.content().len(), a.len());
}

#[test]
fn double_duplicates_contents() {
    let mut a = Array::new(4);
    a.push(Value::new_int(8));
    a.push(Value::new_bool(true));
    a.double();
    assert_eq!(a.len(), 4);
    assert_eq!(a.content()[2], Value::new_int(8));
    assert_eq!(a.content()[3], Value::new_bool(true));
}

#[test]
fn extend_from_slice_appends_in_order() {
    let mut a = Array::new(3);
    let values = vec![Value::new_int(1), Value::new_int(2), Value::new_int(3)];
    a.extend_from_slice(&values);
    assert_eq!(a.len(), 3);
    assert_eq!(a.content()[2], Value::new_int(3));
    a.clear();
    assert_eq!(a.len(), 0);
    assert_eq!(a.capacity(), 3);
}

#[test]
fn iterator_guard_released_before_mutation() {
    let mut a = Array::new(4);
    a.push(Value::new_int(10));
    a.push(Value::new_int(20));
    let mut iter = a.iter();
    assert!(a.iter_count_is_non_zero());
    assert_eq!(iter.len(&a), 2);
    assert_eq!(iter.next(&a), Some(Value::new_int(10)));
    assert_eq!(iter.next(&a), Some(Value::new_int(20)));
    assert_eq!(iter.next(&a), None);
    a.end_iter(iter);
    // All iterators returned: mutation is allowed again.
    assert!(!a.iter_count_is_non_zero());
    a.push(Value::new_int(30));
    assert_eq!(a.len(), 3);
}

#[test]
fn static_empty_array_is_not_counted() {
    let mut a = Array::new(0);
    assert!(a.is_statically_allocated());
    let iter = a.iter();
    // The shared static instance is exempt from iterator counting.
    assert!(!a.iter_count_is_non_zero());
    a.end_iter(iter);
    assert!(!a.iter_count_is_non_zero());
}

#[test]
fn set_at_and_mut_ptr_at_overwrite() {
    let mut a = Array::new(2);
    a.push(Value::new_int(1));
    a.push(Value::new_int(2));
    a.set_at(0, Value::new_int(7));
    assert_eq!(a.content()[0], Value::new_int(7));
    *a.mut_ptr_at(1) = Value::new_int(9);
    assert_eq!(a.content()[1], Value::new_int(9));
}

#[test]
fn repr_renders_large_capacities() {
    let a = Array::new(10_000_000_000);
    assert_eq!(a.repr().unwrap(), "array([], cap=10000000000)");
}

#[test]
fn list_push_grows_backing_array() {
    let mut heap = Heap::new();
    let list = heap.alloc_list(vec![]);
    for k in 0..9 {
        heap.list_push(list, Value::new_int(k));
    }
    let list_index = heap_array_index(list);
    let array_index = match heap.payload(list_index) {
        Payload::List(l) => l.array,
        _ => panic!("expected a list record"),
    };
    match heap.payload(array_index) {
        Payload::Array(a) => {
            assert_eq!(a.len(), 9);
            assert!(a.capacity() >= 9);
            for k in 0..9 {
                assert_eq!(a.content()[k], Value::new_int(k as i32));
            }
        },
        _ => panic!("expected an array record"),
    }
}
