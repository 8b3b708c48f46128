use starlark_heap::freeze::Freezer;
use starlark_heap::heap::{FrozenPayload, Heap};
use starlark_heap::slots::{FrozenSlots, ModuleSlotId, MutableSlots};
use starlark_heap::value::{FrozenValue, Value};

#[test]
fn slots_scenario_with_freeze() {
    let mut heap = Heap::new();
    let v = heap.alloc_str(b"hi".to_vec());

    let mut slots = MutableSlots::new();
    slots.ensure_slots(3);
    assert_eq!(slots.len(), 3);

    // Slot 1 exists but is unassigned: distinct from not existing.
    assert_eq!(slots.get_slot(ModuleSlotId::new(1)), None);

    slots.set_slot(ModuleSlotId::new(1), v);
    assert_eq!(slots.get_slot(ModuleSlotId::new(1)), Some(v));

    // Growing to a smaller size is a no-op.
    slots.ensure_slots(2);
    assert_eq!(slots.len(), 3);
    assert_eq!(slots.get_slot(ModuleSlotId::new(1)), Some(v));

    let mut freezer = Freezer::new(&heap);
    let frozen: FrozenSlots = slots.freeze(&heap, &mut freezer).unwrap();
    let (frozen_heap, _) = freezer.finish();

    assert_eq!(frozen.len(), 3);
    assert_eq!(frozen.get_slot(ModuleSlotId::new(0)), None);
    assert_eq!(frozen.get_slot(ModuleSlotId::new(2)), None);
    let fv = frozen.get_slot(ModuleSlotId::new(1)).unwrap();
    match fv {
        FrozenValue::Ref(i) => match frozen_heap.payload(i) {
            FrozenPayload::Str(s) => assert_eq!(s.bytes, b"hi".to_vec()),
            _ => panic!("expected the frozen image of the stored string"),
        },
        _ => panic!("expected a frozen reference"),
    }
}

#[test]
fn ensure_slot_grows_to_cover_index() {
    let mut slots = MutableSlots::new();
    slots.ensure_slot(ModuleSlotId::new(4));
    assert_eq!(slots.len(), 5);
    for k in 0..5 {
        assert_eq!(slots.get_slot(ModuleSlotId::new(k)), None);
    }
}

#[test]
fn set_slot_overwrites() {
    let mut slots = MutableSlots::new();
    slots.ensure_slots(2);
    slots.set_slot(ModuleSlotId::new(0), Value::new_int(1));
    slots.set_slot(ModuleSlotId::new(0), Value::new_int(2));
    assert_eq!(slots.get_slot(ModuleSlotId::new(0)), Some(Value::new_int(2)));
    assert_eq!(slots.get_slot(ModuleSlotId::new(1)), None);
}

#[test]
fn unassigned_slots_freeze_to_unassigned() {
    let heap = Heap::new();
    let mut slots = MutableSlots::new();
    slots.ensure_slots(2);
    let mut freezer = Freezer::new(&heap);
    let frozen = slots.freeze(&heap, &mut freezer).unwrap();
    assert_eq!(frozen.get_slot(ModuleSlotId::new(0)), None);
    assert_eq!(frozen.get_slot(ModuleSlotId::new(1)), None);
}
