//! Module slots: the indexed, lazily-sized table mapping compile-time
//! variable indices to values within one evaluation scope.
//!
//! "Unassigned" is a distinguishable sentinel stored in the table, not
//! absence from it: reading an unassigned slot is how the evaluator
//! detects use before definition. Freezing a slot table freezes every
//! slot positionally, preserving index correspondence exactly.

use vstd::prelude::*;
use crate::error::FreezeError;
use crate::freeze::{fwd_monotone, lemma_value_mapped_monotone, value_mapped, Freezer};
use crate::heap::{reaches, Heap};
use crate::value::{value_ok, FrozenValue, Value};

verus! {

/// A compile-time-resolved slot index.
#[derive(Clone, Copy, Debug, PartialEq, Eq, Structural)]
pub struct ModuleSlotId(pub usize);

impl ModuleSlotId {
    /// Wrap a raw index.
    pub fn new(index: usize) -> (r: ModuleSlotId)
        ensures
            r.0 == index,
    {
        ModuleSlotId(index)
    }
}

/// Indexed slots of a module during evaluation. May contain unassigned
/// values.
#[derive(Debug)]
pub struct MutableSlots {
    pub slots: Vec<Value>,
}

/// Indexed slots of a frozen module. May contain unassigned values.
#[derive(Debug)]
pub struct FrozenSlots {
    pub slots: Vec<FrozenValue>,
}

impl MutableSlots {
    /// An empty slot table.
    pub fn new() -> (r: MutableSlots)
        ensures
            r.slots@ == Seq::<Value>::empty(),
    {
        MutableSlots { slots: Vec::new() }
    }

    /// Number of slots the table currently holds.
    pub fn len(&self) -> (r: usize)
        ensures
            r == self.slots.len(),
    {
        self.slots.len()
    }

    /// Read a slot: the value, or `None` for the unassigned sentinel —
    /// distinct from the slot not existing, which is excluded by
    /// precondition.
    pub fn get_slot(&self, slot: ModuleSlotId) -> (r: Option<Value>)
        requires
            slot.0 < self.slots.len(),
        ensures
            r == if self.slots@[slot.0 as int] == Value::Unassigned {
                Option::<Value>::None
            } else {
                Some(self.slots@[slot.0 as int])
            },
    {
        let v = self.slots[slot.0];
        if v.is_unassigned() {
            None
        } else {
            Some(v)
        }
    }

    /// Write a slot. Storing the unassigned sentinel is a contract
    /// violation and is excluded by precondition.
    pub fn set_slot(&mut self, slot: ModuleSlotId, value: Value)
        requires
            slot.0 < old(self).slots.len(),
            value != Value::Unassigned,
        ensures
            final(self).slots@ == old(self).slots@.update(slot.0 as int, value),
    {
        self.slots.set(slot.0, value);
    }

    /// Grow the table so that `slot` is a valid index.
    pub fn ensure_slot(&mut self, slot: ModuleSlotId)
        requires
            slot.0 < usize::MAX,
        ensures
            final(self).slots@.len() == if old(self).slots@.len() >= slot.0 + 1 {
                old(self).slots@.len() as int
            } else {
                slot.0 + 1
            },
            forall|j: int|
                0 <= j < old(self).slots@.len() ==> final(self).slots@[j] == old(self).slots@[j],
            forall|j: int|
                old(self).slots@.len() <= j < final(self).slots@.len() ==> final(self).slots@[j]
                    == Value::Unassigned,
    {
        self.ensure_slots(slot.0 + 1);
    }

    /// Grow (never shrink) the table so that indices below `count` are
    /// valid, filling new entries with the unassigned sentinel.
    pub fn ensure_slots(&mut self, count: usize)
        ensures
            final(self).slots@.len() == if old(self).slots@.len() >= count {
                old(self).slots@.len() as int
            } else {
                count as int
            },
            forall|j: int|
                0 <= j < old(self).slots@.len() ==> final(self).slots@[j] == old(self).slots@[j],
            forall|j: int|
                old(self).slots@.len() <= j < final(self).slots@.len() ==> final(self).slots@[j]
                    == Value::Unassigned,
    {
        while self.slots.len() < count
            invariant
                old(self).slots@.len() <= self.slots@.len(),
                count > old(self).slots@.len() ==> self.slots@.len() <= count,
                count <= old(self).slots@.len() ==> self.slots@.len() == old(self).slots@.len(),
                forall|j: int|
                    0 <= j < old(self).slots@.len() ==> self.slots@[j] == old(self).slots@[j],
                forall|j: int|
                    old(self).slots@.len() <= j < self.slots@.len() ==> self.slots@[j]
                        == Value::Unassigned,
            decreases count - self.slots@.len(),
        {
            self.slots.push(Value::new_unassigned());
        }
    }

    /// Freeze the table: every slot is frozen positionally, unassigned
    /// slots staying unassigned, and index correspondence is preserved
    /// exactly. All-or-nothing: on failure no frozen table is produced.
    pub fn freeze(self, heap: &Heap, freezer: &mut Freezer) -> (r: Result<
        FrozenSlots,
        FreezeError,
    >)
        requires
            heap.wf(),
            forall|k: int|
                0 <= k < self.slots@.len() ==> value_ok(
                    heap.records@.len() as int,
                    #[trigger] self.slots@[k],
                ),
            old(freezer).inv(heap.records@, Set::<int>::empty()),
        ensures
            final(freezer).basic_inv(heap.records@),
            fwd_monotone(old(freezer).fwd@, final(freezer).fwd@),
            r matches Ok(fs) ==> final(freezer).inv(heap.records@, Set::<int>::empty())
                && fs.slots@.len() == self.slots@.len() && (forall|k: int|
                0 <= k < self.slots@.len() ==> value_mapped(
                    final(freezer).fwd@,
                    self.slots@[k],
                    #[trigger] fs.slots@[k],
                )),
            r matches Err(e) ==> e matches FreezeError::UnfreezableArray { index } && index
                < heap.records@.len() && heap.records@[index as int] is Array && (exists|k: int|
                0 <= k < self.slots@.len() && #[trigger] reaches(
                    heap.records@,
                    self.slots@[k],
                    index as int,
                )),
    {
        let mut frozen: Vec<FrozenValue> = Vec::new();
        let count = self.slots.len();
        let mut k: usize = 0;
        while k < count
            invariant
                heap.wf(),
                count == self.slots@.len(),
                forall|j: int|
                    0 <= j < self.slots@.len() ==> value_ok(
                        heap.records@.len() as int,
                        #[trigger] self.slots@[j],
                    ),
                k <= count,
                frozen@.len() == k,
                freezer.inv(heap.records@, Set::<int>::empty()),
                fwd_monotone(old(freezer).fwd@, freezer.fwd@),
                forall|j: int|
                    0 <= j < k ==> value_mapped(freezer.fwd@, self.slots@[j], #[trigger] frozen@[j]),
            decreases count - k,
        {
            let ghost fwd_pre = freezer.fwd@;
            let fv = match freezer.freeze(heap, self.slots[k]) {
                Ok(fv) => fv,
                Err(e) => {
                    proof {
                        match e {
                            FreezeError::UnfreezableArray { index } => {
                                assert(0 <= k < self.slots@.len() && reaches(
                                    heap.records@,
                                    self.slots@[k as int],
                                    index as int,
                                ));
                            },
                        }
                    }
                    return Err(e);
                },
            };
            proof {
                assert forall|j: int| 0 <= j < k implies value_mapped(
                    freezer.fwd@,
                    self.slots@[j],
                    #[trigger] frozen@[j],
                ) by {
                    lemma_value_mapped_monotone(fwd_pre, freezer.fwd@, self.slots@[j], frozen@[j]);
                }
            }
            frozen.push(fv);
            k = k + 1;
        }
        Ok(FrozenSlots { slots: frozen })
    }
}

impl FrozenSlots {
    /// Read a frozen slot: the value, or `None` for the unassigned
    /// sentinel.
    pub fn get_slot(&self, slot: ModuleSlotId) -> (r: Option<FrozenValue>)
        requires
            slot.0 < self.slots.len(),
        ensures
            r == if self.slots@[slot.0 as int] == FrozenValue::Unassigned {
                Option::<FrozenValue>::None
            } else {
                Some(self.slots@[slot.0 as int])
            },
    {
        let fv = self.slots[slot.0];
        if fv.is_unassigned() {
            None
        } else {
            Some(fv)
        }
    }

    /// Number of slots the frozen table holds.
    pub fn len(&self) -> (r: usize)
        ensures
            r == self.slots.len(),
    {
        self.slots.len()
    }
}

} // verus!
