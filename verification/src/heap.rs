//! The two arenas: the mutable heap of one evaluation, and the immutable
//! frozen heap it is converted into.
//!
//! Every heap-resident value is a record in an index-addressed arena. The
//! record's variant plays the role of the dispatch header: it identifies
//! the concrete type, its operations, and its size. Records never move;
//! copying passes (freeze, trace) relocate values into a fresh arena and
//! record the relocation in a side table keyed by the old index.
//!
//! Record 0 of every mutable heap is the shared zero-capacity array; the
//! first records of every frozen heap are the shared empty tuple, empty
//! list and empty string. Shared constants are returned by reference
//! instead of being allocated anew.
//!
//! Allocation can fail only by exhaustion, which is fatal rather than
//! recoverable; the machine-limit preconditions on the allocators stand
//! for that.

use vstd::prelude::*;
use crate::array::Array;
use crate::num::StarlarkFloat;
use crate::value::{
    value_ok, frozen_value_ok, Value, FrozenValue, EMPTY_ARRAY_INDEX, EMPTY_TUPLE_INDEX,
    EMPTY_LIST_INDEX, EMPTY_STRING_INDEX, STATIC_FROZEN_COUNT,
};

verus! {

/// A string payload: its bytes are the variable-length extra region.
#[derive(Debug)]
pub struct StarlarkStr {
    pub bytes: Vec<u8>,
}

/// A tuple payload: its elements are the variable-length extra region.
/// The empty tuple is never heap-allocated, so a tuple record always has
/// at least one element.
#[derive(Debug)]
pub struct Tuple {
    pub content: Vec<Value>,
}

/// A list payload: it holds the index of its backing array record.
#[derive(Debug)]
pub struct List {
    pub array: usize,
}

/// A user-defined record that may hold references to other values; the
/// representative of the complex payload category.
#[derive(Debug)]
pub struct Record {
    pub fields: Vec<Value>,
}

/// A function definition: a complex payload whose frozen image is
/// registered with the freezer for post-freeze fixups.
#[derive(Debug)]
pub struct Def {
    pub name: Vec<u8>,
    pub captured: Vec<Value>,
}

/// A record of the mutable heap.
#[derive(Debug)]
pub enum Payload {
    Str(StarlarkStr),
    Tuple(Tuple),
    List(List),
    Array(Array),
    Float(StarlarkFloat),
    Record(Record),
    Def(Def),
}

/// A frozen tuple.
#[derive(Debug)]
pub struct FrozenTuple {
    pub content: Vec<FrozenValue>,
}

/// A frozen list: unlike the mutable list it holds its elements directly,
/// with no backing array.
#[derive(Debug)]
pub struct FrozenList {
    pub content: Vec<FrozenValue>,
}

/// The frozen image of a user-defined record.
#[derive(Debug)]
pub struct FrozenRecord {
    pub fields: Vec<FrozenValue>,
}

/// The frozen image of a function definition.
#[derive(Debug)]
pub struct FrozenDef {
    pub name: Vec<u8>,
    pub captured: Vec<FrozenValue>,
}

/// A record of the frozen heap. Arrays have no frozen counterpart: they
/// are backing storage and are declared unfreezable as standalone values.
#[derive(Debug)]
pub enum FrozenPayload {
    Str(StarlarkStr),
    Tuple(FrozenTuple),
    List(FrozenList),
    Float(StarlarkFloat),
    Record(FrozenRecord),
    Def(FrozenDef),
}

/// Every value a payload holds is well formed for a heap of `n` records,
/// and the payload's own invariants hold.
pub open spec fn payload_ok(n: int, p: Payload) -> bool {
    match p {
        Payload::Str(_) => true,
        Payload::Tuple(t) => t.content.len() >= 1 && (forall|k: int|
            0 <= k < t.content.len() ==> value_ok(n, #[trigger] t.content@[k])),
        Payload::List(l) => l.array < n,
        Payload::Array(a) => a.wf() && (forall|k: int|
            0 <= k < a.content.len() ==> value_ok(n, #[trigger] a.content@[k])),
        Payload::Float(f) => f.wf(),
        Payload::Record(r) => forall|k: int|
            0 <= k < r.fields.len() ==> value_ok(n, #[trigger] r.fields@[k]),
        Payload::Def(d) => forall|k: int|
            0 <= k < d.captured.len() ==> value_ok(n, #[trigger] d.captured@[k]),
    }
}

/// A list record's backing index names an array record.
pub open spec fn list_backing_ok(records: Seq<Payload>, p: Payload) -> bool {
    p matches Payload::List(l) ==> l.array < records.len() && records[l.array as int] is Array
}

/// The shared zero-capacity array.
pub open spec fn is_static_empty_array(p: Payload) -> bool {
    p matches Payload::Array(a) && a.content.len() == 0 && a.capacity == 0 && a.iter_count == 0
}

/// Well-formedness of a mutable heap: the static empty array sits at its
/// reserved index, every reference stays in range, and every list is
/// backed by an array.
pub open spec fn heap_ok(records: Seq<Payload>) -> bool {
    &&& records.len() >= 1
    &&& is_static_empty_array(records[EMPTY_ARRAY_INDEX as int])
    &&& forall|i: int| 0 <= i < records.len() ==> payload_ok(records.len() as int, #[trigger] records[i])
    &&& forall|i: int| 0 <= i < records.len() ==> list_backing_ok(records, #[trigger] records[i])
}

/// Every value a frozen payload holds is in range for a frozen heap of
/// `n` records.
pub open spec fn frozen_payload_ok(n: int, p: FrozenPayload) -> bool {
    match p {
        FrozenPayload::Str(_) => true,
        FrozenPayload::Tuple(t) => forall|k: int|
            0 <= k < t.content.len() ==> frozen_value_ok(n, #[trigger] t.content@[k]),
        FrozenPayload::List(l) => forall|k: int|
            0 <= k < l.content.len() ==> frozen_value_ok(n, #[trigger] l.content@[k]),
        FrozenPayload::Float(f) => f.wf(),
        FrozenPayload::Record(r) => forall|k: int|
            0 <= k < r.fields.len() ==> frozen_value_ok(n, #[trigger] r.fields@[k]),
        FrozenPayload::Def(d) => forall|k: int|
            0 <= k < d.captured.len() ==> frozen_value_ok(n, #[trigger] d.captured@[k]),
    }
}

/// The shared static records at the head of every frozen heap.
pub open spec fn frozen_statics_ok(records: Seq<FrozenPayload>) -> bool {
    &&& records.len() >= STATIC_FROZEN_COUNT
    &&& records[EMPTY_TUPLE_INDEX as int] matches FrozenPayload::Tuple(t) && t.content.len() == 0
    &&& records[EMPTY_LIST_INDEX as int] matches FrozenPayload::List(l) && l.content.len() == 0
    &&& records[EMPTY_STRING_INDEX as int] matches FrozenPayload::Str(s) && s.bytes.len() == 0
}

/// Well-formedness of a frozen heap.
pub open spec fn frozen_heap_ok(records: Seq<FrozenPayload>) -> bool {
    &&& frozen_statics_ok(records)
    &&& forall|i: int|
        0 <= i < records.len() ==> frozen_payload_ok(records.len() as int, #[trigger] records[i])
}

/// Widening: a payload well formed for a heap of `n` records stays well
/// formed when the heap grows.
pub proof fn lemma_payload_ok_widen(n: int, m: int, p: Payload)
    requires
        payload_ok(n, p),
        n <= m,
    ensures
        payload_ok(m, p),
{
}

/// Widening: a frozen payload well formed for a frozen heap of `n`
/// records stays well formed when the heap grows.
pub proof fn lemma_frozen_payload_ok_widen(n: int, m: int, p: FrozenPayload)
    requires
        frozen_payload_ok(n, p),
        n <= m,
    ensures
        frozen_payload_ok(m, p),
{
}

/// One generation of arena-allocated mutable values, owned by one
/// evaluation.
#[derive(Debug)]
pub struct Heap {
    pub records: Vec<Payload>,
}

/// An immutable arena produced by the freeze pass; safely shared once the
/// pass completes.
#[derive(Debug)]
pub struct FrozenHeap {
    pub records: Vec<FrozenPayload>,
}

impl Heap {
    /// Well-formedness of this heap.
    pub open spec fn wf(self) -> bool {
        heap_ok(self.records@)
    }

    /// A fresh, empty heap, holding only the shared static empty array.
    pub fn new() -> (r: Heap)
        ensures
            r.wf(),
            r.records@.len() == 1,
            is_static_empty_array(r.records@[EMPTY_ARRAY_INDEX as int]),
    {
        let mut records: Vec<Payload> = Vec::new();
        records.push(Payload::Array(Array::new(0)));
        Heap { records }
    }

    /// Number of records in the arena.
    pub fn record_count(&self) -> (r: usize)
        ensures
            r == self.records.len(),
    {
        self.records.len()
    }

    /// Borrow the record at `index`.
    pub fn payload(&self, index: usize) -> (r: &Payload)
        requires
            index < self.records.len(),
        ensures
            r == &self.records@[index as int],
    {
        &self.records[index]
    }

    /// Allocate a string. The empty string is the shared static constant
    /// and allocates nothing.
    pub fn alloc_str(&mut self, bytes: Vec<u8>) -> (r: Value)
        requires
            old(self).wf(),
            old(self).records.len() < usize::MAX,
        ensures
            final(self).wf(),
            bytes@.len() == 0 ==> r == Value::FrozenRef(EMPTY_STRING_INDEX) && final(self).records@
                == old(self).records@,
            bytes@.len() > 0 ==> r == Value::Ref(old(self).records.len() as usize) && final(self).records@ == old(self).records@.push(Payload::Str(StarlarkStr { bytes })),
            value_ok(final(self).records.len() as int, r),
    {
        if bytes.len() == 0 {
            Value::FrozenRef(EMPTY_STRING_INDEX)
        } else {
            let index = self.records.len();
            let payload = Payload::Str(StarlarkStr { bytes });
            proof {
                self.lemma_push_preserves_wf(payload);
            }
            self.records.push(payload);
            Value::Ref(index)
        }
    }

    /// Allocate a tuple. The empty tuple is the shared static constant and
    /// allocates nothing.
    pub fn alloc_tuple(&mut self, content: Vec<Value>) -> (r: Value)
        requires
            old(self).wf(),
            old(self).records.len() < usize::MAX,
            forall|k: int|
                0 <= k < content.len() ==> value_ok(
                    old(self).records.len() as int,
                    #[trigger] content@[k],
                ),
        ensures
            final(self).wf(),
            content@.len() == 0 ==> r == Value::FrozenRef(EMPTY_TUPLE_INDEX) && final(self).records@
                == old(self).records@,
            content@.len() > 0 ==> r == Value::Ref(old(self).records.len() as usize) && final(self).records@ == old(self).records@.push(Payload::Tuple(Tuple { content })),
            value_ok(final(self).records.len() as int, r),
    {
        if content.len() == 0 {
            Value::FrozenRef(EMPTY_TUPLE_INDEX)
        } else {
            let index = self.records.len();
            let payload = Payload::Tuple(Tuple { content });
            proof {
                self.lemma_push_preserves_wf(payload);
            }
            self.records.push(payload);
            Value::Ref(index)
        }
    }

    /// Allocate an array with the given capacity. The zero-capacity array
    /// is the shared static instance and allocates nothing.
    pub fn alloc_array(&mut self, capacity: usize) -> (r: Value)
        requires
            old(self).wf(),
            old(self).records.len() < usize::MAX,
        ensures
            final(self).wf(),
            capacity == 0 ==> r == Value::Ref(EMPTY_ARRAY_INDEX) && final(self).records@ == old(self).records@,
            capacity > 0 ==> r == Value::Ref(old(self).records.len() as usize) && final(self).records@.len() == old(self).records@.len() + 1 && old(self).records@.is_prefix_of(
                final(self).records@,
            ),
            r is Ref,
            value_ok(final(self).records.len() as int, r),
            final(self).records@[r->Ref_0 as int] matches Payload::Array(a) && a.content.len() == 0
                && a.capacity == capacity && a.iter_count == 0,
    {
        if capacity == 0 {
            Value::Ref(EMPTY_ARRAY_INDEX)
        } else {
            let index = self.records.len();
            let payload = Payload::Array(Array::new(capacity));
            proof {
                self.lemma_push_preserves_wf(payload);
            }
            self.records.push(payload);
            Value::Ref(index)
        }
    }

    /// Allocate a list holding `content`. The list record is always fresh,
    /// but an empty list is backed by the shared static empty array, so
    /// allocating empty lists shares all storage.
    pub fn alloc_list(&mut self, content: Vec<Value>) -> (r: Value)
        requires
            old(self).wf(),
            old(self).records.len() < usize::MAX - 1,
            forall|k: int|
                0 <= k < content.len() ==> value_ok(
                    old(self).records.len() as int,
                    #[trigger] content@[k],
                ),
        ensures
            final(self).wf(),
            r == Value::Ref((final(self).records.len() - 1) as usize),
            final(self).records@.last() matches Payload::List(l) && final(self).records@[l.array
                as int] matches Payload::Array(a) && a.content@ == content@ && (content@.len() == 0
                ==> l.array == EMPTY_ARRAY_INDEX),
            content@.len() == 0 ==> final(self).records@ == old(self).records@.push(
                Payload::List(List { array: EMPTY_ARRAY_INDEX }),
            ),
            content@.len() > 0 ==> final(self).records@ == old(self).records@.push(
                Payload::Array(
                    Array { content, capacity: content@.len() as usize, iter_count: 0 },
                ),
            ).push(Payload::List(List { array: old(self).records@.len() as usize })),
    {
        if content.len() == 0 {
            let index = self.records.len();
            let payload = Payload::List(List { array: EMPTY_ARRAY_INDEX });
            proof {
                self.lemma_push_preserves_wf(payload);
            }
            self.records.push(payload);
            Value::Ref(index)
        } else {
            let array_index = self.records.len();
            let capacity = content.len();
            let array_payload = Payload::Array(Array { content, capacity, iter_count: 0 });
            proof {
                self.lemma_push_preserves_wf(array_payload);
            }
            self.records.push(array_payload);
            let index = self.records.len();
            let list_payload = Payload::List(List { array: array_index });
            proof {
                self.lemma_push_preserves_wf(list_payload);
            }
            self.records.push(list_payload);
            Value::Ref(index)
        }
    }

    /// Allocate a float.
    pub fn alloc_float(&mut self, f: StarlarkFloat) -> (r: Value)
        requires
            old(self).wf(),
            old(self).records.len() < usize::MAX,
            f.wf(),
        ensures
            final(self).wf(),
            r == Value::Ref(old(self).records.len() as usize),
            final(self).records@ == old(self).records@.push(Payload::Float(f)),
    {
        let index = self.records.len();
        let payload = Payload::Float(f);
        proof {
            self.lemma_push_preserves_wf(payload);
        }
        self.records.push(payload);
        Value::Ref(index)
    }

    /// Allocate a user-defined record value.
    pub fn alloc_record(&mut self, fields: Vec<Value>) -> (r: Value)
        requires
            old(self).wf(),
            old(self).records.len() < usize::MAX,
            forall|k: int|
                0 <= k < fields.len() ==> value_ok(
                    old(self).records.len() as int,
                    #[trigger] fields@[k],
                ),
        ensures
            final(self).wf(),
            r == Value::Ref(old(self).records.len() as usize),
            final(self).records@ == old(self).records@.push(Payload::Record(Record { fields })),
    {
        let index = self.records.len();
        let payload = Payload::Record(Record { fields });
        proof {
            self.lemma_push_preserves_wf(payload);
        }
        self.records.push(payload);
        Value::Ref(index)
    }

    /// Allocate a function definition value.
    pub fn alloc_def(&mut self, name: Vec<u8>, captured: Vec<Value>) -> (r: Value)
        requires
            old(self).wf(),
            old(self).records.len() < usize::MAX,
            forall|k: int|
                0 <= k < captured.len() ==> value_ok(
                    old(self).records.len() as int,
                    #[trigger] captured@[k],
                ),
        ensures
            final(self).wf(),
            r == Value::Ref(old(self).records.len() as usize),
            final(self).records@ == old(self).records@.push(Payload::Def(Def { name, captured })),
    {
        let index = self.records.len();
        let payload = Payload::Def(Def { name, captured });
        proof {
            self.lemma_push_preserves_wf(payload);
        }
        self.records.push(payload);
        Value::Ref(index)
    }

    /// Pushing a payload whose values are in range for the grown heap
    /// preserves well-formedness.
    proof fn lemma_push_preserves_wf(self, p: Payload)
        requires
            self.wf(),
            payload_ok(self.records@.len() + 1 as int, p),
            list_backing_ok(self.records@.push(p), p),
        ensures
            heap_ok(self.records@.push(p)),
    {
        let old_records = self.records@;
        let new_records = old_records.push(p);
        let n = new_records.len() as int;
        assert forall|i: int| 0 <= i < n implies payload_ok(n, #[trigger] new_records[i]) by {
            if i < old_records.len() {
                lemma_payload_ok_widen(old_records.len() as int, n, old_records[i]);
            }
        }
        assert forall|i: int| 0 <= i < n implies list_backing_ok(
            new_records,
            #[trigger] new_records[i],
        ) by {
            if i < old_records.len() {
                assert(list_backing_ok(old_records, old_records[i]));
            }
        }
    }
}

impl FrozenHeap {
    /// Well-formedness of this frozen heap.
    pub open spec fn wf(self) -> bool {
        frozen_heap_ok(self.records@)
    }

    /// A fresh frozen arena holding only the shared static constants.
    pub fn new() -> (r: FrozenHeap)
        ensures
            r.wf(),
            r.records@.len() == STATIC_FROZEN_COUNT,
    {
        let mut records: Vec<FrozenPayload> = Vec::new();
        records.push(FrozenPayload::Tuple(FrozenTuple { content: Vec::new() }));
        records.push(FrozenPayload::List(FrozenList { content: Vec::new() }));
        records.push(FrozenPayload::Str(StarlarkStr { bytes: Vec::new() }));
        FrozenHeap { records }
    }

    /// Number of records in the frozen arena.
    pub fn record_count(&self) -> (r: usize)
        ensures
            r == self.records.len(),
    {
        self.records.len()
    }

    /// Borrow the record at `index`.
    pub fn payload(&self, index: usize) -> (r: &FrozenPayload)
        requires
            index < self.records.len(),
        ensures
            r == &self.records@[index as int],
    {
        &self.records[index]
    }
}

/// The values record `i` owns, as the copying passes traverse them: a
/// list's owned values are the elements of its backing array.
pub open spec fn record_children(records: Seq<Payload>, i: int) -> Seq<Value> {
    match records[i] {
        Payload::Str(_) => Seq::<Value>::empty(),
        Payload::Tuple(t) => t.content@,
        Payload::List(l) => match records[l.array as int] {
            Payload::Array(a) => a.content@,
            _ => Seq::<Value>::empty(),
        },
        Payload::Array(a) => a.content@,
        Payload::Float(_) => Seq::<Value>::empty(),
        Payload::Record(r) => r.fields@,
        Payload::Def(d) => d.captured@,
    }
}

/// A chain of records, each owning a reference to the next.
pub open spec fn is_record_path(records: Seq<Payload>, path: Seq<int>) -> bool {
    &&& forall|t: int| 0 <= t < path.len() ==> 0 <= #[trigger] path[t] < records.len()
    &&& forall|t: int|
        0 <= t < path.len() - 1 ==> record_children(records, #[trigger] path[t]).contains(
            Value::Ref(path[t + 1] as usize),
        )
}

/// Record `j` is reachable from value `v`: some chain of owned
/// references leads from `v` to it.
pub open spec fn reaches(records: Seq<Payload>, v: Value, j: int) -> bool {
    exists|path: Seq<int>|
        is_record_path(records, path) && path.len() >= 1 && v == Value::Ref(path[0] as usize)
            && path.last() == j
}

/// A reference reaches its own record.
pub proof fn lemma_reaches_self(records: Seq<Payload>, i: int)
    requires
        0 <= i < records.len(),
    ensures
        reaches(records, Value::Ref(i as usize), i),
{
    let path: Seq<int> = seq![i];
    assert(is_record_path(records, path));
    assert(path.len() >= 1 && Value::Ref(i as usize) == Value::Ref(path[0] as usize)
        && path.last() == i);
}

/// Reachability steps through an owned value: whatever one of record
/// `i`'s owned values reaches, a reference to `i` reaches too.
pub proof fn lemma_reaches_step(records: Seq<Payload>, i: int, v2: Value, j: int)
    requires
        0 <= i < records.len(),
        record_children(records, i).contains(v2),
        reaches(records, v2, j),
    ensures
        reaches(records, Value::Ref(i as usize), j),
{
    let tail = choose|path: Seq<int>|
        is_record_path(records, path) && path.len() >= 1 && v2 == Value::Ref(path[0] as usize)
            && path.last() == j;
    let path = seq![i] + tail;
    assert forall|t: int| 0 <= t < path.len() implies 0 <= #[trigger] path[t] < records.len() by {
        if t > 0 {
            assert(path[t] == tail[t - 1]);
        }
    }
    assert forall|t: int| 0 <= t < path.len() - 1 implies record_children(
        records,
        #[trigger] path[t],
    ).contains(Value::Ref(path[t + 1] as usize)) by {
        if t == 0 {
            assert(path[1] == tail[0]);
            assert(v2 == Value::Ref(tail[0] as usize));
        } else {
            assert(path[t] == tail[t - 1] && path[t + 1] == tail[t]);
            assert(record_children(records, tail[t - 1]).contains(Value::Ref(tail[t] as usize)));
        }
    }
    assert(is_record_path(records, path));
    assert(path.last() == j);
}

/// The backing array record of the list at record `li`.
pub open spec fn list_backing_array(records: Seq<Payload>, li: int) -> Array {
    records[records[li]->List_0.array as int]->Array_0
}

/// The elements of the list at record `li`: the contents of its backing
/// array.
pub open spec fn list_elements(records: Seq<Payload>, li: int) -> Seq<Value> {
    match records[li] {
        Payload::List(l) => match records[l.array as int] {
            Payload::Array(a) => a.content@,
            _ => Seq::<Value>::empty(),
        },
        _ => Seq::<Value>::empty(),
    }
}

impl Heap {
    /// Append `value` to the array record that `array` names. The array
    /// must have room and no outstanding iterator; arrays never grow.
    pub fn array_push(&mut self, array: Value, value: Value)
        requires
            old(self).wf(),
            array is Ref,
            array->Ref_0 < old(self).records.len(),
            old(self).records@[array->Ref_0 as int] matches Payload::Array(a) && a.content.len()
                < a.capacity && a.iter_count == 0,
            value_ok(old(self).records.len() as int, value),
        ensures
            final(self).wf(),
            final(self).records@.len() == old(self).records@.len(),
            forall|j: int|
                0 <= j < old(self).records@.len() && j != array->Ref_0 ==> final(self).records@[j]
                    == old(self).records@[j],
            final(self).records@[array->Ref_0 as int] matches Payload::Array(na) && old(
                self,
            ).records@[array->Ref_0 as int] matches Payload::Array(oa) && na.content@
                == oa.content@.push(value) && na.capacity == oa.capacity && na.iter_count == 0,
    {
        let i: usize = match array {
            Value::Ref(i) => i,
            _ => {
                proof {
                    assert(false);
                }
                0
            },
        };
        let record = &mut self.records[i];
        match record {
            Payload::Array(a) => {
                a.push(value);
            },
            _ => {
                proof {
                    assert(false);
                }
            },
        }
        proof {
            let or = old(self).records@;
            let nr = self.records@;
            let n = nr.len() as int;
            assert forall|j: int| 0 <= j < n implies payload_ok(n, #[trigger] nr[j]) by {
                assert(payload_ok(n, or[j]));
                if j == i {
                    let oa = or[j]->Array_0;
                    let na = nr[j]->Array_0;
                    assert forall|k: int| 0 <= k < na.content.len() implies value_ok(
                        n,
                        #[trigger] na.content@[k],
                    ) by {
                        if k < oa.content.len() {
                            assert(value_ok(n, oa.content@[k]));
                        }
                    }
                }
            }
            assert forall|j: int| 0 <= j < n implies list_backing_ok(nr, #[trigger] nr[j]) by {
                assert(list_backing_ok(or, or[j]));
            }
        }
    }

    /// Append `value` to the list that `list` names. When the backing
    /// array is full a larger array record is allocated, the elements are
    /// carried over, and the list is repointed at it; the old array record
    /// is abandoned in place.
    pub fn list_push(&mut self, list: Value, value: Value)
        requires
            old(self).wf(),
            list is Ref,
            list->Ref_0 < old(self).records.len(),
            old(self).records@[list->Ref_0 as int] is List,
            list_backing_array(old(self).records@, list->Ref_0 as int).iter_count == 0,
            list_backing_array(old(self).records@, list->Ref_0 as int).content.len() <= (usize::MAX
                - 4) / 2,
            value_ok(old(self).records.len() as int, value),
            old(self).records.len() < usize::MAX - 1,
        ensures
            final(self).wf(),
            old(self).records@.len() <= final(self).records@.len() <= old(self).records@.len() + 1,
            list_elements(final(self).records@, list->Ref_0 as int) == list_elements(
                old(self).records@,
                list->Ref_0 as int,
            ).push(value),
            final(self).records@[list->Ref_0 as int] is List,
            forall|j: int|
                0 <= j < old(self).records@.len() && j != list->Ref_0 && j != old(
                    self,
                ).records@[list->Ref_0 as int]->List_0.array ==> final(self).records@[j] == old(
                    self,
                ).records@[j],
    {
        let li: usize = match list {
            Value::Ref(li) => li,
            _ => {
                proof {
                    assert(false);
                }
                0
            },
        };
        let ai: usize = match &self.records[li] {
            Payload::List(l) => l.array,
            _ => {
                proof {
                    assert(false);
                }
                0
            },
        };
        let (len, cap): (usize, usize) = match &self.records[ai] {
            Payload::Array(a) => (a.len(), a.capacity()),
            _ => {
                proof {
                    assert(false);
                }
                (0, 0)
            },
        };
        proof {
            assert(self.records@[ai as int]->Array_0 == list_backing_array(
                old(self).records@,
                li as int,
            ));
            assert(len <= (usize::MAX - 4) / 2);
        }
        if len < cap {
            let record = &mut self.records[ai];
            match record {
                Payload::Array(a) => {
                    a.push(value);
                },
                _ => {
                    proof {
                        assert(false);
                    }
                },
            }
            proof {
                let or = old(self).records@;
                let nr = self.records@;
                let n = nr.len() as int;
                assert forall|j: int| 0 <= j < n implies payload_ok(n, #[trigger] nr[j]) by {
                    assert(payload_ok(n, or[j]));
                    if j == ai {
                        let oa = or[j]->Array_0;
                        let na = nr[j]->Array_0;
                        assert forall|k: int| 0 <= k < na.content.len() implies value_ok(
                            n,
                            #[trigger] na.content@[k],
                        ) by {
                            if k < oa.content.len() {
                                assert(value_ok(n, oa.content@[k]));
                            }
                        }
                    }
                }
                assert forall|j: int| 0 <= j < n implies list_backing_ok(nr, #[trigger] nr[j]) by {
                    assert(list_backing_ok(or, or[j]));
                }
                assert(list_elements(nr, li as int) == list_elements(or, li as int).push(value));
            }
        } else {
            let new_cap: usize = if len == 0 {
                4
            } else {
                len * 2
            };
            let mut new_content: Vec<Value> = Vec::new();
            let mut k: usize = 0;
            while k < len
                invariant
                    k <= len,
                    self == old(self),
                    ai < self.records.len(),
                    self.records@[ai as int] matches Payload::Array(a) && a.content.len() == len
                        && new_content@ == a.content@.subrange(0, k as int),
                decreases len - k,
            {
                let elem: Value = match &self.records[ai] {
                    Payload::Array(a) => a.content[k],
                    _ => {
                        proof {
                            assert(false);
                        }
                        Value::NoneType
                    },
                };
                new_content.push(elem);
                proof {
                    let a = self.records@[ai as int]->Array_0;
                    assert(new_content@ == a.content@.subrange(0, k + 1 as int));
                }
                k = k + 1;
            }
            new_content.push(value);
            let ni = self.records.len();
            let new_array = Array { content: new_content, capacity: new_cap, iter_count: 0 };
            let payload = Payload::Array(new_array);
            proof {
                let oa = old(self).records@[ai as int]->Array_0;
                assert(oa.content@.subrange(0, len as int) == oa.content@);
                assert forall|k2: int|
                    0 <= k2 < payload->Array_0.content.len() implies value_ok(
                    self.records@.len() + 1 as int,
                    #[trigger] payload->Array_0.content@[k2],
                ) by {
                    if k2 < len {
                        assert(payload->Array_0.content@[k2] == oa.content@[k2]);
                        assert(payload_ok(self.records@.len() as int, old(self).records@[ai as int]));
                    }
                }
                self.lemma_push_preserves_wf(payload);
            }
            self.records.push(payload);
            let record = &mut self.records[li];
            match record {
                Payload::List(l) => {
                    l.array = ni;
                },
                _ => {
                    proof {
                        assert(false);
                    }
                },
            }
            proof {
                let or = old(self).records@;
                let nr = self.records@;
                let n = nr.len() as int;
                assert forall|j: int| 0 <= j < n implies payload_ok(n, #[trigger] nr[j]) by {
                    if j != li {
                        if j < or.len() {
                            lemma_payload_ok_widen(or.len() as int, n, or[j]);
                            assert(payload_ok(n, or[j]));
                        }
                    }
                }
                assert forall|j: int| 0 <= j < n implies list_backing_ok(nr, #[trigger] nr[j]) by {
                    if j != li && j < or.len() {
                        assert(list_backing_ok(or, or[j]));
                    }
                }
                let oa = or[ai as int]->Array_0;
                assert(list_elements(nr, li as int) == oa.content@.push(value));
            }
        }
    }
}

} // verus!
