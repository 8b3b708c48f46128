//! The freeze engine: one-shot conversion of a mutable heap graph into an
//! immutable frozen graph, cycle-safe.
//!
//! The engine keeps a forwarding table, keyed by mutable-heap record
//! index: `fwd[i] == Some(n)` means record `i` has been relocated to
//! frozen record `n`. The core correctness invariant is the order of
//! operations: the destination record is allocated and the forwarding
//! entry is written *before* the engine recurses into any referenced
//! sub-value, so a cyclic reference encountered during the recursion
//! resolves through the table to the (still-being-filled, address-stable)
//! destination instead of recursing forever. Termination follows from the
//! same discipline: every level of recursion forwards one more record,
//! and a record is never forwarded twice.
//!
//! Freezing is all-or-nothing at the public boundary: the engine only
//! reads the mutable heap, so on failure the caller keeps the unfrozen
//! heap and simply drops the freezer with its partial frozen arena.

use vstd::prelude::*;
use crate::array::Array;
use crate::error::FreezeError;
use crate::heap::{
    frozen_payload_ok, lemma_frozen_payload_ok_widen, lemma_reaches_self, lemma_reaches_step,
    reaches, record_children, FrozenDef, FrozenHeap, FrozenList, FrozenPayload, FrozenRecord,
    FrozenTuple, Heap, Payload, StarlarkStr,
};
use crate::value::{
    copy_bytes, copy_values, frozen_value_ok, value_ok, FrozenValue, Value, EMPTY_LIST_INDEX,
    STATIC_FROZEN_COUNT,
};

verus! {

/// Number of entries of a forwarding table that have been assigned.
pub open spec fn count_some(s: Seq<Option<usize>>) -> int
    decreases s.len(),
{
    if s.len() == 0 {
        0
    } else {
        count_some(s.drop_last()) + if s.last() is Some {
            1int
        } else {
            0int
        }
    }
}

/// The assigned-entry count is bounded by the table length.
pub proof fn lemma_count_some_le_len(s: Seq<Option<usize>>)
    ensures
        0 <= count_some(s) <= s.len(),
    decreases s.len(),
{
    if s.len() > 0 {
        lemma_count_some_le_len(s.drop_last());
    }
}

/// Assigning an unassigned entry raises the count by exactly one.
pub proof fn lemma_count_some_update(s: Seq<Option<usize>>, i: int, v: Option<usize>)
    requires
        0 <= i < s.len(),
        s[i] is None,
        v is Some,
    ensures
        count_some(s.update(i, v)) == count_some(s) + 1,
    decreases s.len(),
{
    let s2 = s.update(i, v);
    if i == s.len() - 1 {
        assert(s2.drop_last() == s.drop_last());
    } else {
        assert(s2.drop_last() == s.drop_last().update(i, v));
        assert(s2.last() == s.last());
        lemma_count_some_update(s.drop_last(), i, v);
    }
}

/// A forwarding table only ever grows: entries already assigned keep
/// their target.
pub open spec fn fwd_monotone(a: Seq<Option<usize>>, b: Seq<Option<usize>>) -> bool {
    &&& a.len() == b.len()
    &&& forall|i: int| 0 <= i < a.len() && a[i] is Some ==> #[trigger] b[i] == a[i]
}

/// Growth of the table never lowers the assigned-entry count.
pub proof fn lemma_count_some_monotone(a: Seq<Option<usize>>, b: Seq<Option<usize>>)
    requires
        fwd_monotone(a, b),
    ensures
        count_some(b) >= count_some(a),
    decreases a.len(),
{
    if a.len() > 0 {
        assert forall|i: int|
            0 <= i < a.drop_last().len() && a.drop_last()[i] is Some implies #[trigger] b.drop_last()[i]
            == a.drop_last()[i] by {
            assert(b[i] == a[i]);
        }
        lemma_count_some_monotone(a.drop_last(), b.drop_last());
        assert(a.last() is Some ==> b.last() == a.last());
    }
}

/// How a mutable value and its frozen image relate, given a forwarding
/// table: immediates are unchanged, frozen references are kept, and a
/// heap reference must be forwarded to the image's index.
pub open spec fn value_mapped(fwd: Seq<Option<usize>>, v: Value, fv: FrozenValue) -> bool {
    match v {
        Value::NoneType => fv == FrozenValue::NoneType,
        Value::Unassigned => fv == FrozenValue::Unassigned,
        Value::Bool(b) => fv == FrozenValue::Bool(b),
        Value::Int(i) => fv == FrozenValue::Int(i),
        Value::FrozenRef(i) => fv == FrozenValue::Ref(i),
        Value::Ref(i) => i < fwd.len() && (fwd[i as int] matches Some(n) && fv
            == FrozenValue::Ref(n)),
    }
}

/// A mapped value stays mapped as the forwarding table grows.
pub proof fn lemma_value_mapped_monotone(
    a: Seq<Option<usize>>,
    b: Seq<Option<usize>>,
    v: Value,
    fv: FrozenValue,
)
    requires
        fwd_monotone(a, b),
        value_mapped(a, v, fv),
    ensures
        value_mapped(b, v, fv),
{
}

/// How a mutable record and its frozen image relate: same content, with
/// every owned value mapped through the forwarding table. A list's
/// elements are those of its backing array; the frozen list holds them
/// directly. Bare arrays have no frozen image.
pub open spec fn record_corresponds(
    records: Seq<Payload>,
    fwd: Seq<Option<usize>>,
    p: Payload,
    fp: FrozenPayload,
) -> bool {
    match p {
        Payload::Str(s) => fp matches FrozenPayload::Str(fs) && fs.bytes@ == s.bytes@,
        Payload::Float(f) => fp == FrozenPayload::Float(f),
        Payload::Tuple(t) => fp matches FrozenPayload::Tuple(ft) && ft.content.len()
            == t.content.len() && (forall|k: int|
            0 <= k < t.content.len() ==> value_mapped(
                fwd,
                t.content@[k],
                #[trigger] ft.content@[k],
            )),
        Payload::List(l) => l.array < records.len() && (records[l.array as int] matches
        Payload::Array(a) && (fp matches FrozenPayload::List(fl) && fl.content.len()
            == a.content.len() && (forall|k: int|
            0 <= k < a.content.len() ==> value_mapped(
                fwd,
                a.content@[k],
                #[trigger] fl.content@[k],
            )))),
        Payload::Array(_) => false,
        Payload::Record(r) => fp matches FrozenPayload::Record(fr) && fr.fields.len()
            == r.fields.len() && (forall|k: int|
            0 <= k < r.fields.len() ==> value_mapped(fwd, r.fields@[k], #[trigger] fr.fields@[k])),
        Payload::Def(d) => fp matches FrozenPayload::Def(fd) && fd.name@ == d.name@
            && fd.captured.len() == d.captured.len() && (forall|k: int|
            0 <= k < d.captured.len() ==> value_mapped(
                fwd,
                d.captured@[k],
                #[trigger] fd.captured@[k],
            )),
    }
}

/// A corresponding pair of records stays corresponding as the forwarding
/// table grows.
pub proof fn lemma_record_corresponds_monotone(
    records: Seq<Payload>,
    a: Seq<Option<usize>>,
    b: Seq<Option<usize>>,
    p: Payload,
    fp: FrozenPayload,
)
    requires
        fwd_monotone(a, b),
        record_corresponds(records, a, p, fp),
    ensures
        record_corresponds(records, b, p, fp),
{
    match p {
        Payload::Tuple(t) => {
            let ft = fp->Tuple_0;
            assert forall|k: int| 0 <= k < t.content.len() implies value_mapped(
                b,
                t.content@[k],
                #[trigger] ft.content@[k],
            ) by {
                lemma_value_mapped_monotone(a, b, t.content@[k], ft.content@[k]);
            }
        },
        Payload::List(l) => {
            let fl = fp->List_0;
            let arr = records[l.array as int]->Array_0;
            assert forall|k: int| 0 <= k < arr.content.len() implies value_mapped(
                b,
                arr.content@[k],
                #[trigger] fl.content@[k],
            ) by {
                lemma_value_mapped_monotone(a, b, arr.content@[k], fl.content@[k]);
            }
        },
        Payload::Record(r) => {
            let fr = fp->Record_0;
            assert forall|k: int| 0 <= k < r.fields.len() implies value_mapped(
                b,
                r.fields@[k],
                #[trigger] fr.fields@[k],
            ) by {
                lemma_value_mapped_monotone(a, b, r.fields@[k], fr.fields@[k]);
            }
        },
        Payload::Def(d) => {
            let fd = fp->Def_0;
            assert forall|k: int| 0 <= k < d.captured.len() implies value_mapped(
                b,
                d.captured@[k],
                #[trigger] fd.captured@[k],
            ) by {
                lemma_value_mapped_monotone(a, b, d.captured@[k], fd.captured@[k]);
            }
        },
        _ => {},
    }
}

/// The freeze engine. It owns the frozen arena under construction, the
/// forwarding table, and the side list of frozen function definitions
/// that the engine must expose for post-freeze fixups.
#[derive(Debug)]
pub struct Freezer {
    /// The frozen arena under construction.
    pub frozen: FrozenHeap,
    /// Forwarding table: one entry per mutable-heap record.
    pub fwd: Vec<Option<usize>>,
    /// Frozen-arena indices of every function definition frozen so far.
    pub frozen_defs: Vec<usize>,
}

impl Freezer {
    /// Structural soundness, maintained even across failed passes: the
    /// table matches the heap, every forwarding target is a frozen
    /// record, the frozen arena is well formed, and the registered
    /// definitions name definition records.
    pub open spec fn basic_inv(self, records: Seq<Payload>) -> bool {
        &&& self.fwd.len() == records.len()
        &&& self.frozen.wf()
        &&& forall|j: int|
            0 <= j < self.fwd.len() ==> (#[trigger] self.fwd@[j] matches Some(n) ==> n
                < self.frozen.records@.len())
        &&& forall|k: int|
            0 <= k < self.frozen_defs.len() ==> (#[trigger] self.frozen_defs@[k] as int)
                < self.frozen.records@.len() && self.frozen.records@[self.frozen_defs@[k] as int]
                is Def
    }

    /// Full correctness invariant: every forwarded record corresponds to
    /// its frozen image, except destinations still being filled (the
    /// `pending` set).
    pub open spec fn inv(self, records: Seq<Payload>, pending: Set<int>) -> bool {
        &&& self.basic_inv(records)
        &&& forall|j: int|
            0 <= j < self.fwd.len() ==> (#[trigger] self.fwd@[j] matches Some(n) ==> (
            pending.contains(n as int) || record_corresponds(
                records,
                self.fwd@,
                records[j],
                self.frozen.records@[n as int],
            )))
    }

    /// A fresh freezer for the given heap: an empty forwarding table and
    /// a frozen arena holding only the shared static constants.
    pub fn new(heap: &Heap) -> (r: Freezer)
        requires
            heap.wf(),
        ensures
            r.inv(heap.records@, Set::<int>::empty()),
            r.fwd@.len() == heap.records@.len(),
            forall|j: int| 0 <= j < r.fwd@.len() ==> #[trigger] r.fwd@[j] is None,
            r.frozen.records@.len() == STATIC_FROZEN_COUNT,
            r.frozen_defs@.len() == 0,
            count_some(r.fwd@) == 0,
    {
        let n = heap.record_count();
        let mut fwd: Vec<Option<usize>> = Vec::new();
        let mut k: usize = 0;
        while k < n
            invariant
                k <= n,
                fwd@.len() == k,
                forall|j: int| 0 <= j < k ==> #[trigger] fwd@[j] is None,
                count_some(fwd@) == 0,
            decreases n - k,
        {
            let ghost pre = fwd@;
            fwd.push(None);
            proof {
                assert(fwd@.drop_last() == pre);
            }
            k = k + 1;
        }
        Freezer { frozen: FrozenHeap::new(), fwd, frozen_defs: Vec::new() }
    }

    /// Dismantle the freezer once the pass has succeeded, yielding the
    /// frozen arena and the side list of frozen function definitions.
    pub fn finish(self) -> (r: (FrozenHeap, Vec<usize>))
        ensures
            r.0 == self.frozen,
            r.1 == self.frozen_defs,
    {
        (self.frozen, self.frozen_defs)
    }
}

/// Allocating a destination record and writing the forwarding entry — the
/// step the engine performs before recursing — preserves the invariant,
/// with the new destination marked as still being filled.
proof fn lemma_inv_after_forward(
    pre: Freezer,
    post: Freezer,
    records: Seq<Payload>,
    pending: Set<int>,
    i: int,
    n: usize,
    fp: FrozenPayload,
)
    requires
        pre.inv(records, pending),
        0 <= i < records.len(),
        pre.fwd@[i] is None,
        n as int == pre.frozen.records@.len() as int,
        post.fwd@ == pre.fwd@.update(i, Some(n)),
        post.frozen.records@ == pre.frozen.records@.push(fp),
        frozen_payload_ok(pre.frozen.records@.len() + 1 as int, fp),
        post.frozen_defs@ == pre.frozen_defs@,
    ensures
        post.inv(records, pending.insert(n as int)),
        count_some(post.fwd@) == count_some(pre.fwd@) + 1,
        fwd_monotone(pre.fwd@, post.fwd@),
{
    lemma_count_some_update(pre.fwd@, i, Some(n));
    assert forall|j: int|
        0 <= j < post.frozen.records@.len() implies frozen_payload_ok(
        post.frozen.records@.len() as int,
        #[trigger] post.frozen.records@[j],
    ) by {
        if j < n as int {
            lemma_frozen_payload_ok_widen(n as int, n + 1 as int, pre.frozen.records@[j]);
        }
    }
    assert forall|j: int|
        0 <= j < post.fwd@.len() implies (#[trigger] post.fwd@[j] matches Some(m) ==> m
        < post.frozen.records@.len() && (pending.insert(n as int).contains(m as int)
        || record_corresponds(records, post.fwd@, records[j], post.frozen.records@[m as int]))) by {
        match post.fwd@[j] {
            Some(m) => {
                if j != i {
                    assert(pre.fwd@[j] == Some(m));
                    assert((m as int) < n as int);
                    if !pending.contains(m as int) {
                        lemma_record_corresponds_monotone(
                            records,
                            pre.fwd@,
                            post.fwd@,
                            records[j],
                            pre.frozen.records@[m as int],
                        );
                    }
                }
            },
            None => {},
        }
    }
}

/// Writing the finished payload over the destination placeholder — the
/// step the engine performs after recursing into every sub-value —
/// discharges the destination from the pending set.
proof fn lemma_inv_after_fill(
    pre: Freezer,
    post: Freezer,
    records: Seq<Payload>,
    pending: Set<int>,
    i: int,
    n: usize,
    fp: FrozenPayload,
)
    requires
        pre.inv(records, pending.insert(n as int)),
        0 <= i < records.len(),
        STATIC_FROZEN_COUNT <= n < pre.frozen.records@.len(),
        pre.fwd@[i] == Some(n),
        forall|j: int| 0 <= j < pre.fwd@.len() && j != i ==> #[trigger] pre.fwd@[j] != Some(n),
        post.fwd@ == pre.fwd@,
        post.frozen.records@ == pre.frozen.records@.update(n as int, fp),
        frozen_payload_ok(pre.frozen.records@.len() as int, fp),
        record_corresponds(records, post.fwd@, records[i], fp),
        !(pre.frozen.records@[n as int] is Def),
        post.frozen_defs@ == pre.frozen_defs@,
    ensures
        post.inv(records, pending),
{
    assert forall|j: int|
        0 <= j < post.frozen.records@.len() implies frozen_payload_ok(
        post.frozen.records@.len() as int,
        #[trigger] post.frozen.records@[j],
    ) by {
        if j != n as int {
            assert(post.frozen.records@[j] == pre.frozen.records@[j]);
        }
    }
    assert forall|k: int|
        0 <= k < post.frozen_defs.len() implies (#[trigger] post.frozen_defs@[k] as int)
        < post.frozen.records@.len() && post.frozen.records@[post.frozen_defs@[k] as int]
        is Def by {
        assert(pre.frozen.records@[pre.frozen_defs@[k] as int] is Def);
        assert(pre.frozen_defs@[k] as int != n as int);
    }
    assert forall|j: int|
        0 <= j < post.fwd@.len() implies (#[trigger] post.fwd@[j] matches Some(m) ==> m
        < post.frozen.records@.len() && (pending.contains(m as int) || record_corresponds(
            records,
            post.fwd@,
            records[j],
            post.frozen.records@[m as int],
        ))) by {
        match post.fwd@[j] {
            Some(m) => {
                if m as int == n as int {
                    assert(j == i);
                } else {
                    assert(post.frozen.records@[m as int] == pre.frozen.records@[m as int]);
                    if !pending.contains(m as int) {
                        assert(!pending.insert(n as int).contains(m as int) || record_corresponds(
                            records,
                            pre.fwd@,
                            records[j],
                            pre.frozen.records@[m as int],
                        ));
                    }
                }
            },
            None => {},
        }
    }
}

impl Freezer {
    /// Freeze one value: return it unchanged if it is an immediate or
    /// already frozen, return the forwarding target if its record was
    /// already relocated, and otherwise allocate the destination, forward
    /// the record, and only then recurse into the sub-values.
    ///
    /// `pending` is the set of destination records that callers higher up
    /// the recursion are still filling.
    #[verifier::loop_isolation(false)]
    #[verifier::rlimit(60)]
    fn freeze_value(
        &mut self,
        heap: &Heap,
        v: Value,
        Ghost(pending): Ghost<Set<int>>,
    ) -> (r: Result<FrozenValue, FreezeError>)
        requires
            heap.wf(),
            value_ok(heap.records@.len() as int, v),
            old(self).inv(heap.records@, pending),
        ensures
            final(self).basic_inv(heap.records@),
            fwd_monotone(old(self).fwd@, final(self).fwd@),
            old(self).frozen.records@.len() <= final(self).frozen.records@.len(),
            forall|j: int|
                0 <= j < old(self).frozen.records@.len() ==> final(self).frozen.records@[j] == old(
                    self,
                ).frozen.records@[j],
            old(self).frozen_defs@.len() <= final(self).frozen_defs@.len(),
            forall|j: int|
                0 <= j < old(self).frozen_defs@.len() ==> final(self).frozen_defs@[j] == old(
                    self,
                ).frozen_defs@[j],
            forall|j: int|
                0 <= j < final(self).fwd@.len() ==> (old(self).fwd@[j] is None ==> (
                #[trigger] final(self).fwd@[j] matches Some(m) ==> m >= old(
                    self,
                ).frozen.records@.len() || m < STATIC_FROZEN_COUNT)),
            r matches Ok(fv) ==> final(self).inv(heap.records@, pending) && value_mapped(
                final(self).fwd@,
                v,
                fv,
            ) && frozen_value_ok(final(self).frozen.records@.len() as int, fv),
            r matches Err(e) ==> e matches FreezeError::UnfreezableArray { index } && index
                < heap.records@.len() && heap.records@[index as int] is Array && reaches(
                heap.records@,
                v,
                index as int,
            ),
            v matches Value::Ref(i) && old(self).fwd@[i as int] is None && heap.records@[i as int]
                is Def && r is Ok ==> final(self).frozen_defs@.len() > old(
                self,
            ).frozen_defs@.len() && (final(self).fwd@[v->Ref_0 as int] matches Some(n) && final(self).frozen_defs@.last() == n && r == Ok::<FrozenValue, FreezeError>(
                FrozenValue::Ref(n),
            )),
            v matches Value::Ref(i) && old(self).fwd@[i as int] is None && heap.records@[i as int]
                is List && crate::heap::list_backing_array(
                heap.records@,
                i as int,
            ).content.len() == 0 ==> r == Ok::<FrozenValue, FreezeError>(
                FrozenValue::Ref(EMPTY_LIST_INDEX),
            ) && final(self).frozen.records@ == old(self).frozen.records@ && final(self).frozen_defs@ == old(self).frozen_defs@,
        decreases heap.records@.len() - count_some(old(self).fwd@), 0int,
    {
        match v {
            Value::NoneType => Ok(FrozenValue::NoneType),
            Value::Unassigned => Ok(FrozenValue::Unassigned),
            Value::Bool(b) => Ok(FrozenValue::Bool(b)),
            Value::Int(i) => Ok(FrozenValue::Int(i)),
            Value::FrozenRef(i) => Ok(FrozenValue::Ref(i)),
            Value::Ref(i) => {
                let forwarded: Option<usize> = self.fwd[i];
                if let Some(n) = forwarded {
                    return Ok(FrozenValue::Ref(n));
                }
                match &heap.records[i] {
                    Payload::Str(s) => {
                        let n = self.frozen.records.len();
                        let bytes = copy_bytes(&s.bytes);
                        self.frozen.records.push(FrozenPayload::Str(StarlarkStr { bytes }));
                        self.fwd.set(i, Some(n));
                        proof {
                            lemma_inv_after_forward(
                                *old(self),
                                *self,
                                heap.records@,
                                pending,
                                i as int,
                                n,
                                self.frozen.records@.last(),
                            );
                            lemma_count_some_le_len(self.fwd@);
                            assert(record_corresponds(
                                heap.records@,
                                self.fwd@,
                                heap.records@[i as int],
                                self.frozen.records@[n as int],
                            ));
                            assert forall|j: int|
                                0 <= j < self.fwd@.len() implies (#[trigger] self.fwd@[j] matches
                            Some(m) ==> (pending.contains(m as int) || record_corresponds(
                                heap.records@,
                                self.fwd@,
                                heap.records@[j],
                                self.frozen.records@[m as int],
                            ))) by {
                                match self.fwd@[j] {
                                    Some(m) => {
                                        if m as int != n as int {
                                            assert(pending.insert(n as int).contains(m as int)
                                                ==> pending.contains(m as int));
                                        }
                                    },
                                    None => {},
                                }
                            }
                        }
                        Ok(FrozenValue::Ref(n))
                    },
                    Payload::Float(f) => {
                        let n = self.frozen.records.len();
                        self.frozen.records.push(FrozenPayload::Float(*f));
                        self.fwd.set(i, Some(n));
                        proof {
                            lemma_inv_after_forward(
                                *old(self),
                                *self,
                                heap.records@,
                                pending,
                                i as int,
                                n,
                                self.frozen.records@.last(),
                            );
                            lemma_count_some_le_len(self.fwd@);
                            assert forall|j: int|
                                0 <= j < self.fwd@.len() implies (#[trigger] self.fwd@[j] matches
                            Some(m) ==> (pending.contains(m as int) || record_corresponds(
                                heap.records@,
                                self.fwd@,
                                heap.records@[j],
                                self.frozen.records@[m as int],
                            ))) by {
                                match self.fwd@[j] {
                                    Some(m) => {
                                        if m as int != n as int {
                                            assert(pending.insert(n as int).contains(m as int)
                                                ==> pending.contains(m as int));
                                        }
                                    },
                                    None => {},
                                }
                            }
                        }
                        Ok(FrozenValue::Ref(n))
                    },
                    Payload::Array(_) => {
                        proof {
                            lemma_reaches_self(heap.records@, i as int);
                        }
                        Err(FreezeError::UnfreezableArray { index: i })
                    },
                    Payload::Tuple(t) => {
                        let n = self.frozen.records.len();
                        self.frozen.records.push(
                            FrozenPayload::Tuple(FrozenTuple { content: Vec::new() }),
                        );
                        self.fwd.set(i, Some(n));
                        let ghost pending2 = pending.insert(n as int);
                        proof {
                            lemma_inv_after_forward(
                                *old(self),
                                *self,
                                heap.records@,
                                pending,
                                i as int,
                                n,
                                self.frozen.records@.last(),
                            );
                            lemma_count_some_le_len(self.fwd@);
                        }
                        let ghost mid = *self;
                        let items = copy_values(&t.content);
                        let rs = match self.freeze_children(heap, &items, Ghost(pending2)) {
                            Ok(rs) => rs,
                            Err(e) => {
                                proof {
                                    match e {
                                        FreezeError::UnfreezableArray { index } => {
                                            let children = record_children(
                                                heap.records@,
                                                i as int,
                                            );
                                            let k = choose|k: int|
                                                0 <= k < items@.len() && #[trigger] reaches(
                                                    heap.records@,
                                                    items@[k],
                                                    index as int,
                                                );
                                            assert(children[k] == items@[k]);
                                            lemma_reaches_step(
                                                heap.records@,
                                                i as int,
                                                items@[k],
                                                index as int,
                                            );
                                        },
                                    }
                                }
                                return Err(e);
                            },
                        };
                        proof {
                            assert(self.frozen.records@[n as int] == mid.frozen.records@[n as int]);
                            assert forall|j: int|
                                0 <= j < self.fwd@.len() && j != i as int implies #[trigger] self.fwd@[j]
                                != Some(n) by {
                                if mid.fwd@[j] is Some {
                                    assert(self.fwd@[j] == mid.fwd@[j]);
                                }
                            }
                        }
                        let ghost pre_fill = *self;
                        self.frozen.records.set(n, FrozenPayload::Tuple(FrozenTuple { content: rs }));
                        proof {
                            lemma_inv_after_fill(
                                pre_fill,
                                *self,
                                heap.records@,
                                pending,
                                i as int,
                                n,
                                self.frozen.records@[n as int],
                            );
                        }
                        Ok(FrozenValue::Ref(n))
                    },
                    Payload::List(l) => {
                        let ai = l.array;
                        let elems: Vec<Value> = match &heap.records[ai] {
                            Payload::Array(a) => copy_values(&a.content),
                            _ => {
                                proof {
                                    assert(false);
                                }
                                Vec::new()
                            },
                        };
                        if elems.len() == 0 {
                            self.fwd.set(i, Some(EMPTY_LIST_INDEX));
                            proof {
                                lemma_count_some_update(
                                    old(self).fwd@,
                                    i as int,
                                    Some(EMPTY_LIST_INDEX),
                                );
                                assert forall|j: int|
                                    0 <= j < self.fwd@.len() implies (#[trigger] self.fwd@[j] matches
                                Some(m) ==> m < self.frozen.records@.len() && (pending.contains(
                                    m as int,
                                ) || record_corresponds(
                                    heap.records@,
                                    self.fwd@,
                                    heap.records@[j],
                                    self.frozen.records@[m as int],
                                ))) by {
                                    match self.fwd@[j] {
                                        Some(m) => {
                                            if j == i as int {
                                                assert(record_corresponds(
                                                    heap.records@,
                                                    self.fwd@,
                                                    heap.records@[j],
                                                    self.frozen.records@[m as int],
                                                ));
                                            } else {
                                                if !pending.contains(m as int) {
                                                    lemma_record_corresponds_monotone(
                                                        heap.records@,
                                                        old(self).fwd@,
                                                        self.fwd@,
                                                        heap.records@[j],
                                                        self.frozen.records@[m as int],
                                                    );
                                                }
                                            }
                                        },
                                        None => {},
                                    }
                                }
                            }
                            Ok(FrozenValue::Ref(EMPTY_LIST_INDEX))
                        } else {
                            let n = self.frozen.records.len();
                            self.frozen.records.push(
                                FrozenPayload::Tuple(FrozenTuple { content: Vec::new() }),
                            );
                            self.fwd.set(i, Some(n));
                            let ghost pending2 = pending.insert(n as int);
                            proof {
                                lemma_inv_after_forward(
                                    *old(self),
                                    *self,
                                    heap.records@,
                                    pending,
                                    i as int,
                                    n,
                                    self.frozen.records@.last(),
                                );
                                lemma_count_some_le_len(self.fwd@);
                            }
                            let ghost mid = *self;
                            let rs = match self.freeze_children(heap, &elems, Ghost(pending2)) {
                                Ok(rs) => rs,
                                Err(e) => {
                                    proof {
                                        match e {
                                            FreezeError::UnfreezableArray { index } => {
                                                let children = record_children(
                                                    heap.records@,
                                                    i as int,
                                                );
                                                let k = choose|k: int|
                                                    0 <= k < elems@.len() && #[trigger] reaches(
                                                        heap.records@,
                                                        elems@[k],
                                                        index as int,
                                                    );
                                                assert(children[k] == elems@[k]);
                                                lemma_reaches_step(
                                                    heap.records@,
                                                    i as int,
                                                    elems@[k],
                                                    index as int,
                                                );
                                            },
                                        }
                                    }
                                    return Err(e);
                                },
                            };
                            proof {
                                assert(self.frozen.records@[n as int] == mid.frozen.records@[n as int]);
                                assert forall|j: int|
                                    0 <= j < self.fwd@.len() && j != i as int implies #[trigger] self.fwd@[j]
                                    != Some(n) by {
                                    if mid.fwd@[j] is Some {
                                        assert(self.fwd@[j] == mid.fwd@[j]);
                                    }
                                }
                            }
                            let ghost pre_fill = *self;
                            self.frozen.records.set(
                                n,
                                FrozenPayload::List(FrozenList { content: rs }),
                            );
                            proof {
                                lemma_inv_after_fill(
                                    pre_fill,
                                    *self,
                                    heap.records@,
                                    pending,
                                    i as int,
                                    n,
                                    self.frozen.records@[n as int],
                                );
                            }
                            Ok(FrozenValue::Ref(n))
                        }
                    },
                    Payload::Record(rc) => {
                        let n = self.frozen.records.len();
                        self.frozen.records.push(
                            FrozenPayload::Tuple(FrozenTuple { content: Vec::new() }),
                        );
                        self.fwd.set(i, Some(n));
                        let ghost pending2 = pending.insert(n as int);
                        proof {
                            lemma_inv_after_forward(
                                *old(self),
                                *self,
                                heap.records@,
                                pending,
                                i as int,
                                n,
                                self.frozen.records@.last(),
                            );
                            lemma_count_some_le_len(self.fwd@);
                        }
                        let ghost mid = *self;
                        let items = copy_values(&rc.fields);
                        let rs = match self.freeze_children(heap, &items, Ghost(pending2)) {
                            Ok(rs) => rs,
                            Err(e) => {
                                proof {
                                    match e {
                                        FreezeError::UnfreezableArray { index } => {
                                            let children = record_children(
                                                heap.records@,
                                                i as int,
                                            );
                                            let k = choose|k: int|
                                                0 <= k < items@.len() && #[trigger] reaches(
                                                    heap.records@,
                                                    items@[k],
                                                    index as int,
                                                );
                                            assert(children[k] == items@[k]);
                                            lemma_reaches_step(
                                                heap.records@,
                                                i as int,
                                                items@[k],
                                                index as int,
                                            );
                                        },
                                    }
                                }
                                return Err(e);
                            },
                        };
                        proof {
                            assert(self.frozen.records@[n as int] == mid.frozen.records@[n as int]);
                            assert forall|j: int|
                                0 <= j < self.fwd@.len() && j != i as int implies #[trigger] self.fwd@[j]
                                != Some(n) by {
                                if mid.fwd@[j] is Some {
                                    assert(self.fwd@[j] == mid.fwd@[j]);
                                }
                            }
                        }
                        let ghost pre_fill = *self;
                        self.frozen.records.set(
                            n,
                            FrozenPayload::Record(FrozenRecord { fields: rs }),
                        );
                        proof {
                            lemma_inv_after_fill(
                                pre_fill,
                                *self,
                                heap.records@,
                                pending,
                                i as int,
                                n,
                                self.frozen.records@[n as int],
                            );
                        }
                        Ok(FrozenValue::Ref(n))
                    },
                    Payload::Def(d) => {
                        let n = self.frozen.records.len();
                        self.frozen.records.push(
                            FrozenPayload::Tuple(FrozenTuple { content: Vec::new() }),
                        );
                        self.fwd.set(i, Some(n));
                        let ghost pending2 = pending.insert(n as int);
                        proof {
                            lemma_inv_after_forward(
                                *old(self),
                                *self,
                                heap.records@,
                                pending,
                                i as int,
                                n,
                                self.frozen.records@.last(),
                            );
                            lemma_count_some_le_len(self.fwd@);
                        }
                        let ghost mid = *self;
                        let items = copy_values(&d.captured);
                        let rs = match self.freeze_children(heap, &items, Ghost(pending2)) {
                            Ok(rs) => rs,
                            Err(e) => {
                                proof {
                                    match e {
                                        FreezeError::UnfreezableArray { index } => {
                                            let children = record_children(
                                                heap.records@,
                                                i as int,
                                            );
                                            let k = choose|k: int|
                                                0 <= k < items@.len() && #[trigger] reaches(
                                                    heap.records@,
                                                    items@[k],
                                                    index as int,
                                                );
                                            assert(children[k] == items@[k]);
                                            lemma_reaches_step(
                                                heap.records@,
                                                i as int,
                                                items@[k],
                                                index as int,
                                            );
                                        },
                                    }
                                }
                                return Err(e);
                            },
                        };
                        proof {
                            assert(self.frozen.records@[n as int] == mid.frozen.records@[n as int]);
                            assert forall|j: int|
                                0 <= j < self.fwd@.len() && j != i as int implies #[trigger] self.fwd@[j]
                                != Some(n) by {
                                if mid.fwd@[j] is Some {
                                    assert(self.fwd@[j] == mid.fwd@[j]);
                                }
                            }
                        }
                        let name = copy_bytes(&d.name);
                        let ghost pre_fill = *self;
                        self.frozen.records.set(
                            n,
                            FrozenPayload::Def(FrozenDef { name, captured: rs }),
                        );
                        proof {
                            lemma_inv_after_fill(
                                pre_fill,
                                *self,
                                heap.records@,
                                pending,
                                i as int,
                                n,
                                self.frozen.records@[n as int],
                            );
                        }
                        self.frozen_defs.push(n);
                        proof {
                            assert forall|k: int|
                                0 <= k < self.frozen_defs.len() implies (
                            #[trigger] self.frozen_defs@[k] as int) < self.frozen.records@.len()
                                && self.frozen.records@[self.frozen_defs@[k] as int] is Def by {
                                if k < self.frozen_defs@.len() - 1 {
                                    assert(self.frozen_defs@[k] == pre_fill.frozen_defs@[k]);
                                }
                            }
                        }
                        Ok(FrozenValue::Ref(n))
                    },
                }
            },
        }
    }

    /// Freeze a sequence of owned sub-values in order, collecting their
    /// frozen images. Used for the extra regions and fields of container
    /// records whose destination is already forwarded.
    #[verifier::loop_isolation(false)]
    #[verifier::rlimit(60)]
    fn freeze_children(
        &mut self,
        heap: &Heap,
        items: &Vec<Value>,
        Ghost(pending): Ghost<Set<int>>,
    ) -> (r: Result<Vec<FrozenValue>, FreezeError>)
        requires
            heap.wf(),
            forall|k: int|
                0 <= k < items@.len() ==> value_ok(heap.records@.len() as int, #[trigger] items@[k]),
            old(self).inv(heap.records@, pending),
        ensures
            final(self).basic_inv(heap.records@),
            fwd_monotone(old(self).fwd@, final(self).fwd@),
            old(self).frozen.records@.len() <= final(self).frozen.records@.len(),
            forall|j: int|
                0 <= j < old(self).frozen.records@.len() ==> final(self).frozen.records@[j] == old(
                    self,
                ).frozen.records@[j],
            old(self).frozen_defs@.len() <= final(self).frozen_defs@.len(),
            forall|j: int|
                0 <= j < old(self).frozen_defs@.len() ==> final(self).frozen_defs@[j] == old(
                    self,
                ).frozen_defs@[j],
            forall|j: int|
                0 <= j < final(self).fwd@.len() ==> (old(self).fwd@[j] is None ==> (
                #[trigger] final(self).fwd@[j] matches Some(m) ==> m >= old(
                    self,
                ).frozen.records@.len() || m < STATIC_FROZEN_COUNT)),
            r matches Ok(rs) ==> final(self).inv(heap.records@, pending) && rs@.len()
                == items@.len() && (forall|k: int|
                0 <= k < items@.len() ==> value_mapped(
                    final(self).fwd@,
                    items@[k],
                    #[trigger] rs@[k],
                )) && (forall|k: int|
                0 <= k < items@.len() ==> frozen_value_ok(
                    final(self).frozen.records@.len() as int,
                    #[trigger] rs@[k],
                )),
            r matches Err(e) ==> e matches FreezeError::UnfreezableArray { index } && index
                < heap.records@.len() && heap.records@[index as int] is Array && (exists|k: int|
                0 <= k < items@.len() && #[trigger] reaches(
                    heap.records@,
                    items@[k],
                    index as int,
                )),
        decreases heap.records@.len() - count_some(old(self).fwd@), 1int,
    {
        let mut results: Vec<FrozenValue> = Vec::new();
        let item_count = items.len();
        let mut k: usize = 0;
        while k < item_count
            invariant
                self.inv(heap.records@, pending),
                k <= item_count,
                results@.len() == k,
                fwd_monotone(old(self).fwd@, self.fwd@),
                old(self).frozen.records@.len() <= self.frozen.records@.len(),
                forall|j: int|
                    0 <= j < old(self).frozen.records@.len() ==> self.frozen.records@[j] == old(
                        self,
                    ).frozen.records@[j],
                old(self).frozen_defs@.len() <= self.frozen_defs@.len(),
                forall|j: int|
                    0 <= j < old(self).frozen_defs@.len() ==> self.frozen_defs@[j] == old(
                        self,
                    ).frozen_defs@[j],
                forall|j: int|
                    0 <= j < self.fwd@.len() ==> (old(self).fwd@[j] is None ==> (
                    #[trigger] self.fwd@[j] matches Some(m) ==> m >= old(
                        self,
                    ).frozen.records@.len() || m < STATIC_FROZEN_COUNT)),
                forall|j: int|
                    0 <= j < k ==> value_mapped(self.fwd@, items@[j], #[trigger] results@[j]),
                forall|j: int|
                    0 <= j < k ==> frozen_value_ok(
                        self.frozen.records@.len() as int,
                        #[trigger] results@[j],
                    ),
            decreases item_count - k,
        {
            proof {
                lemma_count_some_monotone(old(self).fwd@, self.fwd@);
                lemma_count_some_le_len(self.fwd@);
            }
            let ghost fwd_pre = self.fwd@;
            let fv = match self.freeze_value(heap, items[k], Ghost(pending)) {
                Ok(fv) => fv,
                Err(e) => {
                    proof {
                        match e {
                            FreezeError::UnfreezableArray { index } => {
                                assert(0 <= k < items@.len() && reaches(
                                    heap.records@,
                                    items@[k as int],
                                    index as int,
                                ));
                            },
                        }
                    }
                    return Err(e);
                },
            };
            proof {
                assert forall|j: int| 0 <= j < k implies value_mapped(
                    self.fwd@,
                    items@[j],
                    #[trigger] results@[j],
                ) by {
                    lemma_value_mapped_monotone(fwd_pre, self.fwd@, items@[j], results@[j]);
                }
            }
            results.push(fv);
            k = k + 1;
        }
        Ok(results)
    }

    /// Freeze a value reachable from a module's exported bindings into
    /// the frozen arena, handling cycles and shared sub-graphs: a record
    /// frozen once is never frozen again, and every reference to it
    /// resolves to the same frozen record.
    pub fn freeze(&mut self, heap: &Heap, v: Value) -> (r: Result<FrozenValue, FreezeError>)
        requires
            heap.wf(),
            value_ok(heap.records@.len() as int, v),
            old(self).inv(heap.records@, Set::<int>::empty()),
        ensures
            final(self).basic_inv(heap.records@),
            fwd_monotone(old(self).fwd@, final(self).fwd@),
            old(self).frozen.records@.len() <= final(self).frozen.records@.len(),
            forall|j: int|
                0 <= j < old(self).frozen.records@.len() ==> final(self).frozen.records@[j] == old(
                    self,
                ).frozen.records@[j],
            r matches Ok(fv) ==> final(self).inv(heap.records@, Set::<int>::empty())
                && value_mapped(final(self).fwd@, v, fv) && frozen_value_ok(
                final(self).frozen.records@.len() as int,
                fv,
            ),
            r matches Err(e) ==> e matches FreezeError::UnfreezableArray { index } && index
                < heap.records@.len() && heap.records@[index as int] is Array && reaches(
                heap.records@,
                v,
                index as int,
            ),
            v matches Value::Ref(i) && old(self).fwd@[i as int] is None && heap.records@[i as int]
                is Def && r is Ok ==> final(self).frozen_defs@.len() > old(
                self,
            ).frozen_defs@.len() && (final(self).fwd@[v->Ref_0 as int] matches Some(n) && final(self).frozen_defs@.last() == n && r == Ok::<FrozenValue, FreezeError>(
                FrozenValue::Ref(n),
            )),
            v matches Value::Ref(i) && old(self).fwd@[i as int] is None && heap.records@[i as int]
                is List && crate::heap::list_backing_array(
                heap.records@,
                i as int,
            ).content.len() == 0 ==> r == Ok::<FrozenValue, FreezeError>(
                FrozenValue::Ref(EMPTY_LIST_INDEX),
            ) && final(self).frozen.records@ == old(self).frozen.records@ && final(self).frozen_defs@ == old(self).frozen_defs@,
    {
        self.freeze_value(heap, v, Ghost(Set::empty()))
    }
}

} // verus!
