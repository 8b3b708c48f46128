//! The trace engine: copying relocation of a live value graph into a
//! fresh mutable arena, used when the heap must be compacted or grown.
//!
//! It shares the forwarding discipline of the freeze engine — destination
//! allocated and forwarding entry written *before* recursing into nested
//! references — but the destination type equals the source type: strings
//! stay strings, lists stay lists backed by arrays. Copying an array
//! drops its unused capacity, and an empty array relocates to the shared
//! static empty array. Tracing cannot fail: every payload category has a
//! mutable image.

use vstd::prelude::*;
use crate::array::Array;
use crate::heap::{
    heap_ok, lemma_payload_ok_widen, payload_ok, Def, Heap, List, Payload, Record, StarlarkStr,
    Tuple,
};
use crate::freeze::{
    count_some, fwd_monotone, lemma_count_some_le_len, lemma_count_some_monotone,
    lemma_count_some_update,
};
use crate::value::{copy_bytes, copy_values, value_ok, Value, EMPTY_ARRAY_INDEX};

verus! {

/// How a value and its relocated image relate, given a forwarding table:
/// immediates and frozen references are unchanged, and a heap reference
/// must be forwarded to the image's index in the target arena.
pub open spec fn value_traced(fwd: Seq<Option<usize>>, v: Value, nv: Value) -> bool {
    match v {
        Value::NoneType => nv == v,
        Value::Unassigned => nv == v,
        Value::Bool(_) => nv == v,
        Value::Int(_) => nv == v,
        Value::FrozenRef(_) => nv == v,
        Value::Ref(i) => i < fwd.len() && (fwd[i as int] matches Some(n) && nv == Value::Ref(n)),
    }
}

/// A traced value stays traced as the forwarding table grows.
pub proof fn lemma_value_traced_monotone(
    a: Seq<Option<usize>>,
    b: Seq<Option<usize>>,
    v: Value,
    nv: Value,
)
    requires
        fwd_monotone(a, b),
        value_traced(a, v, nv),
    ensures
        value_traced(b, v, nv),
{
}

/// How a record and its relocated image relate: the same payload type
/// with every owned value forwarded. A relocated list is backed by the
/// relocated image of its old backing array; a relocated array keeps its
/// contents, drops unused capacity, and starts with no iterators.
pub open spec fn record_traced(
    records: Seq<Payload>,
    fwd: Seq<Option<usize>>,
    p: Payload,
    np: Payload,
) -> bool {
    match p {
        Payload::Str(s) => np matches Payload::Str(ns) && ns.bytes@ == s.bytes@,
        Payload::Float(f) => np == Payload::Float(f),
        Payload::Tuple(t) => np matches Payload::Tuple(nt) && nt.content.len() == t.content.len()
            && (forall|k: int|
            0 <= k < t.content.len() ==> value_traced(
                fwd,
                t.content@[k],
                #[trigger] nt.content@[k],
            )),
        Payload::List(l) => l.array < fwd.len() && (fwd[l.array as int] matches Some(na) && (
        np matches Payload::List(nl) && nl.array == na)),
        Payload::Array(a) => np matches Payload::Array(na) && na.content.len() == a.content.len()
            && na.capacity == a.content.len() && na.iter_count == 0 && (forall|k: int|
            0 <= k < a.content.len() ==> value_traced(
                fwd,
                a.content@[k],
                #[trigger] na.content@[k],
            )),
        Payload::Record(r) => np matches Payload::Record(nr) && nr.fields.len() == r.fields.len()
            && (forall|k: int|
            0 <= k < r.fields.len() ==> value_traced(fwd, r.fields@[k], #[trigger] nr.fields@[k])),
        Payload::Def(d) => np matches Payload::Def(nd) && nd.name@ == d.name@ && nd.captured.len()
            == d.captured.len() && (forall|k: int|
            0 <= k < d.captured.len() ==> value_traced(
                fwd,
                d.captured@[k],
                #[trigger] nd.captured@[k],
            )),
    }
}

/// A traced pair of records stays traced as the forwarding table grows.
pub proof fn lemma_record_traced_monotone(
    records: Seq<Payload>,
    a: Seq<Option<usize>>,
    b: Seq<Option<usize>>,
    p: Payload,
    np: Payload,
)
    requires
        fwd_monotone(a, b),
        record_traced(records, a, p, np),
    ensures
        record_traced(records, b, p, np),
{
    match p {
        Payload::Tuple(t) => {
            let nt = np->Tuple_0;
            assert forall|k: int| 0 <= k < t.content.len() implies value_traced(
                b,
                t.content@[k],
                #[trigger] nt.content@[k],
            ) by {
                lemma_value_traced_monotone(a, b, t.content@[k], nt.content@[k]);
            }
        },
        Payload::Array(arr) => {
            let na = np->Array_0;
            assert forall|k: int| 0 <= k < arr.content.len() implies value_traced(
                b,
                arr.content@[k],
                #[trigger] na.content@[k],
            ) by {
                lemma_value_traced_monotone(a, b, arr.content@[k], na.content@[k]);
            }
        },
        Payload::Record(r) => {
            let nr = np->Record_0;
            assert forall|k: int| 0 <= k < r.fields.len() implies value_traced(
                b,
                r.fields@[k],
                #[trigger] nr.fields@[k],
            ) by {
                lemma_value_traced_monotone(a, b, r.fields@[k], nr.fields@[k]);
            }
        },
        Payload::Def(d) => {
            let nd = np->Def_0;
            assert forall|k: int| 0 <= k < d.captured.len() implies value_traced(
                b,
                d.captured@[k],
                #[trigger] nd.captured@[k],
            ) by {
                lemma_value_traced_monotone(a, b, d.captured@[k], nd.captured@[k]);
            }
        },
        _ => {},
    }
}

/// The trace engine: the target arena under construction and the
/// forwarding table keyed by source record index.
#[derive(Debug)]
pub struct Tracer {
    /// The fresh arena values are relocated into.
    pub target: Heap,
    /// Forwarding table: one entry per source-heap record.
    pub fwd: Vec<Option<usize>>,
}

impl Tracer {
    /// Structural soundness: the table matches the source heap, the
    /// target arena is well formed, every forwarding target is a target
    /// record, and an array only ever relocates to an array.
    pub open spec fn basic_inv(self, records: Seq<Payload>) -> bool {
        &&& self.fwd.len() == records.len()
        &&& self.target.wf()
        &&& forall|j: int|
            0 <= j < self.fwd.len() ==> (#[trigger] self.fwd@[j] matches Some(m) ==> m
                < self.target.records@.len())
        &&& forall|j: int|
            0 <= j < self.fwd.len() && records[j] is Array ==> (#[trigger] self.fwd@[j] matches
            Some(m) ==> self.target.records@[m as int] is Array)
    }

    /// Full correctness invariant: every forwarded record is the traced
    /// image of its source, except destinations still being filled.
    pub open spec fn inv(self, records: Seq<Payload>, pending: Set<int>) -> bool {
        &&& self.basic_inv(records)
        &&& forall|j: int|
            0 <= j < self.fwd.len() ==> (#[trigger] self.fwd@[j] matches Some(m) ==> (
            pending.contains(m as int) || record_traced(
                records,
                self.fwd@,
                records[j],
                self.target.records@[m as int],
            )))
    }

    /// A fresh tracer for the given source heap: an empty forwarding
    /// table and a fresh target arena.
    pub fn new(heap: &Heap) -> (r: Tracer)
        requires
            heap.wf(),
        ensures
            r.inv(heap.records@, Set::<int>::empty()),
            r.fwd@.len() == heap.records@.len(),
            forall|j: int| 0 <= j < r.fwd@.len() ==> #[trigger] r.fwd@[j] is None,
            r.target.records@.len() == 1,
            count_some(r.fwd@) == 0,
    {
        let n = heap.record_count();
        let mut fwd: Vec<Option<usize>> = Vec::new();
        let mut k: usize = 0;
        while k < n
            invariant
                k <= n,
                fwd@.len() == k,
                forall|j: int| 0 <= j < k ==> #[trigger] fwd@[j] is None,
                count_some(fwd@) == 0,
            decreases n - k,
        {
            let ghost pre = fwd@;
            fwd.push(None);
            proof {
                assert(fwd@.drop_last() == pre);
            }
            k = k + 1;
        }
        Tracer { target: Heap::new(), fwd }
    }

    /// Dismantle the tracer once every root has been relocated, yielding
    /// the compacted arena.
    pub fn finish(self) -> (r: Heap)
        ensures
            r == self.target,
    {
        self.target
    }
}

/// Allocating a destination record and writing the forwarding entry
/// before recursing preserves the tracer invariant, with the destination
/// marked as still being filled.
proof fn lemma_trace_after_forward(
    pre: Tracer,
    post: Tracer,
    records: Seq<Payload>,
    pending: Set<int>,
    i: int,
    n: usize,
    np: Payload,
)
    requires
        pre.inv(records, pending),
        0 <= i < records.len(),
        pre.fwd@[i] is None,
        n as int == pre.target.records@.len() as int,
        post.fwd@ == pre.fwd@.update(i, Some(n)),
        post.target.records@ == pre.target.records@.push(np),
        payload_ok(pre.target.records@.len() + 1 as int, np),
        crate::heap::list_backing_ok(post.target.records@, np),
        records[i] is Array <==> np is Array,
    ensures
        post.inv(records, pending.insert(n as int)),
        count_some(post.fwd@) == count_some(pre.fwd@) + 1,
        fwd_monotone(pre.fwd@, post.fwd@),
{
    lemma_count_some_update(pre.fwd@, i, Some(n));
    assert forall|j: int|
        0 <= j < post.target.records@.len() implies payload_ok(
        post.target.records@.len() as int,
        #[trigger] post.target.records@[j],
    ) by {
        if j < n as int {
            lemma_payload_ok_widen(n as int, n + 1 as int, pre.target.records@[j]);
        }
    }
    assert forall|j: int|
        0 <= j < post.target.records@.len() implies crate::heap::list_backing_ok(
        post.target.records@,
        #[trigger] post.target.records@[j],
    ) by {
        if j < n as int {
            assert(crate::heap::list_backing_ok(pre.target.records@, pre.target.records@[j]));
        }
    }
    assert forall|j: int|
        0 <= j < post.fwd@.len() implies (#[trigger] post.fwd@[j] matches Some(m) ==> m
        < post.target.records@.len() && (records[j] is Array ==> post.target.records@[m as int]
        is Array) && (pending.insert(n as int).contains(m as int) || record_traced(
        records,
        post.fwd@,
        records[j],
        post.target.records@[m as int],
    ))) by {
        match post.fwd@[j] {
            Some(m) => {
                if j != i {
                    assert(pre.fwd@[j] == Some(m));
                    assert((m as int) < n as int);
                    if !pending.contains(m as int) {
                        lemma_record_traced_monotone(
                            records,
                            pre.fwd@,
                            post.fwd@,
                            records[j],
                            pre.target.records@[m as int],
                        );
                    }
                }
            },
            None => {},
        }
    }
}

/// Writing the finished payload over the destination placeholder after
/// recursing discharges the destination from the pending set.
proof fn lemma_trace_after_fill(
    pre: Tracer,
    post: Tracer,
    records: Seq<Payload>,
    pending: Set<int>,
    i: int,
    n: usize,
    np: Payload,
)
    requires
        pre.inv(records, pending.insert(n as int)),
        0 <= i < records.len(),
        1 <= n < pre.target.records@.len(),
        pre.fwd@[i] == Some(n),
        forall|j: int| 0 <= j < pre.fwd@.len() && j != i ==> #[trigger] pre.fwd@[j] != Some(n),
        post.fwd@ == pre.fwd@,
        post.target.records@ == pre.target.records@.update(n as int, np),
        payload_ok(pre.target.records@.len() as int, np),
        crate::heap::list_backing_ok(post.target.records@, np),
        record_traced(records, post.fwd@, records[i], np),
        pre.target.records@[n as int] is Array <==> np is Array,
        records[i] is Array <==> np is Array,
    ensures
        post.inv(records, pending),
{
    assert forall|j: int|
        0 <= j < post.target.records@.len() implies payload_ok(
        post.target.records@.len() as int,
        #[trigger] post.target.records@[j],
    ) by {
        if j != n as int {
            assert(post.target.records@[j] == pre.target.records@[j]);
        }
    }
    assert forall|j: int|
        0 <= j < post.target.records@.len() implies crate::heap::list_backing_ok(
        post.target.records@,
        #[trigger] post.target.records@[j],
    ) by {
        if j != n as int {
            assert(crate::heap::list_backing_ok(pre.target.records@, pre.target.records@[j]));
        }
    }
    assert forall|j: int|
        0 <= j < post.fwd@.len() implies (#[trigger] post.fwd@[j] matches Some(m) ==> m
        < post.target.records@.len() && (records[j] is Array ==> post.target.records@[m as int]
        is Array) && (pending.contains(m as int) || record_traced(
        records,
        post.fwd@,
        records[j],
        post.target.records@[m as int],
    ))) by {
        match post.fwd@[j] {
            Some(m) => {
                if m as int == n as int {
                    assert(j == i);
                } else {
                    assert(post.target.records@[m as int] == pre.target.records@[m as int]);
                }
            },
            None => {},
        }
    }
}

impl Tracer {
    /// Relocate one value: immediates and frozen references pass through
    /// unchanged, an already-forwarded record resolves through the table,
    /// and otherwise the destination is allocated and forwarded before
    /// the engine recurses into nested references. An empty array
    /// relocates to the shared static empty array.
    #[verifier::loop_isolation(false)]
    #[verifier::rlimit(60)]
    fn trace_value(&mut self, heap: &Heap, v: Value, Ghost(pending): Ghost<Set<int>>) -> (r: Value)
        requires
            heap.wf(),
            value_ok(heap.records@.len() as int, v),
            old(self).inv(heap.records@, pending),
        ensures
            final(self).inv(heap.records@, pending),
            fwd_monotone(old(self).fwd@, final(self).fwd@),
            old(self).target.records@.len() <= final(self).target.records@.len(),
            forall|j: int|
                0 <= j < old(self).target.records@.len() ==> final(self).target.records@[j] == old(
                    self,
                ).target.records@[j],
            forall|j: int|
                0 <= j < final(self).fwd@.len() ==> (old(self).fwd@[j] is None ==> (
                #[trigger] final(self).fwd@[j] matches Some(m) ==> m >= old(
                    self,
                ).target.records@.len() || m == EMPTY_ARRAY_INDEX)),
            v is Ref && old(self).fwd@[v->Ref_0 as int] is None && (heap.records@[v->Ref_0 as int]
                matches Payload::Array(a) && a.content@.len() == 0) ==> r == Value::Ref(
                EMPTY_ARRAY_INDEX,
            ) && final(self).target.records@ == old(self).target.records@,
            value_traced(final(self).fwd@, v, r),
            value_ok(final(self).target.records@.len() as int, r),
        decreases heap.records@.len() - count_some(old(self).fwd@), 0int,
    {
        match v {
            Value::NoneType => Value::NoneType,
            Value::Unassigned => Value::Unassigned,
            Value::Bool(b) => Value::Bool(b),
            Value::Int(i) => Value::Int(i),
            Value::FrozenRef(i) => Value::FrozenRef(i),
            Value::Ref(i) => {
                let forwarded: Option<usize> = self.fwd[i];
                if let Some(n) = forwarded {
                    return Value::Ref(n);
                }
                match &heap.records[i] {
                    Payload::Str(s) => {
                        let n = self.target.records.len();
                        let bytes = copy_bytes(&s.bytes);
                        self.target.records.push(Payload::Str(StarlarkStr { bytes }));
                        self.fwd.set(i, Some(n));
                        proof {
                            lemma_trace_after_forward(
                                *old(self),
                                *self,
                                heap.records@,
                                pending,
                                i as int,
                                n,
                                self.target.records@.last(),
                            );
                            assert forall|j: int|
                                0 <= j < self.fwd@.len() implies (#[trigger] self.fwd@[j] matches
                            Some(m) ==> (pending.contains(m as int) || record_traced(
                                heap.records@,
                                self.fwd@,
                                heap.records@[j],
                                self.target.records@[m as int],
                            ))) by {
                                match self.fwd@[j] {
                                    Some(m) => {
                                        if m as int != n as int {
                                            assert(pending.insert(n as int).contains(m as int)
                                                ==> pending.contains(m as int));
                                        }
                                    },
                                    None => {},
                                }
                            }
                        }
                        Value::Ref(n)
                    },
                    Payload::Float(f) => {
                        let n = self.target.records.len();
                        self.target.records.push(Payload::Float(*f));
                        self.fwd.set(i, Some(n));
                        proof {
                            lemma_trace_after_forward(
                                *old(self),
                                *self,
                                heap.records@,
                                pending,
                                i as int,
                                n,
                                self.target.records@.last(),
                            );
                            assert forall|j: int|
                                0 <= j < self.fwd@.len() implies (#[trigger] self.fwd@[j] matches
                            Some(m) ==> (pending.contains(m as int) || record_traced(
                                heap.records@,
                                self.fwd@,
                                heap.records@[j],
                                self.target.records@[m as int],
                            ))) by {
                                match self.fwd@[j] {
                                    Some(m) => {
                                        if m as int != n as int {
                                            assert(pending.insert(n as int).contains(m as int)
                                                ==> pending.contains(m as int));
                                        }
                                    },
                                    None => {},
                                }
                            }
                        }
                        Value::Ref(n)
                    },
                    Payload::Tuple(t) => {
                        let n = self.target.records.len();
                        self.target.records.push(Payload::List(List { array: EMPTY_ARRAY_INDEX }));
                        self.fwd.set(i, Some(n));
                        let ghost pending2 = pending.insert(n as int);
                        proof {
                            lemma_trace_after_forward(
                                *old(self),
                                *self,
                                heap.records@,
                                pending,
                                i as int,
                                n,
                                self.target.records@.last(),
                            );
                            lemma_count_some_le_len(self.fwd@);
                        }
                        let ghost mid = *self;
                        let items = copy_values(&t.content);
                        let rs = self.trace_children(heap, &items, Ghost(pending2));
                        proof {
                            assert(self.target.records@[n as int] == mid.target.records@[n as int]);
                            assert forall|j: int|
                                0 <= j < self.fwd@.len() && j != i as int implies #[trigger] self.fwd@[j]
                                != Some(n) by {
                                if mid.fwd@[j] is Some {
                                    assert(self.fwd@[j] == mid.fwd@[j]);
                                }
                            }
                        }
                        let ghost pre_fill = *self;
                        self.target.records.set(n, Payload::Tuple(Tuple { content: rs }));
                        proof {
                            lemma_trace_after_fill(
                                pre_fill,
                                *self,
                                heap.records@,
                                pending,
                                i as int,
                                n,
                                self.target.records@[n as int],
                            );
                        }
                        Value::Ref(n)
                    },
                    Payload::List(l) => {
                        let ai = l.array;
                        let n = self.target.records.len();
                        self.target.records.push(Payload::List(List { array: EMPTY_ARRAY_INDEX }));
                        self.fwd.set(i, Some(n));
                        let ghost pending2 = pending.insert(n as int);
                        proof {
                            lemma_trace_after_forward(
                                *old(self),
                                *self,
                                heap.records@,
                                pending,
                                i as int,
                                n,
                                self.target.records@.last(),
                            );
                            lemma_count_some_le_len(self.fwd@);
                        }
                        let ghost mid = *self;
                        let av = self.trace_value(heap, Value::Ref(ai), Ghost(pending2));
                        let na: usize = match av {
                            Value::Ref(na) => na,
                            _ => {
                                proof {
                                    assert(false);
                                }
                                0
                            },
                        };
                        proof {
                            assert(self.target.records@[n as int] == mid.target.records@[n as int]);
                            assert forall|j: int|
                                0 <= j < self.fwd@.len() && j != i as int implies #[trigger] self.fwd@[j]
                                != Some(n) by {
                                if mid.fwd@[j] is Some {
                                    assert(self.fwd@[j] == mid.fwd@[j]);
                                }
                            }
                            assert(self.target.records@[na as int] is Array);
                        }
                        let ghost pre_fill = *self;
                        self.target.records.set(n, Payload::List(List { array: na }));
                        proof {
                            lemma_trace_after_fill(
                                pre_fill,
                                *self,
                                heap.records@,
                                pending,
                                i as int,
                                n,
                                self.target.records@[n as int],
                            );
                        }
                        Value::Ref(n)
                    },
                    Payload::Array(a) => {
                        if a.len() == 0 {
                            self.fwd.set(i, Some(EMPTY_ARRAY_INDEX));
                            proof {
                                lemma_count_some_update(
                                    old(self).fwd@,
                                    i as int,
                                    Some(EMPTY_ARRAY_INDEX),
                                );
                                assert forall|j: int|
                                    0 <= j < self.fwd@.len() implies (#[trigger] self.fwd@[j] matches
                                Some(m) ==> m < self.target.records@.len() && (heap.records@[j]
                                    is Array ==> self.target.records@[m as int] is Array) && (
                                pending.contains(m as int) || record_traced(
                                    heap.records@,
                                    self.fwd@,
                                    heap.records@[j],
                                    self.target.records@[m as int],
                                ))) by {
                                    match self.fwd@[j] {
                                        Some(m) => {
                                            if j == i as int {
                                                assert(record_traced(
                                                    heap.records@,
                                                    self.fwd@,
                                                    heap.records@[j],
                                                    self.target.records@[m as int],
                                                ));
                                            } else {
                                                if !pending.contains(m as int) {
                                                    lemma_record_traced_monotone(
                                                        heap.records@,
                                                        old(self).fwd@,
                                                        self.fwd@,
                                                        heap.records@[j],
                                                        self.target.records@[m as int],
                                                    );
                                                }
                                            }
                                        },
                                        None => {},
                                    }
                                }
                            }
                            Value::Ref(EMPTY_ARRAY_INDEX)
                        } else {
                            let n = self.target.records.len();
                            self.target.records.push(Payload::Array(Array::new(0)));
                            self.fwd.set(i, Some(n));
                            let ghost pending2 = pending.insert(n as int);
                            proof {
                                lemma_trace_after_forward(
                                    *old(self),
                                    *self,
                                    heap.records@,
                                    pending,
                                    i as int,
                                    n,
                                    self.target.records@.last(),
                                );
                                lemma_count_some_le_len(self.fwd@);
                            }
                            let ghost mid = *self;
                            let items = copy_values(&a.content);
                            let rs = self.trace_children(heap, &items, Ghost(pending2));
                            proof {
                                assert(self.target.records@[n as int] == mid.target.records@[n as int]);
                                assert forall|j: int|
                                    0 <= j < self.fwd@.len() && j != i as int implies #[trigger] self.fwd@[j]
                                    != Some(n) by {
                                    if mid.fwd@[j] is Some {
                                        assert(self.fwd@[j] == mid.fwd@[j]);
                                    }
                                }
                            }
                            let capacity = rs.len();
                            let ghost pre_fill = *self;
                            self.target.records.set(
                                n,
                                Payload::Array(Array { content: rs, capacity, iter_count: 0 }),
                            );
                            proof {
                                lemma_trace_after_fill(
                                    pre_fill,
                                    *self,
                                    heap.records@,
                                    pending,
                                    i as int,
                                    n,
                                    self.target.records@[n as int],
                                );
                            }
                            Value::Ref(n)
                        }
                    },
                    Payload::Record(rc) => {
                        let n = self.target.records.len();
                        self.target.records.push(Payload::List(List { array: EMPTY_ARRAY_INDEX }));
                        self.fwd.set(i, Some(n));
                        let ghost pending2 = pending.insert(n as int);
                        proof {
                            lemma_trace_after_forward(
                                *old(self),
                                *self,
                                heap.records@,
                                pending,
                                i as int,
                                n,
                                self.target.records@.last(),
                            );
                            lemma_count_some_le_len(self.fwd@);
                        }
                        let ghost mid = *self;
                        let items = copy_values(&rc.fields);
                        let rs = self.trace_children(heap, &items, Ghost(pending2));
                        proof {
                            assert(self.target.records@[n as int] == mid.target.records@[n as int]);
                            assert forall|j: int|
                                0 <= j < self.fwd@.len() && j != i as int implies #[trigger] self.fwd@[j]
                                != Some(n) by {
                                if mid.fwd@[j] is Some {
                                    assert(self.fwd@[j] == mid.fwd@[j]);
                                }
                            }
                        }
                        let ghost pre_fill = *self;
                        self.target.records.set(n, Payload::Record(Record { fields: rs }));
                        proof {
                            lemma_trace_after_fill(
                                pre_fill,
                                *self,
                                heap.records@,
                                pending,
                                i as int,
                                n,
                                self.target.records@[n as int],
                            );
                        }
                        Value::Ref(n)
                    },
                    Payload::Def(d) => {
                        let n = self.target.records.len();
                        self.target.records.push(Payload::List(List { array: EMPTY_ARRAY_INDEX }));
                        self.fwd.set(i, Some(n));
                        let ghost pending2 = pending.insert(n as int);
                        proof {
                            lemma_trace_after_forward(
                                *old(self),
                                *self,
                                heap.records@,
                                pending,
                                i as int,
                                n,
                                self.target.records@.last(),
                            );
                            lemma_count_some_le_len(self.fwd@);
                        }
                        let ghost mid = *self;
                        let items = copy_values(&d.captured);
                        let rs = self.trace_children(heap, &items, Ghost(pending2));
                        proof {
                            assert(self.target.records@[n as int] == mid.target.records@[n as int]);
                            assert forall|j: int|
                                0 <= j < self.fwd@.len() && j != i as int implies #[trigger] self.fwd@[j]
                                != Some(n) by {
                                if mid.fwd@[j] is Some {
                                    assert(self.fwd@[j] == mid.fwd@[j]);
                                }
                            }
                        }
                        let name = copy_bytes(&d.name);
                        let ghost pre_fill = *self;
                        self.target.records.set(n, Payload::Def(Def { name, captured: rs }));
                        proof {
                            lemma_trace_after_fill(
                                pre_fill,
                                *self,
                                heap.records@,
                                pending,
                                i as int,
                                n,
                                self.target.records@[n as int],
                            );
                        }
                        Value::Ref(n)
                    },
                }
            },
        }
    }

    /// Relocate a sequence of owned sub-values in order, collecting the
    /// relocated images.
    #[verifier::loop_isolation(false)]
    #[verifier::rlimit(60)]
    fn trace_children(
        &mut self,
        heap: &Heap,
        items: &Vec<Value>,
        Ghost(pending): Ghost<Set<int>>,
    ) -> (rs: Vec<Value>)
        requires
            heap.wf(),
            forall|k: int|
                0 <= k < items@.len() ==> value_ok(heap.records@.len() as int, #[trigger] items@[k]),
            old(self).inv(heap.records@, pending),
        ensures
            final(self).inv(heap.records@, pending),
            fwd_monotone(old(self).fwd@, final(self).fwd@),
            old(self).target.records@.len() <= final(self).target.records@.len(),
            forall|j: int|
                0 <= j < old(self).target.records@.len() ==> final(self).target.records@[j] == old(
                    self,
                ).target.records@[j],
            forall|j: int|
                0 <= j < final(self).fwd@.len() ==> (old(self).fwd@[j] is None ==> (
                #[trigger] final(self).fwd@[j] matches Some(m) ==> m >= old(
                    self,
                ).target.records@.len() || m == EMPTY_ARRAY_INDEX)),
            rs@.len() == items@.len(),
            forall|k: int|
                0 <= k < items@.len() ==> value_traced(final(self).fwd@, items@[k], #[trigger] rs@[k]),
            forall|k: int|
                0 <= k < items@.len() ==> value_ok(
                    final(self).target.records@.len() as int,
                    #[trigger] rs@[k],
                ),
        decreases heap.records@.len() - count_some(old(self).fwd@), 1int,
    {
        let mut results: Vec<Value> = Vec::new();
        let item_count = items.len();
        let mut k: usize = 0;
        while k < item_count
            invariant
                self.inv(heap.records@, pending),
                k <= item_count,
                results@.len() == k,
                fwd_monotone(old(self).fwd@, self.fwd@),
                old(self).target.records@.len() <= self.target.records@.len(),
                forall|j: int|
                    0 <= j < old(self).target.records@.len() ==> self.target.records@[j] == old(
                        self,
                    ).target.records@[j],
                forall|j: int|
                    0 <= j < self.fwd@.len() ==> (old(self).fwd@[j] is None ==> (
                    #[trigger] self.fwd@[j] matches Some(m) ==> m >= old(
                        self,
                    ).target.records@.len() || m == EMPTY_ARRAY_INDEX)),
                forall|j: int|
                    0 <= j < k ==> value_traced(self.fwd@, items@[j], #[trigger] results@[j]),
                forall|j: int|
                    0 <= j < k ==> value_ok(
                        self.target.records@.len() as int,
                        #[trigger] results@[j],
                    ),
            decreases item_count - k,
        {
            proof {
                lemma_count_some_monotone(old(self).fwd@, self.fwd@);
                lemma_count_some_le_len(self.fwd@);
            }
            let ghost fwd_pre = self.fwd@;
            let nv = self.trace_value(heap, items[k], Ghost(pending));
            proof {
                assert forall|j: int| 0 <= j < k implies value_traced(
                    self.fwd@,
                    items@[j],
                    #[trigger] results@[j],
                ) by {
                    lemma_value_traced_monotone(fwd_pre, self.fwd@, items@[j], results@[j]);
                }
            }
            results.push(nv);
            k = k + 1;
        }
        results
    }

    /// Relocate a value into the target arena, preserving sharing and
    /// cycles: a record relocated once is never relocated again, and
    /// every reference to it resolves to the same target record.
    pub fn trace(&mut self, heap: &Heap, v: Value) -> (r: Value)
        requires
            heap.wf(),
            value_ok(heap.records@.len() as int, v),
            old(self).inv(heap.records@, Set::<int>::empty()),
        ensures
            final(self).inv(heap.records@, Set::<int>::empty()),
            fwd_monotone(old(self).fwd@, final(self).fwd@),
            old(self).target.records@.len() <= final(self).target.records@.len(),
            forall|j: int|
                0 <= j < old(self).target.records@.len() ==> final(self).target.records@[j] == old(
                    self,
                ).target.records@[j],
            v is Ref && old(self).fwd@[v->Ref_0 as int] is None && (heap.records@[v->Ref_0 as int]
                matches Payload::Array(a) && a.content@.len() == 0) ==> r == Value::Ref(
                EMPTY_ARRAY_INDEX,
            ) && final(self).target.records@ == old(self).target.records@,
            value_traced(final(self).fwd@, v, r),
            value_ok(final(self).target.records@.len() as int, r),
    {
        self.trace_value(heap, v, Ghost(Set::empty()))
    }
}

} // verus!
