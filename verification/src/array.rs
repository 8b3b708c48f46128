//! Fixed-capacity array, the backing storage of list values.
//!
//! An `Array` owns a buffer of values together with a fixed capacity chosen
//! at allocation time. Mutations never grow the capacity: a caller (the
//! list type) pre-sizes the array before mutating, and a mutation that
//! would exceed the capacity, or that happens while an iterator is
//! outstanding, is a contract violation and is excluded by precondition.
//! A zero-capacity array is the shared static instance and is never
//! mutated.

use vstd::prelude::*;
use crate::value::Value;

verus! {

/// Fixed-capacity, in-place-mutable sequence of values.
#[derive(Debug)]
pub struct Array {
    /// Current contents; its length is the array's length.
    pub content: Vec<Value>,
    /// Fixed capacity. Never changes after allocation.
    pub capacity: usize,
    /// Number of outstanding iterators. While it is non-zero the array
    /// must not be mutated.
    pub iter_count: usize,
}

/// Iterator over an array. It holds only a cursor; the array keeps count
/// of outstanding iterators, and the iterator is given back to the array
/// when iteration ends.
#[derive(Debug)]
pub struct ArrayIter {
    /// Index of the next element to yield.
    pub next: usize,
}

impl Array {
    /// Capacity invariant: the length never exceeds the capacity.
    pub open spec fn wf(self) -> bool {
        self.content.len() <= self.capacity
    }

    /// Create an empty array with the given fixed capacity.
    pub fn new(capacity: usize) -> (r: Array)
        ensures
            r.wf(),
            r.content@ == Seq::<Value>::empty(),
            r.capacity == capacity,
            r.iter_count == 0,
    {
        Array { content: Vec::new(), capacity, iter_count: 0 }
    }

    /// Current number of elements.
    pub fn len(&self) -> (r: usize)
        ensures
            r == self.content.len(),
    {
        self.content.len()
    }

    /// Fixed capacity.
    pub fn capacity(&self) -> (r: usize)
        ensures
            r == self.capacity,
    {
        self.capacity
    }

    /// Whether this is the shared statically-allocated instance: exactly
    /// the zero-capacity array.
    pub fn is_statically_allocated(&self) -> (r: bool)
        ensures
            r == (self.capacity == 0),
    {
        self.capacity == 0
    }

    /// Remaining capacity. Called only on the way to a mutation, so it
    /// also demands that no iterator is outstanding.
    pub fn remaining_capacity(&self) -> (r: usize)
        requires
            self.wf(),
            self.iter_count == 0,
        ensures
            r == self.capacity - self.content.len(),
    {
        self.capacity - self.content.len()
    }

    /// Borrow the contents.
    pub fn content(&self) -> (r: &Vec<Value>)
        ensures
            r@ == self.content@,
    {
        &self.content
    }

    /// Mutable access to the element at `index`.
    pub fn mut_ptr_at(&mut self, index: usize) -> (r: &mut Value)
        requires
            index < old(self).content.len(),
            old(self).iter_count == 0,
        ensures
            *r == old(self).content@[index as int],
            final(self).content@ == old(self).content@.update(index as int, *final(r)),
            final(self).capacity == old(self).capacity,
            final(self).iter_count == old(self).iter_count,
    {
        &mut self.content[index]
    }

    /// Overwrite the element at `index`.
    pub fn set_at(&mut self, index: usize, value: Value)
        requires
            index < old(self).content.len(),
            old(self).iter_count == 0,
        ensures
            final(self).content@ == old(self).content@.update(index as int, value),
            final(self).capacity == old(self).capacity,
            final(self).iter_count == old(self).iter_count,
    {
        self.content.set(index, value);
    }

    /// Whether at least one iterator over the array is outstanding.
    pub fn iter_count_is_non_zero(&self) -> (r: bool)
        ensures
            r == (self.iter_count != 0),
    {
        self.iter_count != 0
    }

    /// Create an iterator, recording it in the iterator count. The shared
    /// static instance is exempt from counting: it is empty and immutable.
    /// The bound on the counter is a machine limit: that many iterators
    /// cannot exist at once.
    pub fn iter(&mut self) -> (r: ArrayIter)
        requires
            old(self).iter_count < usize::MAX,
        ensures
            r.next == 0,
            final(self).content@ == old(self).content@,
            final(self).capacity == old(self).capacity,
            final(self).iter_count == if old(self).capacity == 0 {
                old(self).iter_count as int
            } else {
                old(self).iter_count + 1
            },
    {
        if !self.is_statically_allocated() {
            self.iter_count = self.iter_count + 1;
        }
        ArrayIter { next: 0 }
    }

    /// Give an iterator back, releasing its count.
    pub fn end_iter(&mut self, iter: ArrayIter)
        requires
            old(self).capacity != 0 ==> old(self).iter_count >= 1,
        ensures
            final(self).content@ == old(self).content@,
            final(self).capacity == old(self).capacity,
            final(self).iter_count == if old(self).capacity == 0 {
                old(self).iter_count as int
            } else {
                old(self).iter_count - 1
            },
    {
        if !self.is_statically_allocated() {
            self.iter_count = self.iter_count - 1;
        }
    }

    /// Insert `value` at `index`, shifting the tail up by one.
    pub fn insert(&mut self, index: usize, value: Value)
        requires
            old(self).wf(),
            old(self).iter_count == 0,
            old(self).capacity - old(self).content.len() >= 1,
            index <= old(self).content.len(),
        ensures
            final(self).wf(),
            final(self).content@ == old(self).content@.insert(index as int, value),
            final(self).capacity == old(self).capacity,
            final(self).iter_count == 0,
    {
        self.content.insert(index, value);
    }

    /// Append `value`.
    pub fn push(&mut self, value: Value)
        requires
            old(self).wf(),
            old(self).iter_count == 0,
            old(self).capacity - old(self).content.len() >= 1,
        ensures
            final(self).wf(),
            final(self).content@ == old(self).content@.push(value),
            final(self).capacity == old(self).capacity,
            final(self).iter_count == 0,
    {
        self.content.push(value);
    }

    /// Duplicate the existing contents into the unused back half.
    pub fn double(&mut self)
        requires
            old(self).wf(),
            old(self).iter_count == 0,
            old(self).capacity - old(self).content.len() >= old(self).content.len(),
        ensures
            final(self).wf(),
            final(self).content@ == old(self).content@ + old(self).content@,
            final(self).capacity == old(self).capacity,
            final(self).iter_count == 0,
    {
        let n = self.content.len();
        let mut k: usize = 0;
        while k < n
            invariant
                n == old(self).content.len(),
                k <= n,
                self.capacity == old(self).capacity,
                self.iter_count == 0,
                self.capacity >= n + n,
                self.content@ == old(self).content@ + old(self).content@.subrange(0, k as int),
            decreases n - k,
        {
            let v = self.content[k];
            self.content.push(v);
            proof {
                assert(self.content@ == old(self).content@ + old(self).content@.subrange(
                    0,
                    k + 1 as int,
                ));
            }
            k = k + 1;
        }
        proof {
            assert(old(self).content@.subrange(0, n as int) == old(self).content@);
        }
    }

    /// Append every value of `values`, in order.
    pub fn extend(&mut self, values: Vec<Value>)
        requires
            old(self).wf(),
            old(self).iter_count == 0,
            old(self).capacity - old(self).content.len() >= values.len(),
        ensures
            final(self).wf(),
            final(self).content@ == old(self).content@ + values@,
            final(self).capacity == old(self).capacity,
            final(self).iter_count == 0,
    {
        let n = values.len();
        let mut k: usize = 0;
        while k < n
            invariant
                n == values.len(),
                k <= n,
                self.capacity == old(self).capacity,
                self.iter_count == 0,
                self.capacity - self.content.len() >= n - k,
                self.content@ == old(self).content@ + values@.subrange(0, k as int),
            decreases n - k,
        {
            self.content.push(values[k]);
            proof {
                assert(self.content@ == old(self).content@ + values@.subrange(0, k + 1 as int));
            }
            k = k + 1;
        }
        proof {
            assert(values@.subrange(0, n as int) == values@);
        }
    }

    /// Append every value of the slice, in order.
    pub fn extend_from_slice(&mut self, values: &[Value])
        requires
            old(self).wf(),
            old(self).iter_count == 0,
            old(self).capacity - old(self).content.len() >= values.len(),
        ensures
            final(self).wf(),
            final(self).content@ == old(self).content@ + values@,
            final(self).capacity == old(self).capacity,
            final(self).iter_count == 0,
    {
        let n = values.len();
        let mut k: usize = 0;
        while k < n
            invariant
                n == values@.len(),
                k <= n,
                self.capacity == old(self).capacity,
                self.iter_count == 0,
                self.capacity - self.content.len() >= n - k,
                self.content@ == old(self).content@ + values@.subrange(0, k as int),
            decreases n - k,
        {
            self.content.push(values[k]);
            proof {
                assert(self.content@ == old(self).content@ + values@.subrange(0, k + 1 as int));
            }
            k = k + 1;
        }
        proof {
            assert(values@.subrange(0, n as int) == values@);
        }
    }

    /// Remove every element.
    pub fn clear(&mut self)
        requires
            old(self).iter_count == 0,
        ensures
            final(self).wf(),
            final(self).content@ == Seq::<Value>::empty(),
            final(self).capacity == old(self).capacity,
            final(self).iter_count == 0,
    {
        self.content.clear();
    }

    /// Remove and return the element at `index`, shifting the tail down.
    pub fn remove(&mut self, index: usize) -> (r: Value)
        requires
            old(self).wf(),
            old(self).iter_count == 0,
            index < old(self).content.len(),
        ensures
            final(self).wf(),
            r == old(self).content@[index as int],
            final(self).content@ == old(self).content@.remove(index as int),
            final(self).capacity == old(self).capacity,
            final(self).iter_count == 0,
    {
        self.content.remove(index)
    }
}

impl ArrayIter {
    /// Yield the next element, if any. The comparison is `>=`, not `==`,
    /// because the array may have shrunk while the iterator was alive.
    pub fn next(&mut self, array: &Array) -> (r: Option<Value>)
        requires
            old(self).next < usize::MAX,
        ensures
            old(self).next >= array.content.len() ==> r is None && final(self).next == old(self).next,
            old(self).next < array.content.len() ==> r == Some(
                array.content@[old(self).next as int],
            ) && final(self).next == old(self).next + 1,
    {
        if self.next >= array.content.len() {
            None
        } else {
            let r = array.content[self.next];
            self.next = self.next + 1;
            Some(r)
        }
    }

    /// Number of elements left, saturating if the array shrank under the
    /// iterator.
    pub fn len(&self, array: &Array) -> (r: usize)
        ensures
            r == if self.next <= array.content.len() {
                array.content.len() - self.next
            } else {
                0int
            },
    {
        if self.next <= array.content.len() {
            array.content.len() - self.next
        } else {
            0
        }
    }
}

} // verus!
