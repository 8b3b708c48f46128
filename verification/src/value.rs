//! Tagged value references.
//!
//! A `Value` is either an inline immediate (none, bool, small integer, the
//! unassigned sentinel) or a reference into an arena. Immediates never touch
//! the arena. `Ref` points into the mutable heap of the current evaluation;
//! `FrozenRef` points into the frozen arena, whose first records are the
//! process-wide shared constants (empty tuple, empty list, empty string).

use vstd::prelude::*;

verus! {

/// Index of the shared zero-capacity array record, pre-built in every
/// mutable heap.
pub const EMPTY_ARRAY_INDEX: usize = 0;

/// Index of the shared empty-tuple record in the frozen arena.
pub const EMPTY_TUPLE_INDEX: usize = 0;

/// Index of the shared empty-list record in the frozen arena.
pub const EMPTY_LIST_INDEX: usize = 1;

/// Index of the shared empty-string record in the frozen arena.
pub const EMPTY_STRING_INDEX: usize = 2;

/// Number of pre-built shared records at the start of every frozen arena.
pub const STATIC_FROZEN_COUNT: usize = 3;

/// A reference to a value of the mutable evaluation phase.
#[derive(Clone, Copy, Debug, PartialEq, Eq, Structural)]
pub enum Value {
    /// The `None` literal. Never heap-allocated.
    NoneType,
    /// Sentinel for a module slot that has not been assigned yet.
    Unassigned,
    /// A boolean literal. Never heap-allocated.
    Bool(bool),
    /// A small integer literal. Never heap-allocated.
    Int(i32),
    /// A reference into the mutable heap.
    Ref(usize),
    /// A reference to already-frozen shared data (the static constants).
    FrozenRef(usize),
}

/// A reference to a value of the immutable, shareable frozen arena.
#[derive(Clone, Copy, Debug, PartialEq, Eq, Structural)]
pub enum FrozenValue {
    /// The `None` literal.
    NoneType,
    /// Sentinel for a module slot that was never assigned.
    Unassigned,
    /// A boolean literal.
    Bool(bool),
    /// A small integer literal.
    Int(i32),
    /// A reference into the frozen arena.
    Ref(usize),
}

/// A mutable-phase value is well formed with respect to a mutable heap of
/// `heap_len` records: heap references are in range and frozen references
/// only name the shared static constants.
pub open spec fn value_ok(heap_len: int, v: Value) -> bool {
    match v {
        Value::Ref(i) => i < heap_len,
        Value::FrozenRef(i) => i < STATIC_FROZEN_COUNT,
        _ => true,
    }
}

/// A frozen value is well formed with respect to a frozen arena of
/// `frozen_len` records.
pub open spec fn frozen_value_ok(frozen_len: int, fv: FrozenValue) -> bool {
    match fv {
        FrozenValue::Ref(i) => i < frozen_len,
        _ => true,
    }
}

impl Value {
    /// The `None` literal.
    pub fn new_none() -> (r: Value)
        ensures
            r == Value::NoneType,
    {
        Value::NoneType
    }

    /// A boolean literal.
    pub fn new_bool(b: bool) -> (r: Value)
        ensures
            r == Value::Bool(b),
    {
        Value::Bool(b)
    }

    /// An integer literal.
    pub fn new_int(i: i32) -> (r: Value)
        ensures
            r == Value::Int(i),
    {
        Value::Int(i)
    }

    /// The sentinel marking a slot as not yet assigned.
    pub fn new_unassigned() -> (r: Value)
        ensures
            r == Value::Unassigned,
    {
        Value::Unassigned
    }

    /// The shared empty string constant; no allocation takes place.
    pub fn new_empty_string() -> (r: Value)
        ensures
            r == Value::FrozenRef(EMPTY_STRING_INDEX),
    {
        Value::FrozenRef(EMPTY_STRING_INDEX)
    }

    /// True iff this is the unassigned sentinel.
    pub fn is_unassigned(self) -> (r: bool)
        ensures
            r == (self == Value::Unassigned),
    {
        matches!(self, Value::Unassigned)
    }

    /// True iff this is the `None` literal.
    pub fn is_none(self) -> (r: bool)
        ensures
            r == (self == Value::NoneType),
    {
        matches!(self, Value::NoneType)
    }

    /// True iff this value lives inline, outside any arena.
    pub fn is_immediate(self) -> (r: bool)
        ensures
            r == self.spec_is_immediate(),
    {
        match self {
            Value::Ref(_) => false,
            Value::FrozenRef(_) => false,
            _ => true,
        }
    }

    /// Whether the value lives inline, outside any arena.
    pub open spec fn spec_is_immediate(self) -> bool {
        match self {
            Value::Ref(_) => false,
            Value::FrozenRef(_) => false,
            _ => true,
        }
    }
}

impl FrozenValue {
    /// True iff this is the unassigned sentinel.
    pub fn is_unassigned(self) -> (r: bool)
        ensures
            r == (self == FrozenValue::Unassigned),
    {
        matches!(self, FrozenValue::Unassigned)
    }

    /// Reinterpret a frozen value as a mutable-phase value, with no copy.
    /// Only references to the shared static constants stay well formed in a
    /// mutable heap, so the conversion is restricted to those.
    pub fn to_value(self) -> (r: Value)
        requires
            frozen_value_ok(STATIC_FROZEN_COUNT as int, self),
        ensures
            r == self.spec_to_value(),
    {
        match self {
            FrozenValue::NoneType => Value::NoneType,
            FrozenValue::Unassigned => Value::Unassigned,
            FrozenValue::Bool(b) => Value::Bool(b),
            FrozenValue::Int(i) => Value::Int(i),
            FrozenValue::Ref(i) => Value::FrozenRef(i),
        }
    }

    /// The mutable-phase rendering of a frozen value.
    pub open spec fn spec_to_value(self) -> Value {
        match self {
            FrozenValue::NoneType => Value::NoneType,
            FrozenValue::Unassigned => Value::Unassigned,
            FrozenValue::Bool(b) => Value::Bool(b),
            FrozenValue::Int(i) => Value::Int(i),
            FrozenValue::Ref(i) => Value::FrozenRef(i),
        }
    }
}

/// Copy a vector of values.
pub fn copy_values(values: &Vec<Value>) -> (r: Vec<Value>)
    ensures
        r@ == values@,
{
    let mut r: Vec<Value> = Vec::new();
    let n = values.len();
    let mut k: usize = 0;
    while k < n
        invariant
            n == values.len(),
            k <= n,
            r@ == values@.subrange(0, k as int),
        decreases n - k,
    {
        r.push(values[k]);
        proof {
            assert(r@ == values@.subrange(0, k + 1 as int));
        }
        k = k + 1;
    }
    proof {
        assert(values@.subrange(0, n as int) == values@);
    }
    r
}

/// Copy a vector of bytes.
pub fn copy_bytes(bytes: &Vec<u8>) -> (r: Vec<u8>)
    ensures
        r@ == bytes@,
{
    let mut r: Vec<u8> = Vec::new();
    let n = bytes.len();
    let mut k: usize = 0;
    while k < n
        invariant
            n == bytes.len(),
            k <= n,
            r@ == bytes@.subrange(0, k as int),
        decreases n - k,
    {
        r.push(bytes[k]);
        proof {
            assert(r@ == bytes@.subrange(0, k + 1 as int));
        }
        k = k + 1;
    }
    proof {
        assert(bytes@.subrange(0, n as int) == bytes@);
    }
    r
}

} // verus!
