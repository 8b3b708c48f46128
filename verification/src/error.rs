//! Typed errors of the value layer.
//!
//! Recoverable failures — an operation a value does not support, hashing an
//! unhashable value, freezing a value category that declines to freeze —
//! are reported as values of these enums and carry the offending type and
//! operator. Internal-invariant violations (capacity overruns, operations
//! on forwarded records) are not representable here: they are excluded by
//! precondition, so the verified functions of this crate never reach them.

use vstd::prelude::*;

verus! {

/// Identity of a concrete value type, as used in error reports and for
/// dispatch decisions.
#[derive(Clone, Copy, Debug, PartialEq, Eq, Structural)]
pub enum TypeTag {
    NoneType,
    Bool,
    Int,
    Str,
    Tuple,
    List,
    Array,
    Float,
    Record,
    /// Function definitions; hashes as a fixed constant.
    Function,
    /// The stand-in type that no heap record ever holds.
    NoSimple,
}

/// The interpreter-visible operator an error is about.
#[derive(Clone, Copy, Debug, PartialEq, Eq, Structural)]
pub enum Operation {
    ToInt,
    Length,
    Index,
    Slice,
    In,
    Plus,
    Minus,
    Add,
    Sub,
    Mul,
    Div,
    Percent,
    FloorDiv,
    BitAnd,
    BitOr,
    BitXor,
    LeftShift,
    RightShift,
    Compare,
    Call,
    SetAttribute,
}

/// A recoverable failure of a value operation.
#[derive(Clone, Copy, Debug, PartialEq, Eq, Structural)]
pub enum ValueError {
    /// The value's type does not support the operator.
    Unsupported { type_tag: TypeTag, op: Operation },
    /// The value cannot be used where a hash is needed.
    NotHashable { type_tag: TypeTag },
    /// Attempted mutation of an immutable value.
    CannotMutateImmutableValue,
    /// A length does not fit the interpreter's integer type.
    IntegerOverflow,
}

/// A recoverable failure of the freeze pass. Freezing is all-or-nothing:
/// when any reached value declines to freeze, the whole pass reports this
/// error and no frozen arena is produced.
#[derive(Clone, Copy, Debug, PartialEq, Eq, Structural)]
pub enum FreezeError {
    /// A bare array value was reached. Arrays are internal backing storage
    /// for lists and are declared unfreezable as standalone values; the
    /// mutable heap record index is reported.
    UnfreezableArray { index: usize },
}

} // verus!
