//! Numeric unification.
//!
//! `Num` is the intermediate representation through which integer and
//! floating values hash and compare consistently: a float that represents
//! an integer exactly must hash like that integer, every NaN must hash like
//! every other NaN, and both zeros must hash alike.
//!
//! Floating-point numbers themselves stay outside this layer: a float is
//! carried as `StarlarkFloat`, which records the raw IEEE 754 bit pattern
//! together with the integer the float equals exactly, when there is one.
//! NaN and infinity are decided here, from the bit pattern alone; the
//! integer decomposition is supplied by the boundary that owns the native
//! float and is cross-checked against the bit pattern where the bits decide.

use vstd::prelude::*;
use crate::heap::{Heap, Payload};
use crate::value::Value;

verus! {

/// Exponent mask of a 64-bit IEEE 754 value, shifted down.
pub const F64_EXPONENT_MASK: u64 = 0x7FF;

/// Mantissa mask of a 64-bit IEEE 754 value.
pub const F64_MANTISSA_MASK: u64 = 0x000F_FFFF_FFFF_FFFF;

/// Bit pattern of positive zero.
pub const F64_POSITIVE_ZERO: u64 = 0;

/// Bit pattern of negative zero.
pub const F64_NEGATIVE_ZERO: u64 = 0x8000_0000_0000_0000;

/// Whether a 64-bit IEEE 754 bit pattern encodes a NaN.
pub open spec fn spec_f64_bits_nan(bits: u64) -> bool {
    (bits >> 52) & F64_EXPONENT_MASK == F64_EXPONENT_MASK && bits & F64_MANTISSA_MASK != 0
}

/// Whether a 64-bit IEEE 754 bit pattern encodes an infinity.
pub open spec fn spec_f64_bits_infinite(bits: u64) -> bool {
    (bits >> 52) & F64_EXPONENT_MASK == F64_EXPONENT_MASK && bits & F64_MANTISSA_MASK == 0
}

/// A floating value, decomposed into what this layer reads of it: the raw
/// bit pattern, and the integer it equals exactly, if any.
#[derive(Clone, Copy, Debug)]
pub struct StarlarkFloat {
    /// The IEEE 754 bit pattern of the float.
    pub bits: u64,
    /// `Some(i)` iff the float compares equal to `i` and `i` fits in `i32`.
    pub int_value: Option<i32>,
}

impl StarlarkFloat {
    /// Internal consistency of the decomposition: NaN and infinity carry no
    /// integer value, and the two zero bit patterns carry exactly the
    /// integer zero.
    pub open spec fn wf(self) -> bool {
        &&& spec_f64_bits_nan(self.bits) ==> self.int_value is None
        &&& spec_f64_bits_infinite(self.bits) ==> self.int_value is None
        &&& (self.bits == F64_POSITIVE_ZERO || self.bits == F64_NEGATIVE_ZERO) <==> self.int_value
            == Some(0i32)
    }

    /// Build a decomposed float, validating every consistency condition
    /// that the bit pattern decides. Returns `None` when the claimed
    /// integer value contradicts the bits.
    pub fn new(bits: u64, int_value: Option<i32>) -> (r: Option<StarlarkFloat>)
        ensures
            r matches Some(f) ==> f == (StarlarkFloat { bits, int_value }) && f.wf(),
            r is None ==> !(StarlarkFloat { bits, int_value }).wf(),
    {
        let candidate = StarlarkFloat { bits, int_value };
        let exponent_all_ones = (bits >> 52) & F64_EXPONENT_MASK == F64_EXPONENT_MASK;
        let mantissa_zero = bits & F64_MANTISSA_MASK == 0;
        let is_zero_bits = bits == F64_POSITIVE_ZERO || bits == F64_NEGATIVE_ZERO;
        let claims_zero = matches!(int_value, Some(0i32));
        if exponent_all_ones && int_value.is_some() {
            None
        } else if is_zero_bits != claims_zero {
            None
        } else {
            Some(candidate)
        }
    }

    /// Whether the bit pattern encodes a NaN.
    pub fn is_nan(self) -> (r: bool)
        ensures
            r == spec_f64_bits_nan(self.bits),
    {
        (self.bits >> 52) & F64_EXPONENT_MASK == F64_EXPONENT_MASK && self.bits & F64_MANTISSA_MASK
            != 0
    }

    /// Whether the bit pattern encodes an infinity.
    pub fn is_infinite(self) -> (r: bool)
        ensures
            r == spec_f64_bits_infinite(self.bits),
    {
        (self.bits >> 52) & F64_EXPONENT_MASK == F64_EXPONENT_MASK && self.bits & F64_MANTISSA_MASK
            == 0
    }
}

/// A numerical value, either an integer or a decomposed float.
#[derive(Clone, Copy, Debug)]
pub enum Num {
    Int(i32),
    Float(StarlarkFloat),
}

/// The two's-complement reading of an `i32` as a `u64`, as produced by a
/// sign-extending cast.
pub open spec fn spec_u64_from_i32(i: i32) -> u64 {
    if i >= 0 {
        i as u64
    } else {
        ((i as int) + 0x1_0000_0000_0000_0000) as u64
    }
}

/// The hash of a numerical value. Equal numbers hash equally: a float that
/// equals an integer hashes as that integer, every NaN hashes to zero, and
/// every infinity hashes to `u64::MAX`; any other float hashes to its bit
/// pattern.
pub open spec fn spec_num_hash_64(n: Num) -> u64 {
    match n {
        Num::Int(i) => spec_u64_from_i32(i),
        Num::Float(f) => if f.int_value is Some {
            spec_u64_from_i32(f.int_value.unwrap())
        } else if spec_f64_bits_nan(f.bits) {
            0
        } else if spec_f64_bits_infinite(f.bits) {
            u64::MAX
        } else {
            f.bits
        },
    }
}

impl Num {
    /// Unpack a numerical value from a value reference: an integer
    /// immediate or a heap-resident float. Booleans, strings and
    /// everything else are not numbers.
    pub fn unpack_value(value: Value, heap: &Heap) -> (r: Option<Num>)
        requires
            heap.wf(),
            crate::value::value_ok(heap.records@.len() as int, value),
        ensures
            r == Num::spec_unpack_value(heap.records@, value),
    {
        match value {
            Value::Int(i) => Some(Num::Int(i)),
            Value::Ref(i) => match heap.payload(i) {
                Payload::Float(f) => Some(Num::Float(*f)),
                _ => None,
            },
            _ => None,
        }
    }

    /// What unpacking yields: `Int` for an integer immediate, `Float`
    /// for a reference to a float record, nothing otherwise.
    pub open spec fn spec_unpack_value(records: Seq<Payload>, value: Value) -> Option<Num> {
        match value {
            Value::Int(i) => Some(Num::Int(i)),
            Value::Ref(i) => match records[i as int] {
                Payload::Float(f) => Some(Num::Float(f)),
                _ => None,
            },
            _ => None,
        }
    }

    /// Well-formedness: a float member carries a consistent decomposition.
    pub open spec fn wf(self) -> bool {
        match self {
            Num::Int(_) => true,
            Num::Float(f) => f.wf(),
        }
    }

    /// The underlying value as an integer, if it can be expressed as one
    /// precisely.
    pub fn as_int(self) -> (r: Option<i32>)
        ensures
            r == self.spec_as_int(),
    {
        match self {
            Num::Int(i) => Some(i),
            Num::Float(f) => f.int_value,
        }
    }

    /// The integer a number equals exactly, if any.
    pub open spec fn spec_as_int(self) -> Option<i32> {
        match self {
            Num::Int(i) => Some(i),
            Num::Float(f) => f.int_value,
        }
    }

    /// Hash of the underlying number, unified across integers and floats.
    pub fn get_hash_64(self) -> (r: u64)
        ensures
            r == spec_num_hash_64(self),
    {
        match self.as_int() {
            Some(i) => u64_from_i32(i),
            None => match self {
                Num::Float(f) => if f.is_nan() {
                    0
                } else if f.is_infinite() {
                    u64::MAX
                } else {
                    f.bits
                },
                Num::Int(i) => u64_from_i32(i),
            },
        }
    }

    /// Hash of the underlying number; the value this layer stores wherever
    /// a numerical value is used as a dictionary key.
    pub fn get_hash(self) -> (r: u64)
        ensures
            r == spec_num_hash_64(self),
    {
        self.get_hash_64()
    }
}

/// Sign-extending conversion of an `i32` to a `u64`.
pub fn u64_from_i32(i: i32) -> (r: u64)
    ensures
        r == spec_u64_from_i32(i),
{
    if i >= 0 {
        i as u64
    } else {
        let magnitude = (-(i as i64)) as u64;
        u64::MAX - magnitude + 1
    }
}

impl From<i32> for Num {
    fn from(i: i32) -> (r: Num) {
        Num::Int(i)
    }
}

impl vstd::std_specs::convert::FromSpecImpl<i32> for Num {
    open spec fn obeys_from_spec() -> bool {
        true
    }

    open spec fn from_spec(i: i32) -> Num {
        Num::Int(i)
    }
}

/// Law: an integer and a float that equals it exactly hash identically.
pub proof fn lemma_hash_unifies_int_and_float(i: i32, f: StarlarkFloat)
    requires
        f.wf(),
        f.int_value == Some(i),
    ensures
        spec_num_hash_64(Num::Int(i)) == spec_num_hash_64(Num::Float(f)),
{
}

/// Law: any two NaN bit patterns hash identically.
pub proof fn lemma_all_nans_hash_alike(f1: StarlarkFloat, f2: StarlarkFloat)
    requires
        f1.wf(),
        f2.wf(),
        spec_f64_bits_nan(f1.bits),
        spec_f64_bits_nan(f2.bits),
    ensures
        spec_num_hash_64(Num::Float(f1)) == spec_num_hash_64(Num::Float(f2)),
{
}

/// Law: positive zero and negative zero hash identically, and like the
/// integer zero.
pub proof fn lemma_zeros_hash_alike(f1: StarlarkFloat, f2: StarlarkFloat)
    requires
        f1.wf(),
        f2.wf(),
        f1.bits == F64_POSITIVE_ZERO || f1.bits == F64_NEGATIVE_ZERO,
        f2.bits == F64_POSITIVE_ZERO || f2.bits == F64_NEGATIVE_ZERO,
    ensures
        spec_num_hash_64(Num::Float(f1)) == spec_num_hash_64(Num::Float(f2)),
        spec_num_hash_64(Num::Float(f1)) == spec_num_hash_64(Num::Int(0)),
{
}

} // verus!
