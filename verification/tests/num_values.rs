use starlark_heap::heap::Heap;
use starlark_heap::num::{Num, StarlarkFloat};
use starlark_heap::value::Value;

/// Decompose a native float the way the boundary that owns floats does:
/// raw bits, plus the integer the float equals exactly, if any.
fn float_of(f: f64) -> StarlarkFloat {
    let candidate = f as i32;
    let int_value = if f == candidate as f64 { Some(candidate) } else { None };
    StarlarkFloat::new(f.to_bits(), int_value).unwrap()
}

fn num_of(f: f64) -> Num {
    Num::Float(float_of(f))
}

#[test]
fn test_from_value() {
    let mut heap = Heap::new();
    assert!(Num::unpack_value(Value::new_bool(true), &heap).is_none());
    assert!(Num::unpack_value(Value::new_bool(false), &heap).is_none());
    assert!(Num::unpack_value(Value::new_empty_string(), &heap).is_none());
    assert!(Num::unpack_value(Value::new_none(), &heap).is_none());

    assert_eq!(
        Num::unpack_value(Value::new_int(0), &heap).unwrap().as_int(),
        Some(0)
    );
    assert_eq!(
        Num::unpack_value(Value::new_int(42), &heap).unwrap().as_int(),
        Some(42)
    );
    assert_eq!(
        Num::unpack_value(Value::new_int(-42), &heap).unwrap().as_int(),
        Some(-42)
    );

    let f = heap.alloc_float(float_of(1.5));
    assert_eq!(Num::unpack_value(f, &heap).unwrap().as_int(), None);
}

#[test]
fn test_conversion_to_int() {
    assert_eq!(Num::Int(0).as_int(), Some(0));
    assert_eq!(Num::Int(42).as_int(), Some(42));
    assert_eq!(Num::Int(-42).as_int(), Some(-42));

    assert_eq!(num_of(0_f64).as_int(), Some(0));
    assert_eq!(num_of(42_f64).as_int(), Some(42));
    assert_eq!(num_of(-42_f64).as_int(), Some(-42));

    assert_eq!(num_of(i32::MIN as f64).as_int(), Some(i32::MIN));
    assert_eq!(num_of(i32::MAX as f64).as_int(), Some(i32::MAX));

    assert_eq!(num_of(42.75).as_int(), None);
    assert_eq!(num_of(-42.75).as_int(), None);
    assert_eq!(num_of(f64::NAN).as_int(), None);
    assert_eq!(num_of(f64::INFINITY).as_int(), None);
    assert_eq!(num_of(f64::NEG_INFINITY).as_int(), None);
}

#[test]
fn test_hashing() {
    assert_eq!(Num::Int(0).get_hash_64(), num_of(0.0).get_hash_64());
    assert_eq!(Num::Int(42).get_hash_64(), num_of(42.0).get_hash_64());

    assert_eq!(
        num_of(f64::INFINITY + f64::NEG_INFINITY).get_hash_64(),
        num_of(f64::NAN).get_hash_64()
    );
    assert_eq!(
        num_of("0.25".parse().unwrap()).get_hash_64(),
        num_of("25e-2".parse().unwrap()).get_hash_64()
    );
}

#[test]
fn nan_bit_patterns_hash_alike() {
    let quiet = f64::NAN;
    let negated = f64::from_bits(f64::NAN.to_bits() ^ 0x8000_0000_0000_0000);
    let payload = f64::from_bits(f64::NAN.to_bits() | 0x0000_0000_0000_0001);
    assert!(negated.is_nan());
    assert!(payload.is_nan());
    assert_eq!(num_of(quiet).get_hash_64(), num_of(negated).get_hash_64());
    assert_eq!(num_of(quiet).get_hash_64(), num_of(payload).get_hash_64());
}

#[test]
fn zeros_hash_alike() {
    assert_eq!(num_of(0.0).get_hash_64(), num_of(-0.0).get_hash_64());
    assert_eq!(num_of(-0.0).get_hash_64(), Num::Int(0).get_hash_64());
}

#[test]
fn infinities_hash_alike() {
    assert_eq!(
        num_of(f64::INFINITY).get_hash_64(),
        num_of(f64::NEG_INFINITY).get_hash_64()
    );
    assert_eq!(num_of(f64::INFINITY).get_hash_64(), u64::MAX);
}

#[test]
fn negative_int_hash_sign_extends() {
    assert_eq!(Num::Int(-1).get_hash_64(), u64::MAX);
    assert_eq!(Num::Int(-42).get_hash_64(), (-42_i64) as u64);
    assert_eq!(Num::from(7).get_hash(), Num::Int(7).get_hash_64());
}

#[test]
fn float_constructor_rejects_inconsistent_claims() {
    // A NaN bit pattern cannot carry an integer value.
    assert!(StarlarkFloat::new(f64::NAN.to_bits(), Some(0)).is_none());
    // The zero bit patterns carry exactly the integer zero.
    assert!(StarlarkFloat::new(0.0_f64.to_bits(), None).is_none());
    assert!(StarlarkFloat::new(1.5_f64.to_bits(), Some(0)).is_none());
    assert!(StarlarkFloat::new((-0.0_f64).to_bits(), Some(0)).is_some());
}
