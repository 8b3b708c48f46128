//! Representation strings for values that live inline.
//!
//! Heap-resident values render through the display layer of the
//! interpreter, which knows how to walk the graph; this module renders
//! what can be rendered from the value alone — the literals — and the
//! array wrapper around them, used by the array's own representation
//! string.

use vstd::prelude::*;
use vstd::string::StringExecFns;
use crate::array::Array;
use crate::value::Value;

verus! {

/// The decimal digit character for `d`.
pub open spec fn spec_digit(d: int) -> char {
    if d == 0 {
        '0'
    } else if d == 1 {
        '1'
    } else if d == 2 {
        '2'
    } else if d == 3 {
        '3'
    } else if d == 4 {
        '4'
    } else if d == 5 {
        '5'
    } else if d == 6 {
        '6'
    } else if d == 7 {
        '7'
    } else if d == 8 {
        '8'
    } else {
        '9'
    }
}

/// Decimal representation of a non-negative number.
pub open spec fn spec_nat_repr(n: int) -> Seq<char>
    decreases n,
{
    if n < 10 {
        seq![spec_digit(n)]
    } else {
        spec_nat_repr(n / 10).push(spec_digit(n % 10))
    }
}

/// Decimal representation of a signed number.
pub open spec fn spec_int_repr(i: int) -> Seq<char> {
    if i < 0 {
        seq!['-'] + spec_nat_repr(-i)
    } else {
        spec_nat_repr(i)
    }
}

/// The single-character string for a decimal digit.
fn digit_str(d: u8) -> (r: &'static str)
    requires
        d < 10,
    ensures
        r@ == seq![spec_digit(d as int)],
{
    proof {
        reveal_strlit("0");
        reveal_strlit("1");
        reveal_strlit("2");
        reveal_strlit("3");
        reveal_strlit("4");
        reveal_strlit("5");
        reveal_strlit("6");
        reveal_strlit("7");
        reveal_strlit("8");
        reveal_strlit("9");
    }
    match d {
        0 => "0",
        1 => "1",
        2 => "2",
        3 => "3",
        4 => "4",
        5 => "5",
        6 => "6",
        7 => "7",
        8 => "8",
        _ => "9",
    }
}

/// The characters of `digits` in reverse order, as decimal digits.
/// `digits` holds a number least-significant digit first.
pub open spec fn spec_digits_reversed(digits: Seq<u8>) -> Seq<char> {
    Seq::new(digits.len(), |t: int| spec_digit(digits[digits.len() - 1 - t] as int))
}

/// Render a number in decimal.
pub fn u64_repr(n: u64) -> (r: String)
    ensures
        r@ == spec_nat_repr(n as int),
{
    let mut digits: Vec<u8> = Vec::new();
    digits.push((n % 10) as u8);
    let mut m: u64 = n / 10;
    proof {
        if n < 10 {
            assert(spec_digits_reversed(digits@) =~= spec_nat_repr(n as int));
        } else {
            assert(spec_nat_repr(m as int) + spec_digits_reversed(digits@) =~= spec_nat_repr(
                n as int,
            ));
        }
    }
    while m > 0
        invariant
            forall|t: int| 0 <= t < digits@.len() ==> #[trigger] digits@[t] < 10,
            digits@.len() >= 1,
            m > 0 ==> spec_nat_repr(m as int) + spec_digits_reversed(digits@) =~= spec_nat_repr(
                n as int,
            ),
            m == 0 ==> spec_digits_reversed(digits@) =~= spec_nat_repr(n as int),
        decreases m,
    {
        let ghost pre = digits@;
        digits.push((m % 10) as u8);
        let next: u64 = m / 10;
        proof {
            assert(spec_digits_reversed(digits@) =~= seq![
                spec_digit(m as int % 10),
            ] + spec_digits_reversed(pre));
            if next > 0 {
                assert(spec_nat_repr(m as int) == spec_nat_repr(m as int / 10).push(
                    spec_digit(m as int % 10),
                ));
                assert(spec_nat_repr(next as int) + spec_digits_reversed(digits@) =~= spec_nat_repr(
                    n as int,
                ));
            } else {
                assert(spec_nat_repr(m as int) =~= seq![spec_digit(m as int)]);
                assert(spec_digits_reversed(digits@) =~= spec_nat_repr(n as int));
            }
        }
        m = next;
    }
    let mut r = String::new();
    let count = digits.len();
    let mut j: usize = 0;
    while j < count
        invariant
            count == digits@.len(),
            j <= count,
            forall|t: int| 0 <= t < digits@.len() ==> #[trigger] digits@[t] < 10,
            spec_digits_reversed(digits@) =~= spec_nat_repr(n as int),
            r@ == spec_digits_reversed(digits@).subrange(0, j as int),
        decreases count - j,
    {
        let d = digits[count - 1 - j];
        r.append(digit_str(d));
        proof {
            assert(r@ =~= spec_digits_reversed(digits@).subrange(0, j + 1 as int));
        }
        j = j + 1;
    }
    proof {
        assert(spec_digits_reversed(digits@).subrange(0, count as int) =~= spec_digits_reversed(
            digits@,
        ));
    }
    r
}

/// Render a signed number in decimal.
pub fn i32_repr(i: i32) -> (r: String)
    ensures
        r@ == spec_int_repr(i as int),
{
    if i >= 0 {
        u64_repr(i as u64)
    } else {
        let magnitude: u64 = (-(i as i64)) as u64;
        let mut r = String::from_str("-");
        proof {
            reveal_strlit("-");
        }
        let rest = u64_repr(magnitude);
        r.append(rest.as_str());
        proof {
            assert(r@ =~= spec_int_repr(i as int));
        }
        r
    }
}

/// The representation of a value that lives inline, outside any arena;
/// heap-resident values render through the display layer instead.
pub open spec fn spec_repr_basic(v: Value) -> Option<Seq<char>> {
    match v {
        Value::NoneType => Some(seq!['N', 'o', 'n', 'e']),
        Value::Unassigned => Some(
            seq!['<', 'u', 'n', 'a', 's', 's', 'i', 'g', 'n', 'e', 'd', '>'],
        ),
        Value::Bool(b) => if b {
            Some(seq!['T', 'r', 'u', 'e'])
        } else {
            Some(seq!['F', 'a', 'l', 's', 'e'])
        },
        Value::Int(i) => Some(spec_int_repr(i as int)),
        _ => None,
    }
}

impl Value {
    /// Render an inline value; a heap reference yields nothing.
    pub fn repr_basic(self) -> (r: Option<String>)
        ensures
            r is Some <==> spec_repr_basic(self) is Some,
            r matches Some(s) ==> spec_repr_basic(self) == Some(s@),
    {
        proof {
            reveal_strlit("None");
            reveal_strlit("<unassigned>");
            reveal_strlit("True");
            reveal_strlit("False");
        }
        match self {
            Value::NoneType => {
                let r = String::from_str("None");
                proof {
                    assert(r@ =~= seq!['N', 'o', 'n', 'e']);
                }
                Some(r)
            },
            Value::Unassigned => {
                let r = String::from_str("<unassigned>");
                proof {
                    assert(r@ =~= seq!['<', 'u', 'n', 'a', 's', 's', 'i', 'g', 'n', 'e', 'd', '>']);
                }
                Some(r)
            },
            Value::Bool(b) => {
                if b {
                    let r = String::from_str("True");
                    proof {
                        assert(r@ =~= seq!['T', 'r', 'u', 'e']);
                    }
                    Some(r)
                } else {
                    let r = String::from_str("False");
                    proof {
                        assert(r@ =~= seq!['F', 'a', 'l', 's', 'e']);
                    }
                    Some(r)
                }
            },
            Value::Int(i) => Some(i32_repr(i)),
            _ => None,
        }
    }
}

/// The contents of a list of inline values, comma-separated, defined
/// when every element is inline.
pub open spec fn spec_join_reprs(vs: Seq<Value>) -> Seq<char>
    decreases vs.len(),
{
    if vs.len() == 0 {
        Seq::<char>::empty()
    } else if vs.len() == 1 {
        spec_repr_basic(vs[0]).unwrap()
    } else {
        spec_join_reprs(vs.drop_last()) + seq![',', ' '] + spec_repr_basic(vs.last()).unwrap()
    }
}

/// The representation string of an array whose elements are all inline.
pub open spec fn spec_array_repr(a: Array) -> Seq<char> {
    seq!['a', 'r', 'r', 'a', 'y', '(', '['] + spec_join_reprs(a.content@) + seq![']', ',', ' ', 'c', 'a', 'p', '='] + spec_nat_repr(a.capacity as int) + seq![')']
}

impl Array {
    /// Render the array and its capacity, if every element lives
    /// inline; an array holding heap references renders through the
    /// display layer instead.
    #[verifier::loop_isolation(false)]
    pub fn repr(&self) -> (r: Option<String>)
        ensures
            r is Some <==> (forall|k: int|
                0 <= k < self.content@.len() ==> spec_repr_basic(#[trigger] self.content@[k])
                    is Some),
            r matches Some(s) ==> s@ == spec_array_repr(*self),
    {
        proof {
            reveal_strlit("array([");
            reveal_strlit("], cap=");
            reveal_strlit(")");
            reveal_strlit(", ");
        }
        let mut s = String::from_str("array([");
        proof {
            assert(s@ =~= seq!['a', 'r', 'r', 'a', 'y', '(', '[']);
        }
        let count = self.content.len();
        let mut k: usize = 0;
        while k < count
            invariant
                count == self.content@.len(),
                k <= count,
                forall|t: int|
                    0 <= t < k ==> spec_repr_basic(#[trigger] self.content@[t]) is Some,
                s@ == seq!['a', 'r', 'r', 'a', 'y', '(', '['] + spec_join_reprs(
                    self.content@.subrange(0, k as int),
                ),
            decreases count - k,
        {
            let piece = match self.content[k].repr_basic() {
                Some(piece) => piece,
                None => {
                    return None;
                },
            };
            if k > 0 {
                s.append(", ");
                proof {
                    assert((", ")@ =~= seq![',', ' ']);
                }
            }
            s.append(piece.as_str());
            proof {
                let prefix = self.content@.subrange(0, k as int);
                let extended = self.content@.subrange(0, k + 1 as int);
                assert(extended.drop_last() =~= prefix);
                assert(extended.last() == self.content@[k as int]);
                if k == 0 {
                    assert(spec_join_reprs(extended) =~= spec_repr_basic(
                        self.content@[0],
                    ).unwrap());
                }
                assert(s@ =~= seq!['a', 'r', 'r', 'a', 'y', '(', '['] + spec_join_reprs(extended));
            }
            k = k + 1;
        }
        s.append("], cap=");
        let cap = u64_repr(self.capacity as u64);
        s.append(cap.as_str());
        s.append(")");
        proof {
            assert(self.content@.subrange(0, count as int) =~= self.content@);
            assert(("], cap=")@ =~= seq![']', ',', ' ', 'c', 'a', 'p', '=']);
            assert((")")@ =~= seq![')']);
            assert(s@ =~= spec_array_repr(*self));
        }
        Some(s)
    }
}

} // verus!
