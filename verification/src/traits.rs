//! The value operation contract and dynamic dispatch.
//!
//! Every concrete payload type implements one operation contract,
//! `StarlarkValue`: type identity, hashing, length, truthiness, and the
//! interpreter-visible operators, most of which default to a typed
//! "unsupported" error exactly as the contract states. The record variant
//! of the arena plays the role of the dispatch header; `downcast_ref`
//! recovers a typed reference from it by type identity alone, in one
//! comparison, never by structural matching.
//!
//! The `Mode` tag classifies how a payload behaves under copy and
//! freeze. Basic values (booleans, none) never reach the arena, so no
//! payload carries that mode.

use vstd::prelude::*;
use crate::error::{Operation, TypeTag, ValueError};
use crate::freeze::{record_corresponds, value_mapped, Freezer};
use crate::heap::{
    Def, FrozenHeap, FrozenPayload, Heap, List, Payload, Record, StarlarkStr, Tuple,
};
use crate::num::{spec_num_hash_64, spec_u64_from_i32, Num};
use crate::value::{value_ok, FrozenValue, Value, EMPTY_STRING_INDEX, EMPTY_TUPLE_INDEX};
use crate::array::Array;
use crate::error::FreezeError;

verus! {

/// Structural category of a payload: how it is allocated, copied and
/// frozen.
#[derive(Clone, Copy, Debug, PartialEq, Eq, Structural)]
pub enum Mode {
    /// Never heap-allocated (booleans, none).
    Basic,
    /// Custom layout with a trailing variable-length extra region.
    Direct,
    /// Heap-allocated, immutable once frozen, no outward references.
    Simple,
    /// Heap-allocated, holds references to other values, traced and
    /// frozen recursively into a distinct frozen counterpart.
    Complex,
}

/// Offset basis of the hash of every string, and the hash of the empty
/// string.
pub const STR_HASH_BASIS: u64 = 0xcbf2_9ce4_8422_2325;

/// Multiplier folding each byte into a string hash.
pub const STR_HASH_PRIME: u64 = 0x0000_0100_0000_01b3;

/// Hash of a byte string: each byte folded in by xor and multiply,
/// truncated to 64 bits.
pub open spec fn spec_str_hash(bytes: Seq<u8>) -> u64
    decreases bytes.len(),
{
    if bytes.len() == 0 {
        STR_HASH_BASIS
    } else {
        ((((spec_str_hash(bytes.drop_last()) ^ (bytes.last() as u64)) as int) * (
        STR_HASH_PRIME as int)) % 0x1_0000_0000_0000_0000) as u64
    }
}

/// Hash a byte string.
pub fn str_hash(bytes: &Vec<u8>) -> (r: u64)
    ensures
        r == spec_str_hash(bytes@),
{
    let mut h: u64 = STR_HASH_BASIS;
    let n = bytes.len();
    let mut k: usize = 0;
    while k < n
        invariant
            n == bytes@.len(),
            k <= n,
            h == spec_str_hash(bytes@.subrange(0, k as int)),
        decreases n - k,
    {
        let mixed: u128 = ((h ^ (bytes[k] as u64)) as u128) * (STR_HASH_PRIME as u128);
        let next: u64 = (mixed % 0x1_0000_0000_0000_0000u128) as u64;
        proof {
            assert(bytes@.subrange(0, k + 1 as int).drop_last() == bytes@.subrange(0, k as int));
            assert(bytes@.subrange(0, k + 1 as int).last() == bytes@[k as int]);
        }
        h = next;
        k = k + 1;
    }
    proof {
        assert(bytes@.subrange(0, n as int) == bytes@);
    }
    h
}

/// The operation contract every concrete payload type implements: type
/// identity, hashing, length, truthiness, and the interpreter-visible
/// operators. Unless a type states otherwise, an operator fails with a
/// typed error naming the type and the operator.
pub trait StarlarkValue: Sized {
    /// Which payloads hold a value of this type.
    spec fn matches_payload(p: Payload) -> bool;

    /// The value a matching payload holds.
    spec fn payload_value(p: Payload) -> Self
        recommends
            Self::matches_payload(p),
    ;

    /// This type's identity tag.
    spec fn spec_type_tag() -> TypeTag;

    /// This type's name, as a character sequence.
    spec fn spec_get_type() -> Seq<char>;

    /// What hashing this value yields.
    spec fn spec_get_hash(self) -> Result<u64, ValueError>;

    /// What asking this value's length yields.
    spec fn spec_length(self) -> Result<i32, ValueError>;

    /// Typed view of a payload: a reference to the value the payload
    /// holds iff the payload holds this type.
    fn from_payload(p: &Payload) -> (r: Option<&Self>)
        ensures
            r is Some <==> Self::matches_payload(*p),
            r matches Some(s) ==> *s == Self::payload_value(*p);

    /// The type's name, as the language's type function returns it.
    fn get_type(&self) -> (r: &'static str)
        ensures
            r@ == Self::spec_get_type();

    /// The type's identity tag.
    fn get_type_tag(&self) -> (r: TypeTag)
        ensures
            r == Self::spec_type_tag();

    /// Hash of the value. Stable between a value and its frozen image.
    fn get_hash(&self) -> (r: Result<u64, ValueError>)
        ensures
            r == self.spec_get_hash();

    /// Length of the value, if it is a sequence.
    fn length(&self) -> (r: Result<i32, ValueError>)
        ensures
            r == self.spec_length();

    /// Whether the value is a match for the named type.
    fn matches_type(&self, tag: TypeTag) -> (r: bool)
        ensures
            r == (tag == Self::spec_type_tag()),
    {
        let own = self.get_type_tag();
        tag == own
    }

    /// Truthiness; true unless a type states otherwise.
    fn to_bool(&self) -> (r: bool)
        ensures
            r,
    {
        true
    }

    /// Conversion to an integer; unsupported by default.
    fn to_int(&self) -> (r: Result<i32, ValueError>)
        ensures
            r == Err::<i32, ValueError>(
                ValueError::Unsupported { type_tag: Self::spec_type_tag(), op: Operation::ToInt },
            ),
    {
        Err(ValueError::Unsupported { type_tag: self.get_type_tag(), op: Operation::ToInt })
    }

    /// Content equality against another value. By default a type is
    /// equal only by reference identity, which the caller has already
    /// ruled out, so the answer is no.
    fn equals(&self, _other: Value) -> (r: Result<bool, ValueError>)
        ensures
            r == Ok::<bool, ValueError>(false),
    {
        Ok(false)
    }

    /// Ordering against another value; unsupported by default.
    fn compare(&self, _other: Value) -> (r: Result<core::cmp::Ordering, ValueError>)
        ensures
            r == Err::<core::cmp::Ordering, ValueError>(
                ValueError::Unsupported {
                    type_tag: Self::spec_type_tag(),
                    op: Operation::Compare,
                },
            ),
    {
        Err(ValueError::Unsupported { type_tag: self.get_type_tag(), op: Operation::Compare })
    }

    /// Indexing; unsupported by default.
    fn at(&self, _index: Value) -> (r: Result<Value, ValueError>)
        ensures
            r == Err::<Value, ValueError>(
                ValueError::Unsupported { type_tag: Self::spec_type_tag(), op: Operation::Index },
            ),
    {
        Err(ValueError::Unsupported { type_tag: self.get_type_tag(), op: Operation::Index })
    }

    /// Slicing; unsupported by default.
    fn slice(&self, _start: Option<Value>, _stop: Option<Value>, _stride: Option<Value>) -> (r:
        Result<Value, ValueError>)
        ensures
            r == Err::<Value, ValueError>(
                ValueError::Unsupported { type_tag: Self::spec_type_tag(), op: Operation::Slice },
            ),
    {
        Err(ValueError::Unsupported { type_tag: self.get_type_tag(), op: Operation::Slice })
    }

    /// Membership test; unsupported by default.
    fn is_in(&self, _other: Value) -> (r: Result<bool, ValueError>)
        ensures
            r == Err::<bool, ValueError>(
                ValueError::Unsupported { type_tag: Self::spec_type_tag(), op: Operation::In },
            ),
    {
        Err(ValueError::Unsupported { type_tag: self.get_type_tag(), op: Operation::In })
    }

    /// Unary plus; unsupported by default.
    fn plus(&self) -> (r: Result<Value, ValueError>)
        ensures
            r == Err::<Value, ValueError>(
                ValueError::Unsupported { type_tag: Self::spec_type_tag(), op: Operation::Plus },
            ),
    {
        Err(ValueError::Unsupported { type_tag: self.get_type_tag(), op: Operation::Plus })
    }

    /// Unary minus; unsupported by default.
    fn minus(&self) -> (r: Result<Value, ValueError>)
        ensures
            r == Err::<Value, ValueError>(
                ValueError::Unsupported { type_tag: Self::spec_type_tag(), op: Operation::Minus },
            ),
    {
        Err(ValueError::Unsupported { type_tag: self.get_type_tag(), op: Operation::Minus })
    }

    /// Addition with the arguments the other way round; `None` falls
    /// through to ordinary addition.
    fn radd(&self, _lhs: Value) -> (r: Option<Result<Value, ValueError>>)
        ensures
            r is None,
    {
        None
    }

    /// Addition; unsupported by default.
    fn add(&self, _rhs: Value) -> (r: Result<Value, ValueError>)
        ensures
            r == Err::<Value, ValueError>(
                ValueError::Unsupported { type_tag: Self::spec_type_tag(), op: Operation::Add },
            ),
    {
        Err(ValueError::Unsupported { type_tag: self.get_type_tag(), op: Operation::Add })
    }

    /// Subtraction; unsupported by default.
    fn sub(&self, _rhs: Value) -> (r: Result<Value, ValueError>)
        ensures
            r == Err::<Value, ValueError>(
                ValueError::Unsupported { type_tag: Self::spec_type_tag(), op: Operation::Sub },
            ),
    {
        Err(ValueError::Unsupported { type_tag: self.get_type_tag(), op: Operation::Sub })
    }

    /// Multiplication; unsupported by default.
    fn mul(&self, _rhs: Value) -> (r: Result<Value, ValueError>)
        ensures
            r == Err::<Value, ValueError>(
                ValueError::Unsupported { type_tag: Self::spec_type_tag(), op: Operation::Mul },
            ),
    {
        Err(ValueError::Unsupported { type_tag: self.get_type_tag(), op: Operation::Mul })
    }

    /// Division; unsupported by default.
    fn div(&self, _rhs: Value) -> (r: Result<Value, ValueError>)
        ensures
            r == Err::<Value, ValueError>(
                ValueError::Unsupported { type_tag: Self::spec_type_tag(), op: Operation::Div },
            ),
    {
        Err(ValueError::Unsupported { type_tag: self.get_type_tag(), op: Operation::Div })
    }

    /// String interpolation or modulo; unsupported by default.
    fn percent(&self, _rhs: Value) -> (r: Result<Value, ValueError>)
        ensures
            r == Err::<Value, ValueError>(
                ValueError::Unsupported {
                    type_tag: Self::spec_type_tag(),
                    op: Operation::Percent,
                },
            ),
    {
        Err(ValueError::Unsupported { type_tag: self.get_type_tag(), op: Operation::Percent })
    }

    /// Floor division; unsupported by default.
    fn floor_div(&self, _rhs: Value) -> (r: Result<Value, ValueError>)
        ensures
            r == Err::<Value, ValueError>(
                ValueError::Unsupported {
                    type_tag: Self::spec_type_tag(),
                    op: Operation::FloorDiv,
                },
            ),
    {
        Err(ValueError::Unsupported { type_tag: self.get_type_tag(), op: Operation::FloorDiv })
    }

    /// Bitwise and; unsupported by default.
    fn bit_and(&self, _rhs: Value) -> (r: Result<Value, ValueError>)
        ensures
            r == Err::<Value, ValueError>(
                ValueError::Unsupported { type_tag: Self::spec_type_tag(), op: Operation::BitAnd },
            ),
    {
        Err(ValueError::Unsupported { type_tag: self.get_type_tag(), op: Operation::BitAnd })
    }

    /// Bitwise or; unsupported by default.
    fn bit_or(&self, _rhs: Value) -> (r: Result<Value, ValueError>)
        ensures
            r == Err::<Value, ValueError>(
                ValueError::Unsupported { type_tag: Self::spec_type_tag(), op: Operation::BitOr },
            ),
    {
        Err(ValueError::Unsupported { type_tag: self.get_type_tag(), op: Operation::BitOr })
    }

    /// Bitwise xor; unsupported by default.
    fn bit_xor(&self, _rhs: Value) -> (r: Result<Value, ValueError>)
        ensures
            r == Err::<Value, ValueError>(
                ValueError::Unsupported { type_tag: Self::spec_type_tag(), op: Operation::BitXor },
            ),
    {
        Err(ValueError::Unsupported { type_tag: self.get_type_tag(), op: Operation::BitXor })
    }

    /// Left shift; unsupported by default.
    fn left_shift(&self, _rhs: Value) -> (r: Result<Value, ValueError>)
        ensures
            r == Err::<Value, ValueError>(
                ValueError::Unsupported {
                    type_tag: Self::spec_type_tag(),
                    op: Operation::LeftShift,
                },
            ),
    {
        Err(ValueError::Unsupported { type_tag: self.get_type_tag(), op: Operation::LeftShift })
    }

    /// Right shift; unsupported by default.
    fn right_shift(&self, _rhs: Value) -> (r: Result<Value, ValueError>)
        ensures
            r == Err::<Value, ValueError>(
                ValueError::Unsupported {
                    type_tag: Self::spec_type_tag(),
                    op: Operation::RightShift,
                },
            ),
    {
        Err(ValueError::Unsupported { type_tag: self.get_type_tag(), op: Operation::RightShift })
    }

    /// Invocation as a function; unsupported by default.
    fn invoke(&self, _args: &Vec<Value>) -> (r: Result<Value, ValueError>)
        ensures
            r == Err::<Value, ValueError>(
                ValueError::Unsupported { type_tag: Self::spec_type_tag(), op: Operation::Call },
            ),
    {
        Err(ValueError::Unsupported { type_tag: self.get_type_tag(), op: Operation::Call })
    }

    /// Attribute lookup; no attributes by default.
    fn get_attr(&self, _attribute: &str) -> (r: Option<Value>)
        ensures
            r is None,
    {
        None
    }

    /// Attribute existence; no attributes by default.
    fn has_attr(&self, _attribute: &str) -> (r: bool)
        ensures
            !r,
    {
        false
    }

    /// Indexed assignment; immutable by default.
    fn set_at(&self, _index: Value, _new_value: Value) -> (r: Result<(), ValueError>)
        ensures
            r == Err::<(), ValueError>(ValueError::CannotMutateImmutableValue),
    {
        Err(ValueError::CannotMutateImmutableValue)
    }

    /// Attribute assignment; unsupported by default.
    fn set_attr(&self, _attribute: &str, _new_value: Value) -> (r: Result<(), ValueError>)
        ensures
            r == Err::<(), ValueError>(
                ValueError::Unsupported {
                    type_tag: Self::spec_type_tag(),
                    op: Operation::SetAttribute,
                },
            ),
    {
        Err(ValueError::Unsupported { type_tag: self.get_type_tag(), op: Operation::SetAttribute })
    }
}

impl Payload {
    /// Downcast the record to type `T`: a reference to the record's own
    /// payload iff the record's type identity matches `T`, by a single
    /// identity comparison, or nothing.
    pub fn downcast_ref<T: StarlarkValue>(&self) -> (r: Option<&T>)
        ensures
            r is Some <==> T::matches_payload(*self),
            r matches Some(s) ==> *s == T::payload_value(*self),
    {
        T::from_payload(self)
    }

    /// Structural category of this payload under copy and freeze.
    pub fn mode(&self) -> (r: Mode)
        ensures
            r == spec_payload_mode(*self),
    {
        match self {
            Payload::Str(_) => Mode::Direct,
            Payload::Tuple(_) => Mode::Direct,
            Payload::List(_) => Mode::Direct,
            Payload::Array(_) => Mode::Direct,
            Payload::Float(_) => Mode::Direct,
            Payload::Record(_) => Mode::Complex,
            Payload::Def(_) => Mode::Complex,
        }
    }

    /// Number of elements in the variable-length extra region. An array
    /// reports its capacity: the whole region is allocated up front.
    pub fn extra_len(&self) -> (r: usize)
        ensures
            r == spec_extra_len(*self),
    {
        match self {
            Payload::Str(s) => s.bytes.len(),
            Payload::Tuple(t) => t.content.len(),
            Payload::List(_) => 0,
            Payload::Array(a) => a.capacity(),
            Payload::Float(_) => 0,
            Payload::Record(r) => r.fields.len(),
            Payload::Def(d) => d.captured.len(),
        }
    }

    /// Total size of the record in arena units: one header unit, one
    /// payload unit, and one unit per extra element.
    pub fn memory_size(&self) -> (r: usize)
        requires
            spec_extra_len(*self) <= usize::MAX - 2,
        ensures
            r == 2 + spec_extra_len(*self),
    {
        2 + self.extra_len()
    }
}

/// Structural category of a mutable payload. No payload is `Basic`:
/// basic values never reach the arena.
pub open spec fn spec_payload_mode(p: Payload) -> Mode {
    match p {
        Payload::Record(_) => Mode::Complex,
        Payload::Def(_) => Mode::Complex,
        _ => Mode::Direct,
    }
}

/// Structural category of a frozen payload: the frozen image of a
/// complex payload is a simple record.
pub open spec fn spec_frozen_payload_mode(p: FrozenPayload) -> Mode {
    match p {
        FrozenPayload::Record(_) => Mode::Simple,
        FrozenPayload::Def(_) => Mode::Simple,
        _ => Mode::Direct,
    }
}

/// Number of extra elements of a mutable payload.
pub open spec fn spec_extra_len(p: Payload) -> int {
    match p {
        Payload::Str(s) => s.bytes.len() as int,
        Payload::Tuple(t) => t.content.len() as int,
        Payload::List(_) => 0,
        Payload::Array(a) => a.capacity as int,
        Payload::Float(_) => 0,
        Payload::Record(r) => r.fields.len() as int,
        Payload::Def(d) => d.captured.len() as int,
    }
}

impl StarlarkValue for StarlarkStr {
    open spec fn matches_payload(p: Payload) -> bool {
        p is Str
    }

    open spec fn payload_value(p: Payload) -> Self {
        p->Str_0
    }

    open spec fn spec_get_type() -> Seq<char> {
        ("string")@
    }

    open spec fn spec_type_tag() -> TypeTag {
        TypeTag::Str
    }

    open spec fn spec_get_hash(self) -> Result<u64, ValueError> {
        Ok(spec_str_hash(self.bytes@))
    }

    open spec fn spec_length(self) -> Result<i32, ValueError> {
        Err(ValueError::Unsupported { type_tag: TypeTag::Str, op: Operation::Length })
    }

    fn from_payload(p: &Payload) -> (r: Option<&Self>) {
        match p {
            Payload::Str(s) => Some(s),
            _ => None,
        }
    }

    fn get_type(&self) -> (r: &'static str) {
        "string"
    }

    fn get_type_tag(&self) -> (r: TypeTag) {
        TypeTag::Str
    }

    fn get_hash(&self) -> (r: Result<u64, ValueError>) {
        Ok(str_hash(&self.bytes))
    }

    fn length(&self) -> (r: Result<i32, ValueError>) {
        Err(ValueError::Unsupported { type_tag: TypeTag::Str, op: Operation::Length })
    }
}

impl StarlarkValue for Tuple {
    open spec fn matches_payload(p: Payload) -> bool {
        p is Tuple
    }

    open spec fn payload_value(p: Payload) -> Self {
        p->Tuple_0
    }

    open spec fn spec_get_type() -> Seq<char> {
        ("tuple")@
    }

    open spec fn spec_type_tag() -> TypeTag {
        TypeTag::Tuple
    }

    open spec fn spec_get_hash(self) -> Result<u64, ValueError> {
        Err(ValueError::NotHashable { type_tag: TypeTag::Tuple })
    }

    open spec fn spec_length(self) -> Result<i32, ValueError> {
        if self.content.len() <= i32::MAX {
            Ok(self.content.len() as i32)
        } else {
            Err(ValueError::IntegerOverflow)
        }
    }

    fn from_payload(p: &Payload) -> (r: Option<&Self>) {
        match p {
            Payload::Tuple(t) => Some(t),
            _ => None,
        }
    }

    fn get_type(&self) -> (r: &'static str) {
        "tuple"
    }

    fn get_type_tag(&self) -> (r: TypeTag) {
        TypeTag::Tuple
    }

    fn get_hash(&self) -> (r: Result<u64, ValueError>) {
        Err(ValueError::NotHashable { type_tag: TypeTag::Tuple })
    }

    fn length(&self) -> (r: Result<i32, ValueError>) {
        if self.content.len() <= i32::MAX as usize {
            Ok(self.content.len() as i32)
        } else {
            Err(ValueError::IntegerOverflow)
        }
    }
}

impl StarlarkValue for List {
    open spec fn matches_payload(p: Payload) -> bool {
        p is List
    }

    open spec fn payload_value(p: Payload) -> Self {
        p->List_0
    }

    open spec fn spec_get_type() -> Seq<char> {
        ("list")@
    }

    open spec fn spec_type_tag() -> TypeTag {
        TypeTag::List
    }

    open spec fn spec_get_hash(self) -> Result<u64, ValueError> {
        Err(ValueError::NotHashable { type_tag: TypeTag::List })
    }

    open spec fn spec_length(self) -> Result<i32, ValueError> {
        Err(ValueError::Unsupported { type_tag: TypeTag::List, op: Operation::Length })
    }

    fn from_payload(p: &Payload) -> (r: Option<&Self>) {
        match p {
            Payload::List(l) => Some(l),
            _ => None,
        }
    }

    fn get_type(&self) -> (r: &'static str) {
        "list"
    }

    fn get_type_tag(&self) -> (r: TypeTag) {
        TypeTag::List
    }

    fn get_hash(&self) -> (r: Result<u64, ValueError>) {
        Err(ValueError::NotHashable { type_tag: TypeTag::List })
    }

    /// A list's length lives in its backing array, which only the heap
    /// can reach.
    fn length(&self) -> (r: Result<i32, ValueError>) {
        Err(ValueError::Unsupported { type_tag: TypeTag::List, op: Operation::Length })
    }
}

impl StarlarkValue for Array {
    open spec fn matches_payload(p: Payload) -> bool {
        p is Array
    }

    open spec fn payload_value(p: Payload) -> Self {
        p->Array_0
    }

    open spec fn spec_get_type() -> Seq<char> {
        ("array")@
    }

    open spec fn spec_type_tag() -> TypeTag {
        TypeTag::Array
    }

    open spec fn spec_get_hash(self) -> Result<u64, ValueError> {
        Err(ValueError::NotHashable { type_tag: TypeTag::Array })
    }

    open spec fn spec_length(self) -> Result<i32, ValueError> {
        if self.content.len() <= i32::MAX {
            Ok(self.content.len() as i32)
        } else {
            Err(ValueError::IntegerOverflow)
        }
    }

    fn from_payload(p: &Payload) -> (r: Option<&Self>) {
        match p {
            Payload::Array(a) => Some(a),
            _ => None,
        }
    }

    fn get_type(&self) -> (r: &'static str) {
        "array"
    }

    fn get_type_tag(&self) -> (r: TypeTag) {
        TypeTag::Array
    }

    fn get_hash(&self) -> (r: Result<u64, ValueError>) {
        Err(ValueError::NotHashable { type_tag: TypeTag::Array })
    }

    fn length(&self) -> (r: Result<i32, ValueError>) {
        if self.content.len() <= i32::MAX as usize {
            Ok(self.content.len() as i32)
        } else {
            Err(ValueError::IntegerOverflow)
        }
    }
}

impl StarlarkValue for crate::num::StarlarkFloat {
    open spec fn matches_payload(p: Payload) -> bool {
        p is Float
    }

    open spec fn payload_value(p: Payload) -> Self {
        p->Float_0
    }

    open spec fn spec_get_type() -> Seq<char> {
        ("float")@
    }

    open spec fn spec_type_tag() -> TypeTag {
        TypeTag::Float
    }

    open spec fn spec_get_hash(self) -> Result<u64, ValueError> {
        Ok(spec_num_hash_64(Num::Float(self)))
    }

    open spec fn spec_length(self) -> Result<i32, ValueError> {
        Err(ValueError::Unsupported { type_tag: TypeTag::Float, op: Operation::Length })
    }

    fn from_payload(p: &Payload) -> (r: Option<&Self>) {
        match p {
            Payload::Float(f) => Some(f),
            _ => None,
        }
    }

    fn get_type(&self) -> (r: &'static str) {
        "float"
    }

    fn get_type_tag(&self) -> (r: TypeTag) {
        TypeTag::Float
    }

    fn get_hash(&self) -> (r: Result<u64, ValueError>) {
        Ok(Num::Float(*self).get_hash_64())
    }

    fn length(&self) -> (r: Result<i32, ValueError>) {
        Err(ValueError::Unsupported { type_tag: TypeTag::Float, op: Operation::Length })
    }
}

impl StarlarkValue for Record {
    open spec fn matches_payload(p: Payload) -> bool {
        p is Record
    }

    open spec fn payload_value(p: Payload) -> Self {
        p->Record_0
    }

    open spec fn spec_get_type() -> Seq<char> {
        ("record")@
    }

    open spec fn spec_type_tag() -> TypeTag {
        TypeTag::Record
    }

    open spec fn spec_get_hash(self) -> Result<u64, ValueError> {
        Err(ValueError::NotHashable { type_tag: TypeTag::Record })
    }

    open spec fn spec_length(self) -> Result<i32, ValueError> {
        Err(ValueError::Unsupported { type_tag: TypeTag::Record, op: Operation::Length })
    }

    fn from_payload(p: &Payload) -> (r: Option<&Self>) {
        match p {
            Payload::Record(rc) => Some(rc),
            _ => None,
        }
    }

    fn get_type(&self) -> (r: &'static str) {
        "record"
    }

    fn get_type_tag(&self) -> (r: TypeTag) {
        TypeTag::Record
    }

    fn get_hash(&self) -> (r: Result<u64, ValueError>) {
        Err(ValueError::NotHashable { type_tag: TypeTag::Record })
    }

    fn length(&self) -> (r: Result<i32, ValueError>) {
        Err(ValueError::Unsupported { type_tag: TypeTag::Record, op: Operation::Length })
    }
}

impl StarlarkValue for Def {
    open spec fn matches_payload(p: Payload) -> bool {
        p is Def
    }

    open spec fn payload_value(p: Payload) -> Self {
        p->Def_0
    }

    open spec fn spec_get_type() -> Seq<char> {
        ("function")@
    }

    open spec fn spec_type_tag() -> TypeTag {
        TypeTag::Function
    }

    /// Functions must be hashable as dictionary keys even though they
    /// have no natural hash: a fixed constant, stable across freezing.
    open spec fn spec_get_hash(self) -> Result<u64, ValueError> {
        Ok(0u64)
    }

    open spec fn spec_length(self) -> Result<i32, ValueError> {
        Err(ValueError::Unsupported { type_tag: TypeTag::Function, op: Operation::Length })
    }

    fn from_payload(p: &Payload) -> (r: Option<&Self>) {
        match p {
            Payload::Def(d) => Some(d),
            _ => None,
        }
    }

    fn get_type(&self) -> (r: &'static str) {
        "function"
    }

    fn get_type_tag(&self) -> (r: TypeTag) {
        TypeTag::Function
    }

    fn get_hash(&self) -> (r: Result<u64, ValueError>) {
        Ok(0)
    }

    fn length(&self) -> (r: Result<i32, ValueError>) {
        Err(ValueError::Unsupported { type_tag: TypeTag::Function, op: Operation::Length })
    }
}

/// Placeholder type implementing the operation contract. Useful as the
/// frozen counterpart of a complex value that is never meant to be
/// frozen: no heap record ever holds it, so downcasting to it always
/// yields nothing, and this crate never creates a value of it.
#[derive(Debug, Clone, Copy, PartialEq, Eq, Structural)]
pub struct NoSimpleValue;

impl StarlarkValue for NoSimpleValue {
    open spec fn matches_payload(p: Payload) -> bool {
        false
    }

    open spec fn payload_value(p: Payload) -> Self {
        NoSimpleValue
    }

    open spec fn spec_get_type() -> Seq<char> {
        ("no_simple_value")@
    }

    open spec fn spec_type_tag() -> TypeTag {
        TypeTag::NoSimple
    }

    open spec fn spec_get_hash(self) -> Result<u64, ValueError> {
        Err(ValueError::NotHashable { type_tag: TypeTag::NoSimple })
    }

    open spec fn spec_length(self) -> Result<i32, ValueError> {
        Err(ValueError::Unsupported { type_tag: TypeTag::NoSimple, op: Operation::Length })
    }

    fn from_payload(p: &Payload) -> (r: Option<&Self>) {
        None
    }

    fn get_type(&self) -> (r: &'static str) {
        "no_simple_value"
    }

    fn get_type_tag(&self) -> (r: TypeTag) {
        TypeTag::NoSimple
    }

    fn get_hash(&self) -> (r: Result<u64, ValueError>) {
        Err(ValueError::NotHashable { type_tag: TypeTag::NoSimple })
    }

    fn length(&self) -> (r: Result<i32, ValueError>) {
        Err(ValueError::Unsupported { type_tag: TypeTag::NoSimple, op: Operation::Length })
    }
}

/// The contract a payload that owns outward references implements on top
/// of the operation contract: it exposes the values it owns so the
/// engines can relocate them, rebuilds itself around the relocated
/// images, and freezes into a distinct frozen counterpart.
pub trait ComplexValue: StarlarkValue {
    /// The frozen counterpart type.
    type Frozen;

    /// The values this payload owns, in a fixed order.
    spec fn spec_owned(self) -> Seq<Value>;

    /// Whether everything besides the owned values is carried over
    /// unchanged between the two payloads.
    spec fn spec_keeps_rest(self, other: Self) -> bool;

    /// Whether this value accepts freezing at all.
    spec fn spec_freezable(self) -> bool;

    /// The owned values of a frozen counterpart, in the same order.
    spec fn spec_frozen_owned(f: Self::Frozen) -> Seq<FrozenValue>;

    /// Whether everything besides the owned values is carried over
    /// unchanged into the frozen counterpart.
    spec fn spec_frozen_keeps_rest(self, f: Self::Frozen) -> bool;

    /// Hand the owned values out for relocation.
    fn owned_values(&self) -> (vs: Vec<Value>)
        ensures
            vs@ == self.spec_owned();

    /// Rebuild the payload around relocated images of its owned values,
    /// carrying everything else over unchanged.
    fn with_owned(self, vs: Vec<Value>) -> (r: Self)
        requires
            vs@.len() == self.spec_owned().len(),
        ensures
            r.spec_owned() == vs@,
            self.spec_keeps_rest(r);

    /// Freeze into the frozen counterpart, given frozen images of the
    /// owned values, or decline. Succeeds exactly on the values the
    /// type declares freezable; everything besides the owned values is
    /// carried over unchanged.
    fn freeze_with(self, vs: Vec<FrozenValue>) -> (r: Result<Self::Frozen, FreezeError>)
        requires
            vs@.len() == self.spec_owned().len(),
        ensures
            r is Ok <==> self.spec_freezable(),
            r matches Ok(f) ==> Self::spec_frozen_owned(f) == vs@ && self.spec_frozen_keeps_rest(
                f,
            );
}

impl ComplexValue for Record {
    type Frozen = crate::heap::FrozenRecord;

    open spec fn spec_owned(self) -> Seq<Value> {
        self.fields@
    }

    open spec fn spec_keeps_rest(self, other: Self) -> bool {
        true
    }

    open spec fn spec_freezable(self) -> bool {
        true
    }

    open spec fn spec_frozen_owned(f: Self::Frozen) -> Seq<FrozenValue> {
        f.fields@
    }

    open spec fn spec_frozen_keeps_rest(self, f: Self::Frozen) -> bool {
        true
    }

    fn owned_values(&self) -> (vs: Vec<Value>) {
        crate::value::copy_values(&self.fields)
    }

    fn with_owned(self, vs: Vec<Value>) -> (r: Self) {
        Record { fields: vs }
    }

    fn freeze_with(self, vs: Vec<FrozenValue>) -> (r: Result<Self::Frozen, FreezeError>) {
        Ok(crate::heap::FrozenRecord { fields: vs })
    }
}

impl ComplexValue for Def {
    type Frozen = crate::heap::FrozenDef;

    open spec fn spec_owned(self) -> Seq<Value> {
        self.captured@
    }

    open spec fn spec_keeps_rest(self, other: Self) -> bool {
        other.name@ == self.name@
    }

    open spec fn spec_freezable(self) -> bool {
        true
    }

    open spec fn spec_frozen_owned(f: Self::Frozen) -> Seq<FrozenValue> {
        f.captured@
    }

    open spec fn spec_frozen_keeps_rest(self, f: Self::Frozen) -> bool {
        f.name@ == self.name@
    }

    fn owned_values(&self) -> (vs: Vec<Value>) {
        crate::value::copy_values(&self.captured)
    }

    fn with_owned(self, vs: Vec<Value>) -> (r: Self) {
        Def { name: self.name, captured: vs }
    }

    fn freeze_with(self, vs: Vec<FrozenValue>) -> (r: Result<Self::Frozen, FreezeError>) {
        Ok(crate::heap::FrozenDef { name: self.name, captured: vs })
    }
}

/// Hash of the `None` literal: an arbitrary but stable constant.
pub const NONE_HASH: u64 = 0x4e6f_6e65;

/// What hashing a mutable heap record yields, by payload type.
pub open spec fn spec_payload_hash(p: Payload) -> Result<u64, ValueError> {
    match p {
        Payload::Str(s) => s.spec_get_hash(),
        Payload::Tuple(t) => t.spec_get_hash(),
        Payload::List(l) => l.spec_get_hash(),
        Payload::Array(a) => a.spec_get_hash(),
        Payload::Float(f) => f.spec_get_hash(),
        Payload::Record(r) => r.spec_get_hash(),
        Payload::Def(d) => d.spec_get_hash(),
    }
}

/// What hashing a frozen record yields: the same rules as on the
/// mutable side, type by type.
pub open spec fn spec_frozen_payload_hash(p: FrozenPayload) -> Result<u64, ValueError> {
    match p {
        FrozenPayload::Str(s) => Ok(spec_str_hash(s.bytes@)),
        FrozenPayload::Tuple(_) => Err(ValueError::NotHashable { type_tag: TypeTag::Tuple }),
        FrozenPayload::List(_) => Err(ValueError::NotHashable { type_tag: TypeTag::List }),
        FrozenPayload::Float(f) => Ok(spec_num_hash_64(Num::Float(f))),
        FrozenPayload::Record(_) => Err(ValueError::NotHashable { type_tag: TypeTag::Record }),
        FrozenPayload::Def(_) => Ok(0u64),
    }
}

/// What hashing a mutable-phase value yields: literals hash to fixed
/// constants, integers by sign extension, heap values by their record,
/// and the static frozen constants by what they are.
pub open spec fn spec_value_hash(records: Seq<Payload>, v: Value) -> Result<u64, ValueError> {
    match v {
        Value::NoneType => Ok(NONE_HASH),
        Value::Unassigned => Err(ValueError::NotHashable { type_tag: TypeTag::NoSimple }),
        Value::Bool(b) => Ok(
            if b {
                1u64
            } else {
                0u64
            },
        ),
        Value::Int(i) => Ok(spec_u64_from_i32(i)),
        Value::Ref(i) => spec_payload_hash(records[i as int]),
        Value::FrozenRef(i) => if i == EMPTY_STRING_INDEX {
            Ok(spec_str_hash(Seq::<u8>::empty()))
        } else if i == EMPTY_TUPLE_INDEX {
            Err(ValueError::NotHashable { type_tag: TypeTag::Tuple })
        } else {
            Err(ValueError::NotHashable { type_tag: TypeTag::List })
        },
    }
}

/// What hashing a frozen value yields.
pub open spec fn spec_frozen_value_hash(records: Seq<FrozenPayload>, fv: FrozenValue) -> Result<
    u64,
    ValueError,
> {
    match fv {
        FrozenValue::NoneType => Ok(NONE_HASH),
        FrozenValue::Unassigned => Err(ValueError::NotHashable { type_tag: TypeTag::NoSimple }),
        FrozenValue::Bool(b) => Ok(
            if b {
                1u64
            } else {
                0u64
            },
        ),
        FrozenValue::Int(i) => Ok(spec_u64_from_i32(i)),
        FrozenValue::Ref(i) => spec_frozen_payload_hash(records[i as int]),
    }
}

impl Heap {
    /// Hash of a value, for use as a dictionary key: an error iff the
    /// value's type is unhashable.
    pub fn get_hash(&self, v: Value) -> (r: Result<u64, ValueError>)
        requires
            self.wf(),
            value_ok(self.records@.len() as int, v),
        ensures
            r == spec_value_hash(self.records@, v),
    {
        match v {
            Value::NoneType => Ok(NONE_HASH),
            Value::Unassigned => Err(ValueError::NotHashable { type_tag: TypeTag::NoSimple }),
            Value::Bool(b) => Ok(
                if b {
                    1
                } else {
                    0
                },
            ),
            Value::Int(i) => Ok(crate::num::u64_from_i32(i)),
            Value::Ref(i) => match &self.records[i] {
                Payload::Str(s) => s.get_hash(),
                Payload::Tuple(t) => t.get_hash(),
                Payload::List(l) => l.get_hash(),
                Payload::Array(a) => a.get_hash(),
                Payload::Float(f) => f.get_hash(),
                Payload::Record(rc) => rc.get_hash(),
                Payload::Def(d) => d.get_hash(),
            },
            Value::FrozenRef(i) => {
                if i == EMPTY_STRING_INDEX {
                    Ok(STR_HASH_BASIS)
                } else if i == EMPTY_TUPLE_INDEX {
                    Err(ValueError::NotHashable { type_tag: TypeTag::Tuple })
                } else {
                    Err(ValueError::NotHashable { type_tag: TypeTag::List })
                }
            },
        }
    }
}

impl FrozenHeap {
    /// Hash of a frozen value: identical, type by type, to the hash of
    /// the value it was frozen from.
    pub fn get_hash(&self, fv: FrozenValue) -> (r: Result<u64, ValueError>)
        requires
            self.wf(),
            crate::value::frozen_value_ok(self.records@.len() as int, fv),
        ensures
            r == spec_frozen_value_hash(self.records@, fv),
    {
        match fv {
            FrozenValue::NoneType => Ok(NONE_HASH),
            FrozenValue::Unassigned => Err(ValueError::NotHashable { type_tag: TypeTag::NoSimple }),
            FrozenValue::Bool(b) => Ok(
                if b {
                    1
                } else {
                    0
                },
            ),
            FrozenValue::Int(i) => Ok(crate::num::u64_from_i32(i)),
            FrozenValue::Ref(i) => match &self.records[i] {
                FrozenPayload::Str(s) => Ok(str_hash(&s.bytes)),
                FrozenPayload::Tuple(_) => Err(
                    ValueError::NotHashable { type_tag: TypeTag::Tuple },
                ),
                FrozenPayload::List(_) => Err(ValueError::NotHashable { type_tag: TypeTag::List }),
                FrozenPayload::Float(f) => Ok(Num::Float(*f).get_hash_64()),
                FrozenPayload::Record(_) => Err(
                    ValueError::NotHashable { type_tag: TypeTag::Record },
                ),
                FrozenPayload::Def(_) => Ok(0),
            },
        }
    }
}

/// Law: hashing is stable across freezing, record by record — a record
/// and its frozen image yield the same hash, or decline for the same
/// reason.
pub proof fn lemma_record_hash_stable(
    records: Seq<Payload>,
    fwd: Seq<Option<usize>>,
    p: Payload,
    fp: FrozenPayload,
)
    requires
        record_corresponds(records, fwd, p, fp),
    ensures
        spec_frozen_payload_hash(fp) == spec_payload_hash(p),
{
}

/// Law: hashing is stable across freezing, value by value — once a
/// freeze pass has completed, a value and its frozen image yield the
/// same hash, or decline for the same reason.
pub proof fn lemma_value_hash_stable(
    records: Seq<Payload>,
    fz: Freezer,
    v: Value,
    fv: FrozenValue,
)
    requires
        fz.inv(records, Set::<int>::empty()),
        value_ok(records.len() as int, v),
        value_mapped(fz.fwd@, v, fv),
    ensures
        spec_frozen_value_hash(fz.frozen.records@, fv) == spec_value_hash(records, v),
{
    match v {
        Value::Ref(i) => {
            let n = fz.fwd@[i as int]->0;
            assert(record_corresponds(
                records,
                fz.fwd@,
                records[i as int],
                fz.frozen.records@[n as int],
            ));
            lemma_record_hash_stable(
                records,
                fz.fwd@,
                records[i as int],
                fz.frozen.records@[n as int],
            );
        },
        Value::FrozenRef(i) => {
            assert(crate::heap::frozen_statics_ok(fz.frozen.records@));
            assert(Seq::<u8>::empty() == fz.frozen.records@[EMPTY_STRING_INDEX as int]->Str_0.bytes@);
        },
        _ => {},
    }
}

/// Law: hashing is stable across copying relocation, record by record —
/// a record and its relocated image yield the same hash, or decline for
/// the same reason.
pub proof fn lemma_record_hash_stable_across_trace(
    records: Seq<Payload>,
    fwd: Seq<Option<usize>>,
    p: Payload,
    np: Payload,
)
    requires
        crate::trace::record_traced(records, fwd, p, np),
    ensures
        spec_payload_hash(np) == spec_payload_hash(p),
{
}

/// Law: hashing is stable across copying relocation, value by value —
/// once a trace pass has completed, a value and its relocated image
/// yield the same hash, or decline for the same reason.
pub proof fn lemma_value_hash_stable_across_trace(
    records: Seq<Payload>,
    tracer: crate::trace::Tracer,
    v: Value,
    nv: Value,
)
    requires
        tracer.inv(records, Set::<int>::empty()),
        value_ok(records.len() as int, v),
        crate::trace::value_traced(tracer.fwd@, v, nv),
    ensures
        spec_value_hash(tracer.target.records@, nv) == spec_value_hash(records, v),
{
    match v {
        Value::Ref(i) => {
            let m = tracer.fwd@[i as int]->0;
            assert(crate::trace::record_traced(
                records,
                tracer.fwd@,
                records[i as int],
                tracer.target.records@[m as int],
            ));
            lemma_record_hash_stable_across_trace(
                records,
                tracer.fwd@,
                records[i as int],
                tracer.target.records@[m as int],
            );
        },
        _ => {},
    }
}

/// Law: type identities are unambiguous — each payload matches exactly
/// the one type it holds, so downcasting to any other type yields
/// nothing.
pub proof fn lemma_downcast_unambiguous(p: Payload)
    ensures
        StarlarkStr::matches_payload(p) <==> p is Str,
        Tuple::matches_payload(p) <==> p is Tuple,
        List::matches_payload(p) <==> p is List,
        Array::matches_payload(p) <==> p is Array,
        crate::num::StarlarkFloat::matches_payload(p) <==> p is Float,
        Record::matches_payload(p) <==> p is Record,
        Def::matches_payload(p) <==> p is Def,
        !NoSimpleValue::matches_payload(p),
{
}

} // verus!
