//! The integer types as containers of bits: their descriptor, value and bit pattern.
use crate::lemmas::{
    lemma_decode_pattern, lemma_in_range_bounds, lemma_pattern_small, lemma_pow2_at_most_64,
};
use crate::model::{bits, decode, in_range, pattern_of, IntType};
use vstd::arithmetic::power2::{lemma2_to64, lemma2_to64_rest, pow2};
use vstd::bits::{lemma_u64_pow2_no_overflow, lemma_u64_shl_is_mul};
use vstd::prelude::*;

verus! {

/// A fixed-width integer type, seen as a container of bits.
pub trait FixedWidthInt: Copy + Sized {
    /// The type's width and signedness.
    spec fn int_type() -> IntType;

    /// The value as a mathematical integer.
    spec fn value(self) -> int;

    /// Every value of the type is in its range.
    proof fn lemma_value_in_range(self)
        ensures
            in_range(self.value(), Self::int_type().width(), Self::int_type().signed()),
    ;

    /// The type's descriptor.
    fn int_type_of() -> (t: IntType)
        ensures
            t == Self::int_type(),
    ;

    /// The value, widened without loss.
    fn to_i128(self) -> (v: i128)
        ensures
            v == self.value(),
            in_range(v as int, Self::int_type().width(), Self::int_type().signed()),
    ;

    /// The value of this type equal to `v`.
    fn from_i128(v: i128) -> (r: Self)
        requires
            in_range(v as int, Self::int_type().width(), Self::int_type().signed()),
        ensures
            r.value() == v,
    ;
}

/// The name of an integer type.
pub trait TypeInfo: FixedWidthInt {
    /// Returns the name of the variable's type.
    fn type_of(&self) -> (r: &'static str)
        ensures
            r@ == Self::int_type().name(),
    {
        Self::int_type_of().rust_name()
    }
}

/// Whether an integer type is signed.
pub trait SignedInfo: FixedWidthInt {
    /// Returns true if the variable is signed.
    fn is_signed(&self) -> (r: bool)
        ensures
            r == Self::int_type().signed(),
    {
        Self::int_type_of().is_signed()
    }
}

impl FixedWidthInt for u8 {
    open spec fn int_type() -> IntType {
        IntType::U8
    }

    open spec fn value(self) -> int {
        self as int
    }

    proof fn lemma_value_in_range(self) {
        lemma2_to64();
    }

    fn int_type_of() -> (t: IntType) {
        IntType::U8
    }

    fn to_i128(self) -> (v: i128) {
        proof {
            lemma2_to64();
        }
        self as i128
    }

    fn from_i128(v: i128) -> (r: Self) {
        proof {
            lemma2_to64();
        }
        v as u8
    }
}

impl FixedWidthInt for u16 {
    open spec fn int_type() -> IntType {
        IntType::U16
    }

    open spec fn value(self) -> int {
        self as int
    }

    proof fn lemma_value_in_range(self) {
        lemma2_to64();
    }

    fn int_type_of() -> (t: IntType) {
        IntType::U16
    }

    fn to_i128(self) -> (v: i128) {
        proof {
            lemma2_to64();
        }
        self as i128
    }

    fn from_i128(v: i128) -> (r: Self) {
        proof {
            lemma2_to64();
        }
        v as u16
    }
}

impl FixedWidthInt for u32 {
    open spec fn int_type() -> IntType {
        IntType::U32
    }

    open spec fn value(self) -> int {
        self as int
    }

    proof fn lemma_value_in_range(self) {
        lemma2_to64();
    }

    fn int_type_of() -> (t: IntType) {
        IntType::U32
    }

    fn to_i128(self) -> (v: i128) {
        proof {
            lemma2_to64();
        }
        self as i128
    }

    fn from_i128(v: i128) -> (r: Self) {
        proof {
            lemma2_to64();
        }
        v as u32
    }
}

impl FixedWidthInt for u64 {
    open spec fn int_type() -> IntType {
        IntType::U64
    }

    open spec fn value(self) -> int {
        self as int
    }

    proof fn lemma_value_in_range(self) {
        lemma2_to64();
    }

    fn int_type_of() -> (t: IntType) {
        IntType::U64
    }

    fn to_i128(self) -> (v: i128) {
        proof {
            lemma2_to64();
        }
        self as i128
    }

    fn from_i128(v: i128) -> (r: Self) {
        proof {
            lemma2_to64();
        }
        v as u64
    }
}

impl FixedWidthInt for i8 {
    open spec fn int_type() -> IntType {
        IntType::I8
    }

    open spec fn value(self) -> int {
        self as int
    }

    proof fn lemma_value_in_range(self) {
        lemma2_to64();
    }

    fn int_type_of() -> (t: IntType) {
        IntType::I8
    }

    fn to_i128(self) -> (v: i128) {
        proof {
            lemma2_to64();
        }
        self as i128
    }

    fn from_i128(v: i128) -> (r: Self) {
        proof {
            lemma2_to64();
        }
        v as i8
    }
}

impl FixedWidthInt for i16 {
    open spec fn int_type() -> IntType {
        IntType::I16
    }

    open spec fn value(self) -> int {
        self as int
    }

    proof fn lemma_value_in_range(self) {
        lemma2_to64();
    }

    fn int_type_of() -> (t: IntType) {
        IntType::I16
    }

    fn to_i128(self) -> (v: i128) {
        proof {
            lemma2_to64();
        }
        self as i128
    }

    fn from_i128(v: i128) -> (r: Self) {
        proof {
            lemma2_to64();
        }
        v as i16
    }
}

impl FixedWidthInt for i32 {
    open spec fn int_type() -> IntType {
        IntType::I32
    }

    open spec fn value(self) -> int {
        self as int
    }

    proof fn lemma_value_in_range(self) {
        lemma2_to64();
    }

    fn int_type_of() -> (t: IntType) {
        IntType::I32
    }

    fn to_i128(self) -> (v: i128) {
        proof {
            lemma2_to64();
        }
        self as i128
    }

    fn from_i128(v: i128) -> (r: Self) {
        proof {
            lemma2_to64();
        }
        v as i32
    }
}

impl FixedWidthInt for i64 {
    open spec fn int_type() -> IntType {
        IntType::I64
    }

    open spec fn value(self) -> int {
        self as int
    }

    proof fn lemma_value_in_range(self) {
        lemma2_to64();
            lemma2_to64_rest();
    }

    fn int_type_of() -> (t: IntType) {
        IntType::I64
    }

    fn to_i128(self) -> (v: i128) {
        proof {
            lemma2_to64();
            lemma2_to64_rest();
        }
        self as i128
    }

    fn from_i128(v: i128) -> (r: Self) {
        proof {
            lemma2_to64();
            lemma2_to64_rest();
        }
        v as i64
    }
}

impl TypeInfo for u8 {}
impl TypeInfo for u16 {}
impl TypeInfo for u32 {}
impl TypeInfo for u64 {}
impl TypeInfo for i8 {}
impl TypeInfo for i16 {}
impl TypeInfo for i32 {}
impl TypeInfo for i64 {}

impl SignedInfo for u8 {}
impl SignedInfo for u16 {}
impl SignedInfo for u32 {}
impl SignedInfo for u64 {}
impl SignedInfo for i8 {}
impl SignedInfo for i16 {}
impl SignedInfo for i32 {}
impl SignedInfo for i64 {}

/// `2^n` for `n <= 64`.
pub(crate) fn pow2_u128(n: u32) -> (r: u128)
    requires
        n <= 64,
    ensures
        r == pow2(n as nat),
{
    if n == 64 {
        proof {
            lemma2_to64();
        }
        0x1_0000_0000_0000_0000u128
    } else {
        proof {
            lemma_u64_pow2_no_overflow(n as nat);
            lemma_u64_shl_is_mul(1, n as u64);
        }
        (1u64 << (n as u64)) as u128
    }
}

/// The `width`-bit two's-complement pattern of `v`, for `-2^width <= v < 2^width`.
pub(crate) fn pattern_from_value(v: i128, width: u32) -> (p: u128)
    requires
        1 <= width <= 64,
        -pow2(width as nat) <= v < pow2(width as nat),
    ensures
        p == pattern_of(v as int, width as nat),
        p < pow2(width as nat),
{
    proof {
        lemma_pattern_small(v as int, width as nat);
        lemma_pow2_at_most_64(width as nat);
    }
    let m = pow2_u128(width);
    if v < 0 {
        (v + m as i128) as u128
    } else {
        v as u128
    }
}

/// The value that the `width`-bit pattern `p` stands for.
pub(crate) fn value_from_pattern(p: u128, width: u32, signed: bool) -> (v: i128)
    requires
        1 <= width <= 64,
        p < pow2(width as nat),
    ensures
        v == decode(p as nat, width as nat, signed),
        in_range(v as int, width as nat, signed),
{
    proof {
        lemma_decode_pattern(p as nat, width as nat, signed);
        lemma_pow2_at_most_64(width as nat);
    }
    let m = pow2_u128(width);
    let half = pow2_u128(width - 1);
    if signed && p >= half {
        p as i128 - m as i128
    } else {
        p as i128
    }
}


/// The bits of `x` in its type's width, most significant first.
pub open spec fn bits_of<T: FixedWidthInt>(x: T) -> Seq<bool> {
    bits(pattern_of(x.value(), T::int_type().width()), T::int_type().width())
}

/// The bit pattern of `x`, of its type's width.
pub(crate) fn pattern_of_int<T: FixedWidthInt>(x: T) -> (p: u64)
    ensures
        p == pattern_of(x.value(), T::int_type().width()),
        p < pow2(T::int_type().width()),
{
    let t = T::int_type_of();
    let v = x.to_i128();
    proof {
        lemma_pow2_at_most_64(t.width());
        lemma_in_range_bounds(v as int, t.width(), t.signed());
    }
    let p = pattern_from_value(v, t.bits());
    p as u64
}

/// The value of type `T` whose bit pattern is `p`.
pub(crate) fn int_of_pattern<T: FixedWidthInt>(p: u64) -> (x: T)
    requires
        p < pow2(T::int_type().width()),
    ensures
        pattern_of(x.value(), T::int_type().width()) == p,
        x.value() == decode(p as nat, T::int_type().width(), T::int_type().signed()),
{
    let t = T::int_type_of();
    let v = value_from_pattern(p as u128, t.bits(), t.is_signed());
    proof {
        lemma_decode_pattern(p as nat, t.width(), t.signed());
    }
    T::from_i128(v)
}

} // verus!
