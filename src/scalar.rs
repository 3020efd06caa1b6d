//! Reading and writing bit fields of fixed-width integers.
use crate::ints::{
    bits_of, int_of_pattern, pattern_from_value, pattern_of_int, pow2_u128, value_from_pattern,
    FixedWidthInt,
};
use crate::lemmas::{
    lemma_bits_placed, lemma_in_range_bounds, lemma_in_range_widen, lemma_pow2_at_most_64,
    lemma_pow2_le,
};
use crate::model::{
    bits, field_value, in_range, min_bits, pattern_of, scalar_extraction, scalar_insertion_error,
    splice, BitError, IntType,
};
use crate::single_bit::{clear_pattern_bit, set_pattern_bit, test_pattern_bit};
use crate::width::{n_required_bits_for_a_signed_int, n_required_bits_for_an_unsigned_int};
use vstd::arithmetic::div_mod::lemma_mod_pos_bound;
use vstd::arithmetic::power2::{lemma2_to64, lemma_pow2_pos, lemma_pow2_unfold, pow2};
use vstd::bits::{lemma_u128_shr_is_div, lemma_u64_shl_is_mul};
use vstd::prelude::*;

verus! {

/// A result of type `T` seen as a result holding a mathematical integer.
pub open spec fn result_value<T: FixedWidthInt>(r: Result<T, BitError>) -> Result<int, BitError> {
    match r {
        Ok(x) => Ok(x.value()),
        Err(e) => Err(e),
    }
}

/// The `length`-bit field from bit `offset` on of the `width`-bit pattern `p`.
pub(crate) fn field_of(p: u128, width: u32, offset: u32, length: u32) -> (f: u64)
    requires
        1 <= length <= 64,
        offset + length <= width <= 128,
    ensures
        f == field_value(p as nat, width as nat, offset as nat, length as nat),
        f < pow2(length as nat),
{
    let s = width - offset - length;
    proof {
        lemma_u128_shr_is_div(p, s as u128);
        lemma_pow2_at_most_64(length as nat);
        lemma_mod_pos_bound((p as nat / pow2(s as nat)) as int, pow2(length as nat) as int);
    }
    let shifted = p >> (s as u128);
    (shifted % pow2_u128(length)) as u64
}

/// Reads the `length` bits from bit `offset` on of `source` (bit 0 is the most significant)
/// as a value of type `T`: zero-extended for an unsigned `T`, sign-extended from the field's
/// top bit for a signed one.
pub fn extract_scalar<S: FixedWidthInt, T: FixedWidthInt>(source: S, offset: u32, length: u32) -> (r:
    Result<T, BitError>)
    ensures
        result_value(r) == scalar_extraction(
            S::int_type(),
            T::int_type(),
            source.value(),
            offset as nat,
            length as nat,
        ),
{
    let width = S::int_type_of().bits();
    let target = T::int_type_of();
    if length == 0 {
        return Err(BitError::LengthZero);
    }
    if offset as u64 + length as u64 > width as u64 {
        return Err(BitError::OutOfRange);
    }
    if length > target.bits() {
        return Err(BitError::LengthTooBigForTargetType(target));
    }
    let f = field_of(pattern_of_int(source) as u128, width, offset, length);
    let v = value_from_pattern(f as u128, length, target.is_signed());
    proof {
        lemma_in_range_widen(v as int, length as nat, target.width(), target.signed());
    }
    Ok(T::from_i128(v))
}

/// The least number of bits that can hold `v`, read with the given signedness.
pub(crate) fn required_bits(v: i128, signed: bool) -> (n: u32)
    requires
        in_range(v as int, 64, signed),
    ensures
        n == min_bits(v as int, signed),
        1 <= n <= 64,
        -pow2(n as nat) <= v < pow2(n as nat),
{
    proof {
        lemma2_to64();
        vstd::arithmetic::power2::lemma2_to64_rest();
    }
    if signed {
        let n = n_required_bits_for_a_signed_int(v as i64);
        proof {
            lemma_pow2_unfold(n as nat);
            lemma_pow2_pos((n - 1) as nat);
        }
        n
    } else {
        n_required_bits_for_an_unsigned_int(v as u64)
    }
}

/// Writes the lowest `length` bits of `value` (its two's-complement pattern, cut or extended to
/// `length` bits) into the bits from `offset` on of `container`, one bit at a time, and returns
/// the new container. No other bit changes.
pub fn insert_scalar<C: FixedWidthInt, V: FixedWidthInt>(
    container: C,
    offset: u32,
    length: u32,
    value: V,
) -> (r: Result<C, BitError>)
    ensures
        match r {
            Ok(x) => scalar_insertion_error(
                C::int_type(),
                offset as nat,
                length as nat,
                value.value(),
                V::int_type().signed(),
            ) is None && bits_of(x) == splice(
                bits_of(container),
                offset as nat,
                bits(pattern_of(value.value(), length as nat), length as nat),
            ),
            Err(e) => scalar_insertion_error(
                C::int_type(),
                offset as nat,
                length as nat,
                value.value(),
                V::int_type().signed(),
            ) == Some(e),
        },
{
    let ct = C::int_type_of();
    let width = ct.bits();
    if length > width {
        return Err(BitError::LengthTooBigForTargetType(ct));
    }
    if length == 0 {
        return Err(BitError::LengthZero);
    }
    if offset as u64 + length as u64 > width as u64 {
        return Err(BitError::OutOfRange);
    }
    let signed = V::int_type_of().is_signed();
    let v = value.to_i128();
    proof {
        lemma_in_range_widen(v as int, V::int_type().width(), 64, signed);
    }
    let needed = required_bits(v, signed);
    if needed > length {
        return Err(BitError::ValueTooWide { value: v, signed, length, required: needed });
    }
    proof {
        lemma_pow2_le(needed as nat, length as nat);
        lemma_pow2_at_most_64(length as nat);
    }
    let f = pattern_from_value(v, length) as u64;
    // the field, placed where it goes in the container
    let s = width - offset - length;
    proof {
        lemma_bits_placed(f as nat, offset as nat, length as nat, s as nat);
        lemma_pow2_at_most_64(width as nat);
        lemma_u64_shl_is_mul(f, s as u64);
    }
    let placed = f << (s as u64);
    let ghost old_bits = bits(pattern_of(container.value(), width as nat), width as nat);
    let ghost placed_bits = bits(placed as nat, width as nat);
    let mut result = pattern_of_int(container);
    let mut i = offset;
    while i < offset + length
        invariant
            offset <= i <= offset + length <= width <= 64,
            s == width - offset - length,
            result < pow2(width as nat),
            placed_bits == bits(placed as nat, width as nat),
            placed_bits =~= bits(0, offset as nat) + bits(f as nat, length as nat) + bits(0, s as nat),
            forall|j: int|
                0 <= j < width ==> #[trigger] bits(result as nat, width as nat)[j] == if offset
                    <= j < i {
                    placed_bits[j]
                } else {
                    old_bits[j]
                },
        decreases offset + length - i,
    {
        if test_pattern_bit(placed, width, i) {
            result = set_pattern_bit(result, width, i);
        } else {
            result = clear_pattern_bit(result, width, i);
        }
        i = i + 1;
    }
    proof {
        assert(bits(result as nat, width as nat) =~= splice(
            old_bits,
            offset as nat,
            bits(f as nat, length as nat),
        ));
    }
    Ok(int_of_pattern(result))
}

/// Reads a range of bits of an integer as any of the eight integer types.
///
/// `bit_offset` is the first bit of the range (0 is the most significant bit), `length` the
/// number of bits.
pub trait ExtractBitsFromIntegralTypes: FixedWidthInt {
    /// Extracts a range of bits as a `u8`.
    fn get_u8(self, bit_offset: u32, length: u32) -> (r: Result<u8, BitError>)
        ensures
            result_value(r) == scalar_extraction(
                Self::int_type(),
                IntType::U8,
                self.value(),
                bit_offset as nat,
                length as nat,
            ),
    {
        extract_scalar(self, bit_offset, length)
    }

    /// Extracts a range of bits as a `u16`.
    fn get_u16(self, bit_offset: u32, length: u32) -> (r: Result<u16, BitError>)
        ensures
            result_value(r) == scalar_extraction(
                Self::int_type(),
                IntType::U16,
                self.value(),
                bit_offset as nat,
                length as nat,
            ),
    {
        extract_scalar(self, bit_offset, length)
    }

    /// Extracts a range of bits as a `u32`.
    fn get_u32(self, bit_offset: u32, length: u32) -> (r: Result<u32, BitError>)
        ensures
            result_value(r) == scalar_extraction(
                Self::int_type(),
                IntType::U32,
                self.value(),
                bit_offset as nat,
                length as nat,
            ),
    {
        extract_scalar(self, bit_offset, length)
    }

    /// Extracts a range of bits as a `u64`.
    fn get_u64(self, bit_offset: u32, length: u32) -> (r: Result<u64, BitError>)
        ensures
            result_value(r) == scalar_extraction(
                Self::int_type(),
                IntType::U64,
                self.value(),
                bit_offset as nat,
                length as nat,
            ),
    {
        extract_scalar(self, bit_offset, length)
    }

    /// Extracts a range of bits as an `i8`.
    fn get_i8(self, bit_offset: u32, length: u32) -> (r: Result<i8, BitError>)
        ensures
            result_value(r) == scalar_extraction(
                Self::int_type(),
                IntType::I8,
                self.value(),
                bit_offset as nat,
                length as nat,
            ),
    {
        extract_scalar(self, bit_offset, length)
    }

    /// Extracts a range of bits as an `i16`.
    fn get_i16(self, bit_offset: u32, length: u32) -> (r: Result<i16, BitError>)
        ensures
            result_value(r) == scalar_extraction(
                Self::int_type(),
                IntType::I16,
                self.value(),
                bit_offset as nat,
                length as nat,
            ),
    {
        extract_scalar(self, bit_offset, length)
    }

    /// Extracts a range of bits as an `i32`.
    fn get_i32(self, bit_offset: u32, length: u32) -> (r: Result<i32, BitError>)
        ensures
            result_value(r) == scalar_extraction(
                Self::int_type(),
                IntType::I32,
                self.value(),
                bit_offset as nat,
                length as nat,
            ),
    {
        extract_scalar(self, bit_offset, length)
    }

    /// Extracts a range of bits as an `i64`.
    fn get_i64(self, bit_offset: u32, length: u32) -> (r: Result<i64, BitError>)
        ensures
            result_value(r) == scalar_extraction(
                Self::int_type(),
                IntType::I64,
                self.value(),
                bit_offset as nat,
                length as nat,
            ),
    {
        extract_scalar(self, bit_offset, length)
    }
}

/// Writes an integer of any of the eight types into a range of bits of another.
pub trait InsertIntoSizedIntegerTypes: FixedWidthInt {
    /// Writes the lowest `length` bits of `value` from `bit_offset` on (0 is the most
    /// significant bit) and returns the new value; `value` must fit in `length` bits.
    fn set<T: FixedWidthInt>(self, bit_offset: u32, length: u32, value: T) -> (r: Result<
        Self,
        BitError,
    >)
        ensures
            match r {
                Ok(x) => scalar_insertion_error(
                    Self::int_type(),
                    bit_offset as nat,
                    length as nat,
                    value.value(),
                    T::int_type().signed(),
                ) is None && bits_of(x) == splice(
                    bits_of(self),
                    bit_offset as nat,
                    bits(pattern_of(value.value(), length as nat), length as nat),
                ),
                Err(e) => scalar_insertion_error(
                    Self::int_type(),
                    bit_offset as nat,
                    length as nat,
                    value.value(),
                    T::int_type().signed(),
                ) == Some(e),
            },
    {
        insert_scalar(self, bit_offset, length, value)
    }
}

impl ExtractBitsFromIntegralTypes for u8 {}
impl ExtractBitsFromIntegralTypes for u16 {}
impl ExtractBitsFromIntegralTypes for u32 {}
impl ExtractBitsFromIntegralTypes for u64 {}
impl ExtractBitsFromIntegralTypes for i8 {}
impl ExtractBitsFromIntegralTypes for i16 {}
impl ExtractBitsFromIntegralTypes for i32 {}
impl ExtractBitsFromIntegralTypes for i64 {}

impl InsertIntoSizedIntegerTypes for u8 {}
impl InsertIntoSizedIntegerTypes for u16 {}
impl InsertIntoSizedIntegerTypes for u32 {}
impl InsertIntoSizedIntegerTypes for u64 {}
impl InsertIntoSizedIntegerTypes for i8 {}
impl InsertIntoSizedIntegerTypes for i16 {}
impl InsertIntoSizedIntegerTypes for i32 {}
impl InsertIntoSizedIntegerTypes for i64 {}

} // verus!
