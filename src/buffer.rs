//! Reading and writing bit fields of big-endian byte sequences.
use crate::ints::{pattern_from_value, value_from_pattern, FixedWidthInt};
use crate::lemmas::{
    lemma_bits_concat, lemma_field_bits, lemma_in_range_widen, lemma_pow2_at_most_64,
    lemma_pow2_le,
};
use crate::model::{
    bit, bits, buffer_bits, buffer_extraction, buffer_insertion_error, in_range, min_bits,
    pattern_of, splice, BitError, IntType,
};
use crate::scalar::{field_of, required_bits, result_value};
use crate::single_bit::{clear_pattern_bit, set_pattern_bit, test_pattern_bit};
use vstd::arithmetic::power2::{lemma2_to64, lemma_pow2_adds, lemma_pow2_pos, pow2};
use vstd::prelude::*;

verus! {

/// The eight bits of byte `m` of a sequence are the bits of that byte.
proof fn lemma_byte_bits(s: Seq<u8>, m: int)
    requires
        0 <= m < s.len(),
    ensures
        buffer_bits(s).subrange(8 * m, 8 * m + 8) =~= bits(s[m] as nat, 8),
{
    assert forall|i: int| 0 <= i < 8 implies buffer_bits(s).subrange(8 * m, 8 * m + 8)[i] == bits(
        s[m] as nat,
        8,
    )[i] by {
        assert((8 * m + i) / 8 == m);
        assert((8 * m + i) % 8 == i);
    }
}

/// Reads, as a value of type `T`, the `length` bits of `bytes` that start at bit `bit_offset`
/// of byte `byte_offset`; the first byte is the most significant. The field's bytes are put
/// together into one word, from which the field is taken as from an integer.
pub fn extract_buffer<T: FixedWidthInt>(
    bytes: &[u8],
    byte_offset: u32,
    bit_offset: u32,
    length: u32,
) -> (r: Result<T, BitError>)
    ensures
        result_value(r) == buffer_extraction(
            bytes@,
            T::int_type(),
            byte_offset as nat,
            bit_offset as nat,
            length as nat,
        ),
{
    let target = T::int_type_of();
    let start: u64 = byte_offset as u64 * 8 + bit_offset as u64;
    if length == 0 {
        return Err(BitError::LengthZero);
    }
    if start as u128 + length as u128 > bytes.len() as u128 * 8 {
        return Err(BitError::OutOfRange);
    }
    if length > target.bits() {
        return Err(BitError::OutOfRange);
    }
    let first = (start / 8) as usize;
    let skip = (start % 8) as u32;
    let span = ((skip + length + 7) / 8) as usize;
    let ghost s = bytes@;
    let n = bytes.len();
    proof {
        lemma2_to64();
        lemma_pow2_adds(64, 8);
        lemma_pow2_le(72, 127);
        vstd::arithmetic::power2::lemma_pow2_strictly_increases(127, 128);
    }
    let mut word: u128 = 0;
    let mut k: usize = 0;
    while k < span
        invariant
            span <= 9,
            first + span <= s.len(),
            s == bytes@,
            n == s.len(),
            0 <= k <= span,
            word < pow2(8 * k as nat),
            bits(word as nat, 8 * k as nat) =~= buffer_bits(s).subrange(
                8 * first as int,
                8 * first + 8 * k,
            ),
            pow2(72) < 0x1_0000_0000_0000_0000_0000_0000_0000_0000,
            pow2(8) == 256,
        decreases span - k,
    {
        let byte = bytes[first + k];
        proof {
            lemma_pow2_adds(8 * k as nat, 8);
            lemma_pow2_le(8 * k as nat + 8, 72);
            assert(word * 256 + byte < pow2(8 * k as nat + 8)) by (nonlinear_arith)
                requires
                    word < pow2(8 * k as nat),
                    byte < 256,
                    pow2(8 * k as nat + 8) == pow2(8 * k as nat) * 256,
            ;
            lemma_bits_concat(word as nat, 8 * k as nat, byte as nat, 8);
            lemma_byte_bits(s, first + k);
            assert(buffer_bits(s).subrange(8 * first as int, 8 * first + 8 * k + 8) =~= buffer_bits(
                s,
            ).subrange(8 * first as int, 8 * first + 8 * k) + buffer_bits(s).subrange(
                8 * (first + k),
                8 * (first + k) + 8,
            ));
        }
        word = word * 256 + byte as u128;
        k = k + 1;
    }
    let f = field_of(word, 8 * span as u32, skip, length);
    proof {
        lemma_field_bits(word as nat, 8 * span as nat, skip as nat, length as nat);
        assert(bits(word as nat, 8 * span as nat).subrange(skip as int, skip + length)
            =~= buffer_bits(s).subrange(start as int, start + length));
    }
    let v = value_from_pattern(f as u128, length, target.is_signed());
    proof {
        lemma_in_range_widen(v as int, length as nat, target.width(), target.signed());
    }
    Ok(T::from_i128(v))
}

/// Writes the lowest `length` bits of `value` into the `length` bits of `bytes` that start at
/// bit `bit_offset` of byte `byte_offset`, one bit at a time; no other bit changes.
pub fn insert_buffer<V: FixedWidthInt>(
    bytes: &mut [u8],
    byte_offset: u32,
    bit_offset: u32,
    length: u32,
    value: V,
) -> (r: Result<(), BitError>)
    ensures
        final(bytes)@.len() == old(bytes)@.len(),
        match r {
            Ok(_) => buffer_insertion_error(
                old(bytes)@.len(),
                byte_offset as nat,
                bit_offset as nat,
                length as nat,
                V::int_type(),
                value.value(),
            ) is None && buffer_bits(final(bytes)@) == splice(
                buffer_bits(old(bytes)@),
                (8 * byte_offset + bit_offset) as nat,
                bits(pattern_of(value.value(), length as nat), length as nat),
            ),
            Err(e) => buffer_insertion_error(
                old(bytes)@.len(),
                byte_offset as nat,
                bit_offset as nat,
                length as nat,
                V::int_type(),
                value.value(),
            ) == Some(e) && final(bytes)@ == old(bytes)@,
        },
{
    let vt = V::int_type_of();
    let start: u64 = byte_offset as u64 * 8 + bit_offset as u64;
    if length == 0 {
        return Err(BitError::LengthZero);
    }
    if start as u128 + length as u128 > bytes.len() as u128 * 8 {
        return Err(BitError::OutOfRange);
    }
    if length > vt.bits() {
        return Err(BitError::OutOfRange);
    }
    let signed = vt.is_signed();
    let v = value.to_i128();
    proof {
        lemma_in_range_widen(v as int, vt.width(), 64, signed);
    }
    let needed = required_bits(v, signed);
    if needed > length {
        return Err(BitError::ValueTooWide { value: v, signed, length, required: needed });
    }
    proof {
        lemma_pow2_le(needed as nat, length as nat);
        lemma_pow2_at_most_64(length as nat);
        lemma2_to64();
    }
    let f = pattern_from_value(v, length) as u64;
    let ghost old_bits = buffer_bits(bytes@);
    let ghost field = bits(f as nat, length as nat);
    let n = bytes.len();
    let end = start + length as u64;
    let mut pos = start;
    while pos < end
        invariant
            start <= pos <= end,
            end == start + length,
            end <= 8 * n,
            bytes@.len() == n,
            old_bits == buffer_bits(old(bytes)@),
            field == bits(f as nat, length as nat),
            1 <= length <= 64,
            pow2(8) == 256,
            forall|j: int|
                0 <= j < 8 * n ==> #[trigger] buffer_bits(bytes@)[j] == if start <= j < pos {
                    field[j - start]
                } else {
                    old_bits[j]
                },
        decreases end - pos,
    {
        assert(pos / 8 < n);
        let idx = (pos / 8) as usize;
        let b = (pos % 8) as u32;
        let k = (pos - start) as u32;
        let byte = bytes[idx] as u64;
        let ghost before = bytes@;
        let is_set = test_pattern_bit(f, length, k);
        let new_byte = if is_set {
            set_pattern_bit(byte, 8, b)
        } else {
            clear_pattern_bit(byte, 8, b)
        };
        bytes[idx] = new_byte as u8;
        proof {
            assert(bytes@ == before.update(idx as int, new_byte as u8));
            assert(is_set == field[k as int]);
            assert(bits(new_byte as nat, 8) == bits(byte as nat, 8).update(b as int, is_set));
            assert forall|j: int| 0 <= j < 8 * n implies #[trigger] buffer_bits(bytes@)[j] == if start
                <= j < pos + 1 {
                field[j - start]
            } else {
                old_bits[j]
            } by {
                assert(buffer_bits(before)[j] == if start <= j < pos {
                    field[j - start]
                } else {
                    old_bits[j]
                });
                assert(j == 8 * (j / 8) + j % 8);
                assert(pos == 8 * idx + b);
                if j / 8 == idx {
                    assert(buffer_bits(bytes@)[j] == bits(new_byte as nat, 8)[j % 8]);
                    assert(buffer_bits(before)[j] == bits(byte as nat, 8)[j % 8]);
                    if j % 8 == b {
                        assert(j == pos);
                    } else {
                        assert(j != pos);
                    }
                } else {
                    assert(j != pos);
                    assert(bytes@[j / 8] == before[j / 8]);
                }
            }
        }
        pos = pos + 1;
    }
    proof {
        assert(buffer_bits(bytes@) =~= splice(old_bits, start as nat, field));
    }
    Ok(())
}

/// Reads a range of bits of a big-endian byte sequence as an integer.
///
/// The range starts at bit `bit_offset` (0 is the most significant bit) of byte `byte_offset`
/// and holds `length` bits; a bit offset of 8 or more runs on into the following bytes.
pub trait ExtractBitsFromVecU8: View<V = Seq<u8>> {
    /// Extracts a range of bits as a `u8`.
    fn get_u8(&self, byte_offset: u32, bit_offset: u32, length: u32) -> (r: Result<u8, BitError>)
        ensures
            result_value(r) == buffer_extraction(
                self@,
                IntType::U8,
                byte_offset as nat,
                bit_offset as nat,
                length as nat,
            ),
    ;

    /// Extracts a range of bits as a `u16`.
    fn get_u16(&self, byte_offset: u32, bit_offset: u32, length: u32) -> (r: Result<u16, BitError>)
        ensures
            result_value(r) == buffer_extraction(
                self@,
                IntType::U16,
                byte_offset as nat,
                bit_offset as nat,
                length as nat,
            ),
    ;

    /// Extracts a range of bits as a `u32`.
    fn get_u32(&self, byte_offset: u32, bit_offset: u32, length: u32) -> (r: Result<u32, BitError>)
        ensures
            result_value(r) == buffer_extraction(
                self@,
                IntType::U32,
                byte_offset as nat,
                bit_offset as nat,
                length as nat,
            ),
    ;

    /// Extracts a range of bits as a `u64`.
    fn get_u64(&self, byte_offset: u32, bit_offset: u32, length: u32) -> (r: Result<u64, BitError>)
        ensures
            result_value(r) == buffer_extraction(
                self@,
                IntType::U64,
                byte_offset as nat,
                bit_offset as nat,
                length as nat,
            ),
    ;

    /// Extracts a range of bits as an `i8`.
    fn get_i8(&self, byte_offset: u32, bit_offset: u32, length: u32) -> (r: Result<i8, BitError>)
        ensures
            result_value(r) == buffer_extraction(
                self@,
                IntType::I8,
                byte_offset as nat,
                bit_offset as nat,
                length as nat,
            ),
    ;

    /// Extracts a range of bits as an `i16`.
    fn get_i16(&self, byte_offset: u32, bit_offset: u32, length: u32) -> (r: Result<i16, BitError>)
        ensures
            result_value(r) == buffer_extraction(
                self@,
                IntType::I16,
                byte_offset as nat,
                bit_offset as nat,
                length as nat,
            ),
    ;

    /// Extracts a range of bits as an `i32`.
    fn get_i32(&self, byte_offset: u32, bit_offset: u32, length: u32) -> (r: Result<i32, BitError>)
        ensures
            result_value(r) == buffer_extraction(
                self@,
                IntType::I32,
                byte_offset as nat,
                bit_offset as nat,
                length as nat,
            ),
    ;

    /// Extracts a range of bits as an `i64`.
    fn get_i64(&self, byte_offset: u32, bit_offset: u32, length: u32) -> (r: Result<i64, BitError>)
        ensures
            result_value(r) == buffer_extraction(
                self@,
                IntType::I64,
                byte_offset as nat,
                bit_offset as nat,
                length as nat,
            ),
    ;
}

impl ExtractBitsFromVecU8 for Vec<u8> {
    fn get_u8(&self, byte_offset: u32, bit_offset: u32, length: u32) -> (r: Result<u8, BitError>) {
        extract_buffer(self.as_slice(), byte_offset, bit_offset, length)
    }

    fn get_u16(&self, byte_offset: u32, bit_offset: u32, length: u32) -> (r: Result<u16, BitError>) {
        extract_buffer(self.as_slice(), byte_offset, bit_offset, length)
    }

    fn get_u32(&self, byte_offset: u32, bit_offset: u32, length: u32) -> (r: Result<u32, BitError>) {
        extract_buffer(self.as_slice(), byte_offset, bit_offset, length)
    }

    fn get_u64(&self, byte_offset: u32, bit_offset: u32, length: u32) -> (r: Result<u64, BitError>) {
        extract_buffer(self.as_slice(), byte_offset, bit_offset, length)
    }

    fn get_i8(&self, byte_offset: u32, bit_offset: u32, length: u32) -> (r: Result<i8, BitError>) {
        extract_buffer(self.as_slice(), byte_offset, bit_offset, length)
    }

    fn get_i16(&self, byte_offset: u32, bit_offset: u32, length: u32) -> (r: Result<i16, BitError>) {
        extract_buffer(self.as_slice(), byte_offset, bit_offset, length)
    }

    fn get_i32(&self, byte_offset: u32, bit_offset: u32, length: u32) -> (r: Result<i32, BitError>) {
        extract_buffer(self.as_slice(), byte_offset, bit_offset, length)
    }

    fn get_i64(&self, byte_offset: u32, bit_offset: u32, length: u32) -> (r: Result<i64, BitError>) {
        extract_buffer(self.as_slice(), byte_offset, bit_offset, length)
    }
}

/// Writes an integer into a range of bits of a big-endian byte sequence.
pub trait InsertBitsIntoVecU8: View<V = Seq<u8>> {
    /// Writes the lowest `length` bits of `value` into the bits that start at bit `bit_offset`
    /// of byte `byte_offset` (0 is the most significant bit); `value` must fit in `length` bits.
    fn set<T: FixedWidthInt>(&mut self, byte_offset: u32, bit_offset: u32, length: u32, value: T) -> (r:
        Result<(), BitError>)
        ensures
            final(self)@.len() == old(self)@.len(),
            match r {
                Ok(_) => buffer_insertion_error(
                    old(self)@.len(),
                    byte_offset as nat,
                    bit_offset as nat,
                    length as nat,
                    T::int_type(),
                    value.value(),
                ) is None && buffer_bits(final(self)@) == splice(
                    buffer_bits(old(self)@),
                    (8 * byte_offset + bit_offset) as nat,
                    bits(pattern_of(value.value(), length as nat), length as nat),
                ),
                Err(e) => buffer_insertion_error(
                    old(self)@.len(),
                    byte_offset as nat,
                    bit_offset as nat,
                    length as nat,
                    T::int_type(),
                    value.value(),
                ) == Some(e) && final(self)@ == old(self)@,
            },
    ;
}

impl InsertBitsIntoVecU8 for Vec<u8> {
    fn set<T: FixedWidthInt>(&mut self, byte_offset: u32, bit_offset: u32, length: u32, value: T) -> (r:
        Result<(), BitError>) {
        insert_buffer(self.as_mut_slice(), byte_offset, bit_offset, length, value)
    }
}

} // verus!
