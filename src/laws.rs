//! Laws that relate the reading and the writing of fields.
use crate::ints::{bits_of, FixedWidthInt};
use crate::lemmas::{
    lemma_bits_round_trip, lemma_byte_from_bits, lemma_field_bits, lemma_pattern_decode,
};
use crate::model::{
    bits, buffer_bits, buffer_extraction, buffer_insertion_error, decode, min_bits, pattern_of,
    scalar_extraction, scalar_insertion_error, splice, BitError, IntType,
};
use crate::width::lemma_min_bits_range;
use vstd::arithmetic::div_mod::lemma_mod_bound;
use vstd::arithmetic::power2::{lemma_pow2_pos, pow2};
use vstd::prelude::*;

verus! {

/// What a field written with `value` reads back as: the value's lowest `length` bits, read with
/// the value's signedness. An unsigned value comes back whole; so does a signed one below
/// `2^(length - 1)`.
pub open spec fn written_field(v: int, length: nat, signed: bool) -> int {
    decode(pattern_of(v, length), length, signed)
}

proof fn lemma_written_field(v: int, length: nat, signed: bool)
    requires
        length >= 1,
        min_bits(v, signed) <= length,
        !signed ==> v >= 0,
    ensures
        pattern_of(v, length) < pow2(length),
        !signed ==> written_field(v, length, signed) == v,
        signed && v < pow2((length - 1) as nat) ==> written_field(v, length, signed) == v,
{
    lemma_pow2_pos(length);
    lemma_mod_bound(v, pow2(length) as int);
    lemma_min_bits_range(v, signed, length);
    if !signed || v < pow2((length - 1) as nat) {
        lemma_pattern_decode(v, length, signed);
    }
}

/// Round trip on integers: where `written` is what writing `value` into the `length` bits from
/// `offset` on of `container` returned, reading those bits back as a type of the value's
/// signedness gives the value's lowest `length` bits, read with that signedness.
pub proof fn law_scalar_round_trip<C: FixedWidthInt, V: FixedWidthInt>(
    container: C,
    offset: nat,
    length: nat,
    value: V,
    written: C,
    target: IntType,
)
    requires
        scalar_insertion_error(C::int_type(), offset, length, value.value(), V::int_type().signed())
            is None,
        bits_of(written) == splice(
            bits_of(container),
            offset,
            bits(pattern_of(value.value(), length), length),
        ),
        target.signed() == V::int_type().signed(),
        length <= target.width(),
    ensures
        scalar_extraction(C::int_type(), target, written.value(), offset, length) == Ok::<
            int,
            BitError,
        >(written_field(value.value(), length, target.signed())),
        !target.signed() ==> written_field(value.value(), length, false) == value.value(),
        target.signed() && value.value() < pow2((length - 1) as nat) ==> written_field(
            value.value(),
            length,
            true,
        ) == value.value(),
{
    let w = C::int_type().width();
    let f = pattern_of(value.value(), length);
    let signed = V::int_type().signed();
    value.lemma_value_in_range();
    lemma_written_field(value.value(), length, signed);
    lemma_field_bits(pattern_of(written.value(), w), w, offset, length);
    assert(bits_of(written).subrange(offset as int, (offset + length) as int) =~= bits(f, length));
    lemma_bits_round_trip(f, length);
}

/// Round trip on byte sequences: where `written` is what writing `value` into `length` bits of
/// `bytes` left, reading those bits back as a type of the value's signedness gives the value's
/// lowest `length` bits, read with that signedness.
pub proof fn law_buffer_round_trip<V: FixedWidthInt>(
    bytes: Seq<u8>,
    byte_offset: nat,
    bit_offset: nat,
    length: nat,
    value: V,
    written: Seq<u8>,
    target: IntType,
)
    requires
        buffer_insertion_error(
            bytes.len(),
            byte_offset,
            bit_offset,
            length,
            V::int_type(),
            value.value(),
        ) is None,
        written.len() == bytes.len(),
        buffer_bits(written) == splice(
            buffer_bits(bytes),
            8 * byte_offset + bit_offset,
            bits(pattern_of(value.value(), length), length),
        ),
        target.signed() == V::int_type().signed(),
        length <= target.width(),
    ensures
        buffer_extraction(written, target, byte_offset, bit_offset, length) == Ok::<int, BitError>(
            written_field(value.value(), length, target.signed()),
        ),
{
    let start = 8 * byte_offset + bit_offset;
    let f = pattern_of(value.value(), length);
    value.lemma_value_in_range();
    lemma_written_field(value.value(), length, V::int_type().signed());
    assert(buffer_bits(written).subrange(start as int, (start + length) as int) =~= bits(
        f,
        length,
    ));
    lemma_bits_round_trip(f, length);
}

/// Writing into an integer leaves every bit outside the written span as it was.
pub proof fn law_scalar_non_interference<C: FixedWidthInt>(
    container: C,
    offset: nat,
    field: Seq<bool>,
    written: C,
)
    requires
        offset + field.len() <= C::int_type().width(),
        bits_of(written) == splice(bits_of(container), offset, field),
    ensures
        forall|i: int|
            0 <= i < C::int_type().width() && !(offset <= i < offset + field.len()) ==> bits_of(
                written,
            )[i] == #[trigger] bits_of(container)[i],
{
}

/// Writing into a byte sequence leaves every bit outside the written span as it was, and every
/// byte that holds none of the span.
pub proof fn law_buffer_non_interference(
    bytes: Seq<u8>,
    start: nat,
    field: Seq<bool>,
    written: Seq<u8>,
)
    requires
        field.len() >= 1,
        start + field.len() <= 8 * bytes.len(),
        written.len() == bytes.len(),
        buffer_bits(written) == splice(buffer_bits(bytes), start, field),
    ensures
        forall|i: int|
            0 <= i < 8 * bytes.len() && !(start <= i < start + field.len()) ==> buffer_bits(
                written,
            )[i] == #[trigger] buffer_bits(bytes)[i],
        forall|m: int|
            0 <= m < bytes.len() && (m < start / 8 || m > (start + field.len() - 1) / 8) ==> written[m]
                == #[trigger] bytes[m],
{
    assert forall|m: int|
        0 <= m < bytes.len() && (m < start / 8 || m > (start + field.len() - 1) / 8) implies written[m]
        == #[trigger] bytes[m] by {
        assert forall|r: int| 0 <= r < 8 implies bits(written[m] as nat, 8)[r] == bits(
            bytes[m] as nat,
            8,
        )[r] by {
            let i = 8 * m + r;
            assert(i / 8 == m);
            assert(i % 8 == r);
            assert(buffer_bits(written)[i] == buffer_bits(bytes)[i]);
        }
        assert(bits(written[m] as nat, 8) =~= bits(bytes[m] as nat, 8));
        lemma_byte_from_bits(written[m], bytes[m]);
    }
}

/// A non-empty span that runs past the end of an integer is refused as out of range,
/// whatever the source and target types; an empty span is refused as empty first.
pub proof fn law_scalar_range_rejection(
    source: IntType,
    target: IntType,
    v: int,
    offset: nat,
    length: nat,
)
    requires
        length >= 1,
        offset + length > source.width(),
    ensures
        scalar_extraction(source, target, v, offset, length) == Err::<int, BitError>(
            BitError::OutOfRange,
        ),
        length <= source.width() ==> forall|u: int, signed: bool|
            #[trigger] scalar_insertion_error(source, offset, length, u, signed) == Some(
                BitError::OutOfRange,
            ),
{
}

/// A non-empty span that runs past the end of a byte sequence is refused as out of range, for
/// reading as any type and for writing any value; an empty span is refused as empty first.
pub proof fn law_buffer_range_rejection(
    bytes: Seq<u8>,
    byte_offset: nat,
    bit_offset: nat,
    length: nat,
)
    requires
        length >= 1,
        8 * byte_offset + bit_offset + length > 8 * bytes.len(),
    ensures
        forall|target: IntType|
            #[trigger] buffer_extraction(bytes, target, byte_offset, bit_offset, length) == Err::<
                int,
                BitError,
            >(BitError::OutOfRange),
        forall|value_type: IntType, v: int|
            #[trigger] buffer_insertion_error(
                bytes.len(),
                byte_offset,
                bit_offset,
                length,
                value_type,
                v,
            ) == Some(BitError::OutOfRange),
{
}

} // verus!
