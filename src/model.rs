//! The mathematical model: integer types, bit patterns, bit sequences and errors.
use vstd::arithmetic::power2::pow2;
use vstd::math::abs;
use vstd::prelude::*;

verus! {

/// One of the eight fixed-width integer types that a field is read from or written into.
#[derive(Clone, Copy, Debug, PartialEq, Eq, Structural)]
pub enum IntType {
    U8,
    U16,
    U32,
    U64,
    I8,
    I16,
    I32,
    I64,
}

impl IntType {
    /// Number of bits of the type.
    pub open spec fn width(self) -> nat {
        match self {
            IntType::U8 | IntType::I8 => 8,
            IntType::U16 | IntType::I16 => 16,
            IntType::U32 | IntType::I32 => 32,
            IntType::U64 | IntType::I64 => 64,
        }
    }

    /// Whether the type is read in two's complement.
    pub open spec fn signed(self) -> bool {
        match self {
            IntType::I8 | IntType::I16 | IntType::I32 | IntType::I64 => true,
            _ => false,
        }
    }

    /// The type's name in Rust.
    pub open spec fn name(self) -> Seq<char> {
        match self {
            IntType::U8 => "u8"@,
            IntType::U16 => "u16"@,
            IntType::U32 => "u32"@,
            IntType::U64 => "u64"@,
            IntType::I8 => "i8"@,
            IntType::I16 => "i16"@,
            IntType::I32 => "i32"@,
            IntType::I64 => "i64"@,
        }
    }

    /// Number of bits of the type.
    pub fn bits(self) -> (r: u32)
        ensures
            r == self.width(),
    {
        match self {
            IntType::U8 | IntType::I8 => 8,
            IntType::U16 | IntType::I16 => 16,
            IntType::U32 | IntType::I32 => 32,
            IntType::U64 | IntType::I64 => 64,
        }
    }

    /// Whether the type is signed.
    pub fn is_signed(self) -> (r: bool)
        ensures
            r == self.signed(),
    {
        match self {
            IntType::I8 | IntType::I16 | IntType::I32 | IntType::I64 => true,
            _ => false,
        }
    }

    /// The type's name in Rust.
    pub fn rust_name(self) -> (r: &'static str)
        ensures
            r@ == self.name(),
    {
        match self {
            IntType::U8 => "u8",
            IntType::U16 => "u16",
            IntType::U32 => "u32",
            IntType::U64 => "u64",
            IntType::I8 => "i8",
            IntType::I16 => "i16",
            IntType::I32 => "i32",
            IntType::I64 => "i64",
        }
    }
}

/// Why a field could not be read or written.
#[derive(Clone, Copy, Debug, PartialEq, Eq, Structural)]
pub enum BitError {
    /// The span leaves the container or the byte sequence, or a buffer field is wider than its
    /// type.
    OutOfRange,
    /// The field is empty.
    LengthZero,
    /// The field is wider than the named type can hold.
    LengthTooBigForTargetType(IntType),
    /// Writing `value` needs `required` bits, more than the field's `length`.
    ValueTooWide { value: i128, signed: bool, length: u32, required: u32 },
}

/// Whether `v` is a value of a `width`-bit integer of the given signedness.
pub open spec fn in_range(v: int, width: nat, signed: bool) -> bool {
    if signed {
        -pow2((width - 1) as nat) <= v < pow2((width - 1) as nat)
    } else {
        0 <= v < pow2(width)
    }
}

/// The `width`-bit two's-complement pattern of `v`: its lowest `width` bits.
pub open spec fn pattern_of(v: int, width: nat) -> nat {
    (v % (pow2(width) as int)) as nat
}

/// The value of the `width`-bit pattern `p`, read in two's complement when `signed`.
pub open spec fn decode(p: nat, width: nat, signed: bool) -> int {
    if signed && p >= pow2((width - 1) as nat) {
        p - pow2(width)
    } else {
        p as int
    }
}

/// Bit `i` of the `width`-bit pattern `p`, where bit 0 is the most significant.
pub open spec fn bit(p: nat, width: nat, i: nat) -> bool {
    (p / pow2((width - 1 - i) as nat)) % 2 == 1
}

/// The `width` bits of `p`, most significant first.
pub open spec fn bits(p: nat, width: nat) -> Seq<bool> {
    Seq::new(width, |i: int| bit(p, width, i as nat))
}

/// The number that a sequence of bits spells, most significant first.
pub open spec fn bits_value(b: Seq<bool>) -> nat
    decreases b.len(),
{
    if b.len() == 0 {
        0
    } else {
        2 * bits_value(b.drop_last()) + if b.last() {
            1nat
        } else {
            0nat
        }
    }
}

/// The `length`-bit field that starts at bit `offset` of the `width`-bit pattern `p`.
pub open spec fn field_value(p: nat, width: nat, offset: nat, length: nat) -> nat {
    (p / pow2((width - offset - length) as nat)) % pow2(length)
}

/// The bits of a byte sequence: the first byte first, each byte most significant bit first.
pub open spec fn buffer_bits(s: Seq<u8>) -> Seq<bool> {
    Seq::new(8 * s.len(), |i: int| bit(s[i / 8] as nat, 8, (i % 8) as nat))
}

/// `b` with the `field.len()` bits from `offset` on replaced by `field`.
pub open spec fn splice(b: Seq<bool>, offset: nat, field: Seq<bool>) -> Seq<bool> {
    b.subrange(0, offset as int) + field + b.subrange((offset + field.len()) as int, b.len() as int)
}

/// Number of binary digits of `n` (0 for 0): `floor(log2(n)) + 1` for `n > 0`.
pub open spec fn bit_length(n: nat) -> nat
    decreases n,
{
    if n == 0 {
        0
    } else {
        1 + bit_length(n / 2)
    }
}

/// Bits needed to write the unsigned `n`: 1 for 0, else `floor(log2(n)) + 1`.
pub open spec fn min_bits_unsigned(n: nat) -> nat {
    if n == 0 {
        1
    } else {
        bit_length(n)
    }
}

/// Bits needed to write the signed `v`: 1 for 0, else `ceil(log2(|v|)) + 1`.
pub open spec fn min_bits_signed(v: int) -> nat {
    if v == 0 {
        1
    } else {
        1 + bit_length((abs(v) - 1) as nat)
    }
}

/// Bits needed to write `v` as a value of the given signedness.
pub open spec fn min_bits(v: int, signed: bool) -> nat {
    if signed {
        min_bits_signed(v)
    } else {
        min_bits_unsigned(v as nat)
    }
}

/// The outcome of reading the `length` bits from `offset` on of `v`, a value of type `source`,
/// as a value of type `target`.
pub open spec fn scalar_extraction(
    source: IntType,
    target: IntType,
    v: int,
    offset: nat,
    length: nat,
) -> Result<int, BitError> {
    let w = source.width();
    if length == 0 {
        Err(BitError::LengthZero)
    } else if offset + length > w {
        Err(BitError::OutOfRange)
    } else if length > target.width() {
        Err(BitError::LengthTooBigForTargetType(target))
    } else {
        Ok(decode(field_value(pattern_of(v, w), w, offset, length), length, target.signed()))
    }
}

/// Why writing `v` into the `length` bits from `offset` on of a `container` fails, if it does.
pub open spec fn scalar_insertion_error(
    container: IntType,
    offset: nat,
    length: nat,
    v: int,
    signed: bool,
) -> Option<BitError> {
    let w = container.width();
    if length > w {
        Some(BitError::LengthTooBigForTargetType(container))
    } else if length == 0 {
        Some(BitError::LengthZero)
    } else if offset + length > w {
        Some(BitError::OutOfRange)
    } else if min_bits(v, signed) > length {
        Some(
            BitError::ValueTooWide {
                value: v as i128,
                signed,
                length: length as u32,
                required: min_bits(v, signed) as u32,
            },
        )
    } else {
        None
    }
}

/// The outcome of reading, as type `target`, the `length` bits of the byte sequence `s` that
/// start at bit `bit_offset` of byte `byte_offset` (a bit offset of 8 or more runs on into the
/// following bytes).
pub open spec fn buffer_extraction(
    s: Seq<u8>,
    target: IntType,
    byte_offset: nat,
    bit_offset: nat,
    length: nat,
) -> Result<int, BitError> {
    let start = 8 * byte_offset + bit_offset;
    if length == 0 {
        Err(BitError::LengthZero)
    } else if start + length > 8 * s.len() {
        Err(BitError::OutOfRange)
    } else if length > target.width() {
        Err(BitError::OutOfRange)
    } else {
        Ok(
            decode(
                bits_value(buffer_bits(s).subrange(start as int, (start + length) as int)),
                length,
                target.signed(),
            ),
        )
    }
}

/// Why writing `v`, a value of type `value_type`, into the `length` bits of a sequence of `n`
/// bytes that start at bit `bit_offset` of byte `byte_offset` fails, if it does.
pub open spec fn buffer_insertion_error(
    n: nat,
    byte_offset: nat,
    bit_offset: nat,
    length: nat,
    value_type: IntType,
    v: int,
) -> Option<BitError> {
    let start = 8 * byte_offset + bit_offset;
    let signed = value_type.signed();
    if length == 0 {
        Some(BitError::LengthZero)
    } else if start + length > 8 * n {
        Some(BitError::OutOfRange)
    } else if length > value_type.width() {
        Some(BitError::OutOfRange)
    } else if min_bits(v, signed) > length {
        Some(
            BitError::ValueTooWide {
                value: v as i128,
                signed,
                length: length as u32,
                required: min_bits(v, signed) as u32,
            },
        )
    } else {
        None
    }
}

} // verus!
