//! Reading, setting and clearing one bit of a fixed-width integer.
use crate::ints::{bits_of, int_of_pattern, pattern_of_int, FixedWidthInt};
use crate::model::{bit, bits, BitError};
use vstd::arithmetic::div_mod::{lemma_basic_div, lemma_fundamental_div_mod};
use vstd::arithmetic::power2::{lemma2_to64, lemma_pow2_pos, pow2};
use vstd::bits::lemma_u64_shr_is_div;
use vstd::prelude::*;

verus! {

proof fn lemma_low_bit_is_parity(x: u64, t: u64)
    requires
        t < 64,
    ensures
        (((x >> t) & 1) == 1) == ((x as nat / pow2(t as nat)) % 2 == 1),
{
    lemma_u64_shr_is_div(x, t);
    let y = x >> t;
    assert(y & 1 == y % 2) by (bit_vector);
}

/// Bit `i` of a `width`-bit pattern is bit `width - 1 - i` counted from the least significant.
proof fn lemma_bit_is_shifted(p: u64, width: nat, i: nat)
    requires
        i < width <= 64,
    ensures
        bit(p as nat, width, i) == (((p >> ((width - 1 - i) as u64)) & 1) == 1),
{
    lemma_low_bit_is_parity(p, (width - 1 - i) as u64);
}

proof fn lemma_shifted_mask(a: u64, i: u64)
    requires
        i <= a < 64,
    ensures
        (1u64 << a) >> i == 1u64 << ((a - i) as u64),
{
    assert((1u64 << a) >> i == 1u64 << ((a - i) as u64)) by (bit_vector)
        requires
            i <= a < 64,
    ;
}

proof fn lemma_or_mask(p: u64, k: u64, t: u64)
    requires
        k < 64,
        t < 64,
    ensures
        ((p | (1u64 << k)) >> t) & 1 == if t == k {
            1u64
        } else {
            (p >> t) & 1
        },
{
    assert(((p | (1u64 << k)) >> t) & 1 == if t == k {
        1u64
    } else {
        (p >> t) & 1
    }) by (bit_vector)
        requires
            k < 64,
            t < 64,
    ;
}

proof fn lemma_and_not_mask(p: u64, k: u64, t: u64)
    requires
        k < 64,
        t < 64,
    ensures
        ((p & !(1u64 << k)) >> t) & 1 == if t == k {
            0u64
        } else {
            (p >> t) & 1
        },
        p & !(1u64 << k) <= p,
{
    assert(((p & !(1u64 << k)) >> t) & 1 == if t == k {
        0u64
    } else {
        (p >> t) & 1
    }) by (bit_vector)
        requires
            k < 64,
            t < 64,
    ;
    assert(p & !(1u64 << k) <= p) by (bit_vector);
}

proof fn lemma_and_mask(p: u64, k: u64)
    requires
        k < 64,
    ensures
        ((p & (1u64 << k)) != 0) == (((p >> k) & 1) == 1),
{
    assert(((p & (1u64 << k)) != 0) == (((p >> k) & 1) == 1)) by (bit_vector)
        requires
            k < 64,
    ;
}

/// Setting a bit below `2^w` stays below `2^w`.
proof fn lemma_or_mask_below(p: u64, k: u64, w: u64)
    requires
        k < w < 64,
        p < pow2(w as nat),
    ensures
        (p | (1u64 << k)) < pow2(w as nat),
{
    let r = p | (1u64 << k);
    lemma_pow2_pos(w as nat);
    lemma_u64_shr_is_div(p, w);
    lemma_basic_div(p as int, pow2(w as nat) as int);
    assert((r >> w) == 0) by (bit_vector)
        requires
            k < w < 64,
            p >> w == 0,
            r == p | (1u64 << k),
    ;
    lemma_u64_shr_is_div(r, w);
    lemma_fundamental_div_mod(r as int, pow2(w as nat) as int);
}

/// The mask of bit `i` of a `width`-bit pattern: the top bit shifted right by `i`.
fn bit_mask(width: u32, i: u32) -> (m: u64)
    requires
        i < width <= 64,
    ensures
        m == 1u64 << ((width - 1 - i) as u64),
{
    proof {
        lemma_shifted_mask((width - 1) as u64, i as u64);
    }
    (1u64 << ((width - 1) as u64)) >> (i as u64)
}

/// Bit `i` of the `width`-bit pattern `p`.
pub(crate) fn test_pattern_bit(p: u64, width: u32, i: u32) -> (r: bool)
    requires
        i < width <= 64,
    ensures
        r == bit(p as nat, width as nat, i as nat),
{
    let m = bit_mask(width, i);
    proof {
        lemma_and_mask(p, (width - 1 - i) as u64);
        lemma_bit_is_shifted(p, width as nat, i as nat);
    }
    p & m != 0
}

/// The `width`-bit pattern `p` with bit `i` set.
pub(crate) fn set_pattern_bit(p: u64, width: u32, i: u32) -> (r: u64)
    requires
        i < width <= 64,
        p < pow2(width as nat),
    ensures
        r < pow2(width as nat),
        bits(r as nat, width as nat) == bits(p as nat, width as nat).update(i as int, true),
{
    let m = bit_mask(width, i);
    let r = p | m;
    proof {
        let k = (width - 1 - i) as u64;
        assert forall|j: int| 0 <= j < width implies #[trigger] bit(r as nat, width as nat, j as nat)
            == bits(p as nat, width as nat).update(i as int, true)[j] by {
            let t = (width - 1 - j) as u64;
            lemma_or_mask(p, k, t);
            lemma_bit_is_shifted(r, width as nat, j as nat);
            lemma_bit_is_shifted(p, width as nat, j as nat);
        }
        assert(bits(r as nat, width as nat) =~= bits(p as nat, width as nat).update(i as int, true));
        if width < 64 {
            lemma_or_mask_below(p, k, width as u64);
        } else {
            lemma2_to64();
        }
    }
    r
}

/// The `width`-bit pattern `p` with bit `i` cleared.
pub(crate) fn clear_pattern_bit(p: u64, width: u32, i: u32) -> (r: u64)
    requires
        i < width <= 64,
        p < pow2(width as nat),
    ensures
        r < pow2(width as nat),
        bits(r as nat, width as nat) == bits(p as nat, width as nat).update(i as int, false),
{
    let m = bit_mask(width, i);
    let r = p & !m;
    proof {
        let k = (width - 1 - i) as u64;
        assert forall|j: int| 0 <= j < width implies #[trigger] bit(r as nat, width as nat, j as nat)
            == bits(p as nat, width as nat).update(i as int, false)[j] by {
            let t = (width - 1 - j) as u64;
            lemma_and_not_mask(p, k, t);
            lemma_bit_is_shifted(r, width as nat, j as nat);
            lemma_bit_is_shifted(p, width as nat, j as nat);
        }
        assert(bits(r as nat, width as nat) =~= bits(p as nat, width as nat).update(i as int, false));
        lemma_and_not_mask(p, k, 0);
    }
    r
}

/// Single-bit access to an integer; bit offset 0 is the most significant bit.
pub trait SingleBits: FixedWidthInt {
    /// Returns a copy with the bit at `bit_offset` set.
    fn set_bit(self, bit_offset: u32) -> (r: Result<Self, BitError>)
        ensures
            match r {
                Ok(x) => bit_offset < Self::int_type().width() && bits_of(x) == bits_of(
                    self,
                ).update(bit_offset as int, true),
                Err(e) => bit_offset >= Self::int_type().width() && e == BitError::OutOfRange,
            },
    {
        let width = Self::int_type_of().bits();
        if bit_offset >= width {
            return Err(BitError::OutOfRange);
        }
        let p = set_pattern_bit(pattern_of_int(self), width, bit_offset);
        Ok(int_of_pattern(p))
    }

    /// Returns whether the bit at `bit_offset` is set.
    fn get_bit(self, bit_offset: u32) -> (r: Result<bool, BitError>)
        ensures
            match r {
                Ok(b) => bit_offset < Self::int_type().width() && b == bits_of(self)[bit_offset as int],
                Err(e) => bit_offset >= Self::int_type().width() && e == BitError::OutOfRange,
            },
    {
        let width = Self::int_type_of().bits();
        if bit_offset >= width {
            return Err(BitError::OutOfRange);
        }
        Ok(test_pattern_bit(pattern_of_int(self), width, bit_offset))
    }

    /// Returns a copy with the bit at `bit_offset` cleared.
    fn clear_bit(self, bit_offset: u32) -> (r: Result<Self, BitError>)
        ensures
            match r {
                Ok(x) => bit_offset < Self::int_type().width() && bits_of(x) == bits_of(
                    self,
                ).update(bit_offset as int, false),
                Err(e) => bit_offset >= Self::int_type().width() && e == BitError::OutOfRange,
            },
    {
        let width = Self::int_type_of().bits();
        if bit_offset >= width {
            return Err(BitError::OutOfRange);
        }
        let p = clear_pattern_bit(pattern_of_int(self), width, bit_offset);
        Ok(int_of_pattern(p))
    }
}

impl SingleBits for u8 {}
impl SingleBits for u16 {}
impl SingleBits for u32 {}
impl SingleBits for u64 {}
impl SingleBits for i8 {}
impl SingleBits for i16 {}
impl SingleBits for i32 {}
impl SingleBits for i64 {}

} // verus!
