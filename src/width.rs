//! How many bits a value needs.
use crate::lemmas::lemma_pow2_le;
use crate::model::{bit_length, min_bits, min_bits_signed, min_bits_unsigned};
use vstd::arithmetic::power2::{lemma2_to64, lemma_pow2_unfold, pow2};
use vstd::math::abs;
use vstd::prelude::*;

verus! {

/// A positive `n` has `bit_length(n)` binary digits: `2^(bit_length(n) - 1) <= n < 2^bit_length(n)`.
pub proof fn lemma_bit_length_bounds(n: nat)
    ensures
        n < pow2(bit_length(n)),
        n > 0 ==> pow2((bit_length(n) - 1) as nat) <= n,
    decreases n,
{
    lemma2_to64();
    if n > 0 {
        lemma_bit_length_bounds(n / 2);
        lemma_pow2_unfold(bit_length(n));
        if n / 2 > 0 {
            lemma_pow2_unfold(bit_length(n / 2));
        }
    }
}

/// A number below `2^k` has at most `k` binary digits.
pub proof fn lemma_bit_length_at_most(n: nat, k: nat)
    requires
        n < pow2(k),
    ensures
        bit_length(n) <= k,
    decreases n,
{
    lemma2_to64();
    if n > 0 {
        lemma_pow2_unfold(k);
        lemma_bit_length_at_most(n / 2, (k - 1) as nat);
    }
}

/// The number of binary digits of `n`.
fn count_binary_digits(n: u64) -> (r: u32)
    ensures
        r == bit_length(n as nat),
        r <= 64,
{
    proof {
        lemma2_to64();
        lemma_bit_length_at_most(n as nat, 64);
    }
    let mut x: u64 = n;
    let mut count: u32 = 0;
    while x > 0
        invariant
            bit_length(n as nat) == count + bit_length(x as nat),
            bit_length(n as nat) <= 64,
        decreases x,
    {
        x = x / 2;
        count = count + 1;
    }
    count
}

/// How many bits does it take to write an unsigned integer?
///
/// 1 for 0, else `floor(log2(num)) + 1`: the least `r >= 1` with `num < 2^r`.
pub fn n_required_bits_for_an_unsigned_int(num: u64) -> (r: u32)
    ensures
        r == min_bits_unsigned(num as nat),
        1 <= r <= 64,
        num < pow2(r as nat),
        r == 1 || pow2((r - 1) as nat) <= num,
{
    proof {
        lemma2_to64();
        lemma_bit_length_bounds(num as nat);
    }
    if num == 0 {
        1
    } else {
        count_binary_digits(num)
    }
}

/// How many bits does it take to write a signed integer?
///
/// 1 for 0, else `ceil(log2(|num|)) + 1`: the least `r >= 1` with `|num| <= 2^(r - 1)`.
/// `i64::MIN` needs all 64 bits.
pub fn n_required_bits_for_a_signed_int(num: i64) -> (r: u32)
    ensures
        r == min_bits_signed(num as int),
        1 <= r <= 64,
        abs(num as int) <= pow2((r - 1) as nat),
        r == 1 || pow2((r - 2) as nat) < abs(num as int),
{
    proof {
        lemma2_to64();
    }
    if num == 0 {
        return 1;
    }
    // |num| - 1, which fits in 63 bits
    let below: u64 = if num < 0 {
        (-(num + 1)) as u64
    } else {
        (num - 1) as u64
    };
    proof {
        lemma_bit_length_bounds(below as nat);
        vstd::arithmetic::power2::lemma2_to64_rest();
        lemma_bit_length_at_most(below as nat, 63);
        if below > 0 {
            lemma_pow2_unfold(bit_length(below as nat));
        }
    }
    count_binary_digits(below) + 1
}


/// A value that needs at most `len` bits lies in the range that the count promises.
pub proof fn lemma_min_bits_range(v: int, signed: bool, len: nat)
    requires
        len >= 1,
        min_bits(v, signed) <= len,
        !signed ==> v >= 0,
    ensures
        signed ==> -pow2((len - 1) as nat) <= v <= pow2((len - 1) as nat),
        !signed ==> v < pow2(len),
{
    lemma2_to64();
    if signed {
        if v != 0 {
            let m = (abs(v) - 1) as nat;
            lemma_bit_length_bounds(m);
            lemma_pow2_le(bit_length(m), (len - 1) as nat);
        }
    } else {
        lemma_bit_length_bounds(v as nat);
        vstd::arithmetic::power2::lemma_pow2_pos(len);
        if v != 0 {
            lemma_pow2_le(bit_length(v as nat), len);
        }
    }
}

} // verus!
