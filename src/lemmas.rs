//! Facts about bit patterns, bit sequences and fields, shared by the proofs of the library.
use crate::model::{bit, bits, bits_value, decode, field_value, in_range, pattern_of};
use vstd::arithmetic::div_mod::*;
use vstd::arithmetic::power2::*;
use vstd::prelude::*;

verus! {

/// Reading a field with division and remainder gives the number that its bits spell.
pub proof fn lemma_field_bits(p: nat, w: nat, off: nat, len: nat)
    requires
        off + len <= w,
    ensures
        field_value(p, w, off, len) == bits_value(bits(p, w).subrange(off as int, (off + len) as int)),
    decreases len,
{
    let b = bits(p, w).subrange(off as int, (off + len) as int);
    let s = (w - off - len) as nat;
    lemma2_to64();
    lemma_pow2_pos(s);
    if len == 0 {
        assert(b.len() == 0);
    } else {
        lemma_field_bits(p, w, off, (len - 1) as nat);
        let q = p / pow2(s);
        lemma_pow2_unfold(len);
        lemma_pow2_pos((len - 1) as nat);
        lemma_pow2_adds(s, 1);
        lemma_div_denominator(p as int, pow2(s) as int, 2);
        lemma_mod_breakdown(q as int, 2, pow2((len - 1) as nat) as int);
        assert(b.drop_last() =~= bits(p, w).subrange(off as int, (off + len - 1) as int));
        assert(b.last() == bit(p, w, (off + len - 1) as nat));
        assert((w - 1 - (off + len - 1)) as nat == s);
        assert((w - off - (len - 1)) as nat == s + 1);
    }
}

/// The bits of a number below `2^n`, read back, give the number.
pub proof fn lemma_bits_round_trip(f: nat, n: nat)
    requires
        f < pow2(n),
    ensures
        bits_value(bits(f, n)) == f,
{
    lemma_field_bits(f, n, 0, n);
    lemma2_to64();
    lemma_small_mod(f, pow2(n));
    assert((n - 0 - n) as nat == 0);
    lemma_div_basics(f as int);
    assert(bits(f, n).subrange(0, n as int) =~= bits(f, n));
}

/// The bits of `a * 2^m + c` are those of `a` followed by those of `c`.
pub proof fn lemma_bits_concat(a: nat, n: nat, c: nat, m: nat)
    requires
        a < pow2(n),
        c < pow2(m),
    ensures
        bits(a * pow2(m) + c, n + m) =~= bits(a, n) + bits(c, m),
{
    let x = a * pow2(m) + c;
    lemma_pow2_pos(m);
    assert forall|j: int| 0 <= j < n + m implies bits(x, n + m)[j] == (bits(a, n) + bits(
        c,
        m,
    ))[j] by {
        if j < n {
            let t = (n - 1 - j) as nat;
            lemma_pow2_pos(t);
            lemma_pow2_adds(m, t);
            lemma_div_denominator(x as int, pow2(m) as int, pow2(t) as int);
            assert(x == pow2(m) * a + c) by (nonlinear_arith)
                requires
                    x == a * pow2(m) + c,
            ;
            lemma_div_multiples_vanish_fancy(a as int, c as int, pow2(m) as int);
            assert((n + m - 1 - j) as nat == m + t);
        } else {
            let jj = (j - n) as nat;
            let t = (m - 1 - jj) as nat;
            let d = pow2(t);
            lemma_pow2_pos(t);
            lemma_pow2_adds(jj + 1, t);
            lemma_pow2_unfold(jj + 1);
            assert(jj + 1 + t == m);
            lemma_fundamental_div_mod(c as int, d as int);
            let hi = a * pow2(jj + 1) + c / d;
            assert(x == hi * d + c % d) by (nonlinear_arith)
                requires
                    x == a * pow2(m) + c,
                    pow2(m) == pow2(jj + 1) * d,
                    c == d * (c / d) + c % d,
                    hi == a * pow2(jj + 1) + c / d,
            ;
            lemma_mod_pos_bound(c as int, d as int);
            lemma_fundamental_div_mod_converse(x as int, d as int, hi as int, (c % d) as int);
            assert(hi == 2 * (a * pow2(jj)) + c / d) by (nonlinear_arith)
                requires
                    hi == a * pow2(jj + 1) + c / d,
                    pow2(jj + 1) == 2 * pow2(jj),
            ;
            lemma_mod_multiples_vanish((a * pow2(jj)) as int, (c / d) as int, 2);
            assert((n + m - 1 - j) as nat == t);
        }
    }
}


/// The pattern of a value above `-2^w` and below `2^w`.
pub proof fn lemma_pattern_small(v: int, w: nat)
    requires
        -pow2(w) <= v < pow2(w),
    ensures
        pattern_of(v, w) == if v < 0 {
            v + pow2(w)
        } else {
            v
        },
{
    lemma_pow2_pos(w);
    if v >= 0 {
        lemma_small_mod(v as nat, pow2(w));
    } else {
        lemma_fundamental_div_mod_converse(v, pow2(w) as int, -1, v + pow2(w));
    }
}

/// A value in range for `w` bits lies between `-2^w` and `2^w`.
pub proof fn lemma_in_range_bounds(v: int, w: nat, signed: bool)
    requires
        w >= 1,
        in_range(v, w, signed),
    ensures
        -pow2(w) <= v < pow2(w),
{
    lemma_pow2_unfold(w);
    lemma_pow2_pos((w - 1) as nat);
}

/// A pattern read as a value is in range, and that value's pattern is the pattern.
pub proof fn lemma_decode_pattern(p: nat, w: nat, signed: bool)
    requires
        w >= 1,
        p < pow2(w),
    ensures
        in_range(decode(p, w, signed), w, signed),
        pattern_of(decode(p, w, signed), w) == p,
{
    lemma_pow2_unfold(w);
    lemma_pow2_pos((w - 1) as nat);
    let v = decode(p, w, signed);
    if v >= 0 {
        lemma_small_mod(v as nat, pow2(w));
    } else {
        lemma_fundamental_div_mod_converse(v, pow2(w) as int, -1, p as int);
    }
}

/// A value in range for `len` bits is in range for any wider type of the same signedness.
pub proof fn lemma_in_range_widen(v: int, len: nat, w: nat, signed: bool)
    requires
        1 <= len <= w,
        in_range(v, len, signed),
    ensures
        in_range(v, w, signed),
{
    if len < w {
        lemma_pow2_strictly_increases(len, w);
        lemma_pow2_strictly_increases((len - 1) as nat, (w - 1) as nat);
    }
}


/// Powers of two up to `2^64`.
pub proof fn lemma_pow2_at_most_64(n: nat)
    requires
        n <= 64,
    ensures
        0 < pow2(n) <= 0x1_0000_0000_0000_0000,
{
    lemma2_to64();
    lemma_pow2_pos(n);
    if n < 64 {
        lemma_pow2_strictly_increases(n, 64);
    }
}


/// Powers of two grow with the exponent.
pub proof fn lemma_pow2_le(a: nat, b: nat)
    requires
        a <= b,
    ensures
        pow2(a) <= pow2(b),
{
    if a < b {
        lemma_pow2_strictly_increases(a, b);
    }
}

/// A `len`-bit `f` placed `s` bits above the bottom of an `off + len + s`-bit pattern.
pub proof fn lemma_bits_placed(f: nat, off: nat, len: nat, s: nat)
    requires
        f < pow2(len),
    ensures
        f * pow2(s) < pow2(off + len + s),
        bits(f * pow2(s), off + len + s) =~= bits(0, off) + bits(f, len) + bits(0, s),
{
    lemma_pow2_pos(s);
    lemma_pow2_pos(off);
    lemma_pow2_adds(len, s);
    lemma_pow2_adds(off, len + s);
    lemma_pow2_pos(len + s);
    assert(f * pow2(s) < pow2(len) * pow2(s)) by (nonlinear_arith)
        requires
            f < pow2(len),
            pow2(s) > 0,
    ;
    assert(pow2(len + s) <= pow2(off) * pow2(len + s)) by (nonlinear_arith)
        requires
            pow2(off) > 0,
            pow2(len + s) > 0,
    ;
    lemma_bits_concat(f, len, 0, s);
    assert(f * pow2(s) + 0 == f * pow2(s));
    lemma_bits_concat(0, off, f * pow2(s), len + s);
    assert(0 * pow2(len + s) + f * pow2(s) == f * pow2(s));
    assert(off + (len + s) == off + len + s);
}


/// Reading back the pattern of an in-range value gives the value.
pub proof fn lemma_pattern_decode(v: int, w: nat, signed: bool)
    requires
        w >= 1,
        in_range(v, w, signed),
    ensures
        pattern_of(v, w) < pow2(w),
        decode(pattern_of(v, w), w, signed) == v,
{
    lemma_in_range_bounds(v, w, signed);
    lemma_pattern_small(v, w);
    lemma_pow2_unfold(w);
}

/// Two bytes with the same eight bits are the same byte.
pub proof fn lemma_byte_from_bits(a: u8, b: u8)
    requires
        bits(a as nat, 8) == bits(b as nat, 8),
    ensures
        a == b,
{
    lemma2_to64();
    lemma_bits_round_trip(a as nat, 8);
    lemma_bits_round_trip(b as nat, 8);
}

} // verus!
