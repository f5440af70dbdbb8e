//! Bit patterns of single-precision numbers that hold whole numbers.
//!
//! The GPU records store every real-valued field as the 32-bit pattern of a
//! single-precision number. A few of those fields hold integers (texture ids,
//! image sizes); this module computes their patterns exactly as a conversion
//! to single precision rounds them: to the nearest value with a 24-bit
//! significand, ties to even.
use vstd::arithmetic::power2::*;
use vstd::prelude::*;

verus! {

/// The index of the highest set bit of `n` (0 for `n` below 2).
pub open spec fn top_bit(n: nat) -> nat
    decreases n,
{
    if n < 2 {
        0
    } else {
        1 + top_bit(n / 2)
    }
}

/// `n` rounded to the nearest number whose significand fits in 24 bits, ties
/// to even: the value that single precision gives to `n`.
pub open spec fn round_to_single(n: nat) -> nat {
    let e = top_bit(n);
    if e <= 23 {
        n
    } else {
        let d = pow2((e - 23) as nat);
        let q = n / d;
        let r = n % d;
        let up = 2 * r > d || (2 * r == d && q % 2 == 1);
        (if up {
            q + 1
        } else {
            q
        }) * d
    }
}

/// `b` is the bit pattern of the non-negative single-precision number whose
/// value is the whole number `v`: sign bit clear, exponent field `ex`, fraction
/// field `fr`, and value `(2^23 + fr) * 2^(ex - 127) / 2^23 == v`.
pub open spec fn encodes_whole(b: u32, v: nat) -> bool {
    if v == 0 {
        b == 0
    } else {
        let ex = b / 0x80_0000;
        let fr = b % 0x80_0000;
        &&& b < 0x8000_0000
        &&& 127 <= ex <= 254
        &&& (0x80_0000 + fr) * pow2((ex - 127) as nat) == v * 0x80_0000
    }
}

proof fn lemma_top_bit_of_bounds(n: nat, e: nat)
    requires
        pow2(e) <= n < pow2(e + 1),
    ensures
        top_bit(n) == e,
    decreases e,
{
    lemma2_to64();
    lemma_pow2_unfold(e + 1);
    if e == 0 {
    } else {
        lemma_pow2_unfold(e);
        assert(pow2(e) == 2 * pow2((e - 1) as nat));
        assert(n >= 2);
        assert(pow2((e - 1) as nat) <= n / 2 < pow2(e)) by (nonlinear_arith)
            requires
                pow2(e) == 2 * pow2((e - 1) as nat),
                pow2(e + 1) == 2 * pow2(e),
                pow2(e) <= n < pow2(e + 1),
        ;
        lemma_top_bit_of_bounds(n / 2, (e - 1) as nat);
    }
}

/// Whole numbers below 2^24 are exact in single precision: the pattern stores the number
/// itself, so the shader reads back exactly the index or size that was written.
pub proof fn law_small_whole_numbers_exact(n: nat)
    requires
        n < 0x100_0000,
    ensures
        round_to_single(n) == n,
{
    if n >= 2 {
        lemma2_to64();
        lemma_top_bit_below(n, 24);
    }
}

proof fn lemma_top_bit_below(n: nat, e: nat)
    requires
        1 <= n < pow2(e),
    ensures
        top_bit(n) < e,
    decreases n,
{
    lemma_pow2_pos(e);
    if n >= 2 {
        if e == 0 {
            lemma2_to64();
        } else {
            lemma_pow2_unfold(e);
            lemma_top_bit_below(n / 2, (e - 1) as nat);
        }
    } else if e == 0 {
        lemma2_to64();
    }
}

/// A pattern stores one number: two whole numbers with the same pattern are equal.
pub proof fn law_pattern_value_unique(b: u32, v1: nat, v2: nat)
    requires
        encodes_whole(b, v1),
        encodes_whole(b, v2),
    ensures
        v1 == v2,
{
    if v1 != 0 && v2 != 0 {
        assert(v1 * 0x80_0000 == v2 * 0x80_0000);
        assert(v1 == v2) by (nonlinear_arith)
            requires
                v1 * 0x80_0000 == v2 * 0x80_0000,
        ;
    } else if v1 == 0 && v2 != 0 {
        assert(b / 0x80_0000 == 0);
    } else if v2 == 0 && v1 != 0 {
        assert(b / 0x80_0000 == 0);
    }
}

/// The 32-bit pattern of `n` converted to single precision.
pub fn single_bits(n: u32) -> (b: u32)
    ensures
        encodes_whole(b, round_to_single(n as nat)),
{
    if n == 0 {
        return 0;
    }
    let mut e: u32 = 0;
    let mut p: u64 = 1;
    proof {
        lemma2_to64();
    }
    while p * 2 <= n as u64
        invariant
            p == pow2(e as nat),
            1 <= p <= n,
            e <= 31,
            n <= u32::MAX,
        decreases n - p,
    {
        proof {
            lemma_pow2_unfold((e + 1) as nat);
            if e >= 31 {
                lemma2_to64();
            }
        }
        p = p * 2;
        e = e + 1;
    }
    proof {
        lemma_pow2_unfold((e + 1) as nat);
        lemma_top_bit_of_bounds(n as nat, e as nat);
        lemma2_to64();
    }
    if e <= 23 {
        let mult: u64 = 0x80_0000 / p;
        proof {
            lemma_pow2_adds(e as nat, (23 - e) as nat);
            assert(pow2(23) == 0x80_0000);
            assert(mult == pow2((23 - e) as nat)) by (nonlinear_arith)
                requires
                    mult == 0x80_0000u64 / p,
                    p * pow2((23 - e) as nat) == 0x80_0000,
                    p > 0,
            ;
            assert(n * mult < 0x100_0000 && n * mult >= 0x80_0000) by (nonlinear_arith)
                requires
                    p <= n < 2 * p,
                    p * mult == 0x80_0000,
            ;
        }
        let sig: u64 = n as u64 * mult;
        let b: u64 = (127 + e as u64) * 0x80_0000 + (sig - 0x80_0000);
        proof {
            let ex = b / 0x80_0000;
            let fr = b % 0x80_0000;
            assert(ex == 127 + e && fr == sig - 0x80_0000) by (nonlinear_arith)
                requires
                    b == (127 + e) * 0x80_0000 + (sig - 0x80_0000),
                    0x80_0000 <= sig < 0x100_0000,
                    ex == b / 0x80_0000,
                    fr == b % 0x80_0000,
            ;
            assert((0x80_0000 + fr) * pow2(e as nat) == n * 0x80_0000) by (nonlinear_arith)
                requires
                    0x80_0000 + fr == n * mult,
                    p == pow2(e as nat),
                    p * mult == 0x80_0000,
            ;
            assert(b < 0x8000_0000);
            assert((b as u32) / 0x80_0000 == ex && (b as u32) % 0x80_0000 == fr);
            assert(round_to_single(n as nat) == n);
            assert(encodes_whole(b as u32, n as nat));
        }
        b as u32
    } else {
        let d: u64 = p / 0x80_0000;
        proof {
            lemma_pow2_adds((e - 23) as nat, 23);
            assert(pow2(23) == 0x80_0000);
            assert(d == pow2((e - 23) as nat)) by (nonlinear_arith)
                requires
                    d == p / 0x80_0000,
                    p == pow2((e - 23) as nat) * 0x80_0000,
            ;
            lemma_pow2_pos((e - 23) as nat);
        }
        let q: u64 = n as u64 / d;
        let r: u64 = n as u64 % d;
        proof {
            assert(0x80_0000 <= q < 0x100_0000) by (nonlinear_arith)
                requires
                    q == (n as u64) / d,
                    p <= n < 2 * p,
                    p == d * 0x80_0000,
                    d > 0,
            ;
        }
        let up = 2 * r > d || (2 * r == d && q % 2 == 1);
        let m: u64 = if up { q + 1 } else { q };
        let ghost v: nat = (m * d) as nat;
        assert(v == round_to_single(n as nat));
        if m == 0x100_0000 {
            let b: u64 = (128 + e as u64) * 0x80_0000;
            proof {
                lemma_pow2_unfold((e + 1) as nat);
                assert(b / 0x80_0000 == 128 + e && b % 0x80_0000 == 0) by (nonlinear_arith)
                    requires
                        b == (128 + e) * 0x80_0000,
                ;
                assert(0x80_0000 * pow2((e + 1) as nat) == v * 0x80_0000) by (nonlinear_arith)
                    requires
                        pow2((e + 1) as nat) == 2 * p,
                        p == d * 0x80_0000,
                        v == m * d,
                        m == 0x100_0000,
                ;
                assert(b < 0x8000_0000);
                assert(encodes_whole(b as u32, v));
            }
            b as u32
        } else {
            let b: u64 = (127 + e as u64) * 0x80_0000 + (m - 0x80_0000);
            proof {
                assert(b / 0x80_0000 == 127 + e && b % 0x80_0000 == m - 0x80_0000)
                    by (nonlinear_arith)
                    requires
                        b == (127 + e) * 0x80_0000 + (m - 0x80_0000),
                        0x80_0000 <= m < 0x100_0000,
                ;
                assert(m * pow2(e as nat) == v * 0x80_0000) by (nonlinear_arith)
                    requires
                        p == pow2(e as nat),
                        p == d * 0x80_0000,
                        v == m * d,
                ;
                assert(b < 0x8000_0000);
                assert((b as u32) / 0x80_0000 == 127 + e);
                assert((b as u32) % 0x80_0000 == m - 0x80_0000);
                assert(v > 0) by (nonlinear_arith)
                    requires
                        v == m * d,
                        m >= 0x80_0000,
                        d > 0,
                ;
                assert(encodes_whole(b as u32, v));
            }
            b as u32
        }
    }
}

} // verus!
