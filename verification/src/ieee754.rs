//! Binary64 bit patterns computed with integers.
//!
//! Sample values travel as IEEE 754 binary64 numbers. This module computes
//! the bit pattern of the binary64 number nearest to a ratio of two integers,
//! ties to even, without leaving integer arithmetic.

use vstd::arithmetic::power2::*;
use vstd::prelude::*;

verus! {

/// The sign bit of a binary64 number.
pub const SIGN_BIT: u64 = 0x8000_0000_0000_0000;

/// The bit pattern of 1.0.
pub const ONE: u64 = 0x3FF0_0000_0000_0000;

/// `n / d` rounded to the nearest integer, ties to the even one.
pub open spec fn round_half_even(n: nat, d: nat) -> nat {
    let q = n / d;
    let r = n % d;
    if 2 * r > d || (2 * r == d && q % 2 == 1) {
        q + 1
    } else {
        q
    }
}

/// The bit pattern of the binary64 number nearest to `num / den`, ties to even.
/// The literals are 2^52, 2^53 and 1074 * 2^52.
///
/// Where the ratio lies in `[2^52, 2^53)` the significand is the ratio rounded
/// to an integer and the exponent field is 1075; a significand rounded up to
/// 2^53 carries into the exponent field by plain addition. Any other ratio is
/// first scaled by powers of two into that range: doubling the numerator
/// lowers the exponent field by one, doubling the denominator raises it by
/// one. Zero has the all-zero pattern.
pub open spec fn nearest_bits(num: nat, den: nat) -> int
    decreases
        (if num < 0x10_0000_0000_0000 * den {
            0x10_0000_0000_0000 * den - num
        } else if num >= 0x20_0000_0000_0000 * den {
            num - 0x20_0000_0000_0000 * den + 1
        } else {
            0
        }),
{
    if num == 0 || den == 0 {
        0
    } else if num < 0x10_0000_0000_0000 * den {
        nearest_bits(2 * num, den) - 0x10_0000_0000_0000
    } else if num >= 0x20_0000_0000_0000 * den {
        nearest_bits(num, 2 * den) + 0x10_0000_0000_0000
    } else {
        0x4320_0000_0000_0000 + round_half_even(num, den) as int
    }
}

/// The bit pattern of the binary64 number nearest to the integer `value`.
pub open spec fn nearest_bits_signed(value: int) -> int {
    if value >= 0 {
        nearest_bits(value as nat, 1)
    } else {
        SIGN_BIT + nearest_bits((-value) as nat, 1)
    }
}

/// The bit pattern of 1.0 for `true` and of 0.0 for `false`.
pub open spec fn flag_bits(flag: bool) -> u64 {
    if flag {
        ONE
    } else {
        0
    }
}

/// A quotient within the significand range, rounded, differs from the exact
/// ratio by at most half a unit in the last place; on a tie the result is
/// even.
pub proof fn lemma_round_half_even_error(n: nat, d: nat)
    requires
        d > 0,
    ensures
        -(d as int) <= 2 * (n - round_half_even(n, d) * d) <= d,
        2 * (n - round_half_even(n, d) * d) == d || 2 * (round_half_even(n, d) * d - n) == d
            ==> round_half_even(n, d) % 2 == 0,
{
    let q = n / d;
    let r = n % d;
    assert(n == q * d + r && 0 <= r < d) by (nonlinear_arith)
        requires
            d > 0,
            q == n / d,
            r == n % d,
    ;
    assert((q + 1) * d == q * d + d) by (nonlinear_arith);
    if 2 * r == d && q % 2 == 0 {
        assert(round_half_even(n, d) == q);
    }
}

/// A ratio in `[lo, hi)` has its integer quotient in `[lo, hi)`.
proof fn lemma_quotient_range(n: nat, d: nat, lo: nat, hi: nat)
    requires
        d > 0,
        lo * d <= n < hi * d,
    ensures
        lo <= n / d < hi,
        n == (n / d) * d + n % d,
        n % d < d,
{
    assert(lo <= n / d < hi && n == (n / d) * d + n % d && n % d < d) by (nonlinear_arith)
        requires
            d > 0,
            lo * d <= n < hi * d,
    ;
}

/// 2^(e + 20) is 2^e times 2^20.
proof fn lemma_pow2_plus_20(e: nat)
    ensures
        pow2(e + 20) == pow2(e) * 0x10_0000,
    decreases e,
{
    if e == 0 {
        lemma2_to64();
    } else {
        lemma_pow2_plus_20((e - 1) as nat);
        lemma_pow2_unfold(e);
        lemma_pow2_unfold(e + 20);
    }
}

/// 2^84 as a number.
proof fn lemma_pow2_84()
    ensures
        pow2(84) == 0x10_0000_0000_0000_0000_0000,
{
    lemma2_to64();
    lemma_pow2_plus_20(64);
}

/// An exponent whose power of two lies below 2^`bound` lies below `bound`.
proof fn lemma_pow2_below(e: nat, bound: nat)
    requires
        pow2(e) < pow2(bound),
    ensures
        e < bound,
{
    if e > bound {
        lemma_pow2_strictly_increases(bound, e);
    }
}

/// A ratio below 2^53 that reaches 2^52 after `k` doublings has a pattern of
/// at least `(1075 - k) * 2^52`.
proof fn lemma_bits_lower_small(num: nat, den: nat, k: nat)
    requires
        0 < den,
        0 < num < 0x20_0000_0000_0000 * den,
        num * pow2(k) >= 0x10_0000_0000_0000 * den,
    ensures
        nearest_bits(num, den) >= (1075 - k) * 0x10_0000_0000_0000,
    decreases k,
{
    if num >= 0x10_0000_0000_0000 * den {
        lemma_quotient_range(num, den, 0x10_0000_0000_0000, 0x20_0000_0000_0000);
    } else {
        lemma2_to64();
        if k == 0 {
            assert(num * pow2(0) == num) by (nonlinear_arith)
                requires
                    pow2(0) == 1,
            ;
        } else {
            lemma_pow2_unfold(k);
            assert((2 * num) * pow2((k - 1) as nat) == num * pow2(k)) by (nonlinear_arith)
                requires
                    pow2(k) == 2 * pow2((k - 1) as nat),
            ;
            lemma_bits_lower_small(2 * num, den, (k - 1) as nat);
        }
    }
}

/// A ratio below 2^53 has a pattern of at most `1076 * 2^52`.
proof fn lemma_bits_upper_small(num: nat, den: nat)
    requires
        0 < den,
        0 < num < 0x20_0000_0000_0000 * den,
    ensures
        nearest_bits(num, den) <= 1076 * 0x10_0000_0000_0000,
    decreases 0x20_0000_0000_0000 * den - num,
{
    if num >= 0x10_0000_0000_0000 * den {
        lemma_quotient_range(num, den, 0x10_0000_0000_0000, 0x20_0000_0000_0000);
    } else {
        lemma_bits_upper_small(2 * num, den);
    }
}

/// A ratio of at least 2^52 has a pattern of at least `1075 * 2^52`.
proof fn lemma_bits_lower_large(num: nat, den: nat)
    requires
        0 < den,
        num >= 0x10_0000_0000_0000 * den,
    ensures
        nearest_bits(num, den) >= 1075 * 0x10_0000_0000_0000,
    decreases num - 0x10_0000_0000_0000 * den,
{
    if num < 0x20_0000_0000_0000 * den {
        lemma_quotient_range(num, den, 0x10_0000_0000_0000, 0x20_0000_0000_0000);
    } else {
        lemma_bits_lower_large(num, 2 * den);
    }
}

/// A ratio of at least 2^52 that falls below 2^53 after `j` halvings has a
/// pattern of at most `(1076 + j) * 2^52`.
proof fn lemma_bits_upper_large(num: nat, den: nat, j: nat)
    requires
        0 < den,
        num >= 0x10_0000_0000_0000 * den,
        num < 0x20_0000_0000_0000 * (den * pow2(j)),
    ensures
        nearest_bits(num, den) <= (1076 + j) * 0x10_0000_0000_0000,
    decreases j,
{
    if num < 0x20_0000_0000_0000 * den {
        lemma_quotient_range(num, den, 0x10_0000_0000_0000, 0x20_0000_0000_0000);
    } else {
        lemma2_to64();
        if j == 0 {
            assert(den * pow2(0) == den) by (nonlinear_arith)
                requires
                    pow2(0) == 1,
            ;
        } else {
            lemma_pow2_unfold(j);
            assert((2 * den) * pow2((j - 1) as nat) == den * pow2(j)) by (nonlinear_arith)
                requires
                    pow2(j) == 2 * pow2((j - 1) as nat),
            ;
            lemma_bits_upper_large(num, 2 * den, (j - 1) as nat);
        }
    }
}

/// The pattern of a positive ratio of a 64-bit numerator and a 32-bit
/// denominator is that of a positive number: it is not zero, and its sign
/// bit is clear.
pub proof fn lemma_nearest_bits_positive(num: nat, den: nat)
    requires
        0 < num <= u64::MAX,
        0 < den <= u32::MAX,
    ensures
        0 < nearest_bits(num, den) < SIGN_BIT,
{
    lemma2_to64();
    if num < 0x20_0000_0000_0000 * den {
        lemma_pow2_84();
        assert(num * pow2(84) >= 0x10_0000_0000_0000 * den) by (nonlinear_arith)
            requires
                num >= 1,
                pow2(84) == 0x10_0000_0000_0000_0000_0000,
                den <= 0xFFFF_FFFF,
        ;
        lemma_bits_lower_small(num, den, 84);
        lemma_bits_upper_small(num, den);
    } else {
        assert(num < 0x20_0000_0000_0000 * (den * pow2(11))) by (nonlinear_arith)
            requires
                num <= 0xFFFF_FFFF_FFFF_FFFF,
                pow2(11) == 0x800,
                den >= 1,
        ;
        lemma_bits_lower_large(num, den);
        lemma_bits_upper_large(num, den, 11);
    }
}

/// The bit pattern of the binary64 number nearest to `num / den`, ties to
/// even. The result is never negative, and is zero only for a zero numerator.
pub fn nearest_double(num: u64, den: u32) -> (bits: u64)
    requires
        den > 0,
    ensures
        bits == nearest_bits(num as nat, den as nat),
        bits < SIGN_BIT,
        bits == 0 <==> num == 0,
{
    if num == 0 {
        return 0;
    }
    let mut n: u128 = num as u128;
    let mut d: u128 = den as u128;
    let mut exponent: u64 = 1074;
    let ghost mut up: nat = 0;
    proof {
        lemma2_to64();
    }
    while n < 0x10_0000_0000_0000 * d
        invariant
            d == den,
            0 < n < 0x20_0000_0000_0000_0000_0000,
            pow2(up) <= n,
            up <= 84,
            exponent == 1074 - up,
            num as u128 == n || n < 0x20_0000_0000_0000 * d,
            nearest_bits(num as nat, den as nat) == nearest_bits(n as nat, d as nat) + (exponent
                - 1074) * 0x10_0000_0000_0000,
        decreases
            (if n < 0x10_0000_0000_0000 * d {
                0x10_0000_0000_0000 * d - n
            } else {
                0
            }),
    {
        proof {
            lemma_pow2_84();
            lemma_pow2_below(up, 84);
            lemma_pow2_unfold(up + 1);
            up = up + 1;
        }
        n = 2 * n;
        exponent = exponent - 1;
    }
    let ghost mut down: nat = 0;
    while n >= 0x20_0000_0000_0000 * d
        invariant
            0 < d,
            0x10_0000_0000_0000 * d <= n < 0x20_0000_0000_0000_0000_0000,
            n >= 0x20_0000_0000_0000 * d ==> n == num,
            pow2(down) <= d,
            down <= 11,
            990 <= exponent <= 1074 + down,
            nearest_bits(num as nat, den as nat) == nearest_bits(n as nat, d as nat) + (exponent
                - 1074) * 0x10_0000_0000_0000,
        decreases
            (if n >= 0x20_0000_0000_0000 * d {
                n - 0x20_0000_0000_0000 * d + 1
            } else {
                0
            }),
    {
        proof {
            lemma2_to64();
            lemma_pow2_below(down, 11);
            lemma_pow2_unfold(down + 1);
            down = down + 1;
        }
        d = 2 * d;
        exponent = exponent + 1;
    }
    proof {
        lemma_quotient_range(n as nat, d as nat, 0x10_0000_0000_0000, 0x20_0000_0000_0000);
    }
    let q: u128 = n / d;
    let r: u128 = n % d;
    let significand: u128 = if 2 * r > d || (2 * r == d && q % 2 == 1) {
        q + 1
    } else {
        q
    };
    (exponent as u128 * 0x10_0000_0000_0000 + significand) as u64
}

/// The bit pattern of the binary64 number nearest to `value`.
pub fn nearest_double_signed(value: i64) -> (bits: u64)
    ensures
        bits == nearest_bits_signed(value as int),
        bits < SIGN_BIT <==> value >= 0,
{
    if value >= 0 {
        nearest_double(value as u64, 1)
    } else {
        let magnitude: u64 = if value == i64::MIN {
            SIGN_BIT
        } else {
            (-value) as u64
        };
        SIGN_BIT + nearest_double(magnitude, 1)
    }
}

/// The bit pattern of 1.0 for `true` and of 0.0 for `false`.
pub fn flag_double(flag: bool) -> (bits: u64)
    ensures
        bits == flag_bits(flag),
{
    if flag {
        ONE
    } else {
        0
    }
}

} // verus!
