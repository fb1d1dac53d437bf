//! IEEE 754 values as bit patterns: classification, conversion between the widths, and
//! conversion to and from integers.
//!
//! A `binary64` value is a `u64`, a `binary32` value a `u32`, a `binary16` value a `u16`.

use vstd::arithmetic::div_mod::*;
use vstd::arithmetic::power2::*;
use vstd::bits::*;
use vstd::prelude::*;

verus! {

/// `binary64` zero.
pub const ZERO: u64 = 0;

/// `binary64` one.
pub const ONE: u64 = 0x3FF0_0000_0000_0000;

/// `binary32` one.
pub const ONE_SINGLE: u32 = 0x3F80_0000;

/// `2^52`, the weight of the hidden bit of a `binary64` significand.
pub const HIDDEN: u64 = 0x10_0000_0000_0000;

/// `2^63`, the weight of the sign bit of a `binary64` value.
pub const SIGN: u64 = 0x8000_0000_0000_0000;

/// Whether the sign bit is set.
pub open spec fn negative(b: u64) -> bool {
    b >= SIGN
}

/// The biased exponent.
pub open spec fn exponent(b: u64) -> int {
    (b as int / HIDDEN as int) % 2048
}

/// The stored part of the significand.
pub open spec fn fraction(b: u64) -> int {
    b as int % HIDDEN as int
}

/// Whether the value is neither an infinity nor a NaN.
pub open spec fn finite(b: u64) -> bool {
    exponent(b) != 2047
}

/// Whether the value is a NaN.
pub open spec fn nan(b: u64) -> bool {
    exponent(b) == 2047 && fraction(b) != 0
}

/// Whether the value is a zero of either sign.
pub open spec fn zero(b: u64) -> bool {
    b as int % SIGN as int == 0
}

/// The significand with its hidden bit. A finite value is, but for its sign,
/// `significand(b) * 2^(scale(b) - 1075)`.
pub open spec fn significand(b: u64) -> int {
    if exponent(b) == 0 {
        fraction(b)
    } else {
        fraction(b) + HIDDEN as int
    }
}

/// The exponent that goes with [`significand`].
pub open spec fn scale(b: u64) -> int {
    if exponent(b) == 0 {
        1
    } else {
        exponent(b)
    }
}

/// The integer part of a finite value's magnitude.
pub open spec fn whole_magnitude(b: u64) -> int {
    if scale(b) >= 1075 {
        significand(b) * pow2((scale(b) - 1075) as nat)
    } else {
        significand(b) / pow2((1075 - scale(b)) as nat) as int
    }
}

/// The integer part of a finite value, rounded toward zero.
pub open spec fn truncated(b: u64) -> int {
    if negative(b) {
        -whole_magnitude(b)
    } else {
        whole_magnitude(b)
    }
}

/// Whether the value is finite and has no fractional part.
pub open spec fn integral(b: u64) -> bool {
    finite(b) && (scale(b) >= 1075 || significand(b) % pow2((1075 - scale(b)) as nat) as int == 0)
}

/// Whether a finite value is greater than the integer `k`.
pub open spec fn above(b: u64, k: int) -> bool {
    truncated(b) > k || (truncated(b) == k && !integral(b) && !negative(b))
}

/// Whether a finite value is less than the integer `k`.
pub open spec fn below(b: u64, k: int) -> bool {
    truncated(b) < k || (truncated(b) == k && !integral(b) && negative(b))
}

/// The integer in `low..=high` that is nearest to `i`.
pub open spec fn clamp(i: int, low: int, high: int) -> int {
    if i < low {
        low
    } else if i > high {
        high
    } else {
        i
    }
}

/// The value rounded toward zero to an integer in `low..=high`: a NaN gives zero, and a value
/// beyond either end gives that end.
pub open spec fn saturated(b: u64, low: int, high: int) -> int {
    if nan(b) {
        0
    } else if !finite(b) {
        if negative(b) {
            low
        } else {
            high
        }
    } else {
        clamp(truncated(b), low, high)
    }
}

/// The value rounded toward zero to an `i64`, saturating.
pub open spec fn to_i64(b: u64) -> i64 {
    saturated(b, i64::MIN as int, i64::MAX as int) as i64
}

/// `n / d` rounded to the nearest integer, and to the even one of two equally near.
pub open spec fn round_div(n: int, d: int) -> int {
    if 2 * (n % d) > d || (2 * (n % d) == d && (n / d) % 2 == 1) {
        n / d + 1
    } else {
        n / d
    }
}

/// The bits, without the sign, of the `binary32` value nearest to a finite `binary64` value.
pub open spec fn narrow_magnitude(b: u64) -> int {
    let rounded = if exponent(b) >= 897 {
        (exponent(b) - 897) * 0x80_0000 + round_div(significand(b), 0x2000_0000)
    } else {
        round_div(significand(b), pow2((926 - scale(b)) as nat) as int)
    };
    if rounded > 0x7F80_0000 {
        0x7F80_0000
    } else {
        rounded
    }
}

/// The `binary32` value nearest to a `binary64` value, to the even one of two equally near.
/// A value too large gives an infinity, and a NaN a quiet NaN with the top of its payload.
pub open spec fn narrow(b: u64) -> u32 {
    let sign: int = if negative(b) {
        0x8000_0000
    } else {
        0
    };
    if nan(b) {
        (sign + 0x7FC0_0000 + (fraction(b) / 0x2000_0000) % 0x40_0000) as u32
    } else if !finite(b) {
        (sign + 0x7F80_0000) as u32
    } else {
        (sign + narrow_magnitude(b)) as u32
    }
}

/// Whether a `binary32` value is neither an infinity nor a NaN.
pub open spec fn finite_single(b: u32) -> bool {
    (b as int / 0x80_0000) % 256 != 255
}

/// The greatest `k` with `2^k <= n`, for a positive `n`.
pub open spec fn log2(n: int) -> int
    decreases n,
{
    if n < 2 {
        0
    } else {
        log2(n / 2) + 1
    }
}

/// The `binary64` encoding, without the sign, of the integer `n > 0` times `2^(e - 1075)`, for an `n` of at
/// most 53 bits whose value is in the normal range.
pub open spec fn normalized(n: int, e: int) -> int {
    (log2(n) + e - 53) * HIDDEN as int + n * pow2((52 - log2(n)) as nat)
}

/// The `binary64` value equal to a `binary32` value. A NaN gives a quiet NaN with its payload.
pub open spec fn widen(b: u32) -> u64 {
    let sign: int = if b >= 0x8000_0000 {
        SIGN as int
    } else {
        0
    };
    let e = (b as int / 0x80_0000) % 256;
    let f = b as int % 0x80_0000;
    if e == 255 {
        if f == 0 {
            (sign + 0x7FF0_0000_0000_0000) as u64
        } else {
            (sign + 0x7FF8_0000_0000_0000 + (f % 0x40_0000) * 0x2000_0000) as u64
        }
    } else if e == 0 {
        if f == 0 {
            sign as u64
        } else {
            (sign + normalized(f, 926)) as u64
        }
    } else {
        (sign + (e + 896) * HIDDEN as int + f * 0x2000_0000) as u64
    }
}

/// The `binary64` value nearest to the integer `i`, to the even one of two equally near.
pub open spec fn from_int(i: int) -> u64 {
    let n = if i < 0 {
        -i
    } else {
        i
    };
    let sign: int = if i < 0 {
        SIGN as int
    } else {
        0
    };
    if n == 0 {
        0
    } else if log2(n) <= 52 {
        (sign + normalized(n, 1075)) as u64
    } else {
        (sign + (log2(n) + 1022) * HIDDEN as int + round_div(n, pow2((log2(n) - 52) as nat) as int)) as u64
    }
}

/// The `binary64` value equal to a `binary16` value. A NaN gives a quiet NaN with its payload.
pub open spec fn widen_half(b: u16) -> u64 {
    let sign: int = if b >= 0x8000 {
        SIGN as int
    } else {
        0
    };
    let e = (b as int / 0x400) % 32;
    let f = b as int % 0x400;
    if e == 31 {
        if f == 0 {
            (sign + 0x7FF0_0000_0000_0000) as u64
        } else {
            (sign + 0x7FF8_0000_0000_0000 + (f % 0x200) * 0x400_0000_0000) as u64
        }
    } else if e == 0 {
        if f == 0 {
            sign as u64
        } else {
            (sign + normalized(f, 1051)) as u64
        }
    } else {
        (sign + (e + 1008) * HIDDEN as int + f * 0x400_0000_0000) as u64
    }
}

/// The bits, without the sign, of the `binary16` value nearest to a finite `binary32` value.
pub open spec fn narrow_half_magnitude(b: u32) -> int {
    let e = (b as int / 0x80_0000) % 256;
    let f = b as int % 0x80_0000;
    let rounded = if e >= 113 {
        (e - 113) * 0x400 + round_div(f + 0x80_0000, 0x2000)
    } else if e > 0 {
        round_div(f + 0x80_0000, pow2((126 - e) as nat) as int)
    } else {
        0
    };
    if rounded > 0x7C00 {
        0x7C00
    } else {
        rounded
    }
}

/// The `binary16` value nearest to a `binary32` value, to the even one of two equally near.
/// A value too large gives an infinity, and a NaN a quiet NaN with the top of its payload.
pub open spec fn narrow_half(b: u32) -> u16 {
    let sign: int = if b >= 0x8000_0000 {
        0x8000
    } else {
        0
    };
    let e = (b as int / 0x80_0000) % 256;
    let f = b as int % 0x80_0000;
    if e == 255 {
        if f == 0 {
            (sign + 0x7C00) as u16
        } else {
            (sign + 0x7E00 + (f / 0x2000) % 0x200) as u16
        }
    } else {
        (sign + narrow_half_magnitude(b)) as u16
    }
}

/// Whether a `binary16` value is neither an infinity nor a NaN.
pub open spec fn finite_half(b: u16) -> bool {
    (b as int / 0x400) % 32 != 31
}

/// `2^s`.
fn power(s: u64) -> (r: u64)
    requires
        s < 64,
    ensures
        r == pow2(s as nat),
        r > 0,
{
    proof {
        lemma_u64_pow2_no_overflow(s as nat);
        lemma_u64_shl_is_mul(1, s);
        lemma_pow2_pos(s as nat);
    }
    1u64 << s
}

/// `log2(n)` is the position of the leading one of `n`.
proof fn lemma_log2(n: int)
    requires
        n > 0,
    ensures
        log2(n) >= 0,
        pow2(log2(n) as nat) <= n < 2 * pow2(log2(n) as nat),
    decreases n,
{
    lemma2_to64();
    if n >= 2 {
        lemma_log2(n / 2);
        lemma_pow2_unfold((log2(n / 2) + 1) as nat);
    }
}

/// Powers of two are ordered as their exponents.
proof fn lemma_pow2_mono(a: nat, b: nat)
    requires
        a <= b,
    ensures
        pow2(a) <= pow2(b),
{
    if a < b {
        lemma_pow2_strictly_increases(a, b);
    }
}

/// A bound on a number bounds its leading position.
proof fn lemma_log2_below(n: int, k: nat)
    requires
        0 < n < pow2(k),
    ensures
        0 <= log2(n) < k,
{
    lemma_log2(n);
    if log2(n) >= k {
        lemma_pow2_mono(k, log2(n) as nat);
    }
}

/// The position of the leading one.
fn leading(n: u64) -> (r: u64)
    requires
        n > 0,
    ensures
        r == log2(n as int),
        r < 64,
    decreases n,
{
    proof {
        lemma2_to64_rest();
        lemma_log2_below(n as int, 64);
    }
    if n < 2 {
        0
    } else {
        leading(n / 2) + 1
    }
}

/// `m` divided by `2^s`, rounded to the nearest integer, ties to even.
fn round_shift(m: u64, s: u64) -> (r: u64)
    requires
        m < 0x8000_0000_0000_0000,
    ensures
        r == round_div(m as int, pow2(s as nat) as int),
        r <= m,
{
    proof {
        lemma2_to64_rest();
        lemma_pow2_pos(s as nat);
    }
    if s >= 64 {
        proof {
            lemma_pow2_mono(64, s as nat);
            lemma_small_mod(m as nat, pow2(s as nat));
            lemma_basic_div(m as int, pow2(s as nat) as int);
        }
        0
    } else {
        let d = power(s);
        let q = m / d;
        let rest = m % d;
        proof {
            lemma_fundamental_div_mod(m as int, d as int);
            assert(q <= m) by (nonlinear_arith)
                requires
                    m as int == d as int * q as int + rest as int,
                    d >= 1,
                    rest >= 0,
                    q >= 0,
            ;
        }
        if rest > d - rest || (rest == d - rest && q % 2 == 1) {
            proof {
                assert(q + 1 <= m) by (nonlinear_arith)
                    requires
                        m as int == d as int * q as int + rest as int,
                        d >= 1,
                        rest >= 1,
                        q >= 0,
                ;
            }
            q + 1
        } else {
            q
        }
    }
}

/// Whether the value is a NaN.
pub fn is_nan(b: u64) -> (r: bool)
    ensures
        r == nan(b),
{
    (b / HIDDEN) % 2048 == 2047 && b % HIDDEN != 0
}

/// Whether the value is neither an infinity nor a NaN.
pub fn is_finite(b: u64) -> (r: bool)
    ensures
        r == finite(b),
{
    (b / HIDDEN) % 2048 != 2047
}

/// Whether the value is a zero of either sign.
pub fn is_zero(b: u64) -> (r: bool)
    ensures
        r == zero(b),
{
    b % SIGN == 0
}

/// Whether a `binary32` value is neither an infinity nor a NaN.
pub fn is_finite_single(b: u32) -> (r: bool)
    ensures
        r == finite_single(b),
{
    (b / 0x80_0000) % 256 != 255
}

/// Whether a `binary16` value is neither an infinity nor a NaN.
pub fn is_finite_half(b: u16) -> (r: bool)
    ensures
        r == finite_half(b),
{
    (b / 0x400) % 32 != 31
}

/// The significand and its exponent.
fn parts(b: u64) -> (r: (u64, u64))
    ensures
        r.0 == significand(b),
        r.1 == scale(b),
        r.0 < 0x20_0000_0000_0000,
        1 <= r.1 <= 2047,
        r.1 > 1 ==> r.0 >= HIDDEN,
{
    let e: u64 = (b / HIDDEN) % 2048;
    let f: u64 = b % HIDDEN;
    if e == 0 {
        (f, 1)
    } else {
        (f + HIDDEN, e)
    }
}

/// The integer part of a finite value's magnitude, capped at `2^63`, and whether a part of it is
/// lost.
fn whole_part(b: u64) -> (r: (u64, bool))
    requires
        finite(b),
    ensures
        r.0 == clamp(whole_magnitude(b), 0, 0x8000_0000_0000_0000),
        r.1 == !integral(b),
        whole_magnitude(b) >= 0,
{
    let (m, e) = parts(b);
    proof {
        lemma2_to64();
        lemma2_to64_rest();
    }
    if e >= 1075 {
        let s = e - 1075;
        proof {
            lemma_pow2_pos(s as nat);
        }
        if s > 10 {
            proof {
                lemma_pow2_mono(11, s as nat);
                assert(m * pow2(s as nat) >= 0x8000_0000_0000_0000) by (nonlinear_arith)
                    requires
                        m >= 0x10_0000_0000_0000,
                        pow2(s as nat) >= 2048,
                ;
            }
            (0x8000_0000_0000_0000, false)
        } else {
            let d = power(s);
            proof {
                lemma_pow2_mono(s as nat, 10);
                assert(0 <= m * d <= 0x20_0000_0000_0000 * 1024) by (nonlinear_arith)
                    requires
                        0 <= m <= 0x20_0000_0000_0000,
                        0 <= d <= 1024,
                ;
            }
            (m * d, false)
        }
    } else {
        let s = 1075 - e;
        proof {
            lemma_pow2_pos(s as nat);
        }
        if s >= 64 {
            proof {
                lemma_pow2_mono(64, s as nat);
                lemma_small_mod(m as nat, pow2(s as nat));
                lemma_basic_div(m as int, pow2(s as nat) as int);
            }
            (0, m != 0)
        } else {
            let d = power(s);
            proof {
                lemma_div_pos_is_pos(m as int, d as int);
                lemma_div_is_ordered_by_denominator(m as int, 1, d as int);
            }
            (m / d, m % d != 0)
        }
    }
}

/// Whether the value is finite and has no fractional part.
pub fn is_integral(b: u64) -> (r: bool)
    ensures
        r == integral(b),
{
    is_finite(b) && !whole_part(b).1
}

/// Whether a finite value is greater than `k`.
pub fn is_above(b: u64, k: i64) -> (r: bool)
    requires
        finite(b),
        -0x8000_0000_0000_0000 < k < 0x7FFF_FFFF_FFFF_FFFF,
    ensures
        r == above(b, k as int),
{
    let (n, lost) = whole_part(b);
    if b >= SIGN {
        if k >= 0 {
            false
        } else {
            n < (-k) as u64
        }
    } else {
        if k < 0 {
            true
        } else {
            n > k as u64 || (n == k as u64 && lost)
        }
    }
}

/// Whether a finite value is less than `k`.
pub fn is_below(b: u64, k: i64) -> (r: bool)
    requires
        finite(b),
        -0x8000_0000_0000_0000 < k < 0x7FFF_FFFF_FFFF_FFFF,
    ensures
        r == below(b, k as int),
{
    let (n, lost) = whole_part(b);
    if b >= SIGN {
        if k > 0 {
            true
        } else {
            n > (-k) as u64 || (n == (-k) as u64 && lost)
        }
    } else {
        if k <= 0 {
            false
        } else {
            n < k as u64
        }
    }
}

/// Whether a finite value is greater than `2^63`.
pub fn is_above_i64(b: u64) -> (r: bool)
    requires
        finite(b),
    ensures
        r == above(b, 0x8000_0000_0000_0000),
{
    let (m, e) = parts(b);
    proof {
        lemma_beyond(b);
    }
    b < SIGN && (e > 1086 || (e == 1086 && m > HIDDEN))
}

/// Whether a finite value is less than `-2^63`.
pub fn is_below_i64(b: u64) -> (r: bool)
    requires
        finite(b),
    ensures
        r == below(b, -0x8000_0000_0000_0000),
{
    let (m, e) = parts(b);
    proof {
        lemma_beyond(b);
    }
    b >= SIGN && (e > 1086 || (e == 1086 && m > HIDDEN))
}

/// When a finite value's magnitude exceeds `2^63`.
proof fn lemma_beyond(b: u64)
    requires
        finite(b),
    ensures
        (whole_magnitude(b) > 0x8000_0000_0000_0000 || (whole_magnitude(b) == 0x8000_0000_0000_0000
            && !integral(b))) == (scale(b) > 1086 || (scale(b) == 1086 && significand(b)
            > HIDDEN)),
        whole_magnitude(b) >= 0,
{
    let m = significand(b);
    let e = scale(b);
    lemma2_to64();
    lemma2_to64_rest();
    if e >= 1075 {
        let s = (e - 1075) as nat;
        lemma_pow2_pos(s);
        assert(m * pow2(s) >= 0) by (nonlinear_arith)
            requires
                m >= 0,
                pow2(s) > 0,
        ;
        if e > 1086 {
            lemma_pow2_mono(12, s);
            assert(m * pow2(s) > 0x8000_0000_0000_0000) by (nonlinear_arith)
                requires
                    m >= 0x10_0000_0000_0000,
                    pow2(s) >= 4096,
            ;
        } else if e == 1086 {
            assert(pow2(s) == 2048);
        } else {
            lemma_pow2_mono(s, 10);
            assert(m * pow2(s) < 0x8000_0000_0000_0000) by (nonlinear_arith)
                requires
                    0 <= m < 0x20_0000_0000_0000,
                    0 < pow2(s) <= 1024,
            ;
        }
    } else {
        let s = (1075 - e) as nat;
        lemma_pow2_pos(s);
        lemma_div_pos_is_pos(m, pow2(s) as int);
        lemma_div_is_ordered_by_denominator(m, 1, pow2(s) as int);
    }
}

/// Rounds toward zero to an `i64`, saturating.
pub fn as_i64(b: u64) -> (r: i64)
    ensures
        r == to_i64(b),
{
    if !is_finite(b) {
        if b % HIDDEN != 0 {
            0
        } else if b >= SIGN {
            i64::MIN
        } else {
            i64::MAX
        }
    } else {
        let (n, _) = whole_part(b);
        if b >= SIGN {
            if n >= 0x8000_0000_0000_0000 {
                i64::MIN
            } else {
                -(n as i64)
            }
        } else {
            if n >= 0x8000_0000_0000_0000 {
                i64::MAX
            } else {
                n as i64
            }
        }
    }
}

/// The nearest `binary32` value.
pub fn to_single(b: u64) -> (r: u32)
    ensures
        r == narrow(b),
{
    let sign: u32 = if b >= SIGN {
        0x8000_0000
    } else {
        0
    };
    if !is_finite(b) {
        if b % HIDDEN != 0 {
            sign + 0x7FC0_0000 + (((b % HIDDEN) / 0x2000_0000) % 0x40_0000) as u32
        } else {
            sign + 0x7F80_0000
        }
    } else {
        let (m, e) = parts(b);
        proof {
            lemma2_to64();
        }
        let rounded: u64 = if e >= 897 {
            let r = round_shift(m, 29);
            proof {
                assert(r <= 0x100_0000) by {
                    assert(m as int / 0x2000_0000 <= 0xFF_FFFF);
                }
            }
            (e - 897) * 0x80_0000 + r
        } else {
            round_shift(m, 926 - e)
        };
        if rounded > 0x7F80_0000 {
            sign + 0x7F80_0000
        } else {
            sign + rounded as u32
        }
    }
}

/// The encoding of `n * 2^(e - 1075)`.
fn normalize(n: u64, e: u64) -> (r: u64)
    requires
        0 < n < 0x20_0000_0000_0000,
        926 <= e <= 1075,
    ensures
        r == normalized(n as int, e as int),
        r < 0x7FF0_0000_0000_0000,
{
    let k = leading(n);
    proof {
        lemma2_to64();
        lemma2_to64_rest();
        lemma_log2_below(n as int, 53);
        lemma_log2(n as int);
        lemma_pow2_adds(k as nat, (52 - k) as nat);
    }
    let d = power(52 - k);
    proof {
        assert(n * d < 0x20_0000_0000_0000) by (nonlinear_arith)
            requires
                n < 2 * pow2(k as nat),
                pow2(k as nat) * d == 0x10_0000_0000_0000,
                d > 0,
        ;
        assert(n * d >= 0) by (nonlinear_arith)
            requires
                n >= 0,
                d >= 0,
        ;
    }
    (k + e - 53) * HIDDEN + n * d
}

/// The `binary64` value equal to a `binary32` value.
pub fn from_single(b: u32) -> (r: u64)
    ensures
        r == widen(b),
{
    let sign: u64 = if b >= 0x8000_0000 {
        SIGN
    } else {
        0
    };
    let e: u64 = ((b / 0x80_0000) % 256) as u64;
    let f: u64 = (b % 0x80_0000) as u64;
    if e == 255 {
        if f == 0 {
            sign + 0x7FF0_0000_0000_0000
        } else {
            sign + 0x7FF8_0000_0000_0000 + (f % 0x40_0000) * 0x2000_0000
        }
    } else if e == 0 {
        if f == 0 {
            sign
        } else {
            sign + normalize(f, 926)
        }
    } else {
        sign + (e + 896) * HIDDEN + f * 0x2000_0000
    }
}

/// The `binary64` value equal to a `binary16` value.
pub fn from_half(b: u16) -> (r: u64)
    ensures
        r == widen_half(b),
{
    let sign: u64 = if b >= 0x8000 {
        SIGN
    } else {
        0
    };
    let e: u64 = ((b / 0x400) % 32) as u64;
    let f: u64 = (b % 0x400) as u64;
    if e == 31 {
        if f == 0 {
            sign + 0x7FF0_0000_0000_0000
        } else {
            sign + 0x7FF8_0000_0000_0000 + (f % 0x200) * 0x400_0000_0000
        }
    } else if e == 0 {
        if f == 0 {
            sign
        } else {
            sign + normalize(f, 1051)
        }
    } else {
        sign + (e + 1008) * HIDDEN + f * 0x400_0000_0000
    }
}

/// The `binary16` value nearest to a `binary32` value.
pub fn to_half(b: u32) -> (r: u16)
    ensures
        r == narrow_half(b),
{
    let sign: u16 = if b >= 0x8000_0000 {
        0x8000
    } else {
        0
    };
    let e: u64 = ((b / 0x80_0000) % 256) as u64;
    let f: u64 = (b % 0x80_0000) as u64;
    if e == 255 {
        if f == 0 {
            sign + 0x7C00
        } else {
            sign + 0x7E00 + ((f / 0x2000) % 0x200) as u16
        }
    } else {
        proof {
            lemma2_to64();
        }
        let rounded: u64 = if e >= 113 {
            (e - 113) * 0x400 + round_shift(f + 0x80_0000, 13)
        } else if e > 0 {
            round_shift(f + 0x80_0000, 126 - e)
        } else {
            0
        };
        if rounded > 0x7C00 {
            sign + 0x7C00
        } else {
            sign + rounded as u16
        }
    }
}

/// The `binary64` value nearest to an integer.
pub fn from_i64(i: i64) -> (r: u64)
    ensures
        r == from_int(i as int),
{
    let n: u64 = if i == i64::MIN {
        0x8000_0000_0000_0000
    } else if i < 0 {
        (-i) as u64
    } else {
        i as u64
    };
    let sign: u64 = if i < 0 {
        SIGN
    } else {
        0
    };
    if n == 0 {
        return 0;
    }
    let k = leading(n);
    proof {
        lemma2_to64();
        lemma2_to64_rest();
        lemma_log2(n as int);
    }
    if k <= 52 {
        proof {
            lemma_pow2_mono((k + 1) as nat, 53);
            lemma_pow2_unfold((k + 1) as nat);
        }
        sign + normalize(n, 1075)
    } else if n == 0x8000_0000_0000_0000 {
        proof {
            lemma_log2_exact(63);
            assert(pow2(11) == 2048);
            assert(round_div(n as int, 2048) == 0x10_0000_0000_0000);
        }
        sign + (63 + 1022) * HIDDEN + 0x10_0000_0000_0000
    } else {
        proof {
            lemma_log2_below(n as int, 63);
            lemma_pow2_adds((k - 52) as nat, 53);
            lemma_pow2_pos((k - 52) as nat);
            lemma_pow2_unfold((k + 1) as nat);
            let d = pow2((k - 52) as nat) as int;
            assert(n as int / d < 0x20_0000_0000_0000) by {
                lemma_multiply_divide_lt(n as int, d, 0x20_0000_0000_0000);
            }
        }
        let r = round_shift(n, k - 52);
        sign + (k + 1022) * HIDDEN + r
    }
}

/// The leading position of a power of two.
proof fn lemma_log2_exact(k: nat)
    ensures
        log2(pow2(k) as int) == k,
    decreases k,
{
    lemma2_to64();
    lemma_pow2_pos(k);
    if k > 0 {
        lemma_pow2_unfold(k);
        lemma_pow2_pos((k - 1) as nat);
        lemma_log2_exact((k - 1) as nat);
        assert(pow2(k) as int / 2 == pow2((k - 1) as nat));
    }
}

} // verus!
