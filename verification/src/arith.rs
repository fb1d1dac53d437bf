//! IEEE 754 arithmetic on bit patterns, rounding to the nearest value and to the even one of two
//! equally near. Every NaN result is the canonical quiet NaN.

use crate::float::{log2, round_div};
use vstd::arithmetic::div_mod::*;
use vstd::arithmetic::mul::*;
use vstd::arithmetic::power2::*;
use vstd::bits::*;
use vstd::prelude::*;

verus! {

/// A binary interchange format: the number of stored significand bits, the exponent of the
/// smallest positive value, and the bits of the infinity.
#[derive(Clone, Copy)]
pub struct Format {
    pub bits: u32,
    pub low: i32,
    pub infinity: u64,
}

/// `binary32`.
pub open spec fn single() -> Format {
    Format { bits: 23, low: -149i32, infinity: 0x7F80_0000 }
}

/// `binary64`.
pub open spec fn double() -> Format {
    Format { bits: 52, low: -1074i32, infinity: 0x7FF0_0000_0000_0000 }
}

/// Whether this is one of the two formats.
pub open spec fn known(f: Format) -> bool {
    f == single() || f == double()
}

/// The larger of two integers.
pub open spec fn max_int(a: int, b: int) -> int {
    if a < b {
        b
    } else {
        a
    }
}

/// The exponent of the last place of the values next to `2^top`.
pub open spec fn last_place(f: Format, top: int) -> int {
    max_int(top - f.bits, f.low as int)
}

/// `a / b * 2^e` in units of `2^q`, rounded.
pub open spec fn in_units(a: int, b: int, e: int, q: int) -> int {
    if e >= q {
        round_div(a * pow2((e - q) as nat), b)
    } else {
        round_div(a, b * pow2((q - e) as nat))
    }
}

/// The bits of the value nearest to `a / b * 2^e`, for `0 <= a`, `0 < b`, and `b <= a` unless `a`
/// is zero. A value too large gives the infinity.
pub open spec fn nearest(f: Format, a: int, b: int, e: int) -> int {
    if a == 0 {
        0
    } else {
        let q = last_place(f, log2(a / b) + e);
        let bits = (q - f.low) * pow2(f.bits as nat) + in_units(a, b, e, q);
        if bits > f.infinity {
            f.infinity as int
        } else {
            bits
        }
    }
}

/// The weight of the sign bit.
pub open spec fn sign_bit(f: Format) -> int {
    if f.bits == 23 {
        0x8000_0000
    } else {
        0x8000_0000_0000_0000
    }
}

/// A value: a NaN, a signed infinity, or a sign with a significand and an exponent.
pub enum Parts {
    Nan,
    Infinite(bool),
    Finite(bool, int, int),
}

/// The value that bits encode.
pub open spec fn parts(f: Format, b: int) -> Parts {
    let minus = b >= sign_bit(f);
    let m = b % sign_bit(f);
    let unit = pow2(f.bits as nat) as int;
    if m > f.infinity {
        Parts::Nan
    } else if m == f.infinity {
        Parts::Infinite(minus)
    } else if m / unit == 0 {
        Parts::Finite(minus, m, f.low as int)
    } else {
        Parts::Finite(minus, m % unit + unit, m / unit - 1 + f.low)
    }
}

/// The canonical quiet NaN.
pub open spec fn quiet_nan(f: Format) -> int {
    f.infinity + pow2((f.bits - 1) as nat)
}

/// Bits with a sign.
pub open spec fn signed(f: Format, minus: bool, bits: int) -> int {
    if minus {
        sign_bit(f) + bits
    } else {
        bits
    }
}

/// `-n` or `n`.
pub open spec fn with_sign(minus: bool, n: int) -> int {
    if minus {
        -n
    } else {
        n
    }
}

/// The lesser of two integers.
pub open spec fn min_int(a: int, b: int) -> int {
    if a < b {
        a
    } else {
        b
    }
}

/// The exact sum of two finite values, in units of the lesser exponent.
pub open spec fn exact_sum(s1: bool, m1: int, e1: int, s2: bool, m2: int, e2: int) -> int {
    let e = min_int(e1, e2);
    with_sign(s1, m1 * pow2((e1 - e) as nat)) + with_sign(s2, m2 * pow2((e2 - e) as nat))
}

/// The magnitude of an integer.
pub open spec fn magnitude(n: int) -> int {
    if n < 0 {
        -n
    } else {
        n
    }
}

/// The sum of two values.
pub open spec fn sum(f: Format, x: int, y: int) -> int {
    match (parts(f, x), parts(f, y)) {
        (Parts::Nan, _) => quiet_nan(f),
        (_, Parts::Nan) => quiet_nan(f),
        (Parts::Infinite(s1), Parts::Infinite(s2)) => if s1 == s2 {
            signed(f, s1, f.infinity as int)
        } else {
            quiet_nan(f)
        },
        (Parts::Infinite(s1), _) => signed(f, s1, f.infinity as int),
        (_, Parts::Infinite(s2)) => signed(f, s2, f.infinity as int),
        (Parts::Finite(s1, m1, e1), Parts::Finite(s2, m2, e2)) => {
            let n = exact_sum(s1, m1, e1, s2, m2, e2);
            if n == 0 {
                signed(f, s1 && s2, 0)
            } else {
                signed(f, n < 0, nearest(f, magnitude(n), 1, min_int(e1, e2)))
            }
        },
    }
}

/// The value with the opposite sign.
pub open spec fn negated(f: Format, x: int) -> int {
    if x >= sign_bit(f) {
        x - sign_bit(f)
    } else {
        x + sign_bit(f)
    }
}

/// The difference of two values.
pub open spec fn difference(f: Format, x: int, y: int) -> int {
    sum(f, x, negated(f, y))
}

/// The product of two values.
pub open spec fn times(f: Format, x: int, y: int) -> int {
    match (parts(f, x), parts(f, y)) {
        (Parts::Nan, _) => quiet_nan(f),
        (_, Parts::Nan) => quiet_nan(f),
        (Parts::Infinite(s1), Parts::Infinite(s2)) => signed(f, s1 != s2, f.infinity as int),
        (Parts::Infinite(s1), Parts::Finite(s2, m2, _)) => if m2 == 0 {
            quiet_nan(f)
        } else {
            signed(f, s1 != s2, f.infinity as int)
        },
        (Parts::Finite(s1, m1, _), Parts::Infinite(s2)) => if m1 == 0 {
            quiet_nan(f)
        } else {
            signed(f, s1 != s2, f.infinity as int)
        },
        (Parts::Finite(s1, m1, e1), Parts::Finite(s2, m2, e2)) => signed(
            f,
            s1 != s2,
            nearest(f, m1 * m2, 1, e1 + e2),
        ),
    }
}

/// The quotient of two values.
pub open spec fn quotient(f: Format, x: int, y: int) -> int {
    match (parts(f, x), parts(f, y)) {
        (Parts::Nan, _) => quiet_nan(f),
        (_, Parts::Nan) => quiet_nan(f),
        (Parts::Infinite(_), Parts::Infinite(_)) => quiet_nan(f),
        (Parts::Infinite(s1), Parts::Finite(s2, _, _)) => signed(f, s1 != s2, f.infinity as int),
        (Parts::Finite(s1, _, _), Parts::Infinite(s2)) => signed(f, s1 != s2, 0),
        (Parts::Finite(s1, m1, e1), Parts::Finite(s2, m2, e2)) => if m2 == 0 {
            if m1 == 0 {
                quiet_nan(f)
            } else {
                signed(f, s1 != s2, f.infinity as int)
            }
        } else {
            signed(
                f,
                s1 != s2,
                nearest(f, m1 * 0x1_0000_0000_0000_0000, m2, e1 - e2 - 64),
            )
        },
    }
}

/// The greatest integer whose square does not exceed `n`.
pub open spec fn is_root(n: int, r: int) -> bool {
    0 <= r && r * r <= n < (r + 1) * (r + 1)
}

/// A non-negative integer has a root.
pub open spec fn root(n: int) -> int {
    choose|r: int| is_root(n, r)
}

/// The bits of the value nearest to the square root of `m * 2^e`, for a positive `binary32` value.
/// The root has as many places as the significand before and after it is scaled by an even power
/// of two, so it is never half way between two values, and its last place is that of
/// `2^(log2(m * 2^e) / 2)`.
pub open spec fn nearest_root(f: Format, m: int, e: int) -> int {
    let k = if (e % 2) == 0 {
        64nat
    } else {
        65nat
    };
    let n = m * pow2(k);
    let r = root(n);
    nearest(
        f,
        2 * r + (if r * r == n {
            0int
        } else {
            1int
        }),
        1,
        (e - k) / 2 - 1,
    )
}

/// The square root of a value.
pub open spec fn square_root(f: Format, x: int) -> int {
    match parts(f, x) {
        Parts::Nan => quiet_nan(f),
        Parts::Infinite(s) => if s {
            quiet_nan(f)
        } else {
            f.infinity as int
        },
        Parts::Finite(s, m, e) => if m == 0 {
            x
        } else if s {
            quiet_nan(f)
        } else {
            nearest_root(f, m, e)
        },
    }
}

proof fn lemma_pow2_le(a: nat, b: nat)
    requires
        a <= b,
    ensures
        pow2(a) <= pow2(b),
{
    if a < b {
        lemma_pow2_strictly_increases(a, b);
    }
}

/// The binary logarithm, rounded down, of a positive integer.
pub proof fn lemma_log2_range(n: int)
    requires
        n > 0,
    ensures
        log2(n) >= 0,
        pow2(log2(n) as nat) <= n < 2 * pow2(log2(n) as nat),
    decreases n,
{
    lemma2_to64();
    if n >= 2 {
        lemma_log2_range(n / 2);
        lemma_pow2_unfold((log2(n / 2) + 1) as nat);
    }
}

/// Only one power of two is not greater than an integer with its double greater.
pub proof fn lemma_log2_unique(n: int, k: nat)
    requires
        pow2(k) <= n < 2 * pow2(k),
    ensures
        log2(n) == k,
{
    lemma_pow2_pos(k);
    lemma_log2_range(n);
    let j = log2(n) as nat;
    if j < k {
        lemma_pow2_le(j + 1, k);
        lemma_pow2_unfold(j + 1);
    } else if k < j {
        lemma_pow2_le(k + 1, j);
        lemma_pow2_unfold(k + 1);
    }
}

/// Cutting a quotient off after its integer part, and keeping only whether anything was cut,
/// does not change what it rounds to.
proof fn lemma_sticky(f: Format, a: int, b: int, e: int)
    requires
        known(f),
        b > 0,
        a >= 0,
        a / b >= pow2((f.bits + 2) as nat),
    ensures
        nearest(f, a, b, e) == nearest(
            f,
            2 * (a / b) + (if a % b == 0 {
                0int
            } else {
                1int
            }),
            1,
            e - 1,
        ),
{
    let m = a / b;
    let rho = a % b;
    let s: int = if rho == 0 {
        0
    } else {
        1
    };
    let n = 2 * m + s;
    lemma_pow2_pos((f.bits + 2) as nat);
    lemma_fundamental_div_mod(a, b);
    lemma_log2_range(m);
    lemma_log2_range(n);
    let k = log2(m) as nat;
    lemma_pow2_unfold((k + 1) as nat);
    lemma_log2_unique(n, k + 1);
    assert(a != 0) by {
        if a == 0 {
            lemma_basic_div(0, b);
        }
    }
    assert(n / 1 == n);
    let q = last_place(f, k + e);
    assert(k >= f.bits + 2) by {
        if k < f.bits + 2 {
            lemma_pow2_le(k + 1, (f.bits + 2) as nat);
        }
    }
    let t = (q - e) as nat;
    assert(t >= 2);
    let d = pow2(t) as int;
    lemma2_to64();
    lemma_pow2_le(2, t);
    lemma_pow2_unfold((t + 1) as nat);
    lemma_pow2_unfold(t);
    let half = pow2((t - 1) as nat) as int;
    assert(d == 2 * half);
    let u = m / d;
    let v = m % d;
    lemma_fundamental_div_mod(m, d);
    lemma_mod_bound(m, d);
    lemma_mod_bound(a, b);
    // a = (b * d) * u + (b * v + rho)
    assert(a == (b * d) * u + (b * v + rho)) by (nonlinear_arith)
        requires
            a == b * m + rho,
            m == d * u + v,
    ;
    assert(0 <= b * v + rho < b * d) by (nonlinear_arith)
        requires
            0 <= v <= d - 1,
            0 <= rho < b,
            b > 0,
    ;
    assert(b * d > 0) by (nonlinear_arith)
        requires
            b > 0,
            d > 0,
    ;
    lemma_fundamental_div_mod_converse(a, b * d, u, b * v + rho);
    assert(n == (2 * d) * u + (2 * v + s)) by (nonlinear_arith)
        requires
            n == 2 * m + s,
            m == d * u + v,
    ;
    lemma_fundamental_div_mod_converse(n, 2 * d, u, 2 * v + s);
    if v > half {
        assert(2 * (b * v + rho) > b * d) by (nonlinear_arith)
            requires
                v >= half + 1,
                d == 2 * half,
                rho >= 0,
                b > 0,
        ;
    } else if v == half {
        assert(2 * (b * v + rho) == b * d + 2 * rho) by (nonlinear_arith)
            requires
                v == half,
                d == 2 * half,
        ;
    } else {
        assert(2 * (b * v + rho) < b * d) by (nonlinear_arith)
            requires
                v <= half - 1,
                d == 2 * half,
                0 <= rho < b,
                b > 0,
        ;
    }
    assert(round_div(a, b * d) == round_div(n, 2 * d));
    assert(1 * pow2((q - (e - 1)) as nat) == 2 * d);
}

/// Dividing by a power of two and raising the exponent by as much changes nothing.
proof fn lemma_rescale(f: Format, n: int, t: nat, e: int)
    requires
        known(f),
        n > 0,
        n / pow2(t) as int >= pow2((f.bits + 2) as nat),
    ensures
        nearest(f, n, 1, e) == nearest(f, n, pow2(t) as int, e + t),
{
    let b = pow2(t) as int;
    let m = n / b;
    lemma_pow2_pos(t);
    lemma_pow2_pos((f.bits + 2) as nat);
    lemma_log2_range(m);
    let k = log2(m) as nat;
    lemma_fundamental_div_mod(n, b);
    lemma_mod_bound(n, b);
    lemma_pow2_adds(k, t);
    assert(pow2(k) * b <= n) by (nonlinear_arith)
        requires
            n == b * m + n % b,
            n % b >= 0,
            pow2(k) <= m,
            b > 0,
    ;
    assert(n < 2 * (pow2(k) * b)) by (nonlinear_arith)
        requires
            n == b * m + n % b,
            n % b < b,
            m + 1 <= 2 * pow2(k),
            b > 0,
    ;
    lemma_log2_unique(n, k + t);
    assert(n / 1 == n);
    assert(k >= f.bits + 2) by {
        if k < f.bits + 2 {
            lemma_pow2_le(k + 1, (f.bits + 2) as nat);
            lemma_pow2_unfold(k + 1);
        }
    }
    let q = last_place(f, k + t + e);
    assert(q >= e + t + 2);
    lemma_pow2_adds(t, (q - e - t) as nat);
    assert(1 * pow2((q - e) as nat) == b * pow2((q - (e + t)) as nat));
}

/// `2^s`.
fn power_wide(s: u32) -> (r: u128)
    requires
        s < 128,
    ensures
        r == pow2(s as nat),
        r > 0,
{
    let mut r: u128 = 1;
    let mut i: u32 = 0;
    proof {
        lemma2_to64();
        lemma_wide_limit();
    }
    while i < s
        invariant
            i <= s < 128,
            r == pow2(i as nat),
            pow2(127) == 0x8000_0000_0000_0000_0000_0000_0000_0000,
        decreases s - i,
    {
        proof {
            lemma_pow2_unfold((i + 1) as nat);
            lemma_pow2_le((i + 1) as nat, 127);
        }
        r = r * 2;
        i = i + 1;
    }
    proof {
        lemma_pow2_pos(s as nat);
    }
    r
}

proof fn lemma_wide_limit()
    ensures
        pow2(127) == 0x8000_0000_0000_0000_0000_0000_0000_0000,
{
    lemma2_to64();
    lemma2_to64_rest();
    lemma_pow2_adds(63, 64);
    assert(0x8000_0000_0000_0000int * 0x1_0000_0000_0000_0000int
        == 0x8000_0000_0000_0000_0000_0000_0000_0000int) by (nonlinear_arith);
}

fn leading_wide(n: u128) -> (r: u32)
    requires
        0 < n < 0x8000_0000_0000_0000_0000_0000_0000_0000,
    ensures
        r == log2(n as int),
        r < 127,
    decreases n,
{
    proof {
        lemma_wide_limit();
        lemma_log2_range(n as int);
        if log2(n as int) >= 127 {
            lemma_pow2_le(127, log2(n as int) as nat);
        }
    }
    if n < 2 {
        0
    } else {
        leading_wide(n / 2) + 1
    }
}

/// `m` divided by `2^s`, rounded to the nearest integer, ties to even.
fn round_shift_wide(m: u128, s: u32) -> (r: u128)
    requires
        m < 0x8000_0000_0000_0000_0000_0000_0000_0000,
    ensures
        r == round_div(m as int, pow2(s as nat) as int),
        r <= m,
{
    proof {
        lemma_wide_limit();
        lemma_pow2_pos(s as nat);
    }
    if s >= 128 {
        proof {
            lemma_pow2_unfold(128);
            lemma_pow2_le(128, s as nat);
            lemma_small_mod(m as nat, pow2(s as nat));
            lemma_basic_div(m as int, pow2(s as nat) as int);
        }
        0
    } else {
        let d = power_wide(s);
        let q = m / d;
        let rest = m % d;
        proof {
            lemma_fundamental_div_mod(m as int, d as int);
            assert(q <= m) by (nonlinear_arith)
                requires
                    m as int == d as int * q as int + rest as int,
                    d >= 1,
                    rest >= 0,
                    q >= 0,
            ;
        }
        if rest > d - rest || (rest == d - rest && q % 2 == 1) {
            proof {
                assert(q + 1 <= m) by (nonlinear_arith)
                    requires
                        m as int == d as int * q as int + rest as int,
                        d >= 1,
                        rest >= 1,
                        q >= 0,
                ;
            }
            q + 1
        } else {
            q
        }
    }
}

/// The bits of the value nearest to `m * 2^e`.
fn pack(f: Format, m: u128, e: i32) -> (r: u64)
    requires
        known(f),
        0 < m < 0x8000_0000_0000_0000_0000_0000_0000_0000,
        -5000 <= e <= 5000,
    ensures
        r == nearest(f, m as int, 1, e as int),
        r <= f.infinity,
{
    let k: i32 = leading_wide(m) as i32;
    let q: i32 = if k + e - (f.bits as i32) < f.low {
        f.low
    } else {
        k + e - (f.bits as i32)
    };
    proof {
        assert(m as int / 1 == m);
        lemma2_to64();
        lemma2_to64_rest();
        lemma_log2_range(m as int);
        assert(q == last_place(f, k + e));
    }
    let units: u128 = if e >= q {
        proof {
            lemma_pow2_le((e - q) as nat, f.bits as nat);
            lemma_pow2_pos((e - q) as nat);
        }
        let d = power_wide((e - q) as u32);
        proof {
            lemma_pow2_adds((k + 1) as nat, (e - q) as nat);
            lemma_pow2_unfold((k + 1) as nat);
            lemma_pow2_le((k + 1 + (e - q)) as nat, (f.bits + 1) as nat);
            lemma_pow2_le((f.bits + 1) as nat, 53);
            assert(m * d < pow2((k + 1) as nat) * d) by (nonlinear_arith)
                requires
                    m < pow2((k + 1) as nat),
                    d > 0,
            ;
            assert(m * d >= 0) by (nonlinear_arith)
                requires
                    m >= 0,
                    d >= 0,
            ;
            assert(round_div(m * d, 1) == m * d) by {
                lemma_div_basics(m * d);
            }
        }
        m * d
    } else {
        let r = round_shift_wide(m, (q - e) as u32);
        proof {
            let d = pow2((q - e) as nat) as int;
            lemma_pow2_pos((q - e) as nat);
            lemma_pow2_unfold((k + 1) as nat);
            assert(q >= k + e - f.bits);
            lemma_pow2_adds((f.bits + 1) as nat, (q - e) as nat);
            lemma_pow2_le((k + 1) as nat, (f.bits + 1 + (q - e)) as nat);
            assert(m < pow2((k + 1) as nat));
            assert(pow2((f.bits + 1) as nat) * d == pow2((f.bits + 1 + (q - e)) as nat));
            lemma_mul_is_commutative(pow2((f.bits + 1) as nat) as int, d);
            lemma_multiply_divide_lt(m as int, d, pow2((f.bits + 1) as nat) as int);
            lemma_pow2_le((f.bits + 1) as nat, 53);
            assert(1 * pow2((q - e) as nat) == d);
        }
        r
    };
    let d = power_wide(f.bits);
    proof {
        lemma_pow2_le(f.bits as nat, 52);
        assert(units <= 0x20_0000_0000_0000);
        assert(0 <= (q - f.low) * d <= 20000 * 0x10_0000_0000_0000) by (nonlinear_arith)
            requires
                0 <= q - f.low <= 20000,
                0 <= d <= 0x10_0000_0000_0000,
        ;
    }
    let bits: u128 = ((q - f.low) as u128) * d + units;
    if bits > f.infinity as u128 {
        f.infinity
    } else {
        bits as u64
    }
}

/// A decoded value: whether it is a NaN, whether it is infinite, its sign, significand and
/// exponent.
struct Decoded {
    nan: bool,
    infinite: bool,
    minus: bool,
    m: u64,
    e: i32,
}

fn format_single() -> (r: Format)
    ensures
        r == single(),
{
    Format { bits: 23, low: -149, infinity: 0x7F80_0000 }
}

fn format_double() -> (r: Format)
    ensures
        r == double(),
{
    Format { bits: 52, low: -1074, infinity: 0x7FF0_0000_0000_0000 }
}

/// Bits that belong to a format.
pub open spec fn in_format(f: Format, b: int) -> bool {
    0 <= b < 2 * sign_bit(f)
}

fn decode(f: Format, b: u64) -> (r: Decoded)
    requires
        known(f),
        in_format(f, b as int),
    ensures
        match parts(f, b as int) {
            Parts::Nan => r.nan,
            Parts::Infinite(s) => !r.nan && r.infinite && r.minus == s,
            Parts::Finite(s, m, e) => !r.nan && !r.infinite && r.minus == s && r.m == m && r.e == e,
        },
        r.m < 0x20_0000_0000_0000,
        f.bits == 23 ==> r.m < 0x100_0000,
        f.low <= r.e <= f.low + 2046,
        !r.nan && !r.infinite && r.e > f.low ==> r.m >= pow2(f.bits as nat),
{
    let half: u64 = if f.bits == 23 {
        0x8000_0000
    } else {
        0x8000_0000_0000_0000
    };
    let unit: u64 = if f.bits == 23 {
        0x80_0000
    } else {
        0x10_0000_0000_0000
    };
    proof {
        lemma2_to64();
        lemma2_to64_rest();
        assert(unit == pow2(f.bits as nat));
    }
    let minus = b >= half;
    let m = b % half;
    proof {
        if f.bits == 23 {
            assert(m / 0x80_0000 < 256);
            assert(m < 0x7F80_0000 ==> m / 0x80_0000 < 255);
        } else {
            assert(m / 0x10_0000_0000_0000 < 2048);
            assert(m < 0x7FF0_0000_0000_0000 ==> m / 0x10_0000_0000_0000 < 2047);
        }
    }
    if m > f.infinity {
        Decoded { nan: true, infinite: false, minus, m: 0, e: f.low }
    } else if m == f.infinity {
        Decoded { nan: false, infinite: true, minus, m: 0, e: f.low }
    } else if m / unit == 0 {
        Decoded { nan: false, infinite: false, minus, m, e: f.low }
    } else {
        Decoded {
            nan: false,
            infinite: false,
            minus,
            m: m % unit + unit,
            e: ((m / unit) as i32) - 1 + f.low,
        }
    }
}

fn make_nan(f: Format) -> (r: u64)
    requires
        known(f),
    ensures
        r == quiet_nan(f),
        in_format(f, r as int),
{
    proof {
        lemma2_to64();
        lemma2_to64_rest();
    }
    if f.bits == 23 {
        0x7FC0_0000
    } else {
        0x7FF8_0000_0000_0000
    }
}

fn apply_sign(f: Format, minus: bool, bits: u64) -> (r: u64)
    requires
        known(f),
        bits <= f.infinity,
    ensures
        r == signed(f, minus, bits as int),
        in_format(f, r as int),
{
    if minus {
        if f.bits == 23 {
            bits + 0x8000_0000
        } else {
            bits + 0x8000_0000_0000_0000
        }
    } else {
        bits
    }
}

/// The sum of two finite values of which the first has the greater exponent.
fn sum_ordered(f: Format, s1: bool, m1: u64, e1: i32, s2: bool, m2: u64, e2: i32) -> (r: u64)
    requires
        known(f),
        e1 >= e2,
        f.low <= e2,
        e1 <= f.low + 2046,
        m1 < 0x20_0000_0000_0000,
        m2 < 0x20_0000_0000_0000,
        e1 > f.low ==> m1 >= pow2(f.bits as nat),
    ensures
        ({
            let n = exact_sum(s1, m1 as int, e1 as int, s2, m2 as int, e2 as int);
            r == (if n == 0 {
                signed(f, s1 && s2, 0)
            } else {
                signed(f, n < 0, nearest(f, magnitude(n), 1, e2 as int))
            })
        }),
        in_format(f, r as int),
{
    let d: u32 = (e1 - e2) as u32;
    let ghost n = exact_sum(s1, m1 as int, e1 as int, s2, m2 as int, e2 as int);
    proof {
        lemma2_to64();
        lemma2_to64_rest();
        lemma_pow2_pos(d as nat);
        assert(min_int(e1 as int, e2 as int) == e2);
        assert((e1 - e2) as nat == d as nat);
        assert(pow2((e2 - e2) as nat) == 1);
        assert(m2 * pow2((e2 - e2) as nat) == m2) by (nonlinear_arith)
            requires
                pow2((e2 - e2) as nat) == 1,
        ;
        assert(n == with_sign(s1, m1 * pow2(d as nat)) + with_sign(s2, m2 as int));
    }
    if d <= 64 {
        proof {
            lemma_pow2_le(d as nat, 64);
            assert(0 <= m1 * pow2(d as nat) <= 0x20_0000_0000_0000 * 0x1_0000_0000_0000_0000)
                by (nonlinear_arith)
                requires
                    0 <= m1 <= 0x20_0000_0000_0000,
                    0 < pow2(d as nat) <= 0x1_0000_0000_0000_0000,
            ;
        }
        let big: u128 = (m1 as u128) * power_wide(d);
        let small: u128 = m2 as u128;
        if s1 == s2 {
            let total: u128 = big + small;
            if total == 0 {
                apply_sign(f, s1 && s2, 0)
            } else {
                apply_sign(f, s1, pack(f, total, e2))
            }
        } else if big == small {
            apply_sign(f, false, 0)
        } else if big > small {
            apply_sign(f, s1, pack(f, big - small, e2))
        } else {
            apply_sign(f, s2, pack(f, small - big, e2))
        }
    } else {
        // The second value reaches only the last of the places kept.
        let t: u32 = d - 64;
        let b = if t >= 64 {
            0
        } else {
            m2 / power_small(t)
        };
        let cut: bool = if t >= 64 {
            m2 != 0
        } else {
            m2 % power_small(t) != 0
        };
        let ghost unit = pow2(t as nat) as int;
        proof {
            lemma_pow2_pos(t as nat);
            lemma_pow2_adds(64, t as nat);
            if t >= 64 {
                lemma_pow2_le(64, t as nat);
                lemma_small_mod(m2 as nat, pow2(t as nat));
                lemma_basic_div(m2 as int, unit);
            }
            assert(b == m2 as int / unit);
            assert(cut == (m2 as int % unit != 0));
            lemma_fundamental_div_mod(m2 as int, unit);
            lemma_mod_bound(m2 as int, unit);
            lemma_div_pos_is_pos(m2 as int, unit);
            lemma_div_is_ordered_by_denominator(m2 as int, 1, unit);
            assert(m1 * pow2(d as nat) == (m1 * 0x1_0000_0000_0000_0000) * unit) by (nonlinear_arith)
                requires
                    pow2(d as nat) == 0x1_0000_0000_0000_0000 * unit,
            ;
        }
        let big: u128 = (m1 as u128) * 0x1_0000_0000_0000_0000;
        let whole: u128 = if s1 == s2 {
            big + b as u128
        } else if cut {
            big - b as u128 - 1
        } else {
            big - b as u128
        };
        let sticky: u128 = if cut {
            1
        } else {
            0
        };
        proof {
            let mag = magnitude(n);
            assert(m1 >= 0x80_0000) by {
                lemma_pow2_le(23, f.bits as nat);
            }
            assert(big >= 0x80_0000 * 0x1_0000_0000_0000_0000);
            assert(whole * unit >= 0) by (nonlinear_arith)
                requires
                    whole >= 0,
                    unit > 0,
            ;
            if s1 == s2 {
                assert(mag == whole * unit + m2 as int % unit) by (nonlinear_arith)
                    requires
                        mag == big * unit + m2,
                        m2 == unit * b + m2 as int % unit,
                        whole == big + b,
                ;
                lemma_fundamental_div_mod_converse(mag, unit, whole as int, m2 as int % unit);
            } else {
                assert(m2 < big * unit) by (nonlinear_arith)
                    requires
                        m2 < 0x20_0000_0000_0000,
                        big >= 0x20_0000_0000_0000,
                        unit >= 1,
                ;
                let rest = if cut {
                    unit - m2 as int % unit
                } else {
                    0int
                };
                assert(mag == whole * unit + rest) by (nonlinear_arith)
                    requires
                        mag == big * unit - m2,
                        m2 == unit * b + m2 as int % unit,
                        whole == big - b - (if cut {
                            1int
                        } else {
                            0int
                        }),
                        rest == (if cut {
                            unit - m2 as int % unit
                        } else {
                            0int
                        }),
                        !cut ==> m2 as int % unit == 0,
                ;
                lemma_fundamental_div_mod_converse(mag, unit, whole as int, rest);
            }
            lemma_pow2_le((f.bits + 2) as nat, 54);
            assert(mag / unit == whole);
            assert(pow2(54) == 0x40_0000_0000_0000);
            lemma_rescale(f, mag, t as nat, e2 as int);
            lemma_sticky(f, mag, unit, e2 + t);
            assert(2 * whole + sticky == 2 * (mag / unit) + (if mag % unit == 0 {
                0int
            } else {
                1int
            }));
        }
        apply_sign(f, s1, pack(f, 2 * whole + sticky, e2 + (t as i32) - 1))
    }
}

fn power_small(s: u32) -> (r: u64)
    requires
        s < 64,
    ensures
        r == pow2(s as nat),
        r > 0,
{
    proof {
        lemma_u64_pow2_no_overflow(s as nat);
        lemma_u64_shl_is_mul(1, s as u64);
        lemma_pow2_pos(s as nat);
    }
    1u64 << (s as u64)
}

proof fn lemma_sum_commutes(s1: bool, m1: int, e1: int, s2: bool, m2: int, e2: int)
    ensures
        exact_sum(s1, m1, e1, s2, m2, e2) == exact_sum(s2, m2, e2, s1, m1, e1),
        min_int(e1, e2) == min_int(e2, e1),
{
}

fn sum_bits(f: Format, x: u64, y: u64) -> (r: u64)
    requires
        known(f),
        in_format(f, x as int),
        in_format(f, y as int),
    ensures
        r == sum(f, x as int, y as int),
        in_format(f, r as int),
{
    let a = decode(f, x);
    let b = decode(f, y);
    if a.nan || b.nan {
        make_nan(f)
    } else if a.infinite && b.infinite {
        if a.minus == b.minus {
            apply_sign(f, a.minus, f.infinity)
        } else {
            make_nan(f)
        }
    } else if a.infinite {
        apply_sign(f, a.minus, f.infinity)
    } else if b.infinite {
        apply_sign(f, b.minus, f.infinity)
    } else if a.e >= b.e {
        sum_ordered(f, a.minus, a.m, a.e, b.minus, b.m, b.e)
    } else {
        proof {
            lemma_sum_commutes(
                a.minus,
                a.m as int,
                a.e as int,
                b.minus,
                b.m as int,
                b.e as int,
            );
        }
        sum_ordered(f, b.minus, b.m, b.e, a.minus, a.m, a.e)
    }
}

fn negate_bits(f: Format, x: u64) -> (r: u64)
    requires
        known(f),
        in_format(f, x as int),
    ensures
        r == negated(f, x as int),
        in_format(f, r as int),
{
    let half: u64 = if f.bits == 23 {
        0x8000_0000
    } else {
        0x8000_0000_0000_0000
    };
    if x >= half {
        x - half
    } else {
        x + half
    }
}

fn times_bits(f: Format, x: u64, y: u64) -> (r: u64)
    requires
        known(f),
        in_format(f, x as int),
        in_format(f, y as int),
    ensures
        r == times(f, x as int, y as int),
        in_format(f, r as int),
{
    let a = decode(f, x);
    let b = decode(f, y);
    let minus = a.minus != b.minus;
    if a.nan || b.nan {
        make_nan(f)
    } else if a.infinite && b.infinite {
        apply_sign(f, minus, f.infinity)
    } else if a.infinite {
        if b.m == 0 {
            make_nan(f)
        } else {
            apply_sign(f, minus, f.infinity)
        }
    } else if b.infinite {
        if a.m == 0 {
            make_nan(f)
        } else {
            apply_sign(f, minus, f.infinity)
        }
    } else if a.m == 0 || b.m == 0 {
        proof {
            assert(a.m * b.m == 0) by (nonlinear_arith)
                requires
                    a.m == 0 || b.m == 0,
            ;
        }
        apply_sign(f, minus, 0)
    } else {
        proof {
            assert(0 < a.m * b.m < 0x8000_0000_0000_0000_0000_0000_0000_0000) by (nonlinear_arith)
                requires
                    0 < a.m < 0x20_0000_0000_0000,
                    0 < b.m < 0x20_0000_0000_0000,
            ;
        }
        apply_sign(f, minus, pack(f, (a.m as u128) * (b.m as u128), a.e + b.e))
    }
}

fn quotient_bits(f: Format, x: u64, y: u64) -> (r: u64)
    requires
        f == single(),
        in_format(f, x as int),
        in_format(f, y as int),
    ensures
        r == quotient(f, x as int, y as int),
        in_format(f, r as int),
{
    let a = decode(f, x);
    let b = decode(f, y);
    let minus = a.minus != b.minus;
    if a.nan || b.nan || (a.infinite && b.infinite) {
        make_nan(f)
    } else if a.infinite {
        apply_sign(f, minus, f.infinity)
    } else if b.infinite {
        apply_sign(f, minus, 0)
    } else if b.m == 0 {
        if a.m == 0 {
            make_nan(f)
        } else {
            apply_sign(f, minus, f.infinity)
        }
    } else if a.m == 0 {
        apply_sign(f, minus, 0)
    } else {
        let top: u128 = (a.m as u128) * 0x1_0000_0000_0000_0000;
        let whole: u128 = top / (b.m as u128);
        let sticky: u128 = if top % (b.m as u128) == 0 {
            0
        } else {
            1
        };
        proof {
            lemma2_to64();
            lemma_fundamental_div_mod(top as int, b.m as int);
            lemma_mod_bound(top as int, b.m as int);
            assert(whole >= 0x100_0000_0000) by (nonlinear_arith)
                requires
                    top >= 0x1_0000_0000_0000_0000,
                    top == b.m * whole + top as int % b.m as int,
                    top as int % (b.m as int) < b.m,
                    0 < b.m < 0x100_0000,
            ;
            lemma_div_is_ordered_by_denominator(top as int, 1, b.m as int);
            lemma_sticky(f, top as int, b.m as int, a.e - b.e - 64);
        }
        apply_sign(f, minus, pack(f, 2 * whole + sticky, a.e - b.e - 65))
    }
}

proof fn lemma_root_unique(n: int, r: int)
    requires
        is_root(n, r),
    ensures
        root(n) == r,
{
    let s = root(n);
    assert(is_root(n, s));
    if s < r {
        assert((s + 1) * (s + 1) <= r * r) by (nonlinear_arith)
            requires
                0 <= s + 1 <= r,
        ;
    } else if r < s {
        assert((r + 1) * (r + 1) <= s * s) by (nonlinear_arith)
            requires
                0 <= r + 1 <= s,
        ;
    }
}

/// The greatest integer whose square does not exceed `n`.
fn integer_root(n: u128) -> (r: u128)
    requires
        n < 0x400_0000_0000_0000_0000_0000,
    ensures
        is_root(n as int, r as int),
{
    let mut low: u128 = 0;
    let mut high: u128 = 0x2000_0000_0000;
    proof {
        assert(0x2000_0000_0000int * 0x2000_0000_0000int >= 0x400_0000_0000_0000_0000_0000int)
            by (nonlinear_arith);
    }
    while high - low > 1
        invariant
            low < high <= 0x2000_0000_0000,
            low * low <= n < high * high,
        decreases high - low,
    {
        let mid: u128 = (low + high) / 2;
        proof {
            assert(0 <= mid * mid <= 0x2000_0000_0000 * 0x2000_0000_0000) by (nonlinear_arith)
                requires
                    0 <= mid <= 0x2000_0000_0000,
            ;
        }
        if mid * mid <= n {
            low = mid;
        } else {
            high = mid;
        }
    }
    proof {
        assert(high == low + 1);
    }
    low
}

fn root_bits(f: Format, x: u64) -> (r: u64)
    requires
        f == single(),
        in_format(f, x as int),
    ensures
        r == square_root(f, x as int),
        in_format(f, r as int),
{
    let a = decode(f, x);
    if a.nan {
        make_nan(f)
    } else if a.infinite {
        if a.minus {
            make_nan(f)
        } else {
            f.infinity
        }
    } else if a.m == 0 {
        x
    } else if a.minus {
        make_nan(f)
    } else {
        let k: i32 = if a.e % 2 == 0 {
            64
        } else {
            65
        };
        let scaled: u128 = if k == 64 {
            (a.m as u128) * 0x1_0000_0000_0000_0000
        } else {
            (a.m as u128) * 0x2_0000_0000_0000_0000
        };
        let r = integer_root(scaled);
        let ghost n = scaled as int;
        proof {
            lemma2_to64_rest();
            lemma_pow2_unfold(65);
            assert((a.e as int % 2 == 0) == (k == 64));
            assert(n == a.m * pow2(k as nat));
            lemma_root_unique(n, r as int);
            assert(r > 0) by {
                if r == 0 {
                    assert((r + 1) * (r + 1) == 1) by (nonlinear_arith)
                        requires
                            r == 0,
                    ;
                }
            }
            assert(r < 0x2000_0000_0000) by (nonlinear_arith)
                requires
                    r * r <= n,
                    n < 0x400_0000_0000_0000_0000_0000,
                    r >= 0,
            ;
            assert(r * r <= 0x2000_0000_0000 * 0x2000_0000_0000) by (nonlinear_arith)
                requires
                    0 <= r < 0x2000_0000_0000,
            ;
        }
        let sticky: u128 = if r * r == scaled {
            0
        } else {
            1
        };
        // `a.e - k` is even.
        let half: i32 = (a.e - k) / 2;
        proof {
            assert((a.e - k) % 2 == 0);
            assert(half as int == (a.e - k) as int / 2);
        }
        pack(f, 2 * r + sticky, half - 1)
    }
}

/// The sum of two `binary64` values.
pub open spec fn sum64(x: u64, y: u64) -> u64 {
    sum(double(), x as int, y as int) as u64
}

/// The product of two `binary64` values.
pub open spec fn times64(x: u64, y: u64) -> u64 {
    times(double(), x as int, y as int) as u64
}

/// The sum of two `binary32` values.
pub open spec fn sum32(x: u32, y: u32) -> u32 {
    sum(single(), x as int, y as int) as u32
}

/// The difference of two `binary32` values.
pub open spec fn difference32(x: u32, y: u32) -> u32 {
    difference(single(), x as int, y as int) as u32
}

/// The product of two `binary32` values.
pub open spec fn times32(x: u32, y: u32) -> u32 {
    times(single(), x as int, y as int) as u32
}

/// The quotient of two `binary32` values.
pub open spec fn quotient32(x: u32, y: u32) -> u32 {
    quotient(single(), x as int, y as int) as u32
}

/// The square root of a `binary32` value.
pub open spec fn root32(x: u32) -> u32 {
    square_root(single(), x as int) as u32
}

/// Adds two `binary64` values.
pub fn add_double(x: u64, y: u64) -> (r: u64)
    ensures
        r == sum64(x, y),
{
    sum_bits(format_double(), x, y)
}

/// Multiplies two `binary64` values.
pub fn multiply_double(x: u64, y: u64) -> (r: u64)
    ensures
        r == times64(x, y),
{
    times_bits(format_double(), x, y)
}

/// Adds two `binary32` values.
pub fn add_single(x: u32, y: u32) -> (r: u32)
    ensures
        r == sum32(x, y),
{
    sum_bits(format_single(), x as u64, y as u64) as u32
}

/// Subtracts the second `binary32` value from the first.
pub fn subtract_single(x: u32, y: u32) -> (r: u32)
    ensures
        r == difference32(x, y),
{
    let minus = negate_bits(format_single(), y as u64);
    sum_bits(format_single(), x as u64, minus) as u32
}

/// Multiplies two `binary32` values.
pub fn multiply_single(x: u32, y: u32) -> (r: u32)
    ensures
        r == times32(x, y),
{
    times_bits(format_single(), x as u64, y as u64) as u32
}

/// Divides the first `binary32` value by the second.
pub fn divide_single(x: u32, y: u32) -> (r: u32)
    ensures
        r == quotient32(x, y),
{
    quotient_bits(format_single(), x as u64, y as u64) as u32
}

/// The square root of a `binary32` value.
pub fn root_single(x: u32) -> (r: u32)
    ensures
        r == root32(x),
{
    root_bits(format_single(), x as u64) as u32
}

} // verus!
