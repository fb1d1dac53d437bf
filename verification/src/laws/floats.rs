//! Which floating-point constants are neutral.

use crate::arith::{
    exact_sum, known, last_place, lemma_log2_range, lemma_log2_unique, magnitude, nearest, parts,
    sign_bit, signed, sum, times, with_sign, Format, Parts,
};
use crate::float::{log2, round_div};
use vstd::arithmetic::power2::*;
use vstd::prelude::*;

verus! {

/// Rounding a value of the format gives the value back.
proof fn lemma_nearest_exact(f: Format, x: int)
    requires
        known(f),
        0 <= x < 2 * sign_bit(f),
        parts(f, x) is Finite,
    ensures
        ({
            let m = parts(f, x)->Finite_1;
            let e = parts(f, x)->Finite_2;
            &&& m >= 0
            &&& e >= f.low
            &&& nearest(f, m, 1, e) == x % sign_bit(f)
            &&& m > 0 ==> last_place(f, log2(m) + e) == e
        }),
{
    lemma2_to64();
    lemma2_to64_rest();
    let unit = pow2(f.bits as nat) as int;
    let b = x % sign_bit(f);
    let m = parts(f, x)->Finite_1;
    let e = parts(f, x)->Finite_2;
    assert(0 <= b < f.infinity);
    vstd::arithmetic::div_mod::lemma_fundamental_div_mod(b, unit);
    if b / unit == 0 {
        assert(unit * 0 == 0);
        assert(b < unit);
        if m > 0 {
            lemma_log2_range(m);
            let k = log2(m) as nat;
            if k >= f.bits {
                if k > f.bits {
                    lemma_pow2_strictly_increases(f.bits as nat, k);
                }
            }
            assert(m / 1 == m);
            assert(last_place(f, log2(m) + e) == e);
            lemma_unit(m);
        }
    } else {
        assert(unit <= m < 2 * unit);
        lemma_log2_unique(m, f.bits as nat);
        assert(m / 1 == m);
        assert(last_place(f, log2(m) + e) == e);
        lemma_unit(m);
        assert((e - f.low) * unit + m == b) by (nonlinear_arith)
            requires
                e == b / unit - 1 + f.low,
                m == b % unit + unit,
                unit > 0,
        ;
    }
}

/// A value with a longer significand and an exponent as much lower is the same value.
proof fn lemma_scaled(f: Format, m: int, t: nat, e: int)
    requires
        known(f),
        m > 0,
        last_place(f, log2(m) + e + t) == e + t,
    ensures
        nearest(f, m * pow2(t), 1, e) == nearest(f, m, 1, e + t),
        m * pow2(t) > 0,
{
    lemma_pow2_pos(t);
    lemma_log2_range(m);
    let k = log2(m) as nat;
    lemma_pow2_adds(k, t);
    let n = m * pow2(t);
    assert(pow2(k + t) <= n < 2 * pow2(k + t)) by (nonlinear_arith)
        requires
            pow2(k) <= m < 2 * pow2(k),
            n == m * pow2(t),
            pow2(k + t) == pow2(k) * pow2(t),
            pow2(t) > 0,
    ;
    lemma_pow2_pos(k + t);
    lemma_log2_unique(n, k + t);
    assert(n / 1 == n);
    assert(m / 1 == m);
    lemma_unit(m);
    lemma_unit(n);
    if t == 0 {
        lemma2_to64();
    } else {
        vstd::arithmetic::div_mod::lemma_div_multiples_vanish(m, pow2(t) as int);
        vstd::arithmetic::div_mod::lemma_mod_multiples_basic(m, pow2(t) as int);
        assert(1 * pow2(t) == pow2(t));
        assert(m * pow2(t) == pow2(t) * m) by (nonlinear_arith);
        assert(round_div(n, pow2(t) as int) == m);
    }
}

proof fn lemma_unit(m: int)
    ensures
        round_div(m * pow2(0), 1) == m,
{
    lemma2_to64();
    assert(m % 1 == 0);
    assert(m / 1 == m);
}

proof fn lemma_sign(f: Format, x: int)
    requires
        known(f),
        0 <= x < 2 * sign_bit(f),
    ensures
        x == signed(f, x >= sign_bit(f), x % sign_bit(f)),
{
    if f.bits == 23 {
        assert(x == (if x >= 0x8000_0000 {
            0x8000_0000 + x % 0x8000_0000
        } else {
            x % 0x8000_0000
        }));
    } else {
        assert(x == (if x >= 0x8000_0000_0000_0000 {
            0x8000_0000_0000_0000 + x % 0x8000_0000_0000_0000
        } else {
            x % 0x8000_0000_0000_0000
        }));
    }
}

/// Adding the negative zero changes no value, and the zeros keep their signs.
pub proof fn law_negative_zero_is_neutral(f: Format, x: int)
    requires
        known(f),
        0 <= x < 2 * sign_bit(f),
        !(parts(f, x) is Nan),
    ensures
        sum(f, x, sign_bit(f)) == x,
{
    lemma2_to64();
    lemma2_to64_rest();
    lemma_sign(f, x);
    let zero = parts(f, sign_bit(f));
    assert(zero == Parts::Finite(true, 0, f.low as int));
    if parts(f, x) is Finite {
        let m = parts(f, x)->Finite_1;
        let e = parts(f, x)->Finite_2;
        lemma_nearest_exact(f, x);
        let s = parts(f, x)->Finite_0;
        let t = (e - f.low) as nat;
        lemma_pow2_pos(t);
        let n = exact_sum(s, m, e, true, 0, f.low as int);
        assert(0 * pow2((f.low - f.low) as nat) == 0);
        assert(n == with_sign(s, m * pow2(t)));
        if m > 0 {
            lemma_scaled(f, m, t, f.low as int);
            assert(f.low + t == e);
            assert(magnitude(n) == m * pow2(t));
            assert((n < 0) == s);
            assert(nearest(f, magnitude(n), 1, f.low as int) == x % sign_bit(f));
            assert(x == signed(f, s, x % sign_bit(f)));
            assert(sum(f, x, sign_bit(f)) == signed(
                f,
                n < 0,
                nearest(f, magnitude(n), 1, f.low as int),
            ));
        } else {
            assert(0 * pow2(t) == 0);
        }
    }
}

/// Adding the positive zero is not neutral: it turns the negative zero into the positive one.
pub proof fn law_positive_zero_is_not_neutral(f: Format)
    requires
        known(f),
    ensures
        sum(f, sign_bit(f), 0) == 0,
        sum(f, sign_bit(f), 0) != sign_bit(f),
{
    lemma2_to64();
    lemma2_to64_rest();
    assert(parts(f, sign_bit(f)) == Parts::Finite(true, 0, f.low as int));
    assert(parts(f, 0) == Parts::Finite(false, 0, f.low as int));
    assert(0 * pow2(0) == 0);
}

/// The bits of one.
pub open spec fn one_of(f: Format) -> int {
    if f.bits == 23 {
        0x3F80_0000
    } else {
        0x3FF0_0000_0000_0000
    }
}

/// Multiplying by one changes no value.
pub proof fn law_one_is_neutral(f: Format, x: int)
    requires
        known(f),
        0 <= x < 2 * sign_bit(f),
        !(parts(f, x) is Nan),
    ensures
        times(f, x, one_of(f)) == x,
{
    lemma2_to64();
    lemma2_to64_rest();
    let unit = pow2(f.bits as nat) as int;
    lemma_sign(f, x);
    if f.bits == 23 {
        assert(pow2(23) == 0x80_0000);
        assert(0x3F80_0000int / 0x80_0000 == 127);
        assert(0x3F80_0000int % 0x80_0000 == 0);
        assert(0x3F80_0000int % 0x8000_0000 == 0x3F80_0000);
    } else {
        assert(pow2(52) == 0x10_0000_0000_0000);
        assert(0x3FF0_0000_0000_0000int / 0x10_0000_0000_0000 == 1023);
        assert(0x3FF0_0000_0000_0000int % 0x10_0000_0000_0000 == 0);
        assert(0x3FF0_0000_0000_0000int % 0x8000_0000_0000_0000 == 0x3FF0_0000_0000_0000);
    }
    assert(parts(f, one_of(f)) == Parts::Finite(false, unit, -(f.bits as int)));
    if parts(f, x) is Finite {
        let m = parts(f, x)->Finite_1;
        let e = parts(f, x)->Finite_2;
        lemma_nearest_exact(f, x);
        if m > 0 {
            lemma_scaled(f, m, f.bits as nat, e - f.bits);
        } else {
            assert(0 * unit == 0);
        }
    }
}

} // verus!
