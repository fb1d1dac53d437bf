//! That the nodes which stand for an operator compute what the operator does.

use crate::converter::ops::bitwise::{bit_weight, signed_width};
use vstd::arithmetic::power2::*;
use vstd::prelude::*;

verus! {

/// The quotient rounded toward zero, which a division of integers in the graph gives.
pub open spec fn truncated_quotient(a: int, b: int) -> int {
    if a % b == 0 || (a >= 0 && b > 0) {
        a / b
    } else if a < 0 && b > 0 {
        a / b + 1
    } else if a >= 0 && b < 0 {
        -(a / (-b))
    } else {
        (-a) / (-b)
    }
}

/// The greatest integer that is not greater than a quotient.
pub open spec fn is_floor(q: int, a: int, b: int) -> bool {
    if b > 0 {
        q * b <= a < q * b + b
    } else {
        q * b + b < a <= q * b
    }
}

/// The quotient rounded toward zero, less one where the signs differ and there is a remainder, is
/// the quotient rounded down.
pub proof fn law_floor_division(a: int, b: int)
    requires
        b != 0,
    ensures
        is_floor(
            truncated_quotient(a, b) - (if (a < 0) != (b < 0) && a % b != 0 {
                1int
            } else {
                0
            }),
            a,
            b,
        ),
{
    if b > 0 {
        vstd::arithmetic::div_mod::lemma_fundamental_div_mod(a, b);
        vstd::arithmetic::div_mod::lemma_mod_bound(a, b);
        let q = a / b;
        let r = a % b;
        assert(q * b <= a < q * b + b) by (nonlinear_arith)
            requires
                a == b * q + r,
                0 <= r < b,
        ;
    } else {
        let d = -b;
        vstd::arithmetic::div_mod::lemma_fundamental_div_mod(a, d);
        vstd::arithmetic::div_mod::lemma_mod_bound(a, d);
        vstd::arithmetic::div_mod::lemma_fundamental_div_mod(-a, d);
        vstd::arithmetic::div_mod::lemma_mod_bound(-a, d);
        lemma_negative_divisor(a, b);
        if a % b == 0 {
            let q = a / b;
            assert(is_floor(q, a, b)) by (nonlinear_arith)
                requires
                    a == b * q,
                    b < 0,
                    is_floor(q, a, b) == (q * b + b < a && a <= q * b),
            ;
        } else if a >= 0 {
            let q = a / d;
            let r = a % d;
            assert(r > 0);
            let t = -q - 1;
            assert(t * b + b < a <= t * b) by (nonlinear_arith)
                requires
                    a == d * q + r,
                    0 < r < d,
                    d == -b,
                    t == -q - 1,
            ;
        } else {
            let q = (-a) / d;
            let r = (-a) % d;
            assert(q * b + b < a <= q * b) by (nonlinear_arith)
                requires
                    -a == d * q + r,
                    0 <= r < d,
                    d == -b,
            ;
        }
    }
}

proof fn lemma_negative_divisor(a: int, b: int)
    requires
        b < 0,
    ensures
        a % b == 0 <==> a % (-b) == 0,
        a % b == 0 ==> a == b * (a / b),
{
    let d = -b;
    vstd::arithmetic::div_mod::lemma_fundamental_div_mod(a, d);
    assert(a == b * (a / b) + a % b) by (nonlinear_arith)
        requires
            b != 0,
    ;
    assert(0 <= a % b < d) by (nonlinear_arith)
        requires
            b < 0,
            d == -b,
    ;
    let q = a / b;
    let r = a % b;
    assert(a == d * (-q) + r) by (nonlinear_arith)
        requires
            a == b * q + r,
            d == -b,
    ;
    vstd::arithmetic::div_mod::lemma_fundamental_div_mod_converse(a, d, -q, r);
}

/// The complement of a signed integer is the negative of its successor.
pub proof fn law_complement(x: i64)
    ensures
        !x == -(x + 1),
{
    assert(!x == -1 - x) by (bit_vector);
}

/// What is left of an operand when `k` bits have been taken off: the remainder by two is
/// subtracted and the rest divided by two, so many times.
pub open spec fn left_of(a: int, k: nat) -> int
    decreases k,
{
    if k == 0 {
        a
    } else {
        let before = left_of(a, (k - 1) as nat);
        (before - before % 2) / 2
    }
}

/// The bit that is taken off next.
pub open spec fn bit_of(a: int, k: nat) -> int {
    left_of(a, k) % 2
}

/// The sum of the first `k` weighted bits of a conjunction, as the graph computes it.
pub open spec fn conjunction_sum(a: int, b: int, width: int, k: nat) -> int
    decreases k,
{
    if k == 0 {
        0
    } else {
        let bit = (k - 1) as nat;
        conjunction_sum(a, b, width, bit) + bit_of(a, bit) * bit_of(b, bit) * bit_weight(bit, width)
    }
}

proof fn lemma_left_step(a: int, k: nat)
    ensures
        left_of(a, k) == left_of(left_of(a, 1), (k - 1) as nat) || k == 0,
    decreases k,
{
    reveal_with_fuel(left_of, 2);
    if k > 1 {
        lemma_left_step(a, (k - 1) as nat);
    }
}

proof fn lemma_halves(a: i64, b: i64)
    ensures
        (a >> 1u64) == (a as int - a as int % 2) / 2,
        (a & b) as int % 2 == (a as int % 2) * (b as int % 2),
        ((a & b) >> 1u64) == (a >> 1u64) & (b >> 1u64),
{
    lemma_half(a);
    lemma_half(b);
    lemma_half(a & b);
    assert(((a & b) >> 1u64) == (a >> 1u64) & (b >> 1u64)) by (bit_vector);
    assert(((a & b) & 1) == (a & 1) & (b & 1)) by (bit_vector);
    let p = a & 1;
    let q = b & 1;
    assert(p == 0 || p == 1);
    assert(q == 0 || q == 1);
    assert(p & q == (if p == 1 && q == 1 {
        1i64
    } else {
        0i64
    })) by (bit_vector)
        requires
            p == 0 || p == 1,
            q == 0 || q == 1,
    ;
    assert(p * q == (if p == 1 && q == 1 {
        1int
    } else {
        0
    })) by (nonlinear_arith)
        requires
            p == 0 || p == 1,
            q == 0 || q == 1,
    ;
}

proof fn lemma_half(a: i64)
    ensures
        (a & 1) == a as int % 2,
        (a >> 1u64) == (a as int - a as int % 2) / 2,
{
    let h = a >> 1u64;
    let r = a & 1;
    assert(r == 0 || r == 1) by (bit_vector)
        requires
            r == a & 1,
    ;
    assert(-0x4000_0000_0000_0000 <= h <= 0x3FFF_FFFF_FFFF_FFFF) by (bit_vector)
        requires
            h == a >> 1u64,
    ;
    assert(a == h + h + r) by (bit_vector)
        requires
            h == a >> 1u64,
            r == a & 1,
    ;
}

/// The bits of a conjunction are the products of the bits.
proof fn lemma_conjunction_bits(a: i64, b: i64, k: nat)
    ensures
        bit_of((a & b) as int, k) == bit_of(a as int, k) * bit_of(b as int, k),
    decreases k,
{
    lemma_halves(a, b);
    if k > 0 {
        let x = a >> 1u64;
        let y = b >> 1u64;
        lemma_half(a);
        lemma_half(b);
        lemma_half(a & b);
        reveal_with_fuel(left_of, 2);
        lemma_conjunction_bits(x, y, (k - 1) as nat);
        lemma_left_step(a as int, k);
        lemma_left_step(b as int, k);
        lemma_left_step((a & b) as int, k);
    }
}

/// A number is the sum of its first bits, weighted, and what is left.
proof fn lemma_bits_and_rest(c: int, width: int, k: nat)
    requires
        k < width,
    ensures
        weighted_bits(c, width, k) + pow2(k) * left_of(c, k) == c,
    decreases k,
{
    if k == 0 {
        lemma2_to64();
    } else {
        let j = (k - 1) as nat;
        lemma_bits_and_rest(c, width, j);
        lemma_pow2_unfold(k);
        let l = left_of(c, j);
        let h = left_of(c, k);
        assert(l == 2 * h + l % 2);
        let p = pow2(j) as int;
        assert(p * l == p * (l % 2) + (2 * p) * h) by (nonlinear_arith)
            requires
                l == 2 * h + l % 2,
        ;
        assert(bit_of(c, j) * bit_weight(j, width) == p * (l % 2)) by (nonlinear_arith)
            requires
                bit_weight(j, width) == p,
                bit_of(c, j) == l % 2,
        ;
    }
}

/// The sum of the first `k` weighted bits of a number.
spec fn weighted_bits(c: int, width: int, k: nat) -> int
    decreases k,
{
    if k == 0 {
        0
    } else {
        let bit = (k - 1) as nat;
        weighted_bits(c, width, bit) + bit_of(c, bit) * bit_weight(bit, width)
    }
}

proof fn lemma_left_bound(c: int, k: nat, n: nat)
    requires
        -(pow2((k + n) as nat) as int) <= c < pow2((k + n) as nat),
    ensures
        -(pow2(n) as int) <= left_of(c, k) < pow2(n),
    decreases k,
{
    if k > 0 {
        lemma_pow2_unfold((k + n) as nat);
        assert((k - 1) as nat + (n + 1) as nat == k + n);
        lemma_left_bound(c, (k - 1) as nat, n + 1);
        lemma_pow2_unfold((n + 1) as nat);
    }
}

proof fn lemma_conjunction_sum(a: i64, b: i64, width: int, k: nat)
    ensures
        conjunction_sum(a as int, b as int, width, k) == weighted_bits((a & b) as int, width, k),
    decreases k,
{
    if k > 0 {
        lemma_conjunction_sum(a, b, width, (k - 1) as nat);
        lemma_conjunction_bits(a, b, (k - 1) as nat);
    }
}

/// The sum of the weighted products of the bits of two signed integers of a type is their
/// conjunction.
pub proof fn law_conjunction_by_bits(a: i64, b: i64, dtype: i32)
    requires
        signed_width(dtype) is Some,
        -(pow2((signed_width(dtype)->0 - 1) as nat) as int) <= a < pow2(
            (signed_width(dtype)->0 - 1) as nat,
        ),
        -(pow2((signed_width(dtype)->0 - 1) as nat) as int) <= b < pow2(
            (signed_width(dtype)->0 - 1) as nat,
        ),
    ensures
        conjunction_sum(
            a as int,
            b as int,
            signed_width(dtype)->0,
            signed_width(dtype)->0 as nat,
        ) == a & b,
{
    let width = signed_width(dtype)->0;
    let last = (width - 1) as nat;
    let c = a & b;
    lemma2_to64();
    lemma2_to64_rest();
    assert(pow2(0) == 1);
    lemma_conjunction_sum(a, b, width, width as nat);
    lemma_conjunction_in_range(a, b, width);
    lemma_left_bound(c as int, last, 0);
    lemma_bits_and_rest(c as int, width, last);
    let l = left_of(c as int, last);
    assert(l == 0 || l == -1);
    assert(bit_of(c as int, last) == -l);
    let p = pow2(last) as int;
    assert((-l) * (-p) == p * l) by (nonlinear_arith);
}

proof fn lemma_conjunction_in_range(a: i64, b: i64, width: int)
    requires
        width == 8 || width == 16 || width == 32 || width == 64,
        -(pow2((width - 1) as nat) as int) <= a < pow2((width - 1) as nat),
        -(pow2((width - 1) as nat) as int) <= b < pow2((width - 1) as nat),
    ensures
        -(pow2((width - 1) as nat) as int) <= (a & b) < pow2((width - 1) as nat),
{
    lemma2_to64();
    lemma2_to64_rest();
    let c = a & b;
    if width == 8 {
        assert(-0x80 <= c < 0x80) by (bit_vector)
            requires
                c == a & b,
                -0x80 <= a < 0x80,
                -0x80 <= b < 0x80,
        ;
    } else if width == 16 {
        assert(-0x8000 <= c < 0x8000) by (bit_vector)
            requires
                c == a & b,
                -0x8000 <= a < 0x8000,
                -0x8000 <= b < 0x8000,
        ;
    } else if width == 32 {
        assert(-0x8000_0000 <= c < 0x8000_0000) by (bit_vector)
            requires
                c == a & b,
                -0x8000_0000 <= a < 0x8000_0000,
                -0x8000_0000 <= b < 0x8000_0000,
        ;
    }
}

} // verus!
