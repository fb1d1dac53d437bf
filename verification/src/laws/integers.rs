//! What the nodes that stand for operators on integers compute, in integers.

use crate::converter::emit::{numbers_added, scalars_bytes};
use crate::converter::ops::bitwise::{
    bit_added, bit_name, bit_weight, bits_added, bits_sum, bitwise_and_lowered, bitwise_not_lowered,
    operand_left, signed_type, signed_width,
};
use crate::converter::ops::math::{floor_divide_lowered, integer_type, output_elem};
use crate::converter::state::{dtype_for, tensor_name, Meta};
use crate::dtype::{elem_type_named, BOOL, FLOAT, INT64};
use crate::float::{ONE, ZERO};
use crate::helper::{input_ids, or_default, out_id};
use crate::json::JsonView;
use crate::laws::computing::{
    bit_of, conjunction_sum, is_floor, law_complement, law_conjunction_by_bits, law_floor_division,
    left_of, truncated_quotient,
};
use crate::laws::meaning::{group_runs, input_of, lemma_names, output_of, ran, runs, Values, World};
use crate::onnx::Graph;
use crate::text::tagged;
use vstd::arithmetic::power2::pow2;
use vstd::prelude::*;

verus! {

/// One for true and zero for false.
pub open spec fn as_number(b: bool) -> int {
    if b {
        1
    } else {
        0
    }
}

/// Whether operators on integers and truth values mean what their names say, at each position of
/// the values: a division rounds toward zero, and a remainder has the sign of the divisor.
pub open spec fn whole_arithmetic(w: World<int>) -> bool {
    &&& forall|a: int, b: int| #[trigger] w.of2("Add"@, a, b) == a + b
    &&& forall|a: int, b: int| #[trigger] w.of2("Sub"@, a, b) == a - b
    &&& forall|a: int, b: int| #[trigger] w.of2("Mul"@, a, b) == a * b
    &&& forall|a: int, b: int| b != 0 ==> #[trigger] w.of2("Div"@, a, b) == truncated_quotient(a, b)
    &&& forall|a: int, b: int|
        b != 0 ==> (#[trigger] remainder(w, a, b) == 0 <==> a % b == 0)
    &&& forall|a: int, b: int| b > 0 ==> #[trigger] remainder(w, a, b) == a % b
    &&& forall|a: int, b: int| #[trigger] w.of2("Less"@, a, b) == as_number(a < b)
    &&& forall|a: int, b: int| #[trigger] w.of2("Equal"@, a, b) == as_number(a == b)
    &&& forall|a: bool, b: bool| #[trigger] of_truths(w, "Xor"@, a, b) == as_number(a != b)
    &&& forall|a: bool, b: bool| #[trigger] of_truths(w, "And"@, a, b) == as_number(a && b)
    &&& forall|a: bool| #[trigger] of_truth(w, "Not"@, a) == as_number(!a)
    &&& forall|a: int| #[trigger] w.of1("Neg"@, a) == -a
    &&& forall|a: int| #[trigger] w.of1("Identity"@, a) == a
    &&& forall|a: int, to: int| #[trigger] w.cast(a, to) == a
    &&& forall|i: i64| #[trigger] w.ints(Seq::empty(), seq![i]) == i
    &&& forall|dtype: i32|
        encodes(0, dtype) ==> #[trigger] w.numbers(Seq::empty(), dtype, seq![0u64]) == 0
    &&& forall|dtype: i32|
        encodes(0x3FF0_0000_0000_0000, dtype) ==> #[trigger] w.numbers(
            Seq::empty(),
            dtype,
            seq![0x3FF0_0000_0000_0000u64],
        ) == 1
}

/// Whether a number can be an element of a type.
pub open spec fn encodes(v: u64, dtype: i32) -> bool {
    scalars_bytes(seq![v], dtype, 1) is Ok
}

/// What an operator makes of two truth values.
pub open spec fn of_truths(w: World<int>, op: Seq<char>, a: bool, b: bool) -> int {
    w.of2(op, as_number(a), as_number(b))
}

/// What an operator makes of a truth value.
pub open spec fn of_truth(w: World<int>, op: Seq<char>, a: bool) -> int {
    w.of1(op, as_number(a))
}

/// What a `Mod` of integers yields.
pub open spec fn remainder(w: World<int>, a: int, b: int) -> int {
    w.with_int("Mod"@, seq![a, b], "fmod"@, 0)
}

/// What is computed for a quotient rounded down.
spec fn floor_nodes<V>(w: World<V>, a: V, b: V, zero: V, one: V, dtype: int) -> V {
    let differ = w.of2("Xor"@, w.of2("Less"@, a, zero), w.of2("Less"@, b, zero));
    let rest = w.with_int("Mod"@, seq![a, b], "fmod"@, 0);
    let inexact = w.of1("Not"@, w.of2("Equal"@, rest, zero));
    let amount = w.cast(w.of2("And"@, differ, inexact), dtype);
    w.of2("Sub"@, w.of2("Div"@, a, b), w.of2("Mul"@, amount, one))
}

proof fn lemma_floor_nodes<V>(w: World<V>, env: Values<V>, m: Meta, g: Graph, op: JsonView)
    requires
        ran(w, env, floor_divide_lowered(m, g, op)),
        integer_type(dtype_for(m, input_ids(op)[0])->Ok_0),
        integer_type(dtype_for(m, input_ids(op)[1])->Ok_0),
    ensures
        ({
            let dtype = or_default(elem_type_named(or_default(output_elem(op), "0.t_i64"@)), INT64);
            output_of(m, env, op) == floor_nodes(
                w,
                input_of(m, env, op, 0),
                input_of(m, env, op, 1),
                w.numbers(Seq::empty(), dtype, seq![ZERO]),
                w.numbers(Seq::empty(), dtype, seq![ONE]),
                dtype as int,
            ) && encodes(ZERO, dtype) && encodes(ONE, dtype)
        }),
{
    broadcast use group_runs;

    reveal(numbers_added);

    lemma_names(m, input_ids(op), 2);
}

proof fn lemma_floor(w: World<int>, a: int, b: int, dtype: int)
    requires
        whole_arithmetic(w),
        b != 0,
    ensures
        is_floor(floor_nodes(w, a, b, 0, 1, dtype), a, b),
{
    law_floor_division(a, b);
    let rest = remainder(w, a, b);
    let (p, q) = (as_number(a < 0), as_number(b < 0));
    assert(w.of2("Less"@, a, 0) == p && w.of2("Less"@, b, 0) == q);
    let differ = as_number((a < 0) != (b < 0));
    assert(of_truths(w, "Xor"@, a < 0, b < 0) == differ);
    let exact = as_number(rest == 0);
    assert(w.of2("Equal"@, rest, 0) == exact);
    let inexact = as_number(!(rest == 0));
    assert(of_truth(w, "Not"@, rest == 0) == inexact);
    let both = as_number((a < 0) != (b < 0) && !(rest == 0));
    assert(of_truths(w, "And"@, (a < 0) != (b < 0), !(rest == 0)) == both);
    assert(rest == 0 <==> a % b == 0);
    assert(both * 1 == both);
}

/// `floor_divide` of integers is the quotient rounded down.
pub proof fn law_floor_divide(w: World<int>, env: Values<int>, m: Meta, g: Graph, op: JsonView)
    requires
        whole_arithmetic(w),
        ran(w, env, floor_divide_lowered(m, g, op)),
        integer_type(dtype_for(m, input_ids(op)[0])->Ok_0),
        integer_type(dtype_for(m, input_ids(op)[1])->Ok_0),
        input_of(m, env, op, 1) != 0,
    ensures
        is_floor(output_of(m, env, op), input_of(m, env, op, 0), input_of(m, env, op, 1)),
{
    lemma_floor_nodes(w, env, m, g, op);
    let dtype = or_default(elem_type_named(or_default(output_elem(op), "0.t_i64"@)), INT64);
    assert(w.numbers(Seq::empty(), dtype, seq![0u64]) == 0);
    assert(w.numbers(Seq::empty(), dtype, seq![0x3FF0_0000_0000_0000u64]) == 1);
    lemma_floor(w, input_of(m, env, op, 0), input_of(m, env, op, 1), dtype as int);
}

/// `floor_divide` of other numbers is the quotient in `FLOAT`, rounded down.
pub proof fn law_floor_divide_singles<V>(
    w: World<V>,
    env: Values<V>,
    m: Meta,
    g: Graph,
    op: JsonView,
)
    requires
        ran(w, env, floor_divide_lowered(m, g, op)),
        !(integer_type(dtype_for(m, input_ids(op)[0])->Ok_0) && integer_type(
            dtype_for(m, input_ids(op)[1])->Ok_0,
        )),
    ensures
        output_of(m, env, op) == w.cast(
            w.of1(
                "Floor"@,
                w.of2(
                    "Div"@,
                    w.cast(input_of(m, env, op, 0), FLOAT as int),
                    w.cast(input_of(m, env, op, 1), FLOAT as int),
                ),
            ),
            or_default(elem_type_named(or_default(output_elem(op), "0.t_i64"@)), INT64) as int,
        ),
{
    broadcast use group_runs;

    lemma_names(m, input_ids(op), 2);
}

/// `bitwise_not` of a signed integer is its complement, also where there is no operator for it.
pub proof fn law_bitwise_not(w: World<int>, env: Values<int>, m: Meta, g: Graph, op: JsonView, x: i64)
    requires
        whole_arithmetic(w),
        ran(w, env, bitwise_not_lowered(m, g, op)),
        signed_type(dtype_for(m, input_ids(op)[0])->Ok_0),
        m.target_opset < 18,
        input_of(m, env, op, 0) == x,
    ensures
        output_of(m, env, op) == !x,
{
    broadcast use group_runs;

    law_complement(x);
    reveal(numbers_added);
    let dtype = dtype_for(m, input_ids(op)[0])->Ok_0;
    assert(w.numbers(Seq::empty(), dtype, seq![0x3FF0_0000_0000_0000u64]) == 1);
}

/// In all other cases `bitwise_not` is by the operator for it: `Not` for truth values, and
/// `BitwiseNot` for integers.
pub proof fn law_bitwise_not_by_operator<V>(
    w: World<V>,
    env: Values<V>,
    m: Meta,
    g: Graph,
    op: JsonView,
)
    requires
        ran(w, env, bitwise_not_lowered(m, g, op)),
        m.target_opset >= 18 || !signed_type(dtype_for(m, input_ids(op)[0])->Ok_0),
    ensures
        output_of(m, env, op) == w.of1(
            if dtype_for(m, input_ids(op)[0])->Ok_0 == BOOL {
                "Not"@
            } else {
                "BitwiseNot"@
            },
            input_of(m, env, op, 0),
        ),
{
    broadcast use group_runs;

}

proof fn lemma_bits(
    w: World<int>,
    env: Values<int>,
    g: Graph,
    prefix: Seq<char>,
    lhs: Seq<char>,
    rhs: Seq<char>,
    width: int,
    k: nat,
)
    requires
        whole_arithmetic(w),
        w.any_opset(),
        0 < k <= width <= 64,
        env(prefix + "_two"@) == 2,
        runs(w, env, bits_added(g, prefix, lhs, rhs, width, k)),
    ensures
        runs(w, env, g),
        env(bits_sum(prefix, k)) == conjunction_sum(env(lhs), env(rhs), width, k),
        k < width ==> env(operand_left(prefix, "_lhs_shifted_"@, lhs, k)) == left_of(env(lhs), k),
        k < width ==> env(operand_left(prefix, "_rhs_shifted_"@, rhs, k)) == left_of(env(rhs), k),
    decreases k,
{
    broadcast use group_runs;

    reveal(bit_added);
    let bit = (k - 1) as nat;
    let two = prefix + "_two"@;
    let h = bits_added(g, prefix, lhs, rhs, width, bit);
    let a = operand_left(prefix, "_lhs_shifted_"@, lhs, bit);
    let b = operand_left(prefix, "_rhs_shifted_"@, rhs, bit);
    assert(runs(w, env, bit_added(h, prefix, a, b, width, bit)));
    let lhs_bit = bit_name(prefix, "_lhs_bit_"@, bit as int);
    let rhs_bit = bit_name(prefix, "_rhs_bit_"@, bit as int);
    let weight = bit_name(prefix, "_weight_"@, bit as int);
    let weighted = bit_name(prefix, "_weighted_"@, bit as int);
    assert(runs(w, env, h));
    if bit > 0 {
        lemma_bits(w, env, g, prefix, lhs, rhs, width, bit);
    } else {
        assert(h == g);
    }
    assert(env(a) == left_of(env(lhs), bit));
    assert(env(b) == left_of(env(rhs), bit));
    assert(env(lhs_bit) == remainder(w, env(a), 2));
    assert(env(rhs_bit) == remainder(w, env(b), 2));
    assert(env(lhs_bit) == bit_of(env(lhs), bit));
    assert(env(rhs_bit) == bit_of(env(rhs), bit));
    lemma_weight(bit, width);
    let v = bit_weight(bit, width) as i64;
    assert(w.ints(Seq::empty(), seq![v]) == v);
    assert(env(weight) == bit_weight(bit, width));
    assert(env(weighted) == (env(lhs_bit) * env(rhs_bit)) * bit_weight(bit, width));
    let (p, q) = (env(lhs), env(rhs));
    assert(conjunction_sum(p, q, width, k) == conjunction_sum(p, q, width, bit) + bit_of(p, bit)
        * bit_of(q, bit) * bit_weight(bit, width));
    if bit == 0 {
        assert(conjunction_sum(p, q, width, 0) == 0);
        assert(bits_sum(prefix, k) == weighted);
    } else {
        assert(bits_sum(prefix, k) == bit_name(prefix, "_acc_"@, bit as int));
        assert(env(bits_sum(prefix, k)) == env(bits_sum(prefix, bit)) + env(weighted));
    }
    if k < width {
        let la = env(a) - env(a) % 2;
        let lb = env(b) - env(b) % 2;
        lemma_halved(env(a));
        lemma_halved(env(b));
        assert(truncated_quotient(la, 2) == la / 2);
        assert(truncated_quotient(lb, 2) == lb / 2);
    }
}

proof fn lemma_halved(a: int)
    ensures
        truncated_quotient(a - a % 2, 2) == (a - a % 2) / 2,
{
}

proof fn lemma_weight(bit: nat, width: int)
    requires
        bit < width <= 64,
    ensures
        i64::MIN <= bit_weight(bit, width) <= i64::MAX,
        bit == 63 ==> width == 64,
{
    vstd::arithmetic::power2::lemma2_to64();
    vstd::arithmetic::power2::lemma2_to64_rest();
    if bit < 63 {
        vstd::arithmetic::power2::lemma_pow2_strictly_increases(bit, 63);
    }
}

/// `bitwise_and` of signed integers is their conjunction, also where there is no operator for it.
pub proof fn law_bitwise_and(
    w: World<int>,
    env: Values<int>,
    m: Meta,
    g: Graph,
    op: JsonView,
    a: i64,
    b: i64,
)
    requires
        whole_arithmetic(w),
        ran(w, env, bitwise_and_lowered(m, g, op)),
        m.target_opset < 18,
        input_of(m, env, op, 0) == a,
        input_of(m, env, op, 1) == b,
        ({
            let dtype = dtype_for(m, input_ids(op)[0])->Ok_0;
            let half = pow2((signed_width(dtype)->0 - 1) as nat) as int;
            signed_type(dtype) && -half <= a < half && -half <= b < half
        }),
    ensures
        output_of(m, env, op) == a & b,
{
    broadcast use group_runs;

    lemma_names(m, input_ids(op), 2);
    let ins = input_ids(op);
    let id = out_id(op)->Ok_0;
    let dtype = dtype_for(m, ins[0])->Ok_0;
    let width = signed_width(dtype)->0;
    let prefix = tagged("bitwise_and_signed_"@, id);
    let x = tensor_name(m, ins[0])->Ok_0;
    let y = tensor_name(m, ins[1])->Ok_0;
    assert(w.ints(Seq::empty(), seq![2i64]) == 2);
    let g1 = crate::converter::emit::ints_added(g, prefix + "_zero"@, Seq::empty(), seq![0i64]);
    let g2 = crate::converter::emit::ints_added(g1, prefix + "_two"@, Seq::empty(), seq![2i64]);
    law_conjunction_by_bits(a, b, dtype);
    if dtype == INT64 {
        let h = bits_added(g2, prefix, x, y, width, width as nat);
        assert(runs(w, env, h));
        lemma_bits_runs(w, env, g2, prefix, x, y, width, width as nat);
        assert(env(prefix + "_two"@) == 2);
        lemma_bits(w, env, g2, prefix, x, y, width, width as nat);
    } else {
        let p = prefix + "_lhs_i64"@;
        let q = prefix + "_rhs_i64"@;
        let g3 = crate::converter::emit::cast_added(g2, x, p, INT64);
        let g4 = crate::converter::emit::cast_added(g3, y, q, INT64);
        let h = bits_added(g4, prefix, p, q, width, width as nat);
        assert(runs(w, env, h));
        lemma_bits_runs(w, env, g4, prefix, p, q, width, width as nat);
        assert(env(prefix + "_two"@) == 2);
        lemma_bits(w, env, g4, prefix, p, q, width, width as nat);
    }
}

proof fn lemma_bits_runs(
    w: World<int>,
    env: Values<int>,
    g: Graph,
    prefix: Seq<char>,
    lhs: Seq<char>,
    rhs: Seq<char>,
    width: int,
    k: nat,
)
    requires
        runs(w, env, bits_added(g, prefix, lhs, rhs, width, k)),
    ensures
        runs(w, env, g),
    decreases k,
{
    broadcast use group_runs;

    reveal(bit_added);
    if k > 0 {
        let bit = (k - 1) as nat;
        let h = bits_added(g, prefix, lhs, rhs, width, bit);
        let a = operand_left(prefix, "_lhs_shifted_"@, lhs, bit);
        let b = operand_left(prefix, "_rhs_shifted_"@, rhs, bit);
        assert(runs(w, env, bit_added(h, prefix, a, b, width, bit)));
        lemma_bits_runs(w, env, g, prefix, lhs, rhs, width, bit);
    }
}

/// In all other cases `bitwise_and` is by the operator for it: `And` for truth values, and
/// `BitwiseAnd` for integers.
pub proof fn law_bitwise_and_by_operator<V>(
    w: World<V>,
    env: Values<V>,
    m: Meta,
    g: Graph,
    op: JsonView,
)
    requires
        ran(w, env, bitwise_and_lowered(m, g, op)),
        m.target_opset >= 18 || !signed_type(dtype_for(m, input_ids(op)[0])->Ok_0),
    ensures
        output_of(m, env, op) == w.of2(
            if dtype_for(m, input_ids(op)[0])->Ok_0 == BOOL {
                "And"@
            } else {
                "BitwiseAnd"@
            },
            input_of(m, env, op, 0),
            input_of(m, env, op, 1),
        ),
{
    broadcast use group_runs;

    lemma_names(m, input_ids(op), 2);
}

} // verus!
