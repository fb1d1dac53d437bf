//! What the nodes that stand for arithmetic operators and activations compute, in real numbers.

use crate::converter::ops::common::{has_shape, has_type, shape_or_empty};
use crate::converter::ops::math::{
    gelu_lowered, hardswish_lowered, last_sized, leak, leaky_relu_lowered, linear_lowered,
    multiply_lowered, pow_lowered, prelu_lowered, scale_added, scale_bytes, scale_dims,
    scale_lowered, swish_lowered,
};
use crate::converter::state::{dtype_if_known, tensor_name, Meta};
use crate::dtype::FLOAT;
use crate::float::{narrow, ONE};
use crate::helper::{
    attr_bool_of, attr_chars_of, attr_float_of, attr_number_of, input_ids, or_default, out_id,
};
use crate::json::JsonView;
use crate::laws::meaning::{
    group_runs, input_of, lemma_names, lemma_node_output, output_of, ran, runs, seen, Values, World,
};
use crate::onnx::{float_attribute, node_of, tensor_of, Graph, Tensor};
use crate::text::tagged;
use vstd::prelude::*;

verus! {

/// A power of two.
pub open spec fn power_of_two(k: nat) -> int
    decreases k,
{
    if k == 0 {
        1
    } else {
        2 * power_of_two((k - 1) as nat)
    }
}

/// The number that the bits of a positive `binary32` value below two to the 24th encode.
pub open spec fn single_number(b: u32) -> real {
    let exponent = (b as int / 0x80_0000) % 0x100;
    let significand = b as int % 0x80_0000 + 0x80_0000;
    (significand as real) / (power_of_two((150 - exponent) as nat) as real)
}

/// Whether operators on numbers mean what their names say, at each position of the values, and
/// constants of one `FLOAT` element stand for that element.
pub open spec fn arithmetic(w: World<real>) -> bool {
    &&& forall|a: real, b: real| #[trigger] w.of2("Add"@, a, b) == a + b
    &&& forall|a: real, b: real| #[trigger] w.of2("Sub"@, a, b) == a - b
    &&& forall|a: real, b: real| #[trigger] w.of2("Mul"@, a, b) == a * b
    &&& forall|a: real, b: real| b != 0real ==> #[trigger] w.of2("Div"@, a, b) == a / b
    &&& forall|b: u32| #[trigger] w.singles(seq![1i64], seq![b]) == single_number(b)
}

/// Whether a number lies within a ten-millionth of `n / d`.
pub open spec fn about(x: real, n: real, d: real) -> bool {
    let off = x * d - n;
    -d < 10000000real * off < d
}

/// Whether `gelu` is asked for by its approximation with the hyperbolic tangent.
pub open spec fn by_tanh(op: JsonView) -> bool {
    attr_bool_of(op, "approximate"@) == Some(true) || attr_chars_of(op, "approximate"@) == Some(
        "tanh"@,
    )
}

/// `x / 2 * (1 + tanh(r * (x + c * x^3)))`, whatever function stands for the hyperbolic tangent.
pub open spec fn gelu_tanh(w: World<real>, x: real, r: real, c: real) -> real {
    x / 2real * (1real + w.of1("Tanh"@, r * (x + c * (x * x * x))))
}

/// `gelu` by the hyperbolic tangent is `x / 2 * (1 + tanh(r * (x + c * x^3)))` with `r` the root of
/// two over pi and `c = 0.044715`.
pub proof fn law_gelu_by_tanh(w: World<real>, env: Values<real>, m: Meta, g: Graph, op: JsonView)
    requires
        arithmetic(w),
        by_tanh(op),
        ran(w, env, gelu_lowered(m, g, op)),
    ensures
        exists|r: real, c: real|
            about(r, 797884561real, 1000000000real) && about(c, 44715real, 1000000real) && output_of(m, env, op)
                == #[trigger] gelu_tanh(w, input_of(m, env, op, 0), r, c),
{
    broadcast use group_runs;

    let x = input_of(m, env, op, 0);
    let r = single_number(0x3F4C_422A);
    let c = single_number(0x3D37_2713);
    lemma_half();
    lemma_one();
    lemma_root_two_over_pi();
    lemma_coefficient();
    assert(w.singles(seq![1i64], seq![0x3F4C_422Au32]) == r);
    assert(w.singles(seq![1i64], seq![0x3D37_2713u32]) == c);
    assert(w.singles(seq![1i64], seq![0x3F80_0000u32]) == 1real);
    assert(w.singles(seq![1i64], seq![0x3F00_0000u32]) == 1real / 2real);
    let t = w.of1("Tanh"@, (x + (x * x * x) * c) * r);
    assert((x + (x * x * x) * c) * r == r * (x + c * (x * x * x))) by (nonlinear_arith);
    assert(output_of(m, env, op) == (x * (1real / 2real)) * (t + 1real));
    assert((x * (1real / 2real)) * (t + 1real) == x / 2real * (1real + t)) by (nonlinear_arith);
    assert(output_of(m, env, op) == gelu_tanh(w, x, r, c));
}

/// `x / 2 * (1 + erf(x / r))`, whatever function stands for the error function.
pub open spec fn gelu_erf(w: World<real>, x: real, r: real) -> real {
    x / 2real * (1real + w.of1("Erf"@, x / r))
}

/// `gelu` is `x / 2 * (1 + erf(x / r))` with `r` the root of two, where no approximation is asked
/// for.
pub proof fn law_gelu_by_erf(w: World<real>, env: Values<real>, m: Meta, g: Graph, op: JsonView)
    requires
        arithmetic(w),
        !by_tanh(op),
        ran(w, env, gelu_lowered(m, g, op)),
    ensures
        exists|r: real|
            about(r, 1414213562real, 1000000000real) && output_of(m, env, op) == #[trigger] gelu_erf(
                w,
                input_of(m, env, op, 0),
                r,
            ),
{
    broadcast use group_runs;

    let x = input_of(m, env, op, 0);
    let r = single_number(0x3FB5_04F3);
    lemma_half();
    lemma_one();
    lemma_root_two();
    assert(w.singles(seq![1i64], seq![0x3FB5_04F3u32]) == r);
    assert(w.singles(seq![1i64], seq![0x3F80_0000u32]) == 1real);
    assert(w.singles(seq![1i64], seq![0x3F00_0000u32]) == 1real / 2real);
    let t = w.of1("Erf"@, x / r);
    assert(w.of2("Div"@, x, r) == x / r);
    assert(output_of(m, env, op) == (x * (1real / 2real)) * (t + 1real));
    assert((x * (1real / 2real)) * (t + 1real) == x / 2real * (1real + t)) by (nonlinear_arith);
    assert(output_of(m, env, op) == gelu_erf(w, x, r));
}

/// `swish` is `x * sigmoid(x)`, whatever function stands for the sigmoid.
pub proof fn law_swish(w: World<real>, env: Values<real>, m: Meta, g: Graph, op: JsonView)
    requires
        arithmetic(w),
        ran(w, env, swish_lowered(m, g, op)),
    ensures
        output_of(m, env, op) == input_of(m, env, op, 0) * w.of1(
            "Sigmoid"@,
            input_of(m, env, op, 0),
        ),
{
    broadcast use group_runs;

}

/// Whether `HardSigmoid` is a line of the given slope and offset, cut off at zero and one.
pub open spec fn hard_sigmoid(w: World<real>) -> bool {
    forall|x: real, alpha: u32, beta: u32| #[trigger]
        hard_sigmoid_of(w, x, alpha, beta) == cut_off(
            single_number(alpha) * x + single_number(beta),
        )
}

/// What `HardSigmoid` yields.
pub open spec fn hard_sigmoid_of(w: World<real>, x: real, alpha: u32, beta: u32) -> real {
    (w.apply)(
        "HardSigmoid"@,
        seq![x],
        seq![float_attribute("alpha"@, alpha), float_attribute("beta"@, beta)],
        0,
    )
}

/// A number cut off at zero and one.
pub open spec fn cut_off(x: real) -> real {
    if x < 0real {
        0real
    } else if x > 1real {
        1real
    } else {
        x
    }
}

/// Before there is an operator for it, `hardswish` is `x` times a line cut off at zero and one:
/// `x * cut(x / 6 + 1 / 2)`.
pub proof fn law_hardswish(w: World<real>, env: Values<real>, m: Meta, g: Graph, op: JsonView)
    requires
        arithmetic(w),
        hard_sigmoid(w),
        m.target_opset < 14,
        ran(w, env, hardswish_lowered(m, g, op)),
    ensures
        exists|sixth: real|
            about(sixth, 1666666667real, 10000000000real) && output_of(m, env, op) == input_of(
                m,
                env,
                op,
                0,
            ) * #[trigger] cut_off(sixth * input_of(m, env, op, 0) + 1real / 2real),
{
    broadcast use group_runs;

    let x = input_of(m, env, op, 0);
    let id = out_id(op)->Ok_0;
    let input = tensor_name(m, input_ids(op)[0])->Ok_0;
    let gate = tagged("hardswish_hardsigmoid_"@, id);
    let n = node_of("HardSigmoid"@, seq![input], seq![gate]).with(
        float_attribute("alpha"@, 0x3E2A_AAAB),
    ).with(float_attribute("beta"@, 0x3F00_0000));
    assert(n.output[0] == gate);
    lemma_node_output(w, env, n);
    assert(seen(env, n.input) =~= seq![x]);
    assert(n.attribute =~= seq![
        float_attribute("alpha"@, 0x3E2A_AAAB),
        float_attribute("beta"@, 0x3F00_0000),
    ]);
    assert(env(gate) == hard_sigmoid_of(w, x, 0x3E2A_AAAB, 0x3F00_0000));
    lemma_half();
    lemma_sixth();
    let sixth = single_number(0x3E2A_AAAB);
    assert(env(gate) == cut_off(sixth * x + 1real / 2real));
}

broadcast proof fn lemma_run_scale<V>(
    w: World<V>,
    env: Values<V>,
    g: Graph,
    name: Seq<char>,
    dims: Seq<i64>,
    data_type: i32,
    v: u64,
)
    requires
        #[trigger] runs(w, env, scale_added(g, name, dims, data_type, v).0),
    ensures
        runs(w, env, g),
        scale_added(g, name, dims, data_type, v).1 is Ok ==> env(name) == (w.constant)(
            Tensor {
                raw_data: scale_bytes(v, data_type)->Ok_0,
                ..tensor_of(Seq::empty(), dims, data_type)
            },
        ),
{
    broadcast use group_runs;

    reveal(scale_added);
}

/// The constant that `scale` multiplies by or adds.
pub open spec fn scale_constant<V>(w: World<V>, m: Meta, id: i64, v: u64) -> V {
    let dtype = or_default(dtype_if_known(m, id)->Ok_0, FLOAT);
    (w.constant)(
        Tensor {
            raw_data: scale_bytes(v, dtype)->Ok_0,
            ..tensor_of(Seq::empty(), scale_dims(has_shape(m, id, Seq::empty())), dtype)
        },
    )
}

/// `scale` with a constant factor multiplies by it and adds the offset, or the other way round where
/// the offset is not to come after the factor, whatever multiplication and addition are.
pub proof fn law_scale_by_nodes<V>(w: World<V>, env: Values<V>, m: Meta, g: Graph, op: JsonView)
    requires
        input_ids(op).len() == 1,
        ran(w, env, scale_lowered(m, g, op)),
    ensures
        ({
            let x = input_of(m, env, op, 0);
            let id = out_id(op)->Ok_0;
            let s = scale_constant(w, m, id, or_default(attr_number_of(op, "scale"@), ONE));
            let b = scale_constant(w, m, id, or_default(attr_number_of(op, "bias"@), 0));
            output_of(m, env, op) == if attr_bool_of(op, "bias_after_scale"@) == Some(false) {
                w.of2("Mul"@, w.of2("Add"@, x, b), s)
            } else {
                w.of2("Add"@, w.of2("Mul"@, x, s), b)
            }
        }),
{
    broadcast use {group_runs, lemma_run_scale};

}

/// `scale` with a constant factor is `x * s + b`, or `(x + b) * s` where the offset is not to come
/// after the factor.
pub proof fn law_scale(w: World<real>, env: Values<real>, m: Meta, g: Graph, op: JsonView)
    requires
        arithmetic(w),
        input_ids(op).len() == 1,
        ran(w, env, scale_lowered(m, g, op)),
    ensures
        ({
            let x = input_of(m, env, op, 0);
            let id = out_id(op)->Ok_0;
            let s = scale_constant(w, m, id, or_default(attr_number_of(op, "scale"@), ONE));
            let b = scale_constant(w, m, id, or_default(attr_number_of(op, "bias"@), 0));
            output_of(m, env, op) == if attr_bool_of(op, "bias_after_scale"@) == Some(false) {
                (x + b) * s
            } else {
                x * s + b
            }
        }),
{
    law_scale_by_nodes(w, env, m, g, op);
}

/// `scale` by a tensor is `x * s + b`, or `(x + b) * s`, too, with that tensor as the factor,
/// which may be cast to the output's element type and lose an axis of size one.
pub proof fn law_scale_by_tensor<V>(w: World<V>, env: Values<V>, m: Meta, g: Graph, op: JsonView)
    requires
        input_ids(op).len() > 1,
        ran(w, env, scale_lowered(m, g, op)),
    ensures
        ({
            let x = input_of(m, env, op, 0);
            let id = out_id(op)->Ok_0;
            let t = input_ids(op)[1];
            let dtype = or_default(dtype_if_known(m, id)->Ok_0, FLOAT);
            let given = input_of(m, env, op, 1);
            let typed = if dtype != FLOAT && (has_type(m, t, "0.t_f32"@) || has_type(
                m,
                t,
                "0.t_f64"@,
            )) {
                w.cast(given, dtype as int)
            } else {
                given
            };
            let s = if has_shape(m, id, Seq::empty()) && has_shape(m, t, seq![1i64]) {
                w.squeeze(typed, seq![0i64])
            } else {
                typed
            };
            let b = scale_constant(w, m, id, or_default(attr_number_of(op, "bias"@), 0));
            output_of(m, env, op) == if attr_bool_of(op, "bias_after_scale"@) == Some(false) {
                w.of2("Mul"@, w.of2("Add"@, x, b), s)
            } else {
                w.of2("Add"@, w.of2("Mul"@, x, s), b)
            }
        }),
{
    broadcast use {group_runs, lemma_run_scale};

}

/// `pow` is the input to the power of the second input, or of the constant `y`.
pub proof fn law_pow<V>(w: World<V>, env: Values<V>, m: Meta, g: Graph, op: JsonView)
    requires
        ran(w, env, pow_lowered(m, g, op)),
    ensures
        input_ids(op).len() > 1 ==> output_of(m, env, op) == w.of2(
            "Pow"@,
            input_of(m, env, op, 0),
            input_of(m, env, op, 1),
        ),
        input_ids(op).len() == 1 ==> output_of(m, env, op) == w.of2(
            "Pow"@,
            input_of(m, env, op, 0),
            w.numbers(
                Seq::empty(),
                or_default(dtype_if_known(m, input_ids(op)[0])->Ok_0, FLOAT),
                seq![attr_number_of(op, "y"@)->0],
            ),
        ),
{
    broadcast use group_runs;

}

/// `multiply` is the product of the inputs, and of truth values the conjunction.
pub proof fn law_multiply<V>(w: World<V>, env: Values<V>, m: Meta, g: Graph, op: JsonView)
    requires
        ran(w, env, multiply_lowered(m, g, op)),
    ensures
        ({
            let (a, b) = (input_of(m, env, op, 0), input_of(m, env, op, 1));
            let truths = has_type(m, input_ids(op)[0], "0.t_bool"@) && has_type(
                m,
                input_ids(op)[1],
                "0.t_bool"@,
            );
            output_of(m, env, op) == if truths {
                w.of2("And"@, a, b)
            } else {
                w.of2("Mul"@, a, b)
            }
        }),
{
    broadcast use group_runs;

    lemma_names(m, input_ids(op), 2);
}

/// `linear_v2` is the product with the weights, plus the bias where there is one.
pub proof fn law_linear<V>(w: World<V>, env: Values<V>, m: Meta, g: Graph, op: JsonView)
    requires
        ran(w, env, linear_lowered(m, g, op)),
    ensures
        ({
            let product = w.of2("MatMul"@, input_of(m, env, op, 0), input_of(m, env, op, 1));
            output_of(m, env, op) == if input_ids(op).len() > 2 && input_ids(op)[2] != 0 {
                w.of2("Add"@, product, input_of(m, env, op, 2))
            } else {
                product
            }
        }),
{
    broadcast use group_runs;

    lemma_names(m, input_ids(op), 2);
}

/// `leaky_relu` has the slope `alpha`, or else `negative_slope`, or else a hundredth.
pub proof fn law_leaky_relu<V>(w: World<V>, env: Values<V>, m: Meta, g: Graph, op: JsonView)
    requires
        ran(w, env, leaky_relu_lowered(m, g, op)),
    ensures
        ({
            let slope = match (attr_float_of(op, "alpha"@), attr_float_of(op, "negative_slope"@)) {
                (Some(v), _) => v,
                (None, Some(v)) => v,
                (None, None) => 0x3F84_7AE1_47AE_147B,
            };
            output_of(m, env, op) == (w.apply)(
                "LeakyRelu"@,
                seq![input_of(m, env, op, 0)],
                seq![float_attribute("alpha"@, narrow(slope))],
                0,
            )
        }),
{
    broadcast use group_runs;

    let input = tensor_name(m, input_ids(op)[0])->Ok_0;
    let output = tensor_name(m, out_id(op)->Ok_0)->Ok_0;
    let n = node_of("LeakyRelu"@, seq![input], seq![output]).with(
        float_attribute("alpha"@, narrow(leak(op))),
    );
    assert(n.output[0] == output);
    lemma_node_output(w, env, n);
    assert(seen(env, n.input) =~= seq![env(input)]);
    assert(n.attribute =~= seq![float_attribute("alpha"@, narrow(leak(op)))]);
}

/// `prelu` applies a slope; slopes for the channels of a layout with the channels last are laid
/// along the last axis first.
pub proof fn law_prelu<V>(w: World<V>, env: Values<V>, m: Meta, g: Graph, op: JsonView)
    requires
        ran(w, env, prelu_lowered(m, g, op)),
    ensures
        ({
            let (x, slope) = (input_of(m, env, op, 0), input_of(m, env, op, 1));
            let rank = shape_or_empty(m, input_ids(op)[0]).len();
            let slopes = shape_or_empty(m, input_ids(op)[1]);
            let format = attr_chars_of(op, "data_format"@);
            let last = format == Some("NHWC"@) || format == Some("NDHWC"@);
            let by_channel = attr_chars_of(op, "mode"@) != Some("all"@) && slopes.len() == 1
                && slopes[0] > 1 && last && rank >= 2;
            output_of(m, env, op) == w.of2(
                "PRelu"@,
                x,
                if by_channel {
                    w.of2(
                        "Reshape"@,
                        slope,
                        w.vector(
                            Seq::new(
                                rank,
                                |i: int|
                                    if i + 1 == rank {
                                        slopes[0]
                                    } else {
                                        1i64
                                    },
                            ),
                        ),
                    )
                } else {
                    slope
                },
            )
        }),
{
    broadcast use group_runs;

    lemma_names(m, input_ids(op), 2);
    reveal_strlit("NCHW");
    reveal_strlit("NHWC");
    reveal_strlit("NDHWC");
    reveal_strlit("channel");
    reveal_strlit("all");
    let rank = shape_or_empty(m, input_ids(op)[0]).len();
    let slopes = shape_or_empty(m, input_ids(op)[1]);
    assert("NCHW"@[1] != "NHWC"@[1]);
    assert("channel"@.len() != "all"@.len());
    assert("NCHW"@.len() != "NDHWC"@.len());
    let sizes = Seq::new(
        rank,
        |i: int|
            if i + 1 == rank {
                slopes[0]
            } else {
                1i64
            },
    );
    assert(last_sized(rank, slopes[0]) =~= sizes);
}

proof fn lemma_sixth()
    ensures
        about(single_number(0x3E2A_AAAB), 1666666667real, 10000000000real),
{
    lemma_powers();
    lemma_single(0x3E2A_AAAB, 0xAA_AAAB, 26, 0x400_0000);
    let x = single_number(0x3E2A_AAAB);
    assert(x * 67108864real == 11184811real);
    assert(-10000000000real < 10000000real * (x * 10000000000real - 1666666667real)
        < 10000000000real) by (nonlinear_arith)
        requires
            x * 67108864real == 11184811real,
    ;
}

proof fn lemma_powers()
    ensures
        power_of_two(23) == 0x80_0000,
        power_of_two(24) == 0x100_0000,
        power_of_two(25) == 0x200_0000,
        power_of_two(26) == 0x400_0000,
        power_of_two(28) == 0x1000_0000,
{
    reveal_with_fuel(power_of_two, 30);
}

/// The number that the bits of a `binary32` value encode, by its parts.
proof fn lemma_single(b: u32, significand: int, k: nat, power: int)
    requires
        k <= 150,
        (b as int / 0x80_0000) % 0x100 == 150 - k,
        b as int % 0x80_0000 + 0x80_0000 == significand,
        power_of_two(k) == power,
        power > 0,
    ensures
        single_number(b) * (power as real) == significand as real,
{
    let s = significand as real;
    let p = power as real;
    assert(p > 0real);
    assert(s / p * p == s) by (nonlinear_arith)
        requires
            p > 0real,
    ;
}

proof fn lemma_half()
    ensures
        single_number(0x3F00_0000) == 1real / 2real,
{
    lemma_powers();
    lemma_single(0x3F00_0000, 0x80_0000, 24, 0x100_0000);
    assert(single_number(0x3F00_0000) * 16777216real == 8388608real);
}

proof fn lemma_one()
    ensures
        single_number(0x3F80_0000) == 1real,
{
    lemma_powers();
    lemma_single(0x3F80_0000, 0x80_0000, 23, 0x80_0000);
    assert(single_number(0x3F80_0000) * 8388608real == 8388608real);
}

proof fn lemma_root_two_over_pi()
    ensures
        about(single_number(0x3F4C_422A), 797884561real, 1000000000real),
{
    lemma_powers();
    lemma_single(0x3F4C_422A, 0xCC_422A, 24, 0x100_0000);
    let x = single_number(0x3F4C_422A);
    assert(x * 16777216real == 13386282real);
    assert(-1000000000real < 10000000real * (x * 1000000000real - 797884561real) < 1000000000real) by (nonlinear_arith)
        requires
            x * 16777216real == 13386282real,
    ;
}

proof fn lemma_coefficient()
    ensures
        about(single_number(0x3D37_2713), 44715real, 1000000real),
{
    lemma_powers();
    lemma_single(0x3D37_2713, 0xB7_2713, 28, 0x1000_0000);
    let x = single_number(0x3D37_2713);
    assert(x * 268435456real == 12003091real);
    assert(-1000000real < 10000000real * (x * 1000000real - 44715real) < 1000000real) by (nonlinear_arith)
        requires
            x * 268435456real == 12003091real,
    ;
}

proof fn lemma_root_two()
    ensures
        about(single_number(0x3FB5_04F3), 1414213562real, 1000000000real),
        single_number(0x3FB5_04F3) != 0real,
{
    lemma_powers();
    lemma_single(0x3FB5_04F3, 0xB5_04F3, 23, 0x80_0000);
    let x = single_number(0x3FB5_04F3);
    assert(x * 8388608real == 11863283real);
    assert(-1000000000real < 10000000real * (x * 1000000000real - 1414213562real) < 1000000000real) by (nonlinear_arith)
        requires
            x * 8388608real == 11863283real,
    ;
}

} // verus!
