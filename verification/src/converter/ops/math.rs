//! Arithmetic operators and activations.

use crate::bytes::{le_bytes, to_le};
use crate::converter::emit::{
    binary_added, bytes_result, cast_added, count_up, done, failed, ints_added, numbers_added,
    singles_added, squeeze_added, unary_added, vector_added, Step,
};
use crate::converter::ops::common::{
    axis_from_front, first_const, has_shape, has_type, names_upto, shape_or_empty,
};
use crate::converter::ops::misc::{generic_lowered, MetaStep};
use crate::converter::ops::reduce::{as_bit, bit};
use crate::converter::optimizer::options::map_get;
use crate::converter::state::{
    dtype_for, dtype_if_known, opset_checked, tensor_name, Converter, Meta,
};
use crate::dtype::{
    dtype_name, elem_type_named, onnx_dtype_name, paddle_elem_type_to_onnx, DOUBLE, FLOAT, INT16,
    INT32, INT64, INT8, UINT8,
};
use crate::error::{message, outcome, Error, ErrorView};
use crate::float::{as_i64, narrow, saturated, to_i64, to_single, ONE, ZERO};
use crate::helper::{
    attr, attr_bool_of, attr_bool_or, attr_chars_of, attr_f64, attr_float_of, attr_i64_or,
    attr_int_of, attr_number, attr_number_of, attr_number_or, attr_of, attr_text, input_ids,
    op_input_ids, op_out_id, or_default, out_id,
};
use crate::json::{Json, JsonView};
use crate::onnx::{
    attr_float, attr_int, attr_ints, attr_str, float_attribute, int_attribute, ints_attribute,
    node_of, str_attribute, tensor_of, Graph, NodeProto, Tensor, TensorProto,
};
use crate::text::{
    doubles1, ints0, ints1, ints2, join, list1, list2, names, push_name, same, singles1, tag, tag2,
    tagged, tagged2,
};
use vstd::prelude::*;

verus! {

/// The output of an operator and its inputs, of which it needs some.
pub open spec fn operands(op: JsonView, needed: nat, missing: Seq<char>) -> Result<
    (i64, Seq<i64>),
    ErrorView,
> {
    match out_id(op) {
        Err(e) => Err(e),
        Ok(id) => if input_ids(op).len() < needed {
            Err(message(missing))
        } else {
            Ok((id, input_ids(op)))
        },
    }
}

/// The content of a result with an output and inputs.
pub open spec fn operands_result(r: Result<(i64, Vec<i64>), Error>) -> Result<
    (i64, Seq<i64>),
    ErrorView,
> {
    match r {
        Ok((id, ins)) => Ok((id, ins@)),
        Err(e) => Err(e@),
    }
}

/// Reads the output of an operator and its inputs.
pub fn read_operands(op: &Json, needed: usize, missing: &str) -> (r: Result<
    (i64, Vec<i64>),
    Error,
>)
    ensures
        operands_result(r) == operands(op@, needed as nat, missing@),
        r is Ok ==> r->Ok_0.1.len() >= needed,
{
    let id: i64 = op_out_id(op)?;
    let ins = op_input_ids(op);
    if ins.len() < needed {
        return Err(Error::text(missing));
    }
    Ok((id, ins))
}

/// The bytes of a value as an element of the given type; a value that an integer type does not
/// hold is rounded toward zero and then brought into its range.
pub open spec fn scale_bytes(v: u64, data_type: i32) -> Result<Seq<u8>, ErrorView> {
    if data_type == FLOAT {
        Ok(le_bytes(narrow(v) as int, 4))
    } else if data_type == DOUBLE {
        Ok(le_bytes(v as int, 8))
    } else if data_type == INT8 {
        Ok(le_bytes(saturated(v, -0x80, 0x7F) as i64 as u64 as int, 1))
    } else if data_type == UINT8 {
        Ok(le_bytes(saturated(v, 0, 0xFF) as i64 as u64 as int, 1))
    } else if data_type == INT16 {
        Ok(le_bytes(saturated(v, -0x8000, 0x7FFF) as i64 as u64 as int, 2))
    } else if data_type == INT32 {
        Ok(le_bytes(saturated(v, -0x8000_0000, 0x7FFF_FFFF) as i64 as u64 as int, 4))
    } else if data_type == INT64 {
        Ok(le_bytes(to_i64(v) as u64 as int, 8))
    } else {
        Err(message("scale attr lowering does not support target dtype "@ + dtype_name(data_type)))
    }
}

/// The graph with a scaling constant.
#[verifier::opaque]
pub open spec fn scale_added(g: Graph, name: Seq<char>, dims: Seq<i64>, data_type: i32, v: u64) -> Step {
    match scale_bytes(v, data_type) {
        Err(e) => failed(g, e),
        Ok(raw) => done(
            g.with_initializer(Tensor { raw_data: raw, ..tensor_of(name, dims, data_type) }),
        ),
    }
}

/// The graph with a `Mod` of integers.
#[verifier::opaque]
pub open spec fn mod_added(g: Graph, lhs: Seq<char>, rhs: Seq<char>, output: Seq<char>) -> Graph {
    g.with_node(node_of("Mod"@, seq![lhs, rhs], seq![output]).with(int_attribute("fmod"@, 0)))
}

/// The graph with a last node of two inputs, of which the second is there already.
pub open spec fn finished(m: Meta, g: Graph, op: Seq<char>, lhs: Seq<char>, rhs: Seq<char>, id: i64) -> Step {
    match tensor_name(m, id) {
        Err(e) => failed(g, e),
        Ok(output) => done(binary_added(g, op, lhs, rhs, output)),
    }
}

/// The lowering of `multiply`: a conjunction where both inputs are truth values.
pub open spec fn multiply_lowered(m: Meta, g: Graph, op: JsonView) -> Step {
    match operands(op, 2, "multiply missing inputs"@) {
        Err(e) => failed(g, e),
        Ok((id, ins)) => match names_upto(m, ins, 2) {
            Err(e) => failed(g, e),
            Ok(inputs) => {
                let kind = if has_type(m, ins[0], "0.t_bool"@) && has_type(
                    m,
                    ins[1],
                    "0.t_bool"@,
                ) {
                    "And"@
                } else {
                    "Mul"@
                };
                finished(m, g, kind, inputs[0], inputs[1], id)
            },
        },
    }
}

/// The axes in order, with the last two swapped.
pub open spec fn last_swapped(rank: nat) -> Seq<i64> {
    Seq::new(
        rank,
        |i: int|
            if i == rank - 1 {
                (rank - 2) as i64
            } else if i == rank - 2 {
                (rank - 1) as i64
            } else {
                i as i64
            },
    )
}

/// The graph in which a factor of a product is transposed, where it is to be and has at least two
/// axes, and the name of what then goes into the product.
#[verifier::opaque]
pub open spec fn factor_added(m: Meta, g: Graph, input: i64, name: Seq<char>, enabled: bool, transposed: Seq<char>) -> (
    Graph,
    Seq<char>,
) {
    let rank = shape_or_empty(m, input).len();
    if enabled && rank >= 2 {
        (
            g.with_node(
                node_of("Transpose"@, seq![name], seq![transposed]).with(
                    ints_attribute("perm"@, last_swapped(rank)),
                ),
            ),
            transposed,
        )
    } else {
        (g, name)
    }
}

/// The lowering of `matmul`.
pub open spec fn matmul_lowered(m: Meta, g: Graph, op: JsonView) -> Step {
    match operands(op, 2, "matmul missing inputs"@) {
        Err(e) => failed(g, e),
        Ok((id, ins)) => match names_upto(m, ins, 2) {
            Err(e) => failed(g, e),
            Ok(inputs) => {
                let turn_x = or_default(attr_bool_of(op, "transpose_x"@), false);
                let turn_y = or_default(attr_bool_of(op, "transpose_y"@), false);
                let (g, lhs) = factor_added(
                    m,
                    g,
                    ins[0],
                    inputs[0],
                    turn_x,
                    tagged("matmul_transpose_x_"@, id),
                );
                let (g, rhs) = factor_added(
                    m,
                    g,
                    ins[1],
                    inputs[1],
                    turn_y,
                    tagged("matmul_transpose_y_"@, id),
                );
                finished(m, g, "MatMul"@, lhs, rhs, id)
            },
        },
    }
}

/// The sizes of a scaling constant.
pub open spec fn scale_dims(scalar: bool) -> Seq<i64> {
    if scalar {
        Seq::empty()
    } else {
        seq![1i64]
    }
}

/// The graph in which the factor of a scaling is there, and the factor's name.
pub open spec fn factor_of_scale(m: Meta, g: Graph, op: JsonView, id: i64, dtype: i32, scalar: bool) -> (
    Graph,
    Result<Seq<char>, ErrorView>,
) {
    let ins = input_ids(op);
    if ins.len() > 1 {
        match tensor_name(m, ins[1]) {
            Err(e) => (g, Err(e)),
            Ok(name) => {
                let to_cast = dtype != FLOAT && (has_type(m, ins[1], "0.t_f32"@) || has_type(
                    m,
                    ins[1],
                    "0.t_f64"@,
                ));
                let casted = tagged("scale_input_cast_"@, id);
                let g = if to_cast {
                    cast_added(g, name, casted, dtype)
                } else {
                    g
                };
                let name = if to_cast {
                    casted
                } else {
                    name
                };
                if scalar && has_shape(m, ins[1], seq![1i64]) {
                    let squeezed = tagged("scale_input_squeezed_"@, id);
                    (
                        squeeze_added(
                            g,
                            m.target_opset,
                            name,
                            squeezed,
                            Some(seq![0i64]),
                            Some(tagged("scale_input_squeeze_axes_"@, id)),
                        ),
                        Ok(squeezed),
                    )
                } else {
                    (g, Ok(name))
                }
            },
        }
    } else {
        let name = tagged("scale_factor_"@, id);
        match scale_added(
            g,
            name,
            scale_dims(scalar),
            dtype,
            or_default(attr_number_of(op, "scale"@), ONE),
        ) {
            (g, Err(e)) => (g, Err(e)),
            (g, Ok(_)) => (g, Ok(name)),
        }
    }
}

/// The lowering of `scale`: a product and a sum, in either order.
pub open spec fn scale_lowered(m: Meta, g: Graph, op: JsonView) -> Step {
    match operands(op, 1, "scale op missing inputs"@) {
        Err(e) => failed(g, e),
        Ok((id, ins)) => match (tensor_name(m, ins[0]), dtype_if_known(m, id)) {
            (Err(e), _) => failed(g, e),
            (_, Err(e)) => failed(g, e),
            (Ok(input), Ok(dtype)) => {
                let dtype = or_default(dtype, FLOAT);
                let scalar = has_shape(m, id, Seq::empty());
                match factor_of_scale(m, g, op, id, dtype, scalar) {
                    (g, Err(e)) => failed(g, e),
                    (g, Ok(factor)) => {
                        let bias = tagged("scale_bias_"@, id);
                        match scale_added(
                            g,
                            bias,
                            scale_dims(scalar),
                            dtype,
                            or_default(attr_number_of(op, "bias"@), ZERO),
                        ) {
                            (g, Err(e)) => failed(g, e),
                            (g, Ok(_)) => if or_default(
                                attr_bool_of(op, "bias_after_scale"@),
                                true,
                            ) {
                                let scaled = tagged("scale_mul_"@, id);
                                let g = binary_added(g, "Mul"@, input, factor, scaled);
                                finished(m, g, "Add"@, scaled, bias, id)
                            } else {
                                let moved = tagged("scale_add_"@, id);
                                let g = binary_added(g, "Add"@, input, bias, moved);
                                finished(m, g, "Mul"@, moved, factor, id)
                            },
                        }
                    },
                }
            },
        },
    }
}

/// The lowering of `swish`: the product of the input and its sigmoid.
pub open spec fn swish_lowered(m: Meta, g: Graph, op: JsonView) -> Step {
    match operands(op, 1, "swish missing inputs"@) {
        Err(e) => failed(g, e),
        Ok((id, ins)) => match tensor_name(m, ins[0]) {
            Err(e) => failed(g, e),
            Ok(input) => {
                let sigmoid = tagged("swish_sigmoid_"@, id);
                let g = unary_added(g, "Sigmoid"@, input, sigmoid);
                finished(m, g, "Mul"@, input, sigmoid, id)
            },
        },
    }
}

/// The lowering of `hardswish`, which is one node from opset 14 on.
pub open spec fn hardswish_lowered(m: Meta, g: Graph, op: JsonView) -> Step {
    if m.target_opset >= 14 {
        generic_lowered(m, g, "hardswish"@, op)
    } else {
        match operands(op, 1, "hardswish missing inputs"@) {
            Err(e) => failed(g, e),
            Ok((id, ins)) => match tensor_name(m, ins[0]) {
                Err(e) => failed(g, e),
                Ok(input) => {
                    let gate = tagged("hardswish_hardsigmoid_"@, id);
                    let g = g.with_node(
                        node_of("HardSigmoid"@, seq![input], seq![gate]).with(
                            float_attribute("alpha"@, ONE_SIXTH),
                        ).with(float_attribute("beta"@, ONE_HALF)),
                    );
                    finished(m, g, "Mul"@, input, gate, id)
                },
            },
        }
    }
}

/// The bits of the `binary32` value nearest to one sixth.
pub const ONE_SIXTH: u32 = 0x3E2A_AAAB;

/// The bits of one half.
pub const ONE_HALF: u32 = 0x3F00_0000;

/// The bits of one.
pub const SINGLE_ONE: u32 = 0x3F80_0000;

/// The bits of the `binary32` value nearest to the coefficient of the cubic term.
pub const GELU_COEFFICIENT: u32 = 0x3D37_2713;

/// The bits of the `binary32` value nearest to the root of two over pi.
pub const ROOT_TWO_OVER_PI: u32 = 0x3F4C_422A;

/// The bits of the `binary32` value nearest to the root of two.
pub const ROOT_TWO: u32 = 0x3FB5_04F3;

/// The bits of the `binary64` value nearest to one hundredth.
pub const ONE_HUNDREDTH: u64 = 0x3F84_7AE1_47AE_147B;

/// Whether `gelu` is to be approximated by `tanh`.
pub open spec fn approximated(op: JsonView) -> bool {
    match attr_of(op, "approximate"@) {
        Some(v) => v.truth() == Some(true) || v.chars() == Some("tanh"@),
        None => false,
    }
}

/// `x * half * (1 + tanh(root * (x + c * x * x * x)))`.
pub open spec fn gelu_by_tanh(m: Meta, g: Graph, id: i64, x: Seq<char>) -> Step {
    let half = tagged("gelu_half_"@, id);
    let one = tagged("gelu_one_"@, id);
    let coefficient = tagged("gelu_coeff_"@, id);
    let root = tagged("gelu_sqrt_2_over_pi_"@, id);
    let g = singles_added(g, half, seq![1i64], seq![ONE_HALF]);
    let g = singles_added(g, one, seq![1i64], seq![SINGLE_ONE]);
    let g = singles_added(g, coefficient, seq![1i64], seq![GELU_COEFFICIENT]);
    let g = singles_added(g, root, seq![1i64], seq![ROOT_TWO_OVER_PI]);
    let square = tagged("gelu_x_sq_"@, id);
    let cube = tagged("gelu_x_cube_"@, id);
    let cubic = tagged("gelu_cubic_term_"@, id);
    let inner = tagged("gelu_inner_sum_"@, id);
    let scaled = tagged("gelu_scaled_inner_"@, id);
    let tanh = tagged("gelu_tanh_"@, id);
    let above = tagged("gelu_tanh_plus_one_"@, id);
    let half_x = tagged("gelu_half_x_"@, id);
    let g = binary_added(g, "Mul"@, x, x, square);
    let g = binary_added(g, "Mul"@, square, x, cube);
    let g = binary_added(g, "Mul"@, cube, coefficient, cubic);
    let g = binary_added(g, "Add"@, x, cubic, inner);
    let g = binary_added(g, "Mul"@, inner, root, scaled);
    let g = unary_added(g, "Tanh"@, scaled, tanh);
    let g = binary_added(g, "Add"@, tanh, one, above);
    let g = binary_added(g, "Mul"@, x, half, half_x);
    finished(m, g, "Mul"@, half_x, above, id)
}

/// `x * half * (1 + erf(x / root))`.
pub open spec fn gelu_by_erf(m: Meta, g: Graph, id: i64, x: Seq<char>) -> Step {
    let root = tagged("gelu_sqrt2_"@, id);
    let half = tagged("gelu_half_"@, id);
    let one = tagged("gelu_one_"@, id);
    let g = singles_added(g, root, seq![1i64], seq![ROOT_TWO]);
    let g = singles_added(g, half, seq![1i64], seq![ONE_HALF]);
    let g = singles_added(g, one, seq![1i64], seq![SINGLE_ONE]);
    let ratio = tagged("gelu_div_"@, id);
    let erf = tagged("gelu_erf_"@, id);
    let above = tagged("gelu_add_"@, id);
    let half_x = tagged("gelu_mul_half_"@, id);
    let g = binary_added(g, "Div"@, x, root, ratio);
    let g = unary_added(g, "Erf"@, ratio, erf);
    let g = binary_added(g, "Add"@, erf, one, above);
    let g = binary_added(g, "Mul"@, x, half, half_x);
    finished(m, g, "Mul"@, half_x, above, id)
}

/// The lowering of `gelu`.
pub open spec fn gelu_lowered(m: Meta, g: Graph, op: JsonView) -> Step {
    match operands(op, 1, "gelu missing inputs"@) {
        Err(e) => failed(g, e),
        Ok((id, ins)) => match tensor_name(m, ins[0]) {
            Err(e) => failed(g, e),
            Ok(input) => if approximated(op) {
                gelu_by_tanh(m, g, id, input)
            } else {
                gelu_by_erf(m, g, id, input)
            },
        },
    }
}

/// Whether the channels of a layout come last.
pub open spec fn channels_last(format: Seq<char>) -> bool {
    format == "NHWC"@ || format == "NDHWC"@
}

/// Ones, and a last size.
pub open spec fn last_sized(rank: nat, size: i64) -> Seq<i64> {
    Seq::new(
        rank,
        |i: int|
            if i == rank - 1 {
                size
            } else {
                1
            },
    )
}

/// The lowering of `prelu`: the slopes of channels that come last are reshaped for it.
pub open spec fn prelu_lowered(m: Meta, g: Graph, op: JsonView) -> Step {
    match operands(op, 2, "prelu missing slope input"@) {
        Err(e) => failed(g, e),
        Ok((id, ins)) => match names_upto(m, ins, 2) {
            Err(e) => failed(g, e),
            Ok(inputs) => {
                let rank = shape_or_empty(m, ins[0]).len();
                let slopes = shape_or_empty(m, ins[1]);
                let mode = or_default(attr_chars_of(op, "mode"@), "channel"@);
                let last = channels_last(or_default(attr_chars_of(op, "data_format"@), "NCHW"@));
                if mode == "element"@ && last {
                    failed(g, message("prelu mode=element only supports NCHW-style layouts"@))
                } else if mode != "all"@ && slopes.len() == 1 && slopes[0] > 1 && last && rank
                    >= 2 {
                    let shape = tagged("prelu_slope_shape_"@, id);
                    let reshaped = tagged("prelu_slope_reshaped_"@, id);
                    let g = vector_added(g, shape, last_sized(rank, slopes[0]));
                    let g = binary_added(g, "Reshape"@, inputs[1], shape, reshaped);
                    finished(m, g, "PRelu"@, inputs[0], reshaped, id)
                } else {
                    finished(m, g, "PRelu"@, inputs[0], inputs[1], id)
                }
            },
        },
    }
}

/// Whether an element type is an integer type that the model description has.
pub open spec fn integer_type(dtype: i32) -> bool {
    dtype == INT8 || dtype == UINT8 || dtype == INT16 || dtype == INT32 || dtype == INT64
}

/// The element type that an operator declares for its first output.
pub open spec fn output_elem(op: JsonView) -> Option<Seq<char>> {
    match op.field_items("O"@) {
        Some(outs) => if outs.len() > 0 {
            match outs[0].field2("TT"@, "D"@) {
                Some(d) => match d.items() {
                    Some(parts) => if parts.len() > 0 {
                        parts[0].field_chars("#"@)
                    } else {
                        None
                    },
                    None => None,
                },
                None => None,
            }
        } else {
            None
        },
        None => None,
    }
}

/// Reads the element type that an operator declares for its first output.
pub fn read_output_elem(op: &Json) -> (r: Option<&str>)
    ensures
        match r {
            Some(name) => output_elem(op@) == Some(name@),
            None => output_elem(op@) is None,
        },
{
    match op.get_array("O") {
        Some(outs) => {
            if outs.len() == 0 {
                return None;
            }
            match outs[0].get2("TT", "D") {
                Some(d) => match d.as_array() {
                    Some(parts) => {
                        if parts.len() == 0 {
                            return None;
                        }
                        parts[0].get_str("#")
                    },
                    None => None,
                },
                None => None,
            }
        },
        None => None,
    }
}

/// Integer division that rounds down: the quotient, less one where the signs differ and there is a
/// remainder.
pub open spec fn floor_divided(m: Meta, g: Graph, id: i64, lhs: Seq<char>, rhs: Seq<char>, dtype: i32) -> Step {
    let quotient = tagged("floor_divide_div_"@, id);
    let remainder = tagged("floor_divide_mod_"@, id);
    let zero = tagged("floor_divide_zero_"@, id);
    let lhs_negative = tagged("floor_divide_lhs_negative_"@, id);
    let rhs_negative = tagged("floor_divide_rhs_negative_"@, id);
    let differ = tagged("floor_divide_signs_differ_"@, id);
    let exact = tagged("floor_divide_remainder_zero_"@, id);
    let inexact = tagged("floor_divide_remainder_nonzero_"@, id);
    let adjusted = tagged("floor_divide_needs_adjust_"@, id);
    let amount = tagged("floor_divide_adjust_i64_"@, id);
    let adjustment = tagged("floor_divide_adjust_"@, id);
    let one = tagged("floor_divide_one_"@, id);
    match numbers_added(g, zero, Seq::empty(), dtype, seq![ZERO]) {
        (g, Err(e)) => failed(g, e),
        (g, Ok(_)) => match numbers_added(g, one, Seq::empty(), dtype, seq![ONE]) {
            (g, Err(e)) => failed(g, e),
            (g, Ok(_)) => {
                let g = binary_added(g, "Div"@, lhs, rhs, quotient);
                let g = mod_added(g, lhs, rhs, remainder);
                let g = binary_added(g, "Less"@, lhs, zero, lhs_negative);
                let g = binary_added(g, "Less"@, rhs, zero, rhs_negative);
                let g = binary_added(g, "Xor"@, lhs_negative, rhs_negative, differ);
                let g = binary_added(g, "Equal"@, remainder, zero, exact);
                let g = unary_added(g, "Not"@, exact, inexact);
                let g = binary_added(g, "And"@, differ, inexact, adjusted);
                let g = cast_added(g, adjusted, amount, dtype);
                let g = binary_added(g, "Mul"@, amount, one, adjustment);
                finished(m, g, "Sub"@, quotient, adjustment, id)
            },
        },
    }
}

/// Division of any numbers that rounds down.
pub open spec fn floor_divided_singles(m: Meta, g: Graph, id: i64, lhs: Seq<char>, rhs: Seq<char>, dtype: i32) -> Step {
    let a = tagged("floor_divide_a_"@, id);
    let b = tagged("floor_divide_b_"@, id);
    let quotient = tagged("floor_divide_div_"@, id);
    let floor = tagged("floor_divide_floor_"@, id);
    let g = cast_added(g, lhs, a, FLOAT);
    let g = cast_added(g, rhs, b, FLOAT);
    let g = binary_added(g, "Div"@, a, b, quotient);
    let g = unary_added(g, "Floor"@, quotient, floor);
    match tensor_name(m, id) {
        Err(e) => failed(g, e),
        Ok(output) => done(cast_added(g, floor, output, dtype)),
    }
}

/// The lowering of `floor_divide`.
pub open spec fn floor_divide_lowered(m: Meta, g: Graph, op: JsonView) -> Step {
    match operands(op, 2, "floor_divide missing inputs"@) {
        Err(e) => failed(g, e),
        Ok((id, ins)) => {
            let declared = or_default(output_elem(op), "0.t_i64"@);
            let dtype = or_default(elem_type_named(declared), INT64);
            match (dtype_for(m, ins[0]), dtype_for(m, ins[1])) {
                (Err(e), _) => failed(g, e),
                (_, Err(e)) => failed(g, e),
                (Ok(a), Ok(b)) => match names_upto(m, ins, 2) {
                    Err(e) => failed(g, e),
                    Ok(inputs) => if integer_type(a) && integer_type(b) {
                        floor_divided(m, g, id, inputs[0], inputs[1], dtype)
                    } else {
                        floor_divided_singles(m, g, id, inputs[0], inputs[1], dtype)
                    },
                },
            }
        },
    }
}

/// The name of a sampling mode in the target opset.
pub open spec fn sample_mode(mode: Seq<char>, opset: i64) -> Seq<char> {
    if mode == "bilinear"@ && opset >= 20 {
        "linear"@
    } else if mode == "bicubic"@ && opset >= 20 {
        "cubic"@
    } else {
        mode
    }
}

/// The lowering of `grid_sample`.
pub open spec fn grid_sample_lowered(m: Meta, g: Graph, op: JsonView) -> Step {
    match opset_checked(m, 16, "grid_sample"@) {
        Err(e) => failed(g, e),
        Ok(_) => match operands(op, 2, "grid_sample missing inputs"@) {
            Err(e) => failed(g, e),
            Ok((id, ins)) => match (names_upto(m, ins, 2), tensor_name(m, id)) {
                (Err(e), _) => failed(g, e),
                (_, Err(e)) => failed(g, e),
                (Ok(inputs), Ok(output)) => {
                    let node = node_of("GridSample"@, inputs, seq![output]);
                    let node = match attr_chars_of(op, "mode"@) {
                        Some(mode) => node.with(
                            str_attribute("mode"@, sample_mode(mode, m.target_opset)),
                        ),
                        None => node,
                    };
                    let node = match attr_chars_of(op, "padding_mode"@) {
                        Some(mode) => node.with(str_attribute("padding_mode"@, mode)),
                        None => node,
                    };
                    let corners = or_default(attr_bool_of(op, "align_corners"@), false);
                    done(g.with_node(node.with(int_attribute("align_corners"@, bit(corners)))))
                },
            },
        },
    }
}

/// The lowering of `triu` or `tril`.
pub open spec fn trilu_lowered(m: Meta, g: Graph, op: JsonView, upper: bool) -> Step {
    match opset_checked(
        m,
        14,
        if upper {
            "triu"@
        } else {
            "tril"@
        },
    ) {
        Err(e) => failed(g, e),
        Ok(_) => match operands(op, 1, "trilu missing inputs"@) {
            Err(e) => failed(g, e),
            Ok((id, ins)) => {
                let k = tagged("trilu_k_"@, id);
                let diagonal = or_default(attr_int_of(op, "diagonal"@), 0);
                let g = ints_added(g, k, seq![1i64], seq![diagonal]);
                match (tensor_name(m, ins[0]), tensor_name(m, id)) {
                    (Err(e), _) => failed(g, e),
                    (_, Err(e)) => failed(g, e),
                    (Ok(input), Ok(output)) => done(
                        g.with_node(
                            node_of("Trilu"@, seq![input, k], seq![output]).with(
                                int_attribute("upper"@, bit(upper)),
                            ),
                        ),
                    ),
                }
            },
        },
    }
}

/// The lowering of `pow`, with an exponent that is an input or a constant.
pub open spec fn pow_lowered(m: Meta, g: Graph, op: JsonView) -> Step {
    match operands(op, 1, "pow missing inputs"@) {
        Err(e) => failed(g, e),
        Ok((id, ins)) => match tensor_name(m, ins[0]) {
            Err(e) => failed(g, e),
            Ok(input) => if ins.len() > 1 {
                match tensor_name(m, ins[1]) {
                    Err(e) => failed(g, e),
                    Ok(exponent) => finished(m, g, "Pow"@, input, exponent, id),
                }
            } else {
                match attr_number_of(op, "y"@) {
                    None => failed(g, message("pow: missing exponent"@)),
                    Some(y) => match dtype_if_known(m, ins[0]) {
                        Err(e) => failed(g, e),
                        Ok(dtype) => {
                            let exponent = tagged("pow_exponent_"@, id);
                            match numbers_added(
                                g,
                                exponent,
                                Seq::empty(),
                                or_default(dtype, FLOAT),
                                seq![y],
                            ) {
                                (g, Err(e)) => failed(g, e),
                                (g, Ok(_)) => finished(m, g, "Pow"@, input, exponent, id),
                            }
                        },
                    },
                }
            },
        },
    }
}

/// The slope of `leaky_relu` on negative values.
pub open spec fn leak(op: JsonView) -> u64 {
    match attr_float_of(op, "alpha"@) {
        Some(v) => v,
        None => or_default(attr_float_of(op, "negative_slope"@), ONE_HUNDREDTH),
    }
}

/// The lowering of `leaky_relu`.
pub open spec fn leaky_relu_lowered(m: Meta, g: Graph, op: JsonView) -> Step {
    match operands(op, 1, "leaky_relu missing inputs"@) {
        Err(e) => failed(g, e),
        Ok((id, ins)) => match (tensor_name(m, ins[0]), tensor_name(m, id)) {
            (Err(e), _) => failed(g, e),
            (_, Err(e)) => failed(g, e),
            (Ok(input), Ok(output)) => done(
                g.with_node(
                    node_of("LeakyRelu"@, seq![input], seq![output]).with(
                        float_attribute("alpha"@, narrow(leak(op))),
                    ),
                ),
            ),
        },
    }
}

/// The lowering of `linear_v2`: a product, and a sum where there is a bias. Id zero stands for a
/// bias that is not there.
pub open spec fn linear_lowered(m: Meta, g: Graph, op: JsonView) -> Step {
    match operands(op, 2, "linear_v2 needs at least input and weight"@) {
        Err(e) => failed(g, e),
        Ok((id, ins)) => match names_upto(m, ins, 2) {
            Err(e) => failed(g, e),
            Ok(inputs) => if ins.len() > 2 && ins[2] != 0 {
                let product = tagged("linear_mm_"@, id);
                let g = binary_added(g, "MatMul"@, inputs[0], inputs[1], product);
                match tensor_name(m, ins[2]) {
                    Err(e) => failed(g, e),
                    Ok(bias) => finished(m, g, "Add"@, product, bias, id),
                }
            } else {
                finished(m, g, "MatMul"@, inputs[0], inputs[1], id)
            },
        },
    }
}

/// How many samples `multinomial` draws, where it can be lowered.
pub open spec fn sample_size(m: Meta, op: JsonView) -> Result<(i64, Seq<i64>, i64), ErrorView> {
    match operands(op, 2, "multinomial missing inputs"@) {
        Err(e) => Err(e),
        Ok((id, ins)) => match first_const(m, ins[1]) {
            None => Err(message("multinomial requires constant sample size"@)),
            Some(v) => if to_i64(v) <= 0 {
                Err(message("multinomial requires positive sample size"@))
            } else if to_i64(v) != 1 && !or_default(attr_bool_of(op, "replacement"@), false) {
                Err(
                    message("multinomial only supports replacement=false when sample_size=1"@),
                )
            } else if m.strict {
                Err(
                    message(
                        "strict mode rejects deterministic multinomial -> ArgMax lowering"@,
                    ),
                )
            } else {
                Ok((id, ins, to_i64(v)))
            },
        },
    }
}

/// The most likely outcome, repeated where several samples are asked for.
pub open spec fn most_likely(m: Meta, g: Graph, id: i64, input: i64, size: i64) -> Step {
    let named = if size == 1 {
        tensor_name(m, id)
    } else {
        Ok(tagged("multinomial_argmax_"@, id))
    };
    match (named, tensor_name(m, input)) {
        (Err(e), _) => failed(g, e),
        (_, Err(e)) => failed(g, e),
        (Ok(best), Ok(from)) => {
            let g = g.with_node(
                node_of("ArgMax"@, seq![from], seq![best]).with(int_attribute("axis"@, (-1) as i64)).with(
                    int_attribute("keepdims"@, 1),
                ).with(int_attribute("select_last_index"@, 0)),
            );
            if size > 1 {
                let repeats = tagged("multinomial_repeats_"@, id);
                let g = ints_added(g, repeats, seq![2i64], seq![1i64, size]);
                finished(m, g, "Tile"@, best, repeats, id)
            } else {
                done(g)
            }
        },
    }
}

/// The lowering of `multinomial` to its most likely outcome, of which the user is warned once.
pub open spec fn multinomial_lowered(m: Meta, g: Graph, op: JsonView) -> MetaStep {
    match opset_checked(m, 7, "multinomial"@) {
        Err(e) => (m, g, Err(e)),
        Ok(_) => match sample_size(m, op) {
            Err(e) => (m, g, Err(e)),
            Ok((id, ins, size)) => {
                let step = most_likely(m, g, id, ins[0], size);
                (Meta { warned_multinomial_degraded: true, ..m }, step.0, step.1)
            },
        },
    }
}

/// The names of the parts of an unbound value.
pub open spec fn part_names(id: i64, count: nat) -> Seq<Seq<char>> {
    Seq::new(count, |i: int| tagged2("unbind_split_"@, id, i as i64))
}

/// The graph in which the first `k` parts have lost the axis along which they were split.
pub open spec fn parts_squeezed(m: Meta, g: Graph, id: i64, outs: Seq<i64>, axis: i64, k: nat) -> Step
    decreases k,
{
    if k == 0 {
        done(g)
    } else {
        match parts_squeezed(m, g, id, outs, axis, (k - 1) as nat) {
            (g, Err(e)) => failed(g, e),
            (g, Ok(_)) => match tensor_name(m, outs[k - 1]) {
                Err(e) => failed(g, e),
                Ok(output) => done(
                    squeeze_added(
                        g,
                        m.target_opset,
                        tagged2("unbind_split_"@, id, (k - 1) as i64),
                        output,
                        Some(seq![axis]),
                        Some(tagged2("unbind_axes_"@, id, (k - 1) as i64)),
                    ),
                ),
            },
        }
    }
}

proof fn lemma_parts_err(m: Meta, g: Graph, id: i64, outs: Seq<i64>, axis: i64, k: nat, n: nat)
    requires
        k <= n,
        parts_squeezed(m, g, id, outs, axis, k).1 is Err,
    ensures
        parts_squeezed(m, g, id, outs, axis, n) == parts_squeezed(m, g, id, outs, axis, k),
    decreases n,
{
    if k < n {
        lemma_parts_err(m, g, id, outs, axis, k, (n - 1) as nat);
    }
}

/// The lowering of `unbind`: a split along an axis, which each part then loses.
pub open spec fn unbind_lowered(m: Meta, g: Graph, op: JsonView) -> Step {
    match operands(op, 1, "unbind missing inputs"@) {
        Err(e) => failed(g, e),
        Ok((id, ins)) => match map_get(m.splits, id) {
            None => failed(g, message(tagged("unbind missing 0.split metadata for "@, id))),
            Some(outs) => match axis_from_front(
                m,
                ins[0],
                or_default(attr_int_of(op, "axis"@), 0),
            ) {
                Err(e) => failed(g, e),
                Ok(axis) => match tensor_name(m, ins[0]) {
                    Err(e) => failed(g, e),
                    Ok(input) => {
                        let node = node_of(
                            "Split"@,
                            seq![input],
                            part_names(id, outs.len()),
                        ).with(int_attribute("axis"@, axis));
                        let node = if m.target_opset >= 18 {
                            node.with(int_attribute("num_outputs"@, outs.len() as i64))
                        } else {
                            node
                        };
                        parts_squeezed(m, g.with_node(node), id, outs, axis, outs.len())
                    },
                },
            },
        },
    }
}

fn swap_last(rank: usize) -> (r: Vec<i64>)
    requires
        rank >= 2,
    ensures
        r@ == last_swapped(rank as nat),
{
    let mut list = count_up(rank);
    list.set(rank - 1, (rank - 2) as i64);
    list.set(rank - 2, (rank - 1) as i64);
    proof {
        assert(list@ =~= last_swapped(rank as nat));
    }
    list
}

fn size_last(rank: usize, size: i64) -> (r: Vec<i64>)
    requires
        rank >= 1,
    ensures
        r@ == last_sized(rank as nat, size),
{
    let mut list: Vec<i64> = Vec::new();
    let mut i: usize = 0;
    while i < rank
        invariant
            i <= rank,
            list@ =~= Seq::new(i as nat, |k: int| 1i64),
        decreases rank - i,
    {
        list.push(1);
        i = i + 1;
    }
    list.set(rank - 1, size);
    proof {
        assert(list@ =~= last_sized(rank as nat, size));
    }
    list
}

fn saturate(v: u64, low: i64, high: i64) -> (r: i64)
    requires
        low <= 0 <= high,
    ensures
        r == saturated(v, low as int, high as int),
{
    let i = as_i64(v);
    if i < low {
        low
    } else if i > high {
        high
    } else {
        i
    }
}

fn encode_scale_attr_value_as_target_dtype(v: u64, data_type: i32) -> (r: Result<Vec<u8>, Error>)
    ensures
        bytes_result(r) == scale_bytes(v, data_type),
{
    if data_type == FLOAT {
        Ok(to_le(to_single(v) as u64, 4))
    } else if data_type == DOUBLE {
        Ok(to_le(v, 8))
    } else if data_type == INT8 {
        Ok(to_le(saturate(v, -0x80, 0x7F) as u64, 1))
    } else if data_type == UINT8 {
        Ok(to_le(saturate(v, 0, 0xFF) as u64, 1))
    } else if data_type == INT16 {
        Ok(to_le(saturate(v, -0x8000, 0x7FFF) as u64, 2))
    } else if data_type == INT32 {
        Ok(to_le(saturate(v, -0x8000_0000, 0x7FFF_FFFF) as u64, 4))
    } else if data_type == INT64 {
        Ok(to_le(as_i64(v) as u64, 8))
    } else {
        Err(
            Error::owned(
                join(
                    "scale attr lowering does not support target dtype ",
                    onnx_dtype_name(data_type),
                ),
            ),
        )
    }
}

fn list_scale_dims(scalar: bool) -> (r: Vec<i64>)
    ensures
        r@ == scale_dims(scalar),
{
    if scalar {
        ints0()
    } else {
        ints1(1)
    }
}

fn is_integer_type(dtype: i32) -> (r: bool)
    ensures
        r == integer_type(dtype),
{
    dtype == INT8 || dtype == UINT8 || dtype == INT16 || dtype == INT32 || dtype == INT64
}

fn has_channels_last(format: &str) -> (r: bool)
    ensures
        r == channels_last(format@),
{
    same(format, "NHWC") || same(format, "NDHWC")
}

fn is_approximated(op: &Json) -> (r: bool)
    ensures
        r == approximated(op@),
{
    match attr(op, "approximate") {
        Some(v) => {
            match v.as_bool() {
                Some(b) => {
                    if b {
                        return true;
                    }
                },
                None => {},
            }
            match v.as_str() {
                Some(text) => same(text, "tanh"),
                None => false,
            }
        },
        None => false,
    }
}

fn choose_sample_mode(mode: &str, opset: i64) -> (r: &str)
    ensures
        r@ == sample_mode(mode@, opset),
{
    if same(mode, "bilinear") && opset >= 20 {
        "linear"
    } else if same(mode, "bicubic") && opset >= 20 {
        "cubic"
    } else {
        mode
    }
}

fn read_leak(op: &Json) -> (r: u64)
    ensures
        r == leak(op@),
{
    match attr_f64(op, "alpha") {
        Some(v) => v,
        None => match attr_f64(op, "negative_slope") {
            Some(v) => v,
            None => ONE_HUNDREDTH,
        },
    }
}

fn name_parts(id: i64, count: usize) -> (r: Vec<String>)
    ensures
        names(r@) == part_names(id, count as nat),
{
    let mut list: Vec<String> = Vec::new();
    let mut i: usize = 0;
    proof {
        assert(names(list@) =~= part_names(id, 0));
    }
    while i < count
        invariant
            i <= count,
            names(list@) == part_names(id, i as nat),
        decreases count - i,
    {
        push_name(&mut list, tag2("unbind_split_", id, i as i64));
        i = i + 1;
        proof {
            assert(names(list@) =~= part_names(id, i as nat));
        }
    }
    list
}

impl Converter {
    fn push_scale_attr_initializer(
        &mut self,
        name: String,
        dims: Vec<i64>,
        data_type: i32,
        value: u64,
    ) -> (r: Result<(), Error>)
        ensures
            final(self).meta() == old(self).meta(),
            (final(self).onnx_graph@, outcome(r)) == scale_added(
                old(self).onnx_graph@,
                name@,
                dims@,
                data_type,
                value,
            ),
    {
        proof {
            reveal(scale_added);
        }
        let raw = encode_scale_attr_value_as_target_dtype(value, data_type)?;
        let mut tensor = TensorProto::new(name, dims, data_type);
        tensor.raw_data = raw;
        self.onnx_graph.push_initializer(tensor);
        Ok(())
    }

    /// Adds a `Mod` of integers.
    pub fn add_integer_mod_node(&mut self, lhs: String, rhs: String, output: String)
        ensures
            final(self).meta() == old(self).meta(),
            final(self).onnx_graph@ == mod_added(old(self).onnx_graph@, lhs@, rhs@, output@),
    {
        proof {
            reveal(mod_added);
        }
        self.onnx_graph.push_node(
            NodeProto::new("Mod", list2(lhs, rhs), list1(output)).with(attr_int("fmod", 0)),
        );
    }

    /// Adds the last node of a lowering.
    pub fn finish(&mut self, op_type: &str, lhs: String, rhs: String, id: i64) -> (r: Result<
        (),
        Error,
    >)
        ensures
            final(self).meta() == old(self).meta(),
            (final(self).onnx_graph@, outcome(r)) == finished(
                old(self).meta(),
                old(self).onnx_graph@,
                op_type@,
                lhs@,
                rhs@,
                id,
            ),
    {
        let output = self.get_tensor_name(id)?;
        self.add_binary_node(op_type, lhs, rhs, output);
        Ok(())
    }

    /// The names of the first two of some values.
    pub fn two_names(&self, ids: &Vec<i64>) -> (r: Result<(String, String), Error>)
        requires
            ids.len() >= 2,
        ensures
            match r {
                Ok((a, b)) => names_upto(self.meta(), ids@, 2) == Ok::<Seq<Seq<char>>, ErrorView>(
                    seq![a@, b@],
                ),
                Err(e) => names_upto(self.meta(), ids@, 2) == Err::<Seq<Seq<char>>, ErrorView>(e@),
            },
    {
        proof {
            reveal_with_fuel(names_upto, 3);
        }
        let a = self.get_tensor_name(ids[0])?;
        let b = self.get_tensor_name(ids[1])?;
        proof {
            assert(Seq::<Seq<char>>::empty().push(a@).push(b@) =~= seq![a@, b@]);
        }
        Ok((a, b))
    }

    /// Lowers `multiply`.
    pub fn op_multiply(&mut self, op: &Json) -> (r: Result<(), Error>)
        ensures
            final(self).meta() == old(self).meta(),
            (final(self).onnx_graph@, outcome(r)) == multiply_lowered(
                old(self).meta(),
                old(self).onnx_graph@,
                op@,
            ),
    {
        let (id, ins) = read_operands(op, 2, "multiply missing inputs")?;
        let (lhs, rhs) = self.two_names(&ins)?;
        let kind = if self.is_type(ins[0], "0.t_bool") && self.is_type(ins[1], "0.t_bool") {
            "And"
        } else {
            "Mul"
        };
        self.finish(kind, lhs, rhs, id)
    }

    fn add_factor(&mut self, input: i64, name: String, enabled: bool, transposed: String) -> (r:
        String)
        ensures
            final(self).meta() == old(self).meta(),
            (final(self).onnx_graph@, r@) == factor_added(
                old(self).meta(),
                old(self).onnx_graph@,
                input,
                name@,
                enabled,
                transposed@,
            ),
    {
        proof {
            reveal(factor_added);
        }
        let rank: usize = self.dims_or_empty(input).len();
        if !enabled || rank < 2 {
            return name;
        }
        self.add_node(
            NodeProto::new("Transpose", list1(name), list1(transposed.clone())).with(
                attr_ints("perm", &swap_last(rank)),
            ),
        );
        transposed
    }

    /// Lowers `matmul`.
    pub fn op_matmul(&mut self, op: &Json) -> (r: Result<(), Error>)
        ensures
            final(self).meta() == old(self).meta(),
            (final(self).onnx_graph@, outcome(r)) == matmul_lowered(
                old(self).meta(),
                old(self).onnx_graph@,
                op@,
            ),
    {
        let (id, ins) = read_operands(op, 2, "matmul missing inputs")?;
        let (lhs, rhs) = self.two_names(&ins)?;
        let lhs = self.add_factor(
            ins[0],
            lhs,
            attr_bool_or(op, "transpose_x", false),
            tag("matmul_transpose_x_", id),
        );
        let rhs = self.add_factor(
            ins[1],
            rhs,
            attr_bool_or(op, "transpose_y", false),
            tag("matmul_transpose_y_", id),
        );
        self.finish("MatMul", lhs, rhs, id)
    }

    fn add_scale_factor(&mut self, op: &Json, id: i64, dtype: i32, scalar: bool) -> (r: Result<
        String,
        Error,
    >)
        ensures
            final(self).meta() == old(self).meta(),
            (final(self).onnx_graph@, crate::converter::state::name_result(r)) == factor_of_scale(
                old(self).meta(),
                old(self).onnx_graph@,
                op@,
                id,
                dtype,
                scalar,
            ),
    {
        let ins = op_input_ids(op);
        if ins.len() > 1 {
            let mut name = self.get_tensor_name(ins[1])?;
            if dtype != FLOAT && (self.is_type(ins[1], "0.t_f32") || self.is_type(
                ins[1],
                "0.t_f64",
            )) {
                let casted = tag("scale_input_cast_", id);
                self.add_cast_node(name, casted.clone(), dtype);
                name = casted;
            }
            if scalar && self.is_shape(ins[1], &ints1(1)) {
                let squeezed = tag("scale_input_squeezed_", id);
                self.add_squeeze_node(
                    name,
                    squeezed.clone(),
                    Some(&ints1(0)),
                    Some(tag("scale_input_squeeze_axes_", id)),
                );
                name = squeezed;
            }
            Ok(name)
        } else {
            let name = tag("scale_factor_", id);
            self.push_scale_attr_initializer(
                name.clone(),
                list_scale_dims(scalar),
                dtype,
                attr_number_or(op, "scale", ONE),
            )?;
            Ok(name)
        }
    }

    /// Lowers `scale`.
    pub fn op_scale(&mut self, op: &Json) -> (r: Result<(), Error>)
        ensures
            final(self).meta() == old(self).meta(),
            (final(self).onnx_graph@, outcome(r)) == scale_lowered(
                old(self).meta(),
                old(self).onnx_graph@,
                op@,
            ),
    {
        let (id, ins) = read_operands(op, 1, "scale op missing inputs")?;
        let input = self.get_tensor_name(ins[0])?;
        let dtype: i32 = match self.maybe_onnx_dtype_for_tensor_id(id)? {
            Some(dtype) => dtype,
            None => FLOAT,
        };
        let scalar = self.is_shape(id, &ints0());
        let factor = self.add_scale_factor(op, id, dtype, scalar)?;
        let bias = tag("scale_bias_", id);
        self.push_scale_attr_initializer(
            bias.clone(),
            list_scale_dims(scalar),
            dtype,
            attr_number_or(op, "bias", ZERO),
        )?;
        if attr_bool_or(op, "bias_after_scale", true) {
            let scaled = tag("scale_mul_", id);
            self.add_binary_node("Mul", input, factor, scaled.clone());
            self.finish("Add", scaled, bias, id)
        } else {
            let moved = tag("scale_add_", id);
            self.add_binary_node("Add", input, bias, moved.clone());
            self.finish("Mul", moved, factor, id)
        }
    }

    /// Lowers `swish`.
    pub fn op_swish(&mut self, op: &Json) -> (r: Result<(), Error>)
        ensures
            final(self).meta() == old(self).meta(),
            (final(self).onnx_graph@, outcome(r)) == swish_lowered(
                old(self).meta(),
                old(self).onnx_graph@,
                op@,
            ),
    {
        let (id, ins) = read_operands(op, 1, "swish missing inputs")?;
        let input = self.get_tensor_name(ins[0])?;
        let sigmoid = tag("swish_sigmoid_", id);
        self.add_unary_node("Sigmoid", input.clone(), sigmoid.clone());
        self.finish("Mul", input, sigmoid, id)
    }

    /// Lowers `silu`, which is `swish`.
    pub fn op_silu(&mut self, op: &Json) -> (r: Result<(), Error>)
        ensures
            final(self).meta() == old(self).meta(),
            (final(self).onnx_graph@, outcome(r)) == swish_lowered(
                old(self).meta(),
                old(self).onnx_graph@,
                op@,
            ),
    {
        self.op_swish(op)
    }

    /// Lowers `hardswish`.
    pub fn op_hardswish(&mut self, op: &Json) -> (r: Result<(), Error>)
        ensures
            final(self).meta() == old(self).meta(),
            (final(self).onnx_graph@, outcome(r)) == hardswish_lowered(
                old(self).meta(),
                old(self).onnx_graph@,
                op@,
            ),
    {
        if self.target_opset >= 14 {
            return self.convert_generic_op("hardswish", op);
        }
        let (id, ins) = read_operands(op, 1, "hardswish missing inputs")?;
        let input = self.get_tensor_name(ins[0])?;
        let gate = tag("hardswish_hardsigmoid_", id);
        self.add_node(
            NodeProto::new("HardSigmoid", list1(input.clone()), list1(gate.clone())).with(
                attr_float("alpha", ONE_SIXTH),
            ).with(attr_float("beta", ONE_HALF)),
        );
        self.finish("Mul", input, gate, id)
    }

    fn add_gelu_by_tanh(&mut self, id: i64, x: String) -> (r: Result<(), Error>)
        ensures
            final(self).meta() == old(self).meta(),
            (final(self).onnx_graph@, outcome(r)) == gelu_by_tanh(
                old(self).meta(),
                old(self).onnx_graph@,
                id,
                x@,
            ),
    {
        let half = tag("gelu_half_", id);
        let one = tag("gelu_one_", id);
        let coefficient = tag("gelu_coeff_", id);
        let root = tag("gelu_sqrt_2_over_pi_", id);
        self.push_f32_initializer(half.clone(), ints1(1), &singles1(ONE_HALF));
        self.push_f32_initializer(one.clone(), ints1(1), &singles1(SINGLE_ONE));
        self.push_f32_initializer(coefficient.clone(), ints1(1), &singles1(GELU_COEFFICIENT));
        self.push_f32_initializer(root.clone(), ints1(1), &singles1(ROOT_TWO_OVER_PI));
        let square = tag("gelu_x_sq_", id);
        let cube = tag("gelu_x_cube_", id);
        let cubic = tag("gelu_cubic_term_", id);
        let inner = tag("gelu_inner_sum_", id);
        let scaled = tag("gelu_scaled_inner_", id);
        let tanh = tag("gelu_tanh_", id);
        let above = tag("gelu_tanh_plus_one_", id);
        let half_x = tag("gelu_half_x_", id);
        self.add_binary_node("Mul", x.clone(), x.clone(), square.clone());
        self.add_binary_node("Mul", square, x.clone(), cube.clone());
        self.add_binary_node("Mul", cube, coefficient, cubic.clone());
        self.add_binary_node("Add", x.clone(), cubic, inner.clone());
        self.add_binary_node("Mul", inner, root, scaled.clone());
        self.add_unary_node("Tanh", scaled, tanh.clone());
        self.add_binary_node("Add", tanh, one, above.clone());
        self.add_binary_node("Mul", x, half, half_x.clone());
        self.finish("Mul", half_x, above, id)
    }

    fn add_gelu_by_erf(&mut self, id: i64, x: String) -> (r: Result<(), Error>)
        ensures
            final(self).meta() == old(self).meta(),
            (final(self).onnx_graph@, outcome(r)) == gelu_by_erf(
                old(self).meta(),
                old(self).onnx_graph@,
                id,
                x@,
            ),
    {
        let root = tag("gelu_sqrt2_", id);
        let half = tag("gelu_half_", id);
        let one = tag("gelu_one_", id);
        self.push_f32_initializer(root.clone(), ints1(1), &singles1(ROOT_TWO));
        self.push_f32_initializer(half.clone(), ints1(1), &singles1(ONE_HALF));
        self.push_f32_initializer(one.clone(), ints1(1), &singles1(SINGLE_ONE));
        let ratio = tag("gelu_div_", id);
        let erf = tag("gelu_erf_", id);
        let above = tag("gelu_add_", id);
        let half_x = tag("gelu_mul_half_", id);
        self.add_binary_node("Div", x.clone(), root, ratio.clone());
        self.add_unary_node("Erf", ratio, erf.clone());
        self.add_binary_node("Add", erf, one, above.clone());
        self.add_binary_node("Mul", x, half, half_x.clone());
        self.finish("Mul", half_x, above, id)
    }

    /// Lowers `gelu`.
    pub fn op_gelu(&mut self, op: &Json) -> (r: Result<(), Error>)
        ensures
            final(self).meta() == old(self).meta(),
            (final(self).onnx_graph@, outcome(r)) == gelu_lowered(
                old(self).meta(),
                old(self).onnx_graph@,
                op@,
            ),
    {
        let (id, ins) = read_operands(op, 1, "gelu missing inputs")?;
        let input = self.get_tensor_name(ins[0])?;
        if is_approximated(op) {
            self.add_gelu_by_tanh(id, input)
        } else {
            self.add_gelu_by_erf(id, input)
        }
    }

    /// Lowers `prelu`.
    pub fn op_prelu(&mut self, op: &Json) -> (r: Result<(), Error>)
        ensures
            final(self).meta() == old(self).meta(),
            (final(self).onnx_graph@, outcome(r)) == prelu_lowered(
                old(self).meta(),
                old(self).onnx_graph@,
                op@,
            ),
    {
        let (id, ins) = read_operands(op, 2, "prelu missing slope input")?;
        let (data, slope) = self.two_names(&ins)?;
        let rank: usize = self.dims_or_empty(ins[0]).len();
        let slopes = self.dims_or_empty(ins[1]);
        let mode: &str = match attr_text(op, "mode") {
            Some(mode) => mode,
            None => "channel",
        };
        let format: &str = match attr_text(op, "data_format") {
            Some(format) => format,
            None => "NCHW",
        };
        let last = has_channels_last(format);
        if same(mode, "element") && last {
            return Err(Error::text("prelu mode=element only supports NCHW-style layouts"));
        }
        if !same(mode, "all") && slopes.len() == 1 && slopes[0] > 1 && last && rank >= 2 {
            let shape = tag("prelu_slope_shape_", id);
            let reshaped = tag("prelu_slope_reshaped_", id);
            self.push_vector(shape.clone(), &size_last(rank, slopes[0]));
            self.add_binary_node("Reshape", slope, shape, reshaped.clone());
            return self.finish("PRelu", data, reshaped, id);
        }
        self.finish("PRelu", data, slope, id)
    }

    fn add_floor_divide(&mut self, id: i64, lhs: String, rhs: String, dtype: i32) -> (r: Result<
        (),
        Error,
    >)
        ensures
            final(self).meta() == old(self).meta(),
            (final(self).onnx_graph@, outcome(r)) == floor_divided(
                old(self).meta(),
                old(self).onnx_graph@,
                id,
                lhs@,
                rhs@,
                dtype,
            ),
    {
        let quotient = tag("floor_divide_div_", id);
        let remainder = tag("floor_divide_mod_", id);
        let zero = tag("floor_divide_zero_", id);
        let lhs_negative = tag("floor_divide_lhs_negative_", id);
        let rhs_negative = tag("floor_divide_rhs_negative_", id);
        let differ = tag("floor_divide_signs_differ_", id);
        let exact = tag("floor_divide_remainder_zero_", id);
        let inexact = tag("floor_divide_remainder_nonzero_", id);
        let adjusted = tag("floor_divide_needs_adjust_", id);
        let amount = tag("floor_divide_adjust_i64_", id);
        let adjustment = tag("floor_divide_adjust_", id);
        let one = tag("floor_divide_one_", id);
        self.push_numeric_initializer(zero.clone(), ints0(), dtype, &doubles1(ZERO))?;
        self.push_numeric_initializer(one.clone(), ints0(), dtype, &doubles1(ONE))?;
        self.add_binary_node("Div", lhs.clone(), rhs.clone(), quotient.clone());
        self.add_integer_mod_node(lhs.clone(), rhs.clone(), remainder.clone());
        self.add_binary_node("Less", lhs, zero.clone(), lhs_negative.clone());
        self.add_binary_node("Less", rhs, zero.clone(), rhs_negative.clone());
        self.add_binary_node("Xor", lhs_negative, rhs_negative, differ.clone());
        self.add_binary_node("Equal", remainder, zero, exact.clone());
        self.add_unary_node("Not", exact, inexact.clone());
        self.add_binary_node("And", differ, inexact, adjusted.clone());
        self.add_cast_node(adjusted, amount.clone(), dtype);
        self.add_binary_node("Mul", amount, one, adjustment.clone());
        self.finish("Sub", quotient, adjustment, id)
    }

    fn add_floor_divide_singles(&mut self, id: i64, lhs: String, rhs: String, dtype: i32) -> (r:
        Result<(), Error>)
        ensures
            final(self).meta() == old(self).meta(),
            (final(self).onnx_graph@, outcome(r)) == floor_divided_singles(
                old(self).meta(),
                old(self).onnx_graph@,
                id,
                lhs@,
                rhs@,
                dtype,
            ),
    {
        let a = tag("floor_divide_a_", id);
        let b = tag("floor_divide_b_", id);
        let quotient = tag("floor_divide_div_", id);
        let floor = tag("floor_divide_floor_", id);
        self.add_cast_node(lhs, a.clone(), FLOAT);
        self.add_cast_node(rhs, b.clone(), FLOAT);
        self.add_binary_node("Div", a, b, quotient.clone());
        self.add_unary_node("Floor", quotient, floor.clone());
        let output = self.get_tensor_name(id)?;
        self.add_cast_node(floor, output, dtype);
        Ok(())
    }

    /// Lowers `floor_divide`.
    pub fn op_floor_divide(&mut self, op: &Json) -> (r: Result<(), Error>)
        ensures
            final(self).meta() == old(self).meta(),
            (final(self).onnx_graph@, outcome(r)) == floor_divide_lowered(
                old(self).meta(),
                old(self).onnx_graph@,
                op@,
            ),
    {
        let (id, ins) = read_operands(op, 2, "floor_divide missing inputs")?;
        let declared: &str = match read_output_elem(op) {
            Some(name) => name,
            None => "0.t_i64",
        };
        let dtype: i32 = match paddle_elem_type_to_onnx(declared) {
            Some(dtype) => dtype,
            None => INT64,
        };
        let a: i32 = self.onnx_dtype_for_tensor_id(ins[0])?;
        let b: i32 = self.onnx_dtype_for_tensor_id(ins[1])?;
        let (lhs, rhs) = self.two_names(&ins)?;
        if is_integer_type(a) && is_integer_type(b) {
            self.add_floor_divide(id, lhs, rhs, dtype)
        } else {
            self.add_floor_divide_singles(id, lhs, rhs, dtype)
        }
    }

    /// Lowers `grid_sample`.
    pub fn op_grid_sample(&mut self, op: &Json) -> (r: Result<(), Error>)
        ensures
            final(self).meta() == old(self).meta(),
            (final(self).onnx_graph@, outcome(r)) == grid_sample_lowered(
                old(self).meta(),
                old(self).onnx_graph@,
                op@,
            ),
    {
        self.require_opset(16, "grid_sample")?;
        let (id, ins) = read_operands(op, 2, "grid_sample missing inputs")?;
        let inputs = self.first_names(&ins, 2)?;
        let output = self.get_tensor_name(id)?;
        let mut node = NodeProto::new("GridSample", inputs, list1(output));
        match attr_text(op, "mode") {
            Some(mode) => {
                node = node.with(
                    attr_str("mode", choose_sample_mode(mode, self.target_opset)),
                );
            },
            None => {},
        }
        match attr_text(op, "padding_mode") {
            Some(mode) => {
                node = node.with(attr_str("padding_mode", mode));
            },
            None => {},
        }
        let corners = as_bit(attr_bool_or(op, "align_corners", false));
        self.add_node(node.with(attr_int("align_corners", corners)));
        Ok(())
    }

    /// Lowers `triu` or `tril`.
    pub fn op_trilu(&mut self, op: &Json, upper: bool) -> (r: Result<(), Error>)
        ensures
            final(self).meta() == old(self).meta(),
            (final(self).onnx_graph@, outcome(r)) == trilu_lowered(
                old(self).meta(),
                old(self).onnx_graph@,
                op@,
                upper,
            ),
    {
        self.require_opset(
            14,
            if upper {
                "triu"
            } else {
                "tril"
            },
        )?;
        let (id, ins) = read_operands(op, 1, "trilu missing inputs")?;
        let k = tag("trilu_k_", id);
        let diagonal: i64 = attr_i64_or(op, "diagonal", 0);
        self.push_i64_initializer(k.clone(), ints1(1), &ints1(diagonal));
        let input = self.get_tensor_name(ins[0])?;
        let output = self.get_tensor_name(id)?;
        self.add_node(
            NodeProto::new("Trilu", list2(input, k), list1(output)).with(
                attr_int("upper", as_bit(upper)),
            ),
        );
        Ok(())
    }

    /// Lowers `pow`.
    pub fn op_pow(&mut self, op: &Json) -> (r: Result<(), Error>)
        ensures
            final(self).meta() == old(self).meta(),
            (final(self).onnx_graph@, outcome(r)) == pow_lowered(
                old(self).meta(),
                old(self).onnx_graph@,
                op@,
            ),
    {
        let (id, ins) = read_operands(op, 1, "pow missing inputs")?;
        let input = self.get_tensor_name(ins[0])?;
        let exponent: String = if ins.len() > 1 {
            self.get_tensor_name(ins[1])?
        } else {
            let y: u64 = match attr_number(op, "y") {
                Some(y) => y,
                None => {
                    return Err(Error::text("pow: missing exponent"));
                },
            };
            let dtype: i32 = match self.maybe_onnx_dtype_for_tensor_id(ins[0])? {
                Some(dtype) => dtype,
                None => FLOAT,
            };
            let name = tag("pow_exponent_", id);
            self.push_numeric_initializer(name.clone(), ints0(), dtype, &doubles1(y))?;
            name
        };
        self.finish("Pow", input, exponent, id)
    }

    /// Lowers `leaky_relu`.
    pub fn op_leaky_relu(&mut self, op: &Json) -> (r: Result<(), Error>)
        ensures
            final(self).meta() == old(self).meta(),
            (final(self).onnx_graph@, outcome(r)) == leaky_relu_lowered(
                old(self).meta(),
                old(self).onnx_graph@,
                op@,
            ),
    {
        let (id, ins) = read_operands(op, 1, "leaky_relu missing inputs")?;
        let alpha = to_single(read_leak(op));
        let input = self.get_tensor_name(ins[0])?;
        let output = self.get_tensor_name(id)?;
        self.add_node(
            NodeProto::new("LeakyRelu", list1(input), list1(output)).with(
                attr_float("alpha", alpha),
            ),
        );
        Ok(())
    }

    /// Lowers `linear_v2`.
    pub fn op_linear_v2(&mut self, op: &Json) -> (r: Result<(), Error>)
        ensures
            final(self).meta() == old(self).meta(),
            (final(self).onnx_graph@, outcome(r)) == linear_lowered(
                old(self).meta(),
                old(self).onnx_graph@,
                op@,
            ),
    {
        let (id, ins) = read_operands(op, 2, "linear_v2 needs at least input and weight")?;
        let (input, weight) = self.two_names(&ins)?;
        if ins.len() > 2 && ins[2] != 0 {
            let product = tag("linear_mm_", id);
            self.add_binary_node("MatMul", input, weight, product.clone());
            let bias = self.get_tensor_name(ins[2])?;
            self.finish("Add", product, bias, id)
        } else {
            self.finish("MatMul", input, weight, id)
        }
    }

    fn read_sample_size(&self, op: &Json) -> (r: Result<(i64, Vec<i64>, i64), Error>)
        ensures
            match r {
                Ok((id, ins, size)) => sample_size(self.meta(), op@) == Ok::<
                    (i64, Seq<i64>, i64),
                    ErrorView,
                >((id, ins@, size)) && ins.len() >= 2,
                Err(e) => sample_size(self.meta(), op@) == Err::<
                    (i64, Seq<i64>, i64),
                    ErrorView,
                >(e@),
            },
    {
        let (id, ins) = read_operands(op, 2, "multinomial missing inputs")?;
        let size: i64 = match self.first_constant(ins[1]) {
            Some(v) => as_i64(v),
            None => {
                return Err(Error::text("multinomial requires constant sample size"));
            },
        };
        if size <= 0 {
            return Err(Error::text("multinomial requires positive sample size"));
        }
        if size != 1 && !attr_bool_or(op, "replacement", false) {
            return Err(
                Error::text("multinomial only supports replacement=false when sample_size=1"),
            );
        }
        if self.strict {
            return Err(
                Error::text("strict mode rejects deterministic multinomial -> ArgMax lowering"),
            );
        }
        Ok((id, ins, size))
    }

    fn add_most_likely(&mut self, id: i64, input: i64, size: i64) -> (r: Result<(), Error>)
        ensures
            final(self).meta() == old(self).meta(),
            (final(self).onnx_graph@, outcome(r)) == most_likely(
                old(self).meta(),
                old(self).onnx_graph@,
                id,
                input,
                size,
            ),
    {
        let best: String = if size == 1 {
            self.get_tensor_name(id)?
        } else {
            tag("multinomial_argmax_", id)
        };
        let from = self.get_tensor_name(input)?;
        self.add_node(
            NodeProto::new("ArgMax", list1(from), list1(best.clone())).with(
                attr_int("axis", -1),
            ).with(attr_int("keepdims", 1)).with(attr_int("select_last_index", 0)),
        );
        if size > 1 {
            let repeats = tag("multinomial_repeats_", id);
            self.push_i64_initializer(repeats.clone(), ints1(2), &ints2(1, size));
            return self.finish("Tile", best, repeats, id);
        }
        Ok(())
    }

    /// Lowers `multinomial`.
    pub fn op_multinomial(&mut self, op: &Json) -> (r: Result<(), Error>)
        ensures
            (final(self).meta(), final(self).onnx_graph@, outcome(r)) == multinomial_lowered(
                old(self).meta(),
                old(self).onnx_graph@,
                op@,
            ),
    {
        self.require_opset(7, "multinomial")?;
        let (id, ins, size) = self.read_sample_size(op)?;
        self.warned_multinomial_degraded = true;
        self.add_most_likely(id, ins[0], size)
    }

    fn squeeze_parts(&mut self, id: i64, outs: &Vec<i64>, axis: i64) -> (r: Result<(), Error>)
        ensures
            final(self).meta() == old(self).meta(),
            (final(self).onnx_graph@, outcome(r)) == parts_squeezed(
                old(self).meta(),
                old(self).onnx_graph@,
                id,
                outs@,
                axis,
                outs@.len(),
            ),
    {
        let ghost m = self.meta();
        let ghost g = self.onnx_graph@;
        let mut i: usize = 0;
        while i < outs.len()
            invariant
                i <= outs.len(),
                m == old(self).meta(),
                g == old(self).onnx_graph@,
                self.meta() == m,
                (self.onnx_graph@, Ok::<(), ErrorView>(())) == parts_squeezed(
                    m,
                    g,
                    id,
                    outs@,
                    axis,
                    i as nat,
                ),
            decreases outs.len() - i,
        {
            match self.get_tensor_name(outs[i]) {
                Ok(output) => {
                    self.add_squeeze_node(
                        tag2("unbind_split_", id, i as i64),
                        output,
                        Some(&ints1(axis)),
                        Some(tag2("unbind_axes_", id, i as i64)),
                    );
                },
                Err(e) => {
                    proof {
                        lemma_parts_err(m, g, id, outs@, axis, (i + 1) as nat, outs@.len());
                    }
                    return Err(e);
                },
            }
            i = i + 1;
        }
        Ok(())
    }

    /// Lowers `unbind`.
    pub fn op_unbind(&mut self, op: &Json) -> (r: Result<(), Error>)
        ensures
            final(self).meta() == old(self).meta(),
            (final(self).onnx_graph@, outcome(r)) == unbind_lowered(
                old(self).meta(),
                old(self).onnx_graph@,
                op@,
            ),
    {
        let (id, ins) = read_operands(op, 1, "unbind missing inputs")?;
        let outs = match self.state.splits.get(id) {
            Some(outs) => crate::converter::ops::common::copy_list(outs),
            None => {
                return Err(Error::owned(tag("unbind missing 0.split metadata for ", id)));
            },
        };
        let axis: i64 = self.normalize_axis(ins[0], attr_i64_or(op, "axis", 0))?;
        let input = self.get_tensor_name(ins[0])?;
        let mut node = NodeProto::new("Split", list1(input), name_parts(id, outs.len())).with(
            attr_int("axis", axis),
        );
        if self.target_opset >= 18 {
            node = node.with(attr_int("num_outputs", outs.len() as i64));
        }
        self.add_node(node);
        self.squeeze_parts(id, &outs, axis)
    }
}

} // verus!
