//! Bitwise operators.

use crate::converter::emit::{
    binary_added, cast_added, done, failed, ints_added, numbers_added, unary_added, Step,
};
use crate::converter::ops::common::names_upto;
use crate::converter::ops::math::{mod_added, operands, read_operands};
use crate::converter::state::{dtype_for, opset_checked, tensor_name, Converter, Meta};
use crate::dtype::{
    dtype_name, onnx_dtype_name, BFLOAT16, BOOL, INT16, INT32, INT64, INT8, UINT16, UINT8,
};
use crate::error::{message, outcome, Error, ErrorView};
use crate::float::ONE;
use crate::json::{Json, JsonView};
use crate::onnx::Graph;
use crate::text::{dec, doubles1, ints0, ints1, int_text, join, join3, join4, tag, tagged};
use vstd::arithmetic::power2::*;
use vstd::prelude::*;

verus! {

/// How many bits a signed integer type has.
pub open spec fn signed_width(dtype: i32) -> Option<int> {
    if dtype == INT8 {
        Some(8)
    } else if dtype == INT16 {
        Some(16)
    } else if dtype == INT32 {
        Some(32)
    } else if dtype == INT64 {
        Some(64)
    } else {
        None
    }
}

/// What a bit of a signed integer of `width` bits stands for.
pub open spec fn bit_weight(bit: nat, width: int) -> int {
    if bit == width - 1 {
        -(pow2(bit) as int)
    } else {
        pow2(bit) as int
    }
}

/// The name of an intermediate value of one bit.
pub open spec fn bit_name(prefix: Seq<char>, label: Seq<char>, bit: int) -> Seq<char> {
    prefix + label + dec(bit)
}

/// What is left of an operand when `k` bits have been taken off.
pub open spec fn operand_left(prefix: Seq<char>, label: Seq<char>, start: Seq<char>, k: nat) -> Seq<
    char,
> {
    if k == 0 {
        start
    } else {
        bit_name(prefix, label, k - 1)
    }
}

/// The name of the sum of the first `k` weighted bits.
pub open spec fn bits_sum(prefix: Seq<char>, k: nat) -> Seq<char> {
    if k <= 1 {
        bit_name(prefix, "_weighted_"@, 0)
    } else {
        bit_name(prefix, "_acc_"@, k - 1)
    }
}

/// The graph that adds one more bit of a conjunction to the sum, and takes it off the operands
/// unless it is the last.
#[verifier::opaque]
pub open spec fn bit_added(
    g: Graph,
    prefix: Seq<char>,
    lhs: Seq<char>,
    rhs: Seq<char>,
    width: int,
    bit: nat,
) -> Graph {
    let two = prefix + "_two"@;
    let lhs_bit = bit_name(prefix, "_lhs_bit_"@, bit as int);
    let rhs_bit = bit_name(prefix, "_rhs_bit_"@, bit as int);
    let both = bit_name(prefix, "_bit_and_"@, bit as int);
    let weight = bit_name(prefix, "_weight_"@, bit as int);
    let weighted = bit_name(prefix, "_weighted_"@, bit as int);
    let lhs_rest = bit_name(prefix, "_lhs_without_bit_"@, bit as int);
    let rhs_rest = bit_name(prefix, "_rhs_without_bit_"@, bit as int);
    let g = mod_added(g, lhs, two, lhs_bit);
    let g = mod_added(g, rhs, two, rhs_bit);
    let g = binary_added(g, "Mul"@, lhs_bit, rhs_bit, both);
    let g = ints_added(g, weight, Seq::empty(), seq![bit_weight(bit, width) as i64]);
    let g = binary_added(g, "Mul"@, both, weight, weighted);
    let g = if bit == 0 {
        g
    } else {
        binary_added(
            g,
            "Add"@,
            bits_sum(prefix, bit),
            weighted,
            bit_name(prefix, "_acc_"@, bit as int),
        )
    };
    if bit + 1 < width {
        let g = binary_added(g, "Sub"@, lhs, lhs_bit, lhs_rest);
        let g = binary_added(g, "Sub"@, rhs, rhs_bit, rhs_rest);
        let g = binary_added(
            g,
            "Div"@,
            lhs_rest,
            two,
            bit_name(prefix, "_lhs_shifted_"@, bit as int),
        );
        binary_added(g, "Div"@, rhs_rest, two, bit_name(prefix, "_rhs_shifted_"@, bit as int))
    } else {
        g
    }
}

/// The graph that adds up the first `k` bits of a conjunction.
pub open spec fn bits_added(
    g: Graph,
    prefix: Seq<char>,
    lhs: Seq<char>,
    rhs: Seq<char>,
    width: int,
    k: nat,
) -> Graph
    decreases k,
{
    if k == 0 {
        g
    } else {
        let bit = (k - 1) as nat;
        bit_added(
            bits_added(g, prefix, lhs, rhs, width, bit),
            prefix,
            operand_left(prefix, "_lhs_shifted_"@, lhs, bit),
            operand_left(prefix, "_rhs_shifted_"@, rhs, bit),
            width,
            bit,
        )
    }
}

/// The conjunction of signed integers by the bits' remainders, products and weights.
pub open spec fn signed_and_added(
    g: Graph,
    lhs: Seq<char>,
    rhs: Seq<char>,
    output: Seq<char>,
    dtype: i32,
    id: i64,
) -> Step {
    match signed_width(dtype) {
        None => failed(
            g,
            message(
                "signed bitwise_and lowering expects int8/int16/int32/int64, got "@ + dtype_name(
                    dtype,
                ),
            ),
        ),
        Some(width) => {
            let prefix = tagged("bitwise_and_signed_"@, id);
            let g = ints_added(g, prefix + "_zero"@, Seq::empty(), seq![0i64]);
            let g = ints_added(g, prefix + "_two"@, Seq::empty(), seq![2i64]);
            if dtype == INT64 {
                let g = bits_added(g, prefix, lhs, rhs, width, width as nat);
                done(unary_added(g, "Identity"@, bits_sum(prefix, width as nat), output))
            } else {
                let a = prefix + "_lhs_i64"@;
                let b = prefix + "_rhs_i64"@;
                let g = cast_added(g, lhs, a, INT64);
                let g = cast_added(g, rhs, b, INT64);
                let g = bits_added(g, prefix, a, b, width, width as nat);
                done(cast_added(g, bits_sum(prefix, width as nat), output, dtype))
            }
        },
    }
}

/// Whether an element type is a signed integer type.
pub open spec fn signed_type(dtype: i32) -> bool {
    signed_width(dtype) is Some
}

/// The error for an element type that a bitwise operator does not take.
pub open spec fn no_bits(op: Seq<char>, dtype: i32) -> ErrorView {
    if dtype == UINT16 || dtype == BFLOAT16 {
        message(
            op + " does not support "@ + dtype_name(dtype)
                + " in this converter; Paddle PIR is not expected to emit this integer type here"@,
        )
    } else {
        message(
            op
                + " only supports bool/int8/uint8/int16/int32/int64 tensors in the current converter, got "@
                + dtype_name(dtype),
        )
    }
}

/// The graph with a last node of one input.
pub open spec fn finished_unary(m: Meta, g: Graph, op: Seq<char>, input: Seq<char>, id: i64) -> Step {
    match tensor_name(m, id) {
        Err(e) => failed(g, e),
        Ok(output) => done(unary_added(g, op, input, output)),
    }
}

/// The lowering of `bitwise_not`: a signed integer's is the negative of its successor where there
/// is no operator for it.
pub open spec fn bitwise_not_lowered(m: Meta, g: Graph, op: JsonView) -> Step {
    match operands(op, 1, "bitwise_not missing inputs"@) {
        Err(e) => failed(g, e),
        Ok((id, ins)) => match (tensor_name(m, ins[0]), dtype_for(m, ins[0])) {
            (Err(e), _) => failed(g, e),
            (_, Err(e)) => failed(g, e),
            (Ok(input), Ok(dtype)) => if dtype == BOOL {
                finished_unary(m, g, "Not"@, input, id)
            } else if signed_type(dtype) {
                if m.target_opset >= 18 {
                    finished_unary(m, g, "BitwiseNot"@, input, id)
                } else {
                    let one = tagged("bitwise_not_one_"@, id);
                    match numbers_added(g, one, Seq::empty(), dtype, seq![ONE]) {
                        (g, Err(e)) => failed(g, e),
                        (g, Ok(_)) => {
                            let next = tagged("bitwise_not_plus_one_"@, id);
                            let g = binary_added(g, "Add"@, input, one, next);
                            finished_unary(m, g, "Neg"@, next, id)
                        },
                    }
                }
            } else if dtype == UINT8 {
                match opset_checked(m, 18, "bitwise_not on integer tensors"@) {
                    Err(e) => failed(g, e),
                    Ok(_) => finished_unary(m, g, "BitwiseNot"@, input, id),
                }
            } else {
                failed(g, no_bits("bitwise_not"@, dtype))
            },
        },
    }
}

/// The lowering of `bitwise_and`.
pub open spec fn bitwise_and_lowered(m: Meta, g: Graph, op: JsonView) -> Step {
    match operands(op, 2, "bitwise_and requires two inputs"@) {
        Err(e) => failed(g, e),
        Ok((id, ins)) => match (names_upto(m, ins, 2), tensor_name(m, id)) {
            (Err(e), _) => failed(g, e),
            (_, Err(e)) => failed(g, e),
            (Ok(inputs), Ok(output)) => match (dtype_for(m, ins[0]), dtype_for(m, ins[1])) {
                (Err(e), _) => failed(g, e),
                (_, Err(e)) => failed(g, e),
                (Ok(a), Ok(b)) => if a != b {
                    failed(
                        g,
                        message(
                            "bitwise_and requires matching input dtypes, got "@ + dtype_name(a)
                                + " and "@ + dtype_name(b),
                        ),
                    )
                } else if a == BOOL {
                    done(binary_added(g, "And"@, inputs[0], inputs[1], output))
                } else if signed_type(a) {
                    if m.target_opset >= 18 {
                        done(binary_added(g, "BitwiseAnd"@, inputs[0], inputs[1], output))
                    } else {
                        signed_and_added(g, inputs[0], inputs[1], output, a, id)
                    }
                } else if a == UINT8 {
                    match opset_checked(m, 18, "bitwise_and on integer tensors"@) {
                        Err(e) => failed(g, e),
                        Ok(_) => done(
                            binary_added(g, "BitwiseAnd"@, inputs[0], inputs[1], output),
                        ),
                    }
                } else {
                    failed(g, no_bits("bitwise_and"@, a))
                },
            },
        },
    }
}

fn read_signed_width(dtype: i32) -> (r: Option<i64>)
    ensures
        match r {
            Some(width) => signed_width(dtype) == Some(width as int) && 8 <= width <= 64,
            None => signed_width(dtype) is None,
        },
{
    if dtype == INT8 {
        Some(8)
    } else if dtype == INT16 {
        Some(16)
    } else if dtype == INT32 {
        Some(32)
    } else if dtype == INT64 {
        Some(64)
    } else {
        None
    }
}

fn no_bits_error(op: &str, dtype: i32) -> (r: Error)
    ensures
        r@ == no_bits(op@, dtype),
{
    if dtype == UINT16 || dtype == BFLOAT16 {
        Error::owned(
            join4(
                op,
                " does not support ",
                onnx_dtype_name(dtype),
                " in this converter; Paddle PIR is not expected to emit this integer type here",
            ),
        )
    } else {
        Error::owned(
            join3(
                op,
                " only supports bool/int8/uint8/int16/int32/int64 tensors in the current converter, got ",
                onnx_dtype_name(dtype),
            ),
        )
    }
}

fn name_bit(prefix: &str, label: &str, bit: i64) -> (r: String)
    ensures
        r@ == bit_name(prefix@, label@, bit as int),
{
    join3(prefix, label, int_text(bit).as_str())
}

impl Converter {
    /// Adds a scalar `INT64` constant.
    fn push_int64_scalar_initializer(&mut self, name: String, value: i64)
        ensures
            final(self).meta() == old(self).meta(),
            final(self).onnx_graph@ == ints_added(
                old(self).onnx_graph@,
                name@,
                Seq::empty(),
                seq![value],
            ),
    {
        self.push_i64_initializer(name, ints0(), &ints1(value));
    }

    fn add_bit(
        &mut self,
        prefix: &str,
        lhs: &String,
        rhs: &String,
        sum: &String,
        width: i64,
        bit: i64,
        weight: i64,
    )
        requires
            0 <= bit < width <= 64,
            weight == bit_weight(bit as nat, width as int),
            sum@ == bits_sum(prefix@, bit as nat),
        ensures
            final(self).meta() == old(self).meta(),
            final(self).onnx_graph@ == bit_added(
                old(self).onnx_graph@,
                prefix@,
                lhs@,
                rhs@,
                width as int,
                bit as nat,
            ),
    {
        proof {
            reveal(bit_added);
        }
        let two = join(prefix, "_two");
        let lhs_bit = name_bit(prefix, "_lhs_bit_", bit);
        let rhs_bit = name_bit(prefix, "_rhs_bit_", bit);
        let both = name_bit(prefix, "_bit_and_", bit);
        let weight_name = name_bit(prefix, "_weight_", bit);
        let weighted = name_bit(prefix, "_weighted_", bit);
        let lhs_rest = name_bit(prefix, "_lhs_without_bit_", bit);
        let rhs_rest = name_bit(prefix, "_rhs_without_bit_", bit);
        self.add_integer_mod_node(lhs.clone(), two.clone(), lhs_bit.clone());
        self.add_integer_mod_node(rhs.clone(), two.clone(), rhs_bit.clone());
        self.add_binary_node("Mul", lhs_bit.clone(), rhs_bit.clone(), both.clone());
        self.push_int64_scalar_initializer(weight_name.clone(), weight);
        self.add_binary_node("Mul", both, weight_name, weighted.clone());
        if bit != 0 {
            self.add_binary_node("Add", sum.clone(), weighted, name_bit(prefix, "_acc_", bit));
        }
        if bit + 1 < width {
            self.add_binary_node("Sub", lhs.clone(), lhs_bit, lhs_rest.clone());
            self.add_binary_node("Sub", rhs.clone(), rhs_bit, rhs_rest.clone());
            self.add_binary_node(
                "Div",
                lhs_rest,
                two.clone(),
                name_bit(prefix, "_lhs_shifted_", bit),
            );
            self.add_binary_node("Div", rhs_rest, two, name_bit(prefix, "_rhs_shifted_", bit));
        }
    }

    /// Adds up the bits of a conjunction. Returns the name of the sum.
    fn add_bits(&mut self, prefix: &str, lhs: String, rhs: String, width: i64) -> (sum: String)
        requires
            1 <= width <= 64,
        ensures
            final(self).meta() == old(self).meta(),
            final(self).onnx_graph@ == bits_added(
                old(self).onnx_graph@,
                prefix@,
                lhs@,
                rhs@,
                width as int,
                width as nat,
            ),
            sum@ == bits_sum(prefix@, width as nat),
    {
        let ghost m = self.meta();
        let ghost g = self.onnx_graph@;
        let ghost start_lhs = lhs@;
        let ghost start_rhs = rhs@;
        let mut left = lhs;
        let mut right = rhs;
        let mut sum = name_bit(prefix, "_weighted_", 0);
        let mut bit: i64 = 0;
        let mut power: i128 = 1;
        proof {
            lemma2_to64();
            lemma2_to64_rest();
        }
        while bit < width
            invariant
                0 <= bit <= width <= 64,
                power == pow2(bit as nat),
                pow2(64) == 0x1_0000_0000_0000_0000,
                m == old(self).meta(),
                g == old(self).onnx_graph@,
                self.meta() == m,
                self.onnx_graph@ == bits_added(
                    g,
                    prefix@,
                    start_lhs,
                    start_rhs,
                    width as int,
                    bit as nat,
                ),
                left@ == operand_left(prefix@, "_lhs_shifted_"@, start_lhs, bit as nat),
                right@ == operand_left(prefix@, "_rhs_shifted_"@, start_rhs, bit as nat),
                sum@ == bits_sum(prefix@, bit as nat),
            decreases width - bit,
        {
            proof {
                lemma_pow2_strictly_increases(bit as nat, 64);
                lemma_pow2_unfold((bit + 1) as nat);
                if bit + 1 < 64 {
                    lemma_pow2_strictly_increases((bit + 1) as nat, 64);
                }
            }
            let weight: i64 = if bit == width - 1 {
                (-power) as i64
            } else {
                power as i64
            };
            self.add_bit(prefix, &left, &right, &sum, width, bit, weight);
            if bit != 0 {
                sum = name_bit(prefix, "_acc_", bit);
            }
            left = name_bit(prefix, "_lhs_shifted_", bit);
            right = name_bit(prefix, "_rhs_shifted_", bit);
            power = power * 2;
            bit = bit + 1;
        }
        sum
    }

    fn lower_signed_bitwise_and_before_opset_18(
        &mut self,
        lhs: String,
        rhs: String,
        output: String,
        dtype: i32,
        id: i64,
    ) -> (r: Result<(), Error>)
        ensures
            final(self).meta() == old(self).meta(),
            (final(self).onnx_graph@, outcome(r)) == signed_and_added(
                old(self).onnx_graph@,
                lhs@,
                rhs@,
                output@,
                dtype,
                id,
            ),
    {
        let width: i64 = match read_signed_width(dtype) {
            Some(width) => width,
            None => {
                return Err(
                    Error::owned(
                        join(
                            "signed bitwise_and lowering expects int8/int16/int32/int64, got ",
                            onnx_dtype_name(dtype),
                        ),
                    ),
                );
            },
        };
        let prefix = tag("bitwise_and_signed_", id);
        self.push_int64_scalar_initializer(join(prefix.as_str(), "_zero"), 0);
        self.push_int64_scalar_initializer(join(prefix.as_str(), "_two"), 2);
        if dtype == INT64 {
            let sum = self.add_bits(prefix.as_str(), lhs, rhs, width);
            self.add_unary_node("Identity", sum, output);
        } else {
            let a = join(prefix.as_str(), "_lhs_i64");
            let b = join(prefix.as_str(), "_rhs_i64");
            self.add_cast_node(lhs, a.clone(), INT64);
            self.add_cast_node(rhs, b.clone(), INT64);
            let sum = self.add_bits(prefix.as_str(), a, b, width);
            self.add_cast_node(sum, output, dtype);
        }
        Ok(())
    }

    /// Adds the last node of a lowering.
    pub fn finish_unary(&mut self, op_type: &str, input: String, id: i64) -> (r: Result<(), Error>)
        ensures
            final(self).meta() == old(self).meta(),
            (final(self).onnx_graph@, outcome(r)) == finished_unary(
                old(self).meta(),
                old(self).onnx_graph@,
                op_type@,
                input@,
                id,
            ),
    {
        let output = self.get_tensor_name(id)?;
        self.add_unary_node(op_type, input, output);
        Ok(())
    }

    /// Lowers `bitwise_not`.
    pub fn op_bitwise_not(&mut self, op: &Json) -> (r: Result<(), Error>)
        ensures
            final(self).meta() == old(self).meta(),
            (final(self).onnx_graph@, outcome(r)) == bitwise_not_lowered(
                old(self).meta(),
                old(self).onnx_graph@,
                op@,
            ),
    {
        let (id, ins) = read_operands(op, 1, "bitwise_not missing inputs")?;
        let input = self.get_tensor_name(ins[0])?;
        let dtype: i32 = self.onnx_dtype_for_tensor_id(ins[0])?;
        if dtype == BOOL {
            return self.finish_unary("Not", input, id);
        }
        if read_signed_width(dtype).is_some() {
            if self.target_opset >= 18 {
                return self.finish_unary("BitwiseNot", input, id);
            }
            let one = tag("bitwise_not_one_", id);
            self.push_numeric_initializer(one.clone(), ints0(), dtype, &doubles1(ONE))?;
            let next = tag("bitwise_not_plus_one_", id);
            self.add_binary_node("Add", input, one, next.clone());
            return self.finish_unary("Neg", next, id);
        }
        if dtype == UINT8 {
            self.require_opset(18, "bitwise_not on integer tensors")?;
            return self.finish_unary("BitwiseNot", input, id);
        }
        Err(no_bits_error("bitwise_not", dtype))
    }

    /// Lowers `bitwise_and`.
    pub fn op_bitwise_and(&mut self, op: &Json) -> (r: Result<(), Error>)
        ensures
            final(self).meta() == old(self).meta(),
            (final(self).onnx_graph@, outcome(r)) == bitwise_and_lowered(
                old(self).meta(),
                old(self).onnx_graph@,
                op@,
            ),
    {
        let (id, ins) = read_operands(op, 2, "bitwise_and requires two inputs")?;
        let (lhs, rhs) = self.two_names(&ins)?;
        let output = self.get_tensor_name(id)?;
        let a: i32 = self.onnx_dtype_for_tensor_id(ins[0])?;
        let b: i32 = self.onnx_dtype_for_tensor_id(ins[1])?;
        if a != b {
            return Err(
                Error::owned(
                    join4(
                        "bitwise_and requires matching input dtypes, got ",
                        onnx_dtype_name(a),
                        " and ",
                        onnx_dtype_name(b),
                    ),
                ),
            );
        }
        if a == BOOL {
            self.add_binary_node("And", lhs, rhs, output);
            return Ok(());
        }
        if read_signed_width(a).is_some() {
            if self.target_opset >= 18 {
                self.add_binary_node("BitwiseAnd", lhs, rhs, output);
                return Ok(());
            }
            return self.lower_signed_bitwise_and_before_opset_18(lhs, rhs, output, a, id);
        }
        if a == UINT8 {
            self.require_opset(18, "bitwise_and on integer tensors")?;
            self.add_binary_node("BitwiseAnd", lhs, rhs, output);
            return Ok(());
        }
        Err(no_bits_error("bitwise_and", a))
    }
}

} // verus!
