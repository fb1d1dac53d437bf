//! The operators that take the same inputs under another name.

use crate::converter::state::{name_result, Converter};
use crate::error::{message, Error, ErrorView};
use crate::text::{join, same};
use vstd::prelude::*;

verus! {

/// The graph's name for an operator that is carried over with its inputs and attributes.
pub open spec fn op_type_named(name: Seq<char>) -> Option<Seq<char>> {
    if name == "abs"@ {
        Some("Abs"@)
    } else if name == "acos"@ {
        Some("Acos"@)
    } else if name == "acosh"@ {
        Some("Acosh"@)
    } else if name == "add"@ {
        Some("Add"@)
    } else if name == "logical_and"@ {
        Some("And"@)
    } else if name == "asin"@ {
        Some("Asin"@)
    } else if name == "asinh"@ {
        Some("Asinh"@)
    } else if name == "atan"@ {
        Some("Atan"@)
    } else if name == "atanh"@ {
        Some("Atanh"@)
    } else if name == "batch_norm"@ || name == "batch_norm_"@ {
        Some("BatchNormalization"@)
    } else if name == "ceil"@ {
        Some("Ceil"@)
    } else if name == "celu"@ {
        Some("Celu"@)
    } else if name == "conv2d"@ || name == "depthwise_conv2d"@ {
        Some("Conv"@)
    } else if name == "conv2d_transpose"@ {
        Some("ConvTranspose"@)
    } else if name == "cos"@ {
        Some("Cos"@)
    } else if name == "cosh"@ {
        Some("Cosh"@)
    } else if name == "divide"@ {
        Some("Div"@)
    } else if name == "elu"@ {
        Some("Elu"@)
    } else if name == "equal"@ {
        Some("Equal"@)
    } else if name == "erf"@ {
        Some("Erf"@)
    } else if name == "exp"@ {
        Some("Exp"@)
    } else if name == "floor"@ {
        Some("Floor"@)
    } else if name == "greater_than"@ {
        Some("Greater"@)
    } else if name == "greater_equal"@ {
        Some("GreaterOrEqual"@)
    } else if name == "hardsigmoid"@ {
        Some("HardSigmoid"@)
    } else if name == "hardswish"@ {
        Some("HardSwish"@)
    } else if name == "assign"@ || name == "share_data"@ {
        Some("Identity"@)
    } else if name == "isinf"@ {
        Some("IsInf"@)
    } else if name == "isnan"@ {
        Some("IsNaN"@)
    } else if name == "layer_norm"@ {
        Some("LayerNormalization"@)
    } else if name == "less_than"@ {
        Some("Less"@)
    } else if name == "less_equal"@ {
        Some("LessOrEqual"@)
    } else if name == "log"@ {
        Some("Log"@)
    } else if name == "log_softmax"@ {
        Some("LogSoftmax"@)
    } else if name == "matmul"@ || name == "matmul_v2"@ || name == "bmm"@ {
        Some("MatMul"@)
    } else if name == "maximum"@ {
        Some("Max"@)
    } else if name == "minimum"@ {
        Some("Min"@)
    } else if name == "mish"@ {
        Some("Mish"@)
    } else if name == "remainder"@ {
        Some("Mod"@)
    } else if name == "nonzero"@ {
        Some("NonZero"@)
    } else if name == "logical_not"@ {
        Some("Not"@)
    } else if name == "logical_or"@ {
        Some("Or"@)
    } else if name == "elementwise_pow"@ {
        Some("Pow"@)
    } else if name == "reciprocal"@ {
        Some("Reciprocal"@)
    } else if name == "relu"@ {
        Some("Relu"@)
    } else if name == "reshape"@ {
        Some("Reshape"@)
    } else if name == "round"@ {
        Some("Round"@)
    } else if name == "selu"@ {
        Some("Selu"@)
    } else if name == "shape"@ {
        Some("Shape"@)
    } else if name == "sigmoid"@ {
        Some("Sigmoid"@)
    } else if name == "sign"@ {
        Some("Sign"@)
    } else if name == "sin"@ {
        Some("Sin"@)
    } else if name == "sinh"@ {
        Some("Sinh"@)
    } else if name == "softmax"@ {
        Some("Softmax"@)
    } else if name == "softplus"@ {
        Some("Softplus"@)
    } else if name == "softsign"@ {
        Some("Softsign"@)
    } else if name == "sqrt"@ {
        Some("Sqrt"@)
    } else if name == "subtract"@ {
        Some("Sub"@)
    } else if name == "tan"@ {
        Some("Tan"@)
    } else if name == "tanh"@ {
        Some("Tanh"@)
    } else if name == "transpose"@ {
        Some("Transpose"@)
    } else if name == "where"@ {
        Some("Where"@)
    } else if name == "logical_xor"@ {
        Some("Xor"@)
    } else {
        None
    }
}

/// The graph's name for an operator, or the error that there is none.
pub open spec fn op_type_mapped(name: Seq<char>) -> Result<Seq<char>, ErrorView> {
    match op_type_named(name) {
        Some(found) => Ok(found),
        None => Err(message("Unsupported operator: "@ + name)),
    }
}

fn generated_op_type(name: &str) -> (r: Option<&'static str>)
    ensures
        match r {
            Some(found) => op_type_named(name@) == Some(found@),
            None => op_type_named(name@) is None,
        },
{
    if same(name, "abs") {
        Some("Abs")
    } else if same(name, "acos") {
        Some("Acos")
    } else if same(name, "acosh") {
        Some("Acosh")
    } else if same(name, "add") {
        Some("Add")
    } else if same(name, "logical_and") {
        Some("And")
    } else if same(name, "asin") {
        Some("Asin")
    } else if same(name, "asinh") {
        Some("Asinh")
    } else if same(name, "atan") {
        Some("Atan")
    } else if same(name, "atanh") {
        Some("Atanh")
    } else if same(name, "batch_norm") || same(name, "batch_norm_") {
        Some("BatchNormalization")
    } else if same(name, "ceil") {
        Some("Ceil")
    } else if same(name, "celu") {
        Some("Celu")
    } else if same(name, "conv2d") || same(name, "depthwise_conv2d") {
        Some("Conv")
    } else if same(name, "conv2d_transpose") {
        Some("ConvTranspose")
    } else if same(name, "cos") {
        Some("Cos")
    } else if same(name, "cosh") {
        Some("Cosh")
    } else if same(name, "divide") {
        Some("Div")
    } else if same(name, "elu") {
        Some("Elu")
    } else if same(name, "equal") {
        Some("Equal")
    } else if same(name, "erf") {
        Some("Erf")
    } else if same(name, "exp") {
        Some("Exp")
    } else if same(name, "floor") {
        Some("Floor")
    } else if same(name, "greater_than") {
        Some("Greater")
    } else if same(name, "greater_equal") {
        Some("GreaterOrEqual")
    } else if same(name, "hardsigmoid") {
        Some("HardSigmoid")
    } else if same(name, "hardswish") {
        Some("HardSwish")
    } else if same(name, "assign") || same(name, "share_data") {
        Some("Identity")
    } else if same(name, "isinf") {
        Some("IsInf")
    } else if same(name, "isnan") {
        Some("IsNaN")
    } else if same(name, "layer_norm") {
        Some("LayerNormalization")
    } else if same(name, "less_than") {
        Some("Less")
    } else if same(name, "less_equal") {
        Some("LessOrEqual")
    } else if same(name, "log") {
        Some("Log")
    } else if same(name, "log_softmax") {
        Some("LogSoftmax")
    } else if same(name, "matmul") || same(name, "matmul_v2") || same(name, "bmm") {
        Some("MatMul")
    } else if same(name, "maximum") {
        Some("Max")
    } else if same(name, "minimum") {
        Some("Min")
    } else if same(name, "mish") {
        Some("Mish")
    } else if same(name, "remainder") {
        Some("Mod")
    } else if same(name, "nonzero") {
        Some("NonZero")
    } else if same(name, "logical_not") {
        Some("Not")
    } else if same(name, "logical_or") {
        Some("Or")
    } else if same(name, "elementwise_pow") {
        Some("Pow")
    } else if same(name, "reciprocal") {
        Some("Reciprocal")
    } else if same(name, "relu") {
        Some("Relu")
    } else if same(name, "reshape") {
        Some("Reshape")
    } else if same(name, "round") {
        Some("Round")
    } else if same(name, "selu") {
        Some("Selu")
    } else if same(name, "shape") {
        Some("Shape")
    } else if same(name, "sigmoid") {
        Some("Sigmoid")
    } else if same(name, "sign") {
        Some("Sign")
    } else if same(name, "sin") {
        Some("Sin")
    } else if same(name, "sinh") {
        Some("Sinh")
    } else if same(name, "softmax") {
        Some("Softmax")
    } else if same(name, "softplus") {
        Some("Softplus")
    } else if same(name, "softsign") {
        Some("Softsign")
    } else if same(name, "sqrt") {
        Some("Sqrt")
    } else if same(name, "subtract") {
        Some("Sub")
    } else if same(name, "tan") {
        Some("Tan")
    } else if same(name, "tanh") {
        Some("Tanh")
    } else if same(name, "transpose") {
        Some("Transpose")
    } else if same(name, "where") {
        Some("Where")
    } else if same(name, "logical_xor") {
        Some("Xor")
    } else {
        None
    }
}

impl Converter {
    /// The graph's name for an operator.
    pub fn map_op_type(&self, paddle_op: &str) -> (r: Result<String, Error>)
        ensures
            name_result(r) == op_type_mapped(paddle_op@),
    {
        match generated_op_type(paddle_op) {
            Some(found) => Ok(found.to_string()),
            None => Err(Error::owned(join("Unsupported operator: ", paddle_op))),
        }
    }
}

} // verus!
