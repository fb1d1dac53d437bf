//! What is known of constants agrees with what the nodes for them compute.

use crate::arith::{sum64, times64};
use crate::converter::ops::math::scale_lowered;
use crate::converter::pass1::{
    constant_made, constant_scaled, folder_of, value_cast, ConstantFolder,
};
use crate::converter::state::Meta;
use crate::error::ErrorView;
use crate::float::{above, below, finite, integral, nan, zero, ONE};
use crate::helper::{attr_float_of, attr_number_of, input_ids, or_default, out_id};
use crate::json::JsonView;
use crate::laws::activations::{law_scale_by_nodes, scale_constant};
use crate::laws::meaning::{input_of, output_of, ran, Values, World};
use crate::onnx::Graph;
use vstd::prelude::*;

verus! {

/// Whether additions and multiplications are those of `binary64` values.
pub open spec fn double_arithmetic(w: World<u64>) -> bool {
    &&& forall|a: u64, b: u64| #[trigger] w.of2("Add"@, a, b) == sum64(a, b)
    &&& forall|a: u64, b: u64| #[trigger] w.of2("Mul"@, a, b) == times64(a, b)
}

/// What is known of a constant that is scaled is what the nodes for it compute.
pub proof fn law_scaled_constant_agrees(
    w: World<u64>,
    env: Values<u64>,
    m: Meta,
    g: Graph,
    op: JsonView,
)
    requires
        double_arithmetic(w),
        input_ids(op).len() == 1,
        attr_float_of(op, "scale"@) == attr_number_of(op, "scale"@),
        attr_float_of(op, "bias"@) == attr_number_of(op, "bias"@),
        ({
            let id = out_id(op)->Ok_0;
            let s = or_default(attr_number_of(op, "scale"@), ONE);
            let b = or_default(attr_number_of(op, "bias"@), 0);
            scale_constant(w, m, id, s) == s && scale_constant(w, m, id, b) == b
        }),
        ran(w, env, scale_lowered(m, g, op)),
    ensures
        constant_scaled(seq![input_of(m, env, op, 0)], op) == seq![output_of(m, env, op)],
        constant_made(ConstantFolder::Scale, seq![input_of(m, env, op, 0)], op) == Ok::<
            Option<Seq<u64>>,
            ErrorView,
        >(Some(seq![output_of(m, env, op)])),
{
    law_scale_by_nodes(w, env, m, g, op);
    assert(constant_scaled(seq![input_of(m, env, op, 0)], op) =~= seq![output_of(m, env, op)]);
}

/// The least and the greatest number of an integer type.
pub open spec fn type_bounds(dtype: Seq<char>) -> Option<(int, int)> {
    if dtype == "int8"@ {
        Some((-128, 127))
    } else if dtype == "uint8"@ {
        Some((0, 255))
    } else if dtype == "int16"@ {
        Some((-32768, 32767))
    } else if dtype == "int32"@ {
        Some((-2147483648, 2147483647))
    } else {
        None
    }
}

/// A constant that is cast to an integer type stays the number that it is, and is refused where the
/// type does not have it; cast to truth values it is zero where it is zero, and one elsewhere.
pub proof fn law_cast_constant(v: u64, dtype: Seq<char>)
    ensures
        type_bounds(dtype) matches Some((low, high)) ==> {
            &&& value_cast(v, dtype) is Ok <==> finite(v) && integral(v) && !below(v, low)
                && !above(v, high)
            &&& value_cast(v, dtype) matches Ok(r) ==> r == v
        },
        dtype == "bool"@ ==> {
            &&& value_cast(v, dtype) is Ok <==> !nan(v)
            &&& value_cast(v, dtype) matches Ok(r) ==> r == if zero(v) {
                0
            } else {
                0x3FF0_0000_0000_0000u64
            }
        },
{
    reveal_strlit("bool");
    reveal_strlit("int8");
    reveal_strlit("uint8");
    reveal_strlit("int16");
    reveal_strlit("int32");
    reveal_strlit("int64");
    assert("bool"@[0] != "int8"@[0]);
    assert("int16"@[3] != "int32"@[3] && "uint8"@[0] != "int16"@[0] && "uint8"@[0] != "int32"@[0]);
    assert("bool"@.len() == 4 && "int8"@.len() == 4 && "uint8"@.len() == 5);
    assert("int16"@.len() == 5 && "int32"@.len() == 5);
}

/// A constant keeps its elements, in order, where an operator only changes its shape.
pub proof fn law_reshaped_constant_same(kind: Seq<char>, values: Seq<u64>, op: JsonView)
    requires
        kind == "1.squeeze"@ || kind == "1.unsqueeze"@ || kind == "1.reshape"@ || kind
            == "1.flatten"@,
    ensures
        folder_of(kind) is Some,
        constant_made(folder_of(kind)->0, values, op) == Ok::<Option<Seq<u64>>, ErrorView>(
            Some(values),
        ),
{
    reveal_strlit("1.squeeze");
    reveal_strlit("1.unsqueeze");
    reveal_strlit("1.reshape");
    reveal_strlit("1.flatten");
    reveal_strlit("1.full");
    reveal_strlit("1.full_int_array");
    reveal_strlit("1.assign_value_");
    reveal_strlit("1.cast");
    assert(kind.len() == 9 || kind.len() == 11);
    assert("1.full"@.len() == 6 && "1.full_int_array"@.len() == 16 && "1.assign_value_"@.len()
        == 15 && "1.cast"@.len() == 6);
}

} // verus!
