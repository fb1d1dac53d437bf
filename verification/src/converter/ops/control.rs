//! Operators on truth values, and the pieces of conditionals and loops.

use crate::converter::emit::{
    binary_added, cast_added, done, failed, ints_added, misfit, reduce_added, squeeze_added,
    ternary_added, unsqueeze_added, Step,
};
use crate::converter::ops::common::{has_shape, names_upto, NameStep};
use crate::converter::ops::reduce::{as_bit, bit};
use crate::converter::optimizer::options::map_get;
use crate::converter::state::{dtype_if_known, name_result, tensor_name, Converter, Meta};
use crate::dtype::{BOOL, FLOAT, INT64};
use crate::error::{message, outcome, ConstantFault, Error, ErrorView};
use crate::float::{as_i64, finite, integral, is_finite, is_integral, to_i64};
use crate::helper::{
    attr_bool_of, attr_bool_or, attr_i64s, attr_ints_of, input_ids, op_input_ids, op_out_id,
    or_default, out_id, output_ids,
};
use crate::json::{Json, JsonView};
use crate::onnx::{graph_attribute, node_of, Graph};
use crate::text::{dec, ints0, ints1, join, names, tag, tagged};
use vstd::prelude::*;

verus! {

/// The word for a test whether any element holds, or all do.
pub open spec fn test_word(any: bool) -> Seq<char> {
    if any {
        "any"@
    } else {
        "all"@
    }
}

/// The axes of a test, where some are given.
pub open spec fn test_axes(op: JsonView) -> Option<Seq<i64>> {
    match attr_ints_of(op, "axis"@) {
        Some(axes) => if axes.len() > 0 {
            Some(axes)
        } else {
            None
        },
        None => None,
    }
}

/// The lowering of `any` or `all`: the largest or the smallest of the truth values as integers.
pub open spec fn any_all_lowered(m: Meta, g: Graph, op: JsonView, any: bool) -> Step {
    let ins = input_ids(op);
    if ins.len() == 0 {
        failed(g, message("any/all requires an input tensor"@))
    } else {
        match out_id(op) {
            Err(e) => failed(g, e),
            Ok(id) => match tensor_name(m, ins[0]) {
                Err(e) => failed(g, e),
                Ok(input) => {
                    let casted = test_word(any) + tagged("_cast_"@, id);
                    let reduced = test_word(any) + tagged("_reduced_"@, id);
                    let g = cast_added(g, input, casted, INT64);
                    let g = reduce_added(
                        g,
                        m.target_opset,
                        if any {
                            "ReduceMax"@
                        } else {
                            "ReduceMin"@
                        },
                        casted,
                        reduced,
                        test_axes(op),
                        bit(or_default(attr_bool_of(op, "keepdim"@), false)),
                        test_word(any) + tagged("_reduce_"@, id),
                    );
                    match tensor_name(m, id) {
                        Err(e) => failed(g, e),
                        Ok(output) => done(cast_added(g, reduced, output, BOOL)),
                    }
                },
            },
        }
    }
}

/// The graph in which the depth of `one_hot` is an `INT64` scalar, and that one's name.
#[verifier::opaque]
pub open spec fn depth_added(m: Meta, g: Graph, id: i64, depth: i64) -> NameStep {
    let casted = tagged("one_hot_depth_i64_"@, id);
    match map_get(m.constants, depth) {
        Some(values) => if values.len() == 0 {
            (g, Err(message("one_hot depth constant is empty"@)))
        } else if !finite(values[0]) || !integral(values[0]) {
            (g, Err(misfit(ConstantFault::OneHotDepth, values[0], "int64"@)))
        } else {
            (ints_added(g, casted, Seq::empty(), seq![to_i64(values[0])]), Ok(casted))
        },
        None => match tensor_name(m, depth) {
            Err(e) => (g, Err(e)),
            Ok(name) => {
                let g = cast_added(g, name, casted, INT64);
                if has_shape(m, depth, seq![1i64]) {
                    let scalar = tagged("one_hot_depth_scalar_"@, id);
                    (
                        squeeze_added(
                            g,
                            m.target_opset,
                            casted,
                            scalar,
                            Some(seq![0i64]),
                            Some(tagged("one_hot_depth_squeeze_axes_"@, id)),
                        ),
                        Ok(scalar),
                    )
                } else {
                    (g, Ok(casted))
                }
            },
        },
    }
}

/// The lowering of `one_hot`: a comparison of the indices, along a new last axis, with the numbers
/// below the depth.
pub open spec fn one_hot_lowered(m: Meta, g: Graph, op: JsonView) -> Step {
    let ins = input_ids(op);
    if ins.len() < 2 {
        failed(g, message("one_hot requires indices and depth inputs"@))
    } else {
        match out_id(op) {
            Err(e) => failed(g, e),
            Ok(id) => match (tensor_name(m, ins[0]), tensor_name(m, id)) {
                (Err(e), _) => failed(g, e),
                (_, Err(e)) => failed(g, e),
                (Ok(indices), Ok(output)) => {
                    let rank = match map_get(m.tensor_shapes, ins[0]) {
                        Some(dims) => dims.len(),
                        None => 1,
                    };
                    let whole = tagged("one_hot_indices_i64_"@, id);
                    let g = cast_added(g, indices, whole, INT64);
                    match depth_added(m, g, id, ins[1]) {
                        (g, Err(e)) => failed(g, e),
                        (g, Ok(depth)) => {
                            let start = tagged("one_hot_start_"@, id);
                            let step = tagged("one_hot_step_"@, id);
                            let range = tagged("one_hot_range_"@, id);
                            let raised = tagged("one_hot_indices_expanded_"@, id);
                            let equal = tagged("one_hot_equal_"@, id);
                            let g = ints_added(g, start, Seq::empty(), seq![0i64]);
                            let g = ints_added(g, step, Seq::empty(), seq![1i64]);
                            let g = ternary_added(g, "Range"@, start, depth, step, range);
                            let g = unsqueeze_added(
                                g,
                                m.target_opset,
                                whole,
                                raised,
                                seq![rank as i64],
                                tagged("one_hot_unsqueeze_axes_"@, id),
                            );
                            let g = binary_added(g, "Equal"@, raised, range, equal);
                            match dtype_if_known(m, id) {
                                Err(e) => failed(g, e),
                                Ok(dtype) => done(
                                    cast_added(g, equal, output, or_default(dtype, FLOAT)),
                                ),
                            }
                        },
                    }
                },
            },
        }
    }
}

/// The lowering of a conditional, given what its branches convert to.
pub open spec fn if_lowered(
    m: Meta,
    g: Graph,
    op: JsonView,
    then_branch: Result<Graph, ErrorView>,
    else_branch: Result<Graph, ErrorView>,
) -> Step {
    let ins = input_ids(op);
    if ins.len() == 0 {
        failed(g, message("if requires a condition input"@))
    } else {
        match tensor_name(m, ins[0]) {
            Err(e) => failed(g, e),
            Ok(condition) => match op.field_items("regions"@) {
                None => failed(g, message("if is missing regions"@)),
                Some(regions) => if regions.len() != 2 {
                    failed(
                        g,
                        message("if expects 2 regions, got "@ + dec(regions.len() as int)),
                    )
                } else {
                    match (then_branch, else_branch) {
                        (Err(e), _) => failed(g, e),
                        (_, Err(e)) => failed(g, e),
                        (Ok(then_graph), Ok(else_graph)) => match names_upto(
                            m,
                            output_ids(op),
                            output_ids(op).len(),
                        ) {
                            Err(e) => failed(g, e),
                            Ok(outputs) => done(
                                g.with_node(
                                    node_of("If"@, seq![condition], outputs).with(
                                        graph_attribute("then_branch"@, then_graph),
                                    ).with(graph_attribute("else_branch"@, else_graph)),
                                ),
                            ),
                        },
                    }
                },
            },
        }
    }
}

/// The first block of a region.
pub open spec fn first_block(region: JsonView) -> Option<JsonView> {
    match region.field_items("blocks"@) {
        Some(blocks) => if blocks.len() > 0 {
            Some(blocks[0])
        } else {
            None
        },
        None => None,
    }
}

/// The arguments of the first block of a region.
pub open spec fn block_args(region: JsonView) -> Option<Seq<JsonView>> {
    match first_block(region) {
        Some(block) => block.field_items("args"@),
        None => None,
    }
}

/// The values that a loop carries along.
pub open spec fn carried_ids(op: JsonView) -> Seq<i64> {
    input_ids(op).skip(1)
}

/// The names, in the body, of the values that a loop carries along: different for different
/// positions, also where the same value is carried twice.
pub open spec fn body_arg_names(op: JsonView) -> Seq<Seq<char>> {
    let ids = carried_ids(op);
    Seq::new(
        ids.len(),
        |i: int| "while_arg_"@ + dec(i) + "_"@ + dec(ids[i] as int),
    )
}

/// The lowering of a loop, given what its body converts to.
pub open spec fn while_lowered(m: Meta, g: Graph, op: JsonView, body: Result<Graph, ErrorView>) -> Step {
    let ins = input_ids(op);
    if ins.len() == 0 {
        failed(g, message("while requires condition and loop-carried inputs"@))
    } else {
        match tensor_name(m, ins[0]) {
            Err(e) => failed(g, e),
            Ok(condition) => match names_upto(m, carried_ids(op), carried_ids(op).len()) {
                Err(e) => failed(g, e),
                Ok(carried) => match op.field_items("regions"@) {
                    None => failed(g, message("while is missing regions"@)),
                    Some(regions) => if regions.len() == 0 {
                        failed(g, message("while is missing body region"@))
                    } else {
                        match block_args(regions[0]) {
                            None => failed(
                                g,
                                message("while body region is missing block args"@),
                            ),
                            Some(args) => if args.len() != carried.len() {
                                failed(
                                    g,
                                    message(
                                        "while body arg count mismatch: expected "@ + dec(
                                            carried.len() as int,
                                        ) + ", got "@ + dec(args.len() as int),
                                    ),
                                )
                            } else {
                                match (
                                    body,
                                    names_upto(m, output_ids(op), output_ids(op).len()),
                                ) {
                                    (Err(e), _) => failed(g, e),
                                    (_, Err(e)) => failed(g, e),
                                    (Ok(body), Ok(outputs)) => done(
                                        g.with_node(
                                            node_of(
                                                "Loop"@,
                                                seq![Seq::empty(), condition] + carried,
                                                outputs,
                                            ).with(graph_attribute("body"@, body)),
                                        ),
                                    ),
                                }
                            },
                        }
                    },
                },
            },
        }
    }
}

fn name_test(any: bool) -> (r: &'static str)
    ensures
        r@ == test_word(any),
{
    if any {
        "any"
    } else {
        "all"
    }
}

/// The first block of a region.
pub fn read_first_block(region: &Json) -> (r: Option<&Json>)
    ensures
        match r {
            Some(block) => first_block(region@) == Some(block@),
            None => first_block(region@) is None,
        },
{
    match region.get_array("blocks") {
        Some(blocks) => {
            if blocks.len() > 0 {
                Some(&blocks[0])
            } else {
                None
            }
        },
        None => None,
    }
}

impl Converter {
    /// Lowers `any` or `all`.
    pub fn op_any_all(&mut self, op: &Json, is_any: bool) -> (r: Result<(), Error>)
        ensures
            final(self).meta() == old(self).meta(),
            (final(self).onnx_graph@, outcome(r)) == any_all_lowered(
                old(self).meta(),
                old(self).onnx_graph@,
                op@,
                is_any,
            ),
    {
        let ins = op_input_ids(op);
        if ins.len() == 0 {
            return Err(Error::text("any/all requires an input tensor"));
        }
        let id: i64 = op_out_id(op)?;
        let input = self.get_tensor_name(ins[0])?;
        let word = name_test(is_any);
        let casted = join(word, tag("_cast_", id).as_str());
        let reduced = join(word, tag("_reduced_", id).as_str());
        self.add_cast_node(input, casted.clone(), INT64);
        let axes = attr_i64s(op, "axis");
        let given: Option<&Vec<i64>> = match &axes {
            Some(axes) => if axes.len() > 0 {
                Some(axes)
            } else {
                None
            },
            None => None,
        };
        self.add_reduce_node(
            if is_any {
                "ReduceMax"
            } else {
                "ReduceMin"
            },
            casted,
            reduced.clone(),
            given,
            as_bit(attr_bool_or(op, "keepdim", false)),
            join(word, tag("_reduce_", id).as_str()).as_str(),
        );
        let output = self.get_tensor_name(id)?;
        self.add_cast_node(reduced, output, BOOL);
        Ok(())
    }

    fn add_depth(&mut self, id: i64, depth: i64) -> (r: Result<String, Error>)
        ensures
            final(self).meta() == old(self).meta(),
            (final(self).onnx_graph@, name_result(r)) == depth_added(
                old(self).meta(),
                old(self).onnx_graph@,
                id,
                depth,
            ),
    {
        proof {
            reveal(depth_added);
        }
        let casted = tag("one_hot_depth_i64_", id);
        let known: Option<Option<u64>> = match self.state.constants.get(depth) {
            Some(values) => Some(
                if values.len() > 0 {
                    Some(values[0])
                } else {
                    None
                },
            ),
            None => None,
        };
        match known {
            Some(Some(v)) => {
                if !is_finite(v) || !is_integral(v) {
                    return Err(
                        Error::Constant {
                            fault: ConstantFault::OneHotDepth,
                            bits: v,
                            dtype: "int64".to_string(),
                        },
                    );
                }
                self.push_i64_initializer(casted.clone(), ints0(), &ints1(as_i64(v)));
                Ok(casted)
            },
            Some(None) => Err(Error::text("one_hot depth constant is empty")),
            None => {
                let name = self.get_tensor_name(depth)?;
                self.add_cast_node(name, casted.clone(), INT64);
                if self.is_shape(depth, &ints1(1)) {
                    let scalar = tag("one_hot_depth_scalar_", id);
                    self.add_squeeze_node(
                        casted,
                        scalar.clone(),
                        Some(&ints1(0)),
                        Some(tag("one_hot_depth_squeeze_axes_", id)),
                    );
                    return Ok(scalar);
                }
                Ok(casted)
            },
        }
    }

    /// Lowers `one_hot`.
    pub fn op_one_hot(&mut self, op: &Json) -> (r: Result<(), Error>)
        ensures
            final(self).meta() == old(self).meta(),
            (final(self).onnx_graph@, outcome(r)) == one_hot_lowered(
                old(self).meta(),
                old(self).onnx_graph@,
                op@,
            ),
    {
        let ins = op_input_ids(op);
        if ins.len() < 2 {
            return Err(Error::text("one_hot requires indices and depth inputs"));
        }
        let id: i64 = op_out_id(op)?;
        let rank: usize = match self.known_dims(ins[0]) {
            Some(dims) => dims.len(),
            None => 1,
        };
        let indices = self.get_tensor_name(ins[0])?;
        let output = self.get_tensor_name(id)?;
        let whole = tag("one_hot_indices_i64_", id);
        self.add_cast_node(indices, whole.clone(), INT64);
        let depth = self.add_depth(id, ins[1])?;
        let start = tag("one_hot_start_", id);
        let step = tag("one_hot_step_", id);
        let range = tag("one_hot_range_", id);
        let raised = tag("one_hot_indices_expanded_", id);
        let equal = tag("one_hot_equal_", id);
        self.push_i64_initializer(start.clone(), ints0(), &ints1(0));
        self.push_i64_initializer(step.clone(), ints0(), &ints1(1));
        self.add_ternary_node("Range", start, depth, step, range.clone());
        self.add_unsqueeze_node(
            whole,
            raised.clone(),
            &ints1(rank as i64),
            tag("one_hot_unsqueeze_axes_", id),
        );
        self.add_binary_node("Equal", raised, range, equal.clone());
        let dtype: i32 = match self.maybe_onnx_dtype_for_tensor_id(id)? {
            Some(dtype) => dtype,
            None => FLOAT,
        };
        self.add_cast_node(equal, output, dtype);
        Ok(())
    }
}

} // verus!
