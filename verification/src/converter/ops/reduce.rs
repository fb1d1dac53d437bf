//! Reductions, and operators that order the elements of a tensor.

use crate::converter::emit::{
    binary_added, cast_added, done, failed, ints_added, reduce_added, topk_added, unary_added, Step,
};
use crate::converter::ops::common::{
    add_wrapped, axis_from_front, const_ints, first_const, has_type, names_upto, scalar_passed,
};
use crate::converter::optimizer::options::map_get;
use crate::converter::state::{opset_checked, tensor_name, Converter, Meta};
use crate::dtype::{INT32, INT64};
use crate::error::{message, outcome, Error};
use crate::float::{as_i64, to_i64};
use crate::helper::{
    attr_bool_of, attr_bool_or, attr_i64_or, attr_int_of, collect_members, input_ids, members_int,
    op_input_ids, op_out_id, or_default, out_id,
};
use crate::json::{Json, JsonView};
use crate::onnx::{attr_int, int_attribute, node_of, views, Graph, NodeProto};
use crate::text::{dec, int_text, ints1, join, join3, list1, list2, names, tag, tagged};
use vstd::prelude::*;

verus! {

/// One for true, zero for false.
pub open spec fn bit(b: bool) -> i64 {
    if b {
        1
    } else {
        0
    }
}

/// One for true, zero for false.
pub fn as_bit(b: bool) -> (r: i64)
    ensures
        r == bit(b),
{
    if b {
        1
    } else {
        0
    }
}

/// The input that gives the axes of a reduction. Id zero stands for an input that is not there.
pub open spec fn axes_id(ins: Seq<i64>) -> Option<i64> {
    if ins.len() > 1 && ins[1] != 0 {
        Some(ins[1])
    } else {
        None
    }
}

/// A reduction whose axes are known while the graph runs.
pub open spec fn reduced_at_run(m: Meta, g: Graph, id: i64, input: i64, axes: i64, onnx_op: Seq<char>, prefix: Seq<char>, keep: i64) -> Step {
    if m.target_opset < 18 {
        failed(g, message(onnx_op + " with dynamic axes requires opset >= 18"@))
    } else {
        match tensor_name(m, axes) {
            Err(e) => failed(g, e),
            Ok(name) => {
                let typed = has_type(m, axes, "0.t_i64"@);
                let casted = prefix + "_axes_i64_"@ + dec(id as int);
                let g = if typed {
                    g
                } else {
                    cast_added(g, name, casted, INT64)
                };
                let list = if typed {
                    name
                } else {
                    casted
                };
                match (tensor_name(m, input), tensor_name(m, id)) {
                    (Err(e), _) => failed(g, e),
                    (_, Err(e)) => failed(g, e),
                    (Ok(from), Ok(output)) => done(
                        g.with_node(
                            node_of(onnx_op, seq![from, list], seq![output]).with(
                                int_attribute("keepdims"@, keep),
                            ),
                        ),
                    ),
                }
            },
        }
    }
}

/// The lowering of a reduction: over the axes of a constant input, over all axes where there is
/// none, or over axes that are known while the graph runs.
pub open spec fn reduction_lowered(m: Meta, g: Graph, op: JsonView, missing: Seq<char>, onnx_op: Seq<char>, prefix: Seq<char>) -> Step {
    let ins = input_ids(op);
    match out_id(op) {
        Err(e) => failed(g, e),
        Ok(id) => if ins.len() == 0 {
            failed(g, message(missing))
        } else {
            match scalar_passed(m, g, ins[0], id) {
                (g, Err(e)) => failed(g, e),
                (g, Ok(true)) => done(g),
                (g, Ok(false)) => {
                    let keep = bit(or_default(attr_bool_of(op, "keepdim"@), true));
                    let axes = match axes_id(ins) {
                        Some(axis) => const_ints(m, axis),
                        None => None,
                    };
                    if axes_id(ins) is Some && axes is None {
                        reduced_at_run(m, g, id, ins[0], ins[1], onnx_op, prefix, keep)
                    } else {
                        match (tensor_name(m, ins[0]), tensor_name(m, id)) {
                            (Err(e), _) => failed(g, e),
                            (_, Err(e)) => failed(g, e),
                            (Ok(input), Ok(output)) => done(
                                reduce_added(
                                    g,
                                    m.target_opset,
                                    onnx_op,
                                    input,
                                    output,
                                    axes,
                                    keep,
                                    prefix + "_"@ + dec(id as int),
                                ),
                            ),
                        }
                    }
                },
            }
        },
    }
}

/// The lowering of `sum`.
pub open spec fn sum_lowered(m: Meta, g: Graph, op: JsonView) -> Step {
    let ins = input_ids(op);
    match out_id(op) {
        Err(e) => failed(g, e),
        Ok(id) => if ins.len() == 0 {
            failed(g, message("sum missing inputs"@))
        } else {
            match scalar_passed(m, g, ins[0], id) {
                (g, Err(e)) => failed(g, e),
                (g, Ok(true)) => done(g),
                (g, Ok(false)) => match (tensor_name(m, ins[0]), tensor_name(m, id)) {
                    (Err(e), _) => failed(g, e),
                    (_, Err(e)) => failed(g, e),
                    (Ok(input), Ok(output)) => {
                        let keep = int_attribute(
                            "keepdims"@,
                            bit(or_default(attr_bool_of(op, "keepdim"@), true)),
                        );
                        match axes_id(ins) {
                            None => done(
                                g.with_node(
                                    node_of("ReduceSum"@, seq![input], seq![output]).with(keep),
                                ),
                            ),
                            Some(axis) => match tensor_name(m, axis) {
                                Err(e) => failed(g, e),
                                Ok(axes) => done(
                                    g.with_node(
                                        node_of(
                                            "ReduceSum"@,
                                            seq![input, axes],
                                            seq![output],
                                        ).with(keep),
                                    ),
                                ),
                            },
                        }
                    },
                },
            }
        },
    }
}

impl Converter {
    fn reduce_while_running(
        &mut self,
        id: i64,
        input: i64,
        axes: i64,
        onnx_op: &str,
        prefix: &str,
        keep: i64,
    ) -> (r: Result<(), Error>)
        ensures
            final(self).meta() == old(self).meta(),
            (final(self).onnx_graph@, outcome(r)) == reduced_at_run(
                old(self).meta(),
                old(self).onnx_graph@,
                id,
                input,
                axes,
                onnx_op@,
                prefix@,
                keep,
            ),
    {
        if self.target_opset < 18 {
            return Err(
                Error::owned(join(onnx_op, " with dynamic axes requires opset >= 18")),
            );
        }
        let mut list = self.get_tensor_name(axes)?;
        if !self.is_type(axes, "0.t_i64") {
            let casted = join3(prefix, "_axes_i64_", int_text(id).as_str());
            self.add_cast_node(list, casted.clone(), INT64);
            list = casted;
        }
        let from = self.get_tensor_name(input)?;
        let output = self.get_tensor_name(id)?;
        self.add_node(
            NodeProto::new(onnx_op, list2(from, list), list1(output)).with(
                attr_int("keepdims", keep),
            ),
        );
        Ok(())
    }

    fn reduce_via_const_axes(
        &mut self,
        op: &Json,
        missing_input_msg: &str,
        onnx_op: &str,
        node_prefix: &str,
    ) -> (r: Result<(), Error>)
        ensures
            final(self).meta() == old(self).meta(),
            (final(self).onnx_graph@, outcome(r)) == reduction_lowered(
                old(self).meta(),
                old(self).onnx_graph@,
                op@,
                missing_input_msg@,
                onnx_op@,
                node_prefix@,
            ),
    {
        let id: i64 = op_out_id(op)?;
        let inputs = op_input_ids(op);
        if inputs.len() == 0 {
            return Err(Error::text(missing_input_msg));
        }
        if self.scalar_reduce_passthrough(inputs[0], id)? {
            return Ok(());
        }
        let keep: i64 = as_bit(attr_bool_or(op, "keepdim", true));
        let given = inputs.len() > 1 && inputs[1] != 0;
        let axes: Option<Vec<i64>> = if given {
            self.constant_ints(inputs[1])
        } else {
            None
        };
        if given && axes.is_none() {
            return self.reduce_while_running(
                id,
                inputs[0],
                inputs[1],
                onnx_op,
                node_prefix,
                keep,
            );
        }
        let input = self.get_tensor_name(inputs[0])?;
        let output = self.get_tensor_name(id)?;
        let prefix = join3(node_prefix, "_", int_text(id).as_str());
        match axes {
            Some(axes) => {
                self.add_reduce_node(onnx_op, input, output, Some(&axes), keep, prefix.as_str());
            },
            None => {
                self.add_reduce_node(onnx_op, input, output, None, keep, prefix.as_str());
            },
        }
        Ok(())
    }

    /// Lowers `max`.
    pub fn op_reduce_max(&mut self, op: &Json) -> (r: Result<(), Error>)
        ensures
            final(self).meta() == old(self).meta(),
            (final(self).onnx_graph@, outcome(r)) == reduction_lowered(
                old(self).meta(),
                old(self).onnx_graph@,
                op@,
                "max missing inputs"@,
                "ReduceMax"@,
                "reduce_max"@,
            ),
    {
        self.reduce_via_const_axes(op, "max missing inputs", "ReduceMax", "reduce_max")
    }

    /// Lowers `mean`.
    pub fn op_reduce_mean(&mut self, op: &Json) -> (r: Result<(), Error>)
        ensures
            final(self).meta() == old(self).meta(),
            (final(self).onnx_graph@, outcome(r)) == reduction_lowered(
                old(self).meta(),
                old(self).onnx_graph@,
                op@,
                "mean missing inputs"@,
                "ReduceMean"@,
                "reduce_mean"@,
            ),
    {
        self.reduce_via_const_axes(op, "mean missing inputs", "ReduceMean", "reduce_mean")
    }

    /// Lowers `prod`.
    pub fn op_reduce_prod(&mut self, op: &Json) -> (r: Result<(), Error>)
        ensures
            final(self).meta() == old(self).meta(),
            (final(self).onnx_graph@, outcome(r)) == reduction_lowered(
                old(self).meta(),
                old(self).onnx_graph@,
                op@,
                "prod missing inputs"@,
                "ReduceProd"@,
                "reduce_prod"@,
            ),
    {
        self.reduce_via_const_axes(op, "prod missing inputs", "ReduceProd", "reduce_prod")
    }

    /// Lowers `min`.
    pub fn op_reduce_min(&mut self, op: &Json) -> (r: Result<(), Error>)
        ensures
            final(self).meta() == old(self).meta(),
            (final(self).onnx_graph@, outcome(r)) == reduction_lowered(
                old(self).meta(),
                old(self).onnx_graph@,
                op@,
                "min missing inputs"@,
                "ReduceMin"@,
                "reduce_min"@,
            ),
    {
        self.reduce_via_const_axes(op, "min missing inputs", "ReduceMin", "reduce_min")
    }

    /// Lowers `sum`.
    pub fn op_reduce_sum(&mut self, op: &Json) -> (r: Result<(), Error>)
        ensures
            final(self).meta() == old(self).meta(),
            (final(self).onnx_graph@, outcome(r)) == sum_lowered(
                old(self).meta(),
                old(self).onnx_graph@,
                op@,
            ),
    {
        let id: i64 = op_out_id(op)?;
        let inputs = op_input_ids(op);
        if inputs.len() == 0 {
            return Err(Error::text("sum missing inputs"));
        }
        if self.scalar_reduce_passthrough(inputs[0], id)? {
            return Ok(());
        }
        let input = self.get_tensor_name(inputs[0])?;
        let output = self.get_tensor_name(id)?;
        let list = if inputs.len() > 1 && inputs[1] != 0 {
            list2(input, self.get_tensor_name(inputs[1])?)
        } else {
            list1(input)
        };
        self.add_node(
            NodeProto::new("ReduceSum", list, list1(output)).with(
                attr_int("keepdims", as_bit(attr_bool_or(op, "keepdim", true))),
            ),
        );
        Ok(())
    }
}

// ---- topk ----

/// The ids of the first `k` outputs, each of which must have one.
pub open spec fn all_ids(outs: Seq<JsonView>, k: nat) -> Option<Seq<i64>>
    decreases k,
{
    if k == 0 {
        Some(Seq::empty())
    } else {
        match (all_ids(outs, (k - 1) as nat), outs[k - 1].field_int("%"@)) {
            (Some(front), Some(id)) => Some(front.push(id)),
            _ => None,
        }
    }
}

/// The lowering of `topk`.
pub open spec fn topk_lowered(m: Meta, g: Graph, op: JsonView) -> Step {
    let ins = input_ids(op);
    match op.field_items("O"@) {
        None => failed(g, message("topk missing outputs"@)),
        Some(outs) => if ins.len() < 2 {
            failed(g, message("topk missing inputs"@))
        } else if outs.len() == 0 || outs[0].field_int("%"@) is None {
            failed(g, message("topk missing primary output id"@))
        } else {
            let id = outs[0].field_int("%"@)->0;
            match tensor_name(m, ins[1]) {
                Err(e) => failed(g, e),
                Ok(name) => {
                    let typed = has_type(m, ins[1], "0.t_i64"@);
                    let casted = tagged("topk_k_i64_"@, id);
                    let g = if typed {
                        g
                    } else {
                        cast_added(g, name, casted, INT64)
                    };
                    let k = if typed {
                        name
                    } else {
                        casted
                    };
                    match all_ids(outs, outs.len()) {
                        None => failed(g, message("topk output missing id"@)),
                        Some(ids) => match (names_upto(m, ids, ids.len()), tensor_name(m, ins[0])) {
                            (Err(e), _) => failed(g, e),
                            (_, Err(e)) => failed(g, e),
                            (Ok(outputs), Ok(input)) => {
                                let axis = int_attribute(
                                    "axis"@,
                                    or_default(attr_int_of(op, "axis"@), -1i64),
                                );
                                let largest = int_attribute(
                                    "largest"@,
                                    bit(or_default(attr_bool_of(op, "largest"@), true)),
                                );
                                let sorted = int_attribute(
                                    "sorted"@,
                                    bit(or_default(attr_bool_of(op, "sorted"@), true)),
                                );
                                if m.target_opset >= 11 {
                                    done(
                                        g.with_node(
                                            node_of("TopK"@, seq![input, k], outputs).with(
                                                axis,
                                            ).with(largest).with(sorted),
                                        ),
                                    )
                                } else {
                                    match first_const(m, ins[1]) {
                                        None => failed(
                                            g,
                                            message("topk: opset <= 10 requires constant k"@),
                                        ),
                                        Some(count) => done(
                                            g.with_node(
                                                node_of("TopK"@, seq![input], outputs).with(
                                                    int_attribute("k"@, to_i64(count)),
                                                ).with(axis).with(largest).with(sorted),
                                            ),
                                        ),
                                    }
                                }
                            },
                        },
                    }
                },
            }
        },
    }
}

fn collect_all_ids(outs: &Vec<Json>) -> (r: Option<Vec<i64>>)
    ensures
        match r {
            Some(list) => all_ids(views(outs@), outs@.len()) == Some(list@),
            None => all_ids(views(outs@), outs@.len()) is None,
        },
{
    let mut list: Vec<i64> = Vec::new();
    let mut i: usize = 0;
    while i < outs.len()
        invariant
            i <= outs.len(),
            all_ids(views(outs@), i as nat) == Some(list@),
        decreases outs.len() - i,
    {
        match outs[i].get_i64("%") {
            Some(id) => {
                list.push(id);
            },
            None => {
                proof {
                    lemma_all_ids_none(views(outs@), (i + 1) as nat, outs@.len());
                }
                return None;
            },
        }
        i = i + 1;
    }
    Some(list)
}

proof fn lemma_all_ids_none(outs: Seq<JsonView>, k: nat, n: nat)
    requires
        k <= n,
        all_ids(outs, k) is None,
    ensures
        all_ids(outs, n) is None,
    decreases n,
{
    if k < n {
        lemma_all_ids_none(outs, k, (n - 1) as nat);
    }
}

impl Converter {
    /// Lowers `topk`.
    pub fn op_topk(&mut self, op: &Json) -> (r: Result<(), Error>)
        ensures
            final(self).meta() == old(self).meta(),
            (final(self).onnx_graph@, outcome(r)) == topk_lowered(
                old(self).meta(),
                old(self).onnx_graph@,
                op@,
            ),
    {
        let outs = match op.get_array("O") {
            Some(outs) => outs,
            None => {
                return Err(Error::text("topk missing outputs"));
            },
        };
        let inputs = op_input_ids(op);
        if inputs.len() < 2 {
            return Err(Error::text("topk missing inputs"));
        }
        if outs.len() == 0 {
            return Err(Error::text("topk missing primary output id"));
        }
        let id: i64 = match outs[0].get_i64("%") {
            Some(id) => id,
            None => {
                return Err(Error::text("topk missing primary output id"));
            },
        };
        let mut k = self.get_tensor_name(inputs[1])?;
        if !self.is_type(inputs[1], "0.t_i64") {
            let casted = tag("topk_k_i64_", id);
            self.add_cast_node(k, casted.clone(), INT64);
            k = casted;
        }
        let ids = match collect_all_ids(outs) {
            Some(ids) => ids,
            None => {
                return Err(Error::text("topk output missing id"));
            },
        };
        let outputs = self.first_names(&ids, ids.len())?;
        let input = self.get_tensor_name(inputs[0])?;
        let mut node;
        if self.target_opset >= 11 {
            node = NodeProto::new("TopK", list2(input, k), outputs);
        } else {
            let count: u64 = match self.first_constant(inputs[1]) {
                Some(count) => count,
                None => {
                    return Err(Error::text("topk: opset <= 10 requires constant k"));
                },
            };
            node = NodeProto::new("TopK", list1(input), outputs).with(
                attr_int("k", as_i64(count)),
            );
        }
        node = node.with(attr_int("axis", attr_i64_or(op, "axis", -1))).with(
            attr_int("largest", as_bit(attr_bool_or(op, "largest", true))),
        ).with(attr_int("sorted", as_bit(attr_bool_or(op, "sorted", true))));
        self.add_node(node);
        Ok(())
    }
}

// ---- argmax ----

/// The lowering of `argmax`, which yields `INT64` and is cast where `INT32` is asked for.
pub open spec fn argmax_lowered(m: Meta, g: Graph, op: JsonView) -> Step {
    let ins = input_ids(op);
    if or_default(attr_bool_of(op, "flatten"@), false) {
        failed(g, message("argmax with flatten=true is not supported"@))
    } else {
        match out_id(op) {
            Err(e) => failed(g, e),
            Ok(id) => if ins.len() == 0 {
                failed(g, message("argmax missing inputs"@))
            } else {
                match (tensor_name(m, id), tensor_name(m, ins[0])) {
                    (Err(e), _) => failed(g, e),
                    (_, Err(e)) => failed(g, e),
                    (Ok(output), Ok(input)) => {
                        let narrow = has_type(m, id, "0.t_i32"@);
                        let wide = tagged("argmax_i64_"@, id);
                        let result = if narrow {
                            wide
                        } else {
                            output
                        };
                        let node = node_of("ArgMax"@, seq![input], seq![result]);
                        let node = if ins.len() > 1 && first_const(m, ins[1]) is Some {
                            node.with(int_attribute("axis"@, to_i64(first_const(m, ins[1])->0)))
                        } else {
                            node
                        };
                        let g = g.with_node(
                            node.with(
                                int_attribute(
                                    "keepdims"@,
                                    bit(or_default(attr_bool_of(op, "keepdims"@), true)),
                                ),
                            ),
                        );
                        if narrow {
                            done(cast_added(g, wide, output, INT32))
                        } else {
                            done(g)
                        }
                    },
                }
            },
        }
    }
}

impl Converter {
    /// Lowers `argmax`.
    pub fn op_argmax(&mut self, op: &Json) -> (r: Result<(), Error>)
        ensures
            final(self).meta() == old(self).meta(),
            (final(self).onnx_graph@, outcome(r)) == argmax_lowered(
                old(self).meta(),
                old(self).onnx_graph@,
                op@,
            ),
    {
        if attr_bool_or(op, "flatten", false) {
            return Err(Error::text("argmax with flatten=true is not supported"));
        }
        let id: i64 = op_out_id(op)?;
        let inputs = op_input_ids(op);
        if inputs.len() == 0 {
            return Err(Error::text("argmax missing inputs"));
        }
        let output = self.get_tensor_name(id)?;
        let narrow = self.is_type(id, "0.t_i32");
        let result = if narrow {
            tag("argmax_i64_", id)
        } else {
            output.clone()
        };
        let input = self.get_tensor_name(inputs[0])?;
        let mut node = NodeProto::new("ArgMax", list1(input), list1(result));
        if inputs.len() > 1 {
            match self.first_constant(inputs[1]) {
                Some(axis) => {
                    node = node.with(attr_int("axis", as_i64(axis)));
                },
                None => {},
            }
        }
        node = node.with(attr_int("keepdims", as_bit(attr_bool_or(op, "keepdims", true))));
        self.add_node(node);
        if narrow {
            self.add_cast_node(tag("argmax_i64_", id), output, INT32);
        }
        Ok(())
    }
}

// ---- argsort ----

/// The axis of a sort counted from the front, where the rank is known.
pub open spec fn sort_axis(m: Meta, input: i64, axis: i64) -> Option<i64> {
    match axis_from_front(m, input, axis) {
        Ok(axis) => Some(axis),
        Err(_) => None,
    }
}

/// The size along the sorted axis, where it is known and positive.
pub open spec fn sort_length(m: Meta, input: i64, axis: Option<i64>) -> Option<i64> {
    match (axis, map_get(m.tensor_shapes, input)) {
        (Some(axis), Some(dims)) => if 0 <= axis < dims.len() && dims[axis as int] > 0 {
            Some(dims[axis as int])
        } else {
            None
        },
        _ => None,
    }
}

/// What is added to equal keys so that they keep their order.
pub open spec fn tie_values(length: i64, descending: bool) -> Seq<i64> {
    Seq::new(
        length as nat,
        |i: int|
            if descending {
                (length - i) as i64
            } else {
                i as i64
            },
    )
}

/// The shape of those values: one along every axis but the sorted one.
pub open spec fn tie_dims(rank: nat, axis: int, length: i64) -> Seq<i64> {
    Seq::new(
        rank,
        |d: int|
            if d == axis {
                length
            } else {
                1i64
            },
    )
}

/// A sort of integers in which equal elements keep their order: the key is the element times a
/// factor plus its position.
pub open spec fn sorted_with_ties(m: Meta, g: Graph, id: i64, input: Seq<char>, narrow: bool, k: Seq<char>, outputs: Seq<Seq<char>>, rank: nat, axis: i64, length: i64, descending: bool) -> Graph {
    let wide = tagged("argsort_input_i64_"@, id);
    let scale = tagged("argsort_tie_scale_"@, id);
    let tie = tagged("argsort_tie_break_"@, id);
    let scaled = tagged("argsort_scaled_input_"@, id);
    let key = tagged("argsort_key_"@, id);
    let g = if narrow {
        cast_added(g, input, wide, INT64)
    } else {
        g
    };
    let keyed = if narrow {
        wide
    } else {
        input
    };
    let g = ints_added(g, scale, seq![1i64], seq![add_wrapped(length, 1)]);
    let g = ints_added(g, tie, tie_dims(rank, axis as int, length), tie_values(length, descending));
    let g = binary_added(g, "Mul"@, keyed, scale, scaled);
    let g = binary_added(g, "Add"@, scaled, tie, key);
    let g = topk_added(
        g,
        key,
        k,
        tagged("argsort_key_values_"@, id),
        outputs[1],
        axis,
        bit(descending),
        1,
    );
    g.with_node(
        node_of("GatherElements"@, seq![input, outputs[1]], seq![outputs[0]]).with(
            int_attribute("axis"@, axis),
        ),
    )
}

/// The lowering of `argsort`.
pub open spec fn argsort_lowered(m: Meta, g: Graph, op: JsonView) -> Step {
    let ins = input_ids(op);
    match op.field_items("O"@) {
        None => failed(g, message("argsort missing outputs"@)),
        Some(outs) => if outs.len() < 2 {
            failed(g, message("argsort expects two outputs"@))
        } else if ins.len() == 0 {
            failed(g, message("argsort missing inputs"@))
        } else {
            let ids = members_int(outs, "%"@, outs.len());
            let axis = or_default(attr_int_of(op, "axis"@), -1i64);
            let descending = or_default(attr_bool_of(op, "descending"@), false);
            let stable = or_default(attr_bool_of(op, "stable"@), false);
            match (tensor_name(m, ins[0]), names_upto(m, ids, ids.len())) {
                (Err(e), _) => failed(g, e),
                (_, Err(e)) => failed(g, e),
                (Ok(input), Ok(outputs)) => {
                    let front = sort_axis(m, ins[0], axis);
                    let checked = if front is None && axis < 0 {
                        opset_checked(m, 13, "argsort negative axis gather"@)
                    } else {
                        Ok(())
                    };
                    match checked {
                        Err(e) => failed(g, e),
                        Ok(_) => {
                            let at = or_default(front, axis);
                            let id = or_default(outs[0].field_int("%"@), 0);
                            let shape = tagged("argsort_shape_"@, id);
                            let axis_name = "argsort_axis_"@ + shape;
                            let k = "argsort_k_"@ + shape;
                            let g = unary_added(g, "Shape"@, input, shape);
                            let g = ints_added(g, axis_name, seq![1i64], seq![at]);
                            let g = binary_added(g, "Gather"@, shape, axis_name, k);
                            let length = sort_length(m, ins[0], front);
                            if !stable && (has_type(m, ins[0], "0.t_i32"@) || has_type(
                                m,
                                ins[0],
                                "0.t_i64"@,
                            )) && length is Some {
                                if outputs.len() < 2 {
                                    failed(g, message("argsort expects two outputs"@))
                                } else {
                                    done(
                                        sorted_with_ties(
                                            m,
                                            g,
                                            id,
                                            input,
                                            has_type(m, ins[0], "0.t_i32"@),
                                            k,
                                            outputs,
                                            m.tensor_shapes[ins[0]].len(),
                                            front->0,
                                            length->0,
                                            descending,
                                        ),
                                    )
                                }
                            } else {
                                done(
                                    g.with_node(
                                        node_of("TopK"@, seq![input, k], outputs).with(
                                            int_attribute("axis"@, at),
                                        ).with(
                                            int_attribute("largest"@, bit(descending)),
                                        ).with(int_attribute("sorted"@, 1)),
                                    ),
                                )
                            }
                        },
                    }
                },
            }
        },
    }
}

fn make_tie_values(length: i64, descending: bool) -> (r: Vec<i64>)
    requires
        length >= 0,
    ensures
        r@ == tie_values(length, descending),
{
    let mut list: Vec<i64> = Vec::new();
    let mut i: i64 = 0;
    while i < length
        invariant
            0 <= i <= length,
            list@ =~= tie_values(length, descending).take(i as int),
        decreases length - i,
    {
        if descending {
            list.push(length - i);
        } else {
            list.push(i);
        }
        i = i + 1;
    }
    proof {
        assert(tie_values(length, descending).take(i as int) =~= tie_values(length, descending));
    }
    list
}

fn make_tie_dims(rank: usize, axis: i64, length: i64) -> (r: Vec<i64>)
    ensures
        r@ == tie_dims(rank as nat, axis as int, length),
{
    let mut list: Vec<i64> = Vec::new();
    let mut d: usize = 0;
    while d < rank
        invariant
            d <= rank,
            list@ =~= tie_dims(rank as nat, axis as int, length).take(d as int),
        decreases rank - d,
    {
        if axis >= 0 && axis as u64 == d as u64 {
            list.push(length);
        } else {
            list.push(1);
        }
        d = d + 1;
    }
    proof {
        assert(tie_dims(rank as nat, axis as int, length).take(d as int) =~= tie_dims(
            rank as nat,
            axis as int,
            length,
        ));
    }
    list
}

impl Converter {
    fn find_sort_length(&self, input: i64, axis: Option<i64>) -> (r: Option<i64>)
        ensures
            r == sort_length(self.meta(), input, axis),
    {
        match axis {
            Some(axis) => match self.state.tensor_shapes.get(input) {
                Some(dims) => {
                    if axis >= 0 && (axis as u64) < dims.len() as u64 && dims[axis as usize] > 0 {
                        Some(dims[axis as usize])
                    } else {
                        None
                    }
                },
                None => None,
            },
            None => None,
        }
    }

    fn sort_with_ties(
        &mut self,
        id: i64,
        input: String,
        narrow: bool,
        k: String,
        outputs: &Vec<String>,
        rank: usize,
        axis: i64,
        length: i64,
        descending: bool,
    )
        requires
            outputs.len() >= 2,
            length >= 0,
        ensures
            final(self).meta() == old(self).meta(),
            final(self).onnx_graph@ == sorted_with_ties(
                old(self).meta(),
                old(self).onnx_graph@,
                id,
                input@,
                narrow,
                k@,
                names(outputs@),
                rank as nat,
                axis,
                length,
                descending,
            ),
    {
        proof {
            assert(names(outputs@)[0] == outputs@[0]@);
            assert(names(outputs@)[1] == outputs@[1]@);
        }
        let keyed = if narrow {
            let wide = tag("argsort_input_i64_", id);
            self.add_cast_node(input.clone(), wide.clone(), INT64);
            wide
        } else {
            input.clone()
        };
        self.push_i64_initializer(
            tag("argsort_tie_scale_", id),
            ints1(1),
            &ints1(length.wrapping_add(1)),
        );
        self.push_i64_initializer(
            tag("argsort_tie_break_", id),
            make_tie_dims(rank, axis, length),
            &make_tie_values(length, descending),
        );
        self.add_binary_node(
            "Mul",
            keyed,
            tag("argsort_tie_scale_", id),
            tag("argsort_scaled_input_", id),
        );
        self.add_binary_node(
            "Add",
            tag("argsort_scaled_input_", id),
            tag("argsort_tie_break_", id),
            tag("argsort_key_", id),
        );
        self.add_topk_node(
            tag("argsort_key_", id),
            k,
            tag("argsort_key_values_", id),
            outputs[1].clone(),
            axis,
            as_bit(descending),
            1,
        );
        self.add_node(
            NodeProto::new(
                "GatherElements",
                list2(input, outputs[1].clone()),
                list1(outputs[0].clone()),
            ).with(attr_int("axis", axis)),
        );
    }

    /// Lowers `argsort`.
    pub fn op_argsort(&mut self, op: &Json) -> (r: Result<(), Error>)
        ensures
            final(self).meta() == old(self).meta(),
            (final(self).onnx_graph@, outcome(r)) == argsort_lowered(
                old(self).meta(),
                old(self).onnx_graph@,
                op@,
            ),
    {
        let outs = match op.get_array("O") {
            Some(outs) => outs,
            None => {
                return Err(Error::text("argsort missing outputs"));
            },
        };
        if outs.len() < 2 {
            return Err(Error::text("argsort expects two outputs"));
        }
        let inputs = op_input_ids(op);
        if inputs.len() == 0 {
            return Err(Error::text("argsort missing inputs"));
        }
        let input = self.get_tensor_name(inputs[0])?;
        let axis: i64 = attr_i64_or(op, "axis", -1);
        let descending = attr_bool_or(op, "descending", false);
        let stable = attr_bool_or(op, "stable", false);
        let ids = collect_members(outs, "%");
        let outputs = self.first_names(&ids, ids.len())?;
        let front: Option<i64> = match self.normalize_axis(inputs[0], axis) {
            Ok(front) => Some(front),
            Err(_) => None,
        };
        if front.is_none() && axis < 0 {
            self.require_opset(13, "argsort negative axis gather")?;
        }
        let at: i64 = match front {
            Some(front) => front,
            None => axis,
        };
        let id: i64 = match outs[0].get_i64("%") {
            Some(id) => id,
            None => 0,
        };
        let shape = tag("argsort_shape_", id);
        let axis_name = join("argsort_axis_", shape.as_str());
        let k = join("argsort_k_", shape.as_str());
        self.add_unary_node("Shape", input.clone(), shape.clone());
        self.push_i64_initializer(axis_name.clone(), ints1(1), &ints1(at));
        self.add_binary_node("Gather", shape, axis_name, k.clone());
        let length: Option<i64> = self.find_sort_length(inputs[0], front);
        let narrow = self.is_type(inputs[0], "0.t_i32");
        if !stable && (narrow || self.is_type(inputs[0], "0.t_i64")) {
            match length {
                Some(length) => {
                    proof {
                        assert(names(outputs@).len() == outputs@.len());
                    }
                    if outputs.len() < 2 {
                        return Err(Error::text("argsort expects two outputs"));
                    }
                    let rank: usize = match self.state.tensor_shapes.get(inputs[0]) {
                        Some(dims) => dims.len(),
                        None => 0,
                    };
                    self.sort_with_ties(
                        id,
                        input,
                        narrow,
                        k,
                        &outputs,
                        rank,
                        at,
                        length,
                        descending,
                    );
                    return Ok(());
                },
                None => {},
            }
        }
        self.add_node(
            NodeProto::new("TopK", list2(input, k), outputs).with(attr_int("axis", at)).with(
                attr_int("largest", as_bit(descending)),
            ).with(attr_int("sorted", 1)),
        );
        Ok(())
    }
}

} // verus!
