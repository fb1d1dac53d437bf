//! What the nodes that stand for reductions and sorts compute.

use crate::converter::ops::common::{
    axis_from_front, const_ints, first_const, has_shape, has_type, names_upto,
};
use crate::converter::ops::reduce::{
    all_ids, argmax_lowered, argsort_lowered, reduction_lowered, sum_lowered, topk_lowered,
};
use crate::converter::state::{tensor_name, Meta};
use crate::dtype::{INT32, INT64};
use crate::float::to_i64;
use crate::helper::{attr_bool_of, attr_int_of, input_ids, members_int, or_default, out_id};
use crate::json::JsonView;
use crate::laws::meaning::{
    computes, group_runs, input_of, lemma_int_node, lemma_names, lemma_node_output, output_of, ran,
    scalar_kept, seen, value_of, whole, Values, World,
};
use crate::onnx::{int_attribute, node_of, Attribute, Graph};
use crate::text::{dec, tagged};
use vstd::prelude::*;

verus! {

/// One where a flag is not given as false, and zero otherwise.
pub open spec fn unless_false(op: JsonView, name: Seq<char>) -> int {
    if attr_bool_of(op, name) == Some(false) {
        0
    } else {
        1
    }
}

/// Whether an operator has a second input.
pub open spec fn has_second(op: JsonView) -> bool {
    input_ids(op).len() > 1 && input_ids(op)[1] != 0
}

/// A reduction is by the operator that it is asked for: of a scalar the scalar itself, without a
/// second input over everything, and otherwise along the axes of the second input. The axes stay
/// with size one unless they are not to.
pub proof fn law_reduction<V>(
    w: World<V>,
    env: Values<V>,
    m: Meta,
    g: Graph,
    op: JsonView,
    missing: Seq<char>,
    onnx_op: Seq<char>,
    prefix: Seq<char>,
)
    requires
        ran(w, env, reduction_lowered(m, g, op, missing, onnx_op, prefix)),
    ensures
        ({
            let x = input_of(m, env, op, 0);
            let keep = unless_false(op, "keepdim"@);
            output_of(m, env, op) == if has_shape(m, input_ids(op)[0], Seq::empty()) {
                scalar_kept(w, m, env, input_ids(op)[0], out_id(op)->Ok_0)
            } else if !has_second(op) {
                w.with_int(onnx_op, seq![x], "keepdims"@, keep)
            } else {
                match const_ints(m, input_ids(op)[1]) {
                    Some(axes) => w.reduce(onnx_op, x, axes, keep),
                    None => w.with_int(
                        onnx_op,
                        seq![x, whole(w, m, env, input_ids(op)[1])],
                        "keepdims"@,
                        keep,
                    ),
                }
            }
        }),
{
    broadcast use group_runs;

    let ins = input_ids(op);
    let id = out_id(op)->Ok_0;
    if !has_shape(m, ins[0], Seq::empty()) && has_second(op) && const_ints(m, ins[1]) is None {
        let from = tensor_name(m, ins[0])->Ok_0;
        let list = if has_type(m, ins[1], "0.t_i64"@) {
            tensor_name(m, ins[1])->Ok_0
        } else {
            prefix + "_axes_i64_"@ + dec(id as int)
        };
        let keep = unless_false(op, "keepdim"@) as i64;
        lemma_int_node(
            w,
            env,
            onnx_op,
            seq![from, list],
            tensor_name(m, id)->Ok_0,
            "keepdims"@,
            keep,
        );
        assert(seen(env, seq![from, list]) =~= seq![env(from), env(list)]);
    }
}

/// `sum` adds up: a scalar is its own sum, without a second input everything is added, and
/// otherwise along the axes that the second input gives.
pub proof fn law_sum<V>(w: World<V>, env: Values<V>, m: Meta, g: Graph, op: JsonView)
    requires
        ran(w, env, sum_lowered(m, g, op)),
    ensures
        ({
            let x = input_of(m, env, op, 0);
            let keep = unless_false(op, "keepdim"@);
            output_of(m, env, op) == if has_shape(m, input_ids(op)[0], Seq::empty()) {
                scalar_kept(w, m, env, input_ids(op)[0], out_id(op)->Ok_0)
            } else if has_second(op) {
                w.with_int("ReduceSum"@, seq![x, input_of(m, env, op, 1)], "keepdims"@, keep)
            } else {
                w.with_int("ReduceSum"@, seq![x], "keepdims"@, keep)
            }
        }),
{
    broadcast use group_runs;

    let ins = input_ids(op);
    let output = tensor_name(m, out_id(op)->Ok_0)->Ok_0;
    if !has_shape(m, ins[0], Seq::empty()) {
        let from = tensor_name(m, ins[0])->Ok_0;
        let keep = unless_false(op, "keepdim"@) as i64;
        if has_second(op) {
            let axes = tensor_name(m, ins[1])->Ok_0;
            lemma_int_node(w, env, "ReduceSum"@, seq![from, axes], output, "keepdims"@, keep);
            assert(seen(env, seq![from, axes]) =~= seq![env(from), env(axes)]);
        } else {
            lemma_int_node(w, env, "ReduceSum"@, seq![from], output, "keepdims"@, keep);
            assert(seen(env, seq![from]) =~= seq![env(from)]);
        }
    }
}

/// What is told to `TopK`: an axis, whether the greatest are wanted, and whether in order.
pub open spec fn topk_attributes(op: JsonView) -> Seq<Attribute> {
    seq![
        int_attribute("axis"@, or_default(attr_int_of(op, "axis"@), -1i64)),
        int_attribute("largest"@, unless_false(op, "largest"@) as i64),
        int_attribute("sorted"@, unless_false(op, "sorted"@) as i64),
    ]
}

/// `topk` yields the greatest elements along an axis, or the least where the greatest are not
/// wanted, and their positions; as many as the second input says.
pub proof fn law_topk<V>(w: World<V>, env: Values<V>, m: Meta, g: Graph, op: JsonView, k: int)
    requires
        ran(w, env, topk_lowered(m, g, op)),
        op.field_items("O"@) is Some,
        0 <= k < (op.field_items("O"@)->0).len(),
    ensures
        ({
            let outs = op.field_items("O"@)->0;
            let value = value_of(m, env, (all_ids(outs, outs.len())->0)[k]);
            if m.target_opset >= 11 {
                value == (w.apply)(
                    "TopK"@,
                    seq![input_of(m, env, op, 0), whole(w, m, env, input_ids(op)[1])],
                    topk_attributes(op),
                    k,
                )
            } else {
                value == (w.apply)(
                    "TopK"@,
                    seq![input_of(m, env, op, 0)],
                    seq![
                        int_attribute("k"@, to_i64(first_const(m, input_ids(op)[1])->0)),
                    ] + topk_attributes(op),
                    k,
                )
            }
        }),
{
    broadcast use group_runs;

    let ins = input_ids(op);
    let outs = op.field_items("O"@)->0;
    let id = outs[0].field_int("%"@)->0;
    let ids = all_ids(outs, outs.len())->0;
    lemma_ids(outs, outs.len());
    lemma_names(m, ids, ids.len());
    let outputs = names_upto(m, ids, ids.len())->Ok_0;
    let input = tensor_name(m, ins[0])->Ok_0;
    let count = if has_type(m, ins[1], "0.t_i64"@) {
        tensor_name(m, ins[1])->Ok_0
    } else {
        tagged("topk_k_i64_"@, id)
    };
    let list = topk_attributes(op);
    let n = if m.target_opset >= 11 {
        node_of("TopK"@, seq![input, count], outputs).with(list[0]).with(list[1]).with(list[2])
    } else {
        node_of("TopK"@, seq![input], outputs).with(
            int_attribute("k"@, to_i64(first_const(m, ins[1])->0)),
        ).with(list[0]).with(list[1]).with(list[2])
    };
    assert(computes(w, env, n));
    assert(env(n.output[k]) == (w.apply)(n.op_type, seen(env, n.input), n.attribute, k));
    if m.target_opset >= 11 {
        assert(seen(env, n.input) =~= seq![env(input), env(count)]);
        assert(n.attribute =~= list);
    } else {
        assert(seen(env, n.input) =~= seq![env(input)]);
        assert(n.attribute =~= seq![int_attribute("k"@, to_i64(first_const(m, ins[1])->0))] + list);
    }
}

proof fn lemma_ids(outs: Seq<JsonView>, k: nat)
    requires
        all_ids(outs, k) is Some,
    ensures
        (all_ids(outs, k)->0).len() == k,
    decreases k,
{
    if k > 0 {
        lemma_ids(outs, (k - 1) as nat);
    }
}

/// `argmax` yields the position of the greatest element, along the axis that a constant second
/// input gives, as `INT32` where the result is.
pub proof fn law_argmax<V>(w: World<V>, env: Values<V>, m: Meta, g: Graph, op: JsonView)
    requires
        ran(w, env, argmax_lowered(m, g, op)),
    ensures
        ({
            let keep = int_attribute("keepdims"@, unless_false(op, "keepdims"@) as i64);
            let axis = if input_ids(op).len() > 1 {
                first_const(m, input_ids(op)[1])
            } else {
                None
            };
            let best = (w.apply)(
                "ArgMax"@,
                seq![input_of(m, env, op, 0)],
                match axis {
                    Some(v) => seq![int_attribute("axis"@, to_i64(v)), keep],
                    None => seq![keep],
                },
                0,
            );
            output_of(m, env, op) == if has_type(m, out_id(op)->Ok_0, "0.t_i32"@) {
                w.cast(best, INT32 as int)
            } else {
                best
            }
        }),
{
    broadcast use group_runs;

    let ins = input_ids(op);
    let id = out_id(op)->Ok_0;
    let input = tensor_name(m, ins[0])->Ok_0;
    let result = if has_type(m, id, "0.t_i32"@) {
        tagged("argmax_i64_"@, id)
    } else {
        tensor_name(m, id)->Ok_0
    };
    let keep = int_attribute("keepdims"@, unless_false(op, "keepdims"@) as i64);
    let node = node_of("ArgMax"@, seq![input], seq![result]);
    let n = if ins.len() > 1 && first_const(m, ins[1]) is Some {
        node.with(int_attribute("axis"@, to_i64(first_const(m, ins[1])->0))).with(keep)
    } else {
        node.with(keep)
    };
    assert(computes(w, env, n));
    assert(n.output[0] == result);
    lemma_node_output(w, env, n);
    assert(seen(env, n.input) =~= seq![env(input)]);
    if ins.len() > 1 && first_const(m, ins[1]) is Some {
        assert(n.attribute =~= seq![
            int_attribute("axis"@, to_i64(first_const(m, ins[1])->0)),
            keep,
        ]);
    } else {
        assert(n.attribute =~= seq![keep]);
    }
}

/// One where a flag is given as true, and zero otherwise.
pub open spec fn if_true(op: JsonView, name: Seq<char>) -> int {
    if attr_bool_of(op, name) == Some(true) {
        1
    } else {
        0
    }
}

/// The axis of a sort, counted from the front where the rank is known.
pub open spec fn axis_of_sort(m: Meta, op: JsonView) -> i64 {
    let axis = or_default(attr_int_of(op, "axis"@), -1i64);
    match axis_from_front(m, input_ids(op)[0], axis) {
        Ok(front) => front,
        Err(_) => axis,
    }
}

/// Whether ties of a sort are broken by hand: it need not be stable, sorts integers, and knows how
/// many.
pub open spec fn breaks_ties(m: Meta, op: JsonView) -> bool {
    let id = input_ids(op)[0];
    let axis = axis_of_sort(m, op);
    &&& attr_bool_of(op, "stable"@) != Some(true)
    &&& has_type(m, id, "0.t_i32"@) || has_type(m, id, "0.t_i64"@)
    &&& m.tensor_shapes.contains_key(id)
    &&& 0 <= axis < m.tensor_shapes[id].len()
    &&& m.tensor_shapes[id][axis as int] > 0
}

/// What breaks ties along an axis: earlier elements come first, so their numbers are less in an
/// ascending sort and greater in a descending one.
pub open spec fn tie_breaks(length: i64, descending: bool) -> Seq<i64> {
    Seq::new(
        length as nat,
        |i: int|
            (if descending {
                length - i
            } else {
                i
            }) as i64,
    )
}

/// `argsort` sorts the whole of an axis, the greatest first exactly where the order is to be
/// descending, and yields the sorted elements and where they stood. Ties between integers are
/// broken by the position, the earlier element first.
pub proof fn law_argsort<V>(w: World<V>, env: Values<V>, m: Meta, g: Graph, op: JsonView)
    requires
        ran(w, env, argsort_lowered(m, g, op)),
        op.field_items("O"@) is Some,
        members_int(op.field_items("O"@)->0, "%"@, (op.field_items("O"@)->0).len()).len() >= 2,
    ensures
        ({
            let outs = op.field_items("O"@)->0;
            let ids = members_int(outs, "%"@, outs.len());
            let x = input_of(m, env, op, 0);
            let id = input_ids(op)[0];
            let axis = axis_of_sort(m, op);
            let count = w.of2("Gather"@, w.of1("Shape"@, x), w.vector(seq![axis]));
            let order = if_true(op, "descending"@);
            if breaks_ties(m, op) {
                let dims = m.tensor_shapes[id];
                let length = dims[axis as int];
                let wide = if has_type(m, id, "0.t_i32"@) {
                    w.cast(x, INT64 as int)
                } else {
                    x
                };
                let breaks = w.ints(
                    Seq::new(
                        dims.len(),
                        |d: int|
                            if d == axis {
                                length
                            } else {
                                1i64
                            },
                    ),
                    tie_breaks(length, order == 1),
                );
                let scale = w.vector(
                    seq![crate::converter::ops::common::add_wrapped(length, 1)],
                );
                let key = w.of2("Add"@, w.of2("Mul"@, wide, scale), breaks);
                &&& value_of(m, env, ids[1]) == w.topk(key, count, axis as int, order, 1)
                &&& value_of(m, env, ids[0]) == w.with_int(
                    "GatherElements"@,
                    seq![x, value_of(m, env, ids[1])],
                    "axis"@,
                    axis as int,
                )
            } else {
                &&& value_of(m, env, ids[0]) == w.topk(x, count, axis as int, order, 0)
                &&& value_of(m, env, ids[1]) == w.topk(x, count, axis as int, order, 1)
            }
        }),
{
    broadcast use group_runs;

    let outs = op.field_items("O"@)->0;
    let ids = members_int(outs, "%"@, outs.len());
    let ins = input_ids(op);
    let outputs = names_upto(m, ids, ids.len())->Ok_0;
    lemma_names(m, ids, ids.len());
    let input = tensor_name(m, ins[0])->Ok_0;
    let axis = axis_of_sort(m, op);
    let id = or_default(outs[0].field_int("%"@), 0);
    let shape = tagged("argsort_shape_"@, id);
    let k = "argsort_k_"@ + shape;
    let order = if_true(op, "descending"@) as i64;
    if breaks_ties(m, op) {
        let dims = m.tensor_shapes[ins[0]];
        let length = dims[axis as int];
        lemma_int_node(
            w,
            env,
            "GatherElements"@,
            seq![input, outputs[1]],
            outputs[0],
            "axis"@,
            axis,
        );
        assert(seen(env, seq![input, outputs[1]]) =~= seq![env(input), env(outputs[1])]);
        assert(crate::converter::ops::reduce::tie_values(length, order == 1) =~= tie_breaks(
            length,
            order == 1,
        ));
        assert(crate::converter::ops::reduce::tie_dims(dims.len(), axis as int, length) =~= Seq::new(
            dims.len(),
            |d: int|
                if d == axis {
                    length
                } else {
                    1i64
                },
        ));
    } else {
        let n = node_of("TopK"@, seq![input, k], outputs).with(int_attribute("axis"@, axis)).with(
            int_attribute("largest"@, order),
        ).with(int_attribute("sorted"@, 1));
        assert(computes(w, env, n));
        assert(env(n.output[0]) == (w.apply)(n.op_type, seen(env, n.input), n.attribute, 0));
        assert(env(n.output[1]) == (w.apply)(n.op_type, seen(env, n.input), n.attribute, 1));
        assert(seen(env, n.input) =~= seq![env(input), env(k)]);
        assert(n.attribute =~= seq![
            int_attribute("axis"@, axis),
            int_attribute("largest"@, order),
            int_attribute("sorted"@, 1),
        ]);
    }
}

} // verus!
