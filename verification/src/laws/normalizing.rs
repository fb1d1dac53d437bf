//! What the nodes that stand for normalizations, resizing and tests compute.

use crate::converter::op_type::op_type_mapped;
use crate::converter::ops::common::{has_shape, names_upto};
use crate::converter::ops::control::{
    any_all_lowered, carried_ids, depth_added, if_lowered, one_hot_lowered, while_lowered,
};
use crate::converter::ops::misc::{carried_attributes, dropout_lowered, generic_lowered};
use crate::converter::ops::norm::{
    affine_axes, batch_norm_lowered, group_norm_lowered, group_parts, groups_normalized,
    norm_inputs, repeated,
};
use crate::converter::state::{dtype_if_known, tensor_name, Meta};
use crate::dtype::{BOOL, FLOAT, INT64};
use crate::error::ErrorView;
use crate::float::{narrow, to_i64};
use crate::helper::{attr_ints_of, attr_number_of, input_ids, or_default, out_id, output_ids};
use crate::json::JsonView;
use crate::laws::meaning::{
    computes, group_runs, input_of, lemma_names, lemma_node_output, output_of, ran, runs, seen,
    value_of, Values, World,
};
use crate::laws::reducing::if_true;
use crate::laws::shaping::sizes_between;
use crate::onnx::{float_attribute, graph_attribute, node_of, Graph, Node};
use crate::text::tagged;
use vstd::prelude::*;

verus! {

/// `batch_norm_` normalizes its first input with the scale and the bias, its fourth and fifth, and
/// the mean and the variance, its second and third.
pub proof fn law_batch_norm<V>(w: World<V>, env: Values<V>, m: Meta, g: Graph, op: JsonView)
    requires
        ran(w, env, batch_norm_lowered(m, g, op)),
    ensures
        output_of(m, env, op) == (w.apply)(
            "BatchNormalization"@,
            seq![
                input_of(m, env, op, 0),
                input_of(m, env, op, 3),
                input_of(m, env, op, 4),
                input_of(m, env, op, 1),
                input_of(m, env, op, 2),
            ],
            carried_attributes("batch_norm_"@, op),
            0,
        ),
{
    broadcast use group_runs;

    let ins = input_ids(op);
    let list = norm_inputs(ins);
    lemma_names(m, list, 5);
    let inputs = names_upto(m, list, 5)->Ok_0;
    let output = tensor_name(m, out_id(op)->Ok_0)->Ok_0;
    let n = Node {
        attribute: carried_attributes("batch_norm_"@, op),
        ..node_of("BatchNormalization"@, inputs, seq![output])
    };
    assert(computes(w, env, n));
    assert(n.output[0] == output);
    lemma_node_output(w, env, n);
    assert(seen(env, inputs) =~= seq![
        input_of(m, env, op, 0),
        input_of(m, env, op, 3),
        input_of(m, env, op, 4),
        input_of(m, env, op, 1),
        input_of(m, env, op, 2),
    ]);
}

/// A value in which each of so many groups of channels is normalized by itself: the groups become
/// channels, which are normalized without scale and bias, and the shape is put back.
pub open spec fn normalized_groups<V>(w: World<V>, x: V, groups: i64, epsilon: u32) -> V {
    let shape = w.of1("Shape"@, x);
    let target = w.concat(
        seq![sizes_between(w, shape, 0, 1), w.vector(seq![groups]), w.vector(seq![(-1) as i64])],
        0,
    );
    let ones = Seq::new(groups as nat, |i: int| 0x3F80_0000u32);
    let zeros = Seq::new(groups as nat, |i: int| 0u32);
    let normalized = (w.apply)(
        "InstanceNormalization"@,
        seq![
            w.of2("Reshape"@, x, target),
            w.singles(seq![groups], ones),
            w.singles(seq![groups], zeros),
        ],
        seq![float_attribute("epsilon"@, epsilon)],
        0,
    );
    w.of2("Reshape"@, normalized, shape)
}

/// `group_norm` normalizes groups of channels, and then scales by its second input and moves by its
/// third, both laid along the channels.
pub proof fn law_group_norm<V>(w: World<V>, env: Values<V>, m: Meta, g: Graph, op: JsonView)
    requires
        ran(w, env, group_norm_lowered(m, g, op)),
    ensures
        ({
            let (id, groups, rank) = group_parts(m, op)->Ok_0;
            let epsilon = narrow(or_default(attr_number_of(op, "epsilon"@), 0x3EE4_F8B5_88E3_68F1));
            let axes = Seq::new(
                (rank - 1) as nat,
                |i: int|
                    if i == 0 {
                        0
                    } else {
                        (i + 1) as i64
                    },
            );
            value_of(m, env, id) == w.of2(
                "Add"@,
                w.of2(
                    "Mul"@,
                    normalized_groups(w, input_of(m, env, op, 0), groups, epsilon),
                    w.unsqueeze(input_of(m, env, op, 1), axes),
                ),
                w.unsqueeze(input_of(m, env, op, 2), axes),
            )
        }),
{
    broadcast use group_runs;

    reveal(groups_normalized);
    let ins = input_ids(op);
    let (id, groups, rank) = group_parts(m, op)->Ok_0;
    let epsilon = narrow(or_default(attr_number_of(op, "epsilon"@), 0x3EE4_F8B5_88E3_68F1));
    let axes = Seq::new(
        (rank - 1) as nat,
        |i: int|
            if i == 0 {
                0
            } else {
                (i + 1) as i64
            },
    );
    assert(affine_axes(rank) =~= axes);
    let input = tensor_name(m, ins[0])->Ok_0;
    let (h, r) = groups_normalized(m, g, op, id, groups, input);
    assert(runs(w, env, h));
    let batch = tagged("group_norm_batch_dim_"@, id);
    let count = tagged("group_norm_groups_"@, id);
    let rest = tagged("group_norm_minus_one_"@, id);
    let reshaped = tagged("group_norm_reshaped_"@, id);
    let scale = tagged("group_norm_scale_"@, id);
    let bias = tagged("group_norm_bias_"@, id);
    let normalized = tagged("group_norm_normalized_"@, id);
    let n = node_of(
        "InstanceNormalization"@,
        seq![reshaped, scale, bias],
        seq![normalized],
    ).with(float_attribute("epsilon"@, epsilon));
    assert(computes(w, env, n));
    assert(n.output[0] == normalized);
    lemma_node_output(w, env, n);
    assert(n.attribute =~= seq![float_attribute("epsilon"@, epsilon)]);
    assert(seen(env, n.input) =~= seq![env(reshaped), env(scale), env(bias)]);
    assert(seen(env, seq![batch, count, rest]) =~= seq![env(batch), env(count), env(rest)]);
    assert(repeated(0x3F80_0000, groups as int) =~= Seq::new(
        groups as nat,
        |i: int| 0x3F80_0000u32,
    ));
    assert(repeated(0, groups as int) =~= Seq::new(groups as nat, |i: int| 0u32));
}

/// `any` is true where the greatest truth value along its axes is, and `all` where the least is.
pub proof fn law_any_all<V>(
    w: World<V>,
    env: Values<V>,
    m: Meta,
    g: Graph,
    op: JsonView,
    any: bool,
)
    requires
        ran(w, env, any_all_lowered(m, g, op, any)),
    ensures
        ({
            let number = w.cast(input_of(m, env, op, 0), INT64 as int);
            let reduction = if any {
                "ReduceMax"@
            } else {
                "ReduceMin"@
            };
            let keep = if_true(op, "keepdim"@);
            let axes = or_default(attr_ints_of(op, "axis"@), Seq::empty());
            output_of(m, env, op) == w.cast(
                if axes.len() > 0 {
                    w.reduce(reduction, number, axes, keep)
                } else {
                    w.with_int(reduction, seq![number], "keepdims"@, keep)
                },
                BOOL as int,
            )
        }),
{
    broadcast use group_runs;

}

/// How many classes `one_hot` has.
pub open spec fn classes_of<V>(w: World<V>, m: Meta, env: Values<V>, id: i64) -> V {
    if m.constants.contains_key(id) {
        w.ints(Seq::empty(), seq![to_i64(m.constants[id][0])])
    } else if has_shape(m, id, seq![1i64]) {
        w.squeeze(w.cast(value_of(m, env, id), INT64 as int), seq![0i64])
    } else {
        w.cast(value_of(m, env, id), INT64 as int)
    }
}

/// `one_hot` compares each index, on a new last axis, with the classes from zero on.
pub proof fn law_one_hot<V>(w: World<V>, env: Values<V>, m: Meta, g: Graph, op: JsonView)
    requires
        ran(w, env, one_hot_lowered(m, g, op)),
    ensures
        ({
            let first = input_ids(op)[0];
            let rank: nat = if m.tensor_shapes.contains_key(first) {
                m.tensor_shapes[first].len()
            } else {
                1
            };
            let indices = w.unsqueeze(
                w.cast(input_of(m, env, op, 0), INT64 as int),
                seq![rank as i64],
            );
            let classes = w.of3(
                "Range"@,
                w.ints(Seq::empty(), seq![0i64]),
                classes_of(w, m, env, input_ids(op)[1]),
                w.ints(Seq::empty(), seq![1i64]),
            );
            output_of(m, env, op) == w.cast(
                w.of2("Equal"@, indices, classes),
                or_default(dtype_if_known(m, out_id(op)->Ok_0)->Ok_0, FLOAT) as int,
            )
        }),
{
    broadcast use group_runs;

    reveal(depth_added);
}

/// `if` runs its first region where the condition holds and its second otherwise, and hands out
/// what they yield, in order.
pub proof fn law_if<V>(
    w: World<V>,
    env: Values<V>,
    m: Meta,
    g: Graph,
    op: JsonView,
    first: Result<Graph, ErrorView>,
    second: Result<Graph, ErrorView>,
    k: int,
)
    requires
        ran(w, env, if_lowered(m, g, op, first, second)),
        0 <= k < output_ids(op).len(),
    ensures
        first is Ok,
        second is Ok,
        value_of(m, env, output_ids(op)[k]) == (w.apply)(
            "If"@,
            seq![input_of(m, env, op, 0)],
            seq![
                graph_attribute("then_branch"@, first->Ok_0),
                graph_attribute("else_branch"@, second->Ok_0),
            ],
            k,
        ),
{
    broadcast use group_runs;

    let outs = output_ids(op);
    lemma_names(m, outs, outs.len());
    let condition = tensor_name(m, input_ids(op)[0])->Ok_0;
    let outputs = names_upto(m, outs, outs.len())->Ok_0;
    let n = node_of("If"@, seq![condition], outputs).with(
        graph_attribute("then_branch"@, first->Ok_0),
    ).with(graph_attribute("else_branch"@, second->Ok_0));
    assert(computes(w, env, n));
    assert(env(n.output[k]) == (w.apply)(n.op_type, seen(env, n.input), n.attribute, k));
    assert(seen(env, n.input) =~= seq![env(condition)]);
    assert(n.attribute =~= seq![
        graph_attribute("then_branch"@, first->Ok_0),
        graph_attribute("else_branch"@, second->Ok_0),
    ]);
}

/// `while` is a loop without a limit on its rounds, with its first input as the condition to start
/// and the others as what it carries along, in order.
pub proof fn law_while<V>(
    w: World<V>,
    env: Values<V>,
    m: Meta,
    g: Graph,
    op: JsonView,
    body: Result<Graph, ErrorView>,
    k: int,
)
    requires
        ran(w, env, while_lowered(m, g, op, body)),
        0 <= k < output_ids(op).len(),
    ensures
        body is Ok,
        value_of(m, env, output_ids(op)[k]) == (w.apply)(
            "Loop"@,
            Seq::new(
                input_ids(op).len() + 1,
                |i: int|
                    if i == 0 {
                        env(Seq::empty())
                    } else {
                        input_of(m, env, op, i - 1)
                    },
            ),
            seq![graph_attribute("body"@, body->Ok_0)],
            k,
        ),
{
    broadcast use group_runs;

    let ins = input_ids(op);
    let outs = output_ids(op);
    let carried = carried_ids(op);
    lemma_names(m, outs, outs.len());
    lemma_names(m, carried, carried.len());
    let condition = tensor_name(m, ins[0])->Ok_0;
    let outputs = names_upto(m, outs, outs.len())->Ok_0;
    let names = names_upto(m, carried, carried.len())->Ok_0;
    let inputs = seq![Seq::empty(), condition] + names;
    let n = node_of("Loop"@, inputs, outputs).with(graph_attribute("body"@, body->Ok_0));
    assert(computes(w, env, n));
    assert(env(n.output[k]) == (w.apply)(n.op_type, seen(env, n.input), n.attribute, k));
    let values = Seq::new(
        ins.len() + 1,
        |i: int|
            if i == 0 {
                env(Seq::empty())
            } else {
                input_of(m, env, op, i - 1)
            },
    );
    assert forall|i: int| 0 <= i < values.len() implies env(#[trigger] inputs[i]) == values[i] by {
        if i >= 2 {
            assert(carried[i - 2] == ins[i - 1]);
        }
    }
    assert(seen(env, inputs) =~= values);
    assert(n.attribute =~= seq![graph_attribute("body"@, body->Ok_0)]);
}

/// `dropout` passes its first input on.
pub proof fn law_dropout<V>(w: World<V>, env: Values<V>, m: Meta, g: Graph, op: JsonView)
    requires
        ran(w, env, dropout_lowered(m, g, op)),
        input_ids(op).len() > 0,
    ensures
        output_of(m, env, op) == w.of1("Identity"@, input_of(m, env, op, 0)),
{
    broadcast use group_runs;

    lemma_names(m, input_ids(op), 1);
    let inputs = names_upto(m, input_ids(op), 1)->Ok_0;
    let output = tensor_name(m, out_id(op)->Ok_0)->Ok_0;
    let n = node_of("Identity"@, inputs, seq![output]);
    assert(computes(w, env, n));
    assert(n.output[0] == output);
    lemma_node_output(w, env, n);
    assert(seen(env, inputs) =~= seq![input_of(m, env, op, 0)]);
}

/// An operator that is carried over reads all its inputs and yields all its outputs, in order,
/// under the name that there is for it.
pub proof fn law_carried_over<V>(
    w: World<V>,
    env: Values<V>,
    m: Meta,
    g: Graph,
    kind: Seq<char>,
    op: JsonView,
    k: int,
)
    requires
        ran(w, env, generic_lowered(m, g, kind, op)),
        0 <= k < output_ids(op).len(),
    ensures
        op_type_mapped(kind) is Ok,
        value_of(m, env, output_ids(op)[k]) == (w.apply)(
            op_type_mapped(kind)->Ok_0,
            Seq::new(input_ids(op).len(), |i: int| input_of(m, env, op, i)),
            carried_attributes(kind, op),
            k,
        ),
{
    broadcast use group_runs;

    let ins = input_ids(op);
    let outs = output_ids(op);
    lemma_names(m, ins, ins.len());
    lemma_names(m, outs, outs.len());
    let inputs = names_upto(m, ins, ins.len())->Ok_0;
    let outputs = names_upto(m, outs, outs.len())->Ok_0;
    let n = Node {
        attribute: carried_attributes(kind, op),
        ..node_of(op_type_mapped(kind)->Ok_0, inputs, outputs)
    };
    assert(computes(w, env, n));
    assert(env(n.output[k]) == (w.apply)(n.op_type, seen(env, n.input), n.attribute, k));
    assert(seen(env, inputs) =~= Seq::new(ins.len(), |i: int| input_of(m, env, op, i)));
}

} // verus!
