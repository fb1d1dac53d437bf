//! What the nodes that stand for operators on shapes compute.

use crate::converter::ops::common::{add_wrapped, first_const, names_upto, shape_or_empty};
use crate::converter::ops::math::{part_names, parts_squeezed, unbind_lowered};
use crate::converter::ops::shape::{
    axes_from_front, axes_given, concat_lowered, dropped_axes, flatten_lowered, flatten_start,
    ordered, split_lowered, squeeze_lowered, stack_list, stack_lowered, stacked_parts,
    unsqueeze_lowered, unsqueezed_rank, zeros_then_rest,
};
use crate::converter::optimizer::dims::unknowns;
use crate::converter::state::{tensor_name, Meta};
use crate::float::to_i64;
use crate::helper::{attr_int_of, input_ids, or_default, out_id, output_sizes};
use crate::json::JsonView;
use crate::laws::meaning::{
    computes, group_runs, input_of, lemma_names, output_of, ran, runs, seen, unit_steps, value_of,
    Values, World,
};
use crate::onnx::{int_attribute, node_of, Graph};
use crate::text::{tagged, tagged2};
use vstd::prelude::*;

verus! {

/// Whether two lists hold the same numbers.
pub open spec fn same_numbers(a: Seq<i64>, b: Seq<i64>) -> bool {
    forall|x: i64| #[trigger] a.contains(x) <==> b.contains(x)
}

proof fn lemma_inserted(list: Seq<i64>, x: i64)
    ensures
        forall|y: i64| #[trigger]
            crate::converter::ops::shape::inserted(list, x).contains(y) <==> y == x
                || list.contains(y),
    decreases list.len(),
{
    let after = crate::converter::ops::shape::inserted(list, x);
    if list.len() == 0 {
        assert(after =~= seq![x]);
        assert forall|y: i64| #[trigger] after.contains(y) <==> y == x || list.contains(y) by {
            if y == x {
                assert(after[0] == y);
            }
        }
    } else if list.last() < x {
        assert forall|y: i64| #[trigger] after.contains(y) <==> y == x || list.contains(y) by {
            if list.contains(y) {
                let i = choose|i: int| 0 <= i < list.len() && list[i] == y;
                assert(after[i] == y);
            }
            if y == x {
                assert(after[list.len() as int] == y);
            }
            if after.contains(y) {
                let i = choose|i: int| 0 <= i < after.len() && after[i] == y;
                if i < list.len() {
                    assert(list[i] == y);
                }
            }
        }
    } else if list.last() == x {
        assert(list[list.len() - 1] == x);
    } else {
        let front = list.drop_last();
        lemma_inserted(front, x);
        let inner = crate::converter::ops::shape::inserted(front, x);
        assert forall|y: i64| #[trigger] after.contains(y) <==> y == x || list.contains(y) by {
            assert(inner.contains(y) <==> y == x || front.contains(y));
            if after.contains(y) {
                let i = choose|i: int| 0 <= i < after.len() && after[i] == y;
                if i < inner.len() {
                    assert(inner[i] == y);
                    if front.contains(y) {
                        let j = choose|j: int| 0 <= j < front.len() && front[j] == y;
                        assert(list[j] == y);
                    }
                } else {
                    assert(list[list.len() - 1] == y);
                }
            }
            if y == x || list.contains(y) {
                if y == list.last() {
                    assert(after[inner.len() as int] == y);
                } else {
                    if list.contains(y) {
                        let j = choose|j: int| 0 <= j < list.len() && list[j] == y;
                        assert(front[j] == y);
                    }
                    let i = choose|i: int| 0 <= i < inner.len() && inner[i] == y;
                    assert(after[i] == y);
                }
            }
        }
    }
}

/// Axes that are put in order stay the same axes.
pub proof fn law_ordered_axes_same(list: Seq<i64>, k: nat)
    requires
        k <= list.len(),
    ensures
        same_numbers(ordered(list, k), list.take(k as int)),
    decreases k,
{
    if k > 0 {
        law_ordered_axes_same(list, (k - 1) as nat);
        let before = ordered(list, (k - 1) as nat);
        lemma_inserted(before, list[k - 1]);
        let part = list.take(k as int);
        let front = list.take(k - 1);
        assert forall|x: i64| #[trigger] ordered(list, k).contains(x) <==> part.contains(x) by {
            assert(before.contains(x) <==> front.contains(x));
            if front.contains(x) {
                let i = choose|i: int| 0 <= i < front.len() && front[i] == x;
                assert(part[i] == x);
            }
            if x == list[k - 1] {
                assert(part[k - 1] == x);
            }
            if part.contains(x) {
                let i = choose|i: int| 0 <= i < part.len() && part[i] == x;
                if i < k - 1 {
                    assert(front[i] == x);
                }
            }
        }
    } else {
        assert(list.take(0) =~= Seq::empty());
    }
}

/// An axis counted from the front of a value of some rank.
pub open spec fn front_axis(axis: i64, rank: i64) -> i64 {
    if axis < 0 {
        add_wrapped(axis, rank)
    } else {
        axis
    }
}

/// `unsqueeze` adds exactly the axes that a constant second input gives, or else its attribute,
/// counted from the front of the result.
pub proof fn law_unsqueeze<V>(w: World<V>, env: Values<V>, m: Meta, g: Graph, op: JsonView) -> (axes:
    Seq<i64>)
    requires
        ran(w, env, unsqueeze_lowered(m, g, op)),
        axes_given(m, op, input_ids(op)) is Some,
    ensures
        output_of(m, env, op) == w.unsqueeze(input_of(m, env, op, 0), axes),
        ({
            let given = axes_given(m, op, input_ids(op))->0;
            let rank = unsqueezed_rank(m, input_ids(op)[0], out_id(op)->Ok_0);
            same_numbers(axes, Seq::new(given.len(), |i: int| front_axis(given[i], rank)))
        }),
{
    broadcast use group_runs;

    let given = axes_given(m, op, input_ids(op))->0;
    let rank = unsqueezed_rank(m, input_ids(op)[0], out_id(op)->Ok_0);
    let front = axes_from_front(given, rank);
    law_ordered_axes_same(front, front.len());
    assert(front.take(front.len() as int) =~= front);
    assert(front =~= Seq::new(given.len(), |i: int| front_axis(given[i], rank)));
    ordered(front, front.len())
}

/// Where the axes are not constant, `unsqueeze` adds those of the second input.
pub proof fn law_unsqueeze_by_tensor<V>(w: World<V>, env: Values<V>, m: Meta, g: Graph, op: JsonView)
    requires
        ran(w, env, unsqueeze_lowered(m, g, op)),
        axes_given(m, op, input_ids(op)) is None,
    ensures
        output_of(m, env, op) == w.of2(
            "Unsqueeze"@,
            input_of(m, env, op, 0),
            input_of(m, env, op, 1),
        ),
{
    broadcast use group_runs;

}

/// Whether an axis may go: the value has it, and its size is one or not known.
pub open spec fn may_go(dims: Seq<i64>, axis: i64) -> bool {
    0 <= axis < dims.len() && (dims[axis as int] == 1 || dims[axis as int] < 0)
}

proof fn lemma_unit_axes(axes: Seq<i64>, dims: Seq<i64>, k: nat)
    requires
        k <= axes.len(),
    ensures
        forall|x: i64| #[trigger]
            crate::converter::ops::shape::unit_axes(axes, dims, k).contains(x) <==> may_go(dims, x)
                && axes.take(k as int).contains(x),
    decreases k,
{
    let after = crate::converter::ops::shape::unit_axes(axes, dims, k);
    if k > 0 {
        lemma_unit_axes(axes, dims, (k - 1) as nat);
        let before = crate::converter::ops::shape::unit_axes(axes, dims, (k - 1) as nat);
        let part = axes.take(k as int);
        let front = axes.take(k - 1);
        assert forall|x: i64| #[trigger] after.contains(x) <==> may_go(dims, x) && part.contains(
            x,
        ) by {
            assert(before.contains(x) <==> may_go(dims, x) && front.contains(x));
            if part.contains(x) {
                let i = choose|i: int| 0 <= i < part.len() && part[i] == x;
                if i < k - 1 {
                    assert(front[i] == x);
                }
            }
            if front.contains(x) {
                let i = choose|i: int| 0 <= i < front.len() && front[i] == x;
                assert(part[i] == x);
            }
            if x == axes[k - 1] {
                assert(part[k - 1] == x);
            }
            if after.contains(x) {
                let i = choose|i: int| 0 <= i < after.len() && after[i] == x;
                if i < before.len() {
                    assert(before[i] == x);
                }
            }
            if before.contains(x) {
                let i = choose|i: int| 0 <= i < before.len() && before[i] == x;
                assert(after[i] == x);
            }
            if may_go(dims, x) && x == axes[k - 1] {
                assert(after[after.len() - 1] == x);
            }
        }
    }
}

/// `squeeze` leaves a value alone whose rank is to stay, and otherwise drops, of the axes that it
/// is given, exactly those that the value has and whose size is one or not known.
pub proof fn law_squeeze<V>(w: World<V>, env: Values<V>, m: Meta, g: Graph, op: JsonView) -> (axes:
    Seq<i64>)
    requires
        ran(w, env, squeeze_lowered(m, g, op)),
        axes_given(m, op, input_ids(op)) is Some,
        shape_or_empty(m, input_ids(op)[0]).len() > 0,
        shape_or_empty(m, out_id(op)->Ok_0).len() < shape_or_empty(m, input_ids(op)[0]).len(),
    ensures
        ({
            let given = axes_given(m, op, input_ids(op))->0;
            let dims = shape_or_empty(m, input_ids(op)[0]);
            let x = input_of(m, env, op, 0);
            &&& output_of(m, env, op) == if axes.len() == 0 {
                w.of1("Identity"@, x)
            } else {
                w.squeeze(x, axes)
            }
            &&& forall|axis: i64| #[trigger]
                axes.contains(axis) <==> may_go(dims, axis) && Seq::new(
                    given.len(),
                    |i: int| front_axis(given[i], dims.len() as i64),
                ).contains(axis)
        }),
{
    broadcast use group_runs;

    let given = axes_given(m, op, input_ids(op))->0;
    let dims = shape_or_empty(m, input_ids(op)[0]);
    let front = axes_from_front(given, dims.len() as i64);
    let list = ordered(front, front.len());
    law_ordered_axes_same(front, front.len());
    assert(front.take(front.len() as int) =~= front);
    assert(front =~= Seq::new(given.len(), |i: int| front_axis(given[i], dims.len() as i64)));
    lemma_unit_axes(list, dims, list.len());
    assert(list.take(list.len() as int) =~= list);
    let axes = crate::converter::ops::shape::unit_axes(list, dims, list.len());
    assert(axes == dropped_axes(given, dims, shape_or_empty(m, out_id(op)->Ok_0)));
    assert forall|axis: i64| #[trigger]
        axes.contains(axis) <==> may_go(dims, axis) && front.contains(axis) by {
        assert(list.contains(axis) <==> front.contains(axis));
    }
    axes
}

/// A value whose rank is to stay is passed on by `squeeze`.
pub proof fn law_squeeze_of_same_rank<V>(w: World<V>, env: Values<V>, m: Meta, g: Graph, op: JsonView)
    requires
        ran(w, env, squeeze_lowered(m, g, op)),
        shape_or_empty(m, input_ids(op)[0]).len() > 0,
        shape_or_empty(m, input_ids(op)[0]).len() == shape_or_empty(m, out_id(op)->Ok_0).len(),
    ensures
        output_of(m, env, op) == w.of1("Identity"@, input_of(m, env, op, 0)),
{
    broadcast use group_runs;

}

/// `concat` joins the values of its list, in order, along the axis that its second input gives.
pub proof fn law_concat<V>(w: World<V>, env: Values<V>, m: Meta, g: Graph, op: JsonView)
    requires
        ran(w, env, concat_lowered(m, g, op)),
    ensures
        ({
            let list = m.combines[input_ids(op)[0]];
            output_of(m, env, op) == w.concat(
                Seq::new(list.len(), |i: int| value_of(m, env, list[i])),
                to_i64(first_const(m, input_ids(op)[1])->0) as int,
            )
        }),
{
    broadcast use group_runs;

    let list = m.combines[input_ids(op)[0]];
    lemma_names(m, list, list.len());
    assert(seen(env, names_upto(m, list, list.len())->Ok_0) =~= Seq::new(
        list.len(),
        |i: int| value_of(m, env, list[i]),
    ));
}

proof fn lemma_stacked<V>(
    w: World<V>,
    env: Values<V>,
    m: Meta,
    g: Graph,
    id: i64,
    axis: i64,
    list: Seq<i64>,
    k: nat,
)
    requires
        w.any_opset(),
        stacked_parts(m, g, id, axis, list, k).1 is Ok,
        runs(w, env, stacked_parts(m, g, id, axis, list, k).0),
    ensures
        runs(w, env, g),
        seen(env, stacked_parts(m, g, id, axis, list, k).1->Ok_0) == Seq::new(
            k,
            |i: int| w.unsqueeze(value_of(m, env, list[i]), seq![axis]),
        ),
    decreases k,
{
    broadcast use group_runs;

    let parts = stacked_parts(m, g, id, axis, list, k).1->Ok_0;
    if k > 0 {
        lemma_stacked(w, env, m, g, id, axis, list, (k - 1) as nat);
        let front = stacked_parts(m, g, id, axis, list, (k - 1) as nat).1->Ok_0;
        let wide = tagged2("stack_unsqueezed_"@, id, (k - 1) as i64);
        assert(parts == front.push(wide));
        assert(env(wide) == w.unsqueeze(value_of(m, env, list[k - 1]), seq![axis]));
        assert(seen(env, front).len() == front.len());
        assert forall|i: int| 0 <= i < k - 1 implies env(#[trigger] front[i]) == w.unsqueeze(
            value_of(m, env, list[i]),
            seq![axis],
        ) by {
            assert(seen(env, front)[i] == env(front[i]));
        }
        assert(seen(env, front).len() == k - 1);
        assert(seen(env, parts) =~= Seq::new(
            k,
            |i: int| w.unsqueeze(value_of(m, env, list[i]), seq![axis]),
        ));
    } else {
        assert(seen(env, parts) =~= Seq::new(
            k,
            |i: int| w.unsqueeze(value_of(m, env, list[i]), seq![axis]),
        ));
    }
}

/// `stack` joins the values of its list, in order, along a new axis.
pub proof fn law_stack<V>(w: World<V>, env: Values<V>, m: Meta, g: Graph, op: JsonView)
    requires
        ran(w, env, stack_lowered(m, g, op)),
    ensures
        ({
            let list = m.combines[stack_list(op)];
            let axis = or_default(attr_int_of(op, "axis"@), 0);
            output_of(m, env, op) == w.concat(
                Seq::new(
                    list.len(),
                    |i: int| w.unsqueeze(value_of(m, env, list[i]), seq![axis]),
                ),
                axis as int,
            )
        }),
{
    broadcast use group_runs;

    let list = m.combines[stack_list(op)];
    let axis = or_default(attr_int_of(op, "axis"@), 0);
    lemma_stacked(w, env, m, g, out_id(op)->Ok_0, axis, list, list.len());
}

/// `split` yields the parts of a value along an axis, in order: by the sizes that the second input
/// gives, or else of the same size.
pub proof fn law_split<V>(
    w: World<V>,
    env: Values<V>,
    m: Meta,
    g: Graph,
    op_type: Seq<char>,
    op: JsonView,
    k: int,
)
    requires
        ran(w, env, split_lowered(m, g, op_type, op)),
        0 <= k < m.splits[out_id(op)->Ok_0].len(),
    ensures
        ({
            let ins = input_ids(op);
            let outs = m.splits[out_id(op)->Ok_0];
            let by_sizes = op_type == "1.split"@ && ins.len() > 1;
            let at = if op_type == "1.split"@ {
                2int
            } else {
                1
            };
            let axis = if ins.len() > at {
                to_i64(or_default(first_const(m, ins[at]), 0))
            } else {
                to_i64(0)
            };
            let along = int_attribute("axis"@, axis);
            value_of(m, env, outs[k]) == (w.apply)(
                "Split"@,
                if by_sizes {
                    seq![input_of(m, env, op, 0), input_of(m, env, op, 1)]
                } else {
                    seq![input_of(m, env, op, 0)]
                },
                if m.target_opset >= 18 && !by_sizes {
                    seq![along, int_attribute("num_outputs"@, outs.len() as i64)]
                } else {
                    seq![along]
                },
                k,
            )
        }),
{
    broadcast use group_runs;

    let ins = input_ids(op);
    let outs = m.splits[out_id(op)->Ok_0];
    lemma_names(m, outs, outs.len());
    let by_sizes = op_type == "1.split"@ && ins.len() > 1;
    let at = if op_type == "1.split"@ {
        2int
    } else {
        1
    };
    let axis = if ins.len() > at {
        to_i64(or_default(first_const(m, ins[at]), 0))
    } else {
        to_i64(0)
    };
    let along = int_attribute("axis"@, axis);
    let outputs = names_upto(m, outs, outs.len())->Ok_0;
    let input = tensor_name(m, ins[0])->Ok_0;
    let inputs = if by_sizes {
        seq![input, tensor_name(m, ins[1])->Ok_0]
    } else {
        seq![input]
    };
    let node = node_of("Split"@, inputs, outputs).with(along);
    let n = if m.target_opset >= 18 && !by_sizes {
        node.with(int_attribute("num_outputs"@, outputs.len() as i64))
    } else {
        node
    };
    assert(split_lowered(m, g, op_type, op).0 == g.with_node(n));
    assert(computes(w, env, n));
    assert(env(n.output[k]) == (w.apply)(n.op_type, seen(env, n.input), n.attribute, k));
    if by_sizes {
        assert(seen(env, inputs) =~= seq![input_of(m, env, op, 0), input_of(m, env, op, 1)]);
    } else {
        assert(seen(env, inputs) =~= seq![input_of(m, env, op, 0)]);
    }
    if m.target_opset >= 18 && !by_sizes {
        assert(n.attribute =~= seq![along, int_attribute("num_outputs"@, outs.len() as i64)]);
    } else {
        assert(n.attribute =~= seq![along]);
    }
}

/// The part of a shape from one axis on, before another.
pub open spec fn sizes_between<V>(w: World<V>, shape: V, start: i64, end: i64) -> V {
    w.slice(shape, seq![start], seq![end], seq![0i64], unit_steps(1))
}

/// The sizes that `flatten` gives a value with sizes that are not known: those before the first
/// axis, the product of those from the first to the last, and those behind it.
pub open spec fn flattened_sizes<V>(w: World<V>, shape: V, first: i64, last: i64, rank: i64) -> V {
    let before = if first > 0 {
        seq![sizes_between(w, shape, 0, first)]
    } else {
        Seq::empty()
    };
    let middle = w.reduce(
        "ReduceProd"@,
        sizes_between(w, shape, first, (last + 1) as i64),
        seq![0i64],
        1,
    );
    let behind = if last + 1 < rank {
        seq![sizes_between(w, shape, (last + 1) as i64, rank)]
    } else {
        Seq::empty()
    };
    let parts = before.push(middle) + behind;
    if parts.len() == 1 {
        middle
    } else {
        w.concat(parts, 0)
    }
}

/// `flatten` with a last axis and more than one size that is not known joins the axes from the
/// first to the last at run time.
pub proof fn law_flatten_at_run<V>(w: World<V>, env: Values<V>, m: Meta, g: Graph, op: JsonView)
    requires
        ran(w, env, flatten_lowered(m, g, op)),
        or_default(attr_int_of(op, "stop_axis"@), -1i64) != -1,
        unknowns(output_sizes(op)) > 1,
    ensures
        ({
            let dims = m.tensor_shapes[input_ids(op)[0]];
            let stop = attr_int_of(op, "stop_axis"@)->0;
            let x = input_of(m, env, op, 0);
            output_of(m, env, op) == w.of2(
                "Reshape"@,
                x,
                flattened_sizes(
                    w,
                    w.of1("Shape"@, x),
                    front_axis(
                        or_default(attr_int_of(op, "start_axis"@), 1),
                        dims.len() as i64,
                    ),
                    front_axis(stop, dims.len() as i64),
                    dims.len() as i64,
                ),
            )
        }),
{
    broadcast use group_runs;

    let ins = input_ids(op);
    let id = out_id(op)->Ok_0;
    let dims = m.tensor_shapes[ins[0]];
    let rank = dims.len() as i64;
    let first = flatten_start(m, op, ins[0]);
    let last = front_axis(attr_int_of(op, "stop_axis"@)->0, rank);
    let next = add_wrapped(last, 1);
    assert(next == last + 1);
    let x = tensor_name(m, ins[0])->Ok_0;
    let shape = tagged("flatten_input_shape_"@, id);
    let before = tagged("flatten_prefix_"@, id);
    let size = tagged("flatten_prod_"@, id);
    let behind = tagged("flatten_suffix_"@, id);
    let parts = (if first > 0 {
        seq![before]
    } else {
        Seq::empty()
    }).push(size) + (if next < rank {
        seq![behind]
    } else {
        Seq::empty()
    });
    let values = (if first > 0 {
        seq![env(before)]
    } else {
        Seq::empty()
    }).push(env(size)) + (if next < rank {
        seq![env(behind)]
    } else {
        Seq::empty()
    });
    assert(seen(env, parts) =~= values);
    if parts.len() == 1 {
        assert(parts[0] == size);
    }
}

/// In all other cases `flatten` reshapes to the sizes of the result, where they are declared, or
/// keeps the axes before the first and joins the rest.
pub proof fn law_flatten<V>(w: World<V>, env: Values<V>, m: Meta, g: Graph, op: JsonView)
    requires
        ran(w, env, flatten_lowered(m, g, op)),
        or_default(attr_int_of(op, "stop_axis"@), -1i64) == -1 || unknowns(output_sizes(op)) <= 1,
    ensures
        output_sizes(op).len() > 0 ==> output_of(m, env, op) == w.of2(
            "Reshape"@,
            input_of(m, env, op, 0),
            w.vector(output_sizes(op)),
        ),
        output_sizes(op).len() == 0 && 0 <= flatten_start(m, op, input_ids(op)[0]) < i64::MAX
            ==> output_of(m, env, op) == w.of2(
            "Reshape"@,
            input_of(m, env, op, 0),
            w.vector(
                Seq::new(
                    flatten_start(m, op, input_ids(op)[0]) as nat,
                    |i: int| 0i64,
                ).push(-1i64),
            ),
        ),
{
    broadcast use group_runs;

    let first = flatten_start(m, op, input_ids(op)[0]);
    if 0 <= first < i64::MAX {
        assert(zeros_then_rest(first) =~= Seq::new(first as nat, |i: int| 0i64).push(-1i64));
        assert(add_wrapped(first, 1) == first + 1);
    }
}

proof fn lemma_parts_squeezed<V>(
    w: World<V>,
    env: Values<V>,
    m: Meta,
    g: Graph,
    id: i64,
    outs: Seq<i64>,
    axis: i64,
    k: nat,
    i: int,
)
    requires
        ran(w, env, parts_squeezed(m, g, id, outs, axis, k)),
    ensures
        runs(w, env, g),
        0 <= i < k ==> value_of(m, env, outs[i]) == w.squeeze(
            env(tagged2("unbind_split_"@, id, i as i64)),
            seq![axis],
        ),
    decreases k,
{
    broadcast use group_runs;

    if k > 0 {
        lemma_parts_squeezed(w, env, m, g, id, outs, axis, (k - 1) as nat, i);
    }
}

/// `unbind` yields the parts of size one of a value along an axis, in order and without the axis.
pub proof fn law_unbind<V>(w: World<V>, env: Values<V>, m: Meta, g: Graph, op: JsonView, k: int)
    requires
        ran(w, env, unbind_lowered(m, g, op)),
        0 <= k < m.splits[out_id(op)->Ok_0].len(),
    ensures
        ({
            let outs = m.splits[out_id(op)->Ok_0];
            let dims = m.tensor_shapes[input_ids(op)[0]];
            let axis = front_axis(or_default(attr_int_of(op, "axis"@), 0), dims.len() as i64);
            let along = int_attribute("axis"@, axis);
            value_of(m, env, outs[k]) == w.squeeze(
                (w.apply)(
                    "Split"@,
                    seq![input_of(m, env, op, 0)],
                    if m.target_opset >= 18 {
                        seq![along, int_attribute("num_outputs"@, outs.len() as i64)]
                    } else {
                        seq![along]
                    },
                    k,
                ),
                seq![axis],
            )
        }),
{
    broadcast use group_runs;

    let id = out_id(op)->Ok_0;
    let outs = m.splits[id];
    let dims = m.tensor_shapes[input_ids(op)[0]];
    let axis = front_axis(or_default(attr_int_of(op, "axis"@), 0), dims.len() as i64);
    let along = int_attribute("axis"@, axis);
    let input = tensor_name(m, input_ids(op)[0])->Ok_0;
    let node = node_of("Split"@, seq![input], part_names(id, outs.len())).with(along);
    let n = if m.target_opset >= 18 {
        node.with(int_attribute("num_outputs"@, outs.len() as i64))
    } else {
        node
    };
    lemma_parts_squeezed(w, env, m, g.with_node(n), id, outs, axis, outs.len(), k);
    assert(computes(w, env, n));
    assert(n.output[k] == tagged2("unbind_split_"@, id, k as i64));
    assert(env(n.output[k]) == (w.apply)(n.op_type, seen(env, n.input), n.attribute, k));
    assert(seen(env, n.input) =~= seq![env(input)]);
    if m.target_opset >= 18 {
        assert(n.attribute =~= seq![along, int_attribute("num_outputs"@, outs.len() as i64)]);
    } else {
        assert(n.attribute =~= seq![along]);
    }
}

} // verus!
