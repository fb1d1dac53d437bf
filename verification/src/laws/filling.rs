//! What the nodes that stand for operators on whole arrays compute: slices, casts, ranges, fills.

use crate::converter::ops::array::{
    arange_lowered, assign_value_lowered, cast_lowered, clip_inputs, clip_lowered, expand_lowered,
    expand_shape_made, full_like_lowered, full_lowered, full_with_tensor_lowered, known_dtype,
    literal_part, literal_parts, range_inputs, shape_parts_made, slice_bounds, slice_dropped,
    slice_lowered, strided_slice_lowered, ExpandShapePart,
};
use crate::converter::ops::common::{const_ints, has_shape, has_type, names_upto, some_negative};
use crate::converter::state::{dtype_if_known, tensor_name, Meta};
use crate::dtype::{dtype_named, FLOAT, INT64};
use crate::helper::{
    attr_chars_of, attr_ints_of, attr_items_of, input_ids, items_float, or_default, out_id,
};
use crate::json::JsonView;
use crate::laws::meaning::{
    axes_or_first, group_runs, input_of, lemma_names, lemma_plain_node, output_of, ran, runs, seen,
    unit_steps, value_of, whole, Values, World,
};
use crate::laws::shaping::sizes_between;
use crate::onnx::{node_of, Graph};
use crate::text::{tagged, tagged2};
use vstd::prelude::*;

verus! {

/// `cast` goes to the element type that is asked for.
pub proof fn law_cast<V>(w: World<V>, env: Values<V>, m: Meta, g: Graph, op: JsonView)
    requires
        ran(w, env, cast_lowered(m, g, op)),
    ensures
        output_of(m, env, op) == w.cast(
            input_of(m, env, op, 0),
            dtype_named(attr_chars_of(op, "dtype"@)->0)->0 as int,
        ),
{
    broadcast use group_runs;

}

/// A value without the axis of a value of size one.
pub open spec fn as_scalar<V>(w: World<V>, m: Meta, env: Values<V>, id: i64) -> V {
    if has_shape(m, id, seq![1i64]) {
        w.squeeze(value_of(m, env, id), seq![0i64])
    } else {
        value_of(m, env, id)
    }
}

proof fn lemma_range_inputs<V>(
    w: World<V>,
    env: Values<V>,
    m: Meta,
    g: Graph,
    id: i64,
    ins: Seq<i64>,
    k: nat,
)
    requires
        w.any_opset(),
        range_inputs(m, g, id, ins, k).1 is Ok,
        runs(w, env, range_inputs(m, g, id, ins, k).0),
    ensures
        runs(w, env, g),
        seen(env, range_inputs(m, g, id, ins, k).1->Ok_0) == Seq::new(
            k,
            |i: int| as_scalar(w, m, env, ins[i]),
        ),
    decreases k,
{
    broadcast use group_runs;

    let list = range_inputs(m, g, id, ins, k).1->Ok_0;
    let values = Seq::new(k, |i: int| as_scalar(w, m, env, ins[i]));
    if k > 0 {
        lemma_range_inputs(w, env, m, g, id, ins, (k - 1) as nat);
        let front = range_inputs(m, g, id, ins, (k - 1) as nat).1->Ok_0;
        assert(seen(env, front).len() == front.len());
        assert forall|i: int| 0 <= i < k - 1 implies env(#[trigger] front[i]) == as_scalar(
            w,
            m,
            env,
            ins[i],
        ) by {
            assert(seen(env, front)[i] == env(front[i]));
        }
        assert(list.drop_last() =~= front);
        assert(env(list.last()) == as_scalar(w, m, env, ins[k - 1]));
    }
    assert(seen(env, list) =~= values);
}

/// `arange` counts from the first input on, before the second, by steps of the third, and is cast
/// to the element type that is asked for.
pub proof fn law_arange<V>(w: World<V>, env: Values<V>, m: Meta, g: Graph, op: JsonView)
    requires
        ran(w, env, arange_lowered(m, g, op)),
        tensor_name(m, out_id(op)->Ok_0)->Ok_0 != tagged("arange_raw_"@, out_id(op)->Ok_0),
    ensures
        ({
            let range = w.of3(
                "Range"@,
                as_scalar(w, m, env, input_ids(op)[0]),
                as_scalar(w, m, env, input_ids(op)[1]),
                as_scalar(w, m, env, input_ids(op)[2]),
            );
            output_of(m, env, op) == match known_dtype(op) {
                Some(to) => w.cast(range, to as int),
                None => range,
            }
        }),
{
    broadcast use group_runs;

    let ins = input_ids(op);
    let id = out_id(op)->Ok_0;
    let list = range_inputs(m, g, id, ins, 3).1->Ok_0;
    let out = if known_dtype(op) is Some {
        tagged("arange_raw_"@, id)
    } else {
        tensor_name(m, id)->Ok_0
    };
    lemma_plain_node(w, env, "Range"@, list, out);
    lemma_range_inputs(w, env, m, g, id, ins, 3);
    assert(seen(env, list) =~= seq![
        as_scalar(w, m, env, ins[0]),
        as_scalar(w, m, env, ins[1]),
        as_scalar(w, m, env, ins[2]),
    ]);
}

/// A bound of a clip, in the element type of what is clipped.
pub open spec fn clip_bound<V>(w: World<V>, m: Meta, env: Values<V>, of: i64, id: i64) -> V {
    match dtype_if_known(m, of)->Ok_0 {
        Some(to) => if to != FLOAT && (has_type(m, id, "0.t_f32"@) || has_type(m, id, "0.t_f64"@)) {
            w.cast(value_of(m, env, id), to as int)
        } else {
            value_of(m, env, id)
        },
        None => value_of(m, env, id),
    }
}

proof fn lemma_clip_inputs<V>(
    w: World<V>,
    env: Values<V>,
    m: Meta,
    g: Graph,
    id: i64,
    ins: Seq<i64>,
    to: Option<i32>,
    first: Seq<char>,
    k: nat,
)
    requires
        k >= 1,
        dtype_if_known(m, ins[0]) == Ok::<Option<i32>, crate::error::ErrorView>(to),
        clip_inputs(m, g, id, ins, to, first, k).1 is Ok,
        runs(w, env, clip_inputs(m, g, id, ins, to, first, k).0),
    ensures
        runs(w, env, g),
        seen(env, clip_inputs(m, g, id, ins, to, first, k).1->Ok_0) == Seq::new(
            k,
            |i: int|
                if i == 0 {
                    env(first)
                } else {
                    clip_bound(w, m, env, ins[0], ins[i])
                },
        ),
    decreases k,
{
    broadcast use group_runs;

    let list = clip_inputs(m, g, id, ins, to, first, k).1->Ok_0;
    let values = Seq::new(
        k,
        |i: int|
            if i == 0 {
                env(first)
            } else {
                clip_bound(w, m, env, ins[0], ins[i])
            },
    );
    if k > 1 {
        lemma_clip_inputs(w, env, m, g, id, ins, to, first, (k - 1) as nat);
        let front = clip_inputs(m, g, id, ins, to, first, (k - 1) as nat).1->Ok_0;
        assert(seen(env, front).len() == front.len());
        assert forall|i: int| 0 <= i < k - 1 implies env(#[trigger] front[i]) == values[i] by {
            assert(seen(env, front)[i] == env(front[i]));
        }
        assert(list.drop_last() =~= front);
        assert(env(list.last()) == clip_bound(w, m, env, ins[0], ins[k - 1]));
    }
    assert(seen(env, list) =~= values);
}

/// `clip` cuts the first input off at the bounds that follow it, the lower one first.
pub proof fn law_clip<V>(w: World<V>, env: Values<V>, m: Meta, g: Graph, op: JsonView)
    requires
        ran(w, env, clip_lowered(m, g, op)),
    ensures
        output_of(m, env, op) == (w.apply)(
            "Clip"@,
            Seq::new(
                input_ids(op).len(),
                |i: int|
                    if i == 0 {
                        input_of(m, env, op, 0)
                    } else {
                        clip_bound(w, m, env, input_ids(op)[0], input_ids(op)[i])
                    },
            ),
            Seq::empty(),
            0,
        ),
{
    broadcast use group_runs;

    let ins = input_ids(op);
    let id = out_id(op)->Ok_0;
    let to = dtype_if_known(m, ins[0])->Ok_0;
    let first = tensor_name(m, ins[0])->Ok_0;
    let list = clip_inputs(m, g, id, ins, to, first, ins.len()).1->Ok_0;
    lemma_plain_node(w, env, "Clip"@, list, tensor_name(m, id)->Ok_0);
    lemma_clip_inputs(w, env, m, g, id, ins, to, first, ins.len());
    let values = Seq::new(
        ins.len(),
        |i: int|
            if i == 0 {
                input_of(m, env, op, 0)
            } else {
                clip_bound(w, m, env, ins[0], ins[i])
            },
    );
    assert(seen(env, list) =~= values);
}

/// A value in the element type that is asked for.
pub open spec fn as_asked<V>(w: World<V>, op: JsonView, a: V) -> V {
    match known_dtype(op) {
        Some(to) => w.cast(a, to as int),
        None => a,
    }
}

/// `full_like` spreads its second input over the shape of the first.
pub proof fn law_full_like<V>(w: World<V>, env: Values<V>, m: Meta, g: Graph, op: JsonView)
    requires
        ran(w, env, full_like_lowered(m, g, op)),
    ensures
        output_of(m, env, op) == w.of2(
            "Expand"@,
            as_asked(w, op, input_of(m, env, op, 1)),
            w.of1("Shape"@, input_of(m, env, op, 0)),
        ),
{
    broadcast use group_runs;

}

/// `full_with_tensor` spreads its first input over the shape that the second gives.
pub proof fn law_full_with_tensor<V>(w: World<V>, env: Values<V>, m: Meta, g: Graph, op: JsonView)
    requires
        ran(w, env, full_with_tensor_lowered(m, g, op)),
    ensures
        output_of(m, env, op) == w.of2(
            "Expand"@,
            as_asked(w, op, input_of(m, env, op, 0)),
            if has_shape(m, input_ids(op)[1], Seq::empty()) {
                w.unsqueeze(input_of(m, env, op, 1), seq![0i64])
            } else {
                input_of(m, env, op, 1)
            },
        ),
{
    broadcast use group_runs;

}

/// `assign_value_` is a constant of the listed values, with the element type and the sizes that
/// are asked for; without sizes, several values lie along one axis.
pub proof fn law_assign_value<V>(w: World<V>, env: Values<V>, m: Meta, g: Graph, op: JsonView)
    requires
        ran(w, env, assign_value_lowered(m, g, op)),
    ensures
        ({
            let values = match attr_items_of(op, "values"@) {
                Some(items) => items_float(items, items.len()),
                None => Seq::empty(),
            };
            let sizes = or_default(attr_ints_of(op, "shape"@), Seq::empty());
            output_of(m, env, op) == w.numbers(
                if sizes.len() == 0 && values.len() > 1 {
                    seq![values.len() as i64]
                } else {
                    sizes
                },
                dtype_named(attr_chars_of(op, "dtype"@)->0)->0,
                values,
            )
        }),
{
    broadcast use group_runs;

}

/// `full` with known sizes is a constant of so many elements, each the value that is known for it.
pub proof fn law_full<V>(w: World<V>, env: Values<V>, m: Meta, g: Graph, op: JsonView)
    requires
        ran(w, env, full_lowered(m, g, "1.full"@, op)),
        crate::helper::first_output(op) is Some,
        m.constants.contains_key(crate::helper::first_output(op)->0),
        m.constants[crate::helper::first_output(op)->0].len() == 1,
        ({
            let sizes = or_default(attr_ints_of(op, "shape"@), Seq::empty());
            sizes.len() > 0 && !some_negative(sizes) && !sizes.contains(0)
                && crate::converter::optimizer::dims::wrapped_product(sizes) > 0
        }),
    ensures
        ({
            let sizes = or_default(attr_ints_of(op, "shape"@), Seq::empty());
            let value = m.constants[crate::helper::first_output(op)->0][0];
            output_of(m, env, op) == w.numbers(
                sizes,
                match attr_chars_of(op, "dtype"@) {
                    Some(dtype) => dtype_named(dtype)->0,
                    None => INT64,
                },
                Seq::new(
                    crate::converter::optimizer::dims::wrapped_product(sizes) as nat,
                    |i: int| value,
                ),
            )
        }),
{
    broadcast use group_runs;

    reveal_strlit("1.full");
    reveal_strlit("1.full_int_array");
    assert("1.full"@.len() != "1.full_int_array"@.len());
    let id = crate::helper::first_output(op)->0;
    let sizes = or_default(attr_ints_of(op, "shape"@), Seq::empty());
    let values = m.constants[id];
    let count = crate::converter::optimizer::dims::wrapped_product(sizes);
    let list = Seq::new(count as nat, |i: int| values[0]);
    assert(crate::converter::ops::array::full_values(values, sizes) =~= list);
    assert(crate::converter::ops::array::full_dims("1.full"@, values, sizes) == sizes);
}

// ---- Slices ----

/// A slice without the axes that are to go.
pub open spec fn without_axes<V>(w: World<V>, a: V, axes: Seq<i64>) -> V {
    if axes.len() == 0 {
        a
    } else {
        w.squeeze(a, axes)
    }
}

/// From opset 10 on, `slice` selects from the starts of its second input on before the ends of the
/// third, along the axes that are asked for, and then drops the axes that are to go.
pub proof fn law_slice<V>(w: World<V>, env: Values<V>, m: Meta, g: Graph, op: JsonView)
    requires
        m.target_opset >= 10,
        ran(w, env, slice_lowered(m, g, op)),
        input_ids(op).len() >= 3,
    ensures
        ({
            let bounds = seq![
                input_of(m, env, op, 0),
                input_of(m, env, op, 1),
                input_of(m, env, op, 2),
            ];
            let axes = or_default(attr_ints_of(op, "axes"@), Seq::empty());
            output_of(m, env, op) == without_axes(
                w,
                (w.apply)(
                    "Slice"@,
                    if axes.len() > 0 {
                        bounds.push(w.vector(axes))
                    } else {
                        bounds
                    },
                    Seq::empty(),
                    0,
                ),
                slice_dropped(op),
            )
        }),
{
    broadcast use group_runs;

    let ins = input_ids(op);
    let id = out_id(op)->Ok_0;
    lemma_names(m, ins, 3);
    let list = names_upto(m, ins, 3)->Ok_0;
    let axes = or_default(attr_ints_of(op, "axes"@), Seq::empty());
    let axes_name = tagged("slice_axes_"@, id);
    let inputs = if axes.len() > 0 {
        list.push(axes_name)
    } else {
        list
    };
    let result = if slice_dropped(op).len() == 0 {
        tensor_name(m, id)->Ok_0
    } else {
        tagged("slice_out_"@, id)
    };
    lemma_plain_node(w, env, "Slice"@, inputs, result);
    let bounds = seq![input_of(m, env, op, 0), input_of(m, env, op, 1), input_of(m, env, op, 2)];
    if axes.len() > 0 {
        assert(seen(env, inputs) =~= bounds.push(w.vector(axes)));
    } else {
        assert(seen(env, inputs) =~= bounds);
    }
}

/// Before opset 10, `slice` selects by the starts and ends that are constant or given as
/// attributes.
pub proof fn law_slice_early<V>(w: World<V>, env: Values<V>, m: Meta, g: Graph, op: JsonView)
    requires
        m.target_opset < 10,
        ran(w, env, slice_lowered(m, g, op)),
    ensures
        ({
            let ins = input_ids(op);
            let starts = slice_bounds(m, op, ins, 1, "starts"@)->0;
            let ends = slice_bounds(m, op, ins, 2, "ends"@)->0;
            let axes = or_default(attr_ints_of(op, "axes"@), Seq::empty());
            output_of(m, env, op) == without_axes(
                w,
                w.slice(
                    input_of(m, env, op, 0),
                    starts,
                    ends,
                    if axes.len() == 0 {
                        axes_or_first(None, starts.len())
                    } else {
                        axes
                    },
                    unit_steps(starts.len()),
                ),
                slice_dropped(op),
            )
        }),
{
    broadcast use group_runs;

}

/// `strided_slice` selects from starts on before ends by steps, along the axes that are asked for.
pub proof fn law_strided_slice<V>(w: World<V>, env: Values<V>, m: Meta, g: Graph, op: JsonView)
    requires
        ran(w, env, strided_slice_lowered(m, g, op)),
    ensures
        ({
            let ins = input_ids(op);
            let starts = whole(w, m, env, ins[1]);
            let ends = whole(w, m, env, ins[2]);
            let steps = whole(w, m, env, ins[3]);
            let axes = or_default(attr_ints_of(op, "axes"@), Seq::empty());
            output_of(m, env, op) == without_axes(
                w,
                (w.apply)(
                    "Slice"@,
                    if axes.len() > 0 {
                        seq![input_of(m, env, op, 0), starts, ends, w.vector(axes), steps]
                    } else {
                        seq![input_of(m, env, op, 0), starts, ends, steps]
                    },
                    Seq::empty(),
                    0,
                ),
                or_default(attr_ints_of(op, "decrease_axis"@), Seq::empty()),
            )
        }),
{
    broadcast use group_runs;

    let ins = input_ids(op);
    let id = out_id(op)->Ok_0;
    let axes = or_default(attr_ints_of(op, "axes"@), Seq::empty());
    let dropped = or_default(attr_ints_of(op, "decrease_axis"@), Seq::empty());
    let data = tensor_name(m, ins[0])->Ok_0;
    let (g1, starts) = crate::converter::ops::common::ints_ensured(
        m,
        g,
        ins[1],
        id,
        "strided_slice_starts"@,
    );
    let (g2, ends) = crate::converter::ops::common::ints_ensured(
        m,
        g1,
        ins[2],
        id,
        "strided_slice_ends"@,
    );
    let axes_name = tagged("strided_slice_axes_"@, id);
    let g3 = if axes.len() > 0 {
        crate::converter::emit::vector_added(g2, axes_name, axes)
    } else {
        g2
    };
    let (g4, steps) = crate::converter::ops::common::ints_ensured(
        m,
        g3,
        ins[3],
        id,
        "strided_slice_steps"@,
    );
    let front = seq![data, starts->Ok_0, ends->Ok_0];
    let list = if axes.len() > 0 {
        front.push(axes_name)
    } else {
        front
    };
    let inputs = list.push(steps->Ok_0);
    let result = if dropped.len() == 0 {
        tensor_name(m, id)->Ok_0
    } else {
        tagged("strided_slice_out_"@, id)
    };
    assert(runs(w, env, g4.with_node(node_of("Slice"@, inputs, seq![result]))));
    lemma_plain_node(w, env, "Slice"@, inputs, result);
    if axes.len() > 0 {
        assert(seen(env, inputs) =~= seq![
            env(data),
            env(starts->Ok_0),
            env(ends->Ok_0),
            w.vector(axes),
            env(steps->Ok_0),
        ]);
    } else {
        assert(seen(env, inputs) =~= seq![
            env(data),
            env(starts->Ok_0),
            env(ends->Ok_0),
            env(steps->Ok_0),
        ]);
    }
}

// ---- Expansion ----

/// `expand` to a shape without open sizes spreads its first input over the shape of the second.
pub proof fn law_expand<V>(w: World<V>, env: Values<V>, m: Meta, g: Graph, op: JsonView)
    requires
        ran(w, env, expand_lowered(m, g, op)),
        const_ints(m, input_ids(op)[1]) matches Some(list) ==> !some_negative(list),
        !m.stack_parts.contains_key(input_ids(op)[1]),
    ensures
        output_of(m, env, op) == w.of2(
            "Expand"@,
            input_of(m, env, op, 0),
            input_of(m, env, op, 1),
        ),
{
    broadcast use group_runs;

}

/// A size of the shape to expand to: the one that is asked for, or the input's own where it is left
/// open, with the axes aligned at the end.
pub open spec fn expanded_size<V>(w: World<V>, shape: V, size: i64, at: int) -> V {
    if size >= 0 {
        w.vector(seq![size])
    } else {
        sizes_between(w, shape, at as i64, (at + 1) as i64)
    }
}

proof fn lemma_literal_parts<V>(
    w: World<V>,
    env: Values<V>,
    m: Meta,
    g: Graph,
    data: i64,
    id: i64,
    list: Seq<i64>,
    k: nat,
)
    requires
        w.any_opset(),
        k <= list.len() <= i64::MAX,
        shape_parts_made(m, g, data, id, literal_parts(list), k).2 is Ok,
        runs(w, env, shape_parts_made(m, g, data, id, literal_parts(list), k).0),
    ensures
        runs(w, env, g),
        shape_parts_made(m, g, data, id, literal_parts(list), k).1 matches Some(name) ==> env(name)
            == w.of1("Shape"@, value_of(m, env, data)),
        ({
            let dims = m.tensor_shapes[data];
            let shape = w.of1("Shape"@, value_of(m, env, data));
            seen(env, shape_parts_made(m, g, data, id, literal_parts(list), k).2->Ok_0) == Seq::new(
                k,
                |i: int| expanded_size(w, shape, list[i], i - (list.len() - dims.len())),
            )
        }),
    decreases k,
{
    broadcast use group_runs;

    let parts = literal_parts(list);
    let dims = m.tensor_shapes[data];
    let shape = w.of1("Shape"@, value_of(m, env, data));
    let names = shape_parts_made(m, g, data, id, parts, k).2->Ok_0;
    let values = Seq::new(
        k,
        |i: int| expanded_size(w, shape, list[i], i - (list.len() - dims.len())),
    );
    if k > 0 {
        let (h, known, r) = shape_parts_made(m, g, data, id, parts, (k - 1) as nat);
        let front = r->Ok_0;
        let axis = (k - 1) as nat;
        assert(parts[k - 1] == ExpandShapePart::Literal(list[k - 1]));
        let step = literal_part(m, h, data, id, parts.len(), axis, list[k - 1], known);
        assert(step.2 is Ok);
        assert(runs(w, env, step.0));
        let part = tagged2("expand_shape_part_"@, id, axis as i64);
        if list[k - 1] >= 0 {
            assert(runs(w, env, h));
        } else {
            let own = tagged("expand_input_shape_"@, id);
            assert(runs(w, env, h));
        }
        lemma_literal_parts(w, env, m, g, data, id, list, (k - 1) as nat);
        assert(env(step.2->Ok_0) == expanded_size(
            w,
            shape,
            list[k - 1],
            k - 1 - (list.len() - dims.len()),
        ));
        assert(seen(env, front).len() == front.len());
        assert forall|i: int| 0 <= i < k - 1 implies env(#[trigger] front[i]) == values[i] by {
            assert(seen(env, front)[i] == env(front[i]));
        }
        assert(names == front.push(step.2->Ok_0));
    }
    assert(seen(env, names) =~= values);
}

/// `expand` to a constant shape with open sizes keeps the input's own sizes there, with the axes
/// aligned at the end.
pub proof fn law_expand_open<V>(w: World<V>, env: Values<V>, m: Meta, g: Graph, op: JsonView)
    requires
        ran(w, env, expand_lowered(m, g, op)),
        const_ints(m, input_ids(op)[1]) is Some,
        some_negative(const_ints(m, input_ids(op)[1])->0),
        const_ints(m, input_ids(op)[1])->0.len() <= i64::MAX,
    ensures
        ({
            let list = const_ints(m, input_ids(op)[1])->0;
            let x = input_of(m, env, op, 0);
            let dims = m.tensor_shapes[input_ids(op)[0]];
            let sizes = Seq::new(
                list.len(),
                |i: int|
                    expanded_size(
                        w,
                        w.of1("Shape"@, x),
                        list[i],
                        i - (list.len() - dims.len()),
                    ),
            );
            output_of(m, env, op) == w.of2(
                "Expand"@,
                x,
                if list.len() == 1 {
                    sizes[0]
                } else {
                    w.concat(sizes, 0)
                },
            )
        }),
{
    broadcast use group_runs;

    reveal(expand_shape_made);
    let ins = input_ids(op);
    let id = out_id(op)->Ok_0;
    let list = const_ints(m, ins[1])->0;
    let parts = literal_parts(list);
    let (h, known, r) = shape_parts_made(m, g, ins[0], id, parts, parts.len());
    assert(runs(w, env, h));
    lemma_literal_parts(w, env, m, g, ins[0], id, list, list.len());
    assert(seen(env, r->Ok_0).len() == (r->Ok_0).len());
    if list.len() == 1 {
        assert(seen(env, r->Ok_0)[0] == env((r->Ok_0)[0]));
    }
}

} // verus!
