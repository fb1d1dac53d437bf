//! What the nodes that stand for operators that move, repeat or surround elements compute.

use crate::converter::ops::common::{const_ints, has_shape, has_type, names_upto};
use crate::converter::ops::pad::{
    all_paddings, axes_rolled, axis_rolled, pad3d_lowered, pad_lowered, padding_mode, padding_taken,
    pairs_parted, roll_lowered, tile_lowered, volume_pads, with_mode,
};
use crate::converter::ops::transform::{
    axes_flipped, axis_flipped, cumsum_lowered, descending, einsum_lowered, flip_axes, flip_dims,
    flip_lowered, grid_shape_names, grid_shapes, grid_spread, meshgrid_lowered, other_axes,
    part_values,
};
use crate::converter::state::{tensor_name, Meta};
use crate::dtype::INT64;
use crate::float::{narrow, zero};
use crate::helper::{
    attr_chars_of, attr_ints_of, attr_number_of, attr_of, input_ids, or_default, out_id,
};
use crate::json::JsonView;
use crate::laws::meaning::{
    computes, group_runs, input_of, lemma_names, lemma_node_output, output_of, ran, runs, seen,
    unit_steps, value_of, Values, World,
};
use crate::laws::reducing::if_true;
use crate::laws::selecting::first_two;
use crate::laws::shaping::sizes_between;
use crate::onnx::{int_attribute, node_of, str_attribute, Attribute, Graph};
use crate::text::{tagged, tagged2};
use vstd::prelude::*;

verus! {

// ---- Flipping and rolling ----

/// A value with the order along an axis of some size turned round.
pub open spec fn reversed<V>(w: World<V>, a: V, axis: int, size: int) -> V {
    w.gather(a, w.vector(Seq::new(size as nat, |i: int| (size - 1 - i) as i64)), axis as i64 as int)
}

/// A value turned round along the first `k` of axes, one after the other.
pub open spec fn all_reversed<V>(w: World<V>, a: V, dims: Seq<i64>, axes: Seq<int>, k: nat) -> V
    decreases k,
{
    if k == 0 {
        a
    } else {
        let before = all_reversed(w, a, dims, axes, (k - 1) as nat);
        reversed(w, before, axes[k - 1], dims[axes[k - 1]] as int)
    }
}

proof fn lemma_flipped<V>(
    w: World<V>,
    env: Values<V>,
    m: Meta,
    g: Graph,
    id: i64,
    start: Seq<char>,
    dims: Seq<i64>,
    axes: Seq<int>,
    k: nat,
)
    requires
        w.any_opset(),
        k <= axes.len(),
        axes_flipped(m, g, id, start, dims, axes, k).1 is Ok,
        runs(w, env, axes_flipped(m, g, id, start, dims, axes, k).0),
    ensures
        runs(w, env, g),
        env(axes_flipped(m, g, id, start, dims, axes, k).1->Ok_0) == all_reversed(
            w,
            env(start),
            dims,
            axes,
            k,
        ),
        0 < k == axes.len() ==> axes_flipped(m, g, id, start, dims, axes, k).1->Ok_0
            == tensor_name(m, id)->Ok_0,
    decreases k,
{
    broadcast use group_runs;

    reveal(axis_flipped);
    if k > 0 {
        let (h, r) = axes_flipped(m, g, id, start, dims, axes, (k - 1) as nat);
        let current = r->Ok_0;
        let axis = axes[k - 1];
        let step = axis_flipped(
            m,
            h,
            id,
            current,
            dims,
            axis,
            (k - 1) as nat,
            k == axes.len(),
        );
        assert(step.1 is Ok);
        assert(runs(w, env, h));
        lemma_flipped(w, env, m, g, id, start, dims, axes, (k - 1) as nat);
        let size = dims[axis] as int;
        assert(descending(size) =~= Seq::new(size as nat, |i: int| (size - 1 - i) as i64));
    }
}

/// `flip` turns the order along each of its axes round; without axes, along the first.
pub proof fn law_flip<V>(w: World<V>, env: Values<V>, m: Meta, g: Graph, op: JsonView)
    requires
        ran(w, env, flip_lowered(m, g, op)),
    ensures
        ({
            let dims = flip_dims(m, op, input_ids(op)[0]);
            let given = or_default(attr_ints_of(op, "axis"@), Seq::empty());
            let axes = if given.len() == 0 {
                seq![0int]
            } else {
                Seq::new(
                    given.len(),
                    |i: int|
                        if given[i] < 0 {
                            given[i] + dims.len()
                        } else {
                            given[i] as int
                        },
                )
            };
            output_of(m, env, op) == all_reversed(
                w,
                input_of(m, env, op, 0),
                dims,
                axes,
                axes.len(),
            )
        }),
{
    let ins = input_ids(op);
    let id = out_id(op)->Ok_0;
    let dims = flip_dims(m, op, ins[0]);
    let given = or_default(attr_ints_of(op, "axis"@), Seq::empty());
    let axes = flip_axes(op, dims.len());
    if given.len() > 0 {
        assert(axes =~= Seq::new(
            given.len(),
            |i: int|
                if given[i] < 0 {
                    given[i] + dims.len()
                } else {
                    given[i] as int
                },
        ));
    }
    lemma_flipped(w, env, m, g, id, tensor_name(m, ins[0])->Ok_0, dims, axes, axes.len());
}

/// A value rolled along an axis: the part that is pushed out at the end comes back at the front.
pub open spec fn rolled<V>(w: World<V>, a: V, dims: Seq<i64>, axis: int, by: i64) -> V {
    let size = dims[axis];
    let shift = (by as int) % (size as int);
    if shift == 0 {
        a
    } else {
        let at = (size - shift) as i64;
        w.concat(
            seq![
                w.slice(a, seq![at], seq![size], seq![axis as i64], unit_steps(1)),
                w.slice(a, seq![0i64], seq![at], seq![axis as i64], unit_steps(1)),
            ],
            axis as i64 as int,
        )
    }
}

/// A value rolled along the first `k` of axes, one after the other.
pub open spec fn all_rolled<V>(
    w: World<V>,
    a: V,
    dims: Seq<i64>,
    axes: Seq<i64>,
    shifts: Seq<i64>,
    k: nat,
) -> V
    decreases k,
{
    if k == 0 {
        a
    } else {
        let axis = if axes[k - 1] < 0 {
            axes[k - 1] + dims.len()
        } else {
            axes[k - 1] as int
        };
        rolled(w, all_rolled(w, a, dims, axes, shifts, (k - 1) as nat), dims, axis, shifts[k - 1])
    }
}

proof fn lemma_rolled<V>(
    w: World<V>,
    env: Values<V>,
    m: Meta,
    g: Graph,
    id: i64,
    start: Seq<char>,
    dims: Seq<i64>,
    axes: Seq<i64>,
    shifts: Seq<i64>,
    k: nat,
)
    requires
        w.any_opset(),
        axes_rolled(m, g, id, start, dims, axes, shifts, k).1 is Ok,
        runs(w, env, axes_rolled(m, g, id, start, dims, axes, shifts, k).0),
    ensures
        runs(w, env, g),
        env(axes_rolled(m, g, id, start, dims, axes, shifts, k).1->Ok_0) == all_rolled(
            w,
            env(start),
            dims,
            axes,
            shifts,
            k,
        ),
    decreases k,
{
    broadcast use group_runs;

    reveal(axis_rolled);
    if k > 0 {
        let (h, r) = axes_rolled(m, g, id, start, dims, axes, shifts, (k - 1) as nat);
        let current = r->Ok_0;
        let index = (k - 1) as nat;
        let step = axis_rolled(
            m,
            h,
            id,
            current,
            dims,
            axes[k - 1],
            shifts[k - 1],
            index,
            k == axes.len(),
        );
        assert(step.1 is Ok);
        assert(runs(w, env, step.0));
        let tail = tagged2("roll_tail_"@, id, index as i64);
        let head = tagged2("roll_head_"@, id, index as i64);
        assert(seen(env, seq![tail, head]) =~= seq![env(tail), env(head)]);
        assert(runs(w, env, h));
        lemma_rolled(w, env, m, g, id, start, dims, axes, shifts, (k - 1) as nat);
    }
}

/// `roll` pushes along each of its axes by the shift for it, what is pushed out at the end coming
/// back at the front.
pub proof fn law_roll<V>(w: World<V>, env: Values<V>, m: Meta, g: Graph, op: JsonView)
    requires
        ran(w, env, roll_lowered(m, g, op)),
        forall|a: V| #[trigger] w.of1("Identity"@, a) == a,
    ensures
        ({
            let dims = m.tensor_shapes[input_ids(op)[0]];
            let axes = attr_ints_of(op, "axis"@)->0;
            output_of(m, env, op) == all_rolled(
                w,
                input_of(m, env, op, 0),
                dims,
                axes,
                const_ints(m, input_ids(op)[1])->0,
                axes.len(),
            )
        }),
{
    broadcast use group_runs;

    let ins = input_ids(op);
    let id = out_id(op)->Ok_0;
    let dims = m.tensor_shapes[ins[0]];
    let axes = attr_ints_of(op, "axis"@)->0;
    let shifts = const_ints(m, ins[1])->0;
    let start = tensor_name(m, ins[0])->Ok_0;
    let (h, r) = axes_rolled(m, g, id, start, dims, axes, shifts, axes.len());
    assert(runs(w, env, h));
    lemma_rolled(w, env, m, g, id, start, dims, axes, shifts, axes.len());
}

// ---- Sums, products and grids ----

/// `cumsum` adds up along the axis of its second input, without the element itself or from the end
/// exactly where that is asked for.
pub proof fn law_cumsum<V>(w: World<V>, env: Values<V>, m: Meta, g: Graph, op: JsonView)
    requires
        ran(w, env, cumsum_lowered(m, g, op)),
    ensures
        output_of(m, env, op) == (w.apply)(
            "CumSum"@,
            first_two(m, env, op),
            seq![
                int_attribute("exclusive"@, if_true(op, "exclusive"@) as i64),
                int_attribute("reverse"@, if_true(op, "reverse"@) as i64),
            ],
            0,
        ),
{
    broadcast use group_runs;

    lemma_names(m, input_ids(op), 2);
    let inputs = names_upto(m, input_ids(op), 2)->Ok_0;
    let output = tensor_name(m, out_id(op)->Ok_0)->Ok_0;
    let n = node_of("CumSum"@, inputs, seq![output]).with(
        int_attribute("exclusive"@, if_true(op, "exclusive"@) as i64),
    ).with(int_attribute("reverse"@, if_true(op, "reverse"@) as i64));
    assert(computes(w, env, n));
    assert(n.output[0] == output);
    lemma_node_output(w, env, n);
    assert(seen(env, inputs) =~= first_two(m, env, op));
    assert(n.attribute =~= seq![
        int_attribute("exclusive"@, if_true(op, "exclusive"@) as i64),
        int_attribute("reverse"@, if_true(op, "reverse"@) as i64),
    ]);
}

/// `einsum` sums over the listed values, in order, by its equation.
pub proof fn law_einsum<V>(w: World<V>, env: Values<V>, m: Meta, g: Graph, op: JsonView)
    requires
        ran(w, env, einsum_lowered(m, g, op)),
    ensures
        ({
            let first = input_ids(op)[0];
            let parts = if m.combines.contains_key(first) {
                m.combines[first]
            } else {
                seq![first]
            };
            output_of(m, env, op) == (w.apply)(
                "Einsum"@,
                Seq::new(parts.len(), |i: int| value_of(m, env, parts[i])),
                seq![str_attribute("equation"@, attr_chars_of(op, "equation"@)->0)],
                0,
            )
        }),
{
    broadcast use group_runs;

    let first = input_ids(op)[0];
    let parts = if m.combines.contains_key(first) {
        m.combines[first]
    } else {
        seq![first]
    };
    let inputs = part_values(m, first)->Ok_0;
    lemma_names(m, parts, parts.len());
    let output = tensor_name(m, out_id(op)->Ok_0)->Ok_0;
    let equation = attr_chars_of(op, "equation"@)->0;
    let n = node_of("Einsum"@, inputs, seq![output]).with(str_attribute("equation"@, equation));
    assert(computes(w, env, n));
    assert(n.output[0] == output);
    lemma_node_output(w, env, n);
    assert(seen(env, inputs) =~= Seq::new(parts.len(), |i: int| value_of(m, env, parts[i])));
    assert(n.attribute =~= seq![str_attribute("equation"@, equation)]);
}

proof fn lemma_grid_shapes<V>(
    w: World<V>,
    env: Values<V>,
    m: Meta,
    g: Graph,
    id: i64,
    parts: Seq<i64>,
    k: nat,
    i: int,
)
    requires
        ran(w, env, grid_shapes(m, g, id, parts, k)),
    ensures
        runs(w, env, g),
        0 <= i < k ==> env(tagged2("meshgrid_shape_part_"@, id, i as i64)) == w.of1(
            "Shape"@,
            value_of(m, env, parts[i]),
        ),
    decreases k,
{
    broadcast use group_runs;

    if k > 0 {
        lemma_grid_shapes(w, env, m, g, id, parts, (k - 1) as nat, i);
    }
}

proof fn lemma_grid_spread<V>(
    w: World<V>,
    env: Values<V>,
    m: Meta,
    g: Graph,
    id: i64,
    parts: Seq<i64>,
    outs: Seq<i64>,
    k: nat,
    i: int,
)
    requires
        ran(w, env, grid_spread(m, g, id, parts, outs, k)),
    ensures
        runs(w, env, g),
        0 <= i < k ==> value_of(m, env, outs[i]) == w.of2(
            "Expand"@,
            w.unsqueeze(value_of(m, env, parts[i]), other_axes(parts.len(), i)),
            env(tagged("meshgrid_shape_"@, id)),
        ),
    decreases k,
{
    broadcast use group_runs;

    if k > 0 {
        lemma_grid_spread(w, env, m, g, id, parts, outs, (k - 1) as nat, i);
    }
}

/// The other axes are all but the one.
pub proof fn law_other_axes(rank: nat, axis: int, x: i64)
    requires
        rank <= i64::MAX,
    ensures
        other_axes(rank, axis).contains(x) <==> 0 <= x < rank && x != axis,
    decreases rank,
{
    let list = other_axes(rank, axis);
    if rank > 0 {
        law_other_axes((rank - 1) as nat, axis, x);
        let front = other_axes((rank - 1) as nat, axis);
        if rank - 1 != axis {
            if front.contains(x) {
                let i = choose|i: int| 0 <= i < front.len() && front[i] == x;
                assert(list[i] == x);
            }
            if x == rank - 1 {
                assert(list[front.len() as int] == x);
            }
            if list.contains(x) {
                let i = choose|i: int| 0 <= i < list.len() && list[i] == x;
                if i < front.len() {
                    assert(front[i] == x);
                }
            }
        }
    }
}

/// `meshgrid` lays each of its values along an axis of its own and spreads it over the sizes of
/// all of them.
pub proof fn law_meshgrid<V>(w: World<V>, env: Values<V>, m: Meta, g: Graph, op: JsonView, k: int)
    requires
        ran(w, env, meshgrid_lowered(m, g, op)),
        0 <= k < m.combines[input_ids(op)[0]].len(),
    ensures
        ({
            let parts = m.combines[input_ids(op)[0]];
            let outs = m.splits[out_id(op)->Ok_0];
            let sizes = w.concat(
                Seq::new(parts.len(), |i: int| w.of1("Shape"@, value_of(m, env, parts[i]))),
                0,
            );
            value_of(m, env, outs[k]) == w.of2(
                "Expand"@,
                w.unsqueeze(value_of(m, env, parts[k]), other_axes(parts.len(), k)),
                sizes,
            )
        }),
{
    broadcast use group_runs;

    let parts = m.combines[input_ids(op)[0]];
    let id = out_id(op)->Ok_0;
    let outs = m.splits[id];
    let (h, r) = grid_shapes(m, g, id, parts, parts.len());
    let names = grid_shape_names(id, parts.len());
    let joined = crate::converter::emit::concat_added(h, names, tagged("meshgrid_shape_"@, id), 0);
    lemma_grid_spread(w, env, m, joined, id, parts, outs, parts.len(), k);
    let shapes = Seq::new(parts.len(), |i: int| w.of1("Shape"@, value_of(m, env, parts[i])));
    assert forall|i: int| 0 <= i < parts.len() implies env(#[trigger] names[i]) == shapes[i] by {
        lemma_grid_shapes(w, env, m, g, id, parts, parts.len(), i);
    }
    assert(seen(env, names) =~= shapes);
}

/// `tile` repeats its first input as often as the second says; a scalar gets an axis first.
pub proof fn law_tile<V>(w: World<V>, env: Values<V>, m: Meta, g: Graph, op: JsonView)
    requires
        ran(w, env, tile_lowered(m, g, op)),
    ensures
        output_of(m, env, op) == w.of2(
            "Tile"@,
            if has_shape(m, input_ids(op)[0], Seq::empty()) {
                w.unsqueeze(input_of(m, env, op, 0), seq![0i64])
            } else {
                input_of(m, env, op, 0)
            },
            input_of(m, env, op, 1),
        ),
{
    broadcast use group_runs;

}

// ---- Padding ----

/// How a mode of padding is told to `Pad`.
pub open spec fn mode_told(mode: Option<Seq<char>>) -> Seq<Attribute> {
    if mode == Some("reflect"@) {
        seq![str_attribute("mode"@, "reflect"@)]
    } else if mode == Some("replicate"@) {
        seq![str_attribute("mode"@, "edge"@)]
    } else {
        Seq::empty()
    }
}

proof fn lemma_modes()
    ensures
        "reflect"@ != "constant"@,
        "edge"@ != "constant"@,
{
    reveal_strlit("reflect");
    reveal_strlit("constant");
    reveal_strlit("edge");
    assert("reflect"@.len() != "constant"@.len());
    assert("edge"@.len() != "constant"@.len());
}

/// `pad` surrounds its first input: the paddings come in pairs of before and behind for each axis,
/// and are told as all that come before and then all that come behind.
pub proof fn law_pad<V>(w: World<V>, env: Values<V>, m: Meta, g: Graph, op: JsonView)
    requires
        ran(w, env, pad_lowered(m, g, op)),
    ensures
        ({
            let list = attr_ints_of(op, "paddings"@)->0;
            let half = (list.len() / 2) as nat;
            let before = Seq::new(half, |i: int| list[2 * i]);
            let behind = Seq::new(half, |i: int| list[2 * i + 1]);
            let sizes = w.vector(before + behind);
            let mode = match attr_of(op, "mode"@) {
                Some(v) => v.chars(),
                None => attr_chars_of(op, "padding_mode"@),
            };
            let ins = input_ids(op);
            let x = input_of(m, env, op, 0);
            output_of(m, env, op) == (w.apply)(
                "Pad"@,
                if ins.len() > 1 && ins[1] != 0 {
                    seq![
                        x,
                        sizes,
                        if has_shape(m, ins[1], seq![1i64]) {
                            w.squeeze(input_of(m, env, op, 1), seq![0i64])
                        } else {
                            input_of(m, env, op, 1)
                        },
                    ]
                } else {
                    seq![x, sizes]
                },
                mode_told(mode),
                0,
            )
        }),
{
    broadcast use group_runs;

    lemma_modes();
    let ins = input_ids(op);
    let id = out_id(op)->Ok_0;
    let list = attr_ints_of(op, "paddings"@)->0;
    let half = (list.len() / 2) as nat;
    let before = Seq::new(half, |i: int| list[2 * i]);
    let behind = Seq::new(half, |i: int| list[2 * i + 1]);
    assert(pairs_parted(list) =~= before + behind);
    let mode = crate::converter::ops::pad::asked_mode(op);
    let input = tensor_name(m, ins[0])->Ok_0;
    let output = tensor_name(m, id)->Ok_0;
    let pads = tagged("pad_pads_"@, id);
    let node = with_mode(node_of("Pad"@, seq![input, pads], seq![output]), padding_mode(mode));
    let n = if ins.len() > 1 && ins[1] != 0 {
        node.with_input(
            if has_shape(m, ins[1], seq![1i64]) {
                tagged("pad_value_"@, id)
            } else {
                tensor_name(m, ins[1])->Ok_0
            },
        )
    } else {
        node
    };
    assert(computes(w, env, n));
    assert(n.output[0] == output);
    lemma_node_output(w, env, n);
    assert(n.attribute =~= mode_told(mode));
    if ins.len() > 1 && ins[1] != 0 {
        assert(seen(env, n.input) =~= seq![env(input), env(pads), env(n.input[2])]);
    } else {
        assert(seen(env, n.input) =~= seq![env(input), env(pads)]);
    }
}

/// One of the paddings of `pad3d`, which stand in its second input.
pub open spec fn padding_at<V>(w: World<V>, m: Meta, env: Values<V>, id: i64, i: i64) -> V {
    let one = sizes_between(w, value_of(m, env, id), i, (i + 1) as i64);
    if has_type(m, id, "0.t_i64"@) {
        one
    } else {
        w.cast(one, INT64 as int)
    }
}

broadcast proof fn lemma_run_padding<V>(
    w: World<V>,
    env: Values<V>,
    m: Meta,
    g: Graph,
    id: i64,
    input: i64,
    pads: Seq<char>,
    label: Seq<char>,
    start: i64,
)
    requires
        w.any_opset(),
        #[trigger] runs(w, env, padding_taken(m, g, id, input, pads, label, start).0),
    ensures
        runs(w, env, g),
        padding_taken(m, g, id, input, pads, label, start).1 is Ok && pads == tensor_name(
            m,
            input,
        )->Ok_0 ==> env(padding_taken(m, g, id, input, pads, label, start).1->Ok_0) == padding_at(
            w,
            m,
            env,
            input,
            start,
        ),
{
    broadcast use group_runs;

    reveal(padding_taken);
}

/// `pad3d` surrounds the last three axes, or with the channels last the three before those, by the
/// paddings of its second input, which come innermost axis first.
pub proof fn law_pad3d<V>(w: World<V>, env: Values<V>, m: Meta, g: Graph, op: JsonView)
    requires
        ran(w, env, pad3d_lowered(m, g, op)),
    ensures
        ({
            let p = input_ids(op)[1];
            let none = w.vector(seq![0i64, 0i64]);
            let at = |i: i64| padding_at(w, m, env, p, i);
            let last = attr_chars_of(op, "data_format"@) == Some("NDHWC"@);
            let before = if last {
                seq![none, at(2), at(0), at(4)]
            } else {
                seq![none, at(4), at(2), at(0)]
            };
            let behind = if last {
                seq![none, at(3), at(1), at(5)]
            } else {
                seq![none, at(5), at(3), at(1)]
            };
            let sizes = w.concat(seq![w.concat(before, 0), w.concat(behind, 0)], 0);
            let mode = attr_chars_of(op, "mode"@);
            let plain = mode != Some("reflect"@) && mode != Some("replicate"@);
            let x = input_of(m, env, op, 0);
            output_of(m, env, op) == (w.apply)(
                "Pad"@,
                match attr_number_of(op, "pad_value"@) {
                    Some(v) => if plain && !zero(v) {
                        seq![x, sizes, w.singles(Seq::empty(), seq![narrow(v)])]
                    } else {
                        seq![x, sizes]
                    },
                    None => seq![x, sizes],
                },
                mode_told(mode),
                0,
            )
        }),
{
    broadcast use {group_runs, lemma_run_padding};

    lemma_modes();
    reveal_strlit("NCDHW");
    reveal_strlit("NDHWC");
    assert("NCDHW"@[1] != "NDHWC"@[1]);
    let ins = input_ids(op);
    let id = out_id(op)->Ok_0;
    let p = ins[1];
    let pads = tensor_name(m, p)->Ok_0;
    let none = tagged("pad3d_zero_prefix_"@, id);
    let start = crate::converter::emit::vector_added(g, none, seq![0i64, 0i64]);
    let (h, r) = all_paddings(m, start, id, p, pads);
    let (ww, hh, dd) = r->Ok_0;
    let last = attr_chars_of(op, "data_format"@) == Some("NDHWC"@);
    let padded = volume_pads(h, id, last, ww, hh, dd);
    let starts = tagged("pad3d_starts_"@, id);
    let ends = tagged("pad3d_ends_"@, id);
    let sizes = tagged("pad3d_pads_"@, id);
    let mode = attr_chars_of(op, "mode"@);
    let input = tensor_name(m, ins[0])->Ok_0;
    let output = tensor_name(m, id)->Ok_0;
    let node = with_mode(node_of("Pad"@, seq![input, sizes], seq![output]), padding_mode(mode));
    let plain = mode != Some("reflect"@) && mode != Some("replicate"@);
    let valued = attr_number_of(op, "pad_value"@) is Some && plain && !zero(
        attr_number_of(op, "pad_value"@)->0,
    );
    let n = if valued {
        node.with_input(tagged("pad3d_value_"@, id))
    } else {
        node
    };
    assert(computes(w, env, n));
    assert(runs(w, env, padded));
    assert(runs(w, env, h));
    let first = if last {
        seq![none, hh.0, ww.0, dd.0]
    } else {
        seq![none, dd.0, hh.0, ww.0]
    };
    let second = if last {
        seq![none, hh.1, ww.1, dd.1]
    } else {
        seq![none, dd.1, hh.1, ww.1]
    };
    let at = |i: i64| padding_at(w, m, env, p, i);
    assert(env(ww.0) == at(0) && env(ww.1) == at(1));
    assert(env(hh.0) == at(2) && env(hh.1) == at(3));
    assert(env(dd.0) == at(4) && env(dd.1) == at(5));
    if last {
        assert(seen(env, first) =~= seq![env(none), at(2), at(0), at(4)]);
        assert(seen(env, second) =~= seq![env(none), at(3), at(1), at(5)]);
    } else {
        assert(seen(env, first) =~= seq![env(none), at(4), at(2), at(0)]);
        assert(seen(env, second) =~= seq![env(none), at(5), at(3), at(1)]);
    }
    assert(seen(env, seq![starts, ends]) =~= seq![env(starts), env(ends)]);
    assert(n.output[0] == output);
    lemma_node_output(w, env, n);
    assert(n.attribute =~= mode_told(mode));
    if valued {
        assert(seen(env, n.input) =~= seq![
            env(input),
            env(sizes),
            env(tagged("pad3d_value_"@, id)),
        ]);
    } else {
        assert(seen(env, n.input) =~= seq![env(input), env(sizes)]);
    }
}

} // verus!
