//! What the nodes that stand for resizing compute, and which operator a reduction is by.

use crate::converter::dispatch::{flat_lowered, Handler};
use crate::converter::ops::common::{const_ints, has_shape, shape_or_empty};
use crate::converter::ops::resize::{
    input_left_out, resize_ended, resize_lowered, resize_node, scale_of, sizes_joined,
    spatial_parts,
};
use crate::converter::state::{tensor_name, Meta};
use crate::dtype::FLOAT;
use crate::helper::{attr_bool_of, attr_int_of, attr_items_of, input_ids, or_default, out_id};
use crate::json::JsonView;
use crate::laws::meaning::{
    computes, group_runs, input_of, lemma_node_output, output_of, ran, runs, scalar_kept, seen,
    value_of, whole, Values, World,
};
use crate::laws::reducing::{has_second, law_reduction, unless_false};
use crate::onnx::{str_attribute, tensor_of, Attribute, Graph};
use crate::text::tagged;
use vstd::prelude::*;

verus! {

// ---- Reductions by name ----

/// What a reduction by an operator is.
pub open spec fn reduced<V>(w: World<V>, m: Meta, env: Values<V>, op: JsonView, by: Seq<char>) -> V {
    let x = input_of(m, env, op, 0);
    let keep = unless_false(op, "keepdim"@);
    if has_shape(m, input_ids(op)[0], Seq::empty()) {
        scalar_kept(w, m, env, input_ids(op)[0], out_id(op)->Ok_0)
    } else if !has_second(op) {
        w.with_int(by, seq![x], "keepdims"@, keep)
    } else {
        match const_ints(m, input_ids(op)[1]) {
            Some(axes) => w.reduce(by, x, axes, keep),
            None => w.with_int(
                by,
                seq![x, whole(w, m, env, input_ids(op)[1])],
                "keepdims"@,
                keep,
            ),
        }
    }
}

/// The greatest, the least, the mean and the product are each by the reduction of that name.
pub proof fn law_reductions_by_name<V>(
    w: World<V>,
    env: Values<V>,
    m: Meta,
    g: Graph,
    handler: Handler,
    kind: Seq<char>,
    op: JsonView,
)
    requires
        w.any_opset(),
        handler == Handler::Max || handler == Handler::Min || handler == Handler::Mean || handler
            == Handler::Prod,
        flat_lowered(m, g, handler, kind, op).2 is Ok,
        runs(w, env, flat_lowered(m, g, handler, kind, op).1),
    ensures
        handler == Handler::Max ==> output_of(m, env, op) == reduced(w, m, env, op, "ReduceMax"@),
        handler == Handler::Min ==> output_of(m, env, op) == reduced(w, m, env, op, "ReduceMin"@),
        handler == Handler::Mean ==> output_of(m, env, op) == reduced(
            w,
            m,
            env,
            op,
            "ReduceMean"@,
        ),
        handler == Handler::Prod ==> output_of(m, env, op) == reduced(
            w,
            m,
            env,
            op,
            "ReduceProd"@,
        ),
{
    if handler == Handler::Max {
        law_reduction(w, env, m, g, op, "max missing inputs"@, "ReduceMax"@, "reduce_max"@);
    } else if handler == Handler::Min {
        law_reduction(w, env, m, g, op, "min missing inputs"@, "ReduceMin"@, "reduce_min"@);
    } else if handler == Handler::Mean {
        law_reduction(w, env, m, g, op, "mean missing inputs"@, "ReduceMean"@, "reduce_mean"@);
    } else {
        law_reduction(w, env, m, g, op, "prod missing inputs"@, "ReduceProd"@, "reduce_prod"@);
    }
}

// ---- Resizing ----

/// An input that is left out: none from opset 13 on, and an empty constant before.
pub open spec fn nothing<V>(w: World<V>, m: Meta, env: Values<V>) -> V {
    if m.target_opset >= 13 {
        env(Seq::empty())
    } else {
        (w.constant)(tensor_of(Seq::empty(), seq![0i64], FLOAT))
    }
}

broadcast proof fn lemma_run_left_out<V>(
    w: World<V>,
    env: Values<V>,
    m: Meta,
    g: Graph,
    slot: Seq<char>,
    id: i64,
)
    requires
        #[trigger] runs(w, env, input_left_out(m, g, slot, id).0),
    ensures
        runs(w, env, g),
        env(input_left_out(m, g, slot, id).1) == nothing(w, m, env),
{
    broadcast use group_runs;

    reveal(input_left_out);
}

/// The sizes to resize to: those of the first two axes stay.
pub open spec fn resized_sizes<V>(w: World<V>, x: V, spatial: V) -> V {
    w.concat(
        seq![
            w.of2("Gather"@, w.of1("Shape"@, x), w.ints(seq![2i64], seq![0i64, 1i64])),
            spatial,
        ],
        0,
    )
}

broadcast proof fn lemma_run_sizes<V>(
    w: World<V>,
    env: Values<V>,
    m: Meta,
    g: Graph,
    id: i64,
    input: i64,
    spatial: Seq<char>,
)
    requires
        #[trigger] runs(w, env, sizes_joined(m, g, id, input, spatial).0),
    ensures
        runs(w, env, g),
        sizes_joined(m, g, id, input, spatial).1 is Ok ==> env(
            sizes_joined(m, g, id, input, spatial).1->Ok_0,
        ) == resized_sizes(w, value_of(m, env, input), env(spatial)),
{
    broadcast use group_runs;

    reveal(sizes_joined);
    let prefix = tagged("resize_prefix_"@, id);
    assert(seen(env, seq![prefix, spatial]) =~= seq![env(prefix), env(spatial)]);
}

/// How a resizing is told: the mode, and how positions are carried over. With the corners aligned
/// it is by them; the nearest element otherwise by its plain position, rounded down; and in
/// between by the centres of the elements exactly in the mode for that.
pub open spec fn resizing_told(op: JsonView, mode: Seq<char>) -> Seq<Attribute> {
    let positions = if attr_bool_of(op, "align_corners"@) == Some(true) {
        "align_corners"@
    } else if mode != "nearest"@ && attr_int_of(op, "align_mode"@) == Some(0i64) {
        "half_pixel"@
    } else {
        "asymmetric"@
    };
    let list = seq![
        str_attribute("mode"@, mode),
        str_attribute("coordinate_transformation_mode"@, positions),
    ];
    if mode == "nearest"@ {
        list.push(str_attribute("nearest_mode"@, "floor"@))
    } else {
        list
    }
}

proof fn lemma_resized<V>(
    w: World<V>,
    env: Values<V>,
    m: Meta,
    g: Graph,
    op: JsonView,
    mode: Seq<char>,
    inputs: Seq<Seq<char>>,
    id: i64,
)
    requires
        ran(w, env, resize_ended(m, g, op, mode, inputs, id)),
    ensures
        runs(w, env, g),
        value_of(m, env, id) == (w.apply)(
            "Resize"@,
            seen(env, inputs),
            resizing_told(op, mode),
            0,
        ),
{
    broadcast use group_runs;

    let output = tensor_name(m, id)->Ok_0;
    let n = resize_node(op, mode, inputs, output);
    assert(computes(w, env, n));
    assert(n.output[0] == output);
    lemma_node_output(w, env, n);
    assert(n.attribute =~= resizing_told(op, mode));
}

/// `nearest_interp` and `bilinear_interp` to a shape whose height and width are known resize to
/// these, and keep the other sizes.
pub proof fn law_resize_to_shape<V>(
    w: World<V>,
    env: Values<V>,
    m: Meta,
    g: Graph,
    op: JsonView,
    mode: Seq<char>,
)
    requires
        ran(w, env, resize_lowered(m, g, op, mode)),
        0 < input_ids(op).len() <= 2,
        m.tensor_shapes.contains_key(out_id(op)->Ok_0),
        ({
            let dims = m.tensor_shapes[out_id(op)->Ok_0];
            dims.len() == 4 && dims[2] > 0 && dims[3] > 0
        }),
    ensures
        ({
            let x = input_of(m, env, op, 0);
            let dims = m.tensor_shapes[out_id(op)->Ok_0];
            output_of(m, env, op) == (w.apply)(
                "Resize"@,
                seq![
                    x,
                    nothing(w, m, env),
                    nothing(w, m, env),
                    resized_sizes(w, x, w.ints(seq![2i64], seq![dims[2], dims[3]])),
                ],
                resizing_told(op, mode),
                0,
            )
        }),
{
    broadcast use {group_runs, lemma_run_left_out, lemma_run_sizes};

    let ins = input_ids(op);
    let id = out_id(op)->Ok_0;
    let dims = m.tensor_shapes[id];
    let input = tensor_name(m, ins[0])->Ok_0;
    let (g1, roi) = input_left_out(m, g, "roi"@, id);
    let (g2, scales) = input_left_out(m, g1, "scales"@, id);
    let spatial = tagged("resize_static_hw_"@, id);
    let g3 = crate::converter::emit::ints_added(g2, spatial, seq![2i64], seq![dims[2], dims[3]]);
    let (g4, sizes) = sizes_joined(m, g3, id, ins[0], spatial);
    let front = seq![input].push(roi);
    let inputs = front.push(scales).push(sizes->Ok_0);
    lemma_resized(w, env, m, g4, op, mode, inputs, id);
    assert(seen(env, inputs) =~= seq![env(input), env(roi), env(scales), env(sizes->Ok_0)]);
}

/// Without a known shape they resize by factors: those of the attribute `scale`, or two, for height
/// and width, and one for the other axes.
pub proof fn law_resize_by_factors<V>(
    w: World<V>,
    env: Values<V>,
    m: Meta,
    g: Graph,
    op: JsonView,
    mode: Seq<char>,
)
    requires
        ran(w, env, resize_lowered(m, g, op, mode)),
        0 < input_ids(op).len() <= 2,
        !m.tensor_shapes.contains_key(out_id(op)->Ok_0),
    ensures
        ({
            let x = input_of(m, env, op, 0);
            let one = 0x3F80_0000u32;
            let two = 0x4000_0000u32;
            let items = or_default(attr_items_of(op, "scale"@), Seq::empty());
            let factors = if items.len() >= 2 {
                seq![one, one, scale_of(items[0]), scale_of(items[1])]
            } else {
                seq![one, one, two, two]
            };
            output_of(m, env, op) == (w.apply)(
                "Resize"@,
                seq![x, nothing(w, m, env), w.singles(seq![4i64], factors)],
                resizing_told(op, mode),
                0,
            )
        }),
{
    broadcast use {group_runs, lemma_run_left_out};

    let ins = input_ids(op);
    let id = out_id(op)->Ok_0;
    let input = tensor_name(m, ins[0])->Ok_0;
    let (g1, roi) = input_left_out(m, g, "roi"@, id);
    let name = tagged("scales_"@, id);
    let factors = crate::converter::ops::resize::scales_of(op);
    let g2 = crate::converter::emit::singles_added(g1, name, seq![4i64], factors);
    let inputs = seq![input].push(roi).push(name);
    lemma_resized(w, env, m, g2, op, mode, inputs, id);
    assert(seen(env, inputs) =~= seq![env(input), env(roi), env(name)]);
}

/// A part of a size list as a value with one axis.
pub open spec fn listed_size<V>(w: World<V>, m: Meta, env: Values<V>, id: i64) -> V {
    if shape_or_empty(m, id).len() == 0 {
        w.unsqueeze(value_of(m, env, id), seq![0i64])
    } else {
        value_of(m, env, id)
    }
}

proof fn lemma_spatial_parts<V>(
    w: World<V>,
    env: Values<V>,
    m: Meta,
    g: Graph,
    id: i64,
    parts: Seq<i64>,
    k: nat,
)
    requires
        w.any_opset(),
        spatial_parts(m, g, id, parts, k).1 is Ok,
        runs(w, env, spatial_parts(m, g, id, parts, k).0),
    ensures
        runs(w, env, g),
        seen(env, spatial_parts(m, g, id, parts, k).1->Ok_0) == Seq::new(
            k,
            |i: int| listed_size(w, m, env, parts[i]),
        ),
    decreases k,
{
    broadcast use group_runs;

    let list = spatial_parts(m, g, id, parts, k).1->Ok_0;
    let values = Seq::new(k, |i: int| listed_size(w, m, env, parts[i]));
    if k > 0 {
        lemma_spatial_parts(w, env, m, g, id, parts, (k - 1) as nat);
        let front = spatial_parts(m, g, id, parts, (k - 1) as nat).1->Ok_0;
        assert(seen(env, front).len() == front.len());
        assert forall|i: int| 0 <= i < k - 1 implies env(#[trigger] front[i]) == values[i] by {
            assert(seen(env, front)[i] == env(front[i]));
        }
        assert(list.drop_last() =~= front);
        assert(env(list.last()) == values[k - 1]);
    }
    assert(seen(env, list) =~= values);
}

/// With a list of sizes as the third input they resize to those, in order.
pub proof fn law_resize_to_list<V>(
    w: World<V>,
    env: Values<V>,
    m: Meta,
    g: Graph,
    op: JsonView,
    mode: Seq<char>,
)
    requires
        ran(w, env, resize_lowered(m, g, op, mode)),
        input_ids(op).len() > 2,
        input_ids(op)[2] != 0,
        m.combines.contains_key(input_ids(op)[2]),
        m.combines[input_ids(op)[2]].len() > 0,
    ensures
        ({
            let x = input_of(m, env, op, 0);
            let parts = m.combines[input_ids(op)[2]];
            let list = Seq::new(parts.len(), |i: int| listed_size(w, m, env, parts[i]));
            let spatial = if list.len() == 1 {
                list[0]
            } else {
                w.concat(list, 0)
            };
            output_of(m, env, op) == (w.apply)(
                "Resize"@,
                seq![x, nothing(w, m, env), nothing(w, m, env), resized_sizes(w, x, spatial)],
                resizing_told(op, mode),
                0,
            )
        }),
{
    broadcast use {group_runs, lemma_run_left_out, lemma_run_sizes};

    let ins = input_ids(op);
    let id = out_id(op)->Ok_0;
    let parts = m.combines[ins[2]];
    let input = tensor_name(m, ins[0])->Ok_0;
    let (g1, roi) = input_left_out(m, g, "roi"@, id);
    let (g2, all) = spatial_parts(m, g1, id, parts, parts.len());
    let (g3, spatial) = crate::converter::ops::update::joined(
        g2,
        all->Ok_0,
        tagged("resize_hw_"@, id),
    );
    let (g4, sizes) = sizes_joined(m, g3, id, ins[0], spatial);
    let (g5, scales) = input_left_out(m, g4, "scales"@, id);
    let inputs = seq![input].push(roi).push(scales).push(sizes->Ok_0);
    lemma_resized(w, env, m, g5, op, mode, inputs, id);
    assert(seen(env, inputs) =~= seq![env(input), env(roi), env(scales), env(sizes->Ok_0)]);
    assert(runs(w, env, g2));
    lemma_spatial_parts(w, env, m, g1, id, parts, parts.len());
    assert(seen(env, all->Ok_0).len() == (all->Ok_0).len());
    if parts.len() == 1 {
        assert(seen(env, all->Ok_0)[0] == env((all->Ok_0)[0]));
    }
}

/// `nearest_interp` takes the nearest element, and `bilinear_interp` is linear in between.
pub proof fn law_resize_modes(m: Meta, g: Graph, kind: Seq<char>, op: JsonView)
    ensures
        ({
            let near = flat_lowered(m, g, Handler::NearestInterp, kind, op);
            (near.1, near.2) == resize_lowered(m, g, op, "nearest"@)
        }),
        ({
            let between = flat_lowered(m, g, Handler::BilinearInterp, kind, op);
            (between.1, between.2) == resize_lowered(m, g, op, "linear"@)
        }),
{
}

} // verus!
