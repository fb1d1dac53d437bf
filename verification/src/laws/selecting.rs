//! What the nodes that stand for operators that select elements, and for some others, compute.

use crate::converter::ops::array::known_dtype;
use crate::converter::ops::common::{first_const, names_upto};
use crate::converter::ops::indexing::{
    embedding_lowered, eye_lowered, finished_along, gather_lowered, gather_nd_lowered,
    index_select_lowered, not_equal_lowered, take_along_axis_lowered,
};
use crate::converter::ops::math::{grid_sample_lowered, multinomial_lowered, trilu_lowered};
use crate::converter::state::{tensor_name, Meta};
use crate::dtype::FLOAT;
use crate::float::to_i64;
use crate::helper::{attr_bool_of, attr_chars_of, attr_int_of, input_ids, or_default, out_id};
use crate::json::JsonView;
use crate::laws::meaning::{
    computes, group_runs, input_of, lemma_int_node, lemma_names, lemma_node_output, output_of, ran,
    runs, seen, value_of, whole_scalar, Values, World,
};
use crate::onnx::{int_attribute, node_of, str_attribute, Graph};
use crate::text::tagged;
use vstd::prelude::*;

verus! {

proof fn lemma_along<V>(
    w: World<V>,
    env: Values<V>,
    m: Meta,
    g: Graph,
    op: Seq<char>,
    inputs: Seq<Seq<char>>,
    id: i64,
    axis: i64,
)
    requires
        ran(w, env, finished_along(m, g, op, inputs, id, axis)),
    ensures
        runs(w, env, g),
        value_of(m, env, id) == w.with_int(op, seen(env, inputs), "axis"@, axis as int),
{
    broadcast use group_runs;

    lemma_int_node(w, env, op, inputs, tensor_name(m, id)->Ok_0, "axis"@, axis);
}

/// The values of the first two inputs.
pub open spec fn first_two<V>(m: Meta, env: Values<V>, op: JsonView) -> Seq<V> {
    seq![input_of(m, env, op, 0), input_of(m, env, op, 1)]
}

proof fn lemma_first_two<V>(m: Meta, env: Values<V>, op: JsonView)
    requires
        names_upto(m, input_ids(op), 2) is Ok,
    ensures
        seen(env, names_upto(m, input_ids(op), 2)->Ok_0) == first_two(m, env, op),
{
    lemma_names(m, input_ids(op), 2);
    assert(seen(env, names_upto(m, input_ids(op), 2)->Ok_0) =~= first_two(m, env, op));
}

/// `gather` selects by the second input from the first, along the axis that a constant third input
/// gives, or else along the first.
pub proof fn law_gather<V>(w: World<V>, env: Values<V>, m: Meta, g: Graph, op: JsonView)
    requires
        ran(w, env, gather_lowered(m, g, op)),
    ensures
        output_of(m, env, op) == w.gather(
            input_of(m, env, op, 0),
            input_of(m, env, op, 1),
            if input_ids(op).len() > 2 {
                to_i64(first_const(m, input_ids(op)[2])->0) as int
            } else {
                0
            },
        ),
{
    let ins = input_ids(op);
    let axis = if ins.len() > 2 {
        to_i64(first_const(m, ins[2])->0)
    } else {
        0
    };
    lemma_first_two(m, env, op);
    lemma_along(
        w,
        env,
        m,
        g,
        "Gather"@,
        names_upto(m, ins, 2)->Ok_0,
        out_id(op)->Ok_0,
        axis,
    );
}

/// `gather_nd` selects by the second input from the first.
pub proof fn law_gather_nd<V>(w: World<V>, env: Values<V>, m: Meta, g: Graph, op: JsonView)
    requires
        ran(w, env, gather_nd_lowered(m, g, op)),
    ensures
        output_of(m, env, op) == w.of2("GatherND"@, input_of(m, env, op, 0), input_of(m, env, op, 1)),
{
    broadcast use group_runs;

    lemma_names(m, input_ids(op), 2);
}

/// `index_select` selects by the second input from the first, along its axis.
pub proof fn law_index_select<V>(w: World<V>, env: Values<V>, m: Meta, g: Graph, op: JsonView)
    requires
        ran(w, env, index_select_lowered(m, g, op)),
    ensures
        output_of(m, env, op) == w.gather(
            input_of(m, env, op, 0),
            input_of(m, env, op, 1),
            or_default(attr_int_of(op, "axis"@), 0) as int,
        ),
{
    lemma_first_two(m, env, op);
    lemma_along(
        w,
        env,
        m,
        g,
        "Gather"@,
        names_upto(m, input_ids(op), 2)->Ok_0,
        out_id(op)->Ok_0,
        or_default(attr_int_of(op, "axis"@), 0),
    );
}

/// `take_along_axis` selects element by element along its axis.
pub proof fn law_take_along_axis<V>(w: World<V>, env: Values<V>, m: Meta, g: Graph, op: JsonView)
    requires
        ran(w, env, take_along_axis_lowered(m, g, op)),
    ensures
        output_of(m, env, op) == w.with_int(
            "GatherElements"@,
            first_two(m, env, op),
            "axis"@,
            or_default(attr_int_of(op, "axis"@), 0) as int,
        ),
{
    lemma_first_two(m, env, op);
    lemma_along(
        w,
        env,
        m,
        g,
        "GatherElements"@,
        names_upto(m, input_ids(op), 2)->Ok_0,
        out_id(op)->Ok_0,
        or_default(attr_int_of(op, "axis"@), 0),
    );
}

/// `embedding` looks rows of the table, its second input, up by the first.
pub proof fn law_embedding<V>(w: World<V>, env: Values<V>, m: Meta, g: Graph, op: JsonView)
    requires
        ran(w, env, embedding_lowered(m, g, op)),
    ensures
        output_of(m, env, op) == w.gather(input_of(m, env, op, 1), input_of(m, env, op, 0), 0),
{
    let ins = input_ids(op);
    let inputs = seq![tensor_name(m, ins[1])->Ok_0, tensor_name(m, ins[0])->Ok_0];
    lemma_along(w, env, m, g, "Gather"@, inputs, out_id(op)->Ok_0, 0);
    assert(seen(env, inputs) =~= seq![input_of(m, env, op, 1), input_of(m, env, op, 0)]);
}

/// `eye` compares the numbers of the rows, along a column, with those of the columns, along a row.
pub proof fn law_eye<V>(w: World<V>, env: Values<V>, m: Meta, g: Graph, op: JsonView)
    requires
        ran(w, env, eye_lowered(m, g, op)),
    ensures
        ({
            let zero = w.ints(Seq::empty(), seq![0i64]);
            let one = w.ints(Seq::empty(), seq![1i64]);
            let rows = w.of3("Range"@, zero, whole_scalar(w, m, env, input_ids(op)[0]), one);
            let columns = w.of3("Range"@, zero, whole_scalar(w, m, env, input_ids(op)[1]), one);
            output_of(m, env, op) == w.cast(
                w.of2("Equal"@, w.unsqueeze(rows, seq![1i64]), w.unsqueeze(columns, seq![0i64])),
                or_default(known_dtype(op), FLOAT) as int,
            )
        }),
{
    broadcast use group_runs;

}

/// `not_equal` is true where equality is not.
pub proof fn law_not_equal<V>(w: World<V>, env: Values<V>, m: Meta, g: Graph, op: JsonView)
    requires
        ran(w, env, not_equal_lowered(m, g, op)),
    ensures
        output_of(m, env, op) == w.of1(
            "Not"@,
            w.of2("Equal"@, input_of(m, env, op, 0), input_of(m, env, op, 1)),
        ),
{
    broadcast use group_runs;

    lemma_names(m, input_ids(op), 2);
}

/// `tril` and `triu` keep the triangle on their side of the diagonal that is asked for.
pub proof fn law_triangle<V>(
    w: World<V>,
    env: Values<V>,
    m: Meta,
    g: Graph,
    op: JsonView,
    upper: bool,
)
    requires
        ran(w, env, trilu_lowered(m, g, op, upper)),
    ensures
        output_of(m, env, op) == w.with_int(
            "Trilu"@,
            seq![
                input_of(m, env, op, 0),
                w.vector(seq![or_default(attr_int_of(op, "diagonal"@), 0)]),
            ],
            "upper"@,
            if upper {
                1
            } else {
                0
            },
        ),
{
    broadcast use group_runs;

    let id = out_id(op)->Ok_0;
    let inputs = seq![tensor_name(m, input_ids(op)[0])->Ok_0, tagged("trilu_k_"@, id)];
    let side: i64 = if upper {
        1
    } else {
        0
    };
    lemma_int_node(w, env, "Trilu"@, inputs, tensor_name(m, id)->Ok_0, "upper"@, side);
    assert(seen(env, inputs) =~= seq![
        input_of(m, env, op, 0),
        w.vector(seq![or_default(attr_int_of(op, "diagonal"@), 0)]),
    ]);
}

/// `grid_sample` samples the first input at the positions of the second, in the mode that is asked
/// for under the name that the opset has for it.
pub proof fn law_grid_sample<V>(w: World<V>, env: Values<V>, m: Meta, g: Graph, op: JsonView)
    requires
        ran(w, env, grid_sample_lowered(m, g, op)),
    ensures
        ({
            let mode = match attr_chars_of(op, "mode"@) {
                Some(mode) => seq![
                    str_attribute(
                        "mode"@,
                        if m.target_opset >= 20 && mode == "bilinear"@ {
                            "linear"@
                        } else if m.target_opset >= 20 && mode == "bicubic"@ {
                            "cubic"@
                        } else {
                            mode
                        },
                    ),
                ],
                None => Seq::empty(),
            };
            let padding = match attr_chars_of(op, "padding_mode"@) {
                Some(mode) => seq![str_attribute("padding_mode"@, mode)],
                None => Seq::empty(),
            };
            let corners = int_attribute(
                "align_corners"@,
                if attr_bool_of(op, "align_corners"@) == Some(true) {
                    1
                } else {
                    0
                },
            );
            output_of(m, env, op) == (w.apply)(
                "GridSample"@,
                first_two(m, env, op),
                (mode + padding).push(corners),
                0,
            )
        }),
{
    broadcast use group_runs;

    lemma_first_two(m, env, op);
    let id = out_id(op)->Ok_0;
    let inputs = names_upto(m, input_ids(op), 2)->Ok_0;
    let node = node_of("GridSample"@, inputs, seq![tensor_name(m, id)->Ok_0]);
    let node = match attr_chars_of(op, "mode"@) {
        Some(mode) => node.with(
            str_attribute(
                "mode"@,
                crate::converter::ops::math::sample_mode(mode, m.target_opset),
            ),
        ),
        None => node,
    };
    let first = node.attribute;
    let node = match attr_chars_of(op, "padding_mode"@) {
        Some(mode) => node.with(str_attribute("padding_mode"@, mode)),
        None => node,
    };
    let corners: i64 = if attr_bool_of(op, "align_corners"@) == Some(true) {
        1
    } else {
        0
    };
    let n = node.with(int_attribute("align_corners"@, corners));
    assert(grid_sample_lowered(m, g, op).0 == g.with_node(n));
    assert(n.output[0] == tensor_name(m, id)->Ok_0);
    lemma_node_output(w, env, n);
    let mode = match attr_chars_of(op, "mode"@) {
        Some(mode) => seq![
            str_attribute(
                "mode"@,
                if m.target_opset >= 20 && mode == "bilinear"@ {
                    "linear"@
                } else if m.target_opset >= 20 && mode == "bicubic"@ {
                    "cubic"@
                } else {
                    mode
                },
            ),
        ],
        None => Seq::empty(),
    };
    let padding = match attr_chars_of(op, "padding_mode"@) {
        Some(mode) => seq![str_attribute("padding_mode"@, mode)],
        None => Seq::empty(),
    };
    assert(first =~= mode);
    assert(node.attribute =~= mode + padding);
    assert(n.attribute =~= (mode + padding).push(int_attribute("align_corners"@, corners)));
}

/// `multinomial` becomes the position of the greatest probability, repeated as often as samples
/// are asked for.
pub proof fn law_multinomial<V>(w: World<V>, env: Values<V>, m: Meta, g: Graph, op: JsonView)
    requires
        w.any_opset(),
        multinomial_lowered(m, g, op).2 is Ok,
        runs(w, env, multinomial_lowered(m, g, op).1),
    ensures
        ({
            let best = (w.apply)(
                "ArgMax"@,
                seq![input_of(m, env, op, 0)],
                seq![
                    int_attribute("axis"@, (-1) as i64),
                    int_attribute("keepdims"@, 1),
                    int_attribute("select_last_index"@, 0),
                ],
                0,
            );
            let count = to_i64(first_const(m, input_ids(op)[1])->0);
            output_of(m, env, op) == if count > 1 {
                w.of2("Tile"@, best, w.vector(seq![1i64, count]))
            } else {
                best
            }
        }),
{
    broadcast use group_runs;

    let ins = input_ids(op);
    let id = out_id(op)->Ok_0;
    let count = to_i64(first_const(m, ins[1])->0);
    let from = tensor_name(m, ins[0])->Ok_0;
    let best = if count == 1 {
        tensor_name(m, id)->Ok_0
    } else {
        tagged("multinomial_argmax_"@, id)
    };
    let n = node_of("ArgMax"@, seq![from], seq![best]).with(
        int_attribute("axis"@, (-1) as i64),
    ).with(int_attribute("keepdims"@, 1)).with(int_attribute("select_last_index"@, 0));
    assert(n.output[0] == best);
    assert(computes(w, env, n));
    lemma_node_output(w, env, n);
    assert(seen(env, n.input) =~= seq![env(from)]);
    assert(n.attribute =~= seq![
        int_attribute("axis"@, (-1) as i64),
        int_attribute("keepdims"@, 1),
        int_attribute("select_last_index"@, 0),
    ]);
}

} // verus!
