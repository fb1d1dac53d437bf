//! What the nodes that stand for a suppression over several classes select.

use crate::converter::ops::nms::{nms_lowered, nms_outputs};
use crate::converter::state::{tensor_name, Meta};
use crate::dtype::{FLOAT, INT32};
use crate::float::narrow;
use crate::helper::{attr_int_of, attr_number_of, input_ids, or_default};
use crate::json::JsonView;
use crate::laws::meaning::{
    computes, group_runs, input_of, lemma_node_output, ran, seen, value_of, Values, World,
};
use crate::onnx::{int_attribute, node_of, Graph};
use crate::text::tagged;
use vstd::prelude::*;

verus! {

/// The selections: for each of them a batch, a class and a box.
pub open spec fn selections<V>(w: World<V>, boxes: V, scores: V, op: JsonView) -> V {
    (w.apply)(
        "NonMaxSuppression"@,
        seq![
            boxes,
            scores,
            w.vector(seq![or_default(attr_int_of(op, "nms_top_k"@), 1000i64)]),
            w.singles(
                seq![1i64],
                seq![narrow(or_default(attr_number_of(op, "nms_threshold"@), 0x3FE0_0000_0000_0000))],
            ),
            w.singles(
                seq![1i64],
                seq![narrow(or_default(attr_number_of(op, "score_threshold"@), 0))],
            ),
        ],
        seq![int_attribute("center_point_box"@, 0)],
        0,
    )
}

/// How many selections are to be kept, where that is limited.
pub open spec fn limit_of(op: JsonView) -> Option<i64> {
    match attr_int_of(op, "keep_top_k"@) {
        Some(keep) => if keep > 0 {
            Some(keep)
        } else {
            None
        },
        None => None,
    }
}

/// How many selections are kept: all of them, or the limit where that is less.
pub open spec fn kept_count<V>(w: World<V>, selected: V, limit: Option<i64>) -> V {
    let count = w.of2("Gather"@, w.of1("Shape"@, selected), w.vector(seq![0i64]));
    match limit {
        Some(keep) => w.of3(
            "Where"@,
            w.of2("Less"@, count, w.vector(seq![keep])),
            count,
            w.vector(seq![keep]),
        ),
        None => w.of1("Identity"@, count),
    }
}

/// One part of each selection.
pub open spec fn part_of<V>(w: World<V>, selected: V, part: i64) -> V {
    w.squeeze(w.gather(selected, w.vector(seq![part]), 1), seq![1i64])
}

/// The scores of the selections.
pub open spec fn scores_of<V>(w: World<V>, scores: V, selected: V) -> V {
    w.of2("GatherND"@, scores, selected)
}

/// The boxes of the selections.
pub open spec fn boxes_of<V>(w: World<V>, boxes: V, selected: V) -> V {
    w.of2("GatherND"@, boxes, w.gather(selected, w.vector(seq![0i64, 2i64]), 1))
}

/// The positions of the selected boxes over all batches: those of a batch follow those of the one
/// before.
pub open spec fn positions_of<V>(w: World<V>, boxes: V, selected: V) -> V {
    let size = w.of2("Gather"@, w.of1("Shape"@, boxes), w.vector(seq![1i64]));
    w.of2("Add"@, w.of2("Mul"@, part_of(w, selected, 0), size), part_of(w, selected, 2))
}

/// What is kept of a list with an entry for each selection: with a limit, the entries of the
/// selections with the greatest scores.
pub open spec fn kept_of<V>(w: World<V>, list: V, scores: V, count: V, limit: Option<i64>) -> V {
    match limit {
        Some(_) => w.gather(list, w.topk(scores, count, -1, 1, 1), 0),
        None => w.of1("Identity"@, list),
    }
}

/// The scores that are kept: with a limit, the greatest ones.
pub open spec fn kept_scores<V>(w: World<V>, scores: V, count: V, limit: Option<i64>) -> V {
    match limit {
        Some(_) => w.of1("Identity"@, w.topk(scores, count, -1, 1, 0)),
        None => w.of1("Identity"@, scores),
    }
}

/// The order of what is kept: by class, and within a class as it stood before.
pub open spec fn class_order<V>(w: World<V>, class: V, count: V) -> V {
    let span = w.of2("Add"@, count, w.vector(seq![1i64]));
    let places = w.of3(
        "Range"@,
        w.vector(seq![0i64]),
        w.squeeze(count, seq![0i64]),
        w.vector(seq![1i64]),
    );
    let key = w.of2("Add"@, w.of2("Mul"@, class, span), places);
    w.topk(key, count, -1, 0, 1)
}

/// `multiclass_nms3` returns a row of class, score and box for each selection that is kept, the
/// positions of the boxes over all batches, and their number. With a limit the selections with the
/// greatest scores are kept. The rows stand in the order of their classes.
pub proof fn law_suppression<V>(w: World<V>, env: Values<V>, m: Meta, g: Graph, op: JsonView)
    requires
        ran(w, env, nms_lowered(m, g, op)),
    ensures
        ({
            let (boxes, scores) = (input_of(m, env, op, 0), input_of(m, env, op, 1));
            let (rows_id, index_id, count_id) = nms_outputs(op)->Ok_0;
            let limit = limit_of(op);
            let selected = selections(w, boxes, scores, op);
            let count = kept_count(w, selected, limit);
            let found = scores_of(w, scores, selected);
            let class = kept_of(w, part_of(w, selected, 1), found, count, limit);
            let order = class_order(w, class, count);
            let score = kept_scores(w, found, count, limit);
            let corners = kept_of(w, boxes_of(w, boxes, selected), found, count, limit);
            let place = kept_of(w, positions_of(w, boxes, selected), found, count, limit);
            &&& value_of(m, env, rows_id) == w.concat(
                seq![
                    w.unsqueeze(w.cast(w.gather(class, order, 0), FLOAT as int), seq![1i64]),
                    w.unsqueeze(w.gather(score, order, 0), seq![1i64]),
                    w.gather(corners, order, 0),
                ],
                1,
            )
            &&& value_of(m, env, index_id) == w.unsqueeze(
                w.cast(w.gather(place, order, 0), INT32 as int),
                seq![1i64],
            )
            &&& value_of(m, env, count_id) == w.cast(count, INT32 as int)
        }),
{
    broadcast use group_runs;

    let (id, index_id, count_id) = nms_outputs(op)->Ok_0;
    let wide_class = tagged("nms_class_expanded_"@, id);
    let wide_scores = tagged("nms_scores_expanded_"@, id);
    let corners = tagged("nms_selected_boxes_sorted_"@, id);
    let list = seq![wide_class, wide_scores, corners];
    assert(seen(env, list) =~= seq![env(wide_class), env(wide_scores), env(corners)]);
    let boxes = tensor_name(m, input_ids(op)[0])->Ok_0;
    let scores = tensor_name(m, input_ids(op)[1])->Ok_0;
    let inputs = seq![
        boxes,
        scores,
        tagged("nms_max_boxes_"@, id),
        tagged("nms_iou_threshold_"@, id),
        tagged("nms_score_threshold_"@, id),
    ];
    let n = node_of("NonMaxSuppression"@, inputs, seq![tagged("nms_selected_indices_"@, id)]).with(
        int_attribute("center_point_box"@, 0),
    );
    assert(n.output[0] == tagged("nms_selected_indices_"@, id));
    assert(computes(w, env, n));
    lemma_node_output(w, env, n);
    assert(n.attribute =~= seq![int_attribute("center_point_box"@, 0)]);
    assert(seen(env, inputs) =~= seq![
        env(boxes),
        env(scores),
        env(tagged("nms_max_boxes_"@, id)),
        env(tagged("nms_iou_threshold_"@, id)),
        env(tagged("nms_score_threshold_"@, id)),
    ]);
    assert(env(tagged("nms_selected_indices_"@, id)) == selections(w, env(boxes), env(scores), op));
}

/// Whether, on lists of numbers, `TopK` yields positions so that no number elsewhere is greater,
/// or less, than one at those, together with the numbers there, and `Gather` picks by positions.
pub open spec fn picks(w: World<Seq<int>>) -> bool {
    &&& forall|s: Seq<int>, count: Seq<int>|
        best_of(s, #[trigger] w.topk(s, count, -1, 1, 1), true)
    &&& forall|s: Seq<int>, count: Seq<int>|
        best_of(s, #[trigger] w.topk(s, count, -1, 0, 1), false)
    &&& forall|s: Seq<int>, count: Seq<int>, largest: int| #[trigger]
        w.topk(s, count, -1, largest, 0) == taken_at(s, w.topk(s, count, -1, largest, 1))
    &&& forall|s: Seq<int>, at: Seq<int>| #[trigger] w.gather(s, at, 0) == taken_at(s, at)
    &&& forall|s: Seq<int>| #[trigger] w.of1("Identity"@, s) == s
}

/// The numbers at positions.
pub open spec fn taken_at(s: Seq<int>, at: Seq<int>) -> Seq<int> {
    Seq::new(at.len(), |i: int| s[at[i]])
}

/// Whether no number elsewhere is greater than one at the positions, or none is less.
pub open spec fn best_of(s: Seq<int>, at: Seq<int>, greatest: bool) -> bool {
    &&& forall|i: int| 0 <= i < at.len() ==> 0 <= #[trigger] at[i] < s.len()
    &&& forall|i: int, j: int|
        0 <= i < at.len() && 0 <= j < s.len() && !at.contains(j) ==> if greatest {
            #[trigger] s[at[i]] >= #[trigger] s[j]
        } else {
            s[at[i]] <= s[j]
        }
}

/// With a limit, no selection that is dropped has a greater score than one that is kept, and
/// classes, boxes and positions are those of the selections that are kept.
pub proof fn law_best_selections_kept(
    w: World<Seq<int>>,
    env: Values<Seq<int>>,
    m: Meta,
    g: Graph,
    op: JsonView,
)
    requires
        picks(w),
        limit_of(op) is Some,
        ran(w, env, nms_lowered(m, g, op)),
    ensures
        ({
            let (boxes, scores) = (input_of(m, env, op, 0), input_of(m, env, op, 1));
            let (rows_id, index_id, count_id) = nms_outputs(op)->Ok_0;
            let selected = selections(w, boxes, scores, op);
            let count = kept_count(w, selected, limit_of(op));
            let found = scores_of(w, scores, selected);
            exists|at: Seq<int>|
                #![trigger best_of(found, at, true)]
                {
                    let class = taken_at(part_of(w, selected, 1), at);
                    let order = class_order(w, class, count);
                    &&& best_of(found, at, true)
                    &&& value_of(m, env, rows_id) == w.concat(
                        seq![
                            w.unsqueeze(
                                w.cast(taken_at(class, order), FLOAT as int),
                                seq![1i64],
                            ),
                            w.unsqueeze(taken_at(taken_at(found, at), order), seq![1i64]),
                            taken_at(taken_at(boxes_of(w, boxes, selected), at), order),
                        ],
                        1,
                    )
                    &&& value_of(m, env, index_id) == w.unsqueeze(
                        w.cast(
                            taken_at(taken_at(positions_of(w, boxes, selected), at), order),
                            INT32 as int,
                        ),
                        seq![1i64],
                    )
                }
        }),
{
    law_suppression(w, env, m, g, op);
    let (boxes, scores) = (input_of(m, env, op, 0), input_of(m, env, op, 1));
    let selected = selections(w, boxes, scores, op);
    let count = kept_count(w, selected, limit_of(op));
    let found = scores_of(w, scores, selected);
    let at = w.topk(found, count, -1, 1, 1);
    assert(best_of(found, at, true));
}

} // verus!
