//! Non-maximum suppression over several classes.

use crate::converter::emit::{
    binary_added, cast_added, concat_added, done, failed, gather_added, singles_added,
    squeeze_added, ternary_added, topk_added, unary_added, unsqueeze_added, vector_added, Step,
};
use crate::converter::state::{opset_checked, tensor_name, Converter, Meta};
use crate::dtype::{FLOAT, INT32};
use crate::error::{message, outcome, Error, ErrorView};
use crate::float::{is_nan, nan, narrow, to_single, ONE, ZERO};
use crate::helper::{
    attr_i64_or, attr_int_of, attr_number_of, attr_number_or, input_ids, op_input_ids, or_default,
};
use crate::json::{Json, JsonView};
use crate::onnx::{attr_int, int_attribute, node_of, Graph, NodeProto};
use crate::text::{ints1, ints2, list1, list3, list5, singles1, tag, tagged};
use vstd::prelude::*;

verus! {

/// `0.5` in `binary64`.
pub const HALF: u64 = 0x3FE0_0000_0000_0000;

/// The three outputs of the operator.
pub open spec fn nms_outputs(op: JsonView) -> Result<(i64, i64, i64), ErrorView> {
    match op.field_items("O"@) {
        None => Err(message("multiclass_nms3 missing outputs"@)),
        Some(outs) => if outs.len() < 3 {
            Err(message("multiclass_nms3 expects three outputs"@))
        } else {
            match (
                outs[0].field_int("%"@),
                outs[1].field_int("%"@),
                outs[2].field_int("%"@),
            ) {
                (None, _, _) => Err(message("multiclass_nms3 missing output id"@)),
                (_, None, _) => Err(message("multiclass_nms3 missing index output id"@)),
                (_, _, None) => Err(message("multiclass_nms3 missing rois_num output id"@)),
                (Some(a), Some(b), Some(c)) => Ok((a, b, c)),
            }
        },
    }
}

/// Whether a value differs from one by no more than `2^-52`, or is a NaN.
pub open spec fn about_one(b: u64) -> bool {
    nan(b) || 0x3FEF_FFFF_FFFF_FFFE <= b <= 0x3FF0_0000_0000_0001
}

/// The first part of the lowering: the suppression itself, and how many boxes it selects.
pub open spec fn nms_selected(m: Meta, g: Graph, op: JsonView, boxes: Seq<char>, scores: Seq<char>, id: i64) -> Graph {
    let selected = tagged("nms_selected_indices_"@, id);
    let g = g.with_node(
        node_of(
            "NonMaxSuppression"@,
            seq![
                boxes,
                scores,
                tagged("nms_max_boxes_"@, id),
                tagged("nms_iou_threshold_"@, id),
                tagged("nms_score_threshold_"@, id),
            ],
            seq![selected],
        ).with(int_attribute("center_point_box"@, 0)),
    );
    let shape = tagged("nms_selected_shape_"@, id);
    let g = unary_added(g, "Shape"@, selected, shape);
    let at = tagged("nms_selected_count_index_"@, id);
    let g = vector_added(g, at, seq![0i64]);
    binary_added(g, "Gather"@, shape, at, tagged("nms_selected_count_"@, id))
}

/// The second part: how many of the selected boxes are kept.
pub open spec fn nms_counted(m: Meta, g: Graph, keep: i64, id: i64) -> Graph {
    let count = tagged("nms_selected_count_"@, id);
    let take = tagged("nms_take_k_"@, id);
    let g = if keep > 0 {
        let limit = tagged("nms_keep_top_k_"@, id);
        let cond = tagged("nms_take_cond_"@, id);
        let g = vector_added(g, limit, seq![keep]);
        let g = binary_added(g, "Less"@, count, limit, cond);
        ternary_added(g, "Where"@, cond, count, limit, take)
    } else {
        unary_added(g, "Identity"@, count, take)
    };
    squeeze_added(
        g,
        m.target_opset,
        take,
        tagged("nms_take_k_scalar_"@, id),
        Some(seq![0i64]),
        Some(tagged("nms_take_k_axes_"@, id)),
    )
}

/// The third part: batch, class and box of each selection.
pub open spec fn nms_indexed(m: Meta, g: Graph, id: i64) -> Graph {
    let selected = tagged("nms_selected_indices_"@, id);
    let batch_at = tagged("nms_gather_batch_index_"@, id);
    let class_at = tagged("nms_gather_class_index_"@, id);
    let box_at = tagged("nms_gather_box_index_"@, id);
    let both_at = tagged("nms_gather_batch_box_index_"@, id);
    let g = vector_added(g, batch_at, seq![0i64]);
    let g = vector_added(g, class_at, seq![1i64]);
    let g = vector_added(g, box_at, seq![2i64]);
    let g = vector_added(g, both_at, seq![0i64, 2i64]);
    let g = gather_added(g, selected, batch_at, tagged("nms_batch_indices_"@, id), 1);
    let g = gather_added(g, selected, class_at, tagged("nms_class_indices_"@, id), 1);
    let g = gather_added(g, selected, box_at, tagged("nms_box_indices_"@, id), 1);
    let g = gather_added(g, selected, both_at, tagged("nms_batch_box_indices_"@, id), 1);
    let g = squeeze_added(
        g,
        m.target_opset,
        tagged("nms_batch_indices_"@, id),
        tagged("nms_batch_indices_scalar_"@, id),
        Some(seq![1i64]),
        Some(tagged("nms_batch_indices_axes_"@, id)),
    );
    let g = squeeze_added(
        g,
        m.target_opset,
        tagged("nms_class_indices_"@, id),
        tagged("nms_class_indices_scalar_"@, id),
        Some(seq![1i64]),
        Some(tagged("nms_class_indices_axes_"@, id)),
    );
    squeeze_added(
        g,
        m.target_opset,
        tagged("nms_box_indices_"@, id),
        tagged("nms_box_indices_scalar_"@, id),
        Some(seq![1i64]),
        Some(tagged("nms_box_indices_axes_"@, id)),
    )
}

/// The fourth part: scores and coordinates of the selections, and their positions over all
/// batches.
pub open spec fn nms_looked_up(g: Graph, boxes: Seq<char>, scores: Seq<char>, id: i64) -> Graph {
    let g = binary_added(
        g,
        "GatherND"@,
        scores,
        tagged("nms_selected_indices_"@, id),
        tagged("nms_selected_scores_"@, id),
    );
    let g = binary_added(
        g,
        "GatherND"@,
        boxes,
        tagged("nms_batch_box_indices_"@, id),
        tagged("nms_selected_boxes_"@, id),
    );
    let shape = tagged("nms_boxes_shape_"@, id);
    let g = unary_added(g, "Shape"@, boxes, shape);
    let at = tagged("nms_num_boxes_index_"@, id);
    let g = vector_added(g, at, seq![1i64]);
    let count = tagged("nms_num_boxes_"@, id);
    let g = binary_added(g, "Gather"@, shape, at, count);
    let scaled = tagged("nms_absolute_index_scaled_"@, id);
    let g = binary_added(g, "Mul"@, tagged("nms_batch_indices_scalar_"@, id), count, scaled);
    binary_added(
        g,
        "Add"@,
        scaled,
        tagged("nms_box_indices_scalar_"@, id),
        tagged("nms_absolute_index_"@, id),
    )
}

/// The fifth part: the best selections, if their number is limited.
pub open spec fn nms_limited(g: Graph, keep: i64, id: i64) -> Graph {
    let scores = tagged("nms_selected_scores_"@, id);
    let class = tagged("nms_class_indices_scalar_"@, id);
    let index = tagged("nms_absolute_index_"@, id);
    let boxes = tagged("nms_selected_boxes_"@, id);
    let limited_scores = tagged("nms_limited_scores_"@, id);
    let limited_class = tagged("nms_limited_class_"@, id);
    let limited_index = tagged("nms_limited_index_"@, id);
    let limited_boxes = tagged("nms_limited_boxes_"@, id);
    if keep > 0 {
        let best = tagged("nms_topk_scores_"@, id);
        let at = tagged("nms_topk_indices_"@, id);
        let g = topk_added(g, scores, tagged("nms_take_k_"@, id), best, at, -1i64, 1, 1);
        let g = unary_added(g, "Identity"@, best, limited_scores);
        let g = gather_added(g, class, at, limited_class, 0);
        let g = gather_added(g, index, at, limited_index, 0);
        gather_added(g, boxes, at, limited_boxes, 0)
    } else {
        let g = unary_added(g, "Identity"@, scores, limited_scores);
        let g = unary_added(g, "Identity"@, class, limited_class);
        let g = unary_added(g, "Identity"@, index, limited_index);
        unary_added(g, "Identity"@, boxes, limited_boxes)
    }
}

/// The sixth part: the selections in the order of their classes, and within a class as they were.
pub open spec fn nms_sorted(g: Graph, id: i64) -> Graph {
    let start = tagged("nms_sort_positions_start_"@, id);
    let delta = tagged("nms_sort_positions_delta_"@, id);
    let positions = tagged("nms_sort_positions_"@, id);
    let g = vector_added(g, start, seq![0i64]);
    let g = vector_added(g, delta, seq![1i64]);
    let g = ternary_added(
        g,
        "Range"@,
        start,
        tagged("nms_take_k_scalar_"@, id),
        delta,
        positions,
    );
    let one = tagged("nms_sort_scale_one_"@, id);
    let scale = tagged("nms_sort_scale_"@, id);
    let g = vector_added(g, one, seq![1i64]);
    let g = binary_added(g, "Add"@, tagged("nms_take_k_"@, id), one, scale);
    let scaled = tagged("nms_class_sort_key_scaled_"@, id);
    let key = tagged("nms_class_sort_key_"@, id);
    let g = binary_added(g, "Mul"@, tagged("nms_limited_class_"@, id), scale, scaled);
    let g = binary_added(g, "Add"@, scaled, positions, key);
    let at = tagged("nms_class_sort_indices_"@, id);
    let g = topk_added(
        g,
        key,
        tagged("nms_take_k_"@, id),
        tagged("nms_class_sort_values_"@, id),
        at,
        -1i64,
        0,
        1,
    );
    let g = gather_added(
        g,
        tagged("nms_limited_class_"@, id),
        at,
        tagged("nms_selected_class_"@, id),
        0,
    );
    let g = gather_added(
        g,
        tagged("nms_limited_index_"@, id),
        at,
        tagged("nms_selected_index_"@, id),
        0,
    );
    let g = gather_added(
        g,
        tagged("nms_limited_boxes_"@, id),
        at,
        tagged("nms_selected_boxes_sorted_"@, id),
        0,
    );
    gather_added(
        g,
        tagged("nms_limited_scores_"@, id),
        at,
        tagged("nms_selected_scores_sorted_"@, id),
        0,
    )
}

/// The last part: rows of class, score and box, their positions, and their number.
pub open spec fn nms_returned(m: Meta, g: Graph, id: i64, index_id: i64, count_id: i64) -> Step {
    let class = tagged("nms_selected_class_float_"@, id);
    let g = cast_added(g, tagged("nms_selected_class_"@, id), class, FLOAT);
    let wide_class = tagged("nms_class_expanded_"@, id);
    let g = unsqueeze_added(
        g,
        m.target_opset,
        class,
        wide_class,
        seq![1i64],
        tagged("nms_class_expand_axes_"@, id),
    );
    let wide_scores = tagged("nms_scores_expanded_"@, id);
    let g = unsqueeze_added(
        g,
        m.target_opset,
        tagged("nms_selected_scores_sorted_"@, id),
        wide_scores,
        seq![1i64],
        tagged("nms_scores_expand_axes_"@, id),
    );
    match tensor_name(m, id) {
        Err(e) => failed(g, e),
        Ok(rows) => {
            let g = concat_added(
                g,
                seq![wide_class, wide_scores, tagged("nms_selected_boxes_sorted_"@, id)],
                rows,
                1,
            );
            let narrow_index = tagged("nms_selected_index_i32_"@, id);
            let g = cast_added(g, tagged("nms_selected_index_"@, id), narrow_index, INT32);
            match tensor_name(m, index_id) {
                Err(e) => failed(g, e),
                Ok(index) => {
                    let g = unsqueeze_added(
                        g,
                        m.target_opset,
                        narrow_index,
                        index,
                        seq![1i64],
                        tagged("nms_selected_index_axes_"@, id),
                    );
                    match tensor_name(m, count_id) {
                        Err(e) => failed(g, e),
                        Ok(count) => done(
                            cast_added(g, tagged("nms_take_k_"@, id), count, INT32),
                        ),
                    }
                },
            }
        },
    }
}

/// The lowering of `multiclass_nms3`.
pub open spec fn nms_lowered(m: Meta, g: Graph, op: JsonView) -> Step {
    let ins = input_ids(op);
    match opset_checked(m, 11, "multiclass_nms3"@) {
        Err(e) => failed(g, e),
        Ok(_) => if ins.len() < 2 {
            failed(g, message("multiclass_nms3 missing inputs"@))
        } else {
            match nms_outputs(op) {
                Err(e) => failed(g, e),
                Ok((id, index_id, count_id)) => {
                    let keep = or_default(attr_int_of(op, "keep_top_k"@), -1i64);
                    let score = or_default(attr_number_of(op, "score_threshold"@), ZERO);
                    let iou = or_default(attr_number_of(op, "nms_threshold"@), HALF);
                    if or_default(attr_int_of(op, "background_label"@), -1i64) != -1 {
                        failed(
                            g,
                            message(
                                "multiclass_nms3 currently only supports background_label=-1"@,
                            ),
                        )
                    } else if !about_one(or_default(attr_number_of(op, "nms_eta"@), ONE)) {
                        failed(
                            g,
                            message("multiclass_nms3 currently only supports nms_eta=1.0"@),
                        )
                    } else {
                        let g = vector_added(
                            g,
                            tagged("nms_max_boxes_"@, id),
                            seq![or_default(attr_int_of(op, "nms_top_k"@), 1000i64)],
                        );
                        let g = singles_added(
                            g,
                            tagged("nms_iou_threshold_"@, id),
                            seq![1i64],
                            seq![narrow(iou)],
                        );
                        let g = singles_added(
                            g,
                            tagged("nms_score_threshold_"@, id),
                            seq![1i64],
                            seq![narrow(score)],
                        );
                        match (tensor_name(m, ins[0]), tensor_name(m, ins[1])) {
                            (Err(e), _) => failed(g, e),
                            (_, Err(e)) => failed(g, e),
                            (Ok(boxes), Ok(scores)) => {
                                let g = nms_selected(m, g, op, boxes, scores, id);
                                let g = nms_counted(m, g, keep, id);
                                let g = nms_indexed(m, g, id);
                                let g = nms_looked_up(g, boxes, scores, id);
                                let g = nms_limited(g, keep, id);
                                let g = nms_sorted(g, id);
                                nms_returned(m, g, id, index_id, count_id)
                            },
                        }
                    }
                },
            }
        },
    }
}

fn read_outputs(op: &Json) -> (r: Result<(i64, i64, i64), Error>)
    ensures
        match r {
            Ok(ids) => nms_outputs(op@) == Ok::<(i64, i64, i64), ErrorView>(ids),
            Err(e) => nms_outputs(op@) == Err::<(i64, i64, i64), ErrorView>(e@),
        },
{
    let outs = match op.get_array("O") {
        Some(outs) => outs,
        None => {
            return Err(Error::text("multiclass_nms3 missing outputs"));
        },
    };
    if outs.len() < 3 {
        return Err(Error::text("multiclass_nms3 expects three outputs"));
    }
    match outs[0].get_i64("%") {
        None => Err(Error::text("multiclass_nms3 missing output id")),
        Some(a) => match outs[1].get_i64("%") {
            None => Err(Error::text("multiclass_nms3 missing index output id")),
            Some(b) => match outs[2].get_i64("%") {
                None => Err(Error::text("multiclass_nms3 missing rois_num output id")),
                Some(c) => Ok((a, b, c)),
            },
        },
    }
}

impl Converter {
    fn nms_select(&mut self, op: &Json, boxes: String, scores: String, id: i64)
        ensures
            final(self).meta() == old(self).meta(),
            final(self).onnx_graph@ == nms_selected(
                old(self).meta(),
                old(self).onnx_graph@,
                op@,
                boxes@,
                scores@,
                id,
            ),
    {
        self.add_node(
            NodeProto::new(
                "NonMaxSuppression",
                list5(
                    boxes,
                    scores,
                    tag("nms_max_boxes_", id),
                    tag("nms_iou_threshold_", id),
                    tag("nms_score_threshold_", id),
                ),
                list1(tag("nms_selected_indices_", id)),
            ).with(attr_int("center_point_box", 0)),
        );
        self.add_unary_node(
            "Shape",
            tag("nms_selected_indices_", id),
            tag("nms_selected_shape_", id),
        );
        self.push_vector(tag("nms_selected_count_index_", id), &ints1(0));
        self.add_binary_node(
            "Gather",
            tag("nms_selected_shape_", id),
            tag("nms_selected_count_index_", id),
            tag("nms_selected_count_", id),
        );
    }

    fn nms_count(&mut self, keep: i64, id: i64)
        ensures
            final(self).meta() == old(self).meta(),
            final(self).onnx_graph@ == nms_counted(
                old(self).meta(),
                old(self).onnx_graph@,
                keep,
                id,
            ),
    {
        if keep > 0 {
            self.push_vector(tag("nms_keep_top_k_", id), &ints1(keep));
            self.add_binary_node(
                "Less",
                tag("nms_selected_count_", id),
                tag("nms_keep_top_k_", id),
                tag("nms_take_cond_", id),
            );
            self.add_ternary_node(
                "Where",
                tag("nms_take_cond_", id),
                tag("nms_selected_count_", id),
                tag("nms_keep_top_k_", id),
                tag("nms_take_k_", id),
            );
        } else {
            self.add_unary_node(
                "Identity",
                tag("nms_selected_count_", id),
                tag("nms_take_k_", id),
            );
        }
        self.add_squeeze_node(
            tag("nms_take_k_", id),
            tag("nms_take_k_scalar_", id),
            Some(&ints1(0)),
            Some(tag("nms_take_k_axes_", id)),
        );
    }

    fn nms_index(&mut self, id: i64)
        ensures
            final(self).meta() == old(self).meta(),
            final(self).onnx_graph@ == nms_indexed(old(self).meta(), old(self).onnx_graph@, id),
    {
        self.push_vector(tag("nms_gather_batch_index_", id), &ints1(0));
        self.push_vector(tag("nms_gather_class_index_", id), &ints1(1));
        self.push_vector(tag("nms_gather_box_index_", id), &ints1(2));
        self.push_vector(tag("nms_gather_batch_box_index_", id), &ints2(0, 2));
        self.add_gather_node(
            tag("nms_selected_indices_", id),
            tag("nms_gather_batch_index_", id),
            tag("nms_batch_indices_", id),
            1,
        );
        self.add_gather_node(
            tag("nms_selected_indices_", id),
            tag("nms_gather_class_index_", id),
            tag("nms_class_indices_", id),
            1,
        );
        self.add_gather_node(
            tag("nms_selected_indices_", id),
            tag("nms_gather_box_index_", id),
            tag("nms_box_indices_", id),
            1,
        );
        self.add_gather_node(
            tag("nms_selected_indices_", id),
            tag("nms_gather_batch_box_index_", id),
            tag("nms_batch_box_indices_", id),
            1,
        );
        self.add_squeeze_node(
            tag("nms_batch_indices_", id),
            tag("nms_batch_indices_scalar_", id),
            Some(&ints1(1)),
            Some(tag("nms_batch_indices_axes_", id)),
        );
        self.add_squeeze_node(
            tag("nms_class_indices_", id),
            tag("nms_class_indices_scalar_", id),
            Some(&ints1(1)),
            Some(tag("nms_class_indices_axes_", id)),
        );
        self.add_squeeze_node(
            tag("nms_box_indices_", id),
            tag("nms_box_indices_scalar_", id),
            Some(&ints1(1)),
            Some(tag("nms_box_indices_axes_", id)),
        );
    }

    fn nms_look_up(&mut self, boxes: String, scores: String, id: i64)
        ensures
            final(self).meta() == old(self).meta(),
            final(self).onnx_graph@ == nms_looked_up(old(self).onnx_graph@, boxes@, scores@, id),
    {
        self.add_binary_node(
            "GatherND",
            scores,
            tag("nms_selected_indices_", id),
            tag("nms_selected_scores_", id),
        );
        self.add_binary_node(
            "GatherND",
            boxes.clone(),
            tag("nms_batch_box_indices_", id),
            tag("nms_selected_boxes_", id),
        );
        self.add_unary_node("Shape", boxes, tag("nms_boxes_shape_", id));
        self.push_vector(tag("nms_num_boxes_index_", id), &ints1(1));
        self.add_binary_node(
            "Gather",
            tag("nms_boxes_shape_", id),
            tag("nms_num_boxes_index_", id),
            tag("nms_num_boxes_", id),
        );
        self.add_binary_node(
            "Mul",
            tag("nms_batch_indices_scalar_", id),
            tag("nms_num_boxes_", id),
            tag("nms_absolute_index_scaled_", id),
        );
        self.add_binary_node(
            "Add",
            tag("nms_absolute_index_scaled_", id),
            tag("nms_box_indices_scalar_", id),
            tag("nms_absolute_index_", id),
        );
    }

    fn nms_limit(&mut self, keep: i64, id: i64)
        ensures
            final(self).meta() == old(self).meta(),
            final(self).onnx_graph@ == nms_limited(old(self).onnx_graph@, keep, id),
    {
        if keep > 0 {
            self.add_topk_node(
                tag("nms_selected_scores_", id),
                tag("nms_take_k_", id),
                tag("nms_topk_scores_", id),
                tag("nms_topk_indices_", id),
                -1,
                1,
                1,
            );
            self.add_unary_node(
                "Identity",
                tag("nms_topk_scores_", id),
                tag("nms_limited_scores_", id),
            );
            self.add_gather_node(
                tag("nms_class_indices_scalar_", id),
                tag("nms_topk_indices_", id),
                tag("nms_limited_class_", id),
                0,
            );
            self.add_gather_node(
                tag("nms_absolute_index_", id),
                tag("nms_topk_indices_", id),
                tag("nms_limited_index_", id),
                0,
            );
            self.add_gather_node(
                tag("nms_selected_boxes_", id),
                tag("nms_topk_indices_", id),
                tag("nms_limited_boxes_", id),
                0,
            );
        } else {
            self.add_unary_node(
                "Identity",
                tag("nms_selected_scores_", id),
                tag("nms_limited_scores_", id),
            );
            self.add_unary_node(
                "Identity",
                tag("nms_class_indices_scalar_", id),
                tag("nms_limited_class_", id),
            );
            self.add_unary_node(
                "Identity",
                tag("nms_absolute_index_", id),
                tag("nms_limited_index_", id),
            );
            self.add_unary_node(
                "Identity",
                tag("nms_selected_boxes_", id),
                tag("nms_limited_boxes_", id),
            );
        }
    }

    fn nms_sort(&mut self, id: i64)
        ensures
            final(self).meta() == old(self).meta(),
            final(self).onnx_graph@ == nms_sorted(old(self).onnx_graph@, id),
    {
        self.push_vector(tag("nms_sort_positions_start_", id), &ints1(0));
        self.push_vector(tag("nms_sort_positions_delta_", id), &ints1(1));
        self.add_ternary_node(
            "Range",
            tag("nms_sort_positions_start_", id),
            tag("nms_take_k_scalar_", id),
            tag("nms_sort_positions_delta_", id),
            tag("nms_sort_positions_", id),
        );
        self.push_vector(tag("nms_sort_scale_one_", id), &ints1(1));
        self.add_binary_node(
            "Add",
            tag("nms_take_k_", id),
            tag("nms_sort_scale_one_", id),
            tag("nms_sort_scale_", id),
        );
        self.add_binary_node(
            "Mul",
            tag("nms_limited_class_", id),
            tag("nms_sort_scale_", id),
            tag("nms_class_sort_key_scaled_", id),
        );
        self.add_binary_node(
            "Add",
            tag("nms_class_sort_key_scaled_", id),
            tag("nms_sort_positions_", id),
            tag("nms_class_sort_key_", id),
        );
        self.add_topk_node(
            tag("nms_class_sort_key_", id),
            tag("nms_take_k_", id),
            tag("nms_class_sort_values_", id),
            tag("nms_class_sort_indices_", id),
            -1,
            0,
            1,
        );
        self.add_gather_node(
            tag("nms_limited_class_", id),
            tag("nms_class_sort_indices_", id),
            tag("nms_selected_class_", id),
            0,
        );
        self.add_gather_node(
            tag("nms_limited_index_", id),
            tag("nms_class_sort_indices_", id),
            tag("nms_selected_index_", id),
            0,
        );
        self.add_gather_node(
            tag("nms_limited_boxes_", id),
            tag("nms_class_sort_indices_", id),
            tag("nms_selected_boxes_sorted_", id),
            0,
        );
        self.add_gather_node(
            tag("nms_limited_scores_", id),
            tag("nms_class_sort_indices_", id),
            tag("nms_selected_scores_sorted_", id),
            0,
        );
    }

    fn nms_return(&mut self, id: i64, index_id: i64, count_id: i64) -> (r: Result<(), Error>)
        ensures
            final(self).meta() == old(self).meta(),
            (final(self).onnx_graph@, outcome(r)) == nms_returned(
                old(self).meta(),
                old(self).onnx_graph@,
                id,
                index_id,
                count_id,
            ),
    {
        self.add_cast_node(
            tag("nms_selected_class_", id),
            tag("nms_selected_class_float_", id),
            FLOAT,
        );
        self.add_unsqueeze_node(
            tag("nms_selected_class_float_", id),
            tag("nms_class_expanded_", id),
            &ints1(1),
            tag("nms_class_expand_axes_", id),
        );
        self.add_unsqueeze_node(
            tag("nms_selected_scores_sorted_", id),
            tag("nms_scores_expanded_", id),
            &ints1(1),
            tag("nms_scores_expand_axes_", id),
        );
        let rows = self.get_tensor_name(id)?;
        self.add_concat_node(
            list3(
                tag("nms_class_expanded_", id),
                tag("nms_scores_expanded_", id),
                tag("nms_selected_boxes_sorted_", id),
            ),
            rows,
            1,
        );
        self.add_cast_node(
            tag("nms_selected_index_", id),
            tag("nms_selected_index_i32_", id),
            INT32,
        );
        let index = self.get_tensor_name(index_id)?;
        self.add_unsqueeze_node(
            tag("nms_selected_index_i32_", id),
            index,
            &ints1(1),
            tag("nms_selected_index_axes_", id),
        );
        let count = self.get_tensor_name(count_id)?;
        self.add_cast_node(tag("nms_take_k_", id), count, INT32);
        Ok(())
    }

    /// Lowers `multiclass_nms3`.
    pub fn op_multiclass_nms3(&mut self, op: &Json) -> (r: Result<(), Error>)
        ensures
            final(self).meta() == old(self).meta(),
            (final(self).onnx_graph@, outcome(r)) == nms_lowered(
                old(self).meta(),
                old(self).onnx_graph@,
                op@,
            ),
    {
        self.require_opset(11, "multiclass_nms3")?;
        let inputs = op_input_ids(op);
        if inputs.len() < 2 {
            return Err(Error::text("multiclass_nms3 missing inputs"));
        }
        let (id, index_id, count_id) = read_outputs(op)?;
        if attr_i64_or(op, "background_label", -1) != -1 {
            return Err(
                Error::text("multiclass_nms3 currently only supports background_label=-1"),
            );
        }
        let eta: u64 = attr_number_or(op, "nms_eta", ONE);
        if !is_nan(eta) && (eta < 0x3FEF_FFFF_FFFF_FFFE || eta > 0x3FF0_0000_0000_0001) {
            return Err(Error::text("multiclass_nms3 currently only supports nms_eta=1.0"));
        }
        let top: i64 = attr_i64_or(op, "nms_top_k", 1000);
        let keep: i64 = attr_i64_or(op, "keep_top_k", -1);
        let score: u32 = to_single(attr_number_or(op, "score_threshold", ZERO));
        let iou: u32 = to_single(attr_number_or(op, "nms_threshold", HALF));
        self.push_vector(tag("nms_max_boxes_", id), &ints1(top));
        self.push_f32_initializer(tag("nms_iou_threshold_", id), ints1(1), &singles1(iou));
        self.push_f32_initializer(tag("nms_score_threshold_", id), ints1(1), &singles1(score));
        let boxes = self.get_tensor_name(inputs[0])?;
        let scores = self.get_tensor_name(inputs[1])?;
        self.nms_select(op, boxes.clone(), scores.clone(), id);
        self.nms_count(keep, id);
        self.nms_index(id);
        self.nms_look_up(boxes, scores, id);
        self.nms_limit(keep, id);
        self.nms_sort(id);
        self.nms_return(id, index_id, count_id)
    }
}

} // verus!
