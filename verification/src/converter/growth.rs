//! Conversion only ever adds to a graph.

use crate::converter::dispatch::{flat_lowered, handler_of, Handler};
use crate::converter::emit::{
    binary_added, cast_added, concat_added, gather_added, ints_added, numbers_added, reduce_added,
    scatter_added, singles_added, slice_added, squeeze_added, ternary_added, topk_added,
    unary_added, unsqueeze_added, vector_added,
};
use crate::converter::ops::array::{
    ExpandShapePart, arange_lowered, assign_value_lowered, axes_dropped, cast_lowered, clip_inputs,
    clip_lowered, expand_lowered, expand_shape_made, expanded_to, full_like_lowered, full_lowered,
    full_with_tensor_lowered, literal_part, range_inputs, shape_part_made, shape_parts_made,
    slice_lowered, slice_lowered_early, strided_slice_lowered, tensor_part, value_cast,
};
use crate::converter::ops::bitwise::{
    bit_added, bits_added, bitwise_and_lowered, bitwise_not_lowered, finished_unary,
    signed_and_added,
};
use crate::converter::ops::common::{ints_ensured, scalar_ensured, scalar_passed};
use crate::converter::ops::control::{
    any_all_lowered, depth_added, if_lowered, one_hot_lowered, while_lowered,
};
use crate::converter::ops::conv::{conv2d_transpose_lowered, pool2d_lowered};
use crate::converter::ops::indexing::{
    embedding_lowered, eye_lowered, finished_along, gather_lowered, gather_nd_lowered,
    index_select_lowered, not_equal_lowered, picked_along, take_along_axis_lowered,
};
use crate::converter::ops::math::{
    factor_added, factor_of_scale, finished, floor_divide_lowered, floor_divided,
    floor_divided_singles, gelu_by_erf, gelu_by_tanh, gelu_lowered, grid_sample_lowered,
    hardswish_lowered, leaky_relu_lowered, linear_lowered, matmul_lowered, mod_added, most_likely,
    multinomial_lowered, multiply_lowered, parts_squeezed, pow_lowered, prelu_lowered, scale_added,
    scale_lowered, swish_lowered, trilu_lowered, unbind_lowered,
};
use crate::converter::ops::misc::{
    fetch_lowered, output_declared, output_name, output_taken, dropout_lowered, generic_lowered,
};
use crate::converter::ops::nms::{
    nms_counted, nms_indexed, nms_limited, nms_looked_up, nms_lowered, nms_returned, nms_selected,
    nms_sorted,
};
use crate::converter::ops::norm::{
    affinely_mapped, batch_norm_lowered, group_norm_lowered, groups_normalized,
};
use crate::converter::ops::pad::{
    all_paddings, axes_rolled, axis_rolled, pad3d_lowered, pad_lowered, padding_taken,
    paddings_taken, roll_lowered, tile_lowered, volume_padded, volume_pads,
};
use crate::converter::ops::reduce::{
    argmax_lowered, argsort_lowered, reduced_at_run, reduction_lowered, sorted_with_ties,
    sum_lowered, topk_lowered,
};
use crate::converter::ops::resize::{
    input_left_out, resize_by_shape, resize_ended, resize_lowered, sizes_by_list, sizes_joined,
    spatial_parts,
};
use crate::converter::ops::shape::{
    concat_lowered, flatten_at_run, flatten_fixed, flatten_lowered, split_lowered, squeeze_lowered,
    stack_lowered, stacked_parts, unsqueeze_lowered,
};
use crate::converter::ops::transform::{
    axes_flipped, axis_flipped, cumsum_lowered, einsum_lowered, flip_lowered, grid_shapes,
    grid_spread, meshgrid_lowered,
};
use crate::converter::ops::update::{
    cell_put, cells_set, columns_set, index_put_lowered, joined, masked_put, passed_on,
    put_along_axis_lowered, repeat_interleave_lowered, repeat_parts, repeated_shape, repeats_given,
    row_put, set_value_axis, set_value_block, set_value_lowered, set_value_with_tensor_lowered,
    shape_part, slice_written, updates_shaped,
};
use crate::converter::load::{model_loaded, model_ops};
use crate::converter::pass1::ops_collected;
use crate::converter::pass2::{op_converted, ops_converted};
use crate::converter::state::{tensor_name, Meta};
use crate::converter::value_info::given_name;
use crate::error::ErrorView;
use crate::helper::type_of;
use crate::fresh::lemma_free_name;
use crate::helper::input_ids;
use crate::json::JsonView;
use crate::order::in_order;
use crate::scope::value_named;
use crate::text::dec;
use crate::onnx::{Graph, Node, Tensor, ValueInfo};
use vstd::prelude::*;

verus! {

/// Whether a graph is another with nodes and constants added behind those that it had, and nothing
/// else changed.
pub open spec fn grown(a: Graph, b: Graph) -> bool {
    &&& a.name == b.name
    &&& a.input == b.input
    &&& a.output == b.output
    &&& a.value_info == b.value_info
    &&& a.node.is_prefix_of(b.node)
    &&& a.initializer.is_prefix_of(b.initializer)
}

/// Whether a graph is another with nodes, constants, inputs and outputs added behind those that it
/// had, and nothing else changed.
pub open spec fn extended(a: Graph, b: Graph) -> bool {
    &&& a.name == b.name
    &&& a.input.is_prefix_of(b.input)
    &&& a.output.is_prefix_of(b.output)
    &&& a.value_info == b.value_info
    &&& a.node.is_prefix_of(b.node)
    &&& a.initializer.is_prefix_of(b.initializer)
}

broadcast proof fn lemma_grown_same(g: Graph)
    ensures
        #[trigger] grown(g, g),
{
}

broadcast proof fn lemma_grown_with_node(base: Graph, g: Graph, n: Node)
    requires
        grown(base, g),
    ensures
        #[trigger] grown(base, g.with_node(n)),
{
    reveal(Graph::with_node);
    assert(base.node.is_prefix_of(g.node.push(n)));
}

broadcast proof fn lemma_grown_with_initializer(base: Graph, g: Graph, t: Tensor)
    requires
        grown(base, g),
    ensures
        #[trigger] grown(base, g.with_initializer(t)),
{
    reveal(Graph::with_initializer);
    assert(base.initializer.is_prefix_of(g.initializer.push(t)));
}

broadcast group group_with {
    lemma_grown_same,
    lemma_grown_with_node,
    lemma_grown_with_initializer,
}

broadcast proof fn lemma_grown_ints_added(base: Graph, g: Graph, name: Seq<char>, dims: Seq<i64>, values: Seq<i64>)
    requires
        grown(base, g),
    ensures
        #[trigger] grown(base, ints_added(g, name, dims, values)),
{
    broadcast use {group_with};

    reveal(ints_added);
}

broadcast proof fn lemma_grown_singles_added(base: Graph, g: Graph, name: Seq<char>, dims: Seq<i64>, values: Seq<u32>)
    requires
        grown(base, g),
    ensures
        #[trigger] grown(base, singles_added(g, name, dims, values)),
{
    broadcast use {group_with};

    reveal(singles_added);
}

broadcast proof fn lemma_grown_numbers_added(base: Graph, g: Graph, name: Seq<char>, dims: Seq<i64>, data_type: i32, values: Seq<u64>)
    requires
        grown(base, g),
    ensures
        #[trigger] grown(base, numbers_added(g, name, dims, data_type, values).0),
{
    broadcast use {group_with};

    reveal(numbers_added);
}

broadcast proof fn lemma_grown_cast_added(base: Graph, g: Graph, input: Seq<char>, output: Seq<char>, to: i32)
    requires
        grown(base, g),
    ensures
        #[trigger] grown(base, cast_added(g, input, output, to)),
{
    broadcast use {group_with};

    reveal(cast_added);
}

broadcast proof fn lemma_grown_binary_added(base: Graph, g: Graph, op: Seq<char>, lhs: Seq<char>, rhs: Seq<char>, output: Seq<char>)
    requires
        grown(base, g),
    ensures
        #[trigger] grown(base, binary_added(g, op, lhs, rhs, output)),
{
    broadcast use {group_with};

    reveal(binary_added);
}

broadcast proof fn lemma_grown_unary_added(base: Graph, g: Graph, op: Seq<char>, input: Seq<char>, output: Seq<char>)
    requires
        grown(base, g),
    ensures
        #[trigger] grown(base, unary_added(g, op, input, output)),
{
    broadcast use {group_with};

    reveal(unary_added);
}

broadcast proof fn lemma_grown_ternary_added(base: Graph, g: Graph, op: Seq<char>, a: Seq<char>, b: Seq<char>, c: Seq<char>, output: Seq<char>)
    requires
        grown(base, g),
    ensures
        #[trigger] grown(base, ternary_added(g, op, a, b, c, output)),
{
    broadcast use {group_with};

    reveal(ternary_added);
}

broadcast proof fn lemma_grown_vector_added(base: Graph, g: Graph, name: Seq<char>, values: Seq<i64>)
    requires
        grown(base, g),
    ensures
        #[trigger] grown(base, vector_added(g, name, values)),
{
    broadcast use {group_with};

    reveal(vector_added);
}

broadcast proof fn lemma_grown_gather_added(base: Graph, g: Graph, data: Seq<char>, indices: Seq<char>, output: Seq<char>, axis: i64)
    requires
        grown(base, g),
    ensures
        #[trigger] grown(base, gather_added(g, data, indices, output, axis)),
{
    broadcast use {group_with};

    reveal(gather_added);
}

broadcast proof fn lemma_grown_scatter_added(base: Graph, g: Graph, data: Seq<char>, indices: Seq<char>, updates: Seq<char>, output: Seq<char>, axis: i64)
    requires
        grown(base, g),
    ensures
        #[trigger] grown(base, scatter_added(g, data, indices, updates, output, axis)),
{
    broadcast use {group_with};

    reveal(scatter_added);
}

broadcast proof fn lemma_grown_concat_added(base: Graph, g: Graph, inputs: Seq<Seq<char>>, output: Seq<char>, axis: i64)
    requires
        grown(base, g),
    ensures
        #[trigger] grown(base, concat_added(g, inputs, output, axis)),
{
    broadcast use {group_with};

    reveal(concat_added);
}

broadcast proof fn lemma_grown_topk_added(base: Graph, g: Graph, input: Seq<char>, k: Seq<char>, values: Seq<char>, indices: Seq<char>, axis: i64, largest: i64, sorted: i64)
    requires
        grown(base, g),
    ensures
        #[trigger] grown(base, topk_added(g, input, k, values, indices, axis, largest, sorted)),
{
    broadcast use {group_with};

    reveal(topk_added);
}

broadcast proof fn lemma_grown_unsqueeze_added(base: Graph, g: Graph, opset: i64, input: Seq<char>, output: Seq<char>, axes: Seq<i64>, axes_name: Seq<char>)
    requires
        grown(base, g),
    ensures
        #[trigger] grown(base, unsqueeze_added(g, opset, input, output, axes, axes_name)),
{
    broadcast use {group_with};

    reveal(unsqueeze_added);
}

broadcast proof fn lemma_grown_squeeze_added(base: Graph, g: Graph, opset: i64, input: Seq<char>, output: Seq<char>, axes: Option<Seq<i64>>, axes_name: Option<Seq<char>>)
    requires
        grown(base, g),
    ensures
        #[trigger] grown(base, squeeze_added(g, opset, input, output, axes, axes_name)),
{
    broadcast use {group_with};

    reveal(squeeze_added);
}

broadcast proof fn lemma_grown_slice_added(base: Graph, g: Graph, opset: i64, input: Seq<char>, output: Seq<char>, starts: Seq<i64>, ends: Seq<i64>, axes: Option<Seq<i64>>, steps: Option<Seq<i64>>, prefix: Seq<char>)
    requires
        grown(base, g),
    ensures
        #[trigger] grown(base, slice_added(g, opset, input, output, starts, ends, axes, steps, prefix).0),
{
    broadcast use {group_with};

    reveal(slice_added);
}

broadcast proof fn lemma_grown_reduce_added(base: Graph, g: Graph, opset: i64, op: Seq<char>, input: Seq<char>, output: Seq<char>, axes: Option<Seq<i64>>, keepdims: i64, prefix: Seq<char>)
    requires
        grown(base, g),
    ensures
        #[trigger] grown(base, reduce_added(g, opset, op, input, output, axes, keepdims, prefix)),
{
    broadcast use {group_with};

    reveal(reduce_added);
}

broadcast proof fn lemma_grown_scalar_ensured(base: Graph, m: Meta, g: Graph, id: i64, out_id: i64, label: Seq<char>)
    requires
        grown(base, g),
    ensures
        #[trigger] grown(base, scalar_ensured(m, g, id, out_id, label).0),
{
    broadcast use {group_with, group_emitted};

    reveal(scalar_ensured);
}

broadcast proof fn lemma_grown_ints_ensured(base: Graph, m: Meta, g: Graph, id: i64, out_id: i64, label: Seq<char>)
    requires
        grown(base, g),
    ensures
        #[trigger] grown(base, ints_ensured(m, g, id, out_id, label).0),
{
    broadcast use {group_with, group_emitted};

    reveal(ints_ensured);
}

broadcast proof fn lemma_grown_scalar_passed(base: Graph, m: Meta, g: Graph, id: i64, out_id: i64)
    requires
        grown(base, g),
    ensures
        #[trigger] grown(base, scalar_passed(m, g, id, out_id).0),
{
    broadcast use {group_with, group_emitted};

    reveal(scalar_passed);
}

broadcast proof fn lemma_grown_scale_added(base: Graph, g: Graph, name: Seq<char>, dims: Seq<i64>, data_type: i32, v: u64)
    requires
        grown(base, g),
    ensures
        #[trigger] grown(base, scale_added(g, name, dims, data_type, v).0),
{
    broadcast use {group_with};

    reveal(scale_added);
}

broadcast proof fn lemma_grown_mod_added(base: Graph, g: Graph, lhs: Seq<char>, rhs: Seq<char>, output: Seq<char>)
    requires
        grown(base, g),
    ensures
        #[trigger] grown(base, mod_added(g, lhs, rhs, output)),
{
    broadcast use {group_with};

    reveal(mod_added);
}

broadcast proof fn lemma_grown_finished(base: Graph, m: Meta, g: Graph, op: Seq<char>, lhs: Seq<char>, rhs: Seq<char>, id: i64)
    requires
        grown(base, g),
    ensures
        #[trigger] grown(base, finished(m, g, op, lhs, rhs, id).0),
{
    broadcast use {group_with, group_emitted};
}

broadcast proof fn lemma_grown_multiply_lowered(base: Graph, m: Meta, g: Graph, op: JsonView)
    requires
        grown(base, g),
    ensures
        #[trigger] grown(base, multiply_lowered(m, g, op).0),
{
    broadcast use {group_with, lemma_grown_finished};
}

broadcast proof fn lemma_grown_factor_added(base: Graph, m: Meta, g: Graph, input: i64, name: Seq<char>, enabled: bool, transposed: Seq<char>)
    requires
        grown(base, g),
    ensures
        #[trigger] grown(base, factor_added(m, g, input, name, enabled, transposed).0),
{
    broadcast use {group_with};

    reveal(factor_added);
}

broadcast proof fn lemma_grown_matmul_lowered(base: Graph, m: Meta, g: Graph, op: JsonView)
    requires
        grown(base, g),
    ensures
        #[trigger] grown(base, matmul_lowered(m, g, op).0),
{
    broadcast use {group_with, lemma_grown_finished, lemma_grown_factor_added};
}

broadcast proof fn lemma_grown_factor_of_scale(base: Graph, m: Meta, g: Graph, op: JsonView, id: i64, dtype: i32, scalar: bool)
    requires
        grown(base, g),
    ensures
        #[trigger] grown(base, factor_of_scale(m, g, op, id, dtype, scalar).0),
{
    broadcast use {group_with, group_emitted, lemma_grown_scale_added};
}

broadcast proof fn lemma_grown_scale_lowered(base: Graph, m: Meta, g: Graph, op: JsonView)
    requires
        grown(base, g),
    ensures
        #[trigger] grown(base, scale_lowered(m, g, op).0),
{
    broadcast use {group_with, group_emitted, lemma_grown_scale_added, lemma_grown_finished, lemma_grown_factor_of_scale};
}

broadcast proof fn lemma_grown_swish_lowered(base: Graph, m: Meta, g: Graph, op: JsonView)
    requires
        grown(base, g),
    ensures
        #[trigger] grown(base, swish_lowered(m, g, op).0),
{
    broadcast use {group_with, group_emitted, lemma_grown_finished};
}

broadcast proof fn lemma_grown_generic_lowered(base: Graph, m: Meta, g: Graph, op_type: Seq<char>, op: JsonView)
    requires
        grown(base, g),
    ensures
        #[trigger] grown(base, generic_lowered(m, g, op_type, op).0),
{
    broadcast use {group_with};
}

broadcast proof fn lemma_grown_hardswish_lowered(base: Graph, m: Meta, g: Graph, op: JsonView)
    requires
        grown(base, g),
    ensures
        #[trigger] grown(base, hardswish_lowered(m, g, op).0),
{
    broadcast use {group_with, lemma_grown_finished, lemma_grown_generic_lowered};
}

broadcast proof fn lemma_grown_gelu_by_tanh(base: Graph, m: Meta, g: Graph, id: i64, x: Seq<char>)
    requires
        grown(base, g),
    ensures
        #[trigger] grown(base, gelu_by_tanh(m, g, id, x).0),
{
    broadcast use {group_with, group_emitted, lemma_grown_finished};
}

broadcast proof fn lemma_grown_gelu_by_erf(base: Graph, m: Meta, g: Graph, id: i64, x: Seq<char>)
    requires
        grown(base, g),
    ensures
        #[trigger] grown(base, gelu_by_erf(m, g, id, x).0),
{
    broadcast use {group_with, group_emitted, lemma_grown_finished};
}

broadcast proof fn lemma_grown_gelu_lowered(base: Graph, m: Meta, g: Graph, op: JsonView)
    requires
        grown(base, g),
    ensures
        #[trigger] grown(base, gelu_lowered(m, g, op).0),
{
    broadcast use {group_with, lemma_grown_gelu_by_tanh, lemma_grown_gelu_by_erf};
}

broadcast proof fn lemma_grown_prelu_lowered(base: Graph, m: Meta, g: Graph, op: JsonView)
    requires
        grown(base, g),
    ensures
        #[trigger] grown(base, prelu_lowered(m, g, op).0),
{
    broadcast use {group_with, group_emitted, lemma_grown_finished};
}

broadcast proof fn lemma_grown_floor_divided(base: Graph, m: Meta, g: Graph, id: i64, lhs: Seq<char>, rhs: Seq<char>, dtype: i32)
    requires
        grown(base, g),
    ensures
        #[trigger] grown(base, floor_divided(m, g, id, lhs, rhs, dtype).0),
{
    broadcast use {group_with, group_emitted, lemma_grown_mod_added, lemma_grown_finished};
}

broadcast proof fn lemma_grown_floor_divided_singles(base: Graph, m: Meta, g: Graph, id: i64, lhs: Seq<char>, rhs: Seq<char>, dtype: i32)
    requires
        grown(base, g),
    ensures
        #[trigger] grown(base, floor_divided_singles(m, g, id, lhs, rhs, dtype).0),
{
    broadcast use {group_with, group_emitted};
}

broadcast proof fn lemma_grown_floor_divide_lowered(base: Graph, m: Meta, g: Graph, op: JsonView)
    requires
        grown(base, g),
    ensures
        #[trigger] grown(base, floor_divide_lowered(m, g, op).0),
{
    broadcast use {group_with, lemma_grown_floor_divided, lemma_grown_floor_divided_singles};
}

broadcast proof fn lemma_grown_grid_sample_lowered(base: Graph, m: Meta, g: Graph, op: JsonView)
    requires
        grown(base, g),
    ensures
        #[trigger] grown(base, grid_sample_lowered(m, g, op).0),
{
    broadcast use {group_with};
}

broadcast proof fn lemma_grown_trilu_lowered(base: Graph, m: Meta, g: Graph, op: JsonView, upper: bool)
    requires
        grown(base, g),
    ensures
        #[trigger] grown(base, trilu_lowered(m, g, op, upper).0),
{
    broadcast use {group_with, group_emitted};
}

broadcast proof fn lemma_grown_pow_lowered(base: Graph, m: Meta, g: Graph, op: JsonView)
    requires
        grown(base, g),
    ensures
        #[trigger] grown(base, pow_lowered(m, g, op).0),
{
    broadcast use {group_with, group_emitted, lemma_grown_finished};
}

broadcast proof fn lemma_grown_leaky_relu_lowered(base: Graph, m: Meta, g: Graph, op: JsonView)
    requires
        grown(base, g),
    ensures
        #[trigger] grown(base, leaky_relu_lowered(m, g, op).0),
{
    broadcast use {group_with};
}

broadcast proof fn lemma_grown_linear_lowered(base: Graph, m: Meta, g: Graph, op: JsonView)
    requires
        grown(base, g),
    ensures
        #[trigger] grown(base, linear_lowered(m, g, op).0),
{
    broadcast use {group_with, group_emitted, lemma_grown_finished};
}

broadcast proof fn lemma_grown_most_likely(base: Graph, m: Meta, g: Graph, id: i64, input: i64, size: i64)
    requires
        grown(base, g),
    ensures
        #[trigger] grown(base, most_likely(m, g, id, input, size).0),
{
    broadcast use {group_with, group_emitted, lemma_grown_finished};
}

broadcast proof fn lemma_grown_multinomial_lowered(base: Graph, m: Meta, g: Graph, op: JsonView)
    requires
        grown(base, g),
    ensures
        #[trigger] grown(base, multinomial_lowered(m, g, op).1),
{
    broadcast use {group_with, lemma_grown_most_likely};
}

broadcast proof fn lemma_grown_parts_squeezed(base: Graph, m: Meta, g: Graph, id: i64, outs: Seq<i64>, axis: i64, k: nat)
    requires
        grown(base, g),
    ensures
        #[trigger] grown(base, parts_squeezed(m, g, id, outs, axis, k).0),
    decreases k,
{
    broadcast use {group_with, group_emitted};

    if k > 0 {
        lemma_grown_parts_squeezed(base, m, g, id, outs, axis, (k - 1) as nat);
    }
}

broadcast proof fn lemma_grown_unbind_lowered(base: Graph, m: Meta, g: Graph, op: JsonView)
    requires
        grown(base, g),
    ensures
        #[trigger] grown(base, unbind_lowered(m, g, op).0),
{
    broadcast use {group_with, lemma_grown_parts_squeezed};
}

broadcast proof fn lemma_grown_bit_added(base: Graph, g: Graph, prefix: Seq<char>, lhs: Seq<char>, rhs: Seq<char>, width: int, bit: nat)
    requires
        grown(base, g),
    ensures
        #[trigger] grown(base, bit_added(g, prefix, lhs, rhs, width, bit)),
{
    broadcast use {group_with, group_emitted, lemma_grown_mod_added};

    reveal(bit_added);
}

broadcast proof fn lemma_grown_bits_added(base: Graph, g: Graph, prefix: Seq<char>, lhs: Seq<char>, rhs: Seq<char>, width: int, k: nat)
    requires
        grown(base, g),
    ensures
        #[trigger] grown(base, bits_added(g, prefix, lhs, rhs, width, k)),
    decreases k,
{
    broadcast use {group_with, lemma_grown_bit_added};

    if k > 0 {
        lemma_grown_bits_added(base, g, prefix, lhs, rhs, width, (k - 1) as nat);
    }
}

broadcast proof fn lemma_grown_signed_and_added(base: Graph, g: Graph, lhs: Seq<char>, rhs: Seq<char>, output: Seq<char>, dtype: i32, id: i64)
    requires
        grown(base, g),
    ensures
        #[trigger] grown(base, signed_and_added(g, lhs, rhs, output, dtype, id).0),
{
    broadcast use {group_with, group_emitted, lemma_grown_bits_added};
}

broadcast proof fn lemma_grown_finished_unary(base: Graph, m: Meta, g: Graph, op: Seq<char>, input: Seq<char>, id: i64)
    requires
        grown(base, g),
    ensures
        #[trigger] grown(base, finished_unary(m, g, op, input, id).0),
{
    broadcast use {group_with, group_emitted};
}

broadcast proof fn lemma_grown_bitwise_not_lowered(base: Graph, m: Meta, g: Graph, op: JsonView)
    requires
        grown(base, g),
    ensures
        #[trigger] grown(base, bitwise_not_lowered(m, g, op).0),
{
    broadcast use {group_with, group_emitted, lemma_grown_finished_unary};
}

broadcast proof fn lemma_grown_bitwise_and_lowered(base: Graph, m: Meta, g: Graph, op: JsonView)
    requires
        grown(base, g),
    ensures
        #[trigger] grown(base, bitwise_and_lowered(m, g, op).0),
{
    broadcast use {group_with, group_emitted, lemma_grown_signed_and_added};
}

broadcast proof fn lemma_grown_dropout_lowered(base: Graph, m: Meta, g: Graph, op: JsonView)
    requires
        grown(base, g),
    ensures
        #[trigger] grown(base, dropout_lowered(m, g, op).0),
{
    broadcast use {group_with};
}

broadcast proof fn lemma_grown_masked_put(base: Graph, m: Meta, g: Graph, id: i64, data: i64, mask: i64, value: i64)
    requires
        grown(base, g),
    ensures
        #[trigger] grown(base, masked_put(m, g, id, data, mask, value).0),
{
    broadcast use {group_with, group_emitted};
}

broadcast proof fn lemma_grown_row_put(base: Graph, m: Meta, g: Graph, id: i64, data: i64, rows: i64, value: i64)
    requires
        grown(base, g),
    ensures
        #[trigger] grown(base, row_put(m, g, id, data, rows, value).0),
{
    broadcast use {group_with, group_emitted};
}

broadcast proof fn lemma_grown_cell_put(base: Graph, m: Meta, g: Graph, id: i64, data: i64, rows: i64, columns: i64, value: i64)
    requires
        grown(base, g),
    ensures
        #[trigger] grown(base, cell_put(m, g, id, data, rows, columns, value).0),
{
    broadcast use {group_with, group_emitted};
}

broadcast proof fn lemma_grown_index_put_lowered(base: Graph, m: Meta, g: Graph, op: JsonView)
    requires
        grown(base, g),
    ensures
        #[trigger] grown(base, index_put_lowered(m, g, op).0),
{
    broadcast use {group_with, lemma_grown_masked_put, lemma_grown_row_put, lemma_grown_cell_put};
}

broadcast proof fn lemma_grown_passed_on(base: Graph, m: Meta, g: Graph, from: i64, to: i64)
    requires
        grown(base, g),
    ensures
        #[trigger] grown(base, passed_on(m, g, from, to).0),
{
    broadcast use {group_with, group_emitted};
}

broadcast proof fn lemma_grown_columns_set(base: Graph, m: Meta, g: Graph, id: i64, data: i64, columns: Seq<i64>, scalar: u64)
    requires
        grown(base, g),
    ensures
        #[trigger] grown(base, columns_set(m, g, id, data, columns, scalar).0),
{
    broadcast use {group_with, group_emitted};
}

broadcast proof fn lemma_grown_set_value_axis(base: Graph, m: Meta, g: Graph, op: JsonView, id: i64, ins: Seq<i64>)
    requires
        grown(base, g),
    ensures
        #[trigger] grown(base, set_value_axis(m, g, op, id, ins).0),
{
    broadcast use {group_with, lemma_grown_passed_on, lemma_grown_columns_set};
}

broadcast proof fn lemma_grown_cells_set(base: Graph, m: Meta, g: Graph, id: i64, data: i64, rows: Seq<Seq<i64>>, rank: nat, scalar: u64)
    requires
        grown(base, g),
    ensures
        #[trigger] grown(base, cells_set(m, g, id, data, rows, rank, scalar).0),
{
    broadcast use {group_with, group_emitted};
}

broadcast proof fn lemma_grown_set_value_block(base: Graph, m: Meta, g: Graph, op: JsonView, id: i64, ins: Seq<i64>)
    requires
        grown(base, g),
    ensures
        #[trigger] grown(base, set_value_block(m, g, op, id, ins).0),
{
    broadcast use {group_with, lemma_grown_passed_on, lemma_grown_cells_set};
}

broadcast proof fn lemma_grown_set_value_lowered(base: Graph, m: Meta, g: Graph, op: JsonView)
    requires
        grown(base, g),
    ensures
        #[trigger] grown(base, set_value_lowered(m, g, op).0),
{
    broadcast use {group_with, lemma_grown_set_value_axis, lemma_grown_set_value_block};
}

broadcast proof fn lemma_grown_updates_shaped(base: Graph, m: Meta, g: Graph, id: i64, ins: Seq<i64>, values: Seq<char>, dropped: bool)
    requires
        grown(base, g),
    ensures
        #[trigger] grown(base, updates_shaped(m, g, id, ins, values, dropped).0),
{
    broadcast use {group_with, group_emitted};
}

broadcast proof fn lemma_grown_slice_written(base: Graph, m: Meta, g: Graph, id: i64, ins: Seq<i64>, rank: nat, dropped: bool)
    requires
        grown(base, g),
    ensures
        #[trigger] grown(base, slice_written(m, g, id, ins, rank, dropped).0),
{
    broadcast use {group_with, group_emitted, lemma_grown_scalar_ensured, lemma_grown_updates_shaped};
}

broadcast proof fn lemma_grown_set_value_with_tensor_lowered(base: Graph, m: Meta, g: Graph, op: JsonView)
    requires
        grown(base, g),
    ensures
        #[trigger] grown(base, set_value_with_tensor_lowered(m, g, op).0),
{
    broadcast use {group_with, lemma_grown_passed_on, lemma_grown_slice_written};
}

broadcast proof fn lemma_grown_repeat_parts(base: Graph, g: Graph, id: i64, at: i64, k: nat)
    requires
        grown(base, g),
    ensures
        #[trigger] grown(base, repeat_parts(g, id, at, k).0),
    decreases k,
{
    broadcast use {group_with, group_emitted};

    if k > 0 {
        lemma_grown_repeat_parts(base, g, id, at, (k - 1) as nat);
    }
}

broadcast proof fn lemma_grown_repeats_given(base: Graph, m: Meta, g: Graph, op: JsonView, id: i64, ins: Seq<i64>)
    requires
        grown(base, g),
    ensures
        #[trigger] grown(base, repeats_given(m, g, op, id, ins).0),
{
    broadcast use {group_with, group_emitted, lemma_grown_scalar_ensured};
}

broadcast proof fn lemma_grown_joined(base: Graph, g: Graph, parts: Seq<Seq<char>>, name: Seq<char>)
    requires
        grown(base, g),
    ensures
        #[trigger] grown(base, joined(g, parts, name).0),
{
    broadcast use {group_with, group_emitted};
}

broadcast proof fn lemma_grown_shape_part(base: Graph, m: Meta, g: Graph, shape: Seq<char>, name: Seq<char>, start: i64, end: i64)
    requires
        grown(base, g),
    ensures
        #[trigger] grown(base, shape_part(m, g, shape, name, start, end).0),
{
    broadcast use {group_with, group_emitted};
}

broadcast proof fn lemma_grown_repeated_shape(base: Graph, m: Meta, g: Graph, id: i64, axis: i64, rank: i64)
    requires
        grown(base, g),
    ensures
        #[trigger] grown(base, repeated_shape(m, g, id, axis, rank).0),
{
    broadcast use {group_with, group_emitted, lemma_grown_joined, lemma_grown_shape_part};
}

broadcast proof fn lemma_grown_repeat_interleave_lowered(base: Graph, m: Meta, g: Graph, op: JsonView)
    requires
        grown(base, g),
    ensures
        #[trigger] grown(base, repeat_interleave_lowered(m, g, op).0),
{
    broadcast use {group_with, group_emitted, lemma_grown_repeat_parts, lemma_grown_repeats_given, lemma_grown_joined, lemma_grown_repeated_shape};
}

broadcast proof fn lemma_grown_put_along_axis_lowered(base: Graph, m: Meta, g: Graph, op: JsonView)
    requires
        grown(base, g),
    ensures
        #[trigger] grown(base, put_along_axis_lowered(m, g, op).0),
{
    broadcast use {group_with, group_emitted, lemma_grown_ints_ensured};
}

broadcast proof fn lemma_grown_literal_part(base: Graph, m: Meta, g: Graph, data: i64, id: i64, rank: nat, axis: nat, value: i64, shape: Option<Seq<char>>)
    requires
        grown(base, g),
    ensures
        #[trigger] grown(base, literal_part(m, g, data, id, rank, axis, value, shape).0),
{
    broadcast use {group_with, group_emitted};
}

broadcast proof fn lemma_grown_tensor_part(base: Graph, m: Meta, g: Graph, data: i64, id: i64, rank: nat, axis: nat, source: i64, shape: Option<Seq<char>>)
    requires
        grown(base, g),
    ensures
        #[trigger] grown(base, tensor_part(m, g, data, id, rank, axis, source, shape).0),
{
    broadcast use {group_with, group_emitted, lemma_grown_literal_part};
}

broadcast proof fn lemma_grown_shape_part_made(base: Graph, m: Meta, g: Graph, data: i64, id: i64, rank: nat, axis: nat, part: ExpandShapePart, shape: Option<Seq<char>>)
    requires
        grown(base, g),
    ensures
        #[trigger] grown(base, shape_part_made(m, g, data, id, rank, axis, part, shape).0),
{
    broadcast use {group_with, lemma_grown_literal_part, lemma_grown_tensor_part};
}

broadcast proof fn lemma_grown_shape_parts_made(base: Graph, m: Meta, g: Graph, data: i64, id: i64, parts: Seq<ExpandShapePart>, k: nat)
    requires
        grown(base, g),
    ensures
        #[trigger] grown(base, shape_parts_made(m, g, data, id, parts, k).0),
    decreases k,
{
    broadcast use {group_with, lemma_grown_shape_part_made};

    if k > 0 {
        lemma_grown_shape_parts_made(base, m, g, data, id, parts, (k - 1) as nat);
    }
}

broadcast proof fn lemma_grown_expand_shape_made(base: Graph, m: Meta, g: Graph, data: i64, id: i64, parts: Seq<ExpandShapePart>)
    requires
        grown(base, g),
    ensures
        #[trigger] grown(base, expand_shape_made(m, g, data, id, parts).0),
{
    broadcast use {group_with, lemma_grown_joined, lemma_grown_shape_parts_made};

    reveal(expand_shape_made);
}

broadcast proof fn lemma_grown_expanded_to(base: Graph, m: Meta, made: (Graph, Result<Seq<char>, ErrorView>), data: Seq<char>, id: i64)
    requires
        grown(base, made.0),
    ensures
        #[trigger] grown(base, expanded_to(m, made, data, id).0),
{
    broadcast use {group_with, group_emitted};
}

broadcast proof fn lemma_grown_expand_lowered(base: Graph, m: Meta, g: Graph, op: JsonView)
    requires
        grown(base, g),
    ensures
        #[trigger] grown(base, expand_lowered(m, g, op).0),
{
    broadcast use {group_with, lemma_grown_expand_shape_made, lemma_grown_expanded_to};
}

broadcast proof fn lemma_grown_assign_value_lowered(base: Graph, m: Meta, g: Graph, op: JsonView)
    requires
        grown(base, g),
    ensures
        #[trigger] grown(base, assign_value_lowered(m, g, op).0),
{
    broadcast use {group_with, group_emitted};
}

broadcast proof fn lemma_grown_full_lowered(base: Graph, m: Meta, g: Graph, op_type: Seq<char>, op: JsonView)
    requires
        grown(base, g),
    ensures
        #[trigger] grown(base, full_lowered(m, g, op_type, op).0),
{
    broadcast use {group_with, group_emitted};
}

broadcast proof fn lemma_grown_cast_lowered(base: Graph, m: Meta, g: Graph, op: JsonView)
    requires
        grown(base, g),
    ensures
        #[trigger] grown(base, cast_lowered(m, g, op).0),
{
    broadcast use {group_with, group_emitted};
}

broadcast proof fn lemma_grown_range_inputs(base: Graph, m: Meta, g: Graph, id: i64, ins: Seq<i64>, k: nat)
    requires
        grown(base, g),
    ensures
        #[trigger] grown(base, range_inputs(m, g, id, ins, k).0),
    decreases k,
{
    broadcast use {group_with, group_emitted};

    if k > 0 {
        lemma_grown_range_inputs(base, m, g, id, ins, (k - 1) as nat);
    }
}

broadcast proof fn lemma_grown_arange_lowered(base: Graph, m: Meta, g: Graph, op: JsonView)
    requires
        grown(base, g),
    ensures
        #[trigger] grown(base, arange_lowered(m, g, op).0),
{
    broadcast use {group_with, group_emitted, lemma_grown_range_inputs};
}

broadcast proof fn lemma_grown_clip_inputs(base: Graph, m: Meta, g: Graph, id: i64, ins: Seq<i64>, to: Option<i32>, first: Seq<char>, k: nat)
    requires
        grown(base, g),
    ensures
        #[trigger] grown(base, clip_inputs(m, g, id, ins, to, first, k).0),
    decreases k,
{
    broadcast use {group_with, group_emitted};

    if k > 1 {
        lemma_grown_clip_inputs(base, m, g, id, ins, to, first, (k - 1) as nat);
    }
}

broadcast proof fn lemma_grown_clip_lowered(base: Graph, m: Meta, g: Graph, op: JsonView)
    requires
        grown(base, g),
    ensures
        #[trigger] grown(base, clip_lowered(m, g, op).0),
{
    broadcast use {group_with, lemma_grown_clip_inputs};
}

broadcast proof fn lemma_grown_value_cast(base: Graph, g: Graph, op: JsonView, value: Seq<char>, casted: Seq<char>)
    requires
        grown(base, g),
    ensures
        #[trigger] grown(base, value_cast(g, op, value, casted).0),
{
    broadcast use {group_with, group_emitted};
}

broadcast proof fn lemma_grown_full_like_lowered(base: Graph, m: Meta, g: Graph, op: JsonView)
    requires
        grown(base, g),
    ensures
        #[trigger] grown(base, full_like_lowered(m, g, op).0),
{
    broadcast use {group_with, group_emitted, lemma_grown_value_cast};
}

broadcast proof fn lemma_grown_full_with_tensor_lowered(base: Graph, m: Meta, g: Graph, op: JsonView)
    requires
        grown(base, g),
    ensures
        #[trigger] grown(base, full_with_tensor_lowered(m, g, op).0),
{
    broadcast use {group_with, group_emitted, lemma_grown_value_cast};
}

broadcast proof fn lemma_grown_axes_dropped(base: Graph, m: Meta, g: Graph, id: i64, dropped: Seq<i64>, from: Seq<char>, axes_name: Seq<char>)
    requires
        grown(base, g),
    ensures
        #[trigger] grown(base, axes_dropped(m, g, id, dropped, from, axes_name).0),
{
    broadcast use {group_with, group_emitted};
}

broadcast proof fn lemma_grown_slice_lowered_early(base: Graph, m: Meta, g: Graph, op: JsonView, id: i64, ins: Seq<i64>)
    requires
        grown(base, g),
    ensures
        #[trigger] grown(base, slice_lowered_early(m, g, op, id, ins).0),
{
    broadcast use {group_with, group_emitted, lemma_grown_axes_dropped};
}

broadcast proof fn lemma_grown_slice_lowered(base: Graph, m: Meta, g: Graph, op: JsonView)
    requires
        grown(base, g),
    ensures
        #[trigger] grown(base, slice_lowered(m, g, op).0),
{
    broadcast use {group_with, group_emitted, lemma_grown_axes_dropped, lemma_grown_slice_lowered_early};
}

broadcast proof fn lemma_grown_strided_slice_lowered(base: Graph, m: Meta, g: Graph, op: JsonView)
    requires
        grown(base, g),
    ensures
        #[trigger] grown(base, strided_slice_lowered(m, g, op).0),
{
    broadcast use {group_with, group_emitted, lemma_grown_ints_ensured, lemma_grown_axes_dropped};
}

broadcast proof fn lemma_grown_any_all_lowered(base: Graph, m: Meta, g: Graph, op: JsonView, any: bool)
    requires
        grown(base, g),
    ensures
        #[trigger] grown(base, any_all_lowered(m, g, op, any).0),
{
    broadcast use {group_with, group_emitted};
}

broadcast proof fn lemma_grown_depth_added(base: Graph, m: Meta, g: Graph, id: i64, depth: i64)
    requires
        grown(base, g),
    ensures
        #[trigger] grown(base, depth_added(m, g, id, depth).0),
{
    broadcast use {group_with, group_emitted};

    reveal(depth_added);
}

broadcast proof fn lemma_grown_one_hot_lowered(base: Graph, m: Meta, g: Graph, op: JsonView)
    requires
        grown(base, g),
    ensures
        #[trigger] grown(base, one_hot_lowered(m, g, op).0),
{
    broadcast use {group_with, group_emitted, lemma_grown_depth_added};
}

broadcast proof fn lemma_grown_if_lowered(base: Graph, m: Meta, g: Graph, op: JsonView, then_branch: Result<Graph, ErrorView>, else_branch: Result<Graph, ErrorView>)
    requires
        grown(base, g),
    ensures
        #[trigger] grown(base, if_lowered(m, g, op, then_branch, else_branch).0),
{
    broadcast use {group_with};
}

broadcast proof fn lemma_grown_while_lowered(base: Graph, m: Meta, g: Graph, op: JsonView, body: Result<Graph, ErrorView>)
    requires
        grown(base, g),
    ensures
        #[trigger] grown(base, while_lowered(m, g, op, body).0),
{
    broadcast use {group_with};
}

broadcast proof fn lemma_grown_conv2d_transpose_lowered(base: Graph, m: Meta, g: Graph, op: JsonView)
    requires
        grown(base, g),
    ensures
        #[trigger] grown(base, conv2d_transpose_lowered(m, g, op).0),
{
    broadcast use {group_with};
}

broadcast proof fn lemma_grown_pool2d_lowered(base: Graph, m: Meta, g: Graph, op: JsonView)
    requires
        grown(base, g),
    ensures
        #[trigger] grown(base, pool2d_lowered(m, g, op).0),
{
    broadcast use {group_with};
}

broadcast proof fn lemma_grown_finished_along(base: Graph, m: Meta, g: Graph, op: Seq<char>, inputs: Seq<Seq<char>>, id: i64, axis: i64)
    requires
        grown(base, g),
    ensures
        #[trigger] grown(base, finished_along(m, g, op, inputs, id, axis).0),
{
    broadcast use {group_with};
}

broadcast proof fn lemma_grown_gather_lowered(base: Graph, m: Meta, g: Graph, op: JsonView)
    requires
        grown(base, g),
    ensures
        #[trigger] grown(base, gather_lowered(m, g, op).0),
{
    broadcast use {group_with, lemma_grown_finished_along};
}

broadcast proof fn lemma_grown_gather_nd_lowered(base: Graph, m: Meta, g: Graph, op: JsonView)
    requires
        grown(base, g),
    ensures
        #[trigger] grown(base, gather_nd_lowered(m, g, op).0),
{
    broadcast use {group_with, lemma_grown_finished};
}

broadcast proof fn lemma_grown_picked_along(base: Graph, m: Meta, g: Graph, op: JsonView, kind: Seq<char>, missing: Seq<char>)
    requires
        grown(base, g),
    ensures
        #[trigger] grown(base, picked_along(m, g, op, kind, missing).0),
{
    broadcast use {group_with, lemma_grown_finished_along};
}

broadcast proof fn lemma_grown_index_select_lowered(base: Graph, m: Meta, g: Graph, op: JsonView)
    requires
        grown(base, g),
    ensures
        #[trigger] grown(base, index_select_lowered(m, g, op).0),
{
    broadcast use {group_with, lemma_grown_picked_along};
}

broadcast proof fn lemma_grown_take_along_axis_lowered(base: Graph, m: Meta, g: Graph, op: JsonView)
    requires
        grown(base, g),
    ensures
        #[trigger] grown(base, take_along_axis_lowered(m, g, op).0),
{
    broadcast use {group_with, lemma_grown_picked_along};
}

broadcast proof fn lemma_grown_embedding_lowered(base: Graph, m: Meta, g: Graph, op: JsonView)
    requires
        grown(base, g),
    ensures
        #[trigger] grown(base, embedding_lowered(m, g, op).0),
{
    broadcast use {group_with, lemma_grown_finished_along};
}

broadcast proof fn lemma_grown_eye_lowered(base: Graph, m: Meta, g: Graph, op: JsonView)
    requires
        grown(base, g),
    ensures
        #[trigger] grown(base, eye_lowered(m, g, op).0),
{
    broadcast use {group_with, group_emitted, lemma_grown_scalar_ensured};
}

broadcast proof fn lemma_grown_not_equal_lowered(base: Graph, m: Meta, g: Graph, op: JsonView)
    requires
        grown(base, g),
    ensures
        #[trigger] grown(base, not_equal_lowered(m, g, op).0),
{
    broadcast use {group_with, group_emitted, lemma_grown_finished_unary};
}

broadcast proof fn lemma_grown_nms_selected(base: Graph, m: Meta, g: Graph, op: JsonView, boxes: Seq<char>, scores: Seq<char>, id: i64)
    requires
        grown(base, g),
    ensures
        #[trigger] grown(base, nms_selected(m, g, op, boxes, scores, id)),
{
    broadcast use {group_with, group_emitted};
}

broadcast proof fn lemma_grown_nms_counted(base: Graph, m: Meta, g: Graph, keep: i64, id: i64)
    requires
        grown(base, g),
    ensures
        #[trigger] grown(base, nms_counted(m, g, keep, id)),
{
    broadcast use {group_with, group_emitted};
}

broadcast proof fn lemma_grown_nms_indexed(base: Graph, m: Meta, g: Graph, id: i64)
    requires
        grown(base, g),
    ensures
        #[trigger] grown(base, nms_indexed(m, g, id)),
{
    broadcast use {group_with, group_emitted};
}

broadcast proof fn lemma_grown_nms_looked_up(base: Graph, g: Graph, boxes: Seq<char>, scores: Seq<char>, id: i64)
    requires
        grown(base, g),
    ensures
        #[trigger] grown(base, nms_looked_up(g, boxes, scores, id)),
{
    broadcast use {group_with, group_emitted};
}

broadcast proof fn lemma_grown_nms_limited(base: Graph, g: Graph, keep: i64, id: i64)
    requires
        grown(base, g),
    ensures
        #[trigger] grown(base, nms_limited(g, keep, id)),
{
    broadcast use {group_with, group_emitted};
}

broadcast proof fn lemma_grown_nms_sorted(base: Graph, g: Graph, id: i64)
    requires
        grown(base, g),
    ensures
        #[trigger] grown(base, nms_sorted(g, id)),
{
    broadcast use {group_with, group_emitted};
}

broadcast proof fn lemma_grown_nms_returned(base: Graph, m: Meta, g: Graph, id: i64, index_id: i64, count_id: i64)
    requires
        grown(base, g),
    ensures
        #[trigger] grown(base, nms_returned(m, g, id, index_id, count_id).0),
{
    broadcast use {group_with, group_emitted};
}

broadcast proof fn lemma_grown_nms_lowered(base: Graph, m: Meta, g: Graph, op: JsonView)
    requires
        grown(base, g),
    ensures
        #[trigger] grown(base, nms_lowered(m, g, op).0),
{
    broadcast use {group_with, group_emitted, lemma_grown_nms_selected, lemma_grown_nms_counted, lemma_grown_nms_indexed, lemma_grown_nms_looked_up, lemma_grown_nms_limited, lemma_grown_nms_sorted, lemma_grown_nms_returned};
}

broadcast proof fn lemma_grown_batch_norm_lowered(base: Graph, m: Meta, g: Graph, op: JsonView)
    requires
        grown(base, g),
    ensures
        #[trigger] grown(base, batch_norm_lowered(m, g, op).0),
{
    broadcast use {group_with};
}

broadcast proof fn lemma_grown_groups_normalized(base: Graph, m: Meta, g: Graph, op: JsonView, id: i64, groups: i64, input: Seq<char>)
    requires
        grown(base, g),
    ensures
        #[trigger] grown(base, groups_normalized(m, g, op, id, groups, input).0),
{
    broadcast use {group_with, group_emitted, lemma_grown_shape_part};

    reveal(groups_normalized);
}

broadcast proof fn lemma_grown_affinely_mapped(base: Graph, m: Meta, g: Graph, id: i64, ins: Seq<i64>, rank: nat)
    requires
        grown(base, g),
    ensures
        #[trigger] grown(base, affinely_mapped(m, g, id, ins, rank).0),
{
    broadcast use {group_with, group_emitted, lemma_grown_finished};
}

broadcast proof fn lemma_grown_group_norm_lowered(base: Graph, m: Meta, g: Graph, op: JsonView)
    requires
        grown(base, g),
    ensures
        #[trigger] grown(base, group_norm_lowered(m, g, op).0),
{
    broadcast use {group_with, lemma_grown_groups_normalized, lemma_grown_affinely_mapped};
}

broadcast proof fn lemma_grown_tile_lowered(base: Graph, m: Meta, g: Graph, op: JsonView)
    requires
        grown(base, g),
    ensures
        #[trigger] grown(base, tile_lowered(m, g, op).0),
{
    broadcast use {group_with, group_emitted, lemma_grown_finished};
}

broadcast proof fn lemma_grown_pad_lowered(base: Graph, m: Meta, g: Graph, op: JsonView)
    requires
        grown(base, g),
    ensures
        #[trigger] grown(base, pad_lowered(m, g, op).0),
{
    broadcast use {group_with, group_emitted};
}

broadcast proof fn lemma_grown_padding_taken(base: Graph, m: Meta, g: Graph, id: i64, input: i64, pads: Seq<char>, label: Seq<char>, start: i64)
    requires
        grown(base, g),
    ensures
        #[trigger] grown(base, padding_taken(m, g, id, input, pads, label, start).0),
{
    broadcast use {group_with, group_emitted};

    reveal(padding_taken);
}

broadcast proof fn lemma_grown_volume_pads(base: Graph, g: Graph, id: i64, last: bool, w: (Seq<char>, Seq<char>), h: (Seq<char>, Seq<char>), d: (Seq<char>, Seq<char>))
    requires
        grown(base, g),
    ensures
        #[trigger] grown(base, volume_pads(g, id, last, w, h, d)),
{
    broadcast use {group_with, group_emitted};
}

broadcast proof fn lemma_grown_volume_padded(base: Graph, m: Meta, g: Graph, op: JsonView, id: i64, input: i64)
    requires
        grown(base, g),
    ensures
        #[trigger] grown(base, volume_padded(m, g, op, id, input).0),
{
    broadcast use {group_with, group_emitted};
}

broadcast proof fn lemma_grown_paddings_taken(base: Graph, m: Meta, g: Graph, id: i64, input: i64, pads: Seq<char>, begin: Seq<char>, end: Seq<char>, start: i64)
    requires
        grown(base, g),
    ensures
        #[trigger] grown(base, paddings_taken(m, g, id, input, pads, begin, end, start).0),
{
    broadcast use {group_with, lemma_grown_padding_taken};
}

broadcast proof fn lemma_grown_all_paddings(base: Graph, m: Meta, g: Graph, id: i64, input: i64, pads: Seq<char>)
    requires
        grown(base, g),
    ensures
        #[trigger] grown(base, all_paddings(m, g, id, input, pads).0),
{
    broadcast use {group_with, lemma_grown_paddings_taken};
}

broadcast proof fn lemma_grown_pad3d_lowered(base: Graph, m: Meta, g: Graph, op: JsonView)
    requires
        grown(base, g),
    ensures
        #[trigger] grown(base, pad3d_lowered(m, g, op).0),
{
    broadcast use {group_with, group_emitted, lemma_grown_volume_pads, lemma_grown_volume_padded, lemma_grown_all_paddings};
}

broadcast proof fn lemma_grown_axis_rolled(base: Graph, m: Meta, g: Graph, id: i64, current: Seq<char>, dims: Seq<i64>, axis_raw: i64, shift_raw: i64, index: nat, last: bool)
    requires
        grown(base, g),
    ensures
        #[trigger] grown(base, axis_rolled(m, g, id, current, dims, axis_raw, shift_raw, index, last).0),
{
    broadcast use {group_with, group_emitted};

    reveal(axis_rolled);
}

broadcast proof fn lemma_grown_axes_rolled(base: Graph, m: Meta, g: Graph, id: i64, start: Seq<char>, dims: Seq<i64>, axes: Seq<i64>, shifts: Seq<i64>, k: nat)
    requires
        grown(base, g),
    ensures
        #[trigger] grown(base, axes_rolled(m, g, id, start, dims, axes, shifts, k).0),
    decreases k,
{
    broadcast use {group_with, lemma_grown_axis_rolled};

    if k > 0 {
        lemma_grown_axes_rolled(base, m, g, id, start, dims, axes, shifts, (k - 1) as nat);
    }
}

broadcast proof fn lemma_grown_roll_lowered(base: Graph, m: Meta, g: Graph, op: JsonView)
    requires
        grown(base, g),
    ensures
        #[trigger] grown(base, roll_lowered(m, g, op).0),
{
    broadcast use {group_with, group_emitted, lemma_grown_axes_rolled};
}

broadcast proof fn lemma_grown_reduced_at_run(base: Graph, m: Meta, g: Graph, id: i64, input: i64, axes: i64, onnx_op: Seq<char>, prefix: Seq<char>, keep: i64)
    requires
        grown(base, g),
    ensures
        #[trigger] grown(base, reduced_at_run(m, g, id, input, axes, onnx_op, prefix, keep).0),
{
    broadcast use {group_with, group_emitted};
}

broadcast proof fn lemma_grown_reduction_lowered(base: Graph, m: Meta, g: Graph, op: JsonView, missing: Seq<char>, onnx_op: Seq<char>, prefix: Seq<char>)
    requires
        grown(base, g),
    ensures
        #[trigger] grown(base, reduction_lowered(m, g, op, missing, onnx_op, prefix).0),
{
    broadcast use {group_with, group_emitted, lemma_grown_scalar_passed, lemma_grown_reduced_at_run};
}

broadcast proof fn lemma_grown_sum_lowered(base: Graph, m: Meta, g: Graph, op: JsonView)
    requires
        grown(base, g),
    ensures
        #[trigger] grown(base, sum_lowered(m, g, op).0),
{
    broadcast use {group_with, lemma_grown_scalar_passed};
}

broadcast proof fn lemma_grown_topk_lowered(base: Graph, m: Meta, g: Graph, op: JsonView)
    requires
        grown(base, g),
    ensures
        #[trigger] grown(base, topk_lowered(m, g, op).0),
{
    broadcast use {group_with, group_emitted};
}

broadcast proof fn lemma_grown_argmax_lowered(base: Graph, m: Meta, g: Graph, op: JsonView)
    requires
        grown(base, g),
    ensures
        #[trigger] grown(base, argmax_lowered(m, g, op).0),
{
    broadcast use {group_with, group_emitted};
}

broadcast proof fn lemma_grown_sorted_with_ties(base: Graph, m: Meta, g: Graph, id: i64, input: Seq<char>, narrow: bool, k: Seq<char>, outputs: Seq<Seq<char>>, rank: nat, axis: i64, length: i64, descending: bool)
    requires
        grown(base, g),
    ensures
        #[trigger] grown(base, sorted_with_ties(m, g, id, input, narrow, k, outputs, rank, axis, length, descending)),
{
    broadcast use {group_with, group_emitted};
}

broadcast proof fn lemma_grown_argsort_lowered(base: Graph, m: Meta, g: Graph, op: JsonView)
    requires
        grown(base, g),
    ensures
        #[trigger] grown(base, argsort_lowered(m, g, op).0),
{
    broadcast use {group_with, group_emitted, lemma_grown_sorted_with_ties};
}

broadcast proof fn lemma_grown_input_left_out(base: Graph, m: Meta, g: Graph, slot: Seq<char>, id: i64)
    requires
        grown(base, g),
    ensures
        #[trigger] grown(base, input_left_out(m, g, slot, id).0),
{
    broadcast use {group_with};

    reveal(input_left_out);
}

broadcast proof fn lemma_grown_sizes_joined(base: Graph, m: Meta, g: Graph, id: i64, input: i64, spatial: Seq<char>)
    requires
        grown(base, g),
    ensures
        #[trigger] grown(base, sizes_joined(m, g, id, input, spatial).0),
{
    broadcast use {group_with, group_emitted};

    reveal(sizes_joined);
}

broadcast proof fn lemma_grown_spatial_parts(base: Graph, m: Meta, g: Graph, id: i64, parts: Seq<i64>, k: nat)
    requires
        grown(base, g),
    ensures
        #[trigger] grown(base, spatial_parts(m, g, id, parts, k).0),
    decreases k,
{
    broadcast use {group_with, group_emitted};

    if k > 0 {
        lemma_grown_spatial_parts(base, m, g, id, parts, (k - 1) as nat);
    }
}

broadcast proof fn lemma_grown_sizes_by_list(base: Graph, m: Meta, g: Graph, id: i64, input: i64, list: i64)
    requires
        grown(base, g),
    ensures
        #[trigger] grown(base, sizes_by_list(m, g, id, input, list).0),
{
    broadcast use {group_with, lemma_grown_joined, lemma_grown_sizes_joined, lemma_grown_spatial_parts};
}

broadcast proof fn lemma_grown_resize_ended(base: Graph, m: Meta, g: Graph, op: JsonView, mode: Seq<char>, inputs: Seq<Seq<char>>, id: i64)
    requires
        grown(base, g),
    ensures
        #[trigger] grown(base, resize_ended(m, g, op, mode, inputs, id).0),
{
    broadcast use {group_with};
}

broadcast proof fn lemma_grown_resize_by_shape(base: Graph, m: Meta, g: Graph, op: JsonView, mode: Seq<char>, front: Seq<Seq<char>>, id: i64)
    requires
        grown(base, g),
    ensures
        #[trigger] grown(base, resize_by_shape(m, g, op, mode, front, id).0),
{
    broadcast use {group_with, group_emitted, lemma_grown_input_left_out, lemma_grown_sizes_joined, lemma_grown_resize_ended};
}

broadcast proof fn lemma_grown_resize_lowered(base: Graph, m: Meta, g: Graph, op: JsonView, mode: Seq<char>)
    requires
        grown(base, g),
    ensures
        #[trigger] grown(base, resize_lowered(m, g, op, mode).0),
{
    broadcast use {group_with, lemma_grown_input_left_out, lemma_grown_sizes_by_list, lemma_grown_resize_ended, lemma_grown_resize_by_shape};
}

broadcast proof fn lemma_grown_squeeze_lowered(base: Graph, m: Meta, g: Graph, op: JsonView)
    requires
        grown(base, g),
    ensures
        #[trigger] grown(base, squeeze_lowered(m, g, op).0),
{
    broadcast use {group_with, group_emitted};
}

broadcast proof fn lemma_grown_unsqueeze_lowered(base: Graph, m: Meta, g: Graph, op: JsonView)
    requires
        grown(base, g),
    ensures
        #[trigger] grown(base, unsqueeze_lowered(m, g, op).0),
{
    broadcast use {group_with, group_emitted};
}

broadcast proof fn lemma_grown_flatten_at_run(base: Graph, m: Meta, g: Graph, id: i64, input: Seq<char>, start: i64, stop: i64, rank: i64)
    requires
        grown(base, g),
    ensures
        #[trigger] grown(base, flatten_at_run(m, g, id, input, start, stop, rank).0),
{
    broadcast use {group_with, group_emitted, lemma_grown_joined, lemma_grown_shape_part};
}

broadcast proof fn lemma_grown_flatten_fixed(base: Graph, m: Meta, g: Graph, id: i64, input: Seq<char>, start: i64, sizes: Seq<i64>)
    requires
        grown(base, g),
    ensures
        #[trigger] grown(base, flatten_fixed(m, g, id, input, start, sizes).0),
{
    broadcast use {group_with, group_emitted};
}

broadcast proof fn lemma_grown_flatten_lowered(base: Graph, m: Meta, g: Graph, op: JsonView)
    requires
        grown(base, g),
    ensures
        #[trigger] grown(base, flatten_lowered(m, g, op).0),
{
    broadcast use {group_with, lemma_grown_flatten_at_run, lemma_grown_flatten_fixed};
}

broadcast proof fn lemma_grown_stacked_parts(base: Graph, m: Meta, g: Graph, id: i64, axis: i64, list: Seq<i64>, k: nat)
    requires
        grown(base, g),
    ensures
        #[trigger] grown(base, stacked_parts(m, g, id, axis, list, k).0),
    decreases k,
{
    broadcast use {group_with, group_emitted};

    if k > 0 {
        lemma_grown_stacked_parts(base, m, g, id, axis, list, (k - 1) as nat);
    }
}

broadcast proof fn lemma_grown_stack_lowered(base: Graph, m: Meta, g: Graph, op: JsonView)
    requires
        grown(base, g),
    ensures
        #[trigger] grown(base, stack_lowered(m, g, op).0),
{
    broadcast use {group_with, group_emitted, lemma_grown_stacked_parts};
}

broadcast proof fn lemma_grown_concat_lowered(base: Graph, m: Meta, g: Graph, op: JsonView)
    requires
        grown(base, g),
    ensures
        #[trigger] grown(base, concat_lowered(m, g, op).0),
{
    broadcast use {group_with, group_emitted};
}

broadcast proof fn lemma_grown_split_lowered(base: Graph, m: Meta, g: Graph, op_type: Seq<char>, op: JsonView)
    requires
        grown(base, g),
    ensures
        #[trigger] grown(base, split_lowered(m, g, op_type, op).0),
{
    broadcast use {group_with};
}

broadcast proof fn lemma_grown_axis_flipped(base: Graph, m: Meta, g: Graph, id: i64, current: Seq<char>, dims: Seq<i64>, axis: int, index: nat, last: bool)
    requires
        grown(base, g),
    ensures
        #[trigger] grown(base, axis_flipped(m, g, id, current, dims, axis, index, last).0),
{
    broadcast use {group_with, group_emitted};

    reveal(axis_flipped);
}

broadcast proof fn lemma_grown_axes_flipped(base: Graph, m: Meta, g: Graph, id: i64, start: Seq<char>, dims: Seq<i64>, axes: Seq<int>, k: nat)
    requires
        grown(base, g),
    ensures
        #[trigger] grown(base, axes_flipped(m, g, id, start, dims, axes, k).0),
    decreases k,
{
    broadcast use {group_with, lemma_grown_axis_flipped};

    if k > 0 {
        lemma_grown_axes_flipped(base, m, g, id, start, dims, axes, (k - 1) as nat);
    }
}

broadcast proof fn lemma_grown_flip_lowered(base: Graph, m: Meta, g: Graph, op: JsonView)
    requires
        grown(base, g),
    ensures
        #[trigger] grown(base, flip_lowered(m, g, op).0),
{
    broadcast use {group_with, lemma_grown_axes_flipped};
}

broadcast proof fn lemma_grown_cumsum_lowered(base: Graph, m: Meta, g: Graph, op: JsonView)
    requires
        grown(base, g),
    ensures
        #[trigger] grown(base, cumsum_lowered(m, g, op).0),
{
    broadcast use {group_with};
}

broadcast proof fn lemma_grown_einsum_lowered(base: Graph, m: Meta, g: Graph, op: JsonView)
    requires
        grown(base, g),
    ensures
        #[trigger] grown(base, einsum_lowered(m, g, op).0),
{
    broadcast use {group_with};
}

broadcast proof fn lemma_grown_grid_shapes(base: Graph, m: Meta, g: Graph, id: i64, parts: Seq<i64>, k: nat)
    requires
        grown(base, g),
    ensures
        #[trigger] grown(base, grid_shapes(m, g, id, parts, k).0),
    decreases k,
{
    broadcast use {group_with, group_emitted};

    if k > 0 {
        lemma_grown_grid_shapes(base, m, g, id, parts, (k - 1) as nat);
    }
}

broadcast proof fn lemma_grown_grid_spread(base: Graph, m: Meta, g: Graph, id: i64, parts: Seq<i64>, outs: Seq<i64>, k: nat)
    requires
        grown(base, g),
    ensures
        #[trigger] grown(base, grid_spread(m, g, id, parts, outs, k).0),
    decreases k,
{
    broadcast use {group_with, group_emitted};

    if k > 0 {
        lemma_grown_grid_spread(base, m, g, id, parts, outs, (k - 1) as nat);
    }
}

broadcast proof fn lemma_grown_meshgrid_lowered(base: Graph, m: Meta, g: Graph, op: JsonView)
    requires
        grown(base, g),
    ensures
        #[trigger] grown(base, meshgrid_lowered(m, g, op).0),
{
    broadcast use {group_with, group_emitted, lemma_grown_grid_shapes, lemma_grown_grid_spread};
}

broadcast group group_emitted {
    lemma_grown_ints_added,
    lemma_grown_singles_added,
    lemma_grown_numbers_added,
    lemma_grown_cast_added,
    lemma_grown_binary_added,
    lemma_grown_unary_added,
    lemma_grown_ternary_added,
    lemma_grown_vector_added,
    lemma_grown_gather_added,
    lemma_grown_scatter_added,
    lemma_grown_concat_added,
    lemma_grown_topk_added,
    lemma_grown_unsqueeze_added,
    lemma_grown_squeeze_added,
    lemma_grown_slice_added,
    lemma_grown_reduce_added,
}

proof fn lemma_flat_grows(m: Meta, g: Graph, handler: Handler, kind: Seq<char>, op: JsonView)
    requires
        handler != Handler::Data,
        handler != Handler::Fetch,
    ensures
        grown(g, flat_lowered(m, g, handler, kind, op).1),
{
    broadcast use {group_with, lemma_grown_multiply_lowered, lemma_grown_matmul_lowered, lemma_grown_scale_lowered, lemma_grown_swish_lowered, lemma_grown_generic_lowered, lemma_grown_hardswish_lowered, lemma_grown_gelu_lowered, lemma_grown_prelu_lowered, lemma_grown_floor_divide_lowered, lemma_grown_grid_sample_lowered, lemma_grown_trilu_lowered, lemma_grown_pow_lowered, lemma_grown_leaky_relu_lowered, lemma_grown_linear_lowered, lemma_grown_multinomial_lowered, lemma_grown_unbind_lowered, lemma_grown_bitwise_not_lowered, lemma_grown_bitwise_and_lowered, lemma_grown_dropout_lowered, lemma_grown_index_put_lowered, lemma_grown_set_value_lowered, lemma_grown_set_value_with_tensor_lowered, lemma_grown_repeat_interleave_lowered, lemma_grown_put_along_axis_lowered, lemma_grown_expand_lowered, lemma_grown_assign_value_lowered, lemma_grown_full_lowered, lemma_grown_cast_lowered, lemma_grown_arange_lowered, lemma_grown_clip_lowered, lemma_grown_full_like_lowered, lemma_grown_full_with_tensor_lowered, lemma_grown_slice_lowered, lemma_grown_strided_slice_lowered, lemma_grown_any_all_lowered, lemma_grown_one_hot_lowered, lemma_grown_conv2d_transpose_lowered, lemma_grown_pool2d_lowered, lemma_grown_gather_lowered, lemma_grown_gather_nd_lowered, lemma_grown_index_select_lowered, lemma_grown_take_along_axis_lowered, lemma_grown_embedding_lowered, lemma_grown_eye_lowered, lemma_grown_not_equal_lowered, lemma_grown_nms_lowered, lemma_grown_batch_norm_lowered, lemma_grown_group_norm_lowered, lemma_grown_tile_lowered, lemma_grown_pad_lowered, lemma_grown_pad3d_lowered, lemma_grown_roll_lowered, lemma_grown_reduction_lowered, lemma_grown_sum_lowered, lemma_grown_topk_lowered, lemma_grown_argmax_lowered, lemma_grown_argsort_lowered, lemma_grown_resize_lowered, lemma_grown_squeeze_lowered, lemma_grown_unsqueeze_lowered, lemma_grown_flatten_lowered, lemma_grown_stack_lowered, lemma_grown_concat_lowered, lemma_grown_split_lowered, lemma_grown_flip_lowered, lemma_grown_cumsum_lowered, lemma_grown_einsum_lowered, lemma_grown_meshgrid_lowered};

}

/// The non-empty names that the nodes before position `k` produce.
spec fn names_made(list: Seq<Node>, k: nat) -> Set<Seq<char>>
    decreases k,
{
    if k == 0 {
        Set::empty()
    } else {
        names_made(list, (k - 1) as nat).union(list[k - 1].output.to_set())
    }
}

proof fn lemma_names_made(list: Seq<Node>, k: nat)
    requires
        k <= list.len(),
    ensures
        names_made(list, k).finite(),
        forall|i: int, name: Seq<char>|
            0 <= i < k && #[trigger] list[i].output.contains(name) ==> names_made(list, k).contains(
                name,
            ),
    decreases k,
{
    if k > 0 {
        lemma_names_made(list, (k - 1) as nat);
        vstd::seq_lib::seq_to_set_is_finite(list[k - 1].output);
        assert forall|i: int, name: Seq<char>|
            0 <= i < k && #[trigger] list[i].output.contains(name) implies names_made(
            list,
            k,
        ).contains(name) by {
            if i == k - 1 {
                assert(list[k - 1].output.to_set().contains(name));
            }
        }
    }
}

/// The name that an output is given is not yet the name of an output, or of what a node produces.
pub proof fn law_output_name_free(g: Graph, op: JsonView)
    ensures
        !output_taken(g, output_name(g, op)),
{
    let base = match given_name(op) {
        Some(name) => name,
        None => "fetch_"@ + dec(g.output.len() as int),
    };
    if output_taken(g, base) {
        let used = Set::new(|name: Seq<char>| name.len() > 0 && output_taken(g, name));
        let listed = Seq::new(g.output.len(), |i: int| g.output[i].name);
        let all = listed.to_set().union(names_made(g.node, g.node.len()));
        lemma_names_made(g.node, g.node.len());
        vstd::seq_lib::seq_to_set_is_finite(listed);
        assert(used.subset_of(all)) by {
            assert forall|name: Seq<char>| used.contains(name) implies all.contains(name) by {
                if value_named(g.output, name) {
                    let i = choose|i: int|
                        0 <= i < g.output.len() && #[trigger] g.output[i].name == name;
                    assert(listed[i] == name);
                    assert(listed.contains(name));
                }
            }
        }
        vstd::set_lib::lemma_set_subset_finite(all, used);
        lemma_free_name(used, base, 1);
    }
}

/// Whether no two outputs of a graph have the same name.
pub open spec fn outputs_distinct(g: Graph) -> bool {
    forall|i: int, j: int|
        0 <= i < j < g.output.len() ==> (#[trigger] g.output[i]).name != (#[trigger] g.output[j]).name
}

/// Converting an operator only adds to a graph: what it had stays in place. Outputs that have
/// different names keep having different names.
pub proof fn law_op_appends(m: Meta, g: Graph, kind: Seq<char>, op: JsonView)
    ensures
        extended(g, op_converted(m, g, kind, op).1),
        outputs_distinct(g) ==> outputs_distinct(op_converted(m, g, kind, op).1),
{
    broadcast use {group_with, lemma_grown_if_lowered, lemma_grown_while_lowered,
        lemma_grown_generic_lowered, lemma_grown_unary_added};

    match handler_of(kind) {
        Some(handler) => {
            if handler == Handler::Data {
                reveal(Graph::with_graph_input);
            } else if handler == Handler::Fetch {
                law_output_name_free(g, op);
                lemma_fetch_appends(m, g, op);
            } else if handler != Handler::If && handler != Handler::While {
                lemma_flat_grows(m, g, handler, kind, op);
            } else {
                assert(grown(g, op_converted(m, g, kind, op).1));
            }
        },
        None => {
            assert(grown(g, op_converted(m, g, kind, op).1));
        },
    }
}

proof fn lemma_fetch_appends(m: Meta, g: Graph, op: JsonView)
    requires
        !output_taken(g, output_name(g, op)),
    ensures
        extended(g, fetch_lowered(m, g, op).0),
        outputs_distinct(g) ==> outputs_distinct(fetch_lowered(m, g, op).0),
{
    let name = output_name(g, op);
    if let Ok(info) = output_declared(m, op) {
        let h = g.with_graph_output(ValueInfo { name, ..info });
        reveal(Graph::with_graph_output);
        if input_ids(op).len() > 0 {
            if let Ok(input) = tensor_name(m, input_ids(op)[0]) {
                lemma_grown_same(h);
                lemma_grown_unary_added(h, h, "Identity"@, input, name);
            }
        }
        assert(forall|i: int| 0 <= i < g.output.len() ==> (#[trigger] g.output[i]).name != name);
    }
}

/// Converting operators only adds to a graph, in whatever order they come and whether or not one
/// fails. Outputs that have different names keep having different names.
pub proof fn law_ops_append(m: Meta, g: Graph, ops: Seq<JsonView>, k: nat)
    ensures
        extended(g, ops_converted(m, g, ops, k).1),
        outputs_distinct(g) ==> outputs_distinct(ops_converted(m, g, ops, k).1),
    decreases k,
{
    if 0 < k <= ops.len() {
        law_ops_append(m, g, ops, (k - 1) as nat);
        let (m1, g1, r1) = ops_converted(m, g, ops, (k - 1) as nat);
        if let Some(kind) = type_of(ops[k - 1]) {
            law_op_appends(m1, g1, kind, ops[k - 1]);
        }
    }
}

/// Loading a model only adds to a graph. Outputs that have different names keep having different
/// names.
pub proof fn law_load_appends(m: Meta, g: Graph, data: JsonView)
    ensures
        extended(g, model_loaded(m, g, data).1),
        outputs_distinct(g) ==> outputs_distinct(model_loaded(m, g, data).1),
{
    if let Some(ops) = model_ops(data) {
        let (m1, r) = ops_collected(m, ops, ops.len());
        law_ops_append(
            Meta { param_names: in_order(m1.param_names), ..m1 },
            g,
            ops,
            ops.len(),
        );
    }
}

} // verus!
