//! Which lowering an operator gets.

use crate::converter::ops::array::{
    arange_lowered, assign_value_lowered, cast_lowered, clip_lowered, expand_lowered,
    full_like_lowered, full_lowered, full_with_tensor_lowered, slice_lowered, strided_slice_lowered,
};
use crate::converter::ops::bitwise::{bitwise_and_lowered, bitwise_not_lowered};
use crate::converter::ops::control::{any_all_lowered, one_hot_lowered};
use crate::converter::ops::conv::{conv2d_transpose_lowered, pool2d_lowered};
use crate::converter::ops::indexing::{
    embedding_lowered, eye_lowered, gather_lowered, gather_nd_lowered, index_select_lowered,
    not_equal_lowered, take_along_axis_lowered,
};
use crate::converter::ops::math::{
    floor_divide_lowered, gelu_lowered, grid_sample_lowered, hardswish_lowered, leaky_relu_lowered,
    linear_lowered, matmul_lowered, multinomial_lowered, multiply_lowered, pow_lowered,
    prelu_lowered, scale_lowered, swish_lowered, trilu_lowered, unbind_lowered,
};
use crate::converter::ops::misc::{MetaStep, data_lowered, dropout_lowered, fetch_lowered, keeping};
use crate::converter::ops::nms::{nms_lowered};
use crate::converter::ops::norm::{batch_norm_lowered, group_norm_lowered};
use crate::converter::ops::pad::{pad3d_lowered, pad_lowered, roll_lowered, tile_lowered};
use crate::converter::ops::reduce::{
    argmax_lowered, argsort_lowered, reduction_lowered, sum_lowered, topk_lowered,
};
use crate::converter::ops::resize::{resize_lowered};
use crate::converter::ops::shape::{
    concat_lowered, flatten_lowered, split_lowered, squeeze_lowered, stack_lowered, stack_noted,
    unsqueeze_lowered,
};
use crate::converter::ops::transform::{
    cumsum_lowered, einsum_lowered, flip_lowered, meshgrid_lowered,
};
use crate::converter::ops::update::{
    index_put_lowered, put_along_axis_lowered, repeat_interleave_lowered, set_value_lowered,
    set_value_with_tensor_lowered,
};
use crate::converter::state::{Converter, Meta};
use crate::error::{outcome, Error};
use crate::json::{Json, JsonView};
use crate::onnx::Graph;
use crate::text::same;
use vstd::prelude::*;

verus! {

/// The operators that have a lowering of their own.
#[derive(Clone, Copy, PartialEq, Eq, Structural)]
pub enum Handler {
    Noop,
    Data,
    Fetch,
    Dropout,
    Full,
    AssignValue,
    Arange,
    Cast,
    Clip,
    Slice,
    StridedSlice,
    FullLike,
    Expand,
    FullWithTensor,
    Any,
    All,
    OneHot,
    If,
    While,
    ConvTranspose,
    Pool,
    Gather,
    GatherNd,
    IndexSelect,
    Embedding,
    Eye,
    TakeAlongAxis,
    NotEqual,
    Multiply,
    Matmul,
    Scale,
    Swish,
    Silu,
    Hardswish,
    Gelu,
    Prelu,
    FloorDivide,
    GridSample,
    Triu,
    Tril,
    Pow,
    LeakyRelu,
    Linear,
    Multinomial,
    Unbind,
    BitwiseNot,
    BitwiseAnd,
    MulticlassNms,
    BatchNorm,
    GroupNorm,
    Tile,
    Pad,
    Pad3d,
    Roll,
    Max,
    Mean,
    Prod,
    Min,
    Sum,
    Topk,
    Argmax,
    Argsort,
    NearestInterp,
    BilinearInterp,
    Squeeze,
    Unsqueeze,
    Flatten,
    Stack,
    Concat,
    Split,
    Flip,
    Cumsum,
    Einsum,
    Meshgrid,
    IndexPut,
    SetValue,
    SetValueWithTensor,
    RepeatInterleave,
    PutAlongAxis,
}

/// Which lowering an operator has, where it has one of its own. One that only describes values, or
/// ends a region, adds nothing to the graph.
pub open spec fn handler_of(kind: Seq<char>) -> Option<Handler> {
    if kind == "p"@ || kind == "0.combine"@ || kind == "0.split"@ || kind == "2.yield"@ {
        Some(Handler::Noop)
    } else if kind == "1.data"@ {
        Some(Handler::Data)
    } else if kind == "1.fetch"@ {
        Some(Handler::Fetch)
    } else if kind == "1.dropout"@ {
        Some(Handler::Dropout)
    } else if kind == "1.full"@ || kind == "1.full_int_array"@ {
        Some(Handler::Full)
    } else if kind == "1.assign_value_"@ {
        Some(Handler::AssignValue)
    } else if kind == "1.arange"@ {
        Some(Handler::Arange)
    } else if kind == "1.cast"@ {
        Some(Handler::Cast)
    } else if kind == "1.clip"@ {
        Some(Handler::Clip)
    } else if kind == "1.slice"@ {
        Some(Handler::Slice)
    } else if kind == "1.strided_slice"@ {
        Some(Handler::StridedSlice)
    } else if kind == "1.full_like"@ {
        Some(Handler::FullLike)
    } else if kind == "1.expand"@ {
        Some(Handler::Expand)
    } else if kind == "1.full_with_tensor"@ {
        Some(Handler::FullWithTensor)
    } else if kind == "1.any"@ {
        Some(Handler::Any)
    } else if kind == "1.all"@ {
        Some(Handler::All)
    } else if kind == "1.one_hot"@ {
        Some(Handler::OneHot)
    } else if kind == "1.if"@ {
        Some(Handler::If)
    } else if kind == "1.while"@ {
        Some(Handler::While)
    } else if kind == "1.conv2d_transpose"@ {
        Some(Handler::ConvTranspose)
    } else if kind == "1.pool2d"@ {
        Some(Handler::Pool)
    } else if kind == "1.gather"@ {
        Some(Handler::Gather)
    } else if kind == "1.gather_nd"@ {
        Some(Handler::GatherNd)
    } else if kind == "1.index_select"@ {
        Some(Handler::IndexSelect)
    } else if kind == "1.embedding"@ {
        Some(Handler::Embedding)
    } else if kind == "1.eye"@ {
        Some(Handler::Eye)
    } else if kind == "1.take_along_axis"@ {
        Some(Handler::TakeAlongAxis)
    } else if kind == "1.not_equal"@ {
        Some(Handler::NotEqual)
    } else if kind == "1.multiply"@ {
        Some(Handler::Multiply)
    } else if kind == "1.matmul"@ {
        Some(Handler::Matmul)
    } else if kind == "1.scale"@ {
        Some(Handler::Scale)
    } else if kind == "1.swish"@ {
        Some(Handler::Swish)
    } else if kind == "1.silu"@ {
        Some(Handler::Silu)
    } else if kind == "1.hardswish"@ {
        Some(Handler::Hardswish)
    } else if kind == "1.gelu"@ {
        Some(Handler::Gelu)
    } else if kind == "1.prelu"@ {
        Some(Handler::Prelu)
    } else if kind == "1.floor_divide"@ {
        Some(Handler::FloorDivide)
    } else if kind == "1.grid_sample"@ {
        Some(Handler::GridSample)
    } else if kind == "1.triu"@ {
        Some(Handler::Triu)
    } else if kind == "1.tril"@ {
        Some(Handler::Tril)
    } else if kind == "1.pow"@ {
        Some(Handler::Pow)
    } else if kind == "1.leaky_relu"@ {
        Some(Handler::LeakyRelu)
    } else if kind == "1.linear_v2"@ {
        Some(Handler::Linear)
    } else if kind == "1.multinomial"@ {
        Some(Handler::Multinomial)
    } else if kind == "1.unbind"@ {
        Some(Handler::Unbind)
    } else if kind == "1.bitwise_not"@ {
        Some(Handler::BitwiseNot)
    } else if kind == "1.bitwise_and"@ {
        Some(Handler::BitwiseAnd)
    } else if kind == "1.multiclass_nms3"@ {
        Some(Handler::MulticlassNms)
    } else if kind == "1.batch_norm_"@ {
        Some(Handler::BatchNorm)
    } else if kind == "1.group_norm"@ {
        Some(Handler::GroupNorm)
    } else if kind == "1.tile"@ {
        Some(Handler::Tile)
    } else if kind == "1.pad"@ {
        Some(Handler::Pad)
    } else if kind == "1.pad3d"@ {
        Some(Handler::Pad3d)
    } else if kind == "1.roll"@ {
        Some(Handler::Roll)
    } else if kind == "1.max"@ {
        Some(Handler::Max)
    } else if kind == "1.mean"@ {
        Some(Handler::Mean)
    } else if kind == "1.prod"@ {
        Some(Handler::Prod)
    } else if kind == "1.min"@ {
        Some(Handler::Min)
    } else if kind == "1.sum"@ {
        Some(Handler::Sum)
    } else if kind == "1.topk"@ {
        Some(Handler::Topk)
    } else if kind == "1.argmax"@ {
        Some(Handler::Argmax)
    } else if kind == "1.argsort"@ {
        Some(Handler::Argsort)
    } else if kind == "1.nearest_interp"@ {
        Some(Handler::NearestInterp)
    } else if kind == "1.bilinear_interp"@ {
        Some(Handler::BilinearInterp)
    } else if kind == "1.squeeze"@ || kind == "1.squeeze_"@ {
        Some(Handler::Squeeze)
    } else if kind == "1.unsqueeze"@ || kind == "1.unsqueeze_"@ {
        Some(Handler::Unsqueeze)
    } else if kind == "1.flatten"@ {
        Some(Handler::Flatten)
    } else if kind == "1.stack"@ {
        Some(Handler::Stack)
    } else if kind == "1.concat"@ {
        Some(Handler::Concat)
    } else if kind == "1.split"@ || kind == "1.split_with_num"@ {
        Some(Handler::Split)
    } else if kind == "1.flip"@ {
        Some(Handler::Flip)
    } else if kind == "1.cumsum"@ {
        Some(Handler::Cumsum)
    } else if kind == "1.einsum"@ {
        Some(Handler::Einsum)
    } else if kind == "1.meshgrid"@ {
        Some(Handler::Meshgrid)
    } else if kind == "1.index_put"@ || kind == "1.index_put_"@ {
        Some(Handler::IndexPut)
    } else if kind == "1.set_value_"@ {
        Some(Handler::SetValue)
    } else if kind == "1.set_value_with_tensor_"@ {
        Some(Handler::SetValueWithTensor)
    } else if kind == "1.repeat_interleave"@ || kind == "1.repeat_interleave_with_tensor_index"@ {
        Some(Handler::RepeatInterleave)
    } else if kind == "1.put_along_axis"@ {
        Some(Handler::PutAlongAxis)
    } else {
        None
    }
}

/// The lowering of `stack`, which also notes the parts.
pub open spec fn stack_step(m: Meta, g: Graph, op: JsonView) -> MetaStep {
    let step = stack_lowered(m, g, op);
    (stack_noted(m, op), step.0, step.1)
}

/// The step of an operator that nests no graph.
pub open spec fn flat_lowered(m: Meta, g: Graph, handler: Handler, kind: Seq<char>, op: JsonView) -> MetaStep {
    match handler {
        Handler::Noop => (m, g, Ok(())),
        Handler::Data => data_lowered(m, g, op),
        Handler::Fetch => keeping(m, fetch_lowered(m, g, op)),
        Handler::Dropout => keeping(m, dropout_lowered(m, g, op)),
        Handler::Full => keeping(m, full_lowered(m, g, kind, op)),
        Handler::AssignValue => keeping(m, assign_value_lowered(m, g, op)),
        Handler::Arange => keeping(m, arange_lowered(m, g, op)),
        Handler::Cast => keeping(m, cast_lowered(m, g, op)),
        Handler::Clip => keeping(m, clip_lowered(m, g, op)),
        Handler::Slice => keeping(m, slice_lowered(m, g, op)),
        Handler::StridedSlice => keeping(m, strided_slice_lowered(m, g, op)),
        Handler::FullLike => keeping(m, full_like_lowered(m, g, op)),
        Handler::Expand => keeping(m, expand_lowered(m, g, op)),
        Handler::FullWithTensor => keeping(m, full_with_tensor_lowered(m, g, op)),
        Handler::Any => keeping(m, any_all_lowered(m, g, op, true)),
        Handler::All => keeping(m, any_all_lowered(m, g, op, false)),
        Handler::OneHot => keeping(m, one_hot_lowered(m, g, op)),
        Handler::If => (m, g, Ok(())),
        Handler::While => (m, g, Ok(())),
        Handler::ConvTranspose => keeping(m, conv2d_transpose_lowered(m, g, op)),
        Handler::Pool => keeping(m, pool2d_lowered(m, g, op)),
        Handler::Gather => keeping(m, gather_lowered(m, g, op)),
        Handler::GatherNd => keeping(m, gather_nd_lowered(m, g, op)),
        Handler::IndexSelect => keeping(m, index_select_lowered(m, g, op)),
        Handler::Embedding => keeping(m, embedding_lowered(m, g, op)),
        Handler::Eye => keeping(m, eye_lowered(m, g, op)),
        Handler::TakeAlongAxis => keeping(m, take_along_axis_lowered(m, g, op)),
        Handler::NotEqual => keeping(m, not_equal_lowered(m, g, op)),
        Handler::Multiply => keeping(m, multiply_lowered(m, g, op)),
        Handler::Matmul => keeping(m, matmul_lowered(m, g, op)),
        Handler::Scale => keeping(m, scale_lowered(m, g, op)),
        Handler::Swish => keeping(m, swish_lowered(m, g, op)),
        Handler::Silu => keeping(m, swish_lowered(m, g, op)),
        Handler::Hardswish => keeping(m, hardswish_lowered(m, g, op)),
        Handler::Gelu => keeping(m, gelu_lowered(m, g, op)),
        Handler::Prelu => keeping(m, prelu_lowered(m, g, op)),
        Handler::FloorDivide => keeping(m, floor_divide_lowered(m, g, op)),
        Handler::GridSample => keeping(m, grid_sample_lowered(m, g, op)),
        Handler::Triu => keeping(m, trilu_lowered(m, g, op, true)),
        Handler::Tril => keeping(m, trilu_lowered(m, g, op, false)),
        Handler::Pow => keeping(m, pow_lowered(m, g, op)),
        Handler::LeakyRelu => keeping(m, leaky_relu_lowered(m, g, op)),
        Handler::Linear => keeping(m, linear_lowered(m, g, op)),
        Handler::Multinomial => multinomial_lowered(m, g, op),
        Handler::Unbind => keeping(m, unbind_lowered(m, g, op)),
        Handler::BitwiseNot => keeping(m, bitwise_not_lowered(m, g, op)),
        Handler::BitwiseAnd => keeping(m, bitwise_and_lowered(m, g, op)),
        Handler::MulticlassNms => keeping(m, nms_lowered(m, g, op)),
        Handler::BatchNorm => keeping(m, batch_norm_lowered(m, g, op)),
        Handler::GroupNorm => keeping(m, group_norm_lowered(m, g, op)),
        Handler::Tile => keeping(m, tile_lowered(m, g, op)),
        Handler::Pad => keeping(m, pad_lowered(m, g, op)),
        Handler::Pad3d => keeping(m, pad3d_lowered(m, g, op)),
        Handler::Roll => keeping(m, roll_lowered(m, g, op)),
        Handler::Max => keeping(m, reduction_lowered(m, g, op, "max missing inputs"@, "ReduceMax"@, "reduce_max"@)),
        Handler::Mean => keeping(m, reduction_lowered(m, g, op, "mean missing inputs"@, "ReduceMean"@, "reduce_mean"@)),
        Handler::Prod => keeping(m, reduction_lowered(m, g, op, "prod missing inputs"@, "ReduceProd"@, "reduce_prod"@)),
        Handler::Min => keeping(m, reduction_lowered(m, g, op, "min missing inputs"@, "ReduceMin"@, "reduce_min"@)),
        Handler::Sum => keeping(m, sum_lowered(m, g, op)),
        Handler::Topk => keeping(m, topk_lowered(m, g, op)),
        Handler::Argmax => keeping(m, argmax_lowered(m, g, op)),
        Handler::Argsort => keeping(m, argsort_lowered(m, g, op)),
        Handler::NearestInterp => keeping(m, resize_lowered(m, g, op, "nearest"@)),
        Handler::BilinearInterp => keeping(m, resize_lowered(m, g, op, "linear"@)),
        Handler::Squeeze => keeping(m, squeeze_lowered(m, g, op)),
        Handler::Unsqueeze => keeping(m, unsqueeze_lowered(m, g, op)),
        Handler::Flatten => keeping(m, flatten_lowered(m, g, op)),
        Handler::Stack => stack_step(m, g, op),
        Handler::Concat => keeping(m, concat_lowered(m, g, op)),
        Handler::Split => keeping(m, split_lowered(m, g, kind, op)),
        Handler::Flip => keeping(m, flip_lowered(m, g, op)),
        Handler::Cumsum => keeping(m, cumsum_lowered(m, g, op)),
        Handler::Einsum => keeping(m, einsum_lowered(m, g, op)),
        Handler::Meshgrid => keeping(m, meshgrid_lowered(m, g, op)),
        Handler::IndexPut => keeping(m, index_put_lowered(m, g, op)),
        Handler::SetValue => keeping(m, set_value_lowered(m, g, op)),
        Handler::SetValueWithTensor => keeping(m, set_value_with_tensor_lowered(m, g, op)),
        Handler::RepeatInterleave => keeping(m, repeat_interleave_lowered(m, g, op)),
        Handler::PutAlongAxis => keeping(m, put_along_axis_lowered(m, g, op)),
    }
}

/// Which lowering an operator has, where it has one of its own.
pub fn find_handler(kind: &str) -> (r: Option<Handler>)
    ensures
        r == handler_of(kind@),
{
    if same(kind, "p") || same(kind, "0.combine") || same(kind, "0.split") || same(kind, "2.yield") {
        Some(Handler::Noop)
    } else if same(kind, "1.data") {
        Some(Handler::Data)
    } else if same(kind, "1.fetch") {
        Some(Handler::Fetch)
    } else if same(kind, "1.dropout") {
        Some(Handler::Dropout)
    } else if same(kind, "1.full") || same(kind, "1.full_int_array") {
        Some(Handler::Full)
    } else if same(kind, "1.assign_value_") {
        Some(Handler::AssignValue)
    } else if same(kind, "1.arange") {
        Some(Handler::Arange)
    } else if same(kind, "1.cast") {
        Some(Handler::Cast)
    } else if same(kind, "1.clip") {
        Some(Handler::Clip)
    } else if same(kind, "1.slice") {
        Some(Handler::Slice)
    } else if same(kind, "1.strided_slice") {
        Some(Handler::StridedSlice)
    } else if same(kind, "1.full_like") {
        Some(Handler::FullLike)
    } else if same(kind, "1.expand") {
        Some(Handler::Expand)
    } else if same(kind, "1.full_with_tensor") {
        Some(Handler::FullWithTensor)
    } else if same(kind, "1.any") {
        Some(Handler::Any)
    } else if same(kind, "1.all") {
        Some(Handler::All)
    } else if same(kind, "1.one_hot") {
        Some(Handler::OneHot)
    } else if same(kind, "1.if") {
        Some(Handler::If)
    } else if same(kind, "1.while") {
        Some(Handler::While)
    } else if same(kind, "1.conv2d_transpose") {
        Some(Handler::ConvTranspose)
    } else if same(kind, "1.pool2d") {
        Some(Handler::Pool)
    } else if same(kind, "1.gather") {
        Some(Handler::Gather)
    } else if same(kind, "1.gather_nd") {
        Some(Handler::GatherNd)
    } else if same(kind, "1.index_select") {
        Some(Handler::IndexSelect)
    } else if same(kind, "1.embedding") {
        Some(Handler::Embedding)
    } else if same(kind, "1.eye") {
        Some(Handler::Eye)
    } else if same(kind, "1.take_along_axis") {
        Some(Handler::TakeAlongAxis)
    } else if same(kind, "1.not_equal") {
        Some(Handler::NotEqual)
    } else if same(kind, "1.multiply") {
        Some(Handler::Multiply)
    } else if same(kind, "1.matmul") {
        Some(Handler::Matmul)
    } else if same(kind, "1.scale") {
        Some(Handler::Scale)
    } else if same(kind, "1.swish") {
        Some(Handler::Swish)
    } else if same(kind, "1.silu") {
        Some(Handler::Silu)
    } else if same(kind, "1.hardswish") {
        Some(Handler::Hardswish)
    } else if same(kind, "1.gelu") {
        Some(Handler::Gelu)
    } else if same(kind, "1.prelu") {
        Some(Handler::Prelu)
    } else if same(kind, "1.floor_divide") {
        Some(Handler::FloorDivide)
    } else if same(kind, "1.grid_sample") {
        Some(Handler::GridSample)
    } else if same(kind, "1.triu") {
        Some(Handler::Triu)
    } else if same(kind, "1.tril") {
        Some(Handler::Tril)
    } else if same(kind, "1.pow") {
        Some(Handler::Pow)
    } else if same(kind, "1.leaky_relu") {
        Some(Handler::LeakyRelu)
    } else if same(kind, "1.linear_v2") {
        Some(Handler::Linear)
    } else if same(kind, "1.multinomial") {
        Some(Handler::Multinomial)
    } else if same(kind, "1.unbind") {
        Some(Handler::Unbind)
    } else if same(kind, "1.bitwise_not") {
        Some(Handler::BitwiseNot)
    } else if same(kind, "1.bitwise_and") {
        Some(Handler::BitwiseAnd)
    } else if same(kind, "1.multiclass_nms3") {
        Some(Handler::MulticlassNms)
    } else if same(kind, "1.batch_norm_") {
        Some(Handler::BatchNorm)
    } else if same(kind, "1.group_norm") {
        Some(Handler::GroupNorm)
    } else if same(kind, "1.tile") {
        Some(Handler::Tile)
    } else if same(kind, "1.pad") {
        Some(Handler::Pad)
    } else if same(kind, "1.pad3d") {
        Some(Handler::Pad3d)
    } else if same(kind, "1.roll") {
        Some(Handler::Roll)
    } else if same(kind, "1.max") {
        Some(Handler::Max)
    } else if same(kind, "1.mean") {
        Some(Handler::Mean)
    } else if same(kind, "1.prod") {
        Some(Handler::Prod)
    } else if same(kind, "1.min") {
        Some(Handler::Min)
    } else if same(kind, "1.sum") {
        Some(Handler::Sum)
    } else if same(kind, "1.topk") {
        Some(Handler::Topk)
    } else if same(kind, "1.argmax") {
        Some(Handler::Argmax)
    } else if same(kind, "1.argsort") {
        Some(Handler::Argsort)
    } else if same(kind, "1.nearest_interp") {
        Some(Handler::NearestInterp)
    } else if same(kind, "1.bilinear_interp") {
        Some(Handler::BilinearInterp)
    } else if same(kind, "1.squeeze") || same(kind, "1.squeeze_") {
        Some(Handler::Squeeze)
    } else if same(kind, "1.unsqueeze") || same(kind, "1.unsqueeze_") {
        Some(Handler::Unsqueeze)
    } else if same(kind, "1.flatten") {
        Some(Handler::Flatten)
    } else if same(kind, "1.stack") {
        Some(Handler::Stack)
    } else if same(kind, "1.concat") {
        Some(Handler::Concat)
    } else if same(kind, "1.split") || same(kind, "1.split_with_num") {
        Some(Handler::Split)
    } else if same(kind, "1.flip") {
        Some(Handler::Flip)
    } else if same(kind, "1.cumsum") {
        Some(Handler::Cumsum)
    } else if same(kind, "1.einsum") {
        Some(Handler::Einsum)
    } else if same(kind, "1.meshgrid") {
        Some(Handler::Meshgrid)
    } else if same(kind, "1.index_put") || same(kind, "1.index_put_") {
        Some(Handler::IndexPut)
    } else if same(kind, "1.set_value_") {
        Some(Handler::SetValue)
    } else if same(kind, "1.set_value_with_tensor_") {
        Some(Handler::SetValueWithTensor)
    } else if same(kind, "1.repeat_interleave") || same(kind, "1.repeat_interleave_with_tensor_index") {
        Some(Handler::RepeatInterleave)
    } else if same(kind, "1.put_along_axis") {
        Some(Handler::PutAlongAxis)
    } else {
        None
    }
}

impl Converter {
    /// Lowers an operator that nests no graph.
    pub fn lower_flat(&mut self, handler: Handler, kind: &str, op: &Json) -> (r: Result<(), Error>)
        ensures
            (final(self).meta(), final(self).onnx_graph@, outcome(r)) == flat_lowered(
                old(self).meta(),
                old(self).onnx_graph@,
                handler,
                kind@,
                op@,
            ),
    {
        match handler {
            Handler::Noop => Ok(()),
            Handler::Data => self.op_data(op),
            Handler::Fetch => self.op_fetch(op),
            Handler::Dropout => self.op_dropout(op),
            Handler::Full => self.op_full(kind, op),
            Handler::AssignValue => self.op_assign_value(op),
            Handler::Arange => self.op_arange(op),
            Handler::Cast => self.op_cast(op),
            Handler::Clip => self.op_clip(op),
            Handler::Slice => self.op_slice(op),
            Handler::StridedSlice => self.op_strided_slice(op),
            Handler::FullLike => self.op_full_like(op),
            Handler::Expand => self.op_expand(op),
            Handler::FullWithTensor => self.op_full_with_tensor(op),
            Handler::Any => self.op_any_all(op, true),
            Handler::All => self.op_any_all(op, false),
            Handler::OneHot => self.op_one_hot(op),
            Handler::If => Ok(()),
            Handler::While => Ok(()),
            Handler::ConvTranspose => self.op_conv2d_transpose(op),
            Handler::Pool => self.op_pool2d(op),
            Handler::Gather => self.op_gather(op),
            Handler::GatherNd => self.op_gather_nd(op),
            Handler::IndexSelect => self.op_index_select(op),
            Handler::Embedding => self.op_embedding(op),
            Handler::Eye => self.op_eye(op),
            Handler::TakeAlongAxis => self.op_take_along_axis(op),
            Handler::NotEqual => self.op_not_equal(op),
            Handler::Multiply => self.op_multiply(op),
            Handler::Matmul => self.op_matmul(op),
            Handler::Scale => self.op_scale(op),
            Handler::Swish => self.op_swish(op),
            Handler::Silu => self.op_silu(op),
            Handler::Hardswish => self.op_hardswish(op),
            Handler::Gelu => self.op_gelu(op),
            Handler::Prelu => self.op_prelu(op),
            Handler::FloorDivide => self.op_floor_divide(op),
            Handler::GridSample => self.op_grid_sample(op),
            Handler::Triu => self.op_trilu(op, true),
            Handler::Tril => self.op_trilu(op, false),
            Handler::Pow => self.op_pow(op),
            Handler::LeakyRelu => self.op_leaky_relu(op),
            Handler::Linear => self.op_linear_v2(op),
            Handler::Multinomial => self.op_multinomial(op),
            Handler::Unbind => self.op_unbind(op),
            Handler::BitwiseNot => self.op_bitwise_not(op),
            Handler::BitwiseAnd => self.op_bitwise_and(op),
            Handler::MulticlassNms => self.op_multiclass_nms3(op),
            Handler::BatchNorm => self.op_batch_norm(op),
            Handler::GroupNorm => self.op_group_norm(op),
            Handler::Tile => self.op_tile(op),
            Handler::Pad => self.op_pad(op),
            Handler::Pad3d => self.op_pad3d(op),
            Handler::Roll => self.op_roll(op),
            Handler::Max => self.op_reduce_max(op),
            Handler::Mean => self.op_reduce_mean(op),
            Handler::Prod => self.op_reduce_prod(op),
            Handler::Min => self.op_reduce_min(op),
            Handler::Sum => self.op_reduce_sum(op),
            Handler::Topk => self.op_topk(op),
            Handler::Argmax => self.op_argmax(op),
            Handler::Argsort => self.op_argsort(op),
            Handler::NearestInterp => self.op_nearest_interp(op),
            Handler::BilinearInterp => self.op_bilinear_interp(op),
            Handler::Squeeze => self.op_squeeze(op),
            Handler::Unsqueeze => self.op_unsqueeze(op),
            Handler::Flatten => self.op_flatten(op),
            Handler::Stack => self.op_stack(op),
            Handler::Concat => self.op_concat(op),
            Handler::Split => self.op_split_family(kind, op),
            Handler::Flip => self.op_flip(op),
            Handler::Cumsum => self.op_cumsum(op),
            Handler::Einsum => self.op_einsum(op),
            Handler::Meshgrid => self.op_meshgrid(op),
            Handler::IndexPut => self.op_index_put(op),
            Handler::SetValue => self.op_set_value(op),
            Handler::SetValueWithTensor => self.op_set_value_with_tensor(op),
            Handler::RepeatInterleave => self.op_repeat_interleave(op),
            Handler::PutAlongAxis => self.op_put_along_axis(op),
        }
    }
}

} // verus!
