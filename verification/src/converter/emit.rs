//! The nodes and constants that lowerings share.

use crate::bytes::{encode_words, le_bytes, to_le, word_bytes};
use crate::converter::state::Converter;
use crate::dtype::{
    dtype_name, onnx_dtype_name, BOOL, DOUBLE, FLOAT, FLOAT16, INT16, INT32, INT64, INT8, UINT8,
};
use crate::error::{message, outcome, ConstantFault, Error, ErrorView};
use crate::float::{
    above, as_i64, below, finite, finite_half, finite_single, integral, is_above, is_above_i64,
    is_below, is_below_i64, is_finite, is_finite_half, is_finite_single, is_integral, is_nan,
    is_zero, nan, narrow, narrow_half, to_half, to_i64, to_single, zero,
};
use crate::onnx::{
    attr_int, attr_ints, int_attribute, ints_attribute, node_of, tensor_of, Graph, NodeProto,
    Tensor, TensorProto,
};
use crate::text::{dec, join, list1, list2, list3, names, size_text};
use vstd::prelude::*;

verus! {

/// A step that changes a graph and may fail.
pub type Step = (Graph, Result<(), ErrorView>);

/// A step that succeeds.
pub open spec fn done(g: Graph) -> Step {
    (g, Ok(()))
}

/// A step that fails.
pub open spec fn failed(g: Graph, e: ErrorView) -> Step {
    (g, Err(e))
}

/// The error for a constant that does not fit a type.
pub open spec fn misfit(fault: ConstantFault, bits: u64, dtype: Seq<char>) -> ErrorView {
    ErrorView::Constant { fault, bits, dtype }
}

/// An `INT64` tensor with one axis.
pub open spec fn int_vector(name: Seq<char>, values: Seq<i64>) -> Tensor {
    Tensor {
        raw_data: int_bytes(values),
        ..tensor_of(name, seq![values.len() as i64], INT64)
    }
}

/// The bytes of `INT64` elements.
pub open spec fn int_bytes(values: Seq<i64>) -> Seq<u8> {
    word_bytes(Seq::new(values.len(), |i: int| values[i] as u64), 8)
}

/// The bytes of `FLOAT` elements, given by their bits.
pub open spec fn single_bytes(values: Seq<u32>) -> Seq<u8> {
    word_bytes(Seq::new(values.len(), |i: int| values[i] as u64), 4)
}

/// The sizes of a tensor of so many elements: without sizes it is a scalar if it has one element,
/// and has one axis otherwise.
pub open spec fn sizes_for(dims: Seq<i64>, count: nat) -> Seq<i64> {
    if dims.len() == 0 && count != 1 {
        seq![count as i64]
    } else {
        dims
    }
}

/// The graph with `INT64` elements as one more constant.
#[verifier::opaque]
pub open spec fn ints_added(g: Graph, name: Seq<char>, dims: Seq<i64>, values: Seq<i64>) -> Graph {
    g.with_initializer(
        Tensor {
            raw_data: int_bytes(values),
            ..tensor_of(name, sizes_for(dims, values.len()), INT64)
        },
    )
}

/// The graph with `FLOAT` elements as one more constant.
#[verifier::opaque]
pub open spec fn singles_added(g: Graph, name: Seq<char>, dims: Seq<i64>, values: Seq<u32>) -> Graph {
    g.with_initializer(
        Tensor {
            raw_data: single_bytes(values),
            ..tensor_of(name, sizes_for(dims, values.len()), FLOAT)
        },
    )
}

/// The bytes of an integer value in `low..=high`, or what is wrong with it.
pub open spec fn whole_bytes(v: u64, dtype: Seq<char>, low: int, high: int, size: nat) -> Result<
    Seq<u8>,
    ErrorView,
> {
    if !finite(v) {
        Err(misfit(ConstantFault::EncodeNonFinite, v, dtype))
    } else if !integral(v) {
        Err(misfit(ConstantFault::EncodeNonInteger, v, dtype))
    } else if below(v, low) || above(v, high) {
        Err(misfit(ConstantFault::EncodeOutOfRange, v, dtype))
    } else {
        Ok(le_bytes(to_i64(v) as u64 as int, size))
    }
}

/// The bytes of a value as an element of the given type, or what is wrong with it.
pub open spec fn scalar_bytes(v: u64, data_type: i32) -> Result<Seq<u8>, ErrorView> {
    if data_type == BOOL {
        if nan(v) {
            Err(message("cannot encode NaN as bool"@))
        } else {
            Ok(
                seq![
                    if zero(v) {
                        0u8
                    } else {
                        1u8
                    },
                ],
            )
        }
    } else if data_type == FLOAT16 {
        if finite(v) && !finite_single(narrow(v)) {
            Err(misfit(ConstantFault::EncodeOverflow, v, "float16"@))
        } else if finite(v) && !finite_half(narrow_half(narrow(v))) {
            Err(misfit(ConstantFault::EncodeOutOfRange, v, "float16"@))
        } else {
            Ok(le_bytes(narrow_half(narrow(v)) as int, 2))
        }
    } else if data_type == FLOAT {
        if finite(v) && !finite_single(narrow(v)) {
            Err(misfit(ConstantFault::EncodeOverflow, v, "float32"@))
        } else {
            Ok(le_bytes(narrow(v) as int, 4))
        }
    } else if data_type == DOUBLE {
        Ok(le_bytes(v as int, 8))
    } else if data_type == INT8 {
        whole_bytes(v, "int8"@, -0x80, 0x7F, 1)
    } else if data_type == UINT8 {
        whole_bytes(v, "uint8"@, 0, 0xFF, 1)
    } else if data_type == INT16 {
        whole_bytes(v, "int16"@, -0x8000, 0x7FFF, 2)
    } else if data_type == INT32 {
        whole_bytes(v, "int32"@, -0x8000_0000, 0x7FFF_FFFF, 4)
    } else if data_type == INT64 {
        whole_bytes(v, "int64"@, -0x8000_0000_0000_0000, 0x8000_0000_0000_0000, 8)
    } else {
        Err(message("unsupported initializer dtype "@ + dtype_name(data_type)))
    }
}

/// The bytes of the first `k` values, or the first error.
pub open spec fn scalars_bytes(values: Seq<u64>, data_type: i32, k: nat) -> Result<
    Seq<u8>,
    ErrorView,
>
    decreases k,
{
    if k == 0 {
        Ok(Seq::empty())
    } else {
        match scalars_bytes(values, data_type, (k - 1) as nat) {
            Err(e) => Err(e),
            Ok(front) => match scalar_bytes(values[k - 1], data_type) {
                Err(e) => Err(e),
                Ok(element) => Ok(front + element),
            },
        }
    }
}

/// The graph with values of the given type as one more constant.
#[verifier::opaque]
pub open spec fn numbers_added(
    g: Graph,
    name: Seq<char>,
    dims: Seq<i64>,
    data_type: i32,
    values: Seq<u64>,
) -> Step {
    match scalars_bytes(values, data_type, values.len()) {
        Err(e) => failed(g, e),
        Ok(raw) => done(
            g.with_initializer(Tensor { raw_data: raw, ..tensor_of(name, dims, data_type) }),
        ),
    }
}

/// The graph with a `Cast`.
#[verifier::opaque]
pub open spec fn cast_added(g: Graph, input: Seq<char>, output: Seq<char>, to: i32) -> Graph {
    g.with_node(node_of("Cast"@, seq![input], seq![output]).with(int_attribute("to"@, to as i64)))
}

/// The graph with a node of two inputs.
#[verifier::opaque]
pub open spec fn binary_added(
    g: Graph,
    op: Seq<char>,
    lhs: Seq<char>,
    rhs: Seq<char>,
    output: Seq<char>,
) -> Graph {
    g.with_node(node_of(op, seq![lhs, rhs], seq![output]))
}

/// The graph with a node of one input.
#[verifier::opaque]
pub open spec fn unary_added(g: Graph, op: Seq<char>, input: Seq<char>, output: Seq<char>) -> Graph {
    g.with_node(node_of(op, seq![input], seq![output]))
}

/// The graph with a node of three inputs.
#[verifier::opaque]
pub open spec fn ternary_added(
    g: Graph,
    op: Seq<char>,
    a: Seq<char>,
    b: Seq<char>,
    c: Seq<char>,
    output: Seq<char>,
) -> Graph {
    g.with_node(node_of(op, seq![a, b, c], seq![output]))
}

/// The graph with an `INT64` constant of one axis.
#[verifier::opaque]
pub open spec fn vector_added(g: Graph, name: Seq<char>, values: Seq<i64>) -> Graph {
    g.with_initializer(int_vector(name, values))
}

/// The graph with a `Gather` along an axis.
#[verifier::opaque]
pub open spec fn gather_added(
    g: Graph,
    data: Seq<char>,
    indices: Seq<char>,
    output: Seq<char>,
    axis: i64,
) -> Graph {
    g.with_node(
        node_of("Gather"@, seq![data, indices], seq![output]).with(int_attribute("axis"@, axis)),
    )
}

/// The graph with a `ScatterElements` along an axis.
#[verifier::opaque]
pub open spec fn scatter_added(
    g: Graph,
    data: Seq<char>,
    indices: Seq<char>,
    updates: Seq<char>,
    output: Seq<char>,
    axis: i64,
) -> Graph {
    g.with_node(
        node_of("ScatterElements"@, seq![data, indices, updates], seq![output]).with(
            int_attribute("axis"@, axis),
        ),
    )
}

/// The graph with a `Concat` along an axis.
#[verifier::opaque]
pub open spec fn concat_added(g: Graph, inputs: Seq<Seq<char>>, output: Seq<char>, axis: i64) -> Graph {
    g.with_node(node_of("Concat"@, inputs, seq![output]).with(int_attribute("axis"@, axis)))
}

/// The graph with a `TopK`, which yields values and positions.
#[verifier::opaque]
pub open spec fn topk_added(
    g: Graph,
    input: Seq<char>,
    k: Seq<char>,
    values: Seq<char>,
    indices: Seq<char>,
    axis: i64,
    largest: i64,
    sorted: i64,
) -> Graph {
    g.with_node(
        node_of("TopK"@, seq![input, k], seq![values, indices]).with(
            int_attribute("axis"@, axis),
        ).with(int_attribute("largest"@, largest)).with(int_attribute("sorted"@, sorted)),
    )
}

/// The graph with an `Unsqueeze`. Its axes are a constant from opset 13 on, and an attribute
/// before.
#[verifier::opaque]
pub open spec fn unsqueeze_added(
    g: Graph,
    opset: i64,
    input: Seq<char>,
    output: Seq<char>,
    axes: Seq<i64>,
    axes_name: Seq<char>,
) -> Graph {
    let node = node_of("Unsqueeze"@, seq![input], seq![output]);
    if opset >= 13 {
        g.with_initializer(int_vector(axes_name, axes)).with_node(node.with_input(axes_name))
    } else {
        g.with_node(node.with(ints_attribute("axes"@, axes)))
    }
}

/// The graph with a `Squeeze`. Its axes, if given, are a constant from opset 13 on, and an
/// attribute before.
#[verifier::opaque]
pub open spec fn squeeze_added(
    g: Graph,
    opset: i64,
    input: Seq<char>,
    output: Seq<char>,
    axes: Option<Seq<i64>>,
    axes_name: Option<Seq<char>>,
) -> Graph {
    let node = node_of("Squeeze"@, seq![input], seq![output]);
    match axes {
        None => g.with_node(node),
        Some(axes) => if opset >= 13 {
            let name = match axes_name {
                Some(name) => name,
                None => "squeeze_axes"@,
            };
            g.with_initializer(int_vector(name, axes)).with_node(node.with_input(name))
        } else {
            g.with_node(node.with(ints_attribute("axes"@, axes)))
        },
    }
}

/// The integers from zero up to `count`.
pub open spec fn counted(count: nat) -> Seq<i64> {
    Seq::new(count, |i: int| i as i64)
}

/// The graph with a `Slice`. What it selects stands in attributes before opset 10, and in
/// constants from then on; steps without axes select from the first axes.
#[verifier::opaque]
pub open spec fn slice_added(
    g: Graph,
    opset: i64,
    input: Seq<char>,
    output: Seq<char>,
    starts: Seq<i64>,
    ends: Seq<i64>,
    axes: Option<Seq<i64>>,
    steps: Option<Seq<i64>>,
    prefix: Seq<char>,
) -> Step {
    if starts.len() != ends.len() {
        failed(
            g,
            message(
                "Slice starts/ends length mismatch: "@ + dec(starts.len() as int) + " vs "@ + dec(
                    ends.len() as int,
                ),
            ),
        )
    } else if axes is Some && (axes->0).len() != starts.len() {
        failed(
            g,
            message(
                "Slice axes length "@ + dec((axes->0).len() as int)
                    + " does not match starts length "@ + dec(starts.len() as int),
            ),
        )
    } else if steps is Some && (steps->0).len() != starts.len() {
        failed(
            g,
            message(
                "Slice steps length "@ + dec((steps->0).len() as int)
                    + " does not match starts length "@ + dec(starts.len() as int),
            ),
        )
    } else if opset < 10 {
        if steps is Some && exists|i: int|
            0 <= i < (steps->0).len() && #[trigger] (steps->0)[i] != 1 {
            failed(g, message("Slice with steps != 1 requires opset >= 10"@))
        } else {
            let node = node_of("Slice"@, seq![input], seq![output]).with(
                ints_attribute("starts"@, starts),
            ).with(ints_attribute("ends"@, ends));
            done(
                g.with_node(
                    match axes {
                        Some(axes) => node.with(ints_attribute("axes"@, axes)),
                        None => node,
                    },
                ),
            )
        }
    } else {
        let starts_name = prefix + "_starts"@;
        let ends_name = prefix + "_ends"@;
        let axes_name = prefix + "_axes"@;
        let steps_name = prefix + "_steps"@;
        let g = g.with_initializer(int_vector(starts_name, starts)).with_initializer(
            int_vector(ends_name, ends),
        );
        let node = node_of("Slice"@, seq![input, starts_name, ends_name], seq![output]);
        match (axes, steps) {
            (None, None) => done(g.with_node(node)),
            (Some(axes), None) => done(
                g.with_initializer(int_vector(axes_name, axes)).with_node(
                    node.with_input(axes_name),
                ),
            ),
            (_, Some(steps)) => {
                let all = match axes {
                    Some(axes) => axes,
                    None => counted(steps.len()),
                };
                done(
                    g.with_initializer(int_vector(axes_name, all)).with_initializer(
                        int_vector(steps_name, steps),
                    ).with_node(node.with_input(axes_name).with_input(steps_name)),
                )
            },
        }
    }
}

/// The graph with a reduction. Its axes, if given, are a constant from opset 18 on, and an
/// attribute before.
#[verifier::opaque]
pub open spec fn reduce_added(
    g: Graph,
    opset: i64,
    op: Seq<char>,
    input: Seq<char>,
    output: Seq<char>,
    axes: Option<Seq<i64>>,
    keepdims: i64,
    prefix: Seq<char>,
) -> Graph {
    let node = node_of(op, seq![input], seq![output]);
    let keep = int_attribute("keepdims"@, keepdims);
    match axes {
        None => g.with_node(node.with(keep)),
        Some(axes) => if opset >= 18 {
            let name = prefix + "_axes"@;
            g.with_initializer(int_vector(name, axes)).with_node(node.with_input(name).with(keep))
        } else {
            g.with_node(node.with(ints_attribute("axes"@, axes)).with(keep))
        },
    }
}

/// The content of an optional list.
pub open spec fn list_view(list: Option<&Vec<i64>>) -> Option<Seq<i64>> {
    match list {
        Some(list) => Some(list@),
        None => None,
    }
}

/// The content of an optional name.
pub open spec fn name_view(name: Option<String>) -> Option<Seq<char>> {
    match name {
        Some(name) => Some(name@),
        None => None,
    }
}

/// The content of a result with bytes.
pub open spec fn bytes_result(r: Result<Vec<u8>, Error>) -> Result<Seq<u8>, ErrorView> {
    match r {
        Ok(list) => Ok(list@),
        Err(e) => Err(e@),
    }
}

fn encode_ints(values: &Vec<i64>) -> (r: Vec<u8>)
    ensures
        r@ == int_bytes(values@),
{
    let mut list: Vec<u64> = Vec::new();
    let mut i: usize = 0;
    while i < values.len()
        invariant
            i <= values.len(),
            list@ =~= Seq::new(i as nat, |k: int| values@[k] as u64),
        decreases values.len() - i,
    {
        list.push(values[i] as u64);
        i = i + 1;
    }
    proof {
        assert(list@ =~= Seq::new(values@.len(), |i: int| values@[i] as u64));
    }
    encode_words(&list, 8)
}

fn encode_singles(values: &Vec<u32>) -> (r: Vec<u8>)
    ensures
        r@ == single_bytes(values@),
{
    let mut list: Vec<u64> = Vec::new();
    let mut i: usize = 0;
    while i < values.len()
        invariant
            i <= values.len(),
            list@ =~= Seq::new(i as nat, |k: int| values@[k] as u64),
        decreases values.len() - i,
    {
        list.push(values[i] as u64);
        i = i + 1;
    }
    proof {
        assert(list@ =~= Seq::new(values@.len(), |i: int| values@[i] as u64));
    }
    encode_words(&list, 4)
}

/// An `INT64` tensor with one axis.
pub fn vector_i64(name: String, values: &Vec<i64>) -> (r: TensorProto)
    ensures
        r@ == int_vector(name@, values@),
{
    let dims: Vec<i64> = vec![values.len() as i64];
    proof {
        assert(dims@ =~= seq![values@.len() as i64]);
    }
    let mut tensor = TensorProto::new(name, dims, INT64);
    tensor.raw_data = encode_ints(values);
    tensor
}

fn sizes_of(dims: Vec<i64>, count: usize) -> (r: Vec<i64>)
    ensures
        r@ == sizes_for(dims@, count as nat),
{
    if dims.len() == 0 && count != 1 {
        let list: Vec<i64> = vec![count as i64];
        proof {
            assert(list@ =~= seq![count as i64]);
        }
        list
    } else {
        dims
    }
}

fn encode_whole(v: u64, dtype: &str, low: i64, high: i64, size: usize) -> (r: Result<Vec<u8>, Error>)
    requires
        -0x8000_0000_0000_0000 < low <= high < 0x7FFF_FFFF_FFFF_FFFF,
    ensures
        bytes_result(r) == whole_bytes(v, dtype@, low as int, high as int, size as nat),
{
    if !is_finite(v) {
        return Err(
            Error::Constant {
                fault: ConstantFault::EncodeNonFinite,
                bits: v,
                dtype: dtype.to_string(),
            },
        );
    }
    if !is_integral(v) {
        return Err(
            Error::Constant {
                fault: ConstantFault::EncodeNonInteger,
                bits: v,
                dtype: dtype.to_string(),
            },
        );
    }
    if is_below(v, low) || is_above(v, high) {
        return Err(
            Error::Constant {
                fault: ConstantFault::EncodeOutOfRange,
                bits: v,
                dtype: dtype.to_string(),
            },
        );
    }
    Ok(to_le(as_i64(v) as u64, size))
}

/// The bytes of a value as an element of the given type.
pub fn encode_scalar(v: u64, data_type: i32) -> (r: Result<Vec<u8>, Error>)
    ensures
        bytes_result(r) == scalar_bytes(v, data_type),
{
    if data_type == BOOL {
        if is_nan(v) {
            return Err(Error::text("cannot encode NaN as bool"));
        }
        let byte: u8 = if is_zero(v) {
            0
        } else {
            1
        };
        let list: Vec<u8> = vec![byte];
        proof {
            assert(list@ =~= seq![byte]);
        }
        Ok(list)
    } else if data_type == FLOAT16 {
        let narrowed: u32 = to_single(v);
        if is_finite(v) && !is_finite_single(narrowed) {
            return Err(
                Error::Constant {
                    fault: ConstantFault::EncodeOverflow,
                    bits: v,
                    dtype: "float16".to_string(),
                },
            );
        }
        let half: u16 = to_half(narrowed);
        if is_finite(v) && !is_finite_half(half) {
            return Err(
                Error::Constant {
                    fault: ConstantFault::EncodeOutOfRange,
                    bits: v,
                    dtype: "float16".to_string(),
                },
            );
        }
        Ok(to_le(half as u64, 2))
    } else if data_type == FLOAT {
        let narrowed: u32 = to_single(v);
        if is_finite(v) && !is_finite_single(narrowed) {
            return Err(
                Error::Constant {
                    fault: ConstantFault::EncodeOverflow,
                    bits: v,
                    dtype: "float32".to_string(),
                },
            );
        }
        Ok(to_le(narrowed as u64, 4))
    } else if data_type == DOUBLE {
        Ok(to_le(v, 8))
    } else if data_type == INT8 {
        encode_whole(v, "int8", -0x80, 0x7F, 1)
    } else if data_type == UINT8 {
        encode_whole(v, "uint8", 0, 0xFF, 1)
    } else if data_type == INT16 {
        encode_whole(v, "int16", -0x8000, 0x7FFF, 2)
    } else if data_type == INT32 {
        encode_whole(v, "int32", -0x8000_0000, 0x7FFF_FFFF, 4)
    } else if data_type == INT64 {
        if !is_finite(v) {
            return Err(
                Error::Constant {
                    fault: ConstantFault::EncodeNonFinite,
                    bits: v,
                    dtype: "int64".to_string(),
                },
            );
        }
        if !is_integral(v) {
            return Err(
                Error::Constant {
                    fault: ConstantFault::EncodeNonInteger,
                    bits: v,
                    dtype: "int64".to_string(),
                },
            );
        }
        if is_below_i64(v) || is_above_i64(v) {
            return Err(
                Error::Constant {
                    fault: ConstantFault::EncodeOutOfRange,
                    bits: v,
                    dtype: "int64".to_string(),
                },
            );
        }
        Ok(to_le(as_i64(v) as u64, 8))
    } else {
        Err(Error::owned(join("unsupported initializer dtype ", onnx_dtype_name(data_type))))
    }
}

proof fn lemma_scalars_err(values: Seq<u64>, data_type: i32, k: nat, n: nat)
    requires
        k <= n <= values.len(),
        scalars_bytes(values, data_type, k) is Err,
    ensures
        scalars_bytes(values, data_type, n) == scalars_bytes(values, data_type, k),
    decreases n,
{
    if k < n {
        lemma_scalars_err(values, data_type, k, (n - 1) as nat);
    }
}

fn encode_scalars(values: &Vec<u64>, data_type: i32) -> (r: Result<Vec<u8>, Error>)
    ensures
        bytes_result(r) == scalars_bytes(values@, data_type, values@.len()),
{
    let mut raw: Vec<u8> = Vec::new();
    let mut i: usize = 0;
    while i < values.len()
        invariant
            i <= values.len(),
            scalars_bytes(values@, data_type, i as nat) == Ok::<Seq<u8>, ErrorView>(raw@),
        decreases values.len() - i,
    {
        match encode_scalar(values[i], data_type) {
            Ok(element) => {
                let mut element = element;
                raw.append(&mut element);
            },
            Err(e) => {
                proof {
                    lemma_scalars_err(values@, data_type, (i + 1) as nat, values@.len());
                }
                return Err(e);
            },
        }
        i = i + 1;
    }
    Ok(raw)
}

/// The integers from zero up to `count`.
pub fn count_up(count: usize) -> (r: Vec<i64>)
    ensures
        r@ == counted(count as nat),
{
    let mut list: Vec<i64> = Vec::new();
    let mut i: usize = 0;
    while i < count
        invariant
            i <= count,
            list@ =~= counted(i as nat),
        decreases count - i,
    {
        list.push(i as i64);
        i = i + 1;
    }
    list
}

impl Converter {
    /// The bytes of a value as an element of the given type.
    pub fn encode_scalar_f64_as_raw_data(&self, value: u64, data_type: i32) -> (r: Result<
        Vec<u8>,
        Error,
    >)
        ensures
            bytes_result(r) == scalar_bytes(value, data_type),
    {
        encode_scalar(value, data_type)
    }

    /// Adds a constant of the given type.
    pub fn push_numeric_initializer(
        &mut self,
        name: String,
        dims: Vec<i64>,
        data_type: i32,
        values: &Vec<u64>,
    ) -> (r: Result<(), Error>)
        ensures
            final(self).meta() == old(self).meta(),
            (final(self).onnx_graph@, outcome(r)) == numbers_added(
                old(self).onnx_graph@,
                name@,
                dims@,
                data_type,
                values@,
            ),
    {
        proof {
            reveal(numbers_added);
        }
        let raw = encode_scalars(values, data_type)?;
        let mut tensor = TensorProto::new(name, dims, data_type);
        tensor.raw_data = raw;
        self.onnx_graph.push_initializer(tensor);
        Ok(())
    }

    /// Adds a constant of `INT64` elements.
    pub fn push_i64_initializer(&mut self, name: String, dims: Vec<i64>, values: &Vec<i64>)
        ensures
            final(self).meta() == old(self).meta(),
            final(self).onnx_graph@ == ints_added(old(self).onnx_graph@, name@, dims@, values@),
    {
        proof {
            reveal(ints_added);
        }
        let mut tensor = TensorProto::new(name, sizes_of(dims, values.len()), INT64);
        tensor.raw_data = encode_ints(values);
        self.onnx_graph.push_initializer(tensor);
    }

    /// Adds a constant of `FLOAT` elements.
    pub fn push_f32_initializer(&mut self, name: String, dims: Vec<i64>, values: &Vec<u32>)
        ensures
            final(self).meta() == old(self).meta(),
            final(self).onnx_graph@ == singles_added(old(self).onnx_graph@, name@, dims@, values@),
    {
        proof {
            reveal(singles_added);
        }
        let mut tensor = TensorProto::new(name, sizes_of(dims, values.len()), FLOAT);
        tensor.raw_data = encode_singles(values);
        self.onnx_graph.push_initializer(tensor);
    }

    /// Adds a `Cast`.
    pub fn add_cast_node(&mut self, input: String, output: String, to: i32)
        ensures
            final(self).meta() == old(self).meta(),
            final(self).onnx_graph@ == cast_added(old(self).onnx_graph@, input@, output@, to),
    {
        proof {
            reveal(cast_added);
        }
        self.onnx_graph.push_node(
            NodeProto::new("Cast", list1(input), list1(output)).with(attr_int("to", to as i64)),
        );
    }

    /// Adds a node of one input.
    pub fn add_unary_node(&mut self, op_type: &str, input: String, output: String)
        ensures
            final(self).meta() == old(self).meta(),
            final(self).onnx_graph@ == unary_added(
                old(self).onnx_graph@,
                op_type@,
                input@,
                output@,
            ),
    {
        proof {
            reveal(unary_added);
        }
        self.onnx_graph.push_node(NodeProto::new(op_type, list1(input), list1(output)));
    }

    /// Adds a node of two inputs.
    pub fn add_binary_node(&mut self, op_type: &str, lhs: String, rhs: String, output: String)
        ensures
            final(self).meta() == old(self).meta(),
            final(self).onnx_graph@ == binary_added(
                old(self).onnx_graph@,
                op_type@,
                lhs@,
                rhs@,
                output@,
            ),
    {
        proof {
            reveal(binary_added);
        }
        self.onnx_graph.push_node(NodeProto::new(op_type, list2(lhs, rhs), list1(output)));
    }

    /// Adds a node of three inputs.
    pub fn add_ternary_node(
        &mut self,
        op_type: &str,
        a: String,
        b: String,
        c: String,
        output: String,
    )
        ensures
            final(self).meta() == old(self).meta(),
            final(self).onnx_graph@ == ternary_added(
                old(self).onnx_graph@,
                op_type@,
                a@,
                b@,
                c@,
                output@,
            ),
    {
        proof {
            reveal(ternary_added);
        }
        self.onnx_graph.push_node(NodeProto::new(op_type, list3(a, b, c), list1(output)));
    }

    /// Adds an `INT64` constant of one axis.
    pub fn push_vector(&mut self, name: String, values: &Vec<i64>)
        ensures
            final(self).meta() == old(self).meta(),
            final(self).onnx_graph@ == vector_added(old(self).onnx_graph@, name@, values@),
    {
        proof {
            reveal(vector_added);
        }
        self.onnx_graph.push_initializer(vector_i64(name, values));
    }

    /// Adds a `Gather` along an axis.
    pub fn add_gather_node(&mut self, data: String, indices: String, output: String, axis: i64)
        ensures
            final(self).meta() == old(self).meta(),
            final(self).onnx_graph@ == gather_added(
                old(self).onnx_graph@,
                data@,
                indices@,
                output@,
                axis,
            ),
    {
        proof {
            reveal(gather_added);
        }
        self.onnx_graph.push_node(
            NodeProto::new("Gather", list2(data, indices), list1(output)).with(
                attr_int("axis", axis),
            ),
        );
    }

    /// Adds a `ScatterElements` along an axis.
    pub fn add_scatter_node(
        &mut self,
        data: String,
        indices: String,
        updates: String,
        output: String,
        axis: i64,
    )
        ensures
            final(self).meta() == old(self).meta(),
            final(self).onnx_graph@ == scatter_added(
                old(self).onnx_graph@,
                data@,
                indices@,
                updates@,
                output@,
                axis,
            ),
    {
        proof {
            reveal(scatter_added);
        }
        self.onnx_graph.push_node(
            NodeProto::new("ScatterElements", list3(data, indices, updates), list1(output)).with(
                attr_int("axis", axis),
            ),
        );
    }

    /// Adds a `Concat` along an axis.
    pub fn add_concat_node(&mut self, inputs: Vec<String>, output: String, axis: i64)
        ensures
            final(self).meta() == old(self).meta(),
            final(self).onnx_graph@ == concat_added(
                old(self).onnx_graph@,
                names(inputs@),
                output@,
                axis,
            ),
    {
        proof {
            reveal(concat_added);
        }
        self.onnx_graph.push_node(
            NodeProto::new("Concat", inputs, list1(output)).with(attr_int("axis", axis)),
        );
    }

    /// Adds a `TopK`.
    pub fn add_topk_node(
        &mut self,
        input: String,
        k: String,
        values: String,
        indices: String,
        axis: i64,
        largest: i64,
        sorted: i64,
    )
        ensures
            final(self).meta() == old(self).meta(),
            final(self).onnx_graph@ == topk_added(
                old(self).onnx_graph@,
                input@,
                k@,
                values@,
                indices@,
                axis,
                largest,
                sorted,
            ),
    {
        proof {
            reveal(topk_added);
        }
        self.onnx_graph.push_node(
            NodeProto::new("TopK", list2(input, k), list2(values, indices)).with(
                attr_int("axis", axis),
            ).with(attr_int("largest", largest)).with(attr_int("sorted", sorted)),
        );
    }

    /// Adds any node.
    pub fn add_node(&mut self, node: NodeProto)
        ensures
            final(self).meta() == old(self).meta(),
            final(self).onnx_graph@ == old(self).onnx_graph@.with_node(node@),
    {
        self.onnx_graph.push_node(node);
    }

    /// Adds any constant.
    pub fn add_initializer(&mut self, tensor: TensorProto)
        ensures
            final(self).meta() == old(self).meta(),
            final(self).onnx_graph@ == old(self).onnx_graph@.with_initializer(tensor@),
    {
        self.onnx_graph.push_initializer(tensor);
    }

    /// Adds an `Unsqueeze`.
    pub fn add_unsqueeze_node(
        &mut self,
        input: String,
        output: String,
        axes: &Vec<i64>,
        axes_name: String,
    )
        ensures
            final(self).meta() == old(self).meta(),
            final(self).onnx_graph@ == unsqueeze_added(
                old(self).onnx_graph@,
                old(self).meta().target_opset,
                input@,
                output@,
                axes@,
                axes_name@,
            ),
    {
        proof {
            reveal(unsqueeze_added);
        }
        let node = NodeProto::new("Unsqueeze", list1(input), list1(output));
        if self.target_opset >= 13 {
            self.onnx_graph.push_initializer(vector_i64(axes_name.clone(), axes));
            self.onnx_graph.push_node(node.with_input(axes_name));
        } else {
            self.onnx_graph.push_node(node.with(attr_ints("axes", axes)));
        }
    }

    /// Adds a `Squeeze`.
    pub fn add_squeeze_node(
        &mut self,
        input: String,
        output: String,
        axes: Option<&Vec<i64>>,
        axes_name: Option<String>,
    )
        ensures
            final(self).meta() == old(self).meta(),
            final(self).onnx_graph@ == squeeze_added(
                old(self).onnx_graph@,
                old(self).meta().target_opset,
                input@,
                output@,
                list_view(axes),
                name_view(axes_name),
            ),
    {
        proof {
            reveal(squeeze_added);
        }
        let node = NodeProto::new("Squeeze", list1(input), list1(output));
        match axes {
            None => {
                self.onnx_graph.push_node(node);
            },
            Some(axes) => {
                if self.target_opset >= 13 {
                    let name: String = match axes_name {
                        Some(name) => name,
                        None => "squeeze_axes".to_string(),
                    };
                    self.onnx_graph.push_initializer(vector_i64(name.clone(), axes));
                    self.onnx_graph.push_node(node.with_input(name));
                } else {
                    self.onnx_graph.push_node(node.with(attr_ints("axes", axes)));
                }
            },
        }
    }

    /// Adds a `Slice`.
    pub fn add_slice_node(
        &mut self,
        input: String,
        output: String,
        starts: &Vec<i64>,
        ends: &Vec<i64>,
        axes: Option<&Vec<i64>>,
        steps: Option<&Vec<i64>>,
        name_prefix: &str,
    ) -> (r: Result<(), Error>)
        ensures
            final(self).meta() == old(self).meta(),
            (final(self).onnx_graph@, outcome(r)) == slice_added(
                old(self).onnx_graph@,
                old(self).meta().target_opset,
                input@,
                output@,
                starts@,
                ends@,
                list_view(axes),
                list_view(steps),
                name_prefix@,
            ),
    {
        proof {
            reveal(slice_added);
        }
        if starts.len() != ends.len() {
            return Err(
                Error::owned(
                    crate::text::join4(
                        "Slice starts/ends length mismatch: ",
                        size_text(starts.len()).as_str(),
                        " vs ",
                        size_text(ends.len()).as_str(),
                    ),
                ),
            );
        }
        match axes {
            Some(axes) => {
                if axes.len() != starts.len() {
                    return Err(
                        Error::owned(
                            crate::text::join4(
                                "Slice axes length ",
                                size_text(axes.len()).as_str(),
                                " does not match starts length ",
                                size_text(starts.len()).as_str(),
                            ),
                        ),
                    );
                }
            },
            None => {},
        }
        match steps {
            Some(steps) => {
                if steps.len() != starts.len() {
                    return Err(
                        Error::owned(
                            crate::text::join4(
                                "Slice steps length ",
                                size_text(steps.len()).as_str(),
                                " does not match starts length ",
                                size_text(starts.len()).as_str(),
                            ),
                        ),
                    );
                }
            },
            None => {},
        }
        if self.target_opset < 10 {
            match steps {
                Some(steps) => {
                    if !all_ones(steps) {
                        return Err(Error::text("Slice with steps != 1 requires opset >= 10"));
                    }
                },
                None => {},
            }
            let node = NodeProto::new("Slice", list1(input), list1(output)).with(
                attr_ints("starts", starts),
            ).with(attr_ints("ends", ends));
            match axes {
                Some(axes) => {
                    self.onnx_graph.push_node(node.with(attr_ints("axes", axes)));
                },
                None => {
                    self.onnx_graph.push_node(node);
                },
            }
            return Ok(());
        }
        let starts_name = join(name_prefix, "_starts");
        self.onnx_graph.push_initializer(vector_i64(starts_name.clone(), starts));
        let ends_name = join(name_prefix, "_ends");
        self.onnx_graph.push_initializer(vector_i64(ends_name.clone(), ends));
        let mut node = NodeProto::new(
            "Slice",
            list3(input, starts_name, ends_name),
            list1(output),
        );
        match axes {
            Some(axes) => {
                let axes_name = join(name_prefix, "_axes");
                self.onnx_graph.push_initializer(vector_i64(axes_name.clone(), axes));
                node = node.with_input(axes_name);
            },
            None => {},
        }
        match steps {
            Some(steps) => {
                if axes.is_none() {
                    let axes_name = join(name_prefix, "_axes");
                    self.onnx_graph.push_initializer(
                        vector_i64(axes_name.clone(), &count_up(steps.len())),
                    );
                    node = node.with_input(axes_name);
                }
                let steps_name = join(name_prefix, "_steps");
                self.onnx_graph.push_initializer(vector_i64(steps_name.clone(), steps));
                node = node.with_input(steps_name);
            },
            None => {},
        }
        self.onnx_graph.push_node(node);
        Ok(())
    }

    /// Adds a reduction.
    pub fn add_reduce_node(
        &mut self,
        op_type: &str,
        input: String,
        output: String,
        axes: Option<&Vec<i64>>,
        keepdims: i64,
        name_prefix: &str,
    )
        ensures
            final(self).meta() == old(self).meta(),
            final(self).onnx_graph@ == reduce_added(
                old(self).onnx_graph@,
                old(self).meta().target_opset,
                op_type@,
                input@,
                output@,
                list_view(axes),
                keepdims,
                name_prefix@,
            ),
    {
        proof {
            reveal(reduce_added);
        }
        let node = NodeProto::new(op_type, list1(input), list1(output));
        let keep = attr_int("keepdims", keepdims);
        match axes {
            None => {
                self.onnx_graph.push_node(node.with(keep));
            },
            Some(axes) => {
                if self.target_opset >= 18 {
                    let name = join(name_prefix, "_axes");
                    self.onnx_graph.push_initializer(vector_i64(name.clone(), axes));
                    self.onnx_graph.push_node(node.with_input(name).with(keep));
                } else {
                    self.onnx_graph.push_node(node.with(attr_ints("axes", axes)).with(keep));
                }
            },
        }
    }
}

fn all_ones(list: &Vec<i64>) -> (r: bool)
    ensures
        r == !(exists|i: int| 0 <= i < list@.len() && #[trigger] list@[i] != 1),
{
    let mut i: usize = 0;
    while i < list.len()
        invariant
            i <= list.len(),
            forall|k: int| 0 <= k < i ==> #[trigger] list@[k] == 1,
        decreases list.len() - i,
    {
        if list[i] != 1 {
            return false;
        }
        i = i + 1;
    }
    true
}

} // verus!
