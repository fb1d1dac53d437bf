//! The first pass over a model description: element types, sizes, parameters and constants.

use crate::arith::{add_double, multiply_double, sum64, times64};
use crate::converter::ops::common::shape_or_empty;
use crate::converter::optimizer::options::map_get;
use crate::converter::state::{CloneOnWriteMap, Converter, Meta, Param, ParamMeta};
use crate::dtype::{elem_type_named, paddle_elem_type_to_onnx};
use crate::error::{message, outcome, ConstantFault, Error, ErrorView};
use crate::float::{
    above, below, finite, integral, is_above, is_above_i64, is_below, is_below_i64, is_finite,
    is_integral, is_nan, is_zero, nan, zero, ONE, ZERO,
};
use crate::converter::emit::{misfit};
use crate::helper::{
    attr_array, attr_bool_of, attr_bool_or, attr_chars_of, attr_f64, attr_float_of, attr_items_of,
    attr_text, collect_floats, collect_sizes, input_ids, items_float, op_input_ids, op_out_id,
    op_output_ids, op_type, or_default, out_id, output_ids, read_type_parts, sizes_listed, type_of,
    type_parts,
};
use crate::json::{lemma_field_items_smaller, Json, JsonView};
use crate::text::{dec, int_text, join6, push_name, same, size_text};
use crate::onnx::views;
use vstd::prelude::*;

verus! {

/// A step that changes what is known and may fail.
pub type Knowing = (Meta, Result<(), ErrorView>);

/// The id of a described value.
pub open spec fn described_id(v: JsonView) -> Option<i64> {
    match v.field_int("%"@) {
        Some(id) => Some(id),
        None => v.field_int("#"@),
    }
}

/// What is known once the type of a described value is recorded.
pub open spec fn type_recorded(m: Meta, id: i64, parts: Seq<JsonView>) -> Meta {
    let named = if parts.len() > 0 {
        parts[0].field_chars("#"@)
    } else {
        None
    };
    let m = match named {
        Some(name) => Meta { tensor_types: m.tensor_types.insert(id, name), ..m },
        None => m,
    };
    let sized = if parts.len() > 1 {
        parts[1].items()
    } else {
        None
    };
    match sized {
        Some(dims) => Meta { tensor_shapes: m.tensor_shapes.insert(id, sizes_listed(dims)), ..m },
        None => m,
    }
}

/// What is known once a described value is recorded.
pub open spec fn meta_recorded(m: Meta, v: JsonView) -> Meta {
    match (described_id(v), type_parts(v)) {
        (Some(id), Some(parts)) => type_recorded(m, id, parts),
        _ => m,
    }
}

/// What is known once the first `k` described values are recorded.
pub open spec fn all_recorded(m: Meta, items: Seq<JsonView>, k: nat) -> Meta
    decreases k,
{
    if k == 0 {
        m
    } else {
        meta_recorded(all_recorded(m, items, (k - 1) as nat), items[k - 1])
    }
}

/// What is known once the outputs of an operator are recorded, which are listed or stand alone.
pub open spec fn outputs_recorded(m: Meta, op: JsonView) -> Meta {
    match op.field("O"@) {
        Some(JsonView::Array(items)) => all_recorded(m, items, items.len()),
        Some(JsonView::Object(members)) => meta_recorded(m, JsonView::Object(members)),
        _ => m,
    }
}

/// The first text among items, from position `i` on.
pub open spec fn first_text(items: Seq<JsonView>, i: int) -> Option<Seq<char>>
    decreases items.len() - i,
{
    if i < 0 || i >= items.len() {
        None
    } else if items[i].chars() is Some {
        items[i].chars()
    } else {
        first_text(items, i + 1)
    }
}

/// The name of a parameter.
pub open spec fn param_name(op: JsonView) -> Seq<char> {
    match op.field_items("A"@) {
        Some(items) => or_default(first_text(items, 0), "unknown_param"@),
        None => "unknown_param"@,
    }
}

/// What is known once a parameter is recorded.
pub open spec fn param_recorded(m: Meta, op: JsonView) -> Meta {
    match out_id(op) {
        Err(_) => m,
        Ok(id) => {
            let name = param_name(op);
            Meta {
                id_to_name: m.id_to_name.insert(id, name),
                param_names: m.param_names.push(name),
                param_meta: m.param_meta.insert(
                    name,
                    Param {
                        onnx_dtype: match map_get(m.tensor_types, id) {
                            Some(elem) => elem_type_named(elem),
                            None => None,
                        },
                        dims: shape_or_empty(m, id),
                    },
                ),
                ..m
            }
        },
    }
}

/// What is known once an operator that only describes values is recorded: a parameter, a list of
/// values, or the parts of a list.
pub open spec fn description_recorded(m: Meta, kind: Seq<char>, op: JsonView) -> Meta {
    if kind == "p"@ {
        param_recorded(m, op)
    } else if kind == "0.combine"@ {
        match out_id(op) {
            Ok(id) => Meta { combines: m.combines.insert(id, input_ids(op)), ..m },
            Err(_) => m,
        }
    } else if kind == "0.split"@ {
        if input_ids(op).len() > 0 {
            Meta { splits: m.splits.insert(input_ids(op)[0], output_ids(op)), ..m }
        } else {
            m
        }
    } else {
        m
    }
}

/// How the constant that an operator yields is found.
#[derive(Clone, Copy, PartialEq, Eq, Structural)]
pub enum ConstantFolder {
    /// From the operator's attributes.
    Literal,
    /// By a cast of the constant that goes in.
    Cast,
    /// It is the constant that goes in.
    Keep,
    /// By scaling the constant that goes in.
    Scale,
}

/// How an operator yields a constant, where it may.
pub open spec fn folder_of(kind: Seq<char>) -> Option<ConstantFolder> {
    if kind == "1.full"@ || kind == "1.full_int_array"@ || kind == "1.assign_value_"@ {
        Some(ConstantFolder::Literal)
    } else if kind == "1.cast"@ {
        Some(ConstantFolder::Cast)
    } else if kind == "1.squeeze"@ || kind == "1.squeeze_"@ || kind == "1.unsqueeze"@ || kind
        == "1.unsqueeze_"@ || kind == "1.reshape"@ || kind == "1.flatten"@ {
        Some(ConstantFolder::Keep)
    } else if kind == "1.scale"@ {
        Some(ConstantFolder::Scale)
    } else {
        None
    }
}

/// Where among the first `k` operators each constant is yielded last.
pub open spec fn producers(ops: Seq<JsonView>, k: nat) -> Map<i64, usize>
    decreases k,
{
    if k == 0 {
        Map::empty()
    } else {
        let front = producers(ops, (k - 1) as nat);
        let op = ops[k - 1];
        match (type_of(op), out_id(op)) {
            (Some(kind), Ok(id)) => if folder_of(kind) is Some {
                front.insert(id, (k - 1) as usize)
            } else {
                front
            },
            _ => front,
        }
    }
}

/// What is known once a value is constant.
pub open spec fn constant_known(m: Meta, id: i64, values: Seq<u64>) -> Meta {
    Meta { constants: m.constants.insert(id, values), ..m }
}

/// The values of a literal constant.
pub open spec fn literal_values(kind: Seq<char>, op: JsonView) -> Seq<u64> {
    if kind == "1.assign_value_"@ {
        match attr_items_of(op, "values"@) {
            Some(items) => items_float(items, items.len()),
            None => Seq::empty(),
        }
    } else {
        match attr_float_of(op, "value"@) {
            Some(v) => seq![v],
            None => match attr_items_of(op, "value"@) {
                Some(items) => items_float(items, items.len()),
                None => Seq::empty(),
            },
        }
    }
}

/// The range of an integer type, with a bound above that the conversion to `binary64` gives.
pub open spec fn cast_range(dtype: Seq<char>) -> Option<(int, int)> {
    if dtype == "int8"@ {
        Some((-0x80, 0x7F))
    } else if dtype == "uint8"@ {
        Some((0, 0xFF))
    } else if dtype == "int16"@ {
        Some((-0x8000, 0x7FFF))
    } else if dtype == "int32"@ {
        Some((-0x8000_0000, 0x7FFF_FFFF))
    } else if dtype == "int64"@ {
        Some((-0x8000_0000_0000_0000, 0x8000_0000_0000_0000))
    } else {
        None
    }
}

/// A constant's value after a cast, or what is wrong with it.
pub open spec fn value_cast(v: u64, dtype: Seq<char>) -> Result<u64, ErrorView> {
    if dtype == "bool"@ {
        if nan(v) {
            Err(message("cannot cast NaN constant to bool"@))
        } else if zero(v) {
            Ok(ZERO)
        } else {
            Ok(ONE)
        }
    } else {
        match cast_range(dtype) {
            None => Ok(v),
            Some((low, high)) => if !finite(v) {
                Err(misfit(ConstantFault::CastNonFinite, v, dtype))
            } else if below(v, low) || above(v, high) {
                Err(misfit(ConstantFault::CastOutOfRange, v, dtype))
            } else if !integral(v) {
                Err(misfit(ConstantFault::CastNonInteger, v, dtype))
            } else {
                Ok(v)
            },
        }
    }
}

/// The first `k` values after a cast, or the first error.
pub open spec fn values_cast(values: Seq<u64>, dtype: Seq<char>, k: nat) -> Result<
    Seq<u64>,
    ErrorView,
>
    decreases k,
{
    if k == 0 {
        Ok(Seq::empty())
    } else {
        match values_cast(values, dtype, (k - 1) as nat) {
            Err(e) => Err(e),
            Ok(front) => match value_cast(values[k - 1], dtype) {
                Err(e) => Err(e),
                Ok(v) => Ok(front.push(v)),
            },
        }
    }
}

/// A constant after a cast to a type that may be left out.
pub open spec fn constant_cast(values: Seq<u64>, dtype: Option<Seq<char>>) -> Result<
    Seq<u64>,
    ErrorView,
> {
    match dtype {
        Some(dtype) => values_cast(values, dtype, values.len()),
        None => Ok(values),
    }
}

/// A value scaled and moved, or moved and then scaled.
pub open spec fn value_scaled(v: u64, scale: u64, bias: u64, after: bool) -> u64 {
    if after {
        sum64(times64(v, scale), bias)
    } else {
        times64(sum64(v, bias), scale)
    }
}

/// A constant scaled by the attributes of an operator.
pub open spec fn constant_scaled(values: Seq<u64>, op: JsonView) -> Seq<u64> {
    let scale = or_default(attr_float_of(op, "scale"@), ONE);
    let bias = or_default(attr_float_of(op, "bias"@), ZERO);
    let after = or_default(attr_bool_of(op, "bias_after_scale"@), true);
    Seq::new(values.len(), |i: int| value_scaled(values[i], scale, bias, after))
}

/// The check that a value that is not known to be constant is not made one further on.
pub open spec fn not_defined_later(
    made: Map<i64, usize>,
    input: i64,
    index: nat,
    kind: Seq<char>,
) -> Result<(), ErrorView> {
    match map_get(made, input) {
        Some(at) => if at > index {
            Err(
                message(
                    "constant folding for "@ + kind + " saw input "@ + dec(input as int)
                        + " before its constant producer at op index "@ + dec(at as int),
                ),
            )
        } else {
            Ok(())
        },
        None => Ok(()),
    }
}

/// The constant that an operator makes of the one that goes in, where it makes one.
pub open spec fn constant_made(
    folder: ConstantFolder,
    values: Seq<u64>,
    op: JsonView,
) -> Result<Option<Seq<u64>>, ErrorView> {
    match folder {
        ConstantFolder::Cast => match constant_cast(values, attr_chars_of(op, "dtype"@)) {
            Ok(made) => Ok(Some(made)),
            Err(e) => Err(e),
        },
        ConstantFolder::Scale => if input_ids(op).len() == 1 {
            Ok(Some(constant_scaled(values, op)))
        } else {
            Ok(None)
        },
        _ => Ok(Some(values)),
    }
}

/// What is known once the constant that an operator yields is found.
pub open spec fn constant_folded(
    m: Meta,
    folder: ConstantFolder,
    kind: Seq<char>,
    op: JsonView,
    index: nat,
    made: Map<i64, usize>,
) -> Knowing {
    match out_id(op) {
        Err(_) => (m, Ok(())),
        Ok(id) => if folder == ConstantFolder::Literal {
            (constant_known(m, id, literal_values(kind, op)), Ok(()))
        } else if input_ids(op).len() == 0 {
            (m, Ok(()))
        } else {
            match map_get(m.constants, input_ids(op)[0]) {
                None => (m, not_defined_later(made, input_ids(op)[0], index, kind)),
                Some(values) => match constant_made(folder, values, op) {
                    Err(e) => (m, Err(e)),
                    Ok(Some(values)) => (constant_known(m, id, values), Ok(())),
                    Ok(None) => (m, Ok(())),
                },
            }
        },
    }
}

/// What is known once an operator itself is recorded, without what it nests.
pub open spec fn op_recorded(m: Meta, op: JsonView, index: nat, made: Map<i64, usize>) -> Knowing {
    let m = outputs_recorded(m, op);
    match type_of(op) {
        None => (m, Ok(())),
        Some(kind) => {
            let m = description_recorded(m, kind, op);
            match folder_of(kind) {
                Some(folder) => constant_folded(m, folder, kind, op, index, made),
                None => (m, Ok(())),
            }
        },
    }
}

/// What is known after the first `k` operators of a list. A value that an operator needs to be
/// constant may not be made constant further on in the list.
pub open spec fn ops_collected(m: Meta, ops: Seq<JsonView>, k: nat) -> Knowing
    decreases ops, k,
    via ops_collected_smaller
{
    if k == 0 || k > ops.len() {
        (m, Ok(()))
    } else {
        match ops_collected(m, ops, (k - 1) as nat) {
            (m, Err(e)) => (m, Err(e)),
            (m, Ok(_)) => match op_recorded(
                m,
                ops[k - 1],
                (k - 1) as nat,
                producers(ops, ops.len()),
            ) {
                (m, Err(e)) => (m, Err(e)),
                (m, Ok(_)) => match ops[k - 1].field_items("regions"@) {
                    Some(regions) => regions_collected(m, regions, regions.len()),
                    None => (m, Ok(())),
                },
            },
        }
    }
}

#[via_fn]
proof fn ops_collected_smaller(m: Meta, ops: Seq<JsonView>, k: nat) {
    if 0 < k <= ops.len() {
        assert(decreases_to!(ops => ops[k - 1]));
        if ops[k - 1].field_items("regions"@) is Some {
            lemma_field_items_smaller(ops[k - 1], "regions"@);
        }
    }
}

/// What is known after the first `k` regions of an operator.
pub open spec fn regions_collected(m: Meta, regions: Seq<JsonView>, k: nat) -> Knowing
    decreases regions, k,
    via regions_collected_smaller
{
    if k == 0 || k > regions.len() {
        (m, Ok(()))
    } else {
        match regions_collected(m, regions, (k - 1) as nat) {
            (m, Err(e)) => (m, Err(e)),
            (m, Ok(_)) => match regions[k - 1].field_items("blocks"@) {
                Some(blocks) => blocks_collected(m, blocks, blocks.len()),
                None => (m, Ok(())),
            },
        }
    }
}

#[via_fn]
proof fn regions_collected_smaller(m: Meta, regions: Seq<JsonView>, k: nat) {
    if 0 < k <= regions.len() {
        assert(decreases_to!(regions => regions[k - 1]));
        if regions[k - 1].field_items("blocks"@) is Some {
            lemma_field_items_smaller(regions[k - 1], "blocks"@);
        }
    }
}

/// What is known once the arguments of a block are recorded.
pub open spec fn args_recorded(m: Meta, block: JsonView) -> Meta {
    match block.field_items("args"@) {
        Some(args) => all_recorded(m, args, args.len()),
        None => m,
    }
}

/// What is known after the first `k` blocks of a region. A constant of a block is not known
/// outside of it.
pub open spec fn blocks_collected(m: Meta, blocks: Seq<JsonView>, k: nat) -> Knowing
    decreases blocks, k,
    via blocks_collected_smaller
{
    if k == 0 || k > blocks.len() {
        (m, Ok(()))
    } else {
        match blocks_collected(m, blocks, (k - 1) as nat) {
            (m, Err(e)) => (m, Err(e)),
            (m, Ok(_)) => {
                let m = args_recorded(m, blocks[k - 1]);
                match blocks[k - 1].field_items("ops"@) {
                    Some(ops) => {
                        let (inner, r) = ops_collected(m, ops, ops.len());
                        (Meta { constants: m.constants, ..inner }, r)
                    },
                    None => (m, Ok(())),
                }
            },
        }
    }
}

#[via_fn]
proof fn blocks_collected_smaller(m: Meta, blocks: Seq<JsonView>, k: nat) {
    if 0 < k <= blocks.len() {
        assert(decreases_to!(blocks => blocks[k - 1]));
        if blocks[k - 1].field_items("ops"@) is Some {
            lemma_field_items_smaller(blocks[k - 1], "ops"@);
        }
    }
}

proof fn lemma_ops_err(m: Meta, ops: Seq<JsonView>, k: nat, n: nat)
    requires
        k <= n <= ops.len(),
        ops_collected(m, ops, k).1 is Err,
    ensures
        ops_collected(m, ops, n) == ops_collected(m, ops, k),
    decreases n,
{
    if k < n {
        lemma_ops_err(m, ops, k, (n - 1) as nat);
    }
}

proof fn lemma_regions_err(m: Meta, regions: Seq<JsonView>, k: nat, n: nat)
    requires
        k <= n <= regions.len(),
        regions_collected(m, regions, k).1 is Err,
    ensures
        regions_collected(m, regions, n) == regions_collected(m, regions, k),
    decreases n,
{
    if k < n {
        lemma_regions_err(m, regions, k, (n - 1) as nat);
    }
}

proof fn lemma_blocks_err(m: Meta, blocks: Seq<JsonView>, k: nat, n: nat)
    requires
        k <= n <= blocks.len(),
        blocks_collected(m, blocks, k).1 is Err,
    ensures
        blocks_collected(m, blocks, n) == blocks_collected(m, blocks, k),
    decreases n,
{
    if k < n {
        lemma_blocks_err(m, blocks, k, (n - 1) as nat);
    }
}


fn read_described_id(v: &Json) -> (r: Option<i64>)
    ensures
        r == described_id(v@),
{
    match v.get_i64("%") {
        Some(id) => Some(id),
        None => v.get_i64("#"),
    }
}

fn read_param_name(op: &Json) -> (r: String)
    ensures
        r@ == param_name(op@),
{
    match op.get_array("A") {
        Some(items) => {
            let mut i: usize = 0;
            while i < items.len()
                invariant
                    i <= items.len(),
                    op@.field_items("A"@) == Some(views(items@)),
                    first_text(views(items@), 0) == first_text(views(items@), i as int),
                decreases items.len() - i,
            {
                match items[i].as_str() {
                    Some(text) => {
                        return text.to_string();
                    },
                    None => {},
                }
                i = i + 1;
            }
            "unknown_param".to_string()
        },
        None => "unknown_param".to_string(),
    }
}

fn pass1_constant_folder(kind: &str) -> (r: Option<ConstantFolder>)
    ensures
        r == folder_of(kind@),
{
    if same(kind, "1.full") || same(kind, "1.full_int_array") || same(kind, "1.assign_value_") {
        Some(ConstantFolder::Literal)
    } else if same(kind, "1.cast") {
        Some(ConstantFolder::Cast)
    } else if same(kind, "1.squeeze") || same(kind, "1.squeeze_") || same(kind, "1.unsqueeze")
        || same(kind, "1.unsqueeze_") || same(kind, "1.reshape") || same(kind, "1.flatten") {
        Some(ConstantFolder::Keep)
    } else if same(kind, "1.scale") {
        Some(ConstantFolder::Scale)
    } else {
        None
    }
}

fn constant_producer_positions(ops: &Vec<Json>) -> (r: CloneOnWriteMap<usize>)
    ensures
        r@ == producers(views(ops@), ops@.len()),
{
    let mut made: CloneOnWriteMap<usize> = CloneOnWriteMap::new();
    let mut i: usize = 0;
    while i < ops.len()
        invariant
            i <= ops.len(),
            made@ == producers(views(ops@), i as nat),
        decreases ops.len() - i,
    {
        match op_type(&ops[i]) {
            Some(kind) => match op_out_id(&ops[i]) {
                Ok(id) => {
                    if pass1_constant_folder(kind).is_some() {
                        made.insert(id, i);
                    }
                },
                Err(_) => {},
            },
            None => {},
        }
        i = i + 1;
    }
    made
}

fn read_literal_values(kind: &str, op: &Json) -> (r: Vec<u64>)
    ensures
        r@ == literal_values(kind@, op@),
{
    if same(kind, "1.assign_value_") {
        match attr_array(op, "values") {
            Some(items) => collect_floats(items),
            None => Vec::new(),
        }
    } else {
        match attr_f64(op, "value") {
            Some(v) => crate::text::doubles1(v),
            None => match attr_array(op, "value") {
                Some(items) => collect_floats(items),
                None => Vec::new(),
            },
        }
    }
}

fn cast_fault(fault: ConstantFault, bits: u64, dtype: &str) -> (r: Error)
    ensures
        r@ == misfit(fault, bits, dtype@),
{
    Error::Constant { fault, bits, dtype: dtype.to_string() }
}

/// The content of a result with a value.
pub open spec fn value_result(r: Result<u64, Error>) -> Result<u64, ErrorView> {
    match r {
        Ok(v) => Ok(v),
        Err(e) => Err(e@),
    }
}

/// The content of a result with values.
pub open spec fn values_result(r: Result<Vec<u64>, Error>) -> Result<Seq<u64>, ErrorView> {
    match r {
        Ok(list) => Ok(list@),
        Err(e) => Err(e@),
    }
}

fn ensure_integer(v: u64, dtype: &str, low: i64, high: i64) -> (r: Result<u64, Error>)
    requires
        cast_range(dtype@) == Some((low as int, high as int)),
        -0x8000_0000_0000_0000 < low <= high < 0x7FFF_FFFF_FFFF_FFFF,
        dtype@ != "bool"@,
    ensures
        value_result(r) == value_cast(v, dtype@),
{
    if !is_finite(v) {
        return Err(cast_fault(ConstantFault::CastNonFinite, v, dtype));
    }
    if is_below(v, low) || is_above(v, high) {
        return Err(cast_fault(ConstantFault::CastOutOfRange, v, dtype));
    }
    if !is_integral(v) {
        return Err(cast_fault(ConstantFault::CastNonInteger, v, dtype));
    }
    Ok(v)
}

fn ensure_int64(v: u64, dtype: &str) -> (r: Result<u64, Error>)
    requires
        cast_range(dtype@) == Some((-0x8000_0000_0000_0000int, 0x8000_0000_0000_0000int)),
        dtype@ != "bool"@,
    ensures
        value_result(r) == value_cast(v, dtype@),
{
    if !is_finite(v) {
        return Err(cast_fault(ConstantFault::CastNonFinite, v, dtype));
    }
    if is_below_i64(v) || is_above_i64(v) {
        return Err(cast_fault(ConstantFault::CastOutOfRange, v, dtype));
    }
    if !is_integral(v) {
        return Err(cast_fault(ConstantFault::CastNonInteger, v, dtype));
    }
    Ok(v)
}

fn cast_value(v: u64, dtype: &str) -> (r: Result<u64, Error>)
    ensures
        value_result(r) == value_cast(v, dtype@),
{
    if same(dtype, "bool") {
        if is_nan(v) {
            return Err(Error::text("cannot cast NaN constant to bool"));
        }
        if is_zero(v) {
            return Ok(ZERO);
        }
        return Ok(ONE);
    }
    if same(dtype, "int8") {
        ensure_integer(v, dtype, -0x80, 0x7F)
    } else if same(dtype, "uint8") {
        ensure_integer(v, dtype, 0, 0xFF)
    } else if same(dtype, "int16") {
        ensure_integer(v, dtype, -0x8000, 0x7FFF)
    } else if same(dtype, "int32") {
        ensure_integer(v, dtype, -0x8000_0000, 0x7FFF_FFFF)
    } else if same(dtype, "int64") {
        ensure_int64(v, dtype)
    } else {
        Ok(v)
    }
}

proof fn lemma_cast_err(values: Seq<u64>, dtype: Seq<char>, k: nat, n: nat)
    requires
        k <= n,
        values_cast(values, dtype, k) is Err,
    ensures
        values_cast(values, dtype, n) == values_cast(values, dtype, k),
    decreases n,
{
    if k < n {
        lemma_cast_err(values, dtype, k, (n - 1) as nat);
    }
}

/// Copies values.
pub fn copy_values(values: &Vec<u64>) -> (r: Vec<u64>)
    ensures
        r@ == values@,
{
    let r = values.clone();
    proof {
        assert(r@ =~= values@);
    }
    r
}

fn cast_constant_values(values: &Vec<u64>, target: Option<&str>) -> (r: Result<Vec<u64>, Error>)
    ensures
        values_result(r) == constant_cast(
            values@,
            match target {
                Some(dtype) => Some(dtype@),
                None => None,
            },
        ),
{
    let dtype = match target {
        Some(dtype) => dtype,
        None => {
            return Ok(copy_values(values));
        },
    };
    let mut list: Vec<u64> = Vec::new();
    let mut i: usize = 0;
    while i < values.len()
        invariant
            i <= values.len(),
            target == Some(dtype),
            values_cast(values@, dtype@, i as nat) == Ok::<Seq<u64>, ErrorView>(list@),
        decreases values.len() - i,
    {
        match cast_value(values[i], dtype) {
            Ok(v) => {
                list.push(v);
            },
            Err(e) => {
                proof {
                    lemma_cast_err(values@, dtype@, (i + 1) as nat, values@.len());
                }
                return Err(e);
            },
        }
        i = i + 1;
    }
    Ok(list)
}

fn scale_constant(values: &Vec<u64>, op: &Json) -> (r: Vec<u64>)
    ensures
        r@ == constant_scaled(values@, op@),
{
    let scale: u64 = match attr_f64(op, "scale") {
        Some(v) => v,
        None => ONE,
    };
    let bias: u64 = match attr_f64(op, "bias") {
        Some(v) => v,
        None => ZERO,
    };
    let after = attr_bool_or(op, "bias_after_scale", true);
    let mut list: Vec<u64> = Vec::new();
    let mut i: usize = 0;
    while i < values.len()
        invariant
            i <= values.len(),
            scale == or_default(attr_float_of(op@, "scale"@), ONE),
            bias == or_default(attr_float_of(op@, "bias"@), ZERO),
            after == or_default(attr_bool_of(op@, "bias_after_scale"@), true),
            list@ =~= constant_scaled(values@, op@).take(i as int),
        decreases values.len() - i,
    {
        let v: u64 = if after {
            add_double(multiply_double(values[i], scale), bias)
        } else {
            multiply_double(add_double(values[i], bias), scale)
        };
        list.push(v);
        i = i + 1;
    }
    proof {
        assert(constant_scaled(values@, op@).take(i as int) =~= constant_scaled(values@, op@));
    }
    list
}

fn ensure_constant_not_defined_later(
    input: i64,
    index: usize,
    made: &CloneOnWriteMap<usize>,
    kind: &str,
) -> (r: Result<(), Error>)
    ensures
        outcome(r) == not_defined_later(made@, input, index as nat, kind@),
{
    match made.get(input) {
        Some(at) => {
            if *at > index {
                return Err(
                    Error::owned(
                        join6(
                            "constant folding for ",
                            kind,
                            " saw input ",
                            int_text(input).as_str(),
                            " before its constant producer at op index ",
                            size_text(*at).as_str(),
                        ),
                    ),
                );
            }
            Ok(())
        },
        None => Ok(()),
    }
}

fn make_constant(folder: ConstantFolder, values: &Vec<u64>, op: &Json) -> (r: Result<
    Option<Vec<u64>>,
    Error,
>)
    ensures
        match r {
            Ok(Some(list)) => constant_made(folder, values@, op@) == Ok::<
                Option<Seq<u64>>,
                ErrorView,
            >(Some(list@)),
            Ok(None) => constant_made(folder, values@, op@) == Ok::<Option<Seq<u64>>, ErrorView>(
                None,
            ),
            Err(e) => constant_made(folder, values@, op@) == Err::<Option<Seq<u64>>, ErrorView>(
                e@,
            ),
        },
{
    match folder {
        ConstantFolder::Cast => {
            let made = cast_constant_values(values, attr_text(op, "dtype"))?;
            Ok(Some(made))
        },
        ConstantFolder::Scale => {
            if op_input_ids(op).len() == 1 {
                Ok(Some(scale_constant(values, op)))
            } else {
                Ok(None)
            }
        },
        _ => Ok(Some(copy_values(values))),
    }
}

impl Converter {
    fn record_tensor_meta(&mut self, value: &Json)
        ensures
            final(self).meta() == meta_recorded(old(self).meta(), value@),
            final(self).onnx_graph == old(self).onnx_graph,
    {
        match (read_described_id(value), read_type_parts(value)) {
            (Some(id), Some(parts)) => {
                if parts.len() > 0 {
                    match parts[0].get_str("#") {
                        Some(name) => {
                            self.state.tensor_types.insert(id, name.to_string());
                        },
                        None => {},
                    }
                }
                if parts.len() > 1 {
                    match parts[1].as_array() {
                        Some(dims) => {
                            self.state.tensor_shapes.insert(id, collect_sizes(dims));
                        },
                        None => {},
                    }
                }
            },
            _ => {},
        }
    }

    fn record_all(&mut self, items: &Vec<Json>)
        ensures
            final(self).meta() == all_recorded(old(self).meta(), views(items@), items@.len()),
            final(self).onnx_graph == old(self).onnx_graph,
    {
        let ghost m = self.meta();
        let mut i: usize = 0;
        while i < items.len()
            invariant
                i <= items.len(),
                m == old(self).meta(),
                self.meta() == all_recorded(m, views(items@), i as nat),
                self.onnx_graph == old(self).onnx_graph,
            decreases items.len() - i,
        {
            self.record_tensor_meta(&items[i]);
            i = i + 1;
        }
    }

    fn record_pass1_outputs(&mut self, op: &Json)
        ensures
            final(self).meta() == outputs_recorded(old(self).meta(), op@),
            final(self).onnx_graph == old(self).onnx_graph,
    {
        match op.get("O") {
            Some(outputs) => match outputs.as_array() {
                Some(items) => {
                    self.record_all(items);
                },
                None => {
                    if outputs.is_object() {
                        self.record_tensor_meta(outputs);
                    }
                },
            },
            None => {},
        }
    }

    fn collect_pass1_param(&mut self, op: &Json)
        ensures
            final(self).meta() == param_recorded(old(self).meta(), op@),
            final(self).onnx_graph == old(self).onnx_graph,
    {
        let name = read_param_name(op);
        match op_out_id(op) {
            Ok(id) => {
                let onnx_dtype: Option<i32> = match self.state.tensor_types.get(id) {
                    Some(elem) => paddle_elem_type_to_onnx(elem.as_str()),
                    None => None,
                };
                let dims = self.dims_or_empty(id);
                self.state.id_to_name.insert(id, name.clone());
                push_name(&mut self.state.param_names, name.clone());
                self.state.param_meta.insert(name, ParamMeta { onnx_dtype, dims });
            },
            Err(_) => {},
        }
    }

    fn collect_pass1_metadata_op(&mut self, kind: &str, op: &Json)
        ensures
            final(self).meta() == description_recorded(old(self).meta(), kind@, op@),
            final(self).onnx_graph == old(self).onnx_graph,
    {
        if same(kind, "p") {
            self.collect_pass1_param(op);
        } else if same(kind, "0.combine") {
            let inputs = op_input_ids(op);
            match op_out_id(op) {
                Ok(id) => {
                    self.state.combines.insert(id, inputs);
                },
                Err(_) => {},
            }
        } else if same(kind, "0.split") {
            let inputs = op_input_ids(op);
            if inputs.len() > 0 {
                self.state.splits.insert(inputs[0], op_output_ids(op));
            }
        }
    }

    fn fold_constant(
        &mut self,
        folder: ConstantFolder,
        kind: &str,
        op: &Json,
        index: usize,
        made: &CloneOnWriteMap<usize>,
    ) -> (r: Result<(), Error>)
        ensures
            (final(self).meta(), outcome(r)) == constant_folded(
                old(self).meta(),
                folder,
                kind@,
                op@,
                index as nat,
                made@,
            ),
            final(self).onnx_graph == old(self).onnx_graph,
    {
        let id: i64 = match op_out_id(op) {
            Ok(id) => id,
            Err(_) => {
                return Ok(());
            },
        };
        if folder == ConstantFolder::Literal {
            self.state.constants.insert(id, read_literal_values(kind, op));
            return Ok(());
        }
        let inputs = op_input_ids(op);
        if inputs.len() == 0 {
            return Ok(());
        }
        let found: Option<Vec<u64>> = match self.state.constants.get(inputs[0]) {
            Some(values) => Some(copy_values(values)),
            None => None,
        };
        match found {
            Some(values) => {
                match make_constant(folder, &values, op)? {
                    Some(list) => {
                        self.state.constants.insert(id, list);
                    },
                    None => {},
                }
                Ok(())
            },
            None => ensure_constant_not_defined_later(inputs[0], index, made, kind),
        }
    }

    fn collect_pass1_from_op(&mut self, op: &Json, index: usize, made: &CloneOnWriteMap<usize>) -> (r:
        Result<(), Error>)
        ensures
            (final(self).meta(), outcome(r)) == op_recorded(
                old(self).meta(),
                op@,
                index as nat,
                made@,
            ),
            final(self).onnx_graph == old(self).onnx_graph,
    {
        self.record_pass1_outputs(op);
        match op_type(op) {
            Some(kind) => {
                self.collect_pass1_metadata_op(kind, op);
                match pass1_constant_folder(kind) {
                    Some(folder) => self.fold_constant(folder, kind, op, index, made),
                    None => Ok(()),
                }
            },
            None => Ok(()),
        }
    }

    /// Records what a list of operators says of the model's values.
    pub fn collect_pass1_from_ops(&mut self, ops: &Vec<Json>) -> (r: Result<(), Error>)
        ensures
            (final(self).meta(), outcome(r)) == ops_collected(
                old(self).meta(),
                views(ops@),
                ops@.len(),
            ),
            final(self).onnx_graph == old(self).onnx_graph,
        decreases views(ops@),
    {
        let made = constant_producer_positions(ops);
        let ghost m = self.meta();
        let mut i: usize = 0;
        while i < ops.len()
            invariant
                i <= ops.len(),
                m == old(self).meta(),
                made@ == producers(views(ops@), ops@.len()),
                (self.meta(), Ok::<(), ErrorView>(())) == ops_collected(m, views(ops@), i as nat),
                self.onnx_graph == old(self).onnx_graph,
            decreases ops.len() - i,
        {
            let ghost before = self.meta();
            match self.collect_pass1_from_op(&ops[i], i, &made) {
                Ok(_) => {},
                Err(e) => {
                    proof {
                        lemma_ops_err(m, views(ops@), (i + 1) as nat, ops@.len());
                    }
                    return Err(e);
                },
            }
            match ops[i].get_array("regions") {
                Some(regions) => {
                    proof {
                        assert(decreases_to!(views(ops@) => views(ops@)[i as int]));
                        lemma_field_items_smaller(views(ops@)[i as int], "regions"@);
                    }
                    match self.collect_pass1_nested_regions(regions) {
                        Ok(_) => {},
                        Err(e) => {
                            proof {
                                lemma_ops_err(m, views(ops@), (i + 1) as nat, ops@.len());
                            }
                            return Err(e);
                        },
                    }
                },
                None => {},
            }
            i = i + 1;
        }
        Ok(())
    }

    fn collect_pass1_nested_regions(&mut self, regions: &Vec<Json>) -> (r: Result<(), Error>)
        ensures
            (final(self).meta(), outcome(r)) == regions_collected(
                old(self).meta(),
                views(regions@),
                regions@.len(),
            ),
            final(self).onnx_graph == old(self).onnx_graph,
        decreases views(regions@),
    {
        let ghost m = self.meta();
        let mut i: usize = 0;
        while i < regions.len()
            invariant
                i <= regions.len(),
                m == old(self).meta(),
                (self.meta(), Ok::<(), ErrorView>(())) == regions_collected(m, views(regions@), i as nat),
                self.onnx_graph == old(self).onnx_graph,
            decreases regions.len() - i,
        {
            match regions[i].get_array("blocks") {
                Some(blocks) => {
                    proof {
                        assert(decreases_to!(views(regions@) => views(regions@)[i as int]));
                        lemma_field_items_smaller(views(regions@)[i as int], "blocks"@);
                    }
                    match self.collect_pass1_from_blocks(blocks) {
                        Ok(_) => {},
                        Err(e) => {
                            proof {
                                lemma_regions_err(m, views(regions@), (i + 1) as nat, regions@.len());
                            }
                            return Err(e);
                        },
                    }
                },
                None => {},
            }
            i = i + 1;
        }
        Ok(())
    }

    fn collect_pass1_from_blocks(&mut self, blocks: &Vec<Json>) -> (r: Result<(), Error>)
        ensures
            (final(self).meta(), outcome(r)) == blocks_collected(
                old(self).meta(),
                views(blocks@),
                blocks@.len(),
            ),
            final(self).onnx_graph == old(self).onnx_graph,
        decreases views(blocks@),
    {
        let ghost m = self.meta();
        let mut i: usize = 0;
        while i < blocks.len()
            invariant
                i <= blocks.len(),
                m == old(self).meta(),
                (self.meta(), Ok::<(), ErrorView>(())) == blocks_collected(m, views(blocks@), i as nat),
                self.onnx_graph == old(self).onnx_graph,
            decreases blocks.len() - i,
        {
            match blocks[i].get_array("args") {
                Some(args) => {
                    self.record_all(args);
                },
                None => {},
            }
            match blocks[i].get_array("ops") {
                Some(ops) => {
                    proof {
                        assert(decreases_to!(views(blocks@) => views(blocks@)[i as int]));
                        lemma_field_items_smaller(views(blocks@)[i as int], "ops"@);
                    }
                    let outer = self.state.constants.duplicate();
                    let result = self.collect_pass1_from_ops(ops);
                    self.state.constants = outer;
                    match result {
                        Ok(_) => {},
                        Err(e) => {
                            proof {
                                lemma_blocks_err(m, views(blocks@), (i + 1) as nat, blocks@.len());
                            }
                            return Err(e);
                        },
                    }
                },
                None => {},
            }
            i = i + 1;
        }
        Ok(())
    }
}

} // verus!
