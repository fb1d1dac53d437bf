//! The declarations of a graph's boundary values.

use crate::converter::optimizer::options::map_get;
use crate::converter::ops::common::shape_or_empty;
use crate::converter::state::{tensor_name, Converter, Meta};
use crate::dtype::{elem_type_of, onnx_elem_type_from_paddle};
use crate::error::{Error, ErrorView};
use crate::helper::{attr_chars_of, attr_text, out_id, op_out_id, plain_ints, collect_plain_ints};
use crate::json::{Json, JsonView};
use crate::onnx::{
    views, Dimension, DimensionView, TensorType, TensorTypeView, ValueInfo, ValueInfoProto,
};
use vstd::prelude::*;

verus! {

/// A declared size: a negative one is not known.
pub open spec fn dimension_of(size: i64) -> DimensionView {
    if size < 0 {
        DimensionView::Unknown
    } else {
        DimensionView::Value(size)
    }
}

/// A value of a Paddle element type and the given sizes.
pub open spec fn declared(name: Seq<char>, elem: Seq<char>, dims: Seq<i64>) -> Result<
    ValueInfo,
    ErrorView,
> {
    match elem_type_of(elem) {
        Err(e) => Err(e),
        Ok(elem_type) => Ok(
            ValueInfo {
                name,
                tensor_type: Some(
                    TensorTypeView {
                        elem_type,
                        shape: Some(Seq::new(dims.len(), |i: int| dimension_of(dims[i]))),
                    },
                ),
            },
        ),
    }
}

/// A value of which only the name is known.
pub open spec fn undeclared(name: Seq<char>) -> ValueInfo {
    ValueInfo { name, tensor_type: None }
}

/// A value with what is known of its id.
pub open spec fn declared_for_id(m: Meta, id: i64, name: Seq<char>) -> Result<
    ValueInfo,
    ErrorView,
> {
    match map_get(m.tensor_types, id) {
        Some(elem) => declared(name, elem, shape_or_empty(m, id)),
        None => Ok(undeclared(name)),
    }
}

/// The parts of a value's type, where it has at least an element type and sizes.
pub open spec fn typed_parts(v: JsonView) -> Option<(Seq<char>, Seq<i64>)> {
    match v.field2("TT"@, "D"@) {
        Some(JsonView::Array(parts)) => if parts.len() >= 2 {
            match parts[0].field_chars("#"@) {
                Some(elem) => Some(
                    (
                        elem,
                        match parts[1].items() {
                            Some(dims) => plain_ints(dims, dims.len()),
                            None => Seq::empty(),
                        },
                    ),
                ),
                None => None,
            }
        } else {
            None
        },
        _ => None,
    }
}

/// A value with what an item of an operator's list says of it.
pub open spec fn declared_by(name: Seq<char>, list: Option<Seq<JsonView>>) -> Result<
    ValueInfo,
    ErrorView,
> {
    match list {
        Some(items) => if items.len() > 0 {
            match typed_parts(items[0]) {
                Some((elem, dims)) => declared(name, elem, dims),
                None => Ok(undeclared(name)),
            }
        } else {
            Ok(undeclared(name))
        },
        None => Ok(undeclared(name)),
    }
}

/// The name that an operator gives a boundary value.
pub open spec fn given_name(op: JsonView) -> Option<Seq<char>> {
    match attr_chars_of(op, "name"@) {
        Some(name) => if name.len() > 0 {
            Some(name)
        } else {
            None
        },
        None => None,
    }
}

/// The boundary value of an operator: an input takes its given name, or else that of its id, and
/// an output may stay without a name for now.
pub open spec fn boundary_value(m: Meta, op: JsonView, is_input: bool) -> Result<
    ValueInfo,
    ErrorView,
> {
    let named = match given_name(op) {
        Some(name) => Ok(name),
        None => if is_input {
            match out_id(op) {
                Err(e) => Err(e),
                Ok(id) => tensor_name(m, id),
            }
        } else {
            Ok(Seq::empty())
        },
    };
    match named {
        Err(e) => Err(e),
        Ok(name) => declared_by(name, op.field_items("O"@)),
    }
}

/// The content of a result with a boundary value.
pub open spec fn info_result(r: Result<ValueInfoProto, Error>) -> Result<ValueInfo, ErrorView> {
    match r {
        Ok(info) => Ok(info@),
        Err(e) => Err(e@),
    }
}

fn sizes_declared(dims: &Vec<i64>) -> (r: Vec<Dimension>)
    ensures
        views(r@) == Seq::new(dims@.len(), |i: int| dimension_of(dims@[i])),
{
    let mut list: Vec<Dimension> = Vec::new();
    let mut i: usize = 0;
    while i < dims.len()
        invariant
            i <= dims.len(),
            views(list@) =~= Seq::new(i as nat, |k: int| dimension_of(dims@[k])),
        decreases dims.len() - i,
    {
        let ghost before = views(list@);
        let d = if dims[i] < 0 {
            Dimension::Unknown
        } else {
            Dimension::Value(dims[i])
        };
        list.push(d);
        proof {
            assert(views(list@) =~= before.push(d@));
        }
        i = i + 1;
    }
    list
}

/// A value of a Paddle element type and the given sizes.
pub fn declare(name: String, elem: &str, dims: &Vec<i64>) -> (r: Result<ValueInfoProto, Error>)
    ensures
        info_result(r) == declared(name@, elem@, dims@),
{
    let elem_type: i32 = onnx_elem_type_from_paddle(elem)?;
    Ok(
        ValueInfoProto {
            name,
            tensor_type: Some(TensorType { elem_type, shape: Some(sizes_declared(dims)) }),
        },
    )
}

/// Reads the parts of a value's type.
pub fn read_typed_parts(v: &Json) -> (r: Option<(&str, Vec<i64>)>)
    ensures
        match r {
            Some((elem, dims)) => typed_parts(v@) == Some((elem@, dims@)),
            None => typed_parts(v@) is None,
        },
{
    let found = match v.get2("TT", "D") {
        Some(data) => data.as_array(),
        None => None,
    };
    match found {
        Some(parts) => {
            if parts.len() < 2 {
                return None;
            }
            match parts[0].get_str("#") {
                Some(elem) => {
                    let dims: Vec<i64> = match parts[1].as_array() {
                        Some(items) => collect_plain_ints(items),
                        None => Vec::new(),
                    };
                    Some((elem, dims))
                },
                None => None,
            }
        },
        None => None,
    }
}

/// A value with what an item of an operator's list says of it.
pub fn declare_by(name: String, list: Option<&Vec<Json>>) -> (r: Result<ValueInfoProto, Error>)
    ensures
        info_result(r) == declared_by(
            name@,
            match list {
                Some(items) => Some(views(items@)),
                None => None,
            },
        ),
{
    match list {
        Some(items) => {
            if items.len() > 0 {
                match read_typed_parts(&items[0]) {
                    Some((elem, dims)) => {
                        return declare(name, elem, &dims);
                    },
                    None => {},
                }
            }
        },
        None => {},
    }
    Ok(ValueInfoProto { name, tensor_type: None })
}

/// Reads the name that an operator gives a boundary value.
pub fn read_given_name(op: &Json) -> (r: Option<&str>)
    ensures
        match r {
            Some(name) => given_name(op@) == Some(name@),
            None => given_name(op@) is None,
        },
{
    match attr_text(op, "name") {
        Some(name) => if crate::text::same(name, "") {
            proof {
                reveal_strlit("");
            }
            None
        } else {
            proof {
                reveal_strlit("");
                assert(name@ =~= ""@ || name@.len() > 0);
            }
            Some(name)
        },
        None => None,
    }
}

impl Converter {
    /// The boundary value of an operator.
    pub fn build_value_info(&self, op: &Json, is_input: bool) -> (r: Result<
        ValueInfoProto,
        Error,
    >)
        ensures
            info_result(r) == boundary_value(self.meta(), op@, is_input),
    {
        let name: String = match read_given_name(op) {
            Some(name) => name.to_string(),
            None => {
                if is_input {
                    let id: i64 = op_out_id(op)?;
                    self.get_tensor_name(id)?
                } else {
                    String::new()
                }
            },
        };
        declare_by(name, op.get_array("O"))
    }

    /// A value of a Paddle element type and the given sizes.
    pub fn build_value_info_from_meta(&self, name: String, elem: &str, dims: &Vec<i64>) -> (r: Result<
        ValueInfoProto,
        Error,
    >)
        ensures
            info_result(r) == declared(name@, elem@, dims@),
    {
        declare(name, elem, dims)
    }

    /// A value with what is known of its id.
    pub fn build_value_info_for_id(&self, id: i64, name: String) -> (r: Result<
        ValueInfoProto,
        Error,
    >)
        ensures
            info_result(r) == declared_for_id(self.meta(), id, name@),
    {
        match self.state.tensor_types.get(id) {
            Some(elem) => {
                let dims = self.dims_or_empty(id);
                declare(name, elem.as_str(), &dims)
            },
            None => Ok(ValueInfoProto { name, tensor_type: None }),
        }
    }
}

} // verus!
