//! Element types: ONNX numbers, Paddle spellings and the mapping between them.

use crate::error::{message, Error, ErrorView};
use crate::text::{join, same};
use vstd::prelude::*;

verus! {

pub const FLOAT: i32 = 1;

pub const UINT8: i32 = 2;

pub const INT8: i32 = 3;

pub const UINT16: i32 = 4;

pub const INT16: i32 = 5;

pub const INT32: i32 = 6;

pub const INT64: i32 = 7;

pub const BOOL: i32 = 9;

pub const FLOAT16: i32 = 10;

pub const DOUBLE: i32 = 11;

pub const BFLOAT16: i32 = 16;

/// The ONNX element type of a Paddle dtype such as `float32`.
pub open spec fn dtype_named(name: Seq<char>) -> Option<i32> {
    if name == "float32"@ {
        Some(FLOAT)
    } else if name == "float64"@ {
        Some(DOUBLE)
    } else if name == "float16"@ {
        Some(FLOAT16)
    } else if name == "bfloat16"@ {
        Some(BFLOAT16)
    } else if name == "int8"@ {
        Some(INT8)
    } else if name == "uint8"@ {
        Some(UINT8)
    } else if name == "int16"@ {
        Some(INT16)
    } else if name == "uint16"@ {
        Some(UINT16)
    } else if name == "int32"@ {
        Some(INT32)
    } else if name == "int64"@ {
        Some(INT64)
    } else if name == "bool"@ {
        Some(BOOL)
    } else {
        None
    }
}

/// The ONNX element type of a Paddle tensor element type such as `0.t_f32`.
pub open spec fn elem_type_named(name: Seq<char>) -> Option<i32> {
    if name == "0.t_f32"@ {
        Some(FLOAT)
    } else if name == "0.t_f64"@ {
        Some(DOUBLE)
    } else if name == "0.t_f16"@ {
        Some(FLOAT16)
    } else if name == "0.t_bf16"@ {
        Some(BFLOAT16)
    } else if name == "0.t_i8"@ {
        Some(INT8)
    } else if name == "0.t_ui8"@ {
        Some(UINT8)
    } else if name == "0.t_i16"@ {
        Some(INT16)
    } else if name == "0.t_i32"@ {
        Some(INT32)
    } else if name == "0.t_i64"@ {
        Some(INT64)
    } else if name == "0.t_bool"@ {
        Some(BOOL)
    } else {
        None
    }
}

/// The name of an ONNX element type in messages.
pub open spec fn dtype_name(dtype: i32) -> Seq<char> {
    if dtype == FLOAT {
        "float32"@
    } else if dtype == UINT8 {
        "uint8"@
    } else if dtype == INT8 {
        "int8"@
    } else if dtype == UINT16 {
        "uint16"@
    } else if dtype == INT16 {
        "int16"@
    } else if dtype == INT32 {
        "int32"@
    } else if dtype == INT64 {
        "int64"@
    } else if dtype == BOOL {
        "bool"@
    } else if dtype == FLOAT16 {
        "float16"@
    } else if dtype == DOUBLE {
        "float64"@
    } else if dtype == BFLOAT16 {
        "bfloat16"@
    } else {
        "unknown"@
    }
}

/// The ONNX element type of a Paddle dtype.
pub fn paddle_dtype_to_onnx(name: &str) -> (r: Option<i32>)
    ensures
        r == dtype_named(name@),
{
    if same(name, "float32") {
        Some(FLOAT)
    } else if same(name, "float64") {
        Some(DOUBLE)
    } else if same(name, "float16") {
        Some(FLOAT16)
    } else if same(name, "bfloat16") {
        Some(BFLOAT16)
    } else if same(name, "int8") {
        Some(INT8)
    } else if same(name, "uint8") {
        Some(UINT8)
    } else if same(name, "int16") {
        Some(INT16)
    } else if same(name, "uint16") {
        Some(UINT16)
    } else if same(name, "int32") {
        Some(INT32)
    } else if same(name, "int64") {
        Some(INT64)
    } else if same(name, "bool") {
        Some(BOOL)
    } else {
        None
    }
}

/// The ONNX element type of a Paddle tensor element type.
pub fn paddle_elem_type_to_onnx(name: &str) -> (r: Option<i32>)
    ensures
        r == elem_type_named(name@),
{
    if same(name, "0.t_f32") {
        Some(FLOAT)
    } else if same(name, "0.t_f64") {
        Some(DOUBLE)
    } else if same(name, "0.t_f16") {
        Some(FLOAT16)
    } else if same(name, "0.t_bf16") {
        Some(BFLOAT16)
    } else if same(name, "0.t_i8") {
        Some(INT8)
    } else if same(name, "0.t_ui8") {
        Some(UINT8)
    } else if same(name, "0.t_i16") {
        Some(INT16)
    } else if same(name, "0.t_i32") {
        Some(INT32)
    } else if same(name, "0.t_i64") {
        Some(INT64)
    } else if same(name, "0.t_bool") {
        Some(BOOL)
    } else {
        None
    }
}

/// The name of an ONNX element type in messages.
pub fn onnx_dtype_name(dtype: i32) -> (r: &'static str)
    ensures
        r@ == dtype_name(dtype),
{
    if dtype == FLOAT {
        "float32"
    } else if dtype == UINT8 {
        "uint8"
    } else if dtype == INT8 {
        "int8"
    } else if dtype == UINT16 {
        "uint16"
    } else if dtype == INT16 {
        "int16"
    } else if dtype == INT32 {
        "int32"
    } else if dtype == INT64 {
        "int64"
    } else if dtype == BOOL {
        "bool"
    } else if dtype == FLOAT16 {
        "float16"
    } else if dtype == DOUBLE {
        "float64"
    } else if dtype == BFLOAT16 {
        "bfloat16"
    } else {
        "unknown"
    }
}

/// The ONNX element type of a Paddle tensor element type, or an error.
pub open spec fn elem_type_of(name: Seq<char>) -> Result<i32, ErrorView> {
    match elem_type_named(name) {
        Some(dtype) => Ok(dtype),
        None => Err(message("Unsupported Paddle element type: "@ + name)),
    }
}

/// The content of a result with an element type.
pub open spec fn dtype_result(r: Result<i32, Error>) -> Result<i32, ErrorView> {
    match r {
        Ok(dtype) => Ok(dtype),
        Err(e) => Err(e@),
    }
}

/// The ONNX element type of a Paddle tensor element type, or an error.
pub fn onnx_elem_type_from_paddle(name: &str) -> (r: Result<i32, Error>)
    ensures
        dtype_result(r) == elem_type_of(name@),
{
    match paddle_elem_type_to_onnx(name) {
        Some(dtype) => Ok(dtype),
        None => Err(Error::owned(join("Unsupported Paddle element type: ", name))),
    }
}

} // verus!
