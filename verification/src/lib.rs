use vstd::prelude::*;

pub mod arith;
pub mod bytes;
pub mod cli;
pub mod codegen;
pub mod converter;
pub mod document;
pub mod dtype;
pub mod error;
pub mod float;
pub mod fresh;
pub mod helper;
pub mod json;
pub mod laws;
pub mod name_set;
pub mod nested;
pub mod onnx;
pub mod order;
pub mod scope;
pub mod text;

verus! {

} // verus!
