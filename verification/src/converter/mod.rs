//! Conversion of a model description into a graph, and the graph's optimization and export.

use vstd::prelude::*;

pub mod attr;
pub mod dispatch;
pub mod emit;
pub mod export;
pub mod growth;
pub mod load;
pub mod op_type;
pub mod ops;
pub mod optimizer;
pub mod pass1;
pub mod pass2;
pub mod state;
pub mod value_info;

verus! {

/// The ONNX opset that a graph is written for unless another is asked for.
pub const DEFAULT_OPSET: i64 = 17;

} // verus!
