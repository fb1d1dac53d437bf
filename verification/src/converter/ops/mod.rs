//! The lowering of each operator.

pub mod array;
pub mod bitwise;
pub mod common;
pub mod control;
pub mod conv;
pub mod indexing;
pub mod math;
pub mod misc;
pub mod nms;
pub mod norm;
pub mod pad;
pub mod reduce;
pub mod resize;
pub mod shape;
pub mod transform;
pub mod update;
