//! What the optimizer is asked to do.

use crate::converter::optimizer::constants::{const_named, const_value};
use crate::converter::optimizer::facts::{declared_dtype, declared_shape, or_else, GraphFacts};
use crate::converter::DEFAULT_OPSET;
use crate::onnx::{Graph, GraphProto};
use vstd::hash_map::StringHashMap;
use vstd::prelude::*;

verus! {

/// How much a graph is optimized.
#[derive(Clone, Copy, Debug, PartialEq, Eq, Structural)]
pub enum OptimizationLevel {
    /// The graph stays as it is.
    Off,
    /// Every pass that keeps the meaning of the graph.
    Basic,
}

impl Default for OptimizationLevel {
    fn default() -> (r: Self)
        ensures
            r == OptimizationLevel::Basic,
    {
        OptimizationLevel::Basic
    }
}

/// Which passes run.
#[derive(Clone, Copy, Debug, PartialEq, Eq, Structural)]
pub struct OptimizerPasses {
    pub flush_subnormal_initializers: bool,
    pub fuse_constant_reshape: bool,
    pub fuse_constant_unsqueeze: bool,
    pub fuse_constant_cast: bool,
    pub eliminate_arithmetic_identity: bool,
    pub optimize_transpose: bool,
    pub materialize_conv_kernel_shape: bool,
    pub fuse_conv_add_bias: bool,
    pub fuse_conv_batch_norm: bool,
    pub fuse_matmul_add_bias: bool,
}

/// Every pass but the flush of subnormal constants, which loses information: an epsilon, a
/// denominator or a threshold can change.
pub open spec fn default_passes() -> OptimizerPasses {
    OptimizerPasses {
        flush_subnormal_initializers: false,
        fuse_constant_reshape: true,
        fuse_constant_unsqueeze: true,
        fuse_constant_cast: true,
        eliminate_arithmetic_identity: true,
        optimize_transpose: true,
        materialize_conv_kernel_shape: true,
        fuse_conv_add_bias: true,
        fuse_conv_batch_norm: true,
        fuse_matmul_add_bias: true,
    }
}

impl Default for OptimizerPasses {
    fn default() -> (r: Self)
        ensures
            r == default_passes(),
    {
        OptimizerPasses {
            flush_subnormal_initializers: false,
            fuse_constant_reshape: true,
            fuse_constant_unsqueeze: true,
            fuse_constant_cast: true,
            eliminate_arithmetic_identity: true,
            optimize_transpose: true,
            materialize_conv_kernel_shape: true,
            fuse_conv_add_bias: true,
            fuse_conv_batch_norm: true,
            fuse_matmul_add_bias: true,
        }
    }
}

/// Shapes by name.
pub struct ShapeTable {
    table: StringHashMap<Vec<i64>>,
}

impl View for ShapeTable {
    type V = Map<Seq<char>, Seq<i64>>;

    closed spec fn view(&self) -> Map<Seq<char>, Seq<i64>> {
        self.table@.map_values(|dims: Vec<i64>| dims@)
    }
}

/// A map read as a partial function.
pub open spec fn map_get<K, V>(m: Map<K, V>, k: K) -> Option<V> {
    if m.contains_key(k) {
        Some(m[k])
    } else {
        None
    }
}

impl ShapeTable {
    /// The empty table.
    pub fn new() -> (r: ShapeTable)
        ensures
            r@ == Map::<Seq<char>, Seq<i64>>::empty(),
    {
        let r = ShapeTable { table: StringHashMap::new() };
        proof {
            assert(r@ =~= Map::<Seq<char>, Seq<i64>>::empty());
        }
        r
    }

    /// Gives `name` a shape, in place of the one it had.
    pub fn insert(&mut self, name: String, dims: Vec<i64>)
        ensures
            final(self)@ == old(self)@.insert(name@, dims@),
    {
        self.table.insert(name, dims);
        proof {
            assert(self@ =~= old(self)@.insert(name@, dims@));
        }
    }

    /// The shape of `name`.
    pub fn get(&self, name: &str) -> (r: Option<&Vec<i64>>)
        ensures
            match r {
                Some(dims) => map_get(self@, name@) == Some(dims@),
                None => map_get(self@, name@) is None,
            },
    {
        self.table.get(name)
    }
}

/// What the optimizer is asked to do, and shapes that it may rely on.
pub struct OptimizerOptions {
    pub level: OptimizationLevel,
    pub target_opset: i64,
    pub max_iterations: usize,
    pub passes: OptimizerPasses,
    pub shapes: ShapeTable,
}

/// The content of [`OptimizerOptions`].
#[verifier::ext_equal]
pub struct Options {
    pub level: OptimizationLevel,
    pub target_opset: i64,
    pub max_iterations: usize,
    pub passes: OptimizerPasses,
    pub shapes: Map<Seq<char>, Seq<i64>>,
}

impl View for OptimizerOptions {
    type V = Options;

    open spec fn view(&self) -> Options {
        Options {
            level: self.level,
            target_opset: self.target_opset,
            max_iterations: self.max_iterations,
            passes: self.passes,
            shapes: self.shapes@,
        }
    }
}

impl Default for OptimizerOptions {
    fn default() -> (r: Self)
        ensures
            r@ == (Options {
                level: OptimizationLevel::Basic,
                target_opset: DEFAULT_OPSET,
                max_iterations: 8,
                passes: default_passes(),
                shapes: Map::empty(),
            }),
    {
        OptimizerOptions {
            level: OptimizationLevel::Basic,
            target_opset: DEFAULT_OPSET,
            max_iterations: 8,
            passes: OptimizerPasses::default(),
            shapes: ShapeTable::new(),
        }
    }
}

/// The options for a subgraph: names there have meanings of their own, so no shape carries over.
pub open spec fn inner_options(o: Options) -> Options {
    Options { shapes: Map::empty(), ..o }
}

/// The options for a subgraph.
pub fn subgraph_options(options: &OptimizerOptions) -> (r: OptimizerOptions)
    ensures
        r@ == inner_options(options@),
{
    OptimizerOptions {
        level: options.level,
        target_opset: options.target_opset,
        max_iterations: options.max_iterations,
        passes: options.passes,
        shapes: ShapeTable::new(),
    }
}

/// The shape of `name` that the graph declares, or else the one that the options give.
pub open spec fn known_shape(g: Graph, o: Options, name: Seq<char>) -> Option<Seq<i64>> {
    or_else(declared_shape(g, name), map_get(o.shapes, name))
}

/// The known shape of `name`, or else that of the constant it stands for.
pub open spec fn shape_of(g: Graph, o: Options, name: Seq<char>) -> Option<Seq<i64>> {
    or_else(
        known_shape(g, o, name),
        match const_named(g, name) {
            Some(c) => Some(c.tensor.dims),
            None => None,
        },
    )
}

/// The declared element type of `name`, or else that of the constant it stands for.
pub open spec fn dtype_of(g: Graph, name: Seq<char>) -> Option<i32> {
    or_else(
        declared_dtype(g, name),
        match const_named(g, name) {
            Some(c) => Some(c.tensor.data_type),
            None => None,
        },
    )
}

/// The known shape of `name`.
pub fn lookup_shape<'a>(
    graph: &'a GraphProto,
    facts: &'a GraphFacts,
    options: &'a OptimizerOptions,
    name: &str,
) -> (r: Option<&'a Vec<i64>>)
    requires
        facts.describes(graph@),
    ensures
        match r {
            Some(dims) => known_shape(graph@, options@, name@) == Some(dims@),
            None => known_shape(graph@, options@, name@) is None,
        },
{
    match facts.shape(Ghost(graph@), name) {
        Some(dims) => Some(dims),
        None => options.shapes.get(name),
    }
}

/// The known shape of `name`, or else that of the constant it stands for.
pub fn tensor_shape(
    graph: &GraphProto,
    facts: &GraphFacts,
    options: &OptimizerOptions,
    name: &str,
) -> (r: Option<Vec<i64>>)
    requires
        facts.describes(graph@),
    ensures
        match r {
            Some(dims) => shape_of(graph@, options@, name@) == Some(dims@),
            None => shape_of(graph@, options@, name@) is None,
        },
{
    match lookup_shape(graph, facts, options, name) {
        Some(dims) => {
            let copy = dims.clone();
            proof {
                assert(copy@ =~= dims@);
            }
            Some(copy)
        },
        None => match const_value(graph, facts, name) {
            Some(value) => Some(value.tensor.dims),
            None => None,
        },
    }
}

/// The declared element type of `name`, or else that of the constant it stands for.
pub fn tensor_dtype(graph: &GraphProto, facts: &GraphFacts, name: &str) -> (r: Option<i32>)
    requires
        facts.describes(graph@),
    ensures
        r == dtype_of(graph@, name@),
{
    match facts.dtype(Ghost(graph@), name) {
        Some(dtype) => Some(dtype),
        None => match const_value(graph, facts, name) {
            Some(value) => Some(value.tensor.data_type),
            None => None,
        },
    }
}

} // verus!
