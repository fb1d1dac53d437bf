//! The model that is written out.

use crate::converter::export::validate::{graph_checked, validate_graph};
use crate::converter::export::{prepare_graph_for_export, prepared};
use crate::converter::optimizer::options::{
    default_passes, OptimizerOptions, OptimizerPasses, ShapeTable,
};
use crate::converter::state::{Converter, Meta};
use crate::error::{outcome, Error, ErrorView};
use crate::name_set::NameSet;
use crate::onnx::{graph_of, Graph, GraphProto};
use crate::text::{dec, tag};
use vstd::prelude::*;

verus! {

/// The version of the file format.
pub const IR_VERSION: i64 = 8;

/// An operator set that a model uses.
pub struct OperatorSetIdProto {
    pub domain: String,
    pub version: i64,
}

/// A model: a graph, the operator sets it uses, and who made it.
pub struct ModelProto {
    pub ir_version: i64,
    pub opset_import: Vec<OperatorSetIdProto>,
    pub producer_name: String,
    pub producer_version: String,
    pub graph: Option<GraphProto>,
}

/// The content of a [`ModelProto`]. An operator set is a domain and a version.
pub struct Model {
    pub ir_version: i64,
    pub opset_import: Seq<(Seq<char>, i64)>,
    pub producer_name: Seq<char>,
    pub producer_version: Seq<char>,
    pub graph: Option<Graph>,
}

impl View for ModelProto {
    type V = Model;

    open spec fn view(&self) -> Model {
        Model {
            ir_version: self.ir_version,
            opset_import: Seq::new(
                self.opset_import@.len(),
                |i: int| (self.opset_import@[i].domain@, self.opset_import@[i].version),
            ),
            producer_name: self.producer_name@,
            producer_version: self.producer_version@,
            graph: match self.graph {
                Some(graph) => Some(graph@),
                None => None,
            },
        }
    }
}

/// The model of a graph that is written for an opset.
pub open spec fn model_of(g: Graph, opset: i64) -> Model {
    Model {
        ir_version: IR_VERSION,
        opset_import: seq![(""@, opset)],
        producer_name: "p2o"@,
        producer_version: "0.1.0"@,
        graph: Some(g),
    }
}

/// The graph that is left, and the model that is written, when a graph is exported: it is made
/// ready and checked, and then it is the model's.
pub open spec fn exported(g: Graph, opset: i64) -> (Graph, Result<Model, ErrorView>) {
    match prepared(g) {
        (g, Err(e)) => (g, Err(e)),
        (g, Ok(_)) => match graph_checked(g, Set::empty()) {
            Err(e) => (g, Err(e)),
            Ok(_) => (graph_of(""@), Ok(model_of(g, opset))),
        },
    }
}

/// The content of a result with a model.
pub open spec fn model_result(r: Result<ModelProto, Error>) -> Result<Model, ErrorView> {
    match r {
        Ok(model) => Ok(model@),
        Err(e) => Err(e@),
    }
}

/// The name by which the optimizer knows a value.
pub open spec fn shape_name(m: Meta, id: i64) -> Seq<char> {
    if m.id_to_name.contains_key(id) {
        m.id_to_name[id]
    } else {
        "tensor_"@ + dec(id as int)
    }
}

/// Whether shapes by name are those of the values with that name. Of several values with one name,
/// any may give the shape.
pub open spec fn shapes_named(m: Meta, shapes: Map<Seq<char>, Seq<i64>>) -> bool {
    &&& forall|id: i64| #[trigger]
        m.tensor_shapes.contains_key(id) ==> shapes.contains_key(shape_name(m, id))
    &&& forall|name: Seq<char>| #[trigger]
        shapes.contains_key(name) ==> exists|id: i64|
            #[trigger] m.tensor_shapes.contains_key(id) && shape_name(m, id) == name && shapes[name]
                == m.tensor_shapes[id]
}

impl Converter {
    /// Checks that every value that the graph refers to is defined, and defined once.
    pub fn validate(&self) -> (r: Result<(), Error>)
        ensures
            outcome(r) == graph_checked(self.onnx_graph@, Set::empty()),
    {
        validate_graph(&self.onnx_graph, &NameSet::new())
    }

    /// Takes the graph out as a model for the given opset.
    pub fn export_onnx(&mut self, opset_version: i64) -> (r: Result<ModelProto, Error>)
        ensures
            final(self).meta() == old(self).meta(),
            (final(self).onnx_graph@, model_result(r)) == exported(
                old(self).onnx_graph@,
                opset_version,
            ),
    {
        prepare_graph_for_export(&mut self.onnx_graph)?;
        self.validate()?;
        let mut graph = GraphProto::new("");
        std::mem::swap(&mut graph, &mut self.onnx_graph);
        let model = ModelProto {
            ir_version: IR_VERSION,
            opset_import: vec![
                OperatorSetIdProto { domain: "".to_string(), version: opset_version },
            ],
            producer_name: "p2o".to_string(),
            producer_version: "0.1.0".to_string(),
            graph: Some(graph),
        };
        proof {
            assert(model@.opset_import =~= seq![(""@, opset_version)]);
        }
        Ok(model)
    }

    /// What the optimizer is asked to do, with the shapes that are known. Where values share a
    /// name, whose shape counts is left open.
    pub fn optimizer_options(&self) -> (r: OptimizerOptions)
        ensures
            r@.level == self.meta().optimization_level,
            r@.target_opset == self.meta().target_opset,
            r@.max_iterations == 8,
            r@.passes == default_passes(),
            shapes_named(self.meta(), r@.shapes),
    {
        let ghost m = self.meta();
        let ids = self.state.tensor_shapes.ids();
        let mut shapes = ShapeTable::new();
        let mut i: usize = 0;
        while i < ids.len()
            invariant
                i <= ids.len(),
                m == self.meta(),
                ids@.to_set() == m.tensor_shapes.dom(),
                forall|k: int|
                    0 <= k < i ==> shapes@.contains_key(shape_name(m, #[trigger] ids@[k])),
                forall|name: Seq<char>| #[trigger]
                    shapes@.contains_key(name) ==> exists|id: i64|
                        #[trigger] m.tensor_shapes.contains_key(id) && shape_name(m, id) == name
                            && shapes@[name] == m.tensor_shapes[id],
            decreases ids.len() - i,
        {
            let id = ids[i];
            proof {
                assert(ids@.to_set().contains(ids@[i as int]));
                assert(m.tensor_shapes.contains_key(id));
            }
            let name: String = match self.state.id_to_name.get(id) {
                Some(name) => name.clone(),
                None => tag("tensor_", id),
            };
            match self.known_dims(id) {
                Some(dims) => {
                    let ghost before = shapes@;
                    shapes.insert(name, dims);
                    proof {
                        assert forall|x: Seq<char>| #[trigger]
                            shapes@.contains_key(x) implies exists|id: i64|
                            #[trigger] m.tensor_shapes.contains_key(id) && shape_name(m, id) == x
                                && shapes@[x] == m.tensor_shapes[id] by {
                            if x != name@ {
                                assert(before.contains_key(x));
                            }
                        }
                    }
                },
                None => {},
            }
            i = i + 1;
        }
        proof {
            assert forall|id: i64| #[trigger]
                m.tensor_shapes.contains_key(id) implies shapes@.contains_key(
                shape_name(m, id),
            ) by {
                assert(ids@.to_set().contains(id));
                let k = choose|k: int| 0 <= k < ids@.len() && ids@[k] == id;
                assert(shapes@.contains_key(shape_name(m, ids@[k])));
            }
        }
        OptimizerOptions {
            level: self.optimization_level,
            target_opset: self.target_opset,
            max_iterations: 8,
            passes: OptimizerPasses::default(),
            shapes,
        }
    }
}

} // verus!
