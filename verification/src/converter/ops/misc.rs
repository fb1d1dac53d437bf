//! Inputs, outputs, and operators that are carried over as they are.

use crate::converter::attr::attributes_extracted;
use crate::converter::emit::{done, failed, unary_added, Step};
use crate::converter::export::sanitize::produced_names;
use crate::converter::op_type::op_type_mapped;
use crate::converter::ops::common::names_upto;
use crate::converter::state::{tensor_name, Converter, Meta};
use crate::converter::value_info::{
    boundary_value, declare_by, declared_by, given_name, read_given_name,
};
use crate::error::{message, outcome, Error, ErrorView};
use crate::fresh::{find_free, free_name};
use crate::helper::{input_ids, op_input_ids, op_out_id, op_output_ids, out_id, output_ids};
use crate::json::{Json, JsonView};
use crate::name_set::NameSet;
use crate::onnx::{
    node_of, views, Attribute, AttributeProto, Graph, GraphProto, Node, NodeProto, ValueInfo,
};
use crate::scope::{produced, value_named};
use crate::text::{dec, join, list1, names, size_text};
use vstd::prelude::*;

verus! {

/// A step that changes what is known and a graph, and may fail.
pub type MetaStep = (Meta, Graph, Result<(), ErrorView>);

/// The step of an operator that only changes the graph.
pub open spec fn keeping(m: Meta, step: Step) -> MetaStep {
    (m, step.0, step.1)
}

/// What is known once a value has a name.
pub open spec fn named(m: Meta, id: i64, name: Seq<char>) -> Meta {
    Meta { id_to_name: m.id_to_name.insert(id, name), ..m }
}

/// The lowering of `data`: an input of the graph, by whose name its value goes from then on.
pub open spec fn data_lowered(m: Meta, g: Graph, op: JsonView) -> MetaStep {
    match boundary_value(m, op, true) {
        Err(e) => (m, g, Err(e)),
        Ok(info) => {
            let g = g.with_graph_input(info);
            match out_id(op) {
                Err(e) => (m, g, Err(e)),
                Ok(id) => (named(m, id, info.name), g, Ok(())),
            }
        },
    }
}

/// Whether a name is that of an output of the graph or of a node.
pub open spec fn output_taken(g: Graph, name: Seq<char>) -> bool {
    value_named(g.output, name) || produced(g.node, name)
}

/// The name of the next output of a graph: the given one, or else one by its position, with a
/// number where that is taken.
pub open spec fn output_name(g: Graph, op: JsonView) -> Seq<char> {
    let base = match given_name(op) {
        Some(name) => name,
        None => "fetch_"@ + dec(g.output.len() as int),
    };
    if output_taken(g, base) {
        free_name(Set::new(|name: Seq<char>| name.len() > 0 && output_taken(g, name)), base, 1)
    } else {
        base
    }
}

/// The declaration of an output: by the operator's outputs, or else by its inputs.
pub open spec fn output_declared(m: Meta, op: JsonView) -> Result<ValueInfo, ErrorView> {
    match boundary_value(m, op, false) {
        Err(e) => Err(e),
        Ok(info) => if info.tensor_type is None {
            declared_by(info.name, op.field_items("I"@))
        } else {
            Ok(info)
        },
    }
}

/// The lowering of `fetch`: an output of the graph, which passes a value on where it has not that
/// value's name.
pub open spec fn fetch_lowered(m: Meta, g: Graph, op: JsonView) -> Step {
    match output_declared(m, op) {
        Err(e) => failed(g, e),
        Ok(info) => if input_ids(op).len() == 0 {
            failed(g, message("fetch op has no input; cannot produce graph output"@))
        } else {
            match tensor_name(m, input_ids(op)[0]) {
                Err(e) => failed(g, e),
                Ok(input) => {
                    let name = output_name(g, op);
                    let g = g.with_graph_output(ValueInfo { name, ..info });
                    if input == name {
                        done(g)
                    } else {
                        done(unary_added(g, "Identity"@, input, name))
                    }
                },
            }
        },
    }
}

/// The lowering of `dropout`, which passes its input on.
pub open spec fn dropout_lowered(m: Meta, g: Graph, op: JsonView) -> Step {
    let inputs = if input_ids(op).len() > 0 {
        names_upto(m, input_ids(op), 1)
    } else {
        Ok(Seq::empty())
    };
    match inputs {
        Err(e) => failed(g, e),
        Ok(inputs) => match out_id(op) {
            Err(e) => failed(g, e),
            Ok(id) => match tensor_name(m, id) {
                Err(e) => failed(g, e),
                Ok(output) => done(g.with_node(node_of("Identity"@, inputs, seq![output]))),
            },
        },
    }
}

/// The attributes of an operator that is carried over.
pub open spec fn carried_attributes(op_type: Seq<char>, op: JsonView) -> Seq<Attribute> {
    match op.field("A"@) {
        Some(attrs) => attributes_extracted(op_type, attrs),
        None => Seq::empty(),
    }
}

/// The lowering of an operator that has a counterpart with the same inputs and outputs.
pub open spec fn generic_lowered(m: Meta, g: Graph, op_type: Seq<char>, op: JsonView) -> Step {
    match op_type_mapped(op_type) {
        Err(e) => failed(g, e),
        Ok(mapped) => match names_upto(m, input_ids(op), input_ids(op).len()) {
            Err(e) => failed(g, e),
            Ok(inputs) => match names_upto(m, output_ids(op), output_ids(op).len()) {
                Err(e) => failed(g, e),
                Ok(outputs) => done(
                    g.with_node(
                        Node {
                            attribute: carried_attributes(op_type, op),
                            ..node_of(mapped, inputs, outputs)
                        },
                    ),
                ),
            },
        },
    }
}

/// The non-empty names of the outputs of a graph and of its nodes.
fn output_names(graph: &GraphProto) -> (set: NameSet)
    ensures
        set@ == Set::new(|name: Seq<char>| name.len() > 0 && output_taken(graph@, name)),
{
    let mut set = produced_names(graph);
    let ghost g = graph@;
    let mut i: usize = 0;
    while i < graph.output.len()
        invariant
            i <= graph.output.len(),
            g == graph@,
            forall|name: Seq<char>| #[trigger]
                set@.contains(name) == (name.len() > 0 && (produced(g.node, name) || exists|k: int|
                    0 <= k < i && #[trigger] g.output[k].name == name)),
        decreases graph.output.len() - i,
    {
        let ghost before = set@;
        let name = graph.output[i].name.as_str();
        if !crate::text::same(name, "") {
            let _ = set.insert(name);
        }
        proof {
            reveal_strlit("");
            assert(g.output[i as int].name == name@);
            assert(name@ =~= ""@ || name@.len() > 0);
            assert forall|x: Seq<char>| #[trigger]
                set@.contains(x) == (x.len() > 0 && (produced(g.node, x) || exists|k: int|
                    0 <= k < i + 1 && #[trigger] g.output[k].name == x)) by {
                assert(before.contains(x) == (x.len() > 0 && (produced(g.node, x) || exists|k: int|
                    0 <= k < i && #[trigger] g.output[k].name == x)));
            }
        }
        i = i + 1;
    }
    proof {
        assert(set@ =~= Set::new(|name: Seq<char>| name.len() > 0 && output_taken(g, name)));
    }
    set
}

fn choose_output_name(graph: &GraphProto, op: &Json) -> (r: String)
    ensures
        r@ == output_name(graph@, op@),
        !output_taken(graph@, r@),
{
    let base: String = match read_given_name(op) {
        Some(name) => name.to_string(),
        None => join("fetch_", size_text(graph.output.len()).as_str()),
    };
    proof {
        reveal_strlit("fetch_");
        assert(base@.len() > 0);
    }
    let used = output_names(graph);
    if used.contains(base.as_str()) {
        let r = find_free(used.as_hash_set(), base.as_str(), 1);
        proof {
            reveal_strlit("_");
            assert(r@.len() > 0);
            assert(!used@.contains(r@));
        }
        r
    } else {
        base
    }
}

impl Converter {
    /// Lowers `data`.
    pub fn op_data(&mut self, op: &Json) -> (r: Result<(), Error>)
        ensures
            (final(self).meta(), final(self).onnx_graph@, outcome(r)) == data_lowered(
                old(self).meta(),
                old(self).onnx_graph@,
                op@,
            ),
    {
        let info = self.build_value_info(op, true)?;
        let name = info.name.clone();
        self.onnx_graph.push_graph_input(info);
        let id: i64 = op_out_id(op)?;
        self.state.id_to_name.insert(id, name);
        Ok(())
    }

    /// Lowers `fetch`.
    pub fn op_fetch(&mut self, op: &Json) -> (r: Result<(), Error>)
        ensures
            final(self).meta() == old(self).meta(),
            (final(self).onnx_graph@, outcome(r)) == fetch_lowered(
                old(self).meta(),
                old(self).onnx_graph@,
                op@,
            ),
    {
        let mut info = self.build_value_info(op, false)?;
        if info.tensor_type.is_none() {
            info = declare_by(info.name, op.get_array("I"))?;
        }
        let inputs = op_input_ids(op);
        if inputs.len() == 0 {
            return Err(Error::text("fetch op has no input; cannot produce graph output"));
        }
        let input = self.get_tensor_name(inputs[0])?;
        let name = choose_output_name(&self.onnx_graph, op);
        info.name = name.clone();
        self.onnx_graph.push_graph_output(info);
        if !crate::text::same(input.as_str(), name.as_str()) {
            self.add_unary_node("Identity", input, name);
        }
        Ok(())
    }

    /// Lowers `dropout`.
    pub fn op_dropout(&mut self, op: &Json) -> (r: Result<(), Error>)
        ensures
            final(self).meta() == old(self).meta(),
            (final(self).onnx_graph@, outcome(r)) == dropout_lowered(
                old(self).meta(),
                old(self).onnx_graph@,
                op@,
            ),
    {
        let ids = op_input_ids(op);
        let inputs: Vec<String> = if ids.len() > 0 {
            self.first_names(&ids, 1)?
        } else {
            Vec::new()
        };
        proof {
            assert(ids@.len() == 0 ==> names(inputs@) =~= Seq::empty());
        }
        let id: i64 = op_out_id(op)?;
        let output = self.get_tensor_name(id)?;
        self.add_node(NodeProto::new("Identity", inputs, list1(output)));
        Ok(())
    }

    /// Lowers an operator that has a counterpart with the same inputs and outputs.
    pub fn convert_generic_op(&mut self, op_type: &str, op: &Json) -> (r: Result<(), Error>)
        ensures
            final(self).meta() == old(self).meta(),
            (final(self).onnx_graph@, outcome(r)) == generic_lowered(
                old(self).meta(),
                old(self).onnx_graph@,
                op_type@,
                op@,
            ),
    {
        let mapped = self.map_op_type(op_type)?;
        let attribute: Vec<AttributeProto> = match op.get("A") {
            Some(attrs) => self.extract_attributes(op_type, attrs),
            None => Vec::new(),
        };
        proof {
            assert(op@.field("A"@) is None ==> views(attribute@) =~= Seq::empty());
        }
        let input_list = op_input_ids(op);
        let inputs = self.first_names(&input_list, input_list.len())?;
        let output_list = op_output_ids(op);
        let outputs = self.first_names(&output_list, output_list.len())?;
        let mut node = NodeProto::new(mapped.as_str(), inputs, outputs);
        node.attribute = attribute;
        proof {
            assert(node@.attribute =~= views(attribute@));
        }
        self.add_node(node);
        Ok(())
    }
}

} // verus!
