//! The parts of the ONNX intermediate representation that the converter reads and writes.
//!
//! Floating-point fields hold the bits of their IEEE 754 encodings.

use crate::text::names;
use vstd::prelude::*;

verus! {

/// Attribute kinds.
pub const ATTR_FLOAT: i32 = 1;

pub const ATTR_INT: i32 = 2;

pub const ATTR_STRING: i32 = 3;

pub const ATTR_TENSOR: i32 = 4;

pub const ATTR_GRAPH: i32 = 5;

pub const ATTR_FLOATS: i32 = 6;

pub const ATTR_INTS: i32 = 7;

pub const ATTR_STRINGS: i32 = 8;

/// A constant tensor. `float_data` and `double_data` hold the bits of the values.
#[derive(Debug, PartialEq, Eq)]
pub struct TensorProto {
    pub dims: Vec<i64>,
    pub data_type: i32,
    pub float_data: Vec<u32>,
    pub int32_data: Vec<i32>,
    pub int64_data: Vec<i64>,
    pub name: String,
    pub raw_data: Vec<u8>,
    pub double_data: Vec<u64>,
    pub uint64_data: Vec<u64>,
}

/// One dimension of a tensor type.
#[derive(Debug, PartialEq, Eq)]
pub enum Dimension {
    /// A fixed size.
    Value(i64),
    /// A symbolic size.
    Param(String),
    /// Nothing is known of the size.
    Unknown,
}

/// The type of a tensor: its element type and, where it is known, its shape.
#[derive(Debug, PartialEq, Eq)]
pub struct TensorType {
    pub elem_type: i32,
    pub shape: Option<Vec<Dimension>>,
}

/// A named value at a graph's boundary, with its type where it is known.
#[derive(Debug, PartialEq, Eq)]
pub struct ValueInfoProto {
    pub name: String,
    pub tensor_type: Option<TensorType>,
}

/// An attribute of a node. `f` and `floats` hold the bits of the values.
#[derive(Debug, PartialEq, Eq)]
pub struct AttributeProto {
    pub name: String,
    pub kind: i32,
    pub f: u32,
    pub i: i64,
    pub s: Vec<u8>,
    pub t: Option<TensorProto>,
    pub g: Option<GraphProto>,
    pub floats: Vec<u32>,
    pub ints: Vec<i64>,
    pub strings: Vec<Vec<u8>>,
    pub graphs: Vec<GraphProto>,
}

/// An operator application.
#[derive(Debug, PartialEq, Eq)]
pub struct NodeProto {
    pub input: Vec<String>,
    pub output: Vec<String>,
    pub op_type: String,
    pub attribute: Vec<AttributeProto>,
}

/// A graph: nodes in order, constants, and typed boundary values.
#[derive(Debug, PartialEq, Eq)]
pub struct GraphProto {
    pub node: Vec<NodeProto>,
    pub name: String,
    pub initializer: Vec<TensorProto>,
    pub input: Vec<ValueInfoProto>,
    pub output: Vec<ValueInfoProto>,
    pub value_info: Vec<ValueInfoProto>,
}

/// The content of a [`TensorProto`].
#[verifier::ext_equal]
pub struct Tensor {
    pub dims: Seq<i64>,
    pub data_type: i32,
    pub float_data: Seq<u32>,
    pub int32_data: Seq<i32>,
    pub int64_data: Seq<i64>,
    pub name: Seq<char>,
    pub raw_data: Seq<u8>,
    pub double_data: Seq<u64>,
    pub uint64_data: Seq<u64>,
}

/// The content of a [`Dimension`].
pub enum DimensionView {
    Value(i64),
    Param(Seq<char>),
    Unknown,
}

/// The content of a [`TensorType`].
#[verifier::ext_equal]
pub struct TensorTypeView {
    pub elem_type: i32,
    pub shape: Option<Seq<DimensionView>>,
}

/// The content of a [`ValueInfoProto`].
#[verifier::ext_equal]
pub struct ValueInfo {
    pub name: Seq<char>,
    pub tensor_type: Option<TensorTypeView>,
}

/// The content of an [`AttributeProto`].
#[verifier::ext_equal]
pub struct Attribute {
    pub name: Seq<char>,
    pub kind: i32,
    pub f: u32,
    pub i: i64,
    pub s: Seq<u8>,
    pub t: Option<Tensor>,
    pub g: Option<Graph>,
    pub floats: Seq<u32>,
    pub ints: Seq<i64>,
    pub strings: Seq<Seq<u8>>,
    pub graphs: Seq<Graph>,
}

/// The content of a [`NodeProto`].
#[verifier::ext_equal]
pub struct Node {
    pub input: Seq<Seq<char>>,
    pub output: Seq<Seq<char>>,
    pub op_type: Seq<char>,
    pub attribute: Seq<Attribute>,
}

/// The content of a [`GraphProto`].
#[verifier::ext_equal]
pub struct Graph {
    pub node: Seq<Node>,
    pub name: Seq<char>,
    pub initializer: Seq<Tensor>,
    pub input: Seq<ValueInfo>,
    pub output: Seq<ValueInfo>,
    pub value_info: Seq<ValueInfo>,
}

/// The contents of a list of values.
pub open spec fn views<T: View>(list: Seq<T>) -> Seq<T::V> {
    Seq::new(list.len(), |i: int| list[i].view())
}

impl View for TensorProto {
    type V = Tensor;

    open spec fn view(&self) -> Tensor {
        Tensor {
            dims: self.dims@,
            data_type: self.data_type,
            float_data: self.float_data@,
            int32_data: self.int32_data@,
            int64_data: self.int64_data@,
            name: self.name@,
            raw_data: self.raw_data@,
            double_data: self.double_data@,
            uint64_data: self.uint64_data@,
        }
    }
}

impl View for Dimension {
    type V = DimensionView;

    open spec fn view(&self) -> DimensionView {
        match self {
            Dimension::Value(value) => DimensionView::Value(*value),
            Dimension::Param(name) => DimensionView::Param(name@),
            Dimension::Unknown => DimensionView::Unknown,
        }
    }
}

impl View for TensorType {
    type V = TensorTypeView;

    open spec fn view(&self) -> TensorTypeView {
        TensorTypeView {
            elem_type: self.elem_type,
            shape: match self.shape {
                Some(dims) => Some(views(dims@)),
                None => None,
            },
        }
    }
}

impl View for ValueInfoProto {
    type V = ValueInfo;

    open spec fn view(&self) -> ValueInfo {
        ValueInfo {
            name: self.name@,
            tensor_type: match self.tensor_type {
                Some(tensor_type) => Some(tensor_type@),
                None => None,
            },
        }
    }
}

impl View for AttributeProto {
    type V = Attribute;

    open spec fn view(&self) -> Attribute
        decreases self,
    {
        Attribute {
            name: self.name@,
            kind: self.kind,
            f: self.f,
            i: self.i,
            s: self.s@,
            t: match self.t {
                Some(t) => Some(t@),
                None => None,
            },
            g: match self.g {
                Some(g) => Some(g.view()),
                None => None,
            },
            floats: self.floats@,
            ints: self.ints@,
            strings: Seq::new(self.strings@.len(), |i: int| self.strings@[i]@),
            graphs: Seq::new(
                self.graphs@.len(),
                |i: int|
                    if 0 <= i < self.graphs@.len() {
                        self.graphs@[i].view()
                    } else {
                        arbitrary()
                    },
            ),
        }
    }
}

impl View for NodeProto {
    type V = Node;

    open spec fn view(&self) -> Node
        decreases self,
    {
        Node {
            input: names(self.input@),
            output: names(self.output@),
            op_type: self.op_type@,
            attribute: Seq::new(
                self.attribute@.len(),
                |i: int|
                    if 0 <= i < self.attribute@.len() {
                        self.attribute@[i].view()
                    } else {
                        arbitrary()
                    },
            ),
        }
    }
}

impl View for GraphProto {
    type V = Graph;

    open spec fn view(&self) -> Graph
        decreases self,
    {
        Graph {
            node: Seq::new(
                self.node@.len(),
                |i: int|
                    if 0 <= i < self.node@.len() {
                        self.node@[i].view()
                    } else {
                        arbitrary()
                    },
            ),
            name: self.name@,
            initializer: views(self.initializer@),
            input: views(self.input@),
            output: views(self.output@),
            value_info: views(self.value_info@),
        }
    }
}

/// A tensor without data.
pub open spec fn tensor_of(name: Seq<char>, dims: Seq<i64>, data_type: i32) -> Tensor {
    Tensor {
        dims,
        data_type,
        float_data: Seq::empty(),
        int32_data: Seq::empty(),
        int64_data: Seq::empty(),
        name,
        raw_data: Seq::empty(),
        double_data: Seq::empty(),
        uint64_data: Seq::empty(),
    }
}

/// An attribute without a value.
pub open spec fn attribute_of(name: Seq<char>) -> Attribute {
    Attribute {
        name,
        kind: 0,
        f: 0,
        i: 0,
        s: Seq::empty(),
        t: None,
        g: None,
        floats: Seq::empty(),
        ints: Seq::empty(),
        strings: Seq::empty(),
        graphs: Seq::empty(),
    }
}

/// An integer attribute.
pub open spec fn int_attribute(name: Seq<char>, value: i64) -> Attribute {
    Attribute { kind: ATTR_INT, i: value, ..attribute_of(name) }
}

/// An attribute that lists integers.
pub open spec fn ints_attribute(name: Seq<char>, values: Seq<i64>) -> Attribute {
    Attribute { kind: ATTR_INTS, ints: values, ..attribute_of(name) }
}

/// A floating-point attribute, given by its bits.
pub open spec fn float_attribute(name: Seq<char>, bits: u32) -> Attribute {
    Attribute { kind: ATTR_FLOAT, f: bits, ..attribute_of(name) }
}

/// A string attribute.
pub open spec fn str_attribute(name: Seq<char>, value: Seq<char>) -> Attribute {
    Attribute { kind: ATTR_STRING, s: vstd::utf8::encode_utf8(value), ..attribute_of(name) }
}

/// A tensor attribute.
pub open spec fn tensor_attribute(name: Seq<char>, value: Tensor) -> Attribute {
    Attribute { kind: ATTR_TENSOR, t: Some(value), ..attribute_of(name) }
}

/// A graph attribute.
pub open spec fn graph_attribute(name: Seq<char>, value: Graph) -> Attribute {
    Attribute { kind: ATTR_GRAPH, g: Some(value), ..attribute_of(name) }
}

/// A node without attributes.
pub open spec fn node_of(op_type: Seq<char>, input: Seq<Seq<char>>, output: Seq<Seq<char>>) -> Node {
    Node { input, output, op_type, attribute: Seq::empty() }
}

impl Node {
    /// The node with one more attribute.
    pub open spec fn with(self, attribute: Attribute) -> Node {
        Node { attribute: self.attribute.push(attribute), ..self }
    }

    /// The node with one more input.
    pub open spec fn with_input(self, name: Seq<char>) -> Node {
        Node { input: self.input.push(name), ..self }
    }
}

/// A graph with a name and nothing else.
pub open spec fn graph_of(name: Seq<char>) -> Graph {
    Graph {
        node: Seq::empty(),
        name,
        initializer: Seq::empty(),
        input: Seq::empty(),
        output: Seq::empty(),
        value_info: Seq::empty(),
    }
}

impl Graph {
    /// The graph with one more node, at the end.
    #[verifier::opaque]
    pub open spec fn with_node(self, node: Node) -> Graph {
        Graph { node: self.node.push(node), ..self }
    }

    /// The graph with one more constant, at the end.
    #[verifier::opaque]
    pub open spec fn with_initializer(self, tensor: Tensor) -> Graph {
        Graph { initializer: self.initializer.push(tensor), ..self }
    }

    /// The graph with one more input, at the end.
    #[verifier::opaque]
    pub open spec fn with_graph_input(self, value: ValueInfo) -> Graph {
        Graph { input: self.input.push(value), ..self }
    }

    /// The graph with one more output, at the end.
    #[verifier::opaque]
    pub open spec fn with_graph_output(self, value: ValueInfo) -> Graph {
        Graph { output: self.output.push(value), ..self }
    }
}

impl TensorProto {
    /// A tensor without data.
    pub fn new(name: String, dims: Vec<i64>, data_type: i32) -> (r: TensorProto)
        ensures
            r@ == tensor_of(name@, dims@, data_type),
    {
        TensorProto {
            dims,
            data_type,
            float_data: Vec::new(),
            int32_data: Vec::new(),
            int64_data: Vec::new(),
            name,
            raw_data: Vec::new(),
            double_data: Vec::new(),
            uint64_data: Vec::new(),
        }
    }

    /// A copy of the tensor.
    pub fn duplicate(&self) -> (r: TensorProto)
        ensures
            r@ == self@,
    {
        let r = TensorProto {
            dims: self.dims.clone(),
            data_type: self.data_type,
            float_data: self.float_data.clone(),
            int32_data: self.int32_data.clone(),
            int64_data: self.int64_data.clone(),
            name: self.name.clone(),
            raw_data: self.raw_data.clone(),
            double_data: self.double_data.clone(),
            uint64_data: self.uint64_data.clone(),
        };
        proof {
            assert(r@ =~= self@);
        }
        r
    }
}

impl Dimension {
    /// A copy of the dimension.
    pub fn duplicate(&self) -> (r: Dimension)
        ensures
            r@ == self@,
    {
        match self {
            Dimension::Value(value) => Dimension::Value(*value),
            Dimension::Param(name) => Dimension::Param(name.clone()),
            Dimension::Unknown => Dimension::Unknown,
        }
    }
}

impl TensorType {
    /// A copy of the type.
    pub fn duplicate(&self) -> (r: TensorType)
        ensures
            r@ == self@,
    {
        let shape: Option<Vec<Dimension>> = match &self.shape {
            Some(dims) => {
                let mut copy: Vec<Dimension> = Vec::with_capacity(dims.len());
                let mut i: usize = 0;
                while i < dims.len()
                    invariant
                        i <= dims.len(),
                        copy.len() == i,
                        forall|k: int| 0 <= k < i ==> (#[trigger] copy@[k])@ == dims@[k]@,
                    decreases dims.len() - i,
                {
                    copy.push(dims[i].duplicate());
                    i = i + 1;
                }
                proof {
                    assert(views(copy@) =~= views(dims@));
                }
                Some(copy)
            },
            None => None,
        };
        TensorType { elem_type: self.elem_type, shape }
    }
}

impl ValueInfoProto {
    /// A copy of the value.
    pub fn duplicate(&self) -> (r: ValueInfoProto)
        ensures
            r@ == self@,
    {
        let tensor_type: Option<TensorType> = match &self.tensor_type {
            Some(tensor_type) => Some(tensor_type.duplicate()),
            None => None,
        };
        ValueInfoProto { name: self.name.clone(), tensor_type }
    }
}

impl AttributeProto {
    /// An attribute without a value.
    pub fn new(name: &str) -> (r: AttributeProto)
        ensures
            r@ == attribute_of(name@),
    {
        let r = AttributeProto {
            name: name.to_string(),
            kind: 0,
            f: 0,
            i: 0,
            s: Vec::new(),
            t: None,
            g: None,
            floats: Vec::new(),
            ints: Vec::new(),
            strings: Vec::new(),
            graphs: Vec::new(),
        };
        proof {
            assert(r@.strings =~= Seq::empty());
            assert(r@.graphs =~= Seq::empty());
        }
        r
    }
}

/// An integer attribute.
pub fn attr_int(name: &str, value: i64) -> (r: AttributeProto)
    ensures
        r@ == int_attribute(name@, value),
{
    let mut r = AttributeProto::new(name);
    r.kind = ATTR_INT;
    r.i = value;
    r
}

/// An attribute that lists integers.
pub fn attr_ints(name: &str, values: &Vec<i64>) -> (r: AttributeProto)
    ensures
        r@ == ints_attribute(name@, values@),
{
    let mut r = AttributeProto::new(name);
    r.kind = ATTR_INTS;
    r.ints = values.clone();
    proof {
        assert(r@.ints =~= values@);
    }
    r
}

/// A floating-point attribute, given by its bits.
pub fn attr_float(name: &str, bits: u32) -> (r: AttributeProto)
    ensures
        r@ == float_attribute(name@, bits),
{
    let mut r = AttributeProto::new(name);
    r.kind = ATTR_FLOAT;
    r.f = bits;
    r
}

/// A string attribute.
pub fn attr_str(name: &str, value: &str) -> (r: AttributeProto)
    ensures
        r@ == str_attribute(name@, value@),
{
    let mut r = AttributeProto::new(name);
    r.kind = ATTR_STRING;
    r.s = value.as_bytes_vec();
    r
}

/// A tensor attribute.
pub fn attr_tensor(name: &str, value: TensorProto) -> (r: AttributeProto)
    ensures
        r@ == tensor_attribute(name@, value@),
{
    let mut r = AttributeProto::new(name);
    r.kind = ATTR_TENSOR;
    r.t = Some(value);
    r
}

/// A graph attribute.
pub fn attr_graph(name: &str, value: GraphProto) -> (r: AttributeProto)
    ensures
        r@ == graph_attribute(name@, value@),
{
    let mut r = AttributeProto::new(name);
    r.kind = ATTR_GRAPH;
    r.g = Some(value);
    r
}

impl NodeProto {
    /// A node without attributes.
    pub fn new(op_type: &str, input: Vec<String>, output: Vec<String>) -> (r: NodeProto)
        ensures
            r@ == node_of(op_type@, names(input@), names(output@)),
    {
        let r = NodeProto { input, output, op_type: op_type.to_string(), attribute: Vec::new() };
        proof {
            assert(r@.attribute =~= Seq::empty());
        }
        r
    }

    /// The node with one more attribute.
    pub fn with(self, attribute: AttributeProto) -> (r: NodeProto)
        ensures
            r@ == self@.with(attribute@),
    {
        let mut node = self;
        node.attribute.push(attribute);
        proof {
            assert(node@.attribute =~= self@.attribute.push(attribute@));
        }
        node
    }

    /// The node with one more input.
    pub fn with_input(self, name: String) -> (r: NodeProto)
        ensures
            r@ == self@.with_input(name@),
    {
        let mut node = self;
        node.input.push(name);
        proof {
            assert(node@.input =~= self@.input.push(name@));
        }
        node
    }
}

impl GraphProto {
    /// A graph with a name and nothing else.
    pub fn new(name: &str) -> (r: GraphProto)
        ensures
            r@ == graph_of(name@),
    {
        let r = GraphProto {
            node: Vec::new(),
            name: name.to_string(),
            initializer: Vec::new(),
            input: Vec::new(),
            output: Vec::new(),
            value_info: Vec::new(),
        };
        proof {
            assert(r@.node =~= Seq::empty());
            assert(r@.initializer =~= Seq::empty());
            assert(r@.input =~= Seq::empty());
            assert(r@.output =~= Seq::empty());
            assert(r@.value_info =~= Seq::empty());
        }
        r
    }

    /// Appends a node.
    pub fn push_node(&mut self, node: NodeProto)
        ensures
            final(self)@ == old(self)@.with_node(node@),
    {
        self.node.push(node);
        proof {
            reveal(Graph::with_node);
            assert(self@.node =~= old(self)@.node.push(node@));
        }
    }

    /// Appends a constant.
    pub fn push_initializer(&mut self, tensor: TensorProto)
        ensures
            final(self)@ == old(self)@.with_initializer(tensor@),
    {
        self.initializer.push(tensor);
        proof {
            reveal(Graph::with_initializer);
            assert(self@.initializer =~= old(self)@.initializer.push(tensor@));
        }
    }

    /// Appends an input.
    pub fn push_graph_input(&mut self, value: ValueInfoProto)
        ensures
            final(self)@ == old(self)@.with_graph_input(value@),
    {
        self.input.push(value);
        proof {
            reveal(Graph::with_graph_input);
            assert(self@.input =~= old(self)@.input.push(value@));
        }
    }

    /// Appends an output.
    pub fn push_graph_output(&mut self, value: ValueInfoProto)
        ensures
            final(self)@ == old(self)@.with_graph_output(value@),
    {
        self.output.push(value);
        proof {
            reveal(Graph::with_graph_output);
            assert(self@.output =~= old(self)@.output.push(value@));
        }
    }
}

} // verus!
