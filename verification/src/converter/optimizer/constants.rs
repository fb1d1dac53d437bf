//! Constants of a graph: where they are, what numbers they hold, and how they are replaced.

use crate::bytes::{le_bytes, push_le, read_words, words};
use crate::converter::optimizer::facts::{initializer_of, producer_of, GraphFacts};
use crate::dtype::{BOOL, DOUBLE, FLOAT, FLOAT16, INT32, INT64};
use crate::float::{
    above, as_i64, below, finite, from_half, from_i64, from_int, from_single, integral, is_above,
    is_above_i64, is_below, is_below_i64, is_integral, is_nan, is_zero, nan, narrow, narrow_half,
    to_half, to_i64, to_single, widen, widen_half, zero, ONE, ZERO,
};
use crate::onnx::{
    attr_ints, attr_tensor, ints_attribute, tensor_attribute, views, Attribute, AttributeProto,
    Graph, GraphProto, Node, NodeProto, Tensor, TensorProto,
};
use crate::text::same;
use vstd::prelude::*;

verus! {

/// The position of the first attribute named `name`, from position `i` on.
pub open spec fn attribute_from(list: Seq<Attribute>, name: Seq<char>, i: int) -> Option<nat>
    decreases list.len() - i,
{
    if i < 0 || i >= list.len() {
        None
    } else if list[i].name == name {
        Some(i as nat)
    } else {
        attribute_from(list, name, i + 1)
    }
}

/// The first attribute of a node named `name`.
pub open spec fn attribute_named(n: Node, name: Seq<char>) -> Option<Attribute> {
    match attribute_from(n.attribute, name, 0) {
        Some(i) => Some(n.attribute[i as int]),
        None => None,
    }
}

/// The integer of the first attribute named `name`.
pub open spec fn int_named(n: Node, name: Seq<char>) -> Option<i64> {
    match attribute_named(n, name) {
        Some(a) => Some(a.i),
        None => None,
    }
}

/// The integers of the first attribute named `name`.
pub open spec fn ints_named(n: Node, name: Seq<char>) -> Option<Seq<i64>> {
    match attribute_named(n, name) {
        Some(a) => Some(a.ints),
        None => None,
    }
}

/// The float bits of the first attribute named `name`.
pub open spec fn float_named(n: Node, name: Seq<char>) -> Option<u32> {
    match attribute_named(n, name) {
        Some(a) => Some(a.f),
        None => None,
    }
}

/// The node with `values` as the integers of its first attribute named `name`, added where there
/// is none.
pub open spec fn with_ints(n: Node, name: Seq<char>, values: Seq<i64>) -> Node {
    match attribute_from(n.attribute, name, 0) {
        Some(i) => Node {
            attribute: n.attribute.update(
                i as int,
                Attribute { ints: values, ..n.attribute[i as int] },
            ),
            ..n
        },
        None => n.with(ints_attribute(name, values)),
    }
}

/// The tensor of a `Constant` node.
pub open spec fn constant_tensor(n: Node) -> Option<Tensor> {
    if n.op_type != "Constant"@ {
        None
    } else {
        match attribute_named(n, "value"@) {
            Some(a) => a.t,
            None => None,
        }
    }
}

/// The node with `t` as the tensor of its `value` attribute.
pub open spec fn with_constant(n: Node, t: Tensor) -> Node {
    match attribute_from(n.attribute, "value"@, 0) {
        Some(i) => Node {
            attribute: n.attribute.update(
                i as int,
                Attribute { t: Some(t), ..n.attribute[i as int] },
            ),
            ..n
        },
        None => n.with(tensor_attribute("value"@, t)),
    }
}

/// Where a constant is kept.
#[derive(Clone, Copy, Debug, PartialEq, Eq, Structural)]
pub enum ConstLocation {
    Initializer(usize),
    ConstantNode(usize),
}

/// The content of a [`ConstLocation`].
pub enum Place {
    Initializer(int),
    ConstantNode(int),
}

impl View for ConstLocation {
    type V = Place;

    open spec fn view(&self) -> Place {
        match self {
            ConstLocation::Initializer(i) => Place::Initializer(*i as int),
            ConstLocation::ConstantNode(i) => Place::ConstantNode(*i as int),
        }
    }
}

/// A constant and where it is kept.
pub struct ConstValue {
    pub location: ConstLocation,
    pub tensor: TensorProto,
}

/// The content of a [`ConstValue`].
#[verifier::ext_equal]
pub struct Const {
    pub location: Place,
    pub tensor: Tensor,
}

impl View for ConstValue {
    type V = Const;

    open spec fn view(&self) -> Const {
        Const { location: self.location@, tensor: self.tensor@ }
    }
}

/// Whether a constant's place exists in the graph.
pub open spec fn placed(g: Graph, location: Place) -> bool {
    match location {
        Place::Initializer(i) => 0 <= i < g.initializer.len(),
        Place::ConstantNode(i) => 0 <= i < g.node.len(),
    }
}

/// The constant that `name` stands for: an initializer, or else what a `Constant` node holds.
pub open spec fn const_named(g: Graph, name: Seq<char>) -> Option<Const> {
    match initializer_of(g.initializer, name) {
        Some(i) => Some(
            Const {
                location: Place::Initializer(i as int),
                tensor: g.initializer[i as int],
            },
        ),
        None => match producer_of(g.node, name) {
            Some(i) => match constant_tensor(g.node[i as int]) {
                Some(t) => Some(
                    Const { location: Place::ConstantNode(i as int), tensor: t },
                ),
                None => None,
            },
            None => None,
        },
    }
}

/// The graph with the constant put in its place.
pub open spec fn with_const(g: Graph, c: Const) -> Graph {
    match c.location {
        Place::Initializer(i) => Graph {
            initializer: g.initializer.update(i, c.tensor),
            ..g
        },
        Place::ConstantNode(i) => Graph {
            node: g.node.update(i, with_constant(g.node[i], c.tensor)),
            ..g
        },
    }
}

/// The size in bytes of an element of the types that constants are folded for, or zero.
pub open spec fn word_size(data_type: i32) -> int {
    if data_type == FLOAT || data_type == INT32 {
        4
    } else if data_type == DOUBLE || data_type == INT64 {
        8
    } else if data_type == FLOAT16 {
        2
    } else if data_type == BOOL {
        1
    } else {
        0
    }
}

/// The elements in the field that is specific to the element type, each as a word.
pub open spec fn typed_words(t: Tensor) -> Seq<u64> {
    if t.data_type == FLOAT {
        Seq::new(t.float_data.len(), |i: int| t.float_data[i] as u64)
    } else if t.data_type == DOUBLE {
        t.double_data
    } else if t.data_type == INT64 {
        Seq::new(t.int64_data.len(), |i: int| t.int64_data[i] as u64)
    } else if t.data_type == INT32 || t.data_type == BOOL {
        Seq::new(t.int32_data.len(), |i: int| t.int32_data[i] as u32 as u64)
    } else {
        Seq::empty()
    }
}

/// The elements of a tensor, each as a word: those of the type's own field where it holds any, or
/// else those of the raw bytes.
pub open spec fn stored_words(t: Tensor) -> Option<Seq<u64>> {
    if word_size(t.data_type) == 0 {
        None
    } else if typed_words(t).len() > 0 {
        Some(typed_words(t))
    } else if t.raw_data.len() as int % word_size(t.data_type) != 0 {
        None
    } else {
        Some(words(t.raw_data, word_size(t.data_type)))
    }
}

/// A word of the given integer type, as an integer.
pub open spec fn signed_word(data_type: i32, word: u64) -> i64 {
    if data_type == INT32 {
        word as u32 as i32 as i64
    } else {
        word as i64
    }
}

/// The integers of a tensor of type `INT64` or `INT32`.
pub open spec fn static_ints(t: Tensor) -> Option<Seq<i64>> {
    if t.data_type != INT64 && t.data_type != INT32 {
        None
    } else {
        match stored_words(t) {
            Some(list) => Some(Seq::new(list.len(), |i: int| signed_word(t.data_type, list[i]))),
            None => None,
        }
    }
}

/// The `binary64` value of a word of the given type.
pub open spec fn float_word(data_type: i32, word: u64) -> u64 {
    if data_type == FLOAT {
        widen(word as u32)
    } else if data_type == DOUBLE {
        word
    } else if data_type == FLOAT16 {
        widen_half(word as u16)
    } else if data_type == BOOL {
        if word == 0 {
            ZERO
        } else {
            ONE
        }
    } else {
        from_int(signed_word(data_type, word) as int)
    }
}

/// The elements of a tensor as `binary64` values.
pub open spec fn float_values(t: Tensor) -> Option<Seq<u64>> {
    match stored_words(t) {
        Some(list) => Some(Seq::new(list.len(), |i: int| float_word(t.data_type, list[i]))),
        None => None,
    }
}

/// Whether a value is an integer in `low..=high`.
pub open spec fn integral_within(v: u64, low: int, high: int) -> bool {
    finite(v) && integral(v) && !below(v, low) && !above(v, high)
}

/// The bytes of a `binary64` value as an element of the given type, where it can be one.
pub open spec fn encoded_element(v: u64, data_type: i32) -> Option<Seq<u8>> {
    if data_type == BOOL {
        if nan(v) {
            None
        } else if zero(v) {
            Some(seq![0u8])
        } else {
            Some(seq![1u8])
        }
    } else if data_type == FLOAT16 {
        Some(le_bytes(narrow_half(narrow(v)) as int, 2))
    } else if data_type == FLOAT {
        Some(le_bytes(narrow(v) as int, 4))
    } else if data_type == DOUBLE {
        Some(le_bytes(v as int, 8))
    } else if data_type == INT32 {
        if integral_within(v, i32::MIN as int, i32::MAX as int) {
            Some(le_bytes(to_i64(v) as i32 as u32 as int, 4))
        } else {
            None
        }
    } else if data_type == INT64 {
        if integral_within(v, i64::MIN as int, 0x8000_0000_0000_0000) {
            Some(le_bytes(to_i64(v) as u64 as int, 8))
        } else {
            None
        }
    } else {
        None
    }
}

/// The bytes of a list of values as elements of the given type, where each can be one.
pub open spec fn encoded_values(list: Seq<u64>, data_type: i32) -> Option<Seq<u8>>
    decreases list.len(),
{
    if list.len() == 0 {
        Some(Seq::empty())
    } else {
        match (encoded_values(list.drop_last(), data_type), encoded_element(list.last(), data_type)) {
            (Some(front), Some(element)) => Some(front + element),
            _ => None,
        }
    }
}

proof fn lemma_encoded_values_none(list: Seq<u64>, data_type: i32, i: int)
    requires
        0 <= i < list.len(),
        encoded_element(list[i], data_type) is None,
    ensures
        encoded_values(list, data_type) is None,
    decreases list.len(),
{
    if i < list.len() - 1 {
        assert(list.drop_last()[i] == list[i]);
        lemma_encoded_values_none(list.drop_last(), data_type, i);
    }
}

/// A found attribute is an attribute of the list with that name.
pub proof fn lemma_attribute_bound(list: Seq<Attribute>, name: Seq<char>, i: int)
    requires
        0 <= i,
    ensures
        attribute_from(list, name, i) matches Some(k) ==> k < list.len() && list[k as int].name
            == name,
    decreases list.len() - i,
{
    if i < list.len() && list[i].name != name {
        lemma_attribute_bound(list, name, i + 1);
    }
}

/// The position of the first attribute named `name`.
pub fn find_attribute(list: &Vec<AttributeProto>, name: &str) -> (r: Option<usize>)
    ensures
        match r {
            Some(i) => i < list.len() && attribute_from(views(list@), name@, 0) == Some(i as nat),
            None => attribute_from(views(list@), name@, 0) is None,
        },
{
    let mut i: usize = 0;
    while i < list.len()
        invariant
            i <= list.len(),
            attribute_from(views(list@), name@, 0) == attribute_from(views(list@), name@, i as int),
        decreases list.len() - i,
    {
        if same(list[i].name.as_str(), name) {
            return Some(i);
        }
        i = i + 1;
    }
    None
}

/// A node's attributes are the views of its attribute list.
pub proof fn lemma_attribute_views(n: NodeProto)
    ensures
        n@.attribute == views(n.attribute@),
{
    assert(n@.attribute =~= views(n.attribute@));
}

/// The integer of the first attribute named `name`.
pub fn attr_int_of(node: &NodeProto, name: &str) -> (r: Option<i64>)
    ensures
        r == int_named(node@, name@),
{
    proof {
        lemma_attribute_views(*node);
    }
    match find_attribute(&node.attribute, name) {
        Some(i) => Some(node.attribute[i].i),
        None => None,
    }
}

/// The float bits of the first attribute named `name`.
pub fn attr_float_of(node: &NodeProto, name: &str) -> (r: Option<u32>)
    ensures
        r == float_named(node@, name@),
{
    proof {
        lemma_attribute_views(*node);
    }
    match find_attribute(&node.attribute, name) {
        Some(i) => Some(node.attribute[i].f),
        None => None,
    }
}

/// The integers of the first attribute named `name`.
pub fn attr_ints_of(node: &NodeProto, name: &str) -> (r: Option<Vec<i64>>)
    ensures
        match r {
            Some(list) => ints_named(node@, name@) == Some(list@),
            None => ints_named(node@, name@) is None,
        },
{
    proof {
        lemma_attribute_views(*node);
    }
    match find_attribute(&node.attribute, name) {
        Some(i) => {
            let list = node.attribute[i].ints.clone();
            proof {
                assert(list@ =~= node.attribute@[i as int].ints@);
            }
            Some(list)
        },
        None => None,
    }
}

/// Whether a node has an attribute named `name`.
pub fn has_attr(node: &NodeProto, name: &str) -> (r: bool)
    ensures
        r == (attribute_named(node@, name@) is Some),
{
    proof {
        lemma_attribute_views(*node);
    }
    find_attribute(&node.attribute, name).is_some()
}

/// Sets the integers of the first attribute named `name`, adding it where there is none.
pub fn set_attr_ints(node: &mut NodeProto, name: &str, values: Vec<i64>)
    ensures
        final(node)@ == with_ints(old(node)@, name@, values@),
{
    proof {
        lemma_attribute_views(*node);
    }
    match find_attribute(&node.attribute, name) {
        Some(i) => {
            node.attribute[i].ints = values;
            proof {
                assert(node@.attribute =~= old(node)@.attribute.update(
                    i as int,
                    Attribute { ints: values@, ..old(node)@.attribute[i as int] },
                ));
            }
        },
        None => {
            let added = attr_ints(name, &values);
            node.attribute.push(added);
            proof {
                assert(node@.attribute =~= old(node)@.attribute.push(added@));
            }
        },
    }
}

/// The tensor of a `Constant` node.
pub fn constant_tensor_from_node(node: &NodeProto) -> (r: Option<TensorProto>)
    ensures
        match r {
            Some(t) => constant_tensor(node@) == Some(t@),
            None => constant_tensor(node@) is None,
        },
{
    proof {
        lemma_attribute_views(*node);
    }
    if !same(node.op_type.as_str(), "Constant") {
        return None;
    }
    match find_attribute(&node.attribute, "value") {
        Some(i) => match &node.attribute[i].t {
            Some(t) => Some(t.duplicate()),
            None => None,
        },
        None => None,
    }
}

fn set_constant_tensor_on_node(node: &mut NodeProto, tensor: TensorProto)
    ensures
        final(node)@ == with_constant(old(node)@, tensor@),
{
    proof {
        lemma_attribute_views(*node);
    }
    match find_attribute(&node.attribute, "value") {
        Some(i) => {
            node.attribute[i].t = Some(tensor);
            proof {
                assert(node@.attribute =~= old(node)@.attribute.update(
                    i as int,
                    Attribute { t: Some(tensor@), ..old(node)@.attribute[i as int] },
                ));
            }
        },
        None => {
            let added = attr_tensor("value", tensor);
            node.attribute.push(added);
            proof {
                assert(node@.attribute =~= old(node)@.attribute.push(added@));
            }
        },
    }
}

/// The constant that `name` stands for.
pub fn const_value(graph: &GraphProto, facts: &GraphFacts, name: &str) -> (r: Option<ConstValue>)
    requires
        facts.describes(graph@),
    ensures
        match r {
            Some(c) => const_named(graph@, name@) == Some(c@) && placed(graph@, c.location@),
            None => const_named(graph@, name@) is None,
        },
{
    match facts.initializer(Ghost(graph@), name) {
        Some(i) => {
            return Some(
                ConstValue {
                    location: ConstLocation::Initializer(i),
                    tensor: graph.initializer[i].duplicate(),
                },
            );
        },
        None => {},
    }
    match facts.producer(Ghost(graph@), name) {
        Some(i) => match constant_tensor_from_node(&graph.node[i]) {
            Some(tensor) => Some(ConstValue { location: ConstLocation::ConstantNode(i), tensor }),
            None => None,
        },
        None => None,
    }
}

/// Puts a constant in its place.
pub fn set_const_value(graph: &mut GraphProto, value: ConstValue)
    requires
        placed(old(graph)@, value.location@),
    ensures
        final(graph)@ == with_const(old(graph)@, value@),
{
    match value.location {
        ConstLocation::Initializer(i) => {
            graph.initializer[i] = value.tensor;
            proof {
                assert(graph@.initializer =~= old(graph)@.initializer.update(
                    i as int,
                    value.tensor@,
                ));
            }
        },
        ConstLocation::ConstantNode(i) => {
            set_constant_tensor_on_node(&mut graph.node[i], value.tensor);
            proof {
                assert(graph@.node =~= old(graph)@.node.update(
                    i as int,
                    with_constant(old(graph)@.node[i as int], value.tensor@),
                ));
            }
        },
    }
}

fn typed_elements(tensor: &TensorProto) -> (r: Vec<u64>)
    ensures
        r@ == typed_words(tensor@),
{
    let mut list: Vec<u64> = Vec::new();
    let mut i: usize = 0;
    if tensor.data_type == FLOAT {
        while i < tensor.float_data.len()
            invariant
                i <= tensor.float_data.len(),
                tensor.data_type == FLOAT,
                list@ =~= typed_words(tensor@).take(i as int),
            decreases tensor.float_data.len() - i,
        {
            list.push(tensor.float_data[i] as u64);
            i = i + 1;
        }
        proof {
            assert(typed_words(tensor@).take(i as int) =~= typed_words(tensor@));
        }
        list
    } else if tensor.data_type == DOUBLE {
        let copy = tensor.double_data.clone();
        proof {
            assert(copy@ =~= tensor.double_data@);
        }
        copy
    } else if tensor.data_type == INT64 {
        while i < tensor.int64_data.len()
            invariant
                i <= tensor.int64_data.len(),
                tensor.data_type == INT64,
                list@ =~= typed_words(tensor@).take(i as int),
            decreases tensor.int64_data.len() - i,
        {
            list.push(tensor.int64_data[i] as u64);
            i = i + 1;
        }
        proof {
            assert(typed_words(tensor@).take(i as int) =~= typed_words(tensor@));
        }
        list
    } else if tensor.data_type == INT32 || tensor.data_type == BOOL {
        while i < tensor.int32_data.len()
            invariant
                i <= tensor.int32_data.len(),
                tensor.data_type == INT32 || tensor.data_type == BOOL,
                list@ =~= typed_words(tensor@).take(i as int),
            decreases tensor.int32_data.len() - i,
        {
            list.push(tensor.int32_data[i] as u32 as u64);
            i = i + 1;
        }
        proof {
            assert(typed_words(tensor@).take(i as int) =~= typed_words(tensor@));
        }
        list
    } else {
        list
    }
}

/// The elements of a tensor, each as a word.
pub fn stored_elements(tensor: &TensorProto) -> (r: Option<Vec<u64>>)
    ensures
        match r {
            Some(list) => stored_words(tensor@) == Some(list@),
            None => stored_words(tensor@) is None,
        },
{
    let size: usize = if tensor.data_type == FLOAT || tensor.data_type == INT32 {
        4
    } else if tensor.data_type == DOUBLE || tensor.data_type == INT64 {
        8
    } else if tensor.data_type == FLOAT16 {
        2
    } else if tensor.data_type == BOOL {
        1
    } else {
        0
    };
    if size == 0 {
        return None;
    }
    let list = typed_elements(tensor);
    if list.len() > 0 {
        return Some(list);
    }
    if tensor.raw_data.len() % size != 0 {
        return None;
    }
    Some(read_words(&tensor.raw_data, size))
}

/// The integers of a tensor of type `INT64` or `INT32`.
pub fn static_i64_tensor(tensor: &TensorProto) -> (r: Option<Vec<i64>>)
    ensures
        match r {
            Some(list) => static_ints(tensor@) == Some(list@),
            None => static_ints(tensor@) is None,
        },
{
    if tensor.data_type != INT64 && tensor.data_type != INT32 {
        return None;
    }
    match stored_elements(tensor) {
        Some(list) => {
            let mut ints: Vec<i64> = Vec::new();
            let mut i: usize = 0;
            while i < list.len()
                invariant
                    i <= list.len(),
                    ints@ =~= Seq::new(
                        i as nat,
                        |k: int| signed_word(tensor.data_type, list@[k]),
                    ),
                decreases list.len() - i,
            {
                let value: i64 = if tensor.data_type == INT32 {
                    list[i] as u32 as i32 as i64
                } else {
                    list[i] as i64
                };
                ints.push(value);
                i = i + 1;
            }
            proof {
                assert(static_ints(tensor@)->0 =~= ints@);
            }
            Some(ints)
        },
        None => None,
    }
}

/// The integers of the constant that `name` stands for.
pub open spec fn ints_of_const(g: Graph, name: Seq<char>) -> Option<Seq<i64>> {
    match const_named(g, name) {
        Some(c) => static_ints(c.tensor),
        None => None,
    }
}

/// The integers of the constant that `name` stands for.
pub fn static_i64_const(graph: &GraphProto, facts: &GraphFacts, name: &str) -> (r: Option<Vec<i64>>)
    requires
        facts.describes(graph@),
    ensures
        match r {
            Some(list) => ints_of_const(graph@, name@) == Some(list@),
            None => ints_of_const(graph@, name@) is None,
        },
{
    match const_value(graph, facts, name) {
        Some(value) => static_i64_tensor(&value.tensor),
        None => None,
    }
}

/// The elements of a tensor as `binary64` values.
pub fn tensor_to_f64(tensor: &TensorProto) -> (r: Option<Vec<u64>>)
    ensures
        match r {
            Some(list) => float_values(tensor@) == Some(list@),
            None => float_values(tensor@) is None,
        },
{
    match stored_elements(tensor) {
        Some(list) => {
            let mut values: Vec<u64> = Vec::new();
            let mut i: usize = 0;
            while i < list.len()
                invariant
                    i <= list.len(),
                    values@ =~= Seq::new(i as nat, |k: int| float_word(tensor.data_type, list@[k])),
                decreases list.len() - i,
            {
                let word: u64 = list[i];
                let value: u64 = if tensor.data_type == FLOAT {
                    from_single(word as u32)
                } else if tensor.data_type == DOUBLE {
                    word
                } else if tensor.data_type == FLOAT16 {
                    from_half(word as u16)
                } else if tensor.data_type == BOOL {
                    if word == 0 {
                        ZERO
                    } else {
                        ONE
                    }
                } else if tensor.data_type == INT32 {
                    from_i64(word as u32 as i32 as i64)
                } else {
                    from_i64(word as i64)
                };
                values.push(value);
                i = i + 1;
            }
            proof {
                assert(float_values(tensor@)->0 =~= values@);
            }
            Some(values)
        },
        None => None,
    }
}

/// Whether a value is an integer that fits `i32`.
pub fn fits_i32(v: u64) -> (r: bool)
    ensures
        r == integral_within(v, i32::MIN as int, i32::MAX as int),
{
    is_integral(v) && !is_below(v, -0x8000_0000) && !is_above(v, 0x7FFF_FFFF)
}

/// Whether a value is an integer in `-2^63..=2^63`.
pub fn fits_i64(v: u64) -> (r: bool)
    ensures
        r == integral_within(v, i64::MIN as int, 0x8000_0000_0000_0000),
{
    is_integral(v) && !is_below_i64(v) && !is_above_i64(v)
}

/// The bytes of a list of values as elements of the given type, where each can be one.
pub fn encode_f64_values(list: &Vec<u64>, data_type: i32) -> (r: Option<Vec<u8>>)
    ensures
        match r {
            Some(raw) => encoded_values(list@, data_type) == Some(raw@),
            None => encoded_values(list@, data_type) is None,
        },
{
    let mut raw: Vec<u8> = Vec::new();
    let mut i: usize = 0;
    while i < list.len()
        invariant
            i <= list.len(),
            encoded_values(list@.take(i as int), data_type) == Some(raw@),
        decreases list.len() - i,
    {
        let v: u64 = list[i];
        let ghost before = raw@;
        proof {
            assert(list@.take(i + 1).drop_last() =~= list@.take(i as int));
            assert(list@.take(i + 1).last() == v);
            if encoded_element(v, data_type) is None {
                lemma_encoded_values_none(list@, data_type, i as int);
            }
        }
        if data_type == BOOL {
            if is_nan(v) {
                return None;
            }
            let byte: u8 = if is_zero(v) {
                0
            } else {
                1
            };
            raw.push(byte);
            proof {
                assert(raw@ =~= before + encoded_element(v, data_type)->0);
            }
        } else if data_type == FLOAT16 {
            push_le(&mut raw, to_half(to_single(v)) as u64, 2);
        } else if data_type == FLOAT {
            push_le(&mut raw, to_single(v) as u64, 4);
        } else if data_type == DOUBLE {
            push_le(&mut raw, v, 8);
        } else if data_type == INT32 {
            if !fits_i32(v) {
                return None;
            }
            push_le(&mut raw, as_i64(v) as i32 as u32 as u64, 4);
        } else if data_type == INT64 {
            if !fits_i64(v) {
                return None;
            }
            push_le(&mut raw, as_i64(v) as u64, 8);
        } else {
            return None;
        }
        i = i + 1;
    }
    proof {
        assert(list@.take(i as int) =~= list@);
    }
    Some(raw)
}

} // verus!
