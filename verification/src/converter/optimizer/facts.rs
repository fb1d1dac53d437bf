//! What the optimizer knows of a graph before it rewrites it.

use crate::nested::{collect, height, lemma_subgraph_height, subgraphs};
use crate::onnx::{
    views, Dimension, DimensionView, Graph, GraphProto, Node, Tensor, TensorProto, ValueInfo,
    ValueInfoProto,
};
use crate::scope::value_named;
use crate::text::names;
use vstd::hash_map::StringHashMap;
use vstd::hash_set::StringHashSet;
use vstd::prelude::*;

verus! {

/// The position of the last node that produces `name`. The empty name stands for no value.
pub open spec fn producer_of(list: Seq<Node>, name: Seq<char>) -> Option<nat>
    decreases list.len(),
{
    if list.len() == 0 {
        None
    } else if name.len() > 0 && list.last().output.contains(name) {
        Some((list.len() - 1) as nat)
    } else {
        producer_of(list.drop_last(), name)
    }
}

/// The position of the last constant named `name`.
pub open spec fn initializer_of(list: Seq<Tensor>, name: Seq<char>) -> Option<nat>
    decreases list.len(),
{
    if list.len() == 0 {
        None
    } else if list.last().name == name {
        Some((list.len() - 1) as nat)
    } else {
        initializer_of(list.drop_last(), name)
    }
}

/// How often `name` occurs in the list.
pub open spec fn occurrences(list: Seq<Seq<char>>, name: Seq<char>) -> nat
    decreases list.len(),
{
    if list.len() == 0 {
        0
    } else {
        occurrences(list.drop_last(), name) + (if list.last() == name {
            1nat
        } else {
            0
        })
    }
}

/// How often the nodes read `name`.
pub open spec fn node_uses(list: Seq<Node>, name: Seq<char>) -> nat
    decreases list.len(),
{
    if list.len() == 0 {
        0
    } else {
        node_uses(list.drop_last(), name) + occurrences(list.last().input, name)
    }
}

/// How often the first `k` subgraphs read `name`.
pub open spec fn subgraph_uses(g: Graph, name: Seq<char>, k: nat) -> nat
    decreases height(g), 0nat, k,
    via subgraph_uses_decreases
{
    if k == 0 || k > subgraphs(g).len() {
        0
    } else {
        subgraph_uses(g, name, (k - 1) as nat) + use_count(subgraphs(g)[k - 1], name)
    }
}

#[via_fn]
proof fn subgraph_uses_decreases(g: Graph, name: Seq<char>, k: nat) {
    if !(k == 0 || k > subgraphs(g).len()) {
        lemma_subgraph_height(g, k - 1);
    }
}

/// How often the graph and its subgraphs read `name`. The empty name stands for no value and
/// is never read.
pub open spec fn use_count(g: Graph, name: Seq<char>) -> nat
    decreases height(g), 1nat, 0nat,
{
    if name.len() == 0 {
        0
    } else {
        node_uses(g.node, name) + subgraph_uses(g, name, subgraphs(g).len())
    }
}

/// Whether exactly one node input reads `name` and it is not an output of the graph.
pub open spec fn used_once(g: Graph, name: Seq<char>) -> bool {
    !value_named(g.output, name) && use_count(g, name) == 1
}

/// A size, with -1 for one that is not fixed.
pub open spec fn fixed_size(d: DimensionView) -> i64 {
    match d {
        DimensionView::Value(value) => value,
        _ => -1i64,
    }
}

/// The shape that a value's type gives.
pub open spec fn typed_shape(v: ValueInfo) -> Option<Seq<i64>> {
    match v.tensor_type {
        Some(t) => match t.shape {
            Some(dims) => Some(Seq::new(dims.len(), |i: int| fixed_size(dims[i]))),
            None => None,
        },
        None => None,
    }
}

/// The shape of the last value named `name` whose type gives one.
pub open spec fn shape_among(list: Seq<ValueInfo>, name: Seq<char>) -> Option<Seq<i64>>
    decreases list.len(),
{
    if list.len() == 0 {
        None
    } else if list.last().name == name && typed_shape(list.last()) is Some {
        typed_shape(list.last())
    } else {
        shape_among(list.drop_last(), name)
    }
}

/// The element type of the last value named `name` that has a type.
pub open spec fn dtype_among(list: Seq<ValueInfo>, name: Seq<char>) -> Option<i32>
    decreases list.len(),
{
    if list.len() == 0 {
        None
    } else if list.last().name == name && list.last().tensor_type is Some {
        Some((list.last().tensor_type->0).elem_type)
    } else {
        dtype_among(list.drop_last(), name)
    }
}

/// The first of two results that there is.
pub open spec fn or_else<T>(a: Option<T>, b: Option<T>) -> Option<T> {
    match a {
        Some(x) => Some(x),
        None => b,
    }
}

/// The shape that the graph's typed values give for `name`: an output's type counts before that
/// of an inner value, and that before an input's.
pub open spec fn declared_shape(g: Graph, name: Seq<char>) -> Option<Seq<i64>> {
    or_else(
        shape_among(g.output, name),
        or_else(shape_among(g.value_info, name), shape_among(g.input, name)),
    )
}

/// The element type that the graph's typed values, or else its constants, give for `name`.
pub open spec fn declared_dtype(g: Graph, name: Seq<char>) -> Option<i32> {
    or_else(
        dtype_among(g.output, name),
        or_else(
            dtype_among(g.value_info, name),
            or_else(
                dtype_among(g.input, name),
                match initializer_of(g.initializer, name) {
                    Some(i) => Some(g.initializer[i as int].data_type),
                    None => None,
                },
            ),
        ),
    )
}

/// A table of positions, read as a partial function.
pub open spec fn position(table: Map<Seq<char>, usize>, name: Seq<char>) -> Option<nat> {
    if table.contains_key(name) {
        Some(table[name] as nat)
    } else {
        None
    }
}

/// A table of element types, read as a partial function.
pub open spec fn listed_dtype(table: Map<Seq<char>, i32>, name: Seq<char>) -> Option<i32> {
    if table.contains_key(name) {
        Some(table[name])
    } else {
        None
    }
}

/// A table of shapes, read as a partial function.
pub open spec fn listed_shape(table: Map<Seq<char>, Vec<i64>>, name: Seq<char>) -> Option<Seq<i64>> {
    if table.contains_key(name) {
        Some(table[name]@)
    } else {
        None
    }
}

/// A number, with two standing for two and more.
pub open spec fn at_most_two(n: nat) -> nat {
    if n > 2 {
        2
    } else {
        n
    }
}

/// A table of use counts, read as a total function.
pub open spec fn tally(table: Map<Seq<char>, u8>, name: Seq<char>) -> nat {
    if table.contains_key(name) {
        table[name] as nat
    } else {
        0
    }
}

/// Lookup tables for a graph. Use counts stop at two.
pub struct GraphFacts {
    pub producers: StringHashMap<usize>,
    pub uses: StringHashMap<u8>,
    pub initializers: StringHashMap<usize>,
    pub graph_outputs: StringHashSet,
    pub shapes: StringHashMap<Vec<i64>>,
    pub dtypes: StringHashMap<i32>,
}

impl GraphFacts {
    /// Whether the tables say what holds of the graph.
    pub open spec fn describes(&self, g: Graph) -> bool {
        &&& forall|name: Seq<char>| #[trigger]
            position(self.producers@, name) == producer_of(g.node, name)
        &&& forall|name: Seq<char>| #[trigger]
            tally(self.uses@, name) == at_most_two(use_count(g, name))
        &&& forall|name: Seq<char>| #[trigger]
            position(self.initializers@, name) == initializer_of(g.initializer, name)
        &&& forall|name: Seq<char>| #[trigger]
            self.graph_outputs@.contains(name) == value_named(g.output, name)
        &&& forall|name: Seq<char>| #[trigger]
            listed_shape(self.shapes@, name) == declared_shape(g, name)
        &&& forall|name: Seq<char>| #[trigger]
            listed_dtype(self.dtypes@, name) == declared_dtype(g, name)
    }

    /// The position of the node that produces `name`.
    pub fn producer(&self, Ghost(g): Ghost<Graph>, name: &str) -> (r: Option<usize>)
        requires
            self.describes(g),
        ensures
            match r {
                Some(i) => producer_of(g.node, name@) == Some(i as nat) && i < g.node.len(),
                None => producer_of(g.node, name@) is None,
            },
    {
        proof {
            assert(position(self.producers@, name@) == producer_of(g.node, name@));
            lemma_producer_bound(g.node, name@);
        }
        match self.producers.get(name) {
            Some(i) => Some(*i),
            None => None,
        }
    }

    /// The position of the constant named `name`.
    pub fn initializer(&self, Ghost(g): Ghost<Graph>, name: &str) -> (r: Option<usize>)
        requires
            self.describes(g),
        ensures
            match r {
                Some(i) => initializer_of(g.initializer, name@) == Some(i as nat) && i
                    < g.initializer.len(),
                None => initializer_of(g.initializer, name@) is None,
            },
    {
        proof {
            assert(position(self.initializers@, name@) == initializer_of(g.initializer, name@));
            lemma_initializer_bound(g.initializer, name@);
        }
        match self.initializers.get(name) {
            Some(i) => Some(*i),
            None => None,
        }
    }

    /// Whether `name` is an output of the graph.
    pub fn is_output(&self, Ghost(g): Ghost<Graph>, name: &str) -> (r: bool)
        requires
            self.describes(g),
        ensures
            r == value_named(g.output, name@),
    {
        self.graph_outputs.contains(name)
    }

    /// Whether exactly one node input reads `name` and it is not an output of the graph: a value
    /// that the graph exposes has a use beyond its consumers.
    pub fn single_use(&self, Ghost(g): Ghost<Graph>, name: &str) -> (r: bool)
        requires
            self.describes(g),
        ensures
            r == used_once(g, name@),
    {
        proof {
            assert(tally(self.uses@, name@) == at_most_two(use_count(g, name@)));
        }
        if self.graph_outputs.contains(name) {
            return false;
        }
        match self.uses.get(name) {
            Some(count) => *count == 1,
            None => false,
        }
    }

    /// The shape that the graph's typed values give for `name`.
    pub fn shape(&self, Ghost(g): Ghost<Graph>, name: &str) -> (r: Option<&Vec<i64>>)
        requires
            self.describes(g),
        ensures
            match r {
                Some(dims) => declared_shape(g, name@) == Some(dims@),
                None => declared_shape(g, name@) is None,
            },
    {
        proof {
            assert(listed_shape(self.shapes@, name@) == declared_shape(g, name@));
        }
        self.shapes.get(name)
    }

    /// The element type that the graph gives for `name`.
    pub fn dtype(&self, Ghost(g): Ghost<Graph>, name: &str) -> (r: Option<i32>)
        requires
            self.describes(g),
        ensures
            r == declared_dtype(g, name@),
    {
        proof {
            assert(listed_dtype(self.dtypes@, name@) == declared_dtype(g, name@));
        }
        match self.dtypes.get(name) {
            Some(dtype) => Some(*dtype),
            None => None,
        }
    }
}

/// A producer is a node of the list that produces the name.
pub proof fn lemma_producer_bound(list: Seq<Node>, name: Seq<char>)
    ensures
        producer_of(list, name) matches Some(i) ==> i < list.len() && list[i as int].output.contains(
            name,
        ),
    decreases list.len(),
{
    if list.len() > 0 && !(name.len() > 0 && list.last().output.contains(name)) {
        lemma_producer_bound(list.drop_last(), name);
    }
}

/// A found constant is a constant of the list.
pub proof fn lemma_initializer_bound(list: Seq<Tensor>, name: Seq<char>)
    ensures
        initializer_of(list, name) matches Some(i) ==> i < list.len() && list[i as int].name
            == name,
    decreases list.len(),
{
    if list.len() > 0 && list.last().name != name {
        lemma_initializer_bound(list.drop_last(), name);
    }
}

/// The position of the last producer of each name.
pub fn index_producers(graph: &GraphProto) -> (r: StringHashMap<usize>)
    ensures
        forall|name: Seq<char>| #[trigger] position(r@, name) == producer_of(graph@.node, name),
{
    let mut table: StringHashMap<usize> = StringHashMap::new();
    let mut i: usize = 0;
    while i < graph.node.len()
        invariant
            i <= graph.node.len(),
            forall|name: Seq<char>| #[trigger]
                position(table@, name) == producer_of(graph@.node.take(i as int), name),
        decreases graph.node.len() - i,
    {
        let outputs = &graph.node[i].output;
        let ghost before = table@;
        let mut j: usize = 0;
        while j < outputs.len()
            invariant
                j <= outputs.len(),
                forall|name: Seq<char>| #[trigger]
                    position(table@, name) == (if name.len() > 0 && names(outputs@).take(
                        j as int,
                    ).contains(name) {
                        Some(i as nat)
                    } else {
                        position(before, name)
                    }),
            decreases outputs.len() - j,
        {
            let ghost prior = table@;
            if outputs[j].as_str().is_empty() {
            } else {
                table.insert(outputs[j].clone(), i);
            }
            proof {
                let list = names(outputs@);
                assert forall|name: Seq<char>| #[trigger]
                    position(table@, name) == (if name.len() > 0 && list.take(j + 1).contains(
                        name,
                    ) {
                        Some(i as nat)
                    } else {
                        position(before, name)
                    }) by {
                    assert(list.take(j + 1) =~= list.take(j as int).push(list[j as int]));
                    assert(position(prior, name) == (if name.len() > 0 && list.take(
                        j as int,
                    ).contains(name) {
                        Some(i as nat)
                    } else {
                        position(before, name)
                    }));
                    lemma_push_contains(list.take(j as int), list[j as int], name);
                }
            }
            j = j + 1;
        }
        proof {
            let list = graph@.node;
            assert(list.take(i + 1).drop_last() =~= list.take(i as int));
            assert(list.take(i + 1).last() == list[i as int]);
            assert(names(outputs@).take(j as int) =~= names(outputs@));
            assert forall|name: Seq<char>| #[trigger]
                position(table@, name) == producer_of(list.take(i + 1), name) by {
                assert(position(before, name) == producer_of(list.take(i as int), name));
            }
        }
        i = i + 1;
    }
    proof {
        assert(graph@.node.take(i as int) =~= graph@.node);
    }
    table
}

/// What a list contains after one more item.
pub proof fn lemma_push_contains<T>(list: Seq<T>, item: T, x: T)
    ensures
        list.push(item).contains(x) == (list.contains(x) || item == x),
{
    if list.contains(x) {
        let k = choose|k: int| 0 <= k < list.len() && list[k] == x;
        assert(list.push(item)[k] == x);
    }
    if item == x {
        assert(list.push(item)[list.len() as int] == x);
    }
}

/// The position of the last tensor of each name.
pub fn index_initializers(list: &Vec<TensorProto>) -> (r: StringHashMap<usize>)
    ensures
        forall|name: Seq<char>| #[trigger] position(r@, name) == initializer_of(views(list@), name),
{
    let mut table: StringHashMap<usize> = StringHashMap::new();
    let mut i: usize = 0;
    while i < list.len()
        invariant
            i <= list.len(),
            forall|name: Seq<char>| #[trigger]
                position(table@, name) == initializer_of(views(list@).take(i as int), name),
        decreases list.len() - i,
    {
        let ghost before = table@;
        table.insert(list[i].name.clone(), i);
        proof {
            let all = views(list@);
            assert(all.take(i + 1).drop_last() =~= all.take(i as int));
            assert(all.take(i + 1).last() == all[i as int]);
            assert forall|name: Seq<char>| #[trigger]
                position(table@, name) == initializer_of(all.take(i + 1), name) by {
                assert(position(before, name) == initializer_of(all.take(i as int), name));
            }
        }
        i = i + 1;
    }
    proof {
        assert(views(list@).take(i as int) =~= views(list@));
    }
    table
}

fn count_inputs(inputs: &Vec<String>, uses: &mut StringHashMap<u8>)
    requires
        forall|name: Seq<char>| #[trigger] tally(old(uses)@, name) <= 2,
    ensures
        forall|name: Seq<char>| #[trigger]
            tally(final(uses)@, name) == at_most_two(
                tally(old(uses)@, name) + (if name.len() == 0 {
                    0
                } else {
                    occurrences(names(inputs@), name)
                }),
            ),
{
    let mut j: usize = 0;
    while j < inputs.len()
        invariant
            j <= inputs.len(),
            forall|name: Seq<char>| #[trigger] tally(old(uses)@, name) <= 2,
            forall|name: Seq<char>| #[trigger]
                tally(uses@, name) == at_most_two(
                    tally(old(uses)@, name) + (if name.len() == 0 {
                        0
                    } else {
                        occurrences(names(inputs@).take(j as int), name)
                    }),
                ),
        decreases inputs.len() - j,
    {
        let ghost before = uses@;
        if inputs[j].as_str().is_empty() {
        } else {
            proof {
                assert(tally(before, inputs@[j as int]@) <= 2);
            }
            let count: u8 = match uses.get(inputs[j].as_str()) {
                Some(count) => *count,
                None => 0,
            };
            if count < 2 {
                uses.insert(inputs[j].clone(), count + 1);
            }
        }
        proof {
            let list = names(inputs@);
            assert(list.take(j + 1).drop_last() =~= list.take(j as int));
            assert(list.take(j + 1).last() == list[j as int]);
            assert forall|name: Seq<char>| #[trigger]
                tally(uses@, name) == at_most_two(
                    tally(old(uses)@, name) + (if name.len() == 0 {
                        0
                    } else {
                        occurrences(list.take(j + 1), name)
                    }),
                ) by {
                assert(tally(before, name) == at_most_two(
                    tally(old(uses)@, name) + (if name.len() == 0 {
                        0
                    } else {
                        occurrences(list.take(j as int), name)
                    }),
                ));
            }
        }
        j = j + 1;
    }
    proof {
        assert(names(inputs@).take(j as int) =~= names(inputs@));
    }
}

/// Adds how often each name is read to the counts.
pub fn add_input_uses(graph: &GraphProto, uses: &mut StringHashMap<u8>)
    requires
        forall|name: Seq<char>| #[trigger] tally(old(uses)@, name) <= 2,
    ensures
        forall|name: Seq<char>| #[trigger]
            tally(final(uses)@, name) == at_most_two(
                tally(old(uses)@, name) + use_count(graph@, name),
            ),
    decreases height(graph@),
{
    let mut i: usize = 0;
    while i < graph.node.len()
        invariant
            i <= graph.node.len(),
            forall|name: Seq<char>| #[trigger] tally(old(uses)@, name) <= 2,
            forall|name: Seq<char>| #[trigger]
                tally(uses@, name) == at_most_two(
                    tally(old(uses)@, name) + (if name.len() == 0 {
                        0
                    } else {
                        node_uses(graph@.node.take(i as int), name)
                    }),
                ),
        decreases graph.node.len() - i,
    {
        let ghost before = uses@;
        proof {
            assert forall|name: Seq<char>| #[trigger] tally(uses@, name) <= 2 by {}
        }
        count_inputs(&graph.node[i].input, uses);
        proof {
            let list = graph@.node;
            assert(list.take(i + 1).drop_last() =~= list.take(i as int));
            assert(list.take(i + 1).last() == list[i as int]);
            assert forall|name: Seq<char>| #[trigger]
                tally(uses@, name) == at_most_two(
                    tally(old(uses)@, name) + (if name.len() == 0 {
                        0
                    } else {
                        node_uses(list.take(i + 1), name)
                    }),
                ) by {
                assert(tally(before, name) == at_most_two(
                    tally(old(uses)@, name) + (if name.len() == 0 {
                        0
                    } else {
                        node_uses(list.take(i as int), name)
                    }),
                ));
            }
        }
        i = i + 1;
    }
    proof {
        assert(graph@.node.take(i as int) =~= graph@.node);
    }
    let subs = collect(graph);
    let ghost mid = uses@;
    let mut k: usize = 0;
    while k < subs.len()
        invariant
            k <= subs.len(),
            subs.len() == subgraphs(graph@).len(),
            forall|j: int|
                0 <= j < subs.len() ==> (#[trigger] subs@[j])@ == subgraphs(graph@)[j],
            forall|name: Seq<char>| #[trigger] tally(mid, name) <= 2,
            forall|name: Seq<char>| #[trigger]
                tally(uses@, name) == at_most_two(
                    tally(mid, name) + (if name.len() == 0 {
                        0
                    } else {
                        subgraph_uses(graph@, name, k as nat)
                    }),
                ),
        decreases subs.len() - k,
    {
        let ghost before = uses@;
        proof {
            lemma_subgraph_height(graph@, k as int);
            assert(subs@[k as int]@ == subgraphs(graph@)[k as int]);
            assert forall|name: Seq<char>| #[trigger] tally(uses@, name) <= 2 by {}
        }
        add_input_uses(subs[k], uses);
        proof {
            assert forall|name: Seq<char>| #[trigger]
                tally(uses@, name) == at_most_two(
                    tally(mid, name) + (if name.len() == 0 {
                        0
                    } else {
                        subgraph_uses(graph@, name, (k + 1) as nat)
                    }),
                ) by {
                assert(tally(before, name) == at_most_two(
                    tally(mid, name) + (if name.len() == 0 {
                        0
                    } else {
                        subgraph_uses(graph@, name, k as nat)
                    }),
                ));
            }
        }
        k = k + 1;
    }
    proof {
        assert forall|name: Seq<char>| #[trigger]
            tally(uses@, name) == at_most_two(tally(old(uses)@, name) + use_count(graph@, name)) by {
            assert(tally(mid, name) == at_most_two(
                tally(old(uses)@, name) + (if name.len() == 0 {
                    0
                } else {
                    node_uses(graph@.node, name)
                }),
            ));
        }
    }
}

/// The names of the values in a list.
pub fn value_names(list: &Vec<ValueInfoProto>) -> (r: StringHashSet)
    ensures
        r@.finite(),
        forall|name: Seq<char>| #[trigger] r@.contains(name) == value_named(views(list@), name),
{
    let mut set = StringHashSet::new();
    let mut i: usize = 0;
    while i < list.len()
        invariant
            i <= list.len(),
            set@.finite(),
            forall|name: Seq<char>| #[trigger]
                set@.contains(name) == value_named(views(list@).take(i as int), name),
        decreases list.len() - i,
    {
        let ghost before = set@;
        set.insert(list[i].name.clone());
        proof {
            let all = views(list@);
            assert forall|name: Seq<char>| #[trigger]
                set@.contains(name) == value_named(all.take(i + 1), name) by {
                assert(before.contains(name) == value_named(all.take(i as int), name));
                if value_named(all.take(i as int), name) {
                    let k = choose|k: int|
                        0 <= k < all.take(i as int).len() && #[trigger] all.take(
                            i as int,
                        )[k].name == name;
                    assert(all.take(i + 1)[k].name == name);
                }
                if all[i as int].name == name {
                    assert(all.take(i + 1)[i as int].name == name);
                }
                if value_named(all.take(i + 1), name) && all[i as int].name != name {
                    let k = choose|k: int|
                        0 <= k < all.take(i + 1).len() && #[trigger] all.take(i + 1)[k].name
                            == name;
                    assert(all.take(i as int)[k].name == name);
                }
            }
        }
        i = i + 1;
    }
    proof {
        assert(views(list@).take(i as int) =~= views(list@));
    }
    set
}

fn sizes(dims: &Vec<Dimension>) -> (r: Vec<i64>)
    ensures
        r@ == Seq::new(dims@.len(), |i: int| fixed_size(views(dims@)[i])),
{
    let mut list: Vec<i64> = Vec::new();
    let mut i: usize = 0;
    while i < dims.len()
        invariant
            i <= dims.len(),
            list@ =~= Seq::new(i as nat, |k: int| fixed_size(views(dims@)[k])),
        decreases dims.len() - i,
    {
        let size: i64 = match &dims[i] {
            Dimension::Value(value) => *value,
            _ => -1,
        };
        list.push(size);
        i = i + 1;
    }
    list
}

fn add_value_info_shapes(shapes: &mut StringHashMap<Vec<i64>>, list: &Vec<ValueInfoProto>)
    ensures
        forall|name: Seq<char>| #[trigger]
            listed_shape(final(shapes)@, name) == or_else(
                shape_among(views(list@), name),
                listed_shape(old(shapes)@, name),
            ),
{
    let mut i: usize = 0;
    while i < list.len()
        invariant
            i <= list.len(),
            forall|name: Seq<char>| #[trigger]
                listed_shape(shapes@, name) == or_else(
                    shape_among(views(list@).take(i as int), name),
                    listed_shape(old(shapes)@, name),
                ),
        decreases list.len() - i,
    {
        let ghost before = shapes@;
        match &list[i].tensor_type {
            Some(t) => match &t.shape {
                Some(dims) => {
                    let found = sizes(dims);
                    proof {
                        assert(typed_shape(views(list@)[i as int])->0 =~= found@);
                    }
                    shapes.insert(list[i].name.clone(), found);
                },
                None => {},
            },
            None => {},
        }
        proof {
            let all = views(list@);
            assert(all.take(i + 1).drop_last() =~= all.take(i as int));
            assert(all.take(i + 1).last() == all[i as int]);
            assert forall|name: Seq<char>| #[trigger]
                listed_shape(shapes@, name) == or_else(
                    shape_among(all.take(i + 1), name),
                    listed_shape(old(shapes)@, name),
                ) by {
                assert(listed_shape(before, name) == or_else(
                    shape_among(all.take(i as int), name),
                    listed_shape(old(shapes)@, name),
                ));
            }
        }
        i = i + 1;
    }
    proof {
        assert(views(list@).take(i as int) =~= views(list@));
    }
}

fn add_value_info_dtypes(dtypes: &mut StringHashMap<i32>, list: &Vec<ValueInfoProto>)
    ensures
        forall|name: Seq<char>| #[trigger]
            listed_dtype(final(dtypes)@, name) == or_else(
                dtype_among(views(list@), name),
                listed_dtype(old(dtypes)@, name),
            ),
{
    let mut i: usize = 0;
    while i < list.len()
        invariant
            i <= list.len(),
            forall|name: Seq<char>| #[trigger]
                listed_dtype(dtypes@, name) == or_else(
                    dtype_among(views(list@).take(i as int), name),
                    listed_dtype(old(dtypes)@, name),
                ),
        decreases list.len() - i,
    {
        let ghost before = dtypes@;
        match &list[i].tensor_type {
            Some(t) => {
                dtypes.insert(list[i].name.clone(), t.elem_type);
            },
            None => {},
        }
        proof {
            let all = views(list@);
            assert(all.take(i + 1).drop_last() =~= all.take(i as int));
            assert(all.take(i + 1).last() == all[i as int]);
            assert forall|name: Seq<char>| #[trigger]
                listed_dtype(dtypes@, name) == or_else(
                    dtype_among(all.take(i + 1), name),
                    listed_dtype(old(dtypes)@, name),
                ) by {
                assert(listed_dtype(before, name) == or_else(
                    dtype_among(all.take(i as int), name),
                    listed_dtype(old(dtypes)@, name),
                ));
            }
        }
        i = i + 1;
    }
    proof {
        assert(views(list@).take(i as int) =~= views(list@));
    }
}

fn initializer_dtypes(list: &Vec<TensorProto>) -> (r: StringHashMap<i32>)
    ensures
        forall|name: Seq<char>| #[trigger]
            listed_dtype(r@, name) == (match initializer_of(views(list@), name) {
                Some(i) => Some(views(list@)[i as int].data_type),
                None => None,
            }),
{
    let mut table: StringHashMap<i32> = StringHashMap::new();
    let mut i: usize = 0;
    while i < list.len()
        invariant
            i <= list.len(),
            forall|name: Seq<char>| #[trigger]
                listed_dtype(table@, name) == (match initializer_of(
                    views(list@).take(i as int),
                    name,
                ) {
                    Some(i) => Some(views(list@)[i as int].data_type),
                    None => None,
                }),
        decreases list.len() - i,
    {
        let ghost before = table@;
        table.insert(list[i].name.clone(), list[i].data_type);
        proof {
            let all = views(list@);
            assert(all.take(i + 1).drop_last() =~= all.take(i as int));
            assert(all.take(i + 1).last() == all[i as int]);
            assert forall|name: Seq<char>| #[trigger]
                listed_dtype(table@, name) == (match initializer_of(all.take(i + 1), name) {
                    Some(i) => Some(all[i as int].data_type),
                    None => None,
                }) by {
                assert(listed_dtype(before, name) == (match initializer_of(
                    all.take(i as int),
                    name,
                ) {
                    Some(i) => Some(all[i as int].data_type),
                    None => None,
                }));
            }
        }
        i = i + 1;
    }
    proof {
        assert(views(list@).take(i as int) =~= views(list@));
    }
    table
}

/// Builds the lookup tables of a graph.
pub fn analyze(graph: &GraphProto) -> (facts: GraphFacts)
    ensures
        facts.describes(graph@),
{
    let producers = index_producers(graph);
    let mut uses: StringHashMap<u8> = StringHashMap::new();
    add_input_uses(graph, &mut uses);
    let initializers = index_initializers(&graph.initializer);
    let graph_outputs = value_names(&graph.output);
    let mut shapes: StringHashMap<Vec<i64>> = StringHashMap::new();
    add_value_info_shapes(&mut shapes, &graph.input);
    let ghost shapes1 = shapes@;
    add_value_info_shapes(&mut shapes, &graph.value_info);
    let ghost shapes2 = shapes@;
    add_value_info_shapes(&mut shapes, &graph.output);
    let mut dtypes = initializer_dtypes(&graph.initializer);
    let ghost dtypes0 = dtypes@;
    add_value_info_dtypes(&mut dtypes, &graph.input);
    let ghost dtypes1 = dtypes@;
    add_value_info_dtypes(&mut dtypes, &graph.value_info);
    let ghost dtypes2 = dtypes@;
    add_value_info_dtypes(&mut dtypes, &graph.output);
    proof {
        let g = graph@;
        assert forall|name: Seq<char>| #[trigger]
            tally(uses@, name) == at_most_two(use_count(g, name)) by {
            assert(tally(Map::<Seq<char>, u8>::empty(), name) == 0);
        }
        assert forall|name: Seq<char>| #[trigger]
            listed_shape(shapes@, name) == declared_shape(g, name) by {
            assert(listed_shape(Map::<Seq<char>, Vec<i64>>::empty(), name) is None);
            assert(listed_shape(shapes1, name) == or_else(shape_among(g.input, name), None));
            assert(listed_shape(shapes2, name) == or_else(
                shape_among(g.value_info, name),
                listed_shape(shapes1, name),
            ));
        }
        assert forall|name: Seq<char>| #[trigger]
            listed_dtype(dtypes@, name) == declared_dtype(g, name) by {
            assert(listed_dtype(dtypes0, name) == (match initializer_of(g.initializer, name) {
                Some(i) => Some(g.initializer[i as int].data_type),
                None => None,
            }));
            assert(listed_dtype(dtypes1, name) == or_else(
                dtype_among(g.input, name),
                listed_dtype(dtypes0, name),
            ));
            assert(listed_dtype(dtypes2, name) == or_else(
                dtype_among(g.value_info, name),
                listed_dtype(dtypes1, name),
            ));
        }
    }
    GraphFacts { producers, uses, initializers, graph_outputs, shapes, dtypes }
}

} // verus!
