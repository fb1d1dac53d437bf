//! Local cleanup after lowering: identities, repeated casts and shape adapters that cancel are
//! removed, and constants with the same content are shared.

use crate::bytes::{read_words, words};
use crate::converter::optimizer::constants::{attr_int_of, attr_ints_of, int_named, ints_named};
use crate::converter::optimizer::facts::{
    add_input_uses, at_most_two, index_producers, lemma_producer_bound, position, producer_of,
    tally, use_count, value_names,
};
use crate::converter::optimizer::fusions::lemma_retained_shorter;
use crate::converter::optimizer::plan::{renamed_to, rewrite_table, rewritten_to, Renaming, Rewrite};
use crate::dtype::INT64;
use crate::name_set::NameSet;
use crate::nested::{
    attach, blanks, detach, height, lemma_subgraph_height, lemma_with_subgraphs, subgraphs,
    with_subgraphs,
};
use crate::onnx::{views, Graph, GraphProto, Node, NodeProto, Tensor, TensorProto};
use crate::scope::{lemma_retained_views, retain_graph_nodes, retain_items, retained, value_named};
use crate::text::{names, same};
use vstd::hash_map::StringHashMap;
use vstd::hash_set::StringHashSet;
use vstd::prelude::*;

verus! {

// ---- Replacing names ----

/// The end of the chain of replacements at `name`; where the chain comes back to a name that it
/// has passed, that name.
pub open spec fn chain_settled(
    list: Seq<Renaming>,
    name: Seq<char>,
    passed: Set<Seq<char>>,
    steps: nat,
) -> Seq<char>
    decreases steps,
{
    match rewritten_to(list, name) {
        Some(next) => if steps == 0 || passed.contains(name) {
            name
        } else {
            chain_settled(list, next, passed.insert(name), (steps - 1) as nat)
        },
        None => name,
    }
}

/// What is read instead of `name`. A chain passes each replaced name at most once, so it has no
/// more steps than there are replacements.
pub open spec fn replacement(list: Seq<Renaming>, name: Seq<char>) -> Seq<char> {
    match rewritten_to(list, name) {
        Some(first) => chain_settled(list, first, Set::empty(), list.len()),
        None => name,
    }
}

/// The nodes with every input replaced.
pub open spec fn inputs_replaced(nodes: Seq<Node>, list: Seq<Renaming>) -> Seq<Node> {
    Seq::new(
        nodes.len(),
        |i: int|
            Node {
                input: Seq::new(
                    nodes[i].input.len(),
                    |j: int| replacement(list, nodes[i].input[j]),
                ),
                ..nodes[i]
            },
    )
}

/// The subgraphs with every input replaced.
pub open spec fn subgraphs_replaced(g: Graph, list: Seq<Renaming>) -> Seq<Graph>
    decreases height(g), 0nat,
    via subgraphs_replaced_decreases
{
    Seq::new(
        subgraphs(g).len(),
        |i: int|
            if 0 <= i < subgraphs(g).len() {
                replaced(subgraphs(g)[i], list)
            } else {
                arbitrary()
            },
    )
}

#[via_fn]
proof fn subgraphs_replaced_decreases(g: Graph, list: Seq<Renaming>) {
    assert forall|i: int| 0 <= i < subgraphs(g).len() implies height(#[trigger] subgraphs(g)[i])
        < height(g) by {
        lemma_subgraph_height(g, i);
    }
}

/// The graph with every input of its nodes, and of those of its subgraphs, replaced.
pub open spec fn replaced(g: Graph, list: Seq<Renaming>) -> Graph
    decreases height(g), 1nat,
{
    let h = with_subgraphs(g, subgraphs_replaced(g, list));
    Graph { node: inputs_replaced(h.node, list), ..h }
}

fn resolve_replacement(
    name: &str,
    table: &StringHashMap<String>,
    count: usize,
    Ghost(list): Ghost<Seq<Renaming>>,
) -> (r: Option<String>)
    requires
        count == list.len(),
        forall|n: Seq<char>| #[trigger] renamed_to(table@, n) == rewritten_to(list, n),
    ensures
        match r {
            Some(other) => replacement(list, name@) == other@,
            None => replacement(list, name@) == name@,
        },
{
    proof {
        assert(renamed_to(table@, name@) == rewritten_to(list, name@));
    }
    let mut current: String = match table.get(name) {
        Some(first) => first.clone(),
        None => {
            return None;
        },
    };
    let mut passed = NameSet::new();
    let mut steps: usize = count;
    loop
        invariant
            steps <= count,
            count == list.len(),
            forall|n: Seq<char>| #[trigger] renamed_to(table@, n) == rewritten_to(list, n),
            replacement(list, name@) == chain_settled(list, current@, passed@, steps as nat),
        decreases steps,
    {
        proof {
            assert(renamed_to(table@, current@) == rewritten_to(list, current@));
        }
        match table.get(current.as_str()) {
            Some(next) => {
                if steps == 0 || !passed.insert(current.as_str()) {
                    return Some(current);
                }
                current = next.clone();
            },
            None => {
                return Some(current);
            },
        }
        steps = steps - 1;
    }
}

fn replace_list(
    inputs: &mut Vec<String>,
    table: &StringHashMap<String>,
    count: usize,
    Ghost(list): Ghost<Seq<Renaming>>,
)
    requires
        count == list.len(),
        forall|n: Seq<char>| #[trigger] renamed_to(table@, n) == rewritten_to(list, n),
    ensures
        names(final(inputs)@) == Seq::new(
            old(inputs)@.len(),
            |j: int| replacement(list, old(inputs)@[j]@),
        ),
{
    let mut j: usize = 0;
    while j < inputs.len()
        invariant
            j <= inputs.len(),
            count == list.len(),
            forall|n: Seq<char>| #[trigger] renamed_to(table@, n) == rewritten_to(list, n),
            inputs.len() == old(inputs).len(),
            forall|k: int|
                0 <= k < j ==> (#[trigger] inputs@[k])@ == replacement(list, old(inputs)@[k]@),
            forall|k: int| j <= k < inputs.len() ==> inputs@[k] == old(inputs)@[k],
        decreases inputs.len() - j,
    {
        match resolve_replacement(inputs[j].as_str(), table, count, Ghost(list)) {
            Some(other) => {
                inputs[j] = other;
            },
            None => {},
        }
        j = j + 1;
    }
    proof {
        assert(names(inputs@) =~= Seq::new(
            old(inputs)@.len(),
            |j: int| replacement(list, old(inputs)@[j]@),
        ));
    }
}

fn replace_with_table(
    graph: &mut GraphProto,
    table: &StringHashMap<String>,
    count: usize,
    Ghost(list): Ghost<Seq<Renaming>>,
)
    requires
        count == list.len(),
        forall|n: Seq<char>| #[trigger] renamed_to(table@, n) == rewritten_to(list, n),
    ensures
        final(graph)@ == replaced(old(graph)@, list),
    decreases height(old(graph)@),
{
    let mut subs = detach(graph);
    let ghost inner = subgraphs(old(graph)@);
    let ghost target = subgraphs_replaced(old(graph)@, list);
    let mut i: usize = 0;
    proof {
        assert(views(subs@).len() == subs@.len());
        assert forall|k: int| 0 <= k < subs.len() implies (#[trigger] subs@[k])@ == inner[k] by {
            assert(views(subs@)[k] == subs@[k]@);
        }
    }
    while i < subs.len()
        invariant
            i <= subs.len(),
            count == list.len(),
            forall|n: Seq<char>| #[trigger] renamed_to(table@, n) == rewritten_to(list, n),
            inner == subgraphs(old(graph)@),
            target == subgraphs_replaced(old(graph)@, list),
            subs.len() == inner.len(),
            forall|k: int| 0 <= k < i ==> (#[trigger] subs@[k])@ == target[k],
            forall|k: int| i <= k < subs.len() ==> (#[trigger] subs@[k])@ == inner[k],
        decreases subs.len() - i,
    {
        proof {
            lemma_subgraph_height(old(graph)@, i as int);
        }
        replace_with_table(&mut subs[i], table, count, Ghost(list));
        i = i + 1;
    }
    proof {
        assert(views(subs@) =~= target);
        lemma_with_subgraphs(old(graph)@, blanks(inner.len()), target);
    }
    attach(graph, subs);
    let ghost h = graph@;
    let ghost mid = *graph;
    let mut n: usize = 0;
    while n < graph.node.len()
        invariant
            n <= graph.node.len(),
            count == list.len(),
            forall|n: Seq<char>| #[trigger] renamed_to(table@, n) == rewritten_to(list, n),
            graph.node.len() == mid.node.len(),
            *graph == (GraphProto { node: graph.node, ..mid }),
            h == mid@,
            forall|k: int|
                0 <= k < n ==> (#[trigger] graph.node@[k])@ == inputs_replaced(h.node, list)[k],
            forall|k: int| n <= k < graph.node.len() ==> graph.node@[k] == mid.node@[k],
        decreases graph.node.len() - n,
    {
        let ghost before = graph.node@[n as int];
        replace_list(&mut graph.node[n].input, table, count, Ghost(list));
        proof {
            let after = graph.node@[n as int];
            assert(after@.attribute == before@.attribute);
            assert(after@.input =~= inputs_replaced(h.node, list)[n as int].input);
        }
        n = n + 1;
    }
    proof {
        assert(graph@.node =~= inputs_replaced(h.node, list));
    }
}

/// Replaces every input of a graph's nodes, and of those of its subgraphs.
pub fn replace_node_inputs(graph: &mut GraphProto, list: &Vec<Rewrite>)
    ensures
        final(graph)@ == replaced(old(graph)@, views(list@)),
{
    let table = rewrite_table(list);
    replace_with_table(graph, &table, list.len(), Ghost(views(list@)));
}

/// Replacing inputs keeps the number of nodes.
pub proof fn lemma_replaced_len(g: Graph, list: Seq<Renaming>)
    ensures
        replaced(g, list).node.len() == g.node.len(),
{
    lemma_with_subgraphs(g, subgraphs_replaced(g, list), subgraphs_replaced(g, list));
}

// ---- Identities ----

/// Whether node `i` is an identity whose input can be read instead of its output.
pub open spec fn plain_identity(g: Graph, i: int) -> bool {
    let n = g.node[i];
    n.op_type == "Identity"@ && n.input.len() == 1 && n.output.len() == 1 && n.input[0].len() > 0
        && n.output[0].len() > 0 && !value_named(g.output, n.output[0])
}

/// The replacements for such identities among the first `k` nodes.
pub open spec fn identity_renamings(g: Graph, k: nat) -> Seq<Renaming>
    decreases k,
{
    if k == 0 {
        Seq::empty()
    } else {
        let front = identity_renamings(g, (k - 1) as nat);
        let n = g.node[k - 1];
        if plain_identity(g, k - 1) {
            front.push(
                Renaming { index: k - 1, from: n.output[0], to: n.input[0] },
            )
        } else {
            front
        }
    }
}

/// The graph without identities, and whether there were any.
pub open spec fn identities_removed(g: Graph) -> (Graph, bool) {
    let list = identity_renamings(g, g.node.len());
    if list.len() == 0 {
        (g, false)
    } else {
        let h = replaced(g, list);
        (
            Graph {
                node: retained(h.node, Seq::new(g.node.len(), |i: int| !plain_identity(g, i))),
                ..h
            },
            true,
        )
    }
}

fn is_plain_identity(graph: &GraphProto, outputs: &StringHashSet, i: usize) -> (r: bool)
    requires
        i < graph.node.len(),
        forall|name: Seq<char>| #[trigger]
            outputs@.contains(name) == value_named(graph@.output, name),
    ensures
        r == plain_identity(graph@, i as int),
{
    let node = &graph.node[i];
    proof {
        assert(graph@.node[i as int] == node@);
        assert(node@.input.len() == node.input.len());
        assert(node@.output.len() == node.output.len());
    }
    if !same(node.op_type.as_str(), "Identity") || node.input.len() != 1 || node.output.len() != 1 {
        return false;
    }
    proof {
        assert(node@.input[0] == node.input@[0]@);
        assert(node@.output[0] == node.output@[0]@);
    }
    !node.input[0].as_str().is_empty() && !node.output[0].as_str().is_empty() && !outputs.contains(
        node.output[0].as_str(),
    )
}

/// Drops identities and reads their inputs instead.
pub fn remove_identity_nodes(graph: &mut GraphProto) -> (changed: bool)
    ensures
        (final(graph)@, changed) == identities_removed(old(graph)@),
        changed ==> final(graph).node.len() < old(graph).node.len(),
        !changed ==> *final(graph) == *old(graph),
{
    let ghost g = graph@;
    let outputs = value_names(&graph.output);
    let mut list: Vec<Rewrite> = Vec::new();
    let mut keep: Vec<bool> = Vec::new();
    let mut i: usize = 0;
    let ghost mut some: int = 0;
    proof {
        assert(views(list@) =~= identity_renamings(g, 0));
    }
    while i < graph.node.len()
        invariant
            i <= graph.node.len(),
            g == graph@,
            *graph == *old(graph),
            forall|name: Seq<char>| #[trigger]
                outputs@.contains(name) == value_named(g.output, name),
            views(list@) == identity_renamings(g, i as nat),
            keep@ =~= Seq::new(i as nat, |k: int| !plain_identity(g, k)),
            list.len() > 0 ==> 0 <= some < i && plain_identity(g, some),
        decreases graph.node.len() - i,
    {
        let goes = is_plain_identity(graph, &outputs, i);
        let ghost before = views(list@);
        if goes {
            let node = &graph.node[i];
            proof {
                assert(g.node[i as int] == node@);
                assert(node@.input[0] == node.input@[0]@);
                assert(node@.output[0] == node.output@[0]@);
                some = i as int;
            }
            list.push(Rewrite { index: i, from: node.output[0].clone(), to: node.input[0].clone() });
            proof {
                assert(views(list@) =~= before.push(
                    Renaming { index: i as int, from: node@.output[0], to: node@.input[0] },
                ));
            }
        }
        keep.push(!goes);
        i = i + 1;
    }
    if list.len() == 0 {
        return false;
    }
    replace_node_inputs(graph, &list);
    proof {
        lemma_replaced_len(g, views(list@));
        assert(keep@ =~= Seq::new(g.node.len(), |k: int| !plain_identity(g, k)));
        lemma_retained_shorter(graph@.node, keep@, some);
    }
    retain_graph_nodes(graph, &keep);
    true
}

// ---- Repeated casts ----

/// The element type that a `Cast` goes to.
pub open spec fn cast_target(n: Node) -> Option<i64> {
    if n.op_type != "Cast"@ {
        None
    } else {
        int_named(n, "to"@)
    }
}

/// Node flags, protected nodes and new inputs, gathered over casts.
#[verifier::ext_equal]
pub struct Casts {
    pub dropped: Seq<bool>,
    pub protected: Seq<bool>,
    pub inputs: Seq<(int, Seq<char>)>,
}

/// The cast before node `i`, where node `i` is a cast that is its only reader, and both go to the
/// same element type.
pub open spec fn cast_before(g: Graph, i: int) -> Option<int> {
    let n = g.node[i];
    if n.op_type != "Cast"@ || n.input.len() != 1 || n.output.len() != 1 || n.input[0].len() == 0
        || value_named(g.output, n.input[0]) || use_count(g, n.input[0]) != 1 {
        None
    } else {
        match producer_of(g.node, n.input[0]) {
            None => None,
            Some(p) => {
                let m = g.node[p as int];
                if m.input.len() == 1 && m.output.len() == 1 && cast_target(m) is Some
                    && cast_target(m) == cast_target(n) {
                    Some(p as int)
                } else {
                    None
                }
            },
        }
    }
}

/// The casts among the first `k` nodes that can be skipped. A cast that has taken over another's
/// input is kept.
pub open spec fn casts_collapsed_upto(g: Graph, k: nat) -> Casts
    decreases k,
{
    if k == 0 {
        Casts {
            dropped: Seq::new(g.node.len(), |i: int| false),
            protected: Seq::new(g.node.len(), |i: int| false),
            inputs: Seq::empty(),
        }
    } else {
        let c = casts_collapsed_upto(g, (k - 1) as nat);
        match cast_before(g, k - 1) {
            Some(p) => if c.protected[p] {
                c
            } else {
                Casts {
                    dropped: c.dropped.update(p, true),
                    protected: c.protected.update(k - 1, true),
                    inputs: c.inputs.push((k - 1, g.node[p].input[0])),
                }
            },
            None => c,
        }
    }
}

/// The nodes with the first `k` of the new inputs.
pub open spec fn inputs_set(nodes: Seq<Node>, list: Seq<(int, Seq<char>)>, k: nat) -> Seq<Node>
    decreases k,
{
    if k == 0 {
        nodes
    } else {
        let front = inputs_set(nodes, list, (k - 1) as nat);
        let (i, name) = list[k - 1];
        front.update(i, Node { input: front[i].input.update(0, name), ..front[i] })
    }
}

/// The flags turned round.
pub open spec fn not_flags(flags: Seq<bool>) -> Seq<bool> {
    Seq::new(flags.len(), |i: int| !flags[i])
}

/// The graph without casts that repeat the one before, and whether there were any.
pub open spec fn casts_collapsed(g: Graph) -> (Graph, bool) {
    let c = casts_collapsed_upto(g, g.node.len());
    if c.inputs.len() == 0 {
        (g, false)
    } else {
        (
            Graph {
                node: retained(
                    inputs_set(g.node, c.inputs, c.inputs.len()),
                    not_flags(c.dropped),
                ),
                ..g
            },
            true,
        )
    }
}

/// Tables for the passes that look at pairs of nodes.
pub struct Pairs {
    pub outputs: StringHashSet,
    pub uses: StringHashMap<u8>,
    pub producers: StringHashMap<usize>,
}

impl Pairs {
    /// Whether the tables say what holds of the graph.
    pub open spec fn describes(&self, g: Graph) -> bool {
        &&& forall|name: Seq<char>| #[trigger]
            self.outputs@.contains(name) == value_named(g.output, name)
        &&& forall|name: Seq<char>| #[trigger]
            tally(self.uses@, name) == at_most_two(use_count(g, name))
        &&& forall|name: Seq<char>| #[trigger]
            position(self.producers@, name) == producer_of(g.node, name)
    }

    fn of(graph: &GraphProto) -> (r: Pairs)
        ensures
            r.describes(graph@),
    {
        let outputs = value_names(&graph.output);
        let mut uses: StringHashMap<u8> = StringHashMap::new();
        add_input_uses(graph, &mut uses);
        let producers = index_producers(graph);
        proof {
            assert forall|name: Seq<char>| #[trigger]
                tally(uses@, name) == at_most_two(use_count(graph@, name)) by {
                assert(tally(Map::<Seq<char>, u8>::empty(), name) == 0);
            }
        }
        Pairs { outputs, uses, producers }
    }

    /// Whether `name` is read once and is no output.
    fn is_inner(&self, Ghost(g): Ghost<Graph>, name: &str) -> (r: bool)
        requires
            self.describes(g),
        ensures
            r == (!value_named(g.output, name@) && use_count(g, name@) == 1),
    {
        proof {
            assert(tally(self.uses@, name@) == at_most_two(use_count(g, name@)));
        }
        if self.outputs.contains(name) {
            return false;
        }
        match self.uses.get(name) {
            Some(count) => *count == 1,
            None => false,
        }
    }

    fn producer(&self, Ghost(g): Ghost<Graph>, name: &str) -> (r: Option<usize>)
        requires
            self.describes(g),
        ensures
            match r {
                Some(i) => producer_of(g.node, name@) == Some(i as nat) && i < g.node.len(),
                None => producer_of(g.node, name@) is None,
            },
    {
        proof {
            assert(position(self.producers@, name@) == producer_of(g.node, name@));
            lemma_producer_bound(g.node, name@);
        }
        match self.producers.get(name) {
            Some(i) => Some(*i),
            None => None,
        }
    }
}

fn cast_to_dtype(node: &NodeProto) -> (r: Option<i64>)
    ensures
        r == cast_target(node@),
{
    if !same(node.op_type.as_str(), "Cast") {
        return None;
    }
    attr_int_of(node, "to")
}

fn find_cast_before(graph: &GraphProto, pairs: &Pairs, i: usize) -> (r: Option<usize>)
    requires
        pairs.describes(graph@),
        i < graph.node.len(),
    ensures
        match r {
            Some(p) => cast_before(graph@, i as int) == Some(p as int) && p < graph.node.len()
                && graph@.node[p as int].input.len() == 1 && graph@.node[i as int].input.len() == 1,
            None => cast_before(graph@, i as int) is None,
        },
{
    let ghost g = graph@;
    let node = &graph.node[i];
    proof {
        assert(g.node[i as int] == node@);
        assert(node@.input.len() == node.input.len());
        assert(node@.output.len() == node.output.len());
    }
    if !same(node.op_type.as_str(), "Cast") || node.input.len() != 1 || node.output.len() != 1 {
        return None;
    }
    proof {
        assert(node@.input[0] == node.input@[0]@);
    }
    if node.input[0].as_str().is_empty() || !pairs.is_inner(Ghost(g), node.input[0].as_str()) {
        return None;
    }
    let p: usize = match pairs.producer(Ghost(g), node.input[0].as_str()) {
        Some(p) => p,
        None => {
            return None;
        },
    };
    let before = &graph.node[p];
    proof {
        assert(g.node[p as int] == before@);
        assert(before@.input.len() == before.input.len());
        assert(before@.output.len() == before.output.len());
    }
    if before.input.len() != 1 || before.output.len() != 1 {
        return None;
    }
    match cast_to_dtype(before) {
        Some(a) => match cast_to_dtype(node) {
            Some(b) => if a == b {
                Some(p)
            } else {
                None
            },
            None => None,
        },
        None => None,
    }
}

fn no_flags(count: usize) -> (r: Vec<bool>)
    ensures
        r@ == Seq::new(count as nat, |i: int| false),
{
    let mut flags: Vec<bool> = Vec::new();
    let mut i: usize = 0;
    while i < count
        invariant
            i <= count,
            flags@ =~= Seq::new(i as nat, |k: int| false),
        decreases count - i,
    {
        flags.push(false);
        i = i + 1;
    }
    flags
}

fn turned(flags: &Vec<bool>) -> (r: Vec<bool>)
    ensures
        r@ == not_flags(flags@),
{
    let mut list: Vec<bool> = Vec::new();
    let mut i: usize = 0;
    while i < flags.len()
        invariant
            i <= flags.len(),
            list@ =~= not_flags(flags@).take(i as int),
        decreases flags.len() - i,
    {
        list.push(!flags[i]);
        i = i + 1;
    }
    proof {
        assert(not_flags(flags@).take(i as int) =~= not_flags(flags@));
    }
    list
}

/// The content of a list of new inputs.
pub open spec fn pairs_view(list: Seq<(usize, String)>) -> Seq<(int, Seq<char>)> {
    Seq::new(list.len(), |i: int| (list[i].0 as int, list[i].1@))
}

/// Drops casts that repeat the one before.
pub fn collapse_duplicate_casts(graph: &mut GraphProto) -> (changed: bool)
    ensures
        (final(graph)@, changed) == casts_collapsed(old(graph)@),
        changed ==> final(graph).node.len() < old(graph).node.len(),
        !changed ==> *final(graph) == *old(graph),
{
    let ghost g = graph@;
    let pairs = Pairs::of(graph);
    let mut dropped = no_flags(graph.node.len());
    let mut protected = no_flags(graph.node.len());
    let mut inputs: Vec<(usize, String)> = Vec::new();
    let mut i: usize = 0;
    let ghost mut some: int = 0;
    proof {
        assert(pairs_view(inputs@) =~= Seq::empty());
    }
    while i < graph.node.len()
        invariant
            i <= graph.node.len(),
            g == graph@,
            *graph == *old(graph),
            pairs.describes(g),
            dropped.len() == graph.node.len(),
            protected.len() == graph.node.len(),
            (Casts {
                dropped: dropped@,
                protected: protected@,
                inputs: pairs_view(inputs@),
            }) == casts_collapsed_upto(g, i as nat),
            forall|k: int|
                0 <= k < inputs.len() ==> (#[trigger] inputs@[k]).0 < graph.node.len()
                    && g.node[inputs@[k].0 as int].input.len() == 1,
            inputs.len() > 0 ==> 0 <= some < dropped.len() && dropped@[some],
        decreases graph.node.len() - i,
    {
        match find_cast_before(graph, &pairs, i) {
            Some(p) => {
                if !protected[p] {
                    proof {
                        assert(g.node[p as int] == graph.node@[p as int]@);
                        assert(g.node[p as int].input[0] == graph.node@[p as int].input@[0]@);
                        some = p as int;
                    }
                    let source = graph.node[p].input[0].clone();
                    let ghost before = pairs_view(inputs@);
                    dropped[p] = true;
                    protected[i] = true;
                    inputs.push((i, source));
                    proof {
                        assert(pairs_view(inputs@) =~= before.push((i as int, source@)));
                    }
                }
            },
            None => {},
        }
        i = i + 1;
    }
    if inputs.len() == 0 {
        return false;
    }
    let ghost list = pairs_view(inputs@);
    let mut k: usize = 0;
    while k < inputs.len()
        invariant
            k <= inputs.len(),
            list == pairs_view(inputs@),
            graph.node.len() == g.node.len(),
            *graph == (GraphProto { node: graph.node, ..*old(graph) }),
            g == old(graph)@,
            forall|j: int|
                0 <= j < inputs.len() ==> (#[trigger] inputs@[j]).0 < graph.node.len()
                    && g.node[inputs@[j].0 as int].input.len() == 1,
            graph@.node == inputs_set(g.node, list, k as nat),
            forall|j: int|
                0 <= j < g.node.len() ==> (#[trigger] graph@.node[j]).input.len()
                    == g.node[j].input.len(),
        decreases inputs.len() - k,
    {
        let at: usize = inputs[k].0;
        let ghost before = graph@.node;
        proof {
            assert(inputs@[k as int].0 < graph.node.len());
            assert(graph@.node[at as int].input.len() == 1);
            assert(graph@.node[at as int] == graph.node@[at as int]@);
        }
        let ghost old_node = graph.node@[at as int];
        graph.node[at].input[0] = inputs[k].1.clone();
        proof {
            let new_node = graph.node@[at as int];
            assert(new_node@.input =~= old_node@.input.update(0, inputs@[k as int].1@));
            assert(new_node@.attribute =~= old_node@.attribute);
            assert(graph@.node =~= before.update(at as int, new_node@));
        }
        k = k + 1;
    }
    let keep = turned(&dropped);
    proof {
        assert(!keep@[some]);
        lemma_retained_shorter(graph@.node, keep@, some);
    }
    retain_graph_nodes(graph, &keep);
    true
}

// ---- Shape adapters that cancel ----

/// The first constant named `name`, from position `i` on.
pub open spec fn first_tensor(list: Seq<Tensor>, name: Seq<char>, i: int) -> Option<Tensor>
    decreases list.len() - i,
{
    if i < 0 || i >= list.len() {
        None
    } else if list[i].name == name {
        Some(list[i])
    } else {
        first_tensor(list, name, i + 1)
    }
}

/// The integers of an `INT64` constant.
pub open spec fn int64_values(t: Tensor) -> Option<Seq<i64>> {
    if t.data_type != INT64 {
        None
    } else if t.int64_data.len() > 0 {
        Some(t.int64_data)
    } else if t.raw_data.len() % 8 != 0 {
        None
    } else {
        Some(
            Seq::new(
                words(t.raw_data, 8).len(),
                |i: int| words(t.raw_data, 8)[i] as i64,
            ),
        )
    }
}

/// The axes of a `Squeeze` or `Unsqueeze`, where they are fixed.
pub open spec fn fixed_axes(g: Graph, n: Node) -> Option<Seq<i64>> {
    if n.op_type != "Squeeze"@ && n.op_type != "Unsqueeze"@ {
        None
    } else if ints_named(n, "axes"@) is Some {
        ints_named(n, "axes"@)
    } else if n.input.len() < 2 || n.input[1].len() == 0 {
        None
    } else {
        match first_tensor(g.initializer, n.input[1], 0) {
            Some(t) => int64_values(t),
            None => None,
        }
    }
}

/// Whether two lists hold no negative number and the same numbers, each as often.
pub open spec fn same_axes(a: Seq<i64>, b: Seq<i64>) -> bool {
    &&& forall|i: int| 0 <= i < a.len() ==> #[trigger] a[i] >= 0
    &&& forall|i: int| 0 <= i < b.len() ==> #[trigger] b[i] >= 0
    &&& a.to_multiset() == b.to_multiset()
}

/// Whether one of two nodes adds the axes that the other drops.
pub open spec fn cancels(g: Graph, m: Node, n: Node) -> bool {
    ((m.op_type == "Unsqueeze"@ && n.op_type == "Squeeze"@) || (m.op_type == "Squeeze"@
        && n.op_type == "Unsqueeze"@)) && (match (fixed_axes(g, m), fixed_axes(g, n)) {
        (Some(a), Some(b)) => same_axes(a, b),
        _ => false,
    })
}

/// The node before node `i`, where node `i` is its only reader and the two cancel.
pub open spec fn adapter_before(g: Graph, i: int) -> Option<int> {
    let n = g.node[i];
    if n.input.len() == 0 || n.output.len() != 1 || n.input[0].len() == 0 || value_named(
        g.output,
        n.input[0],
    ) || use_count(g, n.input[0]) != 1 {
        None
    } else {
        match producer_of(g.node, n.input[0]) {
            None => None,
            Some(p) => {
                let m = g.node[p as int];
                if m.input.len() > 0 && m.output.len() == 1 && cancels(g, m, n) {
                    Some(p as int)
                } else {
                    None
                }
            },
        }
    }
}

/// Node flags, replacements and nodes to become identities, gathered over shape adapters.
#[verifier::ext_equal]
pub struct Adapters {
    pub dropped: Seq<bool>,
    pub renamings: Seq<Renaming>,
    pub identities: Seq<(int, Seq<char>)>,
}

/// The pairs of shape adapters among the first `k` nodes that cancel. The second of a pair stays as
/// an identity where it yields an output of the graph.
pub open spec fn adapters_upto(g: Graph, k: nat) -> Adapters
    decreases k,
{
    if k == 0 {
        Adapters {
            dropped: Seq::new(g.node.len(), |i: int| false),
            renamings: Seq::empty(),
            identities: Seq::empty(),
        }
    } else {
        let a = adapters_upto(g, (k - 1) as nat);
        let n = g.node[k - 1];
        match adapter_before(g, k - 1) {
            Some(p) => if a.dropped[p] {
                a
            } else if value_named(g.output, n.output[0]) {
                Adapters {
                    dropped: a.dropped.update(p, true),
                    identities: a.identities.push((k - 1, g.node[p].input[0])),
                    ..a
                }
            } else {
                Adapters {
                    dropped: a.dropped.update(p, true).update(k - 1, true),
                    renamings: a.renamings.push(
                        Renaming {
                            index: k - 1,
                            from: n.output[0],
                            to: g.node[p].input[0],
                        },
                    ),
                    ..a
                }
            },
            None => a,
        }
    }
}

/// The nodes with the first `k` of the listed ones made identities.
pub open spec fn identities_set(nodes: Seq<Node>, list: Seq<(int, Seq<char>)>, k: nat) -> Seq<Node>
    decreases k,
{
    if k == 0 {
        nodes
    } else {
        let front = identities_set(nodes, list, (k - 1) as nat);
        let (i, name) = list[k - 1];
        front.update(
            i,
            Node {
                op_type: "Identity"@,
                input: seq![name],
                output: front[i].output,
                attribute: Seq::empty(),
            },
        )
    }
}

/// The graph without shape adapters that cancel, and whether there were any.
pub open spec fn adapters_removed(g: Graph) -> (Graph, bool) {
    let a = adapters_upto(g, g.node.len());
    if a.renamings.len() == 0 && a.identities.len() == 0 {
        (g, false)
    } else {
        let h = replaced(g, a.renamings);
        (
            Graph {
                node: retained(
                    identities_set(h.node, a.identities, a.identities.len()),
                    not_flags(a.dropped),
                ),
                ..h
            },
            true,
        )
    }
}

fn static_i64_initializer(graph: &GraphProto, name: &str) -> (r: Option<Vec<i64>>)
    ensures
        ({
            let found = match first_tensor(graph@.initializer, name@, 0) {
                Some(t) => int64_values(t),
                None => None,
            };
            match r {
                Some(list) => found == Some(list@),
                None => found is None,
            }
        }),
{
    let mut i: usize = 0;
    while i < graph.initializer.len()
        invariant
            i <= graph.initializer.len(),
            first_tensor(graph@.initializer, name@, 0) == first_tensor(
                graph@.initializer,
                name@,
                i as int,
            ),
        decreases graph.initializer.len() - i,
    {
        let tensor = &graph.initializer[i];
        proof {
            assert(graph@.initializer[i as int] == tensor@);
        }
        if same(tensor.name.as_str(), name) {
            if tensor.data_type != INT64 {
                return None;
            }
            if tensor.int64_data.len() > 0 {
                let copy = tensor.int64_data.clone();
                proof {
                    assert(copy@ =~= tensor.int64_data@);
                }
                return Some(copy);
            }
            if tensor.raw_data.len() % 8 != 0 {
                return None;
            }
            let raw = read_words(&tensor.raw_data, 8);
            let mut list: Vec<i64> = Vec::new();
            let mut k: usize = 0;
            while k < raw.len()
                invariant
                    k <= raw.len(),
                    list@ =~= Seq::new(k as nat, |j: int| raw@[j] as i64),
                decreases raw.len() - k,
            {
                list.push(raw[k] as i64);
                k = k + 1;
            }
            proof {
                assert(int64_values(tensor@)->0 =~= list@);
            }
            return Some(list);
        }
        i = i + 1;
    }
    None
}

fn static_axes(graph: &GraphProto, node: &NodeProto) -> (r: Option<Vec<i64>>)
    ensures
        match r {
            Some(axes) => fixed_axes(graph@, node@) == Some(axes@),
            None => fixed_axes(graph@, node@) is None,
        },
{
    if !same(node.op_type.as_str(), "Squeeze") && !same(node.op_type.as_str(), "Unsqueeze") {
        return None;
    }
    match attr_ints_of(node, "axes") {
        Some(axes) => {
            return Some(axes);
        },
        None => {},
    }
    proof {
        assert(node@.input.len() == node.input.len());
    }
    if node.input.len() < 2 {
        return None;
    }
    proof {
        assert(node@.input[1] == node.input@[1]@);
    }
    if node.input[1].as_str().is_empty() {
        return None;
    }
    static_i64_initializer(graph, node.input[1].as_str())
}

fn count_of(list: &Vec<i64>, value: i64) -> (r: usize)
    ensures
        r == list@.to_multiset().count(value),
{
    let mut n: usize = 0;
    let mut i: usize = 0;
    proof {
        list@.take(0).to_multiset_ensures();
        assert(list@.take(0).to_multiset().len() == 0);
        assert(list@.take(0).to_multiset().count(value) == 0) by {
            assert(list@.take(0) =~= Seq::<i64>::empty());
        }
    }
    while i < list.len()
        invariant
            i <= list.len(),
            n <= i,
            n == list@.take(i as int).to_multiset().count(value),
        decreases list.len() - i,
    {
        proof {
            list@.take(i as int).to_multiset_ensures();
            assert(list@.take(i + 1) =~= list@.take(i as int).push(list@[i as int]));
        }
        if list[i] == value {
            n = n + 1;
        }
        i = i + 1;
    }
    proof {
        assert(list@.take(i as int) =~= list@);
    }
    n
}

fn has_same_axes(a: &Vec<i64>, b: &Vec<i64>) -> (r: bool)
    ensures
        r == same_axes(a@, b@),
{
    let mut i: usize = 0;
    while i < a.len()
        invariant
            i <= a.len(),
            forall|k: int|
                0 <= k < i ==> #[trigger] a@[k] >= 0 && a@.to_multiset().count(a@[k])
                    == b@.to_multiset().count(a@[k]),
        decreases a.len() - i,
    {
        if a[i] < 0 || count_of(a, a[i]) != count_of(b, a[i]) {
            return false;
        }
        i = i + 1;
    }
    let mut j: usize = 0;
    while j < b.len()
        invariant
            j <= b.len(),
            forall|k: int|
                0 <= k < j ==> #[trigger] b@[k] >= 0 && a@.to_multiset().count(b@[k])
                    == b@.to_multiset().count(b@[k]),
        decreases b.len() - j,
    {
        if b[j] < 0 || count_of(a, b[j]) != count_of(b, b[j]) {
            return false;
        }
        j = j + 1;
    }
    proof {
        assert forall|v: i64| a@.to_multiset().count(v) == b@.to_multiset().count(v) by {
            a@.to_multiset_ensures();
            b@.to_multiset_ensures();
            if a@.contains(v) {
                let k = choose|k: int| 0 <= k < a@.len() && a@[k] == v;
                assert(a@[k] == v);
            } else if b@.contains(v) {
                let k = choose|k: int| 0 <= k < b@.len() && b@[k] == v;
                assert(b@[k] == v);
            }
        }
        assert(a@.to_multiset() =~= b@.to_multiset());
    }
    true
}

fn do_cancel(graph: &GraphProto, m: &NodeProto, n: &NodeProto) -> (r: bool)
    ensures
        r == cancels(graph@, m@, n@),
{
    let pair = (same(m.op_type.as_str(), "Unsqueeze") && same(n.op_type.as_str(), "Squeeze")) || (
    same(m.op_type.as_str(), "Squeeze") && same(n.op_type.as_str(), "Unsqueeze"));
    if !pair {
        return false;
    }
    match static_axes(graph, m) {
        Some(a) => match static_axes(graph, n) {
            Some(b) => has_same_axes(&a, &b),
            None => false,
        },
        None => false,
    }
}

fn find_adapter_before(graph: &GraphProto, pairs: &Pairs, i: usize) -> (r: Option<usize>)
    requires
        pairs.describes(graph@),
        i < graph.node.len(),
    ensures
        match r {
            Some(p) => adapter_before(graph@, i as int) == Some(p as int) && p < graph.node.len()
                && graph@.node[p as int].input.len() > 0 && graph@.node[i as int].output.len() == 1,
            None => adapter_before(graph@, i as int) is None,
        },
{
    let ghost g = graph@;
    let node = &graph.node[i];
    proof {
        assert(g.node[i as int] == node@);
        assert(node@.input.len() == node.input.len());
        assert(node@.output.len() == node.output.len());
    }
    if node.input.len() == 0 || node.output.len() != 1 {
        return None;
    }
    proof {
        assert(node@.input[0] == node.input@[0]@);
    }
    if node.input[0].as_str().is_empty() || !pairs.is_inner(Ghost(g), node.input[0].as_str()) {
        return None;
    }
    let p: usize = match pairs.producer(Ghost(g), node.input[0].as_str()) {
        Some(p) => p,
        None => {
            return None;
        },
    };
    let before = &graph.node[p];
    proof {
        assert(g.node[p as int] == before@);
        assert(before@.input.len() == before.input.len());
        assert(before@.output.len() == before.output.len());
    }
    if before.input.len() == 0 || before.output.len() != 1 || !do_cancel(graph, before, node) {
        return None;
    }
    Some(p)
}

/// Drops pairs of shape adapters that cancel.
pub fn remove_canceling_shape_adapters(graph: &mut GraphProto) -> (changed: bool)
    ensures
        (final(graph)@, changed) == adapters_removed(old(graph)@),
        changed ==> final(graph).node.len() < old(graph).node.len(),
        !changed ==> *final(graph) == *old(graph),
{
    let ghost g = graph@;
    let pairs = Pairs::of(graph);
    let mut dropped = no_flags(graph.node.len());
    let mut list: Vec<Rewrite> = Vec::new();
    let mut identities: Vec<(usize, String)> = Vec::new();
    let mut i: usize = 0;
    let ghost mut some: int = 0;
    proof {
        assert(pairs_view(identities@) =~= Seq::empty());
        assert(views(list@) =~= Seq::empty());
    }
    while i < graph.node.len()
        invariant
            i <= graph.node.len(),
            g == graph@,
            *graph == *old(graph),
            pairs.describes(g),
            dropped.len() == graph.node.len(),
            (Adapters {
                dropped: dropped@,
                renamings: views(list@),
                identities: pairs_view(identities@),
            }) == adapters_upto(g, i as nat),
            forall|k: int|
                0 <= k < identities.len() ==> (#[trigger] identities@[k]).0 < graph.node.len(),
            list.len() > 0 || identities.len() > 0 ==> 0 <= some < dropped.len() && dropped@[some],
        decreases graph.node.len() - i,
    {
        match find_adapter_before(graph, &pairs, i) {
            Some(p) => {
                if !dropped[p] {
                    let node = &graph.node[i];
                    proof {
                        assert(g.node[p as int] == graph.node@[p as int]@);
                        assert(g.node[p as int].input[0] == graph.node@[p as int].input@[0]@);
                        assert(g.node[i as int] == node@);
                        assert(node@.output[0] == node.output@[0]@);
                        some = p as int;
                    }
                    let source = graph.node[p].input[0].clone();
                    let output = node.output[0].clone();
                    let ghost before = pairs_view(identities@);
                    let ghost prior = views(list@);
                    dropped[p] = true;
                    if pairs.outputs.contains(output.as_str()) {
                        identities.push((i, source));
                        proof {
                            assert(pairs_view(identities@) =~= before.push((i as int, source@)));
                        }
                    } else {
                        dropped[i] = true;
                        list.push(Rewrite { index: i, from: output, to: source });
                        proof {
                            assert(views(list@) =~= prior.push(
                                Renaming { index: i as int, from: output@, to: source@ },
                            ));
                        }
                    }
                }
            },
            None => {},
        }
        i = i + 1;
    }
    if list.len() == 0 && identities.len() == 0 {
        return false;
    }
    replace_node_inputs(graph, &list);
    let ghost h = graph@;
    let ghost mid = *graph;
    proof {
        lemma_replaced_len(g, views(list@));
        assert(h.node.len() == g.node.len());
    }
    let ghost flat = pairs_view(identities@);
    let mut k: usize = 0;
    while k < identities.len()
        invariant
            k <= identities.len(),
            flat == pairs_view(identities@),
            graph.node.len() == mid.node.len(),
            *graph == (GraphProto { node: graph.node, ..mid }),
            h == mid@,
            forall|j: int|
                0 <= j < identities.len() ==> (#[trigger] identities@[j]).0 < graph.node.len(),
            graph@.node == identities_set(h.node, flat, k as nat),
        decreases identities.len() - k,
    {
        let at: usize = identities[k].0;
        let ghost before = graph@.node;
        proof {
            assert(identities@[k as int].0 < graph.node.len());
        }
        let ghost old_node = graph.node@[at as int];
        graph.node[at].op_type = "Identity".to_string();
        graph.node[at].input = crate::text::list1(identities[k].1.clone());
        graph.node[at].attribute = Vec::new();
        proof {
            let new_node = graph.node@[at as int];
            assert(new_node@.attribute =~= Seq::empty());
            assert(graph@.node =~= before.update(at as int, new_node@));
        }
        k = k + 1;
    }
    let keep = turned(&dropped);
    proof {
        assert(!keep@[some]);
        lemma_retained_shorter(graph@.node, keep@, some);
    }
    retain_graph_nodes(graph, &keep);
    true
}

// ---- Constants with the same content ----

/// Whether two constants differ at most in their names.
pub open spec fn alike(a: Tensor, b: Tensor) -> bool {
    a.dims == b.dims && a.data_type == b.data_type && a.float_data == b.float_data && a.int32_data
        == b.int32_data && a.int64_data == b.int64_data && a.raw_data == b.raw_data
        && a.double_data == b.double_data && a.uint64_data == b.uint64_data
}

/// The first constant before position `i`, from position `j` on, that is no output and is like the
/// one at `i`.
pub open spec fn first_alike(g: Graph, i: int, j: int) -> Option<int>
    decreases i - j,
{
    if j < 0 || j >= i {
        None
    } else if !value_named(g.output, g.initializer[j].name) && alike(
        g.initializer[j],
        g.initializer[i],
    ) {
        Some(j)
    } else {
        first_alike(g, i, j + 1)
    }
}

/// Whether the constant at position `i` is no output and is like one before it.
pub open spec fn shared(g: Graph, i: int) -> bool {
    !value_named(g.output, g.initializer[i].name) && first_alike(g, i, 0) is Some
}

/// The replacements for such constants among the first `k`.
pub open spec fn shared_renamings(g: Graph, k: nat) -> Seq<Renaming>
    decreases k,
{
    if k == 0 {
        Seq::empty()
    } else {
        let front = shared_renamings(g, (k - 1) as nat);
        if shared(g, k - 1) {
            front.push(
                Renaming {
                    index: k - 1,
                    from: g.initializer[k - 1].name,
                    to: g.initializer[first_alike(g, k - 1, 0)->0].name,
                },
            )
        } else {
            front
        }
    }
}

/// The graph with only the first of several constants with the same content.
pub open spec fn constants_shared(g: Graph) -> Graph {
    let list = shared_renamings(g, g.initializer.len());
    let h = Graph {
        initializer: retained(
            g.initializer,
            Seq::new(g.initializer.len(), |i: int| !shared(g, i)),
        ),
        ..g
    };
    if list.len() == 0 {
        h
    } else {
        replaced(h, list)
    }
}

fn same_ints(a: &Vec<i64>, b: &Vec<i64>) -> (r: bool)
    ensures
        r == (a@ == b@),
{
    if a.len() != b.len() {
        return false;
    }
    let mut i: usize = 0;
    while i < a.len()
        invariant
            i <= a.len() == b.len(),
            forall|k: int| 0 <= k < i ==> a@[k] == b@[k],
        decreases a.len() - i,
    {
        if a[i] != b[i] {
            return false;
        }
        i = i + 1;
    }
    proof {
        assert(a@ =~= b@);
    }
    true
}

fn same_i32s(a: &Vec<i32>, b: &Vec<i32>) -> (r: bool)
    ensures
        r == (a@ == b@),
{
    if a.len() != b.len() {
        return false;
    }
    let mut i: usize = 0;
    while i < a.len()
        invariant
            i <= a.len() == b.len(),
            forall|k: int| 0 <= k < i ==> a@[k] == b@[k],
        decreases a.len() - i,
    {
        if a[i] != b[i] {
            return false;
        }
        i = i + 1;
    }
    proof {
        assert(a@ =~= b@);
    }
    true
}

fn same_u32s(a: &Vec<u32>, b: &Vec<u32>) -> (r: bool)
    ensures
        r == (a@ == b@),
{
    if a.len() != b.len() {
        return false;
    }
    let mut i: usize = 0;
    while i < a.len()
        invariant
            i <= a.len() == b.len(),
            forall|k: int| 0 <= k < i ==> a@[k] == b@[k],
        decreases a.len() - i,
    {
        if a[i] != b[i] {
            return false;
        }
        i = i + 1;
    }
    proof {
        assert(a@ =~= b@);
    }
    true
}

fn same_u64s(a: &Vec<u64>, b: &Vec<u64>) -> (r: bool)
    ensures
        r == (a@ == b@),
{
    if a.len() != b.len() {
        return false;
    }
    let mut i: usize = 0;
    while i < a.len()
        invariant
            i <= a.len() == b.len(),
            forall|k: int| 0 <= k < i ==> a@[k] == b@[k],
        decreases a.len() - i,
    {
        if a[i] != b[i] {
            return false;
        }
        i = i + 1;
    }
    proof {
        assert(a@ =~= b@);
    }
    true
}

fn same_bytes(a: &Vec<u8>, b: &Vec<u8>) -> (r: bool)
    ensures
        r == (a@ == b@),
{
    if a.len() != b.len() {
        return false;
    }
    let mut i: usize = 0;
    while i < a.len()
        invariant
            i <= a.len() == b.len(),
            forall|k: int| 0 <= k < i ==> a@[k] == b@[k],
        decreases a.len() - i,
    {
        if a[i] != b[i] {
            return false;
        }
        i = i + 1;
    }
    proof {
        assert(a@ =~= b@);
    }
    true
}

fn are_alike(a: &TensorProto, b: &TensorProto) -> (r: bool)
    ensures
        r == alike(a@, b@),
{
    a.data_type == b.data_type && same_ints(&a.dims, &b.dims) && same_bytes(
        &a.raw_data,
        &b.raw_data,
    ) && same_u32s(&a.float_data, &b.float_data) && same_i32s(&a.int32_data, &b.int32_data)
        && same_ints(&a.int64_data, &b.int64_data) && same_u64s(&a.double_data, &b.double_data)
        && same_u64s(&a.uint64_data, &b.uint64_data)
}

fn find_first_alike(graph: &GraphProto, outputs: &StringHashSet, i: usize) -> (r: Option<usize>)
    requires
        i < graph.initializer.len(),
        forall|name: Seq<char>| #[trigger]
            outputs@.contains(name) == value_named(graph@.output, name),
    ensures
        match r {
            Some(j) => first_alike(graph@, i as int, 0) == Some(j as int) && j < i,
            None => first_alike(graph@, i as int, 0) is None,
        },
{
    let mut j: usize = 0;
    while j < i
        invariant
            j <= i < graph.initializer.len(),
            forall|name: Seq<char>| #[trigger]
                outputs@.contains(name) == value_named(graph@.output, name),
            first_alike(graph@, i as int, 0) == first_alike(graph@, i as int, j as int),
        decreases i - j,
    {
        proof {
            assert(graph@.initializer[j as int] == graph.initializer@[j as int]@);
            assert(graph@.initializer[i as int] == graph.initializer@[i as int]@);
        }
        if !outputs.contains(graph.initializer[j].name.as_str()) && are_alike(
            &graph.initializer[j],
            &graph.initializer[i],
        ) {
            return Some(j);
        }
        j = j + 1;
    }
    None
}

/// Keeps only the first of several constants with the same content.
pub fn dedup_byte_identical_initializers(graph: &mut GraphProto)
    ensures
        final(graph)@ == constants_shared(old(graph)@),
{
    let ghost g = graph@;
    let outputs = value_names(&graph.output);
    let mut list: Vec<Rewrite> = Vec::new();
    let mut keep: Vec<bool> = Vec::new();
    let mut i: usize = 0;
    proof {
        assert(views(list@) =~= shared_renamings(g, 0));
    }
    while i < graph.initializer.len()
        invariant
            i <= graph.initializer.len(),
            g == graph@,
            *graph == *old(graph),
            forall|name: Seq<char>| #[trigger]
                outputs@.contains(name) == value_named(g.output, name),
            views(list@) == shared_renamings(g, i as nat),
            keep@ =~= Seq::new(i as nat, |k: int| !shared(g, k)),
        decreases graph.initializer.len() - i,
    {
        proof {
            assert(g.initializer[i as int] == graph.initializer@[i as int]@);
        }
        let mut stays = true;
        if !outputs.contains(graph.initializer[i].name.as_str()) {
            match find_first_alike(graph, &outputs, i) {
                Some(j) => {
                    let ghost before = views(list@);
                    proof {
                        assert(g.initializer[j as int] == graph.initializer@[j as int]@);
                    }
                    list.push(
                        Rewrite {
                            index: i,
                            from: graph.initializer[i].name.clone(),
                            to: graph.initializer[j].name.clone(),
                        },
                    );
                    proof {
                        assert(views(list@) =~= before.push(
                            Renaming {
                                index: i as int,
                                from: g.initializer[i as int].name,
                                to: g.initializer[j as int].name,
                            },
                        ));
                    }
                    stays = false;
                },
                None => {},
            }
        }
        keep.push(stays);
        i = i + 1;
    }
    proof {
        assert(keep@ =~= Seq::new(g.initializer.len(), |k: int| !shared(g, k)));
        lemma_retained_views(graph.initializer@, keep@);
    }
    retain_items(&mut graph.initializer, &keep);
    proof {
        assert(graph@.node =~= g.node);
    }
    if list.len() > 0 {
        replace_node_inputs(graph, &list);
    }
}

// ---- All of it ----

/// The graph after each local cleanup has run once, and whether one changed something.
pub open spec fn cleaned_once(g: Graph) -> (Graph, bool) {
    let (g1, c1) = identities_removed(g);
    let (g2, c2) = casts_collapsed(g1);
    let (g3, c3) = adapters_removed(g2);
    (g3, c1 || c2 || c3)
}

proof fn lemma_casts_lens(g: Graph, k: nat)
    requires
        k <= g.node.len(),
    ensures
        ({
            let c = casts_collapsed_upto(g, k);
            &&& c.dropped.len() == g.node.len()
            &&& c.protected.len() == g.node.len()
            &&& c.inputs.len() > 0 ==> exists|i: int|
                0 <= i < g.node.len() && #[trigger] c.dropped[i]
        }),
    decreases k,
{
    if k > 0 {
        lemma_casts_lens(g, (k - 1) as nat);
        let before = casts_collapsed_upto(g, (k - 1) as nat);
        let c = casts_collapsed_upto(g, k);
        if c.inputs.len() > 0 {
            lemma_producer_bound(g.node, g.node[k - 1].input[0]);
            match cast_before(g, k - 1) {
                Some(p) => {
                    if before.protected[p] {
                    } else {
                        assert(c.dropped[p]);
                    }
                },
                None => {},
            }
        }
    }
}

proof fn lemma_inputs_set_len(nodes: Seq<Node>, list: Seq<(int, Seq<char>)>, k: nat)
    requires
        k <= list.len(),
        forall|i: int| 0 <= i < list.len() ==> 0 <= (#[trigger] list[i]).0 < nodes.len(),
    ensures
        inputs_set(nodes, list, k).len() == nodes.len(),
    decreases k,
{
    if k > 0 {
        lemma_inputs_set_len(nodes, list, (k - 1) as nat);
        assert(0 <= list[k - 1].0 < nodes.len());
    }
}

proof fn lemma_cast_inputs(g: Graph, k: nat)
    requires
        k <= g.node.len(),
    ensures
        forall|i: int|
            0 <= i < casts_collapsed_upto(g, k).inputs.len() ==> 0 <= (
            #[trigger] casts_collapsed_upto(g, k).inputs[i]).0 < g.node.len(),
    decreases k,
{
    if k > 0 {
        lemma_cast_inputs(g, (k - 1) as nat);
        let before = casts_collapsed_upto(g, (k - 1) as nat);
        let c = casts_collapsed_upto(g, k);
        assert forall|i: int| 0 <= i < c.inputs.len() implies 0 <= (#[trigger] c.inputs[i]).0
            < g.node.len() by {
            if i < before.inputs.len() {
                assert(0 <= before.inputs[i].0 < g.node.len());
            }
        }
    }
}

proof fn lemma_identity_some(g: Graph, k: nat)
    requires
        k <= g.node.len(),
        identity_renamings(g, k).len() > 0,
    ensures
        exists|i: int| 0 <= i < k && #[trigger] plain_identity(g, i),
    decreases k,
{
    if k > 0 && !plain_identity(g, k - 1) {
        lemma_identity_some(g, (k - 1) as nat);
    }
}

proof fn lemma_adapters_lens(g: Graph, k: nat)
    requires
        k <= g.node.len(),
    ensures
        ({
            let a = adapters_upto(g, k);
            &&& a.dropped.len() == g.node.len()
            &&& a.renamings.len() > 0 || a.identities.len() > 0 ==> exists|i: int|
                0 <= i < g.node.len() && #[trigger] a.dropped[i]
            &&& forall|i: int|
                0 <= i < a.identities.len() ==> 0 <= (#[trigger] a.identities[i]).0 < g.node.len()
        }),
    decreases k,
{
    if k > 0 {
        lemma_adapters_lens(g, (k - 1) as nat);
        let before = adapters_upto(g, (k - 1) as nat);
        let a = adapters_upto(g, k);
        lemma_producer_bound(g.node, g.node[k - 1].input[0]);
        match adapter_before(g, k - 1) {
            Some(p) => {
                if before.dropped[p] {
                } else {
                    assert(a.dropped[p]);
                    assert forall|i: int| 0 <= i < a.identities.len() implies 0 <= (
                    #[trigger] a.identities[i]).0 < g.node.len() by {
                        if i < before.identities.len() {
                            assert(0 <= before.identities[i].0 < g.node.len());
                        }
                    }
                }
            },
            None => {},
        }
    }
}

proof fn lemma_identities_set_len(nodes: Seq<Node>, list: Seq<(int, Seq<char>)>, k: nat)
    requires
        k <= list.len(),
        forall|i: int| 0 <= i < list.len() ==> 0 <= (#[trigger] list[i]).0 < nodes.len(),
    ensures
        identities_set(nodes, list, k).len() == nodes.len(),
    decreases k,
{
    if k > 0 {
        lemma_identities_set_len(nodes, list, (k - 1) as nat);
        assert(0 <= list[k - 1].0 < nodes.len());
    }
}

/// A cleanup that changes something drops a node, and none adds one.
pub proof fn lemma_cleaned_shorter(g: Graph)
    ensures
        cleaned_once(g).0.node.len() <= g.node.len(),
        cleaned_once(g).1 ==> cleaned_once(g).0.node.len() < g.node.len(),
{
    let (g1, c1) = identities_removed(g);
    if c1 {
        let list = identity_renamings(g, g.node.len());
        let flags = Seq::new(g.node.len(), |i: int| !plain_identity(g, i));
        lemma_replaced_len(g, list);
        lemma_identity_some(g, g.node.len());
        let i = choose|i: int| 0 <= i < g.node.len() && #[trigger] plain_identity(g, i);
        lemma_retained_shorter(replaced(g, list).node, flags, i);
    }
    let (g2, c2) = casts_collapsed(g1);
    if c2 {
        let c = casts_collapsed_upto(g1, g1.node.len());
        lemma_casts_lens(g1, g1.node.len());
        lemma_cast_inputs(g1, g1.node.len());
        lemma_inputs_set_len(g1.node, c.inputs, c.inputs.len());
        let i = choose|i: int| 0 <= i < g1.node.len() && #[trigger] c.dropped[i];
        lemma_retained_shorter(
            inputs_set(g1.node, c.inputs, c.inputs.len()),
            not_flags(c.dropped),
            i,
        );
    }
    let (g3, c3) = adapters_removed(g2);
    if c3 {
        let a = adapters_upto(g2, g2.node.len());
        lemma_adapters_lens(g2, g2.node.len());
        lemma_replaced_len(g2, a.renamings);
        let h = replaced(g2, a.renamings);
        lemma_identities_set_len(h.node, a.identities, a.identities.len());
        let i = choose|i: int| 0 <= i < g2.node.len() && #[trigger] a.dropped[i];
        lemma_retained_shorter(
            identities_set(h.node, a.identities, a.identities.len()),
            not_flags(a.dropped),
            i,
        );
    }
}

/// The graph after local cleanups until none changes anything.
pub open spec fn cleaned(g: Graph) -> Graph
    decreases g.node.len(),
    via cleaned_decreases
{
    let (h, changed) = cleaned_once(g);
    if changed {
        cleaned(h)
    } else {
        h
    }
}

#[via_fn]
proof fn cleaned_decreases(g: Graph) {
    lemma_cleaned_shorter(g);
}

/// The graph in canonical form.
pub open spec fn canonicalized(g: Graph) -> Graph {
    constants_shared(cleaned(g))
}

/// Brings a graph, without its subgraphs, into canonical form.
pub fn canonicalize_graph_once(graph: &mut GraphProto)
    ensures
        final(graph)@ == canonicalized(old(graph)@),
{
    let mut more = true;
    while more
        invariant
            more ==> cleaned(old(graph)@) == cleaned(graph@),
            !more ==> cleaned(old(graph)@) == graph@,
        decreases
            graph.node.len(),
            if more {
                1int
            } else {
                0int
            },
    {
        let ghost before = graph@;
        proof {
            lemma_cleaned_shorter(before);
        }
        let c1 = remove_identity_nodes(graph);
        let c2 = collapse_duplicate_casts(graph);
        let c3 = remove_canceling_shape_adapters(graph);
        more = c1 || c2 || c3;
    }
    dedup_byte_identical_initializers(graph);
}

} // verus!
