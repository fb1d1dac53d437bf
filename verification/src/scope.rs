//! Names in graphs: where they are bound and used, and how a rewrite carries through scopes.

use crate::nested::{
    attach, blanks, collect, detach, height, lemma_subgraph_height, lemma_with_subgraphs, subgraphs,
    with_subgraphs,
};
use crate::onnx::{views, Graph, GraphProto, Node, Tensor, TensorProto, ValueInfo, ValueInfoProto};
use crate::text::{has_name, names, same};
use vstd::prelude::*;

verus! {

/// Whether a value of the list has the given name.
pub open spec fn value_named(list: Seq<ValueInfo>, name: Seq<char>) -> bool {
    exists|i: int| 0 <= i < list.len() && #[trigger] list[i].name == name
}

/// Whether a tensor of the list has the given name.
pub open spec fn tensor_named(list: Seq<Tensor>, name: Seq<char>) -> bool {
    exists|i: int| 0 <= i < list.len() && #[trigger] list[i].name == name
}

/// Whether a node of the list has the given name among its outputs.
pub open spec fn produced(list: Seq<Node>, name: Seq<char>) -> bool {
    exists|i: int| 0 <= i < list.len() && #[trigger] list[i].output.contains(name)
}

/// Whether a node of the list has the given name among its inputs.
pub open spec fn consumed(list: Seq<Node>, name: Seq<char>) -> bool {
    exists|i: int| 0 <= i < list.len() && #[trigger] list[i].input.contains(name)
}

/// Whether a graph gives `name` a meaning of its own: as an input, an output, a constant or a
/// value that one of its nodes produces.
pub open spec fn binds(g: Graph, name: Seq<char>) -> bool {
    value_named(g.input, name) || value_named(g.output, name) || tensor_named(g.initializer, name)
        || produced(g.node, name)
}

/// Whether a node of the graph, or of a subgraph where the name keeps its meaning, reads `name`.
pub open spec fn uses_outer(g: Graph, name: Seq<char>) -> bool
    decreases height(g),
    via uses_outer_decreases
{
    consumed(g.node, name) || exists|i: int|
        0 <= i < subgraphs(g).len() && !binds(#[trigger] subgraphs(g)[i], name) && uses_outer(
            subgraphs(g)[i],
            name,
        )
}

#[via_fn]
proof fn uses_outer_decreases(g: Graph, name: Seq<char>) {
    assert forall|i: int| 0 <= i < subgraphs(g).len() implies height(#[trigger] subgraphs(g)[i])
        < height(g) by {
        lemma_subgraph_height(g, i);
    }
}

/// Whether every use of `from` in the subgraphs can be read as `to` without being captured by
/// another binding of `to`.
pub open spec fn safe_in_subgraphs(g: Graph, from: Seq<char>, to: Seq<char>) -> bool
    decreases height(g),
    via safe_in_subgraphs_decreases
{
    forall|i: int|
        0 <= i < subgraphs(g).len() ==> binds(#[trigger] subgraphs(g)[i], from) || (!(binds(
            subgraphs(g)[i],
            to,
        ) && uses_outer(subgraphs(g)[i], from)) && safe_in_subgraphs(subgraphs(g)[i], from, to))
}

#[via_fn]
proof fn safe_in_subgraphs_decreases(g: Graph, from: Seq<char>, to: Seq<char>) {
    assert forall|i: int| 0 <= i < subgraphs(g).len() implies height(#[trigger] subgraphs(g)[i])
        < height(g) by {
        lemma_subgraph_height(g, i);
    }
}

/// Whether reading `to` instead of `from` changes a name and is captured nowhere.
pub open spec fn rewrite_safe(g: Graph, from: Seq<char>, to: Seq<char>) -> bool {
    from != to && safe_in_subgraphs(g, from, to)
}

/// `to` in place of `from`, any other name as it is.
pub open spec fn renamed(name: Seq<char>, from: Seq<char>, to: Seq<char>) -> Seq<char> {
    if name == from {
        to
    } else {
        name
    }
}

/// The nodes, reading `to` instead of `from`.
pub open spec fn rename_nodes(list: Seq<Node>, from: Seq<char>, to: Seq<char>) -> Seq<Node> {
    Seq::new(
        list.len(),
        |i: int|
            Node {
                input: Seq::new(
                    list[i].input.len(),
                    |j: int| renamed(list[i].input[j], from, to),
                ),
                ..list[i]
            },
    )
}

/// The subgraphs, reading `to` instead of `from` in those that bind neither name.
pub open spec fn rename_subgraphs(g: Graph, from: Seq<char>, to: Seq<char>) -> Seq<Graph>
    decreases height(g), 0nat,
    via rename_subgraphs_decreases
{
    Seq::new(
        subgraphs(g).len(),
        |i: int|
            if 0 <= i < subgraphs(g).len() {
                if binds(subgraphs(g)[i], from) || binds(subgraphs(g)[i], to) {
                    subgraphs(g)[i]
                } else {
                    rename_uses(subgraphs(g)[i], from, to)
                }
            } else {
                arbitrary()
            },
    )
}

#[via_fn]
proof fn rename_subgraphs_decreases(g: Graph, from: Seq<char>, to: Seq<char>) {
    assert forall|i: int| 0 <= i < subgraphs(g).len() implies height(#[trigger] subgraphs(g)[i])
        < height(g) by {
        lemma_subgraph_height(g, i);
    }
}

/// The graph, reading `to` instead of `from` wherever both names have their outer meaning.
pub open spec fn rename_uses(g: Graph, from: Seq<char>, to: Seq<char>) -> Graph
    decreases height(g), 1nat,
{
    let h = with_subgraphs(g, rename_subgraphs(g, from, to));
    Graph { node: rename_nodes(h.node, from, to), ..h }
}

/// Looks a name up among values.
pub fn has_value(list: &Vec<ValueInfoProto>, name: &str) -> (r: bool)
    ensures
        r == value_named(views(list@), name@),
{
    let mut i: usize = 0;
    while i < list.len()
        invariant
            i <= list.len(),
            forall|k: int| 0 <= k < i ==> (#[trigger] list@[k])@.name != name@,
        decreases list.len() - i,
    {
        if same(list[i].name.as_str(), name) {
            proof {
                assert(views(list@)[i as int].name == name@);
            }
            return true;
        }
        i = i + 1;
    }
    proof {
        assert forall|k: int| 0 <= k < views(list@).len() implies #[trigger] views(list@)[k].name
            != name@ by {
            assert(list@[k]@.name != name@);
        }
    }
    false
}

/// Looks a name up among tensors.
pub fn has_tensor(list: &Vec<TensorProto>, name: &str) -> (r: bool)
    ensures
        r == tensor_named(views(list@), name@),
{
    let mut i: usize = 0;
    while i < list.len()
        invariant
            i <= list.len(),
            forall|k: int| 0 <= k < i ==> (#[trigger] list@[k])@.name != name@,
        decreases list.len() - i,
    {
        if same(list[i].name.as_str(), name) {
            proof {
                assert(views(list@)[i as int].name == name@);
            }
            return true;
        }
        i = i + 1;
    }
    proof {
        assert forall|k: int| 0 <= k < views(list@).len() implies #[trigger] views(list@)[k].name
            != name@ by {
            assert(list@[k]@.name != name@);
        }
    }
    false
}

/// Whether `name` is bound inside `graph`.
pub fn subgraph_shadows(graph: &GraphProto, name: &str) -> (r: bool)
    ensures
        r == binds(graph@, name@),
{
    if has_value(&graph.input, name) || has_value(&graph.output, name) || has_tensor(
        &graph.initializer,
        name,
    ) {
        return true;
    }
    let mut i: usize = 0;
    while i < graph.node.len()
        invariant
            i <= graph.node.len(),
            forall|k: int| 0 <= k < i ==> !(#[trigger] graph@.node[k].output.contains(name@)),
        decreases graph.node.len() - i,
    {
        if has_name(&graph.node[i].output, name) {
            proof {
                assert(graph@.node[i as int].output.contains(name@));
            }
            return true;
        }
        i = i + 1;
    }
    false
}

/// Whether a node of the graph reads `name`.
fn reads(graph: &GraphProto, name: &str) -> (r: bool)
    ensures
        r == consumed(graph@.node, name@),
{
    let mut i: usize = 0;
    while i < graph.node.len()
        invariant
            i <= graph.node.len(),
            forall|k: int| 0 <= k < i ==> !(#[trigger] graph@.node[k].input.contains(name@)),
        decreases graph.node.len() - i,
    {
        if has_name(&graph.node[i].input, name) {
            proof {
                assert(graph@.node[i as int].input.contains(name@));
            }
            return true;
        }
        i = i + 1;
    }
    false
}

/// Whether `name`, with its outer meaning, is read in `graph` or in one of its subgraphs.
pub fn graph_uses_outer_name(graph: &GraphProto, name: &str) -> (r: bool)
    ensures
        r == uses_outer(graph@, name@),
    decreases height(graph@),
{
    if reads(graph, name) {
        return true;
    }
    let subs = collect(graph);
    let mut i: usize = 0;
    while i < subs.len()
        invariant
            i <= subs.len(),
            !consumed(graph@.node, name@),
            subs.len() == subgraphs(graph@).len(),
            forall|k: int|
                0 <= k < subs.len() ==> (#[trigger] subs@[k])@ == subgraphs(graph@)[k],
            forall|k: int|
                0 <= k < i ==> binds(#[trigger] subgraphs(graph@)[k], name@) || !uses_outer(
                    subgraphs(graph@)[k],
                    name@,
                ),
        decreases subs.len() - i,
    {
        proof {
            lemma_subgraph_height(graph@, i as int);
            assert(subs@[i as int]@ == subgraphs(graph@)[i as int]);
        }
        if !subgraph_shadows(subs[i], name) && graph_uses_outer_name(subs[i], name) {
            return true;
        }
        i = i + 1;
    }
    false
}

fn rewrite_is_safe_in_subgraphs(graph: &GraphProto, from: &str, to: &str) -> (r: bool)
    ensures
        r == safe_in_subgraphs(graph@, from@, to@),
    decreases height(graph@), 0nat,
{
    let subs = collect(graph);
    let mut i: usize = 0;
    while i < subs.len()
        invariant
            i <= subs.len(),
            subs.len() == subgraphs(graph@).len(),
            forall|k: int|
                0 <= k < subs.len() ==> (#[trigger] subs@[k])@ == subgraphs(graph@)[k],
            forall|k: int|
                0 <= k < i ==> binds(#[trigger] subgraphs(graph@)[k], from@) || (!(binds(
                    subgraphs(graph@)[k],
                    to@,
                ) && uses_outer(subgraphs(graph@)[k], from@)) && safe_in_subgraphs(
                    subgraphs(graph@)[k],
                    from@,
                    to@,
                )),
        decreases subs.len() - i,
    {
        proof {
            lemma_subgraph_height(graph@, i as int);
            assert(subs@[i as int]@ == subgraphs(graph@)[i as int]);
        }
        if !subgraph_rewrite_is_safe(subs[i], from, to) {
            return false;
        }
        i = i + 1;
    }
    true
}

fn subgraph_rewrite_is_safe(graph: &GraphProto, from: &str, to: &str) -> (r: bool)
    ensures
        r == (binds(graph@, from@) || (!(binds(graph@, to@) && uses_outer(graph@, from@))
            && safe_in_subgraphs(graph@, from@, to@))),
    decreases height(graph@), 1nat,
{
    if subgraph_shadows(graph, from) {
        return true;
    }
    if subgraph_shadows(graph, to) && graph_uses_outer_name(graph, from) {
        return false;
    }
    rewrite_is_safe_in_subgraphs(graph, from, to)
}

/// Whether reading `to` instead of `from` changes a name and is captured nowhere.
pub fn rewrite_is_safe(graph: &GraphProto, from: &str, to: &str) -> (r: bool)
    ensures
        r == rewrite_safe(graph@, from@, to@),
{
    if same(from, to) {
        return false;
    }
    rewrite_is_safe_in_subgraphs(graph, from, to)
}

fn rename_inputs(list: &mut Vec<String>, from: &str, to: &str)
    ensures
        names(final(list)@) == Seq::new(
            old(list)@.len(),
            |j: int| renamed(old(list)@[j]@, from@, to@),
        ),
{
    let mut j: usize = 0;
    while j < list.len()
        invariant
            j <= list.len(),
            list.len() == old(list).len(),
            forall|k: int|
                0 <= k < j ==> (#[trigger] list@[k])@ == renamed(old(list)@[k]@, from@, to@),
            forall|k: int| j <= k < list.len() ==> list@[k] == old(list)@[k],
        decreases list.len() - j,
    {
        if same(list[j].as_str(), from) {
            list[j] = to.to_string();
        }
        j = j + 1;
    }
    proof {
        assert(names(list@) =~= Seq::new(
            old(list)@.len(),
            |j: int| renamed(old(list)@[j]@, from@, to@),
        ));
    }
}

/// Reads `to` instead of `from` wherever both names have their outer meaning.
pub fn replace_inputs_recursive(graph: &mut GraphProto, from: &str, to: &str)
    ensures
        final(graph)@ == rename_uses(old(graph)@, from@, to@),
    decreases height(old(graph)@),
{
    let mut subs = detach(graph);
    let ghost inner = subgraphs(old(graph)@);
    let ghost target = rename_subgraphs(old(graph)@, from@, to@);
    let mut i: usize = 0;
    proof {
        assert(views(subs@).len() == subs@.len());
        assert forall|k: int| 0 <= k < subs.len() implies (#[trigger] subs@[k])@ == inner[k] by {
            assert(views(subs@)[k] == subs@[k]@);
        }
    }
    while i < subs.len()
        invariant
            i <= subs.len(),
            inner == subgraphs(old(graph)@),
            target == rename_subgraphs(old(graph)@, from@, to@),
            subs.len() == inner.len(),
            forall|k: int| 0 <= k < i ==> (#[trigger] subs@[k])@ == target[k],
            forall|k: int| i <= k < subs.len() ==> (#[trigger] subs@[k])@ == inner[k],
        decreases subs.len() - i,
    {
        proof {
            lemma_subgraph_height(old(graph)@, i as int);
        }
        if !subgraph_shadows(&subs[i], from) && !subgraph_shadows(&subs[i], to) {
            replace_inputs_recursive(&mut subs[i], from, to);
        }
        i = i + 1;
    }
    proof {
        assert(views(subs@) =~= target);
        lemma_with_subgraphs(old(graph)@, blanks(inner.len()), target);
    }
    attach(graph, subs);
    let ghost h = graph@;
    let ghost mid = *graph;
    let mut n: usize = 0;
    while n < graph.node.len()
        invariant
            n <= graph.node.len(),
            graph.node.len() == mid.node.len(),
            *graph == (GraphProto { node: graph.node, ..mid }),
            h == mid@,
            forall|k: int|
                0 <= k < n ==> (#[trigger] graph.node@[k])@ == rename_nodes(h.node, from@, to@)[k],
            forall|k: int| n <= k < graph.node.len() ==> graph.node@[k] == mid.node@[k],
        decreases graph.node.len() - n,
    {
        let ghost before = graph.node@[n as int];
        rename_inputs(&mut graph.node[n].input, from, to);
        proof {
            let after = graph.node@[n as int];
            assert(after@.attribute == before@.attribute);
            assert(after@.input =~= rename_nodes(h.node, from@, to@)[n as int].input);
        }
        n = n + 1;
    }
    proof {
        assert(graph@.node =~= rename_nodes(h.node, from@, to@));
    }
}

/// The items of `list` whose flag in `keep` is set, in order.
pub open spec fn retained<T>(list: Seq<T>, keep: Seq<bool>) -> Seq<T>
    decreases list.len(),
{
    if list.len() == 0 {
        Seq::empty()
    } else {
        let front = retained(list.drop_last(), keep);
        if keep[list.len() - 1] {
            front.push(list.last())
        } else {
            front
        }
    }
}

/// How many of the first `i` items are retained.
pub open spec fn retained_before(keep: Seq<bool>, i: int) -> nat
    decreases i,
{
    if i <= 0 {
        0
    } else {
        retained_before(keep, i - 1) + (if keep[i - 1] {
            1nat
        } else {
            0
        })
    }
}

/// An item that is retained stands behind those retained before it, and nothing else is retained.
pub proof fn lemma_retained_at<T>(list: Seq<T>, keep: Seq<bool>, i: int)
    requires
        0 <= i < list.len(),
        keep[i],
    ensures
        retained_before(keep, i) < retained(list, keep).len(),
        retained(list, keep)[retained_before(keep, i) as int] == list[i],
    decreases list.len(),
{
    let front = list.drop_last();
    lemma_retained_count(front, keep);
    if i < list.len() - 1 {
        lemma_retained_at(front, keep, i);
    }
}

/// As many items are retained as flags are set.
pub proof fn lemma_retained_count<T>(list: Seq<T>, keep: Seq<bool>)
    ensures
        retained(list, keep).len() == retained_before(keep, list.len() as int),
    decreases list.len(),
{
    if list.len() > 0 {
        lemma_retained_count(list.drop_last(), keep);
    }
}

/// Where an item that is retained came from.
pub open spec fn origin<T>(list: Seq<T>, keep: Seq<bool>, j: int) -> int
    decreases list.len(),
{
    if list.len() == 0 {
        0
    } else if keep[list.len() - 1] && j == retained(list.drop_last(), keep).len() {
        list.len() - 1
    } else {
        origin(list.drop_last(), keep, j)
    }
}

/// Every item that is retained came from the list, with its flag set.
pub proof fn lemma_retained_origin<T>(list: Seq<T>, keep: Seq<bool>, j: int)
    requires
        0 <= j < retained(list, keep).len(),
    ensures
        0 <= origin(list, keep, j) < list.len(),
        keep[origin(list, keep, j)],
        retained(list, keep)[j] == list[origin(list, keep, j)],
        retained_before(keep, origin(list, keep, j)) == j,
    decreases list.len(),
{
    if list.len() > 0 {
        lemma_retained_count(list.drop_last(), keep);
        if !(keep[list.len() - 1] && j == retained(list.drop_last(), keep).len()) {
            lemma_retained_origin(list.drop_last(), keep, j);
        }
    }
}

/// Items that are retained keep their order.
pub proof fn lemma_retained_order<T>(list: Seq<T>, keep: Seq<bool>, j: int, k: int)
    requires
        0 <= j < k < retained(list, keep).len(),
    ensures
        origin(list, keep, j) < origin(list, keep, k),
    decreases list.len(),
{
    if list.len() > 0 {
        let front = list.drop_last();
        if k == retained(front, keep).len() {
            lemma_retained_origin(front, keep, j);
        } else {
            lemma_retained_order(front, keep, j, k);
        }
    }
}

/// Keeps the items whose flag is set, in order.
pub fn retain_items<T>(items: &mut Vec<T>, keep: &Vec<bool>)
    requires
        keep.len() == old(items).len(),
    ensures
        final(items)@ == retained(old(items)@, keep@),
{
    let mut i: usize = items.len();
    let ghost mut tail: Seq<T> = Seq::empty();
    proof {
        assert(old(items)@.take(i as int) =~= old(items)@);
        assert(items@ =~= old(items)@.take(i as int) + tail);
        assert(retained(old(items)@, keep@) + tail =~= retained(old(items)@, keep@));
    }
    while i > 0
        invariant
            i <= old(items).len(),
            keep.len() == old(items).len(),
            items@ == old(items)@.take(i as int) + tail,
            retained(old(items)@.take(i as int), keep@) + tail == retained(old(items)@, keep@),
        decreases i,
    {
        i = i - 1;
        proof {
            assert(old(items)@.take(i + 1).drop_last() =~= old(items)@.take(i as int));
            assert(old(items)@.take(i + 1).last() == old(items)@[i as int]);
        }
        if keep[i] {
            proof {
                let item = old(items)@[i as int];
                let longer = seq![item] + tail;
                assert(items@ =~= old(items)@.take(i as int) + longer);
                assert(retained(old(items)@.take(i as int), keep@) + longer =~= retained(
                    old(items)@.take(i + 1),
                    keep@,
                ) + tail);
                tail = longer;
            }
        } else {
            items.remove(i);
            proof {
                assert(items@ =~= old(items)@.take(i as int) + tail);
            }
        }
    }
    proof {
        assert(old(items)@.take(0) =~= Seq::empty());
        assert(items@ =~= tail);
        assert(retained(old(items)@.take(0), keep@) + tail =~= tail);
    }
}

/// Dropping items commutes with taking the views of the items.
pub proof fn lemma_retained_views<T: View>(list: Seq<T>, keep: Seq<bool>)
    requires
        keep.len() == list.len(),
    ensures
        views(retained(list, keep)) == retained(views(list), keep),
        retained(list, keep).len() <= list.len(),
    decreases list.len(),
{
    lemma_retained_views_by(list, keep, list.len() as int);
    assert(list.take(list.len() as int) =~= list);
}

proof fn lemma_retained_views_by<T: View>(list: Seq<T>, keep: Seq<bool>, k: int)
    requires
        0 <= k <= list.len(),
    ensures
        views(retained(list.take(k), keep)) == retained(views(list).take(k), keep),
        retained(list.take(k), keep).len() <= k,
        views(list).take(list.len() as int) == views(list),
    decreases k,
{
    assert(views(list).take(list.len() as int) =~= views(list));
    if k > 0 {
        lemma_retained_views_by(list, keep, k - 1);
        assert(list.take(k).drop_last() =~= list.take(k - 1));
        assert(views(list).take(k).drop_last() =~= views(list).take(k - 1));
        assert(views(retained(list.take(k), keep)) =~= retained(views(list).take(k), keep));
    } else {
        assert(views(retained(list.take(0), keep)) =~= retained(views(list).take(0), keep));
    }
}

/// A graph's nodes are the views of its node list.
pub proof fn lemma_node_views(g: GraphProto)
    ensures
        g@.node == views(g.node@),
{
    assert(g@.node =~= views(g.node@));
}

/// Keeps the nodes whose flag is set.
pub fn retain_graph_nodes(graph: &mut GraphProto, keep: &Vec<bool>)
    requires
        keep.len() == old(graph).node.len(),
    ensures
        final(graph)@ == (Graph { node: retained(old(graph)@.node, keep@), ..old(graph)@ }),
        final(graph).node.len() <= old(graph).node.len(),
{
    retain_items(&mut graph.node, keep);
    proof {
        lemma_retained_views(old(graph).node@, keep@);
        lemma_node_views(*graph);
        lemma_node_views(*old(graph));
    }
}

} // verus!
