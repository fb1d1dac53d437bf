//! How much a graph holds together with all the graphs that are nested in it.

use crate::nested::{
    attribute_subgraphs, attributes_subgraphs, attributes_with, height, lemma_attributes_with,
    lemma_nodes_with, lemma_subgraph_height, lemma_with_subgraphs, node_with, nodes_subgraphs,
    nodes_with, subgraphs, with_subgraphs,
};
use crate::onnx::{Attribute, Graph, Node};
use crate::scope::{rename_nodes, rename_subgraphs, rename_uses, retained};
use vstd::prelude::*;

verus! {

/// What is counted.
pub enum Counted {
    Nodes,
    Constants,
    Graphs,
}

/// How many things a graph holds itself.
pub open spec fn own(g: Graph, what: Counted) -> nat {
    match what {
        Counted::Nodes => g.node.len(),
        Counted::Constants => g.initializer.len(),
        Counted::Graphs => 1,
    }
}

/// How many things a graph and all the graphs that are nested in it hold.
pub open spec fn total(g: Graph, what: Counted) -> nat
    decreases g,
{
    own(g, what) + nodes_total(g.node, what)
}

/// How many things the graphs that are nested in the nodes hold.
pub open spec fn nodes_total(list: Seq<Node>, what: Counted) -> nat
    decreases list,
{
    if list.len() == 0 {
        0
    } else {
        nodes_total(list.drop_last(), what) + attributes_total(list.last().attribute, what)
    }
}

/// How many things the graphs that are nested in the attributes hold.
pub open spec fn attributes_total(list: Seq<Attribute>, what: Counted) -> nat
    decreases list,
{
    if list.len() == 0 {
        0
    } else {
        attributes_total(list.drop_last(), what) + attribute_total(list.last(), what)
    }
}

/// How many things the graphs that are nested in the attribute hold.
pub open spec fn attribute_total(a: Attribute, what: Counted) -> nat
    decreases a,
{
    match a.g {
        Some(g) => total(g, what) + graphs_total(a.graphs, what),
        None => graphs_total(a.graphs, what),
    }
}

/// How many things the graphs hold, with all that are nested in them.
pub open spec fn graphs_total(list: Seq<Graph>, what: Counted) -> nat
    decreases list,
{
    if list.len() == 0 {
        0
    } else {
        graphs_total(list.drop_last(), what) + total(list.last(), what)
    }
}

/// The count of two lists of graphs is that of the one and the other.
pub proof fn lemma_graphs_total_joined(a: Seq<Graph>, b: Seq<Graph>, what: Counted)
    ensures
        graphs_total(a + b, what) == graphs_total(a, what) + graphs_total(b, what),
    decreases b.len(),
{
    if b.len() == 0 {
        assert(a + b =~= a);
    } else {
        lemma_graphs_total_joined(a, b.drop_last(), what);
        assert((a + b).drop_last() =~= a + b.drop_last());
    }
}

proof fn lemma_attribute_total(a: Attribute, what: Counted)
    ensures
        attribute_total(a, what) == graphs_total(attribute_subgraphs(a), what),
{
    if let Some(g) = a.g {
        let one = seq![g];
        lemma_graphs_total_joined(one, a.graphs, what);
        assert(one.drop_last() =~= Seq::empty());
        assert(graphs_total(one, what) == graphs_total(one.drop_last(), what) + total(g, what));
    }
}

/// What is nested in attributes is what their subgraphs hold.
pub proof fn lemma_attributes_total(list: Seq<Attribute>, what: Counted)
    ensures
        attributes_total(list, what) == graphs_total(attributes_subgraphs(list), what),
    decreases list.len(),
{
    if list.len() > 0 {
        let front = list.drop_last();
        lemma_attributes_total(front, what);
        lemma_attribute_total(list.last(), what);
        lemma_graphs_total_joined(
            attributes_subgraphs(front),
            attribute_subgraphs(list.last()),
            what,
        );
    }
}

/// What is nested in nodes is what their subgraphs hold.
pub proof fn lemma_nodes_total(list: Seq<Node>, what: Counted)
    ensures
        nodes_total(list, what) == graphs_total(nodes_subgraphs(list), what),
    decreases list.len(),
{
    if list.len() > 0 {
        let front = list.drop_last();
        lemma_nodes_total(front, what);
        lemma_attributes_total(list.last().attribute, what);
        lemma_graphs_total_joined(
            nodes_subgraphs(front),
            attributes_subgraphs(list.last().attribute),
            what,
        );
    }
}

/// Graphs of the same counts have the same count together.
pub proof fn lemma_graphs_total_same(a: Seq<Graph>, b: Seq<Graph>, what: Counted)
    requires
        a.len() == b.len(),
        forall|i: int| 0 <= i < a.len() ==> total(#[trigger] a[i], what) == total(b[i], what),
    ensures
        graphs_total(a, what) == graphs_total(b, what),
    decreases a.len(),
{
    if a.len() > 0 {
        assert forall|i: int| 0 <= i < a.drop_last().len() implies total(
            #[trigger] a.drop_last()[i],
            what,
        ) == total(b.drop_last()[i], what) by {
            assert(a[i] == a.drop_last()[i]);
        }
        lemma_graphs_total_same(a.drop_last(), b.drop_last(), what);
        assert(total(a[a.len() - 1], what) == total(b[b.len() - 1], what));
    }
}

/// Nodes that nest as much one by one nest as much together.
pub proof fn lemma_nodes_total_same(a: Seq<Node>, b: Seq<Node>, what: Counted)
    requires
        a.len() == b.len(),
        forall|i: int|
            0 <= i < a.len() ==> attributes_total((#[trigger] a[i]).attribute, what)
                == attributes_total(b[i].attribute, what),
    ensures
        nodes_total(a, what) == nodes_total(b, what),
    decreases a.len(),
{
    if a.len() > 0 {
        assert forall|i: int| 0 <= i < a.drop_last().len() implies attributes_total(
            (#[trigger] a.drop_last()[i]).attribute,
            what,
        ) == attributes_total(b.drop_last()[i].attribute, what) by {
            assert(a[i] == a.drop_last()[i]);
        }
        lemma_nodes_total_same(a.drop_last(), b.drop_last(), what);
        let last = a[a.len() - 1];
        assert(attributes_total(last.attribute, what) == attributes_total(
            b[b.len() - 1].attribute,
            what,
        ));
    }
}

/// Dropping nodes in which nothing is nested does not change what is nested in the others.
pub proof fn lemma_nodes_total_retained(list: Seq<Node>, keep: Seq<bool>, what: Counted)
    requires
        forall|i: int|
            0 <= i < list.len() && !keep[i] ==> attributes_total(
                (#[trigger] list[i]).attribute,
                what,
            ) == 0,
    ensures
        nodes_total(retained(list, keep), what) == nodes_total(list, what),
    decreases list.len(),
{
    if list.len() > 0 {
        let front = list.drop_last();
        assert forall|i: int| 0 <= i < front.len() && !keep[i] implies attributes_total(
            (#[trigger] front[i]).attribute,
            what,
        ) == 0 by {
            assert(front[i] == list[i]);
        }
        lemma_nodes_total_retained(front, keep, what);
        let r = retained(front, keep);
        if keep[list.len() - 1] {
            assert(r.push(list.last()).drop_last() =~= r);
            assert(r.push(list.last()).last() == list.last());
        } else {
            assert(list[list.len() - 1] == list.last());
        }
    }
}

/// Where there are graphs, they are counted.
pub proof fn lemma_graphs_counted(list: Seq<Graph>)
    ensures
        graphs_total(list, Counted::Graphs) >= list.len(),
    decreases list.len(),
{
    if list.len() > 0 {
        lemma_graphs_counted(list.drop_last());
        assert(total(list.last(), Counted::Graphs) >= 1);
    }
}

/// A node nests nothing exactly where no graph is counted in it.
pub proof fn lemma_plain(list: Seq<Attribute>)
    ensures
        attributes_subgraphs(list).len() == 0 <==> attributes_total(list, Counted::Graphs) == 0,
        attributes_subgraphs(list).len() == 0 ==> forall|what: Counted| #[trigger]
            attributes_total(list, what) == 0,
{
    let subs = attributes_subgraphs(list);
    lemma_attributes_total(list, Counted::Graphs);
    lemma_graphs_counted(subs);
    if subs.len() == 0 {
        assert forall|what: Counted| #[trigger] attributes_total(list, what) == 0 by {
            lemma_attributes_total(list, what);
        }
    }
}

/// An attribute that nests the same in place of another leaves the subgraphs as they are.
pub proof fn lemma_attribute_replaced(list: Seq<Attribute>, i: int, a: Attribute)
    requires
        0 <= i < list.len(),
        attribute_subgraphs(a) == attribute_subgraphs(list[i]),
    ensures
        attributes_subgraphs(list.update(i, a)) == attributes_subgraphs(list),
    decreases list.len(),
{
    let after = list.update(i, a);
    if i < list.len() - 1 {
        lemma_attribute_replaced(list.drop_last(), i, a);
        assert(after.drop_last() =~= list.drop_last().update(i, a));
    } else {
        assert(after.drop_last() =~= list.drop_last());
    }
}

/// An attribute more that nests nothing leaves the subgraphs as they are.
pub proof fn lemma_attribute_added(list: Seq<Attribute>, a: Attribute)
    requires
        attribute_subgraphs(a).len() == 0,
    ensures
        attributes_subgraphs(list.push(a)) == attributes_subgraphs(list),
{
    assert(list.push(a).drop_last() =~= list);
    assert(attributes_subgraphs(list) + attribute_subgraphs(a) =~= attributes_subgraphs(list));
}

/// Whether two nodes have the same operator and outputs, and nest as much.
pub open spec fn alike(a: Node, b: Node) -> bool {
    &&& a.op_type == b.op_type
    &&& a.output == b.output
    &&& forall|what: Counted| #[trigger]
        attributes_total(a.attribute, what) == attributes_total(b.attribute, what)
}

/// Whether two lists of nodes are alike one by one.
pub open spec fn all_alike(a: Seq<Node>, b: Seq<Node>) -> bool {
    a.len() == b.len() && forall|i: int| 0 <= i < a.len() ==> alike(#[trigger] a[i], b[i])
}

/// Nodes whose subgraphs are replaced by others of the same counts stay alike.
pub proof fn lemma_nodes_with_alike(list: Seq<Node>, subs: Seq<Graph>)
    requires
        subs.len() == nodes_subgraphs(list).len(),
        forall|i: int, what: Counted|
            0 <= i < subs.len() ==> #[trigger] total(subs[i], what) == total(
                nodes_subgraphs(list)[i],
                what,
            ),
    ensures
        all_alike(list, nodes_with(list, subs)),
    decreases list.len(),
{
    lemma_nodes_with(list, subs);
    if list.len() > 0 {
        let n = list.last();
        let old_front = nodes_subgraphs(list.drop_last());
        let old_last = attributes_subgraphs(n.attribute);
        let m = subs.len() - old_last.len();
        let front = subs.take(m);
        let back = subs.skip(m);
        assert forall|i: int, what: Counted| 0 <= i < front.len() implies #[trigger] total(
            front[i],
            what,
        ) == total(old_front[i], what) by {
            assert(front[i] == subs[i]);
            assert(total(subs[i], what) == total(nodes_subgraphs(list)[i], what));
        }
        lemma_nodes_with_alike(list.drop_last(), front);
        lemma_attributes_with(n.attribute, back);
        assert forall|what: Counted| #[trigger]
            attributes_total(n.attribute, what) == attributes_total(
            attributes_with(n.attribute, back),
            what,
        ) by {
            lemma_attributes_total(n.attribute, what);
            lemma_attributes_total(attributes_with(n.attribute, back), what);
            assert forall|i: int| 0 <= i < back.len() implies total(#[trigger] back[i], what)
                == total(old_last[i], what) by {
                assert(back[i] == subs[m + i]);
                assert(nodes_subgraphs(list)[m + i] == old_last[i]);
                assert(total(subs[m + i], what) == total(nodes_subgraphs(list)[m + i], what));
            }
            lemma_graphs_total_same(back, old_last, what);
        }
        let after = nodes_with(list, subs);
        assert(after =~= nodes_with(list.drop_last(), front).push(node_with(n, back)));
        assert forall|i: int| 0 <= i < list.len() implies alike(#[trigger] list[i], after[i]) by {
            if i < list.len() - 1 {
                assert(list.drop_last()[i] == list[i]);
                assert(alike(list.drop_last()[i], nodes_with(list.drop_last(), front)[i]));
            }
        }
    }
}

/// Reading another name in place of one changes no count.
pub proof fn lemma_rename_total(g: Graph, from: Seq<char>, to: Seq<char>)
    ensures
        all_alike(g.node, rename_uses(g, from, to).node),
        rename_uses(g, from, to).initializer == g.initializer,
        forall|what: Counted| #[trigger]
            total(rename_uses(g, from, to), what) == total(g, what),
    decreases height(g),
{
    let subs = rename_subgraphs(g, from, to);
    assert forall|i: int, what: Counted| 0 <= i < subs.len() implies #[trigger] total(
        subs[i],
        what,
    ) == total(subgraphs(g)[i], what) by {
        lemma_subgraph_height(g, i);
        lemma_rename_total(subgraphs(g)[i], from, to);
    }
    lemma_nodes_with_alike(g.node, subs);
    lemma_with_subgraphs(g, subs, subs);
    let h = with_subgraphs(g, subs);
    let after = rename_uses(g, from, to);
    assert(after.node == rename_nodes(h.node, from, to));
    assert forall|i: int| 0 <= i < g.node.len() implies alike(
        #[trigger] g.node[i],
        after.node[i],
    ) by {
        assert(alike(g.node[i], h.node[i]));
    }
    assert forall|what: Counted| #[trigger] total(after, what) == total(g, what) by {
        assert forall|i: int| 0 <= i < g.node.len() implies attributes_total(
            (#[trigger] g.node[i]).attribute,
            what,
        ) == attributes_total(after.node[i].attribute, what) by {
            assert(alike(g.node[i], after.node[i]));
        }
        lemma_nodes_total_same(g.node, after.node, what);
    }
}

} // verus!
