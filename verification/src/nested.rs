//! The subgraphs that the nodes of a graph carry in their attributes.

use crate::onnx::{graph_of, views, Attribute, AttributeProto, Graph, GraphProto, Node, NodeProto};
use vstd::prelude::*;

verus! {

/// The subgraphs of an attribute: the single one, and then the listed ones.
pub open spec fn attribute_subgraphs(a: Attribute) -> Seq<Graph> {
    match a.g {
        Some(g) => seq![g] + a.graphs,
        None => a.graphs,
    }
}

/// The subgraphs of a list of attributes, in order.
pub open spec fn attributes_subgraphs(list: Seq<Attribute>) -> Seq<Graph>
    decreases list.len(),
{
    if list.len() == 0 {
        Seq::empty()
    } else {
        attributes_subgraphs(list.drop_last()) + attribute_subgraphs(list.last())
    }
}

/// The subgraphs of a list of nodes, in order.
pub open spec fn nodes_subgraphs(list: Seq<Node>) -> Seq<Graph>
    decreases list.len(),
{
    if list.len() == 0 {
        Seq::empty()
    } else {
        nodes_subgraphs(list.drop_last()) + attributes_subgraphs(list.last().attribute)
    }
}

/// The subgraphs of a graph's nodes, in order. Subgraphs of subgraphs are not among them.
pub open spec fn subgraphs(g: Graph) -> Seq<Graph> {
    nodes_subgraphs(g.node)
}

/// The attribute with `subs` in place of its subgraphs.
pub open spec fn attribute_with(a: Attribute, subs: Seq<Graph>) -> Attribute {
    match a.g {
        Some(_) => Attribute { g: Some(subs[0]), graphs: subs.skip(1), ..a },
        None => Attribute { graphs: subs, ..a },
    }
}

/// The attributes with `subs` in place of their subgraphs.
pub open spec fn attributes_with(list: Seq<Attribute>, subs: Seq<Graph>) -> Seq<Attribute>
    decreases list.len(),
{
    if list.len() == 0 {
        Seq::empty()
    } else {
        let m = subs.len() - attribute_subgraphs(list.last()).len();
        attributes_with(list.drop_last(), subs.take(m)).push(
            attribute_with(list.last(), subs.skip(m)),
        )
    }
}

/// The node with `subs` in place of its subgraphs.
pub open spec fn node_with(n: Node, subs: Seq<Graph>) -> Node {
    Node { attribute: attributes_with(n.attribute, subs), ..n }
}

/// The nodes with `subs` in place of their subgraphs.
pub open spec fn nodes_with(list: Seq<Node>, subs: Seq<Graph>) -> Seq<Node>
    decreases list.len(),
{
    if list.len() == 0 {
        Seq::empty()
    } else {
        let m = subs.len() - attributes_subgraphs(list.last().attribute).len();
        nodes_with(list.drop_last(), subs.take(m)).push(node_with(list.last(), subs.skip(m)))
    }
}

/// The graph with `subs` in place of its subgraphs.
pub open spec fn with_subgraphs(g: Graph, subs: Seq<Graph>) -> Graph {
    Graph { node: nodes_with(g.node, subs), ..g }
}

/// How deep subgraphs nest in a graph, counting the graph itself.
pub open spec fn height(g: Graph) -> nat
    decreases g,
{
    1 + nodes_height(g.node)
}

/// The greatest height of a subgraph of the nodes.
pub open spec fn nodes_height(list: Seq<Node>) -> nat
    decreases list,
{
    if list.len() == 0 {
        0
    } else {
        larger(nodes_height(list.drop_last()), attributes_height(list.last().attribute))
    }
}

/// The greatest height of a subgraph of the attributes.
pub open spec fn attributes_height(list: Seq<Attribute>) -> nat
    decreases list,
{
    if list.len() == 0 {
        0
    } else {
        larger(attributes_height(list.drop_last()), attribute_height(list.last()))
    }
}

/// The greatest height of a subgraph of the attribute.
pub open spec fn attribute_height(a: Attribute) -> nat
    decreases a,
{
    match a.g {
        Some(g) => larger(height(g), graphs_height(a.graphs)),
        None => graphs_height(a.graphs),
    }
}

/// The greatest height among the graphs.
pub open spec fn graphs_height(list: Seq<Graph>) -> nat
    decreases list,
{
    if list.len() == 0 {
        0
    } else {
        larger(graphs_height(list.drop_last()), height(list.last()))
    }
}

/// The larger of two numbers.
pub open spec fn larger(a: nat, b: nat) -> nat {
    if a < b {
        b
    } else {
        a
    }
}

proof fn lemma_graphs_height(list: Seq<Graph>, i: int)
    requires
        0 <= i < list.len(),
    ensures
        height(list[i]) <= graphs_height(list),
    decreases list.len(),
{
    if i < list.len() - 1 {
        lemma_graphs_height(list.drop_last(), i);
        assert(list.drop_last()[i] == list[i]);
    }
}

proof fn lemma_attributes_height(list: Seq<Attribute>, i: int)
    requires
        0 <= i < attributes_subgraphs(list).len(),
    ensures
        height(attributes_subgraphs(list)[i]) <= attributes_height(list),
    decreases list.len(),
{
    let front = attributes_subgraphs(list.drop_last());
    if i < front.len() {
        lemma_attributes_height(list.drop_last(), i);
    } else {
        let a = list.last();
        assert(attributes_subgraphs(list)[i] == attribute_subgraphs(a)[i - front.len()]);
        assert(attribute_height(a) == match a.g {
            Some(g) => larger(height(g), graphs_height(a.graphs)),
            None => graphs_height(a.graphs),
        });
        assert(attributes_height(list) == larger(
            attributes_height(list.drop_last()),
            attribute_height(a),
        ));
        match a.g {
            Some(g) => {
                if i > front.len() {
                    lemma_graphs_height(a.graphs, i - front.len() - 1);
                }
            },
            None => {
                lemma_graphs_height(a.graphs, i - front.len());
            },
        }
    }
}

proof fn lemma_nodes_height(list: Seq<Node>, i: int)
    requires
        0 <= i < nodes_subgraphs(list).len(),
    ensures
        height(nodes_subgraphs(list)[i]) <= nodes_height(list),
    decreases list.len(),
{
    let front = nodes_subgraphs(list.drop_last());
    if i < front.len() {
        lemma_nodes_height(list.drop_last(), i);
    } else {
        lemma_attributes_height(list.last().attribute, i - front.len());
    }
}

proof fn lemma_graphs_highest(list: Seq<Graph>) -> (i: int)
    requires
        graphs_height(list) > 0,
    ensures
        0 <= i < list.len(),
        height(list[i]) == graphs_height(list),
    decreases list.len(),
{
    if height(list.last()) == graphs_height(list) {
        list.len() - 1
    } else {
        lemma_graphs_highest(list.drop_last())
    }
}

proof fn lemma_attributes_highest(list: Seq<Attribute>) -> (i: int)
    requires
        attributes_height(list) > 0,
    ensures
        0 <= i < attributes_subgraphs(list).len(),
        height(attributes_subgraphs(list)[i]) == attributes_height(list),
    decreases list.len(),
{
    let a = list.last();
    let front = attributes_subgraphs(list.drop_last());
    assert(attributes_height(list) == larger(
        attributes_height(list.drop_last()),
        attribute_height(a),
    ));
    if attributes_height(list.drop_last()) == attributes_height(list) {
        lemma_attributes_highest(list.drop_last())
    } else {
        assert(attribute_height(a) == match a.g {
            Some(g) => larger(height(g), graphs_height(a.graphs)),
            None => graphs_height(a.graphs),
        });
        let at = match a.g {
            Some(g) => if height(g) == attribute_height(a) {
                0
            } else {
                1 + lemma_graphs_highest(a.graphs)
            },
            None => lemma_graphs_highest(a.graphs),
        };
        assert(attributes_subgraphs(list)[front.len() + at] == attribute_subgraphs(a)[at]);
        front.len() + at
    }
}

proof fn lemma_nodes_highest(list: Seq<Node>) -> (i: int)
    requires
        nodes_height(list) > 0,
    ensures
        0 <= i < nodes_subgraphs(list).len(),
        height(nodes_subgraphs(list)[i]) == nodes_height(list),
    decreases list.len(),
{
    let front = nodes_subgraphs(list.drop_last());
    if nodes_height(list.drop_last()) == nodes_height(list) {
        lemma_nodes_highest(list.drop_last())
    } else {
        let at = lemma_attributes_highest(list.last().attribute);
        front.len() + at
    }
}

/// One of the subgraphs is as high as the graph that holds them makes it be.
pub proof fn lemma_highest_subgraph(g: Graph) -> (i: int)
    requires
        height(g) > 1,
    ensures
        0 <= i < subgraphs(g).len(),
        height(subgraphs(g)[i]) == height(g) - 1,
{
    lemma_nodes_highest(g.node)
}

/// A subgraph is less high than the graph that holds it.
pub proof fn lemma_subgraph_height(g: Graph, i: int)
    requires
        0 <= i < subgraphs(g).len(),
    ensures
        height(subgraphs(g)[i]) < height(g),
{
    lemma_nodes_height(g.node, i);
}

/// Replacing the subgraphs of attributes: the new ones are then the attributes' subgraphs, and
/// putting back the old ones changes nothing.
pub proof fn lemma_attributes_with(list: Seq<Attribute>, subs: Seq<Graph>)
    requires
        subs.len() == attributes_subgraphs(list).len(),
    ensures
        attributes_with(list, subs).len() == list.len(),
        attributes_subgraphs(attributes_with(list, subs)) == subs,
        subs == attributes_subgraphs(list) ==> attributes_with(list, subs) == list,
    decreases list.len(),
{
    if list.len() > 0 {
        let a = list.last();
        let m = subs.len() - attribute_subgraphs(a).len();
        lemma_attributes_with(list.drop_last(), subs.take(m));
        assert(attributes_with(list, subs).drop_last() =~= attributes_with(
            list.drop_last(),
            subs.take(m),
        ));
        assert(attribute_subgraphs(attribute_with(a, subs.skip(m))) =~= subs.skip(m)) by {
            match a.g {
                Some(_) => {
                    assert(seq![subs.skip(m)[0]] + subs.skip(m).skip(1) =~= subs.skip(m));
                },
                None => {},
            }
        }
        assert(subs.take(m) + subs.skip(m) =~= subs);
        if subs == attributes_subgraphs(list) {
            assert(subs.take(m) =~= attributes_subgraphs(list.drop_last()));
            assert(subs.skip(m) =~= attribute_subgraphs(a));
            match a.g {
                Some(g) => {
                    assert((seq![g] + a.graphs).skip(1) =~= a.graphs);
                },
                None => {},
            }
            assert(attribute_with(a, subs.skip(m)) == a);
            assert(list.drop_last().push(a) =~= list);
        }
    } else {
        assert(subs =~= Seq::empty());
        assert(list =~= Seq::empty());
    }
}

proof fn lemma_attributes_with_twice(list: Seq<Attribute>, p: Seq<Graph>, s: Seq<Graph>)
    requires
        p.len() == attributes_subgraphs(list).len(),
        s.len() == p.len(),
    ensures
        attributes_with(attributes_with(list, p), s) == attributes_with(list, s),
    decreases list.len(),
{
    lemma_attributes_with(list, p);
    if list.len() > 0 {
        let a = list.last();
        let m = p.len() - attribute_subgraphs(a).len();
        let inner = attributes_with(list, p);
        lemma_attributes_with(list.drop_last(), p.take(m));
        lemma_attributes_with_twice(list.drop_last(), p.take(m), s.take(m));
        assert(inner.drop_last() =~= attributes_with(list.drop_last(), p.take(m)));
        assert(inner.last() == attribute_with(a, p.skip(m)));
        assert(attribute_subgraphs(inner.last()).len() == attribute_subgraphs(a).len());
    }
}

/// Replacing the subgraphs of nodes: the new ones are then the nodes' subgraphs, and putting back
/// the old ones changes nothing.
pub proof fn lemma_nodes_with(list: Seq<Node>, subs: Seq<Graph>)
    requires
        subs.len() == nodes_subgraphs(list).len(),
    ensures
        nodes_with(list, subs).len() == list.len(),
        nodes_subgraphs(nodes_with(list, subs)) == subs,
        subs == nodes_subgraphs(list) ==> nodes_with(list, subs) == list,
    decreases list.len(),
{
    if list.len() > 0 {
        let n = list.last();
        let m = subs.len() - attributes_subgraphs(n.attribute).len();
        lemma_nodes_with(list.drop_last(), subs.take(m));
        lemma_attributes_with(n.attribute, subs.skip(m));
        assert(nodes_with(list, subs).drop_last() =~= nodes_with(list.drop_last(), subs.take(m)));
        assert(subs.take(m) + subs.skip(m) =~= subs);
        if subs == nodes_subgraphs(list) {
            assert(subs.take(m) =~= nodes_subgraphs(list.drop_last()));
            assert(subs.skip(m) =~= attributes_subgraphs(n.attribute));
            assert(list.drop_last().push(n) =~= list);
        }
    } else {
        assert(subs =~= Seq::empty());
        assert(list =~= Seq::empty());
    }
}

proof fn lemma_nodes_with_twice(list: Seq<Node>, p: Seq<Graph>, s: Seq<Graph>)
    requires
        p.len() == nodes_subgraphs(list).len(),
        s.len() == p.len(),
    ensures
        nodes_with(nodes_with(list, p), s) == nodes_with(list, s),
    decreases list.len(),
{
    lemma_nodes_with(list, p);
    if list.len() > 0 {
        let n = list.last();
        let m = p.len() - attributes_subgraphs(n.attribute).len();
        let inner = nodes_with(list, p);
        lemma_nodes_with(list.drop_last(), p.take(m));
        lemma_attributes_with(n.attribute, p.skip(m));
        lemma_attributes_with_twice(n.attribute, p.skip(m), s.skip(m));
        lemma_nodes_with_twice(list.drop_last(), p.take(m), s.take(m));
        assert(inner.drop_last() =~= nodes_with(list.drop_last(), p.take(m)));
        assert(inner.last() == node_with(n, p.skip(m)));
    }
}

/// Replacing the subgraphs: the new ones are then the graph's subgraphs, putting back the
/// old ones changes nothing, and a second replacement overrides the first.
pub proof fn lemma_with_subgraphs(g: Graph, p: Seq<Graph>, s: Seq<Graph>)
    requires
        p.len() == subgraphs(g).len(),
        s.len() == p.len(),
    ensures
        subgraphs(with_subgraphs(g, p)) == p,
        with_subgraphs(g, subgraphs(g)) == g,
        with_subgraphs(with_subgraphs(g, p), s) == with_subgraphs(g, s),
        with_subgraphs(g, p).node.len() == g.node.len(),
{
    lemma_nodes_with(g.node, p);
    lemma_nodes_with(g.node, subgraphs(g));
    lemma_nodes_with_twice(g.node, p, s);
}

/// `count` empty graphs, which stand where subgraphs were taken out.
pub open spec fn blanks(count: nat) -> Seq<Graph> {
    Seq::new(count, |i: int| graph_of(""@))
}

fn detach_attribute(a: &mut AttributeProto, out: &mut Vec<GraphProto>)
    ensures
        final(a)@ == attribute_with(old(a)@, blanks(attribute_subgraphs(old(a)@).len())),
        views(final(out)@) == views(old(out)@) + attribute_subgraphs(old(a)@),
{
    match &mut a.g {
        Some(g) => {
            let mut taken = GraphProto::new("");
            std::mem::swap(g, &mut taken);
            out.push(taken);
        },
        None => {},
    }
    let ghost kept = *a;
    let ghost start = out@;
    proof {
        match old(a).g {
            Some(g) => {
                assert(start =~= old(out)@.push(g));
            },
            None => {},
        }
    }
    let mut i: usize = 0;
    while i < a.graphs.len()
        invariant
            i <= a.graphs.len(),
            a.graphs.len() == kept.graphs.len(),
            kept.graphs == old(a).graphs,
            *a == (AttributeProto { graphs: a.graphs, ..kept }),
            forall|k: int| 0 <= k < i ==> (#[trigger] a.graphs@[k])@ == graph_of(""@),
            forall|k: int| i <= k < a.graphs.len() ==> a.graphs@[k] == kept.graphs@[k],
            out@ =~= start + kept.graphs@.take(i as int),
        decreases a.graphs.len() - i,
    {
        let mut taken = GraphProto::new("");
        std::mem::swap(&mut a.graphs[i], &mut taken);
        out.push(taken);
        i = i + 1;
    }
    proof {
        let count = attribute_subgraphs(old(a)@).len();
        assert(out@ =~= start + kept.graphs@);
        match old(a).g {
            Some(g) => {
                assert(blanks(count).skip(1) =~= a@.graphs);
            },
            None => {
                assert(blanks(count) =~= a@.graphs);
            },
        }
        assert(views(out@) =~= views(old(out)@) + attribute_subgraphs(old(a)@));
    }
}

fn detach_node(n: &mut NodeProto, out: &mut Vec<GraphProto>)
    ensures
        final(n)@ == node_with(old(n)@, blanks(attributes_subgraphs(old(n)@.attribute).len())),
        views(final(out)@) == views(old(out)@) + attributes_subgraphs(old(n)@.attribute),
{
    let mut i: usize = 0;
    proof {
        assert(views(out@) =~= views(old(out)@) + attributes_subgraphs(old(n)@.attribute.take(0)));
        assert(n@.attribute.take(0) =~= attributes_with(
            old(n)@.attribute.take(0),
            blanks(attributes_subgraphs(old(n)@.attribute.take(0)).len()),
        ));
    }
    while i < n.attribute.len()
        invariant
            i <= n.attribute.len(),
            n.attribute.len() == old(n).attribute.len(),
            n.input == old(n).input,
            n.output == old(n).output,
            n.op_type == old(n).op_type,
            forall|k: int| i <= k < n.attribute.len() ==> n.attribute@[k] == old(n).attribute@[k],
            n@.attribute.take(i as int) == attributes_with(
                old(n)@.attribute.take(i as int),
                blanks(attributes_subgraphs(old(n)@.attribute.take(i as int)).len()),
            ),
            views(out@) == views(old(out)@) + attributes_subgraphs(
                old(n)@.attribute.take(i as int),
            ),
        decreases n.attribute.len() - i,
    {
        let ghost before = n@.attribute;
        let ghost sofar = views(out@);
        detach_attribute(&mut n.attribute[i], out);
        proof {
            let list = old(n)@.attribute;
            assert(list.take(i + 1).drop_last() =~= list.take(i as int));
            assert(list.take(i + 1).last() == list[i as int]);
            let all = blanks(attributes_subgraphs(list.take(i + 1)).len());
            let m = attributes_subgraphs(list.take(i as int)).len();
            assert(all.take(m as int) =~= blanks(m));
            assert(all.skip(m as int) =~= blanks(attribute_subgraphs(list[i as int]).len()));
            assert(n@.attribute.take(i + 1) =~= before.take(i as int).push(n@.attribute[i as int]));
            assert(views(out@) =~= views(old(out)@) + attributes_subgraphs(list.take(i + 1)));
        }
        i = i + 1;
    }
    proof {
        assert(old(n)@.attribute.take(i as int) =~= old(n)@.attribute);
        assert(n@.attribute.take(i as int) =~= n@.attribute);
    }
}

/// Takes the subgraphs of a graph out of it, leaving empty graphs in their places.
pub fn detach(g: &mut GraphProto) -> (out: Vec<GraphProto>)
    ensures
        views(out@) == subgraphs(old(g)@),
        final(g)@ == with_subgraphs(old(g)@, blanks(subgraphs(old(g)@).len())),
{
    let mut out: Vec<GraphProto> = Vec::new();
    let mut i: usize = 0;
    proof {
        assert(views(out@) =~= nodes_subgraphs(old(g)@.node.take(0)));
        assert(g@.node.take(0) =~= nodes_with(
            old(g)@.node.take(0),
            blanks(nodes_subgraphs(old(g)@.node.take(0)).len()),
        ));
    }
    while i < g.node.len()
        invariant
            i <= g.node.len(),
            g.node.len() == old(g).node.len(),
            *g == (GraphProto { node: g.node, ..*old(g) }),
            forall|k: int| i <= k < g.node.len() ==> g.node@[k] == old(g).node@[k],
            g@.node.take(i as int) == nodes_with(
                old(g)@.node.take(i as int),
                blanks(nodes_subgraphs(old(g)@.node.take(i as int)).len()),
            ),
            views(out@) == nodes_subgraphs(old(g)@.node.take(i as int)),
        decreases g.node.len() - i,
    {
        let ghost before = g@.node;
        detach_node(&mut g.node[i], &mut out);
        proof {
            let list = old(g)@.node;
            assert(list.take(i + 1).drop_last() =~= list.take(i as int));
            assert(list.take(i + 1).last() == list[i as int]);
            let all = blanks(nodes_subgraphs(list.take(i + 1)).len());
            let m = nodes_subgraphs(list.take(i as int)).len();
            assert(all.take(m as int) =~= blanks(m));
            assert(all.skip(m as int) =~= blanks(
                attributes_subgraphs(list[i as int].attribute).len(),
            ));
            assert(g@.node.take(i + 1) =~= before.take(i as int).push(g@.node[i as int]));
        }
        i = i + 1;
    }
    proof {
        assert(old(g)@.node.take(i as int) =~= old(g)@.node);
        assert(g@.node.take(i as int) =~= g@.node);
    }
    out
}

fn attach_attribute(a: &mut AttributeProto, subs: &mut Vec<GraphProto>)
    requires
        attribute_subgraphs(old(a)@).len() <= old(subs).len(),
    ensures
        views(final(subs)@) == views(old(subs)@).take(
            old(subs)@.len() - attribute_subgraphs(old(a)@).len(),
        ),
        final(a)@ == attribute_with(
            old(a)@,
            views(old(subs)@).skip(old(subs)@.len() - attribute_subgraphs(old(a)@).len()),
        ),
{
    let count = a.graphs.len();
    let at = subs.len() - count;
    let mut tail = subs.split_off(at);
    let ghost listed = tail@;
    std::mem::swap(&mut a.graphs, &mut tail);
    match &mut a.g {
        Some(g) => {
            let single = subs.pop();
            match single {
                Some(sub) => {
                    *g = sub;
                },
                None => {},
            }
        },
        None => {},
    }
    proof {
        let all = views(old(subs)@);
        let need = attribute_subgraphs(old(a)@).len();
        assert(a@.graphs =~= views(listed));
        match old(a).g {
            Some(_) => {
                assert(all.skip(all.len() - need)[0] == old(subs)@[at - 1]@);
                assert(all.skip(all.len() - need).skip(1) =~= views(listed));
            },
            None => {
                assert(all.skip(all.len() - need) =~= views(listed));
            },
        }
        assert(views(subs@) =~= all.take(all.len() - need));
    }
}

fn attach_node(n: &mut NodeProto, subs: &mut Vec<GraphProto>)
    requires
        attributes_subgraphs(old(n)@.attribute).len() <= old(subs).len(),
    ensures
        views(final(subs)@) == views(old(subs)@).take(
            old(subs)@.len() - attributes_subgraphs(old(n)@.attribute).len(),
        ),
        final(n)@ == node_with(
            old(n)@,
            views(old(subs)@).skip(old(subs)@.len() - attributes_subgraphs(old(n)@.attribute).len()),
        ),
{
    let ghost list = old(n)@.attribute;
    let ghost all = views(old(subs)@);
    let ghost base = all.len() - attributes_subgraphs(list).len();
    let ghost whole = attributes_with(list, all.skip(base));
    let mut i: usize = n.attribute.len();
    proof {
        lemma_attributes_with(list, all.skip(base));
        assert(list.take(i as int) =~= list);
        assert(views(subs@).skip(base) =~= all.skip(base));
        assert(whole.take(i as int) =~= whole);
        assert(views(subs@) =~= all.take(base + attributes_subgraphs(list.take(i as int)).len()));
    }
    while i > 0
        invariant
            i <= n.attribute.len(),
            n.attribute.len() == list.len(),
            list == old(n)@.attribute,
            whole.len() == list.len(),
            n.input == old(n).input,
            n.output == old(n).output,
            n.op_type == old(n).op_type,
            0 <= base,
            base + attributes_subgraphs(list.take(i as int)).len() <= all.len(),
            forall|k: int| 0 <= k < i ==> n.attribute@[k] == old(n).attribute@[k],
            forall|k: int| i <= k < list.len() ==> (#[trigger] n.attribute@[k])@ == whole[k],
            views(subs@) == all.take(base + attributes_subgraphs(list.take(i as int)).len()),
            whole.take(i as int) == attributes_with(
                list.take(i as int),
                all.subrange(base, base + attributes_subgraphs(list.take(i as int)).len()),
            ),
        decreases i,
    {
        i = i - 1;
        let ghost top = base + attributes_subgraphs(list.take(i + 1)).len();
        proof {
            assert(list.take(i + 1).drop_last() =~= list.take(i as int));
            assert(list.take(i + 1).last() == list[i as int]);
            assert(views(subs@).len() == subs@.len());
            assert(n.attribute@[i as int]@ == list[i as int]);
        }
        attach_attribute(&mut n.attribute[i], subs);
        proof {
            let part = all.subrange(base, top);
            let m = part.len() - attribute_subgraphs(list[i as int]).len();
            assert(part.take(m) =~= all.subrange(
                base,
                base + attributes_subgraphs(list.take(i as int)).len(),
            ));
            assert(part.skip(m) =~= all.take(top).skip(
                top - attribute_subgraphs(list[i as int]).len(),
            ));
            assert(whole.take(i + 1).last() == whole[i as int]);
            assert(whole.take(i + 1).drop_last() =~= whole.take(i as int));
            assert(attributes_with(list.take(i + 1), part).drop_last() =~= attributes_with(
                list.take(i as int),
                part.take(m),
            ));
            assert(views(subs@) =~= all.take(base + attributes_subgraphs(list.take(i as int)).len()));
        }
    }
    proof {
        assert(list.take(0) =~= Seq::empty());
        assert(n@.attribute =~= whole);
        assert(views(subs@) =~= all.take(base));
    }
}

/// Puts `subs` in the places of the subgraphs of a graph.
pub fn attach(g: &mut GraphProto, subs: Vec<GraphProto>)
    requires
        subs.len() == subgraphs(old(g)@).len(),
    ensures
        final(g)@ == with_subgraphs(old(g)@, views(subs@)),
{
    let mut subs = subs;
    let ghost list = old(g)@.node;
    let ghost all = views(subs@);
    let ghost whole = nodes_with(list, all);
    let mut i: usize = g.node.len();
    proof {
        lemma_nodes_with(list, all);
        assert(list.take(i as int) =~= list);
        assert(whole.take(i as int) =~= whole);
        assert(views(subs@) =~= all.take(nodes_subgraphs(list.take(i as int)).len() as int));
    }
    while i > 0
        invariant
            i <= g.node.len(),
            g.node.len() == list.len(),
            list == old(g)@.node,
            whole.len() == list.len(),
            *g == (GraphProto { node: g.node, ..*old(g) }),
            nodes_subgraphs(list.take(i as int)).len() <= all.len(),
            forall|k: int| 0 <= k < i ==> g.node@[k] == old(g).node@[k],
            forall|k: int| i <= k < list.len() ==> (#[trigger] g.node@[k])@ == whole[k],
            views(subs@) == all.take(nodes_subgraphs(list.take(i as int)).len() as int),
            whole.take(i as int) == nodes_with(list.take(i as int), views(subs@)),
        decreases i,
    {
        i = i - 1;
        let ghost part = views(subs@);
        proof {
            assert(list.take(i + 1).drop_last() =~= list.take(i as int));
            assert(list.take(i + 1).last() == list[i as int]);
        }
        attach_node(&mut g.node[i], &mut subs);
        proof {
            let m = part.len() - attributes_subgraphs(list[i as int].attribute).len();
            assert(whole.take(i + 1).last() == whole[i as int]);
            assert(whole.take(i + 1).drop_last() =~= whole.take(i as int));
            assert(nodes_with(list.take(i + 1), part).drop_last() =~= nodes_with(
                list.take(i as int),
                part.take(m),
            ));
            assert(views(subs@) =~= all.take(nodes_subgraphs(list.take(i as int)).len() as int));
        }
    }
    proof {
        assert(g@.node =~= whole);
    }
}

fn collect_attribute<'a>(a: &'a AttributeProto, out: &mut Vec<&'a GraphProto>)
    ensures
        views(final(out)@) == views(old(out)@) + attribute_subgraphs(a@),
{
    match &a.g {
        Some(g) => {
            out.push(g);
        },
        None => {},
    }
    let ghost start = out@;
    let mut i: usize = 0;
    while i < a.graphs.len()
        invariant
            i <= a.graphs.len(),
            out.len() == start.len() + i,
            forall|k: int| 0 <= k < start.len() ==> out@[k] == start[k],
            forall|k: int| 0 <= k < i ==> *(#[trigger] out@[start.len() + k]) == a.graphs@[k],
        decreases a.graphs.len() - i,
    {
        out.push(&a.graphs[i]);
        i = i + 1;
    }
    proof {
        let after = views(old(out)@) + attribute_subgraphs(a@);
        assert(views(out@).len() == after.len());
        assert forall|k: int| 0 <= k < after.len() implies #[trigger] views(out@)[k] == after[k] by {
            assert(views(out@)[k] == out@[k]@);
            if k < start.len() {
                assert(out@[k] == start[k]);
            } else {
                assert(*out@[start.len() + (k - start.len())] == a.graphs@[k - start.len()]);
            }
        }
        assert(views(out@) =~= after);
    }
}

/// The subgraphs of a node are less high than the graph that holds it.
pub proof fn lemma_node_subgraph_height(g: Graph, i: int, j: int)
    requires
        0 <= i < g.node.len(),
        0 <= j < attributes_subgraphs(g.node[i].attribute).len(),
    ensures
        height(attributes_subgraphs(g.node[i].attribute)[j]) < height(g),
{
    lemma_attributes_height(g.node[i].attribute, j);
    lemma_node_height(g.node, i);
}

proof fn lemma_node_height(list: Seq<Node>, i: int)
    requires
        0 <= i < list.len(),
    ensures
        attributes_height(list[i].attribute) <= nodes_height(list),
    decreases list.len(),
{
    if i < list.len() - 1 {
        lemma_node_height(list.drop_last(), i);
        assert(list.drop_last()[i] == list[i]);
    }
}

/// The subgraphs of a node, in order.
pub fn collect_node<'a>(n: &'a NodeProto) -> (out: Vec<&'a GraphProto>)
    ensures
        views(out@) == attributes_subgraphs(n@.attribute),
        out.len() == attributes_subgraphs(n@.attribute).len(),
        forall|i: int|
            0 <= i < out.len() ==> (#[trigger] out@[i])@ == attributes_subgraphs(n@.attribute)[i],
{
    let mut out: Vec<&'a GraphProto> = Vec::new();
    let mut j: usize = 0;
    proof {
        assert(views(out@) =~= attributes_subgraphs(n@.attribute.take(0)));
    }
    while j < n.attribute.len()
        invariant
            j <= n.attribute.len(),
            views(out@) == attributes_subgraphs(n@.attribute.take(j as int)),
        decreases n.attribute.len() - j,
    {
        collect_attribute(&n.attribute[j], &mut out);
        proof {
            let list = n@.attribute;
            assert(list.take(j + 1).drop_last() =~= list.take(j as int));
            assert(list.take(j + 1).last() == list[j as int]);
        }
        j = j + 1;
    }
    proof {
        assert(n@.attribute.take(j as int) =~= n@.attribute);
        assert(views(out@).len() == out@.len());
        assert forall|k: int| 0 <= k < out.len() implies (#[trigger] out@[k])@
            == attributes_subgraphs(n@.attribute)[k] by {
            assert(views(out@)[k] == out@[k]@);
        }
    }
    out
}

/// The subgraphs of a graph's nodes, in order.
pub fn collect<'a>(g: &'a GraphProto) -> (out: Vec<&'a GraphProto>)
    ensures
        views(out@) == subgraphs(g@),
        out.len() == subgraphs(g@).len(),
        forall|i: int| 0 <= i < out.len() ==> (#[trigger] out@[i])@ == subgraphs(g@)[i],
{
    let mut out: Vec<&'a GraphProto> = Vec::new();
    let mut i: usize = 0;
    proof {
        assert(views(out@) =~= nodes_subgraphs(g@.node.take(0)));
    }
    while i < g.node.len()
        invariant
            i <= g.node.len(),
            views(out@) == nodes_subgraphs(g@.node.take(i as int)),
        decreases g.node.len() - i,
    {
        let n = &g.node[i];
        let mut j: usize = 0;
        proof {
            assert(views(out@) =~= nodes_subgraphs(g@.node.take(i as int)) + attributes_subgraphs(
                n@.attribute.take(0),
            ));
        }
        while j < n.attribute.len()
            invariant
                j <= n.attribute.len(),
                views(out@) == nodes_subgraphs(g@.node.take(i as int)) + attributes_subgraphs(
                    n@.attribute.take(j as int),
                ),
            decreases n.attribute.len() - j,
        {
            collect_attribute(&n.attribute[j], &mut out);
            proof {
                let list = n@.attribute;
                assert(list.take(j + 1).drop_last() =~= list.take(j as int));
                assert(list.take(j + 1).last() == list[j as int]);
                assert(views(out@) =~= nodes_subgraphs(g@.node.take(i as int))
                    + attributes_subgraphs(list.take(j + 1)));
            }
            j = j + 1;
        }
        proof {
            assert(n@.attribute.take(j as int) =~= n@.attribute);
            assert(g@.node.take(i + 1).drop_last() =~= g@.node.take(i as int));
            assert(g@.node.take(i + 1).last() == g@.node[i as int]);
        }
        i = i + 1;
    }
    proof {
        assert(g@.node.take(i as int) =~= g@.node);
        assert(views(out@).len() == out@.len());
        assert forall|k: int| 0 <= k < out.len() implies (#[trigger] out@[k])@ == subgraphs(g@)[k] by {
            assert(views(out@)[k] == out@[k]@);
        }
    }
    out
}

} // verus!
