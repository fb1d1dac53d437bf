//! Structural cleanup: constants and inputs without duplicates, and no constant without a use.

use crate::converter::export::validate::{add_tensor_names, add_value_names};
use crate::converter::optimizer::facts::{index_initializers, initializer_of, position};
use crate::name_set::NameSet;
use crate::nested::{collect, height, lemma_subgraph_height, subgraphs};
use crate::onnx::{
    attr_tensor, node_of, tensor_attribute, views, Graph, GraphProto, Node, NodeProto, Tensor,
    TensorProto, ValueInfo, ValueInfoProto,
};
use crate::scope::{
    consumed, lemma_retained_views, produced, retain_items, retained, tensor_named, value_named,
};
use crate::text::{list1, names};
use vstd::prelude::*;

verus! {

/// Whether a node of the graph or of one of its subgraphs, however deep, reads `name`.
pub open spec fn referenced(g: Graph, name: Seq<char>) -> bool
    decreases height(g),
    via referenced_decreases
{
    name.len() > 0 && (consumed(g.node, name) || exists|i: int|
        0 <= i < subgraphs(g).len() && referenced(#[trigger] subgraphs(g)[i], name))
}

#[via_fn]
proof fn referenced_decreases(g: Graph, name: Seq<char>) {
    assert forall|i: int| 0 <= i < subgraphs(g).len() implies height(#[trigger] subgraphs(g)[i])
        < height(g) by {
        lemma_subgraph_height(g, i);
    }
}

/// The constants, of each name only the last.
pub open spec fn sole_tensors(list: Seq<Tensor>) -> Seq<Tensor> {
    retained(
        list,
        Seq::new(list.len(), |i: int| initializer_of(list, list[i].name) == Some(i as nat)),
    )
}

/// The inputs, of each name only the first, and none that is a constant.
pub open spec fn sole_inputs(list: Seq<ValueInfo>, constants: Seq<Tensor>) -> Seq<ValueInfo> {
    retained(
        list,
        Seq::new(
            list.len(),
            |i: int|
                !tensor_named(constants, list[i].name) && !value_named(list.take(i), list[i].name),
        ),
    )
}

/// Whether a constant is an output that no node produces.
pub open spec fn output_only(g: Graph, t: Tensor) -> bool {
    value_named(g.output, t.name) && !(t.name.len() > 0 && produced(g.node, t.name))
}

/// A node that yields a constant.
pub open spec fn constant_node(t: Tensor) -> Node {
    node_of("Constant"@, Seq::empty(), seq![t.name]).with(tensor_attribute("value"@, t))
}

/// The graph with a `Constant` node in place of every constant that is an output and that no node
/// produces.
pub open spec fn outputs_materialized(g: Graph) -> Graph {
    let moved = retained(
        g.initializer,
        Seq::new(g.initializer.len(), |i: int| output_only(g, g.initializer[i])),
    );
    Graph {
        initializer: retained(
            g.initializer,
            Seq::new(g.initializer.len(), |i: int| !output_only(g, g.initializer[i])),
        ),
        node: g.node + Seq::new(moved.len(), |i: int| constant_node(moved[i])),
        ..g
    }
}

/// The graph without the constants that nothing reads and that are no outputs.
pub open spec fn unused_dropped(g: Graph) -> Graph {
    Graph {
        initializer: retained(
            g.initializer,
            Seq::new(
                g.initializer.len(),
                |i: int|
                    referenced(g, g.initializer[i].name) || value_named(
                        g.output,
                        g.initializer[i].name,
                    ),
            ),
        ),
        ..g
    }
}

/// The graph without duplicates among constants and inputs, and with outputs that are constants
/// made nodes; where `prune` is set also without unused constants.
pub open spec fn sanitized(g: Graph, prune: bool) -> Graph {
    let constants = sole_tensors(g.initializer);
    let h = outputs_materialized(
        Graph { initializer: constants, input: sole_inputs(g.input, constants), ..g },
    );
    if prune {
        unused_dropped(h)
    } else {
        h
    }
}

/// Adds every name that a graph or one of its subgraphs reads to a set.
pub fn collect_referenced_value_names(graph: &GraphProto, set: &mut NameSet)
    ensures
        forall|name: Seq<char>| #[trigger]
            final(set)@.contains(name) == (old(set)@.contains(name) || referenced(graph@, name)),
    decreases height(graph@),
{
    let ghost g = graph@;
    let ghost start = set@;
    let mut i: usize = 0;
    while i < graph.node.len()
        invariant
            i <= graph.node.len(),
            g == graph@,
            forall|name: Seq<char>| #[trigger]
                set@.contains(name) == (start.contains(name) || (name.len() > 0 && exists|k: int|
                    0 <= k < i && #[trigger] g.node[k].input.contains(name))),
        decreases graph.node.len() - i,
    {
        let ghost before = set@;
        add_names(set, &graph.node[i].input);
        proof {
            assert(g.node[i as int].input == names(graph.node@[i as int].input@));
            assert forall|name: Seq<char>| #[trigger]
                set@.contains(name) == (start.contains(name) || (name.len() > 0 && exists|k: int|
                    0 <= k < i + 1 && #[trigger] g.node[k].input.contains(name))) by {
                assert(before.contains(name) == (start.contains(name) || (name.len() > 0
                    && exists|k: int| 0 <= k < i && #[trigger] g.node[k].input.contains(name))));
            }
        }
        i = i + 1;
    }
    let ghost mid = set@;
    let subs = collect(graph);
    let mut j: usize = 0;
    proof {
        assert forall|name: Seq<char>| #[trigger]
            mid.contains(name) == (start.contains(name) || (name.len() > 0 && consumed(
                g.node,
                name,
            ))) by {}
    }
    while j < subs.len()
        invariant
            j <= subs.len(),
            g == graph@,
            subs.len() == subgraphs(g).len(),
            forall|k: int| 0 <= k < subs.len() ==> (#[trigger] subs@[k])@ == subgraphs(g)[k],
            forall|name: Seq<char>| #[trigger]
                set@.contains(name) == (mid.contains(name) || exists|k: int|
                    0 <= k < j && referenced(#[trigger] subgraphs(g)[k], name)),
        decreases subs.len() - j,
    {
        let ghost before = set@;
        proof {
            lemma_subgraph_height(g, j as int);
            assert(subs@[j as int]@ == subgraphs(g)[j as int]);
        }
        collect_referenced_value_names(subs[j], set);
        proof {
            assert forall|name: Seq<char>| #[trigger]
                set@.contains(name) == (mid.contains(name) || exists|k: int|
                    0 <= k < j + 1 && referenced(#[trigger] subgraphs(g)[k], name)) by {
                assert(before.contains(name) == (mid.contains(name) || exists|k: int|
                    0 <= k < j && referenced(#[trigger] subgraphs(g)[k], name)));
            }
        }
        j = j + 1;
    }
    proof {
        assert forall|name: Seq<char>| #[trigger]
            set@.contains(name) == (old(set)@.contains(name) || referenced(g, name)) by {
            assert(mid.contains(name) == (start.contains(name) || (name.len() > 0 && consumed(
                g.node,
                name,
            ))));
            if exists|k: int| 0 <= k < j && referenced(#[trigger] subgraphs(g)[k], name) {
                let k = choose|k: int| 0 <= k < j && referenced(#[trigger] subgraphs(g)[k], name);
                assert(referenced(subgraphs(g)[k], name));
                assert(name.len() > 0);
            }
        }
    }
}

/// Adds the non-empty names of a list to a set.
pub fn add_names(set: &mut NameSet, list: &Vec<String>)
    ensures
        forall|name: Seq<char>| #[trigger]
            final(set)@.contains(name) == (old(set)@.contains(name) || (name.len() > 0 && names(
                list@,
            ).contains(name))),
{
    let ghost all = names(list@);
    let mut j: usize = 0;
    while j < list.len()
        invariant
            j <= list.len(),
            all == names(list@),
            forall|name: Seq<char>| #[trigger]
                set@.contains(name) == (old(set)@.contains(name) || (name.len() > 0
                    && exists|k: int| 0 <= k < j && #[trigger] all[k] == name)),
        decreases list.len() - j,
    {
        let ghost before = set@;
        proof {
            assert(all[j as int] == list@[j as int]@);
        }
        if !list[j].as_str().is_empty() {
            set.insert(list[j].as_str());
        }
        proof {
            assert forall|name: Seq<char>| #[trigger]
                set@.contains(name) == (old(set)@.contains(name) || (name.len() > 0
                    && exists|k: int| 0 <= k < j + 1 && #[trigger] all[k] == name)) by {
                assert(before.contains(name) == (old(set)@.contains(name) || (name.len() > 0
                    && exists|k: int| 0 <= k < j && #[trigger] all[k] == name)));
            }
        }
        j = j + 1;
    }
}

/// The non-empty names that the nodes of a graph produce.
pub fn produced_names(graph: &GraphProto) -> (set: NameSet)
    ensures
        forall|name: Seq<char>| #[trigger]
            set@.contains(name) == (name.len() > 0 && produced(graph@.node, name)),
{
    let ghost g = graph@;
    let mut set = NameSet::new();
    let mut i: usize = 0;
    while i < graph.node.len()
        invariant
            i <= graph.node.len(),
            g == graph@,
            forall|name: Seq<char>| #[trigger]
                set@.contains(name) == (name.len() > 0 && exists|k: int|
                    0 <= k < i && #[trigger] g.node[k].output.contains(name)),
        decreases graph.node.len() - i,
    {
        let ghost before = set@;
        add_names(&mut set, &graph.node[i].output);
        proof {
            assert(g.node[i as int].output == names(graph.node@[i as int].output@));
            assert forall|name: Seq<char>| #[trigger]
                set@.contains(name) == (name.len() > 0 && exists|k: int|
                    0 <= k < i + 1 && #[trigger] g.node[k].output.contains(name)) by {
                assert(before.contains(name) == (name.len() > 0 && exists|k: int|
                    0 <= k < i && #[trigger] g.node[k].output.contains(name)));
            }
        }
        i = i + 1;
    }
    set
}

fn keep_sole_tensors(list: &mut Vec<TensorProto>)
    ensures
        views(final(list)@) == sole_tensors(views(old(list)@)),
{
    let table = index_initializers(list);
    let ghost all = views(list@);
    let mut keep: Vec<bool> = Vec::new();
    let mut i: usize = 0;
    while i < list.len()
        invariant
            i <= list.len(),
            all == views(list@),
            forall|name: Seq<char>| #[trigger] position(table@, name) == initializer_of(all, name),
            keep@ =~= Seq::new(
                i as nat,
                |k: int| initializer_of(all, all[k].name) == Some(k as nat),
            ),
        decreases list.len() - i,
    {
        proof {
            assert(all[i as int].name == list@[i as int].name@);
            assert(position(table@, all[i as int].name) == initializer_of(
                all,
                all[i as int].name,
            ));
        }
        let last = match table.get(list[i].name.as_str()) {
            Some(k) => *k == i,
            None => false,
        };
        keep.push(last);
        i = i + 1;
    }
    proof {
        lemma_retained_views(list@, keep@);
        assert(keep@ =~= Seq::new(
            all.len(),
            |k: int| initializer_of(all, all[k].name) == Some(k as nat),
        ));
    }
    retain_items(list, &keep);
}

fn keep_sole_inputs(list: &mut Vec<ValueInfoProto>, constants: &Vec<TensorProto>)
    ensures
        views(final(list)@) == sole_inputs(views(old(list)@), views(constants@)),
{
    let mut known = NameSet::new();
    add_tensor_names(&mut known, constants);
    let ghost all = views(list@);
    let ghost fixed = views(constants@);
    let mut seen = NameSet::new();
    let mut keep: Vec<bool> = Vec::new();
    let mut i: usize = 0;
    proof {
        assert forall|name: Seq<char>| !value_named(all.take(0), name) by {}
    }
    while i < list.len()
        invariant
            i <= list.len(),
            all == views(list@),
            fixed == views(constants@),
            forall|name: Seq<char>| #[trigger] known@.contains(name) == tensor_named(fixed, name),
            forall|name: Seq<char>| #[trigger]
                seen@.contains(name) == value_named(all.take(i as int), name),
            keep@ =~= Seq::new(
                i as nat,
                |k: int|
                    !tensor_named(fixed, all[k].name) && !value_named(all.take(k), all[k].name),
            ),
        decreases list.len() - i,
    {
        let ghost before = seen@;
        proof {
            assert(all[i as int].name == list@[i as int].name@);
        }
        let fresh = seen.insert(list[i].name.as_str());
        let stays = fresh && !known.contains(list[i].name.as_str());
        keep.push(stays);
        proof {
            assert forall|name: Seq<char>| #[trigger]
                seen@.contains(name) == value_named(all.take(i + 1), name) by {
                lemma_value_named_step(all, i as int, name);
                assert(before.contains(name) == value_named(all.take(i as int), name));
            }
        }
        i = i + 1;
    }
    proof {
        lemma_retained_views(list@, keep@);
        assert(keep@ =~= Seq::new(
            all.len(),
            |k: int| !tensor_named(fixed, all[k].name) && !value_named(all.take(k), all[k].name),
        ));
    }
    retain_items(list, &keep);
}

/// What a longer list of values names.
pub proof fn lemma_value_named_step(list: Seq<ValueInfo>, i: int, name: Seq<char>)
    requires
        0 <= i < list.len(),
    ensures
        value_named(list.take(i + 1), name) == (value_named(list.take(i), name) || list[i].name
            == name),
{
    if value_named(list.take(i), name) {
        let k = choose|k: int| 0 <= k < list.take(i).len() && #[trigger] list.take(i)[k].name == name;
        assert(list.take(i + 1)[k].name == name);
    }
    if list[i].name == name {
        assert(list.take(i + 1)[i].name == name);
    }
    if value_named(list.take(i + 1), name) && list[i].name != name {
        let k = choose|k: int|
            0 <= k < list.take(i + 1).len() && #[trigger] list.take(i + 1)[k].name == name;
        assert(list.take(i)[k].name == name);
    }
}

fn materialize_initializer_only_outputs(graph: &mut GraphProto)
    ensures
        final(graph)@ == outputs_materialized(old(graph)@),
{
    let ghost g = graph@;
    let made = produced_names(graph);
    let mut outputs = NameSet::new();
    add_value_names(&mut outputs, &graph.output);
    let ghost all = g.initializer;
    let ghost moved_flags = Seq::new(all.len(), |i: int| output_only(g, all[i]));
    let ghost kept_flags = Seq::new(all.len(), |i: int| !output_only(g, all[i]));
    let mut moved: Vec<NodeProto> = Vec::new();
    let mut keep: Vec<bool> = Vec::new();
    let mut i: usize = 0;
    proof {
        assert(all.take(0) =~= Seq::empty());
    }
    while i < graph.initializer.len()
        invariant
            i <= graph.initializer.len(),
            g == graph@,
            *graph == *old(graph),
            all == g.initializer,
            forall|name: Seq<char>| #[trigger]
                made@.contains(name) == (name.len() > 0 && produced(g.node, name)),
            forall|name: Seq<char>| #[trigger]
                outputs@.contains(name) == value_named(g.output, name),
            moved_flags == Seq::new(all.len(), |i: int| output_only(g, all[i])),
            kept_flags == Seq::new(all.len(), |i: int| !output_only(g, all[i])),
            keep@ =~= kept_flags.take(i as int),
            moved.len() == retained(all.take(i as int), moved_flags).len(),
            forall|k: int|
                0 <= k < moved.len() ==> (#[trigger] moved@[k])@ == constant_node(
                    retained(all.take(i as int), moved_flags)[k],
                ),
        decreases graph.initializer.len() - i,
    {
        let tensor = &graph.initializer[i];
        proof {
            assert(all[i as int] == tensor@);
            assert(all.take(i + 1).drop_last() =~= all.take(i as int));
            assert(all.take(i + 1).last() == all[i as int]);
        }
        let goes = outputs.contains(tensor.name.as_str()) && !made.contains(tensor.name.as_str());
        if goes {
            let empty: Vec<String> = Vec::new();
            let node = NodeProto::new("Constant", empty, list1(tensor.name.clone())).with(
                attr_tensor("value", tensor.duplicate()),
            );
            proof {
                assert(names(empty@) =~= Seq::empty());
            }
            moved.push(node);
        }
        keep.push(!goes);
        i = i + 1;
    }
    proof {
        assert(all.take(i as int) =~= all);
        assert(keep@ =~= kept_flags);
        lemma_retained_views(graph.initializer@, keep@);
    }
    retain_items(&mut graph.initializer, &keep);
    let ghost added = moved@;
    graph.node.append(&mut moved);
    proof {
        let list = retained(all, moved_flags);
        assert(graph@.node =~= g.node + Seq::new(list.len(), |i: int| constant_node(list[i])));
    }
}

/// Drops the constants that nothing reads and that are no outputs.
pub fn prune_unused_initializers(graph: &mut GraphProto)
    ensures
        final(graph)@ == unused_dropped(old(graph)@),
{
    let ghost g = graph@;
    let mut used = NameSet::new();
    collect_referenced_value_names(graph, &mut used);
    add_value_names(&mut used, &graph.output);
    let ghost all = g.initializer;
    let mut keep: Vec<bool> = Vec::new();
    let mut i: usize = 0;
    while i < graph.initializer.len()
        invariant
            i <= graph.initializer.len(),
            g == graph@,
            all == g.initializer,
            forall|name: Seq<char>| #[trigger]
                used@.contains(name) == (referenced(g, name) || value_named(g.output, name)),
            keep@ =~= Seq::new(
                i as nat,
                |k: int| referenced(g, all[k].name) || value_named(g.output, all[k].name),
            ),
        decreases graph.initializer.len() - i,
    {
        proof {
            assert(all[i as int].name == graph.initializer@[i as int].name@);
        }
        keep.push(used.contains(graph.initializer[i].name.as_str()));
        i = i + 1;
    }
    proof {
        lemma_retained_views(graph.initializer@, keep@);
        assert(keep@ =~= Seq::new(
            all.len(),
            |k: int| referenced(g, all[k].name) || value_named(g.output, all[k].name),
        ));
    }
    retain_items(&mut graph.initializer, &keep);
    proof {
        assert(graph@.node =~= g.node);
    }
}

/// Removes duplicates among constants and inputs, and makes outputs that are constants nodes.
pub fn sanitize_graph_once(graph: &mut GraphProto, prune: bool)
    ensures
        final(graph)@ == sanitized(old(graph)@, prune),
{
    let ghost g = graph@;
    keep_sole_tensors(&mut graph.initializer);
    keep_sole_inputs(&mut graph.input, &graph.initializer);
    proof {
        assert(graph@.node =~= g.node);
    }
    materialize_initializer_only_outputs(graph);
    if prune {
        prune_unused_initializers(graph);
    }
}

} // verus!
