//! Removal of helper nodes that nothing needs.

use crate::converter::export::sanitize::{add_names, collect_referenced_value_names, referenced};
use crate::converter::export::validate::add_value_names;
use crate::converter::optimizer::fusions::lemma_retained_shorter;
use crate::name_set::NameSet;
use crate::nested::{attributes_subgraphs, collect_node};
use crate::onnx::{Graph, GraphProto, Node, NodeProto};
use crate::scope::{retain_graph_nodes, retained, value_named};
use crate::text::{names, same};
use vstd::prelude::*;

verus! {

/// Whether a node is of a kind that is dropped when nothing needs its outputs.
pub open spec fn helper_node(n: Node) -> bool {
    n.op_type == "Shape"@ || n.op_type == "Cast"@ || n.op_type == "Unsqueeze"@ || n.op_type
        == "Squeeze"@ || n.op_type == "Concat"@ || n.op_type == "Identity"@
}

/// Whether a node needs `name`: it reads it, or one of its subgraphs does.
pub open spec fn needs(n: Node, name: Seq<char>) -> bool {
    (name.len() > 0 && n.input.contains(name)) || exists|i: int|
        0 <= i < attributes_subgraphs(n.attribute).len() && referenced(
            #[trigger] attributes_subgraphs(n.attribute)[i],
            name,
        )
}

/// Whether one of a node's outputs, which are not empty, is needed by an output of the graph or by
/// a node that stays behind it.
pub open spec fn yields_live(g: Graph, i: int) -> bool
    decreases g.node.len() - i, 0nat,
{
    exists|j: int|
        0 <= j < g.node[i].output.len() && (#[trigger] g.node[i].output[j]).len() > 0 && (if 0 <= i
            < g.node.len() {
            live(g, i + 1, g.node[i].output[j])
        } else {
            false
        })
}

/// Whether `name` is an output of the graph or is needed by a node that stays, from position `i`
/// on. The walk goes from the last node to the first, so it follows chains of needs in a graph
/// whose nodes come after what they read.
pub open spec fn live(g: Graph, i: int, name: Seq<char>) -> bool
    decreases g.node.len() - i, 1nat,
{
    if i >= g.node.len() || i < 0 {
        value_named(g.output, name)
    } else {
        live(g, i + 1, name) || ((yields_live(g, i) || !helper_node(g.node[i])) && needs(
            g.node[i],
            name,
        ))
    }
}

/// Whether a node stays: it is no helper, or one of its outputs is needed.
pub open spec fn stays(g: Graph, i: int) -> bool {
    yields_live(g, i) || !helper_node(g.node[i])
}

/// Which nodes stay.
pub open spec fn stay_flags(g: Graph) -> Seq<bool> {
    Seq::new(g.node.len(), |i: int| stays(g, i))
}

/// Whether every node stays.
pub open spec fn all_stay(g: Graph) -> bool {
    forall|i: int| 0 <= i < g.node.len() ==> #[trigger] stays(g, i)
}

/// The graph without helper nodes that nothing needs, after as many walks as it takes until every
/// node stays.
pub open spec fn dead_dropped(g: Graph) -> Graph
    decreases g.node.len(),
    via dead_dropped_decreases
{
    if all_stay(g) {
        g
    } else {
        dead_dropped(Graph { node: retained(g.node, stay_flags(g)), ..g })
    }
}

#[via_fn]
proof fn dead_dropped_decreases(g: Graph) {
    lemma_stay_shorter(g);
}

proof fn lemma_stay_shorter(g: Graph)
    ensures
        !all_stay(g) ==> retained(g.node, stay_flags(g)).len() < g.node.len(),
{
    if !all_stay(g) {
        let i = choose|i: int| 0 <= i < g.node.len() && !#[trigger] stays(g, i);
        lemma_retained_shorter(g.node, stay_flags(g), i);
    }
}

/// After pruning every node stays.
pub proof fn lemma_dead_dropped_stable(g: Graph)
    ensures
        all_stay(dead_dropped(g)),
        dead_dropped(dead_dropped(g)) == dead_dropped(g),
    decreases g.node.len(),
{
    if !all_stay(g) {
        lemma_stay_shorter(g);
        lemma_dead_dropped_stable(Graph { node: retained(g.node, stay_flags(g)), ..g });
    }
}

fn is_pruneable_helper_node(node: &NodeProto) -> (r: bool)
    ensures
        r == helper_node(node@),
{
    let op = node.op_type.as_str();
    same(op, "Shape") || same(op, "Cast") || same(op, "Unsqueeze") || same(op, "Squeeze") || same(
        op,
        "Concat",
    ) || same(op, "Identity")
}

fn add_node_dependencies_to_live(node: &NodeProto, set: &mut NameSet)
    ensures
        forall|name: Seq<char>| #[trigger]
            final(set)@.contains(name) == (old(set)@.contains(name) || needs(node@, name)),
{
    add_names(set, &node.input);
    let ghost mid = set@;
    let ghost inner = attributes_subgraphs(node@.attribute);
    let subs = collect_node(node);
    let mut i: usize = 0;
    while i < subs.len()
        invariant
            i <= subs.len(),
            inner == attributes_subgraphs(node@.attribute),
            subs.len() == inner.len(),
            forall|k: int| 0 <= k < subs.len() ==> (#[trigger] subs@[k])@ == inner[k],
            forall|name: Seq<char>| #[trigger]
                set@.contains(name) == (mid.contains(name) || exists|k: int|
                    0 <= k < i && referenced(#[trigger] inner[k], name)),
        decreases subs.len() - i,
    {
        let ghost before = set@;
        proof {
            assert(subs@[i as int]@ == inner[i as int]);
        }
        collect_referenced_value_names(subs[i], set);
        proof {
            assert forall|name: Seq<char>| #[trigger]
                set@.contains(name) == (mid.contains(name) || exists|k: int|
                    0 <= k < i + 1 && referenced(#[trigger] inner[k], name)) by {
                assert(before.contains(name) == (mid.contains(name) || exists|k: int|
                    0 <= k < i && referenced(#[trigger] inner[k], name)));
            }
        }
        i = i + 1;
    }
    proof {
        assert forall|name: Seq<char>| #[trigger]
            set@.contains(name) == (old(set)@.contains(name) || needs(node@, name)) by {
            assert(mid.contains(name) == (old(set)@.contains(name) || (name.len() > 0 && names(
                node.input@,
            ).contains(name))));
        }
    }
}

fn some_output_live(node: &NodeProto, set: &NameSet) -> (r: bool)
    ensures
        r == exists|j: int|
            0 <= j < node@.output.len() && (#[trigger] node@.output[j]).len() > 0 && set@.contains(
                node@.output[j],
            ),
{
    let mut j: usize = 0;
    while j < node.output.len()
        invariant
            j <= node.output.len(),
            forall|k: int|
                0 <= k < j ==> !((#[trigger] node@.output[k]).len() > 0 && set@.contains(
                    node@.output[k],
                )),
        decreases node.output.len() - j,
    {
        proof {
            assert(node@.output[j as int] == node.output@[j as int]@);
        }
        if !node.output[j].as_str().is_empty() && set.contains(node.output[j].as_str()) {
            proof {
                assert(node@.output[j as int].len() > 0);
            }
            return true;
        }
        j = j + 1;
    }
    false
}

fn prune_dead_nodes_once(graph: &mut GraphProto) -> (changed: bool)
    ensures
        changed == !all_stay(old(graph)@),
        changed ==> final(graph)@ == (Graph {
            node: retained(old(graph)@.node, stay_flags(old(graph)@)),
            ..old(graph)@
        }),
        changed ==> final(graph).node.len() < old(graph).node.len(),
        !changed ==> *final(graph) == *old(graph),
{
    let ghost g = graph@;
    let mut set = NameSet::new();
    add_value_names(&mut set, &graph.output);
    let count = graph.node.len();
    let mut keep: Vec<bool> = Vec::new();
    let mut k: usize = 0;
    while k < count
        invariant
            k <= count,
            keep.len() == k,
        decreases count - k,
    {
        keep.push(true);
        k = k + 1;
    }
    let mut all = true;
    let mut i: usize = count;
    while i > 0
        invariant
            i <= count,
            count == graph.node.len(),
            g == graph@,
            *graph == *old(graph),
            keep.len() == count,
            forall|name: Seq<char>| #[trigger] set@.contains(name) == live(g, i as int, name),
            forall|j: int| i <= j < count ==> #[trigger] keep@[j] == stays(g, j),
            all == forall|j: int| i <= j < count ==> #[trigger] stays(g, j),
        decreases i,
    {
        i = i - 1;
        let ghost before = set@;
        let node = &graph.node[i];
        proof {
            assert(g.node[i as int] == node@);
            assert forall|j: int| 0 <= j < node@.output.len() && (#[trigger] node@.output[j]).len()
                > 0 implies before.contains(node@.output[j]) == live(
                g,
                i + 1,
                node@.output[j],
            ) by {}
        }
        let yields = some_output_live(node, &set);
        proof {
            assert(yields == yields_live(g, i as int));
        }
        if yields || !is_pruneable_helper_node(node) {
            add_node_dependencies_to_live(node, &mut set);
            keep[i] = true;
        } else {
            keep[i] = false;
            all = false;
        }
        proof {
            assert forall|name: Seq<char>| #[trigger]
                set@.contains(name) == live(g, i as int, name) by {
                assert(before.contains(name) == live(g, i + 1, name));
            }
            if all {
                assert forall|j: int| i <= j < count implies #[trigger] stays(g, j) by {
                    if j > i {
                        assert(i + 1 <= j);
                    }
                }
            } else if stays(g, i as int) {
            } else {
                assert(!stays(g, i as int));
            }
        }
    }
    if all {
        return false;
    }
    proof {
        assert(keep@ =~= stay_flags(g));
        let j = choose|j: int| 0 <= j < count && !#[trigger] stays(g, j);
        lemma_retained_shorter(g.node, keep@, j);
    }
    retain_graph_nodes(graph, &keep);
    true
}

/// Drops helper nodes that nothing needs until every node stays.
pub fn prune_dead_nodes_all(graph: &mut GraphProto)
    ensures
        final(graph)@ == dead_dropped(old(graph)@),
{
    let mut more = true;
    while more
        invariant
            more ==> dead_dropped(old(graph)@) == dead_dropped(graph@),
            !more ==> dead_dropped(old(graph)@) == graph@,
        decreases
            graph.node.len(),
            if more {
                1int
            } else {
                0int
            },
    {
        more = prune_dead_nodes_once(graph);
    }
}

} // verus!
