//! Which graphs pass the check before export.

use crate::converter::export::model::{exported, model_of};
use crate::converter::export::prepared;
use crate::converter::export::validate::{
    graph_checked, nodes_checked, repeated, repeated_output, scope_of, seen_before,
    subgraphs_checked, undefined_input, undefined_output,
};
use crate::nested::{attributes_subgraphs, height, lemma_node_subgraph_height};
use crate::onnx::{graph_of, Graph, Node};
use crate::scope::produced;
use vstd::prelude::*;

verus! {

/// Whether no value is produced twice. An output without a name is no value.
pub open spec fn produced_once(list: Seq<Node>) -> bool {
    forall|i: int, a: int, j: int, b: int|
        0 <= i < list.len() && 0 <= j < list.len() && 0 <= a < list[i].output.len() && 0 <= b
            < list[j].output.len() && (#[trigger] list[i].output[a]).len() > 0 && list[i].output[a]
            == #[trigger] list[j].output[b] ==> i == j && a == b
}

/// Whether every value that a node reads is in scope. An input without a name is left out.
pub open spec fn reads_defined(n: Node, scope: Set<Seq<char>>) -> bool {
    forall|a: int|
        0 <= a < n.input.len() && (#[trigger] n.input[a]).len() > 0 ==> scope.contains(n.input[a])
}

/// Whether a graph is valid inside a scope: no value is produced twice, every value that a node
/// reads is defined, so is every output, and every subgraph is valid inside the graph.
pub open spec fn valid(g: Graph, outer: Set<Seq<char>>) -> bool
    decreases height(g),
    via valid_decreases
{
    let scope = scope_of(g, outer);
    &&& produced_once(g.node)
    &&& forall|i: int| 0 <= i < g.node.len() ==> reads_defined(#[trigger] g.node[i], scope)
    &&& forall|i: int, j: int|
        0 <= i < g.node.len() && 0 <= j < attributes_subgraphs(g.node[i].attribute).len() ==> valid(
            #[trigger] attributes_subgraphs(g.node[i].attribute)[j],
            scope,
        )
    &&& forall|j: int| 0 <= j < g.output.len() ==> scope.contains((#[trigger] g.output[j]).name)
}

#[via_fn]
proof fn valid_decreases(g: Graph, outer: Set<Seq<char>>) {
    assert forall|i: int, j: int|
        0 <= i < g.node.len() && 0 <= j < attributes_subgraphs(
            g.node[i].attribute,
        ).len() implies height(#[trigger] attributes_subgraphs(g.node[i].attribute)[j]) < height(
        g,
    ) by {
        lemma_node_subgraph_height(g, i, j);
    }
}

proof fn lemma_undefined_input(list: Seq<Seq<char>>, scope: Set<Seq<char>>, j: int)
    requires
        0 <= j,
    ensures
        undefined_input(list, scope, j) is None <==> (forall|a: int|
            j <= a < list.len() && (#[trigger] list[a]).len() > 0 ==> scope.contains(list[a])),
    decreases list.len() - j,
{
    if j < list.len() {
        lemma_undefined_input(list, scope, j + 1);
    }
}

proof fn lemma_undefined_output(g: Graph, scope: Set<Seq<char>>, j: int)
    requires
        0 <= j,
    ensures
        undefined_output(g, scope, j) is None <==> (forall|a: int|
            j <= a < g.output.len() ==> scope.contains((#[trigger] g.output[a]).name)),
    decreases g.output.len() - j,
{
    if j < g.output.len() {
        lemma_undefined_output(g, scope, j + 1);
    }
}

proof fn lemma_repeated_output(list: Seq<Node>, i: int, j: nat)
    requires
        0 <= i < list.len(),
        j <= list[i].output.len(),
    ensures
        repeated_output(list, i, j) is None <==> (forall|a: int|
            0 <= a < j && (#[trigger] list[i].output[a]).len() > 0 ==> !seen_before(
                list,
                i,
                a,
                list[i].output[a],
            )),
    decreases j,
{
    if j > 0 {
        lemma_repeated_output(list, i, (j - 1) as nat);
        assert(list[i].output[j - 1] == list[i].output[j - 1]);
    }
}

proof fn lemma_repeated(list: Seq<Node>, k: nat)
    requires
        k <= list.len(),
    ensures
        repeated(list, k) is None <==> (forall|i: int, a: int|
            0 <= i < k && 0 <= a < list[i].output.len() && (#[trigger] list[i].output[a]).len() > 0
                ==> !seen_before(list, i, a, list[i].output[a])),
    decreases k,
{
    if k > 0 {
        lemma_repeated(list, (k - 1) as nat);
        lemma_repeated_output(list, k - 1, list[k - 1].output.len());
    }
}

proof fn lemma_produced_once(list: Seq<Node>)
    ensures
        repeated(list, list.len()) is None <==> produced_once(list),
{
    lemma_repeated(list, list.len());
    if repeated(list, list.len()) is None {
        assert forall|i: int, a: int, j: int, b: int|
            0 <= i < list.len() && 0 <= j < list.len() && 0 <= a < list[i].output.len() && 0 <= b
                < list[j].output.len() && (#[trigger] list[i].output[a]).len() > 0
                && list[i].output[a] == #[trigger] list[j].output[b] implies i == j && a == b by {
            let name = list[i].output[a];
            if i < j {
                assert(list.take(j)[i].output.contains(name));
                assert(seen_before(list, j, b, name));
            } else if j < i {
                assert(list[j].output[b] == name);
                assert(list.take(i)[j].output.contains(name));
                assert(seen_before(list, i, a, name));
            } else if a < b {
                assert(list[j].output.take(b)[a] == name);
                assert(seen_before(list, j, b, name));
            } else if b < a {
                assert(list[i].output.take(a)[b] == name);
                assert(seen_before(list, i, a, name));
            }
        }
    }
    if produced_once(list) {
        assert forall|i: int, a: int|
            0 <= i < list.len() && 0 <= a < list[i].output.len() && (
            #[trigger] list[i].output[a]).len() > 0 implies !seen_before(
            list,
            i,
            a,
            list[i].output[a],
        ) by {
            let name = list[i].output[a];
            if produced(list.take(i), name) {
                let j = choose|j: int|
                    0 <= j < list.take(i).len() && #[trigger] list.take(i)[j].output.contains(name);
                let b = choose|b: int|
                    0 <= b < list[j].output.len() && list[j].output[b] == name;
                assert(list[i].output[a] == list[j].output[b]);
            }
            if list[i].output.take(a).contains(name) {
                let b = choose|b: int| 0 <= b < a && list[i].output.take(a)[b] == name;
                assert(list[i].output[a] == list[i].output[b]);
            }
        }
    }
}

proof fn lemma_subgraphs_valid(g: Graph, scope: Set<Seq<char>>, i: int, j: nat)
    requires
        0 <= i < g.node.len(),
        j <= attributes_subgraphs(g.node[i].attribute).len(),
    ensures
        subgraphs_checked(g, scope, i, j) is Ok <==> (forall|s: int|
            0 <= s < j ==> valid(
                #[trigger] attributes_subgraphs(g.node[i].attribute)[s],
                scope,
            )),
    decreases height(g), 0nat, j,
{
    if j > 0 {
        lemma_subgraphs_valid(g, scope, i, (j - 1) as nat);
        lemma_node_subgraph_height(g, i, j - 1);
        law_check_finds_invalid(attributes_subgraphs(g.node[i].attribute)[j - 1], scope);
    }
}

proof fn lemma_nodes_valid(g: Graph, scope: Set<Seq<char>>, k: nat)
    requires
        k <= g.node.len(),
    ensures
        nodes_checked(g, scope, k) is Ok <==> (forall|i: int|
            0 <= i < k ==> reads_defined(#[trigger] g.node[i], scope)) && (forall|i: int, j: int|
            0 <= i < k && 0 <= j < attributes_subgraphs(g.node[i].attribute).len() ==> valid(
                #[trigger] attributes_subgraphs(g.node[i].attribute)[j],
                scope,
            )),
    decreases height(g), 1nat, k,
{
    if k > 0 {
        lemma_nodes_valid(g, scope, (k - 1) as nat);
        lemma_undefined_input(g.node[k - 1].input, scope, 0);
        lemma_subgraphs_valid(
            g,
            scope,
            k - 1,
            attributes_subgraphs(g.node[k - 1].attribute).len(),
        );
    }
}

/// The check before export passes exactly the graphs that are valid.
pub proof fn law_check_finds_invalid(g: Graph, outer: Set<Seq<char>>)
    ensures
        graph_checked(g, outer) is Ok <==> valid(g, outer),
    decreases height(g), 2nat, 0nat,
{
    let scope = scope_of(g, outer);
    lemma_produced_once(g.node);
    lemma_nodes_valid(g, scope, g.node.len());
    lemma_undefined_output(g, scope, 0);
}

/// A graph that is exported is valid, and the model holds the prepared graph and names the opset
/// that was asked for.
pub proof fn law_exported_graph_is_valid(g: Graph, opset: i64)
    requires
        exported(g, opset).1 is Ok,
    ensures
        prepared(g).1 is Ok,
        valid(prepared(g).0, Set::empty()),
        exported(g, opset).1->Ok_0 == model_of(prepared(g).0, opset),
        exported(g, opset).0 == graph_of(""@),
{
    law_check_finds_invalid(prepared(g).0, Set::empty());
}

} // verus!
