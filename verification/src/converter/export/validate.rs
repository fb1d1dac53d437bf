//! The check that every value a graph refers to is defined, and that no two nodes define the same.

use crate::error::{message, outcome, Error, ErrorView};
use crate::nested::{attributes_subgraphs, collect_node, height, lemma_node_subgraph_height};
use crate::converter::optimizer::batch_norm::lemma_produced_step;
use crate::converter::optimizer::facts::lemma_push_contains;
use crate::name_set::NameSet;
use crate::onnx::{views, Graph, GraphProto, Node, NodeProto, TensorProto, ValueInfoProto};
use crate::scope::{produced, tensor_named, value_named};
use crate::text::{join3, join4, names};
use vstd::prelude::*;

verus! {

/// Whether a name means something inside a graph: it does outside, or it is a constant, an input
/// or what a node produces. The empty name is none of these last.
pub open spec fn defined(g: Graph, outer: Set<Seq<char>>, name: Seq<char>) -> bool {
    outer.contains(name) || tensor_named(g.initializer, name) || value_named(g.input, name) || (
    name.len() > 0 && produced(g.node, name))
}

/// The names that mean something inside a graph.
pub open spec fn scope_of(g: Graph, outer: Set<Seq<char>>) -> Set<Seq<char>> {
    Set::new(|name: Seq<char>| defined(g, outer, name))
}

/// Whether `name` is among the first `j` outputs of node `i`, or among the outputs of an earlier
/// node.
pub open spec fn seen_before(list: Seq<Node>, i: int, j: int, name: Seq<char>) -> bool {
    produced(list.take(i), name) || list[i].output.take(j).contains(name)
}

/// The first non-empty output, among the first `j` of node `i`, that was seen before.
pub open spec fn repeated_output(list: Seq<Node>, i: int, j: nat) -> Option<Seq<char>>
    decreases j,
{
    if j == 0 {
        None
    } else if repeated_output(list, i, (j - 1) as nat) is Some {
        repeated_output(list, i, (j - 1) as nat)
    } else if list[i].output[j - 1].len() > 0 && seen_before(
        list,
        i,
        j - 1,
        list[i].output[j - 1],
    ) {
        Some(list[i].output[j - 1])
    } else {
        None
    }
}

/// The first non-empty output of the first `k` nodes that was seen before.
pub open spec fn repeated(list: Seq<Node>, k: nat) -> Option<Seq<char>>
    decreases k,
{
    if k == 0 {
        None
    } else if repeated(list, (k - 1) as nat) is Some {
        repeated(list, (k - 1) as nat)
    } else {
        repeated_output(list, k - 1, list[k - 1].output.len())
    }
}

/// The first non-empty name, from position `j` on, that means nothing.
pub open spec fn undefined_input(list: Seq<Seq<char>>, scope: Set<Seq<char>>, j: int) -> Option<
    Seq<char>,
>
    decreases list.len() - j,
{
    if j < 0 || j >= list.len() {
        None
    } else if list[j].len() > 0 && !scope.contains(list[j]) {
        Some(list[j])
    } else {
        undefined_input(list, scope, j + 1)
    }
}

/// The first output, from position `j` on, that means nothing.
pub open spec fn undefined_output(g: Graph, scope: Set<Seq<char>>, j: int) -> Option<Seq<char>>
    decreases g.output.len() - j,
{
    if j < 0 || j >= g.output.len() {
        None
    } else if !scope.contains(g.output[j].name) {
        Some(g.output[j].name)
    } else {
        undefined_output(g, scope, j + 1)
    }
}

/// The error for a value that two nodes produce.
pub open spec fn produced_twice(name: Seq<char>) -> ErrorView {
    message("tensor "@ + name + " is produced by more than one node"@)
}

/// The error for a node that reads what is not defined.
pub open spec fn reads_undefined(op: Seq<char>, name: Seq<char>) -> ErrorView {
    message("node "@ + op + " references undefined tensor "@ + name)
}

/// The error for an output that is not defined.
pub open spec fn never_produced(name: Seq<char>) -> ErrorView {
    message("graph output "@ + name + " is never produced by any node"@)
}

/// The check of the first `j` subgraphs of node `i`: the first error counts.
pub open spec fn subgraphs_checked(g: Graph, scope: Set<Seq<char>>, i: int, j: nat) -> Result<
    (),
    ErrorView,
>
    decreases height(g), 0nat, j,
    via subgraphs_checked_decreases
{
    let subs = attributes_subgraphs(g.node[i].attribute);
    if i < 0 || i >= g.node.len() || j == 0 || j > subs.len() {
        Ok(())
    } else {
        match subgraphs_checked(g, scope, i, (j - 1) as nat) {
            Err(e) => Err(e),
            Ok(_) => graph_checked(subs[j - 1], scope),
        }
    }
}

#[via_fn]
proof fn subgraphs_checked_decreases(g: Graph, scope: Set<Seq<char>>, i: int, j: nat) {
    let subs = attributes_subgraphs(g.node[i].attribute);
    if !(i < 0 || i >= g.node.len() || j == 0 || j > subs.len()) {
        lemma_node_subgraph_height(g, i, j - 1);
    }
}

/// The check of the first `k` nodes: of each its inputs and then its subgraphs.
pub open spec fn nodes_checked(g: Graph, scope: Set<Seq<char>>, k: nat) -> Result<(), ErrorView>
    decreases height(g), 1nat, k,
{
    if k == 0 || k > g.node.len() {
        Ok(())
    } else {
        match nodes_checked(g, scope, (k - 1) as nat) {
            Err(e) => Err(e),
            Ok(_) => match undefined_input(g.node[k - 1].input, scope, 0) {
                Some(name) => Err(reads_undefined(g.node[k - 1].op_type, name)),
                None => subgraphs_checked(
                    g,
                    scope,
                    k - 1,
                    attributes_subgraphs(g.node[k - 1].attribute).len(),
                ),
            },
        }
    }
}

/// The check of a graph inside a scope: no two nodes produce the same value, every node reads only
/// what is defined, and every output is defined.
pub open spec fn graph_checked(g: Graph, outer: Set<Seq<char>>) -> Result<(), ErrorView>
    decreases height(g), 2nat, 0nat,
{
    let scope = scope_of(g, outer);
    match repeated(g.node, g.node.len()) {
        Some(name) => Err(produced_twice(name)),
        None => match nodes_checked(g, scope, g.node.len()) {
            Err(e) => Err(e),
            Ok(_) => match undefined_output(g, scope, 0) {
                Some(name) => Err(never_produced(name)),
                None => Ok(()),
            },
        },
    }
}

proof fn lemma_repeated_stays(list: Seq<Node>, k: nat, n: nat)
    requires
        k <= n,
        repeated(list, k) is Some,
    ensures
        repeated(list, n) == repeated(list, k),
    decreases n,
{
    if k < n {
        lemma_repeated_stays(list, k, (n - 1) as nat);
    }
}

proof fn lemma_repeated_output_stays(list: Seq<Node>, i: int, j: nat, n: nat)
    requires
        j <= n,
        repeated_output(list, i, j) is Some,
    ensures
        repeated_output(list, i, n) == repeated_output(list, i, j),
    decreases n,
{
    if j < n {
        lemma_repeated_output_stays(list, i, j, (n - 1) as nat);
    }
}

/// Adds the names that a graph defines to those that it finds, or finds a value that two nodes
/// produce.
fn define_all(graph: &GraphProto, outer: &NameSet) -> (r: Result<NameSet, Error>)
    ensures
        match r {
            Ok(scope) => repeated(graph@.node, graph@.node.len()) is None && scope@ == scope_of(
                graph@,
                outer@,
            ),
            Err(e) => repeated(graph@.node, graph@.node.len()) matches Some(name) && e@
                == produced_twice(name),
        },
{
    let ghost g = graph@;
    let mut scope = outer.duplicate();
    add_tensor_names(&mut scope, &graph.initializer);
    add_value_names(&mut scope, &graph.input);
    let ghost base = scope@;
    let mut seen = NameSet::new();
    let mut i: usize = 0;
    proof {
        assert forall|name: Seq<char>| !produced(g.node.take(0), name) by {}
    }
    while i < graph.node.len()
        invariant
            i <= graph.node.len(),
            g == graph@,
            repeated(g.node, i as nat) is None,
            forall|name: Seq<char>| #[trigger]
                seen@.contains(name) == (name.len() > 0 && produced(g.node.take(i as int), name)),
            forall|name: Seq<char>| #[trigger]
                scope@.contains(name) == (base.contains(name) || (name.len() > 0 && produced(
                    g.node.take(i as int),
                    name,
                ))),
        decreases graph.node.len() - i,
    {
        let outputs = &graph.node[i].output;
        let ghost list = names(outputs@);
        let ghost seen0 = seen@;
        let ghost scope0 = scope@;
        proof {
            assert(g.node[i as int].output == list);
        }
        let mut j: usize = 0;
        while j < outputs.len()
            invariant
                j <= outputs.len(),
                i < graph.node.len(),
                g == graph@,
                list == names(outputs@),
                g.node[i as int].output == list,
                repeated(g.node, i as nat) is None,
                repeated_output(g.node, i as int, j as nat) is None,
                forall|name: Seq<char>| #[trigger]
                    seen0.contains(name) == (name.len() > 0 && produced(
                        g.node.take(i as int),
                        name,
                    )),
                forall|name: Seq<char>| #[trigger]
                    seen@.contains(name) == (seen0.contains(name) || (name.len() > 0 && list.take(
                        j as int,
                    ).contains(name))),
                forall|name: Seq<char>| #[trigger]
                    scope@.contains(name) == (scope0.contains(name) || (name.len() > 0
                        && list.take(j as int).contains(name))),
            decreases outputs.len() - j,
        {
            let ghost seen1 = seen@;
            let ghost scope1 = scope@;
            let name = outputs[j].as_str();
            proof {
                assert(list[j as int] == name@);
                assert(list.take(j + 1) =~= list.take(j as int).push(list[j as int]));
            }
            if name.is_empty() {
            } else {
                if !seen.insert(name) {
                    proof {
                        assert(seen1.contains(name@));
                        assert(seen0.contains(name@) || list.take(j as int).contains(name@));
                        assert(seen_before(g.node, i as int, j as int, name@));
                        assert(repeated_output(g.node, i as int, (j + 1) as nat) == Some(name@));
                        lemma_repeated_output_stays(
                            g.node,
                            i as int,
                            (j + 1) as nat,
                            list.len(),
                        );
                        assert(repeated(g.node, (i + 1) as nat) == Some(name@));
                        lemma_repeated_stays(g.node, (i + 1) as nat, g.node.len());
                    }
                    return Err(
                        Error::owned(
                            join3("tensor ", name, " is produced by more than one node"),
                        ),
                    );
                }
                scope.insert(name);
            }
            proof {
                assert(!(name@.len() > 0 && seen_before(g.node, i as int, j as int, name@))) by {
                    if name@.len() > 0 {
                        assert(!seen1.contains(name@));
                        assert(!seen0.contains(name@));
                    }
                }
                assert forall|x: Seq<char>| #[trigger]
                    seen@.contains(x) == (seen0.contains(x) || (x.len() > 0 && list.take(
                        j + 1,
                    ).contains(x))) by {
                    lemma_push_contains(list.take(j as int), list[j as int], x);
                    assert(seen1.contains(x) == (seen0.contains(x) || (x.len() > 0 && list.take(
                        j as int,
                    ).contains(x))));
                }
                assert forall|x: Seq<char>| #[trigger]
                    scope@.contains(x) == (scope0.contains(x) || (x.len() > 0 && list.take(
                        j + 1,
                    ).contains(x))) by {
                    lemma_push_contains(list.take(j as int), list[j as int], x);
                    assert(scope1.contains(x) == (scope0.contains(x) || (x.len() > 0 && list.take(
                        j as int,
                    ).contains(x))));
                }
            }
            j = j + 1;
        }
        proof {
            assert(list.take(j as int) =~= list);
            assert forall|x: Seq<char>| #[trigger]
                seen@.contains(x) == (x.len() > 0 && produced(g.node.take(i + 1), x)) by {
                lemma_produced_step(g.node, i as int, x);
                assert(seen0.contains(x) == (x.len() > 0 && produced(g.node.take(i as int), x)));
            }
            assert forall|x: Seq<char>| #[trigger]
                scope@.contains(x) == (base.contains(x) || (x.len() > 0 && produced(
                    g.node.take(i + 1),
                    x,
                ))) by {
                lemma_produced_step(g.node, i as int, x);
                assert(scope0.contains(x) == (base.contains(x) || (x.len() > 0 && produced(
                    g.node.take(i as int),
                    x,
                ))));
            }
        }
        i = i + 1;
    }
    proof {
        assert(g.node.take(i as int) =~= g.node);
        assert(scope@ =~= scope_of(g, outer@));
    }
    Ok(scope)
}

/// Adds the names of tensors to a set.
pub fn add_tensor_names(set: &mut NameSet, list: &Vec<TensorProto>)
    ensures
        forall|name: Seq<char>| #[trigger]
            final(set)@.contains(name) == (old(set)@.contains(name) || tensor_named(
                views(list@),
                name,
            )),
{
    let ghost all = views(list@);
    let mut i: usize = 0;
    while i < list.len()
        invariant
            i <= list.len(),
            all == views(list@),
            forall|name: Seq<char>| #[trigger]
                set@.contains(name) == (old(set)@.contains(name) || exists|k: int|
                    0 <= k < i && #[trigger] all[k].name == name),
        decreases list.len() - i,
    {
        let ghost before = set@;
        set.insert(list[i].name.as_str());
        proof {
            assert(all[i as int].name == list@[i as int].name@);
            assert forall|name: Seq<char>| #[trigger]
                set@.contains(name) == (old(set)@.contains(name) || exists|k: int|
                    0 <= k < i + 1 && #[trigger] all[k].name == name) by {
                assert(before.contains(name) == (old(set)@.contains(name) || exists|k: int|
                    0 <= k < i && #[trigger] all[k].name == name));
            }
        }
        i = i + 1;
    }
}

/// Adds the names of values to a set.
pub fn add_value_names(set: &mut NameSet, list: &Vec<ValueInfoProto>)
    ensures
        forall|name: Seq<char>| #[trigger]
            final(set)@.contains(name) == (old(set)@.contains(name) || value_named(
                views(list@),
                name,
            )),
{
    let ghost all = views(list@);
    let mut i: usize = 0;
    while i < list.len()
        invariant
            i <= list.len(),
            all == views(list@),
            forall|name: Seq<char>| #[trigger]
                set@.contains(name) == (old(set)@.contains(name) || exists|k: int|
                    0 <= k < i && #[trigger] all[k].name == name),
        decreases list.len() - i,
    {
        let ghost before = set@;
        set.insert(list[i].name.as_str());
        proof {
            assert(all[i as int].name == list@[i as int].name@);
            assert forall|name: Seq<char>| #[trigger]
                set@.contains(name) == (old(set)@.contains(name) || exists|k: int|
                    0 <= k < i + 1 && #[trigger] all[k].name == name) by {
                assert(before.contains(name) == (old(set)@.contains(name) || exists|k: int|
                    0 <= k < i && #[trigger] all[k].name == name));
            }
        }
        i = i + 1;
    }
}

fn find_undefined_input<'a>(list: &'a Vec<String>, scope: &NameSet) -> (r: Option<&'a String>)
    ensures
        match r {
            Some(name) => undefined_input(names(list@), scope@, 0) == Some(name@),
            None => undefined_input(names(list@), scope@, 0) is None,
        },
{
    let mut j: usize = 0;
    while j < list.len()
        invariant
            j <= list.len(),
            undefined_input(names(list@), scope@, 0) == undefined_input(
                names(list@),
                scope@,
                j as int,
            ),
        decreases list.len() - j,
    {
        if !list[j].as_str().is_empty() && !scope.contains(list[j].as_str()) {
            return Some(&list[j]);
        }
        j = j + 1;
    }
    None
}

proof fn lemma_nodes_checked_stays(g: Graph, scope: Set<Seq<char>>, k: nat, n: nat)
    requires
        k <= n <= g.node.len(),
        nodes_checked(g, scope, k) is Err,
    ensures
        nodes_checked(g, scope, n) == nodes_checked(g, scope, k),
    decreases n,
{
    if k < n {
        lemma_nodes_checked_stays(g, scope, k, (n - 1) as nat);
    }
}

proof fn lemma_subgraphs_checked_stays(g: Graph, scope: Set<Seq<char>>, i: int, k: nat, n: nat)
    requires
        0 <= i < g.node.len(),
        k <= n <= attributes_subgraphs(g.node[i].attribute).len(),
        subgraphs_checked(g, scope, i, k) is Err,
    ensures
        subgraphs_checked(g, scope, i, n) == subgraphs_checked(g, scope, i, k),
    decreases n,
{
    if k < n {
        lemma_subgraphs_checked_stays(g, scope, i, k, (n - 1) as nat);
    }
}

fn check_subgraphs(node: &NodeProto, scope: &NameSet, Ghost(g): Ghost<Graph>, Ghost(i): Ghost<int>) -> (r: Result<
    (),
    Error,
>)
    requires
        0 <= i < g.node.len(),
        g.node[i] == node@,
    ensures
        outcome(r) == subgraphs_checked(
            g,
            scope@,
            i,
            attributes_subgraphs(g.node[i].attribute).len(),
        ),
    decreases height(g), 0nat,
{
    let subs = collect_node(node);
    let mut j: usize = 0;
    while j < subs.len()
        invariant
            j <= subs.len(),
            0 <= i < g.node.len(),
            g.node[i] == node@,
            subs.len() == attributes_subgraphs(node@.attribute).len(),
            forall|k: int|
                0 <= k < subs.len() ==> (#[trigger] subs@[k])@ == attributes_subgraphs(
                    node@.attribute,
                )[k],
            subgraphs_checked(g, scope@, i, j as nat) == Ok::<(), ErrorView>(()),
        decreases subs.len() - j,
    {
        proof {
            lemma_node_subgraph_height(g, i, j as int);
            assert(subs@[j as int]@ == attributes_subgraphs(node@.attribute)[j as int]);
        }
        match validate_graph(subs[j], scope) {
            Ok(_) => {},
            Err(e) => {
                proof {
                    assert(subgraphs_checked(g, scope@, i, (j + 1) as nat) == Err::<
                        (),
                        ErrorView,
                    >(e@));
                    lemma_subgraphs_checked_stays(
                        g,
                        scope@,
                        i,
                        (j + 1) as nat,
                        attributes_subgraphs(node@.attribute).len(),
                    );
                }
                return Err(e);
            },
        }
        j = j + 1;
    }
    Ok(())
}

/// Checks a graph inside a scope.
pub fn validate_graph(graph: &GraphProto, outer: &NameSet) -> (r: Result<(), Error>)
    ensures
        outcome(r) == graph_checked(graph@, outer@),
    decreases height(graph@), 1nat,
{
    let ghost g = graph@;
    let scope = match define_all(graph, outer) {
        Ok(scope) => scope,
        Err(e) => {
            return Err(e);
        },
    };
    let mut i: usize = 0;
    while i < graph.node.len()
        invariant
            i <= graph.node.len(),
            g == graph@,
            repeated(g.node, g.node.len()) is None,
            scope@ == scope_of(g, outer@),
            nodes_checked(g, scope@, i as nat) is Ok,
        decreases graph.node.len() - i,
    {
        let node = &graph.node[i];
        proof {
            assert(g.node[i as int] == node@);
        }
        match find_undefined_input(&node.input, &scope) {
            Some(name) => {
                proof {
                    assert(nodes_checked(g, scope@, (i + 1) as nat) == Err::<(), ErrorView>(
                        reads_undefined(node@.op_type, name@),
                    ));
                    lemma_nodes_checked_stays(g, scope@, (i + 1) as nat, g.node.len());
                }
                return Err(
                    Error::owned(
                        join4(
                            "node ",
                            node.op_type.as_str(),
                            " references undefined tensor ",
                            name.as_str(),
                        ),
                    ),
                );
            },
            None => {},
        }
        match check_subgraphs(node, &scope, Ghost(g), Ghost(i as int)) {
            Ok(_) => {},
            Err(e) => {
                proof {
                    assert(nodes_checked(g, scope@, (i + 1) as nat) == Err::<(), ErrorView>(e@));
                    lemma_nodes_checked_stays(g, scope@, (i + 1) as nat, g.node.len());
                }
                return Err(e);
            },
        }
        i = i + 1;
    }
    let mut j: usize = 0;
    while j < graph.output.len()
        invariant
            j <= graph.output.len(),
            g == graph@,
            repeated(g.node, g.node.len()) is None,
            scope@ == scope_of(g, outer@),
            nodes_checked(g, scope@, g.node.len()) is Ok,
            undefined_output(g, scope@, 0) == undefined_output(g, scope@, j as int),
        decreases graph.output.len() - j,
    {
        proof {
            assert(g.output[j as int] == graph.output@[j as int]@);
        }
        if !scope.contains(graph.output[j].name.as_str()) {
            return Err(
                Error::owned(
                    join3(
                        "graph output ",
                        graph.output[j].name.as_str(),
                        " is never produced by any node",
                    ),
                ),
            );
        }
        j = j + 1;
    }
    Ok(())
}

} // verus!
