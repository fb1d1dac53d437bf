//! The last passes over a graph before it is written, and the check of the result.

use crate::converter::export::canonical::{canonicalize_graph_once, canonicalized};
use crate::converter::export::prune::{dead_dropped, prune_dead_nodes_all};
use crate::converter::export::sanitize::{
    prune_unused_initializers, sanitize_graph_once, sanitized, unused_dropped,
};
use crate::error::{message, outcome, Error, ErrorView};
use crate::nested::{
    attach, blanks, detach, height, lemma_subgraph_height, lemma_with_subgraphs, subgraphs,
    with_subgraphs,
};
use crate::onnx::{views, Graph, GraphProto};
use vstd::prelude::*;

pub mod canonical;
pub mod model;
pub mod prune;
pub mod sanitize;
pub mod validate;

verus! {

/// How deep subgraphs may nest. The root graph is at depth zero.
pub const MAX_EXPORT_SUBGRAPH_DEPTH: usize = 128;

/// A cleanup that is done to every subgraph and then to the graph that holds them.
#[derive(Clone, Copy, Debug, PartialEq, Eq, Structural)]
pub enum Cleanup {
    /// Removes structural defects; unused constants of the outermost graph only where asked.
    Sanitize { prune: bool },
    /// Brings nodes and constants into canonical form.
    Canonicalize,
    /// Drops helper nodes that nothing needs.
    PruneNodes,
    /// Drops unused constants.
    PruneInitializers,
}

/// The cleanup as it is done to subgraphs.
pub open spec fn inner_cleanup(c: Cleanup) -> Cleanup {
    match c {
        Cleanup::Sanitize { .. } => Cleanup::Sanitize { prune: true },
        _ => c,
    }
}

/// The cleanup of a graph whose subgraphs are clean.
pub open spec fn cleaned_up_here(c: Cleanup, g: Graph) -> Graph {
    match c {
        Cleanup::Sanitize { prune } => sanitized(g, prune),
        Cleanup::Canonicalize => canonicalized(g),
        Cleanup::PruneNodes => dead_dropped(g),
        Cleanup::PruneInitializers => unused_dropped(g),
    }
}

/// The error for subgraphs that nest too deep.
pub open spec fn export_too_deep() -> ErrorView {
    message("maximum ONNX subgraph cleanup depth 128 exceeded"@)
}

/// The subgraphs of a graph after the first `k` of them have been cleaned up in turn. The first
/// failure stops.
pub open spec fn subgraphs_cleaned_up(c: Cleanup, g: Graph, depth: nat, k: nat) -> (
    Seq<Graph>,
    Result<(), ErrorView>,
)
    decreases height(g), 0nat, k,
    via subgraphs_cleaned_up_decreases
{
    if k == 0 || k > subgraphs(g).len() {
        (subgraphs(g), Ok(()))
    } else {
        let (subs, r) = subgraphs_cleaned_up(c, g, depth, (k - 1) as nat);
        match r {
            Err(e) => (subs, Err(e)),
            Ok(_) => {
                let (h, r) = cleaned_up(c, subgraphs(g)[k - 1], depth);
                (subs.update(k - 1, h), r)
            },
        }
    }
}

#[via_fn]
proof fn subgraphs_cleaned_up_decreases(c: Cleanup, g: Graph, depth: nat, k: nat) {
    if !(k == 0 || k > subgraphs(g).len()) {
        lemma_subgraph_height(g, k - 1);
    }
}

/// The graph after a cleanup of its subgraphs and then of itself.
pub open spec fn cleaned_up(c: Cleanup, g: Graph, depth: nat) -> (Graph, Result<(), ErrorView>)
    decreases height(g), 1nat, 0nat,
{
    if depth > MAX_EXPORT_SUBGRAPH_DEPTH {
        (g, Err(export_too_deep()))
    } else {
        let (subs, r) = subgraphs_cleaned_up(
            inner_cleanup(c),
            g,
            depth + 1,
            subgraphs(g).len(),
        );
        let h = with_subgraphs(g, subs);
        match r {
            Err(e) => (h, Err(e)),
            Ok(_) => (cleaned_up_here(c, h), Ok(())),
        }
    }
}

proof fn lemma_subgraphs_cleaned_up_len(c: Cleanup, g: Graph, depth: nat, k: nat)
    ensures
        subgraphs_cleaned_up(c, g, depth, k).0.len() == subgraphs(g).len(),
    decreases k,
{
    if k > 0 && k <= subgraphs(g).len() {
        lemma_subgraphs_cleaned_up_len(c, g, depth, (k - 1) as nat);
    }
}

proof fn lemma_subgraphs_cleaned_up_err(c: Cleanup, g: Graph, depth: nat, k: nat, n: nat)
    requires
        k <= n <= subgraphs(g).len(),
        subgraphs_cleaned_up(c, g, depth, k).1 is Err,
    ensures
        subgraphs_cleaned_up(c, g, depth, n) == subgraphs_cleaned_up(c, g, depth, k),
    decreases n,
{
    if k < n {
        lemma_subgraphs_cleaned_up_err(c, g, depth, k, (n - 1) as nat);
    }
}

fn ensure_export_depth(depth: usize) -> (r: Result<(), Error>)
    ensures
        outcome(r) == (if depth > MAX_EXPORT_SUBGRAPH_DEPTH {
            Err::<(), ErrorView>(export_too_deep())
        } else {
            Ok(())
        }),
{
    if depth > MAX_EXPORT_SUBGRAPH_DEPTH {
        return Err(Error::text("maximum ONNX subgraph cleanup depth 128 exceeded"));
    }
    Ok(())
}

fn clean_subgraphs(
    c: Cleanup,
    subs: &mut Vec<GraphProto>,
    depth: usize,
    Ghost(g): Ghost<Graph>,
) -> (r: Result<(), Error>)
    requires
        views(old(subs)@) == subgraphs(g),
    ensures
        (views(final(subs)@), outcome(r)) == subgraphs_cleaned_up(
            c,
            g,
            depth as nat,
            subgraphs(g).len(),
        ),
    decreases height(g), 0nat,
{
    let mut i: usize = 0;
    proof {
        assert(views(subs@).len() == subs@.len());
    }
    while i < subs.len()
        invariant
            i <= subs.len(),
            subs.len() == subgraphs(g).len(),
            (views(subs@), Ok::<(), ErrorView>(())) == subgraphs_cleaned_up(
                c,
                g,
                depth as nat,
                i as nat,
            ),
            forall|k: int| i <= k < subs.len() ==> (#[trigger] subs@[k])@ == subgraphs(g)[k],
        decreases subs.len() - i,
    {
        let ghost before = views(subs@);
        proof {
            lemma_subgraph_height(g, i as int);
            assert(subs@[i as int]@ == subgraphs(g)[i as int]);
        }
        let done = clean_up(c, &mut subs[i], depth);
        proof {
            assert(views(subs@) =~= before.update(i as int, subs@[i as int]@));
        }
        match done {
            Ok(_) => {},
            Err(e) => {
                proof {
                    lemma_subgraphs_cleaned_up_err(
                        c,
                        g,
                        depth as nat,
                        (i + 1) as nat,
                        subgraphs(g).len(),
                    );
                }
                return Err(e);
            },
        }
        i = i + 1;
    }
    Ok(())
}

/// Cleans up a graph's subgraphs and then the graph.
pub fn clean_up(c: Cleanup, graph: &mut GraphProto, depth: usize) -> (r: Result<(), Error>)
    ensures
        (final(graph)@, outcome(r)) == cleaned_up(c, old(graph)@, depth as nat),
    decreases height(old(graph)@), 1nat,
{
    let ghost g = graph@;
    match ensure_export_depth(depth) {
        Ok(_) => {},
        Err(e) => {
            return Err(e);
        },
    }
    let inner = match c {
        Cleanup::Sanitize { .. } => Cleanup::Sanitize { prune: true },
        _ => c,
    };
    let mut subs = detach(graph);
    let done = clean_subgraphs(inner, &mut subs, depth + 1, Ghost(g));
    proof {
        lemma_subgraphs_cleaned_up_len(inner, g, (depth + 1) as nat, subgraphs(g).len());
        assert(views(subs@).len() == subs@.len());
        lemma_with_subgraphs(g, blanks(subgraphs(g).len()), views(subs@));
    }
    attach(graph, subs);
    match done {
        Ok(_) => {},
        Err(e) => {
            return Err(e);
        },
    }
    match c {
        Cleanup::Sanitize { prune } => sanitize_graph_once(graph, prune),
        Cleanup::Canonicalize => canonicalize_graph_once(graph),
        Cleanup::PruneNodes => prune_dead_nodes_all(graph),
        Cleanup::PruneInitializers => prune_unused_initializers(graph),
    }
    Ok(())
}

/// The graph after a cleanup, where the one before succeeded.
pub open spec fn then_cleaned_up(state: (Graph, Result<(), ErrorView>), c: Cleanup) -> (
    Graph,
    Result<(), ErrorView>,
) {
    match state.1 {
        Err(e) => state,
        Ok(_) => cleaned_up(c, state.0, 0),
    }
}

/// The graph made ready for export: sanitized, in canonical form, and without helper nodes and
/// constants that nothing needs.
pub open spec fn prepared(g: Graph) -> (Graph, Result<(), ErrorView>) {
    let s = cleaned_up(Cleanup::Sanitize { prune: true }, g, 0);
    let s = then_cleaned_up(s, Cleanup::Canonicalize);
    let s = then_cleaned_up(s, Cleanup::PruneNodes);
    then_cleaned_up(s, Cleanup::PruneInitializers)
}

/// Makes a graph ready for export.
pub fn prepare_graph_for_export(graph: &mut GraphProto) -> (r: Result<(), Error>)
    ensures
        (final(graph)@, outcome(r)) == prepared(old(graph)@),
{
    clean_up(Cleanup::Sanitize { prune: true }, graph, 0)?;
    clean_up(Cleanup::Canonicalize, graph, 0)?;
    clean_up(Cleanup::PruneNodes, graph, 0)?;
    clean_up(Cleanup::PruneInitializers, graph, 0)?;
    Ok(())
}

} // verus!
