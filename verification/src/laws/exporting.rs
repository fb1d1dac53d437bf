//! What holds of a graph that is made ready for export.

use crate::converter::export::{
    cleaned_up, inner_cleanup, prepared, subgraphs_cleaned_up, then_cleaned_up, Cleanup,
};
use crate::converter::export::canonical::{
    adapters_removed, casts_collapsed, cleaned, identities_removed, lemma_cleaned_shorter,
};
use crate::converter::export::prune::{
    all_stay, dead_dropped, helper_node, lemma_dead_dropped_stable, stay_flags, stays,
};
use crate::converter::export::sanitize::{
    outputs_materialized, referenced, sanitized, sole_inputs, sole_tensors, unused_dropped,
};
use crate::converter::optimizer::facts::initializer_of;
use crate::nested::{subgraphs, with_subgraphs};
use crate::onnx::{Graph, Node, Tensor, ValueInfo};
use crate::scope::{
    consumed, lemma_retained_order, lemma_retained_origin, origin, retained, tensor_named,
    value_named,
};
use vstd::prelude::*;

verus! {

/// Whether no two constants have the same name.
pub open spec fn constants_distinct(list: Seq<Tensor>) -> bool {
    forall|i: int, j: int|
        0 <= i < j < list.len() ==> (#[trigger] list[i]).name != (#[trigger] list[j]).name
}

/// Whether no two values have the same name.
pub open spec fn values_distinct(list: Seq<ValueInfo>) -> bool {
    forall|i: int, j: int|
        0 <= i < j < list.len() ==> (#[trigger] list[i]).name != (#[trigger] list[j]).name
}

proof fn lemma_retained_distinct(list: Seq<Tensor>, keep: Seq<bool>)
    requires
        constants_distinct(list),
    ensures
        constants_distinct(retained(list, keep)),
{
    let kept = retained(list, keep);
    assert forall|i: int, j: int| 0 <= i < j < kept.len() implies (#[trigger] kept[i]).name != (
    #[trigger] kept[j]).name by {
        lemma_retained_origin(list, keep, i);
        lemma_retained_origin(list, keep, j);
        lemma_retained_order(list, keep, i, j);
        assert(list[origin(list, keep, i)].name != list[origin(list, keep, j)].name);
    }
}

proof fn lemma_sole_tensors(list: Seq<Tensor>)
    ensures
        constants_distinct(sole_tensors(list)),
{
    let keep = Seq::new(
        list.len(),
        |i: int| initializer_of(list, list[i].name) == Some(i as nat),
    );
    let kept = retained(list, keep);
    assert forall|i: int, j: int| 0 <= i < j < kept.len() implies (#[trigger] kept[i]).name != (
    #[trigger] kept[j]).name by {
        lemma_retained_origin(list, keep, i);
        lemma_retained_origin(list, keep, j);
        lemma_retained_order(list, keep, i, j);
    }
}

proof fn lemma_sole_inputs(list: Seq<ValueInfo>, constants: Seq<Tensor>)
    ensures
        values_distinct(sole_inputs(list, constants)),
        forall|i: int|
            0 <= i < sole_inputs(list, constants).len() ==> !tensor_named(
                constants,
                (#[trigger] sole_inputs(list, constants)[i]).name,
            ),
{
    let keep = Seq::new(
        list.len(),
        |i: int|
            !tensor_named(constants, list[i].name) && !value_named(list.take(i), list[i].name),
    );
    let kept = retained(list, keep);
    assert forall|i: int, j: int| 0 <= i < j < kept.len() implies (#[trigger] kept[i]).name != (
    #[trigger] kept[j]).name by {
        lemma_retained_origin(list, keep, i);
        lemma_retained_origin(list, keep, j);
        lemma_retained_order(list, keep, i, j);
        let a = origin(list, keep, i);
        let b = origin(list, keep, j);
        assert(list.take(b)[a].name == list[a].name);
    }
    assert forall|i: int| 0 <= i < kept.len() implies !tensor_named(
        constants,
        (#[trigger] kept[i]).name,
    ) by {
        lemma_retained_origin(list, keep, i);
    }
}

proof fn lemma_retained_named(list: Seq<Tensor>, keep: Seq<bool>, name: Seq<char>)
    ensures
        tensor_named(retained(list, keep), name) ==> tensor_named(list, name),
{
    let kept = retained(list, keep);
    if tensor_named(kept, name) {
        let i = choose|i: int| 0 <= i < kept.len() && #[trigger] kept[i].name == name;
        lemma_retained_origin(list, keep, i);
        assert(list[origin(list, keep, i)].name == name);
    }
}

/// A graph that has been sanitized has no two constants, no two inputs, and no input and constant
/// with the same name.
pub proof fn law_sanitized_names_distinct(g: Graph, prune: bool)
    ensures
        constants_distinct(sanitized(g, prune).initializer),
        values_distinct(sanitized(g, prune).input),
        forall|i: int|
            0 <= i < sanitized(g, prune).input.len() ==> !tensor_named(
                sanitized(g, prune).initializer,
                (#[trigger] sanitized(g, prune).input[i]).name,
            ),
{
    let constants = sole_tensors(g.initializer);
    let start = Graph { initializer: constants, input: sole_inputs(g.input, constants), ..g };
    let h = outputs_materialized(start);
    let keep = Seq::new(
        constants.len(),
        |i: int|
            !crate::converter::export::sanitize::output_only(start, constants[i]),
    );
    lemma_sole_tensors(g.initializer);
    lemma_sole_inputs(g.input, constants);
    lemma_retained_distinct(constants, keep);
    let used = Seq::new(
        h.initializer.len(),
        |i: int|
            referenced(h, h.initializer[i].name) || value_named(h.output, h.initializer[i].name),
    );
    lemma_retained_distinct(h.initializer, used);
    assert forall|i: int| 0 <= i < sanitized(g, prune).input.len() implies !tensor_named(
        sanitized(g, prune).initializer,
        (#[trigger] sanitized(g, prune).input[i]).name,
    ) by {
        let name = sanitized(g, prune).input[i].name;
        assert(sole_inputs(g.input, constants)[i].name == name);
        lemma_retained_named(constants, keep, name);
        lemma_retained_named(h.initializer, used, name);
    }
}

/// Whether two graphs have the same name, outputs and declarations, and the inputs of the one are
/// among those of the other.
pub open spec fn same_results(a: Graph, b: Graph) -> bool {
    &&& a.name == b.name
    &&& a.output == b.output
    &&& a.value_info == b.value_info
    &&& forall|i: int| 0 <= i < b.input.len() ==> a.input.contains(#[trigger] b.input[i])
}

proof fn lemma_sanitized_results(g: Graph, prune: bool)
    ensures
        same_results(g, sanitized(g, prune)),
{
    let constants = sole_tensors(g.initializer);
    let keep = Seq::new(
        g.input.len(),
        |i: int|
            !tensor_named(constants, g.input[i].name) && !value_named(
                g.input.take(i),
                g.input[i].name,
            ),
    );
    assert forall|i: int| 0 <= i < sole_inputs(g.input, constants).len() implies g.input.contains(
        #[trigger] sole_inputs(g.input, constants)[i],
    ) by {
        lemma_retained_origin(g.input, keep, i);
    }
}

proof fn lemma_cleaned_results(g: Graph)
    ensures
        same_results(g, cleaned(g)),
    decreases g.node.len(),
{
    lemma_cleaned_shorter(g);
    let (g1, c1) = identities_removed(g);
    let (g2, c2) = casts_collapsed(g1);
    let (g3, c3) = adapters_removed(g2);
    if c1 || c2 || c3 {
        lemma_cleaned_results(g3);
    }
}

proof fn lemma_dead_dropped_results(g: Graph)
    ensures
        same_results(g, dead_dropped(g)),
    decreases g.node.len(),
{
    if !all_stay(g) {
        let i = choose|i: int| 0 <= i < g.node.len() && !#[trigger] stays(g, i);
        crate::converter::optimizer::fusions::lemma_retained_shorter(g.node, stay_flags(g), i);
        lemma_dead_dropped_results(Graph { node: retained(g.node, stay_flags(g)), ..g });
    }
}

proof fn lemma_cleaned_up_results(c: Cleanup, g: Graph)
    ensures
        same_results(g, cleaned_up(c, g, 0).0),
{
    let (subs, r) = subgraphs_cleaned_up(inner_cleanup(c), g, 1, subgraphs(g).len());
    let h = with_subgraphs(g, subs);
    match c {
        Cleanup::Sanitize { prune } => {
            lemma_sanitized_results(h, prune);
        },
        Cleanup::Canonicalize => {
            lemma_cleaned_results(h);
        },
        Cleanup::PruneNodes => {
            lemma_dead_dropped_results(h);
        },
        Cleanup::PruneInitializers => {},
    }
}

/// Making a graph ready for export keeps its name, its outputs and its declarations, and adds no
/// input, also where it fails.
pub proof fn law_preparing_keeps_results(g: Graph)
    ensures
        same_results(g, prepared(g).0),
{
    let s1 = cleaned_up(Cleanup::Sanitize { prune: true }, g, 0);
    lemma_cleaned_up_results(Cleanup::Sanitize { prune: true }, g);
    let s2 = then_cleaned_up(s1, Cleanup::Canonicalize);
    lemma_cleaned_up_results(Cleanup::Canonicalize, s1.0);
    let s3 = then_cleaned_up(s2, Cleanup::PruneNodes);
    lemma_cleaned_up_results(Cleanup::PruneNodes, s2.0);
    lemma_cleaned_up_results(Cleanup::PruneInitializers, s3.0);
}

proof fn lemma_referenced_nodes(a: Graph, b: Graph, name: Seq<char>)
    requires
        a.node == b.node,
    ensures
        referenced(a, name) == referenced(b, name),
{
    assert(subgraphs(a) == subgraphs(b));
    if referenced(a, name) && !consumed(a.node, name) {
        let i = choose|i: int|
            0 <= i < subgraphs(a).len() && referenced(#[trigger] subgraphs(a)[i], name);
        assert(referenced(subgraphs(b)[i], name));
    }
    if referenced(b, name) && !consumed(b.node, name) {
        let i = choose|i: int|
            0 <= i < subgraphs(b).len() && referenced(#[trigger] subgraphs(b)[i], name);
        assert(referenced(subgraphs(a)[i], name));
    }
}

/// In a graph that is ready for export every constant is read somewhere, or is an output.
pub proof fn law_prepared_constants_used(g: Graph, i: int)
    requires
        prepared(g).1 is Ok,
        0 <= i < prepared(g).0.initializer.len(),
    ensures
        referenced(prepared(g).0, prepared(g).0.initializer[i].name) || value_named(
            prepared(g).0.output,
            prepared(g).0.initializer[i].name,
        ),
{
    let s1 = cleaned_up(Cleanup::Sanitize { prune: true }, g, 0);
    let s2 = then_cleaned_up(s1, Cleanup::Canonicalize);
    let s3 = then_cleaned_up(s2, Cleanup::PruneNodes);
    let c = Cleanup::PruneInitializers;
    let (subs, r) = subgraphs_cleaned_up(inner_cleanup(c), s3.0, 1, subgraphs(s3.0).len());
    let h = with_subgraphs(s3.0, subs);
    assert(prepared(g).0 == unused_dropped(h));
    let keep = Seq::new(
        h.initializer.len(),
        |i: int|
            referenced(h, h.initializer[i].name) || value_named(h.output, h.initializer[i].name),
    );
    lemma_retained_origin(h.initializer, keep, i);
    lemma_referenced_nodes(h, prepared(g).0, prepared(g).0.initializer[i].name);
}

/// The nodes that are no helpers.
pub open spec fn proper_nodes(list: Seq<Node>) -> Seq<Node> {
    retained(list, Seq::new(list.len(), |i: int| !helper_node(list[i])))
}

proof fn lemma_retained_flags<T>(list: Seq<T>, a: Seq<bool>, b: Seq<bool>)
    requires
        a.len() >= list.len(),
        b.len() >= list.len(),
        forall|i: int| 0 <= i < list.len() ==> a[i] == b[i],
    ensures
        retained(list, a) == retained(list, b),
    decreases list.len(),
{
    if list.len() > 0 {
        lemma_retained_flags(list.drop_last(), a, b);
    }
}

proof fn lemma_proper_kept(list: Seq<Node>, keep: Seq<bool>)
    requires
        keep.len() >= list.len(),
        forall|i: int| 0 <= i < list.len() && !keep[i] ==> helper_node(#[trigger] list[i]),
    ensures
        proper_nodes(retained(list, keep)) == proper_nodes(list),
    decreases list.len(),
{
    if list.len() > 0 {
        let front = list.drop_last();
        assert forall|i: int| 0 <= i < front.len() && !keep[i] implies helper_node(
            #[trigger] front[i],
        ) by {
            assert(front[i] == list[i]);
        }
        lemma_proper_kept(front, keep);
        let all = Seq::new(list.len(), |i: int| !helper_node(list[i]));
        let all_front = Seq::new(front.len(), |i: int| !helper_node(front[i]));
        lemma_retained_flags(front, all, all_front);
        let kept = retained(list, keep);
        let kept_front = retained(front, keep);
        if keep[list.len() - 1] {
            let some = Seq::new(kept.len(), |i: int| !helper_node(kept[i]));
            let some_front = Seq::new(kept_front.len(), |i: int| !helper_node(kept_front[i]));
            assert(kept.drop_last() =~= kept_front);
            assert(kept.last() == list.last());
            lemma_retained_flags(kept_front, some, some_front);
        }
    }
}

/// Pruning drops helpers only: all other nodes stay, in order. After it every helper that is left
/// is needed, and pruning again changes nothing.
pub proof fn law_pruning_keeps_proper_nodes(g: Graph)
    ensures
        proper_nodes(dead_dropped(g).node) == proper_nodes(g.node),
        all_stay(dead_dropped(g)),
        dead_dropped(dead_dropped(g)) == dead_dropped(g),
    decreases g.node.len(),
{
    lemma_dead_dropped_stable(g);
    if !all_stay(g) {
        let i = choose|i: int| 0 <= i < g.node.len() && !#[trigger] stays(g, i);
        crate::converter::optimizer::fusions::lemma_retained_shorter(g.node, stay_flags(g), i);
        lemma_proper_kept(g.node, stay_flags(g));
        law_pruning_keeps_proper_nodes(Graph { node: retained(g.node, stay_flags(g)), ..g });
    }
}

} // verus!
