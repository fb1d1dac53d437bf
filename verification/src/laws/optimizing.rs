//! What optimization keeps.

use crate::converter::optimizer::{
    graph_optimized, lemma_subgraphs_optimized_len, optimized, optimizer_too_deep, round_done,
    rounds_done, subgraphs_optimized, MAX_OPTIMIZER_SUBGRAPH_DEPTH, Round,
};
use crate::converter::optimizer::batch_norm::{
    first_norm, norm_folded, norms_folded, subnormals_flushed,
};
use crate::converter::optimizer::constants::Const;
use crate::converter::optimizer::folds::{fold_plan, folded, Fold};
use crate::converter::optimizer::fusions::{
    conv_bias_fused, conv_biases_fused, first_conv_bias, first_matmul_bias, first_transpose_merge,
    kernels_materialized, matmul_bias_fused, matmul_biases_fused, transposes_merged,
    transposes_optimized,
};
use crate::converter::optimizer::options::{inner_options, OptimizationLevel, Options};
use crate::converter::optimizer::plan::{carried_out, rewritten, updated, Changes, Renaming};
use crate::converter::optimizer::report::{empty_report, plus, Report};
use crate::error::ErrorView;
use crate::laws::counting::{
    graphs_total, lemma_graphs_total_joined, lemma_nodes_total, nodes_total, total, Counted,
};
use crate::laws::passes::{
    held, kept_by_pass, lemma_conv_biases_kept, lemma_flush_kept, lemma_flush_settled,
    lemma_folded_kept, lemma_folded_settled, lemma_kept_same, lemma_kept_twice, lemma_kernels_kept,
    lemma_kernels_settled, lemma_matmul_biases_kept, lemma_no_subgraphs, lemma_norms_kept,
    lemma_transposes_kept, plain_where_dropped, single_transposes,
};
use crate::nested::{
    attributes_subgraphs, height, lemma_attributes_with, lemma_highest_subgraph, lemma_nodes_with,
    lemma_subgraph_height, lemma_with_subgraphs, node_with, nodes_subgraphs, nodes_with, subgraphs,
    with_subgraphs,
};
use crate::onnx::{Graph, Node};
use crate::scope::{produced, tensor_named, value_named};
use vstd::prelude::*;

verus! {

/// Whether two graphs have the same name, inputs, outputs and declarations.
pub open spec fn same_interface(a: Graph, b: Graph) -> bool {
    &&& a.name == b.name
    &&& a.input == b.input
    &&& a.output == b.output
    &&& a.value_info == b.value_info
}

/// With optimization off a graph stays as it is, no pass runs, and the counts before and after are
/// the same.
pub proof fn law_off_changes_nothing(g: Graph, o: Options)
    requires
        o.level == OptimizationLevel::Off,
    ensures
        optimized(g, o).0 == g,
        optimized(g, o).1 is Ok,
        !optimized(g, o).1->Ok_0.some_change(),
        optimized(g, o).1->Ok_0.iterations == 0,
        optimized(g, o).1->Ok_0.nodes_before == optimized(g, o).1->Ok_0.nodes_after,
        optimized(g, o).1->Ok_0.initializers_before == optimized(g, o).1->Ok_0.initializers_after,
{
}

proof fn lemma_updated_interface(g: Graph, list: Seq<Const>, k: nat)
    ensures
        same_interface(g, updated(g, list, k)),
    decreases k,
{
    if k > 0 {
        lemma_updated_interface(g, list, (k - 1) as nat);
    }
}

proof fn lemma_rewritten_interface(g: Graph, list: Seq<Renaming>, k: nat)
    ensures
        same_interface(g, rewritten(g, list, k).0),
    decreases k,
{
    if k > 0 {
        lemma_rewritten_interface(g, list, (k - 1) as nat);
    }
}

proof fn lemma_carried_out_interface(g: Graph, p: Changes)
    ensures
        same_interface(g, carried_out(g, p).0),
{
    lemma_updated_interface(g, p.updates, p.updates.len());
    let g1 = updated(g, p.updates, p.updates.len());
    let g2 = Graph { initializer: g1.initializer + p.clones, ..g1 };
    lemma_rewritten_interface(g2, p.rewrites, p.rewrites.len());
}

proof fn lemma_folded_interface(fold: Fold, g: Graph, o: Options)
    ensures
        same_interface(g, folded(fold, g, o).0),
{
    lemma_carried_out_interface(g, fold_plan(fold, g, o, g.node.len()));
}

proof fn lemma_transpose_merge_interface(g: Graph, i: int)
    ensures
        first_transpose_merge(g, i) matches Some(h) ==> same_interface(g, h),
    decreases g.node.len() - i,
{
    if 0 <= i < g.node.len() && transposes_merged(g, i) is None {
        lemma_transpose_merge_interface(g, i + 1);
    }
}

proof fn lemma_transposes_interface(g: Graph, o: Options)
    ensures
        same_interface(g, transposes_optimized(g, o).0),
{
    lemma_folded_interface(Fold::Transpose, g, o);
    lemma_transpose_merge_interface(folded(Fold::Transpose, g, o).0, 0);
}

proof fn lemma_conv_bias_interface(g: Graph, o: Options, i: int)
    ensures
        first_conv_bias(g, o, i) matches Some(h) ==> same_interface(g, h),
    decreases g.node.len() - i,
{
    if 0 <= i < g.node.len() && conv_bias_fused(g, o, i) is None {
        lemma_conv_bias_interface(g, o, i + 1);
    }
}

proof fn lemma_conv_biases_interface(g: Graph, o: Options)
    ensures
        same_interface(g, conv_biases_fused(g, o).0),
    decreases conv_biases_fused(g, o).1,
{
    lemma_conv_bias_interface(g, o, 0);
    if let Some(h) = first_conv_bias(g, o, 0) {
        lemma_conv_biases_interface(h, o);
    }
}

proof fn lemma_norm_interface(g: Graph, i: int)
    ensures
        first_norm(g, i) matches Some(h) ==> same_interface(g, h),
    decreases g.node.len() - i,
{
    if 0 <= i < g.node.len() && norm_folded(g, i) is None {
        lemma_norm_interface(g, i + 1);
    }
}

proof fn lemma_norms_interface(g: Graph)
    ensures
        same_interface(g, norms_folded(g).0),
    decreases norms_folded(g).1,
{
    lemma_norm_interface(g, 0);
    if let Some(h) = first_norm(g, 0) {
        lemma_norms_interface(h);
    }
}

proof fn lemma_matmul_bias_interface(g: Graph, o: Options, i: int)
    ensures
        first_matmul_bias(g, o, i) matches Some(h) ==> same_interface(g, h),
    decreases g.node.len() - i,
{
    if 0 <= i < g.node.len() && matmul_bias_fused(g, o, i) is None {
        lemma_matmul_bias_interface(g, o, i + 1);
    }
}

proof fn lemma_matmul_biases_interface(g: Graph, o: Options)
    ensures
        same_interface(g, matmul_biases_fused(g, o).0),
    decreases matmul_biases_fused(g, o).1,
{
    lemma_matmul_bias_interface(g, o, 0);
    if let Some(h) = first_matmul_bias(g, o, 0) {
        lemma_matmul_biases_interface(h, o);
    }
}

proof fn lemma_round_interface(g: Graph, o: Options, report: Report)
    ensures
        same_interface(g, round_done(g, o, report).graph),
{
    let p = o.passes;
    let r = Round { graph: g, report, changed: false };
    let r1 = r.after(
        p.flush_subnormal_initializers,
        "flush_subnormal_initializers"@,
        subnormals_flushed(r.graph),
    );
    let r2 = r1.after(
        p.fuse_constant_reshape,
        "fuse_constant_reshape"@,
        folded(Fold::Reshape, r1.graph, o),
    );
    lemma_folded_interface(Fold::Reshape, r1.graph, o);
    let r3 = r2.after(
        p.fuse_constant_unsqueeze,
        "fuse_constant_unsqueeze"@,
        folded(Fold::Unsqueeze, r2.graph, o),
    );
    lemma_folded_interface(Fold::Unsqueeze, r2.graph, o);
    let r4 = r3.after(
        p.fuse_constant_cast,
        "fuse_constant_cast"@,
        folded(Fold::Cast, r3.graph, o),
    );
    lemma_folded_interface(Fold::Cast, r3.graph, o);
    let r5 = r4.after(
        p.eliminate_arithmetic_identity,
        "eliminate_arithmetic_identity"@,
        folded(Fold::Identity, r4.graph, o),
    );
    lemma_folded_interface(Fold::Identity, r4.graph, o);
    let r6 = r5.after(
        p.optimize_transpose,
        "optimize_transpose"@,
        transposes_optimized(r5.graph, o),
    );
    lemma_transposes_interface(r5.graph, o);
    let r7 = r6.after(
        p.materialize_conv_kernel_shape,
        "materialize_conv_kernel_shape"@,
        kernels_materialized(r6.graph),
    );
    let r8 = r7.after(
        p.fuse_conv_add_bias,
        "fuse_conv_add_bias"@,
        conv_biases_fused(r7.graph, o),
    );
    lemma_conv_biases_interface(r7.graph, o);
    let r9 = r8.after(p.fuse_conv_batch_norm, "fuse_conv_batch_norm"@, norms_folded(r8.graph));
    lemma_norms_interface(r8.graph);
    lemma_matmul_biases_interface(r9.graph, o);
}

proof fn lemma_rounds_interface(g: Graph, o: Options, report: Report, i: nat)
    ensures
        same_interface(g, rounds_done(g, o, report, i).0),
    decreases o.max_iterations - i,
{
    if i < o.max_iterations {
        lemma_round_interface(g, o, report);
        let r = round_done(g, o, report);
        lemma_rounds_interface(
            r.graph,
            o,
            Report { iterations: (i + 1) as usize, ..r.report },
            i + 1,
        );
    }
}

/// Optimization keeps the name, the inputs, the outputs and the declarations of a graph, at
/// whatever depth it is nested, also where it fails.
pub proof fn law_optimizing_keeps_interface(g: Graph, o: Options, depth: nat)
    ensures
        same_interface(g, graph_optimized(g, o, depth).0),
        same_interface(g, optimized(g, o).0),
{
    lemma_graph_interface(g, o, depth);
    lemma_graph_interface(g, o, 0);
}

proof fn lemma_graph_interface(g: Graph, o: Options, depth: nat)
    ensures
        same_interface(g, graph_optimized(g, o, depth).0),
{
    if depth <= MAX_OPTIMIZER_SUBGRAPH_DEPTH {
        let start = Report {
            nodes_before: g.node.len() as usize,
            initializers_before: g.initializer.len() as usize,
            ..empty_report()
        };
        let (subs, r) = subgraphs_optimized(
            g,
            inner_options(o),
            depth + 1,
            start,
            subgraphs(g).len(),
        );
        let h = with_subgraphs(g, subs);
        if let Ok(report) = r {
            lemma_rounds_interface(h, o, report, 0);
        }
    }
}

proof fn lemma_after_kept(g: Graph, r: Round, enabled: bool, pass: Seq<char>, result: (Graph, nat))
    requires
        kept_by_pass(g, r.graph),
        kept_by_pass(r.graph, result.0),
    ensures
        kept_by_pass(g, r.after(enabled, pass, result).graph),
{
    lemma_kept_twice(g, r.graph, result.0);
}

proof fn lemma_round_kept(g: Graph, o: Options, report: Report)
    ensures
        kept_by_pass(g, round_done(g, o, report).graph),
{
    let p = o.passes;
    let r0 = Round { graph: g, report, changed: false };
    lemma_kept_same(g);
    lemma_flush_kept(r0.graph);
    let s1 = subnormals_flushed(r0.graph);
    let r1 = r0.after(p.flush_subnormal_initializers, "flush_subnormal_initializers"@, s1);
    lemma_after_kept(g, r0, p.flush_subnormal_initializers, "flush_subnormal_initializers"@, s1);
    lemma_folded_kept(Fold::Reshape, r1.graph, o);
    let s2 = folded(Fold::Reshape, r1.graph, o);
    let r2 = r1.after(p.fuse_constant_reshape, "fuse_constant_reshape"@, s2);
    lemma_after_kept(g, r1, p.fuse_constant_reshape, "fuse_constant_reshape"@, s2);
    lemma_folded_kept(Fold::Unsqueeze, r2.graph, o);
    let s3 = folded(Fold::Unsqueeze, r2.graph, o);
    let r3 = r2.after(p.fuse_constant_unsqueeze, "fuse_constant_unsqueeze"@, s3);
    lemma_after_kept(g, r2, p.fuse_constant_unsqueeze, "fuse_constant_unsqueeze"@, s3);
    lemma_folded_kept(Fold::Cast, r3.graph, o);
    let s4 = folded(Fold::Cast, r3.graph, o);
    let r4 = r3.after(p.fuse_constant_cast, "fuse_constant_cast"@, s4);
    lemma_after_kept(g, r3, p.fuse_constant_cast, "fuse_constant_cast"@, s4);
    lemma_folded_kept(Fold::Identity, r4.graph, o);
    let s5 = folded(Fold::Identity, r4.graph, o);
    let r5 = r4.after(p.eliminate_arithmetic_identity, "eliminate_arithmetic_identity"@, s5);
    lemma_after_kept(g, r4, p.eliminate_arithmetic_identity, "eliminate_arithmetic_identity"@, s5);
    lemma_transposes_kept(r5.graph, o);
    let s6 = transposes_optimized(r5.graph, o);
    let r6 = r5.after(p.optimize_transpose, "optimize_transpose"@, s6);
    lemma_after_kept(g, r5, p.optimize_transpose, "optimize_transpose"@, s6);
    lemma_kernels_kept(r6.graph);
    let s7 = kernels_materialized(r6.graph);
    let r7 = r6.after(p.materialize_conv_kernel_shape, "materialize_conv_kernel_shape"@, s7);
    lemma_after_kept(g, r6, p.materialize_conv_kernel_shape, "materialize_conv_kernel_shape"@, s7);
    lemma_conv_biases_kept(r7.graph, o);
    let s8 = conv_biases_fused(r7.graph, o);
    let r8 = r7.after(p.fuse_conv_add_bias, "fuse_conv_add_bias"@, s8);
    lemma_after_kept(g, r7, p.fuse_conv_add_bias, "fuse_conv_add_bias"@, s8);
    lemma_norms_kept(r8.graph);
    let s9 = norms_folded(r8.graph);
    let r9 = r8.after(p.fuse_conv_batch_norm, "fuse_conv_batch_norm"@, s9);
    lemma_after_kept(g, r8, p.fuse_conv_batch_norm, "fuse_conv_batch_norm"@, s9);
    lemma_matmul_biases_kept(r9.graph, o);
    let s10 = matmul_biases_fused(r9.graph, o);
    lemma_after_kept(g, r9, p.fuse_matmul_add_bias, "fuse_matmul_add_bias"@, s10);
}

proof fn lemma_rounds_kept(g: Graph, o: Options, report: Report, i: nat)
    ensures
        kept_by_pass(g, rounds_done(g, o, report, i).0),
    decreases o.max_iterations - i,
{
    if i < o.max_iterations {
        lemma_round_kept(g, o, report);
        let r = round_done(g, o, report);
        let counted = Report { iterations: (i + 1) as usize, ..r.report };
        lemma_rounds_kept(r.graph, o, counted, i + 1);
        if r.changed {
            lemma_kept_twice(g, r.graph, rounds_done(g, o, report, i).0);
        }
    } else {
        lemma_kept_same(g);
    }
}

proof fn lemma_nodes_with_plain(list: Seq<Node>, subs: Seq<Graph>)
    requires
        subs.len() == nodes_subgraphs(list).len(),
    ensures
        nodes_with(list, subs).len() == list.len(),
        forall|i: int|
            0 <= i < list.len() ==> (#[trigger] nodes_with(list, subs)[i]).op_type
                == list[i].op_type && nodes_with(list, subs)[i].output == list[i].output
                && attributes_subgraphs(nodes_with(list, subs)[i].attribute).len()
                == attributes_subgraphs(list[i].attribute).len(),
    decreases list.len(),
{
    lemma_nodes_with(list, subs);
    if list.len() > 0 {
        let n = list.last();
        let m = subs.len() - attributes_subgraphs(n.attribute).len();
        lemma_nodes_with_plain(list.drop_last(), subs.take(m));
        lemma_attributes_with(n.attribute, subs.skip(m));
        let front = nodes_with(list.drop_last(), subs.take(m));
        let after = nodes_with(list, subs);
        assert(after =~= front.push(node_with(n, subs.skip(m))));
        assert forall|i: int| 0 <= i < list.len() implies (#[trigger] after[i]).op_type
            == list[i].op_type && after[i].output == list[i].output && attributes_subgraphs(
            after[i].attribute,
        ).len() == attributes_subgraphs(list[i].attribute).len() by {
            if i < list.len() - 1 {
                assert(after[i] == front[i]);
                assert(list.drop_last()[i] == list[i]);
            }
        }
    }
}

/// What is left of the names that a graph defines.
proof fn lemma_graph_names(g: Graph, o: Options, depth: nat, name: Seq<char>)
    ensures
        ({
            let h = graph_optimized(g, o, depth).0;
            &&& single_transposes(g.node) && value_named(g.output, name) && produced(g.node, name)
                ==> produced(h.node, name)
            &&& tensor_named(g.initializer, name) ==> tensor_named(h.initializer, name)
            &&& held(g.node, name) ==> held(h.node, name)
        }),
{
    if depth <= MAX_OPTIMIZER_SUBGRAPH_DEPTH {
        let start = Report {
            nodes_before: g.node.len() as usize,
            initializers_before: g.initializer.len() as usize,
            ..empty_report()
        };
        let inner = inner_options(o);
        let count = subgraphs(g).len();
        let (subs, r) = subgraphs_optimized(g, inner, depth + 1, start, count);
        lemma_subgraphs_optimized_len(g, inner, depth + 1, start, count);
        lemma_nodes_with_plain(g.node, subs);
        let h = with_subgraphs(g, subs);
        if produced(g.node, name) {
            let i = choose|i: int|
                0 <= i < g.node.len() && (#[trigger] g.node[i]).output.contains(name);
            assert(h.node[i].output.contains(name));
            assert(produced(h.node, name));
        }
        if held(g.node, name) {
            let i = choose|i: int|
                0 <= i < g.node.len() && (#[trigger] g.node[i]).op_type == "Constant"@
                    && g.node[i].output.contains(name);
            assert(h.node[i].output.contains(name) && h.node[i].op_type == "Constant"@);
            assert(held(h.node, name));
        }
        if single_transposes(g.node) {
            assert forall|i: int| 0 <= i < h.node.len() && (#[trigger] h.node[i]).op_type
                == "Transpose"@ implies h.node[i].output.len() <= 1 by {
                assert(g.node[i].op_type == "Transpose"@);
            }
        }
        if let Ok(report) = r {
            lemma_rounds_kept(h, o, report, 0);
            reveal(kept_by_pass);
            assert(graph_optimized(g, o, depth).0 == rounds_done(h, o, report, 0).0);
        }
    }
}

/// An output that a node produced is still produced after optimization, at whatever depth the
/// graph is nested. A `Transpose` with more outputs than the one that it has could lose the others
/// in a merge.
pub proof fn law_optimizing_keeps_results(g: Graph, o: Options, depth: nat, name: Seq<char>)
    requires
        single_transposes(g.node),
        value_named(g.output, name),
        produced(g.node, name),
    ensures
        value_named(graph_optimized(g, o, depth).0.output, name),
        produced(graph_optimized(g, o, depth).0.node, name),
        produced(optimized(g, o).0.node, name),
{
    lemma_graph_interface(g, o, depth);
    lemma_graph_names(g, o, depth, name);
    lemma_graph_names(g, o, 0, name);
}

/// The name of a constant is still the name of a constant after optimization, and the output of a
/// `Constant` node is still the output of one.
pub proof fn law_optimizing_keeps_constants(g: Graph, o: Options, depth: nat, name: Seq<char>)
    ensures
        tensor_named(g.initializer, name) ==> tensor_named(
            graph_optimized(g, o, depth).0.initializer,
            name,
        ) && tensor_named(optimized(g, o).0.initializer, name),
        held(g.node, name) ==> held(graph_optimized(g, o, depth).0.node, name) && held(
            optimized(g, o).0.node,
            name,
        ),
{
    lemma_graph_names(g, o, depth, name);
    lemma_graph_names(g, o, 0, name);
}

proof fn lemma_rounds_counted(g: Graph, o: Options, report: Report, i: nat)
    requires
        i <= o.max_iterations,
        report.iterations <= o.max_iterations,
    ensures
        rounds_done(g, o, report, i).1.iterations <= o.max_iterations,
    decreases o.max_iterations - i,
{
    if i < o.max_iterations {
        let r = round_done(g, o, report);
        lemma_rounds_counted(
            r.graph,
            o,
            Report { iterations: (i + 1) as usize, ..r.report },
            i + 1,
        );
    }
}

proof fn lemma_round_counts(g: Graph, o: Options, report: Report)
    ensures
        round_done(g, o, report).report.nodes_before == report.nodes_before,
        round_done(g, o, report).report.nodes_after == report.nodes_after,
        round_done(g, o, report).report.initializers_before == report.initializers_before,
        round_done(g, o, report).report.initializers_after == report.initializers_after,
{
}

proof fn lemma_rounds_counts(g: Graph, o: Options, report: Report, i: nat)
    ensures
        rounds_done(g, o, report, i).1.nodes_before == report.nodes_before,
        rounds_done(g, o, report, i).1.nodes_after == report.nodes_after,
        rounds_done(g, o, report, i).1.initializers_before == report.initializers_before,
        rounds_done(g, o, report, i).1.initializers_after == report.initializers_after,
    decreases o.max_iterations - i,
{
    if i < o.max_iterations {
        lemma_round_counts(g, o, report);
        let r = round_done(g, o, report);
        lemma_rounds_counts(
            r.graph,
            o,
            Report { iterations: (i + 1) as usize, ..r.report },
            i + 1,
        );
    }
}

/// Whether no node that a pass may drop carries a subgraph, in the graph and in those nested in it.
pub open spec fn plain_throughout(g: Graph) -> bool
    decreases height(g),
    via plain_throughout_decreases
{
    plain_where_dropped(g.node) && forall|i: int|
        0 <= i < subgraphs(g).len() ==> plain_throughout(#[trigger] subgraphs(g)[i])
}

#[via_fn]
proof fn plain_throughout_decreases(g: Graph) {
    assert forall|i: int| 0 <= i < subgraphs(g).len() implies height(#[trigger] subgraphs(g)[i])
        < height(g) by {
        lemma_subgraph_height(g, i);
    }
}

/// The nodes and constants of a graph and of all that are nested in it.
pub open spec fn all_items(g: Graph) -> nat {
    total(g, Counted::Nodes) + total(g, Counted::Constants)
}

/// Whether a report counts the nodes and constants of `before` and `after`, with all that are
/// nested in them. What is nested in a node that is dropped is still counted as there.
pub open spec fn counts(r: Report, before: Graph, after: Graph) -> bool {
    &&& r.nodes_before == total(before, Counted::Nodes)
    &&& r.initializers_before == total(before, Counted::Constants)
    &&& plain_throughout(before) ==> {
        &&& r.nodes_after == total(after, Counted::Nodes)
        &&& r.initializers_after == total(after, Counted::Constants)
    }
}

proof fn lemma_subgraphs_counted(g: Graph, o: Options, depth: nat, start: Report, k: nat)
    requires
        k <= subgraphs(g).len(),
        start.nodes_after == 0,
        start.initializers_after == 0,
        start.nodes_before + start.initializers_before + graphs_total(
            subgraphs(g),
            Counted::Nodes,
        ) + graphs_total(subgraphs(g), Counted::Constants) <= usize::MAX,
    ensures
        subgraphs_optimized(g, o, depth, start, k).1 matches Ok(r) ==> {
            let old = subgraphs(g).take(k as int);
            let new = subgraphs_optimized(g, o, depth, start, k).0.take(k as int);
            &&& r.nodes_before == start.nodes_before + graphs_total(old, Counted::Nodes)
            &&& r.initializers_before == start.initializers_before + graphs_total(
                old,
                Counted::Constants,
            )
            &&& plain_throughout(g) ==> {
                &&& r.nodes_after == graphs_total(new, Counted::Nodes)
                &&& r.initializers_after == graphs_total(new, Counted::Constants)
                &&& graphs_total(new, Counted::Nodes) + graphs_total(new, Counted::Constants)
                    <= graphs_total(old, Counted::Nodes) + graphs_total(old, Counted::Constants)
            }
        },
    decreases height(g), 0nat, k,
{
    let all = subgraphs(g);
    if k > 0 {
        lemma_subgraphs_counted(g, o, depth, start, (k - 1) as nat);
        lemma_subgraph_height(g, k - 1);
        let (before, r) = subgraphs_optimized(g, o, depth, start, (k - 1) as nat);
        lemma_subgraphs_optimized_len(g, o, depth, start, (k - 1) as nat);
        if let Ok(report) = r {
            let (h, child) = graph_optimized(all[k - 1], o, depth);
            if let Ok(child) = child {
                lemma_part_total(all, k as int);
                lemma_part_total(all, k - 1);
                let after = before.update(k - 1, h);
                assert(all.take(k as int).drop_last() =~= all.take(k - 1));
                assert(after.take(k as int).drop_last() =~= before.take(k - 1));
                assert(after.take(k as int).last() == h);
                assert(all.take(k as int).last() == all[k - 1]);
                assert(graphs_total(all.take(k as int), Counted::Nodes) == graphs_total(
                    all.take(k - 1),
                    Counted::Nodes,
                ) + total(all[k - 1], Counted::Nodes));
                assert(graphs_total(all.take(k as int), Counted::Constants) == graphs_total(
                    all.take(k - 1),
                    Counted::Constants,
                ) + total(all[k - 1], Counted::Constants));
                lemma_graph_counted(all[k - 1], o, depth);
                if plain_throughout(g) {
                    assert(plain_throughout(all[k - 1]));
                }
            }
        }
    }
}

proof fn lemma_part_total(list: Seq<Graph>, k: int)
    requires
        0 <= k <= list.len(),
    ensures
        forall|what: Counted| #[trigger]
            graphs_total(list.take(k), what) <= graphs_total(list, what),
{
    assert forall|what: Counted| #[trigger]
        graphs_total(list.take(k), what) <= graphs_total(list, what) by {
        lemma_graphs_total_joined(list.take(k), list.skip(k), what);
        assert(list.take(k) + list.skip(k) =~= list);
    }
}

proof fn lemma_graph_counted(g: Graph, o: Options, depth: nat)
    requires
        all_items(g) <= usize::MAX,
    ensures
        graph_optimized(g, o, depth).1 matches Ok(r) ==> counts(
            r,
            g,
            graph_optimized(g, o, depth).0,
        ),
        graph_optimized(g, o, depth).1 is Ok && plain_throughout(g) ==> all_items(
            graph_optimized(g, o, depth).0,
        ) <= all_items(g),
    decreases height(g), 1nat, 0nat,
{
    if depth <= MAX_OPTIMIZER_SUBGRAPH_DEPTH {
        let start = Report {
            nodes_before: g.node.len() as usize,
            initializers_before: g.initializer.len() as usize,
            ..empty_report()
        };
        let all = subgraphs(g);
        lemma_nodes_total(g.node, Counted::Nodes);
        lemma_nodes_total(g.node, Counted::Constants);
        let inner = inner_options(o);
        lemma_subgraphs_counted(g, inner, depth + 1, start, all.len());
        lemma_subgraphs_optimized_len(g, inner, depth + 1, start, all.len());
        let (subs, r) = subgraphs_optimized(g, inner, depth + 1, start, all.len());
        assert(all.take(all.len() as int) =~= all);
        assert(subs.take(all.len() as int) =~= subs);
        let h = with_subgraphs(g, subs);
        if let Ok(report) = r {
            lemma_rounds_counts(h, o, report, 0);
            lemma_rounds_kept(h, o, report, 0);
            lemma_with_subgraphs(g, subs, subs);
            let last = rounds_done(h, o, report, 0).0;
            if plain_throughout(g) {
                lemma_nodes_with_plain(g.node, subs);
                lemma_nodes_total(h.node, Counted::Nodes);
                lemma_nodes_total(h.node, Counted::Constants);
                reveal(kept_by_pass);
                assert(plain_where_dropped(h.node));
                assert(nodes_total(last.node, Counted::Nodes) == graphs_total(
                    subs,
                    Counted::Nodes,
                ));
                assert(nodes_total(last.node, Counted::Constants) == graphs_total(
                    subs,
                    Counted::Constants,
                ));
            }
        }
    }
}

/// The report counts the nodes and constants of the graph, before and after, together with those
/// of all the graphs that are nested in it, at whatever depth the graph is nested itself.
pub proof fn law_report_counts(g: Graph, o: Options, depth: nat)
    requires
        all_items(g) <= usize::MAX,
    ensures
        graph_optimized(g, o, depth).1 matches Ok(r) ==> counts(
            r,
            g,
            graph_optimized(g, o, depth).0,
        ),
        o.level != OptimizationLevel::Off ==> (optimized(g, o).1 matches Ok(r) ==> counts(
            r,
            g,
            optimized(g, o).0,
        )),
{
    lemma_graph_counted(g, o, depth);
    lemma_graph_counted(g, o, 0);
}

proof fn lemma_subgraphs_bounded(g: Graph, o: Options, depth: nat, report: Report, k: nat)
    requires
        report.iterations <= o.max_iterations,
        k <= subgraphs(g).len(),
    ensures
        subgraphs_optimized(g, o, depth, report, k).1 matches Ok(r) ==> r.iterations
            <= o.max_iterations,
    decreases height(g), 0nat, k,
{
    if k > 0 {
        lemma_subgraphs_bounded(g, o, depth, report, (k - 1) as nat);
        lemma_subgraph_height(g, k - 1);
        lemma_rounds_bounded(subgraphs(g)[k - 1], o, depth);
    }
}

proof fn lemma_rounds_bounded(g: Graph, o: Options, depth: nat)
    ensures
        graph_optimized(g, o, depth).1 matches Ok(r) ==> r.iterations <= o.max_iterations,
    decreases height(g), 1nat, 0nat,
{
    if depth <= MAX_OPTIMIZER_SUBGRAPH_DEPTH {
        let start = Report {
            nodes_before: g.node.len() as usize,
            initializers_before: g.initializer.len() as usize,
            ..empty_report()
        };
        let inner = inner_options(o);
        lemma_subgraphs_bounded(g, inner, depth + 1, start, subgraphs(g).len());
        let (subs, r) = subgraphs_optimized(g, inner, depth + 1, start, subgraphs(g).len());
        if let Ok(report) = r {
            lemma_rounds_counted(with_subgraphs(g, subs), o, report, 0);
        }
    }
}

/// No more rounds are run than the options allow, in the graph and in its subgraphs.
pub proof fn law_rounds_bounded(g: Graph, o: Options)
    ensures
        optimized(g, o).1 matches Ok(r) ==> r.iterations <= o.max_iterations,
{
    lemma_rounds_bounded(g, o, 0);
}

/// A graph is refused exactly where its depth and its height together pass the limit.
pub proof fn law_optimizer_refuses_depth_only(g: Graph, o: Options, depth: nat)
    ensures
        graph_optimized(g, o, depth).1 is Err <==> height(g) + depth > MAX_OPTIMIZER_SUBGRAPH_DEPTH
            + 1,
        graph_optimized(g, o, depth).1 matches Err(e) ==> e == optimizer_too_deep(),
        optimized(g, o).1 is Err <==> o.level != OptimizationLevel::Off && height(g)
            > MAX_OPTIMIZER_SUBGRAPH_DEPTH + 1,
        optimized(g, o).1 matches Err(e) ==> e == optimizer_too_deep(),
{
    lemma_refused(g, o, depth);
    lemma_refused(g, o, 0);
}

proof fn lemma_subgraphs_refused(g: Graph, o: Options, depth: nat, report: Report, k: nat)
    requires
        k <= subgraphs(g).len(),
    ensures
        subgraphs_optimized(g, o, depth, report, k).1 matches Err(e) ==> e == optimizer_too_deep()
            && height(g) + depth > MAX_OPTIMIZER_SUBGRAPH_DEPTH + 2,
        subgraphs_optimized(g, o, depth, report, k).1 is Ok ==> forall|i: int|
            0 <= i < k ==> height(#[trigger] subgraphs(g)[i]) + depth
                <= MAX_OPTIMIZER_SUBGRAPH_DEPTH + 1,
    decreases height(g), 0nat, k,
{
    if k > 0 {
        lemma_subgraphs_refused(g, o, depth, report, (k - 1) as nat);
        lemma_subgraph_height(g, k - 1);
        lemma_refused(subgraphs(g)[k - 1], o, depth);
    }
}

proof fn lemma_refused(g: Graph, o: Options, depth: nat)
    ensures
        graph_optimized(g, o, depth).1 is Err <==> height(g) + depth > MAX_OPTIMIZER_SUBGRAPH_DEPTH
            + 1,
        graph_optimized(g, o, depth).1 matches Err(e) ==> e == optimizer_too_deep(),
    decreases height(g), 1nat, 0nat,
{
    assert(height(g) >= 1);
    if depth <= MAX_OPTIMIZER_SUBGRAPH_DEPTH {
        let start = Report {
            nodes_before: g.node.len() as usize,
            initializers_before: g.initializer.len() as usize,
            ..empty_report()
        };
        lemma_subgraphs_refused(g, inner_options(o), depth + 1, start, subgraphs(g).len());
        if height(g) > 1 {
            let i = lemma_highest_subgraph(g);
            assert(height(subgraphs(g)[i]) == height(g) - 1);
        }
    }
}

// ---- A second run ----

proof fn lemma_transposes_settled(g: Graph, o: Options)
    requires
        subgraphs(g).len() == 0,
        transposes_optimized(g, o).1 == 0,
    ensures
        transposes_optimized(g, o).0 == g,
{
    if folded(Fold::Transpose, g, o).1 == 0 {
        lemma_folded_settled(Fold::Transpose, g, o);
    }
}

/// Whether the folding passes change nothing in `g`.
#[verifier::opaque]
spec fn settled_folds(g: Graph, o: Options) -> bool {
    let p = o.passes;
    &&& p.flush_subnormal_initializers ==> subnormals_flushed(g) == (g, 0nat)
    &&& p.fuse_constant_reshape ==> folded(Fold::Reshape, g, o) == (g, 0nat)
    &&& p.fuse_constant_unsqueeze ==> folded(Fold::Unsqueeze, g, o) == (g, 0nat)
    &&& p.fuse_constant_cast ==> folded(Fold::Cast, g, o) == (g, 0nat)
    &&& p.eliminate_arithmetic_identity ==> folded(Fold::Identity, g, o) == (g, 0nat)
}

/// Whether the merging passes change nothing in `g`.
#[verifier::opaque]
spec fn settled_merges(g: Graph, o: Options) -> bool {
    let p = o.passes;
    &&& p.optimize_transpose ==> transposes_optimized(g, o) == (g, 0nat)
    &&& p.materialize_conv_kernel_shape ==> kernels_materialized(g) == (g, 0nat)
    &&& p.fuse_conv_add_bias ==> conv_biases_fused(g, o) == (g, 0nat)
    &&& p.fuse_conv_batch_norm ==> norms_folded(g) == (g, 0nat)
    &&& p.fuse_matmul_add_bias ==> matmul_biases_fused(g, o) == (g, 0nat)
}

/// Whether a round on `g` changes nothing.
spec fn settled(g: Graph, o: Options) -> bool {
    settled_folds(g, o) && settled_merges(g, o)
}

proof fn lemma_still(r: Round, enabled: bool, pass: Seq<char>, result: (Graph, nat))
    requires
        !r.after(enabled, pass, result).changed,
    ensures
        !r.changed,
        enabled ==> result.1 == 0,
{
}

/// The state after the folding passes.
spec fn half_round(g: Graph, o: Options, report: Report) -> Round {
    let p = o.passes;
    let r = Round { graph: g, report, changed: false };
    let r = r.after(
        p.flush_subnormal_initializers,
        "flush_subnormal_initializers"@,
        subnormals_flushed(r.graph),
    );
    let r = r.after(
        p.fuse_constant_reshape,
        "fuse_constant_reshape"@,
        folded(Fold::Reshape, r.graph, o),
    );
    let r = r.after(
        p.fuse_constant_unsqueeze,
        "fuse_constant_unsqueeze"@,
        folded(Fold::Unsqueeze, r.graph, o),
    );
    let r = r.after(p.fuse_constant_cast, "fuse_constant_cast"@, folded(Fold::Cast, r.graph, o));
    r.after(
        p.eliminate_arithmetic_identity,
        "eliminate_arithmetic_identity"@,
        folded(Fold::Identity, r.graph, o),
    )
}

/// The state after the merging passes.
spec fn other_half(r: Round, o: Options) -> Round {
    let p = o.passes;
    let r = r.after(
        p.optimize_transpose,
        "optimize_transpose"@,
        transposes_optimized(r.graph, o),
    );
    let r = r.after(
        p.materialize_conv_kernel_shape,
        "materialize_conv_kernel_shape"@,
        kernels_materialized(r.graph),
    );
    let r = r.after(
        p.fuse_conv_add_bias,
        "fuse_conv_add_bias"@,
        conv_biases_fused(r.graph, o),
    );
    let r = r.after(p.fuse_conv_batch_norm, "fuse_conv_batch_norm"@, norms_folded(r.graph));
    r.after(p.fuse_matmul_add_bias, "fuse_matmul_add_bias"@, matmul_biases_fused(r.graph, o))
}

proof fn lemma_halves(g: Graph, o: Options, report: Report)
    ensures
        round_done(g, o, report) == other_half(half_round(g, o, report), o),
{
}

proof fn lemma_half_settles(g: Graph, o: Options, report: Report)
    requires
        subgraphs(g).len() == 0,
        !half_round(g, o, report).changed,
    ensures
        settled_folds(half_round(g, o, report).graph, o),
        subgraphs(half_round(g, o, report).graph).len() == 0,
{
    reveal(settled_folds);
    let p = o.passes;
    let r0 = Round { graph: g, report, changed: false };
    let s1 = subnormals_flushed(g);
    let r1 = r0.after(p.flush_subnormal_initializers, "flush_subnormal_initializers"@, s1);
    let h = r1.graph;
    let s2 = folded(Fold::Reshape, h, o);
    let r2 = r1.after(p.fuse_constant_reshape, "fuse_constant_reshape"@, s2);
    let s3 = folded(Fold::Unsqueeze, r2.graph, o);
    let r3 = r2.after(p.fuse_constant_unsqueeze, "fuse_constant_unsqueeze"@, s3);
    let s4 = folded(Fold::Cast, r3.graph, o);
    let r4 = r3.after(p.fuse_constant_cast, "fuse_constant_cast"@, s4);
    let s5 = folded(Fold::Identity, r4.graph, o);
    let r5 = r4.after(p.eliminate_arithmetic_identity, "eliminate_arithmetic_identity"@, s5);
    assert(r5 == half_round(g, o, report));
    lemma_still(r4, p.eliminate_arithmetic_identity, "eliminate_arithmetic_identity"@, s5);
    lemma_still(r3, p.fuse_constant_cast, "fuse_constant_cast"@, s4);
    lemma_still(r2, p.fuse_constant_unsqueeze, "fuse_constant_unsqueeze"@, s3);
    lemma_still(r1, p.fuse_constant_reshape, "fuse_constant_reshape"@, s2);
    lemma_still(r0, p.flush_subnormal_initializers, "flush_subnormal_initializers"@, s1);
    if p.flush_subnormal_initializers {
        lemma_flush_settled(g);
    }
    if p.fuse_constant_reshape {
        lemma_folded_settled(Fold::Reshape, h, o);
    }
    assert(r2.graph == h);
    if p.fuse_constant_unsqueeze {
        lemma_folded_settled(Fold::Unsqueeze, h, o);
    }
    assert(r3.graph == h);
    if p.fuse_constant_cast {
        lemma_folded_settled(Fold::Cast, h, o);
    }
    assert(r4.graph == h);
    if p.eliminate_arithmetic_identity {
        lemma_folded_settled(Fold::Identity, h, o);
    }
}

proof fn lemma_other_half_settles(r: Round, o: Options)
    requires
        subgraphs(r.graph).len() == 0,
        !other_half(r, o).changed,
    ensures
        !r.changed,
        other_half(r, o).graph == r.graph,
        settled_merges(r.graph, o),
{
    reveal(settled_merges);
    let p = o.passes;
    let h = r.graph;
    let s1 = transposes_optimized(h, o);
    let r1 = r.after(p.optimize_transpose, "optimize_transpose"@, s1);
    let s2 = kernels_materialized(r1.graph);
    let r2 = r1.after(p.materialize_conv_kernel_shape, "materialize_conv_kernel_shape"@, s2);
    let s3 = conv_biases_fused(r2.graph, o);
    let r3 = r2.after(p.fuse_conv_add_bias, "fuse_conv_add_bias"@, s3);
    let s4 = norms_folded(r3.graph);
    let r4 = r3.after(p.fuse_conv_batch_norm, "fuse_conv_batch_norm"@, s4);
    let s5 = matmul_biases_fused(r4.graph, o);
    let r5 = r4.after(p.fuse_matmul_add_bias, "fuse_matmul_add_bias"@, s5);
    assert(r5 == other_half(r, o));
    lemma_still(r4, p.fuse_matmul_add_bias, "fuse_matmul_add_bias"@, s5);
    lemma_still(r3, p.fuse_conv_batch_norm, "fuse_conv_batch_norm"@, s4);
    lemma_still(r2, p.fuse_conv_add_bias, "fuse_conv_add_bias"@, s3);
    lemma_still(r1, p.materialize_conv_kernel_shape, "materialize_conv_kernel_shape"@, s2);
    lemma_still(r, p.optimize_transpose, "optimize_transpose"@, s1);
    if p.optimize_transpose {
        lemma_transposes_settled(h, o);
    }
    assert(r1.graph == h);
    if p.materialize_conv_kernel_shape {
        lemma_kernels_settled(h);
    }
    assert(r2.graph == h);
    assert(r3.graph == h);
    assert(r4.graph == h);
}

proof fn lemma_round_settles(g: Graph, o: Options, report: Report)
    requires
        subgraphs(g).len() == 0,
        !round_done(g, o, report).changed,
    ensures
        settled(round_done(g, o, report).graph, o),
{
    lemma_halves(g, o, report);
    let r = half_round(g, o, report);
    if r.changed {
        lemma_changed_stays(r, o);
    }
    lemma_half_settles(g, o, report);
    lemma_other_half_settles(r, o);
}

proof fn lemma_changed_stays(r: Round, o: Options)
    requires
        r.changed,
    ensures
        other_half(r, o).changed,
{
}

/// A round keeps a graph without subgraphs without.
proof fn lemma_round_flat(g: Graph, o: Options, report: Report)
    requires
        subgraphs(g).len() == 0,
    ensures
        subgraphs(round_done(g, o, report).graph).len() == 0,
{
    let h = round_done(g, o, report).graph;
    lemma_round_kept(g, o, report);
    lemma_kept_flat(g, h);
}

proof fn lemma_kept_flat(g: Graph, h: Graph)
    requires
        subgraphs(g).len() == 0,
        kept_by_pass(g, h),
    ensures
        subgraphs(h).len() == 0,
{
    reveal(kept_by_pass);
    lemma_no_subgraphs(g.node);
    lemma_no_subgraphs(h.node);
    lemma_plain_without_subgraphs(g.node);
    assert(nodes_total(h.node, Counted::Graphs) == nodes_total(g.node, Counted::Graphs));
}

/// One step of the rounds.
proof fn lemma_rounds_step(g: Graph, o: Options, report: Report, i: nat)
    requires
        i < o.max_iterations,
    ensures
        ({
            let r = round_done(g, o, report);
            let counted = Report { iterations: (i + 1) as usize, ..r.report };
            rounds_done(g, o, report, i) == if r.changed {
                rounds_done(r.graph, o, counted, i + 1)
            } else {
                (r.graph, counted)
            }
        }),
{
}

proof fn lemma_rounds_settle(g: Graph, o: Options, report: Report, i: nat)
    requires
        subgraphs(g).len() == 0,
        i <= o.max_iterations,
        i > 0 ==> report.iterations == i,
        i == 0 ==> o.max_iterations > 0,
        rounds_done(g, o, report, i).1.iterations < o.max_iterations,
    ensures
        settled(rounds_done(g, o, report, i).0, o),
    decreases o.max_iterations - i,
{
    if i >= o.max_iterations {
        assert(rounds_done(g, o, report, i) == (g, report));
        assert(false);
    }
    lemma_rounds_step(g, o, report, i);
    if round_done(g, o, report).changed {
        lemma_round_flat(g, o, report);
        let h = round_done(g, o, report).graph;
        let counted = Report { iterations: (i + 1) as usize, ..round_done(g, o, report).report };
        lemma_rounds_settle(h, o, counted, i + 1);
    } else {
        lemma_round_settles(g, o, report);
    }
}

proof fn lemma_plain_without_subgraphs(list: Seq<Node>)
    requires
        nodes_subgraphs(list).len() == 0,
    ensures
        plain_where_dropped(list),
        forall|i: int|
            0 <= i < list.len() ==> attributes_subgraphs((#[trigger] list[i]).attribute).len() == 0,
    decreases list.len(),
{
    if list.len() > 0 {
        let front = list.drop_last();
        lemma_plain_without_subgraphs(front);
        assert forall|i: int| 0 <= i < list.len() implies attributes_subgraphs(
            (#[trigger] list[i]).attribute,
        ).len() == 0 by {
            if i < front.len() {
                assert(front[i] == list[i]);
            }
        }
    }
}

proof fn lemma_settled_round(g: Graph, o: Options, report: Report)
    requires
        settled(g, o),
    ensures
        round_done(g, o, report) == (Round { graph: g, report, changed: false }),
{
    reveal(settled_folds);
    reveal(settled_merges);
    lemma_halves(g, o, report);
    let r = half_round(g, o, report);
    assert(r == Round { graph: g, report, changed: false });
    assert(other_half(r, o) == r);
}

/// The report that a run starts with.
spec fn begun(g: Graph) -> Report {
    Report {
        nodes_before: g.node.len() as usize,
        initializers_before: g.initializer.len() as usize,
        ..empty_report()
    }
}

/// The report that a run ends with.
spec fn ended(g: Graph, report: Report) -> Report {
    Report {
        nodes_after: plus(report.nodes_after, g.node.len() as usize),
        initializers_after: plus(report.initializers_after, g.initializer.len() as usize),
        ..report
    }
}

proof fn lemma_run_without_subgraphs(g: Graph, o: Options)
    requires
        subgraphs(g).len() == 0,
        o.level != OptimizationLevel::Off,
    ensures
        optimized(g, o).0 == rounds_done(g, o, begun(g), 0).0,
        optimized(g, o).1 == Ok::<Report, ErrorView>(
            ended(optimized(g, o).0, rounds_done(g, o, begun(g), 0).1),
        ),
{
    let (subs, r) = subgraphs_optimized(g, inner_options(o), 1, begun(g), 0);
    assert(subs == subgraphs(g));
    lemma_with_subgraphs(g, subs, subs);
}

/// The run on a graph in which a round changes nothing.
proof fn lemma_settled_run(g: Graph, o: Options)
    requires
        settled(g, o),
        o.max_iterations > 0,
    ensures
        rounds_done(g, o, begun(g), 0) == (g, Report { iterations: 1, ..begun(g) }),
{
    lemma_settled_round(g, o, begun(g));
}

/// What the first run leaves: a graph without subgraphs in which a round changes nothing.
proof fn lemma_first_run(g: Graph, o: Options)
    requires
        subgraphs(g).len() == 0,
        o.max_iterations > 0,
        rounds_done(g, o, begun(g), 0).1.iterations < o.max_iterations,
    ensures
        settled(rounds_done(g, o, begun(g), 0).0, o),
        subgraphs(rounds_done(g, o, begun(g), 0).0).len() == 0,
        rounds_done(g, o, begun(g), 0).1.nodes_after == 0,
        rounds_done(g, o, begun(g), 0).1.initializers_after == 0,
{
    let h = rounds_done(g, o, begun(g), 0).0;
    lemma_rounds_settle(g, o, begun(g), 0);
    lemma_rounds_kept(g, o, begun(g), 0);
    lemma_rounds_counts(g, o, begun(g), 0);
    reveal(kept_by_pass);
    lemma_plain_without_subgraphs(g.node);
    lemma_no_subgraphs(g.node);
    lemma_no_subgraphs(h.node);
}

/// A second run with the same options changes nothing and reports no change, where the first one
/// on a graph without subgraphs stopped before the last round that the options allow.
pub proof fn law_second_run_changes_nothing(g: Graph, o: Options)
    requires
        subgraphs(g).len() == 0,
        optimized(g, o).1 is Ok,
        optimized(g, o).1->Ok_0.iterations < o.max_iterations,
    ensures
        ({
            let (h, first) = optimized(g, o);
            let (last, second) = optimized(h, o);
            &&& last == h
            &&& second is Ok
            &&& second->Ok_0.pass_changes.len() == 0
            &&& !second->Ok_0.some_change()
            &&& second->Ok_0.nodes_before == second->Ok_0.nodes_after
            &&& second->Ok_0.nodes_after == first->Ok_0.nodes_after
            &&& second->Ok_0.initializers_before == second->Ok_0.initializers_after
            &&& second->Ok_0.initializers_after == first->Ok_0.initializers_after
        }),
{
    if o.level != OptimizationLevel::Off {
        let h = optimized(g, o).0;
        lemma_run_without_subgraphs(g, o);
        lemma_first_run(g, o);
        lemma_run_without_subgraphs(h, o);
        lemma_settled_run(h, o);
        let first = optimized(g, o).1->Ok_0;
        let second = optimized(h, o).1->Ok_0;
        assert(first.nodes_after == plus(0, h.node.len() as usize));
        assert(second.nodes_after == plus(0, h.node.len() as usize));
    }
}

/// What is known of shapes outside a subgraph is not used in it: with other shapes the subgraphs
/// come out the same.
pub proof fn law_shapes_stay_outside(g: Graph, o: Options, shapes: Map<Seq<char>, Seq<i64>>, depth: nat)
    requires
        depth <= MAX_OPTIMIZER_SUBGRAPH_DEPTH,
    ensures
        ({
            let p = Options { shapes, ..o };
            let start = Report {
                nodes_before: g.node.len() as usize,
                initializers_before: g.initializer.len() as usize,
                ..empty_report()
            };
            subgraphs_optimized(g, inner_options(o), depth + 1, start, subgraphs(g).len())
                == subgraphs_optimized(g, inner_options(p), depth + 1, start, subgraphs(g).len())
        }),
{
    let p = Options { shapes, ..o };
    assert(inner_options(o) == inner_options(p));
}

} // verus!
