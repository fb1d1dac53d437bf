//! Graph optimization: constants are folded, neutral operations dropped and neighbouring nodes
//! merged, round after round until nothing changes.

use crate::converter::optimizer::batch_norm::{
    flush_subnormal_initializers, fuse_conv_batch_norm, norms_folded, subnormals_flushed,
};
use crate::converter::optimizer::folds::{folded, run_fold, Fold};
use crate::converter::optimizer::fusions::{
    conv_biases_fused, fuse_conv_add_bias, fuse_matmul_add_bias, kernels_materialized,
    materialize_conv_kernel_shape, matmul_biases_fused, optimize_transpose, transposes_optimized,
};
use crate::converter::optimizer::options::{
    inner_options, subgraph_options, OptimizationLevel, Options, OptimizerOptions,
};
use crate::converter::optimizer::report::{empty_report, plus, OptimizationReport, Report};
use crate::error::{message, Error, ErrorView};
use crate::nested::{
    attach, blanks, detach, height, lemma_subgraph_height, lemma_with_subgraphs, subgraphs,
    with_subgraphs,
};
use crate::onnx::{views, Graph, GraphProto};
use vstd::prelude::*;

pub mod batch_norm;
pub mod constants;
pub mod dims;
pub mod facts;
pub mod folds;
pub mod fusions;
pub mod options;
pub mod plan;
pub mod report;

verus! {

/// How deep subgraphs may nest.
pub const MAX_OPTIMIZER_SUBGRAPH_DEPTH: usize = 128;

/// The state of a round of passes: the graph, the report, and whether a pass of the round has
/// changed something.
#[verifier::ext_equal]
pub struct Round {
    pub graph: Graph,
    pub report: Report,
    pub changed: bool,
}

impl Round {
    /// The state after a pass, if it is enabled.
    pub open spec fn after(self, enabled: bool, pass: Seq<char>, result: (Graph, nat)) -> Round {
        if enabled {
            Round {
                graph: result.0,
                report: self.report.with(pass, result.1 as usize),
                changed: self.changed || result.1 > 0,
            }
        } else {
            self
        }
    }
}

/// The state after every enabled pass has run once.
pub open spec fn round_done(g: Graph, o: Options, report: Report) -> Round {
    let p = o.passes;
    let r = Round { graph: g, report, changed: false };
    let r = r.after(
        p.flush_subnormal_initializers,
        "flush_subnormal_initializers"@,
        subnormals_flushed(r.graph),
    );
    let r = r.after(
        p.fuse_constant_reshape,
        "fuse_constant_reshape"@,
        folded(Fold::Reshape, r.graph, o),
    );
    let r = r.after(
        p.fuse_constant_unsqueeze,
        "fuse_constant_unsqueeze"@,
        folded(Fold::Unsqueeze, r.graph, o),
    );
    let r = r.after(p.fuse_constant_cast, "fuse_constant_cast"@, folded(Fold::Cast, r.graph, o));
    let r = r.after(
        p.eliminate_arithmetic_identity,
        "eliminate_arithmetic_identity"@,
        folded(Fold::Identity, r.graph, o),
    );
    let r = r.after(
        p.optimize_transpose,
        "optimize_transpose"@,
        transposes_optimized(r.graph, o),
    );
    let r = r.after(
        p.materialize_conv_kernel_shape,
        "materialize_conv_kernel_shape"@,
        kernels_materialized(r.graph),
    );
    let r = r.after(
        p.fuse_conv_add_bias,
        "fuse_conv_add_bias"@,
        conv_biases_fused(r.graph, o),
    );
    let r = r.after(p.fuse_conv_batch_norm, "fuse_conv_batch_norm"@, norms_folded(r.graph));
    r.after(p.fuse_matmul_add_bias, "fuse_matmul_add_bias"@, matmul_biases_fused(r.graph, o))
}

/// The graph and the report after rounds from number `i` on, until one changes nothing or as many
/// are done as the options allow.
pub open spec fn rounds_done(g: Graph, o: Options, report: Report, i: nat) -> (Graph, Report)
    decreases o.max_iterations - i,
{
    if i >= o.max_iterations {
        (g, report)
    } else {
        let r = round_done(g, o, report);
        let counted = Report { iterations: (i + 1) as usize, ..r.report };
        if r.changed {
            rounds_done(r.graph, o, counted, i + 1)
        } else {
            (r.graph, counted)
        }
    }
}

/// The error for subgraphs that nest too deep.
pub open spec fn optimizer_too_deep() -> ErrorView {
    message("maximum ONNX subgraph optimizer depth 128 exceeded"@)
}

/// The subgraphs of a graph after the first `k` of them have been optimized in turn, and the
/// report with theirs merged in. The first failure stops.
pub open spec fn subgraphs_optimized(g: Graph, o: Options, depth: nat, report: Report, k: nat) -> (
    Seq<Graph>,
    Result<Report, ErrorView>,
)
    decreases height(g), 0nat, k,
    via subgraphs_optimized_decreases
{
    if k == 0 || k > subgraphs(g).len() {
        (subgraphs(g), Ok(report))
    } else {
        let (subs, r) = subgraphs_optimized(g, o, depth, report, (k - 1) as nat);
        match r {
            Err(e) => (subs, Err(e)),
            Ok(report) => {
                let (h, child) = graph_optimized(subgraphs(g)[k - 1], o, depth);
                (
                    subs.update(k - 1, h),
                    match child {
                        Ok(child) => Ok(report.merged(child)),
                        Err(e) => Err(e),
                    },
                )
            },
        }
    }
}

#[via_fn]
proof fn subgraphs_optimized_decreases(g: Graph, o: Options, depth: nat, report: Report, k: nat) {
    if !(k == 0 || k > subgraphs(g).len()) {
        lemma_subgraph_height(g, k - 1);
    }
}

/// The graph after optimization, and the report: first the subgraphs, then the graph itself.
pub open spec fn graph_optimized(g: Graph, o: Options, depth: nat) -> (
    Graph,
    Result<Report, ErrorView>,
)
    decreases height(g), 1nat, 0nat,
{
    if depth > MAX_OPTIMIZER_SUBGRAPH_DEPTH {
        (g, Err(optimizer_too_deep()))
    } else {
        let start = Report {
            nodes_before: g.node.len() as usize,
            initializers_before: g.initializer.len() as usize,
            ..empty_report()
        };
        let (subs, r) = subgraphs_optimized(
            g,
            inner_options(o),
            depth + 1,
            start,
            subgraphs(g).len(),
        );
        let h = with_subgraphs(g, subs);
        match r {
            Err(e) => (h, Err(e)),
            Ok(report) => {
                let (last, report) = rounds_done(h, o, report, 0);
                (
                    last,
                    Ok(
                        Report {
                            nodes_after: plus(report.nodes_after, last.node.len() as usize),
                            initializers_after: plus(
                                report.initializers_after,
                                last.initializer.len() as usize,
                            ),
                            ..report
                        },
                    ),
                )
            },
        }
    }
}

/// What [`GraphOptimizer::optimize_graph`] does: nothing at level `Off` but count.
pub open spec fn optimized(g: Graph, o: Options) -> (Graph, Result<Report, ErrorView>) {
    if o.level == OptimizationLevel::Off {
        (
            g,
            Ok(
                Report {
                    nodes_before: g.node.len() as usize,
                    nodes_after: g.node.len() as usize,
                    initializers_before: g.initializer.len() as usize,
                    initializers_after: g.initializer.len() as usize,
                    ..empty_report()
                },
            ),
        )
    } else {
        graph_optimized(g, o, 0)
    }
}

/// The content of a result with a report.
pub open spec fn report_view(r: Result<OptimizationReport, Error>) -> Result<Report, ErrorView> {
    match r {
        Ok(report) => Ok(report@),
        Err(e) => Err(e@),
    }
}

/// Optimization keeps the number of subgraphs.
pub proof fn lemma_subgraphs_optimized_len(g: Graph, o: Options, depth: nat, report: Report, k: nat)
    ensures
        subgraphs_optimized(g, o, depth, report, k).0.len() == subgraphs(g).len(),
    decreases k,
{
    if k > 0 && k <= subgraphs(g).len() {
        lemma_subgraphs_optimized_len(g, o, depth, report, (k - 1) as nat);
    }
}

/// Once a subgraph is refused, the ones behind it are left alone.
pub proof fn lemma_subgraphs_optimized_err(
    g: Graph,
    o: Options,
    depth: nat,
    report: Report,
    k: nat,
    n: nat,
)
    requires
        k <= n <= subgraphs(g).len(),
        subgraphs_optimized(g, o, depth, report, k).1 is Err,
    ensures
        subgraphs_optimized(g, o, depth, report, n) == subgraphs_optimized(g, o, depth, report, k),
    decreases n,
{
    if k < n {
        lemma_subgraphs_optimized_err(g, o, depth, report, k, (n - 1) as nat);
    }
}

/// The optimizer.
pub struct GraphOptimizer;

impl GraphOptimizer {
    /// Optimizes a graph.
    pub fn optimize_graph(graph: &mut GraphProto, options: &OptimizerOptions) -> (r: Result<
        OptimizationReport,
        Error,
    >)
        ensures
            (final(graph)@, report_view(r)) == optimized(old(graph)@, options@),
    {
        if options.level == OptimizationLevel::Off {
            let mut report = OptimizationReport::default();
            report.nodes_before = graph.node.len();
            report.nodes_after = graph.node.len();
            report.initializers_before = graph.initializer.len();
            report.initializers_after = graph.initializer.len();
            return Ok(report);
        }
        Self::optimize_graph_checked(graph, options, 0)
    }

    fn optimize_subgraphs(
        subs: &mut Vec<GraphProto>,
        options: &OptimizerOptions,
        depth: usize,
        begun: OptimizationReport,
        Ghost(g): Ghost<Graph>,
    ) -> (r: Result<OptimizationReport, Error>)
        requires
            views(old(subs)@) == subgraphs(g),
        ensures
            (views(final(subs)@), report_view(r)) == subgraphs_optimized(
                g,
                options@,
                depth as nat,
                begun@,
                subgraphs(g).len(),
            ),
        decreases height(g), 0nat,
    {
        let ghost start = begun@;
        let ghost o = options@;
        let mut report = begun;
        let mut i: usize = 0;
        proof {
            assert(views(subs@).len() == subs@.len());
        }
        while i < subs.len()
            invariant
                i <= subs.len(),
                subs.len() == subgraphs(g).len(),
                o == options@,
                start == begun@,
                (views(subs@), Ok::<Report, ErrorView>(report@)) == subgraphs_optimized(
                    g,
                    o,
                    depth as nat,
                    start,
                    i as nat,
                ),
                forall|k: int| i <= k < subs.len() ==> (#[trigger] subs@[k])@ == subgraphs(g)[k],
            decreases subs.len() - i,
        {
            let ghost before = views(subs@);
            proof {
                lemma_subgraph_height(g, i as int);
                assert(subs@[i as int]@ == subgraphs(g)[i as int]);
            }
            let child = Self::optimize_graph_checked(&mut subs[i], options, depth);
            proof {
                assert(views(subs@) =~= before.update(i as int, subs@[i as int]@));
            }
            match child {
                Ok(child) => {
                    report.merge(child);
                },
                Err(e) => {
                    proof {
                        lemma_subgraphs_optimized_err(
                            g,
                            o,
                            depth as nat,
                            start,
                            (i + 1) as nat,
                            subgraphs(g).len(),
                        );
                    }
                    return Err(e);
                },
            }
            i = i + 1;
        }
        Ok(report)
    }

    fn optimize_graph_checked(
        graph: &mut GraphProto,
        options: &OptimizerOptions,
        depth: usize,
    ) -> (r: Result<OptimizationReport, Error>)
        ensures
            (final(graph)@, report_view(r)) == graph_optimized(
                old(graph)@,
                options@,
                depth as nat,
            ),
        decreases height(old(graph)@), 1nat,
    {
        let ghost g = graph@;
        if depth > MAX_OPTIMIZER_SUBGRAPH_DEPTH {
            return Err(Error::text("maximum ONNX subgraph optimizer depth 128 exceeded"));
        }
        let mut report = OptimizationReport::default();
        report.nodes_before = graph.node.len();
        report.initializers_before = graph.initializer.len();
        let inner = subgraph_options(options);
        let ghost start = report@;
        let mut subs = detach(graph);
        let result = Self::optimize_subgraphs(&mut subs, &inner, depth + 1, report, Ghost(g));
        proof {
            lemma_subgraphs_optimized_len(
                g,
                inner@,
                (depth + 1) as nat,
                start,
                subgraphs(g).len(),
            );
            assert(views(subs@).len() == subs@.len());
            lemma_with_subgraphs(g, blanks(subgraphs(g).len()), views(subs@));
        }
        attach(graph, subs);
        let mut report = match result {
            Ok(report) => report,
            Err(e) => {
                return Err(e);
            },
        };
        let ghost h = graph@;
        let ghost merged = report@;
        let mut i: usize = 0;
        let mut more = true;
        while i < options.max_iterations && more
            invariant
                i <= options.max_iterations,
                more ==> rounds_done(h, options@, merged, 0) == rounds_done(
                    graph@,
                    options@,
                    report@,
                    i as nat,
                ),
                !more ==> rounds_done(h, options@, merged, 0) == (graph@, report@),
            decreases options.max_iterations - i,
        {
            more = Self::run_round(graph, options, &mut report);
            i = i + 1;
            report.iterations = i;
        }
        report.nodes_after = report.nodes_after.wrapping_add(graph.node.len());
        report.initializers_after = report.initializers_after.wrapping_add(graph.initializer.len());
        Ok(report)
    }

    fn run_round(
        graph: &mut GraphProto,
        options: &OptimizerOptions,
        report: &mut OptimizationReport,
    ) -> (changed: bool)
        ensures
            (Round { graph: final(graph)@, report: final(report)@, changed }) == round_done(
                old(graph)@,
                options@,
                old(report)@,
            ),
    {
        let passes = options.passes;
        let mut changed = false;
        if passes.flush_subnormal_initializers {
            let changes = flush_subnormal_initializers(graph);
            report.record("flush_subnormal_initializers", changes);
            changed = changed || changes > 0;
        }
        if passes.fuse_constant_reshape {
            let changes = run_fold(Fold::Reshape, graph, options);
            report.record("fuse_constant_reshape", changes);
            changed = changed || changes > 0;
        }
        if passes.fuse_constant_unsqueeze {
            let changes = run_fold(Fold::Unsqueeze, graph, options);
            report.record("fuse_constant_unsqueeze", changes);
            changed = changed || changes > 0;
        }
        if passes.fuse_constant_cast {
            let changes = run_fold(Fold::Cast, graph, options);
            report.record("fuse_constant_cast", changes);
            changed = changed || changes > 0;
        }
        if passes.eliminate_arithmetic_identity {
            let changes = run_fold(Fold::Identity, graph, options);
            report.record("eliminate_arithmetic_identity", changes);
            changed = changed || changes > 0;
        }
        if passes.optimize_transpose {
            let changes = optimize_transpose(graph, options);
            report.record("optimize_transpose", changes);
            changed = changed || changes > 0;
        }
        if passes.materialize_conv_kernel_shape {
            let changes = materialize_conv_kernel_shape(graph);
            report.record("materialize_conv_kernel_shape", changes);
            changed = changed || changes > 0;
        }
        if passes.fuse_conv_add_bias {
            let changes = fuse_conv_add_bias(graph, options);
            report.record("fuse_conv_add_bias", changes);
            changed = changed || changes > 0;
        }
        if passes.fuse_conv_batch_norm {
            let changes = fuse_conv_batch_norm(graph);
            report.record("fuse_conv_batch_norm", changes);
            changed = changed || changes > 0;
        }
        if passes.fuse_matmul_add_bias {
            let changes = fuse_matmul_add_bias(graph, options);
            report.record("fuse_matmul_add_bias", changes);
            changed = changed || changes > 0;
        }
        changed
    }
}

} // verus!
