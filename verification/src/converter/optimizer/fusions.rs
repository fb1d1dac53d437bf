//! Passes that merge neighbouring nodes.

use crate::converter::optimizer::constants::{
    attr_ints_of, attribute_named, const_named, const_value, has_attr, ints_named, set_attr_ints,
    set_const_value, with_const, with_ints, Const,
};
use crate::converter::optimizer::dims::{
    broadcasts_into, compose, composable, composed, identity_perm, is_identity_perm,
    unidir_broadcastable_to,
};
use crate::converter::optimizer::facts::{
    analyze, initializer_of, lemma_producer_bound, producer_of, used_once, GraphFacts,
};
use crate::converter::optimizer::folds::{folded, run_fold, Fold};
use crate::converter::optimizer::options::{
    dtype_of, known_shape, lookup_shape, shape_of, tensor_dtype, tensor_shape, Options,
    OptimizerOptions,
};
use crate::converter::optimizer::plan::lemma_rename_uses_len;
use crate::dtype::{BFLOAT16, DOUBLE, FLOAT, FLOAT16};
use crate::float::ONE_SINGLE;
use crate::onnx::{
    attr_float, attr_int, attr_ints, float_attribute, int_attribute, ints_attribute, Graph,
    GraphProto, Node, NodeProto, Tensor,
};
use crate::scope::{
    rename_uses, replace_inputs_recursive, retain_graph_nodes, retained, rewrite_is_safe,
    rewrite_safe, value_named,
};
use crate::text::same;
use vstd::prelude::*;

verus! {

/// Flags that drop up to two nodes.
pub open spec fn all_but(count: nat, a: int, b: int) -> Seq<bool> {
    Seq::new(count, |i: int| i != a && i != b)
}

/// The graph without nodes `a` and `b`.
pub open spec fn without(g: Graph, a: int, b: int) -> Graph {
    Graph { node: retained(g.node, all_but(g.node.len(), a, b)), ..g }
}

/// Dropping a node makes the list shorter.
pub proof fn lemma_retained_shorter<T>(list: Seq<T>, keep: Seq<bool>, i: int)
    requires
        0 <= i < list.len(),
        !keep[i],
    ensures
        retained(list, keep).len() < list.len(),
    decreases list.len(),
{
    lemma_retained_len(list.drop_last(), keep);
    if i < list.len() - 1 {
        lemma_retained_shorter(list.drop_last(), keep, i);
    }
}

/// Dropping nodes makes the list no longer.
pub proof fn lemma_retained_len<T>(list: Seq<T>, keep: Seq<bool>)
    ensures
        retained(list, keep).len() <= list.len(),
    decreases list.len(),
{
    if list.len() > 0 {
        lemma_retained_len(list.drop_last(), keep);
    }
}

pub fn drop_nodes(graph: &mut GraphProto, a: usize, b: usize)
    requires
        a < old(graph).node.len(),
    ensures
        final(graph)@ == without(old(graph)@, a as int, b as int),
        final(graph)@.node.len() < old(graph)@.node.len(),
{
    let count = graph.node.len();
    let mut keep: Vec<bool> = Vec::new();
    let mut i: usize = 0;
    while i < count
        invariant
            i <= count,
            keep@ =~= all_but(i as nat, a as int, b as int),
        decreases count - i,
    {
        keep.push(i != a && i != b);
        i = i + 1;
    }
    proof {
        lemma_retained_shorter(graph@.node, keep@, a as int);
    }
    retain_graph_nodes(graph, &keep);
}

/// The graph with one node replaced.
pub open spec fn with_node_at(g: Graph, i: int, n: Node) -> Graph {
    Graph { node: g.node.update(i, n), ..g }
}

// ---- Two transposes in a row ----

/// The graph after the `Transpose` at position `i` and the one that feeds it alone are made one,
/// or both dropped where they undo each other.
pub open spec fn transposes_merged(g: Graph, i: int) -> Option<Graph> {
    let n = g.node[i];
    if n.op_type != "Transpose"@ || n.input.len() != 1 || n.output.len() != 1 || value_named(
        g.output,
        n.output[0],
    ) || !used_once(g, n.input[0]) {
        None
    } else {
        match producer_of(g.node, n.input[0]) {
            None => None,
            Some(p) => {
                let m = g.node[p as int];
                match (ints_named(m, "perm"@), ints_named(n, "perm"@)) {
                    (Some(first), Some(second)) => if m.op_type != "Transpose"@ || m.input.len()
                        != 1 || first.len() != second.len() || !composable(first, second) {
                        None
                    } else if identity_perm(composed(first, second)) {
                        if rewrite_safe(g, n.output[0], m.input[0]) {
                            Some(without(rename_uses(g, n.output[0], m.input[0]), p as int, i))
                        } else {
                            None
                        }
                    } else {
                        Some(
                            without(
                                with_node_at(
                                    g,
                                    i,
                                    with_ints(
                                        Node { input: n.input.update(0, m.input[0]), ..n },
                                        "perm"@,
                                        composed(first, second),
                                    ),
                                ),
                                p as int,
                                p as int,
                            ),
                        )
                    },
                    _ => None,
                }
            },
        }
    }
}

/// The first merge of two transposes from position `i` on.
pub open spec fn first_transpose_merge(g: Graph, i: int) -> Option<Graph>
    decreases g.node.len() - i,
{
    if i < 0 || i >= g.node.len() {
        None
    } else if transposes_merged(g, i) is Some {
        transposes_merged(g, i)
    } else {
        first_transpose_merge(g, i + 1)
    }
}

/// The graph after the pass on transposes: those that move nothing are dropped, and where there is
/// none, the first two in a row are merged.
pub open spec fn transposes_optimized(g: Graph, o: Options) -> (Graph, nat) {
    let (h, changes) = folded(Fold::Transpose, g, o);
    if changes > 0 {
        (h, changes)
    } else {
        match first_transpose_merge(h, 0) {
            Some(merged) => (merged, 1),
            None => (h, 0),
        }
    }
}

fn merge_transposes(graph: &mut GraphProto, facts: &GraphFacts, i: usize) -> (done: bool)
    requires
        facts.describes(old(graph)@),
        i < old(graph).node.len(),
    ensures
        match transposes_merged(old(graph)@, i as int) {
            Some(merged) => done && final(graph)@ == merged,
            None => !done && *final(graph) == *old(graph),
        },
{
    let ghost g = graph@;
    let consumer = &graph.node[i];
    proof {
        assert(g.node[i as int] == consumer@);
        assert(consumer@.input.len() == consumer.input.len());
        assert(consumer@.output.len() == consumer.output.len());
    }
    if !same(consumer.op_type.as_str(), "Transpose") || consumer.input.len() != 1
        || consumer.output.len() != 1 {
        return false;
    }
    proof {
        assert(consumer@.input[0] == consumer.input@[0]@);
        assert(consumer@.output[0] == consumer.output@[0]@);
    }
    if facts.is_output(Ghost(g), consumer.output[0].as_str()) {
        return false;
    }
    let temp = &consumer.input[0];
    if !facts.single_use(Ghost(g), temp.as_str()) {
        return false;
    }
    let p: usize = match facts.producer(Ghost(g), temp.as_str()) {
        Some(p) => p,
        None => {
            return false;
        },
    };
    let producer = &graph.node[p];
    proof {
        assert(g.node[p as int] == producer@);
        assert(producer@.input.len() == producer.input.len());
    }
    let first = match attr_ints_of(producer, "perm") {
        Some(first) => first,
        None => {
            return false;
        },
    };
    let second = match attr_ints_of(consumer, "perm") {
        Some(second) => second,
        None => {
            return false;
        },
    };
    if !same(producer.op_type.as_str(), "Transpose") || producer.input.len() != 1 || first.len()
        != second.len() {
        return false;
    }
    proof {
        assert(producer@.input[0] == producer.input@[0]@);
    }
    let both = match compose(&first, &second) {
        Some(both) => both,
        None => {
            return false;
        },
    };
    let source = producer.input[0].clone();
    let output = consumer.output[0].clone();
    if is_identity_perm(&both) {
        if !rewrite_is_safe(graph, output.as_str(), source.as_str()) {
            return false;
        }
        replace_inputs_recursive(graph, output.as_str(), source.as_str());
        proof {
            lemma_rename_uses_len(g, output@, source@);
        }
        drop_nodes(graph, p, i);
    } else {
        let ghost before = graph.node@[i as int]@;
        graph.node[i].input[0] = source;
        proof {
            let mid = graph.node@[i as int]@;
            assert(mid.input =~= before.input.update(0, source@));
            assert(mid.attribute =~= before.attribute);
        }
        set_attr_ints(&mut graph.node[i], "perm", both);
        proof {
            assert(graph@.node =~= g.node.update(i as int, graph.node@[i as int]@));
        }
        drop_nodes(graph, p, p);
    }
    true
}

/// Drops transposes that move nothing, or else merges the first two in a row.
pub fn optimize_transpose(graph: &mut GraphProto, options: &OptimizerOptions) -> (changes: usize)
    ensures
        (final(graph)@, changes as nat) == transposes_optimized(old(graph)@, options@),
{
    let dropped = run_fold(Fold::Transpose, graph, options);
    if dropped > 0 {
        return dropped;
    }
    let ghost h = graph@;
    let facts = analyze(graph);
    let mut i: usize = 0;
    while i < graph.node.len()
        invariant
            i <= graph.node.len(),
            graph@ == h,
            facts.describes(h),
            folded(Fold::Transpose, old(graph)@, options@) == (h, 0nat),
            first_transpose_merge(h, 0) == first_transpose_merge(h, i as int),
        decreases graph.node.len() - i,
    {
        if merge_transposes(graph, &facts, i) {
            return 1;
        }
        i = i + 1;
    }
    0
}

// ---- Kernel shapes of convolutions ----

/// The node with the kernel shape that its weights imply, where it is a convolution without one.
pub open spec fn kernel_node(g: Graph, n: Node) -> Option<Node> {
    if (n.op_type != "Conv"@ && n.op_type != "ConvTranspose"@) || n.input.len() < 2
        || attribute_named(n, "kernel_shape"@) is Some {
        None
    } else {
        match initializer_of(g.initializer, n.input[1]) {
            None => None,
            Some(w) => {
                let dims = g.initializer[w as int].dims;
                if dims.len() < 3 || exists|k: int|
                    2 <= k < dims.len() && #[trigger] dims[k] <= 0 {
                    None
                } else {
                    Some(n.with(ints_attribute("kernel_shape"@, dims.skip(2))))
                }
            },
        }
    }
}

/// The first `k` nodes with their kernel shapes.
pub open spec fn kernel_nodes(g: Graph) -> Seq<Node> {
    Seq::new(
        g.node.len(),
        |i: int|
            match kernel_node(g, g.node[i]) {
                Some(n) => n,
                None => g.node[i],
            },
    )
}

/// How many of the first `k` nodes get a kernel shape.
pub open spec fn kernel_count(g: Graph, k: nat) -> nat
    decreases k,
{
    if k == 0 {
        0
    } else {
        kernel_count(g, (k - 1) as nat) + (if kernel_node(g, g.node[k - 1]) is Some {
            1nat
        } else {
            0
        })
    }
}

/// The graph after every convolution without a kernel shape has got the one that its weights imply.
pub open spec fn kernels_materialized(g: Graph) -> (Graph, nat) {
    (Graph { node: kernel_nodes(g), ..g }, kernel_count(g, g.node.len()))
}

fn kernel_of(dims: &Vec<i64>) -> (r: Option<Vec<i64>>)
    ensures
        match r {
            Some(kernel) => dims@.len() >= 3 && kernel@ == dims@.skip(2) && !(exists|k: int|
                2 <= k < dims@.len() && #[trigger] dims@[k] <= 0),
            None => dims@.len() < 3 || exists|k: int|
                2 <= k < dims@.len() && #[trigger] dims@[k] <= 0,
        },
{
    if dims.len() < 3 {
        return None;
    }
    let mut kernel: Vec<i64> = Vec::new();
    let mut k: usize = 2;
    while k < dims.len()
        invariant
            2 <= k <= dims.len(),
            kernel@ =~= dims@.subrange(2, k as int),
            forall|j: int| 2 <= j < k ==> #[trigger] dims@[j] > 0,
        decreases dims.len() - k,
    {
        if dims[k] <= 0 {
            return None;
        }
        kernel.push(dims[k]);
        k = k + 1;
    }
    Some(kernel)
}

/// Gives every convolution without a kernel shape the one that its weights imply.
pub fn materialize_conv_kernel_shape(graph: &mut GraphProto) -> (changes: usize)
    ensures
        (final(graph)@, changes as nat) == kernels_materialized(old(graph)@),
{
    let ghost g = graph@;
    let facts = analyze(graph);
    let mut changes: usize = 0;
    let mut i: usize = 0;
    while i < graph.node.len()
        invariant
            i <= graph.node.len(),
            changes <= i,
            g == old(graph)@,
            facts.describes(g),
            graph.node.len() == old(graph).node.len(),
            *graph == (GraphProto { node: graph.node, ..*old(graph) }),
            forall|k: int| i <= k < graph.node.len() ==> graph.node@[k] == old(graph).node@[k],
            forall|k: int| 0 <= k < i ==> (#[trigger] graph.node@[k])@ == kernel_nodes(g)[k],
            changes == kernel_count(g, i as nat),
        decreases graph.node.len() - i,
    {
        let node = &graph.node[i];
        proof {
            assert(g.node[i as int] == node@);
            assert(node@.input.len() == node.input.len());
        }
        let conv = same(node.op_type.as_str(), "Conv") || same(
            node.op_type.as_str(),
            "ConvTranspose",
        );
        let mut kernel: Option<Vec<i64>> = None;
        if conv && node.input.len() >= 2 && !has_attr(node, "kernel_shape") {
            proof {
                assert(node@.input[1] == node.input@[1]@);
            }
            match facts.initializer(Ghost(g), node.input[1].as_str()) {
                Some(w) => {
                    proof {
                        assert(g.initializer[w as int] == graph.initializer@[w as int]@);
                    }
                    kernel = kernel_of(&graph.initializer[w].dims);
                },
                None => {},
            }
        }
        match kernel {
            Some(kernel) => {
                let added = attr_ints("kernel_shape", &kernel);
                let ghost before = graph.node@[i as int]@;
                graph.node[i].attribute.push(added);
                proof {
                    assert(graph.node@[i as int]@.attribute =~= before.attribute.push(added@));
                }
                changes = changes + 1;
            },
            None => {},
        }
        i = i + 1;
    }
    proof {
        assert(graph@.node =~= kernel_nodes(g));
        assert(graph@.initializer =~= g.initializer);
    }
    changes
}

// ---- A bias after a convolution ----

/// The first input of a two-input node that a node with operator `op` produces: its position and
/// the producer's.
pub open spec fn fed_by(g: Graph, n: Node, op: Seq<char>) -> Option<(int, int)> {
    match producer_of(g.node, n.input[0]) {
        Some(p) if g.node[p as int].op_type == op => Some((0, p as int)),
        _ => match producer_of(g.node, n.input[1]) {
            Some(p) if g.node[p as int].op_type == op => Some((1, p as int)),
            _ => None,
        },
    }
}

fn find_feeder(graph: &GraphProto, facts: &GraphFacts, node: &NodeProto, op: &str) -> (r: Option<
    (usize, usize),
>)
    requires
        facts.describes(graph@),
        node.input.len() == 2,
    ensures
        match r {
            Some((at, p)) => at < 2 && p < graph.node.len() && fed_by(graph@, node@, op@) == Some(
                (at as int, p as int),
            ),
            None => fed_by(graph@, node@, op@) is None,
        },
        r matches Some((at, p)) ==> graph@.node[p as int].op_type == op@,
{
    proof {
        assert(node@.input[0] == node.input@[0]@);
        assert(node@.input[1] == node.input@[1]@);
    }
    match facts.producer(Ghost(graph@), node.input[0].as_str()) {
        Some(p) => {
            if same(graph.node[p].op_type.as_str(), op) {
                return Some((0, p));
            }
        },
        None => {},
    }
    match facts.producer(Ghost(graph@), node.input[1].as_str()) {
        Some(p) => {
            if same(graph.node[p].op_type.as_str(), op) {
                return Some((1, p));
            }
        },
        None => {},
    }
    None
}

/// The number of output channels of a convolution: the first size of its weights where that is
/// positive, or else the second size of its output where that is known and positive, or else zero.
pub open spec fn out_channels(weight: Tensor, shape: Option<Seq<i64>>) -> i64 {
    if weight.dims.len() > 0 && weight.dims[0] > 0 {
        weight.dims[0]
    } else {
        match shape {
            Some(shape) => if shape.len() > 1 && shape[1] > 0 {
                shape[1]
            } else {
                0
            },
            None => 0,
        }
    }
}

/// The addend as a bias of so many channels, where it is one. A list of the channels' values
/// aligns with the channels only in an output known to have two axes; one with a size of one at
/// every other of four axes loses those, if nothing else reads it.
pub open spec fn as_bias(
    bias: Const,
    channels: i64,
    shape: Option<Seq<i64>>,
    single: bool,
) -> Option<Const> {
    if bias.tensor.dims == seq![channels] {
        if shape is Some && (shape->0).len() == 2 {
            Some(bias)
        } else {
            None
        }
    } else if bias.tensor.dims == seq![1i64, channels, 1i64, 1i64] && single {
        Some(Const { tensor: Tensor { dims: seq![channels], ..bias.tensor }, ..bias })
    } else {
        None
    }
}

/// The graph after the addition at position `i` has become the bias of the convolution before it.
pub open spec fn conv_bias_fused(g: Graph, o: Options, i: int) -> Option<Graph> {
    let n = g.node[i];
    if n.op_type != "Add"@ || n.input.len() != 2 || n.output.len() != 1 {
        None
    } else {
        match fed_by(g, n, "Conv"@) {
            None => None,
            Some((at, p)) => {
                let conv = g.node[p];
                let bias_name = n.input[1 - at];
                if conv.input.len() != 2 || conv.output.len() != 1 || !used_once(
                    g,
                    conv.output[0],
                ) {
                    None
                } else {
                    match (const_named(g, bias_name), const_named(g, conv.input[1])) {
                        (Some(bias), Some(weight)) => {
                            let shape = known_shape(g, o, conv.output[0]);
                            let channels = out_channels(weight.tensor, shape);
                            if channels <= 0 {
                                None
                            } else {
                                match as_bias(bias, channels, shape, used_once(g, bias_name)) {
                                    None => None,
                                    Some(bias) => {
                                        let h = with_const(g, bias);
                                        let fused = Node {
                                            input: h.node[p].input.push(bias_name),
                                            output: h.node[p].output.update(0, n.output[0]),
                                            ..h.node[p]
                                        };
                                        Some(without(with_node_at(h, p, fused), i, i))
                                    },
                                }
                            }
                        },
                        _ => None,
                    }
                }
            },
        }
    }
}

/// The first such fusion from position `i` on.
pub open spec fn first_conv_bias(g: Graph, o: Options, i: int) -> Option<Graph>
    decreases g.node.len() - i,
{
    if i < 0 || i >= g.node.len() {
        None
    } else if conv_bias_fused(g, o, i) is Some {
        conv_bias_fused(g, o, i)
    } else {
        first_conv_bias(g, o, i + 1)
    }
}

/// The graph after such fusions until there is none left, and their number.
pub open spec fn conv_biases_fused(g: Graph, o: Options) -> (Graph, nat)
    decreases g.node.len(),
    via conv_biases_decreases
{
    match first_conv_bias(g, o, 0) {
        Some(h) => {
            let (last, count) = conv_biases_fused(h, o);
            (last, count + 1)
        },
        None => (g, 0),
    }
}

#[via_fn]
proof fn conv_biases_decreases(g: Graph, o: Options) {
    lemma_first_conv_bias(g, o, 0);
}

proof fn lemma_first_conv_bias(g: Graph, o: Options, i: int)
    requires
        0 <= i,
    ensures
        first_conv_bias(g, o, i) matches Some(h) ==> h.node.len() < g.node.len(),
    decreases g.node.len() - i,
{
    if i < g.node.len() {
        if conv_bias_fused(g, o, i) is Some {
            let n = g.node[i];
            let (at, p) = fed_by(g, n, "Conv"@)->0;
            lemma_producer_bound(g.node, n.input[0]);
            lemma_producer_bound(g.node, n.input[1]);
            let shape = known_shape(g, o, g.node[p].output[0]);
            let bias = const_named(g, n.input[1 - at])->0;
            lemma_const_update_len(g, n.input[1 - at]);
            let keep = all_but(g.node.len(), i, i);
            assert forall|list: Seq<Node>| list.len() == g.node.len() implies #[trigger] retained(
                list,
                keep,
            ).len() < g.node.len() by {
                lemma_retained_shorter(list, keep, i);
            }
        } else {
            lemma_first_conv_bias(g, o, i + 1);
        }
    }
}

/// Putting a constant that a name stands for in its place keeps the number of nodes.
proof fn lemma_const_update_len(g: Graph, name: Seq<char>)
    ensures
        const_named(g, name) matches Some(c) ==> forall|t: Tensor| #[trigger]
            with_const(g, Const { tensor: t, ..c }).node.len() == g.node.len(),
{
    lemma_producer_bound(g.node, name);
}

fn fuse_conv_bias_at(
    graph: &mut GraphProto,
    facts: &GraphFacts,
    options: &OptimizerOptions,
    i: usize,
) -> (done: bool)
    requires
        facts.describes(old(graph)@),
        i < old(graph).node.len(),
    ensures
        match conv_bias_fused(old(graph)@, options@, i as int) {
            Some(fused) => done && final(graph)@ == fused,
            None => !done && *final(graph) == *old(graph),
        },
        done ==> final(graph)@.node.len() < old(graph)@.node.len(),
{
    let ghost g = graph@;
    let ghost o = options@;
    let node = &graph.node[i];
    proof {
        assert(g.node[i as int] == node@);
        assert(node@.input.len() == node.input.len());
        assert(node@.output.len() == node.output.len());
    }
    if !same(node.op_type.as_str(), "Add") || node.input.len() != 2 || node.output.len() != 1 {
        return false;
    }
    proof {
        assert(node@.output[0] == node.output@[0]@);
    }
    let (at, p) = match find_feeder(graph, facts, node, "Conv") {
        Some(found) => found,
        None => {
            return false;
        },
    };
    let conv = &graph.node[p];
    proof {
        assert(g.node[p as int] == conv@);
        assert(conv@.input.len() == conv.input.len());
        assert(conv@.output.len() == conv.output.len());
        assert(node@.input[1 - at] == node.input@[1 - at]@);
    }
    if conv.input.len() != 2 || conv.output.len() != 1 {
        return false;
    }
    proof {
        assert(conv@.output[0] == conv.output@[0]@);
        assert(conv@.input[1] == conv.input@[1]@);
    }
    let conv_output = &conv.output[0];
    if !facts.single_use(Ghost(g), conv_output.as_str()) {
        return false;
    }
    let bias_name = node.input[1 - at].clone();
    let add_output = node.output[0].clone();
    let mut bias = match const_value(graph, facts, bias_name.as_str()) {
        Some(bias) => bias,
        None => {
            return false;
        },
    };
    let weight = match const_value(graph, facts, conv.input[1].as_str()) {
        Some(weight) => weight,
        None => {
            return false;
        },
    };
    let shape = lookup_shape(graph, facts, options, conv_output.as_str());
    let channels: i64 = if weight.tensor.dims.len() > 0 && weight.tensor.dims[0] > 0 {
        weight.tensor.dims[0]
    } else {
        match shape {
            Some(dims) => if dims.len() > 1 && dims[1] > 0 {
                dims[1]
            } else {
                0
            },
            None => 0,
        }
    };
    if channels <= 0 {
        return false;
    }
    let rank: usize = match shape {
        Some(dims) => dims.len(),
        None => 0,
    };
    let listed = bias.tensor.dims.len() == 1 && bias.tensor.dims[0] == channels;
    let spread = bias.tensor.dims.len() == 4 && bias.tensor.dims[0] == 1 && bias.tensor.dims[1]
        == channels && bias.tensor.dims[2] == 1 && bias.tensor.dims[3] == 1;
    proof {
        assert(listed == (bias.tensor.dims@ =~= seq![channels]));
        assert(spread == (bias.tensor.dims@ =~= seq![1i64, channels, 1i64, 1i64]));
    }
    if listed {
        if rank != 2 {
            return false;
        }
    } else if spread && facts.single_use(Ghost(g), bias_name.as_str()) {
        let dims: Vec<i64> = vec![channels];
        proof {
            assert(dims@ =~= seq![channels]);
        }
        bias.tensor.dims = dims;
    } else {
        return false;
    }
    let ghost put = bias@;
    proof {
        lemma_const_update_len(g, bias_name@);
        assert(as_bias(
            const_named(g, bias_name@)->0,
            channels,
            known_shape(g, o, conv_output@),
            used_once(g, bias_name@),
        ) == Some(put));
    }
    set_const_value(graph, bias);
    let ghost h = graph@;
    proof {
        assert(h == with_const(g, put));
        assert(h.node.len() == g.node.len());
        assert(h.node[p as int].output == g.node[p as int].output) by {
            assert(h.node[p as int].op_type == g.node[p as int].op_type);
        }
        assert(graph.node@[p as int]@ == h.node[p as int]);
        assert(h.node[p as int].output.len() == graph.node@[p as int].output@.len());
    }
    let ghost before = graph.node@[p as int];
    graph.node[p].input.push(bias_name);
    graph.node[p].output[0] = add_output;
    proof {
        let after = graph.node@[p as int];
        assert(after@.input =~= before@.input.push(bias_name@));
        assert(after@.output =~= before@.output.update(0, add_output@));
        assert(after@.attribute =~= before@.attribute);
        assert(graph@.node =~= h.node.update(p as int, after@));
    }
    drop_nodes(graph, i, i);
    true
}

/// Makes the first such fusion.
fn fuse_conv_add_bias_once(graph: &mut GraphProto, options: &OptimizerOptions) -> (done: bool)
    ensures
        match first_conv_bias(old(graph)@, options@, 0) {
            Some(fused) => done && final(graph)@ == fused,
            None => !done && *final(graph) == *old(graph),
        },
        done ==> final(graph)@.node.len() < old(graph)@.node.len(),
{
    let ghost g = graph@;
    let facts = analyze(graph);
    let mut i: usize = 0;
    while i < graph.node.len()
        invariant
            i <= graph.node.len(),
            *graph == *old(graph),
            graph@ == g,
            facts.describes(g),
            first_conv_bias(g, options@, 0) == first_conv_bias(g, options@, i as int),
        decreases graph.node.len() - i,
    {
        if fuse_conv_bias_at(graph, &facts, options, i) {
            return true;
        }
        i = i + 1;
    }
    false
}

/// Turns additions after convolutions into biases until none is left.
pub fn fuse_conv_add_bias(graph: &mut GraphProto, options: &OptimizerOptions) -> (changes: usize)
    ensures
        (final(graph)@, changes as nat) == conv_biases_fused(old(graph)@, options@),
{
    let mut changes: usize = 0;
    let mut more = fuse_conv_add_bias_once(graph, options);
    proof {
        if more {
            assert(conv_biases_fused(old(graph)@, options@).1 == conv_biases_fused(graph@, options@).1 + 1);
        }
    }
    while more
        invariant
            more ==> changes + 1 + graph.node.len() <= old(graph).node.len(),
            more ==> conv_biases_fused(old(graph)@, options@) == (
                conv_biases_fused(graph@, options@).0,
                (conv_biases_fused(graph@, options@).1 + changes + 1) as nat,
            ),
            !more ==> conv_biases_fused(old(graph)@, options@) == (graph@, changes as nat),
        decreases
            graph.node.len(),
            if more {
                1int
            } else {
                0int
            },
    {
        changes = changes + 1;
        more = fuse_conv_add_bias_once(graph, options);
    }
    changes
}

// ---- A bias after a matrix product ----

/// Whether `Gemm` takes the element type.
pub open spec fn gemm_dtype(dtype: i32, opset: i64) -> bool {
    dtype == FLOAT16 || dtype == FLOAT || dtype == DOUBLE || (opset >= 13 && dtype == BFLOAT16)
}

/// The graph after the matrix product before the addition at position `i`, and the addition, have
/// become one `Gemm`. The addend must not enlarge the product.
pub open spec fn matmul_bias_fused(g: Graph, o: Options, i: int) -> Option<Graph> {
    let n = g.node[i];
    if n.op_type != "Add"@ || n.input.len() != 2 || n.output.len() != 1 {
        None
    } else {
        match fed_by(g, n, "MatMul"@) {
            None => None,
            Some((at, p)) => {
                let product = g.node[p];
                let bias_name = n.input[1 - at];
                if product.input.len() != 2 || product.output.len() != 1 || !used_once(
                    g,
                    product.output[0],
                ) {
                    None
                } else {
                    match (
                        shape_of(g, o, product.input[0]),
                        shape_of(g, o, product.input[1]),
                        const_named(g, bias_name),
                        dtype_of(g, product.input[0]),
                        dtype_of(g, product.input[1]),
                    ) {
                        (Some(left), Some(right), Some(bias), Some(ltype), Some(rtype)) => {
                            if left.len() != 2 || right.len() != 2 || !gemm_dtype(
                                ltype,
                                o.target_opset,
                            ) || ltype != rtype || bias.tensor.data_type != ltype
                                || !broadcasts_into(bias.tensor.dims, seq![left[0], right[1]]) {
                                None
                            } else {
                                let fused = Node {
                                    op_type: "Gemm"@,
                                    input: product.input.push(bias_name),
                                    output: product.output.update(0, n.output[0]),
                                    ..product
                                };
                                Some(
                                    without(
                                        with_node_at(
                                            g,
                                            p,
                                            fused.with(
                                                float_attribute("alpha"@, ONE_SINGLE),
                                            ).with(float_attribute("beta"@, ONE_SINGLE)).with(
                                                int_attribute("transA"@, 0),
                                            ).with(int_attribute("transB"@, 0)),
                                        ),
                                        i,
                                        i,
                                    ),
                                )
                            }
                        },
                        _ => None,
                    }
                }
            },
        }
    }
}

/// The first such fusion from position `i` on.
pub open spec fn first_matmul_bias(g: Graph, o: Options, i: int) -> Option<Graph>
    decreases g.node.len() - i,
{
    if i < 0 || i >= g.node.len() {
        None
    } else if matmul_bias_fused(g, o, i) is Some {
        matmul_bias_fused(g, o, i)
    } else {
        first_matmul_bias(g, o, i + 1)
    }
}

/// The graph after such fusions until there is none left, and their number.
pub open spec fn matmul_biases_fused(g: Graph, o: Options) -> (Graph, nat)
    decreases g.node.len(),
    via matmul_biases_decreases
{
    match first_matmul_bias(g, o, 0) {
        Some(h) => {
            let (last, count) = matmul_biases_fused(h, o);
            (last, count + 1)
        },
        None => (g, 0),
    }
}

#[via_fn]
proof fn matmul_biases_decreases(g: Graph, o: Options) {
    lemma_first_matmul_bias(g, o, 0);
}

proof fn lemma_first_matmul_bias(g: Graph, o: Options, i: int)
    requires
        0 <= i,
    ensures
        first_matmul_bias(g, o, i) matches Some(h) ==> h.node.len() < g.node.len(),
    decreases g.node.len() - i,
{
    if i < g.node.len() {
        if matmul_bias_fused(g, o, i) is Some {
            let n = g.node[i];
            lemma_producer_bound(g.node, n.input[0]);
            lemma_producer_bound(g.node, n.input[1]);
            let keep = all_but(g.node.len(), i, i);
            assert forall|list: Seq<Node>| list.len() == g.node.len() implies #[trigger] retained(
                list,
                keep,
            ).len() < g.node.len() by {
                lemma_retained_shorter(list, keep, i);
            }
        } else {
            lemma_first_matmul_bias(g, o, i + 1);
        }
    }
}

/// Whether `Gemm` takes the element type.
pub fn gemm_supported_dtype(dtype: i32, target_opset: i64) -> (r: bool)
    ensures
        r == gemm_dtype(dtype, target_opset),
{
    dtype == FLOAT16 || dtype == FLOAT || dtype == DOUBLE || (target_opset >= 13 && dtype
        == BFLOAT16)
}

fn fuse_matmul_bias_at(
    graph: &mut GraphProto,
    facts: &GraphFacts,
    options: &OptimizerOptions,
    i: usize,
) -> (done: bool)
    requires
        facts.describes(old(graph)@),
        i < old(graph).node.len(),
    ensures
        match matmul_bias_fused(old(graph)@, options@, i as int) {
            Some(fused) => done && final(graph)@ == fused,
            None => !done && *final(graph) == *old(graph),
        },
        done ==> final(graph)@.node.len() < old(graph)@.node.len(),
{
    let ghost g = graph@;
    let ghost o = options@;
    let node = &graph.node[i];
    proof {
        assert(g.node[i as int] == node@);
        assert(node@.input.len() == node.input.len());
        assert(node@.output.len() == node.output.len());
    }
    if !same(node.op_type.as_str(), "Add") || node.input.len() != 2 || node.output.len() != 1 {
        return false;
    }
    proof {
        assert(node@.output[0] == node.output@[0]@);
    }
    let (at, p) = match find_feeder(graph, facts, node, "MatMul") {
        Some(found) => found,
        None => {
            return false;
        },
    };
    let product = &graph.node[p];
    proof {
        assert(g.node[p as int] == product@);
        assert(product@.input.len() == product.input.len());
        assert(product@.output.len() == product.output.len());
        assert(node@.input[1 - at] == node.input@[1 - at]@);
    }
    if product.input.len() != 2 || product.output.len() != 1 {
        return false;
    }
    proof {
        assert(product@.output[0] == product.output@[0]@);
        assert(product@.input[0] == product.input@[0]@);
        assert(product@.input[1] == product.input@[1]@);
    }
    if !facts.single_use(Ghost(g), product.output[0].as_str()) {
        return false;
    }
    let bias_name = node.input[1 - at].clone();
    let add_output = node.output[0].clone();
    let left = match tensor_shape(graph, facts, options, product.input[0].as_str()) {
        Some(left) => left,
        None => {
            return false;
        },
    };
    let right = match tensor_shape(graph, facts, options, product.input[1].as_str()) {
        Some(right) => right,
        None => {
            return false;
        },
    };
    let bias = match const_value(graph, facts, bias_name.as_str()) {
        Some(bias) => bias,
        None => {
            return false;
        },
    };
    let ltype: i32 = match tensor_dtype(graph, facts, product.input[0].as_str()) {
        Some(ltype) => ltype,
        None => {
            return false;
        },
    };
    let rtype: i32 = match tensor_dtype(graph, facts, product.input[1].as_str()) {
        Some(rtype) => rtype,
        None => {
            return false;
        },
    };
    if left.len() != 2 || right.len() != 2 || !gemm_supported_dtype(ltype, options.target_opset)
        || ltype != rtype || bias.tensor.data_type != ltype {
        return false;
    }
    let shape: Vec<i64> = vec![left[0], right[1]];
    proof {
        assert(shape@ =~= seq![left@[0], right@[1]]);
    }
    if !unidir_broadcastable_to(&bias.tensor.dims, &shape) {
        return false;
    }
    let ghost before = graph.node@[p as int];
    graph.node[p].op_type = "Gemm".to_string();
    graph.node[p].input.push(bias_name);
    graph.node[p].output[0] = add_output;
    let alpha = attr_float("alpha", ONE_SINGLE);
    let beta = attr_float("beta", ONE_SINGLE);
    let trans_a = attr_int("transA", 0);
    let trans_b = attr_int("transB", 0);
    graph.node[p].attribute.push(alpha);
    graph.node[p].attribute.push(beta);
    graph.node[p].attribute.push(trans_a);
    graph.node[p].attribute.push(trans_b);
    proof {
        let after = graph.node@[p as int];
        assert(after@.input =~= before@.input.push(bias_name@));
        assert(after@.output =~= before@.output.update(0, add_output@));
        assert(after@.attribute =~= before@.attribute.push(alpha@).push(beta@).push(
            trans_a@,
        ).push(trans_b@));
        assert(graph@.node =~= g.node.update(p as int, after@));
    }
    drop_nodes(graph, i, i);
    true
}

/// Makes the first such fusion.
fn fuse_matmul_add_bias_once(graph: &mut GraphProto, options: &OptimizerOptions) -> (done: bool)
    ensures
        match first_matmul_bias(old(graph)@, options@, 0) {
            Some(fused) => done && final(graph)@ == fused,
            None => !done && *final(graph) == *old(graph),
        },
        done ==> final(graph)@.node.len() < old(graph)@.node.len(),
{
    let ghost g = graph@;
    let facts = analyze(graph);
    let mut i: usize = 0;
    while i < graph.node.len()
        invariant
            i <= graph.node.len(),
            *graph == *old(graph),
            graph@ == g,
            facts.describes(g),
            first_matmul_bias(g, options@, 0) == first_matmul_bias(g, options@, i as int),
        decreases graph.node.len() - i,
    {
        if fuse_matmul_bias_at(graph, &facts, options, i) {
            return true;
        }
        i = i + 1;
    }
    false
}

/// Turns additions after matrix products into `Gemm` until none is left.
pub fn fuse_matmul_add_bias(graph: &mut GraphProto, options: &OptimizerOptions) -> (changes: usize)
    ensures
        (final(graph)@, changes as nat) == matmul_biases_fused(old(graph)@, options@),
{
    let mut changes: usize = 0;
    let mut more = fuse_matmul_add_bias_once(graph, options);
    proof {
        if more {
            assert(matmul_biases_fused(old(graph)@, options@).1 == matmul_biases_fused(graph@, options@).1 + 1);
        }
    }
    while more
        invariant
            more ==> changes + 1 + graph.node.len() <= old(graph).node.len(),
            more ==> matmul_biases_fused(old(graph)@, options@) == (
                matmul_biases_fused(graph@, options@).0,
                (matmul_biases_fused(graph@, options@).1 + changes + 1) as nat,
            ),
            !more ==> matmul_biases_fused(old(graph)@, options@) == (graph@, changes as nat),
        decreases
            graph.node.len(),
            if more {
                1int
            } else {
                0int
            },
    {
        changes = changes + 1;
        more = fuse_matmul_add_bias_once(graph, options);
    }
    changes
}

} // verus!
