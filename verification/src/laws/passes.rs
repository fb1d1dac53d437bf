//! What every pass of the optimizer keeps, and that a pass without changes keeps everything.

use crate::bytes::{lemma_bytes_inverse, words};
use crate::converter::optimizer::batch_norm::{
    first_norm, flushed_count, flushed_tensor, flushed_word, kernel_at, norm_at, norm_folded,
    norms_folded, subnormals_flushed, unique_name, with_singles,
};
use crate::converter::optimizer::constants::{
    attribute_from, const_named, ints_named, with_const, with_constant, with_ints, Const, Place,
};
use crate::converter::optimizer::dims::{composed, identity_perm};
use crate::converter::optimizer::facts::{
    initializer_of, lemma_initializer_bound, lemma_producer_bound, producer_of, used_once,
};
use crate::converter::optimizer::folds::{fold_plan, folded, verdict, Fold};
use crate::converter::optimizer::fusions::{
    all_but, as_bias, conv_bias_fused, conv_biases_fused, fed_by, first_conv_bias,
    first_matmul_bias, first_transpose_merge, kernel_count, kernel_node, kernel_nodes,
    kernels_materialized, matmul_bias_fused, matmul_biases_fused, out_channels, transposes_merged,
    transposes_optimized, with_node_at, without,
};
use crate::converter::optimizer::options::{known_shape, Options};
use crate::converter::optimizer::plan::{
    chain_end, kept, plan_of, resolved, rewritten, rewritten_to, updated, Changes, Renaming,
    Verdict,
};
use crate::dtype::FLOAT;
use crate::float::ONE_SINGLE;
use crate::laws::counting::{
    alike, all_alike, attributes_total, lemma_attribute_added, lemma_attribute_replaced,
    lemma_attributes_total, lemma_graphs_counted, lemma_nodes_total, lemma_nodes_total_retained,
    lemma_nodes_total_same, lemma_plain, lemma_rename_total, nodes_total, Counted,
};
use crate::nested::{attributes_subgraphs, nodes_subgraphs, subgraphs};
use crate::onnx::{
    float_attribute, int_attribute, ints_attribute, tensor_attribute, tensor_of, Attribute, Graph,
    Node, Tensor,
};
use crate::scope::{
    lemma_retained_at, lemma_retained_count, lemma_retained_origin, origin, produced, rename_uses,
    retained, retained_before, rewrite_safe, tensor_named, value_named,
};
use vstd::prelude::*;

verus! {

/// Whether a pass may drop nodes of an operator.
pub open spec fn droppable(op: Seq<char>) -> bool {
    op == "Reshape"@ || op == "Unsqueeze"@ || op == "Cast"@ || op == "Add"@ || op == "Mul"@ || op
        == "Transpose"@ || op == "BatchNormalization"@
}

/// Whether no node that a pass may drop carries a subgraph.
pub open spec fn plain_where_dropped(list: Seq<Node>) -> bool {
    forall|i: int|
        0 <= i < list.len() && droppable((#[trigger] list[i]).op_type) ==> attributes_subgraphs(
            list[i].attribute,
        ).len() == 0
}

/// Whether no `Transpose` has more than one output.
pub open spec fn single_transposes(list: Seq<Node>) -> bool {
    forall|i: int|
        0 <= i < list.len() && (#[trigger] list[i]).op_type == "Transpose"@
            ==> list[i].output.len() <= 1
}

/// Whether a `Constant` node has `name` as an output.
pub open spec fn held(list: Seq<Node>, name: Seq<char>) -> bool {
    exists|i: int|
        0 <= i < list.len() && (#[trigger] list[i]).op_type == "Constant"@
            && list[i].output.contains(name)
}

/// What every pass keeps.
#[verifier::opaque]
pub open spec fn kept_by_pass(a: Graph, b: Graph) -> bool {
    &&& b.output == a.output
    &&& b.node.len() <= a.node.len()
    &&& b.node.len() + b.initializer.len() <= a.node.len() + a.initializer.len()
    &&& plain_where_dropped(a.node) ==> plain_where_dropped(b.node) && forall|what: Counted|
        #[trigger] nodes_total(b.node, what) == nodes_total(a.node, what)
    &&& single_transposes(a.node) ==> single_transposes(b.node) && forall|name: Seq<char>|
        value_named(a.output, name) && #[trigger] produced(a.node, name) ==> produced(
            b.node,
            name,
        )
    &&& forall|name: Seq<char>| #[trigger]
        tensor_named(a.initializer, name) ==> tensor_named(b.initializer, name)
    &&& forall|name: Seq<char>| #[trigger] held(a.node, name) ==> held(b.node, name)
}

/// A pass that changes nothing keeps everything.
pub proof fn lemma_kept_same(g: Graph)
    ensures
        kept_by_pass(g, g),
{
    reveal(kept_by_pass);
}

/// What two passes in a row keep.
pub proof fn lemma_kept_twice(a: Graph, b: Graph, c: Graph)
    requires
        kept_by_pass(a, b),
        kept_by_pass(b, c),
    ensures
        kept_by_pass(a, c),
{
    reveal(kept_by_pass);
    if single_transposes(a.node) {
        assert forall|name: Seq<char>|
            value_named(a.output, name) && #[trigger] produced(a.node, name) implies produced(
            c.node,
            name,
        ) by {
            assert(produced(b.node, name));
        }
    }
    if plain_where_dropped(a.node) {
        assert forall|what: Counted| #[trigger]
            nodes_total(c.node, what) == nodes_total(a.node, what) by {
            assert(nodes_total(b.node, what) == nodes_total(a.node, what));
        }
    }
    assert forall|name: Seq<char>| #[trigger] tensor_named(
        a.initializer,
        name,
    ) implies tensor_named(c.initializer, name) by {
        assert(tensor_named(b.initializer, name));
    }
    assert forall|name: Seq<char>| #[trigger] held(a.node, name) implies held(
        c.node,
        name,
    ) by {
        assert(held(b.node, name));
    }
}

/// The operators that passes look for are told apart by their names.
proof fn lemma_operators()
    ensures
        !droppable("Conv"@),
        !droppable("Gemm"@),
        !droppable("MatMul"@),
        !droppable("Constant"@),
        "Conv"@ != "Constant"@,
        "MatMul"@ != "Constant"@,
        "Gemm"@ != "Transpose"@,
{
    reveal_strlit("Reshape");
    reveal_strlit("Unsqueeze");
    reveal_strlit("Cast");
    reveal_strlit("Add");
    reveal_strlit("Mul");
    reveal_strlit("Transpose");
    reveal_strlit("BatchNormalization");
    reveal_strlit("Conv");
    reveal_strlit("Gemm");
    reveal_strlit("MatMul");
    reveal_strlit("Constant");
    assert("MatMul"@.len() == 6 && "Constant"@.len() == 8);
    assert("Reshape"@.len() == 7 && "Unsqueeze"@.len() == 9 && "Transpose"@.len() == 9);
    assert("Add"@.len() == 3 && "Mul"@.len() == 3 && "BatchNormalization"@.len() == 18);
    assert("Conv"@[1] != "Cast"@[1]);
    assert("Gemm"@[0] != "Cast"@[0]);
}

/// Whether the first constants of `b` have the names of those of `a`.
pub open spec fn named_alike(a: Seq<Tensor>, b: Seq<Tensor>) -> bool {
    a.len() <= b.len() && forall|i: int| 0 <= i < a.len() ==> (#[trigger] b[i]).name == a[i].name
}

/// Whether node `k` may go when node `p` gets the outputs that it has in `b`.
spec fn may_go(g: Graph, b: Seq<Node>, p: int, k: int) -> bool {
    let n = g.node[k];
    &&& droppable(n.op_type)
    &&& forall|name: Seq<char>|
        value_named(g.output, name) && #[trigger] n.output.contains(name) ==> 0 <= p < b.len()
            && b[p].output.contains(name)
}

/// A pass that keeps the nodes alike but for one, which may get other outputs, and then drops
/// some nodes.
proof fn lemma_kept_nodes(g: Graph, mid: Graph, keep: Seq<bool>, p: int)
    requires
        mid.output == g.output,
        mid.node.len() == g.node.len(),
        named_alike(g.initializer, mid.initializer),
        retained(mid.node, keep).len() + mid.initializer.len() <= g.node.len() + g.initializer.len(),
        forall|k: int| 0 <= k < g.node.len() && k != p ==> alike(#[trigger] g.node[k], mid.node[k]),
        0 <= p < g.node.len() ==> {
            let (a, b) = (g.node[p], mid.node[p]);
            &&& keep[p]
            &&& forall|what: Counted| #[trigger]
                attributes_total(a.attribute, what) == attributes_total(b.attribute, what)
            &&& a.op_type != "Constant"@
            &&& droppable(b.op_type) ==> droppable(a.op_type)
            &&& b.op_type == "Transpose"@ ==> a.op_type == "Transpose"@
            &&& b.output.len() == a.output.len()
            &&& forall|name: Seq<char>|
                value_named(g.output, name) && #[trigger] a.output.contains(name)
                    ==> b.output.contains(name)
        },
        forall|k: int|
            0 <= k < g.node.len() && !(#[trigger] keep[k]) && single_transposes(g.node) ==> may_go(
                g,
                mid.node,
                p,
                k,
            ),
        forall|k: int|
            0 <= k < g.node.len() && !(#[trigger] keep[k]) ==> droppable(g.node[k].op_type),
    ensures
        kept_by_pass(g, Graph { node: retained(mid.node, keep), ..mid }),
{
    reveal(kept_by_pass);
    lemma_operators();
    let list = retained(mid.node, keep);
    let h = Graph { node: list, ..mid };
    crate::converter::optimizer::fusions::lemma_retained_len(mid.node, keep);
    assert forall|j: int| 0 <= j < list.len() implies 0 <= origin(mid.node, keep, j)
        < mid.node.len() && keep[origin(mid.node, keep, j)] && #[trigger] list[j]
        == mid.node[origin(mid.node, keep, j)] by {
        lemma_retained_origin(mid.node, keep, j);
    }
    if plain_where_dropped(g.node) {
        assert forall|j: int| 0 <= j < list.len() && droppable(
            (#[trigger] list[j]).op_type,
        ) implies attributes_subgraphs(list[j].attribute).len() == 0 by {
            let i = origin(mid.node, keep, j);
            assert(i == p || alike(g.node[i], mid.node[i]));
            assert(droppable(g.node[i].op_type));
            lemma_plain(g.node[i].attribute);
            lemma_plain(mid.node[i].attribute);
            assert(attributes_total(g.node[i].attribute, Counted::Graphs) == attributes_total(
                mid.node[i].attribute,
                Counted::Graphs,
            ));
        }
        assert forall|what: Counted| #[trigger]
            nodes_total(list, what) == nodes_total(g.node, what) by {
            assert forall|i: int| 0 <= i < g.node.len() implies attributes_total(
                (#[trigger] g.node[i]).attribute,
                what,
            ) == attributes_total(mid.node[i].attribute, what) by {
                assert(i == p || alike(g.node[i], mid.node[i]));
            }
            lemma_nodes_total_same(g.node, mid.node, what);
            assert forall|i: int| 0 <= i < mid.node.len() && !keep[i] implies attributes_total(
                (#[trigger] mid.node[i]).attribute,
                what,
            ) == 0 by {
                assert(droppable(g.node[i].op_type));
                lemma_plain(g.node[i].attribute);
                assert(attributes_total(g.node[i].attribute, what) == 0);
            }
            lemma_nodes_total_retained(mid.node, keep, what);
        }
    }
    if single_transposes(g.node) {
        assert forall|j: int| 0 <= j < list.len() && (#[trigger] list[j]).op_type
            == "Transpose"@ implies list[j].output.len() <= 1 by {
            let i = origin(mid.node, keep, j);
            assert(i == p || alike(g.node[i], mid.node[i]));
            assert(g.node[i].op_type == "Transpose"@);
        }
        assert forall|name: Seq<char>|
            value_named(g.output, name) && #[trigger] produced(g.node, name) implies produced(
            list,
            name,
        ) by {
            let k = choose|k: int|
                0 <= k < g.node.len() && (#[trigger] g.node[k]).output.contains(name);
            let at = if k != p && !keep[k] {
                p
            } else {
                k
            };
            if k != p {
                assert(alike(g.node[k], mid.node[k]));
                if !keep[k] {
                    assert(may_go(g, mid.node, p, k));
                }
            }
            assert(mid.node[at].output.contains(name) && keep[at]);
            lemma_retained_at(mid.node, keep, at);
            assert(list[retained_before(keep, at) as int].output.contains(name));
        }
    }
    assert forall|name: Seq<char>| #[trigger] tensor_named(
        g.initializer,
        name,
    ) implies tensor_named(mid.initializer, name) by {
        let i = choose|i: int|
            0 <= i < g.initializer.len() && #[trigger] g.initializer[i].name == name;
        assert(mid.initializer[i].name == name);
    }
    assert forall|name: Seq<char>| #[trigger] held(g.node, name) implies held(list, name) by {
        let k = choose|k: int|
            0 <= k < g.node.len() && (#[trigger] g.node[k]).op_type == "Constant"@
                && g.node[k].output.contains(name);
        assert(k != p);
        assert(alike(g.node[k], mid.node[k]));
        assert(keep[k]);
        lemma_retained_at(mid.node, keep, k);
        assert(list[retained_before(keep, k) as int] == mid.node[k]);
    }
}

// ---- Flushing ----

/// The flush of subnormal constants keeps the names.
pub proof fn lemma_flush_kept(g: Graph)
    ensures
        kept_by_pass(g, subnormals_flushed(g).0),
{
    reveal(kept_by_pass);
    let h = subnormals_flushed(g).0;
    assert forall|name: Seq<char>| #[trigger] tensor_named(
        g.initializer,
        name,
    ) implies tensor_named(h.initializer, name) by {
        let i = choose|i: int|
            0 <= i < g.initializer.len() && #[trigger] g.initializer[i].name == name;
        assert(h.initializer[i].name == name);
    }
}

/// A flush that counts no change leaves a graph that a further flush does not change.
pub proof fn lemma_flush_settled(g: Graph)
    requires
        subnormals_flushed(g).1 == 0,
    ensures
        ({
            let h = subnormals_flushed(g).0;
            subnormals_flushed(h) == (h, 0nat)
        }),
{
    let h = subnormals_flushed(g).0;
    lemma_flushed_count(g.initializer, g.initializer.len());
    assert forall|i: int| 0 <= i < g.initializer.len() implies flushed_tensor(
        #[trigger] h.initializer[i],
    ) == (h.initializer[i], false) by {
        lemma_flushed_twice(g.initializer[i]);
    }
    assert(subnormals_flushed(h).0.initializer =~= h.initializer);
    lemma_flushed_none(h.initializer, h.initializer.len());
}

proof fn lemma_flushed_count(list: Seq<Tensor>, k: nat)
    requires
        k <= list.len(),
        flushed_count(list, k) == 0,
    ensures
        forall|i: int| 0 <= i < k ==> !flushed_tensor(#[trigger] list[i]).1,
    decreases k,
{
    if k > 0 {
        lemma_flushed_count(list, (k - 1) as nat);
    }
}

proof fn lemma_flushed_none(list: Seq<Tensor>, k: nat)
    requires
        k <= list.len(),
        forall|i: int| 0 <= i < list.len() ==> !flushed_tensor(#[trigger] list[i]).1,
    ensures
        flushed_count(list, k) == 0,
    decreases k,
{
    if k > 0 {
        lemma_flushed_none(list, (k - 1) as nat);
        assert(!flushed_tensor(list[k - 1]).1);
    }
}

proof fn lemma_flushed_twice(t: Tensor)
    requires
        !flushed_tensor(t).1,
    ensures
        ({
            let s = flushed_tensor(t).0;
            flushed_tensor(s) == (s, false)
        }),
{
    let s = flushed_tensor(t).0;
    if t.data_type == FLOAT {
        let list = Seq::new(t.float_data.len(), |i: int| flushed_word(t.float_data[i]));
        let again = Seq::new(s.float_data.len(), |i: int| flushed_word(s.float_data[i]));
        assert(list =~= s.float_data);
        assert(again =~= s.float_data);
        if t.raw_data.len() % 4 == 0 && t.raw_data.len() > 0 {
            let raw = words(t.raw_data, 4);
            let kept = Seq::new(raw.len(), |i: int| flushed_word(raw[i] as u32) as u64);
            assert(kept == raw);
            lemma_bytes_inverse(t.raw_data, 4);
            assert(s.raw_data == t.raw_data);
        }
    }
}

// ---- Folding ----

/// A tensor put into a node leaves the node alike.
proof fn lemma_constant_alike(n: Node, t: Tensor)
    ensures
        alike(n, with_constant(n, t)),
{
    lemma_attribute_bound(n.attribute, "value"@, 0);
    let m = with_constant(n, t);
    match attribute_from(n.attribute, "value"@, 0) {
        Some(i) => {
            let a = Attribute { t: Some(t), ..n.attribute[i as int] };
            lemma_attribute_replaced(n.attribute, i as int, a);
        },
        None => {
            lemma_attribute_added(n.attribute, tensor_attribute("value"@, t));
        },
    }
    lemma_same_nested(n.attribute, m.attribute);
}

/// A list of integers put into a node leaves the node alike.
proof fn lemma_ints_alike(n: Node, name: Seq<char>, values: Seq<i64>)
    ensures
        alike(n, with_ints(n, name, values)),
{
    lemma_attribute_bound(n.attribute, name, 0);
    let m = with_ints(n, name, values);
    match attribute_from(n.attribute, name, 0) {
        Some(i) => {
            let a = Attribute { ints: values, ..n.attribute[i as int] };
            lemma_attribute_replaced(n.attribute, i as int, a);
        },
        None => {
            lemma_attribute_added(n.attribute, ints_attribute(name, values));
        },
    }
    lemma_same_nested(n.attribute, m.attribute);
}

proof fn lemma_same_nested(a: Seq<Attribute>, b: Seq<Attribute>)
    requires
        attributes_subgraphs(a) == attributes_subgraphs(b),
    ensures
        forall|what: Counted| #[trigger] attributes_total(a, what) == attributes_total(b, what),
{
    assert forall|what: Counted| #[trigger]
        attributes_total(a, what) == attributes_total(b, what) by {
        lemma_attributes_total(a, what);
        lemma_attributes_total(b, what);
    }
}

proof fn lemma_attribute_bound(list: Seq<Attribute>, name: Seq<char>, i: int)
    requires
        0 <= i,
    ensures
        attribute_from(list, name, i) matches Some(k) ==> k < list.len(),
    decreases list.len() - i,
{
    if i < list.len() && list[i].name != name {
        lemma_attribute_bound(list, name, i + 1);
    }
}

/// Whether a constant has the place and the name of one that the graph has.
spec fn in_place(g: Graph, c: Const) -> bool {
    match c.location {
        Place::Initializer(i) => 0 <= i < g.initializer.len() && c.tensor.name
            == g.initializer[i].name,
        Place::ConstantNode(i) => 0 <= i < g.node.len(),
    }
}

proof fn lemma_const_in_place(g: Graph, name: Seq<char>)
    ensures
        const_named(g, name) matches Some(c) ==> in_place(g, c),
{
    lemma_initializer_bound(g.initializer, name);
    lemma_producer_bound(g.node, name);
}

/// Whether a graph has nodes alike, the same outputs, and constants of the same names.
spec fn same_but_values(a: Graph, b: Graph) -> bool {
    &&& all_alike(a.node, b.node)
    &&& b.output == a.output
    &&& b.initializer.len() == a.initializer.len()
    &&& named_alike(a.initializer, b.initializer)
}

proof fn lemma_const_kept(g: Graph, c: Const)
    requires
        in_place(g, c),
    ensures
        same_but_values(g, with_const(g, c)),
{
    match c.location {
        Place::Initializer(_) => {},
        Place::ConstantNode(i) => {
            lemma_constant_alike(g.node[i], c.tensor);
        },
    }
}

proof fn lemma_alike_twice(a: Seq<Node>, b: Seq<Node>, c: Seq<Node>)
    requires
        all_alike(a, b),
        all_alike(b, c),
    ensures
        all_alike(a, c),
{
    assert forall|i: int| 0 <= i < a.len() implies alike(#[trigger] a[i], c[i]) by {
        assert(alike(b[i], c[i]));
        assert(alike(a[i], b[i]));
        assert forall|what: Counted| #[trigger]
            attributes_total(a[i].attribute, what) == attributes_total(c[i].attribute, what) by {
            assert(attributes_total(a[i].attribute, what) == attributes_total(
                b[i].attribute,
                what,
            ));
        }
    }
}

proof fn lemma_updated_kept(g: Graph, list: Seq<Const>, k: nat)
    requires
        k <= list.len(),
        forall|i: int| 0 <= i < list.len() ==> in_place(g, #[trigger] list[i]),
    ensures
        same_but_values(g, updated(g, list, k)),
    decreases k,
{
    if k > 0 {
        lemma_updated_kept(g, list, (k - 1) as nat);
        let h = updated(g, list, (k - 1) as nat);
        assert(in_place(g, list[k - 1]));
        assert(in_place(h, list[k - 1]));
        lemma_const_kept(h, list[k - 1]);
        lemma_alike_twice(g.node, h.node, updated(g, list, k).node);
    }
}

/// Whether node `i` may be dropped once nothing reads its only output.
spec fn goes(g: Graph, i: int) -> bool {
    &&& 0 <= i < g.node.len()
    &&& droppable(g.node[i].op_type)
    &&& g.node[i].output.len() == 1
    &&& !value_named(g.output, g.node[i].output[0])
}

proof fn lemma_verdict(fold: Fold, g: Graph, o: Options, i: int)
    requires
        0 <= i < g.node.len(),
    ensures
        !(verdict(fold, g, o, i) is Keep) ==> goes(g, i),
        verdict(fold, g, o, i) matches Verdict::Fold(c, to) ==> in_place(g, c)
            && g.node[i].output[0] != to,
        verdict(fold, g, o, i) matches Verdict::Rewire(to) ==> g.node[i].output[0] != to,
{
    lemma_const_in_place(g, g.node[i].input[0]);
}

/// What a plan speaks of.
spec fn sound(g: Graph, p: Changes) -> bool {
    &&& p.dropped.len() == g.node.len()
    &&& forall|i: int| 0 <= i < g.node.len() && #[trigger] p.dropped[i] ==> goes(g, i)
    &&& forall|j: int|
        0 <= j < p.rewrites.len() ==> goes(g, (#[trigger] p.rewrites[j]).index)
            && p.rewrites[j].from != p.rewrites[j].to
    &&& forall|j: int| 0 <= j < p.updates.len() ==> in_place(g, #[trigger] p.updates[j])
    &&& p.updates.len() <= p.rewrites.len()
}

proof fn lemma_plan_sound(fold: Fold, g: Graph, o: Options, k: nat)
    requires
        k <= g.node.len(),
    ensures
        sound(g, fold_plan(fold, g, o, k)),
        forall|i: int| k <= i < g.node.len() ==> !(#[trigger] fold_plan(fold, g, o, k).dropped[i]),
        fold_plan(fold, g, o, k).clones.len() == retained_before(
            fold_plan(fold, g, o, k).dropped,
            k as int,
        ),
    decreases k,
{
    if k > 0 {
        lemma_plan_sound(fold, g, o, (k - 1) as nat);
        lemma_verdict(fold, g, o, k - 1);
        let d = |i: int| verdict(fold, g, o, i);
        let before = plan_of(g, d, (k - 1) as nat);
        let after = plan_of(g, d, k);
        assert(before == fold_plan(fold, g, o, (k - 1) as nat));
        assert(after == fold_plan(fold, g, o, k));
        assert(after == before.with(k - 1, g.node[k - 1].output[0], verdict(fold, g, o, k - 1)));
        assert forall|j: int| 0 <= j < after.rewrites.len() implies goes(
            g,
            (#[trigger] after.rewrites[j]).index,
        ) && after.rewrites[j].from != after.rewrites[j].to by {
            if j < before.rewrites.len() {
                assert(after.rewrites[j] == before.rewrites[j]);
            }
        }
        assert forall|j: int| 0 <= j < after.updates.len() implies in_place(
            g,
            #[trigger] after.updates[j],
        ) by {
            if j < before.updates.len() {
                assert(after.updates[j] == before.updates[j]);
            }
        }
        assert forall|i: int| 0 <= i < g.node.len() && #[trigger] after.dropped[i] implies goes(
            g,
            i,
        ) by {
            if i != k - 1 {
                assert(before.dropped[i]);
            }
        }
        lemma_flags_same(before.dropped, after.dropped, k - 1);
    }
}

proof fn lemma_flags_same(a: Seq<bool>, b: Seq<bool>, i: int)
    requires
        forall|j: int| 0 <= j < i ==> a[j] == b[j],
    ensures
        retained_before(a, i) == retained_before(b, i),
    decreases i,
{
    if i > 0 {
        lemma_flags_same(a, b, i - 1);
        assert(a[i - 1] == b[i - 1]);
    }
}

proof fn lemma_flags_apart(a: Seq<bool>, b: Seq<bool>, i: int)
    requires
        0 <= i,
        forall|j: int| 0 <= j < i && #[trigger] a[j] ==> !b[j],
    ensures
        retained_before(a, i) + retained_before(b, i) <= i,
    decreases i,
{
    if i > 0 {
        lemma_flags_apart(a, b, i - 1);
    }
}

proof fn lemma_flags_none(a: Seq<bool>, i: int)
    requires
        0 <= i <= a.len(),
        retained_before(a, i) == 0,
    ensures
        forall|j: int| 0 <= j < i ==> !(#[trigger] a[j]),
    decreases i,
{
    if i > 0 {
        lemma_flags_none(a, i - 1);
    }
}

proof fn lemma_rewritten_kept(g: Graph, list: Seq<Renaming>, k: nat)
    requires
        k <= list.len(),
    ensures
        all_alike(g.node, rewritten(g, list, k).0.node),
        rewritten(g, list, k).0.initializer == g.initializer,
        rewritten(g, list, k).0.output == g.output,
        rewritten(g, list, k).1.finite(),
    decreases k,
{
    if k > 0 {
        lemma_rewritten_kept(g, list, (k - 1) as nat);
        let h = rewritten(g, list, (k - 1) as nat).0;
        let to = resolved(list, list[k - 1].to);
        lemma_rename_total(h, list[k - 1].from, to);
        lemma_alike_twice(g.node, h.node, rename_uses(h, list[k - 1].from, to).node);
    }
}

/// A folding pass keeps what every pass keeps.
pub proof fn lemma_folded_kept(fold: Fold, g: Graph, o: Options)
    ensures
        kept_by_pass(g, folded(fold, g, o).0),
{
    let p = fold_plan(fold, g, o, g.node.len());
    lemma_plan_sound(fold, g, o, g.node.len());
    let g1 = updated(g, p.updates, p.updates.len());
    lemma_updated_kept(g, p.updates, p.updates.len());
    let g2 = Graph { initializer: g1.initializer + p.clones, ..g1 };
    let (g3, done) = rewritten(g2, p.rewrites, p.rewrites.len());
    lemma_rewritten_kept(g2, p.rewrites, p.rewrites.len());
    lemma_alike_twice(g.node, g1.node, g3.node);
    let keep = kept(p, done);
    assert forall|k: int| 0 <= k < g.node.len() && !(#[trigger] keep[k]) implies goes(
        g,
        k,
    ) by {
        if !p.dropped[k] {
            let j = choose|j: int|
                0 <= j < p.rewrites.len() && (#[trigger] p.rewrites[j]).index == k
                    && done.contains(p.rewrites[j].from);
            assert(goes(g, p.rewrites[j].index));
        }
    }
    assert forall|k: int| 0 <= k < g.node.len() && !(#[trigger] keep[k]) implies may_go(
        g,
        g3.node,
        -1,
        k,
    ) by {
        assert(goes(g, k));
    }
    lemma_retained_count(g3.node, keep);
    assert forall|j: int| 0 <= j < g.node.len() && #[trigger] keep[j] implies !p.dropped[j] by {
    }
    lemma_flags_apart(keep, p.dropped, g.node.len() as int);
    lemma_kept_nodes(g, g3, keep, -1);
}

proof fn lemma_rewritten_to(list: Seq<Renaming>, j: int)
    requires
        0 <= j < list.len(),
    ensures
        rewritten_to(list, list[j].from) is Some,
    decreases list.len(),
{
    if j < list.len() - 1 {
        assert(list.drop_last()[j] == list[j]);
        lemma_rewritten_to(list.drop_last(), j);
    }
}

proof fn lemma_chain_end(list: Seq<Renaming>, name: Seq<char>, steps: nat)
    ensures
        chain_end(list, name, steps) matches Some(end) ==> rewritten_to(list, end) is None,
    decreases steps,
{
    if steps > 0 {
        if let Some(next) = rewritten_to(list, name) {
            lemma_chain_end(list, next, (steps - 1) as nat);
        }
    }
}

proof fn lemma_rewritten_done(g: Graph, list: Seq<Renaming>, k: nat)
    requires
        0 < k <= list.len(),
        rewrite_safe(g, list[0].from, resolved(list, list[0].to)),
    ensures
        rewritten(g, list, k).1.contains(list[0].from),
    decreases k,
{
    if k > 1 {
        lemma_rewritten_done(g, list, (k - 1) as nat);
    } else {
        assert(rewritten(g, list, 0) == (g, Set::<Seq<char>>::empty()));
    }
}

proof fn lemma_retained_all<T>(list: Seq<T>, keep: Seq<bool>)
    requires
        forall|i: int| 0 <= i < list.len() ==> #[trigger] keep[i],
    ensures
        retained(list, keep) == list,
    decreases list.len(),
{
    if list.len() > 0 {
        lemma_retained_all(list.drop_last(), keep);
        assert(list.drop_last().push(list.last()) =~= list);
    } else {
        assert(list =~= Seq::empty());
    }
}

/// There are no subgraphs exactly where no nested graph is counted.
pub proof fn lemma_no_subgraphs(list: Seq<Node>)
    ensures
        nodes_subgraphs(list).len() == 0 <==> nodes_total(list, Counted::Graphs) == 0,
{
    lemma_nodes_total(list, Counted::Graphs);
    lemma_graphs_counted(nodes_subgraphs(list));
}

/// Without subgraphs, a folding pass that makes no change leaves the graph as it is.
pub proof fn lemma_folded_settled(fold: Fold, g: Graph, o: Options)
    requires
        subgraphs(g).len() == 0,
        folded(fold, g, o).1 == 0,
    ensures
        folded(fold, g, o).0 == g,
{
    let p = fold_plan(fold, g, o, g.node.len());
    lemma_plan_sound(fold, g, o, g.node.len());
    let list = p.rewrites;
    let g1 = updated(g, p.updates, p.updates.len());
    let g2 = Graph { initializer: g1.initializer + p.clones, ..g1 };
    let (g3, done) = rewritten(g2, list, list.len());
    lemma_rewritten_kept(g2, list, list.len());
    if list.len() > 0 {
        lemma_updated_kept(g, p.updates, p.updates.len());
        assert forall|i: int| 0 <= i < g.node.len() implies attributes_total(
            (#[trigger] g.node[i]).attribute,
            Counted::Graphs,
        ) == attributes_total(g2.node[i].attribute, Counted::Graphs) by {
            assert(alike(g.node[i], g2.node[i]));
        }
        lemma_nodes_total_same(g.node, g2.node, Counted::Graphs);
        lemma_no_subgraphs(g.node);
        lemma_no_subgraphs(g2.node);
        let from = list[0].from;
        lemma_rewritten_to(list, 0);
        lemma_chain_end(list, list[0].to, list.len() + 1);
        assert(goes(g, list[0].index));
        assert(rewrite_safe(g2, from, resolved(list, list[0].to)));
        lemma_rewritten_done(g2, list, list.len());
        assert(done.contains(from));
        assert(done.len() > 0) by {
            if done.len() == 0 {
                assert(done =~= Set::empty());
            }
        }
    }
    assert(list.len() == 0 && p.clones.len() == 0 && p.updates.len() == 0);
    assert(g1 == g);
    assert(g2.initializer =~= g.initializer);
    lemma_flags_none(p.dropped, g.node.len() as int);
    let keep = kept(p, done);
    assert forall|i: int| 0 <= i < g.node.len() implies #[trigger] keep[i] by {
        assert(!p.dropped[i]);
    }
    lemma_retained_all(g3.node, keep);
}

// ---- Merging ----

proof fn lemma_all_but_kept(list: Seq<Node>, a: int, b: int)
    requires
        0 <= a < list.len(),
    ensures
        retained(list, all_but(list.len(), a, b)).len() < list.len(),
{
    crate::converter::optimizer::fusions::lemma_retained_shorter(
        list,
        all_but(list.len(), a, b),
        a,
    );
}

proof fn lemma_transposes_merged_kept(g: Graph, i: int)
    requires
        0 <= i < g.node.len(),
    ensures
        transposes_merged(g, i) matches Some(h) ==> kept_by_pass(g, h),
{
    if transposes_merged(g, i) is Some {
        let n = g.node[i];
        let p = producer_of(g.node, n.input[0])->0 as int;
        lemma_producer_bound(g.node, n.input[0]);
        let m = g.node[p];
        let first = ints_named(m, "perm"@)->0;
        let second = ints_named(n, "perm"@)->0;
        if identity_perm(composed(first, second)) {
            let mid = rename_uses(g, n.output[0], m.input[0]);
            lemma_rename_total(g, n.output[0], m.input[0]);
            let keep = all_but(g.node.len(), p, i);
            assert forall|k: int|
                0 <= k < g.node.len() && !(#[trigger] keep[k]) && single_transposes(
                    g.node,
                ) implies may_go(g, mid.node, -1, k) by {
                assert(g.node[k].op_type == "Transpose"@);
            }
            lemma_all_but_kept(mid.node, p, i);
            lemma_kept_nodes(g, mid, keep, -1);
        } else {
            let changed = Node { input: n.input.update(0, m.input[0]), ..n };
            lemma_ints_alike(changed, "perm"@, composed(first, second));
            let mid = with_node_at(g, i, with_ints(changed, "perm"@, composed(first, second)));
            let keep = all_but(g.node.len(), p, p);
            assert(alike(n, mid.node[i]));
            assert forall|k: int|
                0 <= k < g.node.len() && !(#[trigger] keep[k]) && single_transposes(
                    g.node,
                ) implies may_go(g, mid.node, -1, k) by {
                assert(g.node[k].op_type == "Transpose"@);
            }
            lemma_all_but_kept(mid.node, p, p);
            lemma_kept_nodes(g, mid, keep, -1);
        }
    }
}

proof fn lemma_first_transpose_merge_kept(g: Graph, i: int)
    requires
        0 <= i,
    ensures
        first_transpose_merge(g, i) matches Some(h) ==> kept_by_pass(g, h),
    decreases g.node.len() - i,
{
    if i < g.node.len() {
        lemma_transposes_merged_kept(g, i);
        if transposes_merged(g, i) is None {
            lemma_first_transpose_merge_kept(g, i + 1);
        }
    }
}

/// The pass on transposes keeps what every pass keeps.
pub proof fn lemma_transposes_kept(g: Graph, o: Options)
    ensures
        kept_by_pass(g, transposes_optimized(g, o).0),
{
    lemma_folded_kept(Fold::Transpose, g, o);
    let (h, changes) = folded(Fold::Transpose, g, o);
    if changes == 0 {
        lemma_first_transpose_merge_kept(h, 0);
        if let Some(merged) = first_transpose_merge(h, 0) {
            lemma_kept_twice(g, h, merged);
        }
    }
}

/// Kernel shapes that are written down keep what every pass keeps.
pub proof fn lemma_kernels_kept(g: Graph)
    ensures
        kept_by_pass(g, kernels_materialized(g).0),
{
    let h = kernels_materialized(g).0;
    let keep = Seq::new(g.node.len(), |i: int| true);
    assert forall|i: int| 0 <= i < g.node.len() implies alike(#[trigger] g.node[i], h.node[i]) by {
        let n = g.node[i];
        if let Some(m) = kernel_node(g, n) {
            let w = initializer_of(g.initializer, n.input[1])->0;
            let dims = g.initializer[w as int].dims;
            lemma_attribute_added(n.attribute, ints_attribute("kernel_shape"@, dims.skip(2)));
            lemma_same_nested(n.attribute, m.attribute);
        }
    }
    lemma_retained_all(h.node, keep);
    lemma_kept_nodes(g, h, keep, -1);
}

/// Kernel shapes that are not written down change nothing.
pub proof fn lemma_kernels_settled(g: Graph)
    requires
        kernels_materialized(g).1 == 0,
    ensures
        kernels_materialized(g).0 == g,
{
    lemma_kernel_count(g, g.node.len());
    assert(kernel_nodes(g) =~= g.node);
}

proof fn lemma_kernel_count(g: Graph, k: nat)
    requires
        k <= g.node.len(),
        kernel_count(g, k) == 0,
    ensures
        forall|i: int| 0 <= i < k ==> kernel_node(g, #[trigger] g.node[i]) is None,
    decreases k,
{
    if k > 0 {
        lemma_kernel_count(g, (k - 1) as nat);
    }
}

/// A node takes over the only output of the one that it feeds, which is dropped.
proof fn lemma_taken_over(g: Graph, mid: Graph, i: int, p: int)
    requires
        0 <= i < g.node.len(),
        0 <= p < g.node.len(),
        i != p,
        mid.output == g.output,
        mid.node.len() == g.node.len(),
        named_alike(g.initializer, mid.initializer),
        mid.initializer.len() <= g.initializer.len() + 1,
        forall|k: int| 0 <= k < g.node.len() && k != p ==> alike(#[trigger] g.node[k], mid.node[k]),
        forall|what: Counted| #[trigger]
            attributes_total(g.node[p].attribute, what) == attributes_total(
                mid.node[p].attribute,
                what,
            ),
        g.node[p].op_type != "Constant"@,
        !droppable(mid.node[p].op_type),
        droppable(g.node[i].op_type),
        g.node[p].output.len() == 1,
        g.node[i].output.len() == 1,
        !value_named(g.output, g.node[p].output[0]),
        mid.node[p].output == g.node[p].output.update(0, g.node[i].output[0]),
    ensures
        kept_by_pass(g, without(mid, i, i)),
{
    let keep = all_but(g.node.len(), i, i);
    assert forall|k: int|
        0 <= k < g.node.len() && !(#[trigger] keep[k]) && single_transposes(g.node) implies may_go(
        g,
        mid.node,
        p,
        k,
    ) by {
        assert(mid.node[p].output[0] == g.node[i].output[0]);
    }
    lemma_all_but_kept(mid.node, i, i);
    lemma_kept_nodes(g, mid, keep, p);
}

proof fn lemma_conv_bias_kept(g: Graph, o: Options, i: int)
    requires
        0 <= i < g.node.len(),
    ensures
        conv_bias_fused(g, o, i) matches Some(h) ==> kept_by_pass(g, h),
{
    if conv_bias_fused(g, o, i) is Some {
        lemma_operators();
        let n = g.node[i];
        lemma_producer_bound(g.node, n.input[0]);
        lemma_producer_bound(g.node, n.input[1]);
        let (at, p) = fed_by(g, n, "Conv"@)->0;
        let conv = g.node[p];
        let bias_name = n.input[1 - at];
        lemma_const_in_place(g, bias_name);
        let weight = const_named(g, conv.input[1])->0;
        let shape = known_shape(g, o, conv.output[0]);
        let channels = out_channels(weight.tensor, shape);
        let bias = as_bias(
            const_named(g, bias_name)->0,
            channels,
            shape,
            used_once(g, bias_name),
        )->0;
        lemma_const_kept(g, bias);
        let h = with_const(g, bias);
        assert(alike(g.node[p], h.node[p]));
        let fused = Node {
            input: h.node[p].input.push(bias_name),
            output: h.node[p].output.update(0, n.output[0]),
            ..h.node[p]
        };
        let mid = with_node_at(h, p, fused);
        assert forall|k: int| 0 <= k < g.node.len() && k != p implies alike(
            #[trigger] g.node[k],
            mid.node[k],
        ) by {
            assert(alike(g.node[k], h.node[k]));
        }
        lemma_taken_over(g, mid, i, p);
    }
}

proof fn lemma_first_conv_bias_kept(g: Graph, o: Options, i: int)
    requires
        0 <= i,
    ensures
        first_conv_bias(g, o, i) matches Some(h) ==> kept_by_pass(g, h),
    decreases g.node.len() - i,
{
    if i < g.node.len() {
        lemma_conv_bias_kept(g, o, i);
        if conv_bias_fused(g, o, i) is None {
            lemma_first_conv_bias_kept(g, o, i + 1);
        }
    }
}

/// Biases that convolutions take over keep what every pass keeps.
pub proof fn lemma_conv_biases_kept(g: Graph, o: Options)
    ensures
        kept_by_pass(g, conv_biases_fused(g, o).0),
    decreases conv_biases_fused(g, o).1,
{
    lemma_first_conv_bias_kept(g, o, 0);
    match first_conv_bias(g, o, 0) {
        Some(h) => {
            lemma_conv_biases_kept(h, o);
            lemma_kept_twice(g, h, conv_biases_fused(h, o).0);
        },
        None => {
            lemma_kept_same(g);
        },
    }
}

proof fn lemma_matmul_bias_kept(g: Graph, o: Options, i: int)
    requires
        0 <= i < g.node.len(),
    ensures
        matmul_bias_fused(g, o, i) matches Some(h) ==> kept_by_pass(g, h),
{
    if matmul_bias_fused(g, o, i) is Some {
        lemma_operators();
        let n = g.node[i];
        lemma_producer_bound(g.node, n.input[0]);
        lemma_producer_bound(g.node, n.input[1]);
        let (at, p) = fed_by(g, n, "MatMul"@)->0;
        let product = g.node[p];
        let bias_name = n.input[1 - at];
        let fused = Node {
            op_type: "Gemm"@,
            input: product.input.push(bias_name),
            output: product.output.update(0, n.output[0]),
            ..product
        };
        let a1 = fused.with(float_attribute("alpha"@, ONE_SINGLE));
        let a2 = a1.with(float_attribute("beta"@, ONE_SINGLE));
        let a3 = a2.with(int_attribute("transA"@, 0));
        let a4 = a3.with(int_attribute("transB"@, 0));
        lemma_attribute_added(fused.attribute, float_attribute("alpha"@, ONE_SINGLE));
        lemma_attribute_added(a1.attribute, float_attribute("beta"@, ONE_SINGLE));
        lemma_attribute_added(a2.attribute, int_attribute("transA"@, 0));
        lemma_attribute_added(a3.attribute, int_attribute("transB"@, 0));
        lemma_same_nested(product.attribute, a4.attribute);
        let mid = with_node_at(g, p, a4);
        lemma_taken_over(g, mid, i, p);
    }
}

proof fn lemma_first_matmul_bias_kept(g: Graph, o: Options, i: int)
    requires
        0 <= i,
    ensures
        first_matmul_bias(g, o, i) matches Some(h) ==> kept_by_pass(g, h),
    decreases g.node.len() - i,
{
    if i < g.node.len() {
        lemma_matmul_bias_kept(g, o, i);
        if matmul_bias_fused(g, o, i) is None {
            lemma_first_matmul_bias_kept(g, o, i + 1);
        }
    }
}

/// Biases that products take over keep what every pass keeps.
pub proof fn lemma_matmul_biases_kept(g: Graph, o: Options)
    ensures
        kept_by_pass(g, matmul_biases_fused(g, o).0),
    decreases matmul_biases_fused(g, o).1,
{
    lemma_first_matmul_bias_kept(g, o, 0);
    match first_matmul_bias(g, o, 0) {
        Some(h) => {
            lemma_matmul_biases_kept(h, o);
            lemma_kept_twice(g, h, matmul_biases_fused(h, o).0);
        },
        None => {
            lemma_kept_same(g);
        },
    }
}

proof fn lemma_norm_kept(g: Graph, i: int)
    requires
        0 <= i < g.node.len(),
    ensures
        norm_folded(g, i) matches Some(h) ==> kept_by_pass(g, h),
{
    if norm_folded(g, i) is Some {
        lemma_operators();
        let n = g.node[i];
        lemma_producer_bound(g.node, n.input[0]);
        let p = producer_of(g.node, n.input[0])->0 as int;
        let conv = g.node[p];
        let k = kernel_at(g, p)->0;
        let norm = norm_at(g, i, k.channels)->0;
        lemma_initializer_bound(g.initializer, conv.input[1]);
        lemma_initializer_bound(g.initializer, conv.input[2]);
        let weights = norm.weights(k.weights, k.weights.len() as int / k.channels);
        let biases = norm.biases(k.biases);
        let output = conv.output.update(0, n.output[0]);
        let g1 = Graph {
            initializer: g.initializer.update(
                k.weight,
                with_singles(g.initializer[k.weight], weights),
            ),
            ..g
        };
        assert(named_alike(g.initializer, g1.initializer));
        match k.bias {
            Some(b) => {
                let tensor = with_singles(
                    Tensor { dims: seq![k.channels as i64], ..g1.initializer[b] },
                    biases,
                );
                let mid = Graph {
                    initializer: g1.initializer.update(b, tensor),
                    node: g1.node.update(p, Node { output, ..conv }),
                    ..g1
                };
                lemma_taken_over(g, mid, i, p);
                assert(norm_folded(g, i) == Some(without(mid, i, i)));
            },
            None => {
                let name = unique_name(g1, conv.output[0] + "_bn_bias"@);
                let added = with_singles(
                    tensor_of(name, seq![k.channels as i64], FLOAT),
                    biases,
                );
                let mid = Graph {
                    initializer: g1.initializer.push(added),
                    node: g1.node.update(p, Node { input: conv.input.push(name), output, ..conv }),
                    ..g1
                };
                lemma_taken_over(g, mid, i, p);
                assert(norm_folded(g, i) == Some(without(mid, i, i)));
            },
        }
    }
}

proof fn lemma_first_norm_kept(g: Graph, i: int)
    requires
        0 <= i,
    ensures
        first_norm(g, i) matches Some(h) ==> kept_by_pass(g, h),
    decreases g.node.len() - i,
{
    if i < g.node.len() {
        lemma_norm_kept(g, i);
        if norm_folded(g, i) is None {
            lemma_first_norm_kept(g, i + 1);
        }
    }
}

/// Normalizations that convolutions take over keep what every pass keeps.
pub proof fn lemma_norms_kept(g: Graph)
    ensures
        kept_by_pass(g, norms_folded(g).0),
    decreases norms_folded(g).1,
{
    lemma_first_norm_kept(g, 0);
    match first_norm(g, 0) {
        Some(h) => {
            lemma_norms_kept(h);
            lemma_kept_twice(g, h, norms_folded(h).0);
        },
        None => {
            lemma_kept_same(g);
        },
    }
}

} // verus!
