//! What a graph computes stays the same while the optimizer rewires and merges its nodes.

use crate::converter::optimizer::constants::{
    attribute_from, const_named, constant_tensor, float_values, ints_named, with_ints,
};
use crate::converter::optimizer::dims::{composed, identity_perm};
use crate::converter::optimizer::facts::{
    initializer_of, lemma_initializer_bound, lemma_producer_bound, producer_of,
};
use crate::converter::optimizer::folds::{identity_verdict, neutral_at, transpose_verdict};
use crate::converter::optimizer::fusions::{
    all_but, fed_by, matmul_bias_fused, transposes_merged, with_node_at, without,
};
use crate::converter::optimizer::options::Options;
use crate::converter::optimizer::plan::Verdict;
use crate::float::zero;
use crate::laws::meaning::{computes, runs, seen, unnamed, Values, World};
use crate::laws::preserving::lemma_retained_runs;
use crate::nested::{lemma_with_subgraphs, subgraphs};
use crate::onnx::{
    float_attribute, int_attribute, ints_attribute, Attribute, Graph, Node, Tensor,
};
use crate::scope::{rename_subgraphs, rename_uses, renamed};
use vstd::prelude::*;

verus! {

/// What an operator makes of two numbers.
pub open spec fn of_both(w: World<real>, op: Seq<char>, a: real, b: real, list: Seq<Attribute>) -> real {
    (w.apply)(op, seq![a, b], list, 0)
}

/// Whether additions and multiplications mean what their names say, at each position of the values,
/// a constant of the one element zero or one is that number, and a `Constant` node yields its
/// tensor.
pub open spec fn plain_numbers(w: World<real>) -> bool {
    &&& forall|a: real, b: real, list: Seq<Attribute>| #[trigger]
        of_both(w, "Add"@, a, b, list) == a + b
    &&& forall|a: real, b: real, list: Seq<Attribute>| #[trigger]
        of_both(w, "Mul"@, a, b, list) == a * b
    &&& forall|t: Tensor|
        #![trigger float_values(t)]
        float_values(t) is Some && (float_values(t)->0).len() == 1 ==> {
            &&& zero((float_values(t)->0)[0]) ==> (w.constant)(unnamed(t)) == 0real
            &&& (float_values(t)->0)[0] == 0x3FF0_0000_0000_0000 ==> (w.constant)(unnamed(t))
                == 1real
        }
}

/// Whether a `Constant` node yields its tensor.
pub open spec fn yields_constants<V>(w: World<V>) -> bool {
    forall|n: Node, inputs: Seq<V>|
        #![trigger constant_tensor(n), (w.apply)(n.op_type, inputs, n.attribute, 0)]
        constant_tensor(n) matches Some(t) ==> (w.apply)(n.op_type, inputs, n.attribute, 0) == (
        w.constant)(unnamed(t))
}

/// Whether each node has its outputs for itself: a node that yields a constant yields nothing else.
pub open spec fn constants_alone(g: Graph) -> bool {
    forall|i: int|
        0 <= i < g.node.len() && (#[trigger] g.node[i]).op_type == "Constant"@
            ==> g.node[i].output.len() == 1
}

proof fn lemma_const_value<V>(w: World<V>, env: Values<V>, g: Graph, name: Seq<char>)
    requires
        yields_constants(w),
        constants_alone(g),
        runs(w, env, g),
    ensures
        const_named(g, name) matches Some(c) ==> env(name) == (w.constant)(unnamed(c.tensor)),
{
    reveal(runs);
    lemma_initializer_bound(g.initializer, name);
    lemma_producer_bound(g.node, name);
    if let Some(i) = initializer_of(g.initializer, name) {
        let t = g.initializer[i as int];
        assert(env(g.initializer[i as int].name) == (w.constant)(unnamed(t)));
    } else if let Some(i) = producer_of(g.node, name) {
        let n = g.node[i as int];
        if let Some(t) = constant_tensor(n) {
            assert(computes(w, env, n));
            assert(n.output[0] == name);
            assert(env(n.output[0]) == (w.apply)(n.op_type, seen(env, n.input), n.attribute, 0));
        }
    }
}

/// What the optimizer reads instead of the output of an addition or a multiplication has the same
/// value: only a zero that is added and a one that is multiplied by are passed over.
pub proof fn law_neutral_keeps_value(
    w: World<real>,
    env: Values<real>,
    g: Graph,
    o: Options,
    i: int,
)
    requires
        plain_numbers(w),
        yields_constants(w),
        constants_alone(g),
        runs(w, env, g),
        0 <= i < g.node.len(),
    ensures
        identity_verdict(g, o, i) matches Verdict::Rewire(to) ==> env(to) == env(
            g.node[i].output[0],
        ),
{
    reveal(runs);
    let n = g.node[i];
    if let Verdict::Rewire(to) = identity_verdict(g, o, i) {
        assert(computes(w, env, n));
        let (a, b) = (env(n.input[0]), env(n.input[1]));
        assert(seen(env, n.input) =~= seq![a, b]);
        assert(env(n.output[0]) == of_both(w, n.op_type, a, b, n.attribute));
        let at = if neutral_at(g, o, n, 0) {
            0int
        } else {
            1
        };
        lemma_const_value(w, env, g, n.input[at]);
        let t = (const_named(g, n.input[at])->0).tensor;
        assert(float_values(t) is Some);
        reveal_strlit("Add");
        reveal_strlit("Mul");
        assert("Add"@[0] != "Mul"@[0]);
        if n.op_type == "Add"@ {
            assert(env(n.input[at]) == 0real);
        } else {
            assert(env(n.input[at]) == 1real);
            assert(1real * b == b && a * 1real == a);
        }
    }
}

// ---- Transposes ----

/// What a transpose makes of a value.
pub open spec fn turned_by<V>(w: World<V>, a: V, list: Seq<Attribute>) -> V {
    (w.apply)("Transpose"@, seq![a], list, 0)
}

/// The permutation that attributes name.
pub open spec fn perm_named(list: Seq<Attribute>) -> Option<Seq<i64>> {
    ints_named(
        Node { input: Seq::empty(), output: Seq::empty(), op_type: Seq::empty(), attribute: list },
        "perm"@,
    )
}

/// Whether a permutation leaves every axis where it is.
pub open spec fn moves_nothing(perm: Seq<i64>) -> bool {
    forall|i: int| 0 <= i < perm.len() ==> #[trigger] perm[i] == i
}

/// Whether a transpose goes by its permutation, one that moves nothing leaves a value as it is, and
/// one after another takes each axis from where the second finds it after the first.
pub open spec fn transposes_move<V>(w: World<V>) -> bool {
    &&& forall|a: V, list: Seq<Attribute>|
        perm_named(list) is Some && moves_nothing(perm_named(list)->0) ==> #[trigger] turned_by(
            w,
            a,
            list,
        ) == a
    &&& forall|a: V, p: Seq<Attribute>, q: Seq<Attribute>, r: Seq<Attribute>|
        #![trigger turned_by(w, turned_by(w, a, p), q), turned_by(w, a, r)]
        perm_named(p) is Some && perm_named(q) is Some && perm_named(r) is Some && after_another(
            perm_named(p)->0,
            perm_named(q)->0,
            perm_named(r)->0,
        ) ==> turned_by(w, turned_by(w, a, p), q) == turned_by(w, a, r)
}

/// Whether a permutation is the one of `p` followed by `q`.
pub open spec fn after_another(p: Seq<i64>, q: Seq<i64>, r: Seq<i64>) -> bool {
    &&& r.len() == q.len()
    &&& p.len() == q.len()
    &&& forall|i: int| 0 <= i < q.len() ==> 0 <= #[trigger] q[i] < p.len() && r[i] == p[q[i] as int]
}

/// What the optimizer reads instead of the output of a transpose has the same value.
pub proof fn law_idle_transpose_keeps_value<V>(
    w: World<V>,
    env: Values<V>,
    g: Graph,
    i: int,
)
    requires
        transposes_move(w),
        runs(w, env, g),
        0 <= i < g.node.len(),
    ensures
        transpose_verdict(g, i) matches Verdict::Rewire(to) ==> env(to) == env(
            g.node[i].output[0],
        ),
{
    reveal(runs);
    let n = g.node[i];
    if let Verdict::Rewire(to) = transpose_verdict(g, i) {
        assert(computes(w, env, n));
        assert(seen(env, n.input) =~= seq![env(n.input[0])]);
        assert(env(n.output[0]) == turned_by(w, env(n.input[0]), n.attribute));
        assert(perm_named(n.attribute) == ints_named(n, "perm"@));
        assert(moves_nothing(perm_named(n.attribute)->0));
    }
}

/// Reading another name with the same value leaves a run a run.
pub proof fn lemma_renamed_runs<V>(
    w: World<V>,
    env: Values<V>,
    g: Graph,
    from: Seq<char>,
    to: Seq<char>,
)
    requires
        subgraphs(g).len() == 0,
        runs(w, env, g),
        env(from) == env(to),
    ensures
        runs(w, env, rename_uses(g, from, to)),
{
    reveal(runs);
    let subs = rename_subgraphs(g, from, to);
    assert(subs =~= subgraphs(g));
    lemma_with_subgraphs(g, subs, subs);
    let h = rename_uses(g, from, to);
    assert forall|i: int| 0 <= i < h.node.len() implies computes(w, env, #[trigger] h.node[i]) by {
        let (a, b) = (g.node[i], h.node[i]);
        assert(computes(w, env, a));
        assert forall|j: int| 0 <= j < a.input.len() implies env(#[trigger] b.input[j]) == env(
            a.input[j],
        ) by {
            assert(b.input[j] == renamed(a.input[j], from, to));
        }
        assert(seen(env, b.input) =~= seen(env, a.input));
    }
}

proof fn lemma_perm_set(n: Node, perm: Seq<i64>)
    ensures
        perm_named(with_ints(n, "perm"@, perm).attribute) == Some(perm),
        with_ints(n, "perm"@, perm).input == n.input,
        with_ints(n, "perm"@, perm).output == n.output,
        with_ints(n, "perm"@, perm).op_type == n.op_type,
{
    let after = with_ints(n, "perm"@, perm);
    lemma_attribute_set(n.attribute, after.attribute, "perm"@, perm, 0);
}

proof fn lemma_attribute_set(
    a: Seq<Attribute>,
    b: Seq<Attribute>,
    name: Seq<char>,
    values: Seq<i64>,
    i: int,
)
    requires
        0 <= i <= a.len(),
        match attribute_from(a, name, i) {
            Some(k) => b == a.update(k as int, Attribute { ints: values, ..a[k as int] }),
            None => b == a.push(ints_attribute(name, values)),
        },
    ensures
        attribute_from(b, name, i) matches Some(k) && k < b.len() && b[k as int].ints == values,
    decreases a.len() - i,
{
    lemma_attribute_found(a, name, i);
    if i < a.len() {
        if a[i].name == name {
            assert(b[i].name == name);
        } else {
            lemma_attribute_set(a, b, name, values, i + 1);
            assert(b[i].name == a[i].name);
        }
    } else {
        assert(b[i].name == name);
    }
}

proof fn lemma_attribute_found(a: Seq<Attribute>, name: Seq<char>, i: int)
    requires
        0 <= i,
    ensures
        attribute_from(a, name, i) matches Some(k) ==> i <= k < a.len() && a[k as int].name == name,
    decreases a.len() - i,
{
    if i < a.len() && a[i].name != name {
        lemma_attribute_found(a, name, i + 1);
    }
}

/// Merging two transposes changes nothing of what a graph without subgraphs computes.
pub proof fn law_merging_transposes_keeps_runs<V>(w: World<V>, env: Values<V>, g: Graph, i: int)
    requires
        transposes_move(w),
        subgraphs(g).len() == 0,
        runs(w, env, g),
        0 <= i < g.node.len(),
        forall|k: int|
            0 <= k < g.node.len() && (#[trigger] g.node[k]).op_type == "Transpose"@
                ==> g.node[k].output.len() == 1,
    ensures
        transposes_merged(g, i) matches Some(h) ==> runs(w, env, h),
{
    if transposes_merged(g, i) is Some {
        let n = g.node[i];
        lemma_producer_bound(g.node, n.input[0]);
        let p = producer_of(g.node, n.input[0])->0 as int;
        let m = g.node[p];
        let first = ints_named(m, "perm"@)->0;
        let second = ints_named(n, "perm"@)->0;
        let both = composed(first, second);
        let x = env(m.input[0]);
        assert(computes(w, env, n) && computes(w, env, m)) by {
            reveal(runs);
        }
        assert(m.output[0] == n.input[0]);
        assert(seen(env, m.input) =~= seq![x]);
        assert(seen(env, n.input) =~= seq![env(n.input[0])]);
        assert(env(m.output[0]) == turned_by(w, x, m.attribute));
        assert(env(n.output[0]) == turned_by(w, turned_by(w, x, m.attribute), n.attribute));
        assert(perm_named(m.attribute) == Some(first));
        assert(perm_named(n.attribute) == Some(second));
        assert(after_another(first, second, both));
        let changed = Node { input: n.input.update(0, m.input[0]), ..n };
        let merged = with_ints(changed, "perm"@, both);
        lemma_perm_set(changed, both);
        assert(env(n.output[0]) == turned_by(w, x, merged.attribute));
        if identity_perm(both) {
            assert(moves_nothing(both));
            assert(env(n.output[0]) == x);
            lemma_renamed_runs(w, env, g, n.output[0], m.input[0]);
            let mid = rename_uses(g, n.output[0], m.input[0]);
            lemma_retained_runs(
                w,
                env,
                mid,
                all_but(mid.node.len(), p, i),
                all_but(mid.node.len(), p, i),
            );
        } else {
            let mid = with_node_at(g, i, merged);
            assert(seen(env, merged.input) =~= seq![x]);
            assert(computes(w, env, merged));
            assert(runs(w, env, mid)) by {
                reveal(runs);
            }
            lemma_retained_runs(
                w,
                env,
                mid,
                all_but(mid.node.len(), p, p),
                all_but(mid.node.len(), p, p),
            );
        }
    }
}

// ---- Products with a bias ----

/// The attributes by which `Gemm` neither scales nor transposes.
pub open spec fn plain_gemm(list: Seq<Attribute>) -> Seq<Attribute> {
    list.push(float_attribute("alpha"@, 0x3F80_0000)).push(
        float_attribute("beta"@, 0x3F80_0000),
    ).push(int_attribute("transA"@, 0)).push(int_attribute("transB"@, 0))
}

/// What an operator makes of two values.
pub open spec fn of_two<V>(w: World<V>, op: Seq<char>, a: V, b: V, list: Seq<Attribute>) -> V {
    (w.apply)(op, seq![a, b], list, 0)
}

/// Whether `Gemm` that neither scales nor transposes is the product plus the third value, and the
/// order in an addition does not matter.
pub open spec fn gemm_meaning<V>(w: World<V>) -> bool {
    &&& forall|a: V, b: V, c: V, p: Seq<Attribute>, q: Seq<Attribute>| #[trigger]
        of_two(w, "Add"@, of_two(w, "MatMul"@, a, b, p), c, q) == (w.apply)(
            "Gemm"@,
            seq![a, b, c],
            plain_gemm(p),
            0,
        )
    &&& forall|a: V, b: V, q: Seq<Attribute>| #[trigger]
        of_two(w, "Add"@, a, b, q) == of_two(w, "Add"@, b, a, q)
}

/// Fusing a product with its bias changes nothing of what a graph computes.
pub proof fn law_fusing_products_keeps_runs<V>(
    w: World<V>,
    env: Values<V>,
    g: Graph,
    o: Options,
    i: int,
)
    requires
        gemm_meaning(w),
        runs(w, env, g),
        0 <= i < g.node.len(),
    ensures
        matmul_bias_fused(g, o, i) matches Some(h) ==> runs(w, env, h),
{
    if let Some(h) = matmul_bias_fused(g, o, i) {
        let n = g.node[i];
        lemma_producer_bound(g.node, n.input[0]);
        lemma_producer_bound(g.node, n.input[1]);
        let (at, p) = fed_by(g, n, "MatMul"@)->0;
        let m = g.node[p];
        let bias = n.input[1 - at];
        assert(computes(w, env, n) && computes(w, env, m)) by {
            reveal(runs);
        }
        assert(m.output[0] == n.input[at]);
        let (a, b, c) = (env(m.input[0]), env(m.input[1]), env(bias));
        assert(seen(env, m.input) =~= seq![a, b]);
        assert(seen(env, n.input) =~= seq![env(n.input[0]), env(n.input[1])]);
        let product = of_two(w, "MatMul"@, a, b, m.attribute);
        assert(env(m.output[0]) == product);
        assert(env(n.output[0]) == of_two(
            w,
            "Add"@,
            env(n.input[0]),
            env(n.input[1]),
            n.attribute,
        ));
        assert(of_two(w, "Add"@, c, product, n.attribute) == of_two(
            w,
            "Add"@,
            product,
            c,
            n.attribute,
        ));
        let fused = Node {
            op_type: "Gemm"@,
            input: m.input.push(bias),
            output: m.output.update(0, n.output[0]),
            ..m
        };
        let last = fused.with(float_attribute("alpha"@, 0x3F80_0000)).with(
            float_attribute("beta"@, 0x3F80_0000),
        ).with(int_attribute("transA"@, 0)).with(int_attribute("transB"@, 0));
        let mid = with_node_at(g, p, last);
        assert(h == without(mid, i, i));
        assert(seen(env, last.input) =~= seq![a, b, c]);
        assert(last.output[0] == n.output[0]);
        assert(computes(w, env, last));
        assert(runs(w, env, mid)) by {
            reveal(runs);
        }
        lemma_retained_runs(
            w,
            env,
            mid,
            all_but(mid.node.len(), i, i),
            all_but(mid.node.len(), i, i),
        );
    }
}

} // verus!
