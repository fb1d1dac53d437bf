//! What a graph computes stays the same while it is made ready for export.

use crate::converter::export::canonical::{
    adapter_before, adapters_removed, adapters_upto, alike, cast_before, cast_target,
    casts_collapsed, casts_collapsed_upto, chain_settled, constants_shared, first_alike,
    first_tensor, fixed_axes, identities_removed, identities_set, identity_renamings, inputs_set,
    int64_values, not_flags, plain_identity, replaced, replacement, shared, shared_renamings,
    subgraphs_replaced, Adapters,
};
use crate::converter::export::prune::{dead_dropped, stay_flags};
use crate::converter::export::sanitize::{
    constant_node, output_only, outputs_materialized, sanitized, sole_inputs, sole_tensors,
    unused_dropped,
};
use crate::converter::optimizer::constants::{int_named, ints_named};
use crate::converter::optimizer::facts::{initializer_of, lemma_producer_bound};
use crate::converter::optimizer::plan::{rewritten_to, Renaming};
use crate::laws::meaning::{computes, runs, seen, unnamed, Values, World};
use crate::nested::{lemma_with_subgraphs, subgraphs};
use crate::onnx::{ints_attribute, tensor_attribute, Attribute, Graph, Node, Tensor};
use crate::scope::{
    lemma_retained_at, lemma_retained_origin, origin, retained, retained_before, value_named,
};
use vstd::prelude::*;

verus! {

/// Whether every replacement reads a name with the same value.
pub open spec fn same_values<V>(env: Values<V>, list: Seq<Renaming>) -> bool {
    forall|j: int| 0 <= j < list.len() ==> env((#[trigger] list[j]).from) == env(list[j].to)
}

proof fn lemma_rewritten_value<V>(env: Values<V>, list: Seq<Renaming>, name: Seq<char>)
    requires
        same_values(env, list),
    ensures
        rewritten_to(list, name) matches Some(next) ==> env(next) == env(name),
    decreases list.len(),
{
    if list.len() > 0 {
        assert(env(list[list.len() - 1].from) == env(list[list.len() - 1].to));
        if list.last().from != name {
            assert forall|j: int| 0 <= j < list.drop_last().len() implies env(
                (#[trigger] list.drop_last()[j]).from,
            ) == env(list.drop_last()[j].to) by {
                assert(list.drop_last()[j] == list[j]);
            }
            lemma_rewritten_value(env, list.drop_last(), name);
        }
    }
}

proof fn lemma_settled_value<V>(
    env: Values<V>,
    list: Seq<Renaming>,
    name: Seq<char>,
    passed: Set<Seq<char>>,
    steps: nat,
)
    requires
        same_values(env, list),
    ensures
        env(chain_settled(list, name, passed, steps)) == env(name),
    decreases steps,
{
    lemma_rewritten_value(env, list, name);
    if let Some(next) = rewritten_to(list, name) {
        if !(steps == 0 || passed.contains(name)) {
            lemma_settled_value(env, list, next, passed.insert(name), (steps - 1) as nat);
        }
    }
}

proof fn lemma_replacement_value<V>(env: Values<V>, list: Seq<Renaming>, name: Seq<char>)
    requires
        same_values(env, list),
    ensures
        env(replacement(list, name)) == env(name),
{
    lemma_rewritten_value(env, list, name);
    if let Some(first) = rewritten_to(list, name) {
        lemma_settled_value(env, list, first, Set::empty(), list.len());
    }
}

/// Reading names with the same values leaves a run a run.
proof fn lemma_replaced_runs<V>(w: World<V>, env: Values<V>, g: Graph, list: Seq<Renaming>)
    requires
        subgraphs(g).len() == 0,
        runs(w, env, g),
        same_values(env, list),
    ensures
        runs(w, env, replaced(g, list)),
        replaced(g, list).node.len() == g.node.len(),
        replaced(g, list).initializer == g.initializer,
        forall|i: int|
            0 <= i < g.node.len() ==> (#[trigger] replaced(g, list).node[i]).output
                == g.node[i].output,
{
    reveal(runs);
    let subs = subgraphs_replaced(g, list);
    assert(subs =~= subgraphs(g));
    lemma_with_subgraphs(g, subs, subs);
    let h = replaced(g, list);
    assert forall|i: int| 0 <= i < h.node.len() implies computes(w, env, #[trigger] h.node[i]) by {
        let (a, b) = (g.node[i], h.node[i]);
        assert(computes(w, env, a));
        assert forall|j: int| 0 <= j < a.input.len() implies env(#[trigger] b.input[j]) == env(
            a.input[j],
        ) by {
            lemma_replacement_value(env, list, a.input[j]);
        }
        assert(seen(env, b.input) =~= seen(env, a.input));
    }
}

/// Dropping nodes or constants leaves a run a run.
pub proof fn lemma_retained_runs<V>(
    w: World<V>,
    env: Values<V>,
    g: Graph,
    nodes: Seq<bool>,
    constants: Seq<bool>,
)
    requires
        runs(w, env, g),
    ensures
        runs(
            w,
            env,
            Graph {
                node: retained(g.node, nodes),
                initializer: retained(g.initializer, constants),
                ..g
            },
        ),
        runs(w, env, Graph { node: retained(g.node, nodes), ..g }),
        runs(w, env, Graph { initializer: retained(g.initializer, constants), ..g }),
{
    reveal(runs);
    let list = retained(g.node, nodes);
    let tensors = retained(g.initializer, constants);
    assert forall|i: int| 0 <= i < list.len() implies computes(w, env, #[trigger] list[i]) by {
        lemma_retained_origin(g.node, nodes, i);
        assert(computes(w, env, g.node[origin(g.node, nodes, i)]));
    }
    assert forall|i: int| 0 <= i < tensors.len() implies env((#[trigger] tensors[i]).name) == (
    w.constant)(unnamed(tensors[i])) by {
        lemma_retained_origin(g.initializer, constants, i);
        let j = origin(g.initializer, constants, i);
        assert(env(g.initializer[j].name) == (w.constant)(unnamed(g.initializer[j])));
    }
}

// ---- Constants that are shared ----

/// Whether two constants hold the same: sizes, element type and every stored element.
pub open spec fn holds_same(a: Tensor, b: Tensor) -> bool {
    unnamed(a) == unnamed(b)
}

proof fn lemma_first_alike(g: Graph, i: int, j: int)
    requires
        0 <= j,
    ensures
        first_alike(g, i, j) matches Some(k) ==> j <= k < i && holds_same(
            g.initializer[k],
            g.initializer[i],
        ) && !value_named(g.output, g.initializer[k].name) && forall|l: int|
            j <= l < k ==> !(!value_named(g.output, (#[trigger] g.initializer[l]).name)
                && holds_same(g.initializer[l], g.initializer[i])),
        first_alike(g, i, j) is None ==> forall|l: int|
            j <= l < i ==> !(!value_named(g.output, (#[trigger] g.initializer[l]).name)
                && holds_same(g.initializer[l], g.initializer[i])),
    decreases i - j,
{
    if j < i {
        if alike(g.initializer[j], g.initializer[i]) {
            assert(unnamed(g.initializer[j]) =~= unnamed(g.initializer[i]));
        }
        lemma_first_alike(g, i, j + 1);
    }
}

proof fn lemma_shared_values<V>(w: World<V>, env: Values<V>, g: Graph, k: nat)
    requires
        runs(w, env, g),
        k <= g.initializer.len(),
    ensures
        same_values(env, shared_renamings(g, k)),
    decreases k,
{
    reveal(runs);
    if k > 0 {
        lemma_shared_values(w, env, g, (k - 1) as nat);
        lemma_first_alike(g, k - 1, 0);
        let front = shared_renamings(g, (k - 1) as nat);
        let list = shared_renamings(g, k);
        if shared(g, k - 1) {
            let j = first_alike(g, k - 1, 0)->0;
            assert(env(g.initializer[j].name) == (w.constant)(unnamed(g.initializer[j])));
            assert(env(g.initializer[k - 1].name) == (w.constant)(unnamed(g.initializer[k - 1])));
            assert forall|i: int| 0 <= i < list.len() implies env((#[trigger] list[i]).from) == env(
                list[i].to,
            ) by {
                if i < front.len() {
                    assert(list[i] == front[i]);
                }
            }
        }
    }
}

/// Sharing constants changes nothing of what a graph computes: every run of a graph without
/// subgraphs is a run of the graph with its constants shared, whatever its operators mean.
pub proof fn law_sharing_keeps_runs<V>(w: World<V>, env: Values<V>, g: Graph)
    requires
        subgraphs(g).len() == 0,
        runs(w, env, g),
    ensures
        runs(w, env, constants_shared(g)),
{
    let list = shared_renamings(g, g.initializer.len());
    lemma_shared_values(w, env, g, g.initializer.len());
    let keep = Seq::new(g.initializer.len(), |i: int| !shared(g, i));
    lemma_retained_runs(w, env, g, keep, keep);
    let h = Graph { initializer: retained(g.initializer, keep), ..g };
    if list.len() > 0 {
        lemma_replaced_runs(w, env, h, list);
    }
}

/// Whether no two constants have the same name.
pub open spec fn named_apart(list: Seq<Tensor>) -> bool {
    forall|i: int, j: int|
        0 <= i < list.len() && 0 <= j < list.len() && (#[trigger] list[i]).name == (
        #[trigger] list[j]).name ==> i == j
}

proof fn lemma_shared_renamings(g: Graph, k: nat, i: int)
    requires
        named_apart(g.initializer),
        k <= g.initializer.len(),
        0 <= i < g.initializer.len(),
    ensures
        rewritten_to(shared_renamings(g, k), g.initializer[i].name) == if i < k && shared(g, i) {
            Some(g.initializer[first_alike(g, i, 0)->0].name)
        } else {
            None
        },
    decreases k,
{
    if k > 0 {
        lemma_shared_renamings(g, (k - 1) as nat, i);
        let front = shared_renamings(g, (k - 1) as nat);
        let list = shared_renamings(g, k);
        if shared(g, k - 1) {
            assert(list.drop_last() =~= front);
            assert(list.last().from == g.initializer[k - 1].name);
        }
    }
}

/// After constants are shared, an input that named a constant names one that is still there and
/// holds the same elements, of the same type and sizes.
pub proof fn law_shared_constants_hold_same(g: Graph, i: int, a: int, c: int) -> (k: int)
    requires
        subgraphs(g).len() == 0,
        named_apart(g.initializer),
        0 <= i < g.node.len(),
        0 <= a < g.node[i].input.len(),
        0 <= c < g.initializer.len(),
        g.node[i].input[a] == g.initializer[c].name,
    ensures
        0 <= k < constants_shared(g).initializer.len(),
        constants_shared(g).node[i].input[a] == constants_shared(g).initializer[k].name,
        holds_same(constants_shared(g).initializer[k], g.initializer[c]),
{
    let list = shared_renamings(g, g.initializer.len());
    let keep = Seq::new(g.initializer.len(), |i: int| !shared(g, i));
    let h = Graph { initializer: retained(g.initializer, keep), ..g };
    let subs = subgraphs_replaced(h, list);
    assert(subs =~= subgraphs(h));
    lemma_with_subgraphs(h, subs, subs);
    lemma_first_alike(g, c, 0);
    lemma_shared_renamings(g, g.initializer.len(), c);
    let end = if shared(g, c) {
        first_alike(g, c, 0)->0
    } else {
        c
    };
    lemma_shared_renamings(g, g.initializer.len(), end);
    lemma_first_alike(g, end, 0);
    if shared(g, c) && shared(g, end) {
        let earlier = first_alike(g, end, 0)->0;
        assert(holds_same(g.initializer[earlier], g.initializer[c]));
        assert(false);
    }
    assert(keep[end]);
    lemma_retained_at(g.initializer, keep, end);
    assert(chain_settled(list, g.initializer[end].name, Set::empty(), list.len())
        == g.initializer[end].name);
    assert(replacement(list, g.initializer[c].name) == g.initializer[end].name);
    if list.len() == 0 {
        assert(!shared(g, c));
        assert(constants_shared(g) == h);
    } else {
        assert(constants_shared(g) == replaced(h, list));
    }
    retained_before(keep, end) as int
}

// ---- Identities and repeated casts ----

/// What an operator makes of one value.
pub open spec fn made_of<V>(w: World<V>, op: Seq<char>, a: V, attributes: Seq<Attribute>) -> V {
    (w.apply)(op, seq![a], attributes, 0)
}

/// The element type that attributes name.
pub open spec fn type_named(attributes: Seq<Attribute>) -> Option<i64> {
    int_named(
        Node { input: Seq::empty(), output: Seq::empty(), op_type: Seq::empty(), attribute: attributes },
        "to"@,
    )
}

/// Whether `Identity` yields its input, and a `Cast` of what has been cast to the same element
/// type yields what a cast of the first value does.
pub open spec fn plain_meanings<V>(w: World<V>) -> bool {
    &&& forall|a: V, attributes: Seq<Attribute>| #[trigger]
        made_of(w, "Identity"@, a, attributes) == a
    &&& forall|a: V, p: Seq<Attribute>, q: Seq<Attribute>|
        type_named(p) is Some && type_named(p) == type_named(q) ==> #[trigger] made_of(
            w,
            "Cast"@,
            made_of(w, "Cast"@, a, p),
            q,
        ) == made_of(w, "Cast"@, a, q)
}

proof fn lemma_identity_values<V>(w: World<V>, env: Values<V>, g: Graph, k: nat)
    requires
        plain_meanings(w),
        runs(w, env, g),
        k <= g.node.len(),
    ensures
        same_values(env, identity_renamings(g, k)),
    decreases k,
{
    reveal(runs);
    if k > 0 {
        lemma_identity_values(w, env, g, (k - 1) as nat);
        let front = identity_renamings(g, (k - 1) as nat);
        let list = identity_renamings(g, k);
        if plain_identity(g, k - 1) {
            let n = g.node[k - 1];
            assert(computes(w, env, n));
            assert(env(n.output[0]) == (w.apply)(n.op_type, seen(env, n.input), n.attribute, 0));
            assert(seen(env, n.input) =~= seq![env(n.input[0])]);
            assert(env(n.output[0]) == made_of(w, "Identity"@, env(n.input[0]), n.attribute));
            assert forall|i: int| 0 <= i < list.len() implies env((#[trigger] list[i]).from) == env(
                list[i].to,
            ) by {
                if i < front.len() {
                    assert(list[i] == front[i]);
                }
            }
        }
    }
}

/// Removing identities changes nothing of what a graph computes.
pub proof fn law_removing_identities_keeps_runs<V>(w: World<V>, env: Values<V>, g: Graph)
    requires
        plain_meanings(w),
        subgraphs(g).len() == 0,
        runs(w, env, g),
    ensures
        runs(w, env, identities_removed(g).0),
{
    let list = identity_renamings(g, g.node.len());
    if list.len() > 0 {
        lemma_identity_values(w, env, g, g.node.len());
        lemma_replaced_runs(w, env, g, list);
        let keep = Seq::new(g.node.len(), |i: int| !plain_identity(g, i));
        lemma_retained_runs(w, env, replaced(g, list), keep, keep);
    }
}

/// Whether a new input leaves what the node computes as it is.
spec fn fits_input<V>(w: World<V>, env: Values<V>, g: Graph, item: (int, Seq<char>)) -> bool {
    let n = g.node[item.0];
    &&& 0 <= item.0 < g.node.len()
    &&& n.op_type == "Cast"@
    &&& n.input.len() == 1
    &&& n.output.len() == 1
    &&& env(n.output[0]) == made_of(w, "Cast"@, env(item.1), n.attribute)
}

proof fn lemma_cast_inputs<V>(w: World<V>, env: Values<V>, g: Graph, k: nat)
    requires
        plain_meanings(w),
        runs(w, env, g),
        k <= g.node.len(),
    ensures
        forall|j: int|
            0 <= j < casts_collapsed_upto(g, k).inputs.len() ==> fits_input(
                w,
                env,
                g,
                #[trigger] casts_collapsed_upto(g, k).inputs[j],
            ),
    decreases k,
{
    reveal(runs);
    if k > 0 {
        lemma_cast_inputs(w, env, g, (k - 1) as nat);
        let front = casts_collapsed_upto(g, (k - 1) as nat).inputs;
        let list = casts_collapsed_upto(g, k).inputs;
        if let Some(p) = cast_before(g, k - 1) {
            let n = g.node[k - 1];
            lemma_producer_bound(g.node, n.input[0]);
            let m = g.node[p];
            assert(computes(w, env, n));
            assert(computes(w, env, m));
            assert(m.output[0] == n.input[0]);
            assert(env(m.output[0]) == (w.apply)(m.op_type, seen(env, m.input), m.attribute, 0));
            assert(env(n.output[0]) == (w.apply)(n.op_type, seen(env, n.input), n.attribute, 0));
            assert(seen(env, m.input) =~= seq![env(m.input[0])]);
            assert(seen(env, n.input) =~= seq![env(n.input[0])]);
            assert(type_named(m.attribute) == cast_target(m));
            assert(type_named(n.attribute) == cast_target(n));
            let inner = made_of(w, "Cast"@, env(m.input[0]), m.attribute);
            assert(env(n.output[0]) == made_of(w, "Cast"@, inner, n.attribute));
            assert(fits_input(w, env, g, (k - 1, m.input[0])));
        }
        assert forall|j: int| 0 <= j < list.len() implies fits_input(
            w,
            env,
            g,
            #[trigger] list[j],
        ) by {
            if j < front.len() {
                assert(list[j] == front[j]);
            }
        }
    }
}

proof fn lemma_inputs_set<V>(
    w: World<V>,
    env: Values<V>,
    g: Graph,
    list: Seq<(int, Seq<char>)>,
    k: nat,
)
    requires
        runs(w, env, g),
        k <= list.len(),
        forall|j: int| 0 <= j < list.len() ==> fits_input(w, env, g, #[trigger] list[j]),
    ensures
        inputs_set(g.node, list, k).len() == g.node.len(),
        forall|i: int|
            0 <= i < g.node.len() ==> computes(w, env, #[trigger] inputs_set(g.node, list, k)[i])
                && inputs_set(g.node, list, k)[i].op_type == g.node[i].op_type && inputs_set(
                g.node,
                list,
                k,
            )[i].output == g.node[i].output && inputs_set(g.node, list, k)[i].attribute
                == g.node[i].attribute && inputs_set(g.node, list, k)[i].input.len()
                == g.node[i].input.len(),
    decreases k,
{
    reveal(runs);
    if k > 0 {
        lemma_inputs_set(w, env, g, list, (k - 1) as nat);
        let front = inputs_set(g.node, list, (k - 1) as nat);
        let (i, name) = list[k - 1];
        assert(fits_input(w, env, g, list[k - 1]));
        let n = Node { input: front[i].input.update(0, name), ..front[i] };
        assert(front[i].op_type == g.node[i].op_type);
        assert(seen(env, n.input) =~= seq![env(name)]);
        assert(computes(w, env, n));
    }
}

/// Collapsing repeated casts changes nothing of what a graph computes.
pub proof fn law_collapsing_casts_keeps_runs<V>(w: World<V>, env: Values<V>, g: Graph)
    requires
        plain_meanings(w),
        runs(w, env, g),
    ensures
        runs(w, env, casts_collapsed(g).0),
{
    let c = casts_collapsed_upto(g, g.node.len());
    if c.inputs.len() > 0 {
        lemma_cast_inputs(w, env, g, g.node.len());
        lemma_inputs_set(w, env, g, c.inputs, c.inputs.len());
        let mid = Graph { node: inputs_set(g.node, c.inputs, c.inputs.len()), ..g };
        assert(runs(w, env, mid)) by {
            reveal(runs);
        }
        lemma_retained_runs(w, env, mid, not_flags(c.dropped), not_flags(c.dropped));
    }
}

/// Pruning nodes that nothing needs, and constants, leaves every run a run.
pub proof fn law_pruning_keeps_runs<V>(w: World<V>, env: Values<V>, g: Graph)
    requires
        runs(w, env, g),
    ensures
        runs(w, env, dead_dropped(g)),
        runs(w, env, unused_dropped(g)),
    decreases g.node.len(),
{
    let used = Seq::new(
        g.initializer.len(),
        |i: int|
            crate::converter::export::sanitize::referenced(g, g.initializer[i].name)
                || value_named(g.output, g.initializer[i].name),
    );
    lemma_retained_runs(w, env, g, stay_flags(g), used);
    if !crate::converter::export::prune::all_stay(g) {
        let i = choose|i: int|
            0 <= i < g.node.len() && !#[trigger] crate::converter::export::prune::stays(g, i);
        crate::converter::optimizer::fusions::lemma_retained_shorter(g.node, stay_flags(g), i);
        law_pruning_keeps_runs(w, env, Graph { node: retained(g.node, stay_flags(g)), ..g });
    }
}

// ---- Shape adapters that cancel ----

/// The axes that a list of attributes names.
pub open spec fn axes_named(attributes: Seq<Attribute>) -> Option<Seq<i64>> {
    ints_named(
        Node {
            input: Seq::empty(),
            output: Seq::empty(),
            op_type: Seq::empty(),
            attribute: attributes,
        },
        "axes"@,
    )
}

/// What a shape adapter makes of a value, by its axes.
pub open spec fn adapted<V>(w: World<V>, op: Seq<char>, a: V, axes: Seq<i64>) -> V {
    made_of(w, op, a, seq![ints_attribute("axes"@, axes)])
}

/// What a shape adapter yields.
pub open spec fn adapter_yields<V>(
    w: World<V>,
    op: Seq<char>,
    inputs: Seq<V>,
    attributes: Seq<Attribute>,
) -> V {
    (w.apply)(op, inputs, attributes, 0)
}

/// Whether a shape adapter goes by the axes of its attribute, or else of its second input, and
/// axes that are added and then dropped, or dropped and then added, leave a value as it was.
pub open spec fn adapter_meanings<V>(w: World<V>) -> bool {
    &&& forall|op: Seq<char>, inputs: Seq<V>, attributes: Seq<Attribute>|
        inputs.len() > 0 && axes_named(attributes) is Some ==> #[trigger] adapter_yields(
            w,
            op,
            inputs,
            attributes,
        ) == adapted(w, op, inputs[0], axes_named(attributes)->0)
    &&& forall|op: Seq<char>, inputs: Seq<V>, attributes: Seq<Attribute>, t: Tensor|
        #![trigger adapter_yields(w, op, inputs, attributes), int64_values(t)]
        inputs.len() > 1 && axes_named(attributes) is None && int64_values(t) is Some && inputs[1]
            == (w.constant)(unnamed(t)) ==> adapter_yields(w, op, inputs, attributes) == adapted(
            w,
            op,
            inputs[0],
            int64_values(t)->0,
        )
    &&& forall|a: V, p: Seq<i64>, q: Seq<i64>|
        same_front_axes(p, q) ==> #[trigger] adapted(
            w,
            "Squeeze"@,
            adapted(w, "Unsqueeze"@, a, p),
            q,
        ) == a
    &&& forall|a: V, p: Seq<i64>, q: Seq<i64>|
        same_front_axes(p, q) ==> #[trigger] adapted(
            w,
            "Unsqueeze"@,
            adapted(w, "Squeeze"@, a, p),
            q,
        ) == a
}

/// Whether two lists hold the same axes, each as often, and all counted from the front.
pub open spec fn same_front_axes(p: Seq<i64>, q: Seq<i64>) -> bool {
    &&& p.to_multiset() == q.to_multiset()
    &&& forall|i: int| 0 <= i < p.len() ==> #[trigger] p[i] >= 0
    &&& forall|i: int| 0 <= i < q.len() ==> #[trigger] q[i] >= 0
}

proof fn lemma_first_tensor(list: Seq<Tensor>, name: Seq<char>, i: int)
    requires
        0 <= i,
    ensures
        first_tensor(list, name, i) matches Some(t) ==> t.name == name && list.contains(t),
    decreases list.len() - i,
{
    if i < list.len() {
        if list[i].name == name {
            assert(list.contains(list[i]));
        } else {
            lemma_first_tensor(list, name, i + 1);
        }
    }
}

proof fn lemma_adapter<V>(w: World<V>, env: Values<V>, g: Graph, i: int)
    requires
        adapter_meanings(w),
        runs(w, env, g),
        0 <= i < g.node.len(),
        g.node[i].input.len() > 0,
        g.node[i].output.len() == 1,
        fixed_axes(g, g.node[i]) is Some,
    ensures
        env(g.node[i].output[0]) == adapted(
            w,
            g.node[i].op_type,
            env(g.node[i].input[0]),
            fixed_axes(g, g.node[i])->0,
        ),
{
    reveal(runs);
    let n = g.node[i];
    assert(computes(w, env, n));
    let inputs = seen(env, n.input);
    assert(env(n.output[0]) == adapter_yields(w, n.op_type, inputs, n.attribute));
    assert(axes_named(n.attribute) == ints_named(n, "axes"@));
    if ints_named(n, "axes"@) is None {
        let t = first_tensor(g.initializer, n.input[1], 0)->0;
        lemma_first_tensor(g.initializer, n.input[1], 0);
        let j = choose|j: int| 0 <= j < g.initializer.len() && g.initializer[j] == t;
        assert(env(g.initializer[j].name) == (w.constant)(unnamed(g.initializer[j])));
        assert(int64_values(t) is Some);
    }
}

/// Whether the gathered replacements and identities keep the values.
spec fn keeps_values<V>(env: Values<V>, g: Graph, a: Adapters) -> bool {
    &&& same_values(env, a.renamings)
    &&& forall|j: int|
        0 <= j < a.identities.len() ==> 0 <= (#[trigger] a.identities[j]).0 < g.node.len()
            && g.node[a.identities[j].0].output.len() == 1 && env(
            g.node[a.identities[j].0].output[0],
        ) == env(a.identities[j].1)
}

proof fn lemma_adapters<V>(w: World<V>, env: Values<V>, g: Graph, k: nat)
    requires
        adapter_meanings(w),
        runs(w, env, g),
        k <= g.node.len(),
    ensures
        keeps_values(env, g, adapters_upto(g, k)),
    decreases k,
{
    if k > 0 {
        lemma_adapters(w, env, g, (k - 1) as nat);
        let front = adapters_upto(g, (k - 1) as nat);
        let a = adapters_upto(g, k);
        let n = g.node[k - 1];
        if let Some(p) = adapter_before(g, k - 1) {
            lemma_producer_bound(g.node, n.input[0]);
            let m = g.node[p];
            assert(m.output[0] == n.input[0]);
            lemma_adapter(w, env, g, p);
            lemma_adapter(w, env, g, k - 1);
            let (x, y) = (fixed_axes(g, m)->0, fixed_axes(g, n)->0);
            assert(same_front_axes(x, y));
            assert(env(n.output[0]) == adapted(
                w,
                n.op_type,
                adapted(w, m.op_type, env(m.input[0]), x),
                y,
            ));
            assert(env(n.output[0]) == env(m.input[0]));
        }
        assert forall|j: int| 0 <= j < a.renamings.len() implies env((#[trigger] a.renamings[j]).from)
            == env(a.renamings[j].to) by {
            if j < front.renamings.len() {
                assert(a.renamings[j] == front.renamings[j]);
            }
        }
        assert forall|j: int| 0 <= j < a.identities.len() implies 0 <= (
        #[trigger] a.identities[j]).0 < g.node.len() && g.node[a.identities[j].0].output.len() == 1
            && env(g.node[a.identities[j].0].output[0]) == env(a.identities[j].1) by {
            if j < front.identities.len() {
                assert(a.identities[j] == front.identities[j]);
            }
        }
    }
}

proof fn lemma_identities_set<V>(
    w: World<V>,
    env: Values<V>,
    g: Graph,
    nodes: Seq<Node>,
    a: Adapters,
    k: nat,
)
    requires
        plain_meanings(w),
        keeps_values(env, g, a),
        k <= a.identities.len(),
        nodes.len() == g.node.len(),
        forall|i: int|
            0 <= i < nodes.len() ==> computes(w, env, #[trigger] nodes[i]) && nodes[i].output
                == g.node[i].output,
    ensures
        identities_set(nodes, a.identities, k).len() == nodes.len(),
        forall|i: int|
            0 <= i < nodes.len() ==> computes(
                w,
                env,
                #[trigger] identities_set(nodes, a.identities, k)[i],
            ) && identities_set(nodes, a.identities, k)[i].output == g.node[i].output,
    decreases k,
{
    if k > 0 {
        lemma_identities_set(w, env, g, nodes, a, (k - 1) as nat);
        let front = identities_set(nodes, a.identities, (k - 1) as nat);
        let (i, name) = a.identities[k - 1];
        assert(env(g.node[a.identities[k - 1].0].output[0]) == env(a.identities[k - 1].1));
        let n = Node {
            op_type: "Identity"@,
            input: seq![name],
            output: front[i].output,
            attribute: Seq::empty(),
        };
        assert(seen(env, n.input) =~= seq![env(name)]);
        assert(made_of(w, "Identity"@, env(name), Seq::empty()) == env(name));
        assert(computes(w, env, n));
    }
}

/// Removing shape adapters that cancel changes nothing of what a graph computes.
pub proof fn law_removing_adapters_keeps_runs<V>(w: World<V>, env: Values<V>, g: Graph)
    requires
        plain_meanings(w),
        adapter_meanings(w),
        subgraphs(g).len() == 0,
        runs(w, env, g),
    ensures
        runs(w, env, adapters_removed(g).0),
{
    let a = adapters_upto(g, g.node.len());
    if a.renamings.len() > 0 || a.identities.len() > 0 {
        lemma_adapters(w, env, g, g.node.len());
        lemma_replaced_runs(w, env, g, a.renamings);
        let h = replaced(g, a.renamings);
        assert forall|i: int| 0 <= i < h.node.len() implies computes(w, env, #[trigger] h.node[i])
            && h.node[i].output == g.node[i].output by {
            reveal(runs);
        }
        lemma_identities_set(w, env, g, h.node, a, a.identities.len());
        let mid = Graph { node: identities_set(h.node, a.identities, a.identities.len()), ..h };
        assert(runs(w, env, mid)) by {
            reveal(runs);
        }
        lemma_retained_runs(w, env, mid, not_flags(a.dropped), not_flags(a.dropped));
    }
}

// ---- Constants that become outputs ----

/// Whether a `Constant` node yields its tensor.
pub open spec fn constant_meanings<V>(w: World<V>) -> bool {
    forall|t: Tensor| #[trigger] constant_yields(w, t) == (w.constant)(unnamed(t))
}

/// What a `Constant` node yields.
pub open spec fn constant_yields<V>(w: World<V>, t: Tensor) -> V {
    (w.apply)("Constant"@, Seq::empty(), seq![tensor_attribute("value"@, t)], 0)
}

/// Sanitizing changes nothing of what a graph computes.
pub proof fn law_sanitizing_keeps_runs<V>(w: World<V>, env: Values<V>, g: Graph, prune: bool)
    requires
        constant_meanings(w),
        runs(w, env, g),
    ensures
        runs(w, env, sanitized(g, prune)),
{
    let sole = Seq::new(
        g.initializer.len(),
        |i: int| initializer_of(g.initializer, g.initializer[i].name) == Some(i as nat),
    );
    lemma_retained_runs(w, env, g, sole, sole);
    let constants = sole_tensors(g.initializer);
    let start = Graph { initializer: constants, input: sole_inputs(g.input, constants), ..g };
    assert(runs(w, env, start)) by {
        reveal(runs);
        assert(runs(w, env, Graph { initializer: constants, ..g }));
    }
    let out = Seq::new(start.initializer.len(), |i: int| output_only(start, start.initializer[i]));
    let stay = Seq::new(
        start.initializer.len(),
        |i: int| !output_only(start, start.initializer[i]),
    );
    let moved = retained(start.initializer, out);
    let h = outputs_materialized(start);
    lemma_retained_runs(w, env, start, stay, stay);
    assert(runs(w, env, h)) by {
        reveal(runs);
        assert(runs(w, env, Graph { initializer: retained(start.initializer, stay), ..start }));
        let rest = Graph { initializer: retained(start.initializer, stay), ..start };
        assert(h.initializer == rest.initializer);
        assert forall|i: int| 0 <= i < h.initializer.len() implies env(
            (#[trigger] h.initializer[i]).name,
        ) == (w.constant)(unnamed(h.initializer[i])) by {
            assert(env(rest.initializer[i].name) == (w.constant)(unnamed(rest.initializer[i])));
        }
        assert forall|i: int| 0 <= i < h.node.len() implies computes(
            w,
            env,
            #[trigger] h.node[i],
        ) by {
            if i < start.node.len() {
                assert(h.node[i] == start.node[i]);
                assert(computes(w, env, start.node[i]));
            } else {
                let j = i - start.node.len();
                lemma_retained_origin(start.initializer, out, j);
                let k = origin(start.initializer, out, j);
                let t = start.initializer[k];
                assert(env(start.initializer[k].name) == (w.constant)(
                    unnamed(start.initializer[k]),
                ));
                let n = h.node[i];
                assert(n == constant_node(t));
                assert(seen(env, n.input) =~= Seq::empty());
                assert(n.attribute =~= seq![tensor_attribute("value"@, t)]);
                assert(constant_yields(w, t) == (w.constant)(unnamed(t)));
            }
        }
    }
    if prune {
        law_pruning_keeps_runs(w, env, h);
    }
}

} // verus!
