//! What reading one value instead of another does to a graph.

use crate::converter::optimizer::batch_norm::{taken, unique_name};
use crate::converter::optimizer::constants::{const_named, Const};
use crate::converter::optimizer::dims::broadcasts_into;
use crate::converter::optimizer::facts::used_once;
use crate::converter::optimizer::folds::{floating, identity_verdict, negative_zero, neutral_at};
use crate::converter::optimizer::fusions::{as_bias, fed_by, gemm_dtype, matmul_bias_fused};
use crate::converter::optimizer::options::{dtype_of, shape_of, Options};
use crate::fresh::lemma_free_name;
use crate::nested::{
    attributes_subgraphs, height, lemma_subgraph_height, lemma_with_subgraphs, nodes_subgraphs,
    nodes_with, subgraphs, with_subgraphs,
};
use crate::onnx::{Graph, Node, ValueInfo};
use crate::scope::{
    binds, consumed, produced, rename_subgraphs, rename_uses, renamed, rewrite_safe, tensor_named,
    uses_outer, value_named,
};
use vstd::prelude::*;

verus! {

proof fn lemma_same_attributes(a: Seq<Node>, b: Seq<Node>)
    requires
        a.len() == b.len(),
        forall|i: int| 0 <= i < a.len() ==> (#[trigger] a[i]).attribute == b[i].attribute,
    ensures
        nodes_subgraphs(a) == nodes_subgraphs(b),
    decreases a.len(),
{
    if a.len() > 0 {
        assert forall|i: int| 0 <= i < a.drop_last().len() implies (
        #[trigger] a.drop_last()[i]).attribute == b.drop_last()[i].attribute by {
            assert(a[i].attribute == b[i].attribute);
        }
        lemma_same_attributes(a.drop_last(), b.drop_last());
        assert(a[a.len() - 1].attribute == b[b.len() - 1].attribute);
    }
}

proof fn lemma_nodes_with_names(list: Seq<Node>, subs: Seq<Graph>)
    requires
        subs.len() == nodes_subgraphs(list).len(),
    ensures
        nodes_with(list, subs).len() == list.len(),
        forall|i: int|
            0 <= i < list.len() ==> (#[trigger] nodes_with(list, subs)[i]).input == list[i].input
                && nodes_with(list, subs)[i].output == list[i].output,
    decreases list.len(),
{
    if list.len() > 0 {
        let m = subs.len() - attributes_subgraphs(list.last().attribute).len();
        let front = list.drop_last();
        lemma_nodes_with_names(front, subs.take(m));
        let all = nodes_with(list, subs);
        assert forall|i: int| 0 <= i < list.len() implies (#[trigger] all[i]).input == list[i].input
            && all[i].output == list[i].output by {
            if i < front.len() {
                assert(all[i] == nodes_with(front, subs.take(m))[i]);
                assert(front[i] == list[i]);
            }
        }
    }
}

/// The renamed graph: its nodes read the new name, produce what they did, and hold the renamed
/// subgraphs.
proof fn lemma_rename_uses(g: Graph, from: Seq<char>, to: Seq<char>)
    ensures
        ({
            let h = rename_uses(g, from, to);
            &&& h.node.len() == g.node.len()
            &&& forall|i: int|
                0 <= i < g.node.len() ==> (#[trigger] h.node[i]).output == g.node[i].output
                    && h.node[i].input == Seq::new(
                    g.node[i].input.len(),
                    |j: int| renamed(g.node[i].input[j], from, to),
                )
            &&& subgraphs(h) == rename_subgraphs(g, from, to)
            &&& subgraphs(h).len() == subgraphs(g).len()
        }),
{
    let subs = rename_subgraphs(g, from, to);
    let w = with_subgraphs(g, subs);
    lemma_with_subgraphs(g, subs, subs);
    lemma_nodes_with_names(g.node, subs);
    let h = rename_uses(g, from, to);
    lemma_same_attributes(h.node, w.node);
    assert forall|i: int| 0 <= i < g.node.len() implies (#[trigger] h.node[i]).output
        == g.node[i].output && h.node[i].input == Seq::new(
        g.node[i].input.len(),
        |j: int| renamed(g.node[i].input[j], from, to),
    ) by {
        assert(w.node[i].input == g.node[i].input);
        assert(h.node[i].input =~= Seq::new(
            g.node[i].input.len(),
            |j: int| renamed(g.node[i].input[j], from, to),
        ));
    }
}

proof fn lemma_rename_binds(g: Graph, from: Seq<char>, to: Seq<char>, name: Seq<char>)
    ensures
        binds(rename_uses(g, from, to), name) == binds(g, name),
{
    lemma_rename_uses(g, from, to);
    let h = rename_uses(g, from, to);
    if produced(g.node, name) {
        let i = choose|i: int| 0 <= i < g.node.len() && #[trigger] g.node[i].output.contains(name);
        assert(h.node[i].output.contains(name));
    }
    if produced(h.node, name) {
        let i = choose|i: int| 0 <= i < h.node.len() && #[trigger] h.node[i].output.contains(name);
        assert(g.node[i].output.contains(name));
    }
}

proof fn lemma_rename_consumed(g: Graph, from: Seq<char>, to: Seq<char>, name: Seq<char>)
    requires
        from != to,
    ensures
        consumed(rename_uses(g, from, to).node, name) == (if name == from {
            false
        } else if name == to {
            consumed(g.node, to) || consumed(g.node, from)
        } else {
            consumed(g.node, name)
        }),
{
    lemma_rename_uses(g, from, to);
    let h = rename_uses(g, from, to);
    if consumed(h.node, name) {
        let i = choose|i: int| 0 <= i < h.node.len() && #[trigger] h.node[i].input.contains(name);
        let j = choose|j: int| 0 <= j < h.node[i].input.len() && h.node[i].input[j] == name;
        let old_name = g.node[i].input[j];
        assert(renamed(old_name, from, to) == name);
        assert(g.node[i].input.contains(old_name));
    }
    if name != from && consumed(g.node, name) {
        let i = choose|i: int| 0 <= i < g.node.len() && #[trigger] g.node[i].input.contains(name);
        let j = choose|j: int| 0 <= j < g.node[i].input.len() && g.node[i].input[j] == name;
        assert(h.node[i].input[j] == name);
        assert(h.node[i].input.contains(name));
    }
    if name == to && consumed(g.node, from) {
        let i = choose|i: int| 0 <= i < g.node.len() && #[trigger] g.node[i].input.contains(from);
        let j = choose|j: int| 0 <= j < g.node[i].input.len() && g.node[i].input[j] == from;
        assert(h.node[i].input[j] == to);
        assert(h.node[i].input.contains(to));
    }
}

spec fn used_in(subs: Seq<Graph>, name: Seq<char>) -> bool {
    exists|i: int| 0 <= i < subs.len() && !binds(#[trigger] subs[i], name) && uses_outer(subs[i], name)
}

/// After a safe rewrite nothing reads the old name any more, and the new name is read where it or
/// the old one was: no use is lost to a subgraph that gives a name a meaning of its own. All other
/// names are read where they were.
pub proof fn law_safe_rewrite(g: Graph, from: Seq<char>, to: Seq<char>, name: Seq<char>)
    requires
        rewrite_safe(g, from, to),
    ensures
        uses_outer(rename_uses(g, from, to), name) == (if name == from {
            false
        } else if name == to {
            uses_outer(g, to) || uses_outer(g, from)
        } else {
            uses_outer(g, name)
        }),
    decreases height(g),
{
    let h = rename_uses(g, from, to);
    lemma_rename_uses(g, from, to);
    lemma_rename_consumed(g, from, to, name);
    let old_subs = subgraphs(g);
    let new_subs = subgraphs(h);
    assert forall|i: int| 0 <= i < old_subs.len() implies ({
        let x = #[trigger] old_subs[i];
        let y = new_subs[i];
        &&& binds(y, name) == binds(x, name)
        &&& !binds(x, from) && binds(x, to) ==> !uses_outer(x, from)
        &&& y == x || (!binds(x, from) && !binds(x, to))
        &&& (binds(x, from) || binds(x, to)) ==> y == x
        &&& !(binds(x, from) || binds(x, to)) ==> uses_outer(y, name) == (if name == from {
            false
        } else if name == to {
            uses_outer(x, to) || uses_outer(x, from)
        } else {
            uses_outer(x, name)
        })
    }) by {
        let x = old_subs[i];
        lemma_subgraph_height(g, i);
        assert(new_subs[i] == rename_subgraphs(g, from, to)[i]);
        if !(binds(x, from) || binds(x, to)) {
            lemma_rename_binds(x, from, to, name);
            law_safe_rewrite(x, from, to, name);
        }
    }
    if used_in(new_subs, name) {
        let i = choose|i: int|
            0 <= i < new_subs.len() && !binds(#[trigger] new_subs[i], name) && uses_outer(
                new_subs[i],
                name,
            );
        let x = old_subs[i];
        if name == from {
            assert(binds(x, to) && !binds(x, from));
            assert(!uses_outer(x, from));
        } else if name == to {
            assert(!binds(x, to));
            if binds(x, from) {
                assert(used_in(old_subs, to));
            } else if uses_outer(x, to) {
                assert(used_in(old_subs, to));
            } else {
                assert(used_in(old_subs, from));
            }
        } else {
            assert(used_in(old_subs, name));
        }
    }
    if name != from && used_in(old_subs, name) {
        let i = choose|i: int|
            0 <= i < old_subs.len() && !binds(#[trigger] old_subs[i], name) && uses_outer(
                old_subs[i],
                name,
            );
        assert(!binds(new_subs[i], name) && uses_outer(new_subs[i], name));
        assert(used_in(new_subs, name));
    }
    if name == to && used_in(old_subs, from) {
        let i = choose|i: int|
            0 <= i < old_subs.len() && !binds(#[trigger] old_subs[i], from) && uses_outer(
                old_subs[i],
                from,
            );
        assert(!binds(old_subs[i], to));
        assert(!binds(new_subs[i], to) && uses_outer(new_subs[i], to));
        assert(used_in(new_subs, to));
    }
    assert(uses_outer(g, name) == (consumed(g.node, name) || used_in(old_subs, name)));
    assert(uses_outer(g, from) == (consumed(g.node, from) || used_in(old_subs, from)));
    assert(uses_outer(g, to) == (consumed(g.node, to) || used_in(old_subs, to)));
    assert(uses_outer(h, name) == (consumed(h.node, name) || used_in(new_subs, name)));
}

/// A subgraph that gives one of the two names a meaning of its own is left as it is.
pub proof fn law_shadowing_subgraph_untouched(g: Graph, from: Seq<char>, to: Seq<char>, i: int)
    requires
        0 <= i < subgraphs(g).len(),
        binds(subgraphs(g)[i], from) || binds(subgraphs(g)[i], to),
    ensures
        subgraphs(rename_uses(g, from, to))[i] == subgraphs(g)[i],
{
    lemma_rename_uses(g, from, to);
}

/// A rewrite is refused where a subgraph that gives the new name a meaning of its own reads the old
/// one.
pub proof fn law_capture_refused(g: Graph, from: Seq<char>, to: Seq<char>, i: int)
    requires
        0 <= i < subgraphs(g).len(),
        !binds(subgraphs(g)[i], from),
        binds(subgraphs(g)[i], to),
        uses_outer(subgraphs(g)[i], from),
    ensures
        !rewrite_safe(g, from, to),
{
}

/// An output of the graph is never taken to be read once only, whatever reads it.
pub proof fn law_outputs_not_single_use(g: Graph, name: Seq<char>)
    requires
        value_named(g.output, name),
    ensures
        !used_once(g, name),
{
}

/// An addition of a floating-point constant that is not the negative zero is kept.
pub proof fn law_positive_zero_kept(g: Graph, o: Options, i: int)
    requires
        0 <= i < g.node.len(),
        g.node[i].op_type == "Add"@,
        forall|at: int|
            0 <= at < 2 ==> (const_named(g, #[trigger] g.node[i].input[at]) matches Some(c)
                ==> floating(c.tensor.data_type) && !negative_zero(c.tensor)),
    ensures
        identity_verdict(g, o, i) is Keep,
{
    assert(!neutral_at(g, o, g.node[i], 0)) by {
        assert(const_named(g, g.node[i].input[0]) matches Some(c) ==> floating(c.tensor.data_type)
            && !negative_zero(c.tensor));
    }
    assert(!neutral_at(g, o, g.node[i], 1)) by {
        assert(const_named(g, g.node[i].input[1]) matches Some(c) ==> floating(c.tensor.data_type)
            && !negative_zero(c.tensor));
    }
}

/// A neutral constant is only dropped where it does not raise the rank: it is a scalar, or the
/// rank of what it is combined with is known and not less than its own.
pub proof fn law_neutral_constant_keeps_rank(g: Graph, o: Options, n: Node, at: int)
    requires
        neutral_at(g, o, n, at),
    ensures
        const_named(g, n.input[at]) is Some,
        const_named(g, n.input[at])->0.tensor.dims.len() == 0 || (shape_of(
            g,
            o,
            n.input[1 - at],
        ) matches Some(shape) && const_named(g, n.input[at])->0.tensor.dims.len() <= shape.len()),
{
}

/// A list of the channels' values is taken for a bias only where the output is known to have two
/// axes.
pub proof fn law_flat_addend_needs_two_axes(
    bias: Const,
    channels: i64,
    shape: Option<Seq<i64>>,
    single: bool,
)
    requires
        as_bias(bias, channels, shape, single) is Some,
        bias.tensor.dims.len() == 1,
    ensures
        shape matches Some(dims) && dims.len() == 2,
{
}

/// A product and a sum become one node only where the factors are matrices of one element type
/// that the node takes in the target opset, and the addend has that type and does not enlarge the
/// product.
pub proof fn law_product_and_sum_fused(g: Graph, o: Options, i: int)
    requires
        matmul_bias_fused(g, o, i) is Some,
    ensures
        fed_by(g, g.node[i], "MatMul"@) is Some,
        ({
            let n = g.node[i];
            let (at, p) = fed_by(g, n, "MatMul"@)->0;
            let a = g.node[p].input[0];
            let b = g.node[p].input[1];
            &&& dtype_of(g, a) is Some
            &&& dtype_of(g, a) == dtype_of(g, b)
            &&& gemm_dtype(dtype_of(g, a)->0, o.target_opset)
            &&& shape_of(g, o, a) is Some
            &&& shape_of(g, o, b) is Some
            &&& shape_of(g, o, a)->0.len() == 2
            &&& shape_of(g, o, b)->0.len() == 2
            &&& const_named(g, n.input[1 - at]) is Some
            &&& const_named(g, n.input[1 - at])->0.tensor.data_type == dtype_of(g, a)->0
            &&& broadcasts_into(
                const_named(g, n.input[1 - at])->0.tensor.dims,
                seq![shape_of(g, o, a)->0[0], shape_of(g, o, b)->0[1]],
            )
        }),
{
}

spec fn output_names(list: Seq<Node>, k: nat) -> Set<Seq<char>>
    decreases k,
{
    if k == 0 {
        Set::empty()
    } else {
        output_names(list, (k - 1) as nat).union(list[k - 1].output.to_set())
    }
}

proof fn lemma_output_names(list: Seq<Node>, k: nat)
    requires
        k <= list.len(),
    ensures
        output_names(list, k).finite(),
        forall|i: int, name: Seq<char>|
            0 <= i < k && #[trigger] list[i].output.contains(name) ==> output_names(
                list,
                k,
            ).contains(name),
    decreases k,
{
    if k > 0 {
        lemma_output_names(list, (k - 1) as nat);
        vstd::seq_lib::seq_to_set_is_finite(list[k - 1].output);
        assert forall|i: int, name: Seq<char>|
            0 <= i < k && #[trigger] list[i].output.contains(name) implies output_names(
            list,
            k,
        ).contains(name) by {
            if i == k - 1 {
                assert(list[k - 1].output.to_set().contains(name));
            }
        }
    }
}

spec fn value_names(list: Seq<ValueInfo>) -> Seq<Seq<char>> {
    Seq::new(list.len(), |i: int| list[i].name)
}

proof fn lemma_value_names(list: Seq<ValueInfo>, name: Seq<char>)
    ensures
        value_names(list).to_set().finite(),
        value_named(list, name) ==> value_names(list).to_set().contains(name),
{
    vstd::seq_lib::seq_to_set_is_finite(value_names(list));
    if value_named(list, name) {
        let i = choose|i: int| 0 <= i < list.len() && #[trigger] list[i].name == name;
        assert(value_names(list)[i] == name);
    }
}

/// A fresh constant never takes the name of another constant, of a value that a node produces, or
/// of an input, an output or a declaration of the graph.
pub proof fn law_fresh_name_not_taken(g: Graph, base: Seq<char>)
    ensures
        !taken(g, unique_name(g, base)),
{
    if taken(g, base) {
        let used = Set::new(|name: Seq<char>| taken(g, name));
        let tensors = Seq::new(g.initializer.len(), |i: int| g.initializer[i].name);
        let all = tensors.to_set().union(output_names(g.node, g.node.len())).union(
            value_names(g.input).to_set(),
        ).union(value_names(g.output).to_set()).union(value_names(g.value_info).to_set());
        lemma_output_names(g.node, g.node.len());
        vstd::seq_lib::seq_to_set_is_finite(tensors);
        lemma_value_names(g.input, base);
        lemma_value_names(g.output, base);
        lemma_value_names(g.value_info, base);
        assert forall|name: Seq<char>| used.contains(name) implies all.contains(name) by {
            lemma_value_names(g.input, name);
            lemma_value_names(g.output, name);
            lemma_value_names(g.value_info, name);
            if tensor_named(g.initializer, name) {
                let i = choose|i: int|
                    0 <= i < g.initializer.len() && #[trigger] g.initializer[i].name == name;
                assert(tensors[i] == name);
            }
        }
        vstd::set_lib::lemma_set_subset_finite(all, used);
        lemma_free_name(used, base, 0);
    }
}

} // verus!
