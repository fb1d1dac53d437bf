//! What the nodes that stand for products and pooling compute.

use crate::converter::attr::without_named;
use crate::converter::ops::common::{const_ints, names_upto, shape_or_empty};
use crate::converter::ops::conv::{
    constant_input, conv2d_transpose_lowered, counting_pads, pool2d_lowered, pool_attributes,
    pool_window, transposed_attributes,
};
use crate::converter::ops::math::{factor_added, last_swapped, matmul_lowered};
use crate::converter::ops::misc::carried_attributes;
use crate::converter::state::{tensor_name, Meta};
use crate::helper::{attr_bool_of, attr_chars_of, input_ids, out_id};
use crate::json::JsonView;
use crate::laws::meaning::{
    group_runs, input_of, lemma_names, lemma_node_output, output_of, ran, runs, seen, Values, World,
};
use crate::onnx::{int_attribute, ints_attribute, node_of, Attribute, Graph, Node};
use crate::text::tagged;
use vstd::prelude::*;

verus! {

// ---- Matrix products ----

/// A stack of matrices: for every place in the stack, a row and a column, a number.
pub struct Stack {
    pub at: spec_fn(Seq<int>, int, int) -> int,
}

/// Whether a permutation exchanges the last two of so many axes and keeps the others.
pub open spec fn exchanges_last(perm: Seq<i64>, rank: nat) -> bool {
    &&& perm.len() == rank
    &&& rank >= 2
    &&& perm[rank - 1] == rank - 2
    &&& perm[rank - 2] == rank - 1
    &&& forall|i: int| 0 <= i < rank - 2 ==> #[trigger] perm[i] == i
}

/// A value with its axes in another order.
pub open spec fn transposed<V>(w: World<V>, a: V, perm: Seq<i64>) -> V {
    (w.apply)("Transpose"@, seq![a], seq![ints_attribute("perm"@, perm)], 0)
}

/// The sum of the first `n` products.
pub open spec fn dot(a: spec_fn(int) -> int, b: spec_fn(int) -> int, n: nat) -> int
    decreases n,
{
    if n == 0 {
        0
    } else {
        dot(a, b, (n - 1) as nat) + a(n - 1) * b(n - 1)
    }
}

/// An element of the product of matrices with `n` columns and `n` rows.
pub open spec fn product_at(a: Stack, b: Stack, place: Seq<int>, i: int, j: int, n: nat) -> int {
    dot(|k: int| (a.at)(place, i, k), |k: int| (b.at)(place, k, j), n)
}

/// Whether `Transpose` exchanges rows and columns where it exchanges the last two axes, and
/// `MatMul` multiplies matrices with `n` columns and `n` rows.
pub open spec fn multiplies(w: World<Stack>, n: nat) -> bool {
    &&& forall|a: Stack, perm: Seq<i64>, rank: nat, place: Seq<int>, i: int, j: int|
        #![trigger (transposed(w, a, perm).at)(place, i, j), exchanges_last(perm, rank)]
        exchanges_last(perm, rank) ==> (transposed(w, a, perm).at)(place, i, j) == (a.at)(
            place,
            j,
            i,
        )
    &&& forall|a: Stack, b: Stack, place: Seq<int>, i: int, j: int| #[trigger]
        (w.of2("MatMul"@, a, b).at)(place, i, j) == product_at(a, b, place, i, j, n)
}

/// Whether a factor is to be transposed: its flag says so, and it has rows and columns.
pub open spec fn turned(m: Meta, op: JsonView, flag: Seq<char>, i: int) -> bool {
    attr_bool_of(op, flag) == Some(true) && shape_or_empty(m, input_ids(op)[i]).len() >= 2
}

/// An element of a factor, or of its transpose.
pub open spec fn entry(a: Stack, turn: bool, place: Seq<int>, i: int, j: int) -> int {
    if turn {
        (a.at)(place, j, i)
    } else {
        (a.at)(place, i, j)
    }
}

/// The permutation that exchanges the last two of so many axes.
pub open spec fn last_exchanged(rank: nat) -> Seq<i64> {
    Seq::new(
        rank,
        |i: int|
            (if i + 1 == rank {
                rank - 2
            } else if i + 2 == rank {
                rank - 1
            } else {
                i
            }) as i64,
    )
}

/// A factor, or its transpose.
pub open spec fn factor<V>(w: World<V>, a: V, turn: bool, rank: nat) -> V {
    if turn {
        transposed(w, a, last_exchanged(rank))
    } else {
        a
    }
}

proof fn lemma_factor<V>(
    w: World<V>,
    env: Values<V>,
    m: Meta,
    g: Graph,
    id: i64,
    name: Seq<char>,
    enabled: bool,
    out: Seq<char>,
)
    requires
        runs(w, env, factor_added(m, g, id, name, enabled, out).0),
    ensures
        runs(w, env, g),
        env(factor_added(m, g, id, name, enabled, out).1) == factor(
            w,
            env(name),
            enabled && shape_or_empty(m, id).len() >= 2,
            shape_or_empty(m, id).len(),
        ),
{
    broadcast use group_runs;

    reveal(factor_added);
    let rank = shape_or_empty(m, id).len();
    if enabled && rank >= 2 {
        let n = node_of("Transpose"@, seq![name], seq![out]).with(
            ints_attribute("perm"@, last_swapped(rank)),
        );
        assert(runs(w, env, g.with_node(n)));
        assert(n.output[0] == out);
        lemma_node_output(w, env, n);
        assert(seen(env, n.input) =~= seq![env(name)]);
        assert(n.attribute =~= seq![ints_attribute("perm"@, last_swapped(rank))]);
        assert(last_swapped(rank) =~= last_exchanged(rank));
    }
}

/// `matmul` is the product of its inputs, each transposed in its last two axes exactly where its
/// own flag says so and it has at least two axes.
pub proof fn law_matmul<V>(w: World<V>, env: Values<V>, m: Meta, g: Graph, op: JsonView)
    requires
        ran(w, env, matmul_lowered(m, g, op)),
    ensures
        output_of(m, env, op) == w.of2(
            "MatMul"@,
            factor(
                w,
                input_of(m, env, op, 0),
                turned(m, op, "transpose_x"@, 0),
                shape_or_empty(m, input_ids(op)[0]).len(),
            ),
            factor(
                w,
                input_of(m, env, op, 1),
                turned(m, op, "transpose_y"@, 1),
                shape_or_empty(m, input_ids(op)[1]).len(),
            ),
        ),
{
    broadcast use group_runs;

    let ins = input_ids(op);
    let id = out_id(op)->Ok_0;
    lemma_names(m, ins, 2);
    let (x, y) = (tensor_name(m, ins[0])->Ok_0, tensor_name(m, ins[1])->Ok_0);
    let turn_x = attr_bool_of(op, "transpose_x"@) == Some(true);
    let turn_y = attr_bool_of(op, "transpose_y"@) == Some(true);
    let (g1, lhs) = factor_added(m, g, ins[0], x, turn_x, tagged("matmul_transpose_x_"@, id));
    let (g2, rhs) = factor_added(m, g1, ins[1], y, turn_y, tagged("matmul_transpose_y_"@, id));
    assert(runs(w, env, g2));
    lemma_factor(w, env, m, g1, ins[1], y, turn_y, tagged("matmul_transpose_y_"@, id));
    lemma_factor(w, env, m, g, ins[0], x, turn_x, tagged("matmul_transpose_x_"@, id));
}

/// An element of `matmul` is the sum of the products along a row of the first factor and a column
/// of the second, where a factor that is to be transposed is read with row and column exchanged.
pub proof fn law_matmul_elements(
    w: World<Stack>,
    env: Values<Stack>,
    m: Meta,
    g: Graph,
    op: JsonView,
    n: nat,
    place: Seq<int>,
    i: int,
    j: int,
)
    requires
        multiplies(w, n),
        shape_or_empty(m, input_ids(op)[0]).len() <= i64::MAX,
        shape_or_empty(m, input_ids(op)[1]).len() <= i64::MAX,
        ran(w, env, matmul_lowered(m, g, op)),
    ensures
        (output_of(m, env, op).at)(place, i, j) == dot(
            |k: int|
                entry(input_of(m, env, op, 0), turned(m, op, "transpose_x"@, 0), place, i, k),
            |k: int|
                entry(input_of(m, env, op, 1), turned(m, op, "transpose_y"@, 1), place, k, j),
            n,
        ),
{
    law_matmul(w, env, m, g, op);
    let (x, y) = (input_of(m, env, op, 0), input_of(m, env, op, 1));
    let (turn_x, turn_y) = (turned(m, op, "transpose_x"@, 0), turned(m, op, "transpose_y"@, 1));
    let (rx, ry) = (
        shape_or_empty(m, input_ids(op)[0]).len(),
        shape_or_empty(m, input_ids(op)[1]).len(),
    );
    let a = factor(w, x, turn_x, rx);
    let b = factor(w, y, turn_y, ry);
    assert((w.of2("MatMul"@, a, b).at)(place, i, j) == product_at(a, b, place, i, j, n));
    let (f, f2) = (|k: int| (a.at)(place, i, k), |k: int| entry(x, turn_x, place, i, k));
    let (h, h2) = (|k: int| (b.at)(place, k, j), |k: int| entry(y, turn_y, place, k, j));
    assert forall|k: int| #[trigger] f(k) == f2(k) by {
        if turn_x {
            assert(exchanges_last(last_exchanged(rx), rx));
            assert((transposed(w, x, last_exchanged(rx)).at)(place, i, k) == (x.at)(place, k, i));
        }
    }
    assert forall|k: int| #[trigger] h(k) == h2(k) by {
        if turn_y {
            assert(exchanges_last(last_exchanged(ry), ry));
            assert((transposed(w, y, last_exchanged(ry)).at)(place, k, j) == (y.at)(place, j, k));
        }
    }
    lemma_dot_same(f, f2, h, h2, n);
}

proof fn lemma_dot_same(
    a: spec_fn(int) -> int,
    a2: spec_fn(int) -> int,
    b: spec_fn(int) -> int,
    b2: spec_fn(int) -> int,
    n: nat,
)
    requires
        forall|k: int| #[trigger] a(k) == a2(k),
        forall|k: int| #[trigger] b(k) == b2(k),
    ensures
        dot(a, b, n) == dot(a2, b2, n),
    decreases n,
{
    if n > 0 {
        lemma_dot_same(a, a2, b, b2, (n - 1) as nat);
        assert(a(n - 1) == a2(n - 1) && b(n - 1) == b2(n - 1));
    }
}

// ---- Pooling ----

/// Whether an average is asked for.
pub open spec fn asks_average(op: JsonView) -> bool {
    attr_chars_of(op, "pooling_type"@) == Some("avg"@)
}

/// The size that the second input of a pooling gives, where it is constant.
pub open spec fn pool_size(m: Meta, op: JsonView) -> Option<Seq<i64>> {
    if input_ids(op).len() > 1 {
        const_ints(m, input_ids(op)[1])
    } else {
        None
    }
}

/// Whether the window of a pooling is everything.
pub open spec fn pools_everything(m: Meta, op: JsonView) -> bool {
    attr_bool_of(op, "global_pooling"@) == Some(true) || (attr_bool_of(op, "adaptive"@) == Some(
        true,
    ) && pool_size(m, op) == Some(seq![1i64, 1i64]))
}

/// The window of a pooling that is not over everything, as attributes: what the operator carries,
/// the size, and that padding counts in an average that is not to leave it out.
pub open spec fn window_of(m: Meta, op: JsonView) -> Seq<Attribute> {
    let list = pool_attributes(m, op)->Ok_0;
    let sized = match pool_size(m, op) {
        Some(size) => list.push(ints_attribute("kernel_shape"@, size)),
        None => list,
    };
    if asks_average(op) && attr_bool_of(op, "exclusive"@) == Some(false) {
        sized.push(int_attribute("count_include_pad"@, 1))
    } else {
        sized
    }
}

/// `pool2d` over windows is `AveragePool` where the average is asked for and `MaxPool` otherwise,
/// with the window that the operator describes; over everything it is the global one of the two.
pub proof fn law_pool<V>(w: World<V>, env: Values<V>, m: Meta, g: Graph, op: JsonView)
    requires
        input_ids(op).len() > 0,
        ran(w, env, pool2d_lowered(m, g, op)),
    ensures
        !pools_everything(m, op) ==> output_of(m, env, op) == (w.apply)(
            if asks_average(op) {
                "AveragePool"@
            } else {
                "MaxPool"@
            },
            seq![input_of(m, env, op, 0)],
            window_of(m, op),
            0,
        ),
        pools_everything(m, op) && asks_average(op) ==> output_of(m, env, op) == (w.apply)(
            "GlobalAveragePool"@,
            seq![input_of(m, env, op, 0)],
            if attr_bool_of(op, "exclusive"@) == Some(false) {
                seq![int_attribute("count_include_pad"@, 1)]
            } else {
                Seq::empty()
            },
            0,
        ),
        pools_everything(m, op) && !asks_average(op) ==> output_of(m, env, op) == w.of1(
            "GlobalMaxPool"@,
            input_of(m, env, op, 0),
        ),
{
    broadcast use group_runs;

    let step = pool2d_lowered(m, g, op);
    let name = tensor_name(m, input_ids(op)[0])->Ok_0;
    let output = tensor_name(m, out_id(op)->Ok_0)->Ok_0;
    lemma_names(m, input_ids(op), 1);
    let list = pool_attributes(m, op)->Ok_0;
    let (kind, window) = pool_window(m, op, list)->Ok_0;
    let inputs = names_upto(m, input_ids(op), 1)->Ok_0;
    assert(inputs =~= seq![name]);
    let n = Node {
        attribute: counting_pads(op, window),
        ..node_of(kind, inputs, seq![output])
    };
    assert(step.0 == g.with_node(n));
    assert(n.output[0] == output);
    lemma_node_output(w, env, n);
    assert(seen(env, n.input) =~= seq![env(name)]);
    assert(Seq::<Attribute>::empty().push(int_attribute("count_include_pad"@, 1)) =~= seq![
        int_attribute("count_include_pad"@, 1),
    ]);
}

/// A number at every position.
pub struct Field {
    pub at: spec_fn(int) -> int,
}

/// Whether `MaxPool` yields no less than any of the numbers that a window covers, by the attributes of
/// the window, a position of the result and a position of the input.
pub open spec fn pools_greatest(w: World<Field>, covers: spec_fn(Seq<Attribute>, int, int) -> bool) -> bool {
    forall|x: Field, window: Seq<Attribute>, i: int, j: int| #[trigger]
        covers(window, i, j) ==> #[trigger] (max_pool(w, x, window).at)(i) >= (x.at)(j)
}

/// What `MaxPool` yields.
pub open spec fn max_pool(w: World<Field>, x: Field, window: Seq<Attribute>) -> Field {
    (w.apply)("MaxPool"@, seq![x], window, 0)
}

/// Unless the average is asked for, no number that a window of `pool2d` covers is greater than the
/// result for the window.
pub proof fn law_pool_greatest(
    w: World<Field>,
    env: Values<Field>,
    m: Meta,
    g: Graph,
    op: JsonView,
    covers: spec_fn(Seq<Attribute>, int, int) -> bool,
    i: int,
    j: int,
)
    requires
        pools_greatest(w, covers),
        input_ids(op).len() > 0,
        !asks_average(op),
        !pools_everything(m, op),
        covers(window_of(m, op), i, j),
        ran(w, env, pool2d_lowered(m, g, op)),
    ensures
        (input_of(m, env, op, 0).at)(j) <= (output_of(m, env, op).at)(i),
{
    law_pool(w, env, m, g, op);
    let x = input_of(m, env, op, 0);
    assert(output_of(m, env, op) == max_pool(w, x, window_of(m, op)));
    assert((max_pool(w, x, window_of(m, op)).at)(i) >= (x.at)(j));
}

/// `conv2d_transpose` convolves its input with the filter; a constant third input is the size of
/// the result.
pub proof fn law_conv_transpose<V>(w: World<V>, env: Values<V>, m: Meta, g: Graph, op: JsonView)
    requires
        ran(w, env, conv2d_transpose_lowered(m, g, op)),
    ensures
        ({
            let size = if input_ids(op).len() > 2 {
                const_ints(m, input_ids(op)[2])
            } else {
                None
            };
            let list = carried_attributes("conv2d_transpose"@, op);
            output_of(m, env, op) == (w.apply)(
                "ConvTranspose"@,
                seq![input_of(m, env, op, 0), input_of(m, env, op, 1)],
                match size {
                    Some(size) => without_named(list, "output_shape"@).push(
                        ints_attribute("output_shape"@, size),
                    ),
                    None => list,
                },
                0,
            )
        }),
{
    broadcast use group_runs;

    let ins = input_ids(op);
    lemma_names(m, ins, 2);
    let output = tensor_name(m, out_id(op)->Ok_0)->Ok_0;
    let inputs = names_upto(m, ins, 2)->Ok_0;
    let n = Node {
        attribute: transposed_attributes(
            carried_attributes("conv2d_transpose"@, op),
            constant_input(m, ins, 2),
        ),
        ..node_of("ConvTranspose"@, inputs, seq![output])
    };
    assert(conv2d_transpose_lowered(m, g, op).0 == g.with_node(n));
    assert(n.output[0] == output);
    lemma_node_output(w, env, n);
    assert(seen(env, n.input) =~= seq![input_of(m, env, op, 0), input_of(m, env, op, 1)]);
}

} // verus!
