//! What the nodes of a graph compute, whatever their operators mean.

use crate::converter::emit::{
    binary_added, cast_added, concat_added, gather_added, int_bytes, ints_added, numbers_added,
    reduce_added, scalars_bytes, scatter_added, single_bytes, singles_added, sizes_for, slice_added,
    squeeze_added, ternary_added, topk_added, unary_added, unsqueeze_added, vector_added, Step,
};
use crate::converter::ops::common::{
    has_shape, has_type, ints_ensured, names_upto, scalar_ensured, scalar_passed,
};
use crate::converter::ops::math::mod_added;
use crate::converter::state::{tensor_name, Meta};
use crate::dtype::{FLOAT, INT64};
use crate::helper::{input_ids, out_id};
use crate::json::JsonView;
use crate::onnx::{
    int_attribute, ints_attribute, node_of, tensor_of, Attribute, Graph, Node, Tensor,
};
use vstd::prelude::*;

verus! {

/// What operators and constants stand for: the value that an operator yields as its output `k`,
/// by its name, its inputs and its attributes, and the value of a constant.
#[verifier::reject_recursive_types(V)]
pub struct World<V> {
    pub apply: spec_fn(Seq<char>, Seq<V>, Seq<Attribute>, int) -> V,
    pub constant: spec_fn(Tensor) -> V,
}

/// A value for every name.
pub type Values<V> = spec_fn(Seq<char>) -> V;

/// The values of names.
pub open spec fn seen<V>(env: Values<V>, list: Seq<Seq<char>>) -> Seq<V> {
    Seq::new(list.len(), |i: int| env(list[i]))
}

/// A constant without its name.
pub open spec fn unnamed(t: Tensor) -> Tensor {
    Tensor { name: Seq::empty(), ..t }
}

/// Whether the outputs of a node have the values that its operator yields.
pub open spec fn computes<V>(w: World<V>, env: Values<V>, n: Node) -> bool {
    forall|k: int|
        0 <= k < n.output.len() ==> env(#[trigger] n.output[k]) == (w.apply)(
            n.op_type,
            seen(env, n.input),
            n.attribute,
            k,
        )
}

/// Whether the values are those of a run of the graph: every node computes its outputs, and every
/// constant has its value.
#[verifier::opaque]
pub open spec fn runs<V>(w: World<V>, env: Values<V>, g: Graph) -> bool {
    &&& forall|i: int| 0 <= i < g.node.len() ==> computes(w, env, #[trigger] g.node[i])
    &&& forall|i: int|
        0 <= i < g.initializer.len() ==> env((#[trigger] g.initializer[i]).name) == (w.constant)(
            unnamed(g.initializer[i]),
        )
}

impl<V> World<V> {
    /// What an operator without attributes makes of one value.
    pub open spec fn of1(self, op: Seq<char>, a: V) -> V {
        (self.apply)(op, seq![a], Seq::empty(), 0)
    }

    /// What an operator without attributes makes of two values.
    pub open spec fn of2(self, op: Seq<char>, a: V, b: V) -> V {
        (self.apply)(op, seq![a, b], Seq::empty(), 0)
    }

    /// What an operator without attributes makes of three values.
    pub open spec fn of3(self, op: Seq<char>, a: V, b: V, c: V) -> V {
        (self.apply)(op, seq![a, b, c], Seq::empty(), 0)
    }

    /// What an operator with one integer attribute makes of values.
    pub open spec fn with_int(self, op: Seq<char>, list: Seq<V>, name: Seq<char>, i: int) -> V {
        (self.apply)(op, list, seq![int_attribute(name, i as i64)], 0)
    }

    /// An `INT64` constant.
    pub open spec fn ints(self, dims: Seq<i64>, values: Seq<i64>) -> V {
        (self.constant)(
            Tensor { raw_data: int_bytes(values), ..tensor_of(Seq::empty(), dims, INT64) },
        )
    }

    /// An `INT64` constant of one axis.
    pub open spec fn vector(self, values: Seq<i64>) -> V {
        self.ints(seq![values.len() as i64], values)
    }

    /// A `FLOAT` constant.
    pub open spec fn singles(self, dims: Seq<i64>, values: Seq<u32>) -> V {
        (self.constant)(
            Tensor { raw_data: single_bytes(values), ..tensor_of(Seq::empty(), dims, FLOAT) },
        )
    }

    /// A constant of any type.
    pub open spec fn numbers(self, dims: Seq<i64>, data_type: i32, values: Seq<u64>) -> V {
        (self.constant)(
            Tensor {
                raw_data: scalars_bytes(values, data_type, values.len())->Ok_0,
                ..tensor_of(Seq::empty(), dims, data_type)
            },
        )
    }

    /// A value in another element type.
    pub open spec fn cast(self, a: V, to: int) -> V {
        self.with_int("Cast"@, seq![a], "to"@, to)
    }

    /// What `Gather` selects along an axis.
    pub open spec fn gather(self, a: V, at: V, axis: int) -> V {
        self.with_int("Gather"@, seq![a, at], "axis"@, axis)
    }

    /// What `ScatterElements` makes of data by overwriting elements.
    pub open spec fn scatter(self, a: V, at: V, updates: V, axis: int) -> V {
        self.with_int("ScatterElements"@, seq![a, at, updates], "axis"@, axis)
    }

    /// Values joined along an axis.
    pub open spec fn concat(self, list: Seq<V>, axis: int) -> V {
        self.with_int("Concat"@, list, "axis"@, axis)
    }

    /// The greatest or the least elements along an axis, or their positions.
    pub open spec fn topk(self, a: V, count: V, axis: int, largest: int, k: int) -> V {
        (self.apply)(
            "TopK"@,
            seq![a, count],
            seq![
                int_attribute("axis"@, axis as i64),
                int_attribute("largest"@, largest as i64),
                int_attribute("sorted"@, 1),
            ],
            k,
        )
    }

    /// A value with new axes of size one.
    pub open spec fn unsqueeze(self, a: V, axes: Seq<i64>) -> V {
        (self.apply)("Unsqueeze"@, seq![a], seq![ints_attribute("axes"@, axes)], 0)
    }

    /// A value without axes of size one.
    pub open spec fn squeeze(self, a: V, axes: Seq<i64>) -> V {
        (self.apply)("Squeeze"@, seq![a], seq![ints_attribute("axes"@, axes)], 0)
    }

    /// A part of a value: along each of the axes from a start on, before an end, by steps.
    pub open spec fn slice(
        self,
        a: V,
        starts: Seq<i64>,
        ends: Seq<i64>,
        axes: Seq<i64>,
        steps: Seq<i64>,
    ) -> V {
        (self.apply)(
            "Slice"@,
            seq![a, self.vector(starts), self.vector(ends), self.vector(axes), self.vector(steps)],
            Seq::empty(),
            0,
        )
    }

    /// A value reduced along axes.
    pub open spec fn reduce(self, op: Seq<char>, a: V, axes: Seq<i64>, keepdims: int) -> V {
        (self.apply)(
            op,
            seq![a],
            seq![ints_attribute("axes"@, axes), int_attribute("keepdims"@, keepdims as i64)],
            0,
        )
    }

    /// What an operator makes of a value that is told its axes by a constant.
    pub open spec fn axes_given(self, op: Seq<char>, a: V, axes: Seq<i64>, rest: Seq<Attribute>) -> V {
        (self.apply)(op, seq![a, self.vector(axes)], rest, 0)
    }

    /// What an operator makes of a value that is told its axes by an attribute.
    pub open spec fn axes_noted(self, op: Seq<char>, a: V, axes: Seq<i64>, rest: Seq<Attribute>) -> V {
        (self.apply)(op, seq![a], seq![ints_attribute("axes"@, axes)] + rest, 0)
    }

    /// The part of a value that starts and ends given by constants, and maybe axes, select.
    pub open spec fn part_given(
        self,
        a: V,
        starts: Seq<i64>,
        ends: Seq<i64>,
        axes: Option<Seq<i64>>,
    ) -> V {
        let bounds = seq![a, self.vector(starts), self.vector(ends)];
        match axes {
            Some(axes) => (self.apply)("Slice"@, bounds.push(self.vector(axes)), Seq::empty(), 0),
            None => (self.apply)("Slice"@, bounds, Seq::empty(), 0),
        }
    }

    /// The part of a value that starts and ends given by attributes, and maybe axes, select.
    pub open spec fn part_noted(
        self,
        a: V,
        starts: Seq<i64>,
        ends: Seq<i64>,
        axes: Option<Seq<i64>>,
    ) -> V {
        let bounds = seq![ints_attribute("starts"@, starts), ints_attribute("ends"@, ends)];
        match axes {
            Some(axes) => (self.apply)(
                "Slice"@,
                seq![a],
                bounds.push(ints_attribute("axes"@, axes)),
                0,
            ),
            None => (self.apply)("Slice"@, seq![a], bounds, 0),
        }
    }

    /// Whether it makes no difference in which of the ways that opsets know an operator is told
    /// its axes, starts, ends and steps: in attributes or in constants, with the usual ones left
    /// out or written down.
    pub open spec fn any_opset(self) -> bool {
        &&& forall|op: Seq<char>, a: V, axes: Seq<i64>, rest: Seq<Attribute>| #[trigger]
            self.axes_given(op, a, axes, rest) == self.axes_noted(op, a, axes, rest)
        &&& forall|a: V, starts: Seq<i64>, ends: Seq<i64>, axes: Option<Seq<i64>>| #[trigger]
            self.part_given(a, starts, ends, axes) == self.slice(
                a,
                starts,
                ends,
                axes_or_first(axes, starts.len()),
                unit_steps(starts.len()),
            )
        &&& forall|a: V, starts: Seq<i64>, ends: Seq<i64>, axes: Option<Seq<i64>>| #[trigger]
            self.part_noted(a, starts, ends, axes) == self.slice(
                a,
                starts,
                ends,
                axes_or_first(axes, starts.len()),
                unit_steps(starts.len()),
            )
    }
}

/// The axes that are given, or the first ones.
pub open spec fn axes_or_first(axes: Option<Seq<i64>>, count: nat) -> Seq<i64> {
    match axes {
        Some(axes) => axes,
        None => first_axes(count),
    }
}

/// The value that a run gives the value of a model with an id.
pub open spec fn value_of<V>(m: Meta, env: Values<V>, id: i64) -> V {
    env(tensor_name(m, id)->Ok_0)
}

/// The value that a run gives the input of an operator at a position.
pub open spec fn input_of<V>(m: Meta, env: Values<V>, op: JsonView, i: int) -> V {
    value_of(m, env, input_ids(op)[i])
}

/// The value that a run gives the first output of an operator.
pub open spec fn output_of<V>(m: Meta, env: Values<V>, op: JsonView) -> V {
    value_of(m, env, out_id(op)->Ok_0)
}

/// Whether the values are those of a run of the graph that a step leaves, and the step succeeds.
pub open spec fn ran<V>(w: World<V>, env: Values<V>, step: Step) -> bool {
    w.any_opset() && step.1 is Ok && runs(w, env, step.0)
}

/// The axes from the first on.
pub open spec fn first_axes(count: nat) -> Seq<i64> {
    Seq::new(count, |i: int| i as i64)
}

/// Steps of one.
pub open spec fn unit_steps(count: nat) -> Seq<i64> {
    Seq::new(count, |i: int| 1i64)
}

/// A run of a graph with one more node is a run of the graph in which that node computes.
pub broadcast proof fn lemma_run_node<V>(w: World<V>, env: Values<V>, g: Graph, n: Node)
    requires
        #[trigger] runs(w, env, g.with_node(n)),
    ensures
        runs(w, env, g),
        computes(w, env, n),
{
    reveal(runs);
    reveal(Graph::with_node);
    let h = g.with_node(n);
    assert forall|i: int| 0 <= i < g.node.len() implies computes(w, env, #[trigger] g.node[i]) by {
        assert(computes(w, env, h.node[i]));
        assert(h.node[i] == g.node[i]);
    }
    assert(computes(w, env, h.node[g.node.len() as int]));
    assert(h.initializer == g.initializer);
}

/// A run of a graph with one more constant is a run of the graph in which that name has its value.
pub broadcast proof fn lemma_run_constant<V>(w: World<V>, env: Values<V>, g: Graph, t: Tensor)
    requires
        #[trigger] runs(w, env, g.with_initializer(t)),
    ensures
        runs(w, env, g),
        env(t.name) == (w.constant)(unnamed(t)),
{
    reveal(runs);
    reveal(Graph::with_initializer);
    let h = g.with_initializer(t);
    assert forall|i: int| 0 <= i < g.initializer.len() implies env(
        (#[trigger] g.initializer[i]).name,
    ) == (w.constant)(unnamed(g.initializer[i])) by {
        assert(h.initializer[i] == g.initializer[i]);
    }
    assert(h.initializer[g.initializer.len() as int] == t);
    assert(h.node == g.node);
}

proof fn lemma_axes<V>(w: World<V>, op: Seq<char>, a: V, axes: Seq<i64>, rest: Seq<Attribute>)
    requires
        w.any_opset(),
    ensures
        (w.apply)(op, seq![a, w.vector(axes)], rest, 0) == (w.apply)(
            op,
            seq![a],
            seq![ints_attribute("axes"@, axes)] + rest,
            0,
        ),
        seq![ints_attribute("axes"@, axes)] + Seq::<Attribute>::empty() == seq![
            ints_attribute("axes"@, axes),
        ],
{
    let one = seq![ints_attribute("axes"@, axes)];
    assert(w.axes_given(op, a, axes, rest) == w.axes_noted(op, a, axes, rest));
    assert(one + Seq::<Attribute>::empty() =~= one);
}

proof fn lemma_output<V>(w: World<V>, env: Values<V>, n: Node, out: Seq<char>)
    requires
        computes(w, env, n),
        n.output.len() == 1,
        n.output[0] == out,
    ensures
        env(out) == (w.apply)(n.op_type, seen(env, n.input), n.attribute, 0),
{
}

/// What a run of a graph with a node of one input gives.
pub broadcast proof fn lemma_run_unary<V>(
    w: World<V>,
    env: Values<V>,
    g: Graph,
    op: Seq<char>,
    a: Seq<char>,
    out: Seq<char>,
)
    requires
        #[trigger] runs(w, env, unary_added(g, op, a, out)),
    ensures
        runs(w, env, g),
        env(out) == w.of1(op, env(a)),
{
    broadcast use {lemma_run_node, lemma_run_constant};

    reveal(unary_added);
    let n = node_of(op, seq![a], seq![out]);
    lemma_output(w, env, n, out);
    assert(seen(env, n.input) =~= seq![env(a)]);
}

/// What a run of a graph with a node of two inputs gives.
pub broadcast proof fn lemma_run_binary<V>(
    w: World<V>,
    env: Values<V>,
    g: Graph,
    op: Seq<char>,
    a: Seq<char>,
    b: Seq<char>,
    out: Seq<char>,
)
    requires
        #[trigger] runs(w, env, binary_added(g, op, a, b, out)),
    ensures
        runs(w, env, g),
        env(out) == w.of2(op, env(a), env(b)),
{
    broadcast use {lemma_run_node, lemma_run_constant};

    reveal(binary_added);
    let n = node_of(op, seq![a, b], seq![out]);
    lemma_output(w, env, n, out);
    assert(seen(env, n.input) =~= seq![env(a), env(b)]);
}

/// What a run of a graph with a node of three inputs gives.
pub broadcast proof fn lemma_run_ternary<V>(
    w: World<V>,
    env: Values<V>,
    g: Graph,
    op: Seq<char>,
    a: Seq<char>,
    b: Seq<char>,
    c: Seq<char>,
    out: Seq<char>,
)
    requires
        #[trigger] runs(w, env, ternary_added(g, op, a, b, c, out)),
    ensures
        runs(w, env, g),
        env(out) == w.of3(op, env(a), env(b), env(c)),
{
    broadcast use {lemma_run_node, lemma_run_constant};

    reveal(ternary_added);
    let n = node_of(op, seq![a, b, c], seq![out]);
    lemma_output(w, env, n, out);
    assert(seen(env, n.input) =~= seq![env(a), env(b), env(c)]);
}

/// What a run of a graph with a `Cast` gives.
pub broadcast proof fn lemma_run_cast<V>(
    w: World<V>,
    env: Values<V>,
    g: Graph,
    a: Seq<char>,
    out: Seq<char>,
    to: i32,
)
    requires
        #[trigger] runs(w, env, cast_added(g, a, out, to)),
    ensures
        runs(w, env, g),
        env(out) == w.cast(env(a), to as int),
{
    broadcast use {lemma_run_node, lemma_run_constant};

    reveal(cast_added);
    let n = node_of("Cast"@, seq![a], seq![out]).with(int_attribute("to"@, to as i64));
    lemma_output(w, env, n, out);
    assert(seen(env, n.input) =~= seq![env(a)]);
    assert(n.attribute =~= seq![int_attribute("to"@, to as i64)]);
}

/// What a run of a graph with a `Gather` gives.
pub broadcast proof fn lemma_run_gather<V>(
    w: World<V>,
    env: Values<V>,
    g: Graph,
    a: Seq<char>,
    at: Seq<char>,
    out: Seq<char>,
    axis: i64,
)
    requires
        #[trigger] runs(w, env, gather_added(g, a, at, out, axis)),
    ensures
        runs(w, env, g),
        env(out) == w.gather(env(a), env(at), axis as int),
{
    broadcast use {lemma_run_node, lemma_run_constant};

    reveal(gather_added);
    let n = node_of("Gather"@, seq![a, at], seq![out]).with(int_attribute("axis"@, axis));
    lemma_output(w, env, n, out);
    assert(seen(env, n.input) =~= seq![env(a), env(at)]);
    assert(n.attribute =~= seq![int_attribute("axis"@, axis)]);
}

/// What a run of a graph with a `ScatterElements` gives.
pub broadcast proof fn lemma_run_scatter<V>(
    w: World<V>,
    env: Values<V>,
    g: Graph,
    a: Seq<char>,
    at: Seq<char>,
    updates: Seq<char>,
    out: Seq<char>,
    axis: i64,
)
    requires
        #[trigger] runs(w, env, scatter_added(g, a, at, updates, out, axis)),
    ensures
        runs(w, env, g),
        env(out) == w.scatter(env(a), env(at), env(updates), axis as int),
{
    broadcast use {lemma_run_node, lemma_run_constant};

    reveal(scatter_added);
    let n = node_of("ScatterElements"@, seq![a, at, updates], seq![out]).with(
        int_attribute("axis"@, axis),
    );
    lemma_output(w, env, n, out);
    assert(seen(env, n.input) =~= seq![env(a), env(at), env(updates)]);
    assert(n.attribute =~= seq![int_attribute("axis"@, axis)]);
}

/// What a run of a graph with a `Concat` gives.
pub broadcast proof fn lemma_run_concat<V>(
    w: World<V>,
    env: Values<V>,
    g: Graph,
    list: Seq<Seq<char>>,
    out: Seq<char>,
    axis: i64,
)
    requires
        #[trigger] runs(w, env, concat_added(g, list, out, axis)),
    ensures
        runs(w, env, g),
        env(out) == w.concat(seen(env, list), axis as int),
{
    broadcast use {lemma_run_node, lemma_run_constant};

    reveal(concat_added);
    let n = node_of("Concat"@, list, seq![out]).with(int_attribute("axis"@, axis));
    lemma_output(w, env, n, out);
    assert(n.attribute =~= seq![int_attribute("axis"@, axis)]);
}

/// What a run of a graph with a `TopK` gives.
pub broadcast proof fn lemma_run_topk<V>(
    w: World<V>,
    env: Values<V>,
    g: Graph,
    a: Seq<char>,
    count: Seq<char>,
    values: Seq<char>,
    indices: Seq<char>,
    axis: i64,
    largest: i64,
)
    requires
        #[trigger] runs(w, env, topk_added(g, a, count, values, indices, axis, largest, 1)),
    ensures
        runs(w, env, g),
        env(values) == w.topk(env(a), env(count), axis as int, largest as int, 0),
        env(indices) == w.topk(env(a), env(count), axis as int, largest as int, 1),
{
    broadcast use {lemma_run_node, lemma_run_constant};

    reveal(topk_added);
    let n = node_of("TopK"@, seq![a, count], seq![values, indices]).with(
        int_attribute("axis"@, axis),
    ).with(int_attribute("largest"@, largest)).with(int_attribute("sorted"@, 1));
    assert(computes(w, env, n));
    assert(n.output[0] == values);
    assert(n.output[1] == indices);
    assert(seen(env, n.input) =~= seq![env(a), env(count)]);
    assert(n.attribute =~= seq![
        int_attribute("axis"@, axis),
        int_attribute("largest"@, largest),
        int_attribute("sorted"@, 1),
    ]);
}

/// What a run of a graph with an `INT64` constant gives.
pub broadcast proof fn lemma_run_ints<V>(
    w: World<V>,
    env: Values<V>,
    g: Graph,
    name: Seq<char>,
    dims: Seq<i64>,
    values: Seq<i64>,
)
    requires
        #[trigger] runs(w, env, ints_added(g, name, dims, values)),
    ensures
        runs(w, env, g),
        env(name) == w.ints(sizes_for(dims, values.len()), values),
{
    broadcast use {lemma_run_node, lemma_run_constant};

    reveal(ints_added);
}

/// What a run of a graph with a `FLOAT` constant gives.
pub broadcast proof fn lemma_run_singles<V>(
    w: World<V>,
    env: Values<V>,
    g: Graph,
    name: Seq<char>,
    dims: Seq<i64>,
    values: Seq<u32>,
)
    requires
        #[trigger] runs(w, env, singles_added(g, name, dims, values)),
    ensures
        runs(w, env, g),
        env(name) == w.singles(sizes_for(dims, values.len()), values),
{
    broadcast use {lemma_run_node, lemma_run_constant};

    reveal(singles_added);
}

/// What a run of a graph with an `INT64` constant of one axis gives.
pub broadcast proof fn lemma_run_vector<V>(
    w: World<V>,
    env: Values<V>,
    g: Graph,
    name: Seq<char>,
    values: Seq<i64>,
)
    requires
        #[trigger] runs(w, env, vector_added(g, name, values)),
    ensures
        runs(w, env, g),
        env(name) == w.vector(values),
{
    broadcast use {lemma_run_node, lemma_run_constant};

    reveal(vector_added);
}

/// What a run of a graph with a constant of any type gives.
pub broadcast proof fn lemma_run_numbers<V>(
    w: World<V>,
    env: Values<V>,
    g: Graph,
    name: Seq<char>,
    dims: Seq<i64>,
    data_type: i32,
    values: Seq<u64>,
)
    requires
        #[trigger] runs(w, env, numbers_added(g, name, dims, data_type, values).0),
    ensures
        runs(w, env, g),
        numbers_added(g, name, dims, data_type, values).1 is Ok ==> env(name) == w.numbers(
            dims,
            data_type,
            values,
        ),
{
    broadcast use {lemma_run_node, lemma_run_constant};

    reveal(numbers_added);
}

/// What a run of a graph with an `Unsqueeze` gives.
pub broadcast proof fn lemma_run_unsqueeze<V>(
    w: World<V>,
    env: Values<V>,
    g: Graph,
    opset: i64,
    a: Seq<char>,
    out: Seq<char>,
    axes: Seq<i64>,
    axes_name: Seq<char>,
)
    requires
        #[trigger] runs(w, env, unsqueeze_added(g, opset, a, out, axes, axes_name)),
        w.any_opset(),
    ensures
        runs(w, env, g),
        env(out) == w.unsqueeze(env(a), axes),
{
    broadcast use {lemma_run_node, lemma_run_constant};

    reveal(unsqueeze_added);
    let node = node_of("Unsqueeze"@, seq![a], seq![out]);
    let n = if opset >= 13 {
        node.with_input(axes_name)
    } else {
        node.with(ints_attribute("axes"@, axes))
    };
    lemma_output(w, env, n, out);
    if opset >= 13 {
        assert(seen(env, n.input) =~= seq![env(a), w.vector(axes)]);
        assert(n.attribute =~= Seq::empty());
        lemma_axes(w, "Unsqueeze"@, env(a), axes, Seq::empty());
    } else {
        assert(seen(env, n.input) =~= seq![env(a)]);
        assert(n.attribute =~= seq![ints_attribute("axes"@, axes)]);
    }
}

/// What a run of a graph with a `Squeeze` gives.
pub broadcast proof fn lemma_run_squeeze<V>(
    w: World<V>,
    env: Values<V>,
    g: Graph,
    opset: i64,
    a: Seq<char>,
    out: Seq<char>,
    axes: Option<Seq<i64>>,
    axes_name: Option<Seq<char>>,
)
    requires
        #[trigger] runs(w, env, squeeze_added(g, opset, a, out, axes, axes_name)),
        w.any_opset(),
    ensures
        runs(w, env, g),
        axes matches Some(axes) ==> env(out) == w.squeeze(env(a), axes),
        axes is None ==> env(out) == w.of1("Squeeze"@, env(a)),
{
    broadcast use {lemma_run_node, lemma_run_constant};

    reveal(squeeze_added);
    let node = node_of("Squeeze"@, seq![a], seq![out]);
    match axes {
        None => {
            lemma_output(w, env, node, out);
            assert(seen(env, node.input) =~= seq![env(a)]);
        },
        Some(axes) => {
            let name = match axes_name {
                Some(name) => name,
                None => "squeeze_axes"@,
            };
            let n = if opset >= 13 {
                node.with_input(name)
            } else {
                node.with(ints_attribute("axes"@, axes))
            };
            lemma_output(w, env, n, out);
            if opset >= 13 {
                assert(seen(env, n.input) =~= seq![env(a), w.vector(axes)]);
                assert(n.attribute =~= Seq::empty());
                lemma_axes(w, "Squeeze"@, env(a), axes, Seq::empty());
            } else {
                assert(seen(env, n.input) =~= seq![env(a)]);
                assert(n.attribute =~= seq![ints_attribute("axes"@, axes)]);
            }
        },
    }
}

/// What a run of a graph with a reduction gives.
pub broadcast proof fn lemma_run_reduce<V>(
    w: World<V>,
    env: Values<V>,
    g: Graph,
    opset: i64,
    op: Seq<char>,
    a: Seq<char>,
    out: Seq<char>,
    axes: Option<Seq<i64>>,
    keepdims: i64,
    prefix: Seq<char>,
)
    requires
        #[trigger] runs(w, env, reduce_added(g, opset, op, a, out, axes, keepdims, prefix)),
        w.any_opset(),
    ensures
        runs(w, env, g),
        axes matches Some(axes) ==> env(out) == w.reduce(op, env(a), axes, keepdims as int),
        axes is None ==> env(out) == w.with_int(op, seq![env(a)], "keepdims"@, keepdims as int),
{
    broadcast use {lemma_run_node, lemma_run_constant};

    reveal(reduce_added);
    let node = node_of(op, seq![a], seq![out]);
    let keep = int_attribute("keepdims"@, keepdims);
    match axes {
        None => {
            let n = node.with(keep);
            lemma_output(w, env, n, out);
            assert(seen(env, n.input) =~= seq![env(a)]);
            assert(n.attribute =~= seq![keep]);
        },
        Some(axes) => {
            if opset >= 18 {
                let n = node.with_input(prefix + "_axes"@).with(keep);
                lemma_output(w, env, n, out);
                assert(seen(env, n.input) =~= seq![env(a), w.vector(axes)]);
                assert(n.attribute =~= seq![keep]);
                lemma_axes(w, op, env(a), axes, seq![keep]);
                assert(seq![ints_attribute("axes"@, axes)] + seq![keep] =~= seq![
                    ints_attribute("axes"@, axes),
                    keep,
                ]);
            } else {
                let n = node.with(ints_attribute("axes"@, axes)).with(keep);
                lemma_output(w, env, n, out);
                assert(seen(env, n.input) =~= seq![env(a)]);
                assert(n.attribute =~= seq![ints_attribute("axes"@, axes), keep]);
            }
        },
    }
}

/// What a run of a graph with a `Slice` gives.
pub broadcast proof fn lemma_run_slice<V>(
    w: World<V>,
    env: Values<V>,
    g: Graph,
    opset: i64,
    a: Seq<char>,
    out: Seq<char>,
    starts: Seq<i64>,
    ends: Seq<i64>,
    axes: Option<Seq<i64>>,
    steps: Option<Seq<i64>>,
    prefix: Seq<char>,
)
    requires
        #[trigger] runs(
            w,
            env,
            slice_added(g, opset, a, out, starts, ends, axes, steps, prefix).0,
        ),
        w.any_opset(),
    ensures
        runs(w, env, g),
        slice_added(g, opset, a, out, starts, ends, axes, steps, prefix).1 is Ok ==> env(out)
            == w.slice(
            env(a),
            starts,
            ends,
            axes_or_first(axes, starts.len()),
            match steps {
                Some(steps) => steps,
                None => unit_steps(starts.len()),
            },
        ),
{
    broadcast use {lemma_run_node, lemma_run_constant};

    reveal(slice_added);
    if slice_added(g, opset, a, out, starts, ends, axes, steps, prefix).1 is Ok {
        if opset < 10 {
            let node = node_of("Slice"@, seq![a], seq![out]).with(
                ints_attribute("starts"@, starts),
            ).with(ints_attribute("ends"@, ends));
            let n = match axes {
                Some(axes) => node.with(ints_attribute("axes"@, axes)),
                None => node,
            };
            lemma_output(w, env, n, out);
            assert(seen(env, n.input) =~= seq![env(a)]);
            let bounds = seq![ints_attribute("starts"@, starts), ints_attribute("ends"@, ends)];
            if let Some(axes) = axes {
                assert(n.attribute =~= bounds.push(ints_attribute("axes"@, axes)));
            } else {
                assert(n.attribute =~= bounds);
            }
            assert(env(out) == w.part_noted(env(a), starts, ends, axes));
            if let Some(steps) = steps {
                assert(steps =~= unit_steps(starts.len()));
            }
        } else {
            let node = node_of(
                "Slice"@,
                seq![a, prefix + "_starts"@, prefix + "_ends"@],
                seq![out],
            );
            let n = match (axes, steps) {
                (None, None) => node,
                (Some(_), None) => node.with_input(prefix + "_axes"@),
                (_, Some(_)) => node.with_input(prefix + "_axes"@).with_input(prefix + "_steps"@),
            };
            lemma_output(w, env, n, out);
            assert(n.attribute =~= Seq::empty());
            let (s, e) = (w.vector(starts), w.vector(ends));
            match (axes, steps) {
                (None, None) => {
                    assert(seen(env, n.input) =~= seq![env(a), s, e]);
                    assert(env(out) == w.part_given(env(a), starts, ends, None));
                },
                (Some(axes), None) => {
                    assert(seen(env, n.input) =~= seq![env(a), s, e].push(w.vector(axes)));
                    assert(env(out) == w.part_given(env(a), starts, ends, Some(axes)));
                },
                (Some(axes), Some(steps)) => {
                    assert(seen(env, n.input) =~= seq![
                        env(a),
                        s,
                        e,
                        w.vector(axes),
                        w.vector(steps),
                    ]);
                },
                (None, Some(steps)) => {
                    let axes = first_axes(starts.len());
                    assert(axes =~= crate::converter::emit::counted(steps.len()));
                    assert(seen(env, n.input) =~= seq![
                        env(a),
                        s,
                        e,
                        w.vector(axes),
                        w.vector(steps),
                    ]);
                },
            }
        }
    }
}

/// What a run of a graph with a `Mod` of integers gives.
pub broadcast proof fn lemma_run_mod<V>(
    w: World<V>,
    env: Values<V>,
    g: Graph,
    a: Seq<char>,
    b: Seq<char>,
    out: Seq<char>,
)
    requires
        #[trigger] runs(w, env, mod_added(g, a, b, out)),
    ensures
        runs(w, env, g),
        env(out) == w.with_int("Mod"@, seq![env(a), env(b)], "fmod"@, 0),
{
    broadcast use {lemma_run_node, lemma_run_constant};

    reveal(mod_added);
    let n = node_of("Mod"@, seq![a, b], seq![out]).with(int_attribute("fmod"@, 0));
    lemma_output(w, env, n, out);
    assert(seen(env, n.input) =~= seq![env(a), env(b)]);
    assert(n.attribute =~= seq![int_attribute("fmod"@, 0)]);
}

/// The names of the first values of a list.
pub proof fn lemma_names(m: Meta, ids: Seq<i64>, k: nat)
    requires
        names_upto(m, ids, k) is Ok,
    ensures
        (names_upto(m, ids, k)->Ok_0).len() == k,
        forall|i: int|
            0 <= i < k ==> #[trigger] (names_upto(m, ids, k)->Ok_0)[i] == tensor_name(m, ids[i])->Ok_0,
    decreases k,
{
    if k > 0 {
        lemma_names(m, ids, (k - 1) as nat);
    }
}

/// The only output of a node that computes.
pub proof fn lemma_node_output<V>(w: World<V>, env: Values<V>, n: Node)
    requires
        computes(w, env, n),
        n.output.len() == 1,
    ensures
        env(n.output[0]) == (w.apply)(n.op_type, seen(env, n.input), n.attribute, 0),
{
}

/// A value as `INT64`.
pub open spec fn whole<V>(w: World<V>, m: Meta, env: Values<V>, id: i64) -> V {
    if has_type(m, id, "0.t_i64"@) {
        value_of(m, env, id)
    } else {
        w.cast(value_of(m, env, id), INT64 as int)
    }
}

/// A value as an `INT64` scalar: one of a single axis of size one loses that axis.
pub open spec fn whole_scalar<V>(w: World<V>, m: Meta, env: Values<V>, id: i64) -> V {
    let scalar = if has_shape(m, id, seq![1i64]) {
        w.squeeze(value_of(m, env, id), seq![0i64])
    } else {
        value_of(m, env, id)
    };
    if has_type(m, id, "0.t_i64"@) {
        scalar
    } else {
        w.cast(scalar, INT64 as int)
    }
}

/// What a run of a graph with a value that is made `INT64` gives.
pub broadcast proof fn lemma_run_whole<V>(
    w: World<V>,
    env: Values<V>,
    m: Meta,
    g: Graph,
    id: i64,
    out_id: i64,
    label: Seq<char>,
)
    requires
        #[trigger] runs(w, env, ints_ensured(m, g, id, out_id, label).0),
    ensures
        runs(w, env, g),
        ints_ensured(m, g, id, out_id, label).1 matches Ok(name) ==> env(name) == whole(
            w,
            m,
            env,
            id,
        ),
{
    broadcast use lemma_run_cast;

    reveal(ints_ensured);
}

/// What a run of a graph with a value that is made an `INT64` scalar gives.
pub broadcast proof fn lemma_run_whole_scalar<V>(
    w: World<V>,
    env: Values<V>,
    m: Meta,
    g: Graph,
    id: i64,
    out_id: i64,
    label: Seq<char>,
)
    requires
        #[trigger] runs(w, env, scalar_ensured(m, g, id, out_id, label).0),
        w.any_opset(),
    ensures
        runs(w, env, g),
        scalar_ensured(m, g, id, out_id, label).1 matches Ok(name) ==> env(name) == whole_scalar(
            w,
            m,
            env,
            id,
        ),
{
    broadcast use {lemma_run_cast, lemma_run_squeeze};

    reveal(scalar_ensured);
}

/// What a reduction makes of a scalar: the scalar itself, with an axis where the result has one.
pub open spec fn scalar_kept<V>(w: World<V>, m: Meta, env: Values<V>, id: i64, out_id: i64) -> V {
    if has_shape(m, out_id, seq![1i64]) {
        w.unsqueeze(value_of(m, env, id), seq![0i64])
    } else {
        w.of1("Identity"@, value_of(m, env, id))
    }
}

/// What a run of a graph with a scalar that a reduction passes on gives.
pub broadcast proof fn lemma_run_scalar<V>(
    w: World<V>,
    env: Values<V>,
    m: Meta,
    g: Graph,
    id: i64,
    out_id: i64,
)
    requires
        #[trigger] runs(w, env, scalar_passed(m, g, id, out_id).0),
        w.any_opset(),
    ensures
        runs(w, env, g),
        scalar_passed(m, g, id, out_id).1 is Ok ==> scalar_passed(m, g, id, out_id).1->Ok_0
            == has_shape(m, id, Seq::empty()),
        scalar_passed(m, g, id, out_id).1 is Ok && has_shape(m, id, Seq::empty()) ==> value_of(
            m,
            env,
            out_id,
        ) == scalar_kept(w, m, env, id, out_id),
{
    broadcast use {lemma_run_unary, lemma_run_unsqueeze};

    reveal(scalar_passed);
}

/// A node without attributes that yields one value.
pub proof fn lemma_plain_node<V>(
    w: World<V>,
    env: Values<V>,
    op: Seq<char>,
    inputs: Seq<Seq<char>>,
    out: Seq<char>,
)
    requires
        computes(w, env, node_of(op, inputs, seq![out])),
    ensures
        env(out) == (w.apply)(op, seen(env, inputs), Seq::empty(), 0),
{
    let n = node_of(op, inputs, seq![out]);
    assert(n.output[0] == out);
    lemma_node_output(w, env, n);
}

/// A node with an integer attribute that yields one value.
pub proof fn lemma_int_node<V>(
    w: World<V>,
    env: Values<V>,
    op: Seq<char>,
    inputs: Seq<Seq<char>>,
    out: Seq<char>,
    name: Seq<char>,
    i: i64,
)
    requires
        computes(w, env, node_of(op, inputs, seq![out]).with(int_attribute(name, i))),
    ensures
        env(out) == w.with_int(op, seen(env, inputs), name, i as int),
{
    let n = node_of(op, inputs, seq![out]).with(int_attribute(name, i));
    assert(n.output[0] == out);
    lemma_node_output(w, env, n);
    assert(n.attribute =~= seq![int_attribute(name, i)]);
}

/// What runs of graphs with one more step give.
pub broadcast group group_runs {
    lemma_run_whole,
    lemma_run_scalar,
    lemma_run_whole_scalar,
    lemma_run_mod,
    lemma_run_node,
    lemma_run_constant,
    lemma_run_unary,
    lemma_run_binary,
    lemma_run_ternary,
    lemma_run_cast,
    lemma_run_gather,
    lemma_run_scatter,
    lemma_run_concat,
    lemma_run_topk,
    lemma_run_ints,
    lemma_run_singles,
    lemma_run_vector,
    lemma_run_numbers,
    lemma_run_unsqueeze,
    lemma_run_squeeze,
    lemma_run_reduce,
    lemma_run_slice,
}

} // verus!
