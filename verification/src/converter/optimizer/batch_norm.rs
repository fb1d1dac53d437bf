//! The pass that folds a batch normalization into the convolution before it, and the pass that
//! flushes subnormal constants.

use crate::arith::{
    add_single, difference32, divide_single, multiply_single, quotient32, root32, root_single,
    subtract_single, sum32, times32,
};
use crate::bytes::{encode_words, lemma_words_inverse, limit, read_words, word_bytes, words};
use crate::converter::optimizer::constants::{
    attr_float_of, const_named, const_value, float_named, stored_elements, stored_words,
    typed_words,
};
use crate::converter::optimizer::facts::{
    analyze, initializer_of, lemma_producer_bound, producer_of, used_once, GraphFacts,
};
use crate::converter::optimizer::fusions::{all_but, drop_nodes, lemma_retained_shorter, without};
use crate::dtype::FLOAT;
use crate::fresh::{find_free, free_name};
use crate::onnx::{views, Graph, GraphProto, Node, Tensor, TensorProto};
use crate::scope::{produced, retained, tensor_named, value_named};
use crate::text::{join, names, same};
use vstd::arithmetic::div_mod::*;
use vstd::hash_set::StringHashSet;
use vstd::prelude::*;

verus! {

/// `1e-5` in `binary32`.
pub const DEFAULT_EPSILON: u32 = 0x3727_C5AC;

/// The elements of a `FLOAT` tensor.
pub open spec fn singles(t: Tensor) -> Option<Seq<u32>> {
    if t.data_type != FLOAT {
        None
    } else {
        match stored_words(t) {
            Some(list) => Some(Seq::new(list.len(), |i: int| list[i] as u32)),
            None => None,
        }
    }
}

/// The tensor with `FLOAT` elements in place of its own, kept as raw bytes.
pub open spec fn with_singles(t: Tensor, values: Seq<u32>) -> Tensor {
    Tensor {
        dims: t.dims,
        data_type: FLOAT,
        float_data: Seq::empty(),
        int32_data: Seq::empty(),
        int64_data: Seq::empty(),
        name: t.name,
        raw_data: word_bytes(Seq::new(values.len(), |i: int| values[i] as u64), 4),
        double_data: Seq::empty(),
        uint64_data: Seq::empty(),
    }
}

/// The elements of the `FLOAT` constant that a name stands for.
pub open spec fn singles_named(g: Graph, name: Seq<char>) -> Option<Seq<u32>> {
    match const_named(g, name) {
        Some(c) => singles(c.tensor),
        None => None,
    }
}

/// The parameters of a batch normalization: for each channel a scale, an offset, a mean and a
/// variance, and what is added to the variances.
pub struct Norm {
    pub scale: Seq<u32>,
    pub beta: Seq<u32>,
    pub mean: Seq<u32>,
    pub var: Seq<u32>,
    pub epsilon: u32,
}

impl Norm {
    /// What a channel is multiplied by.
    pub open spec fn factor(self, c: int) -> u32 {
        quotient32(self.scale[c], root32(sum32(self.var[c], self.epsilon)))
    }

    /// The convolution's weights with the normalization folded in; `each` belong to a channel.
    pub open spec fn weights(self, weights: Seq<u32>, each: int) -> Seq<u32> {
        Seq::new(weights.len(), |i: int| times32(weights[i], self.factor(i / each)))
    }

    /// The convolution's biases with the normalization folded in.
    pub open spec fn biases(self, biases: Seq<u32>) -> Seq<u32> {
        Seq::new(
            biases.len(),
            |c: int|
                sum32(
                    times32(difference32(biases[c], self.mean[c]), self.factor(c)),
                    self.beta[c],
                ),
        )
    }
}

/// The parameters of the batch normalization at position `i`, where all are known for so many
/// channels.
pub open spec fn norm_at(g: Graph, i: int, channels: int) -> Option<Norm> {
    let n = g.node[i];
    match (
        singles_named(g, n.input[1]),
        singles_named(g, n.input[2]),
        singles_named(g, n.input[3]),
        singles_named(g, n.input[4]),
    ) {
        (Some(scale), Some(beta), Some(mean), Some(var)) => if scale.len() == channels
            && beta.len() == channels && mean.len() == channels && var.len() == channels {
            Some(
                Norm {
                    scale,
                    beta,
                    mean,
                    var,
                    epsilon: match float_named(n, "epsilon"@) {
                        Some(epsilon) => epsilon,
                        None => DEFAULT_EPSILON,
                    },
                },
            )
        } else {
            None
        },
        _ => None,
    }
}

/// Whether a name is taken in a graph.
pub open spec fn taken(g: Graph, name: Seq<char>) -> bool {
    tensor_named(g.initializer, name) || (name.len() > 0 && produced(g.node, name)) || value_named(
        g.input,
        name,
    ) || value_named(g.output, name) || value_named(g.value_info, name)
}

/// `base`, or else `base` with the least number under which it is not taken.
pub open spec fn unique_name(g: Graph, base: Seq<char>) -> Seq<char> {
    if !taken(g, base) {
        base
    } else {
        free_name(Set::new(|name: Seq<char>| taken(g, name)), base, 0)
    }
}

/// What a convolution's weights and biases are, where a normalization can be folded into them.
pub struct Kernel {
    pub weight: int,
    pub weights: Seq<u32>,
    pub channels: int,
    pub bias: Option<int>,
    pub biases: Seq<u32>,
}

/// The weights and biases of the convolution at position `p`: initializers of `FLOAT` elements
/// that nothing else reads, with as many weights for each channel.
pub open spec fn kernel_at(g: Graph, p: int) -> Option<Kernel> {
    let conv = g.node[p];
    match initializer_of(g.initializer, conv.input[1]) {
        None => None,
        Some(w) => {
            let tensor = g.initializer[w as int];
            match singles(tensor) {
                None => None,
                Some(weights) => if !used_once(g, conv.input[1]) || tensor.dims.len() == 0
                    || tensor.dims[0] <= 0 || tensor.dims[0] > usize::MAX || weights.len() as int % tensor.dims[0] as int != 0 {
                    None
                } else if conv.input.len() == 3 {
                    match initializer_of(g.initializer, conv.input[2]) {
                        None => None,
                        Some(b) => match singles(g.initializer[b as int]) {
                            None => None,
                            Some(biases) => if used_once(g, conv.input[2]) && biases.len()
                                == tensor.dims[0] {
                                Some(
                                    Kernel {
                                        weight: w as int,
                                        weights,
                                        channels: tensor.dims[0] as int,
                                        bias: Some(b as int),
                                        biases,
                                    },
                                )
                            } else {
                                None
                            },
                        },
                    }
                } else {
                    Some(
                        Kernel {
                            weight: w as int,
                            weights,
                            channels: tensor.dims[0] as int,
                            bias: None,
                            biases: Seq::new(tensor.dims[0] as nat, |c: int| 0u32),
                        },
                    )
                },
            }
        },
    }
}

/// The graph after the batch normalization at position `i` has been folded into the convolution
/// before it.
pub open spec fn norm_folded(g: Graph, i: int) -> Option<Graph> {
    let n = g.node[i];
    if n.op_type != "BatchNormalization"@ || n.input.len() < 5 || n.output.len() != 1 {
        None
    } else {
        match producer_of(g.node, n.input[0]) {
            None => None,
            Some(p) => {
                let conv = g.node[p as int];
                if conv.op_type != "Conv"@ || conv.input.len() < 2 || conv.input.len() > 3
                    || conv.output.len() != 1 || !used_once(g, conv.output[0]) {
                    None
                } else {
                    match kernel_at(g, p as int) {
                        None => None,
                        Some(k) => match norm_at(g, i, k.channels) {
                            None => None,
                            Some(norm) => Some(folded_in(g, i, p as int, k, norm)),
                        },
                    }
                }
            },
        }
    }
}

/// The graph with the normalization at position `i` folded into the kernel of the convolution at
/// position `p`.
pub open spec fn folded_in(g: Graph, i: int, p: int, k: Kernel, norm: Norm) -> Graph {
    let weights = norm.weights(k.weights, k.weights.len() as int / k.channels);
    let biases = norm.biases(k.biases);
    let conv = g.node[p];
    let output = conv.output.update(0, g.node[i].output[0]);
    let g1 = Graph {
        initializer: g.initializer.update(
            k.weight,
            with_singles(g.initializer[k.weight], weights),
        ),
        ..g
    };
    let g2 = match k.bias {
        Some(b) => Graph {
            initializer: g1.initializer.update(
                b,
                with_singles(
                    Tensor { dims: seq![k.channels as i64], ..g1.initializer[b] },
                    biases,
                ),
            ),
            node: g1.node.update(p, Node { output, ..conv }),
            ..g1
        },
        None => {
            let name = unique_name(g1, conv.output[0] + "_bn_bias"@);
            let added = with_singles(
                crate::onnx::tensor_of(name, seq![k.channels as i64], FLOAT),
                biases,
            );
            Graph {
                initializer: g1.initializer.push(added),
                node: g1.node.update(p, Node { input: conv.input.push(name), output, ..conv }),
                ..g1
            }
        },
    };
    without(g2, i, i)
}

/// The first such fold from position `i` on.
pub open spec fn first_norm(g: Graph, i: int) -> Option<Graph>
    decreases g.node.len() - i,
{
    if i < 0 || i >= g.node.len() {
        None
    } else if norm_folded(g, i) is Some {
        norm_folded(g, i)
    } else {
        first_norm(g, i + 1)
    }
}

/// The graph after such folds until there is none left, and their number.
pub open spec fn norms_folded(g: Graph) -> (Graph, nat)
    decreases g.node.len(),
    via norms_decreases
{
    match first_norm(g, 0) {
        Some(h) => {
            let (last, count) = norms_folded(h);
            (last, count + 1)
        },
        None => (g, 0),
    }
}

#[via_fn]
proof fn norms_decreases(g: Graph) {
    lemma_first_norm(g, 0);
}

proof fn lemma_first_norm(g: Graph, i: int)
    requires
        0 <= i,
    ensures
        first_norm(g, i) matches Some(h) ==> h.node.len() < g.node.len(),
    decreases g.node.len() - i,
{
    if i < g.node.len() {
        if norm_folded(g, i) is Some {
            lemma_producer_bound(g.node, g.node[i].input[0]);
            let keep = all_but(g.node.len(), i, i);
            assert forall|list: Seq<Node>| list.len() == g.node.len() implies #[trigger] retained(
                list,
                keep,
            ).len() < g.node.len() by {
                lemma_retained_shorter(list, keep, i);
            }
        } else {
            lemma_first_norm(g, i + 1);
        }
    }
}

/// The elements of a `FLOAT` tensor.
pub fn tensor_to_f32(tensor: &TensorProto) -> (r: Option<Vec<u32>>)
    ensures
        match r {
            Some(list) => singles(tensor@) == Some(list@),
            None => singles(tensor@) is None,
        },
{
    if tensor.data_type != FLOAT {
        return None;
    }
    match stored_elements(tensor) {
        Some(list) => {
            let mut values: Vec<u32> = Vec::new();
            let mut i: usize = 0;
            while i < list.len()
                invariant
                    i <= list.len(),
                    values@ =~= Seq::new(i as nat, |k: int| list@[k] as u32),
                decreases list.len() - i,
            {
                values.push(list[i] as u32);
                i = i + 1;
            }
            proof {
                assert(singles(tensor@)->0 =~= values@);
            }
            Some(values)
        },
        None => None,
    }
}

fn singles_of(graph: &GraphProto, facts: &GraphFacts, name: &str) -> (r: Option<Vec<u32>>)
    requires
        facts.describes(graph@),
    ensures
        match r {
            Some(list) => singles_named(graph@, name@) == Some(list@),
            None => singles_named(graph@, name@) is None,
        },
{
    match const_value(graph, facts, name) {
        Some(value) => tensor_to_f32(&value.tensor),
        None => None,
    }
}

/// Replaces the elements of a tensor by `FLOAT` values.
pub fn write_f32_tensor(tensor: &mut TensorProto, values: &Vec<u32>)
    ensures
        final(tensor)@ == with_singles(old(tensor)@, values@),
{
    let mut list: Vec<u64> = Vec::new();
    let mut i: usize = 0;
    while i < values.len()
        invariant
            i <= values.len(),
            list@ =~= Seq::new(i as nat, |k: int| values@[k] as u64),
        decreases values.len() - i,
    {
        list.push(values[i] as u64);
        i = i + 1;
    }
    tensor.data_type = FLOAT;
    tensor.raw_data = encode_words(&list, 4);
    tensor.float_data = Vec::new();
    tensor.int32_data = Vec::new();
    tensor.int64_data = Vec::new();
    tensor.double_data = Vec::new();
    tensor.uint64_data = Vec::new();
    proof {
        assert(list@ =~= Seq::new(values@.len(), |i: int| values@[i] as u64));
    }
}

/// What is read back from a tensor is what was written to it.
pub proof fn lemma_singles_inverse(t: Tensor, values: Seq<u32>)
    ensures
        singles(with_singles(t, values)) == Some(values),
{
    let list = Seq::new(values.len(), |i: int| values[i] as u64);
    reveal_with_fuel(limit, 5);
    lemma_words_inverse(list, 4);
    let written = with_singles(t, values);
    assert(typed_words(written) =~= Seq::empty());
    assert(stored_words(written) == Some(list));
    assert(singles(written)->0 =~= values);
}

/// The names that are taken in a graph.
pub fn taken_names(graph: &GraphProto) -> (used: StringHashSet)
    ensures
        used@.finite(),
        used@ == Set::new(|name: Seq<char>| taken(graph@, name)),
{
    let ghost g = graph@;
    let mut used = StringHashSet::new();
    let mut i: usize = 0;
    while i < graph.initializer.len()
        invariant
            i <= graph.initializer.len(),
            g == graph@,
            used@.finite(),
            forall|name: Seq<char>| #[trigger]
                used@.contains(name) == tensor_named(g.initializer.take(i as int), name),
        decreases graph.initializer.len() - i,
    {
        let ghost before = used@;
        used.insert(graph.initializer[i].name.clone());
        proof {
            let all = g.initializer;
            assert(all[i as int] == graph.initializer@[i as int]@);
            assert forall|name: Seq<char>| #[trigger]
                used@.contains(name) == tensor_named(all.take(i + 1), name) by {
                lemma_tensor_named_step(all, i as int, name);
                assert(before.contains(name) == tensor_named(all.take(i as int), name));
            }
        }
        i = i + 1;
    }
    let mut n: usize = 0;
    proof {
        assert(g.initializer.take(i as int) =~= g.initializer);
        assert forall|name: Seq<char>| !produced(g.node.take(0), name) by {}
    }
    while n < graph.node.len()
        invariant
            n <= graph.node.len(),
            g == graph@,
            used@.finite(),
            forall|name: Seq<char>| #[trigger]
                used@.contains(name) == (tensor_named(g.initializer, name) || (name.len() > 0
                    && produced(g.node.take(n as int), name))),
        decreases graph.node.len() - n,
    {
        let outputs = &graph.node[n].output;
        let ghost before = used@;
        let mut j: usize = 0;
        while j < outputs.len()
            invariant
                j <= outputs.len(),
                used@.finite(),
                forall|name: Seq<char>| #[trigger]
                    used@.contains(name) == (before.contains(name) || (name.len() > 0 && names(
                        outputs@,
                    ).take(j as int).contains(name))),
            decreases outputs.len() - j,
        {
            let ghost prior = used@;
            if outputs[j].as_str().is_empty() {
            } else {
                used.insert(outputs[j].clone());
            }
            proof {
                let list = names(outputs@);
                assert(list.take(j + 1) =~= list.take(j as int).push(list[j as int]));
                assert forall|name: Seq<char>| #[trigger]
                    used@.contains(name) == (before.contains(name) || (name.len() > 0 && list.take(
                        j + 1,
                    ).contains(name))) by {
                    crate::converter::optimizer::facts::lemma_push_contains(
                        list.take(j as int),
                        list[j as int],
                        name,
                    );
                    assert(prior.contains(name) == (before.contains(name) || (name.len() > 0
                        && list.take(j as int).contains(name))));
                }
            }
            j = j + 1;
        }
        proof {
            assert(names(outputs@).take(j as int) =~= names(outputs@));
            assert(g.node[n as int].output == names(outputs@));
            assert forall|name: Seq<char>| #[trigger]
                used@.contains(name) == (tensor_named(g.initializer, name) || (name.len() > 0
                    && produced(g.node.take(n + 1), name))) by {
                lemma_produced_step(g.node, n as int, name);
                assert(before.contains(name) == (tensor_named(g.initializer, name) || (name.len()
                    > 0 && produced(g.node.take(n as int), name))));
            }
        }
        n = n + 1;
    }
    proof {
        assert(g.node.take(n as int) =~= g.node);
    }
    let ghost base = used@;
    add_values(&mut used, &graph.input);
    let ghost with_input = used@;
    add_values(&mut used, &graph.output);
    let ghost with_output = used@;
    add_values(&mut used, &graph.value_info);
    proof {
        assert forall|name: Seq<char>| #[trigger] used@.contains(name) == taken(g, name) by {
            assert(with_output.contains(name) == (with_input.contains(name) || value_named(
                g.output,
                name,
            )));
            assert(with_input.contains(name) == (base.contains(name) || value_named(
                g.input,
                name,
            )));
        }
        assert(used@ =~= Set::new(|name: Seq<char>| taken(graph@, name)));
    }
    used
}

/// What a longer list of tensors names.
pub proof fn lemma_tensor_named_step(list: Seq<Tensor>, i: int, name: Seq<char>)
    requires
        0 <= i < list.len(),
    ensures
        tensor_named(list.take(i + 1), name) == (tensor_named(list.take(i), name) || list[i].name
            == name),
{
    if tensor_named(list.take(i), name) {
        let k = choose|k: int| 0 <= k < list.take(i).len() && #[trigger] list.take(i)[k].name == name;
        assert(list.take(i + 1)[k].name == name);
    }
    if list[i].name == name {
        assert(list.take(i + 1)[i].name == name);
    }
    if tensor_named(list.take(i + 1), name) && list[i].name != name {
        let k = choose|k: int|
            0 <= k < list.take(i + 1).len() && #[trigger] list.take(i + 1)[k].name == name;
        assert(list.take(i)[k].name == name);
    }
}

/// What a longer list of nodes produces.
pub proof fn lemma_produced_step(list: Seq<Node>, i: int, name: Seq<char>)
    requires
        0 <= i < list.len(),
    ensures
        produced(list.take(i + 1), name) == (produced(list.take(i), name) || list[i].output.contains(
            name,
        )),
{
    if produced(list.take(i), name) {
        let k = choose|k: int|
            0 <= k < list.take(i).len() && #[trigger] list.take(i)[k].output.contains(name);
        assert(list.take(i + 1)[k].output.contains(name));
    }
    if list[i].output.contains(name) {
        assert(list.take(i + 1)[i].output.contains(name));
    }
    if produced(list.take(i + 1), name) && !list[i].output.contains(name) {
        let k = choose|k: int|
            0 <= k < list.take(i + 1).len() && #[trigger] list.take(i + 1)[k].output.contains(name);
        assert(list.take(i)[k].output.contains(name));
    }
}

fn add_values(used: &mut StringHashSet, list: &Vec<crate::onnx::ValueInfoProto>)
    requires
        old(used)@.finite(),
    ensures
        final(used)@.finite(),
        forall|name: Seq<char>| #[trigger]
            final(used)@.contains(name) == (old(used)@.contains(name) || value_named(
                views(list@),
                name,
            )),
{
    let ghost all = views(list@);
    let mut i: usize = 0;
    while i < list.len()
        invariant
            i <= list.len(),
            all == views(list@),
            used@.finite(),
            forall|name: Seq<char>| #[trigger]
                used@.contains(name) == (old(used)@.contains(name) || exists|k: int|
                    0 <= k < i && #[trigger] all[k].name == name),
        decreases list.len() - i,
    {
        let ghost before = used@;
        used.insert(list[i].name.clone());
        proof {
            assert(all[i as int].name == list@[i as int].name@);
            assert forall|name: Seq<char>| #[trigger]
                used@.contains(name) == (old(used)@.contains(name) || exists|k: int|
                    0 <= k < i + 1 && #[trigger] all[k].name == name) by {
                assert(before.contains(name) == (old(used)@.contains(name) || exists|k: int|
                    0 <= k < i && #[trigger] all[k].name == name));
            }
        }
        i = i + 1;
    }
}

/// `base`, or else `base` with the least number under which it is not taken.
pub fn unique_initializer_name(graph: &GraphProto, base: &str) -> (name: String)
    ensures
        name@ == unique_name(graph@, base@),
        !taken(graph@, name@),
{
    let used = taken_names(graph);
    if !used.contains(base) {
        return base.to_string();
    }
    let name = find_free(&used, base, 0);
    proof {
        assert(!used@.contains(name@));
    }
    name
}

/// A batch normalization's parameters.
struct NormValues {
    scale: Vec<u32>,
    beta: Vec<u32>,
    mean: Vec<u32>,
    var: Vec<u32>,
    epsilon: u32,
}

impl NormValues {
    spec fn norm(&self) -> Norm {
        Norm {
            scale: self.scale@,
            beta: self.beta@,
            mean: self.mean@,
            var: self.var@,
            epsilon: self.epsilon,
        }
    }

    spec fn covers(&self, channels: int) -> bool {
        self.scale.len() == channels && self.beta.len() == channels && self.mean.len() == channels
            && self.var.len() == channels
    }

    fn factor(&self, c: usize) -> (r: u32)
        requires
            c < self.scale.len(),
            c < self.var.len(),
        ensures
            r == self.norm().factor(c as int),
    {
        divide_single(self.scale[c], root_single(add_single(self.var[c], self.epsilon)))
    }
}

fn read_norm(graph: &GraphProto, facts: &GraphFacts, i: usize, channels: usize) -> (r: Option<
    NormValues,
>)
    requires
        facts.describes(graph@),
        i < graph.node.len(),
        graph.node@[i as int].input.len() >= 5,
    ensures
        match r {
            Some(values) => norm_at(graph@, i as int, channels as int) == Some(values.norm())
                && values.covers(channels as int),
            None => norm_at(graph@, i as int, channels as int) is None,
        },
{
    let node = &graph.node[i];
    proof {
        assert(graph@.node[i as int] == node@);
        assert(node@.input[1] == node.input@[1]@);
        assert(node@.input[2] == node.input@[2]@);
        assert(node@.input[3] == node.input@[3]@);
        assert(node@.input[4] == node.input@[4]@);
    }
    let scale = match singles_of(graph, facts, node.input[1].as_str()) {
        Some(list) => list,
        None => {
            return None;
        },
    };
    let beta = match singles_of(graph, facts, node.input[2].as_str()) {
        Some(list) => list,
        None => {
            return None;
        },
    };
    let mean = match singles_of(graph, facts, node.input[3].as_str()) {
        Some(list) => list,
        None => {
            return None;
        },
    };
    let var = match singles_of(graph, facts, node.input[4].as_str()) {
        Some(list) => list,
        None => {
            return None;
        },
    };
    if scale.len() != channels || beta.len() != channels || mean.len() != channels || var.len()
        != channels {
        return None;
    }
    let epsilon: u32 = match attr_float_of(node, "epsilon") {
        Some(epsilon) => epsilon,
        None => DEFAULT_EPSILON,
    };
    Some(NormValues { scale, beta, mean, var, epsilon })
}

fn fold_weights(values: &NormValues, weights: &Vec<u32>, channels: usize) -> (r: Vec<u32>)
    requires
        channels > 0,
        values.covers(channels as int),
        weights.len() % channels == 0,
    ensures
        r@ == values.norm().weights(weights@, weights@.len() as int / channels as int),
{
    let each = weights.len() / channels;
    let ghost target = values.norm().weights(weights@, each as int);
    let mut list: Vec<u32> = Vec::new();
    let mut i: usize = 0;
    proof {
        lemma_fundamental_div_mod(weights@.len() as int, channels as int);
    }
    while i < weights.len()
        invariant
            i <= weights.len(),
            channels > 0,
            values.covers(channels as int),
            weights.len() == channels * each,
            target == values.norm().weights(weights@, each as int),
            list@ =~= target.take(i as int),
        decreases weights.len() - i,
    {
        proof {
            assert(each > 0) by (nonlinear_arith)
                requires
                    i < channels * each,
                    i >= 0,
                    channels > 0,
                    each >= 0,
            ;
            assert(i as int / (each as int) < channels) by {
                assert(each * channels == channels * each) by (nonlinear_arith);
                lemma_multiply_divide_lt(i as int, each as int, channels as int);
            }
        }
        let c = i / each;
        list.push(multiply_single(weights[i], values.factor(c)));
        i = i + 1;
    }
    proof {
        assert(target.take(i as int) =~= target);
    }
    list
}

fn fold_biases(values: &NormValues, biases: &Vec<u32>) -> (r: Vec<u32>)
    requires
        values.covers(biases.len() as int),
    ensures
        r@ == values.norm().biases(biases@),
{
    let ghost target = values.norm().biases(biases@);
    let mut list: Vec<u32> = Vec::new();
    let mut c: usize = 0;
    while c < biases.len()
        invariant
            c <= biases.len(),
            values.covers(biases.len() as int),
            target == values.norm().biases(biases@),
            list@ =~= target.take(c as int),
        decreases biases.len() - c,
    {
        let centred = subtract_single(biases[c], values.mean[c]);
        list.push(add_single(multiply_single(centred, values.factor(c)), values.beta[c]));
        c = c + 1;
    }
    proof {
        assert(target.take(c as int) =~= target);
    }
    list
}

fn zeros(count: usize) -> (r: Vec<u32>)
    ensures
        r@ == Seq::new(count as nat, |c: int| 0u32),
{
    let mut list: Vec<u32> = Vec::new();
    let mut i: usize = 0;
    while i < count
        invariant
            i <= count,
            list@ =~= Seq::new(i as nat, |c: int| 0u32),
        decreases count - i,
    {
        list.push(0);
        i = i + 1;
    }
    list
}

/// A convolution's weights and biases, and where they are kept.
struct KernelValues {
    weight: usize,
    weights: Vec<u32>,
    channels: usize,
    bias: Option<usize>,
    biases: Vec<u32>,
}

impl KernelValues {
    spec fn kernel(&self) -> Kernel {
        Kernel {
            weight: self.weight as int,
            weights: self.weights@,
            channels: self.channels as int,
            bias: match self.bias {
                Some(b) => Some(b as int),
                None => None,
            },
            biases: self.biases@,
        }
    }
}

fn read_kernel(graph: &GraphProto, facts: &GraphFacts, p: usize) -> (r: Option<KernelValues>)
    requires
        facts.describes(graph@),
        p < graph.node.len(),
        2 <= graph.node@[p as int].input.len() <= 3,
    ensures
        match r {
            Some(k) => {
                &&& kernel_at(graph@, p as int) == Some(k.kernel())
                &&& k.weight < graph.initializer.len()
                &&& k.channels > 0
                &&& k.channels <= i64::MAX
                &&& k.weights.len() % k.channels == 0
                &&& k.biases.len() == k.channels
                &&& k.bias matches Some(b) ==> b < graph.initializer.len()
                &&& (k.bias is Some) == (graph.node@[p as int].input.len() == 3)
            },
            None => kernel_at(graph@, p as int) is None,
        },
{
    let ghost g = graph@;
    let conv = &graph.node[p];
    proof {
        assert(g.node[p as int] == conv@);
        assert(conv@.input.len() == conv.input.len());
        assert(conv@.input[1] == conv.input@[1]@);
    }
    let weight: usize = match facts.initializer(Ghost(g), conv.input[1].as_str()) {
        Some(weight) => weight,
        None => {
            return None;
        },
    };
    if !facts.single_use(Ghost(g), conv.input[1].as_str()) {
        return None;
    }
    let tensor = &graph.initializer[weight];
    proof {
        assert(g.initializer[weight as int] == tensor@);
    }
    let weights = match tensor_to_f32(tensor) {
        Some(weights) => weights,
        None => {
            return None;
        },
    };
    if tensor.dims.len() == 0 || tensor.dims[0] <= 0 {
        return None;
    }
    let size: i64 = tensor.dims[0];
    let wide: u64 = size as u64;
    if wide > usize::MAX as u64 {
        return None;
    }
    if weights.len() as u64 % wide != 0 {
        return None;
    }
    if conv.input.len() == 3 {
        proof {
            assert(conv@.input[2] == conv.input@[2]@);
        }
        let bias: usize = match facts.initializer(Ghost(g), conv.input[2].as_str()) {
            Some(bias) => bias,
            None => {
                return None;
            },
        };
        if !facts.single_use(Ghost(g), conv.input[2].as_str()) {
            return None;
        }
        proof {
            assert(g.initializer[bias as int] == graph.initializer@[bias as int]@);
        }
        let biases = match tensor_to_f32(&graph.initializer[bias]) {
            Some(biases) => biases,
            None => {
                return None;
            },
        };
        if biases.len() as u64 != wide {
            return None;
        }
        let channels = biases.len();
        Some(KernelValues { weight, weights, channels, bias: Some(bias), biases })
    } else {
        let channels: usize = size as usize;
        Some(KernelValues { weight, weights, channels, bias: None, biases: zeros(channels) })
    }
}

fn fold_norm_at(graph: &mut GraphProto, facts: &GraphFacts, i: usize) -> (done: bool)
    requires
        facts.describes(old(graph)@),
        i < old(graph).node.len(),
    ensures
        match norm_folded(old(graph)@, i as int) {
            Some(folded) => done && final(graph)@ == folded,
            None => !done && *final(graph) == *old(graph),
        },
        done ==> final(graph)@.node.len() < old(graph)@.node.len(),
{
    let ghost g = graph@;
    let node = &graph.node[i];
    proof {
        assert(g.node[i as int] == node@);
        assert(node@.input.len() == node.input.len());
        assert(node@.output.len() == node.output.len());
    }
    if !same(node.op_type.as_str(), "BatchNormalization") || node.input.len() < 5
        || node.output.len() != 1 {
        return false;
    }
    proof {
        assert(node@.input[0] == node.input@[0]@);
        assert(node@.output[0] == node.output@[0]@);
    }
    let p: usize = match facts.producer(Ghost(g), node.input[0].as_str()) {
        Some(p) => p,
        None => {
            return false;
        },
    };
    let conv = &graph.node[p];
    proof {
        assert(g.node[p as int] == conv@);
        assert(conv@.input.len() == conv.input.len());
        assert(conv@.output.len() == conv.output.len());
    }
    if !same(conv.op_type.as_str(), "Conv") || conv.input.len() < 2 || conv.input.len() > 3
        || conv.output.len() != 1 {
        return false;
    }
    proof {
        assert(conv@.output[0] == conv.output@[0]@);
    }
    if !facts.single_use(Ghost(g), conv.output[0].as_str()) {
        return false;
    }
    let kernel = match read_kernel(graph, facts, p) {
        Some(kernel) => kernel,
        None => {
            return false;
        },
    };
    let values = match read_norm(graph, facts, i, kernel.channels) {
        Some(values) => values,
        None => {
            return false;
        },
    };
    let weights = fold_weights(&values, &kernel.weights, kernel.channels);
    let biases = fold_biases(&values, &kernel.biases);
    let output = node.output[0].clone();
    let conv_output = conv.output[0].clone();
    let size: i64 = kernel.channels as i64;
    let ghost k = kernel.kernel();
    let ghost norm = values.norm();
    write_f32_tensor(&mut graph.initializer[kernel.weight], &weights);
    let ghost g1 = graph@;
    proof {
        assert(g1.initializer =~= g.initializer.update(
            k.weight,
            with_singles(g.initializer[k.weight], weights@),
        ));
    }
    match kernel.bias {
        Some(b) => {
            let dims: Vec<i64> = vec![size];
            proof {
                assert(dims@ =~= seq![k.channels as i64]);
                assert(graph.initializer@[b as int]@ == g1.initializer[b as int]);
            }
            graph.initializer[b].dims = dims;
            write_f32_tensor(&mut graph.initializer[b], &biases);
            let ghost before = graph.node@[p as int];
            graph.node[p].output[0] = output;
            proof {
                let after = graph.node@[p as int];
                assert(after@.output =~= before@.output.update(0, output@));
                assert(after@.attribute =~= before@.attribute);
                assert(graph@.node =~= g1.node.update(p as int, after@));
                assert(graph@.initializer =~= g1.initializer.update(
                    b as int,
                    with_singles(
                        Tensor { dims: seq![k.channels as i64], ..g1.initializer[b as int] },
                        biases@,
                    ),
                ));
            }
        },
        None => {
            let base = join(conv_output.as_str(), "_bn_bias");
            let name = unique_initializer_name(graph, base.as_str());
            let dims: Vec<i64> = vec![size];
            proof {
                assert(dims@ =~= seq![k.channels as i64]);
            }
            let mut added = TensorProto::new(name.clone(), dims, FLOAT);
            write_f32_tensor(&mut added, &biases);
            graph.initializer.push(added);
            let ghost before = graph.node@[p as int];
            graph.node[p].input.push(name);
            graph.node[p].output[0] = output;
            proof {
                let after = graph.node@[p as int];
                assert(after@.input =~= before@.input.push(name@));
                assert(after@.output =~= before@.output.update(0, output@));
                assert(after@.attribute =~= before@.attribute);
                assert(graph@.node =~= g1.node.update(p as int, after@));
                assert(graph@.initializer =~= g1.initializer.push(added@));
            }
        },
    }
    drop_nodes(graph, i, i);
    true
}

/// Makes the first such fold.
fn fuse_conv_batch_norm_once(graph: &mut GraphProto) -> (done: bool)
    ensures
        match first_norm(old(graph)@, 0) {
            Some(folded) => done && final(graph)@ == folded,
            None => !done && *final(graph) == *old(graph),
        },
        done ==> final(graph)@.node.len() < old(graph)@.node.len(),
{
    let ghost g = graph@;
    let facts = analyze(graph);
    let mut i: usize = 0;
    while i < graph.node.len()
        invariant
            i <= graph.node.len(),
            *graph == *old(graph),
            graph@ == g,
            facts.describes(g),
            first_norm(g, 0) == first_norm(g, i as int),
        decreases graph.node.len() - i,
    {
        if fold_norm_at(graph, &facts, i) {
            return true;
        }
        i = i + 1;
    }
    false
}

/// Folds batch normalizations into the convolutions before them until none is left.
pub fn fuse_conv_batch_norm(graph: &mut GraphProto) -> (changes: usize)
    ensures
        (final(graph)@, changes as nat) == norms_folded(old(graph)@),
{
    let mut changes: usize = 0;
    let mut more = fuse_conv_batch_norm_once(graph);
    while more
        invariant
            more ==> changes + 1 + graph.node.len() <= old(graph).node.len(),
            more ==> norms_folded(old(graph)@) == (
                norms_folded(graph@).0,
                (norms_folded(graph@).1 + changes + 1) as nat,
            ),
            !more ==> norms_folded(old(graph)@) == (graph@, changes as nat),
        decreases
            graph.node.len(),
            if more {
                1int
            } else {
                0int
            },
    {
        changes = changes + 1;
        more = fuse_conv_batch_norm_once(graph);
    }
    changes
}

// ---- Subnormal constants ----

/// Whether a `binary32` value is subnormal.
pub open spec fn subnormal(b: u32) -> bool {
    0 < b % 0x8000_0000 < 0x80_0000
}

/// Zero in place of a subnormal value.
pub open spec fn flushed_word(b: u32) -> u32 {
    if subnormal(b) {
        0
    } else {
        b
    }
}

/// The tensor with its subnormal elements flushed, and whether the pass counts a change. A tensor
/// whose raw bytes are no whole number of elements is not counted, and those bytes stay.
pub open spec fn flushed_tensor(t: Tensor) -> (Tensor, bool) {
    if t.data_type != FLOAT {
        (t, false)
    } else {
        let list = Seq::new(t.float_data.len(), |i: int| flushed_word(t.float_data[i]));
        if t.raw_data.len() % 4 != 0 {
            (Tensor { float_data: list, ..t }, false)
        } else {
            let raw = words(t.raw_data, 4);
            let kept = Seq::new(raw.len(), |i: int| flushed_word(raw[i] as u32) as u64);
            (
                Tensor {
                    float_data: list,
                    raw_data: if t.raw_data.len() == 0 {
                        t.raw_data
                    } else {
                        word_bytes(kept, 4)
                    },
                    ..t
                },
                list != t.float_data || (t.raw_data.len() > 0 && kept != raw),
            )
        }
    }
}

/// How many of the first `k` tensors the flush changes.
pub open spec fn flushed_count(list: Seq<Tensor>, k: nat) -> nat
    decreases k,
{
    if k == 0 {
        0
    } else {
        flushed_count(list, (k - 1) as nat) + (if flushed_tensor(list[k - 1]).1 {
            1nat
        } else {
            0
        })
    }
}

/// The graph with its subnormal `FLOAT` constants flushed to zero.
pub open spec fn subnormals_flushed(g: Graph) -> (Graph, nat) {
    (
        Graph {
            initializer: Seq::new(
                g.initializer.len(),
                |i: int| flushed_tensor(g.initializer[i]).0,
            ),
            ..g
        },
        flushed_count(g.initializer, g.initializer.len()),
    )
}

fn flush_values(values: &mut Vec<u32>) -> (changed: bool)
    ensures
        final(values)@ == Seq::new(old(values)@.len(), |i: int| flushed_word(old(values)@[i])),
        changed == (final(values)@ != old(values)@),
{
    let mut changed = false;
    let mut i: usize = 0;
    while i < values.len()
        invariant
            i <= values.len(),
            values.len() == old(values).len(),
            forall|k: int| 0 <= k < i ==> #[trigger] values@[k] == flushed_word(old(values)@[k]),
            forall|k: int| i <= k < values.len() ==> #[trigger] values@[k] == old(values)@[k],
            changed == exists|k: int|
                0 <= k < i && #[trigger] flushed_word(old(values)@[k]) != old(values)@[k],
        decreases values.len() - i,
    {
        let rest: u32 = values[i] % 0x8000_0000;
        if rest > 0 && rest < 0x80_0000 {
            proof {
                assert(flushed_word(old(values)@[i as int]) != old(values)@[i as int]);
            }
            values[i] = 0;
            changed = true;
        }
        i = i + 1;
    }
    proof {
        let target = Seq::new(old(values)@.len(), |i: int| flushed_word(old(values)@[i]));
        assert(values@ =~= target);
        if changed {
            let k = choose|k: int|
                0 <= k < i && #[trigger] flushed_word(old(values)@[k]) != old(values)@[k];
            assert(values@[k] != old(values)@[k]);
        } else {
            assert forall|k: int| 0 <= k < values@.len() implies values@[k] == old(values)@[k] by {
                assert(flushed_word(old(values)@[k]) == old(values)@[k]);
            }
            assert(values@ =~= old(values)@);
        }
    }
    changed
}

fn flush_tensor(tensor: &mut TensorProto) -> (changed: bool)
    ensures
        (final(tensor)@, changed) == flushed_tensor(old(tensor)@),
{
    if tensor.data_type != FLOAT {
        return false;
    }
    let mut changed = flush_values(&mut tensor.float_data);
    if tensor.raw_data.len() % 4 != 0 {
        return false;
    }
    if tensor.raw_data.len() > 0 {
        let raw = read_words(&tensor.raw_data, 4);
        let ghost before = raw@;
        let mut kept: Vec<u64> = Vec::new();
        let mut different = false;
        let mut i: usize = 0;
        proof {
            reveal_with_fuel(limit, 5);
        }
        while i < raw.len()
            invariant
                i <= raw.len(),
                forall|k: int| 0 <= k < raw@.len() ==> #[trigger] raw@[k] < 0x1_0000_0000,
                kept@ =~= Seq::new(i as nat, |k: int| flushed_word(raw@[k] as u32) as u64),
                different == exists|k: int| 0 <= k < i && #[trigger] kept@[k] != raw@[k],
            decreases raw.len() - i,
        {
            let ghost shorter = kept@;
            let word: u32 = raw[i] as u32;
            let rest: u32 = word % 0x8000_0000;
            proof {
                assert(raw@[i as int] < 0x1_0000_0000);
            }
            if rest > 0 && rest < 0x80_0000 {
                kept.push(0);
                different = true;
                proof {
                    assert(kept@[i as int] != raw@[i as int]);
                }
            } else {
                kept.push(raw[i]);
                proof {
                    assert(kept@[i as int] == raw@[i as int]);
                    assert forall|k: int| 0 <= k < i implies #[trigger] kept@[k] == shorter[k] by {}
                    if different {
                        let k = choose|k: int| 0 <= k < i && #[trigger] shorter[k] != raw@[k];
                        assert(kept@[k] != raw@[k]);
                    }
                }
            }
            i = i + 1;
        }
        proof {
            let target = Seq::new(raw@.len(), |i: int| flushed_word(raw@[i] as u32) as u64);
            assert(kept@ =~= target);
            if !different {
                assert forall|k: int| 0 <= k < raw@.len() implies kept@[k] == raw@[k] by {}
                assert(kept@ =~= raw@);
            }
        }
        tensor.raw_data = encode_words(&kept, 4);
        changed = changed || different;
    }
    changed
}

/// Flushes subnormal `FLOAT` constants to zero.
pub fn flush_subnormal_initializers(graph: &mut GraphProto) -> (changes: usize)
    ensures
        (final(graph)@, changes as nat) == subnormals_flushed(old(graph)@),
{
    let ghost g = graph@;
    let mut changes: usize = 0;
    let mut i: usize = 0;
    while i < graph.initializer.len()
        invariant
            i <= graph.initializer.len(),
            changes <= i,
            g == old(graph)@,
            graph.initializer.len() == old(graph).initializer.len(),
            *graph == (GraphProto { initializer: graph.initializer, ..*old(graph) }),
            forall|k: int|
                0 <= k < i ==> (#[trigger] graph.initializer@[k])@ == flushed_tensor(
                    g.initializer[k],
                ).0,
            forall|k: int|
                i <= k < graph.initializer.len() ==> graph.initializer@[k]
                    == old(graph).initializer@[k],
            changes == flushed_count(g.initializer, i as nat),
        decreases graph.initializer.len() - i,
    {
        proof {
            assert(g.initializer[i as int] == graph.initializer@[i as int]@);
        }
        if flush_tensor(&mut graph.initializer[i]) {
            changes = changes + 1;
        }
        i = i + 1;
    }
    proof {
        assert(graph@.initializer =~= subnormals_flushed(g).0.initializer);
        assert(graph@.node =~= g.node);
    }
    changes
}

} // verus!
