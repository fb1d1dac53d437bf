//! Passes that fold a node into a constant, or drop a node that changes nothing.

use crate::converter::optimizer::constants::{
    attr_int_of, attr_ints_of, const_named, const_value, encode_f64_values, encoded_values,
    float_values, int_named, ints_named, ints_of_const, placed, static_i64_const, tensor_to_f64,
    Const, ConstLocation,
};
use crate::converter::optimizer::dims::{
    identity_perm, is_identity_perm, is_single, reshape_dims, reshaped, unsqueeze_dims, unsqueezed,
    wrapped_product,
};
use crate::converter::optimizer::facts::{
    analyze, lemma_initializer_bound, lemma_producer_bound, or_else, used_once, GraphFacts,
};
use crate::converter::optimizer::options::{shape_of, tensor_shape, Options, OptimizerOptions};
use crate::converter::optimizer::plan::{carried_out, plan_of, Changes, Decision, Plan, Verdict};
use crate::dtype::{BFLOAT16, DOUBLE, FLOAT, FLOAT16};
use crate::float::{is_zero, negative, zero, ONE, SIGN};
use crate::onnx::{Graph, GraphProto, Node, NodeProto, Tensor, TensorProto};
use crate::scope::{rewrite_is_safe, rewrite_safe, value_named};
use crate::text::same;
use vstd::prelude::*;

verus! {

/// Whether node `i` has the operator `op`, at least `low` and at most `high` inputs, and one
/// output, which is not an output of the graph.
pub open spec fn inner_node(g: Graph, i: int, op: Seq<char>, low: int, high: int) -> bool {
    let n = g.node[i];
    n.op_type == op && low <= n.input.len() <= high && n.output.len() == 1 && !value_named(
        g.output,
        n.output[0],
    )
}

/// Tests [`inner_node`].
fn is_inner_node(
    graph: &GraphProto,
    facts: &GraphFacts,
    i: usize,
    op: &str,
    low: usize,
    high: usize,
) -> (r: bool)
    requires
        facts.describes(graph@),
        i < graph.node.len(),
    ensures
        r == inner_node(graph@, i as int, op@, low as int, high as int),
{
    let node = &graph.node[i];
    proof {
        assert(graph@.node[i as int] == node@);
        assert(node@.input.len() == node.input.len());
        assert(node@.output.len() == node.output.len());
    }
    if !same(node.op_type.as_str(), op) || node.input.len() < low || node.input.len() > high
        || node.output.len() != 1 {
        return false;
    }
    proof {
        assert(node@.output[0] == node.output@[0]@);
    }
    !facts.is_output(Ghost(graph@), node.output[0].as_str())
}

/// A plan made node by node speaks only of places that the graph has.
pub proof fn lemma_plan_fits(g: Graph, d: spec_fn(int) -> Verdict, k: nat)
    requires
        k <= g.node.len(),
        forall|i: int|
            0 <= i < g.node.len() ==> (#[trigger] d(i) matches Verdict::Fold(c, _)
                ==> placed(g, c.location)),
    ensures
        plan_of(g, d, k).fits(g),
        plan_of(g, d, k).rewrites.len() + plan_of(g, d, k).clones.len() <= k,
    decreases k,
{
    if k > 0 {
        lemma_plan_fits(g, d, (k - 1) as nat);
        let before = plan_of(g, d, (k - 1) as nat);
        let after = plan_of(g, d, k);
        assert(d(k - 1) matches Verdict::Fold(c, _)
            ==> placed(g, c.location));
        assert forall|i: int| 0 <= i < after.rewrites.len() implies 0 <= (
        #[trigger] after.rewrites[i]).index < g.node.len() by {
            if i < before.rewrites.len() {
                assert(0 <= before.rewrites[i].index < g.node.len());
            }
        }
        assert forall|i: int|
            0 <= i < after.updates.len() implies placed(
            g,
            #[trigger] after.updates[i].location,
        ) by {
            if i < before.updates.len() {
                assert(placed(
                    g,
                    before.updates[i].location,
                ));
            }
        }
    }
}

/// A constant that a name stands for has a place in the graph.
pub proof fn lemma_const_placed(g: Graph, name: Seq<char>)
    ensures
        const_named(g, name) matches Some(c)
            ==> placed(g, c.location),
{
    lemma_initializer_bound(g.initializer, name);
    lemma_producer_bound(g.node, name);
}

// ---- Reshape of a constant ----

/// What becomes of a `Reshape`: a constant used only here takes the new shape, and another
/// initializer is copied with the new shape under the output's name.
pub open spec fn reshape_verdict(g: Graph, i: int) -> Verdict {
    let n = g.node[i];
    if !inner_node(g, i, "Reshape"@, 1, usize::MAX as int) || n.input[0].len() == 0 {
        Verdict::Keep
    } else {
        let target = or_else(
            ints_named(n, "shape"@),
            if n.input.len() > 1 {
                ints_of_const(g, n.input[1])
            } else {
                None
            },
        );
        match (const_named(g, n.input[0]), target) {
            (Some(c), Some(target)) => {
                let allowzero = match int_named(n, "allowzero"@) {
                    Some(v) => v,
                    None => 0,
                };
                match reshaped(c.tensor.dims, target, allowzero) {
                    None => Verdict::Keep,
                    Some(dims) => if used_once(g, n.input[0]) {
                        if rewrite_safe(g, n.output[0], n.input[0]) {
                            Verdict::Fold(
                                Const { tensor: Tensor { dims, ..c.tensor }, ..c },
                                n.input[0],
                            )
                        } else {
                            Verdict::Keep
                        }
                    } else if c.location is Initializer {
                        Verdict::Clone(Tensor { dims, name: n.output[0], ..c.tensor })
                    } else {
                        Verdict::Keep
                    },
                }
            },
            _ => Verdict::Keep,
        }
    }
}

fn decide_reshape(graph: &GraphProto, facts: &GraphFacts, i: usize) -> (r: Decision)
    requires
        facts.describes(graph@),
        i < graph.node.len(),
    ensures
        r@ == reshape_verdict(graph@, i as int),
{
    if !is_inner_node(graph, facts, i, "Reshape", 1, usize::MAX) {
        return Decision::Keep;
    }
    let node = &graph.node[i];
    proof {
        assert(graph@.node[i as int] == node@);
        assert(node@.input[0] == node.input@[0]@);
        assert(node@.output[0] == node.output@[0]@);
        assert(node@.input.len() == node.input.len());
        if node.input.len() > 1 {
            assert(node@.input[1] == node.input@[1]@);
        }
    }
    let input_name = &node.input[0];
    let output = &node.output[0];
    if input_name.as_str().is_empty() {
        return Decision::Keep;
    }
    let mut value = match const_value(graph, facts, input_name.as_str()) {
        Some(value) => value,
        None => {
            return Decision::Keep;
        },
    };
    let target = match attr_ints_of(node, "shape") {
        Some(target) => target,
        None => {
            if node.input.len() < 2 {
                return Decision::Keep;
            }
            match static_i64_const(graph, facts, node.input[1].as_str()) {
                Some(target) => target,
                None => {
                    return Decision::Keep;
                },
            }
        },
    };
    let allowzero: i64 = match attr_int_of(node, "allowzero") {
        Some(v) => v,
        None => 0,
    };
    let dims = match reshape_dims(&value.tensor.dims, &target, allowzero) {
        Some(dims) => dims,
        None => {
            return Decision::Keep;
        },
    };
    value.tensor.dims = dims;
    if facts.single_use(Ghost(graph@), input_name.as_str()) {
        if !rewrite_is_safe(graph, output.as_str(), input_name.as_str()) {
            return Decision::Keep;
        }
        Decision::Fold(value, input_name.clone())
    } else {
        match value.location {
            ConstLocation::Initializer(_) => {
                value.tensor.name = output.clone();
                Decision::Clone(value.tensor)
            },
            ConstLocation::ConstantNode(_) => Decision::Keep,
        }
    }
}

// ---- Unsqueeze of a constant ----

/// The axes of a node: those of its attribute, or else those of the constant that its second
/// input stands for.
pub open spec fn axes_of(g: Graph, n: Node) -> Option<Seq<i64>> {
    or_else(
        ints_named(n, "axes"@),
        if n.input.len() > 1 && n.input[1].len() > 0 {
            ints_of_const(g, n.input[1])
        } else {
            None
        },
    )
}

/// What becomes of an `Unsqueeze`: a constant used only here takes the new shape.
pub open spec fn unsqueeze_verdict(g: Graph, i: int) -> Verdict {
    let n = g.node[i];
    if !inner_node(g, i, "Unsqueeze"@, 1, usize::MAX as int) || n.input[0].len() == 0 || !used_once(
        g,
        n.input[0],
    ) {
        Verdict::Keep
    } else {
        match (const_named(g, n.input[0]), axes_of(g, n)) {
            (Some(c), Some(axes)) => match unsqueezed(c.tensor.dims, axes) {
                Some(dims) => if rewrite_safe(g, n.output[0], n.input[0]) {
                    Verdict::Fold(Const { tensor: Tensor { dims, ..c.tensor }, ..c }, n.input[0])
                } else {
                    Verdict::Keep
                },
                None => Verdict::Keep,
            },
            _ => Verdict::Keep,
        }
    }
}

/// The axes of a node.
pub fn static_axes(graph: &GraphProto, facts: &GraphFacts, node: &NodeProto) -> (r: Option<Vec<i64>>)
    requires
        facts.describes(graph@),
    ensures
        match r {
            Some(axes) => axes_of(graph@, node@) == Some(axes@),
            None => axes_of(graph@, node@) is None,
        },
{
    match attr_ints_of(node, "axes") {
        Some(axes) => {
            return Some(axes);
        },
        None => {},
    }
    proof {
        assert(node@.input.len() == node.input.len());
    }
    if node.input.len() < 2 {
        return None;
    }
    proof {
        assert(node@.input[1] == node.input@[1]@);
    }
    if node.input[1].as_str().is_empty() {
        return None;
    }
    static_i64_const(graph, facts, node.input[1].as_str())
}

fn decide_unsqueeze(graph: &GraphProto, facts: &GraphFacts, i: usize) -> (r: Decision)
    requires
        facts.describes(graph@),
        i < graph.node.len(),
    ensures
        r@ == unsqueeze_verdict(graph@, i as int),
{
    if !is_inner_node(graph, facts, i, "Unsqueeze", 1, usize::MAX) {
        return Decision::Keep;
    }
    let node = &graph.node[i];
    proof {
        assert(graph@.node[i as int] == node@);
        assert(node@.input[0] == node.input@[0]@);
        assert(node@.output[0] == node.output@[0]@);
    }
    let input_name = &node.input[0];
    let output = &node.output[0];
    if input_name.as_str().is_empty() || !facts.single_use(Ghost(graph@), input_name.as_str()) {
        return Decision::Keep;
    }
    let mut value = match const_value(graph, facts, input_name.as_str()) {
        Some(value) => value,
        None => {
            return Decision::Keep;
        },
    };
    let axes = match static_axes(graph, facts, node) {
        Some(axes) => axes,
        None => {
            return Decision::Keep;
        },
    };
    let dims = match unsqueeze_dims(&value.tensor.dims, &axes) {
        Some(dims) => dims,
        None => {
            return Decision::Keep;
        },
    };
    if !rewrite_is_safe(graph, output.as_str(), input_name.as_str()) {
        return Decision::Keep;
    }
    value.tensor.dims = dims;
    Decision::Fold(value, input_name.clone())
}

// ---- Cast of a constant ----

/// The tensor converted to another element type, where each element can be.
pub open spec fn cast_tensor(t: Tensor, data_type: i32) -> Option<Tensor> {
    if t.data_type == data_type {
        Some(t)
    } else {
        match float_values(t) {
            Some(list) => match encoded_values(list, data_type) {
                Some(raw) => Some(
                    Tensor {
                        dims: t.dims,
                        data_type,
                        float_data: Seq::empty(),
                        int32_data: Seq::empty(),
                        int64_data: Seq::empty(),
                        name: t.name,
                        raw_data: raw,
                        double_data: Seq::empty(),
                        uint64_data: Seq::empty(),
                    },
                ),
                None => None,
            },
            None => None,
        }
    }
}

/// What becomes of a `Cast`: a constant used only here takes the new element type.
pub open spec fn cast_verdict(g: Graph, i: int) -> Verdict {
    let n = g.node[i];
    if !inner_node(g, i, "Cast"@, 1, 1) || n.input[0].len() == 0 || !used_once(g, n.input[0]) {
        Verdict::Keep
    } else {
        match (int_named(n, "to"@), const_named(g, n.input[0])) {
            (Some(to), Some(c)) => match cast_tensor(c.tensor, to as i32) {
                Some(tensor) => if rewrite_safe(g, n.output[0], n.input[0]) {
                    Verdict::Fold(Const { tensor, ..c }, n.input[0])
                } else {
                    Verdict::Keep
                },
                None => Verdict::Keep,
            },
            _ => Verdict::Keep,
        }
    }
}

fn convert_tensor(tensor: TensorProto, data_type: i32) -> (r: Option<TensorProto>)
    ensures
        match r {
            Some(t) => cast_tensor(tensor@, data_type) == Some(t@),
            None => cast_tensor(tensor@, data_type) is None,
        },
{
    if tensor.data_type == data_type {
        return Some(tensor);
    }
    let list = match tensor_to_f64(&tensor) {
        Some(list) => list,
        None => {
            return None;
        },
    };
    let raw = match encode_f64_values(&list, data_type) {
        Some(raw) => raw,
        None => {
            return None;
        },
    };
    Some(
        TensorProto {
            dims: tensor.dims,
            data_type,
            float_data: Vec::new(),
            int32_data: Vec::new(),
            int64_data: Vec::new(),
            name: tensor.name,
            raw_data: raw,
            double_data: Vec::new(),
            uint64_data: Vec::new(),
        },
    )
}

fn decide_cast(graph: &GraphProto, facts: &GraphFacts, i: usize) -> (r: Decision)
    requires
        facts.describes(graph@),
        i < graph.node.len(),
    ensures
        r@ == cast_verdict(graph@, i as int),
{
    if !is_inner_node(graph, facts, i, "Cast", 1, 1) {
        return Decision::Keep;
    }
    let node = &graph.node[i];
    proof {
        assert(graph@.node[i as int] == node@);
        assert(node@.input[0] == node.input@[0]@);
        assert(node@.output[0] == node.output@[0]@);
    }
    let input_name = &node.input[0];
    let output = &node.output[0];
    if input_name.as_str().is_empty() || !facts.single_use(Ghost(graph@), input_name.as_str()) {
        return Decision::Keep;
    }
    let to: i32 = match attr_int_of(node, "to") {
        Some(to) => to as i32,
        None => {
            return Decision::Keep;
        },
    };
    let mut value = match const_value(graph, facts, input_name.as_str()) {
        Some(value) => value,
        None => {
            return Decision::Keep;
        },
    };
    let tensor = match convert_tensor(value.tensor, to) {
        Some(tensor) => tensor,
        None => {
            return Decision::Keep;
        },
    };
    value.tensor = tensor;
    if !rewrite_is_safe(graph, output.as_str(), input_name.as_str()) {
        return Decision::Keep;
    }
    Decision::Fold(value, input_name.clone())
}

// ---- Addition of zero and multiplication by one ----

/// Whether an element type is a floating-point type.
pub open spec fn floating(data_type: i32) -> bool {
    data_type == FLOAT || data_type == FLOAT16 || data_type == DOUBLE || data_type == BFLOAT16
}

/// Whether a tensor has a single element, of the value zero or one.
pub open spec fn single_value(t: Tensor, one: bool) -> bool {
    wrapped_product(t.dims) == 1 && (match float_values(t) {
        Some(list) => list.len() == 1 && (if one {
            list[0] == ONE
        } else {
            zero(list[0])
        }),
        None => false,
    })
}

/// Whether a tensor holds values and each is a negative zero. For floating-point types only the
/// negative zero is neutral in an addition: adding the positive zero to a negative one gives the
/// positive zero.
pub open spec fn negative_zero(t: Tensor) -> bool {
    match float_values(t) {
        Some(list) => list.len() > 0 && forall|i: int|
            0 <= i < list.len() ==> zero(#[trigger] list[i]) && negative(list[i]),
        None => false,
    }
}

/// Whether a constant of a single element leaves the shape of `other` alone: its rank does not
/// exceed the other's, which has to be known unless the constant is a scalar.
pub open spec fn keeps_shape(g: Graph, o: Options, t: Tensor, other: Seq<char>) -> bool {
    t.dims.len() == 0 || (match shape_of(g, o, other) {
        Some(shape) => t.dims.len() <= shape.len(),
        None => false,
    })
}

/// Whether the input at position `at` of an addition or multiplication is a neutral constant, and
/// the other input can be read instead of the output.
pub open spec fn neutral_at(g: Graph, o: Options, n: Node, at: int) -> bool {
    match const_named(g, n.input[at]) {
        Some(c) => !(n.op_type == "Add"@ && floating(c.tensor.data_type) && !negative_zero(
            c.tensor,
        )) && single_value(c.tensor, n.op_type != "Add"@) && keeps_shape(
            g,
            o,
            c.tensor,
            n.input[1 - at],
        ) && rewrite_safe(g, n.output[0], n.input[1 - at]),
        None => false,
    }
}

/// What becomes of an `Add` or `Mul` with a neutral constant: the other input is read instead.
pub open spec fn identity_verdict(g: Graph, o: Options, i: int) -> Verdict {
    let n = g.node[i];
    if !(inner_node(g, i, "Add"@, 2, 2) || inner_node(g, i, "Mul"@, 2, 2)) {
        Verdict::Keep
    } else if neutral_at(g, o, n, 0) {
        Verdict::Rewire(n.input[1])
    } else if neutral_at(g, o, n, 1) {
        Verdict::Rewire(n.input[0])
    } else {
        Verdict::Keep
    }
}

fn is_floating_dtype(data_type: i32) -> (r: bool)
    ensures
        r == floating(data_type),
{
    data_type == FLOAT || data_type == FLOAT16 || data_type == DOUBLE || data_type == BFLOAT16
}

fn const_is_scalar_or_single_value(tensor: &TensorProto, one: bool) -> (r: bool)
    ensures
        r == single_value(tensor@, one),
{
    if !is_single(&tensor.dims) {
        return false;
    }
    match tensor_to_f64(tensor) {
        Some(list) => {
            if list.len() != 1 {
                return false;
            }
            if one {
                list[0] == ONE
            } else {
                is_zero(list[0])
            }
        },
        None => false,
    }
}

fn const_is_negative_zero(tensor: &TensorProto) -> (r: bool)
    ensures
        r == negative_zero(tensor@),
{
    match tensor_to_f64(tensor) {
        Some(list) => {
            let mut i: usize = 0;
            while i < list.len()
                invariant
                    i <= list.len(),
                    forall|k: int|
                        0 <= k < i ==> zero(#[trigger] list@[k]) && negative(list@[k]),
                    float_values(tensor@) == Some(list@),
                decreases list.len() - i,
            {
                if !(is_zero(list[i]) && list[i] >= SIGN) {
                    return false;
                }
                i = i + 1;
            }
            list.len() > 0
        },
        None => false,
    }
}

fn identity_preserves_shape(
    graph: &GraphProto,
    facts: &GraphFacts,
    options: &OptimizerOptions,
    tensor: &TensorProto,
    other: &str,
) -> (r: bool)
    requires
        facts.describes(graph@),
    ensures
        r == keeps_shape(graph@, options@, tensor@, other@),
{
    if tensor.dims.len() == 0 {
        return true;
    }
    match tensor_shape(graph, facts, options, other) {
        Some(shape) => tensor.dims.len() <= shape.len(),
        None => false,
    }
}

fn is_neutral_at(
    graph: &GraphProto,
    facts: &GraphFacts,
    options: &OptimizerOptions,
    node: &NodeProto,
    at: usize,
) -> (r: bool)
    requires
        facts.describes(graph@),
        node.input.len() == 2,
        node.output.len() == 1,
        at < 2,
    ensures
        r == neutral_at(graph@, options@, node@, at as int),
{
    proof {
        assert(node@.input[at as int] == node.input@[at as int]@);
        assert(node@.input[1 - at] == node.input@[1 - at]@);
        assert(node@.output[0] == node.output@[0]@);
    }
    let other = &node.input[1 - at];
    match const_value(graph, facts, node.input[at].as_str()) {
        Some(value) => {
            let add = same(node.op_type.as_str(), "Add");
            if add && is_floating_dtype(value.tensor.data_type) && !const_is_negative_zero(
                &value.tensor,
            ) {
                return false;
            }
            const_is_scalar_or_single_value(&value.tensor, !add) && identity_preserves_shape(
                graph,
                facts,
                options,
                &value.tensor,
                other.as_str(),
            ) && rewrite_is_safe(graph, node.output[0].as_str(), other.as_str())
        },
        None => false,
    }
}

fn decide_identity(
    graph: &GraphProto,
    facts: &GraphFacts,
    options: &OptimizerOptions,
    i: usize,
) -> (r: Decision)
    requires
        facts.describes(graph@),
        i < graph.node.len(),
    ensures
        r@ == identity_verdict(graph@, options@, i as int),
{
    if !is_inner_node(graph, facts, i, "Add", 2, 2) && !is_inner_node(
        graph,
        facts,
        i,
        "Mul",
        2,
        2,
    ) {
        return Decision::Keep;
    }
    let node = &graph.node[i];
    proof {
        assert(graph@.node[i as int] == node@);
        assert(node@.input.len() == node.input.len());
        assert(node@.output.len() == node.output.len());
        assert(node@.input[0] == node.input@[0]@);
        assert(node@.input[1] == node.input@[1]@);
    }
    if is_neutral_at(graph, facts, options, node, 0) {
        Decision::Rewire(node.input[1].clone())
    } else if is_neutral_at(graph, facts, options, node, 1) {
        Decision::Rewire(node.input[0].clone())
    } else {
        Decision::Keep
    }
}

// ---- Transpose that moves nothing ----

/// What becomes of a `Transpose` that moves no axis: its input is read instead.
pub open spec fn transpose_verdict(g: Graph, i: int) -> Verdict {
    let n = g.node[i];
    if !inner_node(g, i, "Transpose"@, 1, 1) {
        Verdict::Keep
    } else {
        match ints_named(n, "perm"@) {
            Some(perm) => if identity_perm(perm) && rewrite_safe(g, n.output[0], n.input[0]) {
                Verdict::Rewire(n.input[0])
            } else {
                Verdict::Keep
            },
            None => Verdict::Keep,
        }
    }
}

fn decide_transpose(graph: &GraphProto, facts: &GraphFacts, i: usize) -> (r: Decision)
    requires
        facts.describes(graph@),
        i < graph.node.len(),
    ensures
        r@ == transpose_verdict(graph@, i as int),
{
    if !is_inner_node(graph, facts, i, "Transpose", 1, 1) {
        return Decision::Keep;
    }
    let node = &graph.node[i];
    proof {
        assert(graph@.node[i as int] == node@);
        assert(node@.input[0] == node.input@[0]@);
        assert(node@.output[0] == node.output@[0]@);
    }
    match attr_ints_of(node, "perm") {
        Some(perm) => {
            if is_identity_perm(&perm) && rewrite_is_safe(
                graph,
                node.output[0].as_str(),
                node.input[0].as_str(),
            ) {
                Decision::Rewire(node.input[0].clone())
            } else {
                Decision::Keep
            }
        },
        None => Decision::Keep,
    }
}

// ---- The passes ----

/// The passes that decide node by node.
#[derive(Clone, Copy, Debug, PartialEq, Eq, Structural)]
pub enum Fold {
    Reshape,
    Unsqueeze,
    Cast,
    Identity,
    Transpose,
}

/// What a pass decides of node `i`.
pub open spec fn verdict(fold: Fold, g: Graph, o: Options, i: int) -> Verdict {
    match fold {
        Fold::Reshape => reshape_verdict(g, i),
        Fold::Unsqueeze => unsqueeze_verdict(g, i),
        Fold::Cast => cast_verdict(g, i),
        Fold::Identity => identity_verdict(g, o, i),
        Fold::Transpose => transpose_verdict(g, i),
    }
}

/// The decisions of a pass on the first `k` nodes.
pub open spec fn fold_plan(fold: Fold, g: Graph, o: Options, k: nat) -> Changes {
    plan_of(g, |i: int| verdict(fold, g, o, i), k)
}

/// The graph after a pass, and the number of its changes.
pub open spec fn folded(fold: Fold, g: Graph, o: Options) -> (Graph, nat) {
    carried_out(g, fold_plan(fold, g, o, g.node.len()))
}

proof fn lemma_verdict_placed(fold: Fold, g: Graph, o: Options, i: int)
    requires
        0 <= i < g.node.len(),
    ensures
        verdict(fold, g, o, i) matches Verdict::Fold(c, _) ==> placed(g, c.location),
        g.node[i].output.len() != 1 ==> verdict(fold, g, o, i) is Keep,
{
    lemma_const_placed(g, g.node[i].input[0]);
}

/// Decides on every node and carries the decisions out.
pub fn run_fold(fold: Fold, graph: &mut GraphProto, options: &OptimizerOptions) -> (changes: usize)
    ensures
        (final(graph)@, changes as nat) == folded(fold, old(graph)@, options@),
{
    let ghost g = graph@;
    let ghost o = options@;
    let ghost d = |i: int| verdict(fold, g, o, i);
    let facts = analyze(graph);
    let mut plan = Plan::new(graph.node.len());
    let mut i: usize = 0;
    while i < graph.node.len()
        invariant
            i <= graph.node.len(),
            graph@ == g,
            options@ == o,
            facts.describes(g),
            d == (|i: int| verdict(fold, g, o, i)),
            plan@ == plan_of(g, d, i as nat),
            plan.dropped.len() == graph.node.len(),
        decreases graph.node.len() - i,
    {
        let decision = match fold {
            Fold::Reshape => decide_reshape(graph, &facts, i),
            Fold::Unsqueeze => decide_unsqueeze(graph, &facts, i),
            Fold::Cast => decide_cast(graph, &facts, i),
            Fold::Identity => decide_identity(graph, &facts, options, i),
            Fold::Transpose => decide_transpose(graph, &facts, i),
        };
        proof {
            assert(d(i as int) == decision@);
            assert(graph@.node[i as int] == graph.node@[i as int]@);
            assert(g.initializer.len() == graph.initializer.len());
            lemma_verdict_placed(fold, g, o, i as int);
        }
        if graph.node[i].output.len() > 0 {
            proof {
                assert(g.node[i as int].output[0] == graph.node@[i as int].output@[0]@);
            }
            plan.record(i, &graph.node[i].output[0], decision);
        }
        i = i + 1;
    }
    proof {
        assert(g.initializer.len() == graph.initializer.len());
        assert forall|i: int| 0 <= i < g.node.len() implies (#[trigger] d(i) matches Verdict::Fold(
            c,
            _,
        ) ==> placed(g, c.location)) by {
            assert(d(i) == verdict(fold, g, o, i));
            lemma_verdict_placed(fold, g, o, i);
        }
        lemma_plan_fits(g, d, g.node.len());
    }
    plan.apply(graph)
}

} // verus!
