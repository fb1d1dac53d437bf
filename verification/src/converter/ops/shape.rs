//! Operators that change the arrangement of a tensor's elements: squeezing, flattening, stacking,
//! concatenation and splitting.

use crate::converter::emit::{
    binary_added, concat_added, done, failed, ints_added, reduce_added, squeeze_added, unary_added,
    unsqueeze_added, Step,
};
use crate::converter::ops::common::{
    add_wrapped, const_ints, copy_list, first_const, ints_option, names_result, names_upto,
    shape_or_empty,
};
use crate::converter::ops::update::{joined, shape_part};
use crate::converter::optimizer::dims::unknowns;
use crate::converter::optimizer::options::map_get;
use crate::converter::state::{tensor_name, Converter, Meta};
use crate::error::{message, outcome, Error, ErrorView};
use crate::float::{as_i64, to_i64, ZERO};
use crate::helper::{
    attr_axes, attr_i64_or, attr_int_of, input_ids, op_input_ids, op_out_id, or_default, out_id,
    output_sizes, read_attr_axes, read_output_sizes,
};
use crate::json::{Json, JsonView};
use crate::onnx::{attr_int, int_attribute, node_of, Graph, NodeProto};
use crate::text::{
    dec, int_text, ints1, join6, list1, list2, names, push_name, same, tag, tag2, tagged, tagged2,
};
use vstd::prelude::*;

verus! {

// ---- Lists of axes in order ----

/// A strictly increasing list with one more number, which occurs once.
pub open spec fn inserted(list: Seq<i64>, x: i64) -> Seq<i64>
    decreases list.len(),
{
    if list.len() == 0 {
        seq![x]
    } else if list.last() < x {
        list.push(x)
    } else if list.last() == x {
        list
    } else {
        inserted(list.drop_last(), x).push(list.last())
    }
}

/// The first `k` numbers of a list in increasing order, each once.
pub open spec fn ordered(list: Seq<i64>, k: nat) -> Seq<i64>
    decreases k,
{
    if k == 0 {
        Seq::empty()
    } else {
        inserted(ordered(list, (k - 1) as nat), list[k - 1])
    }
}

/// Whether a list increases strictly.
pub open spec fn increasing(list: Seq<i64>) -> bool {
    forall|i: int, j: int| 0 <= i < j < list.len() ==> #[trigger] list[i] < #[trigger] list[j]
}

/// Inserting keeps the order and adds only the number.
pub proof fn lemma_inserted(list: Seq<i64>, x: i64)
    requires
        increasing(list),
    ensures
        increasing(inserted(list, x)),
        forall|y: i64| #[trigger] inserted(list, x).contains(y) == (list.contains(y) || x == y),
    decreases list.len(),
{
    let r = inserted(list, x);
    if list.len() == 0 {
        assert(r[0] == x);
    } else if list.last() < x {
        assert forall|y: i64| #[trigger] r.contains(y) == (list.contains(y) || x == y) by {
            crate::converter::optimizer::facts::lemma_push_contains(list, x, y);
        }
    } else if list.last() == x {
        assert(list[list.len() - 1] == x);
    } else {
        let front = list.drop_last();
        assert(increasing(front)) by {
            assert forall|i: int, j: int| 0 <= i < j < front.len() implies #[trigger] front[i]
                < #[trigger] front[j] by {
                assert(list[i] < list[j]);
            }
        }
        lemma_inserted(front, x);
        let inner = inserted(front, x);
        assert forall|i: int| 0 <= i < inner.len() implies #[trigger] inner[i] < list.last() by {
            assert(inner.contains(inner[i]));
            if front.contains(inner[i]) {
                let k = choose|k: int| 0 <= k < front.len() && front[k] == inner[i];
                assert(list[k] < list[list.len() - 1]);
            }
        }
        assert forall|i: int, j: int| 0 <= i < j < r.len() implies #[trigger] r[i] < #[trigger] r[j] by {
            if j < inner.len() {
                assert(inner[i] < inner[j]);
            }
        }
        assert(front.push(list.last()) =~= list);
        assert forall|y: i64| #[trigger] r.contains(y) == (list.contains(y) || x == y) by {
            crate::converter::optimizer::facts::lemma_push_contains(inner, list.last(), y);
            crate::converter::optimizer::facts::lemma_push_contains(front, list.last(), y);
        }
    }
}

/// The ordered list increases strictly and holds exactly the numbers of the list.
pub proof fn lemma_ordered(list: Seq<i64>, k: nat)
    requires
        k <= list.len(),
    ensures
        increasing(ordered(list, k)),
        forall|y: i64| #[trigger] ordered(list, k).contains(y) == list.take(k as int).contains(y),
    decreases k,
{
    if k > 0 {
        lemma_ordered(list, (k - 1) as nat);
        lemma_inserted(ordered(list, (k - 1) as nat), list[k - 1]);
        assert(list.take(k as int) =~= list.take(k - 1).push(list[k - 1]));
        assert forall|y: i64| #[trigger] ordered(list, k).contains(y) == list.take(
            k as int,
        ).contains(y) by {
            crate::converter::optimizer::facts::lemma_push_contains(
                list.take(k - 1),
                list[k - 1],
                y,
            );
        }
    }
}

/// Inserts a number into a strictly increasing list.
pub fn insert_ordered(list: &mut Vec<i64>, x: i64)
    ensures
        final(list)@ == inserted(old(list)@, x),
{
    let mut i: usize = list.len();
    let ghost all = list@;
    proof {
        assert(all.take(i as int) =~= all);
        assert(inserted(all, x) =~= inserted(all.take(i as int), x) + all.skip(i as int));
    }
    while i > 0 && list[i - 1] > x
        invariant
            i <= list.len(),
            list@ == all,
            inserted(all, x) == inserted(all.take(i as int), x) + all.skip(i as int),
        decreases i,
    {
        proof {
            let front = all.take(i as int);
            assert(front.drop_last() =~= all.take(i - 1));
            assert(front.last() == all[i - 1]);
            assert(inserted(all.take(i - 1), x).push(all[i - 1]) + all.skip(i as int) =~= inserted(
                all.take(i - 1),
                x,
            ) + all.skip(i - 1));
        }
        i = i - 1;
    }
    if i > 0 && list[i - 1] == x {
        proof {
            assert(all.take(i as int) + all.skip(i as int) =~= all);
            assert(all.take(i as int).last() == x);
        }
        return ;
    }
    list.insert(i, x);
    proof {
        let front = all.take(i as int);
        if i > 0 {
            assert(front.last() < x);
        }
        assert(inserted(front, x) =~= front.push(x));
        assert(list@ =~= front.push(x) + all.skip(i as int));
    }
}

/// Puts numbers in increasing order, each once.
pub fn order(list: &Vec<i64>) -> (r: Vec<i64>)
    ensures
        r@ == ordered(list@, list@.len()),
{
    let mut out: Vec<i64> = Vec::new();
    let mut i: usize = 0;
    while i < list.len()
        invariant
            i <= list.len(),
            out@ == ordered(list@, i as nat),
        decreases list.len() - i,
    {
        insert_ordered(&mut out, list[i]);
        i = i + 1;
    }
    out
}

/// The axes counted from the front.
pub open spec fn axes_from_front(axes: Seq<i64>, rank: i64) -> Seq<i64> {
    Seq::new(
        axes.len(),
        |i: int|
            if axes[i] < 0 {
                add_wrapped(axes[i], rank)
            } else {
                axes[i]
            },
    )
}

fn count_from_front(axes: &Vec<i64>, rank: i64) -> (r: Vec<i64>)
    ensures
        r@ == axes_from_front(axes@, rank),
{
    let mut out: Vec<i64> = Vec::new();
    let mut i: usize = 0;
    while i < axes.len()
        invariant
            i <= axes.len(),
            out@ =~= axes_from_front(axes@, rank).take(i as int),
        decreases axes.len() - i,
    {
        let axis: i64 = axes[i];
        if axis < 0 {
            out.push(axis.wrapping_add(rank));
        } else {
            out.push(axis);
        }
        i = i + 1;
    }
    proof {
        assert(axes_from_front(axes@, rank).take(i as int) =~= axes_from_front(axes@, rank));
    }
    out
}

// ---- squeeze ----

/// The axes among the first `k` that have a size of one or none that is known. Axes outside the
/// shape are left out.
pub open spec fn unit_axes(axes: Seq<i64>, dims: Seq<i64>, k: nat) -> Seq<i64>
    decreases k,
{
    if k == 0 {
        Seq::empty()
    } else {
        let front = unit_axes(axes, dims, (k - 1) as nat);
        let axis = axes[k - 1];
        if 0 <= axis < dims.len() && (dims[axis as int] == 1 || dims[axis as int] < 0) {
            front.push(axis)
        } else {
            front
        }
    }
}

/// The axes that a squeeze really drops: in order, within the shape, of size one or unknown, and
/// none where the output is known to have more axes.
pub open spec fn dropped_axes(axes: Seq<i64>, dims: Seq<i64>, out_dims: Seq<i64>) -> Seq<i64> {
    if dims.len() == 0 {
        axes
    } else if out_dims.len() > 0 && out_dims.len() >= dims.len() {
        Seq::empty()
    } else {
        let front = axes_from_front(axes, dims.len() as i64);
        let list = ordered(front, front.len());
        unit_axes(list, dims, list.len())
    }
}

/// The axes of a squeeze: those of a constant input, or else those of the attribute.
pub open spec fn axes_given(m: Meta, op: JsonView, ins: Seq<i64>) -> Option<Seq<i64>> {
    if ins.len() > 1 && const_ints(m, ins[1]) is Some {
        const_ints(m, ins[1])
    } else {
        attr_axes(op)
    }
}

/// The lowering of `squeeze`.
pub open spec fn squeeze_lowered(m: Meta, g: Graph, op: JsonView) -> Step {
    let ins = input_ids(op);
    match out_id(op) {
        Err(e) => failed(g, e),
        Ok(id) => if ins.len() == 0 {
            failed(g, message("squeeze missing inputs"@))
        } else {
            match (tensor_name(m, ins[0]), tensor_name(m, id)) {
                (Err(e), _) => failed(g, e),
                (_, Err(e)) => failed(g, e),
                (Ok(input), Ok(output)) => {
                    let dims = shape_or_empty(m, ins[0]);
                    let out_dims = shape_or_empty(m, id);
                    if dims.len() > 0 && dims.len() == out_dims.len() {
                        done(unary_added(g, "Identity"@, input, output))
                    } else {
                        match axes_given(m, op, ins) {
                            Some(axes) => {
                                let list = dropped_axes(axes, dims, out_dims);
                                if list.len() == 0 {
                                    done(unary_added(g, "Identity"@, input, output))
                                } else {
                                    done(
                                        squeeze_added(
                                            g,
                                            m.target_opset,
                                            input,
                                            output,
                                            Some(list),
                                            Some(tagged("squeeze_axes_"@, id)),
                                        ),
                                    )
                                }
                            },
                            None => if ins.len() > 1 {
                                if m.target_opset < 13 {
                                    failed(
                                        g,
                                        message(
                                            "squeeze with dynamic axes requires opset >= 13"@,
                                        ),
                                    )
                                } else {
                                    match tensor_name(m, ins[1]) {
                                        Err(e) => failed(g, e),
                                        Ok(axes) => done(
                                            binary_added(g, "Squeeze"@, input, axes, output),
                                        ),
                                    }
                                }
                            } else {
                                done(
                                    squeeze_added(g, m.target_opset, input, output, None, None),
                                )
                            },
                        }
                    }
                },
            }
        },
    }
}

fn keep_unit_axes(axes: &Vec<i64>, dims: &Vec<i64>) -> (r: Vec<i64>)
    ensures
        r@ == unit_axes(axes@, dims@, axes@.len()),
{
    let mut out: Vec<i64> = Vec::new();
    let mut i: usize = 0;
    while i < axes.len()
        invariant
            i <= axes.len(),
            out@ == unit_axes(axes@, dims@, i as nat),
        decreases axes.len() - i,
    {
        let axis: i64 = axes[i];
        if axis >= 0 && (axis as u64) < dims.len() as u64 {
            let dim: i64 = dims[axis as usize];
            if dim == 1 || dim < 0 {
                out.push(axis);
            }
        }
        i = i + 1;
    }
    out
}

fn find_dropped_axes(axes: Vec<i64>, dims: &Vec<i64>, out_dims: &Vec<i64>) -> (r: Vec<i64>)
    ensures
        r@ == dropped_axes(axes@, dims@, out_dims@),
{
    if dims.len() == 0 {
        return axes;
    }
    if out_dims.len() > 0 && out_dims.len() >= dims.len() {
        return Vec::new();
    }
    let front = count_from_front(&axes, dims.len() as i64);
    let list = order(&front);
    keep_unit_axes(&list, dims)
}

impl Converter {
    fn read_axes(&self, op: &Json, inputs: &Vec<i64>) -> (r: Option<Vec<i64>>)
        ensures
            ints_option(r) == axes_given(self.meta(), op@, inputs@),
    {
        if inputs.len() > 1 {
            match self.constant_ints(inputs[1]) {
                Some(list) => {
                    return Some(list);
                },
                None => {},
            }
        }
        read_attr_axes(op)
    }

    /// Lowers `squeeze`.
    pub fn op_squeeze(&mut self, op: &Json) -> (r: Result<(), Error>)
        ensures
            final(self).meta() == old(self).meta(),
            (final(self).onnx_graph@, outcome(r)) == squeeze_lowered(
                old(self).meta(),
                old(self).onnx_graph@,
                op@,
            ),
    {
        let id: i64 = op_out_id(op)?;
        let inputs = op_input_ids(op);
        if inputs.len() == 0 {
            return Err(Error::text("squeeze missing inputs"));
        }
        let input = self.get_tensor_name(inputs[0])?;
        let output = self.get_tensor_name(id)?;
        let dims = self.dims_or_empty(inputs[0]);
        let out_dims = self.dims_or_empty(id);
        if dims.len() > 0 && dims.len() == out_dims.len() {
            self.add_unary_node("Identity", input, output);
            return Ok(());
        }
        match self.read_axes(op, &inputs) {
            Some(axes) => {
                let list = find_dropped_axes(axes, &dims, &out_dims);
                if list.len() == 0 {
                    self.add_unary_node("Identity", input, output);
                } else {
                    self.add_squeeze_node(
                        input,
                        output,
                        Some(&list),
                        Some(tag("squeeze_axes_", id)),
                    );
                }
            },
            None => {
                if inputs.len() > 1 {
                    if self.target_opset < 13 {
                        return Err(
                            Error::text("squeeze with dynamic axes requires opset >= 13"),
                        );
                    }
                    let axes = self.get_tensor_name(inputs[1])?;
                    self.add_binary_node("Squeeze", input, axes, output);
                } else {
                    self.add_squeeze_node(input, output, None, None);
                }
            },
        }
        Ok(())
    }
}

// ---- unsqueeze ----

/// The rank of an unsqueezed tensor: that of the output where it is known, or else one more than
/// the input's.
pub open spec fn unsqueezed_rank(m: Meta, input: i64, id: i64) -> i64 {
    match map_get(m.tensor_shapes, id) {
        Some(dims) => dims.len() as i64,
        None => add_wrapped(shape_or_empty(m, input).len() as i64, 1),
    }
}

/// The lowering of `unsqueeze`.
pub open spec fn unsqueeze_lowered(m: Meta, g: Graph, op: JsonView) -> Step {
    let ins = input_ids(op);
    match out_id(op) {
        Err(e) => failed(g, e),
        Ok(id) => if ins.len() == 0 {
            failed(g, message("unsqueeze missing inputs"@))
        } else {
            match (tensor_name(m, ins[0]), tensor_name(m, id)) {
                (Err(e), _) => failed(g, e),
                (_, Err(e)) => failed(g, e),
                (Ok(input), Ok(output)) => match axes_given(m, op, ins) {
                    Some(axes) => {
                        let front = axes_from_front(axes, unsqueezed_rank(m, ins[0], id));
                        done(
                            unsqueeze_added(
                                g,
                                m.target_opset,
                                input,
                                output,
                                ordered(front, front.len()),
                                tagged("unsqueeze_axes_"@, id),
                            ),
                        )
                    },
                    None => if ins.len() > 1 {
                        if m.target_opset < 13 {
                            failed(
                                g,
                                message("unsqueeze with dynamic axes requires opset >= 13"@),
                            )
                        } else {
                            match tensor_name(m, ins[1]) {
                                Err(e) => failed(g, e),
                                Ok(axes) => done(
                                    binary_added(g, "Unsqueeze"@, input, axes, output),
                                ),
                            }
                        }
                    } else {
                        failed(g, message("unsqueeze missing axes"@))
                    },
                },
            }
        },
    }
}

impl Converter {
    /// Lowers `unsqueeze`.
    pub fn op_unsqueeze(&mut self, op: &Json) -> (r: Result<(), Error>)
        ensures
            final(self).meta() == old(self).meta(),
            (final(self).onnx_graph@, outcome(r)) == unsqueeze_lowered(
                old(self).meta(),
                old(self).onnx_graph@,
                op@,
            ),
    {
        let id: i64 = op_out_id(op)?;
        let inputs = op_input_ids(op);
        if inputs.len() == 0 {
            return Err(Error::text("unsqueeze missing inputs"));
        }
        let input = self.get_tensor_name(inputs[0])?;
        let output = self.get_tensor_name(id)?;
        let rank: i64 = match self.state.tensor_shapes.get(id) {
            Some(dims) => dims.len() as i64,
            None => (self.dims_or_empty(inputs[0]).len() as i64).wrapping_add(1),
        };
        match self.read_axes(op, &inputs) {
            Some(axes) => {
                let list = order(&count_from_front(&axes, rank));
                self.add_unsqueeze_node(input, output, &list, tag("unsqueeze_axes_", id));
            },
            None => {
                if inputs.len() > 1 {
                    if self.target_opset < 13 {
                        return Err(
                            Error::text("unsqueeze with dynamic axes requires opset >= 13"),
                        );
                    }
                    let axes = self.get_tensor_name(inputs[1])?;
                    self.add_binary_node("Unsqueeze", input, axes, output);
                } else {
                    return Err(Error::text("unsqueeze missing axes"));
                }
            },
        }
        Ok(())
    }
}

// ---- flatten ----

/// The first axis that a flatten joins, counted from the front where the rank is known.
pub open spec fn flatten_start(m: Meta, op: JsonView, input: i64) -> i64 {
    let raw = or_default(attr_int_of(op, "start_axis"@), 1);
    match map_get(m.tensor_shapes, input) {
        Some(dims) => if raw < 0 {
            add_wrapped(raw, dims.len() as i64)
        } else {
            raw
        },
        None => raw,
    }
}

/// A flatten of axes `start` to `stop` whose shape is computed while the graph runs.
pub open spec fn flatten_at_run(m: Meta, g: Graph, id: i64, input: Seq<char>, start: i64, stop: i64, rank: i64) -> Step {
    let shape = tagged("flatten_input_shape_"@, id);
    let before = tagged("flatten_prefix_"@, id);
    let middle = tagged("flatten_middle_"@, id);
    let size = tagged("flatten_prod_"@, id);
    let behind = tagged("flatten_suffix_"@, id);
    let next = add_wrapped(stop, 1);
    let g = unary_added(g, "Shape"@, input, shape);
    let first = if start > 0 {
        shape_part(m, g, shape, before, 0, start)
    } else {
        done(g)
    };
    match first {
        (g, Err(e)) => failed(g, e),
        (g, Ok(_)) => match shape_part(m, g, shape, middle, start, next) {
            (g, Err(e)) => failed(g, e),
            (g, Ok(_)) => {
                let g = reduce_added(
                    g,
                    m.target_opset,
                    "ReduceProd"@,
                    middle,
                    size,
                    Some(seq![0i64]),
                    1,
                    size,
                );
                let last = if next < rank {
                    shape_part(m, g, shape, behind, next, rank)
                } else {
                    done(g)
                };
                match last {
                    (g, Err(e)) => failed(g, e),
                    (g, Ok(_)) => {
                        let parts = (if start > 0 {
                            seq![before]
                        } else {
                            Seq::empty()
                        }).push(size) + (if next < rank {
                            seq![behind]
                        } else {
                            Seq::empty()
                        });
                        let (g, target) = joined(g, parts, tagged("flatten_shape_"@, id));
                        match tensor_name(m, id) {
                            Err(e) => failed(g, e),
                            Ok(output) => done(
                                binary_added(g, "Reshape"@, input, target, output),
                            ),
                        }
                    },
                }
            },
        },
    }
}

/// So many zeros and then -1: the sizes that keep the first axes and join the others.
pub open spec fn zeros_then_rest(count: i64) -> Seq<i64> {
    Seq::new(
        if count > 0 {
            count as nat
        } else {
            0
        },
        |i: int| 0i64,
    ).push(-1i64)
}

/// A flatten to a shape that is known beforehand.
pub open spec fn flatten_fixed(m: Meta, g: Graph, id: i64, input: Seq<char>, start: i64, sizes: Seq<i64>) -> Step {
    let name = tagged("flatten_shape_"@, id);
    let g = if sizes.len() > 0 {
        ints_added(g, name, seq![sizes.len() as i64], sizes)
    } else {
        ints_added(g, name, seq![add_wrapped(start, 1)], zeros_then_rest(start))
    };
    match tensor_name(m, id) {
        Err(e) => failed(g, e),
        Ok(output) => done(binary_added(g, "Reshape"@, input, name, output)),
    }
}

/// The lowering of `flatten`.
pub open spec fn flatten_lowered(m: Meta, g: Graph, op: JsonView) -> Step {
    let ins = input_ids(op);
    match out_id(op) {
        Err(e) => failed(g, e),
        Ok(id) => if ins.len() == 0 {
            failed(g, message("flatten missing inputs"@))
        } else {
            match tensor_name(m, ins[0]) {
                Err(e) => failed(g, e),
                Ok(input) => {
                    let start = flatten_start(m, op, ins[0]);
                    let stop = or_default(attr_int_of(op, "stop_axis"@), -1i64);
                    let sizes = output_sizes(op);
                    if stop != -1 && unknowns(sizes) > 1 {
                        match map_get(m.tensor_shapes, ins[0]) {
                            None => failed(
                                g,
                                message("flatten: missing input rank metadata"@),
                            ),
                            Some(dims) => {
                                let rank = dims.len() as i64;
                                let last = if stop < 0 {
                                    add_wrapped(stop, rank)
                                } else {
                                    stop
                                };
                                if start < 0 || last < start || last >= rank {
                                    failed(
                                        g,
                                        message(
                                            "flatten: invalid axes start_axis="@ + dec(
                                                start as int,
                                            ) + " stop_axis="@ + dec(last as int) + " for rank "@
                                                + dec(rank as int),
                                        ),
                                    )
                                } else {
                                    flatten_at_run(m, g, id, input, start, last, rank)
                                }
                            },
                        }
                    } else if sizes.len() == 0 && stop != -1 {
                        failed(
                            g,
                            message(
                                "flatten with explicit stop_axis="@ + dec(stop as int)
                                    + " is missing output shape metadata"@,
                            ),
                        )
                    } else {
                        flatten_fixed(m, g, id, input, start, sizes)
                    }
                },
            }
        },
    }
}

/// How many numbers are -1.
pub fn count_unknown(dims: &Vec<i64>) -> (r: usize)
    ensures
        r == unknowns(dims@),
{
    let mut n: usize = 0;
    let mut i: usize = 0;
    while i < dims.len()
        invariant
            i <= dims.len(),
            n <= i,
            n == unknowns(dims@.take(i as int)),
        decreases dims.len() - i,
    {
        proof {
            assert(dims@.take(i + 1).drop_last() =~= dims@.take(i as int));
            assert(dims@.take(i + 1).last() == dims@[i as int]);
        }
        if dims[i] == -1 {
            n = n + 1;
        }
        i = i + 1;
    }
    proof {
        assert(dims@.take(i as int) =~= dims@);
    }
    n
}

fn make_zeros_then_rest(count: i64) -> (r: Vec<i64>)
    ensures
        r@ == zeros_then_rest(count),
{
    let mut list: Vec<i64> = Vec::new();
    let mut i: i64 = 0;
    while i < count
        invariant
            0 <= i,
            i <= count || i == 0,
            list@ =~= Seq::new(i as nat, |k: int| 0i64),
        decreases count - i,
    {
        list.push(0);
        i = i + 1;
    }
    list.push(-1);
    proof {
        assert(list@ =~= zeros_then_rest(count));
    }
    list
}

impl Converter {
    fn flatten_while_running(
        &mut self,
        id: i64,
        input: String,
        start: i64,
        stop: i64,
        rank: i64,
    ) -> (r: Result<(), Error>)
        ensures
            final(self).meta() == old(self).meta(),
            (final(self).onnx_graph@, outcome(r)) == flatten_at_run(
                old(self).meta(),
                old(self).onnx_graph@,
                id,
                input@,
                start,
                stop,
                rank,
            ),
    {
        let shape = tag("flatten_input_shape_", id);
        let next: i64 = stop.wrapping_add(1);
        self.add_unary_node("Shape", input.clone(), shape.clone());
        let mut parts: Vec<String> = Vec::new();
        proof {
            assert(names(parts@) =~= Seq::empty());
        }
        if start > 0 {
            self.add_shape_part(shape.clone(), tag("flatten_prefix_", id), 0, start)?;
            push_name(&mut parts, tag("flatten_prefix_", id));
            proof {
                assert(names(parts@) =~= seq![tagged("flatten_prefix_"@, id)]);
            }
        }
        self.add_shape_part(shape.clone(), tag("flatten_middle_", id), start, next)?;
        self.add_reduce_node(
            "ReduceProd",
            tag("flatten_middle_", id),
            tag("flatten_prod_", id),
            Some(&ints1(0)),
            1,
            tag("flatten_prod_", id).as_str(),
        );
        push_name(&mut parts, tag("flatten_prod_", id));
        let ghost front = names(parts@);
        if next < rank {
            self.add_shape_part(shape, tag("flatten_suffix_", id), next, rank)?;
            push_name(&mut parts, tag("flatten_suffix_", id));
            proof {
                assert(names(parts@) =~= front + seq![tagged("flatten_suffix_"@, id)]);
            }
        } else {
            proof {
                assert(names(parts@) =~= front + Seq::<Seq<char>>::empty());
            }
        }
        let target = self.join_parts(parts, tag("flatten_shape_", id));
        let output = self.get_tensor_name(id)?;
        self.add_binary_node("Reshape", input, target, output);
        Ok(())
    }

    fn flatten_to_fixed(&mut self, id: i64, input: String, start: i64, sizes: &Vec<i64>) -> (r: Result<
        (),
        Error,
    >)
        ensures
            final(self).meta() == old(self).meta(),
            (final(self).onnx_graph@, outcome(r)) == flatten_fixed(
                old(self).meta(),
                old(self).onnx_graph@,
                id,
                input@,
                start,
                sizes@,
            ),
    {
        let name = tag("flatten_shape_", id);
        if sizes.len() > 0 {
            self.push_i64_initializer(name.clone(), ints1(sizes.len() as i64), sizes);
        } else {
            self.push_i64_initializer(
                name.clone(),
                ints1(start.wrapping_add(1)),
                &make_zeros_then_rest(start),
            );
        }
        let output = self.get_tensor_name(id)?;
        self.add_binary_node("Reshape", input, name, output);
        Ok(())
    }

    /// Lowers `flatten`.
    pub fn op_flatten(&mut self, op: &Json) -> (r: Result<(), Error>)
        ensures
            final(self).meta() == old(self).meta(),
            (final(self).onnx_graph@, outcome(r)) == flatten_lowered(
                old(self).meta(),
                old(self).onnx_graph@,
                op@,
            ),
    {
        let id: i64 = op_out_id(op)?;
        let inputs = op_input_ids(op);
        if inputs.len() == 0 {
            return Err(Error::text("flatten missing inputs"));
        }
        let input = self.get_tensor_name(inputs[0])?;
        let known: Option<i64> = match self.state.tensor_shapes.get(inputs[0]) {
            Some(dims) => Some(dims.len() as i64),
            None => None,
        };
        let raw: i64 = attr_i64_or(op, "start_axis", 1);
        let stop: i64 = attr_i64_or(op, "stop_axis", -1);
        let start: i64 = match known {
            Some(rank) => if raw < 0 {
                raw.wrapping_add(rank)
            } else {
                raw
            },
            None => raw,
        };
        let sizes = read_output_sizes(op);
        if stop != -1 && count_unknown(&sizes) > 1 {
            let rank: i64 = match known {
                Some(rank) => rank,
                None => {
                    return Err(Error::text("flatten: missing input rank metadata"));
                },
            };
            let last: i64 = if stop < 0 {
                stop.wrapping_add(rank)
            } else {
                stop
            };
            if start < 0 || last < start || last >= rank {
                return Err(
                    Error::owned(
                        join6(
                            "flatten: invalid axes start_axis=",
                            int_text(start).as_str(),
                            " stop_axis=",
                            int_text(last).as_str(),
                            " for rank ",
                            int_text(rank).as_str(),
                        ),
                    ),
                );
            }
            return self.flatten_while_running(id, input, start, last, rank);
        }
        if sizes.len() == 0 && stop != -1 {
            return Err(
                Error::owned(
                    crate::text::join3(
                        "flatten with explicit stop_axis=",
                        int_text(stop).as_str(),
                        " is missing output shape metadata",
                    ),
                ),
            );
        }
        self.flatten_to_fixed(id, input, start, &sizes)
    }
}

// ---- stack, concat and split ----

/// The first `k` of the tensors to be stacked, each with a new axis.
pub open spec fn stacked_parts(m: Meta, g: Graph, id: i64, axis: i64, list: Seq<i64>, k: nat) -> (
    Graph,
    Result<Seq<Seq<char>>, ErrorView>,
)
    decreases k,
{
    if k == 0 {
        (g, Ok(Seq::empty()))
    } else {
        match stacked_parts(m, g, id, axis, list, (k - 1) as nat) {
            (g, Err(e)) => (g, Err(e)),
            (g, Ok(front)) => match tensor_name(m, list[k - 1]) {
                Err(e) => (g, Err(e)),
                Ok(name) => {
                    let wide = tagged2("stack_unsqueezed_"@, id, (k - 1) as i64);
                    (
                        unsqueeze_added(
                            g,
                            m.target_opset,
                            name,
                            wide,
                            seq![axis],
                            tagged2("stack_axes_"@, id, (k - 1) as i64),
                        ),
                        Ok(front.push(wide)),
                    )
                },
            },
        }
    }
}

proof fn lemma_stacked_err(m: Meta, g: Graph, id: i64, axis: i64, list: Seq<i64>, k: nat, n: nat)
    requires
        k <= n,
        stacked_parts(m, g, id, axis, list, k).1 is Err,
    ensures
        stacked_parts(m, g, id, axis, list, n) == stacked_parts(m, g, id, axis, list, k),
    decreases n,
{
    if k < n {
        lemma_stacked_err(m, g, id, axis, list, k, (n - 1) as nat);
    }
}

/// The list that an operator stacks.
pub open spec fn stack_list(op: JsonView) -> i64 {
    let ins = input_ids(op);
    if ins.len() > 0 {
        ins[0]
    } else {
        -1i64
    }
}

/// What is known after `stack`: the parts of the result.
pub open spec fn stack_noted(m: Meta, op: JsonView) -> Meta {
    match (out_id(op), map_get(m.combines, stack_list(op))) {
        (Ok(id), Some(list)) => Meta { stack_parts: m.stack_parts.insert(id, list), ..m },
        _ => m,
    }
}

/// The lowering of `stack`.
pub open spec fn stack_lowered(m: Meta, g: Graph, op: JsonView) -> Step {
    let axis = or_default(attr_int_of(op, "axis"@), 0);
    match out_id(op) {
        Err(e) => failed(g, e),
        Ok(id) => match map_get(m.combines, stack_list(op)) {
            None => failed(
                g,
                message(
                    "Combine list_id "@ + dec(stack_list(op) as int) + " not found for stack"@,
                ),
            ),
            Some(list) => match stacked_parts(m, g, id, axis, list, list.len()) {
                (g, Err(e)) => failed(g, e),
                (g, Ok(parts)) => match tensor_name(m, id) {
                    Err(e) => failed(g, e),
                    Ok(output) => done(concat_added(g, parts, output, axis)),
                },
            },
        },
    }
}

/// The lowering of `concat`.
pub open spec fn concat_lowered(m: Meta, g: Graph, op: JsonView) -> Step {
    let ins = input_ids(op);
    if ins.len() < 2 {
        failed(g, message("Concat op missing enough inputs"@))
    } else {
        match map_get(m.combines, ins[0]) {
            None => failed(
                g,
                message("Combine list_id "@ + dec(ins[0] as int) + " not found for concat"@),
            ),
            Some(list) => match (names_upto(m, list, list.len()), first_const(m, ins[1])) {
                (Err(e), _) => failed(g, e),
                (_, None) => failed(
                    g,
                    message("concat: missing axis constant for id "@ + dec(ins[1] as int)),
                ),
                (Ok(parts), Some(axis)) => match out_id(op) {
                    Err(e) => failed(g, e),
                    Ok(id) => match tensor_name(m, id) {
                        Err(e) => failed(g, e),
                        Ok(output) => done(concat_added(g, parts, output, to_i64(axis))),
                    },
                },
            },
        }
    }
}

/// The constant at a position of the inputs, rounded, or zero.
pub open spec fn axis_input(m: Meta, ins: Seq<i64>, at: int) -> i64 {
    if ins.len() > at {
        to_i64(or_default(first_const(m, ins[at]), ZERO))
    } else {
        to_i64(ZERO)
    }
}

/// The lowering of `split` and `split_with_num`.
pub open spec fn split_lowered(m: Meta, g: Graph, op_type: Seq<char>, op: JsonView) -> Step {
    let ins = input_ids(op);
    if ins.len() == 0 {
        failed(g, message("split op missing inputs"@))
    } else {
        match out_id(op) {
            Err(e) => failed(g, e),
            Ok(id) => match map_get(m.splits, id) {
                None => failed(
                    g,
                    message("split op missing 0.split metadata for "@ + dec(id as int)),
                ),
                Some(outs) => match (tensor_name(m, ins[0]), names_upto(m, outs, outs.len())) {
                    (Err(e), _) => failed(g, e),
                    (_, Err(e)) => failed(g, e),
                    (Ok(input), Ok(outputs)) => {
                        let sized = op_type == "1.split"@ && ins.len() > 1;
                        let sizes = if sized {
                            tensor_name(m, ins[1])
                        } else {
                            Ok(Seq::empty())
                        };
                        match sizes {
                            Err(e) => failed(g, e),
                            Ok(sizes) => {
                                let axis = axis_input(
                                    m,
                                    ins,
                                    if op_type == "1.split"@ {
                                        2
                                    } else {
                                        1
                                    },
                                );
                                let node = node_of(
                                    "Split"@,
                                    if sized {
                                        seq![input, sizes]
                                    } else {
                                        seq![input]
                                    },
                                    outputs,
                                ).with(int_attribute("axis"@, axis));
                                done(
                                    g.with_node(
                                        if m.target_opset >= 18 && !sized {
                                            node.with(
                                                int_attribute(
                                                    "num_outputs"@,
                                                    outputs.len() as i64,
                                                ),
                                            )
                                        } else {
                                            node
                                        },
                                    ),
                                )
                            },
                        }
                    },
                },
            },
        }
    }
}

impl Converter {
    fn list_stacked_parts(&mut self, id: i64, axis: i64, list: &Vec<i64>) -> (r: Result<
        Vec<String>,
        Error,
    >)
        ensures
            final(self).meta() == old(self).meta(),
            (final(self).onnx_graph@, names_result(r)) == stacked_parts(
                old(self).meta(),
                old(self).onnx_graph@,
                id,
                axis,
                list@,
                list@.len(),
            ),
    {
        let ghost m = self.meta();
        let ghost g = self.onnx_graph@;
        let mut parts: Vec<String> = Vec::new();
        let mut i: usize = 0;
        proof {
            assert(names(parts@) =~= Seq::empty());
        }
        while i < list.len()
            invariant
                i <= list.len(),
                self.meta() == m,
                m == old(self).meta(),
                g == old(self).onnx_graph@,
                (self.onnx_graph@, Ok::<Seq<Seq<char>>, ErrorView>(names(parts@)))
                    == stacked_parts(m, g, id, axis, list@, i as nat),
            decreases list.len() - i,
        {
            let name = match self.get_tensor_name(list[i]) {
                Ok(name) => name,
                Err(e) => {
                    proof {
                        lemma_stacked_err(m, g, id, axis, list@, (i + 1) as nat, list@.len());
                    }
                    return Err(e);
                },
            };
            let wide = tag2("stack_unsqueezed_", id, i as i64);
            self.add_unsqueeze_node(
                name,
                wide.clone(),
                &ints1(axis),
                tag2("stack_axes_", id, i as i64),
            );
            push_name(&mut parts, wide);
            i = i + 1;
        }
        Ok(parts)
    }

    /// Lowers `stack`.
    pub fn op_stack(&mut self, op: &Json) -> (r: Result<(), Error>)
        ensures
            final(self).meta() == stack_noted(old(self).meta(), op@),
            (final(self).onnx_graph@, outcome(r)) == stack_lowered(
                old(self).meta(),
                old(self).onnx_graph@,
                op@,
            ),
    {
        let ghost m = self.meta();
        let id: i64 = op_out_id(op)?;
        let axis: i64 = attr_i64_or(op, "axis", 0);
        let inputs = op_input_ids(op);
        let list_id: i64 = if inputs.len() > 0 {
            inputs[0]
        } else {
            -1
        };
        let list: Vec<i64> = match self.state.combines.get(list_id) {
            Some(list) => copy_list(list),
            None => {
                return Err(
                    Error::owned(
                        crate::text::join3(
                            "Combine list_id ",
                            int_text(list_id).as_str(),
                            " not found for stack",
                        ),
                    ),
                );
            },
        };
        self.state.stack_parts.insert(id, copy_list(&list));
        proof {
            lemma_stack_parts_apart(m, self.meta(), self.onnx_graph@, id, axis, list@, list@.len());
        }
        let parts = self.list_stacked_parts(id, axis, &list)?;
        let output = self.get_tensor_name(id)?;
        self.add_concat_node(parts, output, axis);
        Ok(())
    }

    /// Lowers `concat`.
    pub fn op_concat(&mut self, op: &Json) -> (r: Result<(), Error>)
        ensures
            final(self).meta() == old(self).meta(),
            (final(self).onnx_graph@, outcome(r)) == concat_lowered(
                old(self).meta(),
                old(self).onnx_graph@,
                op@,
            ),
    {
        let inputs = op_input_ids(op);
        if inputs.len() < 2 {
            return Err(Error::text("Concat op missing enough inputs"));
        }
        let list: Vec<i64> = match self.state.combines.get(inputs[0]) {
            Some(list) => copy_list(list),
            None => {
                return Err(
                    Error::owned(
                        crate::text::join3(
                            "Combine list_id ",
                            int_text(inputs[0]).as_str(),
                            " not found for concat",
                        ),
                    ),
                );
            },
        };
        let parts = self.first_names(&list, list.len())?;
        let axis: u64 = match self.first_constant(inputs[1]) {
            Some(axis) => axis,
            None => {
                return Err(
                    Error::owned(tag("concat: missing axis constant for id ", inputs[1])),
                );
            },
        };
        let id: i64 = op_out_id(op)?;
        let output = self.get_tensor_name(id)?;
        self.add_concat_node(parts, output, as_i64(axis));
        Ok(())
    }

    fn read_axis_input(&self, inputs: &Vec<i64>, at: usize) -> (r: i64)
        ensures
            r == axis_input(self.meta(), inputs@, at as int),
    {
        if inputs.len() > at {
            match self.first_constant(inputs[at]) {
                Some(axis) => as_i64(axis),
                None => as_i64(ZERO),
            }
        } else {
            as_i64(ZERO)
        }
    }

    /// Lowers `split` and `split_with_num`.
    pub fn op_split_family(&mut self, op_type: &str, op: &Json) -> (r: Result<(), Error>)
        ensures
            final(self).meta() == old(self).meta(),
            (final(self).onnx_graph@, outcome(r)) == split_lowered(
                old(self).meta(),
                old(self).onnx_graph@,
                op_type@,
                op@,
            ),
    {
        let inputs = op_input_ids(op);
        if inputs.len() == 0 {
            return Err(Error::text("split op missing inputs"));
        }
        let id: i64 = op_out_id(op)?;
        let outs: Vec<i64> = match self.state.splits.get(id) {
            Some(outs) => copy_list(outs),
            None => {
                return Err(Error::owned(tag("split op missing 0.split metadata for ", id)));
            },
        };
        let input = self.get_tensor_name(inputs[0])?;
        let outputs = self.first_names(&outs, outs.len())?;
        let split = same(op_type, "1.split");
        let sized = split && inputs.len() > 1;
        let list = if sized {
            list2(input, self.get_tensor_name(inputs[1])?)
        } else {
            list1(input)
        };
        let axis: i64 = self.read_axis_input(
            &inputs,
            if split {
                2
            } else {
                1
            },
        );
        let count: i64 = outputs.len() as i64;
        let mut node = NodeProto::new("Split", list, outputs).with(attr_int("axis", axis));
        if self.target_opset >= 18 && !sized {
            node = node.with(attr_int("num_outputs", count));
        }
        self.add_node(node);
        Ok(())
    }
}

/// Noting the parts of a stack does not change how it is lowered.
proof fn lemma_stack_parts_apart(
    m: Meta,
    n: Meta,
    g: Graph,
    id: i64,
    axis: i64,
    list: Seq<i64>,
    k: nat,
)
    requires
        n == (Meta { stack_parts: n.stack_parts, ..m }),
    ensures
        stacked_parts(m, g, id, axis, list, k) == stacked_parts(n, g, id, axis, list, k),
    decreases k,
{
    if k > 0 {
        lemma_stack_parts_apart(m, n, g, id, axis, list, (k - 1) as nat);
    }
}

} // verus!
