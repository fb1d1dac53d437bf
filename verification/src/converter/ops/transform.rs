//! Operators that reverse, accumulate or combine tensors.

use crate::converter::emit::{
    binary_added, concat_added, done, failed, gather_added, unary_added, unsqueeze_added,
    vector_added, Step,
};
use crate::converter::ops::common::{names_result, names_upto, NameStep};
use crate::converter::ops::math::{operands, read_operands};
use crate::converter::ops::pad::front_axis;
use crate::converter::ops::reduce::{as_bit, bit};
use crate::converter::optimizer::options::map_get;
use crate::converter::state::{name_result, opset_checked, tensor_name, Converter, Meta};
use crate::error::{message, outcome, Error, ErrorView};
use crate::helper::{
    attr_bool_of, attr_bool_or, attr_chars_of, attr_i64s, attr_ints_of, attr_text, collect_sizes,
    or_default, read_type_parts, sizes_listed, type_parts,
};
use crate::json::{Json, JsonView};
use crate::onnx::{attr_int, attr_str, int_attribute, node_of, str_attribute, Graph, NodeProto};
use crate::text::{
    dec, ints0, ints1, join5, list1, names, push_name, size_text, tag, tag2, tagged, tagged2,
};
use vstd::prelude::*;

verus! {

/// The sizes that an operator declares for its first output, of which one that is no integer is
/// unknown.
pub open spec fn output_dims(op: JsonView) -> Option<Seq<i64>> {
    match op.field_items("O"@) {
        Some(outs) => if outs.len() > 0 {
            match type_parts(outs[0]) {
                Some(parts) => if parts.len() > 1 {
                    match parts[1].items() {
                        Some(dims) => Some(sizes_listed(dims)),
                        None => None,
                    }
                } else {
                    None
                },
                None => None,
            }
        } else {
            None
        },
        None => None,
    }
}

/// The sizes of the input of `flip`, which are also those of its output.
pub open spec fn flip_dims(m: Meta, op: JsonView, input: i64) -> Seq<i64> {
    match map_get(m.tensor_shapes, input) {
        Some(dims) => dims,
        None => or_default(output_dims(op), Seq::empty()),
    }
}

/// The axes to reverse, counted from the front; the first axis where none is given.
pub open spec fn flip_axes(op: JsonView, rank: nat) -> Seq<int> {
    let axes = or_default(attr_ints_of(op, "axis"@), Seq::empty());
    if axes.len() == 0 {
        seq![0int]
    } else {
        Seq::new(axes.len(), |i: int| front_axis(axes[i], rank))
    }
}

/// The positions of an axis from the last to the first.
pub open spec fn descending(count: int) -> Seq<i64> {
    Seq::new(count as nat, |i: int| (count - 1 - i) as i64)
}

/// The reversal of one axis.
#[verifier::opaque]
pub open spec fn axis_flipped(
    m: Meta,
    g: Graph,
    id: i64,
    current: Seq<char>,
    dims: Seq<i64>,
    axis: int,
    index: nat,
    last: bool,
) -> NameStep {
    if axis < 0 || axis >= dims.len() || dims[axis] <= 0 {
        (g, Err(message("flip requires a static positive axis length"@)))
    } else {
        let indices = tagged2("flip_indices_"@, id, index as i64);
        let g = vector_added(g, indices, descending(dims[axis] as int));
        let named = if last {
            tensor_name(m, id)
        } else {
            Ok(tagged2("flip_axis_"@, id, index as i64))
        };
        match named {
            Err(e) => (g, Err(e)),
            Ok(next) => (gather_added(g, current, indices, next, axis as i64), Ok(next)),
        }
    }
}

/// The reversals of the first `k` axes.
pub open spec fn axes_flipped(
    m: Meta,
    g: Graph,
    id: i64,
    start: Seq<char>,
    dims: Seq<i64>,
    axes: Seq<int>,
    k: nat,
) -> NameStep
    decreases k,
{
    if k == 0 {
        (g, Ok(start))
    } else {
        match axes_flipped(m, g, id, start, dims, axes, (k - 1) as nat) {
            (g, Err(e)) => (g, Err(e)),
            (g, Ok(current)) => axis_flipped(
                m,
                g,
                id,
                current,
                dims,
                axes[k - 1],
                (k - 1) as nat,
                k == axes.len(),
            ),
        }
    }
}

proof fn lemma_flip_err(
    m: Meta,
    g: Graph,
    id: i64,
    start: Seq<char>,
    dims: Seq<i64>,
    axes: Seq<int>,
    k: nat,
    n: nat,
)
    requires
        k <= n,
        axes_flipped(m, g, id, start, dims, axes, k).1 is Err,
    ensures
        axes_flipped(m, g, id, start, dims, axes, n) == axes_flipped(
            m,
            g,
            id,
            start,
            dims,
            axes,
            k,
        ),
    decreases n,
{
    if k < n {
        lemma_flip_err(m, g, id, start, dims, axes, k, (n - 1) as nat);
    }
}

/// The lowering of `flip`.
pub open spec fn flip_lowered(m: Meta, g: Graph, op: JsonView) -> Step {
    match operands(op, 1, "flip missing input"@) {
        Err(e) => failed(g, e),
        Ok((id, ins)) => {
            let dims = flip_dims(m, op, ins[0]);
            let axes = flip_axes(op, dims.len());
            match tensor_name(m, ins[0]) {
                Err(e) => failed(g, e),
                Ok(input) => match axes_flipped(m, g, id, input, dims, axes, axes.len()) {
                    (g, Err(e)) => failed(g, e),
                    (g, Ok(_)) => done(g),
                },
            }
        },
    }
}

/// The lowering of `cumsum`.
pub open spec fn cumsum_lowered(m: Meta, g: Graph, op: JsonView) -> Step {
    match opset_checked(m, 11, "cumsum"@) {
        Err(e) => failed(g, e),
        Ok(_) => if or_default(attr_bool_of(op, "flatten"@), false) {
            failed(g, message("cumsum with flatten=true is not supported"@))
        } else {
            match operands(op, 2, "cumsum missing inputs"@) {
                Err(e) => failed(g, e),
                Ok((id, ins)) => match (names_upto(m, ins, 2), tensor_name(m, id)) {
                    (Err(e), _) => failed(g, e),
                    (_, Err(e)) => failed(g, e),
                    (Ok(inputs), Ok(output)) => done(
                        g.with_node(
                            node_of("CumSum"@, inputs, seq![output]).with(
                                int_attribute(
                                    "exclusive"@,
                                    bit(or_default(attr_bool_of(op, "exclusive"@), false)),
                                ),
                            ).with(
                                int_attribute(
                                    "reverse"@,
                                    bit(or_default(attr_bool_of(op, "reverse"@), false)),
                                ),
                            ),
                        ),
                    ),
                },
            }
        },
    }
}

/// The names of the parts of a combined value, or of the value itself.
pub open spec fn part_values(m: Meta, id: i64) -> Result<Seq<Seq<char>>, ErrorView> {
    match map_get(m.combines, id) {
        Some(parts) => names_upto(m, parts, parts.len()),
        None => names_upto(m, seq![id], 1),
    }
}

/// The lowering of `einsum`.
pub open spec fn einsum_lowered(m: Meta, g: Graph, op: JsonView) -> Step {
    match opset_checked(m, 12, "einsum"@) {
        Err(e) => failed(g, e),
        Ok(_) => match operands(op, 1, "einsum missing inputs"@) {
            Err(e) => failed(g, e),
            Ok((id, ins)) => match part_values(m, ins[0]) {
                Err(e) => failed(g, e),
                Ok(inputs) => match attr_chars_of(op, "equation"@) {
                    None => failed(g, message("einsum missing equation"@)),
                    Some(equation) => match tensor_name(m, id) {
                        Err(e) => failed(g, e),
                        Ok(output) => done(
                            g.with_node(
                                node_of("Einsum"@, inputs, seq![output]).with(
                                    str_attribute("equation"@, equation),
                                ),
                            ),
                        ),
                    },
                },
            },
        },
    }
}

/// The graph with the shapes of the first `k` inputs of a grid.
pub open spec fn grid_shapes(m: Meta, g: Graph, id: i64, parts: Seq<i64>, k: nat) -> Step
    decreases k,
{
    if k == 0 {
        done(g)
    } else {
        match grid_shapes(m, g, id, parts, (k - 1) as nat) {
            (g, Err(e)) => failed(g, e),
            (g, Ok(_)) => match tensor_name(m, parts[k - 1]) {
                Err(e) => failed(g, e),
                Ok(input) => done(
                    unary_added(
                        g,
                        "Shape"@,
                        input,
                        tagged2("meshgrid_shape_part_"@, id, (k - 1) as i64),
                    ),
                ),
            },
        }
    }
}

/// The names of the shapes of the inputs of a grid.
pub open spec fn grid_shape_names(id: i64, count: nat) -> Seq<Seq<char>> {
    Seq::new(count, |i: int| tagged2("meshgrid_shape_part_"@, id, i as i64))
}

/// The axes of a grid but one.
pub open spec fn other_axes(rank: nat, axis: int) -> Seq<i64>
    decreases rank,
{
    if rank == 0 {
        Seq::empty()
    } else if rank - 1 == axis {
        other_axes((rank - 1) as nat, axis)
    } else {
        other_axes((rank - 1) as nat, axis).push((rank - 1) as i64)
    }
}

/// The graph in which the first `k` inputs of a grid are spread over its shape.
pub open spec fn grid_spread(m: Meta, g: Graph, id: i64, parts: Seq<i64>, outs: Seq<i64>, k: nat) -> Step
    decreases k,
{
    if k == 0 {
        done(g)
    } else {
        match grid_spread(m, g, id, parts, outs, (k - 1) as nat) {
            (g, Err(e)) => failed(g, e),
            (g, Ok(_)) => match tensor_name(m, parts[k - 1]) {
                Err(e) => failed(g, e),
                Ok(input) => {
                    let raised = tagged2("meshgrid_unsqueezed_"@, id, (k - 1) as i64);
                    let g = unsqueeze_added(
                        g,
                        m.target_opset,
                        input,
                        raised,
                        other_axes(parts.len(), k - 1),
                        tagged2("meshgrid_axes_"@, id, (k - 1) as i64),
                    );
                    match tensor_name(m, outs[k - 1]) {
                        Err(e) => failed(g, e),
                        Ok(output) => done(
                            binary_added(
                                g,
                                "Expand"@,
                                raised,
                                tagged("meshgrid_shape_"@, id),
                                output,
                            ),
                        ),
                    }
                },
            },
        }
    }
}

proof fn lemma_grid_shapes_err(m: Meta, g: Graph, id: i64, parts: Seq<i64>, k: nat, n: nat)
    requires
        k <= n,
        grid_shapes(m, g, id, parts, k).1 is Err,
    ensures
        grid_shapes(m, g, id, parts, n) == grid_shapes(m, g, id, parts, k),
    decreases n,
{
    if k < n {
        lemma_grid_shapes_err(m, g, id, parts, k, (n - 1) as nat);
    }
}

proof fn lemma_grid_spread_err(
    m: Meta,
    g: Graph,
    id: i64,
    parts: Seq<i64>,
    outs: Seq<i64>,
    k: nat,
    n: nat,
)
    requires
        k <= n,
        grid_spread(m, g, id, parts, outs, k).1 is Err,
    ensures
        grid_spread(m, g, id, parts, outs, n) == grid_spread(m, g, id, parts, outs, k),
    decreases n,
{
    if k < n {
        lemma_grid_spread_err(m, g, id, parts, outs, k, (n - 1) as nat);
    }
}

/// The lowering of `meshgrid`: every input gets the other axes, and is spread over the shape that
/// the inputs' sizes make up.
pub open spec fn meshgrid_lowered(m: Meta, g: Graph, op: JsonView) -> Step {
    match operands(op, 1, "meshgrid missing inputs"@) {
        Err(e) => failed(g, e),
        Ok((id, ins)) => match map_get(m.combines, ins[0]) {
            None => failed(
                g,
                message(tagged("meshgrid missing 0.combine metadata for "@, ins[0])),
            ),
            Some(parts) => match map_get(m.splits, id) {
                None => failed(
                    g,
                    message(tagged("meshgrid missing 0.split metadata for "@, id)),
                ),
                Some(outs) => if parts.len() != outs.len() {
                    failed(
                        g,
                        message(
                            "meshgrid expects matching input/output counts, got "@ + dec(
                                parts.len() as int,
                            ) + " inputs and "@ + dec(outs.len() as int) + " outputs"@,
                        ),
                    )
                } else if parts.len() == 0 {
                    failed(g, message("meshgrid requires at least one input"@))
                } else {
                    match grid_shapes(m, g, id, parts, parts.len()) {
                        (g, Err(e)) => failed(g, e),
                        (g, Ok(_)) => grid_spread(
                            m,
                            concat_added(
                                g,
                                grid_shape_names(id, parts.len()),
                                tagged("meshgrid_shape_"@, id),
                                0,
                            ),
                            id,
                            parts,
                            outs,
                            parts.len(),
                        ),
                    }
                },
            },
        },
    }
}

fn read_output_dims(op: &Json) -> (r: Option<Vec<i64>>)
    ensures
        match r {
            Some(dims) => output_dims(op@) == Some(dims@),
            None => output_dims(op@) is None,
        },
{
    match op.get_array("O") {
        Some(outs) => {
            if outs.len() == 0 {
                return None;
            }
            match read_type_parts(&outs[0]) {
                Some(parts) => {
                    if parts.len() < 2 {
                        return None;
                    }
                    match parts[1].as_array() {
                        Some(dims) => Some(collect_sizes(dims)),
                        None => None,
                    }
                },
                None => None,
            }
        },
        None => None,
    }
}

fn descend(count: i64) -> (r: Vec<i64>)
    requires
        count >= 0,
    ensures
        r@ == descending(count as int),
{
    let mut list: Vec<i64> = Vec::new();
    let mut next: i64 = count;
    while next > 0
        invariant
            0 <= next <= count,
            list@ =~= descending(count as int).take(count - next),
        decreases next,
    {
        next = next - 1;
        list.push(next);
    }
    proof {
        assert(descending(count as int).take(count as int) =~= descending(count as int));
    }
    list
}

/// Positions as integers of the machine.
pub open spec fn widened(list: Seq<i128>) -> Seq<int> {
    Seq::new(list.len(), |i: int| list[i] as int)
}

fn read_flip_axes(op: &Json, rank: usize) -> (r: Vec<i128>)
    ensures
        widened(r@) == flip_axes(op@, rank as nat),
{
    let axes: Vec<i64> = match attr_i64s(op, "axis") {
        Some(axes) => axes,
        None => ints0(),
    };
    let mut list: Vec<i128> = Vec::new();
    if axes.len() == 0 {
        list.push(0);
        proof {
            assert(widened(list@) =~= flip_axes(op@, rank as nat));
        }
        return list;
    }
    let mut i: usize = 0;
    while i < axes.len()
        invariant
            i <= axes.len(),
            axes@.len() > 0,
            axes@ == or_default(attr_ints_of(op@, "axis"@), Seq::empty()),
            list@.len() == i,
            forall|k: int| 0 <= k < i ==> #[trigger] list@[k] == front_axis(axes@[k], rank as nat),
        decreases axes.len() - i,
    {
        let axis: i128 = if axes[i] < 0 {
            axes[i] as i128 + rank as i128
        } else {
            axes[i] as i128
        };
        list.push(axis);
        i = i + 1;
    }
    proof {
        assert(widened(list@) =~= flip_axes(op@, rank as nat));
    }
    list
}

fn list_other_axes(rank: usize, axis: usize) -> (r: Vec<i64>)
    ensures
        r@ == other_axes(rank as nat, axis as int),
{
    let mut list: Vec<i64> = Vec::new();
    let mut i: usize = 0;
    while i < rank
        invariant
            i <= rank,
            list@ == other_axes(i as nat, axis as int),
        decreases rank - i,
    {
        if i != axis {
            list.push(i as i64);
        }
        i = i + 1;
    }
    list
}

fn name_grid_shapes(id: i64, count: usize) -> (r: Vec<String>)
    ensures
        names(r@) == grid_shape_names(id, count as nat),
{
    let mut list: Vec<String> = Vec::new();
    let mut i: usize = 0;
    proof {
        assert(names(list@) =~= grid_shape_names(id, 0));
    }
    while i < count
        invariant
            i <= count,
            names(list@) == grid_shape_names(id, i as nat),
        decreases count - i,
    {
        push_name(&mut list, tag2("meshgrid_shape_part_", id, i as i64));
        i = i + 1;
        proof {
            assert(names(list@) =~= grid_shape_names(id, i as nat));
        }
    }
    list
}

impl Converter {
    fn flip_axis(
        &mut self,
        id: i64,
        current: String,
        dims: &Vec<i64>,
        axis: i128,
        index: usize,
        last: bool,
    ) -> (r: Result<String, Error>)
        ensures
            final(self).meta() == old(self).meta(),
            (final(self).onnx_graph@, name_result(r)) == axis_flipped(
                old(self).meta(),
                old(self).onnx_graph@,
                id,
                current@,
                dims@,
                axis as int,
                index as nat,
                last,
            ),
    {
        proof {
            reveal(axis_flipped);
        }
        if axis < 0 || axis >= dims.len() as i128 || dims[axis as usize] <= 0 {
            return Err(Error::text("flip requires a static positive axis length"));
        }
        let indices = tag2("flip_indices_", id, index as i64);
        self.push_vector(indices.clone(), &descend(dims[axis as usize]));
        let next: String = if last {
            self.get_tensor_name(id)?
        } else {
            tag2("flip_axis_", id, index as i64)
        };
        self.add_gather_node(current, indices, next.clone(), axis as i64);
        Ok(next)
    }

    fn flip_all_axes(&mut self, id: i64, start: String, dims: &Vec<i64>, axes: &Vec<i128>) -> (r:
        Result<String, Error>)
        ensures
            final(self).meta() == old(self).meta(),
            (final(self).onnx_graph@, name_result(r)) == axes_flipped(
                old(self).meta(),
                old(self).onnx_graph@,
                id,
                start@,
                dims@,
                widened(axes@),
                axes@.len(),
            ),
    {
        let ghost m = self.meta();
        let ghost g = self.onnx_graph@;
        let ghost first = start@;
        let ghost wide = widened(axes@);
        let mut current = start;
        let mut i: usize = 0;
        while i < axes.len()
            invariant
                i <= axes.len(),
                first == start@,
                wide == widened(axes@),
                m == old(self).meta(),
                g == old(self).onnx_graph@,
                self.meta() == m,
                (self.onnx_graph@, Ok::<Seq<char>, ErrorView>(current@)) == axes_flipped(
                    m,
                    g,
                    id,
                    first,
                    dims@,
                    wide,
                    i as nat,
                ),
            decreases axes.len() - i,
        {
            match self.flip_axis(id, current, dims, axes[i], i, i + 1 == axes.len()) {
                Ok(next) => {
                    current = next;
                },
                Err(e) => {
                    proof {
                        lemma_flip_err(
                            m,
                            g,
                            id,
                            first,
                            dims@,
                            wide,
                            (i + 1) as nat,
                            axes@.len(),
                        );
                    }
                    return Err(e);
                },
            }
            i = i + 1;
        }
        Ok(current)
    }

    /// Lowers `flip`.
    pub fn op_flip(&mut self, op: &Json) -> (r: Result<(), Error>)
        ensures
            final(self).meta() == old(self).meta(),
            (final(self).onnx_graph@, outcome(r)) == flip_lowered(
                old(self).meta(),
                old(self).onnx_graph@,
                op@,
            ),
    {
        let (id, ins) = read_operands(op, 1, "flip missing input")?;
        let dims: Vec<i64> = match self.known_dims(ins[0]) {
            Some(dims) => dims,
            None => match read_output_dims(op) {
                Some(dims) => dims,
                None => ints0(),
            },
        };
        let axes = read_flip_axes(op, dims.len());
        let input = self.get_tensor_name(ins[0])?;
        let _ = self.flip_all_axes(id, input, &dims, &axes)?;
        Ok(())
    }

    /// Lowers `cumsum`.
    pub fn op_cumsum(&mut self, op: &Json) -> (r: Result<(), Error>)
        ensures
            final(self).meta() == old(self).meta(),
            (final(self).onnx_graph@, outcome(r)) == cumsum_lowered(
                old(self).meta(),
                old(self).onnx_graph@,
                op@,
            ),
    {
        self.require_opset(11, "cumsum")?;
        if attr_bool_or(op, "flatten", false) {
            return Err(Error::text("cumsum with flatten=true is not supported"));
        }
        let (id, ins) = read_operands(op, 2, "cumsum missing inputs")?;
        let inputs = self.first_names(&ins, 2)?;
        let output = self.get_tensor_name(id)?;
        self.add_node(
            NodeProto::new("CumSum", inputs, list1(output)).with(
                attr_int("exclusive", as_bit(attr_bool_or(op, "exclusive", false))),
            ).with(attr_int("reverse", as_bit(attr_bool_or(op, "reverse", false)))),
        );
        Ok(())
    }

    /// The names of the parts of a combined value, or of the value itself.
    pub fn names_of_parts(&self, id: i64) -> (r: Result<Vec<String>, Error>)
        ensures
            names_result(r) == part_values(self.meta(), id),
    {
        match self.state.combines.get(id) {
            Some(parts) => self.first_names(parts, parts.len()),
            None => self.first_names(&ints1(id), 1),
        }
    }

    /// Lowers `einsum`.
    pub fn op_einsum(&mut self, op: &Json) -> (r: Result<(), Error>)
        ensures
            final(self).meta() == old(self).meta(),
            (final(self).onnx_graph@, outcome(r)) == einsum_lowered(
                old(self).meta(),
                old(self).onnx_graph@,
                op@,
            ),
    {
        self.require_opset(12, "einsum")?;
        let (id, ins) = read_operands(op, 1, "einsum missing inputs")?;
        let inputs = self.names_of_parts(ins[0])?;
        let equation: &str = match attr_text(op, "equation") {
            Some(equation) => equation,
            None => {
                return Err(Error::text("einsum missing equation"));
            },
        };
        let output = self.get_tensor_name(id)?;
        self.add_node(
            NodeProto::new("Einsum", inputs, list1(output)).with(attr_str("equation", equation)),
        );
        Ok(())
    }

    fn add_grid_shapes(&mut self, id: i64, parts: &Vec<i64>) -> (r: Result<(), Error>)
        ensures
            final(self).meta() == old(self).meta(),
            (final(self).onnx_graph@, outcome(r)) == grid_shapes(
                old(self).meta(),
                old(self).onnx_graph@,
                id,
                parts@,
                parts@.len(),
            ),
    {
        let ghost m = self.meta();
        let ghost g = self.onnx_graph@;
        let mut i: usize = 0;
        while i < parts.len()
            invariant
                i <= parts.len(),
                m == old(self).meta(),
                g == old(self).onnx_graph@,
                self.meta() == m,
                (self.onnx_graph@, Ok::<(), ErrorView>(())) == grid_shapes(
                    m,
                    g,
                    id,
                    parts@,
                    i as nat,
                ),
            decreases parts.len() - i,
        {
            match self.get_tensor_name(parts[i]) {
                Ok(input) => {
                    self.add_unary_node(
                        "Shape",
                        input,
                        tag2("meshgrid_shape_part_", id, i as i64),
                    );
                },
                Err(e) => {
                    proof {
                        lemma_grid_shapes_err(m, g, id, parts@, (i + 1) as nat, parts@.len());
                    }
                    return Err(e);
                },
            }
            i = i + 1;
        }
        Ok(())
    }

    fn spread_part(&mut self, id: i64, part: i64, out: i64, axes: &Vec<i64>, index: i64) -> (r:
        Result<(), Error>)
        ensures
            final(self).meta() == old(self).meta(),
            ({
                let m = old(self).meta();
                let g = old(self).onnx_graph@;
                (final(self).onnx_graph@, outcome(r)) == (match tensor_name(m, part) {
                    Err(e) => failed(g, e),
                    Ok(input) => {
                        let raised = tagged2("meshgrid_unsqueezed_"@, id, index);
                        let g = unsqueeze_added(
                            g,
                            m.target_opset,
                            input,
                            raised,
                            axes@,
                            tagged2("meshgrid_axes_"@, id, index),
                        );
                        match tensor_name(m, out) {
                            Err(e) => failed(g, e),
                            Ok(output) => done(
                                binary_added(
                                    g,
                                    "Expand"@,
                                    raised,
                                    tagged("meshgrid_shape_"@, id),
                                    output,
                                ),
                            ),
                        }
                    },
                })
            }),
    {
        let input = self.get_tensor_name(part)?;
        let raised = tag2("meshgrid_unsqueezed_", id, index);
        self.add_unsqueeze_node(input, raised.clone(), axes, tag2("meshgrid_axes_", id, index));
        let output = self.get_tensor_name(out)?;
        self.add_binary_node("Expand", raised, tag("meshgrid_shape_", id), output);
        Ok(())
    }

    fn spread_grid(&mut self, id: i64, parts: &Vec<i64>, outs: &Vec<i64>) -> (r: Result<(), Error>)
        requires
            parts.len() == outs.len(),
        ensures
            final(self).meta() == old(self).meta(),
            (final(self).onnx_graph@, outcome(r)) == grid_spread(
                old(self).meta(),
                old(self).onnx_graph@,
                id,
                parts@,
                outs@,
                parts@.len(),
            ),
    {
        let ghost m = self.meta();
        let ghost g = self.onnx_graph@;
        let mut i: usize = 0;
        while i < parts.len()
            invariant
                i <= parts.len() == outs.len(),
                m == old(self).meta(),
                g == old(self).onnx_graph@,
                self.meta() == m,
                (self.onnx_graph@, Ok::<(), ErrorView>(())) == grid_spread(
                    m,
                    g,
                    id,
                    parts@,
                    outs@,
                    i as nat,
                ),
            decreases parts.len() - i,
        {
            let axes = list_other_axes(parts.len(), i);
            match self.spread_part(id, parts[i], outs[i], &axes, i as i64) {
                Ok(_) => {},
                Err(e) => {
                    proof {
                        lemma_grid_spread_err(
                            m,
                            g,
                            id,
                            parts@,
                            outs@,
                            (i + 1) as nat,
                            parts@.len(),
                        );
                    }
                    return Err(e);
                },
            }
            i = i + 1;
        }
        Ok(())
    }

    /// Lowers `meshgrid`.
    pub fn op_meshgrid(&mut self, op: &Json) -> (r: Result<(), Error>)
        ensures
            final(self).meta() == old(self).meta(),
            (final(self).onnx_graph@, outcome(r)) == meshgrid_lowered(
                old(self).meta(),
                old(self).onnx_graph@,
                op@,
            ),
    {
        let (id, ins) = read_operands(op, 1, "meshgrid missing inputs")?;
        let parts = match self.state.combines.get(ins[0]) {
            Some(parts) => crate::converter::ops::common::copy_list(parts),
            None => {
                return Err(
                    Error::owned(tag("meshgrid missing 0.combine metadata for ", ins[0])),
                );
            },
        };
        let outs = match self.state.splits.get(id) {
            Some(outs) => crate::converter::ops::common::copy_list(outs),
            None => {
                return Err(Error::owned(tag("meshgrid missing 0.split metadata for ", id)));
            },
        };
        if parts.len() != outs.len() {
            return Err(
                Error::owned(
                    join5(
                        "meshgrid expects matching input/output counts, got ",
                        size_text(parts.len()).as_str(),
                        " inputs and ",
                        size_text(outs.len()).as_str(),
                        " outputs",
                    ),
                ),
            );
        }
        if parts.len() == 0 {
            return Err(Error::text("meshgrid requires at least one input"));
        }
        self.add_grid_shapes(id, &parts)?;
        self.add_concat_node(
            name_grid_shapes(id, parts.len()),
            tag("meshgrid_shape_", id),
            0,
        );
        self.spread_grid(id, &parts, &outs)
    }
}

} // verus!
