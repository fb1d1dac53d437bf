//! Operators that write into a part of a tensor, and repetition of items.

use crate::converter::emit::{
    binary_added, concat_added, counted, done, failed, ints_added, numbers_added, scatter_added,
    slice_added, ternary_added, unary_added, unsqueeze_added, Step,
};
use crate::converter::ops::common::{
    add_wrapped, axis_from_front, const_ints, first_const, has_type, ints_ensured, scalar_ensured,
    shape_or_empty, some_not_positive,
};
use crate::converter::ops::common::{any_not_positive, same_list};
use crate::converter::optimizer::options::map_get;
use crate::converter::state::{dtype_if_known, opset_checked, tensor_name, Converter, Meta};
use crate::dtype::FLOAT;
use crate::error::{message, outcome, Error, ErrorView};
use crate::float::{as_i64, from_i64, from_int, to_i64, ONE, ZERO};
use crate::helper::{
    attr_array, attr_bool_of, attr_bool_or, attr_chars_of, attr_i64, attr_i64_or, attr_i64s,
    attr_int_of, attr_ints_of, attr_items_of, attr_text, input_ids, op_input_ids, op_out_id,
    or_default, out_id,
};
use crate::json::{Json, JsonView};
use crate::onnx::Graph;
use crate::text::{
    dec, int_text, ints1, ints2, join4, list2, names, push_name, same, size_text, tag, tag2, tagged,
    tagged2,
};
use vstd::arithmetic::div_mod::*;
use vstd::arithmetic::mul::*;
use vstd::prelude::*;

verus! {

// ---- index_put ----

/// A boolean mask of the data's own shape selects what is overwritten.
pub open spec fn masked_put(m: Meta, g: Graph, id: i64, data: i64, mask: i64, value: i64) -> Step {
    let shape = tagged("index_put_shape_"@, id);
    let expanded = tagged("index_put_value_"@, id);
    match tensor_name(m, data) {
        Err(e) => failed(g, e),
        Ok(data_name) => {
            let g = unary_added(g, "Shape"@, data_name, shape);
            match tensor_name(m, value) {
                Err(e) => failed(g, e),
                Ok(value_name) => {
                    let g = binary_added(g, "Expand"@, value_name, shape, expanded);
                    match (tensor_name(m, mask), tensor_name(m, id)) {
                        (Err(e), _) => failed(g, e),
                        (_, Err(e)) => failed(g, e),
                        (Ok(mask_name), Ok(output)) => done(
                            ternary_added(g, "Where"@, mask_name, expanded, data_name, output),
                        ),
                    }
                },
            }
        },
    }
}

/// A list of rows of a matrix is overwritten with one value.
pub open spec fn row_put(m: Meta, g: Graph, id: i64, data: i64, rows: i64, value: i64) -> Step {
    let indices = tagged("index_put_indices_unsqueezed_"@, id);
    let shape = tagged("index_put_shape_"@, id);
    let expanded = tagged("index_put_value_"@, id);
    match tensor_name(m, rows) {
        Err(e) => failed(g, e),
        Ok(rows_name) => {
            let g = unsqueeze_added(
                g,
                m.target_opset,
                rows_name,
                indices,
                seq![0i64],
                tagged("index_put_axis_"@, id),
            );
            let g = unary_added(g, "Shape"@, indices, shape);
            match tensor_name(m, value) {
                Err(e) => failed(g, e),
                Ok(value_name) => {
                    let g = binary_added(g, "Expand"@, value_name, shape, expanded);
                    match (tensor_name(m, data), tensor_name(m, id)) {
                        (Err(e), _) => failed(g, e),
                        (_, Err(e)) => failed(g, e),
                        (Ok(data_name), Ok(output)) => done(
                            scatter_added(g, data_name, indices, expanded, output, 0),
                        ),
                    }
                },
            }
        },
    }
}

/// Cells of a matrix, given by rows and columns, are overwritten.
pub open spec fn cell_put(m: Meta, g: Graph, id: i64, data: i64, rows: i64, columns: i64, value: i64) -> Step {
    let axis = tagged("index_put_stack_axis_"@, id);
    let row = tagged("index_put_row_unsqueezed_"@, id);
    let column = tagged("index_put_col_unsqueezed_"@, id);
    let indices = tagged("index_put_indices_"@, id);
    match tensor_name(m, rows) {
        Err(e) => failed(g, e),
        Ok(rows_name) => {
            let g = unsqueeze_added(g, m.target_opset, rows_name, row, seq![-1i64], axis);
            match tensor_name(m, columns) {
                Err(e) => failed(g, e),
                Ok(columns_name) => {
                    let g = unsqueeze_added(
                        g,
                        m.target_opset,
                        columns_name,
                        column,
                        seq![-1i64],
                        axis,
                    );
                    let g = concat_added(g, seq![row, column], indices, -1i64);
                    match (tensor_name(m, data), tensor_name(m, value), tensor_name(m, id)) {
                        (Err(e), _, _) => failed(g, e),
                        (_, Err(e), _) => failed(g, e),
                        (_, _, Err(e)) => failed(g, e),
                        (Ok(data_name), Ok(value_name), Ok(output)) => done(
                            ternary_added(
                                g,
                                "ScatterND"@,
                                data_name,
                                indices,
                                value_name,
                                output,
                            ),
                        ),
                    }
                },
            }
        },
    }
}

/// The lowering of `index_put`: by a mask of the data's shape, by rows with a single value, or by
/// rows and columns with values of the data's shape.
pub open spec fn index_put_lowered(m: Meta, g: Graph, op: JsonView) -> Step {
    let ins = input_ids(op);
    match (opset_checked(m, 11, "index_put"@), out_id(op)) {
        (Err(e), _) => failed(g, e),
        (_, Err(e)) => failed(g, e),
        (Ok(_), Ok(id)) => if ins.len() < 3 {
            failed(g, message("index_put missing inputs"@))
        } else {
            match map_get(m.combines, ins[1]) {
                None => failed(g, message("index_put expects combined mask input"@)),
                Some(masks) => {
                    let data_shape = shape_or_empty(m, ins[0]);
                    let value_shape = shape_or_empty(m, ins[2]);
                    if masks.len() == 1 && has_type(m, masks[0], "0.t_bool"@) && shape_or_empty(
                        m,
                        masks[0],
                    ) == data_shape {
                        masked_put(m, g, id, ins[0], masks[0], ins[2])
                    } else if masks.len() == 1 && shape_or_empty(m, masks[0]).len() == 1
                        && data_shape.len() == 2 && value_shape.len() <= 1 {
                        row_put(m, g, id, ins[0], masks[0], ins[2])
                    } else if masks.len() == 2 && data_shape.len() == 2 && value_shape
                        == data_shape {
                        cell_put(m, g, id, ins[0], masks[0], masks[1], ins[2])
                    } else {
                        failed(
                            g,
                            message(
                                "unsupported index_put pattern for output "@ + dec(id as int),
                            ),
                        )
                    }
                },
            }
        },
    }
}

impl Converter {
    fn put_masked(&mut self, id: i64, data: i64, mask: i64, value: i64) -> (r: Result<(), Error>)
        ensures
            final(self).meta() == old(self).meta(),
            (final(self).onnx_graph@, outcome(r)) == masked_put(
                old(self).meta(),
                old(self).onnx_graph@,
                id,
                data,
                mask,
                value,
            ),
    {
        let data_name = self.get_tensor_name(data)?;
        self.add_unary_node("Shape", data_name.clone(), tag("index_put_shape_", id));
        let value_name = self.get_tensor_name(value)?;
        self.add_binary_node(
            "Expand",
            value_name,
            tag("index_put_shape_", id),
            tag("index_put_value_", id),
        );
        let mask_name = self.get_tensor_name(mask)?;
        let output = self.get_tensor_name(id)?;
        self.add_ternary_node("Where", mask_name, tag("index_put_value_", id), data_name, output);
        Ok(())
    }

    fn put_rows(&mut self, id: i64, data: i64, rows: i64, value: i64) -> (r: Result<(), Error>)
        ensures
            final(self).meta() == old(self).meta(),
            (final(self).onnx_graph@, outcome(r)) == row_put(
                old(self).meta(),
                old(self).onnx_graph@,
                id,
                data,
                rows,
                value,
            ),
    {
        let indices = tag("index_put_indices_unsqueezed_", id);
        let rows_name = self.get_tensor_name(rows)?;
        self.add_unsqueeze_node(
            rows_name,
            indices.clone(),
            &ints1(0),
            tag("index_put_axis_", id),
        );
        self.add_unary_node("Shape", indices.clone(), tag("index_put_shape_", id));
        let value_name = self.get_tensor_name(value)?;
        self.add_binary_node(
            "Expand",
            value_name,
            tag("index_put_shape_", id),
            tag("index_put_value_", id),
        );
        let data_name = self.get_tensor_name(data)?;
        let output = self.get_tensor_name(id)?;
        self.add_scatter_node(data_name, indices, tag("index_put_value_", id), output, 0);
        Ok(())
    }

    fn put_cells(&mut self, id: i64, data: i64, rows: i64, columns: i64, value: i64) -> (r: Result<
        (),
        Error,
    >)
        ensures
            final(self).meta() == old(self).meta(),
            (final(self).onnx_graph@, outcome(r)) == cell_put(
                old(self).meta(),
                old(self).onnx_graph@,
                id,
                data,
                rows,
                columns,
                value,
            ),
    {
        let axis = tag("index_put_stack_axis_", id);
        let row = tag("index_put_row_unsqueezed_", id);
        let column = tag("index_put_col_unsqueezed_", id);
        let rows_name = self.get_tensor_name(rows)?;
        self.add_unsqueeze_node(rows_name, row.clone(), &ints1(-1), axis.clone());
        let columns_name = self.get_tensor_name(columns)?;
        self.add_unsqueeze_node(columns_name, column.clone(), &ints1(-1), axis);
        self.add_concat_node(list2(row, column), tag("index_put_indices_", id), -1);
        let data_name = self.get_tensor_name(data)?;
        let value_name = self.get_tensor_name(value)?;
        let output = self.get_tensor_name(id)?;
        self.add_ternary_node(
            "ScatterND",
            data_name,
            tag("index_put_indices_", id),
            value_name,
            output,
        );
        Ok(())
    }

    /// Lowers `index_put`.
    pub fn op_index_put(&mut self, op: &Json) -> (r: Result<(), Error>)
        ensures
            final(self).meta() == old(self).meta(),
            (final(self).onnx_graph@, outcome(r)) == index_put_lowered(
                old(self).meta(),
                old(self).onnx_graph@,
                op@,
            ),
    {
        self.require_opset(11, "index_put")?;
        let id: i64 = op_out_id(op)?;
        let inputs = op_input_ids(op);
        if inputs.len() < 3 {
            return Err(Error::text("index_put missing inputs"));
        }
        let (count, first, second): (usize, i64, i64) = match self.state.combines.get(inputs[1]) {
            None => {
                return Err(Error::text("index_put expects combined mask input"));
            },
            Some(masks) => (
                masks.len(),
                if masks.len() > 0 {
                    masks[0]
                } else {
                    0
                },
                if masks.len() > 1 {
                    masks[1]
                } else {
                    0
                },
            ),
        };
        let data_shape = self.dims_or_empty(inputs[0]);
        let value_shape = self.dims_or_empty(inputs[2]);
        if count == 1 {
            let mask_shape = self.dims_or_empty(first);
            if self.is_type(first, "0.t_bool") && same_list(&mask_shape, &data_shape) {
                return self.put_masked(id, inputs[0], first, inputs[2]);
            }
            if mask_shape.len() == 1 && data_shape.len() == 2 && value_shape.len() <= 1 {
                return self.put_rows(id, inputs[0], first, inputs[2]);
            }
        }
        if count == 2 && data_shape.len() == 2 && same_list(&value_shape, &data_shape) {
            return self.put_cells(id, inputs[0], first, second, inputs[2]);
        }
        Err(Error::owned(tag("unsupported index_put pattern for output ", id)))
    }
}

// ---- set_value_ ----

/// How many numbers there are from `start` on, `step` apart, before `end`.
pub open spec fn step_count(start: int, end: int, step: int) -> int {
    if step > 0 {
        if end > start {
            (end - start + step - 1) / step
        } else {
            0
        }
    } else if start > end {
        (start - end - step - 1) / (-step)
    } else {
        0
    }
}

/// The numbers from `start` on, `step` apart, before `end`.
pub open spec fn stepped(start: int, end: int, step: int) -> Seq<i64> {
    Seq::new(step_count(start, end, step) as nat, |k: int| (start + k * step) as i64)
}

/// The number of steps is how many times a step can be made before the end.
pub proof fn lemma_step_count(start: int, end: int, step: int, k: int)
    requires
        step != 0,
        0 <= k,
    ensures
        (k < step_count(start, end, step)) == (if step > 0 {
            start + k * step < end
        } else {
            start + k * step > end
        }),
        step_count(start, end, step) >= 0,
{
    let d = if step > 0 {
        step
    } else {
        -step
    };
    let gap = if step > 0 {
        end - start
    } else {
        start - end
    };
    assert(k * step == (if step > 0 {
        k * d
    } else {
        -(k * d)
    })) by (nonlinear_arith)
        requires
            step == d || step == -d,
            step > 0 ==> step == d,
            step <= 0 ==> step == -d,
    ;
    assert(k * d >= 0) by (nonlinear_arith)
        requires
            k >= 0,
            d > 0,
    ;
    if gap > 0 {
        let q = (gap + d - 1) / d;
        let rest = (gap + d - 1) % d;
        lemma_fundamental_div_mod(gap + d - 1, d);
        lemma_mod_bound(gap + d - 1, d);
        lemma_div_pos_is_pos(gap + d - 1, d);
        if k < q {
            assert(k * d < gap) by (nonlinear_arith)
                requires
                    gap + d - 1 == d * q + rest,
                    0 <= rest < d,
                    k + 1 <= q,
                    d > 0,
            ;
        } else {
            assert(k * d >= gap) by (nonlinear_arith)
                requires
                    gap + d - 1 == d * q + rest,
                    0 <= rest < d,
                    k >= q,
                    d > 0,
            ;
        }
    }
}

/// The numbers from `start` on, `step` apart, before `end`.
pub fn step_through(start: i64, end: i64, step: i64) -> (r: Vec<i64>)
    requires
        step != 0,
    ensures
        r@ == stepped(start as int, end as int, step as int),
{
    let mut list: Vec<i64> = Vec::new();
    let mut at: i128 = start as i128;
    let ghost mut k: int = 0;
    while (step > 0 && at < end as i128) || (step < 0 && at > end as i128)
        invariant
            step != 0,
            k >= 0,
            at == start + k * step,
            k == list@.len(),
            -0x1_0000_0000_0000_0000 <= at <= 0x1_0000_0000_0000_0000,
            k <= step_count(start as int, end as int, step as int),
            step > 0 ==> at >= start,
            step < 0 ==> at <= start,
            list@ =~= Seq::new(k as nat, |j: int| (start + j * step) as i64),
        decreases step_count(start as int, end as int, step as int) - k,
    {
        proof {
            lemma_step_count(start as int, end as int, step as int, k);
            assert((k + 1) * step == k * step + step) by (nonlinear_arith);
        }
        list.push(at as i64);
        at = at + step as i128;
        proof {
            k = k + 1;
        }
    }
    proof {
        lemma_step_count(start as int, end as int, step as int, k);
        assert(list@ =~= stepped(start as int, end as int, step as int));
    }
    list
}

/// The scalar that `set_value_` writes.
pub open spec fn set_value_scalar(op: JsonView) -> u64 {
    match attr_items_of(op, "values"@) {
        Some(items) => if items.len() > 0 {
            match items[0].field("D"@) {
                Some(v) => or_default(v.float(), ZERO),
                None => ZERO,
            }
        } else {
            ZERO
        },
        None => ZERO,
    }
}

/// An identity from one value to another.
pub open spec fn passed_on(m: Meta, g: Graph, from: i64, to: i64) -> Step {
    match (tensor_name(m, from), tensor_name(m, to)) {
        (Err(e), _) => failed(g, e),
        (_, Err(e)) => failed(g, e),
        (Ok(input), Ok(output)) => done(unary_added(g, "Identity"@, input, output)),
    }
}

/// A scalar written to columns of a matrix.
pub open spec fn columns_set(m: Meta, g: Graph, id: i64, data: i64, columns: Seq<i64>, scalar: u64) -> Step {
    let count = columns.len() as i64;
    let shape = tagged("set_value_shape_"@, id);
    let batch_axis = tagged("set_value_batch_axis_"@, id);
    let batch = tagged("set_value_batch_dim_"@, id);
    let length = tagged("set_value_slice_len_"@, id);
    let target = tagged("set_value_update_shape_"@, id);
    let indices = tagged("set_value_indices_"@, id);
    let wide_indices = tagged("set_value_indices_expanded_"@, id);
    let updates = tagged("set_value_updates_"@, id);
    let wide_updates = tagged("set_value_updates_expanded_"@, id);
    match tensor_name(m, data) {
        Err(e) => failed(g, e),
        Ok(data_name) => {
            let g = unary_added(g, "Shape"@, data_name, shape);
            let g = ints_added(g, batch_axis, seq![1i64], seq![0i64]);
            let g = binary_added(g, "Gather"@, shape, batch_axis, batch);
            let g = ints_added(g, length, seq![1i64], seq![count]);
            let g = concat_added(g, seq![batch, length], target, 0);
            let g = ints_added(g, indices, seq![1i64, count], columns);
            let g = binary_added(g, "Expand"@, indices, target, wide_indices);
            match dtype_if_known(m, data) {
                Err(e) => failed(g, e),
                Ok(dtype) => match numbers_added(
                    g,
                    updates,
                    seq![1i64],
                    or_default(dtype, FLOAT),
                    seq![scalar],
                ) {
                    (g, Err(e)) => failed(g, e),
                    (g, Ok(_)) => {
                        let g = binary_added(g, "Expand"@, updates, target, wide_updates);
                        match tensor_name(m, id) {
                            Err(e) => failed(g, e),
                            Ok(output) => done(
                                scatter_added(
                                    g,
                                    data_name,
                                    wide_indices,
                                    wide_updates,
                                    output,
                                    1,
                                ),
                            ),
                        }
                    },
                },
            }
        },
    }
}

/// `set_value_` along the second axis.
pub open spec fn set_value_axis(m: Meta, g: Graph, op: JsonView, id: i64, ins: Seq<i64>) -> Step {
    let start = to_i64(or_default(first_const(m, ins[1]), ZERO));
    let end = to_i64(
        or_default(first_const(m, ins[2]), from_int(add_wrapped(start, 1) as int)),
    );
    let step = to_i64(or_default(first_const(m, ins[3]), ONE));
    if step == 0 {
        failed(g, message("set_value_ step cannot be zero"@))
    } else if step < 0 {
        failed(g, message("set_value_ axes=[1] currently only supports positive step"@))
    } else if start < 0 || end < 0 {
        failed(
            g,
            message(
                "set_value_ axes=[1] currently requires non-negative start/end (negative indices not yet supported)"@,
            ),
        )
    } else {
        let columns = stepped(start as int, end as int, step as int);
        if columns.len() == 0 {
            passed_on(m, g, ins[0], id)
        } else {
            columns_set(m, g, id, ins[0], columns, set_value_scalar(op))
        }
    }
}

/// A bound of a slice counted from the front and kept within `low..=high`.
pub open spec fn bound_within(bound: i64, dim: i64, low: int, high: int) -> int {
    let b = if bound < 0 {
        bound + dim
    } else {
        bound as int
    };
    if b < low {
        low
    } else if b > high {
        high
    } else {
        b
    }
}

/// The positions that a slice selects along an axis of the given size.
pub open spec fn slice_positions(dim: i64, start: i64, end: i64, step: i64) -> Seq<i64> {
    if step > 0 {
        stepped(bound_within(start, dim, 0, dim as int), bound_within(end, dim, 0, dim as int), step as int)
    } else {
        stepped(
            bound_within(start, dim, -1, dim - 1),
            bound_within(end, dim, -1, dim - 1),
            step as int,
        )
    }
}

/// Every row of `rows` with every number of `list` behind it.
pub open spec fn rows_extended(rows: Seq<Seq<i64>>, list: Seq<i64>) -> Seq<Seq<i64>> {
    Seq::new(
        rows.len() * list.len(),
        |k: int| rows[k / list.len() as int].push(list[k % list.len() as int]),
    )
}

/// The rows that take one number from each of the first `k` lists, the last one changing fastest.
pub open spec fn rows_of(lists: Seq<Seq<i64>>, k: nat) -> Seq<Seq<i64>>
    decreases k,
{
    if k == 0 {
        seq![Seq::empty()]
    } else {
        rows_extended(rows_of(lists, (k - 1) as nat), lists[k - 1])
    }
}

/// The first `k` rows, one behind the other.
pub open spec fn flat_rows(rows: Seq<Seq<i64>>, k: nat) -> Seq<i64>
    decreases k,
{
    if k == 0 {
        Seq::empty()
    } else {
        flat_rows(rows, (k - 1) as nat) + rows[k - 1]
    }
}

/// The positions along each axis of a block that is bounded along the second and third.
pub open spec fn block_positions(dims: Seq<i64>, second: Seq<i64>, third: Seq<i64>) -> Seq<Seq<i64>> {
    Seq::new(
        dims.len(),
        |d: int|
            if d == 1 {
                second
            } else if d == 2 {
                third
            } else {
                counted(dims[d] as nat)
            },
    )
}

/// A scalar written to the cells of a block.
pub open spec fn cells_set(m: Meta, g: Graph, id: i64, data: i64, rows: Seq<Seq<i64>>, rank: nat, scalar: u64) -> Step {
    let count = rows.len();
    let indices = tagged("set_value_indices_"@, id);
    let updates = tagged("set_value_updates_"@, id);
    let g = ints_added(
        g,
        indices,
        seq![count as i64, rank as i64],
        flat_rows(rows, count),
    );
    match dtype_if_known(m, data) {
        Err(e) => failed(g, e),
        Ok(dtype) => match numbers_added(
            g,
            updates,
            seq![count as i64],
            or_default(dtype, FLOAT),
            Seq::new(count, |i: int| scalar),
        ) {
            (g, Err(e)) => failed(g, e),
            (g, Ok(_)) => match (tensor_name(m, data), tensor_name(m, id)) {
                (Err(e), _) => failed(g, e),
                (_, Err(e)) => failed(g, e),
                (Ok(data_name), Ok(output)) => done(
                    ternary_added(g, "ScatterND"@, data_name, indices, updates, output),
                ),
            },
        },
    }
}

/// The error for an axis beyond the rank.
pub open spec fn axis_beyond(axis: int, rank: int) -> ErrorView {
    message("set_value_: axis "@ + dec(axis) + " out of range for rank "@ + dec(rank))
}

/// `set_value_` along the second and third axis.
pub open spec fn set_value_block(m: Meta, g: Graph, op: JsonView, id: i64, ins: Seq<i64>) -> Step {
    match map_get(m.tensor_shapes, ins[0]) {
        None => failed(g, message("set_value_: missing shape metadata"@)),
        Some(dims) => if some_not_positive(dims) {
            failed(g, message("set_value_ axes=[1,2] requires static positive dims"@))
        } else {
            match (const_ints(m, ins[1]), const_ints(m, ins[2]), const_ints(m, ins[3])) {
                (None, _, _) => failed(g, message("set_value_: missing constant starts"@)),
                (_, None, _) => failed(g, message("set_value_: missing constant ends"@)),
                (_, _, None) => failed(g, message("set_value_: missing constant steps"@)),
                (Some(starts), Some(ends), Some(steps)) => if starts.len() != 2 || ends.len() != 2
                    || steps.len() != 2 {
                    failed(
                        g,
                        message(
                            "set_value_ axes=[1,2] expects starts/ends/steps to match axes rank"@,
                        ),
                    )
                } else if dims.len() <= 1 {
                    failed(g, axis_beyond(1, dims.len() as int))
                } else if steps[0] == 0 {
                    failed(g, message("set_value_ step cannot be zero"@))
                } else if dims.len() <= 2 {
                    failed(g, axis_beyond(2, dims.len() as int))
                } else if steps[1] == 0 {
                    failed(g, message("set_value_ step cannot be zero"@))
                } else {
                    let lists = block_positions(
                        dims,
                        slice_positions(dims[1], starts[0], ends[0], steps[0]),
                        slice_positions(dims[2], starts[1], ends[1], steps[1]),
                    );
                    let rows = rows_of(lists, dims.len());
                    if rows.len() == 0 {
                        passed_on(m, g, ins[0], id)
                    } else {
                        cells_set(m, g, id, ins[0], rows, dims.len(), set_value_scalar(op))
                    }
                },
            }
        },
    }
}

/// The lowering of `set_value_`: a scalar is written along the second axis, or to a block along
/// the second and third axis, with constant bounds.
pub open spec fn set_value_lowered(m: Meta, g: Graph, op: JsonView) -> Step {
    let ins = input_ids(op);
    match (opset_checked(m, 11, "set_value_"@), out_id(op)) {
        (Err(e), _) => failed(g, e),
        (_, Err(e)) => failed(g, e),
        (Ok(_), Ok(id)) => if ins.len() < 4 {
            failed(g, message("set_value_ missing inputs"@))
        } else {
            let axes = or_default(attr_ints_of(op, "axes"@), Seq::empty());
            if axes == seq![1i64] {
                set_value_axis(m, g, op, id, ins)
            } else if axes == seq![1i64, 2i64] {
                set_value_block(m, g, op, id, ins)
            } else {
                failed(
                    g,
                    message(
                        "set_value_ currently only supports axes=[1] or axes=[1,2] constant block writes"@,
                    ),
                )
            }
        },
    }
}

fn read_set_value_scalar(op: &Json) -> (r: u64)
    ensures
        r == set_value_scalar(op@),
{
    match attr_array(op, "values") {
        Some(items) => {
            if items.len() > 0 {
                match items[0].get("D") {
                    Some(v) => match v.as_float() {
                        Some(b) => b,
                        None => ZERO,
                    },
                    None => ZERO,
                }
            } else {
                ZERO
            }
        },
        None => ZERO,
    }
}

fn within(bound: i64, dim: i64, low: i64, high: i64) -> (r: i64)
    requires
        dim > 0,
        low <= high,
    ensures
        r == bound_within(bound, dim, low as int, high as int),
{
    let b: i64 = if bound < 0 {
        bound + dim
    } else {
        bound
    };
    if b < low {
        low
    } else if b > high {
        high
    } else {
        b
    }
}

fn positions_along(dim: i64, start: i64, end: i64, step: i64) -> (r: Vec<i64>)
    requires
        dim > 0,
        step != 0,
    ensures
        r@ == slice_positions(dim, start, end, step),
{
    if step > 0 {
        step_through(within(start, dim, 0, dim), within(end, dim, 0, dim), step)
    } else {
        step_through(within(start, dim, -1, dim - 1), within(end, dim, -1, dim - 1), step)
    }
}

fn count_to(n: i64) -> (r: Vec<i64>)
    requires
        n >= 0,
    ensures
        r@ == counted(n as nat),
{
    let mut list: Vec<i64> = Vec::new();
    let mut i: i64 = 0;
    while i < n
        invariant
            0 <= i <= n,
            list@ =~= counted(i as nat),
        decreases n - i,
    {
        list.push(i);
        i = i + 1;
    }
    list
}

/// The content of a list of rows.
pub open spec fn rows_view(rows: Seq<Vec<i64>>) -> Seq<Seq<i64>> {
    Seq::new(rows.len(), |i: int| rows[i]@)
}

fn extend_rows(rows: &Vec<Vec<i64>>, list: &Vec<i64>) -> (r: Vec<Vec<i64>>)
    ensures
        rows_view(r@) == rows_extended(rows_view(rows@), list@),
{
    let ghost old_rows = rows_view(rows@);
    let ghost target = rows_extended(old_rows, list@);
    let ghost n = list@.len() as int;
    let mut out: Vec<Vec<i64>> = Vec::new();
    let mut i: usize = 0;
    proof {
        assert(0 * n == 0);
    }
    while i < rows.len()
        invariant
            i <= rows.len(),
            n == list@.len(),
            old_rows == rows_view(rows@),
            target == rows_extended(old_rows, list@),
            out@.len() == i * n,
            forall|k: int| 0 <= k < out@.len() ==> (#[trigger] out@[k])@ == target[k],
        decreases rows.len() - i,
    {
        let mut j: usize = 0;
        while j < list.len()
            invariant
                i < rows.len(),
                j <= list.len(),
                n == list@.len(),
                old_rows == rows_view(rows@),
                target == rows_extended(old_rows, list@),
                out@.len() == i * n + j,
                forall|k: int| 0 <= k < out@.len() ==> (#[trigger] out@[k])@ == target[k],
            decreases list.len() - j,
        {
            let mut row = rows[i].clone();
            proof {
                assert(row@ =~= rows@[i as int]@);
                let k = i * n + j;
                lemma_fundamental_div_mod_converse(k, n, i as int, j as int);
                assert(k < old_rows.len() * n) by (nonlinear_arith)
                    requires
                        k == i * n + j,
                        j < n,
                        i + 1 <= old_rows.len(),
                ;
                assert(i * n >= 0) by (nonlinear_arith)
                    requires
                        i >= 0,
                        n >= 0,
                ;
                assert(target[k] == old_rows[i as int].push(list@[j as int]));
            }
            row.push(list[j]);
            out.push(row);
            j = j + 1;
        }
        proof {
            assert((i + 1) * n == i * n + n) by (nonlinear_arith);
        }
        i = i + 1;
    }
    proof {
        assert(rows_view(out@) =~= target);
    }
    out
}

fn flatten_rows(rows: &Vec<Vec<i64>>) -> (r: Vec<i64>)
    ensures
        r@ == flat_rows(rows_view(rows@), rows@.len()),
{
    let mut list: Vec<i64> = Vec::new();
    let mut i: usize = 0;
    while i < rows.len()
        invariant
            i <= rows.len(),
            list@ == flat_rows(rows_view(rows@), i as nat),
        decreases rows.len() - i,
    {
        let mut row = rows[i].clone();
        proof {
            assert(row@ =~= rows@[i as int]@);
        }
        list.append(&mut row);
        i = i + 1;
    }
    list
}

fn repeated_value(value: u64, count: usize) -> (r: Vec<u64>)
    ensures
        r@ == Seq::new(count as nat, |i: int| value),
{
    let mut list: Vec<u64> = Vec::new();
    let mut i: usize = 0;
    while i < count
        invariant
            i <= count,
            list@ =~= Seq::new(i as nat, |k: int| value),
        decreases count - i,
    {
        list.push(value);
        i = i + 1;
    }
    list
}

fn block_rows(dims: &Vec<i64>, second: &Vec<i64>, third: &Vec<i64>) -> (r: Vec<Vec<i64>>)
    requires
        !some_not_positive(dims@),
    ensures
        rows_view(r@) == rows_of(block_positions(dims@, second@, third@), dims@.len()),
{
    let ghost lists = block_positions(dims@, second@, third@);
    let mut rows: Vec<Vec<i64>> = Vec::new();
    rows.push(Vec::new());
    let mut d: usize = 0;
    proof {
        assert(rows_view(rows@) =~= rows_of(lists, 0)) by {
            assert(rows@[0]@ =~= Seq::empty());
        }
    }
    while d < dims.len()
        invariant
            d <= dims.len(),
            !some_not_positive(dims@),
            lists == block_positions(dims@, second@, third@),
            rows_view(rows@) == rows_of(lists, d as nat),
        decreases dims.len() - d,
    {
        proof {
            assert(dims@[d as int] > 0);
        }
        if d == 1 {
            rows = extend_rows(&rows, second);
        } else if d == 2 {
            rows = extend_rows(&rows, third);
        } else {
            rows = extend_rows(&rows, &count_to(dims[d]));
        }
        d = d + 1;
    }
    rows
}

impl Converter {
    /// Adds an identity from one value to another.
    pub fn pass_on(&mut self, from: i64, to: i64) -> (r: Result<(), Error>)
        ensures
            final(self).meta() == old(self).meta(),
            (final(self).onnx_graph@, outcome(r)) == passed_on(
                old(self).meta(),
                old(self).onnx_graph@,
                from,
                to,
            ),
    {
        let input = self.get_tensor_name(from)?;
        let output = self.get_tensor_name(to)?;
        self.add_unary_node("Identity", input, output);
        Ok(())
    }

    fn set_columns(&mut self, id: i64, data: i64, columns: &Vec<i64>, scalar: u64) -> (r: Result<
        (),
        Error,
    >)
        ensures
            final(self).meta() == old(self).meta(),
            (final(self).onnx_graph@, outcome(r)) == columns_set(
                old(self).meta(),
                old(self).onnx_graph@,
                id,
                data,
                columns@,
                scalar,
            ),
    {
        let count: i64 = columns.len() as i64;
        let data_name = self.get_tensor_name(data)?;
        self.add_unary_node("Shape", data_name.clone(), tag("set_value_shape_", id));
        self.push_i64_initializer(tag("set_value_batch_axis_", id), ints1(1), &ints1(0));
        self.add_binary_node(
            "Gather",
            tag("set_value_shape_", id),
            tag("set_value_batch_axis_", id),
            tag("set_value_batch_dim_", id),
        );
        self.push_i64_initializer(tag("set_value_slice_len_", id), ints1(1), &ints1(count));
        self.add_concat_node(
            list2(tag("set_value_batch_dim_", id), tag("set_value_slice_len_", id)),
            tag("set_value_update_shape_", id),
            0,
        );
        self.push_i64_initializer(tag("set_value_indices_", id), ints2(1, count), columns);
        self.add_binary_node(
            "Expand",
            tag("set_value_indices_", id),
            tag("set_value_update_shape_", id),
            tag("set_value_indices_expanded_", id),
        );
        let dtype: i32 = match self.maybe_onnx_dtype_for_tensor_id(data)? {
            Some(dtype) => dtype,
            None => FLOAT,
        };
        self.push_numeric_initializer(
            tag("set_value_updates_", id),
            ints1(1),
            dtype,
            &crate::text::doubles1(scalar),
        )?;
        self.add_binary_node(
            "Expand",
            tag("set_value_updates_", id),
            tag("set_value_update_shape_", id),
            tag("set_value_updates_expanded_", id),
        );
        let output = self.get_tensor_name(id)?;
        self.add_scatter_node(
            data_name,
            tag("set_value_indices_expanded_", id),
            tag("set_value_updates_expanded_", id),
            output,
            1,
        );
        Ok(())
    }

    fn set_along_axis(&mut self, op: &Json, id: i64, inputs: &Vec<i64>) -> (r: Result<(), Error>)
        requires
            inputs.len() >= 4,
        ensures
            final(self).meta() == old(self).meta(),
            (final(self).onnx_graph@, outcome(r)) == set_value_axis(
                old(self).meta(),
                old(self).onnx_graph@,
                op@,
                id,
                inputs@,
            ),
    {
        let start: i64 = as_i64(
            match self.first_constant(inputs[1]) {
                Some(v) => v,
                None => ZERO,
            },
        );
        let end: i64 = as_i64(
            match self.first_constant(inputs[2]) {
                Some(v) => v,
                None => from_i64(start.wrapping_add(1)),
            },
        );
        let step: i64 = as_i64(
            match self.first_constant(inputs[3]) {
                Some(v) => v,
                None => ONE,
            },
        );
        if step == 0 {
            return Err(Error::text("set_value_ step cannot be zero"));
        }
        if step < 0 {
            return Err(
                Error::text("set_value_ axes=[1] currently only supports positive step"),
            );
        }
        if start < 0 || end < 0 {
            return Err(
                Error::text(
                    "set_value_ axes=[1] currently requires non-negative start/end (negative indices not yet supported)",
                ),
            );
        }
        let columns = step_through(start, end, step);
        if columns.len() == 0 {
            return self.pass_on(inputs[0], id);
        }
        self.set_columns(id, inputs[0], &columns, read_set_value_scalar(op))
    }

    fn set_cells(
        &mut self,
        id: i64,
        data: i64,
        rows: &Vec<Vec<i64>>,
        rank: usize,
        scalar: u64,
    ) -> (r: Result<(), Error>)
        ensures
            final(self).meta() == old(self).meta(),
            (final(self).onnx_graph@, outcome(r)) == cells_set(
                old(self).meta(),
                old(self).onnx_graph@,
                id,
                data,
                rows_view(rows@),
                rank as nat,
                scalar,
            ),
    {
        let count: i64 = rows.len() as i64;
        self.push_i64_initializer(
            tag("set_value_indices_", id),
            ints2(count, rank as i64),
            &flatten_rows(rows),
        );
        let dtype: i32 = match self.maybe_onnx_dtype_for_tensor_id(data)? {
            Some(dtype) => dtype,
            None => FLOAT,
        };
        self.push_numeric_initializer(
            tag("set_value_updates_", id),
            ints1(count),
            dtype,
            &repeated_value(scalar, rows.len()),
        )?;
        let data_name = self.get_tensor_name(data)?;
        let output = self.get_tensor_name(id)?;
        self.add_ternary_node(
            "ScatterND",
            data_name,
            tag("set_value_indices_", id),
            tag("set_value_updates_", id),
            output,
        );
        Ok(())
    }

    fn set_block(&mut self, op: &Json, id: i64, inputs: &Vec<i64>) -> (r: Result<(), Error>)
        requires
            inputs.len() >= 4,
        ensures
            final(self).meta() == old(self).meta(),
            (final(self).onnx_graph@, outcome(r)) == set_value_block(
                old(self).meta(),
                old(self).onnx_graph@,
                op@,
                id,
                inputs@,
            ),
    {
        let dims = match self.known_dims(inputs[0]) {
            Some(dims) => dims,
            None => {
                return Err(Error::text("set_value_: missing shape metadata"));
            },
        };
        if any_not_positive(&dims) {
            return Err(Error::text("set_value_ axes=[1,2] requires static positive dims"));
        }
        let starts = match self.constant_ints(inputs[1]) {
            Some(list) => list,
            None => {
                return Err(Error::text("set_value_: missing constant starts"));
            },
        };
        let ends = match self.constant_ints(inputs[2]) {
            Some(list) => list,
            None => {
                return Err(Error::text("set_value_: missing constant ends"));
            },
        };
        let steps = match self.constant_ints(inputs[3]) {
            Some(list) => list,
            None => {
                return Err(Error::text("set_value_: missing constant steps"));
            },
        };
        if starts.len() != 2 || ends.len() != 2 || steps.len() != 2 {
            return Err(
                Error::text("set_value_ axes=[1,2] expects starts/ends/steps to match axes rank"),
            );
        }
        if dims.len() <= 1 {
            return Err(
                Error::owned(
                    join4(
                        "set_value_: axis ",
                        int_text(1).as_str(),
                        " out of range for rank ",
                        size_text(dims.len()).as_str(),
                    ),
                ),
            );
        }
        if steps[0] == 0 {
            return Err(Error::text("set_value_ step cannot be zero"));
        }
        if dims.len() <= 2 {
            return Err(
                Error::owned(
                    join4(
                        "set_value_: axis ",
                        int_text(2).as_str(),
                        " out of range for rank ",
                        size_text(dims.len()).as_str(),
                    ),
                ),
            );
        }
        if steps[1] == 0 {
            return Err(Error::text("set_value_ step cannot be zero"));
        }
        proof {
            assert(dims@[1] > 0);
            assert(dims@[2] > 0);
        }
        let second = positions_along(dims[1], starts[0], ends[0], steps[0]);
        let third = positions_along(dims[2], starts[1], ends[1], steps[1]);
        let rows = block_rows(&dims, &second, &third);
        proof {
            assert(rows_view(rows@).len() == rows@.len());
        }
        if rows.len() == 0 {
            return self.pass_on(inputs[0], id);
        }
        self.set_cells(id, inputs[0], &rows, dims.len(), read_set_value_scalar(op))
    }

    /// Lowers `set_value_`.
    pub fn op_set_value(&mut self, op: &Json) -> (r: Result<(), Error>)
        ensures
            final(self).meta() == old(self).meta(),
            (final(self).onnx_graph@, outcome(r)) == set_value_lowered(
                old(self).meta(),
                old(self).onnx_graph@,
                op@,
            ),
    {
        self.require_opset(11, "set_value_")?;
        let id: i64 = op_out_id(op)?;
        let inputs = op_input_ids(op);
        if inputs.len() < 4 {
            return Err(Error::text("set_value_ missing inputs"));
        }
        let axes = match attr_i64s(op, "axes") {
            Some(axes) => axes,
            None => Vec::new(),
        };
        if same_list(&axes, &ints1(1)) {
            return self.set_along_axis(op, id, &inputs);
        }
        if same_list(&axes, &ints2(1, 2)) {
            return self.set_block(op, id, &inputs);
        }
        Err(
            Error::text(
                "set_value_ currently only supports axes=[1] or axes=[1,2] constant block writes",
            ),
        )
    }
}

// ---- set_value_with_tensor_ ----

/// Whether the constant bounds of a slice, where all three are known, fail to select a single
/// position. `None` where the step is zero.
pub open spec fn single_position(m: Meta, ins: Seq<i64>) -> Option<bool> {
    match (first_const(m, ins[2]), first_const(m, ins[3]), first_const(m, ins[4])) {
        (Some(start), Some(end), Some(step)) => if to_i64(step) == 0 {
            None
        } else {
            Some(step_count(to_i64(start) as int, to_i64(end) as int, to_i64(step) as int) == 1)
        },
        _ => Some(true),
    }
}

/// The shape of a list of positions along the second of `rank` axes.
pub open spec fn second_axis_shape(rank: nat) -> Seq<i64> {
    Seq::new(
        rank,
        |d: int|
            if d == 1 {
                -1i64
            } else {
                1i64
            },
    )
}

/// The updates with the axis that the slice drops put back, and their shape.
pub open spec fn updates_shaped(m: Meta, g: Graph, id: i64, ins: Seq<i64>, values: Seq<char>, dropped: bool) -> (
    Graph,
    Result<Seq<char>, ErrorView>,
) {
    let shape = tagged("set_value_tensor_updates_shape_"@, id);
    if !dropped {
        (unary_added(g, "Shape"@, values, shape), Ok(values))
    } else {
        let wide = tagged("set_value_tensor_updates_"@, id);
        let g = unsqueeze_added(
            g,
            m.target_opset,
            values,
            wide,
            seq![1i64],
            tagged("set_value_tensor_unsqueeze_axes_"@, id),
        );
        let g = unary_added(g, "Shape"@, wide, shape);
        match single_position(m, ins) {
            None => (g, Err(message("set_value_with_tensor_ step cannot be zero"@))),
            Some(false) => (
                g,
                Err(
                    message(
                        "set_value_with_tensor_ decrease_axes=[1] requires a single indexed position"@,
                    ),
                ),
            ),
            Some(true) => (g, Ok(wide)),
        }
    }
}

/// A tensor written to a slice along the second axis.
pub open spec fn slice_written(m: Meta, g: Graph, id: i64, ins: Seq<i64>, rank: nat, dropped: bool) -> Step {
    match (tensor_name(m, ins[0]), tensor_name(m, ins[1])) {
        (Err(e), _) => failed(g, e),
        (_, Err(e)) => failed(g, e),
        (Ok(data), Ok(values)) => match scalar_ensured(
            m,
            g,
            ins[2],
            id,
            "set_value_tensor_start"@,
        ) {
            (g, Err(e)) => failed(g, e),
            (g, Ok(start)) => match scalar_ensured(m, g, ins[3], id, "set_value_tensor_end"@) {
                (g, Err(e)) => failed(g, e),
                (g, Ok(end)) => match scalar_ensured(
                    m,
                    g,
                    ins[4],
                    id,
                    "set_value_tensor_step"@,
                ) {
                    (g, Err(e)) => failed(g, e),
                    (g, Ok(step)) => {
                        let range = tagged("set_value_tensor_range_"@, id);
                        let g = ternary_added(g, "Range"@, start, end, step, range);
                        match updates_shaped(m, g, id, ins, values, dropped) {
                            (g, Err(e)) => failed(g, e),
                            (g, Ok(updates)) => {
                                let index_shape = tagged("set_value_tensor_index_shape_"@, id);
                                let shaped = tagged("set_value_tensor_range_shaped_"@, id);
                                let indices = tagged("set_value_tensor_indices_"@, id);
                                let g = ints_added(
                                    g,
                                    index_shape,
                                    seq![rank as i64],
                                    second_axis_shape(rank),
                                );
                                let g = binary_added(g, "Reshape"@, range, index_shape, shaped);
                                let g = binary_added(
                                    g,
                                    "Expand"@,
                                    shaped,
                                    tagged("set_value_tensor_updates_shape_"@, id),
                                    indices,
                                );
                                match tensor_name(m, id) {
                                    Err(e) => failed(g, e),
                                    Ok(output) => done(
                                        scatter_added(g, data, indices, updates, output, 1),
                                    ),
                                }
                            },
                        }
                    },
                },
            },
        },
    }
}

/// The lowering of `set_value_with_tensor_`: without axes the values replace everything, and along
/// the second axis they are written to a slice.
pub open spec fn set_value_with_tensor_lowered(m: Meta, g: Graph, op: JsonView) -> Step {
    let ins = input_ids(op);
    match (opset_checked(m, 11, "set_value_with_tensor_"@), out_id(op)) {
        (Err(e), _) => failed(g, e),
        (_, Err(e)) => failed(g, e),
        (Ok(_), Ok(id)) => if ins.len() < 2 {
            failed(g, message("set_value_with_tensor_ missing inputs"@))
        } else {
            let axes = or_default(attr_items_of(op, "axes"@), Seq::empty());
            let dropped = or_default(attr_ints_of(op, "decrease_axes"@), Seq::empty());
            if axes.len() == 0 {
                passed_on(m, g, ins[1], id)
            } else if axes.len() != 1 || axes[0].field_int("D"@) != Some(1i64) {
                failed(g, message("set_value_with_tensor_ currently only supports axes=[1]"@))
            } else if dropped.len() != 0 && dropped != seq![1i64] {
                failed(
                    g,
                    message(
                        "set_value_with_tensor_ currently only supports decrease_axes=[] or [1]"@,
                    ),
                )
            } else if ins.len() < 5 {
                failed(
                    g,
                    message(
                        "set_value_with_tensor_ axes=[1] expects data, values, starts, ends, steps"@,
                    ),
                )
            } else {
                match map_get(m.tensor_shapes, ins[0]) {
                    None => failed(g, message("set_value_with_tensor_: missing rank metadata"@)),
                    Some(dims) => if dims.len() < 2 {
                        failed(
                            g,
                            message("set_value_with_tensor_ axes=[1] requires rank >= 2 inputs"@),
                        )
                    } else {
                        slice_written(m, g, id, ins, dims.len(), dropped.len() != 0)
                    },
                }
            }
        },
    }
}

/// How many positions a slice selects.
fn count_steps(start: i64, end: i64, step: i64) -> (r: i128)
    requires
        step != 0,
    ensures
        r == step_count(start as int, end as int, step as int),
{
    let s: i128 = start as i128;
    let e: i128 = end as i128;
    let d: i128 = step as i128;
    if d > 0 {
        if e > s {
            (e - s + d - 1) / d
        } else {
            0
        }
    } else if s > e {
        (s - e - d - 1) / (-d)
    } else {
        0
    }
}

fn index_shape_of(rank: usize) -> (r: Vec<i64>)
    ensures
        r@ == second_axis_shape(rank as nat),
{
    let mut list: Vec<i64> = Vec::new();
    let mut d: usize = 0;
    while d < rank
        invariant
            d <= rank,
            list@ =~= second_axis_shape(d as nat),
        decreases rank - d,
    {
        if d == 1 {
            list.push(-1);
        } else {
            list.push(1);
        }
        d = d + 1;
    }
    list
}

impl Converter {
    fn has_single_position(&self, inputs: &Vec<i64>) -> (r: Option<bool>)
        requires
            inputs.len() >= 5,
        ensures
            r == single_position(self.meta(), inputs@),
    {
        match self.first_constant(inputs[2]) {
            Some(start) => match self.first_constant(inputs[3]) {
                Some(end) => match self.first_constant(inputs[4]) {
                    Some(step) => {
                        let step: i64 = as_i64(step);
                        if step == 0 {
                            None
                        } else {
                            Some(count_steps(as_i64(start), as_i64(end), step) == 1)
                        }
                    },
                    None => Some(true),
                },
                None => Some(true),
            },
            None => Some(true),
        }
    }

    fn shape_updates(&mut self, id: i64, inputs: &Vec<i64>, values: String, dropped: bool) -> (r: Result<
        String,
        Error,
    >)
        requires
            inputs.len() >= 5,
        ensures
            final(self).meta() == old(self).meta(),
            (final(self).onnx_graph@, crate::converter::state::name_result(r)) == updates_shaped(
                old(self).meta(),
                old(self).onnx_graph@,
                id,
                inputs@,
                values@,
                dropped,
            ),
    {
        if !dropped {
            self.add_unary_node(
                "Shape",
                values.clone(),
                tag("set_value_tensor_updates_shape_", id),
            );
            return Ok(values);
        }
        let wide = tag("set_value_tensor_updates_", id);
        self.add_unsqueeze_node(
            values,
            wide.clone(),
            &ints1(1),
            tag("set_value_tensor_unsqueeze_axes_", id),
        );
        self.add_unary_node("Shape", wide.clone(), tag("set_value_tensor_updates_shape_", id));
        match self.has_single_position(inputs) {
            None => Err(Error::text("set_value_with_tensor_ step cannot be zero")),
            Some(single) => {
                if single {
                    Ok(wide)
                } else {
                    Err(
                        Error::text(
                            "set_value_with_tensor_ decrease_axes=[1] requires a single indexed position",
                        ),
                    )
                }
            },
        }
    }

    fn write_slice(&mut self, id: i64, inputs: &Vec<i64>, rank: usize, dropped: bool) -> (r: Result<
        (),
        Error,
    >)
        requires
            inputs.len() >= 5,
        ensures
            final(self).meta() == old(self).meta(),
            (final(self).onnx_graph@, outcome(r)) == slice_written(
                old(self).meta(),
                old(self).onnx_graph@,
                id,
                inputs@,
                rank as nat,
                dropped,
            ),
    {
        let data = self.get_tensor_name(inputs[0])?;
        let values = self.get_tensor_name(inputs[1])?;
        let start = self.ensure_scalar_i64_input(inputs[2], id, "set_value_tensor_start")?;
        let end = self.ensure_scalar_i64_input(inputs[3], id, "set_value_tensor_end")?;
        let step = self.ensure_scalar_i64_input(inputs[4], id, "set_value_tensor_step")?;
        self.add_ternary_node("Range", start, end, step, tag("set_value_tensor_range_", id));
        let updates = self.shape_updates(id, inputs, values, dropped)?;
        self.push_i64_initializer(
            tag("set_value_tensor_index_shape_", id),
            ints1(rank as i64),
            &index_shape_of(rank),
        );
        self.add_binary_node(
            "Reshape",
            tag("set_value_tensor_range_", id),
            tag("set_value_tensor_index_shape_", id),
            tag("set_value_tensor_range_shaped_", id),
        );
        self.add_binary_node(
            "Expand",
            tag("set_value_tensor_range_shaped_", id),
            tag("set_value_tensor_updates_shape_", id),
            tag("set_value_tensor_indices_", id),
        );
        let output = self.get_tensor_name(id)?;
        self.add_scatter_node(data, tag("set_value_tensor_indices_", id), updates, output, 1);
        Ok(())
    }

    /// Lowers `set_value_with_tensor_`.
    pub fn op_set_value_with_tensor(&mut self, op: &Json) -> (r: Result<(), Error>)
        ensures
            final(self).meta() == old(self).meta(),
            (final(self).onnx_graph@, outcome(r)) == set_value_with_tensor_lowered(
                old(self).meta(),
                old(self).onnx_graph@,
                op@,
            ),
    {
        self.require_opset(11, "set_value_with_tensor_")?;
        let id: i64 = op_out_id(op)?;
        let inputs = op_input_ids(op);
        if inputs.len() < 2 {
            return Err(Error::text("set_value_with_tensor_ missing inputs"));
        }
        let supported = match attr_array(op, "axes") {
            Some(axes) => {
                if axes.len() == 0 {
                    return self.pass_on(inputs[1], id);
                }
                axes.len() == 1 && match axes[0].get_i64("D") {
                    Some(axis) => axis == 1,
                    None => false,
                }
            },
            None => {
                return self.pass_on(inputs[1], id);
            },
        };
        if !supported {
            return Err(Error::text("set_value_with_tensor_ currently only supports axes=[1]"));
        }
        let dropped = match attr_i64s(op, "decrease_axes") {
            Some(list) => list,
            None => Vec::new(),
        };
        if dropped.len() != 0 && !same_list(&dropped, &ints1(1)) {
            return Err(
                Error::text(
                    "set_value_with_tensor_ currently only supports decrease_axes=[] or [1]",
                ),
            );
        }
        if inputs.len() < 5 {
            return Err(
                Error::text(
                    "set_value_with_tensor_ axes=[1] expects data, values, starts, ends, steps",
                ),
            );
        }
        let rank: usize = match self.state.tensor_shapes.get(inputs[0]) {
            Some(dims) => dims.len(),
            None => {
                return Err(Error::text("set_value_with_tensor_: missing rank metadata"));
            },
        };
        if rank < 2 {
            return Err(
                Error::text("set_value_with_tensor_ axes=[1] requires rank >= 2 inputs"),
            );
        }
        self.write_slice(id, &inputs, rank, dropped.len() != 0)
    }
}

// ---- repeat_interleave ----

/// The repeats of the first `k` axes of the widened input: one but for the new axis.
pub open spec fn repeat_parts(g: Graph, id: i64, at: i64, k: nat) -> (Graph, Seq<Seq<char>>)
    decreases k,
{
    if k == 0 {
        (g, Seq::empty())
    } else {
        let (h, parts) = repeat_parts(g, id, at, (k - 1) as nat);
        if k - 1 == at {
            (h, parts.push(tagged("repeat_interleave_repeats_dim_"@, id)))
        } else {
            let one = tagged2("repeat_interleave_tile_repeat_"@, id, (k - 1) as i64);
            (ints_added(h, one, seq![1i64], seq![1i64]), parts.push(one))
        }
    }
}

/// The repeats of an operator: an attribute, or else the second input.
pub open spec fn repeats_given(m: Meta, g: Graph, op: JsonView, id: i64, ins: Seq<i64>) -> Step {
    let repeats = tagged("repeat_interleave_repeats_dim_"@, id);
    match attr_int_of(op, "repeats"@) {
        Some(count) => done(ints_added(g, repeats, seq![1i64], seq![count])),
        None => if ins.len() > 1 {
            match scalar_ensured(m, g, ins[1], id, "repeat_interleave_repeats"@) {
                (g, Err(e)) => failed(g, e),
                (g, Ok(name)) => done(
                    unsqueeze_added(
                        g,
                        m.target_opset,
                        name,
                        repeats,
                        seq![0i64],
                        tagged("repeat_interleave_repeats_axes_"@, id),
                    ),
                ),
            }
        } else {
            failed(g, message("repeat_interleave: missing repeats"@))
        },
    }
}

/// Names joined by a `Concat` along the first axis, if there are several.
pub open spec fn joined(g: Graph, parts: Seq<Seq<char>>, name: Seq<char>) -> (Graph, Seq<char>) {
    if parts.len() == 1 {
        (g, parts[0])
    } else {
        (concat_added(g, parts, name, 0), name)
    }
}

/// A part of a shape, from one position to another.
pub open spec fn shape_part(m: Meta, g: Graph, shape: Seq<char>, name: Seq<char>, start: i64, end: i64) -> Step {
    slice_added(
        g,
        m.target_opset,
        shape,
        name,
        seq![start],
        seq![end],
        Some(seq![0i64]),
        None,
        name,
    )
}

/// The shape of the result: the input's, with the size of the axis multiplied.
pub open spec fn repeated_shape(m: Meta, g: Graph, id: i64, axis: i64, rank: i64) -> (
    Graph,
    Result<Seq<char>, ErrorView>,
) {
    let shape = tagged("repeat_interleave_input_shape_"@, id);
    let size = tagged("repeat_interleave_axis_dim_"@, id);
    let grown = tagged("repeat_interleave_repeated_dim_"@, id);
    let before = tagged("repeat_interleave_prefix_"@, id);
    let behind = tagged("repeat_interleave_suffix_"@, id);
    match shape_part(m, g, shape, size, axis, add_wrapped(axis, 1)) {
        (g, Err(e)) => (g, Err(e)),
        (g, Ok(_)) => {
            let g = binary_added(
                g,
                "Mul"@,
                size,
                tagged("repeat_interleave_repeats_dim_"@, id),
                grown,
            );
            let first = if axis > 0 {
                shape_part(m, g, shape, before, 0, axis)
            } else {
                done(g)
            };
            match first {
                (g, Err(e)) => (g, Err(e)),
                (g, Ok(_)) => {
                    let last = if add_wrapped(axis, 1) < rank {
                        shape_part(m, g, shape, behind, add_wrapped(axis, 1), rank)
                    } else {
                        done(g)
                    };
                    match last {
                        (g, Err(e)) => (g, Err(e)),
                        (g, Ok(_)) => {
                            let parts = (if axis > 0 {
                                seq![before]
                            } else {
                                Seq::empty()
                            }).push(grown) + (if add_wrapped(axis, 1) < rank {
                                seq![behind]
                            } else {
                                Seq::empty()
                            });
                            let (g, name) = joined(
                                g,
                                parts,
                                tagged("repeat_interleave_shape_"@, id),
                            );
                            (g, Ok(name))
                        },
                    }
                },
            }
        },
    }
}

/// The lowering of `repeat_interleave`: the input gets an axis behind the repeated one, is tiled
/// along it, and is folded back.
pub open spec fn repeat_interleave_lowered(m: Meta, g: Graph, op: JsonView) -> Step {
    let ins = input_ids(op);
    match out_id(op) {
        Err(e) => failed(g, e),
        Ok(id) => if ins.len() == 0 {
            failed(g, message("repeat_interleave missing inputs"@))
        } else {
            match axis_from_front(m, ins[0], or_default(attr_int_of(op, "axis"@), 0)) {
                Err(e) => failed(g, e),
                Ok(axis) => {
                    let rank = m.tensor_shapes[ins[0]].len();
                    let wide = tagged("repeat_interleave_expanded_"@, id);
                    let tiled = tagged("repeat_interleave_tiled_"@, id);
                    match tensor_name(m, ins[0]) {
                        Err(e) => failed(g, e),
                        Ok(input) => {
                            let g = unsqueeze_added(
                                g,
                                m.target_opset,
                                input,
                                wide,
                                seq![add_wrapped(axis, 1)],
                                tagged("repeat_interleave_axes_"@, id),
                            );
                            match repeats_given(m, g, op, id, ins) {
                                (g, Err(e)) => failed(g, e),
                                (g, Ok(_)) => {
                                    let (g, parts) = repeat_parts(
                                        g,
                                        id,
                                        add_wrapped(axis, 1),
                                        rank + 1,
                                    );
                                    let (g, repeats) = joined(
                                        g,
                                        parts,
                                        tagged("repeat_interleave_tile_repeats_"@, id),
                                    );
                                    let g = binary_added(g, "Tile"@, wide, repeats, tiled);
                                    let g = unary_added(
                                        g,
                                        "Shape"@,
                                        input,
                                        tagged("repeat_interleave_input_shape_"@, id),
                                    );
                                    match repeated_shape(m, g, id, axis, rank as i64) {
                                        (g, Err(e)) => failed(g, e),
                                        (g, Ok(shape)) => match tensor_name(m, id) {
                                            Err(e) => failed(g, e),
                                            Ok(output) => done(
                                                binary_added(
                                                    g,
                                                    "Reshape"@,
                                                    tiled,
                                                    shape,
                                                    output,
                                                ),
                                            ),
                                        },
                                    }
                                },
                            }
                        },
                    }
                },
            }
        },
    }
}

impl Converter {
    /// Joins names by a `Concat` along the first axis, if there are several.
    pub fn join_parts(&mut self, parts: Vec<String>, name: String) -> (r: String)
        ensures
            final(self).meta() == old(self).meta(),
            (final(self).onnx_graph@, r@) == joined(old(self).onnx_graph@, names(parts@), name@),
    {
        proof {
            assert(names(parts@).len() == parts@.len());
        }
        if parts.len() == 1 {
            return parts[0].clone();
        }
        self.add_concat_node(parts, name.clone(), 0);
        name
    }

    fn give_repeats(&mut self, op: &Json, id: i64, inputs: &Vec<i64>) -> (r: Result<(), Error>)
        ensures
            final(self).meta() == old(self).meta(),
            (final(self).onnx_graph@, outcome(r)) == repeats_given(
                old(self).meta(),
                old(self).onnx_graph@,
                op@,
                id,
                inputs@,
            ),
    {
        match attr_i64(op, "repeats") {
            Some(count) => {
                self.push_i64_initializer(
                    tag("repeat_interleave_repeats_dim_", id),
                    ints1(1),
                    &ints1(count),
                );
            },
            None => {
                if inputs.len() < 2 {
                    return Err(Error::text("repeat_interleave: missing repeats"));
                }
                let name = self.ensure_scalar_i64_input(
                    inputs[1],
                    id,
                    "repeat_interleave_repeats",
                )?;
                self.add_unsqueeze_node(
                    name,
                    tag("repeat_interleave_repeats_dim_", id),
                    &ints1(0),
                    tag("repeat_interleave_repeats_axes_", id),
                );
            },
        }
        Ok(())
    }

    fn list_repeats(&mut self, id: i64, at: i64, rank: usize) -> (r: Vec<String>)
        ensures
            final(self).meta() == old(self).meta(),
            (final(self).onnx_graph@, names(r@)) == repeat_parts(
                old(self).onnx_graph@,
                id,
                at,
                (rank + 1) as nat,
            ),
    {
        let mut parts: Vec<String> = Vec::new();
        let count: u128 = rank as u128 + 1;
        let mut k: u128 = 0;
        proof {
            assert(names(parts@) =~= Seq::empty());
        }
        while k < count
            invariant
                k <= count,
                count == rank + 1,
                self.meta() == old(self).meta(),
                (self.onnx_graph@, names(parts@)) == repeat_parts(
                    old(self).onnx_graph@,
                    id,
                    at,
                    k as nat,
                ),
            decreases count - k,
        {
            if at >= 0 && k == at as u128 {
                push_name(&mut parts, tag("repeat_interleave_repeats_dim_", id));
            } else {
                let one = tag2("repeat_interleave_tile_repeat_", id, k as i64);
                self.push_i64_initializer(one.clone(), ints1(1), &ints1(1));
                push_name(&mut parts, one);
            }
            k = k + 1;
        }
        parts
    }

    /// Adds a slice that takes a part of a shape.
    pub fn add_shape_part(&mut self, shape: String, name: String, start: i64, end: i64) -> (r: Result<
        (),
        Error,
    >)
        ensures
            final(self).meta() == old(self).meta(),
            (final(self).onnx_graph@, outcome(r)) == shape_part(
                old(self).meta(),
                old(self).onnx_graph@,
                shape@,
                name@,
                start,
                end,
            ),
    {
        let prefix = name.clone();
        self.add_slice_node(
            shape,
            name,
            &ints1(start),
            &ints1(end),
            Some(&ints1(0)),
            None,
            prefix.as_str(),
        )
    }

    fn repeat_shape(&mut self, id: i64, axis: i64, rank: i64) -> (r: Result<String, Error>)
        ensures
            final(self).meta() == old(self).meta(),
            (final(self).onnx_graph@, crate::converter::state::name_result(r)) == repeated_shape(
                old(self).meta(),
                old(self).onnx_graph@,
                id,
                axis,
                rank,
            ),
    {
        let shape = tag("repeat_interleave_input_shape_", id);
        let next: i64 = axis.wrapping_add(1);
        self.add_shape_part(shape.clone(), tag("repeat_interleave_axis_dim_", id), axis, next)?;
        self.add_binary_node(
            "Mul",
            tag("repeat_interleave_axis_dim_", id),
            tag("repeat_interleave_repeats_dim_", id),
            tag("repeat_interleave_repeated_dim_", id),
        );
        let mut parts: Vec<String> = Vec::new();
        proof {
            assert(names(parts@) =~= Seq::empty());
        }
        if axis > 0 {
            self.add_shape_part(shape.clone(), tag("repeat_interleave_prefix_", id), 0, axis)?;
            push_name(&mut parts, tag("repeat_interleave_prefix_", id));
            proof {
                assert(names(parts@) =~= seq![tagged("repeat_interleave_prefix_"@, id)]);
            }
        }
        push_name(&mut parts, tag("repeat_interleave_repeated_dim_", id));
        let ghost front = names(parts@);
        if next < rank {
            self.add_shape_part(shape, tag("repeat_interleave_suffix_", id), next, rank)?;
            push_name(&mut parts, tag("repeat_interleave_suffix_", id));
            proof {
                assert(names(parts@) =~= front + seq![tagged("repeat_interleave_suffix_"@, id)]);
            }
        } else {
            proof {
                assert(names(parts@) =~= front + Seq::<Seq<char>>::empty());
            }
        }
        Ok(self.join_parts(parts, tag("repeat_interleave_shape_", id)))
    }

    /// Lowers `repeat_interleave`.
    pub fn op_repeat_interleave(&mut self, op: &Json) -> (r: Result<(), Error>)
        ensures
            final(self).meta() == old(self).meta(),
            (final(self).onnx_graph@, outcome(r)) == repeat_interleave_lowered(
                old(self).meta(),
                old(self).onnx_graph@,
                op@,
            ),
    {
        let id: i64 = op_out_id(op)?;
        let inputs = op_input_ids(op);
        if inputs.len() == 0 {
            return Err(Error::text("repeat_interleave missing inputs"));
        }
        let axis: i64 = self.normalize_axis(inputs[0], attr_i64_or(op, "axis", 0))?;
        let rank: usize = match self.state.tensor_shapes.get(inputs[0]) {
            Some(dims) => dims.len(),
            None => {
                return Err(Error::text("repeat_interleave: missing rank metadata"));
            },
        };
        let input = self.get_tensor_name(inputs[0])?;
        self.add_unsqueeze_node(
            input.clone(),
            tag("repeat_interleave_expanded_", id),
            &ints1(axis.wrapping_add(1)),
            tag("repeat_interleave_axes_", id),
        );
        self.give_repeats(op, id, &inputs)?;
        let parts = self.list_repeats(id, axis.wrapping_add(1), rank);
        let repeats = self.join_parts(parts, tag("repeat_interleave_tile_repeats_", id));
        self.add_binary_node(
            "Tile",
            tag("repeat_interleave_expanded_", id),
            repeats,
            tag("repeat_interleave_tiled_", id),
        );
        self.add_unary_node("Shape", input, tag("repeat_interleave_input_shape_", id));
        let shape = self.repeat_shape(id, axis, rank as i64)?;
        let output = self.get_tensor_name(id)?;
        self.add_binary_node("Reshape", tag("repeat_interleave_tiled_", id), shape, output);
        Ok(())
    }
}

// ---- put_along_axis ----

/// The lowering of `put_along_axis`, for plain assignment.
pub open spec fn put_along_axis_lowered(m: Meta, g: Graph, op: JsonView) -> Step {
    let ins = input_ids(op);
    match out_id(op) {
        Err(e) => failed(g, e),
        Ok(id) => if ins.len() < 3 {
            failed(g, message("put_along_axis missing inputs"@))
        } else if or_default(attr_chars_of(op, "reduce"@), "assign"@) != "assign"@ {
            failed(g, message("put_along_axis only supports reduce=assign"@))
        } else if !or_default(attr_bool_of(op, "include_self"@), true) {
            failed(g, message("put_along_axis only supports include_self=true"@))
        } else {
            match (
                axis_from_front(m, ins[0], or_default(attr_int_of(op, "axis"@), 0)),
                tensor_name(m, ins[0]),
            ) {
                (Err(e), _) => failed(g, e),
                (_, Err(e)) => failed(g, e),
                (Ok(axis), Ok(data)) => match ints_ensured(
                    m,
                    g,
                    ins[1],
                    id,
                    "put_along_axis_indices"@,
                ) {
                    (g, Err(e)) => failed(g, e),
                    (g, Ok(indices)) => match (tensor_name(m, ins[2]), tensor_name(m, id)) {
                        (Err(e), _) => failed(g, e),
                        (_, Err(e)) => failed(g, e),
                        (Ok(values), Ok(output)) => done(
                            scatter_added(g, data, indices, values, output, axis),
                        ),
                    },
                },
            }
        },
    }
}

impl Converter {
    /// Lowers `put_along_axis`.
    pub fn op_put_along_axis(&mut self, op: &Json) -> (r: Result<(), Error>)
        ensures
            final(self).meta() == old(self).meta(),
            (final(self).onnx_graph@, outcome(r)) == put_along_axis_lowered(
                old(self).meta(),
                old(self).onnx_graph@,
                op@,
            ),
    {
        let id: i64 = op_out_id(op)?;
        let inputs = op_input_ids(op);
        if inputs.len() < 3 {
            return Err(Error::text("put_along_axis missing inputs"));
        }
        let assign = match attr_text(op, "reduce") {
            Some(reduce) => same(reduce, "assign"),
            None => true,
        };
        if !assign {
            return Err(Error::text("put_along_axis only supports reduce=assign"));
        }
        if !attr_bool_or(op, "include_self", true) {
            return Err(Error::text("put_along_axis only supports include_self=true"));
        }
        let axis: i64 = self.normalize_axis(inputs[0], attr_i64_or(op, "axis", 0))?;
        let data = self.get_tensor_name(inputs[0])?;
        let indices = self.ensure_i64_input(inputs[1], id, "put_along_axis_indices")?;
        let values = self.get_tensor_name(inputs[2])?;
        let output = self.get_tensor_name(id)?;
        self.add_scatter_node(data, indices, values, output, axis);
        Ok(())
    }
}

} // verus!
