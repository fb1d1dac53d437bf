//! Operators that pick elements of a tensor.

use crate::converter::emit::{
    binary_added, cast_added, done, failed, ints_added, ternary_added, unsqueeze_added, Step,
};
use crate::converter::ops::array::{known_dtype, read_dtype};
use crate::converter::ops::bitwise::finished_unary;
use crate::converter::ops::common::{first_const, names_upto, scalar_ensured};
use crate::converter::ops::math::{finished, operands, read_operands};
use crate::converter::state::{opset_checked, tensor_name, Converter, Meta};
use crate::dtype::FLOAT;
use crate::error::{message, outcome, Error};
use crate::float::{as_i64, to_i64};
use crate::helper::{attr_i64_or, attr_int_of, or_default};
use crate::json::{Json, JsonView};
use crate::onnx::{attr_int, int_attribute, node_of, Graph, NodeProto};
use crate::text::{ints0, ints1, list1, list2, names, tag, tagged};
use vstd::prelude::*;

verus! {

/// A last node of two inputs with an axis.
pub open spec fn finished_along(m: Meta, g: Graph, op: Seq<char>, inputs: Seq<Seq<char>>, id: i64, axis: i64) -> Step {
    match tensor_name(m, id) {
        Err(e) => failed(g, e),
        Ok(output) => done(
            g.with_node(node_of(op, inputs, seq![output]).with(int_attribute("axis"@, axis))),
        ),
    }
}

/// The lowering of `gather`, whose axis is a constant input, or else the first.
pub open spec fn gather_lowered(m: Meta, g: Graph, op: JsonView) -> Step {
    match operands(op, 2, "gather missing inputs"@) {
        Err(e) => failed(g, e),
        Ok((id, ins)) => {
            let axis = if ins.len() > 2 {
                match first_const(m, ins[2]) {
                    Some(v) => Some(to_i64(v)),
                    None => None,
                }
            } else {
                Some(0i64)
            };
            match axis {
                None => failed(g, message("gather requires constant axis input"@)),
                Some(axis) => match names_upto(m, ins, 2) {
                    Err(e) => failed(g, e),
                    Ok(inputs) => finished_along(m, g, "Gather"@, inputs, id, axis),
                },
            }
        },
    }
}

/// The lowering of `gather_nd`.
pub open spec fn gather_nd_lowered(m: Meta, g: Graph, op: JsonView) -> Step {
    match opset_checked(m, 11, "gather_nd"@) {
        Err(e) => failed(g, e),
        Ok(_) => match operands(op, 2, "gather_nd missing inputs"@) {
            Err(e) => failed(g, e),
            Ok((id, ins)) => match names_upto(m, ins, 2) {
                Err(e) => failed(g, e),
                Ok(inputs) => finished(m, g, "GatherND"@, inputs[0], inputs[1], id),
            },
        },
    }
}

/// The lowering of an operator that picks along an axis, which an attribute gives.
pub open spec fn picked_along(m: Meta, g: Graph, op: JsonView, kind: Seq<char>, missing: Seq<char>) -> Step {
    match operands(op, 2, missing) {
        Err(e) => failed(g, e),
        Ok((id, ins)) => match names_upto(m, ins, 2) {
            Err(e) => failed(g, e),
            Ok(inputs) => finished_along(
                m,
                g,
                kind,
                inputs,
                id,
                or_default(attr_int_of(op, "axis"@), 0),
            ),
        },
    }
}

/// The lowering of `index_select`.
pub open spec fn index_select_lowered(m: Meta, g: Graph, op: JsonView) -> Step {
    picked_along(m, g, op, "Gather"@, "index_select missing inputs"@)
}

/// The lowering of `take_along_axis`.
pub open spec fn take_along_axis_lowered(m: Meta, g: Graph, op: JsonView) -> Step {
    picked_along(m, g, op, "GatherElements"@, "take_along_axis missing inputs"@)
}

/// The lowering of `embedding`: rows of the second input, by the first.
pub open spec fn embedding_lowered(m: Meta, g: Graph, op: JsonView) -> Step {
    match operands(op, 2, "embedding missing inputs"@) {
        Err(e) => failed(g, e),
        Ok((id, ins)) => match (tensor_name(m, ins[1]), tensor_name(m, ins[0])) {
            (Err(e), _) => failed(g, e),
            (_, Err(e)) => failed(g, e),
            (Ok(table), Ok(rows)) => finished_along(m, g, "Gather"@, seq![table, rows], id, 0),
        },
    }
}

/// The lowering of `eye`: where the number of the row is that of the column.
pub open spec fn eye_lowered(m: Meta, g: Graph, op: JsonView) -> Step {
    match opset_checked(m, 11, "eye"@) {
        Err(e) => failed(g, e),
        Ok(_) => match operands(op, 2, "eye missing inputs"@) {
            Err(e) => failed(g, e),
            Ok((id, ins)) => match scalar_ensured(m, g, ins[0], id, "eye_rows"@) {
                (g, Err(e)) => failed(g, e),
                (g, Ok(rows)) => match scalar_ensured(m, g, ins[1], id, "eye_cols"@) {
                    (g, Err(e)) => failed(g, e),
                    (g, Ok(cols)) => {
                        let zero = tagged("eye_zero_"@, id);
                        let one = tagged("eye_one_"@, id);
                        let g = ints_added(g, zero, Seq::empty(), seq![0i64]);
                        let g = ints_added(g, one, Seq::empty(), seq![1i64]);
                        let row_range = tagged("eye_rows_range_"@, id);
                        let col_range = tagged("eye_cols_range_"@, id);
                        let g = ternary_added(g, "Range"@, zero, rows, one, row_range);
                        let g = ternary_added(g, "Range"@, zero, cols, one, col_range);
                        let row_column = tagged("eye_rows_unsqueezed_"@, id);
                        let col_row = tagged("eye_cols_unsqueezed_"@, id);
                        let g = unsqueeze_added(
                            g,
                            m.target_opset,
                            row_range,
                            row_column,
                            seq![1i64],
                            tagged("eye_rows_axes_"@, id),
                        );
                        let g = unsqueeze_added(
                            g,
                            m.target_opset,
                            col_range,
                            col_row,
                            seq![0i64],
                            tagged("eye_cols_axes_"@, id),
                        );
                        let equal = tagged("eye_equal_"@, id);
                        let g = binary_added(g, "Equal"@, row_column, col_row, equal);
                        match tensor_name(m, id) {
                            Err(e) => failed(g, e),
                            Ok(output) => done(
                                cast_added(g, equal, output, or_default(known_dtype(op), FLOAT)),
                            ),
                        }
                    },
                },
            },
        },
    }
}

/// The lowering of `not_equal`.
pub open spec fn not_equal_lowered(m: Meta, g: Graph, op: JsonView) -> Step {
    match operands(op, 2, "not_equal missing inputs"@) {
        Err(e) => failed(g, e),
        Ok((id, ins)) => match names_upto(m, ins, 2) {
            Err(e) => failed(g, e),
            Ok(inputs) => {
                let equal = tagged("not_equal_eq_"@, id);
                let g = binary_added(g, "Equal"@, inputs[0], inputs[1], equal);
                finished_unary(m, g, "Not"@, equal, id)
            },
        },
    }
}

impl Converter {
    fn finish_along(&mut self, op_type: &str, inputs: Vec<String>, id: i64, axis: i64) -> (r: Result<
        (),
        Error,
    >)
        ensures
            final(self).meta() == old(self).meta(),
            (final(self).onnx_graph@, outcome(r)) == finished_along(
                old(self).meta(),
                old(self).onnx_graph@,
                op_type@,
                names(inputs@),
                id,
                axis,
            ),
    {
        let output = self.get_tensor_name(id)?;
        self.add_node(
            NodeProto::new(op_type, inputs, list1(output)).with(attr_int("axis", axis)),
        );
        Ok(())
    }

    /// Lowers `gather`.
    pub fn op_gather(&mut self, op: &Json) -> (r: Result<(), Error>)
        ensures
            final(self).meta() == old(self).meta(),
            (final(self).onnx_graph@, outcome(r)) == gather_lowered(
                old(self).meta(),
                old(self).onnx_graph@,
                op@,
            ),
    {
        let (id, ins) = read_operands(op, 2, "gather missing inputs")?;
        let axis: i64 = if ins.len() > 2 {
            match self.first_constant(ins[2]) {
                Some(v) => as_i64(v),
                None => {
                    return Err(Error::text("gather requires constant axis input"));
                },
            }
        } else {
            0
        };
        let inputs = self.first_names(&ins, 2)?;
        self.finish_along("Gather", inputs, id, axis)
    }

    /// Lowers `gather_nd`.
    pub fn op_gather_nd(&mut self, op: &Json) -> (r: Result<(), Error>)
        ensures
            final(self).meta() == old(self).meta(),
            (final(self).onnx_graph@, outcome(r)) == gather_nd_lowered(
                old(self).meta(),
                old(self).onnx_graph@,
                op@,
            ),
    {
        self.require_opset(11, "gather_nd")?;
        let (id, ins) = read_operands(op, 2, "gather_nd missing inputs")?;
        let (data, indices) = self.two_names(&ins)?;
        self.finish("GatherND", data, indices, id)
    }

    fn pick_along(&mut self, op: &Json, kind: &str, missing: &str) -> (r: Result<(), Error>)
        ensures
            final(self).meta() == old(self).meta(),
            (final(self).onnx_graph@, outcome(r)) == picked_along(
                old(self).meta(),
                old(self).onnx_graph@,
                op@,
                kind@,
                missing@,
            ),
    {
        let (id, ins) = read_operands(op, 2, missing)?;
        let inputs = self.first_names(&ins, 2)?;
        self.finish_along(kind, inputs, id, attr_i64_or(op, "axis", 0))
    }

    /// Lowers `index_select`.
    pub fn op_index_select(&mut self, op: &Json) -> (r: Result<(), Error>)
        ensures
            final(self).meta() == old(self).meta(),
            (final(self).onnx_graph@, outcome(r)) == index_select_lowered(
                old(self).meta(),
                old(self).onnx_graph@,
                op@,
            ),
    {
        self.pick_along(op, "Gather", "index_select missing inputs")
    }

    /// Lowers `take_along_axis`.
    pub fn op_take_along_axis(&mut self, op: &Json) -> (r: Result<(), Error>)
        ensures
            final(self).meta() == old(self).meta(),
            (final(self).onnx_graph@, outcome(r)) == take_along_axis_lowered(
                old(self).meta(),
                old(self).onnx_graph@,
                op@,
            ),
    {
        self.pick_along(op, "GatherElements", "take_along_axis missing inputs")
    }

    /// Lowers `embedding`.
    pub fn op_embedding(&mut self, op: &Json) -> (r: Result<(), Error>)
        ensures
            final(self).meta() == old(self).meta(),
            (final(self).onnx_graph@, outcome(r)) == embedding_lowered(
                old(self).meta(),
                old(self).onnx_graph@,
                op@,
            ),
    {
        let (id, ins) = read_operands(op, 2, "embedding missing inputs")?;
        let table = self.get_tensor_name(ins[1])?;
        let rows = self.get_tensor_name(ins[0])?;
        self.finish_along("Gather", list2(table, rows), id, 0)
    }

    /// Lowers `eye`.
    pub fn op_eye(&mut self, op: &Json) -> (r: Result<(), Error>)
        ensures
            final(self).meta() == old(self).meta(),
            (final(self).onnx_graph@, outcome(r)) == eye_lowered(
                old(self).meta(),
                old(self).onnx_graph@,
                op@,
            ),
    {
        self.require_opset(11, "eye")?;
        let (id, ins) = read_operands(op, 2, "eye missing inputs")?;
        let rows = self.ensure_scalar_i64_input(ins[0], id, "eye_rows")?;
        let cols = self.ensure_scalar_i64_input(ins[1], id, "eye_cols")?;
        let zero = tag("eye_zero_", id);
        let one = tag("eye_one_", id);
        self.push_i64_initializer(zero.clone(), ints0(), &ints1(0));
        self.push_i64_initializer(one.clone(), ints0(), &ints1(1));
        let row_range = tag("eye_rows_range_", id);
        let col_range = tag("eye_cols_range_", id);
        self.add_ternary_node("Range", zero.clone(), rows, one.clone(), row_range.clone());
        self.add_ternary_node("Range", zero, cols, one, col_range.clone());
        let row_column = tag("eye_rows_unsqueezed_", id);
        let col_row = tag("eye_cols_unsqueezed_", id);
        self.add_unsqueeze_node(
            row_range,
            row_column.clone(),
            &ints1(1),
            tag("eye_rows_axes_", id),
        );
        self.add_unsqueeze_node(
            col_range,
            col_row.clone(),
            &ints1(0),
            tag("eye_cols_axes_", id),
        );
        let equal = tag("eye_equal_", id);
        self.add_binary_node("Equal", row_column, col_row, equal.clone());
        let to: i32 = match read_dtype(op) {
            Some(to) => to,
            None => FLOAT,
        };
        let output = self.get_tensor_name(id)?;
        self.add_cast_node(equal, output, to);
        Ok(())
    }

    /// Lowers `not_equal`.
    pub fn op_not_equal(&mut self, op: &Json) -> (r: Result<(), Error>)
        ensures
            final(self).meta() == old(self).meta(),
            (final(self).onnx_graph@, outcome(r)) == not_equal_lowered(
                old(self).meta(),
                old(self).onnx_graph@,
                op@,
            ),
    {
        let (id, ins) = read_operands(op, 2, "not_equal missing inputs")?;
        let (lhs, rhs) = self.two_names(&ins)?;
        let equal = tag("not_equal_eq_", id);
        self.add_binary_node("Equal", lhs, rhs, equal.clone());
        self.finish_unary("Not", equal, id)
    }
}

} // verus!
