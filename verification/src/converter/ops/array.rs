//! Constants, casts, slices, expansion and ranges.

use crate::converter::emit::{
    binary_added, cast_added, done, failed, ints_added, numbers_added, slice_added, squeeze_added,
    unary_added, unsqueeze_added, vector_added, Step,
};
use crate::converter::ops::common::{
    add_wrapped, any_negative, const_ints, copy_list, first_const, has_shape, has_type, holds,
    ints_ensured, ints_option, names_result, names_upto, same_list, shape_or_empty, some_negative,
};
use crate::converter::ops::update::joined;
use crate::converter::optimizer::dims::wrapped_product;
use crate::converter::optimizer::options::map_get;
use crate::converter::state::{
    dtype_if_known, name_result, opset_checked, tensor_name, Converter, Meta,
};
use crate::dtype::{dtype_named, paddle_dtype_to_onnx, FLOAT, INT64};
use crate::error::{message, outcome, Error, ErrorView};
use crate::float::{as_i64, is_nan, is_zero, nan, negative, to_i64, zero, SIGN};
use crate::helper::{
    attr_array, attr_chars_of, attr_i64s, attr_ints_of, attr_items_of, attr_text, collect_floats,
    collect_members, first_output, id_result, input_ids, items_float, members_int, op_first_output,
    op_input_ids, op_out_id, or_default, out_id,
};
use crate::json::{Json, JsonView};
use crate::onnx::{node_of, Graph, NodeProto};
use crate::text::{
    dec, dec_list, int_text, ints1, join, join4, join6, list1, list3, list_text, names, push_name,
    same, size_text, tag, tag2, tagged, tagged2,
};
use vstd::prelude::*;

verus! {

// ---- Target shapes of expansions ----

/// A size of a target shape: a value of the graph, or a number.
#[derive(Clone, Copy)]
pub enum ExpandShapePart {
    Tensor(i64),
    Literal(i64),
}

/// A step that yields a name and remembers where the input's shape was taken.
pub type PartStep = (Graph, Option<Seq<char>>, Result<Seq<char>, ErrorView>);

/// The input's axis that an output's axis aligns with.
pub open spec fn aligned_axis(m: Meta, data: i64, rank: nat, axis: nat) -> Result<i64, ErrorView> {
    match map_get(m.tensor_shapes, data) {
        None => Err(message("expand: missing rank metadata for tensor "@ + dec(data as int))),
        Some(dims) => if rank < dims.len() {
            Err(
                message(
                    "expand: output rank "@ + dec(rank as int) + " smaller than input rank "@ + dec(
                        dims.len() as int,
                    ) + " for tensor "@ + dec(data as int),
                ),
            )
        } else if axis < rank - dims.len() {
            Err(
                message(
                    "expand: -1 at axis "@ + dec(axis as int)
                        + " cannot map to leading broadcast axis for tensor "@ + dec(data as int),
                ),
            )
        } else {
            Ok((axis - (rank - dims.len())) as i64)
        },
    }
}

/// A size that is a number. A negative one stands for the input's own size.
pub open spec fn literal_part(m: Meta, g: Graph, data: i64, id: i64, rank: nat, axis: nat, value: i64, shape: Option<Seq<char>>) -> PartStep {
    let part = tagged2("expand_shape_part_"@, id, axis as i64);
    if value >= 0 {
        (ints_added(g, part, seq![1i64], seq![value]), shape, Ok(part))
    } else {
        let own = tagged("expand_input_shape_"@, id);
        let taken: PartStep = match shape {
            Some(name) => (g, shape, Ok(name)),
            None => match tensor_name(m, data) {
                Err(e) => (g, shape, Err(e)),
                Ok(name) => (unary_added(g, "Shape"@, name, own), Some(own), Ok(own)),
            },
        };
        match taken.2 {
            Err(e) => taken,
            Ok(from) => match aligned_axis(m, data, rank, axis) {
                Err(e) => (taken.0, taken.1, Err(e)),
                Ok(at) => match slice_added(
                    taken.0,
                    m.target_opset,
                    from,
                    part,
                    seq![at],
                    seq![add_wrapped(at, 1)],
                    Some(seq![0i64]),
                    None,
                    tagged2("expand_shape_slice_"@, id, axis as i64),
                ) {
                    (g, Err(e)) => (g, taken.1, Err(e)),
                    (g, Ok(_)) => (g, taken.1, Ok(part)),
                },
            },
        }
    }
}

/// A size that is a value of the graph.
pub open spec fn tensor_part(m: Meta, g: Graph, data: i64, id: i64, rank: nat, axis: nat, source: i64, shape: Option<Seq<char>>) -> PartStep {
    let part = tagged2("expand_shape_part_"@, id, axis as i64);
    let casted = tagged2("expand_shape_part_i64_"@, id, axis as i64);
    let dims = shape_or_empty(m, source);
    match first_const(m, source) {
        Some(value) => literal_part(m, g, data, id, rank, axis, to_i64(value), shape),
        None => if dims.len() == 0 {
            match tensor_name(m, source) {
                Err(e) => (g, shape, Err(e)),
                Ok(name) => {
                    let typed = has_type(m, source, "0.t_i64"@);
                    let g = if typed {
                        g
                    } else {
                        cast_added(g, name, casted, INT64)
                    };
                    let from = if typed {
                        name
                    } else {
                        casted
                    };
                    (
                        unsqueeze_added(
                            g,
                            m.target_opset,
                            from,
                            part,
                            seq![0i64],
                            tagged2("expand_shape_axes_"@, id, axis as i64),
                        ),
                        shape,
                        Ok(part),
                    )
                },
            }
        } else if dims == seq![1i64] {
            match tensor_name(m, source) {
                Err(e) => (g, shape, Err(e)),
                Ok(name) => if has_type(m, source, "0.t_i64"@) {
                    (g, shape, Ok(name))
                } else {
                    (cast_added(g, name, casted, INT64), shape, Ok(casted))
                },
            }
        } else {
            (
                g,
                shape,
                Err(
                    message(
                        "expand: unsupported dynamic shape part "@ + dec(source as int)
                            + " with rank "@ + dec(dims.len() as int),
                    ),
                ),
            )
        },
    }
}

/// A size of a target shape.
pub open spec fn shape_part_made(m: Meta, g: Graph, data: i64, id: i64, rank: nat, axis: nat, part: ExpandShapePart, shape: Option<Seq<char>>) -> PartStep {
    match part {
        ExpandShapePart::Literal(value) => literal_part(m, g, data, id, rank, axis, value, shape),
        ExpandShapePart::Tensor(source) => tensor_part(m, g, data, id, rank, axis, source, shape),
    }
}

/// The first `k` sizes of a target shape.
pub open spec fn shape_parts_made(m: Meta, g: Graph, data: i64, id: i64, parts: Seq<ExpandShapePart>, k: nat) -> (
    Graph,
    Option<Seq<char>>,
    Result<Seq<Seq<char>>, ErrorView>,
)
    decreases k,
{
    if k == 0 {
        (g, None, Ok(Seq::empty()))
    } else {
        let (h, shape, r) = shape_parts_made(m, g, data, id, parts, (k - 1) as nat);
        match r {
            Err(e) => (h, shape, Err(e)),
            Ok(front) => {
                let (h, shape, r) = shape_part_made(
                    m,
                    h,
                    data,
                    id,
                    parts.len(),
                    (k - 1) as nat,
                    parts[k - 1],
                    shape,
                );
                match r {
                    Err(e) => (h, shape, Err(e)),
                    Ok(name) => (h, shape, Ok(front.push(name))),
                }
            },
        }
    }
}

/// A target shape.
#[verifier::opaque]
pub open spec fn expand_shape_made(m: Meta, g: Graph, data: i64, id: i64, parts: Seq<ExpandShapePart>) -> (
    Graph,
    Result<Seq<char>, ErrorView>,
) {
    match shape_parts_made(m, g, data, id, parts, parts.len()) {
        (g, _, Err(e)) => (g, Err(e)),
        (g, _, Ok(list)) => {
            let (g, name) = joined(g, list, tagged("expand_shape_"@, id));
            (g, Ok(name))
        },
    }
}

/// The sizes of a target shape that are values of the graph.
pub open spec fn tensor_parts(ids: Seq<i64>) -> Seq<ExpandShapePart> {
    Seq::new(ids.len(), |i: int| ExpandShapePart::Tensor(ids[i]))
}

/// The sizes of a target shape that are numbers.
pub open spec fn literal_parts(values: Seq<i64>) -> Seq<ExpandShapePart> {
    Seq::new(values.len(), |i: int| ExpandShapePart::Literal(values[i]))
}

proof fn lemma_shape_parts_err(m: Meta, g: Graph, data: i64, id: i64, parts: Seq<ExpandShapePart>, k: nat, n: nat)
    requires
        k <= n,
        shape_parts_made(m, g, data, id, parts, k).2 is Err,
    ensures
        shape_parts_made(m, g, data, id, parts, n) == shape_parts_made(m, g, data, id, parts, k),
    decreases n,
{
    if k < n {
        lemma_shape_parts_err(m, g, data, id, parts, k, (n - 1) as nat);
    }
}

/// The content of an optional name.
pub open spec fn shape_view(name: Option<String>) -> Option<Seq<char>> {
    match name {
        Some(name) => Some(name@),
        None => None,
    }
}

impl Converter {
    fn aligned_expand_input_axis(&self, data_id: i64, output_rank: usize, output_axis: usize) -> (r: Result<
        i64,
        Error,
    >)
        ensures
            id_result(r) == aligned_axis(
                self.meta(),
                data_id,
                output_rank as nat,
                output_axis as nat,
            ),
    {
        let rank: usize = match self.state.tensor_shapes.get(data_id) {
            Some(dims) => dims.len(),
            None => {
                return Err(
                    Error::owned(tag("expand: missing rank metadata for tensor ", data_id)),
                );
            },
        };
        if output_rank < rank {
            return Err(
                Error::owned(
                    join6(
                        "expand: output rank ",
                        size_text(output_rank).as_str(),
                        " smaller than input rank ",
                        size_text(rank).as_str(),
                        " for tensor ",
                        int_text(data_id).as_str(),
                    ),
                ),
            );
        }
        let leading = output_rank - rank;
        if output_axis < leading {
            return Err(
                Error::owned(
                    join4(
                        "expand: -1 at axis ",
                        size_text(output_axis).as_str(),
                        " cannot map to leading broadcast axis for tensor ",
                        int_text(data_id).as_str(),
                    ),
                ),
            );
        }
        Ok((output_axis - leading) as i64)
    }

    fn ensure_expand_shape_literal_part(
        &mut self,
        data_id: i64,
        out_id: i64,
        output_rank: usize,
        output_axis: usize,
        value: i64,
        input_shape_name: &mut Option<String>,
    ) -> (r: Result<String, Error>)
        ensures
            final(self).meta() == old(self).meta(),
            (
                final(self).onnx_graph@,
                shape_view(*final(input_shape_name)),
                name_result(r),
            ) == literal_part(
                old(self).meta(),
                old(self).onnx_graph@,
                data_id,
                out_id,
                output_rank as nat,
                output_axis as nat,
                value,
                shape_view(*old(input_shape_name)),
            ),
    {
        let part = tag2("expand_shape_part_", out_id, output_axis as i64);
        if value >= 0 {
            self.push_i64_initializer(part.clone(), ints1(1), &ints1(value));
            return Ok(part);
        }
        let known: Option<String> = match input_shape_name {
            Some(name) => Some(name.clone()),
            None => None,
        };
        let from: String = match known {
            Some(name) => name,
            None => {
                let own = tag("expand_input_shape_", out_id);
                let name = self.get_tensor_name(data_id)?;
                self.add_unary_node("Shape", name, own.clone());
                *input_shape_name = Some(own.clone());
                own
            },
        };
        let at: i64 = self.aligned_expand_input_axis(data_id, output_rank, output_axis)?;
        self.add_slice_node(
            from,
            part.clone(),
            &ints1(at),
            &ints1(at.wrapping_add(1)),
            Some(&ints1(0)),
            None,
            tag2("expand_shape_slice_", out_id, output_axis as i64).as_str(),
        )?;
        Ok(part)
    }

    fn ensure_expand_shape_tensor_part(
        &mut self,
        data_id: i64,
        out_id: i64,
        output_rank: usize,
        output_axis: usize,
        part_id: i64,
        input_shape_name: &mut Option<String>,
    ) -> (r: Result<String, Error>)
        ensures
            final(self).meta() == old(self).meta(),
            (
                final(self).onnx_graph@,
                shape_view(*final(input_shape_name)),
                name_result(r),
            ) == tensor_part(
                old(self).meta(),
                old(self).onnx_graph@,
                data_id,
                out_id,
                output_rank as nat,
                output_axis as nat,
                part_id,
                shape_view(*old(input_shape_name)),
            ),
    {
        match self.first_constant(part_id) {
            Some(value) => {
                return self.ensure_expand_shape_literal_part(
                    data_id,
                    out_id,
                    output_rank,
                    output_axis,
                    as_i64(value),
                    input_shape_name,
                );
            },
            None => {},
        }
        let casted = tag2("expand_shape_part_i64_", out_id, output_axis as i64);
        let dims = self.dims_or_empty(part_id);
        if dims.len() == 0 {
            let mut source = self.get_tensor_name(part_id)?;
            if !self.is_type(part_id, "0.t_i64") {
                self.add_cast_node(source, casted.clone(), INT64);
                source = casted;
            }
            let part = tag2("expand_shape_part_", out_id, output_axis as i64);
            self.add_unsqueeze_node(
                source,
                part.clone(),
                &ints1(0),
                tag2("expand_shape_axes_", out_id, output_axis as i64),
            );
            return Ok(part);
        }
        if same_list(&dims, &ints1(1)) {
            let name = self.get_tensor_name(part_id)?;
            if self.is_type(part_id, "0.t_i64") {
                return Ok(name);
            }
            self.add_cast_node(name, casted.clone(), INT64);
            return Ok(casted);
        }
        Err(
            Error::owned(
                join4(
                    "expand: unsupported dynamic shape part ",
                    int_text(part_id).as_str(),
                    " with rank ",
                    size_text(dims.len()).as_str(),
                ),
            ),
        )
    }

    fn ensure_expand_shape_part(
        &mut self,
        data_id: i64,
        out_id: i64,
        output_rank: usize,
        output_axis: usize,
        part: ExpandShapePart,
        input_shape_name: &mut Option<String>,
    ) -> (r: Result<String, Error>)
        ensures
            final(self).meta() == old(self).meta(),
            (
                final(self).onnx_graph@,
                shape_view(*final(input_shape_name)),
                name_result(r),
            ) == shape_part_made(
                old(self).meta(),
                old(self).onnx_graph@,
                data_id,
                out_id,
                output_rank as nat,
                output_axis as nat,
                part,
                shape_view(*old(input_shape_name)),
            ),
    {
        match part {
            ExpandShapePart::Literal(value) => self.ensure_expand_shape_literal_part(
                data_id,
                out_id,
                output_rank,
                output_axis,
                value,
                input_shape_name,
            ),
            ExpandShapePart::Tensor(part_id) => self.ensure_expand_shape_tensor_part(
                data_id,
                out_id,
                output_rank,
                output_axis,
                part_id,
                input_shape_name,
            ),
        }
    }

    fn build_expand_shape(&mut self, data_id: i64, out_id: i64, parts: &Vec<ExpandShapePart>) -> (r: Result<
        String,
        Error,
    >)
        ensures
            final(self).meta() == old(self).meta(),
            (final(self).onnx_graph@, name_result(r)) == expand_shape_made(
                old(self).meta(),
                old(self).onnx_graph@,
                data_id,
                out_id,
                parts@,
            ),
    {
        proof {
            reveal(expand_shape_made);
        }
        let ghost m = self.meta();
        let ghost g = self.onnx_graph@;
        let mut shape: Option<String> = None;
        let mut list: Vec<String> = Vec::new();
        let mut i: usize = 0;
        proof {
            assert(names(list@) =~= Seq::empty());
        }
        while i < parts.len()
            invariant
                i <= parts.len(),
                self.meta() == m,
                m == old(self).meta(),
                g == old(self).onnx_graph@,
                (
                    self.onnx_graph@,
                    shape_view(shape),
                    Ok::<Seq<Seq<char>>, ErrorView>(names(list@)),
                ) == shape_parts_made(m, g, data_id, out_id, parts@, i as nat),
            decreases parts.len() - i,
        {
            match self.ensure_expand_shape_part(
                data_id,
                out_id,
                parts.len(),
                i,
                parts[i],
                &mut shape,
            ) {
                Ok(name) => {
                    push_name(&mut list, name);
                },
                Err(e) => {
                    proof {
                        reveal(expand_shape_made);
                        lemma_shape_parts_err(
                            m,
                            g,
                            data_id,
                            out_id,
                            parts@,
                            (i + 1) as nat,
                            parts@.len(),
                        );
                    }
                    return Err(e);
                },
            }
            i = i + 1;
        }
        Ok(self.join_parts(list, tag("expand_shape_", out_id)))
    }

    /// Builds a target shape from values of the graph.
    pub fn build_expand_shape_from_parts(&mut self, data_id: i64, out_id: i64, part_ids: &Vec<i64>) -> (r: Result<
        String,
        Error,
    >)
        ensures
            final(self).meta() == old(self).meta(),
            (final(self).onnx_graph@, name_result(r)) == expand_shape_made(
                old(self).meta(),
                old(self).onnx_graph@,
                data_id,
                out_id,
                tensor_parts(part_ids@),
            ),
    {
        let mut parts: Vec<ExpandShapePart> = Vec::new();
        let mut i: usize = 0;
        while i < part_ids.len()
            invariant
                i <= part_ids.len(),
                parts@ =~= tensor_parts(part_ids@).take(i as int),
            decreases part_ids.len() - i,
        {
            parts.push(ExpandShapePart::Tensor(part_ids[i]));
            i = i + 1;
        }
        proof {
            assert(parts@ =~= tensor_parts(part_ids@));
        }
        self.build_expand_shape(data_id, out_id, &parts)
    }

    /// Builds a target shape from numbers.
    pub fn build_expand_shape_from_literals(&mut self, data_id: i64, out_id: i64, values: &Vec<i64>) -> (r: Result<
        String,
        Error,
    >)
        ensures
            final(self).meta() == old(self).meta(),
            (final(self).onnx_graph@, name_result(r)) == expand_shape_made(
                old(self).meta(),
                old(self).onnx_graph@,
                data_id,
                out_id,
                literal_parts(values@),
            ),
    {
        let mut parts: Vec<ExpandShapePart> = Vec::new();
        let mut i: usize = 0;
        while i < values.len()
            invariant
                i <= values.len(),
                parts@ =~= literal_parts(values@).take(i as int),
            decreases values.len() - i,
        {
            parts.push(ExpandShapePart::Literal(values[i]));
            i = i + 1;
        }
        proof {
            assert(parts@ =~= literal_parts(values@));
        }
        self.build_expand_shape(data_id, out_id, &parts)
    }
}

/// Whether a value is below zero.
pub open spec fn below_zero(b: u64) -> bool {
    negative(b) && !zero(b) && !nan(b)
}

/// Whether one of the values is a constant below zero.
pub open spec fn some_part_negative(m: Meta, ids: Seq<i64>) -> bool {
    exists|i: int|
        0 <= i < ids.len() && (match first_const(m, #[trigger] ids[i]) {
            Some(v) => below_zero(v),
            None => false,
        })
}

/// An `Expand` to a shape that is made first.
pub open spec fn expanded_to(m: Meta, made: (Graph, Result<Seq<char>, ErrorView>), data: Seq<char>, id: i64) -> Step {
    match made {
        (g, Err(e)) => failed(g, e),
        (g, Ok(shape)) => match tensor_name(m, id) {
            Err(e) => failed(g, e),
            Ok(output) => done(binary_added(g, "Expand"@, data, shape, output)),
        },
    }
}

/// The lowering of `expand`. Sizes below zero stand for the input's own sizes.
pub open spec fn expand_lowered(m: Meta, g: Graph, op: JsonView) -> Step {
    let ins = input_ids(op);
    match out_id(op) {
        Err(e) => failed(g, e),
        Ok(id) => if ins.len() < 2 {
            failed(g, message("expand missing inputs"@))
        } else {
            match tensor_name(m, ins[0]) {
                Err(e) => failed(g, e),
                Ok(data) => {
                    let literal = const_ints(m, ins[1]);
                    let parts = map_get(m.stack_parts, ins[1]);
                    if literal is Some && some_negative(literal->0) {
                        expanded_to(
                            m,
                            expand_shape_made(m, g, ins[0], id, literal_parts(literal->0)),
                            data,
                            id,
                        )
                    } else if parts is Some && some_part_negative(m, parts->0) {
                        expanded_to(
                            m,
                            expand_shape_made(m, g, ins[0], id, tensor_parts(parts->0)),
                            data,
                            id,
                        )
                    } else {
                        expanded_to(m, (g, tensor_name(m, ins[1])), data, id)
                    }
                },
            }
        },
    }
}

impl Converter {
    fn any_part_negative(&self, ids: &Vec<i64>) -> (r: bool)
        ensures
            r == some_part_negative(self.meta(), ids@),
    {
        let mut i: usize = 0;
        while i < ids.len()
            invariant
                i <= ids.len(),
                forall|k: int|
                    0 <= k < i ==> !(match first_const(self.meta(), #[trigger] ids@[k]) {
                        Some(v) => below_zero(v),
                        None => false,
                    }),
            decreases ids.len() - i,
        {
            match self.first_constant(ids[i]) {
                Some(v) => {
                    if v >= SIGN && !is_zero(v) && !is_nan(v) {
                        return true;
                    }
                },
                None => {},
            }
            i = i + 1;
        }
        false
    }

    /// Lowers `expand`.
    pub fn op_expand(&mut self, op: &Json) -> (r: Result<(), Error>)
        ensures
            final(self).meta() == old(self).meta(),
            (final(self).onnx_graph@, outcome(r)) == expand_lowered(
                old(self).meta(),
                old(self).onnx_graph@,
                op@,
            ),
    {
        let id: i64 = op_out_id(op)?;
        let inputs = op_input_ids(op);
        if inputs.len() < 2 {
            return Err(Error::text("expand missing inputs"));
        }
        let data = self.get_tensor_name(inputs[0])?;
        match self.constant_ints(inputs[1]) {
            Some(values) => {
                if any_negative(&values) {
                    let shape = self.build_expand_shape_from_literals(inputs[0], id, &values)?;
                    let output = self.get_tensor_name(id)?;
                    self.add_binary_node("Expand", data, shape, output);
                    return Ok(());
                }
            },
            None => {},
        }
        let parts: Option<Vec<i64>> = match self.state.stack_parts.get(inputs[1]) {
            Some(parts) => Some(copy_list(parts)),
            None => None,
        };
        match parts {
            Some(parts) => {
                if self.any_part_negative(&parts) {
                    let shape = self.build_expand_shape_from_parts(inputs[0], id, &parts)?;
                    let output = self.get_tensor_name(id)?;
                    self.add_binary_node("Expand", data, shape, output);
                    return Ok(());
                }
            },
            None => {},
        }
        let shape = self.get_tensor_name(inputs[1])?;
        let output = self.get_tensor_name(id)?;
        self.add_binary_node("Expand", data, shape, output);
        Ok(())
    }
}

// ---- Constants ----

/// How many values a constant of the given sizes has.
pub open spec fn value_count(dims: Seq<i64>) -> usize {
    if dims.len() == 0 {
        1
    } else if dims.contains(0) {
        0
    } else {
        wrapped_product(dims) as usize
    }
}

/// The lowering of `assign_value_`.
pub open spec fn assign_value_lowered(m: Meta, g: Graph, op: JsonView) -> Step {
    match (out_id(op), attr_chars_of(op, "dtype"@)) {
        (Err(e), _) => failed(g, e),
        (Ok(_), None) => failed(g, message("assign_value_: missing dtype"@)),
        (Ok(id), Some(dtype)) => match dtype_named(dtype) {
            None => failed(g, message("assign_value_: unsupported dtype "@ + dtype)),
            Some(to) => {
                let listed = or_default(attr_ints_of(op, "shape"@), Seq::empty());
                let values = match attr_items_of(op, "values"@) {
                    Some(items) => items_float(items, items.len()),
                    None => Seq::empty(),
                };
                let dims = if listed.len() == 0 && values.len() > 1 {
                    seq![values.len() as i64]
                } else {
                    listed
                };
                match tensor_name(m, id) {
                    Err(e) => failed(g, e),
                    Ok(name) => if values.len() != value_count(dims) {
                        failed(
                            g,
                            message(
                                "assign_value_ shape "@ + dec_list(dims) + " expects "@ + dec(
                                    value_count(dims) as int,
                                ) + " values, got "@ + dec(values.len() as int),
                            ),
                        )
                    } else {
                        numbers_added(g, name, dims, to, values)
                    },
                }
            },
        },
    }
}

/// The product of sizes, wrapping around.
pub fn multiply_all(dims: &Vec<i64>) -> (r: i64)
    ensures
        r == wrapped_product(dims@),
{
    let mut n: i64 = 1;
    let mut i: usize = 0;
    while i < dims.len()
        invariant
            i <= dims.len(),
            n == wrapped_product(dims@.take(i as int)),
        decreases dims.len() - i,
    {
        proof {
            assert(dims@.take(i + 1).drop_last() =~= dims@.take(i as int));
            assert(dims@.take(i + 1).last() == dims@[i as int]);
        }
        n = n.wrapping_mul(dims[i]);
        i = i + 1;
    }
    proof {
        assert(dims@.take(i as int) =~= dims@);
    }
    n
}

fn count_values(dims: &Vec<i64>) -> (r: usize)
    ensures
        r == value_count(dims@),
{
    if dims.len() == 0 {
        1
    } else if holds(dims, 0) {
        0
    } else {
        multiply_all(dims) as usize
    }
}

fn shape_mismatch(what: &str, dims: &Vec<i64>, expected: &str, found: usize) -> (r: Error)
    ensures
        r@ == message(
            what@ + dec_list(dims@) + " expects "@ + expected@ + " values, got "@ + dec(
                found as int,
            ),
        ),
{
    Error::owned(
        join6(
            what,
            list_text(dims).as_str(),
            " expects ",
            expected,
            " values, got ",
            size_text(found).as_str(),
        ),
    )
}

impl Converter {
    /// Lowers `assign_value_`.
    pub fn op_assign_value(&mut self, op: &Json) -> (r: Result<(), Error>)
        ensures
            final(self).meta() == old(self).meta(),
            (final(self).onnx_graph@, outcome(r)) == assign_value_lowered(
                old(self).meta(),
                old(self).onnx_graph@,
                op@,
            ),
    {
        let id: i64 = op_out_id(op)?;
        let dtype = match attr_text(op, "dtype") {
            Some(dtype) => dtype,
            None => {
                return Err(Error::text("assign_value_: missing dtype"));
            },
        };
        let to: i32 = match paddle_dtype_to_onnx(dtype) {
            Some(to) => to,
            None => {
                return Err(Error::owned(join("assign_value_: unsupported dtype ", dtype)));
            },
        };
        let mut dims = match attr_i64s(op, "shape") {
            Some(dims) => dims,
            None => Vec::new(),
        };
        let values = match attr_array(op, "values") {
            Some(items) => collect_floats(items),
            None => Vec::new(),
        };
        let name = self.get_tensor_name(id)?;
        if dims.len() == 0 && values.len() > 1 {
            dims = ints1(values.len() as i64);
        }
        let expected: usize = count_values(&dims);
        if values.len() != expected {
            return Err(
                shape_mismatch(
                    "assign_value_ shape ",
                    &dims,
                    size_text(expected).as_str(),
                    values.len(),
                ),
            );
        }
        self.push_numeric_initializer(name, dims, to, &values)
    }
}

/// The element type of a `full` or `full_int_array`.
pub open spec fn full_dtype(op_type: Seq<char>, op: JsonView) -> Result<i32, ErrorView> {
    match attr_chars_of(op, "dtype"@) {
        None => Ok(INT64),
        Some(dtype) => if op_type == "1.full"@ {
            match dtype_named(dtype) {
                Some(to) => Ok(to),
                None => Err(message("full: unsupported dtype "@ + dtype)),
            }
        } else if op_type == "1.full_int_array"@ {
            Ok(or_default(dtype_named(dtype), INT64))
        } else {
            Ok(INT64)
        },
    }
}

/// How many values a shape asks for, or -1 where it is not fixed.
pub open spec fn volume(dims: Seq<i64>) -> i64 {
    if dims.len() == 0 {
        1
    } else if some_negative(dims) {
        -1i64
    } else {
        wrapped_product(dims)
    }
}

/// The values of a constant: a single one is repeated as often as the shape asks for, and a shape
/// with a zero has none.
pub open spec fn full_values(values: Seq<u64>, dims: Seq<i64>) -> Seq<u64> {
    if some_negative(dims) {
        values
    } else if dims.contains(0) {
        Seq::empty()
    } else if volume(dims) > 1 && values.len() == 1 {
        Seq::new(volume(dims) as nat, |i: int| values[0])
    } else {
        values
    }
}

/// The sizes of a constant. A shape that is not fixed gives way to that of a plain list, and so
/// does, for `full_int_array`, one that does not match the values.
pub open spec fn full_dims(op_type: Seq<char>, values: Seq<u64>, dims: Seq<i64>) -> Seq<i64> {
    let fixed = if some_negative(dims) {
        seq![values.len() as i64]
    } else {
        dims
    };
    if op_type == "1.full_int_array"@ && (fixed.len() == 0 || volume(dims) != full_values(
        values,
        dims,
    ).len() as i64) {
        seq![values.len() as i64]
    } else {
        fixed
    }
}

/// How many values the final sizes ask for.
pub open spec fn final_volume(dims: Seq<i64>) -> i64 {
    if dims.len() == 0 {
        1
    } else if dims.contains(0) {
        0
    } else {
        wrapped_product(dims)
    }
}

/// The lowering of `full` and `full_int_array`: a constant that was found beforehand.
pub open spec fn full_lowered(m: Meta, g: Graph, op_type: Seq<char>, op: JsonView) -> Step {
    match first_output(op) {
        None => done(g),
        Some(id) => match map_get(m.constants, id) {
            None => done(g),
            Some(values) => match (full_dtype(op_type, op), tensor_name(m, id)) {
                (Err(e), _) => failed(g, e),
                (_, Err(e)) => failed(g, e),
                (Ok(to), Ok(name)) => {
                    let listed = or_default(attr_ints_of(op, "shape"@), Seq::empty());
                    let list = full_values(values, listed);
                    let dims = full_dims(op_type, values, listed);
                    if !some_negative(dims) && final_volume(dims) != list.len() as i64 {
                        failed(
                            g,
                            message(
                                op_type + " initializer shape "@ + dec_list(dims) + " expects "@
                                    + dec(final_volume(dims) as int) + " values, got "@ + dec(
                                    list.len() as int,
                                ),
                            ),
                        )
                    } else {
                        numbers_added(g, name, dims, to, list)
                    }
                },
            },
        },
    }
}

fn repeat_value(value: u64, count: i64) -> (r: Vec<u64>)
    requires
        count >= 0,
    ensures
        r@ == Seq::new(count as nat, |i: int| value),
{
    let mut list: Vec<u64> = Vec::new();
    let mut i: i64 = 0;
    while i < count
        invariant
            0 <= i <= count,
            list@ =~= Seq::new(i as nat, |k: int| value),
        decreases count - i,
    {
        list.push(value);
        i = i + 1;
    }
    list
}

fn copy_values(values: &Vec<u64>) -> (r: Vec<u64>)
    ensures
        r@ == values@,
{
    let r = values.clone();
    proof {
        assert(r@ =~= values@);
    }
    r
}

fn volume_of(dims: &Vec<i64>) -> (r: i64)
    ensures
        r == volume(dims@),
{
    if dims.len() == 0 {
        1
    } else if any_negative(dims) {
        -1
    } else {
        multiply_all(dims)
    }
}

fn materialize(values: &Vec<u64>, dims: &Vec<i64>) -> (r: Vec<u64>)
    ensures
        r@ == full_values(values@, dims@),
{
    if any_negative(dims) {
        copy_values(values)
    } else if holds(dims, 0) {
        Vec::new()
    } else {
        let wanted: i64 = volume_of(dims);
        if wanted > 1 && values.len() == 1 {
            repeat_value(values[0], wanted)
        } else {
            copy_values(values)
        }
    }
}

fn settle_dims(op_type: &str, values: &Vec<u64>, dims: Vec<i64>, found: usize) -> (r: Vec<i64>)
    requires
        found == full_values(values@, dims@).len(),
    ensures
        r@ == full_dims(op_type@, values@, dims@),
{
    let wanted: i64 = volume_of(&dims);
    let fixed: Vec<i64> = if any_negative(&dims) {
        ints1(values.len() as i64)
    } else {
        dims
    };
    if same(op_type, "1.full_int_array") && (fixed.len() == 0 || wanted != found as i64) {
        ints1(values.len() as i64)
    } else {
        fixed
    }
}

impl Converter {
    /// Lowers `full` and `full_int_array`.
    pub fn op_full(&mut self, op_type: &str, op: &Json) -> (r: Result<(), Error>)
        ensures
            final(self).meta() == old(self).meta(),
            (final(self).onnx_graph@, outcome(r)) == full_lowered(
                old(self).meta(),
                old(self).onnx_graph@,
                op_type@,
                op@,
            ),
    {
        let id: i64 = match op_first_output(op) {
            Some(id) => id,
            None => {
                return Ok(());
            },
        };
        let values: Vec<u64> = match self.state.constants.get(id) {
            Some(values) => copy_values(values),
            None => {
                return Ok(());
            },
        };
        let listed = match attr_i64s(op, "shape") {
            Some(dims) => dims,
            None => Vec::new(),
        };
        let mut to: i32 = INT64;
        match attr_text(op, "dtype") {
            Some(dtype) => {
                if same(op_type, "1.full") {
                    match paddle_dtype_to_onnx(dtype) {
                        Some(found) => {
                            to = found;
                        },
                        None => {
                            return Err(Error::owned(join("full: unsupported dtype ", dtype)));
                        },
                    }
                } else if same(op_type, "1.full_int_array") {
                    match paddle_dtype_to_onnx(dtype) {
                        Some(found) => {
                            to = found;
                        },
                        None => {},
                    }
                }
            },
            None => {},
        }
        let name = self.get_tensor_name(id)?;
        let list = materialize(&values, &listed);
        let dims = settle_dims(op_type, &values, listed, list.len());
        let wanted: i64 = if dims.len() == 0 {
            1
        } else if holds(&dims, 0) {
            0
        } else {
            multiply_all(&dims)
        };
        if !any_negative(&dims) && wanted != list.len() as i64 {
            return Err(
                shape_mismatch(
                    join(op_type, " initializer shape ").as_str(),
                    &dims,
                    int_text(wanted).as_str(),
                    list.len(),
                ),
            );
        }
        self.push_numeric_initializer(name, dims, to, &list)
    }
}

// ---- Casts, ranges and limits ----

/// The element type that a `dtype` attribute names, where it names a known one.
pub open spec fn known_dtype(op: JsonView) -> Option<i32> {
    match attr_chars_of(op, "dtype"@) {
        Some(dtype) => dtype_named(dtype),
        None => None,
    }
}

/// The element type that a `dtype` attribute names, where it names a known one.
pub fn read_dtype(op: &Json) -> (r: Option<i32>)
    ensures
        r == known_dtype(op@),
{
    match attr_text(op, "dtype") {
        Some(dtype) => paddle_dtype_to_onnx(dtype),
        None => None,
    }
}

/// The lowering of `cast`.
pub open spec fn cast_lowered(m: Meta, g: Graph, op: JsonView) -> Step {
    let ins = input_ids(op);
    match attr_chars_of(op, "dtype"@) {
        None => failed(g, message("cast: missing dtype"@)),
        Some(dtype) => match dtype_named(dtype) {
            None => failed(g, message("cast: unsupported dtype "@ + dtype)),
            Some(to) => if ins.len() == 0 {
                failed(g, message("cast missing inputs"@))
            } else {
                match out_id(op) {
                    Err(e) => failed(g, e),
                    Ok(id) => match (tensor_name(m, ins[0]), tensor_name(m, id)) {
                        (Err(e), _) => failed(g, e),
                        (_, Err(e)) => failed(g, e),
                        (Ok(input), Ok(output)) => done(cast_added(g, input, output, to)),
                    },
                }
            },
        },
    }
}

/// The first `k` inputs of a range, each as a scalar.
pub open spec fn range_inputs(m: Meta, g: Graph, id: i64, ins: Seq<i64>, k: nat) -> (
    Graph,
    Result<Seq<Seq<char>>, ErrorView>,
)
    decreases k,
{
    if k == 0 {
        (g, Ok(Seq::empty()))
    } else {
        match range_inputs(m, g, id, ins, (k - 1) as nat) {
            (g, Err(e)) => (g, Err(e)),
            (g, Ok(front)) => match tensor_name(m, ins[k - 1]) {
                Err(e) => (g, Err(e)),
                Ok(name) => if has_shape(m, ins[k - 1], seq![1i64]) {
                    let squeezed = tagged2("arange_squeezed_"@, id, (k - 1) as i64);
                    (
                        squeeze_added(
                            g,
                            m.target_opset,
                            name,
                            squeezed,
                            Some(seq![0i64]),
                            Some(tagged2("arange_squeeze_axes_"@, id, (k - 1) as i64)),
                        ),
                        Ok(front.push(squeezed)),
                    )
                } else {
                    (g, Ok(front.push(name)))
                },
            },
        }
    }
}

/// The lowering of `arange`: a `Range`, and a `Cast` where an element type is asked for.
pub open spec fn arange_lowered(m: Meta, g: Graph, op: JsonView) -> Step {
    let ins = input_ids(op);
    match (opset_checked(m, 11, "arange"@), out_id(op)) {
        (Err(e), _) => failed(g, e),
        (_, Err(e)) => failed(g, e),
        (Ok(_), Ok(id)) => if ins.len() < 3 {
            failed(g, message("arange missing inputs"@))
        } else {
            match range_inputs(m, g, id, ins, 3) {
                (g, Err(e)) => failed(g, e),
                (g, Ok(list)) => match (known_dtype(op), tensor_name(m, id)) {
                    (None, Err(e)) => failed(g, e),
                    (None, Ok(output)) => done(
                        g.with_node(node_of("Range"@, list, seq![output])),
                    ),
                    (Some(to), named) => {
                        let raw = tagged("arange_raw_"@, id);
                        let g = g.with_node(node_of("Range"@, list, seq![raw]));
                        match named {
                            Err(e) => failed(g, e),
                            Ok(output) => if raw == output {
                                done(g)
                            } else {
                                done(cast_added(g, raw, output, to))
                            },
                        }
                    },
                },
            }
        },
    }
}

/// The limits of a `clip`, from the second input up to the `k`th: each takes the element type of
/// the first.
pub open spec fn clip_inputs(m: Meta, g: Graph, id: i64, ins: Seq<i64>, to: Option<i32>, first: Seq<char>, k: nat) -> (
    Graph,
    Result<Seq<Seq<char>>, ErrorView>,
)
    decreases k,
{
    if k <= 1 {
        (g, Ok(seq![first]))
    } else {
        match clip_inputs(m, g, id, ins, to, first, (k - 1) as nat) {
            (g, Err(e)) => (g, Err(e)),
            (g, Ok(front)) => match tensor_name(m, ins[k - 1]) {
                Err(e) => (g, Err(e)),
                Ok(name) => if to is Some && to->0 != FLOAT && (has_type(
                    m,
                    ins[k - 1],
                    "0.t_f32"@,
                ) || has_type(m, ins[k - 1], "0.t_f64"@)) {
                    let casted = tagged2("clip_cast_"@, id, (k - 1) as i64);
                    (cast_added(g, name, casted, to->0), Ok(front.push(casted)))
                } else {
                    (g, Ok(front.push(name)))
                },
            },
        }
    }
}

/// The lowering of `clip`.
pub open spec fn clip_lowered(m: Meta, g: Graph, op: JsonView) -> Step {
    let ins = input_ids(op);
    match out_id(op) {
        Err(e) => failed(g, e),
        Ok(id) => if ins.len() == 0 {
            failed(g, message("clip missing inputs"@))
        } else {
            match (dtype_if_known(m, ins[0]), tensor_name(m, ins[0])) {
                (Err(e), _) => failed(g, e),
                (_, Err(e)) => failed(g, e),
                (Ok(to), Ok(first)) => match clip_inputs(m, g, id, ins, to, first, ins.len()) {
                    (g, Err(e)) => failed(g, e),
                    (g, Ok(list)) => match tensor_name(m, id) {
                        Err(e) => failed(g, e),
                        Ok(output) => done(g.with_node(node_of("Clip"@, list, seq![output]))),
                    },
                },
            }
        },
    }
}

impl Converter {
    /// Lowers `cast`.
    pub fn op_cast(&mut self, op: &Json) -> (r: Result<(), Error>)
        ensures
            final(self).meta() == old(self).meta(),
            (final(self).onnx_graph@, outcome(r)) == cast_lowered(
                old(self).meta(),
                old(self).onnx_graph@,
                op@,
            ),
    {
        let dtype = match attr_text(op, "dtype") {
            Some(dtype) => dtype,
            None => {
                return Err(Error::text("cast: missing dtype"));
            },
        };
        let to: i32 = match paddle_dtype_to_onnx(dtype) {
            Some(to) => to,
            None => {
                return Err(Error::owned(join("cast: unsupported dtype ", dtype)));
            },
        };
        let inputs = op_input_ids(op);
        if inputs.len() == 0 {
            return Err(Error::text("cast missing inputs"));
        }
        let id: i64 = op_out_id(op)?;
        let input = self.get_tensor_name(inputs[0])?;
        let output = self.get_tensor_name(id)?;
        self.add_cast_node(input, output, to);
        Ok(())
    }

    fn list_range_inputs(&mut self, id: i64, inputs: &Vec<i64>) -> (r: Result<Vec<String>, Error>)
        requires
            inputs.len() >= 3,
        ensures
            final(self).meta() == old(self).meta(),
            (final(self).onnx_graph@, names_result(r)) == range_inputs(
                old(self).meta(),
                old(self).onnx_graph@,
                id,
                inputs@,
                3,
            ),
    {
        let ghost m = self.meta();
        let ghost g = self.onnx_graph@;
        let mut list: Vec<String> = Vec::new();
        let mut i: usize = 0;
        proof {
            assert(names(list@) =~= Seq::empty());
        }
        while i < 3
            invariant
                i <= 3 <= inputs.len(),
                self.meta() == m,
                m == old(self).meta(),
                g == old(self).onnx_graph@,
                (self.onnx_graph@, Ok::<Seq<Seq<char>>, ErrorView>(names(list@))) == range_inputs(
                    m,
                    g,
                    id,
                    inputs@,
                    i as nat,
                ),
            decreases 3 - i,
        {
            let name = match self.get_tensor_name(inputs[i]) {
                Ok(name) => name,
                Err(e) => {
                    proof {
                        lemma_range_inputs_err(m, g, id, inputs@, (i + 1) as nat, 3);
                    }
                    return Err(e);
                },
            };
            if self.is_shape(inputs[i], &ints1(1)) {
                let squeezed = tag2("arange_squeezed_", id, i as i64);
                self.add_squeeze_node(
                    name,
                    squeezed.clone(),
                    Some(&ints1(0)),
                    Some(tag2("arange_squeeze_axes_", id, i as i64)),
                );
                push_name(&mut list, squeezed);
            } else {
                push_name(&mut list, name);
            }
            i = i + 1;
        }
        Ok(list)
    }

    /// Lowers `arange`.
    pub fn op_arange(&mut self, op: &Json) -> (r: Result<(), Error>)
        ensures
            final(self).meta() == old(self).meta(),
            (final(self).onnx_graph@, outcome(r)) == arange_lowered(
                old(self).meta(),
                old(self).onnx_graph@,
                op@,
            ),
    {
        self.require_opset(11, "arange")?;
        let id: i64 = op_out_id(op)?;
        let inputs = op_input_ids(op);
        if inputs.len() < 3 {
            return Err(Error::text("arange missing inputs"));
        }
        let list = self.list_range_inputs(id, &inputs)?;
        match read_dtype(op) {
            None => {
                let output = self.get_tensor_name(id)?;
                self.add_node(NodeProto::new("Range", list, list1(output)));
            },
            Some(to) => {
                let raw = tag("arange_raw_", id);
                self.add_node(NodeProto::new("Range", list, list1(raw.clone())));
                let output = self.get_tensor_name(id)?;
                if !same(raw.as_str(), output.as_str()) {
                    self.add_cast_node(raw, output, to);
                }
            },
        }
        Ok(())
    }

    fn list_clip_inputs(&mut self, id: i64, inputs: &Vec<i64>, to: Option<i32>, first: String) -> (r: Result<
        Vec<String>,
        Error,
    >)
        requires
            inputs.len() >= 1,
        ensures
            final(self).meta() == old(self).meta(),
            (final(self).onnx_graph@, names_result(r)) == clip_inputs(
                old(self).meta(),
                old(self).onnx_graph@,
                id,
                inputs@,
                to,
                first@,
                inputs@.len(),
            ),
    {
        let ghost m = self.meta();
        let ghost g = self.onnx_graph@;
        let mut list = list1(first);
        let mut i: usize = 1;
        while i < inputs.len()
            invariant
                1 <= i <= inputs.len(),
                self.meta() == m,
                m == old(self).meta(),
                g == old(self).onnx_graph@,
                (self.onnx_graph@, Ok::<Seq<Seq<char>>, ErrorView>(names(list@))) == clip_inputs(
                    m,
                    g,
                    id,
                    inputs@,
                    to,
                    first@,
                    i as nat,
                ),
            decreases inputs.len() - i,
        {
            let name = match self.get_tensor_name(inputs[i]) {
                Ok(name) => name,
                Err(e) => {
                    proof {
                        lemma_clip_inputs_err(
                            m,
                            g,
                            id,
                            inputs@,
                            to,
                            first@,
                            (i + 1) as nat,
                            inputs@.len(),
                        );
                    }
                    return Err(e);
                },
            };
            let wanted: i32 = match to {
                Some(dtype) => dtype,
                None => FLOAT,
            };
            if wanted != FLOAT && (self.is_type(inputs[i], "0.t_f32") || self.is_type(
                inputs[i],
                "0.t_f64",
            )) {
                let casted = tag2("clip_cast_", id, i as i64);
                self.add_cast_node(name, casted.clone(), wanted);
                push_name(&mut list, casted);
            } else {
                push_name(&mut list, name);
            }
            i = i + 1;
        }
        Ok(list)
    }

    /// Lowers `clip`.
    pub fn op_clip(&mut self, op: &Json) -> (r: Result<(), Error>)
        ensures
            final(self).meta() == old(self).meta(),
            (final(self).onnx_graph@, outcome(r)) == clip_lowered(
                old(self).meta(),
                old(self).onnx_graph@,
                op@,
            ),
    {
        let id: i64 = op_out_id(op)?;
        let inputs = op_input_ids(op);
        if inputs.len() == 0 {
            return Err(Error::text("clip missing inputs"));
        }
        let to: Option<i32> = self.maybe_onnx_dtype_for_tensor_id(inputs[0])?;
        let first = self.get_tensor_name(inputs[0])?;
        let list = self.list_clip_inputs(id, &inputs, to, first)?;
        let output = self.get_tensor_name(id)?;
        self.add_node(NodeProto::new("Clip", list, list1(output)));
        Ok(())
    }
}

proof fn lemma_range_inputs_err(m: Meta, g: Graph, id: i64, ins: Seq<i64>, k: nat, n: nat)
    requires
        k <= n,
        range_inputs(m, g, id, ins, k).1 is Err,
    ensures
        range_inputs(m, g, id, ins, n) == range_inputs(m, g, id, ins, k),
    decreases n,
{
    if k < n {
        lemma_range_inputs_err(m, g, id, ins, k, (n - 1) as nat);
    }
}

proof fn lemma_clip_inputs_err(
    m: Meta,
    g: Graph,
    id: i64,
    ins: Seq<i64>,
    to: Option<i32>,
    first: Seq<char>,
    k: nat,
    n: nat,
)
    requires
        1 <= k <= n,
        clip_inputs(m, g, id, ins, to, first, k).1 is Err,
    ensures
        clip_inputs(m, g, id, ins, to, first, n) == clip_inputs(m, g, id, ins, to, first, k),
    decreases n,
{
    if k < n {
        lemma_clip_inputs_err(m, g, id, ins, to, first, k, (n - 1) as nat);
    }
}

// ---- Filled tensors ----

/// The value, cast where an element type is asked for.
pub open spec fn value_cast(g: Graph, op: JsonView, value: Seq<char>, casted: Seq<char>) -> (
    Graph,
    Seq<char>,
) {
    match known_dtype(op) {
        Some(to) => (cast_added(g, value, casted, to), casted),
        None => (g, value),
    }
}

/// The lowering of `full_like`.
pub open spec fn full_like_lowered(m: Meta, g: Graph, op: JsonView) -> Step {
    let ins = input_ids(op);
    match out_id(op) {
        Err(e) => failed(g, e),
        Ok(id) => if ins.len() < 2 {
            failed(g, message("full_like missing inputs"@))
        } else {
            match tensor_name(m, ins[0]) {
                Err(e) => failed(g, e),
                Ok(input) => {
                    let shape = tagged("full_like_shape_"@, id);
                    let g = unary_added(g, "Shape"@, input, shape);
                    match tensor_name(m, ins[1]) {
                        Err(e) => failed(g, e),
                        Ok(value) => {
                            let (g, value) = value_cast(
                                g,
                                op,
                                value,
                                tagged("full_like_cast_"@, id),
                            );
                            match tensor_name(m, id) {
                                Err(e) => failed(g, e),
                                Ok(output) => done(
                                    binary_added(g, "Expand"@, value, shape, output),
                                ),
                            }
                        },
                    }
                },
            }
        },
    }
}

/// The lowering of `full_with_tensor`.
pub open spec fn full_with_tensor_lowered(m: Meta, g: Graph, op: JsonView) -> Step {
    let ins = input_ids(op);
    match out_id(op) {
        Err(e) => failed(g, e),
        Ok(id) => if ins.len() < 2 {
            failed(g, message("full_with_tensor missing inputs"@))
        } else {
            match tensor_name(m, ins[0]) {
                Err(e) => failed(g, e),
                Ok(value) => {
                    let (g, value) = value_cast(
                        g,
                        op,
                        value,
                        tagged("full_with_tensor_cast_"@, id),
                    );
                    match tensor_name(m, ins[1]) {
                        Err(e) => failed(g, e),
                        Ok(shape) => {
                            let scalar = has_shape(m, ins[1], Seq::empty());
                            let wide = tagged("full_with_tensor_shape_"@, id);
                            let g = if scalar {
                                unsqueeze_added(
                                    g,
                                    m.target_opset,
                                    shape,
                                    wide,
                                    seq![0i64],
                                    tagged("full_with_tensor_shape_axes_"@, id),
                                )
                            } else {
                                g
                            };
                            let target = if scalar {
                                wide
                            } else {
                                shape
                            };
                            match tensor_name(m, id) {
                                Err(e) => failed(g, e),
                                Ok(output) => done(
                                    binary_added(g, "Expand"@, value, target, output),
                                ),
                            }
                        },
                    }
                },
            }
        },
    }
}

impl Converter {
    fn cast_value(&mut self, op: &Json, value: String, casted: String) -> (r: String)
        ensures
            final(self).meta() == old(self).meta(),
            (final(self).onnx_graph@, r@) == value_cast(
                old(self).onnx_graph@,
                op@,
                value@,
                casted@,
            ),
    {
        match read_dtype(op) {
            Some(to) => {
                self.add_cast_node(value, casted.clone(), to);
                casted
            },
            None => value,
        }
    }

    /// Lowers `full_like`.
    pub fn op_full_like(&mut self, op: &Json) -> (r: Result<(), Error>)
        ensures
            final(self).meta() == old(self).meta(),
            (final(self).onnx_graph@, outcome(r)) == full_like_lowered(
                old(self).meta(),
                old(self).onnx_graph@,
                op@,
            ),
    {
        let id: i64 = op_out_id(op)?;
        let inputs = op_input_ids(op);
        if inputs.len() < 2 {
            return Err(Error::text("full_like missing inputs"));
        }
        let input = self.get_tensor_name(inputs[0])?;
        self.add_unary_node("Shape", input, tag("full_like_shape_", id));
        let value = self.get_tensor_name(inputs[1])?;
        let value = self.cast_value(op, value, tag("full_like_cast_", id));
        let output = self.get_tensor_name(id)?;
        self.add_binary_node("Expand", value, tag("full_like_shape_", id), output);
        Ok(())
    }

    /// Lowers `full_with_tensor`.
    pub fn op_full_with_tensor(&mut self, op: &Json) -> (r: Result<(), Error>)
        ensures
            final(self).meta() == old(self).meta(),
            (final(self).onnx_graph@, outcome(r)) == full_with_tensor_lowered(
                old(self).meta(),
                old(self).onnx_graph@,
                op@,
            ),
    {
        let id: i64 = op_out_id(op)?;
        let inputs = op_input_ids(op);
        if inputs.len() < 2 {
            return Err(Error::text("full_with_tensor missing inputs"));
        }
        let value = self.get_tensor_name(inputs[0])?;
        let value = self.cast_value(op, value, tag("full_with_tensor_cast_", id));
        let mut shape = self.get_tensor_name(inputs[1])?;
        if self.is_shape(inputs[1], &Vec::new()) {
            let wide = tag("full_with_tensor_shape_", id);
            self.add_unsqueeze_node(
                shape,
                wide.clone(),
                &ints1(0),
                tag("full_with_tensor_shape_axes_", id),
            );
            shape = wide;
        }
        let output = self.get_tensor_name(id)?;
        self.add_binary_node("Expand", value, shape, output);
        Ok(())
    }
}

// ---- Slices ----

/// The axes that a slice drops: only numbers given as data count.
pub open spec fn slice_dropped(op: JsonView) -> Seq<i64> {
    match attr_items_of(op, "decrease_axis"@) {
        Some(items) => members_int(items, "D"@, items.len()),
        None => Seq::empty(),
    }
}

/// The bounds of a slice: those of the constant input at position `at`, or else those of the
/// attribute.
pub open spec fn slice_bounds(m: Meta, op: JsonView, ins: Seq<i64>, at: int, name: Seq<char>) -> Option<
    Seq<i64>,
> {
    if ins.len() > at && const_ints(m, ins[at]) is Some {
        const_ints(m, ins[at])
    } else {
        attr_ints_of(op, name)
    }
}

/// The name of a slice's result before axes are dropped.
pub open spec fn slice_result(m: Meta, id: i64, dropped: Seq<i64>, prefix: Seq<char>) -> Result<
    Seq<char>,
    ErrorView,
> {
    if dropped.len() == 0 {
        tensor_name(m, id)
    } else {
        Ok(tagged(prefix, id))
    }
}

/// The axes dropped from a slice's result, if there are any.
pub open spec fn axes_dropped(m: Meta, g: Graph, id: i64, dropped: Seq<i64>, from: Seq<char>, axes_name: Seq<char>) -> Step {
    if dropped.len() == 0 {
        done(g)
    } else {
        match tensor_name(m, id) {
            Err(e) => failed(g, e),
            Ok(output) => done(
                squeeze_added(
                    g,
                    m.target_opset,
                    from,
                    output,
                    Some(dropped),
                    Some(axes_name),
                ),
            ),
        }
    }
}

/// The lowering of `slice` before opset 10, where the bounds have to be constants.
pub open spec fn slice_lowered_early(m: Meta, g: Graph, op: JsonView, id: i64, ins: Seq<i64>) -> Step {
    let axes = or_default(attr_ints_of(op, "axes"@), Seq::empty());
    let dropped = slice_dropped(op);
    if ins.len() > 1 && !m.constants.contains_key(ins[1]) {
        failed(g, message("slice requires constant starts input for opset < 10"@))
    } else if ins.len() > 2 && !m.constants.contains_key(ins[2]) {
        failed(g, message("slice requires constant ends input for opset < 10"@))
    } else {
        match (slice_bounds(m, op, ins, 1, "starts"@), slice_bounds(m, op, ins, 2, "ends"@)) {
            (None, _) => failed(g, message("slice requires constant starts for opset < 10"@)),
            (_, None) => failed(g, message("slice requires constant ends for opset < 10"@)),
            (Some(starts), Some(ends)) => match (
                slice_result(m, id, dropped, "slice_out_"@),
                tensor_name(m, ins[0]),
            ) {
                (Err(e), _) => failed(g, e),
                (_, Err(e)) => failed(g, e),
                (Ok(result), Ok(input)) => match slice_added(
                    g,
                    m.target_opset,
                    input,
                    result,
                    starts,
                    ends,
                    if axes.len() == 0 {
                        None
                    } else {
                        Some(axes)
                    },
                    None,
                    tagged("slice_"@, id),
                ) {
                    (g, Err(e)) => failed(g, e),
                    (g, Ok(_)) => axes_dropped(
                        m,
                        g,
                        id,
                        dropped,
                        result,
                        tagged("slice_decrease_axes_"@, id),
                    ),
                },
            },
        }
    }
}

/// The lesser of two numbers.
pub open spec fn lesser(a: nat, b: nat) -> nat {
    if a < b {
        a
    } else {
        b
    }
}

/// The lowering of `slice`.
pub open spec fn slice_lowered(m: Meta, g: Graph, op: JsonView) -> Step {
    let ins = input_ids(op);
    match out_id(op) {
        Err(e) => failed(g, e),
        Ok(id) => if ins.len() == 0 {
            failed(g, message("slice missing inputs"@))
        } else if m.target_opset < 10 {
            slice_lowered_early(m, g, op, id, ins)
        } else {
            let axes = or_default(attr_ints_of(op, "axes"@), Seq::empty());
            let dropped = slice_dropped(op);
            match names_upto(m, ins, lesser(ins.len(), 3)) {
                Err(e) => failed(g, e),
                Ok(list) => {
                    let axes_name = tagged("slice_axes_"@, id);
                    let g = if axes.len() > 0 {
                        vector_added(g, axes_name, axes)
                    } else {
                        g
                    };
                    let inputs = if axes.len() > 0 {
                        list.push(axes_name)
                    } else {
                        list
                    };
                    match slice_result(m, id, dropped, "slice_out_"@) {
                        Err(e) => failed(g, e),
                        Ok(result) => {
                            let g = g.with_node(node_of("Slice"@, inputs, seq![result]));
                            let squeeze_name = tagged("squeeze_axes_"@, id);
                            let g = if dropped.len() > 0 {
                                vector_added(g, squeeze_name, dropped)
                            } else {
                                g
                            };
                            axes_dropped(m, g, id, dropped, result, squeeze_name)
                        },
                    }
                },
            }
        },
    }
}

/// The lowering of `strided_slice`.
pub open spec fn strided_slice_lowered(m: Meta, g: Graph, op: JsonView) -> Step {
    let ins = input_ids(op);
    match (opset_checked(m, 10, "strided_slice"@), out_id(op)) {
        (Err(e), _) => failed(g, e),
        (_, Err(e)) => failed(g, e),
        (Ok(_), Ok(id)) => if ins.len() < 4 {
            failed(g, message("strided_slice missing inputs"@))
        } else {
            let axes = or_default(attr_ints_of(op, "axes"@), Seq::empty());
            let dropped = or_default(attr_ints_of(op, "decrease_axis"@), Seq::empty());
            match tensor_name(m, ins[0]) {
                Err(e) => failed(g, e),
                Ok(data) => match ints_ensured(m, g, ins[1], id, "strided_slice_starts"@) {
                    (g, Err(e)) => failed(g, e),
                    (g, Ok(starts)) => match ints_ensured(
                        m,
                        g,
                        ins[2],
                        id,
                        "strided_slice_ends"@,
                    ) {
                        (g, Err(e)) => failed(g, e),
                        (g, Ok(ends)) => match slice_result(
                            m,
                            id,
                            dropped,
                            "strided_slice_out_"@,
                        ) {
                            Err(e) => failed(g, e),
                            Ok(result) => {
                                let axes_name = tagged("strided_slice_axes_"@, id);
                                let front = seq![data, starts, ends];
                                let g = if axes.len() > 0 {
                                    vector_added(g, axes_name, axes)
                                } else {
                                    g
                                };
                                let list = if axes.len() > 0 {
                                    front.push(axes_name)
                                } else {
                                    front
                                };
                                match ints_ensured(m, g, ins[3], id, "strided_slice_steps"@) {
                                    (g, Err(e)) => failed(g, e),
                                    (g, Ok(steps)) => axes_dropped(
                                        m,
                                        g.with_node(
                                            node_of("Slice"@, list.push(steps), seq![result]),
                                        ),
                                        id,
                                        dropped,
                                        result,
                                        tagged("strided_slice_decrease_axes_"@, id),
                                    ),
                                }
                            },
                        },
                    },
                },
            }
        },
    }
}

fn read_slice_dropped(op: &Json) -> (r: Vec<i64>)
    ensures
        r@ == slice_dropped(op@),
{
    match attr_array(op, "decrease_axis") {
        Some(items) => collect_members(items, "D"),
        None => Vec::new(),
    }
}

impl Converter {
    fn read_slice_bounds(&self, op: &Json, inputs: &Vec<i64>, at: usize, name: &str) -> (r: Option<
        Vec<i64>,
    >)
        ensures
            ints_option(r) == slice_bounds(self.meta(), op@, inputs@, at as int, name@),
    {
        if inputs.len() > at {
            match self.constant_ints(inputs[at]) {
                Some(list) => {
                    return Some(list);
                },
                None => {},
            }
        }
        attr_i64s(op, name)
    }

    fn slice_result_name(&self, id: i64, dropped: &Vec<i64>, prefix: &str) -> (r: Result<
        String,
        Error,
    >)
        ensures
            name_result(r) == slice_result(self.meta(), id, dropped@, prefix@),
    {
        if dropped.len() == 0 {
            self.get_tensor_name(id)
        } else {
            Ok(tag(prefix, id))
        }
    }

    fn drop_axes(&mut self, id: i64, dropped: &Vec<i64>, from: String, axes_name: String) -> (r: Result<
        (),
        Error,
    >)
        ensures
            final(self).meta() == old(self).meta(),
            (final(self).onnx_graph@, outcome(r)) == axes_dropped(
                old(self).meta(),
                old(self).onnx_graph@,
                id,
                dropped@,
                from@,
                axes_name@,
            ),
    {
        if dropped.len() == 0 {
            return Ok(());
        }
        let output = self.get_tensor_name(id)?;
        self.add_squeeze_node(from, output, Some(dropped), Some(axes_name));
        Ok(())
    }

    fn lower_slice_early(&mut self, op: &Json, id: i64, inputs: &Vec<i64>) -> (r: Result<
        (),
        Error,
    >)
        requires
            inputs.len() > 0,
        ensures
            final(self).meta() == old(self).meta(),
            (final(self).onnx_graph@, outcome(r)) == slice_lowered_early(
                old(self).meta(),
                old(self).onnx_graph@,
                op@,
                id,
                inputs@,
            ),
    {
        let axes = match attr_i64s(op, "axes") {
            Some(axes) => axes,
            None => Vec::new(),
        };
        let dropped = read_slice_dropped(op);
        if inputs.len() > 1 && self.state.constants.get(inputs[1]).is_none() {
            return Err(Error::text("slice requires constant starts input for opset < 10"));
        }
        if inputs.len() > 2 && self.state.constants.get(inputs[2]).is_none() {
            return Err(Error::text("slice requires constant ends input for opset < 10"));
        }
        let starts = match self.read_slice_bounds(op, inputs, 1, "starts") {
            Some(list) => list,
            None => {
                return Err(Error::text("slice requires constant starts for opset < 10"));
            },
        };
        let ends = match self.read_slice_bounds(op, inputs, 2, "ends") {
            Some(list) => list,
            None => {
                return Err(Error::text("slice requires constant ends for opset < 10"));
            },
        };
        let result = self.slice_result_name(id, &dropped, "slice_out_")?;
        let input = self.get_tensor_name(inputs[0])?;
        self.add_slice_node(
            input,
            result.clone(),
            &starts,
            &ends,
            if axes.len() == 0 {
                None
            } else {
                Some(&axes)
            },
            None,
            tag("slice_", id).as_str(),
        )?;
        self.drop_axes(id, &dropped, result, tag("slice_decrease_axes_", id))
    }

    /// Lowers `slice`.
    pub fn op_slice(&mut self, op: &Json) -> (r: Result<(), Error>)
        ensures
            final(self).meta() == old(self).meta(),
            (final(self).onnx_graph@, outcome(r)) == slice_lowered(
                old(self).meta(),
                old(self).onnx_graph@,
                op@,
            ),
    {
        let id: i64 = op_out_id(op)?;
        let inputs = op_input_ids(op);
        if inputs.len() == 0 {
            return Err(Error::text("slice missing inputs"));
        }
        if self.target_opset < 10 {
            return self.lower_slice_early(op, id, &inputs);
        }
        let axes = match attr_i64s(op, "axes") {
            Some(axes) => axes,
            None => Vec::new(),
        };
        let dropped = read_slice_dropped(op);
        let count: usize = if inputs.len() < 3 {
            inputs.len()
        } else {
            3
        };
        let mut list = self.first_names(&inputs, count)?;
        if axes.len() > 0 {
            self.push_vector(tag("slice_axes_", id), &axes);
            push_name(&mut list, tag("slice_axes_", id));
        }
        let result = self.slice_result_name(id, &dropped, "slice_out_")?;
        self.add_node(NodeProto::new("Slice", list, list1(result.clone())));
        if dropped.len() > 0 {
            self.push_vector(tag("squeeze_axes_", id), &dropped);
        }
        self.drop_axes(id, &dropped, result, tag("squeeze_axes_", id))
    }

    /// Lowers `strided_slice`.
    pub fn op_strided_slice(&mut self, op: &Json) -> (r: Result<(), Error>)
        ensures
            final(self).meta() == old(self).meta(),
            (final(self).onnx_graph@, outcome(r)) == strided_slice_lowered(
                old(self).meta(),
                old(self).onnx_graph@,
                op@,
            ),
    {
        self.require_opset(10, "strided_slice")?;
        let id: i64 = op_out_id(op)?;
        let inputs = op_input_ids(op);
        if inputs.len() < 4 {
            return Err(Error::text("strided_slice missing inputs"));
        }
        let axes = match attr_i64s(op, "axes") {
            Some(axes) => axes,
            None => Vec::new(),
        };
        let dropped = match attr_i64s(op, "decrease_axis") {
            Some(list) => list,
            None => Vec::new(),
        };
        let data = self.get_tensor_name(inputs[0])?;
        let starts = self.ensure_i64_input(inputs[1], id, "strided_slice_starts")?;
        let ends = self.ensure_i64_input(inputs[2], id, "strided_slice_ends")?;
        let result = self.slice_result_name(id, &dropped, "strided_slice_out_")?;
        let mut list = list3(data, starts, ends);
        if axes.len() > 0 {
            self.push_vector(tag("strided_slice_axes_", id), &axes);
            push_name(&mut list, tag("strided_slice_axes_", id));
        }
        let steps = self.ensure_i64_input(inputs[3], id, "strided_slice_steps")?;
        push_name(&mut list, steps);
        self.add_node(NodeProto::new("Slice", list, list1(result.clone())));
        self.drop_axes(id, &dropped, result, tag("strided_slice_decrease_axes_", id))
    }
}

} // verus!
