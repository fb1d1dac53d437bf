//! Normalizations.

use crate::converter::emit::{
    binary_added, concat_added, done, failed, ints_added, singles_added, unary_added,
    unsqueeze_added, Step,
};
use crate::converter::ops::common::names_upto;
use crate::converter::ops::math::{finished, SINGLE_ONE};
use crate::converter::ops::misc::carried_attributes;
use crate::converter::ops::update::shape_part;
use crate::converter::optimizer::options::map_get;
use crate::converter::state::{opset_checked, tensor_name, Converter, Meta};
use crate::error::{message, outcome, Error, ErrorView};
use crate::float::{narrow, to_single};
use crate::helper::{
    attr_bool, attr_bool_of, attr_chars_of, attr_i64, attr_int_of, attr_number_of, attr_number_or,
    attr_text, input_ids, op_input_ids, op_out_id, or_default, out_id,
};
use crate::json::{Json, JsonView};
use crate::onnx::{
    attr_float, float_attribute, node_of, views, AttributeProto, Graph, Node, NodeProto,
};
use crate::text::{dec, ints1, join, list1, list3, same, size_text, tag, tagged};
use vstd::prelude::*;

verus! {

/// The bits of the `binary64` value nearest to a hundred thousandth.
pub const USUAL_EPSILON: u64 = 0x3EE4_F8B5_88E3_68F1;

/// The five inputs of a batch normalization in the graph's order: the data, the scale, the bias,
/// the mean and the variance.
pub open spec fn norm_inputs(ins: Seq<i64>) -> Seq<i64> {
    seq![ins[0], ins[3], ins[4], ins[1], ins[2]]
}

/// The lowering of `batch_norm_`.
pub open spec fn batch_norm_lowered(m: Meta, g: Graph, op: JsonView) -> Step {
    let ins = input_ids(op);
    if attr_bool_of(op, "is_test"@) == Some(false) {
        failed(
            g,
            message("batch_norm_ only supports inference-style lowering with is_test=true"@),
        )
    } else if or_default(attr_chars_of(op, "data_format"@), "NCHW"@) != "NCHW"@ {
        failed(g, message("batch_norm_ only supports NCHW"@))
    } else if ins.len() < 5 {
        failed(g, message("batch_norm_ missing inputs"@))
    } else {
        match names_upto(m, norm_inputs(ins), 5) {
            Err(e) => failed(g, e),
            Ok(inputs) => match out_id(op) {
                Err(e) => failed(g, e),
                Ok(id) => match tensor_name(m, id) {
                    Err(e) => failed(g, e),
                    Ok(output) => done(
                        g.with_node(
                            Node {
                                attribute: carried_attributes("batch_norm_"@, op),
                                ..node_of("BatchNormalization"@, inputs, seq![output])
                            },
                        ),
                    ),
                },
            },
        }
    }
}

/// The axes but the second.
pub open spec fn affine_axes(rank: nat) -> Seq<i64> {
    Seq::new(
        (rank - 1) as nat,
        |i: int|
            if i == 0 {
                0
            } else {
                (i + 1) as i64
            },
    )
}

/// What a group normalization needs to know: its output, the number of groups and the rank of its
/// input.
pub open spec fn group_parts(m: Meta, op: JsonView) -> Result<(i64, i64, nat), ErrorView> {
    let ins = input_ids(op);
    if ins.len() < 3 {
        Err(message("group_norm missing inputs"@))
    } else {
        match op.field_items("O"@) {
            None => Err(message("group_norm missing outputs"@)),
            Some(outs) => match if outs.len() > 0 {
                outs[0].field_int("%"@)
            } else {
                None
            } {
                None => Err(message("group_norm missing output id"@)),
                Some(id) => match attr_int_of(op, "groups"@) {
                    None => Err(message("group_norm missing groups"@)),
                    Some(groups) => if or_default(attr_chars_of(op, "data_format"@), "NCHW"@) != "NCHW"@ {
                        Err(message("group_norm only supports NCHW"@))
                    } else {
                        match map_get(m.tensor_shapes, ins[0]) {
                            None => Err(message("group_norm missing input rank metadata"@)),
                            Some(dims) => if dims.len() < 3 {
                                Err(
                                    message(
                                        "group_norm expects rank >= 3, got "@ + dec(
                                            dims.len() as int,
                                        ),
                                    ),
                                )
                            } else {
                                Ok((id, groups, dims.len()))
                            },
                        }
                    },
                },
            },
        }
    }
}

/// So many times the same value.
pub open spec fn repeated(value: u32, count: int) -> Seq<u32> {
    Seq::new(count as nat, |i: int| value)
}

/// The graph in which every group has been brought to mean zero and variance one. A negative
/// number of groups counts as missing.
#[verifier::opaque]
pub open spec fn groups_normalized(m: Meta, g: Graph, op: JsonView, id: i64, groups: i64, input: Seq<char>) -> Step {
    let shape = tagged("group_norm_input_shape_"@, id);
    let batch = tagged("group_norm_batch_dim_"@, id);
    let g = unary_added(g, "Shape"@, input, shape);
    match shape_part(m, g, shape, batch, 0, 1) {
        (g, Err(e)) => failed(g, e),
        (g, Ok(_)) => if groups < 0 {
            failed(g, message("group_norm missing groups"@))
        } else {
            let count = tagged("group_norm_groups_"@, id);
            let rest = tagged("group_norm_minus_one_"@, id);
            let target = tagged("group_norm_reshape_shape_"@, id);
            let reshaped = tagged("group_norm_reshaped_"@, id);
            let scale = tagged("group_norm_scale_"@, id);
            let bias = tagged("group_norm_bias_"@, id);
            let normalized = tagged("group_norm_normalized_"@, id);
            let restored = tagged("group_norm_restored_"@, id);
            let epsilon = narrow(or_default(attr_number_of(op, "epsilon"@), USUAL_EPSILON));
            let g = ints_added(g, count, seq![1i64], seq![groups]);
            let g = ints_added(g, rest, seq![1i64], seq![(-1) as i64]);
            let g = concat_added(g, seq![batch, count, rest], target, 0);
            let g = binary_added(g, "Reshape"@, input, target, reshaped);
            let g = singles_added(g, scale, seq![groups], repeated(SINGLE_ONE, groups as int));
            let g = singles_added(g, bias, seq![groups], repeated(0, groups as int));
            let g = g.with_node(
                node_of(
                    "InstanceNormalization"@,
                    seq![reshaped, scale, bias],
                    seq![normalized],
                ).with(float_attribute("epsilon"@, epsilon)),
            );
            done(binary_added(g, "Reshape"@, normalized, shape, restored))
        },
    }
}

/// The graph in which a normalized value is scaled and moved.
pub open spec fn affinely_mapped(m: Meta, g: Graph, id: i64, ins: Seq<i64>, rank: nat) -> Step {
    match tensor_name(m, ins[1]) {
        Err(e) => failed(g, e),
        Ok(scale) => {
            let wide_scale = tagged("group_norm_affine_scale_"@, id);
            let g = unsqueeze_added(
                g,
                m.target_opset,
                scale,
                wide_scale,
                affine_axes(rank),
                tagged("group_norm_affine_scale_axes_"@, id),
            );
            match tensor_name(m, ins[2]) {
                Err(e) => failed(g, e),
                Ok(bias) => {
                    let wide_bias = tagged("group_norm_affine_bias_"@, id);
                    let scaled = tagged("group_norm_scaled_"@, id);
                    let g = unsqueeze_added(
                        g,
                        m.target_opset,
                        bias,
                        wide_bias,
                        affine_axes(rank),
                        tagged("group_norm_affine_bias_axes_"@, id),
                    );
                    let g = binary_added(
                        g,
                        "Mul"@,
                        tagged("group_norm_restored_"@, id),
                        wide_scale,
                        scaled,
                    );
                    finished(m, g, "Add"@, scaled, wide_bias, id)
                },
            }
        },
    }
}

/// The lowering of `group_norm`.
pub open spec fn group_norm_lowered(m: Meta, g: Graph, op: JsonView) -> Step {
    let ins = input_ids(op);
    match opset_checked(m, 6, "group_norm"@) {
        Err(e) => failed(g, e),
        Ok(_) => match group_parts(m, op) {
            Err(e) => failed(g, e),
            Ok((id, groups, rank)) => match tensor_name(m, ins[0]) {
                Err(e) => failed(g, e),
                Ok(input) => match groups_normalized(m, g, op, id, groups, input) {
                    (g, Err(e)) => failed(g, e),
                    (g, Ok(_)) => affinely_mapped(m, g, id, ins, rank),
                },
            },
        },
    }
}

fn list_norm_inputs(ins: &Vec<i64>) -> (r: Vec<i64>)
    requires
        ins.len() >= 5,
    ensures
        r@ == norm_inputs(ins@),
{
    let mut list: Vec<i64> = Vec::new();
    list.push(ins[0]);
    list.push(ins[3]);
    list.push(ins[4]);
    list.push(ins[1]);
    list.push(ins[2]);
    proof {
        assert(list@ =~= norm_inputs(ins@));
    }
    list
}

fn list_affine_axes(rank: usize) -> (r: Vec<i64>)
    requires
        rank >= 3,
    ensures
        r@ == affine_axes(rank as nat),
{
    let mut list: Vec<i64> = Vec::new();
    list.push(0);
    let mut i: usize = 2;
    while i < rank
        invariant
            2 <= i <= rank,
            list@ =~= affine_axes(rank as nat).take(i - 1),
        decreases rank - i,
    {
        list.push(i as i64);
        i = i + 1;
    }
    proof {
        assert(affine_axes(rank as nat).take(rank - 1) =~= affine_axes(rank as nat));
    }
    list
}

fn repeat(value: u32, count: i64) -> (r: Vec<u32>)
    requires
        count >= 0,
    ensures
        r@ == repeated(value, count as int),
{
    let mut list: Vec<u32> = Vec::new();
    let mut i: i64 = 0;
    while i < count
        invariant
            0 <= i <= count,
            list@ =~= repeated(value, i as int),
        decreases count - i,
    {
        list.push(value);
        i = i + 1;
    }
    list
}

impl Converter {
    /// Lowers `batch_norm_`.
    pub fn op_batch_norm(&mut self, op: &Json) -> (r: Result<(), Error>)
        ensures
            final(self).meta() == old(self).meta(),
            (final(self).onnx_graph@, outcome(r)) == batch_norm_lowered(
                old(self).meta(),
                old(self).onnx_graph@,
                op@,
            ),
    {
        match attr_bool(op, "is_test") {
            Some(b) => {
                if !b {
                    return Err(
                        Error::text(
                            "batch_norm_ only supports inference-style lowering with is_test=true",
                        ),
                    );
                }
            },
            None => {},
        }
        let format: &str = match attr_text(op, "data_format") {
            Some(format) => format,
            None => "NCHW",
        };
        if !same(format, "NCHW") {
            return Err(Error::text("batch_norm_ only supports NCHW"));
        }
        let ins = op_input_ids(op);
        if ins.len() < 5 {
            return Err(Error::text("batch_norm_ missing inputs"));
        }
        let inputs = self.first_names(&list_norm_inputs(&ins), 5)?;
        let attribute: Vec<AttributeProto> = match op.get("A") {
            Some(attrs) => self.extract_attributes("batch_norm_", attrs),
            None => Vec::new(),
        };
        proof {
            assert(op@.field("A"@) is None ==> views(attribute@) =~= Seq::empty());
        }
        let id: i64 = op_out_id(op)?;
        let output = self.get_tensor_name(id)?;
        let mut node = NodeProto::new("BatchNormalization", inputs, list1(output));
        node.attribute = attribute;
        proof {
            assert(node@.attribute =~= views(attribute@));
        }
        self.add_node(node);
        Ok(())
    }

    fn read_group_parts(&self, op: &Json) -> (r: Result<(i64, i64, usize), Error>)
        ensures
            match r {
                Ok((id, groups, rank)) => group_parts(self.meta(), op@) == Ok::<
                    (i64, i64, nat),
                    ErrorView,
                >((id, groups, rank as nat)) && rank >= 3,
                Err(e) => group_parts(self.meta(), op@) == Err::<(i64, i64, nat), ErrorView>(e@),
            },
    {
        let ins = op_input_ids(op);
        if ins.len() < 3 {
            return Err(Error::text("group_norm missing inputs"));
        }
        let outs = match op.get_array("O") {
            Some(outs) => outs,
            None => {
                return Err(Error::text("group_norm missing outputs"));
            },
        };
        let first: Option<i64> = if outs.len() > 0 {
            outs[0].get_i64("%")
        } else {
            None
        };
        let id: i64 = match first {
            Some(id) => id,
            None => {
                return Err(Error::text("group_norm missing output id"));
            },
        };
        let groups: i64 = match attr_i64(op, "groups") {
            Some(groups) => groups,
            None => {
                return Err(Error::text("group_norm missing groups"));
            },
        };
        let format: &str = match attr_text(op, "data_format") {
            Some(format) => format,
            None => "NCHW",
        };
        if !same(format, "NCHW") {
            return Err(Error::text("group_norm only supports NCHW"));
        }
        match self.known_dims(ins[0]) {
            Some(dims) => {
                if dims.len() < 3 {
                    return Err(
                        Error::owned(
                            join(
                                "group_norm expects rank >= 3, got ",
                                size_text(dims.len()).as_str(),
                            ),
                        ),
                    );
                }
                Ok((id, groups, dims.len()))
            },
            None => Err(Error::text("group_norm missing input rank metadata")),
        }
    }

    fn normalize_groups(&mut self, op: &Json, id: i64, groups: i64, input: String) -> (r: Result<
        (),
        Error,
    >)
        ensures
            final(self).meta() == old(self).meta(),
            (final(self).onnx_graph@, outcome(r)) == groups_normalized(
                old(self).meta(),
                old(self).onnx_graph@,
                op@,
                id,
                groups,
                input@,
            ),
    {
        proof {
            reveal(groups_normalized);
        }
        let shape = tag("group_norm_input_shape_", id);
        let batch = tag("group_norm_batch_dim_", id);
        self.add_unary_node("Shape", input.clone(), shape.clone());
        self.add_shape_part(shape.clone(), batch.clone(), 0, 1)?;
        if groups < 0 {
            return Err(Error::text("group_norm missing groups"));
        }
        let count = tag("group_norm_groups_", id);
        let rest = tag("group_norm_minus_one_", id);
        let target = tag("group_norm_reshape_shape_", id);
        let reshaped = tag("group_norm_reshaped_", id);
        let scale = tag("group_norm_scale_", id);
        let bias = tag("group_norm_bias_", id);
        let normalized = tag("group_norm_normalized_", id);
        let restored = tag("group_norm_restored_", id);
        let epsilon = to_single(attr_number_or(op, "epsilon", USUAL_EPSILON));
        self.push_i64_initializer(count.clone(), ints1(1), &ints1(groups));
        self.push_i64_initializer(rest.clone(), ints1(1), &ints1(-1));
        self.add_concat_node(list3(batch, count, rest), target.clone(), 0);
        self.add_binary_node("Reshape", input, target, reshaped.clone());
        self.push_f32_initializer(scale.clone(), ints1(groups), &repeat(SINGLE_ONE, groups));
        self.push_f32_initializer(bias.clone(), ints1(groups), &repeat(0, groups));
        self.add_node(
            NodeProto::new(
                "InstanceNormalization",
                list3(reshaped, scale, bias),
                list1(normalized.clone()),
            ).with(attr_float("epsilon", epsilon)),
        );
        self.add_binary_node("Reshape", normalized, shape, restored);
        Ok(())
    }

    fn map_affinely(&mut self, id: i64, ins: &Vec<i64>, rank: usize) -> (r: Result<(), Error>)
        requires
            ins.len() >= 3,
            rank >= 3,
        ensures
            final(self).meta() == old(self).meta(),
            (final(self).onnx_graph@, outcome(r)) == affinely_mapped(
                old(self).meta(),
                old(self).onnx_graph@,
                id,
                ins@,
                rank as nat,
            ),
    {
        let axes = list_affine_axes(rank);
        let wide_scale = tag("group_norm_affine_scale_", id);
        let wide_bias = tag("group_norm_affine_bias_", id);
        let scaled = tag("group_norm_scaled_", id);
        let scale = self.get_tensor_name(ins[1])?;
        self.add_unsqueeze_node(
            scale,
            wide_scale.clone(),
            &axes,
            tag("group_norm_affine_scale_axes_", id),
        );
        let bias = self.get_tensor_name(ins[2])?;
        self.add_unsqueeze_node(
            bias,
            wide_bias.clone(),
            &axes,
            tag("group_norm_affine_bias_axes_", id),
        );
        self.add_binary_node(
            "Mul",
            tag("group_norm_restored_", id),
            wide_scale,
            scaled.clone(),
        );
        self.finish("Add", scaled, wide_bias, id)
    }

    /// Lowers `group_norm`.
    pub fn op_group_norm(&mut self, op: &Json) -> (r: Result<(), Error>)
        ensures
            final(self).meta() == old(self).meta(),
            (final(self).onnx_graph@, outcome(r)) == group_norm_lowered(
                old(self).meta(),
                old(self).onnx_graph@,
                op@,
            ),
    {
        self.require_opset(6, "group_norm")?;
        let (id, groups, rank) = self.read_group_parts(op)?;
        let ins = op_input_ids(op);
        let input = self.get_tensor_name(ins[0])?;
        self.normalize_groups(op, id, groups, input)?;
        self.map_affinely(id, &ins, rank)
    }
}

} // verus!
