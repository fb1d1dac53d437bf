//! Interpolation.

use crate::converter::emit::{
    binary_added, concat_added, done, failed, ints_added, singles_added, unary_added,
    unsqueeze_added, Step,
};
use crate::converter::ops::common::{names_result, shape_or_empty, NameStep};
use crate::converter::ops::math::SINGLE_ONE;
use crate::converter::ops::update::joined;
use crate::converter::optimizer::options::map_get;
use crate::converter::state::{name_result, opset_checked, tensor_name, Converter, Meta};
use crate::dtype::FLOAT;
use crate::error::{message, outcome, Error, ErrorView};
use crate::float::{narrow, to_single};
use crate::helper::{
    attr_array, attr_bool_of, attr_bool_or, attr_chars_of, attr_i64_or, attr_int_of, attr_items_of,
    attr_text, input_ids, op_input_ids, op_out_id, or_default, out_id,
};
use crate::json::{Json, JsonView};
use crate::onnx::{attr_str, node_of, str_attribute, tensor_of, Graph, Node, NodeProto, TensorProto};
use crate::text::{
    int_text, ints1, ints2, join4, list1, list2, names, push_name, same, tag, tag2, tagged, tagged2,
    dec,
};
use vstd::prelude::*;

verus! {

/// The bits of two.
pub const DOUBLE_TWO: u64 = 0x4000_0000_0000_0000;

/// The bits of two.
pub const SINGLE_TWO: u32 = 0x4000_0000;

/// An input of `Resize` that is left out: by an empty name from opset 13 on, and by an empty
/// constant before.
#[verifier::opaque]
pub open spec fn input_left_out(m: Meta, g: Graph, slot: Seq<char>, id: i64) -> (Graph, Seq<char>) {
    if m.target_opset >= 13 {
        (g, Seq::empty())
    } else {
        let name = "resize_empty_"@ + slot + "_"@ + dec(id as int);
        (g.with_initializer(tensor_of(name, seq![0i64], FLOAT)), name)
    }
}

/// The sizes of the result: the first two of the input, and then the given ones.
#[verifier::opaque]
pub open spec fn sizes_joined(m: Meta, g: Graph, id: i64, input: i64, spatial: Seq<char>) -> NameStep {
    match tensor_name(m, input) {
        Err(e) => (g, Err(e)),
        Ok(from) => {
            let shape = tagged("resize_shape_"@, id);
            let indices = tagged("resize_prefix_indices_"@, id);
            let prefix = tagged("resize_prefix_"@, id);
            let sizes = tagged("resize_sizes_"@, id);
            let g = unary_added(g, "Shape"@, from, shape);
            let g = ints_added(g, indices, seq![2i64], seq![0i64, 1i64]);
            let g = binary_added(g, "Gather"@, shape, indices, prefix);
            (concat_added(g, seq![prefix, spatial], sizes, 0), Ok(sizes))
        },
    }
}

/// The first `k` given sizes, each with one axis.
pub open spec fn spatial_parts(m: Meta, g: Graph, id: i64, parts: Seq<i64>, k: nat) -> (
    Graph,
    Result<Seq<Seq<char>>, ErrorView>,
)
    decreases k,
{
    if k == 0 {
        (g, Ok(Seq::empty()))
    } else {
        match spatial_parts(m, g, id, parts, (k - 1) as nat) {
            (g, Err(e)) => (g, Err(e)),
            (g, Ok(front)) => match tensor_name(m, parts[k - 1]) {
                Err(e) => (g, Err(e)),
                Ok(name) => if shape_or_empty(m, parts[k - 1]).len() == 0 {
                    let raised = tagged2("resize_spatial_"@, id, (k - 1) as i64);
                    (
                        unsqueeze_added(
                            g,
                            m.target_opset,
                            name,
                            raised,
                            seq![0i64],
                            tagged("resize_unsqueeze_axes_"@, id),
                        ),
                        Ok(front.push(raised)),
                    )
                } else {
                    (g, Ok(front.push(name)))
                },
            },
        }
    }
}

proof fn lemma_spatial_err(m: Meta, g: Graph, id: i64, parts: Seq<i64>, k: nat, n: nat)
    requires
        k <= n,
        spatial_parts(m, g, id, parts, k).1 is Err,
    ensures
        spatial_parts(m, g, id, parts, n) == spatial_parts(m, g, id, parts, k),
    decreases n,
{
    if k < n {
        lemma_spatial_err(m, g, id, parts, k, (n - 1) as nat);
    }
}

/// The sizes of the result by a list of values, where there is one.
pub open spec fn sizes_by_list(m: Meta, g: Graph, id: i64, input: i64, list: i64) -> (
    Graph,
    Result<Option<Seq<char>>, ErrorView>,
) {
    let parts = or_default(map_get(m.combines, list), Seq::empty());
    if parts.len() == 0 {
        (g, Ok(None))
    } else {
        match spatial_parts(m, g, id, parts, parts.len()) {
            (g, Err(e)) => (g, Err(e)),
            (g, Ok(all)) => {
                let (g, spatial) = joined(g, all, tagged("resize_hw_"@, id));
                match sizes_joined(m, g, id, input, spatial) {
                    (g, Err(e)) => (g, Err(e)),
                    (g, Ok(sizes)) => (g, Ok(Some(sizes))),
                }
            },
        }
    }
}

/// How a position of the result is turned into one of the input.
pub open spec fn coordinate_mode(op: JsonView, mode: Seq<char>) -> Seq<char> {
    if or_default(attr_bool_of(op, "align_corners"@), false) {
        "align_corners"@
    } else if mode == "nearest"@ {
        "asymmetric"@
    } else if or_default(attr_int_of(op, "align_mode"@), 1) == 0 {
        "half_pixel"@
    } else {
        "asymmetric"@
    }
}

/// A scale as a `binary32` value, two where it is not given.
pub open spec fn scale_of(v: JsonView) -> u32 {
    narrow(
        match v.field("D"@) {
            Some(d) => or_default(d.float(), DOUBLE_TWO),
            None => DOUBLE_TWO,
        },
    )
}

/// The scales of the axes.
pub open spec fn scales_of(op: JsonView) -> Seq<u32> {
    match attr_items_of(op, "scale"@) {
        Some(items) => if items.len() >= 2 {
            seq![SINGLE_ONE, SINGLE_ONE, scale_of(items[0]), scale_of(items[1])]
        } else {
            seq![SINGLE_ONE, SINGLE_ONE, SINGLE_TWO, SINGLE_TWO]
        },
        None => seq![SINGLE_ONE, SINGLE_ONE, SINGLE_TWO, SINGLE_TWO],
    }
}

/// The node of an interpolation, without its inputs.
pub open spec fn resize_node(op: JsonView, mode: Seq<char>, inputs: Seq<Seq<char>>, output: Seq<char>) -> Node {
    let node = node_of("Resize"@, inputs, seq![output]).with(str_attribute("mode"@, mode)).with(
        str_attribute("coordinate_transformation_mode"@, coordinate_mode(op, mode)),
    );
    if mode == "nearest"@ {
        node.with(str_attribute("nearest_mode"@, "floor"@))
    } else {
        node
    }
}

/// The graph with the last node of an interpolation.
pub open spec fn resize_ended(m: Meta, g: Graph, op: JsonView, mode: Seq<char>, inputs: Seq<Seq<char>>, id: i64) -> Step {
    match tensor_name(m, id) {
        Err(e) => failed(g, e),
        Ok(output) => done(g.with_node(resize_node(op, mode, inputs, output))),
    }
}

/// Whether a shape has known sizes along the third and the fourth of four axes.
pub open spec fn spatial_known(dims: Option<Seq<i64>>) -> bool {
    match dims {
        Some(dims) => dims.len() == 4 && dims[2] > 0 && dims[3] > 0,
        None => false,
    }
}

/// An interpolation to sizes that are known, or else by scales. One to known sizes needs an input.
pub open spec fn resize_by_shape(m: Meta, g: Graph, op: JsonView, mode: Seq<char>, front: Seq<Seq<char>>, id: i64) -> Step {
    let dims = map_get(m.tensor_shapes, id);
    if spatial_known(dims) {
        let (g, scales) = input_left_out(m, g, "scales"@, id);
        let spatial = tagged("resize_static_hw_"@, id);
        let g = ints_added(g, spatial, seq![2i64], seq![dims->0[2], dims->0[3]]);
        if input_ids(op).len() == 0 {
            failed(g, message("resize missing inputs"@))
        } else {
            match sizes_joined(m, g, id, input_ids(op)[0], spatial) {
                (g, Err(e)) => failed(g, e),
                (g, Ok(sizes)) => resize_ended(
                    m,
                    g,
                    op,
                    mode,
                    front.push(scales).push(sizes),
                    id,
                ),
            }
        }
    } else {
        let name = tagged("scales_"@, id);
        let g = singles_added(g, name, seq![4i64], scales_of(op));
        resize_ended(m, g, op, mode, front.push(name), id)
    }
}

/// The lowering of an interpolation.
pub open spec fn resize_lowered(m: Meta, g: Graph, op: JsonView, mode: Seq<char>) -> Step {
    let ins = input_ids(op);
    let format = or_default(attr_chars_of(op, "data_format"@), "NCHW"@);
    match opset_checked(m, 11, mode) {
        Err(e) => failed(g, e),
        Ok(_) => if format != "NCHW"@ {
            failed(
                g,
                message(
                    mode + " currently only supports data_format=NCHW (got "@ + format + ")"@,
                ),
            )
        } else {
            match out_id(op) {
                Err(e) => failed(g, e),
                Ok(id) => match if ins.len() > 0 {
                    match tensor_name(m, ins[0]) {
                        Err(e) => Err(e),
                        Ok(input) => Ok(seq![input]),
                    }
                } else {
                    Ok(Seq::empty())
                } {
                    Err(e) => failed(g, e),
                    Ok(data) => {
                        let (g, roi) = input_left_out(m, g, "roi"@, id);
                        let front = data.push(roi);
                        if ins.len() > 2 && ins[2] != 0 {
                            match sizes_by_list(m, g, id, ins[0], ins[2]) {
                                (g, Err(e)) => failed(g, e),
                                (g, Ok(Some(sizes))) => {
                                    let (g, scales) = input_left_out(m, g, "scales"@, id);
                                    resize_ended(
                                        m,
                                        g,
                                        op,
                                        mode,
                                        front.push(scales).push(sizes),
                                        id,
                                    )
                                },
                                (g, Ok(None)) => resize_by_shape(m, g, op, mode, front, id),
                            }
                        } else {
                            resize_by_shape(m, g, op, mode, front, id)
                        }
                    },
                },
            }
        },
    }
}

fn choose_coordinate_mode(op: &Json, mode: &str) -> (r: &'static str)
    ensures
        r@ == coordinate_mode(op@, mode@),
{
    if attr_bool_or(op, "align_corners", false) {
        "align_corners"
    } else if same(mode, "nearest") {
        "asymmetric"
    } else if attr_i64_or(op, "align_mode", 1) == 0 {
        "half_pixel"
    } else {
        "asymmetric"
    }
}

fn read_scale(v: &Json) -> (r: u32)
    ensures
        r == scale_of(v@),
{
    let bits: u64 = match v.get("D") {
        Some(d) => match d.as_float() {
            Some(bits) => bits,
            None => DOUBLE_TWO,
        },
        None => DOUBLE_TWO,
    };
    to_single(bits)
}

fn read_scales(op: &Json) -> (r: Vec<u32>)
    ensures
        r@ == scales_of(op@),
{
    let mut list: Vec<u32> = Vec::new();
    list.push(SINGLE_ONE);
    list.push(SINGLE_ONE);
    match attr_array(op, "scale") {
        Some(items) => {
            if items.len() >= 2 {
                list.push(read_scale(&items[0]));
                list.push(read_scale(&items[1]));
            } else {
                list.push(SINGLE_TWO);
                list.push(SINGLE_TWO);
            }
        },
        None => {
            list.push(SINGLE_TWO);
            list.push(SINGLE_TWO);
        },
    }
    proof {
        assert(list@ =~= scales_of(op@));
    }
    list
}

/// The content of a result with an optional name.
pub open spec fn name_option_result(r: Result<Option<String>, Error>) -> Result<
    Option<Seq<char>>,
    ErrorView,
> {
    match r {
        Ok(Some(name)) => Ok(Some(name@)),
        Ok(None) => Ok(None),
        Err(e) => Err(e@),
    }
}

impl Converter {
    fn push_resize_optional_input(&mut self, slot: &str, id: i64) -> (r: String)
        ensures
            final(self).meta() == old(self).meta(),
            (final(self).onnx_graph@, r@) == input_left_out(
                old(self).meta(),
                old(self).onnx_graph@,
                slot@,
                id,
            ),
    {
        proof {
            reveal(input_left_out);
        }
        if self.target_opset >= 13 {
            return String::new();
        }
        let name = join4("resize_empty_", slot, "_", int_text(id).as_str());
        self.add_initializer(TensorProto::new(name.clone(), ints1(0), FLOAT));
        name
    }

    fn build_resize_sizes_from_spatial_tensor(
        &mut self,
        id: i64,
        input: i64,
        spatial: String,
    ) -> (r: Result<String, Error>)
        ensures
            final(self).meta() == old(self).meta(),
            (final(self).onnx_graph@, name_result(r)) == sizes_joined(
                old(self).meta(),
                old(self).onnx_graph@,
                id,
                input,
                spatial@,
            ),
    {
        proof {
            reveal(sizes_joined);
        }
        let from = self.get_tensor_name(input)?;
        let shape = tag("resize_shape_", id);
        let indices = tag("resize_prefix_indices_", id);
        let prefix = tag("resize_prefix_", id);
        let sizes = tag("resize_sizes_", id);
        self.add_unary_node("Shape", from, shape.clone());
        self.push_i64_initializer(indices.clone(), ints1(2), &ints2(0, 1));
        self.add_binary_node("Gather", shape, indices, prefix.clone());
        self.add_concat_node(list2(prefix, spatial), sizes.clone(), 0);
        Ok(sizes)
    }

    fn add_spatial_parts(&mut self, id: i64, parts: &Vec<i64>) -> (r: Result<Vec<String>, Error>)
        ensures
            final(self).meta() == old(self).meta(),
            (final(self).onnx_graph@, names_result(r)) == spatial_parts(
                old(self).meta(),
                old(self).onnx_graph@,
                id,
                parts@,
                parts@.len(),
            ),
    {
        let ghost m = self.meta();
        let ghost g = self.onnx_graph@;
        let mut list: Vec<String> = Vec::new();
        let mut i: usize = 0;
        proof {
            assert(names(list@) =~= Seq::empty());
        }
        while i < parts.len()
            invariant
                i <= parts.len(),
                m == old(self).meta(),
                g == old(self).onnx_graph@,
                self.meta() == m,
                (self.onnx_graph@, Ok::<Seq<Seq<char>>, ErrorView>(names(list@)))
                    == spatial_parts(m, g, id, parts@, i as nat),
            decreases parts.len() - i,
        {
            match self.get_tensor_name(parts[i]) {
                Ok(name) => {
                    if self.dims_or_empty(parts[i]).len() == 0 {
                        let raised = tag2("resize_spatial_", id, i as i64);
                        self.add_unsqueeze_node(
                            name,
                            raised.clone(),
                            &ints1(0),
                            tag("resize_unsqueeze_axes_", id),
                        );
                        push_name(&mut list, raised);
                    } else {
                        push_name(&mut list, name);
                    }
                },
                Err(e) => {
                    proof {
                        lemma_spatial_err(m, g, id, parts@, (i + 1) as nat, parts@.len());
                    }
                    return Err(e);
                },
            }
            i = i + 1;
        }
        Ok(list)
    }

    fn build_resize_sizes_from_spatial_list(&mut self, id: i64, input: i64, list: i64) -> (r: Result<
        Option<String>,
        Error,
    >)
        ensures
            final(self).meta() == old(self).meta(),
            (final(self).onnx_graph@, name_option_result(r)) == sizes_by_list(
                old(self).meta(),
                old(self).onnx_graph@,
                id,
                input,
                list,
            ),
    {
        let parts = match self.state.combines.get(list) {
            Some(parts) => crate::converter::ops::common::copy_list(parts),
            None => {
                return Ok(None);
            },
        };
        if parts.len() == 0 {
            return Ok(None);
        }
        let all = self.add_spatial_parts(id, &parts)?;
        let spatial = self.join_parts(all, tag("resize_hw_", id));
        let sizes = self.build_resize_sizes_from_spatial_tensor(id, input, spatial)?;
        Ok(Some(sizes))
    }

    fn end_resize(&mut self, op: &Json, mode: &str, inputs: Vec<String>, id: i64) -> (r: Result<
        (),
        Error,
    >)
        ensures
            final(self).meta() == old(self).meta(),
            (final(self).onnx_graph@, outcome(r)) == resize_ended(
                old(self).meta(),
                old(self).onnx_graph@,
                op@,
                mode@,
                names(inputs@),
                id,
            ),
    {
        let output = self.get_tensor_name(id)?;
        let mut node = NodeProto::new("Resize", inputs, list1(output)).with(
            attr_str("mode", mode),
        ).with(attr_str("coordinate_transformation_mode", choose_coordinate_mode(op, mode)));
        if same(mode, "nearest") {
            node = node.with(attr_str("nearest_mode", "floor"));
        }
        self.add_node(node);
        Ok(())
    }

    fn resize_to_shape(&mut self, op: &Json, mode: &str, front: Vec<String>, id: i64) -> (r: Result<
        (),
        Error,
    >)
        ensures
            final(self).meta() == old(self).meta(),
            (final(self).onnx_graph@, outcome(r)) == resize_by_shape(
                old(self).meta(),
                old(self).onnx_graph@,
                op@,
                mode@,
                names(front@),
                id,
            ),
    {
        let mut inputs = front;
        match self.known_dims(id) {
            Some(dims) => {
                if dims.len() == 4 && dims[2] > 0 && dims[3] > 0 {
                    let scales = self.push_resize_optional_input("scales", id);
                    let spatial = tag("resize_static_hw_", id);
                    self.push_i64_initializer(spatial.clone(), ints1(2), &ints2(dims[2], dims[3]));
                    let ins = op_input_ids(op);
                    if ins.len() == 0 {
                        return Err(Error::text("resize missing inputs"));
                    }
                    let sizes = self.build_resize_sizes_from_spatial_tensor(id, ins[0], spatial)?;
                    push_name(&mut inputs, scales);
                    push_name(&mut inputs, sizes);
                    return self.end_resize(op, mode, inputs, id);
                }
            },
            None => {},
        }
        let name = tag("scales_", id);
        self.push_f32_initializer(name.clone(), ints1(4), &read_scales(op));
        push_name(&mut inputs, name);
        self.end_resize(op, mode, inputs, id)
    }

    fn op_resize_interp(&mut self, op: &Json, mode: &str) -> (r: Result<(), Error>)
        ensures
            final(self).meta() == old(self).meta(),
            (final(self).onnx_graph@, outcome(r)) == resize_lowered(
                old(self).meta(),
                old(self).onnx_graph@,
                op@,
                mode@,
            ),
    {
        self.require_opset(11, mode)?;
        let format: &str = match attr_text(op, "data_format") {
            Some(format) => format,
            None => "NCHW",
        };
        if !same(format, "NCHW") {
            return Err(
                Error::owned(
                    join4(mode, " currently only supports data_format=NCHW (got ", format, ")"),
                ),
            );
        }
        let id: i64 = op_out_id(op)?;
        let ins = op_input_ids(op);
        let mut inputs: Vec<String> = Vec::new();
        if ins.len() > 0 {
            inputs = list1(self.get_tensor_name(ins[0])?);
        }
        proof {
            assert(ins@.len() == 0 ==> names(inputs@) =~= Seq::empty());
        }
        let roi = self.push_resize_optional_input("roi", id);
        push_name(&mut inputs, roi);
        if ins.len() > 2 && ins[2] != 0 {
            match self.build_resize_sizes_from_spatial_list(id, ins[0], ins[2])? {
                Some(sizes) => {
                    let scales = self.push_resize_optional_input("scales", id);
                    push_name(&mut inputs, scales);
                    push_name(&mut inputs, sizes);
                    return self.end_resize(op, mode, inputs, id);
                },
                None => {},
            }
        }
        self.resize_to_shape(op, mode, inputs, id)
    }

    /// Lowers `nearest_interp`.
    pub fn op_nearest_interp(&mut self, op: &Json) -> (r: Result<(), Error>)
        ensures
            final(self).meta() == old(self).meta(),
            (final(self).onnx_graph@, outcome(r)) == resize_lowered(
                old(self).meta(),
                old(self).onnx_graph@,
                op@,
                "nearest"@,
            ),
    {
        self.op_resize_interp(op, "nearest")
    }

    /// Lowers `bilinear_interp`.
    pub fn op_bilinear_interp(&mut self, op: &Json) -> (r: Result<(), Error>)
        ensures
            final(self).meta() == old(self).meta(),
            (final(self).onnx_graph@, outcome(r)) == resize_lowered(
                old(self).meta(),
                old(self).onnx_graph@,
                op@,
                "linear"@,
            ),
    {
        self.op_resize_interp(op, "linear")
    }
}

} // verus!
