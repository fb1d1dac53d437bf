//! Transposed convolutions and pooling.

use crate::converter::attr::{drop_named, without_named};
use crate::converter::emit::{done, failed, Step};
use crate::converter::ops::common::{const_ints, ints_option, names_upto};
use crate::converter::ops::misc::carried_attributes;
use crate::converter::state::{tensor_name, Converter, Meta};
use crate::error::{message, outcome, Error, ErrorView};
use crate::helper::{
    attr_bool_of, attr_bool_or, attr_chars_of, attr_text, input_ids, op_input_ids, op_out_id,
    or_default, out_id,
};
use crate::json::{Json, JsonView};
use crate::onnx::{
    attr_int, attr_ints, int_attribute, ints_attribute, node_of, views, Attribute, AttributeProto,
    Graph, Node, NodeProto,
};
use crate::text::{ints2, list1, names, same};
use vstd::prelude::*;
use vstd::string::*;
use vstd::utf8::encode_utf8;

verus! {

/// The integers of a constant input, where it is there and constant.
pub open spec fn constant_input(m: Meta, ins: Seq<i64>, at: int) -> Option<Seq<i64>> {
    if 0 <= at < ins.len() {
        const_ints(m, ins[at])
    } else {
        None
    }
}

/// The attributes of a transposed convolution: the size of its output counts where it is constant.
pub open spec fn transposed_attributes(list: Seq<Attribute>, size: Option<Seq<i64>>) -> Seq<
    Attribute,
> {
    match size {
        Some(size) => without_named(list, "output_shape"@).push(
            ints_attribute("output_shape"@, size),
        ),
        None => list,
    }
}

/// The lowering of `conv2d_transpose`.
pub open spec fn conv2d_transpose_lowered(m: Meta, g: Graph, op: JsonView) -> Step {
    let ins = input_ids(op);
    if ins.len() < 2 {
        failed(g, message("conv2d_transpose missing input/filter tensors"@))
    } else if ins.len() >= 4 {
        failed(
            g,
            message(
                "ConvTranspose with bias as 4th input is not supported; use a separate Add node for bias"@,
            ),
        )
    } else {
        match names_upto(m, ins, 2) {
            Err(e) => failed(g, e),
            Ok(inputs) => match out_id(op) {
                Err(e) => failed(g, e),
                Ok(id) => match tensor_name(m, id) {
                    Err(e) => failed(g, e),
                    Ok(output) => done(
                        g.with_node(
                            Node {
                                attribute: transposed_attributes(
                                    carried_attributes("conv2d_transpose"@, op),
                                    constant_input(m, ins, 2),
                                ),
                                ..node_of("ConvTranspose"@, inputs, seq![output])
                            },
                        ),
                    ),
                },
            },
        }
    }
}

/// The attributes of a pooling before its window is known, or the error that the opset is too low
/// for them.
pub open spec fn pool_attributes(m: Meta, op: JsonView) -> Result<Seq<Attribute>, ErrorView> {
    let list = carried_attributes("pool2d"@, op);
    if m.target_opset >= 10 {
        Ok(list)
    } else if or_default(attr_bool_of(op, "ceil_mode"@), false) {
        Err(message("pool2d ceil_mode requires opset >= 10"@))
    } else {
        Ok(without_named(list, "ceil_mode"@))
    }
}

/// Whether the attributes ask for paddings that keep the size.
pub open spec fn pads_to_same(list: Seq<Attribute>) -> bool {
    exists|i: int|
        0 <= i < list.len() && #[trigger] list[i].name == "auto_pad"@ && list[i].s == encode_utf8(
            "SAME_UPPER"@,
        )
}

/// Whether a pooling takes averages.
pub open spec fn averages(op: JsonView) -> bool {
    attr_chars_of(op, "pooling_type"@) == Some("avg"@)
}

/// The operator and the attributes of a pooling with an input: over everything, or over a window.
pub open spec fn pool_window(m: Meta, op: JsonView, list: Seq<Attribute>) -> Result<
    (Seq<char>, Seq<Attribute>),
    ErrorView,
> {
    let size = constant_input(m, input_ids(op), 1);
    let unit = size == Some(seq![1i64, 1i64]);
    let adaptive = or_default(attr_bool_of(op, "adaptive"@), false);
    if or_default(attr_bool_of(op, "global_pooling"@), false) || (unit && adaptive) {
        Ok(
            (
                if averages(op) {
                    "GlobalAveragePool"@
                } else {
                    "GlobalMaxPool"@
                },
                Seq::empty(),
            ),
        )
    } else if adaptive {
        Err(
            message(
                "adaptive pool2d only supports global output_size=[1,1]; non-global adaptive pooling requires derived kernel/stride"@,
            ),
        )
    } else if pads_to_same(list) && unit {
        Err(
            message(
                "pool2d with padding_algorithm=SAME does not support output_size=[1,1] unless adaptive=true"@,
            ),
        )
    } else {
        Ok(
            (
                plain_pool(op),
                match size {
                    Some(size) => list.push(ints_attribute("kernel_shape"@, size)),
                    None => list,
                },
            ),
        )
    }
}

/// The operator of a pooling over a window.
pub open spec fn plain_pool(op: JsonView) -> Seq<char> {
    if averages(op) {
        "AveragePool"@
    } else {
        "MaxPool"@
    }
}

/// The attributes of a pooling, with whether an average counts what was padded.
pub open spec fn counting_pads(op: JsonView, list: Seq<Attribute>) -> Seq<Attribute> {
    if averages(op) && !or_default(attr_bool_of(op, "exclusive"@), true) {
        list.push(int_attribute("count_include_pad"@, 1))
    } else {
        list
    }
}

/// The lowering of `pool2d`.
pub open spec fn pool2d_lowered(m: Meta, g: Graph, op: JsonView) -> Step {
    let ins = input_ids(op);
    match pool_attributes(m, op) {
        Err(e) => failed(g, e),
        Ok(list) => match if ins.len() > 0 {
            names_upto(m, ins, 1)
        } else {
            Ok(Seq::empty())
        } {
            Err(e) => failed(g, e),
            Ok(inputs) => match if ins.len() > 0 {
                pool_window(m, op, list)
            } else {
                Ok((plain_pool(op), list))
            } {
                Err(e) => failed(g, e),
                Ok((kind, list)) => match out_id(op) {
                    Err(e) => failed(g, e),
                    Ok(id) => match tensor_name(m, id) {
                        Err(e) => failed(g, e),
                        Ok(output) => done(
                            g.with_node(
                                Node {
                                    attribute: counting_pads(op, list),
                                    ..node_of(kind, inputs, seq![output])
                                },
                            ),
                        ),
                    },
                },
            },
        },
    }
}

fn same_bytes(a: &Vec<u8>, b: &Vec<u8>) -> (r: bool)
    ensures
        r == (a@ == b@),
{
    if a.len() != b.len() {
        return false;
    }
    let mut i: usize = 0;
    while i < a.len()
        invariant
            i <= a.len() == b.len(),
            forall|k: int| 0 <= k < i ==> a@[k] == b@[k],
        decreases a.len() - i,
    {
        if a[i] != b[i] {
            return false;
        }
        i = i + 1;
    }
    proof {
        assert(a@ =~= b@);
    }
    true
}

fn has_same_pads(list: &Vec<AttributeProto>) -> (r: bool)
    ensures
        r == pads_to_same(views(list@)),
{
    let ghost all = views(list@);
    let wanted = "SAME_UPPER".as_bytes_vec();
    let mut i: usize = 0;
    while i < list.len()
        invariant
            i <= list.len(),
            all == views(list@),
            wanted@ == encode_utf8("SAME_UPPER"@),
            forall|k: int|
                0 <= k < i ==> !(#[trigger] all[k].name == "auto_pad"@ && all[k].s == encode_utf8(
                    "SAME_UPPER"@,
                )),
        decreases list.len() - i,
    {
        proof {
            assert(all[i as int] == list@[i as int]@);
        }
        if same(list[i].name.as_str(), "auto_pad") && same_bytes(&list[i].s, &wanted) {
            proof {
                assert(all[i as int].name == "auto_pad"@ && all[i as int].s == wanted@);
                assert(pads_to_same(all));
            }
            return true;
        }
        i = i + 1;
    }
    false
}

fn is_average(op: &Json) -> (r: bool)
    ensures
        r == averages(op@),
{
    match attr_text(op, "pooling_type") {
        Some(text) => same(text, "avg"),
        None => false,
    }
}

fn push_attribute(list: &mut Vec<AttributeProto>, a: AttributeProto)
    ensures
        views(final(list)@) == views(old(list)@).push(a@),
{
    let ghost before = views(list@);
    list.push(a);
    proof {
        assert(views(list@) =~= before.push(a@));
    }
}

fn name_plain_pool(op: &Json) -> (r: &'static str)
    ensures
        r@ == plain_pool(op@),
{
    if is_average(op) {
        "AveragePool"
    } else {
        "MaxPool"
    }
}

fn is_unit(size: &Option<Vec<i64>>) -> (r: bool)
    ensures
        r == (ints_option(*size) == Some(seq![1i64, 1i64])),
{
    match size {
        Some(size) => crate::converter::ops::common::same_list(size, &ints2(1, 1)),
        None => false,
    }
}

impl Converter {
    fn read_constant_input(&self, ins: &Vec<i64>, at: usize) -> (r: Option<Vec<i64>>)
        ensures
            ints_option(r) == constant_input(self.meta(), ins@, at as int),
    {
        if at < ins.len() {
            self.constant_ints(ins[at])
        } else {
            None
        }
    }

    fn carry_attributes(&self, op_type: &str, op: &Json) -> (r: Vec<AttributeProto>)
        ensures
            views(r@) == carried_attributes(op_type@, op@),
    {
        match op.get("A") {
            Some(attrs) => self.extract_attributes(op_type, attrs),
            None => {
                let list: Vec<AttributeProto> = Vec::new();
                proof {
                    assert(views(list@) =~= Seq::empty());
                }
                list
            },
        }
    }

    fn finish_with(
        &mut self,
        op: &Json,
        kind: &str,
        inputs: Vec<String>,
        attribute: Vec<AttributeProto>,
    ) -> (r: Result<(), Error>)
        ensures
            final(self).meta() == old(self).meta(),
            (final(self).onnx_graph@, outcome(r)) == (match out_id(op@) {
                Err(e) => failed(old(self).onnx_graph@, e),
                Ok(id) => match tensor_name(old(self).meta(), id) {
                    Err(e) => failed(old(self).onnx_graph@, e),
                    Ok(output) => done(
                        old(self).onnx_graph@.with_node(
                            (Node {
                                attribute: views(attribute@),
                                ..node_of(kind@, names(inputs@), seq![output])
                            }),
                        ),
                    ),
                },
            }),
    {
        let id: i64 = op_out_id(op)?;
        let output = self.get_tensor_name(id)?;
        let mut node = NodeProto::new(kind, inputs, list1(output));
        node.attribute = attribute;
        proof {
            assert(node@.attribute =~= views(attribute@));
        }
        self.add_node(node);
        Ok(())
    }

    /// Lowers `conv2d_transpose`.
    pub fn op_conv2d_transpose(&mut self, op: &Json) -> (r: Result<(), Error>)
        ensures
            final(self).meta() == old(self).meta(),
            (final(self).onnx_graph@, outcome(r)) == conv2d_transpose_lowered(
                old(self).meta(),
                old(self).onnx_graph@,
                op@,
            ),
    {
        let ins = op_input_ids(op);
        if ins.len() < 2 {
            return Err(Error::text("conv2d_transpose missing input/filter tensors"));
        }
        if ins.len() >= 4 {
            return Err(
                Error::text(
                    "ConvTranspose with bias as 4th input is not supported; use a separate Add node for bias",
                ),
            );
        }
        let inputs = self.first_names(&ins, 2)?;
        let mut list = self.carry_attributes("conv2d_transpose", op);
        match self.read_constant_input(&ins, 2) {
            Some(size) => {
                drop_named(&mut list, "output_shape");
                push_attribute(&mut list, attr_ints("output_shape", &size));
            },
            None => {},
        }
        self.finish_with(op, "ConvTranspose", inputs, list)
    }

    fn read_pool_attributes(&self, op: &Json) -> (r: Result<Vec<AttributeProto>, Error>)
        ensures
            match r {
                Ok(list) => pool_attributes(self.meta(), op@) == Ok::<Seq<Attribute>, ErrorView>(
                    views(list@),
                ),
                Err(e) => pool_attributes(self.meta(), op@) == Err::<Seq<Attribute>, ErrorView>(
                    e@,
                ),
            },
    {
        let mut list = self.carry_attributes("pool2d", op);
        if self.target_opset < 10 {
            if attr_bool_or(op, "ceil_mode", false) {
                return Err(Error::text("pool2d ceil_mode requires opset >= 10"));
            }
            drop_named(&mut list, "ceil_mode");
        }
        Ok(list)
    }

    fn choose_pool_window(&self, op: &Json, list: Vec<AttributeProto>) -> (r: Result<
        (&'static str, Vec<AttributeProto>),
        Error,
    >)
        ensures
            match r {
                Ok((kind, made)) => pool_window(self.meta(), op@, views(list@)) == Ok::<
                    (Seq<char>, Seq<Attribute>),
                    ErrorView,
                >((kind@, views(made@))),
                Err(e) => pool_window(self.meta(), op@, views(list@)) == Err::<
                    (Seq<char>, Seq<Attribute>),
                    ErrorView,
                >(e@),
            },
    {
        let ins = op_input_ids(op);
        let size = self.read_constant_input(&ins, 1);
        let unit = is_unit(&size);
        let adaptive = attr_bool_or(op, "adaptive", false);
        if attr_bool_or(op, "global_pooling", false) || (unit && adaptive) {
            let none: Vec<AttributeProto> = Vec::new();
            proof {
                assert(views(none@) =~= Seq::empty());
            }
            return Ok(
                (
                    if is_average(op) {
                        "GlobalAveragePool"
                    } else {
                        "GlobalMaxPool"
                    },
                    none,
                ),
            );
        }
        if adaptive {
            return Err(
                Error::text(
                    "adaptive pool2d only supports global output_size=[1,1]; non-global adaptive pooling requires derived kernel/stride",
                ),
            );
        }
        let mut made = list;
        match size {
            Some(size) => {
                if has_same_pads(&made) && unit {
                    return Err(
                        Error::text(
                            "pool2d with padding_algorithm=SAME does not support output_size=[1,1] unless adaptive=true",
                        ),
                    );
                }
                push_attribute(&mut made, attr_ints("kernel_shape", &size));
            },
            None => {},
        }
        Ok((name_plain_pool(op), made))
    }

    /// Lowers `pool2d`.
    pub fn op_pool2d(&mut self, op: &Json) -> (r: Result<(), Error>)
        ensures
            final(self).meta() == old(self).meta(),
            (final(self).onnx_graph@, outcome(r)) == pool2d_lowered(
                old(self).meta(),
                old(self).onnx_graph@,
                op@,
            ),
    {
        let list = self.read_pool_attributes(op)?;
        let ins = op_input_ids(op);
        let mut inputs: Vec<String> = Vec::new();
        let mut kind = name_plain_pool(op);
        let mut made = list;
        proof {
            assert(names(inputs@) =~= Seq::empty());
        }
        if ins.len() > 0 {
            inputs = self.first_names(&ins, 1)?;
            let (chosen, window) = self.choose_pool_window(op, made)?;
            kind = chosen;
            made = window;
        }
        if is_average(op) && !attr_bool_or(op, "exclusive", true) {
            push_attribute(&mut made, attr_int("count_include_pad", 1));
        }
        self.finish_with(op, kind, inputs, made)
    }
}

} // verus!
