//! Operators that repeat, pad or rotate a tensor.

use crate::converter::emit::{
    cast_added, concat_added, done, failed, singles_added, slice_added, squeeze_added, unary_added,
    unsqueeze_added, vector_added, Step,
};
use crate::converter::ops::common::{const_ints, has_shape, has_type, NameStep};
use crate::converter::ops::math::{finished, operands, read_operands};
use crate::converter::optimizer::options::map_get;
use crate::converter::state::{name_result, opset_checked, tensor_name, Converter, Meta};
use crate::dtype::INT64;
use crate::error::{message, outcome, Error, ErrorView};
use crate::float::{is_zero, narrow, to_single, zero};
use crate::helper::{
    attr, attr_chars_of, attr_i64s, attr_ints_of, attr_number, attr_number_of, attr_of, attr_text,
    or_default,
};
use crate::json::{Json, JsonView};
use crate::onnx::{attr_str, node_of, str_attribute, Graph, Node, NodeProto};
use crate::text::{
    dec, int_text, ints0, ints1, ints2, join, join4, list1, list2, list4, same, singles1, size_text,
    tag, tag2, tagged, tagged2,
};
use vstd::prelude::*;

verus! {

/// The lowering of `tile`: a scalar gets an axis first.
pub open spec fn tile_lowered(m: Meta, g: Graph, op: JsonView) -> Step {
    match operands(op, 2, "tile missing inputs"@) {
        Err(e) => failed(g, e),
        Ok((id, ins)) => match tensor_name(m, ins[0]) {
            Err(e) => failed(g, e),
            Ok(data) => {
                let scalar = has_shape(m, ins[0], Seq::empty());
                let raised = tagged("tile_unsqueezed_"@, id);
                let g = if scalar {
                    unsqueeze_added(
                        g,
                        m.target_opset,
                        data,
                        raised,
                        seq![0i64],
                        tagged("tile_unsqueeze_axes_"@, id),
                    )
                } else {
                    g
                };
                let data = if scalar {
                    raised
                } else {
                    data
                };
                match tensor_name(m, ins[1]) {
                    Err(e) => failed(g, e),
                    Ok(repeats) => finished(m, g, "Tile"@, data, repeats, id),
                }
            },
        },
    }
}

/// Paddings that come as a pair for each axis, with the begins first and then the ends.
pub open spec fn pairs_parted(list: Seq<i64>) -> Seq<i64> {
    Seq::new(
        (list.len() / 2 * 2) as nat,
        |i: int|
            if i < list.len() / 2 {
                list[2 * i]
            } else {
                list[2 * (i - list.len() / 2) + 1]
            },
    )
}

/// The graph's name for a padding mode.
pub open spec fn padding_mode(mode: Option<Seq<char>>) -> Seq<char> {
    if mode == Some("reflect"@) {
        "reflect"@
    } else if mode == Some("replicate"@) {
        "edge"@
    } else {
        "constant"@
    }
}

/// A node with the mode of its padding, which is left out where it is the usual one.
pub open spec fn with_mode(node: Node, mode: Seq<char>) -> Node {
    if mode == "constant"@ {
        node
    } else {
        node.with(str_attribute("mode"@, mode))
    }
}

/// The mode that `pad` asks for.
pub open spec fn asked_mode(op: JsonView) -> Option<Seq<char>> {
    match attr_of(op, "mode"@) {
        Some(v) => v.chars(),
        None => attr_chars_of(op, "padding_mode"@),
    }
}

/// The lowering of `pad`.
pub open spec fn pad_lowered(m: Meta, g: Graph, op: JsonView) -> Step {
    match operands(op, 1, "pad missing inputs"@) {
        Err(e) => failed(g, e),
        Ok((id, ins)) => match attr_ints_of(op, "paddings"@) {
            None => failed(g, message("pad: missing paddings"@)),
            Some(list) => if list.len() % 2 != 0 {
                failed(g, message("pad: paddings must have even length"@))
            } else {
                let pads = tagged("pad_pads_"@, id);
                let g = vector_added(g, pads, pairs_parted(list));
                match (tensor_name(m, ins[0]), tensor_name(m, id)) {
                    (Err(e), _) => failed(g, e),
                    (_, Err(e)) => failed(g, e),
                    (Ok(input), Ok(output)) => {
                        let node = with_mode(
                            node_of("Pad"@, seq![input, pads], seq![output]),
                            padding_mode(asked_mode(op)),
                        );
                        if ins.len() > 1 && ins[1] != 0 {
                            match tensor_name(m, ins[1]) {
                                Err(e) => failed(g, e),
                                Ok(value) => if has_shape(m, ins[1], seq![1i64]) {
                                    let squeezed = tagged("pad_value_"@, id);
                                    let g = squeeze_added(
                                        g,
                                        m.target_opset,
                                        value,
                                        squeezed,
                                        Some(seq![0i64]),
                                        Some(tagged("pad_value_axes_"@, id)),
                                    );
                                    done(g.with_node(node.with_input(squeezed)))
                                } else {
                                    done(g.with_node(node.with_input(value)))
                                },
                            }
                        } else {
                            done(g.with_node(node))
                        }
                    },
                }
            },
        },
    }
}

/// One of the paddings of `pad3d` as an `INT64` value of one element.
#[verifier::opaque]
pub open spec fn padding_taken(m: Meta, g: Graph, id: i64, input: i64, pads: Seq<char>, label: Seq<char>, start: i64) -> NameStep {
    let output = label + dec(id as int);
    match slice_added(
        g,
        m.target_opset,
        pads,
        output,
        seq![start],
        seq![(start + 1) as i64],
        Some(seq![0i64]),
        None,
        output + "_slice"@,
    ) {
        (g, Err(e)) => (g, Err(e)),
        (g, Ok(_)) => if has_type(m, input, "0.t_i64"@) {
            (g, Ok(output))
        } else {
            (cast_added(g, output, output + "_i64"@, INT64), Ok(output + "_i64"@))
        },
    }
}

/// The sizes that `pad3d` adds, as the graph has them: for every axis of the layout the begins,
/// and then the ends.
pub open spec fn volume_pads(
    g: Graph,
    id: i64,
    last: bool,
    w: (Seq<char>, Seq<char>),
    h: (Seq<char>, Seq<char>),
    d: (Seq<char>, Seq<char>),
) -> Graph {
    let none = tagged("pad3d_zero_prefix_"@, id);
    let starts = tagged("pad3d_starts_"@, id);
    let ends = tagged("pad3d_ends_"@, id);
    let g = concat_added(
        g,
        if last {
            seq![none, h.0, w.0, d.0]
        } else {
            seq![none, d.0, h.0, w.0]
        },
        starts,
        0,
    );
    let g = concat_added(
        g,
        if last {
            seq![none, h.1, w.1, d.1]
        } else {
            seq![none, d.1, h.1, w.1]
        },
        ends,
        0,
    );
    concat_added(g, seq![starts, ends], tagged("pad3d_pads_"@, id), 0)
}

/// The padding of a volume by sizes that are there already.
pub open spec fn volume_padded(m: Meta, g: Graph, op: JsonView, id: i64, input: i64) -> Step {
    match (tensor_name(m, input), tensor_name(m, id)) {
        (Err(e), _) => failed(g, e),
        (_, Err(e)) => failed(g, e),
        (Ok(from), Ok(output)) => {
            let mode = padding_mode(attr_chars_of(op, "mode"@));
            let node = with_mode(
                node_of("Pad"@, seq![from, tagged("pad3d_pads_"@, id)], seq![output]),
                mode,
            );
            match attr_number_of(op, "pad_value"@) {
                Some(v) => if mode == "constant"@ && !zero(v) {
                    let value = tagged("pad3d_value_"@, id);
                    let g = singles_added(g, value, Seq::empty(), seq![narrow(v)]);
                    done(g.with_node(node.with_input(value)))
                } else {
                    done(g.with_node(node))
                },
                None => done(g.with_node(node)),
            }
        },
    }
}

/// The lowering of `pad3d`, whose paddings come in pairs from the last axis to the first.
pub open spec fn pad3d_lowered(m: Meta, g: Graph, op: JsonView) -> Step {
    match opset_checked(m, 11, "pad3d"@) {
        Err(e) => failed(g, e),
        Ok(_) => match operands(op, 2, "pad3d missing paddings input"@) {
            Err(e) => failed(g, e),
            Ok((id, ins)) => match tensor_name(m, ins[1]) {
                Err(e) => failed(g, e),
                Ok(pads) => {
                    let format = or_default(attr_chars_of(op, "data_format"@), "NCDHW"@);
                    if format != "NCDHW"@ && format != "NDHWC"@ {
                        failed(g, message("pad3d only supports NCDHW or NDHWC"@))
                    } else {
                        let g = vector_added(
                            g,
                            tagged("pad3d_zero_prefix_"@, id),
                            seq![0i64, 0i64],
                        );
                        match all_paddings(m, g, id, ins[1], pads) {
                            (g, Err(e)) => failed(g, e),
                            (g, Ok((w, h, d))) => volume_padded(
                                m,
                                volume_pads(g, id, format == "NDHWC"@, w, h, d),
                                op,
                                id,
                                ins[0],
                            ),
                        }
                    }
                },
            },
        },
    }
}

/// The names of the begin and the end of an axis.
pub type Pair = (Seq<char>, Seq<char>);

/// Two paddings of one axis.
pub open spec fn paddings_taken(m: Meta, g: Graph, id: i64, input: i64, pads: Seq<char>, begin: Seq<char>, end: Seq<char>, start: i64) -> (
    Graph,
    Result<Pair, ErrorView>,
) {
    match padding_taken(m, g, id, input, pads, begin, start) {
        (g, Err(e)) => (g, Err(e)),
        (g, Ok(a)) => match padding_taken(m, g, id, input, pads, end, (start + 1) as i64) {
            (g, Err(e)) => (g, Err(e)),
            (g, Ok(b)) => (g, Ok((a, b))),
        },
    }
}

/// The paddings of the three axes of a volume.
pub open spec fn all_paddings(m: Meta, g: Graph, id: i64, input: i64, pads: Seq<char>) -> (
    Graph,
    Result<(Pair, Pair, Pair), ErrorView>,
) {
    match paddings_taken(m, g, id, input, pads, "pad3d_w_begin_"@, "pad3d_w_end_"@, 0) {
        (g, Err(e)) => (g, Err(e)),
        (g, Ok(w)) => match paddings_taken(
            m,
            g,
            id,
            input,
            pads,
            "pad3d_h_begin_"@,
            "pad3d_h_end_"@,
            2,
        ) {
            (g, Err(e)) => (g, Err(e)),
            (g, Ok(h)) => match paddings_taken(
                m,
                g,
                id,
                input,
                pads,
                "pad3d_d_begin_"@,
                "pad3d_d_end_"@,
                4,
            ) {
                (g, Err(e)) => (g, Err(e)),
                (g, Ok(d)) => (g, Ok((w, h, d))),
            },
        },
    }
}

/// An axis counted from the front.
pub open spec fn front_axis(axis: i64, rank: nat) -> int {
    if axis < 0 {
        axis + rank
    } else {
        axis as int
    }
}

/// A rotation along one axis: the last `shift` elements, and then the others. A rotation by a
/// whole turn leaves the value as it is.
#[verifier::opaque]
pub open spec fn axis_rolled(
    m: Meta,
    g: Graph,
    id: i64,
    current: Seq<char>,
    dims: Seq<i64>,
    axis_raw: i64,
    shift_raw: i64,
    index: nat,
    last: bool,
) -> NameStep {
    let axis = front_axis(axis_raw, dims.len());
    if axis < 0 || axis >= dims.len() {
        (
            g,
            Err(
                message(
                    "roll axis "@ + dec(axis_raw as int) + " out of range for rank "@ + dec(
                        dims.len() as int,
                    ),
                ),
            ),
        )
    } else if dims[axis] <= 0 {
        (g, Err(message("roll requires static positive axis dims"@)))
    } else {
        let dim = dims[axis];
        let shift = (shift_raw as int) % (dim as int);
        if shift == 0 {
            (g, Ok(current))
        } else {
            let split = (dim - shift) as i64;
            let tail = tagged2("roll_tail_"@, id, index as i64);
            let head = tagged2("roll_head_"@, id, index as i64);
            let named = if last {
                tensor_name(m, id)
            } else {
                Ok(tagged2("roll_axis_"@, id, index as i64))
            };
            match named {
                Err(e) => (g, Err(e)),
                Ok(next) => match slice_added(
                    g,
                    m.target_opset,
                    current,
                    tail,
                    seq![split],
                    seq![dim],
                    Some(seq![axis as i64]),
                    None,
                    tail,
                ) {
                    (g, Err(e)) => (g, Err(e)),
                    (g, Ok(_)) => match slice_added(
                        g,
                        m.target_opset,
                        current,
                        head,
                        seq![0i64],
                        seq![split],
                        Some(seq![axis as i64]),
                        None,
                        head,
                    ) {
                        (g, Err(e)) => (g, Err(e)),
                        (g, Ok(_)) => (
                            concat_added(g, seq![tail, head], next, axis as i64),
                            Ok(next),
                        ),
                    },
                },
            }
        }
    }
}

/// The rotations along the first `k` axes.
pub open spec fn axes_rolled(
    m: Meta,
    g: Graph,
    id: i64,
    start: Seq<char>,
    dims: Seq<i64>,
    axes: Seq<i64>,
    shifts: Seq<i64>,
    k: nat,
) -> NameStep
    decreases k,
{
    if k == 0 {
        (g, Ok(start))
    } else {
        match axes_rolled(m, g, id, start, dims, axes, shifts, (k - 1) as nat) {
            (g, Err(e)) => (g, Err(e)),
            (g, Ok(current)) => axis_rolled(
                m,
                g,
                id,
                current,
                dims,
                axes[k - 1],
                shifts[k - 1],
                (k - 1) as nat,
                k == axes.len(),
            ),
        }
    }
}

proof fn lemma_roll_err(
    m: Meta,
    g: Graph,
    id: i64,
    start: Seq<char>,
    dims: Seq<i64>,
    axes: Seq<i64>,
    shifts: Seq<i64>,
    k: nat,
    n: nat,
)
    requires
        k <= n,
        axes_rolled(m, g, id, start, dims, axes, shifts, k).1 is Err,
    ensures
        axes_rolled(m, g, id, start, dims, axes, shifts, n) == axes_rolled(
            m,
            g,
            id,
            start,
            dims,
            axes,
            shifts,
            k,
        ),
    decreases n,
{
    if k < n {
        lemma_roll_err(m, g, id, start, dims, axes, shifts, k, (n - 1) as nat);
    }
}

/// The lowering of `roll`.
pub open spec fn roll_lowered(m: Meta, g: Graph, op: JsonView) -> Step {
    match opset_checked(m, 11, "roll"@) {
        Err(e) => failed(g, e),
        Ok(_) => match operands(op, 2, "roll missing shifts input"@) {
            Err(e) => failed(g, e),
            Ok((id, ins)) => {
                let axes = or_default(attr_ints_of(op, "axis"@), Seq::empty());
                match const_ints(m, ins[1]) {
                    None => failed(g, message("roll currently requires constant shifts"@)),
                    Some(shifts) => if axes.len() > 0 && shifts.len() != axes.len() {
                        failed(g, message("roll axes/shifts length mismatch"@))
                    } else {
                        match (tensor_name(m, ins[0]), map_get(m.tensor_shapes, ins[0])) {
                            (Err(e), _) => failed(g, e),
                            (_, None) => failed(g, message("roll: missing rank metadata"@)),
                            (Ok(input), Some(dims)) => if axes.len() == 0 {
                                failed(g, message("roll currently requires explicit axes"@))
                            } else {
                                match axes_rolled(
                                    m,
                                    g,
                                    id,
                                    input,
                                    dims,
                                    axes,
                                    shifts,
                                    axes.len(),
                                ) {
                                    (g, Err(e)) => failed(g, e),
                                    (g, Ok(current)) => match tensor_name(m, id) {
                                        Err(e) => failed(g, e),
                                        Ok(output) => if current == output {
                                            done(g)
                                        } else {
                                            done(unary_added(g, "Identity"@, current, output))
                                        },
                                    },
                                }
                            },
                        }
                    },
                }
            },
        },
    }
}

fn part_pairs(list: &Vec<i64>) -> (r: Vec<i64>)
    ensures
        r@ == pairs_parted(list@),
{
    let half: usize = list.len() / 2;
    let mut parts: Vec<i64> = Vec::new();
    let mut i: usize = 0;
    while i < half
        invariant
            i <= half,
            half == list@.len() / 2,
            2 * half <= list.len(),
            parts@ =~= pairs_parted(list@).take(i as int),
        decreases half - i,
    {
        parts.push(list[2 * i]);
        i = i + 1;
    }
    let mut j: usize = 0;
    while j < half
        invariant
            j <= half,
            half == list@.len() / 2,
            2 * half <= list.len(),
            parts@ =~= pairs_parted(list@).take(half + j),
        decreases half - j,
    {
        parts.push(list[2 * j + 1]);
        j = j + 1;
    }
    proof {
        assert(pairs_parted(list@).take(half + j) =~= pairs_parted(list@));
    }
    parts
}

fn choose_padding_mode(mode: Option<&str>) -> (r: &'static str)
    ensures
        r@ == padding_mode(
            match mode {
                Some(text) => Some(text@),
                None => None,
            },
        ),
{
    match mode {
        Some(text) => {
            if same(text, "reflect") {
                "reflect"
            } else if same(text, "replicate") {
                "edge"
            } else {
                "constant"
            }
        },
        None => "constant",
    }
}

fn give_mode(node: NodeProto, mode: &str) -> (r: NodeProto)
    ensures
        r@ == with_mode(node@, mode@),
{
    if same(mode, "constant") {
        node
    } else {
        node.with(attr_str("mode", mode))
    }
}

fn read_asked_mode(op: &Json) -> (r: Option<&str>)
    ensures
        match r {
            Some(text) => asked_mode(op@) == Some(text@),
            None => asked_mode(op@) is None,
        },
{
    match attr(op, "mode") {
        Some(v) => v.as_str(),
        None => attr_text(op, "padding_mode"),
    }
}

fn positive_remainder(a: i64, d: i64) -> (r: i64)
    requires
        d > 0,
    ensures
        r == (a as int) % (d as int),
{
    if a >= 0 {
        a % d
    } else {
        let below: i64 = (-(a + 1)) % d;
        proof {
            let q = (-(a + 1)) as int / d as int;
            let s = (-(a + 1)) as int % d as int;
            assert(-(a + 1) == d * q + s) by (nonlinear_arith)
                requires
                    q == (-(a + 1)) as int / d as int,
                    s == (-(a + 1)) as int % d as int,
                    d > 0,
            ;
            assert((a as int) % (d as int) == d - 1 - s) by (nonlinear_arith)
                requires
                    -(a + 1) == d * q + s,
                    0 <= s < d,
                    d > 0,
            {
                assert(a == d * (-q - 1) + (d - 1 - s)) by (nonlinear_arith)
                    requires
                        -(a + 1) == d * q + s,
                ;
                vstd::arithmetic::div_mod::lemma_fundamental_div_mod_converse(
                    a as int,
                    d as int,
                    -q - 1,
                    d - 1 - s,
                );
            }
        }
        d - 1 - below
    }
}

/// The content of a result with two names.
pub open spec fn pair_result(r: Result<(String, String), Error>) -> Result<Pair, ErrorView> {
    match r {
        Ok((a, b)) => Ok((a@, b@)),
        Err(e) => Err(e@),
    }
}

impl Converter {
    /// Lowers `tile`.
    pub fn op_tile(&mut self, op: &Json) -> (r: Result<(), Error>)
        ensures
            final(self).meta() == old(self).meta(),
            (final(self).onnx_graph@, outcome(r)) == tile_lowered(
                old(self).meta(),
                old(self).onnx_graph@,
                op@,
            ),
    {
        let (id, ins) = read_operands(op, 2, "tile missing inputs")?;
        let mut data = self.get_tensor_name(ins[0])?;
        if self.is_shape(ins[0], &ints0()) {
            let raised = tag("tile_unsqueezed_", id);
            self.add_unsqueeze_node(
                data,
                raised.clone(),
                &ints1(0),
                tag("tile_unsqueeze_axes_", id),
            );
            data = raised;
        }
        let repeats = self.get_tensor_name(ins[1])?;
        self.finish("Tile", data, repeats, id)
    }

    /// Lowers `pad`.
    pub fn op_pad(&mut self, op: &Json) -> (r: Result<(), Error>)
        ensures
            final(self).meta() == old(self).meta(),
            (final(self).onnx_graph@, outcome(r)) == pad_lowered(
                old(self).meta(),
                old(self).onnx_graph@,
                op@,
            ),
    {
        let (id, ins) = read_operands(op, 1, "pad missing inputs")?;
        let list = match attr_i64s(op, "paddings") {
            Some(list) => list,
            None => {
                return Err(Error::text("pad: missing paddings"));
            },
        };
        if list.len() % 2 != 0 {
            return Err(Error::text("pad: paddings must have even length"));
        }
        let pads = tag("pad_pads_", id);
        self.push_vector(pads.clone(), &part_pairs(&list));
        let input = self.get_tensor_name(ins[0])?;
        let output = self.get_tensor_name(id)?;
        let mut node = give_mode(
            NodeProto::new("Pad", list2(input, pads), list1(output)),
            choose_padding_mode(read_asked_mode(op)),
        );
        if ins.len() > 1 && ins[1] != 0 {
            let mut value = self.get_tensor_name(ins[1])?;
            if self.is_shape(ins[1], &ints1(1)) {
                let squeezed = tag("pad_value_", id);
                self.add_squeeze_node(
                    value,
                    squeezed.clone(),
                    Some(&ints1(0)),
                    Some(tag("pad_value_axes_", id)),
                );
                value = squeezed;
            }
            node = node.with_input(value);
        }
        self.add_node(node);
        Ok(())
    }

    fn take_padding(&mut self, id: i64, input: i64, pads: &String, label: &str, start: i64) -> (r:
        Result<String, Error>)
        requires
            0 <= start < 6,
        ensures
            final(self).meta() == old(self).meta(),
            (final(self).onnx_graph@, name_result(r)) == padding_taken(
                old(self).meta(),
                old(self).onnx_graph@,
                id,
                input,
                pads@,
                label@,
                start,
            ),
    {
        proof {
            reveal(padding_taken);
        }
        let output = tag(label, id);
        self.add_slice_node(
            pads.clone(),
            output.clone(),
            &ints1(start),
            &ints1(start + 1),
            Some(&ints1(0)),
            None,
            join(output.as_str(), "_slice").as_str(),
        )?;
        if self.is_type(input, "0.t_i64") {
            return Ok(output);
        }
        let casted = join(output.as_str(), "_i64");
        self.add_cast_node(output, casted.clone(), INT64);
        Ok(casted)
    }

    fn take_paddings(
        &mut self,
        id: i64,
        input: i64,
        pads: &String,
        begin: &str,
        end: &str,
        start: i64,
    ) -> (r: Result<(String, String), Error>)
        requires
            0 <= start < 5,
        ensures
            final(self).meta() == old(self).meta(),
            (final(self).onnx_graph@, pair_result(r)) == paddings_taken(
                old(self).meta(),
                old(self).onnx_graph@,
                id,
                input,
                pads@,
                begin@,
                end@,
                start,
            ),
    {
        let a = self.take_padding(id, input, pads, begin, start)?;
        let b = self.take_padding(id, input, pads, end, start + 1)?;
        Ok((a, b))
    }

    fn add_volume_pads(
        &mut self,
        id: i64,
        last: bool,
        w: (String, String),
        h: (String, String),
        d: (String, String),
    )
        ensures
            final(self).meta() == old(self).meta(),
            final(self).onnx_graph@ == volume_pads(
                old(self).onnx_graph@,
                id,
                last,
                (w.0@, w.1@),
                (h.0@, h.1@),
                (d.0@, d.1@),
            ),
    {
        let none = tag("pad3d_zero_prefix_", id);
        let starts = tag("pad3d_starts_", id);
        let ends = tag("pad3d_ends_", id);
        if last {
            self.add_concat_node(list4(none.clone(), h.0, w.0, d.0), starts.clone(), 0);
            self.add_concat_node(list4(none, h.1, w.1, d.1), ends.clone(), 0);
        } else {
            self.add_concat_node(list4(none.clone(), d.0, h.0, w.0), starts.clone(), 0);
            self.add_concat_node(list4(none, d.1, h.1, w.1), ends.clone(), 0);
        }
        self.add_concat_node(list2(starts, ends), tag("pad3d_pads_", id), 0);
    }

    fn pad_volume(&mut self, op: &Json, id: i64, input: i64) -> (r: Result<(), Error>)
        ensures
            final(self).meta() == old(self).meta(),
            (final(self).onnx_graph@, outcome(r)) == volume_padded(
                old(self).meta(),
                old(self).onnx_graph@,
                op@,
                id,
                input,
            ),
    {
        let from = self.get_tensor_name(input)?;
        let output = self.get_tensor_name(id)?;
        let mode = choose_padding_mode(attr_text(op, "mode"));
        let mut node = give_mode(
            NodeProto::new("Pad", list2(from, tag("pad3d_pads_", id)), list1(output)),
            mode,
        );
        match attr_number(op, "pad_value") {
            Some(v) => {
                if same(mode, "constant") && !is_zero(v) {
                    let value = tag("pad3d_value_", id);
                    self.push_f32_initializer(value.clone(), ints0(), &singles1(to_single(v)));
                    node = node.with_input(value);
                }
            },
            None => {},
        }
        self.add_node(node);
        Ok(())
    }

    /// Lowers `pad3d`.
    pub fn op_pad3d(&mut self, op: &Json) -> (r: Result<(), Error>)
        ensures
            final(self).meta() == old(self).meta(),
            (final(self).onnx_graph@, outcome(r)) == pad3d_lowered(
                old(self).meta(),
                old(self).onnx_graph@,
                op@,
            ),
    {
        self.require_opset(11, "pad3d")?;
        let (id, ins) = read_operands(op, 2, "pad3d missing paddings input")?;
        let pads = self.get_tensor_name(ins[1])?;
        let format: &str = match attr_text(op, "data_format") {
            Some(format) => format,
            None => "NCDHW",
        };
        if !same(format, "NCDHW") && !same(format, "NDHWC") {
            return Err(Error::text("pad3d only supports NCDHW or NDHWC"));
        }
        self.push_vector(tag("pad3d_zero_prefix_", id), &ints2(0, 0));
        let w = self.take_paddings(id, ins[1], &pads, "pad3d_w_begin_", "pad3d_w_end_", 0)?;
        let h = self.take_paddings(id, ins[1], &pads, "pad3d_h_begin_", "pad3d_h_end_", 2)?;
        let d = self.take_paddings(id, ins[1], &pads, "pad3d_d_begin_", "pad3d_d_end_", 4)?;
        self.add_volume_pads(id, same(format, "NDHWC"), w, h, d);
        self.pad_volume(op, id, ins[0])
    }

    fn roll_axis(
        &mut self,
        id: i64,
        current: String,
        dims: &Vec<i64>,
        axis_raw: i64,
        shift_raw: i64,
        index: usize,
        last: bool,
    ) -> (r: Result<String, Error>)
        ensures
            final(self).meta() == old(self).meta(),
            (final(self).onnx_graph@, name_result(r)) == axis_rolled(
                old(self).meta(),
                old(self).onnx_graph@,
                id,
                current@,
                dims@,
                axis_raw,
                shift_raw,
                index as nat,
                last,
            ),
    {
        proof {
            reveal(axis_rolled);
        }
        let rank: usize = dims.len();
        let axis: i128 = if axis_raw < 0 {
            axis_raw as i128 + rank as i128
        } else {
            axis_raw as i128
        };
        if axis < 0 || axis >= rank as i128 {
            return Err(
                Error::owned(
                    join4(
                        "roll axis ",
                        int_text(axis_raw).as_str(),
                        " out of range for rank ",
                        size_text(rank).as_str(),
                    ),
                ),
            );
        }
        let dim = dims[axis as usize];
        if dim <= 0 {
            return Err(Error::text("roll requires static positive axis dims"));
        }
        let shift = positive_remainder(shift_raw, dim);
        if shift == 0 {
            return Ok(current);
        }
        let split = dim - shift;
        let tail = tag2("roll_tail_", id, index as i64);
        let head = tag2("roll_head_", id, index as i64);
        let next: String = if last {
            self.get_tensor_name(id)?
        } else {
            tag2("roll_axis_", id, index as i64)
        };
        self.add_slice_node(
            current.clone(),
            tail.clone(),
            &ints1(split),
            &ints1(dim),
            Some(&ints1(axis as i64)),
            None,
            tail.as_str(),
        )?;
        self.add_slice_node(
            current,
            head.clone(),
            &ints1(0),
            &ints1(split),
            Some(&ints1(axis as i64)),
            None,
            head.as_str(),
        )?;
        self.add_concat_node(list2(tail, head), next.clone(), axis as i64);
        Ok(next)
    }

    fn roll_axes(
        &mut self,
        id: i64,
        start: String,
        dims: &Vec<i64>,
        axes: &Vec<i64>,
        shifts: &Vec<i64>,
    ) -> (r: Result<String, Error>)
        requires
            axes.len() == shifts.len(),
        ensures
            final(self).meta() == old(self).meta(),
            (final(self).onnx_graph@, name_result(r)) == axes_rolled(
                old(self).meta(),
                old(self).onnx_graph@,
                id,
                start@,
                dims@,
                axes@,
                shifts@,
                axes@.len(),
            ),
    {
        let ghost m = self.meta();
        let ghost g = self.onnx_graph@;
        let ghost first = start@;
        let mut current = start;
        let mut i: usize = 0;
        while i < axes.len()
            invariant
                i <= axes.len() == shifts.len(),
                first == start@,
                m == old(self).meta(),
                g == old(self).onnx_graph@,
                self.meta() == m,
                (self.onnx_graph@, Ok::<Seq<char>, ErrorView>(current@)) == axes_rolled(
                    m,
                    g,
                    id,
                    first,
                    dims@,
                    axes@,
                    shifts@,
                    i as nat,
                ),
            decreases axes.len() - i,
        {
            match self.roll_axis(id, current, dims, axes[i], shifts[i], i, i + 1 == axes.len()) {
                Ok(next) => {
                    current = next;
                },
                Err(e) => {
                    proof {
                        lemma_roll_err(
                            m,
                            g,
                            id,
                            first,
                            dims@,
                            axes@,
                            shifts@,
                            (i + 1) as nat,
                            axes@.len(),
                        );
                    }
                    return Err(e);
                },
            }
            i = i + 1;
        }
        Ok(current)
    }

    /// Lowers `roll`.
    pub fn op_roll(&mut self, op: &Json) -> (r: Result<(), Error>)
        ensures
            final(self).meta() == old(self).meta(),
            (final(self).onnx_graph@, outcome(r)) == roll_lowered(
                old(self).meta(),
                old(self).onnx_graph@,
                op@,
            ),
    {
        self.require_opset(11, "roll")?;
        let (id, ins) = read_operands(op, 2, "roll missing shifts input")?;
        let axes: Vec<i64> = match attr_i64s(op, "axis") {
            Some(axes) => axes,
            None => ints0(),
        };
        let shifts = match self.constant_ints(ins[1]) {
            Some(shifts) => shifts,
            None => {
                return Err(Error::text("roll currently requires constant shifts"));
            },
        };
        if axes.len() > 0 && shifts.len() != axes.len() {
            return Err(Error::text("roll axes/shifts length mismatch"));
        }
        let input = self.get_tensor_name(ins[0])?;
        let dims = match self.known_dims(ins[0]) {
            Some(dims) => dims,
            None => {
                return Err(Error::text("roll: missing rank metadata"));
            },
        };
        if axes.len() == 0 {
            return Err(Error::text("roll currently requires explicit axes"));
        }
        let current = self.roll_axes(id, input, &dims, &axes, &shifts)?;
        let output = self.get_tensor_name(id)?;
        if !same(current.as_str(), output.as_str()) {
            self.add_unary_node("Identity", current, output);
        }
        Ok(())
    }
}

} // verus!
