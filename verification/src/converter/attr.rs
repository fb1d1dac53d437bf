//! Attributes: from the spelling of the model description to that of the graph.

use crate::converter::state::Converter;
use crate::error::{message, Error};
use crate::float::{narrow, to_single};
use crate::helper::{collect_members, collect_plain_ints, members_int, plain_ints};
use crate::json::{Json, JsonView};
use crate::onnx::{
    attr_int, attr_str, attribute_of, int_attribute, str_attribute, views, Attribute,
    AttributeProto, ATTR_FLOAT, ATTR_FLOATS, ATTR_INT, ATTR_INTS, ATTR_STRING, ATTR_STRINGS,
};
use crate::scope::{lemma_retained_views, retain_items, retained};
use crate::text::{dec, ints4, join, same, size_text};
use vstd::prelude::*;
use vstd::string::*;
use vstd::utf8::encode_utf8;

verus! {

/// The graph's name for an attribute.
pub open spec fn renamed_attr(op_type: Seq<char>, name: Seq<char>) -> Seq<char> {
    if name == "start_axis"@ || name == "begin_norm_axis"@ {
        "axis"@
    } else if op_type == "hardsigmoid"@ && name == "slope"@ {
        "alpha"@
    } else if op_type == "hardsigmoid"@ && name == "offset"@ {
        "beta"@
    } else {
        name
    }
}

/// Whether an attribute is internal to Paddle or concerns training only.
pub open spec fn internal_attr(name: Seq<char>) -> bool {
    name == "stop_gradient"@ || name == "name"@ || name == "place"@ || name == "struct_name"@
        || name == "dtype"@ || name == "col"@ || name == "is_test"@ || name == "use_global_stats"@
        || name == "trainable_statistics"@
}

/// Whether an attribute of an operator has no place in the graph.
pub open spec fn skipped_attr(op_type: Seq<char>, name: Seq<char>) -> bool {
    if internal_attr(name) {
        true
    } else if op_type == "conv2d"@ || op_type == "depthwise_conv2d"@ || op_type
        == "conv2d_transpose"@ {
        name == "padding_algorithm"@ || name == "data_format"@
    } else if op_type == "pool2d"@ {
        name == "padding_algorithm"@ || name == "data_format"@ || name == "global_pooling"@ || name
            == "adaptive"@ || name == "exclusive"@ || name == "pooling_type"@ || name
            == "ceil_mode"@
    } else if op_type == "nearest_interp"@ || op_type == "bilinear_interp"@ {
        name == "data_format"@ || name == "align_corners"@ || name == "align_mode"@ || name
            == "interp_method"@ || name == "out_h"@ || name == "out_w"@ || name == "out_d"@
    } else if op_type == "scale"@ {
        name == "bias_after_scale"@ || name == "scale"@ || name == "bias"@
    } else if op_type == "matmul"@ || op_type == "matmul_v2"@ || op_type == "bmm"@ {
        name == "transpose_x"@ || name == "transpose_y"@
    } else if op_type == "flatten"@ {
        name == "stop_axis"@ || name == "flatten"@
    } else if op_type == "batch_norm"@ || op_type == "batch_norm_"@ {
        name == "data_format"@ || name == "scale"@ || name == "bias"@
    } else {
        false
    }
}

/// Paddings as the graph has them: begins and then ends. Two stand for both sides of an axis, and
/// four come as pairs.
pub open spec fn pads_normalized(list: Seq<i64>) -> Option<Seq<i64>> {
    if list.len() == 2 {
        Some(seq![list[0], list[1], list[0], list[1]])
    } else if list.len() == 4 {
        Some(seq![list[0], list[2], list[1], list[3]])
    } else {
        None
    }
}

/// The `binary32` values of the data of the first `k` items.
pub open spec fn members_single(items: Seq<JsonView>, k: nat) -> Seq<u32>
    decreases k,
{
    if k == 0 {
        Seq::empty()
    } else {
        let front = members_single(items, (k - 1) as nat);
        let found = match items[k - 1].field("D"@) {
            Some(v) => v.float(),
            None => None,
        };
        match found {
            Some(v) => front.push(narrow(v)),
            None => front,
        }
    }
}

/// The bytes of the texts of the data of the first `k` items.
pub open spec fn members_bytes(items: Seq<JsonView>, k: nat) -> Seq<Seq<u8>>
    decreases k,
{
    if k == 0 {
        Seq::empty()
    } else {
        let front = members_bytes(items, (k - 1) as nat);
        match items[k - 1].field_chars("D"@) {
            Some(text) => front.push(encode_utf8(text)),
            None => front,
        }
    }
}

/// The text of a member, or the empty text.
pub open spec fn chars_or_empty(v: JsonView, key: Seq<char>) -> Seq<char> {
    match v.field_chars(key) {
        Some(text) => text,
        None => Seq::empty(),
    }
}

/// An attribute that lists values, by the type of the first.
pub open spec fn list_attribute(name: Seq<char>, items: Seq<JsonView>) -> Option<Attribute> {
    if items.len() == 0 {
        None
    } else {
        let kind = chars_or_empty(items[0], "#"@);
        if kind == "0.a_i32"@ || kind == "0.a_i64"@ {
            Some(
                Attribute {
                    kind: ATTR_INTS,
                    ints: members_int(items, "D"@, items.len()),
                    ..attribute_of(name)
                },
            )
        } else if kind == "0.a_f32"@ || kind == "0.a_f64"@ {
            Some(
                Attribute {
                    kind: ATTR_FLOATS,
                    floats: members_single(items, items.len()),
                    ..attribute_of(name)
                },
            )
        } else if kind == "0.a_str"@ {
            Some(
                Attribute {
                    kind: ATTR_STRINGS,
                    strings: members_bytes(items, items.len()),
                    ..attribute_of(name)
                },
            )
        } else if items[0] is Number {
            Some(
                Attribute {
                    kind: ATTR_INTS,
                    ints: plain_ints(items, items.len()),
                    ..attribute_of(name)
                },
            )
        } else {
            None
        }
    }
}

/// The attribute that a typed value stands for, where it stands for one.
pub open spec fn built_attribute(name: Seq<char>, at: JsonView) -> Option<Attribute> {
    let kind = chars_or_empty(at, "#"@);
    match at.field("D"@) {
        None => None,
        Some(data) => if kind == "0.a_i32"@ || kind == "0.a_i64"@ {
            match data.whole() {
                Some(v) => Some(Attribute { kind: ATTR_INT, i: v, ..attribute_of(name) }),
                None => None,
            }
        } else if kind == "0.a_f32"@ || kind == "0.a_f64"@ {
            match data.float() {
                Some(v) => Some(
                    Attribute { kind: ATTR_FLOAT, f: narrow(v), ..attribute_of(name) },
                ),
                None => None,
            }
        } else if kind == "0.a_str"@ {
            match data.chars() {
                Some(v) => Some(
                    Attribute { kind: ATTR_STRING, s: encode_utf8(v), ..attribute_of(name) },
                ),
                None => None,
            }
        } else if kind == "0.a_bool"@ {
            match data.truth() {
                Some(v) => Some(
                    Attribute {
                        kind: ATTR_INT,
                        i: if v {
                            1
                        } else {
                            0
                        },
                        ..attribute_of(name)
                    },
                ),
                None => None,
            }
        } else if kind == "0.a_array"@ || kind == "1.a_intarray"@ {
            match data.items() {
                Some(items) => list_attribute(name, items),
                None => None,
            }
        } else {
            None
        },
    }
}

/// The attributes that the first `k` items stand for.
pub open spec fn listed_attributes(op_type: Seq<char>, items: Seq<JsonView>, k: nat) -> Seq<Attribute>
    decreases k,
{
    if k == 0 {
        Seq::empty()
    } else {
        let front = listed_attributes(op_type, items, (k - 1) as nat);
        let name = renamed_attr(op_type, chars_or_empty(items[k - 1], "N"@));
        let made = match items[k - 1].field("AT"@) {
            Some(at) => built_attribute(name, at),
            None => None,
        };
        if skipped_attr(op_type, name) || made is None {
            front
        } else {
            front.push(made->0)
        }
    }
}

/// Whether an operator slides a window over its input.
pub open spec fn windowed(op_type: Seq<char>) -> bool {
    op_type == "conv2d"@ || op_type == "pool2d"@ || op_type == "depthwise_conv2d"@ || op_type
        == "conv2d_transpose"@
}

/// The graph's name for an attribute of a windowed operator.
pub open spec fn window_name(name: Seq<char>) -> Seq<char> {
    if name == "paddings"@ {
        "pads"@
    } else if name == "groups"@ {
        "group"@
    } else {
        name
    }
}

/// An attribute of a windowed operator as the graph has it.
pub open spec fn window_attribute(a: Attribute) -> Attribute {
    let name = window_name(a.name);
    Attribute {
        name,
        ints: if name == "pads"@ && a.kind == ATTR_INTS && pads_normalized(a.ints) is Some {
            pads_normalized(a.ints)->0
        } else {
            a.ints
        },
        ..a
    }
}

/// Whether an item asks for paddings that keep the size.
pub open spec fn asks_same(item: JsonView) -> bool {
    item.field_chars("N"@) == Some("padding_algorithm"@) && (match item.field2("AT"@, "D"@) {
        Some(d) => d.chars() == Some("SAME"@),
        None => false,
    })
}

/// Whether one of the items asks for paddings that keep the size.
pub open spec fn same_padding(attrs: JsonView) -> bool {
    match attrs.items() {
        Some(items) => exists|i: int| 0 <= i < items.len() && asks_same(#[trigger] items[i]),
        None => false,
    }
}

/// The first truth value among items named `ceil_mode`, from position `i` on.
pub open spec fn ceil_mode_from(items: Seq<JsonView>, i: int) -> Option<bool>
    decreases items.len() - i,
{
    if i < 0 || i >= items.len() {
        None
    } else {
        let found = if items[i].field_chars("N"@) == Some("ceil_mode"@) {
            match items[i].field2("AT"@, "D"@) {
                Some(d) => d.truth(),
                None => None,
            }
        } else {
            None
        };
        match found {
            Some(b) => Some(b),
            None => ceil_mode_from(items, i + 1),
        }
    }
}

/// The attributes without those named `name`.
pub open spec fn without_named(list: Seq<Attribute>, name: Seq<char>) -> Seq<Attribute> {
    retained(list, Seq::new(list.len(), |i: int| list[i].name != name))
}

/// The attributes with what is special to some operators.
pub open spec fn attributes_adjusted(op_type: Seq<char>, attrs: JsonView, list: Seq<Attribute>) -> Seq<
    Attribute,
> {
    let list = if windowed(op_type) {
        let named = Seq::new(list.len(), |i: int| window_attribute(list[i]));
        if same_padding(attrs) {
            without_named(named.push(str_attribute("auto_pad"@, "SAME_UPPER"@)), "pads"@)
        } else {
            named
        }
    } else {
        list
    };
    let ceil = match attrs.items() {
        Some(items) => ceil_mode_from(items, 0),
        None => None,
    };
    if op_type == "pool2d"@ && ceil is Some {
        list.push(
            int_attribute(
                "ceil_mode"@,
                if ceil->0 {
                    1
                } else {
                    0
                },
            ),
        )
    } else {
        list
    }
}

/// The attributes of an operator as the graph has them.
pub open spec fn attributes_extracted(op_type: Seq<char>, attrs: JsonView) -> Seq<Attribute> {
    attributes_adjusted(
        op_type,
        attrs,
        match attrs.items() {
            Some(items) => listed_attributes(op_type, items, items.len()),
            None => Seq::empty(),
        },
    )
}

fn rename_attr_name(op_type: &str, name: &str) -> (r: String)
    ensures
        r@ == renamed_attr(op_type@, name@),
{
    if same(name, "start_axis") || same(name, "begin_norm_axis") {
        "axis".to_string()
    } else if same(op_type, "hardsigmoid") && same(name, "slope") {
        "alpha".to_string()
    } else if same(op_type, "hardsigmoid") && same(name, "offset") {
        "beta".to_string()
    } else {
        name.to_string()
    }
}

fn is_internal_attr(name: &str) -> (r: bool)
    ensures
        r == internal_attr(name@),
{
    same(name, "stop_gradient") || same(name, "name") || same(name, "place") || same(
        name,
        "struct_name",
    ) || same(name, "dtype") || same(name, "col") || same(name, "is_test") || same(
        name,
        "use_global_stats",
    ) || same(name, "trainable_statistics")
}

fn should_skip_attr(op_type: &str, name: &str) -> (r: bool)
    ensures
        r == skipped_attr(op_type@, name@),
{
    if is_internal_attr(name) {
        true
    } else if same(op_type, "conv2d") || same(op_type, "depthwise_conv2d") || same(
        op_type,
        "conv2d_transpose",
    ) {
        same(name, "padding_algorithm") || same(name, "data_format")
    } else if same(op_type, "pool2d") {
        same(name, "padding_algorithm") || same(name, "data_format") || same(
            name,
            "global_pooling",
        ) || same(name, "adaptive") || same(name, "exclusive") || same(name, "pooling_type")
            || same(name, "ceil_mode")
    } else if same(op_type, "nearest_interp") || same(op_type, "bilinear_interp") {
        same(name, "data_format") || same(name, "align_corners") || same(name, "align_mode") || same(
            name,
            "interp_method",
        ) || same(name, "out_h") || same(name, "out_w") || same(name, "out_d")
    } else if same(op_type, "scale") {
        same(name, "bias_after_scale") || same(name, "scale") || same(name, "bias")
    } else if same(op_type, "matmul") || same(op_type, "matmul_v2") || same(op_type, "bmm") {
        same(name, "transpose_x") || same(name, "transpose_y")
    } else if same(op_type, "flatten") {
        same(name, "stop_axis") || same(name, "flatten")
    } else if same(op_type, "batch_norm") || same(op_type, "batch_norm_") {
        same(name, "data_format") || same(name, "scale") || same(name, "bias")
    } else {
        false
    }
}

fn normalize_pads_attr(list: &Vec<i64>) -> (r: Result<Vec<i64>, Error>)
    ensures
        match r {
            Ok(pads) => pads_normalized(list@) == Some(pads@),
            Err(e) => pads_normalized(list@) is None && e@ == message(
                "unsupported pads attribute length "@ + dec(list@.len() as int),
            ),
        },
{
    if list.len() == 2 {
        Ok(ints4(list[0], list[1], list[0], list[1]))
    } else if list.len() == 4 {
        Ok(ints4(list[0], list[2], list[1], list[3]))
    } else {
        Err(
            Error::owned(
                join("unsupported pads attribute length ", size_text(list.len()).as_str()),
            ),
        )
    }
}

fn collect_singles(items: &Vec<Json>) -> (r: Vec<u32>)
    ensures
        r@ == members_single(views(items@), items@.len()),
{
    let mut list: Vec<u32> = Vec::new();
    let mut i: usize = 0;
    while i < items.len()
        invariant
            i <= items.len(),
            list@ == members_single(views(items@), i as nat),
        decreases items.len() - i,
    {
        match items[i].get("D") {
            Some(v) => match v.as_float() {
                Some(b) => {
                    list.push(to_single(b));
                },
                None => {},
            },
            None => {},
        }
        i = i + 1;
    }
    list
}

/// The content of a list of byte strings.
pub open spec fn bytes_views(list: Seq<Vec<u8>>) -> Seq<Seq<u8>> {
    Seq::new(list.len(), |i: int| list[i]@)
}

fn collect_texts(items: &Vec<Json>) -> (r: Vec<Vec<u8>>)
    ensures
        bytes_views(r@) == members_bytes(views(items@), items@.len()),
{
    let mut list: Vec<Vec<u8>> = Vec::new();
    let mut i: usize = 0;
    proof {
        assert(bytes_views(list@) =~= Seq::empty());
    }
    while i < items.len()
        invariant
            i <= items.len(),
            bytes_views(list@) == members_bytes(views(items@), i as nat),
        decreases items.len() - i,
    {
        match items[i].get_str("D") {
            Some(text) => {
                let ghost before = bytes_views(list@);
                let bytes = text.as_bytes_vec();
                list.push(bytes);
                proof {
                    assert(bytes_views(list@) =~= before.push(bytes@));
                }
            },
            None => {},
        }
        i = i + 1;
    }
    list
}

fn member_or_empty<'a>(v: &'a Json, key: &str) -> (r: &'a str)
    ensures
        r@ == chars_or_empty(v@, key@),
{
    match v.get_str(key) {
        Some(text) => text,
        None => {
            proof {
                reveal_strlit("");
                assert(""@ =~= Seq::empty());
            }
            ""
        },
    }
}

/// The content of an optional attribute.
pub open spec fn attribute_option(a: Option<AttributeProto>) -> Option<Attribute> {
    match a {
        Some(a) => Some(a@),
        None => None,
    }
}

fn build_list_attribute(name: &str, items: &Vec<Json>) -> (r: Option<AttributeProto>)
    ensures
        attribute_option(r) == list_attribute(name@, views(items@)),
{
    if items.len() == 0 {
        return None;
    }
    let kind = member_or_empty(&items[0], "#");
    let mut a = AttributeProto::new(name);
    if same(kind, "0.a_i32") || same(kind, "0.a_i64") {
        a.kind = ATTR_INTS;
        a.ints = collect_members(items, "D");
        Some(a)
    } else if same(kind, "0.a_f32") || same(kind, "0.a_f64") {
        a.kind = ATTR_FLOATS;
        a.floats = collect_singles(items);
        Some(a)
    } else if same(kind, "0.a_str") {
        a.kind = ATTR_STRINGS;
        a.strings = collect_texts(items);
        proof {
            assert(a@.strings =~= bytes_views(a.strings@));
        }
        Some(a)
    } else if items[0].is_number() {
        a.kind = ATTR_INTS;
        a.ints = collect_plain_ints(items);
        Some(a)
    } else {
        None
    }
}

fn build_onnx_attribute(name: &str, at: &Json) -> (r: Option<AttributeProto>)
    ensures
        attribute_option(r) == built_attribute(name@, at@),
{
    let kind = member_or_empty(at, "#");
    let data = match at.get("D") {
        Some(data) => data,
        None => {
            return None;
        },
    };
    let mut a = AttributeProto::new(name);
    if same(kind, "0.a_i32") || same(kind, "0.a_i64") {
        match data.as_i64() {
            Some(v) => {
                a.kind = ATTR_INT;
                a.i = v;
                Some(a)
            },
            None => None,
        }
    } else if same(kind, "0.a_f32") || same(kind, "0.a_f64") {
        match data.as_float() {
            Some(v) => {
                a.kind = ATTR_FLOAT;
                a.f = to_single(v);
                Some(a)
            },
            None => None,
        }
    } else if same(kind, "0.a_str") {
        match data.as_str() {
            Some(v) => {
                a.kind = ATTR_STRING;
                a.s = v.as_bytes_vec();
                Some(a)
            },
            None => None,
        }
    } else if same(kind, "0.a_bool") {
        match data.as_bool() {
            Some(v) => {
                a.kind = ATTR_INT;
                a.i = if v {
                    1
                } else {
                    0
                };
                Some(a)
            },
            None => None,
        }
    } else if same(kind, "0.a_array") || same(kind, "1.a_intarray") {
        match data.as_array() {
            Some(items) => build_list_attribute(name, items),
            None => None,
        }
    } else {
        None
    }
}

fn list_attributes(op_type: &str, items: &Vec<Json>) -> (r: Vec<AttributeProto>)
    ensures
        views(r@) == listed_attributes(op_type@, views(items@), items@.len()),
{
    let mut list: Vec<AttributeProto> = Vec::new();
    let mut i: usize = 0;
    proof {
        assert(views(list@) =~= Seq::empty());
    }
    while i < items.len()
        invariant
            i <= items.len(),
            views(list@) == listed_attributes(op_type@, views(items@), i as nat),
        decreases items.len() - i,
    {
        let name = rename_attr_name(op_type, member_or_empty(&items[i], "N"));
        let ghost before = views(list@);
        if !should_skip_attr(op_type, name.as_str()) {
            match items[i].get("AT") {
                Some(at) => match build_onnx_attribute(name.as_str(), at) {
                    Some(a) => {
                        list.push(a);
                        proof {
                            assert(views(list@) =~= before.push(a@));
                        }
                    },
                    None => {},
                },
                None => {},
            }
        }
        i = i + 1;
    }
    list
}

fn adjust_window_attribute(a: &mut AttributeProto)
    ensures
        final(a)@ == window_attribute(old(a)@),
{
    if same(a.name.as_str(), "paddings") {
        a.name = "pads".to_string();
    } else if same(a.name.as_str(), "groups") {
        a.name = "group".to_string();
    }
    if same(a.name.as_str(), "pads") && a.kind == ATTR_INTS {
        match normalize_pads_attr(&a.ints) {
            Ok(pads) => {
                a.ints = pads;
            },
            Err(_) => {},
        }
    }
}

fn is_windowed(op_type: &str) -> (r: bool)
    ensures
        r == windowed(op_type@),
{
    same(op_type, "conv2d") || same(op_type, "pool2d") || same(op_type, "depthwise_conv2d") || same(
        op_type,
        "conv2d_transpose",
    )
}

fn asks_for_same(item: &Json) -> (r: bool)
    ensures
        r == asks_same(item@),
{
    match item.get_str("N") {
        Some(name) => {
            if !same(name, "padding_algorithm") {
                return false;
            }
        },
        None => {
            return false;
        },
    }
    match item.get2("AT", "D") {
        Some(d) => match d.as_str() {
            Some(text) => same(text, "SAME"),
            None => false,
        },
        None => false,
    }
}

fn has_same_padding(attrs: &Json) -> (r: bool)
    ensures
        r == same_padding(attrs@),
{
    match attrs.as_array() {
        Some(items) => {
            let mut i: usize = 0;
            while i < items.len()
                invariant
                    i <= items.len(),
                    attrs@.items() == Some(views(items@)),
                    forall|k: int| 0 <= k < i ==> !asks_same(#[trigger] views(items@)[k]),
                decreases items.len() - i,
            {
                if asks_for_same(&items[i]) {
                    proof {
                        let all = attrs@.items()->0;
                        assert(0 <= i < all.len() && asks_same(all[i as int]));
                        assert(exists|k: int| 0 <= k < all.len() && asks_same(#[trigger] all[k]));
                    }
                    return true;
                }
                i = i + 1;
            }
            false
        },
        None => false,
    }
}

fn read_ceil_mode(items: &Vec<Json>) -> (r: Option<bool>)
    ensures
        r == ceil_mode_from(views(items@), 0),
{
    let mut i: usize = 0;
    while i < items.len()
        invariant
            i <= items.len(),
            ceil_mode_from(views(items@), 0) == ceil_mode_from(views(items@), i as int),
        decreases items.len() - i,
    {
        match items[i].get_str("N") {
            Some(name) => {
                if same(name, "ceil_mode") {
                    match items[i].get2("AT", "D") {
                        Some(d) => match d.as_bool() {
                            Some(b) => {
                                return Some(b);
                            },
                            None => {},
                        },
                        None => {},
                    }
                }
            },
            None => {},
        }
        i = i + 1;
    }
    None
}

/// Drops the attributes named `name`.
pub fn drop_named(list: &mut Vec<AttributeProto>, name: &str)
    ensures
        views(final(list)@) == without_named(views(old(list)@), name@),
{
    let ghost all = views(list@);
    let mut keep: Vec<bool> = Vec::new();
    let mut i: usize = 0;
    while i < list.len()
        invariant
            i <= list.len(),
            all == views(list@),
            keep@ =~= Seq::new(i as nat, |k: int| all[k].name != name@),
        decreases list.len() - i,
    {
        keep.push(!same(list[i].name.as_str(), name));
        i = i + 1;
    }
    proof {
        lemma_retained_views(list@, keep@);
        assert(keep@ =~= Seq::new(all.len(), |k: int| all[k].name != name@));
    }
    retain_items(list, &keep);
}

fn apply_op_specific_attr_overrides(op_type: &str, attrs: &Json, list: &mut Vec<AttributeProto>)
    ensures
        views(final(list)@) == attributes_adjusted(op_type@, attrs@, views(old(list)@)),
{
    if is_windowed(op_type) {
        let ghost before = views(list@);
        let mut i: usize = 0;
        while i < list.len()
            invariant
                i <= list.len(),
                list.len() == before.len(),
                forall|k: int|
                    0 <= k < i ==> (#[trigger] list@[k])@ == window_attribute(before[k]),
                forall|k: int| i <= k < list.len() ==> (#[trigger] list@[k])@ == before[k],
            decreases list.len() - i,
        {
            adjust_window_attribute(&mut list[i]);
            i = i + 1;
        }
        let ghost named = Seq::new(before.len(), |i: int| window_attribute(before[i]));
        proof {
            assert(views(list@) =~= named);
        }
        if has_same_padding(attrs) {
            let auto_pad = attr_str("auto_pad", "SAME_UPPER");
            list.push(auto_pad);
            proof {
                assert(views(list@) =~= named.push(auto_pad@));
            }
            drop_named(list, "pads");
        }
    }
    if same(op_type, "pool2d") {
        match attrs.as_array() {
            Some(items) => match read_ceil_mode(items) {
                Some(b) => {
                    let ghost before = views(list@);
                    let added = attr_int(
                        "ceil_mode",
                        if b {
                            1
                        } else {
                            0
                        },
                    );
                    list.push(added);
                    proof {
                        assert(views(list@) =~= before.push(added@));
                    }
                },
                None => {},
            },
            None => {},
        }
    }
}

impl Converter {
    /// The attributes of an operator as the graph has them.
    pub fn extract_attributes(&self, op_type: &str, attrs: &Json) -> (r: Vec<AttributeProto>)
        ensures
            views(r@) == attributes_extracted(op_type@, attrs@),
    {
        let mut list: Vec<AttributeProto> = match attrs.as_array() {
            Some(items) => list_attributes(op_type, items),
            None => Vec::new(),
        };
        proof {
            if attrs@.items() is None {
                assert(views(list@) =~= Seq::empty());
            }
        }
        apply_op_specific_attr_overrides(op_type, attrs, &mut list);
        list
    }
}

} // verus!
