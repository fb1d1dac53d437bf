//! Access to the parts of an operator description.

use crate::error::{message, Error, ErrorView};
use crate::json::{number_of_text, number_text, Number, Json, JsonView};
use crate::onnx::views;
use crate::text::same;
use vstd::prelude::*;
use vstd::string::*;

verus! {

/// The type of an operator.
pub open spec fn type_of(op: JsonView) -> Option<Seq<char>> {
    op.field_chars("#"@)
}

/// The first output of an operator, which are listed or stand alone.
pub open spec fn first_output(op: JsonView) -> Option<i64> {
    match op.field("O"@) {
        Some(JsonView::Array(items)) => if items.len() > 0 {
            items[0].field_int("%"@)
        } else {
            None
        },
        Some(JsonView::Object(members)) => JsonView::Object(members).field_int("%"@),
        _ => None,
    }
}

/// The first output of an operator, or an error.
pub open spec fn out_id(op: JsonView) -> Result<i64, ErrorView> {
    match first_output(op) {
        Some(id) => Ok(id),
        None => Err(message("operator has no output id"@)),
    }
}

/// The integers of the members named `key` of the first `k` items that have one.
pub open spec fn members_int(items: Seq<JsonView>, key: Seq<char>, k: nat) -> Seq<i64>
    decreases k,
{
    if k == 0 {
        Seq::empty()
    } else {
        let front = members_int(items, key, (k - 1) as nat);
        match items[k - 1].field_int(key) {
            Some(id) => front.push(id),
            None => front,
        }
    }
}

/// The inputs of an operator.
pub open spec fn input_ids(op: JsonView) -> Seq<i64> {
    match op.field_items("I"@) {
        Some(items) => members_int(items, "%"@, items.len()),
        None => Seq::empty(),
    }
}

/// The outputs of an operator, where they are listed.
pub open spec fn output_ids(op: JsonView) -> Seq<i64> {
    match op.field_items("O"@) {
        Some(items) => members_int(items, "%"@, items.len()),
        None => Seq::empty(),
    }
}

/// The first item named `name`, from position `i` on.
pub open spec fn item_named(items: Seq<JsonView>, name: Seq<char>, i: int) -> Option<JsonView>
    decreases items.len() - i,
{
    if i < 0 || i >= items.len() {
        None
    } else if items[i].field_chars("N"@) == Some(name) {
        Some(items[i])
    } else {
        item_named(items, name, i + 1)
    }
}

/// The data of the attribute named `name` of an operator.
pub open spec fn attr_of(op: JsonView, name: Seq<char>) -> Option<JsonView> {
    match op.field_items("A"@) {
        Some(items) => match item_named(items, name, 0) {
            Some(item) => item.field2("AT"@, "D"@),
            None => None,
        },
        None => None,
    }
}

/// The bits of the value that a text stands for.
pub open spec fn float_of_text(text: Seq<char>) -> Option<u64> {
    if text == "inf"@ || text == "INF"@ || text == "Infinity"@ {
        Some(0x7FF0_0000_0000_0000u64)
    } else if text == "-inf"@ || text == "-INF"@ || text == "-Infinity"@ {
        Some(0xFFF0_0000_0000_0000u64)
    } else if text == "nan"@ || text == "NAN"@ || text == "NaN"@ {
        Some(0x7FF8_0000_0000_0000u64)
    } else {
        match number_text(text) {
            Some(number) => number.float,
            None => None,
        }
    }
}

/// The bits of the value of a number, or of a text that stands for one.
pub open spec fn plain_float(v: JsonView) -> Option<u64> {
    match v {
        JsonView::Number(number) => number.float,
        JsonView::Text(text) => float_of_text(text),
        _ => None,
    }
}

/// The bits of the value of a number, of a text that stands for one, or of the data of an
/// attribute value.
pub open spec fn float_of(v: JsonView) -> Option<u64> {
    match v.field("D"@) {
        Some(data) => plain_float(data),
        None => plain_float(v),
    }
}

/// The bits of the value of the attribute named `name`.
pub open spec fn attr_float_of(op: JsonView, name: Seq<char>) -> Option<u64> {
    match attr_of(op, name) {
        Some(v) => float_of(v),
        None => None,
    }
}

/// The bits of the value of the attribute named `name`, where it is a number.
pub open spec fn attr_number_of(op: JsonView, name: Seq<char>) -> Option<u64> {
    match attr_of(op, name) {
        Some(v) => v.float(),
        None => None,
    }
}

/// The integer of the attribute named `name`.
pub open spec fn attr_int_of(op: JsonView, name: Seq<char>) -> Option<i64> {
    match attr_of(op, name) {
        Some(v) => v.whole(),
        None => None,
    }
}

/// The truth value of the attribute named `name`.
pub open spec fn attr_bool_of(op: JsonView, name: Seq<char>) -> Option<bool> {
    match attr_of(op, name) {
        Some(v) => v.truth(),
        None => None,
    }
}

/// The text of the attribute named `name`.
pub open spec fn attr_chars_of(op: JsonView, name: Seq<char>) -> Option<Seq<char>> {
    match attr_of(op, name) {
        Some(v) => v.chars(),
        None => None,
    }
}

/// The items of the attribute named `name`.
pub open spec fn attr_items_of(op: JsonView, name: Seq<char>) -> Option<Seq<JsonView>> {
    match attr_of(op, name) {
        Some(v) => v.items(),
        None => None,
    }
}

/// The integer of an item, which may be the data of an attribute value.
pub open spec fn item_int(v: JsonView) -> Option<i64> {
    match v.field_int("D"@) {
        Some(i) => Some(i),
        None => v.whole(),
    }
}

/// The integers among the first `k` items.
pub open spec fn items_int(items: Seq<JsonView>, k: nat) -> Seq<i64>
    decreases k,
{
    if k == 0 {
        Seq::empty()
    } else {
        let front = items_int(items, (k - 1) as nat);
        match item_int(items[k - 1]) {
            Some(i) => front.push(i),
            None => front,
        }
    }
}

/// The integers of the attribute named `name`.
pub open spec fn attr_ints_of(op: JsonView, name: Seq<char>) -> Option<Seq<i64>> {
    match attr_items_of(op, name) {
        Some(items) => Some(items_int(items, items.len())),
        None => None,
    }
}

/// The bits of the values among the first `k` items.
pub open spec fn items_float(items: Seq<JsonView>, k: nat) -> Seq<u64>
    decreases k,
{
    if k == 0 {
        Seq::empty()
    } else {
        let front = items_float(items, (k - 1) as nat);
        match float_of(items[k - 1]) {
            Some(v) => front.push(v),
            None => front,
        }
    }
}

/// The type of an operator.
pub fn op_type(op: &Json) -> (r: Option<&str>)
    ensures
        match r {
            Some(name) => type_of(op@) == Some(name@),
            None => type_of(op@) is None,
        },
{
    op.get_str("#")
}

/// The content of a result with an id.
pub open spec fn id_result(r: Result<i64, Error>) -> Result<i64, ErrorView> {
    match r {
        Ok(id) => Ok(id),
        Err(e) => Err(e@),
    }
}

/// The first output of an operator.
pub fn op_first_output(op: &Json) -> (r: Option<i64>)
    ensures
        r == first_output(op@),
{
    match op.get("O") {
        Some(v) => match v.as_array() {
            Some(items) => {
                if items.len() > 0 {
                    items[0].get_i64("%")
                } else {
                    None
                }
            },
            None => {
                if v.is_object() {
                    v.get_i64("%")
                } else {
                    None
                }
            },
        },
        None => None,
    }
}

/// The first output of an operator.
pub fn op_out_id(op: &Json) -> (r: Result<i64, Error>)
    ensures
        id_result(r) == out_id(op@),
{
    match op_first_output(op) {
        Some(id) => Ok(id),
        None => Err(Error::text("operator has no output id")),
    }
}

/// The integers of the members named `key` of the items that have one.
pub fn collect_members(items: &Vec<Json>, key: &str) -> (r: Vec<i64>)
    ensures
        r@ == members_int(views(items@), key@, views(items@).len()),
{
    let mut list: Vec<i64> = Vec::new();
    let mut i: usize = 0;
    while i < items.len()
        invariant
            i <= items.len(),
            list@ == members_int(views(items@), key@, i as nat),
        decreases items.len() - i,
    {
        match items[i].get_i64(key) {
            Some(id) => {
                list.push(id);
            },
            None => {},
        }
        i = i + 1;
    }
    list
}

/// The inputs of an operator.
pub fn op_input_ids(op: &Json) -> (r: Vec<i64>)
    ensures
        r@ == input_ids(op@),
{
    match op.get_array("I") {
        Some(items) => collect_members(items, "%"),
        None => Vec::new(),
    }
}

/// The outputs of an operator, where they are listed.
pub fn op_output_ids(op: &Json) -> (r: Vec<i64>)
    ensures
        r@ == output_ids(op@),
{
    match op.get_array("O") {
        Some(items) => collect_members(items, "%"),
        None => Vec::new(),
    }
}

/// The first item named `name`.
pub fn find_item<'a>(items: &'a Vec<Json>, name: &str) -> (r: Option<&'a Json>)
    ensures
        match r {
            Some(v) => item_named(views(items@), name@, 0) == Some(v@),
            None => item_named(views(items@), name@, 0) is None,
        },
{
    let mut i: usize = 0;
    while i < items.len()
        invariant
            i <= items.len(),
            item_named(views(items@), name@, 0) == item_named(views(items@), name@, i as int),
        decreases items.len() - i,
    {
        match items[i].get_str("N") {
            Some(n) => {
                if same(n, name) {
                    return Some(&items[i]);
                }
            },
            None => {},
        }
        i = i + 1;
    }
    None
}

/// The data of the attribute named `name` of an operator.
pub fn attr<'a>(op: &'a Json, name: &str) -> (r: Option<&'a Json>)
    ensures
        match r {
            Some(v) => attr_of(op@, name@) == Some(v@),
            None => attr_of(op@, name@) is None,
        },
{
    match op.get_array("A") {
        Some(items) => match find_item(items, name) {
            Some(item) => item.get2("AT", "D"),
            None => None,
        },
        None => None,
    }
}

fn text_as_float(text: &str) -> (r: Option<u64>)
    ensures
        r == float_of_text(text@),
{
    if same(text, "inf") || same(text, "INF") || same(text, "Infinity") {
        Some(0x7FF0_0000_0000_0000)
    } else if same(text, "-inf") || same(text, "-INF") || same(text, "-Infinity") {
        Some(0xFFF0_0000_0000_0000)
    } else if same(text, "nan") || same(text, "NAN") || same(text, "NaN") {
        Some(0x7FF8_0000_0000_0000)
    } else {
        match number_of_text(text) {
            Some(number) => number.float,
            None => None,
        }
    }
}

fn plain_as_float(v: &Json) -> (r: Option<u64>)
    ensures
        r == plain_float(v@),
{
    match v {
        Json::Number(number) => number.float,
        Json::Text(text) => text_as_float(text.as_str()),
        _ => None,
    }
}

/// The bits of the value of a number, of a text that stands for one, or of the data of an
/// attribute value.
pub fn value_as_f64(v: &Json) -> (r: Option<u64>)
    ensures
        r == float_of(v@),
{
    match v.get("D") {
        Some(data) => plain_as_float(data),
        None => plain_as_float(v),
    }
}

/// The bits of the value of the attribute named `name`.
pub fn attr_f64(op: &Json, name: &str) -> (r: Option<u64>)
    ensures
        r == attr_float_of(op@, name@),
{
    match attr(op, name) {
        Some(v) => value_as_f64(v),
        None => None,
    }
}

/// The bits of the value of the attribute named `name`, where it is a number.
pub fn attr_number(op: &Json, name: &str) -> (r: Option<u64>)
    ensures
        r == attr_number_of(op@, name@),
{
    match attr(op, name) {
        Some(v) => v.as_float(),
        None => None,
    }
}

/// The value, or a default.
pub open spec fn or_default<T>(value: Option<T>, default: T) -> T {
    match value {
        Some(v) => v,
        None => default,
    }
}

/// The integer of the attribute named `name`, or a default.
pub fn attr_i64_or(op: &Json, name: &str, default: i64) -> (r: i64)
    ensures
        r == or_default(attr_int_of(op@, name@), default),
{
    match attr_i64(op, name) {
        Some(v) => v,
        None => default,
    }
}

/// The truth value of the attribute named `name`, or a default.
pub fn attr_bool_or(op: &Json, name: &str, default: bool) -> (r: bool)
    ensures
        r == or_default(attr_bool_of(op@, name@), default),
{
    match attr_bool(op, name) {
        Some(v) => v,
        None => default,
    }
}

/// The bits of the number of the attribute named `name`, or a default.
pub fn attr_number_or(op: &Json, name: &str, default: u64) -> (r: u64)
    ensures
        r == or_default(attr_number_of(op@, name@), default),
{
    match attr_number(op, name) {
        Some(v) => v,
        None => default,
    }
}

/// The integer of the attribute named `name`.
pub fn attr_i64(op: &Json, name: &str) -> (r: Option<i64>)
    ensures
        r == attr_int_of(op@, name@),
{
    match attr(op, name) {
        Some(v) => v.as_i64(),
        None => None,
    }
}

/// The truth value of the attribute named `name`.
pub fn attr_bool(op: &Json, name: &str) -> (r: Option<bool>)
    ensures
        r == attr_bool_of(op@, name@),
{
    match attr(op, name) {
        Some(v) => v.as_bool(),
        None => None,
    }
}

/// The text of the attribute named `name`.
pub fn attr_text<'a>(op: &'a Json, name: &str) -> (r: Option<&'a str>)
    ensures
        match r {
            Some(v) => attr_chars_of(op@, name@) == Some(v@),
            None => attr_chars_of(op@, name@) is None,
        },
{
    match attr(op, name) {
        Some(v) => v.as_str(),
        None => None,
    }
}

/// The items of the attribute named `name`.
pub fn attr_array<'a>(op: &'a Json, name: &str) -> (r: Option<&'a Vec<Json>>)
    ensures
        match r {
            Some(v) => attr_items_of(op@, name@) == Some(views(v@)),
            None => attr_items_of(op@, name@) is None,
        },
{
    match attr(op, name) {
        Some(v) => v.as_array(),
        None => None,
    }
}

fn item_as_i64(v: &Json) -> (r: Option<i64>)
    ensures
        r == item_int(v@),
{
    match v.get_i64("D") {
        Some(i) => Some(i),
        None => v.as_i64(),
    }
}

/// The integers among the items.
pub fn collect_ints(items: &Vec<Json>) -> (r: Vec<i64>)
    ensures
        r@ == items_int(views(items@), views(items@).len()),
{
    let mut list: Vec<i64> = Vec::new();
    let mut i: usize = 0;
    while i < items.len()
        invariant
            i <= items.len(),
            list@ == items_int(views(items@), i as nat),
        decreases items.len() - i,
    {
        match item_as_i64(&items[i]) {
            Some(v) => {
                list.push(v);
            },
            None => {},
        }
        i = i + 1;
    }
    list
}

/// The integers of the attribute named `name`.
pub fn attr_i64s(op: &Json, name: &str) -> (r: Option<Vec<i64>>)
    ensures
        match r {
            Some(v) => attr_ints_of(op@, name@) == Some(v@),
            None => attr_ints_of(op@, name@) is None,
        },
{
    match attr_array(op, name) {
        Some(items) => Some(collect_ints(items)),
        None => None,
    }
}

/// The bits of the values among the items.
pub fn collect_floats(items: &Vec<Json>) -> (r: Vec<u64>)
    ensures
        r@ == items_float(views(items@), views(items@).len()),
{
    let mut list: Vec<u64> = Vec::new();
    let mut i: usize = 0;
    while i < items.len()
        invariant
            i <= items.len(),
            list@ == items_float(views(items@), i as nat),
        decreases items.len() - i,
    {
        match value_as_f64(&items[i]) {
            Some(v) => {
                list.push(v);
            },
            None => {},
        }
        i = i + 1;
    }
    list
}

/// The whole numbers among the first `k` items.
pub open spec fn plain_ints(items: Seq<JsonView>, k: nat) -> Seq<i64>
    decreases k,
{
    if k == 0 {
        Seq::empty()
    } else {
        let front = plain_ints(items, (k - 1) as nat);
        match items[k - 1].whole() {
            Some(v) => front.push(v),
            None => front,
        }
    }
}

/// The whole numbers among the items.
pub fn collect_plain_ints(items: &Vec<Json>) -> (r: Vec<i64>)
    ensures
        r@ == plain_ints(views(items@), views(items@).len()),
{
    let mut list: Vec<i64> = Vec::new();
    let mut i: usize = 0;
    while i < items.len()
        invariant
            i <= items.len(),
            list@ == plain_ints(views(items@), i as nat),
        decreases items.len() - i,
    {
        match items[i].as_i64() {
            Some(v) => {
                list.push(v);
            },
            None => {},
        }
        i = i + 1;
    }
    list
}

/// The parts of a tensor type in an operator's description: the element type and the sizes.
pub open spec fn type_parts(v: JsonView) -> Option<Seq<JsonView>> {
    match v.field("TT"@) {
        Some(tt) => tt.field_items("D"@),
        None => None,
    }
}

/// The parts of a tensor type in an operator's description.
pub fn read_type_parts(v: &Json) -> (r: Option<&Vec<Json>>)
    ensures
        match r {
            Some(items) => type_parts(v@) == Some(views(items@)),
            None => type_parts(v@) is None,
        },
{
    match v.get("TT") {
        Some(tt) => tt.get_array("D"),
        None => None,
    }
}

/// Sizes, of which one that is no integer is unknown.
pub open spec fn sizes_listed(items: Seq<JsonView>) -> Seq<i64> {
    Seq::new(items.len(), |i: int| or_default(items[i].whole(), (-1) as i64))
}

/// Reads sizes, of which one that is no integer is unknown.
pub fn collect_sizes(items: &Vec<Json>) -> (r: Vec<i64>)
    ensures
        r@ == sizes_listed(views(items@)),
{
    let mut list: Vec<i64> = Vec::new();
    let mut i: usize = 0;
    while i < items.len()
        invariant
            i <= items.len(),
            list@ =~= sizes_listed(views(items@)).take(i as int),
        decreases items.len() - i,
    {
        let size: i64 = match items[i].as_i64() {
            Some(v) => v,
            None => -1,
        };
        list.push(size);
        i = i + 1;
    }
    proof {
        assert(sizes_listed(views(items@)).take(i as int) =~= sizes_listed(views(items@)));
    }
    list
}

/// The sizes of an operator's first listed output, as far as they are numbers.
pub open spec fn output_sizes(op: JsonView) -> Seq<i64> {
    match op.field_items("O"@) {
        Some(outs) => if outs.len() > 0 {
            match type_parts(outs[0]) {
                Some(parts) => if parts.len() > 1 {
                    match parts[1].items() {
                        Some(dims) => plain_ints(dims, dims.len()),
                        None => Seq::empty(),
                    }
                } else {
                    Seq::empty()
                },
                None => Seq::empty(),
            }
        } else {
            Seq::empty()
        },
        None => Seq::empty(),
    }
}

/// The sizes of an operator's first listed output.
pub fn read_output_sizes(op: &Json) -> (r: Vec<i64>)
    ensures
        r@ == output_sizes(op@),
{
    match op.get_array("O") {
        Some(outs) => {
            if outs.len() > 0 {
                match read_type_parts(&outs[0]) {
                    Some(parts) => {
                        if parts.len() > 1 {
                            match parts[1].as_array() {
                                Some(dims) => collect_plain_ints(dims),
                                None => Vec::new(),
                            }
                        } else {
                            Vec::new()
                        }
                    },
                    None => Vec::new(),
                }
            } else {
                Vec::new()
            }
        },
        None => Vec::new(),
    }
}

/// The axes of an operator: the attribute `axis`, or else `axes`, which is a number or a list.
pub open spec fn attr_axes(op: JsonView) -> Option<Seq<i64>> {
    let found = match attr_of(op, "axis"@) {
        Some(v) => Some(v),
        None => attr_of(op, "axes"@),
    };
    match found {
        Some(v) => match v.whole() {
            Some(axis) => Some(seq![axis]),
            None => match v.items() {
                Some(items) => Some(items_int(items, items.len())),
                None => None,
            },
        },
        None => None,
    }
}

/// The axes of an operator.
pub fn read_attr_axes(op: &Json) -> (r: Option<Vec<i64>>)
    ensures
        match r {
            Some(list) => attr_axes(op@) == Some(list@),
            None => attr_axes(op@) is None,
        },
{
    let found = match attr(op, "axis") {
        Some(v) => Some(v),
        None => attr(op, "axes"),
    };
    match found {
        Some(v) => match v.as_i64() {
            Some(axis) => Some(crate::text::ints1(axis)),
            None => match v.as_array() {
                Some(items) => Some(collect_ints(items)),
                None => None,
            },
        },
        None => None,
    }
}

} // verus!
