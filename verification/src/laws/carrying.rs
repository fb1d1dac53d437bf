//! How the attributes of an operator are carried over to the graph.

use crate::converter::attr::{
    asks_same, attributes_adjusted, attributes_extracted, built_attribute, chars_or_empty,
    listed_attributes, pads_normalized, renamed_attr, skipped_attr, window_attribute, windowed,
};
use crate::float::narrow;
use crate::json::JsonView;
use crate::onnx::{str_attribute, Attribute};
use crate::scope::{lemma_retained_at, lemma_retained_origin, retained, retained_before};
use vstd::prelude::*;
use vstd::utf8::encode_utf8;

verus! {

proof fn lemma_listed(op_type: Seq<char>, items: Seq<JsonView>, k: nat, i: int, a: Attribute)
    requires
        0 <= i < k <= items.len(),
        ({
            let name = renamed_attr(op_type, chars_or_empty(items[i], "N"@));
            !skipped_attr(op_type, name) && items[i].field("AT"@) is Some && built_attribute(
                name,
                items[i].field("AT"@)->0,
            ) == Some(a)
        }),
    ensures
        listed_attributes(op_type, items, k).contains(a),
    decreases k,
{
    let list = listed_attributes(op_type, items, k);
    if i == k - 1 {
        assert(list[list.len() - 1] == a);
    } else {
        lemma_listed(op_type, items, (k - 1) as nat, i, a);
        let front = listed_attributes(op_type, items, (k - 1) as nat);
        let j = choose|j: int| 0 <= j < front.len() && front[j] == a;
        assert(list[j] == a);
    }
}

/// Whether an item is an attribute of the given name and kind.
pub open spec fn attribute_item(item: JsonView, name: Seq<char>, kind: Seq<char>) -> bool {
    item.field_chars("N"@) == Some(name) && item.field("AT"@) is Some && (item.field(
        "AT"@,
    )->0).field_chars("#"@) == Some(kind)
}

/// The data of an attribute item.
pub open spec fn attribute_data(item: JsonView) -> Option<JsonView> {
    item.field2("AT"@, "D"@)
}

proof fn lemma_kinds()
    ensures
        "0.a_i32"@ != "0.a_f32"@,
        "0.a_i64"@ != "0.a_f64"@,
        "0.a_i32"@ != "0.a_f64"@,
        "0.a_i64"@ != "0.a_f32"@,
        "0.a_str"@ != "0.a_i32"@,
        "0.a_str"@ != "0.a_i64"@,
        "0.a_str"@ != "0.a_f32"@,
        "0.a_str"@ != "0.a_f64"@,
        "0.a_bool"@ != "0.a_i32"@,
        "0.a_bool"@ != "0.a_i64"@,
        "0.a_bool"@ != "0.a_f32"@,
        "0.a_bool"@ != "0.a_f64"@,
        "0.a_bool"@ != "0.a_str"@,
        "0.a_array"@ != "0.a_i32"@,
        "0.a_array"@ != "0.a_i64"@,
        "0.a_array"@ != "0.a_f32"@,
        "0.a_array"@ != "0.a_f64"@,
        "0.a_array"@ != "0.a_str"@,
        "0.a_array"@ != "0.a_bool"@,
{
    reveal_strlit("0.a_i32");
    reveal_strlit("0.a_i64");
    reveal_strlit("0.a_f32");
    reveal_strlit("0.a_f64");
    reveal_strlit("0.a_str");
    reveal_strlit("0.a_bool");
    reveal_strlit("0.a_array");
    assert("0.a_i32"@[4] != "0.a_f32"@[4]);
    assert("0.a_i64"@[4] != "0.a_f64"@[4]);
    assert("0.a_str"@[4] != "0.a_i32"@[4]);
    assert("0.a_str"@[4] != "0.a_i64"@[4]);
    assert("0.a_str"@[4] != "0.a_f32"@[4]);
    assert("0.a_str"@[4] != "0.a_f64"@[4]);
    assert("0.a_bool"@.len() == 8 && "0.a_array"@.len() == 9 && "0.a_str"@.len() == 7);
}

proof fn lemma_adjusted(op_type: Seq<char>, attrs: JsonView, list: Seq<Attribute>, a: Attribute)
    requires
        !windowed(op_type),
        list.contains(a),
    ensures
        attributes_adjusted(op_type, attrs, list).contains(a),
{
    let after = attributes_adjusted(op_type, attrs, list);
    let i = choose|i: int| 0 <= i < list.len() && list[i] == a;
    assert(after[i] == a);
}

/// An attribute of an operator without a window that is not left out is carried over with its
/// value: an integer, a number, a text, or a truth value as one or zero.
pub proof fn law_attribute_value_kept(
    op_type: Seq<char>,
    attrs: JsonView,
    i: int,
    name: Seq<char>,
    kind: Seq<char>,
) -> (a: Attribute)
    requires
        !windowed(op_type),
        attrs.items() is Some,
        0 <= i < (attrs.items()->0).len(),
        attribute_item((attrs.items()->0)[i], name, kind),
        renamed_attr(op_type, name) == name,
        !skipped_attr(op_type, name),
        ({
            let data = attribute_data((attrs.items()->0)[i]);
            data is Some && {
                ||| kind == "0.a_i32"@ && (data->0).whole() is Some
                ||| kind == "0.a_i64"@ && (data->0).whole() is Some
                ||| kind == "0.a_f32"@ && (data->0).float() is Some
                ||| kind == "0.a_f64"@ && (data->0).float() is Some
                ||| kind == "0.a_str"@ && (data->0).chars() is Some
                ||| kind == "0.a_bool"@ && (data->0).truth() is Some
            }
        }),
    ensures
        attributes_extracted(op_type, attrs).contains(a),
        a.name == name,
        ({
            let data = attribute_data((attrs.items()->0)[i])->0;
            &&& kind == "0.a_i32"@ || kind == "0.a_i64"@ ==> a.kind == 2 && Some(a.i)
                == data.whole()
            &&& kind == "0.a_f32"@ || kind == "0.a_f64"@ ==> a.kind == 1 && a.f == narrow(
                data.float()->0,
            )
            &&& kind == "0.a_str"@ ==> a.kind == 3 && a.s == encode_utf8(data.chars()->0)
            &&& kind == "0.a_bool"@ ==> a.kind == 2 && a.i == if data.truth()->0 {
                1i64
            } else {
                0i64
            }
        }),
{
    lemma_kinds();
    let items = attrs.items()->0;
    let at = items[i].field("AT"@)->0;
    let a = built_attribute(name, at)->0;
    assert(chars_or_empty(items[i], "N"@) == name);
    lemma_listed(op_type, items, items.len(), i, a);
    lemma_adjusted(op_type, attrs, listed_attributes(op_type, items, items.len()), a);
    a
}

/// The paddings of a window are told apart: two stand for height and width and hold on both sides,
/// and four are those above, below, on the left and on the right. The graph lists what comes
/// before, height first, and then what comes behind.
pub proof fn law_window_paddings(list: Seq<i64>)
    requires
        list.len() == 2 || list.len() == 4,
    ensures
        pads_normalized(list) is Some,
        ({
            let pads = pads_normalized(list)->0;
            let (above, left, below, right) = (pads[0], pads[1], pads[2], pads[3]);
            &&& pads.len() == 4
            &&& list.len() == 2 ==> above == list[0] && below == list[0] && left == list[1] && right
                == list[1]
            &&& list.len() == 4 ==> above == list[0] && below == list[1] && left == list[2] && right
                == list[3]
        }),
{
}

/// The attributes of a window are carried over, `paddings` as `pads` and `groups` as `group`, and
/// all others under their names and unchanged.
pub proof fn law_window_attribute(a: Attribute)
    ensures
        a.name == "groups"@ ==> window_attribute(a) == (Attribute { name: "group"@, ..a }),
        a.name != "groups"@ && a.name != "paddings"@ && a.name != "pads"@ ==> window_attribute(a)
            == a,
        a.name == "paddings"@ && a.kind == 7 && (a.ints.len() == 2 || a.ints.len() == 4)
            ==> window_attribute(a) == (Attribute {
            name: "pads"@,
            ints: pads_normalized(a.ints)->0,
            ..a
        }),
{
    reveal_strlit("groups");
    reveal_strlit("group");
    reveal_strlit("paddings");
    reveal_strlit("pads");
    assert("groups"@.len() == 6 && "group"@.len() == 5 && "paddings"@.len() == 8 && "pads"@.len()
        == 4);
}

/// Padding to the same size is told by `auto_pad`, and then there are no `pads`.
pub proof fn law_same_padding(op_type: Seq<char>, attrs: JsonView, i: int)
    requires
        op_type == "conv2d"@ || op_type == "depthwise_conv2d"@ || op_type == "conv2d_transpose"@,
        attrs.items() is Some,
        0 <= i < (attrs.items()->0).len(),
        (attrs.items()->0)[i].field_chars("N"@) == Some("padding_algorithm"@),
        attribute_data((attrs.items()->0)[i]) is Some,
        (attribute_data((attrs.items()->0)[i])->0).chars() == Some("SAME"@),
    ensures
        attributes_extracted(op_type, attrs).contains(str_attribute("auto_pad"@, "SAME_UPPER"@)),
        forall|k: int|
            0 <= k < attributes_extracted(op_type, attrs).len() ==> (
            #[trigger] attributes_extracted(op_type, attrs)[k]).name != "pads"@,
{
    let items = attrs.items()->0;
    assert(asks_same(items[i]));
    reveal_strlit("pool2d");
    reveal_strlit("conv2d");
    reveal_strlit("depthwise_conv2d");
    reveal_strlit("conv2d_transpose");
    reveal_strlit("auto_pad");
    reveal_strlit("pads");
    assert("pool2d"@[0] != "conv2d"@[0]);
    assert("pool2d"@.len() == 6 && "depthwise_conv2d"@.len() == 16 && "conv2d_transpose"@.len()
        == 16);
    assert("auto_pad"@.len() != "pads"@.len());
    let list = listed_attributes(op_type, items, items.len());
    let named = Seq::new(list.len(), |i: int| window_attribute(list[i]));
    let auto = str_attribute("auto_pad"@, "SAME_UPPER"@);
    let all = named.push(auto);
    let keep = Seq::new(all.len(), |i: int| all[i].name != "pads"@);
    let after = attributes_extracted(op_type, attrs);
    assert(after == retained(all, keep));
    assert(all[named.len() as int] == auto && keep[named.len() as int]);
    lemma_retained_at(all, keep, named.len() as int);
    assert(after[retained_before(keep, named.len() as int) as int] == auto);
    assert forall|k: int| 0 <= k < after.len() implies (#[trigger] after[k]).name != "pads"@ by {
        lemma_retained_origin(all, keep, k);
    }
}

} // verus!
