//! JSON values, as far as a model description needs them.

use crate::onnx::views;
use crate::text::same;
use vstd::prelude::*;

verus! {

/// A number: its value where it is an integer that fits `i64`, and the bits of its
/// `binary64` value.
#[derive(Clone, Copy, Debug, PartialEq, Eq)]
pub struct Number {
    pub whole: Option<i64>,
    pub float: Option<u64>,
}

/// A JSON value. The members of an object stand in a list of key and value.
#[derive(Debug, PartialEq, Eq)]
pub enum Json {
    Null,
    Bool(bool),
    Number(Number),
    Text(String),
    Array(Vec<Json>),
    Object(Vec<(String, Json)>),
}

/// The content of a JSON value.
pub enum JsonView {
    Null,
    Bool(bool),
    Number(Number),
    Text(Seq<char>),
    Array(Seq<JsonView>),
    Object(Seq<(Seq<char>, JsonView)>),
}

impl View for Json {
    type V = JsonView;

    open spec fn view(&self) -> JsonView
        decreases self,
    {
        match self {
            Json::Null => JsonView::Null,
            Json::Bool(b) => JsonView::Bool(*b),
            Json::Number(number) => JsonView::Number(*number),
            Json::Text(text) => JsonView::Text(text@),
            Json::Array(items) => JsonView::Array(
                Seq::new(
                    items@.len(),
                    |i: int|
                        if 0 <= i < items@.len() {
                            items@[i].view()
                        } else {
                            arbitrary()
                        },
                ),
            ),
            Json::Object(members) => JsonView::Object(
                Seq::new(
                    members@.len(),
                    |i: int|
                        if 0 <= i < members@.len() {
                            (members@[i].0@, members@[i].1.view())
                        } else {
                            arbitrary()
                        },
                ),
            ),
        }
    }
}

/// The value of the first member named `key` from position `i` on.
pub open spec fn member(members: Seq<(Seq<char>, JsonView)>, key: Seq<char>, i: int) -> Option<JsonView>
    decreases members.len() - i,
{
    if i < 0 || i >= members.len() {
        None
    } else if members[i].0 == key {
        Some(members[i].1)
    } else {
        member(members, key, i + 1)
    }
}

impl JsonView {
    /// The member named `key`, where this is an object that has one.
    pub open spec fn field(self, key: Seq<char>) -> Option<JsonView> {
        match self {
            JsonView::Object(members) => member(members, key, 0),
            _ => None,
        }
    }

    /// The items, where this is an array.
    pub open spec fn items(self) -> Option<Seq<JsonView>> {
        match self {
            JsonView::Array(items) => Some(items),
            _ => None,
        }
    }

    /// The characters, where this is a string.
    pub open spec fn chars(self) -> Option<Seq<char>> {
        match self {
            JsonView::Text(text) => Some(text),
            _ => None,
        }
    }

    /// The integer, where this is a number that fits one.
    pub open spec fn whole(self) -> Option<i64> {
        match self {
            JsonView::Number(number) => number.whole,
            _ => None,
        }
    }

    /// The bits of the floating-point value, where this is a number.
    pub open spec fn float(self) -> Option<u64> {
        match self {
            JsonView::Number(number) => number.float,
            _ => None,
        }
    }

    /// The truth value, where this is one.
    pub open spec fn truth(self) -> Option<bool> {
        match self {
            JsonView::Bool(b) => Some(b),
            _ => None,
        }
    }

    /// The member `key` of the member `outer`.
    pub open spec fn field2(self, outer: Seq<char>, key: Seq<char>) -> Option<JsonView> {
        match self.field(outer) {
            Some(v) => v.field(key),
            None => None,
        }
    }

    /// The items of the member named `key`.
    pub open spec fn field_items(self, key: Seq<char>) -> Option<Seq<JsonView>> {
        match self.field(key) {
            Some(v) => v.items(),
            None => None,
        }
    }

    /// The characters of the member named `key`.
    pub open spec fn field_chars(self, key: Seq<char>) -> Option<Seq<char>> {
        match self.field(key) {
            Some(v) => v.chars(),
            None => None,
        }
    }

    /// The integer of the member named `key`.
    pub open spec fn field_int(self, key: Seq<char>) -> Option<i64> {
        match self.field(key) {
            Some(v) => v.whole(),
            None => None,
        }
    }
}

impl Json {
    /// Looks up a member.
    pub fn get(&self, key: &str) -> (r: Option<&Json>)
        ensures
            match r {
                Some(v) => self@.field(key@) == Some(v@),
                None => self@.field(key@) is None,
            },
    {
        match self {
            Json::Object(members) => {
                let ghost all = self@->Object_0;
                proof {
                    reveal_with_fuel(<Json as View>::view, 2);
                }
                let mut i: usize = 0;
                while i < members.len()
                    invariant
                        i <= members.len(),
                        all.len() == members.len(),
                        forall|k: int|
                            0 <= k < all.len() ==> #[trigger] all[k] == (
                                members@[k].0@,
                                members@[k].1@,
                            ),
                        self@ == JsonView::Object(all),
                        member(all, key@, 0) == member(all, key@, i as int),
                    decreases members.len() - i,
                {
                    proof {
                        assert(all[i as int] == (members@[i as int].0@, members@[i as int].1@));
                    }
                    if same(members[i].0.as_str(), key) {
                        return Some(&members[i].1);
                    }
                    i = i + 1;
                }
                None
            },
            _ => None,
        }
    }

    /// The items of an array.
    pub fn as_array(&self) -> (r: Option<&Vec<Json>>)
        ensures
            match r {
                Some(v) => self@.items() == Some(views(v@)),
                None => self@.items() is None,
            },
    {
        match self {
            Json::Array(items) => {
                proof {
                    reveal_with_fuel(<Json as View>::view, 2);
                    assert(self@->Array_0 =~= views(items@));
                }
                Some(items)
            },
            _ => None,
        }
    }

    /// The text of a string.
    pub fn as_str(&self) -> (r: Option<&str>)
        ensures
            match r {
                Some(v) => self@.chars() == Some(v@),
                None => self@.chars() is None,
            },
    {
        match self {
            Json::Text(text) => Some(text.as_str()),
            _ => None,
        }
    }

    /// The value of a number that is an `i64`.
    pub fn as_i64(&self) -> (r: Option<i64>)
        ensures
            r == self@.whole(),
    {
        match self {
            Json::Number(number) => number.whole,
            _ => None,
        }
    }

    /// The bits of a number's `binary64` value.
    pub fn as_float(&self) -> (r: Option<u64>)
        ensures
            r == self@.float(),
    {
        match self {
            Json::Number(number) => number.float,
            _ => None,
        }
    }

    /// The truth value of a boolean.
    pub fn as_bool(&self) -> (r: Option<bool>)
        ensures
            r == self@.truth(),
    {
        match self {
            Json::Bool(b) => Some(*b),
            _ => None,
        }
    }

    /// Whether this is an object.
    pub fn is_object(&self) -> (r: bool)
        ensures
            r == (self@ is Object),
    {
        matches!(self, Json::Object(_))
    }

    /// Whether this is a number.
    pub fn is_number(&self) -> (r: bool)
        ensures
            r == (self@ is Number),
    {
        matches!(self, Json::Number(_))
    }

    /// The member `key` of the member `outer`.
    pub fn get2(&self, outer: &str, key: &str) -> (r: Option<&Json>)
        ensures
            match r {
                Some(v) => self@.field2(outer@, key@) == Some(v@),
                None => self@.field2(outer@, key@) is None,
            },
    {
        match self.get(outer) {
            Some(v) => v.get(key),
            None => None,
        }
    }

    /// The items of the member `key`.
    pub fn get_array(&self, key: &str) -> (r: Option<&Vec<Json>>)
        ensures
            match r {
                Some(v) => self@.field_items(key@) == Some(views(v@)),
                None => self@.field_items(key@) is None,
            },
    {
        match self.get(key) {
            Some(v) => v.as_array(),
            None => None,
        }
    }

    /// The text of the member `key`.
    pub fn get_str(&self, key: &str) -> (r: Option<&str>)
        ensures
            match r {
                Some(v) => self@.field_chars(key@) == Some(v@),
                None => self@.field_chars(key@) is None,
            },
    {
        match self.get(key) {
            Some(v) => v.as_str(),
            None => None,
        }
    }

    /// The integer of the member `key`.
    pub fn get_i64(&self, key: &str) -> (r: Option<i64>)
        ensures
            r == self@.field_int(key@),
    {
        match self.get(key) {
            Some(v) => v.as_i64(),
            None => None,
        }
    }
}

/// A member's value is a smaller value than the list it was found in.
pub proof fn lemma_member_smaller(members: Seq<(Seq<char>, JsonView)>, key: Seq<char>, i: int)
    requires
        member(members, key, i) is Some,
    ensures
        decreases_to!(members => member(members, key, i)->0),
    decreases members.len() - i,
{
    if 0 <= i < members.len() {
        if members[i].0 == key {
            assert(decreases_to!(members => members[i]));
            assert(decreases_to!(members[i] => members[i].1));
        } else {
            lemma_member_smaller(members, key, i + 1);
        }
    }
}

/// A member of an object is a smaller value than the object.
pub proof fn lemma_field_smaller(v: JsonView, key: Seq<char>)
    requires
        v.field(key) is Some,
    ensures
        decreases_to!(v => v.field(key)->0),
{
    match v {
        JsonView::Object(members) => {
            lemma_member_smaller(members, key, 0);
            assert(decreases_to!(v => members));
        },
        _ => {},
    }
}

/// The items of an array are smaller than the array.
pub proof fn lemma_items_smaller(v: JsonView)
    requires
        v.items() is Some,
    ensures
        decreases_to!(v => v.items()->0),
{
    match v {
        JsonView::Array(items) => {
            assert(decreases_to!(v => items));
        },
        _ => {},
    }
}

/// The items of a member that is an array are smaller than the object.
pub proof fn lemma_field_items_smaller(v: JsonView, key: Seq<char>)
    requires
        v.field_items(key) is Some,
    ensures
        decreases_to!(v => v.field_items(key)->0),
{
    lemma_field_smaller(v, key);
    lemma_items_smaller(v.field(key)->0);
}

/// The number that a text stands for, as `serde_json` reads it.
pub uninterp spec fn number_text(text: Seq<char>) -> Option<Number>;

/// Wraps `serde_json::from_str` for `serde_json::Number`, with `as_i64` and `as_f64` of the result:
/// a text that is a JSON number gives its value, any other text gives nothing.
#[verifier::external_body]
pub(crate) fn number_of_text(text: &str) -> (r: Option<Number>)
    ensures
        r == number_text(text@),
{
    serde_json::from_str::<serde_json::Number>(text).ok().map(
        |n| Number { whole: n.as_i64(), float: n.as_f64().map(|v| v.to_bits()) },
    )
}

} // verus!
