//! JSON documents, read by `serde_json`.

use crate::error::{message, Error};
use crate::json::{Json, JsonView, Number};
use vstd::prelude::*;

verus! {

/// Declares `serde_json::Value`, which is opaque.
#[verifier::external_type_specification]
#[verifier::external_body]
pub struct ExDocument(serde_json::Value);

/// What a `serde_json::Value` holds.
pub uninterp spec fn document(v: serde_json::Value) -> JsonView;

/// What `serde_json` reads from bytes: a JSON value, or the text of its error.
pub uninterp spec fn parsed(bytes: Seq<u8>) -> Result<JsonView, Seq<char>>;

/// The outermost layer of a `serde_json::Value`.
pub enum Layer<'a> {
    Null,
    Bool(bool),
    Number(Number),
    Text(&'a str),
    Array(&'a Vec<serde_json::Value>),
    Object(Vec<(&'a String, &'a serde_json::Value)>),
}

impl<'a> Layer<'a> {
    /// What the value holds, by what the values in it hold.
    pub open spec fn content(self) -> JsonView {
        match self {
            Layer::Null => JsonView::Null,
            Layer::Bool(b) => JsonView::Bool(b),
            Layer::Number(number) => JsonView::Number(number),
            Layer::Text(text) => JsonView::Text(text@),
            Layer::Array(items) => JsonView::Array(
                Seq::new(items@.len(), |i: int| document(items@[i])),
            ),
            Layer::Object(members) => JsonView::Object(
                Seq::new(
                    members@.len(),
                    |i: int| (members@[i].0@, document(*members@[i].1)),
                ),
            ),
        }
    }
}

/// Matches on the variants of `serde_json::Value`, with `as_i64` and `as_f64` of a number: what the
/// value holds is what its outermost layer and the values in that hold.
#[verifier::external_body]
fn peel<'a>(v: &'a serde_json::Value) -> (r: Layer<'a>)
    ensures
        r.content() == document(*v),
{
    match v {
        serde_json::Value::Null => Layer::Null,
        serde_json::Value::Bool(b) => Layer::Bool(*b),
        serde_json::Value::Number(n) => Layer::Number(
            Number { whole: n.as_i64(), float: n.as_f64().map(|v| v.to_bits()) },
        ),
        serde_json::Value::String(text) => Layer::Text(text),
        serde_json::Value::Array(items) => Layer::Array(items),
        serde_json::Value::Object(members) => Layer::Object(members.iter().collect()),
    }
}

/// Wraps `serde_json::from_slice` for `serde_json::Value`: what is read, or the text of the error,
/// depends on the bytes alone.
#[verifier::external_body]
fn read_document(bytes: &Vec<u8>) -> (r: Result<serde_json::Value, String>)
    ensures
        match r {
            Ok(v) => parsed(bytes@) == Ok::<JsonView, Seq<char>>(document(v)),
            Err(text) => parsed(bytes@) == Err::<JsonView, Seq<char>>(text@),
        },
{
    serde_json::from_slice::<serde_json::Value>(bytes).map_err(|e| e.to_string())
}

fn import(v: &serde_json::Value) -> (r: Json)
    ensures
        r@ == document(*v),
    decreases document(*v),
{
    let layer = peel(v);
    let ghost whole = document(*v);
    match layer {
        Layer::Null => Json::Null,
        Layer::Bool(b) => Json::Bool(b),
        Layer::Number(number) => Json::Number(number),
        Layer::Text(text) => Json::Text(text.to_string()),
        Layer::Array(items) => {
            let ghost parts = whole->Array_0;
            let mut list: Vec<Json> = Vec::new();
            let mut i: usize = 0;
            while i < items.len()
                invariant
                    i <= items.len(),
                    whole == document(*v),
                    whole == JsonView::Array(parts),
                    parts == Seq::new(items@.len(), |i: int| document(items@[i])),
                    list@.len() == i,
                    forall|k: int| 0 <= k < i ==> (#[trigger] list@[k])@ == parts[k],
                decreases items.len() - i,
            {
                proof {
                    assert(decreases_to!(whole => whole->Array_0));
                    assert(decreases_to!(parts => parts[i as int]));
                }
                list.push(import(&items[i]));
                i = i + 1;
            }
            let r = Json::Array(list);
            proof {
                assert(r@->Array_0 =~= parts);
            }
            r
        },
        Layer::Object(members) => {
            let ghost parts = whole->Object_0;
            let mut list: Vec<(String, Json)> = Vec::new();
            let mut i: usize = 0;
            while i < members.len()
                invariant
                    i <= members.len(),
                    whole == document(*v),
                    whole == JsonView::Object(parts),
                    parts == Seq::new(
                        members@.len(),
                        |i: int| (members@[i].0@, document(*members@[i].1)),
                    ),
                    list@.len() == i,
                    forall|k: int|
                        0 <= k < i ==> ((#[trigger] list@[k]).0@, list@[k].1@) == parts[k],
                decreases members.len() - i,
            {
                proof {
                    assert(decreases_to!(whole => whole->Object_0));
                    assert(decreases_to!(parts => parts[i as int]));
                    assert(decreases_to!(parts[i as int] => parts[i as int].1));
                }
                let key = members[i].0.clone();
                list.push((key, import(members[i].1)));
                i = i + 1;
            }
            let r = Json::Object(list);
            proof {
                assert(r@->Object_0 =~= parts);
            }
            r
        },
    }
}

/// Reads a JSON document.
pub fn parse(bytes: &Vec<u8>) -> (r: Result<Json, Error>)
    ensures
        match r {
            Ok(v) => parsed(bytes@) == Ok::<JsonView, Seq<char>>(v@),
            Err(e) => parsed(bytes@) is Err && e@ == message(parsed(bytes@)->Err_0),
        },
{
    match read_document(bytes) {
        Ok(v) => Ok(import(&v)),
        Err(text) => Err(Error::owned(text)),
    }
}

} // verus!
