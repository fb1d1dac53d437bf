//! Loading a model description.

use crate::converter::ops::misc::MetaStep;
use crate::converter::pass1::ops_collected;
use crate::converter::pass2::ops_converted;
use crate::converter::state::{Converter, Meta};
use crate::document::{parse, parsed};
use crate::error::{message, outcome, Error, ErrorView};
use crate::json::{Json, JsonView};
use crate::onnx::{views, Graph};
use crate::order::{in_order, sort_names};
use crate::text::{dec, join5, push_nat};
use vstd::prelude::*;

verus! {

/// How many bytes a model description may have.
pub const MAX_MODEL_JSON_BYTES: u64 = 268_435_456;

/// The check that a model description is not too large.
pub open spec fn size_checked(size: int) -> Result<(), ErrorView> {
    if size > MAX_MODEL_JSON_BYTES {
        Err(
            message(
                "model JSON is too large: "@ + dec(size) + " bytes exceeds soft limit "@ + dec(
                    MAX_MODEL_JSON_BYTES as int,
                ) + " bytes"@,
            ),
        )
    } else {
        Ok(())
    }
}

/// The first item of an array, or the member named `0` of an object.
pub open spec fn zeroth(v: JsonView) -> Option<JsonView> {
    match v {
        JsonView::Array(items) => if items.len() > 0 {
            Some(items[0])
        } else {
            None
        },
        _ => v.field("0"@),
    }
}

/// The member named `key` of a value that may be missing, and of that the zeroth.
pub open spec fn zeroth_of(v: Option<JsonView>, key: Seq<char>) -> Option<JsonView> {
    match v {
        Some(v) => match v.field(key) {
            Some(list) => zeroth(list),
            None => None,
        },
        None => None,
    }
}

/// The operators of a model: those of the first block of the first region of the program.
pub open spec fn model_ops(data: JsonView) -> Option<Seq<JsonView>> {
    match zeroth_of(zeroth_of(data.field("program"@), "regions"@), "blocks"@) {
        Some(block) => block.field_items("ops"@),
        None => None,
    }
}

/// What is known, and the graph, once a model is loaded: its operators are looked through, the
/// parameters are put in order, and then the operators are converted.
pub open spec fn model_loaded(m: Meta, g: Graph, data: JsonView) -> MetaStep {
    match model_ops(data) {
        None => (
            m,
            g,
            Err(
                message(
                    "Could not find ops array in JSON under /program/regions/0/blocks/0/ops"@,
                ),
            ),
        ),
        Some(ops) => match ops_collected(m, ops, ops.len()) {
            (m, Err(e)) => (m, g, Err(e)),
            (m, Ok(_)) => ops_converted(
                Meta { param_names: in_order(m.param_names), ..m },
                g,
                ops,
                ops.len(),
            ),
        },
    }
}

/// Fails where a model description has more bytes than it may.
pub fn check_model_size(size: u64) -> (r: Result<(), Error>)
    ensures
        outcome(r) == size_checked(size as int),
{
    if size > MAX_MODEL_JSON_BYTES {
        let mut found = String::new();
        push_nat(&mut found, size as u128);
        let mut limit = String::new();
        push_nat(&mut limit, MAX_MODEL_JSON_BYTES as u128);
        proof {
            assert(Seq::<char>::empty() + dec(size as int) =~= dec(size as int));
            assert(Seq::<char>::empty() + dec(MAX_MODEL_JSON_BYTES as int) =~= dec(
                MAX_MODEL_JSON_BYTES as int,
            ));
        }
        return Err(
            Error::owned(
                join5(
                    "model JSON is too large: ",
                    found.as_str(),
                    " bytes exceeds soft limit ",
                    limit.as_str(),
                    " bytes",
                ),
            ),
        );
    }
    Ok(())
}

fn read_zeroth(v: &Json) -> (r: Option<&Json>)
    ensures
        match r {
            Some(found) => zeroth(v@) == Some(found@),
            None => zeroth(v@) is None,
        },
{
    match v.as_array() {
        Some(items) => {
            if items.len() > 0 {
                Some(&items[0])
            } else {
                None
            }
        },
        None => v.get("0"),
    }
}

fn read_zeroth_of<'a>(v: Option<&'a Json>, key: &str) -> (r: Option<&'a Json>)
    ensures
        match r {
            Some(found) => v is Some && zeroth_of(Some((v->0)@), key@) == Some(found@),
            None => v is Some ==> zeroth_of(Some((v->0)@), key@) is None,
        },
{
    match v {
        Some(v) => match v.get(key) {
            Some(list) => read_zeroth(list),
            None => None,
        },
        None => None,
    }
}

fn read_model_ops(data: &Json) -> (r: Option<&Vec<Json>>)
    ensures
        match r {
            Some(ops) => model_ops(data@) == Some(views(ops@)),
            None => model_ops(data@) is None,
        },
{
    match read_zeroth_of(read_zeroth_of(data.get("program"), "regions"), "blocks") {
        Some(block) => block.get_array("ops"),
        None => None,
    }
}

impl Converter {
    /// Loads a model from its description.
    pub fn load_document(&mut self, data: &Json) -> (r: Result<(), Error>)
        ensures
            (final(self).meta(), final(self).onnx_graph@, outcome(r)) == model_loaded(
                old(self).meta(),
                old(self).onnx_graph@,
                data@,
            ),
    {
        let ops = match read_model_ops(data) {
            Some(ops) => ops,
            None => {
                return Err(
                    Error::text(
                        "Could not find ops array in JSON under /program/regions/0/blocks/0/ops",
                    ),
                );
            },
        };
        self.collect_pass1_from_ops(ops)?;
        sort_names(&mut self.state.param_names);
        self.convert_ops(ops)
    }

    /// Loads a model from the bytes of its description.
    pub fn load_paddle_model(&mut self, bytes: &Vec<u8>) -> (r: Result<(), Error>)
        ensures
            size_checked(bytes@.len() as int) is Err ==> final(self).meta() == old(self).meta()
                && final(self).onnx_graph@ == old(self).onnx_graph@ && outcome(r) == size_checked(
                bytes@.len() as int,
            ),
            size_checked(bytes@.len() as int) is Ok ==> match parsed(bytes@) {
                Ok(data) => (final(self).meta(), final(self).onnx_graph@, outcome(r))
                    == model_loaded(old(self).meta(), old(self).onnx_graph@, data),
                Err(text) => final(self).meta() == old(self).meta() && final(self).onnx_graph@
                    == old(self).onnx_graph@ && outcome(r) == Err::<(), ErrorView>(message(text)),
            },
    {
        check_model_size(bytes.len() as u64)?;
        let data = parse(bytes)?;
        self.load_document(&data)
    }
}

} // verus!
