//! What is known of a model, and how long.

use crate::converter::load::{model_loaded, model_ops};
use crate::converter::ops::control::{body_arg_names, carried_ids};
use crate::converter::ops::math::multinomial_lowered;
use crate::converter::pass1::{
    all_recorded, args_recorded, blocks_collected, op_recorded, ops_collected, producers,
    regions_collected,
};
use crate::converter::pass2::{op_converted, ops_converted};
use crate::converter::state::{tensor_name, Meta};
use crate::helper::type_of;
use crate::json::{lemma_field_items_smaller, JsonView};
use crate::onnx::Graph;
use crate::order::{in_order, lemma_in_order, ordered};
use crate::text::{dec, lemma_dec_injective, lemma_dec_nat_value};
use vstd::prelude::*;

verus! {

/// Whether two states agree on what the user asked for and on what only the second pass changes.
pub open spec fn same_request(a: Meta, b: Meta) -> bool {
    &&& a.target_opset == b.target_opset
    &&& a.optimization_level == b.optimization_level
    &&& a.strict == b.strict
    &&& a.warned_multinomial_degraded == b.warned_multinomial_degraded
    &&& a.stack_parts == b.stack_parts
}

/// Whether two states agree on what the first pass finds out, apart from names.
pub open spec fn same_findings(a: Meta, b: Meta) -> bool {
    &&& a.param_names == b.param_names
    &&& a.param_meta == b.param_meta
    &&& a.combines == b.combines
    &&& a.splits == b.splits
    &&& a.constants == b.constants
    &&& a.tensor_shapes == b.tensor_shapes
    &&& a.tensor_types == b.tensor_types
    &&& a.target_opset == b.target_opset
    &&& a.optimization_level == b.optimization_level
    &&& a.strict == b.strict
}

proof fn lemma_all_recorded(m: Meta, items: Seq<JsonView>, k: nat)
    ensures
        same_request(m, all_recorded(m, items, k)),
        all_recorded(m, items, k).constants == m.constants,
    decreases k,
{
    if k > 0 {
        lemma_all_recorded(m, items, (k - 1) as nat);
    }
}

proof fn lemma_op_recorded(m: Meta, op: JsonView, index: nat, made: Map<i64, usize>)
    ensures
        same_request(m, op_recorded(m, op, index, made).0),
{
    match op.field("O"@) {
        Some(JsonView::Array(items)) => {
            lemma_all_recorded(m, items, items.len());
        },
        _ => {},
    }
}

/// Looking through operators changes nothing of what the user asked for.
pub proof fn law_collecting_keeps_request(m: Meta, ops: Seq<JsonView>, k: nat)
    ensures
        same_request(m, ops_collected(m, ops, k).0),
    decreases ops, k,
{
    if 0 < k <= ops.len() {
        law_collecting_keeps_request(m, ops, (k - 1) as nat);
        let (m1, r1) = ops_collected(m, ops, (k - 1) as nat);
        let op = ops[k - 1];
        lemma_op_recorded(m1, op, (k - 1) as nat, producers(ops, ops.len()));
        let m2 = op_recorded(m1, op, (k - 1) as nat, producers(ops, ops.len())).0;
        assert(decreases_to!(ops => ops[k - 1]));
        if let Some(regions) = op.field_items("regions"@) {
            lemma_field_items_smaller(op, "regions"@);
            lemma_regions_keep_request(m2, regions, regions.len());
        }
    }
}

proof fn lemma_regions_keep_request(m: Meta, regions: Seq<JsonView>, k: nat)
    ensures
        same_request(m, regions_collected(m, regions, k).0),
    decreases regions, k,
{
    if 0 < k <= regions.len() {
        lemma_regions_keep_request(m, regions, (k - 1) as nat);
        let (m1, r1) = regions_collected(m, regions, (k - 1) as nat);
        assert(decreases_to!(regions => regions[k - 1]));
        if let Some(blocks) = regions[k - 1].field_items("blocks"@) {
            lemma_field_items_smaller(regions[k - 1], "blocks"@);
            lemma_blocks_keep_request(m1, blocks, blocks.len());
        }
    }
}

proof fn lemma_blocks_keep_request(m: Meta, blocks: Seq<JsonView>, k: nat)
    ensures
        same_request(m, blocks_collected(m, blocks, k).0),
    decreases blocks, k,
{
    if 0 < k <= blocks.len() {
        lemma_blocks_keep_request(m, blocks, (k - 1) as nat);
        let (m1, r1) = blocks_collected(m, blocks, (k - 1) as nat);
        assert(decreases_to!(blocks => blocks[k - 1]));
        if let Some(args) = blocks[k - 1].field_items("args"@) {
            lemma_all_recorded(m1, args, args.len());
        }
        let m2 = args_recorded(m1, blocks[k - 1]);
        if let Some(ops) = blocks[k - 1].field_items("ops"@) {
            lemma_field_items_smaller(blocks[k - 1], "ops"@);
            law_collecting_keeps_request(m2, ops, ops.len());
        }
    }
}

/// A constant of a block is not known outside of it: what is constant after a block is what was
/// constant before, also where looking through the block fails.
pub proof fn law_block_constants_stay_inside(m: Meta, blocks: Seq<JsonView>, k: nat)
    ensures
        blocks_collected(m, blocks, k).0.constants == m.constants,
    decreases k,
{
    if 0 < k <= blocks.len() {
        law_block_constants_stay_inside(m, blocks, (k - 1) as nat);
        let (m1, r1) = blocks_collected(m, blocks, (k - 1) as nat);
        if let Some(args) = blocks[k - 1].field_items("args"@) {
            lemma_all_recorded(m1, args, args.len());
        }
    }
}

/// A constant of a region is not known outside of it.
pub proof fn law_region_constants_stay_inside(m: Meta, regions: Seq<JsonView>, k: nat)
    ensures
        regions_collected(m, regions, k).0.constants == m.constants,
    decreases k,
{
    if 0 < k <= regions.len() {
        law_region_constants_stay_inside(m, regions, (k - 1) as nat);
        let (m1, r1) = regions_collected(m, regions, (k - 1) as nat);
        if let Some(blocks) = regions[k - 1].field_items("blocks"@) {
            law_block_constants_stay_inside(m1, blocks, blocks.len());
        }
    }
}

/// Converting an operator keeps what the first pass found out, apart from the names of values. In
/// particular nothing that a nested graph does is known outside of it.
pub proof fn law_converting_keeps_findings(m: Meta, g: Graph, kind: Seq<char>, op: JsonView)
    ensures
        same_findings(m, op_converted(m, g, kind, op).0),
{
}

/// Converting operators keeps what the first pass found out, apart from the names of values.
pub proof fn law_converting_all_keeps_findings(m: Meta, g: Graph, ops: Seq<JsonView>, k: nat)
    ensures
        same_findings(m, ops_converted(m, g, ops, k).0),
    decreases k,
{
    if 0 < k <= ops.len() {
        law_converting_all_keeps_findings(m, g, ops, (k - 1) as nat);
        let (m1, g1, r1) = ops_converted(m, g, ops, (k - 1) as nat);
        if let Some(kind) = type_of(ops[k - 1]) {
            law_converting_keeps_findings(m1, g1, kind, ops[k - 1]);
        }
    }
}

/// The parameters of a model that has been loaded stand in the order of their names, which is the
/// order in which their values are stored.
pub proof fn law_parameters_in_order(m: Meta, g: Graph, data: JsonView)
    requires
        model_loaded(m, g, data).2 is Ok,
    ensures
        ({
            let list = model_loaded(m, g, data).0.param_names;
            &&& model_ops(data) is Some
            &&& list.to_multiset() == ops_collected(
                m,
                model_ops(data)->0,
                model_ops(data)->0.len(),
            ).0.param_names.to_multiset()
            &&& forall|i: int, j: int|
                0 <= i < j < list.len() ==> ordered(#[trigger] list[i], #[trigger] list[j])
        }),
{
    let ops = model_ops(data)->0;
    let (m1, r1) = ops_collected(m, ops, ops.len());
    let m2 = Meta { param_names: in_order(m1.param_names), ..m1 };
    law_converting_all_keeps_findings(m2, g, ops, ops.len());
    lemma_in_order(m1.param_names);
}

/// In strict mode sampling is never replaced by the most likely outcome: the operator is refused,
/// and neither the graph nor what is known changes.
pub proof fn law_strict_refuses_multinomial(m: Meta, g: Graph, op: JsonView)
    requires
        m.strict,
    ensures
        multinomial_lowered(m, g, op).2 is Err,
        multinomial_lowered(m, g, op).1 == g,
        multinomial_lowered(m, g, op).0 == m,
{
}

/// Where sampling is replaced by the most likely outcome, it is noted that the user has been
/// warned.
pub proof fn law_multinomial_warns(m: Meta, g: Graph, op: JsonView)
    requires
        multinomial_lowered(m, g, op).2 is Ok,
    ensures
        multinomial_lowered(m, g, op).0.warned_multinomial_degraded,
{
}

/// A text up to its first underscore.
spec fn head(text: Seq<char>) -> Seq<char>
    decreases text.len(),
{
    if text.len() == 0 || text[0] == '_' {
        Seq::empty()
    } else {
        seq![text[0]] + head(text.skip(1))
    }
}

proof fn lemma_head(digits: Seq<char>, rest: Seq<char>)
    requires
        forall|i: int| 0 <= i < digits.len() ==> #[trigger] digits[i] != '_',
        rest.len() > 0,
        rest[0] == '_',
    ensures
        head(digits + rest) == digits,
    decreases digits.len(),
{
    if digits.len() > 0 {
        assert((digits + rest).skip(1) =~= digits.skip(1) + rest);
        lemma_head(digits.skip(1), rest);
        assert(seq![digits[0]] + digits.skip(1) =~= digits);
    } else {
        assert(digits + rest =~= rest);
    }
}

/// The values that a loop carries along have different names in its body, also where the same
/// value is carried twice.
pub proof fn law_loop_arguments_distinct(op: JsonView, i: int, j: int)
    requires
        0 <= i < j < body_arg_names(op).len(),
    ensures
        body_arg_names(op)[i] != body_arg_names(op)[j],
{
    let ids = carried_ids(op);
    let start = "while_arg_"@;
    reveal_strlit("_");
    lemma_dec_nat_value(i as nat);
    lemma_dec_nat_value(j as nat);
    let a = "_"@ + dec(ids[i] as int);
    let b = "_"@ + dec(ids[j] as int);
    lemma_head(dec(i), a);
    lemma_head(dec(j), b);
    assert(body_arg_names(op)[i].skip(start.len() as int) =~= dec(i) + a);
    assert(body_arg_names(op)[j].skip(start.len() as int) =~= dec(j) + b);
    if body_arg_names(op)[i] == body_arg_names(op)[j] {
        lemma_dec_injective(i, j);
    }
}

/// Values that have not been given a name have different names.
pub proof fn law_unnamed_values_distinct(m: Meta, a: i64, b: i64)
    requires
        a > 0,
        b > 0,
        a != b,
        !m.id_to_name.contains_key(a),
        !m.id_to_name.contains_key(b),
    ensures
        tensor_name(m, a) is Ok,
        tensor_name(m, b) is Ok,
        tensor_name(m, a) != tensor_name(m, b),
{
    if "tensor_"@ + dec(a as int) == "tensor_"@ + dec(b as int) {
        crate::text::lemma_tag_injective("tensor_"@, a as int, b as int);
    }
}

} // verus!
