//! The second pass over a model description: the nodes of the graph.

use crate::converter::dispatch::{find_handler, flat_lowered, handler_of, Handler};
use crate::converter::ops::common::ints_option;
use crate::converter::ops::control::{
    body_arg_names, first_block, if_lowered, read_first_block, while_lowered,
};
use crate::converter::ops::misc::{generic_lowered, keeping, named, MetaStep};
use crate::converter::pass1::ops_collected;
use crate::converter::state::{nested_meta, tensor_name, Converter, Meta};
use crate::converter::value_info::{declare, declared, declared_for_id, undeclared};
use crate::error::{message, outcome, Error, ErrorView};
use crate::helper::{
    collect_plain_ints, input_ids, op_input_ids, op_output_ids, op_type, or_default, plain_ints,
    read_type_parts, type_of, type_parts,
};
use crate::json::{lemma_field_items_smaller, Json, JsonView};
use crate::onnx::{
    attr_graph, graph_of, node_of, views, Graph, GraphProto, Node, NodeProto, ValueInfo,
    ValueInfoProto,
};
use crate::scope::{has_tensor, has_value, lemma_node_views, produced, tensor_named, value_named};
use crate::text::{
    dec, has_name, int_text, ints0, join, join3, join4, join6, list1, list2, names, push_name, same,
    size_text,
};
use vstd::prelude::*;
use vstd::string::*;

verus! {

/// Whether a text begins with the mark of an operator of the model's main dialect.
pub open spec fn marked(text: Seq<char>) -> bool {
    text.len() >= 2 && text[0] == '1' && text[1] == '.'
}

/// A text without the marks that it begins with.
pub open spec fn unmarked(text: Seq<char>) -> Seq<char>
    decreases text.len(),
{
    if marked(text) {
        unmarked(text.skip(2))
    } else {
        text
    }
}

/// A text without the underscores that it ends with.
pub open spec fn without_tail(text: Seq<char>) -> Seq<char>
    decreases text.len(),
{
    if text.len() > 0 && text.last() == '_' {
        without_tail(text.drop_last())
    } else {
        text
    }
}

/// The name under which an operator is carried over. An underscore at the end stands for a
/// variant that works in place.
pub open spec fn plain_kind(kind: Seq<char>) -> Seq<char> {
    without_tail(unmarked(kind))
}

/// What is known, and the inputs of a region, once an argument of its block has a name.
pub open spec fn arg_bound(m: Meta, inputs: Seq<ValueInfo>, arg: JsonView, name: Seq<char>) -> Result<
    (Meta, Seq<ValueInfo>),
    ErrorView,
> {
    match arg.field_int("#"@) {
        None => Err(message("Block arg missing id"@)),
        Some(id) => {
            let m = named(m, id, name);
            match type_parts(arg) {
                Some(parts) => match if parts.len() > 0 {
                    parts[0].field_chars("#"@)
                } else {
                    None
                } {
                    Some(elem) => {
                        let dims = match if parts.len() > 1 {
                            parts[1].items()
                        } else {
                            None
                        } {
                            Some(dims) => plain_ints(dims, dims.len()),
                            None => Seq::empty(),
                        };
                        match declared(name, elem, dims) {
                            Err(e) => Err(e),
                            Ok(info) => Ok((m, inputs.push(info))),
                        }
                    },
                    None => Ok((m, inputs)),
                },
                None => Ok((m, inputs)),
            }
        },
    }
}

/// What is known, and the inputs of a region, once the first `k` arguments of its block have
/// names.
pub open spec fn args_bound(
    m: Meta,
    inputs: Seq<ValueInfo>,
    args: Seq<JsonView>,
    list: Seq<Seq<char>>,
    k: nat,
) -> Result<(Meta, Seq<ValueInfo>), ErrorView>
    decreases k,
{
    if k == 0 {
        Ok((m, inputs))
    } else {
        match args_bound(m, inputs, args, list, (k - 1) as nat) {
            Err(e) => Err(e),
            Ok((m, inputs)) => arg_bound(m, inputs, args[k - 1], list[k - 1]),
        }
    }
}

proof fn lemma_args_err(
    m: Meta,
    inputs: Seq<ValueInfo>,
    args: Seq<JsonView>,
    list: Seq<Seq<char>>,
    k: nat,
    n: nat,
)
    requires
        k <= n,
        args_bound(m, inputs, args, list, k) is Err,
    ensures
        args_bound(m, inputs, args, list, n) == args_bound(m, inputs, args, list, k),
    decreases n,
{
    if k < n {
        lemma_args_err(m, inputs, args, list, k, (n - 1) as nat);
    }
}

/// A region that is ready to be converted: what is known in it, its inputs and its operators.
pub struct Opened {
    pub meta: Meta,
    pub inputs: Seq<ValueInfo>,
    pub ops: Seq<JsonView>,
}

/// A region once its arguments have names and its operators have been looked through.
pub open spec fn region_opened(
    m: Meta,
    region: JsonView,
    name: Seq<char>,
    extra: Seq<ValueInfo>,
    arg_names: Seq<Seq<char>>,
) -> Result<Opened, ErrorView> {
    match first_block(region) {
        None => Err(message("Region is missing blocks"@)),
        Some(block) => {
            let args = or_default(block.field_items("args"@), Seq::empty());
            if args.len() != arg_names.len() {
                Err(
                    message(
                        "Block arg count mismatch for "@ + name + ": expected "@ + dec(
                            arg_names.len() as int,
                        ) + ", got "@ + dec(args.len() as int),
                    ),
                )
            } else {
                match args_bound(nested_meta(m), extra, args, arg_names, args.len()) {
                    Err(e) => Err(e),
                    Ok((m, inputs)) => match block.field_items("ops"@) {
                        None => Err(message("Block is missing ops"@)),
                        Some(ops) => match ops_collected(m, ops, ops.len()) {
                            (_, Err(e)) => Err(e),
                            (m, Ok(_)) => Ok(Opened { meta: m, inputs, ops }),
                        },
                    },
                }
            }
        },
    }
}

/// The values that the last `2.yield` among the first `k` operators hands out.
pub open spec fn yielded(ops: Seq<JsonView>, k: nat) -> Option<Seq<i64>>
    decreases k,
{
    if k == 0 {
        None
    } else if type_of(ops[k - 1]) == Some("2.yield"@) {
        Some(input_ids(ops[k - 1]))
    } else {
        yielded(ops, (k - 1) as nat)
    }
}

/// Whether a name is that of an input, a constant or a node's output of a region.
pub open spec fn defined_in(inputs: Seq<ValueInfo>, g: Graph, name: Seq<char>) -> bool {
    value_named(inputs, name) || tensor_named(g.initializer, name) || produced(g.node, name)
}

/// The nodes that a region needs for its outputs, and the outputs.
pub struct Ending {
    pub nodes: Seq<Node>,
    pub outputs: Seq<ValueInfo>,
}

/// The outputs of a region for the first `k` values that it hands out. One that the region does
/// not define is passed on under a name of its own.
pub open spec fn outputs_bound(
    m: Meta,
    g: Graph,
    name: Seq<char>,
    inputs: Seq<ValueInfo>,
    ids: Seq<i64>,
    k: nat,
) -> Result<Ending, ErrorView>
    decreases k,
{
    if k == 0 {
        Ok(Ending { nodes: Seq::empty(), outputs: Seq::empty() })
    } else {
        match outputs_bound(m, g, name, inputs, ids, (k - 1) as nat) {
            Err(e) => Err(e),
            Ok(front) => output_bound(m, g, name, inputs, ids[k - 1], k - 1, front),
        }
    }
}

/// The outputs of a region with one more.
pub open spec fn output_bound(
    m: Meta,
    g: Graph,
    name: Seq<char>,
    inputs: Seq<ValueInfo>,
    id: i64,
    index: int,
    front: Ending,
) -> Result<Ending, ErrorView> {
    match tensor_name(m, id) {
        Err(e) => Err(e),
        Ok(value) => if defined_in(inputs, g, value) {
            match declared_for_id(m, id, value) {
                Err(e) => Err(e),
                Ok(info) => Ok(Ending { outputs: front.outputs.push(info), ..front }),
            }
        } else {
            let alias = name + "_yield_"@ + dec(index);
            match declared_for_id(m, id, alias) {
                Err(e) => Err(e),
                Ok(info) => Ok(
                    Ending {
                        nodes: front.nodes.push(node_of("Identity"@, seq![value], seq![alias])),
                        outputs: front.outputs.push(info),
                    },
                ),
            }
        },
    }
}

proof fn lemma_outputs_err(
    m: Meta,
    g: Graph,
    name: Seq<char>,
    inputs: Seq<ValueInfo>,
    ids: Seq<i64>,
    k: nat,
    n: nat,
)
    requires
        k <= n,
        outputs_bound(m, g, name, inputs, ids, k) is Err,
    ensures
        outputs_bound(m, g, name, inputs, ids, n) == outputs_bound(m, g, name, inputs, ids, k),
    decreases n,
{
    if k < n {
        lemma_outputs_err(m, g, name, inputs, ids, k, (n - 1) as nat);
    }
}

/// The graph of a region whose operators have been converted.
pub open spec fn region_closed(
    m: Meta,
    g: Graph,
    name: Seq<char>,
    inputs: Seq<ValueInfo>,
    ops: Seq<JsonView>,
) -> Result<Graph, ErrorView> {
    match yielded(ops, ops.len()) {
        None => Err(message("Region "@ + name + " is missing 2.yield"@)),
        Some(ids) => match outputs_bound(m, g, name, inputs, ids, ids.len()) {
            Err(e) => Err(e),
            Ok(ending) => Ok(
                Graph {
                    node: g.node + ending.nodes,
                    name,
                    initializer: g.initializer,
                    input: inputs,
                    output: ending.outputs,
                    value_info: g.value_info,
                },
            ),
        },
    }
}

/// The inputs that the body of a loop has besides the values that are carried along: the number of
/// the round, and the condition.
pub open spec fn loop_inputs() -> Seq<ValueInfo> {
    seq![loop_input("__p2o_loop_iter"@, "0.t_i64"@), loop_input("__p2o_loop_cond"@, "0.t_bool"@)]
}

/// A scalar input of the body of a loop.
pub open spec fn loop_input(name: Seq<char>, elem: Seq<char>) -> ValueInfo {
    match declared(name, elem, Seq::empty()) {
        Ok(info) => info,
        Err(_) => undeclared(name),
    }
}

/// The graph that a region converts to.
pub open spec fn region_converted(
    m: Meta,
    region: JsonView,
    name: Seq<char>,
    extra: Seq<ValueInfo>,
    arg_names: Seq<Seq<char>>,
) -> Result<Graph, ErrorView>
    decreases region, 0nat,
    via region_converted_smaller
{
    match region_opened(m, region, name, extra, arg_names) {
        Err(e) => Err(e),
        Ok(opened) => match ops_converted(
            opened.meta,
            graph_of("Paddle2ONNX_Subgraph"@),
            opened.ops,
            opened.ops.len(),
        ) {
            (_, _, Err(e)) => Err(e),
            (m, g, Ok(_)) => region_closed(m, g, name, opened.inputs, opened.ops),
        },
    }
}

#[via_fn]
proof fn region_converted_smaller(
    m: Meta,
    region: JsonView,
    name: Seq<char>,
    extra: Seq<ValueInfo>,
    arg_names: Seq<Seq<char>>,
) {
    if region_opened(m, region, name, extra, arg_names) is Ok {
        lemma_block_ops_smaller(region);
    }
}

proof fn lemma_block_ops_smaller(region: JsonView)
    requires
        first_block(region) is Some,
        first_block(region)->0.field_items("ops"@) is Some,
    ensures
        decreases_to!(region => first_block(region)->0.field_items("ops"@)->0),
{
    let blocks = region.field_items("blocks"@)->0;
    lemma_field_items_smaller(region, "blocks"@);
    assert(decreases_to!(blocks => blocks[0]));
    lemma_field_items_smaller(blocks[0], "ops"@);
}

/// The graph that one of the regions of an operator converts to.
pub open spec fn branch_converted(
    m: Meta,
    op: JsonView,
    at: int,
    name: Seq<char>,
    extra: Seq<ValueInfo>,
    arg_names: Seq<Seq<char>>,
) -> Result<Graph, ErrorView>
    decreases op, 0nat,
    via branch_converted_smaller
{
    match op.field_items("regions"@) {
        Some(regions) => if 0 <= at < regions.len() {
            region_converted(m, regions[at], name, extra, arg_names)
        } else {
            Err(message(Seq::empty()))
        },
        None => Err(message(Seq::empty())),
    }
}

#[via_fn]
proof fn branch_converted_smaller(
    m: Meta,
    op: JsonView,
    at: int,
    name: Seq<char>,
    extra: Seq<ValueInfo>,
    arg_names: Seq<Seq<char>>,
) {
    if op.field_items("regions"@) is Some {
        let regions = op.field_items("regions"@)->0;
        lemma_field_items_smaller(op, "regions"@);
        if 0 <= at < regions.len() {
            assert(decreases_to!(regions => regions[at]));
        }
    }
}

/// The step of an operator: by its own lowering, or carried over where it is of the model's main
/// dialect. Any other operator adds nothing.
pub open spec fn op_converted(m: Meta, g: Graph, kind: Seq<char>, op: JsonView) -> MetaStep
    decreases op, 1nat,
{
    match handler_of(kind) {
        Some(handler) => if handler == Handler::If {
            keeping(
                m,
                if_lowered(
                    m,
                    g,
                    op,
                    branch_converted(m, op, 0, "if_then_branch"@, Seq::empty(), Seq::empty()),
                    branch_converted(m, op, 1, "if_else_branch"@, Seq::empty(), Seq::empty()),
                ),
            )
        } else if handler == Handler::While {
            keeping(
                m,
                while_lowered(
                    m,
                    g,
                    op,
                    branch_converted(m, op, 0, "while_body"@, loop_inputs(), body_arg_names(op)),
                ),
            )
        } else {
            flat_lowered(m, g, handler, kind, op)
        },
        None => if marked(kind) {
            keeping(m, generic_lowered(m, g, plain_kind(kind), op))
        } else {
            (m, g, Ok(()))
        },
    }
}

/// The step of the first `k` operators of a list. What has no type is passed over.
pub open spec fn ops_converted(m: Meta, g: Graph, ops: Seq<JsonView>, k: nat) -> MetaStep
    decreases ops, k,
    via ops_converted_smaller
{
    if k == 0 || k > ops.len() {
        (m, g, Ok(()))
    } else {
        match ops_converted(m, g, ops, (k - 1) as nat) {
            (m, g, Err(e)) => (m, g, Err(e)),
            (m, g, Ok(_)) => match type_of(ops[k - 1]) {
                Some(kind) => op_converted(m, g, kind, ops[k - 1]),
                None => (m, g, Ok(())),
            },
        }
    }
}

#[via_fn]
proof fn ops_converted_smaller(m: Meta, g: Graph, ops: Seq<JsonView>, k: nat) {
    if 0 < k <= ops.len() {
        assert(decreases_to!(ops => ops[k - 1]));
    }
}

proof fn lemma_convert_err(m: Meta, g: Graph, ops: Seq<JsonView>, k: nat, n: nat)
    requires
        k <= n <= ops.len(),
        ops_converted(m, g, ops, k).2 is Err,
    ensures
        ops_converted(m, g, ops, n) == ops_converted(m, g, ops, k),
    decreases n,
{
    if k < n {
        lemma_convert_err(m, g, ops, k, (n - 1) as nat);
    }
}


fn is_marked(text: &str) -> (r: bool)
    ensures
        r == marked(text@),
{
    text.unicode_len() >= 2 && text.get_char(0) == '1' && text.get_char(1) == '.'
}

fn make_plain(kind: &str) -> (r: &str)
    ensures
        r@ == plain_kind(kind@),
{
    let count: usize = kind.unicode_len();
    let mut from: usize = 0;
    proof {
        assert(kind@.skip(0) =~= kind@);
    }
    while count - from >= 2 && kind.get_char(from) == '1' && kind.get_char(from + 1) == '.'
        invariant
            from <= count,
            count == kind@.len(),
            unmarked(kind@) == unmarked(kind@.skip(from as int)),
        decreases count - from,
    {
        proof {
            assert(kind@.skip(from as int).skip(2) =~= kind@.skip(from + 2));
        }
        from = from + 2;
    }
    let ghost rest = kind@.skip(from as int);
    let mut to: usize = count;
    proof {
        assert(unmarked(kind@) == rest);
        assert(rest =~= kind@.subrange(from as int, to as int));
    }
    while to > from && kind.get_char(to - 1) == '_'
        invariant
            from <= to <= count,
            count == kind@.len(),
            without_tail(rest) == without_tail(kind@.subrange(from as int, to as int)),
        decreases to,
    {
        proof {
            assert(kind@.subrange(from as int, to as int).drop_last() =~= kind@.subrange(
                from as int,
                to - 1,
            ));
        }
        to = to - 1;
    }
    kind.substring_char(from, to)
}

fn is_produced(nodes: &Vec<NodeProto>, name: &str) -> (r: bool)
    ensures
        r == produced(views(nodes@), name@),
{
    let ghost all = views(nodes@);
    let mut i: usize = 0;
    while i < nodes.len()
        invariant
            i <= nodes.len(),
            all == views(nodes@),
            forall|k: int| 0 <= k < i ==> !(#[trigger] all[k]).output.contains(name@),
        decreases nodes.len() - i,
    {
        proof {
            assert(all[i as int].output == names(nodes@[i as int].output@));
        }
        if has_name(&nodes[i].output, name) {
            proof {
                assert(all[i as int].output.contains(name@));
            }
            return true;
        }
        i = i + 1;
    }
    false
}

fn find_yield(ops: &Vec<Json>) -> (r: Option<Vec<i64>>)
    ensures
        ints_option(r) == yielded(views(ops@), ops@.len()),
{
    let mut i: usize = ops.len();
    while i > 0
        invariant
            i <= ops.len(),
            yielded(views(ops@), ops@.len()) == yielded(views(ops@), i as nat),
        decreases i,
    {
        match op_type(&ops[i - 1]) {
            Some(kind) => {
                if same(kind, "2.yield") {
                    return Some(op_input_ids(&ops[i - 1]));
                }
            },
            None => {},
        }
        i = i - 1;
    }
    None
}

fn push_info(list: &mut Vec<ValueInfoProto>, info: ValueInfoProto)
    ensures
        views(final(list)@) == views(old(list)@).push(info@),
{
    let ghost before = views(list@);
    list.push(info);
    proof {
        assert(views(list@) =~= before.push(info@));
    }
}

fn push_node(list: &mut Vec<NodeProto>, node: NodeProto)
    ensures
        views(final(list)@) == views(old(list)@).push(node@),
{
    let ghost before = views(list@);
    list.push(node);
    proof {
        assert(views(list@) =~= before.push(node@));
    }
}

fn declare_loop_input(name: &str, elem: &str) -> (r: ValueInfoProto)
    ensures
        r@ == loop_input(name@, elem@),
{
    match declare(name.to_string(), elem, &ints0()) {
        Ok(info) => info,
        Err(_) => ValueInfoProto { name: name.to_string(), tensor_type: None },
    }
}

fn list_loop_inputs() -> (r: Vec<ValueInfoProto>)
    ensures
        views(r@) == loop_inputs(),
{
    let mut list: Vec<ValueInfoProto> = Vec::new();
    list.push(declare_loop_input("__p2o_loop_iter", "0.t_i64"));
    list.push(declare_loop_input("__p2o_loop_cond", "0.t_bool"));
    proof {
        assert(views(list@) =~= loop_inputs());
    }
    list
}

fn name_body_args(ids: &Vec<i64>) -> (r: Vec<String>)
    ensures
        names(r@) == Seq::new(
            ids@.len(),
            |i: int| "while_arg_"@ + dec(i) + "_"@ + dec(ids@[i] as int),
        ),
{
    let mut list: Vec<String> = Vec::new();
    let mut i: usize = 0;
    while i < ids.len()
        invariant
            i <= ids.len(),
            names(list@) =~= Seq::new(
                i as nat,
                |i: int| "while_arg_"@ + dec(i) + "_"@ + dec(ids@[i] as int),
            ),
        decreases ids.len() - i,
    {
        push_name(
            &mut list,
            join4(
                "while_arg_",
                size_text(i).as_str(),
                "_",
                int_text(ids[i]).as_str(),
            ),
        );
        i = i + 1;
    }
    list
}

fn copy_from(list: &Vec<i64>, from: usize) -> (r: Vec<i64>)
    requires
        from <= list.len(),
    ensures
        r@ == list@.skip(from as int),
{
    let mut rest: Vec<i64> = Vec::new();
    let mut i: usize = from;
    while i < list.len()
        invariant
            from <= i <= list.len(),
            rest@ =~= list@.subrange(from as int, i as int),
        decreases list.len() - i,
    {
        rest.push(list[i]);
        i = i + 1;
    }
    proof {
        assert(rest@ =~= list@.skip(from as int));
    }
    rest
}

/// The content of a result with a graph.
pub open spec fn graph_result(r: Result<GraphProto, Error>) -> Result<Graph, ErrorView> {
    match r {
        Ok(graph) => Ok(graph@),
        Err(e) => Err(e@),
    }
}

/// The outputs of a region so far.
struct Endings {
    nodes: Vec<NodeProto>,
    outputs: Vec<ValueInfoProto>,
}

impl Endings {
    spec fn content(&self) -> Ending {
        Ending { nodes: views(self.nodes@), outputs: views(self.outputs@) }
    }
}

impl Converter {
    fn bind_arg(&mut self, inputs: &mut Vec<ValueInfoProto>, arg: &Json, name: &String) -> (r: Result<
        (),
        Error,
    >)
        ensures
            match r {
                Ok(_) => arg_bound(old(self).meta(), views(old(inputs)@), arg@, name@) == Ok::<
                    (Meta, Seq<ValueInfo>),
                    ErrorView,
                >((final(self).meta(), views(final(inputs)@))),
                Err(e) => arg_bound(old(self).meta(), views(old(inputs)@), arg@, name@) == Err::<
                    (Meta, Seq<ValueInfo>),
                    ErrorView,
                >(e@),
            },
            final(self).onnx_graph == old(self).onnx_graph,
    {
        let id: i64 = match arg.get_i64("#") {
            Some(id) => id,
            None => {
                return Err(Error::text("Block arg missing id"));
            },
        };
        self.state.id_to_name.insert(id, name.clone());
        match read_type_parts(arg) {
            Some(parts) => {
                if parts.len() > 0 {
                    match parts[0].get_str("#") {
                        Some(elem) => {
                            let mut dims: Vec<i64> = Vec::new();
                            if parts.len() > 1 {
                                match parts[1].as_array() {
                                    Some(items) => {
                                        dims = collect_plain_ints(items);
                                    },
                                    None => {},
                                }
                            }
                            let info = declare(name.clone(), elem, &dims)?;
                            push_info(inputs, info);
                        },
                        None => {},
                    }
                }
            },
            None => {},
        }
        Ok(())
    }

    fn bind_args(
        &mut self,
        inputs: &mut Vec<ValueInfoProto>,
        args: &Vec<Json>,
        list: &Vec<String>,
    ) -> (r: Result<(), Error>)
        requires
            args.len() == list.len(),
        ensures
            match r {
                Ok(_) => args_bound(
                    old(self).meta(),
                    views(old(inputs)@),
                    views(args@),
                    names(list@),
                    args@.len(),
                ) == Ok::<(Meta, Seq<ValueInfo>), ErrorView>(
                    (final(self).meta(), views(final(inputs)@)),
                ),
                Err(e) => args_bound(
                    old(self).meta(),
                    views(old(inputs)@),
                    views(args@),
                    names(list@),
                    args@.len(),
                ) == Err::<(Meta, Seq<ValueInfo>), ErrorView>(e@),
            },
            final(self).onnx_graph == old(self).onnx_graph,
    {
        let ghost m = self.meta();
        let ghost start = views(inputs@);
        let mut i: usize = 0;
        while i < args.len()
            invariant
                i <= args.len() == list.len(),
                m == old(self).meta(),
                start == views(old(inputs)@),
                args_bound(m, start, views(args@), names(list@), i as nat) == Ok::<
                    (Meta, Seq<ValueInfo>),
                    ErrorView,
                >((self.meta(), views(inputs@))),
                self.onnx_graph == old(self).onnx_graph,
            decreases args.len() - i,
        {
            match self.bind_arg(inputs, &args[i], &list[i]) {
                Ok(_) => {},
                Err(e) => {
                    proof {
                        lemma_args_err(
                            m,
                            start,
                            views(args@),
                            names(list@),
                            (i + 1) as nat,
                            args@.len(),
                        );
                    }
                    return Err(e);
                },
            }
            i = i + 1;
        }
        Ok(())
    }

    fn open_region<'a>(
        &self,
        region: &'a Json,
        name: &str,
        extra: Vec<ValueInfoProto>,
        arg_names: &Vec<String>,
    ) -> (r: Result<(Converter, Vec<ValueInfoProto>, &'a Vec<Json>), Error>)
        ensures
            match r {
                Ok((sub, inputs, ops)) => region_opened(
                    self.meta(),
                    region@,
                    name@,
                    views(extra@),
                    names(arg_names@),
                ) == Ok::<Opened, ErrorView>(
                    (Opened { meta: sub.meta(), inputs: views(inputs@), ops: views(ops@) }),
                ) && sub.onnx_graph@ == graph_of("Paddle2ONNX_Subgraph"@),
                Err(e) => region_opened(
                    self.meta(),
                    region@,
                    name@,
                    views(extra@),
                    names(arg_names@),
                ) == Err::<Opened, ErrorView>(e@),
            },
    {
        let block = match read_first_block(region) {
            Some(block) => block,
            None => {
                return Err(Error::text("Region is missing blocks"));
            },
        };
        let none: Vec<Json> = Vec::new();
        let args: &Vec<Json> = match block.get_array("args") {
            Some(args) => args,
            None => &none,
        };
        if args.len() != arg_names.len() {
            return Err(
                Error::owned(
                    join6(
                        "Block arg count mismatch for ",
                        name,
                        ": expected ",
                        size_text(arg_names.len()).as_str(),
                        ", got ",
                        size_text(args.len()).as_str(),
                    ),
                ),
            );
        }
        let mut sub = self.sub_converter();
        let mut inputs = extra;
        sub.bind_args(&mut inputs, args, arg_names)?;
        let ops: &'a Vec<Json> = match block.get_array("ops") {
            Some(ops) => ops,
            None => {
                return Err(Error::text("Block is missing ops"));
            },
        };
        sub.collect_pass1_from_ops(ops)?;
        Ok((sub, inputs, ops))
    }

    fn bind_output(
        &self,
        name: &str,
        inputs: &Vec<ValueInfoProto>,
        id: i64,
        index: usize,
        front: &mut Endings,
    ) -> (r: Result<(), Error>)
        ensures
            match r {
                Ok(_) => output_bound(
                    self.meta(),
                    self.onnx_graph@,
                    name@,
                    views(inputs@),
                    id,
                    index as int,
                    old(front).content(),
                ) == Ok::<Ending, ErrorView>(final(front).content()),
                Err(e) => output_bound(
                    self.meta(),
                    self.onnx_graph@,
                    name@,
                    views(inputs@),
                    id,
                    index as int,
                    old(front).content(),
                ) == Err::<Ending, ErrorView>(e@),
            },
    {
        let value = self.get_tensor_name(id)?;
        proof {
            lemma_node_views(self.onnx_graph);
        }
        if has_value(inputs, value.as_str()) || has_tensor(
            &self.onnx_graph.initializer,
            value.as_str(),
        ) || is_produced(&self.onnx_graph.node, value.as_str()) {
            let info = self.build_value_info_for_id(id, value)?;
            push_info(&mut front.outputs, info);
            return Ok(());
        }
        let alias = join3(name, "_yield_", size_text(index).as_str());
        let node = NodeProto::new("Identity", list1(value), list1(alias.clone()));
        let info = self.build_value_info_for_id(id, alias)?;
        push_node(&mut front.nodes, node);
        push_info(&mut front.outputs, info);
        Ok(())
    }

    fn bind_outputs(&self, name: &str, inputs: &Vec<ValueInfoProto>, ids: &Vec<i64>) -> (r: Result<
        Endings,
        Error,
    >)
        ensures
            match r {
                Ok(ending) => outputs_bound(
                    self.meta(),
                    self.onnx_graph@,
                    name@,
                    views(inputs@),
                    ids@,
                    ids@.len(),
                ) == Ok::<Ending, ErrorView>(ending.content()),
                Err(e) => outputs_bound(
                    self.meta(),
                    self.onnx_graph@,
                    name@,
                    views(inputs@),
                    ids@,
                    ids@.len(),
                ) == Err::<Ending, ErrorView>(e@),
            },
    {
        let mut ending = Endings { nodes: Vec::new(), outputs: Vec::new() };
        let mut i: usize = 0;
        proof {
            assert(views(ending.nodes@) =~= Seq::empty());
            assert(views(ending.outputs@) =~= Seq::empty());
        }
        while i < ids.len()
            invariant
                i <= ids.len(),
                outputs_bound(
                    self.meta(),
                    self.onnx_graph@,
                    name@,
                    views(inputs@),
                    ids@,
                    i as nat,
                ) == Ok::<Ending, ErrorView>(ending.content()),
            decreases ids.len() - i,
        {
            match self.bind_output(name, inputs, ids[i], i, &mut ending) {
                Ok(_) => {},
                Err(e) => {
                    proof {
                        lemma_outputs_err(
                            self.meta(),
                            self.onnx_graph@,
                            name@,
                            views(inputs@),
                            ids@,
                            (i + 1) as nat,
                            ids@.len(),
                        );
                    }
                    return Err(e);
                },
            }
            i = i + 1;
        }
        Ok(ending)
    }

    fn close_region(self, name: &str, inputs: Vec<ValueInfoProto>, ops: &Vec<Json>) -> (r: Result<
        GraphProto,
        Error,
    >)
        ensures
            graph_result(r) == region_closed(
                self.meta(),
                self.onnx_graph@,
                name@,
                views(inputs@),
                views(ops@),
            ),
    {
        let ids = match find_yield(ops) {
            Some(ids) => ids,
            None => {
                return Err(Error::owned(join3("Region ", name, " is missing 2.yield")));
            },
        };
        let ending = self.bind_outputs(name, &inputs, &ids)?;
        let ghost g = self.onnx_graph@;
        let ghost added = ending.content();
        proof {
            lemma_node_views(self.onnx_graph);
        }
        let mut node = self.onnx_graph.node;
        let mut extra = ending.nodes;
        node.append(&mut extra);
        proof {
            assert(views(node@) =~= g.node + added.nodes);
        }
        let graph = GraphProto {
            node,
            name: name.to_string(),
            initializer: self.onnx_graph.initializer,
            input: inputs,
            output: ending.outputs,
            value_info: self.onnx_graph.value_info,
        };
        proof {
            lemma_node_views(graph);
        }
        Ok(graph)
    }

    fn convert_region_to_graph(
        &self,
        region: &Json,
        name: &str,
        extra: Vec<ValueInfoProto>,
        arg_names: &Vec<String>,
    ) -> (r: Result<GraphProto, Error>)
        ensures
            graph_result(r) == region_converted(
                self.meta(),
                region@,
                name@,
                views(extra@),
                names(arg_names@),
            ),
        decreases region@, 0nat,
    {
        let (mut sub, inputs, ops) = self.open_region(region, name, extra, arg_names)?;
        proof {
            lemma_block_ops_smaller(region@);
        }
        sub.convert_ops(ops)?;
        sub.close_region(name, inputs, ops)
    }

    /// Lowers a conditional.
    pub fn op_if(&mut self, op: &Json) -> (r: Result<(), Error>)
        ensures
            final(self).meta() == old(self).meta(),
            (final(self).onnx_graph@, outcome(r)) == if_lowered(
                old(self).meta(),
                old(self).onnx_graph@,
                op@,
                branch_converted(
                    old(self).meta(),
                    op@,
                    0,
                    "if_then_branch"@,
                    Seq::empty(),
                    Seq::empty(),
                ),
                branch_converted(
                    old(self).meta(),
                    op@,
                    1,
                    "if_else_branch"@,
                    Seq::empty(),
                    Seq::empty(),
                ),
            ),
        decreases op@, 1nat,
    {
        let ins = op_input_ids(op);
        if ins.len() == 0 {
            return Err(Error::text("if requires a condition input"));
        }
        let condition = self.get_tensor_name(ins[0])?;
        let regions = match op.get_array("regions") {
            Some(regions) => regions,
            None => {
                return Err(Error::text("if is missing regions"));
            },
        };
        if regions.len() != 2 {
            return Err(
                Error::owned(join("if expects 2 regions, got ", size_text(regions.len()).as_str())),
            );
        }
        let none: Vec<String> = Vec::new();
        let no_inputs: Vec<ValueInfoProto> = Vec::new();
        let no_inputs_either: Vec<ValueInfoProto> = Vec::new();
        proof {
            lemma_field_items_smaller(op@, "regions"@);
            assert(decreases_to!(views(regions@) => views(regions@)[0]));
            assert(decreases_to!(views(regions@) => views(regions@)[1]));
            assert(names(none@) =~= Seq::empty());
            assert(views(no_inputs@) =~= Seq::empty());
            assert(views(no_inputs_either@) =~= Seq::empty());
        }
        let then_graph = self.convert_region_to_graph(
            &regions[0],
            "if_then_branch",
            no_inputs,
            &none,
        )?;
        let else_graph = self.convert_region_to_graph(
            &regions[1],
            "if_else_branch",
            no_inputs_either,
            &none,
        )?;
        let output_list = op_output_ids(op);
        let outputs = self.first_names(&output_list, output_list.len())?;
        self.add_node(
            NodeProto::new("If", list1(condition), outputs).with(
                attr_graph("then_branch", then_graph),
            ).with(attr_graph("else_branch", else_graph)),
        );
        Ok(())
    }

    /// Lowers a loop.
    pub fn op_while(&mut self, op: &Json) -> (r: Result<(), Error>)
        ensures
            final(self).meta() == old(self).meta(),
            (final(self).onnx_graph@, outcome(r)) == while_lowered(
                old(self).meta(),
                old(self).onnx_graph@,
                op@,
                branch_converted(
                    old(self).meta(),
                    op@,
                    0,
                    "while_body"@,
                    loop_inputs(),
                    body_arg_names(op@),
                ),
            ),
        decreases op@, 1nat,
    {
        let ins = op_input_ids(op);
        if ins.len() == 0 {
            return Err(Error::text("while requires condition and loop-carried inputs"));
        }
        let condition = self.get_tensor_name(ins[0])?;
        let carried_list = copy_from(&ins, 1);
        let carried = self.first_names(&carried_list, carried_list.len())?;
        let regions = match op.get_array("regions") {
            Some(regions) => regions,
            None => {
                return Err(Error::text("while is missing regions"));
            },
        };
        if regions.len() == 0 {
            return Err(Error::text("while is missing body region"));
        }
        let arg_count: usize = match read_first_block(&regions[0]) {
            Some(block) => match block.get_array("args") {
                Some(args) => args.len(),
                None => {
                    return Err(Error::text("while body region is missing block args"));
                },
            },
            None => {
                return Err(Error::text("while body region is missing block args"));
            },
        };
        if arg_count != carried.len() {
            return Err(
                Error::owned(
                    join4(
                        "while body arg count mismatch: expected ",
                        size_text(carried.len()).as_str(),
                        ", got ",
                        size_text(arg_count).as_str(),
                    ),
                ),
            );
        }
        let arg_names = name_body_args(&carried_list);
        proof {
            lemma_field_items_smaller(op@, "regions"@);
            assert(decreases_to!(views(regions@) => views(regions@)[0]));
            assert(names(arg_names@) =~= body_arg_names(op@));
        }
        let body = self.convert_region_to_graph(
            &regions[0],
            "while_body",
            list_loop_inputs(),
            &arg_names,
        )?;
        let output_list = op_output_ids(op);
        let outputs = self.first_names(&output_list, output_list.len())?;
        let ghost carried_names = names(carried@);
        let ghost lead = condition@;
        let mut inputs: Vec<String> = list2(String::new(), condition);
        let mut rest = carried;
        inputs.append(&mut rest);
        proof {
            assert(names(inputs@) =~= seq![Seq::empty(), lead] + carried_names);
        }
        self.add_node(NodeProto::new("Loop", inputs, outputs).with(attr_graph("body", body)));
        Ok(())
    }

    /// Converts an operator.
    pub fn process_pass2_op(&mut self, op_type: &str, op: &Json) -> (r: Result<(), Error>)
        ensures
            (final(self).meta(), final(self).onnx_graph@, outcome(r)) == op_converted(
                old(self).meta(),
                old(self).onnx_graph@,
                op_type@,
                op@,
            ),
        decreases op@, 2nat,
    {
        match find_handler(op_type) {
            Some(handler) => {
                if handler == Handler::If {
                    self.op_if(op)
                } else if handler == Handler::While {
                    self.op_while(op)
                } else {
                    self.lower_flat(handler, op_type, op)
                }
            },
            None => {
                if is_marked(op_type) {
                    self.convert_generic_op(make_plain(op_type), op)
                } else {
                    Ok(())
                }
            },
        }
    }

    /// Converts a list of operators.
    pub fn convert_ops(&mut self, ops: &Vec<Json>) -> (r: Result<(), Error>)
        ensures
            (final(self).meta(), final(self).onnx_graph@, outcome(r)) == ops_converted(
                old(self).meta(),
                old(self).onnx_graph@,
                views(ops@),
                ops@.len(),
            ),
        decreases views(ops@), 0nat,
    {
        let ghost m = self.meta();
        let ghost g = self.onnx_graph@;
        let mut i: usize = 0;
        while i < ops.len()
            invariant
                i <= ops.len(),
                m == old(self).meta(),
                g == old(self).onnx_graph@,
                (self.meta(), self.onnx_graph@, Ok::<(), ErrorView>(())) == ops_converted(
                    m,
                    g,
                    views(ops@),
                    i as nat,
                ),
            decreases ops.len() - i,
        {
            match op_type(&ops[i]) {
                Some(kind) => {
                    proof {
                        assert(decreases_to!(views(ops@) => views(ops@)[i as int]));
                    }
                    match self.process_pass2_op(kind, &ops[i]) {
                        Ok(_) => {},
                        Err(e) => {
                            proof {
                                lemma_convert_err(m, g, views(ops@), (i + 1) as nat, ops@.len());
                            }
                            return Err(e);
                        },
                    }
                },
                None => {},
            }
            i = i + 1;
        }
        Ok(())
    }
}

} // verus!
