//! The passes over a model description, and what is done to a graph before it is written.

use p2o::codegen::{
    generate_op_type_lookup, generate_pass2_dispatch, DispatchEntry, DispatchKind, OpTypeEntry,
};
use p2o::converter::export::canonical::canonicalize_graph_once;
use p2o::converter::export::{clean_up, prepare_graph_for_export, Cleanup};
use p2o::converter::export::prune::prune_dead_nodes_all;
use p2o::converter::export::sanitize::{prune_unused_initializers, sanitize_graph_once};
use p2o::converter::export::validate::validate_graph;
use p2o::converter::load::check_model_size;
use p2o::converter::state::{Converter, ParamMeta};
use p2o::document::parse;
use p2o::error::{ConstantFault, Error};
use p2o::json::Json;
use p2o::name_set::NameSet;
use p2o::onnx::{
    attr_graph, attr_int, attr_ints, Dimension, GraphProto, NodeProto, TensorProto, TensorType,
    ValueInfoProto,
};
use p2o::order::sort_names;
use p2o::scope::{replace_inputs_recursive, rewrite_is_safe};

fn json(text: &str) -> Json {
    parse(&text.as_bytes().to_vec()).unwrap()
}

fn text_of(error: Error) -> String {
    match error {
        Error::Message(text) => text,
        other => panic!("{:?}", other),
    }
}

fn strings(list: &[&str]) -> Vec<String> {
    list.iter().map(|s| s.to_string()).collect()
}

fn node(op_type: &str, input: &[&str], output: &[&str]) -> NodeProto {
    NodeProto::new(op_type, strings(input), strings(output))
}

fn value(name: &str) -> ValueInfoProto {
    ValueInfoProto { name: name.to_string(), tensor_type: None }
}

fn tensor(name: &str, values: &[i64]) -> TensorProto {
    let mut t = TensorProto::new(name.to_string(), vec![values.len() as i64], 7);
    t.raw_data = values.iter().flat_map(|v| v.to_le_bytes()).collect();
    t
}

fn graph(inputs: &[&str], nodes: Vec<NodeProto>, outputs: &[&str]) -> GraphProto {
    let mut g = GraphProto::new("g");
    g.input = inputs.iter().map(|n| value(n)).collect();
    g.node = nodes;
    g.output = outputs.iter().map(|n| value(n)).collect();
    g
}

fn shown(g: &GraphProto) -> Vec<String> {
    g.node
        .iter()
        .map(|n| format!("{}({})->{}", n.op_type, n.input.join(","), n.output.join(",")))
        .collect()
}

// ---- Model descriptions ----

fn model(ops: &str) -> Vec<u8> {
    format!("{{\"program\": {{\"regions\": [{{\"blocks\": [{{\"ops\": [{}]}}]}}]}}}}", ops)
        .into_bytes()
}

fn loaded(ops: &str) -> Result<Converter, Error> {
    let mut c = Converter::new();
    c.load_paddle_model(&model(ops)).map(|_| c)
}

fn collected(ops: &str) -> Result<Converter, Error> {
    let mut c = Converter::new();
    let list = json(&format!("[{}]", ops));
    c.collect_pass1_from_ops(list.as_array().unwrap()).map(|_| c)
}

fn constant(c: &Converter, id: i64) -> Option<Vec<f64>> {
    c.state.constants.get(id).map(|v| v.iter().map(|b| f64::from_bits(*b)).collect())
}

fn full(id: i64, data: &str) -> String {
    format!(
        "{{\"#\": \"1.full\", \"A\": [{{\"N\": \"value\", \"AT\": {{\"#\": \"0.a_f64\", \"D\": {}}}}}], \"I\": [], \"O\": [{{\"%\": {}}}]}}",
        data, id
    )
}

fn step(kind: &str, input: i64, output: i64, attrs: &str) -> String {
    format!(
        "{{\"#\": \"{}\", \"A\": [{}], \"I\": [{{\"%\": {}}}], \"O\": [{{\"%\": {}}}]}}",
        kind, attrs, input, output
    )
}

fn dtype(name: &str) -> String {
    format!("{{\"N\": \"dtype\", \"AT\": {{\"#\": \"1.a_dtype\", \"D\": \"{}\"}}}}", name)
}

#[test]
fn loading_refuses_what_is_no_model() {
    let mut c = Converter::new();
    assert_eq!(
        text_of(c.load_paddle_model(&b"{\"program\": {\"regions\": []}}".to_vec()).unwrap_err()),
        "Could not find ops array in JSON under /program/regions/0/blocks/0/ops"
    );
    assert!(c.load_paddle_model(&b"{\"program\": ".to_vec()).is_err());
    assert!(c.graph().node.is_empty());
    assert_eq!(check_model_size(256 * 1024 * 1024).is_ok(), true);
    assert_eq!(
        text_of(check_model_size(268435457).unwrap_err()),
        "model JSON is too large: 268435457 bytes exceeds soft limit 268435456 bytes"
    );
}

#[test]
fn loading_depends_on_the_content_alone() {
    let ops = format!("{}, {}", full(1, "2.0"), step("1.relu", 1, 2, ""));
    let tight = loaded(&ops).unwrap();
    let loose = loaded(&ops.replace(", ", " ,\n\t")).unwrap();
    assert_eq!(tight.graph().node.len(), 1);
    assert_eq!(tight.graph(), loose.graph());
    assert_eq!(tight.graph(), loaded(&ops).unwrap().graph());
}

#[test]
fn documents_keep_what_they_hold() {
    match json("{\"b\": [1, -2.5, true, null, \"x\"], \"a\": {}}") {
        Json::Object(members) => {
            let keys: Vec<&str> = members.iter().map(|m| m.0.as_str()).collect();
            assert_eq!(keys, ["a", "b"]);
            let items = members[1].1.as_array().unwrap();
            assert_eq!(items.len(), 5);
            assert_eq!(items[0].as_i64(), Some(1));
            assert_eq!(items[1].as_i64(), None);
            assert_eq!(items[1].as_float(), Some((-2.5f64).to_bits()));
            assert_eq!(items[2].as_bool(), Some(true));
            assert!(matches!(items[3], Json::Null));
            assert_eq!(items[4].as_str(), Some("x"));
            assert!(members[0].1.is_object());
        },
        _ => panic!("no object"),
    }
}

#[test]
fn parameters_are_put_in_order() {
    let p = |id: i64, name: &str| {
        format!(
            "{{\"#\": \"p\", \"A\": [0, \"{}\"], \"I\": [], \"O\": {{\"%\": {}, \"TT\": {{\"D\": [{{\"#\": \"0.t_f32\"}}, [2, 3]]}}}}}}",
            name, id
        )
    };
    let c = loaded(&[p(1, "w_b"), p(2, "w_a"), p(3, "W")].join(", ")).unwrap();
    assert_eq!(c.state.param_names, ["W", "w_a", "w_b"]);
    let meta = c.state.param_meta.get("w_b").unwrap();
    assert_eq!(meta.onnx_dtype, Some(1));
    assert_eq!(meta.dims, [2, 3]);
    assert!(c.state.param_meta.get("w_c").is_none());
    assert_eq!(c.get_tensor_name(2).unwrap(), "w_a");
    let mut list = strings(&["b", "a", "", "ab", "B"]);
    sort_names(&mut list);
    assert_eq!(list, ["", "B", "a", "ab", "b"]);
}

#[test]
fn constants_are_found_and_carried_on() {
    let scale = "{\"N\": \"scale\", \"AT\": {\"#\": \"0.a_f32\", \"D\": 0.5}}, {\"N\": \"bias\", \"AT\": {\"#\": \"0.a_f32\", \"D\": 1.0}}";
    let before = format!(
        "{}, {{\"N\": \"bias_after_scale\", \"AT\": {{\"#\": \"0.a_bool\", \"D\": false}}}}",
        scale
    );
    let c = collected(
        &[
            full(1, "3.0"),
            step("1.scale", 1, 2, scale),
            step("1.scale", 1, 3, &before),
            step("1.cast", 1, 4, &dtype("bool")),
            step("1.reshape", 4, 5, ""),
            step("1.relu", 1, 6, ""),
            full(7, "\"0.25\""),
            full(8, "\"-inf\""),
            full(9, "\"odd\""),
            full(10, "[{\"D\": 1}, {\"D\": 2.5}]"),
        ]
        .join(", "),
    )
    .unwrap();
    assert_eq!(constant(&c, 1), Some(vec![3.0]));
    assert_eq!(constant(&c, 2), Some(vec![2.5]));
    assert_eq!(constant(&c, 3), Some(vec![2.0]));
    assert_eq!(constant(&c, 4), Some(vec![1.0]));
    assert_eq!(constant(&c, 5), Some(vec![1.0]));
    assert_eq!(constant(&c, 6), None);
    assert_eq!(constant(&c, 7), Some(vec![0.25]));
    assert_eq!(constant(&c, 8), Some(vec![f64::NEG_INFINITY]));
    assert_eq!(constant(&c, 9), Some(vec![]));
    assert_eq!(constant(&c, 10), Some(vec![1.0, 2.5]));
}

fn cast_fault(data: &str, name: &str) -> ConstantFault {
    match collected(&[full(1, data), step("1.cast", 1, 2, &dtype(name))].join(", ")) {
        Err(Error::Constant { fault, .. }) => fault,
        Err(Error::Message(text)) => panic!("{}", text),
        Ok(_) => panic!("no error"),
    }
}

#[test]
fn constants_that_cannot_be_cast() {
    assert_eq!(cast_fault("\"inf\"", "int32"), ConstantFault::CastNonFinite);
    assert_eq!(cast_fault("128", "int8"), ConstantFault::CastOutOfRange);
    assert_eq!(cast_fault("-1", "uint8"), ConstantFault::CastOutOfRange);
    assert_eq!(cast_fault("1e19", "int64"), ConstantFault::CastOutOfRange);
    assert_eq!(cast_fault("0.5", "int16"), ConstantFault::CastNonInteger);
    assert_eq!(
        collected(&[full(1, "\"nan\""), step("1.cast", 1, 2, &dtype("bool"))].join(", "))
            .map(|_| ())
            .map_err(text_of),
        Err("cannot cast NaN constant to bool".to_string())
    );
}

#[test]
fn constants_may_not_come_later() {
    assert_eq!(
        collected(&[step("1.cast", 1, 2, ""), full(1, "3.0")].join(", "))
            .map(|_| ())
            .map_err(text_of),
        Err("constant folding for 1.cast saw input 1 before its constant producer at op index 1"
            .to_string())
    );
}

#[test]
fn constants_of_a_block_stay_inside() {
    let inner = full(5, "7.0");
    let c = collected(&format!(
        "{}, {{\"#\": \"1.if\", \"A\": [], \"I\": [], \"O\": [], \"regions\": [{{\"blocks\": [{{\"args\": [{{\"#\": 4, \"TT\": {{\"D\": [{{\"#\": \"0.t_i64\"}}, [1]]}}}}], \"ops\": [{}]}}]}}]}}",
        full(1, "3.0"),
        inner
    ))
    .unwrap();
    assert_eq!(constant(&c, 1), Some(vec![3.0]));
    assert_eq!(constant(&c, 5), None);
    assert_eq!(c.state.tensor_types.get(4).map(|s| s.as_str()), Some("0.t_i64"));
}

#[test]
fn multinomial_warns_or_fails() {
    let list = json(
        "[{\"#\": \"1.multinomial\", \"A\": [], \"I\": [{\"%\": 1}, {\"%\": 2}], \"O\": [{\"%\": 3}]}]",
    );
    let ops = list.as_array().unwrap();
    let mut c = Converter::new();
    c.state.constants.insert(2, vec![1.0f64.to_bits()]);
    c.convert_ops(ops).unwrap();
    assert!(c.warned_multinomial_degraded);
    let mut c = Converter::new();
    c.state.constants.insert(2, vec![1.0f64.to_bits()]);
    c.set_strict(true);
    assert_eq!(
        text_of(c.convert_ops(ops).unwrap_err()),
        "strict mode rejects deterministic multinomial -> ArgMax lowering"
    );
    assert!(!c.warned_multinomial_degraded);
}

#[test]
fn a_value_that_is_replaced_is_returned() {
    let mut c = Converter::new();
    assert_eq!(c.state.tensor_shapes.insert(1, vec![2]), None);
    let copy = c.state.tensor_shapes.duplicate();
    assert_eq!(c.state.tensor_shapes.insert(1, vec![3, 4]), Some(vec![2]));
    assert_eq!(c.state.tensor_shapes.get(1), Some(&vec![3, 4]));
    assert_eq!(copy.get(1), Some(&vec![2]));
    let meta = |size: i64| ParamMeta { onnx_dtype: None, dims: vec![size] };
    assert!(c.state.param_meta.insert("w".to_string(), meta(2)).is_none());
    assert!(c.state.param_meta.insert("v".to_string(), meta(5)).is_none());
    let copy = c.state.param_meta.duplicate();
    let previous = c.state.param_meta.insert("w".to_string(), meta(3)).unwrap();
    assert_eq!(previous.dims, [2]);
    assert_eq!(c.state.param_meta.get("w").unwrap().dims, [3]);
    assert_eq!(c.state.param_meta.get("v").unwrap().dims, [5]);
    assert_eq!(copy.get("w").unwrap().dims, [2]);
}

// ---- Checks ----

#[test]
fn validation_finds_each_fault() {
    let check = |g: &GraphProto| validate_graph(g, &NameSet::new()).map_err(text_of);
    let good = graph(&["x"], vec![node("Relu", &["x", ""], &["y"])], &["y"]);
    assert_eq!(check(&good), Ok(()));
    let twice = graph(
        &["x"],
        vec![node("Relu", &["x"], &["y"]), node("Relu", &["x"], &["y"])],
        &["y"],
    );
    assert_eq!(check(&twice), Err("tensor y is produced by more than one node".to_string()));
    let undefined = graph(&["x"], vec![node("Add", &["x", "z"], &["y"])], &["y"]);
    assert_eq!(check(&undefined), Err("node Add references undefined tensor z".to_string()));
    let open = graph(&["x"], vec![node("Relu", &["x"], &["y"])], &["q"]);
    assert_eq!(check(&open), Err("graph output q is never produced by any node".to_string()));
    let inner = graph(&[], vec![node("Neg", &["x"], &["i"])], &["i"]);
    let nested = graph(
        &["x", "c"],
        vec![node("If", &["c"], &["y"]).with(attr_graph("then_branch", inner))],
        &["y"],
    );
    assert_eq!(check(&nested), Ok(()));
}

// ---- Preparing ----

#[test]
fn sanitizing_names_and_drops() {
    let mut g = graph(&["x"], vec![node("Relu", &["x"], &["y"])], &["y"]);
    g.initializer = vec![tensor("used", &[1]), tensor("unused", &[2])];
    g.node.push(node("Add", &["y", "used"], &["z"]));
    g.output.push(value("z"));
    prune_unused_initializers(&mut g);
    assert_eq!(g.initializer.len(), 1);
    assert_eq!(g.initializer[0].name, "used");
    sanitize_graph_once(&mut g, true);
    assert_eq!(shown(&g), ["Relu(x)->y", "Add(y,used)->z"]);
}

#[test]
fn canonical_form_is_small() {
    let mut g = graph(
        &["x"],
        vec![
            node("Identity", &["x"], &["a"]),
            node("Cast", &["a"], &["b"]).with(attr_int("to", 7)),
            node("Cast", &["b"], &["c"]).with(attr_int("to", 7)),
            node("Add", &["c", "k1"], &["d"]),
            node("Add", &["d", "k2"], &["y"]),
        ],
        &["y"],
    );
    g.initializer = vec![tensor("k1", &[1, 2]), tensor("k2", &[1, 2])];
    canonicalize_graph_once(&mut g);
    prepare_graph_for_export(&mut g).unwrap();
    assert_eq!(shown(&g), ["Cast(x)->c", "Add(c,k1)->d", "Add(d,k1)->y"]);
    assert_eq!(g.initializer.len(), 1);
}

#[test]
fn cancelling_adapters_disappear() {
    let mut g = graph(
        &["x"],
        vec![
            node("Squeeze", &["x"], &["a"]).with(attr_ints("axes", &vec![0])),
            node("Unsqueeze", &["a"], &["b"]).with(attr_ints("axes", &vec![0])),
            node("Relu", &["b"], &["y"]),
        ],
        &["y"],
    );
    prepare_graph_for_export(&mut g).unwrap();
    assert_eq!(shown(&g), ["Relu(x)->y"]);
}

#[test]
fn dead_nodes_go_and_results_stay() {
    let mut g = graph(
        &["x"],
        vec![
            node("Relu", &["x"], &["y"]),
            node("Neg", &["x"], &["kept"]),
            node("Shape", &["x"], &["dead"]),
            node("Cast", &["dead"], &["deader"]).with(attr_int("to", 1)),
        ],
        &["y"],
    );
    prune_dead_nodes_all(&mut g);
    assert_eq!(shown(&g), ["Relu(x)->y", "Neg(x)->kept"]);
    assert_eq!(g.output.len(), 1);
    assert_eq!(g.output[0].name, "y");
}

#[test]
fn cleaning_up_stops_at_the_depth() {
    let mut g = graph(&["x"], vec![node("Identity", &["x"], &["a"]), node("Relu", &["a"], &["y"])], &["y"]);
    let text = "maximum ONNX subgraph cleanup depth 128 exceeded".to_string();
    assert_eq!(clean_up(Cleanup::Canonicalize, &mut g, 129).map_err(text_of), Err(text.clone()));
    assert_eq!(clean_up(Cleanup::Canonicalize, &mut g, usize::MAX).map_err(text_of), Err(text));
    assert_eq!(g.node.len(), 2);
    clean_up(Cleanup::Canonicalize, &mut g, 128).unwrap();
    assert_eq!(shown(&g), ["Relu(x)->y"]);
}

#[test]
fn an_exported_model_is_complete() {
    let mut c = Converter::new();
    c.onnx_graph = graph(&["x"], vec![node("Relu", &["x"], &["y"])], &["y"]);
    let model = c.export_onnx(13).unwrap();
    assert_eq!(model.ir_version, 8);
    assert_eq!(model.opset_import.len(), 1);
    assert_eq!(model.opset_import[0].domain, "");
    assert_eq!(model.opset_import[0].version, 13);
    assert_eq!(model.producer_name, "p2o");
    assert_eq!(shown(&model.graph.unwrap()), ["Relu(x)->y"]);
    assert!(c.graph().node.is_empty());
    c.onnx_graph = graph(&["x"], vec![node("Relu", &["z"], &["y"])], &["y"]);
    assert_eq!(
        c.export_onnx(13).map(|_| ()).map_err(text_of),
        Err("node Relu references undefined tensor z".to_string())
    );
}

#[test]
fn renaming_stops_at_what_shadows() {
    let shadowing = graph(&["a"], vec![node("Neg", &["a"], &["i"])], &["i"]);
    let capturing = graph(&["b"], vec![node("Neg", &["a"], &["i"])], &["i"]);
    let body = |g: GraphProto| node("Loop", &["x"], &["y"]).with(attr_graph("body", g));
    let mut g = graph(&["x"], vec![node("Add", &["a", "x"], &["w"]), body(shadowing)], &["y"]);
    assert!(rewrite_is_safe(&g, "a", "b"));
    replace_inputs_recursive(&mut g, "a", "b");
    assert_eq!(g.node[0].input, ["b", "x"]);
    assert_eq!(g.node[1].attribute[0].g.as_ref().unwrap().node[0].input, ["a"]);
    let g = graph(&["x"], vec![body(capturing)], &["y"]);
    assert!(!rewrite_is_safe(&g, "a", "b"));
}

#[test]
fn declared_values_have_types() {
    let c = loaded(
        "{\"#\": \"1.data\", \"A\": [{\"AT\": {\"D\": \"in\"}, \"N\": \"name\"}], \"I\": [], \"O\": [{\"%\": 1, \"TT\": {\"D\": [{\"#\": \"0.t_i64\"}, [-1, 4]]}}]}",
    )
    .unwrap();
    let input = &c.graph().input[0];
    assert_eq!(input.name, "in");
    match &input.tensor_type {
        Some(TensorType { elem_type, shape: Some(dims) }) => {
            assert_eq!(*elem_type, 7);
            assert_eq!(dims.len(), 2);
            assert!(matches!(dims[1], Dimension::Value(4)));
            assert!(!matches!(dims[0], Dimension::Value(_)));
        },
        _ => panic!("no type"),
    }
}

// ---- Source text ----

#[test]
fn tables_become_source_text() {
    let entry = |op: &str, kind: DispatchKind, method: &str, args: Option<&[&str]>| DispatchEntry {
        op: op.to_string(),
        kind,
        method: method.to_string(),
        args: args.map(strings),
    };
    assert_eq!(
        generate_pass2_dispatch(&vec![
            entry("p", DispatchKind::Noop, "", None),
            entry("1.full", DispatchKind::Typed, "op_full", None),
            entry("1.cast", DispatchKind::Simple, "op_cast", None),
            entry("1.max", DispatchKind::Arg, "op_reduce", Some(&["\"ReduceMax\"", "1"])),
        ]),
        "fn build_pass2_op_dispatch() -> HashMap<&'static str, Pass2OpHandler> {\n    HashMap::from([\n        (\"p\", pass2_noop as Pass2OpHandler),\n        typed_dispatch!(\"1.full\" => op_full),\n        simple_dispatch!(\"1.cast\" => op_cast),\n        arg_dispatch!(\"1.max\" => op_reduce(\"ReduceMax\", 1)),\n    ])\n}\n"
    );
    assert_eq!(
        generate_op_type_lookup(&vec![OpTypeEntry {
            paddle: strings(&["1.relu", "1.relu_"]),
            onnx: "Relu".to_string(),
        }]),
        "fn generated_op_type(paddle_op: &str) -> Option<&'static str> {\n    match paddle_op {\n        \"1.relu\" | \"1.relu_\" => Some(\"Relu\"),\n        _ => None,\n    }\n}\n"
    );
}
