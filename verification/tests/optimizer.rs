//! The optimizer's passes.

use p2o::converter::optimizer::options::OptimizerOptions;
use p2o::converter::optimizer::report::OptimizationReport;
use p2o::converter::optimizer::GraphOptimizer;
use p2o::dtype::{BFLOAT16, DOUBLE, FLOAT, INT64};
use p2o::error::Error;
use p2o::onnx::{
    attr_float, attr_graph, attr_int, attr_ints, AttributeProto, Dimension, GraphProto, NodeProto,
    TensorProto, TensorType, ValueInfoProto,
};

fn empty_graph() -> GraphProto {
    GraphProto::new("")
}

fn empty_node() -> NodeProto {
    NodeProto::new("", vec![], vec![])
}

fn empty_tensor() -> TensorProto {
    TensorProto::new(String::new(), vec![], 0)
}

fn optimize_for_test(graph: &mut GraphProto) -> OptimizationReport {
    GraphOptimizer::optimize_graph(graph, &OptimizerOptions::default()).expect("optimizer failed")
}

fn f32_tensor(name: &str, dims: Vec<i64>, values: &[f32]) -> TensorProto {
    let mut tensor = TensorProto {
        name: name.to_string(),
        dims,
        data_type: FLOAT,
        ..empty_tensor()
    };
    for &value in values {
        tensor.raw_data.extend_from_slice(&value.to_le_bytes());
    }
    tensor
}

fn i64_tensor(name: &str, values: &[i64]) -> TensorProto {
    let mut tensor = TensorProto {
        name: name.to_string(),
        dims: vec![values.len() as i64],
        data_type: INT64,
        ..empty_tensor()
    };
    for &value in values {
        tensor.raw_data.extend_from_slice(&value.to_le_bytes());
    }
    tensor
}

fn i64_tensor_with_dims(name: &str, dims: Vec<i64>, values: &[i64]) -> TensorProto {
    let mut tensor = TensorProto {
        name: name.to_string(),
        dims,
        data_type: INT64,
        ..empty_tensor()
    };
    for &value in values {
        tensor.raw_data.extend_from_slice(&value.to_le_bytes());
    }
    tensor
}

fn bf16_tensor(name: &str, dims: Vec<i64>) -> TensorProto {
    let elements = dims.iter().product::<i64>().max(0) as usize;
    TensorProto {
        name: name.to_string(),
        dims,
        data_type: BFLOAT16,
        raw_data: vec![0; elements * 2],
        ..empty_tensor()
    }
}

fn node(op_type: &str, inputs: &[&str], outputs: &[&str]) -> NodeProto {
    NodeProto {
        op_type: op_type.to_string(),
        input: inputs.iter().map(|name| name.to_string()).collect(),
        output: outputs.iter().map(|name| name.to_string()).collect(),
        ..empty_node()
    }
}

fn graph_output(name: &str) -> ValueInfoProto {
    ValueInfoProto { name: name.to_string(), tensor_type: None }
}

fn value_info(name: &str, dims: &[i64]) -> ValueInfoProto {
    value_info_with_dtype(name, dims, FLOAT)
}

fn value_info_with_dtype(name: &str, dims: &[i64], elem_type: i32) -> ValueInfoProto {
    ValueInfoProto {
        name: name.to_string(),
        tensor_type: Some(TensorType {
            elem_type,
            shape: Some(dims.iter().map(|&dim| Dimension::Value(dim)).collect()),
        }),
    }
}

fn raw_f32_values(tensor: &TensorProto) -> Vec<f32> {
    tensor
        .raw_data
        .chunks_exact(4)
        .map(|chunk| {
            let mut bytes = [0_u8; 4];
            bytes.copy_from_slice(chunk);
            f32::from_le_bytes(bytes)
        })
        .collect()
}

#[test]
fn optimizer_flushes_f32_subnormal_initializers() {
    let mut raw = Vec::new();
    for value in [f32::MIN_POSITIVE / 2.0, -f32::MIN_POSITIVE / 4.0, 1.0] {
        raw.extend_from_slice(&value.to_le_bytes());
    }
    let mut graph = GraphProto {
        initializer: vec![
            TensorProto {
                name: "raw".to_string(),
                dims: vec![3],
                data_type: FLOAT,
                raw_data: raw,
                ..empty_tensor()
            },
            TensorProto {
                name: "float_data".to_string(),
                dims: vec![2],
                data_type: FLOAT,
                float_data: vec![(f32::MIN_POSITIVE / 2.0).to_bits(), 2.0f32.to_bits()],
                ..empty_tensor()
            },
        ],
        ..empty_graph()
    };

    // The pass is opt-in, so enable it explicitly for this test.
    let mut options = OptimizerOptions::default();
    options.passes.flush_subnormal_initializers = true;
    let report =
        GraphOptimizer::optimize_graph(&mut graph, &options).expect("optimizer failed");

    assert!(
        report
            .pass_changes
            .iter()
            .any(|change| change.pass == "flush_subnormal_initializers")
    );
    assert_eq!(raw_f32_values(&graph.initializer[0]), vec![0.0, 0.0, 1.0]);
    assert_eq!(graph.initializer[1].float_data, vec![0.0f32.to_bits(), 2.0f32.to_bits()]);
}

#[test]
fn optimizer_fuses_constant_reshape() {
    let mut graph = GraphProto {
        initializer: vec![
            f32_tensor("data", vec![2, 3], &[1.0, 2.0, 3.0, 4.0, 5.0, 6.0]),
            i64_tensor("shape", &[3, 2]),
        ],
        node: vec![
            node("Reshape", &["data", "shape"], &["reshaped"]),
            node("Relu", &["reshaped"], &["out"]),
        ],
        output: vec![graph_output("out")],
        ..empty_graph()
    };

    let report = optimize_for_test(&mut graph);

    assert!(report.changed());
    assert_eq!(graph.node.len(), 1);
    assert_eq!(graph.node[0].op_type, "Relu");
    assert_eq!(graph.node[0].input, vec!["data"]);
    assert_eq!(graph.initializer[0].dims, vec![3, 2]);
}

#[test]
fn optimizer_fuses_shared_initializer_reshape_by_cloning() {
    let mut graph = GraphProto {
        initializer: vec![
            f32_tensor("bias", vec![2], &[1.0, 2.0]),
            i64_tensor("shape", &[1, -1, 1, 1]),
        ],
        node: vec![
            node("Reshape", &["bias", "shape"], &["bias4d_a"]),
            node("Reshape", &["bias", "shape"], &["bias4d_b"]),
            node("Add", &["x", "bias4d_a"], &["a"]),
            node("Add", &["a", "bias4d_b"], &["out"]),
        ],
        output: vec![graph_output("out")],
        ..empty_graph()
    };

    optimize_for_test(&mut graph);

    assert!(!graph.node.iter().any(|node| node.op_type == "Reshape"));
    assert!(
        graph
            .initializer
            .iter()
            .any(|tensor| tensor.name == "bias" && tensor.dims == [2])
    );
    assert!(
        graph
            .initializer
            .iter()
            .any(|tensor| tensor.name == "bias4d_a" && tensor.dims == [1, 2, 1, 1])
    );
    assert!(
        graph
            .initializer
            .iter()
            .any(|tensor| tensor.name == "bias4d_b" && tensor.dims == [1, 2, 1, 1])
    );
}

#[test]
fn optimizer_fuses_constant_unsqueeze_and_cast() {
    let mut cast = node("Cast", &["expanded"], &["casted"]);
    cast.attribute
        .push(attr_int("to", DOUBLE as i64));
    let mut graph = GraphProto {
        initializer: vec![
            f32_tensor("data", vec![2], &[1.0, 2.0]),
            i64_tensor("axes", &[0]),
        ],
        node: vec![
            node("Unsqueeze", &["data", "axes"], &["expanded"]),
            cast,
            node("Relu", &["casted"], &["out"]),
        ],
        output: vec![graph_output("out")],
        ..empty_graph()
    };

    optimize_for_test(&mut graph);

    assert_eq!(graph.node.len(), 1);
    assert_eq!(graph.node[0].input, vec!["data"]);
    assert_eq!(graph.initializer[0].dims, vec![1, 2]);
    assert_eq!(graph.initializer[0].data_type, DOUBLE);
    assert_eq!(graph.initializer[0].raw_data.len(), 16);
}

#[test]
fn optimizer_eliminates_arithmetic_identity_and_transposes() {
    let mut t1 = node("Transpose", &["x"], &["t1"]);
    t1.attribute.push(attr_ints("perm", &vec![1, 0]));
    let mut t2 = node("Transpose", &["t1"], &["t2"]);
    t2.attribute.push(attr_ints("perm", &vec![1, 0]));
    let mut identity_transpose = node("Transpose", &["t2"], &["t3"]);
    identity_transpose
        .attribute
        .push(attr_ints("perm", &vec![0, 1]));
    let mut graph = GraphProto {
        initializer: vec![i64_tensor_with_dims("zero", vec![], &[0])],
        node: vec![
            t1,
            t2,
            identity_transpose,
            node("Add", &["t3", "zero"], &["out"]),
            node("Relu", &["out"], &["final"]),
        ],
        output: vec![graph_output("final")],
        ..empty_graph()
    };

    optimize_for_test(&mut graph);

    assert_eq!(graph.node.len(), 1);
    assert_eq!(graph.node[0].op_type, "Relu");
    assert_eq!(graph.node[0].input, vec!["x"]);
}

#[test]
fn optimizer_resolves_chained_identity_rewrites() {
    let mut graph = GraphProto {
        initializer: vec![
            i64_tensor_with_dims("zero", vec![], &[0]),
            f32_tensor("one", vec![], &[1.0]),
        ],
        node: vec![
            node("Add", &["x", "zero"], &["add_out"]),
            node("Mul", &["add_out", "one"], &["mul_out"]),
            node("Relu", &["mul_out"], &["final"]),
        ],
        output: vec![graph_output("final")],
        ..empty_graph()
    };

    optimize_for_test(&mut graph);

    assert_eq!(graph.node.len(), 1);
    assert_eq!(graph.node[0].op_type, "Relu");
    assert_eq!(graph.node[0].input, vec!["x"]);
}

#[test]
fn optimizer_keeps_producer_when_resolved_rewrite_is_unsafe_for_subgraph() {
    let then_graph = GraphProto {
        input: vec![graph_output("x")],
        node: vec![node("Identity", &["b"], &["then_out"])],
        output: vec![graph_output("then_out")],
        ..empty_graph()
    };
    let mut if_node = node("If", &["cond"], &["if_out"]);
    if_node.attribute.push(AttributeProto {
        name: "then_branch".to_string(),
        g: Some(then_graph),
        ..AttributeProto::new("")
    });
    let mut graph = GraphProto {
        initializer: vec![i64_tensor_with_dims("zero", vec![], &[0])],
        node: vec![
            node("Add", &["x", "zero"], &["a"]),
            node("Add", &["a", "zero"], &["b"]),
            if_node,
        ],
        output: vec![graph_output("if_out")],
        ..empty_graph()
    };

    optimize_for_test(&mut graph);

    assert!(
        graph
            .node
            .iter()
            .any(|node| node.op_type == "Add" && node.output == vec!["b"])
    );
    let then_graph = graph
        .node
        .iter()
        .find(|node| node.op_type == "If")
        .unwrap()
        .attribute[0]
        .g
        .as_ref()
        .unwrap();
    assert_eq!(then_graph.node[0].input, vec!["b"]);
}

#[test]
fn optimizer_skips_transpose_pair_when_subgraph_shadows_replacement() {
    let mut t1 = node("Transpose", &["x"], &["t1"]);
    t1.attribute.push(attr_ints("perm", &vec![1, 0]));
    let mut t2 = node("Transpose", &["t1"], &["out"]);
    t2.attribute.push(attr_ints("perm", &vec![1, 0]));
    let then_graph = GraphProto {
        input: vec![graph_output("x")],
        node: vec![node("Identity", &["out"], &["then_out"])],
        output: vec![graph_output("then_out")],
        ..empty_graph()
    };
    let mut if_node = node("If", &["cond"], &["if_out"]);
    if_node.attribute.push(AttributeProto {
        name: "then_branch".to_string(),
        g: Some(then_graph),
        ..AttributeProto::new("")
    });
    let mut graph = GraphProto {
        node: vec![t1, t2, if_node],
        output: vec![graph_output("if_out")],
        ..empty_graph()
    };

    optimize_for_test(&mut graph);

    assert!(
        graph
            .node
            .iter()
            .any(|node| node.op_type == "Transpose" && node.output == vec!["out"])
    );
    let then_graph = graph
        .node
        .iter()
        .find(|node| node.op_type == "If")
        .unwrap()
        .attribute[0]
        .g
        .as_ref()
        .unwrap();
    assert_eq!(then_graph.node[0].input, vec!["out"]);
}

#[test]
fn optimizer_skips_rewrite_when_subgraph_shadows_target() {
    let then_graph = GraphProto {
        input: vec![graph_output("x")],
        node: vec![node("Identity", &["add_out"], &["then_out"])],
        output: vec![graph_output("then_out")],
        ..empty_graph()
    };
    let mut if_node = node("If", &["cond"], &["if_out"]);
    if_node.attribute.push(AttributeProto {
        name: "then_branch".to_string(),
        g: Some(then_graph),
        ..AttributeProto::new("")
    });
    let mut graph = GraphProto {
        initializer: vec![i64_tensor_with_dims("zero", vec![], &[0])],
        node: vec![node("Add", &["x", "zero"], &["add_out"]), if_node],
        output: vec![graph_output("if_out")],
        ..empty_graph()
    };

    optimize_for_test(&mut graph);

    assert_eq!(graph.node[0].op_type, "Add");
    let then_graph = graph.node[1].attribute[0].g.as_ref().unwrap();
    assert_eq!(then_graph.node[0].input, vec!["add_out"]);
}

#[test]
fn optimizer_does_not_use_parent_shapes_inside_subgraphs() {
    let then_graph = GraphProto {
        initializer: vec![i64_tensor("zero", &[0])],
        input: vec![graph_output("x")],
        node: vec![
            node("Add", &["x", "zero"], &["hidden"]),
            node("Relu", &["hidden"], &["then_out"]),
        ],
        output: vec![graph_output("then_out")],
        ..empty_graph()
    };
    let mut if_node = node("If", &["cond"], &["if_out"]);
    if_node.attribute.push(AttributeProto {
        name: "then_branch".to_string(),
        g: Some(then_graph),
        ..AttributeProto::new("")
    });
    let mut graph = GraphProto {
        node: vec![if_node],
        output: vec![graph_output("if_out")],
        ..empty_graph()
    };
    let mut options = OptimizerOptions::default();
    options.shapes.insert("x".to_string(), vec![1]);

    GraphOptimizer::optimize_graph(&mut graph, &options).expect("optimizer failed");

    let then_graph = graph.node[0].attribute[0].g.as_ref().unwrap();
    assert!(
        then_graph
            .node
            .iter()
            .any(|node| node.op_type == "Add" && node.output == vec!["hidden"])
    );
}

#[test]
fn optimizer_fuses_conv_add_bias() {
    let mut graph = GraphProto {
        initializer: vec![
            f32_tensor("weight", vec![2, 1, 1, 1], &[1.0, 2.0]),
            f32_tensor("bias4d", vec![1, 2, 1, 1], &[0.5, -1.0]),
        ],
        node: vec![
            node("Conv", &["x", "weight"], &["conv_out"]),
            node("Add", &["conv_out", "bias4d"], &["out"]),
        ],
        output: vec![graph_output("out")],
        ..empty_graph()
    };

    optimize_for_test(&mut graph);

    assert_eq!(graph.node.len(), 1);
    assert_eq!(graph.node[0].op_type, "Conv");
    assert_eq!(graph.node[0].input, vec!["x", "weight", "bias4d"]);
    assert_eq!(graph.node[0].output, vec!["out"]);
    assert_eq!(graph.initializer[1].dims, vec![2]);
}

#[test]
fn optimizer_materializes_conv_kernel_shape() {
    let mut graph = GraphProto {
        initializer: vec![f32_tensor(
            "weight",
            vec![8, 3, 3, 5],
            &[0.0; 8 * 3 * 3 * 5],
        )],
        node: vec![node("Conv", &["x", "weight"], &["out"])],
        output: vec![graph_output("out")],
        ..empty_graph()
    };

    optimize_for_test(&mut graph);

    let kernel_shape = graph.node[0]
        .attribute
        .iter()
        .find(|attr| attr.name == "kernel_shape")
        .unwrap();
    assert_eq!(kernel_shape.ints, vec![3, 5]);
}

#[test]
fn optimizer_folds_conv_batch_norm() {
    let mut bn = node(
        "BatchNormalization",
        &["conv_out", "scale", "beta", "mean", "var"],
        &["out"],
    );
    bn.attribute.push(attr_float("epsilon", 0.0f32.to_bits()));
    let mut graph = GraphProto {
        initializer: vec![
            f32_tensor("weight", vec![2, 1, 1, 1], &[2.0, 4.0]),
            f32_tensor("scale", vec![2], &[2.0, 4.0]),
            f32_tensor("beta", vec![2], &[0.5, -1.0]),
            f32_tensor("mean", vec![2], &[1.0, 2.0]),
            f32_tensor("var", vec![2], &[1.0, 4.0]),
        ],
        node: vec![node("Conv", &["x", "weight"], &["conv_out"]), bn],
        output: vec![graph_output("out")],
        ..empty_graph()
    };

    optimize_for_test(&mut graph);

    assert_eq!(graph.node.len(), 1);
    assert_eq!(graph.node[0].op_type, "Conv");
    assert_eq!(graph.node[0].output, vec!["out"]);
    assert_eq!(graph.node[0].input.len(), 3);
    assert_eq!(raw_f32_values(&graph.initializer[0]), vec![4.0, 8.0]);
    let bias_name = &graph.node[0].input[2];
    let bias = graph
        .initializer
        .iter()
        .find(|tensor| &tensor.name == bias_name)
        .unwrap();
    assert_eq!(raw_f32_values(bias), vec![-1.5, -5.0]);
}

#[test]
fn optimizer_fuses_matmul_add_to_gemm() {
    let mut graph = GraphProto {
        initializer: vec![f32_tensor("bias", vec![3], &[1.0, 2.0, 3.0])],
        input: vec![value_info("x", &[2, 4]), value_info("w", &[4, 3])],
        node: vec![
            node("MatMul", &["x", "w"], &["mm"]),
            node("Add", &["mm", "bias"], &["out"]),
        ],
        output: vec![graph_output("out")],
        ..empty_graph()
    };

    optimize_for_test(&mut graph);

    assert_eq!(graph.node.len(), 1);
    assert_eq!(graph.node[0].op_type, "Gemm");
    assert_eq!(graph.node[0].input, vec!["x", "w", "bias"]);
    assert_eq!(graph.node[0].output, vec!["out"]);
}

#[test]
fn optimizer_does_not_fuse_integer_matmul_add_to_gemm() {
    let mut graph = GraphProto {
        initializer: vec![i64_tensor_with_dims("bias", vec![3], &[1, 2, 3])],
        input: vec![
            value_info_with_dtype("x", &[2, 4], INT64),
            value_info_with_dtype("w", &[4, 3], INT64),
        ],
        node: vec![
            node("MatMul", &["x", "w"], &["mm"]),
            node("Add", &["mm", "bias"], &["out"]),
        ],
        output: vec![graph_output("out")],
        ..empty_graph()
    };

    optimize_for_test(&mut graph);

    assert_eq!(graph.node.len(), 2);
    assert_eq!(graph.node[0].op_type, "MatMul");
    assert_eq!(graph.node[1].op_type, "Add");
}

#[test]
fn optimizer_does_not_fuse_bfloat16_matmul_add_to_gemm_before_opset_13() {
    let mut graph = GraphProto {
        initializer: vec![bf16_tensor("bias", vec![3])],
        input: vec![
            value_info_with_dtype("x", &[2, 4], BFLOAT16),
            value_info_with_dtype("w", &[4, 3], BFLOAT16),
        ],
        node: vec![
            node("MatMul", &["x", "w"], &["mm"]),
            node("Add", &["mm", "bias"], &["out"]),
        ],
        output: vec![graph_output("out")],
        ..empty_graph()
    };
    let options = OptimizerOptions {
        target_opset: 12,
        ..Default::default()
    };

    GraphOptimizer::optimize_graph(&mut graph, &options).expect("optimizer failed");

    assert_eq!(graph.node.len(), 2);
    assert_eq!(graph.node[0].op_type, "MatMul");
    assert_eq!(graph.node[1].op_type, "Add");
}

#[test]
fn optimizer_fuses_bfloat16_matmul_add_to_gemm_at_opset_13() {
    let mut graph = GraphProto {
        initializer: vec![bf16_tensor("bias", vec![3])],
        input: vec![
            value_info_with_dtype("x", &[2, 4], BFLOAT16),
            value_info_with_dtype("w", &[4, 3], BFLOAT16),
        ],
        node: vec![
            node("MatMul", &["x", "w"], &["mm"]),
            node("Add", &["mm", "bias"], &["out"]),
        ],
        output: vec![graph_output("out")],
        ..empty_graph()
    };
    let options = OptimizerOptions {
        target_opset: 13,
        ..Default::default()
    };

    GraphOptimizer::optimize_graph(&mut graph, &options).expect("optimizer failed");

    assert_eq!(graph.node.len(), 1);
    assert_eq!(graph.node[0].op_type, "Gemm");
}

#[test]
fn optimizer_does_not_fuse_matmul_add_with_rank_expanding_bias() {
    // Bias [2, 1, 3] makes the original Add broadcast to rank-3 [2, 2, 3];
    // a Gemm could only emit rank-2 [2, 3], so fusion must be declined.
    let mut graph = GraphProto {
        initializer: vec![f32_tensor("bias", vec![2, 1, 3], &[0.0; 6])],
        input: vec![value_info("x", &[2, 4]), value_info("w", &[4, 3])],
        node: vec![
            node("MatMul", &["x", "w"], &["mm"]),
            node("Add", &["mm", "bias"], &["out"]),
        ],
        output: vec![graph_output("out")],
        ..empty_graph()
    };

    optimize_for_test(&mut graph);

    assert_eq!(graph.node.len(), 2);
    assert_eq!(graph.node[0].op_type, "MatMul");
    assert_eq!(graph.node[1].op_type, "Add");
}

#[test]
fn optimizer_keeps_identity_add_when_const_rank_exceeds_passthrough() {
    // x is rank-1 [4]; a numel-1 const of rank 2 [1, 1] broadcasts the Add
    // output to rank-2 [1, 4], so the Add must not be eliminated.
    let mut graph = GraphProto {
        initializer: vec![i64_tensor_with_dims("zero", vec![1, 1], &[0])],
        input: vec![value_info("x", &[4])],
        node: vec![
            node("Add", &["x", "zero"], &["out"]),
            node("Relu", &["out"], &["final"]),
        ],
        output: vec![graph_output("final")],
        ..empty_graph()
    };

    optimize_for_test(&mut graph);

    assert!(graph.node.iter().any(|node| node.op_type == "Add"));
}

#[test]
fn optimizer_keeps_float_add_positive_zero_to_preserve_signed_zero() {
    // `x + (+0.0)` is not semantics-preserving for floats: `-0.0 + 0.0` is `+0.0`,
    // but forwarding `x` keeps `-0.0`, which a downstream Reciprocal turns into
    // `-inf`. The float Add-positive-zero identity must be left intact.
    let mut graph = GraphProto {
        initializer: vec![f32_tensor("zero", vec![], &[0.0])],
        input: vec![value_info("x", &[4])],
        node: vec![
            node("Add", &["x", "zero"], &["out"]),
            node("Reciprocal", &["out"], &["final"]),
        ],
        output: vec![graph_output("final")],
        ..empty_graph()
    };

    optimize_for_test(&mut graph);

    assert!(
        graph
            .node
            .iter()
            .any(|node| node.op_type == "Add" && node.output == vec!["out"])
    );
}

#[test]
fn optimizer_eliminates_float_add_negative_zero() {
    // `-0.0` is the genuine IEEE-754 additive identity: `x + (-0.0) == x` for all
    // x, so folding it away is always safe even for floating types.
    let mut graph = GraphProto {
        initializer: vec![f32_tensor("neg_zero", vec![], &[-0.0])],
        input: vec![value_info("x", &[4])],
        node: vec![
            node("Add", &["x", "neg_zero"], &["out"]),
            node("Reciprocal", &["out"], &["final"]),
        ],
        output: vec![graph_output("final")],
        ..empty_graph()
    };

    optimize_for_test(&mut graph);

    assert_eq!(graph.node.len(), 1);
    assert_eq!(graph.node[0].op_type, "Reciprocal");
    assert_eq!(graph.node[0].input, vec!["x"]);
}

#[test]
fn optimizer_still_eliminates_float_mul_one() {
    // The signed-zero guard only applies to Add; `x * 1.0` stays foldable for
    // floating types.
    let mut graph = GraphProto {
        initializer: vec![f32_tensor("one", vec![], &[1.0])],
        input: vec![value_info("x", &[4])],
        node: vec![
            node("Mul", &["x", "one"], &["out"]),
            node("Relu", &["out"], &["final"]),
        ],
        output: vec![graph_output("final")],
        ..empty_graph()
    };

    optimize_for_test(&mut graph);

    assert_eq!(graph.node.len(), 1);
    assert_eq!(graph.node[0].op_type, "Relu");
    assert_eq!(graph.node[0].input, vec!["x"]);
}

#[test]
fn optimizer_does_not_fuse_conv_add_1d_bias_on_spatial_output() {
    // conv_out is rank-4 [1, 2, 3, 3]; a 1-D [2] addend broadcasts to the
    // width axis under ONNX rules, not the channel axis, so it must not be
    // fused as a Conv channel bias.
    let mut graph = GraphProto {
        initializer: vec![
            f32_tensor("weight", vec![2, 1, 1, 1], &[1.0, 2.0]),
            f32_tensor("bias", vec![2], &[0.5, -1.0]),
        ],
        node: vec![
            node("Conv", &["x", "weight"], &["conv_out"]),
            node("Add", &["conv_out", "bias"], &["out"]),
        ],
        value_info: vec![value_info("conv_out", &[1, 2, 3, 3])],
        output: vec![graph_output("out")],
        ..empty_graph()
    };

    optimize_for_test(&mut graph);

    assert!(graph.node.iter().any(|node| node.op_type == "Add"));
    assert_eq!(
        graph
            .node
            .iter()
            .find(|n| n.op_type == "Conv")
            .unwrap()
            .input
            .len(),
        2
    );
}

#[test]
fn optimizer_does_not_fuse_batched_matmul_add_to_gemm() {
    let mut graph = GraphProto {
        initializer: vec![f32_tensor("bias", vec![3], &[1.0, 2.0, 3.0])],
        input: vec![value_info("x", &[1, 2, 4]), value_info("w", &[4, 3])],
        node: vec![
            node("MatMul", &["x", "w"], &["mm"]),
            node("Add", &["mm", "bias"], &["out"]),
        ],
        output: vec![graph_output("out")],
        ..empty_graph()
    };

    optimize_for_test(&mut graph);

    assert_eq!(graph.node.len(), 2);
    assert_eq!(graph.node[0].op_type, "MatMul");
    assert_eq!(graph.node[1].op_type, "Add");
}

// ---- What holds of every run ----

/// A graph with something for several passes to do, and two rounds of it.
fn busy_graph() -> GraphProto {
    let mut graph = empty_graph();
    graph.input.push(value_info("x", &[1, 2]));
    graph.initializer.push(f32_tensor("c", vec![2], &[1.0, 1e-45]));
    graph.initializer.push(i64_tensor("shape", &[1, 2]));
    graph.initializer.push(f32_tensor("one", vec![], &[1.0]));
    graph.node.push(node("Reshape", &["c", "shape"], &["wide"]));
    graph.node.push(node("Mul", &["x", "one"], &["same"]));
    let mut first = node("Transpose", &["same"], &["t"]);
    first.attribute.push(attr_ints("perm", &vec![1, 0]));
    let mut second = node("Transpose", &["t"], &["back"]);
    second.attribute.push(attr_ints("perm", &vec![1, 0]));
    graph.node.push(first);
    graph.node.push(second);
    graph.node.push(node("Sub", &["back", "wide"], &["y"]));
    graph.output.push(graph_output("y"));
    graph
}

#[test]
fn a_second_run_changes_nothing() {
    let mut graph = busy_graph();
    let first = optimize_for_test(&mut graph);
    assert!(first.changed());
    assert!(first.iterations < OptimizerOptions::default().max_iterations);
    assert_eq!(graph.node.len(), 1);
    assert_eq!(graph.node[0].input, ["x", "c"]);
    let mut once = busy_graph();
    optimize_for_test(&mut once);
    let second = optimize_for_test(&mut graph);
    assert_eq!(graph, once);
    assert!(second.pass_changes.is_empty());
    assert!(!second.changed());
    assert_eq!(second.nodes_before, first.nodes_after);
    assert_eq!(second.nodes_after, first.nodes_after);
}

#[test]
fn names_of_results_and_constants_stay() {
    let mut graph = busy_graph();
    optimize_for_test(&mut graph);
    assert!(graph.node.iter().any(|n| n.output.contains(&"y".to_string())));
    for name in ["c", "shape", "one"] {
        assert!(graph.initializer.iter().any(|t| t.name == name));
    }
}

#[test]
fn a_report_counts_nested_graphs() {
    let mut graph = empty_graph();
    let mut branch = node("If", &["cond"], &["z"]);
    branch.attribute.push(attr_graph("then_branch", busy_graph()));
    branch.attribute.push(attr_graph("else_branch", busy_graph()));
    graph.node.push(branch);
    graph.node.push(node("Relu", &["z"], &["out"]));
    graph.initializer.push(f32_tensor("k", vec![], &[2.0]));
    graph.output.push(graph_output("out"));
    let report = optimize_for_test(&mut graph);
    assert_eq!(report.nodes_before, 12);
    assert_eq!(report.nodes_after, 4);
    assert_eq!(report.initializers_before, 7);
    assert_eq!(report.initializers_after, 7);
}

#[test]
fn only_depth_is_refused() {
    let nest = |levels: usize| {
        let mut graph = empty_graph();
        for _ in 0..levels {
            let mut outer = empty_graph();
            let mut holder = empty_node();
            holder.attribute.push(attr_graph("body", graph));
            outer.node.push(holder);
            graph = outer;
        }
        graph
    };
    let run = |levels: usize| {
        GraphOptimizer::optimize_graph(&mut nest(levels), &OptimizerOptions::default())
    };
    assert!(run(128).is_ok());
    assert_eq!(
        run(129),
        Err(Error::Message("maximum ONNX subgraph optimizer depth 128 exceeded".to_string()))
    );
}
