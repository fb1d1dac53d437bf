//! The lowering of single operators.

use p2o::converter::state::Converter;
use p2o::document::parse;
use p2o::error::{ConstantFault, Error};
use p2o::json::Json;
use p2o::onnx::{AttributeProto, GraphProto, TensorProto};

fn json(text: &str) -> Json {
    parse(&text.as_bytes().to_vec()).unwrap()
}

/// An operator with inputs, listed outputs and attributes.
fn op(kind: &str, inputs: &[i64], outputs: &[i64], attrs: &str) -> Json {
    let list = |ids: &[i64]| {
        ids.iter().map(|id| format!("{{\"%\": {}}}", id)).collect::<Vec<_>>().join(", ")
    };
    json(&format!(
        "{{\"#\": \"{}\", \"I\": [{}], \"O\": [{}], \"A\": [{}]}}",
        kind,
        list(inputs),
        list(outputs),
        attrs
    ))
}

fn attr(name: &str, kind: &str, data: &str) -> String {
    format!("{{\"N\": \"{}\", \"AT\": {{\"#\": \"{}\", \"D\": {}}}}}", name, kind, data)
}

fn ints(values: &[i64]) -> String {
    let items = values
        .iter()
        .map(|v| format!("{{\"#\": \"0.a_i64\", \"D\": {}}}", v))
        .collect::<Vec<_>>()
        .join(", ");
    format!("[{}]", items)
}

fn with_opset(opset: i64) -> Converter {
    let mut converter = Converter::new();
    converter.set_target_opset(opset);
    converter
}

fn shape(converter: &mut Converter, id: i64, dims: &[i64]) {
    converter.state.tensor_shapes.insert(id, dims.to_vec());
}

fn elem(converter: &mut Converter, id: i64, name: &str) {
    converter.state.tensor_types.insert(id, name.to_string());
}

fn constant(converter: &mut Converter, id: i64, values: &[f64]) {
    converter.state.constants.insert(id, values.iter().map(|v| v.to_bits()).collect());
}

fn show_attribute(a: &AttributeProto) -> String {
    match a.kind {
        1 => format!("{}={:?}f", a.name, f32::from_bits(a.f)),
        2 => format!("{}={}", a.name, a.i),
        3 => format!("{}={}", a.name, String::from_utf8(a.s.clone()).unwrap()),
        5 => format!("{}=<graph>", a.name),
        6 => format!(
            "{}={:?}f",
            a.name,
            a.floats.iter().map(|b| f32::from_bits(*b)).collect::<Vec<_>>()
        ),
        7 => format!("{}={:?}", a.name, a.ints),
        8 => format!(
            "{}={:?}",
            a.name,
            a.strings.iter().map(|s| String::from_utf8(s.clone()).unwrap()).collect::<Vec<_>>()
        ),
        other => format!("{}:{}", a.name, other),
    }
}

fn nodes(graph: &GraphProto) -> Vec<String> {
    graph
        .node
        .iter()
        .map(|n| {
            let attrs = n.attribute.iter().map(show_attribute).collect::<Vec<_>>().join(" ");
            let head = format!("{}({})->{}", n.op_type, n.input.join(","), n.output.join(","));
            if attrs.is_empty() {
                head
            } else {
                format!("{} {}", head, attrs)
            }
        })
        .collect()
}

fn words(t: &TensorProto, size: usize) -> Vec<u64> {
    t.raw_data
        .chunks(size)
        .map(|c| c.iter().rev().fold(0u64, |acc, b| acc << 8 | *b as u64))
        .collect()
}

fn show_tensor(t: &TensorProto) -> String {
    let values = match t.data_type {
        1 => format!(
            "{:?}",
            words(t, 4).iter().map(|w| f32::from_bits(*w as u32)).collect::<Vec<_>>()
        ),
        11 => format!("{:?}", words(t, 8).iter().map(|w| f64::from_bits(*w)).collect::<Vec<_>>()),
        7 => format!("{:?}", words(t, 8).iter().map(|w| *w as i64).collect::<Vec<_>>()),
        6 => format!("{:?}", words(t, 4).iter().map(|w| *w as u32 as i32).collect::<Vec<_>>()),
        3 => format!("{:?}", words(t, 1).iter().map(|w| *w as u8 as i8).collect::<Vec<_>>()),
        _ => format!("{:?}", t.raw_data),
    };
    format!("{}:{}{:?}={}", t.name, t.data_type, t.dims, values)
}

fn tensors(graph: &GraphProto) -> Vec<String> {
    graph.initializer.iter().map(show_tensor).collect()
}

fn run(converter: &mut Converter, kind: &str, inputs: &[i64], outputs: &[i64], attrs: &str) -> Result<(), Error> {
    converter.process_pass2_op(kind, &op(kind, inputs, outputs, attrs))
}

fn message(result: Result<(), Error>) -> String {
    match result.unwrap_err() {
        Error::Message(text) => text,
        other => panic!("{:?}", other),
    }
}

// ---- Arithmetic ----

#[test]
fn multiply_of_truth_values_is_a_conjunction() {
    let mut c = with_opset(17);
    run(&mut c, "1.multiply", &[1, 2], &[3], "").unwrap();
    elem(&mut c, 1, "0.t_bool");
    run(&mut c, "1.multiply", &[1, 2], &[4], "").unwrap();
    elem(&mut c, 2, "0.t_bool");
    run(&mut c, "1.multiply", &[1, 2], &[5], "").unwrap();
    assert_eq!(
        nodes(c.graph()),
        [
            "Mul(tensor_1,tensor_2)->tensor_3",
            "Mul(tensor_1,tensor_2)->tensor_4",
            "And(tensor_1,tensor_2)->tensor_5"
        ]
    );
    assert_eq!(message(run(&mut c, "1.multiply", &[1], &[3], "")), "multiply missing inputs");
    assert_eq!(message(run(&mut c, "1.multiply", &[1, 2], &[], "")), "operator has no output id");
    assert_eq!(message(run(&mut c, "1.multiply", &[-1, 2], &[3], "")), "Undefined value id -1");
    assert_eq!(c.graph().node.len(), 3);
}

#[test]
fn matmul_transposes_matrices_only() {
    let mut c = with_opset(17);
    shape(&mut c, 1, &[2, 3, 4]);
    shape(&mut c, 2, &[4]);
    let attrs = format!(
        "{}, {}",
        attr("transpose_x", "0.a_bool", "true"),
        attr("transpose_y", "0.a_bool", "true")
    );
    run(&mut c, "1.matmul", &[1, 2], &[9], &attrs).unwrap();
    assert_eq!(
        nodes(c.graph()),
        [
            "Transpose(tensor_1)->matmul_transpose_x_9 perm=[0, 2, 1]",
            "MatMul(matmul_transpose_x_9,tensor_2)->tensor_9"
        ]
    );
}

#[test]
fn scale_by_attributes_saturates_integers() {
    let mut c = with_opset(17);
    elem(&mut c, 9, "0.t_i8");
    let attrs = format!(
        "{}, {}",
        attr("scale", "0.a_f32", "300.7"),
        attr("bias", "0.a_f32", "-1.5")
    );
    run(&mut c, "1.scale", &[1], &[9], &attrs).unwrap();
    assert_eq!(tensors(c.graph()), ["scale_factor_9:3[1]=[127]", "scale_bias_9:3[1]=[-1]"]);
    assert_eq!(
        nodes(c.graph()),
        ["Mul(tensor_1,scale_factor_9)->scale_mul_9", "Add(scale_mul_9,scale_bias_9)->tensor_9"]
    );
}

#[test]
fn scale_bias_first_and_scalar() {
    let mut c = with_opset(17);
    shape(&mut c, 9, &[]);
    let attrs = format!(
        "{}, {}, {}",
        attr("scale", "0.a_f32", "2.0"),
        attr("bias", "0.a_f32", "0.5"),
        attr("bias_after_scale", "0.a_bool", "false")
    );
    run(&mut c, "1.scale", &[1], &[9], &attrs).unwrap();
    assert_eq!(tensors(c.graph()), ["scale_factor_9:1[]=[2.0]", "scale_bias_9:1[]=[0.5]"]);
    assert_eq!(
        nodes(c.graph()),
        ["Add(tensor_1,scale_bias_9)->scale_add_9", "Mul(scale_add_9,scale_factor_9)->tensor_9"]
    );
    elem(&mut c, 8, "0.t_bool");
    assert_eq!(
        message(run(&mut c, "1.scale", &[1], &[8], "")),
        "scale attr lowering does not support target dtype bool"
    );
}

#[test]
fn scale_by_an_input() {
    let mut c = with_opset(17);
    elem(&mut c, 9, "0.t_i64");
    elem(&mut c, 2, "0.t_f32");
    shape(&mut c, 9, &[]);
    shape(&mut c, 2, &[1]);
    run(&mut c, "1.scale", &[1, 2], &[9], "").unwrap();
    assert_eq!(
        nodes(c.graph()),
        [
            "Cast(tensor_2)->scale_input_cast_9 to=7",
            "Squeeze(scale_input_cast_9,scale_input_squeeze_axes_9)->scale_input_squeezed_9",
            "Mul(tensor_1,scale_input_squeezed_9)->scale_mul_9",
            "Add(scale_mul_9,scale_bias_9)->tensor_9"
        ]
    );
}

#[test]
fn activations() {
    let mut c = with_opset(13);
    run(&mut c, "1.swish", &[1], &[2], "").unwrap();
    run(&mut c, "1.silu", &[1], &[3], "").unwrap();
    run(&mut c, "1.hardswish", &[1], &[4], "").unwrap();
    run(&mut c, "1.leaky_relu", &[1], &[5], "").unwrap();
    run(&mut c, "1.leaky_relu", &[1], &[6], &attr("negative_slope", "0.a_str", "\"0.25\"")).unwrap();
    assert_eq!(
        nodes(c.graph()),
        [
            "Sigmoid(tensor_1)->swish_sigmoid_2".to_string(),
            "Mul(tensor_1,swish_sigmoid_2)->tensor_2".to_string(),
            "Sigmoid(tensor_1)->swish_sigmoid_3".to_string(),
            "Mul(tensor_1,swish_sigmoid_3)->tensor_3".to_string(),
            format!(
                "HardSigmoid(tensor_1)->hardswish_hardsigmoid_4 alpha={:?}f beta=0.5f",
                1.0f32 / 6.0
            ),
            "Mul(tensor_1,hardswish_hardsigmoid_4)->tensor_4".to_string(),
            "LeakyRelu(tensor_1)->tensor_5 alpha=0.01f".to_string(),
            "LeakyRelu(tensor_1)->tensor_6 alpha=0.25f".to_string(),
        ]
    );
    let mut c = with_opset(14);
    run(&mut c, "1.hardswish", &[1], &[4], "").unwrap();
    assert_eq!(nodes(c.graph()), ["HardSwish(tensor_1)->tensor_4"]);
}

#[test]
fn gelu_exactly_and_by_tanh() {
    let mut c = with_opset(17);
    run(&mut c, "1.gelu", &[1], &[2], "").unwrap();
    assert_eq!(
        nodes(c.graph()),
        [
            "Div(tensor_1,gelu_sqrt2_2)->gelu_div_2",
            "Erf(gelu_div_2)->gelu_erf_2",
            "Add(gelu_erf_2,gelu_one_2)->gelu_add_2",
            "Mul(tensor_1,gelu_half_2)->gelu_mul_half_2",
            "Mul(gelu_mul_half_2,gelu_add_2)->tensor_2"
        ]
    );
    assert_eq!(
        tensors(c.graph()),
        [
            format!("gelu_sqrt2_2:1[1]=[{:?}]", std::f32::consts::SQRT_2),
            "gelu_half_2:1[1]=[0.5]".to_string(),
            "gelu_one_2:1[1]=[1.0]".to_string()
        ]
    );
    let mut c = with_opset(17);
    run(&mut c, "1.gelu", &[1], &[2], &attr("approximate", "0.a_str", "\"tanh\"")).unwrap();
    assert_eq!(
        tensors(c.graph()),
        [
            "gelu_half_2:1[1]=[0.5]",
            "gelu_one_2:1[1]=[1.0]",
            "gelu_coeff_2:1[1]=[0.044715]",
            "gelu_sqrt_2_over_pi_2:1[1]=[0.7978846]"
        ]
    );
    assert_eq!(c.graph().node.len(), 9);
    assert_eq!(nodes(c.graph())[5], "Tanh(gelu_scaled_inner_2)->gelu_tanh_2");
}

#[test]
fn prelu_reshapes_slopes_for_channels_last() {
    let mut c = with_opset(17);
    shape(&mut c, 1, &[1, 8, 8, 3]);
    shape(&mut c, 2, &[3]);
    run(&mut c, "1.prelu", &[1, 2], &[9], &attr("data_format", "0.a_str", "\"NHWC\"")).unwrap();
    assert_eq!(tensors(c.graph()), ["prelu_slope_shape_9:7[4]=[1, 1, 1, 3]"]);
    assert_eq!(
        nodes(c.graph()),
        [
            "Reshape(tensor_2,prelu_slope_shape_9)->prelu_slope_reshaped_9",
            "PRelu(tensor_1,prelu_slope_reshaped_9)->tensor_9"
        ]
    );
    let attrs = format!(
        "{}, {}",
        attr("data_format", "0.a_str", "\"NHWC\""),
        attr("mode", "0.a_str", "\"element\"")
    );
    assert_eq!(
        message(run(&mut c, "1.prelu", &[1, 2], &[9], &attrs)),
        "prelu mode=element only supports NCHW-style layouts"
    );
}

#[test]
fn floor_divide_of_integers_and_others() {
    let mut c = with_opset(17);
    elem(&mut c, 1, "0.t_i32");
    elem(&mut c, 2, "0.t_i32");
    run(&mut c, "1.floor_divide", &[1, 2], &[9], "").unwrap();
    assert_eq!(
        nodes(c.graph()),
        [
            "Div(tensor_1,tensor_2)->floor_divide_div_9",
            "Mod(tensor_1,tensor_2)->floor_divide_mod_9 fmod=0",
            "Less(tensor_1,floor_divide_zero_9)->floor_divide_lhs_negative_9",
            "Less(tensor_2,floor_divide_zero_9)->floor_divide_rhs_negative_9",
            "Xor(floor_divide_lhs_negative_9,floor_divide_rhs_negative_9)->floor_divide_signs_differ_9",
            "Equal(floor_divide_mod_9,floor_divide_zero_9)->floor_divide_remainder_zero_9",
            "Not(floor_divide_remainder_zero_9)->floor_divide_remainder_nonzero_9",
            "And(floor_divide_signs_differ_9,floor_divide_remainder_nonzero_9)->floor_divide_needs_adjust_9",
            "Cast(floor_divide_needs_adjust_9)->floor_divide_adjust_i64_9 to=7",
            "Mul(floor_divide_adjust_i64_9,floor_divide_one_9)->floor_divide_adjust_9",
            "Sub(floor_divide_div_9,floor_divide_adjust_9)->tensor_9"
        ]
    );
    assert_eq!(tensors(c.graph()), ["floor_divide_zero_9:7[]=[0]", "floor_divide_one_9:7[]=[1]"]);
    let mut c = with_opset(17);
    elem(&mut c, 1, "0.t_f32");
    elem(&mut c, 2, "0.t_i32");
    run(&mut c, "1.floor_divide", &[1, 2], &[9], "").unwrap();
    assert_eq!(
        nodes(c.graph()),
        [
            "Cast(tensor_1)->floor_divide_a_9 to=1",
            "Cast(tensor_2)->floor_divide_b_9 to=1",
            "Div(floor_divide_a_9,floor_divide_b_9)->floor_divide_div_9",
            "Floor(floor_divide_div_9)->floor_divide_floor_9",
            "Cast(floor_divide_floor_9)->tensor_9 to=7"
        ]
    );
    assert_eq!(
        message(run(&mut c, "1.floor_divide", &[1, 3], &[9], "")),
        "missing dtype metadata for tensor 3"
    );
    elem(&mut c, 3, "0.t_c64");
    assert_eq!(
        message(run(&mut c, "1.floor_divide", &[1, 3], &[9], "")),
        "Unsupported Paddle element type: 0.t_c64"
    );
}

#[test]
fn grid_sample_renames_modes() {
    let attrs = format!(
        "{}, {}, {}",
        attr("mode", "0.a_str", "\"bilinear\""),
        attr("padding_mode", "0.a_str", "\"zeros\""),
        attr("align_corners", "0.a_bool", "true")
    );
    let mut c = with_opset(16);
    run(&mut c, "1.grid_sample", &[1, 2], &[9], &attrs).unwrap();
    assert_eq!(
        nodes(c.graph()),
        ["GridSample(tensor_1,tensor_2)->tensor_9 mode=bilinear padding_mode=zeros align_corners=1"]
    );
    let mut c = with_opset(20);
    run(&mut c, "1.grid_sample", &[1, 2], &[9], &attrs).unwrap();
    assert_eq!(
        nodes(c.graph()),
        ["GridSample(tensor_1,tensor_2)->tensor_9 mode=linear padding_mode=zeros align_corners=1"]
    );
    let mut c = with_opset(15);
    assert_eq!(
        message(run(&mut c, "1.grid_sample", &[1, 2], &[9], &attrs)),
        "grid_sample requires opset >= 16, but target opset is 15"
    );
}

#[test]
fn triangles_and_powers() {
    let mut c = with_opset(17);
    run(&mut c, "1.triu", &[1], &[2], &attr("diagonal", "0.a_i32", "1")).unwrap();
    run(&mut c, "1.tril", &[1], &[3], "").unwrap();
    run(&mut c, "1.pow", &[1], &[4], &attr("y", "0.a_f32", "2.0")).unwrap();
    run(&mut c, "1.pow", &[1, 2], &[5], "").unwrap();
    assert_eq!(
        nodes(c.graph()),
        [
            "Trilu(tensor_1,trilu_k_2)->tensor_2 upper=1",
            "Trilu(tensor_1,trilu_k_3)->tensor_3 upper=0",
            "Pow(tensor_1,pow_exponent_4)->tensor_4",
            "Pow(tensor_1,tensor_2)->tensor_5"
        ]
    );
    assert_eq!(
        tensors(c.graph()),
        ["trilu_k_2:7[1]=[1]", "trilu_k_3:7[1]=[0]", "pow_exponent_4:1[]=[2.0]"]
    );
    assert_eq!(message(run(&mut c, "1.pow", &[1], &[6], "")), "pow: missing exponent");
    elem(&mut c, 1, "0.t_i32");
    assert_eq!(
        run(&mut c, "1.pow", &[1], &[6], &attr("y", "0.a_f32", "0.5")),
        Err(Error::Constant {
            fault: ConstantFault::EncodeNonInteger,
            bits: 0.5f64.to_bits(),
            dtype: "int32".to_string()
        })
    );
    let mut c = with_opset(13);
    assert_eq!(
        message(run(&mut c, "1.tril", &[1], &[3], "")),
        "tril requires opset >= 14, but target opset is 13"
    );
}

#[test]
fn linear_with_and_without_bias() {
    let mut c = with_opset(17);
    run(&mut c, "1.linear_v2", &[1, 2, 3], &[9], "").unwrap();
    run(&mut c, "1.linear_v2", &[1, 2, 0], &[8], "").unwrap();
    assert_eq!(
        nodes(c.graph()),
        [
            "MatMul(tensor_1,tensor_2)->linear_mm_9",
            "Add(linear_mm_9,tensor_3)->tensor_9",
            "MatMul(tensor_1,tensor_2)->tensor_8"
        ]
    );
}

#[test]
fn multinomial_is_lowered_or_refused() {
    let mut c = with_opset(17);
    assert_eq!(
        message(run(&mut c, "1.multinomial", &[1, 2], &[9], "")),
        "multinomial requires constant sample size"
    );
    constant(&mut c, 2, &[0.0]);
    assert_eq!(
        message(run(&mut c, "1.multinomial", &[1, 2], &[9], "")),
        "multinomial requires positive sample size"
    );
    constant(&mut c, 2, &[3.0]);
    assert_eq!(
        message(run(&mut c, "1.multinomial", &[1, 2], &[9], "")),
        "multinomial only supports replacement=false when sample_size=1"
    );
    assert!(!c.warned_multinomial_degraded);
    run(&mut c, "1.multinomial", &[1, 2], &[9], &attr("replacement", "0.a_bool", "true")).unwrap();
    assert!(c.warned_multinomial_degraded);
    assert_eq!(
        nodes(c.graph()),
        [
            "ArgMax(tensor_1)->multinomial_argmax_9 axis=-1 keepdims=1 select_last_index=0",
            "Tile(multinomial_argmax_9,multinomial_repeats_9)->tensor_9"
        ]
    );
    assert_eq!(tensors(c.graph()), ["multinomial_repeats_9:7[2]=[1, 3]"]);
    let mut c = with_opset(17);
    c.set_strict(true);
    constant(&mut c, 2, &[1.0]);
    assert_eq!(
        message(run(&mut c, "1.multinomial", &[1, 2], &[9], "")),
        "strict mode rejects deterministic multinomial -> ArgMax lowering"
    );
    assert!(!c.warned_multinomial_degraded);
    assert!(c.graph().node.is_empty());
    c.set_strict(false);
    run(&mut c, "1.multinomial", &[1, 2], &[9], "").unwrap();
    assert_eq!(
        nodes(c.graph()),
        ["ArgMax(tensor_1)->tensor_9 axis=-1 keepdims=1 select_last_index=0"]
    );
}

#[test]
fn unbind_splits_and_squeezes() {
    let mut c = with_opset(18);
    assert_eq!(
        message(run(&mut c, "1.unbind", &[1], &[9], "")),
        "unbind missing 0.split metadata for 9"
    );
    c.state.splits.insert(9, vec![4, 5]);
    assert_eq!(
        message(run(&mut c, "1.unbind", &[1], &[9], "")),
        "missing rank metadata for tensor 1"
    );
    shape(&mut c, 1, &[3, 2]);
    run(&mut c, "1.unbind", &[1], &[9], &attr("axis", "0.a_i32", "-1")).unwrap();
    assert_eq!(
        nodes(c.graph()),
        [
            "Split(tensor_1)->unbind_split_9_0,unbind_split_9_1 axis=1 num_outputs=2",
            "Squeeze(unbind_split_9_0,unbind_axes_9_0)->tensor_4",
            "Squeeze(unbind_split_9_1,unbind_axes_9_1)->tensor_5"
        ]
    );
    assert_eq!(tensors(c.graph()), ["unbind_axes_9_0:7[1]=[1]", "unbind_axes_9_1:7[1]=[1]"]);
}

// ---- Bits ----

#[test]
fn bitwise_not_by_type() {
    let mut c = with_opset(17);
    elem(&mut c, 1, "0.t_bool");
    run(&mut c, "1.bitwise_not", &[1], &[2], "").unwrap();
    elem(&mut c, 1, "0.t_i32");
    run(&mut c, "1.bitwise_not", &[1], &[3], "").unwrap();
    elem(&mut c, 1, "0.t_ui8");
    assert_eq!(
        message(run(&mut c, "1.bitwise_not", &[1], &[4], "")),
        "bitwise_not on integer tensors requires opset >= 18, but target opset is 17"
    );
    elem(&mut c, 1, "0.t_bf16");
    assert_eq!(
        message(run(&mut c, "1.bitwise_not", &[1], &[4], "")),
        "bitwise_not does not support bfloat16 in this converter; Paddle PIR is not expected to emit this integer type here"
    );
    elem(&mut c, 1, "0.t_f32");
    assert_eq!(
        message(run(&mut c, "1.bitwise_not", &[1], &[4], "")),
        "bitwise_not only supports bool/int8/uint8/int16/int32/int64 tensors in the current converter, got float32"
    );
    c.set_target_opset(18);
    elem(&mut c, 1, "0.t_i64");
    run(&mut c, "1.bitwise_not", &[1], &[5], "").unwrap();
    assert_eq!(
        nodes(c.graph()),
        [
            "Not(tensor_1)->tensor_2",
            "Add(tensor_1,bitwise_not_one_3)->bitwise_not_plus_one_3",
            "Neg(bitwise_not_plus_one_3)->tensor_3",
            "BitwiseNot(tensor_1)->tensor_5"
        ]
    );
    assert_eq!(tensors(c.graph()), ["bitwise_not_one_3:6[]=[1]"]);
}

/// Runs the integer nodes of a graph on numbers.
fn evaluate(graph: &GraphProto, inputs: &[(&str, i128)]) -> Vec<(String, i128)> {
    let mut values: Vec<(String, i128)> =
        inputs.iter().map(|(name, v)| (name.to_string(), *v)).collect();
    for t in &graph.initializer {
        values.push((t.name.clone(), words(t, 8)[0] as i64 as i128));
    }
    for n in &graph.node {
        let get = |i: usize| values.iter().rev().find(|(name, _)| *name == n.input[i]).unwrap().1;
        let result = match n.op_type.as_str() {
            "Add" => get(0) + get(1),
            "Sub" => get(0) - get(1),
            "Mul" => get(0) * get(1),
            "Div" => get(0) / get(1),
            "Mod" => get(0).rem_euclid(get(1)),
            "Cast" | "Identity" => get(0),
            other => panic!("{}", other),
        };
        values.push((n.output[0].clone(), result));
    }
    values
}

#[test]
fn bitwise_and_by_its_bits() {
    for (name, cases) in [
        ("0.t_i8", vec![(-128i64, 127i64), (-1, -1), (85, -86), (0, -1), (100, 77)]),
        ("0.t_i32", vec![(i32::MIN as i64, -1), (123456789, -987654321), (-5, 3)]),
        ("0.t_i64", vec![(i64::MIN, -1), (i64::MAX, i64::MIN), (-6148914691236517206, 12345)]),
    ] {
        let mut c = with_opset(17);
        elem(&mut c, 1, name);
        elem(&mut c, 2, name);
        run(&mut c, "1.bitwise_and", &[1, 2], &[9], "").unwrap();
        for (a, b) in cases {
            let values =
                evaluate(c.graph(), &[("tensor_1", a as i128), ("tensor_2", b as i128)]);
            assert_eq!(values.last().unwrap(), &("tensor_9".to_string(), (a & b) as i128));
        }
    }
}

#[test]
fn bitwise_and_needs_one_type() {
    let mut c = with_opset(18);
    elem(&mut c, 1, "0.t_i32");
    elem(&mut c, 2, "0.t_i64");
    assert_eq!(
        message(run(&mut c, "1.bitwise_and", &[1, 2], &[9], "")),
        "bitwise_and requires matching input dtypes, got int32 and int64"
    );
    elem(&mut c, 2, "0.t_i32");
    run(&mut c, "1.bitwise_and", &[1, 2], &[9], "").unwrap();
    elem(&mut c, 1, "0.t_bool");
    elem(&mut c, 2, "0.t_bool");
    run(&mut c, "1.bitwise_and", &[1, 2], &[8], "").unwrap();
    assert_eq!(
        nodes(c.graph()),
        ["BitwiseAnd(tensor_1,tensor_2)->tensor_9", "And(tensor_1,tensor_2)->tensor_8"]
    );
}

// ---- Padding and rotation ----

#[test]
fn tile_raises_scalars() {
    let mut c = with_opset(12);
    shape(&mut c, 1, &[]);
    run(&mut c, "1.tile", &[1, 2], &[9], "").unwrap();
    assert_eq!(
        nodes(c.graph()),
        ["Unsqueeze(tensor_1)->tile_unsqueezed_9 axes=[0]", "Tile(tile_unsqueezed_9,tensor_2)->tensor_9"]
    );
}

#[test]
fn pad_parts_pairs() {
    let mut c = with_opset(17);
    shape(&mut c, 2, &[1]);
    let attrs = format!(
        "{}, {}",
        attr("paddings", "0.a_array", &ints(&[1, 2, 3, 4])),
        attr("mode", "0.a_str", "\"replicate\"")
    );
    run(&mut c, "1.pad", &[1, 2], &[9], &attrs).unwrap();
    assert_eq!(tensors(c.graph())[0], "pad_pads_9:7[4]=[1, 3, 2, 4]");
    assert_eq!(
        nodes(c.graph()),
        [
            "Squeeze(tensor_2,pad_value_axes_9)->pad_value_9",
            "Pad(tensor_1,pad_pads_9,pad_value_9)->tensor_9 mode=edge"
        ]
    );
    assert_eq!(message(run(&mut c, "1.pad", &[1], &[8], "")), "pad: missing paddings");
    assert_eq!(
        message(run(&mut c, "1.pad", &[1], &[8], &attr("paddings", "0.a_array", &ints(&[1])))),
        "pad: paddings must have even length"
    );
}

#[test]
fn pad3d_orders_axes_by_layout() {
    let mut c = with_opset(17);
    elem(&mut c, 2, "0.t_i64");
    run(&mut c, "1.pad3d", &[1, 2], &[9], &attr("pad_value", "0.a_f32", "1.5")).unwrap();
    let shown = nodes(c.graph());
    assert_eq!(
        shown[6],
        "Concat(pad3d_zero_prefix_9,pad3d_d_begin_9,pad3d_h_begin_9,pad3d_w_begin_9)->pad3d_starts_9 axis=0"
    );
    assert_eq!(shown[8], "Concat(pad3d_starts_9,pad3d_ends_9)->pad3d_pads_9 axis=0");
    assert_eq!(shown[9], "Pad(tensor_1,pad3d_pads_9,pad3d_value_9)->tensor_9");
    assert_eq!(tensors(c.graph()).last().unwrap(), "pad3d_value_9:1[]=[1.5]");
    let mut c = with_opset(17);
    let attrs = format!(
        "{}, {}",
        attr("data_format", "0.a_str", "\"NDHWC\""),
        attr("mode", "0.a_str", "\"reflect\"")
    );
    run(&mut c, "1.pad3d", &[1, 2], &[9], &attrs).unwrap();
    let shown = nodes(c.graph());
    assert_eq!(
        shown[0],
        "Slice(tensor_2,pad3d_w_begin_9_slice_starts,pad3d_w_begin_9_slice_ends,pad3d_w_begin_9_slice_axes)->pad3d_w_begin_9"
    );
    assert_eq!(shown[1], "Cast(pad3d_w_begin_9)->pad3d_w_begin_9_i64 to=7");
    assert_eq!(
        shown[12],
        "Concat(pad3d_zero_prefix_9,pad3d_h_begin_9_i64,pad3d_w_begin_9_i64,pad3d_d_begin_9_i64)->pad3d_starts_9 axis=0"
    );
    assert_eq!(shown[15], "Pad(tensor_1,pad3d_pads_9)->tensor_9 mode=reflect");
    assert_eq!(
        message(run(&mut c, "1.pad3d", &[1, 2], &[9], &attr("data_format", "0.a_str", "\"NHWC\""))),
        "pad3d only supports NCDHW or NDHWC"
    );
}

#[test]
fn roll_rotates_each_axis() {
    let mut c = with_opset(17);
    shape(&mut c, 1, &[4, 5]);
    constant(&mut c, 2, &[-1.0, 5.0]);
    run(&mut c, "1.roll", &[1, 2], &[9], &attr("axis", "0.a_array", &ints(&[0, -1]))).unwrap();
    assert_eq!(
        nodes(c.graph()),
        [
            "Slice(tensor_1,roll_tail_9_0_starts,roll_tail_9_0_ends,roll_tail_9_0_axes)->roll_tail_9_0",
            "Slice(tensor_1,roll_head_9_0_starts,roll_head_9_0_ends,roll_head_9_0_axes)->roll_head_9_0",
            "Concat(roll_tail_9_0,roll_head_9_0)->roll_axis_9_0 axis=0",
            "Identity(roll_axis_9_0)->tensor_9"
        ]
    );
    assert_eq!(
        tensors(c.graph()),
        [
            "roll_tail_9_0_starts:7[1]=[1]",
            "roll_tail_9_0_ends:7[1]=[4]",
            "roll_tail_9_0_axes:7[1]=[0]",
            "roll_head_9_0_starts:7[1]=[0]",
            "roll_head_9_0_ends:7[1]=[1]",
            "roll_head_9_0_axes:7[1]=[0]"
        ]
    );
    assert_eq!(
        message(run(&mut c, "1.roll", &[1, 2], &[9], &attr("axis", "0.a_array", &ints(&[0])))),
        "roll axes/shifts length mismatch"
    );
    assert_eq!(
        message(run(&mut c, "1.roll", &[1, 2], &[9], "")),
        "roll currently requires explicit axes"
    );
    assert_eq!(
        message(run(&mut c, "1.roll", &[1, 2], &[9], &attr("axis", "0.a_array", &ints(&[0, 2])))),
        "roll axis 2 out of range for rank 2"
    );
    assert_eq!(
        message(run(&mut c, "1.roll", &[1, 3], &[9], "")),
        "roll currently requires constant shifts"
    );
}

// ---- Transformation ----

#[test]
fn flip_gathers_backwards() {
    let mut c = with_opset(17);
    shape(&mut c, 1, &[2, 3]);
    run(&mut c, "1.flip", &[1], &[9], &attr("axis", "0.a_array", &ints(&[1, -2]))).unwrap();
    assert_eq!(
        nodes(c.graph()),
        [
            "Gather(tensor_1,flip_indices_9_0)->flip_axis_9_0 axis=1",
            "Gather(flip_axis_9_0,flip_indices_9_1)->tensor_9 axis=0"
        ]
    );
    assert_eq!(
        tensors(c.graph()),
        ["flip_indices_9_0:7[3]=[2, 1, 0]", "flip_indices_9_1:7[2]=[1, 0]"]
    );
    shape(&mut c, 2, &[-1]);
    assert_eq!(
        message(run(&mut c, "1.flip", &[2], &[8], "")),
        "flip requires a static positive axis length"
    );
}

#[test]
fn cumsum_einsum_meshgrid() {
    let mut c = with_opset(17);
    run(&mut c, "1.cumsum", &[1, 2], &[9], &attr("reverse", "0.a_bool", "true")).unwrap();
    c.state.combines.insert(3, vec![4, 5]);
    run(&mut c, "1.einsum", &[3], &[8], &attr("equation", "0.a_str", "\"ij,jk->ik\"")).unwrap();
    c.state.splits.insert(7, vec![10, 11]);
    run(&mut c, "1.meshgrid", &[3], &[7], "").unwrap();
    assert_eq!(
        nodes(c.graph()),
        [
            "CumSum(tensor_1,tensor_2)->tensor_9 exclusive=0 reverse=1",
            "Einsum(tensor_4,tensor_5)->tensor_8 equation=ij,jk->ik",
            "Shape(tensor_4)->meshgrid_shape_part_7_0",
            "Shape(tensor_5)->meshgrid_shape_part_7_1",
            "Concat(meshgrid_shape_part_7_0,meshgrid_shape_part_7_1)->meshgrid_shape_7 axis=0",
            "Unsqueeze(tensor_4,meshgrid_axes_7_0)->meshgrid_unsqueezed_7_0",
            "Expand(meshgrid_unsqueezed_7_0,meshgrid_shape_7)->tensor_10",
            "Unsqueeze(tensor_5,meshgrid_axes_7_1)->meshgrid_unsqueezed_7_1",
            "Expand(meshgrid_unsqueezed_7_1,meshgrid_shape_7)->tensor_11"
        ]
    );
    assert_eq!(tensors(c.graph()), ["meshgrid_axes_7_0:7[1]=[1]", "meshgrid_axes_7_1:7[1]=[0]"]);
    assert_eq!(
        message(run(&mut c, "1.cumsum", &[1, 2], &[9], &attr("flatten", "0.a_bool", "true"))),
        "cumsum with flatten=true is not supported"
    );
    assert_eq!(message(run(&mut c, "1.einsum", &[1], &[8], "")), "einsum missing equation");
    c.state.splits.insert(6, vec![10]);
    assert_eq!(
        message(run(&mut c, "1.meshgrid", &[3], &[6], "")),
        "meshgrid expects matching input/output counts, got 2 inputs and 1 outputs"
    );
    assert_eq!(
        message(run(&mut c, "1.meshgrid", &[1], &[7], "")),
        "meshgrid missing 0.combine metadata for 1"
    );
}

// ---- Interpolation ----

#[test]
fn resize_by_scales_sizes_and_lists() {
    let mut c = with_opset(17);
    let scale = "[{\"#\": \"0.a_f32\", \"D\": 3.0}, {\"#\": \"0.a_f32\", \"D\": 4.0}]";
    run(&mut c, "1.nearest_interp", &[1], &[9], &attr("scale", "0.a_array", scale)).unwrap();
    assert_eq!(
        nodes(c.graph()),
        ["Resize(tensor_1,,scales_9)->tensor_9 mode=nearest coordinate_transformation_mode=asymmetric nearest_mode=floor"]
    );
    assert_eq!(tensors(c.graph()), ["scales_9:1[4]=[1.0, 1.0, 3.0, 4.0]"]);

    let mut c = with_opset(12);
    shape(&mut c, 9, &[1, 3, 8, 16]);
    run(&mut c, "1.bilinear_interp", &[1], &[9], &attr("align_mode", "0.a_i32", "0")).unwrap();
    assert_eq!(
        nodes(c.graph()),
        [
            "Shape(tensor_1)->resize_shape_9",
            "Gather(resize_shape_9,resize_prefix_indices_9)->resize_prefix_9",
            "Concat(resize_prefix_9,resize_static_hw_9)->resize_sizes_9 axis=0",
            "Resize(tensor_1,resize_empty_roi_9,resize_empty_scales_9,resize_sizes_9)->tensor_9 mode=linear coordinate_transformation_mode=half_pixel"
        ]
    );
    assert_eq!(
        tensors(c.graph()),
        [
            "resize_empty_roi_9:1[0]=[]",
            "resize_empty_scales_9:1[0]=[]",
            "resize_static_hw_9:7[2]=[8, 16]",
            "resize_prefix_indices_9:7[2]=[0, 1]"
        ]
    );

    let mut c = with_opset(17);
    c.state.combines.insert(3, vec![4, 5]);
    shape(&mut c, 5, &[1]);
    run(&mut c, "1.nearest_interp", &[1, 0, 3], &[9], &attr("align_corners", "0.a_bool", "true"))
        .unwrap();
    assert_eq!(
        nodes(c.graph()),
        [
            "Unsqueeze(tensor_4,resize_unsqueeze_axes_9)->resize_spatial_9_0",
            "Concat(resize_spatial_9_0,tensor_5)->resize_hw_9 axis=0",
            "Shape(tensor_1)->resize_shape_9",
            "Gather(resize_shape_9,resize_prefix_indices_9)->resize_prefix_9",
            "Concat(resize_prefix_9,resize_hw_9)->resize_sizes_9 axis=0",
            "Resize(tensor_1,,,resize_sizes_9)->tensor_9 mode=nearest coordinate_transformation_mode=align_corners nearest_mode=floor"
        ]
    );
    assert_eq!(
        message(run(&mut c, "1.nearest_interp", &[1], &[9], &attr("data_format", "0.a_str", "\"NHWC\""))),
        "nearest currently only supports data_format=NCHW (got NHWC)"
    );
}

// ---- Indexing ----

#[test]
fn gathers() {
    let mut c = with_opset(17);
    constant(&mut c, 3, &[1.0]);
    run(&mut c, "1.gather", &[1, 2, 3], &[9], "").unwrap();
    run(&mut c, "1.gather", &[1, 2], &[8], "").unwrap();
    run(&mut c, "1.gather_nd", &[1, 2], &[7], "").unwrap();
    run(&mut c, "1.index_select", &[1, 2], &[6], &attr("axis", "0.a_i32", "2")).unwrap();
    run(&mut c, "1.embedding", &[1, 2], &[5], "").unwrap();
    run(&mut c, "1.take_along_axis", &[1, 2], &[4], &attr("axis", "0.a_i32", "-1")).unwrap();
    run(&mut c, "1.not_equal", &[1, 2], &[10], "").unwrap();
    assert_eq!(
        nodes(c.graph()),
        [
            "Gather(tensor_1,tensor_2)->tensor_9 axis=1",
            "Gather(tensor_1,tensor_2)->tensor_8 axis=0",
            "GatherND(tensor_1,tensor_2)->tensor_7",
            "Gather(tensor_1,tensor_2)->tensor_6 axis=2",
            "Gather(tensor_2,tensor_1)->tensor_5 axis=0",
            "GatherElements(tensor_1,tensor_2)->tensor_4 axis=-1",
            "Equal(tensor_1,tensor_2)->not_equal_eq_10",
            "Not(not_equal_eq_10)->tensor_10"
        ]
    );
    assert_eq!(
        message(run(&mut c, "1.gather", &[1, 2, 4], &[9], "")),
        "gather requires constant axis input"
    );
}

#[test]
fn eye_compares_positions() {
    let mut c = with_opset(17);
    elem(&mut c, 1, "0.t_i64");
    shape(&mut c, 2, &[1]);
    run(&mut c, "1.eye", &[1, 2], &[9], "").unwrap();
    assert_eq!(
        nodes(c.graph()),
        [
            "Squeeze(tensor_2,eye_cols_scalar_axes_9)->eye_cols_scalar_9",
            "Cast(eye_cols_scalar_9)->eye_cols_i64_9 to=7",
            "Range(eye_zero_9,tensor_1,eye_one_9)->eye_rows_range_9",
            "Range(eye_zero_9,eye_cols_i64_9,eye_one_9)->eye_cols_range_9",
            "Unsqueeze(eye_rows_range_9,eye_rows_axes_9)->eye_rows_unsqueezed_9",
            "Unsqueeze(eye_cols_range_9,eye_cols_axes_9)->eye_cols_unsqueezed_9",
            "Equal(eye_rows_unsqueezed_9,eye_cols_unsqueezed_9)->eye_equal_9",
            "Cast(eye_equal_9)->tensor_9 to=1"
        ]
    );
}

// ---- Normalization ----

#[test]
fn batch_norm_orders_inputs() {
    let mut c = with_opset(17);
    let attrs = format!(
        "{}, {}, {}",
        attr("epsilon", "0.a_f32", "0.001"),
        attr("is_test", "0.a_bool", "true"),
        attr("momentum", "0.a_f32", "0.9")
    );
    run(&mut c, "1.batch_norm_", &[1, 2, 3, 4, 5], &[9], &attrs).unwrap();
    assert_eq!(
        nodes(c.graph()),
        ["BatchNormalization(tensor_1,tensor_4,tensor_5,tensor_2,tensor_3)->tensor_9 epsilon=0.001f momentum=0.9f"]
    );
    assert_eq!(
        message(run(&mut c, "1.batch_norm_", &[1, 2, 3, 4, 5], &[9], &attr("is_test", "0.a_bool", "false"))),
        "batch_norm_ only supports inference-style lowering with is_test=true"
    );
    assert_eq!(
        message(run(&mut c, "1.batch_norm_", &[1, 2, 3, 4, 5], &[9], &attr("data_format", "0.a_str", "\"NHWC\""))),
        "batch_norm_ only supports NCHW"
    );
    assert_eq!(
        message(run(&mut c, "1.batch_norm_", &[1, 2], &[9], "")),
        "batch_norm_ missing inputs"
    );
}

#[test]
fn group_norm_by_instances() {
    let mut c = with_opset(17);
    shape(&mut c, 1, &[1, 4, 2, 2]);
    run(&mut c, "1.group_norm", &[1, 2, 3], &[9], &attr("groups", "0.a_i32", "2")).unwrap();
    assert_eq!(
        nodes(c.graph()),
        [
            "Shape(tensor_1)->group_norm_input_shape_9".to_string(),
            "Slice(group_norm_input_shape_9,group_norm_batch_dim_9_starts,group_norm_batch_dim_9_ends,group_norm_batch_dim_9_axes)->group_norm_batch_dim_9".to_string(),
            "Concat(group_norm_batch_dim_9,group_norm_groups_9,group_norm_minus_one_9)->group_norm_reshape_shape_9 axis=0".to_string(),
            "Reshape(tensor_1,group_norm_reshape_shape_9)->group_norm_reshaped_9".to_string(),
            format!(
                "InstanceNormalization(group_norm_reshaped_9,group_norm_scale_9,group_norm_bias_9)->group_norm_normalized_9 epsilon={:?}f",
                1e-5f32
            ),
            "Reshape(group_norm_normalized_9,group_norm_input_shape_9)->group_norm_restored_9".to_string(),
            "Unsqueeze(tensor_2,group_norm_affine_scale_axes_9)->group_norm_affine_scale_9".to_string(),
            "Unsqueeze(tensor_3,group_norm_affine_bias_axes_9)->group_norm_affine_bias_9".to_string(),
            "Mul(group_norm_restored_9,group_norm_affine_scale_9)->group_norm_scaled_9".to_string(),
            "Add(group_norm_scaled_9,group_norm_affine_bias_9)->tensor_9".to_string(),
        ]
    );
    let shown = tensors(c.graph());
    assert!(shown.contains(&"group_norm_scale_9:1[2]=[1.0, 1.0]".to_string()));
    assert!(shown.contains(&"group_norm_bias_9:1[2]=[0.0, 0.0]".to_string()));
    assert!(shown.contains(&"group_norm_affine_scale_axes_9:7[3]=[0, 2, 3]".to_string()));
    assert_eq!(message(run(&mut c, "1.group_norm", &[1, 2, 3], &[9], "")), "group_norm missing groups");
    shape(&mut c, 1, &[1, 4]);
    assert_eq!(
        message(run(&mut c, "1.group_norm", &[1, 2, 3], &[9], &attr("groups", "0.a_i32", "2"))),
        "group_norm expects rank >= 3, got 2"
    );
}

#[test]
fn group_norm_looks_at_the_number_of_groups_last() {
    let mut c = with_opset(17);
    let negative = attr("groups", "0.a_i32", "-1");
    let last = format!("{}, {}", negative, attr("data_format", "0.a_str", "\"NHWC\""));
    assert_eq!(
        message(run(&mut c, "1.group_norm", &[1, 2, 3], &[9], &last)),
        "group_norm only supports NCHW"
    );
    assert_eq!(
        message(run(&mut c, "1.group_norm", &[1, 2, 3], &[9], &negative)),
        "group_norm missing input rank metadata"
    );
    shape(&mut c, 1, &[1, 4]);
    assert_eq!(
        message(run(&mut c, "1.group_norm", &[1, 2, 3], &[9], &negative)),
        "group_norm expects rank >= 3, got 2"
    );
    shape(&mut c, 1, &[1, 4, 2, 2]);
    assert_eq!(
        message(run(&mut c, "1.group_norm", &[1, 2, 3], &[9], &negative)),
        "group_norm missing groups"
    );
}

// ---- Convolution and pooling ----

#[test]
fn windowed_operators_take_over_attributes() {
    let mut c = with_opset(17);
    let attrs = format!(
        "{}, {}, {}, {}, {}",
        attr("strides", "0.a_array", &ints(&[2, 2])),
        attr("paddings", "0.a_array", &ints(&[1, 2])),
        attr("groups", "0.a_i32", "4"),
        attr("data_format", "0.a_str", "\"NCHW\""),
        attr("padding_algorithm", "0.a_str", "\"EXPLICIT\"")
    );
    run(&mut c, "1.depthwise_conv2d", &[1, 2], &[9], &attrs).unwrap();
    let attrs = format!(
        "{}, {}",
        attr("paddings", "0.a_array", &ints(&[1, 2, 3, 4])),
        attr("padding_algorithm", "0.a_str", "\"SAME\"")
    );
    run(&mut c, "1.conv2d", &[1, 2], &[8], &attrs).unwrap();
    run(&mut c, "1.conv2d", &[1, 2], &[7], &attr("paddings", "0.a_array", &ints(&[1, 2, 3, 4])))
        .unwrap();
    assert_eq!(
        nodes(c.graph()),
        [
            "Conv(tensor_1,tensor_2)->tensor_9 strides=[2, 2] pads=[1, 2, 1, 2] group=4",
            "Conv(tensor_1,tensor_2)->tensor_8 auto_pad=SAME_UPPER",
            "Conv(tensor_1,tensor_2)->tensor_7 pads=[1, 3, 2, 4]"
        ]
    );
}

#[test]
fn transposed_convolution_with_output_size() {
    let mut c = with_opset(17);
    constant(&mut c, 3, &[10.0, 20.0]);
    run(&mut c, "1.conv2d_transpose", &[1, 2, 3], &[9], &attr("output_shape", "0.a_array", &ints(&[5])))
        .unwrap();
    assert_eq!(
        nodes(c.graph()),
        ["ConvTranspose(tensor_1,tensor_2)->tensor_9 output_shape=[10, 20]"]
    );
    assert_eq!(
        message(run(&mut c, "1.conv2d_transpose", &[1, 2, 3, 4], &[9], "")),
        "ConvTranspose with bias as 4th input is not supported; use a separate Add node for bias"
    );
    assert_eq!(
        message(run(&mut c, "1.conv2d_transpose", &[1], &[9], "")),
        "conv2d_transpose missing input/filter tensors"
    );
}

#[test]
fn pooling() {
    let mut c = with_opset(17);
    constant(&mut c, 2, &[3.0, 3.0]);
    constant(&mut c, 3, &[1.0, 1.0]);
    let attrs = format!(
        "{}, {}, {}",
        attr("pooling_type", "0.a_str", "\"avg\""),
        attr("exclusive", "0.a_bool", "false"),
        attr("ceil_mode", "0.a_bool", "true")
    );
    run(&mut c, "1.pool2d", &[1, 2], &[9], &attrs).unwrap();
    run(&mut c, "1.pool2d", &[1, 3], &[8], &attr("adaptive", "0.a_bool", "true")).unwrap();
    run(&mut c, "1.pool2d", &[1], &[7], &attr("global_pooling", "0.a_bool", "true")).unwrap();
    assert_eq!(
        nodes(c.graph()),
        [
            "AveragePool(tensor_1)->tensor_9 ceil_mode=1 kernel_shape=[3, 3] count_include_pad=1",
            "GlobalMaxPool(tensor_1)->tensor_8",
            "GlobalMaxPool(tensor_1)->tensor_7"
        ]
    );
    assert_eq!(
        message(run(&mut c, "1.pool2d", &[1, 2], &[9], &attr("adaptive", "0.a_bool", "true"))),
        "adaptive pool2d only supports global output_size=[1,1]; non-global adaptive pooling requires derived kernel/stride"
    );
    assert_eq!(
        message(run(&mut c, "1.pool2d", &[1, 3], &[9], &attr("padding_algorithm", "0.a_str", "\"SAME\""))),
        "pool2d with padding_algorithm=SAME does not support output_size=[1,1] unless adaptive=true"
    );
    c.set_target_opset(9);
    assert_eq!(
        message(run(&mut c, "1.pool2d", &[1, 2], &[9], &attr("ceil_mode", "0.a_bool", "true"))),
        "pool2d ceil_mode requires opset >= 10"
    );
}

// ---- Truth values, conditionals and loops ----

#[test]
fn any_and_all() {
    let mut c = with_opset(18);
    run(&mut c, "1.any", &[1], &[9], &attr("axis", "0.a_array", &ints(&[1]))).unwrap();
    c.set_target_opset(17);
    run(&mut c, "1.all", &[1], &[8], &attr("keepdim", "0.a_bool", "true")).unwrap();
    assert_eq!(
        nodes(c.graph()),
        [
            "Cast(tensor_1)->any_cast_9 to=7",
            "ReduceMax(any_cast_9,any_reduce_9_axes)->any_reduced_9 keepdims=0",
            "Cast(any_reduced_9)->tensor_9 to=9",
            "Cast(tensor_1)->all_cast_8 to=7",
            "ReduceMin(all_cast_8)->all_reduced_8 keepdims=1",
            "Cast(all_reduced_8)->tensor_8 to=9"
        ]
    );
    assert_eq!(message(run(&mut c, "1.any", &[], &[9], "")), "any/all requires an input tensor");
}

#[test]
fn one_hot_compares_with_a_range() {
    let mut c = with_opset(17);
    shape(&mut c, 1, &[2, 3]);
    constant(&mut c, 2, &[5.0]);
    elem(&mut c, 9, "0.t_i32");
    run(&mut c, "1.one_hot", &[1, 2], &[9], "").unwrap();
    assert_eq!(
        nodes(c.graph()),
        [
            "Cast(tensor_1)->one_hot_indices_i64_9 to=7",
            "Range(one_hot_start_9,one_hot_depth_i64_9,one_hot_step_9)->one_hot_range_9",
            "Unsqueeze(one_hot_indices_i64_9,one_hot_unsqueeze_axes_9)->one_hot_indices_expanded_9",
            "Equal(one_hot_indices_expanded_9,one_hot_range_9)->one_hot_equal_9",
            "Cast(one_hot_equal_9)->tensor_9 to=6"
        ]
    );
    assert_eq!(
        tensors(c.graph()),
        [
            "one_hot_depth_i64_9:7[]=[5]",
            "one_hot_start_9:7[]=[0]",
            "one_hot_step_9:7[]=[1]",
            "one_hot_unsqueeze_axes_9:7[1]=[2]"
        ]
    );
    constant(&mut c, 2, &[2.5]);
    assert_eq!(
        run(&mut c, "1.one_hot", &[1, 2], &[9], ""),
        Err(Error::Constant {
            fault: ConstantFault::OneHotDepth,
            bits: 2.5f64.to_bits(),
            dtype: "int64".to_string()
        })
    );
    constant(&mut c, 2, &[]);
    assert_eq!(message(run(&mut c, "1.one_hot", &[1, 2], &[9], "")), "one_hot depth constant is empty");
    let mut c = with_opset(17);
    shape(&mut c, 2, &[1]);
    run(&mut c, "1.one_hot", &[1, 2], &[9], "").unwrap();
    assert_eq!(
        nodes(c.graph())[1..3],
        [
            "Cast(tensor_2)->one_hot_depth_i64_9 to=7",
            "Squeeze(one_hot_depth_i64_9,one_hot_depth_squeeze_axes_9)->one_hot_depth_scalar_9"
        ]
    );
}

fn region(args: &str, ops: &str) -> String {
    format!("{{\"blocks\": [{{\"args\": [{}], \"ops\": [{}]}}]}}", args, ops)
}

#[test]
fn conditional_converts_both_branches() {
    let mut c = with_opset(17);
    let then_region = region(
        "",
        "{\"#\": \"1.relu\", \"I\": [{\"%\": 1}], \"O\": [{\"%\": 20}]}, {\"#\": \"2.yield\", \"I\": [{\"%\": 20}]}",
    );
    let else_region = region("", "{\"#\": \"2.yield\", \"I\": [{\"%\": 1}]}");
    let text = format!(
        "{{\"#\": \"1.if\", \"I\": [{{\"%\": 5}}], \"O\": [{{\"%\": 9}}], \"regions\": [{}, {}]}}",
        then_region, else_region
    );
    c.process_pass2_op("1.if", &json(&text)).unwrap();
    assert_eq!(nodes(c.graph()), ["If(tensor_5)->tensor_9 then_branch=<graph> else_branch=<graph>"]);
    let then_graph = c.graph().node[0].attribute[0].g.as_ref().unwrap();
    assert_eq!(then_graph.name, "if_then_branch");
    assert_eq!(nodes(then_graph), ["Relu(tensor_1)->tensor_20"]);
    assert_eq!(then_graph.output[0].name, "tensor_20");
    let else_graph = c.graph().node[0].attribute[1].g.as_ref().unwrap();
    assert_eq!(nodes(else_graph), ["Identity(tensor_1)->if_else_branch_yield_0"]);
    assert_eq!(else_graph.output[0].name, "if_else_branch_yield_0");

    let fails = |regions: &str| {
        let mut c = with_opset(17);
        let text = format!("{{\"#\": \"1.if\", \"I\": [{{\"%\": 5}}], \"O\": [] {}}}", regions);
        message(c.process_pass2_op("1.if", &json(&text)))
    };
    assert_eq!(fails(""), "if is missing regions");
    assert_eq!(fails(", \"regions\": [{}]"), "if expects 2 regions, got 1");
    assert_eq!(fails(", \"regions\": [{}, {}]"), "Region is missing blocks");
    assert_eq!(
        fails(", \"regions\": [{\"blocks\": [{}]}, {}]"),
        "Block is missing ops"
    );
    assert_eq!(
        fails(", \"regions\": [{\"blocks\": [{\"ops\": []}]}, {}]"),
        "Region if_then_branch is missing 2.yield"
    );
    assert_eq!(
        fails(", \"regions\": [{\"blocks\": [{\"args\": [{\"#\": 1}], \"ops\": []}]}, {}]"),
        "Block arg count mismatch for if_then_branch: expected 0, got 1"
    );
    assert_eq!(
        fails(", \"regions\": [{\"blocks\": [{\"ops\": [{\"#\": \"1.nothing\"}]}]}, {}]"),
        "Unsupported operator: nothing"
    );
}

#[test]
fn loop_names_its_arguments() {
    let mut c = with_opset(17);
    let arg = |id: i64| {
        format!(
            "{{\"#\": {}, \"TT\": {{\"D\": [{{\"#\": \"0.t_f32\"}}, [2, -1]]}}}}",
            id
        )
    };
    let body = region(
        &format!("{}, {}", arg(30), arg(31)),
        "{\"#\": \"1.add\", \"I\": [{\"%\": 30}, {\"%\": 31}], \"O\": [{\"%\": 32}]}, {\"#\": \"2.yield\", \"I\": [{\"%\": 5}, {\"%\": 32}, {\"%\": 31}]}",
    );
    let text = format!(
        "{{\"#\": \"1.while\", \"I\": [{{\"%\": 5}}, {{\"%\": 7}}, {{\"%\": 7}}], \"O\": [{{\"%\": 9}}, {{\"%\": 10}}], \"regions\": [{}]}}",
        body
    );
    c.process_pass2_op("1.while", &json(&text)).unwrap();
    assert_eq!(
        nodes(c.graph()),
        ["Loop(,tensor_5,tensor_7,tensor_7)->tensor_9,tensor_10 body=<graph>"]
    );
    let body = c.graph().node[0].attribute[0].g.as_ref().unwrap();
    let inputs = body.input.iter().map(|v| v.name.as_str()).collect::<Vec<_>>();
    assert_eq!(
        inputs,
        ["__p2o_loop_iter", "__p2o_loop_cond", "while_arg_0_7", "while_arg_1_7"]
    );
    assert_eq!(
        nodes(body),
        [
            "Add(while_arg_0_7,while_arg_1_7)->tensor_32",
            "Identity(tensor_5)->while_body_yield_0"
        ]
    );
    let outputs = body.output.iter().map(|v| v.name.as_str()).collect::<Vec<_>>();
    assert_eq!(outputs, ["while_body_yield_0", "tensor_32", "while_arg_1_7"]);

    let mut c = with_opset(17);
    let text = "{\"#\": \"1.while\", \"I\": [{\"%\": 5}, {\"%\": 7}], \"O\": [], \"regions\": [{\"blocks\": [{\"args\": [], \"ops\": []}]}]}";
    assert_eq!(
        message(c.process_pass2_op("1.while", &json(text))),
        "while body arg count mismatch: expected 1, got 0"
    );
}

// ---- Carried over ----

#[test]
fn generic_operators_lose_marks_and_underscores() {
    let mut c = with_opset(17);
    run(&mut c, "1.relu_", &[1], &[2], "").unwrap();
    run(&mut c, "1.1.tanh__", &[1], &[3], "").unwrap();
    run(&mut c, "3.unknown", &[1], &[4], "").unwrap();
    run(&mut c, "1.hardsigmoid", &[1], &[5], &format!(
        "{}, {}, {}",
        attr("slope", "0.a_f32", "0.5"),
        attr("offset", "0.a_f32", "0.25"),
        attr("stop_gradient", "0.a_array", "[{\"#\": \"0.a_bool\", \"D\": true}]")
    ))
    .unwrap();
    run(&mut c, "1.softmax", &[1], &[6], &attr("axis", "0.a_i32", "-1")).unwrap();
    run(&mut c, "1.transpose", &[1], &[7], &attr("perm", "0.a_array", &ints(&[1, 0]))).unwrap();
    run(&mut c, "1.dropout", &[1], &[8, 10], "").unwrap();
    assert_eq!(
        nodes(c.graph()),
        [
            "Relu(tensor_1)->tensor_2",
            "Tanh(tensor_1)->tensor_3",
            "HardSigmoid(tensor_1)->tensor_5 alpha=0.5f beta=0.25f",
            "Softmax(tensor_1)->tensor_6 axis=-1",
            "Transpose(tensor_1)->tensor_7 perm=[1, 0]",
            "Identity(tensor_1)->tensor_8"
        ]
    );
    assert_eq!(
        message(run(&mut c, "1.fancy_", &[1], &[2], "")),
        "Unsupported operator: fancy"
    );
}

#[test]
fn attribute_values_of_every_type() {
    let mut c = with_opset(17);
    let attrs = [
        attr("i", "0.a_i64", "5"),
        attr("f", "0.a_f64", "1.5"),
        attr("s", "0.a_str", "\"text\""),
        attr("b", "0.a_bool", "true"),
        attr("fs", "0.a_array", "[{\"#\": \"0.a_f32\", \"D\": 0.5}, {\"#\": \"0.a_f32\", \"D\": \"x\"}]"),
        attr("ss", "0.a_array", "[{\"#\": \"0.a_str\", \"D\": \"a\"}, {\"#\": \"0.a_str\", \"D\": \"b\"}]"),
        attr("plain", "1.a_intarray", "[1, 2, 2.5]"),
        attr("none", "0.a_array", "[]"),
        attr("odd", "0.a_unknown", "1"),
        attr("wrong", "0.a_i32", "\"one\""),
    ]
    .join(", ");
    run(&mut c, "1.abs", &[1], &[2], &attrs).unwrap();
    assert_eq!(
        nodes(c.graph()),
        ["Abs(tensor_1)->tensor_2 i=5 f=1.5f s=text b=1 fs=[0.5]f ss=[\"a\", \"b\"] plain=[1, 2]"]
    );
}

#[test]
fn fetch_outputs_get_different_names() {
    let mut c = with_opset(17);
    let named = attr("name", "0.a_str", "\"out\"");
    run(&mut c, "1.fetch", &[1], &[], &named).unwrap();
    run(&mut c, "1.fetch", &[2], &[], &named).unwrap();
    run(&mut c, "1.fetch", &[3], &[], "").unwrap();
    run(&mut c, "1.fetch", &[4], &[], &attr("name", "0.a_str", "\"tensor_4\"")).unwrap();
    let outputs = c.graph().output.iter().map(|v| v.name.as_str()).collect::<Vec<_>>();
    assert_eq!(outputs, ["out", "out_1", "fetch_2", "tensor_4"]);
    assert_eq!(
        nodes(c.graph()),
        ["Identity(tensor_1)->out", "Identity(tensor_2)->out_1", "Identity(tensor_3)->fetch_2"]
    );
    assert_eq!(
        message(run(&mut c, "1.fetch", &[], &[], "")),
        "fetch op has no input; cannot produce graph output"
    );
}

// ---- Arrays ----

fn typed(kind: &str, inputs: &[i64], output: i64, elem: &str, dims: &str, attrs: &str) -> Json {
    let list =
        inputs.iter().map(|id| format!("{{\"%\": {}}}", id)).collect::<Vec<_>>().join(", ");
    json(&format!(
        "{{\"#\": \"{}\", \"I\": [{}], \"O\": [{{\"%\": {}, \"TT\": {{\"D\": [{{\"#\": \"{}\"}}, {}]}}}}], \"A\": [{}]}}",
        kind, list, output, elem, dims, attrs
    ))
}

#[test]
fn assigned_values_must_fill_the_shape() {
    let mut c = with_opset(17);
    let values = "[{\"#\": \"0.a_f64\", \"D\": 1.0}, {\"#\": \"0.a_f64\", \"D\": 2.0}]";
    let attrs = |shape: &[i64], dtype: &str| {
        format!(
            "{}, {}, {}",
            attr("dtype", "1.a_dtype", &format!("\"{}\"", dtype)),
            attr("shape", "0.a_array", &ints(shape)),
            attr("values", "0.a_array", values)
        )
    };
    run(&mut c, "1.assign_value_", &[], &[9], &attrs(&[2], "int64")).unwrap();
    run(&mut c, "1.assign_value_", &[], &[8], &attrs(&[], "float32")).unwrap();
    assert_eq!(tensors(c.graph()), ["tensor_9:7[2]=[1, 2]", "tensor_8:1[2]=[1.0, 2.0]"]);
    assert_eq!(
        message(run(&mut c, "1.assign_value_", &[], &[7], &attrs(&[3], "int64"))),
        "assign_value_ shape [3] expects 3 values, got 2"
    );
    assert_eq!(
        message(run(&mut c, "1.assign_value_", &[], &[7], &attrs(&[0, 2], "int64"))),
        "assign_value_ shape [0, 2] expects 0 values, got 2"
    );
    assert_eq!(
        message(run(&mut c, "1.assign_value_", &[], &[7], &attrs(&[2], "complex64"))),
        "assign_value_: unsupported dtype complex64"
    );
    assert_eq!(message(run(&mut c, "1.assign_value_", &[], &[7], "")), "assign_value_: missing dtype");
}

#[test]
fn ranges_and_casts() {
    let mut c = with_opset(17);
    shape(&mut c, 2, &[1]);
    run(&mut c, "1.arange", &[1, 2, 3], &[9], &attr("dtype", "1.a_dtype", "\"int32\"")).unwrap();
    run(&mut c, "1.arange", &[1, 3, 4], &[8], "").unwrap();
    run(&mut c, "1.cast", &[1], &[7], &attr("dtype", "1.a_dtype", "\"float16\"")).unwrap();
    assert_eq!(
        nodes(c.graph()),
        [
            "Squeeze(tensor_2,arange_squeeze_axes_9_1)->arange_squeezed_9_1",
            "Range(tensor_1,arange_squeezed_9_1,tensor_3)->arange_raw_9",
            "Cast(arange_raw_9)->tensor_9 to=6",
            "Range(tensor_1,tensor_3,tensor_4)->tensor_8",
            "Cast(tensor_1)->tensor_7 to=10"
        ]
    );
    assert_eq!(message(run(&mut c, "1.cast", &[1], &[7], "")), "cast: missing dtype");
    assert_eq!(
        message(run(&mut c, "1.cast", &[1], &[7], &attr("dtype", "1.a_dtype", "\"odd\""))),
        "cast: unsupported dtype odd"
    );
}

#[test]
fn clip_bounds_take_the_type() {
    let mut c = with_opset(17);
    elem(&mut c, 1, "0.t_i64");
    elem(&mut c, 2, "0.t_f32");
    run(&mut c, "1.clip", &[1, 2, 3], &[9], "").unwrap();
    assert_eq!(
        nodes(c.graph()),
        ["Cast(tensor_2)->clip_cast_9_1 to=7", "Clip(tensor_1,clip_cast_9_1,tensor_3)->tensor_9"]
    );
}

#[test]
fn slices_before_and_after_opset_10() {
    let mut c = with_opset(17);
    let attrs = format!(
        "{}, {}",
        attr("axes", "0.a_array", &ints(&[0, 1])),
        attr("decrease_axis", "0.a_array", &ints(&[0]))
    );
    run(&mut c, "1.slice", &[1, 2, 3], &[9], &attrs).unwrap();
    assert_eq!(
        nodes(c.graph()),
        [
            "Slice(tensor_1,tensor_2,tensor_3,slice_axes_9)->slice_out_9",
            "Squeeze(slice_out_9,squeeze_axes_9)->tensor_9"
        ]
    );
    assert_eq!(
        tensors(c.graph()),
        ["slice_axes_9:7[2]=[0, 1]", "squeeze_axes_9:7[1]=[0]", "squeeze_axes_9:7[1]=[0]"]
    );
    let mut c = with_opset(9);
    assert_eq!(
        message(run(&mut c, "1.slice", &[1, 2, 3], &[9], &attrs)),
        "slice requires constant starts input for opset < 10"
    );
    constant(&mut c, 2, &[1.0, 2.0]);
    assert_eq!(
        message(run(&mut c, "1.slice", &[1, 2, 3], &[9], &attrs)),
        "slice requires constant ends input for opset < 10"
    );
    constant(&mut c, 3, &[5.0, 6.0]);
    run(&mut c, "1.slice", &[1, 2, 3], &[9], &attrs).unwrap();
    assert_eq!(
        nodes(c.graph()),
        [
            "Slice(tensor_1)->slice_out_9 starts=[1, 2] ends=[5, 6] axes=[0, 1]",
            "Squeeze(slice_out_9)->tensor_9 axes=[0]"
        ]
    );
    constant(&mut c, 3, &[5.0]);
    assert_eq!(
        message(run(&mut c, "1.slice", &[1, 2, 3], &[9], &attrs)),
        "Slice starts/ends length mismatch: 2 vs 1"
    );
    assert_eq!(
        message(run(&mut c, "1.slice", &[1], &[9], "")),
        "slice requires constant starts for opset < 10"
    );
}

#[test]
fn strided_slice_converts_its_bounds() {
    let mut c = with_opset(17);
    elem(&mut c, 2, "0.t_i64");
    run(&mut c, "1.strided_slice", &[1, 2, 3, 4], &[9], &attr("axes", "0.a_array", &ints(&[1])))
        .unwrap();
    assert_eq!(
        nodes(c.graph()),
        [
            "Cast(tensor_3)->strided_slice_ends_i64_9 to=7",
            "Cast(tensor_4)->strided_slice_steps_i64_9 to=7",
            "Slice(tensor_1,tensor_2,strided_slice_ends_i64_9,strided_slice_axes_9,strided_slice_steps_i64_9)->tensor_9"
        ]
    );
    assert_eq!(
        message(run(&mut c, "1.strided_slice", &[1, 2], &[9], "")),
        "strided_slice missing inputs"
    );
}

#[test]
fn full_fills_and_falls_back() {
    let mut c = with_opset(17);
    run(&mut c, "1.full", &[], &[5], "").unwrap();
    assert!(c.graph().initializer.is_empty());
    constant(&mut c, 9, &[2.0]);
    let attrs = |shape: &[i64]| {
        format!(
            "{}, {}",
            attr("shape", "1.a_intarray", &ints(shape)),
            attr("dtype", "1.a_dtype", "\"float32\"")
        )
    };
    run(&mut c, "1.full", &[], &[9], &attrs(&[2, 2])).unwrap();
    run(&mut c, "1.full", &[], &[9], &attrs(&[])).unwrap();
    run(&mut c, "1.full", &[], &[9], &attrs(&[-1, 2])).unwrap();
    run(&mut c, "1.full", &[], &[9], &attrs(&[0, 2])).unwrap();
    constant(&mut c, 8, &[3.0, 4.0]);
    run(&mut c, "1.full_int_array", &[], &[8], "").unwrap();
    assert_eq!(
        tensors(c.graph()),
        [
            "tensor_9:1[2, 2]=[2.0, 2.0, 2.0, 2.0]",
            "tensor_9:1[]=[2.0]",
            "tensor_9:1[1]=[2.0]",
            "tensor_9:1[0, 2]=[]",
            "tensor_8:7[2]=[3, 4]"
        ]
    );
    constant(&mut c, 7, &[1.0, 2.0]);
    assert_eq!(
        message(run(&mut c, "1.full", &[], &[7], &attrs(&[3]))),
        "1.full initializer shape [3] expects 3 values, got 2"
    );
    constant(&mut c, 6, &[1e300]);
    assert_eq!(
        run(&mut c, "1.full", &[], &[6], &attrs(&[1])),
        Err(Error::Constant {
            fault: ConstantFault::EncodeOverflow,
            bits: 1e300f64.to_bits(),
            dtype: "float32".to_string()
        })
    );
}

#[test]
fn full_like_and_with_tensor() {
    let mut c = with_opset(17);
    run(&mut c, "1.full_like", &[1, 2], &[9], &attr("dtype", "1.a_dtype", "\"bool\"")).unwrap();
    shape(&mut c, 4, &[]);
    run(&mut c, "1.full_with_tensor", &[3, 4], &[8], "").unwrap();
    assert_eq!(
        nodes(c.graph()),
        [
            "Shape(tensor_1)->full_like_shape_9",
            "Cast(tensor_2)->full_like_cast_9 to=9",
            "Expand(full_like_cast_9,full_like_shape_9)->tensor_9",
            "Unsqueeze(tensor_4,full_with_tensor_shape_axes_8)->full_with_tensor_shape_8",
            "Expand(tensor_3,full_with_tensor_shape_8)->tensor_8"
        ]
    );
}

#[test]
fn expand_keeps_sizes_that_are_left_open() {
    let mut c = with_opset(17);
    shape(&mut c, 1, &[3, 1]);
    constant(&mut c, 2, &[2.0, -1.0, 4.0]);
    run(&mut c, "1.expand", &[1, 2], &[9], "").unwrap();
    assert_eq!(
        nodes(c.graph()),
        [
            "Shape(tensor_1)->expand_input_shape_9",
            "Slice(expand_input_shape_9,expand_shape_slice_9_1_starts,expand_shape_slice_9_1_ends,expand_shape_slice_9_1_axes)->expand_shape_part_9_1",
            "Concat(expand_shape_part_9_0,expand_shape_part_9_1,expand_shape_part_9_2)->expand_shape_9 axis=0",
            "Expand(tensor_1,expand_shape_9)->tensor_9"
        ]
    );
    assert_eq!(
        tensors(c.graph()),
        [
            "expand_shape_part_9_0:7[1]=[2]",
            "expand_shape_slice_9_1_starts:7[1]=[0]",
            "expand_shape_slice_9_1_ends:7[1]=[1]",
            "expand_shape_slice_9_1_axes:7[1]=[0]",
            "expand_shape_part_9_2:7[1]=[4]"
        ]
    );
    let mut c = with_opset(17);
    shape(&mut c, 1, &[3]);
    constant(&mut c, 2, &[-1.0, 3.0]);
    assert_eq!(
        message(run(&mut c, "1.expand", &[1, 2], &[9], "")),
        "expand: -1 at axis 0 cannot map to leading broadcast axis for tensor 1"
    );
    constant(&mut c, 2, &[-1.0]);
    shape(&mut c, 1, &[3, 4]);
    assert_eq!(
        message(run(&mut c, "1.expand", &[1, 2], &[8], "")),
        "expand: output rank 1 smaller than input rank 2 for tensor 1"
    );
    run(&mut c, "1.expand", &[1, 5], &[7], "").unwrap();
    assert_eq!(nodes(c.graph()).last().unwrap(), "Expand(tensor_1,tensor_5)->tensor_7");
}

#[test]
fn expand_by_stacked_parts() {
    let mut c = with_opset(17);
    shape(&mut c, 1, &[3, 4]);
    c.state.combines.insert(20, vec![21, 22]);
    constant(&mut c, 21, &[-1.0]);
    run(&mut c, "1.stack", &[20], &[2], &attr("axis", "0.a_i32", "0")).unwrap();
    assert_eq!(
        nodes(c.graph()),
        [
            "Unsqueeze(tensor_21,stack_axes_2_0)->stack_unsqueezed_2_0",
            "Unsqueeze(tensor_22,stack_axes_2_1)->stack_unsqueezed_2_1",
            "Concat(stack_unsqueezed_2_0,stack_unsqueezed_2_1)->tensor_2 axis=0"
        ]
    );
    run(&mut c, "1.expand", &[1, 2], &[9], "").unwrap();
    assert_eq!(
        nodes(c.graph())[3..],
        [
            "Shape(tensor_1)->expand_input_shape_9",
            "Slice(expand_input_shape_9,expand_shape_slice_9_0_starts,expand_shape_slice_9_0_ends,expand_shape_slice_9_0_axes)->expand_shape_part_9_0",
            "Cast(tensor_22)->expand_shape_part_i64_9_1 to=7",
            "Unsqueeze(expand_shape_part_i64_9_1,expand_shape_axes_9_1)->expand_shape_part_9_1",
            "Concat(expand_shape_part_9_0,expand_shape_part_9_1)->expand_shape_9 axis=0",
            "Expand(tensor_1,expand_shape_9)->tensor_9"
        ]
    );
    shape(&mut c, 22, &[2]);
    assert_eq!(
        message(run(&mut c, "1.expand", &[1, 2], &[8], "")),
        "expand: unsupported dynamic shape part 22 with rank 1"
    );
    assert_eq!(
        message(run(&mut c, "1.stack", &[77], &[2], "")),
        "Combine list_id 77 not found for stack"
    );
}

// ---- Shapes ----

#[test]
fn squeeze_drops_what_it_can() {
    let mut c = with_opset(17);
    shape(&mut c, 1, &[1, 3, 1]);
    shape(&mut c, 9, &[3]);
    run(&mut c, "1.squeeze", &[1], &[9], &attr("axis", "0.a_array", &ints(&[-1, 0, 1, 7, 0])))
        .unwrap();
    shape(&mut c, 8, &[1, 3, 1]);
    run(&mut c, "1.squeeze_", &[1], &[8], &attr("axis", "0.a_array", &ints(&[0]))).unwrap();
    run(&mut c, "1.squeeze", &[1], &[7], &attr("axis", "0.a_array", &ints(&[1]))).unwrap();
    run(&mut c, "1.squeeze", &[2], &[6], "").unwrap();
    run(&mut c, "1.squeeze", &[2, 3], &[5], "").unwrap();
    assert_eq!(
        nodes(c.graph()),
        [
            "Squeeze(tensor_1,squeeze_axes_9)->tensor_9",
            "Identity(tensor_1)->tensor_8",
            "Identity(tensor_1)->tensor_7",
            "Squeeze(tensor_2)->tensor_6",
            "Squeeze(tensor_2,tensor_3)->tensor_5"
        ]
    );
    assert_eq!(tensors(c.graph()), ["squeeze_axes_9:7[2]=[0, 2]"]);
    c.set_target_opset(12);
    assert_eq!(
        message(run(&mut c, "1.squeeze", &[2, 3], &[5], "")),
        "squeeze with dynamic axes requires opset >= 13"
    );
}

#[test]
fn unsqueeze_orders_its_axes() {
    let mut c = with_opset(17);
    shape(&mut c, 1, &[3]);
    shape(&mut c, 9, &[1, 3, 1]);
    constant(&mut c, 2, &[-1.0, 0.0, 0.0]);
    run(&mut c, "1.unsqueeze", &[1, 2], &[9], "").unwrap();
    run(&mut c, "1.unsqueeze", &[1, 4], &[8], "").unwrap();
    assert_eq!(
        nodes(c.graph()),
        [
            "Unsqueeze(tensor_1,unsqueeze_axes_9)->tensor_9",
            "Unsqueeze(tensor_1,tensor_4)->tensor_8"
        ]
    );
    assert_eq!(tensors(c.graph()), ["unsqueeze_axes_9:7[2]=[0, 2]"]);
    assert_eq!(message(run(&mut c, "1.unsqueeze", &[1], &[8], "")), "unsqueeze missing axes");
}

#[test]
fn flatten_in_three_ways() {
    let mut c = with_opset(17);
    c.process_pass2_op("1.flatten", &typed("1.flatten", &[1], 9, "0.t_f32", "[2, -1]", "")).unwrap();
    run(&mut c, "1.flatten", &[1], &[8], &attr("start_axis", "0.a_i32", "2")).unwrap();
    assert_eq!(
        tensors(c.graph()),
        ["flatten_shape_9:7[2]=[2, -1]", "flatten_shape_8:7[3]=[0, 0, -1]"]
    );
    assert_eq!(
        nodes(c.graph()),
        [
            "Reshape(tensor_1,flatten_shape_9)->tensor_9",
            "Reshape(tensor_1,flatten_shape_8)->tensor_8"
        ]
    );
    let attrs = format!(
        "{}, {}",
        attr("start_axis", "0.a_i32", "1"),
        attr("stop_axis", "0.a_i32", "2")
    );
    assert_eq!(
        message(run(&mut c, "1.flatten", &[1], &[7], &attrs)),
        "flatten with explicit stop_axis=2 is missing output shape metadata"
    );
    let dynamic = typed("1.flatten", &[1], 7, "0.t_f32", "[-1, -1, 5]", &attrs);
    assert_eq!(
        message(c.process_pass2_op("1.flatten", &dynamic)),
        "flatten: missing input rank metadata"
    );
    shape(&mut c, 1, &[-1, 2, -1, 5]);
    c.process_pass2_op("1.flatten", &dynamic).unwrap();
    assert_eq!(
        nodes(c.graph())[2..],
        [
            "Shape(tensor_1)->flatten_input_shape_7",
            "Slice(flatten_input_shape_7,flatten_prefix_7_starts,flatten_prefix_7_ends,flatten_prefix_7_axes)->flatten_prefix_7",
            "Slice(flatten_input_shape_7,flatten_middle_7_starts,flatten_middle_7_ends,flatten_middle_7_axes)->flatten_middle_7",
            "ReduceProd(flatten_middle_7)->flatten_prod_7 axes=[0] keepdims=1",
            "Slice(flatten_input_shape_7,flatten_suffix_7_starts,flatten_suffix_7_ends,flatten_suffix_7_axes)->flatten_suffix_7",
            "Concat(flatten_prefix_7,flatten_prod_7,flatten_suffix_7)->flatten_shape_7 axis=0",
            "Reshape(tensor_1,flatten_shape_7)->tensor_7"
        ]
    );
    shape(&mut c, 1, &[-1, 2]);
    assert_eq!(
        message(c.process_pass2_op("1.flatten", &dynamic)),
        "flatten: invalid axes start_axis=1 stop_axis=2 for rank 2"
    );
}

#[test]
fn concat_and_split() {
    let mut c = with_opset(18);
    c.state.combines.insert(20, vec![1, 2]);
    constant(&mut c, 3, &[1.0]);
    run(&mut c, "1.concat", &[20, 3], &[9], "").unwrap();
    c.state.splits.insert(30, vec![31, 32]);
    run(&mut c, "1.split", &[1, 4, 3], &[30], "").unwrap();
    run(&mut c, "1.split_with_num", &[1, 3], &[30], "").unwrap();
    assert_eq!(
        nodes(c.graph()),
        [
            "Concat(tensor_1,tensor_2)->tensor_9 axis=1",
            "Split(tensor_1,tensor_4)->tensor_31,tensor_32 axis=1",
            "Split(tensor_1)->tensor_31,tensor_32 axis=1 num_outputs=2"
        ]
    );
    assert_eq!(
        message(run(&mut c, "1.concat", &[20, 5], &[9], "")),
        "concat: missing axis constant for id 5"
    );
    assert_eq!(
        message(run(&mut c, "1.concat", &[21, 3], &[9], "")),
        "Combine list_id 21 not found for concat"
    );
    assert_eq!(message(run(&mut c, "1.concat", &[20], &[9], "")), "Concat op missing enough inputs");
    assert_eq!(
        message(run(&mut c, "1.split", &[1], &[33], "")),
        "split op missing 0.split metadata for 33"
    );
}

// ---- Reductions and order ----

#[test]
fn reductions_by_constant_and_other_axes() {
    let mut c = with_opset(18);
    constant(&mut c, 2, &[0.0, -1.0]);
    run(&mut c, "1.max", &[1, 2], &[9], &attr("keepdim", "0.a_bool", "false")).unwrap();
    run(&mut c, "1.mean", &[1, 0], &[8], "").unwrap();
    run(&mut c, "1.min", &[1, 3], &[7], "").unwrap();
    c.set_target_opset(17);
    run(&mut c, "1.prod", &[1, 2], &[6], "").unwrap();
    run(&mut c, "1.sum", &[1, 2], &[5], "").unwrap();
    run(&mut c, "1.sum", &[1, 0], &[4], "").unwrap();
    assert_eq!(
        nodes(c.graph()),
        [
            "ReduceMax(tensor_1,reduce_max_9_axes)->tensor_9 keepdims=0",
            "ReduceMean(tensor_1)->tensor_8 keepdims=1",
            "Cast(tensor_3)->reduce_min_axes_i64_7 to=7",
            "ReduceMin(tensor_1,reduce_min_axes_i64_7)->tensor_7 keepdims=1",
            "ReduceProd(tensor_1)->tensor_6 axes=[0, -1] keepdims=1",
            "ReduceSum(tensor_1,tensor_2)->tensor_5 keepdims=1",
            "ReduceSum(tensor_1)->tensor_4 keepdims=1"
        ]
    );
    assert_eq!(
        message(run(&mut c, "1.max", &[1, 3], &[9], "")),
        "ReduceMax with dynamic axes requires opset >= 18"
    );
    assert_eq!(message(run(&mut c, "1.max", &[], &[9], "")), "max missing inputs");
    let mut c = with_opset(17);
    shape(&mut c, 1, &[]);
    run(&mut c, "1.max", &[1], &[9], "").unwrap();
    shape(&mut c, 8, &[1]);
    run(&mut c, "1.sum", &[1], &[8], "").unwrap();
    assert_eq!(
        nodes(c.graph()),
        ["Identity(tensor_1)->tensor_9", "Unsqueeze(tensor_1,scalar_reduce_axes_8)->tensor_8"]
    );
}

#[test]
fn topk_and_argmax() {
    let mut c = with_opset(17);
    run(&mut c, "1.topk", &[1, 2], &[9, 10], &attr("largest", "0.a_bool", "false")).unwrap();
    constant(&mut c, 3, &[1.0]);
    elem(&mut c, 8, "0.t_i32");
    run(&mut c, "1.argmax", &[1, 3], &[8], &attr("keepdims", "0.a_bool", "false")).unwrap();
    assert_eq!(
        nodes(c.graph()),
        [
            "Cast(tensor_2)->topk_k_i64_9 to=7",
            "TopK(tensor_1,topk_k_i64_9)->tensor_9,tensor_10 axis=-1 largest=0 sorted=1",
            "ArgMax(tensor_1)->argmax_i64_8 axis=1 keepdims=0",
            "Cast(argmax_i64_8)->tensor_8 to=6"
        ]
    );
    assert_eq!(
        message(run(&mut c, "1.argmax", &[1], &[8], &attr("flatten", "0.a_bool", "true"))),
        "argmax with flatten=true is not supported"
    );
    c.set_target_opset(10);
    assert_eq!(
        message(run(&mut c, "1.topk", &[1, 2], &[9, 10], "")),
        "topk: opset <= 10 requires constant k"
    );
    constant(&mut c, 2, &[4.0]);
    elem(&mut c, 2, "0.t_i64");
    run(&mut c, "1.topk", &[1, 2], &[9, 10], "").unwrap();
    assert_eq!(
        nodes(c.graph()).last().unwrap(),
        "TopK(tensor_1)->tensor_9,tensor_10 k=4 axis=-1 largest=1 sorted=1"
    );
}

#[test]
fn argsort_breaks_ties_of_integers() {
    let mut c = with_opset(17);
    elem(&mut c, 1, "0.t_i32");
    shape(&mut c, 1, &[2, 3]);
    run(&mut c, "1.argsort", &[1], &[9, 10], &attr("descending", "0.a_bool", "true")).unwrap();
    assert_eq!(
        nodes(c.graph()),
        [
            "Shape(tensor_1)->argsort_shape_9",
            "Gather(argsort_shape_9,argsort_axis_argsort_shape_9)->argsort_k_argsort_shape_9",
            "Cast(tensor_1)->argsort_input_i64_9 to=7",
            "Mul(argsort_input_i64_9,argsort_tie_scale_9)->argsort_scaled_input_9",
            "Add(argsort_scaled_input_9,argsort_tie_break_9)->argsort_key_9",
            "TopK(argsort_key_9,argsort_k_argsort_shape_9)->argsort_key_values_9,tensor_10 axis=1 largest=1 sorted=1",
            "GatherElements(tensor_1,tensor_10)->tensor_9 axis=1"
        ]
    );
    assert_eq!(
        tensors(c.graph()),
        [
            "argsort_axis_argsort_shape_9:7[1]=[1]",
            "argsort_tie_scale_9:7[1]=[4]",
            "argsort_tie_break_9:7[1, 3]=[3, 2, 1]"
        ]
    );
    let mut c = with_opset(12);
    assert_eq!(
        message(run(&mut c, "1.argsort", &[1], &[9, 10], "")),
        "argsort negative axis gather requires opset >= 13, but target opset is 12"
    );
    run(&mut c, "1.argsort", &[1], &[9, 10], &attr("axis", "0.a_i32", "0")).unwrap();
    assert_eq!(
        nodes(c.graph()).last().unwrap(),
        "TopK(tensor_1,argsort_k_argsort_shape_9)->tensor_9,tensor_10 axis=0 largest=0 sorted=1"
    );
    assert_eq!(message(run(&mut c, "1.argsort", &[1], &[9], "")), "argsort expects two outputs");
}

// ---- Updates ----

#[test]
fn index_put_in_three_patterns() {
    let mut c = with_opset(17);
    shape(&mut c, 1, &[2, 3]);
    shape(&mut c, 2, &[2, 3]);
    elem(&mut c, 2, "0.t_bool");
    c.state.combines.insert(20, vec![2]);
    run(&mut c, "1.index_put", &[1, 20, 3], &[9], "").unwrap();
    shape(&mut c, 4, &[2]);
    c.state.combines.insert(21, vec![4]);
    run(&mut c, "1.index_put", &[1, 21, 3], &[8], "").unwrap();
    shape(&mut c, 3, &[2, 3]);
    c.state.combines.insert(22, vec![4, 5]);
    run(&mut c, "1.index_put", &[1, 22, 3], &[7], "").unwrap();
    assert_eq!(
        nodes(c.graph()),
        [
            "Shape(tensor_1)->index_put_shape_9",
            "Expand(tensor_3,index_put_shape_9)->index_put_value_9",
            "Where(tensor_2,index_put_value_9,tensor_1)->tensor_9",
            "Unsqueeze(tensor_4,index_put_axis_8)->index_put_indices_unsqueezed_8",
            "Shape(index_put_indices_unsqueezed_8)->index_put_shape_8",
            "Expand(tensor_3,index_put_shape_8)->index_put_value_8",
            "ScatterElements(tensor_1,index_put_indices_unsqueezed_8,index_put_value_8)->tensor_8 axis=0",
            "Unsqueeze(tensor_4,index_put_stack_axis_7)->index_put_row_unsqueezed_7",
            "Unsqueeze(tensor_5,index_put_stack_axis_7)->index_put_col_unsqueezed_7",
            "Concat(index_put_row_unsqueezed_7,index_put_col_unsqueezed_7)->index_put_indices_7 axis=-1",
            "ScatterND(tensor_1,index_put_indices_7,tensor_3)->tensor_7"
        ]
    );
    assert_eq!(
        message(run(&mut c, "1.index_put", &[1, 21, 3], &[6], "")),
        "unsupported index_put pattern for output 6"
    );
    assert_eq!(
        message(run(&mut c, "1.index_put", &[1, 99, 3], &[6], "")),
        "index_put expects combined mask input"
    );
    assert_eq!(message(run(&mut c, "1.index_put", &[1], &[6], "")), "index_put missing inputs");
}

fn filler(value: &str) -> String {
    attr("values", "0.a_array", &format!("[{{\"#\": \"0.a_f64\", \"D\": {}}}]", value))
}

#[test]
fn set_value_along_an_axis() {
    let mut c = with_opset(17);
    elem(&mut c, 1, "0.t_i64");
    constant(&mut c, 2, &[1.0]);
    constant(&mut c, 3, &[6.0]);
    constant(&mut c, 4, &[2.0]);
    let attrs = format!("{}, {}", attr("axes", "0.a_array", &ints(&[1])), filler("5.0"));
    run(&mut c, "1.set_value_", &[1, 2, 3, 4], &[9], &attrs).unwrap();
    assert_eq!(
        nodes(c.graph()),
        [
            "Shape(tensor_1)->set_value_shape_9",
            "Gather(set_value_shape_9,set_value_batch_axis_9)->set_value_batch_dim_9",
            "Concat(set_value_batch_dim_9,set_value_slice_len_9)->set_value_update_shape_9 axis=0",
            "Expand(set_value_indices_9,set_value_update_shape_9)->set_value_indices_expanded_9",
            "Expand(set_value_updates_9,set_value_update_shape_9)->set_value_updates_expanded_9",
            "ScatterElements(tensor_1,set_value_indices_expanded_9,set_value_updates_expanded_9)->tensor_9 axis=1"
        ]
    );
    assert_eq!(
        tensors(c.graph()),
        [
            "set_value_batch_axis_9:7[1]=[0]",
            "set_value_slice_len_9:7[1]=[3]",
            "set_value_indices_9:7[1, 3]=[1, 3, 5]",
            "set_value_updates_9:7[1]=[5]"
        ]
    );
    constant(&mut c, 3, &[1.0]);
    run(&mut c, "1.set_value_", &[1, 2, 3, 4], &[8], &attrs).unwrap();
    assert_eq!(nodes(c.graph()).last().unwrap(), "Identity(tensor_1)->tensor_8");
    constant(&mut c, 4, &[0.5]);
    assert_eq!(
        message(run(&mut c, "1.set_value_", &[1, 2, 3, 4], &[8], &attrs)),
        "set_value_ step cannot be zero"
    );
    constant(&mut c, 4, &[-1.0]);
    assert_eq!(
        message(run(&mut c, "1.set_value_", &[1, 2, 3, 4], &[8], &attrs)),
        "set_value_ axes=[1] currently only supports positive step"
    );
    assert_eq!(
        message(run(&mut c, "1.set_value_", &[1, 2, 3, 4], &[8], "")),
        "set_value_ currently only supports axes=[1] or axes=[1,2] constant block writes"
    );
}

#[test]
fn set_value_in_a_block() {
    let mut c = with_opset(17);
    shape(&mut c, 1, &[2, 3, 4]);
    constant(&mut c, 2, &[0.0, -1.0]);
    constant(&mut c, 3, &[2.0, -4.0]);
    constant(&mut c, 4, &[1.0, -2.0]);
    let attrs = format!("{}, {}", attr("axes", "0.a_array", &ints(&[1, 2])), filler("0.5"));
    run(&mut c, "1.set_value_", &[1, 2, 3, 4], &[9], &attrs).unwrap();
    assert_eq!(
        nodes(c.graph()),
        ["ScatterND(tensor_1,set_value_indices_9,set_value_updates_9)->tensor_9"]
    );
    assert_eq!(
        tensors(c.graph()),
        [
            "set_value_indices_9:7[8, 3]=[0, 0, 3, 0, 0, 1, 0, 1, 3, 0, 1, 1, 1, 0, 3, 1, 0, 1, 1, 1, 3, 1, 1, 1]",
            "set_value_updates_9:1[8]=[0.5, 0.5, 0.5, 0.5, 0.5, 0.5, 0.5, 0.5]"
        ]
    );
    constant(&mut c, 3, &[0.0, -4.0]);
    run(&mut c, "1.set_value_", &[1, 2, 3, 4], &[8], &attrs).unwrap();
    assert_eq!(nodes(c.graph()).last().unwrap(), "Identity(tensor_1)->tensor_8");
    shape(&mut c, 1, &[2, 3]);
    assert_eq!(
        message(run(&mut c, "1.set_value_", &[1, 2, 3, 4], &[8], &attrs)),
        "set_value_: axis 2 out of range for rank 2"
    );
    shape(&mut c, 1, &[2, -1, 4]);
    assert_eq!(
        message(run(&mut c, "1.set_value_", &[1, 2, 3, 4], &[8], &attrs)),
        "set_value_ axes=[1,2] requires static positive dims"
    );
    assert_eq!(
        message(run(&mut c, "1.set_value_", &[5, 2, 3, 4], &[8], &attrs)),
        "set_value_: missing shape metadata"
    );
}

#[test]
fn set_value_from_a_tensor() {
    let mut c = with_opset(17);
    run(&mut c, "1.set_value_with_tensor_", &[1, 2], &[9], "").unwrap();
    assert_eq!(nodes(c.graph()), ["Identity(tensor_2)->tensor_9"]);
    shape(&mut c, 1, &[2, 3]);
    for id in 3..6 {
        elem(&mut c, id, "0.t_i64");
        shape(&mut c, id, &[]);
    }
    let axes = attr("axes", "0.a_array", &ints(&[1]));
    run(&mut c, "1.set_value_with_tensor_", &[1, 2, 3, 4, 5], &[8], &axes).unwrap();
    assert_eq!(
        nodes(c.graph())[1..],
        [
            "Range(tensor_3,tensor_4,tensor_5)->set_value_tensor_range_8",
            "Shape(tensor_2)->set_value_tensor_updates_shape_8",
            "Reshape(set_value_tensor_range_8,set_value_tensor_index_shape_8)->set_value_tensor_range_shaped_8",
            "Expand(set_value_tensor_range_shaped_8,set_value_tensor_updates_shape_8)->set_value_tensor_indices_8",
            "ScatterElements(tensor_1,set_value_tensor_indices_8,tensor_2)->tensor_8 axis=1"
        ]
    );
    assert_eq!(tensors(c.graph()), ["set_value_tensor_index_shape_8:7[2]=[1, -1]"]);
    let both = format!("{}, {}", axes, attr("decrease_axes", "0.a_array", &ints(&[1])));
    constant(&mut c, 3, &[0.0]);
    constant(&mut c, 4, &[2.0]);
    constant(&mut c, 5, &[1.0]);
    assert_eq!(
        message(run(&mut c, "1.set_value_with_tensor_", &[1, 2, 3, 4, 5], &[7], &both)),
        "set_value_with_tensor_ decrease_axes=[1] requires a single indexed position"
    );
    constant(&mut c, 5, &[2.0]);
    run(&mut c, "1.set_value_with_tensor_", &[1, 2, 3, 4, 5], &[6], &both).unwrap();
    assert_eq!(
        nodes(c.graph()).last().unwrap(),
        "ScatterElements(tensor_1,set_value_tensor_indices_6,set_value_tensor_updates_6)->tensor_6 axis=1"
    );
    assert_eq!(
        message(run(&mut c, "1.set_value_with_tensor_", &[1, 2], &[6], &axes)),
        "set_value_with_tensor_ axes=[1] expects data, values, starts, ends, steps"
    );
    assert_eq!(
        message(run(
            &mut c,
            "1.set_value_with_tensor_",
            &[1, 2],
            &[6],
            &attr("axes", "0.a_array", &ints(&[2]))
        )),
        "set_value_with_tensor_ currently only supports axes=[1]"
    );
}

#[test]
fn repeat_interleave_tiles_a_new_axis() {
    let mut c = with_opset(17);
    shape(&mut c, 1, &[2, 3]);
    let attrs = format!("{}, {}", attr("axis", "0.a_i32", "-1"), attr("repeats", "0.a_i32", "4"));
    run(&mut c, "1.repeat_interleave", &[1], &[9], &attrs).unwrap();
    assert_eq!(
        nodes(c.graph()),
        [
            "Unsqueeze(tensor_1,repeat_interleave_axes_9)->repeat_interleave_expanded_9",
            "Concat(repeat_interleave_tile_repeat_9_0,repeat_interleave_tile_repeat_9_1,repeat_interleave_repeats_dim_9)->repeat_interleave_tile_repeats_9 axis=0",
            "Tile(repeat_interleave_expanded_9,repeat_interleave_tile_repeats_9)->repeat_interleave_tiled_9",
            "Shape(tensor_1)->repeat_interleave_input_shape_9",
            "Slice(repeat_interleave_input_shape_9,repeat_interleave_axis_dim_9_starts,repeat_interleave_axis_dim_9_ends,repeat_interleave_axis_dim_9_axes)->repeat_interleave_axis_dim_9",
            "Mul(repeat_interleave_axis_dim_9,repeat_interleave_repeats_dim_9)->repeat_interleave_repeated_dim_9",
            "Slice(repeat_interleave_input_shape_9,repeat_interleave_prefix_9_starts,repeat_interleave_prefix_9_ends,repeat_interleave_prefix_9_axes)->repeat_interleave_prefix_9",
            "Concat(repeat_interleave_prefix_9,repeat_interleave_repeated_dim_9)->repeat_interleave_shape_9 axis=0",
            "Reshape(repeat_interleave_tiled_9,repeat_interleave_shape_9)->tensor_9"
        ]
    );
    assert_eq!(
        message(run(&mut c, "1.repeat_interleave", &[1], &[9], "")),
        "repeat_interleave: missing repeats"
    );
}

#[test]
fn put_along_axis_assigns() {
    let mut c = with_opset(17);
    shape(&mut c, 1, &[2, 3]);
    run(&mut c, "1.put_along_axis", &[1, 2, 3], &[9], &attr("axis", "0.a_i32", "-1")).unwrap();
    assert_eq!(
        nodes(c.graph()),
        [
            "Cast(tensor_2)->put_along_axis_indices_i64_9 to=7",
            "ScatterElements(tensor_1,put_along_axis_indices_i64_9,tensor_3)->tensor_9 axis=1"
        ]
    );
    assert_eq!(
        message(run(
            &mut c,
            "1.put_along_axis",
            &[1, 2, 3],
            &[9],
            &attr("reduce", "0.a_str", "\"add\"")
        )),
        "put_along_axis only supports reduce=assign"
    );
    assert_eq!(
        message(run(
            &mut c,
            "1.put_along_axis",
            &[1, 2, 3],
            &[9],
            &attr("include_self", "0.a_bool", "false")
        )),
        "put_along_axis only supports include_self=true"
    );
}

// ---- Non-maximum suppression ----

#[test]
fn suppression_is_spelled_out() {
    let mut c = with_opset(17);
    let attrs = format!(
        "{}, {}, {}",
        attr("keep_top_k", "0.a_i32", "100"),
        attr("nms_top_k", "0.a_i32", "400"),
        attr("score_threshold", "0.a_f32", "0.25")
    );
    run(&mut c, "1.multiclass_nms3", &[1, 2], &[7, 8, 9], &attrs).unwrap();
    let list = nodes(c.graph());
    assert_eq!(
        list[..6],
        [
            "NonMaxSuppression(tensor_1,tensor_2,nms_max_boxes_7,nms_iou_threshold_7,nms_score_threshold_7)->nms_selected_indices_7 center_point_box=0",
            "Shape(nms_selected_indices_7)->nms_selected_shape_7",
            "Gather(nms_selected_shape_7,nms_selected_count_index_7)->nms_selected_count_7",
            "Less(nms_selected_count_7,nms_keep_top_k_7)->nms_take_cond_7",
            "Where(nms_take_cond_7,nms_selected_count_7,nms_keep_top_k_7)->nms_take_k_7",
            "Squeeze(nms_take_k_7,nms_take_k_axes_7)->nms_take_k_scalar_7"
        ]
    );
    assert_eq!(
        list[list.len() - 4..],
        [
            "Concat(nms_class_expanded_7,nms_scores_expanded_7,nms_selected_boxes_sorted_7)->tensor_7 axis=1",
            "Cast(nms_selected_index_7)->nms_selected_index_i32_7 to=6",
            "Unsqueeze(nms_selected_index_i32_7,nms_selected_index_axes_7)->tensor_8",
            "Cast(nms_take_k_7)->tensor_9 to=6"
        ]
    );
    assert_eq!(
        tensors(c.graph())[..3],
        [
            "nms_max_boxes_7:7[1]=[400]",
            "nms_iou_threshold_7:1[1]=[0.5]",
            "nms_score_threshold_7:1[1]=[0.25]"
        ]
    );
    assert_eq!(list.len(), 40);
    for (attrs, text) in [
        (
            attr("background_label", "0.a_i32", "0"),
            "multiclass_nms3 currently only supports background_label=-1",
        ),
        (
            attr("nms_eta", "0.a_f32", "0.9"),
            "multiclass_nms3 currently only supports nms_eta=1.0",
        ),
    ] {
        assert_eq!(message(run(&mut c, "1.multiclass_nms3", &[1, 2], &[7, 8, 9], &attrs)), text);
    }
    assert_eq!(
        message(run(&mut c, "1.multiclass_nms3", &[1, 2], &[7, 8], "")),
        "multiclass_nms3 expects three outputs"
    );
    let mut c = with_opset(10);
    assert_eq!(
        message(run(&mut c, "1.multiclass_nms3", &[1, 2], &[7, 8, 9], "")),
        "multiclass_nms3 requires opset >= 11, but target opset is 10"
    );
}
