//! What the user asks for.

use p2o::cli::{parse_target_opset, Cli, CliOptimizationLevel, TargetOpset};
use p2o::converter::optimizer::options::OptimizationLevel;
use p2o::converter::DEFAULT_OPSET;

fn request(opset: Option<&str>) -> Result<Cli, String> {
    Cli::new(
        "model.json".to_string(),
        "model.pdiparams".to_string(),
        "model.onnx".to_string(),
        opset,
        None,
        false,
    )
}

#[test]
fn test_cli_defaults_to_opset_17() {
    let cli = request(None).unwrap();
    assert_eq!(cli.opset.resolve(), DEFAULT_OPSET);
    assert_eq!(cli.opset.resolve(), 17);
    assert_eq!(cli.optimize, CliOptimizationLevel::Basic);
    assert_eq!(cli.model_json, "model.json");
    assert_eq!(cli.model_pdiparams, "model.pdiparams");
    assert_eq!(cli.output_onnx, "model.onnx");
    assert!(!cli.strict);
}

#[test]
fn test_cli_accepts_auto_opset() {
    let cli = request(Some("auto")).unwrap();
    assert_eq!(cli.opset, TargetOpset::Auto);
    assert_eq!(cli.opset.resolve(), DEFAULT_OPSET);
}

#[test]
fn test_cli_rejects_unsupported_opset() {
    let err = request(Some("9")).unwrap_err();
    assert!(err.to_string().contains("must be >= 10"));
}

#[test]
fn opset_texts() {
    assert_eq!(parse_target_opset("AuTo"), Ok(TargetOpset::Auto));
    assert_eq!(parse_target_opset("10"), Ok(TargetOpset::Version(10)));
    assert_eq!(parse_target_opset("+18"), Ok(TargetOpset::Version(18)));
    assert_eq!(parse_target_opset("0021"), Ok(TargetOpset::Version(21)));
    assert_eq!(
        parse_target_opset("9223372036854775807"),
        Ok(TargetOpset::Version(i64::MAX))
    );
    assert_eq!(
        parse_target_opset("9"),
        Err("Target ONNX opset must be >= 10, got 9. Lower opsets are not supported.".to_string())
    );
    assert_eq!(
        parse_target_opset("-9223372036854775808"),
        Err(
            "Target ONNX opset must be >= 10, got -9223372036854775808. Lower opsets are not supported."
                .to_string()
        )
    );
    for text in [
        "",
        "+",
        "-",
        "17 ",
        "1_7",
        "autos",
        "seventeen",
        "9223372036854775808",
        "-9223372036854775809",
        "99999999999999999999999999999999999999999999999999",
    ] {
        assert_eq!(
            parse_target_opset(text),
            Err(format!("Invalid opset value: {}", text))
        );
    }
}

#[test]
fn optimization_levels() {
    assert_eq!(OptimizationLevel::from(CliOptimizationLevel::Off), OptimizationLevel::Off);
    assert_eq!(OptimizationLevel::from(CliOptimizationLevel::Basic), OptimizationLevel::Basic);
}
