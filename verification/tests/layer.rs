use fuse::layer::{
    IssueSeverity, LayerConfig, LayerInspector, LayerManipulator, LayerService, LayerType, ModelValidator,
    ReportFormat, ReportGenerator, ValidationIssue, ValidationReport,
};

fn issue(severity: IssueSeverity, message: &str) -> ValidationIssue {
    ValidationIssue { severity, layer_id: None, message: message.to_string(), suggestion: None }
}

fn report(issues: Vec<ValidationIssue>) -> ValidationReport {
    ValidationReport {
        model_name: "test-model".to_string(),
        is_valid: false,
        issues,
        layer_count: 10,
        total_parameters: 1_000_000_000,
        total_size_bytes: 4_000_000_000,
        architecture_valid: true,
        tensor_shapes_valid: true,
        connections_valid: true,
    }
}

#[test]
fn test_issue_severity_counting() {
    let report = report(vec![
        issue(IssueSeverity::Error, "Error 1"),
        issue(IssueSeverity::Warning, "Warning 1"),
        issue(IssueSeverity::Warning, "Warning 2"),
    ]);
    assert_eq!(report.error_count(), 1);
    assert_eq!(report.warning_count(), 2);
}

#[test]
fn empty_report_counts_nothing() {
    let r = report(vec![issue(IssueSeverity::Info, "fine")]);
    assert_eq!(r.error_count(), 0);
    assert_eq!(r.warning_count(), 0);
}

#[test]
fn test_validate_geo_restriction_config() {
    let manipulator = LayerManipulator::new();
    let valid_config = LayerConfig { name: "geo_filter".to_string(), parameter_keys: Some(vec!["allowed_countries".to_string()]) };
    assert!(manipulator.validate_layer_config(&LayerType::GeoRestriction, &valid_config).is_ok());
    let invalid_config = LayerConfig { name: "geo_filter".to_string(), parameter_keys: Some(vec![]) };
    assert!(manipulator.validate_layer_config(&LayerType::GeoRestriction, &invalid_config).is_err());
}

#[test]
fn test_validate_content_filter_config() {
    let manipulator = LayerManipulator::new();
    let valid_config = LayerConfig { name: "content_filter".to_string(), parameter_keys: Some(vec!["filter_rules".to_string()]) };
    assert!(manipulator.validate_layer_config(&LayerType::ContentFilter, &valid_config).is_ok());
}

#[test]
fn layer_config_errors() {
    let m = LayerManipulator::new();
    let not_object = LayerConfig { name: "x".to_string(), parameter_keys: None };
    assert_eq!(
        m.validate_layer_config(&LayerType::ContentFilter, &not_object).unwrap_err().message(),
        "Content filter config must be an object"
    );
    let unnamed = LayerConfig { name: String::new(), parameter_keys: None };
    assert_eq!(m.validate_layer_config(&LayerType::Custom, &unnamed).unwrap_err().message(), "Custom layer must have a name");
    let blocked = LayerConfig { name: "g".to_string(), parameter_keys: Some(vec!["blocked_countries".to_string()]) };
    assert!(m.validate_layer_config(&LayerType::GeoRestriction, &blocked).is_ok());
    assert!(m.validate_layer_removal("layer_1").is_ok());
    assert_eq!(m.validate_layer_removal("output_head").unwrap_err().message(), "Cannot remove critical layer: output_head");
}

#[test]
fn mock_layers_and_validation() {
    let layers = LayerInspector::new().generate_mock_layers(false);
    assert_eq!(layers.len(), 4);
    assert_eq!(layers[0].name, "embedding");
    assert_eq!(layers[3].output_shape, vec![1, 512, 50257]);
    let r = ModelValidator::new().validate_existing(Some("model.gguf"));
    assert!(r.is_valid);
    assert_eq!(r.model_name, "model.gguf");
    assert_eq!(r.issues.len(), 3);
    assert_eq!(ModelValidator::new().validate_existing(None).model_name, "unknown");
}

#[test]
fn report_formats() {
    assert_eq!(ReportFormat::parse_format("TABLE"), Some(ReportFormat::AsciiTable));
    assert_eq!(ReportFormat::parse_format("md"), Some(ReportFormat::Markdown));
    assert_eq!(ReportFormat::parse_format("pdf"), None);
    assert_eq!(ReportFormat::Html.extension(), "html");
    assert_eq!(ReportGenerator::report_file_name("m", true, ReportFormat::Json), "m_layers.json");
    assert_eq!(ReportGenerator::new("/ws").unwrap().report_dir, "/ws/.fuse/report");
    assert_eq!(LayerService::new("/ws/").unwrap().report_generator.report_dir, "/ws/.fuse/report");
}
