use fuse::layer::report::{
    generate_inspection_ascii, generate_inspection_html, generate_inspection_markdown, generate_validation_ascii,
    generate_validation_html, generate_validation_markdown,
};
use fuse::layer::{IssueSeverity, LayerInfo, LayerInspector, ValidationIssue, ValidationReport};

fn sample_report() -> ValidationReport {
    ValidationReport {
        model_name: "demo".to_string(),
        is_valid: false,
        issues: vec![
            ValidationIssue { severity: IssueSeverity::Error, layer_id: None, message: "broken".to_string(), suggestion: Some("fix it".to_string()) },
            ValidationIssue { severity: IssueSeverity::Warning, layer_id: None, message: "odd".to_string(), suggestion: None },
            ValidationIssue { severity: IssueSeverity::Info, layer_id: None, message: "note".to_string(), suggestion: None },
        ],
        layer_count: 4,
        total_parameters: 704_000_000,
        total_size_bytes: 2_816_000_000,
        architecture_valid: true,
        tensor_shapes_valid: false,
        connections_valid: true,
    }
}

#[test]
fn validation_ascii_text() {
    let r = sample_report();
    let text = generate_validation_ascii(&r, "704.00M");
    let expected = "Model Validation Report: demo\nStatus: ✗ INVALID\n\nValidation Checks:\n  Architecture: ✓\n  Tensor Shapes: ✗\n  Connections: ✓\n\nModel Statistics:\n  Layers: 4\n  Parameters: 704.00M\n  Size: 2.62 GB\n\nIssues:\n  ✗ broken\n    Suggestion: fix it\n  ⚠ odd\n  ℹ note\n";
    assert_eq!(text, expected);
}

#[test]
fn validation_markdown_text() {
    let r = sample_report();
    let text = generate_validation_markdown(&r, "704.00M");
    assert!(text.starts_with("# Model Validation Report: demo\n\n**Status:** ✗ INVALID\n\n"));
    assert!(text.contains("- Tensor Shapes: ✗ Fail\n"));
    assert!(text.contains("## Issues (1 errors, 1 warnings)\n\n- **❌ Error:** broken\n  - *Suggestion:* fix it\n- **⚠️ Warning:** odd\n- **ℹ️ Info:** note\n"));
}

#[test]
fn validation_html_text() {
    let r = sample_report();
    let html = generate_validation_html(&r, "704.00M");
    assert!(html.contains("<div class=\"status\">INVALID</div>"));
    assert!(html.contains("color: #f44336;"));
    assert!(html.contains("<div class=\"check fail\">Tensor Shapes: ✗ Fail</div>"));
    assert!(html.contains("<h2>Issues (1 errors, 1 warnings)</h2>\n            <div class=\"issue error\"><strong>Error:</strong> broken</div>\n            <div class=\"issue warning\"><strong>Warning:</strong> odd</div>"));
    assert!(html.ends_with("</html>"));
}

fn texts(layers: &[LayerInfo]) -> (Vec<String>, Vec<String>) {
    (layers.iter().map(|l| l.format_size()).collect(), layers.iter().map(|l| format!("{}", l.parameters)).collect())
}

fn total_gb(layers: &[LayerInfo]) -> String {
    let total: u64 = layers.iter().map(|l| l.size_bytes).sum();
    format!("{:.2}", total as f64 / (1024.0 * 1024.0 * 1024.0))
}

#[test]
fn inspection_ascii_matches_column_layout() {
    let layers = LayerInspector::new().generate_mock_layers(false);
    let (sizes, params) = texts(&layers);
    let text = generate_inspection_ascii("m", "T", &layers, &params, "0.70");
    let id_w = layers.iter().map(|l| l.id.len()).max().unwrap_or(10).max(10);
    let name_w = layers.iter().map(|l| l.name.len()).max().unwrap_or(15).max(15);
    let type_w = layers.iter().map(|l| l.layer_type.len()).max().unwrap_or(15).max(15);
    let mut expected = String::new();
    expected.push_str("Layer Inspection Report: m\nGenerated: T\n\n");
    expected.push_str(&format!("{:<id_w$} | {:<name_w$} | {:<type_w$} | {:>12} | {:>12}\n", "ID", "Name", "Type", "Size", "Parameters"));
    expected.push_str(&"-".repeat(id_w + name_w + type_w + 40));
    expected.push('\n');
    for (i, l) in layers.iter().enumerate() {
        expected.push_str(&format!("{:<id_w$} | {:<name_w$} | {:<type_w$} | {:>12} | {:>12}\n", l.id, l.name, l.layer_type, sizes[i], params[i]));
    }
    expected.push_str(&format!("\nTotal Layers: 4\nTotal Size: {} GB\nTotal Parameters: 0.70B\n", total_gb(&layers)));
    assert_eq!(text, expected);
}

#[test]
fn inspection_markdown_and_html_rows() {
    let layers = LayerInspector::new().generate_mock_layers(false);
    let (sizes, params) = texts(&layers);
    let md = generate_inspection_markdown("m", "T", &layers, &params, "0.70");
    assert!(md.contains(&format!("| layer_3 | output_head | Linear | {} | 64000000 | [1, 512, 768] | [1, 512, 50257] |\n", sizes[3])));
    assert_eq!(sizes[3], "244.14 MB");
    assert!(md.ends_with(&format!("- **Total Layers:** 4\n- **Total Size:** {} GB\n- **Total Parameters:** 0.70B\n", total_gb(&layers))));
    let html = generate_inspection_html("m", "T", &layers, &params, "0.70");
    assert!(html.contains("<td>[1, 512]</td>"));
    assert!(html.contains("<strong>Model:</strong> m<br>\n            <strong>Generated:</strong> T"));
    assert!(html.contains("<p><strong>Total Layers:</strong> 4</p>"));
}
