use fuse::model::merging::{
    average_merge_content, average_parameters, check_model_count, check_strategy_counts, merged_metadata, merged_tags,
    ModelMerger, StrategyKind,
};
use fuse::model::metadata::ModelMetadata;
use fuse::model::source::ModelSource;

#[test]
fn merge_request_checks() {
    assert!(check_model_count(2).is_ok());
    assert_eq!(check_model_count(1).unwrap_err().message(), "At least 2 models are required for merging");
    assert_eq!(check_strategy_counts(StrategyKind::Slerp, 3, 0).unwrap_err().message(), "SLERP merging requires exactly 2 models");
    assert!(check_strategy_counts(StrategyKind::Slerp, 2, 0).is_ok());
    assert_eq!(
        check_strategy_counts(StrategyKind::Weighted, 3, 2).unwrap_err().message(),
        "Weighted merging requires 3 weights but 2 provided"
    );
    assert!(check_strategy_counts(StrategyKind::Average, 5, 0).is_ok());
}

#[test]
fn average_merge() {
    assert_eq!(average_parameters(&vec![Some(7_000), None, Some(2_000)]), (9_000, 3_000));
    let text = average_merge_content(&vec!["a".to_string(), "b".to_string()], 9, 4, "2024-01-01 00:00:00 UTC");
    assert_eq!(
        text,
        "# Merged Model (Average)\n# Merged from: a, b\n# Total parameters: 9\n# Average parameters: 4\n# Generated: 2024-01-01 00:00:00 UTC\n"
    );
}

#[test]
fn merged_model_records() {
    let tags = merged_tags(&vec![vec!["llama".to_string()], vec![], vec!["chat".to_string(), "7b".to_string()]]);
    assert_eq!(tags, vec!["merged", "llama", "chat", "7b"]);
    let m = ModelMerger::new("/ws");
    assert_eq!(m.default_output_path("out"), "/ws/models/out");
}

#[test]
fn merged_metadata_takes_first_model_and_all_tags() {
    let a = ModelMetadata::new("a", "model-a", ModelSource::huggingface("org/a"), "1", 10, 0)
        .with_architecture("llama")
        .with_tag("x")
        .with_tokenizer_path("tokenizer.json");
    let b = ModelMetadata::new("b", "model-b", ModelSource::huggingface("org/b"), "1", 10, 0).with_tag("y");
    let m = merged_metadata(
        &vec![a, b],
        "combo",
        2048,
        7,
        serde_json::Value::from("Average"),
        1_700_000_000,
        "2023-11-14T22:13:20+00:00",
        1_700_000_000_000,
    );
    assert_eq!(m.id, "merged_1700000000");
    assert_eq!(m.name, "combo");
    assert_eq!(m.source.repository, "org/a");
    assert_eq!(m.version, "merged");
    assert_eq!(m.updated_at, Some(1_700_000_000_000));
    assert_eq!(m.architecture, Some("llama".to_string()));
    assert_eq!(m.parameter_count, Some(7));
    assert_eq!(m.tags, vec!["merged", "x", "y"]);
    assert_eq!(m.file_paths, vec!["combo.bin"]);
    assert_eq!(m.config_path, Some("combo_config.json".to_string()));
    assert_eq!(m.tokenizer_path, Some("tokenizer.json".to_string()));
    assert_eq!(m.custom_metadata.len(), 3);
    assert_eq!(m.custom_metadata[0].0, "merge_strategy");
    assert_eq!(m.custom_metadata[1].1, serde_json::Value::from(vec!["model-a", "model-b"]));
    assert_eq!(m.custom_metadata[2].1, serde_json::Value::from("2023-11-14T22:13:20+00:00"));
}
