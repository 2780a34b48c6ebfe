use fuse::model::metadata::ModelMetadata;
use fuse::model::source::ModelSource;
use std::time::{SystemTime, UNIX_EPOCH};

fn now_ms() -> i64 {
    SystemTime::now().duration_since(UNIX_EPOCH).unwrap().as_millis() as i64
}

fn create_test_metadata() -> ModelMetadata {
    ModelMetadata::new("test-model", "Test Model", ModelSource::huggingface("test/model"), "1.0.0", 1024 * 1024 * 1024, now_ms())
}

#[test]
fn test_metadata_creation() {
    let metadata = create_test_metadata();

    assert_eq!(metadata.id, "test-model");
    assert_eq!(metadata.name, "Test Model");
    assert_eq!(metadata.version, "1.0.0");
    assert_eq!(metadata.size_bytes, 1024 * 1024 * 1024);
    assert!(metadata.architecture.is_none());
    assert!(metadata.parameter_count.is_none());
    assert!(metadata.quantization.is_none());
    assert!(metadata.format.is_none());
    assert!(metadata.tags.is_empty());
    assert!(metadata.custom_metadata.is_empty());
}

#[test]
fn test_metadata_with_architecture() {
    let metadata = create_test_metadata().with_architecture("transformer");
    assert_eq!(metadata.architecture, Some("transformer".to_string()));
}

#[test]
fn test_metadata_with_parameter_count() {
    let metadata = create_test_metadata().with_parameter_count(7_000_000_000);
    assert_eq!(metadata.parameter_count, Some(7_000_000_000));
}

#[test]
fn test_metadata_with_quantization() {
    let metadata = create_test_metadata().with_quantization("Q4_0");
    assert_eq!(metadata.quantization, Some("Q4_0".to_string()));
}

#[test]
fn test_metadata_with_tags() {
    let metadata = create_test_metadata().with_tag("nlp").with_tag("transformer");
    assert_eq!(metadata.tags, vec!["nlp", "transformer"]);

    let metadata = create_test_metadata().with_tags(vec!["nlp".to_string(), "transformer".to_string()]);
    assert_eq!(metadata.tags, vec!["nlp", "transformer"]);
}

#[test]
fn test_metadata_with_custom_metadata() {
    let metadata = create_test_metadata()
        .with_custom_metadata("key1", serde_json::Value::from("value1"))
        .with_custom_metadata("key2", serde_json::Value::from(42));

    assert_eq!(metadata.custom_metadata.len(), 2);
    let get = |k: &str| metadata.custom_metadata.iter().find(|(key, _)| key == k).map(|(_, v)| v.clone());
    assert_eq!(get("key1"), Some(serde_json::Value::from("value1")));
    assert_eq!(get("key2"), Some(serde_json::Value::from(42)));
}

#[test]
fn custom_metadata_replaces_an_existing_key() {
    let metadata = create_test_metadata()
        .with_custom_metadata("key1", serde_json::Value::from(1))
        .with_custom_metadata("key2", serde_json::Value::from(2))
        .with_custom_metadata("key1", serde_json::Value::from(3));
    assert_eq!(metadata.custom_metadata.len(), 2);
    assert_eq!(metadata.custom_metadata[0].0, "key1");
    assert_eq!(metadata.custom_metadata[0].1, serde_json::Value::from(3));
    assert_eq!(metadata.custom_metadata[1].1, serde_json::Value::from(2));
}

#[test]
fn test_metadata_with_file_paths() {
    let metadata = create_test_metadata().with_file_path("model.bin").with_file_path("config.json");
    assert_eq!(metadata.file_paths, vec!["model.bin", "config.json"]);
}

#[test]
fn test_metadata_with_config_and_tokenizer() {
    let metadata = create_test_metadata().with_config_path("config.json").with_tokenizer_path("tokenizer.json");
    assert_eq!(metadata.config_path, Some("config.json".to_string()));
    assert_eq!(metadata.tokenizer_path, Some("tokenizer.json".to_string()));
}

#[test]
fn test_metadata_mark_updated() {
    let mut metadata = create_test_metadata();
    assert!(metadata.updated_at.is_none());
    assert!(!metadata.has_been_updated());

    metadata.mark_updated(now_ms());
    assert!(metadata.updated_at.is_some());
    assert!(metadata.has_been_updated());
}

#[test]
fn test_age() {
    let metadata = create_test_metadata();
    let age = metadata.age(now_ms());
    assert!(age / 1000 >= 0);
    assert!(age / 1000 < 1);
}

#[test]
fn test_time_since_update() {
    let mut metadata = create_test_metadata();
    assert_eq!(metadata.time_since_update(now_ms()), None);

    metadata.mark_updated(now_ms());
    let time_since = metadata.time_since_update(now_ms());
    assert!(time_since.is_some());
    assert!(time_since.unwrap() / 1000 >= 0);
}

#[test]
fn age_is_the_time_since_download() {
    let metadata = ModelMetadata::new("m", "m", ModelSource::local("m"), "1", 1, 1_000);
    assert_eq!(metadata.age(4_500), 3_500);
    let mut metadata = metadata;
    metadata.mark_updated(2_000);
    assert_eq!(metadata.time_since_update(2_250), Some(250));
}
