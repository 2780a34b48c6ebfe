use fuse::error::FuseError;
use fuse::model::manager::{
    check_pull, check_update, huggingface_metadata, list_filtered, total_size, unsloth_metadata, with_downloaded_files,
    SortBy,
};
use fuse::model::metadata::ModelMetadata;
use fuse::model::source::{ModelSource, Provider};

const DAY_MS: i64 = 86_400_000;
const NOW: i64 = 1_700_000_000_000;

fn create_test_metadata(name: &str) -> ModelMetadata {
    ModelMetadata::new(name, name, ModelSource::huggingface("test/model"), "1.0.0", 1024, NOW)
}

#[test]
fn test_list_filtered_by_provider() {
    let hf_model = ModelMetadata::new("hf-model", "hf-model", ModelSource::huggingface("test/hf"), "1.0.0", 1024, NOW);
    let unsloth_model =
        ModelMetadata::new("unsloth-model", "unsloth-model", ModelSource::unsloth("test/unsloth"), "1.0.0", 1024, NOW);
    let all = vec![hf_model, unsloth_model];

    let hf_models = list_filtered(all.clone(), Some(Provider::HuggingFace), SortBy::Name);
    assert_eq!(hf_models.len(), 1);
    assert_eq!(hf_models[0].name, "hf-model");

    let unsloth_models = list_filtered(all, Some(Provider::Unsloth), SortBy::Name);
    assert_eq!(unsloth_models.len(), 1);
    assert_eq!(unsloth_models[0].name, "unsloth-model");
}

#[test]
fn test_list_sorted_by_name() {
    let models = vec![create_test_metadata("c-model"), create_test_metadata("a-model"), create_test_metadata("b-model")];
    let models = list_filtered(models, None, SortBy::Name);
    assert_eq!(models.len(), 3);
    assert_eq!(models[0].name, "a-model");
    assert_eq!(models[1].name, "b-model");
    assert_eq!(models[2].name, "c-model");
}

#[test]
fn test_list_sorted_by_size() {
    let small = ModelMetadata::new("small", "small", ModelSource::huggingface("test/small"), "1.0.0", 1024, NOW);
    let large = ModelMetadata::new("large", "large", ModelSource::huggingface("test/large"), "1.0.0", 1024 * 1024 * 1024, NOW);
    let medium = ModelMetadata::new("medium", "medium", ModelSource::huggingface("test/medium"), "1.0.0", 1024 * 1024, NOW);
    let models = list_filtered(vec![small, large, medium], None, SortBy::Size);
    assert_eq!(models.len(), 3);
    assert_eq!(models[0].name, "large");
    assert_eq!(models[1].name, "medium");
    assert_eq!(models[2].name, "small");
}

#[test]
fn test_list_sorted_by_downloaded() {
    let mut old_model = create_test_metadata("old-model");
    old_model.downloaded_at = NOW - 10 * DAY_MS;
    let mut new_model = create_test_metadata("new-model");
    new_model.downloaded_at = NOW;
    let models = list_filtered(vec![old_model, new_model], None, SortBy::Downloaded);
    assert_eq!(models.len(), 2);
    assert_eq!(models[0].name, "new-model");
    assert_eq!(models[1].name, "old-model");
}

#[test]
fn test_list_sorted_by_updated() {
    let mut never_updated = create_test_metadata("never-updated");
    never_updated.updated_at = None;
    let mut recently_updated = create_test_metadata("recently-updated");
    recently_updated.updated_at = Some(NOW);
    let mut old_updated = create_test_metadata("old-updated");
    old_updated.updated_at = Some(NOW - 5 * DAY_MS);

    let models = list_filtered(vec![never_updated, recently_updated, old_updated], None, SortBy::Updated);
    assert_eq!(models.len(), 3);
    let has_update: Vec<_> = models.iter().filter(|m| m.updated_at.is_some()).collect();
    let no_update: Vec<_> = models.iter().filter(|m| m.updated_at.is_none()).collect();
    assert_eq!(has_update.len(), 2);
    assert_eq!(no_update.len(), 1);
    assert_eq!(has_update[0].name, "recently-updated");
    assert_eq!(has_update[1].name, "old-updated");
    assert_eq!(no_update[0].name, "never-updated");
}

#[test]
fn sorting_by_updated_lists_never_updated_models_first() {
    let mut a = create_test_metadata("a");
    a.updated_at = Some(NOW);
    let b = create_test_metadata("b");
    let models = list_filtered(vec![a, b], None, SortBy::Updated);
    assert_eq!(models[0].name, "b");
    assert_eq!(models[1].name, "a");
}

#[test]
fn equal_keys_keep_their_order() {
    let mut first = create_test_metadata("first");
    first.size_bytes = 7;
    let mut second = create_test_metadata("second");
    second.size_bytes = 7;
    let mut big = create_test_metadata("big");
    big.size_bytes = 9;
    let models = list_filtered(vec![first, second, big], None, SortBy::Size);
    let names: Vec<&str> = models.iter().map(|m| m.name.as_str()).collect();
    assert_eq!(names, vec!["big", "first", "second"]);
}

#[test]
fn test_sortby_default() {
    let sort_by = SortBy::default();
    assert_eq!(sort_by, SortBy::Name);
}

#[test]
fn test_pull_duplicate_model() {
    let source = ModelSource::huggingface("test/model");
    match check_pull(&source, "test-model", true) {
        Err(FuseError::ValidationError(msg)) => {
            assert!(msg.contains("already exists"));
            assert_eq!(msg, "Model test-model already exists. Use 'fuse update test-model' to pull the latest version.");
        }
        _ => panic!("Expected ValidationError"),
    }
}

#[test]
fn test_pull_from_local_source() {
    let source = ModelSource::local("/path/to/model");
    match check_pull(&source, "test-model", false) {
        Err(FuseError::ValidationError(msg)) => assert!(msg.contains("Cannot pull from local source")),
        _ => panic!("Expected ValidationError"),
    }
}

#[test]
fn test_pull_from_remote_source() {
    let source = ModelSource::remote("https://example.com/model");
    match check_pull(&source, "test-model", false) {
        Err(FuseError::FeatureDisabled(msg)) => assert!(msg.contains("Remote model pulling")),
        _ => panic!("Expected FeatureDisabled error"),
    }
}

#[test]
fn pull_from_hub_sources_may_go_ahead() {
    assert!(check_pull(&ModelSource::huggingface("a/b"), "m", false).is_ok());
    assert!(check_pull(&ModelSource::unsloth("a/b"), "m", false).is_ok());
}

#[test]
fn test_update_nonexistent_model() {
    match check_update("nonexistent", None) {
        Err(FuseError::ModelNotFound(name)) => assert_eq!(name, "nonexistent"),
        _ => panic!("Expected ModelNotFound error"),
    }
}

#[test]
fn test_update_local_model() {
    let metadata = ModelMetadata::new("local-model", "local-model", ModelSource::local("/path/to/model"), "1.0.0", 1024, NOW);
    match check_update("local-model", Some(&metadata)) {
        Err(FuseError::ValidationError(msg)) => assert!(msg.contains("Cannot update local models")),
        _ => panic!("Expected ValidationError"),
    }
    let hub = create_test_metadata("hub-model");
    assert!(check_update("hub-model", Some(&hub)).is_ok());
}

#[test]
fn download_size_counts_the_files_that_could_be_read() {
    assert_eq!(total_size(&vec![Some(10), None, Some(32)]), 42);
    assert_eq!(total_size(&vec![]), 0);
}

#[test]
fn downloaded_files_mark_config_and_tokenizer() {
    let m = with_downloaded_files(
        create_test_metadata("m"),
        vec![
            "model.safetensors".to_string(),
            "config.json".to_string(),
            "tokenizer_config.json".to_string(),
            "tokenizer.json".to_string(),
        ],
    );
    assert_eq!(m.file_paths.len(), 4);
    // `tokenizer_config.json` ends with `config.json`: it is taken as the configuration.
    assert_eq!(m.config_path, Some("tokenizer_config.json".to_string()));
    assert_eq!(m.tokenizer_path, Some("tokenizer.json".to_string()));
}

#[test]
fn huggingface_pull_records_version_tags_and_library() {
    let source = ModelSource::huggingface("org/model");
    let m = huggingface_metadata(
        "my-model",
        source,
        2048,
        Some(vec!["llm".to_string()]),
        Some("transformers".to_string()),
        vec!["config.json".to_string()],
        NOW,
    );
    assert_eq!(m.id, "my-model");
    assert_eq!(m.name, "my-model");
    assert_eq!(m.version, "main");
    assert_eq!(m.size_bytes, 2048);
    assert_eq!(m.tags, vec!["llm"]);
    assert_eq!(m.architecture, Some("transformers".to_string()));
    assert_eq!(m.config_path, Some("config.json".to_string()));
    assert_eq!(m.tokenizer_path, None);
}

#[test]
fn unsloth_pull_records_model_name_and_parameters() {
    let m = unsloth_metadata(
        "local-name",
        ModelSource::unsloth("unsloth/llama"),
        "Llama",
        None,
        10,
        None,
        Some("llama".to_string()),
        Some(8_000_000_000),
        vec![],
        NOW,
    );
    assert_eq!(m.id, "local-name");
    assert_eq!(m.name, "Llama");
    assert_eq!(m.version, "latest");
    assert_eq!(m.parameter_count, Some(8_000_000_000));
    assert!(m.tags.is_empty());
    assert!(m.file_paths.is_empty());
}
