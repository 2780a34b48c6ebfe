use fuse::error::FuseError;
use fuse::model::inference::{ModelConfig, ModelHandle};
use fuse::model::local_engine::{estimate_token_count, placeholder_response, LocalInferenceEngine};

fn config() -> ModelConfig {
    ModelConfig { max_context_length: 2048, architecture: "test".to_string(), extra: serde_json::Value::Null }
}

fn reduce(m: u64, offload: bool) -> u64 {
    let factor = if offload { 0.7 } else { 0.8 };
    (m as f64 * factor) as u64
}

fn load(engine: &mut LocalInferenceEngine, name: &str, exists: bool, t: u64) -> Result<ModelHandle, FuseError> {
    engine.load_model(name, exists, config(), 16, &format!("handle-{}-{}", name, t), t, t as i64, reduce)
}

#[test]
fn test_load_model_success() {
    let mut engine = LocalInferenceEngine::new("/models");
    let handle = load(&mut engine, "test-model", true, 1).unwrap();
    assert_eq!(handle.model_name, "test-model");
    assert!(!handle.id.is_empty());
}

#[test]
fn test_load_nonexistent_model() {
    let mut engine = LocalInferenceEngine::new("/models");
    let result = load(&mut engine, "nonexistent-model", false, 1);
    assert!(matches!(result.unwrap_err(), FuseError::ModelNotFound(_)));
}

#[test]
fn test_model_caching() {
    let mut engine = LocalInferenceEngine::new("/models");
    let handle1 = load(&mut engine, "test-model", true, 1).unwrap();
    let handle2 = load(&mut engine, "test-model", true, 2).unwrap();
    assert_eq!(handle1.id, handle2.id);
}

#[test]
fn local_engine_test_unload_model() {
    let mut engine = LocalInferenceEngine::new("/models");
    let handle = load(&mut engine, "test-model", true, 1).unwrap();
    assert!(engine.is_loaded("test-model"));
    assert!(engine.unload_model(&handle).is_ok());
    assert!(!engine.is_loaded("test-model"));
    assert_eq!(engine.resource_manager().loaded_model_count(), 0);
}

#[test]
fn test_is_loaded() {
    let mut engine = LocalInferenceEngine::new("/models");
    assert!(!engine.is_loaded("test-model"));
    let _handle = load(&mut engine, "test-model", true, 1).unwrap();
    assert!(engine.is_loaded("test-model"));
}

#[test]
fn test_get_model_info() {
    let mut engine = LocalInferenceEngine::new("/models");
    let handle = load(&mut engine, "test-model", true, 1).unwrap();
    let info = engine.get_model_info("test-model", 16).unwrap();
    assert_eq!(info.name, "test-model");
    assert_eq!(info.handle_id, handle.id);
    assert!(!info.is_busy);
    assert!(info.memory_usage_bytes > 0);
    assert_eq!(info.config.max_context_length, 2048);
    match engine.get_model_info("other", 0) {
        Err(FuseError::ModelNotFound(m)) => assert_eq!(m, "Model 'other' is not loaded"),
        _ => panic!("expected ModelNotFound"),
    }
}

#[test]
fn test_infer_success() {
    let mut engine = LocalInferenceEngine::new("/models");
    let _handle = load(&mut engine, "test-model", true, 1).unwrap();
    engine.begin_inference("test-model", 2).unwrap();
    let text = placeholder_response("test-model", "Hello, world!");
    let output = engine.finish_inference("test-model", "Hello, world!", text, 100, 5);
    assert!(!output.text.is_empty());
    assert!(!output.formatted_text.is_empty());
    assert_eq!(output.model, "test-model");
    assert!(output.prompt_tokens > 0);
    assert!(output.completion_tokens > 0);
    assert_eq!(output.total_tokens, output.prompt_tokens + output.completion_tokens);
    assert!(output.metadata.is_some());
    assert_eq!(output.formatted_text, output.text);
    assert!(!engine.get_model_info("test-model", 0).unwrap().is_busy);
}

#[test]
fn busy_model_refuses_a_second_request() {
    let mut engine = LocalInferenceEngine::new("/models");
    let _handle = load(&mut engine, "m", true, 1).unwrap();
    engine.begin_inference("m", 2).unwrap();
    assert!(engine.get_model_info("m", 0).unwrap().is_busy);
    match engine.begin_inference("m", 3) {
        Err(FuseError::InferenceError(msg)) => assert_eq!(msg, "Model is currently busy processing another request"),
        _ => panic!("expected busy"),
    }
    assert_eq!(engine.resource_manager().get_stats("m").unwrap().active_requests, 1);
    let _ = engine.finish_inference("m", "p", "t".to_string(), 1, 4);
    assert!(engine.begin_stream("m").is_ok());
    assert!(engine.begin_stream("m").is_err());
    engine.end_stream("m");
    assert!(!engine.get_model_info("m", 0).unwrap().is_busy);
}

#[test]
fn local_engine_test_cache_eviction() {
    let mut engine = LocalInferenceEngine::with_cache_size("/models", 2);
    let _h1 = load(&mut engine, "model1", true, 10).unwrap();
    let _h2 = load(&mut engine, "model2", true, 20).unwrap();
    let _h3 = load(&mut engine, "model3", true, 30).unwrap();
    assert!(!engine.is_loaded("model1"));
    assert!(engine.is_loaded("model2"));
    assert!(engine.is_loaded("model3"));
}

#[test]
fn token_estimates_round_up_per_four_bytes() {
    assert_eq!(estimate_token_count(""), 0);
    assert_eq!(estimate_token_count("abcd"), 1);
    assert_eq!(estimate_token_count("abcde"), 2);
    assert_eq!(estimate_token_count("é"), 1);
}

#[test]
fn placeholder_quotes_the_first_fifty_characters() {
    let long = "x".repeat(60);
    let r = placeholder_response("m", &long);
    assert!(r.starts_with("This is a placeholder response from model 'm'. In a real implementation"));
    assert!(r.ends_with(&format!("'{}'", "x".repeat(50))));
    assert_eq!(engine_path(), "/models/a");
}

fn engine_path() -> String {
    LocalInferenceEngine::new("/models").get_model_path("a")
}

#[test]
fn requests_are_counted_in_the_resource_manager() {
    let mut engine = LocalInferenceEngine::new("/models");
    load(&mut engine, "m", true, 1).unwrap();
    assert_eq!(engine.resource_manager().get_stats("m").unwrap().active_requests, 0);
    engine.begin_inference("m", 5).unwrap();
    let stats = engine.resource_manager().get_stats("m").unwrap();
    assert_eq!(stats.active_requests, 1);
    assert_eq!(stats.last_access_ms, 5);
    assert!(engine.begin_inference("m", 6).is_err());
    assert_eq!(engine.resource_manager().get_stats("m").unwrap().active_requests, 1);
    let _ = engine.finish_inference("m", "p", "t".to_string(), 1, 7);
    assert_eq!(engine.resource_manager().get_stats("m").unwrap().active_requests, 0);
    assert!(engine.load_cached("m", 9).is_some());
    let stats = engine.resource_manager().get_stats("m").unwrap();
    assert_eq!(stats.active_requests, 1);
    assert_eq!(stats.last_access_ms, 9);
}
