use fuse::inference::coordinator::BatchConfig;
use fuse::inference::backend::{
    BackendType, MetalConfig, MetalInferenceBackend, ModelConfig, ModelHandle, TokenizerType, WasmConfig,
    WasmInferenceBackend,
};
use fuse::inference::kv_cache::{PageConfig, PagePool};
use fuse::logging::LogContext;

#[test]
fn test_batch_config_defaults() {
    let config = BatchConfig::default();
    assert_eq!(config.max_batch_size, 8);
    assert_eq!(config.max_wait_ms, 50);
    assert_eq!(config.max_concurrent, 32);
}

#[test]
fn test_metal_config_default() {
    let config = MetalConfig::default();
    assert_eq!(config.gpu_layers, 999);
    assert_eq!(config.memory_limit, 0);
}

#[test]
fn test_wasm_config_default() {
    let config = WasmConfig::default();
    assert_eq!(config.memory_limit_mb, 256);
    assert!(config.wasm_module_path.is_empty());
}

#[test]
fn test_wasm_config_custom() {
    let config = WasmConfig { memory_limit_mb: 512, wasm_module_path: "/path/to/model.wasm".to_string() };
    assert_eq!(config.memory_limit_mb, 512);
    assert_eq!(config.wasm_module_path, "/path/to/model.wasm");
}

#[test]
fn test_wasm_backend_creation() {
    let backend = WasmInferenceBackend::new(WasmConfig::default());
    assert!(backend.is_ok());
}

#[test]
fn test_wasm_backend_info() {
    let backend = WasmInferenceBackend::new(WasmConfig::default()).expect("backend creation failed");
    let info = backend.info();
    assert_eq!(info.name, "wasm");
    assert_eq!(info.max_batch_size, 1);
    assert!(!info.supports_streaming);
    assert_eq!(info.backend_type, BackendType::CpuSimd);
}

#[test]
fn test_wasm_resource_usage() {
    let config = WasmConfig { memory_limit_mb: 128, wasm_module_path: String::new() };
    let backend = WasmInferenceBackend::new(config).expect("backend creation failed");
    let usage = backend.resource_usage();
    assert_eq!(usage.ram_bytes, 128 * 1024 * 1024);
    assert_eq!(usage.vram_bytes, 0);
}

#[test]
fn test_tokenizer_type_enum() {
    assert_ne!(TokenizerType::Bpe, TokenizerType::SentencePiece);
    assert_ne!(TokenizerType::Tiktoken, TokenizerType::Unknown);
}

#[test]
fn test_page_pool_allocate_and_free() {
    let mut pool = PagePool::new(4);
    assert_eq!(pool.free_count(), 4);
    assert_eq!(pool.allocated(), 0);
    let p0 = pool.allocate().unwrap();
    let p1 = pool.allocate().unwrap();
    assert_eq!(pool.allocated(), 2);
    assert_eq!(pool.free_count(), 2);
    pool.free(p0);
    assert_eq!(pool.allocated(), 1);
    assert_eq!(pool.free_count(), 3);
    pool.free(p1);
    assert_eq!(pool.allocated(), 0);
    assert_eq!(pool.free_count(), 4);
}

#[test]
fn test_page_pool_exhaustion() {
    let mut pool = PagePool::new(2);
    assert!(pool.allocate().is_some());
    assert!(pool.allocate().is_some());
    assert!(pool.allocate().is_none());
}

#[test]
fn page_pool_hands_out_low_pages_first() {
    let mut pool = PagePool::new(3);
    assert_eq!(pool.allocate(), Some(0));
    assert_eq!(pool.allocate(), Some(1));
    pool.free(0);
    assert_eq!(pool.allocate(), Some(0));
    assert_eq!(pool.total(), 3);
    let c = PageConfig::default();
    assert_eq!((c.page_size, c.max_pages), (16, 256));
}

#[test]
fn log_context_builders() {
    let ctx = LogContext::new("pull").with_model("llama").with_user("u1");
    assert_eq!(ctx.operation, "pull");
    assert_eq!(ctx.model_name, Some("llama".to_string()));
    assert_eq!(ctx.user_id, Some("u1".to_string()));
    assert!(LogContext::new("x").model_name.is_none());
}

fn make_metal_backend() -> MetalInferenceBackend {
    MetalInferenceBackend::new(MetalConfig::default(), false)
}

#[test]
fn test_metal_backend_info() {
    let backend = make_metal_backend();
    let info = backend.info();
    assert_eq!(info.backend_type, BackendType::Metal);
    assert!(info.name.contains("metal"));
    assert!(info.supports_streaming);
}

#[test]
fn metal_test_load_and_unload() {
    let mut backend = make_metal_backend();
    let handle = backend
        .load_model("/tmp/test-model", Some("test-model"), &ModelConfig::default(), "handle-1")
        .expect("load should succeed");

    assert_eq!(handle.model_name, "test-model");
    assert_eq!(backend.resource_usage().loaded_models, 1);

    backend.unload_model(&handle).expect("unload should succeed");
    assert_eq!(backend.resource_usage().loaded_models, 0);
}

#[test]
fn metal_test_unload_nonexistent() {
    let mut backend = make_metal_backend();
    let handle = ModelHandle { id: "nonexistent".to_string(), model_name: "nope".to_string() };
    assert!(backend.unload_model(&handle).is_err());
}

#[test]
fn metal_test_resource_usage() {
    let backend = make_metal_backend();
    let usage = backend.resource_usage();
    assert_eq!(usage.loaded_models, 0);
    assert_eq!(usage.vram_bytes, 0);
}

#[test]
fn test_fallback_mode() {
    let backend = make_metal_backend();
    assert!(!backend.is_metal_active());
    assert!(backend.info().name.contains("cpu-fallback"));
}

#[test]
fn metal_active_backend_is_named_plainly() {
    let backend = MetalInferenceBackend::new(MetalConfig::default(), true);
    assert!(backend.is_metal_active());
    assert_eq!(backend.info().name, "metal-candle");
}

#[test]
fn metal_reload_under_same_id_replaces() {
    let mut backend = make_metal_backend();
    backend.load_model("/a", Some("a"), &ModelConfig::default(), "h").unwrap();
    let h = backend.load_model("/b", None, &ModelConfig::default(), "h").unwrap();
    assert_eq!(h.model_name, "model");
    assert_eq!(backend.resource_usage().loaded_models, 1);
    assert!(backend.check_loaded(&h).is_ok());
    backend.unload_model(&h).unwrap();
    assert!(backend.check_loaded(&h).is_err());
}

#[test]
fn test_wasm_backend_load_without_feature() {
    let config = WasmConfig::default();
    let backend = WasmInferenceBackend::new(config).expect("backend creation failed");
    let result = backend.load_model("/tmp/model.wasm", &ModelConfig::default());
    assert!(result.is_err());
}
