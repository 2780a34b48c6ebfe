use fuse::model::resource_manager::{ModelState, ResourceManager, ResourcePolicy};

const GIB: u64 = 1024 * 1024 * 1024;

fn handle(name: &str) -> String {
    format!("test-{}", name)
}

#[test]
fn test_resource_manager_creation() {
    let manager: ResourceManager<String> = ResourceManager::new(ResourcePolicy::default());
    assert_eq!(manager.loaded_model_count(), 0);
    assert_eq!(manager.total_memory_usage(), 0);
}

#[test]
fn test_register_model() {
    let mut manager = ResourceManager::new(ResourcePolicy::default());
    manager.register_model("test-model".to_string(), handle("test-model"), GIB, 0);
    assert_eq!(manager.loaded_model_count(), 1);
    assert_eq!(manager.total_memory_usage(), GIB);
}

#[test]
fn test_mark_active() {
    let mut manager = ResourceManager::new(ResourcePolicy::default());
    manager.register_model("test-model".to_string(), handle("test-model"), GIB, 0);
    manager.mark_active("test-model", 10);
    let stats = manager.get_stats("test-model").unwrap();
    assert_eq!(stats.active_requests, 1);
    assert_eq!(stats.last_access_ms, 10);
}

#[test]
fn test_mark_request_complete() {
    let mut manager = ResourceManager::new(ResourcePolicy::default());
    manager.register_model("test-model".to_string(), handle("test-model"), GIB, 0);
    manager.mark_active("test-model", 10);
    manager.mark_request_complete("test-model");
    let stats = manager.get_stats("test-model").unwrap();
    assert_eq!(stats.active_requests, 0);
}

#[test]
fn test_is_over_limit() {
    let mut policy = ResourcePolicy::default();
    policy.max_memory_bytes = 1024 * 1024;
    policy.max_loaded_models = 2;
    let mut manager = ResourceManager::new(policy);

    manager.register_model("model1".to_string(), handle("model1"), 512 * 1024, 0);
    assert!(!manager.is_over_limit());
    manager.register_model("model2".to_string(), handle("model2"), 512 * 1024, 0);
    assert!(!manager.is_over_limit());
    manager.register_model("model3".to_string(), handle("model3"), 512 * 1024, 0);
    assert!(manager.is_over_limit());
}

#[test]
fn test_get_idle_models() {
    let mut policy = ResourcePolicy::default();
    policy.idle_timeout_ms = 100;
    let mut manager = ResourceManager::new(policy);
    manager.register_model("test-model".to_string(), handle("test-model"), GIB, 0);
    manager.mark_active("test-model", 0);
    manager.mark_request_complete("test-model");

    assert!(manager.get_idle_models(100).is_empty());
    let idle_models = manager.get_idle_models(150);
    assert_eq!(idle_models.len(), 1);
    assert_eq!(idle_models[0], "test-model");
}

#[test]
fn registering_a_name_again_replaces_the_model() {
    let mut manager = ResourceManager::new(ResourcePolicy::default());
    manager.register_model("a".to_string(), 1u8, 100, 0);
    manager.register_model("b".to_string(), 2u8, 200, 0);
    manager.register_model("a".to_string(), 3u8, 50, 5);
    assert_eq!(manager.loaded_model_count(), 2);
    assert_eq!(manager.total_memory_usage(), 250);
    manager.unregister_model("a");
    assert_eq!(manager.loaded_model_count(), 1);
    manager.unregister_model("missing");
    assert_eq!(manager.loaded_model_count(), 1);
}

#[test]
fn completing_a_request_below_zero_stays_at_zero() {
    let mut manager = ResourceManager::new(ResourcePolicy::default());
    manager.register_model("m".to_string(), (), 1, 0);
    manager.mark_active("m", 1);
    manager.mark_active("m", 2);
    manager.mark_request_complete("m");
    assert_eq!(manager.get_stats("m").unwrap().active_requests, 1);
    manager.mark_request_complete("m");
    manager.mark_request_complete("m");
    assert_eq!(manager.get_stats("m").unwrap().active_requests, 0);
    assert!(manager.get_stats("other").is_none());
}

#[test]
fn enforcing_limits_unloads_least_recently_used_without_requests() {
    let mut policy = ResourcePolicy::default();
    policy.max_memory_bytes = 1000;
    policy.max_loaded_models = 2;
    let mut manager = ResourceManager::new(policy);
    manager.register_model("old".to_string(), (), 400, 10);
    manager.register_model("busy".to_string(), (), 400, 5);
    manager.register_model("new".to_string(), (), 400, 30);
    manager.register_model("mid".to_string(), (), 400, 20);
    manager.mark_active("busy", 5);
    let unloaded = manager.enforce_limits();
    assert_eq!(unloaded, vec!["old".to_string(), "mid".to_string()]);
    assert_eq!(manager.loaded_model_count(), 2);
    assert!(!manager.is_over_limit());
}

#[test]
fn enforcing_limits_does_nothing_without_auto_unload() {
    let mut policy = ResourcePolicy::default();
    policy.max_loaded_models = 0;
    policy.auto_unload_idle = false;
    let mut manager = ResourceManager::new(policy);
    manager.register_model("a".to_string(), (), 1, 0);
    assert!(manager.enforce_limits().is_empty());
    assert_eq!(manager.loaded_model_count(), 1);
}

#[test]
fn optimizing_idle_models_offloads_them() {
    let mut policy = ResourcePolicy::default();
    policy.idle_timeout_ms = 10;
    let mut manager = ResourceManager::new(policy);
    manager.register_model("idle".to_string(), (), 1000, 0);
    manager.register_model("busy".to_string(), (), 1000, 0);
    manager.mark_active("idle", 0);
    manager.mark_request_complete("idle");
    manager.mark_active("busy", 0);
    let optimized = manager.optimize_idle_models(100, |m, offload| {
        let factor = if offload { 0.7 } else { 0.8 };
        (m as f64 * factor) as u64
    });
    assert_eq!(optimized, vec!["idle".to_string()]);
    assert_eq!(manager.get_stats("idle").unwrap().memory_bytes, 700);
    assert_eq!(manager.get_stats("busy").unwrap().memory_bytes, 1000);
    let _ = ModelState::OffloadedToCpu;
}
