use fuse::error::FuseError;
use fuse::k8s::{FuseModelSpec, FuseModelStatus, ModelOperator, ModelPhase, ModelResources};

#[test]
fn test_status_phase_transitions() {
    let pending = FuseModelStatus { phase: ModelPhase::Pending, ready_replicas: 0, message: Some("Pulling model image".to_string()) };
    assert_eq!(pending.phase, ModelPhase::Pending);
    assert_eq!(pending.ready_replicas, 0);
    let running = FuseModelStatus { phase: ModelPhase::Running, ready_replicas: 3, message: None };
    assert_eq!(running.phase, ModelPhase::Running);
    assert_eq!(running.ready_replicas, 3);
    let failed = FuseModelStatus { phase: ModelPhase::Failed, ready_replicas: 0, message: Some("OOM killed".to_string()) };
    assert_eq!(failed.phase, ModelPhase::Failed);
}

#[test]
fn test_reconcile_placeholder() {
    let operator = ModelOperator::new();
    let spec = FuseModelSpec {
        model_name: "test".to_string(),
        replicas: 1,
        resources: ModelResources { cpu: "1".to_string(), memory: "4Gi".to_string(), gpu: None },
        quantization: None,
    };
    let result = operator.reconcile(&spec);
    assert!(result.is_err());
    assert!(matches!(result.unwrap_err(), FuseError::FeatureDisabled(ref m) if m == "kubernetes"));
}
