//! Kubernetes operator for Fuse model deployments. Without a cluster client the
//! operator reports that the feature is disabled.
use vstd::prelude::*;
use crate::error::FuseError;
use crate::text;

verus! {

/// CRD spec for deploying a model.
#[derive(Debug, Clone)]
pub struct FuseModelSpec {
    /// Model identifier (e.g. "llama-7b-q4_k_m").
    pub model_name: String,
    /// Number of replicas to run.
    pub replicas: u32,
    /// Resource requirements.
    pub resources: ModelResources,
    /// Quantization method (e.g. "q4_k_m", "q8_0").
    pub quantization: Option<String>,
}

/// Resource requirements for a model deployment.
#[derive(Debug, Clone)]
pub struct ModelResources {
    pub cpu: String,
    pub memory: String,
    pub gpu: Option<String>,
}

/// CRD status: the current state of a model deployment.
#[derive(Debug, Clone)]
pub struct FuseModelStatus {
    pub phase: ModelPhase,
    pub ready_replicas: u32,
    pub message: Option<String>,
}

/// Phase of a model deployment.
#[derive(Debug, Clone, Copy, PartialEq, Eq, Structural)]
pub enum ModelPhase {
    Pending,
    Running,
    Failed,
}

/// Action returned by reconciliation.
#[derive(Debug, Clone)]
pub struct ReconcileAction {
    /// If set, reconcile again after this long.
    pub requeue_after: Option<std::time::Duration>,
}

/// The operator that reconciles `FuseModel` resources.
pub struct ModelOperator;

impl ModelOperator {
    pub fn new() -> (r: ModelOperator) {
        ModelOperator
    }

    /// Reconciles the desired spec with the cluster. Built without a cluster client,
    /// this always reports the `kubernetes` feature as disabled.
    pub fn reconcile(&self, spec: &FuseModelSpec) -> (r: Result<ReconcileAction, FuseError>)
        ensures
            r matches Err(FuseError::FeatureDisabled(m)) && m@ == "kubernetes"@,
    {
        Err(FuseError::FeatureDisabled(text::owned("kubernetes")))
    }
}

impl Default for ModelOperator {
    fn default() -> (r: ModelOperator) {
        ModelOperator::new()
    }
}

} // verus!
