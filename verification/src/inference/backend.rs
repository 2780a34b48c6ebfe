//! Descriptions and configurations of the inference backends.
use vstd::prelude::*;
use crate::error::FuseError;
use crate::text;

verus! {

/// Information about an inference backend.
#[derive(Debug, Clone)]
pub struct BackendInfo {
    pub name: String,
    pub backend_type: BackendType,
    pub supports_streaming: bool,
    pub supports_embeddings: bool,
    pub max_batch_size: usize,
}

/// The kind of backend.
#[derive(Debug, Clone, Copy, PartialEq, Eq, Structural)]
pub enum BackendType {
    CpuSimd,
    Metal,
    Cuda,
    Vulkan,
    Remote,
}

/// Unique handle to a loaded model instance.
#[derive(Debug, Clone)]
pub struct ModelHandle {
    pub id: String,
    pub model_name: String,
}

/// Configuration for loading a model.
#[derive(Debug, Clone, Copy, PartialEq, Eq, Structural)]
pub struct ModelConfig {
    pub context_length: usize,
    pub batch_size: usize,
    pub threads: Option<usize>,
    pub gpu_layers: Option<usize>,
}

impl Default for ModelConfig {
    fn default() -> (r: ModelConfig)
        ensures
            r.context_length == 2048,
            r.batch_size == 1,
            r.threads is None,
            r.gpu_layers is None,
    {
        ModelConfig { context_length: 2048, batch_size: 1, threads: None, gpu_layers: None }
    }
}

/// One generated token: its text and its id in the vocabulary. (Its log
/// probability, a float, is carried beside it by the caller.)
#[derive(Debug, Clone)]
pub struct Token {
    pub text: String,
    pub id: u32,
}

/// Why generation stopped.
#[derive(Debug, Clone, Copy, PartialEq, Eq, Structural)]
pub enum StopReason {
    MaxTokens,
    StopSequence,
    EndOfSequence,
}

/// Resource usage snapshot.
#[derive(Debug, Clone)]
pub struct ResourceUsage {
    pub ram_bytes: u64,
    pub vram_bytes: u64,
    pub loaded_models: usize,
}

impl Default for ResourceUsage {
    fn default() -> (r: ResourceUsage)
        ensures
            r.ram_bytes == 0 && r.vram_bytes == 0 && r.loaded_models == 0,
    {
        ResourceUsage { ram_bytes: 0, vram_bytes: 0, loaded_models: 0 }
    }
}

/// Configuration of the Metal backend.
#[derive(Debug, Clone, Copy, PartialEq, Eq, Structural)]
pub struct MetalConfig {
    /// Layers to offload to the GPU.
    pub gpu_layers: usize,
    /// Most GPU memory to use in bytes (0 = unlimited).
    pub memory_limit: u64,
}

impl Default for MetalConfig {
    fn default() -> (r: MetalConfig)
        ensures
            r.gpu_layers == 999,
            r.memory_limit == 0,
    {
        MetalConfig { gpu_layers: 999, memory_limit: 0 }
    }
}

/// Configuration of the WASM backend.
#[derive(Debug, Clone)]
pub struct WasmConfig {
    /// Memory limit of the WASM module, in MB.
    pub memory_limit_mb: u64,
    /// Path of the WASM module file.
    pub wasm_module_path: String,
}

impl Default for WasmConfig {
    fn default() -> (r: WasmConfig)
        ensures
            r.memory_limit_mb == 256,
            r.wasm_module_path@ == Seq::<char>::empty(),
    {
        WasmConfig { memory_limit_mb: 256, wasm_module_path: String::new() }
    }
}

/// The WASM backend, built without a WASM runtime: it describes itself and reports
/// every operation as disabled.
pub struct WasmInferenceBackend {
    pub config: WasmConfig,
}

impl WasmInferenceBackend {
    pub fn new(config: WasmConfig) -> (r: Result<WasmInferenceBackend, FuseError>)
        ensures
            r matches Ok(b) && b.config == config,
    {
        Ok(WasmInferenceBackend { config })
    }

    /// The backend's description.
    pub fn info(&self) -> (r: BackendInfo)
        ensures
            r.name@ == "wasm"@,
            r.backend_type == BackendType::CpuSimd,
            !r.supports_streaming,
            !r.supports_embeddings,
            r.max_batch_size == 1,
    {
        BackendInfo {
            name: text::owned("wasm"),
            backend_type: BackendType::CpuSimd,
            supports_streaming: false,
            supports_embeddings: false,
            max_batch_size: 1,
        }
    }

    /// What every operation of the backend answers.
    pub fn feature_disabled_error() -> (e: FuseError)
        ensures
            e matches FuseError::FeatureDisabled(m) && m@
                == "wasm-runtime feature is not enabled. Rebuild with --features wasm-runtime"@,
    {
        FuseError::FeatureDisabled(
            text::owned("wasm-runtime feature is not enabled. Rebuild with --features wasm-runtime"),
        )
    }

    /// Loading a model: the runtime is not built in.
    pub fn load_model(&self, path: &str, config: &ModelConfig) -> (r: Result<ModelHandle, FuseError>)
        ensures
            r matches Err(FuseError::FeatureDisabled(m)) && m@
                == "wasm-runtime feature is not enabled. Rebuild with --features wasm-runtime"@,
    {
        Err(Self::feature_disabled_error())
    }

    /// Unloading a model: the runtime is not built in.
    pub fn unload_model(&self, handle: &ModelHandle) -> (r: Result<(), FuseError>)
        ensures
            r matches Err(FuseError::FeatureDisabled(m)) && m@
                == "wasm-runtime feature is not enabled. Rebuild with --features wasm-runtime"@,
    {
        Err(Self::feature_disabled_error())
    }

    /// Resources reserved: the module's memory limit, in bytes, and no models.
    pub fn resource_usage(&self) -> (r: ResourceUsage)
        requires
            self.config.memory_limit_mb * 1048576 <= u64::MAX,
        ensures
            r.ram_bytes == self.config.memory_limit_mb * 1048576,
            r.vram_bytes == 0,
            r.loaded_models == 0,
    {
        ResourceUsage {
            ram_bytes: self.config.memory_limit_mb * 1024 * 1024,
            vram_bytes: 0,
            loaded_models: 0,
        }
    }
}

/// Tokenizer kind.
#[derive(Debug, Clone, Copy, PartialEq, Eq, Structural)]
pub enum TokenizerType {
    Bpe,
    SentencePiece,
    Tiktoken,
    Unknown,
}

/// A model the Metal backend has loaded.
#[derive(Debug, Clone)]
pub struct MetalModel {
    pub path: String,
    pub config: ModelConfig,
    pub metal_config: MetalConfig,
}

/// The Metal backend: the models it has loaded, by handle id, its configuration,
/// and whether a Metal GPU was found (without one it runs on the CPU).
pub struct MetalInferenceBackend {
    models: Vec<(String, MetalModel)>,
    metal_config: MetalConfig,
    metal_available: bool,
}

/// The index of the model loaded under handle id `id`, if any.
pub open spec fn find_handle(s: Seq<(String, MetalModel)>, id: Seq<char>) -> Option<int> {
    if exists|i: int| 0 <= i < s.len() && s[i].0@ == id {
        Some(choose|i: int| 0 <= i < s.len() && s[i].0@ == id)
    } else {
        None
    }
}

/// No handle id occurs twice.
pub open spec fn ids_unique(s: Seq<(String, MetalModel)>) -> bool {
    forall|i: int, j: int| 0 <= i < s.len() && 0 <= j < s.len() && i != j ==> s[i].0@ != s[j].0@
}

impl MetalInferenceBackend {
    /// The loaded models, by handle id.
    pub closed spec fn models(&self) -> Seq<(String, MetalModel)> {
        self.models@
    }

    /// Whether a Metal GPU is in use.
    pub closed spec fn metal(&self) -> bool {
        self.metal_available
    }

    /// The backend's configuration.
    pub closed spec fn config(&self) -> MetalConfig {
        self.metal_config
    }

    /// No handle id is loaded twice.
    pub closed spec fn wf(&self) -> bool {
        ids_unique(self.models@)
    }

    /// A backend with no model loaded; `metal_available` says whether a Metal GPU was
    /// found.
    pub fn new(config: MetalConfig, metal_available: bool) -> (r: MetalInferenceBackend)
        ensures
            r.wf(),
            r.models().len() == 0,
            r.config() == config,
            r.metal() == metal_available,
    {
        MetalInferenceBackend { models: Vec::new(), metal_config: config, metal_available }
    }

    /// Whether the backend runs on a Metal GPU.
    pub fn is_metal_active(&self) -> (r: bool)
        ensures
            r == self.metal(),
    {
        self.metal_available
    }

    /// The backend's description: `metal-candle`, marked as a CPU fallback without a
    /// Metal GPU.
    pub fn info(&self) -> (r: BackendInfo)
        ensures
            r.name@ == if self.metal() {
                "metal-candle"@
            } else {
                "metal-candle (cpu-fallback)"@
            },
            r.backend_type == BackendType::Metal,
            r.supports_streaming,
            r.supports_embeddings,
            r.max_batch_size == 1,
    {
        BackendInfo {
            name: if self.metal_available {
                text::owned("metal-candle")
            } else {
                text::owned("metal-candle (cpu-fallback)")
            },
            backend_type: BackendType::Metal,
            supports_streaming: true,
            supports_embeddings: true,
            max_batch_size: 1,
        }
    }

    fn index_of(&self, id: &str) -> (r: Option<usize>)
        requires
            self.wf(),
        ensures
            match r {
                Some(i) => find_handle(self.models@, id@) == Some(i as int) && i < self.models@.len(),
                None => find_handle(self.models@, id@) is None,
            },
    {
        let mut i: usize = 0;
        while i < self.models.len()
            invariant
                self.wf(),
                i <= self.models@.len(),
                forall|j: int| 0 <= j < i ==> self.models@[j].0@ != id@,
            decreases self.models.len() - i,
        {
            if text::str_eq(self.models[i].0.as_str(), id) {
                return Some(i);
            }
            i = i + 1;
        }
        None
    }

    /// Loads the model at `path` under the fresh handle id `handle_id`; the handle
    /// names the model by the path's file stem (`model` without one). A model
    /// loaded under the same id before is replaced.
    pub fn load_model(&mut self, path: &str, file_stem: Option<&str>, config: &ModelConfig, handle_id: &str) -> (r:
        Result<ModelHandle, FuseError>)
        requires
            old(self).wf(),
        ensures
            final(self).wf(),
            final(self).config() == old(self).config(),
            final(self).metal() == old(self).metal(),
            r matches Ok(h) && h.id@ == handle_id@ && h.model_name@ == match file_stem {
                Some(s) => s@,
                None => "model"@,
            },
            ({
                let m = MetalModel { path: final(self).models().last().1.path, config: *config, metal_config: old(self).config() };
                &&& final(self).models().last().1.path@ == path@
                &&& final(self).models().last().1 == m
                &&& final(self).models().last().0@ == handle_id@
                &&& match find_handle(old(self).models(), handle_id@) {
                    Some(i) => final(self).models().drop_last() == old(self).models().remove(i),
                    None => final(self).models().drop_last() == old(self).models(),
                }
            }),
    {
        let model_name = match file_stem {
            Some(s) => text::owned(s),
            None => text::owned("model"),
        };
        let loaded = MetalModel { path: text::owned(path), config: *config, metal_config: self.metal_config };
        match self.index_of(handle_id) {
            Some(i) => {
                let ghost s = self.models@;
                self.models.remove(i);
                proof {
                    assert forall|a: int, b: int|
                        0 <= a < self.models@.len() && 0 <= b < self.models@.len() && a != b implies self.models@[a].0@
                        != self.models@[b].0@ by {
                        let a0 = if a < i { a } else { a + 1 };
                        let b0 = if b < i { b } else { b + 1 };
                        assert(self.models@[a] == s[a0]);
                        assert(self.models@[b] == s[b0]);
                    }
                    assert forall|k: int| 0 <= k < self.models@.len() implies self.models@[k].0@ != handle_id@ by {
                        let k0 = if k < i { k } else { k + 1 };
                        assert(self.models@[k] == s[k0]);
                    }
                }
            },
            None => {},
        }
        let ghost before = self.models@;
        self.models.push((text::owned(handle_id), loaded));
        proof {
            assert(self.models@.drop_last() =~= before);
            assert forall|a: int, b: int|
                0 <= a < self.models@.len() && 0 <= b < self.models@.len() && a != b implies self.models@[a].0@
                != self.models@[b].0@ by {
                if a < before.len() && b < before.len() {
                    assert(self.models@[a] == before[a] && self.models@[b] == before[b]);
                } else if a < before.len() {
                    assert(self.models@[a] == before[a]);
                } else if b < before.len() {
                    assert(self.models@[b] == before[b]);
                }
            }
        }
        Ok(ModelHandle { id: text::owned(handle_id), model_name })
    }

    /// Unloads the model of a handle; a handle with no loaded model is not found.
    pub fn unload_model(&mut self, handle: &ModelHandle) -> (r: Result<(), FuseError>)
        requires
            old(self).wf(),
        ensures
            final(self).wf(),
            final(self).config() == old(self).config(),
            final(self).metal() == old(self).metal(),
            match find_handle(old(self).models(), handle.id@) {
                Some(i) => r is Ok && final(self).models() == old(self).models().remove(i),
                None => (r matches Err(FuseError::ModelNotFound(m)) && m@ == handle.model_name@)
                    && final(self).models() == old(self).models(),
            },
    {
        match self.index_of(handle.id.as_str()) {
            Some(i) => {
                let ghost s = self.models@;
                self.models.remove(i);
                proof {
                    assert forall|a: int, b: int|
                        0 <= a < self.models@.len() && 0 <= b < self.models@.len() && a != b implies self.models@[a].0@
                        != self.models@[b].0@ by {
                        let a0 = if a < i { a } else { a + 1 };
                        let b0 = if b < i { b } else { b + 1 };
                        assert(self.models@[a] == s[a0]);
                        assert(self.models@[b] == s[b0]);
                    }
                }
                Ok(())
            },
            None => Err(FuseError::ModelNotFound(text::owned(handle.model_name.as_str()))),
        }
    }

    /// Whether a handle's model is loaded (an inference on any other is not found).
    pub fn check_loaded(&self, handle: &ModelHandle) -> (r: Result<(), FuseError>)
        requires
            self.wf(),
        ensures
            find_handle(self.models(), handle.id@) is Some ==> r is Ok,
            find_handle(self.models(), handle.id@) is None ==> (r matches Err(FuseError::ModelNotFound(m))
                && m@ == handle.model_name@),
    {
        match self.index_of(handle.id.as_str()) {
            Some(_) => Ok(()),
            None => Err(FuseError::ModelNotFound(text::owned(handle.model_name.as_str()))),
        }
    }

    /// Resources in use: the number of models loaded.
    pub fn resource_usage(&self) -> (r: ResourceUsage)
        ensures
            r.ram_bytes == 0,
            r.vram_bytes == 0,
            r.loaded_models == self.models().len(),
    {
        ResourceUsage { ram_bytes: 0, vram_bytes: 0, loaded_models: self.models.len() }
    }
}

} // verus!
