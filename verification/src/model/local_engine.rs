//! The local inference engine: which models are loaded, which to evict to make
//! room, whether a model is busy, and what an inference returns. Reading model
//! files, the clock and fresh identifiers is the caller's work; it hands the
//! results in.
use vstd::prelude::*;
use vstd::utf8::encode_utf8;
use crate::error::FuseError;
use crate::model::inference::{
    empty_json_object, FinishReason, InferenceMetadata, InferenceOutput, ModelConfig, ModelHandle, ModelInfo,
};
use crate::model::resource_manager::{
    find_model, lemma_find_model, lemma_memory_sum_pointwise, marked_active, marked_complete, memory_sum, names_unique,
    ManagedModel, ResourceManager,
    ResourcePolicy,
};
use crate::text::{self, joined};

verus! {

/// A loaded model: its handle, where its files are, its configuration, and whether
/// a request is being processed on it.
pub struct LoadedModel {
    pub handle: ModelHandle,
    pub model_path: String,
    pub config: ModelConfig,
    pub is_busy: bool,
}

/// The local inference engine: the loaded models (each name once, in the order
/// loaded), the models directory, how many models it keeps loaded, and the resource
/// manager that tracks their use.
pub struct LocalInferenceEngine {
    loaded: Vec<LoadedModel>,
    models_dir: String,
    max_loaded_models: usize,
    resource_manager: ResourceManager<String>,
}

/// The index of the loaded model named `name`, if any.
pub open spec fn find_loaded(s: Seq<LoadedModel>, name: Seq<char>) -> Option<int> {
    if exists|i: int| 0 <= i < s.len() && s[i].handle.model_name@ == name {
        Some(choose|i: int| 0 <= i < s.len() && s[i].handle.model_name@ == name)
    } else {
        None
    }
}

/// No model is loaded twice.
pub open spec fn loaded_unique(s: Seq<LoadedModel>) -> bool {
    forall|i: int, j: int|
        0 <= i < s.len() && 0 <= j < s.len() && i != j ==> s[i].handle.model_name@ != s[j].handle.model_name@
}

/// The model loaded earliest, the first of them where several were loaded at once.
pub open spec fn earliest_loaded(s: Seq<LoadedModel>) -> Option<int>
    decreases s.len(),
{
    if s.len() == 0 {
        None
    } else {
        let prev = earliest_loaded(s.drop_last());
        let i = s.len() - 1;
        match prev {
            Some(j) => if s[i].handle.loaded_at_ms < s[j].handle.loaded_at_ms {
                Some(i)
            } else {
                Some(j)
            },
            None => Some(i),
        }
    }
}

/// What eviction leaves: when the cache is full, the model loaded earliest is
/// dropped.
pub open spec fn after_eviction(s: Seq<LoadedModel>, max: usize) -> Seq<LoadedModel> {
    if s.len() >= max {
        match earliest_loaded(s) {
            Some(i) => s.remove(i),
            None => s,
        }
    } else {
        s
    }
}

/// Tokens in a text: a quarter of its UTF-8 length, rounded up.
pub open spec fn token_estimate(text: Seq<char>) -> int {
    ((encode_utf8(text).len() + 3) / 4) as int
}

/// The stand-in reply of the engine, which quotes the prompt's first 50 characters.
pub open spec fn placeholder_text(model_name: Seq<char>, prompt: Seq<char>) -> Seq<char> {
    "This is a placeholder response from model '"@ + model_name
        + "'. In a real implementation, this would be the actual model output based on the prompt: '"@
        + prompt.take(if prompt.len() < 50 { prompt.len() as int } else { 50 }) + "'"@
}

proof fn lemma_earliest_loaded(s: Seq<LoadedModel>)
    ensures
        earliest_loaded(s) matches Some(i) ==> 0 <= i < s.len(),
        s.len() > 0 ==> earliest_loaded(s) is Some,
    decreases s.len(),
{
    if s.len() > 0 {
        lemma_earliest_loaded(s.drop_last());
    }
}

proof fn lemma_loaded_remove(s: Seq<LoadedModel>, i: int)
    requires
        loaded_unique(s),
        0 <= i < s.len(),
    ensures
        loaded_unique(s.remove(i)),
        forall|k: int| 0 <= k < s.remove(i).len() ==> (#[trigger] s.remove(i)[k]).handle.model_name@ != s[i].handle.model_name@,
{
    assert forall|a: int, b: int|
        0 <= a < s.remove(i).len() && 0 <= b < s.remove(i).len() && a != b implies s.remove(
        i,
    )[a].handle.model_name@ != s.remove(i)[b].handle.model_name@ by {
        let a0 = if a < i { a } else { a + 1 };
        let b0 = if b < i { b } else { b + 1 };
        assert(s.remove(i)[a] == s[a0]);
        assert(s.remove(i)[b] == s[b0]);
    }
    assert forall|k: int| 0 <= k < s.remove(i).len() implies (#[trigger] s.remove(i)[k]).handle.model_name@
        != s[i].handle.model_name@ by {
        let k0 = if k < i { k } else { k + 1 };
        assert(s.remove(i)[k] == s[k0]);
    }
}

proof fn lemma_absent_after_eviction(s: Seq<LoadedModel>, max: usize, name: Seq<char>)
    requires
        find_loaded(s, name) is None,
    ensures
        find_loaded(after_eviction(s, max), name) is None,
{
    lemma_earliest_loaded(s);
    let t = after_eviction(s, max);
    if find_loaded(t, name) is Some {
        let k = choose|k: int| 0 <= k < t.len() && t[k].handle.model_name@ == name;
        if s.len() >= max && earliest_loaded(s) is Some {
            let i = earliest_loaded(s).unwrap();
            let k0 = if k < i { k } else { k + 1 };
            assert(t[k] == s[k0]);
        } else {
            assert(t[k] == s[k]);
        }
    }
}

fn copy_text(s: &String) -> (r: String)
    ensures
        r@ == s@,
{
    text::owned(s.as_str())
}

fn copy_handle(h: &ModelHandle) -> (r: ModelHandle)
    ensures
        r.id@ == h.id@,
        r.model_name@ == h.model_name@,
        r.loaded_at_ms == h.loaded_at_ms,
{
    ModelHandle { id: copy_text(&h.id), model_name: copy_text(&h.model_name), loaded_at_ms: h.loaded_at_ms }
}

/// The number of tokens in a text, estimated at one per four bytes.
pub fn estimate_token_count(text: &str) -> (r: usize)
    ensures
        r == token_estimate(text@),
        r <= usize::MAX / 4 + 1,
{
    let n = text.as_bytes().len();
    proof {
        assert(n == encode_utf8(text@).len());
    }
    n / 4 + if n % 4 == 0 { 0 } else { 1 }
}

/// The stand-in reply of the engine for a prompt.
pub fn placeholder_response(model_name: &str, prompt: &str) -> (r: String)
    ensures
        r@ == placeholder_text(model_name@, prompt@),
{
    let chars = text::chars_of(prompt);
    let k = if chars.len() < 50 { chars.len() } else { 50 };
    let head = text::string_of_range(&chars, 0, k);
    let mut out = text::concat3("This is a placeholder response from model '", model_name,
        "'. In a real implementation, this would be the actual model output based on the prompt: '");
    out.append(head.as_str());
    out.append("'");
    proof {
        assert(chars@.subrange(0, k as int) =~= prompt@.take(k as int));
    }
    out
}

impl LocalInferenceEngine {
    /// The loaded models.
    pub closed spec fn loaded(&self) -> Seq<LoadedModel> {
        self.loaded@
    }

    /// The models directory.
    pub closed spec fn models_dir(&self) -> Seq<char> {
        self.models_dir@
    }

    /// How many models the engine keeps loaded.
    pub closed spec fn capacity(&self) -> usize {
        self.max_loaded_models
    }

    /// What the resource manager tracks.
    pub closed spec fn managed(&self) -> Seq<ManagedModel<String>> {
        self.resource_manager.models()
    }

    /// The resource policy.
    pub closed spec fn policy(&self) -> ResourcePolicy {
        self.resource_manager.policy()
    }

    /// No model is loaded twice, and the resource manager is well formed.
    pub closed spec fn wf(&self) -> bool {
        loaded_unique(self.loaded@) && self.resource_manager.wf()
    }

    /// An engine with the default resource policy.
    pub fn new(models_dir: &str) -> (r: LocalInferenceEngine)
        ensures
            r.wf(),
            r.loaded().len() == 0,
            r.managed().len() == 0,
            r.models_dir() == models_dir@,
            r.capacity() == 3,
    {
        Self::with_resource_policy(models_dir, ResourcePolicy::default())
    }

    /// An engine that keeps at most `max_loaded_models` models loaded, with the
    /// default policy otherwise.
    pub fn with_cache_size(models_dir: &str, max_loaded_models: usize) -> (r: LocalInferenceEngine)
        ensures
            r.wf(),
            r.loaded().len() == 0,
            r.managed().len() == 0,
            r.models_dir() == models_dir@,
            r.capacity() == max_loaded_models,
            r.policy().max_loaded_models == max_loaded_models,
    {
        let policy = ResourcePolicy { max_loaded_models, ..ResourcePolicy::default() };
        Self::with_resource_policy(models_dir, policy)
    }

    /// An engine with a resource policy; it keeps as many models loaded as the
    /// policy allows.
    pub fn with_resource_policy(models_dir: &str, policy: ResourcePolicy) -> (r: LocalInferenceEngine)
        ensures
            r.wf(),
            r.loaded().len() == 0,
            r.managed().len() == 0,
            r.models_dir() == models_dir@,
            r.capacity() == policy.max_loaded_models,
            r.policy() == policy,
    {
        let max_loaded_models = policy.max_loaded_models;
        LocalInferenceEngine {
            loaded: Vec::new(),
            models_dir: text::owned(models_dir),
            max_loaded_models,
            resource_manager: ResourceManager::new(policy),
        }
    }

    /// The resource manager.
    pub fn resource_manager(&self) -> (r: &ResourceManager<String>)
        ensures
            r.models() == self.managed(),
            r.policy() == self.policy(),
    {
        &self.resource_manager
    }

    /// Where a model's files are: `{models_dir}/{name}`.
    pub fn get_model_path(&self, model_name: &str) -> (r: String)
        ensures
            r@ == joined(self.models_dir(), model_name@),
    {
        text::join_path(self.models_dir.as_str(), model_name)
    }

    fn index_of(&self, name: &str) -> (r: Option<usize>)
        requires
            loaded_unique(self.loaded@),
        ensures
            match r {
                Some(i) => find_loaded(self.loaded@, name@) == Some(i as int) && i < self.loaded@.len(),
                None => find_loaded(self.loaded@, name@) is None,
            },
    {
        let mut i: usize = 0;
        while i < self.loaded.len()
            invariant
                loaded_unique(self.loaded@),
                i <= self.loaded@.len(),
                forall|j: int| 0 <= j < i ==> self.loaded@[j].handle.model_name@ != name@,
            decreases self.loaded.len() - i,
        {
            if text::str_eq(self.loaded[i].handle.model_name.as_str(), name) {
                return Some(i);
            }
            i = i + 1;
        }
        None
    }

    /// Whether a model is loaded.
    pub fn is_loaded(&self, model_name: &str) -> (r: bool)
        requires
            self.wf(),
        ensures
            r == find_loaded(self.loaded(), model_name@) is Some,
    {
        self.index_of(model_name).is_some()
    }

    /// The handle of a model that is already loaded, marking a request on it at
    /// `now_ms`; `None` when it is not loaded.
    pub fn load_cached(&mut self, model_name: &str, now_ms: u64) -> (r: Option<ModelHandle>)
        requires
            old(self).wf(),
            find_model(old(self).managed(), model_name@) matches Some(i) ==> old(
                self,
            ).managed()[i].stats.active_requests < usize::MAX,
        ensures
            final(self).wf(),
            final(self).loaded() == old(self).loaded(),
            final(self).policy() == old(self).policy(),
            final(self).capacity() == old(self).capacity(),
            final(self).models_dir() == old(self).models_dir(),
            match find_loaded(old(self).loaded(), model_name@) {
                Some(i) => r matches Some(h) && h.id@ == old(self).loaded()[i].handle.id@
                    && h.model_name@ == model_name@ && h.loaded_at_ms
                    == old(self).loaded()[i].handle.loaded_at_ms && final(self).managed() == marked_active(
                    old(self).managed(),
                    model_name@,
                    now_ms,
                ),
                None => r is None && final(self).managed() == old(self).managed(),
            },
    {
        match self.index_of(model_name) {
            Some(i) => {
                self.resource_manager.mark_active(model_name, now_ms);
                Some(copy_handle(&self.loaded[i].handle))
            },
            None => None,
        }
    }

    /// Drops the model loaded earliest when the engine holds as many models as it
    /// keeps.
    fn evict_if_needed(&mut self)
        requires
            loaded_unique(old(self).loaded@),
        ensures
            loaded_unique(final(self).loaded@),
            final(self).loaded@ == after_eviction(old(self).loaded@, old(self).max_loaded_models),
            final(self).max_loaded_models == old(self).max_loaded_models,
            final(self).models_dir == old(self).models_dir,
            final(self).resource_manager == old(self).resource_manager,
    {
        if self.loaded.len() >= self.max_loaded_models && self.loaded.len() > 0 {
            let mut best: usize = 0;
            let mut k: usize = 1;
            proof {
                let t = self.loaded@.take(1);
                assert(t.len() == 1);
                assert(t.drop_last() =~= Seq::<LoadedModel>::empty());
                assert(earliest_loaded(t.drop_last()) is None);
                assert(earliest_loaded(t) == Some(0int));
            }
            while k < self.loaded.len()
                invariant
                    1 <= k <= self.loaded@.len(),
                    earliest_loaded(self.loaded@.take(k as int)) == Some(best as int),
                    best < k,
                decreases self.loaded.len() - k,
            {
                proof {
                    assert(self.loaded@.take(k + 1).drop_last() =~= self.loaded@.take(k as int));
                }
                if self.loaded[k].handle.loaded_at_ms < self.loaded[best].handle.loaded_at_ms {
                    best = k;
                }
                k = k + 1;
            }
            proof {
                assert(self.loaded@.take(self.loaded@.len() as int) =~= self.loaded@);
                lemma_loaded_remove(self.loaded@, best as int);
            }
            self.loaded.remove(best);
        } else {
            proof {
                lemma_earliest_loaded(self.loaded@);
            }
        }
    }

    /// Loads a model. A model already loaded is handed back, with a request marked
    /// on it. Otherwise a model that does not exist is not found; when the resource
    /// limits are exceeded, idle models are optimized (their memory becomes what
    /// `reduce` gives) and the limits enforced; the model loaded earliest is evicted
    /// when the engine is full; and the model is loaded at `now_ms` with the handle
    /// `handle_id`, the configuration and the memory estimate the caller read, and
    /// followed by the resource manager.
    pub fn load_model<F: Fn(u64, bool) -> u64>(
        &mut self,
        model_name: &str,
        exists: bool,
        config: ModelConfig,
        memory_bytes: u64,
        handle_id: &str,
        now_ms: u64,
        loaded_at_ms: i64,
        reduce: F,
    ) -> (r: Result<ModelHandle, FuseError>)
        requires
            old(self).wf(),
            find_model(old(self).managed(), model_name@) matches Some(i) ==> old(
                self,
            ).managed()[i].stats.active_requests < usize::MAX,
            memory_sum(old(self).managed()) <= u64::MAX,
            forall|m: u64, offload: bool| reduce.requires((m, offload)),
            forall|m: u64, offload: bool, v: u64| reduce.ensures((m, offload), v) ==> v <= m,
        ensures
            final(self).wf(),
            final(self).policy() == old(self).policy(),
            final(self).capacity() == old(self).capacity(),
            final(self).models_dir() == old(self).models_dir(),
            match find_loaded(old(self).loaded(), model_name@) {
                Some(i) => final(self).loaded() == old(self).loaded() && (r matches Ok(h) && h.id@
                    == old(self).loaded()[i].handle.id@ && h.model_name@ == model_name@) && final(self).managed()
                    == marked_active(old(self).managed(), model_name@, now_ms),
                None => if !exists {
                    r matches Err(FuseError::ModelNotFound(m)) && m@ == model_name@ && final(self).loaded()
                        == old(self).loaded() && final(self).managed() == old(self).managed()
                } else {
                    &&& r matches Ok(h) && h.id@ == handle_id@ && h.model_name@ == model_name@
                        && h.loaded_at_ms == loaded_at_ms
                    &&& final(self).loaded().len() >= 1
                    &&& final(self).loaded().drop_last() == after_eviction(
                        old(self).loaded(),
                        old(self).capacity(),
                    )
                    &&& final(self).loaded().last().handle.id@ == handle_id@
                    &&& final(self).loaded().last().handle.model_name@ == model_name@
                    &&& final(self).loaded().last().model_path@ == joined(old(self).models_dir(), model_name@)
                    &&& !final(self).loaded().last().is_busy
                    &&& find_model(final(self).managed(), model_name@) matches Some(j)
                        && final(self).managed()[j].stats.memory_bytes == memory_bytes
                        && final(self).managed()[j].stats.active_requests == 0
                },
            },
    {
        match self.load_cached(model_name, now_ms) {
            Some(h) => return Ok(h),
            None => {},
        }
        if !exists {
            return Err(FuseError::ModelNotFound(text::owned(model_name)));
        }
        if self.resource_manager.is_over_limit() {
            let ghost managed0 = self.resource_manager.models();
            let _optimized = self.resource_manager.optimize_idle_models(now_ms, reduce);
            proof {
                let t1 = self.resource_manager.models();
                assert forall|i: int| 0 <= i < managed0.len() implies (#[trigger] t1[i]).stats.memory_bytes
                    <= managed0[i].stats.memory_bytes by {
                    assert(t1[i] == t1[i]);
                }
                lemma_memory_sum_pointwise(managed0, t1);
            }
            let _unloaded = self.resource_manager.enforce_limits();
        }
        self.evict_if_needed();
        let model_path = self.get_model_path(model_name);
        let handle = ModelHandle {
            id: text::owned(handle_id),
            model_name: text::owned(model_name),
            loaded_at_ms,
        };
        let result = copy_handle(&handle);
        let ghost before = self.loaded@;
        proof {
            lemma_absent_after_eviction(old(self).loaded@, old(self).max_loaded_models, model_name@);
        }
        self.loaded.push(LoadedModel { handle, model_path, config, is_busy: false });
        proof {
            assert(self.loaded@.drop_last() =~= before);
            assert forall|a: int, b: int|
                0 <= a < self.loaded@.len() && 0 <= b < self.loaded@.len() && a != b implies self.loaded@[a].handle.model_name@
                != self.loaded@[b].handle.model_name@ by {
                if a < before.len() && b < before.len() {
                    assert(self.loaded@[a] == before[a] && self.loaded@[b] == before[b]);
                } else if a < before.len() {
                    assert(self.loaded@[a] == before[a]);
                } else if b < before.len() {
                    assert(self.loaded@[b] == before[b]);
                }
            }
        }
        let ghost managed_before = self.resource_manager.models();
        self.resource_manager.register_model(text::owned(model_name), text::owned(handle_id), memory_bytes, now_ms);
        proof {
            let t = self.resource_manager.models();
            self.resource_manager.lemma_names_unique();
            match find_model(managed_before, model_name@) {
                Some(i) => {
                    lemma_find_model(t, model_name@, i);
                },
                None => {
                    lemma_find_model(t, model_name@, t.len() - 1);
                },
            }
        }
        Ok(result)
    }

    /// Stops using a model: the resource manager forgets it and it is no longer
    /// loaded. Unloading a model that is not loaded changes nothing else.
    pub fn unload_model(&mut self, handle: &ModelHandle) -> (r: Result<(), FuseError>)
        requires
            old(self).wf(),
        ensures
            final(self).wf(),
            r is Ok,
            final(self).policy() == old(self).policy(),
            final(self).capacity() == old(self).capacity(),
            final(self).models_dir() == old(self).models_dir(),
            match find_model(old(self).managed(), handle.model_name@) {
                Some(i) => final(self).managed() == old(self).managed().remove(i),
                None => final(self).managed() == old(self).managed(),
            },
            match find_loaded(old(self).loaded(), handle.model_name@) {
                Some(i) => final(self).loaded() == old(self).loaded().remove(i),
                None => final(self).loaded() == old(self).loaded(),
            },
    {
        self.resource_manager.unregister_model(handle.model_name.as_str());
        match self.index_of(handle.model_name.as_str()) {
            Some(i) => {
                proof {
                    lemma_loaded_remove(self.loaded@, i as int);
                }
                self.loaded.remove(i);
            },
            None => {},
        }
        Ok(())
    }

    /// What is known of a loaded model, with the memory its files take (which the
    /// caller measured); a model that is not loaded is not found.
    pub fn get_model_info(&self, model_name: &str, memory_usage_bytes: u64) -> (r: Result<ModelInfo, FuseError>)
        requires
            self.wf(),
        ensures
            match find_loaded(self.loaded(), model_name@) {
                Some(i) => r matches Ok(info) && info.name@ == self.loaded()[i].handle.model_name@
                    && info.handle_id@ == self.loaded()[i].handle.id@ && info.loaded_at_ms
                    == self.loaded()[i].handle.loaded_at_ms && info.memory_usage_bytes == memory_usage_bytes
                    && info.config.max_context_length == self.loaded()[i].config.max_context_length
                    && info.config.architecture@ == self.loaded()[i].config.architecture@
                    && info.config.extra == self.loaded()[i].config.extra && info.is_busy
                    == self.loaded()[i].is_busy,
                None => r matches Err(FuseError::ModelNotFound(m)) && m@ == "Model '"@ + model_name@
                    + "' is not loaded"@,
            },
    {
        match self.index_of(model_name) {
            Some(i) => {
                let m = &self.loaded[i];
                Ok(ModelInfo {
                    name: copy_text(&m.handle.model_name),
                    handle_id: copy_text(&m.handle.id),
                    loaded_at_ms: m.handle.loaded_at_ms,
                    memory_usage_bytes,
                    config: ModelConfig {
                        max_context_length: m.config.max_context_length,
                        architecture: copy_text(&m.config.architecture),
                        extra: m.config.extra.clone(),
                    },
                    is_busy: m.is_busy,
                })
            },
            None => Err(FuseError::ModelNotFound(text::concat3("Model '", model_name, "' is not loaded"))),
        }
    }

    /// Sets whether a loaded model is busy.
    fn set_busy(&mut self, i: usize, busy: bool)
        requires
            loaded_unique(old(self).loaded@),
            i < old(self).loaded@.len(),
        ensures
            loaded_unique(final(self).loaded@),
            final(self).loaded@ == old(self).loaded@.update(
                i as int,
                LoadedModel { is_busy: busy, ..old(self).loaded@[i as int] },
            ),
            final(self).resource_manager == old(self).resource_manager,
            final(self).max_loaded_models == old(self).max_loaded_models,
            final(self).models_dir == old(self).models_dir,
    {
        let ghost s = self.loaded@;
        let mut m = self.loaded.remove(i);
        m.is_busy = busy;
        self.loaded.insert(i, m);
        proof {
            assert(self.loaded@ =~= s.update(i as int, m));
            assert forall|a: int, b: int|
                0 <= a < self.loaded@.len() && 0 <= b < self.loaded@.len() && a != b implies self.loaded@[a].handle.model_name@
                != self.loaded@[b].handle.model_name@ by {
                assert(self.loaded@[a].handle.model_name@ == s[a].handle.model_name@);
                assert(self.loaded@[b].handle.model_name@ == s[b].handle.model_name@);
            }
        }
    }

    /// An inference request starts on a model (its parameters already checked): a
    /// request is marked on it at `now_ms`; if the model is busy the request is
    /// marked complete again and refused, else the model becomes busy.
    pub fn begin_inference(&mut self, model_name: &str, now_ms: u64) -> (r: Result<(), FuseError>)
        requires
            old(self).wf(),
            find_model(old(self).managed(), model_name@) matches Some(i) ==> old(
                self,
            ).managed()[i].stats.active_requests < usize::MAX,
        ensures
            final(self).wf(),
            final(self).policy() == old(self).policy(),
            final(self).capacity() == old(self).capacity(),
            final(self).models_dir() == old(self).models_dir(),
            match find_loaded(old(self).loaded(), model_name@) {
                Some(i) => if old(self).loaded()[i].is_busy {
                    r matches Err(FuseError::InferenceError(m)) && m@
                        == "Model is currently busy processing another request"@ && final(self).loaded()
                        == old(self).loaded()
                } else {
                    r is Ok && final(self).loaded() == old(self).loaded().update(
                        i,
                        LoadedModel { is_busy: true, ..old(self).loaded()[i] },
                    )
                },
                None => r is Ok && final(self).loaded() == old(self).loaded(),
            },
            ({
                let active = marked_active(old(self).managed(), model_name@, now_ms);
                if r is Ok {
                    final(self).managed() == active
                } else {
                    final(self).managed() == marked_complete(active, model_name@)
                }
            }),
    {
        self.resource_manager.mark_active(model_name, now_ms);
        match self.index_of(model_name) {
            Some(i) => {
                if self.loaded[i].is_busy {
                    self.resource_manager.mark_request_complete(model_name);
                    return Err(
                        FuseError::InferenceError(text::owned("Model is currently busy processing another request")),
                    );
                }
                self.set_busy(i, true);
                Ok(())
            },
            None => Ok(()),
        }
    }

    /// An inference request ends on a model with the generated `text`: the model is
    /// no longer busy, the request is marked complete, and the output gives the text
    /// (formatted as is), the estimated token counts of the prompt and the text, the
    /// model's name, the time taken and when it completed.
    pub fn finish_inference(
        &mut self,
        model_name: &str,
        prompt: &str,
        text: String,
        inference_time_ms: u64,
        timestamp_ms: i64,
    ) -> (r: InferenceOutput)
        requires
            old(self).wf(),
        ensures
            final(self).wf(),
            final(self).policy() == old(self).policy(),
            final(self).capacity() == old(self).capacity(),
            final(self).models_dir() == old(self).models_dir(),
            match find_loaded(old(self).loaded(), model_name@) {
                Some(i) => final(self).loaded() == old(self).loaded().update(
                    i,
                    LoadedModel { is_busy: false, ..old(self).loaded()[i] },
                ),
                None => final(self).loaded() == old(self).loaded(),
            },
            final(self).managed() == marked_complete(old(self).managed(), model_name@),
            r.text@ == text@,
            r.formatted_text@ == text@,
            r.prompt_tokens == token_estimate(prompt@),
            r.completion_tokens == token_estimate(text@),
            r.total_tokens == r.prompt_tokens + r.completion_tokens,
            r.model@ == model_name@,
            r.timestamp_ms == timestamp_ms,
            r.metadata matches Some(m) && m.inference_time_ms == inference_time_ms && m.finish_reason
                == FinishReason::Stop,
    {
        match self.index_of(model_name) {
            Some(i) => {
                self.set_busy(i, false);
            },
            None => {},
        }
        self.resource_manager.mark_request_complete(model_name);
        let prompt_tokens = estimate_token_count(prompt);
        let completion_tokens = estimate_token_count(text.as_str());
        let formatted_text = copy_text(&text);
        InferenceOutput {
            text,
            formatted_text,
            prompt_tokens,
            completion_tokens,
            total_tokens: prompt_tokens + completion_tokens,
            model: text::owned(model_name),
            timestamp_ms,
            metadata: Some(
                InferenceMetadata {
                    inference_time_ms,
                    finish_reason: FinishReason::Stop,
                    extra: empty_json_object(),
                },
            ),
        }
    }

    /// A streamed inference request starts on a model (its parameters already
    /// checked): a busy model refuses it, else the model becomes busy.
    pub fn begin_stream(&mut self, model_name: &str) -> (r: Result<(), FuseError>)
        requires
            old(self).wf(),
        ensures
            final(self).wf(),
            final(self).managed() == old(self).managed(),
            final(self).policy() == old(self).policy(),
            final(self).capacity() == old(self).capacity(),
            final(self).models_dir() == old(self).models_dir(),
            match find_loaded(old(self).loaded(), model_name@) {
                Some(i) => if old(self).loaded()[i].is_busy {
                    r matches Err(FuseError::InferenceError(m)) && m@
                        == "Model is currently busy processing another request"@ && final(self).loaded()
                        == old(self).loaded()
                } else {
                    r is Ok && final(self).loaded() == old(self).loaded().update(
                        i,
                        LoadedModel { is_busy: true, ..old(self).loaded()[i] },
                    )
                },
                None => r is Ok && final(self).loaded() == old(self).loaded(),
            },
    {
        match self.index_of(model_name) {
            Some(i) => {
                if self.loaded[i].is_busy {
                    return Err(
                        FuseError::InferenceError(text::owned("Model is currently busy processing another request")),
                    );
                }
                self.set_busy(i, true);
                Ok(())
            },
            None => Ok(()),
        }
    }

    /// A streamed inference request ends: the model is no longer busy.
    pub fn end_stream(&mut self, model_name: &str)
        requires
            old(self).wf(),
        ensures
            final(self).wf(),
            final(self).managed() == old(self).managed(),
            final(self).policy() == old(self).policy(),
            final(self).capacity() == old(self).capacity(),
            final(self).models_dir() == old(self).models_dir(),
            match find_loaded(old(self).loaded(), model_name@) {
                Some(i) => final(self).loaded() == old(self).loaded().update(
                    i,
                    LoadedModel { is_busy: false, ..old(self).loaded()[i] },
                ),
                None => final(self).loaded() == old(self).loaded(),
            },
    {
        match self.index_of(model_name) {
            Some(i) => {
                self.set_busy(i, false);
            },
            None => {},
        }
    }
}

} // verus!
