//! Resource management for loaded models: which models are active or idle, how much
//! memory they take, and which to optimize or unload to stay within the policy's
//! limits. Times are milliseconds read from a monotonic clock by the caller.
use vstd::prelude::*;
use crate::text;

verus! {

/// Resource management policy.
#[derive(Debug, Clone)]
pub struct ResourcePolicy {
    /// Time without access after which an idle model counts as idle (ms).
    pub idle_timeout_ms: u64,
    /// Memory use above which models are unloaded (bytes).
    pub max_memory_bytes: u64,
    /// Number of loaded models above which models are unloaded.
    pub max_loaded_models: usize,
    /// Whether models are unloaded automatically to get back within the limits.
    pub auto_unload_idle: bool,
    /// Whether idle models have their memory optimized.
    pub optimize_idle_memory: bool,
    /// Whether idle models are offloaded to the CPU.
    pub offload_to_cpu: bool,
}

impl Default for ResourcePolicy {
    /// Five minutes of idleness, 8 GiB of memory, three models, and every automatic
    /// measure on.
    fn default() -> (r: ResourcePolicy)
        ensures
            r.idle_timeout_ms == 300000,
            r.max_memory_bytes == 8589934592,
            r.max_loaded_models == 3,
            r.auto_unload_idle,
            r.optimize_idle_memory,
            r.offload_to_cpu,
    {
        ResourcePolicy {
            idle_timeout_ms: 300000,
            max_memory_bytes: 8589934592,
            max_loaded_models: 3,
            auto_unload_idle: true,
            optimize_idle_memory: true,
            offload_to_cpu: true,
        }
    }
}

/// The state of a managed model.
#[derive(Debug, Clone, Copy, PartialEq, Eq, Structural)]
pub enum ModelState {
    /// Processing requests.
    Active,
    /// Loaded, with no request in flight.
    Idle,
    /// Loaded with its memory optimized.
    Optimized,
    /// Offloaded to the CPU.
    OffloadedToCpu,
    /// Unloaded from memory.
    Unloaded,
}

/// Resource usage of a managed model.
#[derive(Debug, Clone, Copy, PartialEq, Eq, Structural)]
pub struct ResourceStats {
    /// Memory use in bytes (VRAM and RAM).
    pub memory_bytes: u64,
    /// Last access (ms).
    pub last_access_ms: u64,
    /// Requests in flight.
    pub active_requests: usize,
}

/// A managed model: its name, its handle, its usage and its state.
pub struct ManagedModel<H> {
    pub name: String,
    pub handle: H,
    pub stats: ResourceStats,
    pub state: ModelState,
}

/// The models a resource manager tracks, each name once, and its policy.
pub struct ResourceManager<H> {
    models: Vec<ManagedModel<H>>,
    policy: ResourcePolicy,
}

/// The index of the model named `name`, if any.
pub open spec fn find_model<H>(s: Seq<ManagedModel<H>>, name: Seq<char>) -> Option<int> {
    if exists|i: int| 0 <= i < s.len() && s[i].name@ == name {
        Some(choose|i: int| 0 <= i < s.len() && s[i].name@ == name)
    } else {
        None
    }
}

/// The models after a request started on model `name` at `now_ms`: it becomes
/// active, with one more request in flight and its last access at `now_ms`.
pub open spec fn marked_active<H>(s: Seq<ManagedModel<H>>, name: Seq<char>, now_ms: u64) -> Seq<ManagedModel<H>> {
    match find_model(s, name) {
        Some(i) => s.update(
            i,
            ManagedModel {
                state: ModelState::Active,
                stats: ResourceStats {
                    last_access_ms: now_ms,
                    active_requests: (s[i].stats.active_requests + 1) as usize,
                    ..s[i].stats
                },
                ..s[i]
            },
        ),
        None => s,
    }
}

/// The models after a request on model `name` completed: one request fewer in
/// flight (never below zero), and the model idle when none is left.
pub open spec fn marked_complete<H>(s: Seq<ManagedModel<H>>, name: Seq<char>) -> Seq<ManagedModel<H>> {
    match find_model(s, name) {
        Some(i) => {
            let m = s[i];
            let left = if m.stats.active_requests > 0 {
                (m.stats.active_requests - 1) as usize
            } else {
                0usize
            };
            s.update(
                i,
                ManagedModel {
                    state: if left == 0 {
                        ModelState::Idle
                    } else {
                        m.state
                    },
                    stats: ResourceStats { active_requests: left, ..m.stats },
                    ..m
                },
            )
        },
        None => s,
    }
}

/// No name occurs twice.
pub open spec fn names_unique<H>(s: Seq<ManagedModel<H>>) -> bool {
    forall|i: int, j: int| 0 <= i < s.len() && 0 <= j < s.len() && i != j ==> s[i].name@ != s[j].name@
}

/// Memory used by all models.
pub open spec fn memory_sum<H>(s: Seq<ManagedModel<H>>) -> nat
    decreases s.len(),
{
    if s.len() == 0 {
        0
    } else {
        memory_sum(s.drop_last()) + s.last().stats.memory_bytes as nat
    }
}

/// The limits are exceeded: too much memory, or too many models.
pub open spec fn over_limit<H>(s: Seq<ManagedModel<H>>, p: ResourcePolicy) -> bool {
    memory_sum(s) > p.max_memory_bytes || s.len() > p.max_loaded_models
}

/// Time from `since` to `now`; none when the clock reads earlier.
pub open spec fn elapsed(now: u64, since: u64) -> nat {
    if now >= since {
        (now - since) as nat
    } else {
        0
    }
}

/// A model counts as idle at `now`: it is in the idle state, was not accessed for
/// longer than the timeout, and has no request in flight.
pub open spec fn is_idle_at<H>(m: ManagedModel<H>, now: u64, p: ResourcePolicy) -> bool {
    m.state == ModelState::Idle && elapsed(now, m.stats.last_access_ms) > p.idle_timeout_ms
        && m.stats.active_requests == 0
}

/// The names of the models idle at `now`, in order.
pub open spec fn idle_names<H>(s: Seq<ManagedModel<H>>, now: u64, p: ResourcePolicy) -> Seq<Seq<char>>
    decreases s.len(),
{
    if s.len() == 0 {
        Seq::empty()
    } else {
        let rest = idle_names(s.drop_last(), now, p);
        if is_idle_at(s.last(), now, p) {
            rest.push(s.last().name@)
        } else {
            rest
        }
    }
}

/// The model to unload first: among those without requests in flight, the least
/// recently accessed, the first of them where several were accessed last at once.
pub open spec fn oldest_unused<H>(s: Seq<ManagedModel<H>>) -> Option<int>
    decreases s.len(),
{
    if s.len() == 0 {
        None
    } else {
        let prev = oldest_unused(s.drop_last());
        let i = s.len() - 1;
        if s[i].stats.active_requests == 0 && match prev {
            Some(j) => s[i].stats.last_access_ms < s[j].stats.last_access_ms,
            None => true,
        } {
            Some(i)
        } else {
            prev
        }
    }
}

/// What enforcing the limits leaves and unloads: while the limits are exceeded and
/// automatic unloading is on, the least recently accessed model without requests is
/// unloaded.
pub open spec fn enforced<H>(s: Seq<ManagedModel<H>>, p: ResourcePolicy) -> (Seq<ManagedModel<H>>, Seq<Seq<char>>)
    decreases s.len(),
{
    if !over_limit(s, p) || !p.auto_unload_idle {
        (s, Seq::empty())
    } else {
        match oldest_unused(s) {
            Some(i) => if 0 <= i < s.len() {
                let next = enforced(s.remove(i), p);
                (next.0, seq![s[i].name@] + next.1)
            } else {
                (s, Seq::empty())
            },
            None => (s, Seq::empty()),
        }
    }
}

proof fn lemma_oldest_unused<H>(s: Seq<ManagedModel<H>>)
    ensures
        oldest_unused(s) matches Some(i) ==> 0 <= i < s.len() && s[i].stats.active_requests == 0 && (
        forall|j: int|
            0 <= j < s.len() && s[j].stats.active_requests == 0 ==> s[i].stats.last_access_ms
                <= s[j].stats.last_access_ms),
        oldest_unused(s) is None ==> forall|j: int| 0 <= j < s.len() ==> s[j].stats.active_requests != 0,
    decreases s.len(),
{
    if s.len() > 0 {
        lemma_oldest_unused(s.drop_last());
        assert forall|j: int| 0 <= j < s.len() - 1 implies s.drop_last()[j] == s[j] by {}
    }
}

proof fn lemma_memory_sum_remove<H>(s: Seq<ManagedModel<H>>, i: int)
    requires
        0 <= i < s.len(),
    ensures
        memory_sum(s.remove(i)) + s[i].stats.memory_bytes == memory_sum(s),
    decreases s.len(),
{
    if i < s.len() - 1 {
        assert(s.remove(i).drop_last() =~= s.drop_last().remove(i));
        lemma_memory_sum_remove(s.drop_last(), i);
    } else {
        assert(s.remove(i) =~= s.drop_last());
    }
}

proof fn lemma_memory_sum_update<H>(s: Seq<ManagedModel<H>>, i: int, m: ManagedModel<H>)
    requires
        0 <= i < s.len(),
    ensures
        memory_sum(s.update(i, m)) + s[i].stats.memory_bytes == memory_sum(s) + m.stats.memory_bytes,
    decreases s.len(),
{
    if i < s.len() - 1 {
        assert(s.update(i, m).drop_last() =~= s.drop_last().update(i, m));
        lemma_memory_sum_update(s.drop_last(), i, m);
    } else {
        assert(s.update(i, m).drop_last() =~= s.drop_last());
    }
}

pub(crate) proof fn lemma_find_model<H>(s: Seq<ManagedModel<H>>, name: Seq<char>, i: int)
    requires
        names_unique(s),
        0 <= i < s.len(),
        s[i].name@ == name,
    ensures
        find_model(s, name) == Some(i),
{
}

proof fn lemma_remove_unique<H>(s: Seq<ManagedModel<H>>, i: int)
    requires
        names_unique(s),
        0 <= i < s.len(),
    ensures
        names_unique(s.remove(i)),
        forall|k: int| 0 <= k < s.remove(i).len() ==> (#[trigger] s.remove(i)[k]).name@ != s[i].name@,
{
    assert forall|a: int, b: int|
        0 <= a < s.remove(i).len() && 0 <= b < s.remove(i).len() && a != b implies s.remove(i)[a].name@
        != s.remove(i)[b].name@ by {
        let a0 = if a < i { a } else { a + 1 };
        let b0 = if b < i { b } else { b + 1 };
        assert(s.remove(i)[a] == s[a0]);
        assert(s.remove(i)[b] == s[b0]);
    }
    assert forall|k: int| 0 <= k < s.remove(i).len() implies (#[trigger] s.remove(i)[k]).name@
        != s[i].name@ by {
        let k0 = if k < i { k } else { k + 1 };
        assert(s.remove(i)[k] == s[k0]);
    }
}

/// With automatic unloading on, enforcing the limits ends within them, or with every
/// model left serving requests.
pub proof fn lemma_enforced_within_limits<H>(s: Seq<ManagedModel<H>>, p: ResourcePolicy)
    requires
        p.auto_unload_idle,
    ensures
        !over_limit(enforced(s, p).0, p) || forall|j: int|
            0 <= j < enforced(s, p).0.len() ==> (#[trigger] enforced(s, p).0[j]).stats.active_requests != 0,
    decreases s.len(),
{
    lemma_oldest_unused(s);
    if over_limit(s, p) {
        match oldest_unused(s) {
            Some(i) => {
                lemma_enforced_within_limits(s.remove(i), p);
            },
            None => {},
        }
    }
}

/// Enforcing the limits only unloads models without requests in flight, and keeps
/// the others in order.
pub proof fn lemma_enforced_keeps_busy<H>(s: Seq<ManagedModel<H>>, p: ResourcePolicy)
    ensures
        forall|j: int|
            0 <= j < s.len() && (#[trigger] s[j]).stats.active_requests != 0 ==> enforced(s, p).0.contains(
                s[j],
            ),
    decreases s.len(),
{
    lemma_oldest_unused(s);
    if over_limit(s, p) && p.auto_unload_idle {
        match oldest_unused(s) {
            Some(i) => {
                lemma_enforced_keeps_busy(s.remove(i), p);
                assert forall|j: int|
                    0 <= j < s.len() && (#[trigger] s[j]).stats.active_requests != 0 implies enforced(
                    s,
                    p,
                ).0.contains(s[j]) by {
                    let j0 = if j < i { j } else { j - 1 };
                    assert(s.remove(i)[j0] == s[j]);
                }
            },
            None => {},
        }
    }
}

impl<H> ResourceManager<H> {
    /// The models tracked, in the order first registered.
    pub closed spec fn models(&self) -> Seq<ManagedModel<H>> {
        self.models@
    }

    /// The policy.
    pub closed spec fn policy(&self) -> ResourcePolicy {
        self.policy
    }

    /// No model is tracked twice.
    pub closed spec fn wf(&self) -> bool {
        names_unique(self.models@)
    }

    /// A well-formed manager tracks each name once.
    pub proof fn lemma_names_unique(&self)
        requires
            self.wf(),
        ensures
            names_unique(self.models()),
    {
    }

    /// A manager tracking no model.
    pub fn new(policy: ResourcePolicy) -> (r: ResourceManager<H>)
        ensures
            r.wf(),
            r.models().len() == 0,
            r.policy() == policy,
    {
        ResourceManager { models: Vec::new(), policy }
    }

    fn index_of(&self, name: &str) -> (r: Option<usize>)
        requires
            self.wf(),
        ensures
            match r {
                Some(i) => find_model(self.models@, name@) == Some(i as int) && i < self.models@.len(),
                None => find_model(self.models@, name@) is None,
            },
    {
        let mut i: usize = 0;
        while i < self.models.len()
            invariant
                self.wf(),
                i <= self.models@.len(),
                forall|j: int| 0 <= j < i ==> self.models@[j].name@ != name@,
            decreases self.models.len() - i,
        {
            if text::str_eq(self.models[i].name.as_str(), name) {
                proof {
                    lemma_find_model(self.models@, name@, i as int);
                }
                return Some(i);
            }
            i = i + 1;
        }
        None
    }

    /// Starts tracking a model, active, accessed at `now_ms`, without requests in
    /// flight; a model of the same name is replaced in place.
    pub fn register_model(&mut self, name: String, handle: H, memory_bytes: u64, now_ms: u64)
        requires
            old(self).wf(),
        ensures
            final(self).wf(),
            final(self).policy() == old(self).policy(),
            ({
                let entry = ManagedModel {
                    name,
                    handle,
                    stats: ResourceStats { memory_bytes, last_access_ms: now_ms, active_requests: 0 },
                    state: ModelState::Active,
                };
                match find_model(old(self).models(), name@) {
                    Some(i) => final(self).models() == old(self).models().update(i, entry),
                    None => final(self).models() == old(self).models().push(entry),
                }
            }),
    {
        let found = self.index_of(name.as_str());
        let ghost name_v = name@;
        let entry = ManagedModel {
            name,
            handle,
            stats: ResourceStats { memory_bytes, last_access_ms: now_ms, active_requests: 0 },
            state: ModelState::Active,
        };
        let ghost s = self.models@;
        match found {
            Some(i) => {
                self.models.set(i, entry);
                proof {
                    assert forall|a: int, b: int|
                        0 <= a < self.models@.len() && 0 <= b < self.models@.len() && a != b implies self.models@[a].name@
                        != self.models@[b].name@ by {
                        if a != i && b != i {
                            assert(self.models@[a] == s[a] && self.models@[b] == s[b]);
                        }
                    }
                }
            },
            None => {
                self.models.push(entry);
                proof {
                    assert forall|a: int, b: int|
                        0 <= a < self.models@.len() && 0 <= b < self.models@.len() && a != b implies self.models@[a].name@
                        != self.models@[b].name@ by {
                        if a < s.len() && b < s.len() {
                            assert(self.models@[a] == s[a] && self.models@[b] == s[b]);
                        } else if a < s.len() {
                            assert(self.models@[a] == s[a]);
                        } else if b < s.len() {
                            assert(self.models@[b] == s[b]);
                        }
                    }
                }
            },
        }
    }

    /// Stops tracking a model; nothing changes when it is not tracked.
    pub fn unregister_model(&mut self, name: &str)
        requires
            old(self).wf(),
        ensures
            final(self).wf(),
            final(self).policy() == old(self).policy(),
            match find_model(old(self).models(), name@) {
                Some(i) => final(self).models() == old(self).models().remove(i),
                None => final(self).models() == old(self).models(),
            },
    {
        match self.index_of(name) {
            Some(i) => {
                proof {
                    lemma_remove_unique(self.models@, i as int);
                }
                self.models.remove(i);
            },
            None => {},
        }
    }

    /// A request starts on a model: it becomes active, accessed at `now_ms`, with one
    /// more request in flight. Nothing changes when it is not tracked.
    pub fn mark_active(&mut self, name: &str, now_ms: u64)
        requires
            old(self).wf(),
            find_model(old(self).models(), name@) matches Some(i) ==> old(
                self,
            ).models()[i].stats.active_requests < usize::MAX,
        ensures
            final(self).wf(),
            final(self).policy() == old(self).policy(),
            match find_model(old(self).models(), name@) {
                Some(i) => final(self).models() == old(self).models().update(
                    i,
                    ManagedModel {
                        state: ModelState::Active,
                        stats: ResourceStats {
                            last_access_ms: now_ms,
                            active_requests: (old(self).models()[i].stats.active_requests + 1) as usize,
                            ..old(self).models()[i].stats
                        },
                        ..old(self).models()[i]
                    },
                ),
                None => final(self).models() == old(self).models(),
            },
            final(self).models() == marked_active(old(self).models(), name@, now_ms),
    {
        match self.index_of(name) {
            Some(i) => {
                let ghost s = self.models@;
                let mut m = self.models.remove(i);
                m.state = ModelState::Active;
                m.stats.last_access_ms = now_ms;
                m.stats.active_requests = m.stats.active_requests + 1;
                self.models.insert(i, m);
                proof {
                    assert(self.models@ =~= s.update(i as int, m));
                    assert forall|a: int, b: int|
                        0 <= a < self.models@.len() && 0 <= b < self.models@.len() && a != b implies self.models@[a].name@
                        != self.models@[b].name@ by {
                        assert(self.models@[a].name@ == s[a].name@);
                        assert(self.models@[b].name@ == s[b].name@);
                    }
                }
            },
            None => {},
        }
    }

    /// A request on a model completes: one request fewer in flight (none below zero),
    /// and the model becomes idle when none is left. Nothing changes when it is not
    /// tracked.
    pub fn mark_request_complete(&mut self, name: &str)
        requires
            old(self).wf(),
        ensures
            final(self).wf(),
            final(self).policy() == old(self).policy(),
            match find_model(old(self).models(), name@) {
                Some(i) => {
                    let m = old(self).models()[i];
                    let left = if m.stats.active_requests > 0 {
                        (m.stats.active_requests - 1) as usize
                    } else {
                        0usize
                    };
                    final(self).models() == old(self).models().update(
                        i,
                        ManagedModel {
                            state: if left == 0 {
                                ModelState::Idle
                            } else {
                                m.state
                            },
                            stats: ResourceStats { active_requests: left, ..m.stats },
                            ..m
                        },
                    )
                },
                None => final(self).models() == old(self).models(),
            },
            final(self).models() == marked_complete(old(self).models(), name@),
    {
        match self.index_of(name) {
            Some(i) => {
                let ghost s = self.models@;
                let mut m = self.models.remove(i);
                m.stats.active_requests = m.stats.active_requests.saturating_sub(1);
                if m.stats.active_requests == 0 {
                    m.state = ModelState::Idle;
                }
                self.models.insert(i, m);
                proof {
                    assert(self.models@ =~= s.update(i as int, m));
                    assert forall|a: int, b: int|
                        0 <= a < self.models@.len() && 0 <= b < self.models@.len() && a != b implies self.models@[a].name@
                        != self.models@[b].name@ by {
                        assert(self.models@[a].name@ == s[a].name@);
                        assert(self.models@[b].name@ == s[b].name@);
                    }
                }
            },
            None => {},
        }
    }

    /// The usage of a model, if tracked.
    pub fn get_stats(&self, name: &str) -> (r: Option<ResourceStats>)
        requires
            self.wf(),
        ensures
            match find_model(self.models(), name@) {
                Some(i) => r == Some(self.models()[i].stats),
                None => r is None,
            },
    {
        match self.index_of(name) {
            Some(i) => Some(self.models[i].stats),
            None => None,
        }
    }

    /// Memory used by all tracked models.
    pub fn total_memory_usage(&self) -> (r: u64)
        requires
            memory_sum(self.models()) <= u64::MAX,
        ensures
            r == memory_sum(self.models()),
    {
        let mut total: u64 = 0;
        let mut i: usize = 0;
        while i < self.models.len()
            invariant
                i <= self.models@.len(),
                total == memory_sum(self.models@.take(i as int)),
                memory_sum(self.models@) <= u64::MAX,
            decreases self.models.len() - i,
        {
            proof {
                lemma_memory_sum_prefix(self.models@, i as int);
                lemma_memory_sum_prefix(self.models@, i + 1);
                assert(self.models@.take(i + 1).drop_last() =~= self.models@.take(i as int));
            }
            total = total + self.models[i].stats.memory_bytes;
            i = i + 1;
        }
        assert(self.models@.take(self.models@.len() as int) =~= self.models@);
        total
    }

    /// Models tracked.
    pub fn loaded_model_count(&self) -> (r: usize)
        ensures
            r == self.models().len(),
    {
        self.models.len()
    }

    /// Whether the policy's limits are exceeded.
    pub fn is_over_limit(&self) -> (r: bool)
        requires
            memory_sum(self.models()) <= u64::MAX,
        ensures
            r == over_limit(self.models(), self.policy()),
    {
        let total = self.total_memory_usage();
        total > self.policy.max_memory_bytes || self.models.len() > self.policy.max_loaded_models
    }

    /// The names of the models idle at `now_ms`, in order.
    pub fn get_idle_models(&self, now_ms: u64) -> (r: Vec<String>)
        ensures
            text::string_views(r@) == idle_names(self.models(), now_ms, self.policy()),
    {
        let mut out: Vec<String> = Vec::new();
        let mut i: usize = 0;
        while i < self.models.len()
            invariant
                i <= self.models@.len(),
                text::string_views(out@) == idle_names(self.models@.take(i as int), now_ms, self.policy),
            decreases self.models.len() - i,
        {
            let m = &self.models[i];
            let since = if now_ms >= m.stats.last_access_ms { now_ms - m.stats.last_access_ms } else { 0 };
            proof {
                assert(self.models@.take(i + 1).drop_last() =~= self.models@.take(i as int));
            }
            if m.state == ModelState::Idle && since > self.policy.idle_timeout_ms && m.stats.active_requests == 0 {
                let ghost before = out@;
                out.push(text::owned(m.name.as_str()));
                proof {
                    assert(text::string_views(out@) =~= text::string_views(before).push(m.name@));
                }
            }
            i = i + 1;
        }
        assert(self.models@.take(self.models@.len() as int) =~= self.models@);
        out
    }

    /// Optimizes the memory of the models idle at `now_ms` (when the policy says so):
    /// each is offloaded to the CPU, or optimized in place, and its memory becomes
    /// what `reduce` gives for its memory and whether it was offloaded. Returns the
    /// names of the models optimized.
    pub fn optimize_idle_models<F: Fn(u64, bool) -> u64>(&mut self, now_ms: u64, reduce: F) -> (r: Vec<
        String,
    >)
        requires
            old(self).wf(),
            forall|m: u64, offload: bool| reduce.requires((m, offload)),
        ensures
            final(self).wf(),
            final(self).policy() == old(self).policy(),
            final(self).models().len() == old(self).models().len(),
            !old(self).policy().optimize_idle_memory ==> r@.len() == 0 && final(self).models() == old(
                self,
            ).models(),
            old(self).policy().optimize_idle_memory ==> text::string_views(r@) == idle_names(
                old(self).models(),
                now_ms,
                old(self).policy(),
            ),
            forall|i: int|
                0 <= i < old(self).models().len() ==> {
                    let m = old(self).models()[i];
                    let n = #[trigger] final(self).models()[i];
                    if old(self).policy().optimize_idle_memory && is_idle_at(m, now_ms, old(self).policy()) {
                        &&& n.state == if old(self).policy().offload_to_cpu {
                            ModelState::OffloadedToCpu
                        } else {
                            ModelState::Optimized
                        }
                        &&& reduce.ensures((m.stats.memory_bytes, old(self).policy().offload_to_cpu), n.stats.memory_bytes)
                        &&& n == ManagedModel { state: n.state, stats: ResourceStats { memory_bytes: n.stats.memory_bytes, ..m.stats }, ..m }
                    } else {
                        n == m
                    }
                },
    {
        if !self.policy.optimize_idle_memory {
            return Vec::new();
        }
        let ghost s = self.models@;
        let mut out: Vec<String> = Vec::new();
        let mut i: usize = 0;
        while i < self.models.len()
            invariant
                self.models@.len() == s.len(),
                i <= s.len(),
                names_unique(s),
                self.policy == old(self).policy,
                s == old(self).models@,
                self.policy.optimize_idle_memory,
                forall|m: u64, offload: bool| reduce.requires((m, offload)),
                forall|j: int| i <= j < s.len() ==> self.models@[j] == s[j],
                forall|j: int| 0 <= j < s.len() ==> (#[trigger] self.models@[j]).name@ == s[j].name@,
                forall|j: int|
                    0 <= j < i ==> {
                        let m = s[j];
                        let n = #[trigger] self.models@[j];
                        if is_idle_at(m, now_ms, self.policy) {
                            &&& n.state == if self.policy.offload_to_cpu {
                                ModelState::OffloadedToCpu
                            } else {
                                ModelState::Optimized
                            }
                            &&& reduce.ensures((m.stats.memory_bytes, self.policy.offload_to_cpu), n.stats.memory_bytes)
                            &&& n == ManagedModel { state: n.state, stats: ResourceStats { memory_bytes: n.stats.memory_bytes, ..m.stats }, ..m }
                        } else {
                            n == m
                        }
                    },
                text::string_views(out@) == idle_names(s.take(i as int), now_ms, self.policy),
            decreases s.len() - i,
        {
            proof {
                assert(s.take(i + 1).drop_last() =~= s.take(i as int));
            }
            let ghost cur = self.models@;
            let since = if now_ms >= self.models[i].stats.last_access_ms {
                now_ms - self.models[i].stats.last_access_ms
            } else {
                0
            };
            if self.models[i].state == ModelState::Idle && since > self.policy.idle_timeout_ms
                && self.models[i].stats.active_requests == 0 {
                let mut m = self.models.remove(i);
                let offload = self.policy.offload_to_cpu;
                m.state = if offload { ModelState::OffloadedToCpu } else { ModelState::Optimized };
                m.stats.memory_bytes = reduce(m.stats.memory_bytes, offload);
                let ghost before = out@;
                out.push(text::owned(m.name.as_str()));
                self.models.insert(i, m);
                proof {
                    assert(self.models@ =~= cur.update(i as int, m));
                    assert(text::string_views(out@) =~= text::string_views(before).push(s[i as int].name@));
                }
            }
            i = i + 1;
        }
        proof {
            assert(s.take(s.len() as int) =~= s);
            assert forall|a: int, b: int|
                0 <= a < self.models@.len() && 0 <= b < self.models@.len() && a != b implies self.models@[a].name@
                != self.models@[b].name@ by {
                assert(self.models@[a].name@ == s[a].name@);
                assert(self.models@[b].name@ == s[b].name@);
            }
        }
        out
    }

    /// Unloads models until the limits are met, least recently accessed first among
    /// those without requests in flight, when automatic unloading is on. Returns the
    /// names unloaded, in order.
    pub fn enforce_limits(&mut self) -> (r: Vec<String>)
        requires
            old(self).wf(),
            memory_sum(old(self).models()) <= u64::MAX,
        ensures
            final(self).wf(),
            final(self).policy() == old(self).policy(),
            final(self).models() == enforced(old(self).models(), old(self).policy()).0,
            text::string_views(r@) == enforced(old(self).models(), old(self).policy()).1,
    {
        let mut out: Vec<String> = Vec::new();
        let ghost s0 = self.models@;
        proof {
            assert(text::string_views(out@) + enforced(s0, self.policy).1 =~= enforced(s0, self.policy).1);
        }
        while self.is_over_limit() && self.policy.auto_unload_idle
            invariant
                names_unique(self.models@),
                memory_sum(self.models@) <= u64::MAX,
                self.policy == old(self).policy,
                s0 == old(self).models@,
                enforced(self.models@, self.policy).0 == enforced(s0, self.policy).0,
                text::string_views(out@) + enforced(self.models@, self.policy).1 == enforced(s0, self.policy).1,
            decreases self.models@.len(),
        {
            let ghost s = self.models@;
            match self.oldest_unused_index() {
                Some(i) => {
                    proof {
                        lemma_oldest_unused(s);
                        assert(oldest_unused(s) == Some(i as int));
                        assert(over_limit(s, self.policy));
                        lemma_remove_unique(s, i as int);
                        lemma_memory_sum_remove(s, i as int);
                    }
                    let m = self.models.remove(i);
                    let ghost before = out@;
                    out.push(m.name);
                    proof {
                        let e = enforced(s.remove(i as int), self.policy);
                        assert(enforced(s, self.policy) == (e.0, seq![s[i as int].name@] + e.1));
                        assert(text::string_views(out@) =~= text::string_views(before).push(s[i as int].name@));
                        assert(text::string_views(out@) + e.1 =~= text::string_views(before) + (seq![s[i as int].name@] + e.1));
                    }
                },
                None => {
                    proof {
                        assert(enforced(s, self.policy) == (s, Seq::<Seq<char>>::empty()));
                        assert(text::string_views(out@) + Seq::<Seq<char>>::empty() =~= text::string_views(out@));
                    }
                    return out;
                },
            }
        }
        proof {
            let s = self.models@;
            assert(enforced(s, self.policy) == (s, Seq::<Seq<char>>::empty()));
            assert(text::string_views(out@) + Seq::<Seq<char>>::empty() =~= text::string_views(out@));
        }
        out
    }

    fn oldest_unused_index(&self) -> (r: Option<usize>)
        ensures
            match r {
                Some(i) => oldest_unused(self.models@) == Some(i as int),
                None => oldest_unused(self.models@) is None,
            },
    {
        let mut best: Option<usize> = None;
        let mut k: usize = 0;
        while k < self.models.len()
            invariant
                k <= self.models@.len(),
                match best {
                    Some(i) => oldest_unused(self.models@.take(k as int)) == Some(i as int),
                    None => oldest_unused(self.models@.take(k as int)) is None,
                },
            decreases self.models.len() - k,
        {
            proof {
                let t = self.models@.take(k + 1);
                assert(t.drop_last() =~= self.models@.take(k as int));
                lemma_oldest_unused(self.models@.take(k as int));
            }
            if self.models[k].stats.active_requests == 0 {
                match best {
                    Some(j) => {
                        if self.models[k].stats.last_access_ms < self.models[j].stats.last_access_ms {
                            best = Some(k);
                        }
                    },
                    None => {
                        best = Some(k);
                    },
                }
            }
            k = k + 1;
        }
        assert(self.models@.take(self.models@.len() as int) =~= self.models@);
        best
    }
}

/// Memory that no model grew does not grow in all.
pub proof fn lemma_memory_sum_pointwise<H>(a: Seq<ManagedModel<H>>, b: Seq<ManagedModel<H>>)
    requires
        a.len() == b.len(),
        forall|i: int| 0 <= i < a.len() ==> (#[trigger] b[i]).stats.memory_bytes <= a[i].stats.memory_bytes,
    ensures
        memory_sum(b) <= memory_sum(a),
    decreases a.len(),
{
    if a.len() > 0 {
        lemma_memory_sum_pointwise(a.drop_last(), b.drop_last());
        assert(b.last().stats.memory_bytes <= a.last().stats.memory_bytes);
    }
}

proof fn lemma_memory_sum_prefix<H>(s: Seq<ManagedModel<H>>, n: int)
    requires
        0 <= n <= s.len(),
    ensures
        memory_sum(s.take(n)) <= memory_sum(s),
    decreases s.len(),
{
    if n < s.len() {
        lemma_memory_sum_prefix(s.drop_last(), n);
        assert(s.drop_last().take(n) =~= s.take(n));
    } else {
        assert(s.take(n) =~= s);
    }
}

} // verus!
