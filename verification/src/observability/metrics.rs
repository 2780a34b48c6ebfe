//! Counters of inference activity, per model and in total, and a window of the
//! most recent request latencies with its percentiles.
//!
//! Latencies are kept in whole nanoseconds.
use vstd::prelude::*;
use crate::text;
use crate::text::decimal;

verus! {

/// Where ascending insertion puts `x` among ascending latencies: after every one
/// that is not greater.
pub open spec fn insert_ascending(s: Seq<u64>, x: u64) -> Seq<u64>
    decreases s.len(),
{
    if s.len() == 0 {
        seq![x]
    } else if x < s.last() {
        insert_ascending(s.drop_last(), x).push(s.last())
    } else {
        s.push(x)
    }
}

/// The latencies in ascending order.
pub open spec fn ascending(s: Seq<u64>) -> Seq<u64>
    decreases s.len(),
{
    if s.len() == 0 {
        Seq::empty()
    } else {
        insert_ascending(ascending(s.drop_last()), s.last())
    }
}

/// Whether a sequence of latencies is in ascending order.
pub open spec fn is_ascending(s: Seq<u64>) -> bool {
    forall|i: int, j: int| 0 <= i < j < s.len() ==> s[i] <= s[j]
}

proof fn lemma_insert_ascending(s: Seq<u64>, x: u64)
    requires
        is_ascending(s),
    ensures
        is_ascending(insert_ascending(s, x)),
        insert_ascending(s, x).to_multiset() == s.to_multiset().insert(x),
        insert_ascending(s, x).len() == s.len() + 1,
    decreases s.len(),
{
    broadcast use vstd::seq_lib::group_to_multiset_ensures;

    if s.len() == 0 {
        assert(seq![x] =~= Seq::<u64>::empty().push(x));
    } else if x < s.last() {
        let p = s.drop_last();
        lemma_insert_ascending(p, x);
        let q = insert_ascending(p, x);
        let r = q.push(s.last());
        assert(s =~= p.push(s.last()));
        assert forall|i: int, j: int| 0 <= i < j < r.len() implies r[i] <= r[j] by {
            if j == r.len() - 1 {
                assert(q.to_multiset().count(r[i]) > 0) by {
                    assert(q.contains(r[i]));
                }
                if r[i] != x {
                    assert(p.to_multiset().count(r[i]) > 0);
                    assert(p.contains(r[i]));
                    let k = choose|k: int| 0 <= k < p.len() && p[k] == r[i];
                    assert(s[k] == p[k]);
                    assert(s[k] <= s[s.len() - 1]);
                }
            }
        }
    } else {
        let r = s.push(x);
        assert forall|i: int, j: int| 0 <= i < j < r.len() implies r[i] <= r[j] by {
            if j == r.len() - 1 && i < s.len() - 1 {
                assert(s[i] <= s[s.len() - 1]);
            }
        }
    }
}

/// The ascending order of latencies is in order and holds exactly the latencies
/// it was given.
pub proof fn lemma_ascending(s: Seq<u64>)
    ensures
        is_ascending(ascending(s)),
        ascending(s).to_multiset() == s.to_multiset(),
        ascending(s).len() == s.len(),
    decreases s.len(),
{
    broadcast use vstd::seq_lib::group_to_multiset_ensures;

    if s.len() > 0 {
        lemma_ascending(s.drop_last());
        lemma_insert_ascending(ascending(s.drop_last()), s.last());
        assert(s =~= s.drop_last().push(s.last()));
    } else {
        assert(ascending(s) =~= s);
    }
}

/// Inserts `x` into ascending latencies after every one that is not greater.
fn insert_in_order(out: &mut Vec<u64>, x: u64)
    ensures
        final(out)@ == insert_ascending(old(out)@, x),
{
    let ghost s = out@;
    let mut i: usize = out.len();
    assert(s.take(i as int) =~= s);
    assert(s.skip(i as int) =~= Seq::<u64>::empty());
    assert(insert_ascending(s, x) + Seq::<u64>::empty() =~= insert_ascending(s, x));
    while i > 0 && x < out[i - 1]
        invariant
            out@ == s,
            i <= s.len(),
            insert_ascending(s, x) == insert_ascending(s.take(i as int), x) + s.skip(i as int),
        decreases i,
    {
        proof {
            let t = s.take(i as int);
            assert(t.drop_last() =~= s.take(i - 1));
            assert(t.last() == s[i - 1]);
            assert(insert_ascending(t, x) == insert_ascending(s.take(i - 1), x).push(s[i - 1]));
            assert(s.skip(i - 1) =~= seq![s[i - 1]] + s.skip(i as int));
            assert(insert_ascending(s.take(i - 1), x).push(s[i - 1]) + s.skip(i as int) =~= insert_ascending(
                s.take(i - 1),
                x,
            ) + s.skip(i - 1));
        }
        i = i - 1;
    }
    proof {
        let t = s.take(i as int);
        if i > 0 {
            assert(t.last() == s[i - 1]);
        }
        assert(insert_ascending(t, x) == t.push(x));
        assert(t.push(x) + s.skip(i as int) =~= s.insert(i as int, x));
    }
    out.insert(i, x);
}

/// The latencies in ascending order.
pub fn sort_latencies(s: &Vec<u64>) -> (r: Vec<u64>)
    ensures
        r@ == ascending(s@),
{
    let mut out: Vec<u64> = Vec::new();
    let mut i: usize = 0;
    while i < s.len()
        invariant
            i <= s.len(),
            out@ == ascending(s@.take(i as int)),
        decreases s.len() - i,
    {
        assert(s@.take(i + 1).drop_last() =~= s@.take(i as int));
        assert(s@.take(i + 1).last() == s@[i as int]);
        insert_in_order(&mut out, s[i]);
        i = i + 1;
    }
    assert(s@.take(s.len() as int) =~= s@);
    out
}

/// The position, among `n` ascending samples, of the `p`-th percentile: `p / 100`
/// of the way from the first to the last, rounded to the nearest position (halves
/// up).
pub open spec fn percentile_rank(p: nat, n: nat) -> int {
    (p * (n - 1) + 50) / 100
}

/// The `p`-th percentile of latencies: 0 without any.
pub open spec fn percentile_of(s: Seq<u64>, p: nat) -> u64 {
    if s.len() == 0 {
        0
    } else {
        ascending(s)[percentile_rank(p, s.len())]
    }
}

/// The latencies recorded most recently, at most `max_samples` of them; recording
/// one more drops the oldest when the window is full.
pub struct LatencyTracker {
    samples: Vec<u64>,
    max_samples: usize,
}

impl LatencyTracker {
    /// The latencies in the window, oldest first.
    pub closed spec fn window(&self) -> Seq<u64> {
        self.samples@
    }

    /// How many latencies the window holds at most.
    pub closed spec fn capacity(&self) -> nat {
        self.max_samples as nat
    }

    /// The window is never longer than its capacity, which is positive.
    pub closed spec fn wf(&self) -> bool {
        0 < self.max_samples && self.samples@.len() <= self.max_samples
    }

    /// An empty window of `max_samples` latencies. (With no room at all, recording
    /// would fail on the first latency.)
    pub fn new(max_samples: usize) -> (r: LatencyTracker)
        requires
            max_samples > 0,
        ensures
            r.wf(),
            r.window() == Seq::<u64>::empty(),
            r.capacity() == max_samples,
    {
        LatencyTracker { samples: Vec::new(), max_samples }
    }

    /// Records a latency, dropping the oldest when the window is full.
    pub fn record(&mut self, latency_ns: u64)
        requires
            old(self).wf(),
        ensures
            final(self).wf(),
            final(self).capacity() == old(self).capacity(),
            final(self).window() == if old(self).window().len() < old(self).capacity() {
                old(self).window().push(latency_ns)
            } else {
                old(self).window().drop_first().push(latency_ns)
            },
    {
        if self.samples.len() >= self.max_samples {
            self.samples.remove(0);
        }
        self.samples.push(latency_ns);
    }

    /// The number of latencies in the window.
    pub fn len(&self) -> (r: usize)
        ensures
            r == self.window().len(),
    {
        self.samples.len()
    }

    /// The `p`-th percentile of the window (`p` at most 100): the latency at
    /// position `p / 100` of the way through the sorted window; 0 for an empty one.
    pub fn percentile(&self, p: u64) -> (r: u64)
        requires
            p <= 100,
        ensures
            r == percentile_of(self.window(), p as nat),
    {
        if self.samples.len() == 0 {
            return 0;
        }
        let sorted = sort_latencies(&self.samples);
        proof {
            lemma_ascending(self.samples@);
        }
        let n: u128 = self.samples.len() as u128;
        assert((p as u128) * (n - 1) <= 100 * 0x1_0000_0000_0000_0000) by (nonlinear_arith)
            requires
                p <= 100,
                1 <= n <= 0x1_0000_0000_0000_0000,
        ;
        let idx: u128 = ((p as u128) * (n - 1) + 50) / 100;
        assert(idx <= n - 1) by (nonlinear_arith)
            requires
                p <= 100,
                n >= 1,
                idx == (p * (n - 1) + 50) / 100,
        ;
        sorted[idx as usize]
    }
}

/// The counts kept for one model.
#[derive(Debug, Clone, Copy, PartialEq, Eq, Structural)]
pub struct ModelCounts {
    pub requests: u64,
    pub tokens_generated: u64,
    pub errors: u64,
}

/// A table of per-model counts, each model by its name.
pub open spec fn table_view(s: Seq<(String, ModelCounts)>) -> Seq<(Seq<char>, ModelCounts)> {
    s.map_values(|e: (String, ModelCounts)| (e.0@, e.1))
}

/// The sum of one count over all models of a table.
pub open spec fn counts_sum(s: Seq<(Seq<char>, ModelCounts)>, f: spec_fn(ModelCounts) -> int) -> int
    decreases s.len(),
{
    if s.len() == 0 {
        0
    } else {
        counts_sum(s.drop_last(), f) + f(s.last().1)
    }
}

/// The count of requests of a model.
pub open spec fn requests_of(c: ModelCounts) -> int {
    c.requests as int
}

/// The count of tokens generated for a model.
pub open spec fn tokens_of(c: ModelCounts) -> int {
    c.tokens_generated as int
}

/// The count of failed requests of a model.
pub open spec fn errors_of(c: ModelCounts) -> int {
    c.errors as int
}

/// The position of model `name` in a table, if it is there.
pub open spec fn model_index(s: Seq<(Seq<char>, ModelCounts)>, name: Seq<char>) -> Option<int> {
    if exists|i: int| 0 <= i < s.len() && s[i].0 == name {
        Some(choose|i: int| 0 <= i < s.len() && s[i].0 == name)
    } else {
        None
    }
}

/// No model occurs twice in a table.
pub open spec fn names_unique(s: Seq<(Seq<char>, ModelCounts)>) -> bool {
    forall|i: int, j: int| 0 <= i < s.len() && 0 <= j < s.len() && i != j ==> s[i].0 != s[j].0
}

proof fn lemma_sum_update(
    s: Seq<(Seq<char>, ModelCounts)>,
    i: int,
    v: (Seq<char>, ModelCounts),
    f: spec_fn(ModelCounts) -> int,
)
    requires
        0 <= i < s.len(),
    ensures
        counts_sum(s.update(i, v), f) == counts_sum(s, f) - f(s[i].1) + f(v.1),
    decreases s.len(),
{
    if i < s.len() - 1 {
        lemma_sum_update(s.drop_last(), i, v, f);
        assert(s.update(i, v).drop_last() =~= s.drop_last().update(i, v));
    } else {
        assert(s.update(i, v).drop_last() =~= s.drop_last());
    }
}

proof fn lemma_sum_bounds_entry(s: Seq<(Seq<char>, ModelCounts)>, i: int, f: spec_fn(ModelCounts) -> int)
    requires
        0 <= i < s.len(),
        forall|c: ModelCounts| #[trigger] f(c) >= 0,
    ensures
        f(s[i].1) <= counts_sum(s, f),
        counts_sum(s, f) >= 0,
    decreases s.len(),
{
    assert(f(s.last().1) >= 0);
    if i < s.len() - 1 {
        lemma_sum_bounds_entry(s.drop_last(), i, f);
        assert(s.drop_last()[i] == s[i]);
    } else if s.len() > 1 {
        lemma_sum_bounds_entry(s.drop_last(), 0, f);
    } else {
        assert(counts_sum(s.drop_last(), f) == 0);
    }
}

/// Counters of inference requests: in total, per model, and the recent latencies.
/// The in-flight count wraps around like the atomic counter it stands for.
pub struct InferenceMetrics {
    total_requests: u64,
    total_tokens_generated: u64,
    total_errors: u64,
    active_requests: u64,
    latencies: LatencyTracker,
    models: Vec<(String, ModelCounts)>,
}

/// What the metrics show at one moment.
#[derive(Debug, Clone)]
pub struct MetricsSnapshot {
    pub total_requests: u64,
    pub total_tokens: u64,
    pub total_errors: u64,
    pub active_requests: u64,
    pub latency_p50_ns: u64,
    pub latency_p95_ns: u64,
    pub latency_p99_ns: u64,
    pub models: Vec<(String, ModelCounts)>,
}

/// The counts of a model after one more request.
pub open spec fn counted(c: ModelCounts, tokens: u64, success: bool) -> ModelCounts {
    ModelCounts {
        requests: (c.requests + 1) as u64,
        tokens_generated: (c.tokens_generated + tokens) as u64,
        errors: if success {
            c.errors
        } else {
            (c.errors + 1) as u64
        },
    }
}

impl InferenceMetrics {
    /// Requests completed.
    pub closed spec fn requests_total(&self) -> u64 {
        self.total_requests
    }

    /// Tokens generated.
    pub closed spec fn tokens_total(&self) -> u64 {
        self.total_tokens_generated
    }

    /// Requests that failed.
    pub closed spec fn errors_total(&self) -> u64 {
        self.total_errors
    }

    /// Requests in flight.
    pub closed spec fn active_count(&self) -> u64 {
        self.active_requests
    }

    /// The per-model counts, by model name, in the order models first completed.
    pub closed spec fn models(&self) -> Seq<(Seq<char>, ModelCounts)> {
        table_view(self.models@)
    }

    /// The recent latencies, oldest first.
    pub closed spec fn latencies(&self) -> Seq<u64> {
        self.latencies.window()
    }

    /// How many latencies are kept.
    pub closed spec fn latency_capacity(&self) -> nat {
        self.latencies.capacity()
    }

    /// Each model occurs once, and the totals are the sums over the models: every
    /// request, token and error is counted once in total and once for its model.
    pub closed spec fn wf(&self) -> bool {
        &&& names_unique(self.models())
        &&& self.latencies.wf()
        &&& counts_sum(self.models(), |c: ModelCounts| requests_of(c)) == self.total_requests
        &&& counts_sum(self.models(), |c: ModelCounts| tokens_of(c)) == self.total_tokens_generated
        &&& counts_sum(self.models(), |c: ModelCounts| errors_of(c)) == self.total_errors
        &&& self.total_errors <= self.total_requests
    }

    /// Metrics with nothing counted, keeping the 10 000 most recent latencies.
    pub fn new() -> (r: InferenceMetrics)
        ensures
            r.wf(),
            r.requests_total() == 0,
            r.tokens_total() == 0,
            r.errors_total() == 0,
            r.active_count() == 0,
            r.models() == Seq::<(Seq<char>, ModelCounts)>::empty(),
            r.latencies() == Seq::<u64>::empty(),
            r.latency_capacity() == 10000,
    {
        let r = InferenceMetrics {
            total_requests: 0,
            total_tokens_generated: 0,
            total_errors: 0,
            active_requests: 0,
            latencies: LatencyTracker::new(10000),
            models: Vec::new(),
        };
        assert(r.models() =~= Seq::<(Seq<char>, ModelCounts)>::empty());
        r
    }

    /// Requests completed.
    pub fn total_requests(&self) -> (r: u64)
        ensures
            r == self.requests_total(),
    {
        self.total_requests
    }

    /// Tokens generated.
    pub fn total_tokens_generated(&self) -> (r: u64)
        ensures
            r == self.tokens_total(),
    {
        self.total_tokens_generated
    }

    /// Requests that failed.
    pub fn total_errors(&self) -> (r: u64)
        ensures
            r == self.errors_total(),
    {
        self.total_errors
    }

    /// Requests in flight.
    pub fn active_requests(&self) -> (r: u64)
        ensures
            r == self.active_count(),
    {
        self.active_requests
    }

    /// A request started.
    pub fn request_start(&mut self)
        requires
            old(self).wf(),
        ensures
            final(self).wf(),
            final(self).active_count() == crate::inference::coordinator::wrapped_sum(old(self).active_count(), 1),
            final(self).requests_total() == old(self).requests_total(),
            final(self).tokens_total() == old(self).tokens_total(),
            final(self).errors_total() == old(self).errors_total(),
            final(self).models() == old(self).models(),
            final(self).latencies() == old(self).latencies(),
            final(self).latency_capacity() == old(self).latency_capacity(),
    {
        self.active_requests = self.active_requests.wrapping_add(1);
    }

    fn model_position(&self, model: &str) -> (r: Option<usize>)
        requires
            self.wf(),
        ensures
            match r {
                Some(i) => model_index(self.models(), model@) == Some(i as int) && i < self.models().len(),
                None => model_index(self.models(), model@) is None,
            },
    {
        let mut i: usize = 0;
        while i < self.models.len()
            invariant
                self.wf(),
                i <= self.models@.len(),
                forall|j: int| 0 <= j < i ==> self.models()[j].0 != model@,
            decreases self.models.len() - i,
        {
            if text::str_eq(self.models[i].0.as_str(), model) {
                assert(self.models()[i as int].0 == model@);
                return Some(i);
            }
            i = i + 1;
        }
        None
    }

    /// A request for `model` completed after `latency_ns` nanoseconds with
    /// `tokens` tokens, successfully or not. The totals cannot overflow.
    pub fn request_complete(&mut self, model: &str, tokens: u64, latency_ns: u64, success: bool)
        requires
            old(self).wf(),
            old(self).requests_total() < u64::MAX,
            old(self).tokens_total() + tokens <= u64::MAX,
        ensures
            final(self).wf(),
            final(self).active_count() == crate::inference::coordinator::wrapped_difference(
                old(self).active_count(),
                1,
            ),
            final(self).requests_total() == old(self).requests_total() + 1,
            final(self).tokens_total() == old(self).tokens_total() + tokens,
            final(self).errors_total() == old(self).errors_total() + if success {
                0int
            } else {
                1int
            },
            final(self).latency_capacity() == old(self).latency_capacity(),
            final(self).latencies() == if old(self).latencies().len() < old(self).latency_capacity() {
                old(self).latencies().push(latency_ns)
            } else {
                old(self).latencies().drop_first().push(latency_ns)
            },
            match model_index(old(self).models(), model@) {
                Some(i) => final(self).models() == old(self).models().update(
                    i,
                    (model@, counted(old(self).models()[i].1, tokens, success)),
                ),
                None => final(self).models() == old(self).models().push(
                    (model@, counted(ModelCounts { requests: 0, tokens_generated: 0, errors: 0 }, tokens, success)),
                ),
            },
    {
        let ghost old_models = self.models();
        let ghost fr = |c: ModelCounts| requests_of(c);
        let ghost ft = |c: ModelCounts| tokens_of(c);
        let ghost fe = |c: ModelCounts| errors_of(c);
        self.active_requests = self.active_requests.wrapping_sub(1);
        self.latencies.record(latency_ns);
        match self.model_position(model) {
            Some(i) => {
                let c = self.models[i].1;
                proof {
                    lemma_sum_bounds_entry(old_models, i as int, fr);
                    lemma_sum_bounds_entry(old_models, i as int, ft);
                    lemma_sum_bounds_entry(old_models, i as int, fe);
                    assert(old_models[i as int].1 == c);
                }
                let next = ModelCounts {
                    requests: c.requests + 1,
                    tokens_generated: c.tokens_generated + tokens,
                    errors: if success {
                        c.errors
                    } else {
                        c.errors + 1
                    },
                };
                let name = text::owned(model);
                self.models.set(i, (name, next));
                proof {
                    let v = (model@, next);
                    assert(self.models() =~= old_models.update(i as int, v));
                    lemma_sum_update(old_models, i as int, v, fr);
                    lemma_sum_update(old_models, i as int, v, ft);
                    lemma_sum_update(old_models, i as int, v, fe);
                    assert forall|a: int, b: int|
                        0 <= a < self.models().len() && 0 <= b < self.models().len() && a != b implies self.models()[a].0
                        != self.models()[b].0 by {
                        assert(old_models[i as int].0 == model@);
                    }
                }
            },
            None => {
                let next = ModelCounts {
                    requests: 1,
                    tokens_generated: tokens,
                    errors: if success {
                        0
                    } else {
                        1
                    },
                };
                self.models.push((text::owned(model), next));
                proof {
                    assert(self.models() =~= old_models.push((model@, next)));
                    assert(self.models().drop_last() =~= old_models);
                    assert forall|a: int, b: int|
                        0 <= a < self.models().len() && 0 <= b < self.models().len() && a != b implies self.models()[a].0
                        != self.models()[b].0 by {
                        if a < old_models.len() && b < old_models.len() {
                            assert(self.models()[a] == old_models[a]);
                            assert(self.models()[b] == old_models[b]);
                        } else if a < old_models.len() {
                            assert(self.models()[a] == old_models[a]);
                        } else if b < old_models.len() {
                            assert(self.models()[b] == old_models[b]);
                        }
                    }
                }
            },
        }
        self.total_requests = self.total_requests + 1;
        self.total_tokens_generated = self.total_tokens_generated + tokens;
        if !success {
            self.total_errors = self.total_errors + 1;
        }
    }
}

impl InferenceMetrics {
    /// What the metrics show now: the counters, the 50th, 95th and 99th
    /// percentiles of the recent latencies, and the per-model counts.
    pub fn snapshot(&self) -> (r: MetricsSnapshot)
        requires
            self.wf(),
        ensures
            r.total_requests == self.requests_total(),
            r.total_tokens == self.tokens_total(),
            r.total_errors == self.errors_total(),
            r.active_requests == self.active_count(),
            r.latency_p50_ns == percentile_of(self.latencies(), 50),
            r.latency_p95_ns == percentile_of(self.latencies(), 95),
            r.latency_p99_ns == percentile_of(self.latencies(), 99),
            table_view(r.models@) == self.models(),
    {
        let mut models: Vec<(String, ModelCounts)> = Vec::new();
        let mut i: usize = 0;
        while i < self.models.len()
            invariant
                i <= self.models@.len(),
                models@.len() == i,
                table_view(models@) == self.models().take(i as int),
            decreases self.models.len() - i,
        {
            let entry = (text::owned(self.models[i].0.as_str()), self.models[i].1);
            let ghost before = models@;
            models.push(entry);
            assert forall|k: int| 0 <= k < i + 1 implies #[trigger] table_view(models@)[k] == self.models().take(
                i + 1,
            )[k] by {
                if k < i {
                    assert(models@[k] == before[k]);
                    assert(table_view(before)[k] == self.models().take(i as int)[k]);
                }
            }
            assert(table_view(models@) =~= self.models().take(i + 1));
            i = i + 1;
        }
        assert(self.models().take(self.models@.len() as int) =~= self.models());
        MetricsSnapshot {
            total_requests: self.total_requests,
            total_tokens: self.total_tokens_generated,
            total_errors: self.total_errors,
            active_requests: self.active_requests,
            latency_p50_ns: self.latencies.percentile(50),
            latency_p95_ns: self.latencies.percentile(95),
            latency_p99_ns: self.latencies.percentile(99),
            models,
        }
    }
}

/// Every request, token and error the metrics count is counted once for its model:
/// the totals are the sums of the per-model counts, and no model appears twice.
pub proof fn lemma_totals_are_model_sums(m: &InferenceMetrics)
    requires
        m.wf(),
    ensures
        names_unique(m.models()),
        counts_sum(m.models(), |c: ModelCounts| requests_of(c)) == m.requests_total(),
        counts_sum(m.models(), |c: ModelCounts| tokens_of(c)) == m.tokens_total(),
        counts_sum(m.models(), |c: ModelCounts| errors_of(c)) == m.errors_total(),
        m.errors_total() <= m.requests_total(),
{
}

/// A latency in nanoseconds as milliseconds rounded to hundredths (a tie goes to
/// the even hundredth), in hundredths.
pub open spec fn hundredths(ns: nat) -> nat {
    let q = ns / 10000;
    let r = ns % 10000;
    if r > 5000 || (r == 5000 && q % 2 == 1) {
        q + 1
    } else {
        q
    }
}

/// A latency in nanoseconds written as milliseconds with two decimals.
pub open spec fn millis_text(ns: nat) -> Seq<char> {
    let h = hundredths(ns);
    decimal(h / 100) + seq!['.', text::digit_char((h % 100) / 10), text::digit_char(h % 10)]
}

/// A latency in nanoseconds written as milliseconds with two decimals.
pub fn millis_to_text(ns: u64) -> (r: String)
    ensures
        r@ == millis_text(ns as nat),
{
    let q = ns / 10000;
    let rem = ns % 10000;
    let h: u64 = if rem > 5000 || (rem == 5000 && q % 2 == 1) {
        q + 1
    } else {
        q
    };
    let mut out = text::u64_to_decimal(h / 100);
    text::push_char(&mut out, '.');
    text::push_char(&mut out, text::digit((h % 100) / 10));
    text::push_char(&mut out, text::digit(h % 10));
    out
}

/// The Prometheus exposition text of a snapshot and the uptime in seconds.
pub open spec fn prometheus_text(snap: MetricsSnapshot, uptime_secs: u64) -> Seq<char> {
    "# HELP fuse_requests_total Total inference requests\n"@ + "# TYPE fuse_requests_total counter\n"@
        + "fuse_requests_total "@ + decimal(snap.total_requests as nat) + "\n"@
        + "# HELP fuse_tokens_total Total tokens generated\n"@ + "# TYPE fuse_tokens_total counter\n"@
        + "fuse_tokens_total "@ + decimal(snap.total_tokens as nat) + "\n"@
        + "# HELP fuse_errors_total Total errors\n"@ + "# TYPE fuse_errors_total counter\n"@
        + "fuse_errors_total "@ + decimal(snap.total_errors as nat) + "\n"@
        + "# HELP fuse_active_requests Current active requests\n"@ + "# TYPE fuse_active_requests gauge\n"@
        + "fuse_active_requests "@ + decimal(snap.active_requests as nat) + "\n"@
        + "# HELP fuse_latency_ms Request latency in milliseconds\n"@ + "# TYPE fuse_latency_ms summary\n"@
        + "fuse_latency_ms{quantile=\"0.5\"} "@ + millis_text(snap.latency_p50_ns as nat) + "\n"@
        + "fuse_latency_ms{quantile=\"0.95\"} "@ + millis_text(snap.latency_p95_ns as nat) + "\n"@
        + "fuse_latency_ms{quantile=\"0.99\"} "@ + millis_text(snap.latency_p99_ns as nat) + "\n"@
        + "# HELP fuse_uptime_seconds Server uptime\n"@ + "# TYPE fuse_uptime_seconds gauge\n"@
        + "fuse_uptime_seconds "@ + decimal(uptime_secs as nat) + "\n"@
}

fn append(out: &mut String, piece: &str)
    ensures
        final(out)@ == old(out)@ + piece@,
{
    out.append(piece);
}

/// The metrics in the Prometheus text format: the counters, the latency
/// percentiles in milliseconds and the uptime.
pub fn prometheus_export(snap: &MetricsSnapshot, uptime_secs: u64) -> (r: String)
    ensures
        r@ == prometheus_text(*snap, uptime_secs),
{
    let mut out = text::owned("# HELP fuse_requests_total Total inference requests\n");
    append(&mut out, "# TYPE fuse_requests_total counter\n");
    append(&mut out, "fuse_requests_total ");
    append(&mut out, text::u64_to_decimal(snap.total_requests).as_str());
    append(&mut out, "\n");
    append(&mut out, "# HELP fuse_tokens_total Total tokens generated\n");
    append(&mut out, "# TYPE fuse_tokens_total counter\n");
    append(&mut out, "fuse_tokens_total ");
    append(&mut out, text::u64_to_decimal(snap.total_tokens).as_str());
    append(&mut out, "\n");
    append(&mut out, "# HELP fuse_errors_total Total errors\n");
    append(&mut out, "# TYPE fuse_errors_total counter\n");
    append(&mut out, "fuse_errors_total ");
    append(&mut out, text::u64_to_decimal(snap.total_errors).as_str());
    append(&mut out, "\n");
    append(&mut out, "# HELP fuse_active_requests Current active requests\n");
    append(&mut out, "# TYPE fuse_active_requests gauge\n");
    append(&mut out, "fuse_active_requests ");
    append(&mut out, text::u64_to_decimal(snap.active_requests).as_str());
    append(&mut out, "\n");
    append(&mut out, "# HELP fuse_latency_ms Request latency in milliseconds\n");
    append(&mut out, "# TYPE fuse_latency_ms summary\n");
    append(&mut out, "fuse_latency_ms{quantile=\"0.5\"} ");
    append(&mut out, millis_to_text(snap.latency_p50_ns).as_str());
    append(&mut out, "\n");
    append(&mut out, "fuse_latency_ms{quantile=\"0.95\"} ");
    append(&mut out, millis_to_text(snap.latency_p95_ns).as_str());
    append(&mut out, "\n");
    append(&mut out, "fuse_latency_ms{quantile=\"0.99\"} ");
    append(&mut out, millis_to_text(snap.latency_p99_ns).as_str());
    append(&mut out, "\n");
    append(&mut out, "# HELP fuse_uptime_seconds Server uptime\n");
    append(&mut out, "# TYPE fuse_uptime_seconds gauge\n");
    append(&mut out, "fuse_uptime_seconds ");
    append(&mut out, text::u64_to_decimal(uptime_secs).as_str());
    append(&mut out, "\n");
    out
}

} // verus!
