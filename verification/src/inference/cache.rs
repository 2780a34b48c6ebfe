//! Inference response cache: entries keyed by a hash of the request, kept in
//! least-recently-used order, expiring after a time to live.
//!
//! Times are milliseconds of a monotonic clock, supplied by the caller.
use vstd::prelude::*;
use std::collections::hash_map::DefaultHasher;
use std::hash::Hasher;
use vstd::std_specs::hash::DefaultHasherAdditionalSpecFns;
use vstd::utf8::encode_utf8;
use crate::text;

verus! {

/// Configuration of the cache.
#[derive(Debug, Clone)]
pub struct CacheConfig {
    pub enabled: bool,
    pub max_entries: usize,
    pub ttl_seconds: u64,
}

impl Default for CacheConfig {
    fn default() -> (r: CacheConfig)
        ensures
            r.enabled,
            r.max_entries == 1000,
            r.ttl_seconds == 3600,
    {
        CacheConfig { enabled: true, max_entries: 1000, ttl_seconds: 3600 }
    }
}

/// A cached response.
#[derive(Debug)]
pub struct CacheEntry {
    pub key: String,
    pub value: String,
    pub created_at_ms: u64,
}

/// A cached response as the contracts see it.
pub struct EntryModel {
    pub key: Seq<char>,
    pub value: Seq<char>,
    pub created_at_ms: u64,
}

pub open spec fn entry_model(e: CacheEntry) -> EntryModel {
    EntryModel { key: e.key@, value: e.value@, created_at_ms: e.created_at_ms }
}

pub open spec fn entry_models(v: Seq<CacheEntry>) -> Seq<EntryModel> {
    Seq::new(v.len(), |i: int| entry_model(v[i]))
}

/// No two entries share a key.
pub open spec fn unique_keys(s: Seq<EntryModel>) -> bool {
    forall|i: int, j: int| 0 <= i < s.len() && 0 <= j < s.len() && i != j ==> #[trigger] s[i].key
        != #[trigger] s[j].key
}

/// Where the entry of a key is.
pub open spec fn find(s: Seq<EntryModel>, k: Seq<char>) -> Option<int> {
    if exists|i: int| 0 <= i < s.len() && #[trigger] s[i].key == k {
        Some(choose|i: int| 0 <= i < s.len() && #[trigger] s[i].key == k)
    } else {
        None
    }
}

/// An entry has expired once more than its time to live has passed since it was
/// stored.
pub open spec fn expired(e: EntryModel, now_ms: u64, ttl_seconds: u64) -> bool {
    now_ms > e.created_at_ms && now_ms - e.created_at_ms > ttl_seconds * 1000
}

/// Adding `k` to a 64-bit counter, wrapping around.
pub open spec fn wrap_add(a: u64, k: nat) -> u64 {
    ((a + k) % 0x1_0000_0000_0000_0000) as u64
}

/// How many entries storing one more evicts: enough to leave room for it.
pub open spec fn evicted_count(len: nat, max: nat) -> nat {
    if len >= max {
        (len - max + 1) as nat
    } else {
        0
    }
}

/// Everything the cache holds: entries from most to least recently used, its
/// configuration and its counters.
pub struct CacheModel {
    pub entries: Seq<EntryModel>,
    pub enabled: bool,
    pub max_entries: nat,
    pub ttl_seconds: u64,
    pub hits: u64,
    pub misses: u64,
    pub evictions: u64,
}

/// The inference response cache.
#[derive(Debug)]
pub struct InferenceCache {
    entries: Vec<CacheEntry>,
    config: CacheConfig,
    hits: u64,
    misses: u64,
    evictions: u64,
}

impl View for InferenceCache {
    type V = CacheModel;

    closed spec fn view(&self) -> CacheModel {
        CacheModel {
            entries: entry_models(self.entries@),
            enabled: self.config.enabled,
            max_entries: self.config.max_entries as nat,
            ttl_seconds: self.config.ttl_seconds,
            hits: self.hits,
            misses: self.misses,
            evictions: self.evictions,
        }
    }
}

proof fn lemma_find_unique(s: Seq<EntryModel>, i: int, k: Seq<char>)
    requires
        unique_keys(s),
        0 <= i < s.len(),
        s[i].key == k,
    ensures
        find(s, k) == Some(i),
{
}

proof fn lemma_wrap_step(a: u64, k: nat)
    ensures
        wrap_add(a, k) + 1 > u64::MAX ==> wrap_add(a, k + 1) == 0,
        wrap_add(a, k) + 1 <= u64::MAX ==> wrap_add(a, k + 1) == wrap_add(a, k) + 1,
{
    let m: int = 0x1_0000_0000_0000_0000;
    let x: int = a + k;
    assert(x % m + 1 == m ==> (x + 1) % m == 0) by (nonlinear_arith)
        requires m == 0x1_0000_0000_0000_0000, x >= 0;
    assert(x % m + 1 < m ==> (x + 1) % m == x % m + 1) by (nonlinear_arith)
        requires m == 0x1_0000_0000_0000_0000, x >= 0;
}

proof fn lemma_remove_unique(s: Seq<EntryModel>, i: int)
    requires
        unique_keys(s),
        0 <= i < s.len(),
    ensures
        unique_keys(s.remove(i)),
{
    let n = s.remove(i);
    assert forall|a: int, b: int|
        0 <= a < n.len() && 0 <= b < n.len() && a != b implies #[trigger] n[a].key
        != #[trigger] n[b].key by {
        let x = if a < i { a } else { a + 1 };
        let y = if b < i { b } else { b + 1 };
        assert(n[a] == s[x] && n[b] == s[y]);
    }
}

proof fn lemma_front_unique(s: Seq<EntryModel>, e: EntryModel)
    requires
        unique_keys(s),
        forall|j: int| 0 <= j < s.len() ==> #[trigger] s[j].key != e.key,
    ensures
        unique_keys(seq![e] + s),
{
    let n = seq![e] + s;
    assert forall|a: int, b: int|
        0 <= a < n.len() && 0 <= b < n.len() && a != b implies #[trigger] n[a].key
        != #[trigger] n[b].key by {
        if a > 0 && b > 0 {
            assert(n[a] == s[a - 1] && n[b] == s[b - 1]);
        } else if a == 0 {
            assert(n[b] == s[b - 1]);
        } else {
            assert(n[a] == s[a - 1]);
        }
    }
}

/// `s` without the entry of key `k`.
pub open spec fn without_key(s: Seq<EntryModel>, k: Seq<char>) -> Seq<EntryModel> {
    s.filter(|e: EntryModel| e.key != k)
}

proof fn lemma_without_key_absent(s: Seq<EntryModel>, k: Seq<char>)
    requires
        forall|j: int| 0 <= j < s.len() ==> #[trigger] s[j].key != k,
    ensures
        without_key(s, k) == s,
    decreases s.len(),
{
    reveal_with_fuel(Seq::filter, 1);
    if s.len() > 0 {
        lemma_without_key_absent(s.drop_last(), k);
        assert(s.drop_last().push(s.last()) =~= s);
    } else {
        assert(without_key(s, k) =~= s);
    }
}

proof fn lemma_without_key_at(s: Seq<EntryModel>, k: Seq<char>, i: int)
    requires
        unique_keys(s),
        0 <= i < s.len(),
        s[i].key == k,
    ensures
        without_key(s, k) == s.remove(i),
    decreases s.len(),
{
    reveal_with_fuel(Seq::filter, 1);
    if i == s.len() - 1 {
        assert forall|j: int| 0 <= j < s.drop_last().len() implies #[trigger] s.drop_last()[j].key
            != k by {
            assert(s.drop_last()[j] == s[j]);
        }
        lemma_without_key_absent(s.drop_last(), k);
        assert(s.remove(i) =~= s.drop_last());
    } else {
        assert(unique_keys(s.drop_last())) by {
            assert forall|a: int, b: int|
                0 <= a < s.drop_last().len() && 0 <= b < s.drop_last().len() && a != b implies #[trigger] s.drop_last()[a].key
                != #[trigger] s.drop_last()[b].key by {
                assert(s.drop_last()[a] == s[a] && s.drop_last()[b] == s[b]);
            }
        }
        assert(s.drop_last()[i] == s[i]);
        lemma_without_key_at(s.drop_last(), k, i);
        assert(s.last().key != k);
        assert(s.remove(i) =~= s.drop_last().remove(i).push(s.last()));
    }
}

impl InferenceCache {
    #[verifier::type_invariant]
    spec fn inv(self) -> bool {
        unique_keys(entry_models(self.entries@))
    }

    /// An empty cache with the given configuration.
    pub fn new(config: CacheConfig) -> (r: InferenceCache)
        ensures
            r@.entries == Seq::<EntryModel>::empty(),
            r@.enabled == config.enabled,
            r@.max_entries == config.max_entries,
            r@.ttl_seconds == config.ttl_seconds,
            r@.hits == 0 && r@.misses == 0 && r@.evictions == 0,
    {
        let r = InferenceCache { entries: Vec::new(), config, hits: 0, misses: 0, evictions: 0 };
        assert(entry_models(r.entries@) =~= Seq::<EntryModel>::empty());
        r
    }

    /// The entries' keys are unique.
    pub fn keys_unique(&self) -> (r: bool)
        ensures
            r,
            unique_keys(self@.entries),
    {
        proof {
            use_type_invariant(self);
        }
        true
    }

    fn index_of(&self, key: &str) -> (r: Option<usize>)
        ensures
            unique_keys(self@.entries),
            match r {
                Some(i) => i < self@.entries.len() && self@.entries[i as int].key == key@ && find(
                    self@.entries,
                    key@,
                ) == Some(i as int),
                None => find(self@.entries, key@) is None && forall|j: int|
                    0 <= j < self@.entries.len() ==> #[trigger] self@.entries[j].key != key@,
            },
    {
        proof {
            use_type_invariant(self);
        }
        let ghost s = self@.entries;
        let mut i: usize = 0;
        while i < self.entries.len()
            invariant
                i <= self.entries@.len(),
                s == entry_models(self.entries@),
                unique_keys(s),
                forall|j: int| 0 <= j < i ==> #[trigger] s[j].key != key@,
            decreases self.entries.len() - i,
        {
            if text::str_eq(self.entries[i].key.as_str(), key) {
                proof {
                    lemma_find_unique(s, i as int, key@);
                }
                return Some(i);
            }
            i = i + 1;
        }
        None
    }

    /// The cached response of a key. A disabled cache answers nothing and counts
    /// nothing. A live entry is a hit and becomes the most recently used; an expired
    /// one is removed and, like a missing one, counts as a miss.
    pub fn get(&mut self, key: &str, now_ms: u64) -> (r: Option<String>)
        ensures
            final(self)@.enabled == old(self)@.enabled,
            final(self)@.max_entries == old(self)@.max_entries,
            final(self)@.ttl_seconds == old(self)@.ttl_seconds,
            final(self)@.evictions == old(self)@.evictions,
            !old(self)@.enabled ==> r is None && final(self)@ == old(self)@,
            old(self)@.enabled ==> match find(old(self)@.entries, key@) {
                None => r is None && final(self)@.entries == old(self)@.entries && final(self)@.hits
                    == old(self)@.hits && final(self)@.misses == wrap_add(old(self)@.misses, 1),
                Some(i) => if expired(old(self)@.entries[i], now_ms, old(self)@.ttl_seconds) {
                    r is None && final(self)@.entries == old(self)@.entries.remove(i)
                        && final(self)@.hits == old(self)@.hits && final(self)@.misses == wrap_add(
                        old(self)@.misses,
                        1,
                    )
                } else {
                    r matches Some(v) && v@ == old(self)@.entries[i].value && final(self)@.entries
                        == seq![old(self)@.entries[i]] + old(self)@.entries.remove(i)
                        && final(self)@.hits == wrap_add(old(self)@.hits, 1) && final(self)@.misses
                        == old(self)@.misses
                },
            },
    {
        proof {
            use_type_invariant(&*self);
        }
        if !self.config.enabled {
            return None;
        }
        let ghost s = self@.entries;
        match self.index_of(key) {
            None => {
                self.misses = self.misses.wrapping_add(1);
                None
            },
            Some(i) => {
                let created = self.entries[i].created_at_ms;
                if is_expired(created, now_ms, self.config.ttl_seconds) {
                    let mut v: Vec<CacheEntry> = Vec::new();
                    std::mem::swap(&mut v, &mut self.entries);
                    let _old = v.remove(i);
                    proof {
                        lemma_remove_unique(s, i as int);
                        assert(entry_models(v@) =~= s.remove(i as int));
                    }
                    self.entries = v;
                    self.misses = self.misses.wrapping_add(1);
                    None
                } else {
                    let mut v: Vec<CacheEntry> = Vec::new();
                    std::mem::swap(&mut v, &mut self.entries);
                    let e = v.remove(i);
                    let value = text::owned(e.value.as_str());
                    let ghost rest = s.remove(i as int);
                    proof {
                        lemma_remove_unique(s, i as int);
                        assert(entry_models(v@) =~= rest);
                        assert forall|j: int| 0 <= j < rest.len() implies #[trigger] rest[j].key
                            != s[i as int].key by {
                            let x = if j < i { j } else { j + 1 };
                            assert(rest[j] == s[x]);
                        }
                        lemma_front_unique(rest, s[i as int]);
                    }
                    v.insert(0, e);
                    assert(entry_models(v@) =~= seq![s[i as int]] + rest);
                    self.entries = v;
                    self.hits = self.hits.wrapping_add(1);
                    Some(value)
                }
            },
        }
    }

    /// Stores a response as the most recently used entry, replacing one of the same
    /// key. When the cache is full, least recently used entries are evicted first,
    /// until there is room. A disabled cache stores nothing.
    pub fn set(&mut self, key: String, value: String, now_ms: u64)
        requires
            old(self)@.enabled ==> old(self)@.max_entries > 0,
        ensures
            final(self)@.enabled == old(self)@.enabled,
            final(self)@.max_entries == old(self)@.max_entries,
            final(self)@.ttl_seconds == old(self)@.ttl_seconds,
            final(self)@.hits == old(self)@.hits,
            final(self)@.misses == old(self)@.misses,
            !old(self)@.enabled ==> final(self)@ == old(self)@,
            old(self)@.enabled ==> ({
                let n = old(self)@.entries.len();
                let ev = evicted_count(n, old(self)@.max_entries);
                &&& final(self)@.entries == seq![
                    EntryModel { key: key@, value: value@, created_at_ms: now_ms },
                ] + without_key(old(self)@.entries.take(n - ev), key@)
                &&& final(self)@.evictions == wrap_add(old(self)@.evictions, ev)
            }),
    {
        proof {
            use_type_invariant(&*self);
        }
        if !self.config.enabled {
            return;
        }
        let ghost s = self@.entries;
        let ghost n = s.len();
        let ghost ev0 = self.evictions;
        let max = self.config.max_entries;
        let mut v: Vec<CacheEntry> = Vec::new();
        std::mem::swap(&mut v, &mut self.entries);
        while v.len() >= max
            invariant
                max > 0,
                n == s.len(),
                v@.len() == n || (n >= max && v@.len() >= max - 1),
                v@.len() <= s.len(),
                entry_models(v@) == s.take(v@.len() as int),
                self.evictions == wrap_add(ev0, (s.len() - v@.len()) as nat),
                unique_keys(s),
                self.config.max_entries == max,
                self.entries@ == Seq::<CacheEntry>::empty(),
                self.config.enabled == old(self).config.enabled,
                self.config.ttl_seconds == old(self).config.ttl_seconds,
                self.hits == old(self).hits,
                self.misses == old(self).misses,
            decreases v.len(),
        {
            let ghost k = v@.len();
            let _evicted = v.pop();
            assert(entry_models(v@) =~= s.take(v@.len() as int));
            proof {
                lemma_wrap_step(ev0, (s.len() - k) as nat);
            }
            self.evictions = self.evictions.wrapping_add(1);
        }
        let ghost kept = s.take(v@.len() as int);
        assert(v@.len() == n - evicted_count(n, max as nat));
        proof {
            assert forall|a: int, b: int|
                0 <= a < kept.len() && 0 <= b < kept.len() && a != b implies #[trigger] kept[a].key
                != #[trigger] kept[b].key by {
                assert(kept[a] == s[a] && kept[b] == s[b]);
            }
        }
        let mut w: Vec<CacheEntry> = v;
        let ghost before = entry_models(w@);
        assert(before == kept);
        let found = key_position(&w, key.as_str());
        let ghost rest: Seq<EntryModel>;
        match found {
            Some(j) => {
                let _replaced = w.remove(j);
                proof {
                    lemma_without_key_at(kept, key@, j as int);
                    lemma_remove_unique(kept, j as int);
                    rest = kept.remove(j as int);
                    assert forall|x: int| 0 <= x < rest.len() implies #[trigger] rest[x].key
                        != key@ by {
                        let y = if x < j { x } else { x + 1 };
                        assert(rest[x] == kept[y]);
                    }
                }
                assert(entry_models(w@) =~= rest);
            },
            None => {
                proof {
                    lemma_without_key_absent(kept, key@);
                    rest = kept;
                }
            },
        }
        let ghost e = EntryModel { key: key@, value: value@, created_at_ms: now_ms };
        proof {
            lemma_front_unique(rest, e);
        }
        w.insert(0, CacheEntry { key, value, created_at_ms: now_ms });
        assert(entry_models(w@) =~= seq![e] + rest);
        self.entries = w;
    }
}

/// What hashing a string feeds a hasher (`Hash for str`): its UTF-8 bytes, then the
/// byte 0xFF that keeps the encoding prefix-free.
pub open spec fn str_writes(s: Seq<char>) -> Seq<Seq<u8>> {
    seq![encode_utf8(s), seq![0xffu8]]
}

/// Feeds a string to a hasher as `Hash for str` does.
fn hash_str(s: &str, h: &mut DefaultHasher)
    ensures
        final(h)@ == old(h)@ + str_writes(s@),
{
    h.write(s.as_bytes());
    let end: [u8; 1] = [0xffu8];
    h.write(&end);
    assert(end@ =~= seq![0xffu8]);
    assert(old(h)@.push(encode_utf8(s@)).push(seq![0xffu8]) =~= old(h)@ + str_writes(s@));
}

/// What a chat key hashes: the model, then each message's role and content.
pub open spec fn chat_writes(model: Seq<char>, messages: Seq<(String, String)>) -> Seq<Seq<u8>>
    decreases messages.len(),
{
    if messages.len() == 0 {
        str_writes(model)
    } else {
        chat_writes(model, messages.drop_last()) + str_writes(messages.last().0@) + str_writes(
            messages.last().1@,
        )
    }
}

impl InferenceCache {
    /// The cache key of a prompt to a model: the 16 hex digits of the hash of the
    /// model name and the prompt.
    pub fn generate_key(model: &str, prompt: &str) -> (r: String)
        ensures
            r@ == text::hex_padded(
                DefaultHasher::spec_finish(str_writes(model@) + str_writes(prompt@)) as nat,
                16,
            ),
    {
        let mut h = DefaultHasher::new();
        hash_str(model, &mut h);
        hash_str(prompt, &mut h);
        assert(h@ =~= str_writes(model@) + str_writes(prompt@));
        text::u64_to_hex_padded(h.finish(), 16)
    }

    /// The cache key of a conversation with a model: the 16 hex digits of the hash of
    /// the model name and each message's role and content.
    pub fn generate_chat_key(model: &str, messages: &[(String, String)]) -> (r: String)
        ensures
            r@ == text::hex_padded(DefaultHasher::spec_finish(chat_writes(model@, messages@)) as nat, 16),
    {
        let mut h = DefaultHasher::new();
        hash_str(model, &mut h);
        assert(h@ =~= chat_writes(model@, messages@.take(0)));
        let mut i: usize = 0;
        while i < messages.len()
            invariant
                i <= messages@.len(),
                h@ == chat_writes(model@, messages@.take(i as int)),
            decreases messages.len() - i,
        {
            hash_str(messages[i].0.as_str(), &mut h);
            hash_str(messages[i].1.as_str(), &mut h);
            assert(messages@.take(i + 1).drop_last() =~= messages@.take(i as int));
            i = i + 1;
        }
        assert(messages@.take(messages@.len() as int) =~= messages@);
        text::u64_to_hex_padded(h.finish(), 16)
    }

    /// Whether a live entry of the key is cached; a disabled cache holds none.
    pub fn contains(&self, key: &str, now_ms: u64) -> (r: bool)
        ensures
            r == (self@.enabled && match find(self@.entries, key@) {
                Some(i) => !expired(self@.entries[i], now_ms, self@.ttl_seconds),
                None => false,
            }),
    {
        if !self.config.enabled {
            return false;
        }
        match self.index_of(key) {
            Some(i) => !is_expired(self.entries[i].created_at_ms, now_ms, self.config.ttl_seconds),
            None => false,
        }
    }

    /// Empties the cache and resets the hit and miss counts; evictions keep counting.
    pub fn clear(&mut self)
        ensures
            final(self)@ == (CacheModel {
                entries: Seq::empty(),
                hits: 0,
                misses: 0,
                ..old(self)@
            }),
    {
        self.entries = Vec::new();
        assert(entry_models(self.entries@) =~= Seq::<EntryModel>::empty());
        self.hits = 0;
        self.misses = 0;
    }

    /// Removes the expired entries, keeping the others in order.
    pub fn cleanup_expired(&mut self, now_ms: u64)
        ensures
            final(self)@ == (CacheModel {
                entries: old(self)@.entries.filter(
                    |e: EntryModel| !expired(e, now_ms, old(self)@.ttl_seconds),
                ),
                ..old(self)@
            }),
    {
        proof {
            use_type_invariant(&*self);
        }
        let ghost s = self@.entries;
        let ttl = self.config.ttl_seconds;
        let ghost pred = |e: EntryModel| !expired(e, now_ms, ttl);
        let mut v: Vec<CacheEntry> = Vec::new();
        std::mem::swap(&mut v, &mut self.entries);
        let mut kept: Vec<CacheEntry> = Vec::new();
        for e in it: v
            invariant
                it.seq() == v@,
                entry_models(v@) == s,
                unique_keys(s),
                pred == (|e: EntryModel| !expired(e, now_ms, ttl)),
                entry_models(kept@) == s.take(it.index() as int).filter(pred),
                unique_keys(entry_models(kept@)),
                forall|a: int, j: int|
                    0 <= a < kept@.len() && it.index() <= j < s.len() ==> #[trigger] entry_models(
                        kept@,
                    )[a].key != #[trigger] s[j].key,
        {
            let ghost k = it.index() as int;
            assert(s.take(k + 1).drop_last() =~= s.take(k));
            proof {
                reveal_with_fuel(Seq::filter, 1);
            }
            if !is_expired(e.created_at_ms, now_ms, ttl) {
                let ghost before = entry_models(kept@);
                let ghost em = entry_model(e);
                assert(em == s[k]);
                proof {
                    assert forall|a: int| 0 <= a < before.len() implies #[trigger] before[a].key
                        != em.key by {
                        assert(before[a].key != s[k].key);
                    }
                    let n = before.push(em);
                    assert forall|a: int, b: int|
                        0 <= a < n.len() && 0 <= b < n.len() && a != b implies #[trigger] n[a].key
                        != #[trigger] n[b].key by {
                        if a < before.len() && b < before.len() {
                            assert(n[a] == before[a] && n[b] == before[b]);
                        } else if a == before.len() {
                            assert(n[b] == before[b]);
                        } else {
                            assert(n[a] == before[a]);
                        }
                    }
                }
                kept.push(e);
                assert(entry_models(kept@) =~= before.push(em));
                assert forall|a: int, j: int|
                    0 <= a < kept@.len() && k + 1 <= j < s.len() implies #[trigger] entry_models(
                        kept@,
                    )[a].key != #[trigger] s[j].key by {
                    if a < before.len() {
                        assert(entry_models(kept@)[a] == before[a]);
                    } else {
                        assert(entry_models(kept@)[a] == s[k]);
                    }
                }
            }
        }
        assert(s.take(s.len() as int) =~= s);
        self.entries = kept;
    }

    /// Hits counted since the last clear.
    pub fn hits(&self) -> (r: u64)
        ensures
            r == self@.hits,
    {
        self.hits
    }

    /// Misses counted since the last clear.
    pub fn misses(&self) -> (r: u64)
        ensures
            r == self@.misses,
    {
        self.misses
    }

    /// Entries evicted to make room.
    pub fn evictions(&self) -> (r: u64)
        ensures
            r == self@.evictions,
    {
        self.evictions
    }

    /// Entries held.
    pub fn entry_count(&self) -> (r: usize)
        ensures
            r == self@.entries.len(),
    {
        self.entries.len()
    }
}

impl Default for InferenceCache {
    fn default() -> (r: InferenceCache)
        ensures
            r@.entries == Seq::<EntryModel>::empty(),
            r@.enabled,
            r@.max_entries == 1000,
            r@.ttl_seconds == 3600,
    {
        InferenceCache::new(CacheConfig::default())
    }
}

/// Where the entry of `key` is in `v`.
fn key_position(v: &Vec<CacheEntry>, key: &str) -> (r: Option<usize>)
    ensures
        match r {
            Some(i) => i < v@.len() && v@[i as int].key@ == key@,
            None => forall|j: int| 0 <= j < v@.len() ==> #[trigger] entry_models(v@)[j].key != key@,
        },
{
    let mut i: usize = 0;
    while i < v.len()
        invariant
            i <= v@.len(),
            forall|j: int| 0 <= j < i ==> #[trigger] entry_models(v@)[j].key != key@,
        decreases v.len() - i,
    {
        if text::str_eq(v[i].key.as_str(), key) {
            return Some(i);
        }
        i = i + 1;
    }
    None
}

/// Whether an entry stored at `created_ms` has expired at `now_ms`.
fn is_expired(created_ms: u64, now_ms: u64, ttl_seconds: u64) -> (r: bool)
    ensures
        r == (now_ms > created_ms && now_ms - created_ms > ttl_seconds * 1000),
{
    if now_ms <= created_ms {
        return false;
    }
    let elapsed: u128 = (now_ms - created_ms) as u128;
    let ttl_ms: u128 = (ttl_seconds as u128) * 1000;
    elapsed > ttl_ms
}

/// A response just stored is what the next lookup of its key finds, as the most
/// recently used entry: storing `value` under `key` at `stored_ms` and looking the key
/// up at `now_ms`, no later than the time to live, gives `value` back.
pub proof fn lemma_set_then_get(
    entries: Seq<EntryModel>,
    max_entries: nat,
    key: Seq<char>,
    value: Seq<char>,
    stored_ms: u64,
    now_ms: u64,
    ttl_seconds: u64,
)
    requires
        now_ms <= stored_ms || now_ms - stored_ms <= ttl_seconds * 1000,
    ensures
        ({
            let n = entries.len();
            let after = seq![EntryModel { key, value, created_at_ms: stored_ms }] + without_key(
                entries.take(n - evicted_count(n, max_entries)),
                key,
            );
            &&& find(after, key) == Some(0int)
            &&& after[0].value == value
            &&& !expired(after[0], now_ms, ttl_seconds)
        }),
{
    let n = entries.len();
    let rest = without_key(entries.take(n - evicted_count(n, max_entries)), key);
    let after = seq![EntryModel { key, value, created_at_ms: stored_ms }] + rest;
    assert forall|j: int| 0 <= j < after.len() && #[trigger] after[j].key == key implies j == 0 by {
        if j > 0 {
            assert(after[j] == rest[j - 1]);
            entries.take(n - evicted_count(n, max_entries)).lemma_filter_pred(
                |e: EntryModel| e.key != key,
                j - 1,
            );
        }
    }
    assert(after[0].key == key);
}

/// Storing never lets the cache grow past its capacity.
pub proof fn lemma_set_within_capacity(
    entries: Seq<EntryModel>,
    max_entries: nat,
    key: Seq<char>,
    value: Seq<char>,
    stored_ms: u64,
)
    requires
        max_entries > 0,
    ensures
        ({
            let n = entries.len();
            let after = seq![EntryModel { key, value, created_at_ms: stored_ms }] + without_key(
                entries.take(n - evicted_count(n, max_entries)),
                key,
            );
            after.len() <= max_entries
        }),
{
    let n = entries.len();
    let kept = entries.take(n - evicted_count(n, max_entries));
    kept.lemma_filter_len(|e: EntryModel| e.key != key);
}

} // verus!
