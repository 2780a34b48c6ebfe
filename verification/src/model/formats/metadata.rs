//! GGUF metadata: a map from string keys to values, kept in key order so that
//! iterating it gives the keys sorted as `String`'s `Ord` sorts them.
use vstd::prelude::*;
use crate::model::formats::keys::{
    compare_keys, key_lt, lemma_key_lt_asym, lemma_key_lt_total, lemma_key_lt_trans, KeyOrder,
};
use crate::model::formats::value::{GgufValue, GgufValueModel};

verus! {

/// Model of metadata: the entries in key order.
pub type MetaModel = Seq<(Seq<char>, GgufValueModel)>;

/// Keys strictly increase along the entries.
pub open spec fn sorted_keys(m: MetaModel) -> bool {
    forall|i: int, j: int| 0 <= i < j < m.len() ==> key_lt(#[trigger] m[i].0, #[trigger] m[j].0)
}

/// The value stored under `k`.
pub open spec fn meta_get(m: MetaModel, k: Seq<char>) -> Option<GgufValueModel>
    decreases m.len(),
{
    if m.len() == 0 {
        None
    } else if m.last().0 == k {
        Some(m.last().1)
    } else {
        meta_get(m.drop_last(), k)
    }
}

/// Inserting `k ↦ v` into key-ordered entries: replaces the value of an equal key,
/// otherwise places the entry before the first greater key.
pub open spec fn meta_insert(m: MetaModel, k: Seq<char>, v: GgufValueModel) -> MetaModel
    decreases m.len(),
{
    if m.len() == 0 {
        seq![(k, v)]
    } else if m[0].0 == k {
        m.update(0, (k, v))
    } else if key_lt(k, m[0].0) {
        seq![(k, v)] + m
    } else {
        seq![m[0]] + meta_insert(m.drop_first(), k, v)
    }
}

pub open spec fn entry_models(e: Seq<(String, GgufValue)>) -> MetaModel {
    Seq::new(e.len(), |i: int| (e[i].0@, e[i].1@))
}

/// Metadata key-value store.
pub struct GgufMetadata {
    entries: Vec<(String, GgufValue)>,
}

impl View for GgufMetadata {
    type V = MetaModel;

    closed spec fn view(&self) -> MetaModel {
        entry_models(self.entries@)
    }
}

pub proof fn lemma_meta_get_found(m: MetaModel, k: Seq<char>, i: int)
    requires
        sorted_keys(m),
        0 <= i < m.len(),
        m[i].0 == k,
    ensures
        meta_get(m, k) == Some(m[i].1),
    decreases m.len(),
{
    if i < m.len() - 1 {
        lemma_key_lt_asym(m[i].0, m.last().0);
        lemma_meta_get_found(m.drop_last(), k, i);
    }
}

pub proof fn lemma_meta_get_absent(m: MetaModel, k: Seq<char>)
    requires
        forall|i: int| 0 <= i < m.len() ==> #[trigger] m[i].0 != k,
    ensures
        meta_get(m, k) is None,
    decreases m.len(),
{
    if m.len() > 0 {
        lemma_meta_get_absent(m.drop_last(), k);
    }
}

/// Inserting at the position a scan finds.
pub proof fn lemma_meta_insert_at(m: MetaModel, k: Seq<char>, v: GgufValueModel, p: int)
    requires
        sorted_keys(m),
        0 <= p <= m.len(),
        forall|j: int| 0 <= j < p ==> key_lt(#[trigger] m[j].0, k),
        p == m.len() || !key_lt(m[p].0, k),
    ensures
        meta_insert(m, k, v) == if p < m.len() && m[p].0 == k {
            m.update(p, (k, v))
        } else {
            m.insert(p, (k, v))
        },
    decreases p,
{
    if m.len() == 0 {
        assert(m.insert(0, (k, v)) =~= seq![(k, v)]);
    } else if p == 0 {
        if m[0].0 == k {
        } else {
            lemma_key_lt_total(m[0].0, k);
            assert(m.insert(0, (k, v)) =~= seq![(k, v)] + m);
        }
    } else {
        lemma_key_lt_asym(m[0].0, k);
        let t = m.drop_first();
        assert forall|i: int, j: int| 0 <= i < j < t.len() implies key_lt(
            #[trigger] t[i].0,
            #[trigger] t[j].0,
        ) by {
            assert(t[i] == m[i + 1] && t[j] == m[j + 1]);
        }
        assert forall|j: int| 0 <= j < p - 1 implies key_lt(#[trigger] t[j].0, k) by {
            assert(t[j] == m[j + 1]);
        }
        lemma_meta_insert_at(t, k, v, p - 1);
        if p < m.len() && m[p].0 == k {
            assert(seq![m[0]] + t.update(p - 1, (k, v)) =~= m.update(p, (k, v)));
        } else {
            assert(seq![m[0]] + t.insert(p - 1, (k, v)) =~= m.insert(p, (k, v)));
        }
    }
}

/// Inserting a key greater than every present key appends it.
pub proof fn lemma_meta_insert_last(m: MetaModel, k: Seq<char>, v: GgufValueModel)
    requires
        sorted_keys(m),
        forall|j: int| 0 <= j < m.len() ==> key_lt(#[trigger] m[j].0, k),
    ensures
        meta_insert(m, k, v) == m.push((k, v)),
        sorted_keys(m.push((k, v))),
{
    lemma_meta_insert_at(m, k, v, m.len() as int);
    assert(m.insert(m.len() as int, (k, v)) =~= m.push((k, v)));
    let n = m.push((k, v));
    assert forall|i: int, j: int| 0 <= i < j < n.len() implies key_lt(
        #[trigger] n[i].0,
        #[trigger] n[j].0,
    ) by {
        if j < m.len() {
            assert(n[i] == m[i] && n[j] == m[j]);
        } else {
            assert(n[i] == m[i]);
        }
    }
}

/// Inserting into key-ordered entries keeps them in key order, and every entry of
/// the result is the inserted one or one that was there.
pub proof fn lemma_meta_insert_sorted(m: MetaModel, k: Seq<char>, v: GgufValueModel)
    requires
        sorted_keys(m),
    ensures
        sorted_keys(meta_insert(m, k, v)),
        forall|i: int|
            0 <= i < meta_insert(m, k, v).len() ==> #[trigger] meta_insert(m, k, v)[i] == (k, v) || m.contains(
                meta_insert(m, k, v)[i],
            ),
    decreases m.len(),
{
    let r = meta_insert(m, k, v);
    if m.len() == 0 {
    } else if m[0].0 == k {
        assert forall|i: int| 0 < i < r.len() implies m.contains(#[trigger] r[i]) by {
            assert(r[i] == m[i]);
        }
    } else if key_lt(k, m[0].0) {
        assert forall|i: int, j: int| 0 <= i < j < r.len() implies key_lt(#[trigger] r[i].0, #[trigger] r[j].0) by {
            if i == 0 {
                if j > 1 {
                    lemma_key_lt_trans(k, m[0].0, m[j - 1].0);
                }
            } else {
                assert(r[i] == m[i - 1] && r[j] == m[j - 1]);
            }
        }
        assert forall|i: int| 0 < i < r.len() implies m.contains(#[trigger] r[i]) by {
            assert(r[i] == m[i - 1]);
        }
    } else {
        lemma_key_lt_total(m[0].0, k);
        let t = m.drop_first();
        assert forall|i: int, j: int| 0 <= i < j < t.len() implies key_lt(#[trigger] t[i].0, #[trigger] t[j].0) by {
            assert(t[i] == m[i + 1] && t[j] == m[j + 1]);
        }
        lemma_meta_insert_sorted(t, k, v);
        let rest = meta_insert(t, k, v);
        assert(r == seq![m[0]] + rest);
        assert forall|i: int, j: int| 0 <= i < j < r.len() implies key_lt(#[trigger] r[i].0, #[trigger] r[j].0) by {
            assert(r[j] == rest[j - 1]);
            if i == 0 {
                if rest[j - 1] != (k, v) {
                    assert(t.contains(rest[j - 1]));
                    let l = choose|l: int| 0 <= l < t.len() && t[l] == rest[j - 1];
                    assert(t[l] == m[l + 1]);
                }
            } else {
                assert(r[i] == rest[i - 1]);
            }
        }
        assert forall|i: int| 0 <= i < r.len() implies #[trigger] r[i] == (k, v) || m.contains(r[i]) by {
            if i == 0 {
                assert(m[0] == r[0]);
            } else {
                assert(r[i] == rest[i - 1]);
                if rest[i - 1] != (k, v) {
                    assert(t.contains(rest[i - 1]));
                    let l = choose|l: int| 0 <= l < t.len() && t[l] == rest[i - 1];
                    assert(m[l + 1] == t[l]);
                }
            }
        }
    }
}

proof fn lemma_sorted_insert(m: MetaModel, k: Seq<char>, v: GgufValueModel, p: int)
    requires
        sorted_keys(m),
        0 <= p <= m.len(),
        forall|j: int| 0 <= j < p ==> key_lt(#[trigger] m[j].0, k),
        p == m.len() || (!key_lt(m[p].0, k) && m[p].0 != k),
    ensures
        sorted_keys(m.insert(p, (k, v))),
{
    if p < m.len() {
        lemma_key_lt_total(m[p].0, k);
    }
    let n = m.insert(p, (k, v));
    assert forall|i: int, j: int| 0 <= i < j < n.len() implies key_lt(
        #[trigger] n[i].0,
        #[trigger] n[j].0,
    ) by {
        if j < p {
            assert(n[i] == m[i] && n[j] == m[j]);
        } else if j == p {
            assert(n[i] == m[i]);
        } else if i < p {
            assert(n[i] == m[i] && n[j] == m[j - 1]);
            if j - 1 > p {
                lemma_key_lt_trans(k, m[p].0, m[j - 1].0);
            }
            lemma_key_lt_trans(m[i].0, k, m[j - 1].0);
        } else if i == p {
            assert(n[j] == m[j - 1]);
            if j - 1 > p {
                lemma_key_lt_trans(k, m[p].0, m[j - 1].0);
            }
        } else {
            assert(n[i] == m[i - 1] && n[j] == m[j - 1]);
        }
    }
}

impl GgufMetadata {
    #[verifier::type_invariant]
    spec fn inv(self) -> bool {
        sorted_keys(entry_models(self.entries@))
    }

    /// An empty store.
    pub fn new() -> (r: GgufMetadata)
        ensures
            r@ == Seq::<(Seq<char>, GgufValueModel)>::empty(),
    {
        let r = GgufMetadata { entries: Vec::new() };
        assert(entry_models(r.entries@) =~= Seq::<(Seq<char>, GgufValueModel)>::empty());
        r
    }

    /// Number of entries.
    pub fn len(&self) -> (r: usize)
        ensures
            r == self@.len(),
            sorted_keys(self@),
    {
        proof {
            use_type_invariant(self);
        }
        self.entries.len()
    }

    /// The key and value of the `i`-th entry in key order.
    pub fn entry(&self, i: usize) -> (r: (&String, &GgufValue))
        requires
            i < self@.len(),
        ensures
            r.0@ == self@[i as int].0,
            r.1@ == self@[i as int].1,
    {
        let e = &self.entries[i];
        (&e.0, &e.1)
    }

    /// The value stored under `key`.
    pub fn get(&self, key: &str) -> (r: Option<&GgufValue>)
        ensures
            match r {
                Some(v) => meta_get(self@, key@) == Some(v@),
                None => meta_get(self@, key@) is None,
            },
    {
        proof {
            use_type_invariant(self);
        }
        let mut i: usize = 0;
        while i < self.entries.len()
            invariant
                i <= self.entries@.len(),
                sorted_keys(self@),
                self@ == entry_models(self.entries@),
                forall|j: int| 0 <= j < i ==> #[trigger] self@[j].0 != key@,
            decreases self.entries.len() - i,
        {
            let e = &self.entries[i];
            if compare_keys(e.0.as_str(), key) == KeyOrder::Equal {
                proof {
                    lemma_meta_get_found(self@, key@, i as int);
                }
                return Some(&e.1);
            }
            i = i + 1;
        }
        proof {
            lemma_meta_get_absent(self@, key@);
        }
        None
    }

    /// Stores `value` under `key`, replacing an earlier value of that key.
    pub fn insert(&mut self, key: String, value: GgufValue)
        ensures
            final(self)@ == meta_insert(old(self)@, key@, value@),
    {
        proof {
            use_type_invariant(&*self);
        }
        let ghost m = self@;
        let mut p: usize = 0;
        let mut found = false;
        while p < self.entries.len()
            invariant_except_break
                !found,
            invariant
                p <= self.entries@.len(),
                m == entry_models(self.entries@),
                sorted_keys(m),
                forall|j: int| 0 <= j < p ==> key_lt(#[trigger] m[j].0, key@),
            ensures
                p <= m.len(),
                forall|j: int| 0 <= j < p ==> key_lt(#[trigger] m[j].0, key@),
                found ==> p < m.len() && m[p as int].0 == key@,
                !found ==> p == m.len() || key_lt(key@, m[p as int].0),
            decreases self.entries.len() - p,
        {
            match compare_keys(self.entries[p].0.as_str(), key.as_str()) {
                KeyOrder::Less => {},
                KeyOrder::Equal => {
                    found = true;
                    break;
                },
                KeyOrder::Greater => {
                    proof {
                        lemma_key_lt_asym(key@, m[p as int].0);
                    }
                    break;
                },
            }
            p = p + 1;
        }
        proof {
            if found {
                crate::model::formats::keys::lemma_bytes_lt_irrefl(
                    vstd::utf8::encode_utf8(key@),
                );
            } else if p < m.len() {
                lemma_key_lt_asym(key@, m[p as int].0);
            }
            lemma_meta_insert_at(m, key@, value@, p as int);
        }
        if found {
            proof {
                assert(entry_models(self.entries@.update(p as int, (key, value))) =~= m.update(
                    p as int,
                    (key@, value@),
                ));
                assert forall|i: int, j: int| 0 <= i < j < m.len() implies key_lt(
                    #[trigger] m.update(p as int, (key@, value@))[i].0,
                    #[trigger] m.update(p as int, (key@, value@))[j].0,
                ) by {
                    assert(m[i].0 == m.update(p as int, (key@, value@))[i].0);
                    assert(m[j].0 == m.update(p as int, (key@, value@))[j].0);
                }
            }
            let mut e: Vec<(String, GgufValue)> = Vec::new();
            std::mem::swap(&mut e, &mut self.entries);
            e.set(p, (key, value));
            self.entries = e;
        } else {
            proof {
                lemma_sorted_insert(m, key@, value@, p as int);
                assert(entry_models(self.entries@.insert(p as int, (key, value))) =~= m.insert(
                    p as int,
                    (key@, value@),
                ));
            }
            let mut e: Vec<(String, GgufValue)> = Vec::new();
            std::mem::swap(&mut e, &mut self.entries);
            e.insert(p, (key, value));
            self.entries = e;
        }
    }
}

} // verus!
