//! Ordering of string keys as `String`'s `Ord` orders them: lexicographically by
//! their UTF-8 bytes.
use vstd::prelude::*;
use vstd::utf8::{decode_utf8, encode_utf8};

verus! {

/// `i` is where `a` first differs from `b` and there `a` is smaller: either `a`
/// ends at `i` and `b` goes on, or both go on and `a[i] < b[i]`.
pub open spec fn lt_at(a: Seq<u8>, b: Seq<u8>, i: int) -> bool {
    &&& 0 <= i <= a.len()
    &&& i <= b.len()
    &&& a.subrange(0, i) == b.subrange(0, i)
    &&& (i == a.len() && i < b.len()) || (i < a.len() && i < b.len() && a[i] < b[i])
}

/// Lexicographic order on byte sequences.
pub open spec fn bytes_lt(a: Seq<u8>, b: Seq<u8>) -> bool {
    exists|i: int| lt_at(a, b, i)
}

/// Order on keys: by their UTF-8 encodings.
pub open spec fn key_lt(a: Seq<char>, b: Seq<char>) -> bool {
    bytes_lt(encode_utf8(a), encode_utf8(b))
}

proof fn lemma_prefix_eq(a: Seq<u8>, b: Seq<u8>, i: int, k: int)
    requires
        0 <= k <= i <= a.len(),
        i <= b.len(),
        a.subrange(0, i) == b.subrange(0, i),
    ensures
        a.subrange(0, k) == b.subrange(0, k),
        forall|j: int| 0 <= j < i ==> a[j] == b[j],
{
    let sa = a.subrange(0, i);
    let sb = b.subrange(0, i);
    assert forall|j: int| 0 <= j < i implies a[j] == b[j] by {
        assert(sa[j] == a[j]);
        assert(sb[j] == b[j]);
        assert(sa[j] == sb[j]);
    }
    assert(a.subrange(0, k) =~= b.subrange(0, k));
}

pub proof fn lemma_bytes_lt_irrefl(a: Seq<u8>)
    ensures
        !bytes_lt(a, a),
{
}

pub proof fn lemma_bytes_lt_asym(a: Seq<u8>, b: Seq<u8>)
    requires
        bytes_lt(a, b),
    ensures
        !bytes_lt(b, a),
{
    let i = choose|i: int| lt_at(a, b, i);
    if bytes_lt(b, a) {
        let j = choose|j: int| lt_at(b, a, j);
        lemma_prefix_eq(a, b, i, i);
        lemma_prefix_eq(b, a, j, j);
        if i < j {
            assert(a[i] == b[i]);
        } else if j < i {
            assert(a[j] == b[j]);
        }
    }
}

pub proof fn lemma_bytes_lt_trans(a: Seq<u8>, b: Seq<u8>, c: Seq<u8>)
    requires
        bytes_lt(a, b),
        bytes_lt(b, c),
    ensures
        bytes_lt(a, c),
{
    let i = choose|i: int| lt_at(a, b, i);
    let j = choose|j: int| lt_at(b, c, j);
    lemma_prefix_eq(a, b, i, i);
    lemma_prefix_eq(b, c, j, j);
    let k = if i < j {
        i
    } else {
        j
    };
    assert(a.subrange(0, k) =~= c.subrange(0, k));
    assert(lt_at(a, c, k));
}

pub proof fn lemma_bytes_lt_total(a: Seq<u8>, b: Seq<u8>)
    requires
        a != b,
    ensures
        bytes_lt(a, b) || bytes_lt(b, a),
{
    let n = if a.len() < b.len() {
        a.len() as int
    } else {
        b.len() as int
    };
    if forall|j: int| 0 <= j < n ==> a[j] == b[j] {
        assert(a.subrange(0, n) =~= b.subrange(0, n));
        if a.len() < b.len() {
            assert(lt_at(a, b, n));
        } else if b.len() < a.len() {
            assert(lt_at(b, a, n));
        } else {
            assert(a =~= b);
        }
    } else {
        let j = choose|j: int| 0 <= j < n && a[j] != b[j];
        lemma_first_diff(a, b, n, j);
    }
}

proof fn lemma_first_diff(a: Seq<u8>, b: Seq<u8>, n: int, j: int)
    requires
        0 <= j < n,
        n <= a.len(),
        n <= b.len(),
        a[j] != b[j],
    ensures
        bytes_lt(a, b) || bytes_lt(b, a),
    decreases j,
{
    if exists|m: int| 0 <= m < j && a[m] != b[m] {
        let m = choose|m: int| 0 <= m < j && a[m] != b[m];
        lemma_first_diff(a, b, n, m);
    } else {
        assert(a.subrange(0, j) =~= b.subrange(0, j));
        if a[j] < b[j] {
            assert(lt_at(a, b, j));
        } else {
            assert(b.subrange(0, j) =~= a.subrange(0, j));
            assert(lt_at(b, a, j));
        }
    }
}

/// Distinct keys have distinct encodings.
pub proof fn lemma_encode_injective(a: Seq<char>, b: Seq<char>)
    requires
        encode_utf8(a) == encode_utf8(b),
    ensures
        a == b,
{
    vstd::utf8::encode_utf8_decode_utf8(a);
    vstd::utf8::encode_utf8_decode_utf8(b);
}

pub proof fn lemma_key_lt_total(a: Seq<char>, b: Seq<char>)
    requires
        a != b,
    ensures
        key_lt(a, b) || key_lt(b, a),
{
    if encode_utf8(a) == encode_utf8(b) {
        lemma_encode_injective(a, b);
    }
    lemma_bytes_lt_total(encode_utf8(a), encode_utf8(b));
}

pub proof fn lemma_key_lt_trans(a: Seq<char>, b: Seq<char>, c: Seq<char>)
    requires
        key_lt(a, b),
        key_lt(b, c),
    ensures
        key_lt(a, c),
{
    lemma_bytes_lt_trans(encode_utf8(a), encode_utf8(b), encode_utf8(c));
}

pub proof fn lemma_key_lt_asym(a: Seq<char>, b: Seq<char>)
    requires
        key_lt(a, b),
    ensures
        !key_lt(b, a),
        a != b,
{
    lemma_bytes_lt_asym(encode_utf8(a), encode_utf8(b));
}

/// Result of comparing two keys.
#[derive(Debug, Clone, Copy, PartialEq, Eq, Structural)]
pub enum KeyOrder {
    Less,
    Equal,
    Greater,
}

/// Compares two byte strings lexicographically.
pub fn compare_bytes(a: &[u8], b: &[u8]) -> (r: KeyOrder)
    ensures
        r == KeyOrder::Less <==> bytes_lt(a@, b@),
        r == KeyOrder::Equal <==> a@ == b@,
        r == KeyOrder::Greater <==> bytes_lt(b@, a@),
{
    let n = if a.len() < b.len() {
        a.len()
    } else {
        b.len()
    };
    let mut i: usize = 0;
    while i < n
        invariant
            i <= n,
            n <= a.len(),
            n <= b.len(),
            n == a.len() || n == b.len(),
            a@.subrange(0, i as int) == b@.subrange(0, i as int),
        decreases n - i,
    {
        if a[i] != b[i] {
            if a[i] < b[i] {
                assert(lt_at(a@, b@, i as int));
                proof {
                    lemma_bytes_lt_asym(a@, b@);
                }
                return KeyOrder::Less;
            } else {
                assert(b@.subrange(0, i as int) == a@.subrange(0, i as int));
                assert(lt_at(b@, a@, i as int));
                proof {
                    lemma_bytes_lt_asym(b@, a@);
                }
                return KeyOrder::Greater;
            }
        }
        assert(a@.subrange(0, i + 1) =~= a@.subrange(0, i as int).push(a@[i as int]));
        assert(b@.subrange(0, i + 1) =~= b@.subrange(0, i as int).push(b@[i as int]));
        i = i + 1;
    }
    if a.len() < b.len() {
        assert(lt_at(a@, b@, n as int));
        proof {
            lemma_bytes_lt_asym(a@, b@);
        }
        KeyOrder::Less
    } else if b.len() < a.len() {
        assert(b@.subrange(0, n as int) == a@.subrange(0, n as int));
        assert(lt_at(b@, a@, n as int));
        proof {
            lemma_bytes_lt_asym(b@, a@);
        }
        KeyOrder::Greater
    } else {
        assert(a@ =~= b@) by {
            assert(a@ =~= a@.subrange(0, n as int));
            assert(b@ =~= b@.subrange(0, n as int));
        }
        proof {
            lemma_bytes_lt_irrefl(a@);
        }
        KeyOrder::Equal
    }
}

/// Compares two keys as `String`'s `Ord` does.
pub fn compare_keys(a: &str, b: &str) -> (r: KeyOrder)
    ensures
        r == KeyOrder::Less <==> key_lt(a@, b@),
        r == KeyOrder::Equal <==> a@ == b@,
        r == KeyOrder::Greater <==> key_lt(b@, a@),
{
    let r = compare_bytes(a.as_bytes(), b.as_bytes());
    proof {
        if encode_utf8(a@) == encode_utf8(b@) {
            lemma_encode_injective(a@, b@);
        }
    }
    r
}

} // verus!
