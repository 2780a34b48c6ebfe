//! Delta updates: chunks of bytes written over a base model at given offsets, each
//! checked against a hash, and the whole result checked against a target hash.
use vstd::prelude::*;
use crate::error::FuseError;
use crate::text::{self, hex_padded};

verus! {

pub const FNV_OFFSET_BASIS: u64 = 0xcbf29ce484222325;

pub const FNV_PRIME: u64 = 0x100000001b3;

/// FNV-1a over the bytes, with 64-bit wrapping multiplication.
pub open spec fn fnv1a(data: Seq<u8>) -> u64
    decreases data.len(),
{
    if data.len() == 0 {
        FNV_OFFSET_BASIS
    } else {
        (fnv1a(data.drop_last()) ^ (data.last() as u64)).wrapping_mul(FNV_PRIME)
    }
}

/// FNV-1a mixes in every byte, in order: the hash of no bytes is the offset
/// basis, and appending a byte xors it into the hash so far and multiplies by the
/// FNV prime modulo 2^64. So two byte strings with the same beginning that differ
/// in their last byte hash differently (the prime is odd, so the multiplication
/// loses nothing).
pub proof fn lemma_fnv1a_mixes_each_byte(d: Seq<u8>, b: u8, c: u8)
    ensures
        fnv1a(Seq::empty()) == 0xcbf29ce484222325u64,
        fnv1a(d.push(b)) as int == ((fnv1a(d) ^ (b as u64)) as int * 0x100000001b3int) % 0x1_0000_0000_0000_0000int,
        b != c ==> fnv1a(d.push(b)) != fnv1a(d.push(c)),
{
    assert(d.push(b).drop_last() =~= d);
    assert(d.push(c).drop_last() =~= d);
    let h = fnv1a(d);
    let x = h ^ (b as u64);
    let y = h ^ (c as u64);
    if b != c {
        assert(x != y) by (bit_vector)
            requires
                x == h ^ (b as u64),
                y == h ^ (c as u64),
                b != c,
        ;
        assert(x.wrapping_mul(0x100000001b3u64).wrapping_mul(0xce965057aff6957bu64) == x) by (bit_vector);
        assert(y.wrapping_mul(0x100000001b3u64).wrapping_mul(0xce965057aff6957bu64) == y) by (bit_vector);
    }
}

/// The hash string of some bytes: the FNV-1a value as 16 lowercase hex digits.
pub open spec fn hash_hex(data: Seq<u8>) -> Seq<char> {
    hex_padded(fnv1a(data) as nat, 16)
}

/// Model of a chunk.
pub struct ChunkModel {
    pub offset: u64,
    pub size: u64,
    pub hash: Seq<char>,
    pub data: Seq<u8>,
}

/// A chunk of delta data to apply to a base model.
#[derive(Debug, Clone)]
pub struct DeltaChunk {
    pub offset: u64,
    pub size: u64,
    /// Hex hash of the chunk data.
    pub hash: String,
    pub data: Vec<u8>,
}

impl View for DeltaChunk {
    type V = ChunkModel;

    open spec fn view(&self) -> ChunkModel {
        ChunkModel { offset: self.offset, size: self.size, hash: self.hash@, data: self.data@ }
    }
}

/// A chunk's data matches its stored hash.
pub open spec fn chunk_ok(c: ChunkModel) -> bool {
    c.hash == hash_hex(c.data)
}

impl DeltaChunk {
    pub fn new(offset: u64, data: Vec<u8>, hash: String) -> (r: DeltaChunk)
        requires
            data@.len() <= u64::MAX,
        ensures
            r@ == (ChunkModel { offset, size: data@.len() as u64, hash: hash@, data: data@ }),
    {
        let size = data.len() as u64;
        DeltaChunk { offset, size, hash, data }
    }

    /// A deterministic hash of the data: FNV-1a, as 16 lowercase hex digits.
    pub fn compute_hash(data: &[u8]) -> (r: String)
        ensures
            r@ == hash_hex(data@),
    {
        let mut h: u64 = FNV_OFFSET_BASIS;
        let mut i: usize = 0;
        while i < data.len()
            invariant
                i <= data.len(),
                h == fnv1a(data@.take(i as int)),
            decreases data.len() - i,
        {
            assert(data@.take(i + 1).drop_last() =~= data@.take(i as int));
            h = h ^ (data[i] as u64);
            h = h.wrapping_mul(FNV_PRIME);
            i = i + 1;
        }
        assert(data@.take(data@.len() as int) =~= data@);
        text::u64_to_hex_padded(h, 16)
    }

    /// Whether this chunk's data matches its stored hash.
    pub fn verify(&self) -> (r: bool)
        ensures
            r == chunk_ok(self@),
    {
        let computed = Self::compute_hash(self.data.as_slice());
        text::str_eq(computed.as_str(), self.hash.as_str())
    }
}

/// Model of a manifest.
pub struct ManifestModel {
    pub base_version: Seq<char>,
    pub target_version: Seq<char>,
    pub chunks: Seq<ChunkModel>,
    pub target_size: u64,
    pub target_hash: Seq<char>,
}

/// Manifest describing a delta update from one version to another.
#[derive(Debug, Clone)]
pub struct DeltaManifest {
    pub base_version: String,
    pub target_version: String,
    pub chunks: Vec<DeltaChunk>,
    /// Expected total size of the target after applying all chunks.
    pub target_size: u64,
    /// Hash of the complete target file.
    pub target_hash: String,
}

pub open spec fn chunk_models(s: Seq<DeltaChunk>) -> Seq<ChunkModel> {
    Seq::new(s.len(), |i: int| s[i]@)
}

impl View for DeltaManifest {
    type V = ManifestModel;

    open spec fn view(&self) -> ManifestModel {
        ManifestModel {
            base_version: self.base_version@,
            target_version: self.target_version@,
            chunks: chunk_models(self.chunks@),
            target_size: self.target_size,
            target_hash: self.target_hash@,
        }
    }
}

/// Sum of the recorded chunk sizes.
pub open spec fn total_size(cs: Seq<ChunkModel>) -> int
    decreases cs.len(),
{
    if cs.len() == 0 {
        0
    } else {
        total_size(cs.drop_last()) + cs.last().size
    }
}

/// Versions are named and every chunk matches its hash.
pub open spec fn manifest_ok(m: ManifestModel) -> bool {
    &&& m.base_version.len() > 0
    &&& m.target_version.len() > 0
    &&& forall|i: int| 0 <= i < m.chunks.len() ==> chunk_ok(#[trigger] m.chunks[i])
}

/// `data` written over `buf` at `off`.
pub open spec fn overwrite(buf: Seq<u8>, off: int, data: Seq<u8>) -> Seq<u8> {
    buf.subrange(0, off) + data + buf.subrange(off + data.len(), buf.len() as int)
}

/// The chunks written in order over `buf`; `None` where one does not fit.
pub open spec fn apply_chunks(buf: Seq<u8>, cs: Seq<ChunkModel>) -> Option<Seq<u8>>
    decreases cs.len(),
{
    if cs.len() == 0 {
        Some(buf)
    } else {
        match apply_chunks(buf, cs.drop_last()) {
            Some(b) => {
                let c = cs.last();
                if c.offset + c.data.len() <= b.len() {
                    Some(overwrite(b, c.offset as int, c.data))
                } else {
                    None
                }
            },
            None => None,
        }
    }
}

/// The base brought to exactly `n` bytes, the target size: grown with zero bytes,
/// or cut down to its first `n` bytes.
pub open spec fn padded(base: Seq<u8>, n: int) -> Seq<u8> {
    if n > base.len() {
        base + Seq::new((n - base.len()) as nat, |i: int| 0u8)
    } else {
        base.subrange(0, n)
    }
}

/// The bytes applying a manifest to a base produces, if it succeeds.
pub open spec fn spec_apply(base: Seq<u8>, m: ManifestModel) -> Option<Seq<u8>> {
    if !manifest_ok(m) {
        None
    } else {
        match apply_chunks(padded(base, m.target_size as int), m.chunks) {
            Some(r) => if hash_hex(r) == m.target_hash {
                Some(r)
            } else {
                None
            },
            None => None,
        }
    }
}

impl DeltaManifest {
    pub fn new(base_version: &str, target_version: &str, target_size: u64, target_hash: &str) -> (r:
        DeltaManifest)
        ensures
            r@ == (ManifestModel {
                base_version: base_version@,
                target_version: target_version@,
                chunks: Seq::empty(),
                target_size,
                target_hash: target_hash@,
            }),
    {
        let r = DeltaManifest {
            base_version: text::owned(base_version),
            target_version: text::owned(target_version),
            chunks: Vec::new(),
            target_size,
            target_hash: text::owned(target_hash),
        };
        assert(chunk_models(r.chunks@) =~= Seq::<ChunkModel>::empty());
        r
    }

    pub fn add_chunk(&mut self, chunk: DeltaChunk)
        ensures
            final(self)@ == (ManifestModel { chunks: old(self)@.chunks.push(chunk@), ..old(self)@ }),
    {
        self.chunks.push(chunk);
        assert(chunk_models(self.chunks@) =~= chunk_models(old(self).chunks@).push(chunk@));
    }

    /// Sum of the chunk sizes.
    pub fn total_delta_size(&self) -> (r: u64)
        requires
            total_size(self@.chunks) <= u64::MAX,
        ensures
            r == total_size(self@.chunks),
    {
        let ghost cs = self@.chunks;
        let mut acc: u64 = 0;
        let mut i: usize = 0;
        while i < self.chunks.len()
            invariant
                i <= self.chunks@.len(),
                cs == chunk_models(self.chunks@),
                acc == total_size(cs.take(i as int)),
                total_size(cs) <= u64::MAX,
            decreases self.chunks.len() - i,
        {
            assert(cs.take(i + 1).drop_last() =~= cs.take(i as int));
            proof {
                lemma_total_size_prefix(cs, i + 1);
            }
            acc = acc + self.chunks[i].size;
            i = i + 1;
        }
        assert(cs.take(cs.len() as int) =~= cs);
        acc
    }

    /// Checks that both versions are named and every chunk matches its hash.
    pub fn validate(&self) -> (r: Result<(), FuseError>)
        ensures
            r is Ok <==> manifest_ok(self@),
            match r {
                Err(e) => e is ValidationError,
                Ok(_) => true,
            },
    {
        if self.base_version.as_str().is_empty() || self.target_version.as_str().is_empty() {
            return Err(
                FuseError::ValidationError(String::from_str("Versions cannot be empty")),
            );
        }
        let mut i: usize = 0;
        while i < self.chunks.len()
            invariant
                i <= self.chunks@.len(),
                forall|k: int| 0 <= k < i ==> chunk_ok(#[trigger] self@.chunks[k]),
            decreases self.chunks.len() - i,
        {
            if !self.chunks[i].verify() {
                let msg = text::concat4(
                    "Chunk ",
                    text::u64_to_decimal(i as u64).as_str(),
                    " hash mismatch at offset ",
                    text::u64_to_decimal(self.chunks[i].offset).as_str(),
                );
                assert(!chunk_ok(self@.chunks[i as int]));
                return Err(FuseError::ValidationError(msg));
            }
            i = i + 1;
        }
        Ok(())
    }
}

proof fn lemma_total_size_prefix(cs: Seq<ChunkModel>, k: int)
    requires
        0 <= k <= cs.len(),
    ensures
        total_size(cs.take(k)) <= total_size(cs),
    decreases cs.len() - k,
{
    if k < cs.len() {
        lemma_total_size_prefix(cs, k + 1);
        assert(cs.take(k + 1).drop_last() =~= cs.take(k));
    } else {
        assert(cs.take(k) =~= cs);
    }
}

proof fn lemma_apply_chunks_none(buf: Seq<u8>, cs: Seq<ChunkModel>, k: int)
    requires
        0 <= k <= cs.len(),
        apply_chunks(buf, cs.take(k)) is None,
    ensures
        apply_chunks(buf, cs) is None,
    decreases cs.len() - k,
{
    if k < cs.len() {
        assert(cs.take(k + 1).drop_last() =~= cs.take(k));
        lemma_apply_chunks_none(buf, cs, k + 1);
    } else {
        assert(cs.take(k) =~= cs);
    }
}

/// Writing chunks over a buffer keeps its length.
proof fn lemma_apply_chunks_len(buf: Seq<u8>, cs: Seq<ChunkModel>)
    ensures
        apply_chunks(buf, cs) matches Some(r) ==> r.len() == buf.len(),
    decreases cs.len(),
{
    if cs.len() > 0 {
        lemma_apply_chunks_len(buf, cs.drop_last());
    }
}

/// Applies delta chunks to a base model byte array.
#[derive(Debug)]
pub struct DeltaApplier;

impl DeltaApplier {
    /// Applies a manifest to a base model: checks the manifest, brings the base to
    /// the target size (growing it with zeros or cutting it down), writes each
    /// chunk at its offset, and checks the result against the target hash. A
    /// result is exactly the target size. Every failure is a validation error.
    pub fn apply(base: &[u8], manifest: &DeltaManifest) -> (r: Result<Vec<u8>, FuseError>)
        requires
            manifest@.target_size <= usize::MAX,
            forall|i: int|
                0 <= i < manifest@.chunks.len() ==> (#[trigger] manifest@.chunks[i]).offset
                    + manifest@.chunks[i].data.len() <= usize::MAX,
        ensures
            match r {
                Ok(v) => spec_apply(base@, manifest@) == Some(v@) && v@.len() == manifest@.target_size,
                Err(e) => spec_apply(base@, manifest@) is None && e is ValidationError,
            },
    {
        manifest.validate()?;
        let target = manifest.target_size as usize;
        let kept = if base.len() < target {
            base.len()
        } else {
            target
        };
        let mut result: Vec<u8> = Vec::new();
        let mut i: usize = 0;
        while i < kept
            invariant
                i <= kept,
                kept <= base.len(),
                result@ == base@.take(i as int),
            decreases kept - i,
        {
            result.push(base[i]);
            assert(base@.take(i + 1) =~= base@.take(i as int).push(base@[i as int]));
            i = i + 1;
        }
        assert(base@.take(base@.len() as int) =~= base@);
        if target > result.len() {
            let ghost before = result@;
            while result.len() < target
                invariant
                    before == base@,
                    before.len() <= result@.len() <= target,
                    result@ == before + Seq::new((result@.len() - before.len()) as nat, |j: int| 0u8),
                decreases target - result.len(),
            {
                let ghost old_r = result@;
                result.push(0u8);
                assert(result@ =~= before + Seq::new(
                    (result@.len() - before.len()) as nat,
                    |j: int| 0u8,
                ));
            }
            assert(result@.len() == target);
        } else {
            assert(result@ =~= base@.subrange(0, target as int));
        }
        assert(result@ == padded(base@, manifest@.target_size as int));
        let ghost cs = manifest@.chunks;
        let ghost start = result@;
        let mut c: usize = 0;
        assert(cs.take(0) =~= Seq::<ChunkModel>::empty());
        while c < manifest.chunks.len()
            invariant
                c <= manifest.chunks@.len(),
                cs == chunk_models(manifest.chunks@),
                cs == manifest@.chunks,
                manifest_ok(manifest@),
                start == padded(base@, manifest@.target_size as int),
                apply_chunks(start, cs.take(c as int)) == Some(result@),
                forall|k: int|
                    0 <= k < cs.len() ==> (#[trigger] cs[k]).offset + cs[k].data.len() <= usize::MAX,
            decreases manifest.chunks.len() - c,
        {
            let chunk = &manifest.chunks[c];
            assert(cs.take(c + 1).drop_last() =~= cs.take(c as int));
            assert(cs.take(c + 1).last() == chunk@);
            let st = chunk.offset as usize;
            let end = st + chunk.data.len();
            if end > result.len() {
                proof {
                    lemma_apply_chunks_none(start, cs, c + 1);
                }
                let msg = text::concat4(
                    "Chunk at offset ",
                    text::u64_to_decimal(chunk.offset).as_str(),
                    " exceeds target size ",
                    text::u64_to_decimal(result.len() as u64).as_str(),
                );
                return Err(FuseError::ValidationError(msg));
            }
            let ghost prev = result@;
            let mut k: usize = 0;
            while k < chunk.data.len()
                invariant
                    st + chunk.data@.len() == end,
                    end <= result@.len(),
                    k <= chunk.data@.len(),
                    result@.len() == prev.len(),
                    forall|j: int| 0 <= j < st ==> result@[j] == prev[j],
                    forall|j: int| end <= j < prev.len() ==> result@[j] == prev[j],
                    forall|j: int| 0 <= j < k ==> result@[st + j] == chunk.data@[j],
                    forall|j: int| st + k <= j < end ==> result@[j] == prev[j],
                decreases chunk.data.len() - k,
            {
                result.set(st + k, chunk.data[k]);
                k = k + 1;
            }
            assert(result@ =~= overwrite(prev, st as int, chunk.data@));
            c = c + 1;
        }
        assert(cs.take(cs.len() as int) =~= cs);
        proof {
            lemma_apply_chunks_len(start, cs);
        }
        let final_hash = DeltaChunk::compute_hash(result.as_slice());
        if !text::str_eq(final_hash.as_str(), manifest.target_hash.as_str()) {
            let msg = text::concat4(
                "Target hash mismatch: expected ",
                manifest.target_hash.as_str(),
                ", got ",
                final_hash.as_str(),
            );
            return Err(FuseError::ValidationError(msg));
        }
        Ok(result)
    }
}

/// A chunk made with the hash of its own data passes verification.
pub proof fn lemma_chunk_with_computed_hash_verifies(offset: u64, data: Seq<u8>)
    requires
        data.len() <= u64::MAX,
    ensures
        chunk_ok(ChunkModel { offset, size: data.len() as u64, hash: hash_hex(data), data }),
{
}

/// Writing a chunk over a buffer puts its data at its offset, keeps the length, and
/// leaves the other bytes alone.
pub proof fn lemma_overwrite(buf: Seq<u8>, off: int, data: Seq<u8>)
    requires
        0 <= off,
        off + data.len() <= buf.len(),
    ensures
        overwrite(buf, off, data).len() == buf.len(),
        overwrite(buf, off, data).subrange(off, off + data.len()) == data,
        forall|j: int|
            0 <= j < buf.len() && !(off <= j < off + data.len()) ==> overwrite(buf, off, data)[j]
                == buf[j],
{
    assert(overwrite(buf, off, data).subrange(off, off + data.len()) =~= data);
}

/// The byte at position `i` of a target: from the last chunk that covers `i`, else
/// from the base where it reaches, else zero.
pub open spec fn target_byte(base: Seq<u8>, cs: Seq<ChunkModel>, i: int) -> u8
    decreases cs.len(),
{
    if cs.len() == 0 {
        if i < base.len() {
            base[i]
        } else {
            0
        }
    } else if cs.last().offset <= i < cs.last().offset + cs.last().data.len() {
        cs.last().data[i - cs.last().offset]
    } else {
        target_byte(base, cs.drop_last(), i)
    }
}

proof fn lemma_chunks_bytes(base: Seq<u8>, n: int, cs: Seq<ChunkModel>)
    requires
        0 <= n,
    ensures
        apply_chunks(padded(base, n), cs) matches Some(r) ==> r.len() == n && forall|i: int|
            0 <= i < n ==> #[trigger] r[i] == target_byte(base, cs, i),
    decreases cs.len(),
{
    if cs.len() == 0 {
    } else {
        lemma_chunks_bytes(base, n, cs.drop_last());
        if let Some(b) = apply_chunks(padded(base, n), cs.drop_last()) {
            let c = cs.last();
            if c.offset + c.data.len() <= b.len() {
                lemma_overwrite(b, c.offset as int, c.data);
                let r = overwrite(b, c.offset as int, c.data);
                assert forall|i: int| 0 <= i < n implies #[trigger] r[i] == target_byte(base, cs, i) by {
                    if c.offset <= i < c.offset + c.data.len() {
                        assert(r[i] == r.subrange(c.offset as int, c.offset + c.data.len())[i - c.offset]);
                    } else {
                        assert(r[i] == b[i]);
                    }
                }
            }
        }
    }
}

/// What applying a manifest gives, byte by byte: a result of exactly the target
/// size, matching the target hash, where each byte comes from the last chunk that
/// covers it, else from the base, else is zero.
pub proof fn lemma_apply_bytes(base: Seq<u8>, m: ManifestModel)
    ensures
        spec_apply(base, m) matches Some(r) ==> {
            &&& r.len() == m.target_size
            &&& hash_hex(r) == m.target_hash
            &&& forall|i: int| 0 <= i < r.len() ==> #[trigger] r[i] == target_byte(base, m.chunks, i)
        },
{
    lemma_chunks_bytes(base, m.target_size as int, m.chunks);
}

/// The hash is 16 characters long whatever the data.
pub proof fn lemma_hash_len(data: Seq<u8>)
    ensures
        hash_hex(data).len() == 16,
{
    lemma_hex_len(fnv1a(data) as nat, 16);
}

proof fn lemma_hex_len(n: nat, k: nat)
    ensures
        hex_padded(n, k).len() == k,
    decreases k,
{
    if k > 0 {
        lemma_hex_len(n / 16, (k - 1) as nat);
    }
}

} // verus!
