//! GGUF format parser — parsing of GGUF v2/v3 model file headers, metadata and
//! tensor descriptors from bytes, and writing them back.
use vstd::prelude::*;
use vstd::utf8::encode_utf8;
use crate::error::FuseError;
use crate::model::formats::bytes::{
    at, lemma_at_join, lemma_at_split, lemma_rd_string, lemma_rd_string_len, lemma_rd_u32, lemma_rd_u64, rd_string,
    rd_u32, rd_u64, read_string, read_u32, read_u64, string_bytes, u32_le, u64_le, write_string,
    write_u32, write_u64,
};
use crate::model::formats::ggml::{
    ggml_code, ggml_from_code, lemma_ggml_code_roundtrip, product, product_fits, tensor_bytes,
    GgmlType, GgufTensorInfo, TensorModel,
};
use crate::model::formats::keys::key_lt;
use crate::model::formats::metadata::{
    lemma_meta_insert_last, lemma_meta_insert_sorted, meta_get, meta_insert, sorted_keys, GgufMetadata, MetaModel,
};
use crate::model::formats::value::{
    lemma_rd_value_wf, lemma_value_roundtrip, read_value, rd_value, ser_value, value_wf, write_value, GgufValue,
    GgufValueModel,
};
use crate::text;

verus! {

/// GGUF magic number: "GGUF" in little-endian.
pub const GGUF_MAGIC: u32 = 0x46475547;

/// Supported GGUF versions.
pub const GGUF_VERSION_2: u32 = 2;

pub const GGUF_VERSION_3: u32 = 3;

/// GGUF file header.
#[derive(Debug, Clone, Copy, PartialEq, Eq, Structural)]
pub struct GgufHeader {
    pub magic: u32,
    pub version: u32,
    pub tensor_count: u64,
    pub metadata_kv_count: u64,
}

/// Parsed GGUF file.
pub struct GgufFile {
    pub header: GgufHeader,
    pub metadata: GgufMetadata,
    pub tensors: Vec<GgufTensorInfo>,
    /// Byte offset where tensor data begins.
    pub data_offset: u64,
}

/// Model of a parsed file.
pub struct GgufFileModel {
    pub header: GgufHeader,
    pub metadata: MetaModel,
    pub tensors: Seq<TensorModel>,
    pub data_offset: u64,
}

pub open spec fn tensor_models(s: Seq<GgufTensorInfo>) -> Seq<TensorModel> {
    Seq::new(s.len(), |i: int| s[i]@)
}

impl View for GgufFile {
    type V = GgufFileModel;

    open spec fn view(&self) -> GgufFileModel {
        GgufFileModel {
            header: self.header,
            metadata: self.metadata@,
            tensors: tensor_models(self.tensors@),
            data_offset: self.data_offset,
        }
    }
}

// ── Reading, as spec functions over the bytes ──

/// The first `n` dimensions, from position `p` on.
pub open spec fn rd_dims(d: Seq<u8>, p: int, n: nat) -> Option<(Seq<u64>, int)>
    decreases n,
{
    if n == 0 {
        Some((Seq::empty(), p))
    } else {
        match rd_dims(d, p, (n - 1) as nat) {
            Some((s, q)) => match rd_u64(d, q) {
                Some((x, q2)) => Some((s.push(x), q2)),
                None => None,
            },
            None => None,
        }
    }
}

/// A tensor descriptor at `p`: name, dimension count, dimensions, type code, offset.
pub open spec fn rd_tensor(d: Seq<u8>, p: int) -> Option<(TensorModel, int)> {
    match rd_string(d, p) {
        Some((name, q1)) => match rd_u32(d, q1) {
            Some((nd, q2)) => match rd_dims(d, q2, nd as nat) {
                Some((dims, q3)) => match rd_u32(d, q3) {
                    Some((code, q4)) => match ggml_from_code(code) {
                        Some(t) => match rd_u64(d, q4) {
                            Some((off, q5)) => Some(
                                (
                                    TensorModel {
                                        name: name,
                                        dimensions: dims,
                                        ggml_type: t,
                                        offset: off,
                                    },
                                    q5,
                                ),
                            ),
                            None => None,
                        },
                        None => None,
                    },
                    None => None,
                },
                None => None,
            },
            None => None,
        },
        None => None,
    }
}

/// The first `n` tensor descriptors, from `p` on.
pub open spec fn rd_tensors(d: Seq<u8>, p: int, n: nat) -> Option<(Seq<TensorModel>, int)>
    decreases n,
{
    if n == 0 {
        Some((Seq::empty(), p))
    } else {
        match rd_tensors(d, p, (n - 1) as nat) {
            Some((s, q)) => match rd_tensor(d, q) {
                Some((t, q2)) => Some((s.push(t), q2)),
                None => None,
            },
            None => None,
        }
    }
}

/// The metadata built from the first `n` key-value pairs from `p` on; a later pair
/// replaces an earlier one with the same key.
pub open spec fn rd_meta(d: Seq<u8>, p: int, n: nat) -> Option<(MetaModel, int)>
    decreases n,
{
    if n == 0 {
        Some((Seq::empty(), p))
    } else {
        match rd_meta(d, p, (n - 1) as nat) {
            Some((m, q)) => match rd_string(d, q) {
                Some((k, q1)) => match rd_value(d, q1) {
                    Some((v, q2)) => Some((meta_insert(m, k, v), q2)),
                    None => None,
                },
                None => None,
            },
            None => None,
        }
    }
}

/// `pos` rounded up to a multiple of 32.
pub open spec fn align32(pos: int) -> int {
    (pos + 31) / 32 * 32
}

/// The file a byte string holds, or `None` where the parser reports an error.
#[verifier::opaque]
pub open spec fn spec_parse(d: Seq<u8>) -> Option<GgufFileModel> {
    match rd_u32(d, 0) {
        Some((magic, _)) => if magic != GGUF_MAGIC {
            None
        } else {
            match rd_u32(d, 4) {
                Some((version, _)) => if version != GGUF_VERSION_2 && version != GGUF_VERSION_3 {
                    None
                } else {
                    match rd_u64(d, 8) {
                        Some((tc, _)) => match rd_u64(d, 16) {
                            Some((mc, _)) => match rd_meta(d, 24, mc as nat) {
                                Some((m, p)) => match rd_tensors(d, p, tc as nat) {
                                    Some((ts, q)) => Some(
                                        GgufFileModel {
                                            header: GgufHeader {
                                                magic,
                                                version,
                                                tensor_count: tc,
                                                metadata_kv_count: mc,
                                            },
                                            metadata: m,
                                            tensors: ts,
                                            data_offset: align32(q) as u64,
                                        },
                                    ),
                                    None => None,
                                },
                                None => None,
                            },
                            None => None,
                        },
                        None => None,
                    }
                },
                None => None,
            }
        },
        None => None,
    }
}

pub open spec fn header_ok(d: Seq<u8>, h: GgufHeader) -> bool {
    &&& rd_u32(d, 0) == Some((h.magic, 4int))
    &&& h.magic == GGUF_MAGIC
    &&& rd_u32(d, 4) == Some((h.version, 8int))
    &&& (h.version == GGUF_VERSION_2 || h.version == GGUF_VERSION_3)
    &&& rd_u64(d, 8) == Some((h.tensor_count, 16int))
    &&& rd_u64(d, 16) == Some((h.metadata_kv_count, 24int))
}

proof fn lemma_parse_bad_magic(d: Seq<u8>)
    requires
        rd_u32(d, 0) is None || (rd_u32(d, 0) matches Some((m, _)) && m != GGUF_MAGIC),
    ensures
        spec_parse(d) is None,
{
    reveal(spec_parse);
}

proof fn lemma_parse_bad_version(d: Seq<u8>)
    requires
        rd_u32(d, 0) matches Some((m, _)) && m == GGUF_MAGIC,
        rd_u32(d, 4) is None || (rd_u32(d, 4) matches Some((v, _)) && v != GGUF_VERSION_2 && v
            != GGUF_VERSION_3),
    ensures
        spec_parse(d) is None,
{
    reveal(spec_parse);
}

proof fn lemma_parse_bad_counts(d: Seq<u8>)
    requires
        rd_u32(d, 0) matches Some((m, _)) && m == GGUF_MAGIC,
        rd_u32(d, 4) matches Some((v, _)) && (v == GGUF_VERSION_2 || v == GGUF_VERSION_3),
        rd_u64(d, 8) is None || rd_u64(d, 16) is None,
    ensures
        spec_parse(d) is None,
{
    reveal(spec_parse);
}

proof fn lemma_parse_bad_meta(d: Seq<u8>, h: GgufHeader)
    requires
        header_ok(d, h),
        rd_meta(d, 24, h.metadata_kv_count as nat) is None,
    ensures
        spec_parse(d) is None,
{
    reveal(spec_parse);
}

proof fn lemma_parse_bad_tensors(d: Seq<u8>, h: GgufHeader, m: MetaModel, p: int)
    requires
        header_ok(d, h),
        rd_meta(d, 24, h.metadata_kv_count as nat) == Some((m, p)),
        rd_tensors(d, p, h.tensor_count as nat) is None,
    ensures
        spec_parse(d) is None,
{
    reveal(spec_parse);
}

proof fn lemma_parse_ok(d: Seq<u8>, h: GgufHeader, m: MetaModel, p: int, ts: Seq<TensorModel>, q: int)
    requires
        header_ok(d, h),
        rd_meta(d, 24, h.metadata_kv_count as nat) == Some((m, p)),
        rd_tensors(d, p, h.tensor_count as nat) == Some((ts, q)),
    ensures
        spec_parse(d) == Some(
            GgufFileModel { header: h, metadata: m, tensors: ts, data_offset: align32(q) as u64 },
        ),
{
    reveal(spec_parse);
}

// ── Writing, as spec functions ──

pub open spec fn ser_header(h: GgufHeader) -> Seq<u8> {
    u32_le(h.magic) + u32_le(h.version) + u64_le(h.tensor_count) + u64_le(h.metadata_kv_count)
}

/// The metadata entries in order, each as key then value; `None` where a value
/// cannot be written.
pub open spec fn ser_meta(m: MetaModel) -> Option<Seq<u8>>
    decreases m.len(),
{
    if m.len() == 0 {
        Some(Seq::empty())
    } else {
        match ser_meta(m.drop_last()) {
            Some(a) => match ser_value(m.last().1) {
                Some(b) => Some(a + string_bytes(m.last().0) + b),
                None => None,
            },
            None => None,
        }
    }
}

pub open spec fn ser_dims(dims: Seq<u64>) -> Seq<u8>
    decreases dims.len(),
{
    if dims.len() == 0 {
        Seq::empty()
    } else {
        ser_dims(dims.drop_last()) + u64_le(dims.last())
    }
}

pub open spec fn ser_tensor(t: TensorModel) -> Seq<u8> {
    string_bytes(t.name) + u32_le(t.dimensions.len() as u32) + ser_dims(t.dimensions) + u32_le(
        ggml_code(t.ggml_type),
    ) + u64_le(t.offset)
}

pub open spec fn ser_tensors(ts: Seq<TensorModel>) -> Seq<u8>
    decreases ts.len(),
{
    if ts.len() == 0 {
        Seq::empty()
    } else {
        ser_tensors(ts.drop_last()) + ser_tensor(ts.last())
    }
}

/// The bytes `write` emits for a file, or `None` where it fails.
pub open spec fn ser_file(f: GgufFileModel) -> Option<Seq<u8>> {
    match ser_meta(f.metadata) {
        Some(mb) => Some(ser_header(f.header) + mb + ser_tensors(f.tensors)),
        None => None,
    }
}

// ── Executable parsing ──

proof fn lemma_rd_dims_none(d: Seq<u8>, p: int, k: nat, n: nat)
    requires
        k <= n,
        rd_dims(d, p, k) is None,
    ensures
        rd_dims(d, p, n) is None,
    decreases n - k,
{
    if k < n {
        lemma_rd_dims_none(d, p, k + 1, n);
    }
}

proof fn lemma_rd_tensors_none(d: Seq<u8>, p: int, k: nat, n: nat)
    requires
        k <= n,
        rd_tensors(d, p, k) is None,
    ensures
        rd_tensors(d, p, n) is None,
    decreases n - k,
{
    if k < n {
        lemma_rd_tensors_none(d, p, k + 1, n);
    }
}

proof fn lemma_rd_meta_none(d: Seq<u8>, p: int, k: nat, n: nat)
    requires
        k <= n,
        rd_meta(d, p, k) is None,
    ensures
        rd_meta(d, p, n) is None,
    decreases n - k,
{
    if k < n {
        lemma_rd_meta_none(d, p, k + 1, n);
    }
}

/// Reads one tensor descriptor.
pub fn read_tensor_info(d: &[u8], p: usize) -> (r: Result<(GgufTensorInfo, usize), FuseError>)
    ensures
        match r {
            Ok((t, q)) => rd_tensor(d@, p as int) == Some((t@, q as int)),
            Err(e) => rd_tensor(d@, p as int) is None && e is InternalError,
        },
{
    let (name, q1) = read_string(d, p)?;
    let (nd, q2) = read_u32(d, q1)?;
    let mut dims: Vec<u64> = Vec::new();
    let mut pos: usize = q2;
    let mut i: u32 = 0;
    while i < nd
        invariant
            i <= nd,
            rd_string(d@, p as int) == Some((name@, q1 as int)),
            rd_u32(d@, q1 as int) == Some((nd, q2 as int)),
            rd_dims(d@, q2 as int, i as nat) == Some((dims@, pos as int)),
        decreases nd - i,
    {
        let (x, q) = match read_u64(d, pos) {
            Ok(v) => v,
            Err(e) => {
                proof {
                    lemma_rd_dims_none(d@, q2 as int, (i + 1) as nat, nd as nat);
                }
                return Err(e);
            },
        };
        dims.push(x);
        pos = q;
        i = i + 1;
    }
    let (code, q4) = read_u32(d, pos)?;
    let ggml_type = GgmlType::from_u32(code)?;
    let (offset, q5) = read_u64(d, q4)?;
    let t = GgufTensorInfo { name, dimensions: dims, ggml_type, offset };
    Ok((t, q5))
}

fn magic_error(magic: u32) -> (e: FuseError)
    ensures
        e matches FuseError::InternalError(m) && m@ == "Invalid GGUF magic: 0x"@ + text::hex_padded(magic as nat, 8)
            + ", expected 0x"@ + "46475547"@,
{
    let m = text::u64_to_hex_padded(magic as u64, 8);
    let msg = text::concat4("Invalid GGUF magic: 0x", m.as_str(), ", expected 0x", "46475547");
    FuseError::InternalError(msg)
}

fn version_error(version: u32) -> (e: FuseError)
    ensures
        e matches FuseError::InternalError(m) && m@ == "Unsupported GGUF version: "@ + text::decimal(version as nat)
            + ", expected 2 or 3"@,
{
    let v = text::u64_to_decimal(version as u64);
    let msg = text::concat3("Unsupported GGUF version: ", v.as_str(), ", expected 2 or 3");
    FuseError::InternalError(msg)
}

impl GgufFile {
    /// Parses a GGUF file held in `data`. The result is exactly `spec_parse(data)`;
    /// every failure is an internal error.
    pub fn parse(data: &[u8]) -> (r: Result<GgufFile, FuseError>)
        requires
            data@.len() <= u64::MAX - 31,
        ensures
            match r {
                Ok(f) => spec_parse(data@) == Some(f@) && (f@.header.metadata_kv_count == f@.metadata.len()
                    ==> file_wf(f@)),
                Err(e) => spec_parse(data@) is None && e is InternalError,
            },
    {
        let (magic, _) = match read_u32(data, 0) {
            Ok(v) => v,
            Err(e) => {
                proof {
                    lemma_parse_bad_magic(data@);
                }
                return Err(e);
            },
        };
        if magic != GGUF_MAGIC {
            proof {
                lemma_parse_bad_magic(data@);
            }
            return Err(magic_error(magic));
        }
        let (version, _) = match read_u32(data, 4) {
            Ok(v) => v,
            Err(e) => {
                proof {
                    lemma_parse_bad_version(data@);
                }
                return Err(e);
            },
        };
        if version != GGUF_VERSION_2 && version != GGUF_VERSION_3 {
            proof {
                lemma_parse_bad_version(data@);
            }
            return Err(version_error(version));
        }
        let (tensor_count, _) = match read_u64(data, 8) {
            Ok(v) => v,
            Err(e) => {
                proof {
                    lemma_parse_bad_counts(data@);
                }
                return Err(e);
            },
        };
        let (metadata_kv_count, _) = match read_u64(data, 16) {
            Ok(v) => v,
            Err(e) => {
                proof {
                    lemma_parse_bad_counts(data@);
                }
                return Err(e);
            },
        };
        let header = GgufHeader { magic, version, tensor_count, metadata_kv_count };
        assert(header_ok(data@, header));

        // Read metadata
        let mut metadata = GgufMetadata::new();
        let mut pos: usize = 24;
        let mut i: u64 = 0;
        assert(rd_meta(data@, 24, 0) == Some((metadata@, 24int)));
        while i < metadata_kv_count
            invariant
                i <= metadata_kv_count,
                header_ok(data@, header),
                metadata_kv_count == header.metadata_kv_count,
                rd_meta(data@, 24, i as nat) == Some((metadata@, pos as int)),
            decreases metadata_kv_count - i,
        {
            let (key, q1) = match read_string(data, pos) {
                Ok(v) => v,
                Err(e) => {
                    proof {
                        lemma_rd_meta_none(data@, 24, (i + 1) as nat, metadata_kv_count as nat);
                        lemma_parse_bad_meta(data@, header);
                    }
                    return Err(e);
                },
            };
            let (value, q2) = match read_value(data, q1) {
                Ok(v) => v,
                Err(e) => {
                    proof {
                        lemma_rd_meta_none(data@, 24, (i + 1) as nat, metadata_kv_count as nat);
                        lemma_parse_bad_meta(data@, header);
                    }
                    return Err(e);
                },
            };
            metadata.insert(key, value);
            pos = q2;
            i = i + 1;
        }
        let meta_end = pos;
        let ghost meta_model = metadata@;

        // Read tensor info
        let mut tensors: Vec<GgufTensorInfo> = Vec::new();
        let mut j: u64 = 0;
        assert(rd_tensors(data@, meta_end as int, 0) == Some((tensor_models(tensors@), pos as int))) by {
            assert(tensor_models(tensors@) =~= Seq::<TensorModel>::empty());
        }
        while j < tensor_count
            invariant
                j <= tensor_count,
                pos <= data@.len(),
                header_ok(data@, header),
                tensor_count == header.tensor_count,
                rd_meta(data@, 24, header.metadata_kv_count as nat) == Some(
                    (meta_model, meta_end as int),
                ),
                rd_tensors(data@, meta_end as int, j as nat) == Some(
                    (tensor_models(tensors@), pos as int),
                ),
            decreases tensor_count - j,
        {
            let (t, q) = match read_tensor_info(data, pos) {
                Ok(v) => v,
                Err(e) => {
                    proof {
                        lemma_rd_tensors_none(
                            data@,
                            meta_end as int,
                            (j + 1) as nat,
                            tensor_count as nat,
                        );
                        lemma_parse_bad_tensors(data@, header, meta_model, meta_end as int);
                    }
                    return Err(e);
                },
            };
            proof {
                assert(tensor_models(tensors@.push(t)) =~= tensor_models(tensors@).push(t@));
                lemma_rd_tensor_end(data@, pos as int);
            }
            tensors.push(t);
            pos = q;
            j = j + 1;
        }

        // Data starts at the current position, aligned to 32 bytes
        let p64 = pos as u64;
        let data_offset: u64 = (p64 + 31) / 32 * 32;
        proof {
            lemma_parse_ok(
                data@,
                header,
                meta_model,
                meta_end as int,
                tensor_models(tensors@),
                pos as int,
            );
        }
        let f = GgufFile { header, metadata, tensors, data_offset };
        proof {
            lemma_parsed_file_wf(data@);
        }
        Ok(f)
    }

    /// The value stored under `key`.
    pub fn get_metadata(&self, key: &str) -> (r: Option<&GgufValue>)
        ensures
            match r {
                Some(v) => meta_get(self.metadata@, key@) == Some(v@),
                None => meta_get(self.metadata@, key@) is None,
            },
    {
        self.metadata.get(key)
    }

    /// The model architecture string: the `general.architecture` entry when it is a string.
    pub fn architecture(&self) -> (r: Option<&str>)
        ensures
            match r {
                Some(s) => meta_get(self.metadata@, "general.architecture"@) == Some(
                    GgufValueModel::String(s@),
                ),
                None => !(meta_get(self.metadata@, "general.architecture"@) matches Some(
                    GgufValueModel::String(_),
                )),
            },
    {
        match self.metadata.get("general.architecture") {
            Some(GgufValue::String(s)) => Some(s.as_str()),
            _ => None,
        }
    }

    /// The model name: the `general.name` entry when it is a string.
    pub fn model_name(&self) -> (r: Option<&str>)
        ensures
            match r {
                Some(s) => meta_get(self.metadata@, "general.name"@) == Some(
                    GgufValueModel::String(s@),
                ),
                None => !(meta_get(self.metadata@, "general.name"@) matches Some(
                    GgufValueModel::String(_),
                )),
            },
    {
        match self.metadata.get("general.name") {
            Some(GgufValue::String(s)) => Some(s.as_str()),
            _ => None,
        }
    }

    /// Total size of all tensor data in bytes.
    pub fn total_tensor_bytes(&self) -> (r: u64)
        requires
            forall|i: int|
                0 <= i < self.tensors@.len() ==> product_fits(
                    #[trigger] self.tensors@[i].dimensions@,
                ) && tensor_bytes(product(self.tensors@[i].dimensions@), self.tensors@[i].ggml_type)
                    <= u64::MAX,
            total_bytes(tensor_models(self.tensors@)) <= u64::MAX,
        ensures
            r == total_bytes(tensor_models(self.tensors@)),
    {
        let ghost ts = tensor_models(self.tensors@);
        let mut acc: u64 = 0;
        let mut i: usize = 0;
        while i < self.tensors.len()
            invariant
                i <= self.tensors@.len(),
                ts == tensor_models(self.tensors@),
                acc == total_bytes(ts.take(i as int)),
                total_bytes(ts) <= u64::MAX,
                forall|k: int|
                    0 <= k < self.tensors@.len() ==> product_fits(
                        #[trigger] self.tensors@[k].dimensions@,
                    ) && tensor_bytes(
                        product(self.tensors@[k].dimensions@),
                        self.tensors@[k].ggml_type,
                    ) <= u64::MAX,
            decreases self.tensors.len() - i,
        {
            let b = self.tensors[i].size_bytes();
            assert(ts.take(i + 1).drop_last() =~= ts.take(i as int));
            proof {
                lemma_total_bytes_prefix(ts, i + 1);
            }
            acc = acc + b;
            i = i + 1;
        }
        assert(ts.take(ts.len() as int) =~= ts);
        acc
    }

    /// Writes the file: header, metadata in key order, tensor descriptors. Fails where a
    /// metadata value is an array that holds an array.
    pub fn write(&self, out: &mut Vec<u8>) -> (r: Result<(), FuseError>)
        ensures
            r is Ok <==> ser_file(self@) is Some,
            r is Ok ==> final(out)@ == old(out)@ + ser_file(self@)->0,
            match r {
                Err(e) => e is InternalError,
                Ok(_) => true,
            },
    {
        let ghost f = self@;
        write_u32(out, self.header.magic);
        write_u32(out, self.header.version);
        write_u64(out, self.header.tensor_count);
        write_u64(out, self.header.metadata_kv_count);
        let ghost start = old(out)@;
        assert(out@ =~= start + ser_header(self.header));

        // Metadata, in key order
        let n = self.metadata.len();
        let mut i: usize = 0;
        assert(f.metadata.take(0) =~= Seq::<(Seq<char>, GgufValueModel)>::empty());
        while i < n
            invariant
                i <= n,
                n == f.metadata.len(),
                f == self@,
                ser_meta(f.metadata.take(i as int)) is Some,
                out@ == start + ser_header(self.header) + ser_meta(f.metadata.take(i as int))->0,
            decreases n - i,
        {
            let (k, v) = self.metadata.entry(i);
            write_string(out, k.as_str());
            let ghost pre = f.metadata.take(i as int);
            assert(f.metadata.take(i + 1).drop_last() =~= pre);
            assert(f.metadata.take(i + 1).last() == f.metadata[i as int]);
            match write_value(out, v) {
                Ok(()) => {},
                Err(e) => {
                    proof {
                        lemma_ser_meta_none(f.metadata, i + 1);
                    }
                    return Err(e);
                },
            }
            i = i + 1;
        }
        assert(f.metadata.take(n as int) =~= f.metadata);
        let ghost mid = out@;

        // Tensor info
        let mut j: usize = 0;
        let ghost ts = f.tensors;
        assert(ts.take(0) =~= Seq::<TensorModel>::empty());
        while j < self.tensors.len()
            invariant
                j <= self.tensors@.len(),
                ts == tensor_models(self.tensors@),
                out@ == mid + ser_tensors(ts.take(j as int)),
            decreases self.tensors.len() - j,
        {
            let t = &self.tensors[j];
            write_tensor_info(out, t);
            assert(ts.take(j + 1).drop_last() =~= ts.take(j as int));
            assert(ts.take(j + 1).last() == t@);
            j = j + 1;
        }
        assert(ts.take(ts.len() as int) =~= ts);
        Ok(())
    }
}

/// Writes one tensor descriptor.
pub fn write_tensor_info(out: &mut Vec<u8>, t: &GgufTensorInfo)
    ensures
        final(out)@ == old(out)@ + ser_tensor(t@),
{
    let ghost start = out@;
    write_string(out, t.name.as_str());
    write_u32(out, t.dimensions.len() as u32);
    let ghost before_dims = out@;
    let mut k: usize = 0;
    assert(t.dimensions@.take(0) =~= Seq::<u64>::empty());
    while k < t.dimensions.len()
        invariant
            k <= t.dimensions@.len(),
            out@ == before_dims + ser_dims(t.dimensions@.take(k as int)),
        decreases t.dimensions.len() - k,
    {
        write_u64(out, t.dimensions[k]);
        assert(t.dimensions@.take(k + 1).drop_last() =~= t.dimensions@.take(k as int));
        k = k + 1;
    }
    assert(t.dimensions@.take(t.dimensions@.len() as int) =~= t.dimensions@);
    write_u32(out, t.ggml_type.code());
    write_u64(out, t.offset);
    assert(out@ =~= start + ser_tensor(t@));
}

proof fn lemma_ser_meta_none(m: MetaModel, k: int)
    requires
        0 <= k <= m.len(),
        ser_meta(m.take(k)) is None,
    ensures
        ser_meta(m) is None,
    decreases m.len() - k,
{
    if k < m.len() {
        assert(m.take(k + 1).drop_last() =~= m.take(k));
        lemma_ser_meta_none(m, k + 1);
    } else {
        assert(m.take(k) =~= m);
    }
}

/// A tensor read ends within the data.
proof fn lemma_rd_tensor_end(d: Seq<u8>, p: int)
    ensures
        rd_tensor(d, p) matches Some((_, q)) ==> q <= d.len(),
{
}

/// Sum of the byte sizes of tensors.
pub open spec fn total_bytes(ts: Seq<TensorModel>) -> int
    decreases ts.len(),
{
    if ts.len() == 0 {
        0
    } else {
        total_bytes(ts.drop_last()) + tensor_bytes(product(ts.last().dimensions), ts.last().ggml_type)
    }
}

proof fn lemma_total_bytes_nonneg_terms(ts: Seq<TensorModel>)
    ensures
        total_bytes(ts) >= 0,
    decreases ts.len(),
{
    if ts.len() > 0 {
        lemma_total_bytes_nonneg_terms(ts.drop_last());
        lemma_tensor_bytes_nonneg(ts.last());
    }
}

proof fn lemma_tensor_bytes_nonneg(t: TensorModel)
    ensures
        tensor_bytes(product(t.dimensions), t.ggml_type) >= 0,
{
    crate::model::formats::ggml::lemma_product_nonneg(t.dimensions);
    let n = product(t.dimensions);
    let b = crate::model::formats::ggml::spec_block_size(t.ggml_type) as int;
    let c = crate::model::formats::ggml::spec_bytes_per_block(t.ggml_type) as int;
    assert((n + b - 1) / b * c >= 0) by (nonlinear_arith)
        requires
            n >= 0,
            b >= 1,
            c >= 0,
    ;
}

proof fn lemma_total_bytes_prefix(ts: Seq<TensorModel>, k: int)
    requires
        0 <= k <= ts.len(),
    ensures
        total_bytes(ts.take(k)) <= total_bytes(ts),
    decreases ts.len() - k,
{
    if k < ts.len() {
        lemma_total_bytes_prefix(ts, k + 1);
        assert(ts.take(k + 1).drop_last() =~= ts.take(k));
        lemma_tensor_bytes_nonneg(ts.take(k + 1).last());
    } else {
        assert(ts.take(k) =~= ts);
    }
}

// ── Writing then parsing gives the file back ──

/// A file the writer emits in full and the parser reads back: a valid header whose
/// counts match the contents, metadata whose values survive a write and a read,
/// and tensors with at most `u32::MAX` dimensions.
pub open spec fn file_wf(f: GgufFileModel) -> bool {
    &&& f.header.magic == GGUF_MAGIC
    &&& (f.header.version == GGUF_VERSION_2 || f.header.version == GGUF_VERSION_3)
    &&& f.header.tensor_count == f.tensors.len()
    &&& f.header.metadata_kv_count == f.metadata.len()
    &&& sorted_keys(f.metadata)
    &&& forall|i: int|
        0 <= i < f.metadata.len() ==> value_wf(#[trigger] f.metadata[i].1) && encode_utf8(
            f.metadata[i].0,
        ).len() <= u64::MAX
    &&& forall|i: int|
        0 <= i < f.tensors.len() ==> (#[trigger] f.tensors[i]).dimensions.len() <= u32::MAX
            && encode_utf8(f.tensors[i].name).len() <= u64::MAX
}

proof fn lemma_value_wf_ser(v: GgufValueModel)
    requires
        value_wf(v),
    ensures
        ser_value(v) is Some,
{
    match v {
        GgufValueModel::Array(a) => {
            assert forall|i: int| 0 <= i < a.len() implies !(#[trigger] a[i] is Array) by {
                assert(crate::model::formats::value::scalar_wf(a[i]));
            }
        },
        _ => {},
    }
}

proof fn lemma_meta_roundtrip(d: Seq<u8>, p: int, m: MetaModel, n: int)
    requires
        0 <= n <= m.len(),
        sorted_keys(m),
        forall|i: int|
            0 <= i < m.len() ==> value_wf(#[trigger] m[i].1) && encode_utf8(m[i].0).len()
                <= u64::MAX,
    ensures
        ser_meta(m.take(n)) is Some,
        at(d, p, ser_meta(m.take(n))->0) ==> rd_meta(d, p, n as nat) == Some(
            (m.take(n), p + ser_meta(m.take(n))->0.len()),
        ),
    decreases n,
{
    if n == 0 {
        assert(m.take(0) =~= Seq::<(Seq<char>, GgufValueModel)>::empty());
    } else {
        let pre = m.take(n - 1);
        let k = m[n - 1].0;
        let v = m[n - 1].1;
        assert(m.take(n).drop_last() =~= pre);
        assert(m.take(n).last() == m[n - 1]);
        lemma_meta_roundtrip(d, p, m, n - 1);
        lemma_value_wf_ser(v);
        let a = ser_meta(pre)->0;
        let b = string_bytes(k);
        let c = ser_value(v)->0;
        assert(ser_meta(m.take(n)) == Some(a + b + c));
        if at(d, p, a + b + c) {
            lemma_at_split(d, p, a + b, c);
            lemma_at_split(d, p, a, b);
            lemma_rd_string(d, p + a.len(), k);
            lemma_value_roundtrip(d, p + a.len() + b.len(), v);
            assert(sorted_keys(pre)) by {
                assert forall|i: int, j: int| 0 <= i < j < pre.len() implies key_lt(
                    #[trigger] pre[i].0,
                    #[trigger] pre[j].0,
                ) by {
                    assert(pre[i] == m[i] && pre[j] == m[j]);
                }
            }
            assert forall|j: int| 0 <= j < pre.len() implies key_lt(#[trigger] pre[j].0, k) by {
                assert(pre[j] == m[j]);
            }
            lemma_meta_insert_last(pre, k, v);
            assert(pre.push((k, v)) =~= m.take(n));
        }
    }
}

proof fn lemma_dims_roundtrip(d: Seq<u8>, p: int, dims: Seq<u64>, n: int)
    requires
        0 <= n <= dims.len(),
        at(d, p, ser_dims(dims.take(n))),
    ensures
        rd_dims(d, p, n as nat) == Some((dims.take(n), p + ser_dims(dims.take(n)).len())),
    decreases n,
{
    if n == 0 {
        assert(dims.take(0) =~= Seq::<u64>::empty());
    } else {
        let pre = dims.take(n - 1);
        assert(dims.take(n).drop_last() =~= pre);
        assert(dims.take(n).last() == dims[n - 1]);
        lemma_at_split(d, p, ser_dims(pre), u64_le(dims[n - 1]));
        lemma_dims_roundtrip(d, p, dims, n - 1);
        lemma_rd_u64(d, p + ser_dims(pre).len(), dims[n - 1]);
        assert(pre.push(dims[n - 1]) =~= dims.take(n));
    }
}

proof fn lemma_tensor_roundtrip(d: Seq<u8>, p: int, t: TensorModel)
    requires
        t.dimensions.len() <= u32::MAX,
        encode_utf8(t.name).len() <= u64::MAX,
        at(d, p, ser_tensor(t)),
    ensures
        rd_tensor(d, p) == Some((t, p + ser_tensor(t).len())),
{
    let a = string_bytes(t.name);
    let b = u32_le(t.dimensions.len() as u32);
    let c = ser_dims(t.dimensions);
    let e = u32_le(ggml_code(t.ggml_type));
    let f = u64_le(t.offset);
    lemma_at_split(d, p, a + b + c + e, f);
    lemma_at_split(d, p, a + b + c, e);
    lemma_at_split(d, p, a + b, c);
    lemma_at_split(d, p, a, b);
    lemma_rd_string(d, p, t.name);
    lemma_rd_u32(d, p + a.len(), t.dimensions.len() as u32);
    assert(t.dimensions.take(t.dimensions.len() as int) =~= t.dimensions);
    lemma_dims_roundtrip(d, p + a.len() + b.len(), t.dimensions, t.dimensions.len() as int);
    lemma_rd_u32(d, p + a.len() + b.len() + c.len(), ggml_code(t.ggml_type));
    lemma_ggml_code_roundtrip(t.ggml_type);
    lemma_rd_u64(d, p + a.len() + b.len() + c.len() + e.len(), t.offset);
}

proof fn lemma_tensors_roundtrip(d: Seq<u8>, p: int, ts: Seq<TensorModel>, n: int)
    requires
        0 <= n <= ts.len(),
        forall|i: int|
            0 <= i < ts.len() ==> (#[trigger] ts[i]).dimensions.len() <= u32::MAX && encode_utf8(
                ts[i].name,
            ).len() <= u64::MAX,
        at(d, p, ser_tensors(ts.take(n))),
    ensures
        rd_tensors(d, p, n as nat) == Some((ts.take(n), p + ser_tensors(ts.take(n)).len())),
    decreases n,
{
    if n == 0 {
        assert(ts.take(0) =~= Seq::<TensorModel>::empty());
    } else {
        let pre = ts.take(n - 1);
        assert(ts.take(n).drop_last() =~= pre);
        assert(ts.take(n).last() == ts[n - 1]);
        lemma_at_split(d, p, ser_tensors(pre), ser_tensor(ts[n - 1]));
        lemma_tensors_roundtrip(d, p, ts, n - 1);
        lemma_tensor_roundtrip(d, p + ser_tensors(pre).len(), ts[n - 1]);
        assert(pre.push(ts[n - 1]) =~= ts.take(n));
    }
}

proof fn lemma_header_roundtrip(d: Seq<u8>, h: GgufHeader)
    requires
        at(d, 0, ser_header(h)),
        h.magic == GGUF_MAGIC,
        h.version == GGUF_VERSION_2 || h.version == GGUF_VERSION_3,
    ensures
        header_ok(d, h),
{
    let h1 = u32_le(h.magic);
    let h2 = u32_le(h.version);
    let h3 = u64_le(h.tensor_count);
    let h4 = u64_le(h.metadata_kv_count);
    lemma_at_split(d, 0, h1 + h2 + h3, h4);
    lemma_at_split(d, 0, h1 + h2, h3);
    lemma_at_split(d, 0, h1, h2);
    lemma_rd_u32(d, 0, h.magic);
    lemma_rd_u32(d, 4, h.version);
    lemma_rd_u64(d, 8, h.tensor_count);
    lemma_rd_u64(d, 16, h.metadata_kv_count);
}

/// Writing a well-formed file and parsing the bytes gives the same header, metadata
/// and tensors back, with the data offset at the end of the written bytes rounded
/// up to a multiple of 32.
#[verifier::rlimit(80)]
pub proof fn lemma_write_parse_roundtrip(f: GgufFileModel)
    requires
        file_wf(f),
    ensures
        ser_file(f) is Some,
        spec_parse(ser_file(f)->0) == Some(
            GgufFileModel { data_offset: align32(ser_file(f)->0.len() as int) as u64, ..f },
        ),
{
    let m = f.metadata;
    let ts = f.tensors;
    assert(m.take(m.len() as int) =~= m);
    assert(ts.take(ts.len() as int) =~= ts);
    let h = ser_header(f.header);
    let mb = ser_meta(m)->0;
    let tb = ser_tensors(ts);
    let d = h + mb + tb;
    lemma_meta_roundtrip(d, 24, m, m.len() as int);
    assert(ser_file(f) == Some(d));
    assert(at(d, 0, d)) by {
        assert(d.subrange(0, d.len() as int) =~= d);
    }
    lemma_at_split(d, 0, h + mb, tb);
    lemma_at_split(d, 0, h, mb);
    lemma_header_roundtrip(d, f.header);
    lemma_tensors_roundtrip(d, 24 + mb.len() as int, ts, ts.len() as int);
    lemma_parse_ok(d, f.header, m, 24 + mb.len() as int, ts, d.len() as int);
}

/// An entry the writer can emit again: a key whose encoding length fits and a
/// well-formed value.
pub open spec fn entry_wf(e: (Seq<char>, GgufValueModel)) -> bool {
    value_wf(e.1) && encode_utf8(e.0).len() <= u64::MAX
}

proof fn lemma_rd_meta_wf(d: Seq<u8>, p: int, n: nat)
    ensures
        rd_meta(d, p, n) matches Some((m, _)) ==> sorted_keys(m) && forall|i: int|
            0 <= i < m.len() ==> entry_wf(#[trigger] m[i]),
    decreases n,
{
    if n > 0 {
        lemma_rd_meta_wf(d, p, (n - 1) as nat);
        if let Some((m, q)) = rd_meta(d, p, (n - 1) as nat) {
            if let Some((k, q1)) = rd_string(d, q) {
                if let Some((v, q2)) = rd_value(d, q1) {
                    lemma_rd_string_len(d, q);
                    lemma_rd_value_wf(d, q1);
                    lemma_meta_insert_sorted(m, k, v);
                    let r = meta_insert(m, k, v);
                    assert forall|i: int| 0 <= i < r.len() implies entry_wf(#[trigger] r[i]) by {
                        if r[i] != (k, v) {
                            let j = choose|j: int| 0 <= j < m.len() && m[j] == r[i];
                            assert(entry_wf(m[j]));
                        }
                    }
                }
            }
        }
    }
}

proof fn lemma_rd_dims_len(d: Seq<u8>, p: int, n: nat)
    ensures
        rd_dims(d, p, n) matches Some((dims, _)) ==> dims.len() == n,
    decreases n,
{
    if n > 0 {
        lemma_rd_dims_len(d, p, (n - 1) as nat);
    }
}

proof fn lemma_rd_tensors_wf(d: Seq<u8>, p: int, n: nat)
    ensures
        rd_tensors(d, p, n) matches Some((ts, _)) ==> ts.len() == n && forall|i: int|
            0 <= i < ts.len() ==> (#[trigger] ts[i]).dimensions.len() <= u32::MAX && encode_utf8(ts[i].name).len()
                <= u64::MAX,
    decreases n,
{
    if n > 0 {
        lemma_rd_tensors_wf(d, p, (n - 1) as nat);
        if let Some((s, q)) = rd_tensors(d, p, (n - 1) as nat) {
            lemma_rd_string_len(d, q);
            if let Some((name, q1)) = rd_string(d, q) {
                if let Some((nd, q2)) = rd_u32(d, q1) {
                    lemma_rd_dims_len(d, q2, nd as nat);
                }
            }
        }
    }
}

/// A parsed file whose metadata count is the number of distinct keys it holds
/// (no key repeated) is one the writer emits again: writing it and parsing the bytes
/// gives back the same header, metadata and tensors.
pub proof fn lemma_parsed_file_wf(data: Seq<u8>)
    ensures
        spec_parse(data) matches Some(f) ==> (f.header.metadata_kv_count == f.metadata.len() ==> {
            &&& file_wf(f)
            &&& ser_file(f) is Some
            &&& spec_parse(ser_file(f)->0) == Some(
                GgufFileModel { data_offset: align32(ser_file(f)->0.len() as int) as u64, ..f },
            )
        }),
{
    reveal(spec_parse);
    if let Some(f) = spec_parse(data) {
        let mc = f.header.metadata_kv_count;
        let tc = f.header.tensor_count;
        lemma_rd_meta_wf(data, 24, mc as nat);
        if let Some((m, p)) = rd_meta(data, 24, mc as nat) {
            lemma_rd_tensors_wf(data, p, tc as nat);
        }
        if f.header.metadata_kv_count == f.metadata.len() {
            assert forall|i: int| 0 <= i < f.metadata.len() implies value_wf(#[trigger] f.metadata[i].1)
                && encode_utf8(f.metadata[i].0).len() <= u64::MAX by {
                assert(entry_wf(f.metadata[i]));
            }
            assert(file_wf(f));
            lemma_write_parse_roundtrip(f);
        }
    }
}

} // verus!
