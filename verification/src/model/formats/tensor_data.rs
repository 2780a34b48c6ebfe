//! A memory-mapped GGUF model: the parsed file together with the bytes of the
//! whole file as mapped into memory by the caller, from which tensor data is handed
//! out as slices, without copying.
use vstd::prelude::*;
use crate::error::FuseError;
use crate::model::formats::ggml::{
    div_ceil, lemma_product_nonneg, product, product_fits, spec_block_size, spec_bytes_per_block, tensor_bytes,
    GgufTensorInfo,
};
use crate::model::formats::gguf::GgufFile;
use crate::text;

verus! {

/// A parsed GGUF file, where it was read from, and the length of the file.
pub struct MmapModel {
    pub gguf: GgufFile,
    pub path: String,
    pub file_len: usize,
}

/// The tensor's data fits the arithmetic: its element count and byte range do not
/// overflow.
pub open spec fn range_fits(gguf: GgufFile, tensor: GgufTensorInfo) -> bool {
    &&& product_fits(tensor.dimensions@)
    &&& gguf.data_offset + tensor.offset + tensor_bytes(product(tensor.dimensions@), tensor.ggml_type)
        <= usize::MAX
    &&& gguf.data_offset + tensor.offset + tensor_bytes(product(tensor.dimensions@), tensor.ggml_type)
        <= u64::MAX
}

/// Where the tensor's data starts in the file.
pub open spec fn data_start(gguf: GgufFile, tensor: GgufTensorInfo) -> int {
    gguf.data_offset + tensor.offset
}

/// Where the tensor's data ends in the file.
pub open spec fn data_end(gguf: GgufFile, tensor: GgufTensorInfo) -> int {
    gguf.data_offset + tensor.offset + tensor_bytes(product(tensor.dimensions@), tensor.ggml_type)
}

/// The first tensor of a name, if any.
pub open spec fn first_named(ts: Seq<GgufTensorInfo>, name: Seq<char>) -> Option<int> {
    if exists|i: int| 0 <= i < ts.len() && ts[i].name@ == name {
        Some(
            choose|i: int|
                0 <= i < ts.len() && ts[i].name@ == name && forall|j: int| 0 <= j < i ==> ts[j].name@ != name,
        )
    } else {
        None
    }
}

proof fn lemma_first_named(ts: Seq<GgufTensorInfo>, name: Seq<char>, i: int)
    requires
        0 <= i < ts.len(),
        ts[i].name@ == name,
        forall|j: int| 0 <= j < i ==> ts[j].name@ != name,
    ensures
        first_named(ts, name) == Some(i),
{
    let w = choose|k: int|
        0 <= k < ts.len() && ts[k].name@ == name && forall|j: int| 0 <= j < k ==> ts[j].name@ != name;
    assert(0 <= i < ts.len() && ts[i].name@ == name && forall|j: int| 0 <= j < i ==> ts[j].name@ != name);
    if w < i {
    } else if w > i {
    }
}

/// The number of elements of a tensor of these dimensions, where no running product
/// overflows.
fn checked_elements(dims: &Vec<u64>) -> (r: Option<u64>)
    ensures
        match r {
            Some(n) => product_fits(dims@) && n == product(dims@),
            None => !product_fits(dims@),
        },
{
    let mut acc: u64 = 1;
    let mut i: usize = 0;
    assert(dims@.take(0) =~= Seq::<u64>::empty());
    while i < dims.len()
        invariant
            i <= dims@.len(),
            acc == product(dims@.take(i as int)),
            forall|k: int| 0 <= k <= i ==> #[trigger] product(dims@.take(k)) <= u64::MAX,
        decreases dims.len() - i,
    {
        let ghost nxt = dims@.take(i + 1);
        assert(nxt.drop_last() =~= dims@.take(i as int));
        assert(nxt.take(i as int) =~= dims@.take(i as int));
        match acc.checked_mul(dims[i]) {
            Some(p) => {
                proof {
                    assert forall|k: int| 0 <= k <= i + 1 implies #[trigger] product(dims@.take(k)) <= u64::MAX by {
                        if k == i + 1 {
                            assert(product(nxt) == acc * dims@[i as int]);
                        }
                    }
                }
                acc = p;
            },
            None => {
                proof {
                    assert(product(dims@.take(i + 1)) > u64::MAX);
                }
                return None;
            },
        }
        i = i + 1;
    }
    assert(dims@.take(dims@.len() as int) =~= dims@);
    Some(acc)
}

/// Whether a tensor's byte range can be computed without overflow: the test that
/// `MmapModel::tensor_data` asks its callers for.
pub fn range_fits_exec(gguf: &GgufFile, tensor: &GgufTensorInfo) -> (r: bool)
    ensures
        r == range_fits(*gguf, *tensor),
{
    let n = match checked_elements(&tensor.dimensions) {
        Some(n) => n,
        None => return false,
    };
    let bs = tensor.ggml_type.block_size();
    let bpb = tensor.ggml_type.bytes_per_block();
    let q: u64 = n / (bs as u64);
    let rem: u64 = n % (bs as u64);
    let blocks: u64 = if rem == 0 {
        q
    } else {
        assert(q < u64::MAX) by (nonlinear_arith)
            requires
                q == n / (bs as u64),
                n % (bs as u64) != 0,
                bs >= 1,
        ;
        q + 1
    };
    proof {
        let ni = n as int;
        let b = bs as int;
        assert(blocks == div_ceil(ni, b)) by (nonlinear_arith)
            requires
                b >= 1,
                ni >= 0,
                blocks == ni / b + if ni % b == 0 { 0int } else { 1int },
        ;
        lemma_product_nonneg(tensor.dimensions@);
    }
    let size = match blocks.checked_mul(bpb as u64) {
        Some(x) => x,
        None => return false,
    };
    assert(size == tensor_bytes(product(tensor.dimensions@), tensor.ggml_type));
    let start = match gguf.data_offset.checked_add(tensor.offset) {
        Some(x) => x,
        None => return false,
    };
    let end = match start.checked_add(size) {
        Some(x) => x,
        None => return false,
    };
    end as u128 <= usize::MAX as u128
}

impl MmapModel {
    /// The index of the first tensor of a name.
    fn find_tensor(&self, name: &str) -> (r: Option<usize>)
        ensures
            match r {
                Some(i) => first_named(self.gguf.tensors@, name@) == Some(i as int) && i
                    < self.gguf.tensors@.len(),
                None => first_named(self.gguf.tensors@, name@) is None,
            },
    {
        let mut i: usize = 0;
        while i < self.gguf.tensors.len()
            invariant
                i <= self.gguf.tensors@.len(),
                forall|j: int| 0 <= j < i ==> #[trigger] self.gguf.tensors@[j].name@ != name@,
            decreases self.gguf.tensors.len() - i,
        {
            if text::str_eq(self.gguf.tensors[i].name.as_str(), name) {
                proof {
                    lemma_first_named(self.gguf.tensors@, name@, i as int);
                }
                return Some(i);
            }
            i = i + 1;
        }
        None
    }

    /// A model read from `path`, whose file is `file_len` bytes long.
    pub fn new(gguf: GgufFile, path: &str, file_len: usize) -> (r: MmapModel)
        ensures
            r.gguf == gguf,
            r.path@ == path@,
            r.file_len == file_len,
    {
        MmapModel { gguf, path: text::owned(path), file_len }
    }

    /// The file's size in bytes.
    pub fn file_size(&self) -> (r: u64)
        ensures
            r == self.file_len,
    {
        self.file_len as u64
    }

    /// The number of tensors in the model.
    pub fn tensor_count(&self) -> (r: usize)
        ensures
            r == self.gguf.tensors@.len(),
    {
        self.gguf.tensors.len()
    }

    /// The tensor of a name (the first, if several share it); a missing name is an
    /// internal error.
    pub fn tensor_by_name(&self, name: &str) -> (r: Result<&GgufTensorInfo, FuseError>)
        ensures
            match r {
                Ok(t) => exists|i: int|
                    0 <= i < self.gguf.tensors@.len() && self.gguf.tensors@[i] == *t && t.name@ == name@
                        && forall|j: int| 0 <= j < i ==> #[trigger] self.gguf.tensors@[j].name@ != name@,
                Err(e) => (forall|j: int|
                    0 <= j < self.gguf.tensors@.len() ==> #[trigger] self.gguf.tensors@[j].name@ != name@)
                    && (e matches FuseError::InternalError(m) && m@ == "Tensor not found: "@ + name@),
            },
    {
        let mut i: usize = 0;
        while i < self.gguf.tensors.len()
            invariant
                i <= self.gguf.tensors@.len(),
                forall|j: int| 0 <= j < i ==> #[trigger] self.gguf.tensors@[j].name@ != name@,
            decreases self.gguf.tensors.len() - i,
        {
            if text::str_eq(self.gguf.tensors[i].name.as_str(), name) {
                return Ok(&self.gguf.tensors[i]);
            }
            i = i + 1;
        }
        Err(FuseError::InternalError(text::concat2("Tensor not found: ", name)))
    }

    /// Where a tensor's data lies in the file: from the data section's start plus the
    /// tensor's offset, for the tensor's size. A range that runs past the end of a
    /// file of `self.file_len` bytes is an internal error.
    pub fn tensor_range(&self, tensor: &GgufTensorInfo) -> (r: Result<
        (usize, usize),
        FuseError,
    >)
        requires
            product_fits(tensor.dimensions@),
            self.gguf.data_offset + tensor.offset + tensor_bytes(
                product(tensor.dimensions@),
                tensor.ggml_type,
            ) <= usize::MAX,
            self.gguf.data_offset + tensor.offset + tensor_bytes(
                product(tensor.dimensions@),
                tensor.ggml_type,
            ) <= u64::MAX,
        ensures
            ({
                let start = self.gguf.data_offset + tensor.offset;
                let end = start + tensor_bytes(product(tensor.dimensions@), tensor.ggml_type);
                if end <= self.file_len {
                    r == Ok::<(usize, usize), FuseError>((start as usize, end as usize))
                } else {
                    r matches Err(FuseError::InternalError(m)) && m@ == "Tensor '"@ + tensor.name@
                        + "' extends beyond file: offset="@ + text::decimal(start as nat)
                        + ", size="@ + text::decimal(
                        tensor_bytes(product(tensor.dimensions@), tensor.ggml_type) as nat,
                    ) + ", file_size="@ + text::decimal(self.file_len as nat)
                }
            }),
    {
        let size: u64 = tensor.size_bytes();
        let start: u64 = self.gguf.data_offset + tensor.offset;
        let end: u64 = start + size;
        if end > self.file_len as u64 {
            let a = text::u64_to_decimal(start);
            let b = text::u64_to_decimal(size);
            let c = text::u64_to_decimal(self.file_len as u64);
            let mut m = text::concat3("Tensor '", tensor.name.as_str(), "' extends beyond file: offset=");
            m.append(a.as_str());
            m.append(", size=");
            m.append(b.as_str());
            m.append(", file_size=");
            m.append(c.as_str());
            return Err(FuseError::InternalError(m));
        }
        Ok((start as usize, end as usize))
    }


    /// A tensor's bytes within the mapped file (the caller's mapping of the whole
    /// file): from the data section's start plus the tensor's offset, for the
    /// tensor's size; a tensor that runs past the end of the file is an internal
    /// error.
    pub fn tensor_data<'a>(&self, mapped: &'a [u8], tensor: &GgufTensorInfo) -> (r: Result<
        &'a [u8],
        FuseError,
    >)
        requires
            mapped@.len() == self.file_len,
            range_fits(self.gguf, *tensor),
        ensures
            data_end(self.gguf, *tensor) <= self.file_len ==> (r matches Ok(d) && d@ == mapped@.subrange(
                data_start(self.gguf, *tensor),
                data_end(self.gguf, *tensor),
            )),
            data_end(self.gguf, *tensor) > self.file_len ==> r is Err,
            r matches Err(e) ==> e is InternalError,
    {
        let ghost st = data_start(self.gguf, *tensor);
        let ghost en = data_end(self.gguf, *tensor);
        proof {
            lemma_product_nonneg(tensor.dimensions@);
            let n = product(tensor.dimensions@);
            let b = spec_block_size(tensor.ggml_type) as int;
            let p = spec_bytes_per_block(tensor.ggml_type) as int;
            assert(b >= 1);
            assert(div_ceil(n, b) * p >= 0) by (nonlinear_arith)
                requires
                    n >= 0,
                    b >= 1,
                    p >= 0,
            ;
            assert(0 <= st <= en);
        }
        match self.tensor_range(tensor) {
            Ok((start, end)) => {
                assert(en <= self.file_len);
                assert(start as int == st && end as int == en);
                Ok(vstd::slice::slice_subrange(mapped, start, end))
            },
            Err(e) => Err(e),
        }
    }

    /// The bytes of the first tensor of a name; a missing name or a tensor past the
    /// end of the file is an internal error.
    pub fn tensor_data_by_name<'a>(&self, mapped: &'a [u8], name: &str) -> (r: Result<&'a [u8], FuseError>)
        requires
            mapped@.len() == self.file_len,
            first_named(self.gguf.tensors@, name@) matches Some(i) ==> range_fits(
                self.gguf,
                self.gguf.tensors@[i],
            ),
        ensures
            match first_named(self.gguf.tensors@, name@) {
                Some(i) => {
                    let t = self.gguf.tensors@[i];
                    &&& data_end(self.gguf, t) <= self.file_len ==> (r matches Ok(d) && d@
                        == mapped@.subrange(data_start(self.gguf, t), data_end(self.gguf, t)))
                    &&& data_end(self.gguf, t) > self.file_len ==> r is Err
                },
                None => r matches Err(FuseError::InternalError(m)) && m@ == "Tensor not found: "@ + name@,
            },
            r matches Err(e) ==> e is InternalError,
    {
        match self.find_tensor(name) {
            Some(i) => self.tensor_data(mapped, &self.gguf.tensors[i]),
            None => Err(FuseError::InternalError(text::concat2("Tensor not found: ", name))),
        }
    }
}

} // verus!
