//! GGML tensor element types and tensor descriptors.
use vstd::prelude::*;
use crate::error::FuseError;
use crate::text;

verus! {

/// GGUF quantization types.
#[derive(Debug, Clone, Copy, PartialEq, Eq, Structural)]
pub enum GgmlType {
    F32,
    F16,
    Q4_0,
    Q4_1,
    Q5_0,
    Q5_1,
    Q8_0,
    Q8_1,
    Q2K,
    Q3K,
    Q4K,
    Q5K,
    Q6K,
    Q8K,
    Iq2Xxs,
    Iq2Xs,
    Iq3Xxs,
    Iq1S,
    Iq4Nl,
    Iq3S,
    Iq2S,
    Iq4Xs,
    I8,
    I16,
    I32,
    I64,
    F64,
    Iq1M,
}

/// The type with a given on-disk code, if any.
pub open spec fn ggml_from_code(v: u32) -> Option<GgmlType> {
    match v {
        0 => Some(GgmlType::F32),
        1 => Some(GgmlType::F16),
        2 => Some(GgmlType::Q4_0),
        3 => Some(GgmlType::Q4_1),
        6 => Some(GgmlType::Q5_0),
        7 => Some(GgmlType::Q5_1),
        8 => Some(GgmlType::Q8_0),
        9 => Some(GgmlType::Q8_1),
        10 => Some(GgmlType::Q2K),
        11 => Some(GgmlType::Q3K),
        12 => Some(GgmlType::Q4K),
        13 => Some(GgmlType::Q5K),
        14 => Some(GgmlType::Q6K),
        15 => Some(GgmlType::Q8K),
        16 => Some(GgmlType::Iq2Xxs),
        17 => Some(GgmlType::Iq2Xs),
        18 => Some(GgmlType::Iq3Xxs),
        19 => Some(GgmlType::Iq1S),
        20 => Some(GgmlType::Iq4Nl),
        21 => Some(GgmlType::Iq3S),
        22 => Some(GgmlType::Iq2S),
        23 => Some(GgmlType::Iq4Xs),
        24 => Some(GgmlType::I8),
        25 => Some(GgmlType::I16),
        26 => Some(GgmlType::I32),
        27 => Some(GgmlType::I64),
        28 => Some(GgmlType::F64),
        29 => Some(GgmlType::Iq1M),
        _ => None,
    }
}

/// The on-disk code of a type.
pub open spec fn ggml_code(t: GgmlType) -> u32 {
    match t {
        GgmlType::F32 => 0,
        GgmlType::F16 => 1,
        GgmlType::Q4_0 => 2,
        GgmlType::Q4_1 => 3,
        GgmlType::Q5_0 => 6,
        GgmlType::Q5_1 => 7,
        GgmlType::Q8_0 => 8,
        GgmlType::Q8_1 => 9,
        GgmlType::Q2K => 10,
        GgmlType::Q3K => 11,
        GgmlType::Q4K => 12,
        GgmlType::Q5K => 13,
        GgmlType::Q6K => 14,
        GgmlType::Q8K => 15,
        GgmlType::Iq2Xxs => 16,
        GgmlType::Iq2Xs => 17,
        GgmlType::Iq3Xxs => 18,
        GgmlType::Iq1S => 19,
        GgmlType::Iq4Nl => 20,
        GgmlType::Iq3S => 21,
        GgmlType::Iq2S => 22,
        GgmlType::Iq4Xs => 23,
        GgmlType::I8 => 24,
        GgmlType::I16 => 25,
        GgmlType::I32 => 26,
        GgmlType::I64 => 27,
        GgmlType::F64 => 28,
        GgmlType::Iq1M => 29,
    }
}

pub open spec fn spec_element_size(t: GgmlType) -> Option<usize> {
    match t {
        GgmlType::F32 => Some(4),
        GgmlType::F16 => Some(2),
        GgmlType::F64 => Some(8),
        GgmlType::I8 => Some(1),
        GgmlType::I16 => Some(2),
        GgmlType::I32 => Some(4),
        GgmlType::I64 => Some(8),
        _ => None,
    }
}

pub open spec fn spec_block_size(t: GgmlType) -> usize {
    match t {
        GgmlType::F32 | GgmlType::F16 | GgmlType::F64 => 1,
        GgmlType::I8 | GgmlType::I16 | GgmlType::I32 | GgmlType::I64 => 1,
        GgmlType::Q4_0 | GgmlType::Q4_1 => 32,
        GgmlType::Q5_0 | GgmlType::Q5_1 => 32,
        GgmlType::Q8_0 | GgmlType::Q8_1 => 32,
        GgmlType::Q2K | GgmlType::Q3K | GgmlType::Q4K | GgmlType::Q5K | GgmlType::Q6K
        | GgmlType::Q8K => 256,
        _ => 32,
    }
}

pub open spec fn spec_bytes_per_block(t: GgmlType) -> usize {
    match t {
        GgmlType::F32 => 4,
        GgmlType::F16 => 2,
        GgmlType::F64 => 8,
        GgmlType::I8 => 1,
        GgmlType::I16 => 2,
        GgmlType::I32 => 4,
        GgmlType::I64 => 8,
        GgmlType::Q4_0 => 18,
        GgmlType::Q4_1 => 20,
        GgmlType::Q5_0 => 22,
        GgmlType::Q5_1 => 24,
        GgmlType::Q8_0 => 34,
        GgmlType::Q8_1 => 36,
        GgmlType::Q2K => 84,
        GgmlType::Q3K => 110,
        GgmlType::Q4K => 144,
        GgmlType::Q5K => 176,
        GgmlType::Q6K => 210,
        GgmlType::Q8K => 292,
        _ => 34,
    }
}

/// Reading a type's code back gives the type.
pub proof fn lemma_ggml_code_roundtrip(t: GgmlType)
    ensures
        ggml_from_code(ggml_code(t)) == Some(t),
{
}

impl GgmlType {
    /// The type with on-disk code `v`; an unknown code is an internal error.
    pub fn from_u32(v: u32) -> (r: Result<GgmlType, FuseError>)
        ensures
            match r {
                Ok(t) => ggml_from_code(v) == Some(t),
                Err(e) => ggml_from_code(v) is None && e is InternalError,
            },
    {
        match v {
            0 => Ok(GgmlType::F32),
            1 => Ok(GgmlType::F16),
            2 => Ok(GgmlType::Q4_0),
            3 => Ok(GgmlType::Q4_1),
            6 => Ok(GgmlType::Q5_0),
            7 => Ok(GgmlType::Q5_1),
            8 => Ok(GgmlType::Q8_0),
            9 => Ok(GgmlType::Q8_1),
            10 => Ok(GgmlType::Q2K),
            11 => Ok(GgmlType::Q3K),
            12 => Ok(GgmlType::Q4K),
            13 => Ok(GgmlType::Q5K),
            14 => Ok(GgmlType::Q6K),
            15 => Ok(GgmlType::Q8K),
            16 => Ok(GgmlType::Iq2Xxs),
            17 => Ok(GgmlType::Iq2Xs),
            18 => Ok(GgmlType::Iq3Xxs),
            19 => Ok(GgmlType::Iq1S),
            20 => Ok(GgmlType::Iq4Nl),
            21 => Ok(GgmlType::Iq3S),
            22 => Ok(GgmlType::Iq2S),
            23 => Ok(GgmlType::Iq4Xs),
            24 => Ok(GgmlType::I8),
            25 => Ok(GgmlType::I16),
            26 => Ok(GgmlType::I32),
            27 => Ok(GgmlType::I64),
            28 => Ok(GgmlType::F64),
            29 => Ok(GgmlType::Iq1M),
            _ => {
                let msg = text::concat2("Unknown GGML type: ", text::u64_to_decimal(v as u64).as_str());
                Err(FuseError::InternalError(msg))
            },
        }
    }

    /// The on-disk code of this type.
    pub fn code(&self) -> (r: u32)
        ensures
            r == ggml_code(*self),
    {
        match self {
            GgmlType::F32 => 0,
            GgmlType::F16 => 1,
            GgmlType::Q4_0 => 2,
            GgmlType::Q4_1 => 3,
            GgmlType::Q5_0 => 6,
            GgmlType::Q5_1 => 7,
            GgmlType::Q8_0 => 8,
            GgmlType::Q8_1 => 9,
            GgmlType::Q2K => 10,
            GgmlType::Q3K => 11,
            GgmlType::Q4K => 12,
            GgmlType::Q5K => 13,
            GgmlType::Q6K => 14,
            GgmlType::Q8K => 15,
            GgmlType::Iq2Xxs => 16,
            GgmlType::Iq2Xs => 17,
            GgmlType::Iq3Xxs => 18,
            GgmlType::Iq1S => 19,
            GgmlType::Iq4Nl => 20,
            GgmlType::Iq3S => 21,
            GgmlType::Iq2S => 22,
            GgmlType::Iq4Xs => 23,
            GgmlType::I8 => 24,
            GgmlType::I16 => 25,
            GgmlType::I32 => 26,
            GgmlType::I64 => 27,
            GgmlType::F64 => 28,
            GgmlType::Iq1M => 29,
        }
    }

    /// Size in bytes per element, for the non-quantized types.
    pub fn element_size(&self) -> (r: Option<usize>)
        ensures
            r == spec_element_size(*self),
    {
        match self {
            GgmlType::F32 => Some(4),
            GgmlType::F16 => Some(2),
            GgmlType::F64 => Some(8),
            GgmlType::I8 => Some(1),
            GgmlType::I16 => Some(2),
            GgmlType::I32 => Some(4),
            GgmlType::I64 => Some(8),
            _ => None,
        }
    }

    /// Number of elements per block.
    pub fn block_size(&self) -> (r: usize)
        ensures
            r == spec_block_size(*self),
            r >= 1,
    {
        match self {
            GgmlType::F32 | GgmlType::F16 | GgmlType::F64 => 1,
            GgmlType::I8 | GgmlType::I16 | GgmlType::I32 | GgmlType::I64 => 1,
            GgmlType::Q4_0 | GgmlType::Q4_1 => 32,
            GgmlType::Q5_0 | GgmlType::Q5_1 => 32,
            GgmlType::Q8_0 | GgmlType::Q8_1 => 32,
            GgmlType::Q2K | GgmlType::Q3K | GgmlType::Q4K | GgmlType::Q5K | GgmlType::Q6K
            | GgmlType::Q8K => 256,
            _ => 32,
        }
    }

    /// Bytes per block.
    pub fn bytes_per_block(&self) -> (r: usize)
        ensures
            r == spec_bytes_per_block(*self),
            1 <= r <= 292,
    {
        match self {
            GgmlType::F32 => 4,
            GgmlType::F16 => 2,
            GgmlType::F64 => 8,
            GgmlType::I8 => 1,
            GgmlType::I16 => 2,
            GgmlType::I32 => 4,
            GgmlType::I64 => 8,
            GgmlType::Q4_0 => 18,
            GgmlType::Q4_1 => 20,
            GgmlType::Q5_0 => 22,
            GgmlType::Q5_1 => 24,
            GgmlType::Q8_0 => 34,
            GgmlType::Q8_1 => 36,
            GgmlType::Q2K => 84,
            GgmlType::Q3K => 110,
            GgmlType::Q4K => 144,
            GgmlType::Q5K => 176,
            GgmlType::Q6K => 210,
            GgmlType::Q8K => 292,
            _ => 34,
        }
    }
}

/// Product of a sequence of dimensions.
pub open spec fn product(dims: Seq<u64>) -> int
    decreases dims.len(),
{
    if dims.len() == 0 {
        1
    } else {
        product(dims.drop_last()) * dims.last()
    }
}

/// Every running product of the dimensions, left to right, fits in a `u64`
/// (the multiplication never overflows).
pub open spec fn product_fits(dims: Seq<u64>) -> bool {
    forall|k: int| 0 <= k <= dims.len() ==> #[trigger] product(dims.take(k)) <= u64::MAX
}

/// Ceiling of `n / d` for `d > 0`.
pub open spec fn div_ceil(n: int, d: int) -> int {
    (n + d - 1) / d
}

/// Bytes a tensor of `n` elements of type `t` occupies: whole blocks.
pub open spec fn tensor_bytes(n: int, t: GgmlType) -> int {
    div_ceil(n, spec_block_size(t) as int) * spec_bytes_per_block(t)
}

/// The storage rate of each type, in whole blocks: a tensor whose element count
/// is a whole number of blocks takes exactly its elements times the type's bits
/// per weight. Unquantized types take 1, 2, 4 or 8 bytes per element; the legacy
/// quantizations pack 32 elements per block (Q4_0: 4.5 bits per weight, Q4_1: 5,
/// Q5_0: 5.5, Q5_1: 6, Q8_0: 8.5, Q8_1: 9) and the K-quantizations 256 (Q2_K:
/// 2.625, Q3_K: 3.4375, Q4_K: 4.5, Q5_K: 5.5, Q6_K: 6.5625, Q8_K: 9.125).
pub proof fn lemma_bits_per_weight(n: int)
    requires
        n >= 0,
    ensures
        tensor_bytes(n, GgmlType::F32) == 4 * n,
        tensor_bytes(n, GgmlType::F16) == 2 * n,
        tensor_bytes(n, GgmlType::F64) == 8 * n,
        tensor_bytes(n, GgmlType::I8) == n,
        tensor_bytes(n, GgmlType::I16) == 2 * n,
        tensor_bytes(n, GgmlType::I32) == 4 * n,
        tensor_bytes(n, GgmlType::I64) == 8 * n,
        n % 32 == 0 ==> tensor_bytes(n, GgmlType::Q4_0) * 16 == n * 9,
        n % 32 == 0 ==> tensor_bytes(n, GgmlType::Q4_1) * 8 == n * 5,
        n % 32 == 0 ==> tensor_bytes(n, GgmlType::Q5_0) * 16 == n * 11,
        n % 32 == 0 ==> tensor_bytes(n, GgmlType::Q5_1) * 4 == n * 3,
        n % 32 == 0 ==> tensor_bytes(n, GgmlType::Q8_0) * 16 == n * 17,
        n % 32 == 0 ==> tensor_bytes(n, GgmlType::Q8_1) * 8 == n * 9,
        n % 256 == 0 ==> tensor_bytes(n, GgmlType::Q2K) * 64 == n * 21,
        n % 256 == 0 ==> tensor_bytes(n, GgmlType::Q3K) * 128 == n * 55,
        n % 256 == 0 ==> tensor_bytes(n, GgmlType::Q4K) * 16 == n * 9,
        n % 256 == 0 ==> tensor_bytes(n, GgmlType::Q5K) * 16 == n * 11,
        n % 256 == 0 ==> tensor_bytes(n, GgmlType::Q6K) * 128 == n * 105,
        n % 256 == 0 ==> tensor_bytes(n, GgmlType::Q8K) * 64 == n * 73,
{
    lemma_whole_blocks(n, 1);
    assert(div_ceil(n, 1) == n);
    assert(tensor_bytes(n, GgmlType::F64) == div_ceil(n, 1) * 8);
    assert(tensor_bytes(n, GgmlType::I8) == div_ceil(n, 1) * 1);
    assert(tensor_bytes(n, GgmlType::I16) == div_ceil(n, 1) * 2);
    assert(tensor_bytes(n, GgmlType::I32) == div_ceil(n, 1) * 4);
    assert(tensor_bytes(n, GgmlType::I64) == div_ceil(n, 1) * 8);
    if n % 32 == 0 {
        lemma_legacy_rates(n);
    }
    if n % 256 == 0 {
        lemma_k_rates(n);
    }
}

proof fn lemma_legacy_rates(n: int)
    requires
        n >= 0,
        n % 32 == 0,
    ensures
        tensor_bytes(n, GgmlType::Q4_0) * 16 == n * 9,
        tensor_bytes(n, GgmlType::Q4_1) * 8 == n * 5,
        tensor_bytes(n, GgmlType::Q5_0) * 16 == n * 11,
        tensor_bytes(n, GgmlType::Q5_1) * 4 == n * 3,
        tensor_bytes(n, GgmlType::Q8_0) * 16 == n * 17,
        tensor_bytes(n, GgmlType::Q8_1) * 8 == n * 9,
{
    lemma_whole_blocks(n, 32);
    let k = n / 32;
    assert(n == 32 * k);
    assert(tensor_bytes(n, GgmlType::Q4_0) == k * 18);
    assert(tensor_bytes(n, GgmlType::Q4_1) == k * 20);
    assert(tensor_bytes(n, GgmlType::Q5_0) == k * 22);
    assert(tensor_bytes(n, GgmlType::Q5_1) == k * 24);
    assert(tensor_bytes(n, GgmlType::Q8_0) == k * 34);
    assert(tensor_bytes(n, GgmlType::Q8_1) == k * 36);
}

proof fn lemma_k_rates(n: int)
    requires
        n >= 0,
        n % 256 == 0,
    ensures
        tensor_bytes(n, GgmlType::Q2K) * 64 == n * 21,
        tensor_bytes(n, GgmlType::Q3K) * 128 == n * 55,
        tensor_bytes(n, GgmlType::Q4K) * 16 == n * 9,
        tensor_bytes(n, GgmlType::Q5K) * 16 == n * 11,
        tensor_bytes(n, GgmlType::Q6K) * 128 == n * 105,
        tensor_bytes(n, GgmlType::Q8K) * 64 == n * 73,
{
    lemma_whole_blocks(n, 256);
    let k = n / 256;
    assert(n == 256 * k);
    assert(tensor_bytes(n, GgmlType::Q2K) == k * 84);
    assert(tensor_bytes(n, GgmlType::Q3K) == k * 110);
    assert(tensor_bytes(n, GgmlType::Q4K) == k * 144);
    assert(tensor_bytes(n, GgmlType::Q5K) == k * 176);
    assert(tensor_bytes(n, GgmlType::Q6K) == k * 210);
    assert(tensor_bytes(n, GgmlType::Q8K) == k * 292);
}

proof fn lemma_whole_blocks(n: int, b: int)
    requires
        n >= 0,
        b > 0,
        n % b == 0,
    ensures
        div_ceil(n, b) == n / b,
        n == b * (n / b),
{
    assert(n == b * (n / b) + n % b) by (nonlinear_arith)
        requires
            b > 0,
    ;
    assert((n + b - 1) / b == n / b) by (nonlinear_arith)
        requires
            b > 0,
            n >= 0,
            n == b * (n / b),
    ;
}

proof fn lemma_single_block(n: int, b: int)
    requires
        1 <= n <= b,
    ensures
        div_ceil(n, b) == 1,
{
    assert((n + b - 1) / b == 1) by (nonlinear_arith)
        requires
            1 <= n <= b,
    ;
}

/// Storage goes by whole blocks: a nonempty tensor no larger than one block takes
/// one full block, 32 elements for the legacy quantizations and 256 for the
/// K-quantizations.
pub proof fn lemma_one_block(n: int)
    requires
        n >= 1,
    ensures
        n <= 32 ==> tensor_bytes(n, GgmlType::Q4_0) == 18 && tensor_bytes(n, GgmlType::Q4_1) == 20
            && tensor_bytes(n, GgmlType::Q5_0) == 22 && tensor_bytes(n, GgmlType::Q5_1) == 24
            && tensor_bytes(n, GgmlType::Q8_0) == 34 && tensor_bytes(n, GgmlType::Q8_1) == 36,
        n <= 256 ==> tensor_bytes(n, GgmlType::Q2K) == 84 && tensor_bytes(n, GgmlType::Q3K) == 110
            && tensor_bytes(n, GgmlType::Q4K) == 144 && tensor_bytes(n, GgmlType::Q5K) == 176
            && tensor_bytes(n, GgmlType::Q6K) == 210 && tensor_bytes(n, GgmlType::Q8K) == 292,
{
    if n <= 32 {
        lemma_single_block(n, 32);
        assert(tensor_bytes(n, GgmlType::Q4_0) == div_ceil(n, 32) * 18);
        assert(tensor_bytes(n, GgmlType::Q4_1) == div_ceil(n, 32) * 20);
        assert(tensor_bytes(n, GgmlType::Q5_0) == div_ceil(n, 32) * 22);
        assert(tensor_bytes(n, GgmlType::Q5_1) == div_ceil(n, 32) * 24);
        assert(tensor_bytes(n, GgmlType::Q8_0) == div_ceil(n, 32) * 34);
        assert(tensor_bytes(n, GgmlType::Q8_1) == div_ceil(n, 32) * 36);
    }
    if n <= 256 {
        lemma_single_block(n, 256);
        assert(tensor_bytes(n, GgmlType::Q2K) == div_ceil(n, 256) * 84);
        assert(tensor_bytes(n, GgmlType::Q3K) == div_ceil(n, 256) * 110);
        assert(tensor_bytes(n, GgmlType::Q4K) == div_ceil(n, 256) * 144);
        assert(tensor_bytes(n, GgmlType::Q5K) == div_ceil(n, 256) * 176);
        assert(tensor_bytes(n, GgmlType::Q6K) == div_ceil(n, 256) * 210);
        assert(tensor_bytes(n, GgmlType::Q8K) == div_ceil(n, 256) * 292);
    }
}

/// Model of a tensor descriptor.
pub struct TensorModel {
    pub name: Seq<char>,
    pub dimensions: Seq<u64>,
    pub ggml_type: GgmlType,
    pub offset: u64,
}

/// Tensor descriptor within a GGUF file.
#[derive(Debug, Clone)]
pub struct GgufTensorInfo {
    pub name: String,
    pub dimensions: Vec<u64>,
    pub ggml_type: GgmlType,
    pub offset: u64,
}

impl View for GgufTensorInfo {
    type V = TensorModel;

    open spec fn view(&self) -> TensorModel {
        TensorModel {
            name: self.name@,
            dimensions: self.dimensions@,
            ggml_type: self.ggml_type,
            offset: self.offset,
        }
    }
}

pub proof fn lemma_product_nonneg(dims: Seq<u64>)
    ensures
        product(dims) >= 0,
    decreases dims.len(),
{
    if dims.len() > 0 {
        lemma_product_nonneg(dims.drop_last());
        let a = product(dims.drop_last());
        let b = dims.last() as int;
        assert(a * b >= 0) by (nonlinear_arith)
            requires
                a >= 0,
                b >= 0,
        ;
    }
}

impl GgufTensorInfo {
    /// Total number of elements in this tensor: the product of its dimensions.
    pub fn n_elements(&self) -> (r: u64)
        requires
            product_fits(self.dimensions@),
        ensures
            r == product(self.dimensions@),
    {
        let mut acc: u64 = 1;
        let mut i: usize = 0;
        proof {
            assert(self.dimensions@.take(0) =~= Seq::<u64>::empty());
        }
        while i < self.dimensions.len()
            invariant
                i <= self.dimensions@.len(),
                acc == product(self.dimensions@.take(i as int)),
                product_fits(self.dimensions@),
            decreases self.dimensions.len() - i,
        {
            let ghost pre = self.dimensions@.take(i as int);
            let ghost nxt = self.dimensions@.take(i + 1);
            assert(nxt.drop_last() =~= pre);
            assert(product(nxt) <= u64::MAX);
            let d = self.dimensions[i];
            assert(acc as int * d as int == product(nxt));
            acc = acc * d;
            i = i + 1;
        }
        assert(self.dimensions@.take(self.dimensions@.len() as int) =~= self.dimensions@);
        acc
    }

    /// Estimated size in bytes: whole blocks of the tensor's type.
    pub fn size_bytes(&self) -> (r: u64)
        requires
            product_fits(self.dimensions@),
            tensor_bytes(product(self.dimensions@), self.ggml_type) <= u64::MAX,
        ensures
            r == tensor_bytes(product(self.dimensions@), self.ggml_type),
    {
        let n = self.n_elements();
        let bs = self.ggml_type.block_size();
        let bpb = self.ggml_type.bytes_per_block();
        let q: u64 = n / (bs as u64);
        let rem: u64 = n % (bs as u64);
        let blocks: u64 = if rem == 0 {
            q
        } else {
            assert(q < u64::MAX) by (nonlinear_arith)
                requires
                    q == n / (bs as u64),
                    n % (bs as u64) != 0,
                    bs >= 1,
            ;
            q + 1
        };
        proof {
            let ni = n as int;
            let b = bs as int;
            assert(blocks == div_ceil(ni, b)) by (nonlinear_arith)
                requires
                    b >= 1,
                    ni >= 0,
                    blocks == ni / b + if ni % b == 0 { 0int } else { 1int },
            ;
            lemma_product_nonneg(self.dimensions@);
            assert(blocks as int * bpb as int == tensor_bytes(ni, self.ggml_type));
        }
        blocks * (bpb as u64)
    }
}

} // verus!
