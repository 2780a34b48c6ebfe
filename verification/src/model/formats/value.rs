//! GGUF metadata values: their model, their encoding, the reader and the writer.
use vstd::prelude::*;
use vstd::utf8::encode_utf8;
use crate::error::FuseError;
use crate::model::formats::bytes::{
    at, eof_error, lemma_at_split, lemma_rd_string, lemma_rd_string_len, lemma_rd_u16, lemma_rd_u32, lemma_rd_u64, lemma_rd_u8,
    rd_string, rd_u16, rd_u32, rd_u64, rd_u8, read_bool, read_i16, read_i32, read_i64, read_i8,
    read_string, read_u16, read_u32, read_u64, read_u8, string_bytes, u16_le, u32_le, u64_le, write_string,
    write_u16, write_u32, write_u64, write_u8,
};

verus! {

/// A GGUF metadata value. Floating-point values are held as their IEEE-754 bit
/// patterns (`f32::to_bits` / `f64::to_bits`), which is exactly what the file stores.
#[derive(Debug, PartialEq)]
pub enum GgufValue {
    Uint8(u8),
    Int8(i8),
    Uint16(u16),
    Int16(i16),
    Uint32(u32),
    Int32(i32),
    Float32(u32),
    Bool(bool),
    String(String),
    Array(Vec<GgufValue>),
    Uint64(u64),
    Int64(i64),
    Float64(u64),
}

/// Model of a metadata value: strings as their characters.
pub enum GgufValueModel {
    Uint8(u8),
    Int8(i8),
    Uint16(u16),
    Int16(i16),
    Uint32(u32),
    Int32(i32),
    Float32(u32),
    Bool(bool),
    String(Seq<char>),
    Array(Seq<GgufValueModel>),
    Uint64(u64),
    Int64(i64),
    Float64(u64),
}

/// The model of a value.
pub open spec fn value_model(v: GgufValue) -> GgufValueModel
    decreases v,
{
    match v {
        GgufValue::Uint8(x) => GgufValueModel::Uint8(x),
        GgufValue::Int8(x) => GgufValueModel::Int8(x),
        GgufValue::Uint16(x) => GgufValueModel::Uint16(x),
        GgufValue::Int16(x) => GgufValueModel::Int16(x),
        GgufValue::Uint32(x) => GgufValueModel::Uint32(x),
        GgufValue::Int32(x) => GgufValueModel::Int32(x),
        GgufValue::Float32(x) => GgufValueModel::Float32(x),
        GgufValue::Bool(x) => GgufValueModel::Bool(x),
        GgufValue::String(s) => GgufValueModel::String(s@),
        GgufValue::Array(a) => GgufValueModel::Array(
            Seq::new(
                a@.len(),
                |i: int|
                    if 0 <= i < a@.len() {
                        value_model(a@[i])
                    } else {
                        GgufValueModel::Uint8(0)
                    },
            ),
        ),
        GgufValue::Uint64(x) => GgufValueModel::Uint64(x),
        GgufValue::Int64(x) => GgufValueModel::Int64(x),
        GgufValue::Float64(x) => GgufValueModel::Float64(x),
    }
}

impl View for GgufValue {
    type V = GgufValueModel;

    open spec fn view(&self) -> GgufValueModel {
        value_model(*self)
    }
}

/// The models of a sequence of values.
pub open spec fn models(s: Seq<GgufValue>) -> Seq<GgufValueModel> {
    Seq::new(s.len(), |i: int| s[i]@)
}

/// The type code GGUF stores for a value.
pub open spec fn type_id(v: GgufValueModel) -> u32 {
    match v {
        GgufValueModel::Uint8(_) => 0,
        GgufValueModel::Int8(_) => 1,
        GgufValueModel::Uint16(_) => 2,
        GgufValueModel::Int16(_) => 3,
        GgufValueModel::Uint32(_) => 4,
        GgufValueModel::Int32(_) => 5,
        GgufValueModel::Float32(_) => 6,
        GgufValueModel::Bool(_) => 7,
        GgufValueModel::String(_) => 8,
        GgufValueModel::Array(_) => 9,
        GgufValueModel::Uint64(_) => 10,
        GgufValueModel::Int64(_) => 11,
        GgufValueModel::Float64(_) => 12,
    }
}

/// The bytes of a non-array value, without its type code.
pub open spec fn payload(v: GgufValueModel) -> Seq<u8> {
    match v {
        GgufValueModel::Uint8(x) => seq![x],
        GgufValueModel::Int8(x) => seq![x as u8],
        GgufValueModel::Uint16(x) => u16_le(x),
        GgufValueModel::Int16(x) => u16_le(x as u16),
        GgufValueModel::Uint32(x) => u32_le(x),
        GgufValueModel::Int32(x) => u32_le(x as u32),
        GgufValueModel::Float32(x) => u32_le(x),
        GgufValueModel::Bool(x) => seq![if x { 1u8 } else { 0u8 }],
        GgufValueModel::String(s) => string_bytes(s),
        GgufValueModel::Array(_) => Seq::empty(),
        GgufValueModel::Uint64(x) => u64_le(x),
        GgufValueModel::Int64(x) => u64_le(x as u64),
        GgufValueModel::Float64(x) => u64_le(x),
    }
}

/// The element type code the writer records for an array: that of its first
/// element, or 0 (uint8) for an empty array.
pub open spec fn elem_tag(a: Seq<GgufValueModel>) -> u32 {
    if a.len() > 0 {
        type_id(a[0])
    } else {
        0
    }
}

/// The payloads of the elements of an array, concatenated.
pub open spec fn payloads(a: Seq<GgufValueModel>) -> Seq<u8>
    decreases a.len(),
{
    if a.len() == 0 {
        Seq::empty()
    } else {
        payloads(a.drop_last()) + payload(a.last())
    }
}

/// No element of the array is itself an array.
pub open spec fn flat(a: Seq<GgufValueModel>) -> bool {
    forall|i: int| 0 <= i < a.len() ==> !(#[trigger] a[i] is Array)
}

/// The bytes the writer emits for a value, or `None` where it fails (an array
/// holding an array).
pub open spec fn ser_value(v: GgufValueModel) -> Option<Seq<u8>> {
    match v {
        GgufValueModel::Array(a) => if flat(a) {
            Some(u32_le(9) + u32_le(elem_tag(a)) + u64_le(a.len() as u64) + payloads(a))
        } else {
            None
        },
        _ => Some(u32_le(type_id(v)) + payload(v)),
    }
}

/// A scalar of type code `t` at position `p`.
pub open spec fn rd_scalar(d: Seq<u8>, p: int, t: u32) -> Option<(GgufValueModel, int)> {
    if t == 0 {
        match rd_u8(d, p) {
            Some((x, q)) => Some((GgufValueModel::Uint8(x), q)),
            None => None,
        }
    } else if t == 1 {
        match rd_u8(d, p) {
            Some((x, q)) => Some((GgufValueModel::Int8(x as i8), q)),
            None => None,
        }
    } else if t == 2 {
        match rd_u16(d, p) {
            Some((x, q)) => Some((GgufValueModel::Uint16(x), q)),
            None => None,
        }
    } else if t == 3 {
        match rd_u16(d, p) {
            Some((x, q)) => Some((GgufValueModel::Int16(x as i16), q)),
            None => None,
        }
    } else if t == 4 {
        match rd_u32(d, p) {
            Some((x, q)) => Some((GgufValueModel::Uint32(x), q)),
            None => None,
        }
    } else if t == 5 {
        match rd_u32(d, p) {
            Some((x, q)) => Some((GgufValueModel::Int32(x as i32), q)),
            None => None,
        }
    } else if t == 6 {
        match rd_u32(d, p) {
            Some((x, q)) => Some((GgufValueModel::Float32(x), q)),
            None => None,
        }
    } else if t == 7 {
        match rd_u8(d, p) {
            Some((x, q)) => Some((GgufValueModel::Bool(x != 0), q)),
            None => None,
        }
    } else if t == 8 {
        match rd_string(d, p) {
            Some((s, q)) => Some((GgufValueModel::String(s), q)),
            None => None,
        }
    } else if t == 10 {
        match rd_u64(d, p) {
            Some((x, q)) => Some((GgufValueModel::Uint64(x), q)),
            None => None,
        }
    } else if t == 11 {
        match rd_u64(d, p) {
            Some((x, q)) => Some((GgufValueModel::Int64(x as i64), q)),
            None => None,
        }
    } else if t == 12 {
        match rd_u64(d, p) {
            Some((x, q)) => Some((GgufValueModel::Float64(x), q)),
            None => None,
        }
    } else {
        None
    }
}

/// The first `n` array elements of type `t`, read from position `p` on.
pub open spec fn rd_elems(d: Seq<u8>, p: int, t: u32, n: nat) -> Option<(Seq<GgufValueModel>, int)>
    decreases n,
{
    if n == 0 {
        Some((Seq::empty(), p))
    } else {
        match rd_elems(d, p, t, (n - 1) as nat) {
            Some((s, q)) => match rd_scalar(d, q, t) {
                Some((v, q2)) => Some((s.push(v), q2)),
                None => None,
            },
            None => None,
        }
    }
}

/// A value (type code, then data) at position `p`.
pub open spec fn rd_value(d: Seq<u8>, p: int) -> Option<(GgufValueModel, int)> {
    match rd_u32(d, p) {
        Some((t, p1)) => if t == 9 {
            match rd_u32(d, p1) {
                Some((et, p2)) => match rd_u64(d, p2) {
                    Some((n, p3)) => match rd_elems(d, p3, et, n as nat) {
                        Some((a, q)) => Some((GgufValueModel::Array(a), q)),
                        None => None,
                    },
                    None => None,
                },
                None => None,
            }
        } else {
            rd_scalar(d, p1, t)
        },
        None => None,
    }
}

/// A scalar the writer can emit and the reader gives back.
pub open spec fn scalar_wf(v: GgufValueModel) -> bool {
    match v {
        GgufValueModel::Array(_) => false,
        GgufValueModel::String(s) => encode_utf8(s).len() <= u64::MAX,
        _ => true,
    }
}

/// A value that survives a write and a read: strings whose length fits, and arrays of
/// scalars that all share the type of the first.
pub open spec fn value_wf(v: GgufValueModel) -> bool {
    match v {
        GgufValueModel::Array(a) => a.len() <= u64::MAX && forall|i: int|
            0 <= i < a.len() ==> scalar_wf(#[trigger] a[i]) && type_id(a[i]) == elem_tag(a),
        _ => scalar_wf(v),
    }
}

pub fn read_array_element(d: &[u8], p: usize, t: u32) -> (r: Result<(GgufValue, usize), FuseError>)
    ensures
        match r {
            Ok((v, q)) => rd_scalar(d@, p as int, t) == Some((v@, q as int)),
            Err(e) => rd_scalar(d@, p as int, t) is None && e is InternalError,
        },
{
    match t {
        0 => {
            let (x, q) = read_u8(d, p)?;
            Ok((GgufValue::Uint8(x), q))
        },
        1 => {
            let (x, q) = read_i8(d, p)?;
            Ok((GgufValue::Int8(x), q))
        },
        2 => {
            let (x, q) = read_u16(d, p)?;
            Ok((GgufValue::Uint16(x), q))
        },
        3 => {
            let (x, q) = read_i16(d, p)?;
            Ok((GgufValue::Int16(x), q))
        },
        4 => {
            let (x, q) = read_u32(d, p)?;
            Ok((GgufValue::Uint32(x), q))
        },
        5 => {
            let (x, q) = read_i32(d, p)?;
            Ok((GgufValue::Int32(x), q))
        },
        6 => {
            let (x, q) = read_u32(d, p)?;
            Ok((GgufValue::Float32(x), q))
        },
        7 => {
            let (x, q) = read_bool(d, p)?;
            Ok((GgufValue::Bool(x), q))
        },
        8 => {
            let (x, q) = read_string(d, p)?;
            Ok((GgufValue::String(x), q))
        },
        10 => {
            let (x, q) = read_u64(d, p)?;
            Ok((GgufValue::Uint64(x), q))
        },
        11 => {
            let (x, q) = read_i64(d, p)?;
            Ok((GgufValue::Int64(x), q))
        },
        12 => {
            let (x, q) = read_u64(d, p)?;
            Ok((GgufValue::Float64(x), q))
        },
        _ => {
            let msg = crate::text::concat2(
                "Unknown array element type: ",
                crate::text::u64_to_decimal(t as u64).as_str(),
            );
            Err(FuseError::InternalError(msg))
        },
    }
}

/// The model of an array value is the array of its elements' models.
pub proof fn lemma_array_view(a: Vec<GgufValue>)
    ensures
        GgufValue::Array(a)@ == GgufValueModel::Array(models(a@)),
{
    let v = GgufValue::Array(a);
    match v@ {
        GgufValueModel::Array(y) => {
            assert(y.len() == a@.len());
            assert forall|i: int| 0 <= i < y.len() implies y[i] == a@[i]@ by {}
            assert(y =~= models(a@));
        },
        _ => {
            assert(false);
        },
    }
}

proof fn lemma_models_push(s: Seq<GgufValue>, v: GgufValue)
    ensures
        models(s.push(v)) == models(s).push(v@),
{
    assert(models(s.push(v)) =~= models(s).push(v@));
}

pub fn read_value(d: &[u8], p: usize) -> (r: Result<(GgufValue, usize), FuseError>)
    ensures
        match r {
            Ok((v, q)) => rd_value(d@, p as int) == Some((v@, q as int)),
            Err(e) => rd_value(d@, p as int) is None && e is InternalError,
        },
{
    let (t, p1) = read_u32(d, p)?;
    if t == 9 {
        let (et, p2) = read_u32(d, p1)?;
        let (n, p3) = read_u64(d, p2)?;
        let mut arr: Vec<GgufValue> = Vec::new();
        let mut pos: usize = p3;
        let mut i: u64 = 0;
        while i < n
            invariant
                i <= n,
                rd_u32(d@, p as int) == Some((9u32, p1 as int)),
                rd_u32(d@, p1 as int) == Some((et, p2 as int)),
                rd_u64(d@, p2 as int) == Some((n, p3 as int)),
                rd_elems(d@, p3 as int, et, i as nat) == Some((models(arr@), pos as int)),
            decreases n - i,
        {
            let (v, q) = match read_array_element(d, pos, et) {
                Ok(x) => x,
                Err(e) => {
                    proof {
                        lemma_rd_elems_none(d@, p3 as int, et, (i + 1) as nat, n as nat);
                    }
                    return Err(e);
                },
            };
            proof {
                lemma_models_push(arr@, v);
            }
            arr.push(v);
            pos = q;
            i = i + 1;
        }
        proof {
            lemma_array_view(arr);
        }
        let out = GgufValue::Array(arr);
        Ok((out, pos))
    } else {
        read_array_element(d, p1, t)
    }
}

/// Once an element read fails, reading more elements fails too.
proof fn lemma_rd_elems_none(d: Seq<u8>, p: int, t: u32, k: nat, n: nat)
    requires
        k <= n,
        rd_elems(d, p, t, k) is None,
    ensures
        rd_elems(d, p, t, n) is None,
    decreases n - k,
{
    if k < n {
        lemma_rd_elems_none(d, p, t, k + 1, n);
    }
}

/// Writes the data of a non-array value (no type code).
pub fn write_value_data(out: &mut Vec<u8>, v: &GgufValue) -> (r: Result<(), FuseError>)
    ensures
        r is Ok <==> !(v@ is Array),
        r is Ok ==> final(out)@ == old(out)@ + payload(v@),
        r is Err ==> final(out)@ == old(out)@,
        match r {
            Err(e) => e is InternalError,
            Ok(_) => true,
        },
{
    match v {
        GgufValue::Uint8(x) => {
            write_u8(out, *x);
        },
        GgufValue::Int8(x) => {
            write_u8(out, *x as u8);
        },
        GgufValue::Uint16(x) => {
            write_u16(out, *x);
        },
        GgufValue::Int16(x) => {
            write_u16(out, *x as u16);
        },
        GgufValue::Uint32(x) => {
            write_u32(out, *x);
        },
        GgufValue::Int32(x) => {
            write_u32(out, *x as u32);
        },
        GgufValue::Float32(x) => {
            write_u32(out, *x);
        },
        GgufValue::Bool(x) => {
            write_u8(out, if *x { 1u8 } else { 0u8 });
        },
        GgufValue::String(s) => {
            write_string(out, s.as_str());
        },
        GgufValue::Uint64(x) => {
            write_u64(out, *x);
        },
        GgufValue::Int64(x) => {
            write_u64(out, *x as u64);
        },
        GgufValue::Float64(x) => {
            write_u64(out, *x);
        },
        GgufValue::Array(_) => {
            return Err(
                FuseError::InternalError(String::from_str("Nested arrays not supported")),
            );
        },
    }
    Ok(())
}

/// The type code of a value.
pub fn value_type_id(v: &GgufValue) -> (r: u32)
    ensures
        r == type_id(v@),
{
    match v {
        GgufValue::Uint8(_) => 0,
        GgufValue::Int8(_) => 1,
        GgufValue::Uint16(_) => 2,
        GgufValue::Int16(_) => 3,
        GgufValue::Uint32(_) => 4,
        GgufValue::Int32(_) => 5,
        GgufValue::Float32(_) => 6,
        GgufValue::Bool(_) => 7,
        GgufValue::String(_) => 8,
        GgufValue::Array(_) => 9,
        GgufValue::Uint64(_) => 10,
        GgufValue::Int64(_) => 11,
        GgufValue::Float64(_) => 12,
    }
}

/// Writes a value: its type code, then its data. Fails on an array that holds an
/// array, having written the array's header and the elements before it.
pub fn write_value(out: &mut Vec<u8>, v: &GgufValue) -> (r: Result<(), FuseError>)
    ensures
        r is Ok <==> ser_value(v@) is Some,
        r is Ok ==> final(out)@ == old(out)@ + ser_value(v@)->0,
        match r {
            Err(e) => e is InternalError,
            Ok(_) => true,
        },
{
    match v {
        GgufValue::Array(arr) => {
            let ghost a = models(arr@);
            proof {
                lemma_array_view(*arr);
            }
            write_u32(out, 9);
            let elem_type: u32 = if arr.len() > 0 {
                value_type_id(&arr[0])
            } else {
                0
            };
            write_u32(out, elem_type);
            write_u64(out, arr.len() as u64);
            let ghost head = out@;
            let mut i: usize = 0;
            while i < arr.len()
                invariant
                    i <= arr@.len(),
                    a == models(arr@),
                    v@ == GgufValueModel::Array(a),
                    forall|k: int| 0 <= k < i ==> !(#[trigger] a[k] is Array),
                    out@ == head + payloads(a.take(i as int)),
                decreases arr.len() - i,
            {
                match write_value_data(out, &arr[i]) {
                    Ok(()) => {},
                    Err(e) => {
                        assert(a[i as int] is Array);
                        assert(!flat(a));
                        return Err(e);
                    },
                }
                assert(a.take(i + 1).drop_last() =~= a.take(i as int));
                i = i + 1;
            }
            assert(a.take(a.len() as int) =~= a);
            assert(flat(a));
            Ok(())
        },
        _ => {
            let t = value_type_id(v);
            write_u32(out, t);
            let r = write_value_data(out, v);
            r
        },
    }
}

pub proof fn lemma_rd_scalar(d: Seq<u8>, p: int, v: GgufValueModel)
    requires
        scalar_wf(v),
        at(d, p, payload(v)),
    ensures
        rd_scalar(d, p, type_id(v)) == Some((v, p + payload(v).len())),
{
    match v {
        GgufValueModel::Uint8(x) => {
            lemma_rd_u8(d, p, x);
        },
        GgufValueModel::Int8(x) => {
            lemma_rd_u8(d, p, x as u8);
            assert((x as u8) as i8 == x) by (bit_vector);
        },
        GgufValueModel::Uint16(x) => {
            lemma_rd_u16(d, p, x);
        },
        GgufValueModel::Int16(x) => {
            lemma_rd_u16(d, p, x as u16);
            assert((x as u16) as i16 == x) by (bit_vector);
        },
        GgufValueModel::Uint32(x) => {
            lemma_rd_u32(d, p, x);
        },
        GgufValueModel::Int32(x) => {
            lemma_rd_u32(d, p, x as u32);
            assert((x as u32) as i32 == x) by (bit_vector);
        },
        GgufValueModel::Float32(x) => {
            lemma_rd_u32(d, p, x);
        },
        GgufValueModel::Bool(x) => {
            lemma_rd_u8(d, p, if x { 1u8 } else { 0u8 });
        },
        GgufValueModel::String(s) => {
            lemma_rd_string(d, p, s);
        },
        GgufValueModel::Uint64(x) => {
            lemma_rd_u64(d, p, x);
        },
        GgufValueModel::Int64(x) => {
            lemma_rd_u64(d, p, x as u64);
            assert((x as u64) as i64 == x) by (bit_vector);
        },
        GgufValueModel::Float64(x) => {
            lemma_rd_u64(d, p, x);
        },
        GgufValueModel::Array(_) => {},
    }
}

proof fn lemma_rd_elems(d: Seq<u8>, p: int, a: Seq<GgufValueModel>, n: int)
    requires
        0 <= n <= a.len(),
        forall|i: int| 0 <= i < a.len() ==> scalar_wf(#[trigger] a[i]) && type_id(a[i]) == elem_tag(a),
        at(d, p, payloads(a.take(n))),
    ensures
        rd_elems(d, p, elem_tag(a), n as nat) == Some((a.take(n), p + payloads(a.take(n)).len())),
    decreases n,
{
    if n == 0 {
        assert(a.take(0) =~= Seq::<GgufValueModel>::empty());
    } else {
        let pre = a.take(n - 1);
        assert(a.take(n).drop_last() =~= pre);
        assert(a.take(n).last() == a[n - 1]);
        lemma_at_split(d, p, payloads(pre), payload(a[n - 1]));
        lemma_rd_elems(d, p, a, n - 1);
        lemma_rd_scalar(d, p + payloads(pre).len(), a[n - 1]);
        assert(pre.push(a[n - 1]) =~= a.take(n));
    }
}

/// Reading a well-formed value where the writer put it gives the value back.
pub proof fn lemma_value_roundtrip(d: Seq<u8>, p: int, v: GgufValueModel)
    requires
        value_wf(v),
        ser_value(v) is Some,
        at(d, p, ser_value(v)->0),
    ensures
        rd_value(d, p) == Some((v, p + ser_value(v)->0.len())),
{
    match v {
        GgufValueModel::Array(a) => {
            let h1 = u32_le(9);
            let h2 = u32_le(elem_tag(a));
            let h3 = u64_le(a.len() as u64);
            let body = payloads(a);
            lemma_at_split(d, p, h1 + h2 + h3, body);
            lemma_at_split(d, p, h1 + h2, h3);
            lemma_at_split(d, p, h1, h2);
            lemma_rd_u32(d, p, 9);
            lemma_rd_u32(d, p + 4, elem_tag(a));
            lemma_rd_u64(d, p + 8, a.len() as u64);
            assert(a.take(a.len() as int) =~= a);
            lemma_rd_elems(d, p + 16, a, a.len() as int);
        },
        _ => {
            lemma_at_split(d, p, u32_le(type_id(v)), payload(v));
            lemma_rd_u32(d, p, type_id(v));
            lemma_rd_scalar(d, p + 4, v);
        },
    }
}

/// A scalar read with type code `t` is a well-formed scalar of that type.
pub proof fn lemma_rd_scalar_wf(d: Seq<u8>, p: int, t: u32)
    ensures
        rd_scalar(d, p, t) matches Some((v, _)) ==> scalar_wf(v) && type_id(v) == t,
{
    if t == 8 {
        lemma_rd_string_len(d, p);
    }
}

proof fn lemma_rd_elems_wf(d: Seq<u8>, p: int, t: u32, n: nat)
    ensures
        rd_elems(d, p, t, n) matches Some((a, _)) ==> a.len() == n && forall|i: int|
            0 <= i < a.len() ==> scalar_wf(#[trigger] a[i]) && type_id(a[i]) == t,
    decreases n,
{
    if n > 0 {
        lemma_rd_elems_wf(d, p, t, (n - 1) as nat);
        if let Some((s, q)) = rd_elems(d, p, t, (n - 1) as nat) {
            lemma_rd_scalar_wf(d, q, t);
        }
    }
}

/// Every value the reader gives back is one the writer can emit again.
pub proof fn lemma_rd_value_wf(d: Seq<u8>, p: int)
    ensures
        rd_value(d, p) matches Some((v, _)) ==> value_wf(v),
{
    if let Some((t, p1)) = rd_u32(d, p) {
        if t == 9 {
            if let Some((et, p2)) = rd_u32(d, p1) {
                if let Some((n, p3)) = rd_u64(d, p2) {
                    lemma_rd_elems_wf(d, p3, et, n as nat);
                }
            }
        } else {
            lemma_rd_scalar_wf(d, p1, t);
        }
    }
}

} // verus!
