//! Little-endian byte codec used by the GGUF reader and writer: the encodings
//! as spec functions, readers that take a byte slice and a position, writers
//! that append to a byte vector, and the lemmas that a read undoes a write.
use vstd::prelude::*;
use vstd::utf8::{decode_utf8, encode_utf8, valid_utf8};
use crate::error::FuseError;

verus! {

pub open spec fn u16_le(x: u16) -> Seq<u8> {
    seq![x as u8, (x >> 8) as u8]
}

pub open spec fn u32_le(x: u32) -> Seq<u8> {
    seq![x as u8, (x >> 8) as u8, (x >> 16) as u8, (x >> 24) as u8]
}

pub open spec fn u64_le(x: u64) -> Seq<u8> {
    seq![
        x as u8,
        (x >> 8) as u8,
        (x >> 16) as u8,
        (x >> 24) as u8,
        (x >> 32) as u8,
        (x >> 40) as u8,
        (x >> 48) as u8,
        (x >> 56) as u8,
    ]
}

pub open spec fn le_u16(b0: u8, b1: u8) -> u16 {
    (b0 as u16) | ((b1 as u16) << 8u16)
}

pub open spec fn le_u32(b0: u8, b1: u8, b2: u8, b3: u8) -> u32 {
    (b0 as u32) | ((b1 as u32) << 8u32) | ((b2 as u32) << 16u32) | ((b3 as u32) << 24u32)
}

pub open spec fn le_u64(d: Seq<u8>, p: int) -> u64 {
    (d[p] as u64) | ((d[p + 1] as u64) << 8u64) | ((d[p + 2] as u64) << 16u64) | ((d[p + 3] as u64)
        << 24u64) | ((d[p + 4] as u64) << 32u64) | ((d[p + 5] as u64) << 40u64) | ((d[p + 6] as u64)
        << 48u64) | ((d[p + 7] as u64) << 56u64)
}

/// A length-prefixed UTF-8 string: its byte length as a `u64`, then its bytes.
pub open spec fn string_bytes(s: Seq<char>) -> Seq<u8> {
    u64_le(encode_utf8(s).len() as u64) + encode_utf8(s)
}

/// `n` bytes are available at position `p`.
pub open spec fn avail(d: Seq<u8>, p: int, n: int) -> bool {
    0 <= p && p + n <= d.len()
}

pub open spec fn rd_u8(d: Seq<u8>, p: int) -> Option<(u8, int)> {
    if avail(d, p, 1) {
        Some((d[p], p + 1))
    } else {
        None
    }
}

pub open spec fn rd_u16(d: Seq<u8>, p: int) -> Option<(u16, int)> {
    if avail(d, p, 2) {
        Some((le_u16(d[p], d[p + 1]), p + 2))
    } else {
        None
    }
}

pub open spec fn rd_u32(d: Seq<u8>, p: int) -> Option<(u32, int)> {
    if avail(d, p, 4) {
        Some((le_u32(d[p], d[p + 1], d[p + 2], d[p + 3]), p + 4))
    } else {
        None
    }
}

pub open spec fn rd_u64(d: Seq<u8>, p: int) -> Option<(u64, int)> {
    if avail(d, p, 8) {
        Some((le_u64(d, p), p + 8))
    } else {
        None
    }
}

/// A length-prefixed string at `p`: present, in bounds and valid UTF-8.
pub open spec fn rd_string(d: Seq<u8>, p: int) -> Option<(Seq<char>, int)> {
    match rd_u64(d, p) {
        Some((n, q)) => if avail(d, q, n as int) && valid_utf8(d.subrange(q, q + n)) {
            Some((decode_utf8(d.subrange(q, q + n)), q + n))
        } else {
            None
        },
        None => None,
    }
}

/// The error every short read reports.
pub fn eof_error() -> (e: FuseError)
    ensures
        e matches FuseError::InternalError(m) && m@ == "IO error: failed to fill whole buffer"@,
{
    FuseError::InternalError(String::from_str("IO error: failed to fill whole buffer"))
}

pub fn read_u8(d: &[u8], p: usize) -> (r: Result<(u8, usize), FuseError>)
    ensures
        match r {
            Ok((v, q)) => rd_u8(d@, p as int) == Some((v, q as int)),
            Err(e) => rd_u8(d@, p as int) is None && e is InternalError,
        },
{
    if p >= d.len() {
        return Err(eof_error());
    }
    Ok((d[p], p + 1))
}

pub fn read_u16(d: &[u8], p: usize) -> (r: Result<(u16, usize), FuseError>)
    ensures
        match r {
            Ok((v, q)) => rd_u16(d@, p as int) == Some((v, q as int)),
            Err(e) => rd_u16(d@, p as int) is None && e is InternalError,
        },
{
    if p >= d.len() || d.len() - p < 2 {
        return Err(eof_error());
    }
    let v: u16 = (d[p] as u16) | ((d[p + 1] as u16) << 8u16);
    Ok((v, p + 2))
}

pub fn read_u32(d: &[u8], p: usize) -> (r: Result<(u32, usize), FuseError>)
    ensures
        match r {
            Ok((v, q)) => rd_u32(d@, p as int) == Some((v, q as int)),
            Err(e) => rd_u32(d@, p as int) is None && e is InternalError,
        },
{
    if p >= d.len() || d.len() - p < 4 {
        return Err(eof_error());
    }
    let v: u32 = (d[p] as u32) | ((d[p + 1] as u32) << 8u32) | ((d[p + 2] as u32) << 16u32) | ((d[p
        + 3] as u32) << 24u32);
    Ok((v, p + 4))
}

pub fn read_u64(d: &[u8], p: usize) -> (r: Result<(u64, usize), FuseError>)
    ensures
        match r {
            Ok((v, q)) => rd_u64(d@, p as int) == Some((v, q as int)),
            Err(e) => rd_u64(d@, p as int) is None && e is InternalError,
        },
{
    if p >= d.len() || d.len() - p < 8 {
        return Err(eof_error());
    }
    let v: u64 = (d[p] as u64) | ((d[p + 1] as u64) << 8u64) | ((d[p + 2] as u64) << 16u64) | ((d[p
        + 3] as u64) << 24u64) | ((d[p + 4] as u64) << 32u64) | ((d[p + 5] as u64) << 40u64) | ((d[p
        + 6] as u64) << 48u64) | ((d[p + 7] as u64) << 56u64);
    Ok((v, p + 8))
}

pub fn read_i8(d: &[u8], p: usize) -> (r: Result<(i8, usize), FuseError>)
    ensures
        match r {
            Ok((v, q)) => rd_u8(d@, p as int) matches Some((u, q2)) && v == u as i8 && q == q2,
            Err(e) => rd_u8(d@, p as int) is None && e is InternalError,
        },
{
    let (u, q) = read_u8(d, p)?;
    Ok((u as i8, q))
}

pub fn read_i16(d: &[u8], p: usize) -> (r: Result<(i16, usize), FuseError>)
    ensures
        match r {
            Ok((v, q)) => rd_u16(d@, p as int) matches Some((u, q2)) && v == u as i16 && q == q2,
            Err(e) => rd_u16(d@, p as int) is None && e is InternalError,
        },
{
    let (u, q) = read_u16(d, p)?;
    Ok((u as i16, q))
}

pub fn read_i32(d: &[u8], p: usize) -> (r: Result<(i32, usize), FuseError>)
    ensures
        match r {
            Ok((v, q)) => rd_u32(d@, p as int) matches Some((u, q2)) && v == u as i32 && q == q2,
            Err(e) => rd_u32(d@, p as int) is None && e is InternalError,
        },
{
    let (u, q) = read_u32(d, p)?;
    Ok((u as i32, q))
}

pub fn read_i64(d: &[u8], p: usize) -> (r: Result<(i64, usize), FuseError>)
    ensures
        match r {
            Ok((v, q)) => rd_u64(d@, p as int) matches Some((u, q2)) && v == u as i64 && q == q2,
            Err(e) => rd_u64(d@, p as int) is None && e is InternalError,
        },
{
    let (u, q) = read_u64(d, p)?;
    Ok((u as i64, q))
}

pub fn read_bool(d: &[u8], p: usize) -> (r: Result<(bool, usize), FuseError>)
    ensures
        match r {
            Ok((v, q)) => rd_u8(d@, p as int) matches Some((u, q2)) && v == (u != 0) && q == q2,
            Err(e) => rd_u8(d@, p as int) is None && e is InternalError,
        },
{
    let (u, q) = read_u8(d, p)?;
    Ok((u != 0, q))
}

/// std's `String::from_utf8`: `Some` exactly when the bytes are valid UTF-8, and
/// then the string whose characters they encode.
#[verifier::external_body]
fn string_from_utf8(bytes: Vec<u8>) -> (r: Option<String>)
    ensures
        r is Some <==> valid_utf8(bytes@),
        r matches Some(s) ==> s@ == decode_utf8(bytes@),
{
    String::from_utf8(bytes).ok()
}

pub fn read_string(d: &[u8], p: usize) -> (r: Result<(String, usize), FuseError>)
    ensures
        match r {
            Ok((s, q)) => rd_string(d@, p as int) == Some((s@, q as int)),
            Err(e) => rd_string(d@, p as int) is None && e is InternalError,
        },
{
    let (n, q) = read_u64(d, p)?;
    if q > d.len() || ((d.len() - q) as u64) < n {
        return Err(eof_error());
    }
    let end: usize = q + n as usize;
    let mut buf: Vec<u8> = Vec::new();
    let mut i: usize = q;
    while i < end
        invariant
            q <= i <= end <= d.len(),
            buf@ == d@.subrange(q as int, i as int),
        decreases end - i,
    {
        buf.push(d[i]);
        assert(d@.subrange(q as int, i + 1) =~= d@.subrange(q as int, i as int).push(d@[i as int]));
        i = i + 1;
    }
    match string_from_utf8(buf) {
        Some(s) => Ok((s, end)),
        None => Err(FuseError::InternalError(String::from_str("Invalid UTF-8"))),
    }
}

pub fn write_u8(out: &mut Vec<u8>, v: u8)
    ensures
        final(out)@ == old(out)@ + seq![v],
{
    out.push(v);
}

pub fn write_u16(out: &mut Vec<u8>, v: u16)
    ensures
        final(out)@ == old(out)@ + u16_le(v),
{
    out.push(v as u8);
    out.push((v >> 8u16) as u8);
}

pub fn write_u32(out: &mut Vec<u8>, v: u32)
    ensures
        final(out)@ == old(out)@ + u32_le(v),
{
    out.push(v as u8);
    out.push((v >> 8u32) as u8);
    out.push((v >> 16u32) as u8);
    out.push((v >> 24u32) as u8);
}

pub fn write_u64(out: &mut Vec<u8>, v: u64)
    ensures
        final(out)@ == old(out)@ + u64_le(v),
{
    out.push(v as u8);
    out.push((v >> 8u64) as u8);
    out.push((v >> 16u64) as u8);
    out.push((v >> 24u64) as u8);
    out.push((v >> 32u64) as u8);
    out.push((v >> 40u64) as u8);
    out.push((v >> 48u64) as u8);
    out.push((v >> 56u64) as u8);
}

pub fn write_string(out: &mut Vec<u8>, s: &str)
    ensures
        final(out)@ == old(out)@ + string_bytes(s@),
{
    let b = s.as_bytes();
    write_u64(out, b.len() as u64);
    let ghost mid = out@;
    let mut i: usize = 0;
    while i < b.len()
        invariant
            i <= b.len(),
            b@ == encode_utf8(s@),
            out@ == mid + b@.take(i as int),
        decreases b.len() - i,
    {
        out.push(b[i]);
        assert(b@.take(i + 1) =~= b@.take(i as int).push(b@[i as int]));
        i = i + 1;
    }
    assert(b@.take(b@.len() as int) =~= b@);
}

pub proof fn lemma_u16_roundtrip(x: u16)
    ensures
        le_u16(x as u8, (x >> 8) as u8) == x,
{
    assert((((x as u8) as u16) | ((((x >> 8u16) as u8) as u16) << 8u16)) == x) by (bit_vector);
}

pub proof fn lemma_u32_roundtrip(x: u32)
    ensures
        le_u32(x as u8, (x >> 8) as u8, (x >> 16) as u8, (x >> 24) as u8) == x,
{
    assert((((x as u8) as u32) | ((((x >> 8u32) as u8) as u32) << 8u32) | ((((x >> 16u32) as u8)
        as u32) << 16u32) | ((((x >> 24u32) as u8) as u32) << 24u32)) == x) by (bit_vector);
}

pub proof fn lemma_u64_roundtrip(x: u64)
    ensures
        le_u64(u64_le(x), 0) == x,
{
    assert((((x as u8) as u64) | ((((x >> 8u64) as u8) as u64) << 8u64) | ((((x >> 16u64) as u8)
        as u64) << 16u64) | ((((x >> 24u64) as u8) as u64) << 24u64) | ((((x >> 32u64) as u8)
        as u64) << 32u64) | ((((x >> 40u64) as u8) as u64) << 40u64) | ((((x >> 48u64) as u8)
        as u64) << 48u64) | ((((x >> 56u64) as u8) as u64) << 56u64)) == x) by (bit_vector);
}

/// Bytes `enc` stand at position `p` of `d`.
pub open spec fn at(d: Seq<u8>, p: int, enc: Seq<u8>) -> bool {
    0 <= p && p + enc.len() <= d.len() && d.subrange(p, p + enc.len()) == enc
}

pub proof fn lemma_at_split(d: Seq<u8>, p: int, a: Seq<u8>, b: Seq<u8>)
    requires
        at(d, p, a + b),
    ensures
        at(d, p, a),
        at(d, p + a.len(), b),
{
    let w = d.subrange(p, p + a.len() + b.len());
    assert(w == a + b);
    assert(d.subrange(p, p + a.len()) =~= w.subrange(0, a.len() as int));
    assert((a + b).subrange(0, a.len() as int) =~= a);
    assert(d.subrange(p + a.len(), p + a.len() + b.len()) =~= w.subrange(
        a.len() as int,
        (a.len() + b.len()) as int,
    ));
    assert((a + b).subrange(a.len() as int, (a.len() + b.len()) as int) =~= b);
}

pub proof fn lemma_at_join(d: Seq<u8>, p: int, a: Seq<u8>, b: Seq<u8>)
    requires
        at(d, p, a),
        at(d, p + a.len(), b),
    ensures
        at(d, p, a + b),
{
    assert(d.subrange(p, p + (a + b).len()) =~= a + b) by {
        assert forall|i: int| 0 <= i < (a + b).len() implies d.subrange(p, p + (a + b).len())[i]
            == (a + b)[i] by {
            if i < a.len() {
                assert(d.subrange(p, p + a.len())[i] == a[i]);
            } else {
                assert(d.subrange(p + a.len(), p + a.len() + b.len())[i - a.len()] == b[i
                    - a.len()]);
            }
        }
    }
}

pub proof fn lemma_rd_u8(d: Seq<u8>, p: int, x: u8)
    requires
        at(d, p, seq![x]),
    ensures
        rd_u8(d, p) == Some((x, p + 1)),
{
    assert(d.subrange(p, p + 1)[0] == d[p]);
}

pub proof fn lemma_rd_u16(d: Seq<u8>, p: int, x: u16)
    requires
        at(d, p, u16_le(x)),
    ensures
        rd_u16(d, p) == Some((x, p + 2)),
{
    assert(d.subrange(p, p + 2)[0] == d[p]);
    assert(d.subrange(p, p + 2)[1] == d[p + 1]);
    lemma_u16_roundtrip(x);
}

pub proof fn lemma_rd_u32(d: Seq<u8>, p: int, x: u32)
    requires
        at(d, p, u32_le(x)),
    ensures
        rd_u32(d, p) == Some((x, p + 4)),
{
    let s = d.subrange(p, p + 4);
    assert(s[0] == d[p] && s[1] == d[p + 1] && s[2] == d[p + 2] && s[3] == d[p + 3]);
    lemma_u32_roundtrip(x);
}

pub proof fn lemma_rd_u64(d: Seq<u8>, p: int, x: u64)
    requires
        at(d, p, u64_le(x)),
    ensures
        rd_u64(d, p) == Some((x, p + 8)),
{
    let s = d.subrange(p, p + 8);
    assert(s[0] == d[p] && s[1] == d[p + 1] && s[2] == d[p + 2] && s[3] == d[p + 3]);
    assert(s[4] == d[p + 4] && s[5] == d[p + 5] && s[6] == d[p + 6] && s[7] == d[p + 7]);
    assert(le_u64(d, p) == le_u64(u64_le(x), 0));
    lemma_u64_roundtrip(x);
}

pub proof fn lemma_rd_string(d: Seq<u8>, p: int, s: Seq<char>)
    requires
        at(d, p, string_bytes(s)),
        encode_utf8(s).len() <= u64::MAX,
    ensures
        rd_string(d, p) == Some((s, p + string_bytes(s).len())),
{
    let e = encode_utf8(s);
    lemma_at_split(d, p, u64_le(e.len() as u64), e);
    lemma_rd_u64(d, p, e.len() as u64);
    vstd::utf8::encode_utf8_valid_utf8(s);
    vstd::utf8::encode_utf8_decode_utf8(s);
}

/// A string read from bytes encodes back to those bytes, so its encoding is as
/// long as the length that prefixed it.
pub proof fn lemma_rd_string_len(d: Seq<u8>, p: int)
    ensures
        rd_string(d, p) matches Some((s, q)) ==> encode_utf8(s).len() <= u64::MAX && encode_utf8(s).len()
            == q - p - 8,
{
    if let Some((n, q)) = rd_u64(d, p) {
        if avail(d, q, n as int) && valid_utf8(d.subrange(q, q + n)) {
            vstd::utf8::decode_utf8_encode_utf8(d.subrange(q, q + n));
        }
    }
}

} // verus!
