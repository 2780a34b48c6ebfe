//! Base64 (standard alphabet, padded), as the `base64` crate implements it.
use vstd::prelude::*;
use base64::Engine;

verus! {

/// The character of a 6-bit group in the standard alphabet: `A`..`Z`, `a`..`z`,
/// `0`..`9`, `+`, `/`.
pub open spec fn base64_char(n: int) -> char {
    if n < 26 {
        ((n + 65) as u32) as char
    } else if n < 52 {
        ((n - 26 + 97) as u32) as char
    } else if n < 62 {
        ((n - 52 + 48) as u32) as char
    } else if n == 62 {
        '+'
    } else {
        '/'
    }
}

/// Standard padded base64 of some bytes: each group of three bytes becomes four
/// characters of six bits each; a last group of one or two bytes is padded with `=`.
pub open spec fn base64_text(b: Seq<u8>) -> Seq<char>
    decreases b.len(),
{
    if b.len() == 0 {
        Seq::empty()
    } else if b.len() == 1 {
        seq![base64_char(b[0] as int / 4), base64_char((b[0] as int % 4) * 16), '=', '=']
    } else if b.len() == 2 {
        seq![
            base64_char(b[0] as int / 4),
            base64_char((b[0] as int % 4) * 16 + b[1] as int / 16),
            base64_char((b[1] as int % 16) * 4),
            '=',
        ]
    } else {
        seq![
            base64_char(b[0] as int / 4),
            base64_char((b[0] as int % 4) * 16 + b[1] as int / 16),
            base64_char((b[1] as int % 16) * 4 + b[2] as int / 64),
            base64_char(b[2] as int % 64),
        ] + base64_text(b.subrange(3, b.len() as int))
    }
}

/// What `base64::engine::general_purpose::STANDARD.decode` returns for a text: the
/// decoded bytes, or the display text of the error it reports.
pub uninterp spec fn base64_standard_decode(text: Seq<char>) -> Result<Seq<u8>, Seq<char>>;

/// `base64`'s `STANDARD.encode`: the standard padded base64 of the bytes, as
/// `base64_text` spells it out (the engine's standard alphabet with padding).
#[verifier::external_body]
pub fn base64_encode(bytes: &[u8]) -> (r: String)
    ensures
        r@ == base64_text(bytes@),
{
    base64::engine::general_purpose::STANDARD.encode(bytes)
}

/// `base64`'s `STANDARD.decode`: the decoded bytes, or the error's display text;
/// both named by `base64_standard_decode` of the text. A text that `STANDARD.encode`
/// makes (`base64_text` of some bytes) decodes to the bytes it was made from (the round trip the crate's tests and
/// fuzz targets check); which other texts it accepts is not stated here.
#[verifier::external_body]
pub fn base64_decode(text: &str) -> (r: Result<Vec<u8>, String>)
    ensures
        match r {
            Ok(v) => base64_standard_decode(text@) == Ok::<Seq<u8>, Seq<char>>(v@) && forall|b: Seq<u8>|
                text@ == base64_text(b) ==> v@ == b,
            Err(m) => base64_standard_decode(text@) == Err::<Seq<u8>, Seq<char>>(m@) && forall|b: Seq<u8>|
                text@ != base64_text(b),
        },
{
    match base64::engine::general_purpose::STANDARD.decode(text) {
        Ok(v) => Ok(v),
        Err(e) => Err(e.to_string()),
    }
}

} // verus!
