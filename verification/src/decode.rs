//! Decoding of command output: strict UTF-8 first, Windows-1252 otherwise
//! (shells on Windows often write in that code page).

use vstd::prelude::*;
use vstd::utf8::{valid_utf8, decode_utf8, encode_utf8};
use vstd::string::StringSliceAdditionalSpecFns;
use crate::text::push_char;

verus! {

/// The character that Windows-1252 assigns to byte `b`. Bytes 0x80..=0x9F
/// have their own table; the five bytes it leaves undefined (0x81, 0x8D,
/// 0x8F, 0x90, 0x9D) and every other byte stand for the code point of the
/// same number (as in Latin-1).
pub open spec fn cp1252_char(b: u8) -> char {
    if b == 0x80 { '\u{20AC}' }
    else if b == 0x82 { '\u{201A}' }
    else if b == 0x83 { '\u{0192}' }
    else if b == 0x84 { '\u{201E}' }
    else if b == 0x85 { '\u{2026}' }
    else if b == 0x86 { '\u{2020}' }
    else if b == 0x87 { '\u{2021}' }
    else if b == 0x88 { '\u{02C6}' }
    else if b == 0x89 { '\u{2030}' }
    else if b == 0x8A { '\u{0160}' }
    else if b == 0x8B { '\u{2039}' }
    else if b == 0x8C { '\u{0152}' }
    else if b == 0x8E { '\u{017D}' }
    else if b == 0x91 { '\u{2018}' }
    else if b == 0x92 { '\u{2019}' }
    else if b == 0x93 { '\u{201C}' }
    else if b == 0x94 { '\u{201D}' }
    else if b == 0x95 { '\u{2022}' }
    else if b == 0x96 { '\u{2013}' }
    else if b == 0x97 { '\u{2014}' }
    else if b == 0x98 { '\u{02DC}' }
    else if b == 0x99 { '\u{2122}' }
    else if b == 0x9A { '\u{0161}' }
    else if b == 0x9B { '\u{203A}' }
    else if b == 0x9C { '\u{0153}' }
    else if b == 0x9E { '\u{017E}' }
    else if b == 0x9F { '\u{0178}' }
    else { (b as u32) as char }
}

/// What `decode_output` makes of `bytes`.
pub open spec fn decode_output_spec(bytes: Seq<u8>) -> Seq<char> {
    if valid_utf8(bytes) {
        decode_utf8(bytes)
    } else {
        bytes.map_values(|b: u8| cp1252_char(b))
    }
}

/// Windows-1252 decoding of one byte.
pub fn cp1252_decode(b: u8) -> (c: char)
    ensures
        c == cp1252_char(b),
{
    match b {
        0x80 => '\u{20AC}',
        0x82 => '\u{201A}',
        0x83 => '\u{0192}',
        0x84 => '\u{201E}',
        0x85 => '\u{2026}',
        0x86 => '\u{2020}',
        0x87 => '\u{2021}',
        0x88 => '\u{02C6}',
        0x89 => '\u{2030}',
        0x8A => '\u{0160}',
        0x8B => '\u{2039}',
        0x8C => '\u{0152}',
        0x8E => '\u{017D}',
        0x91 => '\u{2018}',
        0x92 => '\u{2019}',
        0x93 => '\u{201C}',
        0x94 => '\u{201D}',
        0x95 => '\u{2022}',
        0x96 => '\u{2013}',
        0x97 => '\u{2014}',
        0x98 => '\u{02DC}',
        0x99 => '\u{2122}',
        0x9A => '\u{0161}',
        0x9B => '\u{203A}',
        0x9C => '\u{0153}',
        0x9E => '\u{017E}',
        0x9F => '\u{0178}',
        _ => b as char,
    }
}

/// `std::str::from_utf8`: succeeds exactly on valid UTF-8, and the string
/// it gives back is made of the same bytes.
#[verifier::external_body]
fn str_from_utf8(bytes: &[u8]) -> (r: Option<&str>)
    ensures
        r is Some <==> valid_utf8(bytes@),
        r matches Some(s) ==> s.spec_bytes() == bytes@,
{
    std::str::from_utf8(bytes).ok()
}

/// Every byte decoded on its own through Windows-1252.
pub fn decode_cp1252(bytes: &[u8]) -> (s: String)
    ensures
        s@ == bytes@.map_values(|b: u8| cp1252_char(b)),
{
    let mut out = String::new();
    let mut i: usize = 0;
    while i < bytes.len()
        invariant
            i <= bytes.len(),
            out@ == bytes@.take(i as int).map_values(|b: u8| cp1252_char(b)),
        decreases bytes.len() - i,
    {
        let c = cp1252_decode(bytes[i]);
        push_char(&mut out, c);
        i = i + 1;
        assert(out@ =~= bytes@.take(i as int).map_values(|b: u8| cp1252_char(b)));
    }
    assert(bytes@.take(bytes.len() as int) =~= bytes@);
    out
}

/// Decodes a command's output: strict UTF-8 when the bytes are valid UTF-8,
/// Windows-1252 byte by byte otherwise.
pub fn decode_output(bytes: &[u8]) -> (s: String)
    ensures
        s@ == decode_output_spec(bytes@),
{
    match str_from_utf8(bytes) {
        Some(text) => {
            proof {
                vstd::utf8::encode_utf8_decode_utf8(text@);
            }
            text.to_owned()
        },
        None => decode_cp1252(bytes),
    }
}

} // verus!
