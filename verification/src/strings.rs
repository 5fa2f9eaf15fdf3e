//! Conversions between bytes, strings and characters, through std.
use vstd::prelude::*;
use vstd::utf8::{decode_utf8, encode_utf8, valid_utf8};

use crate::dtb::{all_ascii, ascii_chars};

verus! {

/// `core::str::from_utf8(b)`: the string the bytes spell, `None` for bytes
/// that are not UTF-8. Claimed as std documents it: the result is present
/// exactly for valid UTF-8 and holds its decoded characters (so ASCII bytes
/// give the same characters).
#[verifier::external_body]
pub(crate) fn utf8_str(b: &[u8]) -> (r: Option<&str>)
    ensures
        r is Some <==> valid_utf8(b@),
        r matches Some(s) ==> s@ == decode_utf8(b@),
        all_ascii(b@) ==> r is Some,
        all_ascii(b@) ==> r->Some_0@ == ascii_chars(b@),
{
    match core::str::from_utf8(b) {
        Ok(s) => Some(s),
        Err(_) => None,
    }
}

/// `s.chars()`, collected: the characters of `s` in order.
#[verifier::external_body]
pub(crate) fn str_chars(s: &str) -> (r: Vec<char>)
    ensures
        r@ == s@,
{
    s.chars().collect()
}

/// The UTF-8 bytes of `c`: one byte below 0x80, then two, three or four
/// bytes by the size of the scalar value.
pub(crate) fn char_utf8(c: char) -> (r: Vec<u8>)
    ensures
        r@ == encode_utf8(seq![c]),
{
    let v = c as u32;
    let mut r: Vec<u8> = Vec::new();
    if v <= 0x7F {
        r.push((v & 0x7F) as u8);
    } else if v <= 0x7FF {
        r.push(0xC0 | ((v >> 6) & 0x1F) as u8);
        r.push(0x80 | (v & 0x3F) as u8);
    } else if v <= 0xFFFF {
        r.push(0xE0 | ((v >> 12) & 0x0F) as u8);
        r.push(0x80 | ((v >> 6) & 0x3F) as u8);
        r.push(0x80 | (v & 0x3F) as u8);
    } else {
        r.push(0xF0 | ((v >> 18) & 0x7) as u8);
        r.push(0x80 | ((v >> 12) & 0x3F) as u8);
        r.push(0x80 | ((v >> 6) & 0x3F) as u8);
        r.push(0x80 | (v & 0x3F) as u8);
    }
    proof {
        vstd::utf8::char_is_scalar(c);
        let cs = seq![c];
        assert(cs.drop_first() =~= Seq::<char>::empty());
        assert(encode_utf8(cs) =~= vstd::utf8::encode_scalar(c as u32) + encode_utf8(cs.drop_first()));
        assert(r@ =~= encode_utf8(cs));
    }
    r
}

} // verus!
