use vstd::prelude::*;
use vstd::utf8::{decode_utf8, valid_utf8};

verus! {

/// What `String::from_utf8_lossy` makes of a byte string.
pub uninterp spec fn utf8_lossy(bytes: Seq<u8>) -> Seq<char>;

/// The pretty-printed JSON text that `serde_json` makes of a byte string, or `None` where
/// the bytes are no JSON document.
pub uninterp spec fn json_pretty(bytes: Seq<u8>) -> Option<Seq<char>>;

/// `String::from_utf8_lossy`, taken as an owned string. Claimed: the result is a function
/// of the bytes alone, and on valid UTF-8 it is exactly the decoded text (std documents that
/// valid input is returned unchanged). What it makes of invalid sequences is left unsaid.
#[verifier::external_body]
pub(crate) fn from_utf8_lossy(data: &[u8]) -> (s: String)
    ensures
        s@ == utf8_lossy(data@),
        valid_utf8(data@) ==> s@ == decode_utf8(data@),
{
    String::from_utf8_lossy(data).to_string()
}

/// `serde_json::from_slice::<serde_json::Value>` followed by `serde_json::to_string_pretty`:
/// re-indents a JSON document. Claimed: the result is a function of the bytes alone, `None`
/// exactly where either call fails. What the pretty text looks like is left unsaid.
#[verifier::external_body]
pub(crate) fn to_pretty_json(data: &[u8]) -> (r: Option<String>)
    ensures
        match r {
            Some(s) => json_pretty(data@) == Some(s@),
            None => json_pretty(data@) is None,
        },
{
    match serde_json::from_slice::<serde_json::Value>(data) {
        Ok(json) => serde_json::to_string_pretty(&json).ok(),
        Err(_) => None,
    }
}

/// A lowercase hexadecimal digit of a value below sixteen.
pub open spec fn lower_hex_digit(n: int) -> char {
    if n < 10 {
        ('0' as int + n) as char
    } else {
        ('a' as int + n - 10) as char
    }
}

/// What goes before the byte at position `i` in a simple hex dump: nothing before the first
/// byte, two spaces before every fourth, one space otherwise.
pub open spec fn hex_delimiter(i: int) -> Seq<char> {
    if i == 0 {
        seq![]
    } else if i % 4 == 0 {
        seq![' ', ' ']
    } else {
        seq![' ']
    }
}

/// A simple hex dump: every byte as two lowercase hex digits, separated as
/// `hex_delimiter` says, on one line.
pub open spec fn simple_hex_text(bytes: Seq<u8>) -> Seq<char>
    decreases bytes.len(),
{
    if bytes.len() == 0 {
        seq![]
    } else {
        let b = bytes.last();
        simple_hex_text(bytes.drop_last()) + hex_delimiter(bytes.len() - 1) + seq![
            lower_hex_digit(b as int / 16),
            lower_hex_digit(b as int % 16),
        ]
    }
}

/// `pretty_hex::simple_hex`. Claimed, as its source shows (`HexConfig::simple`: no title, no
/// ASCII column, one row, chunks of one byte in groups of four): the result is
/// `simple_hex_text` of the bytes.
#[verifier::external_body]
pub(crate) fn simple_hex(data: &[u8]) -> (s: String)
    ensures
        s@ == simple_hex_text(data@),
{
    pretty_hex::simple_hex(&data)
}

} // verus!
