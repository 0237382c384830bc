//! Text helpers: decoding line bytes and truncating displayed text.

use vstd::prelude::*;

verus! {

/// The first `max_len` characters of `s`, or all of `s` when it is not longer.
pub open spec fn truncated(s: Seq<char>, max_len: nat) -> Seq<char> {
    if s.len() > max_len {
        s.take(max_len as int)
    } else {
        s
    }
}

/// Cuts `s` down to at most `max_len` characters, keeping its start.
pub fn trunc_str(s: &str, max_len: usize) -> (r: &str)
    ensures
        r@ == truncated(s@, max_len as nat),
{
    if s.unicode_len() > max_len {
        s.substring_char(0, max_len)
    } else {
        s
    }
}

} // verus!

verus! {

/// What lossy UTF-8 decoding makes of a byte sequence.
pub uninterp spec fn lossy_utf8(b: Seq<u8>) -> Seq<char>;

/// A text with its trailing whitespace removed.
pub uninterp spec fn trimmed_end(s: Seq<char>) -> Seq<char>;

/// The text of a line whose bytes are `b`: decoded lossily, trailing
/// whitespace (the newline among it) removed.
pub open spec fn line_text(b: Seq<u8>) -> Seq<char> {
    trimmed_end(lossy_utf8(b))
}

/// Relies on `String::from_utf8_lossy`: decodes UTF-8, putting U+FFFD in place
/// of each invalid sequence; the result depends on the bytes alone.
#[verifier::external_body]
fn decode_lossy(b: &[u8]) -> (r: String)
    ensures
        r@ == lossy_utf8(b@),
{
    String::from_utf8_lossy(b).into_owned()
}

/// Relies on `str::trim_end`: the text without its trailing whitespace.
#[verifier::external_body]
fn trim_end_owned(s: &str) -> (r: String)
    ensures
        r@ == trimmed_end(s@),
{
    s.trim_end().to_string()
}

/// Decodes the bytes of one line into its displayed text.
pub fn decode_line(b: &[u8]) -> (r: String)
    ensures
        r@ == line_text(b@),
{
    let decoded = decode_lossy(b);
    trim_end_owned(decoded.as_str())
}

} // verus!
