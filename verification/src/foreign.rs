//! Calls into other crates and into parts of std that have no contract of
//! their own. What each of them is trusted to do stands in its contract; all
//! else in this library is proved.

use chrono::{TimeZone, Utc};
use ripemd::{Digest, Ripemd160};
use std::sync::Arc;
use vstd::prelude::*;

verus! {

/// The lower-case hexadecimal digit of a number below 16.
pub open spec fn hex_digit(d: nat) -> char {
    if d < 10 {
        (48 + d) as char
    } else {
        (87 + d) as char
    }
}

/// Two hexadecimal digits for each byte, the higher one first.
pub open spec fn hex_text(bytes: Seq<u8>) -> Seq<char> {
    Seq::new(
        2 * bytes.len(),
        |i: int|
            if i % 2 == 0 {
                hex_digit((bytes[i / 2] / 16) as nat)
            } else {
                hex_digit((bytes[i / 2] % 16) as nat)
            },
    )
}

/// `hex::encode`: two lower-case hexadecimal digits for each byte, in order.
#[verifier::external_body]
pub(crate) fn hex_encode(bytes: &[u8]) -> (r: String)
    ensures
        r@ == hex_text(bytes@),
{
    hex::encode(bytes)
}

/// The RIPEMD-160 digest of a message.
pub uninterp spec fn ripemd160(message: Seq<u8>) -> Seq<u8>;

/// `Ripemd160::new`, `update` and `finalize`: the digest of the message, which
/// has 20 bytes.
#[verifier::external_body]
pub(crate) fn ripemd160_digest(message: &[u8]) -> (r: Vec<u8>)
    ensures
        r@ == ripemd160(message@),
        r@.len() == 20,
{
    let mut hasher = Ripemd160::new();
    hasher.update(message);
    hasher.finalize().to_vec()
}

/// The base-58 text of a byte string, in the Bitcoin alphabet.
pub uninterp spec fn base58_text(bytes: Seq<u8>) -> Seq<char>;

/// The byte string that a base-58 text stands for, if it is one.
pub uninterp spec fn base58_bytes(s: Seq<char>) -> Option<Seq<u8>>;

/// `bs58::encode(..).into_string()`: the base-58 text of a byte string, which
/// decodes to that byte string again.
#[verifier::external_body]
pub(crate) fn base58_encode(bytes: &[u8]) -> (r: String)
    ensures
        r@ == base58_text(bytes@),
        base58_bytes(r@) == Some(bytes@),
{
    bs58::encode(bytes).into_string()
}

/// `bs58::decode(..).into_vec()`: the byte string that a base-58 text stands
/// for; nothing where it reports an error.
#[verifier::external_body]
pub(crate) fn base58_decode(s: &str) -> (r: Option<Vec<u8>>)
    ensures
        match r {
            Some(v) => base58_bytes(s@) == Some(v@),
            None => base58_bytes(s@) is None,
        },
{
    bs58::decode(s).into_vec().ok()
}

/// An instant in UTC, given in microseconds since the Unix epoch, rendered by
/// a format string of chrono's.
pub uninterp spec fn utc_text(micros: int, format: Seq<char>) -> Seq<char>;

/// Whether an instant lies in the years -262143 to 262142.
pub open spec fn in_calendar(micros: int) -> bool {
    -8_334_601_228_800_000_000 <= micros < 8_210_266_876_800_000_000
}

/// `Utc.timestamp_micros(..).single()` and `DateTime::format`: the instant's
/// text, if the calendar covers it.
#[verifier::external_body]
pub(crate) fn utc_format(micros: i64, format: &str) -> (r: Option<String>)
    requires
        format@ == "%Y-%m-%dT%H:%M:%S%.3f"@,
    ensures
        r is Some <==> in_calendar(micros as int),
        r matches Some(t) ==> t@ == utc_text(micros as int, format@),
{
    Utc.timestamp_micros(micros).single().map(|dt| dt.format(format).to_string())
}

/// What becomes of a byte string when it is read as UTF-8 and each ill-formed
/// part is replaced.
pub uninterp spec fn lossy_text(bytes: Seq<u8>) -> Seq<char>;

/// The text that a byte string holds: what its UTF-8 says, and where that is
/// ill-formed, the text with each ill-formed part replaced.
pub open spec fn utf8_text(bytes: Seq<u8>) -> Seq<char> {
    if vstd::utf8::valid_utf8(bytes) {
        vstd::utf8::decode_utf8(bytes)
    } else {
        lossy_text(bytes)
    }
}

/// `String::from_utf8_lossy`: the text with every ill-formed part replaced, so
/// that well-formed UTF-8 is read as it stands.
#[verifier::external_body]
pub(crate) fn text_lossy(bytes: &[u8]) -> (r: String)
    ensures
        r@ == lossy_text(bytes@),
        vstd::utf8::valid_utf8(bytes@) ==> r@ == vstd::utf8::decode_utf8(bytes@),
{
    String::from_utf8_lossy(bytes).into_owned()
}

/// `Arc::clone`: another pointer to the same value.
#[verifier::external_body]
pub(crate) fn share<T>(value: &Arc<T>) -> (r: Arc<T>)
    ensures
        r == *value,
{
    Arc::clone(value)
}

/// How a character stands in a JSON string.
pub open spec fn json_char(c: char) -> Seq<char> {
    let code = c as nat;
    if c == '"' || c == '\\' {
        seq!['\\', c]
    } else if c == '\u{8}' {
        seq!['\\', 'b']
    } else if c == '\t' {
        seq!['\\', 't']
    } else if c == '\n' {
        seq!['\\', 'n']
    } else if c == '\u{c}' {
        seq!['\\', 'f']
    } else if c == '\r' {
        seq!['\\', 'r']
    } else if code < 32 {
        seq!['\\', 'u', '0', '0', hex_digit(code / 16), hex_digit(code % 16)]
    } else {
        seq![c]
    }
}

/// The characters of a JSON string, without the quotes.
pub open spec fn json_chars(s: Seq<char>) -> Seq<char>
    decreases s.len(),
{
    if s.len() == 0 {
        seq![]
    } else {
        json_chars(s.drop_last()) + json_char(s.last())
    }
}

/// A text as a JSON string.
pub open spec fn json_literal(s: Seq<char>) -> Seq<char> {
    seq!['"'] + json_chars(s) + seq!['"']
}

/// `serde_json::to_string` on a string: the text in quotes, with quotes,
/// backslashes and control characters escaped. It does not fail on a string.
#[verifier::external_body]
pub(crate) fn json_string(s: &str) -> (r: String)
    ensures
        r@ == json_literal(s@),
{
    serde_json::to_string(s).unwrap_or_default()
}

/// A text without the white space around it.
pub uninterp spec fn trimmed_text(s: Seq<char>) -> Seq<char>;

/// Whether a character is white space of ASCII.
pub open spec fn is_ascii_space(c: char) -> bool {
    c == ' ' || '\t' <= c <= '\r'
}

/// A text without the ASCII white space at its end.
pub open spec fn without_end(s: Seq<char>) -> Seq<char>
    decreases s.len(),
{
    if s.len() > 0 && is_ascii_space(s.last()) {
        without_end(s.drop_last())
    } else {
        s
    }
}

/// A text without the ASCII white space at its start.
pub open spec fn without_start(s: Seq<char>) -> Seq<char>
    decreases s.len(),
{
    if s.len() > 0 && is_ascii_space(s[0]) {
        without_start(s.drop_first())
    } else {
        s
    }
}

/// A text without the white space around it: without that of ASCII, if it is
/// an ASCII text.
pub open spec fn stripped(s: Seq<char>) -> Seq<char> {
    if forall|i: int| 0 <= i < s.len() ==> s[i] <= '~' {
        without_end(without_start(s))
    } else {
        trimmed_text(s)
    }
}

/// `str::trim`: the text without leading and trailing white space. In an ASCII
/// text that is spaces, tabs, and the line and page breaks.
#[verifier::external_body]
pub(crate) fn trim_text(s: &str) -> (r: String)
    ensures
        r@ == trimmed_text(s@),
        (forall|i: int| 0 <= i < s@.len() ==> s@[i] <= '~') ==> r@ == without_end(
            without_start(s@),
        ),
{
    s.trim().to_string()
}

/// A text in lower case.
pub uninterp spec fn lower_text(s: Seq<char>) -> Seq<char>;

/// A capital ASCII letter as a small one; any other character as it is.
pub open spec fn ascii_lower(c: char) -> char {
    if 'A' <= c <= 'Z' {
        (c as nat + 32) as char
    } else {
        c
    }
}

/// `str::to_lowercase`: the text in lower case. In an ASCII text only the
/// capital letters change.
#[verifier::external_body]
pub(crate) fn lowercase(s: &str) -> (r: String)
    ensures
        r@ == lower_text(s@),
        (forall|i: int| 0 <= i < s@.len() ==> s@[i] <= '~') ==> r@ == Seq::new(
            s@.len(),
            |i: int| ascii_lower(s@[i]),
        ),
{
    s.to_lowercase()
}

} // verus!
