//! Public key and signature decoding from the Antelope binary formats into
//! the canonical `PUB_K1_...` / `SIG_K1_...` string representations.

use crate::antelope::reader::ByteReader;
use crate::antelope::wire;
use crate::antelope::wire::{Cursor, Fault, HasFault};
use crate::antelope::AntelopeError;
use crate::bytes::{append_bytes, owned, same_bytes};
use crate::foreign;
use crate::text;
use vstd::prelude::*;
use vstd::string::*;

verus! {

broadcast use wire::group_latch;

/// A payload with the first four bytes of the digest of the payload and a
/// suffix behind it.
pub open spec fn checksummed(payload: Seq<u8>, suffix: Seq<u8>) -> Seq<u8> {
    payload + foreign::ripemd160(payload + suffix).take(4)
}

/// A key or a signature as text: prefix, suffix, underscore, and the payload
/// in base 58 with a checksum over payload and suffix.
pub open spec fn key_text(prefix: Seq<char>, suffix: Seq<char>, payload: Seq<u8>) -> Seq<char> {
    prefix + suffix + seq!['_'] + foreign::base58_text(
        checksummed(payload, vstd::utf8::encode_utf8(suffix)),
    )
}

/// The name of a key type.
pub open spec fn key_type_text(tag: u8) -> Seq<char> {
    if tag == 0 {
        "K1"@
    } else if tag == 1 {
        "R1"@
    } else {
        "WA"@
    }
}

/// The end of a public key after its type: a compressed point of 33 bytes,
/// and for a WebAuthn key one more byte and a string.
pub open spec fn skip_public_key(tag: u8, c: Cursor) -> Cursor {
    let (_, c1) = wire::get_exact(c, 33);
    if tag < 2 {
        c1
    } else {
        let (_, c2) = wire::get_u8(c1);
        let (_, c3) = wire::get_blob(c2);
        c3
    }
}

/// The end of a signature after its type: a compact signature of 65 bytes,
/// and for a WebAuthn signature two strings.
pub open spec fn skip_signature(tag: u8, c: Cursor) -> Cursor {
    let (_, c1) = wire::get_exact(c, 65);
    if tag < 2 {
        c1
    } else {
        let (_, c2) = wire::get_blob(c1);
        let (_, c3) = wire::get_blob(c2);
        c3
    }
}

/// A public key: a type, then the bytes of the key.
pub open spec fn get_public_key(c: Cursor) -> (Seq<char>, Cursor) {
    let (tag, c1) = wire::get_u8(c);
    let c2 = c1.checked(tag <= 2, Fault::BadKeyType(tag));
    let end = skip_public_key(tag, c2);
    if end.sound() {
        (
            key_text("PUB_"@, key_type_text(tag), c2.rest.take(c2.rest.len() - end.rest.len())),
            end,
        )
    } else {
        (seq![], end)
    }
}

/// A signature: a type, then the bytes of the signature.
pub open spec fn get_signature(c: Cursor) -> (Seq<char>, Cursor) {
    let (tag, c1) = wire::get_u8(c);
    let c2 = c1.checked(tag <= 2, Fault::BadKeyType(tag));
    let end = skip_signature(tag, c2);
    if end.sound() {
        (
            key_text("SIG_"@, key_type_text(tag), c2.rest.take(c2.rest.len() - end.rest.len())),
            end,
        )
    } else {
        (seq![], end)
    }
}

/// No signature is read at a fault.
pub broadcast proof fn lemma_signature_latch(c: Cursor)
    ensures
        !c.sound() ==> (#[trigger] get_signature(c)).1 == c,
{
}

/// A key does not depend on the bytes behind it.
pub broadcast proof fn lemma_public_key_extends(c: Cursor, extra: Seq<u8>)
    ensures
        get_public_key(c).1.sound() ==> #[trigger] get_public_key(wire::extended(c, extra)) == (
            get_public_key(c).0,
            wire::extended(get_public_key(c).1, extra),
        ),
{
    broadcast use {wire::group_shrinks, wire::group_extends};

    if get_public_key(c).1.sound() {
        let (tag, c1) = wire::get_u8(c);
        let end = get_public_key(c).1;
        let n = c1.rest.len() - end.rest.len();
        assert(skip_public_key(tag, wire::extended(c1, extra)) == wire::extended(end, extra));
        assert((c1.rest + extra).take(n) =~= c1.rest.take(n));
    }
}

/// A signature does not depend on the bytes behind it.
pub broadcast proof fn lemma_signature_extends(c: Cursor, extra: Seq<u8>)
    ensures
        get_signature(c).1.sound() ==> #[trigger] get_signature(wire::extended(c, extra)) == (
            get_signature(c).0,
            wire::extended(get_signature(c).1, extra),
        ),
{
    broadcast use {wire::group_shrinks, wire::group_extends};

    if get_signature(c).1.sound() {
        let (tag, c1) = wire::get_u8(c);
        let end = get_signature(c).1;
        let n = c1.rest.len() - end.rest.len();
        assert(skip_signature(tag, wire::extended(c1, extra)) == wire::extended(end, extra));
        assert((c1.rest + extra).take(n) =~= c1.rest.take(n));
    }
}

/// Reading a key leaves no more bytes than there were.
pub broadcast proof fn lemma_public_key_shrinks(c: Cursor)
    ensures
        (#[trigger] get_public_key(c)).1.rest.len() <= c.rest.len(),
{
    broadcast use wire::group_shrinks;

}

/// Reading a signature leaves no more bytes than there were.
pub broadcast proof fn lemma_signature_shrinks(c: Cursor)
    ensures
        (#[trigger] get_signature(c)).1.rest.len() <= c.rest.len(),
{
    broadcast use wire::group_shrinks;

}

pub open spec fn is_letter(c: char) -> bool {
    'a' <= c <= 'z' || 'A' <= c <= 'Z'
}

/// The payload of a key in the older form with a prefix of `n` letters: in
/// base 58, 33 bytes and the first four of their digest.
pub open spec fn legacy_payload(key: Seq<char>, n: int) -> Option<Seq<u8>> {
    if key.len() > n && (forall|i: int| 0 <= i < n ==> is_letter(#[trigger] key[i])) {
        match foreign::base58_bytes(key.skip(n)) {
            Some(data) => if data.len() == 37 && data == checksummed(data.take(33), seq![]) {
                Some(data.take(33))
            } else {
                None
            },
            None => None,
        }
    } else {
        None
    }
}

/// A key in `PUB_` form, if it is one or is in the older form.
pub open spec fn normalized(key: Seq<char>) -> Seq<char> {
    if text::has_prefix(key, "PUB_"@) {
        key
    } else if legacy_payload(key, 4) is Some {
        key_text("PUB_"@, "K1"@, legacy_payload(key, 4)->0)
    } else if legacy_payload(key, 3) is Some {
        key_text("PUB_"@, "K1"@, legacy_payload(key, 3)->0)
    } else if legacy_payload(key, 2) is Some {
        key_text("PUB_"@, "K1"@, legacy_payload(key, 2)->0)
    } else {
        key
    }
}

/// A payload with the first four bytes of a digest behind it.
pub fn with_checksum(payload: &[u8], digest: &[u8]) -> (r: Vec<u8>)
    requires
        digest@.len() >= 4,
    ensures
        r@ == payload@ + digest@.take(4),
{
    let mut data: Vec<u8> = owned(payload);
    append_bytes(&mut data, vstd::slice::slice_subrange(digest, 0, 4));
    assert(data@ == payload@ + digest@.take(4));
    data
}

/// The payload of a key in the older form, given the digest of its first 33
/// bytes: those bytes, if the four behind them are those of the digest.
pub fn checked_payload(data: &[u8], digest: &[u8]) -> (r: Option<Vec<u8>>)
    requires
        data@.len() == 37,
        digest@.len() >= 4,
    ensures
        match r {
            Some(p) => data@ == p@ + digest@.take(4),
            None => data@ != data@.take(33) + digest@.take(4),
        },
{
    let payload: &[u8] = vstd::slice::slice_subrange(data, 0, 33);
    let expected: &[u8] = vstd::slice::slice_subrange(digest, 0, 4);
    let given: &[u8] = vstd::slice::slice_subrange(data, 33, 37);
    assert(payload@ == data@.take(33));
    assert(expected@ == digest@.take(4));
    assert(data@ == payload@ + given@);
    if !same_bytes(expected, given) {
        assert((payload@ + expected@).skip(33) == expected@);
        assert(data@.skip(33) == given@);
        return None;
    }
    Some(owned(payload))
}

/// A key or a signature as text, given its payload and checksum in base 58.
pub fn label(prefix: &str, suffix: &str, body: &str) -> (r: String)
    ensures
        r@ == prefix@ + suffix@ + seq!['_'] + body@,
{
    let mut out: String = prefix.to_owned();
    out.append(suffix);
    out.push('_');
    out.append(body);
    assert(out@ == prefix@ + suffix@ + seq!['_'] + body@);
    out
}

fn checksummed_base58(prefix: &str, suffix: &str, payload: &[u8]) -> (r: String)
    ensures
        r@ == key_text(prefix@, suffix@, payload@),
{
    let mut message: Vec<u8> = owned(payload);
    append_bytes(&mut message, suffix.as_bytes());
    let digest: Vec<u8> = foreign::ripemd160_digest(message.as_slice());
    let data: Vec<u8> = with_checksum(payload, digest.as_slice());
    label(prefix, suffix, foreign::base58_encode(data.as_slice()).as_str())
}

fn key_type(tag: u8) -> (r: Result<&'static str, AntelopeError>)
    ensures
        match r {
            Ok(t) => tag <= 2 && t@ == key_type_text(tag),
            Err(e) => tag > 2 && e.fault() == Fault::BadKeyType(tag),
        },
{
    if tag == 0 {
        Ok("K1")
    } else if tag == 1 {
        Ok("R1")
    } else if tag == 2 {
        Ok("WA")
    } else {
        Err(AntelopeError::BadKeyType(tag))
    }
}

/// Read a binary `public_key` and render it as `PUB_<type>_...`.
pub fn read_public_key(reader: &mut ByteReader) -> (r: Result<String, AntelopeError>)
    ensures
        super::reader::reads(get_public_key(old(reader).cursor()), r, *old(reader), *final(reader)),
{
    let tag: u8 = reader.read_u8()?;
    let suffix: &str = key_type(tag)?;
    let ghost from = reader.rest();
    let start: usize = reader.pos();
    reader.read_exact(33)?;
    if tag == 2 {
        // WA key: 33-byte compressed point + user_presence + rpid string.
        reader.read_u8()?;
        reader.read_bytes()?;
    }
    assert(reader.rest().len() <= from.len()) by {
        broadcast use wire::group_shrinks;

    }
    let end: usize = reader.pos();
    let payload: &[u8] = reader.data_slice(start, end);
    assert(payload@ == from.take(from.len() - reader.rest().len()));
    Ok(checksummed_base58("PUB_", suffix, payload))
}

/// Read a binary `signature` and render it as `SIG_<type>_...`.
pub fn read_signature(reader: &mut ByteReader) -> (r: Result<String, AntelopeError>)
    ensures
        super::reader::reads(get_signature(old(reader).cursor()), r, *old(reader), *final(reader)),
{
    let tag: u8 = reader.read_u8()?;
    let suffix: &str = key_type(tag)?;
    let ghost from = reader.rest();
    let start: usize = reader.pos();
    reader.read_exact(65)?;
    if tag == 2 {
        // WA signature: compact sig + auth_data bytes + client_json string.
        reader.read_bytes()?;
        reader.read_bytes()?;
    }
    assert(reader.rest().len() <= from.len()) by {
        broadcast use wire::group_shrinks;

    }
    let end: usize = reader.pos();
    let payload: &[u8] = reader.data_slice(start, end);
    assert(payload@ == from.take(from.len() - reader.rest().len()));
    Ok(checksummed_base58("SIG_", suffix, payload))
}

/// The payload of a key in the older form with a prefix of `n` letters.
fn legacy_key_payload(key: &Vec<char>, n: usize) -> (r: Option<Vec<u8>>)
    ensures
        match r {
            Some(p) => legacy_payload(key@, n as int) == Some(p@),
            None => legacy_payload(key@, n as int) is None,
        },
{
    if key.len() <= n {
        return None;
    }
    let mut i: usize = 0;
    while i < n
        invariant
            i <= n < key@.len(),
            forall|j: int| 0 <= j < i ==> is_letter(#[trigger] key@[j]),
        decreases n - i,
    {
        let c: char = key[i];
        if !('a' <= c && c <= 'z') && !('A' <= c && c <= 'Z') {
            return None;
        }
        i = i + 1;
    }
    let body: String = text::text_between(key, n, key.len());
    assert(body@ == key@.skip(n as int));
    let data: Vec<u8> = match foreign::base58_decode(body.as_str()) {
        Some(d) => d,
        None => return None,
    };
    if data.len() != 37 {
        return None;
    }
    let payload: &[u8] = vstd::slice::slice_subrange(data.as_slice(), 0, 33);
    let digest: Vec<u8> = foreign::ripemd160_digest(payload);
    assert(payload@ == data@.take(33));
    assert(payload@ + Seq::<u8>::empty() == payload@);
    let r = checked_payload(data.as_slice(), digest.as_slice());
    assert(r matches Some(p) ==> p@ == data@.take(33));
    r
}

/// Normalize a public key string to the `PUB_K1_...` form used in indexed
/// documents. Legacy keys (`EOS...` and other chain prefixes) carry the same
/// 33-byte payload with a suffix-less checksum; re-encode them. Keys already
/// in `PUB_` form pass through unchanged.
pub fn normalize_public_key(key: &str) -> (r: String)
    ensures
        r@ == normalized(key@),
{
    if text::starts_with(key, "PUB_") {
        return key.to_owned();
    }
    let cs = text::chars(key);
    // Legacy prefixes are short runs of letters (EOS, WAX, FIO, ...). Try the
    // known common lengths, longest first.
    if let Some(payload) = legacy_key_payload(&cs, 4) {
        return checksummed_base58("PUB_", "K1", payload.as_slice());
    }
    if let Some(payload) = legacy_key_payload(&cs, 3) {
        return checksummed_base58("PUB_", "K1", payload.as_slice());
    }
    if let Some(payload) = legacy_key_payload(&cs, 2) {
        return checksummed_base58("PUB_", "K1", payload.as_slice());
    }
    key.to_owned()
}

// ---------------------------------------------------------------------------
// Normal forms
// ---------------------------------------------------------------------------

/// A normal form is its own normal form.
pub proof fn law_normalized_is_normal(key: Seq<char>)
    ensures
        normalized(normalized(key)) == normalized(key),
{
    let n = normalized(key);
    if n != key {
        assert(n.take(4) == "PUB_"@) by {
            reveal_strlit("PUB_");
        }
        reveal_strlit("PUB_");
    }
}

/// A key in the older form, with a prefix of two to four letters, has the
/// same normal form as the binary key of type 0 that carries its payload:
/// unless the letters that follow the prefix make a longer prefix behind
/// which another whole key stands.
pub proof fn law_legacy_key_normal_form(key: Seq<char>, n: int, payload: Seq<u8>)
    requires
        2 <= n <= 4,
        !text::has_prefix(key, "PUB_"@),
    ensures
        legacy_payload(key, n) == Some(payload) && (forall|m: int|
            n < m <= 4 ==> #[trigger] legacy_payload(key, m) is None) ==> {
            &&& normalized(key) == get_public_key(wire::at(seq![0u8] + payload)).0
            &&& get_public_key(wire::at(seq![0u8] + payload)).1 == wire::at(seq![])
        },
{
    if legacy_payload(key, n) == Some(payload) && (forall|m: int|
        n < m <= 4 ==> #[trigger] legacy_payload(key, m) is None) {
        let raw = seq![0u8] + payload;
        let c = wire::at(raw);
        assert(legacy_payload(key, 4) is None || n == 4);
        assert(raw.take(1) == seq![0u8]);
        assert(raw.skip(1) == payload);
        reveal_with_fuel(wire::le_value, 2);
        reveal(wire::get_exact);
        reveal(wire::get_u8);
        assert(wire::get_u8(c) == (0u8, wire::at(payload)));
        assert(payload.skip(33) == Seq::<u8>::empty());
        assert(payload.take(33) == payload);
    }
}

} // verus!
