//! How values are packed, and that what is packed is read back: the other side
//! of [`wire`](crate::antelope::wire).

use crate::antelope::codec;
use crate::antelope::codec::Codec;
use crate::antelope::keys;
use crate::antelope::name::Name;
use crate::antelope::wire;
use crate::antelope::wire::Cursor;
use crate::foreign;
use vstd::prelude::*;

verus! {

// ---------------------------------------------------------------------------
// Numbers
// ---------------------------------------------------------------------------

/// A number in groups of seven bits, the lowest first, each but the last with
/// its high bit set.
pub open spec fn varuint_bytes(v: nat) -> Seq<u8>
    decreases v,
{
    if v < 128 {
        seq![v as u8]
    } else {
        seq![(v % 128 + 128) as u8] + varuint_bytes(v / 128)
    }
}

proof fn lemma_pow128()
    ensures
        wire::pow128(0) == 1,
        wire::pow128(1) == 128,
        wire::pow128(2) == 16_384,
        wire::pow128(3) == 2_097_152,
        wire::pow128(4) == 268_435_456,
{
    reveal_with_fuel(wire::pow128, 6);
}

/// A byte is read back.
pub proof fn lemma_u8_at(b: u8, rest: Seq<u8>)
    ensures
        wire::get_u8(wire::at(seq![b] + rest)) == (b, wire::at(rest)),
{
    let s = seq![b] + rest;
    reveal(wire::get_exact);
    reveal(wire::get_u8);
    reveal_with_fuel(wire::le_value, 2);
    assert(s.take(1) == seq![b]);
    assert(s.skip(1) == rest);
}

proof fn lemma_varuint_from(v: nat, rest: Seq<u8>, i: nat, acc: nat)
    requires
        i <= 4,
        v * wire::pow128(i) <= u32::MAX,
    ensures
        wire::varuint_from(wire::at(varuint_bytes(v) + rest), i, acc) == (
            acc + v * wire::pow128(i),
            wire::at(rest),
        ),
    decreases 5 - i,
{
    lemma_pow128();
    let p = wire::pow128(i);
    if v < 128 {
        lemma_u8_at(v as u8, rest);
    } else {
        let b = (v % 128 + 128) as u8;
        let tail = varuint_bytes(v / 128);
        assert(varuint_bytes(v) + rest == seq![b] + (tail + rest));
        lemma_u8_at(b, tail + rest);
        assert(i < 4) by {
            if i == 4 {
                assert(v * p >= 128 * 268_435_456) by (nonlinear_arith)
                    requires
                        v >= 128,
                        p == 268_435_456,
                ;
            }
        }
        assert(wire::pow128(i + 1) == 128 * p);
        assert((v / 128) * (128 * p) + (v % 128) * p == v * p) by (nonlinear_arith)
            requires
                v == 128 * (v / 128) + v % 128,
        ;
        lemma_varuint_from(v / 128, rest, i + 1, acc + (v % 128) * p);
        assert((b % 128) as nat * p == (v % 128) * p);
    }
}

/// A number that was written is read back, and what follows it is untouched.
pub proof fn law_varuint_reads_back(v: u32, rest: Seq<u8>)
    ensures
        wire::get_varuint32(wire::at(varuint_bytes(v as nat) + rest)) == (v, wire::at(rest)),
{
    reveal(wire::get_varuint32);
    lemma_pow128();
    lemma_varuint_from(v as nat, rest, 0, 0);
}

proof fn lemma_le_bytes(v: nat, n: nat)
    requires
        v < wire::pow256(n),
    ensures
        wire::le_bytes(v, n).len() == n,
        wire::le_value(wire::le_bytes(v, n)) == v,
    decreases n,
{
    if n > 0 {
        let tail = wire::le_bytes(v / 256, (n - 1) as nat);
        lemma_le_bytes(v / 256, (n - 1) as nat);
        assert(wire::le_bytes(v, n).drop_first() == tail);
    }
}

/// Three byte strings one after another, in either grouping.
pub proof fn lemma_assoc(a: Seq<u8>, b: Seq<u8>, c: Seq<u8>)
    ensures
        a + b + c == a + (b + c),
{
    assert(a + b + c =~= a + (b + c));
}

proof fn lemma_exact_at(b: Seq<u8>, rest: Seq<u8>)
    ensures
        wire::get_exact(wire::at(b + rest), b.len()) == (b, wire::at(rest)),
{
    reveal(wire::get_exact);
    assert((b + rest).take(b.len() as int) == b);
    assert((b + rest).skip(b.len() as int) == rest);
}

/// A 32-bit number that was written is read back, and what follows it is
/// untouched.
pub proof fn law_u32_reads_back(v: u32, rest: Seq<u8>)
    ensures
        wire::get_u32(wire::at(wire::le_bytes(v as nat, 4) + rest)) == (v, wire::at(rest)),
{
    reveal(wire::get_u32);
    reveal_with_fuel(wire::pow256, 5);
    lemma_le_bytes(v as nat, 4);
    lemma_exact_at(wire::le_bytes(v as nat, 4), rest);
}

/// A 64-bit number that was written is read back, and what follows it is
/// untouched.
pub proof fn law_u64_reads_back(v: u64, rest: Seq<u8>)
    ensures
        wire::get_u64(wire::at(wire::le_bytes(v as nat, 8) + rest)) == (v, wire::at(rest)),
{
    reveal(wire::get_u64);
    reveal_with_fuel(wire::pow256, 9);
    lemma_le_bytes(v as nat, 8);
    lemma_exact_at(wire::le_bytes(v as nat, 8), rest);
}

/// A 8-bit number that was written is read back, and what follows it is
/// untouched.
pub proof fn law_u8_reads_back(v: u8, rest: Seq<u8>)
    ensures
        wire::get_u8(wire::at(wire::le_bytes(v as nat, 1) + rest)) == (v, wire::at(rest)),
{
    reveal(wire::get_u8);
    reveal_with_fuel(wire::pow256, 2);
    lemma_le_bytes(v as nat, 1);
    lemma_exact_at(wire::le_bytes(v as nat, 1), rest);
}

/// A 16-bit number that was written is read back, and what follows it is
/// untouched.
pub proof fn law_u16_reads_back(v: u16, rest: Seq<u8>)
    ensures
        wire::get_u16(wire::at(wire::le_bytes(v as nat, 2) + rest)) == (v, wire::at(rest)),
{
    reveal(wire::get_u16);
    reveal_with_fuel(wire::pow256, 3);
    lemma_le_bytes(v as nat, 2);
    lemma_exact_at(wire::le_bytes(v as nat, 2), rest);
}

/// A 128-bit number that was written is read back, and what follows it is
/// untouched.
pub proof fn law_u128_reads_back(v: u128, rest: Seq<u8>)
    ensures
        wire::get_u128(wire::at(wire::le_bytes(v as nat, 16) + rest)) == (v, wire::at(rest)),
{
    reveal(wire::get_u128);
    reveal_with_fuel(wire::pow256, 17);
    lemma_le_bytes(v as nat, 16);
    lemma_exact_at(wire::le_bytes(v as nat, 16), rest);
}

/// A signed number in two's complement, in `n` bytes.
pub open spec fn signed_bytes(v: int, n: nat) -> Seq<u8> {
    if v < 0 {
        wire::le_bytes((v + wire::pow256(n)) as nat, n)
    } else {
        wire::le_bytes(v as nat, n)
    }
}

/// A signed 8-bit number that was written is read back, and what follows it is
/// untouched.
pub proof fn law_i8_reads_back(v: i8, rest: Seq<u8>)
    ensures
        wire::get_i8(wire::at(signed_bytes(v as int, 1) + rest)) == (v, wire::at(rest)),
{
    reveal_with_fuel(wire::pow256, 2);
    let u: u8 = if v < 0 {
        (v + 0x100) as u8
    } else {
        v as u8
    };
    assert(v < 0 ==> ((v + 0x100) as u8) as i8 == v) by (bit_vector);
    assert(v >= 0 ==> (v as u8) as i8 == v) by (bit_vector);
    law_u8_reads_back(u, rest);
}

/// A signed 16-bit number that was written is read back, and what follows it is
/// untouched.
pub proof fn law_i16_reads_back(v: i16, rest: Seq<u8>)
    ensures
        wire::get_i16(wire::at(signed_bytes(v as int, 2) + rest)) == (v, wire::at(rest)),
{
    reveal_with_fuel(wire::pow256, 3);
    let u: u16 = if v < 0 {
        (v + 0x1_0000) as u16
    } else {
        v as u16
    };
    assert(v < 0 ==> ((v + 0x1_0000) as u16) as i16 == v) by (bit_vector);
    assert(v >= 0 ==> (v as u16) as i16 == v) by (bit_vector);
    law_u16_reads_back(u, rest);
}

/// A signed 32-bit number that was written is read back, and what follows it is
/// untouched.
pub proof fn law_i32_reads_back(v: i32, rest: Seq<u8>)
    ensures
        wire::get_i32(wire::at(signed_bytes(v as int, 4) + rest)) == (v, wire::at(rest)),
{
    reveal_with_fuel(wire::pow256, 5);
    let u: u32 = if v < 0 {
        (v + 0x1_0000_0000) as u32
    } else {
        v as u32
    };
    assert(v < 0 ==> ((v + 0x1_0000_0000) as u32) as i32 == v) by (bit_vector);
    assert(v >= 0 ==> (v as u32) as i32 == v) by (bit_vector);
    law_u32_reads_back(u, rest);
}

/// A signed 64-bit number that was written is read back, and what follows it is
/// untouched.
pub proof fn law_i64_reads_back(v: i64, rest: Seq<u8>)
    ensures
        wire::get_i64(wire::at(signed_bytes(v as int, 8) + rest)) == (v, wire::at(rest)),
{
    reveal_with_fuel(wire::pow256, 9);
    let u: u64 = if v < 0 {
        (v + 0x1_0000_0000_0000_0000) as u64
    } else {
        v as u64
    };
    assert(v < 0 ==> ((v + 0x1_0000_0000_0000_0000) as u64) as i64 == v) by (bit_vector);
    assert(v >= 0 ==> (v as u64) as i64 == v) by (bit_vector);
    law_u64_reads_back(u, rest);
}

/// A signed 128-bit number that was written is read back, and what follows it is
/// untouched.
pub proof fn law_i128_reads_back(v: i128, rest: Seq<u8>)
    ensures
        wire::get_i128(wire::at(signed_bytes(v as int, 16) + rest)) == (v, wire::at(rest)),
{
    reveal_with_fuel(wire::pow256, 17);
    let u: u128 = if v < 0 {
        (v + 0x1_0000_0000_0000_0000_0000_0000_0000_0000) as u128
    } else {
        v as u128
    };
    assert(v < 0 ==> ((v + 0x1_0000_0000_0000_0000_0000_0000_0000_0000) as u128) as i128 == v)
        by (bit_vector);
    assert(v >= 0 ==> (v as u128) as i128 == v) by (bit_vector);
    law_u128_reads_back(u, rest);
}

/// A truth value: one byte.
pub open spec fn bool_bytes(b: bool) -> Seq<u8> {
    if b {
        seq![1u8]
    } else {
        seq![0u8]
    }
}

/// A byte is read as a truth value: false exactly if it is zero.
pub proof fn law_byte_is_truth(b: u8, rest: Seq<u8>)
    ensures
        wire::get_bool(wire::at(seq![b] + rest)) == (b != 0, wire::at(rest)),
{
    lemma_u8_at(b, rest);
}

/// The code of a signed number: 0, -1, 1, -2, ... are 0, 1, 2, 3, ...
pub open spec fn zigzag_code(v: int) -> int {
    if v < 0 {
        -2 * v - 1
    } else {
        2 * v
    }
}

/// A signed number of variable length that was written is read back, and what
/// follows it is untouched.
pub proof fn law_varint_reads_back(v: i32, rest: Seq<u8>)
    ensures
        wire::get_varint32(wire::at(varuint_bytes(zigzag_code(v as int) as nat) + rest)) == (
            v,
            wire::at(rest),
        ),
{
    law_varuint_reads_back(zigzag_code(v as int) as u32, rest);
}

// ---------------------------------------------------------------------------
// Names and strings
// ---------------------------------------------------------------------------

/// A packed name: its number.
pub open spec fn name_bytes(n: Name) -> Seq<u8> {
    wire::le_bytes(n.0 as nat, 8)
}

/// A packed string: the length of its UTF-8, then the UTF-8.
pub open spec fn string_bytes(s: Seq<char>) -> Seq<u8> {
    let b = vstd::utf8::encode_utf8(s);
    varuint_bytes(b.len()) + b
}

/// Whether the length of a string can be written.
pub open spec fn string_fits(s: Seq<char>) -> bool {
    vstd::utf8::encode_utf8(s).len() <= u32::MAX
}

/// A string that was written is read back, and what follows it is untouched.
pub proof fn law_string_reads_back(s: Seq<char>, rest: Seq<u8>)
    requires
        string_fits(s),
    ensures
        wire::get_string(wire::at(string_bytes(s) + rest)) == (s, wire::at(rest)),
{
    reveal(wire::get_blob);
    let b = vstd::utf8::encode_utf8(s);
    assert(string_bytes(s) + rest == varuint_bytes(b.len()) + (b + rest));
    law_varuint_reads_back(b.len() as u32, b + rest);
    lemma_exact_at(b, rest);
    vstd::utf8::encode_utf8_valid_utf8(s);
    vstd::utf8::encode_utf8_decode_utf8(s);
    assert(foreign::utf8_text(b) == s);
}

/// A packed byte string: its length, then its bytes.
pub open spec fn blob_bytes(b: Seq<u8>) -> Seq<u8> {
    varuint_bytes(b.len()) + b
}

/// A byte string that was written is read back, and what follows it is
/// untouched.
pub proof fn law_blob_reads_back(b: Seq<u8>, rest: Seq<u8>)
    requires
        b.len() <= u32::MAX,
    ensures
        wire::get_blob(wire::at(blob_bytes(b) + rest)) == (b, wire::at(rest)),
{
    reveal(wire::get_blob);
    assert(blob_bytes(b) + rest == varuint_bytes(b.len()) + (b + rest));
    law_varuint_reads_back(b.len() as u32, b + rest);
    lemma_exact_at(b, rest);
}

/// Bytes of a fixed number are read back, and what follows them is untouched.
pub proof fn law_exact_reads_back(b: Seq<u8>, rest: Seq<u8>)
    ensures
        wire::get_exact(wire::at(b + rest), b.len()) == (b, wire::at(rest)),
{
    lemma_exact_at(b, rest);
}

/// A digest is read as the hexadecimal text of its bytes.
pub proof fn law_digest_reads_back(b: Seq<u8>, rest: Seq<u8>)
    requires
        b.len() == 32,
    ensures
        wire::get_digest(wire::at(b + rest)) == (foreign::hex_text(b), wire::at(rest)),
{
    lemma_exact_at(b, rest);
}

/// Byte strings with the same hexadecimal text are the same.
pub proof fn law_hex_tells_bytes(a: Seq<u8>, b: Seq<u8>)
    requires
        foreign::hex_text(a) == foreign::hex_text(b),
    ensures
        a == b,
{
    let (s, t) = (foreign::hex_text(a), foreign::hex_text(b));
    assert(s.len() == 2 * a.len() && t.len() == 2 * b.len());
    assert forall|i: int| 0 <= i < a.len() implies a[i] == b[i] by {
        assert(s[2 * i] == t[2 * i]);
        assert(s[2 * i + 1] == t[2 * i + 1]);
        assert(a[i] / 16 == b[i] / 16);
        assert(a[i] % 16 == b[i] % 16);
    }
    assert(a =~= b);
}

/// Whether a text is that of a digest.
pub open spec fn is_digest(s: Seq<char>) -> bool {
    exists|b: Seq<u8>| b.len() == 32 && #[trigger] foreign::hex_text(b) == s
}

/// The digest that a text is of.
pub open spec fn digest_bytes(s: Seq<char>) -> Seq<u8> {
    choose|b: Seq<u8>| b.len() == 32 && #[trigger] foreign::hex_text(b) == s
}

/// A digest that was written is read back as its text, and what follows it is
/// untouched.
pub proof fn law_digest_text_reads_back(s: Seq<char>, rest: Seq<u8>)
    requires
        is_digest(s),
    ensures
        wire::get_digest(wire::at(digest_bytes(s) + rest)) == (s, wire::at(rest)),
{
    law_digest_reads_back(digest_bytes(s), rest);
}

// ---------------------------------------------------------------------------
// Keys and signatures
// ---------------------------------------------------------------------------

/// Whether bytes are those of a packed key: its type, then a compressed point,
/// and behind a WebAuthn one a byte and a string.
pub open spec fn is_key(b: Seq<u8>) -> bool {
    ||| b.len() == 34 && b[0] <= 1
    ||| b.len() > 35 && b[0] == 2 && exists|s: Seq<u8>|
        s.len() <= u32::MAX && b.skip(35) == #[trigger] blob_bytes(s)
}

/// Whether bytes are those of a packed signature: its type, then a compact
/// signature, and behind a WebAuthn one two strings.
pub open spec fn is_signature(b: Seq<u8>) -> bool {
    ||| b.len() == 66 && b[0] <= 1
    ||| b.len() > 66 && b[0] == 2 && exists|s: Seq<u8>, t: Seq<u8>|
        s.len() <= u32::MAX && t.len() <= u32::MAX && b.skip(66) == #[trigger] blob_bytes(s)
            + #[trigger] blob_bytes(t)
}

/// The text of a packed key or signature: the kind of thing it is, the kind of
/// key, and the bytes behind the type with a checksum, in base 58.
pub open spec fn key_form(prefix: Seq<char>, b: Seq<u8>) -> Seq<char> {
    let payload = b.skip(1);
    let kind = if b[0] == 0 {
        seq!['K', '1']
    } else if b[0] == 1 {
        seq!['R', '1']
    } else {
        seq!['W', 'A']
    };
    prefix + kind + seq!['_'] + foreign::base58_text(
        payload + foreign::ripemd160(payload + vstd::utf8::encode_utf8(kind)).take(4),
    )
}

proof fn lemma_kinds()
    ensures
        "K1"@ == seq!['K', '1'],
        "R1"@ == seq!['R', '1'],
        "WA"@ == seq!['W', 'A'],
        "PUB_"@ == seq!['P', 'U', 'B', '_'],
        "SIG_"@ == seq!['S', 'I', 'G', '_'],
{
    reveal_strlit("K1");
    reveal_strlit("R1");
    reveal_strlit("WA");
    reveal_strlit("PUB_");
    reveal_strlit("SIG_");
}

/// A packed key is read as its text, and what follows it is untouched.
pub proof fn law_key_reads_back(b: Seq<u8>, rest: Seq<u8>)
    requires
        is_key(b),
    ensures
        keys::get_public_key(wire::at(b + rest)) == (
            key_form(seq!['P', 'U', 'B', '_'], b),
            wire::at(rest),
        ),
{
    lemma_kinds();
    let payload = b.skip(1);
    assert(b + rest == seq![b[0]] + (payload + rest));
    lemma_u8_at(b[0], payload + rest);
    if b[0] <= 1 {
        lemma_exact_at(payload, rest);
    } else {
        let s = choose|s: Seq<u8>|
            s.len() <= u32::MAX && b.skip(35) == #[trigger] blob_bytes(s);
        let point = b.subrange(1, 34);
        let r2 = blob_bytes(s) + rest;
        assert(payload + rest == point + (seq![b[34]] + r2));
        lemma_exact_at(point, seq![b[34]] + r2);
        lemma_u8_at(b[34], r2);
        law_blob_reads_back(s, rest);
    }
    assert((payload + rest).take((payload + rest).len() - rest.len()) == payload);
}

/// A packed signature is read as its text, and what follows it is untouched.
pub proof fn law_signature_reads_back(b: Seq<u8>, rest: Seq<u8>)
    requires
        is_signature(b),
    ensures
        keys::get_signature(wire::at(b + rest)) == (
            key_form(seq!['S', 'I', 'G', '_'], b),
            wire::at(rest),
        ),
{
    lemma_kinds();
    let payload = b.skip(1);
    assert(b + rest == seq![b[0]] + (payload + rest));
    lemma_u8_at(b[0], payload + rest);
    if b[0] <= 1 {
        lemma_exact_at(payload, rest);
    } else {
        let (s, t) = choose|s: Seq<u8>, t: Seq<u8>|
            s.len() <= u32::MAX && t.len() <= u32::MAX && b.skip(66) == #[trigger] blob_bytes(s)
                + #[trigger] blob_bytes(t);
        let compact = b.subrange(1, 66);
        let r2 = blob_bytes(t) + rest;
        assert(payload == compact + b.skip(66));
        assert(payload + rest == compact + (blob_bytes(s) + r2));
        lemma_exact_at(compact, blob_bytes(s) + r2);
        law_blob_reads_back(s, r2);
        law_blob_reads_back(t, rest);
    }
    assert((payload + rest).take((payload + rest).len() - rest.len()) == payload);
}

/// Whether a text is that of a packed signature.
pub open spec fn is_signature_text(s: Seq<char>) -> bool {
    exists|b: Seq<u8>|
        #[trigger] is_signature(b) && key_form(seq!['S', 'I', 'G', '_'], b) == s
}

/// A packed signature that a text is of.
pub open spec fn signature_bytes(s: Seq<char>) -> Seq<u8> {
    choose|b: Seq<u8>|
        #[trigger] is_signature(b) && key_form(seq!['S', 'I', 'G', '_'], b) == s
}

// ---------------------------------------------------------------------------
// What a piece of a buffer is read as
// ---------------------------------------------------------------------------

/// Whether bytes are read as a value, whatever follows them.
pub open spec fn reads_as<V>(p: spec_fn(Cursor) -> (V, Cursor), b: Seq<u8>, v: V) -> bool {
    forall|rest: Seq<u8>| #[trigger] p(wire::at(b + rest)) == (v, wire::at(rest))
}

/// Pieces one after another.
pub open spec fn joined(pieces: Seq<Seq<u8>>) -> Seq<u8>
    decreases pieces.len(),
{
    if pieces.len() == 0 {
        seq![]
    } else {
        joined(pieces.drop_last()) + pieces.last()
    }
}

proof fn lemma_pieces<V>(
    p: spec_fn(Cursor) -> (V, Cursor),
    pieces: Seq<Seq<u8>>,
    vs: Seq<V>,
    rest: Seq<u8>,
)
    requires
        pieces.len() == vs.len(),
        forall|i: int| 0 <= i < vs.len() ==> reads_as(p, #[trigger] pieces[i], vs[i]),
    ensures
        wire::get_many(p, vs.len(), wire::at(joined(pieces) + rest)) == (vs, wire::at(rest)),
    decreases vs.len(),
{
    if vs.len() == 0 {
        assert(joined(pieces) + rest == rest);
        assert(vs == Seq::<V>::empty());
    } else {
        let before = pieces.drop_last();
        assert forall|i: int| 0 <= i < before.len() implies reads_as(
            p,
            #[trigger] before[i],
            vs.drop_last()[i],
        ) by {
            assert(before[i] == pieces[i]);
        }
        assert(joined(pieces) + rest == joined(before) + (pieces.last() + rest));
        lemma_pieces(p, before, vs.drop_last(), pieces.last() + rest);
        assert(reads_as(p, pieces[vs.len() - 1], vs[vs.len() - 1]));
        assert(p(wire::at(pieces.last() + rest)) == (vs.last(), wire::at(rest)));
        assert(vs.drop_last().push(vs.last()) == vs);
    }
}

/// A list is read back item by item: its length and the pieces that its items
/// are read from give the items in their order.
pub proof fn law_pieces_make_a_list<V>(
    p: spec_fn(Cursor) -> (V, Cursor),
    pieces: Seq<Seq<u8>>,
    vs: Seq<V>,
    rest: Seq<u8>,
)
    requires
        pieces.len() == vs.len(),
        vs.len() <= u32::MAX,
        forall|i: int| 0 <= i < vs.len() ==> reads_as(p, #[trigger] pieces[i], vs[i]),
    ensures
        wire::get_list(p, wire::at(varuint_bytes(vs.len()) + joined(pieces) + rest)) == (
            vs,
            wire::at(rest),
        ),
{
    assert(varuint_bytes(vs.len()) + joined(pieces) + rest == varuint_bytes(vs.len()) + (joined(
        pieces,
    ) + rest));
    law_varuint_reads_back(vs.len() as u32, joined(pieces) + rest);
    lemma_pieces(p, pieces, vs, rest);
}

/// The same of a list of a known layout.
pub proof fn law_pieces_make_a_list_of<C: Codec>(
    pieces: Seq<Seq<u8>>,
    vs: Seq<<C::Item as DeepView>::V>,
    rest: Seq<u8>,
)
    requires
        pieces.len() == vs.len(),
        vs.len() <= u32::MAX,
        forall|i: int, after: Seq<u8>|
            0 <= i < vs.len() ==> #[trigger] C::get(wire::at(pieces[i] + after)) == (
                vs[i],
                wire::at(after),
            ),
    ensures
        codec::list_of::<C>(
            wire::at(varuint_bytes(vs.len()) + joined(pieces) + rest),
        ) == (vs, wire::at(rest)),
{
    reveal(codec::list_of);
    let p = |d: Cursor| C::get(d);
    assert forall|i: int| 0 <= i < vs.len() implies reads_as(p, #[trigger] pieces[i], vs[i]) by {
        assert forall|after: Seq<u8>| #[trigger] p(wire::at(pieces[i] + after)) == (
            vs[i],
            wire::at(after),
        ) by {
            assert(C::get(wire::at(pieces[i] + after)) == (vs[i], wire::at(after)));
        }
    }
    law_pieces_make_a_list(p, pieces, vs, rest);
}

/// A value that may be absent: a byte that says so, then the value.
pub open spec fn option_bytes(b: Option<Seq<u8>>) -> Seq<u8> {
    match b {
        Some(v) => seq![1u8] + v,
        None => seq![0u8],
    }
}

/// A value that may be absent is read back.
pub proof fn law_option_reads_back<V>(
    p: spec_fn(Cursor) -> (V, Cursor),
    b: Option<Seq<u8>>,
    v: Option<V>,
    rest: Seq<u8>,
)
    requires
        b is Some <==> v is Some,
        b matches Some(piece) ==> p(wire::at(piece + rest)) == (v->0, wire::at(rest)),
    ensures
        wire::get_option(p, wire::at(option_bytes(b) + rest)) == (v, wire::at(rest)),
{
    match b {
        Some(piece) => {
            assert(option_bytes(b) + rest == seq![1u8] + (piece + rest));
            lemma_u8_at(1, piece + rest);
        },
        None => {
            lemma_u8_at(0, rest);
        },
    }
}

// ---------------------------------------------------------------------------
// Values of a known layout, and lists of them
// ---------------------------------------------------------------------------

/// A layout in which values can be written.
pub trait Packed: Codec {
    /// The value as bytes.
    spec fn bytes(v: <Self::Item as DeepView>::V) -> Seq<u8>;

    /// Whether every length in the value can be written.
    spec fn fits(v: <Self::Item as DeepView>::V) -> bool;

    /// What was written is read back, and what follows it is untouched.
    proof fn reads_back(v: <Self::Item as DeepView>::V, rest: Seq<u8>)
        requires
            Self::fits(v),
        ensures
            Self::get(wire::at(Self::bytes(v) + rest)) == (v, wire::at(rest)),
    ;
}

/// Values one after another.
pub open spec fn items_bytes<P: Packed>(vs: Seq<<P::Item as DeepView>::V>) -> Seq<u8>
    decreases vs.len(),
{
    if vs.len() == 0 {
        seq![]
    } else {
        items_bytes::<P>(vs.drop_last()) + P::bytes(vs.last())
    }
}

/// A packed list: the number of values, then the values.
pub open spec fn list_bytes<P: Packed>(vs: Seq<<P::Item as DeepView>::V>) -> Seq<u8> {
    varuint_bytes(vs.len()) + items_bytes::<P>(vs)
}

/// Whether every length in a list can be written.
pub open spec fn list_fits<P: Packed>(vs: Seq<<P::Item as DeepView>::V>) -> bool {
    vs.len() <= u32::MAX && forall|i: int| 0 <= i < vs.len() ==> P::fits(#[trigger] vs[i])
}

proof fn lemma_items_read_back<P: Packed>(vs: Seq<<P::Item as DeepView>::V>, rest: Seq<u8>)
    requires
        forall|i: int| 0 <= i < vs.len() ==> P::fits(#[trigger] vs[i]),
    ensures
        wire::get_many(
            |d: Cursor| P::get(d),
            vs.len(),
            wire::at(items_bytes::<P>(vs) + rest),
        ) == (vs, wire::at(rest)),
    decreases vs.len(),
{
    if vs.len() == 0 {
        assert(items_bytes::<P>(vs) + rest == rest);
        assert(vs == Seq::<<P::Item as DeepView>::V>::empty());
    } else {
        let before = vs.drop_last();
        let last = P::bytes(vs.last());
        assert forall|i: int| 0 <= i < before.len() implies P::fits(#[trigger] before[i]) by {
            assert(before[i] == vs[i]);
        }
        assert(P::fits(vs[vs.len() - 1]));
        assert(items_bytes::<P>(vs) + rest == items_bytes::<P>(before) + (last + rest));
        lemma_items_read_back::<P>(before, last + rest);
        P::reads_back(vs.last(), rest);
        assert(before.push(vs.last()) == vs);
    }
}

/// A list that was written is read back, and what follows it is untouched.
pub proof fn law_list_reads_back<P: Packed>(vs: Seq<<P::Item as DeepView>::V>, rest: Seq<u8>)
    requires
        list_fits::<P>(vs),
    ensures
        codec::list_of::<P>(wire::at(list_bytes::<P>(vs) + rest)) == (vs, wire::at(rest)),
{
    reveal(codec::list_of);
    let items = items_bytes::<P>(vs);
    assert(list_bytes::<P>(vs) + rest == varuint_bytes(vs.len()) + (items + rest));
    law_varuint_reads_back(vs.len() as u32, items + rest);
    lemma_items_read_back::<P>(vs, rest);
}

} // verus!
