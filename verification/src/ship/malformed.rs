//! What is not accepted: data that ends too early, numbers that are too long,
//! layouts that are not known, and symbols and keys that are none.

use crate::antelope::asset;
use crate::antelope::builtin;
use crate::antelope::codec;
use crate::antelope::keys;
use crate::antelope::packing;
use crate::antelope::packing::Packed;
use crate::antelope::plain;
use crate::antelope::plain::Plain;
use crate::antelope::wire;
use crate::antelope::wire::{Cursor, Fault};
use crate::ship::deltas;
use crate::ship::deltas::TableDelta;
use crate::ship::header;
use crate::ship::results;
use crate::ship::traces;
use crate::ship::traces::{ActionTrace, TransactionTrace};
use vstd::prelude::*;

verus! {

broadcast use {wire::group_latch, codec::lemma_list_latch};

// ---------------------------------------------------------------------------
// Data that ends too early
// ---------------------------------------------------------------------------

/// No value is read from a part of its bytes.
pub proof fn law_truncated_values_fail<P: Packed>(v: <P::Item as DeepView>::V, k: int)
    requires
        P::fits(v),
        0 <= k < P::bytes(v).len(),
    ensures
        !P::get(wire::at(P::bytes(v).take(k))).1.sound(),
{
    let all = P::bytes(v);
    let start = wire::at(all.take(k));
    let extra = all.skip(k);
    let none = Seq::<u8>::empty();
    P::reads_back(v, none);
    assert(all + none =~= all);
    P::extends(start, extra);
    assert(wire::extended(start, extra).rest =~= all);
    if P::get(start).1.sound() {
        assert(wire::extended(P::get(start).1, extra).rest.len() > 0);
    }
}

/// No list is read from a part of its bytes, so no item at its end is lost
/// unnoticed.
pub proof fn law_truncated_lists_fail<P: Packed>(vs: Seq<<P::Item as DeepView>::V>, k: int)
    requires
        packing::list_fits::<P>(vs),
        0 <= k < packing::list_bytes::<P>(vs).len(),
    ensures
        !codec::list_of::<P>(wire::at(packing::list_bytes::<P>(vs).take(k))).1.sound(),
{
    let all = packing::list_bytes::<P>(vs);
    let start = wire::at(all.take(k));
    let extra = all.skip(k);
    let none = Seq::<u8>::empty();
    packing::law_list_reads_back::<P>(vs, none);
    assert(all + none =~= all);
    codec::lemma_list_extends::<P>(start, extra);
    assert(wire::extended(start, extra).rest =~= all);
    if codec::list_of::<P>(start).1.sound() {
        assert(wire::extended(codec::list_of::<P>(start).1, extra).rest.len() > 0);
    }
}

/// A number, a name or a digest is not read where fewer bytes are left than it
/// has: the fault tells how many were needed and how many were left.
pub proof fn law_short_data_fails(b: Seq<u8>, n: nat)
    ensures
        b.len() < n ==> wire::get_exact(wire::at(b), n).1.fault == Some(
            Fault::Eof { needed: n, remaining: b.len() },
        ),
        b.len() < 1 ==> wire::get_u8(wire::at(b)).1.fault == Some(
            Fault::Eof { needed: 1, remaining: b.len() },
        ) && !wire::get_bool(wire::at(b)).1.sound(),
        b.len() < 2 ==> wire::get_u16(wire::at(b)).1.fault == Some(
            Fault::Eof { needed: 2, remaining: b.len() },
        ),
        b.len() < 4 ==> wire::get_u32(wire::at(b)).1.fault == Some(
            Fault::Eof { needed: 4, remaining: b.len() },
        ),
        b.len() < 8 ==> wire::get_u64(wire::at(b)).1.fault == Some(
            Fault::Eof { needed: 8, remaining: b.len() },
        ) && !wire::get_name(wire::at(b)).1.sound() && !wire::get_i64(wire::at(b)).1.sound(),
        b.len() < 16 ==> wire::get_u128(wire::at(b)).1.fault == Some(
            Fault::Eof { needed: 16, remaining: b.len() },
        ),
        b.len() < 32 ==> wire::get_digest(wire::at(b)).1.fault == Some(
            Fault::Eof { needed: 32, remaining: b.len() },
        ),
{
    reveal(wire::get_exact);
    reveal(wire::get_u8);
    reveal(wire::get_u16);
    reveal(wire::get_u32);
    reveal(wire::get_u64);
    reveal(wire::get_u128);
}

/// A byte string is not read where fewer bytes follow than its length says.
pub proof fn law_short_strings_fail(n: u32, b: Seq<u8>)
    requires
        b.len() < n,
    ensures
        wire::get_blob(wire::at(packing::varuint_bytes(n as nat) + b)).1.fault == Some(
            Fault::Eof { needed: n as nat, remaining: b.len() },
        ),
        !wire::get_string(wire::at(packing::varuint_bytes(n as nat) + b)).1.sound(),
{
    packing::law_varuint_reads_back(n, b);
    reveal(wire::get_blob);
    reveal(wire::get_exact);
}

/// Once something could not be read, nothing behind it is.
pub proof fn law_faults_stay(c: Cursor, n: nat)
    requires
        !c.sound(),
    ensures
        wire::get_exact(c, n).1 == c,
        wire::get_u8(c).1 == c,
        wire::get_u16(c).1 == c,
        wire::get_u32(c).1 == c,
        wire::get_u64(c).1 == c,
        wire::get_varuint32(c).1 == c,
        wire::get_blob(c).1 == c,
        wire::get_string(c).1 == c,
        codec::list_of::<ActionTrace>(c).1 == c,
        codec::list_of::<TransactionTrace>(c).1 == c,
        codec::list_of::<TableDelta>(c).1 == c,
{
}

// ---------------------------------------------------------------------------
// Numbers that are too long
// ---------------------------------------------------------------------------

proof fn lemma_byte(b: u8, rest: Seq<u8>)
    ensures
        wire::get_u8(wire::at(seq![b] + rest)) == (b, wire::at(rest)),
{
    packing::lemma_u8_at(b, rest);
}

/// A variable-length number has at most five bytes: one that goes on behind
/// the fifth is malformed.
pub proof fn law_long_numbers_fail(a: u8, b: u8, c: u8, d: u8, e: u8, rest: Seq<u8>)
    requires
        a >= 128,
        b >= 128,
        c >= 128,
        d >= 128,
        e >= 128,
    ensures
        wire::get_varuint32(
            wire::at(seq![a] + (seq![b] + (seq![c] + (seq![d] + (seq![e] + rest))))),
        ).1.fault == Some(Fault::BadVarint),
{
    let r4 = seq![e] + rest;
    let r3 = seq![d] + r4;
    let r2 = seq![c] + r3;
    let r1 = seq![b] + r2;
    lemma_byte(a, r1);
    lemma_byte(b, r2);
    lemma_byte(c, r3);
    lemma_byte(d, r4);
    lemma_byte(e, rest);
    reveal(wire::get_varuint32);
    reveal_with_fuel(wire::varuint_from, 6);
}

/// A variable-length number fits in 32 bits: one whose fifth byte says more is
/// malformed.
pub proof fn law_large_numbers_fail(a: u8, b: u8, c: u8, d: u8, e: u8, rest: Seq<u8>)
    requires
        a >= 128,
        b >= 128,
        c >= 128,
        d >= 128,
        16 <= e < 128,
    ensures
        wire::get_varuint32(
            wire::at(seq![a] + (seq![b] + (seq![c] + (seq![d] + (seq![e] + rest))))),
        ).1.fault == Some(Fault::BadVarint),
{
    let r4 = seq![e] + rest;
    let r3 = seq![d] + r4;
    let r2 = seq![c] + r3;
    let r1 = seq![b] + r2;
    lemma_byte(a, r1);
    lemma_byte(b, r2);
    lemma_byte(c, r3);
    lemma_byte(d, r4);
    lemma_byte(e, rest);
    reveal(wire::get_varuint32);
    reveal_with_fuel(wire::varuint_from, 6);
    reveal_with_fuel(wire::pow128, 5);
    let v = (a % 128) as nat * wire::pow128(0) + (b % 128) as nat * wire::pow128(1) + (c % 128)
        as nat * wire::pow128(2) + (d % 128) as nat * wire::pow128(3) + (e % 128) as nat
        * wire::pow128(4);
    assert(wire::pow128(4) == 268_435_456);
    assert(v > u32::MAX) by (nonlinear_arith)
        requires
            v == (a % 128) as nat * wire::pow128(0) + (b % 128) as nat * wire::pow128(1) + (c
                % 128) as nat * wire::pow128(2) + (d % 128) as nat * wire::pow128(3) + (e % 128)
                as nat * wire::pow128(4),
            wire::pow128(4) == 268_435_456,
            16 <= e < 128,
    ;
}

// ---------------------------------------------------------------------------
// Layouts that are not known
// ---------------------------------------------------------------------------

/// What does not begin with the number of a known layout is not read: of a
/// result, a trace, a receipt, a delta or a row.
pub proof fn law_other_layouts_fail(index: u32, rest: Seq<u8>)
    ensures
        ({
            let c = wire::at(packing::varuint_bytes(index as nat) + rest);
            &&& index > 0 ==> {
                &&& !traces::get_trace(c).1.sound()
                &&& !traces::get_receipt(c).1.sound()
                &&& !deltas::get_contract_row(c).1.sound()
                &&& !deltas::get_account_row(c).1.sound()
                &&& !deltas::get_permission_row(c).1.sound()
            }
            &&& index > 1 ==> {
                &&& !results::get_result(c).1.sound()
                &&& !traces::get_action_trace(c).1.sound()
                &&& !traces::get_partial(c).1.sound()
                &&& !header::skip_transaction(c).sound()
            }
        }),
{
    packing::law_varuint_reads_back(index, rest);
}

/// A key or a signature of a kind that is not known is not read.
pub proof fn law_other_keys_fail(tag: u8, rest: Seq<u8>)
    requires
        tag > 2,
    ensures
        keys::get_public_key(wire::at(seq![tag] + rest)).1.fault == Some(Fault::BadKeyType(tag)),
        keys::get_signature(wire::at(seq![tag] + rest)).1.fault == Some(Fault::BadKeyType(tag)),
{
    lemma_byte(tag, rest);
}

// ---------------------------------------------------------------------------
// Symbols that are none
// ---------------------------------------------------------------------------

/// A symbol whose code is no text is not decoded, nor is an amount of such a
/// symbol or of more decimals than an amount can have.
pub proof fn law_improper_symbols_fail(amount: i64, symbol: u64, rest: Seq<u8>)
    ensures
        !asset::is_ascii_code((symbol / 256) as nat) ==> (builtin::get_builtin(
            "symbol"@,
            wire::at(plain::packed(Plain::Symbol(symbol)) + rest),
        ) matches Some((v, c)) && !c.sound()),
        !asset::is_ascii_code(symbol as nat) ==> (builtin::get_builtin(
            "symbol_code"@,
            wire::at(plain::packed(Plain::SymbolCode(symbol)) + rest),
        ) matches Some((v, c)) && !c.sound()),
        !asset::is_printable(symbol) ==> (builtin::get_builtin(
            "asset"@,
            wire::at(plain::packed(Plain::Asset((amount, symbol))) + rest),
        ) matches Some((v, c)) && !c.sound()),
{
    reveal(builtin::get_builtin);
    reveal_strlit("bool");
    assert("bool"@.len() == 4);
    reveal_strlit("int8");
    assert("int8"@.len() == 4);
    reveal_strlit("uint8");
    assert("uint8"@.len() == 5);
    reveal_strlit("int16");
    assert("int16"@.len() == 5);
    reveal_strlit("uint16");
    assert("uint16"@.len() == 6);
    reveal_strlit("int32");
    assert("int32"@.len() == 5);
    reveal_strlit("uint32");
    assert("uint32"@.len() == 6);
    reveal_strlit("int64");
    assert("int64"@.len() == 5);
    reveal_strlit("uint64");
    assert("uint64"@.len() == 6);
    reveal_strlit("int128");
    assert("int128"@.len() == 6);
    reveal_strlit("uint128");
    assert("uint128"@.len() == 7);
    reveal_strlit("varuint32");
    assert("varuint32"@.len() == 9);
    reveal_strlit("varint32");
    assert("varint32"@.len() == 8);
    reveal_strlit("float32");
    assert("float32"@.len() == 7);
    reveal_strlit("float64");
    assert("float64"@.len() == 7);
    reveal_strlit("float128");
    assert("float128"@.len() == 8);
    reveal_strlit("time_point");
    assert("time_point"@.len() == 10);
    reveal_strlit("time_point_sec");
    assert("time_point_sec"@.len() == 14);
    reveal_strlit("block_timestamp_type");
    assert("block_timestamp_type"@.len() == 20);
    reveal_strlit("name");
    assert("name"@.len() == 4);
    reveal_strlit("bytes");
    assert("bytes"@.len() == 5);
    reveal_strlit("string");
    assert("string"@.len() == 6);
    reveal_strlit("checksum160");
    assert("checksum160"@.len() == 11);
    reveal_strlit("checksum256");
    assert("checksum256"@.len() == 11);
    reveal_strlit("checksum512");
    assert("checksum512"@.len() == 11);
    reveal_strlit("public_key");
    assert("public_key"@.len() == 10);
    reveal_strlit("signature");
    assert("signature"@.len() == 9);
    reveal_strlit("symbol");
    assert("symbol"@.len() == 6);
    reveal_strlit("symbol_code");
    assert("symbol_code"@.len() == 11);
    reveal_strlit("asset");
    assert("asset"@.len() == 5);
    reveal_strlit("extended_asset");
    assert("extended_asset"@.len() == 14);
    assert("symbol"@[0] != "uint16"@[0]);
    assert("symbol"@[0] != "uint32"@[0]);
    assert("symbol"@[0] != "uint64"@[0]);
    assert("symbol"@[0] != "int128"@[0]);
    assert("symbol"@[1] != "string"@[1]);
    assert("symbol_code"@[0] != "checksum160"@[0]);
    assert("symbol_code"@[0] != "checksum256"@[0]);
    assert("symbol_code"@[0] != "checksum512"@[0]);
    assert("asset"@[0] != "uint8"@[0]);
    assert("asset"@[0] != "int16"@[0]);
    assert("asset"@[0] != "int32"@[0]);
    assert("asset"@[0] != "int64"@[0]);
    assert("asset"@[0] != "bytes"@[0]);
    packing::law_u64_reads_back(symbol, rest);
    let tail = wire::le_bytes(symbol as nat, 8) + rest;
    assert(plain::packed(Plain::Asset((amount, symbol))) + rest =~= packing::signed_bytes(
        amount as int,
        8,
    ) + tail);
    packing::law_i64_reads_back(amount, tail);
}

} // verus!
