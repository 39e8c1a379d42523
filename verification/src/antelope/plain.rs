//! The values of the built-in types: what they are called, how they are packed
//! and what is decoded of them.

use crate::antelope::asset;
use crate::antelope::builtin;
use crate::antelope::name;
use crate::antelope::packing;
use crate::antelope::wire;
use crate::foreign;
use crate::json::JsonModel;
use crate::text;
use vstd::prelude::*;

verus! {

/// A value of a built-in type.
pub enum Plain {
    /// A truth value, as the byte that stands for it.
    Bool(u8),
    Int8(i8),
    Uint8(u8),
    Int16(i16),
    Uint16(u16),
    Int32(i32),
    Uint32(u32),
    Int64(i64),
    Uint64(u64),
    Int128(i128),
    Uint128(u128),
    Varuint(u32),
    Varint(i32),
    /// Floating-point numbers, as their bits.
    Float32(u32),
    Float64(u64),
    Float128(Seq<u8>),
    TimePoint(i64),
    TimePointSec(u32),
    BlockTimestamp(u32),
    Name(u64),
    Bytes(Seq<u8>),
    Text(Seq<char>),
    Checksum160(Seq<u8>),
    Checksum256(Seq<u8>),
    Checksum512(Seq<u8>),
    PublicKey(Seq<u8>),
    Signature(Seq<u8>),
    Symbol(u64),
    SymbolCode(u64),
    Asset((i64, u64)),
    ExtendedAsset((i64, u64, u64)),
}

/// An instant, given in microseconds since the Unix epoch; the epoch itself if
/// the calendar does not cover it.
pub open spec fn instant(micros: int) -> Seq<char> {
    foreign::utc_text(
        if -8_334_601_228_800_000_000 <= micros < 8_210_266_876_800_000_000 {
            micros
        } else {
            0
        },
        "%Y-%m-%dT%H:%M:%S%.3f"@,
    )
}

/// The name of the type that a value is of.
pub open spec fn type_of(value: Plain) -> Seq<char> {
    match value {
        Plain::Bool(_) => "bool"@,
        Plain::Int8(_) => "int8"@,
        Plain::Uint8(_) => "uint8"@,
        Plain::Int16(_) => "int16"@,
        Plain::Uint16(_) => "uint16"@,
        Plain::Int32(_) => "int32"@,
        Plain::Uint32(_) => "uint32"@,
        Plain::Int64(_) => "int64"@,
        Plain::Uint64(_) => "uint64"@,
        Plain::Int128(_) => "int128"@,
        Plain::Uint128(_) => "uint128"@,
        Plain::Varuint(_) => "varuint32"@,
        Plain::Varint(_) => "varint32"@,
        Plain::Float32(_) => "float32"@,
        Plain::Float64(_) => "float64"@,
        Plain::Float128(_) => "float128"@,
        Plain::TimePoint(_) => "time_point"@,
        Plain::TimePointSec(_) => "time_point_sec"@,
        Plain::BlockTimestamp(_) => "block_timestamp_type"@,
        Plain::Name(_) => "name"@,
        Plain::Bytes(_) => "bytes"@,
        Plain::Text(_) => "string"@,
        Plain::Checksum160(_) => "checksum160"@,
        Plain::Checksum256(_) => "checksum256"@,
        Plain::Checksum512(_) => "checksum512"@,
        Plain::PublicKey(_) => "public_key"@,
        Plain::Signature(_) => "signature"@,
        Plain::Symbol(_) => "symbol"@,
        Plain::SymbolCode(_) => "symbol_code"@,
        Plain::Asset(_) => "asset"@,
        Plain::ExtendedAsset(_) => "extended_asset"@,
    }
}

/// A value as bytes.
pub open spec fn packed(value: Plain) -> Seq<u8> {
    match value {
        Plain::Bool(v) => seq![v],
        Plain::Int8(v) => packing::signed_bytes(v as int, 1),
        Plain::Uint8(v) => wire::le_bytes(v as nat, 1),
        Plain::Int16(v) => packing::signed_bytes(v as int, 2),
        Plain::Uint16(v) => wire::le_bytes(v as nat, 2),
        Plain::Int32(v) => packing::signed_bytes(v as int, 4),
        Plain::Uint32(v) => wire::le_bytes(v as nat, 4),
        Plain::Int64(v) => packing::signed_bytes(v as int, 8),
        Plain::Uint64(v) => wire::le_bytes(v as nat, 8),
        Plain::Int128(v) => packing::signed_bytes(v as int, 16),
        Plain::Uint128(v) => wire::le_bytes(v as nat, 16),
        Plain::Varuint(v) => packing::varuint_bytes(v as nat),
        Plain::Varint(v) => packing::varuint_bytes(packing::zigzag_code(v as int) as nat),
        Plain::Float32(v) => wire::le_bytes(v as nat, 4),
        Plain::Float64(v) => wire::le_bytes(v as nat, 8),
        Plain::Float128(v) => v,
        Plain::TimePoint(v) => packing::signed_bytes(v as int, 8),
        Plain::TimePointSec(v) => wire::le_bytes(v as nat, 4),
        Plain::BlockTimestamp(v) => wire::le_bytes(v as nat, 4),
        Plain::Name(v) => wire::le_bytes(v as nat, 8),
        Plain::Bytes(v) => packing::blob_bytes(v),
        Plain::Text(v) => packing::string_bytes(v),
        Plain::Checksum160(v) => v,
        Plain::Checksum256(v) => v,
        Plain::Checksum512(v) => v,
        Plain::PublicKey(v) => v,
        Plain::Signature(v) => v,
        Plain::Symbol(v) => wire::le_bytes(v as nat, 8),
        Plain::SymbolCode(v) => wire::le_bytes(v as nat, 8),
        Plain::Asset(v) => packing::signed_bytes(v.0 as int, 8) + wire::le_bytes(v.1 as nat, 8),
        Plain::ExtendedAsset(v) => packing::signed_bytes(v.0 as int, 8) + wire::le_bytes(
            v.1 as nat,
            8,
        ) + wire::le_bytes(v.2 as nat, 8),
    }
}

/// A value as JSON.
pub open spec fn shown(value: Plain) -> JsonModel {
    match value {
        Plain::Bool(v) => JsonModel::Bool(v != 0),
        Plain::Int8(v) => JsonModel::Int(v as int),
        Plain::Uint8(v) => JsonModel::Int(v as int),
        Plain::Int16(v) => JsonModel::Int(v as int),
        Plain::Uint16(v) => JsonModel::Int(v as int),
        Plain::Int32(v) => JsonModel::Int(v as int),
        Plain::Uint32(v) => JsonModel::Int(v as int),
        Plain::Int64(v) => JsonModel::Int(v as int),
        Plain::Uint64(v) => JsonModel::Int(v as int),
        Plain::Int128(v) => JsonModel::Str(text::int_text(v as int)),
        Plain::Uint128(v) => JsonModel::Str(text::decimal(v as nat)),
        Plain::Varuint(v) => JsonModel::Int(v as int),
        Plain::Varint(v) => JsonModel::Int(v as int),
        Plain::Float32(v) => JsonModel::Float32(v),
        Plain::Float64(v) => JsonModel::Float64(v),
        Plain::Float128(v) => JsonModel::Str(foreign::hex_text(v)),
        Plain::TimePoint(v) => JsonModel::Str(instant(v as int)),
        Plain::TimePointSec(v) => JsonModel::Str(instant(v * 1_000_000)),
        Plain::BlockTimestamp(v) => JsonModel::Str(instant(946_684_800_000_000 + v * 500_000)),
        Plain::Name(v) => JsonModel::Str(name::name_text(v)),
        Plain::Bytes(v) => JsonModel::Str(foreign::hex_text(v)),
        Plain::Text(v) => JsonModel::Str(v),
        Plain::Checksum160(v) => JsonModel::Str(foreign::hex_text(v)),
        Plain::Checksum256(v) => JsonModel::Str(foreign::hex_text(v)),
        Plain::Checksum512(v) => JsonModel::Str(foreign::hex_text(v)),
        Plain::PublicKey(v) => JsonModel::Str(packing::key_form(seq!['P', 'U', 'B', '_'], v)),
        Plain::Signature(v) => JsonModel::Str(packing::key_form(seq!['S', 'I', 'G', '_'], v)),
        Plain::Symbol(v) => JsonModel::Str(asset::symbol_text(v)),
        Plain::SymbolCode(v) => JsonModel::Str(asset::code_text(v as nat)),
        Plain::Asset(v) => JsonModel::Str(asset::asset_text(v.0 as int, v.1)),
        Plain::ExtendedAsset(v) => JsonModel::Object(
            seq![
                ("quantity"@, JsonModel::Str(asset::asset_text(v.0 as int, v.1))),
                ("contract"@, JsonModel::Str(name::name_text(v.2))),
            ],
        ),
    }
}

/// Whether a value has as many bytes as its type asks for, its lengths can be
/// written, and its symbol can be printed.
pub open spec fn is_proper(value: Plain) -> bool {
    match value {
        Plain::Float128(v) => v.len() == 16,
        Plain::Bytes(v) => v.len() <= u32::MAX,
        Plain::Text(v) => packing::string_fits(v),
        Plain::Checksum160(v) => v.len() == 20,
        Plain::Checksum256(v) => v.len() == 32,
        Plain::Checksum512(v) => v.len() == 64,
        Plain::PublicKey(v) => packing::is_key(v),
        Plain::Signature(v) => packing::is_signature(v),
        Plain::Symbol(v) => asset::is_ascii_code((v / 256) as nat),
        Plain::SymbolCode(v) => asset::is_ascii_code(v as nat),
        Plain::Asset(v) => asset::is_printable(v.1),
        Plain::ExtendedAsset(v) => asset::is_printable(v.1),
        _ => true,
    }
}

proof fn lemma_amount(amount: i64, symbol: u64, rest: Seq<u8>)
    ensures
        ({
            let b = packing::signed_bytes(amount as int, 8) + wire::le_bytes(symbol as nat, 8);
            let (a, c1) = wire::get_i64(wire::at(b + rest));
            let (s, c2) = wire::get_u64(c1);
            a == amount && s == symbol && c2 == wire::at(rest)
        }),
{
    let tail = wire::le_bytes(symbol as nat, 8) + rest;
    assert(packing::signed_bytes(amount as int, 8) + wire::le_bytes(symbol as nat, 8) + rest
        == packing::signed_bytes(amount as int, 8) + tail);
    packing::law_i64_reads_back(amount, tail);
    packing::law_u64_reads_back(symbol, rest);
}

/// Whether a name is that of a built-in type.
pub open spec fn is_plain_name(t: Seq<char>) -> bool {
    ||| t == "bool"@
    ||| t == "int8"@
    ||| t == "uint8"@
    ||| t == "int16"@
    ||| t == "uint16"@
    ||| t == "int32"@
    ||| t == "uint32"@
    ||| t == "int64"@
    ||| t == "uint64"@
    ||| t == "int128"@
    ||| t == "uint128"@
    ||| t == "varuint32"@
    ||| t == "varint32"@
    ||| t == "float32"@
    ||| t == "float64"@
    ||| t == "float128"@
    ||| t == "time_point"@
    ||| t == "time_point_sec"@
    ||| t == "block_timestamp_type"@
    ||| t == "name"@
    ||| t == "bytes"@
    ||| t == "string"@
    ||| t == "checksum160"@
    ||| t == "checksum256"@
    ||| t == "checksum512"@
    ||| t == "public_key"@
    ||| t == "signature"@
    ||| t == "symbol"@
    ||| t == "symbol_code"@
    ||| t == "asset"@
    ||| t == "extended_asset"@
}

/// These are all the built-in types there are.
#[verifier::rlimit(40)]
pub proof fn law_plain_names(t: Seq<char>, c: wire::Cursor)
    ensures
        builtin::get_builtin(t, c) is Some <==> is_plain_name(t),
{
    reveal(builtin::get_builtin);
}

/// The name of a built-in type ends in a letter or a digit.
pub proof fn lemma_plain_names_end(t: Seq<char>)
    requires
        is_plain_name(t),
    ensures
        t.len() > 0,
        t.last() != '$' && t.last() != '?' && t.last() != ']',
{
    reveal_strlit("bool");
    reveal_strlit("int8");
    reveal_strlit("uint8");
    reveal_strlit("int16");
    reveal_strlit("uint16");
    reveal_strlit("int32");
    reveal_strlit("uint32");
    reveal_strlit("int64");
    reveal_strlit("uint64");
    reveal_strlit("int128");
    reveal_strlit("uint128");
    reveal_strlit("varuint32");
    reveal_strlit("varint32");
    reveal_strlit("float32");
    reveal_strlit("float64");
    reveal_strlit("float128");
    reveal_strlit("time_point");
    reveal_strlit("time_point_sec");
    reveal_strlit("block_timestamp_type");
    reveal_strlit("name");
    reveal_strlit("bytes");
    reveal_strlit("string");
    reveal_strlit("checksum160");
    reveal_strlit("checksum256");
    reveal_strlit("checksum512");
    reveal_strlit("public_key");
    reveal_strlit("signature");
    reveal_strlit("symbol");
    reveal_strlit("symbol_code");
    reveal_strlit("asset");
    reveal_strlit("extended_asset");
}

/// A value of a built-in type that is packed and then decoded gives that value
/// back, and what follows it is untouched.
#[verifier::rlimit(40)]
pub proof fn law_plain_reads_back(value: Plain, rest: Seq<u8>)
    requires
        is_proper(value),
    ensures
        builtin::get_builtin(type_of(value), wire::at(packed(value) + rest)) == Some(
            (shown(value), wire::at(rest)),
        ),
{
    reveal(builtin::get_builtin);
    reveal_strlit("bool");
    assert("bool"@.len() == 4);
    reveal_strlit("int8");
    assert("int8"@.len() == 4);
    reveal_strlit("uint8");
    assert("uint8"@.len() == 5);
    reveal_strlit("int16");
    assert("int16"@.len() == 5);
    reveal_strlit("uint16");
    assert("uint16"@.len() == 6);
    reveal_strlit("int32");
    assert("int32"@.len() == 5);
    reveal_strlit("uint32");
    assert("uint32"@.len() == 6);
    reveal_strlit("int64");
    assert("int64"@.len() == 5);
    reveal_strlit("uint64");
    assert("uint64"@.len() == 6);
    reveal_strlit("int128");
    assert("int128"@.len() == 6);
    reveal_strlit("uint128");
    assert("uint128"@.len() == 7);
    reveal_strlit("varuint32");
    assert("varuint32"@.len() == 9);
    reveal_strlit("varint32");
    assert("varint32"@.len() == 8);
    reveal_strlit("float32");
    assert("float32"@.len() == 7);
    reveal_strlit("float64");
    assert("float64"@.len() == 7);
    reveal_strlit("float128");
    assert("float128"@.len() == 8);
    reveal_strlit("time_point");
    assert("time_point"@.len() == 10);
    reveal_strlit("time_point_sec");
    assert("time_point_sec"@.len() == 14);
    reveal_strlit("block_timestamp_type");
    assert("block_timestamp_type"@.len() == 20);
    reveal_strlit("name");
    assert("name"@.len() == 4);
    reveal_strlit("bytes");
    assert("bytes"@.len() == 5);
    reveal_strlit("string");
    assert("string"@.len() == 6);
    reveal_strlit("checksum160");
    assert("checksum160"@.len() == 11);
    reveal_strlit("checksum256");
    assert("checksum256"@.len() == 11);
    reveal_strlit("checksum512");
    assert("checksum512"@.len() == 11);
    reveal_strlit("public_key");
    assert("public_key"@.len() == 10);
    reveal_strlit("signature");
    assert("signature"@.len() == 9);
    reveal_strlit("symbol");
    assert("symbol"@.len() == 6);
    reveal_strlit("symbol_code");
    assert("symbol_code"@.len() == 11);
    reveal_strlit("asset");
    assert("asset"@.len() == 5);
    reveal_strlit("extended_asset");
    assert("extended_asset"@.len() == 14);
    assert("bool"@[0] != "int8"@[0]);
    assert("bool"@[0] != "name"@[0]);
    assert("int8"@[0] != "name"@[0]);
    assert("uint8"@[0] != "int16"@[0]);
    assert("uint8"@[0] != "int32"@[0]);
    assert("uint8"@[0] != "int64"@[0]);
    assert("uint8"@[0] != "bytes"@[0]);
    assert("uint8"@[0] != "asset"@[0]);
    assert("int16"@[3] != "int32"@[3]);
    assert("int16"@[3] != "int64"@[3]);
    assert("int16"@[0] != "bytes"@[0]);
    assert("int16"@[0] != "asset"@[0]);
    assert("int32"@[3] != "int64"@[3]);
    assert("int32"@[0] != "bytes"@[0]);
    assert("int32"@[0] != "asset"@[0]);
    assert("int64"@[0] != "bytes"@[0]);
    assert("int64"@[0] != "asset"@[0]);
    assert("bytes"@[0] != "asset"@[0]);
    assert("uint16"@[4] != "uint32"@[4]);
    assert("uint16"@[4] != "uint64"@[4]);
    assert("uint16"@[0] != "int128"@[0]);
    assert("uint16"@[0] != "string"@[0]);
    assert("uint16"@[0] != "symbol"@[0]);
    assert("uint32"@[4] != "uint64"@[4]);
    assert("uint32"@[0] != "int128"@[0]);
    assert("uint32"@[0] != "string"@[0]);
    assert("uint32"@[0] != "symbol"@[0]);
    assert("uint64"@[0] != "int128"@[0]);
    assert("uint64"@[0] != "string"@[0]);
    assert("uint64"@[0] != "symbol"@[0]);
    assert("int128"@[0] != "string"@[0]);
    assert("int128"@[0] != "symbol"@[0]);
    assert("string"@[1] != "symbol"@[1]);
    assert("uint128"@[0] != "float32"@[0]);
    assert("uint128"@[0] != "float64"@[0]);
    assert("float32"@[5] != "float64"@[5]);
    assert("varint32"@[0] != "float128"@[0]);
    assert("varuint32"@[0] != "signature"@[0]);
    assert("time_point"@[0] != "public_key"@[0]);
    assert("checksum160"@[8] != "checksum256"@[8]);
    assert("checksum160"@[8] != "checksum512"@[8]);
    assert("checksum160"@[0] != "symbol_code"@[0]);
    assert("checksum256"@[8] != "checksum512"@[8]);
    assert("checksum256"@[0] != "symbol_code"@[0]);
    assert("checksum512"@[0] != "symbol_code"@[0]);
    assert("time_point_sec"@[0] != "extended_asset"@[0]);
    match value {
        Plain::Bool(v) => {
            packing::law_byte_is_truth(v, rest);
        },
        Plain::Int8(v) => {
            packing::law_i8_reads_back(v, rest);
        },
        Plain::Uint8(v) => {
            packing::law_u8_reads_back(v, rest);
        },
        Plain::Int16(v) => {
            packing::law_i16_reads_back(v, rest);
        },
        Plain::Uint16(v) => {
            packing::law_u16_reads_back(v, rest);
        },
        Plain::Int32(v) => {
            packing::law_i32_reads_back(v, rest);
        },
        Plain::Uint32(v) => {
            packing::law_u32_reads_back(v, rest);
        },
        Plain::Int64(v) => {
            packing::law_i64_reads_back(v, rest);
        },
        Plain::Uint64(v) => {
            packing::law_u64_reads_back(v, rest);
        },
        Plain::Int128(v) => {
            packing::law_i128_reads_back(v, rest);
        },
        Plain::Uint128(v) => {
            packing::law_u128_reads_back(v, rest);
        },
        Plain::Varuint(v) => {
            packing::law_varuint_reads_back(v, rest);
        },
        Plain::Varint(v) => {
            packing::law_varint_reads_back(v, rest);
        },
        Plain::Float32(v) => {
            packing::law_u32_reads_back(v, rest);
        },
        Plain::Float64(v) => {
            packing::law_u64_reads_back(v, rest);
        },
        Plain::Float128(v) => {
            packing::law_exact_reads_back(v, rest);
        },
        Plain::TimePoint(v) => {
            packing::law_i64_reads_back(v, rest);
        },
        Plain::TimePointSec(v) => {
            packing::law_u32_reads_back(v, rest);
        },
        Plain::BlockTimestamp(v) => {
            packing::law_u32_reads_back(v, rest);
        },
        Plain::Name(v) => {
            packing::law_u64_reads_back(v, rest);
        },
        Plain::Bytes(v) => {
            packing::law_blob_reads_back(v, rest);
        },
        Plain::Text(v) => {
            packing::law_string_reads_back(v, rest);
        },
        Plain::Checksum160(v) => {
            packing::law_exact_reads_back(v, rest);
        },
        Plain::Checksum256(v) => {
            packing::law_exact_reads_back(v, rest);
        },
        Plain::Checksum512(v) => {
            packing::law_exact_reads_back(v, rest);
        },
        Plain::PublicKey(v) => {
            packing::law_key_reads_back(v, rest);
        },
        Plain::Signature(v) => {
            packing::law_signature_reads_back(v, rest);
        },
        Plain::Symbol(v) => {
            packing::law_u64_reads_back(v, rest);
        },
        Plain::SymbolCode(v) => {
            packing::law_u64_reads_back(v, rest);
        },
        Plain::Asset(v) => {
            lemma_amount(v.0, v.1, rest);
        },
        Plain::ExtendedAsset(v) => {
                let tail = wire::le_bytes(v.2 as nat, 8) + rest;
                assert(packed(value) + rest == packing::signed_bytes(v.0 as int, 8)
                    + wire::le_bytes(v.1 as nat, 8) + tail);
                lemma_amount(v.0, v.1, tail);
                packing::law_u64_reads_back(v.2, rest);
            },
    }
}

} // verus!
