//! The types that every ABI has.

use crate::antelope::asset;
use crate::antelope::asset::{Asset, Symbol, SymbolCode};
use crate::antelope::keys;
use crate::antelope::name;
use crate::antelope::reader::ByteReader;
use crate::antelope::time;
use crate::antelope::wire;
use crate::antelope::wire::{Cursor, Fault, HasFault};
use crate::antelope::AntelopeError;
use crate::foreign;
use crate::json;
use crate::json::{Json, JsonModel};
use crate::lists::no_items;
use crate::text;
use vstd::prelude::*;

verus! {

broadcast use wire::group_latch;

/// The value of a built-in type that is a truth value or a number.
pub open spec fn get_number(t: Seq<char>, c: Cursor) -> Option<(JsonModel, Cursor)> {
    if t == "bool"@ {
        let (v, c1) = wire::get_bool(c);
        Some((JsonModel::Bool(v), c1))
    } else if t == "int8"@ {
        let (v, c1) = wire::get_i8(c);
        Some((JsonModel::Int(v as int), c1))
    } else if t == "uint8"@ {
        let (v, c1) = wire::get_u8(c);
        Some((JsonModel::Int(v as int), c1))
    } else if t == "int16"@ {
        let (v, c1) = wire::get_i16(c);
        Some((JsonModel::Int(v as int), c1))
    } else if t == "uint16"@ {
        let (v, c1) = wire::get_u16(c);
        Some((JsonModel::Int(v as int), c1))
    } else if t == "int32"@ {
        let (v, c1) = wire::get_i32(c);
        Some((JsonModel::Int(v as int), c1))
    } else if t == "uint32"@ {
        let (v, c1) = wire::get_u32(c);
        Some((JsonModel::Int(v as int), c1))
    } else if t == "int64"@ {
        let (v, c1) = wire::get_i64(c);
        Some((JsonModel::Int(v as int), c1))
    } else if t == "uint64"@ {
        let (v, c1) = wire::get_u64(c);
        Some((JsonModel::Int(v as int), c1))
    } else if t == "int128"@ {
        let (v, c1) = wire::get_i128(c);
        Some((JsonModel::Str(text::int_text(v as int)), c1))
    } else if t == "uint128"@ {
        let (v, c1) = wire::get_u128(c);
        Some((JsonModel::Str(text::decimal(v as nat)), c1))
    } else if t == "varuint32"@ {
        let (v, c1) = wire::get_varuint32(c);
        Some((JsonModel::Int(v as int), c1))
    } else if t == "varint32"@ {
        let (v, c1) = wire::get_varint32(c);
        Some((JsonModel::Int(v as int), c1))
    } else {
        None
    }
}

/// The value of a built-in type that is a time, a name, a text, a byte string,
/// a key or a signature.
pub open spec fn get_textual(t: Seq<char>, c: Cursor) -> Option<(JsonModel, Cursor)> {
    if t == "float32"@ {
        let (v, c1) = wire::get_u32(c);
        Some((JsonModel::Float32(v), c1))
    } else if t == "float64"@ {
        let (v, c1) = wire::get_u64(c);
        Some((JsonModel::Float64(v), c1))
    } else if t == "float128"@ {
        let (v, c1) = wire::get_exact(c, 16);
        Some((JsonModel::Str(foreign::hex_text(v)), c1))
    } else if t == "time_point"@ {
        let (v, c1) = wire::get_i64(c);
        Some((JsonModel::Str(time::instant_text(v as int)), c1))
    } else if t == "time_point_sec"@ {
        let (v, c1) = wire::get_u32(c);
        Some((JsonModel::Str(time::instant_text(v * 1_000_000)), c1))
    } else if t == "block_timestamp_type"@ {
        let (v, c1) = wire::get_u32(c);
        Some((JsonModel::Str(time::instant_text(time::slot_ms(v) * 1_000)), c1))
    } else if t == "name"@ {
        let (v, c1) = wire::get_name(c);
        Some((JsonModel::Str(name::name_text(v.0)), c1))
    } else if t == "bytes"@ {
        let (v, c1) = wire::get_blob(c);
        Some((JsonModel::Str(foreign::hex_text(v)), c1))
    } else if t == "string"@ {
        let (v, c1) = wire::get_string(c);
        Some((JsonModel::Str(v), c1))
    } else if t == "checksum160"@ {
        let (v, c1) = wire::get_exact(c, 20);
        Some((JsonModel::Str(foreign::hex_text(v)), c1))
    } else if t == "checksum256"@ {
        let (v, c1) = wire::get_exact(c, 32);
        Some((JsonModel::Str(foreign::hex_text(v)), c1))
    } else if t == "checksum512"@ {
        let (v, c1) = wire::get_exact(c, 64);
        Some((JsonModel::Str(foreign::hex_text(v)), c1))
    } else if t == "public_key"@ {
        let (v, c1) = keys::get_public_key(c);
        Some((JsonModel::Str(v), c1))
    } else if t == "signature"@ {
        let (v, c1) = keys::get_signature(c);
        Some((JsonModel::Str(v), c1))
    } else {
        None
    }
}

/// A place behind a symbol: a fault if the symbol cannot be printed.
pub open spec fn behind_symbol(c: Cursor, symbol: u64) -> Cursor {
    c.checked(asset::is_ascii_code((symbol / 256) as nat), Fault::BadUtf8)
}

/// A place behind the symbol of an amount: a fault if the amount cannot be
/// printed.
pub open spec fn behind_amount(c: Cursor, symbol: u64) -> Cursor {
    behind_symbol(
        c.checked(
            symbol % 256 <= asset::MAX_PRECISION,
            Fault::BadSymbol(text::decimal((symbol % 256) as nat)),
        ),
        symbol,
    )
}

/// The fields of an amount with the contract that it belongs to.
pub open spec fn extended_fields(
    amount: int,
    symbol: u64,
    contract: name::Name,
) -> json::FieldsModel {
    seq![
        ("quantity"@, JsonModel::Str(asset::asset_text(amount, symbol))),
        ("contract"@, JsonModel::Str(name::name_text(contract.0))),
    ]
}

/// The value of a built-in type that is a symbol or an amount.
pub open spec fn get_token(t: Seq<char>, c: Cursor) -> Option<(JsonModel, Cursor)> {
    if t == "symbol"@ {
        let (v, c1) = wire::get_u64(c);
        Some((JsonModel::Str(asset::symbol_text(v)), behind_symbol(c1, v)))
    } else if t == "symbol_code"@ {
        let (v, c1) = wire::get_u64(c);
        Some(
            (
                JsonModel::Str(asset::code_text(v as nat)),
                c1.checked(asset::is_ascii_code(v as nat), Fault::BadUtf8),
            ),
        )
    } else if t == "asset"@ {
        let (amount, c1) = wire::get_i64(c);
        let (symbol, c2) = wire::get_u64(c1);
        Some(
            (
                JsonModel::Str(asset::asset_text(amount as int, symbol)),
                behind_amount(c2, symbol),
            ),
        )
    } else if t == "extended_asset"@ {
        let (amount, c1) = wire::get_i64(c);
        let (symbol, c2) = wire::get_u64(c1);
        let (contract, c3) = wire::get_name(c2);
        Some(
            (
                JsonModel::Object(extended_fields(amount as int, symbol, contract)),
                behind_amount(c3, symbol),
            ),
        )
    } else {
        None
    }
}

/// The value of a built-in type, and the place behind it; nothing if the type
/// is not built in.
#[verifier::opaque]
pub open spec fn get_builtin(t: Seq<char>, c: Cursor) -> Option<(JsonModel, Cursor)> {
    if get_number(t, c) is Some {
        get_number(t, c)
    } else if get_textual(t, c) is Some {
        get_textual(t, c)
    } else {
        get_token(t, c)
    }
}

/// What it means that reading a value of some built-in types gave `got`.
pub open spec fn reads_builtin(
    want: Option<(JsonModel, Cursor)>,
    got: Result<Option<Json>, AntelopeError>,
    before: ByteReader,
    after: ByteReader,
) -> bool {
    &&& after.bytes() == before.bytes()
    &&& match want {
        None => got == Ok::<Option<Json>, AntelopeError>(None) && after.rest() == before.rest(),
        Some((v, c)) => {
            &&& after.rest() == c.rest
            &&& match got {
                Ok(Some(j)) => c.fault is None && v == j.deep_view(),
                Ok(None) => false,
                Err(e) => c.fault == Some(e.fault()),
            }
        },
    }
}

fn decode_number(name: &str, r: &mut ByteReader) -> (res: Result<Option<Json>, AntelopeError>)
    ensures
        reads_builtin(get_number(name@, old(r).cursor()), res, *old(r), *final(r)),
{
    if text::same_text(name, "bool") {
        let v: bool = r.read_bool()?;
        return Ok(Some(Json::Bool(v)));
    }
    if text::same_text(name, "int8") {
        let v: i8 = r.read_i8()?;
        return Ok(Some(Json::Int(v as i128)));
    }
    if text::same_text(name, "uint8") {
        let v: u8 = r.read_u8()?;
        return Ok(Some(Json::Int(v as i128)));
    }
    if text::same_text(name, "int16") {
        let v: i16 = r.read_i16()?;
        return Ok(Some(Json::Int(v as i128)));
    }
    if text::same_text(name, "uint16") {
        let v: u16 = r.read_u16()?;
        return Ok(Some(Json::Int(v as i128)));
    }
    if text::same_text(name, "int32") {
        let v: i32 = r.read_i32()?;
        return Ok(Some(Json::Int(v as i128)));
    }
    if text::same_text(name, "uint32") {
        let v: u32 = r.read_u32()?;
        return Ok(Some(Json::Int(v as i128)));
    }
    if text::same_text(name, "int64") {
        let v: i64 = r.read_i64()?;
        return Ok(Some(Json::Int(v as i128)));
    }
    if text::same_text(name, "uint64") {
        let v: u64 = r.read_u64()?;
        return Ok(Some(Json::Int(v as i128)));
    }
    if text::same_text(name, "int128") {
        let v: i128 = r.read_i128()?;
        return Ok(Some(Json::Str(text::signed_text(v))));
    }
    if text::same_text(name, "uint128") {
        let v: u128 = r.read_u128()?;
        return Ok(Some(Json::Str(text::decimal_text(v))));
    }
    if text::same_text(name, "varuint32") {
        let v: u32 = r.read_varuint32()?;
        return Ok(Some(Json::Int(v as i128)));
    }
    if text::same_text(name, "varint32") {
        let v: i32 = r.read_varint32()?;
        return Ok(Some(Json::Int(v as i128)));
    }
    Ok(None)
}

fn decode_textual(name: &str, r: &mut ByteReader) -> (res: Result<Option<Json>, AntelopeError>)
    ensures
        reads_builtin(get_textual(name@, old(r).cursor()), res, *old(r), *final(r)),
{
    if text::same_text(name, "float32") {
        let v: u32 = r.read_u32()?;
        return Ok(Some(Json::Float32(v)));
    }
    if text::same_text(name, "float64") {
        let v: u64 = r.read_u64()?;
        return Ok(Some(Json::Float64(v)));
    }
    if text::same_text(name, "float128") {
        let v: &[u8] = r.read_exact(16)?;
        return Ok(Some(Json::Str(foreign::hex_encode(v))));
    }
    if text::same_text(name, "time_point") {
        let v: i64 = r.read_i64()?;
        return Ok(Some(Json::Str(time::time_point_to_string(v))));
    }
    if text::same_text(name, "time_point_sec") {
        let v: u32 = r.read_u32()?;
        return Ok(Some(Json::Str(time::time_point_sec_to_string(v))));
    }
    if text::same_text(name, "block_timestamp_type") {
        let v: u32 = r.read_u32()?;
        return Ok(Some(Json::Str(time::block_timestamp_to_string(v))));
    }
    if text::same_text(name, "name") {
        let v: name::Name = r.read_name()?;
        return Ok(Some(Json::Str(v.to_string())));
    }
    if text::same_text(name, "bytes") {
        let v: &[u8] = r.read_bytes()?;
        return Ok(Some(Json::Str(foreign::hex_encode(v))));
    }
    if text::same_text(name, "string") {
        let v: String = r.read_string()?;
        return Ok(Some(Json::Str(v)));
    }
    if text::same_text(name, "checksum160") {
        let v: &[u8] = r.read_exact(20)?;
        return Ok(Some(Json::Str(foreign::hex_encode(v))));
    }
    if text::same_text(name, "checksum256") {
        let v: &[u8] = r.read_exact(32)?;
        return Ok(Some(Json::Str(foreign::hex_encode(v))));
    }
    if text::same_text(name, "checksum512") {
        let v: &[u8] = r.read_exact(64)?;
        return Ok(Some(Json::Str(foreign::hex_encode(v))));
    }
    if text::same_text(name, "public_key") {
        let v: String = keys::read_public_key(r)?;
        return Ok(Some(Json::Str(v)));
    }
    if text::same_text(name, "signature") {
        let v: String = keys::read_signature(r)?;
        return Ok(Some(Json::Str(v)));
    }
    Ok(None)
}

/// Fails if a symbol cannot be printed.
fn check_symbol(symbol: Symbol) -> (res: Result<(), AntelopeError>)
    ensures
        match res {
            Ok(_) => asset::is_ascii_code((symbol.0 / 256) as nat),
            Err(e) => !asset::is_ascii_code((symbol.0 / 256) as nat) && e.fault()
                == Fault::BadUtf8,
        },
{
    if symbol.code().is_ascii() {
        Ok(())
    } else {
        Err(AntelopeError::BadUtf8)
    }
}

/// Fails if an amount with a symbol cannot be printed.
fn check_amount(symbol: Symbol) -> (res: Result<(), AntelopeError>)
    ensures
        match res {
            Ok(_) => asset::is_printable(symbol.0),
            Err(e) => behind_amount(wire::at(seq![]), symbol.0).fault == Some(e.fault()),
        },
{
    let precision: u8 = symbol.precision();
    if precision > asset::MAX_PRECISION {
        return Err(AntelopeError::BadSymbol(text::decimal_text(precision as u128)));
    }
    check_symbol(symbol)
}

fn decode_token(name: &str, r: &mut ByteReader) -> (res: Result<Option<Json>, AntelopeError>)
    ensures
        reads_builtin(get_token(name@, old(r).cursor()), res, *old(r), *final(r)),
{
    if text::same_text(name, "symbol") {
        let symbol = Symbol(r.read_u64()?);
        check_symbol(symbol)?;
        return Ok(Some(Json::Str(symbol.to_string())));
    }
    if text::same_text(name, "symbol_code") {
        let code = SymbolCode(r.read_u64()?);
        if !code.is_ascii() {
            return Err(AntelopeError::BadUtf8);
        }
        return Ok(Some(Json::Str(code.to_string())));
    }
    if text::same_text(name, "asset") {
        let amount: i64 = r.read_i64()?;
        let symbol = Symbol(r.read_u64()?);
        check_amount(symbol)?;
        return Ok(Some(Json::Str(Asset::new(amount, symbol).to_string())));
    }
    if text::same_text(name, "extended_asset") {
        let amount: i64 = r.read_i64()?;
        let symbol = Symbol(r.read_u64()?);
        let contract = r.read_name()?;
        check_amount(symbol)?;
        let mut fields: Vec<(String, Json)> = no_items();
        json::put(&mut fields, "quantity", Json::Str(Asset::new(amount, symbol).to_string()));
        json::put(&mut fields, "contract", Json::Str(contract.to_string()));
        assert(fields.deep_view() == extended_fields(amount as int, symbol.0, contract));
        return Ok(Some(json::object(fields)));
    }
    Ok(None)
}

/// Reads a value of a built-in type; nothing is read if the type is not built
/// in.
pub fn decode_builtin(name: &str, r: &mut ByteReader) -> (res: Result<
    Option<Json>,
    AntelopeError,
>)
    ensures
        reads_builtin(get_builtin(name@, old(r).cursor()), res, *old(r), *final(r)),
{
    proof {
        reveal(get_builtin);
    }
    if let Some(v) = decode_number(name, r)? {
        return Ok(Some(v));
    }
    if let Some(v) = decode_textual(name, r)? {
        return Ok(Some(v));
    }
    decode_token(name, r)
}

} // verus!
