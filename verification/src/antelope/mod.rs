//! Core Antelope (EOSIO) chain types and ABI-driven binary decoding: the
//! `name`/`symbol`/`asset` encodings, a little-endian binary reader for the
//! Antelope serialization format, and an ABI-driven decoder that turns raw
//! action data and table rows into JSON.

use crate::antelope::wire::{Fault, HasFault};
use crate::text;
use vstd::prelude::*;
use vstd::string::*;

pub mod abi;
pub mod asset;
pub mod builtin;
pub mod codec;
pub mod composite;
pub mod decoder;
pub mod keys;
pub mod name;
pub mod packing;
pub mod plain;
pub mod reader;
pub mod time;
pub mod trailing;
pub mod wire;

pub use crate::antelope::abi::Abi;
pub use crate::antelope::asset::{Asset, Symbol, SymbolCode};
pub use crate::antelope::decoder::AbiDecoder;
pub use crate::antelope::name::Name;
pub use crate::antelope::reader::ByteReader;

verus! {

/// What can be wrong with Antelope data or with a text that names some.
#[derive(Debug)]
pub enum AntelopeError {
    /// The buffer ended too early.
    Eof { needed: usize, remaining: usize },
    /// A varuint32 is too long or too large.
    BadVarint,
    BadName(String),
    BadSymbol(String),
    BadUtf8,
    UnknownType(String),
    BadAbi(String),
    BadKeyType(u8),
    BadVariantIndex { variant: String, index: u32 },
}

impl HasFault for AntelopeError {
    open spec fn fault(&self) -> Fault {
        match self {
            AntelopeError::Eof { needed, remaining } => Fault::Eof {
                needed: *needed as nat,
                remaining: *remaining as nat,
            },
            AntelopeError::BadVarint => Fault::BadVarint,
            AntelopeError::BadName(s) => Fault::BadName(s@),
            AntelopeError::BadSymbol(s) => Fault::BadSymbol(s@),
            AntelopeError::BadUtf8 => Fault::BadUtf8,
            AntelopeError::UnknownType(s) => Fault::UnknownType(s@),
            AntelopeError::BadAbi(s) => Fault::BadAbi(s@),
            AntelopeError::BadKeyType(t) => Fault::BadKeyType(*t),
            AntelopeError::BadVariantIndex { variant, index } => Fault::BadVariantIndex {
                variant: variant@,
                index: *index,
            },
        }
    }
}

/// A text behind another.
fn message(what: &str, about: &str) -> (r: String)
    ensures
        r@ == what@ + about@,
{
    let mut out: String = what.to_owned();
    out.append(about);
    out
}

/// What an error with Antelope data says.
pub open spec fn error_text(e: AntelopeError) -> Seq<char> {
    match e {
        AntelopeError::Eof { needed, remaining } => "unexpected end of buffer: needed "@
            + text::decimal(needed as nat) + " bytes, "@ + text::decimal(remaining as nat)
            + " remaining"@,
        AntelopeError::BadVarint => "varuint32 too long or malformed"@,
        AntelopeError::BadName(s) => "invalid name: "@ + s@,
        AntelopeError::BadSymbol(s) => "invalid symbol: "@ + s@,
        AntelopeError::BadUtf8 => "invalid utf-8 in string"@,
        AntelopeError::UnknownType(s) => "unknown ABI type: "@ + s@,
        AntelopeError::BadAbi(s) => "invalid ABI: "@ + s@,
        AntelopeError::BadKeyType(t) => "unsupported key/signature type "@ + text::decimal(
            t as nat,
        ),
        AntelopeError::BadVariantIndex { variant, index } => "variant index "@ + text::decimal(
            index as nat,
        ) + " out of range for "@ + variant@,
    }
}

impl AntelopeError {
    /// What the error says.
    pub fn to_string(&self) -> (r: String)
        ensures
            r@ == error_text(*self),
    {
        match self {
            AntelopeError::Eof { needed, remaining } => {
                let mut out: String = "unexpected end of buffer: needed ".to_owned();
                text::push_decimal(&mut out, *needed as u128);
                out.append(" bytes, ");
                text::push_decimal(&mut out, *remaining as u128);
                out.append(" remaining");
                out
            },
            AntelopeError::BadVarint => "varuint32 too long or malformed".to_owned(),
            AntelopeError::BadName(s) => message("invalid name: ", s.as_str()),
            AntelopeError::BadSymbol(s) => message("invalid symbol: ", s.as_str()),
            AntelopeError::BadUtf8 => "invalid utf-8 in string".to_owned(),
            AntelopeError::UnknownType(s) => message("unknown ABI type: ", s.as_str()),
            AntelopeError::BadAbi(s) => message("invalid ABI: ", s.as_str()),
            AntelopeError::BadKeyType(t) => {
                let mut out: String = "unsupported key/signature type ".to_owned();
                text::push_decimal(&mut out, *t as u128);
                out
            },
            AntelopeError::BadVariantIndex { variant, index } => {
                let mut out: String = "variant index ".to_owned();
                text::push_decimal(&mut out, *index as u128);
                out.append(" out of range for ");
                out.append(variant.as_str());
                out
            },
        }
    }
}

} // verus!
