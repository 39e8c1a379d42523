//! The Antelope state-history plugin (SHIP) protocol: requests, results and
//! the payloads of results.
//!
//! The protocol frames everything as ABI-encoded `request` / `result`
//! variants. The shapes track the Leap state-history ABI; unknown variant
//! versions are surfaced as errors rather than silently skipped so an
//! incompatible nodeos is noticed immediately.

use crate::antelope;
use crate::antelope::codec::Failure;
use crate::antelope::wire::{Fault, HasFault};
use crate::antelope::AntelopeError;
use crate::text;
use vstd::prelude::*;
use vstd::string::*;

pub mod client;
pub mod deltas;
pub mod header;
pub mod malformed;
pub mod packed;
pub mod requests;
pub mod results;
pub mod traces;

pub use crate::ship::client::ShipConfig;
pub use crate::ship::deltas::{
    AccountRow, ContractRow, PermissionRow, TableDelta, TableDeltaRow,
};
pub use crate::ship::header::BlockHeader;
pub use crate::ship::requests::GetBlocksRequest;
pub use crate::ship::results::{BlockPosition, GetBlocksResult, GetStatusResult, ShipResult};
pub use crate::ship::traces::{
    AccountDelta, Action, ActionReceipt, ActionTrace, PartialTransaction, PermissionLevel,
    TransactionTrace,
};

verus! {

/// What can be wrong with a result or with the connection.
#[derive(Debug)]
pub enum ShipError {
    /// The bytes of a result are malformed.
    Antelope(AntelopeError),
    /// A variant of a later version of the protocol.
    UnsupportedVariant { kind: &'static str, index: u32 },
    /// The connection failed.
    WebSocket(String),
    /// The connection was closed by the server.
    Closed,
    /// The server did not keep to the protocol.
    Protocol(String),
}

impl HasFault for ShipError {
    open spec fn fault(&self) -> Fault {
        match self {
            ShipError::Antelope(e) => e.fault(),
            ShipError::UnsupportedVariant { kind, index } => Fault::UnsupportedVariant {
                kind: kind@,
                index: *index,
            },
            ShipError::WebSocket(s) => Fault::WebSocket(s@),
            ShipError::Closed => Fault::Closed,
            ShipError::Protocol(s) => Fault::Protocol(s@),
        }
    }
}

/// What an error with the protocol says.
pub open spec fn error_text(e: ShipError) -> Seq<char> {
    match e {
        ShipError::Antelope(inner) => "antelope decode error: "@ + antelope::error_text(inner),
        ShipError::UnsupportedVariant { kind, index } => "unsupported "@ + kind@
            + " variant index "@ + text::decimal(index as nat),
        ShipError::WebSocket(s) => "websocket error: "@ + s@,
        ShipError::Closed => "connection closed by server"@,
        ShipError::Protocol(s) => "protocol error: "@ + s@,
    }
}

impl ShipError {
    /// What the error says.
    pub fn to_string(&self) -> (r: String)
        ensures
            r@ == error_text(*self),
    {
        match self {
            ShipError::Antelope(inner) => {
                let mut out: String = "antelope decode error: ".to_owned();
                out.append(inner.to_string().as_str());
                out
            },
            ShipError::UnsupportedVariant { kind, index } => {
                let mut out: String = "unsupported ".to_owned();
                out.append(kind);
                out.append(" variant index ");
                text::push_decimal(&mut out, *index as u128);
                out
            },
            ShipError::WebSocket(s) => {
                let mut out: String = "websocket error: ".to_owned();
                out.append(s.as_str());
                out
            },
            ShipError::Closed => "connection closed by server".to_owned(),
            ShipError::Protocol(s) => {
                let mut out: String = "protocol error: ".to_owned();
                out.append(s.as_str());
                out
            },
        }
    }
}

impl Failure for ShipError {
    fn of(e: AntelopeError) -> (r: Self) {
        ShipError::Antelope(e)
    }
}

/// A result of reading, with its error as one of the protocol.
pub fn ship<T>(r: Result<T, AntelopeError>) -> (out: Result<T, ShipError>)
    ensures
        match (r, out) {
            (Ok(a), Ok(b)) => a == b,
            (Err(e), Err(f)) => e.fault() == f.fault(),
            _ => false,
        },
{
    match r {
        Ok(v) => Ok(v),
        Err(e) => Err(ShipError::Antelope(e)),
    }
}

/// Fails if a variant is of a later version than is known.
pub fn expect_version(kind: &'static str, index: u32, newest: u32) -> (out: Result<(), ShipError>)
    ensures
        match out {
            Ok(_) => index <= newest,
            Err(e) => index > newest && e.fault() == (Fault::UnsupportedVariant {
                kind: kind@,
                index,
            }),
        },
{
    if index > newest {
        Err(ShipError::UnsupportedVariant { kind, index })
    } else {
        Ok(())
    }
}

} // verus!
