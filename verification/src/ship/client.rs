//! What a client of the state-history plugin does with each frame.
//!
//! Protocol: on connect the server pushes its ABI as a single text frame;
//! everything after that is binary, ABI-encoded `request` / `result`
//! variants. Flow control is credit-based: the server sends at most
//! `max_messages_in_flight` block results until acked.

use crate::antelope::wire;
use crate::antelope::wire::{Fault, HasFault};
use crate::ship::results;
use crate::ship::results::{
    BlockPositionModel, GetBlocksResult, GetStatusResult, ShipResult, ShipResultModel,
};
use crate::ship::ShipError;
use vstd::prelude::*;

verus! {

/// Where the server is, and how many results may be under way.
#[derive(Debug, Clone)]
pub struct ShipConfig {
    /// e.g. `ws://127.0.0.1:8080`
    pub url: String,
    pub max_messages_in_flight: u32,
}

impl Default for ShipConfig {
    fn default() -> (r: Self)
        ensures
            r.url@ == "ws://127.0.0.1:8080"@,
            r.max_messages_in_flight == 128,
    {
        ShipConfig { url: "ws://127.0.0.1:8080".to_owned(), max_messages_in_flight: 128 }
    }
}

/// What comes from the connection.
pub enum Frame {
    Text(String),
    Binary(Vec<u8>),
    /// A ping, a pong or a fragment, which the connection itself handles.
    Control,
    /// The server closed the connection, or it ended.
    Closed,
    /// The connection failed.
    Failed(String),
}

/// The fault that a frame is, if it is one.
pub open spec fn frame_fault(frame: Frame) -> Option<Fault> {
    match frame {
        Frame::Closed => Some(Fault::Closed),
        Frame::Failed(e) => Some(Fault::WebSocket(e@)),
        _ => None,
    }
}

/// Completes the handshake: the first message must be the server's ABI, as
/// text. Nothing is returned for a frame that is no message.
pub fn handshake(frame: Frame) -> (res: Result<Option<String>, ShipError>)
    ensures
        match res {
            Ok(Some(abi)) => frame matches Frame::Text(t) && t == abi,
            Ok(None) => frame is Control,
            Err(e) => match frame {
                Frame::Binary(_) => e.fault() == Fault::Protocol(
                    "expected ABI text frame before binary traffic"@,
                ),
                _ => frame_fault(frame) == Some(e.fault()),
            },
        },
{
    match frame {
        Frame::Text(abi) => Ok(Some(abi)),
        Frame::Binary(_) => Err(
            ShipError::Protocol("expected ABI text frame before binary traffic".to_owned()),
        ),
        Frame::Control => Ok(None),
        Frame::Closed => Err(ShipError::Closed),
        Frame::Failed(e) => Err(ShipError::WebSocket(e)),
    }
}

/// Decodes the result in a frame. A text frame is passed over: a duplicate ABI
/// frame would indicate a proxy restart.
pub fn next_result(frame: Frame) -> (res: Result<Option<ShipResult>, ShipError>)
    ensures
        match frame {
            Frame::Binary(data) => {
                let (due, c) = results::get_result(wire::at(data@));
                match res {
                    Ok(Some(r)) => c.fault is None && r.deep_view() == due,
                    Ok(None) => false,
                    Err(e) => c.fault == Some(e.fault()),
                }
            },
            _ => match res {
                Ok(Some(_)) => false,
                Ok(None) => frame_fault(frame) is None,
                Err(e) => frame_fault(frame) == Some(e.fault()),
            },
        },
{
    match frame {
        Frame::Binary(data) => match ShipResult::decode(data.as_slice()) {
            Ok(r) => Ok(Some(r)),
            Err(e) => Err(e),
        },
        Frame::Text(_) => Ok(None),
        Frame::Control => Ok(None),
        Frame::Closed => Err(ShipError::Closed),
        Frame::Failed(e) => Err(ShipError::WebSocket(e)),
    }
}

/// The status, if that is what a result is. Block results may still be in
/// flight from an earlier request; they are passed over.
pub fn status_of(result: ShipResult) -> (r: Option<GetStatusResult>)
    ensures
        match r {
            Some(s) => result.deep_view() == ShipResultModel::Status(s.deep_view()),
            None => result.deep_view() is Blocks,
        },
{
    match result {
        ShipResult::Status(s) => Some(s),
        ShipResult::Blocks(_) => None,
    }
}

/// What the reader of a block stream does next.
pub enum ReadStep {
    /// Hands a block on; behind the last one the stream is done, behind any
    /// other credit for one more is due.
    Deliver(Box<GetBlocksResult>, bool),
    /// Waits for the next frame.
    Wait,
    /// The stream has ended.
    End,
    Fail(ShipError),
}

/// Whether a block is the last of a stream that stops at `stop_block`; zero
/// means that it goes on.
pub open spec fn ends_stream(stop_block: u32, at: Option<BlockPositionModel>) -> bool {
    stop_block > 0 && (at matches Some(b) && b.block_num >= stop_block)
}

/// Reads the next frame of a block stream. A status is passed over; that the
/// server closes the connection ends the stream.
pub fn read_step(frame: Frame, stop_block: u32) -> (r: ReadStep)
    ensures
        match frame {
            Frame::Binary(data) => {
                let (due, c) = results::get_result(wire::at(data@));
                match r {
                    ReadStep::Deliver(block, last) => c.fault is None && due
                        == ShipResultModel::Blocks(block.deep_view()) && last == ends_stream(
                        stop_block,
                        block.deep_view().this_block,
                    ),
                    ReadStep::Wait => c.fault is None && due is Status,
                    ReadStep::End => false,
                    ReadStep::Fail(e) => c.fault == Some(e.fault()),
                }
            },
            Frame::Text(_) | Frame::Control => r is Wait,
            Frame::Closed => r is End,
            Frame::Failed(message) => r matches ReadStep::Fail(e) && e.fault()
                == Fault::WebSocket(message@),
        },
{
    if let Frame::Closed = frame {
        return ReadStep::End;
    }
    match next_result(frame) {
        Ok(Some(ShipResult::Blocks(block))) => {
            let last: bool = match &block.this_block {
                Some(b) => stop_block > 0 && b.block_num >= stop_block,
                None => false,
            };
            ReadStep::Deliver(block, last)
        },
        Ok(Some(ShipResult::Status(_))) => ReadStep::Wait,
        Ok(None) => ReadStep::Wait,
        Err(e) => ReadStep::Fail(e),
    }
}

} // verus!
