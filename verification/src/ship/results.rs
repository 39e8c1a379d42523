//! Results that the state-history plugin sends.

use crate::antelope::reader::ByteReader;
use crate::antelope::wire;
use crate::antelope::wire::Cursor;
use crate::bytes::owned;
use crate::lists;
use crate::ship::{ship, ShipError};
use vstd::prelude::*;

verus! {

broadcast use wire::group_latch;

/// A block, by its number and its id.
#[derive(Debug, Clone, PartialEq, Eq)]
pub struct BlockPosition {
    pub block_num: u32,
    pub block_id: String,
}

/// What the server knows of the chain.
#[derive(Debug, Clone)]
pub struct GetStatusResult {
    pub head: BlockPosition,
    pub last_irreversible: BlockPosition,
    pub trace_begin_block: u32,
    pub trace_end_block: u32,
    pub chain_state_begin_block: u32,
    pub chain_state_end_block: u32,
    /// Present on newer nodeos releases (binary extension).
    pub chain_id: Option<String>,
}

/// A block and what happened in it.
#[derive(Debug)]
pub struct GetBlocksResult {
    pub head: BlockPosition,
    pub last_irreversible: BlockPosition,
    pub this_block: Option<BlockPosition>,
    pub prev_block: Option<BlockPosition>,
    /// Raw serialized `signed_block`, decoded lazily.
    pub block: Option<Vec<u8>>,
    /// Raw serialized `transaction_trace[]`, decoded lazily.
    pub traces: Option<Vec<u8>>,
    /// Raw serialized `table_delta[]`, decoded lazily.
    pub deltas: Option<Vec<u8>>,
}

/// A result.
#[derive(Debug)]
pub enum ShipResult {
    Status(GetStatusResult),
    Blocks(Box<GetBlocksResult>),
}

// ---------------------------------------------------------------------------
// What the results hold
// ---------------------------------------------------------------------------

#[verifier::ext_equal]
pub struct BlockPositionModel {
    pub block_num: u32,
    pub block_id: Seq<char>,
}

impl DeepView for BlockPosition {
    type V = BlockPositionModel;

    open spec fn deep_view(&self) -> BlockPositionModel {
        BlockPositionModel {
            block_num: self.block_num,
            block_id: self.block_id@,
        }
    }
}

#[verifier::ext_equal]
pub struct GetStatusResultModel {
    pub head: BlockPositionModel,
    pub last_irreversible: BlockPositionModel,
    pub trace_begin_block: u32,
    pub trace_end_block: u32,
    pub chain_state_begin_block: u32,
    pub chain_state_end_block: u32,
    pub chain_id: Option<Seq<char>>,
}

impl DeepView for GetStatusResult {
    type V = GetStatusResultModel;

    open spec fn deep_view(&self) -> GetStatusResultModel {
        GetStatusResultModel {
            head: self.head.deep_view(),
            last_irreversible: self.last_irreversible.deep_view(),
            trace_begin_block: self.trace_begin_block,
            trace_end_block: self.trace_end_block,
            chain_state_begin_block: self.chain_state_begin_block,
            chain_state_end_block: self.chain_state_end_block,
            chain_id: self.chain_id.deep_view(),
        }
    }
}

#[verifier::ext_equal]
pub struct GetBlocksResultModel {
    pub head: BlockPositionModel,
    pub last_irreversible: BlockPositionModel,
    pub this_block: Option<BlockPositionModel>,
    pub prev_block: Option<BlockPositionModel>,
    pub block: Option<Seq<u8>>,
    pub traces: Option<Seq<u8>>,
    pub deltas: Option<Seq<u8>>,
}

impl DeepView for GetBlocksResult {
    type V = GetBlocksResultModel;

    open spec fn deep_view(&self) -> GetBlocksResultModel {
        GetBlocksResultModel {
            head: self.head.deep_view(),
            last_irreversible: self.last_irreversible.deep_view(),
            this_block: self.this_block.deep_view(),
            prev_block: self.prev_block.deep_view(),
            block: self.block.deep_view(),
            traces: self.traces.deep_view(),
            deltas: self.deltas.deep_view(),
        }
    }
}

pub enum ShipResultModel {
    Status(GetStatusResultModel),
    Blocks(GetBlocksResultModel),
}

impl DeepView for ShipResult {
    type V = ShipResultModel;

    open spec fn deep_view(&self) -> ShipResultModel {
        match self {
            ShipResult::Status(s) => ShipResultModel::Status(s.deep_view()),
            ShipResult::Blocks(b) => ShipResultModel::Blocks(b.deep_view()),
        }
    }
}

// ---------------------------------------------------------------------------
// Decoding
// ---------------------------------------------------------------------------

/// A block position.
pub open spec fn get_position(c: Cursor) -> (BlockPositionModel, Cursor) {
    let (block_num, c1) = wire::get_u32(c);
    let (block_id, c2) = wire::get_digest(c1);
    (BlockPositionModel { block_num, block_id }, c2)
}

/// The chain id, which is absent where the buffer ends before it.
pub open spec fn get_chain_id(c: Cursor) -> (Option<Seq<char>>, Cursor) {
    if c.sound() && c.rest.len() > 0 {
        let (id, c1) = wire::get_digest(c);
        (Some(id), c1)
    } else {
        (None, c)
    }
}

pub open spec fn get_status(c: Cursor) -> (GetStatusResultModel, Cursor) {
    let (head, c1) = get_position(c);
    let (last_irreversible, c2) = get_position(c1);
    let (trace_begin_block, c3) = wire::get_u32(c2);
    let (trace_end_block, c4) = wire::get_u32(c3);
    let (chain_state_begin_block, c5) = wire::get_u32(c4);
    let (chain_state_end_block, c6) = wire::get_u32(c5);
    let (chain_id, c7) = get_chain_id(c6);
    (
        GetStatusResultModel {
            head,
            last_irreversible,
            trace_begin_block,
            trace_end_block,
            chain_state_begin_block,
            chain_state_end_block,
            chain_id,
        },
        c7,
    )
}

/// A block result. Field order per the SHIP ABI: block, traces, deltas.
pub open spec fn get_blocks(c: Cursor) -> (GetBlocksResultModel, Cursor) {
    let (head, c1) = get_position(c);
    let (last_irreversible, c2) = get_position(c1);
    let (this_block, c3) = wire::get_option(|d: Cursor| get_position(d), c2);
    let (prev_block, c4) = wire::get_option(|d: Cursor| get_position(d), c3);
    let (block, c5) = wire::get_option(|d: Cursor| wire::get_blob(d), c4);
    let (traces, c6) = wire::get_option(|d: Cursor| wire::get_blob(d), c5);
    let (deltas, c7) = wire::get_option(|d: Cursor| wire::get_blob(d), c6);
    (
        GetBlocksResultModel {
            head,
            last_irreversible,
            this_block,
            prev_block,
            block,
            traces,
            deltas,
        },
        c7,
    )
}

/// A result: its kind, then its fields.
pub open spec fn get_result(c: Cursor) -> (ShipResultModel, Cursor) {
    let (index, c1) = wire::get_varuint32(c);
    if !c1.sound() {
        (arbitrary(), c1)
    } else if index == 0 {
        let (s, c2) = get_status(c1);
        (ShipResultModel::Status(s), c2)
    } else if index == 1 {
        let (b, c2) = get_blocks(c1);
        (ShipResultModel::Blocks(b), c2)
    } else {
        (arbitrary(), c1.failed(wire::unsupported("result"@, index)))
    }
}

impl BlockPosition {
    pub fn read(r: &mut ByteReader) -> (res: Result<Self, ShipError>)
        ensures
            crate::antelope::reader::reads(get_position(old(r).cursor()), res, *old(r), *final(r)),
    {
        let block_num: u32 = ship(r.read_u32())?;
        let block_id = ship(r.read_checksum256_hex())?;
        Ok(BlockPosition { block_num, block_id })
    }

    fn read_opt(r: &mut ByteReader) -> (res: Result<Option<Self>, ShipError>)
        ensures
            crate::antelope::reader::reads(
                wire::get_option(|d: Cursor| get_position(d), old(r).cursor()),
                res,
                *old(r),
                *final(r),
            ),
    {
        if ship(r.read_bool())? {
            Ok(Some(Self::read(r)?))
        } else {
            Ok(None)
        }
    }
}

fn read_opt_bytes(r: &mut ByteReader) -> (res: Result<Option<Vec<u8>>, ShipError>)
    ensures
        crate::antelope::reader::reads(
            wire::get_option(|d: Cursor| wire::get_blob(d), old(r).cursor()),
            res,
            *old(r),
            *final(r),
        ),
{
    if ship(r.read_bool())? {
        let bytes: Vec<u8> = owned(ship(r.read_bytes())?);
        proof {
            lists::lemma_bytes_view(bytes);
        }
        Ok(Some(bytes))
    } else {
        Ok(None)
    }
}

impl GetStatusResult {
    fn read(r: &mut ByteReader) -> (res: Result<Self, ShipError>)
        ensures
            crate::antelope::reader::reads(get_status(old(r).cursor()), res, *old(r), *final(r)),
    {
        let head = BlockPosition::read(r)?;
        let last_irreversible = BlockPosition::read(r)?;
        let trace_begin_block: u32 = ship(r.read_u32())?;
        let trace_end_block: u32 = ship(r.read_u32())?;
        let chain_state_begin_block: u32 = ship(r.read_u32())?;
        let chain_state_end_block: u32 = ship(r.read_u32())?;
        let chain_id = if r.is_empty() {
            None
        } else {
            Some(ship(r.read_checksum256_hex())?)
        };
        Ok(GetStatusResult {
            head,
            last_irreversible,
            trace_begin_block,
            trace_end_block,
            chain_state_begin_block,
            chain_state_end_block,
            chain_id,
        })
    }
}

impl GetBlocksResult {
    fn read(r: &mut ByteReader) -> (res: Result<Self, ShipError>)
        ensures
            crate::antelope::reader::reads(get_blocks(old(r).cursor()), res, *old(r), *final(r)),
    {
        let head = BlockPosition::read(r)?;
        let last_irreversible = BlockPosition::read(r)?;
        let this_block = BlockPosition::read_opt(r)?;
        let prev_block = BlockPosition::read_opt(r)?;
        let block = read_opt_bytes(r)?;
        let traces = read_opt_bytes(r)?;
        let deltas = read_opt_bytes(r)?;
        Ok(GetBlocksResult {
            head,
            last_irreversible,
            this_block,
            prev_block,
            block,
            traces,
            deltas,
        })
    }
}

impl ShipResult {
    pub fn decode(data: &[u8]) -> (res: Result<Self, ShipError>)
        ensures
            crate::antelope::reader::decodes(get_result(wire::at(data@)), res),
    {
        let mut reader = ByteReader::new(data);
        let r = &mut reader;
        let index: u32 = ship(r.read_varuint32())?;
        match index {
            0 => Ok(ShipResult::Status(GetStatusResult::read(r)?)),
            1 => Ok(ShipResult::Blocks(Box::new(GetBlocksResult::read(r)?))),
            _ => Err(ShipError::UnsupportedVariant { kind: "result", index }),
        }
    }
}

} // verus!
