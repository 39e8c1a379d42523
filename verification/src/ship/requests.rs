//! Requests to the state-history plugin: encoded, never decoded.

use crate::antelope::packing;
use crate::antelope::wire;
use crate::antelope::wire::Cursor;
use vstd::prelude::*;

verus! {

/// A request for a range of blocks.
pub struct GetBlocksRequest {
    pub start_block_num: u32,
    pub end_block_num: u32,
    pub max_messages_in_flight: u32,
    pub irreversible_only: bool,
    pub fetch_block: bool,
    pub fetch_traces: bool,
    pub fetch_deltas: bool,
}

pub open spec fn flag(b: bool) -> u8 {
    if b {
        1
    } else {
        0
    }
}

/// The bytes of a request for blocks: its kind, the range, the credit, no
/// known positions, and what is wanted of each block.
pub open spec fn blocks_request_bytes(req: GetBlocksRequest) -> Seq<u8> {
    packing::varuint_bytes(1) + wire::le_bytes(req.start_block_num as nat, 4) + wire::le_bytes(
        req.end_block_num as nat,
        4,
    ) + wire::le_bytes(req.max_messages_in_flight as nat, 4) + packing::varuint_bytes(0) + seq![
        flag(req.irreversible_only),
        flag(req.fetch_block),
        flag(req.fetch_traces),
        flag(req.fetch_deltas),
    ]
}

/// The bytes of an acknowledgement: its kind and the credit.
pub open spec fn ack_request_bytes(num_messages: u32) -> Seq<u8> {
    packing::varuint_bytes(2) + wire::le_bytes(num_messages as nat, 4)
}

pub fn push_varuint32(buf: &mut Vec<u8>, v: u32)
    ensures
        final(buf)@ == old(buf)@ + packing::varuint_bytes(v as nat),
    decreases v,
{
    if v < 128 {
        buf.push(v as u8);
    } else {
        buf.push((v % 128 + 128) as u8);
        push_varuint32(buf, v / 128);
    }
    assert(buf@ == old(buf)@ + packing::varuint_bytes(v as nat));
}

fn push_u32(buf: &mut Vec<u8>, v: u32)
    ensures
        final(buf)@ == old(buf)@ + wire::le_bytes(v as nat, 4),
{
    buf.push((v % 256) as u8);
    buf.push((v / 256 % 256) as u8);
    buf.push((v / 65_536 % 256) as u8);
    buf.push((v / 16_777_216) as u8);
    proof {
        reveal_with_fuel(wire::le_bytes, 5);
        assert(v / 256 / 256 == v / 65_536);
        assert(v / 256 / 256 / 256 == v / 16_777_216);
    }
    assert(buf@ == old(buf)@ + wire::le_bytes(v as nat, 4));
}

fn push_flag(buf: &mut Vec<u8>, b: bool)
    ensures
        final(buf)@ == old(buf)@.push(flag(b)),
{
    buf.push(
        if b {
            1
        } else {
            0
        },
    );
}

pub fn encode_get_status_request() -> (r: Vec<u8>)
    ensures
        r@ == packing::varuint_bytes(0),
{
    // variant index 0, no fields
    let mut buf: Vec<u8> = Vec::new();
    push_varuint32(&mut buf, 0);
    buf
}

pub fn encode_get_blocks_request(req: &GetBlocksRequest) -> (r: Vec<u8>)
    ensures
        r@ == blocks_request_bytes(*req),
{
    let mut buf: Vec<u8> = Vec::new();
    // variant index: get_blocks_request_v0
    push_varuint32(&mut buf, 1);
    push_u32(&mut buf, req.start_block_num);
    push_u32(&mut buf, req.end_block_num);
    push_u32(&mut buf, req.max_messages_in_flight);
    // have_positions: empty
    push_varuint32(&mut buf, 0);
    push_flag(&mut buf, req.irreversible_only);
    push_flag(&mut buf, req.fetch_block);
    push_flag(&mut buf, req.fetch_traces);
    push_flag(&mut buf, req.fetch_deltas);
    assert(buf@ == blocks_request_bytes(*req));
    buf
}

pub fn encode_get_blocks_ack_request(num_messages: u32) -> (r: Vec<u8>)
    ensures
        r@ == ack_request_bytes(num_messages),
{
    let mut buf: Vec<u8> = Vec::new();
    // variant index: get_blocks_ack_request_v0
    push_varuint32(&mut buf, 2);
    push_u32(&mut buf, num_messages);
    assert(buf@ == ack_request_bytes(num_messages));
    buf
}

// ---------------------------------------------------------------------------
// Requests read back
// ---------------------------------------------------------------------------

/// What the server reads of a request for blocks: its kind, the range and the
/// credit, the number of known positions, and the four flags.
pub open spec fn get_blocks_request(c: Cursor) -> (
    (u32, GetBlocksRequest, u32),
    Cursor,
) {
    let (kind, c1) = wire::get_varuint32(c);
    let (start_block_num, c2) = wire::get_u32(c1);
    let (end_block_num, c3) = wire::get_u32(c2);
    let (max_messages_in_flight, c4) = wire::get_u32(c3);
    let (positions, c5) = wire::get_varuint32(c4);
    let (irreversible_only, c6) = wire::get_bool(c5);
    let (fetch_block, c7) = wire::get_bool(c6);
    let (fetch_traces, c8) = wire::get_bool(c7);
    let (fetch_deltas, c9) = wire::get_bool(c8);
    (
        (
            kind,
            GetBlocksRequest {
                start_block_num,
                end_block_num,
                max_messages_in_flight,
                irreversible_only,
                fetch_block,
                fetch_traces,
                fetch_deltas,
            },
            positions,
        ),
        c9,
    )
}

/// A request for blocks is read back whole, as kind 1 and with no known
/// positions.
pub proof fn law_blocks_request_reads_back(req: GetBlocksRequest)
    ensures
        get_blocks_request(wire::at(blocks_request_bytes(req))) == (
            (1u32, req, 0u32),
            wire::at(seq![]),
        ),
{
    let a = flag(req.irreversible_only);
    let b = flag(req.fetch_block);
    let t = flag(req.fetch_traces);
    let d = flag(req.fetch_deltas);
    let r9 = Seq::<u8>::empty();
    let r8 = seq![d] + r9;
    let r7 = seq![t] + r8;
    let r6 = seq![b] + r7;
    let r5 = seq![a] + r6;
    let r4 = packing::varuint_bytes(0) + r5;
    let r3 = wire::le_bytes(req.max_messages_in_flight as nat, 4) + r4;
    let r2 = wire::le_bytes(req.end_block_num as nat, 4) + r3;
    let r1 = wire::le_bytes(req.start_block_num as nat, 4) + r2;
    assert(blocks_request_bytes(req) == packing::varuint_bytes(1) + r1);
    packing::law_varuint_reads_back(1, r1);
    packing::law_u32_reads_back(req.start_block_num, r2);
    packing::law_u32_reads_back(req.end_block_num, r3);
    packing::law_u32_reads_back(req.max_messages_in_flight, r4);
    packing::law_varuint_reads_back(0, r5);
    packing::lemma_u8_at(a, r6);
    packing::lemma_u8_at(b, r7);
    packing::lemma_u8_at(t, r8);
    packing::lemma_u8_at(d, r9);
}

/// An acknowledgement is read back whole, as kind 2.
pub proof fn law_ack_reads_back(num_messages: u32)
    ensures
        ({
            let (kind, c1) = wire::get_varuint32(wire::at(ack_request_bytes(num_messages)));
            let (credit, c2) = wire::get_u32(c1);
            kind == 2 && credit == num_messages && c2 == wire::at(seq![])
        }),
{
    let rest = wire::le_bytes(num_messages as nat, 4);
    packing::law_varuint_reads_back(2, rest);
    assert(rest + Seq::<u8>::empty() == rest);
    packing::law_u32_reads_back(num_messages, Seq::empty());
}

/// A status request is read back as kind 0.
pub proof fn law_status_request_reads_back()
    ensures
        wire::get_varuint32(wire::at(packing::varuint_bytes(0))) == (0u32, wire::at(seq![])),
{
    assert(packing::varuint_bytes(0) + Seq::<u8>::empty() == packing::varuint_bytes(0));
    packing::law_varuint_reads_back(0, Seq::empty());
}

} // verus!
