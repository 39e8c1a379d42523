//! Signed block headers.

use crate::antelope::abi::Extension;
use crate::antelope::codec;
use crate::antelope::codec::{read_list, Codec};
use crate::antelope::keys;
use crate::antelope::name::Name;
use crate::antelope::reader::ByteReader;
use crate::antelope::wire;
use crate::antelope::wire::Cursor;
use crate::antelope::AntelopeError;
use crate::ship::traces::SignatureText;
use crate::ship::{ship, ShipError};
use vstd::prelude::*;

verus! {

broadcast use {wire::group_latch, codec::lemma_list_latch, keys::lemma_signature_latch};

/// The subset of `signed_block` that is indexed per block. Parsing stops after
/// counting transaction receipts.
#[derive(Debug, Clone)]
pub struct BlockHeader {
    pub timestamp_slot: u32,
    pub producer: Name,
    pub confirmed: u16,
    pub previous: String,
    pub transaction_mroot: String,
    pub action_mroot: String,
    pub schedule_version: u32,
    pub producer_signature: String,
    pub trx_count: u32,
    pub cpu_usage_us: u64,
    pub net_usage_words: u64,
}

#[verifier::ext_equal]
pub struct BlockHeaderModel {
    pub timestamp_slot: u32,
    pub producer: Name,
    pub confirmed: u16,
    pub previous: Seq<char>,
    pub transaction_mroot: Seq<char>,
    pub action_mroot: Seq<char>,
    pub schedule_version: u32,
    pub producer_signature: Seq<char>,
    pub trx_count: u32,
    pub cpu_usage_us: u64,
    pub net_usage_words: u64,
}

impl DeepView for BlockHeader {
    type V = BlockHeaderModel;

    open spec fn deep_view(&self) -> BlockHeaderModel {
        BlockHeaderModel {
            timestamp_slot: self.timestamp_slot,
            producer: self.producer,
            confirmed: self.confirmed,
            previous: self.previous@,
            transaction_mroot: self.transaction_mroot@,
            action_mroot: self.action_mroot@,
            schedule_version: self.schedule_version,
            producer_signature: self.producer_signature@,
            trx_count: self.trx_count,
            cpu_usage_us: self.cpu_usage_us,
            net_usage_words: self.net_usage_words,
        }
    }
}

/// A producer and its key, which are not kept.
pub struct ProducerKey;

impl Codec for ProducerKey {
    type Item = ();

    type Error = AntelopeError;

    open spec fn get(c: Cursor) -> ((), Cursor) {
        let (_, c1) = wire::get_name(c);
        let (_, c2) = keys::get_public_key(c1);
        ((), c2)
    }

    proof fn shrinks(c: Cursor) {
        broadcast use wire::group_shrinks;
        broadcast use keys::lemma_public_key_shrinks;

    }

    proof fn extends(c: Cursor, extra: Seq<u8>) {
        broadcast use wire::group_extends;
        broadcast use keys::lemma_public_key_extends;

    }

    fn take(r: &mut ByteReader) -> Result<(), AntelopeError> {
        r.read_name()?;
        keys::read_public_key(r)?;
        Ok(())
    }
}

/// The transaction of a receipt, which is not kept: an id, or the packed
/// transaction with its signatures.
pub open spec fn skip_transaction(c: Cursor) -> Cursor {
    let (index, c1) = wire::get_varuint32(c);
    if !c1.sound() {
        c1
    } else if index == 0 {
        wire::get_exact(c1, 32).1
    } else if index == 1 {
        let (_, c2) = codec::list_of::<SignatureText>(c1);
        let (_, c3) = wire::get_u8(c2);
        let (_, c4) = wire::get_blob(c3);
        let (_, c5) = wire::get_blob(c4);
        c5
    } else {
        c1.failed(wire::unsupported("transaction_receipt"@, index))
    }
}

/// A transaction receipt, of which the processor time and the network use are
/// kept.
pub struct TransactionReceipt;

impl Codec for TransactionReceipt {
    type Item = (u32, u32);

    type Error = ShipError;

    open spec fn get(c: Cursor) -> ((u32, u32), Cursor) {
        let (_, c1) = wire::get_u8(c);
        let (cpu, c2) = wire::get_u32(c1);
        let (net, c3) = wire::get_varuint32(c2);
        ((cpu, net), skip_transaction(c3))
    }

    proof fn shrinks(c: Cursor) {
        broadcast use wire::group_shrinks;
        broadcast use codec::lemma_list_shrinks;

    }

    proof fn extends(c: Cursor, extra: Seq<u8>) {
        broadcast use wire::group_extends;
        broadcast use codec::lemma_list_extends;

    }

    fn take(r: &mut ByteReader) -> Result<(u32, u32), ShipError> {
        // transaction_receipt: status, cpu, net, trx variant
        ship(r.read_u8())?;
        let cpu: u32 = ship(r.read_u32())?;
        let net: u32 = ship(r.read_varuint32())?;
        let index: u32 = ship(r.read_varuint32())?;
        match index {
            0 => {
                // transaction_id
                ship(r.read_exact(32))?;
            },
            1 => {
                // packed_transaction: signatures, compression,
                // packed_context_free_data, packed_trx
                ship(read_list::<SignatureText>(r))?;
                ship(r.read_u8())?;
                ship(r.read_bytes())?;
                ship(r.read_bytes())?;
            },
            _ => {
                return Err(ShipError::UnsupportedVariant { kind: "transaction_receipt", index });
            },
        }
        Ok((cpu, net))
    }
}

/// The producer schedule that may stand in a header, which is not kept.
pub open spec fn skip_schedule(c: Cursor) -> Cursor {
    let (present, c1) = wire::get_bool(c);
    if c1.sound() && present {
        let (_, c2) = wire::get_u32(c1);
        let (_, c3) = codec::list_of::<ProducerKey>(c2);
        c3
    } else {
        c1
    }
}

/// The processor time of the first `n` receipts.
pub open spec fn cpu_total(receipts: Seq<(u32, u32)>, n: nat) -> nat
    decreases n,
{
    if n == 0 {
        0
    } else {
        cpu_total(receipts, (n - 1) as nat) + receipts[n - 1].0 as nat
    }
}

/// The network use of the first `n` receipts.
pub open spec fn net_total(receipts: Seq<(u32, u32)>, n: nat) -> nat
    decreases n,
{
    if n == 0 {
        0
    } else {
        net_total(receipts, (n - 1) as nat) + receipts[n - 1].1 as nat
    }
}

/// A signed block, up to its transaction receipts.
pub open spec fn get_header(c: Cursor) -> (BlockHeaderModel, Cursor) {
    let (timestamp_slot, c1) = wire::get_u32(c);
    let (producer, c2) = wire::get_name(c1);
    let (confirmed, c3) = wire::get_u16(c2);
    let (previous, c4) = wire::get_digest(c3);
    let (transaction_mroot, c5) = wire::get_digest(c4);
    let (action_mroot, c6) = wire::get_digest(c5);
    let (schedule_version, c7) = wire::get_u32(c6);
    let c8 = skip_schedule(c7);
    let (_, c9) = codec::list_of::<Extension>(c8);
    let (producer_signature, c10) = keys::get_signature(c9);
    let (receipts, c11) = codec::list_of::<TransactionReceipt>(c10);
    (
        BlockHeaderModel {
            timestamp_slot,
            producer,
            confirmed,
            previous,
            transaction_mroot,
            action_mroot,
            schedule_version,
            producer_signature,
            trx_count: receipts.len() as u32,
            cpu_usage_us: cpu_total(receipts, receipts.len()) as u64,
            net_usage_words: net_total(receipts, receipts.len()) as u64,
        },
        c11,
    )
}

fn read_schedule(r: &mut ByteReader) -> (res: Result<(), ShipError>)
    ensures
        crate::antelope::reader::reads(
            ((), skip_schedule(old(r).cursor())),
            res,
            *old(r),
            *final(r),
        ),
{
    // new_producers: optional legacy producer schedule
    if ship(r.read_bool())? {
        // version
        ship(r.read_u32())?;
        ship(read_list::<ProducerKey>(r))?;
    }
    Ok(())
}

impl BlockHeader {
    pub fn decode(data: &[u8]) -> (res: Result<Self, ShipError>)
        ensures
            crate::antelope::reader::decodes(get_header(wire::at(data@)), res),
    {
        let mut reader = ByteReader::new(data);
        let r = &mut reader;
        let timestamp_slot: u32 = ship(r.read_u32())?;
        let producer = ship(r.read_name())?;
        let confirmed: u16 = ship(r.read_u16())?;
        let previous = ship(r.read_checksum256_hex())?;
        let transaction_mroot = ship(r.read_checksum256_hex())?;
        let action_mroot = ship(r.read_checksum256_hex())?;
        let schedule_version: u32 = ship(r.read_u32())?;
        read_schedule(r)?;
        // header_extensions
        ship(read_list::<Extension>(r))?;
        let producer_signature = ship(keys::read_signature(r))?;
        let ghost c10 = r.cursor();
        let receipts: Vec<(u32, u32)> = read_list::<TransactionReceipt>(r)?;
        let ghost all = receipts.deep_view();
        proof {
            codec::lemma_list_len::<TransactionReceipt>(c10);
        }
        let mut cpu_usage_us: u64 = 0;
        let mut net_usage_words: u64 = 0;
        let mut i: usize = 0;
        while i < receipts.len()
            invariant
                i <= receipts@.len() <= u32::MAX,
                all == receipts.deep_view(),
                cpu_usage_us == cpu_total(all, i as nat),
                net_usage_words == net_total(all, i as nat),
                cpu_usage_us <= i * u32::MAX,
                net_usage_words <= i * u32::MAX,
            decreases receipts@.len() - i,
        {
            assert((i + 1) * u32::MAX <= u32::MAX * u32::MAX) by (nonlinear_arith)
                requires
                    i + 1 <= u32::MAX,
            ;
            cpu_usage_us = cpu_usage_us + receipts[i].0 as u64;
            net_usage_words = net_usage_words + receipts[i].1 as u64;
            i = i + 1;
        }
        let trx_count: u32 = receipts.len() as u32;
        Ok(BlockHeader {
            timestamp_slot,
            producer,
            confirmed,
            previous,
            transaction_mroot,
            action_mroot,
            schedule_version,
            producer_signature,
            trx_count,
            cpu_usage_us,
            net_usage_words,
        })
    }
}

// ---------------------------------------------------------------------------
// Laws
// ---------------------------------------------------------------------------

/// Parsing stops at the end of the transaction receipts: whatever bytes stand
/// behind them, a header that can be read is read the same.
pub proof fn law_header_ends_at_the_receipts(data: Seq<u8>, extra: Seq<u8>)
    requires
        get_header(wire::at(data)).1.sound(),
    ensures
        get_header(wire::at(data + extra)).1.sound(),
        get_header(wire::at(data + extra)).0 == get_header(wire::at(data)).0,
{
    broadcast use wire::group_latch;
    broadcast use wire::group_extends;
    broadcast use codec::lemma_list_latch;
    broadcast use codec::lemma_list_extends;
    broadcast use {keys::lemma_public_key_extends, keys::lemma_signature_extends};

    assert(wire::at(data + extra) == wire::extended(wire::at(data), extra));
}

} // verus!
