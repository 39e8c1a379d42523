//! How traces, rows, headers and results are packed, and that they are read
//! back: what a node sends is what is decoded.

use crate::antelope::abi::Extension;
use crate::antelope::codec;
use crate::antelope::codec::Codec;
use crate::antelope::name;
use crate::antelope::name::Name;
use crate::antelope::packing;
use crate::antelope::packing::Packed;
use crate::antelope::wire;
use crate::antelope::wire::Cursor;
use crate::foreign;
use crate::ship::deltas;
use crate::ship::deltas::{
    AccountRowModel, ContractRowModel, TableDelta, TableDeltaModel, TableDeltaRow,
    TableDeltaRowModel, WeightedAccount, WeightedKey, WeightedWait,
};
use crate::ship::header;
use crate::ship::header::{ProducerKey, TransactionReceipt};
use crate::ship::results;
use crate::ship::results::{
    BlockPositionModel, GetBlocksResultModel, GetStatusResultModel, ShipResultModel,
};
use crate::ship::traces;
use crate::ship::traces::{
    AccountDelta, AccountDeltaModel, ActionModel, ActionReceiptModel, ActionTrace,
    ActionTraceModel, AuthSequence, PartialTransactionModel, PermissionLevel,
    PermissionLevelModel, Segment, SignatureText, SkippedBytes, TransactionTrace,
    TransactionTraceModel,
};
use vstd::prelude::*;

verus! {

// ---------------------------------------------------------------------------
// Actions
// ---------------------------------------------------------------------------

impl Packed for PermissionLevel {
    open spec fn bytes(v: PermissionLevelModel) -> Seq<u8> {
        packing::name_bytes(v.actor) + (
            packing::name_bytes(v.permission))
    }

    open spec fn fits(v: PermissionLevelModel) -> bool {
        true
    }

    proof fn reads_back(v: PermissionLevelModel, rest: Seq<u8>) {
        let t1 = packing::name_bytes(v.permission);
        packing::lemma_assoc(packing::name_bytes(v.actor), t1, rest);
        packing::law_u64_reads_back(v.actor.0, t1 + rest);
        packing::law_u64_reads_back(v.permission.0, rest);
    }
}

impl Packed for AccountDelta {
    open spec fn bytes(v: AccountDeltaModel) -> Seq<u8> {
        packing::name_bytes(v.account) + (
            packing::signed_bytes(v.delta as int, 8))
    }

    open spec fn fits(v: AccountDeltaModel) -> bool {
        true
    }

    proof fn reads_back(v: AccountDeltaModel, rest: Seq<u8>) {
        let t1 = packing::signed_bytes(v.delta as int, 8);
        packing::lemma_assoc(packing::name_bytes(v.account), t1, rest);
        packing::law_u64_reads_back(v.account.0, t1 + rest);
        packing::law_i64_reads_back(v.delta, rest);
    }
}

impl Packed for AuthSequence {
    open spec fn bytes(v: (Name, u64)) -> Seq<u8> {
        packing::name_bytes(v.0) + (
            wire::le_bytes(v.1 as nat, 8))
    }

    open spec fn fits(v: (Name, u64)) -> bool {
        true
    }

    proof fn reads_back(v: (Name, u64), rest: Seq<u8>) {
        let t1 = wire::le_bytes(v.1 as nat, 8);
        packing::lemma_assoc(packing::name_bytes(v.0), t1, rest);
        packing::law_u64_reads_back(v.0.0, t1 + rest);
        packing::law_u64_reads_back(v.1, rest);
    }
}

impl Packed for SignatureText {
    open spec fn bytes(v: Seq<char>) -> Seq<u8> {
        packing::signature_bytes(v)
    }

    open spec fn fits(v: Seq<char>) -> bool {
        packing::is_signature_text(v)
    }

    proof fn reads_back(v: Seq<char>, rest: Seq<u8>) {
        packing::law_signature_reads_back(packing::signature_bytes(v), rest);
    }
}

/// An action, packed.
pub open spec fn action_bytes(v: ActionModel) -> Seq<u8> {
    packing::name_bytes(v.account) + (
            packing::name_bytes(v.name) + (
            packing::list_bytes::<PermissionLevel>(v.authorization) + (
            packing::blob_bytes(v.data))))
}

/// Whether it can be packed.
pub open spec fn action_fits(v: ActionModel) -> bool {
    &&& packing::list_fits::<PermissionLevel>(v.authorization)
        &&& v.data.len() <= u32::MAX
}

/// An action that was packed is read back, field by field, and what follows it
/// is untouched.
pub proof fn law_action_reads_back(v: ActionModel, rest: Seq<u8>)
    requires
        action_fits(v),
    ensures
        traces::get_action(wire::at(action_bytes(v) + rest)) == (v, wire::at(rest)),
{
    let t3 = packing::blob_bytes(v.data);
    let t2 = packing::list_bytes::<PermissionLevel>(v.authorization) + t3;
    let t1 = packing::name_bytes(v.name) + t2;
    packing::lemma_assoc(packing::name_bytes(v.account), t1, rest);
    packing::lemma_assoc(packing::name_bytes(v.name), t2, rest);
    packing::lemma_assoc(packing::list_bytes::<PermissionLevel>(v.authorization), t3, rest);
    packing::law_u64_reads_back(v.account.0, t1 + rest);
    packing::law_u64_reads_back(v.name.0, t2 + rest);
    packing::law_list_reads_back::<PermissionLevel>(v.authorization, t3 + rest);
    packing::law_blob_reads_back(v.data, rest);
}

/// A receipt, packed.
pub open spec fn receipt_bytes(v: ActionReceiptModel) -> Seq<u8> {
    packing::varuint_bytes(0) + (
            packing::name_bytes(v.receiver) + (
            packing::digest_bytes(v.act_digest) + (
            wire::le_bytes(v.global_sequence as nat, 8) + (
            wire::le_bytes(v.recv_sequence as nat, 8) + (
            packing::list_bytes::<AuthSequence>(v.auth_sequence) + (
            packing::varuint_bytes(v.code_sequence as nat) + (
            packing::varuint_bytes(v.abi_sequence as nat))))))))
}

/// Whether it can be packed.
pub open spec fn receipt_fits(v: ActionReceiptModel) -> bool {
    &&& packing::is_digest(v.act_digest)
        &&& packing::list_fits::<AuthSequence>(v.auth_sequence)
}

/// A receipt that was packed is read back, field by field, and what follows it
/// is untouched.
#[verifier::rlimit(40)]
pub proof fn law_receipt_reads_back(v: ActionReceiptModel, rest: Seq<u8>)
    requires
        receipt_fits(v),
    ensures
        traces::get_receipt(wire::at(receipt_bytes(v) + rest)) == (v, wire::at(rest)),
{
    let t7 = packing::varuint_bytes(v.abi_sequence as nat);
    let t6 = packing::varuint_bytes(v.code_sequence as nat) + t7;
    let t5 = packing::list_bytes::<AuthSequence>(v.auth_sequence) + t6;
    let t4 = wire::le_bytes(v.recv_sequence as nat, 8) + t5;
    let t3 = wire::le_bytes(v.global_sequence as nat, 8) + t4;
    let t2 = packing::digest_bytes(v.act_digest) + t3;
    let t1 = packing::name_bytes(v.receiver) + t2;
    packing::lemma_assoc(packing::varuint_bytes(0), t1, rest);
    packing::lemma_assoc(packing::name_bytes(v.receiver), t2, rest);
    packing::lemma_assoc(packing::digest_bytes(v.act_digest), t3, rest);
    packing::lemma_assoc(wire::le_bytes(v.global_sequence as nat, 8), t4, rest);
    packing::lemma_assoc(wire::le_bytes(v.recv_sequence as nat, 8), t5, rest);
    packing::lemma_assoc(packing::list_bytes::<AuthSequence>(v.auth_sequence), t6, rest);
    packing::lemma_assoc(packing::varuint_bytes(v.code_sequence as nat), t7, rest);
    packing::law_varuint_reads_back(0, t1 + rest);
    packing::law_u64_reads_back(v.receiver.0, t2 + rest);
    packing::law_digest_text_reads_back(v.act_digest, t3 + rest);
    packing::law_u64_reads_back(v.global_sequence, t4 + rest);
    packing::law_u64_reads_back(v.recv_sequence, t5 + rest);
    packing::law_list_reads_back::<AuthSequence>(v.auth_sequence, t6 + rest);
    packing::law_varuint_reads_back(v.code_sequence, t7 + rest);
    packing::law_varuint_reads_back(v.abi_sequence, rest);
}

/// The second version of an action trace has a return value at its end.
pub open spec fn return_version(v: Option<Seq<u8>>) -> u32 {
    if v is Some {
        1
    } else {
        0
    }
}

pub open spec fn return_bytes(v: Option<Seq<u8>>) -> Seq<u8> {
    match v {
        Some(x) => packing::blob_bytes(x),
        None => seq![],
    }
}

proof fn lemma_return(v: Option<Seq<u8>>, rest: Seq<u8>)
    requires
        v matches Some(x) ==> x.len() <= u32::MAX,
    ensures
        traces::get_return_value(return_version(v), wire::at(return_bytes(v) + rest)) == (
            v,
            wire::at(rest),
        ),
{
    match v {
        Some(x) => packing::law_blob_reads_back(x, rest),
        None => assert(return_bytes(v) + rest == rest),
    }
}

impl Packed for ActionTrace {
    open spec fn bytes(v: ActionTraceModel) -> Seq<u8> {
        packing::varuint_bytes(return_version(v.return_value) as nat) + (
            packing::varuint_bytes(v.action_ordinal as nat) + (
            packing::varuint_bytes(v.creator_action_ordinal as nat) + (
            packing::option_bytes(
            match v.receipt {
                Some(x) => Some(receipt_bytes(x)),
                None => None,
            },
        ) + (
            packing::name_bytes(v.receiver) + (
            action_bytes(v.act) + (
            packing::bool_bytes(v.context_free) + (
            packing::signed_bytes(v.elapsed as int, 8) + (
            packing::string_bytes(v.console) + (
            packing::list_bytes::<AccountDelta>(v.account_ram_deltas) + (
            packing::option_bytes(
            match v.except {
                Some(x) => Some(packing::string_bytes(x)),
                None => None,
            },
        ) + (
            packing::option_bytes(
            match v.error_code {
                Some(x) => Some(wire::le_bytes(x as nat, 8)),
                None => None,
            },
        ) + (
            return_bytes(v.return_value)))))))))))))
    }

    open spec fn fits(v: ActionTraceModel) -> bool {
        &&& (v.receipt matches Some(x) ==> receipt_fits(x))
        &&& action_fits(v.act)
        &&& packing::string_fits(v.console)
        &&& packing::list_fits::<AccountDelta>(v.account_ram_deltas)
        &&& (v.except matches Some(x) ==> packing::string_fits(x))
        &&& (v.return_value matches Some(x) ==> x.len() <= u32::MAX)
    }

    #[verifier::rlimit(40)]
    proof fn reads_back(v: ActionTraceModel, rest: Seq<u8>) {
        let t12 = return_bytes(v.return_value);
        let t11 = packing::option_bytes(
            match v.error_code {
                Some(x) => Some(wire::le_bytes(x as nat, 8)),
                None => None,
            },
        ) + t12;
        let t10 = packing::option_bytes(
            match v.except {
                Some(x) => Some(packing::string_bytes(x)),
                None => None,
            },
        ) + t11;
        let t9 = packing::list_bytes::<AccountDelta>(v.account_ram_deltas) + t10;
        let t8 = packing::string_bytes(v.console) + t9;
        let t7 = packing::signed_bytes(v.elapsed as int, 8) + t8;
        let t6 = packing::bool_bytes(v.context_free) + t7;
        let t5 = action_bytes(v.act) + t6;
        let t4 = packing::name_bytes(v.receiver) + t5;
        let t3 = packing::option_bytes(
            match v.receipt {
                Some(x) => Some(receipt_bytes(x)),
                None => None,
            },
        ) + t4;
        let t2 = packing::varuint_bytes(v.creator_action_ordinal as nat) + t3;
        let t1 = packing::varuint_bytes(v.action_ordinal as nat) + t2;
        packing::lemma_assoc(
            packing::varuint_bytes(return_version(v.return_value) as nat),
            t1,
            rest,
        );
        packing::lemma_assoc(packing::varuint_bytes(v.action_ordinal as nat), t2, rest);
        packing::lemma_assoc(packing::varuint_bytes(v.creator_action_ordinal as nat), t3, rest);
        packing::lemma_assoc(packing::option_bytes(
            match v.receipt {
                Some(x) => Some(receipt_bytes(x)),
                None => None,
            },
        ), t4, rest);
        packing::lemma_assoc(packing::name_bytes(v.receiver), t5, rest);
        packing::lemma_assoc(action_bytes(v.act), t6, rest);
        packing::lemma_assoc(packing::bool_bytes(v.context_free), t7, rest);
        packing::lemma_assoc(packing::signed_bytes(v.elapsed as int, 8), t8, rest);
        packing::lemma_assoc(packing::string_bytes(v.console), t9, rest);
        packing::lemma_assoc(packing::list_bytes::<AccountDelta>(v.account_ram_deltas), t10, rest);
        packing::lemma_assoc(packing::option_bytes(
            match v.except {
                Some(x) => Some(packing::string_bytes(x)),
                None => None,
            },
        ), t11, rest);
        packing::lemma_assoc(packing::option_bytes(
            match v.error_code {
                Some(x) => Some(wire::le_bytes(x as nat, 8)),
                None => None,
            },
        ), t12, rest);
        packing::law_varuint_reads_back(return_version(v.return_value), t1 + rest);
        packing::law_varuint_reads_back(v.action_ordinal, t2 + rest);
        packing::law_varuint_reads_back(v.creator_action_ordinal, t3 + rest);
        if let Some(x) = v.receipt {
            law_receipt_reads_back(x, t4 + rest);
        }
        packing::law_option_reads_back(
            |d: Cursor| traces::get_receipt(d),
            match v.receipt {
                Some(x) => Some(receipt_bytes(x)),
                None => None,
            },
            v.receipt,
            t4 + rest,
        );
        packing::law_u64_reads_back(v.receiver.0, t5 + rest);
        law_action_reads_back(v.act, t6 + rest);
        packing::law_byte_is_truth(0, t7 + rest);
        packing::law_byte_is_truth(1, t7 + rest);
        packing::law_i64_reads_back(v.elapsed, t8 + rest);
        packing::law_string_reads_back(v.console, t9 + rest);
        packing::law_list_reads_back::<AccountDelta>(v.account_ram_deltas, t10 + rest);
        if let Some(x) = v.except {
            packing::law_string_reads_back(x, t11 + rest);
        }
        packing::law_option_reads_back(
            |d: Cursor| wire::get_string(d),
            match v.except {
                Some(x) => Some(packing::string_bytes(x)),
                None => None,
            },
            v.except,
            t11 + rest,
        );
        if let Some(x) = v.error_code {
            packing::law_u64_reads_back(x, t12 + rest);
        }
        packing::law_option_reads_back(
            |d: Cursor| wire::get_u64(d),
            match v.error_code {
                Some(x) => Some(wire::le_bytes(x as nat, 8)),
                None => None,
            },
            v.error_code,
            t12 + rest,
        );
        lemma_return(v.return_value, rest);
    }
}

// ---------------------------------------------------------------------------
// Transactions
// ---------------------------------------------------------------------------

/// Extensions, packed: numbers and byte strings.
pub open spec fn extensions_bytes(exts: Seq<(u16, Seq<u8>)>) -> Seq<u8> {
    packing::varuint_bytes(exts.len()) + packing::joined(
        Seq::new(
            exts.len(),
            |i: int| wire::le_bytes(exts[i].0 as nat, 2) + packing::blob_bytes(exts[i].1),
        ),
    )
}

pub open spec fn extensions_fit(exts: Seq<(u16, Seq<u8>)>) -> bool {
    exts.len() <= u32::MAX && forall|i: int|
        0 <= i < exts.len() ==> (#[trigger] exts[i]).1.len() <= u32::MAX
}

proof fn lemma_extensions(exts: Seq<(u16, Seq<u8>)>, rest: Seq<u8>)
    requires
        extensions_fit(exts),
    ensures
        codec::list_of::<Extension>(wire::at(extensions_bytes(exts) + rest)).1 == wire::at(rest),
{
    let pieces = Seq::new(
        exts.len(),
        |i: int| wire::le_bytes(exts[i].0 as nat, 2) + packing::blob_bytes(exts[i].1),
    );
    let vs = Seq::new(exts.len(), |i: int| ());
    assert forall|i: int, after: Seq<u8>| 0 <= i < vs.len() implies #[trigger] Extension::get(
        wire::at(pieces[i] + after),
    ) == (vs[i], wire::at(after)) by {
        let tail = packing::blob_bytes(exts[i].1) + after;
        assert(pieces[i] + after == wire::le_bytes(exts[i].0 as nat, 2) + tail);
        packing::law_u16_reads_back(exts[i].0, tail);
        packing::law_blob_reads_back(exts[i].1, after);
    }
    packing::law_pieces_make_a_list_of::<Extension>(pieces, vs, rest);
}

/// Byte strings, packed.
pub open spec fn blobs_bytes(blobs: Seq<Seq<u8>>) -> Seq<u8> {
    packing::varuint_bytes(blobs.len()) + packing::joined(
        Seq::new(blobs.len(), |i: int| packing::blob_bytes(blobs[i])),
    )
}

pub open spec fn blobs_fit(blobs: Seq<Seq<u8>>) -> bool {
    blobs.len() <= u32::MAX && forall|i: int|
        0 <= i < blobs.len() ==> (#[trigger] blobs[i]).len() <= u32::MAX
}

proof fn lemma_blobs(blobs: Seq<Seq<u8>>, rest: Seq<u8>)
    requires
        blobs_fit(blobs),
    ensures
        codec::list_of::<SkippedBytes>(wire::at(blobs_bytes(blobs) + rest)).1 == wire::at(rest),
{
    let pieces = Seq::new(blobs.len(), |i: int| packing::blob_bytes(blobs[i]));
    let vs = Seq::new(blobs.len(), |i: int| ());
    assert forall|i: int, after: Seq<u8>| 0 <= i < vs.len() implies #[trigger] SkippedBytes::get(
        wire::at(pieces[i] + after),
    ) == (vs[i], wire::at(after)) by {
        packing::law_blob_reads_back(blobs[i], after);
    }
    packing::law_pieces_make_a_list_of::<SkippedBytes>(pieces, vs, rest);
}

/// Segments of context-free data, packed: digests and byte strings.
pub open spec fn segments_bytes(segments: Seq<(bool, Seq<u8>)>) -> Seq<u8> {
    packing::varuint_bytes(segments.len()) + packing::joined(
        Seq::new(
            segments.len(),
            |i: int|
                if segments[i].0 {
                    packing::varuint_bytes(0) + segments[i].1
                } else {
                    packing::varuint_bytes(1) + packing::blob_bytes(segments[i].1)
                },
        ),
    )
}

pub open spec fn segments_fit(segments: Seq<(bool, Seq<u8>)>) -> bool {
    segments.len() <= u32::MAX && forall|i: int|
        0 <= i < segments.len() ==> if (#[trigger] segments[i]).0 {
            segments[i].1.len() == 32
        } else {
            segments[i].1.len() <= u32::MAX
        }
}

proof fn lemma_segments(segments: Seq<(bool, Seq<u8>)>, rest: Seq<u8>)
    requires
        segments_fit(segments),
    ensures
        codec::list_of::<Segment>(wire::at(segments_bytes(segments) + rest)).1 == wire::at(rest),
{
    let pieces = Seq::new(
        segments.len(),
        |i: int|
            if segments[i].0 {
                packing::varuint_bytes(0) + segments[i].1
            } else {
                packing::varuint_bytes(1) + packing::blob_bytes(segments[i].1)
            },
    );
    let vs = Seq::new(segments.len(), |i: int| ());
    assert forall|i: int, after: Seq<u8>| 0 <= i < vs.len() implies #[trigger] Segment::get(
        wire::at(pieces[i] + after),
    ) == (vs[i], wire::at(after)) by {
        let data = segments[i].1;
        if segments[i].0 {
            assert(pieces[i] + after == packing::varuint_bytes(0) + (data + after));
            packing::law_varuint_reads_back(0, data + after);
            packing::law_exact_reads_back(data, after);
        } else {
            let tail = packing::blob_bytes(data) + after;
            assert(pieces[i] + after == packing::varuint_bytes(1) + tail);
            packing::law_varuint_reads_back(1, tail);
            packing::law_blob_reads_back(data, after);
        }
    }
    packing::law_pieces_make_a_list_of::<Segment>(pieces, vs, rest);
}

/// What stands behind the header of a transaction, in each of its versions.
pub enum Pruning {
    /// The first version: signatures and context-free data.
    Whole(Seq<Seq<u8>>),
    /// The second version, with nothing.
    Absent,
    /// With signatures and compressed context-free data.
    Compressed(Seq<u8>),
    /// With a digest in place of everything.
    Pruned(Seq<u8>),
    /// With signatures and some of the context-free data.
    Segmented(Seq<(bool, Seq<u8>)>),
    /// With signatures and all context-free data.
    Unpruned(Seq<Seq<u8>>),
}

/// The version of a transaction.
pub open spec fn version_of(pruning: Pruning) -> nat {
    if pruning is Whole {
        0
    } else {
        1
    }
}

/// What stands behind the header of a transaction, packed.
pub open spec fn tail_bytes(signatures: Seq<Seq<char>>, pruning: Pruning) -> Seq<u8> {
    let signed = packing::list_bytes::<SignatureText>(signatures);
    match pruning {
        Pruning::Whole(data) => signed + blobs_bytes(data),
        Pruning::Absent => seq![0u8],
        Pruning::Compressed(data) => seq![1u8] + packing::varuint_bytes(0) + signed
            + packing::blob_bytes(data),
        Pruning::Pruned(digest) => seq![1u8] + packing::varuint_bytes(1) + digest,
        Pruning::Segmented(segments) => seq![1u8] + packing::varuint_bytes(2) + signed
            + segments_bytes(segments),
        Pruning::Unpruned(data) => seq![1u8] + packing::varuint_bytes(3) + signed + blobs_bytes(
            data,
        ),
    }
}

pub open spec fn tail_fits(signatures: Seq<Seq<char>>, pruning: Pruning) -> bool {
    match pruning {
        Pruning::Absent => signatures.len() == 0,
        Pruning::Pruned(digest) => signatures.len() == 0 && digest.len() == 32,
        Pruning::Whole(data) => packing::list_fits::<SignatureText>(signatures) && blobs_fit(
            data,
        ),
        Pruning::Compressed(data) => packing::list_fits::<SignatureText>(signatures)
            && data.len() <= u32::MAX,
        Pruning::Segmented(segments) => packing::list_fits::<SignatureText>(signatures)
            && segments_fit(segments),
        Pruning::Unpruned(data) => packing::list_fits::<SignatureText>(signatures) && blobs_fit(
            data,
        ),
    }
}

/// The signatures of a transaction are read back, whatever else is kept or
/// pruned.
pub proof fn law_signatures_read_back(
    signatures: Seq<Seq<char>>,
    pruning: Pruning,
    rest: Seq<u8>,
)
    requires
        tail_fits(signatures, pruning),
    ensures
        traces::get_signatures(
            version_of(pruning) as u32,
            wire::at(tail_bytes(signatures, pruning) + rest),
        ) == (signatures, wire::at(rest)),
{
    let signed = packing::list_bytes::<SignatureText>(signatures);
    let all = tail_bytes(signatures, pruning) + rest;
    match pruning {
        Pruning::Whole(data) => {
            assert(all == signed + (blobs_bytes(data) + rest));
            packing::law_list_reads_back::<SignatureText>(signatures, blobs_bytes(data) + rest);
            lemma_blobs(data, rest);
        },
        Pruning::Absent => {
            packing::law_byte_is_truth(0, rest);
            assert(signatures == Seq::<Seq<char>>::empty());
        },
        Pruning::Compressed(data) => {
            let r3 = packing::blob_bytes(data) + rest;
            let r2 = signed + r3;
            let r1 = packing::varuint_bytes(0) + r2;
            assert(all == seq![1u8] + r1);
            packing::law_byte_is_truth(1, r1);
            packing::law_varuint_reads_back(0, r2);
            packing::law_list_reads_back::<SignatureText>(signatures, r3);
            packing::law_blob_reads_back(data, rest);
        },
        Pruning::Pruned(digest) => {
            let r2 = digest + rest;
            let r1 = packing::varuint_bytes(1) + r2;
            assert(all == seq![1u8] + r1);
            packing::law_byte_is_truth(1, r1);
            packing::law_varuint_reads_back(1, r2);
            packing::law_exact_reads_back(digest, rest);
            assert(signatures == Seq::<Seq<char>>::empty());
        },
        Pruning::Segmented(segments) => {
            let r3 = segments_bytes(segments) + rest;
            let r2 = signed + r3;
            let r1 = packing::varuint_bytes(2) + r2;
            assert(all == seq![1u8] + r1);
            packing::law_byte_is_truth(1, r1);
            packing::law_varuint_reads_back(2, r2);
            packing::law_list_reads_back::<SignatureText>(signatures, r3);
            lemma_segments(segments, rest);
        },
        Pruning::Unpruned(data) => {
            let r3 = blobs_bytes(data) + rest;
            let r2 = signed + r3;
            let r1 = packing::varuint_bytes(3) + r2;
            assert(all == seq![1u8] + r1);
            packing::law_byte_is_truth(1, r1);
            packing::law_varuint_reads_back(3, r2);
            packing::law_list_reads_back::<SignatureText>(signatures, r3);
            lemma_blobs(data, rest);
        },
    }
}

/// A transaction, packed.
pub open spec fn partial_bytes(
    v: PartialTransactionModel,
    exts: Seq<(u16, Seq<u8>)>,
    pruning: Pruning,
) -> Seq<u8> {
    packing::varuint_bytes(version_of(pruning)) + (
            wire::le_bytes(v.expiration as nat, 4) + (
            wire::le_bytes(v.ref_block_num as nat, 2) + (
            wire::le_bytes(v.ref_block_prefix as nat, 4) + (
            packing::varuint_bytes(v.max_net_usage_words as nat) + (
            wire::le_bytes(v.max_cpu_usage_ms as nat, 1) + (
            packing::varuint_bytes(v.delay_sec as nat) + (
            extensions_bytes(exts) + (
            tail_bytes(v.signatures, pruning)))))))))
}

/// A transaction is read back, in each of its versions and whatever extensions
/// it has.
#[verifier::rlimit(40)]
pub proof fn law_partial_reads_back(
    v: PartialTransactionModel,
    exts: Seq<(u16, Seq<u8>)>,
    pruning: Pruning,
    rest: Seq<u8>,
)
    requires
        extensions_fit(exts),
        tail_fits(v.signatures, pruning),
    ensures
        traces::get_partial(wire::at(partial_bytes(v, exts, pruning) + rest)) == (
            v,
            wire::at(rest),
        ),
{
    let t8 = tail_bytes(v.signatures, pruning);
    let t7 = extensions_bytes(exts) + t8;
    let t6 = packing::varuint_bytes(v.delay_sec as nat) + t7;
    let t5 = wire::le_bytes(v.max_cpu_usage_ms as nat, 1) + t6;
    let t4 = packing::varuint_bytes(v.max_net_usage_words as nat) + t5;
    let t3 = wire::le_bytes(v.ref_block_prefix as nat, 4) + t4;
    let t2 = wire::le_bytes(v.ref_block_num as nat, 2) + t3;
    let t1 = wire::le_bytes(v.expiration as nat, 4) + t2;
    packing::lemma_assoc(packing::varuint_bytes(version_of(pruning)), t1, rest);
    packing::lemma_assoc(wire::le_bytes(v.expiration as nat, 4), t2, rest);
    packing::lemma_assoc(wire::le_bytes(v.ref_block_num as nat, 2), t3, rest);
    packing::lemma_assoc(wire::le_bytes(v.ref_block_prefix as nat, 4), t4, rest);
    packing::lemma_assoc(packing::varuint_bytes(v.max_net_usage_words as nat), t5, rest);
    packing::lemma_assoc(wire::le_bytes(v.max_cpu_usage_ms as nat, 1), t6, rest);
    packing::lemma_assoc(packing::varuint_bytes(v.delay_sec as nat), t7, rest);
    packing::lemma_assoc(extensions_bytes(exts), t8, rest);
    packing::law_varuint_reads_back(version_of(pruning) as u32, t1 + rest);
    packing::law_u32_reads_back(v.expiration, t2 + rest);
    packing::law_u16_reads_back(v.ref_block_num, t3 + rest);
    packing::law_u32_reads_back(v.ref_block_prefix, t4 + rest);
    packing::law_varuint_reads_back(v.max_net_usage_words, t5 + rest);
    packing::law_u8_reads_back(v.max_cpu_usage_ms, t6 + rest);
    packing::law_varuint_reads_back(v.delay_sec, t7 + rest);
    lemma_extensions(exts, t8 + rest);
    law_signatures_read_back(v.signatures, pruning, rest);
}

/// A transaction of the first version without extensions or context-free data,
/// packed.
pub open spec fn plain_partial_bytes(v: PartialTransactionModel) -> Seq<u8> {
    partial_bytes(v, seq![], Pruning::Whole(seq![]))
}

pub open spec fn plain_partial_fits(v: PartialTransactionModel) -> bool {
    packing::list_fits::<SignatureText>(v.signatures)
}

proof fn lemma_plain_partial_reads_back(v: PartialTransactionModel, rest: Seq<u8>)
    requires
        plain_partial_fits(v),
    ensures
        traces::get_partial(wire::at(plain_partial_bytes(v) + rest)) == (v, wire::at(rest)),
{
    law_partial_reads_back(v, seq![], Pruning::Whole(seq![]), rest);
}

/// A trace up to what is nested in it, packed.
#[verifier::opaque]
pub open spec fn start_bytes(v: TransactionTraceModel) -> Seq<u8> {
    packing::varuint_bytes(0) + (
            packing::digest_bytes(v.id) + (
            wire::le_bytes(v.status as nat, 1) + (
            wire::le_bytes(v.cpu_usage_us as nat, 4) + (
            packing::varuint_bytes(v.net_usage_words as nat) + (
            packing::signed_bytes(v.elapsed as int, 8) + (
            wire::le_bytes(v.net_usage as nat, 8) + (
            packing::bool_bytes(v.scheduled) + (
            packing::list_bytes::<ActionTrace>(v.action_traces) + (
            packing::option_bytes(
            match v.account_ram_delta {
                Some(x) => Some(<AccountDelta as Packed>::bytes(x)),
                None => None,
            },
        ) + (
            packing::option_bytes(
            match v.except {
                Some(x) => Some(packing::string_bytes(x)),
                None => None,
            },
        ) + (
            packing::option_bytes(
            match v.error_code {
                Some(x) => Some(wire::le_bytes(x as nat, 8)),
                None => None,
            },
        ))))))))))))
}

pub open spec fn start_fits(v: TransactionTraceModel) -> bool {
    &&& packing::is_digest(v.id)
    &&& packing::list_fits::<ActionTrace>(v.action_traces)
    &&& (v.account_ram_delta matches Some(x) ==> <AccountDelta as Packed>::fits(x))
    &&& (v.except matches Some(x) ==> packing::string_fits(x))
}

#[verifier::rlimit(40)]
proof fn lemma_start(v: TransactionTraceModel, rest: Seq<u8>)
    requires
        start_fits(v),
    ensures
        start_bytes(v).len() > 0,
        ({
            let (start, c) = traces::get_trace_start(wire::at(start_bytes(v) + rest));
            &&& c == wire::at(rest)
            &&& start.id == v.id
            &&& start.status == v.status
            &&& start.cpu_usage_us == v.cpu_usage_us
            &&& start.net_usage_words == v.net_usage_words
            &&& start.elapsed == v.elapsed
            &&& start.net_usage == v.net_usage
            &&& start.scheduled == v.scheduled
            &&& start.action_traces == v.action_traces
            &&& start.account_ram_delta == v.account_ram_delta
            &&& start.except == v.except
            &&& start.error_code == v.error_code
        }),
{
    reveal(start_bytes);
    assert(packing::varuint_bytes(0).len() == 1);
    let t11 = packing::option_bytes(
            match v.error_code {
                Some(x) => Some(wire::le_bytes(x as nat, 8)),
                None => None,
            },
        );
    let t10 = packing::option_bytes(
            match v.except {
                Some(x) => Some(packing::string_bytes(x)),
                None => None,
            },
        ) + t11;
    let t9 = packing::option_bytes(
            match v.account_ram_delta {
                Some(x) => Some(<AccountDelta as Packed>::bytes(x)),
                None => None,
            },
        ) + t10;
    let t8 = packing::list_bytes::<ActionTrace>(v.action_traces) + t9;
    let t7 = packing::bool_bytes(v.scheduled) + t8;
    let t6 = wire::le_bytes(v.net_usage as nat, 8) + t7;
    let t5 = packing::signed_bytes(v.elapsed as int, 8) + t6;
    let t4 = packing::varuint_bytes(v.net_usage_words as nat) + t5;
    let t3 = wire::le_bytes(v.cpu_usage_us as nat, 4) + t4;
    let t2 = wire::le_bytes(v.status as nat, 1) + t3;
    let t1 = packing::digest_bytes(v.id) + t2;
    packing::lemma_assoc(packing::varuint_bytes(0), t1, rest);
    packing::lemma_assoc(packing::digest_bytes(v.id), t2, rest);
    packing::lemma_assoc(wire::le_bytes(v.status as nat, 1), t3, rest);
    packing::lemma_assoc(wire::le_bytes(v.cpu_usage_us as nat, 4), t4, rest);
    packing::lemma_assoc(packing::varuint_bytes(v.net_usage_words as nat), t5, rest);
    packing::lemma_assoc(packing::signed_bytes(v.elapsed as int, 8), t6, rest);
    packing::lemma_assoc(wire::le_bytes(v.net_usage as nat, 8), t7, rest);
    packing::lemma_assoc(packing::bool_bytes(v.scheduled), t8, rest);
    packing::lemma_assoc(packing::list_bytes::<ActionTrace>(v.action_traces), t9, rest);
    packing::lemma_assoc(packing::option_bytes(
            match v.account_ram_delta {
                Some(x) => Some(<AccountDelta as Packed>::bytes(x)),
                None => None,
            },
        ), t10, rest);
    packing::lemma_assoc(packing::option_bytes(
            match v.except {
                Some(x) => Some(packing::string_bytes(x)),
                None => None,
            },
        ), t11, rest);
    packing::law_varuint_reads_back(0, t1 + rest);
    packing::law_digest_text_reads_back(v.id, t2 + rest);
    packing::law_u8_reads_back(v.status, t3 + rest);
    packing::law_u32_reads_back(v.cpu_usage_us, t4 + rest);
    packing::law_varuint_reads_back(v.net_usage_words, t5 + rest);
    packing::law_i64_reads_back(v.elapsed, t6 + rest);
    packing::law_u64_reads_back(v.net_usage, t7 + rest);
    packing::law_byte_is_truth(0, t8 + rest);
    packing::law_byte_is_truth(1, t8 + rest);
    packing::law_list_reads_back::<ActionTrace>(v.action_traces, t9 + rest);
    if let Some(x) = v.account_ram_delta {
        <AccountDelta as Packed>::reads_back(x, t10 + rest);
    }
    packing::law_option_reads_back(
            |d: Cursor| AccountDelta::get(d),
            match v.account_ram_delta {
                Some(x) => Some(<AccountDelta as Packed>::bytes(x)),
                None => None,
            },
            v.account_ram_delta,
            t10 + rest,
        );
    if let Some(x) = v.except {
        packing::law_string_reads_back(x, t11 + rest);
    }
    packing::law_option_reads_back(
            |d: Cursor| wire::get_string(d),
            match v.except {
                Some(x) => Some(packing::string_bytes(x)),
                None => None,
            },
            v.except,
            t11 + rest,
        );
    if let Some(x) = v.error_code {
        packing::law_u64_reads_back(x, rest);
    }
    packing::law_option_reads_back(
            |d: Cursor| wire::get_u64(d),
            match v.error_code {
                Some(x) => Some(wire::le_bytes(x as nat, 8)),
                None => None,
            },
            v.error_code,
            rest,
        );
}

/// A trace, packed. That of a failed deferred transaction stands inside it.
pub open spec fn trace_bytes(v: TransactionTraceModel) -> Seq<u8>
    decreases v,
{
    start_bytes(v) + packing::option_bytes(
        match v.failed_dtrx_trace {
            Some(t) => Some(trace_bytes(*t)),
            None => None,
        },
    ) + packing::option_bytes(
        match v.partial {
            Some(p) => Some(plain_partial_bytes(p)),
            None => None,
        },
    )
}

pub open spec fn trace_fits(v: TransactionTraceModel) -> bool
    decreases v,
{
    &&& start_fits(v)
    &&& match v.failed_dtrx_trace {
        Some(t) => trace_fits(*t),
        None => true,
    }
    &&& match v.partial {
        Some(p) => plain_partial_fits(p),
        None => true,
    }
}

/// A transaction trace that was packed is read back, field by field and with
/// all that is nested in it, and what follows it is untouched.
#[verifier::spinoff_prover]
#[verifier::rlimit(60)]
pub proof fn law_trace_reads_back(v: TransactionTraceModel, rest: Seq<u8>)
    requires
        trace_fits(v),
    ensures
        traces::get_trace(wire::at(trace_bytes(v) + rest)) == (v, wire::at(rest)),
    decreases v,
{
    let partial = match v.partial {
        Some(p) => Some(plain_partial_bytes(p)),
        None => None,
    };
    let r3 = packing::option_bytes(partial) + rest;
    if let Some(p) = v.partial {
        lemma_plain_partial_reads_back(p, rest);
    }
    packing::law_option_reads_back(|d: Cursor| traces::get_partial(d), partial, v.partial, rest);
    match v.failed_dtrx_trace {
        Some(t) => {
            let r2 = trace_bytes(*t) + r3;
            let r1 = seq![1u8] + r2;
            assert(trace_bytes(v) + rest == start_bytes(v) + r1);
            lemma_start(v, r1);
            packing::law_byte_is_truth(1, r2);
            law_trace_reads_back(*t, r3);
            assert(v.failed_dtrx_trace == Some(Box::new(*t)));
        },
        None => {
            let r1 = seq![0u8] + r3;
            assert(trace_bytes(v) + rest == start_bytes(v) + r1);
            lemma_start(v, r1);
            packing::law_byte_is_truth(0, r3);
        },
    }
}

impl Packed for TransactionTrace {
    open spec fn bytes(v: TransactionTraceModel) -> Seq<u8> {
        trace_bytes(v)
    }

    open spec fn fits(v: TransactionTraceModel) -> bool {
        trace_fits(v)
    }

    proof fn reads_back(v: TransactionTraceModel, rest: Seq<u8>) {
        law_trace_reads_back(v, rest);
    }
}

/// The traces of a block are read back, all of them and in their order.
pub proof fn law_traces_payload_reads_back(all: Seq<TransactionTraceModel>, rest: Seq<u8>)
    requires
        packing::list_fits::<TransactionTrace>(all),
    ensures
        codec::list_of::<TransactionTrace>(
            wire::at(packing::list_bytes::<TransactionTrace>(all) + rest),
        ) == (all, wire::at(rest)),
{
    packing::law_list_reads_back::<TransactionTrace>(all, rest);
}

// ---------------------------------------------------------------------------
// Rows
// ---------------------------------------------------------------------------

impl Packed for TableDeltaRow {
    open spec fn bytes(v: TableDeltaRowModel) -> Seq<u8> {
        packing::bool_bytes(v.present) + (
            packing::blob_bytes(v.data))
    }

    open spec fn fits(v: TableDeltaRowModel) -> bool {
        v.data.len() <= u32::MAX
    }

    proof fn reads_back(v: TableDeltaRowModel, rest: Seq<u8>) {
        let t1 = packing::blob_bytes(v.data);
        packing::lemma_assoc(packing::bool_bytes(v.present), t1, rest);
        packing::law_byte_is_truth(0, t1 + rest);
        packing::law_byte_is_truth(1, t1 + rest);
        packing::law_blob_reads_back(v.data, rest);
    }
}

impl Packed for TableDelta {
    open spec fn bytes(v: TableDeltaModel) -> Seq<u8> {
        packing::varuint_bytes(0) + (
            packing::string_bytes(v.name) + (
            packing::list_bytes::<TableDeltaRow>(v.rows)))
    }

    open spec fn fits(v: TableDeltaModel) -> bool {
        &&& packing::string_fits(v.name)
        &&& packing::list_fits::<TableDeltaRow>(v.rows)
    }

    proof fn reads_back(v: TableDeltaModel, rest: Seq<u8>) {
        let t2 = packing::list_bytes::<TableDeltaRow>(v.rows);
        let t1 = packing::string_bytes(v.name) + t2;
        packing::lemma_assoc(packing::varuint_bytes(0), t1, rest);
        packing::lemma_assoc(packing::string_bytes(v.name), t2, rest);
        packing::law_varuint_reads_back(0, t1 + rest);
        packing::law_string_reads_back(v.name, t2 + rest);
        packing::law_list_reads_back::<TableDeltaRow>(v.rows, rest);
    }
}

/// The deltas of a block are read back, all of them and in their order.
pub proof fn law_deltas_payload_reads_back(all: Seq<TableDeltaModel>, rest: Seq<u8>)
    requires
        packing::list_fits::<TableDelta>(all),
    ensures
        codec::list_of::<TableDelta>(
            wire::at(packing::list_bytes::<TableDelta>(all) + rest),
        ) == (all, wire::at(rest)),
{
    packing::law_list_reads_back::<TableDelta>(all, rest);
}

/// A contract row, packed.
pub open spec fn contract_row_bytes(v: ContractRowModel) -> Seq<u8> {
    packing::varuint_bytes(0) + (
            packing::name_bytes(v.code) + (
            packing::name_bytes(v.scope) + (
            packing::name_bytes(v.table) + (
            wire::le_bytes(v.primary_key as nat, 8) + (
            packing::name_bytes(v.payer) + (
            packing::blob_bytes(v.value)))))))
}

/// Whether it can be packed.
pub open spec fn contract_row_fits(v: ContractRowModel) -> bool {
    v.value.len() <= u32::MAX
}

/// A contract row that was packed is read back, field by field, and what follows it
/// is untouched.
pub proof fn law_contract_row_reads_back(v: ContractRowModel, rest: Seq<u8>)
    requires
        contract_row_fits(v),
    ensures
        deltas::get_contract_row(wire::at(contract_row_bytes(v) + rest)) == (v, wire::at(rest)),
{
    let t6 = packing::blob_bytes(v.value);
    let t5 = packing::name_bytes(v.payer) + t6;
    let t4 = wire::le_bytes(v.primary_key as nat, 8) + t5;
    let t3 = packing::name_bytes(v.table) + t4;
    let t2 = packing::name_bytes(v.scope) + t3;
    let t1 = packing::name_bytes(v.code) + t2;
    packing::lemma_assoc(packing::varuint_bytes(0), t1, rest);
    packing::lemma_assoc(packing::name_bytes(v.code), t2, rest);
    packing::lemma_assoc(packing::name_bytes(v.scope), t3, rest);
    packing::lemma_assoc(packing::name_bytes(v.table), t4, rest);
    packing::lemma_assoc(wire::le_bytes(v.primary_key as nat, 8), t5, rest);
    packing::lemma_assoc(packing::name_bytes(v.payer), t6, rest);
    packing::law_varuint_reads_back(0, t1 + rest);
    packing::law_u64_reads_back(v.code.0, t2 + rest);
    packing::law_u64_reads_back(v.scope.0, t3 + rest);
    packing::law_u64_reads_back(v.table.0, t4 + rest);
    packing::law_u64_reads_back(v.primary_key, t5 + rest);
    packing::law_u64_reads_back(v.payer.0, t6 + rest);
    packing::law_blob_reads_back(v.value, rest);
}

/// An account row, packed.
pub open spec fn account_row_bytes(v: AccountRowModel) -> Seq<u8> {
    packing::varuint_bytes(0) + (
            packing::name_bytes(v.name) + (
            wire::le_bytes(v.creation_date_slot as nat, 4) + (
            packing::blob_bytes(v.abi))))
}

/// Whether it can be packed.
pub open spec fn account_row_fits(v: AccountRowModel) -> bool {
    v.abi.len() <= u32::MAX
}

/// An account row that was packed is read back, field by field, and what follows it
/// is untouched.
pub proof fn law_account_row_reads_back(v: AccountRowModel, rest: Seq<u8>)
    requires
        account_row_fits(v),
    ensures
        deltas::get_account_row(wire::at(account_row_bytes(v) + rest)) == (v, wire::at(rest)),
{
    let t3 = packing::blob_bytes(v.abi);
    let t2 = wire::le_bytes(v.creation_date_slot as nat, 4) + t3;
    let t1 = packing::name_bytes(v.name) + t2;
    packing::lemma_assoc(packing::varuint_bytes(0), t1, rest);
    packing::lemma_assoc(packing::name_bytes(v.name), t2, rest);
    packing::lemma_assoc(wire::le_bytes(v.creation_date_slot as nat, 4), t3, rest);
    packing::law_varuint_reads_back(0, t1 + rest);
    packing::law_u64_reads_back(v.name.0, t2 + rest);
    packing::law_u32_reads_back(v.creation_date_slot, t3 + rest);
    packing::law_blob_reads_back(v.abi, rest);
}

/// A permission row as it is sent: keys and controlling accounts with their
/// weights, and delays.
pub struct SentPermission {
    pub owner: Name,
    pub name: Name,
    pub parent: Name,
    pub last_updated: i64,
    pub threshold: u32,
    pub keys: Seq<(Seq<u8>, u16)>,
    pub accounts: Seq<(Name, Name, u16)>,
    pub waits: Seq<(u32, u16)>,
}

/// A permission row, packed.
pub open spec fn permission_row_bytes(v: SentPermission) -> Seq<u8> {
    packing::varuint_bytes(0) + (
            packing::name_bytes(v.owner) + (
            packing::name_bytes(v.name) + (
            packing::name_bytes(v.parent) + (
            packing::signed_bytes(v.last_updated as int, 8) + (
            wire::le_bytes(v.threshold as nat, 4) + (
            (packing::varuint_bytes(v.keys.len()) + packing::joined(key_pieces(v.keys))) + (
            (packing::varuint_bytes(v.accounts.len()) + packing::joined(account_pieces(v.accounts))) + (
            (packing::varuint_bytes(v.waits.len()) + packing::joined(wait_pieces(v.waits)))))))))))
}

pub open spec fn key_pieces(keys: Seq<(Seq<u8>, u16)>) -> Seq<Seq<u8>> {
    Seq::new(keys.len(), |i: int| keys[i].0 + wire::le_bytes(keys[i].1 as nat, 2))
}

pub open spec fn account_pieces(accounts: Seq<(Name, Name, u16)>) -> Seq<Seq<u8>> {
    Seq::new(
        accounts.len(),
        |i: int|
            packing::name_bytes(accounts[i].0) + packing::name_bytes(accounts[i].1)
                + wire::le_bytes(accounts[i].2 as nat, 2),
    )
}

pub open spec fn wait_pieces(waits: Seq<(u32, u16)>) -> Seq<Seq<u8>> {
    Seq::new(
        waits.len(),
        |i: int| wire::le_bytes(waits[i].0 as nat, 4) + wire::le_bytes(waits[i].1 as nat, 2),
    )
}

pub open spec fn permission_row_fits(v: SentPermission) -> bool {
    &&& v.keys.len() <= u32::MAX && v.accounts.len() <= u32::MAX && v.waits.len() <= u32::MAX
    &&& forall|i: int| 0 <= i < v.keys.len() ==> packing::is_key((#[trigger] v.keys[i]).0)
}

/// A permission row is read back: its keys as their texts, its controlling
/// accounts as `actor@permission`, each list in its order.
#[verifier::rlimit(40)]
pub proof fn law_permission_row_reads_back(v: SentPermission, rest: Seq<u8>)
    requires
        permission_row_fits(v),
    ensures
        ({
            let (row, c) = deltas::get_permission_row(
                wire::at(permission_row_bytes(v) + rest),
            );
            &&& c == wire::at(rest)
            &&& row.owner == v.owner
            &&& row.name == v.name
            &&& row.parent == v.parent
            &&& row.last_updated == v.last_updated
            &&& row.threshold == v.threshold
            &&& row.keys.len() == v.keys.len()
            &&& forall|i: int|
                0 <= i < v.keys.len() ==> #[trigger] row.keys[i] == packing::key_form(
                    seq!['P', 'U', 'B', '_'],
                    v.keys[i].0,
                )
            &&& row.accounts.len() == v.accounts.len()
            &&& forall|i: int|
                0 <= i < v.accounts.len() ==> #[trigger] row.accounts[i] == name::name_text(
                    v.accounts[i].0.0,
                ) + seq!['@'] + name::name_text(v.accounts[i].1.0)
        }),
{
    let keys = Seq::new(
        v.keys.len(),
        |i: int| packing::key_form(seq!['P', 'U', 'B', '_'], v.keys[i].0),
    );
    let kp = key_pieces(v.keys);
    assert forall|i: int, after: Seq<u8>| 0 <= i < keys.len() implies #[trigger] WeightedKey::get(
        wire::at(kp[i] + after),
    ) == (keys[i], wire::at(after)) by {
        let weight = wire::le_bytes(v.keys[i].1 as nat, 2) + after;
        assert(kp[i] + after == v.keys[i].0 + weight);
        packing::law_key_reads_back(v.keys[i].0, weight);
        packing::law_u16_reads_back(v.keys[i].1, after);
    }
    let accounts = Seq::new(
        v.accounts.len(),
        |i: int|
            name::name_text(v.accounts[i].0.0) + seq!['@'] + name::name_text(v.accounts[i].1.0),
    );
    let ap = account_pieces(v.accounts);
    assert forall|i: int, after: Seq<u8>|
        0 <= i < accounts.len() implies #[trigger] WeightedAccount::get(
        wire::at(ap[i] + after),
    ) == (accounts[i], wire::at(after)) by {
        let weight = wire::le_bytes(v.accounts[i].2 as nat, 2) + after;
        let second = packing::name_bytes(v.accounts[i].1) + weight;
        assert(ap[i] + after == packing::name_bytes(v.accounts[i].0) + second);
        packing::law_u64_reads_back(v.accounts[i].0.0, second);
        packing::law_u64_reads_back(v.accounts[i].1.0, weight);
        packing::law_u16_reads_back(v.accounts[i].2, after);
    }
    let waits = Seq::new(v.waits.len(), |i: int| ());
    let wp = wait_pieces(v.waits);
    assert forall|i: int, after: Seq<u8>| 0 <= i < waits.len() implies #[trigger] WeightedWait::get(
        wire::at(wp[i] + after),
    ) == (waits[i], wire::at(after)) by {
        let weight = wire::le_bytes(v.waits[i].1 as nat, 2) + after;
        assert(wp[i] + after == wire::le_bytes(v.waits[i].0 as nat, 4) + weight);
        packing::law_u32_reads_back(v.waits[i].0, weight);
        packing::law_u16_reads_back(v.waits[i].1, after);
    }
    let t8 = (packing::varuint_bytes(v.waits.len()) + packing::joined(wait_pieces(v.waits)));
    let t7 = (packing::varuint_bytes(v.accounts.len()) + packing::joined(
        account_pieces(v.accounts),
    )) + t8;
    let t6 = (packing::varuint_bytes(v.keys.len()) + packing::joined(key_pieces(v.keys))) + t7;
    let t5 = wire::le_bytes(v.threshold as nat, 4) + t6;
    let t4 = packing::signed_bytes(v.last_updated as int, 8) + t5;
    let t3 = packing::name_bytes(v.parent) + t4;
    let t2 = packing::name_bytes(v.name) + t3;
    let t1 = packing::name_bytes(v.owner) + t2;
    packing::lemma_assoc(packing::varuint_bytes(0), t1, rest);
    packing::lemma_assoc(packing::name_bytes(v.owner), t2, rest);
    packing::lemma_assoc(packing::name_bytes(v.name), t3, rest);
    packing::lemma_assoc(packing::name_bytes(v.parent), t4, rest);
    packing::lemma_assoc(packing::signed_bytes(v.last_updated as int, 8), t5, rest);
    packing::lemma_assoc(wire::le_bytes(v.threshold as nat, 4), t6, rest);
    packing::lemma_assoc(
        (packing::varuint_bytes(v.keys.len()) + packing::joined(key_pieces(v.keys))),
        t7,
        rest,
    );
    packing::lemma_assoc(
        (packing::varuint_bytes(v.accounts.len()) + packing::joined(account_pieces(v.accounts))),
        t8,
        rest,
    );
    packing::law_varuint_reads_back(0, t1 + rest);
    packing::law_u64_reads_back(v.owner.0, t2 + rest);
    packing::law_u64_reads_back(v.name.0, t3 + rest);
    packing::law_u64_reads_back(v.parent.0, t4 + rest);
    packing::law_i64_reads_back(v.last_updated, t5 + rest);
    packing::law_u32_reads_back(v.threshold, t6 + rest);
    packing::law_pieces_make_a_list_of::<WeightedKey>(kp, keys, t7 + rest);
    packing::law_pieces_make_a_list_of::<WeightedAccount>(ap, accounts, t8 + rest);
    packing::law_pieces_make_a_list_of::<WeightedWait>(wp, waits, rest);
}

// ---------------------------------------------------------------------------
// Block headers
// ---------------------------------------------------------------------------

/// A transaction receipt as it is sent: status, processor time, network use,
/// and the transaction by its id or with its signatures and packed data.
pub struct SentReceipt {
    pub status: u8,
    pub cpu: u32,
    pub net: u32,
    pub body: SentBody,
}

pub enum SentBody {
    Id(Seq<u8>),
    Packed(Seq<Seq<char>>, u8, Seq<u8>, Seq<u8>),
}

pub open spec fn body_bytes(v: SentBody) -> Seq<u8> {
    match v {
        SentBody::Id(id) => packing::varuint_bytes(0) + id,
        SentBody::Packed(signatures, compression, context_free, data) => packing::varuint_bytes(1)
            + packing::list_bytes::<SignatureText>(signatures) + seq![compression]
            + packing::blob_bytes(context_free) + packing::blob_bytes(data),
    }
}

pub open spec fn body_fits(v: SentBody) -> bool {
    match v {
        SentBody::Id(id) => id.len() == 32,
        SentBody::Packed(signatures, _, context_free, data) => packing::list_fits::<
            SignatureText,
        >(signatures) && context_free.len() <= u32::MAX && data.len() <= u32::MAX,
    }
}

pub open spec fn sent_receipt_bytes(v: SentReceipt) -> Seq<u8> {
    seq![v.status] + wire::le_bytes(v.cpu as nat, 4) + packing::varuint_bytes(v.net as nat)
        + body_bytes(v.body)
}

proof fn lemma_sent_receipt(v: SentReceipt, rest: Seq<u8>)
    requires
        body_fits(v.body),
    ensures
        TransactionReceipt::get(wire::at(sent_receipt_bytes(v) + rest)) == (
            (v.cpu, v.net),
            wire::at(rest),
        ),
{
    let r3 = body_bytes(v.body) + rest;
    let r2 = packing::varuint_bytes(v.net as nat) + r3;
    let r1 = wire::le_bytes(v.cpu as nat, 4) + r2;
    assert(sent_receipt_bytes(v) + rest == seq![v.status] + r1);
    packing::lemma_u8_at(v.status, r1);
    packing::law_u32_reads_back(v.cpu, r2);
    packing::law_varuint_reads_back(v.net, r3);
    match v.body {
        SentBody::Id(id) => {
            assert(r3 == packing::varuint_bytes(0) + (id + rest));
            packing::law_varuint_reads_back(0, id + rest);
            packing::law_exact_reads_back(id, rest);
        },
        SentBody::Packed(signatures, compression, context_free, data) => {
            let s4 = packing::blob_bytes(data) + rest;
            let s3 = packing::blob_bytes(context_free) + s4;
            let s2 = seq![compression] + s3;
            let s1 = packing::list_bytes::<SignatureText>(signatures) + s2;
            assert(r3 == packing::varuint_bytes(1) + s1);
            packing::law_varuint_reads_back(1, s1);
            packing::law_list_reads_back::<SignatureText>(signatures, s2);
            packing::lemma_u8_at(compression, s3);
            packing::law_blob_reads_back(context_free, s4);
            packing::law_blob_reads_back(data, rest);
        },
    }
}

/// A signed block as it is sent, up to its transaction receipts.
pub struct SentBlock {
    pub timestamp_slot: u32,
    pub producer: Name,
    pub confirmed: u16,
    pub previous: Seq<u8>,
    pub transaction_mroot: Seq<u8>,
    pub action_mroot: Seq<u8>,
    pub schedule_version: u32,
    /// The version and the producers of a new schedule, with their keys.
    pub schedule: Option<(u32, Seq<(Name, Seq<u8>)>)>,
    pub extensions: Seq<(u16, Seq<u8>)>,
    pub signature: Seq<u8>,
    pub receipts: Seq<SentReceipt>,
}

pub open spec fn producer_pieces(producers: Seq<(Name, Seq<u8>)>) -> Seq<Seq<u8>> {
    Seq::new(producers.len(), |i: int| packing::name_bytes(producers[i].0) + producers[i].1)
}

pub open spec fn receipt_pieces(receipts: Seq<SentReceipt>) -> Seq<Seq<u8>> {
    Seq::new(receipts.len(), |i: int| sent_receipt_bytes(receipts[i]))
}

pub open spec fn schedule_bytes(v: Option<(u32, Seq<(Name, Seq<u8>)>)>) -> Seq<u8> {
    match v {
        Some((version, producers)) => seq![1u8] + wire::le_bytes(version as nat, 4) + (
        packing::varuint_bytes(producers.len()) + packing::joined(producer_pieces(producers))),
        None => seq![0u8],
    }
}

/// A signed block, packed.
pub open spec fn block_bytes(v: SentBlock) -> Seq<u8> {
    wire::le_bytes(v.timestamp_slot as nat, 4) + (
            packing::name_bytes(v.producer) + (
            wire::le_bytes(v.confirmed as nat, 2) + (
            v.previous + (
            v.transaction_mroot + (
            v.action_mroot + (
            wire::le_bytes(v.schedule_version as nat, 4) + (
            schedule_bytes(v.schedule) + (
            extensions_bytes(v.extensions) + (
            v.signature + (
            (packing::varuint_bytes(v.receipts.len()) + packing::joined(receipt_pieces(v.receipts)))))))))))))
}

pub open spec fn block_fits(v: SentBlock) -> bool {
    &&& v.previous.len() == 32 && v.transaction_mroot.len() == 32 && v.action_mroot.len() == 32
    &&& v.schedule matches Some((_, producers)) ==> producers.len() <= u32::MAX && forall|i: int|
        0 <= i < producers.len() ==> packing::is_key((#[trigger] producers[i]).1)
    &&& extensions_fit(v.extensions)
    &&& packing::is_signature(v.signature)
    &&& v.receipts.len() <= u32::MAX
    &&& forall|i: int| 0 <= i < v.receipts.len() ==> body_fits((#[trigger] v.receipts[i]).body)
}

/// The sum of numbers.
pub open spec fn sum(numbers: Seq<nat>) -> nat
    decreases numbers.len(),
{
    if numbers.len() == 0 {
        0
    } else {
        sum(numbers.drop_last()) + numbers.last()
    }
}

proof fn lemma_totals(receipts: Seq<SentReceipt>, kept: Seq<(u32, u32)>, n: nat)
    requires
        n <= receipts.len() == kept.len(),
        forall|i: int|
            0 <= i < kept.len() ==> #[trigger] kept[i] == (receipts[i].cpu, receipts[i].net),
    ensures
        header::cpu_total(kept, n) == sum(Seq::new(n, |i: int| receipts[i].cpu as nat)),
        header::net_total(kept, n) == sum(Seq::new(n, |i: int| receipts[i].net as nat)),
        header::cpu_total(kept, n) <= n * u32::MAX,
        header::net_total(kept, n) <= n * u32::MAX,
    decreases n,
{
    if n > 0 {
        let m = (n - 1) as nat;
        lemma_totals(receipts, kept, m);
        assert(Seq::new(n, |i: int| receipts[i].cpu as nat).drop_last() =~= Seq::new(
            m,
            |i: int| receipts[i].cpu as nat,
        ));
        assert(Seq::new(n, |i: int| receipts[i].net as nat).drop_last() =~= Seq::new(
            m,
            |i: int| receipts[i].net as nat,
        ));
        assert(kept[m as int] == (receipts[m as int].cpu, receipts[m as int].net));
        assert(m * u32::MAX + u32::MAX == n * u32::MAX) by (nonlinear_arith)
            requires
                n == m + 1,
        ;
    }
}

/// The header of a block is read back: each field from its place, the digests
/// in hexadecimal, and the number, processor time and network use of all its
/// transactions.
#[verifier::rlimit(40)]
pub proof fn law_header_reads_back(v: SentBlock, rest: Seq<u8>)
    requires
        block_fits(v),
    ensures
        ({
            let (h, c) = header::get_header(wire::at(block_bytes(v) + rest));
            &&& c == wire::at(rest)
            &&& h.timestamp_slot == v.timestamp_slot
            &&& h.producer == v.producer
            &&& h.confirmed == v.confirmed
            &&& h.previous == foreign::hex_text(v.previous)
            &&& h.transaction_mroot == foreign::hex_text(v.transaction_mroot)
            &&& h.action_mroot == foreign::hex_text(v.action_mroot)
            &&& h.schedule_version == v.schedule_version
            &&& h.producer_signature == packing::key_form(seq!['S', 'I', 'G', '_'], v.signature)
            &&& h.trx_count == v.receipts.len()
            &&& h.cpu_usage_us == sum(
                Seq::new(v.receipts.len(), |i: int| v.receipts[i].cpu as nat),
            )
            &&& h.net_usage_words == sum(
                Seq::new(v.receipts.len(), |i: int| v.receipts[i].net as nat),
            )
        }),
{
    let rp = receipt_pieces(v.receipts);
    let kept = Seq::new(v.receipts.len(), |i: int| (v.receipts[i].cpu, v.receipts[i].net));
    assert forall|i: int, after: Seq<u8>|
        0 <= i < kept.len() implies #[trigger] TransactionReceipt::get(
        wire::at(rp[i] + after),
    ) == (kept[i], wire::at(after)) by {
        lemma_sent_receipt(v.receipts[i], after);
    }
    lemma_totals(v.receipts, kept, kept.len());
    assert(kept.len() * u32::MAX <= u32::MAX * u32::MAX) by (nonlinear_arith)
        requires
            kept.len() <= u32::MAX,
    ;
    let t10 = packing::varuint_bytes(v.receipts.len()) + packing::joined(
        receipt_pieces(v.receipts),
    );
    let t9 = v.signature + t10;
    let t8 = extensions_bytes(v.extensions) + t9;
    let t7 = schedule_bytes(v.schedule) + t8;
    let t6 = wire::le_bytes(v.schedule_version as nat, 4) + t7;
    let t5 = v.action_mroot + t6;
    let t4 = v.transaction_mroot + t5;
    let t3 = v.previous + t4;
    let t2 = wire::le_bytes(v.confirmed as nat, 2) + t3;
    let t1 = packing::name_bytes(v.producer) + t2;
    packing::lemma_assoc(wire::le_bytes(v.timestamp_slot as nat, 4), t1, rest);
    packing::lemma_assoc(packing::name_bytes(v.producer), t2, rest);
    packing::lemma_assoc(wire::le_bytes(v.confirmed as nat, 2), t3, rest);
    packing::lemma_assoc(v.previous, t4, rest);
    packing::lemma_assoc(v.transaction_mroot, t5, rest);
    packing::lemma_assoc(v.action_mroot, t6, rest);
    packing::lemma_assoc(wire::le_bytes(v.schedule_version as nat, 4), t7, rest);
    packing::lemma_assoc(schedule_bytes(v.schedule), t8, rest);
    packing::lemma_assoc(extensions_bytes(v.extensions), t9, rest);
    packing::lemma_assoc(v.signature, t10, rest);
    packing::law_u32_reads_back(v.timestamp_slot, t1 + rest);
    packing::law_u64_reads_back(v.producer.0, t2 + rest);
    packing::law_u16_reads_back(v.confirmed, t3 + rest);
    packing::law_digest_reads_back(v.previous, t4 + rest);
    packing::law_digest_reads_back(v.transaction_mroot, t5 + rest);
    packing::law_digest_reads_back(v.action_mroot, t6 + rest);
    packing::law_u32_reads_back(v.schedule_version, t7 + rest);
    lemma_schedule(v.schedule, t8 + rest);
    lemma_extensions(v.extensions, t9 + rest);
    packing::law_signature_reads_back(v.signature, t10 + rest);
    packing::law_pieces_make_a_list_of::<TransactionReceipt>(rp, kept, rest);
}

proof fn lemma_schedule(v: Option<(u32, Seq<(Name, Seq<u8>)>)>, rest: Seq<u8>)
    requires
        v matches Some((_, producers)) ==> producers.len() <= u32::MAX && forall|i: int|
            0 <= i < producers.len() ==> packing::is_key((#[trigger] producers[i]).1),
    ensures
        header::skip_schedule(wire::at(schedule_bytes(v) + rest)) == wire::at(rest),
{
    match v {
        Some((version, producers)) => {
            let pp = producer_pieces(producers);
            let vs = Seq::new(producers.len(), |i: int| ());
            assert forall|i: int, after: Seq<u8>|
                0 <= i < vs.len() implies #[trigger] ProducerKey::get(
                wire::at(pp[i] + after),
            ) == (vs[i], wire::at(after)) by {
                let key = producers[i].1 + after;
                assert(pp[i] + after == packing::name_bytes(producers[i].0) + key);
                packing::law_u64_reads_back(producers[i].0.0, key);
                packing::law_key_reads_back(producers[i].1, after);
            }
            let r2 = packing::varuint_bytes(producers.len()) + packing::joined(pp) + rest;
            let r1 = wire::le_bytes(version as nat, 4) + r2;
            assert(schedule_bytes(v) + rest == seq![1u8] + r1);
            packing::law_byte_is_truth(1, r1);
            packing::law_u32_reads_back(version, r2);
            packing::law_pieces_make_a_list_of::<ProducerKey>(pp, vs, rest);
        },
        None => {
            packing::law_byte_is_truth(0, rest);
        },
    }
}

// ---------------------------------------------------------------------------
// Results
// ---------------------------------------------------------------------------

/// A position, packed.
pub open spec fn position_bytes(v: BlockPositionModel) -> Seq<u8> {
    wire::le_bytes(v.block_num as nat, 4) + (
            packing::digest_bytes(v.block_id))
}

/// Whether it can be packed.
pub open spec fn position_fits(v: BlockPositionModel) -> bool {
    packing::is_digest(v.block_id)
}

/// A position that was packed is read back, field by field, and what follows it
/// is untouched.
pub proof fn law_position_reads_back(v: BlockPositionModel, rest: Seq<u8>)
    requires
        position_fits(v),
    ensures
        results::get_position(wire::at(position_bytes(v) + rest)) == (v, wire::at(rest)),
{
    let t1 = packing::digest_bytes(v.block_id);
    packing::lemma_assoc(wire::le_bytes(v.block_num as nat, 4), t1, rest);
    packing::law_u32_reads_back(v.block_num, t1 + rest);
    packing::law_digest_text_reads_back(v.block_id, rest);
}

/// A block result, packed.
pub open spec fn blocks_bytes(v: GetBlocksResultModel) -> Seq<u8> {
    position_bytes(v.head) + (
            position_bytes(v.last_irreversible) + (
            packing::option_bytes(
            match v.this_block {
                Some(x) => Some(position_bytes(x)),
                None => None,
            },
        ) + (
            packing::option_bytes(
            match v.prev_block {
                Some(x) => Some(position_bytes(x)),
                None => None,
            },
        ) + (
            packing::option_bytes(
            match v.block {
                Some(x) => Some(packing::blob_bytes(x)),
                None => None,
            },
        ) + (
            packing::option_bytes(
            match v.traces {
                Some(x) => Some(packing::blob_bytes(x)),
                None => None,
            },
        ) + (
            packing::option_bytes(
            match v.deltas {
                Some(x) => Some(packing::blob_bytes(x)),
                None => None,
            },
        )))))))
}

/// Whether it can be packed.
pub open spec fn blocks_fits(v: GetBlocksResultModel) -> bool {
    &&& position_fits(v.head)
        &&& position_fits(v.last_irreversible)
        &&& (v.this_block matches Some(x) ==> position_fits(x))
        &&& (v.prev_block matches Some(x) ==> position_fits(x))
        &&& (v.block matches Some(x) ==> x.len() <= u32::MAX)
        &&& (v.traces matches Some(x) ==> x.len() <= u32::MAX)
        &&& (v.deltas matches Some(x) ==> x.len() <= u32::MAX)
}

/// A block result that was packed is read back, field by field, and what follows it
/// is untouched.
#[verifier::rlimit(40)]
pub proof fn law_blocks_reads_back(v: GetBlocksResultModel, rest: Seq<u8>)
    requires
        blocks_fits(v),
    ensures
        results::get_blocks(wire::at(blocks_bytes(v) + rest)) == (v, wire::at(rest)),
{
    let t6 = packing::option_bytes(
            match v.deltas {
                Some(x) => Some(packing::blob_bytes(x)),
                None => None,
            },
        );
    let t5 = packing::option_bytes(
            match v.traces {
                Some(x) => Some(packing::blob_bytes(x)),
                None => None,
            },
        ) + t6;
    let t4 = packing::option_bytes(
            match v.block {
                Some(x) => Some(packing::blob_bytes(x)),
                None => None,
            },
        ) + t5;
    let t3 = packing::option_bytes(
            match v.prev_block {
                Some(x) => Some(position_bytes(x)),
                None => None,
            },
        ) + t4;
    let t2 = packing::option_bytes(
            match v.this_block {
                Some(x) => Some(position_bytes(x)),
                None => None,
            },
        ) + t3;
    let t1 = position_bytes(v.last_irreversible) + t2;
    packing::lemma_assoc(position_bytes(v.head), t1, rest);
    packing::lemma_assoc(position_bytes(v.last_irreversible), t2, rest);
    packing::lemma_assoc(packing::option_bytes(
            match v.this_block {
                Some(x) => Some(position_bytes(x)),
                None => None,
            },
        ), t3, rest);
    packing::lemma_assoc(packing::option_bytes(
            match v.prev_block {
                Some(x) => Some(position_bytes(x)),
                None => None,
            },
        ), t4, rest);
    packing::lemma_assoc(packing::option_bytes(
            match v.block {
                Some(x) => Some(packing::blob_bytes(x)),
                None => None,
            },
        ), t5, rest);
    packing::lemma_assoc(packing::option_bytes(
            match v.traces {
                Some(x) => Some(packing::blob_bytes(x)),
                None => None,
            },
        ), t6, rest);
    law_position_reads_back(v.head, t1 + rest);
    law_position_reads_back(v.last_irreversible, t2 + rest);
    if let Some(x) = v.this_block {
        law_position_reads_back(x, t3 + rest);
    }
    packing::law_option_reads_back(
            |d: Cursor| results::get_position(d),
            match v.this_block {
                Some(x) => Some(position_bytes(x)),
                None => None,
            },
            v.this_block,
            t3 + rest,
        );
    if let Some(x) = v.prev_block {
        law_position_reads_back(x, t4 + rest);
    }
    packing::law_option_reads_back(
            |d: Cursor| results::get_position(d),
            match v.prev_block {
                Some(x) => Some(position_bytes(x)),
                None => None,
            },
            v.prev_block,
            t4 + rest,
        );
    if let Some(x) = v.block {
        packing::law_blob_reads_back(x, t5 + rest);
    }
    packing::law_option_reads_back(
            |d: Cursor| wire::get_blob(d),
            match v.block {
                Some(x) => Some(packing::blob_bytes(x)),
                None => None,
            },
            v.block,
            t5 + rest,
        );
    if let Some(x) = v.traces {
        packing::law_blob_reads_back(x, t6 + rest);
    }
    packing::law_option_reads_back(
            |d: Cursor| wire::get_blob(d),
            match v.traces {
                Some(x) => Some(packing::blob_bytes(x)),
                None => None,
            },
            v.traces,
            t6 + rest,
        );
    if let Some(x) = v.deltas {
        packing::law_blob_reads_back(x, rest);
    }
    packing::law_option_reads_back(
            |d: Cursor| wire::get_blob(d),
            match v.deltas {
                Some(x) => Some(packing::blob_bytes(x)),
                None => None,
            },
            v.deltas,
            rest,
        );
}

/// The chain id, which is a binary extension.
pub open spec fn chain_id_bytes(v: Option<Seq<char>>) -> Seq<u8> {
    match v {
        Some(id) => packing::digest_bytes(id),
        None => seq![],
    }
}

proof fn lemma_chain_id(v: Option<Seq<char>>)
    requires
        v matches Some(id) ==> packing::is_digest(id),
    ensures
        results::get_chain_id(wire::at(chain_id_bytes(v) + Seq::<u8>::empty())) == (
            v,
            wire::at(seq![]),
        ),
{
    match v {
        Some(id) => packing::law_digest_text_reads_back(id, seq![]),
        None => assert(chain_id_bytes(v) + Seq::<u8>::empty() == Seq::<u8>::empty()),
    }
}

/// A status, packed.
pub open spec fn status_bytes(v: GetStatusResultModel) -> Seq<u8> {
    position_bytes(v.head) + (
            position_bytes(v.last_irreversible) + (
            wire::le_bytes(v.trace_begin_block as nat, 4) + (
            wire::le_bytes(v.trace_end_block as nat, 4) + (
            wire::le_bytes(v.chain_state_begin_block as nat, 4) + (
            wire::le_bytes(v.chain_state_end_block as nat, 4) + (
            chain_id_bytes(v.chain_id)))))))
}

pub open spec fn status_fits(v: GetStatusResultModel) -> bool {
    &&& position_fits(v.head)
    &&& position_fits(v.last_irreversible)
    &&& (v.chain_id matches Some(id) ==> packing::is_digest(id))
}

/// A status is read back, with the chain id or without it.
#[verifier::rlimit(40)]
pub proof fn law_status_reads_back(v: GetStatusResultModel)
    requires
        status_fits(v),
    ensures
        results::get_status(wire::at(status_bytes(v))) == (v, wire::at(seq![])),
{
    let end = Seq::<u8>::empty();
    assert(status_bytes(v) + end == status_bytes(v));
    let t6 = chain_id_bytes(v.chain_id);
    let t5 = wire::le_bytes(v.chain_state_end_block as nat, 4) + t6;
    let t4 = wire::le_bytes(v.chain_state_begin_block as nat, 4) + t5;
    let t3 = wire::le_bytes(v.trace_end_block as nat, 4) + t4;
    let t2 = wire::le_bytes(v.trace_begin_block as nat, 4) + t3;
    let t1 = position_bytes(v.last_irreversible) + t2;
    packing::lemma_assoc(position_bytes(v.head), t1, end);
    packing::lemma_assoc(position_bytes(v.last_irreversible), t2, end);
    packing::lemma_assoc(wire::le_bytes(v.trace_begin_block as nat, 4), t3, end);
    packing::lemma_assoc(wire::le_bytes(v.trace_end_block as nat, 4), t4, end);
    packing::lemma_assoc(wire::le_bytes(v.chain_state_begin_block as nat, 4), t5, end);
    packing::lemma_assoc(wire::le_bytes(v.chain_state_end_block as nat, 4), t6, end);
    law_position_reads_back(v.head, t1 + end);
    law_position_reads_back(v.last_irreversible, t2 + end);
    packing::law_u32_reads_back(v.trace_begin_block, t3 + end);
    packing::law_u32_reads_back(v.trace_end_block, t4 + end);
    packing::law_u32_reads_back(v.chain_state_begin_block, t5 + end);
    packing::law_u32_reads_back(v.chain_state_end_block, t6 + end);
    lemma_chain_id(v.chain_id);
}

/// A result is read back as what it is: a status as a status, a block as a
/// block.
pub proof fn law_results_read_back(
    status: GetStatusResultModel,
    blocks: GetBlocksResultModel,
    rest: Seq<u8>,
)
    ensures
        status_fits(status) ==> results::get_result(
            wire::at(packing::varuint_bytes(0) + status_bytes(status)),
        ) == (ShipResultModel::Status(status), wire::at(seq![])),
        blocks_fits(blocks) ==> results::get_result(
            wire::at(packing::varuint_bytes(1) + (blocks_bytes(blocks) + rest)),
        ) == (ShipResultModel::Blocks(blocks), wire::at(rest)),
{
    if status_fits(status) {
        packing::law_varuint_reads_back(0, status_bytes(status));
        law_status_reads_back(status);
    }
    if blocks_fits(blocks) {
        packing::law_varuint_reads_back(1, blocks_bytes(blocks) + rest);
        law_blocks_reads_back(blocks, rest);
    }
}

} // verus!
