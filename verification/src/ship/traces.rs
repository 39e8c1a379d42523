//! Transaction traces.

use crate::antelope::abi::Extension;
use crate::antelope::codec;
use crate::antelope::codec::{read_list, Codec};
use crate::antelope::keys;
use crate::antelope::name::Name;
use crate::antelope::reader::ByteReader;
use crate::antelope::wire;
use crate::antelope::wire::Cursor;
use crate::antelope::AntelopeError;
use crate::bytes::owned;
use crate::lists;
use crate::ship::{expect_version, ship, ShipError};
use vstd::prelude::*;

verus! {

broadcast use {wire::group_latch, codec::lemma_list_latch};

/// A permission of an account.
#[derive(Debug, Clone)]
pub struct PermissionLevel {
    pub actor: Name,
    pub permission: Name,
}

/// An action, as it was requested.
#[derive(Debug, Clone)]
pub struct Action {
    pub account: Name,
    pub name: Name,
    pub authorization: Vec<PermissionLevel>,
    pub data: Vec<u8>,
}

/// The numbers that an executed action was given.
#[derive(Debug, Clone)]
pub struct ActionReceipt {
    pub receiver: Name,
    pub act_digest: String,
    pub global_sequence: u64,
    pub recv_sequence: u64,
    pub auth_sequence: Vec<(Name, u64)>,
    pub code_sequence: u32,
    pub abi_sequence: u32,
}

/// How the memory that an account uses changed.
#[derive(Debug, Clone)]
pub struct AccountDelta {
    pub account: Name,
    pub delta: i64,
}

/// What happened when an action was delivered to a receiver.
#[derive(Debug, Clone)]
pub struct ActionTrace {
    pub action_ordinal: u32,
    pub creator_action_ordinal: u32,
    pub receipt: Option<ActionReceipt>,
    pub receiver: Name,
    pub act: Action,
    pub context_free: bool,
    pub elapsed: i64,
    pub console: String,
    pub account_ram_deltas: Vec<AccountDelta>,
    pub except: Option<String>,
    pub error_code: Option<u64>,
    /// Present in `action_trace_v1`.
    pub return_value: Option<Vec<u8>>,
}

/// What the trace keeps of the transaction itself.
#[derive(Debug, Clone, Default)]
pub struct PartialTransaction {
    pub expiration: u32,
    pub ref_block_num: u16,
    pub ref_block_prefix: u32,
    pub max_net_usage_words: u32,
    pub max_cpu_usage_ms: u8,
    pub delay_sec: u32,
    pub signatures: Vec<String>,
}

/// The part of a transaction trace before what is nested in it.
#[derive(Debug)]
pub struct TraceStart {
    pub id: String,
    pub status: u8,
    pub cpu_usage_us: u32,
    pub net_usage_words: u32,
    pub elapsed: i64,
    pub net_usage: u64,
    pub scheduled: bool,
    pub action_traces: Vec<ActionTrace>,
    pub account_ram_delta: Option<AccountDelta>,
    pub except: Option<String>,
    pub error_code: Option<u64>,
}

/// What happened in a transaction.
#[derive(Debug)]
pub struct TransactionTrace {
    pub id: String,
    /// 0 = executed, 1 = soft_fail, 2 = hard_fail, 3 = delayed, 4 = expired.
    pub status: u8,
    pub cpu_usage_us: u32,
    pub net_usage_words: u32,
    pub elapsed: i64,
    pub net_usage: u64,
    pub scheduled: bool,
    pub action_traces: Vec<ActionTrace>,
    pub account_ram_delta: Option<AccountDelta>,
    pub except: Option<String>,
    pub error_code: Option<u64>,
    pub failed_dtrx_trace: Option<Box<TransactionTrace>>,
    pub partial: Option<PartialTransaction>,
}

// ---------------------------------------------------------------------------
// What the traces hold
// ---------------------------------------------------------------------------

#[verifier::ext_equal]
pub struct PermissionLevelModel {
    pub actor: Name,
    pub permission: Name,
}

impl DeepView for PermissionLevel {
    type V = PermissionLevelModel;

    open spec fn deep_view(&self) -> PermissionLevelModel {
        PermissionLevelModel {
            actor: self.actor,
            permission: self.permission,
        }
    }
}

#[verifier::ext_equal]
pub struct ActionModel {
    pub account: Name,
    pub name: Name,
    pub authorization: Seq<PermissionLevelModel>,
    pub data: Seq<u8>,
}

impl DeepView for Action {
    type V = ActionModel;

    open spec fn deep_view(&self) -> ActionModel {
        ActionModel {
            account: self.account,
            name: self.name,
            authorization: self.authorization.deep_view(),
            data: self.data@,
        }
    }
}

#[verifier::ext_equal]
pub struct ActionReceiptModel {
    pub receiver: Name,
    pub act_digest: Seq<char>,
    pub global_sequence: u64,
    pub recv_sequence: u64,
    pub auth_sequence: Seq<(Name, u64)>,
    pub code_sequence: u32,
    pub abi_sequence: u32,
}

impl DeepView for ActionReceipt {
    type V = ActionReceiptModel;

    open spec fn deep_view(&self) -> ActionReceiptModel {
        ActionReceiptModel {
            receiver: self.receiver,
            act_digest: self.act_digest@,
            global_sequence: self.global_sequence,
            recv_sequence: self.recv_sequence,
            auth_sequence: self.auth_sequence.deep_view(),
            code_sequence: self.code_sequence,
            abi_sequence: self.abi_sequence,
        }
    }
}

#[verifier::ext_equal]
pub struct AccountDeltaModel {
    pub account: Name,
    pub delta: i64,
}

impl DeepView for AccountDelta {
    type V = AccountDeltaModel;

    open spec fn deep_view(&self) -> AccountDeltaModel {
        AccountDeltaModel {
            account: self.account,
            delta: self.delta,
        }
    }
}

#[verifier::ext_equal]
pub struct ActionTraceModel {
    pub action_ordinal: u32,
    pub creator_action_ordinal: u32,
    pub receipt: Option<ActionReceiptModel>,
    pub receiver: Name,
    pub act: ActionModel,
    pub context_free: bool,
    pub elapsed: i64,
    pub console: Seq<char>,
    pub account_ram_deltas: Seq<AccountDeltaModel>,
    pub except: Option<Seq<char>>,
    pub error_code: Option<u64>,
    pub return_value: Option<Seq<u8>>,
}

impl DeepView for ActionTrace {
    type V = ActionTraceModel;

    open spec fn deep_view(&self) -> ActionTraceModel {
        ActionTraceModel {
            action_ordinal: self.action_ordinal,
            creator_action_ordinal: self.creator_action_ordinal,
            receipt: self.receipt.deep_view(),
            receiver: self.receiver,
            act: self.act.deep_view(),
            context_free: self.context_free,
            elapsed: self.elapsed,
            console: self.console@,
            account_ram_deltas: self.account_ram_deltas.deep_view(),
            except: self.except.deep_view(),
            error_code: self.error_code.deep_view(),
            return_value: self.return_value.deep_view(),
        }
    }
}

#[verifier::ext_equal]
pub struct PartialTransactionModel {
    pub expiration: u32,
    pub ref_block_num: u16,
    pub ref_block_prefix: u32,
    pub max_net_usage_words: u32,
    pub max_cpu_usage_ms: u8,
    pub delay_sec: u32,
    pub signatures: Seq<Seq<char>>,
}

impl DeepView for PartialTransaction {
    type V = PartialTransactionModel;

    open spec fn deep_view(&self) -> PartialTransactionModel {
        PartialTransactionModel {
            expiration: self.expiration,
            ref_block_num: self.ref_block_num,
            ref_block_prefix: self.ref_block_prefix,
            max_net_usage_words: self.max_net_usage_words,
            max_cpu_usage_ms: self.max_cpu_usage_ms,
            delay_sec: self.delay_sec,
            signatures: self.signatures.deep_view(),
        }
    }
}

#[verifier::ext_equal]
pub struct TraceStartModel {
    pub id: Seq<char>,
    pub status: u8,
    pub cpu_usage_us: u32,
    pub net_usage_words: u32,
    pub elapsed: i64,
    pub net_usage: u64,
    pub scheduled: bool,
    pub action_traces: Seq<ActionTraceModel>,
    pub account_ram_delta: Option<AccountDeltaModel>,
    pub except: Option<Seq<char>>,
    pub error_code: Option<u64>,
}

impl DeepView for TraceStart {
    type V = TraceStartModel;

    open spec fn deep_view(&self) -> TraceStartModel {
        TraceStartModel {
            id: self.id@,
            status: self.status,
            cpu_usage_us: self.cpu_usage_us,
            net_usage_words: self.net_usage_words,
            elapsed: self.elapsed,
            net_usage: self.net_usage,
            scheduled: self.scheduled,
            action_traces: self.action_traces.deep_view(),
            account_ram_delta: self.account_ram_delta.deep_view(),
            except: self.except.deep_view(),
            error_code: self.error_code.deep_view(),
        }
    }
}

#[verifier::ext_equal]
pub struct TransactionTraceModel {
    pub id: Seq<char>,
    pub status: u8,
    pub cpu_usage_us: u32,
    pub net_usage_words: u32,
    pub elapsed: i64,
    pub net_usage: u64,
    pub scheduled: bool,
    pub action_traces: Seq<ActionTraceModel>,
    pub account_ram_delta: Option<AccountDeltaModel>,
    pub except: Option<Seq<char>>,
    pub error_code: Option<u64>,
    pub failed_dtrx_trace: Option<Box<TransactionTraceModel>>,
    pub partial: Option<PartialTransactionModel>,
}

impl TransactionTrace {
    pub open spec fn model(&self) -> TransactionTraceModel
        decreases self,
    {
        TransactionTraceModel {
            id: self.id@,
            status: self.status,
            cpu_usage_us: self.cpu_usage_us,
            net_usage_words: self.net_usage_words,
            elapsed: self.elapsed,
            net_usage: self.net_usage,
            scheduled: self.scheduled,
            action_traces: self.action_traces.deep_view(),
            account_ram_delta: self.account_ram_delta.deep_view(),
            except: self.except.deep_view(),
            error_code: self.error_code.deep_view(),
            failed_dtrx_trace: match self.failed_dtrx_trace {
                Some(t) => Some(Box::new(t.model())),
                None => None,
            },
            partial: self.partial.deep_view(),
        }
    }
}

impl DeepView for TransactionTrace {
    type V = TransactionTraceModel;

    open spec fn deep_view(&self) -> TransactionTraceModel {
        self.model()
    }
}

// ---------------------------------------------------------------------------
// The layouts
// ---------------------------------------------------------------------------

impl Codec for PermissionLevel {
    type Item = PermissionLevel;

    type Error = AntelopeError;

    open spec fn get(c: Cursor) -> (PermissionLevelModel, Cursor) {
        let (actor, c1) = wire::get_name(c);
        let (permission, c2) = wire::get_name(c1);
        (PermissionLevelModel { actor, permission }, c2)
    }

    proof fn shrinks(c: Cursor) {
        broadcast use wire::group_shrinks;

    }

    proof fn extends(c: Cursor, extra: Seq<u8>) {
        broadcast use wire::group_extends;

    }

    fn take(r: &mut ByteReader) -> Result<PermissionLevel, AntelopeError> {
        let actor = r.read_name()?;
        let permission = r.read_name()?;
        Ok(PermissionLevel { actor, permission })
    }
}

impl Codec for AccountDelta {
    type Item = AccountDelta;

    type Error = AntelopeError;

    open spec fn get(c: Cursor) -> (AccountDeltaModel, Cursor) {
        let (account, c1) = wire::get_name(c);
        let (delta, c2) = wire::get_i64(c1);
        (AccountDeltaModel { account, delta }, c2)
    }

    proof fn shrinks(c: Cursor) {
        broadcast use wire::group_shrinks;

    }

    proof fn extends(c: Cursor, extra: Seq<u8>) {
        broadcast use wire::group_extends;

    }

    fn take(r: &mut ByteReader) -> Result<AccountDelta, AntelopeError> {
        let account = r.read_name()?;
        let delta: i64 = r.read_i64()?;
        Ok(AccountDelta { account, delta })
    }
}

/// An account and the number of its authorizations so far.
pub struct AuthSequence;

impl Codec for AuthSequence {
    type Item = (Name, u64);

    type Error = AntelopeError;

    open spec fn get(c: Cursor) -> ((Name, u64), Cursor) {
        let (account, c1) = wire::get_name(c);
        let (sequence, c2) = wire::get_u64(c1);
        ((account, sequence), c2)
    }

    proof fn shrinks(c: Cursor) {
        broadcast use wire::group_shrinks;

    }

    proof fn extends(c: Cursor, extra: Seq<u8>) {
        broadcast use wire::group_extends;

    }

    fn take(r: &mut ByteReader) -> Result<(Name, u64), AntelopeError> {
        let account = r.read_name()?;
        let sequence: u64 = r.read_u64()?;
        Ok((account, sequence))
    }
}

/// A signature, as text.
pub struct SignatureText;

impl Codec for SignatureText {
    type Item = String;

    type Error = AntelopeError;

    open spec fn get(c: Cursor) -> (Seq<char>, Cursor) {
        keys::get_signature(c)
    }

    proof fn shrinks(c: Cursor) {
        broadcast use wire::group_shrinks;
        broadcast use keys::lemma_signature_shrinks;

    }

    proof fn extends(c: Cursor, extra: Seq<u8>) {
        broadcast use wire::group_extends;
        broadcast use keys::lemma_signature_extends;

    }

    fn take(r: &mut ByteReader) -> Result<String, AntelopeError> {
        keys::read_signature(r)
    }
}

/// A byte string that is not kept.
pub struct SkippedBytes;

impl Codec for SkippedBytes {
    type Item = ();

    type Error = AntelopeError;

    open spec fn get(c: Cursor) -> ((), Cursor) {
        let (_, c1) = wire::get_blob(c);
        ((), c1)
    }

    proof fn shrinks(c: Cursor) {
        broadcast use wire::group_shrinks;

    }

    proof fn extends(c: Cursor, extra: Seq<u8>) {
        broadcast use wire::group_extends;

    }

    fn take(r: &mut ByteReader) -> Result<(), AntelopeError> {
        r.read_bytes()?;
        Ok(())
    }
}

/// A segment of context-free data, which is not kept: a digest or a byte
/// string.
pub struct Segment;

impl Codec for Segment {
    type Item = ();

    type Error = ShipError;

    open spec fn get(c: Cursor) -> ((), Cursor) {
        let (index, c1) = wire::get_varuint32(c);
        if !c1.sound() {
            ((), c1)
        } else if index == 0 {
            ((), wire::get_exact(c1, 32).1)
        } else if index == 1 {
            ((), wire::get_blob(c1).1)
        } else {
            ((), c1.failed(wire::unsupported("context_free_segment"@, index)))
        }
    }

    proof fn shrinks(c: Cursor) {
        broadcast use wire::group_shrinks;

    }

    proof fn extends(c: Cursor, extra: Seq<u8>) {
        broadcast use wire::group_extends;

    }

    fn take(r: &mut ByteReader) -> Result<(), ShipError> {
        // segment_type variant: 0 digest checksum256, 1 bytes
        let index: u32 = ship(r.read_varuint32())?;
        if index == 0 {
            ship(r.read_exact(32))?;
        } else if index == 1 {
            ship(r.read_bytes())?;
        } else {
            return Err(ShipError::UnsupportedVariant { kind: "context_free_segment", index });
        }
        Ok(())
    }
}

/// An action.
pub open spec fn get_action(c: Cursor) -> (ActionModel, Cursor) {
    if !c.sound() {
        (arbitrary(), c)
    } else {
        let (account, c1) = wire::get_name(c);
        let (name, c2) = wire::get_name(c1);
        let (authorization, c3) = codec::list_of::<PermissionLevel>(c2);
        let (data, c4) = wire::get_blob(c3);
        (ActionModel { account, name, authorization, data }, c4)
    }
}

/// An action receipt.
pub open spec fn get_receipt(c: Cursor) -> (ActionReceiptModel, Cursor) {
    let (index, c0) = wire::get_varuint32(c);
    let c1 = c0.checked(index == 0, wire::unsupported("action_receipt"@, index));
    let (receiver, c2) = wire::get_name(c1);
    let (act_digest, c3) = wire::get_digest(c2);
    let (global_sequence, c4) = wire::get_u64(c3);
    let (recv_sequence, c5) = wire::get_u64(c4);
    let (auth_sequence, c6) = codec::list_of::<AuthSequence>(c5);
    let (code_sequence, c7) = wire::get_varuint32(c6);
    let (abi_sequence, c8) = wire::get_varuint32(c7);
    (
        ActionReceiptModel {
            receiver,
            act_digest,
            global_sequence,
            recv_sequence,
            auth_sequence,
            code_sequence,
            abi_sequence,
        },
        c8,
    )
}

/// The value that an action returned, from the second version of the trace on.
pub open spec fn get_return_value(version: u32, c: Cursor) -> (Option<Seq<u8>>, Cursor) {
    if version >= 1 {
        let (v, c1) = wire::get_blob(c);
        (Some(v), c1)
    } else {
        (None, c)
    }
}

/// An action trace.
pub open spec fn get_action_trace(c: Cursor) -> (ActionTraceModel, Cursor) {
    let (version, c0) = wire::get_varuint32(c);
    let c1 = c0.checked(version <= 1, wire::unsupported("action_trace"@, version));
    let (action_ordinal, c2) = wire::get_varuint32(c1);
    let (creator_action_ordinal, c3) = wire::get_varuint32(c2);
    let (receipt, c4) = wire::get_option(|d: Cursor| get_receipt(d), c3);
    let (receiver, c5) = wire::get_name(c4);
    let (act, c6) = get_action(c5);
    let (context_free, c7) = wire::get_bool(c6);
    let (elapsed, c8) = wire::get_i64(c7);
    let (console, c9) = wire::get_string(c8);
    let (account_ram_deltas, c10) = codec::list_of::<AccountDelta>(c9);
    let (except, c11) = wire::get_option(|d: Cursor| wire::get_string(d), c10);
    let (error_code, c12) = wire::get_option(|d: Cursor| wire::get_u64(d), c11);
    let (return_value, c13) = get_return_value(version, c12);
    (
        ActionTraceModel {
            action_ordinal,
            creator_action_ordinal,
            receipt,
            receiver,
            act,
            context_free,
            elapsed,
            console,
            account_ram_deltas,
            except,
            error_code,
            return_value,
        },
        c13,
    )
}

/// The signatures in the prunable data of a transaction.
pub open spec fn get_prunable(c: Cursor) -> (Seq<Seq<char>>, Cursor) {
    let (index, c1) = wire::get_varuint32(c);
    if !c1.sound() {
        (seq![], c1)
    } else if index == 0 {
        let (signatures, c2) = codec::list_of::<SignatureText>(c1);
        let (_, c3) = wire::get_blob(c2);
        (signatures, c3)
    } else if index == 1 {
        let (_, c2) = wire::get_exact(c1, 32);
        (seq![], c2)
    } else if index == 2 {
        let (signatures, c2) = codec::list_of::<SignatureText>(c1);
        let (_, c3) = codec::list_of::<Segment>(c2);
        (signatures, c3)
    } else if index == 3 {
        let (signatures, c2) = codec::list_of::<SignatureText>(c1);
        let (_, c3) = codec::list_of::<SkippedBytes>(c2);
        (signatures, c3)
    } else {
        (seq![], c1.failed(wire::unsupported("prunable_data"@, index)))
    }
}

/// The signatures of a transaction, which stand at its end.
pub open spec fn get_signatures(version: u32, c: Cursor) -> (Seq<Seq<char>>, Cursor) {
    if version == 0 {
        let (signatures, c1) = codec::list_of::<SignatureText>(c);
        let (_, c2) = codec::list_of::<SkippedBytes>(c1);
        (signatures, c2)
    } else {
        let (present, c1) = wire::get_bool(c);
        if c1.sound() && present {
            get_prunable(c1)
        } else {
            (seq![], c1)
        }
    }
}

/// A partial transaction.
pub open spec fn get_partial(c: Cursor) -> (PartialTransactionModel, Cursor) {
    let (version, c0) = wire::get_varuint32(c);
    let c1 = c0.checked(version <= 1, wire::unsupported("partial_transaction"@, version));
    let (expiration, c2) = wire::get_u32(c1);
    let (ref_block_num, c3) = wire::get_u16(c2);
    let (ref_block_prefix, c4) = wire::get_u32(c3);
    let (max_net_usage_words, c5) = wire::get_varuint32(c4);
    let (max_cpu_usage_ms, c6) = wire::get_u8(c5);
    let (delay_sec, c7) = wire::get_varuint32(c6);
    let (_, c8) = codec::list_of::<Extension>(c7);
    let (signatures, c9) = get_signatures(version, c8);
    (
        PartialTransactionModel {
            expiration,
            ref_block_num,
            ref_block_prefix,
            max_net_usage_words,
            max_cpu_usage_ms,
            delay_sec,
            signatures,
        },
        c9,
    )
}

/// The part of a transaction trace before what is nested in it.
pub open spec fn get_trace_start(c: Cursor) -> (TraceStartModel, Cursor) {
    let (index, c0) = wire::get_varuint32(c);
    let c1 = c0.checked(index == 0, wire::unsupported("transaction_trace"@, index));
    let (id, c2) = wire::get_digest(c1);
    let (status, c3) = wire::get_u8(c2);
    let (cpu_usage_us, c4) = wire::get_u32(c3);
    let (net_usage_words, c5) = wire::get_varuint32(c4);
    let (elapsed, c6) = wire::get_i64(c5);
    let (net_usage, c7) = wire::get_u64(c6);
    let (scheduled, c8) = wire::get_bool(c7);
    let (action_traces, c9) = codec::list_of::<ActionTrace>(c8);
    let (account_ram_delta, c10) = wire::get_option(|d: Cursor| AccountDelta::get(d), c9);
    let (except, c11) = wire::get_option(|d: Cursor| wire::get_string(d), c10);
    let (error_code, c12) = wire::get_option(|d: Cursor| wire::get_u64(d), c11);
    (
        TraceStartModel {
            id,
            status,
            cpu_usage_us,
            net_usage_words,
            elapsed,
            net_usage,
            scheduled,
            action_traces,
            account_ram_delta,
            except,
            error_code,
        },
        c12,
    )
}

/// A transaction trace. That of a failed deferred transaction may stand
/// inside it.
pub open spec fn get_trace(c: Cursor) -> (TransactionTraceModel, Cursor)
    decreases c.rest.len(),
{
    let (start, c1) = get_trace_start(c);
    let (nested, c2) = wire::get_bool(c1);
    let (failed_dtrx_trace, c3) = if c2.sound() && nested && c2.rest.len() < c.rest.len() {
        let (t, d) = get_trace(c2);
        (Some(Box::new(t)), d)
    } else {
        (None, c2)
    };
    let (partial, c4) = wire::get_option(|d: Cursor| get_partial(d), c3);
    (
        TransactionTraceModel {
            id: start.id,
            status: start.status,
            cpu_usage_us: start.cpu_usage_us,
            net_usage_words: start.net_usage_words,
            elapsed: start.elapsed,
            net_usage: start.net_usage,
            scheduled: start.scheduled,
            action_traces: start.action_traces,
            account_ram_delta: start.account_ram_delta,
            except: start.except,
            error_code: start.error_code,
            failed_dtrx_trace,
            partial,
        },
        c4,
    )
}

// ---------------------------------------------------------------------------
// Reading
// ---------------------------------------------------------------------------

impl Action {
    fn read(r: &mut ByteReader) -> (res: Result<Self, ShipError>)
        ensures
            crate::antelope::reader::reads(get_action(old(r).cursor()), res, *old(r), *final(r)),
    {
        let account = ship(r.read_name())?;
        let name = ship(r.read_name())?;
        let authorization = ship(read_list::<PermissionLevel>(r))?;
        let data = owned(ship(r.read_bytes())?);
        Ok(Action { account, name, authorization, data })
    }
}

impl ActionReceipt {
    fn read(r: &mut ByteReader) -> (res: Result<Self, ShipError>)
        ensures
            crate::antelope::reader::reads(get_receipt(old(r).cursor()), res, *old(r), *final(r)),
    {
        let index: u32 = ship(r.read_varuint32())?;
        expect_version("action_receipt", index, 0)?;
        let receiver = ship(r.read_name())?;
        let act_digest = ship(r.read_checksum256_hex())?;
        let global_sequence: u64 = ship(r.read_u64())?;
        let recv_sequence: u64 = ship(r.read_u64())?;
        let auth_sequence = ship(read_list::<AuthSequence>(r))?;
        let code_sequence: u32 = ship(r.read_varuint32())?;
        let abi_sequence: u32 = ship(r.read_varuint32())?;
        Ok(ActionReceipt {
            receiver,
            act_digest,
            global_sequence,
            recv_sequence,
            auth_sequence,
            code_sequence,
            abi_sequence,
        })
    }
}

fn read_account_deltas(r: &mut ByteReader) -> (res: Result<Vec<AccountDelta>, ShipError>)
    ensures
        crate::antelope::reader::reads(
            codec::list_of::<AccountDelta>(old(r).cursor()),
            res,
            *old(r),
            *final(r),
        ),
{
    ship(read_list::<AccountDelta>(r))
}

fn read_return_value(version: u32, r: &mut ByteReader) -> (res: Result<
    Option<Vec<u8>>,
    ShipError,
>)
    ensures
        crate::antelope::reader::reads(
            get_return_value(version, old(r).cursor()),
            res,
            *old(r),
            *final(r),
        ),
{
    if version >= 1 {
        let value: Vec<u8> = owned(ship(r.read_bytes())?);
        proof {
            lists::lemma_bytes_view(value);
        }
        Ok(Some(value))
    } else {
        Ok(None)
    }
}

impl ActionTrace {
    fn read(r: &mut ByteReader) -> (res: Result<Self, ShipError>)
        ensures
            crate::antelope::reader::reads(
                get_action_trace(old(r).cursor()),
                res,
                *old(r),
                *final(r),
            ),
    {
        let version: u32 = ship(r.read_varuint32())?;
        expect_version("action_trace", version, 1)?;
        let action_ordinal: u32 = ship(r.read_varuint32())?;
        let creator_action_ordinal: u32 = ship(r.read_varuint32())?;
        let receipt = if ship(r.read_bool())? {
            Some(ActionReceipt::read(r)?)
        } else {
            None
        };
        let receiver = ship(r.read_name())?;
        let act = Action::read(r)?;
        let context_free: bool = ship(r.read_bool())?;
        let elapsed: i64 = ship(r.read_i64())?;
        let console = ship(r.read_string())?;
        let account_ram_deltas = read_account_deltas(r)?;
        let except = if ship(r.read_bool())? {
            Some(ship(r.read_string())?)
        } else {
            None
        };
        let error_code = if ship(r.read_bool())? {
            Some(ship(r.read_u64())?)
        } else {
            None
        };
        let return_value = read_return_value(version, r)?;
        Ok(ActionTrace {
            action_ordinal,
            creator_action_ordinal,
            receipt,
            receiver,
            act,
            context_free,
            elapsed,
            console,
            account_ram_deltas,
            except,
            error_code,
            return_value,
        })
    }
}

impl Codec for ActionTrace {
    type Item = ActionTrace;

    type Error = ShipError;

    open spec fn get(c: Cursor) -> (ActionTraceModel, Cursor) {
        get_action_trace(c)
    }

    proof fn shrinks(c: Cursor) {
        broadcast use wire::group_shrinks;
        broadcast use codec::lemma_list_shrinks;

    }

    proof fn extends(c: Cursor, extra: Seq<u8>) {
        broadcast use wire::group_extends;
        broadcast use codec::lemma_list_extends;

    }

    fn take(r: &mut ByteReader) -> Result<ActionTrace, ShipError> {
        ActionTrace::read(r)
    }
}

impl PartialTransaction {
    fn read(r: &mut ByteReader) -> (res: Result<Self, ShipError>)
        ensures
            crate::antelope::reader::reads(get_partial(old(r).cursor()), res, *old(r), *final(r)),
    {
        let version: u32 = ship(r.read_varuint32())?;
        expect_version("partial_transaction", version, 1)?;
        let expiration: u32 = ship(r.read_u32())?;
        let ref_block_num: u16 = ship(r.read_u16())?;
        let ref_block_prefix: u32 = ship(r.read_u32())?;
        let max_net_usage_words: u32 = ship(r.read_varuint32())?;
        let max_cpu_usage_ms: u8 = ship(r.read_u8())?;
        let delay_sec: u32 = ship(r.read_varuint32())?;
        // transaction_extensions
        ship(read_list::<Extension>(r))?;
        let signatures = Self::read_signatures(version, r)?;
        Ok(PartialTransaction {
            expiration,
            ref_block_num,
            ref_block_prefix,
            max_net_usage_words,
            max_cpu_usage_ms,
            delay_sec,
            signatures,
        })
    }

    fn read_signatures(version: u32, r: &mut ByteReader) -> (res: Result<Vec<String>, ShipError>)
        ensures
            crate::antelope::reader::reads(
                get_signatures(version, old(r).cursor()),
                res,
                *old(r),
                *final(r),
            ),
    {
        if version == 0 {
            let signatures = ship(read_list::<SignatureText>(r))?;
            // context_free_data: bytes[]
            ship(read_list::<SkippedBytes>(r))?;
            Ok(signatures)
        } else if ship(r.read_bool())? {
            // partial_transaction_v1: optional prunable_data
            Self::read_prunable(r)
        } else {
            Ok(lists::no_items())
        }
    }

    fn read_prunable(r: &mut ByteReader) -> (res: Result<Vec<String>, ShipError>)
        ensures
            crate::antelope::reader::reads(get_prunable(old(r).cursor()), res, *old(r), *final(r)),
    {
        // prunable_data_t variant:
        // 0 full_legacy { signatures, packed_context_free_data: bytes }
        // 1 none        { prunable_digest: checksum256 }
        // 2 partial     { signatures, context_free_segments: segment_type[] }
        // 3 full        { signatures, context_free_segments: bytes[] }
        let index: u32 = ship(r.read_varuint32())?;
        match index {
            0 => {
                let signatures = ship(read_list::<SignatureText>(r))?;
                ship(r.read_bytes())?;
                Ok(signatures)
            },
            1 => {
                ship(r.read_exact(32))?;
                Ok(lists::no_items())
            },
            2 => {
                let signatures = ship(read_list::<SignatureText>(r))?;
                read_list::<Segment>(r)?;
                Ok(signatures)
            },
            3 => {
                let signatures = ship(read_list::<SignatureText>(r))?;
                ship(read_list::<SkippedBytes>(r))?;
                Ok(signatures)
            },
            _ => Err(ShipError::UnsupportedVariant { kind: "prunable_data", index }),
        }
    }
}

impl TraceStart {
    fn read(r: &mut ByteReader) -> (res: Result<Self, ShipError>)
        ensures
            crate::antelope::reader::reads(
                get_trace_start(old(r).cursor()),
                res,
                *old(r),
                *final(r),
            ),
    {
        let index: u32 = ship(r.read_varuint32())?;
        expect_version("transaction_trace", index, 0)?;
        let id = ship(r.read_checksum256_hex())?;
        let status: u8 = ship(r.read_u8())?;
        let cpu_usage_us: u32 = ship(r.read_u32())?;
        let net_usage_words: u32 = ship(r.read_varuint32())?;
        let elapsed: i64 = ship(r.read_i64())?;
        let net_usage: u64 = ship(r.read_u64())?;
        let scheduled: bool = ship(r.read_bool())?;
        let action_traces = read_list::<ActionTrace>(r)?;
        let account_ram_delta = if ship(r.read_bool())? {
            Some(ship(AccountDelta::take(r))?)
        } else {
            None
        };
        let except = if ship(r.read_bool())? {
            Some(ship(r.read_string())?)
        } else {
            None
        };
        let error_code = if ship(r.read_bool())? {
            Some(ship(r.read_u64())?)
        } else {
            None
        };
        Ok(TraceStart {
            id,
            status,
            cpu_usage_us,
            net_usage_words,
            elapsed,
            net_usage,
            scheduled,
            action_traces,
            account_ram_delta,
            except,
            error_code,
        })
    }
}

impl TransactionTrace {
    pub fn status_name(status: u8) -> (r: &'static str)
        ensures
            r@ == status_text(status),
    {
        match status {
            0 => "executed",
            1 => "soft_fail",
            2 => "hard_fail",
            3 => "delayed",
            4 => "expired",
            _ => "unknown",
        }
    }

    fn read(r: &mut ByteReader) -> (res: Result<Self, ShipError>)
        ensures
            crate::antelope::reader::reads(get_trace(old(r).cursor()), res, *old(r), *final(r)),
        decreases old(r).rest().len(),
    {
        let ghost c = r.cursor();
        proof {
            lemma_start_shrinks(c);
        }
        let start = TraceStart::read(r)?;
        let nested: bool = ship(r.read_bool())?;
        assert(r.rest().len() < c.rest.len()) by {
            broadcast use wire::group_shrinks;

        }
        let failed_dtrx_trace = if nested {
            Some(Box::new(TransactionTrace::read(r)?))
        } else {
            None
        };
        let partial = if ship(r.read_bool())? {
            Some(PartialTransaction::read(r)?)
        } else {
            None
        };
        Ok(
            TransactionTrace {
                id: start.id,
                status: start.status,
                cpu_usage_us: start.cpu_usage_us,
                net_usage_words: start.net_usage_words,
                elapsed: start.elapsed,
                net_usage: start.net_usage,
                scheduled: start.scheduled,
                action_traces: start.action_traces,
                account_ram_delta: start.account_ram_delta,
                except: start.except,
                error_code: start.error_code,
                failed_dtrx_trace,
                partial,
            },
        )
    }

    /// Decode the `traces` payload of a `get_blocks_result`.
    pub fn decode_traces(data: &[u8]) -> (res: Result<Vec<TransactionTrace>, ShipError>)
        ensures
            crate::antelope::reader::decodes(
                codec::list_of::<TransactionTrace>(wire::at(data@)),
                res,
            ),
    {
        let mut r = ByteReader::new(data);
        read_list::<TransactionTrace>(&mut r)
    }
}

/// The name of a transaction's status.
pub open spec fn status_text(status: u8) -> Seq<char> {
    if status == 0 {
        "executed"@
    } else if status == 1 {
        "soft_fail"@
    } else if status == 2 {
        "hard_fail"@
    } else if status == 3 {
        "delayed"@
    } else if status == 4 {
        "expired"@
    } else {
        "unknown"@
    }
}

proof fn lemma_partial_shrinks(c: Cursor)
    ensures
        get_partial(c).1.rest.len() <= c.rest.len(),
{
    broadcast use wire::group_shrinks;
    broadcast use codec::lemma_list_shrinks;

}

proof fn lemma_start_shrinks(c: Cursor)
    ensures
        get_trace_start(c).1.rest.len() <= c.rest.len(),
        get_trace_start(c).1.sound() ==> get_trace_start(c).1.rest.len() < c.rest.len(),
{
    broadcast use wire::group_shrinks;
    broadcast use codec::lemma_list_shrinks;

}

proof fn lemma_trace_shrinks(c: Cursor)
    ensures
        get_trace(c).1.rest.len() <= c.rest.len(),
    decreases c.rest.len(),
{
    broadcast use wire::group_shrinks;

    lemma_start_shrinks(c);
    let c1 = get_trace_start(c).1;
    let c2 = wire::get_bool(c1).1;
    if c2.rest.len() < c.rest.len() {
        lemma_trace_shrinks(c2);
    }
    assert forall|d: Cursor| (#[trigger] get_partial(d)).1.rest.len() <= d.rest.len() by {
        lemma_partial_shrinks(d);
    }
}

proof fn lemma_partial_extends(c: Cursor, extra: Seq<u8>)
    ensures
        get_partial(c).1.sound() ==> get_partial(wire::extended(c, extra)) == (
            get_partial(c).0,
            wire::extended(get_partial(c).1, extra),
        ),
{
    broadcast use wire::group_latch;
    broadcast use wire::group_extends;
    broadcast use codec::lemma_list_latch;
    broadcast use codec::lemma_list_extends;

}

proof fn lemma_start_extends(c: Cursor, extra: Seq<u8>)
    ensures
        get_trace_start(c).1.sound() ==> get_trace_start(wire::extended(c, extra)) == (
            get_trace_start(c).0,
            wire::extended(get_trace_start(c).1, extra),
        ),
{
    broadcast use wire::group_latch;
    broadcast use wire::group_extends;
    broadcast use codec::lemma_list_latch;
    broadcast use codec::lemma_list_extends;

}

/// A trace does not depend on the bytes behind it.
proof fn lemma_trace_extends(c: Cursor, extra: Seq<u8>)
    ensures
        get_trace(c).1.sound() ==> get_trace(wire::extended(c, extra)) == (
            get_trace(c).0,
            wire::extended(get_trace(c).1, extra),
        ),
    decreases c.rest.len(),
{
    broadcast use wire::group_latch;
    broadcast use wire::group_extends;

    lemma_start_extends(c, extra);
    lemma_start_shrinks(c);
    let c1 = get_trace_start(c).1;
    let (nested, c2) = wire::get_bool(c1);
    if c2.rest.len() < c.rest.len() {
        lemma_trace_extends(c2, extra);
    }
    assert forall|d: Cursor|
        (#[trigger] get_partial(d)).1.sound() implies get_partial(wire::extended(d, extra)) == (
        get_partial(d).0,
        wire::extended(get_partial(d).1, extra),
    ) by {
        lemma_partial_extends(d, extra);
    }
}

impl Codec for TransactionTrace {
    type Item = TransactionTrace;

    type Error = ShipError;

    open spec fn get(c: Cursor) -> (TransactionTraceModel, Cursor) {
        get_trace(c)
    }

    proof fn shrinks(c: Cursor) {
        lemma_trace_shrinks(c);
    }

    proof fn extends(c: Cursor, extra: Seq<u8>) {
        lemma_trace_extends(c, extra);
    }

    fn take(r: &mut ByteReader) -> Result<TransactionTrace, ShipError> {
        TransactionTrace::read(r)
    }
}

} // verus!
