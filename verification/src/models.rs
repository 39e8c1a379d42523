//! What the models hold: every field of a value, as it is or by its own model,
//! and every item of a list in its place.

use crate::antelope::abi::{Abi, ActionDef, FieldDef, StructDef, TableDef, TypeDef, VariantDef};
use crate::api::ApiError;
use crate::api::history::{AbiSnapshotParams, GetActionsParams, GetDeltasParams};
use crate::chain::{ApiRequest, ApiRequestModel};
use crate::indexing::docs::{BlockContext, Doc, Payload, PayloadModel};
use crate::indexing::units::{ActionGroup, DecodedBlock, Unit, UnitModel};
use crate::json::{Json, JsonModel};
use crate::ship::deltas::{AccountRow, ContractRow, PermissionRow, TableDelta, TableDeltaRow};
use crate::ship::header::BlockHeader;
use crate::ship::results::{
    BlockPosition, GetBlocksResult, GetStatusResult, ShipResult, ShipResultModel,
};
use crate::ship::traces::{
    AccountDelta, Action, ActionReceipt, ActionTrace, PartialTransaction, PermissionLevel,
    TraceStart, TransactionTrace,
};
use vstd::prelude::*;

verus! {

/// The model of a value of type `TypeDef` holds all of it.
pub proof fn law_model_of_type_def(x: TypeDef)
    ensures
        ({
            let m = x.deep_view();
            &&& m.new_type_name == x.new_type_name@
            &&& m.type_ == x.type_@
        }),
{
}

/// The model of a value of type `FieldDef` holds all of it.
pub proof fn law_model_of_field_def(x: FieldDef)
    ensures
        ({
            let m = x.deep_view();
            &&& m.name == x.name@
            &&& m.type_ == x.type_@
        }),
{
}

/// The model of a value of type `StructDef` holds all of it.
pub proof fn law_model_of_struct_def(x: StructDef)
    ensures
        ({
            let m = x.deep_view();
            &&& m.name == x.name@
            &&& m.base == x.base@
            &&& m.fields.len() == x.fields@.len()
            &&& forall|i: int|
                0 <= i < m.fields.len() ==> #[trigger] m.fields[i]
                    == x.fields@[i].deep_view()
        }),
{
}

/// The model of a value of type `ActionDef` holds all of it.
pub proof fn law_model_of_action_def(x: ActionDef)
    ensures
        ({
            let m = x.deep_view();
            &&& m.name == x.name
            &&& m.type_ == x.type_@
            &&& m.ricardian_contract == x.ricardian_contract@
        }),
{
}

/// The model of a value of type `TableDef` holds all of it.
pub proof fn law_model_of_table_def(x: TableDef)
    ensures
        ({
            let m = x.deep_view();
            &&& m.name == x.name
            &&& m.index_type == x.index_type@
            &&& m.key_names.len() == x.key_names@.len()
            &&& forall|i: int|
                0 <= i < m.key_names.len() ==> #[trigger] m.key_names[i]
                    == x.key_names@[i].deep_view()
            &&& m.key_types.len() == x.key_types@.len()
            &&& forall|i: int|
                0 <= i < m.key_types.len() ==> #[trigger] m.key_types[i]
                    == x.key_types@[i].deep_view()
            &&& m.type_ == x.type_@
        }),
{
}

/// The model of a value of type `VariantDef` holds all of it.
pub proof fn law_model_of_variant_def(x: VariantDef)
    ensures
        ({
            let m = x.deep_view();
            &&& m.name == x.name@
            &&& m.types.len() == x.types@.len()
            &&& forall|i: int|
                0 <= i < m.types.len() ==> #[trigger] m.types[i]
                    == x.types@[i].deep_view()
        }),
{
}

/// The model of a value of type `Abi` holds all of it.
pub proof fn law_model_of_abi(x: Abi)
    ensures
        ({
            let m = x.deep_view();
            &&& m.version == x.version@
            &&& m.types.len() == x.types@.len()
            &&& forall|i: int|
                0 <= i < m.types.len() ==> #[trigger] m.types[i]
                    == x.types@[i].deep_view()
            &&& m.structs.len() == x.structs@.len()
            &&& forall|i: int|
                0 <= i < m.structs.len() ==> #[trigger] m.structs[i]
                    == x.structs@[i].deep_view()
            &&& m.actions.len() == x.actions@.len()
            &&& forall|i: int|
                0 <= i < m.actions.len() ==> #[trigger] m.actions[i]
                    == x.actions@[i].deep_view()
            &&& m.tables.len() == x.tables@.len()
            &&& forall|i: int|
                0 <= i < m.tables.len() ==> #[trigger] m.tables[i]
                    == x.tables@[i].deep_view()
            &&& m.variants.len() == x.variants@.len()
            &&& forall|i: int|
                0 <= i < m.variants.len() ==> #[trigger] m.variants[i]
                    == x.variants@[i].deep_view()
        }),
{
}

/// The model of a value of type `GetActionsParams` holds all of it.
pub proof fn law_model_of_get_actions_params(x: GetActionsParams)
    ensures
        ({
            let m = x.deep_view();
            &&& match x.account {
                Some(y) => m.account == Some(y.deep_view()),
                None => m.account is None,
            }
            &&& match x.filter {
                Some(y) => m.filter == Some(y.deep_view()),
                None => m.filter is None,
            }
            &&& match x.track {
                Some(y) => m.track == Some(y.deep_view()),
                None => m.track is None,
            }
            &&& m.skip == x.skip
            &&& m.limit == x.limit
            &&& match x.sort {
                Some(y) => m.sort == Some(y.deep_view()),
                None => m.sort is None,
            }
            &&& match x.after {
                Some(y) => m.after == Some(y.deep_view()),
                None => m.after is None,
            }
            &&& match x.before {
                Some(y) => m.before == Some(y.deep_view()),
                None => m.before is None,
            }
            &&& m.simple == x.simple
        }),
{
}

/// The model of a value of type `GetDeltasParams` holds all of it.
pub proof fn law_model_of_get_deltas_params(x: GetDeltasParams)
    ensures
        ({
            let m = x.deep_view();
            &&& match x.code {
                Some(y) => m.code == Some(y.deep_view()),
                None => m.code is None,
            }
            &&& match x.scope {
                Some(y) => m.scope == Some(y.deep_view()),
                None => m.scope is None,
            }
            &&& match x.table {
                Some(y) => m.table == Some(y.deep_view()),
                None => m.table is None,
            }
            &&& match x.payer {
                Some(y) => m.payer == Some(y.deep_view()),
                None => m.payer is None,
            }
            &&& m.present == x.present
            &&& match x.after {
                Some(y) => m.after == Some(y.deep_view()),
                None => m.after is None,
            }
            &&& match x.before {
                Some(y) => m.before == Some(y.deep_view()),
                None => m.before is None,
            }
            &&& m.skip == x.skip
            &&& m.limit == x.limit
            &&& match x.sort {
                Some(y) => m.sort == Some(y.deep_view()),
                None => m.sort is None,
            }
        }),
{
}

/// The model of a value of type `AbiSnapshotParams` holds all of it.
pub proof fn law_model_of_abi_snapshot_params(x: AbiSnapshotParams)
    ensures
        ({
            let m = x.deep_view();
            &&& m.contract == x.contract@
            &&& m.block == x.block
        }),
{
}

/// The model of a value of type `Doc` holds all of it.
pub proof fn law_model_of_doc(x: Doc)
    ensures
        ({
            let m = x.deep_view();
            &&& m.kind == x.kind@
            &&& match x.id {
                Some(y) => m.id == Some(y.deep_view()),
                None => m.id is None,
            }
            &&& m.body == x.body.deep_view()
            &&& m.op == x.op
        }),
{
}

/// The model of a value of type `BlockContext` holds all of it.
pub proof fn law_model_of_block_context(x: BlockContext)
    ensures
        ({
            let m = x.deep_view();
            &&& m.block_num == x.block_num
            &&& m.block_id == x.block_id@
            &&& match x.timestamp {
                Some(y) => m.timestamp == Some(y.deep_view()),
                None => m.timestamp is None,
            }
            &&& match x.producer {
                Some(y) => m.producer == Some(y.deep_view()),
                None => m.producer is None,
            }
        }),
{
}

/// The model of a value of type `DecodedBlock` holds all of it.
pub proof fn law_model_of_decoded_block(x: DecodedBlock)
    ensures
        ({
            let m = x.deep_view();
            &&& match x.this_block {
                Some(y) => m.this_block == Some(y.deep_view()),
                None => m.this_block is None,
            }
            &&& match x.header {
                Some(y) => m.header == Some(y.deep_view()),
                None => m.header is None,
            }
            &&& m.traces.len() == x.traces@.len()
            &&& forall|i: int|
                0 <= i < m.traces.len() ==> #[trigger] m.traces[i]
                    == x.traces@[i].deep_view()
            &&& m.deltas.len() == x.deltas@.len()
            &&& forall|i: int|
                0 <= i < m.deltas.len() ==> #[trigger] m.deltas[i]
                    == x.deltas@[i].deep_view()
        }),
{
}

/// The model of a value of type `ActionGroup` holds all of it.
pub proof fn law_model_of_action_group<'a>(x: ActionGroup<'a>)
    ensures
        ({
            let m = x.deep_view();
            &&& m.trace == x.trace.deep_view()
            &&& m.members.len() == x.members@.len()
            &&& forall|i: int|
                0 <= i < m.members.len() ==> #[trigger] m.members[i]
                    == x.members@[i].deep_view()
        }),
{
}

/// The model of a value of type `TableDeltaRow` holds all of it.
pub proof fn law_model_of_table_delta_row(x: TableDeltaRow)
    ensures
        ({
            let m = x.deep_view();
            &&& m.present == x.present
            &&& m.data == x.data@
        }),
{
}

/// The model of a value of type `TableDelta` holds all of it.
pub proof fn law_model_of_table_delta(x: TableDelta)
    ensures
        ({
            let m = x.deep_view();
            &&& m.name == x.name@
            &&& m.rows.len() == x.rows@.len()
            &&& forall|i: int|
                0 <= i < m.rows.len() ==> #[trigger] m.rows[i]
                    == x.rows@[i].deep_view()
        }),
{
}

/// The model of a value of type `ContractRow` holds all of it.
pub proof fn law_model_of_contract_row(x: ContractRow)
    ensures
        ({
            let m = x.deep_view();
            &&& m.code == x.code
            &&& m.scope == x.scope
            &&& m.table == x.table
            &&& m.primary_key == x.primary_key
            &&& m.payer == x.payer
            &&& m.value == x.value@
        }),
{
}

/// The model of a value of type `AccountRow` holds all of it.
pub proof fn law_model_of_account_row(x: AccountRow)
    ensures
        ({
            let m = x.deep_view();
            &&& m.name == x.name
            &&& m.creation_date_slot == x.creation_date_slot
            &&& m.abi == x.abi@
        }),
{
}

/// The model of a value of type `PermissionRow` holds all of it.
pub proof fn law_model_of_permission_row(x: PermissionRow)
    ensures
        ({
            let m = x.deep_view();
            &&& m.owner == x.owner
            &&& m.name == x.name
            &&& m.parent == x.parent
            &&& m.last_updated == x.last_updated
            &&& m.threshold == x.threshold
            &&& m.keys.len() == x.keys@.len()
            &&& forall|i: int|
                0 <= i < m.keys.len() ==> #[trigger] m.keys[i]
                    == x.keys@[i].deep_view()
            &&& m.accounts.len() == x.accounts@.len()
            &&& forall|i: int|
                0 <= i < m.accounts.len() ==> #[trigger] m.accounts[i]
                    == x.accounts@[i].deep_view()
        }),
{
}

/// The model of a value of type `BlockHeader` holds all of it.
pub proof fn law_model_of_block_header(x: BlockHeader)
    ensures
        ({
            let m = x.deep_view();
            &&& m.timestamp_slot == x.timestamp_slot
            &&& m.producer == x.producer
            &&& m.confirmed == x.confirmed
            &&& m.previous == x.previous@
            &&& m.transaction_mroot == x.transaction_mroot@
            &&& m.action_mroot == x.action_mroot@
            &&& m.schedule_version == x.schedule_version
            &&& m.producer_signature == x.producer_signature@
            &&& m.trx_count == x.trx_count
            &&& m.cpu_usage_us == x.cpu_usage_us
            &&& m.net_usage_words == x.net_usage_words
        }),
{
}

/// The model of a value of type `BlockPosition` holds all of it.
pub proof fn law_model_of_block_position(x: BlockPosition)
    ensures
        ({
            let m = x.deep_view();
            &&& m.block_num == x.block_num
            &&& m.block_id == x.block_id@
        }),
{
}

/// The model of a value of type `GetStatusResult` holds all of it.
pub proof fn law_model_of_get_status_result(x: GetStatusResult)
    ensures
        ({
            let m = x.deep_view();
            &&& m.head == x.head.deep_view()
            &&& m.last_irreversible == x.last_irreversible.deep_view()
            &&& m.trace_begin_block == x.trace_begin_block
            &&& m.trace_end_block == x.trace_end_block
            &&& m.chain_state_begin_block == x.chain_state_begin_block
            &&& m.chain_state_end_block == x.chain_state_end_block
            &&& match x.chain_id {
                Some(y) => m.chain_id == Some(y.deep_view()),
                None => m.chain_id is None,
            }
        }),
{
}

/// The model of a value of type `GetBlocksResult` holds all of it.
pub proof fn law_model_of_get_blocks_result(x: GetBlocksResult)
    ensures
        ({
            let m = x.deep_view();
            &&& m.head == x.head.deep_view()
            &&& m.last_irreversible == x.last_irreversible.deep_view()
            &&& match x.this_block {
                Some(y) => m.this_block == Some(y.deep_view()),
                None => m.this_block is None,
            }
            &&& match x.prev_block {
                Some(y) => m.prev_block == Some(y.deep_view()),
                None => m.prev_block is None,
            }
            &&& match x.block {
                Some(y) => m.block == Some(y.deep_view()),
                None => m.block is None,
            }
            &&& match x.traces {
                Some(y) => m.traces == Some(y.deep_view()),
                None => m.traces is None,
            }
            &&& match x.deltas {
                Some(y) => m.deltas == Some(y.deep_view()),
                None => m.deltas is None,
            }
        }),
{
}

/// The model of a value of type `PermissionLevel` holds all of it.
pub proof fn law_model_of_permission_level(x: PermissionLevel)
    ensures
        ({
            let m = x.deep_view();
            &&& m.actor == x.actor
            &&& m.permission == x.permission
        }),
{
}

/// The model of a value of type `Action` holds all of it.
pub proof fn law_model_of_action(x: Action)
    ensures
        ({
            let m = x.deep_view();
            &&& m.account == x.account
            &&& m.name == x.name
            &&& m.authorization.len() == x.authorization@.len()
            &&& forall|i: int|
                0 <= i < m.authorization.len() ==> #[trigger] m.authorization[i]
                    == x.authorization@[i].deep_view()
            &&& m.data == x.data@
        }),
{
}

/// The model of a value of type `ActionReceipt` holds all of it.
pub proof fn law_model_of_action_receipt(x: ActionReceipt)
    ensures
        ({
            let m = x.deep_view();
            &&& m.receiver == x.receiver
            &&& m.act_digest == x.act_digest@
            &&& m.global_sequence == x.global_sequence
            &&& m.recv_sequence == x.recv_sequence
            &&& m.auth_sequence.len() == x.auth_sequence@.len()
            &&& forall|i: int|
                0 <= i < m.auth_sequence.len() ==> #[trigger] m.auth_sequence[i]
                    == x.auth_sequence@[i].deep_view()
            &&& m.code_sequence == x.code_sequence
            &&& m.abi_sequence == x.abi_sequence
        }),
{
}

/// The model of a value of type `AccountDelta` holds all of it.
pub proof fn law_model_of_account_delta(x: AccountDelta)
    ensures
        ({
            let m = x.deep_view();
            &&& m.account == x.account
            &&& m.delta == x.delta
        }),
{
}

/// The model of a value of type `ActionTrace` holds all of it.
pub proof fn law_model_of_action_trace(x: ActionTrace)
    ensures
        ({
            let m = x.deep_view();
            &&& m.action_ordinal == x.action_ordinal
            &&& m.creator_action_ordinal == x.creator_action_ordinal
            &&& match x.receipt {
                Some(y) => m.receipt == Some(y.deep_view()),
                None => m.receipt is None,
            }
            &&& m.receiver == x.receiver
            &&& m.act == x.act.deep_view()
            &&& m.context_free == x.context_free
            &&& m.elapsed == x.elapsed
            &&& m.console == x.console@
            &&& m.account_ram_deltas.len() == x.account_ram_deltas@.len()
            &&& forall|i: int|
                0 <= i < m.account_ram_deltas.len() ==> #[trigger] m.account_ram_deltas[i]
                    == x.account_ram_deltas@[i].deep_view()
            &&& match x.except {
                Some(y) => m.except == Some(y.deep_view()),
                None => m.except is None,
            }
            &&& match x.error_code {
                Some(y) => m.error_code == Some(y.deep_view()),
                None => m.error_code is None,
            }
            &&& match x.return_value {
                Some(y) => m.return_value == Some(y.deep_view()),
                None => m.return_value is None,
            }
        }),
{
}

/// The model of a value of type `PartialTransaction` holds all of it.
pub proof fn law_model_of_partial_transaction(x: PartialTransaction)
    ensures
        ({
            let m = x.deep_view();
            &&& m.expiration == x.expiration
            &&& m.ref_block_num == x.ref_block_num
            &&& m.ref_block_prefix == x.ref_block_prefix
            &&& m.max_net_usage_words == x.max_net_usage_words
            &&& m.max_cpu_usage_ms == x.max_cpu_usage_ms
            &&& m.delay_sec == x.delay_sec
            &&& m.signatures.len() == x.signatures@.len()
            &&& forall|i: int|
                0 <= i < m.signatures.len() ==> #[trigger] m.signatures[i]
                    == x.signatures@[i].deep_view()
        }),
{
}

/// The model of a value of type `TraceStart` holds all of it.
pub proof fn law_model_of_trace_start(x: TraceStart)
    ensures
        ({
            let m = x.deep_view();
            &&& m.id == x.id@
            &&& m.status == x.status
            &&& m.cpu_usage_us == x.cpu_usage_us
            &&& m.net_usage_words == x.net_usage_words
            &&& m.elapsed == x.elapsed
            &&& m.net_usage == x.net_usage
            &&& m.scheduled == x.scheduled
            &&& m.action_traces.len() == x.action_traces@.len()
            &&& forall|i: int|
                0 <= i < m.action_traces.len() ==> #[trigger] m.action_traces[i]
                    == x.action_traces@[i].deep_view()
            &&& match x.account_ram_delta {
                Some(y) => m.account_ram_delta == Some(y.deep_view()),
                None => m.account_ram_delta is None,
            }
            &&& match x.except {
                Some(y) => m.except == Some(y.deep_view()),
                None => m.except is None,
            }
            &&& match x.error_code {
                Some(y) => m.error_code == Some(y.deep_view()),
                None => m.error_code is None,
            }
        }),
{
}

/// The model of a value of type `TransactionTrace` holds all of it.
pub proof fn law_model_of_transaction_trace(x: TransactionTrace)
    ensures
        ({
            let m = x.deep_view();
            &&& m.id == x.id@
            &&& m.status == x.status
            &&& m.cpu_usage_us == x.cpu_usage_us
            &&& m.net_usage_words == x.net_usage_words
            &&& m.elapsed == x.elapsed
            &&& m.net_usage == x.net_usage
            &&& m.scheduled == x.scheduled
            &&& m.action_traces.len() == x.action_traces@.len()
            &&& forall|i: int|
                0 <= i < m.action_traces.len() ==> #[trigger] m.action_traces[i]
                    == x.action_traces@[i].deep_view()
            &&& match x.account_ram_delta {
                Some(y) => m.account_ram_delta == Some(y.deep_view()),
                None => m.account_ram_delta is None,
            }
            &&& match x.except {
                Some(y) => m.except == Some(y.deep_view()),
                None => m.except is None,
            }
            &&& match x.error_code {
                Some(y) => m.error_code == Some(y.deep_view()),
                None => m.error_code is None,
            }
            &&& match x.partial {
                Some(y) => m.partial == Some(y.deep_view()),
                None => m.partial is None,
            }
        }),
{
}

/// The trace of a deferred transaction that failed is part of the model.
pub proof fn law_model_of_failed_trace(x: TransactionTrace)
    ensures
        match x.failed_dtrx_trace {
            Some(y) => x.deep_view().failed_dtrx_trace matches Some(m) && *m == y.deep_view(),
            None => x.deep_view().failed_dtrx_trace is None,
        },
{
}

/// The model of the data of an action says whether it was decoded.
pub proof fn law_model_of_payload(x: Payload)
    ensures
        match x {
            Payload::Data(v) => x.deep_view() == PayloadModel::Data(v.deep_view()),
            Payload::Hex(s) => x.deep_view() == PayloadModel::Hex(s@),
        },
{
}

/// The model of a unit of work says what it is, and holds all of it.
pub proof fn law_model_of_unit<'a>(x: Unit<'a>)
    ensures
        match x {
            Unit::Action(g) => x.deep_view() == UnitModel::Action(g.deep_view()),
            Unit::Account(a) => x.deep_view() == UnitModel::Account(a.deep_view()),
            Unit::Permission(p, present) => x.deep_view() == UnitModel::Permission(
                p.deep_view(),
                present,
            ),
            Unit::Contract(row, present, ordinal) => x.deep_view() == UnitModel::Contract(
                row.deep_view(),
                present,
                ordinal as nat,
            ),
        },
{
}

/// The model of a result says what it is, and holds all of it.
pub proof fn law_model_of_result(x: ShipResult)
    ensures
        match x {
            ShipResult::Status(s) => x.deep_view() == ShipResultModel::Status(s.deep_view()),
            ShipResult::Blocks(b) => x.deep_view() == ShipResultModel::Blocks(b.deep_view()),
        },
{
}

/// The model of a JSON value is of the same kind, and holds all of it: every
/// item and every field in its place.
pub proof fn law_model_of_json(x: Json)
    ensures
        match x {
            Json::Null => x.deep_view() is Null,
            Json::Bool(b) => x.deep_view() == JsonModel::Bool(b),
            Json::Int(i) => x.deep_view() == JsonModel::Int(i as int),
            Json::Float32(b) => x.deep_view() == JsonModel::Float32(b),
            Json::Float64(b) => x.deep_view() == JsonModel::Float64(b),
            Json::Scaled(a, p) => x.deep_view() == JsonModel::Scaled(a as int, p as nat),
            Json::Str(s) => x.deep_view() == JsonModel::Str(s@),
            Json::Encoded(v) => x.deep_view() matches JsonModel::Encoded(m) && *m
                == v.deep_view(),
            Json::Array(v) => x.deep_view() matches JsonModel::Array(m) && m.len() == v@.len()
                && forall|i: int|
                0 <= i < m.len() ==> #[trigger] m[i] == v@[i].deep_view(),
            Json::Object(v) => x.deep_view() matches JsonModel::Object(m) && m.len() == v@.len()
                && forall|i: int|
                0 <= i < m.len() ==> (#[trigger] m[i]).0 == v@[i].0@ && m[i].1
                    == v@[i].1.deep_view(),
        },
{
}

/// The model of an error of the API holds its status and its message.
pub proof fn law_model_of_error(x: ApiError)
    ensures
        x.deep_view().status == x.0,
        x.deep_view().message == x.1@,
{
}

/// The model of a request to the chain API holds its address and its body.
pub proof fn law_model_of_request(x: ApiRequest)
    ensures
        match x {
            ApiRequest::Get(url) => x.deep_view() == ApiRequestModel::Get(url@),
            ApiRequest::Post(url, body) => x.deep_view() == ApiRequestModel::Post(
                url@,
                body.deep_view(),
            ),
        },
{
}

} // verus!
