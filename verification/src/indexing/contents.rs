//! What the documents tell: each field of a document in terms of the block,
//! trace, row or ABI that it is made from.

use crate::antelope::abi::{
    AbiModel, ActionDefModel, FieldDefModel, StructDefModel, TableDefModel, TypeDefModel,
    VariantDefModel,
};
use crate::antelope::asset;
use crate::antelope::name;
use crate::antelope::name::Name;
use crate::antelope::plain;
use crate::foreign;
use crate::indexing::docs;
use crate::indexing::docs::{ContextModel, Op, PayloadModel};
use crate::json;
use crate::json::JsonModel;
use crate::ship::deltas::{ContractRowModel, PermissionRowModel};
use crate::ship::header::BlockHeaderModel;
use crate::ship::traces::{
    ActionModel, ActionReceiptModel, ActionTraceModel, PermissionLevelModel,
    TransactionTraceModel,
};
use crate::text;
use vstd::prelude::*;

verus! {

/// The document of a block tells its time, number, id and predecessor, who made
/// it, and what its transactions used; it is indexed under its number.
#[verifier::rlimit(40)]
pub proof fn law_block_document_tells(ctx: ContextModel, h: BlockHeaderModel)
    ensures
        ({
            let body = docs::block_doc(ctx, h).body;
            &&& json::field_of(body, "@timestamp"@) == Some(match ctx.timestamp {
                Some(t) => JsonModel::Str(t),
                None => JsonModel::Null,
            })
            &&& json::field_of(body, "block_num"@) == Some(JsonModel::Int(ctx.block_num as int))
            &&& json::field_of(body, "block_id"@) == Some(JsonModel::Str(ctx.block_id))
            &&& json::field_of(body, "prev_id"@) == Some(JsonModel::Str(h.previous))
            &&& json::field_of(body, "producer"@) == Some(
                JsonModel::Str(name::name_text(h.producer.0)),
            )
            &&& json::field_of(body, "schedule_version"@) == Some(
                JsonModel::Int(h.schedule_version as int),
            )
            &&& json::field_of(body, "trx_count"@) == Some(JsonModel::Int(h.trx_count as int))
            &&& json::field_of(body, "cpu_usage_us"@) == Some(JsonModel::Int(h.cpu_usage_us as int))
            &&& json::field_of(body, "net_usage_words"@) == Some(
                JsonModel::Int(h.net_usage_words as int),
            )
            &&& docs::block_doc(ctx, h).kind == "block"@
            &&& docs::block_doc(ctx, h).op == Op::Index
            &&& docs::block_doc(ctx, h).id == Some(text::decimal(ctx.block_num as nat))
        }),
{
    reveal_strlit("@timestamp");
    assert("@timestamp"@.len() == 10);
    reveal_strlit("block_num");
    assert("block_num"@.len() == 9);
    reveal_strlit("block_id");
    assert("block_id"@.len() == 8);
    reveal_strlit("prev_id");
    assert("prev_id"@.len() == 7);
    reveal_strlit("producer");
    assert("producer"@.len() == 8);
    reveal_strlit("schedule_version");
    assert("schedule_version"@.len() == 16);
    reveal_strlit("trx_count");
    assert("trx_count"@.len() == 9);
    reveal_strlit("cpu_usage_us");
    assert("cpu_usage_us"@.len() == 12);
    reveal_strlit("net_usage_words");
    assert("net_usage_words"@.len() == 15);
    assert("block_num"@[0] != "trx_count"@[0]);
    assert("block_id"@[0] != "producer"@[0]);
    reveal_with_fuel(json::field_from, 11);
}

/// A permission level tells its actor and its permission.
pub proof fn law_levels_tell(l: PermissionLevelModel)
    ensures
        ({
            let body = JsonModel::Object(docs::level_fields(l));
            &&& json::field_of(body, "actor"@) == Some(JsonModel::Str(name::name_text(l.actor.0)))
            &&& json::field_of(body, "permission"@) == Some(
                JsonModel::Str(name::name_text(l.permission.0)),
            )
        }),
{
    reveal_strlit("actor");
    assert("actor"@.len() == 5);
    reveal_strlit("permission");
    assert("permission"@.len() == 10);
    reveal_with_fuel(json::field_from, 4);
}

/// An authorization sequence tells its account and its number.
pub proof fn law_auth_sequences_tell(a: (Name, u64))
    ensures
        ({
            let body = JsonModel::Object(docs::auth_fields(a));
            &&& json::field_of(body, "account"@) == Some(JsonModel::Str(name::name_text(a.0.0)))
            &&& json::field_of(body, "sequence"@) == Some(JsonModel::Int(a.1 as int))
        }),
{
    reveal_strlit("account");
    assert("account"@.len() == 7);
    reveal_strlit("sequence");
    assert("sequence"@.len() == 8);
    reveal_with_fuel(json::field_from, 4);
}

/// A receipt tells its receiver and its numbers.
pub proof fn law_receipts_tell(r: ActionReceiptModel)
    ensures
        ({
            let body = JsonModel::Object(docs::receipt_fields(r));
            &&& json::field_of(body, "receiver"@) == Some(
                JsonModel::Str(name::name_text(r.receiver.0)),
            )
            &&& json::field_of(body, "global_sequence"@) == Some(
                JsonModel::Int(r.global_sequence as int),
            )
            &&& json::field_of(body, "recv_sequence"@) == Some(
                JsonModel::Int(r.recv_sequence as int),
            )
            &&& json::field_of(body, "auth_sequence"@) matches Some(JsonModel::Array(x))
                && x.len() == r.auth_sequence.len() && forall|i: int|
                0 <= i < x.len() ==> #[trigger] x[i] == JsonModel::Object(
                    docs::auth_fields(r.auth_sequence[i]),
                )
        }),
{
    reveal_strlit("receiver");
    assert("receiver"@.len() == 8);
    reveal_strlit("global_sequence");
    assert("global_sequence"@.len() == 15);
    reveal_strlit("recv_sequence");
    assert("recv_sequence"@.len() == 13);
    reveal_strlit("auth_sequence");
    assert("auth_sequence"@.len() == 13);
    assert("recv_sequence"@[0] != "auth_sequence"@[0]);
    reveal_with_fuel(json::field_from, 6);
}

/// An action tells its contract, its name, all its authorizations and its data:
/// decoded, or in hexadecimal, but not both.
pub proof fn law_acts_tell(act: ActionModel, payload: PayloadModel)
    ensures
        ({
            let body = JsonModel::Object(docs::act_fields(act, payload));
            &&& json::field_of(body, "account"@) == Some(
                JsonModel::Str(name::name_text(act.account.0)),
            )
            &&& json::field_of(body, "name"@) == Some(JsonModel::Str(name::name_text(act.name.0)))
            &&& json::field_of(body, "authorization"@) matches Some(JsonModel::Array(x))
                && x.len() == act.authorization.len() && forall|i: int|
                0 <= i < x.len() ==> #[trigger] x[i] == JsonModel::Object(
                    docs::level_fields(act.authorization[i]),
                )
            &&& match payload {
                PayloadModel::Data(v) => json::field_of(body, "data"@) == Some(v)
                    && json::field_of(body, "hex_data"@) is None,
                PayloadModel::Hex(s) => json::field_of(body, "hex_data"@) == Some(
                    JsonModel::Str(s),
                ) && json::field_of(body, "data"@) is None,
            }
        }),
{
    reveal_strlit("account");
    assert("account"@.len() == 7);
    reveal_strlit("name");
    assert("name"@.len() == 4);
    reveal_strlit("authorization");
    assert("authorization"@.len() == 13);
    reveal_with_fuel(json::field_from, 5);
    reveal_strlit("data");
    assert("data"@.len() == 4);
    reveal_strlit("hex_data");
    assert("hex_data"@.len() == 8);
    reveal_strlit("account");
    assert("account"@.len() == 7);
    reveal_strlit("name");
    assert("name"@.len() == 4);
    reveal_strlit("authorization");
    assert("authorization"@.len() == 13);
    assert("data"@[0] != "name"@[0]);
}

/// The document of an action tells when and in what block and transaction it
/// happened, the action itself, everyone that was notified of it with their
/// receipts, and its numbers; the signatures of the transaction stand on its
/// root actions only. It is indexed under its global sequence number.
#[verifier::rlimit(40)]
pub proof fn law_action_document_tells(
    ctx: ContextModel,
    trace: TransactionTraceModel,
    members: Seq<ActionTraceModel>,
    primary: ActionTraceModel,
    payload: PayloadModel,
)
    ensures
        ({
            let body = docs::action_doc(ctx, trace, members, primary, payload).body;
            let receipt = primary.receipt->0;
            &&& json::field_of(body, "@timestamp"@) == Some(match ctx.timestamp {
                Some(t) => JsonModel::Str(t),
                None => JsonModel::Null,
            })
            &&& json::field_of(body, "global_sequence"@) == Some(
                JsonModel::Int(receipt.global_sequence as int),
            )
            &&& json::field_of(body, "block_num"@) == Some(JsonModel::Int(ctx.block_num as int))
            &&& json::field_of(body, "block_id"@) == Some(JsonModel::Str(ctx.block_id))
            &&& json::field_of(body, "trx_id"@) == Some(JsonModel::Str(trace.id))
            &&& json::field_of(body, "producer"@) == Some(match ctx.producer {
                Some(t) => JsonModel::Str(t),
                None => JsonModel::Null,
            })
            &&& json::field_of(body, "act"@) == Some(
                JsonModel::Object(docs::act_fields(primary.act, payload)),
            )
            &&& json::field_of(body, "notified"@) matches Some(JsonModel::Array(x))
                && x.len() == members.len() && forall|i: int|
                0 <= i < x.len() ==> #[trigger] x[i] == JsonModel::Str(
                    name::name_text(members[i].receiver.0),
                )
            &&& json::field_of(body, "receipts"@) matches Some(JsonModel::Array(x))
                && x.len() == members.len() && forall|i: int|
                0 <= i < x.len() ==> #[trigger] x[i] == JsonModel::Object(
                    docs::receipt_fields(members[i].receipt->0),
                )
            &&& json::field_of(body, "action_ordinal"@) == Some(
                JsonModel::Int(primary.action_ordinal as int),
            )
            &&& json::field_of(body, "creator_action_ordinal"@) == Some(
                JsonModel::Int(primary.creator_action_ordinal as int),
            )
            &&& json::field_of(body, "cpu_usage_us"@) == Some(
                JsonModel::Int(trace.cpu_usage_us as int),
            )
            &&& json::field_of(body, "net_usage_words"@) == Some(
                JsonModel::Int(trace.net_usage_words as int),
            )
            &&& json::field_of(body, "code_sequence"@) == Some(
                JsonModel::Int(receipt.code_sequence as int),
            )
            &&& json::field_of(body, "abi_sequence"@) == Some(
                JsonModel::Int(receipt.abi_sequence as int),
            )
            &&& json::field_of(body, "act_digest"@) == Some(JsonModel::Str(receipt.act_digest))
            &&& match trace.partial {
                Some(p) => if primary.creator_action_ordinal == 0 && p.signatures.len() > 0 {
                    json::field_of(body, "signatures"@) matches Some(JsonModel::Array(x))
                        && x.len() == p.signatures.len() && forall|i: int|
                        0 <= i < x.len() ==> #[trigger] x[i] == JsonModel::Str(p.signatures[i])
                } else {
                    json::field_of(body, "signatures"@) is None
                },
                None => json::field_of(body, "signatures"@) is None,
            }
            &&& docs::action_doc(ctx, trace, members, primary, payload).kind == "action"@
            &&& docs::action_doc(ctx, trace, members, primary, payload).op == Op::Index
            &&& docs::action_doc(ctx, trace, members, primary, payload).id == Some(
                text::decimal(receipt.global_sequence as nat),
            )
        }),
{
    reveal_strlit("@timestamp");
    assert("@timestamp"@.len() == 10);
    reveal_strlit("global_sequence");
    assert("global_sequence"@.len() == 15);
    reveal_strlit("block_num");
    assert("block_num"@.len() == 9);
    reveal_strlit("block_id");
    assert("block_id"@.len() == 8);
    reveal_strlit("trx_id");
    assert("trx_id"@.len() == 6);
    reveal_strlit("producer");
    assert("producer"@.len() == 8);
    reveal_strlit("act");
    assert("act"@.len() == 3);
    reveal_strlit("notified");
    assert("notified"@.len() == 8);
    reveal_strlit("receipts");
    assert("receipts"@.len() == 8);
    reveal_strlit("action_ordinal");
    assert("action_ordinal"@.len() == 14);
    reveal_strlit("creator_action_ordinal");
    assert("creator_action_ordinal"@.len() == 22);
    reveal_strlit("cpu_usage_us");
    assert("cpu_usage_us"@.len() == 12);
    reveal_strlit("net_usage_words");
    assert("net_usage_words"@.len() == 15);
    reveal_strlit("code_sequence");
    assert("code_sequence"@.len() == 13);
    reveal_strlit("abi_sequence");
    assert("abi_sequence"@.len() == 12);
    reveal_strlit("signatures");
    assert("signatures"@.len() == 10);
    assert("signatures"@[0] != "@timestamp"@[0]);
    reveal_strlit("act_digest");
    assert("act_digest"@.len() == 10);
    assert("@timestamp"@[0] != "act_digest"@[0]);
    assert("global_sequence"@[0] != "net_usage_words"@[0]);
    assert("block_id"@[0] != "producer"@[0]);
    assert("block_id"@[0] != "notified"@[0]);
    assert("block_id"@[0] != "receipts"@[0]);
    assert("producer"@[0] != "notified"@[0]);
    assert("producer"@[0] != "receipts"@[0]);
    assert("notified"@[0] != "receipts"@[0]);
    assert("cpu_usage_us"@[0] != "abi_sequence"@[0]);
    assert("act_digest"@[0] != "signatures"@[0]);
    reveal_with_fuel(json::field_from, 19);
}

/// The document of a permission that was written tells its owner, name and
/// parent, when it was updated, its threshold, and all its keys and controlling
/// accounts; it is indexed under owner and name, and deleted if the permission
/// was removed.
pub proof fn law_perm_document_tells(ctx: ContextModel, p: PermissionRowModel)
    ensures
        ({
            let body = docs::perm_doc(ctx, p, true).body;
            &&& json::field_of(body, "block_num"@) == Some(JsonModel::Int(ctx.block_num as int))
            &&& json::field_of(body, "owner"@) == Some(JsonModel::Str(name::name_text(p.owner.0)))
            &&& json::field_of(body, "name"@) == Some(JsonModel::Str(name::name_text(p.name.0)))
            &&& json::field_of(body, "parent"@) == Some(JsonModel::Str(name::name_text(p.parent.0)))
            &&& json::field_of(body, "last_updated"@) == Some(
                JsonModel::Str(plain::instant(p.last_updated as int)),
            )
            &&& json::field_of(body, "threshold"@) == Some(JsonModel::Int(p.threshold as int))
            &&& json::field_of(body, "keys"@) matches Some(JsonModel::Array(x))
                && x.len() == p.keys.len() && forall|i: int|
                0 <= i < x.len() ==> #[trigger] x[i] == JsonModel::Str(p.keys[i])
            &&& json::field_of(body, "accounts"@) matches Some(JsonModel::Array(x))
                && x.len() == p.accounts.len() && forall|i: int|
                0 <= i < x.len() ==> #[trigger] x[i] == JsonModel::Str(p.accounts[i])
            &&& docs::perm_doc(ctx, p, true).op == Op::Index
            &&& docs::perm_doc(ctx, p, false).op == Op::Delete
            &&& forall|present: bool|
                #![trigger docs::perm_doc(ctx, p, present)]
                docs::perm_doc(ctx, p, present).kind == "perm"@ && docs::perm_doc(
                    ctx,
                    p,
                    present,
                ).id == Some(
                    name::name_text(p.owner.0) + seq!['-'] + name::name_text(p.name.0),
                )
        }),
{
    reveal_strlit("block_num");
    assert("block_num"@.len() == 9);
    reveal_strlit("owner");
    assert("owner"@.len() == 5);
    reveal_strlit("name");
    assert("name"@.len() == 4);
    reveal_strlit("parent");
    assert("parent"@.len() == 6);
    reveal_strlit("last_updated");
    assert("last_updated"@.len() == 12);
    reveal_strlit("threshold");
    assert("threshold"@.len() == 9);
    reveal_strlit("keys");
    assert("keys"@.len() == 4);
    reveal_strlit("accounts");
    assert("accounts"@.len() == 8);
    assert("block_num"@[0] != "threshold"@[0]);
    assert("name"@[0] != "keys"@[0]);
    reveal_with_fuel(json::field_from, 10);
}

/// The document of a table row tells where and when it changed, where it
/// stands, who pays for it, whether it was written or removed, and its value:
/// decoded, or in hexadecimal, but not both.
#[verifier::rlimit(40)]
pub proof fn law_delta_document_tells(
    ctx: ContextModel,
    row: ContractRowModel,
    present: bool,
    ordinal: nat,
    decoded: Option<JsonModel>,
)
    ensures
        ({
            let body = docs::delta_doc(ctx, row, present, ordinal, decoded).body;
            &&& json::field_of(body, "@timestamp"@) == Some(match ctx.timestamp {
                Some(t) => JsonModel::Str(t),
                None => JsonModel::Null,
            })
            &&& json::field_of(body, "block_num"@) == Some(JsonModel::Int(ctx.block_num as int))
            &&& json::field_of(body, "block_id"@) == Some(JsonModel::Str(ctx.block_id))
            &&& json::field_of(body, "code"@) == Some(JsonModel::Str(name::name_text(row.code.0)))
            &&& json::field_of(body, "scope"@) == Some(JsonModel::Str(name::name_text(row.scope.0)))
            &&& json::field_of(body, "table"@) == Some(JsonModel::Str(name::name_text(row.table.0)))
            &&& json::field_of(body, "primary_key"@) == Some(
                JsonModel::Str(text::decimal(row.primary_key as nat)),
            )
            &&& json::field_of(body, "payer"@) == Some(JsonModel::Str(name::name_text(row.payer.0)))
            &&& json::field_of(body, "present"@) == Some(JsonModel::Bool(present))
            &&& match decoded {
                Some(v) => json::field_of(body, "data"@) == Some(v) && json::field_of(
                    body,
                    "value_hex"@,
                ) is None,
                None => json::field_of(body, "value_hex"@) == Some(
                    JsonModel::Str(foreign::hex_text(row.value)),
                ) && json::field_of(body, "data"@) is None,
            }
            &&& docs::delta_doc(ctx, row, present, ordinal, decoded).kind == "delta"@
            &&& docs::delta_doc(ctx, row, present, ordinal, decoded).op == Op::Index
            &&& docs::delta_doc(ctx, row, present, ordinal, decoded).id == Some(
                text::decimal(ctx.block_num as nat) + seq!['-'] + text::decimal(ordinal),
            )
        }),
{
    reveal_strlit("@timestamp");
    assert("@timestamp"@.len() == 10);
    reveal_strlit("block_num");
    assert("block_num"@.len() == 9);
    reveal_strlit("block_id");
    assert("block_id"@.len() == 8);
    reveal_strlit("code");
    assert("code"@.len() == 4);
    reveal_strlit("scope");
    assert("scope"@.len() == 5);
    reveal_strlit("table");
    assert("table"@.len() == 5);
    reveal_strlit("primary_key");
    assert("primary_key"@.len() == 11);
    reveal_strlit("payer");
    assert("payer"@.len() == 5);
    reveal_strlit("present");
    assert("present"@.len() == 7);
    assert("scope"@[0] != "table"@[0]);
    assert("scope"@[0] != "payer"@[0]);
    assert("table"@[0] != "payer"@[0]);
    reveal_strlit("data");
    assert("data"@.len() == 4);
    reveal_strlit("value_hex");
    assert("value_hex"@.len() == 9);
    reveal_strlit("code");
    assert("code"@.len() == 4);
    reveal_strlit("block_num");
    assert("block_num"@.len() == 9);
    assert("data"@[0] != "code"@[0]);
    assert("value_hex"@[0] != "block_num"@[0]);
    reveal_with_fuel(json::field_from, 12);
}

/// The document of a balance tells the token's contract, the holder, the symbol
/// and the amount; it is indexed under contract, holder and symbol, and deleted
/// if the row was removed.
pub proof fn law_token_document_tells(
    ctx: ContextModel,
    row: ContractRowModel,
    amount: int,
    symbol: nat,
)
    ensures
        ({
            let body = docs::token_doc(ctx, row, true, amount, symbol).body;
            &&& json::field_of(body, "block_num"@) == Some(JsonModel::Int(ctx.block_num as int))
            &&& json::field_of(body, "code"@) == Some(JsonModel::Str(name::name_text(row.code.0)))
            &&& json::field_of(body, "scope"@) == Some(JsonModel::Str(name::name_text(row.scope.0)))
            &&& json::field_of(body, "symbol"@) == Some(
                JsonModel::Str(asset::code_text(symbol / 256)),
            )
            &&& json::field_of(body, "precision"@) == Some(JsonModel::Int((symbol % 256) as int))
            &&& json::field_of(body, "amount"@) == Some(JsonModel::Scaled(amount, symbol % 256))
            &&& docs::token_doc(ctx, row, true, amount, symbol).op == Op::Index
            &&& docs::token_doc(ctx, row, false, amount, symbol).op == Op::Delete
            &&& forall|present: bool|
                #![trigger docs::token_doc(ctx, row, present, amount, symbol)]
                docs::token_doc(ctx, row, present, amount, symbol).kind == "token"@
                    && docs::token_doc(ctx, row, present, amount, symbol).id == Some(
                    name::name_text(row.code.0) + seq!['-'] + name::name_text(row.scope.0) + seq![
                        '-',
                    ] + asset::code_text(symbol / 256),
                )
        }),
{
    reveal_strlit("block_num");
    assert("block_num"@.len() == 9);
    reveal_strlit("code");
    assert("code"@.len() == 4);
    reveal_strlit("scope");
    assert("scope"@.len() == 5);
    reveal_strlit("symbol");
    assert("symbol"@.len() == 6);
    reveal_strlit("precision");
    assert("precision"@.len() == 9);
    reveal_strlit("amount");
    assert("amount"@.len() == 6);
    assert("block_num"@[0] != "precision"@[0]);
    assert("symbol"@[0] != "amount"@[0]);
    reveal_with_fuel(json::field_from, 8);
}

/// The document of an ABI tells when it was set and whose it is, the ABI as
/// text, and the names of all its actions and tables.
pub proof fn law_abi_document_tells(ctx: ContextModel, account: Name, a: AbiModel)
    ensures
        ({
            let body = docs::abi_doc(ctx, account, a).body;
            &&& json::field_of(body, "@timestamp"@) == Some(match ctx.timestamp {
                Some(t) => JsonModel::Str(t),
                None => JsonModel::Null,
            })
            &&& json::field_of(body, "block_num"@) == Some(JsonModel::Int(ctx.block_num as int))
            &&& json::field_of(body, "account"@) == Some(JsonModel::Str(name::name_text(account.0)))
            &&& json::field_of(body, "abi"@) == Some(
                JsonModel::Encoded(Box::new(JsonModel::Object(docs::interface_fields(a)))),
            )
            &&& json::field_of(body, "actions"@) matches Some(JsonModel::Array(x))
                && x.len() == a.actions.len() && forall|i: int|
                0 <= i < x.len() ==> #[trigger] x[i] == JsonModel::Str(
                    name::name_text(a.actions[i].name.0),
                )
            &&& json::field_of(body, "tables"@) matches Some(JsonModel::Array(x))
                && x.len() == a.tables.len() && forall|i: int|
                0 <= i < x.len() ==> #[trigger] x[i] == JsonModel::Str(
                    name::name_text(a.tables[i].name.0),
                )
            &&& docs::abi_doc(ctx, account, a).kind == "abi"@
            &&& docs::abi_doc(ctx, account, a).op == Op::Index
            &&& docs::abi_doc(ctx, account, a).id == Some(
                text::decimal(ctx.block_num as nat) + seq!['-'] + name::name_text(account.0),
            )
        }),
{
    reveal_strlit("@timestamp");
    assert("@timestamp"@.len() == 10);
    reveal_strlit("block_num");
    assert("block_num"@.len() == 9);
    reveal_strlit("account");
    assert("account"@.len() == 7);
    reveal_strlit("abi");
    assert("abi"@.len() == 3);
    reveal_strlit("actions");
    assert("actions"@.len() == 7);
    reveal_strlit("tables");
    assert("tables"@.len() == 6);
    assert("account"@[2] != "actions"@[2]);
    reveal_with_fuel(json::field_from, 8);
}

/// The text of an ABI tells all its definitions.
pub proof fn law_interfaces_tell(a: AbiModel)
    ensures
        ({
            let body = JsonModel::Object(docs::interface_fields(a));
            &&& json::field_of(body, "version"@) == Some(JsonModel::Str(a.version))
            &&& json::field_of(body, "types"@) matches Some(JsonModel::Array(x))
                && x.len() == a.types.len() && forall|i: int|
                0 <= i < x.len() ==> #[trigger] x[i] == JsonModel::Object(
                    docs::type_fields(a.types[i]),
                )
            &&& json::field_of(body, "structs"@) matches Some(JsonModel::Array(x))
                && x.len() == a.structs.len() && forall|i: int|
                0 <= i < x.len() ==> #[trigger] x[i] == JsonModel::Object(
                    docs::struct_fields(a.structs[i]),
                )
            &&& json::field_of(body, "actions"@) matches Some(JsonModel::Array(x))
                && x.len() == a.actions.len() && forall|i: int|
                0 <= i < x.len() ==> #[trigger] x[i] == JsonModel::Object(
                    docs::action_def_fields(a.actions[i]),
                )
            &&& json::field_of(body, "tables"@) matches Some(JsonModel::Array(x))
                && x.len() == a.tables.len() && forall|i: int|
                0 <= i < x.len() ==> #[trigger] x[i] == JsonModel::Object(
                    docs::table_def_fields(a.tables[i]),
                )
            &&& json::field_of(body, "variants"@) matches Some(JsonModel::Array(x))
                && x.len() == a.variants.len() && forall|i: int|
                0 <= i < x.len() ==> #[trigger] x[i] == JsonModel::Object(
                    docs::variant_fields(a.variants[i]),
                )
        }),
{
    reveal_strlit("version");
    assert("version"@.len() == 7);
    reveal_strlit("types");
    assert("types"@.len() == 5);
    reveal_strlit("structs");
    assert("structs"@.len() == 7);
    reveal_strlit("actions");
    assert("actions"@.len() == 7);
    reveal_strlit("tables");
    assert("tables"@.len() == 6);
    reveal_strlit("variants");
    assert("variants"@.len() == 8);
    assert("version"@[0] != "structs"@[0]);
    assert("version"@[0] != "actions"@[0]);
    assert("structs"@[0] != "actions"@[0]);
    reveal_with_fuel(json::field_from, 8);
}

/// Another name for a type tells both.
pub proof fn law_types_tell(t: TypeDefModel)
    ensures
        ({
            let body = JsonModel::Object(docs::type_fields(t));
            &&& json::field_of(body, "new_type_name"@) == Some(JsonModel::Str(t.new_type_name))
            &&& json::field_of(body, "type"@) == Some(JsonModel::Str(t.type_))
        }),
{
    reveal_strlit("new_type_name");
    assert("new_type_name"@.len() == 13);
    reveal_strlit("type");
    assert("type"@.len() == 4);
    reveal_with_fuel(json::field_from, 4);
}

/// A field tells its name and its type.
pub proof fn law_fields_tell(d: FieldDefModel)
    ensures
        ({
            let body = JsonModel::Object(docs::field_fields(d));
            &&& json::field_of(body, "name"@) == Some(JsonModel::Str(d.name))
            &&& json::field_of(body, "type"@) == Some(JsonModel::Str(d.type_))
        }),
{
    reveal_strlit("name");
    assert("name"@.len() == 4);
    reveal_strlit("type");
    assert("type"@.len() == 4);
    assert("name"@[0] != "type"@[0]);
    reveal_with_fuel(json::field_from, 4);
}

/// A struct tells its name, its base and all its fields.
pub proof fn law_structs_tell(d: StructDefModel)
    ensures
        ({
            let body = JsonModel::Object(docs::struct_fields(d));
            &&& json::field_of(body, "name"@) == Some(JsonModel::Str(d.name))
            &&& json::field_of(body, "base"@) == Some(JsonModel::Str(d.base))
            &&& json::field_of(body, "fields"@) matches Some(JsonModel::Array(x))
                && x.len() == d.fields.len() && forall|i: int|
                0 <= i < x.len() ==> #[trigger] x[i] == JsonModel::Object(
                    docs::field_fields(d.fields[i]),
                )
        }),
{
    reveal_strlit("name");
    assert("name"@.len() == 4);
    reveal_strlit("base");
    assert("base"@.len() == 4);
    reveal_strlit("fields");
    assert("fields"@.len() == 6);
    assert("name"@[0] != "base"@[0]);
    reveal_with_fuel(json::field_from, 5);
}

/// An action's definition tells its name, its type and its contract.
pub proof fn law_action_definitions_tell(d: ActionDefModel)
    ensures
        ({
            let body = JsonModel::Object(docs::action_def_fields(d));
            &&& json::field_of(body, "name"@) == Some(JsonModel::Str(name::name_text(d.name.0)))
            &&& json::field_of(body, "type"@) == Some(JsonModel::Str(d.type_))
            &&& json::field_of(body, "ricardian_contract"@) == Some(
                JsonModel::Str(d.ricardian_contract),
            )
        }),
{
    reveal_strlit("name");
    assert("name"@.len() == 4);
    reveal_strlit("type");
    assert("type"@.len() == 4);
    reveal_strlit("ricardian_contract");
    assert("ricardian_contract"@.len() == 18);
    assert("name"@[0] != "type"@[0]);
    reveal_with_fuel(json::field_from, 5);
}

/// A table's definition tells its name, its index, its keys and its type.
pub proof fn law_table_definitions_tell(d: TableDefModel)
    ensures
        ({
            let body = JsonModel::Object(docs::table_def_fields(d));
            &&& json::field_of(body, "name"@) == Some(JsonModel::Str(name::name_text(d.name.0)))
            &&& json::field_of(body, "index_type"@) == Some(JsonModel::Str(d.index_type))
            &&& json::field_of(body, "key_names"@) matches Some(JsonModel::Array(x))
                && x.len() == d.key_names.len() && forall|i: int|
                0 <= i < x.len() ==> #[trigger] x[i] == JsonModel::Str(d.key_names[i])
            &&& json::field_of(body, "key_types"@) matches Some(JsonModel::Array(x))
                && x.len() == d.key_types.len() && forall|i: int|
                0 <= i < x.len() ==> #[trigger] x[i] == JsonModel::Str(d.key_types[i])
            &&& json::field_of(body, "type"@) == Some(JsonModel::Str(d.type_))
        }),
{
    reveal_strlit("name");
    assert("name"@.len() == 4);
    reveal_strlit("index_type");
    assert("index_type"@.len() == 10);
    reveal_strlit("key_names");
    assert("key_names"@.len() == 9);
    reveal_strlit("key_types");
    assert("key_types"@.len() == 9);
    reveal_strlit("type");
    assert("type"@.len() == 4);
    assert("name"@[0] != "type"@[0]);
    assert("key_names"@[4] != "key_types"@[4]);
    reveal_with_fuel(json::field_from, 7);
}

/// A variant tells its name and all its types.
pub proof fn law_variants_tell(d: VariantDefModel)
    ensures
        ({
            let body = JsonModel::Object(docs::variant_fields(d));
            &&& json::field_of(body, "name"@) == Some(JsonModel::Str(d.name))
            &&& json::field_of(body, "types"@) matches Some(JsonModel::Array(x))
                && x.len() == d.types.len() && forall|i: int|
                0 <= i < x.len() ==> #[trigger] x[i] == JsonModel::Str(d.types[i])
        }),
{
    reveal_strlit("name");
    assert("name"@.len() == 4);
    reveal_strlit("types");
    assert("types"@.len() == 5);
    reveal_with_fuel(json::field_from, 4);
}

} // verus!
