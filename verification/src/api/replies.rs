//! What the answers tell: each field of an answer in terms of the documents
//! that were found.

use crate::api::history;
use crate::api::state;
use crate::api::v1;
use crate::api::v1::Window;
use crate::elastic;
use crate::json;
use crate::json::JsonModel;
use vstd::prelude::*;

verus! {

/// What a document tells under a name: null if nothing.
pub open spec fn told(doc: JsonModel, name: Seq<char>) -> JsonModel {
    match json::field_of(doc, name) {
        Some(v) => v,
        None => JsonModel::Null,
    }
}

/// What a document tells of its action under a name.
pub open spec fn told_of_act(doc: JsonModel, name: Seq<char>) -> JsonModel {
    told(told(doc, "act"@), name)
}

/// A document is shown with its time under `timestamp` too, and otherwise as it
/// is; one without a time as it is.
pub proof fn law_stamped(doc: JsonModel)
    requires
        doc matches JsonModel::Object(fields) ==> json::distinct_names(fields),
    ensures
        json::field_of(doc, "@timestamp"@) matches Some(t) ==> json::field_of(
            history::stamped(doc),
            "timestamp"@,
        ) == Some(t),
        json::field_of(doc, "@timestamp"@) is None ==> history::stamped(doc) == doc,
        forall|name: Seq<char>|
            name != "timestamp"@ ==> #[trigger] json::field_of(history::stamped(doc), name)
                == json::field_of(doc, name),
{
    if let JsonModel::Object(fields) = doc {
        if let Some(t) = json::field_of(doc, "@timestamp"@) {
            json::law_set_field(fields, "timestamp"@, t);
            assert forall|name: Seq<char>| name != "timestamp"@ implies #[trigger] json::field_of(
                history::stamped(doc),
                name,
            ) == json::field_of(doc, name) by {
                assert(json::field_of(JsonModel::Object(fields), name) == json::field_of(
                    doc,
                    name,
                ));
            }
        }
    }
}

/// The short form of an action tells its block, time and transaction, its
/// contract and name, who authorized it and was notified of it, and its data.
pub proof fn law_simple_actions_tell(a: JsonModel)
    ensures
        ({
            let body = JsonModel::Object(history::simple_fields(a));
            &&& json::field_of(body, "block"@) == Some(told(a, "block_num"@))
            &&& json::field_of(body, "timestamp"@) == Some(told(a, "timestamp"@))
            &&& json::field_of(body, "transaction_id"@) == Some(told(a, "trx_id"@))
            &&& json::field_of(body, "contract"@) == Some(told_of_act(a, "account"@))
            &&& json::field_of(body, "action"@) == Some(told_of_act(a, "name"@))
            &&& json::field_of(body, "actors"@) == Some(told_of_act(a, "authorization"@))
            &&& json::field_of(body, "notified"@) == Some(told(a, "notified"@))
            &&& json::field_of(body, "data"@) == Some(told_of_act(a, "data"@))
        }),
{
    reveal_strlit("block");
    assert("block"@.len() == 5);
    reveal_strlit("timestamp");
    assert("timestamp"@.len() == 9);
    reveal_strlit("transaction_id");
    assert("transaction_id"@.len() == 14);
    reveal_strlit("contract");
    assert("contract"@.len() == 8);
    reveal_strlit("action");
    assert("action"@.len() == 6);
    reveal_strlit("actors");
    assert("actors"@.len() == 6);
    reveal_strlit("notified");
    assert("notified"@.len() == 8);
    reveal_strlit("data");
    assert("data"@.len() == 4);
    assert("contract"@[0] != "notified"@[0]);
    assert("action"@[3] != "actors"@[3]);
    reveal_with_fuel(json::field_from, 10);
}

/// The answer to a request for actions tells all that were found, in their
/// order, with their times, or their short forms if these are asked for; the
/// total; and the last irreversible block.
pub proof fn law_actions_answer_tells(
    simple: Option<bool>,
    found: Seq<JsonModel>,
    total: JsonModel,
    took_ms: u64,
    lib: u64,
)
    ensures
        ({
            let body = JsonModel::Object(
                history::actions_fields(simple, found, total, took_ms, lib),
            );
            &&& json::field_of(body, "query_time_ms"@) == Some(JsonModel::Int(took_ms as int))
            &&& json::field_of(body, "cached"@) == Some(JsonModel::Bool(false))
            &&& json::field_of(body, "lib"@) == Some(JsonModel::Int(lib as int))
            &&& json::field_of(body, "total"@) == Some(total)
            &&& if simple == Some(true) {
                json::field_of(body, "actions"@) is None && (json::field_of(
                    body,
                    "simple_actions"@,
                ) matches Some(JsonModel::Array(x)) && x.len() == found.len() && forall|i: int|
                    0 <= i < x.len() ==> #[trigger] x[i] == JsonModel::Object(
                        history::simple_fields(history::stamped(found[i])),
                    ))
            } else {
                json::field_of(body, "simple_actions"@) is None && (json::field_of(
                    body,
                    "actions"@,
                ) matches Some(JsonModel::Array(x)) && x.len() == found.len() && forall|i: int|
                    0 <= i < x.len() ==> #[trigger] x[i] == history::stamped(found[i]))
            }
        }),
{
    reveal_strlit("query_time_ms");
    assert("query_time_ms"@.len() == 13);
    reveal_strlit("cached");
    assert("cached"@.len() == 6);
    reveal_strlit("lib");
    assert("lib"@.len() == 3);
    reveal_strlit("total");
    assert("total"@.len() == 5);
    reveal_with_fuel(json::field_from, 6);
    reveal_strlit("query_time_ms");
    assert("query_time_ms"@.len() == 13);
    reveal_strlit("cached");
    assert("cached"@.len() == 6);
    reveal_strlit("lib");
    assert("lib"@.len() == 3);
    reveal_strlit("total");
    assert("total"@.len() == 5);
    reveal_strlit("actions");
    assert("actions"@.len() == 7);
    reveal_strlit("simple_actions");
    assert("simple_actions"@.len() == 14);
    reveal_with_fuel(json::field_from, 8);
}

/// The answer to a request for a transaction tells whether anything was found,
/// the id as it was asked for, and all its actions in their order.
pub proof fn law_transaction_answer_tells(
    id: Seq<char>,
    found: Seq<JsonModel>,
    took_ms: u64,
    lib: u64,
)
    ensures
        ({
            let body = JsonModel::Object(history::transaction_fields(id, found, took_ms, lib));
            &&& json::field_of(body, "query_time_ms"@) == Some(JsonModel::Int(took_ms as int))
            &&& json::field_of(body, "executed"@) == Some(JsonModel::Bool(found.len() > 0))
            &&& json::field_of(body, "trx_id"@) == Some(JsonModel::Str(id))
            &&& json::field_of(body, "lib"@) == Some(JsonModel::Int(lib as int))
            &&& json::field_of(body, "actions"@) matches Some(JsonModel::Array(x))
                && x.len() == found.len() && forall|i: int|
                0 <= i < x.len() ==> #[trigger] x[i] == history::stamped(found[i])
        }),
{
    reveal_strlit("query_time_ms");
    assert("query_time_ms"@.len() == 13);
    reveal_strlit("executed");
    assert("executed"@.len() == 8);
    reveal_strlit("trx_id");
    assert("trx_id"@.len() == 6);
    reveal_strlit("lib");
    assert("lib"@.len() == 3);
    reveal_strlit("actions");
    assert("actions"@.len() == 7);
    reveal_with_fuel(json::field_from, 7);
}

/// The answer to a request for table rows tells all that were found, as they
/// are and in their order, and the total.
pub proof fn law_rows_answer_tells(found: Seq<JsonModel>, total: JsonModel, took_ms: u64)
    ensures
        ({
            let body = JsonModel::Object(history::deltas_fields(found, total, took_ms));
            &&& json::field_of(body, "query_time_ms"@) == Some(JsonModel::Int(took_ms as int))
            &&& json::field_of(body, "total"@) == Some(total)
            &&& json::field_of(body, "deltas"@) == Some(JsonModel::Array(found))
        }),
{
    reveal_strlit("query_time_ms");
    assert("query_time_ms"@.len() == 13);
    reveal_strlit("total");
    assert("total"@.len() == 5);
    reveal_strlit("deltas");
    assert("deltas"@.len() == 6);
    reveal_with_fuel(json::field_from, 5);
}

/// The answer to a request for an ABI tells whether one was found, and if so
/// its block, and the ABI, which is the text in the first document.
pub proof fn law_snapshot_answer_tells(found: Seq<JsonModel>, abi: JsonModel, took_ms: u64)
    ensures
        ({
            let body = JsonModel::Object(history::snapshot_fields(found, abi, took_ms));
            &&& json::field_of(body, "query_time_ms"@) == Some(JsonModel::Int(took_ms as int))
            &&& json::field_of(body, "present"@) == Some(JsonModel::Bool(found.len() > 0))
            &&& found.len() > 0 ==> json::field_of(body, "block_num"@) == Some(
                told(found[0], "block_num"@),
            ) && json::field_of(body, "abi"@) == Some(abi)
            &&& found.len() == 0 ==> json::field_of(body, "abi"@) is None
        }),
        match history::snapshot_text_of(found) {
            Some(s) => found.len() > 0 && json::field_of(found[0], "abi"@) == Some(
                JsonModel::Str(s),
            ),
            None => found.len() == 0 || !(json::field_of(found[0], "abi"@) matches Some(
                JsonModel::Str(s),
            )),
        },
{
    reveal_strlit("query_time_ms");
    assert("query_time_ms"@.len() == 13);
    reveal_strlit("present");
    assert("present"@.len() == 7);
    reveal_strlit("block_num");
    assert("block_num"@.len() == 9);
    reveal_strlit("abi");
    assert("abi"@.len() == 3);
    reveal_with_fuel(json::field_from, 6);
}

/// The name of a created account is what the action tells as `newact`, or else
/// as `name`, if it is a text.
pub proof fn law_created_names(a: JsonModel, s: Seq<char>)
    ensures
        ({
            let data = told_of_act(a, "data"@);
            &&& json::field_of(data, "newact"@) == Some(JsonModel::Str(s))
                ==> history::created_name(a) == JsonModel::Str(s)
            &&& json::field_of(data, "newact"@) is None && json::field_of(data, "name"@) == Some(
                JsonModel::Str(s),
            ) ==> history::created_name(a) == JsonModel::Str(s)
            &&& json::field_of(data, "newact"@) is None && json::field_of(data, "name"@) is None
                ==> history::created_name(a) == JsonModel::Null
        }),
{
}

/// A created account tells its name, when it was created and in what
/// transaction.
pub proof fn law_created_accounts_tell(a: JsonModel)
    ensures
        ({
            let body = JsonModel::Object(history::created_fields(a));
            &&& json::field_of(body, "name"@) == Some(history::created_name(a))
            &&& json::field_of(body, "timestamp"@) == Some(told(a, "@timestamp"@))
            &&& json::field_of(body, "trx_id"@) == Some(told(a, "trx_id"@))
        }),
{
    reveal_strlit("name");
    assert("name"@.len() == 4);
    reveal_strlit("timestamp");
    assert("timestamp"@.len() == 9);
    reveal_strlit("trx_id");
    assert("trx_id"@.len() == 6);
    reveal_with_fuel(json::field_from, 5);
}

/// The answer to a request for created accounts tells all that were found, in
/// their order.
pub proof fn law_created_answer_tells(found: Seq<JsonModel>, took_ms: u64)
    ensures
        ({
            let body = JsonModel::Object(history::created_reply_fields(found, took_ms));
            &&& json::field_of(body, "query_time_ms"@) == Some(JsonModel::Int(took_ms as int))
            &&& json::field_of(body, "accounts"@) matches Some(JsonModel::Array(x))
                && x.len() == found.len() && forall|i: int|
                0 <= i < x.len() ==> #[trigger] x[i] == JsonModel::Object(
                    history::created_fields(found[i]),
                )
        }),
{
    reveal_strlit("query_time_ms");
    assert("query_time_ms"@.len() == 13);
    reveal_strlit("accounts");
    assert("accounts"@.len() == 8);
    reveal_with_fuel(json::field_from, 4);
}

/// The answer to a request for the creator of an account tells the account, who
/// created it, when, in what block and in what transaction.
pub proof fn law_creator_answer_tells(account: Seq<char>, a: JsonModel, took_ms: u64)
    ensures
        ({
            let body = JsonModel::Object(history::creator_fields(account, a, took_ms));
            &&& json::field_of(body, "query_time_ms"@) == Some(JsonModel::Int(took_ms as int))
            &&& json::field_of(body, "account"@) == Some(JsonModel::Str(account))
            &&& json::field_of(body, "creator"@) == Some(told(told_of_act(a, "data"@), "creator"@))
            &&& json::field_of(body, "timestamp"@) == Some(told(a, "@timestamp"@))
            &&& json::field_of(body, "block_num"@) == Some(told(a, "block_num"@))
            &&& json::field_of(body, "trx_id"@) == Some(told(a, "trx_id"@))
        }),
{
    reveal_strlit("query_time_ms");
    assert("query_time_ms"@.len() == 13);
    reveal_strlit("account");
    assert("account"@.len() == 7);
    reveal_strlit("creator");
    assert("creator"@.len() == 7);
    reveal_strlit("timestamp");
    assert("timestamp"@.len() == 9);
    reveal_strlit("block_num");
    assert("block_num"@.len() == 9);
    reveal_strlit("trx_id");
    assert("trx_id"@.len() == 6);
    assert("account"@[0] != "creator"@[0]);
    assert("timestamp"@[0] != "block_num"@[0]);
    reveal_with_fuel(json::field_from, 8);
}

// ---------------------------------------------------------------------------
// Accounts
// ---------------------------------------------------------------------------

/// The owners of permissions are all there, and no others.
pub proof fn law_owners_are_those_found(perms: Seq<JsonModel>, n: nat, s: Seq<char>)
    requires
        n <= perms.len(),
    ensures
        state::owners(perms, n).contains(s) <==> exists|i: int|
            0 <= i < n && json::field_of(#[trigger] perms[i], "owner"@) == Some(JsonModel::Str(s)),
    decreases n,
{
    if n > 0 {
        law_owners_are_those_found(perms, (n - 1) as nat, s);
        let before = state::owners(perms, (n - 1) as nat);
        let after = state::owners(perms, n);
        match json::field_or_null(perms[n - 1], "owner"@) {
            JsonModel::Str(t) => {
                assert(json::field_of(perms[n - 1], "owner"@) == Some(JsonModel::Str(t)));
                if before.len() > 0 && before.last() == t {
                    assert(after == before);
                    assert(before[before.len() - 1] == t);
                    assert(before.contains(t));
                } else {
                    assert(after == before.push(t));
                    assert(after[before.len() as int] == t);
                    assert(after.contains(t));
                    if before.contains(s) {
                        let i = before.index_of(s);
                        assert(after[i] == s);
                    }
                    if after.contains(s) && !before.contains(s) {
                        let i = after.index_of(s);
                        if i < before.len() {
                            assert(before[i] == s);
                        }
                        assert(s == t);
                    }
                }
            },
            _ => {
                assert(after == before);
            },
        }
        if exists|i: int|
            0 <= i < n && json::field_of(#[trigger] perms[i], "owner"@) == Some(JsonModel::Str(s)) {
            let i = choose|i: int|
                0 <= i < n && json::field_of(#[trigger] perms[i], "owner"@) == Some(
                    JsonModel::Str(s),
                );
            if i < n - 1 {
                assert(before.contains(s));
            }
        }
    }
}

/// The answer to a request for the accounts of a key tells the owners of the
/// permissions that were found, and the permissions as they are.
pub proof fn law_key_answer_tells(found: Seq<JsonModel>, took_ms: u64)
    ensures
        ({
            let body = JsonModel::Object(state::key_fields(found, took_ms));
            &&& json::field_of(body, "query_time_ms"@) == Some(JsonModel::Int(took_ms as int))
            &&& json::field_of(body, "account_names"@) matches Some(JsonModel::Array(x))
                && x.len() == state::owners(found, found.len()).len() && forall|i: int|
                0 <= i < x.len() ==> #[trigger] x[i] == JsonModel::Str(
                    state::owners(found, found.len())[i],
                )
            &&& json::field_of(body, "permissions"@) == Some(JsonModel::Array(found))
        }),
{
    reveal_strlit("query_time_ms");
    assert("query_time_ms"@.len() == 13);
    reveal_strlit("account_names");
    assert("account_names"@.len() == 13);
    reveal_strlit("permissions");
    assert("permissions"@.len() == 11);
    assert("query_time_ms"@[0] != "account_names"@[0]);
    reveal_with_fuel(json::field_from, 5);
}

/// A balance tells its symbol, precision, amount and contract.
pub proof fn law_balances_tell(a: JsonModel)
    ensures
        ({
            let body = JsonModel::Object(state::token_fields(a));
            &&& json::field_of(body, "symbol"@) == Some(told(a, "symbol"@))
            &&& json::field_of(body, "precision"@) == Some(told(a, "precision"@))
            &&& json::field_of(body, "amount"@) == Some(told(a, "amount"@))
            &&& json::field_of(body, "contract"@) == Some(told(a, "code"@))
        }),
{
    reveal_strlit("symbol");
    assert("symbol"@.len() == 6);
    reveal_strlit("precision");
    assert("precision"@.len() == 9);
    reveal_strlit("amount");
    assert("amount"@.len() == 6);
    reveal_strlit("contract");
    assert("contract"@.len() == 8);
    assert("symbol"@[0] != "amount"@[0]);
    reveal_with_fuel(json::field_from, 6);
}

/// The answer to a request for balances tells the account and all that were
/// found, in their order.
pub proof fn law_balances_answer_tells(account: Seq<char>, found: Seq<JsonModel>)
    ensures
        ({
            let body = JsonModel::Object(state::tokens_fields(account, found));
            &&& json::field_of(body, "account"@) == Some(JsonModel::Str(account))
            &&& json::field_of(body, "tokens"@) matches Some(JsonModel::Array(x))
                && x.len() == found.len() && forall|i: int|
                0 <= i < x.len() ==> #[trigger] x[i] == JsonModel::Object(
                    state::token_fields(found[i]),
                )
        }),
{
    reveal_strlit("account");
    assert("account"@.len() == 7);
    reveal_strlit("tokens");
    assert("tokens"@.len() == 6);
    reveal_with_fuel(json::field_from, 4);
}

/// The answer to a request for an account tells all its balances, permissions
/// and actions that were found, and how many actions there are.
pub proof fn law_account_answer_tells(
    account: Seq<char>,
    tokens: Seq<JsonModel>,
    permissions: Seq<JsonModel>,
    actions: Seq<JsonModel>,
    total: JsonModel,
    took_ms: u64,
    lib: u64,
)
    ensures
        ({
            let body = JsonModel::Object(
                state::account_fields(account, tokens, permissions, actions, total, took_ms, lib),
            );
            &&& json::field_of(body, "query_time_ms"@) == Some(JsonModel::Int(took_ms as int))
            &&& json::field_of(body, "account"@) == Some(JsonModel::Str(account))
            &&& json::field_of(body, "lib"@) == Some(JsonModel::Int(lib as int))
            &&& json::field_of(body, "tokens"@) matches Some(JsonModel::Array(x))
                && x.len() == tokens.len() && forall|i: int|
                0 <= i < x.len() ==> #[trigger] x[i] == JsonModel::Object(
                    state::token_fields(tokens[i]),
                )
            &&& json::field_of(body, "permissions"@) == Some(JsonModel::Array(permissions))
            &&& json::field_of(body, "total_actions"@) == Some(told(total, "value"@))
            &&& json::field_of(body, "actions"@) matches Some(JsonModel::Array(x))
                && x.len() == actions.len() && forall|i: int|
                0 <= i < x.len() ==> #[trigger] x[i] == history::stamped(actions[i])
        }),
{
    reveal_strlit("query_time_ms");
    assert("query_time_ms"@.len() == 13);
    reveal_strlit("account");
    assert("account"@.len() == 7);
    reveal_strlit("lib");
    assert("lib"@.len() == 3);
    reveal_strlit("tokens");
    assert("tokens"@.len() == 6);
    reveal_strlit("permissions");
    assert("permissions"@.len() == 11);
    reveal_strlit("total_actions");
    assert("total_actions"@.len() == 13);
    reveal_strlit("actions");
    assert("actions"@.len() == 7);
    assert("query_time_ms"@[0] != "total_actions"@[0]);
    assert("account"@[2] != "actions"@[2]);
    reveal_with_fuel(json::field_from, 9);
}

// ---------------------------------------------------------------------------
// Windows
// ---------------------------------------------------------------------------

/// A window without a position, or one before the start, is at the end of the
/// history: as many of the newest as the offset says, whatever its sign, twenty
/// if it says nothing. One at a position begins there and goes forward, and
/// holds at least one. None holds more than a thousand.
pub proof fn law_windows(pos: Option<i64>, offset: Option<i64>)
    ensures
        ({
            let w = v1::window_of(pos, offset);
            let o: int = match offset {
                Some(n) => n as int,
                None => -20,
            };
            match pos {
                Some(n) => if n >= 0 {
                    &&& !w.newest_first
                    &&& w.from == n
                    &&& 1 <= w.size <= 1000
                    &&& 1 <= o <= 1000 ==> w.size == o
                    &&& o < 1 ==> w.size == 1
                    &&& o > 1000 ==> w.size == 1000
                } else {
                    w == v1::window_of(None, offset)
                },
                None => {
                    &&& w.newest_first
                    &&& w.from == 0
                    &&& w.size <= 1000
                    &&& -1000 <= o <= 1000 ==> (w.size == o || w.size == -o)
                    &&& o < -1000 || o > 1000 ==> w.size == 1000
                },
            }
        }),
{
}

/// The first receipt of an action is the first of its list.
pub proof fn law_first_receipts(a: JsonModel, receipts: Seq<JsonModel>)
    requires
        json::field_of(a, "receipts"@) == Some(JsonModel::Array(receipts)),
        receipts.len() > 0,
    ensures
        v1::first_receipt(a) == receipts[0],
{
}

/// The trace of an action tells its first receipt, the action, its transaction,
/// block and time, and the id of the block.
pub proof fn law_window_traces_tell(a: JsonModel)
    ensures
        ({
            let body = JsonModel::Object(v1::trace_fields(a));
            &&& json::field_of(body, "receipt"@) == Some(v1::first_receipt(a))
            &&& json::field_of(body, "act"@) == Some(told(a, "act"@))
            &&& json::field_of(body, "trx_id"@) == Some(told(a, "trx_id"@))
            &&& json::field_of(body, "block_num"@) == Some(told(a, "block_num"@))
            &&& json::field_of(body, "block_time"@) == Some(told(a, "@timestamp"@))
            &&& json::field_of(body, "producer_block_id"@) == Some(told(a, "block_id"@))
        }),
{
    reveal_strlit("receipt");
    assert("receipt"@.len() == 7);
    reveal_strlit("act");
    assert("act"@.len() == 3);
    reveal_strlit("trx_id");
    assert("trx_id"@.len() == 6);
    reveal_strlit("block_num");
    assert("block_num"@.len() == 9);
    reveal_strlit("block_time");
    assert("block_time"@.len() == 10);
    reveal_strlit("producer_block_id");
    assert("producer_block_id"@.len() == 17);
    reveal_with_fuel(json::field_from, 8);
}

/// An action of a window tells its number, its place, its block and time, and
/// its trace.
pub proof fn law_window_actions_tell(a: JsonModel, place: int)
    ensures
        ({
            let body = JsonModel::Object(v1::action_fields(a, place));
            &&& json::field_of(body, "global_action_seq"@) == Some(told(a, "global_sequence"@))
            &&& json::field_of(body, "account_action_seq"@) == Some(JsonModel::Int(place))
            &&& json::field_of(body, "block_num"@) == Some(told(a, "block_num"@))
            &&& json::field_of(body, "block_time"@) == Some(told(a, "@timestamp"@))
            &&& json::field_of(body, "action_trace"@) == Some(
                JsonModel::Object(v1::trace_fields(a)),
            )
        }),
{
    reveal_strlit("global_action_seq");
    assert("global_action_seq"@.len() == 17);
    reveal_strlit("account_action_seq");
    assert("account_action_seq"@.len() == 18);
    reveal_strlit("block_num");
    assert("block_num"@.len() == 9);
    reveal_strlit("block_time");
    assert("block_time"@.len() == 10);
    reveal_strlit("action_trace");
    assert("action_trace"@.len() == 12);
    reveal_with_fuel(json::field_from, 7);
}

/// The answer to a request for a window tells all actions that were found, the
/// oldest first, with their places from the start of the window on.
pub proof fn law_window_answer_tells(found: Seq<JsonModel>, w: Window, lib: u64)
    ensures
        ({
            let body = JsonModel::Object(v1::actions_fields(found, w, lib));
            &&& json::field_of(body, "last_irreversible_block"@) == Some(JsonModel::Int(lib as int))
            &&& json::field_of(body, "actions"@) matches Some(JsonModel::Array(x))
                && x.len() == found.len() && forall|i: int|
                0 <= i < x.len() ==> #[trigger] x[i] == JsonModel::Object(
                    v1::action_fields(
                        if w.newest_first {
                            found[found.len() - 1 - i]
                        } else {
                            found[i]
                        },
                        w.from + i,
                    ),
                )
        }),
{
    reveal_strlit("last_irreversible_block");
    assert("last_irreversible_block"@.len() == 23);
    reveal_strlit("actions");
    assert("actions"@.len() == 7);
    reveal_with_fuel(json::field_from, 4);
}

/// The short trace of an action tells its first receipt, the action, its block,
/// time and transaction.
pub proof fn law_short_traces_tell(a: JsonModel)
    ensures
        ({
            let body = JsonModel::Object(v1::short_trace(a));
            &&& json::field_of(body, "receipt"@) == Some(v1::first_receipt(a))
            &&& json::field_of(body, "act"@) == Some(told(a, "act"@))
            &&& json::field_of(body, "block_num"@) == Some(told(a, "block_num"@))
            &&& json::field_of(body, "block_time"@) == Some(told(a, "@timestamp"@))
            &&& json::field_of(body, "trx_id"@) == Some(told(a, "trx_id"@))
        }),
{
    reveal_strlit("receipt");
    assert("receipt"@.len() == 7);
    reveal_strlit("act");
    assert("act"@.len() == 3);
    reveal_strlit("block_num");
    assert("block_num"@.len() == 9);
    reveal_strlit("block_time");
    assert("block_time"@.len() == 10);
    reveal_strlit("trx_id");
    assert("trx_id"@.len() == 6);
    reveal_with_fuel(json::field_from, 7);
}

/// The answer to a request for a transaction tells its id, its block and time,
/// the traces of all its actions, and the actions, in their order.
pub proof fn law_v1_transaction_answer_tells(id: Seq<char>, found: Seq<JsonModel>, lib: u64)
    requires
        found.len() > 0,
    ensures
        ({
            let body = JsonModel::Object(v1::transaction_fields(id, found, lib));
            &&& json::field_of(body, "id"@) == Some(JsonModel::Str(id))
            &&& json::field_of(body, "block_num"@) == Some(told(found[0], "block_num"@))
            &&& json::field_of(body, "block_time"@) == Some(told(found[0], "@timestamp"@))
            &&& json::field_of(body, "last_irreversible_block"@) == Some(JsonModel::Int(lib as int))
            &&& json::field_of(body, "traces"@) matches Some(JsonModel::Array(x))
                && x.len() == found.len() && forall|i: int|
                0 <= i < x.len() ==> #[trigger] x[i] == JsonModel::Object(v1::short_trace(found[i]))
            &&& told(told(told(body, "trx"@), "trx"@), "actions"@) matches JsonModel::Array(x)
                && x.len() == found.len() && forall|i: int|
                0 <= i < x.len() ==> #[trigger] x[i] == told(found[i], "act"@)
        }),
{
    reveal_strlit("id");
    assert("id"@.len() == 2);
    reveal_strlit("block_num");
    assert("block_num"@.len() == 9);
    reveal_strlit("block_time");
    assert("block_time"@.len() == 10);
    reveal_strlit("last_irreversible_block");
    assert("last_irreversible_block"@.len() == 23);
    reveal_strlit("traces");
    assert("traces"@.len() == 6);
    reveal_with_fuel(json::field_from, 7);
    reveal_strlit("id");
    assert("id"@.len() == 2);
    reveal_strlit("block_num");
    assert("block_num"@.len() == 9);
    reveal_strlit("block_time");
    assert("block_time"@.len() == 10);
    reveal_strlit("last_irreversible_block");
    assert("last_irreversible_block"@.len() == 23);
    reveal_strlit("traces");
    assert("traces"@.len() == 6);
    reveal_strlit("trx");
    assert("trx"@.len() == 3);
    reveal_strlit("actions");
    assert("actions"@.len() == 7);
    reveal_with_fuel(json::field_from, 8);
}

// ---------------------------------------------------------------------------
// Replies of the index
// ---------------------------------------------------------------------------

/// The documents of a search reply are the sources of all its hits, in their
/// order, and the total is the one that it gives; a reply without hits has no
/// documents.
pub proof fn law_hits(reply: JsonModel)
    ensures
        match told(told(reply, "hits"@), "hits"@) {
            JsonModel::Array(hits) => elastic::hits_of(reply).len() == hits.len() && forall|i: int|
                0 <= i < hits.len() ==> #[trigger] elastic::hits_of(reply)[i] == told(
                    hits[i],
                    "_source"@,
                ),
            _ => elastic::hits_of(reply).len() == 0,
        },
        elastic::total_of(reply) == told(told(reply, "hits"@), "total"@),
{
}

/// Whether an item of a bulk reply is one that failed: a single operation with
/// a status of 300 or more.
pub open spec fn is_failure(item: JsonModel) -> bool {
    item matches JsonModel::Object(f) && f.len() > 0 && (told(f[0].1, "status"@) matches
        JsonModel::Int(code) && 300 <= code <= u64::MAX)
}

/// A bulk reply that reports no errors has no failed items. One that does has as
/// many as are failures: each counts once, and nothing else counts.
pub proof fn law_failures_are_counted(reply: JsonModel, items: Seq<JsonModel>)
    requires
        told(reply, "items"@) == JsonModel::Array(items),
    ensures
        told(reply, "errors"@) != JsonModel::Bool(true) ==> elastic::failed_items(reply) == 0,
        told(reply, "errors"@) == JsonModel::Bool(true) ==> elastic::failed_items(reply)
            == items.filter(|item: JsonModel| is_failure(item)).len(),
{
    lemma_failures(items, items.len());
    assert(items.take(items.len() as int) =~= items);
}

proof fn lemma_failures(items: Seq<JsonModel>, n: nat)
    requires
        n <= items.len(),
    ensures
        elastic::failed_among(items, n) == items.take(n as int).filter(
            |item: JsonModel| is_failure(item),
        ).len(),
    decreases n,
{
    reveal(Seq::filter);
    let all = items.take(n as int);
    if n > 0 {
        lemma_failures(items, (n - 1) as nat);
        assert(all.drop_last() =~= items.take(n - 1));
        assert(all.last() == items[n - 1]);
    }
}

} // verus!
