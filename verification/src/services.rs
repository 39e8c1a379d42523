//! What is agreed with the services around the indexer: how the index keeps
//! the fields that are searched, what the chain API is asked and answers, and
//! what is said of their health.

use crate::antelope::name;
use crate::antelope::name::Name;
use crate::api;
use crate::api::health;
use crate::api::health::PingModel;
use crate::chain;
use crate::chain::{ApiRequestModel, ChainApiKind};
use crate::config;
use crate::elastic;
use crate::elastic::FieldKind;
use crate::json;
use crate::json::{FieldsModel, JsonModel};
use crate::ship::client;
use crate::ship::results::BlockPositionModel;
use crate::ship::traces;
use vstd::prelude::*;

verus! {

// ---------------------------------------------------------------------------
// The index
// ---------------------------------------------------------------------------

/// Whether a field is kept as a type and nothing more is said of it.
pub open spec fn is_kept_as(
    fields: Seq<(Seq<char>, FieldKind)>,
    name: Seq<char>,
    kind: Seq<char>,
) -> bool {
    elastic::properties(fields).contains(
        (name, JsonModel::Object(seq![("type"@, JsonModel::Str(kind))])),
    )
}

proof fn lemma_kept(fields: Seq<(Seq<char>, FieldKind)>, k: int)
    requires
        0 <= k < fields.len(),
    ensures
        elastic::properties(fields).contains(
            (fields[k].0, JsonModel::Object(elastic::mapping(fields[k].1))),
        ),
{
    let all = elastic::properties(fields);
    assert(all[k] == (fields[k].0, JsonModel::Object(elastic::mapping(fields[k].1))));
}

/// The fields by which actions are found are kept as they are, so that a whole
/// value is what is found, and numbers and times by their order. The data of an
/// action differs from contract to contract and is not searched.
pub proof fn law_action_fields_are_kept()
    ensures
        is_kept_as(elastic::action_mapping(), "@timestamp"@, "date"@),
        is_kept_as(elastic::action_mapping(), "global_sequence"@, "long"@),
        is_kept_as(elastic::action_mapping(), "block_num"@, "long"@),
        is_kept_as(elastic::action_mapping(), "block_id"@, "keyword"@),
        is_kept_as(elastic::action_mapping(), "trx_id"@, "keyword"@),
        is_kept_as(elastic::action_mapping(), "producer"@, "keyword"@),
        is_kept_as(elastic::action_mapping(), "act.account"@, "keyword"@),
        is_kept_as(elastic::action_mapping(), "act.name"@, "keyword"@),
        is_kept_as(elastic::action_mapping(), "act.authorization.actor"@, "keyword"@),
        is_kept_as(elastic::action_mapping(), "act.authorization.permission"@, "keyword"@),
        elastic::properties(elastic::action_mapping()).contains(
            (
                "act.data"@,
                JsonModel::Object(
                    seq![
                        ("type"@, JsonModel::Str("object"@)),
                        ("enabled"@, JsonModel::Bool(false)),
                    ],
                ),
            ),
        ),
        is_kept_as(elastic::action_mapping(), "@transfer.from"@, "keyword"@),
        is_kept_as(elastic::action_mapping(), "@transfer.to"@, "keyword"@),
        is_kept_as(elastic::action_mapping(), "@transfer.amount"@, "double"@),
        is_kept_as(elastic::action_mapping(), "@transfer.symbol"@, "keyword"@),
        is_kept_as(elastic::action_mapping(), "@transfer.memo"@, "text"@),
        is_kept_as(elastic::action_mapping(), "@newaccount.newact"@, "keyword"@),
        is_kept_as(elastic::action_mapping(), "@newaccount.creator"@, "keyword"@),
        elastic::properties(elastic::action_mapping()).contains(
            (
                "act.hex_data"@,
                JsonModel::Object(
                    seq![
                        ("type"@, JsonModel::Str("keyword"@)),
                        ("index"@, JsonModel::Bool(false)),
                        ("doc_values"@, JsonModel::Bool(false)),
                    ],
                ),
            ),
        ),
        is_kept_as(elastic::action_mapping(), "notified"@, "keyword"@),
        is_kept_as(elastic::action_mapping(), "receipts.receiver"@, "keyword"@),
        is_kept_as(elastic::action_mapping(), "receipts.global_sequence"@, "long"@),
        is_kept_as(elastic::action_mapping(), "cpu_usage_us"@, "integer"@),
        is_kept_as(elastic::action_mapping(), "net_usage_words"@, "integer"@),
        is_kept_as(elastic::action_mapping(), "action_ordinal"@, "integer"@),
        is_kept_as(elastic::action_mapping(), "creator_action_ordinal"@, "integer"@),
        elastic::properties(elastic::action_mapping()).contains(
            (
                "signatures"@,
                JsonModel::Object(
                    seq![("type"@, JsonModel::Str("keyword"@)), ("index"@, JsonModel::Bool(false))],
                ),
            ),
        ),
{
    let m = elastic::action_mapping();
    lemma_kept(m, 0);
    lemma_kept(m, 1);
    lemma_kept(m, 2);
    lemma_kept(m, 3);
    lemma_kept(m, 4);
    lemma_kept(m, 5);
    lemma_kept(m, 6);
    lemma_kept(m, 7);
    lemma_kept(m, 8);
    lemma_kept(m, 9);
    lemma_kept(m, 10);
    lemma_kept(m, 11);
    lemma_kept(m, 12);
    lemma_kept(m, 13);
    lemma_kept(m, 14);
    lemma_kept(m, 15);
    lemma_kept(m, 16);
    lemma_kept(m, 17);
    lemma_kept(m, 18);
    lemma_kept(m, 19);
    lemma_kept(m, 20);
    lemma_kept(m, 21);
    lemma_kept(m, 22);
    lemma_kept(m, 23);
    lemma_kept(m, 24);
    lemma_kept(m, 25);
    lemma_kept(m, 26);
    assert(elastic::mapping(FieldKind::Date) =~= seq![("type"@, JsonModel::Str("date"@))]);
    assert(elastic::mapping(FieldKind::Double) =~= seq![("type"@, JsonModel::Str("double"@))]);
    assert(elastic::mapping(FieldKind::Integer) =~= seq![("type"@, JsonModel::Str("integer"@))]);
    assert(elastic::mapping(FieldKind::Keyword) =~= seq![("type"@, JsonModel::Str("keyword"@))]);
    assert(elastic::mapping(FieldKind::Long) =~= seq![("type"@, JsonModel::Str("long"@))]);
    assert(elastic::mapping(FieldKind::Stored) =~= seq![
        ("type"@, JsonModel::Str("keyword"@)),
        ("index"@, JsonModel::Bool(false)),
        ("doc_values"@, JsonModel::Bool(false)),
    ]);
    assert(elastic::mapping(FieldKind::Text) =~= seq![("type"@, JsonModel::Str("text"@))]);
    assert(
        elastic::mapping(FieldKind::Unindexed) =~= seq![
            ("type"@, JsonModel::Str("keyword"@)),
            ("index"@, JsonModel::Bool(false)),
        ]
    );
    assert(
        elastic::mapping(FieldKind::Unparsed) =~= seq![
            ("type"@, JsonModel::Str("object"@)),
            ("enabled"@, JsonModel::Bool(false)),
        ]
    );
}

/// The fields of blocks are kept as they are, and numbers and times by their
/// order.
pub proof fn law_block_fields_are_kept()
    ensures
        is_kept_as(elastic::block_mapping(), "@timestamp"@, "date"@),
        is_kept_as(elastic::block_mapping(), "block_num"@, "long"@),
        is_kept_as(elastic::block_mapping(), "block_id"@, "keyword"@),
        is_kept_as(elastic::block_mapping(), "prev_id"@, "keyword"@),
        is_kept_as(elastic::block_mapping(), "producer"@, "keyword"@),
        is_kept_as(elastic::block_mapping(), "schedule_version"@, "integer"@),
        is_kept_as(elastic::block_mapping(), "trx_count"@, "integer"@),
        is_kept_as(elastic::block_mapping(), "cpu_usage_us"@, "long"@),
        is_kept_as(elastic::block_mapping(), "net_usage_words"@, "long"@),
{
    let m = elastic::block_mapping();
    lemma_kept(m, 0);
    lemma_kept(m, 1);
    lemma_kept(m, 2);
    lemma_kept(m, 3);
    lemma_kept(m, 4);
    lemma_kept(m, 5);
    lemma_kept(m, 6);
    lemma_kept(m, 7);
    lemma_kept(m, 8);
    assert(elastic::mapping(FieldKind::Date) =~= seq![("type"@, JsonModel::Str("date"@))]);
    assert(elastic::mapping(FieldKind::Integer) =~= seq![("type"@, JsonModel::Str("integer"@))]);
    assert(elastic::mapping(FieldKind::Keyword) =~= seq![("type"@, JsonModel::Str("keyword"@))]);
    assert(elastic::mapping(FieldKind::Long) =~= seq![("type"@, JsonModel::Str("long"@))]);
}

/// The fields by which rows are found are kept as they are. The value of a row
/// differs from contract to contract and is not searched.
pub proof fn law_delta_fields_are_kept()
    ensures
        is_kept_as(elastic::delta_mapping(), "@timestamp"@, "date"@),
        is_kept_as(elastic::delta_mapping(), "block_num"@, "long"@),
        is_kept_as(elastic::delta_mapping(), "block_id"@, "keyword"@),
        is_kept_as(elastic::delta_mapping(), "code"@, "keyword"@),
        is_kept_as(elastic::delta_mapping(), "scope"@, "keyword"@),
        is_kept_as(elastic::delta_mapping(), "table"@, "keyword"@),
        is_kept_as(elastic::delta_mapping(), "primary_key"@, "keyword"@),
        is_kept_as(elastic::delta_mapping(), "payer"@, "keyword"@),
        is_kept_as(elastic::delta_mapping(), "present"@, "boolean"@),
        elastic::properties(elastic::delta_mapping()).contains(
            (
                "data"@,
                JsonModel::Object(
                    seq![
                        ("type"@, JsonModel::Str("object"@)),
                        ("enabled"@, JsonModel::Bool(false)),
                    ],
                ),
            ),
        ),
        elastic::properties(elastic::delta_mapping()).contains(
            (
                "value_hex"@,
                JsonModel::Object(
                    seq![
                        ("type"@, JsonModel::Str("keyword"@)),
                        ("index"@, JsonModel::Bool(false)),
                        ("doc_values"@, JsonModel::Bool(false)),
                    ],
                ),
            ),
        ),
{
    let m = elastic::delta_mapping();
    lemma_kept(m, 0);
    lemma_kept(m, 1);
    lemma_kept(m, 2);
    lemma_kept(m, 3);
    lemma_kept(m, 4);
    lemma_kept(m, 5);
    lemma_kept(m, 6);
    lemma_kept(m, 7);
    lemma_kept(m, 8);
    lemma_kept(m, 9);
    lemma_kept(m, 10);
    assert(elastic::mapping(FieldKind::Boolean) =~= seq![("type"@, JsonModel::Str("boolean"@))]);
    assert(elastic::mapping(FieldKind::Date) =~= seq![("type"@, JsonModel::Str("date"@))]);
    assert(elastic::mapping(FieldKind::Keyword) =~= seq![("type"@, JsonModel::Str("keyword"@))]);
    assert(elastic::mapping(FieldKind::Long) =~= seq![("type"@, JsonModel::Str("long"@))]);
    assert(elastic::mapping(FieldKind::Stored) =~= seq![
        ("type"@, JsonModel::Str("keyword"@)),
        ("index"@, JsonModel::Bool(false)),
        ("doc_values"@, JsonModel::Bool(false)),
    ]);
    assert(
        elastic::mapping(FieldKind::Unparsed) =~= seq![
            ("type"@, JsonModel::Str("object"@)),
            ("enabled"@, JsonModel::Bool(false)),
        ]
    );
}

/// The fields by which ABIs are found are kept as they are. The ABI itself is
/// not searched.
pub proof fn law_abi_fields_are_kept()
    ensures
        is_kept_as(elastic::abi_mapping(), "@timestamp"@, "date"@),
        is_kept_as(elastic::abi_mapping(), "block_num"@, "long"@),
        is_kept_as(elastic::abi_mapping(), "account"@, "keyword"@),
        elastic::properties(elastic::abi_mapping()).contains(
            (
                "abi"@,
                JsonModel::Object(
                    seq![
                        ("type"@, JsonModel::Str("keyword"@)),
                        ("index"@, JsonModel::Bool(false)),
                        ("doc_values"@, JsonModel::Bool(false)),
                    ],
                ),
            ),
        ),
        is_kept_as(elastic::abi_mapping(), "actions"@, "keyword"@),
        is_kept_as(elastic::abi_mapping(), "tables"@, "keyword"@),
{
    let m = elastic::abi_mapping();
    lemma_kept(m, 0);
    lemma_kept(m, 1);
    lemma_kept(m, 2);
    lemma_kept(m, 3);
    lemma_kept(m, 4);
    lemma_kept(m, 5);
    assert(elastic::mapping(FieldKind::Date) =~= seq![("type"@, JsonModel::Str("date"@))]);
    assert(elastic::mapping(FieldKind::Keyword) =~= seq![("type"@, JsonModel::Str("keyword"@))]);
    assert(elastic::mapping(FieldKind::Long) =~= seq![("type"@, JsonModel::Str("long"@))]);
    assert(elastic::mapping(FieldKind::Stored) =~= seq![
        ("type"@, JsonModel::Str("keyword"@)),
        ("index"@, JsonModel::Bool(false)),
        ("doc_values"@, JsonModel::Bool(false)),
    ]);
}

/// The fields by which permissions are found are kept as they are: every key
/// and every controlling account as a whole.
pub proof fn law_perm_fields_are_kept()
    ensures
        is_kept_as(elastic::perm_mapping(), "block_num"@, "long"@),
        is_kept_as(elastic::perm_mapping(), "owner"@, "keyword"@),
        is_kept_as(elastic::perm_mapping(), "name"@, "keyword"@),
        is_kept_as(elastic::perm_mapping(), "parent"@, "keyword"@),
        is_kept_as(elastic::perm_mapping(), "last_updated"@, "date"@),
        is_kept_as(elastic::perm_mapping(), "keys"@, "keyword"@),
        is_kept_as(elastic::perm_mapping(), "accounts"@, "keyword"@),
        is_kept_as(elastic::perm_mapping(), "threshold"@, "integer"@),
{
    let m = elastic::perm_mapping();
    lemma_kept(m, 0);
    lemma_kept(m, 1);
    lemma_kept(m, 2);
    lemma_kept(m, 3);
    lemma_kept(m, 4);
    lemma_kept(m, 5);
    lemma_kept(m, 6);
    lemma_kept(m, 7);
    assert(elastic::mapping(FieldKind::Date) =~= seq![("type"@, JsonModel::Str("date"@))]);
    assert(elastic::mapping(FieldKind::Integer) =~= seq![("type"@, JsonModel::Str("integer"@))]);
    assert(elastic::mapping(FieldKind::Keyword) =~= seq![("type"@, JsonModel::Str("keyword"@))]);
    assert(elastic::mapping(FieldKind::Long) =~= seq![("type"@, JsonModel::Str("long"@))]);
}

/// The fields by which balances are found are kept as they are, and the amount
/// by its size.
pub proof fn law_token_fields_are_kept()
    ensures
        is_kept_as(elastic::token_mapping(), "block_num"@, "long"@),
        is_kept_as(elastic::token_mapping(), "code"@, "keyword"@),
        is_kept_as(elastic::token_mapping(), "scope"@, "keyword"@),
        is_kept_as(elastic::token_mapping(), "symbol"@, "keyword"@),
        is_kept_as(elastic::token_mapping(), "precision"@, "integer"@),
        is_kept_as(elastic::token_mapping(), "amount"@, "double"@),
{
    let m = elastic::token_mapping();
    lemma_kept(m, 0);
    lemma_kept(m, 1);
    lemma_kept(m, 2);
    lemma_kept(m, 3);
    lemma_kept(m, 4);
    lemma_kept(m, 5);
    assert(elastic::mapping(FieldKind::Double) =~= seq![("type"@, JsonModel::Str("double"@))]);
    assert(elastic::mapping(FieldKind::Integer) =~= seq![("type"@, JsonModel::Str("integer"@))]);
    assert(elastic::mapping(FieldKind::Keyword) =~= seq![("type"@, JsonModel::Str("keyword"@))]);
    assert(elastic::mapping(FieldKind::Long) =~= seq![("type"@, JsonModel::Str("long"@))]);
}

/// There is an index for every kind of document, each with its own fields and
/// the shards and replicas that are asked for.
pub proof fn law_indices(shards: u32, replicas: u32)
    ensures
        ({
            let all = elastic::definitions(shards, replicas);
            &&& all.len() == 6
            &&& all.contains(
                ("action"@, elastic::definition(shards, replicas, elastic::action_mapping())),
            )
            &&& all.contains(
                ("block"@, elastic::definition(shards, replicas, elastic::block_mapping())),
            )
            &&& all.contains(
                ("delta"@, elastic::definition(shards, replicas, elastic::delta_mapping())),
            )
            &&& all.contains(
                ("abi"@, elastic::definition(shards, replicas, elastic::abi_mapping())),
            )
            &&& all.contains(
                ("perm"@, elastic::definition(shards, replicas, elastic::perm_mapping())),
            )
            &&& all.contains(
                ("token"@, elastic::definition(shards, replicas, elastic::token_mapping())),
            )
        }),
{
    let all = elastic::definitions(shards, replicas);
    assert(all[0].0 == "action"@ && all[1].0 == "block"@ && all[2].0 == "delta"@);
    assert(all[3].0 == "abi"@ && all[4].0 == "perm"@ && all[5].0 == "token"@);
}

/// The definition of an index tells its shards and replicas, and the mapping of
/// each of its fields in its place.
pub proof fn law_definitions_tell(
    shards: u32,
    replicas: u32,
    fields: Seq<(Seq<char>, FieldKind)>,
)
    ensures
        ({
            let d = elastic::definition(shards, replicas, fields);
            &&& json::field_of(d, "settings"@) matches Some(s) && json::field_of(
                s,
                "number_of_shards"@,
            ) == Some(JsonModel::Int(shards as int)) && json::field_of(s, "number_of_replicas"@)
                == Some(JsonModel::Int(replicas as int))
            &&& json::field_of(d, "mappings"@) matches Some(m) && json::field_of(m, "properties"@)
                == Some(JsonModel::Object(elastic::properties(fields)))
        }),
{
    reveal_strlit("settings");
    assert("settings"@.len() == 8);
    reveal_strlit("mappings");
    assert("mappings"@.len() == 8);
    reveal_strlit("number_of_shards");
    assert("number_of_shards"@.len() == 16);
    reveal_strlit("number_of_replicas");
    assert("number_of_replicas"@.len() == 18);
    reveal_strlit("refresh_interval");
    assert("refresh_interval"@.len() == 16);
    reveal_strlit("properties");
    assert("properties"@.len() == 10);
    assert("settings"@[0] != "mappings"@[0]);
    assert("number_of_shards"@[0] != "refresh_interval"@[0]);
    reveal_with_fuel(json::field_from, 5);
    let s = JsonModel::Object(elastic::settings(shards, replicas));
    assert(json::field_of(s, "number_of_shards"@) == Some(JsonModel::Int(shards as int)));
    assert(json::field_of(s, "number_of_replicas"@) == Some(JsonModel::Int(replicas as int)));
}

// ---------------------------------------------------------------------------
// The chain API
// ---------------------------------------------------------------------------

/// A JSON-RPC request tells its version, number, method and parameters.
pub proof fn law_rpc_requests_tell(id: u64, method: Seq<char>, params: JsonModel)
    ensures
        ({
            let body = JsonModel::Object(chain::rpc_fields(id, method, params));
            &&& json::field_of(body, "jsonrpc"@) == Some(JsonModel::Str("2.0"@))
            &&& json::field_of(body, "id"@) == Some(JsonModel::Int(id as int))
            &&& json::field_of(body, "method"@) == Some(JsonModel::Str(method))
            &&& json::field_of(body, "params"@) == Some(params)
        }),
{
    reveal_strlit("jsonrpc");
    assert("jsonrpc"@.len() == 7);
    reveal_strlit("id");
    assert("id"@.len() == 2);
    reveal_strlit("method");
    assert("method"@.len() == 6);
    reveal_strlit("params");
    assert("params"@.len() == 6);
    assert("method"@[0] != "params"@[0]);
    reveal_with_fuel(json::field_from, 6);
}

/// An ABI is asked for by the text of the account's name, of either dialect.
pub proof fn law_abi_requests_name_the_account(
    base: Seq<char>,
    kind: ChainApiKind,
    account: Name,
    id: u64,
)
    ensures
        chain::abi_request_of(base, kind, account, id) matches ApiRequestModel::Post(url, body)
            && match kind {
            ChainApiKind::Antelope => url == base + "/v1/chain/get_abi"@ && json::field_of(
                body,
                "account_name"@,
            ) == Some(JsonModel::Str(name::name_text(account.0))),
            ChainApiKind::PulseVm => url == base && json::field_of(body, "method"@) == Some(
                JsonModel::Str("pulsevm.getABI"@),
            ) && (json::field_of(body, "params"@) matches Some(params) && json::field_of(
                params,
                "account_name"@,
            ) == Some(JsonModel::Str(name::name_text(account.0)))),
        },
{
    law_rpc_requests_tell(id, "pulsevm.getABI"@, chain::account_params(account));
    reveal_with_fuel(json::field_from, 3);
}

/// Chain info is asked for of either dialect, each in its own way.
pub proof fn law_info_requests(base: Seq<char>, id: u64)
    ensures
        chain::info_request_of(base, ChainApiKind::Antelope, id) == ApiRequestModel::Get(
            base + "/v1/chain/get_info"@,
        ),
        chain::info_request_of(base, ChainApiKind::PulseVm, id) matches ApiRequestModel::Post(
            url,
            body,
        ) && url == base && json::field_of(body, "method"@) == Some(
            JsonModel::Str("pulsevm.getInfo"@),
        ) && json::field_of(body, "id"@) == Some(JsonModel::Int(id as int)),
{
    law_rpc_requests_tell(id, "pulsevm.getInfo"@, JsonModel::Null);
}

/// A transaction is told to be executed exactly if its status says so, and each
/// status that there is has a name of its own.
pub proof fn law_status_names(a: u8, b: u8)
    ensures
        traces::status_text(a) == "executed"@ <==> a == 0,
        a <= 5 && b <= 5 && a != b ==> traces::status_text(a) != traces::status_text(b),
{
    reveal_strlit("executed");
    assert("executed"@.len() == 8);
    reveal_strlit("soft_fail");
    assert("soft_fail"@.len() == 9);
    reveal_strlit("hard_fail");
    assert("hard_fail"@.len() == 9);
    reveal_strlit("delayed");
    assert("delayed"@.len() == 7);
    reveal_strlit("expired");
    assert("expired"@.len() == 7);
    reveal_strlit("unknown");
    assert("unknown"@.len() == 7);
    assert("soft_fail"@[0] != "hard_fail"@[0]);
    assert("delayed"@[0] != "expired"@[0]);
    assert("delayed"@[0] != "unknown"@[0]);
    assert("expired"@[0] != "unknown"@[0]);
}

/// Whether a reply reports an error.
pub open spec fn reports_error(reply: JsonModel) -> bool {
    json::field_of(reply, "error"@) matches Some(e) && e !is Null
}

/// A JSON-RPC reply gives its result exactly if it has one and reports no
/// error. An ABI is given by a reply that holds one, and null counts as none.
pub proof fn law_replies_give_results(reply: JsonModel, v: JsonModel)
    ensures
        chain::rpc_result_of(reply) == Some(v) <==> !reports_error(reply) && json::field_of(
            reply,
            "result"@,
        ) == Some(v),
        chain::abi_of_reply(ChainApiKind::Antelope, reply) == Some(v) <==> v !is Null
            && json::field_of(reply, "abi"@) == Some(v),
        chain::abi_of_reply(ChainApiKind::PulseVm, reply) == Some(v) <==> v !is Null
            && !reports_error(reply) && json::field_of(reply, "result"@) == Some(v),
{
}

/// A stream that stops at a block ends with the first block that is not before
/// it; one that does not stop goes on.
pub proof fn law_streams_end(stop_block: u32, at: BlockPositionModel)
    ensures
        client::ends_stream(stop_block, Some(at)) <==> 0 < stop_block <= at.block_num,
        !client::ends_stream(stop_block, None),
{
}

/// By default there are at most two decoders, and one processor is left to the
/// others.
pub proof fn law_default_workers(cpus: usize)
    ensures
        config::default_workers(Some(cpus)) <= 2,
        cpus > 0 ==> config::default_workers(Some(cpus)) < cpus,
        1 <= cpus <= 3 ==> config::default_workers(Some(cpus)) == cpus - 1,
        cpus >= 3 ==> config::default_workers(Some(cpus)) == 2,
        config::default_workers(None) == 0,
{
}

// ---------------------------------------------------------------------------
// Health
// ---------------------------------------------------------------------------

/// The indexer keeps up exactly if the head of the chain is known and less than
/// twenty blocks ahead of the last indexed block.
pub proof fn law_keeping_up(info: JsonModel, head: u64, last_indexed: nat)
    requires
        json::field_of(info, "head_block_num"@) == Some(JsonModel::Int(head as int)),
    ensures
        health::head_of(info) == head,
        health::keeps_up(head as nat, last_indexed) <==> 0 < head < last_indexed + 20,
        !health::keeps_up(0, last_indexed),
{
}

/// Elasticsearch is well exactly if it told its version, which is told on; else
/// the error is.
pub proof fn law_index_health_tells(ping: PingModel, took_ms: u64)
    ensures
        ({
            let body = JsonModel::Object(health::elastic_fields(ping, took_ms));
            &&& json::field_of(body, "service"@) == Some(JsonModel::Str("Elasticsearch"@))
            &&& json::field_of(body, "status"@) == Some(JsonModel::Str(
                if ping is Version {
                    "OK"@
                } else {
                    "Error"@
                },
            ))
            &&& json::field_of(body, "time"@) == Some(JsonModel::Int(took_ms as int))
            &&& json::field_of(body, "service_data"@) matches Some(data) && match ping {
                PingModel::Version(v) => json::field_of(data, "version"@) == Some(v),
                PingModel::Error(e) => json::field_of(data, "error"@) == Some(JsonModel::Str(e)),
            }
        }),
{
    reveal_strlit("service");
    assert("service"@.len() == 7);
    reveal_strlit("status");
    assert("status"@.len() == 6);
    reveal_strlit("time");
    assert("time"@.len() == 4);
    reveal_with_fuel(json::field_from, 5);
    reveal_strlit("service");
    assert("service"@.len() == 7);
    reveal_strlit("status");
    assert("status"@.len() == 6);
    reveal_strlit("service_data");
    assert("service_data"@.len() == 12);
    reveal_strlit("time");
    assert("time"@.len() == 4);
    reveal_with_fuel(json::field_from, 6);
}

/// The chain API is well exactly if it told something of the chain; its head,
/// its last irreversible block and its id are told on.
pub proof fn law_chain_health_tells(service: Seq<char>, info: JsonModel, took_ms: u64)
    ensures
        ({
            let body = JsonModel::Object(health::chain_fields(service, info, took_ms));
            &&& json::field_of(body, "service"@) == Some(JsonModel::Str(service))
            &&& json::field_of(body, "status"@) == Some(JsonModel::Str(
                if info is Null {
                    "Error"@
                } else {
                    "OK"@
                },
            ))
            &&& json::field_of(body, "time"@) == Some(JsonModel::Int(took_ms as int))
            &&& info is Null ==> json::field_of(body, "service_data"@) is None
            &&& info !is Null ==> json::field_of(body, "service_data"@) == Some(
                JsonModel::Object(health::chain_data(info)),
            )
        }),
{
    reveal_strlit("service");
    assert("service"@.len() == 7);
    reveal_strlit("status");
    assert("status"@.len() == 6);
    reveal_strlit("time");
    assert("time"@.len() == 4);
    reveal_with_fuel(json::field_from, 5);
    reveal_strlit("service");
    assert("service"@.len() == 7);
    reveal_strlit("status");
    assert("status"@.len() == 6);
    reveal_strlit("service_data");
    assert("service_data"@.len() == 12);
    reveal_strlit("time");
    assert("time"@.len() == 4);
    reveal_with_fuel(json::field_from, 6);
}

/// What is told of the chain is what the chain API told.
pub proof fn law_chain_data_tells(info: JsonModel)
    ensures
        ({
            let body = JsonModel::Object(health::chain_data(info));
            &&& json::field_of(body, "head_block_num"@) == Some(
                json::field_or_null(info, "head_block_num"@),
            )
            &&& json::field_of(body, "last_irreversible_block"@) == Some(
                json::field_or_null(info, "last_irreversible_block_num"@),
            )
            &&& json::field_of(body, "chain_id"@) == Some(json::field_or_null(info, "chain_id"@))
        }),
{
    reveal_strlit("head_block_num");
    assert("head_block_num"@.len() == 14);
    reveal_strlit("last_irreversible_block");
    assert("last_irreversible_block"@.len() == 23);
    reveal_strlit("chain_id");
    assert("chain_id"@.len() == 8);
    reveal_with_fuel(json::field_from, 5);
}

/// The indexer is well exactly if it keeps up; how far it is, and the head, are
/// told.
pub proof fn law_indexer_health_tells(head: nat, last_indexed: u32)
    ensures
        ({
            let body = JsonModel::Object(health::indexer_fields(head, last_indexed));
            &&& json::field_of(body, "service"@) == Some(JsonModel::Str("Indexer"@))
            &&& json::field_of(body, "status"@) == Some(JsonModel::Str(
                if 0 < head < last_indexed + 20 {
                    "OK"@
                } else {
                    "Warning"@
                },
            ))
            &&& json::field_of(body, "service_data"@) matches Some(data) && json::field_of(
                data,
                "last_indexed_block"@,
            ) == Some(JsonModel::Int(last_indexed as int)) && json::field_of(
                data,
                "head_block_num"@,
            ) == Some(JsonModel::Int(head as int))
        }),
{
    reveal_strlit("service");
    assert("service"@.len() == 7);
    reveal_strlit("status");
    assert("status"@.len() == 6);
    reveal_with_fuel(json::field_from, 4);
    reveal_strlit("service");
    assert("service"@.len() == 7);
    reveal_strlit("status");
    assert("status"@.len() == 6);
    reveal_strlit("service_data");
    assert("service_data"@.len() == 12);
    reveal_strlit("last_indexed_block");
    assert("last_indexed_block"@.len() == 18);
    reveal_strlit("head_block_num");
    assert("head_block_num"@.len() == 14);
    reveal_with_fuel(json::field_from, 5);
    let data = json::field_of(
        JsonModel::Object(health::indexer_fields(head, last_indexed)),
        "service_data"@,
    )->0;
    assert(json::field_of(data, "last_indexed_block"@) == Some(
        JsonModel::Int(last_indexed as int),
    ));
    assert(json::field_of(data, "head_block_num"@) == Some(JsonModel::Int(head as int)));
}

/// The answer to a request for health tells of the index, of the chain API and
/// of the indexer, in this order.
pub proof fn law_health_answer_tells(version: Seq<char>, chain: Seq<char>, found: health::Findings)
    ensures
        ({
            let body = JsonModel::Object(health::health_fields(version, chain, found));
            &&& json::field_of(body, "version"@) == Some(JsonModel::Str(version))
            &&& json::field_of(body, "chain"@) == Some(JsonModel::Str(chain))
            &&& json::field_of(body, "health"@) matches Some(JsonModel::Array(x)) && x.len() == 3
                && x[0] == JsonModel::Object(
                health::elastic_fields(found.elastic.deep_view(), found.elastic_ms),
            ) && x[1] == JsonModel::Object(
                health::chain_fields(found.service@, found.info.deep_view(), found.info_ms),
            ) && x[2] == JsonModel::Object(
                health::indexer_fields(
                    health::head_of(found.info.deep_view()),
                    found.last_indexed,
                ),
            )
        }),
{
    reveal_strlit("version");
    assert("version"@.len() == 7);
    reveal_strlit("chain");
    assert("chain"@.len() == 5);
    reveal_strlit("health");
    assert("health"@.len() == 6);
    reveal_with_fuel(json::field_from, 5);
}

/// What the API tells of itself: its name, its version, its chain and where it
/// can be asked.
pub proof fn law_root_answer_tells(version: Seq<char>, chain: Seq<char>)
    ensures
        ({
            let body = JsonModel::Object(api::root_fields(version, chain));
            &&& json::field_of(body, "name"@) == Some(JsonModel::Str("hyperion-rs"@))
            &&& json::field_of(body, "version"@) == Some(JsonModel::Str(version))
            &&& json::field_of(body, "chain"@) == Some(JsonModel::Str(chain))
            &&& json::field_of(body, "endpoints"@) == Some(JsonModel::Array(api::endpoints()))
        }),
{
    reveal_strlit("name");
    assert("name"@.len() == 4);
    reveal_strlit("version");
    assert("version"@.len() == 7);
    reveal_strlit("chain");
    assert("chain"@.len() == 5);
    reveal_strlit("endpoints");
    assert("endpoints"@.len() == 9);
    reveal_with_fuel(json::field_from, 6);
}

/// A field that is there is given as it is; for one that is not, null is.
pub proof fn law_missing_fields_are_null(fields: FieldsModel, name: Seq<char>, v: JsonModel)
    ensures
        json::field_of(JsonModel::Object(fields), name) == Some(v) ==> json::field_or_null(
            JsonModel::Object(fields),
            name,
        ) == v,
        json::field_of(JsonModel::Object(fields), name) is None ==> json::field_or_null(
            JsonModel::Object(fields),
            name,
        ) is Null,
{
}

/// A field of an object is the first one of that name: it is found exactly if
/// there is one.
pub proof fn law_fields_are_found(fields: FieldsModel, name: Seq<char>, k: int)
    requires
        0 <= k < fields.len(),
        fields[k].0 == name,
        forall|j: int| 0 <= j < k ==> (#[trigger] fields[j]).0 != name,
    ensures
        json::field_of(JsonModel::Object(fields), name) == Some(fields[k].1),
{
    lemma_first(fields, name, 0, k);
}

proof fn lemma_first(fields: FieldsModel, name: Seq<char>, from: nat, k: int)
    requires
        from <= k < fields.len(),
        fields[k].0 == name,
        forall|j: int| from <= j < k ==> (#[trigger] fields[j]).0 != name,
    ensures
        json::field_from(fields, name, from) == k,
    decreases k - from,
{
    if from < k {
        lemma_first(fields, name, from + 1, k);
    }
}

} // verus!
