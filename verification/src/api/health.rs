//! Whether the services that the API rests on are well.

use crate::json;
use crate::json::{put, string, FieldsModel, Json, JsonModel};
use crate::lists::{no_items, push_item};
use vstd::prelude::*;

verus! {

/// How long the chain info may be reused, in milliseconds: head and last
/// irreversible block move every 500 ms, and every answer tells them.
pub const INFO_MAX_AGE_MS: u64 = 2000;

/// Whether chain info of an age can be used again.
pub fn is_fresh(age_ms: u64) -> (r: bool)
    ensures
        r == (age_ms < INFO_MAX_AGE_MS),
{
    age_ms < INFO_MAX_AGE_MS
}

/// Whether a service answered: with the version it told, or an error.
pub enum Ping {
    Version(Json),
    Error(String),
}

pub enum PingModel {
    Version(JsonModel),
    Error(Seq<char>),
}

impl DeepView for Ping {
    type V = PingModel;

    open spec fn deep_view(&self) -> PingModel {
        match self {
            Ping::Version(v) => PingModel::Version(v.deep_view()),
            Ping::Error(e) => PingModel::Error(e@),
        }
    }
}

/// The version that Elasticsearch tells of itself.
pub fn elastic_version(info: &Json) -> (r: Json)
    ensures
        r.deep_view() == json::field_or_null(
            json::field_or_null(info.deep_view(), "version"@),
            "number"@,
        ),
{
    match info.field("version") {
        Some(v) => v.field_copy("number"),
        None => Json::Null,
    }
}

/// How Elasticsearch is.
pub open spec fn elastic_fields(ping: PingModel, took_ms: u64) -> FieldsModel {
    seq![
        ("service"@, JsonModel::Str("Elasticsearch"@)),
        (
            "status"@,
            match ping {
                PingModel::Version(_) => JsonModel::Str("OK"@),
                PingModel::Error(_) => JsonModel::Str("Error"@),
            },
        ),
        (
            "service_data"@,
            match ping {
                PingModel::Version(v) => JsonModel::Object(seq![("version"@, v)]),
                PingModel::Error(e) => JsonModel::Object(seq![("error"@, JsonModel::Str(e))]),
            },
        ),
        ("time"@, JsonModel::Int(took_ms as int)),
    ]
}

fn make_elastic_fields(ping: Ping, took_ms: u64) -> (r: Json)
    ensures
        r.deep_view() == JsonModel::Object(elastic_fields(ping.deep_view(), took_ms)),
{
    let ghost due = elastic_fields(ping.deep_view(), took_ms);
    let (status, data) = match ping {
        Ping::Version(v) => ("OK", json::single("version", v)),
        Ping::Error(e) => ("Error", json::single("error", Json::Str(e))),
    };
    let mut f: Vec<(String, Json)> = no_items();
    put(&mut f, "service", string("Elasticsearch"));
    put(&mut f, "status", string(status));
    put(&mut f, "service_data", data);
    put(&mut f, "time", Json::Int(took_ms as i128));
    assert(f.deep_view() == due);
    json::object(f)
}

/// What the chain API tells of the chain.
pub open spec fn chain_data(info: JsonModel) -> FieldsModel {
    seq![
        ("head_block_num"@, json::field_or_null(info, "head_block_num"@)),
        ("last_irreversible_block"@, json::field_or_null(info, "last_irreversible_block_num"@)),
        ("chain_id"@, json::field_or_null(info, "chain_id"@)),
    ]
}

fn make_chain_data(info: &Json) -> (r: Json)
    ensures
        r.deep_view() == JsonModel::Object(chain_data(info.deep_view())),
{
    let mut f: Vec<(String, Json)> = no_items();
    put(&mut f, "head_block_num", info.field_copy("head_block_num"));
    put(&mut f, "last_irreversible_block", info.field_copy("last_irreversible_block_num"));
    put(&mut f, "chain_id", info.field_copy("chain_id"));
    assert(f.deep_view() == chain_data(info.deep_view()));
    json::object(f)
}

/// How the chain API is: null stands for no info.
pub open spec fn chain_fields(
    service: Seq<char>,
    info: JsonModel,
    took_ms: u64,
) -> FieldsModel {
    if info is Null {
        seq![
            ("service"@, JsonModel::Str(service)),
            ("status"@, JsonModel::Str("Error"@)),
            ("time"@, JsonModel::Int(took_ms as int)),
        ]
    } else {
        seq![
            ("service"@, JsonModel::Str(service)),
            ("status"@, JsonModel::Str("OK"@)),
            ("service_data"@, JsonModel::Object(chain_data(info))),
            ("time"@, JsonModel::Int(took_ms as int)),
        ]
    }
}

fn make_chain_fields(service: &str, info: &Json, took_ms: u64) -> (r: Json)
    ensures
        r.deep_view() == JsonModel::Object(chain_fields(service@, info.deep_view(), took_ms)),
{
    let mut f: Vec<(String, Json)> = no_items();
    put(&mut f, "service", string(service));
    if info.is_null() {
        put(&mut f, "status", string("Error"));
    } else {
        put(&mut f, "status", string("OK"));
        put(&mut f, "service_data", make_chain_data(info));
    }
    put(&mut f, "time", Json::Int(took_ms as i128));
    assert(f.deep_view() == chain_fields(service@, info.deep_view(), took_ms));
    json::object(f)
}

/// The head of the chain, as far as it is known.
pub open spec fn head_of(info: JsonModel) -> nat {
    match json::as_unsigned(json::field_or_null(info, "head_block_num"@)) {
        Some(n) => n,
        None => 0,
    }
}

/// Whether the indexer keeps up: the head is known, and less than 20 blocks
/// away.
pub open spec fn keeps_up(head: nat, last_indexed: nat) -> bool {
    head > 0 && head - last_indexed < 20
}

/// How the indexer is.
pub open spec fn indexer_fields(head: nat, last_indexed: u32) -> FieldsModel {
    seq![
        ("service"@, JsonModel::Str("Indexer"@)),
        (
            "status"@,
            if keeps_up(head, last_indexed as nat) {
                JsonModel::Str("OK"@)
            } else {
                JsonModel::Str("Warning"@)
            },
        ),
        (
            "service_data"@,
            JsonModel::Object(
                seq![
                    ("last_indexed_block"@, JsonModel::Int(last_indexed as int)),
                    ("head_block_num"@, JsonModel::Int(head as int)),
                ],
            ),
        ),
    ]
}

fn make_indexer_fields(head: u64, last_indexed: u32) -> (r: Json)
    ensures
        r.deep_view() == JsonModel::Object(indexer_fields(head as nat, last_indexed)),
{
    let seen: u64 = if (last_indexed as u64) < head {
        last_indexed as u64
    } else {
        head
    };
    let status: &str = if head > 0 && head - seen < 20 {
        "OK"
    } else {
        "Warning"
    };
    let mut d: Vec<(String, Json)> = no_items();
    put(&mut d, "last_indexed_block", Json::Int(last_indexed as i128));
    put(&mut d, "head_block_num", Json::Int(head as i128));
    assert(d.deep_view() == seq![
        ("last_indexed_block"@, JsonModel::Int(last_indexed as int)),
        ("head_block_num"@, JsonModel::Int(head as int)),
    ]);
    let mut f: Vec<(String, Json)> = no_items();
    put(&mut f, "service", string("Indexer"));
    put(&mut f, "status", string(status));
    put(&mut f, "service_data", json::object(d));
    assert(f.deep_view() == indexer_fields(head as nat, last_indexed));
    json::object(f)
}

/// The head of the chain, as far as it is known.
pub fn head_block(info: &Json) -> (r: u64)
    ensures
        r == head_of(info.deep_view()),
{
    match info.field("head_block_num") {
        Some(v) => match v.as_u64() {
            Some(n) => n,
            None => 0,
        },
        None => 0,
    }
}

/// The last irreversible block, as far as it is known.
pub fn irreversible_block(info: &Json) -> (r: u64)
    ensures
        r == match json::as_unsigned(
            json::field_or_null(info.deep_view(), "last_irreversible_block_num"@),
        ) {
            Some(n) => n,
            None => 0,
        },
{
    match info.field("last_irreversible_block_num") {
        Some(v) => match v.as_u64() {
            Some(n) => n,
            None => 0,
        },
        None => 0,
    }
}

/// What is known of the services.
pub struct Findings {
    pub elastic: Ping,
    pub elastic_ms: u64,
    /// The name of the chain API's service.
    pub service: &'static str,
    /// The chain info, or null.
    pub info: Json,
    pub info_ms: u64,
    pub last_indexed: u32,
}

/// The states of the services.
pub open spec fn service_list(found: Findings) -> Seq<JsonModel> {
    seq![
        JsonModel::Object(elastic_fields(found.elastic.deep_view(), found.elastic_ms)),
        JsonModel::Object(
            chain_fields(found.service@, found.info.deep_view(), found.info_ms),
        ),
        JsonModel::Object(
            indexer_fields(head_of(found.info.deep_view()), found.last_indexed),
        ),
    ]
}

/// The answer to a request for the state of the services.
pub open spec fn health_fields(
    version: Seq<char>,
    chain: Seq<char>,
    found: Findings,
) -> FieldsModel {
    seq![
        ("version"@, JsonModel::Str(version)),
        ("chain"@, JsonModel::Str(chain)),
        ("health"@, JsonModel::Array(service_list(found))),
    ]
}

/// The answer to a request for the state of the services.
pub fn health(version: &str, chain: &str, found: Findings) -> (r: Json)
    ensures
        r.deep_view() == JsonModel::Object(health_fields(version@, chain@, found)),
{
    let ghost due = health_fields(version@, chain@, found);
    let ghost states = service_list(found);
    let head: u64 = head_block(&found.info);
    let mut services: Vec<Json> = no_items();
    push_item(&mut services, make_elastic_fields(found.elastic, found.elastic_ms));
    push_item(&mut services, make_chain_fields(found.service, &found.info, found.info_ms));
    push_item(&mut services, make_indexer_fields(head, found.last_indexed));
    assert(services.deep_view() == states);
    let mut f: Vec<(String, Json)> = no_items();
    put(&mut f, "version", string(version));
    put(&mut f, "chain", string(chain));
    put(&mut f, "health", json::array(services));
    assert(f.deep_view() == due);
    json::object(f)
}

} // verus!
