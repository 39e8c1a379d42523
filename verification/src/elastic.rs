//! Elasticsearch: index mappings, and what its replies say.

use crate::config::ElasticConfig;
use crate::json;
use crate::json::{put, string, FieldsModel, Json, JsonModel};
use crate::lists::{no_items, push_item};
use crate::text;
use vstd::prelude::*;
use vstd::string::*;

verus! {

// ---------------------------------------------------------------------------
// Index definitions
// ---------------------------------------------------------------------------

/// How a field is indexed.
#[derive(Debug, Clone, Copy, PartialEq, Eq, Structural)]
pub enum FieldKind {
    Date,
    Long,
    Integer,
    Double,
    Boolean,
    Keyword,
    Text,
    /// A keyword that is not searched.
    Unindexed,
    /// A keyword that is only kept.
    Stored,
    /// An object whose fields are only kept.
    Unparsed,
}

impl DeepView for FieldKind {
    type V = FieldKind;

    open spec fn deep_view(&self) -> FieldKind {
        *self
    }
}

/// The name of a field's type.
pub open spec fn type_text(kind: FieldKind) -> Seq<char> {
    match kind {
        FieldKind::Date => "date"@,
        FieldKind::Long => "long"@,
        FieldKind::Integer => "integer"@,
        FieldKind::Double => "double"@,
        FieldKind::Boolean => "boolean"@,
        FieldKind::Text => "text"@,
        FieldKind::Unparsed => "object"@,
        _ => "keyword"@,
    }
}

/// The mapping of a field.
pub open spec fn mapping(kind: FieldKind) -> FieldsModel {
    let first = seq![("type"@, JsonModel::Str(type_text(kind)))];
    match kind {
        FieldKind::Unparsed => first.push(("enabled"@, JsonModel::Bool(false))),
        FieldKind::Unindexed => first.push(("index"@, JsonModel::Bool(false))),
        FieldKind::Stored => first.push(("index"@, JsonModel::Bool(false))).push(
            ("doc_values"@, JsonModel::Bool(false)),
        ),
        _ => first,
    }
}

/// The mappings of fields.
pub open spec fn properties(fields: Seq<(Seq<char>, FieldKind)>) -> FieldsModel {
    Seq::new(fields.len(), |i: int| (fields[i].0, JsonModel::Object(mapping(fields[i].1))))
}

pub open spec fn settings(shards: u32, replicas: u32) -> FieldsModel {
    seq![
        ("number_of_shards"@, JsonModel::Int(shards as int)),
        ("number_of_replicas"@, JsonModel::Int(replicas as int)),
        ("refresh_interval"@, JsonModel::Str("1s"@)),
    ]
}

/// The definition of an index with these fields.
pub open spec fn definition(
    shards: u32,
    replicas: u32,
    fields: Seq<(Seq<char>, FieldKind)>,
) -> JsonModel {
    JsonModel::Object(
        seq![
            ("settings"@, JsonModel::Object(settings(shards, replicas))),
            (
                "mappings"@,
                JsonModel::Object(
                    seq![("properties"@, JsonModel::Object(properties(fields)))],
                ),
            ),
        ],
    )
}

/// The fields of the `action` index.
pub open spec fn action_mapping() -> Seq<(Seq<char>, FieldKind)> {
    seq![
        ("@timestamp"@, FieldKind::Date),
        ("global_sequence"@, FieldKind::Long),
        ("block_num"@, FieldKind::Long),
        ("block_id"@, FieldKind::Keyword),
        ("trx_id"@, FieldKind::Keyword),
        ("producer"@, FieldKind::Keyword),
        ("act.account"@, FieldKind::Keyword),
        ("act.name"@, FieldKind::Keyword),
        ("act.authorization.actor"@, FieldKind::Keyword),
        ("act.authorization.permission"@, FieldKind::Keyword),
        // act.data field types vary per action (e.g. `owner` is a
        // name in buyram but an authority object in newaccount), so it must
        // not be indexed; it stays in _source. Searchable extracts of known
        // actions live in @transfer/@newaccount.
        ("act.data"@, FieldKind::Unparsed),
        ("@transfer.from"@, FieldKind::Keyword),
        ("@transfer.to"@, FieldKind::Keyword),
        ("@transfer.amount"@, FieldKind::Double),
        ("@transfer.symbol"@, FieldKind::Keyword),
        ("@transfer.memo"@, FieldKind::Text),
        ("@newaccount.newact"@, FieldKind::Keyword),
        ("@newaccount.creator"@, FieldKind::Keyword),
        ("act.hex_data"@, FieldKind::Stored),
        ("notified"@, FieldKind::Keyword),
        ("receipts.receiver"@, FieldKind::Keyword),
        ("receipts.global_sequence"@, FieldKind::Long),
        ("cpu_usage_us"@, FieldKind::Integer),
        ("net_usage_words"@, FieldKind::Integer),
        ("action_ordinal"@, FieldKind::Integer),
        ("creator_action_ordinal"@, FieldKind::Integer),
        ("signatures"@, FieldKind::Unindexed),
    ]
}

/// The fields of the `block` index.
pub open spec fn block_mapping() -> Seq<(Seq<char>, FieldKind)> {
    seq![
        ("@timestamp"@, FieldKind::Date),
        ("block_num"@, FieldKind::Long),
        ("block_id"@, FieldKind::Keyword),
        ("prev_id"@, FieldKind::Keyword),
        ("producer"@, FieldKind::Keyword),
        ("schedule_version"@, FieldKind::Integer),
        ("trx_count"@, FieldKind::Integer),
        ("cpu_usage_us"@, FieldKind::Long),
        ("net_usage_words"@, FieldKind::Long),
    ]
}

/// The fields of the `delta` index.
pub open spec fn delta_mapping() -> Seq<(Seq<char>, FieldKind)> {
    seq![
        ("@timestamp"@, FieldKind::Date),
        ("block_num"@, FieldKind::Long),
        ("block_id"@, FieldKind::Keyword),
        ("code"@, FieldKind::Keyword),
        ("scope"@, FieldKind::Keyword),
        ("table"@, FieldKind::Keyword),
        ("primary_key"@, FieldKind::Keyword),
        ("payer"@, FieldKind::Keyword),
        ("present"@, FieldKind::Boolean),
        // Same per-contract type-conflict hazard as act.data.
        ("data"@, FieldKind::Unparsed),
        ("value_hex"@, FieldKind::Stored),
    ]
}

/// The fields of the `abi` index.
pub open spec fn abi_mapping() -> Seq<(Seq<char>, FieldKind)> {
    seq![
        ("@timestamp"@, FieldKind::Date),
        ("block_num"@, FieldKind::Long),
        ("account"@, FieldKind::Keyword),
        ("abi"@, FieldKind::Stored),
        ("actions"@, FieldKind::Keyword),
        ("tables"@, FieldKind::Keyword),
    ]
}

/// The fields of the `perm` index.
pub open spec fn perm_mapping() -> Seq<(Seq<char>, FieldKind)> {
    seq![
        ("block_num"@, FieldKind::Long),
        ("owner"@, FieldKind::Keyword),
        ("name"@, FieldKind::Keyword),
        ("parent"@, FieldKind::Keyword),
        ("last_updated"@, FieldKind::Date),
        ("keys"@, FieldKind::Keyword),
        ("accounts"@, FieldKind::Keyword),
        ("threshold"@, FieldKind::Integer),
    ]
}

/// The fields of the `token` index.
pub open spec fn token_mapping() -> Seq<(Seq<char>, FieldKind)> {
    seq![
        ("block_num"@, FieldKind::Long),
        ("code"@, FieldKind::Keyword),
        ("scope"@, FieldKind::Keyword),
        ("symbol"@, FieldKind::Keyword),
        ("precision"@, FieldKind::Integer),
        ("amount"@, FieldKind::Double),
    ]
}

/// All indices, with their definitions.
pub open spec fn definitions(shards: u32, replicas: u32) -> Seq<(Seq<char>, JsonModel)> {
    seq![
        ("action"@, definition(shards, replicas, action_mapping())),
        ("block"@, definition(shards, replicas, block_mapping())),
        ("delta"@, definition(shards, replicas, delta_mapping())),
        ("abi"@, definition(shards, replicas, abi_mapping())),
        ("perm"@, definition(shards, replicas, perm_mapping())),
        ("token"@, definition(shards, replicas, token_mapping())),
    ]
}

fn kind_name(kind: FieldKind) -> (r: &'static str)
    ensures
        r@ == type_text(kind),
{
    match kind {
        FieldKind::Date => "date",
        FieldKind::Long => "long",
        FieldKind::Integer => "integer",
        FieldKind::Double => "double",
        FieldKind::Boolean => "boolean",
        FieldKind::Text => "text",
        FieldKind::Unparsed => "object",
        FieldKind::Keyword => "keyword",
        FieldKind::Unindexed => "keyword",
        FieldKind::Stored => "keyword",
    }
}

fn make_mapping(kind: FieldKind) -> (r: Json)
    ensures
        r.deep_view() == JsonModel::Object(mapping(kind)),
{
    let mut f: Vec<(String, Json)> = no_items();
    put(&mut f, "type", string(kind_name(kind)));
    match kind {
        FieldKind::Unparsed => put(&mut f, "enabled", Json::Bool(false)),
        FieldKind::Unindexed => put(&mut f, "index", Json::Bool(false)),
        FieldKind::Stored => {
            put(&mut f, "index", Json::Bool(false));
            put(&mut f, "doc_values", Json::Bool(false));
        },
        _ => {},
    }
    assert(f.deep_view() == mapping(kind));
    json::object(f)
}

fn make_definition(
    shards: u32,
    replicas: u32,
    fields: &Vec<(&'static str, FieldKind)>,
) -> (r: Json)
    ensures
        r.deep_view() == definition(shards, replicas, fields.deep_view()),
{
    let ghost all = properties(fields.deep_view());
    let mut p: Vec<(String, Json)> = no_items();
    let mut i: usize = 0;
    assert(p.deep_view() =~= all.take(0));
    while i < fields.len()
        invariant
            i <= fields@.len(),
            all == properties(fields.deep_view()),
            p.deep_view() == all.take(i as int),
        decreases fields@.len() - i,
    {
        put(&mut p, fields[i].0, make_mapping(fields[i].1));
        i = i + 1;
        assert(p.deep_view() =~= all.take(i as int));
    }
    assert(all.take(i as int) =~= all);
    let mut s: Vec<(String, Json)> = no_items();
    put(&mut s, "number_of_shards", Json::Int(shards as i128));
    put(&mut s, "number_of_replicas", Json::Int(replicas as i128));
    put(&mut s, "refresh_interval", string("1s"));
    assert(s.deep_view() == settings(shards, replicas));
    let mut f: Vec<(String, Json)> = no_items();
    put(&mut f, "settings", json::object(s));
    put(&mut f, "mappings", json::single("properties", json::object(p)));
    let r = json::object(f);
    assert(f.deep_view() == definition(shards, replicas, fields.deep_view())->Object_0);
    r
}

fn make_action_mapping() -> (r: Vec<(&'static str, FieldKind)>)
    ensures
        r.deep_view() == action_mapping(),
{
    let mut f: Vec<(&'static str, FieldKind)> = no_items();
    push_item(&mut f, ("@timestamp", FieldKind::Date));
    push_item(&mut f, ("global_sequence", FieldKind::Long));
    push_item(&mut f, ("block_num", FieldKind::Long));
    push_item(&mut f, ("block_id", FieldKind::Keyword));
    push_item(&mut f, ("trx_id", FieldKind::Keyword));
    push_item(&mut f, ("producer", FieldKind::Keyword));
    push_item(&mut f, ("act.account", FieldKind::Keyword));
    push_item(&mut f, ("act.name", FieldKind::Keyword));
    push_item(&mut f, ("act.authorization.actor", FieldKind::Keyword));
    push_item(&mut f, ("act.authorization.permission", FieldKind::Keyword));
    push_item(&mut f, ("act.data", FieldKind::Unparsed));
    push_item(&mut f, ("@transfer.from", FieldKind::Keyword));
    push_item(&mut f, ("@transfer.to", FieldKind::Keyword));
    push_item(&mut f, ("@transfer.amount", FieldKind::Double));
    push_item(&mut f, ("@transfer.symbol", FieldKind::Keyword));
    push_item(&mut f, ("@transfer.memo", FieldKind::Text));
    push_item(&mut f, ("@newaccount.newact", FieldKind::Keyword));
    push_item(&mut f, ("@newaccount.creator", FieldKind::Keyword));
    push_item(&mut f, ("act.hex_data", FieldKind::Stored));
    push_item(&mut f, ("notified", FieldKind::Keyword));
    push_item(&mut f, ("receipts.receiver", FieldKind::Keyword));
    push_item(&mut f, ("receipts.global_sequence", FieldKind::Long));
    push_item(&mut f, ("cpu_usage_us", FieldKind::Integer));
    push_item(&mut f, ("net_usage_words", FieldKind::Integer));
    push_item(&mut f, ("action_ordinal", FieldKind::Integer));
    push_item(&mut f, ("creator_action_ordinal", FieldKind::Integer));
    push_item(&mut f, ("signatures", FieldKind::Unindexed));
    assert(f.deep_view() == action_mapping());
    f
}

fn make_block_mapping() -> (r: Vec<(&'static str, FieldKind)>)
    ensures
        r.deep_view() == block_mapping(),
{
    let mut f: Vec<(&'static str, FieldKind)> = no_items();
    push_item(&mut f, ("@timestamp", FieldKind::Date));
    push_item(&mut f, ("block_num", FieldKind::Long));
    push_item(&mut f, ("block_id", FieldKind::Keyword));
    push_item(&mut f, ("prev_id", FieldKind::Keyword));
    push_item(&mut f, ("producer", FieldKind::Keyword));
    push_item(&mut f, ("schedule_version", FieldKind::Integer));
    push_item(&mut f, ("trx_count", FieldKind::Integer));
    push_item(&mut f, ("cpu_usage_us", FieldKind::Long));
    push_item(&mut f, ("net_usage_words", FieldKind::Long));
    assert(f.deep_view() == block_mapping());
    f
}

fn make_delta_mapping() -> (r: Vec<(&'static str, FieldKind)>)
    ensures
        r.deep_view() == delta_mapping(),
{
    let mut f: Vec<(&'static str, FieldKind)> = no_items();
    push_item(&mut f, ("@timestamp", FieldKind::Date));
    push_item(&mut f, ("block_num", FieldKind::Long));
    push_item(&mut f, ("block_id", FieldKind::Keyword));
    push_item(&mut f, ("code", FieldKind::Keyword));
    push_item(&mut f, ("scope", FieldKind::Keyword));
    push_item(&mut f, ("table", FieldKind::Keyword));
    push_item(&mut f, ("primary_key", FieldKind::Keyword));
    push_item(&mut f, ("payer", FieldKind::Keyword));
    push_item(&mut f, ("present", FieldKind::Boolean));
    push_item(&mut f, ("data", FieldKind::Unparsed));
    push_item(&mut f, ("value_hex", FieldKind::Stored));
    assert(f.deep_view() == delta_mapping());
    f
}

fn make_abi_mapping() -> (r: Vec<(&'static str, FieldKind)>)
    ensures
        r.deep_view() == abi_mapping(),
{
    let mut f: Vec<(&'static str, FieldKind)> = no_items();
    push_item(&mut f, ("@timestamp", FieldKind::Date));
    push_item(&mut f, ("block_num", FieldKind::Long));
    push_item(&mut f, ("account", FieldKind::Keyword));
    push_item(&mut f, ("abi", FieldKind::Stored));
    push_item(&mut f, ("actions", FieldKind::Keyword));
    push_item(&mut f, ("tables", FieldKind::Keyword));
    assert(f.deep_view() == abi_mapping());
    f
}

fn make_perm_mapping() -> (r: Vec<(&'static str, FieldKind)>)
    ensures
        r.deep_view() == perm_mapping(),
{
    let mut f: Vec<(&'static str, FieldKind)> = no_items();
    push_item(&mut f, ("block_num", FieldKind::Long));
    push_item(&mut f, ("owner", FieldKind::Keyword));
    push_item(&mut f, ("name", FieldKind::Keyword));
    push_item(&mut f, ("parent", FieldKind::Keyword));
    push_item(&mut f, ("last_updated", FieldKind::Date));
    push_item(&mut f, ("keys", FieldKind::Keyword));
    push_item(&mut f, ("accounts", FieldKind::Keyword));
    push_item(&mut f, ("threshold", FieldKind::Integer));
    assert(f.deep_view() == perm_mapping());
    f
}

fn make_token_mapping() -> (r: Vec<(&'static str, FieldKind)>)
    ensures
        r.deep_view() == token_mapping(),
{
    let mut f: Vec<(&'static str, FieldKind)> = no_items();
    push_item(&mut f, ("block_num", FieldKind::Long));
    push_item(&mut f, ("code", FieldKind::Keyword));
    push_item(&mut f, ("scope", FieldKind::Keyword));
    push_item(&mut f, ("symbol", FieldKind::Keyword));
    push_item(&mut f, ("precision", FieldKind::Integer));
    push_item(&mut f, ("amount", FieldKind::Double));
    assert(f.deep_view() == token_mapping());
    f
}

/// Index mappings.
pub fn index_definitions(shards: u32, replicas: u32) -> (r: Vec<(&'static str, Json)>)
    ensures
        r.deep_view() == definitions(shards, replicas),
{
    let mut out: Vec<(&'static str, Json)> = no_items();
    push_item(&mut out, ("action", make_definition(shards, replicas, &make_action_mapping())));
    push_item(&mut out, ("block", make_definition(shards, replicas, &make_block_mapping())));
    push_item(&mut out, ("delta", make_definition(shards, replicas, &make_delta_mapping())));
    push_item(&mut out, ("abi", make_definition(shards, replicas, &make_abi_mapping())));
    push_item(&mut out, ("perm", make_definition(shards, replicas, &make_perm_mapping())));
    push_item(&mut out, ("token", make_definition(shards, replicas, &make_token_mapping())));
    assert(out.deep_view() == definitions(shards, replicas));
    out
}

// ---------------------------------------------------------------------------
// Replies
// ---------------------------------------------------------------------------

/// Whether an item of a bulk reply failed: what its first field holds has a
/// status of 300 or more.
pub open spec fn item_failed(item: JsonModel) -> bool {
    match item {
        JsonModel::Object(fields) => fields.len() > 0 && (json::as_unsigned(
            json::field_or_null(fields[0].1, "status"@),
        ) matches Some(code) && code >= 300),
        _ => false,
    }
}

/// How many of the first `n` items failed.
pub open spec fn failed_among(items: Seq<JsonModel>, n: nat) -> nat
    decreases n,
{
    if n == 0 {
        0
    } else {
        failed_among(items, (n - 1) as nat) + if item_failed(items[n - 1]) {
            1nat
        } else {
            0nat
        }
    }
}

/// How many items of a bulk reply failed: none unless it reports errors.
pub open spec fn failed_items(reply: JsonModel) -> nat {
    if json::field_of(reply, "errors"@) == Some(JsonModel::Bool(true)) {
        match json::field_of(reply, "items"@) {
            Some(JsonModel::Array(items)) => failed_among(items, items.len()),
            _ => 0,
        }
    } else {
        0
    }
}

fn is_failed(item: &Json) -> (r: bool)
    ensures
        r == item_failed(item.deep_view()),
{
    match item {
        Json::Object(fields) => {
            assert(item.model()->Object_0 == fields.deep_view());
            if fields.len() == 0 {
                return false;
            }
            match fields[0].1.field("status") {
                Some(status) => match status.as_u64() {
                    Some(code) => code >= 300,
                    None => false,
                },
                None => false,
            }
        },
        _ => false,
    }
}

/// The number of failed items in the reply to a bulk request.
pub fn count_failed(reply: &Json) -> (r: usize)
    ensures
        r == failed_items(reply.deep_view()),
{
    match reply.field("errors") {
        Some(Json::Bool(true)) => {},
        _ => return 0,
    }
    match reply.field("items") {
        Some(found) => match found {
            Json::Array(items) => {
                let ghost all = items.deep_view();
                assert(found.model()->Array_0 == all);
                let mut failed: usize = 0;
                let mut i: usize = 0;
                while i < items.len()
                    invariant
                        i <= items@.len(),
                        all == items.deep_view(),
                        failed == failed_among(all, i as nat),
                        failed <= i,
                    decreases items@.len() - i,
                {
                    if is_failed(&items[i]) {
                        failed = failed + 1;
                    }
                    i = i + 1;
                }
                failed
            },
            _ => 0,
        },
        None => 0,
    }
}

/// The documents in a search reply.
pub open spec fn sources(hits: Seq<JsonModel>) -> Seq<JsonModel> {
    Seq::new(hits.len(), |i: int| json::field_or_null(hits[i], "_source"@))
}

/// The hits of a search reply: those in the list `hits` inside of `hits`.
pub open spec fn hits_of(reply: JsonModel) -> Seq<JsonModel> {
    match json::field_or_null(json::field_or_null(reply, "hits"@), "hits"@) {
        JsonModel::Array(hits) => sources(hits),
        _ => seq![],
    }
}

/// The total of a search reply.
pub open spec fn total_of(reply: JsonModel) -> JsonModel {
    json::field_or_null(json::field_or_null(reply, "hits"@), "total"@)
}

/// The documents and the total of a search reply.
pub fn search_sources(reply: &Json) -> (r: (Vec<Json>, Json))
    ensures
        r.0.deep_view() == hits_of(reply.deep_view()),
        r.1.deep_view() == total_of(reply.deep_view()),
{
    let hits = match reply.field("hits") {
        Some(h) => h,
        None => return (no_items(), Json::Null),
    };
    let total = hits.field_copy("total");
    match hits.field("hits") {
        Some(found) => match found {
            Json::Array(items) => {
                let ghost all = sources(items.deep_view());
                assert(found.model()->Array_0 == items.deep_view());
                let mut out: Vec<Json> = no_items();
                let mut i: usize = 0;
                assert(out.deep_view() =~= all.take(0));
                while i < items.len()
                    invariant
                        i <= items@.len(),
                        all == sources(items.deep_view()),
                        out.deep_view() == all.take(i as int),
                    decreases items@.len() - i,
                {
                    push_item(&mut out, items[i].field_copy("_source"));
                    i = i + 1;
                    assert(out.deep_view() =~= all.take(i as int));
                }
                assert(all.take(i as int) =~= all);
                (out, total)
            },
            _ => (no_items(), total),
        },
        None => (no_items(), total),
    }
}

// ---------------------------------------------------------------------------
// Where things are
// ---------------------------------------------------------------------------

/// An Elasticsearch server: where it is, and who asks.
#[derive(Debug, Clone)]
pub struct Elastic {
    base: String,
    user: String,
    pass: String,
}

impl Elastic {
    /// Where the server is, without a slash at the end.
    pub closed spec fn base(&self) -> Seq<char> {
        self.base@
    }

    /// The name and the password to ask with; none if there is no name.
    pub closed spec fn login(&self) -> Option<(Seq<char>, Seq<char>)> {
        if self.user@.len() == 0 {
            None
        } else {
            Some((self.user@, self.pass@))
        }
    }

    pub fn new(config: &ElasticConfig) -> (r: Self)
        ensures
            r.base() == text::trimmed_end(config.url@, '/'),
            r.login() == if config.user@.len() == 0 {
                None
            } else {
                Some((config.user@, config.pass@))
            },
    {
        Elastic {
            base: text::trim_end(config.url.as_str(), '/'),
            user: config.user.clone(),
            pass: config.pass.clone(),
        }
    }

    /// The address of a path.
    pub fn url(&self, path: &str) -> (r: String)
        ensures
            r@ == self.base() + path@,
    {
        let mut out: String = self.base.clone();
        out.append(path);
        out
    }

    /// The name and the password to ask with.
    pub fn credentials(&self) -> (r: Option<(&str, &str)>)
        ensures
            match r {
                Some((user, pass)) => self.login() == Some((user@, pass@)),
                None => self.login() is None,
            },
    {
        if self.user.as_str().is_empty() {
            None
        } else {
            Some((self.user.as_str(), self.pass.as_str()))
        }
    }
}

/// A path below an index.
pub open spec fn index_path(index: Seq<char>, below: Seq<char>) -> Seq<char> {
    "/"@ + index + below
}

pub fn make_index_path(index: &str, below: &str) -> (r: String)
    ensures
        r@ == index_path(index@, below@),
{
    let mut out: String = "/".to_owned();
    out.append(index);
    out.append(below);
    out
}

/// The search for the highest block in an index.
pub fn max_block_query() -> (r: Json)
    ensures
        r.deep_view() == JsonModel::Object(
            seq![
                ("size"@, JsonModel::Int(0)),
                (
                    "aggs"@,
                    JsonModel::Object(
                        seq![
                            (
                                "max_block"@,
                                JsonModel::Object(
                                    seq![
                                        (
                                            "max"@,
                                            JsonModel::Object(
                                                seq![("field"@, JsonModel::Str("block_num"@))],
                                            ),
                                        ),
                                    ],
                                ),
                            ),
                        ],
                    ),
                ),
            ],
        ),
{
    let highest = json::single("max", json::single("field", string("block_num")));
    let mut f: Vec<(String, Json)> = no_items();
    put(&mut f, "size", Json::Int(0));
    put(&mut f, "aggs", json::single("max_block", highest));
    assert(f.deep_view() == seq![
        ("size"@, JsonModel::Int(0)),
        ("aggs"@, JsonModel::Object(seq![("max_block"@, highest.deep_view())])),
    ]);
    json::object(f)
}

/// What is stored of a checkpoint: its block.
pub open spec fn checkpoint_fields(block: u32) -> FieldsModel {
    seq![("block_num"@, JsonModel::Int(block as int))]
}

pub fn make_checkpoint(block: u32) -> (r: Json)
    ensures
        r.deep_view() == JsonModel::Object(checkpoint_fields(block)),
{
    json::single("block_num", Json::Int(block as i128))
}

/// The checkpoint in a stored document, if it is one.
pub open spec fn stored_checkpoint(reply: JsonModel) -> Option<nat> {
    match json::as_unsigned(
        json::field_or_null(json::field_or_null(reply, "_source"@), "block_num"@),
    ) {
        Some(n) => if n <= u32::MAX {
            Some(n)
        } else {
            None
        },
        None => None,
    }
}

/// The checkpoint in a stored document.
pub fn checkpoint_of(reply: &Json) -> (r: Option<u32>)
    ensures
        match r {
            Some(n) => stored_checkpoint(reply.deep_view()) == Some(n as nat),
            None => stored_checkpoint(reply.deep_view()) is None,
        },
{
    match reply.field_copy("_source").field_copy("block_num").as_u64() {
        Some(n) => if n <= u32::MAX as u64 {
            Some(n as u32)
        } else {
            None
        },
        None => None,
    }
}

/// A checkpoint that was stored is read back.
pub proof fn law_checkpoint_reads_back(block: u32)
    ensures
        stored_checkpoint(
            JsonModel::Object(
                seq![("_source"@, JsonModel::Object(checkpoint_fields(block)))],
            ),
        ) == Some(block as nat),
{
    let source = JsonModel::Object(checkpoint_fields(block));
    let reply = JsonModel::Object(seq![("_source"@, source)]);
    assert(json::field_from(reply->Object_0, "_source"@, 0) == 0);
    assert(json::field_from(source->Object_0, "block_num"@, 0) == 0);
}

} // verus!
