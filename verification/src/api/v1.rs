//! Minimal nodeos history-plugin (v1) compatibility layer, translating onto
//! the same indices as the v2 API.

use crate::api::history;
use crate::api::history::make_transaction_search;
use crate::api::query;
use crate::api::query::{filtered_by, sorted, text_term};
use crate::api::state;
use crate::api::state::{find_owners, search_by_key};
use crate::api::{message, ApiError, ErrorModel};
use crate::foreign;
use crate::json;
use crate::json::{put, string, FieldsModel, Json, JsonModel};
use crate::lists::{no_items, push_item};
use vstd::prelude::*;
use vstd::string::*;

verus! {

/// A request for the actions of an account.
#[derive(Debug)]
pub struct V1GetActions {
    pub account_name: String,
    /// Absolute sequence to start from; -1 = tail of history.
    pub pos: Option<i64>,
    /// Count (negative with pos=-1 means "last N").
    pub offset: Option<i64>,
}

/// A request for a transaction.
#[derive(Debug)]
pub struct V1GetTransaction {
    pub id: String,
}

/// A request for the accounts of a key.
#[derive(Debug)]
pub struct V1GetKeyAccounts {
    pub public_key: String,
}

/// A request for the accounts that an account controls.
#[derive(Debug)]
pub struct V1GetControlledAccounts {
    pub controlling_account: String,
}

/// The part of a history that is asked for: from where, how many, and whether
/// from the newest on.
#[derive(Debug, Clone, Copy, PartialEq, Eq, Structural)]
pub struct Window {
    pub from: u64,
    pub size: u64,
    pub newest_first: bool,
}

/// The part of a history that a request asks for. Without a position, or with
/// a negative one, it is the tail; by default its last 20 actions. No more than
/// 1000 actions are given, and at least one where there is a position.
pub open spec fn window_of(pos: Option<i64>, offset: Option<i64>) -> Window {
    let p: int = match pos {
        Some(n) => n as int,
        None => -1,
    };
    let o: int = match offset {
        Some(n) => n as int,
        None => -20,
    };
    if p < 0 {
        let wanted = if o < 0 {
            -o
        } else {
            o
        };
        Window {
            from: 0,
            size: if wanted < 1000 {
                wanted as u64
            } else {
                1000
            },
            newest_first: true,
        }
    } else {
        Window {
            from: p as u64,
            size: if o < 1 {
                1
            } else if o > 1000 {
                1000
            } else {
                o as u64
            },
            newest_first: false,
        }
    }
}

/// The part of a history that a request asks for.
pub fn window(request: &V1GetActions) -> (r: Window)
    ensures
        r == window_of(request.pos, request.offset),
        r.size <= 1000,
{
    let p: i64 = match request.pos {
        Some(n) => n,
        None => -1,
    };
    let o: i64 = match request.offset {
        Some(n) => n,
        None => -20,
    };
    if p < 0 {
        let size: u64 = if o <= -1000 || o >= 1000 {
            1000
        } else if o < 0 {
            (-o) as u64
        } else {
            o as u64
        };
        Window { from: 0, size, newest_first: true }
    } else {
        let size: u64 = if o < 1 {
            1
        } else if o > 1000 {
            1000
        } else {
            o as u64
        };
        Window { from: p as u64, size, newest_first: false }
    }
}

/// The search for a part of the history of an account.
pub open spec fn actions_search(account: Seq<char>, w: Window) -> FieldsModel {
    seq![
        ("from"@, JsonModel::Int(w.from as int)),
        ("size"@, JsonModel::Int(w.size as int)),
        ("query"@, query::filtered_of(seq![query::term_of("notified"@, JsonModel::Str(account))])),
        ("sort"@, query::sorted_of("global_sequence"@, order_text(w))),
    ]
}

/// The search for a part of the history of an account.
pub fn actions_query(request: &V1GetActions, w: Window) -> (r: Json)
    ensures
        r.deep_view() == JsonModel::Object(actions_search(request.account_name@, w)),
{
    let account: &str = request.account_name.as_str();
    let order: &str = if w.newest_first {
        "desc"
    } else {
        "asc"
    };
    let mut f: Vec<(String, Json)> = no_items();
    put(&mut f, "from", Json::Int(w.from as i128));
    put(&mut f, "size", Json::Int(w.size as i128));
    put(&mut f, "query", filtered_by(text_term("notified", account)));
    put(&mut f, "sort", sorted("global_sequence", order));
    assert(f.deep_view() == actions_search(account@, w));
    json::object(f)
}

/// The order of a part of a history.
pub open spec fn order_text(w: Window) -> Seq<char> {
    if w.newest_first {
        "desc"@
    } else {
        "asc"@
    }
}

/// The first receipt of an action.
pub open spec fn first_receipt(a: JsonModel) -> JsonModel {
    match json::field_or_null(a, "receipts"@) {
        JsonModel::Array(items) => if items.len() > 0 {
            items[0]
        } else {
            JsonModel::Null
        },
        _ => JsonModel::Null,
    }
}

fn make_first_receipt(a: &Json) -> (r: Json)
    ensures
        r.deep_view() == first_receipt(a.deep_view()),
{
    match a.field("receipts") {
        Some(found) => match found {
            Json::Array(items) => {
                assert(found.model()->Array_0 == items.deep_view());
                if items.len() > 0 {
                    items[0].copy()
                } else {
                    Json::Null
                }
            },
            _ => Json::Null,
        },
        None => Json::Null,
    }
}

/// The trace of an action.
pub open spec fn trace_fields(a: JsonModel) -> FieldsModel {
    seq![
        ("receipt"@, first_receipt(a)),
        ("act"@, json::field_or_null(a, "act"@)),
        ("trx_id"@, json::field_or_null(a, "trx_id"@)),
        ("block_num"@, json::field_or_null(a, "block_num"@)),
        ("block_time"@, json::field_or_null(a, "@timestamp"@)),
        ("producer_block_id"@, json::field_or_null(a, "block_id"@)),
    ]
}

fn make_trace_fields(a: &Json) -> (r: Json)
    ensures
        r.deep_view() == JsonModel::Object(trace_fields(a.deep_view())),
{
    let mut f: Vec<(String, Json)> = no_items();
    put(&mut f, "receipt", make_first_receipt(a));
    put(&mut f, "act", a.field_copy("act"));
    put(&mut f, "trx_id", a.field_copy("trx_id"));
    put(&mut f, "block_num", a.field_copy("block_num"));
    put(&mut f, "block_time", a.field_copy("@timestamp"));
    put(&mut f, "producer_block_id", a.field_copy("block_id"));
    assert(f.deep_view() == trace_fields(a.deep_view()));
    json::object(f)
}

/// An action at a place of a history.
pub open spec fn action_fields(a: JsonModel, place: int) -> FieldsModel {
    seq![
        ("global_action_seq"@, json::field_or_null(a, "global_sequence"@)),
        ("account_action_seq"@, JsonModel::Int(place)),
        ("block_num"@, json::field_or_null(a, "block_num"@)),
        ("block_time"@, json::field_or_null(a, "@timestamp"@)),
        ("action_trace"@, JsonModel::Object(trace_fields(a))),
    ]
}

fn make_action_fields(a: &Json, place: i128) -> (r: Json)
    ensures
        r.deep_view() == JsonModel::Object(action_fields(a.deep_view(), place as int)),
{
    let mut f: Vec<(String, Json)> = no_items();
    put(&mut f, "global_action_seq", a.field_copy("global_sequence"));
    put(&mut f, "account_action_seq", Json::Int(place));
    put(&mut f, "block_num", a.field_copy("block_num"));
    put(&mut f, "block_time", a.field_copy("@timestamp"));
    put(&mut f, "action_trace", make_trace_fields(a));
    assert(f.deep_view() == action_fields(a.deep_view(), place as int));
    json::object(f)
}

/// What was found, with the oldest first.
pub open spec fn oldest_first(found: Seq<JsonModel>, w: Window) -> Seq<JsonModel> {
    if w.newest_first {
        found.reverse()
    } else {
        found
    }
}

/// A part of a history, with the oldest first.
pub open spec fn action_list(found: Seq<JsonModel>, w: Window) -> Seq<JsonModel> {
    let docs = oldest_first(found, w);
    Seq::new(docs.len(), |i: int| JsonModel::Object(action_fields(docs[i], w.from + i)))
}

/// The answer to a request for a part of a history.
pub open spec fn actions_fields(found: Seq<JsonModel>, w: Window, lib: u64) -> FieldsModel {
    seq![
        ("actions"@, JsonModel::Array(action_list(found, w))),
        ("last_irreversible_block"@, JsonModel::Int(lib as int)),
    ]
}

/// The answer to a request for a part of a history.
pub fn actions_reply(found: &Vec<Json>, w: Window, lib: u64) -> (r: Json)
    ensures
        r.deep_view() == JsonModel::Object(actions_fields(found.deep_view(), w, lib)),
{
    let ghost docs = oldest_first(found.deep_view(), w);
    let ghost all = action_list(found.deep_view(), w);
    let mut out: Vec<Json> = no_items();
    let mut i: usize = 0;
    assert(out.deep_view() =~= all.take(0));
    while i < found.len()
        invariant
            i <= found@.len(),
            docs == oldest_first(found.deep_view(), w),
            all == action_list(found.deep_view(), w),
            out.deep_view() == all.take(i as int),
        decreases found@.len() - i,
    {
        let at: usize = if w.newest_first {
            found.len() - 1 - i
        } else {
            i
        };
        assert(docs[i as int] == found@[at as int].deep_view());
        push_item(&mut out, make_action_fields(&found[at], w.from as i128 + i as i128));
        i = i + 1;
        assert(out.deep_view() =~= all.take(i as int));
    }
    assert(all.take(i as int) =~= all);
    let mut f: Vec<(String, Json)> = no_items();
    put(&mut f, "actions", json::array(out));
    put(&mut f, "last_irreversible_block", Json::Int(lib as i128));
    assert(f.deep_view() == actions_fields(found.deep_view(), w, lib));
    json::object(f)
}

/// The trace of an action of a transaction.
pub open spec fn short_trace(a: JsonModel) -> FieldsModel {
    seq![
        ("receipt"@, first_receipt(a)),
        ("act"@, json::field_or_null(a, "act"@)),
        ("block_num"@, json::field_or_null(a, "block_num"@)),
        ("block_time"@, json::field_or_null(a, "@timestamp"@)),
        ("trx_id"@, json::field_or_null(a, "trx_id"@)),
    ]
}

fn make_short_trace(a: &Json) -> (r: Json)
    ensures
        r.deep_view() == JsonModel::Object(short_trace(a.deep_view())),
{
    let mut f: Vec<(String, Json)> = no_items();
    put(&mut f, "receipt", make_first_receipt(a));
    put(&mut f, "act", a.field_copy("act"));
    put(&mut f, "block_num", a.field_copy("block_num"));
    put(&mut f, "block_time", a.field_copy("@timestamp"));
    put(&mut f, "trx_id", a.field_copy("trx_id"));
    assert(f.deep_view() == short_trace(a.deep_view()));
    json::object(f)
}

/// The traces of the actions of a transaction.
pub open spec fn short_traces(docs: Seq<JsonModel>) -> Seq<JsonModel> {
    Seq::new(docs.len(), |i: int| JsonModel::Object(short_trace(docs[i])))
}

fn make_short_traces(docs: &Vec<Json>) -> (r: Vec<Json>)
    ensures
        r.deep_view() == short_traces(docs.deep_view()),
{
    let ghost all = short_traces(docs.deep_view());
    let mut out: Vec<Json> = no_items();
    let mut i: usize = 0;
    assert(out.deep_view() =~= all.take(0));
    while i < docs.len()
        invariant
            i <= docs@.len(),
            all == short_traces(docs.deep_view()),
            out.deep_view() == all.take(i as int),
        decreases docs@.len() - i,
    {
        push_item(&mut out, make_short_trace(&docs[i]));
        i = i + 1;
        assert(out.deep_view() =~= all.take(i as int));
    }
    assert(all.take(i as int) =~= all);
    out
}

/// The actions of a transaction.
pub open spec fn acts(docs: Seq<JsonModel>) -> Seq<JsonModel> {
    Seq::new(docs.len(), |i: int| json::field_or_null(docs[i], "act"@))
}

fn make_acts(docs: &Vec<Json>) -> (r: Vec<Json>)
    ensures
        r.deep_view() == acts(docs.deep_view()),
{
    let ghost all = acts(docs.deep_view());
    let mut out: Vec<Json> = no_items();
    let mut i: usize = 0;
    assert(out.deep_view() =~= all.take(0));
    while i < docs.len()
        invariant
            i <= docs@.len(),
            all == acts(docs.deep_view()),
            out.deep_view() == all.take(i as int),
        decreases docs@.len() - i,
    {
        push_item(&mut out, docs[i].field_copy("act"));
        i = i + 1;
        assert(out.deep_view() =~= all.take(i as int));
    }
    assert(all.take(i as int) =~= all);
    out
}

/// The search that a request for a transaction stands for. Ids are indexed in
/// lower case.
pub fn transaction_query(p: &V1GetTransaction) -> (r: Json)
    ensures
        r.deep_view() == JsonModel::Object(
            history::transaction_search(foreign::lower_text(p.id@)),
        ),
{
    make_transaction_search(foreign::lowercase(p.id.as_str()).as_str())
}

/// The answer to a request for a transaction.
pub open spec fn transaction_fields(
    id: Seq<char>,
    found: Seq<JsonModel>,
    lib: u64,
) -> FieldsModel {
    seq![
        ("id"@, JsonModel::Str(id)),
        ("block_num"@, json::field_or_null(found[0], "block_num"@)),
        ("block_time"@, json::field_or_null(found[0], "@timestamp"@)),
        ("last_irreversible_block"@, JsonModel::Int(lib as int)),
        ("traces"@, JsonModel::Array(short_traces(found))),
        (
            "trx"@,
            JsonModel::Object(
                seq![
                    (
                        "trx"@,
                        JsonModel::Object(seq![("actions"@, JsonModel::Array(acts(found)))]),
                    ),
                ],
            ),
        ),
    ]
}

/// The answer to a request for a transaction: an error if it was not found.
pub fn transaction_reply(p: &V1GetTransaction, found: &Vec<Json>, lib: u64) -> (res: Result<
    Json,
    ApiError,
>)
    ensures
        match res {
            Ok(v) => found@.len() > 0 && v.deep_view() == JsonModel::Object(
                transaction_fields(p.id@, found.deep_view(), lib),
            ),
            Err(e) => found@.len() == 0 && e.deep_view() == (ErrorModel {
                status: super::NOT_FOUND,
                message: "transaction "@ + p.id@ + " not found"@,
            }),
        },
{
    if found.len() == 0 {
        let mut m = message("transaction ", p.id.as_str());
        m.append(" not found");
        return Err(ApiError::not_found(m));
    }
    let mut f: Vec<(String, Json)> = no_items();
    put(&mut f, "id", string(p.id.as_str()));
    put(&mut f, "block_num", found[0].field_copy("block_num"));
    put(&mut f, "block_time", found[0].field_copy("@timestamp"));
    put(&mut f, "last_irreversible_block", Json::Int(lib as i128));
    put(&mut f, "traces", json::array(make_short_traces(found)));
    put(
        &mut f,
        "trx",
        json::single("trx", json::single("actions", json::array(make_acts(found)))),
    );
    assert(f.deep_view() == transaction_fields(p.id@, found.deep_view(), lib));
    Ok(json::object(f))
}

/// The search that a request for the accounts of a key stands for.
pub fn key_query(p: &V1GetKeyAccounts) -> (r: Json)
    ensures
        r.deep_view() == JsonModel::Object(
            state::key_search(state::indexed_key(p.public_key@)),
        ),
{
    search_by_key(p.public_key.as_str())
}

/// The answer to a request for the accounts of a key.
pub fn key_reply(found: &Vec<Json>) -> (r: Json)
    ensures
        r.deep_view() == JsonModel::Object(
            seq![
                (
                    "account_names"@,
                    JsonModel::Array(
                        json::string_models(
                            state::owners(found.deep_view(), found.deep_view().len()),
                        ),
                    ),
                ),
            ],
        ),
{
    json::single("account_names", json::strings(&find_owners(found)))
}

/// The search for the accounts that an account controls: `accounts` entries
/// are stored as `actor@permission`.
pub open spec fn controlled_search(account: Seq<char>) -> FieldsModel {
    seq![
        ("size"@, JsonModel::Int(1000)),
        (
            "query"@,
            query::filtered_of(
                seq![
                    JsonModel::Object(
                        seq![
                            (
                                "prefix"@,
                                JsonModel::Object(
                                    seq![("accounts"@, JsonModel::Str(account + "@"@))],
                                ),
                            ),
                        ],
                    ),
                ],
            ),
        ),
        ("sort"@, query::sorted_of("owner"@, "asc"@)),
    ]
}

/// The search for the accounts that an account controls.
pub fn controlled_query(p: &V1GetControlledAccounts) -> (r: Json)
    ensures
        r.deep_view() == JsonModel::Object(controlled_search(p.controlling_account@)),
{
    let account: &str = p.controlling_account.as_str();
    let start = message(account, "@");
    let mut f: Vec<(String, Json)> = no_items();
    put(&mut f, "size", Json::Int(1000));
    put(
        &mut f,
        "query",
        filtered_by(json::single("prefix", json::single("accounts", Json::Str(start)))),
    );
    put(&mut f, "sort", sorted("owner", "asc"));
    assert(f.deep_view() == controlled_search(account@));
    json::object(f)
}

/// The answer to a request for the accounts that an account controls.
pub fn controlled_reply(found: &Vec<Json>) -> (r: Json)
    ensures
        r.deep_view() == JsonModel::Object(
            seq![
                (
                    "controlled_accounts"@,
                    JsonModel::Array(
                        json::string_models(
                            state::owners(found.deep_view(), found.deep_view().len()),
                        ),
                    ),
                ),
            ],
        ),
{
    json::single("controlled_accounts", json::strings(&find_owners(found)))
}

} // verus!
