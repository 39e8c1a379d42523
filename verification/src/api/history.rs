//! The history of actions, transactions, table rows and ABIs.

use crate::api::query;
use crate::api::query::{
    clamp_limit, filtered, filtered_by, is_text, push_range_filters, sorted, term, text_term,
};
use crate::api::{message, ApiError, ErrorModel};
use crate::foreign;
use crate::json;
use crate::json::{put, string, FieldsModel, Json, JsonModel};
use crate::lists::{no_items, push_item};
use crate::text;
use vstd::prelude::*;

verus! {

// ---------------------------------------------------------------------------
// Requests
// ---------------------------------------------------------------------------

/// A request for actions.
#[derive(Debug)]
pub struct GetActionsParams {
    pub account: Option<String>,
    /// `code:action` pairs, comma-separated; `*` wildcards allowed on
    /// either side.
    pub filter: Option<String>,
    pub track: Option<String>,
    pub skip: Option<usize>,
    pub limit: Option<usize>,
    /// `asc` | `desc` (default `desc`).
    pub sort: Option<String>,
    pub after: Option<String>,
    pub before: Option<String>,
    pub simple: Option<bool>,
}

#[verifier::ext_equal]
pub struct GetActionsParamsModel {
    pub account: Option<Seq<char>>,
    pub filter: Option<Seq<char>>,
    pub track: Option<Seq<char>>,
    pub skip: Option<usize>,
    pub limit: Option<usize>,
    pub sort: Option<Seq<char>>,
    pub after: Option<Seq<char>>,
    pub before: Option<Seq<char>>,
    pub simple: Option<bool>,
}

impl DeepView for GetActionsParams {
    type V = GetActionsParamsModel;

    open spec fn deep_view(&self) -> GetActionsParamsModel {
        GetActionsParamsModel {
            account: self.account.deep_view(),
            filter: self.filter.deep_view(),
            track: self.track.deep_view(),
            skip: self.skip,
            limit: self.limit,
            sort: self.sort.deep_view(),
            after: self.after.deep_view(),
            before: self.before.deep_view(),
            simple: self.simple,
        }
    }
}

/// A request for a transaction.
#[derive(Debug)]
pub struct GetTransactionParams {
    pub id: String,
}

/// A request for table rows.
#[derive(Debug)]
pub struct GetDeltasParams {
    pub code: Option<String>,
    pub scope: Option<String>,
    pub table: Option<String>,
    pub payer: Option<String>,
    pub present: Option<bool>,
    pub after: Option<String>,
    pub before: Option<String>,
    pub skip: Option<usize>,
    pub limit: Option<usize>,
    pub sort: Option<String>,
}

#[verifier::ext_equal]
pub struct GetDeltasParamsModel {
    pub code: Option<Seq<char>>,
    pub scope: Option<Seq<char>>,
    pub table: Option<Seq<char>>,
    pub payer: Option<Seq<char>>,
    pub present: Option<bool>,
    pub after: Option<Seq<char>>,
    pub before: Option<Seq<char>>,
    pub skip: Option<usize>,
    pub limit: Option<usize>,
    pub sort: Option<Seq<char>>,
}

impl DeepView for GetDeltasParams {
    type V = GetDeltasParamsModel;

    open spec fn deep_view(&self) -> GetDeltasParamsModel {
        GetDeltasParamsModel {
            code: self.code.deep_view(),
            scope: self.scope.deep_view(),
            table: self.table.deep_view(),
            payer: self.payer.deep_view(),
            present: self.present,
            after: self.after.deep_view(),
            before: self.before.deep_view(),
            skip: self.skip,
            limit: self.limit,
            sort: self.sort.deep_view(),
        }
    }
}

/// A request for the ABI that a contract had at a block.
#[derive(Debug)]
pub struct AbiSnapshotParams {
    pub contract: String,
    pub block: Option<u64>,
}

#[verifier::ext_equal]
pub struct AbiSnapshotParamsModel {
    pub contract: Seq<char>,
    pub block: Option<u64>,
}

impl DeepView for AbiSnapshotParams {
    type V = AbiSnapshotParamsModel;

    open spec fn deep_view(&self) -> AbiSnapshotParamsModel {
        AbiSnapshotParamsModel {
            contract: self.contract@,
            block: self.block,
        }
    }
}

/// A request about an account.
#[derive(Debug)]
pub struct AccountParam {
    pub account: String,
}

// ---------------------------------------------------------------------------
// Actions
// ---------------------------------------------------------------------------

/// What a filter entry `code:action` stands for, where `*` is any.
pub open spec fn entry_clause(code: Seq<char>, action: Seq<char>) -> JsonModel {
    let on_code = if code == "*"@ {
        seq![]
    } else {
        seq![query::term_of("act.account"@, JsonModel::Str(code))]
    };
    let on_action = if action == "*"@ {
        seq![]
    } else {
        seq![query::term_of("act.name"@, JsonModel::Str(action))]
    };
    JsonModel::Object(
        seq![
            (
                "bool"@,
                JsonModel::Object(seq![("must"@, JsonModel::Array(on_code + on_action))]),
            ),
        ],
    )
}

/// The clauses of the first `n` entries of a filter, or the first entry that
/// is none.
pub open spec fn entry_clauses(entries: Seq<Seq<char>>, n: nat) -> Result<
    Seq<JsonModel>,
    Seq<char>,
>
    decreases n,
{
    if n == 0 {
        Ok(seq![])
    } else {
        match entry_clauses(entries, (n - 1) as nat) {
            Err(e) => Err(e),
            Ok(before) => match text::split_text(entries[n - 1], ":"@) {
                Some((code, action)) => Ok(before.push(entry_clause(code, action))),
                None => Err(entries[n - 1]),
            },
        }
    }
}

/// The condition that a filter stands for: one of its entries.
pub open spec fn filter_clause_of(filter: Seq<char>) -> Result<JsonModel, ErrorModel> {
    let entries = text::pieces_of(filter, ","@);
    match entry_clauses(entries, entries.len()) {
        Ok(should) => Ok(
            JsonModel::Object(
                seq![
                    (
                        "bool"@,
                        JsonModel::Object(
                            seq![
                                ("should"@, JsonModel::Array(should)),
                                ("minimum_should_match"@, JsonModel::Int(1)),
                            ],
                        ),
                    ),
                ],
            ),
        ),
        Err(entry) => Err(
            ErrorModel { status: super::BAD_REQUEST, message: "bad filter entry: "@ + entry },
        ),
    }
}

fn make_entry_clause(code: &str, action: &str) -> (r: Json)
    ensures
        r.deep_view() == entry_clause(code@, action@),
{
    let mut must: Vec<Json> = no_items();
    if !text::same_text(code, "*") {
        push_item(&mut must, text_term("act.account", code));
    }
    if !text::same_text(action, "*") {
        push_item(&mut must, text_term("act.name", action));
    }
    let r = json::single("bool", json::single("must", json::array(must)));
    assert(must.deep_view() =~= ({
        let on_code = if code@ == "*"@ {
            seq![]
        } else {
            seq![query::term_of("act.account"@, JsonModel::Str(code@))]
        };
        let on_action = if action@ == "*"@ {
            seq![]
        } else {
            seq![query::term_of("act.name"@, JsonModel::Str(action@))]
        };
        on_code + on_action
    }));
    r
}

proof fn lemma_clauses_stuck(entries: Seq<Seq<char>>, k: nat, n: nat)
    requires
        k <= n,
    ensures
        entry_clauses(entries, k) is Err ==> entry_clauses(entries, n) == entry_clauses(
            entries,
            k,
        ),
    decreases n,
{
    if k < n {
        lemma_clauses_stuck(entries, k, (n - 1) as nat);
    }
}

fn filter_clause(filter: &str) -> (res: Result<Json, ApiError>)
    ensures
        match res {
            Ok(v) => filter_clause_of(filter@) == Ok::<JsonModel, ErrorModel>(v.deep_view()),
            Err(e) => filter_clause_of(filter@) == Err::<JsonModel, ErrorModel>(e.deep_view()),
        },
{
    proof {
        reveal_strlit(",");
    }
    let entries: Vec<String> = text::pieces(filter, ",");
    let ghost all = entries.deep_view();
    let mut should: Vec<Json> = no_items();
    let mut i: usize = 0;
    while i < entries.len()
        invariant
            i <= entries@.len(),
            all == entries.deep_view(),
            all == text::pieces_of(filter@, ","@),
            entry_clauses(all, i as nat) == Ok::<Seq<JsonModel>, Seq<char>>(should.deep_view()),
        decreases entries@.len() - i,
    {
        match text::split_once(entries[i].as_str(), ":") {
            Some(parts) => {
                push_item(
                    &mut should,
                    make_entry_clause(parts.0.as_str(), parts.1.as_str()),
                );
            },
            None => {
                proof {
                    lemma_clauses_stuck(all, (i + 1) as nat, all.len());
                }
                return Err(
                    ApiError::bad_request(message("bad filter entry: ", entries[i].as_str())),
                );
            },
        }
        i = i + 1;
    }
    let mut f: Vec<(String, Json)> = no_items();
    put(&mut f, "should", json::array(should));
    put(&mut f, "minimum_should_match", Json::Int(1));
    assert(f.deep_view() == seq![
        ("should"@, JsonModel::Array(should.deep_view())),
        ("minimum_should_match"@, JsonModel::Int(1)),
    ]);
    Ok(json::single("bool", json::object(f)))
}

/// The order that a request asks for: newest first unless it says otherwise.
pub open spec fn order_of(sort: Option<Seq<char>>) -> Result<Seq<char>, ErrorModel> {
    match sort {
        None => Ok("desc"@),
        Some(s) => if s == "desc"@ {
            Ok("desc"@)
        } else if s == "asc"@ {
            Ok("asc"@)
        } else {
            Err(ErrorModel { status: super::BAD_REQUEST, message: "bad sort: "@ + s })
        },
    }
}

fn sort_order(sort: &Option<String>) -> (res: Result<&'static str, ApiError>)
    ensures
        match res {
            Ok(s) => order_of(sort.deep_view()) == Ok::<Seq<char>, ErrorModel>(s@),
            Err(e) => order_of(sort.deep_view()) == Err::<Seq<char>, ErrorModel>(e.deep_view()),
        },
{
    match sort {
        None => Ok("desc"),
        Some(s) => if text::same_text(s.as_str(), "desc") {
            Ok("desc")
        } else if text::same_text(s.as_str(), "asc") {
            Ok("asc")
        } else {
            Err(ApiError::bad_request(message("bad sort: ", s.as_str())))
        },
    }
}

/// The conditions on actions, but for the filter.
pub open spec fn account_filters(account: Option<Seq<char>>) -> Seq<JsonModel> {
    match account {
        Some(a) => seq![query::term_of("notified"@, JsonModel::Str(a))],
        None => seq![],
    }
}

/// How many items to pass over.
pub open spec fn skipped(skip: Option<usize>) -> int {
    match skip {
        Some(n) => n as int,
        None => 0,
    }
}

/// The search for actions with some conditions. Unless the total is asked for,
/// it is counted up to a cap (cheap).
pub open spec fn actions_search(
    p: GetActionsParamsModel,
    max_limit: usize,
    filters: Seq<JsonModel>,
    order: Seq<char>,
) -> FieldsModel {
    seq![
        (
            "track_total_hits"@,
            if p.track == Some("true"@) {
                JsonModel::Bool(true)
            } else {
                JsonModel::Int(10000)
            },
        ),
        ("from"@, JsonModel::Int(skipped(p.skip))),
        ("size"@, JsonModel::Int(query::clamped(p.limit, max_limit) as int)),
        ("query"@, query::filtered_of(filters)),
        ("sort"@, query::sorted_of("global_sequence"@, order)),
    ]
}

/// The search that a request for actions stands for. What is wrong with its
/// filter is reported before what is wrong with its order.
pub open spec fn actions_query_of(p: GetActionsParamsModel, max_limit: usize) -> Result<
    JsonModel,
    ErrorModel,
> {
    let first = account_filters(p.account);
    let ranges = query::range_filters_of(p.after, p.before);
    match p.filter {
        Some(f) => match filter_clause_of(f) {
            Err(e) => Err(e),
            Ok(clause) => match order_of(p.sort) {
                Err(e) => Err(e),
                Ok(order) => Ok(
                    JsonModel::Object(
                        actions_search(p, max_limit, first.push(clause) + ranges, order),
                    ),
                ),
            },
        },
        None => match order_of(p.sort) {
            Err(e) => Err(e),
            Ok(order) => Ok(
                JsonModel::Object(actions_search(p, max_limit, first + ranges, order)),
            ),
        },
    }
}

/// The search that a request for actions stands for.
pub fn actions_query(p: &GetActionsParams, max_limit: usize) -> (res: Result<Json, ApiError>)
    ensures
        match res {
            Ok(v) => actions_query_of(p.deep_view(), max_limit) == Ok::<JsonModel, ErrorModel>(
                v.deep_view(),
            ),
            Err(e) => actions_query_of(p.deep_view(), max_limit) == Err::<JsonModel, ErrorModel>(
                e.deep_view(),
            ),
        },
{
    let mut filters: Vec<Json> = no_items();
    if let Some(account) = &p.account {
        push_item(&mut filters, text_term("notified", account.as_str()));
    }
    assert(filters.deep_view() =~= account_filters(p.account.deep_view()));
    if let Some(filter) = &p.filter {
        push_item(&mut filters, filter_clause(filter.as_str())?);
    }
    push_range_filters(&mut filters, &p.after, &p.before);
    let ghost found = filters.deep_view();
    let order: &str = sort_order(&p.sort)?;
    // track=false counts up to a 10k cap (cheap); track=true is exact.
    let track = if is_text(&p.track, "true") {
        Json::Bool(true)
    } else {
        Json::Int(10000)
    };
    let skip: usize = match p.skip {
        Some(n) => n,
        None => 0,
    };
    let mut f: Vec<(String, Json)> = no_items();
    put(&mut f, "track_total_hits", track);
    put(&mut f, "from", Json::Int(skip as i128));
    put(&mut f, "size", Json::Int(clamp_limit(p.limit, max_limit) as i128));
    put(&mut f, "query", filtered(filters));
    put(&mut f, "sort", sorted("global_sequence", order));
    assert(f.deep_view() == actions_search(p.deep_view(), max_limit, found, order@));
    Ok(json::object(f))
}

/// A document with its time under `timestamp` too.
pub open spec fn stamped(doc: JsonModel) -> JsonModel {
    match (doc, json::field_of(doc, "@timestamp"@)) {
        (JsonModel::Object(fields), Some(ts)) => JsonModel::Object(
            json::set_field(fields, "timestamp"@, ts),
        ),
        _ => doc,
    }
}

fn stamp(doc: Json) -> (r: Json)
    ensures
        r.deep_view() == stamped(doc.deep_view()),
{
    let ts = match doc.field("@timestamp") {
        Some(ts) => ts.copy(),
        None => return doc,
    };
    match doc {
        Json::Object(fields) => {
            assert(doc.model()->Object_0 == fields.deep_view());
            let mut f: Vec<(String, Json)> = fields;
            json::set(&mut f, "timestamp", ts);
            json::object(f)
        },
        _ => doc,
    }
}

/// Documents with their times under `timestamp` too.
pub open spec fn stamped_all(docs: Seq<JsonModel>) -> Seq<JsonModel> {
    Seq::new(docs.len(), |i: int| stamped(docs[i]))
}

pub fn make_stamped_all(docs: &Vec<Json>) -> (r: Vec<Json>)
    ensures
        r.deep_view() == stamped_all(docs.deep_view()),
{
    let ghost all = stamped_all(docs.deep_view());
    let mut out: Vec<Json> = no_items();
    let mut i: usize = 0;
    assert(out.deep_view() =~= all.take(0));
    while i < docs.len()
        invariant
            i <= docs@.len(),
            all == stamped_all(docs.deep_view()),
            out.deep_view() == all.take(i as int),
        decreases docs@.len() - i,
    {
        push_item(&mut out, stamp(docs[i].copy()));
        i = i + 1;
        assert(out.deep_view() =~= all.take(i as int));
    }
    assert(all.take(i as int) =~= all);
    out
}

/// The short form of an action.
pub open spec fn simple_fields(a: JsonModel) -> FieldsModel {
    seq![
        ("block"@, json::field_or_null(a, "block_num"@)),
        ("timestamp"@, json::field_or_null(a, "timestamp"@)),
        ("transaction_id"@, json::field_or_null(a, "trx_id"@)),
        ("contract"@, json::field_or_null(json::field_or_null(a, "act"@), "account"@)),
        ("action"@, json::field_or_null(json::field_or_null(a, "act"@), "name"@)),
        ("actors"@, json::field_or_null(json::field_or_null(a, "act"@), "authorization"@)),
        ("notified"@, json::field_or_null(a, "notified"@)),
        ("data"@, json::field_or_null(json::field_or_null(a, "act"@), "data"@)),
    ]
}

fn make_simple_fields(a: &Json) -> (r: Json)
    ensures
        r.deep_view() == JsonModel::Object(simple_fields(a.deep_view())),
{
    let act = a.field_copy("act");
    let mut f: Vec<(String, Json)> = no_items();
    put(&mut f, "block", a.field_copy("block_num"));
    put(&mut f, "timestamp", a.field_copy("timestamp"));
    put(&mut f, "transaction_id", a.field_copy("trx_id"));
    put(&mut f, "contract", act.field_copy("account"));
    put(&mut f, "action", act.field_copy("name"));
    put(&mut f, "actors", act.field_copy("authorization"));
    put(&mut f, "notified", a.field_copy("notified"));
    put(&mut f, "data", act.field_copy("data"));
    assert(f.deep_view() == simple_fields(a.deep_view()));
    json::object(f)
}

/// The short forms of actions.
pub open spec fn simple_list(docs: Seq<JsonModel>) -> Seq<JsonModel> {
    Seq::new(docs.len(), |i: int| JsonModel::Object(simple_fields(docs[i])))
}

fn make_simple_list(docs: &Vec<Json>) -> (r: Vec<Json>)
    ensures
        r.deep_view() == simple_list(docs.deep_view()),
{
    let ghost all = simple_list(docs.deep_view());
    let mut out: Vec<Json> = no_items();
    let mut i: usize = 0;
    assert(out.deep_view() =~= all.take(0));
    while i < docs.len()
        invariant
            i <= docs@.len(),
            all == simple_list(docs.deep_view()),
            out.deep_view() == all.take(i as int),
        decreases docs@.len() - i,
    {
        push_item(&mut out, make_simple_fields(&docs[i]));
        i = i + 1;
        assert(out.deep_view() =~= all.take(i as int));
    }
    assert(all.take(i as int) =~= all);
    out
}

/// The answer to a request for actions.
pub open spec fn actions_fields(
    simple: Option<bool>,
    found: Seq<JsonModel>,
    total: JsonModel,
    took_ms: u64,
    lib: u64,
) -> FieldsModel {
    seq![
        ("query_time_ms"@, JsonModel::Int(took_ms as int)),
        ("cached"@, JsonModel::Bool(false)),
        ("lib"@, JsonModel::Int(lib as int)),
        ("total"@, total),
        if simple == Some(true) {
            ("simple_actions"@, JsonModel::Array(simple_list(stamped_all(found))))
        } else {
            ("actions"@, JsonModel::Array(stamped_all(found)))
        },
    ]
}

/// The answer to a request for actions.
pub fn actions_reply(
    simple: Option<bool>,
    found: &Vec<Json>,
    total: Json,
    took_ms: u64,
    lib: u64,
) -> (r: Json)
    ensures
        r.deep_view() == JsonModel::Object(
            actions_fields(simple, found.deep_view(), total.deep_view(), took_ms, lib),
        ),
{
    let ghost shown = total.deep_view();
    let actions = make_stamped_all(found);
    let mut f: Vec<(String, Json)> = no_items();
    put(&mut f, "query_time_ms", Json::Int(took_ms as i128));
    put(&mut f, "cached", Json::Bool(false));
    put(&mut f, "lib", Json::Int(lib as i128));
    put(&mut f, "total", total);
    if simple == Some(true) {
        put(&mut f, "simple_actions", json::array(make_simple_list(&actions)));
    } else {
        put(&mut f, "actions", json::array(actions));
    }
    assert(f.deep_view() == actions_fields(simple, found.deep_view(), shown, took_ms, lib));
    json::object(f)
}

// ---------------------------------------------------------------------------
// Transactions
// ---------------------------------------------------------------------------

/// The search for the actions of a transaction, by its id as it is indexed.
pub open spec fn transaction_search(indexed: Seq<char>) -> FieldsModel {
    seq![
        ("size"@, JsonModel::Int(1000)),
        (
            "query"@,
            query::filtered_of(seq![query::term_of("trx_id"@, JsonModel::Str(indexed))]),
        ),
        ("sort"@, query::sorted_of("global_sequence"@, "asc"@)),
    ]
}

pub fn make_transaction_search(indexed: &str) -> (r: Json)
    ensures
        r.deep_view() == JsonModel::Object(transaction_search(indexed@)),
{
    let mut f: Vec<(String, Json)> = no_items();
    put(&mut f, "size", Json::Int(1000));
    put(&mut f, "query", filtered_by(text_term("trx_id", indexed)));
    put(&mut f, "sort", sorted("global_sequence", "asc"));
    assert(f.deep_view() == transaction_search(indexed@));
    json::object(f)
}

/// The search that a request for a transaction stands for. Ids are indexed in
/// lower case.
pub fn transaction_query(p: &GetTransactionParams) -> (r: Json)
    ensures
        r.deep_view() == JsonModel::Object(transaction_search(foreign::lower_text(p.id@))),
{
    make_transaction_search(foreign::lowercase(p.id.as_str()).as_str())
}

/// The answer to a request for a transaction.
pub open spec fn transaction_fields(
    id: Seq<char>,
    found: Seq<JsonModel>,
    took_ms: u64,
    lib: u64,
) -> FieldsModel {
    seq![
        ("query_time_ms"@, JsonModel::Int(took_ms as int)),
        ("executed"@, JsonModel::Bool(found.len() > 0)),
        ("trx_id"@, JsonModel::Str(id)),
        ("lib"@, JsonModel::Int(lib as int)),
        ("actions"@, JsonModel::Array(stamped_all(found))),
    ]
}

/// The answer to a request for a transaction.
pub fn transaction_reply(
    p: &GetTransactionParams,
    found: &Vec<Json>,
    took_ms: u64,
    lib: u64,
) -> (r: Json)
    ensures
        r.deep_view() == JsonModel::Object(
            transaction_fields(p.id@, found.deep_view(), took_ms, lib),
        ),
{
    let mut f: Vec<(String, Json)> = no_items();
    put(&mut f, "query_time_ms", Json::Int(took_ms as i128));
    put(&mut f, "executed", Json::Bool(found.len() > 0));
    put(&mut f, "trx_id", string(p.id.as_str()));
    put(&mut f, "lib", Json::Int(lib as i128));
    put(&mut f, "actions", json::array(make_stamped_all(found)));
    assert(f.deep_view() == transaction_fields(p.id@, found.deep_view(), took_ms, lib));
    json::object(f)
}

// ---------------------------------------------------------------------------
// Table rows
// ---------------------------------------------------------------------------

/// A condition on a field, if a value is given.
pub open spec fn optional_term(field: Seq<char>, value: Option<Seq<char>>) -> Seq<JsonModel> {
    match value {
        Some(v) => seq![query::term_of(field, JsonModel::Str(v))],
        None => seq![],
    }
}

/// The conditions on table rows.
pub open spec fn delta_filters(p: GetDeltasParamsModel) -> Seq<JsonModel> {
    optional_term("code"@, p.code) + optional_term("scope"@, p.scope) + optional_term(
        "table"@,
        p.table,
    ) + optional_term("payer"@, p.payer) + match p.present {
        Some(b) => seq![query::term_of("present"@, JsonModel::Bool(b))],
        None => seq![],
    } + query::range_filters_of(p.after, p.before)
}

/// The search that a request for table rows stands for.
pub open spec fn deltas_query_of(p: GetDeltasParamsModel, max_limit: usize) -> FieldsModel {
    seq![
        ("from"@, JsonModel::Int(skipped(p.skip))),
        ("size"@, JsonModel::Int(query::clamped(p.limit, max_limit) as int)),
        ("query"@, query::filtered_of(delta_filters(p))),
        (
            "sort"@,
            query::sorted_of(
                "block_num"@,
                if p.sort == Some("asc"@) {
                    "asc"@
                } else {
                    "desc"@
                },
            ),
        ),
    ]
}

fn push_term(filters: &mut Vec<Json>, field: &str, value: &Option<String>)
    ensures
        final(filters).deep_view() == old(filters).deep_view() + optional_term(
            field@,
            value.deep_view(),
        ),
{
    let ghost start = filters.deep_view();
    if let Some(v) = value {
        push_item(filters, text_term(field, v.as_str()));
    }
    assert(filters.deep_view() =~= start + optional_term(field@, value.deep_view()));
}

/// The search that a request for table rows stands for.
pub fn deltas_query(p: &GetDeltasParams, max_limit: usize) -> (r: Json)
    ensures
        r.deep_view() == JsonModel::Object(deltas_query_of(p.deep_view(), max_limit)),
{
    let mut filters: Vec<Json> = no_items();
    push_term(&mut filters, "code", &p.code);
    push_term(&mut filters, "scope", &p.scope);
    push_term(&mut filters, "table", &p.table);
    push_term(&mut filters, "payer", &p.payer);
    if let Some(present) = p.present {
        push_item(&mut filters, term("present", Json::Bool(present)));
    }
    push_range_filters(&mut filters, &p.after, &p.before);
    assert(filters.deep_view() =~= delta_filters(p.deep_view()));
    let order: &str = if is_text(&p.sort, "asc") {
        "asc"
    } else {
        "desc"
    };
    let skip: usize = match p.skip {
        Some(n) => n,
        None => 0,
    };
    let mut f: Vec<(String, Json)> = no_items();
    put(&mut f, "from", Json::Int(skip as i128));
    put(&mut f, "size", Json::Int(clamp_limit(p.limit, max_limit) as i128));
    put(&mut f, "query", filtered(filters));
    put(&mut f, "sort", sorted("block_num", order));
    assert(f.deep_view() == deltas_query_of(p.deep_view(), max_limit));
    json::object(f)
}

/// The answer to a request for table rows.
pub open spec fn deltas_fields(
    found: Seq<JsonModel>,
    total: JsonModel,
    took_ms: u64,
) -> FieldsModel {
    seq![
        ("query_time_ms"@, JsonModel::Int(took_ms as int)),
        ("total"@, total),
        ("deltas"@, JsonModel::Array(found)),
    ]
}

/// The answer to a request for table rows.
pub fn deltas_reply(found: Vec<Json>, total: Json, took_ms: u64) -> (r: Json)
    ensures
        r.deep_view() == JsonModel::Object(
            deltas_fields(found.deep_view(), total.deep_view(), took_ms),
        ),
{
    let ghost due = deltas_fields(found.deep_view(), total.deep_view(), took_ms);
    let mut f: Vec<(String, Json)> = no_items();
    put(&mut f, "query_time_ms", Json::Int(took_ms as i128));
    put(&mut f, "total", total);
    put(&mut f, "deltas", json::array(found));
    assert(f.deep_view() == due);
    json::object(f)
}

// ---------------------------------------------------------------------------
// ABIs
// ---------------------------------------------------------------------------

/// The conditions on ABIs: the contract, and not after the block.
pub open spec fn snapshot_filters(p: AbiSnapshotParamsModel) -> Seq<JsonModel> {
    let first = seq![query::term_of("account"@, JsonModel::Str(p.contract))];
    match p.block {
        Some(b) => first + query::range_of("block_num"@, seq![("lte"@, JsonModel::Int(b as int))]),
        None => first,
    }
}

/// The search for the last ABI of a contract.
pub open spec fn snapshot_query_of(p: AbiSnapshotParamsModel) -> FieldsModel {
    seq![
        ("size"@, JsonModel::Int(1)),
        ("query"@, query::filtered_of(snapshot_filters(p))),
        ("sort"@, query::sorted_of("block_num"@, "desc"@)),
    ]
}

/// The search for the last ABI of a contract.
pub fn snapshot_query(p: &AbiSnapshotParams) -> (r: Json)
    ensures
        r.deep_view() == JsonModel::Object(snapshot_query_of(p.deep_view())),
{
    let mut filters: Vec<Json> = no_items();
    push_item(&mut filters, text_term("account", p.contract.as_str()));
    if let Some(block) = p.block {
        let bound = json::single("lte", Json::Int(block as i128));
        push_item(&mut filters, json::single("range", json::single("block_num", bound)));
    }
    assert(filters.deep_view() =~= snapshot_filters(p.deep_view()));
    let mut f: Vec<(String, Json)> = no_items();
    put(&mut f, "size", Json::Int(1));
    put(&mut f, "query", filtered(filters));
    put(&mut f, "sort", sorted("block_num", "desc"));
    assert(f.deep_view() == snapshot_query_of(p.deep_view()));
    json::object(f)
}

/// The text of the ABI in the document that was found, if there is one.
pub open spec fn snapshot_text_of(found: Seq<JsonModel>) -> Option<Seq<char>> {
    if found.len() > 0 {
        match json::field_or_null(found[0], "abi"@) {
            JsonModel::Str(s) => Some(s),
            _ => None,
        }
    } else {
        None
    }
}

/// The text of the ABI in the document that was found.
pub fn snapshot_text(found: &Vec<Json>) -> (r: Option<String>)
    ensures
        r.deep_view() == snapshot_text_of(found.deep_view()),
{
    if found.len() == 0 {
        return None;
    }
    match found[0].field("abi") {
        Some(abi) => match abi.as_str() {
            Some(s) => Some(s.to_owned()),
            None => None,
        },
        None => None,
    }
}

/// The answer to a request for the ABI of a contract, where `abi` is what its
/// text stands for.
pub open spec fn snapshot_fields(
    found: Seq<JsonModel>,
    abi: JsonModel,
    took_ms: u64,
) -> FieldsModel {
    if found.len() > 0 {
        seq![
            ("query_time_ms"@, JsonModel::Int(took_ms as int)),
            ("present"@, JsonModel::Bool(true)),
            ("block_num"@, json::field_or_null(found[0], "block_num"@)),
            ("abi"@, abi),
        ]
    } else {
        seq![
            ("query_time_ms"@, JsonModel::Int(took_ms as int)),
            ("present"@, JsonModel::Bool(false)),
        ]
    }
}

/// The answer to a request for the ABI of a contract.
pub fn snapshot_reply(found: &Vec<Json>, abi: Json, took_ms: u64) -> (r: Json)
    ensures
        r.deep_view() == JsonModel::Object(
            snapshot_fields(found.deep_view(), abi.deep_view(), took_ms),
        ),
{
    let ghost due = snapshot_fields(found.deep_view(), abi.deep_view(), took_ms);
    let mut f: Vec<(String, Json)> = no_items();
    put(&mut f, "query_time_ms", Json::Int(took_ms as i128));
    put(&mut f, "present", Json::Bool(found.len() > 0));
    if found.len() > 0 {
        put(&mut f, "block_num", found[0].field_copy("block_num"));
        put(&mut f, "abi", abi);
    }
    assert(f.deep_view() == due);
    json::object(f)
}

// ---------------------------------------------------------------------------
// Account creation
// ---------------------------------------------------------------------------

/// The search for the accounts that an account created.
pub open spec fn created_search(account: Seq<char>) -> FieldsModel {
    seq![
        ("size"@, JsonModel::Int(100)),
        (
            "query"@,
            query::filtered_of(
                seq![
                    query::term_of("act.name"@, JsonModel::Str("newaccount"@)),
                    query::term_of("act.data.creator.keyword"@, JsonModel::Str(account)),
                ],
            ),
        ),
        ("sort"@, query::sorted_of("global_sequence"@, "desc"@)),
    ]
}

/// The search for the accounts that an account created.
pub fn created_query(p: &AccountParam) -> (r: Json)
    ensures
        r.deep_view() == JsonModel::Object(created_search(p.account@)),
{
    let account: &str = p.account.as_str();
    let mut filters: Vec<Json> = no_items();
    push_item(&mut filters, text_term("act.name", "newaccount"));
    push_item(&mut filters, text_term("act.data.creator.keyword", account));
    assert(filters.deep_view() == seq![
        query::term_of("act.name"@, JsonModel::Str("newaccount"@)),
        query::term_of("act.data.creator.keyword"@, JsonModel::Str(account@)),
    ]);
    let mut f: Vec<(String, Json)> = no_items();
    put(&mut f, "size", Json::Int(100));
    put(&mut f, "query", filtered(filters));
    put(&mut f, "sort", sorted("global_sequence", "desc"));
    assert(f.deep_view() == created_search(account@));
    json::object(f)
}

/// The name of the account that a `newaccount` action created: in the field
/// `newact`, else in `name`.
pub open spec fn created_name(a: JsonModel) -> JsonModel {
    let data = json::field_or_null(json::field_or_null(a, "act"@), "data"@);
    match json::field_or_null(data, "newact"@) {
        JsonModel::Str(s) => JsonModel::Str(s),
        _ => match json::field_or_null(data, "name"@) {
            JsonModel::Str(s) => JsonModel::Str(s),
            _ => JsonModel::Null,
        },
    }
}

fn make_created_name(a: &Json) -> (r: Json)
    ensures
        r.deep_view() == created_name(a.deep_view()),
{
    let data = a.field_copy("act").field_copy("data");
    if let Json::Str(s) = data.field_copy("newact") {
        return Json::Str(s);
    }
    if let Json::Str(s) = data.field_copy("name") {
        return Json::Str(s);
    }
    Json::Null
}

/// The short form of a `newaccount` action.
pub open spec fn created_fields(a: JsonModel) -> FieldsModel {
    seq![
        ("name"@, created_name(a)),
        ("timestamp"@, json::field_or_null(a, "@timestamp"@)),
        ("trx_id"@, json::field_or_null(a, "trx_id"@)),
    ]
}

fn make_created_fields(a: &Json) -> (r: Json)
    ensures
        r.deep_view() == JsonModel::Object(created_fields(a.deep_view())),
{
    let mut f: Vec<(String, Json)> = no_items();
    put(&mut f, "name", make_created_name(a));
    put(&mut f, "timestamp", a.field_copy("@timestamp"));
    put(&mut f, "trx_id", a.field_copy("trx_id"));
    assert(f.deep_view() == created_fields(a.deep_view()));
    json::object(f)
}

/// The short forms of `newaccount` actions.
pub open spec fn created_list(docs: Seq<JsonModel>) -> Seq<JsonModel> {
    Seq::new(docs.len(), |i: int| JsonModel::Object(created_fields(docs[i])))
}

fn make_created_list(docs: &Vec<Json>) -> (r: Vec<Json>)
    ensures
        r.deep_view() == created_list(docs.deep_view()),
{
    let ghost all = created_list(docs.deep_view());
    let mut out: Vec<Json> = no_items();
    let mut i: usize = 0;
    assert(out.deep_view() =~= all.take(0));
    while i < docs.len()
        invariant
            i <= docs@.len(),
            all == created_list(docs.deep_view()),
            out.deep_view() == all.take(i as int),
        decreases docs@.len() - i,
    {
        push_item(&mut out, make_created_fields(&docs[i]));
        i = i + 1;
        assert(out.deep_view() =~= all.take(i as int));
    }
    assert(all.take(i as int) =~= all);
    out
}

/// The answer to a request for the accounts that an account created.
pub open spec fn created_reply_fields(found: Seq<JsonModel>, took_ms: u64) -> FieldsModel {
    seq![
        ("query_time_ms"@, JsonModel::Int(took_ms as int)),
        ("accounts"@, JsonModel::Array(created_list(found))),
    ]
}

/// The answer to a request for the accounts that an account created.
pub fn created_reply(found: &Vec<Json>, took_ms: u64) -> (r: Json)
    ensures
        r.deep_view() == JsonModel::Object(created_reply_fields(found.deep_view(), took_ms)),
{
    let mut f: Vec<(String, Json)> = no_items();
    put(&mut f, "query_time_ms", Json::Int(took_ms as i128));
    put(&mut f, "accounts", json::array(make_created_list(found)));
    assert(f.deep_view() == created_reply_fields(found.deep_view(), took_ms));
    json::object(f)
}

/// The conditions of the search for the creation of an account.
pub open spec fn creator_filter(account: Seq<char>) -> FieldsModel {
    seq![
        (
            "filter"@,
            JsonModel::Array(
                seq![query::term_of("act.name"@, JsonModel::Str("newaccount"@))],
            ),
        ),
        (
            "should"@,
            JsonModel::Array(
                seq![
                    query::term_of("act.data.newact.keyword"@, JsonModel::Str(account)),
                    query::term_of("act.data.name.keyword"@, JsonModel::Str(account)),
                ],
            ),
        ),
        ("minimum_should_match"@, JsonModel::Int(1)),
    ]
}

/// The search for the creation of an account.
pub open spec fn creator_search(account: Seq<char>) -> FieldsModel {
    seq![
        ("size"@, JsonModel::Int(1)),
        (
            "query"@,
            JsonModel::Object(seq![("bool"@, JsonModel::Object(creator_filter(account)))]),
        ),
        ("sort"@, query::sorted_of("global_sequence"@, "asc"@)),
    ]
}

/// The search for the creation of an account.
pub fn creator_query(p: &AccountParam) -> (r: Json)
    ensures
        r.deep_view() == JsonModel::Object(creator_search(p.account@)),
{
    let account: &str = p.account.as_str();
    let mut should: Vec<Json> = no_items();
    push_item(&mut should, text_term("act.data.newact.keyword", account));
    push_item(&mut should, text_term("act.data.name.keyword", account));
    assert(should.deep_view() == seq![
        query::term_of("act.data.newact.keyword"@, JsonModel::Str(account@)),
        query::term_of("act.data.name.keyword"@, JsonModel::Str(account@)),
    ]);
    let mut b: Vec<(String, Json)> = no_items();
    put(&mut b, "filter", json::one(text_term("act.name", "newaccount")));
    put(&mut b, "should", json::array(should));
    put(&mut b, "minimum_should_match", Json::Int(1));
    assert(b.deep_view() == creator_filter(account@));
    let mut f: Vec<(String, Json)> = no_items();
    put(&mut f, "size", Json::Int(1));
    put(&mut f, "query", json::single("bool", json::object(b)));
    put(&mut f, "sort", sorted("global_sequence", "asc"));
    assert(f.deep_view() == creator_search(account@));
    json::object(f)
}

/// The answer to a request for the creator of an account.
pub open spec fn creator_fields(account: Seq<char>, a: JsonModel, took_ms: u64) -> FieldsModel {
    seq![
        ("query_time_ms"@, JsonModel::Int(took_ms as int)),
        ("account"@, JsonModel::Str(account)),
        (
            "creator"@,
            json::field_or_null(
                json::field_or_null(json::field_or_null(a, "act"@), "data"@),
                "creator"@,
            ),
        ),
        ("timestamp"@, json::field_or_null(a, "@timestamp"@)),
        ("block_num"@, json::field_or_null(a, "block_num"@)),
        ("trx_id"@, json::field_or_null(a, "trx_id"@)),
    ]
}

fn make_creator_fields(account: &str, a: &Json, took_ms: u64) -> (r: Json)
    ensures
        r.deep_view() == JsonModel::Object(creator_fields(account@, a.deep_view(), took_ms)),
{
    let mut f: Vec<(String, Json)> = no_items();
    put(&mut f, "query_time_ms", Json::Int(took_ms as i128));
    put(&mut f, "account", string(account));
    put(&mut f, "creator", a.field_copy("act").field_copy("data").field_copy("creator"));
    put(&mut f, "timestamp", a.field_copy("@timestamp"));
    put(&mut f, "block_num", a.field_copy("block_num"));
    put(&mut f, "trx_id", a.field_copy("trx_id"));
    assert(f.deep_view() == creator_fields(account@, a.deep_view(), took_ms));
    json::object(f)
}

/// The answer to a request for the creator of an account: an error if its
/// creation was not found.
pub fn creator_reply(p: &AccountParam, found: &Vec<Json>, took_ms: u64) -> (res: Result<
    Json,
    ApiError,
>)
    ensures
        match res {
            Ok(v) => found@.len() > 0 && v.deep_view() == JsonModel::Object(
                creator_fields(p.account@, found.deep_view()[0], took_ms),
            ),
            Err(e) => found@.len() == 0 && e.deep_view() == (ErrorModel {
                status: super::NOT_FOUND,
                message: "account creation not found"@,
            }),
        },
{
    if found.len() == 0 {
        return Err(ApiError::not_found("account creation not found".to_owned()));
    }
    Ok(make_creator_fields(p.account.as_str(), &found[0], took_ms))
}

} // verus!
