use hyperion::api::health::{
    elastic_version, head_block, health, irreversible_block, is_fresh, Findings, Ping,
};
use hyperion::api::history;
use hyperion::api::history::{
    AbiSnapshotParams, AccountParam, GetActionsParams, GetDeltasParams, GetTransactionParams,
};
use hyperion::api::query::{clamp_limit, range_filters};
use hyperion::api::state;
use hyperion::api::state::{AccountParams, KeyParams};
use hyperion::api::v1;
use hyperion::api::v1::{
    V1GetActions, V1GetControlledAccounts, V1GetKeyAccounts, V1GetTransaction, Window,
};
use hyperion::api::{root, ApiError, BAD_REQUEST, INTERNAL_ERROR, NOT_FOUND};
use hyperion::json::Json;

fn text(s: &str) -> Json {
    Json::Str(s.to_string())
}

fn object(fields: Vec<(&str, Json)>) -> Json {
    Json::Object(fields.into_iter().map(|(k, v)| (k.to_string(), v)).collect())
}

fn list(items: Vec<Json>) -> Json {
    Json::Array(items)
}

fn term(field: &str, value: Json) -> Json {
    object(vec![("term", object(vec![(field, value)]))])
}

fn filtered(filters: Vec<Json>) -> Json {
    object(vec![("bool", object(vec![("filter", list(filters))]))])
}

fn sorted(field: &str, order: &str) -> Json {
    list(vec![object(vec![(field, object(vec![("order", text(order))]))])])
}

fn window(pos: Option<i64>, offset: Option<i64>) -> Window {
    v1::window(&V1GetActions { account_name: String::new(), pos, offset })
}

fn transaction(id: &str) -> GetTransactionParams {
    GetTransactionParams { id: id.to_string() }
}

fn transaction_v1(id: &str) -> V1GetTransaction {
    V1GetTransaction { id: id.to_string() }
}

fn created(account: &str) -> AccountParam {
    AccountParam { account: account.to_string() }
}

fn key(public_key: &str) -> KeyParams {
    KeyParams { public_key: public_key.to_string() }
}

fn alice() -> AccountParams {
    AccountParams { account: "alice".to_string() }
}

fn some(s: &str) -> Option<String> {
    Some(s.to_string())
}

fn any_actions() -> GetActionsParams {
    GetActionsParams {
        account: None,
        filter: None,
        track: None,
        skip: None,
        limit: None,
        sort: None,
        after: None,
        before: None,
        simple: None,
    }
}

// Queries

#[test]
fn limits_are_capped() {
    assert_eq!(clamp_limit(None, 1000), 100);
    assert_eq!(clamp_limit(None, 10), 10);
    assert_eq!(clamp_limit(Some(5), 1000), 5);
    assert_eq!(clamp_limit(Some(5000), 1000), 1000);
}

#[test]
fn boundaries_are_blocks_or_times() {
    let range = |field: &str, bounds: Vec<(&str, Json)>| {
        object(vec![("range", object(vec![(field, object(bounds))]))])
    };
    assert_eq!(range_filters(&None, &None), vec![]);
    assert_eq!(
        range_filters(&some("5"), &some("18446744073709551615")),
        vec![range(
            "block_num",
            vec![("gte", Json::Int(5)), ("lte", Json::Int(18446744073709551615))],
        )]
    );
    assert_eq!(
        range_filters(&some("2020-01-01"), &some("7")),
        vec![
            range("block_num", vec![("lte", Json::Int(7))]),
            range("@timestamp", vec![("gte", text("2020-01-01"))]),
        ]
    );
    // One more than fits is no number; a plus sign is part of one.
    assert_eq!(
        range_filters(&some("18446744073709551616"), &some("+7")),
        vec![
            range("block_num", vec![("lte", Json::Int(7))]),
            range("@timestamp", vec![("gte", text("18446744073709551616"))]),
        ]
    );
    assert_eq!(
        range_filters(&some(""), &some("-7")),
        vec![range("@timestamp", vec![("gte", text("")), ("lte", text("-7"))])]
    );
}

#[test]
fn searches_for_actions() {
    assert_eq!(
        history::actions_query(&any_actions(), 1000).unwrap(),
        object(vec![
            ("track_total_hits", Json::Int(10000)),
            ("from", Json::Int(0)),
            ("size", Json::Int(100)),
            ("query", filtered(vec![])),
            ("sort", sorted("global_sequence", "desc")),
        ])
    );
    let must = |clauses: Vec<Json>| object(vec![("bool", object(vec![("must", list(clauses))]))]);
    let p = GetActionsParams {
        account: some("alice"),
        filter: some("eosio.token:transfer,*:issue,eosio:*,*:*,a:b:c"),
        track: some("true"),
        skip: Some(7),
        limit: Some(2000),
        sort: some("asc"),
        after: some("1"),
        ..any_actions()
    };
    let clause = object(vec![(
        "bool",
        object(vec![
            (
                "should",
                list(vec![
                    must(vec![
                        term("act.account", text("eosio.token")),
                        term("act.name", text("transfer")),
                    ]),
                    must(vec![term("act.name", text("issue"))]),
                    must(vec![term("act.account", text("eosio"))]),
                    must(vec![]),
                    must(vec![term("act.account", text("a")), term("act.name", text("b:c"))]),
                ]),
            ),
            ("minimum_should_match", Json::Int(1)),
        ]),
    )]);
    let range = object(vec![(
        "range",
        object(vec![("block_num", object(vec![("gte", Json::Int(1))]))]),
    )]);
    assert_eq!(
        history::actions_query(&p, 1000).unwrap(),
        object(vec![
            ("track_total_hits", Json::Bool(true)),
            ("from", Json::Int(7)),
            ("size", Json::Int(1000)),
            ("query", filtered(vec![term("notified", text("alice")), clause, range])),
            ("sort", sorted("global_sequence", "asc")),
        ])
    );
}

#[test]
fn refuses_bad_filters_and_orders() {
    let error = |filter: &str, sort: &str| {
        let p = GetActionsParams { filter: some(filter), sort: some(sort), ..any_actions() };
        history::actions_query(&p, 1000).unwrap_err()
    };
    let e = error("a:b,broken,other", "sideways");
    assert_eq!((e.0, e.1.as_str()), (BAD_REQUEST, "bad filter entry: broken"));
    let e = error("a:b", "sideways");
    assert_eq!((e.0, e.1.as_str()), (BAD_REQUEST, "bad sort: sideways"));
    let e = error("", "asc");
    assert_eq!(e.1, "bad filter entry: ");
    assert_eq!(e.body(), object(vec![("error", text("bad filter entry: "))]));
}

fn action() -> Json {
    object(vec![
        ("@timestamp", text("T")),
        ("global_sequence", Json::Int(9)),
        ("block_num", Json::Int(4)),
        ("block_id", text("id")),
        ("trx_id", text("trx")),
        (
            "act",
            object(vec![
                ("account", text("eosio")),
                ("name", text("newaccount")),
                ("authorization", list(vec![])),
                ("data", object(vec![("creator", text("alice")), ("newact", text("bob"))])),
            ]),
        ),
        ("notified", list(vec![text("eosio")])),
        ("receipts", list(vec![text("r0"), text("r1")])),
    ])
}

#[test]
fn answers_with_actions() {
    let mut stamped = action();
    if let Json::Object(fields) = &mut stamped {
        fields.push(("timestamp".to_string(), text("T")));
    }
    assert_eq!(
        history::actions_reply(None, &vec![action(), Json::Null], Json::Int(2), 5, 3),
        object(vec![
            ("query_time_ms", Json::Int(5)),
            ("cached", Json::Bool(false)),
            ("lib", Json::Int(3)),
            ("total", Json::Int(2)),
            ("actions", list(vec![stamped.copy(), Json::Null])),
        ])
    );
    let simple = object(vec![
        ("block", Json::Int(4)),
        ("timestamp", text("T")),
        ("transaction_id", text("trx")),
        ("contract", text("eosio")),
        ("action", text("newaccount")),
        ("actors", list(vec![])),
        ("notified", list(vec![text("eosio")])),
        ("data", object(vec![("creator", text("alice")), ("newact", text("bob"))])),
    ]);
    assert_eq!(
        history::actions_reply(Some(true), &vec![action()], Json::Null, 5, 3),
        object(vec![
            ("query_time_ms", Json::Int(5)),
            ("cached", Json::Bool(false)),
            ("lib", Json::Int(3)),
            ("total", Json::Null),
            ("simple_actions", list(vec![simple])),
        ])
    );
    assert_eq!(
        history::transaction_reply(&transaction("ID"), &vec![action()], 5, 3),
        object(vec![
            ("query_time_ms", Json::Int(5)),
            ("executed", Json::Bool(true)),
            ("trx_id", text("ID")),
            ("lib", Json::Int(3)),
            ("actions", list(vec![stamped])),
        ])
    );
    assert_eq!(
        history::transaction_reply(&transaction("ID"), &vec![], 5, 3).field_copy("executed"),
        Json::Bool(false)
    );
}

#[test]
fn searches_for_transactions_in_lower_case() {
    let expected = object(vec![
        ("size", Json::Int(1000)),
        ("query", filtered(vec![term("trx_id", text("abc1"))])),
        ("sort", sorted("global_sequence", "asc")),
    ]);
    assert_eq!(history::transaction_query(&transaction("ABc1")), expected);
    assert_eq!(v1::transaction_query(&transaction_v1("ABc1")), expected);
    assert_eq!(history::make_transaction_search("abc1"), expected);
}

#[test]
fn searches_for_table_rows() {
    let none = || GetDeltasParams {
        code: None,
        scope: None,
        table: None,
        payer: None,
        present: None,
        after: None,
        before: None,
        skip: None,
        limit: None,
        sort: None,
    };
    let p = GetDeltasParams {
        code: some("eosio.token"),
        payer: some("alice"),
        present: Some(false),
        before: some("9"),
        limit: Some(3),
        skip: Some(1),
        sort: some("asc"),
        ..none()
    };
    assert_eq!(
        history::deltas_query(&p, 1000),
        object(vec![
            ("from", Json::Int(1)),
            ("size", Json::Int(3)),
            (
                "query",
                filtered(vec![
                    term("code", text("eosio.token")),
                    term("payer", text("alice")),
                    term("present", Json::Bool(false)),
                    object(vec![(
                        "range",
                        object(vec![("block_num", object(vec![("lte", Json::Int(9))]))]),
                    )]),
                ]),
            ),
            ("sort", sorted("block_num", "asc")),
        ])
    );
    let odd = GetDeltasParams { sort: some("sideways"), ..none() };
    assert_eq!(
        history::deltas_query(&odd, 1000).field_copy("sort"),
        sorted("block_num", "desc")
    );
    assert_eq!(
        history::deltas_reply(vec![text("d")], Json::Int(1), 5),
        object(vec![
            ("query_time_ms", Json::Int(5)),
            ("total", Json::Int(1)),
            ("deltas", list(vec![text("d")])),
        ])
    );
}

#[test]
fn answers_with_abi_snapshots() {
    let p = AbiSnapshotParams { contract: "eosio".to_string(), block: Some(7) };
    let upto = object(vec![(
        "range",
        object(vec![("block_num", object(vec![("lte", Json::Int(7))]))]),
    )]);
    assert_eq!(
        history::snapshot_query(&p),
        object(vec![
            ("size", Json::Int(1)),
            ("query", filtered(vec![term("account", text("eosio")), upto])),
            ("sort", sorted("block_num", "desc")),
        ])
    );
    let found = || vec![object(vec![("block_num", Json::Int(5)), ("abi", text("{}"))])];
    assert_eq!(history::snapshot_text(&found()), some("{}"));
    assert_eq!(history::snapshot_text(&vec![]), None);
    assert_eq!(
        history::snapshot_reply(&found(), object(vec![]), 2),
        object(vec![
            ("query_time_ms", Json::Int(2)),
            ("present", Json::Bool(true)),
            ("block_num", Json::Int(5)),
            ("abi", object(vec![])),
        ])
    );
    assert_eq!(
        history::snapshot_reply(&vec![], Json::Null, 2),
        object(vec![("query_time_ms", Json::Int(2)), ("present", Json::Bool(false))])
    );
}

#[test]
fn answers_about_account_creation() {
    assert_eq!(
        history::created_query(&created("alice")).field_copy("query"),
        filtered(vec![
            term("act.name", text("newaccount")),
            term("act.data.creator.keyword", text("alice")),
        ])
    );
    let older = object(vec![(
        "act",
        object(vec![("data", object(vec![("name", text("carol"))]))]),
    )]);
    let entry = |name: Json, time: Json, trx: Json| {
        object(vec![("name", name), ("timestamp", time), ("trx_id", trx)])
    };
    assert_eq!(
        history::created_reply(&vec![action(), older, Json::Null], 1),
        object(vec![
            ("query_time_ms", Json::Int(1)),
            (
                "accounts",
                list(vec![
                    entry(text("bob"), text("T"), text("trx")),
                    entry(text("carol"), Json::Null, Json::Null),
                    entry(Json::Null, Json::Null, Json::Null),
                ]),
            ),
        ])
    );
    let query = history::creator_query(&created("bob")).field_copy("query").field_copy("bool");
    assert_eq!(query.field_copy("minimum_should_match"), Json::Int(1));
    assert_eq!(
        query.field_copy("should"),
        list(vec![
            term("act.data.newact.keyword", text("bob")),
            term("act.data.name.keyword", text("bob")),
        ])
    );
    assert_eq!(
        history::creator_reply(&created("bob"), &vec![action()], 1).unwrap(),
        object(vec![
            ("query_time_ms", Json::Int(1)),
            ("account", text("bob")),
            ("creator", text("alice")),
            ("timestamp", text("T")),
            ("block_num", Json::Int(4)),
            ("trx_id", text("trx")),
        ])
    );
    let e = history::creator_reply(&created("bob"), &vec![], 1).unwrap_err();
    assert_eq!((e.0, e.1.as_str()), (NOT_FOUND, "account creation not found"));
}

// State

fn owned_by(owner: Json) -> Json {
    object(vec![("owner", owner)])
}

#[test]
fn finds_accounts_by_key() {
    let expected = object(vec![
        ("size", Json::Int(1000)),
        (
            "query",
            filtered(vec![term(
                "keys",
                text("PUB_K1_11111111111111111111111111111111149Mr2R"),
            )]),
        ),
        ("sort", sorted("owner", "asc")),
    ]);
    assert_eq!(
        state::key_query(&key(" \tEOS1111111111111111111111111111111114T1Anm\n")),
        expected
    );
    assert_eq!(
        state::key_query(&key("PUB_K1_11111111111111111111111111111111149Mr2R")),
        expected
    );
    let older = "EOS1111111111111111111111111111111114T1Anm".to_string();
    assert_eq!(v1::key_query(&V1GetKeyAccounts { public_key: older }), expected);
    assert_eq!(
        state::make_key_search("PUB_K1_11111111111111111111111111111111149Mr2R"),
        expected
    );
    let found = || {
        vec![
            owned_by(text("a")),
            owned_by(text("a")),
            owned_by(Json::Null),
            owned_by(text("a")),
            owned_by(text("b")),
        ]
    };
    assert_eq!(state::find_owners(&found()), vec!["a".to_string(), "b".to_string()]);
    assert_eq!(
        state::key_reply(found(), 3),
        object(vec![
            ("query_time_ms", Json::Int(3)),
            ("account_names", list(vec![text("a"), text("b")])),
            ("permissions", list(found())),
        ])
    );
    assert_eq!(
        v1::key_reply(&found()),
        object(vec![("account_names", list(vec![text("a"), text("b")]))])
    );
    assert_eq!(
        v1::controlled_reply(&found()),
        object(vec![("controlled_accounts", list(vec![text("a"), text("b")]))])
    );
    assert_eq!(
        v1::controlled_query(&V1GetControlledAccounts {
            controlling_account: "alice".to_string()
        })
        .field_copy("query"),
        filtered(vec![object(vec![("prefix", object(vec![("accounts", text("alice@"))]))])])
    );
}

#[test]
fn answers_about_accounts_and_tokens() {
    let token = object(vec![
        ("symbol", text("EOS")),
        ("precision", Json::Int(4)),
        ("amount", Json::Float64(0)),
        ("code", text("eosio.token")),
        ("scope", text("alice")),
    ]);
    let shown = || {
        object(vec![
            ("symbol", text("EOS")),
            ("precision", Json::Int(4)),
            ("amount", Json::Float64(0)),
            ("contract", text("eosio.token")),
        ])
    };
    assert_eq!(
        state::tokens_query(&alice()),
        object(vec![
            ("size", Json::Int(1000)),
            ("query", filtered(vec![term("scope", text("alice"))])),
            ("sort", sorted("amount", "desc")),
        ])
    );
    let tokens = vec![token];
    assert_eq!(
        state::tokens_reply(&alice(), &tokens),
        object(vec![("account", text("alice")), ("tokens", list(vec![shown()]))])
    );
    assert_eq!(
        state::account_actions_query(&alice()),
        object(vec![
            ("track_total_hits", Json::Bool(true)),
            ("size", Json::Int(20)),
            ("query", filtered(vec![term("notified", text("alice"))])),
            ("sort", sorted("global_sequence", "desc")),
        ])
    );
    assert_eq!(
        state::account_permissions_query(&alice()),
        object(vec![
            ("size", Json::Int(100)),
            ("query", filtered(vec![term("owner", text("alice"))])),
        ])
    );
    let total = object(vec![("value", Json::Int(77))]);
    assert_eq!(
        state::account_reply(&alice(), &tokens, vec![text("p")], &vec![Json::Null], &total, 1, 2),
        object(vec![
            ("query_time_ms", Json::Int(1)),
            ("account", text("alice")),
            ("lib", Json::Int(2)),
            ("tokens", list(vec![shown()])),
            ("permissions", list(vec![text("p")])),
            ("total_actions", Json::Int(77)),
            ("actions", list(vec![Json::Null])),
        ])
    );
}

// The v1 layer

#[test]
fn windows_into_a_history() {
    let w = |from, size, newest_first| Window { from, size, newest_first };
    assert_eq!(window(None, None), w(0, 20, true));
    assert_eq!(window(Some(-1), Some(-5)), w(0, 5, true));
    assert_eq!(window(Some(-7), Some(5)), w(0, 5, true));
    assert_eq!(window(Some(-1), Some(i64::MIN)), w(0, 1000, true));
    assert_eq!(window(Some(-1), Some(0)), w(0, 0, true));
    assert_eq!(window(Some(3), None), w(3, 1, false));
    assert_eq!(window(Some(3), Some(7)), w(3, 7, false));
    assert_eq!(window(Some(i64::MAX), Some(i64::MAX)), w(i64::MAX as u64, 1000, false));
}

#[test]
fn answers_with_a_window() {
    let tail = window(Some(-1), Some(-2));
    assert_eq!(
        v1::actions_query(
            &V1GetActions { account_name: "alice".to_string(), pos: Some(-1), offset: Some(-2) },
            tail
        ),
        object(vec![
            ("from", Json::Int(0)),
            ("size", Json::Int(2)),
            ("query", filtered(vec![term("notified", text("alice"))])),
            ("sort", sorted("global_sequence", "desc")),
        ])
    );
    let entry = |place: i128, a: &Json| {
        object(vec![
            ("global_action_seq", a.field_copy("global_sequence")),
            ("account_action_seq", Json::Int(place)),
            ("block_num", a.field_copy("block_num")),
            ("block_time", a.field_copy("@timestamp")),
            (
                "action_trace",
                object(vec![
                    (
                        "receipt",
                        if a.is_null() { Json::Null } else { text("r0") },
                    ),
                    ("act", a.field_copy("act")),
                    ("trx_id", a.field_copy("trx_id")),
                    ("block_num", a.field_copy("block_num")),
                    ("block_time", a.field_copy("@timestamp")),
                    ("producer_block_id", a.field_copy("block_id")),
                ]),
            ),
        ])
    };
    assert_eq!(
        v1::actions_reply(&vec![action(), Json::Null], tail, 8),
        object(vec![
            ("actions", list(vec![entry(0, &Json::Null), entry(1, &action())])),
            ("last_irreversible_block", Json::Int(8)),
        ])
    );
    assert_eq!(
        v1::actions_reply(&vec![action(), Json::Null], window(Some(5), Some(2)), 8)
            .field_copy("actions"),
        list(vec![entry(5, &action()), entry(6, &Json::Null)])
    );
}

#[test]
fn answers_with_a_transaction() {
    let e = v1::transaction_reply(&transaction_v1("ID"), &vec![], 1).unwrap_err();
    assert_eq!((e.0, e.1.as_str()), (NOT_FOUND, "transaction ID not found"));
    let act = action().field_copy("act");
    assert_eq!(
        v1::transaction_reply(&transaction_v1("ID"), &vec![action()], 1).unwrap(),
        object(vec![
            ("id", text("ID")),
            ("block_num", Json::Int(4)),
            ("block_time", text("T")),
            ("last_irreversible_block", Json::Int(1)),
            (
                "traces",
                list(vec![object(vec![
                    ("receipt", text("r0")),
                    ("act", act.copy()),
                    ("block_num", Json::Int(4)),
                    ("block_time", text("T")),
                    ("trx_id", text("trx")),
                ])]),
            ),
            (
                "trx",
                object(vec![("trx", object(vec![("actions", list(vec![act]))]))]),
            ),
        ])
    );
}

// Health

fn info(head: i128) -> Json {
    object(vec![
        ("head_block_num", Json::Int(head)),
        ("last_irreversible_block_num", Json::Int(90)),
        ("chain_id", text("cc")),
    ])
}

fn findings(elastic: Ping, info: Json, last_indexed: u32) -> Findings {
    Findings { elastic, elastic_ms: 1, service: "NodeosRPC", info, info_ms: 2, last_indexed }
}

#[test]
fn reports_health() {
    assert_eq!(
        health("1.0", "wax", findings(Ping::Version(text("8")), info(100), 81)),
        object(vec![
            ("version", text("1.0")),
            ("chain", text("wax")),
            (
                "health",
                list(vec![
                    object(vec![
                        ("service", text("Elasticsearch")),
                        ("status", text("OK")),
                        ("service_data", object(vec![("version", text("8"))])),
                        ("time", Json::Int(1)),
                    ]),
                    object(vec![
                        ("service", text("NodeosRPC")),
                        ("status", text("OK")),
                        (
                            "service_data",
                            object(vec![
                                ("head_block_num", Json::Int(100)),
                                ("last_irreversible_block", Json::Int(90)),
                                ("chain_id", text("cc")),
                            ]),
                        ),
                        ("time", Json::Int(2)),
                    ]),
                    object(vec![
                        ("service", text("Indexer")),
                        ("status", text("OK")),
                        (
                            "service_data",
                            object(vec![
                                ("last_indexed_block", Json::Int(81)),
                                ("head_block_num", Json::Int(100)),
                            ]),
                        ),
                    ]),
                ]),
            ),
        ])
    );
}

#[test]
fn reports_what_is_not_well() {
    let states = |f: Findings| match health("1", "c", f).field_copy("health") {
        Json::Array(all) => all.iter().map(|s| s.field_copy("status")).collect::<Vec<Json>>(),
        other => panic!("{other:?}"),
    };
    let down = || Ping::Error("no route".to_string());
    assert_eq!(
        states(findings(down(), Json::Null, 0)),
        vec![text("Error"), text("Error"), text("Warning")]
    );
    assert_eq!(states(findings(down(), info(100), 80))[2], text("Warning"));
    assert_eq!(states(findings(down(), info(100), 101))[2], text("OK"));
    assert_eq!(states(findings(down(), info(0), 0))[2], text("Warning"));
    let report = health("1", "c", findings(down(), Json::Null, 0));
    match report.field_copy("health") {
        Json::Array(all) => {
            assert_eq!(
                all[0].field_copy("service_data"),
                object(vec![("error", text("no route"))])
            );
            assert!(all[1].field("service_data").is_none());
        }
        other => panic!("{other:?}"),
    }
}

#[test]
fn reads_chain_and_server_info() {
    assert_eq!(head_block(&info(7)), 7);
    assert_eq!(head_block(&info(-7)), 0);
    assert_eq!(head_block(&Json::Null), 0);
    assert_eq!(irreversible_block(&info(7)), 90);
    assert_eq!(irreversible_block(&Json::Null), 0);
    let server = object(vec![("version", object(vec![("number", text("8.1"))]))]);
    assert_eq!(elastic_version(&server), text("8.1"));
    assert_eq!(elastic_version(&Json::Null), Json::Null);
    assert!(is_fresh(1999));
    assert!(!is_fresh(2000));
}

#[test]
fn tells_of_itself() {
    let about = root("1.0", "wax");
    assert_eq!(about.field_copy("name"), text("hyperion-rs"));
    assert_eq!(about.field_copy("version"), text("1.0"));
    assert_eq!(about.field_copy("chain"), text("wax"));
    match about.field_copy("endpoints") {
        Json::Array(paths) => {
            assert_eq!(paths.len(), 14);
            assert_eq!(paths[0], text("/v2/health"));
            assert_eq!(paths[13], text("/v1/history/get_controlled_accounts"));
        }
        other => panic!("{other:?}"),
    }
    let e = ApiError::internal("down".to_string());
    assert_eq!(e.0, INTERNAL_ERROR);
}

// JSON

#[test]
fn fields_are_set_in_place_or_at_the_end() {
    let mut fields = vec![("a".to_string(), Json::Int(1)), ("b".to_string(), Json::Int(2))];
    hyperion::json::set(&mut fields, "a", Json::Int(3));
    hyperion::json::set(&mut fields, "c", Json::Int(4));
    let value = Json::Object(fields);
    assert_eq!(
        value,
        object(vec![("a", Json::Int(3)), ("b", Json::Int(2)), ("c", Json::Int(4))])
    );
    assert_eq!(value.copy(), value);
    assert_eq!(Json::Int(-1).as_u64(), None);
    assert_eq!(Json::Int(1 << 64).as_u64(), None);
    assert_eq!(Json::Int((1 << 64) - 1).as_u64(), Some(u64::MAX));
    assert_eq!(text("1").as_u64(), None);
}
