use hyperion::chain::{ApiRequest, ChainApiKind, ChainClient, RpcFailure};
use hyperion::config::{
    default_system_account, ApiConfig, ChainConfig, Config, ElasticConfig, IndexerConfig,
};
use hyperion::elastic::{
    checkpoint_of, count_failed, index_definitions, make_checkpoint, make_index_path,
    max_block_query, search_sources, Elastic,
};
use hyperion::indexing::batcher::Batcher;
use hyperion::indexing::docs::{Doc, Op};
use hyperion::indexing::pipeline::{Confirmed, Sequencer, Writer, Written};
use hyperion::indexing::progress::{start_block, Progress};
use hyperion::antelope::name::Name;
use hyperion::json::Json;

fn text(s: &str) -> Json {
    Json::Str(s.to_string())
}

fn object(fields: Vec<(&str, Json)>) -> Json {
    Json::Object(fields.into_iter().map(|(k, v)| (k.to_string(), v)).collect())
}

fn config() -> Config {
    Config {
        chain: ChainConfig {
            name: "test".to_string(),
            http: "http://127.0.0.1:1//".to_string(),
            ship: "ws://127.0.0.1:1".to_string(),
            api: ChainApiKind::default(),
            system_account: default_system_account(),
        },
        indexer: IndexerConfig { flush_interval_ms: 50, ..IndexerConfig::for_cpus(Some(8)) },
        elasticsearch: ElasticConfig::default(),
        api: ApiConfig::default(),
    }
}

// Order

#[test]
fn decoder_pool_is_bounded_and_preserves_fork_arrival_order() {
    // A backwards jump and a repeated height must not be sorted by height.
    let arriving = [100, 101, 99, 99];
    let mut pool: Sequencer<u32> = Sequencer::new(2).unwrap();
    let a = pool.submit().unwrap();
    let b = pool.submit().unwrap();
    assert!(pool.submit().is_none());
    pool.complete(b, arriving[1]);
    // A later block must not overtake an earlier one, and completed results
    // count towards the limit.
    assert!(pool.next_ready().is_none());
    assert!(!pool.wants_input());
    pool.complete(a, arriving[0]);
    let mut numbers = vec![pool.next_ready().unwrap(), pool.next_ready().unwrap()];
    assert!(pool.wants_input());
    let c = pool.submit().unwrap();
    let d = pool.submit().unwrap();
    pool.close();
    assert!(pool.submit().is_none());
    assert!(!pool.is_finished());
    pool.complete(d, arriving[3]);
    pool.complete(c, arriving[2]);
    while let Some(n) = pool.next_ready() {
        numbers.push(n);
    }
    assert_eq!(numbers, arriving);
    assert!(pool.is_finished());
    assert!(Sequencer::<u32>::new(0).is_none());
}

fn written(max_block: u32) -> Written<String> {
    Written { max_block, result: Ok(()) }
}

fn failure() -> Written<String> {
    Written { max_block: 1, result: Err("bulk indexing failed".to_string()) }
}

#[test]
fn writer_stops_before_submitting_queued_batches_after_failure() {
    let mut writer: Writer<String> = Writer::new(1).unwrap();
    let first = writer.submit().unwrap();
    assert!(!writer.wants_input());
    writer.complete(first, failure());
    match writer.confirm() {
        Confirmed::Failed(e) => assert!(e.contains("bulk indexing failed")),
        _ => panic!("no failure"),
    }
    assert!(!writer.wants_input());
    assert!(writer.submit().is_none());
    assert!(!writer.is_finished());
}

#[test]
fn checkpoint_never_advances_past_a_failed_batch_even_if_a_later_one_lands_first() {
    let mut writer: Writer<String> = Writer::new(4).unwrap();
    let first = writer.submit().unwrap();
    let second = writer.submit().unwrap();
    writer.complete(second, written(2));
    assert!(matches!(writer.confirm(), Confirmed::Nothing));
    writer.complete(first, failure());
    assert!(matches!(writer.confirm(), Confirmed::Failed(_)));
    assert!(matches!(writer.confirm(), Confirmed::Nothing));
}

#[test]
fn the_checkpoint_follows_the_confirmed_batches() {
    let mut writer: Writer<String> = Writer::new(4).unwrap();
    let a = writer.submit().unwrap();
    let b = writer.submit().unwrap();
    let c = writer.submit().unwrap();
    writer.complete(c, written(9));
    writer.complete(a, written(5));
    assert!(matches!(writer.confirm(), Confirmed::Checkpoint(5)));
    assert!(matches!(writer.confirm(), Confirmed::Nothing));
    writer.close();
    // A microfork: the batch reaches less far than the one before.
    writer.complete(b, written(4));
    assert!(matches!(writer.confirm(), Confirmed::Same));
    assert!(!writer.is_finished());
    assert!(matches!(writer.confirm(), Confirmed::Checkpoint(9)));
    assert!(writer.is_finished());
    assert!(Writer::<String>::new(0).is_none());
}

// Batches in time

fn doc(id: &str) -> Doc {
    Doc { kind: "block", id: Some(id.to_string()), body: Json::Null, op: Op::Index }
}

#[test]
fn partial_batch_flush_deadline_does_not_reset_on_arrival() {
    let mut batcher = Batcher::new(&config(), 1000);
    assert_eq!(batcher.time_left(1000), None);
    batcher.progress.enter(Some(1));
    assert!(batcher.add_block(&vec![doc("1")], &vec![b"{}".to_vec()], 1000).unwrap().is_none());
    assert_eq!(batcher.time_left(1000), Some(50));
    batcher.progress.enter(Some(2));
    assert!(batcher.add_block(&vec![doc("2")], &vec![b"{}".to_vec()], 1040).unwrap().is_none());
    assert_eq!(batcher.time_left(1040), Some(10));
    assert_eq!(batcher.time_left(1050), Some(0));
    let batch = batcher.flush(1050).unwrap();
    assert_eq!(batch.count, 2);
    assert_eq!(batch.max_block, 2);
    assert_eq!(batcher.time_left(1050), None);
    assert!(batcher.flush(1060).is_none());
}

#[test]
fn full_large_and_late_batches_are_sent() {
    let one = || (vec![doc("1")], vec![b"{}".to_vec()]);
    let mut settings = config();
    settings.indexer.batch_size = 2;
    let mut batcher = Batcher::new(&settings, 0);
    let (docs, bodies) = one();
    assert!(batcher.add_block(&docs, &bodies, 0).unwrap().is_none());
    assert_eq!(batcher.add_block(&docs, &bodies, 0).unwrap().unwrap().count, 2);

    settings.indexer.batch_size = 100;
    settings.indexer.batch_max_bytes = 10;
    let mut batcher = Batcher::new(&settings, 0);
    assert!(batcher.add_block(&docs, &bodies, 0).unwrap().is_some());

    settings.indexer.batch_max_bytes = 1000;
    let mut batcher = Batcher::new(&settings, 0);
    assert!(batcher.add_block(&vec![], &vec![], 90).unwrap().is_none());
    assert!(batcher.add_block(&docs, &bodies, 90).unwrap().is_some());
    assert_eq!(batcher.last_flush, 90);

    let mut bad = doc("1");
    bad.op = Op::Delete;
    bad.id = None;
    assert!(batcher.add_block(&vec![bad], &vec![vec![]], 90).is_err());
}

// Where to start

#[test]
fn resumes_behind_what_is_confirmed() {
    assert_eq!(start_block(7, Some(1), Some(2), Some(3)), Some(7));
    assert_eq!(start_block(0, Some(1), Some(2), Some(3)), Some(2));
    assert_eq!(start_block(0, None, Some(2), Some(3)), Some(3));
    assert_eq!(start_block(0, None, None, Some(3)), Some(4));
    assert_eq!(start_block(0, None, None, None), Some(1));
    assert_eq!(start_block(0, Some(u32::MAX), None, None), None);
}

#[test]
fn notices_microforks() {
    let mut progress = Progress { last_block: 0 };
    assert!(!progress.enter(Some(5)));
    assert!(!progress.enter(Some(6)));
    assert!(progress.enter(Some(6)));
    assert!(progress.enter(Some(3)));
    assert!(!progress.enter(None));
    assert_eq!(progress.last_block, 3);
}

// Settings

#[test]
fn default_settings() {
    let c = IndexerConfig::for_cpus(Some(1));
    assert_eq!(c.decode_workers, 0);
    assert_eq!(IndexerConfig::for_cpus(Some(2)).decode_workers, 1);
    assert_eq!(IndexerConfig::for_cpus(Some(64)).decode_workers, 2);
    assert_eq!(IndexerConfig::for_cpus(None).decode_workers, 0);
    assert_eq!(c.batch_size, 2000);
    assert_eq!(c.batch_max_bytes, 5 * 1024 * 1024);
    assert_eq!(c.flush_interval_ms, 500);
    assert_eq!(c.writer_concurrency, 4);
    assert!(c.check().is_ok());
    assert_eq!(ElasticConfig::default().url, "http://127.0.0.1:9200");
    assert_eq!(ApiConfig::default().max_limit, 1000);
    assert_eq!(config().index("action"), "test-action");
}

#[test]
fn refuses_settings_that_make_no_sense() {
    let base = || IndexerConfig::for_cpus(None);
    let cases = [
        (
            IndexerConfig { max_messages_in_flight: 0, batch_size: 0, ..base() },
            "max_messages_in_flight must be positive",
        ),
        (IndexerConfig { batch_size: 0, ..base() }, "batch_size must be positive"),
        (IndexerConfig { batch_max_bytes: 0, ..base() }, "batch_max_bytes must be positive"),
        (IndexerConfig { flush_interval_ms: 0, ..base() }, "flush_interval_ms must be positive"),
    ];
    for (c, message) in cases {
        assert_eq!(c.check(), Err(message));
    }
}

#[test]
fn the_end_of_the_requested_range_is_exclusive() {
    let mut c = IndexerConfig::for_cpus(None);
    assert_eq!(c.request(5).end_block_num, u32::MAX);
    c.stop_block = 42;
    let r = c.request(42);
    assert_eq!((r.start_block_num, r.end_block_num), (42, 43));
    assert!(r.fetch_block && r.fetch_traces && r.fetch_deltas && !r.irreversible_only);
    assert_eq!(r.max_messages_in_flight, 128);
}

// The chain API

#[test]
fn chain_requests_in_both_dialects() {
    let nodeos = config().chain.client();
    assert_eq!(nodeos.kind(), ChainApiKind::Antelope);
    assert_eq!(nodeos.service_name(), "NodeosRPC");
    match nodeos.info_request(0) {
        ApiRequest::Get(url) => assert_eq!(url, "http://127.0.0.1:1/v1/chain/get_info"),
        _ => panic!("not a GET"),
    }
    let token = Name::from_str("eosio.token").unwrap();
    let params = || object(vec![("account_name", text("eosio.token"))]);
    match nodeos.abi_request(token, 0) {
        ApiRequest::Post(url, body) => {
            assert_eq!(url, "http://127.0.0.1:1/v1/chain/get_abi");
            assert_eq!(body, params());
        }
        _ => panic!("not a POST"),
    }

    let pulse = ChainClient::new("http://node/rpc/", ChainApiKind::PulseVm);
    assert_eq!(pulse.service_name(), "PulseVM-RPC");
    let rpc = |id: i128, method: &str, params: Json| {
        object(vec![
            ("jsonrpc", text("2.0")),
            ("id", Json::Int(id)),
            ("method", text(method)),
            ("params", params),
        ])
    };
    match pulse.info_request(3) {
        ApiRequest::Post(url, body) => {
            assert_eq!(url, "http://node/rpc");
            assert_eq!(body, rpc(3, "pulsevm.getInfo", Json::Null));
        }
        _ => panic!("not a POST"),
    }
    match pulse.abi_request(token, 4) {
        ApiRequest::Post(url, body) => {
            assert_eq!(url, "http://node/rpc");
            assert_eq!(body, rpc(4, "pulsevm.getABI", params()));
        }
        _ => panic!("not a POST"),
    }
}

#[test]
fn chain_replies_in_both_dialects() {
    let nodeos = ChainClient::new("http://node", ChainApiKind::Antelope);
    let pulse = ChainClient::new("http://node", ChainApiKind::PulseVm);
    let reply = |key: &str| object(vec![("id", Json::Int(1)), (key, text("x"))]);
    assert_eq!(nodeos.abi_reply(&reply("abi")), Some(text("x")));
    assert_eq!(nodeos.abi_reply(&object(vec![("abi", Json::Null)])), None);
    assert_eq!(nodeos.abi_reply(&reply("other")), None);
    assert_eq!(pulse.abi_reply(&reply("result")), Some(text("x")));
    assert_eq!(pulse.abi_reply(&reply("error")), None);
    assert_eq!(pulse.abi_reply(&object(vec![("result", Json::Null)])), None);
    // a transport failure is an error in both dialects
    let down = || Err::<Json, &str>("connection refused");
    assert_eq!(nodeos.abi_outcome(down()), Err("connection refused"));
    assert_eq!(pulse.abi_outcome(down()), Err("connection refused"));
    assert_eq!(pulse.abi_outcome(Ok::<Json, &str>(reply("result"))), Ok(Some(text("x"))));
    assert_eq!(pulse.abi_outcome(Ok::<Json, &str>(reply("error"))), Ok(None));
    assert!(nodeos.info_reply(reply("error")).is_ok());
    match pulse.info_reply(reply("error")) {
        Err(RpcFailure::Error(e)) => assert_eq!(e, text("x")),
        _ => panic!("no error"),
    }
    match pulse.info_reply(reply("other")) {
        Err(RpcFailure::MissingResult) => {}
        _ => panic!("no error"),
    }
    let both = object(vec![("error", Json::Null), ("result", text("y"))]);
    assert!(matches!(pulse.info_reply(both), Ok(Json::Str(s)) if s == "y"));
}

// Elasticsearch

#[test]
fn index_definitions_cover_every_kind() {
    let all = index_definitions(3, 1);
    let kinds: Vec<&str> = all.iter().map(|(k, _)| *k).collect();
    assert_eq!(kinds, ["action", "block", "delta", "abi", "perm", "token"]);
    for (_, body) in &all {
        let settings = body.field_copy("settings");
        assert_eq!(settings.field_copy("number_of_shards"), Json::Int(3));
        assert_eq!(settings.field_copy("number_of_replicas"), Json::Int(1));
        assert_eq!(settings.field_copy("refresh_interval"), text("1s"));
    }
    let action = all[0].1.field_copy("mappings").field_copy("properties");
    assert_eq!(action.field_copy("@timestamp"), object(vec![("type", text("date"))]));
    assert_eq!(
        action.field_copy("act.data"),
        object(vec![("type", text("object")), ("enabled", Json::Bool(false))])
    );
    assert_eq!(
        action.field_copy("act.hex_data"),
        object(vec![
            ("type", text("keyword")),
            ("index", Json::Bool(false)),
            ("doc_values", Json::Bool(false)),
        ])
    );
    assert_eq!(
        action.field_copy("signatures"),
        object(vec![("type", text("keyword")), ("index", Json::Bool(false))])
    );
    let token = all[5].1.field_copy("mappings").field_copy("properties");
    assert_eq!(token.field_copy("amount"), object(vec![("type", text("double"))]));
}

fn item(status: i128) -> Json {
    object(vec![("index", object(vec![("status", Json::Int(status))]))])
}

#[test]
fn counts_failed_items() {
    let reply = |errors: Json, items: Vec<Json>| {
        object(vec![("errors", errors), ("items", Json::Array(items))])
    };
    assert_eq!(count_failed(&reply(Json::Bool(false), vec![item(429)])), 0);
    assert_eq!(count_failed(&reply(Json::Null, vec![item(429)])), 0);
    assert_eq!(
        count_failed(&reply(
            Json::Bool(true),
            vec![item(200), item(299), item(300), item(429), object(vec![]), Json::Null],
        )),
        2
    );
    assert_eq!(count_failed(&object(vec![("errors", Json::Bool(true))])), 0);
    assert_eq!(count_failed(&Json::Null), 0);
}

#[test]
fn finds_the_sources_of_hits() {
    let reply = object(vec![(
        "hits",
        object(vec![
            ("total", Json::Int(7)),
            (
                "hits",
                Json::Array(vec![object(vec![("_source", text("a"))]), object(vec![])]),
            ),
        ]),
    )]);
    let (hits, total) = search_sources(&reply);
    assert_eq!(hits, vec![text("a"), Json::Null]);
    assert_eq!(total, Json::Int(7));
    let (hits, total) = search_sources(&Json::Null);
    assert!(hits.is_empty());
    assert_eq!(total, Json::Null);
}

#[test]
fn addresses_and_credentials() {
    let mut c = ElasticConfig { url: "http://es:9200/".to_string(), ..ElasticConfig::default() };
    let es = Elastic::new(&c);
    assert_eq!(es.url("/_bulk"), "http://es:9200/_bulk");
    assert_eq!(es.credentials(), None);
    c.user = "u".to_string();
    c.pass = "p".to_string();
    assert_eq!(Elastic::new(&c).credentials(), Some(("u", "p")));
    assert_eq!(make_index_path("wax-action", "/_search"), "/wax-action/_search");
    let max = object(vec![("max", object(vec![("field", text("block_num"))]))]);
    assert_eq!(
        max_block_query(),
        object(vec![("size", Json::Int(0)), ("aggs", object(vec![("max_block", max)]))])
    );
}

#[test]
fn checkpoints_read_back() {
    for n in [0, 7, u32::MAX] {
        let reply = object(vec![("_source", make_checkpoint(n))]);
        assert_eq!(checkpoint_of(&reply), Some(n));
    }
    assert_eq!(checkpoint_of(&object(vec![("found", Json::Bool(false))])), None);
    let huge = object(vec![("_source", object(vec![("block_num", Json::Int(1 << 32))]))]);
    assert_eq!(checkpoint_of(&huge), None);
}
