use hyperion::antelope::abi::{Abi, ActionDef, FieldDef, StructDef, TableDef};
use hyperion::antelope::asset::Symbol;
use hyperion::antelope::name::Name;
use hyperion::indexing::abis::{AbiCache, Lookup};
use hyperion::indexing::batch::{index_name, version_of, BulkBatch};
use hyperion::indexing::docs::{Doc, Op};
use hyperion::indexing::processor::Processor;
use hyperion::indexing::units::{plan, DecodedBlock, Unit};
use hyperion::json::Json;
use hyperion::ship::requests::push_varuint32;
use hyperion::ship::results::{BlockPosition, GetBlocksResult};
use std::sync::Arc;

fn name(s: &str) -> Name {
    Name::from_str(s).unwrap()
}

fn text(s: &str) -> Json {
    Json::Str(s.to_string())
}

fn push_name(buf: &mut Vec<u8>, s: &str) {
    buf.extend_from_slice(&name(s).0.to_le_bytes());
}

fn push_bytes(buf: &mut Vec<u8>, data: &[u8]) {
    push_varuint32(buf, data.len() as u32);
    buf.extend_from_slice(data);
}

fn push_text(buf: &mut Vec<u8>, s: &str) {
    push_bytes(buf, s.as_bytes());
}

// Packed ABIs

fn packed_abi(value_type: &str) -> Vec<u8> {
    let mut bytes = Vec::new();
    push_text(&mut bytes, "eosio::abi/1.1");
    bytes.push(1); // alias
    push_text(&mut bytes, "value_type");
    push_text(&mut bytes, value_type);
    bytes.push(1); // struct
    push_text(&mut bytes, "row");
    push_text(&mut bytes, "");
    bytes.push(1); // field
    push_text(&mut bytes, "value");
    push_text(&mut bytes, "value_type");
    bytes.push(1); // action
    push_name(&mut bytes, "run");
    push_text(&mut bytes, "row");
    push_text(&mut bytes, "");
    bytes.push(1); // table
    push_name(&mut bytes, "rows");
    push_text(&mut bytes, "i64");
    bytes.extend_from_slice(&[0, 0]); // key names/types
    push_text(&mut bytes, "row");
    bytes.extend_from_slice(&[0, 0, 0, 0]); // clauses, errors, extensions, variants
    bytes
}

#[test]
fn reuses_decoders_and_invalidates_on_updates_and_clear() {
    let mut cache = AbiCache::new();
    let account = name("contract");
    let action = name("run");
    let table = name("rows");
    assert!(matches!(cache.decoder(account), Lookup::Unknown));
    cache.update(account, &packed_abi("uint32")).unwrap();
    let first = match cache.decoder(account) {
        Lookup::Known(d) => d,
        _ => panic!("no decoder"),
    };
    match cache.decoder(account) {
        Lookup::Known(d) => assert!(Arc::ptr_eq(&first, &d)),
        _ => panic!("no decoder"),
    }
    assert_eq!(
        first.decode_action(action, &7u32.to_le_bytes()).unwrap().field_copy("value"),
        Json::Int(7)
    );
    assert_eq!(
        first.decode_table_row(table, &8u32.to_le_bytes()).unwrap().field_copy("value"),
        Json::Int(8)
    );

    cache.update(account, &packed_abi("uint64")).unwrap();
    let updated = match cache.decoder(account) {
        Lookup::Known(d) => d,
        _ => panic!("no decoder"),
    };
    assert!(!Arc::ptr_eq(&first, &updated));
    let large = u32::MAX as u64 + 1;
    assert_eq!(
        updated.decode_action(action, &large.to_le_bytes()).unwrap().field_copy("value"),
        Json::Int(large as i128)
    );
    assert!(updated.decode_action(action, &7u32.to_le_bytes()).is_err());

    cache.update(account, &[]);
    assert!(matches!(cache.decoder(account), Lookup::Absent));
    cache.update(account, &packed_abi("uint32")).unwrap();
    assert!(matches!(cache.decoder(account), Lookup::Known(_)));
    cache.update(account, &[255]);
    assert!(matches!(cache.decoder(account), Lookup::Absent));
}

/// What a request for an ABI gave.
fn reply(abi: Option<Abi>) -> Result<Option<Abi>, String> {
    Ok(abi)
}

#[test]
fn a_fetched_abi_does_not_replace_a_known_one() {
    let mut cache = AbiCache::new();
    let account = name("contract");
    cache.update(account, &[]);
    cache.store(account, reply(Some(Abi::default())));
    assert!(matches!(cache.lookup(account), Lookup::Absent));
    cache.store(name("other"), reply(Some(Abi::default())));
    assert!(matches!(cache.lookup(name("other")), Lookup::Known(_)));
    cache.store(name("none"), reply(None));
    assert!(matches!(cache.lookup(name("none")), Lookup::Absent));
    // a request that failed gives none
    cache.store(name("down"), Err("connection refused".to_string()));
    assert!(matches!(cache.lookup(name("down")), Lookup::Absent));
}

// A block

fn transfer_data() -> Vec<u8> {
    // transfer{from: alice, to: bob, quantity: 1.0000 EOS, memo: "hi"}
    let mut data = Vec::new();
    push_name(&mut data, "alice");
    push_name(&mut data, "bob");
    data.extend_from_slice(&10000i64.to_le_bytes());
    data.extend_from_slice(&Symbol::from_str("4,EOS").unwrap().0.to_le_bytes());
    push_bytes(&mut data, b"hi");
    data
}

struct Sent<'a> {
    ordinal: u32,
    creator: u32,
    receiver: &'a str,
    digest: u8,
    global_sequence: u64,
    account: &'a str,
    action: &'a str,
    data: Vec<u8>,
}

/// One action_trace_v1.
fn action_trace(buf: &mut Vec<u8>, sent: &Sent) {
    push_varuint32(buf, 1); // action_trace_v1
    push_varuint32(buf, sent.ordinal);
    push_varuint32(buf, sent.creator);
    buf.push(1); // receipt present
    push_varuint32(buf, 0); // action_receipt_v0
    push_name(buf, sent.receiver);
    buf.extend_from_slice(&[sent.digest; 32]); // act_digest
    buf.extend_from_slice(&sent.global_sequence.to_le_bytes());
    buf.extend_from_slice(&1u64.to_le_bytes()); // recv_sequence
    push_varuint32(buf, 1); // auth_sequence
    push_name(buf, "alice");
    buf.extend_from_slice(&7u64.to_le_bytes());
    push_varuint32(buf, 1); // code_sequence
    push_varuint32(buf, 1); // abi_sequence
    push_name(buf, sent.receiver); // action_trace receiver
    // act
    push_name(buf, sent.account);
    push_name(buf, sent.action);
    push_varuint32(buf, 1);
    push_name(buf, "alice");
    push_name(buf, "active");
    push_bytes(buf, &sent.data);
    buf.push(0); // context_free
    buf.extend_from_slice(&50i64.to_le_bytes()); // elapsed
    push_bytes(buf, b""); // console
    push_varuint32(buf, 0); // account_ram_deltas
    buf.push(0); // except
    buf.push(0); // error_code
    push_bytes(buf, &[]); // return_value
}

fn traces_payload(status: u8, all: &[Sent]) -> Vec<u8> {
    let mut buf = Vec::new();
    push_varuint32(&mut buf, 1); // one transaction trace
    push_varuint32(&mut buf, 0); // transaction_trace_v0
    buf.extend_from_slice(&[0xee; 32]); // trx id
    buf.push(status);
    buf.extend_from_slice(&150u32.to_le_bytes());
    push_varuint32(&mut buf, 12);
    buf.extend_from_slice(&2000i64.to_le_bytes());
    buf.extend_from_slice(&96u64.to_le_bytes());
    buf.push(0); // scheduled
    push_varuint32(&mut buf, all.len() as u32);
    for sent in all {
        action_trace(&mut buf, sent);
    }
    buf.push(0); // account_ram_delta
    buf.push(0); // except
    buf.push(0); // error_code
    buf.push(0); // failed_dtrx_trace
    buf.push(1); // partial present
    push_varuint32(&mut buf, 0); // partial_transaction_v0
    buf.extend_from_slice(&1700000000u32.to_le_bytes());
    buf.extend_from_slice(&12u16.to_le_bytes());
    buf.extend_from_slice(&34u32.to_le_bytes());
    push_varuint32(&mut buf, 0);
    buf.push(0);
    push_varuint32(&mut buf, 0);
    push_varuint32(&mut buf, 0); // transaction_extensions
    push_varuint32(&mut buf, 1); // one signature
    buf.push(0);
    buf.extend_from_slice(&[0x11; 65]);
    push_varuint32(&mut buf, 0); // context_free_data
    buf
}

fn delivery(ordinal: u32, receiver: &str, global_sequence: u64) -> Sent<'_> {
    Sent {
        ordinal,
        creator: 0,
        receiver,
        digest: 0xdd,
        global_sequence,
        account: "eosio.token",
        action: "transfer",
        data: transfer_data(),
    }
}

fn transfer_traces() -> Vec<u8> {
    traces_payload(
        0,
        &[
            delivery(1, "eosio.token", 777),
            delivery(2, "alice", 778),
            delivery(3, "bob", 779),
        ],
    )
}

fn table(name: &str, rows: &[(bool, Vec<u8>)]) -> Vec<u8> {
    let mut buf = Vec::new();
    push_varuint32(&mut buf, 0); // table_delta_v0
    push_text(&mut buf, name);
    push_varuint32(&mut buf, rows.len() as u32);
    for (present, row) in rows {
        buf.push(*present as u8);
        push_bytes(&mut buf, row);
    }
    buf
}

fn deltas_payload(tables: &[Vec<u8>]) -> Vec<u8> {
    let mut buf = Vec::new();
    push_varuint32(&mut buf, tables.len() as u32);
    for t in tables {
        buf.extend_from_slice(t);
    }
    buf
}

fn contract_row(code: &str, scope: &str, table: &str, value: &[u8]) -> Vec<u8> {
    let mut row = Vec::new();
    push_varuint32(&mut row, 0); // contract_row_v0
    push_name(&mut row, code);
    push_name(&mut row, scope);
    push_name(&mut row, table);
    row.extend_from_slice(&5u64.to_le_bytes());
    push_name(&mut row, "alice");
    push_bytes(&mut row, value);
    row
}

fn balance(amount: i64) -> Vec<u8> {
    let mut value = amount.to_le_bytes().to_vec();
    value.extend_from_slice(&Symbol::from_str("4,EOS").unwrap().0.to_le_bytes());
    value
}

fn permission_row() -> Vec<u8> {
    let mut row = Vec::new();
    push_varuint32(&mut row, 0); // permission_v0
    push_name(&mut row, "bob"); // owner
    push_name(&mut row, "active"); // name
    push_name(&mut row, "owner"); // parent
    row.extend_from_slice(&1_600_000_000_000_000i64.to_le_bytes()); // last_updated
    row.extend_from_slice(&1u32.to_le_bytes()); // threshold
    push_varuint32(&mut row, 1); // one key
    row.push(0); // K1
    row.extend_from_slice(&[0u8; 33]); // the all-zeros key
    row.extend_from_slice(&1u16.to_le_bytes()); // weight
    push_varuint32(&mut row, 0); // accounts
    push_varuint32(&mut row, 0); // waits
    row
}

fn account_row(account: &str, abi: &[u8]) -> Vec<u8> {
    let mut row = vec![0u8];
    push_name(&mut row, account);
    row.extend_from_slice(&0u32.to_le_bytes());
    push_bytes(&mut row, abi);
    row
}

fn block_payload() -> Vec<u8> {
    let mut buf = Vec::new();
    buf.extend_from_slice(&1000u32.to_le_bytes()); // timestamp slot
    push_name(&mut buf, "producer1");
    buf.extend_from_slice(&0u16.to_le_bytes()); // confirmed
    buf.extend_from_slice(&[0xac; 32]); // previous
    buf.extend_from_slice(&[0x01; 32]); // transaction_mroot
    buf.extend_from_slice(&[0x02; 32]); // action_mroot
    buf.extend_from_slice(&7u32.to_le_bytes()); // schedule_version
    buf.push(0); // new_producers
    push_varuint32(&mut buf, 0); // header_extensions
    buf.push(0); // producer_signature: K1
    buf.extend_from_slice(&[0x22; 65]);
    push_varuint32(&mut buf, 1); // one transaction receipt
    buf.push(0); // status
    buf.extend_from_slice(&150u32.to_le_bytes());
    push_varuint32(&mut buf, 12);
    push_varuint32(&mut buf, 0); // trx variant: transaction_id
    buf.extend_from_slice(&[0xee; 32]);
    buf
}

fn result(
    block: Option<Vec<u8>>,
    traces: Option<Vec<u8>>,
    deltas: Option<Vec<u8>>,
) -> GetBlocksResult {
    let at = |n: u32| BlockPosition { block_num: n, block_id: "ab".repeat(32) };
    GetBlocksResult {
        head: at(100),
        last_irreversible: at(90),
        this_block: Some(at(42)),
        prev_block: Some(at(41)),
        block,
        traces,
        deltas,
    }
}

fn field(n: &str, t: &str) -> FieldDef {
    FieldDef { name: n.to_string(), type_: t.to_string() }
}

fn token_abi() -> Abi {
    Abi {
        version: "eosio::abi/1.1".to_string(),
        structs: vec![
            StructDef {
                name: "transfer".to_string(),
                base: String::new(),
                fields: vec![
                    field("from", "name"),
                    field("to", "name"),
                    field("quantity", "asset"),
                    field("memo", "string"),
                ],
            },
            StructDef {
                name: "account".to_string(),
                base: String::new(),
                fields: vec![field("balance", "asset")],
            },
        ],
        actions: vec![ActionDef {
            name: name("transfer"),
            type_: "transfer".to_string(),
            ricardian_contract: String::new(),
        }],
        tables: vec![TableDef {
            name: name("accounts"),
            index_type: "i64".to_string(),
            key_names: vec![],
            key_types: vec![],
            type_: "account".to_string(),
        }],
        ..Abi::default()
    }
}

/// Works through a block. Returns the documents, and the accounts whose ABIs
/// had to be fetched.
fn process(
    processor: &Processor,
    raw: &GetBlocksResult,
    cache: &mut AbiCache,
) -> (Vec<Doc>, Vec<String>) {
    let block = DecodedBlock::decode(raw).unwrap();
    if block.this_block.is_none() {
        return (Vec::new(), Vec::new());
    }
    let mut asked = Vec::new();
    let mut work = processor.start(&block);
    while let Some(account) = processor.advance(&mut work, cache) {
        asked.push(account.to_string());
        let abi = if account == name("eosio.token") { Some(token_abi()) } else { None };
        cache.store(account, reply(abi));
    }
    (work.docs, asked)
}

fn plain_processor() -> Processor {
    Processor::new(&vec![], name("eosio"))
}

#[test]
fn indexes_a_block_into_documents() {
    let raw = result(
        Some(block_payload()),
        Some(transfer_traces()),
        Some(deltas_payload(&[
            table(
                "contract_row",
                &[(true, contract_row("eosio.token", "alice", "accounts", &balance(123456)))],
            ),
            table("permission", &[(true, permission_row())]),
        ])),
    );
    let (docs, fetched) = process(&plain_processor(), &raw, &mut AbiCache::new());
    assert_eq!(fetched, vec!["eosio.token".to_string()]);
    let kinds: Vec<&str> = docs.iter().map(|d| d.kind).collect();
    assert_eq!(kinds, ["block", "action", "delta", "token", "perm"]);

    // Exactly one action doc: the three notification traces collapse.
    let action = &docs[1];
    assert_eq!(action.id.as_deref(), Some("777"));
    let body = &action.body;
    assert_eq!(body.field_copy("global_sequence"), Json::Int(777));
    assert_eq!(body.field_copy("block_num"), Json::Int(42));
    assert_eq!(body.field_copy("trx_id"), text(&"ee".repeat(32)));
    assert_eq!(body.field_copy("producer"), text("producer1"));
    let act = body.field_copy("act");
    assert_eq!(act.field_copy("account"), text("eosio.token"));
    assert_eq!(act.field_copy("name"), text("transfer"));
    assert_eq!(act.field_copy("data").field_copy("from"), text("alice"));
    assert_eq!(act.field_copy("data").field_copy("quantity"), text("1.0000 EOS"));
    assert_eq!(
        body.field_copy("notified"),
        Json::Array(vec![text("eosio.token"), text("alice"), text("bob")])
    );
    match body.field_copy("receipts") {
        Json::Array(receipts) => assert_eq!(receipts.len(), 3),
        other => panic!("{other:?}"),
    }
    match body.field_copy("signatures") {
        Json::Array(signatures) => {
            assert!(signatures[0].as_str().unwrap().starts_with("SIG_K1_"))
        }
        other => panic!("{other:?}"),
    }

    let block = &docs[0];
    assert_eq!(block.id.as_deref(), Some("42"));
    assert_eq!(block.body.field_copy("block_num"), Json::Int(42));
    assert_eq!(block.body.field_copy("producer"), text("producer1"));
    assert_eq!(block.body.field_copy("trx_count"), Json::Int(1));
    // slot 1000 => 2000-01-01T00:08:20.000
    assert_eq!(block.body.field_copy("@timestamp"), text("2000-01-01T00:08:20.000"));

    let delta = &docs[2];
    assert_eq!(delta.id.as_deref(), Some("42-0"));
    assert_eq!(delta.body.field_copy("code"), text("eosio.token"));
    assert_eq!(delta.body.field_copy("table"), text("accounts"));
    assert_eq!(delta.body.field_copy("data").field_copy("balance"), text("12.3456 EOS"));

    let token = &docs[3];
    assert_eq!(token.id.as_deref(), Some("eosio.token-alice-EOS"));
    assert_eq!(token.body.field_copy("scope"), text("alice"));
    assert_eq!(token.body.field_copy("symbol"), text("EOS"));
    assert_eq!(token.body.field_copy("amount"), Json::Scaled(123456, 4));

    let perm = &docs[4];
    assert_eq!(perm.id.as_deref(), Some("bob-active"));
    assert_eq!(perm.body.field_copy("owner"), text("bob"));
    assert_eq!(perm.body.field_copy("name"), text("active"));
    assert_eq!(
        perm.body.field_copy("keys"),
        Json::Array(vec![text("PUB_K1_11111111111111111111111111111111149Mr2R")])
    );
}

#[test]
fn processing_a_block_again_gives_the_same_documents() {
    let raw = result(Some(block_payload()), Some(transfer_traces()), None);
    let mut cache = AbiCache::new();
    let (first, fetched) = process(&plain_processor(), &raw, &mut cache);
    let (second, fetched_again) = process(&plain_processor(), &raw, &mut cache);
    assert_eq!(fetched.len(), 1);
    assert!(fetched_again.is_empty());
    assert_eq!(first.len(), second.len());
    for (a, b) in first.iter().zip(&second) {
        assert_eq!(a.id, b.id);
        assert_eq!(a.body, b.body);
        assert_eq!(a.op, b.op);
    }
}

#[test]
fn failed_transactions_and_skipped_actions_leave_no_documents() {
    for status in 1..5 {
        let raw = result(None, Some(traces_payload(status, &[delivery(1, "alice", 1)])), None);
        assert!(process(&plain_processor(), &raw, &mut AbiCache::new()).0.is_empty());
    }
    let raw = result(None, Some(transfer_traces()), None);
    let skipping = Processor::new(
        &vec![
            "eosio::onblock".to_string(),
            "malformed".to_string(),
            "BAD::transfer".to_string(),
            "eosio.token::transfer".to_string(),
        ],
        name("eosio"),
    );
    let (docs, fetched) = process(&skipping, &raw, &mut AbiCache::new());
    assert!(docs.is_empty());
    assert!(fetched.is_empty());
    let other = Processor::new(&vec!["eosio.token::issue".to_string()], name("eosio"));
    assert_eq!(process(&other, &raw, &mut AbiCache::new()).0.len(), 1);
}

#[test]
fn undecodable_data_is_kept_in_hexadecimal() {
    let mut sent = delivery(1, "contract", 5);
    sent.account = "contract";
    let raw = result(
        None,
        Some(traces_payload(0, &[sent])),
        Some(deltas_payload(&[table(
            "contract_row",
            &[(true, contract_row("contract", "alice", "accounts", &[0xab, 0x01]))],
        )])),
    );
    let (docs, fetched) = process(&plain_processor(), &raw, &mut AbiCache::new());
    assert_eq!(fetched, vec!["contract".to_string()]);
    let act = docs[0].body.field_copy("act");
    assert!(act.field("data").is_none());
    let hex: String = transfer_data().iter().map(|b| format!("{b:02x}")).collect();
    assert_eq!(act.field_copy("hex_data"), text(&hex));
    assert_eq!(docs[0].body.field_copy("@timestamp"), Json::Null);
    assert_eq!(docs[1].body.field_copy("value_hex"), text("ab01"));
    assert_eq!(docs.len(), 2);
}

#[test]
fn empty_data_needs_no_abi() {
    let mut sent = delivery(1, "contract", 5);
    sent.account = "contract";
    sent.data = vec![];
    let raw = result(None, Some(traces_payload(0, &[sent])), None);
    let (docs, fetched) = process(&plain_processor(), &raw, &mut AbiCache::new());
    assert!(fetched.is_empty());
    assert_eq!(docs[0].body.field_copy("act").field_copy("data"), Json::Object(vec![]));
}

#[test]
fn only_root_actions_carry_signatures_and_the_first_trace_stands_in() {
    // No delivery to the contract itself: the first trace is the primary one.
    let mut first = delivery(4, "alice", 10);
    first.creator = 1;
    let second = delivery(5, "bob", 11);
    let raw = result(None, Some(traces_payload(0, &[first, second])), None);
    let (docs, _) = process(&plain_processor(), &raw, &mut AbiCache::new());
    assert_eq!(docs.len(), 1);
    assert_eq!(docs[0].id.as_deref(), Some("10"));
    assert!(docs[0].body.field("signatures").is_none());
    assert_eq!(docs[0].body.field_copy("action_ordinal"), Json::Int(4));
}

#[test]
fn different_actions_stay_apart_in_their_order() {
    let mut other = delivery(2, "eosio.token", 2);
    other.digest = 1;
    let raw = result(
        None,
        Some(traces_payload(
            0,
            &[delivery(1, "eosio.token", 1), other, delivery(3, "alice", 3)],
        )),
        None,
    );
    let (docs, _) = process(&plain_processor(), &raw, &mut AbiCache::new());
    let ids: Vec<&str> = docs.iter().map(|d| d.id.as_deref().unwrap()).collect();
    assert_eq!(ids, ["1", "2"]);
    assert_eq!(
        docs[0].body.field_copy("notified"),
        Json::Array(vec![text("eosio.token"), text("alice")])
    );
}

fn setabi(account: &str, abi: &[u8]) -> Vec<u8> {
    let mut data = Vec::new();
    push_name(&mut data, account);
    push_bytes(&mut data, abi);
    data
}

#[test]
fn abi_updates_count_from_where_they_stand() {
    let set = Sent {
        ordinal: 1,
        creator: 0,
        receiver: "eosio",
        digest: 1,
        global_sequence: 1,
        account: "eosio",
        action: "setabi",
        data: setabi("contract", &packed_abi("uint32")),
    };
    let run = Sent {
        ordinal: 2,
        creator: 0,
        receiver: "contract",
        digest: 2,
        global_sequence: 2,
        account: "contract",
        action: "run",
        data: 7u32.to_le_bytes().to_vec(),
    };
    let raw = result(
        None,
        Some(traces_payload(0, &[set, run])),
        Some(deltas_payload(&[
            table("account", &[(true, account_row("contract", &packed_abi("uint8")))]),
            table("contract_row", &[(true, contract_row("contract", "s", "rows", &[9]))]),
        ])),
    );
    let mut cache = AbiCache::new();
    cache.store(name("eosio"), reply(None));
    let (docs, fetched) = process(&plain_processor(), &raw, &mut cache);
    assert!(fetched.is_empty());
    let kinds: Vec<&str> = docs.iter().map(|d| d.kind).collect();
    assert_eq!(kinds, ["action", "action", "abi", "delta"]);
    let data = docs[1].body.field_copy("act").field_copy("data");
    assert_eq!(data.field_copy("value"), Json::Int(7));
    assert_eq!(docs[2].id.as_deref(), Some("42-contract"));
    assert_eq!(docs[2].body.field_copy("actions"), Json::Array(vec![text("run")]));
    assert_eq!(docs[2].body.field_copy("tables"), Json::Array(vec![text("rows")]));
    match docs[2].body.field_copy("abi") {
        Json::Encoded(abi) => {
            assert_eq!(abi.field_copy("version"), text("eosio::abi/1.1"));
        }
        other => panic!("{other:?}"),
    }
    assert_eq!(docs[3].body.field_copy("data").field_copy("value"), Json::Int(9));

    // The setabi of another account than the system's does not count.
    let pulse = Processor::new(&vec![], name("pulse"));
    let set = Sent {
        ordinal: 1,
        creator: 0,
        receiver: "eosio",
        digest: 1,
        global_sequence: 1,
        account: "eosio",
        action: "setabi",
        data: setabi("contract", &packed_abi("uint32")),
    };
    let raw = result(None, Some(traces_payload(0, &[set])), None);
    let mut cache = AbiCache::new();
    cache.store(name("eosio"), reply(None));
    process(&pulse, &raw, &mut cache);
    assert!(matches!(cache.lookup(name("contract")), Lookup::Unknown));
}

#[test]
fn an_empty_account_row_clears_the_abi() {
    let raw = result(
        None,
        None,
        Some(deltas_payload(&[
            table("contract_row", &[(true, contract_row("contract", "s", "rows", &[9]))]),
            table("account", &[(true, account_row("contract", &[]))]),
            table("contract_row", &[(true, contract_row("contract", "s", "rows", &[9]))]),
        ])),
    );
    let mut cache = AbiCache::new();
    cache.update(name("contract"), &packed_abi("uint8")).unwrap();
    let (docs, asked) = process(&plain_processor(), &raw, &mut cache);
    assert!(asked.is_empty());
    let kinds: Vec<&str> = docs.iter().map(|d| d.kind).collect();
    assert_eq!(kinds, ["delta", "delta"]);
    assert_eq!(docs[0].body.field_copy("data").field_copy("value"), Json::Int(9));
    assert_eq!(docs[1].body.field_copy("data"), Json::Null);
    assert_eq!(docs[1].body.field_copy("value_hex"), text("09"));
    assert!(matches!(cache.lookup(name("contract")), Lookup::Absent));
    assert!(matches!(cache.decoder(name("contract")), Lookup::Absent));

    // A removed account row changes nothing.
    let raw = result(
        None,
        None,
        Some(deltas_payload(&[table("account", &[(false, account_row("contract", &[]))])])),
    );
    cache.update(name("contract"), &packed_abi("uint8")).unwrap();
    process(&plain_processor(), &raw, &mut cache);
    assert!(matches!(cache.lookup(name("contract")), Lookup::Known(_)));
}

#[test]
fn indexing_a_block_again_gives_the_same_documents() {
    let raw = result(
        None,
        None,
        Some(deltas_payload(&[
            table("account", &[(true, account_row("contract", &packed_abi("uint8")))]),
            table("permission", &[(true, permission_row())]),
            table("contract_row", &[(true, contract_row("contract", "s", "rows", &[9]))]),
        ])),
    );
    let (first, _) = process(&plain_processor(), &raw, &mut AbiCache::new());
    let (again, _) = process(&plain_processor(), &raw, &mut AbiCache::new());
    assert_eq!(first.len(), 3);
    assert_eq!(first.len(), again.len());
    for (a, b) in first.iter().zip(&again) {
        assert!(a.id.is_some());
        assert_eq!((a.kind, &a.id, a.op, &a.body), (b.kind, &b.id, b.op, &b.body));
    }
}

#[test]
fn removed_rows_delete_documents() {
    let raw = result(
        None,
        None,
        Some(deltas_payload(&[
            table("account", &[(false, account_row("contract", &packed_abi("uint8")))]),
            table("account", &[(true, account_row("contract", &[]))]),
            table("account", &[(true, account_row("contract", &[255]))]),
            table("permission", &[(false, permission_row()), (true, vec![9])]),
            table(
                "contract_row",
                &[
                    (true, vec![9]),
                    (false, contract_row("eosio.token", "alice", "accounts", &balance(0))),
                    (true, contract_row("eosio.token", "alice", "other", &balance(0))),
                ],
            ),
            table("resource_usage", &[(true, vec![1])]),
        ])),
    );
    let (docs, _) = process(&plain_processor(), &raw, &mut AbiCache::new());
    let seen: Vec<(&str, Op, &str)> =
        docs.iter().map(|d| (d.kind, d.op, d.id.as_deref().unwrap())).collect();
    assert_eq!(
        seen,
        [
            ("perm", Op::Delete, "bob-active"),
            ("delta", Op::Index, "42-0"),
            ("token", Op::Delete, "eosio.token-alice-EOS"),
            ("delta", Op::Index, "42-1"),
        ]
    );
    assert_eq!(docs[1].body.field_copy("present"), Json::Bool(false));
}

#[test]
fn malformed_payloads_are_errors_but_a_malformed_header_is_not() {
    assert!(DecodedBlock::decode(&result(None, Some(vec![255]), None)).is_err());
    assert!(DecodedBlock::decode(&result(None, None, Some(vec![255]))).is_err());
    let block = DecodedBlock::decode(&result(Some(vec![255]), None, None)).unwrap();
    assert!(block.header.is_none());
    let (docs, _) =
        process(&plain_processor(), &result(Some(vec![1]), None, None), &mut AbiCache::new());
    assert!(docs.is_empty());
    // A result that is about no block holds nothing, whatever its payloads are.
    let mut none = result(Some(vec![255]), Some(vec![255]), Some(vec![255]));
    none.this_block = None;
    let block = DecodedBlock::decode(&none).unwrap();
    assert!(block.this_block.is_none() && block.traces.is_empty() && block.deltas.is_empty());
}

#[test]
fn plans_actions_before_rows() {
    let raw = result(
        None,
        Some(transfer_traces()),
        Some(deltas_payload(&[
            table("permission", &[(true, permission_row())]),
            table(
                "contract_row",
                &[
                    (true, contract_row("a", "b", "c", &[])),
                    (true, contract_row("a", "b", "c", &[])),
                ],
            ),
        ])),
    );
    let block = DecodedBlock::decode(&raw).unwrap();
    let units = plan(&block);
    assert!(matches!(units[0], Unit::Action(_)));
    assert!(matches!(units[1], Unit::Permission(_, true)));
    assert!(matches!(units[2], Unit::Contract(_, true, 0)));
    assert!(matches!(units[3], Unit::Contract(_, true, 1)));
    assert_eq!(units.len(), 4);
}

// Bulk requests

fn lines_of(body: &[u8]) -> Vec<serde_json::Value> {
    String::from_utf8(body.to_vec())
        .unwrap()
        .lines()
        .map(|line| serde_json::from_str(line).unwrap())
        .collect()
}

fn value(s: &str) -> serde_json::Value {
    serde_json::from_str(s).unwrap()
}

#[test]
fn serializes_index_and_delete_operations_with_escaped_metadata() {
    let source = value(r#"{"memo": "line one\nline two", "value": 42}"#);
    let body = serde_json::to_vec(&source).unwrap();
    let mut batch = BulkBatch::default();
    let mut doc = Doc {
        kind: "action",
        id: Some("quoted\"id\n".to_string()),
        body: Json::Null,
        op: Op::Index,
    };
    batch.push("test-action", &doc, &body, 7).unwrap();
    doc.id = None;
    batch.push("test-action", &doc, &body, 7).unwrap();
    doc.op = Op::Delete;
    doc.id = Some("balance".to_string());
    batch.push("test-token", &doc, &body, (2u64 << 32) | 1).unwrap();
    assert_eq!(batch.count, 3);
    assert_eq!(batch.max_block, 2);
    assert!(batch.body.ends_with(b"\n"));
    assert_eq!(
        lines_of(&batch.body),
        vec![
            value(
                r#"{"index": {"_index": "test-action", "_id": "quoted\"id\n",
                              "version_type": "external", "version": 7}}"#
            ),
            source.clone(),
            value(
                r#"{"index": {"_index": "test-action",
                              "version_type": "external", "version": 7}}"#
            ),
            source,
            value(
                r#"{"delete": {"_index": "test-token", "_id": "balance",
                               "version_type": "external", "version": 8589934593}}"#
            ),
        ]
    );
}

#[test]
fn metadata_is_one_line_of_valid_json() {
    let id: String = (0u8..=127).map(|b| b as char).chain(['\u{e9}', '\u{1f600}']).collect();
    let doc = Doc { kind: "token", id: Some(id.clone()), body: Json::Null, op: Op::Delete };
    let mut batch = BulkBatch::new();
    batch.push("a\"b", &doc, &[], 1).unwrap();
    let lines = lines_of(&batch.body);
    assert_eq!(lines.len(), 1);
    assert_eq!(lines[0]["delete"]["_id"].as_str(), Some(id.as_str()));
    assert_eq!(lines[0]["delete"]["_index"].as_str(), Some("a\"b"));
}

#[test]
fn a_document_without_an_id_cannot_be_deleted() {
    let doc = Doc { kind: "token", id: None, body: Json::Null, op: Op::Delete };
    let mut batch = BulkBatch::new();
    assert!(batch.push("test-token", &doc, &[], 1).is_err());
    assert_eq!((batch.body.len(), batch.count, batch.max_block), (0, 0, 0));
}

#[test]
fn a_block_is_pushed_under_rising_versions() {
    let doc = |id: &str, op: Op| Doc {
        kind: "perm",
        id: Some(id.to_string()),
        body: Json::Null,
        op,
    };
    let docs = vec![doc("a", Op::Index), doc("b", Op::Delete)];
    let bodies = vec![b"{}".to_vec(), vec![]];
    let mut batch = BulkBatch::new();
    batch.push_block("wax", 3, &docs, &bodies).unwrap();
    let lines = lines_of(&batch.body);
    assert_eq!(lines.len(), 3);
    assert_eq!(lines[0]["index"]["_index"].as_str(), Some("wax-perm"));
    assert_eq!(lines[0]["index"]["version"].as_u64(), Some(3 << 32));
    assert_eq!(lines[2]["delete"]["version"].as_u64(), Some((3 << 32) + 1));
    assert_eq!(batch.max_block, 3);
    assert_eq!(version_of(u32::MAX, u32::MAX), u64::MAX);
    assert_eq!(index_name("wax", "action"), "wax-action");

    assert!(!batch.is_due(3, 1000, false));
    assert!(batch.is_due(2, 1000, false));
    assert!(batch.is_due(3, batch.body.len(), false));
    assert!(batch.is_due(3, 1000, true));
    let taken = batch.take();
    assert_eq!(taken.count, 2);
    assert_eq!(batch.count, 0);
    assert!(!batch.is_due(0, 0, true));
}
