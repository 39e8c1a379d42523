use hyperion::antelope::name::Name;
use hyperion::antelope::reader::ByteReader;
use hyperion::antelope::AntelopeError;
use hyperion::ship::client::{
    handshake, next_result, read_step, status_of, Frame, ReadStep, ShipConfig,
};
use hyperion::ship::deltas::{AccountRow, ContractRow, PermissionRow, TableDelta};
use hyperion::ship::header::BlockHeader;
use hyperion::ship::requests::{
    encode_get_blocks_ack_request, encode_get_blocks_request, encode_get_status_request,
    push_varuint32, GetBlocksRequest,
};
use hyperion::ship::results::{BlockPosition, ShipResult};
use hyperion::ship::traces::TransactionTrace;
use hyperion::ship::ShipError;

fn push_name(buf: &mut Vec<u8>, name: &str) {
    buf.extend_from_slice(&Name::from_str(name).unwrap().0.to_le_bytes());
}

fn push_bytes(buf: &mut Vec<u8>, data: &[u8]) {
    push_varuint32(buf, data.len() as u32);
    buf.extend_from_slice(data);
}

#[test]
fn encodes_get_blocks_request() {
    let req = GetBlocksRequest {
        start_block_num: 100,
        end_block_num: u32::MAX,
        max_messages_in_flight: 4,
        irreversible_only: false,
        fetch_block: true,
        fetch_traces: true,
        fetch_deltas: true,
    };
    let buf = encode_get_blocks_request(&req);
    assert_eq!(buf[0], 1); // variant index
    assert_eq!(&buf[1..5], &100u32.to_le_bytes());
    assert_eq!(&buf[5..9], &u32::MAX.to_le_bytes());
    assert_eq!(&buf[9..13], &4u32.to_le_bytes());
    assert_eq!(&buf[13..], &[0, 0, 1, 1, 1]);
}

#[test]
fn encodes_the_other_requests() {
    assert_eq!(encode_get_status_request(), vec![0]);
    assert_eq!(encode_get_blocks_ack_request(258), vec![2, 2, 1, 0, 0]);
}

#[test]
fn variable_length_numbers_read_back() {
    for n in [0, 1, 127, 128, 16383, 16384, 2097151, 2097152, 268435455, 268435456, u32::MAX] {
        let mut buf = Vec::new();
        push_varuint32(&mut buf, n);
        let mut r = ByteReader::new(&buf);
        assert_eq!(r.read_varuint32().unwrap(), n);
        assert!(r.is_empty());
    }
}

fn sample_trace_bytes(status: u8, version: u32) -> Vec<u8> {
    let mut buf = Vec::new();
    push_varuint32(&mut buf, 1); // one trace
    push_varuint32(&mut buf, 0); // transaction_trace_v0
    buf.extend_from_slice(&[0xaa; 32]); // id
    buf.push(status); // status executed
    buf.extend_from_slice(&150u32.to_le_bytes()); // cpu_usage_us
    push_varuint32(&mut buf, 12); // net_usage_words
    buf.extend_from_slice(&2000i64.to_le_bytes()); // elapsed
    buf.extend_from_slice(&96u64.to_le_bytes()); // net_usage
    buf.push(0); // scheduled = false
    push_varuint32(&mut buf, 1); // one action trace
    {
        push_varuint32(&mut buf, version); // action_trace_v1
        push_varuint32(&mut buf, 1); // action_ordinal
        push_varuint32(&mut buf, 0); // creator_action_ordinal
        buf.push(1); // receipt present
        push_varuint32(&mut buf, 0); // action_receipt_v0
        push_name(&mut buf, "eosio.token"); // receiver
        buf.extend_from_slice(&[0xbb; 32]); // act_digest
        buf.extend_from_slice(&777u64.to_le_bytes()); // global_sequence
        buf.extend_from_slice(&3u64.to_le_bytes()); // recv_sequence
        push_varuint32(&mut buf, 1); // auth_sequence
        push_name(&mut buf, "alice");
        buf.extend_from_slice(&9u64.to_le_bytes());
        push_varuint32(&mut buf, 2); // code_sequence
        push_varuint32(&mut buf, 1); // abi_sequence
        push_name(&mut buf, "eosio.token"); // receiver (of act trace)
        // act
        push_name(&mut buf, "eosio.token"); // account
        push_name(&mut buf, "transfer"); // name
        push_varuint32(&mut buf, 1); // one authorization
        push_name(&mut buf, "alice");
        push_name(&mut buf, "active");
        push_bytes(&mut buf, &[1, 2, 3]); // data
        buf.push(0); // context_free
        buf.extend_from_slice(&42i64.to_le_bytes()); // elapsed
        push_bytes(&mut buf, b""); // console
        push_varuint32(&mut buf, 0); // account_ram_deltas
        buf.push(0); // except: none
        buf.push(0); // error_code: none
        if version > 0 {
            push_bytes(&mut buf, &[]); // return_value (v1)
        }
    }
    buf.push(0); // account_ram_delta: none
    buf.push(0); // except: none
    buf.push(0); // error_code: none
    buf.push(0); // failed_dtrx_trace: none
    buf.push(1); // partial present
    {
        push_varuint32(&mut buf, 0); // partial_transaction_v0
        push_partial_head(&mut buf);
        push_varuint32(&mut buf, 1); // one signature
        buf.push(0); // K1
        buf.extend_from_slice(&[0x11; 65]);
        push_varuint32(&mut buf, 0); // context_free_data
    }
    buf
}

fn push_partial_head(buf: &mut Vec<u8>) {
    buf.extend_from_slice(&1700000000u32.to_le_bytes()); // expiration
    buf.extend_from_slice(&12u16.to_le_bytes()); // ref_block_num
    buf.extend_from_slice(&34u32.to_le_bytes()); // ref_block_prefix
    push_varuint32(buf, 0); // max_net_usage_words
    buf.push(0); // max_cpu_usage_ms
    push_varuint32(buf, 0); // delay_sec
    push_varuint32(buf, 0); // transaction_extensions
}

#[test]
fn decodes_transaction_trace() {
    let traces = TransactionTrace::decode_traces(&sample_trace_bytes(0, 1)).unwrap();
    assert_eq!(traces.len(), 1);
    let t = &traces[0];
    assert_eq!(t.id, "aa".repeat(32));
    assert_eq!(t.status, 0);
    assert_eq!(t.cpu_usage_us, 150);
    assert_eq!(t.action_traces.len(), 1);
    let at = &t.action_traces[0];
    assert_eq!(at.receiver.to_string(), "eosio.token");
    assert_eq!(at.act.name.to_string(), "transfer");
    assert_eq!(at.act.authorization[0].actor.to_string(), "alice");
    assert_eq!(at.receipt.as_ref().unwrap().global_sequence, 777);
    assert_eq!(at.act.data, vec![1, 2, 3]);
    let partial = t.partial.as_ref().unwrap();
    assert_eq!(partial.ref_block_num, 12);
    assert_eq!(partial.signatures.len(), 1);
    assert!(partial.signatures[0].starts_with("SIG_K1_"));
}

#[test]
fn decodes_older_action_traces_and_refuses_newer_ones() {
    let old = TransactionTrace::decode_traces(&sample_trace_bytes(0, 0)).unwrap();
    assert!(old[0].action_traces[0].return_value.is_none());
    let new = TransactionTrace::decode_traces(&sample_trace_bytes(0, 1)).unwrap();
    assert_eq!(new[0].action_traces[0].return_value, Some(vec![]));
    match TransactionTrace::decode_traces(&sample_trace_bytes(0, 2)) {
        Err(ShipError::UnsupportedVariant { kind: "action_trace", index: 2 }) => {}
        other => panic!("{other:?}"),
    }
    match TransactionTrace::decode_traces(&[1, 1]) {
        Err(ShipError::UnsupportedVariant { kind: "transaction_trace", index: 1 }) => {}
        other => panic!("{other:?}"),
    }
    let whole = sample_trace_bytes(0, 1);
    for n in 0..whole.len() {
        assert!(TransactionTrace::decode_traces(&whole[..n]).is_err(), "{n}");
    }
}

/// A trace with no actions, a failed trace inside of it and a partial
/// transaction of the later version.
fn trace_with_prunable(prunable: &[u8]) -> Vec<u8> {
    let mut buf = Vec::new();
    push_varuint32(&mut buf, 1);
    for level in 0..2 {
        push_varuint32(&mut buf, 0);
        buf.extend_from_slice(&[level; 32]);
        buf.push(1 + level);
        buf.extend_from_slice(&[0; 4]);
        buf.push(0);
        buf.extend_from_slice(&[0; 16]);
        buf.push(1); // scheduled
        buf.push(0); // action_traces
        buf.push(1); // account_ram_delta
        push_name(&mut buf, "alice");
        buf.extend_from_slice(&(-8i64).to_le_bytes());
        buf.push(1);
        push_bytes(&mut buf, b"oops");
        buf.push(1);
        buf.extend_from_slice(&5u64.to_le_bytes());
        if level == 0 {
            buf.push(1); // failed_dtrx_trace
        }
    }
    buf.push(0); // no failed trace inside
    buf.push(0); // no partial inside
    buf.push(1); // partial
    push_varuint32(&mut buf, 1);
    push_partial_head(&mut buf);
    buf.extend_from_slice(prunable);
    buf
}

#[test]
fn decodes_failed_traces_and_prunable_data() {
    let mut signature = vec![1u8, 0];
    signature.extend_from_slice(&[0x11; 65]);
    let with = |tag: u8, rest: &[u8], signed: bool| {
        let mut data = vec![1, tag];
        if signed {
            data.extend_from_slice(&signature);
        }
        data.extend_from_slice(rest);
        data
    };
    let mut segments = vec![2u8, 0];
    segments.extend_from_slice(&[7; 32]);
    segments.extend_from_slice(&[1, 1, 9]);
    for (prunable, signatures) in [
        (vec![0], 0),
        (with(0, &[2, 8, 8], true), 1),
        (with(1, &[3; 32], false), 0),
        (with(2, &segments, true), 1),
        (with(3, &[1, 2, 8, 8], true), 1),
    ] {
        let data = trace_with_prunable(&prunable);
        let traces = TransactionTrace::decode_traces(&data).unwrap();
        let t = &traces[0];
        assert_eq!(t.status, 1);
        assert_eq!(t.except.as_deref(), Some("oops"));
        assert_eq!(t.error_code, Some(5));
        assert_eq!(t.account_ram_delta.as_ref().unwrap().delta, -8);
        let inner = t.failed_dtrx_trace.as_ref().unwrap();
        assert_eq!(inner.status, 2);
        assert!(inner.partial.is_none());
        assert_eq!(t.partial.as_ref().unwrap().signatures.len(), signatures);
    }
    match TransactionTrace::decode_traces(&trace_with_prunable(&[1, 4])) {
        Err(ShipError::UnsupportedVariant { kind: "prunable_data", index: 4 }) => {}
        other => panic!("{other:?}"),
    }
    match TransactionTrace::decode_traces(&trace_with_prunable(&[1, 2, 0, 1, 2])) {
        Err(ShipError::UnsupportedVariant { kind: "context_free_segment", index: 2 }) => {}
        other => panic!("{other:?}"),
    }
}

#[test]
fn names_transaction_states() {
    let names: Vec<&str> = (0..6).map(TransactionTrace::status_name).collect();
    assert_eq!(names, ["executed", "soft_fail", "hard_fail", "delayed", "expired", "unknown"]);
}

#[test]
fn decodes_table_deltas() {
    let mut buf = Vec::new();
    push_varuint32(&mut buf, 1); // one delta
    push_varuint32(&mut buf, 0); // table_delta_v0
    push_bytes(&mut buf, b"contract_row"); // name
    push_varuint32(&mut buf, 1); // one row
    buf.push(1); // present
    let mut row = Vec::new();
    push_varuint32(&mut row, 0); // contract_row_v0
    push_name(&mut row, "eosio.token"); // code
    push_name(&mut row, "alice"); // scope
    push_name(&mut row, "accounts"); // table
    row.extend_from_slice(&5u64.to_le_bytes()); // primary_key
    push_name(&mut row, "alice"); // payer
    push_bytes(&mut row, &[9, 9]); // value
    push_bytes(&mut buf, &row);

    let deltas = TableDelta::decode_deltas(&buf).unwrap();
    assert_eq!(deltas.len(), 1);
    assert_eq!(deltas[0].name, "contract_row");
    let cr = ContractRow::decode(&deltas[0].rows[0].data).unwrap();
    assert_eq!(cr.code.to_string(), "eosio.token");
    assert_eq!(cr.scope.to_string(), "alice");
    assert_eq!(cr.table.to_string(), "accounts");
    assert_eq!(cr.primary_key, 5);
    assert_eq!(cr.value, vec![9, 9]);
}

#[test]
fn decodes_account_and_permission_rows() {
    let mut row = vec![0u8];
    push_name(&mut row, "alice");
    row.extend_from_slice(&77u32.to_le_bytes());
    push_bytes(&mut row, &[1, 2]);
    let account = AccountRow::decode(&row).unwrap();
    assert_eq!(account.name.to_string(), "alice");
    assert_eq!(account.creation_date_slot, 77);
    assert_eq!(account.abi, vec![1, 2]);

    let mut row = vec![0u8];
    push_name(&mut row, "bob");
    push_name(&mut row, "active");
    push_name(&mut row, "owner");
    row.extend_from_slice(&(-5i64).to_le_bytes());
    row.extend_from_slice(&2u32.to_le_bytes());
    row.push(1);
    row.push(0);
    row.extend_from_slice(&[0; 33]);
    row.extend_from_slice(&1u16.to_le_bytes());
    row.push(1);
    push_name(&mut row, "carol");
    push_name(&mut row, "active");
    row.extend_from_slice(&1u16.to_le_bytes());
    row.push(1);
    row.extend_from_slice(&[0; 6]);
    let perm = PermissionRow::decode(&row).unwrap();
    assert_eq!(perm.last_updated, -5);
    assert_eq!(perm.threshold, 2);
    assert_eq!(perm.keys, vec!["PUB_K1_11111111111111111111111111111111149Mr2R".to_string()]);
    assert_eq!(perm.accounts, vec!["carol@active".to_string()]);
    assert!(PermissionRow::decode(&row[..row.len() - 1]).is_err());

    match ContractRow::decode(&[1]) {
        Err(ShipError::UnsupportedVariant { kind: "contract_row", index: 1 }) => {}
        other => panic!("{other:?}"),
    }
    match AccountRow::decode(&[3]) {
        Err(ShipError::UnsupportedVariant { kind: "account", index: 3 }) => {}
        other => panic!("{other:?}"),
    }
    match PermissionRow::decode(&[2]) {
        Err(ShipError::UnsupportedVariant { kind: "permission", index: 2 }) => {}
        other => panic!("{other:?}"),
    }
    match TableDelta::decode_deltas(&[1, 1]) {
        Err(ShipError::UnsupportedVariant { kind: "table_delta", index: 1 }) => {}
        other => panic!("{other:?}"),
    }
}

fn block_payload(receipts: &[u8]) -> Vec<u8> {
    let mut buf = Vec::new();
    buf.extend_from_slice(&1000u32.to_le_bytes()); // timestamp slot
    push_name(&mut buf, "producer1");
    buf.extend_from_slice(&3u16.to_le_bytes()); // confirmed
    buf.extend_from_slice(&[0xac; 32]); // previous
    buf.extend_from_slice(&[0x01; 32]); // transaction_mroot
    buf.extend_from_slice(&[0x02; 32]); // action_mroot
    buf.extend_from_slice(&7u32.to_le_bytes()); // schedule_version
    buf.push(1); // new_producers
    buf.extend_from_slice(&8u32.to_le_bytes());
    buf.push(1);
    push_name(&mut buf, "producer2");
    buf.push(0);
    buf.extend_from_slice(&[0; 33]);
    buf.push(1); // header_extensions
    buf.extend_from_slice(&[9, 0, 2, 1, 1]);
    buf.push(0); // producer_signature: K1
    buf.extend_from_slice(&[0x22; 65]);
    buf.extend_from_slice(receipts);
    buf
}

#[test]
fn decodes_block_headers() {
    let mut receipts = vec![2u8];
    receipts.push(0); // status
    receipts.extend_from_slice(&150u32.to_le_bytes());
    receipts.push(12);
    receipts.push(0); // transaction_id
    receipts.extend_from_slice(&[0xee; 32]);
    receipts.push(0); // status
    receipts.extend_from_slice(&u32::MAX.to_le_bytes());
    push_varuint32(&mut receipts, u32::MAX);
    receipts.push(1); // packed_transaction
    receipts.push(1);
    receipts.push(0);
    receipts.extend_from_slice(&[0x33; 65]);
    receipts.push(0); // compression
    receipts.extend_from_slice(&[1, 5, 2, 6, 6]);
    let h = BlockHeader::decode(&block_payload(&receipts)).unwrap();
    assert_eq!(h.timestamp_slot, 1000);
    assert_eq!(h.producer.to_string(), "producer1");
    assert_eq!(h.confirmed, 3);
    assert_eq!(h.previous, "ac".repeat(32));
    assert_eq!(h.transaction_mroot, "01".repeat(32));
    assert_eq!(h.action_mroot, "02".repeat(32));
    assert_eq!(h.schedule_version, 7);
    assert!(h.producer_signature.starts_with("SIG_K1_"));
    assert_eq!(h.trx_count, 2);
    assert_eq!(h.cpu_usage_us, 150 + u32::MAX as u64);
    assert_eq!(h.net_usage_words, 12 + u32::MAX as u64);
    // what stands behind the receipts is not read
    receipts.extend_from_slice(&[1, 9, 0, 2, 1]);
    let longer = BlockHeader::decode(&block_payload(&receipts)).unwrap();
    assert_eq!(longer.trx_count, h.trx_count);
    assert_eq!(longer.cpu_usage_us, h.cpu_usage_us);
    assert_eq!(longer.producer_signature, h.producer_signature);
    match BlockHeader::decode(&block_payload(&[1, 0, 0, 0, 0, 0, 0, 2])) {
        Err(ShipError::UnsupportedVariant { kind: "transaction_receipt", index: 2 }) => {}
        other => panic!("{other:?}"),
    }
}

fn blocks_result() -> Vec<u8> {
    let mut buf = Vec::new();
    push_varuint32(&mut buf, 1); // result variant: get_blocks_result_v0
    buf.extend_from_slice(&500u32.to_le_bytes());
    buf.extend_from_slice(&[0x01; 32]);
    buf.extend_from_slice(&400u32.to_le_bytes());
    buf.extend_from_slice(&[0x02; 32]);
    buf.push(1); // this_block present
    buf.extend_from_slice(&450u32.to_le_bytes());
    buf.extend_from_slice(&[0x03; 32]);
    buf.push(1); // prev_block present
    buf.extend_from_slice(&449u32.to_le_bytes());
    buf.extend_from_slice(&[0x04; 32]);
    buf.push(0); // block absent
    buf.push(1); // traces present
    push_bytes(&mut buf, &[0x00]); // empty vector of traces
    buf.push(0); // deltas absent
    buf
}

#[test]
fn decodes_get_blocks_result() {
    match ShipResult::decode(&blocks_result()).unwrap() {
        ShipResult::Blocks(b) => {
            assert_eq!(b.head.block_num, 500);
            assert_eq!(b.this_block.as_ref().unwrap().block_num, 450);
            assert_eq!(b.prev_block.as_ref().unwrap().block_num, 449);
            assert!(b.block.is_none());
            assert_eq!(b.traces.as_deref(), Some(&[0x00][..]));
            assert!(b.deltas.is_none());
        }
        other => panic!("expected blocks result, got {other:?}"),
    }
}

fn status_result(with_chain: bool) -> Vec<u8> {
    let mut buf = vec![0u8];
    buf.extend_from_slice(&100u32.to_le_bytes());
    buf.extend_from_slice(&[0x0a; 32]);
    buf.extend_from_slice(&90u32.to_le_bytes());
    buf.extend_from_slice(&[0x0b; 32]);
    for n in [1u32, 101, 2, 102] {
        buf.extend_from_slice(&n.to_le_bytes());
    }
    if with_chain {
        buf.extend_from_slice(&[0xcc; 32]);
    }
    buf
}

#[test]
fn decodes_status_results() {
    for with_chain in [true, false] {
        let result = ShipResult::decode(&status_result(with_chain)).unwrap();
        let status = status_of(result).unwrap();
        assert_eq!(
            status.head,
            BlockPosition { block_num: 100, block_id: "0a".repeat(32) }
        );
        assert_eq!(status.last_irreversible.block_num, 90);
        assert_eq!(status.trace_begin_block, 1);
        assert_eq!(status.trace_end_block, 101);
        assert_eq!(status.chain_state_begin_block, 2);
        assert_eq!(status.chain_state_end_block, 102);
        assert_eq!(status.chain_id.is_some(), with_chain);
    }
    assert!(status_of(ShipResult::decode(&blocks_result()).unwrap()).is_none());
    match ShipResult::decode(&[2]) {
        Err(ShipError::UnsupportedVariant { kind: "result", index: 2 }) => {}
        other => panic!("{other:?}"),
    }
    match ShipResult::decode(&[]) {
        Err(ShipError::Antelope(_)) => {}
        other => panic!("{other:?}"),
    }
}

#[test]
fn the_handshake_wants_text() {
    assert_eq!(handshake(Frame::Text("abi".to_string())).unwrap().as_deref(), Some("abi"));
    assert!(handshake(Frame::Control).unwrap().is_none());
    match handshake(Frame::Binary(vec![0])) {
        Err(ShipError::Protocol(m)) => {
            assert_eq!(m, "expected ABI text frame before binary traffic")
        }
        other => panic!("{other:?}"),
    }
    match handshake(Frame::Closed) {
        Err(ShipError::Closed) => {}
        other => panic!("{other:?}"),
    }
    match handshake(Frame::Failed("reset".to_string())) {
        Err(ShipError::WebSocket(m)) => assert_eq!(m, "reset"),
        other => panic!("{other:?}"),
    }
}

#[test]
fn results_come_in_binary_frames() {
    assert!(next_result(Frame::Binary(status_result(true))).unwrap().is_some());
    assert!(next_result(Frame::Text("abi".to_string())).unwrap().is_none());
    assert!(next_result(Frame::Control).unwrap().is_none());
    assert!(next_result(Frame::Closed).is_err());
    assert!(next_result(Frame::Binary(vec![9])).is_err());
}

#[test]
fn the_reader_stops_behind_the_last_block() {
    for (stop, expected) in [(0, false), (449, true), (450, true), (451, false)] {
        match read_step(Frame::Binary(blocks_result()), stop) {
            ReadStep::Deliver(block, last) => {
                assert_eq!(block.head.block_num, 500);
                assert_eq!(last, expected);
            }
            _ => panic!("no block"),
        }
    }
    assert!(matches!(read_step(Frame::Binary(status_result(true)), 0), ReadStep::Wait));
    assert!(matches!(read_step(Frame::Text(String::new()), 0), ReadStep::Wait));
    assert!(matches!(read_step(Frame::Closed, 0), ReadStep::End));
    assert!(matches!(
        read_step(Frame::Binary(vec![]), 0),
        ReadStep::Fail(ShipError::Antelope(_))
    ));
    assert!(matches!(
        read_step(Frame::Failed(String::new()), 0),
        ReadStep::Fail(ShipError::WebSocket(_))
    ));
}

#[test]
fn default_client_settings() {
    let config = ShipConfig::default();
    assert_eq!(config.url, "ws://127.0.0.1:8080");
    assert_eq!(config.max_messages_in_flight, 128);
}

#[test]
fn protocol_errors_say_what_is_wrong() {
    for (e, said) in [
        (
            ShipError::Antelope(AntelopeError::BadVarint),
            "antelope decode error: varuint32 too long or malformed",
        ),
        (
            ShipError::UnsupportedVariant { kind: "result", index: 2 },
            "unsupported result variant index 2",
        ),
        (ShipError::WebSocket("reset".to_string()), "websocket error: reset"),
        (ShipError::Closed, "connection closed by server"),
        (ShipError::Protocol("odd".to_string()), "protocol error: odd"),
    ] {
        assert_eq!(e.to_string(), said);
    }
}
