use hyperion::antelope::abi::{
    Abi, ActionDef, FieldDef, StructDef, TableDef, TypeDef, VariantDef,
};
use hyperion::antelope::asset::Symbol;
use hyperion::antelope::decoder::AbiDecoder;
use hyperion::antelope::name::Name;
use hyperion::antelope::AntelopeError;
use hyperion::json::Json;

fn name(s: &str) -> Name {
    Name::from_str(s).unwrap()
}

fn text(s: &str) -> Json {
    Json::Str(s.to_string())
}

fn object(fields: Vec<(&str, Json)>) -> Json {
    Json::Object(fields.into_iter().map(|(k, v)| (k.to_string(), v)).collect())
}

fn fields(defs: &[(&str, &str)]) -> Vec<FieldDef> {
    defs.iter()
        .map(|(n, t)| FieldDef { name: n.to_string(), type_: t.to_string() })
        .collect()
}

fn structure(n: &str, base: &str, defs: &[(&str, &str)]) -> StructDef {
    StructDef { name: n.to_string(), base: base.to_string(), fields: fields(defs) }
}

fn alias(n: &str, t: &str) -> TypeDef {
    TypeDef { new_type_name: n.to_string(), type_: t.to_string() }
}

fn token_abi() -> Abi {
    Abi {
        version: "eosio::abi/1.1".to_string(),
        types: vec![alias("account_name", "name")],
        structs: vec![
            structure(
                "transfer",
                "",
                &[
                    ("from", "account_name"),
                    ("to", "account_name"),
                    ("quantity", "asset"),
                    ("memo", "string"),
                ],
            ),
            structure("account", "", &[("balance", "asset")]),
        ],
        actions: vec![ActionDef {
            name: name("transfer"),
            type_: "transfer".to_string(),
            ricardian_contract: String::new(),
        }],
        tables: vec![TableDef {
            name: name("accounts"),
            index_type: "i64".to_string(),
            key_names: vec![],
            key_types: vec![],
            type_: "account".to_string(),
        }],
        variants: vec![],
    }
}

fn transfer_data() -> Vec<u8> {
    // transfer{from: eosio, to: eosio.token, quantity: 1.0000 EOS, memo: "hi"}
    let mut data = Vec::new();
    data.extend_from_slice(&name("eosio").0.to_le_bytes());
    data.extend_from_slice(&name("eosio.token").0.to_le_bytes());
    data.extend_from_slice(&10000i64.to_le_bytes());
    data.extend_from_slice(&Symbol::from_str("4,EOS").unwrap().0.to_le_bytes());
    data.push(2);
    data.extend_from_slice(b"hi");
    data
}

fn transfer_value() -> Json {
    object(vec![
        ("from", text("eosio")),
        ("to", text("eosio.token")),
        ("quantity", text("1.0000 EOS")),
        ("memo", text("hi")),
    ])
}

#[test]
fn decodes_token_transfer() {
    let abi = token_abi();
    let decoder = AbiDecoder::new(&abi);
    let value = decoder.decode_action(name("transfer"), &transfer_data()).unwrap();
    assert_eq!(value, transfer_value());
}

#[test]
fn decodes_table_row() {
    let abi = token_abi();
    let decoder = AbiDecoder::new(&abi);
    let mut data = Vec::new();
    data.extend_from_slice(&123456i64.to_le_bytes());
    data.extend_from_slice(&Symbol::from_str("4,EOS").unwrap().0.to_le_bytes());
    let value = decoder.decode_table_row(name("accounts"), &data).unwrap();
    assert_eq!(value, object(vec![("balance", text("12.3456 EOS"))]));
}

fn holder_abi() -> Abi {
    Abi {
        version: "eosio::abi/1.1".to_string(),
        structs: vec![structure(
            "holder",
            "",
            &[("ids", "uint32[]"), ("note", "string?"), ("extra", "choice$")],
        )],
        variants: vec![VariantDef {
            name: "choice".to_string(),
            types: vec!["uint8".to_string(), "string".to_string()],
        }],
        ..Abi::default()
    }
}

#[test]
fn optional_array_and_variant() {
    let abi = holder_abi();
    let decoder = AbiDecoder::new(&abi);

    // ids=[7], note=None, extra omitted (extension)
    let data = [1u8, 7, 0, 0, 0, 0];
    let v = decoder.decode("holder", &data).unwrap();
    assert_eq!(
        v,
        object(vec![
            ("ids", Json::Array(vec![Json::Int(7)])),
            ("note", Json::Null),
            ("extra", Json::Null),
        ])
    );

    // ids=[], note=Some("x"), extra=variant 1 -> string "y"
    let data = [0u8, 1, 1, b'x', 1, 1, b'y'];
    let v = decoder.decode("holder", &data).unwrap();
    assert_eq!(
        v,
        object(vec![
            ("ids", Json::Array(vec![])),
            ("note", text("x")),
            ("extra", Json::Array(vec![text("string"), text("y")])),
        ])
    );
}

#[test]
fn unknown_type_errors() {
    let abi = token_abi();
    let decoder = AbiDecoder::new(&abi);
    assert!(decoder.decode("nonexistent", &[]).is_err());
}

#[test]
fn tolerates_trailing_bytes() {
    let abi = token_abi();
    let decoder = AbiDecoder::new(&abi);
    let mut data = transfer_data();
    data.extend_from_slice(&[1, 2, 3]);
    assert_eq!(decoder.decode_action(name("transfer"), &data).unwrap(), transfer_value());
    // An absent extension is read from the bytes that follow.
    let abi = holder_abi();
    let decoder = AbiDecoder::new(&abi);
    let v = decoder.decode("holder", &[0, 0, 0, 9]).unwrap();
    assert_eq!(v.field_copy("extra"), Json::Array(vec![text("uint8"), Json::Int(9)]));
}

#[test]
fn reports_what_is_unknown_or_malformed() {
    let abi = token_abi();
    let decoder = AbiDecoder::new(&abi);
    match decoder.decode_action(name("issue"), &[]) {
        Err(AntelopeError::UnknownType(t)) => assert_eq!(t, "action issue"),
        other => panic!("{other:?}"),
    }
    match decoder.decode_table_row(name("stat"), &[]) {
        Err(AntelopeError::UnknownType(t)) => assert_eq!(t, "table stat"),
        other => panic!("{other:?}"),
    }
    match decoder.decode("account[]", &[1]) {
        Err(AntelopeError::Eof { needed: 8, remaining: 0 }) => {}
        other => panic!("{other:?}"),
    }
    let abi = holder_abi();
    let decoder = AbiDecoder::new(&abi);
    match decoder.decode("choice", &[2]) {
        Err(AntelopeError::BadVariantIndex { variant, index: 2 }) => assert_eq!(variant, "choice"),
        other => panic!("{other:?}"),
    }
}

#[test]
fn aliases_that_lead_in_circles_are_errors() {
    let abi = Abi { types: vec![alias("a", "b"), alias("b", "a")], ..Abi::default() };
    match AbiDecoder::new(&abi).decode("a", &[]) {
        Err(AntelopeError::BadAbi(m)) => assert_eq!(m, "type nesting too deep"),
        other => panic!("{other:?}"),
    }
    // 65 levels are too many, 64 are not.
    let deep = |n: usize| format!("uint8{}", "?".repeat(n));
    let abi = Abi::default();
    let decoder = AbiDecoder::new(&abi);
    let mut data = vec![1u8; 64];
    data.push(7);
    assert_eq!(decoder.decode(&deep(64), &data).unwrap(), Json::Int(7));
    data.push(7);
    assert!(decoder.decode(&deep(65), &data).is_err());
}

#[test]
fn base_fields_come_first_and_are_overridden_in_place() {
    let abi = Abi {
        structs: vec![
            structure("base", "", &[("a", "uint8"), ("b", "uint8")]),
            structure("derived", "base", &[("c", "uint8"), ("a", "uint8")]),
        ],
        ..Abi::default()
    };
    let v = AbiDecoder::new(&abi).decode("derived", &[1, 2, 3, 4]).unwrap();
    assert_eq!(
        v,
        object(vec![("a", Json::Int(4)), ("b", Json::Int(2)), ("c", Json::Int(3))])
    );
}

#[test]
fn the_last_type_and_the_first_action_of_a_name_count() {
    let mut abi = token_abi();
    abi.types.push(alias("account_name", "uint64"));
    abi.actions.push(ActionDef {
        name: name("transfer"),
        type_: "account".to_string(),
        ricardian_contract: String::new(),
    });
    let v = AbiDecoder::new(&abi).decode_action(name("transfer"), &transfer_data()).unwrap();
    assert_eq!(v.field_copy("from"), Json::Int(6138663577826885632));
    assert_eq!(v.field_copy("memo"), text("hi"));
    assert_eq!(abi.action_type(name("transfer")), Some("transfer"));
    assert_eq!(abi.table_type(name("accounts")), Some("account"));
    assert_eq!(abi.table_type(name("none")), None);
}

#[test]
fn decodes_every_built_in_type() {
    let abi = Abi::default();
    let decoder = AbiDecoder::new(&abi);
    let ones = [0xffu8; 64];
    for (t, expected) in [
        ("bool", Json::Bool(true)),
        ("int8", Json::Int(-1)),
        ("uint8", Json::Int(255)),
        ("int16", Json::Int(-1)),
        ("uint16", Json::Int(65535)),
        ("int32", Json::Int(-1)),
        ("uint32", Json::Int(4294967295)),
        ("int64", Json::Int(-1)),
        ("uint64", Json::Int(18446744073709551615)),
        ("int128", text("-1")),
        ("uint128", text("340282366920938463463374607431768211455")),
        ("float32", Json::Float32(0xffff_ffff)),
        ("float64", Json::Float64(0xffff_ffff_ffff_ffff)),
        ("float128", text(&"ff".repeat(16))),
        ("time_point", text("1969-12-31T23:59:59.999")),
        ("time_point_sec", text("2106-02-07T06:28:15.000")),
        ("block_timestamp_type", text("2068-01-19T03:14:07.500")),
        ("name", text("zzzzzzzzzzzzj")),
        ("checksum160", text(&"ff".repeat(20))),
        ("checksum256", text(&"ff".repeat(32))),
        ("checksum512", text(&"ff".repeat(64))),
    ] {
        assert_eq!(decoder.decode(t, &ones).unwrap(), expected, "{t}");
    }
    assert_eq!(decoder.decode("varuint32", &[0x80, 1]).unwrap(), Json::Int(128));
    assert_eq!(decoder.decode("varint32", &[1]).unwrap(), Json::Int(-1));
    assert_eq!(decoder.decode("bytes", &[2, 0xab, 0x0c]).unwrap(), text("ab0c"));
    assert_eq!(decoder.decode("string", &[2, b'h', b'i']).unwrap(), text("hi"));
    let symbol = Symbol::from_str("4,EOS").unwrap();
    assert_eq!(decoder.decode("symbol", &symbol.0.to_le_bytes()).unwrap(), text("4,EOS"));
    assert_eq!(
        decoder.decode("symbol_code", &symbol.code().0.to_le_bytes()).unwrap(),
        text("EOS")
    );
    let mut data = (-5i64).to_le_bytes().to_vec();
    data.extend_from_slice(&symbol.0.to_le_bytes());
    data.extend_from_slice(&name("eosio.token").0.to_le_bytes());
    assert_eq!(decoder.decode("asset", &data).unwrap(), text("-0.0005 EOS"));
    assert_eq!(
        decoder.decode("extended_asset", &data).unwrap(),
        object(vec![("quantity", text("-0.0005 EOS")), ("contract", text("eosio.token"))])
    );
    let mut key = vec![0u8];
    key.extend_from_slice(&[0; 33]);
    assert_eq!(
        decoder.decode("public_key", &key).unwrap(),
        text("PUB_K1_11111111111111111111111111111111149Mr2R")
    );
    key.extend_from_slice(&[0; 32]);
    match decoder.decode("signature", &key).unwrap() {
        Json::Str(s) => assert!(s.starts_with("SIG_K1_")),
        other => panic!("{other:?}"),
    }
}

#[test]
fn amounts_that_cannot_be_printed_are_errors() {
    let abi = Abi::default();
    let decoder = AbiDecoder::new(&abi);
    let amount = |symbol: u64| {
        let mut data = 1i64.to_le_bytes().to_vec();
        data.extend_from_slice(&symbol.to_le_bytes());
        data
    };
    match decoder.decode("asset", &amount((65 << 8) | 20)) {
        Err(AntelopeError::BadSymbol(_)) => {}
        other => panic!("{other:?}"),
    }
    match decoder.decode("asset", &amount((200 << 8) | 4)) {
        Err(AntelopeError::BadUtf8) => {}
        other => panic!("{other:?}"),
    }
}

fn push_string(bytes: &mut Vec<u8>, value: &str) {
    bytes.push(value.len() as u8);
    bytes.extend_from_slice(value.as_bytes());
}

fn packed_abi(with_variants: bool) -> Vec<u8> {
    let mut bytes = Vec::new();
    push_string(&mut bytes, "eosio::abi/1.1");
    bytes.push(1); // alias
    push_string(&mut bytes, "value_type");
    push_string(&mut bytes, "uint32");
    bytes.push(1); // struct
    push_string(&mut bytes, "row");
    push_string(&mut bytes, "");
    bytes.push(1); // field
    push_string(&mut bytes, "value");
    push_string(&mut bytes, "value_type");
    bytes.push(1); // action
    bytes.extend_from_slice(&name("run").0.to_le_bytes());
    push_string(&mut bytes, "row");
    push_string(&mut bytes, "terms");
    bytes.push(1); // table
    bytes.extend_from_slice(&name("rows").0.to_le_bytes());
    push_string(&mut bytes, "i64");
    bytes.push(1); // key names
    push_string(&mut bytes, "id");
    bytes.push(1); // key types
    push_string(&mut bytes, "uint64");
    push_string(&mut bytes, "row");
    bytes.push(1); // clauses
    push_string(&mut bytes, "c");
    push_string(&mut bytes, "b");
    bytes.push(1); // errors
    bytes.extend_from_slice(&7u64.to_le_bytes());
    push_string(&mut bytes, "e");
    bytes.push(1); // extensions
    bytes.extend_from_slice(&[1, 0, 1, 9]);
    if with_variants {
        bytes.push(1);
        push_string(&mut bytes, "choice");
        bytes.push(2);
        push_string(&mut bytes, "uint8");
        push_string(&mut bytes, "string");
    }
    bytes
}

#[test]
fn reads_packed_abis() {
    let abi = Abi::from_bin(&packed_abi(true)).unwrap();
    assert_eq!(abi.version, "eosio::abi/1.1");
    assert_eq!(abi.types[0].new_type_name, "value_type");
    assert_eq!(abi.types[0].type_, "uint32");
    assert_eq!(abi.structs[0].fields[0].name, "value");
    assert_eq!(abi.actions[0].name, name("run"));
    assert_eq!(abi.actions[0].ricardian_contract, "terms");
    assert_eq!(abi.tables[0].key_names, vec!["id".to_string()]);
    assert_eq!(abi.tables[0].key_types, vec!["uint64".to_string()]);
    assert_eq!(abi.variants[0].types, vec!["uint8".to_string(), "string".to_string()]);
    // Variants came with a later version.
    assert!(Abi::from_bin(&packed_abi(false)).unwrap().variants.is_empty());
    // What follows the variants is not read.
    let mut longer = packed_abi(true);
    longer.extend_from_slice(&[1, 2, 3]);
    let longer = Abi::from_bin(&longer).unwrap();
    assert_eq!(longer.tables[0].type_, abi.tables[0].type_);
    assert_eq!(longer.variants[0].types, abi.variants[0].types);
    for n in 0..packed_abi(false).len() {
        assert!(Abi::from_bin(&packed_abi(false)[..n]).is_err(), "{n}");
    }
}
