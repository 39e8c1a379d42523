use hyperion::antelope::asset::{parse_asset, Asset, Symbol, SymbolCode};
use hyperion::antelope::keys::{
    checked_payload, label, normalize_public_key, read_public_key, read_signature, with_checksum,
};
use hyperion::antelope::name::Name;
use hyperion::antelope::reader::ByteReader;
use hyperion::antelope::time::{
    block_timestamp_to_ms, block_timestamp_to_string, time_point_sec_to_string,
    time_point_to_string,
};
use hyperion::antelope::AntelopeError;

// Symbols and assets

#[test]
fn symbol_roundtrip() {
    let s = Symbol::from_str("4,EOS").unwrap();
    assert_eq!(s.precision(), 4);
    assert_eq!(s.code().to_string(), "EOS");
    assert_eq!(s.to_string(), "4,EOS");
    // 4,EOS well-known raw value
    assert_eq!(s.0, 1397703940);
}

#[test]
fn asset_formatting() {
    let sym = Symbol::from_str("4,EOS").unwrap();
    assert_eq!(Asset::new(10000, sym).to_string(), "1.0000 EOS");
    assert_eq!(Asset::new(-5, sym).to_string(), "-0.0005 EOS");
    let zero = Symbol::from_str("0,SYS").unwrap();
    assert_eq!(Asset::new(42, zero).to_string(), "42 SYS");
}

#[test]
fn parses_assets() {
    let a = parse_asset("1.0000 EOS").unwrap();
    assert_eq!(a.amount, 10000);
    assert_eq!(a.symbol.precision(), 4);
    assert_eq!(a.to_string(), "1.0000 EOS");

    let a = parse_asset("-0.5 WAX").unwrap();
    assert_eq!(a.amount, -5);
    assert_eq!(a.symbol.precision(), 1);

    let a = parse_asset("42 SYS").unwrap();
    assert_eq!(a.amount, 42);
    assert_eq!(a.symbol.precision(), 0);

    assert!(parse_asset("garbage").is_none());
    assert!(parse_asset("1.0 lowercase").is_none());
}

#[test]
fn parses_the_edges_of_assets() {
    assert_eq!(parse_asset("9223372036854775807 A").unwrap().amount, i64::MAX);
    assert!(parse_asset("9223372036854775808 A").is_none());
    assert_eq!(parse_asset("+7 AB").unwrap().amount, 7);
    // The point does not have to be there, or to have digits before it.
    assert_eq!(parse_asset("7. AB").unwrap().symbol.precision(), 0);
    assert!(parse_asset(".5 AB").is_none());
    assert!(parse_asset("1.5").is_none());
    assert!(parse_asset("1.5  AB").is_none());
    assert!(parse_asset("1.5 ABCDEFGH").is_none());
    // Eighteen decimals fit, nineteen do not.
    assert_eq!(parse_asset("1.000000000000000000 AB").unwrap().amount, 1_000_000_000_000_000_000);
    assert!(parse_asset("1.0000000000000000000 AB").is_none());
    assert!(parse_asset("10.000000000000000000 AB").is_none());
}

#[test]
fn assets_read_back() {
    for (amount, symbol) in [
        (0i64, "4,EOS"),
        (1, "18,AB"),
        (-1, "18,AB"),
        (i64::MAX, "0,ABCDEFG"),
        (i64::MAX, "18,ABCDEFG"),
        (-123456789, "8,WAX"),
    ] {
        let asset = Asset::new(amount, Symbol::from_str(symbol).unwrap());
        assert_eq!(parse_asset(&asset.to_string()), Some(asset));
    }
}

#[test]
fn rejects_malformed_symbols() {
    for s in ["EOS", "4EOS", "x,EOS", "256,EOS", ",EOS", "4,", "4,eos", "4,ABCDEFGH", "4,E S"] {
        match Symbol::from_str(s) {
            Err(AntelopeError::BadSymbol(_)) => {}
            _ => panic!("{s}"),
        }
    }
    assert!(SymbolCode::from_str("").is_err());
    assert_eq!(SymbolCode::from_str("A").unwrap().0, 65);
    assert_eq!(SymbolCode::from_u64(65).to_string(), "A");
    assert_eq!(Symbol::from_u64(1397703940).code().0, 5459781);
}

#[test]
fn prints_assets_with_many_decimals() {
    let symbol = Symbol((65 << 8) | 19);
    assert_eq!(Asset::new(i64::MIN, symbol).to_string(), "-0.9223372036854775808 A");
    assert_eq!(Asset::new(i64::MIN, Symbol(65 << 8)).to_string(), "-9223372036854775808 A");
}

// Keys and signatures

#[test]
fn k1_key_known_vector() {
    // The all-zeros K1 key (legacy form
    // EOS1111111111111111111111111111111114T1Anm).
    let mut raw = vec![0u8]; // K1 tag
    raw.extend_from_slice(&[0u8; 33]);
    let mut r = ByteReader::new(&raw);
    let key = read_public_key(&mut r).unwrap();
    assert_eq!(key, "PUB_K1_11111111111111111111111111111111149Mr2R");
    assert!(r.is_empty());
}

#[test]
fn normalizes_legacy_key() {
    assert_eq!(
        normalize_public_key("EOS1111111111111111111111111111111114T1Anm"),
        "PUB_K1_11111111111111111111111111111111149Mr2R"
    );
    // Already-normalized and garbage inputs pass through.
    assert_eq!(normalize_public_key("PUB_K1_abc"), "PUB_K1_abc");
    assert_eq!(normalize_public_key("nonsense"), "nonsense");
}

#[test]
fn normalizing_again_changes_nothing() {
    let once = normalize_public_key("EOS1111111111111111111111111111111114T1Anm");
    assert_eq!(normalize_public_key(&once), once);
}

#[test]
fn normalizes_other_prefixes_and_passes_damaged_keys_through() {
    let normal = "PUB_K1_11111111111111111111111111111111149Mr2R";
    assert_eq!(normalize_public_key("AB1111111111111111111111111111111114T1Anm"), normal);
    assert_eq!(normalize_public_key("ABCD1111111111111111111111111111111114T1Anm"), normal);
    for key in [
        "",
        "E",
        "EOS",
        "A1111111111111111111111111111111114T1Anm",
        "ABCDE1111111111111111111111111111111114T1Anm",
        "E0S1111111111111111111111111111111114T1Anm",
        "EOS1111111111111111111111111111111114T1Ann",
        "EOS111111111111111111111111111111114T1Anm",
        "\u{20ac}\u{20ac}1111",
    ] {
        assert_eq!(normalize_public_key(key), key);
    }
}

#[test]
fn rejects_unknown_tag() {
    let raw = [9u8; 34];
    let mut r = ByteReader::new(&raw);
    assert!(read_public_key(&mut r).is_err());
    match read_signature(&mut ByteReader::new(&raw)) {
        Err(AntelopeError::BadKeyType(9)) => {}
        other => panic!("{other:?}"),
    }
}

#[test]
fn reads_web_authentication_keys_and_signatures() {
    let mut raw = vec![2u8];
    raw.extend_from_slice(&[7u8; 33]);
    raw.push(1);
    raw.push(3);
    raw.extend_from_slice(b"abc");
    raw.push(99);
    let mut r = ByteReader::new(&raw);
    assert!(read_public_key(&mut r).unwrap().starts_with("PUB_WA_"));
    assert_eq!(r.remaining(), 1);

    let mut raw = vec![2u8];
    raw.extend_from_slice(&[7u8; 65]);
    raw.extend_from_slice(&[2, 1, 2]);
    raw.extend_from_slice(&[1, b'{']);
    let mut r = ByteReader::new(&raw);
    assert!(read_signature(&mut r).unwrap().starts_with("SIG_WA_"));
    assert!(r.is_empty());

    let mut raw = vec![1u8];
    raw.extend_from_slice(&[7u8; 65]);
    assert!(read_signature(&mut ByteReader::new(&raw)).unwrap().starts_with("SIG_R1_"));
    assert!(read_signature(&mut ByteReader::new(&raw[..65])).is_err());
}

// Names

#[test]
fn roundtrip_known_names() {
    for s in [
        "eosio",
        "eosio.token",
        "transfer",
        "a",
        "zzzzzzzzzzzzj",
        "hezdimbshege",
        ".",
        "",
    ] {
        let trimmed = s.trim_end_matches('.');
        let n = Name::from_str(s).unwrap();
        assert_eq!(n.to_string(), trimmed, "roundtrip failed for {s:?}");
    }
}

#[test]
fn names_are_ordered_as_their_texts() {
    let texts = ["", "1", "12", "1a", "5", "a", "a..a", "a1", "eosio", "eosio.token", "z"];
    for (i, a) in texts.iter().enumerate() {
        for (j, b) in texts.iter().enumerate() {
            let (v, w) = (Name::from_str(a).unwrap(), Name::from_str(b).unwrap());
            assert_eq!(v.0 < w.0, i < j, "{a:?} {b:?}");
            assert_eq!(v.to_string() < w.to_string(), i < j, "{a:?} {b:?}");
        }
    }
}

#[test]
fn known_values() {
    assert_eq!(Name::from_str("eosio").unwrap().0, 6138663577826885632);
    assert_eq!(Name::from_str("eosio.token").unwrap().0, 6138663591592764928);
    assert_eq!(Name::from_str("transfer").unwrap().0, 14829575313431724032);
    assert_eq!(Name(0).to_string(), "");
}

#[test]
fn rejects_invalid() {
    assert!(Name::from_str("EOSIO").is_err());
    assert!(Name::from_str("toolongname havespace").is_err());
    assert!(Name::from_str("aaaaaaaaaaaaaa").is_err()); // 14 chars
    assert!(Name::from_str("zzzzzzzzzzzzz").is_err()); // 13th char > 'j'
    match Name::from_str("0") {
        Err(AntelopeError::BadName(s)) => assert_eq!(s, "0"),
        other => panic!("{other:?}"),
    }
}

#[test]
fn every_number_is_a_name() {
    for v in [0, 1, 15, 16, u64::MAX, u64::MAX - 1, 0x0123_4567_89ab_cdef] {
        let n = Name::new(v);
        assert_eq!(Name::from_str(&n.to_string()).unwrap(), n);
        assert_eq!(n.as_u64(), v);
        assert_eq!(n.is_empty(), v == 0);
    }
    assert_eq!(Name::to_string_lossy(u64::MAX), "zzzzzzzzzzzzj");
    assert_eq!(Name::to_string_lossy(1), "............1");
}

// The reader

#[test]
fn varuint_roundtrip() {
    let buf = [
        0x00, 0x7f, 0x80, 0x01, 0xb1, 0xc0, 0x01, 0xff, 0xff, 0xff, 0xff, 0x0f,
    ];
    let mut r = ByteReader::new(&buf);
    assert_eq!(r.read_varuint32().unwrap(), 0);
    assert_eq!(r.read_varuint32().unwrap(), 127);
    assert_eq!(r.read_varuint32().unwrap(), 128);
    assert_eq!(r.read_varuint32().unwrap(), 24625);
    assert_eq!(r.read_varuint32().unwrap(), u32::MAX);
    assert!(r.is_empty());
}

#[test]
fn varint_zigzag() {
    // zigzag: 0 -> 0, 1 -> -1, 2 -> 1, 3 -> -2
    let buf = [0x00, 0x01, 0x02, 0x03];
    let mut r = ByteReader::new(&buf);
    assert_eq!(r.read_varint32().unwrap(), 0);
    assert_eq!(r.read_varint32().unwrap(), -1);
    assert_eq!(r.read_varint32().unwrap(), 1);
    assert_eq!(r.read_varint32().unwrap(), -2);
}

#[test]
fn eof_is_error() {
    let mut r = ByteReader::new(&[1, 2]);
    match r.read_u32() {
        Err(AntelopeError::Eof { needed: 4, remaining: 2 }) => {}
        other => panic!("{other:?}"),
    }
    assert_eq!(r.pos(), 0);
}

#[test]
fn malformed_numbers_are_errors() {
    for buf in [
        vec![0xff, 0xff, 0xff, 0xff, 0x10],
        vec![0x80, 0x80, 0x80, 0x80, 0x80],
        vec![0x80, 0x80, 0x80, 0x80, 0x80, 0x00],
    ] {
        match ByteReader::new(&buf).read_varuint32() {
            Err(AntelopeError::BadVarint) => {}
            other => panic!("{other:?}"),
        }
    }
    assert_eq!(ByteReader::new(&[0x80, 0x00]).read_varuint32().unwrap(), 0);
    assert!(ByteReader::new(&[0x80]).read_varuint32().is_err());
    let extremes = [0xfe, 0xff, 0xff, 0xff, 0x0f, 0xff, 0xff, 0xff, 0xff, 0x0f];
    let mut r = ByteReader::new(&extremes);
    assert_eq!(r.read_varint32().unwrap(), i32::MAX);
    assert_eq!(r.read_varint32().unwrap(), i32::MIN);
}

#[test]
fn reads_numbers_of_each_width() {
    let bytes: Vec<u8> = (1..=31).chain([0xff, 0xff]).collect();
    let mut r = ByteReader::new(&bytes);
    assert_eq!(r.read_u8().unwrap(), 1);
    assert_eq!(r.read_u16().unwrap(), 0x0302);
    assert_eq!(r.read_u32().unwrap(), 0x07060504);
    assert_eq!(r.read_u64().unwrap(), 0x0f0e0d0c0b0a0908);
    assert_eq!(r.read_u128().unwrap(), 0x1f1e1d1c1b1a19181716151413121110);
    assert_eq!(r.read_i16().unwrap(), -1);
    assert!(r.is_empty());

    let ones = [0xffu8; 31];
    let mut r = ByteReader::new(&ones);
    assert_eq!(r.read_i8().unwrap(), -1);
    assert_eq!(r.read_i32().unwrap(), -1);
    assert_eq!(r.read_i64().unwrap(), -1);
    assert_eq!(r.read_i128().unwrap(), -1);
    assert!(r.read_bool().unwrap());
    assert_eq!(r.remaining(), 1);
}

#[test]
fn reads_strings_and_checksums() {
    let mut bytes = vec![3, b'a', 0xff, b'b', 2, 0xc3, 0xa9];
    bytes.extend_from_slice(&[0xab; 64]);
    let mut r = ByteReader::new(&bytes);
    assert_eq!(r.read_string().unwrap(), "a\u{fffd}b");
    assert_eq!(r.read_string().unwrap(), "\u{e9}");
    assert_eq!(r.read_checksum256().unwrap(), [0xab; 32]);
    assert_eq!(r.data_slice(0, 2), &[3, b'a']);
    assert_eq!(r.read_checksum256_hex().unwrap(), "ab".repeat(32));
    assert!(r.read_bytes().is_err());
}

// Times

#[test]
fn block_timestamp_epoch() {
    assert_eq!(block_timestamp_to_string(0), "2000-01-01T00:00:00.000");
    assert_eq!(block_timestamp_to_string(1), "2000-01-01T00:00:00.500");
}

#[test]
fn time_points() {
    assert_eq!(time_point_sec_to_string(0), "1970-01-01T00:00:00.000");
    assert_eq!(time_point_to_string(1_500_000), "1970-01-01T00:00:01.500");
}

#[test]
fn times_at_the_edges() {
    assert_eq!(time_point_sec_to_string(u32::MAX), "2106-02-07T06:28:15.000");
    assert_eq!(time_point_to_string(-1), "1969-12-31T23:59:59.999");
    assert_eq!(block_timestamp_to_ms(0), 946_684_800_000);
    assert_eq!(block_timestamp_to_ms(u32::MAX), 946_684_800_000 + 4_294_967_295 * 500);
    assert_eq!(block_timestamp_to_string(u32::MAX), "2068-01-19T03:14:07.500");
    // Beyond the calendar, the epoch stands in.
    assert_eq!(time_point_to_string(i64::MAX), "1970-01-01T00:00:00.000");
    assert_eq!(time_point_to_string(i64::MIN), "1970-01-01T00:00:00.000");
    assert_eq!(time_point_to_string(-8_334_601_228_800_000_001), "1970-01-01T00:00:00.000");
    assert_eq!(time_point_to_string(8_210_266_876_800_000_000), "1970-01-01T00:00:00.000");
    assert_eq!(time_point_to_string(-8_334_601_228_800_000_000), "-262143-01-01T00:00:00.000");
    assert_eq!(time_point_to_string(8_210_266_876_799_999_999), "+262142-12-31T23:59:59.999");
}

#[test]
fn errors_say_what_is_wrong() {
    for (e, said) in [
        (
            AntelopeError::Eof { needed: 4, remaining: 2 },
            "unexpected end of buffer: needed 4 bytes, 2 remaining",
        ),
        (AntelopeError::BadVarint, "varuint32 too long or malformed"),
        (AntelopeError::BadName("X".to_string()), "invalid name: X"),
        (AntelopeError::BadSymbol("X".to_string()), "invalid symbol: X"),
        (AntelopeError::BadUtf8, "invalid utf-8 in string"),
        (AntelopeError::UnknownType("X".to_string()), "unknown ABI type: X"),
        (AntelopeError::BadAbi("X".to_string()), "invalid ABI: X"),
        (AntelopeError::BadKeyType(9), "unsupported key/signature type 9"),
        (
            AntelopeError::BadVariantIndex { variant: "v".to_string(), index: 7 },
            "variant index 7 out of range for v",
        ),
    ] {
        assert_eq!(e.to_string(), said);
    }
}

#[test]
fn checksums_are_the_start_of_a_digest() {
    let digest: Vec<u8> = (1..=20).collect();
    let payload = [7u8; 33];
    let data = with_checksum(&payload, &digest);
    assert_eq!(data.len(), 37);
    assert_eq!(&data[33..], &[1, 2, 3, 4]);
    assert_eq!(checked_payload(&data, &digest), Some(payload.to_vec()));
    assert_eq!(checked_payload(&data, &payload), None);
    assert_eq!(label("PUB_", "K1", "abc"), "PUB_K1_abc");
}
