use hush::time::Duration;
use hush::tlv::decode::decode_value;
use hush::tlv::{decode, decode_map, decode_map_opt, encode, encode_map};
use hush::tlv::{TlvError, TlvMap, Type, Value, MAX_DECODE_DEPTH};

fn roundtrip(v: &Value) {
    let encoded = encode(v);
    let decoded = decode(&encoded).unwrap();
    assert_eq!(*v, decoded);
}

#[test]
fn test_string() {
    roundtrip(&Value::String("hello hush".into()));
}

#[test]
fn test_bytes() {
    roundtrip(&Value::Bytes(vec![0xde, 0xad, 0xbe, 0xef]));
}

#[test]
fn test_u8() {
    roundtrip(&Value::Uint8(255));
}

#[test]
fn test_u16() {
    roundtrip(&Value::Uint16(65535));
}

#[test]
fn test_u32() {
    roundtrip(&Value::Uint32(4294967295));
}

#[test]
fn test_u64() {
    roundtrip(&Value::Uint64(u64::MAX));
}

#[test]
fn test_i32() {
    roundtrip(&Value::Int32(-2147483648));
}

#[test]
fn test_i64() {
    roundtrip(&Value::Int64(-9223372036854775808));
}

#[test]
fn test_f32() {
    roundtrip(&Value::Float32(3.14159f32.to_bits()));
}

#[test]
fn test_f64() {
    roundtrip(&Value::Float64(2.718281828459045f64.to_bits()));
}

#[test]
fn test_bool() {
    roundtrip(&Value::Bool(true));
}

#[test]
fn test_null() {
    roundtrip(&Value::Null);
}

#[test]
fn test_timestamp() {
    roundtrip(&Value::Timestamp(Duration::from_millis(1700000000000)));
}

#[test]
fn test_array() {
    let v = Value::Array(vec![
        Value::String("a".into()),
        Value::Uint64(42),
        Value::Bool(true),
    ]);
    roundtrip(&v);
}

#[test]
fn test_map() {
    let mut m = TlvMap::new();
    m.set("name", Value::String("hush".into()));
    m.set("version", Value::Uint64(1));
    roundtrip(&Value::TlvMap(m));
}

#[test]
fn test_nested_map() {
    let mut inner = TlvMap::new();
    inner.set("x", Value::Uint32(100));
    let mut outer = TlvMap::new();
    outer.set("inner", Value::TlvMap(inner));
    roundtrip(&Value::TlvMap(outer));
}

#[test]
fn test_empty_map() {
    roundtrip(&Value::TlvMap(TlvMap::new()));
}

#[test]
fn test_large_string() {
    roundtrip(&Value::String("a".repeat(10000)));
}

#[test]
fn test_max_depth() {
    let mut v = Value::Uint64(1);
    for _ in 0..MAX_DECODE_DEPTH {
        v = Value::Array(vec![v]);
    }
    let encoded = encode(&v);
    assert!(decode(&encoded).is_ok());
}

#[test]
fn test_exceeds_max_depth() {
    let mut v = Value::Uint64(1);
    for _ in 0..=MAX_DECODE_DEPTH {
        v = Value::Array(vec![v]);
    }
    let encoded = encode(&v);
    assert!(decode(&encoded).is_err());
}

#[test]
fn test_map_overwrite() {
    let mut m = TlvMap::new();
    m.set("key", Value::Uint64(1));
    m.set("key", Value::Uint64(2));
    assert_eq!(m.get_uint64("key"), Some(2));
    assert_eq!(m.len(), 1);
}

#[test]
fn test_unknown_type() {
    assert!(decode(&[0xFF, 0x00]).is_err());
}

#[test]
fn test_oversized_payload() {
    assert!(decode(&[0x02, 0x80, 0x80, 0x80, 0x80, 0x08]).is_err());
}

// ── Exact bytes ─────────────────────────────────────────────

#[test]
fn exact_bytes_of_scalars() {
    assert_eq!(encode(&Value::String("hi".into())), vec![0x01, 2, b'h', b'i']);
    assert_eq!(encode(&Value::Bytes(vec![9, 8])), vec![0x02, 2, 9, 8]);
    assert_eq!(encode(&Value::Uint8(7)), vec![0x03, 1, 7]);
    assert_eq!(encode(&Value::Uint16(0x0102)), vec![0x04, 2, 1, 2]);
    assert_eq!(encode(&Value::Uint32(0x01020304)), vec![0x05, 4, 1, 2, 3, 4]);
    assert_eq!(
        encode(&Value::Uint64(0x0102030405060708)),
        vec![0x06, 8, 1, 2, 3, 4, 5, 6, 7, 8]
    );
    assert_eq!(encode(&Value::Int32(-2)), vec![0x07, 4, 255, 255, 255, 254]);
    assert_eq!(
        encode(&Value::Int64(-1)),
        vec![0x08, 8, 255, 255, 255, 255, 255, 255, 255, 255]
    );
    assert_eq!(
        encode(&Value::Float32(1.0f32.to_bits())),
        vec![0x09, 4, 0x3f, 0x80, 0, 0]
    );
    assert_eq!(
        encode(&Value::Float64(1.0f64.to_bits())),
        vec![0x0A, 8, 0x3f, 0xf0, 0, 0, 0, 0, 0, 0]
    );
    assert_eq!(encode(&Value::Bool(true)), vec![0x0B, 1, 1]);
    assert_eq!(encode(&Value::Bool(false)), vec![0x0B, 1, 0]);
    assert_eq!(encode(&Value::Null), vec![0x0E, 0]);
    assert_eq!(
        encode(&Value::Timestamp(Duration::from_millis(258))),
        vec![0x0F, 8, 0, 0, 0, 0, 0, 0, 1, 2]
    );
}

#[test]
fn exact_bytes_of_containers() {
    let v = Value::Array(vec![Value::Uint8(1), Value::Null]);
    assert_eq!(encode(&v), vec![0x0C, 5, 0x03, 1, 1, 0x0E, 0]);
    let mut m = TlvMap::new();
    m.set("k", Value::Bool(true));
    assert_eq!(encode_map(&m), vec![0x0D, 6, 0x01, 1, b'k', 0x0B, 1, 1]);
    assert_eq!(encode_map(&TlvMap::default()), vec![0x0D, 0]);
}

#[test]
fn long_length_takes_two_bytes() {
    let e = encode(&Value::Bytes(vec![0; 300]));
    assert_eq!(&e[..3], &[0x02, 0xAC, 0x02]);
    assert_eq!(e.len(), 303);
}

#[test]
fn type_codes() {
    assert_eq!(Type::from_u8(0x01), Some(Type::String));
    assert_eq!(Type::from_u8(0x0D), Some(Type::TlvMap));
    assert_eq!(Type::from_u8(0x0F), Some(Type::Timestamp));
    assert_eq!(Type::from_u8(0x00), None);
    assert_eq!(Type::from_u8(0x10), None);
}

// ── Errors ──────────────────────────────────────────────────

fn failure(buf: &[u8]) -> String {
    decode(buf).unwrap_err()
}

#[test]
fn error_texts() {
    assert_eq!(failure(&[]), "tlv: unexpected EOF");
    assert_eq!(failure(&[0xFF, 0x00]), "tlv: unknown type 0xff");
    assert_eq!(failure(&[0x00]), "tlv: unknown type 0x00");
    assert_eq!(failure(&[0x02]), "tlv: decode varint: unterminated varint");
    assert_eq!(
        failure(&[0x02, 0x80, 0x80]),
        "tlv: decode varint: unterminated varint"
    );
    assert_eq!(
        failure(&[0x02, 128, 128, 128, 128, 128, 128, 128, 128, 128, 128, 128]),
        "tlv: decode varint: varint too long"
    );
    assert_eq!(
        failure(&[0x02, 0x80, 0x80, 0x80, 0x80, 0x08]),
        "tlv: payload too large (2147483648 bytes, max 524288)"
    );
    assert_eq!(failure(&[0x02, 5, 1]), "tlv: payload exceeds buffer");
    assert_eq!(failure(&[0x01, 1, 0xFF]), "tlv: invalid utf-8 string");
    assert_eq!(failure(&[0x03, 0]), "tlv: uint8 needs 1 byte");
    assert_eq!(failure(&[0x04, 1, 0]), "tlv: uint16 needs 2 bytes");
    assert_eq!(failure(&[0x05, 0]), "tlv: uint32 needs 4 bytes");
    assert_eq!(failure(&[0x06, 0]), "tlv: uint64 needs 8 bytes");
    assert_eq!(failure(&[0x07, 0]), "tlv: int32 needs 4 bytes");
    assert_eq!(failure(&[0x08, 0]), "tlv: int64 needs 8 bytes");
    assert_eq!(failure(&[0x09, 0]), "tlv: float32 needs 4 bytes");
    assert_eq!(failure(&[0x0A, 0]), "tlv: float64 needs 8 bytes");
    assert_eq!(failure(&[0x0B, 0]), "tlv: bool needs 1 byte");
    assert_eq!(failure(&[0x0F, 0]), "tlv: timestamp needs 8 bytes");
    assert_eq!(
        failure(&[0x0D, 3, 0x03, 1, 7]),
        "tlv: map key must be string"
    );
    assert_eq!(
        failure(&[0x0D, 3, 0x01, 1, b'k']),
        "tlv: map entry missing value for key 'k'"
    );
    assert_eq!(
        decode_map(&[0x0E, 0]).unwrap_err(),
        "tlv: expected map"
    );
}

#[test]
fn too_deep_is_reported_with_the_depth() {
    let mut v = Value::Null;
    for _ in 0..65 {
        v = Value::Array(vec![v]);
    }
    assert_eq!(failure(&encode(&v)), "tlv: nested depth 65 exceeds max 64");
    let mut m = Value::Null;
    for _ in 0..65 {
        let mut outer = TlvMap::new();
        outer.set("m", m);
        m = Value::TlvMap(outer);
    }
    assert_eq!(failure(&encode(&m)), "tlv: nested depth 65 exceeds max 64");
}

#[test]
fn too_large_is_reported_with_the_size() {
    assert_eq!(
        failure(&encode(&Value::Bytes(vec![0; 524289]))),
        "tlv: payload too large (524289 bytes, max 524288)"
    );
    roundtrip(&Value::Bytes(vec![0; 524288]));
}

#[test]
fn tlv_error_text() {
    let e = TlvError::from("broken");
    assert_eq!(e.message(), "tlv: broken");
}

// ── Reading leniently ───────────────────────────────────────

#[test]
fn what_follows_a_value_is_ignored() {
    assert_eq!(decode(&[0x03, 1, 7, 99, 99]).unwrap(), Value::Uint8(7));
}

#[test]
fn what_follows_a_number_in_its_payload_is_ignored() {
    assert_eq!(decode(&[0x04, 3, 1, 2, 3]).unwrap(), Value::Uint16(0x0102));
    assert_eq!(decode(&[0x0E, 2, 1, 1]).unwrap(), Value::Null);
    assert_eq!(decode(&[0x0B, 1, 2]).unwrap(), Value::Bool(true));
}

#[test]
fn a_name_that_comes_again_takes_the_later_value() {
    let buf = [0x0D, 12, 0x01, 1, b'k', 0x03, 1, 1, 0x01, 1, b'k', 0x03, 1, 2];
    let m = decode_map(&buf).unwrap();
    assert_eq!(m.len(), 1);
    assert_eq!(m.get("k"), Some(&Value::Uint8(2)));
}

#[test]
fn optional_maps() {
    assert!(decode_map_opt(&[]).is_none());
    assert!(decode_map_opt(&[0x0E, 0]).is_none());
    assert!(decode_map_opt(&[0xFF]).is_none());
    assert!(decode_map_opt(&[0x0D, 0]).unwrap().is_empty());
}

#[test]
fn time_is_cut_to_whole_milliseconds() {
    let v = Value::Timestamp(Duration::from_nanos(1_999_999));
    assert_eq!(
        decode(&encode(&v)).unwrap(),
        Value::Timestamp(Duration::from_millis(1))
    );
}

// ── Maps ────────────────────────────────────────────────────

#[test]
fn map_accessors() {
    let mut inner = TlvMap::new();
    inner.set("x", Value::Null);
    let mut m = TlvMap::new();
    assert!(m.is_empty());
    m.set("s", Value::String("text".into()))
        .set("n", Value::Uint64(5))
        .set("b", Value::Bytes(vec![1, 2]))
        .set("m", TlvMap::map_value(&inner));
    assert_eq!(m.get_string("s"), Some("text"));
    assert_eq!(m.get_string("n"), None);
    assert_eq!(m.get_uint64("n"), Some(5));
    assert_eq!(m.get_uint64("s"), None);
    assert_eq!(m.get_bytes("b"), Some(&[1u8, 2][..]));
    assert_eq!(m.get_bytes("zzz"), None);
    assert_eq!(m.get_map("m"), Some(inner.clone()));
    assert_eq!(m.get_map("b"), None);
    assert!(m.get("nothing").is_none());
    let names: Vec<&str> = m.iter().iter().map(|(k, _)| *k).collect();
    assert_eq!(names, vec!["s", "n", "b", "m"]);
    let copy = m.clone();
    assert_eq!(copy, m);
    let entries = copy.into_entries();
    assert_eq!(entries.len(), 4);
    assert_eq!(entries[1], ("n".to_string(), Value::Uint64(5)));
}

#[test]
fn setting_a_name_again_keeps_its_place() {
    let mut m = TlvMap::new();
    m.set("a", Value::Uint8(1));
    m.set("b", Value::Uint8(2));
    m.set("a", Value::Uint8(3));
    let names: Vec<&str> = m.iter().iter().map(|(k, _)| *k).collect();
    assert_eq!(names, vec!["a", "b"]);
    assert_eq!(m.get("a"), Some(&Value::Uint8(3)));
    assert_eq!(m.get("b"), Some(&Value::Uint8(2)));
}

#[test]
fn a_value_depends_on_its_own_bytes() {
    let bytes = encode(&Value::Array(vec![Value::Uint8(3), Value::String("x".into())]));
    let alone = decode(&bytes).unwrap();
    for after in [&[][..], &[0xFF; 3][..], &[0x80; 20][..]] {
        let mut longer = bytes.clone();
        longer.extend_from_slice(after);
        assert_eq!(decode(&longer).unwrap(), alone);
    }
}

#[test]
fn one_value_at_any_depth() {
    let mut bytes = encode(&Value::Uint8(3));
    let n = bytes.len();
    bytes.extend_from_slice(&[9, 9, 9]);
    for depth in [0, 1, 64] {
        assert_eq!(decode_value(&bytes, depth).unwrap(), (Value::Uint8(3), n));
        assert_eq!(decode_value(&bytes[..n], depth).unwrap(), (Value::Uint8(3), n));
    }
    let e = decode_value(&bytes, 65).unwrap_err();
    assert_eq!(e, "tlv: nested depth 65 exceeds max 64");
    assert!(decode_value(&bytes, usize::MAX).is_err());
    assert!(decode_value(&[], 0).is_err());
}

#[test]
fn no_encoding_begins_with_another() {
    let values = vec![
        Value::Null,
        Value::Uint8(0),
        Value::Uint16(0),
        Value::String(String::new()),
        Value::String("a".into()),
        Value::Array(vec![]),
        Value::Array(vec![Value::Null]),
        Value::Array(vec![Value::Null, Value::Null]),
    ];
    for (i, a) in values.iter().enumerate() {
        for (j, b) in values.iter().enumerate() {
            if i != j {
                assert!(!encode(a).starts_with(&encode(b)));
            }
        }
    }
}
