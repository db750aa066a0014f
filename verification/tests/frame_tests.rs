use hush::frame::wire::check_frame_len;
use hush::frame::{
    decode_request, decode_response, encode_frame, encode_request_body, encode_response_body,
    parse_frame_data, parse_request, parse_response, read_frame, write_frame,
};
use hush::frame::{
    FrameError, Request, RequestError, Response, StatusCode, FRAME_MIN_DATA, FRAME_OVERHEAD,
    MAX_FRAME_SIZE,
};
use hush::session::{ApiKey, SessionError};
use hush::tlv::{TlvMap, Value};

#[test]
fn test_frame_roundtrip() {
    let mut buf = Vec::new();
    write_frame(&mut buf, 42, b"hello").unwrap();
    let frame = read_frame(&mut buf.as_slice()).unwrap();
    assert_eq!(frame.seq, 42);
    assert_eq!(frame.data, b"hello");
}

#[test]
fn test_request_response_encrypted() {
    let key = ApiKey::generate();
    let mut map = TlvMap::new();
    map.set("name", Value::String("hush".into()));

    let req = Request { opcode: 0x0001, payload: Some(map) };

    let body = encode_request_body(Some(&key.secret), &req).unwrap();
    let frame_bytes = encode_frame(1, &body).unwrap();
    let (decoded, _) = decode_request(Some(&key.secret), &frame_bytes[4..]).unwrap();

    assert_eq!(decoded.opcode, 0x0001);
    assert_eq!(decoded.payload.unwrap().get_string("name"), Some("hush"));
}

#[test]
fn test_response_roundtrip() {
    let key = ApiKey::generate();
    let resp = Response { status: StatusCode::NotFound, payload: None, seq: 0 };

    let body = encode_response_body(Some(&key.secret), &resp).unwrap();
    let frame_bytes = encode_frame(1, &body).unwrap();
    let decoded = decode_response(Some(&key.secret), &frame_bytes[4..]).unwrap();

    assert_eq!(decoded.status, StatusCode::NotFound);
}

// ── Frames ──────────────────────────────────────────────────

#[test]
fn sizes() {
    assert_eq!(MAX_FRAME_SIZE, 1 << 20);
    assert_eq!(FRAME_OVERHEAD, 4 + 12 + 16);
    assert_eq!(FRAME_MIN_DATA, 4);
}

#[test]
fn frame_bytes() {
    assert_eq!(
        encode_frame(0x01020304, b"ab").unwrap(),
        vec![0, 0, 0, 6, 1, 2, 3, 4, b'a', b'b']
    );
    assert_eq!(encode_frame(0, b"").unwrap(), vec![0, 0, 0, 4, 0, 0, 0, 0]);
}

#[test]
fn frames_have_a_largest_size() {
    let largest = vec![0u8; (1 << 20) - 4];
    assert_eq!(encode_frame(1, &largest).unwrap().len(), (1 << 20) + 4);
    let larger = vec![0u8; (1 << 20) - 3];
    let e = encode_frame(1, &larger).unwrap_err();
    assert!(matches!(e, FrameError::TooLarge(1048577, 1048576)));
    assert_eq!(e.message(), "frame: too large (1048577 bytes, max 1048576)");
    let mut out = vec![1];
    assert!(write_frame(&mut out, 1, &larger).is_err());
    assert_eq!(out, vec![1]);
}

#[test]
fn frames_follow_one_another() {
    let mut buf = vec![];
    write_frame(&mut buf, 1, b"one").unwrap();
    write_frame(&mut buf, 2, b"two").unwrap();
    let mut r = buf.as_slice();
    assert_eq!(read_frame(&mut r).unwrap().data, b"one");
    assert_eq!(read_frame(&mut r).unwrap().data, b"two");
    let e = read_frame(&mut r).unwrap_err();
    assert!(matches!(e, FrameError::Eof));
    assert_eq!(e.message(), "frame: eof");
}

#[test]
fn frames_that_are_refused() {
    let mut short: &[u8] = &[0, 0, 0, 3, 1, 2, 3];
    let e = read_frame(&mut short).unwrap_err();
    assert!(matches!(e, FrameError::TooShort(3)));
    assert_eq!(e.message(), "frame: too short (3 bytes)");
    assert_eq!(short, &[1, 2, 3]);
    let mut large: &[u8] = &[0, 16, 0, 1, 9];
    let e = read_frame(&mut large).unwrap_err();
    assert!(matches!(e, FrameError::TooLarge(1048577, 1048576)));
    let mut cut: &[u8] = &[0, 0, 0, 5, 0, 0, 0, 1];
    let e = read_frame(&mut cut).unwrap_err();
    assert_eq!(e.message(), "frame: io error: failed to fill whole buffer");
    assert_eq!(check_frame_len(&[0, 0, 0, 4]).unwrap(), 4);
    assert!(check_frame_len(&[0, 0, 0, 0]).is_err());
    assert_eq!(check_frame_len(&[0, 16, 0, 0]).unwrap(), 1 << 20);
}

#[test]
fn frame_data_needs_a_sequence_number() {
    let f = parse_frame_data(&[0, 0, 1, 0, 7]).unwrap();
    assert_eq!((f.seq, f.data), (256, vec![7]));
    assert!(matches!(parse_frame_data(&[1, 2]), Err(FrameError::TooShort(2))));
}

// ── Statuses ────────────────────────────────────────────────

#[test]
fn status_codes() {
    for b in 0..8u8 {
        assert_eq!(StatusCode::from_u8(b).unwrap().to_u8(), b);
    }
    assert_eq!(StatusCode::from_u8(8), None);
    assert_eq!(StatusCode::from_u8(2), Some(StatusCode::Unauthenticated));
    assert_eq!(StatusCode::RateLimited.to_u8(), 6);
}

// ── Messages ────────────────────────────────────────────────

#[test]
fn plain_messages() {
    let req = Request { opcode: 0x0102, payload: None };
    assert_eq!(encode_request_body(None, &req).unwrap(), vec![1, 2]);
    let mut m = TlvMap::new();
    m.set("k", Value::Bool(true));
    let req = Request { opcode: 7, payload: Some(m.clone()) };
    let body = encode_request_body(None, &req).unwrap();
    assert_eq!(body, vec![0, 7, 0x0D, 6, 0x01, 1, b'k', 0x0B, 1, 1]);
    let resp = Response { status: StatusCode::NotFound, payload: Some(m.clone()), seq: 5 };
    let body = encode_response_body(None, &resp).unwrap();
    assert_eq!(body, vec![4, 0x0D, 6, 0x01, 1, b'k', 0x0B, 1, 1]);
    let frame = encode_frame(9, &body).unwrap();
    let back = decode_response(None, &frame[4..]).unwrap();
    assert_eq!(back.status, StatusCode::NotFound);
    assert_eq!(back.payload, Some(m));
    assert_eq!(back.seq, 9);
    let copy = back.clone();
    assert_eq!(copy.payload, back.payload);
    let again = req.clone();
    assert_eq!((again.opcode, again.payload), (req.opcode, req.payload));
}

#[test]
fn sequence_number_comes_back() {
    let frame = encode_frame(77, &[0, 1]).unwrap();
    let (req, seq) = decode_request(None, &frame[4..]).unwrap();
    assert_eq!((req.opcode, seq), (1, 77));
    assert!(req.payload.is_none());
}

#[test]
fn bytes_that_are_no_map_are_dropped() {
    assert!(parse_request(&[0, 1, 0xFF, 0xFF]).unwrap().payload.is_none());
    assert!(parse_response(&[0, 0x0E, 0], 1).unwrap().payload.is_none());
    assert!(parse_request(&[0, 1, 0x0D, 0]).unwrap().payload.unwrap().is_empty());
}

#[test]
fn a_map_that_is_too_large_does_not_arrive() {
    let mut m = TlvMap::new();
    m.set("big", Value::Bytes(vec![0; 524288]));
    let req = Request { opcode: 3, payload: Some(m) };
    let body = encode_request_body(None, &req).unwrap();
    let back = parse_request(&body).unwrap();
    assert_eq!(back.opcode, 3);
    assert!(back.payload.is_none());
}

#[test]
fn message_errors() {
    let e = decode_request(None, &[1, 2]).unwrap_err();
    assert_eq!(e.message(), "frame: frame: too short (2 bytes)");
    let e = decode_request(None, &[0, 0, 0, 1, 9]).unwrap_err();
    assert!(matches!(e, RequestError::TooShort));
    assert_eq!(e.message(), "frame: request too short");
    let e = decode_response(None, &[0, 0, 0, 1]).unwrap_err();
    assert!(matches!(e, RequestError::TooShort));
    let e = decode_response(None, &[0, 0, 0, 1, 200]).unwrap_err();
    assert!(matches!(e, RequestError::UnknownStatus(200)));
    assert_eq!(e.message(), "frame: unknown status code 200");
    let e = decode_response(Some(&[0; 32]), &[0, 0, 0, 1, 200]).unwrap_err();
    assert_eq!(e.message(), "session: ciphertext too short");
    let req = Request { opcode: 1, payload: None };
    let e = encode_request_body(Some(&[0; 31]), &req).unwrap_err();
    assert_eq!(e.message(), "session: aes: invalid key length");
    let e = RequestError::from(FrameError::Eof);
    assert_eq!(e.message(), "frame: frame: eof");
    let e = RequestError::from(SessionError::Crypto("c".into()));
    assert_eq!(e.message(), "session: c");
}
