use hush::client::{Client, ClientError};
use hush::frame::{decode_response, Response, StatusCode};
use hush::server::reply::{bad_request_reply, handler_reply, reply_frame};
use hush::server::connection::{ConnAction, ConnEvent, ConnState};
use hush::server::refusal::Refusal;
use hush::server::routing::{Dispatch, SessionBound, StreamStart};
use hush::server::stream::{StreamAction, StreamEvent, StreamState};
use hush::server::{error_response, new_response, HandlerType, Server, ServerError};
use hush::session::{ApiKey, MapKeyStore, Session, SessionConfig, SessionError, StaticSecret};
use hush::time::{Duration, Instant};
use hush::tlv::{TlvMap, Value};
use hush::transport::TransportError;

type Sync = fn(hush::server::Request) -> Result<Response, String>;
type TestServer = Server<MapKeyStore, Sync, &'static str>;

fn at(secs: u64) -> Instant {
    Instant { nanos: secs as u128 * 1_000_000_000 }
}

fn server_with(key: &ApiKey) -> TestServer {
    let mut store = MapKeyStore::new();
    store.insert(key.id.clone(), key.secret.clone());
    Server::new(store)
}

fn echo(req: hush::server::Request) -> Result<Response, String> {
    Ok(new_response(req.payload))
}

fn fail(_req: hush::server::Request) -> Result<Response, String> {
    Err("secret reason".into())
}

/// Runs a whole handshake, and gives the client and the number of the session.
fn connect(server: &mut TestServer, key: &ApiKey) -> (Client, u64) {
    let (secret, hello) = Client::begin(key);
    let n = TestServer::hello_len(&[hello[0], hello[1]]).unwrap();
    assert_eq!(n, hello.len() - 2);
    let id = server.next_session_id();
    let (session, answer) = server.answer_hello(&hello[2..], id, server.clock().now()).unwrap();
    server.establish(session);
    let client = Client::finish(secret, &answer, key, at(0)).unwrap();
    assert_eq!(client.session_id(), id);
    (client, id)
}

/// The key that the server uses on a stream.
fn stream_key(server: &TestServer, id: u64) -> Vec<u8> {
    match server.begin_stream_at(id, server.clock().now()) {
        StreamStart::Ready(key) => key,
        StreamStart::Expired(_) => panic!("expired"),
    }
}

#[test]
fn a_request_is_answered() {
    let key = ApiKey::generate();
    let mut server = server_with(&key);
    server.handle(1, echo);
    let (mut client, id) = connect(&mut server, &key);
    let mut m = TlvMap::new();
    m.set("q", Value::Uint64(9));
    for seq in 0..3u32 {
        let frame = client.next_request(1, Some(m.clone())).unwrap();
        let skey = stream_key(&server, id);
        let reply = match server.dispatch(&skey, &frame[4..], id, &key.id) {
            Dispatch::Call(HandlerType::Sync(h), req, n) => {
                assert_eq!(n, seq);
                assert_eq!((req.opcode, req.session_id), (1, id));
                assert_eq!(req.api_key_id, key.id);
                let copy = req.clone();
                assert_eq!(copy.payload, req.payload);
                handler_reply(&skey, n, &h(req)).unwrap()
            }
            _ => panic!("no handler"),
        };
        let header = [reply[0], reply[1], reply[2], reply[3]];
        assert_eq!(Client::response_len(&header).unwrap() as usize, reply.len() - 4);
        let resp = client.read_response(&reply[4..]).unwrap();
        assert_eq!(resp.status, StatusCode::Success);
        assert_eq!(resp.payload, Some(m.clone()));
        assert_eq!(resp.seq, seq);
    }
}

#[test]
fn an_unknown_opcode_is_reported() {
    let key = ApiKey::generate();
    let mut server = server_with(&key);
    let (mut client, id) = connect(&mut server, &key);
    client.next_request(5, None).unwrap();
    let frame = client.next_request(0x0102, None).unwrap();
    let skey = stream_key(&server, id);
    match server.dispatch(&skey, &frame[4..], id, &key.id) {
        Dispatch::Refuse(Refusal::NotFound(0x0102), Some(reply)) => {
            let resp = client.read_response(&reply[4..]).unwrap();
            assert_eq!(resp.status, StatusCode::NotFound);
            assert_eq!(resp.payload.unwrap().get("opcode"), Some(&Value::Uint16(0x0102)));
            assert_eq!(resp.seq, 1);
        }
        _ => panic!("no reply"),
    };
}

#[test]
fn a_broken_request_is_reported() {
    let key = ApiKey::generate();
    let mut server = server_with(&key);
    let (client, id) = connect(&mut server, &key);
    let skey = stream_key(&server, id);
    match server.dispatch(&skey, &[1, 2, 3, 4, 5], id, &key.id) {
        Dispatch::Refuse(why, Some(reply)) => {
            assert_eq!(
                why.message(id),
                format!("session[{id}] read request: session: ciphertext too short")
            );
            let resp = client.read_response(&reply[4..]).unwrap();
            assert_eq!(resp.status, StatusCode::BadRequest);
            assert_eq!(resp.payload.unwrap().get_string("error"), Some("bad request"));
            assert_eq!(resp.seq, 0);
        }
        _ => panic!("no reply"),
    };
}

#[test]
fn a_failed_handler_is_reported_without_its_reason() {
    let skey = [1u8; 32];
    let reply = handler_reply(&skey, 7, &fail_result()).unwrap();
    let resp = decode_response(Some(&skey), &reply[4..]).unwrap();
    assert_eq!(resp.status, StatusCode::InternalError);
    assert_eq!(resp.payload.unwrap().get_string("error"), Some("internal error"));
    assert_eq!(resp.seq, 7);
}

fn fail_result() -> Result<Response, String> {
    let req = hush::server::Request {
        opcode: 1,
        payload: TlvMap::new(),
        session_id: 1,
        api_key_id: String::new(),
    };
    fail(req)
}

#[test]
fn an_expired_session_is_reported() {
    let key = ApiKey::generate();
    let mut server = server_with(&key).with_session_config(SessionConfig {
        idle_timeout: Duration::from_secs(10),
        max_lifetime: Duration::from_secs(100),
        gc_interval: Duration::from_secs(0),
    });
    assert_eq!(server.gc_interval(), Duration::from_secs(60));
    server.establish(Session::new_at(4, "k".into(), vec![3; 32], at(0)));
    assert!(matches!(server.begin_stream_at(4, at(10)), StreamStart::Ready(_)));
    match server.begin_stream_at(4, at(11)) {
        StreamStart::Expired(Some(reply)) => {
            let resp = decode_response(Some(&[3; 32]), &reply[4..]).unwrap();
            assert_eq!(resp.status, StatusCode::SessionExpired);
            assert!(resp.payload.is_none());
            assert_eq!(resp.seq, 0);
        }
        _ => panic!("not expired"),
    }
    match server.begin_stream_at(99, at(1000)) {
        StreamStart::Ready(key) => assert!(key.is_empty()),
        _ => panic!("unknown session"),
    }
    server.close(4);
    assert!(server.session_store().is_empty());
    server.gc();
}

#[test]
fn without_a_usable_key_there_is_no_reply() {
    assert!(bad_request_reply(&[]).is_none());
    let resp = new_response(TlvMap::new());
    assert!(reply_frame(&[0; 31], 1, &resp).is_none());
    let mut m = TlvMap::new();
    m.set("b", Value::Bytes(vec![0; 1 << 20]));
    assert!(reply_frame(&[0; 32], 1, &new_response(m)).is_none());
}

#[test]
fn handlers_replace_one_another() {
    let key = ApiKey::generate();
    let mut server = server_with(&key);
    assert!(server.lookup(1).is_none());
    server.handle(1, echo);
    server.handle_stream(1, "stream");
    assert!(matches!(server.lookup(1), Some(HandlerType::Stream("stream"))));
    server.handle(1, fail);
    assert!(matches!(server.lookup(1), Some(HandlerType::Sync(_))));
}

#[test]
fn session_numbers_follow_one_another() {
    let key = ApiKey::generate();
    let mut server = server_with(&key);
    assert_eq!((server.next_session_id(), server.next_session_id()), (1, 2));
}

#[test]
fn hellos_that_are_refused() {
    let key = ApiKey::generate();
    let server = server_with(&key);
    for header in [[0u8, 0u8], [1, 1]] {
        let e = TestServer::hello_len(&header).unwrap_err();
        assert_eq!(e.message(), "server: invalid key length");
    }
    let mut body = b"who\xff".to_vec();
    body.extend_from_slice(&[1; 32]);
    let e = server.answer_hello(&body, 1, at(0)).unwrap_err();
    assert_eq!(e.message(), "server: unknown api key 'who\u{fffd}'");
}

#[test]
fn a_server_with_a_given_key_answers_with_its_public_key() {
    let secret = StaticSecret::from_bytes([8; 32]);
    let mut store = MapKeyStore::new();
    store.insert("k".into(), vec![1]);
    let server: TestServer = Server::with_secret(store, secret);
    let mut body = b"k".to_vec();
    body.extend_from_slice(&[9; 32]);
    let (session, answer) = server.answer_hello(&body, 3, at(5)).unwrap();
    assert_eq!(&answer[..32], &secret.public_key().to_bytes());
    assert_eq!(&answer[32..], &[0, 0, 0, 0, 0, 0, 0, 3]);
    assert_eq!((session.id, session.api_key_id.as_str()), (3, "k"));
    assert_eq!(session.created_at, at(5));
}

#[test]
fn media_tokens_are_bound_to_sessions() {
    let key = ApiKey::generate();
    let mut server = server_with(&key);
    let e = server.issue_media_token(1, "t").unwrap_err();
    assert_eq!(e.message(), "server: media support not enabled");
    assert!(!server.validate_media_token(&[0; 16]));
    assert!(server.media_store().is_none());
    let mut server = server.with_media("https://m");
    let (_client, id) = connect(&mut server, &key);
    let t = server.issue_media_token(id, "t").unwrap();
    assert_eq!((t.session_id, t.track_id.as_str()), (id, "t"));
    assert!(server.validate_media_token(&t.id));
    assert!(server.media_store().unwrap().contains(&t.id));
    server.close(id);
    assert!(!server.validate_media_token(&t.id));
    assert!(!server.media_store().unwrap().contains(&t.id));
    let _ = SessionBound;
}

#[test]
fn responses() {
    let r = error_response(StatusCode::PermissionDenied, "no");
    assert_eq!(r.status, StatusCode::PermissionDenied);
    assert_eq!(r.payload.unwrap().get_string("error"), Some("no"));
    assert_eq!(r.seq, 0);
    let r = new_response(TlvMap::new());
    assert_eq!((r.status, r.seq), (StatusCode::Success, 0));
    assert!(r.payload.unwrap().is_empty());
}

#[test]
fn server_error_texts() {
    let e = ServerError::from(SessionError::Aes("a"));
    assert_eq!(e.message(), "server: session: aes: a");
    let e = ServerError::from(TransportError::Config("t".into()));
    assert_eq!(e.message(), "server: transport: transport: t");
    assert_eq!(ServerError::Io("i".into()).message(), "server: io: i");
    assert_eq!(ServerError::Connection("c".into()).message(), "server: quinn: c");
}

// ── Steps ───────────────────────────────────────────────────

#[test]
fn a_connection_step_by_step() {
    let key = ApiKey::generate();
    let mut server = server_with(&key);
    let (secret, hello) = Client::begin(&key);
    let header = ConnEvent::Header([hello[0], hello[1]]);
    let (state, action) = server.connection_step(ConnState::Header, header, 5, at(0));
    assert!(matches!(action, ConnAction::ReadBody(48)));
    let body = ConnEvent::Body(hello[2..].to_vec());
    let (state, action) = server.connection_step(state, body, 5, at(0));
    let answer = match action {
        ConnAction::Send(answer) => answer,
        _ => panic!("no answer"),
    };
    assert!(server.session_store().is_empty());
    let (state, action) = server.connection_step(state, ConnEvent::Answered, 5, at(3));
    assert!(matches!(action, ConnAction::Serve));
    let kept = server.session_store().get(5).unwrap();
    assert_eq!((kept.created_at, kept.last_used), (at(3), at(3)));
    assert_eq!(server.session_store().len(), 1);
    let client = Client::finish(secret, &answer, &key, at(0)).unwrap();
    assert_eq!(client.session_id(), 5);
    assert_eq!(server.session_store().get(5).unwrap().api_key_id, key.id);
    let (state, action) = server.connection_step(state, ConnEvent::Ended, 5, at(0));
    assert!(matches!((state, action), (ConnState::Closed, ConnAction::Stop)));
    assert!(server.session_store().is_empty());
}

#[test]
fn connections_that_fail() {
    let key = ApiKey::generate();
    let mut server = server_with(&key);
    let header = ConnEvent::Header([0, 0]);
    match server.connection_step(ConnState::Header, header, 1, at(0)) {
        (ConnState::Closed, ConnAction::Fail(e)) => {
            assert_eq!(e.message(), "server: invalid key length")
        }
        _ => panic!("accepted"),
    }
    let mut body = b"x".to_vec();
    body.extend_from_slice(&[1; 32]);
    match server.connection_step(ConnState::Body(33), ConnEvent::Body(body.clone()), 1, at(0)) {
        (ConnState::Closed, ConnAction::Fail(e)) => {
            assert_eq!(e.message(), "server: unknown api key 'x'")
        }
        _ => panic!("accepted"),
    }
    let out_of_place = [
        (ConnState::Body(34), ConnEvent::Body(body)),
        (ConnState::Body(3), ConnEvent::Body(vec![1, 2, 3])),
        (ConnState::Header, ConnEvent::Answered),
        (ConnState::Body(33), ConnEvent::Ended),
        (ConnState::Closed, ConnEvent::Ended),
    ];
    for (state, event) in out_of_place {
        let r = server.connection_step(state, event, 1, at(0));
        assert!(matches!(r, (ConnState::Closed, ConnAction::Stop)));
    }
}

#[test]
fn a_stream_step_by_step() {
    let key = ApiKey::generate();
    let mut server = server_with(&key);
    server.handle(1, echo);
    server.handle_stream(2, "stream");
    let (mut client, id) = connect(&mut server, &key);
    let now = server.clock().now();
    let (state, action) =
        server.stream_step(StreamState::Opened, StreamEvent::Started, id, &key.id, now);
    assert!(matches!(action, StreamAction::Read));
    let frame = client.next_request(1, None).unwrap();
    let arrived = StreamEvent::Arrived(frame[4..].to_vec());
    let (state, action) = server.stream_step(state, arrived, id, &key.id, now);
    let result = match action {
        StreamAction::Call(h, req) => {
            assert!(req.payload.is_empty());
            h(req)
        }
        _ => panic!("not called"),
    };
    let (state, action) =
        server.stream_step(state, StreamEvent::Returned(result), id, &key.id, now);
    assert!(matches!(state, StreamState::Closed));
    match action {
        StreamAction::Send(Some(reply)) => {
            let resp = client.read_response(&reply[4..]).unwrap();
            assert_eq!((resp.status, resp.seq), (StatusCode::Success, 0));
        }
        _ => panic!("not sent"),
    }

    let skey = stream_key(&server, id);
    let frame = client.next_request(2, None).unwrap();
    let arrived = StreamEvent::Arrived(frame[4..].to_vec());
    match server.stream_step(StreamState::Reading(skey.clone()), arrived, id, &key.id, now) {
        (StreamState::Closed, StreamAction::TakeOver(h, req, k)) => {
            assert_eq!((*h, req.opcode, k), ("stream", 2, skey.clone()));
        }
        _ => panic!("not taken over"),
    }
    let failed = StreamEvent::Failed;
    match server.stream_step(StreamState::Reading(skey), failed, id, &key.id, now) {
        (StreamState::Closed, StreamAction::Send(Some(reply))) => {
            let resp = client.read_response(&reply[4..]).unwrap();
            assert_eq!((resp.status, resp.seq), (StatusCode::BadRequest, 0));
        }
        _ => panic!("not sent"),
    }
    let r = server.stream_step(StreamState::Closed, StreamEvent::Started, id, &key.id, now);
    assert!(matches!(r, (StreamState::Closed, StreamAction::Stop)));
}

#[test]
fn an_expired_stream_is_closed() {
    let key = ApiKey::generate();
    let mut server = server_with(&key);
    server.establish(Session::new_at(4, "k".into(), vec![3; 32], at(0)));
    let (state, action) =
        server.stream_step(StreamState::Opened, StreamEvent::Started, 4, "k", at(301));
    assert!(matches!(state, StreamState::Closed));
    match action {
        StreamAction::Refuse(why, Some(reply)) => {
            assert_eq!(why.message(4), "session[4] expired");
            let resp = decode_response(Some(&[3; 32]), &reply[4..]).unwrap();
            assert_eq!(resp.status, StatusCode::SessionExpired);
        }
        _ => panic!("not sent"),
    }
}

#[test]
fn refused_requests_close_the_stream() {
    let key = ApiKey::generate();
    let mut server = server_with(&key);
    let (mut client, id) = connect(&mut server, &key);
    let now = server.clock().now();
    let skey = stream_key(&server, id);
    let frame = client.next_request(0x00ab, None).unwrap();
    let arrived = StreamEvent::Arrived(frame[4..].to_vec());
    match server.stream_step(StreamState::Reading(skey.clone()), arrived, id, &key.id, now) {
        (StreamState::Closed, StreamAction::Refuse(why, Some(reply))) => {
            assert_eq!(why.message(12), "session[12] opcode=0x00ab not found");
            let resp = client.read_response(&reply[4..]).unwrap();
            assert_eq!((resp.status, resp.seq), (StatusCode::NotFound, 0));
        }
        _ => panic!("not refused"),
    }
    let arrived = StreamEvent::Arrived(vec![0, 0]);
    match server.stream_step(StreamState::Reading(skey), arrived, id, &key.id, now) {
        (StreamState::Closed, StreamAction::Refuse(why, Some(reply))) => {
            assert_eq!(
                why.message(0),
                "session[0] read request: frame: frame: too short (2 bytes)"
            );
            let resp = client.read_response(&reply[4..]).unwrap();
            assert_eq!((resp.status, resp.seq), (StatusCode::BadRequest, 0));
        }
        _ => panic!("not refused"),
    }
}

#[test]
fn the_stores_of_a_server_can_be_worked_on() {
    let key = ApiKey::generate();
    let mut server = server_with(&key);
    assert!(server.media_store_mut().is_none());
    let mut server = server.with_media("https://m");
    let store = server.session_store_mut();
    assert_eq!((store.next_session_id(), store.next_session_id()), (1, 2));
    store.insert(Session::new_at(9, "k".into(), vec![3; 32], at(0)));
    assert_eq!(server.session_store().get(9).unwrap().api_key_id, "k");
    assert_eq!(server.next_session_id(), 1);
    assert_eq!(server.session_store_mut().next_session_id(), 3);
    let media = server.media_store_mut().unwrap();
    let t = media.issue_with_hls(9, "t", "u");
    assert_eq!(server.media_store().unwrap().lookup_hls(&t.id), Some("u".to_string()));
    assert!(server.validate_media_token(&t.id));
    server.session_store_mut().delete(9);
    assert!(!server.validate_media_token(&t.id));
}

#[test]
fn a_name_in_utf8_is_kept_as_it_was_sent() {
    let key = ApiKey { id: "schlüssel-鍵".into(), secret: vec![1; 32] };
    let mut server = server_with(&key);
    let (_client, id) = connect(&mut server, &key);
    assert_eq!(server.session_store().get(id).unwrap().api_key_id, key.id);
}

// ── Clients ─────────────────────────────────────────────────

#[test]
fn an_anonymous_client_uses_the_fixed_secret() {
    let anonymous = ApiKey { id: String::new(), secret: vec![1, 2, 3] };
    let (secret, hello) = Client::begin(&anonymous);
    assert_eq!(&hello[..2], &[0, 0]);
    assert_eq!(hello.len(), 34);
    let mut store = MapKeyStore::new();
    store.insert("x".into(), b"hush-anonymous".to_vec());
    let server: TestServer = Server::new(store);
    let mut body = b"x".to_vec();
    body.extend_from_slice(&hello[2..]);
    let (session, answer) = server.answer_hello(&body, 8, at(0)).unwrap();
    let mut client = Client::finish(secret, &answer, &anonymous, at(0)).unwrap();
    assert_eq!(client.session_id(), 8);
    let frame = client.next_request(2, None).unwrap();
    let (req, seq) = hush::frame::decode_request(Some(&session.key), &frame[4..]).unwrap();
    assert_eq!((req.opcode, seq), (2, 0));
}

#[test]
fn a_request_has_to_fit_into_a_frame() {
    let key = ApiKey::generate();
    let mut server = server_with(&key);
    let (mut client, _) = connect(&mut server, &key);
    let mut m = TlvMap::new();
    m.set("b", Value::Bytes(vec![0; 1 << 20]));
    let e = client.next_request(1, Some(m)).unwrap_err();
    assert!(matches!(e, ClientError::Frame(_)));
    let frame = client.next_request(1, None).unwrap();
    assert_eq!(&frame[4..8], &[0, 0, 0, 1]);
}

#[test]
fn response_lengths() {
    assert_eq!(Client::response_len(&[0, 0, 0, 0]).unwrap(), 0);
    assert_eq!(Client::response_len(&[0, 16, 0, 0]).unwrap(), 1 << 20);
    let e = Client::response_len(&[0, 16, 0, 1]).unwrap_err();
    assert_eq!(e.message(), "client: frame: too large (1048577 bytes, max 1048576)");
}

#[test]
fn client_error_texts() {
    let e = ClientError::from(TransportError::Config("t".into()));
    assert_eq!(e.message(), "client: transport: t");
    let e = ClientError::from(SessionError::Crypto("s".into()));
    assert_eq!(e.message(), "client: s");
    let e = ClientError::from(hush::frame::FrameError::Eof);
    assert_eq!(e.message(), "client: frame: eof");
    let e = ClientError::from(hush::frame::RequestError::TooShort);
    assert_eq!(e.message(), "client: frame: request too short");
    assert_eq!(ClientError::Connection("c".into()).message(), "client: c");
    assert_eq!(ClientError::Negotiate("n".into()).message(), "client: negotiate: n");
    assert_eq!(ClientError::Io("i".into()).message(), "client: io: i");
}

#[test]
fn a_response_that_cannot_be_read() {
    let key = ApiKey::generate();
    let mut server = server_with(&key);
    let (client, _) = connect(&mut server, &key);
    let e = client.read_response(&[1, 2]).unwrap_err();
    assert_eq!(e.message(), "client: frame: frame: too short (2 bytes)");
}
