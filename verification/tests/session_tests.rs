use hush::session::handshake;
use hush::session::{
    decrypt, derive_session_key, encrypt, encrypt_with_nonce, generate_key_pair,
    generate_static_key, negotiate_client, negotiate_server, shared_secret, shared_secret_static,
};
use hush::session::{
    ApiKey, ApiKeyStore, EphemeralSecret, MapKeyStore, PublicKey, Session, SessionConfig,
    SessionError, SessionStore, StaticSecret,
};
use hush::time::{Clock, Duration, Instant};

#[test]
fn test_generate_api_key() {
    let key = ApiKey::generate();
    assert_eq!(key.id.len(), 16);
    assert_eq!(key.secret.len(), 32);
}

#[test]
fn test_key_exchange() {
    let key = ApiKey::generate();
    let (client_priv, client_pub) = generate_key_pair();
    let (server_priv, server_pub) = generate_key_pair();

    let client_shared = shared_secret(client_priv, &server_pub);
    let server_shared = shared_secret(server_priv, &client_pub);

    assert_eq!(client_shared.as_bytes(), server_shared.as_bytes());

    let client_key = derive_session_key(client_shared.as_bytes(), &key.secret).unwrap();
    let server_key = derive_session_key(server_shared.as_bytes(), &key.secret).unwrap();

    assert_eq!(client_key, server_key);
    assert_eq!(client_key.len(), 32);
}

#[test]
fn test_encrypt_decrypt() {
    let key = ApiKey::generate();
    let plaintext = b"hello hush";
    let encrypted = encrypt(&key.secret, plaintext).unwrap();
    let decrypted = decrypt(&key.secret, &encrypted).unwrap();
    assert_eq!(&decrypted, plaintext);
}

#[test]
fn test_decrypt_wrong_key() {
    let key1 = ApiKey::generate();
    let key2 = ApiKey::generate();
    let encrypted = encrypt(&key1.secret, b"secret").unwrap();
    assert!(decrypt(&key2.secret, &encrypted).is_err());
}

#[test]
fn test_handshake_roundtrip() {
    let key = ApiKey::generate();
    let (client_priv, client_pub) = generate_key_pair();
    let (server_priv, server_pub) = generate_key_pair();

    let client_shared = shared_secret(client_priv, &server_pub);
    let server_shared = shared_secret(server_priv, &client_pub);

    let client_key = derive_session_key(client_shared.as_bytes(), &key.secret).unwrap();
    let server_key = derive_session_key(server_shared.as_bytes(), &key.secret).unwrap();

    assert_eq!(client_key, server_key);
}

// ── Keys ────────────────────────────────────────────────────

#[test]
fn api_key_name_is_hexadecimal() {
    let key = ApiKey::from_parts(&[0x00, 0xff, 0x1a, 0x2b], vec![1, 2]);
    assert_eq!(key.id, "00ff1a2b");
    assert_eq!(key.secret, vec![1, 2]);
    let random = ApiKey::generate();
    assert!(random.id.chars().all(|c| c.is_ascii_hexdigit() && !c.is_ascii_uppercase()));
    assert_ne!(random.id, ApiKey::generate().id);
}

#[test]
fn public_key_of_a_known_secret() {
    // RFC 7748, section 6.1.
    let secret: [u8; 32] = [
        0x77, 0x07, 0x6d, 0x0a, 0x73, 0x18, 0xa5, 0x7d, 0x3c, 0x16, 0xc1, 0x72, 0x51, 0xb2, 0x66,
        0x45, 0xdf, 0x4c, 0x2f, 0x87, 0xeb, 0xc0, 0x99, 0x2a, 0xb1, 0x77, 0xfb, 0xa5, 0x1d, 0xb9,
        0x2c, 0x2a,
    ];
    let public: [u8; 32] = [
        0x85, 0x20, 0xf0, 0x09, 0x89, 0x30, 0xa7, 0x54, 0x74, 0x8b, 0x7d, 0xdc, 0xb4, 0x3e, 0xf7,
        0x5a, 0x0d, 0xbf, 0x3a, 0x0d, 0x26, 0x38, 0x1a, 0xf4, 0xeb, 0xa4, 0xa9, 0x8e, 0xaa, 0x9b,
        0x4e, 0x6a,
    ];
    let other: [u8; 32] = [
        0xde, 0x9e, 0xdb, 0x7d, 0x7b, 0x7d, 0xc1, 0xb4, 0xd3, 0x5b, 0x61, 0xc2, 0xec, 0xe4, 0x35,
        0x37, 0x3f, 0x83, 0x43, 0xc8, 0x5b, 0x78, 0x67, 0x4d, 0xad, 0xfc, 0x7e, 0x14, 0x6f, 0x88,
        0x2b, 0x4f,
    ];
    let shared: [u8; 32] = [
        0x4a, 0x5d, 0x9d, 0x5b, 0xa4, 0xce, 0x2d, 0xe1, 0x72, 0x8e, 0x3b, 0xf4, 0x80, 0x35, 0x0f,
        0x25, 0xe0, 0x7e, 0x21, 0xc9, 0x47, 0xd1, 0x9e, 0x33, 0x76, 0xf0, 0x9b, 0x3c, 0x1e, 0x16,
        0x17, 0x42,
    ];
    let s = EphemeralSecret::from_bytes(secret);
    assert_eq!(s.public_key().to_bytes(), public);
    let agreed = shared_secret(s, &PublicKey::from_bytes(other));
    assert_eq!(agreed.as_bytes(), &shared);
    let s = StaticSecret::from_bytes(secret);
    assert_eq!(s.to_bytes(), secret);
    assert_eq!(s.public_key().to_bytes(), public);
    let agreed = shared_secret_static(&s, &PublicKey::from_bytes(other));
    assert_eq!(agreed.as_bytes(), &shared);
}

#[test]
fn static_and_ephemeral_keys_agree() {
    let server = generate_static_key();
    let (client, client_pub) = generate_key_pair();
    let server_pub = server.public_key();
    let a = shared_secret_static(&server, &client_pub);
    let b = shared_secret(client, &server_pub);
    assert_eq!(a.as_bytes(), b.as_bytes());
    assert_ne!(generate_static_key().to_bytes(), server.to_bytes());
}

#[test]
fn session_key_depends_on_both_secrets() {
    let a = derive_session_key(&[1; 32], &[2; 32]).unwrap();
    assert_eq!(a.len(), 32);
    assert_ne!(a, derive_session_key(&[1; 32], &[3; 32]).unwrap());
    assert_ne!(a, derive_session_key(&[3; 32], &[2; 32]).unwrap());
    assert_eq!(a, derive_session_key(&[1; 32], &[2; 32]).unwrap());
    assert_ne!(a, vec![0; 32]);
}

// ── Cipher ──────────────────────────────────────────────────

#[test]
fn encryption_under_a_known_nonce() {
    // The AES-256-GCM test of an empty plaintext under zero key and nonce.
    let out = encrypt_with_nonce(&[0; 32], &[0; 12], b"").unwrap();
    let tag: [u8; 16] = [
        0x53, 0x0f, 0x8a, 0xfb, 0xc7, 0x45, 0x36, 0xb9, 0xa9, 0x63, 0xb4, 0xf1, 0xc4, 0xcb, 0x73,
        0x8b,
    ];
    assert_eq!(&out[..12], &[0; 12]);
    assert_eq!(&out[12..], &tag);
}

#[test]
fn encryption_is_nonce_ciphertext_and_tag() {
    let out = encrypt(&[7; 32], b"twelve bytes").unwrap();
    assert_eq!(out.len(), 12 + 12 + 16);
    assert_ne!(&out[12..24], b"twelve bytes");
    let again = encrypt(&[7; 32], b"twelve bytes").unwrap();
    assert_ne!(out, again);
}

#[test]
fn cipher_errors() {
    let e = encrypt(&[0; 16], b"x").unwrap_err();
    assert!(matches!(e, SessionError::Aes("invalid key length")));
    assert_eq!(e.message(), "aes: invalid key length");
    let e = decrypt(&[0; 16], &[0; 28]).unwrap_err();
    assert_eq!(e.message(), "aes: invalid key length");
    let e = decrypt(&[0; 16], &[0; 27]).unwrap_err();
    assert_eq!(e.message(), "ciphertext too short");
    let e = decrypt(&[0; 32], &[0; 28]).unwrap_err();
    assert_eq!(e.message(), "gcm decrypt: message authentication failed");
    assert_eq!(SessionError::Hkdf("h").message(), "hkdf: h");
}

#[test]
fn tampering_is_noticed() {
    let key = [5u8; 32];
    let mut out = encrypt(&key, b"payload").unwrap();
    out[14] ^= 1;
    assert!(decrypt(&key, &out).is_err());
}

// ── Store ───────────────────────────────────────────────────

fn at(secs: u64) -> Instant {
    Instant { nanos: secs as u128 * 1_000_000_000 }
}

fn config(idle: u64, life: u64, gc: u64) -> SessionConfig {
    SessionConfig {
        idle_timeout: Duration::from_secs(idle),
        max_lifetime: Duration::from_secs(life),
        gc_interval: Duration::from_secs(gc),
    }
}

#[test]
fn default_settings() {
    assert_eq!(SessionConfig::default(), config(300, 86400, 60));
    assert_eq!(config(0, 0, 0).fill(), config(300, 86400, 60));
    assert_eq!(config(1, 0, 3).fill(), config(1, 86400, 3));
}

#[test]
fn sessions_are_kept_by_number() {
    let mut store = SessionStore::default();
    assert!(store.is_empty());
    assert_eq!(store.next_session_id(), 1);
    assert_eq!(store.next_session_id(), 2);
    store.insert(Session::new_at(1, "a".into(), vec![1], at(0)));
    store.insert(Session::new_at(2, "b".into(), vec![2], at(0)));
    store.insert(Session::new_at(1, "c".into(), vec![3], at(0)));
    assert_eq!(store.len(), 2);
    assert_eq!(store.get(1).unwrap().api_key_id, "c");
    assert_eq!(store.get(2).unwrap().key, vec![2]);
    assert!(store.get(3).is_none());
    store.delete(1);
    store.delete(7);
    assert!(store.get(1).is_none());
    assert_eq!(store.len(), 1);
}

#[test]
fn sessions_expire_after_their_lifetime() {
    let store = SessionStore::new(config(10, 100, 1));
    let mut s = Session::new_at(1, "a".into(), vec![], at(50));
    assert!(!store.is_expired_at(&s, at(150)));
    assert!(store.is_expired_at(&s, at(151)));
    assert!(!store.is_expired_at(&s, at(0)));
    assert!(!store.is_idle_dead_at(&s, at(60)));
    assert!(store.is_idle_dead_at(&s, at(61)));
    s.touch_at(at(60));
    assert!(!store.is_idle_dead_at(&s, at(61)));
    assert_eq!(s.created_at, at(50));
    assert_eq!(s.last_used, at(60));
}

#[test]
fn collecting_drops_expired_sessions_only() {
    let mut store = SessionStore::new(config(1, 100, 1));
    for id in 0..10u64 {
        store.insert(Session::new_at(id, "k".into(), vec![], at(id * 10)));
    }
    store.gc_at(at(145));
    assert_eq!(store.len(), 5);
    assert!(store.get(4).is_none());
    assert!(store.get(5).is_some());
    store.gc_at(at(145));
    assert_eq!(store.len(), 5);
}

#[test]
fn fresh_sessions_are_alive() {
    let mut store = SessionStore::default();
    let mut s = Session::new(9, "id".into(), vec![4], &store.clock());
    assert_eq!(s.created_at, s.last_used);
    assert!(!store.is_expired(&s));
    assert!(!store.is_idle_dead(&s));
    s.touch(&store.clock());
    assert_eq!((s.id, s.api_key_id.as_str(), s.key.as_slice()), (9, "id", &[4u8][..]));
    store.insert(s);
    store.gc();
    assert_eq!(store.len(), 1);
    let short = SessionStore::new(config(0, 0, 0));
    let old = Session::new(1, "x".into(), vec![], &short.clock());
    let clock = Clock::start();
    while clock.now().nanos < 2_000_000 {}
    assert!(short.is_expired(&old));
    assert!(short.is_idle_dead(&old));
}

#[test]
fn key_store() {
    let mut store = MapKeyStore::default();
    assert!(store.get("a").is_none());
    store.insert("a".into(), vec![1]);
    store.insert("a".into(), vec![2]);
    assert_eq!(store.get("a"), Some(vec![2]));
    assert!(MapKeyStore::new().get("a").is_none());
}

// ── Handshake ───────────────────────────────────────────────

#[test]
fn hello_bytes() {
    let public = PublicKey::from_bytes([9; 32]);
    let hello = handshake::client_hello("abc", &public);
    assert_eq!(&hello[..5], &[0, 3, b'a', b'b', b'c']);
    assert_eq!(&hello[5..], &[9; 32]);
    let anonymous = handshake::client_hello("", &public);
    assert_eq!(&anonymous[..2], &[0, 0]);
    assert_eq!(anonymous.len(), 34);
    let answer = handshake::server_hello(&public, 258);
    assert_eq!(&answer[..32], &[9; 32]);
    assert_eq!(&answer[32..], &[0, 0, 0, 0, 0, 0, 1, 2]);
}

#[test]
fn hello_lengths() {
    assert_eq!(handshake::hello_body_len(&[0, 1]).unwrap(), 33);
    assert_eq!(handshake::hello_body_len(&[1, 0]).unwrap(), 288);
    for header in [[0u8, 0u8], [1, 1]] {
        let e = handshake::hello_body_len(&header).unwrap_err();
        assert_eq!(e.message(), "invalid key length");
    }
}

#[test]
fn both_sides_get_the_same_session() {
    let key = ApiKey::generate();
    let mut store = MapKeyStore::new();
    store.insert(key.id.clone(), key.secret.clone());

    let (client_secret, hello) = handshake::begin_client(&key.id);
    let (server_secret, server_public) = generate_key_pair();
    let mut input = hello.as_slice();
    let mut output = Vec::new();
    let server = negotiate_server(
        &mut input,
        &mut output,
        server_secret,
        &server_public,
        &store,
        77,
        at(1),
    )
    .unwrap();
    assert!(input.is_empty());
    assert_eq!(output.len(), 40);
    let client =
        handshake::finish_client(client_secret, &output, &key.id, &key.secret, at(2)).unwrap();
    assert_eq!(client.id, 77);
    assert_eq!(client.id, server.id);
    assert_eq!(client.key, server.key);
    assert_eq!(client.key.len(), 32);
    assert_eq!(client.api_key_id, key.id);
    assert_eq!(server.api_key_id, key.id);
    assert_eq!(server.created_at, at(1));
    assert_eq!(client.created_at, at(2));
}

#[test]
fn server_refuses_what_it_cannot_accept() {
    let store = MapKeyStore::new();
    let cases: Vec<(Vec<u8>, &str, usize)> = vec![
        (vec![0], "read header: failed to fill whole buffer", 1),
        (vec![0, 0, 1], "invalid key length", 1),
        (vec![1, 1, 1], "invalid key length", 1),
        (vec![0, 1, b'k'], "read key+pub: failed to fill whole buffer", 1),
    ];
    for (bytes, text, left) in cases {
        let (secret, public) = generate_key_pair();
        let mut input = bytes.as_slice();
        let mut output = vec![5];
        let e = negotiate_server(&mut input, &mut output, secret, &public, &store, 1, at(0))
            .unwrap_err();
        assert_eq!(e.message(), text);
        assert_eq!(input.len(), left);
        assert_eq!(output, vec![5]);
    }
    let mut invalid = vec![0, 1, 0xFF];
    invalid.extend_from_slice(&[1; 32]);
    let (secret, public) = generate_key_pair();
    let e = negotiate_server(
        &mut invalid.as_slice(),
        &mut Vec::new(),
        secret,
        &public,
        &store,
        1,
        at(0),
    )
    .unwrap_err();
    assert_eq!(e.message(), "invalid utf-8 key id");
    let hello = handshake::client_hello("nobody", &public);
    let (secret, public) = generate_key_pair();
    let e = negotiate_server(
        &mut hello.as_slice(),
        &mut Vec::new(),
        secret,
        &public,
        &store,
        1,
        at(0),
    )
    .unwrap_err();
    assert_eq!(e.message(), "unknown api key id 'nobody'");
}

struct OneKey;

impl ApiKeyStore for OneKey {
    fn get(&self, id: &str) -> Option<Vec<u8>> {
        if id == "one" {
            Some(vec![7; 32])
        } else {
            None
        }
    }
}

#[test]
fn a_key_store_of_another_kind_decides_who_is_admitted() {
    let (_, client_public) = generate_key_pair();
    for (name, admitted) in [("one", true), ("two", false)] {
        let hello = handshake::client_hello(name, &client_public);
        let (secret, public) = generate_key_pair();
        let r = negotiate_server(
            &mut hello.as_slice(),
            &mut Vec::new(),
            secret,
            &public,
            &OneKey,
            4,
            at(2),
        );
        match r {
            Ok(session) => {
                assert!(admitted);
                assert_eq!((session.id, session.api_key_id.as_str()), (4, "one"));
            }
            Err(e) => {
                assert!(!admitted);
                assert_eq!(e.message(), "unknown api key id 'two'");
            }
        }
    }
}

#[test]
fn client_side_over_buffers() {
    let key = ApiKey::generate();
    let (_, server_public) = generate_key_pair();
    let answer = handshake::server_hello(&server_public, 3);
    let mut input = answer.as_slice();
    let mut output = Vec::new();
    let s = negotiate_client(&mut input, &mut output, &key, at(0)).unwrap();
    assert_eq!(s.id, 3);
    assert_eq!(s.api_key_id, key.id);
    assert!(input.is_empty());
    assert_eq!(output.len(), 2 + 16 + 32);
    let mut short = &answer[..39];
    let e = negotiate_client(&mut short, &mut Vec::new(), &key, at(0)).unwrap_err();
    assert_eq!(e.message(), "read: failed to fill whole buffer");
    assert_eq!(short.len(), 39);
}
