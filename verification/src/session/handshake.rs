//! The handshake that starts a session.
//!
//! The client sends the length of its key's name, the name, and a fresh public
//! key; the server answers with its public key and the number of the session.
//! Both then derive the session key from what the key agreement gives and the
//! secret of the API key.

use crate::bytes;
use crate::crypto;
use crate::session::cipher;
use crate::session::error::{SessionError, SessionFault};
use crate::session::keys;
use crate::session::keys::{ApiKey, EphemeralSecret, PublicKey};
use crate::session::store::{ApiKeyStore, MapKeyStore, Session, SessionView};
use crate::text;
use crate::time::Instant;
use vstd::prelude::*;
use vstd::slice::slice_subrange;
use vstd::utf8;

verus! {

/// The longest name of an API key that a server accepts.
pub const MAX_KEY_ID: usize = 256;

/// The bytes of a server's answer.
pub const SERVER_HELLO_SIZE: usize = 40;

// ── Messages ────────────────────────────────────────────────

/// What a client sends: the length of the name in two bytes, modulo 2 to the
/// 16, the name, and the public key. An empty name is an anonymous client's.
pub open spec fn client_hello_bytes(id: Seq<char>, public: Seq<u8>) -> Seq<u8> {
    let name = utf8::encode_utf8(id);
    bytes::be(name.len() % 0x1_0000, 2) + name + public
}

/// What a server answers: its public key and the number of the session.
pub open spec fn server_hello_bytes(public: Seq<u8>, session_id: u64) -> Seq<u8> {
    public + bytes::be(session_id as nat, 8)
}

/// How many bytes follow the two-byte length, or the error.
pub open spec fn body_len(header: Seq<u8>) -> Result<nat, SessionFault> {
    let n = bytes::from_be(header);
    if n == 0 || n > MAX_KEY_ID {
        Err(SessionFault::Crypto("invalid key length"@))
    } else {
        Ok(n + 32)
    }
}

/// The name that the bytes before the public key spell, or the error.
pub open spec fn body_id(body: Seq<u8>) -> Result<Seq<char>, SessionFault> {
    let name = body.take(body.len() - 32);
    if utf8::valid_utf8(name) {
        Ok(utf8::decode_utf8(name))
    } else {
        Err(SessionFault::Crypto("invalid utf-8 key id"@))
    }
}

/// The public key at the end.
pub open spec fn body_public(body: Seq<u8>) -> Seq<u8> {
    body.skip(body.len() - 32)
}

/// What a client sends.
pub fn client_hello(api_key_id: &str, public: &PublicKey) -> (hello: Vec<u8>)
    ensures
        hello@ == client_hello_bytes(api_key_id@, public@),
{
    let name = api_key_id.as_bytes();
    let mut hello: Vec<u8> = Vec::new();
    bytes::push_be(&mut hello, (name.len() % 0x1_0000) as u64, 2);
    bytes::push_all(&mut hello, name);
    let public = public.to_bytes();
    bytes::push_all(&mut hello, &public);
    assert(hello@ =~= client_hello_bytes(api_key_id@, public@));
    hello
}

/// What a server answers.
pub fn server_hello(public: &PublicKey, session_id: u64) -> (hello: Vec<u8>)
    ensures
        hello@ == server_hello_bytes(public@, session_id),
{
    let mut hello: Vec<u8> = Vec::new();
    let public = public.to_bytes();
    bytes::push_all(&mut hello, &public);
    bytes::push_be(&mut hello, session_id, 8);
    assert(hello@ =~= server_hello_bytes(public@, session_id));
    hello
}

/// How many bytes a server has to read after the two-byte length.
pub fn hello_body_len(header: &[u8; 2]) -> (r: Result<usize, SessionError>)
    ensures
        match r {
            Ok(n) => body_len(header@) == Ok::<nat, SessionFault>(n as nat) && 33 <= n <= 288,
            Err(e) => body_len(header@) == Err::<nat, SessionFault>(e@),
        },
{
    let header: &[u8] = header;
    let n: u64 = bytes::read_be(header);
    if n == 0 || n > MAX_KEY_ID as u64 {
        return Err(SessionError::Crypto("invalid key length".to_owned()));
    }
    Ok(n as usize + 32)
}

/// The name of an API key, which has to be UTF-8.
fn parse_name(name: &[u8]) -> (r: Result<String, SessionError>)
    ensures
        match r {
            Ok(s) => utf8::valid_utf8(name@) && s@ == utf8::decode_utf8(name@),
            Err(e) => !utf8::valid_utf8(name@) && e@ == SessionFault::Crypto(
                "invalid utf-8 key id"@,
            ),
        },
{
    match text::string_from_utf8(bytes::to_vec(name)) {
        Some(s) => Ok(s),
        None => Err(SessionError::Crypto("invalid utf-8 key id".to_owned())),
    }
}

/// Split what follows the length: the bytes of the name, and the public key.
pub fn split_hello_body(body: &[u8]) -> (r: (&[u8], PublicKey))
    requires
        body@.len() >= 32,
    ensures
        r.0@ == body@.take(body@.len() - 32),
        r.1@ == body_public(body@),
{
    let at: usize = body.len() - 32;
    let name = slice_subrange(body, 0, at);
    let public = slice_subrange(body, at, body.len());
    proof {
        assert(name@ =~= body@.take(body@.len() - 32));
        assert(public@ =~= body_public(body@));
    }
    (name, PublicKey::from_bytes(bytes::to_array(public)))
}

// ── Client ──────────────────────────────────────────────────

/// Start a handshake: a fresh secret, and what to send.
pub fn begin_client(api_key_id: &str) -> (r: (EphemeralSecret, Vec<u8>))
    ensures
        crypto::drawn(r.0@),
        r.0@.len() == 32,
        r.1@ == client_hello_bytes(api_key_id@, crypto::x25519_public(r.0@)),
{
    let (secret, public) = keys::generate_key_pair();
    let hello = client_hello(api_key_id, &public);
    (secret, hello)
}

/// The session that a client has after the server's answer.
pub open spec fn client_session(
    secret: Seq<u8>,
    answer: Seq<u8>,
    api_key_id: Seq<char>,
    api_key_secret: Seq<u8>,
    now: nat,
) -> SessionView {
    SessionView {
        id: bytes::from_be(answer.skip(32)) as u64,
        api_key_id,
        key: cipher::session_key(
            crypto::x25519_shared(secret, answer.take(32)),
            api_key_secret,
        ),
        created_at: now,
        last_used: now,
    }
}

/// Finish a handshake with the 40 bytes that the server answered.
pub fn finish_client(
    secret: EphemeralSecret,
    answer: &[u8],
    api_key_id: &str,
    api_key_secret: &[u8],
    now: Instant,
) -> (r: Result<Session, SessionError>)
    requires
        answer@.len() == SERVER_HELLO_SIZE,
    ensures
        r matches Ok(s) && s@ == client_session(
            secret@,
            answer@,
            api_key_id@,
            api_key_secret@,
            now@,
        ) && s.key@.len() == 32,
        keys::agreed(
            secret@,
            answer@.take(32),
            crypto::x25519_shared(secret@, answer@.take(32)),
        ),
{
    let public = slice_subrange(answer, 0, 32);
    let number = slice_subrange(answer, 32, SERVER_HELLO_SIZE);
    proof {
        assert(public@ =~= answer@.take(32));
        assert(number@ =~= answer@.skip(32));
    }
    let server_pub = PublicKey::from_bytes(bytes::to_array(public));
    let session_id: u64 = bytes::read_be(number);
    let shared = keys::shared_secret(secret, &server_pub);
    match cipher::derive_session_key(shared.as_bytes(), api_key_secret) {
        Ok(key) => Ok(Session::new_at(session_id, api_key_id.to_owned(), key, now)),
        Err(e) => Err(e),
    }
}

// ── Server ──────────────────────────────────────────────────

/// What a server makes of a hello, once it has looked up the secret of the API
/// key: the session and the answer, or the error.
pub open spec fn accepted(
    server_secret: Seq<u8>,
    server_public: Seq<u8>,
    body: Seq<u8>,
    found: Option<Seq<u8>>,
    session_id: u64,
    now: nat,
) -> Result<(SessionView, Seq<u8>), SessionFault> {
    match body_id(body) {
        Err(e) => Err(e),
        Ok(id) => match found {
            None => Err(SessionFault::Crypto("unknown api key id '"@ + id + "'"@)),
            Some(api_key_secret) => Ok(
                (
                    server_session(
                        server_secret,
                        body_public(body),
                        id,
                        api_key_secret,
                        session_id,
                        now,
                    ),
                    server_hello_bytes(server_public, session_id),
                ),
            ),
        },
    }
}

/// The session that a server has with the client behind `client_public`.
pub open spec fn server_session(
    server_secret: Seq<u8>,
    client_public: Seq<u8>,
    api_key_id: Seq<char>,
    api_key_secret: Seq<u8>,
    session_id: u64,
    now: nat,
) -> SessionView {
    SessionView {
        id: session_id,
        api_key_id,
        key: cipher::session_key(
            crypto::x25519_shared(server_secret, client_public),
            api_key_secret,
        ),
        created_at: now,
        last_used: now,
    }
}

/// Accept a client whose key's secret was looked up, or not found.
pub fn accept_client(
    server_secret: EphemeralSecret,
    server_public: &PublicKey,
    api_key_id: String,
    client_public: &PublicKey,
    found: Option<Vec<u8>>,
    session_id: u64,
    now: Instant,
) -> (r: Result<(Session, Vec<u8>), SessionError>)
    ensures
        match found {
            None => r matches Err(e) && e@ == SessionFault::Crypto(
                "unknown api key id '"@ + api_key_id@ + "'"@,
            ),
            Some(api_key_secret) => r matches Ok((s, answer)) && s@ == server_session(
                server_secret@,
                client_public@,
                api_key_id@,
                api_key_secret@,
                session_id,
                now@,
            ) && s.key@.len() == 32 && answer@ == server_hello_bytes(server_public@, session_id),
        },
        found is Some ==> keys::agreed(
            server_secret@,
            client_public@,
            crypto::x25519_shared(server_secret@, client_public@),
        ),
{
    let api_key_secret = match found {
        Some(s) => s,
        None => {
            return Err(
                SessionError::Crypto(
                    text::concat3("unknown api key id '", api_key_id.as_str(), "'"),
                ),
            );
        },
    };
    let shared = keys::shared_secret(server_secret, client_public);
    match cipher::derive_session_key(shared.as_bytes(), api_key_secret.as_slice()) {
        Ok(key) => Ok(
            (
                Session::new_at(session_id, api_key_id, key, now),
                server_hello(server_public, session_id),
            ),
        ),
        Err(e) => Err(e),
    }
}

/// `found` is what a key store may answer for the name in a hello, where there
/// is a name in it.
pub open spec fn answered_by<K: ApiKeyStore + ?Sized>(
    key_store: &K,
    body: Seq<u8>,
    found: Option<Seq<u8>>,
) -> bool {
    body_id(body) matches Ok(id) ==> key_store.may_answer(id, found)
}

/// Answer a hello: split it, look the API key up, and accept the client. The
/// bytes are those that follow the two-byte length.
pub fn answer_client<K: ApiKeyStore + ?Sized>(
    server_secret: EphemeralSecret,
    server_public: &PublicKey,
    body: &[u8],
    key_store: &K,
    session_id: u64,
    now: Instant,
) -> (r: Result<(Session, Vec<u8>), SessionError>)
    requires
        body@.len() >= 32,
    ensures
        exists|found: Option<Seq<u8>>|
            answered_by(key_store, body@, found) && match #[trigger] accepted(
                server_secret@,
                server_public@,
                body@,
                found,
                session_id,
                now@,
            ) {
                Ok((session, bytes)) => r matches Ok((s, answer)) && s@ == session && answer@
                    == bytes,
                Err(fault) => r matches Err(e) && e@ == fault,
            },
{
    let (name, client_public) = split_hello_body(body);
    let api_key_id = match parse_name(name) {
        Ok(id) => id,
        Err(e) => {
            assert(accepted(server_secret@, server_public@, body@, None, session_id, now@) == Err::<
                (SessionView, Seq<u8>),
                SessionFault,
            >(e@));
            return Err(e);
        },
    };
    let found = key_store.get(api_key_id.as_str());
    let ghost outcome = accepted(
        server_secret@,
        server_public@,
        body@,
        bytes::option_view(found),
        session_id,
        now@,
    );
    let r = accept_client(
        server_secret,
        server_public,
        api_key_id,
        &client_public,
        found,
        session_id,
        now,
    );
    proof {
        if r is Ok {
            assert(outcome == Ok::<(SessionView, Seq<u8>), SessionFault>(
                (r->Ok_0.0@, r->Ok_0.1@),
            ));
        } else {
            assert(outcome == Err::<(SessionView, Seq<u8>), SessionFault>(r->Err_0@));
        }
    }
    r
}

// ── Whole handshakes over buffers ───────────────────────────

/// The message for bytes that run out while `what` is read.
pub open spec fn ran_out(what: Seq<char>) -> SessionFault {
    SessionFault::Crypto(what + ": failed to fill whole buffer"@)
}

/// Take `n` bytes from the front of `input`, or nothing if there are fewer.
fn take_bytes<'a>(input: &mut &'a [u8], n: usize, what: &str) -> (r: Result<
    &'a [u8],
    SessionError,
>)
    ensures
        match r {
            Ok(front) => old(input)@.len() >= n && front@ == old(input)@.take(n as int)
                && final(input)@ == old(input)@.skip(n as int),
            Err(e) => old(input)@.len() < n && e@ == ran_out(what@) && final(input)@ == old(input)@,
        },
{
    let all: &'a [u8] = *input;
    if all.len() < n {
        return Err(SessionError::Crypto(text::concat2(what, ": failed to fill whole buffer")));
    }
    let front = slice_subrange(all, 0, n);
    let rest = slice_subrange(all, n, all.len());
    proof {
        assert(front@ =~= all@.take(n as int));
        assert(rest@ =~= all@.skip(n as int));
    }
    *input = rest;
    Ok(front)
}

/// A client's side of the handshake: append the hello to `output`, and take the
/// server's answer from `input`.
pub fn negotiate_client(
    input: &mut &[u8],
    output: &mut Vec<u8>,
    key: &ApiKey,
    now: Instant,
) -> (r: Result<Session, SessionError>)
    ensures
        exists|secret: Seq<u8>|
            {
                &&& crypto::drawn(secret)
                &&& secret.len() == 32
                &&& final(output)@ == old(output)@ + client_hello_bytes(
                    key.id@,
                    #[trigger] crypto::x25519_public(secret),
                )
                &&& r matches Ok(s) ==> s@ == client_session(
                    secret,
                    old(input)@.take(40),
                    key.id@,
                    key.secret@,
                    now@,
                ) && keys::agreed(
                    secret,
                    old(input)@.take(40).take(32),
                    crypto::x25519_shared(secret, old(input)@.take(40).take(32)),
                )
            },
        r is Ok <==> old(input)@.len() >= 40,
        match r {
            Ok(_) => final(input)@ == old(input)@.skip(40),
            Err(e) => e@ == ran_out("read"@) && e@ == SessionFault::Crypto(
                "read"@ + ": failed to fill whole buffer"@,
            ) && final(input)@ == old(input)@,
        },
{
    let (secret, hello) = begin_client(key.id.as_str());
    let ghost chosen = secret@;
    bytes::push_all(output, hello.as_slice());
    assert(output@ == old(output)@ + client_hello_bytes(key.id@, crypto::x25519_public(chosen)));
    match take_bytes(input, SERVER_HELLO_SIZE, "read") {
        Err(e) => Err(e),
        Ok(answer) => finish_client(
            secret,
            answer,
            key.id.as_str(),
            key.secret.as_slice(),
            now,
        ),
    }
}

/// What a server makes of the bytes that a client sent, once it has looked up
/// the secret of the API key.
pub open spec fn negotiated(
    server_secret: Seq<u8>,
    server_public: Seq<u8>,
    input: Seq<u8>,
    found: Option<Seq<u8>>,
    session_id: u64,
    now: nat,
) -> Result<(SessionView, Seq<u8>), SessionFault> {
    if input.len() < 2 {
        Err(ran_out("read header"@))
    } else {
        match body_len(input.take(2)) {
            Err(e) => Err(e),
            Ok(n) => if input.len() < 2 + n {
                Err(ran_out("read key+pub"@))
            } else {
                accepted(
                    server_secret,
                    server_public,
                    input.subrange(2, 2 + n as int),
                    found,
                    session_id,
                    now,
                )
            },
        }
    }
}

/// `found` is what a key store may answer for the name that a client sent, where
/// a whole hello with a name arrived.
pub open spec fn looked_up<K: ApiKeyStore + ?Sized>(
    key_store: &K,
    input: Seq<u8>,
    found: Option<Seq<u8>>,
) -> bool {
    input.len() >= 2 ==> (body_len(input.take(2)) matches Ok(n) ==> input.len() >= 2 + n
        ==> answered_by(key_store, input.subrange(2, 2 + n as int), found))
}

/// How many bytes of what a client sent the server takes.
pub open spec fn negotiated_len(input: Seq<u8>) -> nat {
    if input.len() < 2 {
        0
    } else {
        match body_len(input.take(2)) {
            Ok(n) if input.len() >= 2 + n => 2 + n,
            _ => 2,
        }
    }
}

/// A server's side of the handshake: take the client's hello from `input`, and
/// append the answer to `output` if the client is accepted.
pub fn negotiate_server<K: ApiKeyStore + ?Sized>(
    input: &mut &[u8],
    output: &mut Vec<u8>,
    server_secret: EphemeralSecret,
    server_public: &PublicKey,
    key_store: &K,
    next_id: u64,
    now: Instant,
) -> (r: Result<Session, SessionError>)
    ensures
        exists|found: Option<Seq<u8>>|
            looked_up(key_store, old(input)@, found) && match #[trigger] negotiated(
                server_secret@,
                server_public@,
                old(input)@,
                found,
                next_id,
                now@,
            ) {
                Ok((session, answer)) => r matches Ok(s) && s@ == session && final(output)@
                    == old(output)@ + answer,
                Err(fault) => r matches Err(e) && e@ == fault && final(output)@ == old(output)@,
            },
        final(input)@ == old(input)@.skip(negotiated_len(old(input)@) as int),
{
    let ghost start = input@;
    let ghost ss = server_secret@;
    let ghost sp = server_public@;
    let header = match take_bytes(input, 2, "read header") {
        Ok(header) => header,
        Err(e) => {
            assert(negotiated(ss, sp, start, None, next_id, now@) == Err::<
                (SessionView, Seq<u8>),
                SessionFault,
            >(e@));
            return Err(e);
        },
    };
    let n: usize = match hello_body_len(&bytes::to_array(header)) {
        Ok(n) => n,
        Err(e) => {
            assert(negotiated(ss, sp, start, None, next_id, now@) == Err::<
                (SessionView, Seq<u8>),
                SessionFault,
            >(e@));
            return Err(e);
        },
    };
    let body = match take_bytes(input, n, "read key+pub") {
        Ok(body) => body,
        Err(e) => {
            assert(negotiated(ss, sp, start, None, next_id, now@) == Err::<
                (SessionView, Seq<u8>),
                SessionFault,
            >(e@));
            return Err(e);
        },
    };
    proof {
        assert(body@ =~= start.subrange(2, 2 + n as int));
        assert(input@ =~= start.skip(2 + n as int));
    }
    match answer_client(server_secret, server_public, body, key_store, next_id, now) {
        Ok((session, answer)) => {
            bytes::push_all(output, answer.as_slice());
            proof {
                let found = choose|found: Option<Seq<u8>>|
                    answered_by(key_store, body@, found) && #[trigger] accepted(
                        ss,
                        sp,
                        body@,
                        found,
                        next_id,
                        now@,
                    ) == Ok::<(SessionView, Seq<u8>), SessionFault>((session@, answer@));
                assert(negotiated(ss, sp, start, found, next_id, now@) == Ok::<
                    (SessionView, Seq<u8>),
                    SessionFault,
                >((session@, answer@)));
            }
            Ok(session)
        },
        Err(e) => {
            proof {
                let found = choose|found: Option<Seq<u8>>|
                    answered_by(key_store, body@, found) && #[trigger] accepted(
                        ss,
                        sp,
                        body@,
                        found,
                        next_id,
                        now@,
                    ) == Err::<(SessionView, Seq<u8>), SessionFault>(e@);
                assert(negotiated(ss, sp, start, found, next_id, now@) == Err::<
                    (SessionView, Seq<u8>),
                    SessionFault,
                >(e@));
            }
            Err(e)
        },
    }
}

// ── Laws ────────────────────────────────────────────────────

/// A server reads from a hello the name and the public key that the client put
/// into it, where the name has from 1 to 256 bytes.
pub proof fn law_client_hello_roundtrip(id: Seq<char>, public: Seq<u8>)
    requires
        1 <= utf8::encode_utf8(id).len() <= 256,
        public.len() == 32,
    ensures
        ({
            let hello = client_hello_bytes(id, public);
            &&& body_len(hello.take(2)) == Ok::<nat, SessionFault>((hello.len() - 2) as nat)
            &&& body_id(hello.skip(2)) == Ok::<Seq<char>, SessionFault>(id)
            &&& body_public(hello.skip(2)) == public
        }),
{
    let name = utf8::encode_utf8(id);
    let hello = client_hello_bytes(id, public);
    let width = bytes::be(name.len(), 2);
    bytes::lemma_be_len(name.len(), 2);
    bytes::lemma_pow256();
    bytes::lemma_from_be_be(name.len(), 2);
    assert(hello.take(2) =~= width);
    assert(hello.skip(2) =~= name + public);
    assert((name + public).take(name.len() as int) =~= name);
    assert((name + public).skip(name.len() as int) =~= public);
    utf8::encode_utf8_valid_utf8(id);
    utf8::encode_utf8_decode_utf8(id);
}

/// A client's hello is the number of bytes of its name in two bytes, the most
/// significant first, the name in UTF-8, and the public key. A server's answer is its
/// public key and the number of the session in eight bytes, the most significant
/// first.
pub proof fn law_hello_bytes(id: Seq<char>, public: Seq<u8>, session_id: u64)
    ensures
        ({
            let n = utf8::encode_utf8(id).len();
            n < 0x1_0000 ==> client_hello_bytes(id, public) == seq![
                (n / 256) as u8,
                (n % 256) as u8,
            ] + utf8::encode_utf8(id) + public
        }),
        server_hello_bytes(public, session_id) == public + seq![
            (session_id / 0x100_0000_0000_0000) as u8,
            (session_id / 0x1_0000_0000_0000 % 0x100) as u8,
            (session_id / 0x100_0000_0000 % 0x100) as u8,
            (session_id / 0x1_0000_0000 % 0x100) as u8,
            (session_id / 0x100_0000 % 0x100) as u8,
            (session_id / 0x1_0000 % 0x100) as u8,
            (session_id / 0x100 % 0x100) as u8,
            (session_id % 0x100) as u8,
        ],
{
    bytes::law_be_bytes(utf8::encode_utf8(id).len());
    bytes::law_be_bytes(session_id as nat);
}

/// A name of 1 to 256 bytes may be announced, and then follow it and the 32 bytes of a
/// public key; no other length is accepted.
pub proof fn law_body_len(header: Seq<u8>)
    requires
        header.len() == 2,
    ensures
        ({
            let n = 256 * header[0] + header[1];
            &&& 1 <= n <= 256 ==> body_len(header) == Ok::<nat, SessionFault>((n + 32) as nat)
            &&& n == 0 || n > 256 ==> body_len(header) == Err::<nat, SessionFault>(
                SessionFault::Crypto("invalid key length"@),
            )
        }),
{
    bytes::law_from_be_bytes(header, 0);
}

/// What follows the length is the name, which has to be UTF-8, and the public key in
/// the last 32 bytes.
pub proof fn law_body_parts(name: Seq<u8>, public: Seq<u8>)
    requires
        public.len() == 32,
    ensures
        body_public(name + public) == public,
        utf8::valid_utf8(name) ==> body_id(name + public) == Ok::<Seq<char>, SessionFault>(
            utf8::decode_utf8(name),
        ),
        !utf8::valid_utf8(name) ==> body_id(name + public) == Err::<Seq<char>, SessionFault>(
            SessionFault::Crypto("invalid utf-8 key id"@),
        ),
{
    let body = name + public;
    assert(body.take(body.len() - 32) =~= name);
    assert(body.skip(body.len() - 32) =~= public);
}

/// Both sides derive the session key with HKDF-SHA256, 32 bytes for the text
/// `hush-v1-key`: the salt is what one's own secret key and the other's public key
/// agree on, and the key material is the secret of the API key. The session has the
/// number that the server chose and the name of the key, and begins now.
pub proof fn law_sessions(
    secret: Seq<u8>,
    public: Seq<u8>,
    id: Seq<char>,
    api_key_secret: Seq<u8>,
    session_id: u64,
    now: nat,
)
    requires
        public.len() == 32,
    ensures
        ({
            let key = crypto::hkdf_sha256(
                crypto::x25519_shared(secret, public),
                api_key_secret,
                utf8::encode_utf8("hush-v1-key"@),
                32,
            );
            let session = SessionView {
                id: session_id,
                api_key_id: id,
                key,
                created_at: now,
                last_used: now,
            };
            let answer = public + bytes::be(session_id as nat, 8);
            &&& server_session(secret, public, id, api_key_secret, session_id, now) == session
            &&& client_session(secret, answer, id, api_key_secret, now) == session
        }),
{
    let answer = public + bytes::be(session_id as nat, 8);
    bytes::lemma_be_len(session_id as nat, 8);
    bytes::lemma_pow256();
    bytes::lemma_from_be_be(session_id as nat, 8);
    assert(answer.take(32) =~= public);
    assert(answer.skip(32) =~= bytes::be(session_id as nat, 8));
}

/// A hello whose name is no text is refused; one whose key was not found is refused
/// with its name; one whose key was found is accepted, with a session under the key
/// that was found and an answer that carries the server's public key.
pub proof fn law_accepted(
    server_secret: Seq<u8>,
    server_public: Seq<u8>,
    name: Seq<u8>,
    client_public: Seq<u8>,
    found: Option<Seq<u8>>,
    session_id: u64,
    now: nat,
)
    requires
        client_public.len() == 32,
    ensures
        ({
            let id = utf8::decode_utf8(name);
            let r = accepted(
                server_secret,
                server_public,
                name + client_public,
                found,
                session_id,
                now,
            );
            if !utf8::valid_utf8(name) {
                r == Err::<(SessionView, Seq<u8>), SessionFault>(
                    SessionFault::Crypto("invalid utf-8 key id"@),
                )
            } else {
                match found {
                    None => r == Err::<(SessionView, Seq<u8>), SessionFault>(
                        SessionFault::Crypto("unknown api key id '"@ + id + "'"@),
                    ),
                    Some(secret) => r matches Ok((session, answer)) && {
                        &&& session.id == session_id
                        &&& session.api_key_id == id
                        &&& session.created_at == now
                        &&& session.last_used == now
                        &&& session.key == crypto::hkdf_sha256(
                            crypto::x25519_shared(server_secret, client_public),
                            secret,
                            utf8::encode_utf8("hush-v1-key"@),
                            32,
                        )
                        &&& answer == server_public + bytes::be(session_id as nat, 8)
                    },
                }
            }
        }),
{
    law_body_parts(name, client_public);
}

/// The key store is asked for the name in the hello, where the name is text and the
/// hello is whole.
pub proof fn law_looked_up<K: ApiKeyStore>(
    key_store: K,
    header: Seq<u8>,
    name: Seq<u8>,
    public: Seq<u8>,
    rest: Seq<u8>,
    found: Option<Seq<u8>>,
)
    requires
        public.len() == 32,
        utf8::valid_utf8(name),
    ensures
        answered_by(&key_store, name + public, found) ==> key_store.may_answer(
            utf8::decode_utf8(name),
            found,
        ),
        header.len() == 2 && 256 * header[0] + header[1] == name.len() && 1 <= name.len() <= 256
            && looked_up(&key_store, header + name + public + rest, found)
            ==> key_store.may_answer(utf8::decode_utf8(name), found),
{
    law_body_parts(name, public);
    let input = header + name + public + rest;
    if header.len() == 2 && 256 * header[0] + header[1] == name.len() && 1 <= name.len() <= 256 {
        law_body_len(header);
        assert(input.take(2) =~= header);
        assert(input.subrange(2, 2 + name.len() as int + 32) =~= name + public);
    }
}

/// A server that reads a whole hello takes exactly its bytes, and makes of it what it
/// makes of its name and public key, whatever bytes follow.
pub proof fn law_negotiated(
    server_secret: Seq<u8>,
    server_public: Seq<u8>,
    header: Seq<u8>,
    name: Seq<u8>,
    public: Seq<u8>,
    rest: Seq<u8>,
    found: Option<Seq<u8>>,
    session_id: u64,
    now: nat,
)
    requires
        header.len() == 2,
        256 * header[0] + header[1] == name.len(),
        1 <= name.len() <= 256,
        public.len() == 32,
    ensures
        ({
            let input = header + name + public + rest;
            &&& negotiated_len(input) == input.len() - rest.len()
            &&& negotiated(server_secret, server_public, input, found, session_id, now)
                == accepted(server_secret, server_public, name + public, found, session_id, now)
        }),
{
    let input = header + name + public + rest;
    law_body_len(header);
    assert(input.take(2) =~= header);
    assert(input.subrange(2, 2 + name.len() as int + 32) =~= name + public);
}

/// A server refuses input that ends within the length of a hello, a length that is not
/// accepted, and input that ends within the rest. It then has taken nothing, or the
/// length alone.
pub proof fn law_negotiation_refused(
    server_secret: Seq<u8>,
    server_public: Seq<u8>,
    input: Seq<u8>,
    found: Option<Seq<u8>>,
    session_id: u64,
    now: nat,
)
    ensures
        ({
            let r = negotiated(server_secret, server_public, input, found, session_id, now);
            let n = 256 * input[0] + input[1];
            &&& input.len() < 2 ==> negotiated_len(input) == 0 && r == Err::<
                (SessionView, Seq<u8>),
                SessionFault,
            >(SessionFault::Crypto("read header"@ + ": failed to fill whole buffer"@))
            &&& input.len() >= 2 && (n == 0 || n > 256) ==> negotiated_len(input) == 2 && r
                == Err::<(SessionView, Seq<u8>), SessionFault>(
                SessionFault::Crypto("invalid key length"@),
            )
            &&& input.len() >= 2 && 1 <= n <= 256 && input.len() < 34 + n ==> negotiated_len(input)
                == 2 && r == Err::<(SessionView, Seq<u8>), SessionFault>(
                SessionFault::Crypto("read key+pub"@ + ": failed to fill whole buffer"@),
            )
        }),
{
    if input.len() >= 2 {
        law_body_len(input.take(2));
    }
}

/// A server with its keys in memory accepts a hello whose name is text exactly
/// when it has the key of that name, and derives the session key from that key's
/// secret.
pub proof fn law_admission(
    key_store: MapKeyStore,
    server_secret: Seq<u8>,
    server_public: Seq<u8>,
    body: Seq<u8>,
    found: Option<Seq<u8>>,
    session_id: u64,
    now: nat,
)
    requires
        body_id(body) is Ok,
        answered_by(&key_store, body, found),
    ensures
        ({
            let id = body_id(body)->Ok_0;
            match accepted(server_secret, server_public, body, found, session_id, now) {
                Ok((session, _)) => key_store@.contains_key(id) && session == server_session(
                    server_secret,
                    body_public(body),
                    id,
                    key_store@[id],
                    session_id,
                    now,
                ),
                Err(fault) => !key_store@.contains_key(id) && fault == SessionFault::Crypto(
                    "unknown api key id '"@ + id + "'"@,
                ),
            }
        }),
{
}

/// A hello without a name, or with one of more than 256 bytes that two bytes
/// can count, is refused by its length.
pub proof fn law_client_hello_refused(id: Seq<char>, public: Seq<u8>)
    requires
        utf8::encode_utf8(id).len() == 0 || 256 < utf8::encode_utf8(id).len() < 0x1_0000,
    ensures
        body_len(client_hello_bytes(id, public).take(2)) == Err::<nat, SessionFault>(
            SessionFault::Crypto("invalid key length"@),
        ),
{
    let n = utf8::encode_utf8(id).len();
    bytes::lemma_be_len(n, 2);
    bytes::lemma_pow256();
    bytes::lemma_from_be_be(n, 2);
    assert(client_hello_bytes(id, public).take(2) =~= bytes::be(n, 2));
}

/// A client and a server that completed a handshake hold the same session
/// number and the same session key.
pub proof fn law_handshake_agrees(
    client_secret: Seq<u8>,
    server_secret: Seq<u8>,
    id: Seq<char>,
    api_key_secret: Seq<u8>,
    session_id: u64,
    client_now: nat,
    server_now: nat,
)
    requires
        client_secret.len() == 32,
        server_secret.len() == 32,
        crypto::x25519_public(server_secret).len() == 32,
        keys::agreed(
            client_secret,
            crypto::x25519_public(server_secret),
            crypto::x25519_shared(client_secret, crypto::x25519_public(server_secret)),
        ),
    ensures
        ({
            let answer = server_hello_bytes(crypto::x25519_public(server_secret), session_id);
            let client = client_session(client_secret, answer, id, api_key_secret, client_now);
            let server = server_session(
                server_secret,
                crypto::x25519_public(client_secret),
                id,
                api_key_secret,
                session_id,
                server_now,
            );
            client.id == server.id && client.key == server.key && client.api_key_id
                == server.api_key_id
        }),
{
    let public = crypto::x25519_public(server_secret);
    let answer = server_hello_bytes(public, session_id);
    bytes::lemma_be_len(session_id as nat, 8);
    bytes::lemma_pow256();
    bytes::lemma_from_be_be(session_id as nat, 8);
    assert(answer.take(32) =~= public);
    assert(answer.skip(32) =~= bytes::be(session_id as nat, 8));
}

} // verus!
