//! The server itself: its handlers, its sessions, and what it decides for each
//! connection and each request.

use crate::bytes;
use crate::crypto;
use crate::frame::message;
use crate::frame::message::MapView;
use crate::frame::status::StatusCode;
use crate::media;
use crate::media::{Token, TokenStore};
use crate::server::error::{ServerError, ServerFault};
use crate::server::refusal::{Refusal, RefusalView};
use crate::server::reply;
use crate::server::request::{Request, RequestView};
use crate::session::cipher;
use crate::session::handshake;
use crate::session::keys;
use crate::session::keys::{PublicKey, StaticSecret};
use crate::session::store;
use crate::session::store::{
    ApiKeyStore, MapKeyStore, Session, SessionConfig, SessionStore, SessionView,
};
use crate::text;
use crate::time;
use crate::time::{Clock, Duration, Instant};
use crate::tlv::TlvMap;
use std::collections::HashMap;
use vstd::prelude::*;
use vstd::utf8;

verus! {

broadcast use vstd::std_specs::hash::group_hash_axioms;

/// What answers an opcode: a handler of single requests, or one that takes over
/// the stream.
pub enum HandlerType<S, T> {
    Sync(S),
    Stream(T),
}

/// Stands for the sessions of the server, which tell whether a media token's
/// session is alive.
pub struct SessionBound;

/// A server. `K` finds the secrets of API keys, `S` answers single requests,
/// and `T` takes over streams.
pub struct Server<K, S, T> {
    handlers: HashMap<u16, HandlerType<S, T>>,
    key_store: K,
    sessions: SessionStore,
    next_id: u64,
    server_priv: StaticSecret,
    server_pub: PublicKey,
    media_store: Option<TokenStore<SessionBound>>,
}

/// How a stream of a session begins.
pub enum StreamStart {
    /// The session is over: send this, if anything, and end the stream.
    Expired(Option<Vec<u8>>),
    /// Read a request with this key.
    Ready(Vec<u8>),
}

/// What to do about a request.
pub enum Dispatch<'a, S, T> {
    /// No handler gets it: send this, if anything, and end the stream.
    Refuse(Refusal, Option<Vec<u8>>),
    /// Hand the request to this handler, and answer under this sequence number.
    Call(&'a HandlerType<S, T>, Request, u32),
}

/// The name in a hello: the text that it encodes, and where it is not UTF-8 the
/// text with what is wrong replaced.
pub open spec fn hello_name(body: Seq<u8>) -> Seq<char> {
    let name = body.take(body.len() - 32);
    if utf8::valid_utf8(name) {
        utf8::decode_utf8(name)
    } else {
        crypto::utf8_lossy(name)
    }
}

/// What a server makes of a hello, once it has looked up the secret of the API
/// key: the session and the answer, or the error.
pub open spec fn hello_outcome(
    server_secret: Seq<u8>,
    server_public: Seq<u8>,
    body: Seq<u8>,
    found: Option<Seq<u8>>,
    session_id: u64,
    now: nat,
) -> Result<(SessionView, Seq<u8>), ServerFault> {
    let id = hello_name(body);
    match found {
        None => Err(ServerFault::Config("unknown api key '"@ + id + "'"@)),
        Some(api_key_secret) => Ok(
            (
                handshake::server_session(
                    server_secret,
                    handshake::body_public(body),
                    id,
                    api_key_secret,
                    session_id,
                    now,
                ),
                handshake::server_hello_bytes(server_public, session_id),
            ),
        ),
    }
}

/// Whether a session is over at the reading `now`: it has lived or been unused
/// for too long.
pub open spec fn session_over(s: SessionView, config: SessionConfig, now: nat) -> bool {
    store::expired(s.created_at, config.max_lifetime@, now) || time::elapsed(s.last_used, now)
        > config.idle_timeout@
}

/// The map of a request, empty where there is none.
pub open spec fn payload_or_empty(p: Option<MapView>) -> MapView {
    match p {
        Some(m) => m,
        None => Seq::empty(),
    }
}

impl<K, S, T> Server<K, S, T> {
    /// The handlers, each under its opcode.
    pub closed spec fn handlers(&self) -> Map<u16, HandlerType<S, T>> {
        self.handlers@
    }

    /// The sessions, each under its number.
    pub closed spec fn sessions(&self) -> Map<u64, SessionView> {
        self.sessions.sessions()
    }

    /// The settings of the sessions.
    pub closed spec fn config(&self) -> SessionConfig {
        self.sessions.config()
    }

    /// The clock by which sessions age.
    pub closed spec fn time_source(&self) -> Clock {
        self.sessions.time_source()
    }

    /// The number of the next connection.
    pub closed spec fn next_id(&self) -> u64 {
        self.next_id
    }

    /// The number that the store of the sessions would hand out next.
    pub closed spec fn store_next_id(&self) -> u64 {
        self.sessions.next_id()
    }

    /// Where the secrets of API keys are found.
    pub closed spec fn key_store(&self) -> K {
        self.key_store
    }

    /// The secret key.
    pub closed spec fn secret(&self) -> Seq<u8> {
        self.server_priv@
    }

    /// The public key.
    pub closed spec fn public(&self) -> Seq<u8> {
        self.server_pub@
    }

    /// The media tokens, where media are enabled.
    pub closed spec fn media(&self) -> Option<TokenStore<SessionBound>> {
        self.media_store
    }

    /// The public key belongs to the secret key, and both have 32 bytes.
    pub open spec fn wf(&self) -> bool {
        &&& self.secret().len() == 32
        &&& self.public().len() == 32
        &&& self.public() == crypto::x25519_public(self.secret())
    }

    /// Nothing but the sessions differs.
    pub open spec fn same_but_sessions(&self, other: &Server<K, S, T>) -> bool {
        &&& self.handlers() == other.handlers()
        &&& self.config() == other.config()
        &&& self.next_id() == other.next_id()
        &&& self.store_next_id() == other.store_next_id()
        &&& self.key_store() == other.key_store()
        &&& self.secret() == other.secret()
        &&& self.public() == other.public()
        &&& self.media() == other.media()
        &&& self.time_source() == other.time_source()
    }

    /// Nothing but the handlers differs.
    pub open spec fn same_but_handlers(&self, other: &Server<K, S, T>) -> bool {
        &&& self.sessions() == other.sessions()
        &&& self.config() == other.config()
        &&& self.next_id() == other.next_id()
        &&& self.store_next_id() == other.store_next_id()
        &&& self.key_store() == other.key_store()
        &&& self.secret() == other.secret()
        &&& self.public() == other.public()
        &&& self.media() == other.media()
        &&& self.time_source() == other.time_source()
    }

    /// Nothing but the media tokens differs.
    pub open spec fn same_but_media(&self, other: &Server<K, S, T>) -> bool {
        &&& self.handlers() == other.handlers()
        &&& self.sessions() == other.sessions()
        &&& self.config() == other.config()
        &&& self.next_id() == other.next_id()
        &&& self.store_next_id() == other.store_next_id()
        &&& self.key_store() == other.key_store()
        &&& self.secret() == other.secret()
        &&& self.public() == other.public()
        &&& self.time_source() == other.time_source()
    }

    // ── Construction ────────────────────────────────────────

    /// A server with the given secret key, without handlers, sessions or media.
    pub fn with_secret(key_store: K, server_priv: StaticSecret) -> (s: Server<K, S, T>)
        ensures
            s.handlers() == Map::<u16, HandlerType<S, T>>::empty(),
            s.sessions() == Map::<u64, SessionView>::empty(),
            s.config().idle_timeout@ == 300_000_000_000,
            s.config().max_lifetime@ == 86_400_000_000_000,
            s.config().gc_interval@ == 60_000_000_000,
            s.next_id() == 1,
            s.store_next_id() == 1,
            s.media() is None,
            s.time_source().started(),
            s.key_store() == key_store,
            s.secret() == server_priv@,
            s.public() == crypto::x25519_public(server_priv@),
            server_priv@.len() == 32 ==> s.wf(),
    {
        let server_pub = server_priv.public_key();
        let cfg = <SessionConfig as Default>::default().fill();
        Server {
            handlers: HashMap::new(),
            key_store,
            sessions: SessionStore::new(cfg),
            next_id: 1,
            server_priv,
            server_pub,
            media_store: None,
        }
    }

    /// A server with a new random key, without handlers, sessions or media.
    pub fn new(key_store: K) -> (s: Server<K, S, T>)
        ensures
            s.handlers() == Map::<u16, HandlerType<S, T>>::empty(),
            s.sessions() == Map::<u64, SessionView>::empty(),
            s.config().idle_timeout@ == 300_000_000_000,
            s.config().max_lifetime@ == 86_400_000_000_000,
            s.config().gc_interval@ == 60_000_000_000,
            s.next_id() == 1,
            s.store_next_id() == 1,
            s.media() is None,
            s.time_source().started(),
            s.key_store() == key_store,
            s.wf(),
            crypto::drawn(s.secret()),
    {
        let server_priv = keys::generate_static_key();
        Server::with_secret(key_store, server_priv)
    }

    /// Enable media. A token is then good only while its session is kept. The
    /// base address plays no part in it.
    pub fn with_media(self, _base_url: &str) -> (s: Server<K, S, T>)
        ensures
            s.same_but_media(&self),
            s.media() matches Some(m) && m.tokens() == Map::<u128, media::TokenView>::empty()
                && m.validator() == Some(SessionBound) && m.ttl()@ == 7_200_000_000_000
                && m.time_source().started(),
    {
        let mut s = self;
        s.media_store = Some(TokenStore::with_validator(SessionBound));
        s
    }

    /// Replace the settings of the sessions, with defaults in place of zeros.
    /// Sessions that were kept are forgotten, and media tokens are bound to those
    /// that are kept from then on.
    pub fn with_session_config(self, cfg: SessionConfig) -> (s: Server<K, S, T>)
        ensures
            s.handlers() == self.handlers(),
            s.sessions() == Map::<u64, SessionView>::empty(),
            s.config().idle_timeout@ == store::filled(cfg.idle_timeout@, 300_000_000_000),
            s.config().max_lifetime@ == store::filled(cfg.max_lifetime@, 86_400_000_000_000),
            s.config().gc_interval@ == store::filled(cfg.gc_interval@, 60_000_000_000),
            s.next_id() == self.next_id(),
            s.store_next_id() == 1,
            s.key_store() == self.key_store(),
            s.secret() == self.secret(),
            s.public() == self.public(),
            s.media() == self.media(),
            s.time_source().started(),
    {
        let mut s = self;
        s.sessions = SessionStore::new(cfg.fill());
        s
    }

    /// Let a handler answer the requests of an opcode, in place of the one that
    /// did.
    pub fn handle(&mut self, opcode: u16, handler: S)
        ensures
            final(self).handlers() == old(self).handlers().insert(
                opcode,
                HandlerType::Sync(handler),
            ),
            final(self).same_but_handlers(old(self)),
    {
        self.handlers.insert(opcode, HandlerType::Sync(handler));
    }

    /// Let a handler take over the streams of an opcode, in place of the one
    /// that did.
    pub fn handle_stream(&mut self, opcode: u16, handler: T)
        ensures
            final(self).handlers() == old(self).handlers().insert(
                opcode,
                HandlerType::Stream(handler),
            ),
            final(self).same_but_handlers(old(self)),
    {
        self.handlers.insert(opcode, HandlerType::Stream(handler));
    }

    /// The handler of an opcode.
    pub fn lookup(&self, opcode: u16) -> (r: Option<&HandlerType<S, T>>)
        ensures
            match r {
                Some(h) => self.handlers().contains_key(opcode) && *h == self.handlers()[opcode],
                None => !self.handlers().contains_key(opcode),
            },
    {
        self.handlers.get(&opcode)
    }

    // ── Connections ─────────────────────────────────────────

    /// The number for a new connection: the numbers follow one another, and
    /// start again at zero after the largest.
    pub fn next_session_id(&mut self) -> (id: u64)
        ensures
            id == old(self).next_id(),
            final(self).next_id() == (old(self).next_id() + 1) % 0x1_0000_0000_0000_0000,
            final(self).store_next_id() == old(self).store_next_id(),
            final(self).sessions() == old(self).sessions(),
            final(self).handlers() == old(self).handlers(),
            final(self).config() == old(self).config(),
            final(self).key_store() == old(self).key_store(),
            final(self).secret() == old(self).secret(),
            final(self).public() == old(self).public(),
            final(self).media() == old(self).media(),
            final(self).time_source() == old(self).time_source(),
    {
        let id: u64 = self.next_id;
        self.next_id = id.wrapping_add(1);
        id
    }

    /// How many bytes of a hello follow the two of its length.
    pub fn hello_len(header: &[u8; 2]) -> (r: Result<usize, ServerError>)
        ensures
            match r {
                Ok(n) => handshake::body_len(header@) matches Ok(len) && n == len && 33 <= n <= 288,
                Err(e) => handshake::body_len(header@) is Err && e@ == ServerFault::Config(
                    "invalid key length"@,
                ),
            },
    {
        match handshake::hello_body_len(header) {
            Ok(n) => Ok(n),
            Err(_) => Err(ServerError::Config("invalid key length".to_owned())),
        }
    }

    /// Accept a client whose key's secret was looked up, or not found: the
    /// session, and the answer to send.
    pub fn complete_hello(
        &self,
        api_key_id: String,
        client_public: &PublicKey,
        found: Option<Vec<u8>>,
        session_id: u64,
        now: Instant,
    ) -> (r: Result<(Session, Vec<u8>), ServerError>)
        ensures
            match found {
                None => r matches Err(e) && e@ == ServerFault::Config(
                    "unknown api key '"@ + api_key_id@ + "'"@,
                ),
                Some(api_key_secret) => r matches Ok((s, answer)) && s@
                    == handshake::server_session(
                    self.secret(),
                    client_public@,
                    api_key_id@,
                    api_key_secret@,
                    session_id,
                    now@,
                ) && answer@ == handshake::server_hello_bytes(self.public(), session_id)
                    && s.key@.len() == 32,
            },
            found is Some ==> keys::agreed(
                self.secret(),
                client_public@,
                crypto::x25519_shared(self.secret(), client_public@),
            ),
    {
        let api_key_secret = match found {
            Some(s) => s,
            None => {
                return Err(
                    ServerError::Config(
                        text::concat3("unknown api key '", api_key_id.as_str(), "'"),
                    ),
                );
            },
        };
        let shared = keys::shared_secret_static(&self.server_priv, client_public);
        match cipher::derive_session_key(shared.as_bytes(), api_key_secret.as_slice()) {
            Ok(key) => Ok(
                (
                    Session::new_at(session_id, api_key_id, key, now),
                    handshake::server_hello(&self.server_pub, session_id),
                ),
            ),
            Err(e) => Err(ServerError::Session(e)),
        }
    }

    /// Keep a session that was established.
    pub fn establish(&mut self, session: Session)
        ensures
            final(self).sessions() == old(self).sessions().insert(session.id, session@),
            final(self).same_but_sessions(old(self)),
    {
        self.sessions.insert(session);
    }

    /// Forget a session whose connection was closed.
    pub fn close(&mut self, session_id: u64)
        ensures
            final(self).sessions() == old(self).sessions().remove(session_id),
            final(self).same_but_sessions(old(self)),
    {
        self.sessions.delete(session_id);
    }

    /// Forget the sessions that have lived too long.
    pub fn gc(&mut self)
        ensures
            exists|now: nat|
                {
                    &&& old(self).time_source().reads(now)
                    &&& final(self).sessions() == #[trigger] store::surviving(
                        old(self).sessions(),
                        old(self).config().max_lifetime@,
                        now,
                    )
                },
            final(self).same_but_sessions(old(self)),
    {
        let ghost before = self.sessions();
        let ghost limit = self.config().max_lifetime@;
        self.sessions.gc();
        proof {
            let now = choose|now: nat|
                self.time_source().reads(now) && self.sessions() == #[trigger] store::surviving(
                    before,
                    limit,
                    now,
                );
            assert(self.sessions() == store::surviving(before, limit, now));
        }
    }

    /// How often to forget the sessions that have lived too long.
    pub fn gc_interval(&self) -> (d: Duration)
        ensures
            d == self.config().gc_interval,
    {
        self.sessions.settings().gc_interval
    }

    /// The clock by which sessions age.
    pub fn clock(&self) -> (c: Clock)
        ensures
            c == self.time_source(),
    {
        self.sessions.clock()
    }

    // ── Requests ────────────────────────────────────────────

    /// What to do on a new stream of a session, at the reading `now`. A stream
    /// of a session that is not kept gets an empty key. A session is over once
    /// either of its limits is passed.
    pub fn begin_stream_at(&self, session_id: u64, now: Instant) -> (r: StreamStart)
        ensures
            ({
                let known = self.sessions().contains_key(session_id);
                let s = self.sessions()[session_id];
                match r {
                    StreamStart::Expired(out) => known && session_over(s, self.config(), now@)
                        && reply::is_reply(
                        s.key,
                        0,
                        reply::expired_view(),
                        reply::reply_view(out),
                    ),
                    StreamStart::Ready(key) => !(known && session_over(s, self.config(), now@))
                        && key@ == if known {
                        s.key
                    } else {
                        Seq::<u8>::empty()
                    },
                }
            }),
            self.sessions().contains_key(session_id) ==> {
                let s = self.sessions()[session_id];
                &&& now@ > s.created_at + self.config().max_lifetime@ ==> r is Expired
                &&& now@ > s.last_used + self.config().idle_timeout@ ==> r is Expired
                &&& now@ <= s.created_at + self.config().max_lifetime@ && now@ <= s.last_used
                    + self.config().idle_timeout@ ==> r is Ready
            },
            !self.sessions().contains_key(session_id) ==> r is Ready,
    {
        match self.sessions.get(session_id) {
            Some(s) => {
                if self.sessions.is_expired_at(&s, now) || self.sessions.is_idle_dead_at(&s, now) {
                    let resp = reply::expired_response();
                    StreamStart::Expired(reply::reply_frame(s.key.as_slice(), 0, &resp))
                } else {
                    StreamStart::Ready(s.key)
                }
            },
            None => StreamStart::Ready(Vec::new()),
        }
    }

    /// What to do about a request that arrived on a stream of a session. `data`
    /// is what follows the length of its frame.
    pub fn dispatch<'a>(
        &'a self,
        key: &[u8],
        data: &[u8],
        session_id: u64,
        api_key_id: &str,
    ) -> (r: Dispatch<'a, S, T>)
        ensures
            match message::decoded_request(Some(key@), data@) {
                Err(fault) => r matches Dispatch::Refuse(why, out) && why@
                    == RefusalView::Unreadable(fault) && reply::is_reply(
                    key@,
                    0,
                    reply::error_view(StatusCode::BadRequest, "bad request"@),
                    reply::reply_view(out),
                ),
                Ok((req, seq)) => if !self.handlers().contains_key(req.opcode) {
                    r matches Dispatch::Refuse(why, out) && why@ == RefusalView::NotFound(
                        req.opcode,
                    ) && reply::is_reply(
                        key@,
                        seq,
                        reply::not_found_view(req.opcode, seq),
                        reply::reply_view(out),
                    )
                } else {
                    r matches Dispatch::Call(handler, request, n) && *handler
                        == self.handlers()[req.opcode] && n == seq && request@ == (RequestView {
                        opcode: req.opcode,
                        payload: payload_or_empty(req.payload),
                        session_id,
                        api_key_id: api_key_id@,
                    })
                },
            },
    {
        assert(message::key_view(Some(key)) == Some(key@));
        match message::decode_request(Some(key), data) {
            Err(e) => Dispatch::Refuse(Refusal::Unreadable(e), reply::bad_request_reply(key)),
            Ok((req, seq)) => match self.lookup(req.opcode) {
                None => {
                    let resp = reply::not_found_response(req.opcode, seq);
                    Dispatch::Refuse(
                        Refusal::NotFound(req.opcode),
                        reply::reply_frame(key, seq, &resp),
                    )
                },
                Some(handler) => {
                    let payload = match req.payload {
                        Some(m) => m,
                        None => TlvMap::new(),
                    };
                    let request = Request {
                        opcode: req.opcode,
                        payload,
                        session_id,
                        api_key_id: api_key_id.to_owned(),
                    };
                    Dispatch::Call(handler, request, seq)
                },
            },
        }
    }

    // ── Media ───────────────────────────────────────────────

    /// Issue a media token for a session.
    pub fn issue_media_token(&mut self, session_id: u64, track_id: &str) -> (r: Result<
        Token,
        ServerError,
    >)
        ensures
            match r {
                Ok(t) => {
                    &&& old(self).media() matches Some(before)
                    &&& final(self).media() matches Some(after)
                    &&& crypto::drawn(t.id@)
                    &&& before.time_source().reads(t.issued_at@)
                    &&& t.session_id == session_id
                    &&& t.track_id@ == track_id@
                    &&& t.hls_url@ == Seq::<char>::empty()
                    &&& t.created_at@ == t.issued_at@
                    &&& after.tokens() == before.tokens().insert(media::token_key(t.id@), t@)
                    &&& after.validator() == before.validator()
                    &&& after.ttl() == before.ttl()
                    &&& after.time_source() == before.time_source()
                },
                Err(e) => old(self).media() is None && final(self).media() is None && e@
                    == ServerFault::Config("media support not enabled"@),
            },
            final(self).same_but_media(old(self)),
    {
        match &mut self.media_store {
            Some(store) => Ok(store.issue(session_id, track_id)),
            None => Err(ServerError::Config("media support not enabled".to_owned())),
        }
    }

    /// Check a media token at the reading `now` of the clock by which tokens
    /// age: its session has to be kept. Without media no token is good.
    pub fn validate_media_token_at(&mut self, token_id: &[u8; 16], now: Instant) -> (r: bool)
        ensures
            match old(self).media() {
                Some(before) => {
                    let key = media::token_key(token_id@);
                    let live = old(self).sessions().contains_key(
                        before.tokens()[key].session_id,
                    );
                    &&& final(self).media() matches Some(after)
                    &&& (r, after.tokens()) == media::validated(
                        before.tokens(),
                        key,
                        before.ttl()@,
                        live,
                        now@,
                    )
                    &&& after.validator() == before.validator()
                    &&& after.ttl() == before.ttl()
                    &&& after.time_source() == before.time_source()
                },
                None => !r && final(self).media() is None,
            },
            final(self).same_but_media(old(self)),
    {
        let session = match &self.media_store {
            Some(store) => store.session_of(token_id, now),
            None => return false,
        };
        let live = match session {
            Some(id) => self.sessions.get(id).is_some(),
            None => false,
        };
        match &mut self.media_store {
            Some(store) => store.validate_at(token_id, live, now),
            None => false,
        }
    }

    /// Check a media token: its session has to be kept. Without media no token
    /// is good.
    pub fn validate_media_token(&mut self, token_id: &[u8; 16]) -> (r: bool)
        ensures
            match old(self).media() {
                Some(before) => {
                    &&& final(self).media() matches Some(after)
                    &&& exists|now: nat|
                        {
                            &&& before.time_source().reads(now)
                            &&& (r, after.tokens()) == #[trigger] media::validated(
                                before.tokens(),
                                media::token_key(token_id@),
                                before.ttl()@,
                                old(self).sessions().contains_key(
                                    before.tokens()[media::token_key(token_id@)].session_id,
                                ),
                                now,
                            )
                        }
                    &&& after.validator() == before.validator()
                    &&& after.ttl() == before.ttl()
                    &&& after.time_source() == before.time_source()
                },
                None => !r && final(self).media() is None,
            },
            final(self).same_but_media(old(self)),
    {
        let now = match &self.media_store {
            Some(store) => store.clock().now(),
            None => return false,
        };
        self.validate_media_token_at(token_id, now)
    }

    /// The media tokens, where media are enabled, to work on.
    pub fn media_store_mut(&mut self) -> (r: Option<&mut TokenStore<SessionBound>>)
        ensures
            match r {
                Some(m) => old(self).media() == Some(*m) && final(self).media() == Some(*final(m)),
                None => old(self).media() is None && final(self).media() is None,
            },
            final(self).same_but_media(old(self)),
    {
        match &mut self.media_store {
            Some(m) => Some(m),
            None => None,
        }
    }

    /// The media tokens, where media are enabled.
    pub fn media_store(&self) -> (r: Option<&TokenStore<SessionBound>>)
        ensures
            match r {
                Some(m) => self.media() == Some(*m),
                None => self.media() is None,
            },
    {
        match &self.media_store {
            Some(m) => Some(m),
            None => None,
        }
    }

    /// The sessions, to work on.
    pub fn session_store_mut(&mut self) -> (r: &mut SessionStore)
        ensures
            r.sessions() == old(self).sessions(),
            r.config() == old(self).config(),
            r.time_source() == old(self).time_source(),
            r.next_id() == old(self).store_next_id(),
            final(self).sessions() == final(r).sessions(),
            final(self).config() == final(r).config(),
            final(self).time_source() == final(r).time_source(),
            final(self).store_next_id() == final(r).next_id(),
            final(self).handlers() == old(self).handlers(),
            final(self).next_id() == old(self).next_id(),
            final(self).key_store() == old(self).key_store(),
            final(self).secret() == old(self).secret(),
            final(self).public() == old(self).public(),
            final(self).media() == old(self).media(),
    {
        &mut self.sessions
    }

    /// The sessions.
    pub fn session_store(&self) -> (r: &SessionStore)
        ensures
            r.sessions() == self.sessions(),
            r.config() == self.config(),
            r.time_source() == self.time_source(),
            r.next_id() == self.store_next_id(),
    {
        &self.sessions
    }
}

impl<K: ApiKeyStore, S, T> Server<K, S, T> {
    /// Answer a hello: split it, look the API key up, and accept the client.
    /// `body` is what follows the length. Bytes of the name that are not UTF-8
    /// are replaced.
    pub fn answer_hello(&self, body: &[u8], session_id: u64, now: Instant) -> (r: Result<
        (Session, Vec<u8>),
        ServerError,
    >)
        requires
            body@.len() >= 32,
        ensures
            exists|found: Option<Seq<u8>>|
                self.key_store().may_answer(hello_name(body@), found) && match #[trigger]
                hello_outcome(
                    self.secret(),
                    self.public(),
                    body@,
                    found,
                    session_id,
                    now@,
                ) {
                    Ok((session, answer)) => r matches Ok((s, a)) && s@ == session && a@ == answer,
                    Err(fault) => r matches Err(e) && e@ == fault,
                },
    {
        let (name, client_public) = handshake::split_hello_body(body);
        let api_key_id = crypto::string_from_utf8_lossy(name);
        let found = self.key_store.get(api_key_id.as_str());
        let ghost outcome = hello_outcome(
            self.secret(),
            self.public(),
            body@,
            bytes::option_view(found),
            session_id,
            now@,
        );
        self.complete_hello(api_key_id, &client_public, found, session_id, now)
    }
}

/// A session is over once it began longer ago than the longest lifetime, however
/// lately it was used, and once it was last used longer ago than the idle timeout,
/// however lately it began. While neither limit is passed it goes on.
pub proof fn law_session_over(s: SessionView, config: SessionConfig, now: nat)
    ensures
        now > s.created_at + config.max_lifetime@ ==> session_over(s, config, now),
        now > s.last_used + config.idle_timeout@ ==> session_over(s, config, now),
        now <= s.created_at + config.max_lifetime@ && now <= s.last_used + config.idle_timeout@
            ==> !session_over(s, config, now),
{
}

/// A session that is over stays over as long as it is not used, and every session that
/// collecting drops was over.
pub proof fn law_over_stays_over(
    sessions: Map<u64, SessionView>,
    id: u64,
    config: SessionConfig,
    now: nat,
    later: nat,
)
    requires
        sessions.contains_key(id),
        now <= later,
    ensures
        session_over(sessions[id], config, now) ==> session_over(sessions[id], config, later),
        !store::surviving(sessions, config.max_lifetime@, now).contains_key(id) ==> session_over(
            sessions[id],
            config,
            now,
        ),
{
}

/// The name in a hello is the text in front of the public key as it was sent; bytes
/// that are no text are replaced.
pub proof fn law_hello_name(name: Seq<u8>, public: Seq<u8>, id: Seq<char>)
    requires
        public.len() == 32,
    ensures
        hello_name(utf8::encode_utf8(id) + public) == id,
        !utf8::valid_utf8(name) ==> hello_name(name + public) == crypto::utf8_lossy(name),
{
    let sent = utf8::encode_utf8(id) + public;
    assert(sent.take(sent.len() - 32) =~= utf8::encode_utf8(id));
    utf8::encode_utf8_valid_utf8(id);
    utf8::encode_utf8_decode_utf8(id);
    let body = name + public;
    assert(body.take(body.len() - 32) =~= name);
}

/// A client whose key was not found is refused with the name of the key. One whose key
/// was found is answered with the server's public key and the number of the session in
/// eight bytes, and has a session of that number and name that begins now; its key is
/// derived with HKDF-SHA256 from what the server's secret key and the client's public
/// key agree on, as salt, and the secret of the API key.
pub proof fn law_hello_outcome(
    server_secret: Seq<u8>,
    server_public: Seq<u8>,
    body: Seq<u8>,
    api_key_secret: Seq<u8>,
    session_id: u64,
    now: nat,
)
    requires
        body.len() >= 32,
    ensures
        hello_outcome(server_secret, server_public, body, None, session_id, now) == Err::<
            (SessionView, Seq<u8>),
            ServerFault,
        >(ServerFault::Config("unknown api key '"@ + hello_name(body) + "'"@)),
        hello_outcome(
            server_secret,
            server_public,
            body,
            Some(api_key_secret),
            session_id,
            now,
        ) matches Ok((session, answer)) && {
            &&& answer == server_public + bytes::be(session_id as nat, 8)
            &&& session.id == session_id
            &&& session.api_key_id == hello_name(body)
            &&& session.created_at == now
            &&& session.last_used == now
            &&& session.key == crypto::hkdf_sha256(
                crypto::x25519_shared(server_secret, body.skip(body.len() - 32)),
                api_key_secret,
                utf8::encode_utf8("hush-v1-key"@),
                32,
            )
        },
{
}

/// Where nothing but the sessions, the handlers or the media tokens differs, all else
/// is the same.
pub proof fn law_same_but<K, S, T>(a: Server<K, S, T>, b: Server<K, S, T>)
    ensures
        a.same_but_sessions(&b) || a.same_but_handlers(&b) || a.same_but_media(&b) ==> {
            &&& a.config() == b.config()
            &&& a.next_id() == b.next_id()
            &&& a.store_next_id() == b.store_next_id()
            &&& a.key_store() == b.key_store()
            &&& a.secret() == b.secret()
            &&& a.public() == b.public()
            &&& a.time_source() == b.time_source()
        },
        a.same_but_sessions(&b) ==> a.handlers() == b.handlers() && a.media() == b.media(),
        a.same_but_handlers(&b) ==> a.sessions() == b.sessions() && a.media() == b.media(),
        a.same_but_media(&b) ==> a.sessions() == b.sessions() && a.handlers() == b.handlers(),
        a.wf() ==> a.public() == crypto::x25519_public(a.secret()) && a.secret().len() == 32,
{
}

/// A request without a map is handed over with an empty one, and a map as it is.
pub proof fn law_payload_or_empty(m: MapView)
    ensures
        payload_or_empty(Some(m)) == m,
        payload_or_empty(None).len() == 0,
{
}

/// A server with its keys in memory admits a client exactly when it has the key
/// that the client names, and derives the session key from that key's secret.
pub proof fn law_admission(
    key_store: MapKeyStore,
    server_secret: Seq<u8>,
    server_public: Seq<u8>,
    body: Seq<u8>,
    found: Option<Seq<u8>>,
    session_id: u64,
    now: nat,
)
    requires
        key_store.may_answer(hello_name(body), found),
    ensures
        ({
            let id = hello_name(body);
            match hello_outcome(server_secret, server_public, body, found, session_id, now) {
                Ok((session, _)) => key_store@.contains_key(id) && session
                    == handshake::server_session(
                    server_secret,
                    handshake::body_public(body),
                    id,
                    key_store@[id],
                    session_id,
                    now,
                ),
                Err(fault) => !key_store@.contains_key(id) && fault == ServerFault::Config(
                    "unknown api key '"@ + id + "'"@,
                ),
            }
        }),
{
}

/// A media token is refused, and dropped, once its session was closed.
pub proof fn law_closed_session_refuses_token(
    sessions: Map<u64, SessionView>,
    tokens: Map<u128, media::TokenView>,
    key: u128,
    ttl: nat,
    now: nat,
)
    requires
        tokens.contains_key(key),
    ensures
        ({
            let id = tokens[key].session_id;
            let live = sessions.remove(id).contains_key(id);
            let (good, after) = media::validated(tokens, key, ttl, live, now);
            !good && !after.contains_key(key)
        }),
{
}

/// A client that says hello under a name, and the server that answers it with
/// the secret of that name, end up with the same session.
pub proof fn law_hello_agrees(
    client_secret: Seq<u8>,
    server_secret: Seq<u8>,
    id: Seq<char>,
    api_key_secret: Seq<u8>,
    session_id: u64,
    now: nat,
)
    requires
        client_secret.len() == 32,
        server_secret.len() == 32,
        crypto::x25519_public(client_secret).len() == 32,
        crypto::x25519_public(server_secret).len() == 32,
        1 <= utf8::encode_utf8(id).len() <= 256,
        keys::agreed(
            client_secret,
            crypto::x25519_public(server_secret),
            crypto::x25519_shared(client_secret, crypto::x25519_public(server_secret)),
        ),
    ensures
        ({
            let hello = handshake::client_hello_bytes(id, crypto::x25519_public(client_secret));
            let outcome = hello_outcome(
                server_secret,
                crypto::x25519_public(server_secret),
                hello.skip(2),
                Some(api_key_secret),
                session_id,
                now,
            );
            &&& handshake::body_len(hello.take(2)) matches Ok(n) && n == hello.len() - 2
            &&& outcome matches Ok((session, answer)) && session == handshake::client_session(
                client_secret,
                answer,
                id,
                api_key_secret,
                now,
            )
        }),
{
    let public = crypto::x25519_public(client_secret);
    let hello = handshake::client_hello_bytes(id, public);
    handshake::law_client_hello_roundtrip(id, public);
    handshake::law_handshake_agrees(
        client_secret,
        server_secret,
        id,
        api_key_secret,
        session_id,
        now,
        now,
    );
    bytes::lemma_be_len(utf8::encode_utf8(id).len(), 2);
    let body = hello.skip(2);
    assert(body.take(body.len() - 32) =~= utf8::encode_utf8(id));
    utf8::encode_utf8_valid_utf8(id);
    utf8::encode_utf8_decode_utf8(id);
}

} // verus!
