//! A client: how it starts a session, and the requests and responses in it.

use crate::bytes;
use crate::crypto;
use crate::frame::error;
use crate::frame::error::{FrameError, FrameFault, RequestError, RequestFault};
use crate::frame::message;
use crate::frame::message::{Request, RequestView, Response, ResponseView};
use crate::frame::wire;
use crate::frame::wire::MAX_FRAME_SIZE;
use crate::session::error::{SessionError, SessionFault};
use crate::session::handshake;
use crate::session::handshake::SERVER_HELLO_SIZE;
use crate::session::keys;
use crate::session::keys::{ApiKey, EphemeralSecret};
use crate::session::store::{Session, SessionView};
use crate::text;
use crate::time::Instant;
use crate::tlv::TlvMap;
use crate::transport::TransportError;
use vstd::prelude::*;
use vstd::utf8;

verus! {

/// A failure of a client.
#[derive(Debug)]
pub enum ClientError {
    Transport(TransportError),
    Session(SessionError),
    Frame(FrameError),
    Request(RequestError),
    /// The connection failed, with the reason.
    Connection(String),
    /// The handshake failed, with the reason.
    Negotiate(String),
    /// Reading or writing failed, with the reason.
    Io(String),
}

/// A client error, with its text as characters.
pub enum ClientFault {
    Transport(Seq<char>),
    Session(SessionFault),
    Frame(FrameFault),
    Request(RequestFault),
    Connection(Seq<char>),
    Negotiate(Seq<char>),
    Io(Seq<char>),
}

impl View for ClientError {
    type V = ClientFault;

    open spec fn view(&self) -> ClientFault {
        match self {
            ClientError::Transport(e) => ClientFault::Transport(e->Config_0@),
            ClientError::Session(e) => ClientFault::Session(e@),
            ClientError::Frame(e) => ClientFault::Frame(e@),
            ClientError::Request(e) => ClientFault::Request(e@),
            ClientError::Connection(s) => ClientFault::Connection(s@),
            ClientError::Negotiate(s) => ClientFault::Negotiate(s@),
            ClientError::Io(s) => ClientFault::Io(s@),
        }
    }
}

/// The text of a client error.
pub open spec fn client_message(e: ClientFault) -> Seq<char> {
    match e {
        ClientFault::Transport(s) => "client: "@ + ("transport: "@ + s),
        ClientFault::Session(f) => "client: "@ + crate::session::error::fault_message(f),
        ClientFault::Frame(f) => "client: "@ + error::frame_message(f),
        ClientFault::Request(f) => "client: "@ + error::request_message(f),
        ClientFault::Connection(s) => "client: "@ + s,
        ClientFault::Negotiate(s) => "client: negotiate: "@ + s,
        ClientFault::Io(s) => "client: io: "@ + s,
    }
}

impl ClientError {
    /// The error as text.
    pub fn message(&self) -> (s: String)
        ensures
            s@ == client_message(self@),
    {
        match self {
            ClientError::Transport(e) => text::concat2("client: ", e.message().as_str()),
            ClientError::Session(e) => text::concat2("client: ", e.message().as_str()),
            ClientError::Frame(e) => text::concat2("client: ", e.message().as_str()),
            ClientError::Request(e) => text::concat2("client: ", e.message().as_str()),
            ClientError::Connection(e) => text::concat2("client: ", e.as_str()),
            ClientError::Negotiate(e) => text::concat2("client: negotiate: ", e.as_str()),
            ClientError::Io(e) => text::concat2("client: io: ", e.as_str()),
        }
    }
}

impl vstd::std_specs::convert::FromSpecImpl<TransportError> for ClientError {
    open spec fn obeys_from_spec() -> bool {
        true
    }

    open spec fn from_spec(e: TransportError) -> ClientError {
        ClientError::Transport(e)
    }
}

impl From<TransportError> for ClientError {
    fn from(e: TransportError) -> (r: ClientError) {
        ClientError::Transport(e)
    }
}

impl vstd::std_specs::convert::FromSpecImpl<SessionError> for ClientError {
    open spec fn obeys_from_spec() -> bool {
        true
    }

    open spec fn from_spec(e: SessionError) -> ClientError {
        ClientError::Session(e)
    }
}

impl From<SessionError> for ClientError {
    fn from(e: SessionError) -> (r: ClientError) {
        ClientError::Session(e)
    }
}

impl vstd::std_specs::convert::FromSpecImpl<FrameError> for ClientError {
    open spec fn obeys_from_spec() -> bool {
        true
    }

    open spec fn from_spec(e: FrameError) -> ClientError {
        ClientError::Frame(e)
    }
}

impl From<FrameError> for ClientError {
    fn from(e: FrameError) -> (r: ClientError) {
        ClientError::Frame(e)
    }
}

impl vstd::std_specs::convert::FromSpecImpl<RequestError> for ClientError {
    open spec fn obeys_from_spec() -> bool {
        true
    }

    open spec fn from_spec(e: RequestError) -> ClientError {
        ClientError::Request(e)
    }
}

impl From<RequestError> for ClientError {
    fn from(e: RequestError) -> (r: ClientError) {
        ClientError::Request(e)
    }
}

/// A client with an established session.
pub struct Client {
    session: Session,
    seq: u32,
    session_key: Vec<u8>,
}

/// The secret that enters into the session key: that of the API key, or a fixed
/// one for a client without a name.
pub open spec fn handshake_secret(id: Seq<char>, secret: Seq<u8>) -> Seq<u8> {
    if id.len() == 0 {
        utf8::encode_utf8("hush-anonymous"@)
    } else {
        secret
    }
}

/// The plaintext fits into one frame when it is encrypted.
pub open spec fn fits_frame(plaintext: Seq<u8>) -> bool {
    wire::FRAME_OVERHEAD + plaintext.len() <= MAX_FRAME_SIZE
}

impl Client {
    /// The session.
    pub closed spec fn session(&self) -> SessionView {
        self.session@
    }

    /// The sequence number of the next request.
    pub closed spec fn next_seq(&self) -> u32 {
        self.seq
    }

    /// The key of the session.
    pub closed spec fn key(&self) -> Seq<u8> {
        self.session_key@
    }

    /// Start the handshake: a fresh secret, and what to send to the server. A
    /// key with an empty name asks for an anonymous session.
    pub fn begin(api_key: &ApiKey) -> (r: (EphemeralSecret, Vec<u8>))
        ensures
            crypto::drawn(r.0@),
            r.0@.len() == 32,
            r.1@ == handshake::client_hello_bytes(api_key.id@, crypto::x25519_public(r.0@)),
    {
        handshake::begin_client(api_key.id.as_str())
    }

    /// Finish the handshake with the 40 bytes that the server answered.
    pub fn finish(
        secret: EphemeralSecret,
        answer: &[u8],
        api_key: &ApiKey,
        now: Instant,
    ) -> (r: Result<Client, ClientError>)
        requires
            answer@.len() == SERVER_HELLO_SIZE,
        ensures
            r matches Ok(c) && c.session() == handshake::client_session(
                secret@,
                answer@,
                api_key.id@,
                handshake_secret(api_key.id@, api_key.secret@),
                now@,
            ) && c.key() == c.session().key && c.key().len() == 32 && c.next_seq() == 0,
            r matches Ok(c) && c.key() == crypto::hkdf_sha256(
                crypto::x25519_shared(secret@, answer@.take(32)),
                if api_key.id@.len() == 0 {
                    utf8::encode_utf8("hush-anonymous"@)
                } else {
                    api_key.secret@
                },
                utf8::encode_utf8("hush-v1-key"@),
                32,
            ) && c.session().id == bytes::from_be(answer@.skip(32)) && c.session().api_key_id
                == api_key.id@ && c.session().created_at == now@ && c.session().last_used == now@,
            keys::agreed(
                secret@,
                answer@.take(32),
                crypto::x25519_shared(secret@, answer@.take(32)),
            ),
    {
        let shared: &[u8] = if api_key.id.as_str().unicode_len() == 0 {
            "hush-anonymous".as_bytes()
        } else {
            api_key.secret.as_slice()
        };
        proof {
            bytes::lemma_from_be_bound(answer@.skip(32));
            bytes::lemma_pow256();
        }
        match handshake::finish_client(secret, answer, api_key.id.as_str(), shared, now) {
            Ok(session) => {
                let session_key = bytes::to_vec(session.key.as_slice());
                Ok(Client { session, seq: 0, session_key })
            },
            Err(e) => Err(ClientError::Session(e)),
        }
    }

    /// The bytes of the next request: one encrypted frame, under the next
    /// sequence number.
    pub fn next_request(&mut self, opcode: u16, payload: Option<TlvMap>) -> (r: Result<
        Vec<u8>,
        ClientError,
    >)
        ensures
            ({
                let plaintext = message::request_plaintext(
                    RequestView { opcode, payload: message::payload_view(payload) },
                );
                let fault = message::body_fault(Some(old(self).key()), plaintext);
                match r {
                    Ok(out) => fault is None && fits_frame(plaintext) && exists|body: Seq<u8>|
                        message::is_body(Some(old(self).key()), plaintext, body) && out@
                            == #[trigger] wire::frame_bytes(old(self).next_seq(), body),
                    Err(ClientError::Request(e)) => fault == Some(e@),
                    Err(ClientError::Frame(e)) => fault is None && !fits_frame(plaintext) && e@
                        == FrameFault::TooLarge(
                        wire::reported(32 + plaintext.len()),
                        MAX_FRAME_SIZE,
                    ),
                    Err(_) => false,
                }
            }),
            message::sendable(message::payload_view(payload)),
            final(self).next_seq() == (old(self).next_seq() + 1) % 0x1_0000_0000,
            final(self).session() == old(self).session(),
            final(self).key() == old(self).key(),
    {
        let seq: u32 = self.seq;
        self.seq = seq.wrapping_add(1);
        let req = Request { opcode, payload };
        let ghost plaintext = message::request_plaintext(req@);
        let key: &[u8] = self.session_key.as_slice();
        assert(message::key_view(Some(key)) == Some(old(self).key()));
        match message::encode_request_body(Some(key), &req) {
            Err(e) => Err(ClientError::Request(e)),
            Ok(body) => match wire::encode_frame(seq, body.as_slice()) {
                Err(e) => Err(ClientError::Frame(e)),
                Ok(out) => {
                    assert(message::is_body(Some(old(self).key()), plaintext, body@) && out@
                        == wire::frame_bytes(old(self).next_seq(), body@));
                    Ok(out)
                },
            },
        }
    }

    /// How many bytes of a response follow the four of its length. A length is
    /// refused only for being too large.
    pub fn response_len(header: &[u8; 4]) -> (r: Result<u32, ClientError>)
        ensures
            ({
                let n = bytes::from_be(header@) as u32;
                match r {
                    Ok(len) => len == n && n <= MAX_FRAME_SIZE,
                    Err(e) => n > MAX_FRAME_SIZE && e@ == ClientFault::Frame(
                        FrameFault::TooLarge(n, MAX_FRAME_SIZE),
                    ),
                }
            }),
    {
        let header: &[u8] = header;
        proof {
            bytes::lemma_from_be_bound(header@);
            bytes::lemma_pow256();
        }
        let n: u32 = bytes::read_be(header) as u32;
        if n > MAX_FRAME_SIZE {
            return Err(ClientError::Frame(FrameError::TooLarge(n, MAX_FRAME_SIZE)));
        }
        Ok(n)
    }

    /// Read a response from the bytes that follow its length.
    pub fn read_response(&self, data: &[u8]) -> (r: Result<Response, ClientError>)
        ensures
            match r {
                Ok(resp) => message::decoded_response(Some(self.key()), data@) == Ok::<
                    ResponseView,
                    RequestFault,
                >(resp@),
                Err(e) => message::decoded_response(Some(self.key()), data@) matches Err(f) && e@
                    == ClientFault::Request(f),
            },
    {
        let key: &[u8] = self.session_key.as_slice();
        assert(message::key_view(Some(key)) == Some(self.key()));
        match message::decode_response(Some(key), data) {
            Ok(resp) => Ok(resp),
            Err(e) => Err(ClientError::Request(e)),
        }
    }

    /// The number of the session.
    pub fn session_id(&self) -> (id: u64)
        ensures
            id == self.session().id,
    {
        self.session.id
    }
}

/// A client with a name brings the secret of its API key into the session key, and one
/// without a name the text `hush-anonymous`.
pub proof fn law_handshake_secret(id: Seq<char>, secret: Seq<u8>)
    ensures
        id.len() > 0 ==> handshake_secret(id, secret) == secret,
        handshake_secret(Seq::empty(), secret) == utf8::encode_utf8("hush-anonymous"@),
{
}

/// A request fits into a frame when it has 32 bytes less than the 1048576 that may
/// follow the length of one.
pub proof fn law_fits_frame(plaintext: Seq<u8>)
    ensures
        fits_frame(plaintext) <==> plaintext.len() + 32 <= 1048576,
{
}

/// The text of a client's error is that of its cause behind `client: `, with the kind
/// of failure where the handshake or the input and output failed.
pub proof fn law_client_message(s: Seq<char>, f: SessionFault, g: FrameFault, h: RequestFault)
    ensures
        client_message(ClientFault::Transport(s)) == "client: "@ + ("transport: "@ + s),
        client_message(ClientFault::Session(f)) == "client: "@
            + crate::session::error::fault_message(f),
        client_message(ClientFault::Frame(g)) == "client: "@ + error::frame_message(g),
        client_message(ClientFault::Request(h)) == "client: "@ + error::request_message(h),
        client_message(ClientFault::Connection(s)) == "client: "@ + s,
        client_message(ClientFault::Negotiate(s)) == "client: negotiate: "@ + s,
        client_message(ClientFault::Io(s)) == "client: io: "@ + s,
{
}

} // verus!
