//! Requests and responses as the data of frames.

use crate::bytes;
use crate::crypto;
use crate::frame::error::{FrameFault, RequestError, RequestFault};
use crate::frame::status;
use crate::frame::status::StatusCode;
use crate::frame::wire;
use crate::session::cipher;
use crate::session::error::SessionFault;
use crate::tlv;
use crate::tlv::laws;
use crate::tlv::model;
use crate::tlv::model::{ValueView, MAX_PAYLOAD_SIZE};
use crate::tlv::TlvMap;
use vstd::prelude::*;
use vstd::slice::slice_subrange;

verus! {

/// A request: what to do, and with what.
#[derive(Debug)]
pub struct Request {
    pub opcode: u16,
    pub payload: Option<TlvMap>,
}

/// A response: how it went, and what came of it.
#[derive(Debug)]
pub struct Response {
    pub status: StatusCode,
    pub payload: Option<TlvMap>,
    pub seq: u32,
}

/// A map as plain mathematics.
pub type MapView = Seq<(Seq<char>, ValueView)>;

/// A request as plain mathematics.
pub struct RequestView {
    pub opcode: u16,
    pub payload: Option<MapView>,
}

/// A response as plain mathematics.
pub struct ResponseView {
    pub status: StatusCode,
    pub payload: Option<MapView>,
    pub seq: u32,
}

/// An optional map as plain mathematics.
pub open spec fn payload_view(p: Option<TlvMap>) -> Option<MapView> {
    match p {
        Some(m) => Some(m@),
        None => None,
    }
}

impl View for Request {
    type V = RequestView;

    open spec fn view(&self) -> RequestView {
        RequestView { opcode: self.opcode, payload: payload_view(self.payload) }
    }
}

impl View for Response {
    type V = ResponseView;

    open spec fn view(&self) -> ResponseView {
        ResponseView {
            status: self.status,
            payload: payload_view(self.payload),
            seq: self.seq,
        }
    }
}

/// The views of a request and of a response hold all of them, with the map where there
/// is one.
pub proof fn law_message_views(req: Request, resp: Response)
    ensures
        req@.opcode == req.opcode,
        req.payload is Some <==> req@.payload is Some,
        req.payload matches Some(m) ==> req@.payload == Some(m@),
        resp@.status == resp.status,
        resp.payload is Some <==> resp@.payload is Some,
        resp.payload matches Some(m) ==> resp@.payload == Some(m@),
        resp@.seq == resp.seq,
{
}

/// A copy of an optional map.
fn clone_payload(p: &Option<TlvMap>) -> (r: Option<TlvMap>)
    ensures
        payload_view(r) == payload_view(*p),
{
    match p {
        Some(m) => Some(m.clone()),
        None => None,
    }
}

impl Clone for Request {
    fn clone(&self) -> (r: Request)
        ensures
            r@ == self@,
    {
        Request { opcode: self.opcode, payload: clone_payload(&self.payload) }
    }
}

impl Clone for Response {
    fn clone(&self) -> (r: Response)
        ensures
            r@ == self@,
    {
        Response { status: self.status, payload: clone_payload(&self.payload), seq: self.seq }
    }
}

// ── Plain messages ──────────────────────────────────────────

/// The bytes of an optional map.
pub open spec fn payload_bytes(p: Option<MapView>) -> Seq<u8> {
    match p {
        Some(m) => model::encoding(ValueView::TlvMap(m)),
        None => Seq::empty(),
    }
}

/// The map that bytes hold. No bytes, and bytes that are no map, hold none.
pub open spec fn parsed_payload(s: Seq<u8>) -> Option<MapView> {
    if s.len() == 0 {
        None
    } else {
        match model::decoded_map(s) {
            Ok(m) => Some(m),
            Err(_) => None,
        }
    }
}

/// A request before encryption: the opcode in two bytes, and the map.
pub open spec fn request_plaintext(r: RequestView) -> Seq<u8> {
    bytes::be(r.opcode as nat, 2) + payload_bytes(r.payload)
}

/// A response before encryption: the status in one byte, and the map.
pub open spec fn response_plaintext(r: ResponseView) -> Seq<u8> {
    seq![status::status_code(r.status)] + payload_bytes(r.payload)
}

/// The request that a plaintext holds.
pub open spec fn parsed_request(s: Seq<u8>) -> Result<RequestView, RequestFault> {
    if s.len() < 2 {
        Err(RequestFault::TooShort)
    } else {
        Ok(
            RequestView {
                opcode: bytes::from_be(s.take(2)) as u16,
                payload: parsed_payload(s.skip(2)),
            },
        )
    }
}

/// The response that a plaintext holds, under the given sequence number.
pub open spec fn parsed_response(s: Seq<u8>, seq: u32) -> Result<ResponseView, RequestFault> {
    if s.len() == 0 {
        Err(RequestFault::TooShort)
    } else {
        match status::status_from(s[0]) {
            None => Err(RequestFault::UnknownStatus(s[0])),
            Some(status) => Ok(ResponseView { status, payload: parsed_payload(s.skip(1)), seq }),
        }
    }
}

/// Append the bytes of an optional map.
fn push_payload(buf: &mut Vec<u8>, p: &Option<TlvMap>)
    ensures
        final(buf)@ == old(buf)@ + payload_bytes(payload_view(*p)),
        sendable(payload_view(*p)),
{
    match p {
        Some(m) => {
            let data = tlv::encode_map(m);
            bytes::push_all(buf, data.as_slice());
        },
        None => {
            assert(buf@ + Seq::<u8>::empty() =~= buf@);
        },
    }
}

/// The map that bytes hold.
fn parse_payload(s: &[u8]) -> (r: Option<TlvMap>)
    ensures
        payload_view(r) == parsed_payload(s@),
{
    tlv::decode_map_opt(s)
}

/// Read a request from its plaintext.
pub fn parse_request(plaintext: &[u8]) -> (r: Result<Request, RequestError>)
    ensures
        match r {
            Ok(req) => parsed_request(plaintext@) == Ok::<RequestView, RequestFault>(req@),
            Err(e) => parsed_request(plaintext@) == Err::<RequestView, RequestFault>(e@),
        },
{
    if plaintext.len() < 2 {
        return Err(RequestError::TooShort);
    }
    let front = slice_subrange(plaintext, 0, 2);
    let rest = slice_subrange(plaintext, 2, plaintext.len());
    proof {
        assert(front@ =~= plaintext@.take(2));
        assert(rest@ =~= plaintext@.skip(2));
        bytes::lemma_from_be_bound(front@);
        bytes::lemma_pow256();
    }
    let opcode: u16 = bytes::read_be(front) as u16;
    Ok(Request { opcode, payload: parse_payload(rest) })
}

/// Read a response from its plaintext.
pub fn parse_response(plaintext: &[u8], seq: u32) -> (r: Result<Response, RequestError>)
    ensures
        match r {
            Ok(resp) => parsed_response(plaintext@, seq) == Ok::<ResponseView, RequestFault>(resp@),
            Err(e) => parsed_response(plaintext@, seq) == Err::<ResponseView, RequestFault>(e@),
        },
{
    if plaintext.len() == 0 {
        return Err(RequestError::TooShort);
    }
    let status = match StatusCode::from_u8(plaintext[0]) {
        Some(status) => status,
        None => return Err(RequestError::UnknownStatus(plaintext[0])),
    };
    let rest = slice_subrange(plaintext, 1, plaintext.len());
    assert(rest@ =~= plaintext@.skip(1));
    Ok(Response { status, payload: parse_payload(rest), seq })
}

// ── Encrypted messages ──────────────────────────────────────

/// An optional key as a sequence.
pub open spec fn key_view(key: Option<&[u8]>) -> Option<Seq<u8>> {
    match key {
        Some(k) => Some(k@),
        None => None,
    }
}

/// `body` carries a plaintext: as it is without a key, and with a key encrypted
/// under the nonce that `body` begins with.
pub open spec fn carries(key: Option<Seq<u8>>, plaintext: Seq<u8>, body: Seq<u8>) -> bool {
    match key {
        None => body == plaintext,
        Some(k) => {
            &&& cipher::sealed(k, body.take(12), plaintext) == Ok::<Seq<u8>, SessionFault>(body)
            &&& cipher::opened(k, body) == Ok::<Seq<u8>, SessionFault>(plaintext)
            &&& body.len() == 12 + plaintext.len() + 16
        },
    }
}

/// `body` is what a plaintext becomes: it carries the plaintext, and where there
/// is a key the nonce was drawn at random.
pub open spec fn is_body(key: Option<Seq<u8>>, plaintext: Seq<u8>, body: Seq<u8>) -> bool {
    &&& carries(key, plaintext, body)
    &&& key is Some ==> crypto::drawn(body.take(12))
}

/// Why a plaintext cannot be encrypted under a key, if it cannot.
pub open spec fn body_fault(key: Option<Seq<u8>>, plaintext: Seq<u8>) -> Option<RequestFault> {
    match key {
        None => None,
        Some(k) => if k.len() != 32 {
            Some(RequestFault::Session(SessionFault::Aes("invalid key length"@)))
        } else if plaintext.len() > crypto::MAX_PLAINTEXT {
            Some(RequestFault::Session(SessionFault::Crypto("aes-gcm encrypt: aead::Error"@)))
        } else {
            None
        },
    }
}

/// The plaintext of a message body.
pub open spec fn plaintext_of(key: Option<Seq<u8>>, body: Seq<u8>) -> Result<
    Seq<u8>,
    RequestFault,
> {
    match key {
        None => Ok(body),
        Some(k) => match cipher::opened(k, body) {
            Ok(plaintext) => Ok(plaintext),
            Err(e) => Err(RequestFault::Session(e)),
        },
    }
}

/// Encrypt a plaintext where there is a key.
fn seal_body(key: Option<&[u8]>, plaintext: Vec<u8>) -> (r: Result<Vec<u8>, RequestError>)
    ensures
        match r {
            Ok(body) => is_body(key_view(key), plaintext@, body@) && body_fault(
                key_view(key),
                plaintext@,
            ) is None,
            Err(e) => body_fault(key_view(key), plaintext@) == Some(e@),
        },
{
    match key {
        None => Ok(plaintext),
        Some(k) => match cipher::encrypt(k, plaintext.as_slice()) {
            Ok(body) => Ok(body),
            Err(e) => {
                assert(cipher::sealed(k@, Seq::empty(), plaintext@) is Err);
                Err(RequestError::Session(e))
            },
        },
    }
}

/// Decrypt a body where there is a key.
fn open_body(key: Option<&[u8]>, body: Vec<u8>) -> (r: Result<Vec<u8>, RequestError>)
    ensures
        match r {
            Ok(plaintext) => plaintext_of(key_view(key), body@) == Ok::<Seq<u8>, RequestFault>(
                plaintext@,
            ),
            Err(e) => plaintext_of(key_view(key), body@) == Err::<Seq<u8>, RequestFault>(e@),
        },
{
    match key {
        None => Ok(body),
        Some(k) => match cipher::decrypt(k, body.as_slice()) {
            Ok(plaintext) => Ok(plaintext),
            Err(e) => Err(RequestError::Session(e)),
        },
    }
}

/// The data of a frame that carries a request, encrypted where there is a key.
pub fn encode_request_body(key: Option<&[u8]>, req: &Request) -> (r: Result<
    Vec<u8>,
    RequestError,
>)
    ensures
        match r {
            Ok(body) => is_body(key_view(key), request_plaintext(req@), body@) && body_fault(
                key_view(key),
                request_plaintext(req@),
            ) is None,
            Err(e) => body_fault(key_view(key), request_plaintext(req@)) == Some(e@),
        },
        sendable(req@.payload),
{
    let mut plaintext: Vec<u8> = Vec::new();
    bytes::push_be(&mut plaintext, req.opcode as u64, 2);
    push_payload(&mut plaintext, &req.payload);
    assert(plaintext@ =~= request_plaintext(req@));
    seal_body(key, plaintext)
}

/// The data of a frame that carries a response, encrypted where there is a key.
pub fn encode_response_body(key: Option<&[u8]>, resp: &Response) -> (r: Result<
    Vec<u8>,
    RequestError,
>)
    ensures
        match r {
            Ok(body) => is_body(key_view(key), response_plaintext(resp@), body@) && body_fault(
                key_view(key),
                response_plaintext(resp@),
            ) is None,
            Err(e) => body_fault(key_view(key), response_plaintext(resp@)) == Some(e@),
        },
        sendable(resp@.payload),
{
    let mut plaintext: Vec<u8> = Vec::new();
    plaintext.push(resp.status.to_u8());
    push_payload(&mut plaintext, &resp.payload);
    assert(plaintext@ =~= response_plaintext(resp@));
    seal_body(key, plaintext)
}

/// What reading a request from a frame without its length gives: the request
/// and the sequence number.
pub open spec fn decoded_request(key: Option<Seq<u8>>, s: Seq<u8>) -> Result<
    (RequestView, u32),
    RequestFault,
> {
    match wire::parsed_frame(s) {
        Err(e) => Err(RequestFault::Frame(e)),
        Ok(f) => match plaintext_of(key, f.data) {
            Err(e) => Err(e),
            Ok(plaintext) => match parsed_request(plaintext) {
                Err(e) => Err(e),
                Ok(r) => Ok((r, f.seq)),
            },
        },
    }
}

/// What reading a response from a frame without its length gives.
pub open spec fn decoded_response(key: Option<Seq<u8>>, s: Seq<u8>) -> Result<
    ResponseView,
    RequestFault,
> {
    match wire::parsed_frame(s) {
        Err(e) => Err(RequestFault::Frame(e)),
        Ok(f) => match plaintext_of(key, f.data) {
            Err(e) => Err(e),
            Ok(plaintext) => parsed_response(plaintext, f.seq),
        },
    }
}

/// Read a request, and its sequence number, from a frame without its length.
pub fn decode_request(key: Option<&[u8]>, wire_data: &[u8]) -> (r: Result<
    (Request, u32),
    RequestError,
>)
    ensures
        match r {
            Ok((req, seq)) => decoded_request(key_view(key), wire_data@) == Ok::<
                (RequestView, u32),
                RequestFault,
            >((req@, seq)),
            Err(e) => decoded_request(key_view(key), wire_data@) == Err::<
                (RequestView, u32),
                RequestFault,
            >(e@),
        },
{
    let frame = match wire::parse_frame_data(wire_data) {
        Ok(frame) => frame,
        Err(e) => return Err(RequestError::Frame(e)),
    };
    match open_body(key, frame.data) {
        Err(e) => Err(e),
        Ok(plaintext) => match parse_request(plaintext.as_slice()) {
            Err(e) => Err(e),
            Ok(req) => Ok((req, frame.seq)),
        },
    }
}

/// Read a response from a frame without its length.
pub fn decode_response(key: Option<&[u8]>, wire_data: &[u8]) -> (r: Result<
    Response,
    RequestError,
>)
    ensures
        match r {
            Ok(resp) => decoded_response(key_view(key), wire_data@) == Ok::<
                ResponseView,
                RequestFault,
            >(resp@),
            Err(e) => decoded_response(key_view(key), wire_data@) == Err::<
                ResponseView,
                RequestFault,
            >(e@),
        },
{
    let frame = match wire::parse_frame_data(wire_data) {
        Ok(frame) => frame,
        Err(e) => return Err(RequestError::Frame(e)),
    };
    match open_body(key, frame.data) {
        Err(e) => Err(e),
        Ok(plaintext) => parse_response(plaintext.as_slice(), frame.seq),
    }
}

// ── Laws ────────────────────────────────────────────────────

/// What arrives of a map: the map with its spans of time cut to whole
/// milliseconds, or nothing where it is too large or nested too deep.
pub open spec fn delivered(p: Option<MapView>) -> Option<MapView> {
    match p {
        None => None,
        Some(m) => if model::payload(ValueView::TlvMap(m)).len() <= MAX_PAYLOAD_SIZE
            && laws::nests_within(ValueView::TlvMap(m), 64) {
            Some(laws::trimmed_entries(m))
        } else {
            None
        },
    }
}

/// The map, if there is one, can be written.
pub open spec fn sendable(p: Option<MapView>) -> bool {
    p matches Some(m) ==> laws::writable(ValueView::TlvMap(m))
}

proof fn lemma_payload_roundtrip(p: Option<MapView>)
    requires
        sendable(p),
    ensures
        parsed_payload(payload_bytes(p)) == delivered(p),
{
    if let Some(m) = p {
        let v = ValueView::TlvMap(m);
        let e = model::encoding(v);
        laws::law_decode_encode(v, Seq::empty());
        assert(e + Seq::<u8>::empty() =~= e);
        assert(e == model::framed(model::type_of(v), model::payload(v)));
        assert(laws::trimmed(v) == ValueView::TlvMap(laws::trimmed_entries(m)));
    }
}

/// A map whose spans of time are whole milliseconds, and which is neither too
/// large nor nested too deep, arrives as it was sent.
pub proof fn law_delivered_exact(m: MapView)
    requires
        laws::whole_millis(ValueView::TlvMap(m)),
        laws::nests_within(ValueView::TlvMap(m), 64),
        model::payload(ValueView::TlvMap(m)).len() <= MAX_PAYLOAD_SIZE,
    ensures
        delivered(Some(m)) == Some(m),
{
    let v = ValueView::TlvMap(m);
    laws::law_trimmed_exact(v);
    assert(laws::trimmed(v) == ValueView::TlvMap(laws::trimmed_entries(m)));
}

/// A request before encryption is its opcode in two bytes, the most significant
/// first, and then the encoding of its map, if there is one; a response is the
/// number of its status in one byte, and then the same.
pub proof fn law_plaintext_bytes(
    opcode: u16,
    status: StatusCode,
    seq: u32,
    payload: Option<MapView>,
)
    ensures
        ({
            let rest = match payload {
                Some(m) => model::encoding(ValueView::TlvMap(m)),
                None => Seq::<u8>::empty(),
            };
            &&& request_plaintext(RequestView { opcode, payload }) == seq![
                (opcode / 256) as u8,
                (opcode % 256) as u8,
            ] + rest
            &&& response_plaintext(ResponseView { status, payload, seq }).len() == 1 + rest.len()
            &&& response_plaintext(ResponseView { status, payload, seq }).skip(1) == rest
            &&& status::status_from(response_plaintext(ResponseView { status, payload, seq })[0])
                == Some(status)
        }),
{
    bytes::law_be_bytes(opcode as nat);
    let resp = response_plaintext(ResponseView { status, payload, seq });
    status::law_status_codes(resp[0], status);
    assert(resp.skip(1) =~= payload_bytes(payload));
}

/// A request is read from any plaintext of two bytes or more: the opcode, and the map
/// behind it if one can be read there. What is no map does not make the request
/// fail.
pub proof fn law_parse_request(s: Seq<u8>)
    ensures
        s.len() < 2 ==> parsed_request(s) == Err::<RequestView, RequestFault>(
            RequestFault::TooShort,
        ),
        s.len() >= 2 ==> {
            &&& parsed_request(s) matches Ok(r)
            &&& r.opcode == 256 * s[0] + s[1]
            &&& match model::decoded_map(s.skip(2)) {
                Ok(m) => r.payload == Some(m),
                Err(_) => r.payload is None,
            }
        },
{
    if s.len() >= 2 {
        bytes::law_from_be_bytes(s.take(2), 0);
    }
}

/// A response is read from any plaintext whose first byte is the number of a status,
/// with the map behind it if one can be read there.
pub proof fn law_parse_response(s: Seq<u8>, seq: u32)
    ensures
        s.len() == 0 ==> parsed_response(s, seq) == Err::<ResponseView, RequestFault>(
            RequestFault::TooShort,
        ),
        s.len() > 0 ==> match status::status_from(s[0]) {
            None => parsed_response(s, seq) == Err::<ResponseView, RequestFault>(
                RequestFault::UnknownStatus(s[0]),
            ),
            Some(status) => {
                &&& parsed_response(s, seq) matches Ok(r)
                &&& r.status == status
                &&& r.seq == seq
                &&& match model::decoded_map(s.skip(1)) {
                    Ok(m) => r.payload == Some(m),
                    Err(_) => r.payload is None,
                }
            },
        },
{
}

/// A message is read from a frame without its length: less than a sequence number is
/// refused; without a key the data is the plaintext, and with a key it is opened
/// first, where what does not open is refused with the reason.
pub proof fn law_decoded_message(key: Seq<u8>, s: Seq<u8>)
    ensures
        s.len() < 4 ==> {
            let fault = RequestFault::Frame(FrameFault::TooShort(s.len() as u32));
            &&& decoded_request(None, s) == Err::<(RequestView, u32), RequestFault>(fault)
            &&& decoded_request(Some(key), s) == Err::<(RequestView, u32), RequestFault>(fault)
            &&& decoded_response(None, s) == Err::<ResponseView, RequestFault>(fault)
            &&& decoded_response(Some(key), s) == Err::<ResponseView, RequestFault>(fault)
        },
        s.len() >= 4 ==> {
            let data = s.skip(4);
            let seq = (0x100_0000 * s[0] + 0x1_0000 * s[1] + 0x100 * s[2] + s[3]) as u32;
            &&& match parsed_request(data) {
                Ok(r) => decoded_request(None, s) == Ok::<(RequestView, u32), RequestFault>(
                    (r, seq),
                ),
                Err(e) => decoded_request(None, s) == Err::<(RequestView, u32), RequestFault>(e),
            }
            &&& decoded_response(None, s) == parsed_response(data, seq)
            &&& match cipher::opened(key, data) {
                Ok(plaintext) => {
                    &&& match parsed_request(plaintext) {
                        Ok(r) => decoded_request(Some(key), s) == Ok::<
                            (RequestView, u32),
                            RequestFault,
                        >((r, seq)),
                        Err(e) => decoded_request(Some(key), s) == Err::<
                            (RequestView, u32),
                            RequestFault,
                        >(e),
                    }
                    &&& decoded_response(Some(key), s) == parsed_response(plaintext, seq)
                },
                Err(fault) => {
                    &&& decoded_request(Some(key), s) == Err::<(RequestView, u32), RequestFault>(
                        RequestFault::Session(fault),
                    )
                    &&& decoded_response(Some(key), s) == Err::<ResponseView, RequestFault>(
                        RequestFault::Session(fault),
                    )
                },
            }
        },
{
    wire::law_parsed_frame(s);
}

/// A body without a key is the plaintext. A body under a key opens to the plaintext
/// under that key, is 28 bytes longer, holds the AES-256-GCM ciphertext behind its
/// nonce, and has a nonce that was drawn at random. Nothing but a key that has not 32
/// bytes, or a plaintext over the limit, keeps a message from being sent.
pub proof fn law_body(key: Seq<u8>, plaintext: Seq<u8>, body: Seq<u8>)
    ensures
        is_body(None, plaintext, body) <==> body == plaintext,
        carries(None, plaintext, body) <==> body == plaintext,
        body_fault(None, plaintext) is None,
        is_body(Some(key), plaintext, body) ==> {
            &&& carries(Some(key), plaintext, body)
            &&& crypto::drawn(body.take(12))
        },
        carries(Some(key), plaintext, body) ==> {
            &&& key.len() == 32
            &&& body.len() == plaintext.len() + 28
            &&& body.skip(12) == crypto::aes256_gcm_sealed(key, body.take(12), plaintext)
            &&& cipher::opened(key, body) == Ok::<Seq<u8>, SessionFault>(plaintext)
        },
        body_fault(Some(key), plaintext) is None <==> key.len() == 32 && plaintext.len()
            <= 0x10_0000_0000,
        body_fault(Some(key), plaintext) matches Some(fault) ==> fault == RequestFault::Session(
            if key.len() != 32 {
                SessionFault::Aes("invalid key length"@)
            } else {
                SessionFault::Crypto("aes-gcm encrypt: aead::Error"@)
            },
        ),
{
    if carries(Some(key), plaintext, body) {
        cipher::law_sealed(key, body.take(12), plaintext);
    }
}

/// A map of up to 524288 bytes that is nested no deeper than 64 is delivered, name by
/// name, with its spans of time cut to whole milliseconds; no other map is. No map is
/// delivered as none. A map that can be sent has no name twice at any level.
pub proof fn law_delivered(m: MapView)
    ensures
        delivered(None) is None,
        delivered(Some(m)) is Some <==> model::payload(ValueView::TlvMap(m)).len() <= 524288
            && laws::nests_within(ValueView::TlvMap(m), 64),
        delivered(Some(m)) matches Some(got) ==> got == laws::trimmed_entries(m),
        sendable(Some(m)) ==> laws::valid(ValueView::TlvMap(m)),
        sendable(None),
{
}

/// Reading a request from its plaintext gives back the opcode and what is
/// delivered of the map.
pub proof fn law_request_plaintext(r: RequestView)
    requires
        sendable(r.payload),
    ensures
        parsed_request(request_plaintext(r)) == Ok::<RequestView, RequestFault>(
            RequestView { opcode: r.opcode, payload: delivered(r.payload) },
        ),
{
    let s = request_plaintext(r);
    lemma_payload_roundtrip(r.payload);
    bytes::lemma_be_len(r.opcode as nat, 2);
    bytes::lemma_pow256();
    bytes::lemma_from_be_be(r.opcode as nat, 2);
    assert(s.take(2) =~= bytes::be(r.opcode as nat, 2));
    assert(s.skip(2) =~= payload_bytes(r.payload));
}

/// Reading a response from its plaintext gives back the status and what is
/// delivered of the map.
pub proof fn law_response_plaintext(r: ResponseView, seq: u32)
    requires
        sendable(r.payload),
    ensures
        parsed_response(response_plaintext(r), seq) == Ok::<ResponseView, RequestFault>(
            ResponseView { status: r.status, payload: delivered(r.payload), seq },
        ),
{
    let s = response_plaintext(r);
    lemma_payload_roundtrip(r.payload);
    status::law_status_codes(s[0], r.status);
    assert(s.skip(1) =~= payload_bytes(r.payload));
}

/// A request that was put into a frame, encrypted or not, is read back from it
/// by whoever has the key.
pub proof fn law_request_roundtrip(
    key: Option<Seq<u8>>,
    r: RequestView,
    body: Seq<u8>,
    seq: u32,
)
    requires
        sendable(r.payload),
        carries(key, request_plaintext(r), body),
    ensures
        decoded_request(key, wire::frame_bytes(seq, body).skip(4)) == Ok::<
            (RequestView, u32),
            RequestFault,
        >((RequestView { opcode: r.opcode, payload: delivered(r.payload) }, seq)),
{
    wire::law_parse_frame(seq, body);
    law_request_plaintext(r);
}

/// A response that was put into a frame, encrypted or not, is read back from it
/// by whoever has the key. Its sequence number is that of the frame.
pub proof fn law_response_roundtrip(
    key: Option<Seq<u8>>,
    r: ResponseView,
    body: Seq<u8>,
    seq: u32,
)
    requires
        sendable(r.payload),
        carries(key, response_plaintext(r), body),
    ensures
        decoded_response(key, wire::frame_bytes(seq, body).skip(4)) == Ok::<
            ResponseView,
            RequestFault,
        >(ResponseView { status: r.status, payload: delivered(r.payload), seq }),
{
    wire::law_parse_frame(seq, body);
    law_response_plaintext(r, seq);
}

} // verus!
