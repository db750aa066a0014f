//! Responses, and the frames that carry them.

use crate::bytes;
use crate::frame::error::{FrameFault, RequestFault};
use crate::frame::message;
use crate::frame::message::{MapView, Response, ResponseView};
use crate::frame::status::StatusCode;
use crate::frame::wire;
use crate::frame::wire::MAX_FRAME_SIZE;
use crate::text;
use crate::tlv::laws;
use crate::tlv::model;
use crate::tlv::model::ValueView;
use crate::tlv::spelling;
use crate::tlv::varint;
use crate::tlv::{TlvMap, Value};
use vstd::prelude::*;
use vstd::utf8;

verus! {

/// A map with one name.
pub open spec fn single(key: Seq<char>, v: ValueView) -> MapView {
    seq![(key, v)]
}

/// A successful response with a map.
pub fn new_response(payload: TlvMap) -> (r: Response)
    ensures
        r@ == (ResponseView { status: StatusCode::Success, payload: Some(payload@), seq: 0 }),
{
    Response { status: StatusCode::Success, payload: Some(payload), seq: 0 }
}

/// A map with one name.
fn single_map(key: &str, v: Value) -> (m: TlvMap)
    ensures
        m@ == single(key@, v@),
{
    let mut m = TlvMap::new();
    let ghost view = v@;
    m.set(key, v);
    assert(m@ =~= single(key@, view));
    m
}

/// The response that reports an error.
pub open spec fn error_view(code: StatusCode, text: Seq<char>) -> ResponseView {
    ResponseView {
        status: code,
        payload: Some(single("error"@, ValueView::String(text))),
        seq: 0,
    }
}

/// The response that reports an error, with its text under the name `error`.
pub fn error_response(code: StatusCode, message: &str) -> (r: Response)
    ensures
        r@ == error_view(code, message@),
        r.status == code,
        r.seq == 0,
        r.payload matches Some(m) && m@ == seq![("error"@, ValueView::String(message@))],
{
    let m = single_map("error", Value::String(message.to_owned()));
    Response { status: code, payload: Some(m), seq: 0 }
}

/// The response that reports an expired session.
pub open spec fn expired_view() -> ResponseView {
    ResponseView { status: StatusCode::SessionExpired, payload: None, seq: 0 }
}

/// The response that reports an opcode without a handler.
pub open spec fn not_found_view(opcode: u16, seq: u32) -> ResponseView {
    ResponseView {
        status: StatusCode::NotFound,
        payload: Some(single("opcode"@, ValueView::Uint16(opcode))),
        seq,
    }
}

/// The response that reports an expired session.
pub fn expired_response() -> (r: Response)
    ensures
        r@ == expired_view(),
        r.status == StatusCode::SessionExpired,
        r.payload is None,
        r.seq == 0,
{
    Response { status: StatusCode::SessionExpired, payload: None, seq: 0 }
}

/// The response that reports an opcode without a handler, with the opcode under
/// its name.
pub fn not_found_response(opcode: u16, seq: u32) -> (r: Response)
    ensures
        r@ == not_found_view(opcode, seq),
        r.status == StatusCode::NotFound,
        r.payload matches Some(m) && m@ == seq![("opcode"@, ValueView::Uint16(opcode))],
        r.seq == seq,
{
    let m = single_map("opcode", Value::Uint16(opcode));
    Response { status: StatusCode::NotFound, payload: Some(m), seq }
}

/// `reply` is the frame that carries a response: under the given sequence
/// number, encrypted under a random nonce. There is none where the key has not 32
/// bytes or the frame would be too large. Either way the map of the response can
/// be written.
pub open spec fn is_reply(
    key: Seq<u8>,
    seq: u32,
    resp: ResponseView,
    reply: Option<Seq<u8>>,
) -> bool {
    let plaintext = message::response_plaintext(resp);
    message::sendable(resp.payload) && match reply {
        Some(out) => {
            &&& message::body_fault(Some(key), plaintext) is None
            &&& wire::FRAME_OVERHEAD + plaintext.len() <= MAX_FRAME_SIZE
            &&& exists|body: Seq<u8>|
                message::is_body(Some(key), plaintext, body) && out == #[trigger]
                    wire::frame_bytes(seq, body)
        },
        None => message::body_fault(Some(key), plaintext) is Some || wire::FRAME_OVERHEAD
            + plaintext.len() > MAX_FRAME_SIZE,
    }
}

/// An optional frame as a sequence.
pub open spec fn reply_view(reply: Option<Vec<u8>>) -> Option<Seq<u8>> {
    bytes::option_view(reply)
}

/// The frame that carries a response.
pub fn reply_frame(key: &[u8], seq: u32, resp: &Response) -> (reply: Option<Vec<u8>>)
    ensures
        is_reply(key@, seq, resp@, reply_view(reply)),
{
    assert(message::key_view(Some(key)) == Some(key@));
    match message::encode_response_body(Some(key), resp) {
        Err(_) => None,
        Ok(body) => match wire::encode_frame(seq, body.as_slice()) {
            Err(_) => None,
            Ok(out) => {
                assert(message::is_body(
                    Some(key@),
                    message::response_plaintext(resp@),
                    body@,
                ) && out@ == wire::frame_bytes(seq, body@));
                Some(out)
            },
        },
    }
}

/// The frame that reports a request that could not be read.
pub fn bad_request_reply(key: &[u8]) -> (reply: Option<Vec<u8>>)
    ensures
        is_reply(
            key@,
            0,
            error_view(StatusCode::BadRequest, "bad request"@),
            reply_view(reply),
        ),
{
    reply_frame(key, 0, &error_response(StatusCode::BadRequest, "bad request"))
}

/// The response to what a handler returned: its response, or a report of an
/// internal error in place of the handler's own text.
pub open spec fn handler_outcome(result: Result<ResponseView, Seq<char>>) -> ResponseView {
    match result {
        Ok(resp) => resp,
        Err(_) => error_view(StatusCode::InternalError, "internal error"@),
    }
}

/// What a handler returned, as plain mathematics.
pub open spec fn result_view(result: Result<Response, String>) -> Result<ResponseView, Seq<char>> {
    match result {
        Ok(resp) => Ok(resp@),
        Err(e) => Err(e@),
    }
}

/// The frame that carries what a handler returned.
pub fn handler_reply(key: &[u8], seq: u32, result: &Result<Response, String>) -> (reply: Option<
    Vec<u8>,
>)
    ensures
        is_reply(key@, seq, handler_outcome(result_view(*result)), reply_view(reply)),
        match *result {
            Ok(resp) => is_reply(key@, seq, resp@, reply_view(reply)),
            Err(_) => is_reply(
                key@,
                seq,
                error_view(StatusCode::InternalError, "internal error"@),
                reply_view(reply),
            ),
        },
{
    match result {
        Ok(resp) => reply_frame(key, seq, resp),
        Err(_) => reply_frame(
            key,
            seq,
            &error_response(StatusCode::InternalError, "internal error"),
        ),
    }
}

/// The length of a reply is accepted, and whoever holds the session key reads
/// the reply back: the status, the sequence number of the frame, and what is
/// delivered of the map.
pub proof fn law_reply_is_read(key: Seq<u8>, seq: u32, resp: ResponseView, reply: Seq<u8>)
    requires
        is_reply(key, seq, resp, Some(reply)),
    ensures
        wire::frame_len(reply.take(4)) == Ok::<u32, FrameFault>(
            (reply.len() - 4) as u32,
        ),
        message::decoded_response(Some(key), reply.skip(4)) == Ok::<
            ResponseView,
            RequestFault,
        >(
            ResponseView { status: resp.status, payload: message::delivered(resp.payload), seq },
        ),
{
    let plaintext = message::response_plaintext(resp);
    let body = choose|body: Seq<u8>|
        message::is_body(Some(key), plaintext, body) && reply == #[trigger] wire::frame_bytes(
            seq,
            body,
        );
    message::law_response_roundtrip(Some(key), resp, body, seq);
    let n = 4 + body.len();
    bytes::lemma_be_len(n, 4);
    bytes::lemma_be_len(seq as nat, 4);
    bytes::lemma_pow256();
    bytes::lemma_from_be_be(n, 4);
    assert(reply.take(4) =~= bytes::be(n, 4));
}

/// There is a reply to every response under a key of 32 bytes, where the encrypted
/// response fits into a frame of 1048576 bytes, and only there. The reply is the
/// response encrypted under a nonce drawn at random, in a frame with the sequence
/// number.
pub proof fn law_reply_is_owed(key: Seq<u8>, seq: u32, resp: ResponseView, reply: Option<Seq<u8>>)
    requires
        is_reply(key, seq, resp, reply),
    ensures
        reply is Some <==> key.len() == 32 && message::response_plaintext(resp).len() + 32
            <= 1048576,
        reply matches Some(out) ==> exists|body: Seq<u8>|
            message::is_body(Some(key), message::response_plaintext(resp), body)
                && wire::encoded_frame(seq, body) == Ok::<Seq<u8>, FrameFault>(out),
{
    let plaintext = message::response_plaintext(resp);
    if let Some(out) = reply {
        let body = choose|body: Seq<u8>|
            message::is_body(Some(key), plaintext, body) && out == #[trigger] wire::frame_bytes(
                seq,
                body,
            );
        message::law_body(key, plaintext, body);
        assert(wire::encoded_frame(seq, body) == Ok::<Seq<u8>, FrameFault>(out));
    }
    message::law_body(key, plaintext, Seq::empty());
}

/// A short map of one name is delivered as it is.
proof fn lemma_single_delivered(name: Seq<char>, v: ValueView)
    requires
        name.len() <= 1000,
        v is Uint16 || (v is String && v->String_0.len() <= 10000),
    ensures
        message::delivered(Some(seq![(name, v)])) == Some(seq![(name, v)]),
{
    let m = seq![(name, v)];
    let whole = ValueView::TlvMap(m);
    let none = Seq::<ValueView>::empty();
    let nothing = Seq::<(Seq<char>, ValueView)>::empty();
    spelling::law_container_payload(none, none, v, nothing, nothing, name);
    lemma_short_text(name);
    if let ValueView::String(text) = v {
        lemma_short_text(text);
    } else {
        spelling::law_unsigned_bytes(0, v->Uint16_0, 0, 0);
    }
    spelling::law_plain_shape(v, 0, 63);
    spelling::law_map_shape(m, 64);
    assert forall|i: int| 0 <= i < m.len() implies laws::nests_within((#[trigger] m[i]).1, 63) by {
        assert(m[i].1 == v);
    }
    assert forall|i: int| 0 <= i < m.len() implies laws::whole_millis((#[trigger] m[i]).1) by {
        assert(m[i].1 == v);
    }
    assert(laws::nests_within(whole, 64));
    assert(laws::whole_millis(whole));
    message::law_delivered_exact(m);
}

proof fn lemma_short_text(s: Seq<char>)
    requires
        s.len() <= 10000,
    ensures
        model::encoding(ValueView::String(s)).len() <= 40010,
{
    let u = utf8::encode_utf8(s);
    text::lemma_utf8_len(s);
    reveal_with_fuel(varint::varint, 4);
    assert(varint::varint(u.len()).len() <= 3);
    spelling::law_sized_bytes(s, Seq::empty(), Seq::empty(), Seq::empty());
}

/// Whoever holds the session key reads from the reply to a handler's response that
/// response: its status, whatever it is, and what is delivered of its map, under the
/// sequence number of the request. Only where the handler failed is it told of an
/// internal error, and not of the handler's reason.
pub proof fn law_handler_is_answered(
    key: Seq<u8>,
    seq: u32,
    result: Result<Response, String>,
    reply: Seq<u8>,
)
    requires
        is_reply(key, seq, handler_outcome(result_view(result)), Some(reply)),
    ensures
        message::decoded_response(Some(key), reply.skip(4)) matches Ok(read) && read.seq == seq
            && match result {
            Ok(resp) => read.status == resp.status && read.payload == match resp.payload {
                Some(m) => message::delivered(Some(m@)),
                None => None,
            },
            Err(_) => read.status == StatusCode::InternalError && read.payload == Some(
                seq![("error"@, ValueView::String("internal error"@))],
            ),
        },
{
    reveal_strlit("error");
    reveal_strlit("internal error");
    law_reply_is_read(key, seq, handler_outcome(result_view(result)), reply);
    lemma_single_delivered("error"@, ValueView::String("internal error"@));
}

/// A response of a handler that fits into a frame is answered, under every session key
/// of 32 bytes, and so is a handler that failed.
pub proof fn law_handler_answer_is_owed(
    key: Seq<u8>,
    seq: u32,
    result: Result<Response, String>,
    reply: Option<Seq<u8>>,
)
    requires
        is_reply(key, seq, handler_outcome(result_view(result)), reply),
        key.len() == 32,
    ensures
        match result {
            Ok(resp) => reply is Some <==> message::response_plaintext(resp@).len() + 32
                <= 1048576,
            Err(_) => reply is Some,
        },
{
    let outcome = handler_outcome(result_view(result));
    law_reply_is_owed(key, seq, outcome, reply);
    if result is Err {
        reveal_strlit("error");
        reveal_strlit("internal error");
        lemma_single_plaintext(
            StatusCode::InternalError,
            "error"@,
            ValueView::String("internal error"@),
            0,
        );
    }
}

/// A response with a short map of one name fits into a frame.
proof fn lemma_single_plaintext(status: StatusCode, name: Seq<char>, v: ValueView, seq: u32)
    requires
        name.len() <= 1000,
        v is Uint16 || (v is String && v->String_0.len() <= 10000),
    ensures
        message::response_plaintext(
            ResponseView { status, payload: Some(seq![(name, v)]), seq },
        ).len() + 32 <= 1048576,
{
    let m = seq![(name, v)];
    let none = Seq::<ValueView>::empty();
    let nothing = Seq::<(Seq<char>, ValueView)>::empty();
    spelling::law_container_payload(none, none, v, nothing, nothing, name);
    lemma_short_text(name);
    if let ValueView::String(text) = v {
        lemma_short_text(text);
    } else {
        spelling::law_unsigned_bytes(0, v->Uint16_0, 0, 0);
    }
    let p = model::payload(ValueView::TlvMap(m));
    spelling::law_sized_bytes(Seq::empty(), Seq::empty(), Seq::empty(), m);
    reveal_with_fuel(varint::varint, 4);
    assert(varint::varint(p.len()).len() <= 3);
    message::law_plaintext_bytes(0, status, seq, Some(m));
}

/// A client whose request could not be read is told of a bad request, under the
/// sequence number 0.
pub proof fn law_bad_request_is_read(key: Seq<u8>, reply: Option<Seq<u8>>)
    requires
        is_reply(key, 0, error_view(StatusCode::BadRequest, "bad request"@), reply),
        key.len() == 32,
    ensures
        reply matches Some(out) && message::decoded_response(Some(key), out.skip(4)) == Ok::<
            ResponseView,
            RequestFault,
        >(
            ResponseView {
                status: StatusCode::BadRequest,
                payload: Some(seq![("error"@, ValueView::String("bad request"@))]),
                seq: 0,
            },
        ),
{
    reveal_strlit("error");
    reveal_strlit("bad request");
    let v = ValueView::String("bad request"@);
    let resp = error_view(StatusCode::BadRequest, "bad request"@);
    lemma_single_plaintext(StatusCode::BadRequest, "error"@, v, 0);
    lemma_single_delivered("error"@, v);
    law_reply_is_owed(key, 0, resp, reply);
    law_reply_is_read(key, 0, resp, reply->Some_0);
}

/// A client that asked for an opcode without a handler is told that it was not found,
/// with the opcode, under the sequence number of its request.
pub proof fn law_not_found_is_read(key: Seq<u8>, opcode: u16, seq: u32, reply: Option<Seq<u8>>)
    requires
        is_reply(key, seq, not_found_view(opcode, seq), reply),
        key.len() == 32,
    ensures
        reply matches Some(out) && message::decoded_response(Some(key), out.skip(4)) == Ok::<
            ResponseView,
            RequestFault,
        >(
            ResponseView {
                status: StatusCode::NotFound,
                payload: Some(seq![("opcode"@, ValueView::Uint16(opcode))]),
                seq,
            },
        ),
{
    reveal_strlit("opcode");
    let v = ValueView::Uint16(opcode);
    let resp = not_found_view(opcode, seq);
    lemma_single_plaintext(StatusCode::NotFound, "opcode"@, v, seq);
    lemma_single_delivered("opcode"@, v);
    law_reply_is_owed(key, seq, resp, reply);
    law_reply_is_read(key, seq, resp, reply->Some_0);
}

/// A client whose session is over is told so, without a map, under the sequence
/// number 0.
pub proof fn law_expiry_is_read(key: Seq<u8>, reply: Option<Seq<u8>>)
    requires
        is_reply(key, 0, expired_view(), reply),
        key.len() == 32,
    ensures
        reply matches Some(out) && message::decoded_response(Some(key), out.skip(4)) == Ok::<
            ResponseView,
            RequestFault,
        >(ResponseView { status: StatusCode::SessionExpired, payload: None, seq: 0 }),
{
    law_reply_is_owed(key, 0, expired_view(), reply);
    law_reply_is_read(key, 0, expired_view(), reply->Some_0);
}

/// A response that reports an error holds its text and nothing else.
pub proof fn law_error_view(code: StatusCode, text: Seq<char>)
    ensures
        error_view(code, text).status == code,
        error_view(code, text).seq == 0,
        error_view(code, text).payload == Some(seq![("error"@, ValueView::String(text))]),
{
}

} // verus!
