//! One stream of a session, step by step: what to do next, given what happened.

use crate::frame::error::RequestFault;
use crate::frame::message;
use crate::frame::message::{Response, ResponseView};
use crate::frame::status::StatusCode;
use crate::frame::wire;
use crate::server::refusal::{Refusal, RefusalView};
use crate::server::reply;
use crate::server::request::{Request, RequestView};
use crate::server::routing;
use crate::server::routing::{Dispatch, HandlerType, Server, StreamStart};
use crate::time::Instant;
use crate::tlv::model::ValueView;
use vstd::prelude::*;

verus! {

/// Where a stream stands.
pub enum StreamState {
    /// Nothing happened yet.
    Opened,
    /// A request is being read, under this key.
    Reading(Vec<u8>),
    /// A handler is at work on a request with this sequence number.
    Handling(Vec<u8>, u32),
    /// There is nothing more to do.
    Closed,
}

/// What happened on a stream.
pub enum StreamEvent {
    /// The stream was accepted.
    Started,
    /// What follows the length of a frame arrived.
    Arrived(Vec<u8>),
    /// No frame could be read.
    Failed,
    /// The handler returned.
    Returned(Result<Response, String>),
}

/// What to do on a stream.
pub enum StreamAction<'a, S, T> {
    /// Read a frame.
    Read,
    /// Send this, if anything, and end the stream.
    Send(Option<Vec<u8>>),
    /// No handler gets the request: send this, if anything, and end the stream.
    Refuse(Refusal, Option<Vec<u8>>),
    /// Hand the request to this handler.
    Call(&'a S, Request),
    /// Hand the request, the stream and the key to this handler.
    TakeOver(&'a T, Request, Vec<u8>),
    /// Nothing.
    Stop,
}

/// The action is to send a response under a sequence number, encrypted, as far
/// as that can be done.
pub open spec fn sends<S, T>(
    action: StreamAction<'_, S, T>,
    key: Seq<u8>,
    seq: u32,
    resp: ResponseView,
) -> bool {
    action matches StreamAction::Send(out) && reply::is_reply(
        key,
        seq,
        resp,
        reply::reply_view(out),
    )
}

/// The action is to refuse for a reason, and to send a response as `sends` says.
pub open spec fn refuses<S, T>(
    action: StreamAction<'_, S, T>,
    reason: RefusalView,
    key: Seq<u8>,
    seq: u32,
    resp: ResponseView,
) -> bool {
    action matches StreamAction::Refuse(why, out) && why@ == reason && reply::is_reply(
        key,
        seq,
        resp,
        reply::reply_view(out),
    )
}

/// What a request looks like to a handler.
pub open spec fn handed_over(
    req: message::RequestView,
    session_id: u64,
    api_key_id: Seq<char>,
) -> RequestView {
    RequestView {
        opcode: req.opcode,
        payload: routing::payload_or_empty(req.payload),
        session_id,
        api_key_id,
    }
}

impl<K, S, T> Server<K, S, T> {
    /// What becomes of a request that arrived on a stream.
    pub open spec fn answers_request(
        &self,
        key: Seq<u8>,
        data: Seq<u8>,
        session_id: u64,
        api_key_id: Seq<char>,
        next: StreamState,
        action: StreamAction<'_, S, T>,
    ) -> bool {
        match message::decoded_request(Some(key), data) {
            Err(fault) => next is Closed && refuses(
                action,
                RefusalView::Unreadable(fault),
                key,
                0,
                reply::error_view(StatusCode::BadRequest, "bad request"@),
            ),
            Ok((req, seq)) => if !self.handlers().contains_key(req.opcode) {
                next is Closed && refuses(
                    action,
                    RefusalView::NotFound(req.opcode),
                    key,
                    seq,
                    reply::not_found_view(req.opcode, seq),
                )
            } else {
                match self.handlers()[req.opcode] {
                    HandlerType::Sync(handler) => {
                        &&& next matches StreamState::Handling(k, n)
                        &&& k@ == key
                        &&& n == seq
                        &&& action matches StreamAction::Call(f, request)
                        &&& *f == handler
                        &&& request@ == handed_over(req, session_id, api_key_id)
                    },
                    HandlerType::Stream(handler) => {
                        &&& next is Closed
                        &&& action matches StreamAction::TakeOver(f, request, k)
                        &&& *f == handler
                        &&& request@ == handed_over(req, session_id, api_key_id)
                        &&& k@ == key
                    },
                }
            },
        }
    }

    /// The next step of a stream of the session `session_id`, whose key is named
    /// `api_key_id`. A session that is over is told so; a request that cannot be
    /// read, or that has no handler, is answered with an error; what a handler
    /// returns is sent back. After anything was sent the stream is closed.
    pub fn stream_step<'a>(
        &'a self,
        state: StreamState,
        event: StreamEvent,
        session_id: u64,
        api_key_id: &str,
        now: Instant,
    ) -> (r: (StreamState, StreamAction<'a, S, T>))
        ensures
            match (state, event) {
                (StreamState::Opened, StreamEvent::Started) => {
                    let known = self.sessions().contains_key(session_id);
                    let s = self.sessions()[session_id];
                    if known && routing::session_over(s, self.config(), now@) {
                        r.0 is Closed && refuses(
                            r.1,
                            RefusalView::Expired,
                            s.key,
                            0,
                            reply::expired_view(),
                        )
                    } else {
                        &&& r.1 is Read
                        &&& r.0 matches StreamState::Reading(key)
                        &&& key@ == if known {
                            s.key
                        } else {
                            Seq::<u8>::empty()
                        }
                    }
                },
                (StreamState::Reading(key), StreamEvent::Failed) => r.0 is Closed && sends(
                    r.1,
                    key@,
                    0,
                    reply::error_view(StatusCode::BadRequest, "bad request"@),
                ),
                (StreamState::Reading(key), StreamEvent::Arrived(data)) => self.answers_request(
                    key@,
                    data@,
                    session_id,
                    api_key_id@,
                    r.0,
                    r.1,
                ),
                (StreamState::Handling(key, seq), StreamEvent::Returned(result)) => r.0 is Closed
                    && sends(r.1, key@, seq, reply::handler_outcome(reply::result_view(result))),
                _ => r.0 is Closed && r.1 is Stop,
            },
            state is Opened && event is Started ==> {
                let known = self.sessions().contains_key(session_id);
                let s = self.sessions()[session_id];
                &&& known && now@ > s.created_at + self.config().max_lifetime@ ==> r.1 is Refuse
                &&& known && now@ > s.last_used + self.config().idle_timeout@ ==> r.1 is Refuse
                &&& !known || (now@ <= s.created_at + self.config().max_lifetime@ && now@
                    <= s.last_used + self.config().idle_timeout@) ==> r.1 is Read
            },
    {
        match (state, event) {
            (StreamState::Opened, StreamEvent::Started) => match self.begin_stream_at(
                session_id,
                now,
            ) {
                StreamStart::Expired(out) => (
                    StreamState::Closed,
                    StreamAction::Refuse(Refusal::Expired, out),
                ),
                StreamStart::Ready(key) => (StreamState::Reading(key), StreamAction::Read),
            },
            (StreamState::Reading(key), StreamEvent::Failed) => (
                StreamState::Closed,
                StreamAction::Send(reply::bad_request_reply(key.as_slice())),
            ),
            (StreamState::Reading(key), StreamEvent::Arrived(data)) => match self.dispatch(
                key.as_slice(),
                data.as_slice(),
                session_id,
                api_key_id,
            ) {
                Dispatch::Refuse(why, out) => (
                    StreamState::Closed,
                    StreamAction::Refuse(why, out),
                ),
                Dispatch::Call(HandlerType::Sync(handler), request, seq) => (
                    StreamState::Handling(key, seq),
                    StreamAction::Call(handler, request),
                ),
                Dispatch::Call(HandlerType::Stream(handler), request, _) => (
                    StreamState::Closed,
                    StreamAction::TakeOver(handler, request, key),
                ),
            },
            (StreamState::Handling(key, seq), StreamEvent::Returned(result)) => (
                StreamState::Closed,
                StreamAction::Send(reply::handler_reply(key.as_slice(), seq, &result)),
            ),
            _ => (StreamState::Closed, StreamAction::Stop),
        }
    }
}

/// A request that a client put into a frame under the session key reaches the
/// handler of its opcode: with its opcode, what is delivered of its map, and the
/// session that it came in. The answer will go out under its sequence number.
pub proof fn law_request_reaches_handler<K, S, T>(
    server: Server<K, S, T>,
    key: Seq<u8>,
    req: message::RequestView,
    body: Seq<u8>,
    seq: u32,
    session_id: u64,
    api_key_id: Seq<char>,
    next: StreamState,
    action: StreamAction<'_, S, T>,
)
    requires
        message::carries(Some(key), message::request_plaintext(req), body),
        message::sendable(req.payload),
        server.handlers().contains_key(req.opcode),
        server.handlers()[req.opcode] is Sync,
        server.answers_request(
            key,
            wire::frame_bytes(seq, body).skip(4),
            session_id,
            api_key_id,
            next,
            action,
        ),
    ensures
        next matches StreamState::Handling(k, n) && k@ == key && n == seq,
        action matches StreamAction::Call(f, request) && {
            &&& request.opcode == req.opcode
            &&& request.session_id == session_id
            &&& request.api_key_id@ == api_key_id
            &&& match message::delivered(req.payload) {
                Some(m) => request.payload@ == m,
                None => request.payload@.len() == 0,
            }
        },
        action matches StreamAction::Call(f, request) && *f
            == server.handlers()[req.opcode]->Sync_0 && request@ == handed_over(
            message::RequestView {
                opcode: req.opcode,
                payload: message::delivered(req.payload),
            },
            session_id,
            api_key_id,
        ),
{
    message::law_request_roundtrip(Some(key), req, body, seq);
}

/// A request whose opcode has no handler is answered, under its own sequence
/// number, with the status that says so.
pub proof fn law_unknown_opcode_is_answered<K, S, T>(
    server: Server<K, S, T>,
    key: Seq<u8>,
    req: message::RequestView,
    body: Seq<u8>,
    seq: u32,
    session_id: u64,
    api_key_id: Seq<char>,
    next: StreamState,
    action: StreamAction<'_, S, T>,
)
    requires
        message::carries(Some(key), message::request_plaintext(req), body),
        message::sendable(req.payload),
        !server.handlers().contains_key(req.opcode),
        server.answers_request(
            key,
            wire::frame_bytes(seq, body).skip(4),
            session_id,
            api_key_id,
            next,
            action,
        ),
    ensures
        next is Closed,
        refuses(
            action,
            RefusalView::NotFound(req.opcode),
            key,
            seq,
            reply::not_found_view(req.opcode, seq),
        ),
{
    message::law_request_roundtrip(Some(key), req, body, seq);
}

/// A request that a client put into a frame under the session key, and whose opcode has
/// a handler of streams, reaches that handler, which gets the stream with it: with its
/// opcode, what is delivered of its map, the session that it came in, and the session
/// key.
pub proof fn law_request_reaches_stream_handler<K, S, T>(
    server: Server<K, S, T>,
    key: Seq<u8>,
    req: message::RequestView,
    body: Seq<u8>,
    seq: u32,
    session_id: u64,
    api_key_id: Seq<char>,
    next: StreamState,
    action: StreamAction<'_, S, T>,
)
    requires
        message::carries(Some(key), message::request_plaintext(req), body),
        message::sendable(req.payload),
        server.handlers().contains_key(req.opcode),
        server.handlers()[req.opcode] is Stream,
        server.answers_request(
            key,
            wire::frame_bytes(seq, body).skip(4),
            session_id,
            api_key_id,
            next,
            action,
        ),
    ensures
        next is Closed,
        action matches StreamAction::TakeOver(f, request, k) && {
            &&& *f == server.handlers()[req.opcode]->Stream_0
            &&& request.opcode == req.opcode
            &&& match message::delivered(req.payload) {
                Some(m) => request.payload@ == m,
                None => request.payload@.len() == 0,
            }
            &&& request.session_id == session_id
            &&& request.api_key_id@ == api_key_id
            &&& k@ == key
        },
{
    message::law_request_roundtrip(Some(key), req, body, seq);
}

/// Handlers of both kinds get the same request for the same bytes: they differ only in
/// whether the answer or the stream is theirs.
pub proof fn law_handlers_get_the_same_request<K, S, T>(
    server: Server<K, S, T>,
    other: Server<K, S, T>,
    key: Seq<u8>,
    data: Seq<u8>,
    session_id: u64,
    api_key_id: Seq<char>,
    next: StreamState,
    action: StreamAction<'_, S, T>,
    other_next: StreamState,
    other_action: StreamAction<'_, S, T>,
)
    requires
        server.answers_request(key, data, session_id, api_key_id, next, action),
        other.answers_request(key, data, session_id, api_key_id, other_next, other_action),
        action is Call,
        other_action is TakeOver,
    ensures
        action matches StreamAction::Call(_, request) && other_action matches
            StreamAction::TakeOver(_, taken, k) && request@ == taken@ && k@ == key,
{
}

/// A request that cannot be read reaches no handler, whatever handlers there are: the
/// stream is closed, the reason is told to the server, and a client under a session key
/// of 32 bytes reads that its request was bad.
pub proof fn law_unreadable_request_is_answered<K, S, T>(
    server: Server<K, S, T>,
    key: Seq<u8>,
    data: Seq<u8>,
    session_id: u64,
    api_key_id: Seq<char>,
    next: StreamState,
    action: StreamAction<'_, S, T>,
)
    requires
        message::decoded_request(Some(key), data) is Err,
        server.answers_request(key, data, session_id, api_key_id, next, action),
        key.len() == 32,
    ensures
        next is Closed,
        action matches StreamAction::Refuse(why, Some(out)) && why@ == RefusalView::Unreadable(
            message::decoded_request(Some(key), data)->Err_0,
        ) && message::decoded_response(Some(key), out@.skip(4)) == Ok::<
            ResponseView,
            RequestFault,
        >(
            ResponseView {
                status: StatusCode::BadRequest,
                payload: Some(seq![("error"@, ValueView::String("bad request"@))]),
                seq: 0,
            },
        ),
{
    if let StreamAction::Refuse(_, out) = action {
        reply::law_bad_request_is_read(key, reply::reply_view(out));
    }
}

/// A client that asks for an opcode without a handler, under a session key of 32 bytes,
/// reads that it was not found, with the opcode, under the sequence number of its
/// request.
pub proof fn law_unknown_opcode_is_read<K, S, T>(
    server: Server<K, S, T>,
    key: Seq<u8>,
    req: message::RequestView,
    body: Seq<u8>,
    seq: u32,
    session_id: u64,
    api_key_id: Seq<char>,
    next: StreamState,
    action: StreamAction<'_, S, T>,
)
    requires
        message::carries(Some(key), message::request_plaintext(req), body),
        message::sendable(req.payload),
        !server.handlers().contains_key(req.opcode),
        server.answers_request(
            key,
            wire::frame_bytes(seq, body).skip(4),
            session_id,
            api_key_id,
            next,
            action,
        ),
    ensures
        next is Closed,
        action matches StreamAction::Refuse(why, Some(out)) && why@ == RefusalView::NotFound(
            req.opcode,
        ) && message::decoded_response(Some(key), out@.skip(4)) == Ok::<
            ResponseView,
            RequestFault,
        >(
            ResponseView {
                status: StatusCode::NotFound,
                payload: Some(seq![("opcode"@, ValueView::Uint16(req.opcode))]),
                seq,
            },
        ),
{
    message::law_request_roundtrip(Some(key), req, body, seq);
    message::law_body(key, message::request_plaintext(req), body);
    if let StreamAction::Refuse(_, out) = action {
        reply::law_not_found_is_read(key, req.opcode, seq, reply::reply_view(out));
    }
}

/// What is sent when a handler returned is read by the client under the sequence number
/// of its request: the handler's own status and what is delivered of its map, or a
/// report of an internal error where the handler failed.
pub proof fn law_returned_is_read<S, T>(
    action: StreamAction<'_, S, T>,
    key: Seq<u8>,
    seq: u32,
    result: Result<Response, String>,
)
    requires
        sends(action, key, seq, reply::handler_outcome(reply::result_view(result))),
    ensures
        action is Send,
        action matches StreamAction::Send(Some(out)) ==> {
            &&& message::decoded_response(Some(key), out@.skip(4)) matches Ok(read)
            &&& read.seq == seq
            &&& match result {
                Ok(resp) => read.status == resp.status && read.payload == match resp.payload {
                    Some(m) => message::delivered(Some(m@)),
                    None => None,
                },
                Err(_) => read.status == StatusCode::InternalError && read.payload == Some(
                    seq![("error"@, ValueView::String("internal error"@))],
                ),
            }
        },
        key.len() == 32 ==> match result {
            Ok(resp) => message::response_plaintext(resp@).len() + 32 <= 1048576 ==> (action
                matches StreamAction::Send(out) && out is Some),
            Err(_) => action matches StreamAction::Send(out) && out is Some,
        },
{
    if let StreamAction::Send(out) = action {
        if let Some(bytes) = out {
            reply::law_handler_is_answered(key, seq, result, bytes@);
        }
        if key.len() == 32 {
            reply::law_handler_answer_is_owed(key, seq, result, reply::reply_view(out));
        }
    }
}

/// What a client under a session key of 32 bytes reads where its session is over, and
/// where its frame could not be read.
pub proof fn law_refusals_are_read<S, T>(action: StreamAction<'_, S, T>, key: Seq<u8>)
    requires
        key.len() == 32,
    ensures
        refuses(action, RefusalView::Expired, key, 0, reply::expired_view()) ==> (action matches
            StreamAction::Refuse(why, Some(out)) && why is Expired && message::decoded_response(
            Some(key),
            out@.skip(4),
        ) == Ok::<ResponseView, RequestFault>(
            ResponseView { status: StatusCode::SessionExpired, payload: None, seq: 0 },
        )),
        sends(action, key, 0, reply::error_view(StatusCode::BadRequest, "bad request"@)) ==> (
        action matches StreamAction::Send(Some(out)) && message::decoded_response(
            Some(key),
            out@.skip(4),
        ) == Ok::<ResponseView, RequestFault>(
            ResponseView {
                status: StatusCode::BadRequest,
                payload: Some(seq![("error"@, ValueView::String("bad request"@))]),
                seq: 0,
            },
        )),
{
    if refuses(action, RefusalView::Expired, key, 0, reply::expired_view()) {
        if let StreamAction::Refuse(_, out) = action {
            reply::law_expiry_is_read(key, reply::reply_view(out));
        }
    }
    if sends(action, key, 0, reply::error_view(StatusCode::BadRequest, "bad request"@)) {
        if let StreamAction::Send(out) = action {
            reply::law_bad_request_is_read(key, reply::reply_view(out));
        }
    }
}

} // verus!
