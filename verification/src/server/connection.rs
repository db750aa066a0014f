//! One connection, step by step: the handshake, then the life of its session.

use crate::server::error::{ServerError, ServerFault};
use crate::server::routing;
use crate::server::routing::Server;
use crate::session::handshake;
use crate::session::store::{ApiKeyStore, Session, SessionView};
use crate::time::Instant;
use vstd::prelude::*;

verus! {

/// Where a connection stands.
pub enum ConnState {
    /// The length of the hello is being read.
    Header,
    /// So many bytes of the hello are being read.
    Body(usize),
    /// The answer is being sent; the session begins with it.
    Answering(Session),
    /// Streams of the session are being accepted.
    Serving,
    /// There is nothing more to do.
    Closed,
}

/// What happened on a connection.
pub enum ConnEvent {
    /// The length of the hello arrived.
    Header([u8; 2]),
    /// The rest of the hello arrived.
    Body(Vec<u8>),
    /// The answer was sent.
    Answered,
    /// The connection ended.
    Ended,
}

/// What to do on a connection.
pub enum ConnAction {
    /// Read so many bytes.
    ReadBody(usize),
    /// Send the answer.
    Send(Vec<u8>),
    /// Accept streams.
    Serve,
    /// End the connection with an error.
    Fail(ServerError),
    /// Nothing.
    Stop,
}

/// The connection is closed with an error.
pub open spec fn fails(r: (ConnState, ConnAction), fault: ServerFault) -> bool {
    &&& r.0 is Closed
    &&& r.1 matches ConnAction::Fail(e)
    &&& e@ == fault
}

/// A connection that fails is closed, and ends with the error.
pub proof fn law_fails(r: (ConnState, ConnAction), fault: ServerFault)
    requires
        fails(r, fault),
    ensures
        r.0 is Closed,
        r.1 matches ConnAction::Fail(e) && e@ == fault,
{
}

impl<K: ApiKeyStore, S, T> Server<K, S, T> {
    /// The next step of the connection with the number `session_id`. A session
    /// is kept, and its age counts, from the moment the answer to its hello was
    /// sent; it is forgotten when its connection ends.
    pub fn connection_step(
        &mut self,
        state: ConnState,
        event: ConnEvent,
        session_id: u64,
        now: Instant,
    ) -> (r: (ConnState, ConnAction))
        ensures
            match (state, event) {
                (ConnState::Header, ConnEvent::Header(header)) => {
                    &&& final(self).sessions() == old(self).sessions()
                    &&& match handshake::body_len(header@) {
                        Ok(n) => {
                            &&& r.0 matches ConnState::Body(len)
                            &&& len == n
                            &&& r.1 matches ConnAction::ReadBody(m)
                            &&& m == n
                        },
                        Err(_) => fails(r, ServerFault::Config("invalid key length"@)),
                    }
                },
                (ConnState::Body(n), ConnEvent::Body(body)) => {
                    &&& final(self).sessions() == old(self).sessions()
                    &&& if n != body@.len() || n < 32 {
                        r.0 is Closed && r.1 is Stop
                    } else {
                        exists|found: Option<Seq<u8>>|
                            old(self).key_store().may_answer(routing::hello_name(body@), found)
                                && match #[trigger] routing::hello_outcome(
                                old(self).secret(),
                                old(self).public(),
                                body@,
                                found,
                                session_id,
                                now@,
                            ) {
                                Ok((session, answer)) => {
                                    &&& r.0 matches ConnState::Answering(s)
                                    &&& s@ == session
                                    &&& r.1 matches ConnAction::Send(out)
                                    &&& out@ == answer
                                },
                                Err(fault) => fails(r, fault),
                            }
                    }
                },
                (ConnState::Answering(session), ConnEvent::Answered) => {
                    &&& r.0 is Serving
                    &&& r.1 is Serve
                    &&& final(self).sessions() == old(self).sessions().insert(
                        session.id,
                        SessionView { created_at: now@, last_used: now@, ..session@ },
                    )
                },
                (ConnState::Serving, ConnEvent::Ended) => {
                    &&& r.0 is Closed
                    &&& r.1 is Stop
                    &&& final(self).sessions() == old(self).sessions().remove(session_id)
                },
                _ => {
                    &&& r.0 is Closed
                    &&& r.1 is Stop
                    &&& final(self).sessions() == old(self).sessions()
                },
            },
            final(self).same_but_sessions(old(self)),
    {
        match (state, event) {
            (ConnState::Header, ConnEvent::Header(header)) => match Self::hello_len(&header) {
                Ok(n) => (ConnState::Body(n), ConnAction::ReadBody(n)),
                Err(e) => (ConnState::Closed, ConnAction::Fail(e)),
            },
            (ConnState::Body(n), ConnEvent::Body(body)) => {
                if n != body.len() || n < 32 {
                    return (ConnState::Closed, ConnAction::Stop);
                }
                match self.answer_hello(body.as_slice(), session_id, now) {
                    Ok((session, answer)) => (
                        ConnState::Answering(session),
                        ConnAction::Send(answer),
                    ),
                    Err(e) => (ConnState::Closed, ConnAction::Fail(e)),
                }
            },
            (ConnState::Answering(session), ConnEvent::Answered) => {
                self.establish(
                    Session::new_at(session.id, session.api_key_id, session.key, now),
                );
                (ConnState::Serving, ConnAction::Serve)
            },
            (ConnState::Serving, ConnEvent::Ended) => {
                self.close(session_id);
                (ConnState::Closed, ConnAction::Stop)
            },
            _ => (ConnState::Closed, ConnAction::Stop),
        }
    }
}

} // verus!
