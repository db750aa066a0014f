//! What can go wrong with a server.

use crate::session::error;
use crate::session::error::{SessionError, SessionFault};
use crate::text;
use crate::transport::TransportError;
use vstd::prelude::*;

verus! {

/// A failure of a server.
#[derive(Debug)]
pub enum ServerError {
    Config(String),
    Session(SessionError),
    /// Reading or writing failed, with the reason.
    Io(String),
    /// The connection failed, with the reason.
    Connection(String),
    Transport(TransportError),
}

/// A server error, with its text as characters.
pub enum ServerFault {
    Config(Seq<char>),
    Session(SessionFault),
    Io(Seq<char>),
    Connection(Seq<char>),
    Transport(Seq<char>),
}

impl View for ServerError {
    type V = ServerFault;

    open spec fn view(&self) -> ServerFault {
        match self {
            ServerError::Config(s) => ServerFault::Config(s@),
            ServerError::Session(e) => ServerFault::Session(e@),
            ServerError::Io(s) => ServerFault::Io(s@),
            ServerError::Connection(s) => ServerFault::Connection(s@),
            ServerError::Transport(e) => ServerFault::Transport(e->Config_0@),
        }
    }
}

/// The text of a server error.
pub open spec fn server_message(e: ServerFault) -> Seq<char> {
    match e {
        ServerFault::Config(s) => "server: "@ + s,
        ServerFault::Session(f) => "server: session: "@ + error::fault_message(f),
        ServerFault::Io(s) => "server: io: "@ + s,
        ServerFault::Connection(s) => "server: quinn: "@ + s,
        ServerFault::Transport(s) => "server: transport: "@ + ("transport: "@ + s),
    }
}

/// The text of a server's error is that of its cause behind `server: `, with the kind
/// of failure where it is not the server's own.
pub proof fn law_server_message(s: Seq<char>, f: SessionFault)
    ensures
        server_message(ServerFault::Config(s)) == "server: "@ + s,
        server_message(ServerFault::Session(f)) == "server: session: "@ + error::fault_message(f),
        server_message(ServerFault::Io(s)) == "server: io: "@ + s,
        server_message(ServerFault::Connection(s)) == "server: quinn: "@ + s,
        server_message(ServerFault::Transport(s)) == "server: transport: "@ + ("transport: "@ + s),
{
}

impl ServerError {
    /// The error as text.
    pub fn message(&self) -> (s: String)
        ensures
            s@ == server_message(self@),
    {
        match self {
            ServerError::Config(e) => text::concat2("server: ", e.as_str()),
            ServerError::Session(e) => text::concat2("server: session: ", e.message().as_str()),
            ServerError::Io(e) => text::concat2("server: io: ", e.as_str()),
            ServerError::Connection(e) => text::concat2("server: quinn: ", e.as_str()),
            ServerError::Transport(e) => text::concat2(
                "server: transport: ",
                e.message().as_str(),
            ),
        }
    }
}

impl vstd::std_specs::convert::FromSpecImpl<SessionError> for ServerError {
    open spec fn obeys_from_spec() -> bool {
        true
    }

    open spec fn from_spec(e: SessionError) -> ServerError {
        ServerError::Session(e)
    }
}

impl From<SessionError> for ServerError {
    fn from(e: SessionError) -> (r: ServerError) {
        ServerError::Session(e)
    }
}

impl vstd::std_specs::convert::FromSpecImpl<TransportError> for ServerError {
    open spec fn obeys_from_spec() -> bool {
        true
    }

    open spec fn from_spec(e: TransportError) -> ServerError {
        ServerError::Transport(e)
    }
}

impl From<TransportError> for ServerError {
    fn from(e: TransportError) -> (r: ServerError) {
        ServerError::Transport(e)
    }
}

} // verus!
