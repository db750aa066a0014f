//! What can go wrong with a frame or a message.

use crate::session::error;
use crate::session::error::{SessionError, SessionFault};
use crate::text;
use vstd::prelude::*;

verus! {

/// A failure to read or write a frame.
#[derive(Debug)]
pub enum FrameError {
    /// The input ended before a frame began.
    Eof,
    /// Reading or writing failed, with the reason.
    Io(String),
    /// The frame has so many bytes, and may have so many.
    TooLarge(u32, u32),
    /// The frame has so few bytes.
    TooShort(u32),
}

/// A frame error, with its text as characters.
pub enum FrameFault {
    Eof,
    Io(Seq<char>),
    TooLarge(u32, u32),
    TooShort(u32),
}

impl View for FrameError {
    type V = FrameFault;

    open spec fn view(&self) -> FrameFault {
        match self {
            FrameError::Eof => FrameFault::Eof,
            FrameError::Io(s) => FrameFault::Io(s@),
            FrameError::TooLarge(n, max) => FrameFault::TooLarge(*n, *max),
            FrameError::TooShort(n) => FrameFault::TooShort(*n),
        }
    }
}

/// The text of a frame error.
pub open spec fn frame_message(e: FrameFault) -> Seq<char> {
    match e {
        FrameFault::Eof => "frame: eof"@,
        FrameFault::Io(s) => "frame: io error: "@ + s,
        FrameFault::TooLarge(n, max) => "frame: too large ("@ + text::decimal(n as nat)
            + " bytes, max "@ + text::decimal(max as nat) + ")"@,
        FrameFault::TooShort(n) => "frame: too short ("@ + text::decimal(n as nat) + " bytes)"@,
    }
}

/// The text of a frame error names the size that was met and the size that may be.
pub proof fn law_frame_message(s: Seq<char>, n: u32, max: u32)
    ensures
        frame_message(FrameFault::Eof) == "frame: eof"@,
        frame_message(FrameFault::Io(s)) == "frame: io error: "@ + s,
        frame_message(FrameFault::TooLarge(n, max)) == "frame: too large ("@ + text::decimal(
            n as nat,
        ) + " bytes, max "@ + text::decimal(max as nat) + ")"@,
        frame_message(FrameFault::TooShort(n)) == "frame: too short ("@ + text::decimal(n as nat)
            + " bytes)"@,
{
}

impl FrameError {
    /// The error as text.
    pub fn message(&self) -> (s: String)
        ensures
            s@ == frame_message(self@),
    {
        match self {
            FrameError::Eof => "frame: eof".to_owned(),
            FrameError::Io(e) => text::concat2("frame: io error: ", e.as_str()),
            FrameError::TooLarge(n, max) => {
                let mut s = "frame: too large (".to_owned();
                text::push_decimal(&mut s, *n as u64);
                s.append(" bytes, max ");
                text::push_decimal(&mut s, *max as u64);
                s.append(")");
                s
            },
            FrameError::TooShort(n) => {
                let mut s = "frame: too short (".to_owned();
                text::push_decimal(&mut s, *n as u64);
                s.append(" bytes)");
                s
            },
        }
    }
}

/// A failure to write or read a request or a response.
#[derive(Debug)]
pub enum RequestError {
    Frame(FrameError),
    Session(SessionError),
    TooShort,
    UnknownStatus(u8),
}

/// A request error, with its text as characters.
pub enum RequestFault {
    Frame(FrameFault),
    Session(SessionFault),
    TooShort,
    UnknownStatus(u8),
}

impl View for RequestError {
    type V = RequestFault;

    open spec fn view(&self) -> RequestFault {
        match self {
            RequestError::Frame(e) => RequestFault::Frame(e@),
            RequestError::Session(e) => RequestFault::Session(e@),
            RequestError::TooShort => RequestFault::TooShort,
            RequestError::UnknownStatus(b) => RequestFault::UnknownStatus(*b),
        }
    }
}

/// The text of a request error.
pub open spec fn request_message(e: RequestFault) -> Seq<char> {
    match e {
        RequestFault::Frame(f) => "frame: "@ + frame_message(f),
        RequestFault::Session(s) => "session: "@ + error::fault_message(s),
        RequestFault::TooShort => "frame: request too short"@,
        RequestFault::UnknownStatus(b) => "frame: unknown status code "@ + text::decimal(b as nat),
    }
}

/// The text of a request error is that of its cause, with where it comes from.
pub proof fn law_request_message(f: FrameFault, s: SessionFault, b: u8)
    ensures
        request_message(RequestFault::Frame(f)) == "frame: "@ + frame_message(f),
        request_message(RequestFault::Session(s)) == "session: "@ + error::fault_message(s),
        request_message(RequestFault::TooShort) == "frame: request too short"@,
        request_message(RequestFault::UnknownStatus(b)) == "frame: unknown status code "@
            + text::decimal(b as nat),
{
}

impl RequestError {
    /// The error as text.
    pub fn message(&self) -> (s: String)
        ensures
            s@ == request_message(self@),
    {
        match self {
            RequestError::Frame(e) => text::concat2("frame: ", e.message().as_str()),
            RequestError::Session(e) => text::concat2("session: ", e.message().as_str()),
            RequestError::TooShort => "frame: request too short".to_owned(),
            RequestError::UnknownStatus(b) => {
                let mut s = "frame: unknown status code ".to_owned();
                text::push_decimal(&mut s, *b as u64);
                s
            },
        }
    }
}

impl vstd::std_specs::convert::FromSpecImpl<FrameError> for RequestError {
    open spec fn obeys_from_spec() -> bool {
        true
    }

    open spec fn from_spec(e: FrameError) -> RequestError {
        RequestError::Frame(e)
    }
}

impl From<FrameError> for RequestError {
    fn from(e: FrameError) -> (r: RequestError) {
        RequestError::Frame(e)
    }
}

impl vstd::std_specs::convert::FromSpecImpl<SessionError> for RequestError {
    open spec fn obeys_from_spec() -> bool {
        true
    }

    open spec fn from_spec(e: SessionError) -> RequestError {
        RequestError::Session(e)
    }
}

impl From<SessionError> for RequestError {
    fn from(e: SessionError) -> (r: RequestError) {
        RequestError::Session(e)
    }
}

} // verus!
