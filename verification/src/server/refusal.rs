//! Why a server does not hand a request to a handler.

use crate::frame::error;
use crate::frame::error::{RequestError, RequestFault};
use crate::text;
use vstd::prelude::*;

verus! {

/// Why a server does not hand a request to a handler.
#[derive(Debug)]
pub enum Refusal {
    /// The session is over.
    Expired,
    /// The request could not be read.
    Unreadable(RequestError),
    /// The opcode has no handler.
    NotFound(u16),
}

/// A refusal as plain mathematics.
pub enum RefusalView {
    Expired,
    Unreadable(RequestFault),
    NotFound(u16),
}

impl View for Refusal {
    type V = RefusalView;

    open spec fn view(&self) -> RefusalView {
        match self {
            Refusal::Expired => RefusalView::Expired,
            Refusal::Unreadable(e) => RefusalView::Unreadable(e@),
            Refusal::NotFound(opcode) => RefusalView::NotFound(*opcode),
        }
    }
}

/// The warning about a refusal in a session.
pub open spec fn refusal_message(why: RefusalView, session_id: u64) -> Seq<char> {
    "session["@ + text::decimal(session_id as nat) + match why {
        RefusalView::Expired => "] expired"@,
        RefusalView::Unreadable(fault) => "] read request: "@ + error::request_message(fault),
        RefusalView::NotFound(opcode) => "] opcode=0x"@ + text::four_hex_digits(opcode)
            + " not found"@,
    }
}

impl Refusal {
    /// The warning about this refusal in a session.
    pub fn message(&self, session_id: u64) -> (s: String)
        ensures
            s@ == refusal_message(self@, session_id),
            match *self {
                Refusal::Expired => s@ == "session["@ + text::decimal(session_id as nat)
                    + "] expired"@,
                Refusal::Unreadable(e) => s@ == "session["@ + text::decimal(session_id as nat) + (
                "] read request: "@ + error::request_message(e@)),
                Refusal::NotFound(opcode) => s@ == "session["@ + text::decimal(session_id as nat)
                    + ("] opcode=0x"@ + text::four_hex_digits(opcode) + " not found"@),
            },
    {
        let mut s = "session[".to_owned();
        text::push_decimal(&mut s, session_id);
        let reason = match self {
            Refusal::Expired => "] expired".to_owned(),
            Refusal::Unreadable(e) => text::concat2("] read request: ", e.message().as_str()),
            Refusal::NotFound(opcode) => {
                let mut reason = "] opcode=0x".to_owned();
                text::push_four_hex_digits(&mut reason, *opcode);
                reason.append(" not found");
                reason
            },
        };
        s.append(reason.as_str());
        s
    }
}

} // verus!
