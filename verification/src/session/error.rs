//! What can go wrong with a session.

use crate::text;
use vstd::prelude::*;

verus! {

/// A failure of key derivation, of the cipher's set-up, or of anything else.
#[derive(Debug)]
pub enum SessionError {
    Hkdf(&'static str),
    Aes(&'static str),
    Crypto(String),
}

/// A session error, with its text as characters.
pub enum SessionFault {
    Hkdf(Seq<char>),
    Aes(Seq<char>),
    Crypto(Seq<char>),
}

impl View for SessionError {
    type V = SessionFault;

    open spec fn view(&self) -> SessionFault {
        match self {
            SessionError::Hkdf(s) => SessionFault::Hkdf(s@),
            SessionError::Aes(s) => SessionFault::Aes(s@),
            SessionError::Crypto(s) => SessionFault::Crypto(s@),
        }
    }
}

/// The text of a session error.
pub open spec fn fault_message(e: SessionFault) -> Seq<char> {
    match e {
        SessionFault::Hkdf(s) => "hkdf: "@ + s,
        SessionFault::Aes(s) => "aes: "@ + s,
        SessionFault::Crypto(s) => s,
    }
}

/// The text of a session error is its own, behind the name of what failed where that
/// was the derivation of a key or the set-up of the cipher.
pub proof fn law_fault_message(s: Seq<char>)
    ensures
        fault_message(SessionFault::Hkdf(s)) == "hkdf: "@ + s,
        fault_message(SessionFault::Aes(s)) == "aes: "@ + s,
        fault_message(SessionFault::Crypto(s)) == s,
{
}

impl SessionError {
    /// The error as text.
    pub fn message(&self) -> (s: String)
        ensures
            s@ == fault_message(self@),
    {
        match self {
            SessionError::Hkdf(s) => text::concat2("hkdf: ", s),
            SessionError::Aes(s) => text::concat2("aes: ", s),
            SessionError::Crypto(s) => s.clone(),
        }
    }
}

} // verus!
