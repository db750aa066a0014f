//! A request as a handler sees it.

use crate::frame::message::MapView;
use crate::tlv::TlvMap;
use vstd::prelude::*;

verus! {

/// A request, with the session that it came in. A request without a map has an
/// empty one here.
#[derive(Debug)]
pub struct Request {
    pub opcode: u16,
    pub payload: TlvMap,
    pub session_id: u64,
    pub api_key_id: String,
}

/// A request as plain mathematics.
pub struct RequestView {
    pub opcode: u16,
    pub payload: MapView,
    pub session_id: u64,
    pub api_key_id: Seq<char>,
}

impl View for Request {
    type V = RequestView;

    open spec fn view(&self) -> RequestView {
        RequestView {
            opcode: self.opcode,
            payload: self.payload@,
            session_id: self.session_id,
            api_key_id: self.api_key_id@,
        }
    }
}

/// The view of a request holds all of it.
pub proof fn law_request_view(req: Request)
    ensures
        req@.opcode == req.opcode,
        req@.payload == req.payload@,
        req@.session_id == req.session_id,
        req@.api_key_id == req.api_key_id@,
{
}

impl Clone for Request {
    fn clone(&self) -> (r: Request)
        ensures
            r@ == self@,
    {
        Request {
            opcode: self.opcode,
            payload: self.payload.clone(),
            session_id: self.session_id,
            api_key_id: self.api_key_id.clone(),
        }
    }
}

} // verus!
