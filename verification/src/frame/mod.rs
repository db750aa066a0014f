//! Frames on the wire, and the requests and responses in them.
//!
//! A frame is its length in four bytes, a sequence number in four bytes, and
//! data. The data of a request is an opcode and an optional map; that of a
//! response is a status and an optional map. Both may be encrypted.

pub mod error;
pub mod message;
pub mod status;
pub mod wire;

pub use error::{FrameError, RequestError};
pub use message::{
    decode_request, decode_response, encode_request_body, encode_response_body, parse_request,
    parse_response, Request, Response,
};
pub use status::StatusCode;
pub use wire::{
    encode_frame, parse_frame_data, read_frame, write_frame, Frame, FRAME_MIN_DATA, FRAME_OVERHEAD,
    MAX_FRAME_SIZE,
};
