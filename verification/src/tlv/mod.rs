//! Type-length-value encoding of structured data.
//!
//! A value is one type byte, the payload length as a base-128 varint, and the
//! payload. Arrays and maps hold encoded values in their payload.

pub mod decode;
pub mod encode;
pub mod laws;
pub mod model;
pub mod spelling;
pub mod value;
pub mod varint;

pub use decode::{decode, decode_map, decode_map_opt};
pub use encode::{encode, encode_map};
pub use model::{MAX_DECODE_DEPTH, MAX_PAYLOAD_SIZE};
pub use value::{TlvError, TlvMap, Type, Value};
