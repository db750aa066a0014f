//! What a value is, apart from how it is held in memory, and which bytes stand
//! for it.

use crate::assoc;
use crate::bytes;
use crate::text;
use crate::tlv::value;
use crate::tlv::value::Type;
use crate::tlv::varint;
use vstd::prelude::*;
use vstd::utf8;

verus! {

/// The most bytes that a payload may have when it is read.
pub const MAX_PAYLOAD_SIZE: u64 = 524288;

/// How deep values may be nested when they are read.
pub const MAX_DECODE_DEPTH: usize = 64;

/// A value as plain mathematics: text as characters, sequences of values, and
/// spans of time in nanoseconds.
pub enum ValueView {
    String(Seq<char>),
    Bytes(Seq<u8>),
    Uint8(u8),
    Uint16(u16),
    Uint32(u32),
    Uint64(u64),
    Int32(i32),
    Int64(i64),
    Float32(u32),
    Float64(u64),
    Bool(bool),
    Array(Seq<ValueView>),
    TlvMap(Seq<(Seq<char>, ValueView)>),
    Null,
    Timestamp(nat),
}

/// The kind of a value.
pub open spec fn type_of(v: ValueView) -> Type {
    match v {
        ValueView::String(_) => Type::String,
        ValueView::Bytes(_) => Type::Bytes,
        ValueView::Uint8(_) => Type::Uint8,
        ValueView::Uint16(_) => Type::Uint16,
        ValueView::Uint32(_) => Type::Uint32,
        ValueView::Uint64(_) => Type::Uint64,
        ValueView::Int32(_) => Type::Int32,
        ValueView::Int64(_) => Type::Int64,
        ValueView::Float32(_) => Type::Float32,
        ValueView::Float64(_) => Type::Float64,
        ValueView::Bool(_) => Type::Bool,
        ValueView::Array(_) => Type::Array,
        ValueView::TlvMap(_) => Type::TlvMap,
        ValueView::Null => Type::Null,
        ValueView::Timestamp(_) => Type::Timestamp,
    }
}

/// The two's complement of `n` in `width` bits, where `modulus` is 2 to the
/// `width`.
pub open spec fn twos_complement(n: int, modulus: nat) -> nat {
    if n < 0 {
        (n + modulus) as nat
    } else {
        n as nat
    }
}

/// The number whose two's complement is `bits`.
pub open spec fn from_twos_complement(bits: nat, modulus: nat) -> int {
    if bits < modulus / 2 {
        bits as int
    } else {
        bits - modulus
    }
}

// ── Encoding ────────────────────────────────────────────────

/// The payload bytes of a value. Numbers are big-endian; a span of time is its
/// whole milliseconds, modulo 2 to the 64.
pub open spec fn payload(v: ValueView) -> Seq<u8>
    decreases v, 0nat,
{
    match v {
        ValueView::String(s) => utf8::encode_utf8(s),
        ValueView::Bytes(b) => b,
        ValueView::Uint8(n) => bytes::be(n as nat, 1),
        ValueView::Uint16(n) => bytes::be(n as nat, 2),
        ValueView::Uint32(n) => bytes::be(n as nat, 4),
        ValueView::Uint64(n) => bytes::be(n as nat, 8),
        ValueView::Int32(n) => bytes::be(twos_complement(n as int, 0x1_0000_0000), 4),
        ValueView::Int64(n) => bytes::be(twos_complement(n as int, 0x1_0000_0000_0000_0000), 8),
        ValueView::Float32(bits) => bytes::be(bits as nat, 4),
        ValueView::Float64(bits) => bytes::be(bits as nat, 8),
        ValueView::Bool(b) => bytes::be(
            if b {
                1
            } else {
                0
            },
            1,
        ),
        ValueView::Array(items) => items_encoding(items),
        ValueView::TlvMap(entries) => entries_encoding(entries),
        ValueView::Null => Seq::empty(),
        ValueView::Timestamp(nanos) => bytes::be((nanos / 1_000_000) % 0x1_0000_0000_0000_0000, 8),
    }
}

/// A type byte, the payload length, and the payload.
pub open spec fn framed(t: Type, p: Seq<u8>) -> Seq<u8> {
    seq![value::type_code(t)] + varint::varint(p.len()) + p
}

/// The bytes of a value.
pub open spec fn encoding(v: ValueView) -> Seq<u8>
    decreases v, 1nat,
{
    framed(type_of(v), payload(v))
}

/// The bytes of values, one after the other.
pub open spec fn items_encoding(items: Seq<ValueView>) -> Seq<u8>
    decreases items, 0nat,
{
    if items.len() == 0 {
        Seq::empty()
    } else {
        encoding(items[0]) + items_encoding(items.drop_first())
    }
}

/// The bytes of named values, each name as text before its value.
pub open spec fn entries_encoding(entries: Seq<(Seq<char>, ValueView)>) -> Seq<u8>
    decreases entries, 0nat,
{
    if entries.len() == 0 {
        Seq::empty()
    } else {
        framed(Type::String, utf8::encode_utf8(entries[0].0)) + encoding(entries[0].1)
            + entries_encoding(entries.drop_first())
    }
}

// ── Decoding ────────────────────────────────────────────────

/// What stands at the start of `s`: the kind of the value, and where its
/// payload begins and ends; or why there is no value.
pub open spec fn parse_header(s: Seq<u8>) -> Result<(Type, nat, nat), Seq<char>> {
    if s.len() == 0 {
        Err("tlv: unexpected EOF"@)
    } else {
        match value::type_from(s[0]) {
            None => Err("tlv: unknown type 0x"@ + text::hex(seq![s[0]])),
            Some(t) => match varint::parse_varint(s.skip(1)) {
                Err(e) => Err("tlv: decode varint: "@ + e),
                Ok((len, k)) => if len > MAX_PAYLOAD_SIZE {
                    Err(too_large(len))
                } else if 1 + k + len > s.len() {
                    Err("tlv: payload exceeds buffer"@)
                } else {
                    Ok((t, 1 + k, 1 + k + len))
                },
            },
        }
    }
}

/// The message for a payload of `len` bytes, where that is over the limit.
pub open spec fn too_large(len: nat) -> Seq<char> {
    "tlv: payload too large ("@ + text::decimal(len) + " bytes, max 524288)"@
}

/// The message for a value nested `depth` deep, where that is over the limit.
pub open spec fn too_deep(depth: nat) -> Seq<char> {
    "tlv: nested depth "@ + text::decimal(depth) + " exceeds max 64"@
}

/// How many bytes the value at the start of `s` takes; all of them, where no
/// value can be made out.
pub open spec fn value_len(s: Seq<u8>) -> nat {
    match parse_header(s) {
        Ok((_, _, end)) => end,
        Err(_) => s.len(),
    }
}

/// The number in the first `width` bytes of a payload, or the message.
pub open spec fn parse_number(p: Seq<u8>, width: nat, short: Seq<char>) -> Result<
    nat,
    Seq<char>,
> {
    if p.len() < width {
        Err(short)
    } else {
        Ok(bytes::from_be(p.take(width as int)))
    }
}

/// The value that a payload of a kind spells, or why it spells none. A number
/// takes the front of its payload, and what follows it is ignored.
pub open spec fn parse_payload(t: Type, p: Seq<u8>, depth: nat) -> Result<ValueView, Seq<char>>
    decreases p.len(), 2nat,
{
    match t {
        Type::String => if utf8::valid_utf8(p) {
            Ok(ValueView::String(utf8::decode_utf8(p)))
        } else {
            Err("tlv: invalid utf-8 string"@)
        },
        Type::Bytes => Ok(ValueView::Bytes(p)),
        Type::Uint8 => match parse_number(p, 1, "tlv: uint8 needs 1 byte"@) {
            Ok(n) => Ok(ValueView::Uint8(n as u8)),
            Err(e) => Err(e),
        },
        Type::Uint16 => match parse_number(p, 2, "tlv: uint16 needs 2 bytes"@) {
            Ok(n) => Ok(ValueView::Uint16(n as u16)),
            Err(e) => Err(e),
        },
        Type::Uint32 => match parse_number(p, 4, "tlv: uint32 needs 4 bytes"@) {
            Ok(n) => Ok(ValueView::Uint32(n as u32)),
            Err(e) => Err(e),
        },
        Type::Uint64 => match parse_number(p, 8, "tlv: uint64 needs 8 bytes"@) {
            Ok(n) => Ok(ValueView::Uint64(n as u64)),
            Err(e) => Err(e),
        },
        Type::Int32 => match parse_number(p, 4, "tlv: int32 needs 4 bytes"@) {
            Ok(n) => Ok(ValueView::Int32(from_twos_complement(n, 0x1_0000_0000) as i32)),
            Err(e) => Err(e),
        },
        Type::Int64 => match parse_number(p, 8, "tlv: int64 needs 8 bytes"@) {
            Ok(n) => Ok(ValueView::Int64(from_twos_complement(n, 0x1_0000_0000_0000_0000) as i64)),
            Err(e) => Err(e),
        },
        Type::Float32 => match parse_number(p, 4, "tlv: float32 needs 4 bytes"@) {
            Ok(n) => Ok(ValueView::Float32(n as u32)),
            Err(e) => Err(e),
        },
        Type::Float64 => match parse_number(p, 8, "tlv: float64 needs 8 bytes"@) {
            Ok(n) => Ok(ValueView::Float64(n as u64)),
            Err(e) => Err(e),
        },
        Type::Bool => match parse_number(p, 1, "tlv: bool needs 1 byte"@) {
            Ok(n) => Ok(ValueView::Bool(n != 0)),
            Err(e) => Err(e),
        },
        Type::Array => match parse_items(p, depth + 1) {
            Ok(items) => Ok(ValueView::Array(items)),
            Err(e) => Err(e),
        },
        Type::TlvMap => match parse_entries(p, depth + 1, Seq::empty()) {
            Ok(entries) => Ok(ValueView::TlvMap(entries)),
            Err(e) => Err(e),
        },
        Type::Null => Ok(ValueView::Null),
        Type::Timestamp => match parse_number(p, 8, "tlv: timestamp needs 8 bytes"@) {
            Ok(n) => Ok(ValueView::Timestamp(n * 1_000_000)),
            Err(e) => Err(e),
        },
    }
}

/// The value at the start of `s`, nested `depth` deep, or why there is none.
pub open spec fn parse_value(s: Seq<u8>, depth: nat) -> Result<ValueView, Seq<char>>
    decreases s.len(), 0nat,
{
    if depth > MAX_DECODE_DEPTH {
        Err(too_deep(depth))
    } else {
        match parse_header(s) {
            Err(e) => Err(e),
            Ok((t, start, end)) => parse_payload(t, s.subrange(start as int, end as int), depth),
        }
    }
}

/// The values that fill `p`, one after the other, or what is wrong with the
/// first that cannot be read.
pub open spec fn parse_items(p: Seq<u8>, depth: nat) -> Result<Seq<ValueView>, Seq<char>>
    decreases p.len(), 1nat,
{
    if p.len() == 0 {
        Ok(Seq::empty())
    } else {
        match parse_value(p, depth) {
            Err(e) => Err(e),
            Ok(v) => match parse_items(p.skip(value_len(p) as int), depth) {
                Err(e) => Err(e),
                Ok(rest) => Ok(seq![v] + rest),
            },
        }
    }
}

/// The named values that fill `p`, set one after the other on top of those in
/// `before`, or what is wrong with the first that cannot be read.
pub open spec fn parse_entries(
    p: Seq<u8>,
    depth: nat,
    before: Seq<(Seq<char>, ValueView)>,
) -> Result<Seq<(Seq<char>, ValueView)>, Seq<char>>
    decreases p.len(), 1nat,
{
    if p.len() == 0 {
        Ok(before)
    } else {
        let rest = p.skip(value_len(p) as int);
        match parse_value(p, depth) {
            Err(e) => Err(e),
            Ok(ValueView::String(key)) => if rest.len() == 0 {
                Err("tlv: map entry missing value for key '"@ + key + "'"@)
            } else {
                match parse_value(rest, depth) {
                    Err(e) => Err(e),
                    Ok(v) => parse_entries(
                        rest.skip(value_len(rest) as int),
                        depth,
                        assoc::upsert(before, key, v),
                    ),
                }
            },
            Ok(_) => Err("tlv: map key must be string"@),
        }
    }
}

/// What reading one value from the start of `s` gives.
pub open spec fn decoded(s: Seq<u8>) -> Result<ValueView, Seq<char>> {
    parse_value(s, 0)
}

/// What reading a map from the start of `s` gives.
pub open spec fn decoded_map(s: Seq<u8>) -> Result<Seq<(Seq<char>, ValueView)>, Seq<char>> {
    match decoded(s) {
        Err(e) => Err(e),
        Ok(ValueView::TlvMap(entries)) => Ok(entries),
        Ok(_) => Err("tlv: expected map"@),
    }
}

} // verus!
