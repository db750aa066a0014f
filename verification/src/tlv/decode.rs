//! Reading values from bytes.

use crate::bytes;
use crate::text;
use crate::time::Duration;
use crate::tlv::laws;
use crate::tlv::model;
use crate::tlv::model::{ValueView, MAX_DECODE_DEPTH, MAX_PAYLOAD_SIZE};
use crate::tlv::value;
use crate::tlv::value::{TlvMap, Type, Value};
use crate::tlv::varint;
use vstd::arithmetic::power;
use vstd::prelude::*;
use vstd::slice::slice_subrange;

verus! {

/// Read what stands before a payload: the kind of the value, and where the
/// payload begins and ends.
fn decode_header(buf: &[u8]) -> (r: Result<(Type, usize, usize), String>)
    ensures
        match r {
            Ok((t, start, end)) => model::parse_header(buf@) == Ok::<(Type, nat, nat), Seq<char>>(
                (t, start as nat, end as nat),
            ) && start <= end <= buf@.len(),
            Err(e) => model::parse_header(buf@) == Err::<(Type, nat, nat), Seq<char>>(e@),
        },
{
    if buf.len() == 0 {
        return Err("tlv: unexpected EOF".to_owned());
    }
    let code: u8 = buf[0];
    let t = match Type::from_u8(code) {
        Some(t) => t,
        None => {
            let mut e = "tlv: unknown type 0x".to_owned();
            text::push_hex_byte(&mut e, code);
            return Err(e);
        },
    };
    let tail = slice_subrange(buf, 1, buf.len());
    proof {
        assert(tail@ =~= buf@.skip(1));
        varint::lemma_parse_varint_len(tail@);
    }
    match varint::decode_varint(tail) {
        Err(e) => Err(text::concat2("tlv: decode varint: ", e.as_str())),
        Ok((len, advance)) => {
            if len > MAX_PAYLOAD_SIZE {
                let mut e = "tlv: payload too large (".to_owned();
                text::push_decimal(&mut e, len);
                e.append(" bytes, max 524288)");
                return Err(e);
            }
            let start: usize = 1 + advance;
            if len as usize > buf.len() - start {
                return Err("tlv: payload exceeds buffer".to_owned());
            }
            Ok((t, start, start + len as usize))
        },
    }
}

/// Read one value at the start of `buf`, nested `depth` deep: the value, and
/// how many bytes it takes. It depends on those bytes alone.
pub fn decode_value(buf: &[u8], depth: usize) -> (r: Result<(Value, usize), String>)
    ensures
        match r {
            Ok((v, n)) => model::parse_value(buf@, depth as nat) == Ok::<ValueView, Seq<char>>(v@)
                && n == model::value_len(buf@) && 2 <= n <= buf@.len() && model::parse_value(
                buf@.take(n as int),
                depth as nat,
            ) == Ok::<ValueView, Seq<char>>(v@) && model::value_len(buf@.take(n as int)) == n,
            Err(e) => model::parse_value(buf@, depth as nat) == Err::<ValueView, Seq<char>>(e@),
        },
    decreases
        if depth <= 65 {
            65 - depth
        } else {
            0
        },
        2nat,
{
    if depth > MAX_DECODE_DEPTH {
        let mut e = "tlv: nested depth ".to_owned();
        text::push_decimal(&mut e, depth as u64);
        e.append(" exceeds max 64");
        return Err(e);
    }
    match decode_header(buf) {
        Err(e) => Err(e),
        Ok((t, start, end)) => {
            let payload = slice_subrange(buf, start, end);
            match decode_payload(t, payload, depth) {
                Err(e) => Err(e),
                Ok(v) => {
                    proof {
                        laws::law_value_depends_on_its_bytes(buf@, depth as nat, Seq::empty());
                        let own = buf@.take(end as int);
                        assert(own + Seq::<u8>::empty() =~= own);
                    }
                    Ok((v, end))
                },
            }
        },
    }
}

/// Read the number in the first `width` bytes of a payload.
fn decode_number(payload: &[u8], width: usize, short: &str) -> (r: Result<u64, String>)
    requires
        width == 1 || width == 2 || width == 4 || width == 8,
    ensures
        match r {
            Ok(n) => model::parse_number(payload@, width as nat, short@) == Ok::<nat, Seq<char>>(
                n as nat,
            ) && n < power::pow(256, width as nat),
            Err(e) => model::parse_number(payload@, width as nat, short@) == Err::<nat, Seq<char>>(
                e@,
            ),
        },
{
    if payload.len() < width {
        return Err(short.to_owned());
    }
    let front = slice_subrange(payload, 0, width);
    proof {
        assert(front@ =~= payload@.take(width as int));
        bytes::lemma_from_be_bound(front@);
    }
    Ok(bytes::read_be(front))
}

/// Read the payload of a value of kind `t`.
fn decode_payload(t: Type, payload: &[u8], depth: usize) -> (r: Result<Value, String>)
    requires
        depth <= MAX_DECODE_DEPTH,
    ensures
        match r {
            Ok(v) => model::parse_payload(t, payload@, depth as nat) == Ok::<ValueView, Seq<char>>(
                v@,
            ),
            Err(e) => model::parse_payload(t, payload@, depth as nat) == Err::<
                ValueView,
                Seq<char>,
            >(e@),
        },
    decreases 65 - depth, 1nat,
{
    proof {
        bytes::lemma_pow256();
    }
    match t {
        Type::String => match text::string_from_utf8(bytes::to_vec(payload)) {
            Some(s) => Ok(Value::String(s)),
            None => Err("tlv: invalid utf-8 string".to_owned()),
        },
        Type::Bytes => Ok(Value::Bytes(bytes::to_vec(payload))),
        Type::Uint8 => match decode_number(payload, 1, "tlv: uint8 needs 1 byte") {
            Ok(n) => Ok(Value::Uint8(n as u8)),
            Err(e) => Err(e),
        },
        Type::Uint16 => match decode_number(payload, 2, "tlv: uint16 needs 2 bytes") {
            Ok(n) => Ok(Value::Uint16(n as u16)),
            Err(e) => Err(e),
        },
        Type::Uint32 => match decode_number(payload, 4, "tlv: uint32 needs 4 bytes") {
            Ok(n) => Ok(Value::Uint32(n as u32)),
            Err(e) => Err(e),
        },
        Type::Uint64 => match decode_number(payload, 8, "tlv: uint64 needs 8 bytes") {
            Ok(n) => Ok(Value::Uint64(n)),
            Err(e) => Err(e),
        },
        Type::Int32 => match decode_number(payload, 4, "tlv: int32 needs 4 bytes") {
            Ok(n) => {
                let signed: i64 = if n < 0x8000_0000 {
                    n as i64
                } else {
                    n as i64 - 0x1_0000_0000
                };
                Ok(Value::Int32(signed as i32))
            },
            Err(e) => Err(e),
        },
        Type::Int64 => match decode_number(payload, 8, "tlv: int64 needs 8 bytes") {
            Ok(n) => {
                let signed: i128 = if n < 0x8000_0000_0000_0000 {
                    n as i128
                } else {
                    n as i128 - 0x1_0000_0000_0000_0000
                };
                Ok(Value::Int64(signed as i64))
            },
            Err(e) => Err(e),
        },
        Type::Float32 => match decode_number(payload, 4, "tlv: float32 needs 4 bytes") {
            Ok(n) => Ok(Value::Float32(n as u32)),
            Err(e) => Err(e),
        },
        Type::Float64 => match decode_number(payload, 8, "tlv: float64 needs 8 bytes") {
            Ok(n) => Ok(Value::Float64(n)),
            Err(e) => Err(e),
        },
        Type::Bool => match decode_number(payload, 1, "tlv: bool needs 1 byte") {
            Ok(n) => Ok(Value::Bool(n != 0)),
            Err(e) => Err(e),
        },
        Type::Array => match decode_items(payload, depth + 1) {
            Ok(items) => {
                let v = Value::Array(items);
                assert(v@ == ValueView::Array(value::items_view(v->Array_0@)));
                Ok(v)
            },
            Err(e) => Err(e),
        },
        Type::TlvMap => match decode_entries(payload, depth + 1) {
            Ok(m) => Ok(Value::TlvMap(m)),
            Err(e) => Err(e),
        },
        Type::Null => Ok(Value::Null),
        Type::Timestamp => match decode_number(payload, 8, "tlv: timestamp needs 8 bytes") {
            Ok(n) => Ok(Value::Timestamp(Duration::from_millis(n))),
            Err(e) => Err(e),
        },
    }
}

/// Read the values that fill a payload.
fn decode_items(payload: &[u8], depth: usize) -> (r: Result<Vec<Value>, String>)
    requires
        1 <= depth <= MAX_DECODE_DEPTH + 1,
    ensures
        match r {
            Ok(items) => model::parse_items(payload@, depth as nat) == Ok::<
                Seq<ValueView>,
                Seq<char>,
            >(value::items_view(items@)),
            Err(e) => model::parse_items(payload@, depth as nat) == Err::<
                Seq<ValueView>,
                Seq<char>,
            >(e@),
        },
    decreases 65 - depth, 3nat,
{
    let mut items: Vec<Value> = Vec::new();
    let mut rest = payload;
    let ghost d = depth as nat;
    let ghost all = model::parse_items(payload@, d);
    proof {
        value::lemma_items_view(items@);
        if all is Ok {
            assert(value::items_view(items@) + all->Ok_0 =~= all->Ok_0);
        }
    }
    while rest.len() > 0
        invariant
            1 <= depth <= MAX_DECODE_DEPTH + 1,
            d == depth,
            all == model::parse_items(payload@, d),
            match model::parse_items(rest@, d) {
                Ok(more) => all == Ok::<Seq<ValueView>, Seq<char>>(
                    value::items_view(items@) + more,
                ),
                Err(e) => all == Err::<Seq<ValueView>, Seq<char>>(e),
            },
        decreases rest@.len(),
    {
        match decode_value(rest, depth) {
            Err(e) => return Err(e),
            Ok((v, n)) => {
                let tail = slice_subrange(rest, n, rest.len());
                let ghost before = value::items_view(items@);
                let ghost view = v@;
                proof {
                    value::lemma_items_view(items@);
                    assert(tail@ =~= rest@.skip(n as int));
                }
                items.push(v);
                proof {
                    value::lemma_items_view(items@);
                    assert(value::items_view(items@) =~= before.push(view));
                    if let Ok(more) = model::parse_items(tail@, d) {
                        assert(before.push(view) + more =~= before + (seq![view] + more));
                    }
                }
                rest = tail;
            },
        }
    }
    proof {
        let done = value::items_view(items@);
        assert(done + Seq::<ValueView>::empty() =~= done);
    }
    Ok(items)
}

/// Read the named values that fill a payload.
fn decode_entries(payload: &[u8], depth: usize) -> (r: Result<TlvMap, String>)
    requires
        1 <= depth <= MAX_DECODE_DEPTH + 1,
    ensures
        match r {
            Ok(m) => model::parse_entries(payload@, depth as nat, Seq::empty()) == Ok::<
                Seq<(Seq<char>, ValueView)>,
                Seq<char>,
            >(m@),
            Err(e) => model::parse_entries(payload@, depth as nat, Seq::empty()) == Err::<
                Seq<(Seq<char>, ValueView)>,
                Seq<char>,
            >(e@),
        },
    decreases 65 - depth, 3nat,
{
    let mut m = TlvMap::new();
    let mut rest = payload;
    let ghost d = depth as nat;
    let ghost all = model::parse_entries(payload@, d, Seq::empty());
    while rest.len() > 0
        invariant
            1 <= depth <= MAX_DECODE_DEPTH + 1,
            d == depth,
            all == model::parse_entries(payload@, d, Seq::empty()),
            model::parse_entries(rest@, d, m@) == all,
        decreases rest@.len(),
    {
        match decode_value(rest, depth) {
            Err(e) => return Err(e),
            Ok((key_value, n)) => {
                let tail = slice_subrange(rest, n, rest.len());
                assert(tail@ =~= rest@.skip(n as int));
                let key = match key_value {
                    Value::String(s) => s,
                    _ => return Err("tlv: map key must be string".to_owned()),
                };
                if tail.len() == 0 {
                    return Err(
                        text::concat3(
                            "tlv: map entry missing value for key '",
                            key.as_str(),
                            "'",
                        ),
                    );
                }
                match decode_value(tail, depth) {
                    Err(e) => return Err(e),
                    Ok((v, n2)) => {
                        let last = slice_subrange(tail, n2, tail.len());
                        assert(last@ =~= tail@.skip(n2 as int));
                        m.set(key.as_str(), v);
                        rest = last;
                    },
                }
            },
        }
    }
    Ok(m)
}

/// Read one value from the start of `buf`. What follows it is ignored.
pub fn decode(buf: &[u8]) -> (r: Result<Value, String>)
    ensures
        match r {
            Ok(v) => model::decoded(buf@) == Ok::<ValueView, Seq<char>>(v@),
            Err(e) => model::decoded(buf@) == Err::<ValueView, Seq<char>>(e@),
        },
{
    match decode_value(buf, 0) {
        Ok((v, _)) => Ok(v),
        Err(e) => Err(e),
    }
}

/// Read one value from the start of `buf`, which must be a map.
pub fn decode_map(buf: &[u8]) -> (r: Result<TlvMap, String>)
    ensures
        match r {
            Ok(m) => model::decoded_map(buf@) == Ok::<Seq<(Seq<char>, ValueView)>, Seq<char>>(m@),
            Err(e) => model::decoded_map(buf@) == Err::<Seq<(Seq<char>, ValueView)>, Seq<char>>(e@),
        },
{
    match decode(buf) {
        Err(e) => Err(e),
        Ok(Value::TlvMap(m)) => Ok(m),
        Ok(_) => Err("tlv: expected map".to_owned()),
    }
}

/// Read a map from the start of `buf`; none if `buf` is empty or holds none.
pub fn decode_map_opt(buf: &[u8]) -> (r: Option<TlvMap>)
    ensures
        match r {
            Some(m) => buf@.len() > 0 && model::decoded_map(buf@) == Ok::<
                Seq<(Seq<char>, ValueView)>,
                Seq<char>,
            >(m@),
            None => buf@.len() == 0 || model::decoded_map(buf@) is Err,
        },
{
    if buf.len() == 0 {
        return None;
    }
    match decode_map(buf) {
        Ok(m) => Some(m),
        Err(_) => None,
    }
}

} // verus!
