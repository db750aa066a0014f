//! Writing values as bytes.

use crate::bytes;
use crate::tlv::laws;
use crate::tlv::model;
use crate::tlv::model::ValueView;
use crate::tlv::value;
use crate::tlv::value::{TlvMap, Type, Value};
use crate::tlv::varint;
use vstd::prelude::*;
use vstd::utf8;

verus! {

/// The byte that stands for the kind of a value.
fn type_byte(v: &Value) -> (b: u8)
    ensures
        b == value::type_code(model::type_of(v@)),
{
    match v {
        Value::String(_) => 0x01,
        Value::Bytes(_) => 0x02,
        Value::Uint8(_) => 0x03,
        Value::Uint16(_) => 0x04,
        Value::Uint32(_) => 0x05,
        Value::Uint64(_) => 0x06,
        Value::Int32(_) => 0x07,
        Value::Int64(_) => 0x08,
        Value::Float32(_) => 0x09,
        Value::Float64(_) => 0x0A,
        Value::Bool(_) => 0x0B,
        Value::Array(_) => 0x0C,
        Value::TlvMap(_) => 0x0D,
        Value::Null => 0x0E,
        Value::Timestamp(_) => 0x0F,
    }
}

/// Append a type byte, the length of `payload` and `payload`.
fn push_framed(code: u8, payload: &[u8], buf: &mut Vec<u8>)
    ensures
        final(buf)@ == old(buf)@ + (seq![code] + varint::varint(payload@.len()) + payload@),
{
    buf.push(code);
    varint::encode_varint(payload.len() as u64, buf);
    bytes::push_all(buf, payload);
    assert(buf@ =~= old(buf)@ + (seq![code] + varint::varint(payload@.len()) + payload@));
}

/// Append the bytes of a value.
fn encode_into(v: &Value, buf: &mut Vec<u8>)
    ensures
        final(buf)@ == old(buf)@ + model::encoding(v@),
        laws::valid(v@),
    decreases v, 1nat,
{
    let payload = payload_bytes(v);
    push_framed(type_byte(v), payload.as_slice(), buf);
    assert(model::encoding(v@) == model::framed(model::type_of(v@), model::payload(v@)));
}

/// A number as big-endian bytes.
fn be_bytes(n: u64, width: usize) -> (r: Vec<u8>)
    ensures
        r@ == bytes::be(n as nat, width as nat),
{
    let mut r: Vec<u8> = Vec::new();
    bytes::push_be(&mut r, n, width);
    assert(r@ =~= bytes::be(n as nat, width as nat));
    r
}

/// The payload bytes of a value.
fn payload_bytes(v: &Value) -> (r: Vec<u8>)
    ensures
        r@ == model::payload(v@),
        laws::valid(v@),
    decreases v, 0nat,
{
    match v {
        Value::String(s) => bytes::to_vec(s.as_str().as_bytes()),
        Value::Bytes(b) => bytes::to_vec(b.as_slice()),
        Value::Uint8(n) => be_bytes(*n as u64, 1),
        Value::Uint16(n) => be_bytes(*n as u64, 2),
        Value::Uint32(n) => be_bytes(*n as u64, 4),
        Value::Uint64(n) => be_bytes(*n, 8),
        Value::Int32(n) => {
            let bits: u64 = if *n < 0 {
                (*n as i64 + 0x1_0000_0000) as u64
            } else {
                *n as u64
            };
            be_bytes(bits, 4)
        },
        Value::Int64(n) => {
            let bits: u64 = if *n < 0 {
                (*n as i128 + 0x1_0000_0000_0000_0000) as u64
            } else {
                *n as u64
            };
            be_bytes(bits, 8)
        },
        Value::Float32(bits) => be_bytes(*bits as u64, 4),
        Value::Float64(bits) => be_bytes(*bits, 8),
        Value::Bool(b) => be_bytes(
            if *b {
                1
            } else {
                0
            },
            1,
        ),
        Value::Null => Vec::new(),
        Value::Timestamp(d) => be_bytes(d.as_millis_u64(), 8),
        Value::Array(items) => {
            let mut buf: Vec<u8> = Vec::new();
            let mut i: usize = 0;
            let ghost whole = v@->Array_0;
            proof {
                value::lemma_array_view(*v);
                assert(whole.skip(0) =~= whole);
            }
            while i < items.len()
                invariant
                    i <= items@.len(),
                    v is Array,
                    v->Array_0 == *items,
                    whole == v@->Array_0,
                    whole.len() == items@.len(),
                    forall|j: int| 0 <= j < items@.len() ==> #[trigger] whole[j] == items@[j]@,
                    forall|j: int| 0 <= j < i ==> laws::valid(#[trigger] whole[j]),
                    buf@ + model::items_encoding(whole.skip(i as int)) == model::items_encoding(
                        whole,
                    ),
                decreases items@.len() - i,
            {
                let ghost rest = whole.skip(i as int);
                let ghost before = buf@;
                assert(decreases_to!(*v => v->Array_0));
                encode_into(&items[i], &mut buf);
                proof {
                    assert(rest.drop_first() =~= whole.skip(i as int + 1));
                    assert(buf@ + model::items_encoding(whole.skip(i as int + 1)) =~= before
                        + model::items_encoding(rest));
                }
                i = i + 1;
            }
            assert(buf@ =~= model::items_encoding(whole));
            buf
        },
        Value::TlvMap(m) => {
            let mut buf: Vec<u8> = Vec::new();
            let mut i: usize = 0;
            let ghost whole = m@;
            assert(whole.skip(0) =~= whole);
            while i < m.len()
                invariant
                    i <= whole.len(),
                    whole == m@,
                    v is TlvMap,
                    v->TlvMap_0 == *m,
                    forall|j: int| 0 <= j < i ==> laws::valid((#[trigger] whole[j]).1),
                    buf@ + model::entries_encoding(whole.skip(i as int))
                        == model::entries_encoding(whole),
                decreases whole.len() - i,
            {
                let ghost rest = whole.skip(i as int);
                let ghost before = buf@;
                let (key, item) = m.entry(i);
                assert(decreases_to!(*v => v->TlvMap_0));
                push_framed(0x01, key.as_bytes(), &mut buf);
                let ghost middle = buf@;
                encode_into(item, &mut buf);
                proof {
                    let name = model::framed(Type::String, utf8::encode_utf8(rest[0].0));
                    assert(rest.drop_first() =~= whole.skip(i as int + 1));
                    assert(middle == before + name);
                    assert(buf@ == middle + model::encoding(rest[0].1));
                    assert(buf@ + model::entries_encoding(whole.skip(i as int + 1)) =~= before
                        + model::entries_encoding(rest));
                }
                i = i + 1;
            }
            proof {
                use_type_invariant(m);
                assert(buf@ =~= model::entries_encoding(whole));
            }
            buf
        },
    }
}

/// The bytes of a value. A value that is held in memory can be written, so that
/// what reading gives back of it is known.
pub fn encode(v: &Value) -> (r: Vec<u8>)
    ensures
        r@ == model::encoding(v@),
        laws::writable(v@),
{
    let mut buf: Vec<u8> = Vec::new();
    encode_into(v, &mut buf);
    let _len: usize = buf.len();
    proof {
        assert(buf@ =~= model::encoding(v@));
        assert(model::encoding(v@) == model::framed(model::type_of(v@), model::payload(v@)));
    }
    buf
}

/// The bytes of a map as a value.
pub fn encode_map(m: &TlvMap) -> (r: Vec<u8>)
    ensures
        r@ == model::encoding(ValueView::TlvMap(m@)),
        laws::writable(ValueView::TlvMap(m@)),
{
    encode(&TlvMap::map_value(m))
}

} // verus!
