//! The bytes of each kind of value, spelled out, and what is read from any bytes.

use crate::assoc;
use crate::bytes;
use crate::text;
use crate::tlv::laws;
use crate::tlv::model;
use crate::tlv::model::ValueView;
use crate::tlv::value;
use crate::tlv::value::Type;
use crate::tlv::varint;
use vstd::prelude::*;
use vstd::utf8;

verus! {

// ── Writing ─────────────────────────────────────────────────

proof fn lemma_framed(t: Type, p: Seq<u8>, code: u8)
    requires
        value::type_code(t) == code,
        p.len() < 128,
    ensures
        model::framed(t, p) == seq![code, p.len() as u8] + p,
{
    varint::law_varint_bytes(0, p.len());
    assert(model::framed(t, p) =~= seq![code, p.len() as u8] + p);
}

/// An unsigned number is its kind, its width and its bytes, the most significant
/// first.
pub proof fn law_unsigned_bytes(a: u8, b: u16, c: u32, d: u64)
    ensures
        model::encoding(ValueView::Uint8(a)) == seq![0x03u8, 1u8, a],
        model::encoding(ValueView::Uint16(b)) == seq![
            0x04u8,
            2u8,
            (b / 0x100) as u8,
            (b % 0x100) as u8,
        ],
        model::encoding(ValueView::Uint32(c)) == seq![
            0x05u8,
            4u8,
            (c / 0x100_0000) as u8,
            (c / 0x1_0000 % 0x100) as u8,
            (c / 0x100 % 0x100) as u8,
            (c % 0x100) as u8,
        ],
        model::encoding(ValueView::Uint64(d)) == seq![
            0x06u8,
            8u8,
            (d / 0x100_0000_0000_0000) as u8,
            (d / 0x1_0000_0000_0000 % 0x100) as u8,
            (d / 0x100_0000_0000 % 0x100) as u8,
            (d / 0x1_0000_0000 % 0x100) as u8,
            (d / 0x100_0000 % 0x100) as u8,
            (d / 0x1_0000 % 0x100) as u8,
            (d / 0x100 % 0x100) as u8,
            (d % 0x100) as u8,
        ],
{
    bytes::law_be_bytes(a as nat);
    bytes::law_be_bytes(b as nat);
    bytes::law_be_bytes(c as nat);
    bytes::law_be_bytes(d as nat);
    lemma_framed(Type::Uint8, bytes::be(a as nat, 1), 0x03);
    lemma_framed(Type::Uint16, bytes::be(b as nat, 2), 0x04);
    lemma_framed(Type::Uint32, bytes::be(c as nat, 4), 0x05);
    lemma_framed(Type::Uint64, bytes::be(d as nat, 8), 0x06);
    assert(model::encoding(ValueView::Uint8(a)) =~= seq![0x03u8, 1u8, a]);
    assert(model::encoding(ValueView::Uint16(b)) =~= seq![
        0x04u8,
        2u8,
        (b / 0x100) as u8,
        (b % 0x100) as u8,
    ]);
    assert(model::encoding(ValueView::Uint32(c)) =~= seq![0x05u8, 4u8] + bytes::be(c as nat, 4));
    assert(model::encoding(ValueView::Uint64(d)) =~= seq![0x06u8, 8u8] + bytes::be(d as nat, 8));
}

/// A signed number has the bytes of the unsigned one that is the same number, or
/// that is larger by two to its width where the signed one is negative.
pub proof fn law_signed_bytes(n: i32, bits: u32, m: i64, wide: u64)
    requires
        n == bits || n == bits - 0x1_0000_0000,
        m == wide || m == wide - 0x1_0000_0000_0000_0000,
    ensures
        model::encoding(ValueView::Int32(n)) == model::encoding(ValueView::Uint32(bits)).update(
            0,
            0x07,
        ),
        model::encoding(ValueView::Int64(m)) == model::encoding(ValueView::Uint64(wide)).update(
            0,
            0x08,
        ),
{
    bytes::lemma_be_len(bits as nat, 4);
    bytes::lemma_be_len(wide as nat, 8);
    lemma_framed(Type::Int32, bytes::be(bits as nat, 4), 0x07);
    lemma_framed(Type::Uint32, bytes::be(bits as nat, 4), 0x05);
    lemma_framed(Type::Int64, bytes::be(wide as nat, 8), 0x08);
    lemma_framed(Type::Uint64, bytes::be(wide as nat, 8), 0x06);
    assert(model::encoding(ValueView::Int32(n)) =~= model::encoding(
        ValueView::Uint32(bits),
    ).update(0, 0x07));
    assert(model::encoding(ValueView::Int64(m)) =~= model::encoding(
        ValueView::Uint64(wide),
    ).update(0, 0x08));
}

/// A floating-point number has its bits as bytes, a truth value is one byte, nothing
/// has no bytes, and a span of time is its whole milliseconds, modulo 2 to the 64.
pub proof fn law_plain_bytes(f: u32, g: u64, nanos: nat, millis: u64)
    requires
        millis == nanos / 1_000_000 % 0x1_0000_0000_0000_0000,
    ensures
        model::encoding(ValueView::Float32(f)) == model::encoding(ValueView::Uint32(f)).update(
            0,
            0x09,
        ),
        model::encoding(ValueView::Float64(g)) == model::encoding(ValueView::Uint64(g)).update(
            0,
            0x0A,
        ),
        model::encoding(ValueView::Bool(false)) == seq![0x0Bu8, 1u8, 0u8],
        model::encoding(ValueView::Bool(true)) == seq![0x0Bu8, 1u8, 1u8],
        model::encoding(ValueView::Null) == seq![0x0Eu8, 0u8],
        model::encoding(ValueView::Timestamp(nanos)) == model::encoding(
            ValueView::Uint64(millis),
        ).update(0, 0x0F),
{
    bytes::lemma_be_len(f as nat, 4);
    bytes::lemma_be_len(g as nat, 8);
    bytes::lemma_be_len(millis as nat, 8);
    bytes::law_be_bytes(0);
    bytes::law_be_bytes(1);
    lemma_framed(Type::Float32, bytes::be(f as nat, 4), 0x09);
    lemma_framed(Type::Uint32, bytes::be(f as nat, 4), 0x05);
    lemma_framed(Type::Float64, bytes::be(g as nat, 8), 0x0A);
    lemma_framed(Type::Uint64, bytes::be(g as nat, 8), 0x06);
    lemma_framed(Type::Bool, bytes::be(0, 1), 0x0B);
    lemma_framed(Type::Bool, bytes::be(1, 1), 0x0B);
    lemma_framed(Type::Null, Seq::empty(), 0x0E);
    lemma_framed(Type::Timestamp, bytes::be(millis as nat, 8), 0x0F);
    lemma_framed(Type::Uint64, bytes::be(millis as nat, 8), 0x06);
    assert(model::encoding(ValueView::Float32(f)) =~= model::encoding(
        ValueView::Uint32(f),
    ).update(0, 0x09));
    assert(model::encoding(ValueView::Float64(g)) =~= model::encoding(
        ValueView::Uint64(g),
    ).update(0, 0x0A));
    assert(model::encoding(ValueView::Bool(false)) =~= seq![0x0Bu8, 1u8, 0u8]);
    assert(model::encoding(ValueView::Bool(true)) =~= seq![0x0Bu8, 1u8, 1u8]);
    assert(model::encoding(ValueView::Null) =~= seq![0x0Eu8, 0u8]);
    assert(model::encoding(ValueView::Timestamp(nanos)) =~= model::encoding(
        ValueView::Uint64(millis),
    ).update(0, 0x0F));
}

/// Text, bytes and containers are their kind, the number of bytes that follow as a
/// varint, and those bytes: of text its UTF-8, of bytes themselves.
pub proof fn law_sized_bytes(
    s: Seq<char>,
    b: Seq<u8>,
    items: Seq<ValueView>,
    entries: Seq<(Seq<char>, ValueView)>,
)
    ensures
        ({
            let u = utf8::encode_utf8(s);
            let a = model::payload(ValueView::Array(items));
            let m = model::payload(ValueView::TlvMap(entries));
            &&& model::encoding(ValueView::String(s)) == seq![0x01u8] + varint::varint(u.len()) + u
            &&& model::encoding(ValueView::Bytes(b)) == seq![0x02u8] + varint::varint(b.len()) + b
            &&& model::encoding(ValueView::Array(items)) == seq![0x0Cu8] + varint::varint(a.len())
                + a
            &&& model::encoding(ValueView::TlvMap(entries)) == seq![0x0Du8] + varint::varint(
                m.len(),
            ) + m
        }),
{
}

/// The payload of an array is that of its front and then that of the rest, and of a
/// single item its encoding. The same holds of a map, in which the encoding of the
/// name goes before that of its value.
pub proof fn law_container_payload(
    a: Seq<ValueView>,
    b: Seq<ValueView>,
    v: ValueView,
    m: Seq<(Seq<char>, ValueView)>,
    n: Seq<(Seq<char>, ValueView)>,
    name: Seq<char>,
)
    ensures
        model::payload(ValueView::Array(a + b)) == model::payload(ValueView::Array(a))
            + model::payload(ValueView::Array(b)),
        model::payload(ValueView::Array(seq![v])) == model::encoding(v),
        model::payload(ValueView::TlvMap(m + n)) == model::payload(ValueView::TlvMap(m))
            + model::payload(ValueView::TlvMap(n)),
        model::payload(ValueView::TlvMap(seq![(name, v)])) == model::encoding(
            ValueView::String(name),
        ) + model::encoding(v),
{
    lemma_items_concat(a, b);
    lemma_entries_concat(m, n);
    let none = Seq::<ValueView>::empty();
    let nothing = Seq::<(Seq<char>, ValueView)>::empty();
    assert(seq![v].drop_first() =~= none);
    assert(seq![(name, v)].drop_first() =~= nothing);
    assert(model::items_encoding(none) =~= Seq::<u8>::empty());
    assert(model::entries_encoding(nothing) =~= Seq::<u8>::empty());
    assert(model::items_encoding(seq![v]) =~= model::encoding(v));
    assert(model::entries_encoding(seq![(name, v)]) =~= model::framed(
        Type::String,
        utf8::encode_utf8(name),
    ) + model::encoding(v));
    assert(model::payload(ValueView::Array(a)) == model::items_encoding(a));
    assert(model::payload(ValueView::Array(b)) == model::items_encoding(b));
    assert(model::payload(ValueView::Array(a + b)) == model::items_encoding(a + b));
    assert(model::payload(ValueView::TlvMap(m)) == model::entries_encoding(m));
    assert(model::payload(ValueView::TlvMap(n)) == model::entries_encoding(n));
    assert(model::payload(ValueView::TlvMap(m + n)) == model::entries_encoding(m + n));
}

proof fn lemma_items_concat(a: Seq<ValueView>, b: Seq<ValueView>)
    ensures
        model::items_encoding(a + b) == model::items_encoding(a) + model::items_encoding(b),
    decreases a.len(),
{
    if a.len() == 0 {
        assert(a + b =~= b);
        assert(model::items_encoding(a) + model::items_encoding(b) =~= model::items_encoding(b));
    } else {
        assert((a + b).drop_first() =~= a.drop_first() + b);
        lemma_items_concat(a.drop_first(), b);
        assert(model::items_encoding(a + b) =~= model::items_encoding(a) + model::items_encoding(
            b,
        ));
    }
}

proof fn lemma_entries_concat(
    a: Seq<(Seq<char>, ValueView)>,
    b: Seq<(Seq<char>, ValueView)>,
)
    ensures
        model::entries_encoding(a + b) == model::entries_encoding(a) + model::entries_encoding(b),
    decreases a.len(),
{
    if a.len() == 0 {
        assert(a + b =~= b);
        assert(model::entries_encoding(a) + model::entries_encoding(b)
            =~= model::entries_encoding(b));
    } else {
        assert((a + b).drop_first() =~= a.drop_first() + b);
        lemma_entries_concat(a.drop_first(), b);
        assert(model::entries_encoding(a + b) =~= model::entries_encoding(a)
            + model::entries_encoding(b));
    }
}

// ── Reading ─────────────────────────────────────────────────

proof fn lemma_parse_framed(t: Type, code: u8, p: Seq<u8>, rest: Seq<u8>, depth: nat)
    requires
        value::type_code(t) == code,
        p.len() <= 524288,
        depth <= 64,
    ensures
        ({
            let s = seq![code] + varint::varint(p.len()) + p + rest;
            &&& model::parse_value(s, depth) == model::parse_payload(t, p, depth)
            &&& model::value_len(s) == s.len() - rest.len()
        }),
{
    laws::lemma_header(t, p, rest);
    assert(model::framed(t, p) + rest =~= seq![code] + varint::varint(p.len()) + p + rest);
}

proof fn lemma_parse_kind(t: Type, code: u8, p: Seq<u8>, rest: Seq<u8>, depth: nat)
    requires
        value::type_code(t) == code,
        p.len() <= 524288,
        depth <= 64,
    ensures
        model::parse_value(seq![code] + (varint::varint(p.len()) + p + rest), depth)
            == model::parse_payload(t, p, depth),
{
    lemma_parse_framed(t, code, p, rest, depth);
    assert(seq![code] + (varint::varint(p.len()) + p + rest) =~= seq![code] + varint::varint(
        p.len(),
    ) + p + rest);
}

/// A number of one or two bytes is read from the front of its payload, which may be
/// longer, at every depth that is not too great, and whatever bytes follow; any byte
/// but zero is true. A payload that is too short is refused.
pub proof fn law_decode_small(p: Seq<u8>, rest: Seq<u8>, depth: nat)
    requires
        p.len() <= 524288,
        depth <= 64,
    ensures
        ({
            let s = varint::varint(p.len()) + p + rest;
            &&& model::parse_value(seq![0x03u8] + s, depth) == if p.len() >= 1 {
                Ok::<ValueView, Seq<char>>(ValueView::Uint8(p[0]))
            } else {
                Err("tlv: uint8 needs 1 byte"@)
            }
            &&& model::parse_value(seq![0x0Bu8] + s, depth) == if p.len() >= 1 {
                Ok::<ValueView, Seq<char>>(ValueView::Bool(p[0] != 0))
            } else {
                Err("tlv: bool needs 1 byte"@)
            }
            &&& model::parse_value(seq![0x04u8] + s, depth) == if p.len() >= 2 {
                Ok::<ValueView, Seq<char>>(ValueView::Uint16((256 * p[0] + p[1]) as u16))
            } else {
                Err("tlv: uint16 needs 2 bytes"@)
            }
        }),
{
    lemma_parse_kind(Type::Uint8, 0x03, p, rest, depth);
    lemma_parse_kind(Type::Bool, 0x0B, p, rest, depth);
    lemma_parse_kind(Type::Uint16, 0x04, p, rest, depth);
    if p.len() >= 1 {
        assert(p.take(1) =~= seq![p[0]]);
        bytes::law_from_be_bytes(p.take(1), p[0]);
    }
    bytes::law_from_be_bytes(p.take(2), 0);
}

/// A number of four bytes is read from the front of its payload, which may be longer;
/// of a floating-point number these are its bits.
pub proof fn law_decode_wide(p: Seq<u8>, rest: Seq<u8>, depth: nat)
    requires
        p.len() <= 524288,
        depth <= 64,
    ensures
        ({
            let s = varint::varint(p.len()) + p + rest;
            let n = (0x100_0000 * p[0] + 0x1_0000 * p[1] + 0x100 * p[2] + p[3]) as u32;
            &&& model::parse_value(seq![0x05u8] + s, depth) == if p.len() >= 4 {
                Ok::<ValueView, Seq<char>>(ValueView::Uint32(n))
            } else {
                Err("tlv: uint32 needs 4 bytes"@)
            }
            &&& model::parse_value(seq![0x09u8] + s, depth) == if p.len() >= 4 {
                Ok::<ValueView, Seq<char>>(ValueView::Float32(n))
            } else {
                Err("tlv: float32 needs 4 bytes"@)
            }
        }),
{
    lemma_parse_kind(Type::Uint32, 0x05, p, rest, depth);
    lemma_parse_kind(Type::Float32, 0x09, p, rest, depth);
    bytes::law_from_be_bytes(p.take(4), 0);
}

/// A number of eight bytes is read from the front of its payload, which may be
/// longer; of a floating-point number these are its bits, and of a span of time its
/// milliseconds.
pub proof fn law_decode_widest(p: Seq<u8>, rest: Seq<u8>, depth: nat)
    requires
        p.len() <= 524288,
        depth <= 64,
    ensures
        ({
            let s = varint::varint(p.len()) + p + rest;
            let n = bytes::from_be(p.take(8));
            &&& model::parse_value(seq![0x06u8] + s, depth) == if p.len() >= 8 {
                Ok::<ValueView, Seq<char>>(ValueView::Uint64(n as u64))
            } else {
                Err("tlv: uint64 needs 8 bytes"@)
            }
            &&& model::parse_value(seq![0x0Au8] + s, depth) == if p.len() >= 8 {
                Ok::<ValueView, Seq<char>>(ValueView::Float64(n as u64))
            } else {
                Err("tlv: float64 needs 8 bytes"@)
            }
            &&& model::parse_value(seq![0x0Fu8] + s, depth) == if p.len() >= 8 {
                Ok::<ValueView, Seq<char>>(ValueView::Timestamp(1_000_000 * n))
            } else {
                Err("tlv: timestamp needs 8 bytes"@)
            }
        }),
{
    lemma_parse_kind(Type::Uint64, 0x06, p, rest, depth);
    lemma_parse_kind(Type::Float64, 0x0A, p, rest, depth);
    lemma_parse_kind(Type::Timestamp, 0x0F, p, rest, depth);
}

/// A signed number is the unsigned one of its bytes where that is below half its
/// range, and less by the whole range where it is not.
pub proof fn law_decode_signed(p: Seq<u8>, rest: Seq<u8>, depth: nat)
    requires
        p.len() <= 524288,
        depth <= 64,
    ensures
        ({
            let s = varint::varint(p.len()) + p + rest;
            let n = bytes::from_be(p.take(4));
            let m = bytes::from_be(p.take(8));
            &&& model::parse_value(seq![0x07u8] + s, depth) == if p.len() >= 4 {
                Ok::<ValueView, Seq<char>>(
                    ValueView::Int32(
                        if n < 0x8000_0000 {
                            n as i32
                        } else {
                            (n - 0x1_0000_0000) as i32
                        },
                    ),
                )
            } else {
                Err("tlv: int32 needs 4 bytes"@)
            }
            &&& model::parse_value(seq![0x08u8] + s, depth) == if p.len() >= 8 {
                Ok::<ValueView, Seq<char>>(
                    ValueView::Int64(
                        if m < 0x8000_0000_0000_0000 {
                            m as i64
                        } else {
                            (m - 0x1_0000_0000_0000_0000) as i64
                        },
                    ),
                )
            } else {
                Err("tlv: int64 needs 8 bytes"@)
            }
        }),
{
    let s = varint::varint(p.len()) + p + rest;
    assert(seq![0x07u8] + s =~= seq![0x07u8] + varint::varint(p.len()) + p + rest);
    assert(seq![0x08u8] + s =~= seq![0x08u8] + varint::varint(p.len()) + p + rest);
    lemma_parse_framed(Type::Int32, 0x07, p, rest, depth);
    lemma_parse_framed(Type::Int64, 0x08, p, rest, depth);
}

/// Text is read where its payload is UTF-8 and refused where it is not; bytes are
/// read as they are; nothing is read from any payload.
pub proof fn law_decode_text(p: Seq<u8>, rest: Seq<u8>, depth: nat)
    requires
        p.len() <= 524288,
        depth <= 64,
    ensures
        ({
            let s = varint::varint(p.len()) + p + rest;
            &&& model::parse_value(seq![0x01u8] + s, depth) == if utf8::valid_utf8(p) {
                Ok::<ValueView, Seq<char>>(ValueView::String(utf8::decode_utf8(p)))
            } else {
                Err("tlv: invalid utf-8 string"@)
            }
            &&& model::parse_value(seq![0x02u8] + s, depth) == Ok::<ValueView, Seq<char>>(
                ValueView::Bytes(p),
            )
            &&& model::parse_value(seq![0x0Eu8] + s, depth) == Ok::<ValueView, Seq<char>>(
                ValueView::Null,
            )
        }),
{
    let s = varint::varint(p.len()) + p + rest;
    assert(seq![0x01u8] + s =~= seq![0x01u8] + varint::varint(p.len()) + p + rest);
    assert(seq![0x02u8] + s =~= seq![0x02u8] + varint::varint(p.len()) + p + rest);
    assert(seq![0x0Eu8] + s =~= seq![0x0Eu8] + varint::varint(p.len()) + p + rest);
    lemma_parse_framed(Type::String, 0x01, p, rest, depth);
    lemma_parse_framed(Type::Bytes, 0x02, p, rest, depth);
    lemma_parse_framed(Type::Null, 0x0E, p, rest, depth);
}

/// A container is read from what fills its payload, one level deeper, and takes the
/// bytes up to the end of its payload.
pub proof fn law_decode_container(p: Seq<u8>, rest: Seq<u8>, depth: nat)
    requires
        p.len() <= 524288,
        depth <= 64,
    ensures
        ({
            let s = varint::varint(p.len()) + p + rest;
            &&& match model::parse_items(p, depth + 1) {
                Ok(items) => model::parse_value(seq![0x0Cu8] + s, depth) == Ok::<
                    ValueView,
                    Seq<char>,
                >(ValueView::Array(items)),
                Err(e) => model::parse_value(seq![0x0Cu8] + s, depth) == Err::<
                    ValueView,
                    Seq<char>,
                >(e),
            }
            &&& match model::parse_entries(p, depth + 1, Seq::empty()) {
                Ok(entries) => model::parse_value(seq![0x0Du8] + s, depth) == Ok::<
                    ValueView,
                    Seq<char>,
                >(ValueView::TlvMap(entries)),
                Err(e) => model::parse_value(seq![0x0Du8] + s, depth) == Err::<
                    ValueView,
                    Seq<char>,
                >(e),
            }
            &&& model::value_len(seq![0x0Cu8] + s) == 1 + s.len() - rest.len()
            &&& model::value_len(seq![0x0Du8] + s) == 1 + s.len() - rest.len()
        }),
{
    let s = varint::varint(p.len()) + p + rest;
    assert(seq![0x0Cu8] + s =~= seq![0x0Cu8] + varint::varint(p.len()) + p + rest);
    assert(seq![0x0Du8] + s =~= seq![0x0Du8] + varint::varint(p.len()) + p + rest);
    lemma_parse_framed(Type::Array, 0x0C, p, rest, depth);
    lemma_parse_framed(Type::TlvMap, 0x0D, p, rest, depth);
}

/// No value is read from no bytes, behind a byte that stands for no kind, at a depth
/// over 64, with a length that cannot be read or is over 524288, or with a length
/// over what is there.
pub proof fn law_decode_refused(s: Seq<u8>, depth: nat)
    ensures
        depth > 64 ==> model::parse_value(s, depth) == Err::<ValueView, Seq<char>>(
            "tlv: nested depth "@ + text::decimal(depth) + " exceeds max 64"@,
        ),
        depth <= 64 && s.len() == 0 ==> model::parse_value(s, depth) == Err::<
            ValueView,
            Seq<char>,
        >("tlv: unexpected EOF"@),
        depth <= 64 && s.len() > 0 && !(0x01 <= s[0] <= 0x0F) ==> model::parse_value(s, depth)
            == Err::<ValueView, Seq<char>>("tlv: unknown type 0x"@ + text::hex(seq![s[0]])),
        depth <= 64 && s.len() > 0 && 0x01 <= s[0] <= 0x0F ==> match varint::parse_varint(
            s.skip(1),
        ) {
            Err(e) => model::parse_value(s, depth) == Err::<ValueView, Seq<char>>(
                "tlv: decode varint: "@ + e,
            ),
            Ok((len, k)) => {
                &&& len > 524288 ==> model::parse_value(s, depth) == Err::<ValueView, Seq<char>>(
                    "tlv: payload too large ("@ + text::decimal(len) + " bytes, max 524288)"@,
                )
                &&& len <= 524288 && 1 + k + len > s.len() ==> model::parse_value(s, depth)
                    == Err::<ValueView, Seq<char>>("tlv: payload exceeds buffer"@)
                &&& len <= 524288 && 1 + k + len <= s.len() ==> model::value_len(s) == 1 + k + len
            },
        },
{
}

proof fn lemma_value_of_prefix(p: Seq<u8>, q: Seq<u8>, depth: nat)
    requires
        model::parse_value(p, depth) is Ok,
    ensures
        model::parse_value(p + q, depth) == model::parse_value(p, depth),
        model::value_len(p + q) == model::value_len(p),
        2 <= model::value_len(p) <= p.len(),
        (p + q).skip(model::value_len(p) as int) == p.skip(model::value_len(p) as int) + q,
{
    let n = model::value_len(p) as int;
    laws::law_value_depends_on_its_bytes(p, depth, p.skip(n) + q);
    laws::law_value_depends_on_its_bytes(p, depth, Seq::empty());
    assert(p.take(n) + (p.skip(n) + q) =~= p + q);
    assert((p + q).skip(n) =~= p.skip(n) + q);
}

/// What fills a payload is read one after the other: behind bytes that are whole
/// values, further bytes give further values, or the error that they give alone. No
/// bytes give no values, and the bytes of one value give that value.
pub proof fn law_items_append(p: Seq<u8>, q: Seq<u8>, depth: nat)
    ensures
        model::parse_items(Seq::<u8>::empty(), depth) == Ok::<Seq<ValueView>, Seq<char>>(
            Seq::empty(),
        ),
        model::parse_value(p, depth) matches Ok(v) ==> model::value_len(p) == p.len()
            ==> model::parse_items(p, depth) == Ok::<Seq<ValueView>, Seq<char>>(seq![v]),
        p.len() > 0 ==> (model::parse_value(p, depth) matches Err(e) ==> model::parse_items(
            p,
            depth,
        ) == Err::<Seq<ValueView>, Seq<char>>(e)),
        model::parse_items(p, depth) matches Ok(a) ==> match model::parse_items(q, depth) {
            Ok(b) => model::parse_items(p + q, depth) == Ok::<Seq<ValueView>, Seq<char>>(a + b),
            Err(e) => model::parse_items(p + q, depth) == Err::<Seq<ValueView>, Seq<char>>(e),
        },
    decreases p.len(),
{
    if p.len() > 0 {
        if let Ok(v) = model::parse_value(p, depth) {
            lemma_value_of_prefix(p, q, depth);
            let rest = p.skip(model::value_len(p) as int);
            law_items_append(rest, q, depth);
            if model::value_len(p) == p.len() {
                assert(rest =~= Seq::<u8>::empty());
                assert(seq![v] + Seq::<ValueView>::empty() =~= seq![v]);
            }
            if let Ok(more) = model::parse_items(rest, depth) {
                if let Ok(b) = model::parse_items(q, depth) {
                    assert(seq![v] + (more + b) =~= seq![v] + more + b);
                }
            }
        }
    } else {
        assert(p =~= Seq::<u8>::empty());
        assert(p + q =~= q);
        if let Ok(b) = model::parse_items(q, depth) {
            assert(Seq::<ValueView>::empty() + b =~= b);
        }
    }
}

/// What fills the payload of a map is read one after the other. A name and a value
/// behind whole named values are set on top of those, so that of a name that comes
/// twice the last value stays; a name has to be text, and a value has to follow it.
pub proof fn law_entries_append(
    p: Seq<u8>,
    q: Seq<u8>,
    depth: nat,
    before: Seq<(Seq<char>, ValueView)>,
)
    ensures
        model::parse_entries(Seq::<u8>::empty(), depth, before) == Ok::<
            Seq<(Seq<char>, ValueView)>,
            Seq<char>,
        >(before),
        model::parse_entries(p, depth, before) matches Ok(m) ==> model::parse_entries(
            p + q,
            depth,
            before,
        ) == model::parse_entries(q, depth, m),
    decreases p.len(),
{
    if p.len() > 0 {
        if let Ok(ValueView::String(key)) = model::parse_value(p, depth) {
            lemma_value_of_prefix(p, q, depth);
            let rest = p.skip(model::value_len(p) as int);
            if rest.len() > 0 {
                if let Ok(v) = model::parse_value(rest, depth) {
                    lemma_value_of_prefix(rest, q, depth);
                    let last = rest.skip(model::value_len(rest) as int);
                    law_entries_append(last, q, depth, assoc::upsert(before, key, v));
                }
            }
        }
    } else {
        assert(p =~= Seq::<u8>::empty());
        assert(p + q =~= q);
    }
}

/// One name and its value, which together fill a payload, are set in the map; a value
/// that is missing, and one that cannot be read, are refused.
pub proof fn law_one_entry(
    name: Seq<u8>,
    key: Seq<char>,
    item: Seq<u8>,
    depth: nat,
    before: Seq<(Seq<char>, ValueView)>,
)
    requires
        model::parse_value(name, depth) == Ok::<ValueView, Seq<char>>(ValueView::String(key)),
        model::value_len(name) == name.len(),
    ensures
        item.len() == 0 ==> model::parse_entries(name + item, depth, before) == Err::<
            Seq<(Seq<char>, ValueView)>,
            Seq<char>,
        >("tlv: map entry missing value for key '"@ + key + "'"@),
        item.len() > 0 ==> (model::parse_value(item, depth) matches Err(e)
            ==> model::parse_entries(name + item, depth, before) == Err::<
            Seq<(Seq<char>, ValueView)>,
            Seq<char>,
        >(e)),
        item.len() > 0 && model::value_len(item) == item.len() ==> (model::parse_value(
            item,
            depth,
        ) matches Ok(v) ==> model::parse_entries(name + item, depth, before) == Ok::<
            Seq<(Seq<char>, ValueView)>,
            Seq<char>,
        >(assoc::upsert(before, key, v))),
{
    lemma_value_of_prefix(name, item, depth);
    let all = name + item;
    assert(name.skip(name.len() as int) + item =~= item);
    assert(all.skip(model::value_len(all) as int) == item);
    if item.len() > 0 && model::value_len(item) == item.len() {
        if let Ok(v) = model::parse_value(item, depth) {
            let after = assoc::upsert(before, key, v);
            let end = item.skip(item.len() as int);
            assert(end.len() == 0);
            assert(model::parse_entries(end, depth, after) == Ok::<
                Seq<(Seq<char>, ValueView)>,
                Seq<char>,
            >(after));
        }
    }
}

/// A name that cannot be read, or that is no text, is refused.
pub proof fn law_entry_refused(p: Seq<u8>, depth: nat, before: Seq<(Seq<char>, ValueView)>)
    requires
        p.len() > 0,
    ensures
        model::parse_value(p, depth) matches Err(e) ==> model::parse_entries(p, depth, before)
            == Err::<Seq<(Seq<char>, ValueView)>, Seq<char>>(e),
        model::parse_value(p, depth) matches Ok(v) ==> !(v is String) ==> model::parse_entries(
            p,
            depth,
            before,
        ) == Err::<Seq<(Seq<char>, ValueView)>, Seq<char>>("tlv: map key must be string"@),
{
}

/// Only a map is read as a map.
pub proof fn law_decode_map(s: Seq<u8>)
    ensures
        model::decoded(s) == model::parse_value(s, 0),
        match model::parse_value(s, 0) {
            Ok(ValueView::TlvMap(m)) => model::decoded_map(s) == Ok::<
                Seq<(Seq<char>, ValueView)>,
                Seq<char>,
            >(m),
            Ok(_) => model::decoded_map(s) == Err::<Seq<(Seq<char>, ValueView)>, Seq<char>>(
                "tlv: expected map"@,
            ),
            Err(e) => model::decoded_map(s) == Err::<Seq<(Seq<char>, ValueView)>, Seq<char>>(e),
        },
{
}

// ── What is kept of a value ─────────────────────────────────

/// A span of time is cut to its whole milliseconds, and everything else stays as it
/// is, in containers at every place.
pub proof fn law_trimmed(
    v: ValueView,
    millis: u64,
    part: nat,
    items: Seq<ValueView>,
    entries: Seq<(Seq<char>, ValueView)>,
)
    requires
        part < 1_000_000,
    ensures
        !(v is Timestamp) && !(v is Array) && !(v is TlvMap) ==> laws::trimmed(v) == v,
        laws::trimmed(ValueView::Timestamp(1_000_000 * (millis as nat) + part))
            == ValueView::Timestamp(1_000_000 * (millis as nat)),
        laws::trimmed(ValueView::Array(items)) matches ValueView::Array(after) && after.len()
            == items.len() && forall|i: int|
            0 <= i < items.len() ==> #[trigger] after[i] == laws::trimmed(items[i]),
        laws::trimmed(ValueView::TlvMap(entries)) matches ValueView::TlvMap(after) && after
            == laws::trimmed_entries(entries) && after.len() == entries.len() && forall|i: int|
            0 <= i < entries.len() ==> #[trigger] after[i] == (
                entries[i].0,
                laws::trimmed(entries[i].1),
            ),
{
    let nanos = 1_000_000 * (millis as nat) + part;
    assert(nanos / 1_000_000 == millis);
    assert(laws::trimmed(ValueView::Array(items)) == ValueView::Array(laws::trimmed_items(items)));
    assert(laws::trimmed(ValueView::TlvMap(entries)) == ValueView::TlvMap(
        laws::trimmed_entries(entries),
    ));
    lemma_trimmed_items(items);
    lemma_trimmed_entries(entries);
}

proof fn lemma_trimmed_items(items: Seq<ValueView>)
    ensures
        laws::trimmed_items(items).len() == items.len(),
        forall|i: int|
            0 <= i < items.len() ==> #[trigger] laws::trimmed_items(items)[i] == laws::trimmed(
                items[i],
            ),
    decreases items.len(),
{
    if items.len() > 0 {
        let tail = items.drop_first();
        lemma_trimmed_items(tail);
        assert forall|i: int| 0 <= i < items.len() implies #[trigger] laws::trimmed_items(items)[i]
            == laws::trimmed(items[i]) by {
            if i > 0 {
                assert(laws::trimmed_items(items)[i] == laws::trimmed_items(tail)[i - 1]);
                assert(tail[i - 1] == items[i]);
            }
        }
    }
}

proof fn lemma_trimmed_entries(entries: Seq<(Seq<char>, ValueView)>)
    ensures
        laws::trimmed_entries(entries).len() == entries.len(),
        forall|i: int|
            0 <= i < entries.len() ==> #[trigger] laws::trimmed_entries(entries)[i] == (
                entries[i].0,
                laws::trimmed(entries[i].1),
            ),
    decreases entries.len(),
{
    if entries.len() > 0 {
        let tail = entries.drop_first();
        lemma_trimmed_entries(tail);
        assert forall|i: int| 0 <= i < entries.len() implies #[trigger] laws::trimmed_entries(
            entries,
        )[i] == (entries[i].0, laws::trimmed(entries[i].1)) by {
            if i > 0 {
                assert(laws::trimmed_entries(entries)[i] == laws::trimmed_entries(tail)[i - 1]);
                assert(tail[i - 1] == entries[i]);
            }
        }
    }
}

/// What is no container lies no container deep, has no name twice, and holds no part
/// of a millisecond, if it is not a span of time that has one.
pub proof fn law_plain_shape(v: ValueView, nanos: nat, levels: int)
    requires
        !(v is Array),
        !(v is TlvMap),
    ensures
        laws::valid(v),
        laws::nests_within(v, levels) <==> levels >= 0,
        v is Timestamp || laws::whole_millis(v),
        laws::whole_millis(ValueView::Timestamp(nanos)) <==> nanos % 1_000_000 == 0 && nanos
            < 0x1_0000_0000_0000_0000 * 1_000_000,
{
    if nanos % 1_000_000 == 0 && nanos < 0x1_0000_0000_0000_0000 * 1_000_000 {
        assert(nanos / 1_000_000 < 0x1_0000_0000_0000_0000);
    }
}

/// An array is one level deeper than the deepest of its items, and has no name twice
/// or part of a millisecond exactly when none of its items has.
pub proof fn law_array_shape(items: Seq<ValueView>, levels: int)
    ensures
        laws::nests_within(ValueView::Array(items), levels) <==> levels >= 0 && forall|i: int|
            0 <= i < items.len() ==> laws::nests_within(#[trigger] items[i], levels - 1),
        laws::whole_millis(ValueView::Array(items)) <==> forall|i: int|
            0 <= i < items.len() ==> laws::whole_millis(#[trigger] items[i]),
        laws::valid(ValueView::Array(items)) <==> forall|i: int|
            0 <= i < items.len() ==> laws::valid(#[trigger] items[i]),
{
    let v = ValueView::Array(items);
    assert(v->Array_0 == items);
    if laws::nests_within(v, levels) {
        assert forall|i: int| 0 <= i < items.len() implies laws::nests_within(
            #[trigger] items[i],
            levels - 1,
        ) by {
            assert(laws::nests_within(v->Array_0[i], levels - 1));
        }
    }
    if laws::whole_millis(v) {
        assert forall|i: int| 0 <= i < items.len() implies laws::whole_millis(
            #[trigger] items[i],
        ) by {
            assert(laws::whole_millis(v->Array_0[i]));
        }
    }
    if laws::valid(v) {
        assert forall|i: int| 0 <= i < items.len() implies laws::valid(#[trigger] items[i]) by {
            assert(laws::valid(v->Array_0[i]));
        }
    }
}

/// A map is one level deeper than the deepest of its values, has no part of a
/// millisecond exactly when none of its values has, and no name twice exactly when
/// its own names differ and none of its values has one twice.
pub proof fn law_map_shape(entries: Seq<(Seq<char>, ValueView)>, levels: int)
    ensures
        laws::nests_within(ValueView::TlvMap(entries), levels) <==> levels >= 0 && forall|i: int|
            0 <= i < entries.len() ==> laws::nests_within((#[trigger] entries[i]).1, levels - 1),
        laws::whole_millis(ValueView::TlvMap(entries)) <==> forall|i: int|
            0 <= i < entries.len() ==> laws::whole_millis((#[trigger] entries[i]).1),
        laws::valid(ValueView::TlvMap(entries)) <==> (forall|i: int, j: int|
            0 <= i < j < entries.len() ==> #[trigger] entries[i].0 != #[trigger] entries[j].0) && (
        forall|i: int| 0 <= i < entries.len() ==> laws::valid((#[trigger] entries[i]).1)),
{
    let v = ValueView::TlvMap(entries);
    assert(v->TlvMap_0 == entries);
    if laws::nests_within(v, levels) {
        assert forall|i: int| 0 <= i < entries.len() implies laws::nests_within(
            (#[trigger] entries[i]).1,
            levels - 1,
        ) by {
            assert(laws::nests_within(v->TlvMap_0[i].1, levels - 1));
        }
    }
    if laws::whole_millis(v) {
        assert forall|i: int| 0 <= i < entries.len() implies laws::whole_millis(
            (#[trigger] entries[i]).1,
        ) by {
            assert(laws::whole_millis(v->TlvMap_0[i].1));
        }
    }
    if laws::valid(v) {
        assert forall|i: int| 0 <= i < entries.len() implies laws::valid(
            (#[trigger] entries[i]).1,
        ) by {
            assert(laws::valid(v->TlvMap_0[i].1));
        }
    }
}

/// A value of up to 524288 bytes, nested no deeper than 64, whose spans of time have
/// no parts of milliseconds, is read back exactly as it was written, whatever bytes
/// follow.
pub proof fn law_read_back(v: ValueView, rest: Seq<u8>)
    requires
        laws::valid(v),
        laws::whole_millis(v),
        laws::nests_within(v, 64),
        model::payload(v).len() <= 524288,
    ensures
        model::decoded(model::encoding(v) + rest) == Ok::<ValueView, Seq<char>>(v),
        model::value_len(model::encoding(v) + rest) == model::encoding(v).len(),
{
    laws::law_decode_encode(v, rest);
    laws::law_trimmed_exact(v);
    laws::lemma_header(model::type_of(v), model::payload(v), rest);
}

} // verus!
