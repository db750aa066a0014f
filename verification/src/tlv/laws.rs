//! What reading gives back of what was written.

use crate::assoc;
use crate::bytes;
use crate::tlv::model;
use crate::tlv::model::{ValueView, MAX_PAYLOAD_SIZE};
use crate::tlv::value;
use crate::tlv::value::Type;
use crate::tlv::varint;
use vstd::prelude::*;
use vstd::utf8;

verus! {

/// No map in the value has a name twice. Every value that can be built or read
/// has this.
pub open spec fn valid(v: ValueView) -> bool
    decreases v,
{
    match v {
        ValueView::Array(items) => forall|i: int|
            0 <= i < items.len() ==> valid(#[trigger] items[i]),
        ValueView::TlvMap(entries) => assoc::unique(entries) && forall|i: int|
            0 <= i < entries.len() ==> valid((#[trigger] entries[i]).1),
        _ => true,
    }
}

/// The value can be written: no map in it has a name twice, and the size of its
/// payload is a 64-bit number.
pub open spec fn writable(v: ValueView) -> bool {
    valid(v) && model::payload(v).len() < 0x1_0000_0000_0000_0000
}

/// No part of the value lies more than `levels` containers deep.
pub open spec fn nests_within(v: ValueView, levels: int) -> bool
    decreases v,
{
    levels >= 0 && match v {
        ValueView::Array(items) => forall|i: int|
            0 <= i < items.len() ==> nests_within(#[trigger] items[i], levels - 1),
        ValueView::TlvMap(entries) => forall|i: int|
            0 <= i < entries.len() ==> nests_within((#[trigger] entries[i]).1, levels - 1),
        _ => true,
    }
}

/// No part of a named value lies more than `levels` containers deep.
pub open spec fn entries_nest(entries: Seq<(Seq<char>, ValueView)>, levels: int) -> bool {
    forall|i: int| 0 <= i < entries.len() ==> nests_within((#[trigger] entries[i]).1, levels)
}

/// A span of time as it is written: its whole milliseconds, modulo 2 to the 64.
pub open spec fn trimmed_nanos(nanos: nat) -> nat {
    ((nanos / 1_000_000) % 0x1_0000_0000_0000_0000) * 1_000_000
}

/// The value with every span of time in it as it is written.
pub open spec fn trimmed(v: ValueView) -> ValueView
    decreases v,
{
    match v {
        ValueView::Array(items) => ValueView::Array(trimmed_items(items)),
        ValueView::TlvMap(entries) => ValueView::TlvMap(trimmed_entries(entries)),
        ValueView::Timestamp(nanos) => ValueView::Timestamp(trimmed_nanos(nanos)),
        _ => v,
    }
}

/// Each item with its spans of time as they are written.
pub open spec fn trimmed_items(items: Seq<ValueView>) -> Seq<ValueView>
    decreases items,
{
    if items.len() == 0 {
        Seq::empty()
    } else {
        seq![trimmed(items[0])] + trimmed_items(items.drop_first())
    }
}

/// Each named value with its spans of time as they are written.
pub open spec fn trimmed_entries(entries: Seq<(Seq<char>, ValueView)>) -> Seq<
    (Seq<char>, ValueView),
>
    decreases entries,
{
    if entries.len() == 0 {
        Seq::empty()
    } else {
        seq![(entries[0].0, trimmed(entries[0].1))] + trimmed_entries(entries.drop_first())
    }
}

/// Every span of time in the value is a whole number of milliseconds below 2
/// to the 64.
pub open spec fn whole_millis(v: ValueView) -> bool
    decreases v,
{
    match v {
        ValueView::Array(items) => forall|i: int|
            0 <= i < items.len() ==> whole_millis(#[trigger] items[i]),
        ValueView::TlvMap(entries) => forall|i: int|
            0 <= i < entries.len() ==> whole_millis((#[trigger] entries[i]).1),
        ValueView::Timestamp(nanos) => trimmed_nanos(nanos) == nanos,
        _ => true,
    }
}

/// What reading a value nested `depth` deep gives, where its payload is within
/// the limit.
pub open spec fn outcome(v: ValueView, depth: nat) -> Result<ValueView, Seq<char>> {
    if nests_within(v, 64 - depth) {
        Ok(trimmed(v))
    } else {
        Err(model::too_deep(65))
    }
}

// ── Reading what was written ────────────────────────────────

/// The header of a value is read back, whatever bytes follow.
pub proof fn lemma_header(t: Type, p: Seq<u8>, rest: Seq<u8>)
    requires
        p.len() <= MAX_PAYLOAD_SIZE,
    ensures
        ({
            let f = model::framed(t, p);
            let start = (f.len() - p.len()) as nat;
            &&& model::parse_header(f + rest) == Ok::<(Type, nat, nat), Seq<char>>(
                (t, start, f.len()),
            )
            &&& model::value_len(f + rest) == f.len()
            &&& (f + rest).subrange(start as int, f.len() as int) == p
        }),
{
    let f = model::framed(t, p);
    let s = f + rest;
    let n = varint::varint(p.len());
    value::law_type_codes(s[0], t);
    varint::law_varint_roundtrip(p.len(), p + rest);
    assert(s.skip(1) =~= n + (p + rest));
    assert(s.subrange(1 + n.len() as int, f.len() as int) =~= p);
}

proof fn lemma_number(n: nat, width: nat, short: Seq<char>)
    requires
        width == 1 && n < 0x100 || width == 2 && n < 0x1_0000 || width == 4 && n < 0x1_0000_0000
            || width == 8 && n < 0x1_0000_0000_0000_0000,
    ensures
        model::parse_number(bytes::be(n, width), width, short) == Ok::<nat, Seq<char>>(n),
{
    bytes::lemma_pow256();
    bytes::lemma_be_len(n, width);
    bytes::lemma_from_be_be(n, width);
    assert(bytes::be(n, width).take(width as int) =~= bytes::be(n, width));
}

proof fn lemma_parse_payload(v: ValueView, depth: nat)
    requires
        valid(v),
        depth <= 64,
        model::payload(v).len() <= MAX_PAYLOAD_SIZE,
    ensures
        model::parse_payload(model::type_of(v), model::payload(v), depth) == outcome(v, depth),
    decreases v, 0nat,
{
    match v {
        ValueView::String(s) => {
            utf8::encode_utf8_valid_utf8(s);
            utf8::encode_utf8_decode_utf8(s);
        },
        ValueView::Bytes(b) => {},
        ValueView::Uint8(n) => lemma_number(n as nat, 1, "tlv: uint8 needs 1 byte"@),
        ValueView::Uint16(n) => lemma_number(n as nat, 2, "tlv: uint16 needs 2 bytes"@),
        ValueView::Uint32(n) => lemma_number(n as nat, 4, "tlv: uint32 needs 4 bytes"@),
        ValueView::Uint64(n) => lemma_number(n as nat, 8, "tlv: uint64 needs 8 bytes"@),
        ValueView::Int32(n) => lemma_number(
            model::twos_complement(n as int, 0x1_0000_0000),
            4,
            "tlv: int32 needs 4 bytes"@,
        ),
        ValueView::Int64(n) => lemma_number(
            model::twos_complement(n as int, 0x1_0000_0000_0000_0000),
            8,
            "tlv: int64 needs 8 bytes"@,
        ),
        ValueView::Float32(bits) => lemma_number(bits as nat, 4, "tlv: float32 needs 4 bytes"@),
        ValueView::Float64(bits) => lemma_number(bits as nat, 8, "tlv: float64 needs 8 bytes"@),
        ValueView::Bool(b) => lemma_number(
            if b {
                1
            } else {
                0
            },
            1,
            "tlv: bool needs 1 byte"@,
        ),
        ValueView::Array(items) => {
            assert(model::payload(v) == model::items_encoding(items));
            lemma_parse_items(items, depth + 1);
            assert(trimmed(v) == ValueView::Array(trimmed_items(items)));
        },
        ValueView::TlvMap(entries) => {
            assert(model::payload(v) == model::entries_encoding(entries));
            let none = Seq::<(Seq<char>, ValueView)>::empty();
            assert(none + entries =~= entries);
            lemma_parse_entries(entries, depth + 1, none);
            assert(none + trimmed_entries(entries) =~= trimmed_entries(entries));
            assert(trimmed(v) == ValueView::TlvMap(trimmed_entries(entries)));
        },
        ValueView::Null => {},
        ValueView::Timestamp(nanos) => lemma_number(
            (nanos / 1_000_000) % 0x1_0000_0000_0000_0000,
            8,
            "tlv: timestamp needs 8 bytes"@,
        ),
    }
}

proof fn lemma_parse_encoding(v: ValueView, depth: nat, rest: Seq<u8>)
    requires
        valid(v),
        depth <= 64,
        model::payload(v).len() <= MAX_PAYLOAD_SIZE,
    ensures
        model::parse_value(model::encoding(v) + rest, depth) == outcome(v, depth),
        model::value_len(model::encoding(v) + rest) == model::encoding(v).len(),
    decreases v, 1nat,
{
    lemma_header(model::type_of(v), model::payload(v), rest);
    lemma_parse_payload(v, depth);
    assert(model::encoding(v) == model::framed(model::type_of(v), model::payload(v)));
}

proof fn lemma_parse_items(items: Seq<ValueView>, depth: nat)
    requires
        1 <= depth <= 65,
        forall|i: int| 0 <= i < items.len() ==> valid(#[trigger] items[i]),
        model::items_encoding(items).len() <= MAX_PAYLOAD_SIZE,
    ensures
        model::parse_items(model::items_encoding(items), depth) == if forall|i: int|
            0 <= i < items.len() ==> nests_within(#[trigger] items[i], 64 - depth) {
            Ok::<Seq<ValueView>, Seq<char>>(trimmed_items(items))
        } else {
            Err(model::too_deep(65))
        },
    decreases items, 0nat,
{
    if items.len() > 0 {
        let first = model::encoding(items[0]);
        let tail = items.drop_first();
        let rest = model::items_encoding(tail);
        let all = model::items_encoding(items);
        assert(all == first + rest);
        assert(first == model::framed(model::type_of(items[0]), model::payload(items[0])));
        assert forall|i: int| 0 <= i < tail.len() implies valid(#[trigger] tail[i]) by {
            assert(tail[i] == items[i + 1]);
            assert(valid(items[i + 1]));
        }
        assert(valid(items[0]));
        if depth == 65 {
            assert(!nests_within(items[0], 64 - depth));
        } else {
            lemma_parse_encoding(items[0], depth, rest);
            assert(all.skip(first.len() as int) =~= rest);
            lemma_parse_items(tail, depth);
            if forall|i: int|
                0 <= i < items.len() ==> nests_within(#[trigger] items[i], 64 - depth) {
                assert(nests_within(items[0], 64 - depth));
                assert forall|i: int| 0 <= i < tail.len() implies nests_within(
                    #[trigger] tail[i],
                    64 - depth,
                ) by {
                    assert(nests_within(items[i + 1], 64 - depth));
                }
            } else if nests_within(items[0], 64 - depth) {
                let i = choose|i: int|
                    0 <= i < items.len() && !nests_within(#[trigger] items[i], 64 - depth);
                assert(tail[i - 1] == items[i]);
                assert(!nests_within(tail[i - 1], 64 - depth));
            }
        }
    }
}

/// Reading the first named value, and then the others.
proof fn lemma_parse_first_entry(
    key: Seq<char>,
    v: ValueView,
    rest: Seq<u8>,
    depth: nat,
    before: Seq<(Seq<char>, ValueView)>,
)
    requires
        depth <= 64,
        valid(v),
        utf8::encode_utf8(key).len() <= MAX_PAYLOAD_SIZE,
        model::payload(v).len() <= MAX_PAYLOAD_SIZE,
    ensures
        model::parse_entries(
            model::framed(Type::String, utf8::encode_utf8(key)) + model::encoding(v) + rest,
            depth,
            before,
        ) == match outcome(v, depth) {
            Ok(t) => model::parse_entries(rest, depth, assoc::upsert(before, key, t)),
            Err(e) => Err(e),
        },
    decreases v, 2nat,
{
    let name = model::framed(Type::String, utf8::encode_utf8(key));
    let first = model::encoding(v);
    let all = name + first + rest;
    lemma_parse_key(key, depth, first + rest);
    lemma_parse_encoding(v, depth, rest);
    assert(all =~= name + (first + rest));
    assert(all.skip(name.len() as int) =~= first + rest);
    assert((first + rest).skip(first.len() as int) =~= rest);
    assert(first == model::framed(model::type_of(v), model::payload(v)));
    assert(first.len() > 0);
}

/// A name that is new goes to the end.
proof fn lemma_new_name(
    entries: Seq<(Seq<char>, ValueView)>,
    before: Seq<(Seq<char>, ValueView)>,
    v: ValueView,
)
    requires
        entries.len() > 0,
        assoc::unique(before + entries),
    ensures
        assoc::upsert(before, entries[0].0, v) == before.push((entries[0].0, v)),
        assoc::unique(before.push((entries[0].0, v)) + entries.drop_first()),
{
    let key = entries[0].0;
    let both = before + entries;
    assoc::lemma_position(before, key);
    if assoc::has(before, key) {
        let p = assoc::position(before, key);
        assert(both[p].0 == key);
        assert(both[before.len() as int].0 == key);
    }
    let next = before.push((key, v)) + entries.drop_first();
    assert forall|i: int, j: int| 0 <= i < j < next.len() implies #[trigger] next[i].0
        != #[trigger] next[j].0 by {
        assert(next[i].0 == both[i].0);
        assert(next[j].0 == both[j].0);
    }
}

proof fn lemma_parse_entries(
    entries: Seq<(Seq<char>, ValueView)>,
    depth: nat,
    before: Seq<(Seq<char>, ValueView)>,
)
    requires
        1 <= depth <= 65,
        assoc::unique(before + entries),
        forall|i: int| 0 <= i < entries.len() ==> valid((#[trigger] entries[i]).1),
        model::entries_encoding(entries).len() <= MAX_PAYLOAD_SIZE,
    ensures
        model::parse_entries(model::entries_encoding(entries), depth, before) == if entries_nest(
            entries,
            64 - depth,
        ) {
            Ok::<Seq<(Seq<char>, ValueView)>, Seq<char>>(before + trimmed_entries(entries))
        } else {
            Err(model::too_deep(65))
        },
    decreases entries, 0nat,
{
    if entries.len() == 0 {
        assert(before + trimmed_entries(entries) =~= before);
    } else {
        let key = entries[0].0;
        let v = entries[0].1;
        let tail = entries.drop_first();
        let name = model::framed(Type::String, utf8::encode_utf8(key));
        let first = model::encoding(v);
        let rest = model::entries_encoding(tail);
        assert(model::entries_encoding(entries) == name + first + rest);
        assert(first == model::framed(model::type_of(v), model::payload(v)));
        if depth == 65 {
            let all = model::entries_encoding(entries);
            assert(all.len() > 0);
            assert(model::parse_value(all, depth) == Err::<ValueView, Seq<char>>(
                model::too_deep(65),
            ));
            assert(!nests_within(entries[0].1, 64 - depth));
        } else {
            let after = before.push((key, trimmed(v)));
            lemma_parse_first_entry(key, v, rest, depth, before);
            lemma_new_name(entries, before, trimmed(v));
            assert forall|i: int| 0 <= i < tail.len() implies valid((#[trigger] tail[i]).1) by {
                assert(tail[i] == entries[i + 1]);
            }
            lemma_parse_entries(tail, depth, after);
            assert(after + trimmed_entries(tail) =~= before + trimmed_entries(entries));
            lemma_entries_nest(entries, 64 - depth);
        }
    }
}

proof fn lemma_entries_nest(entries: Seq<(Seq<char>, ValueView)>, levels: int)
    requires
        entries.len() > 0,
    ensures
        entries_nest(entries, levels) <==> nests_within(entries[0].1, levels) && entries_nest(
            entries.drop_first(),
            levels,
        ),
{
    let tail = entries.drop_first();
    if entries_nest(entries, levels) {
        assert forall|i: int| 0 <= i < tail.len() implies nests_within(
            (#[trigger] tail[i]).1,
            levels,
        ) by {
            assert(tail[i] == entries[i + 1]);
        }
    } else if nests_within(entries[0].1, levels) {
        let i = choose|i: int|
            0 <= i < entries.len() && !nests_within((#[trigger] entries[i]).1, levels);
        assert(tail[i - 1] == entries[i]);
    }
}

proof fn lemma_parse_key(key: Seq<char>, depth: nat, rest: Seq<u8>)
    requires
        depth <= 64,
        utf8::encode_utf8(key).len() <= MAX_PAYLOAD_SIZE,
    ensures
        ({
            let name = model::framed(Type::String, utf8::encode_utf8(key));
            &&& model::parse_value(name + rest, depth) == Ok::<ValueView, Seq<char>>(
                ValueView::String(key),
            )
            &&& model::value_len(name + rest) == name.len()
        }),
{
    lemma_header(Type::String, utf8::encode_utf8(key), rest);
    utf8::encode_utf8_valid_utf8(key);
    utf8::encode_utf8_decode_utf8(key);
}

/// Reading the bytes of a value gives the value back, with spans of time cut to
/// whole milliseconds, whatever bytes follow. A payload over the limit is
/// rejected by its size, and a value nested too deep by its depth; nothing else
/// that was written is rejected.
pub proof fn law_decode_encode(v: ValueView, rest: Seq<u8>)
    requires
        writable(v),
    ensures
        model::decoded(model::encoding(v) + rest) == if model::payload(v).len()
            > MAX_PAYLOAD_SIZE {
            Err(model::too_large(model::payload(v).len()))
        } else if !nests_within(v, 64) {
            Err(model::too_deep(65))
        } else {
            Ok(trimmed(v))
        },
{
    let p = model::payload(v);
    if p.len() <= MAX_PAYLOAD_SIZE {
        lemma_parse_encoding(v, 0, rest);
    } else {
        let t = model::type_of(v);
        let s = model::encoding(v) + rest;
        value::law_type_codes(s[0], t);
        varint::law_varint_roundtrip(p.len(), p + rest);
        assert(s.skip(1) =~= varint::varint(p.len()) + (p + rest));
    }
}

/// No encoding begins with another: where the bytes of two values that can be
/// read agree from the start, the values are the same but for the parts of
/// milliseconds in them.
pub proof fn law_encoding_prefix_free(
    a: ValueView,
    b: ValueView,
    after_a: Seq<u8>,
    after_b: Seq<u8>,
)
    requires
        valid(a),
        valid(b),
        model::payload(a).len() <= MAX_PAYLOAD_SIZE,
        model::payload(b).len() <= MAX_PAYLOAD_SIZE,
        nests_within(a, 64),
        nests_within(b, 64),
        model::encoding(a) + after_a == model::encoding(b) + after_b,
    ensures
        trimmed(a) == trimmed(b),
{
    law_decode_encode(a, after_a);
    law_decode_encode(b, after_b);
}

/// A value that was read takes at least two bytes and no more than there are, and
/// depends on those bytes alone: whatever follows them, it is read as the same
/// value of the same length.
pub proof fn law_value_depends_on_its_bytes(s: Seq<u8>, depth: nat, rest: Seq<u8>)
    ensures
        model::parse_value(s, depth) matches Ok(v) ==> {
            let n = model::value_len(s);
            &&& 2 <= n <= s.len()
            &&& model::parse_value(s.take(n as int) + rest, depth) == Ok::<
                ValueView,
                Seq<char>,
            >(v)
            &&& model::value_len(s.take(n as int) + rest) == n
        },
{
    if let Ok(v) = model::parse_value(s, depth) {
        let (t, start, end) = model::parse_header(s)->Ok_0;
        let k = (start - 1) as nat;
        let tail = s.skip(1);
        varint::lemma_parse_varint_len(tail);
        let own = s.take(end as int) + rest;
        let after = s.subrange(start as int, end as int) + rest;
        varint::lemma_parse_varint_prefix(tail, after);
        assert(own.skip(1) =~= tail.take(k as int) + after);
        assert(own[0] == s[0]);
        assert(own.subrange(start as int, end as int) =~= s.subrange(start as int, end as int));
    }
}

/// A value whose spans of time are whole milliseconds is read back as it is.
pub proof fn law_trimmed_exact(v: ValueView)
    requires
        whole_millis(v),
    ensures
        trimmed(v) == v,
    decreases v,
{
    match v {
        ValueView::Array(items) => {
            assert(trimmed(v) == ValueView::Array(trimmed_items(items)));
            lemma_trimmed_items_exact(items);
        },
        ValueView::TlvMap(entries) => {
            assert(trimmed(v) == ValueView::TlvMap(trimmed_entries(entries)));
            lemma_trimmed_entries_exact(entries);
        },
        _ => {},
    }
}

proof fn lemma_trimmed_items_exact(items: Seq<ValueView>)
    requires
        forall|i: int| 0 <= i < items.len() ==> whole_millis(#[trigger] items[i]),
    ensures
        trimmed_items(items) == items,
    decreases items,
{
    if items.len() > 0 {
        let tail = items.drop_first();
        assert(whole_millis(items[0]));
        law_trimmed_exact(items[0]);
        assert forall|i: int| 0 <= i < tail.len() implies whole_millis(#[trigger] tail[i]) by {
            assert(whole_millis(items[i + 1]));
        }
        lemma_trimmed_items_exact(tail);
    }
    assert(trimmed_items(items) =~= items);
}

proof fn lemma_trimmed_entries_exact(entries: Seq<(Seq<char>, ValueView)>)
    requires
        forall|i: int| 0 <= i < entries.len() ==> whole_millis((#[trigger] entries[i]).1),
    ensures
        trimmed_entries(entries) == entries,
    decreases entries,
{
    if entries.len() > 0 {
        let tail = entries.drop_first();
        assert(whole_millis(entries[0].1));
        law_trimmed_exact(entries[0].1);
        assert forall|i: int| 0 <= i < tail.len() implies whole_millis((#[trigger] tail[i]).1) by {
            assert(whole_millis(entries[i + 1].1));
        }
        lemma_trimmed_entries_exact(tail);
    }
    assert(trimmed_entries(entries) =~= entries);
}

/// Reading the bytes of a map gives the map back.
pub proof fn law_decode_encode_map(entries: Seq<(Seq<char>, ValueView)>, rest: Seq<u8>)
    requires
        valid(ValueView::TlvMap(entries)),
        whole_millis(ValueView::TlvMap(entries)),
        nests_within(ValueView::TlvMap(entries), 64),
        model::payload(ValueView::TlvMap(entries)).len() <= MAX_PAYLOAD_SIZE,
    ensures
        model::decoded_map(model::encoding(ValueView::TlvMap(entries)) + rest) == Ok::<
            Seq<(Seq<char>, ValueView)>,
            Seq<char>,
        >(entries),
{
    law_decode_encode(ValueView::TlvMap(entries), rest);
    law_trimmed_exact(ValueView::TlvMap(entries));
}

/// Setting a name keeps a map free of names that occur twice, at every level.
pub proof fn law_set_keeps_valid(
    entries: Seq<(Seq<char>, ValueView)>,
    key: Seq<char>,
    v: ValueView,
)
    requires
        valid(ValueView::TlvMap(entries)),
        valid(v),
    ensures
        valid(ValueView::TlvMap(assoc::upsert(entries, key, v))),
{
    assoc::lemma_position(entries, key);
    assoc::law_upsert_keeps_unique(entries, key, v);
    let after = assoc::upsert(entries, key, v);
    assert forall|i: int| 0 <= i < after.len() implies valid((#[trigger] after[i]).1) by {
        if i < entries.len() && after[i] != (key, v) {
            assert(after[i] == entries[i]);
        }
    }
}

/// What can be said of every value that was read.
pub open spec fn readable(v: ValueView, depth: nat) -> bool {
    valid(v) && whole_millis(v) && nests_within(v, 64 - depth)
}

/// A value that was read has no map with a name twice, is nested no deeper than
/// the limit, and holds only whole milliseconds.
pub proof fn law_decoded_is_readable(s: Seq<u8>)
    ensures
        model::decoded(s) matches Ok(v) ==> readable(v, 0),
        model::decoded(s) matches Ok(v) ==> valid(v) && whole_millis(v) && nests_within(v, 64),
{
    lemma_parsed_value(s, 0);
}

proof fn lemma_parsed_value(s: Seq<u8>, depth: nat)
    ensures
        model::parse_value(s, depth) matches Ok(v) ==> readable(v, depth),
    decreases s.len(), 0nat,
{
    if depth <= 64 {
        if let Ok((t, start, end)) = model::parse_header(s) {
            let p = s.subrange(start as int, end as int);
            lemma_parsed_payload(t, p, depth);
        }
    }
}

proof fn lemma_parsed_payload(t: Type, p: Seq<u8>, depth: nat)
    requires
        depth <= 64,
    ensures
        model::parse_payload(t, p, depth) matches Ok(v) ==> readable(v, depth),
    decreases p.len(), 2nat,
{
    match t {
        Type::Array => {
            lemma_parsed_items(p, depth + 1);
            if let Ok(items) = model::parse_items(p, depth + 1) {
                let v = ValueView::Array(items);
                assert(valid(v));
                assert(whole_millis(v));
                assert(nests_within(v, 64 - depth));
            }
        },
        Type::TlvMap => {
            lemma_parsed_entries(p, depth + 1, Seq::empty());
            if let Ok(entries) = model::parse_entries(p, depth + 1, Seq::empty()) {
                let v = ValueView::TlvMap(entries);
                assert(valid(v));
                assert(whole_millis(v));
                assert(nests_within(v, 64 - depth));
            }
        },
        Type::Timestamp => {
            if p.len() >= 8 {
                let n = bytes::from_be(p.take(8));
                bytes::lemma_from_be_bound(p.take(8));
                bytes::lemma_pow256();
                assert((n * 1_000_000) / 1_000_000 == n);
                assert(n % 0x1_0000_0000_0000_0000 == n);
            }
        },
        _ => {},
    }
}

proof fn lemma_parsed_items(p: Seq<u8>, depth: nat)
    ensures
        model::parse_items(p, depth) matches Ok(items) ==> forall|i: int|
            0 <= i < items.len() ==> readable(#[trigger] items[i], depth),
    decreases p.len(), 1nat,
{
    if p.len() > 0 {
        lemma_parsed_value(p, depth);
        lemma_parsed_items(p.skip(model::value_len(p) as int), depth);
    }
}

proof fn lemma_parsed_entries(p: Seq<u8>, depth: nat, before: Seq<(Seq<char>, ValueView)>)
    requires
        assoc::unique(before),
        forall|i: int| 0 <= i < before.len() ==> readable((#[trigger] before[i]).1, depth),
    ensures
        model::parse_entries(p, depth, before) matches Ok(entries) ==> assoc::unique(entries)
            && forall|i: int|
            0 <= i < entries.len() ==> readable((#[trigger] entries[i]).1, depth),
    decreases p.len(), 1nat,
{
    if p.len() > 0 {
        let rest = p.skip(model::value_len(p) as int);
        if let Ok(ValueView::String(key)) = model::parse_value(p, depth) {
            if rest.len() > 0 {
                lemma_parsed_value(rest, depth);
                if let Ok(v) = model::parse_value(rest, depth) {
                    let after = assoc::upsert(before, key, v);
                    assoc::lemma_position(before, key);
                    assoc::law_upsert_keeps_unique(before, key, v);
                    assert forall|i: int| 0 <= i < after.len() implies readable(
                        (#[trigger] after[i]).1,
                        depth,
                    ) by {
                        if i < before.len() && after[i] != (key, v) {
                            assert(after[i] == before[i]);
                        }
                    }
                    lemma_parsed_entries(rest.skip(model::value_len(rest) as int), depth, after);
                }
            }
        }
    }
}

} // verus!
