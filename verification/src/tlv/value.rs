//! Values and maps of values.

use crate::assoc;
use crate::bytes;
use crate::time::Duration;
use crate::tlv::model::ValueView;
use vstd::prelude::*;

verus! {

/// The kinds of value that the format knows.
#[derive(Debug, Clone, Copy, PartialEq, Eq, Structural)]
pub enum Type {
    String,
    Bytes,
    Uint8,
    Uint16,
    Uint32,
    Uint64,
    Int32,
    Int64,
    Float32,
    Float64,
    Bool,
    Array,
    TlvMap,
    Null,
    Timestamp,
}

/// The byte that stands for a kind of value on the wire.
pub open spec fn type_code(t: Type) -> u8 {
    match t {
        Type::String => 0x01,
        Type::Bytes => 0x02,
        Type::Uint8 => 0x03,
        Type::Uint16 => 0x04,
        Type::Uint32 => 0x05,
        Type::Uint64 => 0x06,
        Type::Int32 => 0x07,
        Type::Int64 => 0x08,
        Type::Float32 => 0x09,
        Type::Float64 => 0x0A,
        Type::Bool => 0x0B,
        Type::Array => 0x0C,
        Type::TlvMap => 0x0D,
        Type::Null => 0x0E,
        Type::Timestamp => 0x0F,
    }
}

/// The kind of value that a byte stands for, if it stands for one.
pub open spec fn type_from(b: u8) -> Option<Type> {
    if b == 0x01 {
        Some(Type::String)
    } else if b == 0x02 {
        Some(Type::Bytes)
    } else if b == 0x03 {
        Some(Type::Uint8)
    } else if b == 0x04 {
        Some(Type::Uint16)
    } else if b == 0x05 {
        Some(Type::Uint32)
    } else if b == 0x06 {
        Some(Type::Uint64)
    } else if b == 0x07 {
        Some(Type::Int32)
    } else if b == 0x08 {
        Some(Type::Int64)
    } else if b == 0x09 {
        Some(Type::Float32)
    } else if b == 0x0A {
        Some(Type::Float64)
    } else if b == 0x0B {
        Some(Type::Bool)
    } else if b == 0x0C {
        Some(Type::Array)
    } else if b == 0x0D {
        Some(Type::TlvMap)
    } else if b == 0x0E {
        Some(Type::Null)
    } else if b == 0x0F {
        Some(Type::Timestamp)
    } else {
        None
    }
}

/// A byte stands for a kind of value exactly when it is that kind's code.
pub proof fn law_type_codes(b: u8, t: Type)
    ensures
        type_from(b) == Some(t) <==> type_code(t) == b,
{
}

impl Type {
    /// The kind of value that a byte stands for.
    pub fn from_u8(b: u8) -> (r: Option<Type>)
        ensures
            r == type_from(b),
    {
        match b {
            0x01 => Some(Type::String),
            0x02 => Some(Type::Bytes),
            0x03 => Some(Type::Uint8),
            0x04 => Some(Type::Uint16),
            0x05 => Some(Type::Uint32),
            0x06 => Some(Type::Uint64),
            0x07 => Some(Type::Int32),
            0x08 => Some(Type::Int64),
            0x09 => Some(Type::Float32),
            0x0A => Some(Type::Float64),
            0x0B => Some(Type::Bool),
            0x0C => Some(Type::Array),
            0x0D => Some(Type::TlvMap),
            0x0E => Some(Type::Null),
            0x0F => Some(Type::Timestamp),
            _ => None,
        }
    }
}

/// A failure of the format, with its text.
#[derive(Debug)]
pub enum TlvError {
    Custom(String),
}

impl vstd::std_specs::convert::FromSpecImpl<&str> for TlvError {
    open spec fn obeys_from_spec() -> bool {
        false
    }

    open spec fn from_spec(s: &str) -> TlvError {
        arbitrary()
    }
}

impl From<&str> for TlvError {
    fn from(s: &str) -> (e: TlvError)
        ensures
            e->Custom_0@ == s@,
    {
        TlvError::Custom(s.to_owned())
    }
}

impl TlvError {
    /// The error as text.
    pub fn message(&self) -> (s: String)
        ensures
            s@ == "tlv: "@ + self->Custom_0@,
    {
        match self {
            TlvError::Custom(e) => crate::text::concat2("tlv: ", e.as_str()),
        }
    }
}

/// A value. Floating-point numbers are held as their IEEE 754 bits.
#[derive(Debug, PartialEq)]
pub enum Value {
    String(String),
    Bytes(Vec<u8>),
    Uint8(u8),
    Uint16(u16),
    Uint32(u32),
    Uint64(u64),
    Int32(i32),
    Int64(i64),
    Float32(u32),
    Float64(u64),
    Bool(bool),
    Array(Vec<Value>),
    TlvMap(TlvMap),
    Null,
    Timestamp(Duration),
}

/// Named values, in the order in which their names were first set.
#[derive(Debug, PartialEq)]
pub struct TlvMap {
    entries: Vec<(String, Value)>,
}

/// The views of the items of an array.
pub open spec fn items_view(items: Seq<Value>) -> Seq<ValueView>
    decreases items,
{
    Seq::new(
        items.len(),
        |i: int|
            if 0 <= i < items.len() {
                items[i].view()
            } else {
                arbitrary()
            },
    )
}

impl View for Value {
    type V = ValueView;

    open spec fn view(&self) -> ValueView
        decreases self,
    {
        match self {
            Value::String(s) => ValueView::String(s@),
            Value::Bytes(b) => ValueView::Bytes(b@),
            Value::Uint8(n) => ValueView::Uint8(*n),
            Value::Uint16(n) => ValueView::Uint16(*n),
            Value::Uint32(n) => ValueView::Uint32(*n),
            Value::Uint64(n) => ValueView::Uint64(*n),
            Value::Int32(n) => ValueView::Int32(*n),
            Value::Int64(n) => ValueView::Int64(*n),
            Value::Float32(bits) => ValueView::Float32(*bits),
            Value::Float64(bits) => ValueView::Float64(*bits),
            Value::Bool(b) => ValueView::Bool(*b),
            Value::Array(items) => ValueView::Array(items_view(items@)),
            Value::TlvMap(m) => ValueView::TlvMap(m.view()),
            Value::Null => ValueView::Null,
            Value::Timestamp(d) => ValueView::Timestamp(d@),
        }
    }
}

/// The views of named values.
pub open spec fn entries_view(entries: Seq<(String, Value)>) -> Seq<(Seq<char>, ValueView)>
    decreases entries,
{
    Seq::new(
        entries.len(),
        |i: int|
            if 0 <= i < entries.len() {
                (entries[i].0@, entries[i].1.view())
            } else {
                arbitrary()
            },
    )
}

impl View for TlvMap {
    type V = Seq<(Seq<char>, ValueView)>;

    closed spec fn view(&self) -> Seq<(Seq<char>, ValueView)>
        decreases self,
    {
        entries_view(self.entries@)
    }
}

/// The views of items, one for one.
pub proof fn lemma_items_view(items: Seq<Value>)
    ensures
        items_view(items).len() == items.len(),
        forall|i: int| 0 <= i < items.len() ==> #[trigger] items_view(items)[i] == items[i]@,
{
}

/// The views of named values, one for one.
pub proof fn lemma_entries_view(entries: Seq<(String, Value)>)
    ensures
        entries_view(entries).len() == entries.len(),
        forall|i: int|
            0 <= i < entries.len() ==> #[trigger] entries_view(entries)[i] == (
                entries[i].0@,
                entries[i].1@,
            ),
{
}

/// The view of an array is the views of its items.
pub proof fn lemma_array_view(v: Value)
    requires
        v is Array,
    ensures
        v@ is Array,
        v@->Array_0.len() == v->Array_0@.len(),
        forall|i: int| 0 <= i < v->Array_0@.len() ==> #[trigger] v@->Array_0[i] == v->Array_0@[i]@,
{
    lemma_items_view(v->Array_0@);
    assert(v@ == ValueView::Array(items_view(v->Array_0@)));
}

/// The view of a value that is no container is that value.
pub proof fn law_plain_view(s: String, b: Vec<u8>, n: u64, m: i64, d: Duration, t: bool)
    ensures
        Value::String(s)@ == ValueView::String(s@),
        Value::Bytes(b)@ == ValueView::Bytes(b@),
        Value::Uint8(n as u8)@ == ValueView::Uint8(n as u8),
        Value::Uint16(n as u16)@ == ValueView::Uint16(n as u16),
        Value::Uint32(n as u32)@ == ValueView::Uint32(n as u32),
        Value::Uint64(n)@ == ValueView::Uint64(n),
        Value::Int32(m as i32)@ == ValueView::Int32(m as i32),
        Value::Int64(m)@ == ValueView::Int64(m),
        Value::Float32(n as u32)@ == ValueView::Float32(n as u32),
        Value::Float64(n)@ == ValueView::Float64(n),
        Value::Bool(t)@ == ValueView::Bool(t),
        Value::Null@ == ValueView::Null,
        Value::Timestamp(d)@ == ValueView::Timestamp(d.nanos as nat),
{
}

impl Clone for Value {
    fn clone(&self) -> (r: Value)
        ensures
            r@ == self@,
        decreases self,
    {
        match self {
            Value::String(s) => Value::String(s.clone()),
            Value::Bytes(b) => Value::Bytes(bytes::to_vec(b.as_slice())),
            Value::Uint8(n) => Value::Uint8(*n),
            Value::Uint16(n) => Value::Uint16(*n),
            Value::Uint32(n) => Value::Uint32(*n),
            Value::Uint64(n) => Value::Uint64(*n),
            Value::Int32(n) => Value::Int32(*n),
            Value::Int64(n) => Value::Int64(*n),
            Value::Float32(bits) => Value::Float32(*bits),
            Value::Float64(bits) => Value::Float64(*bits),
            Value::Bool(b) => Value::Bool(*b),
            Value::Array(items) => {
                let mut copy: Vec<Value> = Vec::new();
                let mut i: usize = 0;
                while i < items.len()
                    invariant
                        i <= items@.len(),
                        self is Array,
                        self->Array_0 == *items,
                        copy@.len() == i,
                        forall|j: int| 0 <= j < i ==> (#[trigger] copy@[j])@ == items@[j]@,
                    decreases items@.len() - i,
                {
                    assert(decreases_to!(*self => self->Array_0));
                    copy.push(items[i].clone());
                    i = i + 1;
                }
                let r = Value::Array(copy);
                proof {
                    lemma_array_view(r);
                    lemma_array_view(*self);
                }
                assert(r@->Array_0 =~= self@->Array_0);
                r
            },
            Value::TlvMap(m) => Value::TlvMap(m.clone()),
            Value::Null => Value::Null,
            Value::Timestamp(d) => Value::Timestamp(*d),
        }
    }
}

impl TlvMap {
    /// No name occurs twice.
    #[verifier::type_invariant]
    pub open spec fn unique_names(self) -> bool {
        assoc::unique(self@)
    }
}

impl Clone for TlvMap {
    fn clone(&self) -> (r: TlvMap)
        ensures
            r@ == self@,
        decreases self,
    {
        let mut copy: Vec<(String, Value)> = Vec::new();
        let mut i: usize = 0;
        while i < self.entries.len()
            invariant
                i <= self.entries@.len(),
                copy@.len() == i,
                forall|j: int|
                    0 <= j < i ==> (#[trigger] copy@[j]).0@ == self.entries@[j].0@ && copy@[j].1@
                        == self.entries@[j].1@,
            decreases self.entries@.len() - i,
        {
            assert(decreases_to!(*self => self.entries@[i as int].1));
            let value = self.entries[i].1.clone();
            copy.push((self.entries[i].0.clone(), value));
            i = i + 1;
        }
        proof {
            use_type_invariant(self);
            lemma_entries_view(copy@);
            lemma_entries_view(self.entries@);
            assert(entries_view(copy@) =~= self@);
        }
        TlvMap { entries: copy }
    }
}

impl TlvMap {
    /// An empty map.
    pub fn new() -> (m: TlvMap)
        ensures
            m@ == Seq::<(Seq<char>, ValueView)>::empty(),
    {
        let entries: Vec<(String, Value)> = Vec::new();
        proof {
            lemma_entries_view(entries@);
            assert(entries_view(entries@) =~= Seq::<(Seq<char>, ValueView)>::empty());
        }
        TlvMap { entries }
    }

    /// The place of the first entry named `key`; the length if there is none.
    fn find(&self, key: &String) -> (at: usize)
        ensures
            at == assoc::position(self@, key@),
            at <= self.entries@.len(),
            self@.len() == self.entries@.len(),
            forall|i: int|
                0 <= i < self@.len() ==> #[trigger] self@[i] == (
                    self.entries@[i].0@,
                    self.entries@[i].1@,
                ),
    {
        proof {
            lemma_entries_view(self.entries@);
        }
        let mut i: usize = 0;
        while i < self.entries.len()
            invariant
                i <= self.entries@.len(),
                self@.len() == self.entries@.len(),
                forall|j: int|
                    0 <= j < self@.len() ==> #[trigger] self@[j] == (
                        self.entries@[j].0@,
                        self.entries@[j].1@,
                    ),
                forall|j: int| 0 <= j < i ==> (#[trigger] self@[j]).0 != key@,
            decreases self.entries@.len() - i,
        {
            if self.entries[i].0 == *key {
                proof {
                    assoc::lemma_position_is(self@, key@, i as int);
                }
                return i;
            }
            i = i + 1;
        }
        proof {
            assoc::lemma_position_is(self@, key@, i as int);
        }
        i
    }

    /// Give the name `key` the value `value`, in place of the value it had, or
    /// as a new last entry.
    pub fn set(&mut self, key: &str, value: Value) -> (r: &mut TlvMap)
        ensures
            r@ == assoc::upsert(old(self)@, key@, value@),
            *final(self) == *final(r),
    {
        let key: String = key.to_owned();
        let at: usize = self.find(&key);
        proof {
            use_type_invariant(&*self);
            assoc::lemma_position(self@, key@);
            assoc::law_upsert_keeps_unique(self@, key@, value@);
        }
        let ghost after = assoc::upsert(self@, key@, value@);
        let mut entries: Vec<(String, Value)> = Vec::new();
        proof {
            lemma_entries_view(entries@);
            lemma_entries_view(self.entries@);
        }
        std::mem::swap(&mut entries, &mut self.entries);
        if at < entries.len() {
            entries.set(at, (key, value));
        } else {
            entries.push((key, value));
        }
        proof {
            lemma_entries_view(entries@);
            assert(entries_view(entries@) =~= after);
        }
        self.entries = entries;
        self
    }

    /// The value named `key`.
    pub fn get(&self, key: &str) -> (r: Option<&Value>)
        ensures
            match r {
                Some(v) => assoc::lookup(self@, key@) == Some(v@),
                None => assoc::lookup(self@, key@) is None,
            },
    {
        let at: usize = self.find(&key.to_owned());
        if at < self.entries.len() {
            Some(&self.entries[at].1)
        } else {
            None
        }
    }

    /// The text named `key`, if that value is text.
    pub fn get_string(&self, key: &str) -> (r: Option<&str>)
        ensures
            match r {
                Some(s) => assoc::lookup(self@, key@) == Some(ValueView::String(s@)),
                None => !(assoc::lookup(self@, key@) matches Some(ValueView::String(_))),
            },
    {
        match self.get(key) {
            Some(Value::String(s)) => Some(s.as_str()),
            _ => None,
        }
    }

    /// The number named `key`, if that value is an unsigned 64-bit number.
    pub fn get_uint64(&self, key: &str) -> (r: Option<u64>)
        ensures
            match r {
                Some(n) => assoc::lookup(self@, key@) == Some(ValueView::Uint64(n)),
                None => !(assoc::lookup(self@, key@) matches Some(ValueView::Uint64(_))),
            },
    {
        match self.get(key) {
            Some(Value::Uint64(n)) => Some(*n),
            _ => None,
        }
    }

    /// The bytes named `key`, if that value is bytes.
    pub fn get_bytes(&self, key: &str) -> (r: Option<&[u8]>)
        ensures
            match r {
                Some(b) => assoc::lookup(self@, key@) == Some(ValueView::Bytes(b@)),
                None => !(assoc::lookup(self@, key@) matches Some(ValueView::Bytes(_))),
            },
    {
        match self.get(key) {
            Some(Value::Bytes(b)) => Some(b.as_slice()),
            _ => None,
        }
    }

    /// A copy of the map named `key`, if that value is a map.
    pub fn get_map(&self, key: &str) -> (r: Option<TlvMap>)
        ensures
            match r {
                Some(m) => assoc::lookup(self@, key@) == Some(ValueView::TlvMap(m@)),
                None => !(assoc::lookup(self@, key@) matches Some(ValueView::TlvMap(_))),
            },
    {
        match self.get(key) {
            Some(Value::TlvMap(m)) => Some(m.clone()),
            _ => None,
        }
    }

    /// The entry at place `at`.
    pub fn entry(&self, at: usize) -> (r: (&str, &Value))
        requires
            at < self@.len(),
        ensures
            (r.0@, r.1@) == self@[at as int],
            decreases_to!(*self => *r.1),
    {
        proof {
            lemma_entries_view(self.entries@);
        }
        (self.entries[at].0.as_str(), &self.entries[at].1)
    }

    /// All entries, in order.
    pub fn iter(&self) -> (r: Vec<(&str, &Value)>)
        ensures
            r@.len() == self@.len(),
            forall|i: int| 0 <= i < r@.len() ==> ((#[trigger] r@[i]).0@, r@[i].1@) == self@[i],
    {
        proof {
            lemma_entries_view(self.entries@);
        }
        let mut r: Vec<(&str, &Value)> = Vec::new();
        let mut i: usize = 0;
        while i < self.entries.len()
            invariant
                i <= self.entries@.len(),
                self@.len() == self.entries@.len(),
                r@.len() == i,
                forall|j: int| 0 <= j < i ==> ((#[trigger] r@[j]).0@, r@[j].1@) == self@[j],
            decreases self.entries@.len() - i,
        {
            r.push(self.entry(i));
            i = i + 1;
        }
        r
    }

    /// How many entries there are.
    pub fn len(&self) -> (n: usize)
        ensures
            n == self@.len(),
    {
        proof {
            lemma_entries_view(self.entries@);
        }
        self.entries.len()
    }

    /// Whether there is no entry.
    pub fn is_empty(&self) -> (r: bool)
        ensures
            r == (self@.len() == 0),
    {
        self.len() == 0
    }

    /// A copy of the map as a value, to stand inside another container.
    pub fn map_value(m: &TlvMap) -> (v: Value)
        ensures
            v@ == ValueView::TlvMap(m@),
    {
        Value::TlvMap(m.clone())
    }

    /// Take the entries out, in order.
    pub fn into_entries(self) -> (r: Vec<(String, Value)>)
        ensures
            r@.len() == self@.len(),
            forall|i: int| 0 <= i < r@.len() ==> ((#[trigger] r@[i]).0@, r@[i].1@) == self@[i],
    {
        proof {
            lemma_entries_view(self.entries@);
        }
        self.entries
    }
}

impl Default for TlvMap {
    fn default() -> (m: TlvMap)
        ensures
            m@ == Seq::<(Seq<char>, ValueView)>::empty(),
    {
        TlvMap::new()
    }
}

} // verus!
