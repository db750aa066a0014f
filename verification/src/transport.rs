//! What connections of any kind have in common.

use crate::text;
use vstd::prelude::*;

verus! {

/// The name of the protocol in the negotiation of a connection.
pub const DEFAULT_ALPN: &'static str = "hush/1";

/// A failure to make a connection, with its text.
#[derive(Debug)]
pub enum TransportError {
    Config(String),
}

impl TransportError {
    /// The error as text.
    pub fn message(&self) -> (s: String)
        ensures
            s@ == "transport: "@ + self->Config_0@,
    {
        match self {
            TransportError::Config(e) => text::concat2("transport: ", e.as_str()),
        }
    }
}

/// The part of an address before its first colon.
pub open spec fn host(addr: Seq<char>) -> Seq<char>
    decreases addr.len(),
{
    if addr.len() == 0 || addr[0] == ':' {
        Seq::empty()
    } else {
        seq![addr[0]] + host(addr.drop_first())
    }
}

proof fn lemma_host(addr: Seq<char>, at: int)
    requires
        0 <= at <= addr.len(),
        forall|j: int| 0 <= j < at ==> #[trigger] addr[j] != ':',
        at < addr.len() ==> addr[at] == ':',
    ensures
        host(addr) == addr.take(at),
    decreases addr.len(),
{
    if at > 0 {
        let tail = addr.drop_first();
        assert forall|j: int| 0 <= j < at - 1 implies #[trigger] tail[j] != ':' by {
            assert(addr[j + 1] != ':');
        }
        lemma_host(tail, at - 1);
        assert(addr[0] != ':');
        assert(host(addr) =~= addr.take(at));
    } else {
        assert(host(addr) =~= addr.take(at));
    }
}

/// What stands before the first colon of an address is its host, and an address
/// without a colon is one.
pub proof fn law_host(name: Seq<char>, rest: Seq<char>)
    requires
        forall|j: int| 0 <= j < name.len() ==> #[trigger] name[j] != ':',
    ensures
        host(name) == name,
        host(name + seq![':'] + rest) == name,
{
    let addr = name + seq![':'] + rest;
    lemma_host(name, name.len() as int);
    assert(name.take(name.len() as int) =~= name);
    lemma_host(addr, name.len() as int);
    assert(addr.take(name.len() as int) =~= name);
}

/// The name by which a server is known: its address without the port.
pub fn server_name(addr: &str) -> (name: String)
    ensures
        name@ == host(addr@),
        forall|j: int| 0 <= j < name@.len() ==> #[trigger] name@[j] != ':',
        name@ == addr@ || (name@.len() < addr@.len() && addr@[name@.len() as int] == ':' && name@
            == addr@.take(name@.len() as int)),
{
    let len: usize = addr.unicode_len();
    let mut i: usize = 0;
    while i < len
        invariant
            i <= len == addr@.len(),
            forall|j: int| 0 <= j < i ==> #[trigger] addr@[j] != ':',
        decreases len - i,
    {
        if addr.get_char(i) == ':' {
            proof {
                lemma_host(addr@, i as int);
            }
            assert(addr@.subrange(0, i as int) =~= addr@.take(i as int));
            return addr.substring_char(0, i).to_owned();
        }
        i = i + 1;
    }
    proof {
        lemma_host(addr@, i as int);
        assert(addr@.take(i as int) =~= addr@);
    }
    addr.to_owned()
}

} // verus!
