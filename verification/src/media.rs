//! Tokens for media, each bound to a session.

use crate::bytes;
use crate::crypto;
use crate::table;
use crate::text;
use crate::time;
use crate::time::{Clock, Duration, Instant};
use std::collections::HashMap;
use vstd::arithmetic::power;
use vstd::prelude::*;

verus! {

broadcast use vstd::std_specs::hash::group_hash_axioms;

/// A token for one track of media.
#[derive(Debug)]
pub struct Token {
    pub id: [u8; 16],
    pub track_id: String,
    pub hls_url: String,
    pub created_at: Instant,
    pub issued_at: Instant,
    pub session_id: u64,
}

/// A token as plain mathematics.
pub struct TokenView {
    pub id: Seq<u8>,
    pub track_id: Seq<char>,
    pub hls_url: Seq<char>,
    pub created_at: nat,
    pub issued_at: nat,
    pub session_id: u64,
}

impl View for Token {
    type V = TokenView;

    open spec fn view(&self) -> TokenView {
        TokenView {
            id: self.id@,
            track_id: self.track_id@,
            hls_url: self.hls_url@,
            created_at: self.created_at@,
            issued_at: self.issued_at@,
            session_id: self.session_id,
        }
    }
}

impl Clone for Token {
    fn clone(&self) -> (t: Token)
        ensures
            t@ == self@,
    {
        Token {
            id: self.id,
            track_id: self.track_id.clone(),
            hls_url: self.hls_url.clone(),
            created_at: self.created_at,
            issued_at: self.issued_at,
            session_id: self.session_id,
        }
    }
}

/// The number under which a token is kept: its bytes as a big-endian number.
pub open spec fn token_key(id: Seq<u8>) -> u128 {
    bytes::from_be(id) as u128
}

proof fn lemma_pow256_16()
    ensures
        power::pow(256, 16) == 0x1_0000_0000_0000_0000_0000_0000_0000_0000,
{
    bytes::lemma_pow256();
    power::lemma_pow_adds(256, 8, 8);
}

/// Different tokens are kept under different numbers.
pub proof fn law_token_keys_differ(a: Seq<u8>, b: Seq<u8>)
    requires
        a.len() == 16,
        b.len() == 16,
        token_key(a) == token_key(b),
    ensures
        a == b,
{
    lemma_pow256_16();
    bytes::lemma_from_be_bound(a);
    bytes::lemma_from_be_bound(b);
    bytes::lemma_be_from_be(a);
    bytes::lemma_be_from_be(b);
}

/// The number under which a token is kept.
fn key_of(id: &[u8; 16]) -> (key: u128)
    ensures
        key == token_key(id@),
{
    let mut n: u128 = 0;
    let mut i: usize = 0;
    while i < 16
        invariant
            i <= 16,
            n == bytes::from_be(id@.take(i as int)),
        decreases 16 - i,
    {
        proof {
            let t = id@.take(i as int + 1);
            assert(t.drop_last() =~= id@.take(i as int));
            bytes::lemma_from_be_bound(t);
            lemma_pow256_16();
            power::lemma_pow_increases(256, t.len(), 16);
        }
        n = n * 256 + id[i] as u128;
        i = i + 1;
    }
    assert(id@.take(16) =~= id@);
    n
}

/// The tokens of a server. `V` tells whether a session is alive.
pub struct TokenStore<V> {
    tokens: HashMap<u128, Token>,
    validate_session: Option<V>,
    clock: Clock,
    pub max_token_ttl: Duration,
}

/// Whether a token that was issued at `issued_at` is too old at the reading
/// `now`.
pub open spec fn stale(issued_at: nat, ttl: nat, now: nat) -> bool {
    time::elapsed(issued_at, now) > ttl
}

/// What checking a token at the reading `now` does, where `live` tells whether
/// its session is alive: whether it is good, and the tokens afterwards. A token
/// that is too old, or whose session is gone, is dropped; a good one has its
/// time of creation moved to `now`.
pub open spec fn validated(
    tokens: Map<u128, TokenView>,
    key: u128,
    ttl: nat,
    live: bool,
    now: nat,
) -> (bool, Map<u128, TokenView>) {
    if !tokens.contains_key(key) {
        (false, tokens)
    } else if stale(tokens[key].issued_at, ttl, now) || !live {
        (false, tokens.remove(key))
    } else {
        (true, tokens.insert(key, TokenView { created_at: now, ..tokens[key] }))
    }
}

/// The tokens that are not too old at the reading `now`.
pub open spec fn fresh(tokens: Map<u128, TokenView>, ttl: nat, now: nat) -> Map<u128, TokenView> {
    tokens.restrict(
        Set::new(|k: u128| tokens.contains_key(k) && !stale(tokens[k].issued_at, ttl, now)),
    )
}

/// The view of a token holds all of it.
pub proof fn law_token_view(t: Token)
    ensures
        t@.id == t.id@,
        t@.track_id == t.track_id@,
        t@.hls_url == t.hls_url@,
        t@.created_at == t.created_at.nanos,
        t@.issued_at == t.issued_at.nanos,
        t@.session_id == t.session_id,
{
}

/// A token is too old from the moment when more than the limit has passed since
/// it was issued.
pub proof fn law_stale(issued_at: nat, ttl: nat, now: nat)
    ensures
        stale(issued_at, ttl, now) <==> now > issued_at + ttl,
{
}

/// Collecting at `now` keeps a token exactly if it was kept before and was issued
/// no longer ago than the limit, whenever it was checked in between, and keeps it
/// unchanged. What it keeps is what a check at the same reading finds good while
/// the session is alive, and what it drops is what such a check refuses.
pub proof fn law_collecting(tokens: Map<u128, TokenView>, ttl: nat, now: nat, key: u128)
    ensures
        fresh(tokens, ttl, now).contains_key(key) <==> tokens.contains_key(key) && now
            <= tokens[key].issued_at + ttl,
        fresh(tokens, ttl, now).contains_key(key) ==> fresh(tokens, ttl, now)[key] == tokens[key],
        fresh(tokens, ttl, now).contains_key(key) <==> validated(tokens, key, ttl, true, now).0,
{
}

/// Checking a token any number of times does not keep it from being collected: the
/// limit runs from its issue, at whatever reading it was checked.
pub proof fn law_checking_does_not_delay_collecting(
    tokens: Map<u128, TokenView>,
    ttl: nat,
    checked_at: nat,
    live: bool,
    now: nat,
    key: u128,
)
    requires
        tokens.contains_key(key),
        now > tokens[key].issued_at + ttl,
    ensures
        !fresh(validated(tokens, key, ttl, live, checked_at).1, ttl, now).contains_key(key),
        !validated(validated(tokens, key, ttl, live, checked_at).1, key, ttl, true, now).0,
{
}

impl<V> TokenStore<V> {
    /// The tokens, each under its number.
    pub closed spec fn tokens(&self) -> Map<u128, TokenView> {
        self.tokens@.map_values(|t: Token| t@)
    }

    /// The clock by which tokens age.
    pub closed spec fn time_source(&self) -> Clock {
        self.clock
    }

    /// How long a token is good.
    pub closed spec fn ttl(&self) -> Duration {
        self.max_token_ttl
    }

    /// What tells whether a session is alive, if anything does.
    pub closed spec fn validator(&self) -> Option<V> {
        self.validate_session
    }

    /// A store without tokens that asks nothing of sessions. A token is good
    /// for two hours.
    pub fn new() -> (s: TokenStore<V>)
        ensures
            s.tokens() == Map::<u128, TokenView>::empty(),
            s.validator() == None::<V>,
            s.ttl()@ == 7_200_000_000_000,
            s.time_source().started(),
    {
        let s = TokenStore {
            tokens: HashMap::new(),
            validate_session: None,
            clock: Clock::start(),
            max_token_ttl: Duration::from_secs(7200),
        };
        assert(s.tokens() =~= Map::<u128, TokenView>::empty());
        s
    }

    /// A store without tokens that asks `validate_session` whether a token's
    /// session is alive.
    pub fn with_validator(validate_session: V) -> (s: TokenStore<V>)
        ensures
            s.tokens() == Map::<u128, TokenView>::empty(),
            s.validator() == Some(validate_session),
            s.ttl()@ == 7_200_000_000_000,
            s.time_source().started(),
    {
        let mut s = TokenStore::new();
        s.validate_session = Some(validate_session);
        s
    }

    /// The clock by which tokens age.
    pub fn clock(&self) -> (c: Clock)
        ensures
            c == self.time_source(),
    {
        self.clock
    }

    /// Keep a token with the given number for a session, issued at the reading
    /// `now`.
    pub fn issue_at(
        &mut self,
        id: [u8; 16],
        session_id: u64,
        track_id: &str,
        hls_url: &str,
        now: Instant,
    ) -> (t: Token)
        ensures
            t@ == (TokenView {
                id: id@,
                track_id: track_id@,
                hls_url: hls_url@,
                created_at: now@,
                issued_at: now@,
                session_id,
            }),
            final(self).tokens() == old(self).tokens().insert(token_key(id@), t@),
            final(self).validator() == old(self).validator(),
            final(self).ttl() == old(self).ttl(),
            final(self).time_source() == old(self).time_source(),
    {
        let token = Token {
            id,
            track_id: track_id.to_owned(),
            hls_url: hls_url.to_owned(),
            created_at: now,
            issued_at: now,
            session_id,
        };
        let ghost after = self.tokens().insert(token_key(id@), token@);
        self.tokens.insert(key_of(&id), token.clone());
        assert(self.tokens() =~= after);
        token
    }

    /// Issue a new token for a session, with the address of its stream.
    pub fn issue_with_hls(&mut self, session_id: u64, track_id: &str, hls_url: &str) -> (t: Token)
        ensures
            crypto::drawn(t.id@),
            t.session_id == session_id,
            t.track_id@ == track_id@,
            t.hls_url@ == hls_url@,
            old(self).time_source().reads(t.issued_at@),
            t.created_at@ == t.issued_at@,
            final(self).tokens() == old(self).tokens().insert(token_key(t.id@), t@),
            final(self).validator() == old(self).validator(),
            final(self).ttl() == old(self).ttl(),
            final(self).time_source() == old(self).time_source(),
    {
        let random = crypto::random_bytes(16);
        let now = self.clock.now();
        self.issue_at(bytes::to_array(random.as_slice()), session_id, track_id, hls_url, now)
    }

    /// Issue a new token for a session.
    pub fn issue(&mut self, session_id: u64, track_id: &str) -> (t: Token)
        ensures
            crypto::drawn(t.id@),
            t.session_id == session_id,
            t.track_id@ == track_id@,
            t.hls_url@ == Seq::<char>::empty(),
            old(self).time_source().reads(t.issued_at@),
            t.created_at@ == t.issued_at@,
            final(self).tokens() == old(self).tokens().insert(token_key(t.id@), t@),
            final(self).validator() == old(self).validator(),
            final(self).ttl() == old(self).ttl(),
            final(self).time_source() == old(self).time_source(),
    {
        proof {
            reveal_strlit("");
        }
        let t = self.issue_with_hls(session_id, track_id, "");
        assert(t.hls_url@ =~= Seq::<char>::empty());
        t
    }

    /// The session that a token belongs to, unless the token is unknown or too
    /// old at the reading `now`.
    pub fn session_of(&self, token_id: &[u8; 16], now: Instant) -> (r: Option<u64>)
        ensures
            ({
                let key = token_key(token_id@);
                r == if self.tokens().contains_key(key) && !stale(
                    self.tokens()[key].issued_at,
                    self.ttl()@,
                    now@,
                ) {
                    Some(self.tokens()[key].session_id)
                } else {
                    None
                }
            }),
            ({
                let key = token_key(token_id@);
                r is Some <==> self.tokens().contains_key(key) && now@
                    <= self.tokens()[key].issued_at + self.ttl()@
            }),
    {
        match self.tokens.get(&key_of(token_id)) {
            Some(t) => {
                if now.duration_since(t.issued_at).nanos > self.max_token_ttl.nanos {
                    None
                } else {
                    Some(t.session_id)
                }
            },
            None => None,
        }
    }

    /// Check a token at the reading `now`, where `live` tells whether its
    /// session is alive.
    pub fn validate_at(&mut self, token_id: &[u8; 16], live: bool, now: Instant) -> (r: bool)
        ensures
            (r, final(self).tokens()) == validated(
                old(self).tokens(),
                token_key(token_id@),
                old(self).ttl()@,
                live,
                now@,
            ),
            final(self).validator() == old(self).validator(),
            final(self).ttl() == old(self).ttl(),
            final(self).time_source() == old(self).time_source(),
    {
        let key: u128 = key_of(token_id);
        let ghost before = self.tokens();
        let mut token = match self.tokens.get(&key) {
            Some(t) => t.clone(),
            None => return false,
        };
        if now.duration_since(token.issued_at).nanos > self.max_token_ttl.nanos || !live {
            self.tokens.remove(&key);
            assert(self.tokens() =~= before.remove(key));
            return false;
        }
        token.created_at = now;
        let ghost after = before.insert(key, token@);
        self.tokens.insert(key, token);
        assert(self.tokens() =~= after);
        true
    }

    /// Whether a token is kept.
    pub fn contains(&self, token_id: &[u8; 16]) -> (r: bool)
        ensures
            r == self.tokens().contains_key(token_key(token_id@)),
    {
        self.tokens.contains_key(&key_of(token_id))
    }

    /// The address of a token's stream.
    pub fn lookup_hls(&self, token_id: &[u8; 16]) -> (r: Option<String>)
        ensures
            match r {
                Some(url) => self.tokens().contains_key(token_key(token_id@)) && url@
                    == self.tokens()[token_key(token_id@)].hls_url,
                None => !self.tokens().contains_key(token_key(token_id@)),
            },
    {
        match self.tokens.get(&key_of(token_id)) {
            Some(t) => Some(t.hls_url.clone()),
            None => None,
        }
    }

    /// Drop the tokens that are too old at the reading `now`, and no others.
    pub fn gc_at(&mut self, now: Instant)
        ensures
            final(self).tokens() == fresh(old(self).tokens(), old(self).ttl()@, now@),
            forall|key: u128| #[trigger]
                final(self).tokens().contains_key(key) <==> old(self).tokens().contains_key(key)
                    && now@ <= old(self).tokens()[key].issued_at + old(self).ttl()@,
            final(self).validator() == old(self).validator(),
            final(self).ttl() == old(self).ttl(),
            final(self).time_source() == old(self).time_source(),
    {
        let keys = table::keys_of(&self.tokens);
        let ghost before = self.tokens();
        let ghost ttl = self.ttl()@;
        let mut i: usize = 0;
        while i < keys.len()
            invariant
                i <= keys@.len(),
                before == old(self).tokens(),
                ttl == self.ttl()@,
                self.ttl() == old(self).ttl(),
                self.time_source() == old(self).time_source(),
                self.validate_session == old(self).validate_session,
                forall|k: u128| #[trigger]
                    self.tokens().contains_key(k) ==> before.contains_key(k) && self.tokens()[k]
                        == before[k],
                forall|k: u128| #[trigger]
                    before.contains_key(k) ==> self.tokens().contains_key(k) || stale(
                        before[k].issued_at,
                        ttl,
                        now@,
                    ),
                forall|j: int|
                    0 <= j < i && self.tokens().contains_key(#[trigger] keys@[j]) ==> !stale(
                        before[keys@[j]].issued_at,
                        ttl,
                        now@,
                    ),
            decreases keys@.len() - i,
        {
            let key: u128 = keys[i];
            let dead = match self.tokens.get(&key) {
                Some(t) => now.duration_since(t.issued_at).nanos > self.max_token_ttl.nanos,
                None => false,
            };
            if dead {
                let ghost smaller = self.tokens().remove(key);
                self.tokens.remove(&key);
                assert(self.tokens() =~= smaller);
            }
            i = i + 1;
        }
        proof {
            let after = fresh(before, ttl, now@);
            assert forall|k: u128| self.tokens().contains_key(k) <==> after.contains_key(k) by {
                if self.tokens().contains_key(k) {
                    assert(before.contains_key(k));
                    assert(keys@.contains(k));
                }
            }
            assert forall|k: u128| self.tokens().contains_key(k) implies self.tokens()[k]
                == after[k] by {
                assert(before.contains_key(k));
                assert(after.contains_key(k));
                assert(after[k] == before[k]);
                assert(self.tokens()[k] == before[k]);
            }
            assert(self.tokens().dom() =~= after.dom());
            assert(self.tokens() =~= after);
        }
    }

    /// Drop the tokens that are too old.
    pub fn gc(&mut self)
        ensures
            exists|now: nat|
                old(self).time_source().reads(now) && final(self).tokens() == #[trigger] fresh(
                    old(self).tokens(),
                    old(self).ttl()@,
                    now,
                ),
            final(self).validator() == old(self).validator(),
            final(self).ttl() == old(self).ttl(),
            final(self).time_source() == old(self).time_source(),
    {
        let now = self.clock.now();
        self.gc_at(now);
    }
}

/// `live` is what `validator` answered for the session of a token that is kept
/// and fresh; without a validator every session is taken to be alive.
pub open spec fn answered<V: Fn(u64) -> bool>(
    tokens: Map<u128, TokenView>,
    key: u128,
    ttl: nat,
    validator: Option<V>,
    live: bool,
    now: nat,
) -> bool {
    match validator {
        Some(f) => tokens.contains_key(key) && !stale(tokens[key].issued_at, ttl, now)
            ==> call_ensures(f, (tokens[key].session_id,), live),
        None => live,
    }
}

impl<V: Fn(u64) -> bool> TokenStore<V> {
    /// Check a token: it is good while it is kept, is not too old, and its
    /// session is alive as far as the store can ask.
    pub fn validate(&mut self, token_id: &[u8; 16]) -> (r: bool)
        requires
            old(self).validator() matches Some(f) ==> forall|id: u64| #[trigger]
                call_requires(f, (id,)),
        ensures
            exists|now: nat, live: bool|
                {
                    &&& old(self).time_source().reads(now)
                    &&& (r, final(self).tokens()) == #[trigger] validated(
                        old(self).tokens(),
                        token_key(token_id@),
                        old(self).ttl()@,
                        live,
                        now,
                    )
                    &&& answered(
                        old(self).tokens(),
                        token_key(token_id@),
                        old(self).ttl()@,
                        old(self).validator(),
                        live,
                        now,
                    )
                },
            final(self).validator() == old(self).validator(),
            final(self).ttl() == old(self).ttl(),
            final(self).time_source() == old(self).time_source(),
    {
        let now = self.clock.now();
        let live = match self.session_of(token_id, now) {
            Some(session_id) => match &self.validate_session {
                Some(f) => f(session_id),
                None => true,
            },
            None => true,
        };
        self.validate_at(token_id, live, now)
    }
}

/// A token is good exactly while it is kept, was issued no longer ago than the
/// limit and its session is alive; a good token stays what it is but for its time
/// of creation; a token that was refused is not found again, and checking one
/// token touches no other.
pub proof fn law_validated(
    tokens: Map<u128, TokenView>,
    key: u128,
    other: u128,
    ttl: nat,
    live: bool,
    now: nat,
)
    ensures
        ({
            let (good, after) = validated(tokens, key, ttl, live, now);
            &&& good <==> tokens.contains_key(key) && now <= tokens[key].issued_at + ttl && live
            &&& after.contains_key(key) <==> good
            &&& good ==> {
                &&& after[key].created_at == now
                &&& after[key].issued_at == tokens[key].issued_at
                &&& after[key].id == tokens[key].id
                &&& after[key].track_id == tokens[key].track_id
                &&& after[key].hls_url == tokens[key].hls_url
                &&& after[key].session_id == tokens[key].session_id
            }
            &&& other != key ==> (after.contains_key(other) <==> tokens.contains_key(other))
            &&& other != key && tokens.contains_key(other) ==> after[other] == tokens[other]
        }),
{
}

/// The validator, where there is one, is asked about the session of a token that is
/// kept and no older than the limit, and its answer decides; without one every
/// session is taken to be alive.
pub proof fn law_answered<V: Fn(u64) -> bool>(
    tokens: Map<u128, TokenView>,
    key: u128,
    ttl: nat,
    validator: Option<V>,
    live: bool,
    now: nat,
)
    requires
        answered(tokens, key, ttl, validator, live, now),
    ensures
        validator is None ==> live,
        validator matches Some(f) ==> tokens.contains_key(key) && now <= tokens[key].issued_at
            + ttl ==> call_ensures(f, (tokens[key].session_id,), live),
{
}

/// Makes the addresses of media.
pub struct MediaURLBuilder {
    pub base_url: String,
}

impl MediaURLBuilder {
    /// A builder of addresses under `base_url`.
    pub fn new(base_url: &str) -> (b: MediaURLBuilder)
        ensures
            b.base_url@ == base_url@,
    {
        MediaURLBuilder { base_url: base_url.to_owned() }
    }

    /// The address of a track under a token.
    pub fn build_url(&self, token_id: &[u8; 16], track_id: &str) -> (url: String)
        ensures
            url@ == self.base_url@ + "/media/"@ + text::hex(token_id@) + "/"@ + track_id@,
    {
        let mut url = text::concat2(self.base_url.as_str(), "/media/");
        let id: &[u8] = token_id;
        url.append(crypto::hex_encode(id).as_str());
        url.append("/");
        url.append(track_id);
        url
    }
}

} // verus!
