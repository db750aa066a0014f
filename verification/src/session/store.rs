//! Sessions, how long they live, and where they and the API keys are kept.

use crate::bytes;
use crate::table;
use crate::time;
use crate::time::{Clock, Duration, Instant};
use std::collections::HashMap;
use vstd::hash_map::StringHashMap;
use vstd::prelude::*;

verus! {

broadcast use vstd::std_specs::hash::group_hash_axioms;

/// An established session.
#[derive(Debug)]
pub struct Session {
    pub id: u64,
    pub api_key_id: String,
    pub key: Vec<u8>,
    pub created_at: Instant,
    pub last_used: Instant,
}

/// A session as plain mathematics.
pub struct SessionView {
    pub id: u64,
    pub api_key_id: Seq<char>,
    pub key: Seq<u8>,
    pub created_at: nat,
    pub last_used: nat,
}

impl View for Session {
    type V = SessionView;

    open spec fn view(&self) -> SessionView {
        SessionView {
            id: self.id,
            api_key_id: self.api_key_id@,
            key: self.key@,
            created_at: self.created_at@,
            last_used: self.last_used@,
        }
    }
}

impl Clone for Session {
    fn clone(&self) -> (s: Session)
        ensures
            s@ == self@,
    {
        Session {
            id: self.id,
            api_key_id: self.api_key_id.clone(),
            key: bytes::to_vec(self.key.as_slice()),
            created_at: self.created_at,
            last_used: self.last_used,
        }
    }
}

impl Session {
    /// A session that starts at the reading `now`.
    pub fn new_at(id: u64, api_key_id: String, key: Vec<u8>, now: Instant) -> (s: Session)
        ensures
            s@ == (SessionView {
                id,
                api_key_id: api_key_id@,
                key: key@,
                created_at: now@,
                last_used: now@,
            }),
    {
        Session { id, api_key_id, key, created_at: now, last_used: now }
    }

    /// A session that starts now.
    pub fn new(id: u64, api_key_id: String, key: Vec<u8>, clock: &Clock) -> (s: Session)
        ensures
            s.id == id,
            s.api_key_id@ == api_key_id@,
            s.key@ == key@,
            s.last_used@ == s.created_at@,
            clock.reads(s.created_at@),
    {
        Session::new_at(id, api_key_id, key, clock.now())
    }

    /// Note that the session was used at the reading `now`.
    pub fn touch_at(&mut self, now: Instant)
        ensures
            final(self)@ == (SessionView { last_used: now@, ..old(self)@ }),
    {
        self.last_used = now;
    }

    /// Note that the session is used now.
    pub fn touch(&mut self, clock: &Clock)
        ensures
            final(self)@ == (SessionView { last_used: final(self).last_used@, ..old(self)@ }),
            clock.reads(final(self).last_used@),
            time::secs_fit(final(self).last_used@),
    {
        self.touch_at(clock.now());
    }
}

/// How long sessions live, and how often dead ones are collected.
#[derive(Debug, Clone, Copy, PartialEq, Eq, Structural)]
pub struct SessionConfig {
    pub idle_timeout: Duration,
    pub max_lifetime: Duration,
    pub gc_interval: Duration,
}

/// `d`, or `default` where `d` is zero.
fn non_zero_or(d: Duration, default: Duration) -> (r: Duration)
    ensures
        r == if d@ == 0 {
            default
        } else {
            d
        },
{
    if d.nanos == 0 {
        default
    } else {
        d
    }
}

impl Default for SessionConfig {
    fn default() -> (c: SessionConfig)
        ensures
            c.idle_timeout@ == 300_000_000_000,
            c.max_lifetime@ == 86_400_000_000_000,
            c.gc_interval@ == 60_000_000_000,
    {
        SessionConfig {
            idle_timeout: Duration::from_secs(300),
            max_lifetime: Duration::from_secs(86400),
            gc_interval: Duration::from_secs(60),
        }
    }
}

/// `nanos`, or `default` where `nanos` is zero.
pub open spec fn filled(nanos: nat, default: nat) -> nat {
    if nanos == 0 {
        default
    } else {
        nanos
    }
}

impl SessionConfig {
    /// The settings with defaults in place of zeros.
    pub fn fill(self) -> (c: SessionConfig)
        ensures
            c.idle_timeout@ == filled(self.idle_timeout@, 300_000_000_000),
            c.max_lifetime@ == filled(self.max_lifetime@, 86_400_000_000_000),
            c.gc_interval@ == filled(self.gc_interval@, 60_000_000_000),
    {
        let default = <SessionConfig as Default>::default();
        SessionConfig {
            idle_timeout: non_zero_or(self.idle_timeout, default.idle_timeout),
            max_lifetime: non_zero_or(self.max_lifetime, default.max_lifetime),
            gc_interval: non_zero_or(self.gc_interval, default.gc_interval),
        }
    }
}

/// Where a server finds the secrets of API keys.
pub trait ApiKeyStore: Send + Sync {
    /// The store may answer `secret` for the key named `id`. A store that does not
    /// say what it answers may answer anything.
    open spec fn may_answer(&self, id: Seq<char>, secret: Option<Seq<u8>>) -> bool {
        true
    }

    /// The secret of the key named `id`, if there is one at the moment.
    fn get(&self, id: &str) -> (secret: Option<Vec<u8>>)
        ensures
            self.may_answer(id@, bytes::option_view(secret)),
    ;
}

/// API keys in memory.
pub struct MapKeyStore {
    keys: StringHashMap<Vec<u8>>,
}

impl View for MapKeyStore {
    type V = Map<Seq<char>, Seq<u8>>;

    closed spec fn view(&self) -> Map<Seq<char>, Seq<u8>> {
        self.keys@.map_values(|secret: Vec<u8>| secret@)
    }
}

impl MapKeyStore {
    /// A store without keys.
    pub fn new() -> (s: MapKeyStore)
        ensures
            s@ == Map::<Seq<char>, Seq<u8>>::empty(),
    {
        let s = MapKeyStore { keys: StringHashMap::new() };
        assert(s@ =~= Map::<Seq<char>, Seq<u8>>::empty());
        s
    }

    /// Give the key named `id` the secret `secret`.
    pub fn insert(&mut self, id: String, secret: Vec<u8>)
        ensures
            final(self)@ == old(self)@.insert(id@, secret@),
    {
        let ghost after = self@.insert(id@, secret@);
        self.keys.insert(id, secret);
        assert(self@ =~= after);
    }
}

impl Default for MapKeyStore {
    fn default() -> (s: MapKeyStore)
        ensures
            s@ == Map::<Seq<char>, Seq<u8>>::empty(),
    {
        MapKeyStore::new()
    }
}

impl ApiKeyStore for MapKeyStore {
    /// It answers the secret that the name has, and nothing else.
    open spec fn may_answer(&self, id: Seq<char>, secret: Option<Seq<u8>>) -> bool {
        secret == if self@.contains_key(id) {
            Some(self@[id])
        } else {
            None
        }
    }

    fn get(&self, id: &str) -> (secret: Option<Vec<u8>>)
        ensures
            match secret {
                Some(s) => self@.contains_key(id@) && s@ == self@[id@],
                None => !self@.contains_key(id@),
            },
    {
        match self.keys.get(id) {
            Some(s) => Some(bytes::to_vec(s.as_slice())),
            None => None,
        }
    }
}

/// The sessions of a server.
pub struct SessionStore {
    config: SessionConfig,
    sessions: HashMap<u64, Session>,
    next_id: u64,
    clock: Clock,
}

/// Whether a session that began at `created_at` has outlived `max_lifetime` at
/// the reading `now`.
pub open spec fn expired(created_at: nat, max_lifetime: nat, now: nat) -> bool {
    time::elapsed(created_at, now) > max_lifetime
}

/// The sessions that have not outlived `max_lifetime` at the reading `now`.
pub open spec fn surviving(
    sessions: Map<u64, SessionView>,
    max_lifetime: nat,
    now: nat,
) -> Map<u64, SessionView> {
    sessions.restrict(
        Set::new(
            |id: u64|
                sessions.contains_key(id) && !expired(sessions[id].created_at, max_lifetime, now),
        ),
    )
}

impl SessionStore {
    /// The settings.
    pub closed spec fn config(&self) -> SessionConfig {
        self.config
    }

    /// The sessions, each under its number.
    pub closed spec fn sessions(&self) -> Map<u64, SessionView> {
        self.sessions@.map_values(|s: Session| s@)
    }

    /// The clock by which the sessions age.
    pub closed spec fn time_source(&self) -> Clock {
        self.clock
    }

    /// The number that is handed out next.
    pub closed spec fn next_id(&self) -> u64 {
        self.next_id
    }

    /// A store without sessions, which hands out the numbers from 1 on.
    pub fn new(config: SessionConfig) -> (s: SessionStore)
        ensures
            s.config() == config,
            s.sessions() == Map::<u64, SessionView>::empty(),
            s.next_id() == 1,
            s.time_source().started(),
    {
        let s = SessionStore {
            config,
            sessions: HashMap::new(),
            next_id: 1,
            clock: Clock::start(),
        };
        assert(s.sessions() =~= Map::<u64, SessionView>::empty());
        s
    }

    /// The settings.
    pub fn settings(&self) -> (c: SessionConfig)
        ensures
            c == self.config(),
    {
        self.config
    }

    /// The clock by which the sessions age.
    pub fn clock(&self) -> (c: Clock)
        ensures
            c == self.time_source(),
    {
        self.clock
    }

    /// Hand out a number: the numbers follow one another, and start again at
    /// zero after the largest.
    pub fn next_session_id(&mut self) -> (id: u64)
        ensures
            id == old(self).next_id(),
            final(self).next_id() == (old(self).next_id() + 1) % 0x1_0000_0000_0000_0000,
            final(self).sessions() == old(self).sessions(),
            final(self).config() == old(self).config(),
            final(self).time_source() == old(self).time_source(),
    {
        let id: u64 = self.next_id;
        self.next_id = id.wrapping_add(1);
        id
    }

    /// Keep a session, in place of one with the same number.
    pub fn insert(&mut self, session: Session)
        ensures
            final(self).sessions() == old(self).sessions().insert(session.id, session@),
            final(self).config() == old(self).config(),
            final(self).time_source() == old(self).time_source(),
            final(self).next_id() == old(self).next_id(),
    {
        let ghost after = self.sessions().insert(session.id, session@);
        self.sessions.insert(session.id, session);
        assert(self.sessions() =~= after);
    }

    /// A copy of the session with the number `id`.
    pub fn get(&self, id: u64) -> (r: Option<Session>)
        ensures
            match r {
                Some(s) => self.sessions().contains_key(id) && s@ == self.sessions()[id],
                None => !self.sessions().contains_key(id),
            },
    {
        match self.sessions.get(&id) {
            Some(s) => Some(s.clone()),
            None => None,
        }
    }

    /// Drop the session with the number `id`, if there is one.
    pub fn delete(&mut self, id: u64)
        ensures
            final(self).sessions() == old(self).sessions().remove(id),
            final(self).config() == old(self).config(),
            final(self).time_source() == old(self).time_source(),
            final(self).next_id() == old(self).next_id(),
    {
        let ghost after = self.sessions().remove(id);
        self.sessions.remove(&id);
        assert(self.sessions() =~= after);
    }

    /// Whether a session has outlived the longest lifetime at the reading
    /// `now`.
    pub fn is_expired_at(&self, session: &Session, now: Instant) -> (r: bool)
        ensures
            r == expired(session.created_at@, self.config().max_lifetime@, now@),
            r <==> now@ > session.created_at@ + self.config().max_lifetime@,
    {
        now.duration_since(session.created_at).nanos > self.config.max_lifetime.nanos
    }

    /// Whether a session has outlived the longest lifetime.
    pub fn is_expired(&self, session: &Session) -> (r: bool)
        ensures
            exists|now: nat|
                self.time_source().reads(now) && r == #[trigger] expired(
                    session.created_at@,
                    self.config().max_lifetime@,
                    now,
                ),
    {
        let now = self.clock.now();
        let r = self.is_expired_at(session, now);
        assert(r == expired(session.created_at@, self.config().max_lifetime@, now@));
        r
    }

    /// Whether a session has been unused for too long at the reading `now`.
    pub fn is_idle_dead_at(&self, session: &Session, now: Instant) -> (r: bool)
        ensures
            r == (time::elapsed(session.last_used@, now@) > self.config().idle_timeout@),
            r <==> now@ > session.last_used@ + self.config().idle_timeout@,
    {
        now.duration_since(session.last_used).nanos > self.config.idle_timeout.nanos
    }

    /// Whether a session has been unused for too long.
    pub fn is_idle_dead(&self, session: &Session) -> (r: bool)
        ensures
            exists|now: nat|
                self.time_source().reads(now) && r == (#[trigger] time::elapsed(
                    session.last_used@,
                    now,
                ) > self.config().idle_timeout@),
    {
        let now = self.clock.now();
        let r = self.is_idle_dead_at(session, now);
        assert(r == (time::elapsed(session.last_used@, now@) > self.config().idle_timeout@));
        r
    }

    /// Drop the sessions that have outlived the longest lifetime at the reading
    /// `now`, and no others.
    pub fn gc_at(&mut self, now: Instant)
        ensures
            final(self).sessions() == surviving(
                old(self).sessions(),
                old(self).config().max_lifetime@,
                now@,
            ),
            forall|id: u64| #[trigger]
                final(self).sessions().contains_key(id) <==> old(self).sessions().contains_key(id)
                    && now@ <= old(self).sessions()[id].created_at + old(
                    self,
                ).config().max_lifetime@,
            final(self).config() == old(self).config(),
            final(self).time_source() == old(self).time_source(),
            final(self).next_id() == old(self).next_id(),
    {
        let ids = table::keys_of(&self.sessions);
        let ghost before = self.sessions();
        let ghost limit = self.config.max_lifetime@;
        let mut i: usize = 0;
        while i < ids.len()
            invariant
                i <= ids@.len(),
                before == old(self).sessions(),
                limit == self.config.max_lifetime@,
                self.config == old(self).config,
                self.clock == old(self).clock,
                self.next_id == old(self).next_id,
                forall|id: u64| #[trigger]
                    self.sessions().contains_key(id) ==> before.contains_key(id)
                        && self.sessions()[id] == before[id],
                forall|id: u64| #[trigger]
                    before.contains_key(id) ==> self.sessions().contains_key(id) || expired(
                        before[id].created_at,
                        limit,
                        now@,
                    ),
                forall|j: int|
                    0 <= j < i && self.sessions().contains_key(#[trigger] ids@[j]) ==> !expired(
                        before[ids@[j]].created_at,
                        limit,
                        now@,
                    ),
            decreases ids@.len() - i,
        {
            let id: u64 = ids[i];
            let dead = match self.sessions.get(&id) {
                Some(s) => self.is_expired_at(s, now),
                None => false,
            };
            if dead {
                self.delete(id);
            }
            i = i + 1;
        }
        proof {
            let after = surviving(before, limit, now@);
            assert forall|id: u64| self.sessions().contains_key(id) <==> after.contains_key(id) by {
                if self.sessions().contains_key(id) {
                    assert(before.contains_key(id));
                    assert(ids@.contains(id));
                }
            }
            assert(self.sessions() =~= after);
        }
    }

    /// Drop the sessions that have outlived the longest lifetime.
    pub fn gc(&mut self)
        ensures
            exists|now: nat|
                {
                    &&& old(self).time_source().reads(now)
                    &&& final(self).sessions() == #[trigger] surviving(
                        old(self).sessions(),
                        old(self).config().max_lifetime@,
                        now,
                    )
                },
            final(self).config() == old(self).config(),
            final(self).time_source() == old(self).time_source(),
            final(self).next_id() == old(self).next_id(),
    {
        let now = self.clock.now();
        self.gc_at(now);
    }

    /// How many sessions there are.
    pub fn len(&self) -> (n: usize)
        ensures
            n == self.sessions().len(),
    {
        assert(self.sessions().dom() =~= self.sessions@.dom());
        self.sessions.len()
    }

    /// Whether there is no session.
    pub fn is_empty(&self) -> (r: bool)
        ensures
            r == (self.sessions().len() == 0),
    {
        self.len() == 0
    }
}

impl Default for SessionStore {
    fn default() -> (s: SessionStore)
        ensures
            s.sessions() == Map::<u64, SessionView>::empty(),
            s.next_id() == 1,
            s.time_source().started(),
            s.config().idle_timeout@ == 300_000_000_000,
            s.config().max_lifetime@ == 86_400_000_000_000,
            s.config().gc_interval@ == 60_000_000_000,
    {
        SessionStore::new(<SessionConfig as Default>::default())
    }
}

/// A session that was kept is found under its number until it is dropped, and
/// dropping it leaves the others.
pub proof fn law_insert_get_delete(sessions: Map<u64, SessionView>, s: SessionView, other: u64)
    ensures
        sessions.insert(s.id, s).contains_key(s.id),
        sessions.insert(s.id, s)[s.id] == s,
        !sessions.remove(s.id).contains_key(s.id),
        other != s.id ==> (sessions.remove(s.id).contains_key(other) <==> sessions.contains_key(
            other,
        )),
{
}

/// The view of a session holds all of it.
pub proof fn law_session_view(s: Session)
    ensures
        s@.id == s.id,
        s@.api_key_id == s.api_key_id@,
        s@.key == s.key@,
        s@.created_at == s.created_at.nanos,
        s@.last_used == s.last_used.nanos,
{
}

/// Collecting at `now` keeps a session exactly if it was kept before and began no
/// longer ago than the longest lifetime, however lately it was used, and keeps it
/// unchanged.
pub proof fn law_collecting(sessions: Map<u64, SessionView>, limit: nat, now: nat, id: u64)
    ensures
        surviving(sessions, limit, now).contains_key(id) <==> sessions.contains_key(id) && now
            <= sessions[id].created_at + limit,
        surviving(sessions, limit, now).contains_key(id) ==> surviving(sessions, limit, now)[id]
            == sessions[id],
        expired(sessions[id].created_at, limit, now) <==> now > sessions[id].created_at + limit,
{
}

/// A setting that is not zero is taken as it is, and a default stands in for zero
/// alone.
pub proof fn law_filled(nanos: nat, default: nat)
    ensures
        filled(0, default) == default,
        nanos > 0 ==> filled(nanos, default) == nanos,
{
}

/// Keys in memory answer for a name exactly what was last set for it, and nothing for
/// a name that was never set.
pub proof fn law_keys_in_memory(store: MapKeyStore, id: Seq<char>, found: Option<Seq<u8>>)
    requires
        store.may_answer(id, found),
    ensures
        found matches Some(secret) ==> store@.contains_key(id) && store@[id] == secret,
        found is None ==> !store@.contains_key(id),
{
}

/// Collecting keeps a session exactly when it has not expired, and what expired
/// once stays expired.
pub proof fn law_gc(sessions: Map<u64, SessionView>, limit: nat, now: nat, later: nat, id: u64)
    requires
        now <= later,
    ensures
        surviving(sessions, limit, now).contains_key(id) <==> sessions.contains_key(id)
            && !expired(sessions[id].created_at, limit, now),
        surviving(surviving(sessions, limit, now), limit, later) == surviving(
            sessions,
            limit,
            later,
        ),
        expired(sessions[id].created_at, limit, now) ==> expired(
            sessions[id].created_at,
            limit,
            later,
        ),
{
    assert(surviving(surviving(sessions, limit, now), limit, later) =~= surviving(
        sessions,
        limit,
        later,
    ));
}

} // verus!
