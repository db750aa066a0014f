//! Events, published under topics to whoever is subscribed.

use crate::assoc;
use crate::frame::message::MapView;
use crate::time;
use crate::tlv::TlvMap;
use tokio::sync::broadcast;
use vstd::prelude::*;

verus! {

/// How many events a slow subscriber may fall behind before it loses some.
pub const CHANNEL_CAPACITY: usize = 64;

/// An event.
#[derive(Debug)]
pub struct Event {
    pub topic: String,
    pub payload: TlvMap,
    /// Milliseconds since the Unix epoch.
    pub time: u64,
}

/// An event as plain mathematics.
pub struct EventView {
    pub topic: Seq<char>,
    pub payload: MapView,
    pub time: u64,
}

impl View for Event {
    type V = EventView;

    open spec fn view(&self) -> EventView {
        EventView { topic: self.topic@, payload: self.payload@, time: self.time }
    }
}

impl Clone for Event {
    fn clone(&self) -> (e: Event)
        ensures
            e@ == self@,
    {
        Event { topic: self.topic.clone(), payload: self.payload.clone(), time: self.time }
    }
}

/// The event of a map that is published under a topic so many nanoseconds since
/// the Unix epoch. Its time is in whole milliseconds modulo 2 to the 64.
pub open spec fn event_at(topic: Seq<char>, payload: MapView, unix_nanos: nat) -> EventView {
    EventView {
        topic,
        payload,
        time: ((unix_nanos / 1_000_000) % 0x1_0000_0000_0000_0000) as u64,
    }
}

impl Event {
    /// An event at a time since the Unix epoch, in whole milliseconds modulo 2
    /// to the 64.
    pub fn at(topic: &str, payload: TlvMap, unix_time: time::Duration) -> (e: Event)
        ensures
            e@ == event_at(topic@, payload@, unix_time@),
            e.topic@ == topic@,
            e.payload@ == payload@,
            e.time == unix_time@ / 1_000_000 % 0x1_0000_0000_0000_0000,
    {
        Event { topic: topic.to_owned(), payload, time: unix_time.as_millis_u64() }
    }
}

/// An event has the topic and the map that were published, and the time in whole
/// milliseconds.
pub proof fn law_event(topic: Seq<char>, payload: MapView, millis: u64, part: nat)
    requires
        part < 1_000_000,
    ensures
        event_at(topic, payload, 1_000_000 * (millis as nat) + part) == (EventView {
            topic,
            payload,
            time: millis,
        }),
{
    let nanos = 1_000_000 * (millis as nat) + part;
    assert(nanos / 1_000_000 == millis);
}

/// The sending half of a broadcast channel.
#[verifier::external_type_specification]
#[verifier::external_body]
#[verifier::reject_recursive_types(T)]
pub struct ExSender<T>(broadcast::Sender<T>);

/// The receiving half of a broadcast channel.
#[verifier::external_type_specification]
#[verifier::external_body]
#[verifier::reject_recursive_types(T)]
pub struct ExReceiver<T>(broadcast::Receiver<T>);

/// How many events the channel behind a sender holds for a slow receiver.
pub uninterp spec fn channel_capacity(tx: broadcast::Sender<Event>) -> nat;

/// A receiver gets what is sent by a sender.
pub uninterp spec fn feeds(tx: broadcast::Sender<Event>, rx: broadcast::Receiver<Event>) -> bool;

/// The least power of two that is not less than `n`.
pub open spec fn power_of_two_from(n: nat) -> nat
    decreases n,
{
    if n <= 1 {
        1
    } else {
        2 * power_of_two_from((n + 1) / 2)
    }
}

/// What a number is rounded up to is at least the number and less than twice the
/// number, is one for one, and doubles where the number doubles.
pub proof fn law_power_of_two_from(n: nat)
    requires
        n >= 1,
    ensures
        n <= power_of_two_from(n) < 2 * n,
        power_of_two_from(1) == 1,
        power_of_two_from(2 * n) == 2 * power_of_two_from(n),
    decreases n,
{
    if n > 1 {
        law_power_of_two_from((n + 1) / 2);
        if n % 2 == 0 {
            assert((n + 1) / 2 == n / 2);
        } else {
            let h = (n + 1) / 2;
            assert(n == 2 * h - 1);
            lemma_power_of_two_from_even(h);
        }
    }
    assert((2 * n + 1) / 2 == n);
}

/// Above one, what a number is rounded up to is even.
proof fn lemma_power_of_two_from_even(h: nat)
    requires
        h >= 2,
    ensures
        power_of_two_from(h) % 2 == 0,
{
    assert(power_of_two_from(h) == 2 * power_of_two_from((h + 1) / 2));
}

/// `tokio::sync::broadcast::channel`, of which the sender is kept: its channel
/// holds as many events as asked for, rounded up to a power of two.
#[verifier::external_body]
fn open_channel(capacity: usize) -> (tx: broadcast::Sender<Event>)
    requires
        0 < capacity <= 0x1_0000,
    ensures
        channel_capacity(tx) == power_of_two_from(capacity as nat),
{
    broadcast::channel(capacity).0
}

/// `broadcast::Sender::subscribe`: the receiver is bound to the sender. From
/// when on it gets what is sent is left unsaid.
#[verifier::external_body]
fn new_receiver(tx: &broadcast::Sender<Event>) -> (rx: broadcast::Receiver<Event>)
    ensures
        feeds(*tx, rx),
{
    tx.subscribe()
}

/// At some moment the channel behind a sender had `n` receivers.
pub uninterp spec fn counted(tx: broadcast::Sender<Event>, n: usize) -> bool;

/// An event was handed to the channel behind a sender, and reached so many
/// receivers; none, if there were none.
pub uninterp spec fn sent(
    tx: broadcast::Sender<Event>,
    event: EventView,
    reached: Option<usize>,
) -> bool;

/// The event of a map under a topic, at some reading of the wall clock, was handed
/// to the channel behind a sender.
pub open spec fn sent_now(
    tx: broadcast::Sender<Event>,
    topic: Seq<char>,
    payload: MapView,
) -> bool {
    exists|now: std::time::SystemTime, reached: Option<usize>|
        time::wall_clock_showed(now) && #[trigger] sent(
            tx,
            event_at(topic, payload, time::unix_span(now)),
            reached,
        )
}

/// What was sent now is an event with that topic and that map, and with the time of a
/// reading of the wall clock in whole milliseconds.
pub proof fn law_sent_now(tx: broadcast::Sender<Event>, topic: Seq<char>, payload: MapView)
    requires
        sent_now(tx, topic, payload),
    ensures
        exists|now: std::time::SystemTime, event: EventView, reached: Option<usize>|
            {
                &&& time::wall_clock_showed(now)
                &&& #[trigger] sent(tx, event, reached)
                &&& event.topic == topic
                &&& event.payload == payload
                &&& event.time == #[trigger] time::unix_span(now) / 1_000_000
                    % 0x1_0000_0000_0000_0000
            },
{
    let (now, reached) = choose|now: std::time::SystemTime, reached: Option<usize>|
        time::wall_clock_showed(now) && #[trigger] sent(
            tx,
            event_at(topic, payload, time::unix_span(now)),
            reached,
        );
    let event = event_at(topic, payload, time::unix_span(now));
    assert(sent(tx, event, reached));
    assert(event.time == time::unix_span(now) / 1_000_000 % 0x1_0000_0000_0000_0000);
}

/// `broadcast::Sender::receiver_count`: the number is that of this sender's
/// channel. Which number it is is left unsaid: receivers come and go at any
/// time.
#[verifier::external_body]
fn count_receivers(tx: &broadcast::Sender<Event>) -> (n: usize)
    ensures
        counted(*tx, n),
{
    tx.receiver_count()
}

/// `broadcast::Sender::send`: this event goes to this sender's channel. A send
/// that does not fail reached at least one receiver. How many there were is left
/// unsaid: they come and go at any time.
#[verifier::external_body]
fn send_event(tx: &broadcast::Sender<Event>, event: Event) -> (reached: Option<usize>)
    ensures
        sent(*tx, event@, reached),
        reached matches Some(n) ==> n > 0,
{
    tx.send(event).ok()
}

/// Topics, and for each the channel to its subscribers. No topic occurs twice.
pub struct Hub {
    topics: Vec<(String, broadcast::Sender<Event>)>,
}

impl Hub {
    /// The topics with their channels, in the order in which they appeared.
    pub closed spec fn entries(&self) -> Seq<(Seq<char>, broadcast::Sender<Event>)> {
        Seq::new(self.topics@.len(), |i: int| (self.topics@[i].0@, self.topics@[i].1))
    }

    /// No topic occurs twice.
    pub open spec fn wf(&self) -> bool {
        assoc::unique(self.entries())
    }

    /// A hub without topics.
    pub fn new() -> (h: Hub)
        ensures
            h.entries() == Seq::<(Seq<char>, broadcast::Sender<Event>)>::empty(),
            h.wf(),
    {
        let h = Hub { topics: Vec::new() };
        assert(h.entries() =~= Seq::<(Seq<char>, broadcast::Sender<Event>)>::empty());
        h
    }

    /// The place of a topic; the number of topics if it is not there.
    fn find(&self, topic: &str) -> (at: usize)
        ensures
            at == assoc::position(self.entries(), topic@),
            at <= self.topics@.len(),
    {
        let wanted: String = topic.to_owned();
        let mut i: usize = 0;
        while i < self.topics.len()
            invariant
                i <= self.topics@.len(),
                wanted@ == topic@,
                forall|j: int| 0 <= j < i ==> (#[trigger] self.entries()[j]).0 != topic@,
            decreases self.topics@.len() - i,
        {
            if self.topics[i].0 == wanted {
                proof {
                    assoc::lemma_position_is(self.entries(), topic@, i as int);
                }
                return i;
            }
            i = i + 1;
        }
        proof {
            assoc::lemma_position_is(self.entries(), topic@, i as int);
        }
        i
    }

    /// Subscribe to a topic, which appears if it was not there.
    pub fn subscribe(&mut self, topic: &str) -> (rx: broadcast::Receiver<Event>)
        ensures
            assoc::has(final(self).entries(), topic@),
            assoc::has(old(self).entries(), topic@) ==> final(self).entries()
                == old(self).entries(),
            !assoc::has(old(self).entries(), topic@) ==> exists|tx: broadcast::Sender<Event>|
                final(self).entries() == #[trigger] old(self).entries().push((topic@, tx))
                    && channel_capacity(tx) == 64,
            assoc::lookup(final(self).entries(), topic@) matches Some(tx) && feeds(tx, rx),
            old(self).wf() ==> final(self).wf(),
    {
        let at: usize = self.find(topic);
        proof {
            assoc::lemma_position(self.entries(), topic@);
        }
        if at < self.topics.len() {
            return new_receiver(&self.topics[at].1);
        }
        let ghost before = self.entries();
        let tx = open_channel(CHANNEL_CAPACITY);
        proof {
            reveal_with_fuel(power_of_two_from, 7);
        }
        let rx = new_receiver(&tx);
        let ghost after = before.push((topic@, tx));
        self.topics.push((topic.to_owned(), tx));
        proof {
            assert(self.entries() =~= after);
            assert(after == assoc::upsert(before, topic@, tx));
            assoc::law_lookup_after_upsert(before, topic@, tx);
            if assoc::unique(before) {
                assoc::law_upsert_keeps_unique(before, topic@, tx);
            }
        }
        rx
    }

    /// Drop a topic if it has no subscribers, where `count` tells how many it
    /// has.
    pub fn drop_unless_subscribed(&mut self, topic: &str, count: usize)
        ensures
            final(self).entries() == if count == 0 {
                assoc::without(old(self).entries(), topic@)
            } else {
                old(self).entries()
            },
            old(self).wf() ==> final(self).wf(),
    {
        let at: usize = self.find(topic);
        let ghost before = self.entries();
        proof {
            assoc::lemma_position(before, topic@);
            if assoc::unique(before) {
                assoc::law_lookup_after_without(before, topic@);
            }
        }
        if at < self.topics.len() && count == 0 {
            self.topics.remove(at);
            assert(self.entries() =~= assoc::without(before, topic@));
        }
    }

    /// Drop a topic if nobody is subscribed to it any more. A subscription ends
    /// by itself when its receiver is dropped.
    pub fn unsubscribe(&mut self, topic: &str)
        ensures
            match assoc::lookup(old(self).entries(), topic@) {
                Some(tx) => exists|count: usize| #[trigger]
                    counted(tx, count) && final(self).entries() == if count == 0 {
                        assoc::without(old(self).entries(), topic@)
                    } else {
                        old(self).entries()
                    },
                None => final(self).entries() == old(self).entries(),
            },
            old(self).wf() ==> final(self).wf(),
    {
        let count: usize = self.subscriber_count(topic);
        self.drop_unless_subscribed(topic, count);
    }

    /// What to send for a map that is published under a topic at a time since
    /// the Unix epoch, and where to: nothing for a topic that is not there.
    pub fn publication(
        &self,
        topic: &str,
        payload: TlvMap,
        unix_time: time::Duration,
    ) -> (r: Option<(&broadcast::Sender<Event>, Event)>)
        ensures
            match r {
                Some((tx, event)) => assoc::lookup(self.entries(), topic@) == Some(*tx) && event@
                    == event_at(topic@, payload@, unix_time@),
                None => assoc::lookup(self.entries(), topic@) is None,
            },
    {
        match self.channel(topic) {
            Some(tx) => Some((tx, Event::at(topic, payload, unix_time))),
            None => None,
        }
    }

    /// Publish a map under a topic, as an event of now: how many subscribers
    /// there were. The event goes to the channel of the topic, and nowhere for a
    /// topic that is not there.
    pub fn publish(&self, topic: &str, payload: TlvMap) -> (n: usize)
        ensures
            match assoc::lookup(self.entries(), topic@) {
                Some(tx) => counted(tx, n) && sent_now(tx, topic@, payload@),
                None => n == 0,
            },
            assoc::lookup(self.entries(), topic@) matches Some(tx) ==> exists|
                now: std::time::SystemTime,
                event: EventView,
                reached: Option<usize>,
            |
                {
                    &&& time::wall_clock_showed(now)
                    &&& #[trigger] sent(tx, event, reached)
                    &&& event.topic == topic@
                    &&& event.payload == payload@
                    &&& event.time == #[trigger] time::unix_span(now) / 1_000_000
                        % 0x1_0000_0000_0000_0000
                },
    {
        let ghost map = payload@;
        let unix_time = time::unix_time();
        match self.publication(topic, payload, unix_time) {
            Some((tx, event)) => {
                let count: usize = count_receivers(tx);
                let _reached = send_event(tx, event);
                proof {
                    let now = choose|now: std::time::SystemTime|
                        time::wall_clock_showed(now) && unix_time@ == #[trigger] time::unix_span(
                            now,
                        );
                    assert(assoc::lookup(self.entries(), topic@) == Some(*tx));
                    assert(sent(*tx, event_at(topic@, map, time::unix_span(now)), _reached));
                }
                count
            },
            None => 0,
        }
    }

    /// The topics.
    pub fn topics(&self) -> (names: Vec<String>)
        ensures
            names@.len() == self.entries().len(),
            forall|i: int|
                0 <= i < names@.len() ==> (#[trigger] names@[i])@ == self.entries()[i].0,
    {
        let mut names: Vec<String> = Vec::new();
        let mut i: usize = 0;
        while i < self.topics.len()
            invariant
                i <= self.topics@.len(),
                names@.len() == i,
                forall|j: int| 0 <= j < i ==> (#[trigger] names@[j])@ == self.entries()[j].0,
            decreases self.topics@.len() - i,
        {
            names.push(self.topics[i].0.clone());
            i = i + 1;
        }
        names
    }

    /// The channel of a topic.
    pub fn channel(&self, topic: &str) -> (r: Option<&broadcast::Sender<Event>>)
        ensures
            match r {
                Some(tx) => assoc::lookup(self.entries(), topic@) == Some(*tx),
                None => assoc::lookup(self.entries(), topic@) is None,
            },
    {
        let at: usize = self.find(topic);
        if at < self.topics.len() {
            Some(&self.topics[at].1)
        } else {
            None
        }
    }

    /// How many subscribers a topic has: as many as its `channel` counts.
    pub fn subscriber_count(&self, topic: &str) -> (n: usize)
        ensures
            match assoc::lookup(self.entries(), topic@) {
                Some(tx) => counted(tx, n),
                None => n == 0,
            },
    {
        match self.channel(topic) {
            Some(tx) => count_receivers(tx),
            None => 0,
        }
    }
}

impl Default for Hub {
    fn default() -> (h: Hub)
        ensures
            h.entries() == Seq::<(Seq<char>, broadcast::Sender<Event>)>::empty(),
            h.wf(),
    {
        Hub::new()
    }
}

/// A map that is published under a topic goes to the channel that feeds whoever
/// subscribed to the topic, whatever other topic appeared or was dropped between
/// the two.
pub proof fn law_publish_reaches_channel_of_subscriber(
    subscribed: Seq<(Seq<char>, broadcast::Sender<Event>)>,
    published: Seq<(Seq<char>, broadcast::Sender<Event>)>,
    topic: Seq<char>,
    payload: MapView,
    rx: broadcast::Receiver<Event>,
    other: Seq<char>,
    other_tx: broadcast::Sender<Event>,
)
    requires
        assoc::lookup(subscribed, topic) matches Some(tx) && feeds(tx, rx),
        other != topic,
        published == subscribed || (published == subscribed.push((other, other_tx))
            && !assoc::has(subscribed, other)) || published == assoc::without(subscribed, other),
        assoc::lookup(published, topic) matches Some(tx) ==> sent_now(tx, topic, payload),
    ensures
        exists|tx: broadcast::Sender<Event>| #[trigger]
            feeds(tx, rx) && sent_now(tx, topic, payload),
        exists|tx: broadcast::Sender<Event>, event: EventView, reached: Option<usize>|
            {
                &&& #[trigger] feeds(tx, rx)
                &&& #[trigger] sent(tx, event, reached)
                &&& event.topic == topic
                &&& event.payload == payload
            },
{
    law_topic_keeps_channel(subscribed, topic, other, other_tx);
    let tx = assoc::lookup(published, topic)->Some_0;
    law_sent_now(tx, topic, payload);
    let (now, event, reached) = choose|
        now: std::time::SystemTime,
        event: EventView,
        reached: Option<usize>,
    |
        {
            &&& time::wall_clock_showed(now)
            &&& #[trigger] sent(tx, event, reached)
            &&& event.topic == topic
            &&& event.payload == payload
            &&& event.time == #[trigger] time::unix_span(now) / 1_000_000 % 0x1_0000_0000_0000_0000
        };
    assert(feeds(tx, rx) && sent(tx, event, reached));
}

/// A topic keeps its channel, and so its subscribers, while other topics appear
/// and are dropped.
pub proof fn law_topic_keeps_channel(
    entries: Seq<(Seq<char>, broadcast::Sender<Event>)>,
    topic: Seq<char>,
    other: Seq<char>,
    tx: broadcast::Sender<Event>,
)
    requires
        other != topic,
    ensures
        !assoc::has(entries, other) ==> assoc::lookup(entries.push((other, tx)), topic)
            == assoc::lookup(entries, topic),
        assoc::lookup(assoc::without(entries, other), topic) == assoc::lookup(entries, topic),
{
    assoc::law_lookup_other_after_upsert(entries, other, tx, topic);
    assoc::law_lookup_other_after_without(entries, other, topic);
}

} // verus!
