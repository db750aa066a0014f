use hush::hub::{Event, Hub};
use hush::time::Duration;
use hush::tlv::{TlvMap, Value};

fn map(n: u64) -> TlvMap {
    let mut m = TlvMap::new();
    m.set("n", Value::Uint64(n));
    m
}

#[test]
fn events_reach_all_subscribers_of_a_topic() {
    let mut hub = Hub::new();
    let mut a = hub.subscribe("chat");
    let mut b = hub.subscribe("chat");
    let mut other = hub.subscribe("news");
    assert_eq!(hub.publish("chat", map(1)), 2);
    let got = a.try_recv().unwrap();
    assert_eq!(got.topic, "chat");
    assert_eq!(got.payload.get_uint64("n"), Some(1));
    assert!(got.time > 1_600_000_000_000);
    assert_eq!(b.try_recv().unwrap().payload.get_uint64("n"), Some(1));
    assert!(other.try_recv().is_err());
    assert!(a.try_recv().is_err());
}

#[test]
fn publishing_without_subscribers() {
    let mut hub = Hub::default();
    assert_eq!(hub.publish("nobody", map(1)), 0);
    drop(hub.subscribe("t"));
    assert_eq!(hub.publish("t", map(1)), 0);
    assert_eq!(hub.subscriber_count("t"), 0);
    assert_eq!(hub.topics(), vec!["t".to_string()]);
}

#[test]
fn topics_come_and_go() {
    let mut hub = Hub::new();
    assert!(hub.topics().is_empty());
    let a = hub.subscribe("a");
    let b1 = hub.subscribe("b");
    let b2 = hub.subscribe("b");
    assert_eq!(hub.topics(), vec!["a".to_string(), "b".to_string()]);
    assert_eq!(hub.subscriber_count("b"), 2);
    assert_eq!(hub.subscriber_count("c"), 0);
    hub.unsubscribe("b");
    assert_eq!(hub.topics().len(), 2);
    drop(b1);
    drop(b2);
    assert_eq!(hub.topics().len(), 2);
    hub.unsubscribe("b");
    assert_eq!(hub.topics(), vec!["a".to_string()]);
    hub.unsubscribe("zzz");
    assert_eq!(hub.topics().len(), 1);
    drop(a);
}

#[test]
fn slow_subscribers_lose_the_oldest_events() {
    let mut hub = Hub::new();
    let mut rx = hub.subscribe("t");
    for i in 0..65 {
        hub.publish("t", map(i));
    }
    assert!(rx.try_recv().is_err());
    assert_eq!(rx.try_recv().unwrap().payload.get_uint64("n"), Some(1));
}

#[test]
fn dropping_depends_on_the_count() {
    let mut hub = Hub::new();
    let _rx = hub.subscribe("t");
    hub.drop_unless_subscribed("t", 1);
    assert_eq!(hub.topics().len(), 1);
    hub.drop_unless_subscribed("t", 0);
    assert!(hub.topics().is_empty());
}

#[test]
fn what_is_published() {
    let mut hub = Hub::new();
    let _rx = hub.subscribe("t");
    let (_, e) = hub.publication("t", map(3), Duration::from_nanos(5_999_999)).unwrap();
    assert_eq!((e.topic.as_str(), e.time), ("t", 5));
    assert_eq!(e.payload, map(3));
    assert!(hub.publication("u", map(3), Duration::from_nanos(0)).is_none());
    let e = Event::at("x", map(1), Duration::from_millis(7));
    let copy = e.clone();
    assert_eq!((copy.topic, copy.payload, copy.time), (e.topic, e.payload, 7));
}

#[test]
fn a_topic_keeps_its_subscribers_while_others_come_and_go() {
    let mut hub = Hub::new();
    drop(hub.subscribe("first"));
    let mut rx = hub.subscribe("kept");
    drop(hub.subscribe("last"));
    hub.unsubscribe("first");
    hub.unsubscribe("last");
    assert_eq!(hub.topics(), vec!["kept".to_string()]);
    assert_eq!(hub.publish("kept", map(4)), 1);
    assert_eq!(rx.try_recv().unwrap().payload.get_uint64("n"), Some(4));
}

#[test]
fn a_topic_has_a_channel_once_it_was_subscribed_to() {
    let mut hub = Hub::new();
    assert!(hub.channel("t").is_none());
    let _rx = hub.subscribe("t");
    assert_eq!(hub.channel("t").unwrap().receiver_count(), 1);
    assert_eq!(hub.subscriber_count("t"), 1);
}
