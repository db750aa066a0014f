use hush::media::{MediaURLBuilder, TokenStore};
use hush::time::{Duration, Instant};
use std::cell::Cell;

fn at(secs: u64) -> Instant {
    Instant { nanos: secs as u128 * 1_000_000_000 }
}

fn plain() -> TokenStore<fn(u64) -> bool> {
    TokenStore::new()
}

#[test]
fn issued_tokens_are_good() {
    let mut store = plain();
    assert_eq!(store.max_token_ttl, Duration::from_secs(7200));
    let t = store.issue(5, "track");
    assert_eq!((t.session_id, t.track_id.as_str(), t.hls_url.as_str()), (5, "track", ""));
    assert_eq!(t.created_at, t.issued_at);
    assert!(store.contains(&t.id));
    assert!(store.validate(&t.id));
    assert!(!store.contains(&[0; 16]));
    assert!(!store.validate(&[0; 16]));
    let other = store.issue_with_hls(6, "b", "http://h");
    assert_ne!(other.id, t.id);
    assert_eq!(store.lookup_hls(&other.id), Some("http://h".to_string()));
    assert_eq!(store.lookup_hls(&t.id), Some(String::new()));
    assert_eq!(store.lookup_hls(&[0; 16]), None);
    let copy = other.clone();
    assert_eq!((copy.id, copy.track_id), (other.id, other.track_id));
}

#[test]
fn old_tokens_are_refused_and_dropped() {
    let mut store = plain();
    let id = [1; 16];
    store.issue_at(id, 1, "t", "", at(100));
    assert!(store.validate_at(&id, true, at(7300)));
    assert!(!store.validate_at(&id, true, at(7301)));
    assert!(!store.contains(&id));
    assert!(!store.validate_at(&id, true, at(100)));
}

#[test]
fn tokens_of_dead_sessions_are_refused_and_dropped() {
    let mut store = plain();
    let id = [2; 16];
    store.issue_at(id, 1, "t", "", at(0));
    store.issue_at([3; 16], 1, "t", "", at(0));
    assert!(!store.validate_at(&id, false, at(1)));
    assert!(!store.contains(&id));
    assert!(store.contains(&[3; 16]));
}

#[test]
fn checking_does_not_prolong_a_token() {
    let mut store = plain();
    let id = [4; 16];
    store.issue_at(id, 1, "t", "", at(0));
    assert!(store.validate_at(&id, true, at(7000)));
    assert!(!store.validate_at(&id, true, at(7201)));
}

#[test]
fn session_of_a_token() {
    let mut store = plain();
    store.issue_at([5; 16], 42, "t", "", at(0));
    assert_eq!(store.session_of(&[5; 16], at(10)), Some(42));
    assert_eq!(store.session_of(&[5; 16], at(7201)), None);
    assert_eq!(store.session_of(&[6; 16], at(0)), None);
}

#[test]
fn validator_is_asked() {
    let asked = Cell::new(0u64);
    let mut store = TokenStore::with_validator(|id: u64| {
        asked.set(id);
        id == 1
    });
    let good = store.issue(1, "a");
    let bad = store.issue(2, "b");
    assert!(store.validate(&good.id));
    assert_eq!(asked.get(), 1);
    assert!(!store.validate(&bad.id));
    assert_eq!(asked.get(), 2);
    assert!(!store.contains(&bad.id));
    let before = store.clock().now();
    let t = store.issue(3, "c");
    assert!(before.nanos <= t.issued_at.nanos);
    assert!(t.issued_at.nanos <= store.clock().now().nanos);
    assert_ne!(t.id, [0; 16]);
    asked.set(9);
    assert!(!store.validate(&bad.id));
    assert_eq!(asked.get(), 9);
}

#[test]
fn collecting_tokens() {
    let mut store = plain();
    for i in 0..6u8 {
        store.issue_at([i; 16], 1, "t", "", at(i as u64 * 1000));
    }
    store.gc_at(at(9500));
    assert!(!store.contains(&[0; 16]));
    assert!(!store.contains(&[2; 16]));
    assert!(store.contains(&[3; 16]));
    assert!(store.contains(&[5; 16]));
    let t = store.issue(1, "new");
    store.gc();
    assert!(store.contains(&t.id));
    let clock = store.clock();
    assert!(clock.now().nanos < 3_600_000_000_000);
}

#[test]
fn media_address() {
    let b = MediaURLBuilder::new("https://m.example");
    assert_eq!(b.base_url, "https://m.example");
    let mut id = [0u8; 16];
    id[0] = 0xab;
    id[15] = 0x0f;
    assert_eq!(
        b.build_url(&id, "song 1"),
        "https://m.example/media/ab00000000000000000000000000000f/song 1"
    );
}
