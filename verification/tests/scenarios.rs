use caster::bus::{Bus, RecvOutcome, Subscriber};
use caster::crates::{CrateLookup, CrateRelease};
use caster::event::Event;
use caster::feed::{FeedEntryData, FeedFetch};
use caster::store::{Store, StoreWrite};
use caster::utils::get_hash;

fn entry(id: &str, published: Option<i64>) -> FeedEntryData {
    FeedEntryData {
        id: id.to_owned(),
        published,
        updated: None,
        title: Some("T1".to_owned()),
        links: vec!["http://example.com/e1".to_owned()],
        summary: Some("S1".to_owned()),
        content_body: None,
    }
}

fn drain(bus: &Bus, sub: &mut Subscriber) -> Vec<Event> {
    let mut out = Vec::new();
    loop {
        match bus.recv(sub) {
            RecvOutcome::Event(e) => out.push(e),
            RecvOutcome::Lagged(_) => panic!("unexpected lag"),
            RecvOutcome::Empty => return out,
        }
    }
}

#[test]
fn feed_first_poll_emits_and_stores() {
    let mut store = Store::new();
    let mut bus = Bus::new(16);
    let mut sub = bus.subscribe();
    let mut writes: Vec<StoreWrite> = Vec::new();
    let url = "http://example.com/feed".to_owned();
    let entries = vec![entry("e1", Some(1000))];

    caster::feed::feed_cycle(&mut store, &mut bus, &mut writes, &url, &entries, 1000, 30);

    let key = format!("FEED-{}-{}", get_hash(&url), get_hash("e1"));
    let events = drain(&bus, &mut sub);
    assert_eq!(events.len(), 1);
    match &events[0] {
        Event::Feed { entry_id, time, content, title, link } => {
            assert_eq!(entry_id, &key);
            assert_eq!(*time, 1000);
            assert_eq!(content.as_deref(), Some("S1"));
            assert_eq!(title.as_deref(), Some("T1"));
            assert_eq!(link.as_deref(), Some("http://example.com/e1"));
        }
        other => panic!("wrong event: {:?}", other),
    }
    assert_eq!(store.get(&key), Some(&vec![0u8, 0, 0, 0, 0, 0, 0x03, 0xE8]));
    assert_eq!(writes.len(), 1);
    assert_eq!(writes[0].key, key);
    assert_eq!(writes[0].value, vec![0u8, 0, 0, 0, 0, 0, 0x03, 0xE8]);

    // Second poll, unchanged entry: zero events.
    let entries2 = vec![entry("e1", Some(1000))];
    caster::feed::feed_cycle(&mut store, &mut bus, &mut writes, &url, &entries2, 2000, 30);
    assert_eq!(drain(&bus, &mut sub).len(), 0);

    // Third poll, timestamp moved to 2000: one event, store updated.
    let entries3 = vec![entry("e1", Some(2000))];
    caster::feed::feed_cycle(&mut store, &mut bus, &mut writes, &url, &entries3, 3000, 30);
    let events = drain(&bus, &mut sub);
    assert_eq!(events.len(), 1);
    match &events[0] {
        Event::Feed { time, .. } => assert_eq!(*time, 2000),
        other => panic!("wrong event: {:?}", other),
    }
    assert_eq!(store.get(&key), Some(&vec![0u8, 0, 0, 0, 0, 0, 0x07, 0xD0]));
}

#[test]
fn crates_poll_scenario() {
    let mut store = Store::new();
    let mut bus = Bus::new(16);
    let mut sub = bus.subscribe();
    let mut writes: Vec<StoreWrite> = Vec::new();

    let lookups = vec![CrateLookup {
        name: "foo".to_owned(),
        found: Some(CrateRelease {
            vers: "1.0.0".to_owned(),
            cksm: vec![0xAA],
            links: None,
            yanked: false,
        }),
    }];
    caster::crates::crates_cycle(&mut store, &mut bus, &mut writes, &lookups);
    let events = drain(&bus, &mut sub);
    assert_eq!(events.len(), 1);
    assert_eq!(
        events[0],
        Event::CratesIo {
            name: "foo".to_owned(),
            vers: "1.0.0".to_owned(),
            links: None,
            yanked: false,
        }
    );
    assert_eq!(store.get(&"CRATE-foo".to_owned()), Some(&vec![0xAAu8]));

    // Same checksum again: nothing.
    caster::crates::crates_cycle(&mut store, &mut bus, &mut writes, &lookups);
    assert_eq!(drain(&bus, &mut sub).len(), 0);

    // New checksum, now withdrawn: one event with the flag set.
    let lookups3 = vec![CrateLookup {
        name: "foo".to_owned(),
        found: Some(CrateRelease {
            vers: "1.0.1".to_owned(),
            cksm: vec![0xBB],
            links: None,
            yanked: true,
        }),
    }];
    caster::crates::crates_cycle(&mut store, &mut bus, &mut writes, &lookups3);
    let events = drain(&bus, &mut sub);
    assert_eq!(events.len(), 1);
    match &events[0] {
        Event::CratesIo { yanked, vers, .. } => {
            assert!(*yanked);
            assert_eq!(vers, "1.0.1");
        }
        other => panic!("wrong event: {:?}", other),
    }
    assert_eq!(store.get(&"CRATE-foo".to_owned()), Some(&vec![0xBBu8]));
}

#[test]
fn change_detection_replaces_stored_value() {
    let mut store = Store::new();
    let mut bus = Bus::new(8);
    let mut sub = bus.subscribe();
    let mut writes: Vec<StoreWrite> = Vec::new();
    let url = "u".to_owned();
    let key = format!("FEED-{}-{}", get_hash(&url), get_hash("x"));

    // Preload a different fingerprint for the key.
    store.load(key.clone(), vec![1, 2, 3]);

    let entries = vec![entry("x", Some(5))];
    caster::feed::feed_cycle(&mut store, &mut bus, &mut writes, &url, &entries, 5, 30);
    let events = drain(&bus, &mut sub);
    assert_eq!(events.len(), 1);
    assert_eq!(store.get(&key), Some(&vec![0u8, 0, 0, 0, 0, 0, 0, 5]));
}

#[test]
fn stale_entry_is_recorded_but_silent() {
    let mut store = Store::new();
    let mut bus = Bus::new(8);
    let mut sub = bus.subscribe();
    let mut writes: Vec<StoreWrite> = Vec::new();
    let url = "u".to_owned();
    // Entry published at 1000; polled 31 days later with a 30-day horizon.
    let now = 1000 + 31 * 86400;
    let entries = vec![entry("old", Some(1000))];
    caster::feed::feed_cycle(&mut store, &mut bus, &mut writes, &url, &entries, now, 30);
    assert_eq!(drain(&bus, &mut sub).len(), 0);
    let key = format!("FEED-{}-{}", get_hash(&url), get_hash("old"));
    assert!(store.get(&key).is_some());
    assert_eq!(store.len(), 1);

    // Polled again, still unchanged: still silent.
    let entries2 = vec![entry("old", Some(1000))];
    caster::feed::feed_cycle(&mut store, &mut bus, &mut writes, &url, &entries2, now + 86400, 30);
    assert_eq!(drain(&bus, &mut sub).len(), 0);
}

#[test]
fn failed_url_does_not_disturb_sibling() {
    let mut store = Store::new();
    let mut bus = Bus::new(8);
    let mut sub = bus.subscribe();
    let mut writes: Vec<StoreWrite> = Vec::new();
    let fetches = vec![
        FeedFetch { url: "http://a".to_owned(), result: None },
        FeedFetch {
            url: "http://b".to_owned(),
            result: Some(vec![entry("b1", Some(42))]),
        },
    ];
    caster::feed::feed_cycle_round(&mut store, &mut bus, &mut writes, &fetches, 100, 30);
    let events = drain(&bus, &mut sub);
    assert_eq!(events.len(), 1);
    let key_b = format!("FEED-{}-{}", get_hash("http://b"), get_hash("b1"));
    assert_eq!(store.get(&key_b), Some(&vec![0u8, 0, 0, 0, 0, 0, 0, 42]));
    assert_eq!(store.len(), 1);
}

#[test]
fn fan_out_reaches_both_subscribers() {
    let mut bus = Bus::new(4);
    let mut s1 = bus.subscribe();
    let mut s2 = bus.subscribe();
    let ev = Event::CratesIo {
        name: "n".to_owned(),
        vers: "1".to_owned(),
        links: None,
        yanked: false,
    };
    bus.publish(ev.clone());
    match bus.recv(&mut s1) {
        RecvOutcome::Event(e) => assert_eq!(e, ev),
        other => panic!("expected event: {:?}", other),
    }
    match bus.recv(&mut s2) {
        RecvOutcome::Event(e) => assert_eq!(e, ev),
        other => panic!("expected event: {:?}", other),
    }
    assert!(matches!(bus.recv(&mut s1), RecvOutcome::Empty));
    assert!(matches!(bus.recv(&mut s2), RecvOutcome::Empty));
}

#[test]
fn lagging_subscriber_sees_gap_not_block() {
    let mut bus = Bus::new(2);
    let mut sub = bus.subscribe();
    for i in 0..5i64 {
        // Publishing never fails, whatever the subscriber does.
        bus.publish(Event::Feed {
            entry_id: format!("k{}", i),
            time: i,
            content: None,
            title: None,
            link: None,
        });
    }
    assert_eq!(bus.published_count(), 5);
    match bus.recv(&mut sub) {
        RecvOutcome::Lagged(n) => assert_eq!(n, 3),
        other => panic!("expected lag: {:?}", other),
    }
    match bus.recv(&mut sub) {
        RecvOutcome::Event(Event::Feed { time, .. }) => assert_eq!(time, 3),
        other => panic!("expected event: {:?}", other),
    }
    match bus.recv(&mut sub) {
        RecvOutcome::Event(Event::Feed { time, .. }) => assert_eq!(time, 4),
        other => panic!("expected event: {:?}", other),
    }
    assert!(matches!(bus.recv(&mut sub), RecvOutcome::Empty));
}

#[test]
fn deep_backlog_is_trimmed_to_the_window() {
    // Far more events than the capacity: the subscriber still gets a gap
    // signal and then exactly the last `capacity` events, in order.
    let mut bus = Bus::new(3);
    let mut sub = bus.subscribe();
    for i in 0..100i64 {
        bus.publish(Event::Feed {
            entry_id: format!("k{}", i),
            time: i,
            content: None,
            title: None,
            link: None,
        });
    }
    assert_eq!(bus.published_count(), 100);
    match bus.recv(&mut sub) {
        RecvOutcome::Lagged(n) => assert_eq!(n, 97),
        other => panic!("expected lag: {:?}", other),
    }
    for expected in 97..100i64 {
        match bus.recv(&mut sub) {
            RecvOutcome::Event(Event::Feed { time, .. }) => assert_eq!(time, expected),
            other => panic!("expected event: {:?}", other),
        }
    }
    assert!(matches!(bus.recv(&mut sub), RecvOutcome::Empty));
}

#[test]
fn missing_crate_is_skipped() {
    let mut store = Store::new();
    let mut bus = Bus::new(4);
    let mut sub = bus.subscribe();
    let mut writes: Vec<StoreWrite> = Vec::new();
    let lookups = vec![
        CrateLookup { name: "ghost".to_owned(), found: None },
        CrateLookup {
            name: "real".to_owned(),
            found: Some(CrateRelease {
                vers: "0.1.0".to_owned(),
                cksm: vec![1, 2],
                links: Some("http://example.com".to_owned()),
                yanked: false,
            }),
        },
    ];
    caster::crates::crates_cycle(&mut store, &mut bus, &mut writes, &lookups);
    let events = drain(&bus, &mut sub);
    assert_eq!(events.len(), 1);
    assert!(store.get(&"CRATE-ghost".to_owned()).is_none());
    assert_eq!(store.get(&"CRATE-real".to_owned()), Some(&vec![1u8, 2]));
}
