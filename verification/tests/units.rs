use std::collections::hash_map::DefaultHasher;
use std::hash::Hasher;

use caster::config::{
    default_channel_size, default_db_path, default_feed_ignore_days, default_feed_interval_ms,
    default_log_level, default_telegram_content_max_length,
};
use caster::event::Event;
use caster::store::Store;
use caster::utils::{get_hash, shutdown_too_quickly, ts_to_systemtime, Interval};

#[test]
fn get_hash_matches_standard_hasher_in_hex() {
    for s in ["", "e1", "http://example.com/feed", "something longer with spaces"] {
        let mut h = DefaultHasher::new();
        h.write(s.as_bytes());
        let expected = format!("{:x}", h.finish());
        assert_eq!(get_hash(s), expected);
    }
}

#[test]
fn get_hash_is_stable_and_splits_keys() {
    assert_eq!(get_hash("e1"), get_hash("e1"));
    assert_ne!(get_hash("e1"), get_hash("e2"));
}

#[test]
fn interval_keeps_the_grid() {
    let mut iv = Interval::every(1000);
    // First tick fires immediately and fixes the grid at 6000, 7000, ...
    assert_eq!(iv.next_tick(5000), 0);
    // Early: wait until the pending deadline.
    assert_eq!(iv.next_tick(5500), 500);
    // Past the deadline: wait to the next grid point, not a burst.
    assert_eq!(iv.next_tick(6100), 900);
    // Far behind: missed grid points are skipped.
    assert_eq!(iv.next_tick(9999), 1);
    // Exactly on a grid point: a full period to the next one.
    assert_eq!(iv.next_tick(7000), 1000);
}

#[test]
fn store_put_get_overwrite() {
    let mut store = Store::new();
    assert!(store.get(&"k".to_owned()).is_none());
    store.put("k".to_owned(), vec![1]);
    assert_eq!(store.get(&"k".to_owned()), Some(&vec![1u8]));
    store.put("k".to_owned(), vec![2, 3]);
    assert_eq!(store.get(&"k".to_owned()), Some(&vec![2u8, 3]));
    assert_eq!(store.len(), 1);
    store.put("other".to_owned(), vec![9]);
    assert_eq!(store.len(), 2);
}

#[test]
fn store_remove_forgets_one_key() {
    let mut store = Store::new();
    store.put("a".to_owned(), vec![1]);
    store.put("b".to_owned(), vec![2]);
    store.remove(&"a".to_owned());
    assert!(store.get(&"a".to_owned()).is_none());
    assert_eq!(store.get(&"b".to_owned()), Some(&vec![2u8]));
    assert_eq!(store.len(), 1);
    // Removing an absent key changes nothing.
    store.remove(&"ghost".to_owned());
    assert_eq!(store.len(), 1);
}

#[test]
fn store_scan_prefix_counts_one_source_kind() {
    let mut store = Store::new();
    store.put("FEED-a-1".to_owned(), vec![0]);
    store.put("FEED-a-2".to_owned(), vec![0]);
    store.put("FEED-b-1".to_owned(), vec![0]);
    store.put("CRATE-foo".to_owned(), vec![0]);
    assert_eq!(store.scan_prefix(&"FEED-".to_owned()), 3);
    assert_eq!(store.scan_prefix(&"CRATE-".to_owned()), 1);
    assert_eq!(store.scan_prefix(&"FEED-a-".to_owned()), 2);
    assert_eq!(store.scan_prefix(&"".to_owned()), 4);
    assert_eq!(store.scan_prefix(&"NOPE".to_owned()), 0);
}

#[test]
fn defaults_are_the_documented_values() {
    assert_eq!(default_log_level(), "INFO");
    assert_eq!(default_db_path(), "/tmp/caster/sled");
    assert_eq!(default_channel_size(), 15);
    assert_eq!(default_feed_interval_ms(), 60000);
    assert_eq!(default_feed_ignore_days(), 30);
    assert_eq!(default_telegram_content_max_length(), 100);
}

#[test]
fn systemtime_and_humantime_wrappers() {
    assert_eq!(ts_to_systemtime(0), std::time::UNIX_EPOCH);
    assert_eq!(
        ts_to_systemtime(1000),
        std::time::UNIX_EPOCH + std::time::Duration::from_secs(1000)
    );
    assert_eq!(
        caster::utils::ts_to_humantime(1000).to_string(),
        "1970-01-01T00:16:40Z"
    );
}

#[test]
fn describe_events() {
    let e = Event::Feed {
        entry_id: "FEED-x-y".to_owned(),
        time: 1000,
        content: None,
        title: None,
        link: None,
    };
    assert_eq!(e.describe(), "Feed event: FEED-x-y at 1970-01-01T00:16:40Z");
    let c = Event::CratesIo {
        name: "foo".to_owned(),
        vers: "1.0.0".to_owned(),
        links: None,
        yanked: false,
    };
    assert_eq!(c.describe(), "Crates.io event: foo ");
}

#[test]
fn shutdown_window() {
    assert!(shutdown_too_quickly(0));
    assert!(shutdown_too_quickly(499));
    assert!(!shutdown_too_quickly(500));
    assert!(!shutdown_too_quickly(10_000));
}

#[test]
fn extract_entries_reads_a_feed_document() {
    let xml = "<?xml version=\"1.0\"?><rss version=\"2.0\"><channel><title>t</title><item><guid>e1</guid><title>T1</title><pubDate>Thu, 01 Jan 1970 00:16:40 +0000</pubDate><link>http://example.com/e1</link><description>S1</description></item></channel></rss>";
    let feed = feed_rs::parser::parse(xml.as_bytes()).expect("should parse");
    let entries = caster::feed::extract_entries(feed);
    assert_eq!(entries.len(), 1);
    assert_eq!(entries[0].id, "e1");
    assert_eq!(entries[0].published, Some(1000));
    assert_eq!(entries[0].title.as_deref(), Some("T1"));
    assert_eq!(entries[0].links, vec!["http://example.com/e1".to_owned()]);
    assert_eq!(entries[0].summary.as_deref(), Some("S1"));

    assert!(feed_rs::parser::parse(&b"not a feed at all"[..]).is_err());
}
