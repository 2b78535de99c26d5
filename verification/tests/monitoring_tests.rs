use std::collections::BTreeMap;
use vpnmanager::monitoring::{
    all_labelled, append_to_map, compute_usage, counters_consistent, get_usage_data, label_stats,
};
use vpnmanager::strmap::StrMap;
use vpnmanager::wireguardapi::{get_current_stats, key_from_output, UsageMap};

fn usage(entries: &[(&str, (u64, u64))]) -> UsageMap {
    let mut m: UsageMap = StrMap::new();
    for (k, v) in entries {
        m.insert(k.to_string(), *v);
    }
    m
}

fn names(entries: &[(&str, &str)]) -> StrMap<String> {
    let mut m: StrMap<String> = StrMap::new();
    for (k, v) in entries {
        m.insert(k.to_string(), v.to_string());
    }
    m
}

fn listing(m: &UsageMap) -> Vec<(String, (u64, u64))> {
    (0..m.len()).map(|i| (m.key_at(i).clone(), *m.value_at(i))).collect()
}

#[test]
fn reads_transfer_listing() {
    let out = "keyB=\t100\t200\nkeyA=\t5\t6\n";
    let m = get_current_stats(out).unwrap();
    assert_eq!(
        listing(&m),
        vec![("keyA=".to_string(), (5, 6)), ("keyB=".to_string(), (100, 200))]
    );
}

#[test]
fn transfer_listing_later_line_wins_and_extra_fields_ignored() {
    let out = "k\t1\t2\textra\nk\t3\t4\n";
    let m = get_current_stats(out).unwrap();
    assert_eq!(listing(&m), vec![("k".to_string(), (3, 4))]);
}

#[test]
fn unreadable_transfer_listings() {
    assert!(get_current_stats("").is_none());
    assert!(get_current_stats("\n").is_none());
    assert!(get_current_stats("k\t1\n").is_none());
    assert!(get_current_stats("k\tx\t2\n").is_none());
    assert!(get_current_stats("k\t1\t2\n\nj\t1\t1\n").is_none());
    assert!(get_current_stats("k\t1\t-2\n").is_none());
}

#[test]
fn last_character_is_dropped() {
    // the last character goes even when it is not a newline
    let m = get_current_stats("k\t1\t23").unwrap();
    assert_eq!(listing(&m), vec![("k".to_string(), (1, 2))]);
}

#[test]
fn key_output_loses_newline() {
    assert_eq!(key_from_output("abc=\n".to_string()), "abc=");
    assert_eq!(key_from_output(String::new()), "");
}

#[test]
fn labelling_by_name() {
    let stats = usage(&[("pk1", (10, 20)), ("pk2", (1, 2)), ("pk3", (7, 7))]);
    let n = names(&[("pk1", "alice"), ("pk2", "bob"), ("pk3", "alice")]);
    assert!(all_labelled(&stats, &n));
    let raw = label_stats(&stats, &n);
    // pk3 comes after pk1, so its counters stand for alice
    assert_eq!(
        listing(&raw),
        vec![("alice".to_string(), (7, 7)), ("bob".to_string(), (1, 2))]
    );
    let partial = names(&[("pk1", "alice")]);
    assert!(!all_labelled(&stats, &partial));
}

#[test]
fn usage_since_last_reading() {
    let raw = usage(&[("alice", (100, 50)), ("bob", (10, 10))]);
    let mut cache = usage(&[("alice", (40, 20)), ("carol", (5, 5))]);
    assert!(counters_consistent(&raw, &cache));
    let data = compute_usage(&raw, &mut cache);
    assert_eq!(
        listing(&data),
        vec![("alice".to_string(), (60, 30)), ("bob".to_string(), (10, 10))]
    );
    assert_eq!(
        listing(&cache),
        vec![
            ("alice".to_string(), (100, 50)),
            ("bob".to_string(), (10, 10)),
            ("carol".to_string(), (0, 0)),
        ]
    );
}

#[test]
fn reset_counters_detected() {
    let raw = usage(&[("alice", (10, 50))]);
    let cache = usage(&[("alice", (40, 20))]);
    assert!(!counters_consistent(&raw, &cache));
}

#[test]
fn usage_accumulates_over_readings() {
    let mut cache = usage(&[("alice", (5, 5))]);
    let first = compute_usage(&usage(&[("alice", (20, 9))]), &mut cache);
    let second = compute_usage(&usage(&[("alice", (31, 9))]), &mut cache);
    let a1 = *first.get("alice").unwrap();
    let a2 = *second.get("alice").unwrap();
    assert_eq!((a1.0 + a2.0, a1.1 + a2.1), (31 - 5, 9 - 5));
}

#[test]
fn record_once_per_time() {
    let mut store: BTreeMap<u64, UsageMap> = BTreeMap::new();
    assert!(append_to_map(&mut store, 100, usage(&[("a", (1, 1))])));
    assert!(!append_to_map(&mut store, 100, usage(&[("a", (9, 9))])));
    assert_eq!(store.len(), 1);
    assert_eq!(store[&100].get("a"), Some(&(1, 1)));
    assert!(append_to_map(&mut store, 160, usage(&[])));
    assert_eq!(store.len(), 2);
}

#[test]
fn full_usage_reading() {
    let stats = usage(&[("pk1", (100, 10)), ("pk2", (3, 4))]);
    let n = names(&[("pk1", "alice"), ("pk2", "bob")]);
    let mut cache = usage(&[("alice", (60, 10))]);
    let mut store: BTreeMap<u64, UsageMap> = BTreeMap::new();
    assert!(get_usage_data(&stats, &n, &mut cache, &mut store, 1000));
    assert_eq!(
        listing(&store[&1000]),
        vec![("alice".to_string(), (40, 0)), ("bob".to_string(), (3, 4))]
    );
    assert_eq!(
        listing(&cache),
        vec![("alice".to_string(), (100, 10)), ("bob".to_string(), (3, 4))]
    );
    // the same time again: the cache moves on, the record stays
    assert!(!get_usage_data(&stats, &n, &mut cache, &mut store, 1000));
    assert_eq!(store.len(), 1);
    assert_eq!(store[&1000].get("alice"), Some(&(40, 0)));
}
