use presence_board::category::{Category, StoreError};
use presence_board::coming::ComingEntry;
use presence_board::store::ExpiringStore;
use presence_board::time::{parse_arrival, stale_at, Timestamp};

const HOUR: i64 = 3600;

fn at(secs: i64) -> Timestamp {
    Timestamp { secs, nanos: 0 }
}

#[test]
fn instant_in_nanoseconds() {
    let t = Timestamp { secs: 2, nanos: 5 };
    assert_eq!(t.nanos_since_epoch(), 2_000_000_005);
    let n = Timestamp { secs: -1, nanos: 0 };
    assert_eq!(n.nanos_since_epoch(), -1_000_000_000);
}

#[test]
fn stale_only_past_six_hours() {
    let t = at(1_000);
    assert!(!stale_at(&t, &at(1_000)));
    assert!(!stale_at(&t, &at(1_000 + 6 * HOUR)));
    assert!(stale_at(&t, &Timestamp { secs: 1_000 + 6 * HOUR, nanos: 1 }));
    assert!(stale_at(&t, &at(1_000 + 7 * HOUR)));
}

#[test]
fn arrival_text_is_read_as_utc() {
    assert_eq!(parse_arrival("24.12.2024 18:00:00"), Some(at(1_735_063_200)));
    assert_eq!(parse_arrival("01.01.1970 00:00:00"), Some(at(0)));
}

#[test]
fn arrival_text_in_other_forms_is_rejected() {
    assert_eq!(parse_arrival("2024-12-24 18:00:00"), None);
    assert_eq!(parse_arrival("24.12.2024 18:00"), None);
    assert_eq!(parse_arrival("24.12.2024T18:00:00"), None);
    assert_eq!(parse_arrival("32.12.2024 18:00:00"), None);
    assert_eq!(parse_arrival(""), None);
}

#[test]
fn categories_by_exact_name() {
    assert_eq!(Category::parse("Gammeln"), Ok(Category::Gammeln));
    assert_eq!(Category::parse("Connecten"), Ok(Category::Connecten));
    assert_eq!(Category::parse("Fokus"), Ok(Category::Fokus));
    assert_eq!(Category::parse("fokus"), Err(StoreError::UnknownCategory));
    assert_eq!(Category::parse(" Fokus"), Err(StoreError::UnknownCategory));
    assert_eq!(Category::parse(""), Err(StoreError::UnknownCategory));
    assert_eq!(Category::Connecten.name(), "Connecten");
}

#[test]
fn entry_is_returned_within_retention() {
    let mut s: ExpiringStore<Timestamp> = ExpiringStore::new();
    s.upsert("alice".to_string(), at(0));
    let r = s.list_fresh(&at(5 * HOUR));
    assert_eq!(r, vec![("alice".to_string(), at(0))]);
    let r = s.list_fresh(&Timestamp { secs: 6 * HOUR, nanos: 1 });
    assert!(r.is_empty());
    assert_eq!(s.len(), 0);
}

#[test]
fn entry_at_exact_boundary_is_kept() {
    let mut s: ExpiringStore<Timestamp> = ExpiringStore::new();
    s.upsert("bob".to_string(), at(100));
    let r = s.list_fresh(&at(100 + 6 * HOUR));
    assert_eq!(r, vec![("bob".to_string(), at(100))]);
    assert_eq!(s.len(), 1);
}

#[test]
fn second_write_replaces_first() {
    let mut s: ExpiringStore<Timestamp> = ExpiringStore::new();
    s.upsert("carol".to_string(), at(10));
    s.upsert("carol".to_string(), at(20));
    assert_eq!(s.len(), 1);
    assert_eq!(s.get("carol"), Some(at(20)));
    assert_eq!(s.list_fresh(&at(30)), vec![("carol".to_string(), at(20))]);
}

#[test]
fn identifiers_are_case_sensitive() {
    let mut s: ExpiringStore<Timestamp> = ExpiringStore::new();
    s.upsert("Dave".to_string(), at(1));
    s.upsert("dave".to_string(), at(2));
    assert_eq!(s.len(), 2);
    assert_eq!(s.get("Dave"), Some(at(1)));
    assert_eq!(s.get("dave"), Some(at(2)));
}

#[test]
fn deleting_absent_identifier_changes_nothing() {
    let mut s: ExpiringStore<Timestamp> = ExpiringStore::new();
    s.upsert("erin".to_string(), at(1));
    s.remove("frank");
    assert_eq!(s.len(), 1);
    assert_eq!(s.get("erin"), Some(at(1)));
    s.remove("erin");
    assert_eq!(s.len(), 0);
    s.remove("erin");
    assert_eq!(s.len(), 0);
    assert_eq!(s.get("erin"), None);
}

#[test]
fn deleting_one_keeps_the_others() {
    let mut s: ExpiringStore<Timestamp> = ExpiringStore::new();
    s.upsert("a".to_string(), at(1));
    s.upsert("b".to_string(), at(2));
    s.upsert("c".to_string(), at(3));
    s.remove("b");
    assert_eq!(s.len(), 2);
    assert_eq!(s.get("a"), Some(at(1)));
    assert_eq!(s.get("b"), None);
    assert_eq!(s.get("c"), Some(at(3)));
}

#[test]
fn stale_entries_stay_until_a_read() {
    let mut s: ExpiringStore<Timestamp> = ExpiringStore::new();
    for i in 0..5 {
        s.upsert(format!("user{}", i), at(i));
    }
    // Writes long after retention do not evict the stale entries.
    s.upsert("late".to_string(), at(10 * HOUR));
    s.remove("nobody");
    assert_eq!(s.len(), 6);
    assert_eq!(s.get("user0"), Some(at(0)));
    let r = s.list_fresh(&at(10 * HOUR));
    assert_eq!(r, vec![("late".to_string(), at(10 * HOUR))]);
    assert_eq!(s.len(), 1);
}

#[test]
fn read_past_retention_returns_nothing() {
    let mut s: ExpiringStore<Timestamp> = ExpiringStore::new();
    for i in 0..4 {
        s.upsert(format!("u{}", i), at(i));
    }
    assert_eq!(s.len(), 4);
    assert!(s.list_fresh(&at(7 * HOUR)).is_empty());
    assert_eq!(s.len(), 0);
}

#[test]
fn eviction_keeps_only_fresh_entries() {
    let mut s: ExpiringStore<Timestamp> = ExpiringStore::new();
    s.upsert("old".to_string(), at(0));
    s.upsert("new".to_string(), at(3 * HOUR));
    s.evict(&at(7 * HOUR));
    assert_eq!(s.len(), 1);
    assert_eq!(s.get("old"), None);
    assert_eq!(s.get("new"), Some(at(3 * HOUR)));
}

#[test]
fn coming_with_unknown_category_leaves_store_unchanged() {
    let mut s: ExpiringStore<ComingEntry> = ExpiringStore::new();
    let r = s.upsert_coming("alice".to_string(), "Sleeping", "24.12.2024 18:00:00", &at(5));
    assert_eq!(r, Err(StoreError::UnknownCategory));
    assert_eq!(s.len(), 0);
    assert_eq!(s.get("alice"), None);

    s.upsert_coming("alice".to_string(), "Fokus", "24.12.2024 18:00:00", &at(5)).unwrap();
    let before = s.get("alice");
    let r = s.upsert_coming("alice".to_string(), "fokus", "25.12.2024 18:00:00", &at(6));
    assert_eq!(r, Err(StoreError::UnknownCategory));
    assert_eq!(s.get("alice"), before);
    assert_eq!(s.len(), 1);
}

#[test]
fn coming_with_malformed_time_leaves_store_unchanged() {
    let mut s: ExpiringStore<ComingEntry> = ExpiringStore::new();
    let r = s.upsert_coming("bob".to_string(), "Gammeln", "2024-12-24T18:00:00Z", &at(5));
    assert_eq!(r, Err(StoreError::InvalidTimestamp));
    assert_eq!(s.len(), 0);

    s.upsert_coming("bob".to_string(), "Gammeln", "24.12.2024 18:00:00", &at(5)).unwrap();
    let before = s.get("bob");
    let r = s.upsert_coming("bob".to_string(), "Connecten", "24.12.2024", &at(6));
    assert_eq!(r, Err(StoreError::InvalidTimestamp));
    assert_eq!(s.get("bob"), before);
}

#[test]
fn unknown_category_is_reported_before_bad_time() {
    let mut s: ExpiringStore<ComingEntry> = ExpiringStore::new();
    let r = s.upsert_coming("x".to_string(), "nope", "nope", &at(0));
    assert_eq!(r, Err(StoreError::UnknownCategory));
}

#[test]
fn apply_coming_with_parsed_parts() {
    let mut s: ExpiringStore<ComingEntry> = ExpiringStore::new();
    assert_eq!(
        s.apply_coming("a".to_string(), Err(StoreError::UnknownCategory), Some(at(1)), &at(2)),
        Err(StoreError::UnknownCategory)
    );
    assert_eq!(
        s.apply_coming("a".to_string(), Ok(Category::Fokus), None, &at(2)),
        Err(StoreError::InvalidTimestamp)
    );
    assert_eq!(s.len(), 0);
    assert_eq!(s.apply_coming("a".to_string(), Ok(Category::Fokus), Some(at(1)), &at(2)), Ok(()));
    assert_eq!(
        s.get("a"),
        Some(ComingEntry { edited: at(2), category: Category::Fokus, when: at(1) })
    );
}

#[test]
fn coming_end_to_end() {
    let mut s: ExpiringStore<ComingEntry> = ExpiringStore::new();
    let now = at(1_735_000_000);
    s.upsert_coming("alice".to_string(), "Fokus", "24.12.2024 18:00:00", &now).unwrap();
    let r = s.list_fresh(&now);
    assert_eq!(r.len(), 1);
    assert_eq!(r[0].0, "alice");
    assert_eq!(r[0].1.category, Category::Fokus);
    assert_eq!(r[0].1.when, at(1_735_063_200));
    assert_eq!(r[0].1.edited, now);

    s.upsert_coming("alice".to_string(), "Gammeln", "24.12.2024 18:00:00", &at(1_735_000_010)).unwrap();
    let r = s.list_fresh(&at(1_735_000_010));
    assert_eq!(r.len(), 1);
    assert_eq!(r[0].1.category, Category::Gammeln);

    s.remove("alice");
    assert!(s.list_fresh(&at(1_735_000_020)).is_empty());
}

#[test]
fn coming_entries_expire_from_edit_time_not_arrival() {
    let mut s: ExpiringStore<ComingEntry> = ExpiringStore::new();
    s.upsert_coming("z".to_string(), "Connecten", "01.01.2100 00:00:00", &at(0)).unwrap();
    assert_eq!(s.list_fresh(&at(6 * HOUR)).len(), 1);
    assert!(s.list_fresh(&at(6 * HOUR + 1)).is_empty());
}
