use workshop_walker::profiles::{
    should_retry, BatchSet, UserNameStore, NAME_STALENESS_SECS, PROFILE_BATCH_SIZE,
    PROFILE_RETRY_LIMIT,
};

#[test]
fn display_names_refresh_only_past_the_horizon() {
    let mut store = UserNameStore::new();
    let now: u64 = 2_000_000_000;
    assert!(store.should_update_user(now, 7));
    store.update_user_name(now, 7, "alice".to_string());
    assert_eq!(store.names.len(), 1);
    assert_eq!(store.names[0].name, "alice");
    // a fresh row is left alone
    assert!(!store.should_update_user(now + 60, 7));
    store.update_user_name(now + 60, 7, "renamed".to_string());
    assert_eq!(store.names[0].name, "alice");
    // past seven days the row is replaced
    let later = now + NAME_STALENESS_SECS + 1;
    assert!(store.should_update_user(later, 7));
    store.update_user_name(later, 7, "renamed".to_string());
    assert_eq!(store.names.len(), 1);
    assert_eq!(store.names[0].name, "renamed");
    assert_eq!(store.names[0].last_updated, later);
}

#[test]
fn lookup_returns_the_stored_row() {
    let mut store = UserNameStore::new();
    store.update_user_name(5, 1, "one".to_string());
    let row = store.get_by_id(1).unwrap();
    assert_eq!(row.name, "one");
    assert_eq!(row.last_updated, 5);
    assert!(store.get_by_id(2).is_none());
}

#[test]
fn batch_deduplicates_and_caps() {
    let mut batch = BatchSet::new();
    assert!(batch.offer(1));
    assert!(!batch.offer(1));
    assert_eq!(batch.ids.len(), 1);
    for id in 2..=(PROFILE_BATCH_SIZE as u64) {
        assert!(batch.offer(id));
    }
    assert!(batch.is_full());
    assert!(!batch.offer(10_000));
    assert_eq!(batch.ids.len(), PROFILE_BATCH_SIZE);
    batch.clear();
    assert_eq!(batch.ids.len(), 0);
}

#[test]
fn rate_limited_batches_retry_three_times() {
    assert!(should_retry(0));
    assert!(should_retry(1));
    assert!(should_retry(2));
    assert!(!should_retry(PROFILE_RETRY_LIMIT));
    assert!(!should_retry(200));
}
