use ap_bot::store::{LocationEntry, ProgressStore, StoreError};

fn entry(name: &str, id: u64) -> LocationEntry {
    LocationEntry { name: String::from(name), id }
}

#[test]
fn fresh_store_is_uninitialized() {
    let s = ProgressStore::new_uninitialized();
    assert_eq!(s.seed_name, "");
    assert_eq!(s.team, 0);
    assert!(s.locations.is_empty());
    assert!(s.checked.is_empty());
    assert!(s.items.is_empty());
}

#[test]
fn initialize_sets_identity_and_map() {
    let mut s = ProgressStore::new_uninitialized();
    let r = s.initialize(String::from("SEED1"), 3, vec![entry("L1", 1), entry("L2", 2)]);
    assert!(r.is_ok());
    assert_eq!(s.seed_name, "SEED1");
    assert_eq!(s.team, 3);
    assert_eq!(s.locations.len(), 2);
    assert_eq!(s.locations[0].name, "L1");
    assert_eq!(s.locations[0].id, 1);
    assert_eq!(s.locations[1].name, "L2");
    assert_eq!(s.locations[1].id, 2);
    assert!(s.checked.is_empty());
}

#[test]
fn initialize_twice_is_rejected() {
    let mut s = ProgressStore::new_uninitialized();
    assert!(s.initialize(String::from("SEED1"), 3, vec![entry("L1", 1)]).is_ok());
    let again = s.initialize(String::from("SEED2"), 4, vec![entry("L9", 9)]);
    assert_eq!(again, Err(StoreError::AlreadyInitialized));
    assert_eq!(s.seed_name, "SEED1");
    assert_eq!(s.team, 3);
    assert_eq!(s.locations.len(), 1);
}

#[test]
fn mark_location_checked_is_idempotent() {
    let mut s = ProgressStore::new_uninitialized();
    s.mark_location_checked(5);
    s.mark_location_checked(9);
    s.mark_location_checked(5);
    s.mark_location_checked(5);
    s.mark_location_checked(9);
    assert_eq!(s.checked, vec![5, 9]);
    assert!(s.is_checked(5));
    assert!(s.is_checked(9));
    assert!(!s.is_checked(7));
    assert_eq!(s.checked_count(), 2);
}

#[test]
fn checked_set_equals_distinct_ids_passed() {
    let mut s = ProgressStore::new_uninitialized();
    let calls = [3u64, 1, 3, 2, 1, 1, 2, 3];
    for id in calls {
        s.mark_location_checked(id);
    }
    let mut got = s.checked.clone();
    got.sort();
    assert_eq!(got, vec![1, 2, 3]);
}

#[test]
fn record_item_keeps_duplicates_in_order() {
    let mut s = ProgressStore::new_uninitialized();
    s.record_item(10);
    s.record_item(10);
    s.record_item(4);
    assert_eq!(s.items, vec![10, 10, 4]);
}

#[test]
fn location_id_of_resolves_names() {
    let mut s = ProgressStore::new_uninitialized();
    s.initialize(String::from("SEED1"), 0, vec![entry("L1", 1), entry("L2", 2)])
        .unwrap();
    assert_eq!(s.location_id_of(&String::from("L1")), Some(1));
    assert_eq!(s.location_id_of(&String::from("L2")), Some(2));
    assert_eq!(s.location_id_of(&String::from("L3")), None);
}
