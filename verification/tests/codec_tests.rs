use ap_bot::codec::{decode_snapshot, encode_snapshot, load_or_default};
use ap_bot::store::{LocationEntry, ProgressStore};

fn entry(name: &str, id: u64) -> LocationEntry {
    LocationEntry { name: String::from(name), id }
}

fn sample_store() -> ProgressStore {
    let mut s = ProgressStore::new_uninitialized();
    s.initialize(String::from("SEED1"), 3, vec![entry("L1", 1), entry("L2", 2)])
        .unwrap();
    s.mark_location_checked(1);
    s.record_item(42);
    s
}

#[test]
fn snapshot_round_trips() {
    let s = sample_store();
    let bytes = encode_snapshot(&s);
    let back = decode_snapshot(&bytes).expect("snapshot must decode");
    assert_eq!(back.seed_name, "SEED1");
    assert_eq!(back.team, 3);
    assert_eq!(back.locations.len(), 2);
    assert_eq!(back.locations[0].name, "L1");
    assert_eq!(back.locations[0].id, 1);
    assert_eq!(back.locations[1].name, "L2");
    assert_eq!(back.locations[1].id, 2);
    assert_eq!(back.checked, vec![1]);
    assert_eq!(back.items, vec![42]);
}

#[test]
fn snapshot_round_trips_with_non_ascii_seed() {
    let mut s = ProgressStore::new_uninitialized();
    s.initialize(String::from("Sämen-✓"), 7, vec![entry("Höhle", 11)])
        .unwrap();
    s.mark_location_checked(11);
    let bytes = encode_snapshot(&s);
    let back = decode_snapshot(&bytes).expect("snapshot must decode");
    assert_eq!(back.seed_name, "Sämen-✓");
    assert_eq!(back.locations[0].name, "Höhle");
    assert_eq!(back.checked, vec![11]);
}

#[test]
fn decode_rejects_garbage_and_truncation() {
    assert!(decode_snapshot(&[]).is_none());
    assert!(decode_snapshot(&[1, 2, 3]).is_none());
    let bytes = encode_snapshot(&sample_store());
    assert!(decode_snapshot(&bytes[..bytes.len() - 1]).is_none());
    let mut trailing = bytes.clone();
    trailing.push(0);
    assert!(decode_snapshot(&trailing).is_none());
}

#[test]
fn load_or_default_absent_gives_empty_seed() {
    let store = load_or_default(&String::from("SEED1"), None);
    assert_eq!(store.seed_name, "");
    assert_eq!(store.team, 0);
    assert!(store.checked.is_empty());
}

#[test]
fn load_or_default_unreadable_gives_empty_seed() {
    let store = load_or_default(&String::from("SEED1"), Some(vec![0xff, 0x00, 0x17]));
    assert_eq!(store.seed_name, "");
    assert!(store.checked.is_empty());
}

#[test]
fn load_or_default_seed_mismatch_reinitializes() {
    let bytes = encode_snapshot(&sample_store());
    let store = load_or_default(&String::from("OTHERSEED"), Some(bytes));
    assert_eq!(store.seed_name, "");
    assert!(store.checked.is_empty());
}

#[test]
fn save_then_load_preserves_progress() {
    let s = sample_store();
    let saved = encode_snapshot(&s);
    let loaded = load_or_default(&String::from("SEED1"), Some(saved));
    assert_eq!(loaded.seed_name, s.seed_name);
    assert_eq!(loaded.team, s.team);
    assert_eq!(loaded.checked, s.checked);
    assert_eq!(loaded.items, s.items);
    assert_eq!(loaded.locations.len(), s.locations.len());
}
