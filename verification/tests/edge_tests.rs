use ap_bot::codec::{decode_snapshot, encode_snapshot};
use ap_bot::outbound::{decide, eval_goal, BotAction, OutboundState};
use ap_bot::store::{LocationEntry, ProgressStore};

fn entry(name: &str, id: u64) -> LocationEntry {
    LocationEntry { name: String::from(name), id }
}

#[test]
fn empty_location_map_reaches_goal_immediately() {
    let mut store = ProgressStore::new_uninitialized();
    store.initialize(String::from("SEED1"), 3, vec![]).unwrap();
    assert!(eval_goal(&store));
    let mut ob = OutboundState::new();
    assert_eq!(decide(&store, &mut ob), BotAction::AnnounceGoal);
    assert_eq!(decide(&store, &mut ob), BotAction::Idle);
}

#[test]
fn extreme_ids_round_trip() {
    let mut store = ProgressStore::new_uninitialized();
    store
        .initialize(
            String::from("SEED1"),
            u64::MAX,
            vec![entry("Lo", 0), entry("Hi", u64::MAX)],
        )
        .unwrap();
    store.mark_location_checked(u64::MAX);
    store.mark_location_checked(0);
    store.record_item(u64::MAX);
    let bytes = encode_snapshot(&store);
    let back = decode_snapshot(&bytes).expect("snapshot must decode");
    assert_eq!(back.team, u64::MAX);
    assert_eq!(back.checked, vec![u64::MAX, 0]);
    assert_eq!(back.items, vec![u64::MAX]);
    assert_eq!(back.locations[1].id, u64::MAX);
}

#[test]
fn duplicate_location_names_resolve_to_first() {
    let mut store = ProgressStore::new_uninitialized();
    store
        .initialize(
            String::from("SEED1"),
            1,
            vec![entry("L", 1), entry("L", 2)],
        )
        .unwrap();
    assert_eq!(store.location_id_of(&String::from("L")), Some(1));
}

#[test]
fn empty_seed_store_encodes_and_decodes() {
    let store = ProgressStore::new_uninitialized();
    let bytes = encode_snapshot(&store);
    let back = decode_snapshot(&bytes).expect("snapshot must decode");
    assert_eq!(back.seed_name, "");
    assert_eq!(back.team, 0);
    assert!(back.locations.is_empty());
    assert!(back.checked.is_empty());
    assert!(back.items.is_empty());
}
