use ap_bot::bootstrap::{
    bootstrap_store, require_data_package, resolve_team, BootstrapError, PlayerEntry,
};
use ap_bot::codec::{decode_snapshot, encode_snapshot, load_or_default};
use ap_bot::goal::{GoalError, GoalHandshake, GoalOutcome};
use ap_bot::inbound::{handle_event, InboundStep, ServerEvent};
use ap_bot::outbound::{decide, eval_goal, BotAction, OutboundState};
use ap_bot::shared::SharedStore;
use ap_bot::store::{LocationEntry, ProgressStore};

fn entry(name: &str, id: u64) -> LocationEntry {
    LocationEntry { name: String::from(name), id }
}

fn player(name: &str, team: u64) -> PlayerEntry {
    PlayerEntry { name: String::from(name), team }
}

#[test]
fn resolve_team_finds_matching_slot() {
    let roster = vec![player("Alice", 1), player("Bot", 3), player("Bot", 4)];
    assert_eq!(resolve_team(&roster, &String::from("Bot")), Ok(3));
}

#[test]
fn resolve_team_without_match_is_fatal() {
    let roster = vec![player("Alice", 1)];
    assert_eq!(
        resolve_team(&roster, &String::from("Bot")),
        Err(BootstrapError::NoMatchingPlayer)
    );
}

#[test]
fn missing_data_package_is_fatal() {
    assert_eq!(
        require_data_package(None).map(|v| v.len()),
        Err(BootstrapError::MissingDataPackage)
    );
    assert!(require_data_package(Some(vec![entry("L1", 1)])).is_ok());
}

#[test]
fn bootstrap_fresh_seed_initializes_store() {
    let loaded = load_or_default(&String::from("SEED1"), None);
    let (store, fresh) = bootstrap_store(
        loaded,
        String::from("SEED1"),
        3,
        vec![entry("L1", 1), entry("L2", 2)],
    );
    assert!(fresh);
    assert_eq!(store.seed_name, "SEED1");
    assert_eq!(store.team, 3);
    assert_eq!(store.locations.len(), 2);
    assert_eq!(store.locations[0].name, "L1");
    assert_eq!(store.locations[0].id, 1);
    assert_eq!(store.locations[1].name, "L2");
    assert_eq!(store.locations[1].id, 2);
    assert!(store.checked.is_empty());
}

#[test]
fn restart_with_same_seed_resumes_prior_progress() {
    let mut first_run = ProgressStore::new_uninitialized();
    first_run
        .initialize(String::from("SEED1"), 3, vec![entry("L1", 1), entry("L2", 2)])
        .unwrap();
    first_run.mark_location_checked(1);
    let persisted = encode_snapshot(&first_run);

    let loaded = load_or_default(&String::from("SEED1"), Some(persisted));
    assert_eq!(loaded.seed_name, "SEED1");
    let (store, fresh) = bootstrap_store(
        loaded,
        String::from("SEED1"),
        3,
        vec![entry("L1", 1), entry("L2", 2)],
    );
    assert!(!fresh);
    assert_eq!(store.seed_name, "SEED1");
    assert_eq!(store.team, 3);
    assert_eq!(store.checked, vec![1]);
}

#[test]
fn outbound_check_then_inbound_echo_keeps_one_entry() {
    let mut store = ProgressStore::new_uninitialized();
    store
        .initialize(String::from("SEED1"), 3, vec![entry("L1", 1), entry("L2", 2)])
        .unwrap();
    store.mark_location_checked(1);
    let step = handle_event(&mut store, ServerEvent::LocationChecked(1));
    assert_eq!(step, InboundStep::Continue);
    assert_eq!(store.checked, vec![1]);
}

#[test]
fn inbound_dispatch_by_event_kind() {
    let mut store = ProgressStore::new_uninitialized();
    store
        .initialize(String::from("SEED1"), 3, vec![entry("L1", 1)])
        .unwrap();
    assert_eq!(
        handle_event(&mut store, ServerEvent::ItemReceived(9)),
        InboundStep::Continue
    );
    assert_eq!(
        handle_event(&mut store, ServerEvent::ItemReceived(9)),
        InboundStep::Continue
    );
    assert_eq!(store.items, vec![9, 9]);
    assert_eq!(
        handle_event(&mut store, ServerEvent::StatusQuery),
        InboundStep::RespondStatus
    );
    assert_eq!(
        handle_event(&mut store, ServerEvent::Malformed),
        InboundStep::Continue
    );
    assert_eq!(
        handle_event(&mut store, ServerEvent::Disconnected),
        InboundStep::Terminate
    );
    assert_eq!(store.items, vec![9, 9]);
    assert!(store.checked.is_empty());
}

#[test]
fn decision_loop_checks_each_location_once() {
    let mut store = ProgressStore::new_uninitialized();
    store
        .initialize(String::from("SEED1"), 3, vec![entry("L1", 1), entry("L2", 2)])
        .unwrap();
    let mut ob = OutboundState::new();
    assert_eq!(decide(&store, &mut ob), BotAction::CheckLocation(1));
    assert_eq!(decide(&store, &mut ob), BotAction::CheckLocation(2));
    assert_eq!(decide(&store, &mut ob), BotAction::Idle);
}

#[test]
fn goal_predicate_follows_checked_set() {
    let mut store = ProgressStore::new_uninitialized();
    store
        .initialize(String::from("SEED1"), 3, vec![entry("L1", 1), entry("L2", 2)])
        .unwrap();
    assert!(!eval_goal(&store));
    store.mark_location_checked(1);
    assert!(!eval_goal(&store));
    store.mark_location_checked(2);
    assert!(eval_goal(&store));
}

#[test]
fn goal_announced_exactly_once() {
    let mut store = ProgressStore::new_uninitialized();
    store
        .initialize(String::from("SEED1"), 3, vec![entry("L1", 1)])
        .unwrap();
    store.mark_location_checked(1);
    let mut ob = OutboundState::new();
    assert_eq!(decide(&store, &mut ob), BotAction::AnnounceGoal);
    assert_eq!(decide(&store, &mut ob), BotAction::Idle);
    assert_eq!(decide(&store, &mut ob), BotAction::Idle);
}

#[test]
fn goal_handshake_fires_at_most_once() {
    let mut g = GoalHandshake::new();
    assert_eq!(g.outcome(), None);
    assert!(g.fire().is_ok());
    assert_eq!(g.fire(), Err(GoalError::AlreadyFired));
    assert_eq!(g.outcome(), Some(GoalOutcome::Fired));
}

#[test]
fn abandoned_handshake_is_distinguishable_from_fired() {
    let mut g = GoalHandshake::new();
    g.abandon();
    assert_eq!(g.outcome(), Some(GoalOutcome::Abandoned));
    assert_eq!(g.fire(), Err(GoalError::AlreadyAbandoned));

    let mut g2 = GoalHandshake::new();
    assert!(g2.fire().is_ok());
    g2.abandon();
    assert_eq!(g2.outcome(), Some(GoalOutcome::Fired));
}

#[test]
fn shared_store_serves_both_tasks() {
    let mut store = ProgressStore::new_uninitialized();
    store
        .initialize(String::from("SEED1"), 3, vec![entry("L1", 1), entry("L2", 2)])
        .unwrap();
    let shared = SharedStore::new(store);

    let mut ob = OutboundState::new();
    let a = shared.decide(&mut ob);
    assert_eq!(a, BotAction::CheckLocation(1));
    shared.mark_location_checked(1);
    assert_eq!(
        shared.handle_event(ServerEvent::LocationChecked(1)),
        InboundStep::Continue
    );

    let snapshot = shared.snapshot_for_persist();
    let view = decode_snapshot(&snapshot).expect("snapshot must decode");
    assert_eq!(view.seed_name, "SEED1");
    assert_eq!(view.checked, vec![1]);

    let reloaded = load_or_default(&String::from("SEED1"), Some(snapshot));
    assert_eq!(reloaded.seed_name, "SEED1");
    assert_eq!(reloaded.team, 3);
    assert_eq!(reloaded.checked, vec![1]);
}
