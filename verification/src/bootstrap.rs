//! Session bootstrap logic: resolving team membership from the room's
//! player roster, validating the presence of the game's data package, and
//! initializing or resuming the progress store for the resolved seed. The
//! connection itself (connect, authenticate, the initial sync exchange) is
//! protocol I/O and lives outside the verified core, which only decides.

use vstd::prelude::*;
use crate::store::{first_match, LocationEntry, ProgressStore};

verus! {

/// The immutable run configuration, loaded once before the tasks spawn and
/// shared read-only by both tasks: the slot name this bot plays, and the
/// pacing of the outbound decision loop between cycles.
pub struct Config {
    pub slot_name: String,
    pub pace_ms: u64,
}

/// One entry of the room's player roster: a slot name and its team.
pub struct PlayerEntry {
    pub name: String,
    pub team: u64,
}

/// A fatal bootstrap failure: the run must abort before the tasks spawn.
#[derive(Clone, Copy, PartialEq, Eq, Structural, Debug)]
pub enum BootstrapError {
    /// No player in the roster carries the configured slot name.
    NoMatchingPlayer,
    /// The server offered no data package for this game and slot.
    MissingDataPackage,
}

/// The team of the first roster entry with the given name, if any.
pub open spec fn team_of(roster: Seq<(Seq<char>, u64)>, name: Seq<char>) -> Option<u64> {
    first_match(roster, name)
}

/// The model of a roster: each entry's name characters and team.
pub open spec fn roster_model(roster: Seq<PlayerEntry>) -> Seq<(Seq<char>, u64)> {
    roster.map_values(|p: PlayerEntry| (p.name@, p.team))
}

/// Resolves team membership: the team of the first roster entry whose name
/// equals the configured slot name. Fails with `NoMatchingPlayer` exactly
/// when no entry matches — a fatal bootstrap condition.
pub fn resolve_team(roster: &Vec<PlayerEntry>, slot_name: &String) -> (r: Result<
    u64,
    BootstrapError,
>)
    ensures
        r == match team_of(roster_model(roster@), slot_name@) {
            Some(t) => Result::<u64, BootstrapError>::Ok(t),
            None => Result::<u64, BootstrapError>::Err(BootstrapError::NoMatchingPlayer),
        },
{
    let ghost m = roster_model(roster@);
    proof {
        assert(m.skip(0) =~= m);
    }
    let mut k: usize = 0;
    while k < roster.len()
        invariant
            0 <= k <= roster@.len(),
            m == roster_model(roster@),
            first_match(m, slot_name@) == first_match(m.skip(k as int), slot_name@),
        decreases roster@.len() - k,
    {
        let matched = roster[k].name.eq(slot_name);
        proof {
            assert(m.skip(k as int)[0] == (roster@[k as int].name@, roster@[k as int].team));
            if matched {
                assert(first_match(m.skip(k as int), slot_name@) == Some(
                    roster@[k as int].team,
                ));
            } else {
                assert(m.skip(k as int).drop_first() =~= m.skip(k as int + 1));
                assert(first_match(m.skip(k as int), slot_name@) == first_match(
                    m.skip(k as int + 1),
                    slot_name@,
                ));
            }
        }
        if matched {
            return Ok(roster[k].team);
        }
        k += 1;
    }
    proof {
        assert(m.skip(roster@.len() as int) =~= Seq::<(Seq<char>, u64)>::empty());
    }
    Err(BootstrapError::NoMatchingPlayer)
}

/// Validates the game's data package: the location map must be present for
/// this game and slot, else bootstrap must abort with `MissingDataPackage`.
pub fn require_data_package(package: Option<Vec<LocationEntry>>) -> (r: Result<
    Vec<LocationEntry>,
    BootstrapError,
>)
    ensures
        package is Some <==> r is Ok,
        package is Some ==> r == Result::<Vec<LocationEntry>, BootstrapError>::Ok(
            package.unwrap(),
        ),
        package is None ==> r == Result::<Vec<LocationEntry>, BootstrapError>::Err(
            BootstrapError::MissingDataPackage,
        ),
{
    match package {
        Some(p) => Ok(p),
        None => Err(BootstrapError::MissingDataPackage),
    }
}

/// The final bootstrap decision over the loaded store: a store that came
/// back uninitialized (empty seed name) is initialized from the resolved
/// session identity and data package; a store with prior progress for this
/// seed is kept exactly as loaded, so a restart resumes instead of starting
/// over. Returns the ready store and whether it was freshly initialized.
pub fn bootstrap_store(
    loaded: ProgressStore,
    seed_name: String,
    team: u64,
    locations: Vec<LocationEntry>,
) -> (r: (ProgressStore, bool))
    requires
        loaded.wf(),
    ensures
        r.0.wf(),
        r.1 <==> !loaded.is_initialized(),
        !loaded.is_initialized() ==> r.0.seed_name@ == seed_name@ && r.0.team == team
            && r.0.locations@.map_values(|e: LocationEntry| e.model()) == locations@.map_values(
            |e: LocationEntry| e.model(),
        ) && r.0.checked@ == loaded.checked@ && r.0.items@ == loaded.items@,
        loaded.is_initialized() ==> r.0.model() == loaded.model(),
{
    let mut store = loaded;
    if store.seed_name.as_str().is_empty() {
        let init = store.initialize(seed_name, team, locations);
        proof {
            assert(init is Ok);
        }
        (store, true)
    } else {
        (store, false)
    }
}

} // verus!
