//! The shared handle to the progress store: one store instance behind a
//! verified reader/writer lock, passed by reference to both tasks. Writers
//! exclude everyone for the duration of a mutation, readers proceed
//! concurrently, and every value the lock ever holds is well-formed and
//! carries the session identity the handle was created with — the seed
//! name and team are immutable for the handle's lifetime and the location
//! map is never replaced, so all mutations are linearized and touch only
//! progress. No lock is held across I/O: a persist takes the snapshot
//! bytes under the read lock, releases it, and only then writes.

use vstd::prelude::*;
use vstd::rwlock::{RwLock, RwLockPredicate};
use crate::codec::{enc_model, encode_snapshot, model_encodable};
use crate::inbound::{handle_event, step_of, InboundStep, ServerEvent};
use crate::outbound::{decide, decide_post, BotAction, OutboundState};
use crate::store::{ProgressStore, StoreModel};

verus! {

/// The lock's invariant: every store value it guards is well-formed and
/// holds the pinned session identity and location map.
pub ghost struct WfStore {
    pub seed: Seq<char>,
    pub team: u64,
    pub locations: Seq<(Seq<char>, u64)>,
}

impl RwLockPredicate<ProgressStore> for WfStore {
    open spec fn inv(self, v: ProgressStore) -> bool {
        &&& v.wf()
        &&& v.model().seed == self.seed
        &&& v.model().team == self.team
        &&& v.model().locations == self.locations
    }
}

/// The progress store shared by the inbound and outbound tasks. The store
/// itself is never duplicated, only this handle is.
pub struct SharedStore {
    lock: RwLock<ProgressStore, WfStore>,
}

impl SharedStore {
    /// The seed name every guarded store value carries.
    pub closed spec fn spec_seed(self) -> Seq<char> {
        self.lock.pred().seed
    }

    /// The team every guarded store value carries.
    pub closed spec fn spec_team(self) -> u64 {
        self.lock.pred().team
    }

    /// The location map every guarded store value carries.
    pub closed spec fn spec_locations(self) -> Seq<(Seq<char>, u64)> {
        self.lock.pred().locations
    }

    /// Whether a store content belongs to this handle's session: same seed
    /// name, same team, same location map.
    pub open spec fn holds_session(self, m: StoreModel) -> bool {
        &&& m.seed == self.spec_seed()
        &&& m.team == self.spec_team()
        &&& m.locations == self.spec_locations()
    }

    /// Wraps a bootstrapped store for sharing, pinning its session identity
    /// and location map for the handle's lifetime.
    pub fn new(store: ProgressStore) -> (s: SharedStore)
        requires
            store.wf(),
        ensures
            s.spec_seed() == store.model().seed,
            s.spec_team() == store.model().team,
            s.spec_locations() == store.model().locations,
    {
        let ghost pred = WfStore {
            seed: store.model().seed,
            team: store.model().team,
            locations: store.model().locations,
        };
        SharedStore { lock: RwLock::new(store, Ghost(pred)) }
    }

    /// Applies one inbound event to the shared store under the write lock:
    /// the mutation is exclusive and atomic with respect to every reader,
    /// and leaves identity and location map untouched.
    pub fn handle_event(&self, ev: ServerEvent) -> (step: InboundStep)
        ensures
            step == step_of(ev),
    {
        let (mut store, handle) = self.lock.acquire_write();
        let step = handle_event(&mut store, ev);
        handle.release_write(store);
        step
    }

    /// Records a location as checked under the write lock; idempotent, and
    /// leaves identity and location map untouched.
    pub fn mark_location_checked(&self, id: u64) {
        let (mut store, handle) = self.lock.acquire_write();
        store.mark_location_checked(id);
        handle.release_write(store);
    }

    /// Runs one outbound decision cycle against a consistent read of the
    /// store — some well-formed store of this handle's session, as the
    /// linearization point saw it. Readers do not block each other; the
    /// bookkeeping is the caller's own and needs no lock.
    pub fn decide(&self, ob: &mut OutboundState) -> (a: BotAction)
        ensures
            exists|snapshot: ProgressStore| #[trigger] decide_post(
                snapshot,
                *old(ob),
                *final(ob),
                a,
            ) && snapshot.wf() && self.holds_session(snapshot.model()),
    {
        let read_handle = self.lock.acquire_read();
        let guard = read_handle.borrow();
        let a = decide(guard, ob);
        proof {
            assert(decide_post(*guard, *old(ob), *ob, a) && guard.wf() && self.holds_session(
                guard.model(),
            ));
        }
        read_handle.release_read();
        a
    }

    /// A consistent point-in-time snapshot in the durable format — the
    /// encoding of some well-formed store of this handle's session, as the
    /// linearization point saw it — taken under the read lock and handed
    /// out for the caller to write after the lock is gone.
    pub fn snapshot_for_persist(&self) -> (out: Vec<u8>)
        ensures
            exists|s: ProgressStore| s.wf() && self.holds_session(#[trigger] s.model()) && out@
                == enc_model(s.model()) && model_encodable(s.model()),
    {
        let read_handle = self.lock.acquire_read();
        let guard = read_handle.borrow();
        let out = encode_snapshot(guard);
        proof {
            assert(guard.wf() && self.holds_session(guard.model()) && out@ == enc_model(
                guard.model(),
            ) && model_encodable(guard.model()));
        }
        read_handle.release_read();
        out
    }
}

} // verus!
