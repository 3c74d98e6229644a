//! The outbound decision task's logic: one decision cycle reads a snapshot
//! of the progress store and the task's private bookkeeping, and yields the
//! next protocol action. The surrounding loop — owning the write half of the
//! connection, sending the action, pacing the cycles — performs I/O and
//! lives outside the verified core; it feeds each snapshot in and carries
//! each action out.

use vstd::prelude::*;
use crate::store::ProgressStore;

verus! {

/// The next protocol action a decision cycle asks the loop to perform.
#[derive(Clone, Copy, PartialEq, Eq, Structural, Debug)]
pub enum BotAction {
    /// Send a location check for this id.
    CheckLocation(u64),
    /// Announce that the goal was reached; emitted at most once per run.
    AnnounceGoal,
    /// Nothing to do this cycle.
    Idle,
}

/// The outbound task's private bookkeeping: which checks it already sent
/// (so a check is not repeated before the server's echo arrives), and
/// whether it has announced the goal.
pub struct OutboundState {
    pub sent: Vec<u64>,
    pub goal_announced: bool,
}

/// The goal predicate of the built-in policy: every location of the map has
/// been checked.
pub open spec fn goal_reached(s: ProgressStore) -> bool {
    forall|i: int|
        0 <= i < s.locations@.len() ==> s.checked_set().contains(#[trigger] s.locations@[i].id)
}

/// The first location id of the map that is neither checked in the store
/// nor already sent, scanning the map in order from the given index.
pub open spec fn next_unsent_from(s: ProgressStore, sent: Seq<u64>, i: int) -> Option<u64>
    decreases s.locations@.len() - i,
{
    if i < 0 || i >= s.locations@.len() {
        None
    } else if !s.checked_set().contains(s.locations@[i].id) && !sent.contains(
        s.locations@[i].id,
    ) {
        Some(s.locations@[i].id)
    } else {
        next_unsent_from(s, sent, i + 1)
    }
}

/// The location the built-in policy would check next, if any.
pub open spec fn next_unsent(s: ProgressStore, sent: Seq<u64>) -> Option<u64> {
    next_unsent_from(s, sent, 0)
}

impl OutboundState {
    /// Fresh bookkeeping: nothing sent, goal not announced.
    pub fn new() -> (ob: OutboundState)
        ensures
            ob.sent@ == Seq::<u64>::empty(),
            !ob.goal_announced,
    {
        OutboundState { sent: Vec::new(), goal_announced: false }
    }
}

/// The relation one decision cycle establishes between the snapshot it read,
/// the bookkeeping before and after, and the action it returns:
/// - once the goal is announced the task is quiescent: it idles forever;
/// - an unannounced reached goal is announced, and the flag set;
/// - otherwise the first unchecked, unsent location is checked and recorded;
/// - with nothing left to do the cycle idles and changes nothing.
pub open spec fn decide_post(
    s: ProgressStore,
    pre: OutboundState,
    post: OutboundState,
    a: BotAction,
) -> bool {
    if pre.goal_announced {
        a == BotAction::Idle && post.sent@ == pre.sent@ && post.goal_announced
    } else if goal_reached(s) {
        a == BotAction::AnnounceGoal && post.sent@ == pre.sent@ && post.goal_announced
    } else {
        !post.goal_announced && match next_unsent(s, pre.sent@) {
            Some(id) => a == BotAction::CheckLocation(id) && post.sent@ == pre.sent@.push(id),
            None => a == BotAction::Idle && post.sent@ == pre.sent@,
        }
    }
}

/// Whether every location of the map is checked, per the built-in policy.
pub fn eval_goal(s: &ProgressStore) -> (b: bool)
    ensures
        b == goal_reached(*s),
{
    let mut k: usize = 0;
    while k < s.locations.len()
        invariant
            0 <= k <= s.locations@.len(),
            forall|i: int| 0 <= i < k ==> s.checked_set().contains(#[trigger] s.locations@[i].id),
        decreases s.locations@.len() - k,
    {
        if !s.is_checked(s.locations[k].id) {
            return false;
        }
        k += 1;
    }
    true
}

/// One decision cycle of the outbound task, against a consistent snapshot of
/// the progress store. Returns the action to emit and updates the
/// bookkeeping, as `decide_post` states; in particular the goal is announced
/// on the first cycle that sees it reached, and on no cycle after that.
pub fn decide(s: &ProgressStore, ob: &mut OutboundState) -> (a: BotAction)
    ensures
        decide_post(*s, *old(ob), *final(ob), a),
{
    if ob.goal_announced {
        return BotAction::Idle;
    }
    if eval_goal(s) {
        ob.goal_announced = true;
        return BotAction::AnnounceGoal;
    }
    let mut k: usize = 0;
    while k < s.locations.len()
        invariant
            0 <= k <= s.locations@.len(),
            next_unsent(*s, ob.sent@) == next_unsent_from(*s, ob.sent@, k as int),
            ob.sent@ == old(ob).sent@,
            !ob.goal_announced,
            !old(ob).goal_announced,
            !goal_reached(*s),
        decreases s.locations@.len() - k,
    {
        let id = s.locations[k].id;
        if !s.is_checked(id) && !sent_contains(&ob.sent, id) {
            assert(next_unsent(*s, ob.sent@) == Some(id));
            ob.sent.push(id);
            return BotAction::CheckLocation(id);
        }
        k += 1;
    }
    BotAction::Idle
}

/// Whether a check for this id was already sent.
fn sent_contains(sent: &Vec<u64>, id: u64) -> (b: bool)
    ensures
        b == sent@.contains(id),
{
    let mut k: usize = 0;
    while k < sent.len()
        invariant
            0 <= k <= sent@.len(),
            forall|j: int| 0 <= j < k ==> sent@[j] != id,
        decreases sent@.len() - k,
    {
        if sent[k] == id {
            assert(sent@.contains(id));
            return true;
        }
        k += 1;
    }
    assert(!sent@.contains(id));
    false
}

/// Law: the goal is announced at most once across the run. A cycle that
/// returns `AnnounceGoal` leaves the announced flag set, and a cycle that
/// starts with the flag set idles and keeps it — whatever snapshot it reads
/// — so chaining this relation cycle by cycle, no later cycle can announce
/// again.
pub proof fn lemma_announce_at_most_once(
    s1: ProgressStore,
    s2: ProgressStore,
    ob0: OutboundState,
    ob1: OutboundState,
    ob2: OutboundState,
    a1: BotAction,
    a2: BotAction,
)
    requires
        decide_post(s1, ob0, ob1, a1),
        decide_post(s2, ob1, ob2, a2),
        a1 == BotAction::AnnounceGoal,
    ensures
        a2 != BotAction::AnnounceGoal,
        ob2.goal_announced,
{
}

} // verus!
