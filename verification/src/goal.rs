//! The one-shot goal handshake: a single-producer, single-consumer signal
//! that the run's terminal condition was reached. It moves from `Unfired` to
//! `Fired` at most once; a producer that ends without firing leaves it
//! `Abandoned`, which consumers can tell apart from `Fired`.

use vstd::prelude::*;

verus! {

/// The state of the handshake.
#[derive(Clone, Copy, PartialEq, Eq, Structural, Debug)]
pub enum GoalState {
    /// Nothing decided yet: the producer is still running.
    Unfired,
    /// The goal was reached; fired exactly once.
    Fired,
    /// The producer ended without firing; the run did not reach its goal.
    Abandoned,
}

/// Error returned when a producer attempts an illegal second transition.
#[derive(Clone, Copy, PartialEq, Eq, Structural, Debug)]
pub enum GoalError {
    /// `fire` was called when the signal had already fired.
    AlreadyFired,
    /// `fire` was called after the producer had abandoned the signal.
    AlreadyAbandoned,
}

/// What a consumer observes: pending, or one of the two terminal outcomes.
#[derive(Clone, Copy, PartialEq, Eq, Structural, Debug)]
pub enum GoalOutcome {
    Fired,
    Abandoned,
}

/// The transition `fire` makes from a given state: the state after the call
/// and whether the call succeeded. Only `Unfired -> Fired` succeeds; the two
/// terminal states are never left.
pub open spec fn fire_transition(s: GoalState) -> (GoalState, bool) {
    match s {
        GoalState::Unfired => (GoalState::Fired, true),
        GoalState::Fired => (GoalState::Fired, false),
        GoalState::Abandoned => (GoalState::Abandoned, false),
    }
}

/// Law: the handshake fires at most once. Whatever state the signal starts
/// in, after one successful `fire` no further `fire` can succeed: a second
/// attempt is answered with an error and changes nothing.
pub proof fn lemma_fire_at_most_once(s: GoalState)
    requires
        fire_transition(s).1,
    ensures
        !fire_transition(fire_transition(s).0).1,
        fire_transition(fire_transition(s).0).0 == fire_transition(s).0,
{
}

/// A single-use, single-value goal signal.
pub struct GoalHandshake {
    state: GoalState,
}

impl GoalHandshake {
    /// The current state, for contracts.
    pub closed spec fn spec_state(self) -> GoalState {
        self.state
    }

    /// A fresh, unfired handshake.
    pub fn new() -> (g: GoalHandshake)
        ensures
            g.spec_state() == GoalState::Unfired,
    {
        GoalHandshake { state: GoalState::Unfired }
    }

    /// Produces the signal. Succeeds exactly when the signal is still
    /// unfired; a second fire, or a fire after abandonment, is rejected as a
    /// programming error and leaves the state unchanged.
    pub fn fire(&mut self) -> (r: Result<(), GoalError>)
        ensures
            final(self).spec_state() == fire_transition(old(self).spec_state()).0,
            r is Ok <==> fire_transition(old(self).spec_state()).1,
            old(self).spec_state() == GoalState::Fired ==> r == Result::<(), GoalError>::Err(
                GoalError::AlreadyFired,
            ),
            old(self).spec_state() == GoalState::Abandoned ==> r == Result::<(), GoalError>::Err(
                GoalError::AlreadyAbandoned,
            ),
    {
        match self.state {
            GoalState::Unfired => {
                self.state = GoalState::Fired;
                Ok(())
            },
            GoalState::Fired => Err(GoalError::AlreadyFired),
            GoalState::Abandoned => Err(GoalError::AlreadyAbandoned),
        }
    }

    /// The producer ends without firing. An unfired signal becomes
    /// abandoned; a signal that already fired stays fired, so a late drop of
    /// the producer can never mask a reached goal.
    pub fn abandon(&mut self)
        ensures
            old(self).spec_state() == GoalState::Unfired ==> final(self).spec_state()
                == GoalState::Abandoned,
            old(self).spec_state() != GoalState::Unfired ==> final(self).spec_state() == old(
                self,
            ).spec_state(),
    {
        if let GoalState::Unfired = self.state {
            self.state = GoalState::Abandoned;
        }
    }

    /// What a consumer sees: `None` while the signal is still pending,
    /// otherwise the terminal outcome, with "goal reached" distinguishable
    /// from "producer gave up".
    pub fn outcome(&self) -> (r: Option<GoalOutcome>)
        ensures
            r is None <==> self.spec_state() == GoalState::Unfired,
            self.spec_state() == GoalState::Fired <==> r == Some(GoalOutcome::Fired),
            self.spec_state() == GoalState::Abandoned <==> r == Some(GoalOutcome::Abandoned),
    {
        match self.state {
            GoalState::Unfired => None,
            GoalState::Fired => Some(GoalOutcome::Fired),
            GoalState::Abandoned => Some(GoalOutcome::Abandoned),
        }
    }
}

} // verus!
