//! The trial-move protocol: a cost computation leaves a pending change of
//! the density field, which a later update folds in once.
use vstd::prelude::*;

verus! {

/// Where the density field stands with respect to the particle positions.
#[derive(Clone, Copy, Debug, PartialEq, Eq, Structural)]
pub enum TrialState {
    /// The density matches the current positions; no change is pending.
    Clean,
    /// A move's cost was computed; its change of the density is pending.
    Pending,
    /// The pending change was folded into the density.
    Committed,
}

/// State after a full evaluation, which rebuilds the density from the
/// current positions. A pending change stays valid against the rebuilt
/// density, since positions do not change before the update.
pub open spec fn after_evaluation(s: TrialState) -> TrialState {
    if s == TrialState::Pending { TrialState::Pending } else { TrialState::Clean }
}

/// State after an update, and whether the pending change is folded in.
pub open spec fn after_update(s: TrialState) -> (TrialState, bool) {
    if s == TrialState::Pending { (TrialState::Committed, true) } else { (s, false) }
}

/// Tracks the trial-move protocol of one engine.
#[derive(Clone, Copy, Debug)]
pub struct TrialMoves {
    pub state: TrialState,
}

impl TrialMoves {
    pub fn new() -> (r: TrialMoves)
        ensures
            r.state == TrialState::Clean,
    {
        TrialMoves { state: TrialState::Clean }
    }

    /// Records a full evaluation.
    pub fn evaluated(&mut self)
        ensures
            final(self).state == after_evaluation(old(self).state),
    {
        if self.state != TrialState::Pending {
            self.state = TrialState::Clean;
        }
    }

    /// Records the cost computation of a move, whose change is now pending.
    pub fn cost_computed(&mut self)
        ensures
            final(self).state == TrialState::Pending,
    {
        self.state = TrialState::Pending;
    }

    /// Records an update; returns whether the pending change must be folded
    /// into the density now.
    pub fn update(&mut self) -> (apply: bool)
        ensures
            (final(self).state, apply) == after_update(old(self).state),
    {
        if self.state == TrialState::Pending {
            self.state = TrialState::Committed;
            true
        } else {
            false
        }
    }
}

/// A pending change is folded in at most once: an update right after an
/// update folds nothing.
pub proof fn lemma_update_once(s: TrialState)
    ensures
        !after_update(after_update(s).0).1,
{
}

} // verus!
