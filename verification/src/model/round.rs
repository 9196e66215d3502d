//! Round and bomb-state nodes.

use vstd::prelude::*;
use crate::snapshot::Snapshot;

verus! {

/// Per-round state.
#[derive(Clone, Copy, Debug, PartialEq, Eq, Structural)]
pub struct Round {
    /// Phase of the current round.
    pub phase: RoundPhase,
    /// State of the bomb during the current round.
    pub bomb: BombRoundState,
    /// Side that won the round (only set after the round ends).
    pub win_team: WinningTeam,
}

impl Snapshot for Round {
    open spec fn same(&self, other: &Self) -> bool {
        &&& self.phase.same(&other.phase)
        &&& self.bomb.same(&other.bomb)
        &&& self.win_team.same(&other.win_team)
    }

    open spec fn no_nan(&self) -> bool {
        &&& self.phase.no_nan()
        &&& self.bomb.no_nan()
        &&& self.win_team.no_nan()
    }

    proof fn lemma_same_reflexive(&self) {
        self.phase.lemma_same_reflexive();
        self.bomb.lemma_same_reflexive();
        self.win_team.lemma_same_reflexive();
    }

    fn same_as(&self, other: &Self) -> (r: bool) {
        self.phase.same_as(&other.phase)
            && self.bomb.same_as(&other.bomb)
            && self.win_team.same_as(&other.win_team)
    }

    fn snapshot(&self) -> (r: Self) {
        Round {
            phase: self.phase.snapshot(),
            bomb: self.bomb.snapshot(),
            win_team: self.win_team.snapshot(),
        }
    }
}

impl Default for Round {
    fn default() -> (r: Self)
        ensures
            r.phase == RoundPhase::Unknown,
            r.bomb == BombRoundState::NoEvent,
            r.win_team == WinningTeam::Undecided,
    {
        Round {
            phase: RoundPhase::Unknown,
            bomb: BombRoundState::NoEvent,
            win_team: WinningTeam::Undecided,
        }
    }
}

/// Phase of the active round.
#[derive(Clone, Copy, Debug, Default, PartialEq, Eq, Structural, Hash)]
pub enum RoundPhase {
    /// Buy-time / freezetime: players cannot move yet.
    Freezetime,
    /// Round is live.
    Live,
    /// Round ended, end-of-round delay active.
    Over,
    /// Unrecognized / not-yet-mapped phase.
    #[default]
    Unknown,
}

impl Snapshot for RoundPhase {
    open spec fn same(&self, other: &Self) -> bool {
        *self == *other
    }

    open spec fn no_nan(&self) -> bool {
        true
    }

    proof fn lemma_same_reflexive(&self) {
    }

    fn same_as(&self, other: &Self) -> (r: bool) {
        *self == *other
    }

    fn snapshot(&self) -> (r: Self) {
        *self
    }
}

/// Bomb state as reported via the `round.bomb` field. The richer per-bomb
/// position info is in [`crate::model::Bomb`] under the root `bomb`.
#[derive(Clone, Copy, Debug, Default, PartialEq, Eq, Structural, Hash)]
pub enum BombRoundState {
    /// Bomb is being planted: defuse cycle has not yet started.
    Planted,
    /// Bomb was defused successfully.
    Defused,
    /// Bomb exploded.
    Exploded,
    /// No bomb event in the current round.
    #[default]
    NoEvent,
}

impl Snapshot for BombRoundState {
    open spec fn same(&self, other: &Self) -> bool {
        *self == *other
    }

    open spec fn no_nan(&self) -> bool {
        true
    }

    proof fn lemma_same_reflexive(&self) {
    }

    fn same_as(&self, other: &Self) -> (r: bool) {
        *self == *other
    }

    fn snapshot(&self) -> (r: Self) {
        *self
    }
}

/// Side that won the latest round.
#[derive(Clone, Copy, Debug, Default, PartialEq, Eq, Structural, Hash)]
pub enum WinningTeam {
    /// Counter-Terrorists.
    Ct,
    /// Terrorists.
    T,
    /// No winner yet (round still in progress).
    #[default]
    Undecided,
}

impl Snapshot for WinningTeam {
    open spec fn same(&self, other: &Self) -> bool {
        *self == *other
    }

    open spec fn no_nan(&self) -> bool {
        true
    }

    proof fn lemma_same_reflexive(&self) {
    }

    fn same_as(&self, other: &Self) -> (r: bool) {
        *self == *other
    }

    fn snapshot(&self) -> (r: Self) {
        *self
    }
}

} // verus!
