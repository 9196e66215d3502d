//! Phase-countdown and tournament-draft nodes.

use vstd::prelude::*;
use crate::snapshot::Snapshot;
use crate::model::single::{single_eq, is_nan_bits, same_single};

verus! {

/// Countdown for the current `phase` (freezetime, live, planted, ...).
#[derive(Clone, Debug)]
pub struct PhaseCountdowns {
    /// The phase the countdown applies to.
    pub phase: String,
    /// Remaining seconds until the phase ends (IEEE 754 single-precision
    /// bit pattern).
    pub phase_ends_in: u32,
}

impl Snapshot for PhaseCountdowns {
    open spec fn same(&self, other: &Self) -> bool {
        &&& self.phase.same(&other.phase)
        &&& single_eq(self.phase_ends_in, other.phase_ends_in)
    }

    open spec fn no_nan(&self) -> bool {
        &&& self.phase.no_nan()
        &&& !is_nan_bits(self.phase_ends_in)
    }

    proof fn lemma_same_reflexive(&self) {
        self.phase.lemma_same_reflexive();
    }

    fn same_as(&self, other: &Self) -> (r: bool) {
        self.phase.same_as(&other.phase)
            && same_single(self.phase_ends_in, other.phase_ends_in)
    }

    fn snapshot(&self) -> (r: Self) {
        PhaseCountdowns {
            phase: self.phase.snapshot(),
            phase_ends_in: self.phase_ends_in,
        }
    }
}

impl Default for PhaseCountdowns {
    fn default() -> (r: Self)
        ensures
            r.phase@ == Seq::<char>::empty(),
            r.phase_ends_in == 0,
    {
        PhaseCountdowns {
            phase: String::new(),
            phase_ends_in: 0,
        }
    }
}

/// Tournament draft / map veto data (only present in tournament-style modes).
#[derive(Clone, Debug, PartialEq)]
pub struct TournamentDraft {
    /// Phase of the draft (`"map_veto"`, `"side_pick"`, ...).
    pub state: String,
    /// Tournament-side event id.
    pub event_id: Option<u64>,
    /// Tournament-side stage id.
    pub stage_id: Option<u64>,
    /// Team id picking first.
    pub first_team_id: Option<u64>,
    /// Team id picking second.
    pub second_team_id: Option<u64>,
    /// Event display name.
    pub event: String,
    /// Stage display name.
    pub stage: String,
    /// First team display name.
    pub first_team_name: String,
    /// Second team display name.
    pub second_team_name: String,
}

impl Snapshot for TournamentDraft {
    open spec fn same(&self, other: &Self) -> bool {
        &&& self.state.same(&other.state)
        &&& self.event_id.same(&other.event_id)
        &&& self.stage_id.same(&other.stage_id)
        &&& self.first_team_id.same(&other.first_team_id)
        &&& self.second_team_id.same(&other.second_team_id)
        &&& self.event.same(&other.event)
        &&& self.stage.same(&other.stage)
        &&& self.first_team_name.same(&other.first_team_name)
        &&& self.second_team_name.same(&other.second_team_name)
    }

    open spec fn no_nan(&self) -> bool {
        &&& self.state.no_nan()
        &&& self.event_id.no_nan()
        &&& self.stage_id.no_nan()
        &&& self.first_team_id.no_nan()
        &&& self.second_team_id.no_nan()
        &&& self.event.no_nan()
        &&& self.stage.no_nan()
        &&& self.first_team_name.no_nan()
        &&& self.second_team_name.no_nan()
    }

    proof fn lemma_same_reflexive(&self) {
        self.state.lemma_same_reflexive();
        self.event_id.lemma_same_reflexive();
        self.stage_id.lemma_same_reflexive();
        self.first_team_id.lemma_same_reflexive();
        self.second_team_id.lemma_same_reflexive();
        self.event.lemma_same_reflexive();
        self.stage.lemma_same_reflexive();
        self.first_team_name.lemma_same_reflexive();
        self.second_team_name.lemma_same_reflexive();
    }

    fn same_as(&self, other: &Self) -> (r: bool) {
        self.state.same_as(&other.state)
            && self.event_id.same_as(&other.event_id)
            && self.stage_id.same_as(&other.stage_id)
            && self.first_team_id.same_as(&other.first_team_id)
            && self.second_team_id.same_as(&other.second_team_id)
            && self.event.same_as(&other.event)
            && self.stage.same_as(&other.stage)
            && self.first_team_name.same_as(&other.first_team_name)
            && self.second_team_name.same_as(&other.second_team_name)
    }

    fn snapshot(&self) -> (r: Self) {
        TournamentDraft {
            state: self.state.snapshot(),
            event_id: self.event_id.snapshot(),
            stage_id: self.stage_id.snapshot(),
            first_team_id: self.first_team_id.snapshot(),
            second_team_id: self.second_team_id.snapshot(),
            event: self.event.snapshot(),
            stage: self.stage.snapshot(),
            first_team_name: self.first_team_name.snapshot(),
            second_team_name: self.second_team_name.snapshot(),
        }
    }
}

impl Default for TournamentDraft {
    fn default() -> (r: Self)
        ensures
            r.state@ == Seq::<char>::empty(),
            r.event_id is None,
            r.stage_id is None,
            r.first_team_id is None,
            r.second_team_id is None,
            r.event@ == Seq::<char>::empty(),
            r.stage@ == Seq::<char>::empty(),
            r.first_team_name@ == Seq::<char>::empty(),
            r.second_team_name@ == Seq::<char>::empty(),
    {
        TournamentDraft {
            state: String::new(),
            event_id: None,
            stage_id: None,
            first_team_id: None,
            second_team_id: None,
            event: String::new(),
            stage: String::new(),
            first_team_name: String::new(),
            second_team_name: String::new(),
        }
    }
}

} // verus!
