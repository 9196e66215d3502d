//! Map / round-series statistics.

use vstd::prelude::*;
use crate::snapshot::Snapshot;
use crate::strmap::StrMap;

verus! {

/// Map / series-level state.
#[derive(Clone, Debug, PartialEq)]
pub struct MapState {
    /// Game mode, e.g. `"competitive"`, `"casual"`, `"deathmatch"`.
    pub mode: String,
    /// Map filename, e.g. `"de_dust2"`.
    pub name: String,
    /// Current map phase.
    pub phase: MapPhase,
    /// 1-based round number within the current map.
    pub round: u32,
    /// Counter-Terrorist team statistics.
    pub team_ct: TeamStatistics,
    /// Terrorist team statistics.
    pub team_t: TeamStatistics,
    /// Number of round wins required to win a series in this map.
    pub num_matches_to_win_series: Option<u32>,
    /// Spectator count for the live broadcast (only present in some modes).
    pub current_spectators: Option<u32>,
    /// Souvenir packs awarded so far.
    pub souvenirs_total: Option<u32>,
    /// Per-round winner side, keyed by `"<round_index>"`.
    /// Values are typically `"ct_win_..."` / `"t_win_..."`.
    pub round_wins: StrMap<String>,
}

impl Snapshot for MapState {
    open spec fn same(&self, other: &Self) -> bool {
        &&& self.mode.same(&other.mode)
        &&& self.name.same(&other.name)
        &&& self.phase.same(&other.phase)
        &&& self.round.same(&other.round)
        &&& self.team_ct.same(&other.team_ct)
        &&& self.team_t.same(&other.team_t)
        &&& self.num_matches_to_win_series.same(&other.num_matches_to_win_series)
        &&& self.current_spectators.same(&other.current_spectators)
        &&& self.souvenirs_total.same(&other.souvenirs_total)
        &&& self.round_wins.same(&other.round_wins)
    }

    open spec fn no_nan(&self) -> bool {
        &&& self.mode.no_nan()
        &&& self.name.no_nan()
        &&& self.phase.no_nan()
        &&& self.round.no_nan()
        &&& self.team_ct.no_nan()
        &&& self.team_t.no_nan()
        &&& self.num_matches_to_win_series.no_nan()
        &&& self.current_spectators.no_nan()
        &&& self.souvenirs_total.no_nan()
        &&& self.round_wins.no_nan()
    }

    proof fn lemma_same_reflexive(&self) {
        self.mode.lemma_same_reflexive();
        self.name.lemma_same_reflexive();
        self.phase.lemma_same_reflexive();
        self.round.lemma_same_reflexive();
        self.team_ct.lemma_same_reflexive();
        self.team_t.lemma_same_reflexive();
        self.num_matches_to_win_series.lemma_same_reflexive();
        self.current_spectators.lemma_same_reflexive();
        self.souvenirs_total.lemma_same_reflexive();
        self.round_wins.lemma_same_reflexive();
    }

    fn same_as(&self, other: &Self) -> (r: bool) {
        self.mode.same_as(&other.mode)
            && self.name.same_as(&other.name)
            && self.phase.same_as(&other.phase)
            && self.round.same_as(&other.round)
            && self.team_ct.same_as(&other.team_ct)
            && self.team_t.same_as(&other.team_t)
            && self.num_matches_to_win_series.same_as(&other.num_matches_to_win_series)
            && self.current_spectators.same_as(&other.current_spectators)
            && self.souvenirs_total.same_as(&other.souvenirs_total)
            && self.round_wins.same_as(&other.round_wins)
    }

    fn snapshot(&self) -> (r: Self) {
        MapState {
            mode: self.mode.snapshot(),
            name: self.name.snapshot(),
            phase: self.phase.snapshot(),
            round: self.round.snapshot(),
            team_ct: self.team_ct.snapshot(),
            team_t: self.team_t.snapshot(),
            num_matches_to_win_series: self.num_matches_to_win_series.snapshot(),
            current_spectators: self.current_spectators.snapshot(),
            souvenirs_total: self.souvenirs_total.snapshot(),
            round_wins: self.round_wins.snapshot(),
        }
    }
}

impl Default for MapState {
    fn default() -> (r: Self)
        ensures
            r.mode@ == Seq::<char>::empty(),
            r.name@ == Seq::<char>::empty(),
            r.phase == MapPhase::Unknown,
            r.round == 0,
            r.num_matches_to_win_series is None,
            r.current_spectators is None,
            r.souvenirs_total is None,
            r.round_wins.pairs().len() == 0,
    {
        MapState {
            mode: String::new(),
            name: String::new(),
            phase: MapPhase::Unknown,
            round: 0,
            team_ct: TeamStatistics::default(),
            team_t: TeamStatistics::default(),
            num_matches_to_win_series: None,
            current_spectators: None,
            souvenirs_total: None,
            round_wins: StrMap::new(),
        }
    }
}

/// Phase of the current map.
#[derive(Clone, Copy, Debug, Default, PartialEq, Eq, Structural, Hash)]
pub enum MapPhase {
    /// Pre-match warmup.
    Warmup,
    /// Live round play.
    Live,
    /// Mid-match intermission (between halves).
    Intermission,
    /// Match has ended.
    Gameover,
    /// Unrecognized / not-yet-mapped phase.
    #[default]
    Unknown,
}

impl Snapshot for MapPhase {
    open spec fn same(&self, other: &Self) -> bool {
        *self == *other
    }

    open spec fn no_nan(&self) -> bool {
        true
    }

    proof fn lemma_same_reflexive(&self) {
    }

    fn same_as(&self, other: &Self) -> (r: bool) {
        *self == *other
    }

    fn snapshot(&self) -> (r: Self) {
        *self
    }
}

/// Statistics for a side (CT / T).
#[derive(Clone, Debug, PartialEq)]
pub struct TeamStatistics {
    /// Round score for this side.
    pub score: u32,
    /// Number of round losses incurred consecutively (for loss-bonus calc).
    pub consecutive_round_losses: u32,
    /// Tactical timeouts remaining for this side.
    pub timeouts_remaining: u32,
    /// Maps won so far in the current series (BoX).
    pub matches_won_this_series: u32,
    /// Optional team name.
    pub name: String,
    /// Optional team flag identifier.
    pub flag: String,
}

impl Snapshot for TeamStatistics {
    open spec fn same(&self, other: &Self) -> bool {
        &&& self.score.same(&other.score)
        &&& self.consecutive_round_losses.same(&other.consecutive_round_losses)
        &&& self.timeouts_remaining.same(&other.timeouts_remaining)
        &&& self.matches_won_this_series.same(&other.matches_won_this_series)
        &&& self.name.same(&other.name)
        &&& self.flag.same(&other.flag)
    }

    open spec fn no_nan(&self) -> bool {
        &&& self.score.no_nan()
        &&& self.consecutive_round_losses.no_nan()
        &&& self.timeouts_remaining.no_nan()
        &&& self.matches_won_this_series.no_nan()
        &&& self.name.no_nan()
        &&& self.flag.no_nan()
    }

    proof fn lemma_same_reflexive(&self) {
        self.score.lemma_same_reflexive();
        self.consecutive_round_losses.lemma_same_reflexive();
        self.timeouts_remaining.lemma_same_reflexive();
        self.matches_won_this_series.lemma_same_reflexive();
        self.name.lemma_same_reflexive();
        self.flag.lemma_same_reflexive();
    }

    fn same_as(&self, other: &Self) -> (r: bool) {
        self.score.same_as(&other.score)
            && self.consecutive_round_losses.same_as(&other.consecutive_round_losses)
            && self.timeouts_remaining.same_as(&other.timeouts_remaining)
            && self.matches_won_this_series.same_as(&other.matches_won_this_series)
            && self.name.same_as(&other.name)
            && self.flag.same_as(&other.flag)
    }

    fn snapshot(&self) -> (r: Self) {
        TeamStatistics {
            score: self.score.snapshot(),
            consecutive_round_losses: self.consecutive_round_losses.snapshot(),
            timeouts_remaining: self.timeouts_remaining.snapshot(),
            matches_won_this_series: self.matches_won_this_series.snapshot(),
            name: self.name.snapshot(),
            flag: self.flag.snapshot(),
        }
    }
}

impl Default for TeamStatistics {
    fn default() -> (r: Self)
        ensures
            r.score == 0,
            r.consecutive_round_losses == 0,
            r.timeouts_remaining == 0,
            r.matches_won_this_series == 0,
            r.name@ == Seq::<char>::empty(),
            r.flag@ == Seq::<char>::empty(),
    {
        TeamStatistics {
            score: 0,
            consecutive_round_losses: 0,
            timeouts_remaining: 0,
            matches_won_this_series: 0,
            name: String::new(),
            flag: String::new(),
        }
    }
}

} // verus!
