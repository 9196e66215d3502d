//! Top-level GameState model.
//!
//! The root JSON document POSTed by Counter-Strike 2 to its Game State
//! Integration endpoint. Every node is optional (the cfg file decides which
//! sections CS2 includes), so missing sub-objects take their default value.

mod auth;
mod bomb;
mod grenade;
mod map;
mod player;
mod provider;
mod round;
pub mod single;
mod tournament;

pub use auth::Auth;
pub use bomb::{Bomb, BombState};
pub use grenade::{Grenade, GrenadeKind};
pub use map::{MapState, MapPhase, TeamStatistics};
pub use player::{
    MatchStats, Player, PlayerActivity, PlayerState, PlayerTeam, Weapon, WeaponKind, WeaponState,
};
pub use provider::Provider;
pub use round::{BombRoundState, Round, RoundPhase, WinningTeam};
pub use tournament::{PhaseCountdowns, TournamentDraft};

use vstd::prelude::*;
use crate::snapshot::Snapshot;
use crate::strmap::StrMap;

verus! {

/// Root GSI document received from CS2.
#[derive(Clone, Debug)]
pub struct GameState {
    /// Authentication block declared in the cfg file. CS2 itself never adds
    /// a token, but tokens you wrote into the cfg appear here.
    pub auth: Auth,
    /// Producer of the payload (the CS2 client itself).
    pub provider: Provider,
    /// Series / map state. Absent when the player is not in a match.
    pub map: Option<MapState>,
    /// Per-round state. Absent outside of an active round.
    pub round: Option<Round>,
    /// Player snapshot from the local client's point-of-view (the player or
    /// the spectated entity). Absent on the main menu.
    pub player: Option<Player>,
    /// All known players keyed by SteamID. Only populated when the cfg file
    /// requests `allplayers_*` sections AND the local client is permitted to
    /// see them (e.g. spectator / replay / GOTV).
    pub allplayers: StrMap<Player>,
    /// Countdown for the current map / round phase.
    pub phase_countdowns: Option<PhaseCountdowns>,
    /// Detailed bomb info.
    pub bomb: Option<Bomb>,
    /// All in-flight / active grenades, keyed by entity index.
    pub grenades: StrMap<Grenade>,
    /// Tournament-mode draft state.
    pub tournament_draft: Option<TournamentDraft>,
    /// The `previously` block CS2 may include (the values of fields that
    /// just changed), kept as its JSON text. The library performs its own
    /// diff and does not read it.
    pub previously: Option<String>,
    /// The `added` block CS2 may include (fields that appeared for the
    /// first time), kept as its JSON text.
    pub added: Option<String>,
}

/// The local player is dead: a player block is present, the player is
/// playing, and their health is zero.
pub open spec fn local_dead(s: GameState) -> bool {
    match s.player {
        Some(p) => p.activity == PlayerActivity::Playing && p.state.health == 0,
        None => false,
    }
}

impl GameState {
    /// Convenience: returns `true` when the local player is dead (HP == 0
    /// AND in the `playing` activity). Returns `false` when no player block
    /// is present.
    pub fn local_is_dead(&self) -> (r: bool)
        ensures
            r == local_dead(*self),
    {
        match &self.player {
            Some(p) => p.activity == PlayerActivity::Playing && p.state.health == 0,
            None => false,
        }
    }
}

impl Snapshot for GameState {
    open spec fn same(&self, other: &Self) -> bool {
        &&& self.auth.same(&other.auth)
        &&& self.provider.same(&other.provider)
        &&& self.map.same(&other.map)
        &&& self.round.same(&other.round)
        &&& self.player.same(&other.player)
        &&& self.allplayers.same(&other.allplayers)
        &&& self.phase_countdowns.same(&other.phase_countdowns)
        &&& self.bomb.same(&other.bomb)
        &&& self.grenades.same(&other.grenades)
        &&& self.tournament_draft.same(&other.tournament_draft)
        &&& self.previously.same(&other.previously)
        &&& self.added.same(&other.added)
    }

    open spec fn no_nan(&self) -> bool {
        &&& self.phase_countdowns.no_nan()
        &&& self.bomb.no_nan()
        &&& self.grenades.no_nan()
    }

    proof fn lemma_same_reflexive(&self) {
        self.auth.lemma_same_reflexive();
        self.provider.lemma_same_reflexive();
        self.map.lemma_same_reflexive();
        self.round.lemma_same_reflexive();
        self.player.lemma_same_reflexive();
        self.allplayers.lemma_same_reflexive();
        self.phase_countdowns.lemma_same_reflexive();
        self.bomb.lemma_same_reflexive();
        self.grenades.lemma_same_reflexive();
        self.tournament_draft.lemma_same_reflexive();
        self.previously.lemma_same_reflexive();
        self.added.lemma_same_reflexive();
    }

    fn same_as(&self, other: &Self) -> (r: bool) {
        self.auth.same_as(&other.auth)
            && self.provider.same_as(&other.provider)
            && self.map.same_as(&other.map)
            && self.round.same_as(&other.round)
            && self.player.same_as(&other.player)
            && self.allplayers.same_as(&other.allplayers)
            && self.phase_countdowns.same_as(&other.phase_countdowns)
            && self.bomb.same_as(&other.bomb)
            && self.grenades.same_as(&other.grenades)
            && self.tournament_draft.same_as(&other.tournament_draft)
            && self.previously.same_as(&other.previously)
            && self.added.same_as(&other.added)
    }

    fn snapshot(&self) -> (r: Self) {
        GameState {
            auth: self.auth.snapshot(),
            provider: self.provider.snapshot(),
            map: self.map.snapshot(),
            round: self.round.snapshot(),
            player: self.player.snapshot(),
            allplayers: self.allplayers.snapshot(),
            phase_countdowns: self.phase_countdowns.snapshot(),
            bomb: self.bomb.snapshot(),
            grenades: self.grenades.snapshot(),
            tournament_draft: self.tournament_draft.snapshot(),
            previously: self.previously.snapshot(),
            added: self.added.snapshot(),
        }
    }
}

impl Default for GameState {
    fn default() -> (r: Self)
        ensures
            r.map is None,
            r.round is None,
            r.player is None,
            r.allplayers.pairs().len() == 0,
            r.phase_countdowns is None,
            r.bomb is None,
            r.grenades.pairs().len() == 0,
            r.tournament_draft is None,
            r.previously is None,
            r.added is None,
    {
        GameState {
            auth: Auth::default(),
            provider: Provider::default(),
            map: None,
            round: None,
            player: None,
            allplayers: StrMap::new(),
            phase_countdowns: None,
            bomb: None,
            grenades: StrMap::new(),
            tournament_draft: None,
            previously: None,
            added: None,
        }
    }
}

} // verus!
