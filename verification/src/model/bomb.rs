//! Bomb node: root-level bomb position / countdown info.

use vstd::prelude::*;
use crate::snapshot::Snapshot;
use crate::model::single::{opt_single_eq, opt_no_nan, same_opt_single};

verus! {

/// Bomb status as a separate root key. More detailed than the per-round
/// state in [`crate::model::BombRoundState`].
#[derive(Clone, Debug)]
pub struct Bomb {
    /// Lifecycle state of the bomb.
    pub state: BombState,
    /// World position, formatted by CS2 as `"x, y, z"`.
    pub position: String,
    /// SteamID of the player carrying / defusing the bomb (if any).
    pub player: String,
    /// Countdown until detonation / defuse, in seconds: the IEEE 754
    /// single-precision bit pattern of the number CS2 reports.
    pub countdown: Option<u32>,
}

impl Snapshot for Bomb {
    open spec fn same(&self, other: &Self) -> bool {
        &&& self.state.same(&other.state)
        &&& self.position.same(&other.position)
        &&& self.player.same(&other.player)
        &&& opt_single_eq(self.countdown, other.countdown)
    }

    open spec fn no_nan(&self) -> bool {
        &&& self.state.no_nan()
        &&& self.position.no_nan()
        &&& self.player.no_nan()
        &&& opt_no_nan(self.countdown)
    }

    proof fn lemma_same_reflexive(&self) {
        self.state.lemma_same_reflexive();
        self.position.lemma_same_reflexive();
        self.player.lemma_same_reflexive();
    }

    fn same_as(&self, other: &Self) -> (r: bool) {
        self.state.same_as(&other.state)
            && self.position.same_as(&other.position)
            && self.player.same_as(&other.player)
            && same_opt_single(self.countdown, other.countdown)
    }

    fn snapshot(&self) -> (r: Self) {
        Bomb {
            state: self.state.snapshot(),
            position: self.position.snapshot(),
            player: self.player.snapshot(),
            countdown: self.countdown,
        }
    }
}

impl Default for Bomb {
    fn default() -> (r: Self)
        ensures
            r.state == BombState::Unknown,
            r.position@ == Seq::<char>::empty(),
            r.player@ == Seq::<char>::empty(),
            r.countdown is None,
    {
        Bomb {
            state: BombState::Unknown,
            position: String::new(),
            player: String::new(),
            countdown: None,
        }
    }
}

/// Lifecycle state of the bomb.
#[derive(Clone, Copy, Debug, Default, PartialEq, Eq, Structural, Hash)]
pub enum BombState {
    /// Bomb is held by a T player.
    Carried,
    /// Bomb is dropped on the ground.
    Dropped,
    /// Bomb is being planted (animation in progress).
    Planting,
    /// Bomb planted and counting down.
    Planted,
    /// Bomb is being defused.
    Defusing,
    /// Bomb defused.
    Defused,
    /// Bomb exploded.
    Exploded,
    /// Unrecognized / no bomb info.
    #[default]
    Unknown,
}

impl Snapshot for BombState {
    open spec fn same(&self, other: &Self) -> bool {
        *self == *other
    }

    open spec fn no_nan(&self) -> bool {
        true
    }

    proof fn lemma_same_reflexive(&self) {
    }

    fn same_as(&self, other: &Self) -> (r: bool) {
        *self == *other
    }

    fn snapshot(&self) -> (r: Self) {
        *self
    }
}

} // verus!
