//! Grenade node: entries in the `allgrenades` map.

use vstd::prelude::*;
use crate::snapshot::Snapshot;
use crate::strmap::StrMap;
use crate::model::single::{single_eq, is_nan_bits, same_single, opt_single_eq, opt_no_nan, same_opt_single};

verus! {

/// A single live grenade, keyed by entity index in the parent map.
#[derive(Clone, Debug)]
pub struct Grenade {
    /// SteamID of the player who threw it.
    pub owner: String,
    /// World position, `"x, y, z"`.
    pub position: String,
    /// Velocity vector, `"vx, vy, vz"`.
    pub velocity: String,
    /// Time alive in seconds (IEEE 754 single-precision bit pattern).
    pub lifetime: u32,
    /// Type of grenade.
    pub kind: GrenadeKind,
    /// For inferno (molotov / incendiary): per-flame position map.
    pub flames: StrMap<String>,
    /// For smoke / decoy: remaining effect time in seconds (IEEE 754
    /// single-precision bit pattern).
    pub effecttime: Option<u32>,
}

impl Snapshot for Grenade {
    open spec fn same(&self, other: &Self) -> bool {
        &&& self.owner.same(&other.owner)
        &&& self.position.same(&other.position)
        &&& self.velocity.same(&other.velocity)
        &&& single_eq(self.lifetime, other.lifetime)
        &&& self.kind.same(&other.kind)
        &&& self.flames.same(&other.flames)
        &&& opt_single_eq(self.effecttime, other.effecttime)
    }

    open spec fn no_nan(&self) -> bool {
        &&& self.owner.no_nan()
        &&& self.position.no_nan()
        &&& self.velocity.no_nan()
        &&& !is_nan_bits(self.lifetime)
        &&& self.kind.no_nan()
        &&& self.flames.no_nan()
        &&& opt_no_nan(self.effecttime)
    }

    proof fn lemma_same_reflexive(&self) {
        self.owner.lemma_same_reflexive();
        self.position.lemma_same_reflexive();
        self.velocity.lemma_same_reflexive();
        self.kind.lemma_same_reflexive();
        self.flames.lemma_same_reflexive();
    }

    fn same_as(&self, other: &Self) -> (r: bool) {
        self.owner.same_as(&other.owner)
            && self.position.same_as(&other.position)
            && self.velocity.same_as(&other.velocity)
            && same_single(self.lifetime, other.lifetime)
            && self.kind.same_as(&other.kind)
            && self.flames.same_as(&other.flames)
            && same_opt_single(self.effecttime, other.effecttime)
    }

    fn snapshot(&self) -> (r: Self) {
        Grenade {
            owner: self.owner.snapshot(),
            position: self.position.snapshot(),
            velocity: self.velocity.snapshot(),
            lifetime: self.lifetime,
            kind: self.kind.snapshot(),
            flames: self.flames.snapshot(),
            effecttime: self.effecttime,
        }
    }
}

impl Default for Grenade {
    fn default() -> (r: Self)
        ensures
            r.owner@ == Seq::<char>::empty(),
            r.position@ == Seq::<char>::empty(),
            r.velocity@ == Seq::<char>::empty(),
            r.lifetime == 0,
            r.kind == GrenadeKind::Unknown,
            r.flames.pairs().len() == 0,
            r.effecttime is None,
    {
        Grenade {
            owner: String::new(),
            position: String::new(),
            velocity: String::new(),
            lifetime: 0,
            kind: GrenadeKind::Unknown,
            flames: StrMap::new(),
            effecttime: None,
        }
    }
}

/// Type of an in-flight or active grenade.
#[derive(Clone, Copy, Debug, Default, PartialEq, Eq, Structural, Hash)]
pub enum GrenadeKind {
    /// Hand frag grenade.
    Frag,
    /// Smoke grenade.
    Smoke,
    /// Flashbang.
    Flashbang,
    /// Decoy grenade.
    Decoy,
    /// Molotov / Incendiary (inferno).
    Inferno,
    /// Unrecognized type.
    #[default]
    Unknown,
}

impl Snapshot for GrenadeKind {
    open spec fn same(&self, other: &Self) -> bool {
        *self == *other
    }

    open spec fn no_nan(&self) -> bool {
        true
    }

    proof fn lemma_same_reflexive(&self) {
    }

    fn same_as(&self, other: &Self) -> (r: bool) {
        *self == *other
    }

    fn snapshot(&self) -> (r: Self) {
        *self
    }
}

} // verus!
