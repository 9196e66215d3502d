//! Provider node: the game client that produced the payload.

use vstd::prelude::*;
use crate::snapshot::Snapshot;

verus! {

/// Identifies the producer of the game state; for CS2 this is always the
/// game client itself (`appid: 730`).
#[derive(Clone, Debug, PartialEq)]
pub struct Provider {
    /// Display name of the producing client (e.g. `"Counter-Strike 2"`).
    pub name: String,
    /// Steam app id. `730` for CS2.
    pub appid: u32,
    /// Game client build version.
    pub version: u64,
    /// 64-bit SteamID of the local player.
    pub steamid: String,
    /// Unix timestamp (seconds) at which the payload was emitted.
    pub timestamp: Option<u64>,
}

impl Snapshot for Provider {
    open spec fn same(&self, other: &Self) -> bool {
        &&& self.name.same(&other.name)
        &&& self.appid.same(&other.appid)
        &&& self.version.same(&other.version)
        &&& self.steamid.same(&other.steamid)
        &&& self.timestamp.same(&other.timestamp)
    }

    open spec fn no_nan(&self) -> bool {
        &&& self.name.no_nan()
        &&& self.appid.no_nan()
        &&& self.version.no_nan()
        &&& self.steamid.no_nan()
        &&& self.timestamp.no_nan()
    }

    proof fn lemma_same_reflexive(&self) {
        self.name.lemma_same_reflexive();
        self.appid.lemma_same_reflexive();
        self.version.lemma_same_reflexive();
        self.steamid.lemma_same_reflexive();
        self.timestamp.lemma_same_reflexive();
    }

    fn same_as(&self, other: &Self) -> (r: bool) {
        self.name.same_as(&other.name)
            && self.appid.same_as(&other.appid)
            && self.version.same_as(&other.version)
            && self.steamid.same_as(&other.steamid)
            && self.timestamp.same_as(&other.timestamp)
    }

    fn snapshot(&self) -> (r: Self) {
        Provider {
            name: self.name.snapshot(),
            appid: self.appid.snapshot(),
            version: self.version.snapshot(),
            steamid: self.steamid.snapshot(),
            timestamp: self.timestamp.snapshot(),
        }
    }
}

impl Default for Provider {
    fn default() -> (r: Self)
        ensures
            r.name@ == Seq::<char>::empty(),
            r.appid == 0,
            r.version == 0,
            r.steamid@ == Seq::<char>::empty(),
            r.timestamp is None,
    {
        Provider {
            name: String::new(),
            appid: 0,
            version: 0,
            steamid: String::new(),
            timestamp: None,
        }
    }
}

} // verus!
