//! Authentication node.
//!
//! CS2 itself does not push an auth token by default: the `auth` block is
//! still present (often empty) and exposed here so consumers can inspect any
//! custom tokens they themselves added to the gamestate integration cfg file.

use vstd::prelude::*;
use crate::snapshot::Snapshot;
use crate::strmap::StrMap;

verus! {

/// The `auth` root node of a GSI payload. Holds any token / key-value pairs
/// the cfg file declares under `"auth" {}`.
#[derive(Clone, Debug, PartialEq)]
pub struct Auth(pub StrMap<String>);

impl Auth {
    /// Lookup a token by name (e.g. `"token"`).
    pub fn get(&self, key: &str) -> (r: Option<&str>)
        ensures
            match self.0.get_spec(key@) {
                Some(v) => r is Some && r->0@ == v@,
                None => r is None,
            },
    {
        match self.0.get(key) {
            Some(v) => Some(v.as_str()),
            None => None,
        }
    }

    /// Returns `true` if the auth block is empty.
    pub fn is_empty(&self) -> (r: bool)
        ensures
            r == (self.0.pairs().len() == 0),
    {
        self.0.is_empty()
    }
}

impl Snapshot for Auth {
    open spec fn same(&self, other: &Self) -> bool {
        self.0.same(&other.0)
    }

    open spec fn no_nan(&self) -> bool {
        true
    }

    proof fn lemma_same_reflexive(&self) {
        self.0.lemma_same_reflexive();
    }

    fn same_as(&self, other: &Self) -> (r: bool) {
        self.0.same_as(&other.0)
    }

    fn snapshot(&self) -> (r: Self) {
        Auth(self.0.snapshot())
    }
}

impl Default for Auth {
    fn default() -> (r: Self)
        ensures
            r.0.pairs().len() == 0,
    {
        Auth(StrMap::new())
    }
}

} // verus!
