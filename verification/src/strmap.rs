//! An ordered map from texts to values.
//!
//! Keys are kept in strictly increasing order (see [`crate::text::text_lt`]),
//! so iteration visits them in the same order as a `BTreeMap<String, _>`,
//! and no key occurs twice.

use vstd::prelude::*;
use crate::snapshot::Snapshot;
use crate::text::{text_less, text_equal, text_lt, lemma_text_lt_irreflexive, lemma_text_lt_transitive, lemma_text_lt_total, lemma_text_lt_asymmetric};

verus! {

/// The keys of a sequence of entries, as texts.
pub open spec fn keys_of<V>(p: Seq<(String, V)>) -> Seq<Seq<char>> {
    p.map_values(|e: (String, V)| e.0@)
}

/// Keys in strictly increasing order (hence all distinct).
pub open spec fn strictly_sorted(ks: Seq<Seq<char>>) -> bool {
    forall|i: int, j: int| 0 <= i < j < ks.len() ==> text_lt(ks[i], ks[j])
}

/// The value stored under `k` (the first entry with that key).
pub open spec fn lookup<V>(p: Seq<(String, V)>, k: Seq<char>) -> Option<V>
    decreases p.len(),
{
    if p.len() == 0 {
        None
    } else if p[0].0@ == k {
        Some(p[0].1)
    } else {
        lookup(p.drop_first(), k)
    }
}

/// Entries of a map, as a linked chain in key order.
#[derive(Debug, PartialEq)]
pub enum Chain<V> {
    /// No more entries.
    End,
    /// One entry and the rest.
    Link(String, V, Box<Chain<V>>),
}

impl<V> Chain<V> {
    /// The entries, in order.
    pub open spec fn pairs(self) -> Seq<(String, V)>
        decreases self,
    {
        match self {
            Chain::End => Seq::empty(),
            Chain::Link(k, v, rest) => seq![(k, v)] + rest.pairs(),
        }
    }
}

/// An ordered map from `String` keys to values.
#[derive(Debug, PartialEq)]
pub struct StrMap<V> {
    chain: Chain<V>,
}

proof fn lemma_keys_cons<V>(k: String, v: V, rest: Seq<(String, V)>)
    ensures
        keys_of(seq![(k, v)] + rest) =~= seq![k@] + keys_of(rest),
{
}

proof fn lemma_lookup_cons<V>(k: String, v: V, rest: Seq<(String, V)>, q: Seq<char>)
    ensures
        lookup(seq![(k, v)] + rest, q) == if k@ == q { Some(v) } else { lookup(rest, q) },
{
    assert((seq![(k, v)] + rest).drop_first() =~= rest);
}

/// A key absent from the keys is absent from the lookup.
pub proof fn lemma_lookup_absent<V>(p: Seq<(String, V)>, q: Seq<char>)
    requires
        !keys_of(p).contains(q),
    ensures
        lookup(p, q) is None,
    decreases p.len(),
{
    if p.len() > 0 {
        assert(keys_of(p)[0] == p[0].0@);
        assert(keys_of(p.drop_first()) =~= keys_of(p).drop_first());
        lemma_lookup_absent(p.drop_first(), q);
    }
}

/// A key present in the keys is found.
pub proof fn lemma_lookup_present<V>(p: Seq<(String, V)>, i: int)
    requires
        0 <= i < p.len(),
        strictly_sorted(keys_of(p)),
    ensures
        lookup(p, p[i].0@) == Some(p[i].1),
    decreases p.len(),
{
    if i > 0 {
        assert(keys_of(p)[0] == p[0].0@);
        assert(keys_of(p)[i] == p[i].0@);
        lemma_text_lt_irreflexive(p[i].0@);
        assert(keys_of(p.drop_first()) =~= keys_of(p).drop_first());
        lemma_lookup_present(p.drop_first(), i - 1);
    }
}

fn chain_insert<V>(c: Chain<V>, k: String, v: V) -> (r: Chain<V>)
    requires
        strictly_sorted(keys_of(c.pairs())),
    ensures
        strictly_sorted(keys_of(r.pairs())),
        lookup(r.pairs(), k@) == Some(v),
        forall|q: Seq<char>| q != k@ ==> lookup(r.pairs(), q) == lookup(c.pairs(), q),
        forall|q: Seq<char>| #[trigger] keys_of(r.pairs()).contains(q) ==> q == k@ || keys_of(c.pairs()).contains(q),
        keys_of(c.pairs()).contains(k@) ==> keys_of(r.pairs()) == keys_of(c.pairs()),
    decreases c,
{
    match c {
        Chain::End => {
            let r = Chain::Link(k, v, Box::new(Chain::End));
            proof {
                lemma_keys_cons(k, v, Seq::<(String, V)>::empty());
                assert(r.pairs() =~= seq![(k, v)]);
                assert forall|q: Seq<char>| q != k@ implies lookup(r.pairs(), q) == lookup(c.pairs(), q) by {
                    lemma_lookup_cons(k, v, Seq::<(String, V)>::empty(), q);
                }
                lemma_lookup_cons(k, v, Seq::<(String, V)>::empty(), k@);
            }
            r
        },
        Chain::Link(k0, v0, rest) => {
            let ghost old_pairs = Chain::Link(k0, v0, rest).pairs();
            proof {
                lemma_keys_cons(k0, v0, rest.pairs());
                assert(old_pairs == seq![(k0, v0)] + rest.pairs());
                assert forall|i: int, j: int| 0 <= i < j < keys_of(rest.pairs()).len() implies
                    text_lt(keys_of(rest.pairs())[i], keys_of(rest.pairs())[j]) by {
                    assert(keys_of(old_pairs)[i + 1] == keys_of(rest.pairs())[i]);
                    assert(keys_of(old_pairs)[j + 1] == keys_of(rest.pairs())[j]);
                }
            }
            if k == k0 {
                let r = Chain::Link(k0, v, rest);
                proof {
                    lemma_keys_cons(k0, v, rest.pairs());
                    assert(keys_of(r.pairs()) =~= keys_of(old_pairs));
                    assert forall|q: Seq<char>| q != k@ implies lookup(r.pairs(), q) == lookup(old_pairs, q) by {
                        lemma_lookup_cons(k0, v, rest.pairs(), q);
                        lemma_lookup_cons(k0, v0, rest.pairs(), q);
                    }
                    lemma_lookup_cons(k0, v, rest.pairs(), k@);
                }
                r
            } else if text_less(k.as_str(), k0.as_str()) {
                let ghost kk = k@;
                let r = Chain::Link(k, v, Box::new(Chain::Link(k0, v0, rest)));
                proof {
                    lemma_keys_cons(k, v, old_pairs);
                    let ks = keys_of(r.pairs());
                    let ko = keys_of(old_pairs);
                    assert(ks =~= seq![kk] + ko);
                    assert forall|i: int, j: int| 0 <= i < j < ks.len() implies text_lt(ks[i], ks[j]) by {
                        if i == 0 {
                            if j > 1 {
                                assert(text_lt(ko[0], ko[j - 1]));
                                lemma_text_lt_transitive(kk, ko[0], ko[j - 1]);
                            }
                        } else {
                            assert(ks[i] == ko[i - 1]);
                            assert(ks[j] == ko[j - 1]);
                        }
                    }
                    assert forall|q: Seq<char>| q != k@ implies lookup(r.pairs(), q) == lookup(old_pairs, q) by {
                        lemma_lookup_cons(k, v, old_pairs, q);
                    }
                    lemma_lookup_cons(k, v, old_pairs, k@);
                    assert forall|q: Seq<char>| #[trigger] ks.contains(q) implies q == k@ || ko.contains(q) by {
                        let i = choose|i: int| 0 <= i < ks.len() && ks[i] == q;
                        if i > 0 {
                            assert(ko[i - 1] == q);
                        }
                    }
                    if ko.contains(kk) {
                        let i = choose|i: int| 0 <= i < ko.len() && ko[i] == kk;
                        if i > 0 {
                            assert(text_lt(ko[0], ko[i]));
                            lemma_text_lt_asymmetric(kk, ko[0]);
                        } else {
                            lemma_text_lt_irreflexive(kk);
                        }
                    }
                }
                r
            } else {
                proof {
                    lemma_text_lt_total(k@, k0@);
                }
                let ghost rest_pairs = rest.pairs();
                let new_rest = chain_insert(*rest, k, v);
                let ghost kk = k@;
                let ghost k0v = k0@;
                let r = Chain::Link(k0, v0, Box::new(new_rest));
                proof {
                    lemma_keys_cons(k0, v0, new_rest.pairs());
                    let ks = keys_of(r.pairs());
                    let kn = keys_of(new_rest.pairs());
                    let kr = keys_of(rest_pairs);
                    let ko = keys_of(old_pairs);
                    assert(ks =~= seq![k0v] + kn);
                    assert(ko =~= seq![k0v] + kr);
                    assert forall|j: int| 0 <= j < kn.len() implies text_lt(k0v, kn[j]) by {
                        assert(kn.contains(kn[j]));
                        if kn[j] != kk {
                            let jj = choose|jj: int| 0 <= jj < kr.len() && kr[jj] == kn[j];
                            assert(text_lt(ko[0], ko[jj + 1]));
                        }
                    }
                    assert forall|i: int, j: int| 0 <= i < j < ks.len() implies text_lt(ks[i], ks[j]) by {
                        if i == 0 {
                            assert(text_lt(k0v, kn[j - 1]));
                        } else {
                            assert(ks[i] == kn[i - 1]);
                            assert(ks[j] == kn[j - 1]);
                        }
                    }
                    assert forall|q: Seq<char>| q != k@ implies lookup(r.pairs(), q) == lookup(old_pairs, q) by {
                        lemma_lookup_cons(k0, v0, new_rest.pairs(), q);
                        lemma_lookup_cons(k0, v0, rest_pairs, q);
                    }
                    lemma_lookup_cons(k0, v0, new_rest.pairs(), k@);
                    assert forall|q: Seq<char>| #[trigger] ks.contains(q) implies q == k@ || ko.contains(q) by {
                        let i = choose|i: int| 0 <= i < ks.len() && ks[i] == q;
                        if i == 0 {
                            assert(ko[0] == q);
                        } else {
                            assert(kn[i - 1] == q);
                            assert(kn.contains(q));
                            if q != k@ {
                                let jj = choose|jj: int| 0 <= jj < kr.len() && kr[jj] == q;
                                assert(ko[jj + 1] == q);
                            }
                        }
                    }
                    if ko.contains(kk) {
                        let i = choose|i: int| 0 <= i < ko.len() && ko[i] == kk;
                        if i == 0 {
                            lemma_text_lt_asymmetric(k0v, kk);
                        } else {
                            assert(kr[i - 1] == kk);
                            assert(kr.contains(kk));
                            assert(kn == kr);
                        }
                        assert(ks =~= ko);
                    }
                }
                r
            }
        },
    }
}


fn chain_get<'a, V>(c: &'a Chain<V>, k: &str) -> (r: Option<&'a V>)
    ensures
        r == match lookup(c.pairs(), k@) { Some(v) => Some(&v), None => None::<&V> },
    decreases c,
{
    match c {
        Chain::End => None,
        Chain::Link(k0, v0, rest) => {
            proof {
                lemma_lookup_cons(*k0, *v0, rest.pairs(), k@);
            }
            if text_equal(k0.as_str(), k) {
                Some(v0)
            } else {
                chain_get(rest, k)
            }
        },
    }
}

fn chain_remove<V>(c: Chain<V>, k: &str) -> (r: (Chain<V>, Option<V>))
    requires
        strictly_sorted(keys_of(c.pairs())),
    ensures
        strictly_sorted(keys_of(r.0.pairs())),
        r.1 == lookup(c.pairs(), k@),
        lookup(r.0.pairs(), k@) is None,
        forall|q: Seq<char>| q != k@ ==> lookup(r.0.pairs(), q) == lookup(c.pairs(), q),
        forall|q: Seq<char>| #[trigger] keys_of(r.0.pairs()).contains(q) ==> keys_of(c.pairs()).contains(q),
    decreases c,
{
    match c {
        Chain::End => (Chain::End, None),
        Chain::Link(k0, v0, rest) => {
            let ghost old_pairs = Chain::Link(k0, v0, rest).pairs();
            let ghost rest_pairs = rest.pairs();
            proof {
                lemma_keys_cons(k0, v0, rest.pairs());
                assert(old_pairs == seq![(k0, v0)] + rest.pairs());
                assert forall|i: int, j: int| 0 <= i < j < keys_of(rest.pairs()).len() implies
                    text_lt(keys_of(rest.pairs())[i], keys_of(rest.pairs())[j]) by {
                    assert(keys_of(old_pairs)[i + 1] == keys_of(rest.pairs())[i]);
                    assert(keys_of(old_pairs)[j + 1] == keys_of(rest.pairs())[j]);
                }
                lemma_lookup_cons(k0, v0, rest.pairs(), k@);
            }
            if text_equal(k0.as_str(), k) {
                proof {
                    let ko = keys_of(old_pairs);
                    let kr = keys_of(rest_pairs);
                    assert(ko =~= seq![k0@] + kr);
                    if kr.contains(k@) {
                        let j = choose|j: int| 0 <= j < kr.len() && kr[j] == k@;
                        assert(text_lt(ko[0], ko[j + 1]));
                        lemma_text_lt_irreflexive(k@);
                    }
                    lemma_lookup_absent(rest_pairs, k@);
                    assert forall|q: Seq<char>| q != k@ implies lookup(rest_pairs, q) == lookup(old_pairs, q) by {
                        lemma_lookup_cons(k0, v0, rest_pairs, q);
                    }
                    assert forall|q: Seq<char>| #[trigger] kr.contains(q) implies ko.contains(q) by {
                        let j = choose|j: int| 0 <= j < kr.len() && kr[j] == q;
                        assert(ko[j + 1] == q);
                    }
                }
                (*rest, Some(v0))
            } else {
                let (new_rest, found) = chain_remove(*rest, k);
                let ghost k0v = k0@;
                let r = Chain::Link(k0, v0, Box::new(new_rest));
                proof {
                    lemma_keys_cons(k0, v0, new_rest.pairs());
                    let ks = keys_of(r.pairs());
                    let kn = keys_of(new_rest.pairs());
                    let kr = keys_of(rest_pairs);
                    let ko = keys_of(old_pairs);
                    assert(ks =~= seq![k0v] + kn);
                    assert(ko =~= seq![k0v] + kr);
                    assert forall|i: int, j: int| 0 <= i < j < ks.len() implies text_lt(ks[i], ks[j]) by {
                        if i == 0 {
                            assert(kn.contains(kn[j - 1]));
                            let jj = choose|jj: int| 0 <= jj < kr.len() && kr[jj] == kn[j - 1];
                            assert(text_lt(ko[0], ko[jj + 1]));
                        } else {
                            assert(ks[i] == kn[i - 1]);
                            assert(ks[j] == kn[j - 1]);
                        }
                    }
                    lemma_lookup_cons(k0, v0, new_rest.pairs(), k@);
                    assert forall|q: Seq<char>| q != k@ implies lookup(r.pairs(), q) == lookup(old_pairs, q) by {
                        lemma_lookup_cons(k0, v0, new_rest.pairs(), q);
                        lemma_lookup_cons(k0, v0, rest_pairs, q);
                    }
                    assert forall|q: Seq<char>| #[trigger] ks.contains(q) implies ko.contains(q) by {
                        let i = choose|i: int| 0 <= i < ks.len() && ks[i] == q;
                        if i == 0 {
                            assert(ko[0] == q);
                        } else {
                            assert(kn[i - 1] == q);
                            assert(kn.contains(q));
                            let jj = choose|jj: int| 0 <= jj < kr.len() && kr[jj] == q;
                            assert(ko[jj + 1] == q);
                        }
                    }
                }
                (r, found)
            }
        },
    }
}

fn chain_entries<'a, V>(c: &'a Chain<V>, out: &mut Vec<(&'a String, &'a V)>)
    ensures
        final(out)@.len() == old(out)@.len() + c.pairs().len(),
        forall|i: int| 0 <= i < old(out)@.len() ==> #[trigger] final(out)@[i] == old(out)@[i],
        forall|i: int| 0 <= i < c.pairs().len() ==>
            *(#[trigger] final(out)@[old(out)@.len() + i]).0 == c.pairs()[i].0
            && *final(out)@[old(out)@.len() + i].1 == c.pairs()[i].1,
    decreases c,
{
    match c {
        Chain::End => {},
        Chain::Link(k0, v0, rest) => {
            out.push((k0, v0));
            chain_entries(rest, out);
            proof {
                assert(c.pairs() =~= seq![(*k0, *v0)] + rest.pairs());
                assert forall|i: int| 0 <= i < c.pairs().len() implies
                    *(#[trigger] out@[old(out)@.len() + i]).0 == c.pairs()[i].0
                    && *out@[old(out)@.len() + i].1 == c.pairs()[i].1 by {
                    if i > 0 {
                        assert(out@[old(out)@.len() + 1 + (i - 1)] == out@[old(out)@.len() + i]);
                    }
                }
            }
        },
    }
}

/// Entry sequences holding the same keys and the same values, in order.
pub open spec fn pairs_same<V: Snapshot>(p: Seq<(String, V)>, q: Seq<(String, V)>) -> bool {
    &&& p.len() == q.len()
    &&& forall|i: int| 0 <= i < p.len() ==> (#[trigger] p[i]).0@ == q[i].0@ && p[i].1.same(&q[i].1)
}

fn chain_same<V: Snapshot>(a: &Chain<V>, b: &Chain<V>) -> (r: bool)
    ensures
        r == pairs_same(a.pairs(), b.pairs()),
    decreases a,
{
    match (a, b) {
        (Chain::End, Chain::End) => true,
        (Chain::Link(ka, va, ra), Chain::Link(kb, vb, rb)) => {
            let r = *ka == *kb && va.same_as(vb) && chain_same(ra, rb);
            proof {
                let p = a.pairs();
                let q = b.pairs();
                assert(p =~= seq![(*ka, *va)] + ra.pairs());
                assert(q =~= seq![(*kb, *vb)] + rb.pairs());
                if pairs_same(p, q) {
                    assert(p[0].0@ == q[0].0@ && p[0].1.same(&q[0].1));
                    assert forall|i: int| 0 <= i < ra.pairs().len() implies
                        (#[trigger] ra.pairs()[i]).0@ == rb.pairs()[i].0@ && ra.pairs()[i].1.same(&rb.pairs()[i].1) by {
                        assert(p[i + 1] == ra.pairs()[i]);
                        assert(q[i + 1] == rb.pairs()[i]);
                    }
                }
                if r {
                    assert forall|i: int| 0 <= i < p.len() implies
                        (#[trigger] p[i]).0@ == q[i].0@ && p[i].1.same(&q[i].1) by {
                        if i > 0 {
                            assert(p[i] == ra.pairs()[i - 1]);
                            assert(q[i] == rb.pairs()[i - 1]);
                        }
                    }
                }
            }
            r
        },
        (Chain::End, Chain::Link(kb, vb, rb)) => {
            assert(b.pairs() =~= seq![(*kb, *vb)] + rb.pairs());
            false
        },
        (Chain::Link(ka, va, ra), Chain::End) => {
            assert(a.pairs() =~= seq![(*ka, *va)] + ra.pairs());
            false
        },
    }
}

fn chain_snapshot<V: Snapshot>(c: &Chain<V>) -> (r: Chain<V>)
    ensures
        r == *c,
    decreases c,
{
    match c {
        Chain::End => Chain::End,
        Chain::Link(k, v, rest) => Chain::Link(k.clone(), v.snapshot(), Box::new(chain_snapshot(rest))),
    }
}

impl<V> StrMap<V> {
    #[verifier::type_invariant]
    spec fn sorted_keys(self) -> bool {
        strictly_sorted(keys_of(self.chain.pairs()))
    }

    /// The entries, in increasing key order.
    pub closed spec fn pairs(&self) -> Seq<(String, V)> {
        self.chain.pairs()
    }

    /// The value stored under the text `k`, if any.
    pub open spec fn get_spec(&self, k: Seq<char>) -> Option<V> {
        lookup(self.pairs(), k)
    }

    /// An empty map.
    pub fn new() -> (m: Self)
        ensures
            m.pairs() == Seq::<(String, V)>::empty(),
    {
        StrMap { chain: Chain::End }
    }

    /// Inserts `value` under `key`, replacing any previous value.
    pub fn insert(&mut self, key: String, value: V)
        ensures
            final(self).get_spec(key@) == Some(value),
            forall|q: Seq<char>| q != key@ ==> final(self).get_spec(q) == old(self).get_spec(q),
            forall|q: Seq<char>| #[trigger] keys_of(final(self).pairs()).contains(q) ==>
                q == key@ || keys_of(old(self).pairs()).contains(q),
            keys_of(old(self).pairs()).contains(key@) ==> keys_of(final(self).pairs()) == keys_of(old(self).pairs()),
    {
        proof {
            use_type_invariant(&*self);
        }
        let mut c = Chain::End;
        std::mem::swap(&mut c, &mut self.chain);
        self.chain = chain_insert(c, key, value);
    }

    /// The value stored under `key`, if any.
    pub fn get(&self, key: &str) -> (r: Option<&V>)
        ensures
            r == match self.get_spec(key@) { Some(v) => Some(&v), None => None::<&V> },
    {
        chain_get(&self.chain, key)
    }

    /// Whether a value is stored under `key`.
    pub fn contains_key(&self, key: &str) -> (r: bool)
        ensures
            r == self.get_spec(key@) is Some,
    {
        chain_get(&self.chain, key).is_some()
    }

    /// Removes the entry under `key` and returns its value, if there was one.
    pub fn remove(&mut self, key: &str) -> (r: Option<V>)
        ensures
            r == old(self).get_spec(key@),
            final(self).get_spec(key@) is None,
            forall|q: Seq<char>| q != key@ ==> final(self).get_spec(q) == old(self).get_spec(q),
            forall|q: Seq<char>| #[trigger] keys_of(final(self).pairs()).contains(q) ==>
                keys_of(old(self).pairs()).contains(q),
    {
        proof {
            use_type_invariant(&*self);
        }
        let mut c = Chain::End;
        std::mem::swap(&mut c, &mut self.chain);
        let (rest, found) = chain_remove(c, key);
        self.chain = rest;
        found
    }

    /// Whether the map holds no entry.
    pub fn is_empty(&self) -> (r: bool)
        ensures
            r == (self.pairs().len() == 0),
    {
        match &self.chain {
            Chain::End => true,
            Chain::Link(k, v, rest) => {
                assert(self.pairs() =~= seq![(*k, *v)] + rest.pairs());
                false
            },
        }
    }

    /// The entries, in strictly increasing key order (no key occurs twice).
    pub fn entries(&self) -> (r: Vec<(&String, &V)>)
        ensures
            r@.len() == self.pairs().len(),
            forall|i: int| 0 <= i < r@.len() ==>
                *(#[trigger] r@[i]).0 == self.pairs()[i].0 && *r@[i].1 == self.pairs()[i].1,
            strictly_sorted(keys_of(self.pairs())),
    {
        proof {
            use_type_invariant(self);
        }
        let mut out: Vec<(&String, &V)> = Vec::new();
        chain_entries(&self.chain, &mut out);
        proof {
            assert forall|i: int| 0 <= i < out@.len() implies
                *(#[trigger] out@[i]).0 == self.pairs()[i].0 && *out@[i].1 == self.pairs()[i].1 by {
                assert(out@[0 + i] == out@[i]);
            }
        }
        out
    }

    /// The number of entries.
    pub fn len(&self) -> (r: usize)
        ensures
            r == self.pairs().len(),
    {
        self.entries().len()
    }
}

impl<V: Snapshot> Clone for StrMap<V> {
    fn clone(&self) -> (r: Self)
        ensures
            r == *self,
    {
        self.snapshot()
    }
}

impl<V: Snapshot> Snapshot for StrMap<V> {
    open spec fn same(&self, other: &Self) -> bool {
        pairs_same(self.pairs(), other.pairs())
    }

    open spec fn no_nan(&self) -> bool {
        forall|i: int| 0 <= i < self.pairs().len() ==> (#[trigger] self.pairs()[i]).1.no_nan()
    }

    proof fn lemma_same_reflexive(&self) {
        assert forall|i: int| 0 <= i < self.pairs().len() implies
            (#[trigger] self.pairs()[i]).0@ == self.pairs()[i].0@ && self.pairs()[i].1.same(&self.pairs()[i].1) by {
            self.pairs()[i].1.lemma_same_reflexive();
        }
    }

    fn same_as(&self, other: &Self) -> (r: bool) {
        chain_same(&self.chain, &other.chain)
    }

    fn snapshot(&self) -> (r: Self) {
        proof {
            use_type_invariant(self);
        }
        StrMap { chain: chain_snapshot(&self.chain) }
    }
}

} // verus!
