//! Routing of events to registered handlers.
//!
//! Handlers are registered either for one [`EventKind`] or for every event
//! (catch-all). Each registration gets an id, its position in registration
//! order. Firing an event yields the ids of the handlers to call, in the
//! order in which to call them: every handler registered for the event's
//! kind, in registration order, then every catch-all handler, in
//! registration order. The caller holds the handlers themselves and invokes
//! them by id.

use vstd::prelude::*;
use crate::events::{EventKind, GameEvent, event_kind};

verus! {

/// The ids (positions) of the registrations equal to `t`, in increasing order.
pub open spec fn matching(h: Seq<Option<EventKind>>, t: Option<EventKind>) -> Seq<usize>
    decreases h.len(),
{
    if h.len() == 0 {
        Seq::empty()
    } else {
        matching(h.drop_last(), t) + if h.last() == t {
            seq![(h.len() - 1) as usize]
        } else {
            Seq::empty()
        }
    }
}

/// Handler registry.
pub struct Dispatcher {
    /// One entry per registration, in order: the kind of a typed handler,
    /// `None` for a catch-all handler.
    registrations: Vec<Option<EventKind>>,
}

impl Dispatcher {
    /// The registrations, in order (`None` stands for a catch-all handler).
    pub closed spec fn registered(&self) -> Seq<Option<EventKind>> {
        self.registrations@
    }

    /// The ids of the handlers to call for an event of kind `k`, in order.
    pub open spec fn delivery(&self, k: EventKind) -> Seq<usize> {
        matching(self.registered(), Some(k)) + matching(self.registered(), None)
    }

    /// A registry with no handler.
    pub fn new() -> (d: Self)
        ensures
            d.registered() == Seq::<Option<EventKind>>::empty(),
    {
        Dispatcher { registrations: Vec::new() }
    }

    /// Registers a handler for events of kind `kind` and returns its id.
    ///
    /// Multiple handlers per kind are supported and fire in registration
    /// order.
    pub fn register(&mut self, kind: EventKind) -> (id: usize)
        ensures
            final(self).registered() == old(self).registered().push(Some(kind)),
            id == old(self).registered().len(),
    {
        let id = self.registrations.len();
        self.registrations.push(Some(kind));
        id
    }

    /// Registers a handler that receives every event and returns its id.
    pub fn register_any(&mut self) -> (id: usize)
        ensures
            final(self).registered() == old(self).registered().push(None),
            id == old(self).registered().len(),
    {
        let id = self.registrations.len();
        self.registrations.push(None);
        id
    }

    /// The ids of the handlers to call for `event`, in order: every handler
    /// registered for its kind, then every catch-all handler.
    pub fn fire(&self, event: &GameEvent) -> (ids: Vec<usize>)
        ensures
            ids@ == self.delivery(event_kind(*event)),
    {
        let k = event.kind();
        let mut typed = self.ids_for(Some(k));
        let mut any = self.ids_for(None);
        typed.append(&mut any);
        typed
    }

    /// The number of handlers registered for kind `kind`.
    pub fn count(&self, kind: EventKind) -> (n: usize)
        ensures
            n == matching(self.registered(), Some(kind)).len(),
    {
        self.ids_for(Some(kind)).len()
    }

    fn ids_for(&self, t: Option<EventKind>) -> (ids: Vec<usize>)
        ensures
            ids@ == matching(self.registered(), t),
    {
        let mut ids: Vec<usize> = Vec::new();
        let mut i: usize = 0;
        let ghost h = self.registrations@;
        assert(h.take(0) =~= Seq::<Option<EventKind>>::empty());
        while i < self.registrations.len()
            invariant
                h == self.registrations@,
                i <= h.len(),
                ids@ == matching(h.take(i as int), t),
            decreases self.registrations.len() - i,
        {
            proof {
                assert(h.take(i + 1).drop_last() =~= h.take(i as int));
                assert(h.take(i + 1).last() == h[i as int]);
            }
            if self.registrations[i] == t {
                ids.push(i);
            }
            i = i + 1;
        }
        assert(h.take(h.len() as int) =~= h);
        ids
    }
}

/// The ids that `matching` yields are exactly the positions holding `t`,
/// in strictly increasing order.
pub proof fn lemma_matching_exact(h: Seq<Option<EventKind>>, t: Option<EventKind>)
    requires
        h.len() <= usize::MAX,
    ensures
        forall|j: int| 0 <= j < matching(h, t).len() ==> {
            let id = #[trigger] matching(h, t)[j];
            0 <= id < h.len() && h[id as int] == t
        },
        forall|id: int| 0 <= id < h.len() && h[id] == t ==> #[trigger] matching(h, t).contains(id as usize),
        forall|a: int, b: int| 0 <= a < b < matching(h, t).len() ==> matching(h, t)[a] < matching(h, t)[b],
    decreases h.len(),
{
    if h.len() > 0 {
        let g = h.drop_last();
        lemma_matching_exact(g, t);
        let m = matching(h, t);
        let mg = matching(g, t);
        assert forall|j: int| 0 <= j < m.len() implies {
            let id = #[trigger] m[j];
            0 <= id < h.len() && h[id as int] == t
        } by {
            if j < mg.len() {
                assert(m[j] == mg[j]);
                assert(g[mg[j] as int] == h[mg[j] as int]);
            } else {
                assert(h.last() == t);
                assert(m[j] == (h.len() - 1) as usize);
            }
        }
        assert forall|id: int| 0 <= id < h.len() && h[id] == t implies #[trigger] m.contains(id as usize) by {
            if id < h.len() - 1 {
                assert(g[id] == h[id]);
                assert(mg.contains(id as usize));
                let j = choose|j: int| 0 <= j < mg.len() && mg[j] == id as usize;
                assert(m[j] == mg[j]);
            } else {
                assert(m[m.len() - 1] == id as usize);
            }
        }
        assert forall|a: int, b: int| 0 <= a < b < m.len() implies m[a] < m[b] by {
            if b < mg.len() {
                assert(m[a] == mg[a]);
                assert(m[b] == mg[b]);
            } else {
                assert(m[a] == mg[a]);
                let ida = mg[a];
                assert(0 <= ida < g.len());
                assert(m[b] == (h.len() - 1) as usize);
            }
        }
    }
}

/// Firing an event calls exactly the handlers registered for its kind, in
/// registration order, and after them exactly the catch-all handlers, in
/// registration order; no other handler is called.
pub proof fn lemma_fire_calls_matching_then_catch_all(d: Dispatcher, k: EventKind)
    ensures
        ({
            let h = d.registered();
            let typed = matching(h, Some(k));
            let any = matching(h, None);
            &&& d.delivery(k) == typed + any
            &&& forall|j: int| 0 <= j < typed.len() ==> h[#[trigger] typed[j] as int] == Some(k)
            &&& forall|id: int| 0 <= id < h.len() && h[id] == Some(k) ==> #[trigger] typed.contains(id as usize)
            &&& forall|a: int, b: int| 0 <= a < b < typed.len() ==> typed[a] < typed[b]
            &&& forall|j: int| 0 <= j < any.len() ==> h[#[trigger] any[j] as int] is None
            &&& forall|id: int| 0 <= id < h.len() && h[id] is None ==> #[trigger] any.contains(id as usize)
            &&& forall|a: int, b: int| 0 <= a < b < any.len() ==> any[a] < any[b]
        }),
{
    assert(d.registrations.len() == d.registrations@.len());
    lemma_matching_exact(d.registered(), Some(k));
    lemma_matching_exact(d.registered(), None);
}

} // verus!
