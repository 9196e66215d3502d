//! The decisions of the HTTP listener that receives GSI payloads from CS2.
//!
//! The socket work (binding, accepting connections, reading bodies, parsing
//! JSON, sleeping between retries) is done by the caller. This module holds
//! what the listener decides: how each request is answered and which
//! events it produces, whether a start or stop is allowed, and which
//! address to bind next when an address is busy.

use vstd::prelude::*;
use crate::dispatcher::Dispatcher;
use crate::error::Error;
use crate::events::{EventKind, GameEvent, event_kind};
use crate::handlers::{diff, diff_and_dispatch};
use crate::model::GameState;
use crate::snapshot::Snapshot;

verus! {

/// How long to wait between bind retries when the address is reported as
/// in use, in milliseconds. Long enough to outlast the hand-off of a port
/// by a restarting development build, short enough that a real conflict
/// surfaces in well under a second.
pub const BIND_RETRY_DELAY_MS: u64 = 250;

/// How many times each address is tried while it is reported as in use.
pub const BIND_RETRY_ATTEMPTS: usize = 3;

/// Hard cap on the POST body size, in bytes. Real GSI payloads stay well
/// under 100 KB even with every data section enabled.
pub const MAX_BODY_BYTES: usize = 1048576;

/// A request, as far as the listener's answer depends on it.
pub enum Incoming {
    /// The method was not POST.
    WrongMethod,
    /// The body could not be read, or it exceeded [`MAX_BODY_BYTES`].
    Unreadable,
    /// The body is not a valid GSI payload.
    Malformed,
    /// The body parsed into a game state.
    Payload(GameState),
}

/// The HTTP status of an answer.
#[derive(Clone, Copy, Debug, PartialEq, Eq, Structural)]
pub enum Status {
    /// 200: the payload was accepted.
    Success,
    /// 400: the payload could not be parsed.
    BadRequest,
    /// 405: only POST is supported.
    MethodNotAllowed,
    /// 413: the body was too large or could not be read.
    PayloadTooLarge,
}

impl Status {
    /// The numeric status code.
    pub open spec fn code_of(self) -> u16 {
        match self {
            Status::Success => 200,
            Status::BadRequest => 400,
            Status::MethodNotAllowed => 405,
            Status::PayloadTooLarge => 413,
        }
    }

    /// The plain-text body that goes with the status.
    pub open spec fn message_of(self) -> Seq<char> {
        match self {
            Status::Success => ""@,
            Status::BadRequest => "invalid payload"@,
            Status::MethodNotAllowed => "only POST is supported"@,
            Status::PayloadTooLarge => "payload too large or read error"@,
        }
    }

    /// The numeric status code.
    pub fn code(&self) -> (r: u16)
        ensures
            r == self.code_of(),
    {
        match self {
            Status::Success => 200,
            Status::BadRequest => 400,
            Status::MethodNotAllowed => 405,
            Status::PayloadTooLarge => 413,
        }
    }

    /// The plain-text body that goes with the status.
    pub fn message(&self) -> (r: &'static str)
        ensures
            r@ == self.message_of(),
    {
        match self {
            Status::Success => "",
            Status::BadRequest => "invalid payload",
            Status::MethodNotAllowed => "only POST is supported",
            Status::PayloadTooLarge => "payload too large or read error",
        }
    }
}

/// The answer to a request: its status, the events it produced in
/// delivery order, and for each event the ids of the handlers to call, in
/// order.
pub struct Reply {
    /// The HTTP status.
    pub status: Status,
    /// The derived events, in delivery order.
    pub events: Vec<GameEvent>,
    /// For each event, the ids of the handlers to call.
    pub handlers: Vec<Vec<usize>>,
}

/// The state the listener keeps between requests: the registered handlers,
/// the most recently received game state, and whether it is running.
pub struct ListenerCore {
    dispatcher: Dispatcher,
    last_state: Option<GameState>,
    running: bool,
}

impl ListenerCore {
    /// The handler registry.
    pub closed spec fn routes(&self) -> Dispatcher {
        self.dispatcher
    }

    /// The most recently received game state.
    pub closed spec fn last(&self) -> Option<GameState> {
        self.last_state
    }

    /// Whether the listener has been started and not stopped since.
    pub closed spec fn running(&self) -> bool {
        self.running
    }

    /// A listener that has received nothing, with no handler, not running.
    pub fn new() -> (l: Self)
        ensures
            l.routes().registered() == Seq::<Option<EventKind>>::empty(),
            l.last() is None,
            !l.running(),
    {
        ListenerCore { dispatcher: Dispatcher::new(), last_state: None, running: false }
    }

    /// Subscribes a handler to events of kind `kind`; returns its id.
    pub fn on(&mut self, kind: EventKind) -> (id: usize)
        ensures
            final(self).routes().registered() == old(self).routes().registered().push(Some(kind)),
            id == old(self).routes().registered().len(),
            final(self).last() == old(self).last(),
            final(self).running() == old(self).running(),
    {
        self.dispatcher.register(kind)
    }

    /// Subscribes a handler to every event; returns its id.
    pub fn on_any(&mut self) -> (id: usize)
        ensures
            final(self).routes().registered() == old(self).routes().registered().push(None),
            id == old(self).routes().registered().len(),
            final(self).last() == old(self).last(),
            final(self).running() == old(self).running(),
    {
        self.dispatcher.register_any()
    }

    /// The most recently received game state, if any.
    pub fn current_state(&self) -> (r: Option<GameState>)
        ensures
            r == self.last(),
    {
        self.last_state.snapshot()
    }

    /// `true` once a start has succeeded and before the next stop.
    pub fn is_running(&self) -> (r: bool)
        ensures
            r == self.running(),
    {
        self.running
    }

    /// Answers one request.
    ///
    /// A payload is accepted: it becomes the current state, and the events
    /// are those of diffing it against the previous state. Every other
    /// request is refused and changes nothing.
    pub fn handle(&mut self, incoming: Incoming) -> (r: Reply)
        ensures
            final(self).routes() == old(self).routes(),
            final(self).running() == old(self).running(),
            match incoming {
                Incoming::Payload(s) => {
                    &&& r.status == Status::Success
                    &&& final(self).last() == Some(s)
                    &&& r.events@ == diff(old(self).last(), s)
                    &&& r.handlers@.len() == r.events@.len()
                    &&& forall|i: int| 0 <= i < r.handlers@.len()
                        ==> (#[trigger] r.handlers@[i])@ == old(self).routes().delivery(event_kind(r.events@[i]))
                },
                _ => {
                    &&& r.status == (match incoming {
                        Incoming::WrongMethod => Status::MethodNotAllowed,
                        Incoming::Unreadable => Status::PayloadTooLarge,
                        _ => Status::BadRequest,
                    })
                    &&& final(self).last() == old(self).last()
                    &&& r.events@.len() == 0
                    &&& r.handlers@.len() == 0
                },
            },
    {
        match incoming {
            Incoming::WrongMethod => Reply { status: Status::MethodNotAllowed, events: Vec::new(), handlers: Vec::new() },
            Incoming::Unreadable => Reply { status: Status::PayloadTooLarge, events: Vec::new(), handlers: Vec::new() },
            Incoming::Malformed => Reply { status: Status::BadRequest, events: Vec::new(), handlers: Vec::new() },
            Incoming::Payload(state) => {
                let previous = self.last_state.take();
                self.last_state = Some(state.snapshot());
                let (events, handlers) = diff_and_dispatch(previous.as_ref(), &state, &self.dispatcher);
                Reply { status: Status::Success, events, handlers }
            },
        }
    }

    /// Begins a start with `fallbacks` alternative addresses after the
    /// primary one: refused when the listener is running, otherwise the
    /// plan that decides which address to bind.
    pub fn begin_start(&self, fallbacks: usize) -> (r: Result<BindPlan, Error>)
        requires
            fallbacks < usize::MAX,
        ensures
            match r {
                Ok(p) => !self.running() && p.addresses() == fallbacks + 1 && p.current() == 0 && p.attempt() == 0,
                Err(e) => self.running() && e is AlreadyStarted,
            },
    {
        if self.running {
            Err(Error::AlreadyStarted)
        } else {
            Ok(BindPlan::new(fallbacks + 1))
        }
    }

    /// Records that an address was bound and the serve loop started.
    pub fn started(&mut self)
        ensures
            final(self).running(),
            final(self).routes() == old(self).routes(),
            final(self).last() == old(self).last(),
    {
        self.running = true;
    }

    /// Stops the listener: refused when it is not running.
    pub fn stop(&mut self) -> (r: Result<(), Error>)
        ensures
            !final(self).running(),
            final(self).routes() == old(self).routes(),
            final(self).last() == old(self).last(),
            match r {
                Ok(_) => old(self).running(),
                Err(e) => !old(self).running() && e is NotRunning,
            },
    {
        if self.running {
            self.running = false;
            Ok(())
        } else {
            Err(Error::NotRunning)
        }
    }
}

/// What became of one bind attempt.
#[derive(Clone, Copy, Debug, PartialEq, Eq, Structural)]
pub enum BindOutcome {
    /// The address was bound.
    Bound,
    /// The address is in use.
    InUse,
    /// Any other failure.
    Failed,
}

/// What to do next while starting. Addresses are numbered in the order in
/// which they were given: the primary one is 0, the fallbacks follow.
#[derive(Clone, Copy, Debug, PartialEq, Eq, Structural)]
pub enum BindAction {
    /// Bind address `addr` now.
    Bind { addr: usize },
    /// Wait `delay_ms` milliseconds, then bind address `addr` again.
    Retry { addr: usize, delay_ms: u64 },
    /// Address `addr` is bound: serve on it.
    Listen { addr: usize },
    /// Fail with a bind error for address `addr`, carrying the error of the
    /// last attempt.
    GiveUp { addr: usize },
}

/// The progress of a start through its addresses: each is tried up to
/// [`BIND_RETRY_ATTEMPTS`] times while it is reported as in use, with a
/// pause between attempts but none after the last one; then the next
/// address is tried. Any other failure ends the start at once.
pub struct BindPlan {
    addresses: usize,
    current: usize,
    attempt: usize,
}

impl BindPlan {
    #[verifier::type_invariant]
    closed spec fn well_formed(self) -> bool {
        self.current < self.addresses && self.attempt < BIND_RETRY_ATTEMPTS
    }

    /// How many addresses there are.
    pub closed spec fn addresses(self) -> nat {
        self.addresses as nat
    }

    /// The address being tried.
    pub closed spec fn current(self) -> nat {
        self.current as nat
    }

    /// How many attempts on the current address have failed so far.
    pub closed spec fn attempt(self) -> nat {
        self.attempt as nat
    }

    /// How many more bind attempts the plan can still ask for.
    pub open spec fn remaining(self) -> int {
        (self.addresses() - self.current() - 1) * BIND_RETRY_ATTEMPTS + (BIND_RETRY_ATTEMPTS - 1 - self.attempt())
    }

    /// The plan's answer to `outcome`: its next state and the action.
    pub open spec fn step(self, outcome: BindOutcome) -> (BindPlan, BindAction) {
        match outcome {
            BindOutcome::Bound => (self, BindAction::Listen { addr: self.current() as usize }),
            BindOutcome::Failed => (self, BindAction::GiveUp { addr: self.current() as usize }),
            BindOutcome::InUse => if self.attempt() + 1 < BIND_RETRY_ATTEMPTS {
                (self.moved(self.current(), self.attempt() + 1), BindAction::Retry {
                    addr: self.current() as usize,
                    delay_ms: BIND_RETRY_DELAY_MS,
                })
            } else if self.current() + 1 < self.addresses() {
                (self.moved(self.current() + 1, 0), BindAction::Bind { addr: (self.current() + 1) as usize })
            } else {
                (self, BindAction::GiveUp { addr: 0 })
            },
        }
    }

    /// The plan with the same addresses, at address `current` after
    /// `attempt` failed attempts.
    pub closed spec fn moved(self, current: nat, attempt: nat) -> BindPlan {
        BindPlan { addresses: self.addresses, current: current as usize, attempt: attempt as usize }
    }

    /// Facts about [`BindPlan::moved`].
    pub proof fn lemma_moved(self, current: nat, attempt: nat)
        requires
            current < self.addresses(),
            attempt < BIND_RETRY_ATTEMPTS,
        ensures
            self.moved(current, attempt).addresses() == self.addresses(),
            self.moved(current, attempt).current() == current,
            self.moved(current, attempt).attempt() == attempt,
    {
    }

    /// A plan over `addresses` addresses, about to try the first one.
    pub fn new(addresses: usize) -> (p: Self)
        requires
            addresses >= 1,
        ensures
            p.addresses() == addresses,
            p.current() == 0,
            p.attempt() == 0,
            p.remaining() == addresses * BIND_RETRY_ATTEMPTS - 1,
    {
        BindPlan { addresses, current: 0, attempt: 0 }
    }

    /// The first action: bind the primary address.
    pub fn first(&self) -> (a: BindAction)
        ensures
            a == (BindAction::Bind { addr: self.current() as usize }),
    {
        BindAction::Bind { addr: self.current }
    }

    /// Takes the outcome of the last bind attempt and says what to do next.
    ///
    /// Every action that asks for another bind leaves one fewer attempt for
    /// the rest of the start, so a start makes at most
    /// `BIND_RETRY_ATTEMPTS` attempts per address.
    pub fn next(&mut self, outcome: BindOutcome) -> (a: BindAction)
        ensures
            (*final(self), a) == old(self).step(outcome),
            final(self).addresses() == old(self).addresses(),
            final(self).current() < final(self).addresses(),
            final(self).attempt() < BIND_RETRY_ATTEMPTS,
            (a is Bind || a is Retry) ==> final(self).remaining() + 1 == old(self).remaining(),
    {
        proof {
            use_type_invariant(&*self);
        }
        match outcome {
            BindOutcome::Bound => BindAction::Listen { addr: self.current },
            BindOutcome::Failed => BindAction::GiveUp { addr: self.current },
            BindOutcome::InUse => {
                if self.attempt + 1 < BIND_RETRY_ATTEMPTS {
                    self.attempt = self.attempt + 1;
                    BindAction::Retry { addr: self.current, delay_ms: BIND_RETRY_DELAY_MS }
                } else if self.current + 1 < self.addresses {
                    self.current = self.current + 1;
                    self.attempt = 0;
                    BindAction::Bind { addr: self.current }
                } else {
                    BindAction::GiveUp { addr: 0 }
                }
            },
        }
    }
}

/// How many more binds a start asks for after reaching plan `p`, when the
/// attempts turn out as `outcomes`, until it listens or gives up.
pub open spec fn binds_after(p: BindPlan, outcomes: Seq<BindOutcome>) -> nat
    decreases outcomes.len(),
{
    if outcomes.len() == 0 {
        0
    } else {
        let (q, a) = p.step(outcomes[0]);
        if a is Bind || a is Retry {
            1 + binds_after(q, outcomes.skip(1))
        } else {
            0
        }
    }
}

proof fn lemma_binds_within_remaining(p: BindPlan, outcomes: Seq<BindOutcome>)
    requires
        p.current() < p.addresses(),
        p.attempt() < BIND_RETRY_ATTEMPTS,
    ensures
        binds_after(p, outcomes) <= p.remaining(),
    decreases outcomes.len(),
{
    if outcomes.len() > 0 {
        let (q, a) = p.step(outcomes[0]);
        if a is Bind || a is Retry {
            if p.attempt() + 1 < BIND_RETRY_ATTEMPTS {
                p.lemma_moved(p.current(), p.attempt() + 1);
            } else {
                p.lemma_moved(p.current() + 1, 0);
            }
            lemma_binds_within_remaining(q, outcomes.skip(1));
        }
    }
}

/// Whatever the outcomes of its attempts, a start binds each of its
/// addresses at most [`BIND_RETRY_ATTEMPTS`] times: counting the first
/// bind, it makes at most that many attempts per address in all.
pub proof fn lemma_start_binds_bounded(p: BindPlan, outcomes: Seq<BindOutcome>)
    requires
        p.addresses() >= 1,
        p.current() == 0,
        p.attempt() == 0,
    ensures
        1 + binds_after(p, outcomes) <= p.addresses() * BIND_RETRY_ATTEMPTS,
{
    lemma_binds_within_remaining(p, outcomes);
}

} // verus!
