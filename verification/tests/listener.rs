use cs2_gsi::error::Error;
use cs2_gsi::events::{EventKind, GameEvent};
use cs2_gsi::listener::{
    BindAction, BindOutcome, Incoming, ListenerCore, Status, BIND_RETRY_ATTEMPTS,
    BIND_RETRY_DELAY_MS, MAX_BODY_BYTES,
};
use cs2_gsi::model::{GameState, Player, PlayerState};

fn with_health(name: &str, hp: i32) -> GameState {
    GameState {
        player: Some(Player {
            steamid: "7656".into(),
            name: name.into(),
            state: PlayerState { health: hp, armor: 100, money: 800, equip_value: 800, ..Default::default() },
            ..Default::default()
        }),
        ..Default::default()
    }
}

#[test]
fn payloads_are_diffed_against_the_previous_one() {
    let mut core = ListenerCore::new();
    let died = core.on(EventKind::PlayerDied);
    let r1 = core.handle(Incoming::Payload(with_health("alice", 100)));
    assert_eq!(r1.status, Status::Success);
    assert!(r1.handlers.iter().all(|ids| !ids.contains(&died)));
    let r2 = core.handle(Incoming::Payload(with_health("alice", 0)));
    let count = r2.handlers.iter().filter(|ids| ids.contains(&died)).count();
    assert_eq!(count, 1);
    let current = core.current_state().unwrap();
    assert_eq!(current.player.unwrap().state.health, 0);
}

#[test]
fn refused_requests_answer_and_change_nothing() {
    let mut core = ListenerCore::new();
    core.on_any();
    let r = core.handle(Incoming::WrongMethod);
    assert_eq!((r.status.code(), r.status.message()), (405, "only POST is supported"));
    assert!(r.events.is_empty() && r.handlers.is_empty());
    let r = core.handle(Incoming::Unreadable);
    assert_eq!((r.status.code(), r.status.message()), (413, "payload too large or read error"));
    let r = core.handle(Incoming::Malformed);
    assert_eq!((r.status.code(), r.status.message()), (400, "invalid payload"));
    assert!(core.current_state().is_none());
    let r = core.handle(Incoming::Payload(GameState::default()));
    assert_eq!((r.status.code(), r.status.message()), (200, ""));
    assert!(matches!(r.events[0], GameEvent::NewGameState(_)));
    assert!(core.current_state().is_some());
}

#[test]
fn start_and_stop_guard_the_lifecycle() {
    let mut core = ListenerCore::new();
    assert!(!core.is_running());
    assert!(matches!(core.stop(), Err(Error::NotRunning)));
    let plan = core.begin_start(0).unwrap();
    assert_eq!(plan.first(), BindAction::Bind { addr: 0 });
    core.started();
    assert!(core.is_running());
    assert!(matches!(core.begin_start(2), Err(Error::AlreadyStarted)));
    assert!(core.stop().is_ok());
    assert!(!core.is_running());
}

#[test]
fn busy_address_is_retried_then_reported_against_primary() {
    let core = ListenerCore::new();
    let mut plan = core.begin_start(0).unwrap();
    assert_eq!(
        plan.next(BindOutcome::InUse),
        BindAction::Retry { addr: 0, delay_ms: BIND_RETRY_DELAY_MS }
    );
    assert_eq!(
        plan.next(BindOutcome::InUse),
        BindAction::Retry { addr: 0, delay_ms: BIND_RETRY_DELAY_MS }
    );
    assert_eq!(plan.next(BindOutcome::InUse), BindAction::GiveUp { addr: 0 });
    assert_eq!(BIND_RETRY_ATTEMPTS, 3);
    assert_eq!(BIND_RETRY_DELAY_MS, 250);
}

#[test]
fn retry_wins_when_the_address_frees_up() {
    let core = ListenerCore::new();
    let mut plan = core.begin_start(0).unwrap();
    assert!(matches!(plan.next(BindOutcome::InUse), BindAction::Retry { addr: 0, .. }));
    assert_eq!(plan.next(BindOutcome::Bound), BindAction::Listen { addr: 0 });
}

#[test]
fn fallbacks_are_tried_in_order() {
    let core = ListenerCore::new();
    let mut plan = core.begin_start(2).unwrap();
    let mut actions = Vec::new();
    for _ in 0..3 {
        actions.push(plan.next(BindOutcome::InUse));
    }
    assert_eq!(actions.last(), Some(&BindAction::Bind { addr: 1 }));
    for _ in 0..3 {
        actions.push(plan.next(BindOutcome::InUse));
    }
    assert_eq!(actions.last(), Some(&BindAction::Bind { addr: 2 }));
    assert_eq!(plan.next(BindOutcome::Bound), BindAction::Listen { addr: 2 });
}

#[test]
fn other_bind_failures_short_circuit() {
    let core = ListenerCore::new();
    let mut plan = core.begin_start(3).unwrap();
    assert!(matches!(plan.next(BindOutcome::InUse), BindAction::Retry { .. }));
    assert_eq!(plan.next(BindOutcome::Failed), BindAction::GiveUp { addr: 0 });
    assert_eq!(MAX_BODY_BYTES, 1024 * 1024);
}
