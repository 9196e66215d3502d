use cs2_gsi::dispatcher::Dispatcher;
use cs2_gsi::events::{EventKind, GameEvent, GameOver, MatchStarted};

#[test]
fn fires_only_matching_handlers() {
    let mut d = Dispatcher::new();
    let id = d.register(EventKind::MatchStarted);
    let mut count = 0;
    for e in [GameEvent::MatchStarted(MatchStarted), GameEvent::GameOver(GameOver)] {
        for called in d.fire(&e) {
            if called == id {
                count += 1;
            }
        }
    }
    assert_eq!(count, 1);
}

#[test]
fn on_any_receives_everything() {
    let mut d = Dispatcher::new();
    let id = d.register_any();
    let mut count = 0;
    for e in [GameEvent::MatchStarted(MatchStarted), GameEvent::GameOver(GameOver)] {
        for called in d.fire(&e) {
            if called == id {
                count += 1;
            }
        }
    }
    assert_eq!(count, 2);
}

#[test]
fn typed_handlers_come_before_catch_all_in_registration_order() {
    let mut d = Dispatcher::new();
    let any = d.register_any();
    let first = d.register(EventKind::GameOver);
    let other = d.register(EventKind::MatchStarted);
    let second = d.register(EventKind::GameOver);
    assert_eq!(d.fire(&GameEvent::GameOver(GameOver)), vec![first, second, any]);
    assert_eq!(d.fire(&GameEvent::MatchStarted(MatchStarted)), vec![other, any]);
    assert_eq!(d.count(EventKind::GameOver), 2);
    assert_eq!(d.count(EventKind::BombPlanted), 0);
}
