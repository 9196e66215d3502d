use cs2_gsi::dispatcher::Dispatcher;
use cs2_gsi::events::{EventKind, GameEvent};
use cs2_gsi::handlers::{diff_and_dispatch, diff_events};
use cs2_gsi::model::{GameState, Player, PlayerActivity, PlayerState, PlayerTeam};

fn alive_player(name: &str, hp: i32, kills: i32) -> Player {
    Player {
        steamid: name.into(),
        name: name.into(),
        team: PlayerTeam::CT,
        activity: PlayerActivity::Playing,
        state: PlayerState {
            health: hp,
            round_kills: kills,
            ..Default::default()
        },
        ..Default::default()
    }
}

/// The events delivered to handler `id`, in order.
fn delivered(events: &[GameEvent], calls: &[Vec<usize>], id: usize) -> Vec<GameEvent> {
    let mut out = Vec::new();
    for (e, ids) in events.iter().zip(calls) {
        for i in ids {
            if *i == id {
                out.push(e.clone());
            }
        }
    }
    out
}

#[test]
fn first_payload_only_fires_new_state_and_player_updated() {
    let mut d = Dispatcher::new();
    let died = d.register(EventKind::PlayerDied);

    let state = GameState {
        player: Some(alive_player("alice", 100, 0)),
        ..Default::default()
    };
    let (events, calls) = diff_and_dispatch(None, &state, &d);
    assert_eq!(delivered(&events, &calls, died).len(), 0);
}

#[test]
fn drops_to_zero_fires_player_died() {
    let mut d = Dispatcher::new();
    let died = d.register(EventKind::PlayerDied);

    let prev = GameState {
        player: Some(alive_player("alice", 87, 0)),
        ..Default::default()
    };
    let cur = GameState {
        player: Some(alive_player("alice", 0, 0)),
        ..Default::default()
    };

    let (events, calls) = diff_and_dispatch(Some(&prev), &cur, &d);
    assert_eq!(delivered(&events, &calls, died).len(), 1);
}

#[test]
fn round_kill_increment_fires_got_kill() {
    let mut d = Dispatcher::new();
    let killed = d.register(EventKind::PlayerGotKill);
    let prev = GameState {
        player: Some(alive_player("alice", 100, 0)),
        ..Default::default()
    };
    let cur = GameState {
        player: Some(alive_player("alice", 100, 1)),
        ..Default::default()
    };
    let (events, calls) = diff_and_dispatch(Some(&prev), &cur, &d);
    let got = delivered(&events, &calls, killed);
    for e in &got {
        match e {
            GameEvent::PlayerGotKill(e) => {
                assert_eq!(e.previous_round_kills, 0);
                assert_eq!(e.new_round_kills, 1);
            }
            other => panic!("unexpected {other:?}"),
        }
    }
    assert_eq!(got.len(), 1);
}

#[test]
fn killfeed_synthesises_from_kill_and_death() {
    let mut d = Dispatcher::new();
    let kf = d.register(EventKind::KillFeed);
    let mut prev = GameState::default();
    prev.allplayers.insert("alice".into(), alive_player("alice", 100, 0));
    prev.allplayers.insert("bob".into(), alive_player("bob", 100, 0));
    let mut cur = GameState::default();
    cur.allplayers.insert("alice".into(), alive_player("alice", 100, 1));
    cur.allplayers.insert("bob".into(), alive_player("bob", 0, 0));
    let (events, calls) = diff_and_dispatch(Some(&prev), &cur, &d);
    let got = delivered(&events, &calls, kf);
    for e in &got {
        match e {
            GameEvent::KillFeed(e) => {
                assert_eq!(e.killer.name, "alice");
                assert_eq!(e.victim.name, "bob");
            }
            other => panic!("unexpected {other:?}"),
        }
    }
    assert_eq!(got.len(), 1);
}

#[test]
fn killfeed_comes_with_death_and_kill_in_same_window() {
    let mut prev = GameState::default();
    prev.allplayers.insert("alice".into(), alive_player("alice", 100, 0));
    prev.allplayers.insert("bob".into(), alive_player("bob", 100, 0));
    let mut cur = GameState::default();
    cur.allplayers.insert("alice".into(), alive_player("alice", 100, 1));
    cur.allplayers.insert("bob".into(), alive_player("bob", 0, 0));
    let events = diff_events(Some(&prev), &cur);
    let died = events.iter().any(|e| matches!(e, GameEvent::PlayerDied(x) if x.player.name == "bob"));
    let kill = events.iter().any(|e| matches!(e, GameEvent::PlayerGotKill(x) if x.player.name == "alice"));
    assert!(died && kill);
    assert!(matches!(events.last(), Some(GameEvent::KillFeed(_))));
}

#[test]
fn new_state_is_announced_first() {
    let cur = GameState {
        player: Some(alive_player("alice", 100, 0)),
        ..Default::default()
    };
    let events = diff_events(None, &cur);
    assert!(matches!(events[0], GameEvent::NewGameState(_)));
    assert_eq!(events.len(), 2);
    assert!(matches!(&events[1], GameEvent::PlayerUpdated(u) if u.previous.is_none()));
}

#[test]
fn unchanged_state_only_announces() {
    let mut s = GameState::default();
    s.player = Some(alive_player("alice", 100, 0));
    s.allplayers.insert("bob".into(), alive_player("bob", 50, 2));
    let events = diff_events(Some(&s), &s);
    assert_eq!(events.len(), 1);
    assert!(matches!(events[0], GameEvent::NewGameState(_)));
}

#[test]
fn suicide_is_not_a_kill_feed_entry() {
    let prev = GameState {
        player: Some(alive_player("alice", 100, 0)),
        ..Default::default()
    };
    let cur = GameState {
        player: Some(alive_player("alice", 0, 1)),
        ..Default::default()
    };
    let events = diff_events(Some(&prev), &cur);
    assert!(events.iter().any(|e| matches!(e, GameEvent::PlayerDied(_))));
    assert!(events.iter().any(|e| matches!(e, GameEvent::PlayerGotKill(_))));
    assert!(!events.iter().any(|e| matches!(e, GameEvent::KillFeed(_))));
}

#[test]
fn respawn_and_damage_events() {
    let p0 = GameState { player: Some(alive_player("a", 0, 0)), ..Default::default() };
    let p1 = GameState { player: Some(alive_player("a", 100, 0)), ..Default::default() };
    let p2 = GameState { player: Some(alive_player("a", 40, 0)), ..Default::default() };
    let up = diff_events(Some(&p0), &p1);
    assert!(up.iter().any(|e| matches!(e, GameEvent::PlayerRespawned(x) if x.previous_health == 0 && x.new_health == 100)));
    let down = diff_events(Some(&p1), &p2);
    assert!(down.iter().any(|e| matches!(e, GameEvent::PlayerTookDamage(x) if x.previous_health == 100 && x.new_health == 40)));
    assert!(down.iter().any(|e| matches!(e, GameEvent::PlayerHealthChanged(x) if x.previous == 100 && x.new == 40)));
}
