use cs2_gsi::model::{Auth, GameState, Player, PlayerActivity, PlayerState};
use cs2_gsi::strmap::StrMap;

#[test]
fn auth_lookup_and_emptiness() {
    let mut m = StrMap::new();
    assert!(Auth(StrMap::new()).is_empty());
    m.insert("token".to_string(), "abc".to_string());
    let a = Auth(m);
    assert!(!a.is_empty());
    assert_eq!(a.get("token"), Some("abc"));
    assert_eq!(a.get("other"), None);
}

#[test]
fn local_player_dead_only_at_zero_health() {
    let mut s = GameState::default();
    assert!(!s.local_is_dead());
    s.player = Some(Player { state: PlayerState { health: 0, ..Default::default() }, ..Default::default() });
    assert!(!s.local_is_dead());
    s.player = Some(Player {
        activity: PlayerActivity::Playing,
        state: PlayerState { health: 0, ..Default::default() },
        ..Default::default()
    });
    assert!(s.local_is_dead());
    s.player = Some(Player {
        activity: PlayerActivity::Playing,
        state: PlayerState { health: 1, ..Default::default() },
        ..Default::default()
    });
    assert!(!s.local_is_dead());
}

#[test]
fn strmap_keeps_keys_sorted_and_unique() {
    let mut m = StrMap::new();
    m.insert("b".to_string(), 2u32);
    m.insert("a".to_string(), 1u32);
    m.insert("b".to_string(), 3u32);
    let keys: Vec<String> = m.entries().iter().map(|(k, _)| (*k).clone()).collect();
    assert_eq!(keys, vec!["a".to_string(), "b".to_string()]);
    assert_eq!(m.get("b"), Some(&3));
    assert_eq!(m.len(), 2);
    assert_eq!(m.remove("a"), Some(1));
    assert!(!m.contains_key("a"));
}
