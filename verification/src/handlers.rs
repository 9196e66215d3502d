//! Diff engine that turns consecutive [`GameState`] snapshots into events.
//!
//! Every incoming payload is compared against the last one and the derived
//! events are produced in the order in which they are to be delivered:
//! the new state first, then meta, map, round and bomb changes, then every
//! player (the local one first, then `allplayers` in key order), and last
//! the synthesised kill feed.

use vstd::prelude::*;
use crate::events::{
    PlayerUpdated, PlayerDied, PlayerRespawned, PlayerTookDamage, PlayerGotKill, PlayerHealthChanged, PlayerArmorChanged, PlayerHelmetChanged, PlayerFlashAmountChanged, PlayerSmokedAmountChanged, PlayerBurningAmountChanged, PlayerMoneyAmountChanged, PlayerEquipmentValueChanged, PlayerRoundKillsChanged, PlayerRoundHeadshotKillsChanged, PlayerRoundTotalDamageChanged, PlayerActivityChanged, PlayerTeamChanged, PlayerActiveWeaponChanged, PlayerStatsChanged, RoundUpdated, RoundPhaseUpdated, RoundStarted, RoundConcluded, FreezetimeStarted, FreezetimeOver, MatchStarted, GameOver, BombStateUpdated, MapUpdated, GamemodeChanged, LevelChanged, MapPhaseChanged, TeamScoreChanged, BombUpdated, BombPlanting, BombPlanted, BombDefusing, BombDefused, BombExploded, BombDropped, BombPickedUp, KillFeed, AuthUpdated, ProviderUpdated, NewGameState, GameEvent,
};
use crate::model::{
    BombState, GameState, MapPhase, MapState, Bomb, Player, PlayerTeam, Round, RoundPhase,
    WeaponState, Weapon,
};
use crate::dispatcher::Dispatcher;
use crate::events::event_kind;
use crate::snapshot::Snapshot;
use crate::strmap::{lookup, keys_of, strictly_sorted, lemma_lookup_present};

verus! {

/// The one-event sequence `[e]` when `b` holds, else nothing.
pub open spec fn when(b: bool, e: GameEvent) -> Seq<GameEvent> {
    if b {
        seq![e]
    } else {
        Seq::empty()
    }
}

/// A kill observed in one diff window: the killer, whether the kill was a
/// headshot, and the killer's active weapon.
pub type KillRecord = (Player, bool, Option<String>);

// ----------------------------------------------------------------- meta

/// `AuthUpdated` / `ProviderUpdated`, fired only when there is a previous state.
pub open spec fn meta_events(prev: Option<GameState>, cur: GameState) -> Seq<GameEvent> {
    match prev {
        None => Seq::empty(),
        Some(p) => when(!p.auth.same(&cur.auth), GameEvent::AuthUpdated(AuthUpdated))
            + when(
            !p.provider.same(&cur.provider),
            GameEvent::ProviderUpdated(ProviderUpdated { previous: p.provider, new: cur.provider }),
        ),
    }
}

// ----------------------------------------------------------------- map

/// Phase-related map events of a changed map.
pub open spec fn map_phase_events(p: MapState, c: MapState) -> Seq<GameEvent> {
    if p.phase != c.phase {
        seq![GameEvent::MapPhaseChanged(MapPhaseChanged { previous: p.phase, new: c.phase })]
            + when(
            p.phase == MapPhase::Warmup && c.phase == MapPhase::Live,
            GameEvent::MatchStarted(MatchStarted),
        ) + when(c.phase == MapPhase::Gameover, GameEvent::GameOver(GameOver))
    } else {
        Seq::empty()
    }
}

/// Events for the `map` block: nothing unless both snapshots have one and
/// they differ.
pub open spec fn map_events(prev: Option<MapState>, cur: Option<MapState>) -> Seq<GameEvent> {
    match (prev, cur) {
        (Some(p), Some(c)) => if p.same(&c) {
            Seq::empty()
        } else {
            seq![GameEvent::MapUpdated(MapUpdated)] + when(
                p.mode@ != c.mode@,
                GameEvent::GamemodeChanged(GamemodeChanged { previous: p.mode, new: c.mode }),
            ) + when(
                p.name@ != c.name@,
                GameEvent::LevelChanged(LevelChanged { previous: p.name, new: c.name }),
            ) + map_phase_events(p, c) + when(
                p.team_ct.score != c.team_ct.score,
                GameEvent::TeamScoreChanged(
                    TeamScoreChanged {
                        team: PlayerTeam::CT,
                        previous: p.team_ct.score,
                        new: c.team_ct.score,
                    },
                ),
            ) + when(
                p.team_t.score != c.team_t.score,
                GameEvent::TeamScoreChanged(
                    TeamScoreChanged {
                        team: PlayerTeam::T,
                        previous: p.team_t.score,
                        new: c.team_t.score,
                    },
                ),
            )
        },
        _ => Seq::empty(),
    }
}

// ----------------------------------------------------------------- round

/// The events that follow a change of round phase, by the new phase.
pub open spec fn round_phase_events(p: Round, c: Round) -> Seq<GameEvent> {
    if p.phase != c.phase {
        seq![GameEvent::RoundPhaseUpdated(RoundPhaseUpdated { previous: p.phase, new: c.phase })]
            + match c.phase {
            RoundPhase::Live => seq![
                GameEvent::RoundStarted(RoundStarted),
                GameEvent::FreezetimeOver(FreezetimeOver),
            ],
            RoundPhase::Freezetime => seq![GameEvent::FreezetimeStarted(FreezetimeStarted)],
            RoundPhase::Over => seq![
                GameEvent::RoundConcluded(RoundConcluded { winning_team: c.win_team }),
            ],
            RoundPhase::Unknown => Seq::empty(),
        }
    } else {
        Seq::empty()
    }
}

/// Events for the `round` block: nothing unless both snapshots have one and
/// they differ.
pub open spec fn round_events(prev: Option<Round>, cur: Option<Round>) -> Seq<GameEvent> {
    match (prev, cur) {
        (Some(p), Some(c)) => if p == c {
            Seq::empty()
        } else {
            seq![
                GameEvent::RoundUpdated(
                    RoundUpdated { previous_phase: p.phase, new_phase: c.phase },
                ),
            ] + round_phase_events(p, c) + when(
                p.bomb != c.bomb,
                GameEvent::BombStateUpdated(BombStateUpdated { previous: p.bomb, new: c.bomb }),
            )
        },
        _ => Seq::empty(),
    }
}

// ----------------------------------------------------------------- bomb

/// The lifecycle event announced when the root bomb enters state `c`
/// (coming from state `p`).
pub open spec fn bomb_state_events(p: BombState, c: BombState) -> Seq<GameEvent> {
    if p == c {
        Seq::empty()
    } else {
        match c {
            BombState::Planting => seq![GameEvent::BombPlanting(BombPlanting)],
            BombState::Planted => seq![GameEvent::BombPlanted(BombPlanted)],
            BombState::Defusing => seq![GameEvent::BombDefusing(BombDefusing)],
            BombState::Defused => seq![GameEvent::BombDefused(BombDefused)],
            BombState::Exploded => seq![GameEvent::BombExploded(BombExploded)],
            BombState::Dropped => seq![GameEvent::BombDropped(BombDropped)],
            BombState::Carried => when(
                p == BombState::Dropped || p == BombState::Unknown,
                GameEvent::BombPickedUp(BombPickedUp),
            ),
            BombState::Unknown => Seq::empty(),
        }
    }
}

/// Events for the root `bomb` block: nothing unless both snapshots have one
/// and they differ.
pub open spec fn bomb_events(prev: Option<Bomb>, cur: Option<Bomb>) -> Seq<GameEvent> {
    match (prev, cur) {
        (Some(p), Some(c)) => if p.same(&c) {
            Seq::empty()
        } else {
            seq![GameEvent::BombUpdated(BombUpdated)] + bomb_state_events(p.state, c.state)
        },
        _ => Seq::empty(),
    }
}

// ----------------------------------------------------------------- players

/// The name of the first weapon (in slot order) that is currently active.
pub open spec fn first_active(p: Seq<(String, Weapon)>) -> Option<String>
    decreases p.len(),
{
    if p.len() == 0 {
        None
    } else if p[0].1.state == WeaponState::Active {
        Some(p[0].1.name)
    } else {
        first_active(p.drop_first())
    }
}

/// The player's active weapon name.
pub open spec fn active_weapon(p: Player) -> Option<String> {
    first_active(p.weapons.pairs())
}

/// Health-related events of a changed player.
pub open spec fn health_events(p: Player, c: Player) -> Seq<GameEvent> {
    let ph = p.state.health;
    let ch = c.state.health;
    if ph != ch {
        seq![GameEvent::PlayerHealthChanged(PlayerHealthChanged { player: c, previous: ph, new: ch })]
            + if ph > 0 && ch == 0 {
            seq![
                GameEvent::PlayerDied(
                    PlayerDied { player: c, previous_health: ph, new_health: ch },
                ),
            ]
        } else if ph == 0 && ch > 0 {
            seq![
                GameEvent::PlayerRespawned(
                    PlayerRespawned { player: c, previous_health: ph, new_health: ch },
                ),
            ]
        } else if ch > 0 && ch < ph {
            seq![
                GameEvent::PlayerTookDamage(
                    PlayerTookDamage { player: c, previous_health: ph, new_health: ch },
                ),
            ]
        } else {
            Seq::empty()
        }
    } else {
        Seq::empty()
    }
}

/// Round-kill events of a changed player.
pub open spec fn kill_events(p: Player, c: Player) -> Seq<GameEvent> {
    let pk = p.state.round_kills;
    let ck = c.state.round_kills;
    if pk != ck {
        seq![GameEvent::PlayerRoundKillsChanged(PlayerRoundKillsChanged { player: c, previous: pk, new: ck })]
            + when(
            ck > pk,
            GameEvent::PlayerGotKill(
                PlayerGotKill {
                    player: c,
                    previous_round_kills: pk,
                    new_round_kills: ck,
                    is_headshot: c.state.round_killhs > p.state.round_killhs,
                    weapon: active_weapon(c),
                },
            ),
        )
    } else {
        Seq::empty()
    }
}

/// Vital-sign events of a changed player: the announcement itself, health,
/// armor, helmet, blindness, smoke, burning, money and equipment value.
pub open spec fn vital_events(p: Player, c: Player) -> Seq<GameEvent> {
    let ps = p.state;
    let cs = c.state;
    seq![GameEvent::PlayerUpdated(PlayerUpdated { player: c, previous: Some(p) })]
        + health_events(p, c)
        + when(ps.armor != cs.armor, GameEvent::PlayerArmorChanged(PlayerArmorChanged { player: c, previous: ps.armor, new: cs.armor }))
        + when(ps.helmet != cs.helmet, GameEvent::PlayerHelmetChanged(PlayerHelmetChanged { player: c, previous: ps.helmet, new: cs.helmet }))
        + when(ps.flashed != cs.flashed, GameEvent::PlayerFlashAmountChanged(PlayerFlashAmountChanged { player: c, previous: ps.flashed, new: cs.flashed }))
        + when(ps.smoked != cs.smoked, GameEvent::PlayerSmokedAmountChanged(PlayerSmokedAmountChanged { player: c, previous: ps.smoked, new: cs.smoked }))
        + when(ps.burning != cs.burning, GameEvent::PlayerBurningAmountChanged(PlayerBurningAmountChanged { player: c, previous: ps.burning, new: cs.burning }))
        + when(ps.money != cs.money, GameEvent::PlayerMoneyAmountChanged(PlayerMoneyAmountChanged { player: c, previous: ps.money, new: cs.money }))
        + when(ps.equip_value != cs.equip_value, GameEvent::PlayerEquipmentValueChanged(PlayerEquipmentValueChanged { player: c, previous: ps.equip_value, new: cs.equip_value }))
}

/// Round-statistics events of a changed player: kills, headshots, damage.
pub open spec fn round_stat_events(p: Player, c: Player) -> Seq<GameEvent> {
    let ps = p.state;
    let cs = c.state;
    kill_events(p, c)
        + when(ps.round_killhs != cs.round_killhs, GameEvent::PlayerRoundHeadshotKillsChanged(PlayerRoundHeadshotKillsChanged { player: c, previous: ps.round_killhs, new: cs.round_killhs }))
        + when(ps.round_totaldmg != cs.round_totaldmg, GameEvent::PlayerRoundTotalDamageChanged(PlayerRoundTotalDamageChanged { player: c, previous: ps.round_totaldmg, new: cs.round_totaldmg }))
}

/// Status events of a changed player: activity, team, weapon, match stats.
pub open spec fn status_events(p: Player, c: Player) -> Seq<GameEvent> {
    when(p.activity != c.activity, GameEvent::PlayerActivityChanged(PlayerActivityChanged { player: c, previous: p.activity, new: c.activity }))
        + when(p.team != c.team, GameEvent::PlayerTeamChanged(PlayerTeamChanged { player: c, previous: p.team, new: c.team }))
        + when(!active_weapon(p).same(&active_weapon(c)), GameEvent::PlayerActiveWeaponChanged(PlayerActiveWeaponChanged { player: c, previous: active_weapon(p), new: active_weapon(c) }))
        + when(p.match_stats != c.match_stats, GameEvent::PlayerStatsChanged(PlayerStatsChanged { player: c, previous: p.match_stats, new: c.match_stats }))
}

/// Events of a player that changed between two snapshots.
pub open spec fn changed_player_events(p: Player, c: Player) -> Seq<GameEvent> {
    vital_events(p, c) + round_stat_events(p, c) + status_events(p, c)
}

/// Events of one player: a first-seen player only announces itself; an
/// unchanged player announces nothing.
pub open spec fn player_events(prev: Option<Player>, cur: Player) -> Seq<GameEvent> {
    match prev {
        None => seq![GameEvent::PlayerUpdated(PlayerUpdated { player: cur, previous: None })],
        Some(p) => if p.same(&cur) {
            Seq::empty()
        } else {
            changed_player_events(p, cur)
        },
    }
}

/// The player died in this window (health dropped from above zero to zero).
pub open spec fn died(prev: Option<Player>, cur: Player) -> bool {
    match prev {
        Some(p) => !p.same(&cur) && p.state.health > 0 && cur.state.health == 0,
        None => false,
    }
}

/// The kill the player got in this window, if their round kills went up.
pub open spec fn kill_of(prev: Option<Player>, cur: Player) -> Option<KillRecord> {
    match prev {
        Some(p) => if !p.same(&cur) && cur.state.round_kills > p.state.round_kills {
            Some((cur, cur.state.round_killhs > p.state.round_killhs, active_weapon(cur)))
        } else {
            None
        },
        None => None,
    }
}

/// Every player observed in the current snapshot with its previous
/// snapshot: the local player first, then `allplayers` in key order.
pub open spec fn observed_players(prev: Option<GameState>, cur: GameState) -> Seq<(Option<Player>, Player)> {
    let local = match cur.player {
        Some(c) => seq![(match prev { Some(p) => p.player, None => None }, c)],
        None => Seq::empty(),
    };
    local + cur.allplayers.pairs().map_values(|e: (String, Player)| (previous_of(prev, e.0@), e.1))
}

/// The previous snapshot of the player stored under `key` in `allplayers`.
pub open spec fn previous_of(prev: Option<GameState>, key: Seq<char>) -> Option<Player> {
    match prev {
        Some(p) => lookup(p.allplayers.pairs(), key),
        None => None,
    }
}

/// Player events of a sequence of observations, in order.
pub open spec fn events_of_players(s: Seq<(Option<Player>, Player)>) -> Seq<GameEvent>
    decreases s.len(),
{
    if s.len() == 0 {
        Seq::empty()
    } else {
        events_of_players(s.drop_last()) + player_events(s.last().0, s.last().1)
    }
}

/// The players that died, in order of observation.
pub open spec fn deaths_of(s: Seq<(Option<Player>, Player)>) -> Seq<Player>
    decreases s.len(),
{
    if s.len() == 0 {
        Seq::empty()
    } else {
        deaths_of(s.drop_last()) + if died(s.last().0, s.last().1) {
            seq![s.last().1]
        } else {
            Seq::empty()
        }
    }
}

/// The kills observed, in order of observation.
pub open spec fn kills_of(s: Seq<(Option<Player>, Player)>) -> Seq<KillRecord>
    decreases s.len(),
{
    if s.len() == 0 {
        Seq::empty()
    } else {
        kills_of(s.drop_last()) + match kill_of(s.last().0, s.last().1) {
            Some(k) => seq![k],
            None => Seq::empty(),
        }
    }
}

// ----------------------------------------------------------------- kill feed

/// One `KillFeed` per victim other than the killer, in order.
pub open spec fn feed_for(k: KillRecord, victims: Seq<Player>) -> Seq<GameEvent>
    decreases victims.len(),
{
    if victims.len() == 0 {
        Seq::empty()
    } else {
        feed_for(k, victims.drop_last()) + when(
            k.0.steamid@ != victims.last().steamid@,
            GameEvent::KillFeed(
                KillFeed { killer: k.0, victim: victims.last(), weapon: k.2, is_headshot: k.1 },
            ),
        )
    }
}

/// The kill feed: the first kill of the window paired with every death.
pub open spec fn killfeed(deaths: Seq<Player>, kills: Seq<KillRecord>) -> Seq<GameEvent> {
    if deaths.len() == 0 || kills.len() == 0 {
        Seq::empty()
    } else {
        feed_for(kills[0], deaths)
    }
}

// ----------------------------------------------------------------- all

/// The event that announces a new state.
pub open spec fn new_state_event(cur: GameState) -> GameEvent {
    GameEvent::NewGameState(Box::new(NewGameState { state: cur }))
}

/// Every event derived from `prev` and `cur`, in delivery order.
pub open spec fn diff(prev: Option<GameState>, cur: GameState) -> Seq<GameEvent> {
    let obs = observed_players(prev, cur);
    seq![new_state_event(cur)]
        + meta_events(prev, cur)
        + map_events(match prev { Some(p) => p.map, None => None }, cur.map)
        + round_events(match prev { Some(p) => p.round, None => None }, cur.round)
        + bomb_events(match prev { Some(p) => p.bomb, None => None }, cur.bomb)
        + events_of_players(obs)
        + killfeed(deaths_of(obs), kills_of(obs))
}

/// The value behind an optional reference.
pub open spec fn deref_opt<T>(o: Option<&T>) -> Option<T> {
    match o {
        Some(x) => Some(*x),
        None => None,
    }
}


// ----------------------------------------------------------------- laws

/// What an event promises about its payload: a `...Changed` / `...Updated`
/// event carries two different values, a death goes from some health to
/// zero, a respawn from zero to some health, damage lowers a positive
/// health, a kill raises the round-kill count, and a kill-feed entry never
/// pairs a player with themselves.
pub open spec fn real_change(e: GameEvent) -> bool {
    match e {
        GameEvent::ProviderUpdated(x) => !x.previous.same(&x.new),
        GameEvent::GamemodeChanged(x) => x.previous@ != x.new@,
        GameEvent::LevelChanged(x) => x.previous@ != x.new@,
        GameEvent::MapPhaseChanged(x) => x.previous != x.new,
        GameEvent::TeamScoreChanged(x) => x.previous != x.new,
        GameEvent::RoundPhaseUpdated(x) => x.previous != x.new,
        GameEvent::BombStateUpdated(x) => x.previous != x.new,
        GameEvent::PlayerUpdated(x) => match x.previous {
            Some(p) => !p.same(&x.player),
            None => true,
        },
        GameEvent::PlayerDied(x) => x.previous_health > 0 && x.new_health == 0,
        GameEvent::PlayerRespawned(x) => x.previous_health == 0 && x.new_health > 0,
        GameEvent::PlayerTookDamage(x) => 0 < x.new_health < x.previous_health,
        GameEvent::PlayerGotKill(x) => x.new_round_kills > x.previous_round_kills,
        GameEvent::PlayerHealthChanged(x) => x.previous != x.new,
        GameEvent::PlayerArmorChanged(x) => x.previous != x.new,
        GameEvent::PlayerHelmetChanged(x) => x.previous != x.new,
        GameEvent::PlayerFlashAmountChanged(x) => x.previous != x.new,
        GameEvent::PlayerSmokedAmountChanged(x) => x.previous != x.new,
        GameEvent::PlayerBurningAmountChanged(x) => x.previous != x.new,
        GameEvent::PlayerMoneyAmountChanged(x) => x.previous != x.new,
        GameEvent::PlayerEquipmentValueChanged(x) => x.previous != x.new,
        GameEvent::PlayerRoundKillsChanged(x) => x.previous != x.new,
        GameEvent::PlayerRoundHeadshotKillsChanged(x) => x.previous != x.new,
        GameEvent::PlayerRoundTotalDamageChanged(x) => x.previous != x.new,
        GameEvent::PlayerActivityChanged(x) => x.previous != x.new,
        GameEvent::PlayerTeamChanged(x) => x.previous != x.new,
        GameEvent::PlayerActiveWeaponChanged(x) => !x.previous.same(&x.new),
        GameEvent::PlayerStatsChanged(x) => x.previous != x.new,
        GameEvent::KillFeed(x) => x.killer.steamid@ != x.victim.steamid@,
        _ => true,
    }
}

/// Every event of the sequence keeps its promise.
pub open spec fn all_real(s: Seq<GameEvent>) -> bool {
    forall|i: int| 0 <= i < s.len() ==> real_change(#[trigger] s[i])
}

/// An event that keeps its promise (see [`real_change`]) and is not a
/// kill-feed entry: what every event before the kill feed is.
pub open spec fn plain_change(e: GameEvent) -> bool {
    real_change(e) && !(e is KillFeed) && carries_current(e)
}

/// A player event carries, as its new value, the value of the field in the
/// player snapshot it holds (which is the current one).
pub open spec fn carries_current(e: GameEvent) -> bool {
    match e {
        GameEvent::PlayerDied(x) => x.new_health == x.player.state.health,
        GameEvent::PlayerRespawned(x) => x.new_health == x.player.state.health,
        GameEvent::PlayerTookDamage(x) => x.new_health == x.player.state.health,
        GameEvent::PlayerGotKill(x) => x.new_round_kills == x.player.state.round_kills,
        GameEvent::PlayerHealthChanged(x) => x.new == x.player.state.health,
        GameEvent::PlayerArmorChanged(x) => x.new == x.player.state.armor,
        GameEvent::PlayerHelmetChanged(x) => x.new == x.player.state.helmet,
        GameEvent::PlayerFlashAmountChanged(x) => x.new == x.player.state.flashed,
        GameEvent::PlayerSmokedAmountChanged(x) => x.new == x.player.state.smoked,
        GameEvent::PlayerBurningAmountChanged(x) => x.new == x.player.state.burning,
        GameEvent::PlayerMoneyAmountChanged(x) => x.new == x.player.state.money,
        GameEvent::PlayerEquipmentValueChanged(x) => x.new == x.player.state.equip_value,
        GameEvent::PlayerRoundKillsChanged(x) => x.new == x.player.state.round_kills,
        GameEvent::PlayerRoundHeadshotKillsChanged(x) => x.new == x.player.state.round_killhs,
        GameEvent::PlayerRoundTotalDamageChanged(x) => x.new == x.player.state.round_totaldmg,
        GameEvent::PlayerActivityChanged(x) => x.new == x.player.activity,
        GameEvent::PlayerTeamChanged(x) => x.new == x.player.team,
        GameEvent::PlayerActiveWeaponChanged(x) => x.new == active_weapon(x.player),
        GameEvent::PlayerStatsChanged(x) => x.new == x.player.match_stats,
        _ => true,
    }
}

/// A lifecycle event of the root bomb.
pub open spec fn is_bomb_lifecycle(e: GameEvent) -> bool {
    ||| e is BombPlanting
    ||| e is BombPlanted
    ||| e is BombDefusing
    ||| e is BombDefused
    ||| e is BombExploded
    ||| e is BombDropped
    ||| e is BombPickedUp
}

/// No event of the sequence is a bomb lifecycle event.
pub open spec fn none_lifecycle(s: Seq<GameEvent>) -> bool {
    forall|i: int| 0 <= i < s.len() ==> !is_bomb_lifecycle(#[trigger] s[i])
}

/// No event of the sequence is a team score change.
pub open spec fn none_team_score(s: Seq<GameEvent>) -> bool {
    forall|i: int| 0 <= i < s.len() ==> !((#[trigger] s[i]) is TeamScoreChanged)
}

proof fn lemma_none_concat(a: Seq<GameEvent>, b: Seq<GameEvent>)
    ensures
        none_lifecycle(a) && none_lifecycle(b) ==> none_lifecycle(a + b),
        none_team_score(a) && none_team_score(b) ==> none_team_score(a + b),
{
    if none_lifecycle(a) && none_lifecycle(b) {
        assert forall|i: int| 0 <= i < (a + b).len() implies !is_bomb_lifecycle(#[trigger] (a + b)[i]) by {
            if i < a.len() {
                assert((a + b)[i] == a[i]);
            } else {
                assert((a + b)[i] == b[i - a.len()]);
            }
        }
    }
    if none_team_score(a) && none_team_score(b) {
        assert forall|i: int| 0 <= i < (a + b).len() implies !((#[trigger] (a + b)[i]) is TeamScoreChanged) by {
            if i < a.len() {
                assert((a + b)[i] == a[i]);
            } else {
                assert((a + b)[i] == b[i - a.len()]);
            }
        }
    }
}

/// An event about one player.
pub open spec fn is_player_event(e: GameEvent) -> bool {
    ||| e is PlayerUpdated
    ||| e is PlayerDied
    ||| e is PlayerRespawned
    ||| e is PlayerTookDamage
    ||| e is PlayerGotKill
    ||| e is PlayerHealthChanged
    ||| e is PlayerArmorChanged
    ||| e is PlayerHelmetChanged
    ||| e is PlayerFlashAmountChanged
    ||| e is PlayerSmokedAmountChanged
    ||| e is PlayerBurningAmountChanged
    ||| e is PlayerMoneyAmountChanged
    ||| e is PlayerEquipmentValueChanged
    ||| e is PlayerRoundKillsChanged
    ||| e is PlayerRoundHeadshotKillsChanged
    ||| e is PlayerRoundTotalDamageChanged
    ||| e is PlayerActivityChanged
    ||| e is PlayerTeamChanged
    ||| e is PlayerActiveWeaponChanged
    ||| e is PlayerStatsChanged
}

/// A plain change that is a player event.
pub open spec fn player_change(e: GameEvent) -> bool {
    plain_change(e) && is_player_event(e)
}

/// Every event of the sequence is a player event and a plain change.
pub open spec fn all_player(s: Seq<GameEvent>) -> bool {
    forall|i: int| 0 <= i < s.len() ==> player_change(#[trigger] s[i])
}

proof fn lemma_all_player_concat(a: Seq<GameEvent>, b: Seq<GameEvent>)
    requires
        all_player(a),
        all_player(b),
    ensures
        all_player(a + b),
{
    assert forall|i: int| 0 <= i < (a + b).len() implies player_change(#[trigger] (a + b)[i]) by {
        if i < a.len() {
            assert((a + b)[i] == a[i]);
        } else {
            assert((a + b)[i] == b[i - a.len()]);
        }
    }
}

proof fn lemma_player_parts(s: Seq<GameEvent>)
    requires
        all_player(s),
    ensures
        all_plain(s),
        none_lifecycle(s),
        none_team_score(s),
{
    assert forall|i: int| 0 <= i < s.len() implies plain_change(#[trigger] s[i]) by {
        assert(player_change(s[i]));
    }
    assert forall|i: int| 0 <= i < s.len() implies !is_bomb_lifecycle(#[trigger] s[i]) by {
        assert(player_change(s[i]));
    }
    assert forall|i: int| 0 <= i < s.len() implies !((#[trigger] s[i]) is TeamScoreChanged) by {
        assert(player_change(s[i]));
    }
}

/// Every event of the sequence is a plain change.
pub open spec fn all_plain(s: Seq<GameEvent>) -> bool {
    forall|i: int| 0 <= i < s.len() ==> plain_change(#[trigger] s[i])
}

proof fn lemma_all_plain_concat(a: Seq<GameEvent>, b: Seq<GameEvent>)
    requires
        all_plain(a),
        all_plain(b),
    ensures
        all_plain(a + b),
{
    assert forall|i: int| 0 <= i < (a + b).len() implies plain_change(#[trigger] (a + b)[i]) by {
        if i < a.len() {
            assert((a + b)[i] == a[i]);
        } else {
            assert((a + b)[i] == b[i - a.len()]);
        }
    }
}

proof fn lemma_plain_parts(s: Seq<GameEvent>)
    requires
        all_plain(s),
    ensures
        all_real(s),
        no_feed(s),
{
    assert forall|i: int| 0 <= i < s.len() implies real_change(#[trigger] s[i]) by {
        assert(plain_change(s[i]));
    }
    assert forall|i: int| 0 <= i < s.len() implies !((#[trigger] s[i]) is KillFeed) by {
        assert(plain_change(s[i]));
    }
}

/// The events that precede the players' events: the new state, then meta,
/// map, round and bomb changes.
pub open spec fn head_events(prev: Option<GameState>, cur: GameState) -> Seq<GameEvent> {
    seq![new_state_event(cur)]
        + meta_events(prev, cur)
        + map_events(match prev { Some(p) => p.map, None => None }, cur.map)
        + round_events(match prev { Some(p) => p.round, None => None }, cur.round)
        + bomb_events(match prev { Some(p) => p.bomb, None => None }, cur.bomb)
}

proof fn lemma_head_plain(prev: Option<GameState>, cur: GameState)
    ensures
        all_plain(head_events(prev, cur)),
{
    let a = seq![new_state_event(cur)];
    let m = meta_events(prev, cur);
    let mp = map_events(match prev { Some(p) => p.map, None => None }, cur.map);
    let rd = round_events(match prev { Some(p) => p.round, None => None }, cur.round);
    let bm = bomb_events(match prev { Some(p) => p.bomb, None => None }, cur.bomb);
    assert(all_plain(a));
    lemma_meta_plain(prev, cur);
    lemma_map_plain(match prev { Some(p) => p.map, None => None }, cur.map);
    lemma_round_plain(match prev { Some(p) => p.round, None => None }, cur.round);
    lemma_bomb_plain(match prev { Some(p) => p.bomb, None => None }, cur.bomb);
    lemma_all_plain_concat(a, m);
    lemma_all_plain_concat(a + m, mp);
    lemma_all_plain_concat(a + m + mp, rd);
    lemma_all_plain_concat(a + m + mp + rd, bm);
}

proof fn lemma_vital_player(p: Player, c: Player)
    requires
        !p.same(&c),
    ensures
        all_player(vital_events(p, c)),
{
    let h = health_events(p, c);
    assert(all_player(h));
    let v = vital_events(p, c);
    let ps = p.state;
    let cs = c.state;
    let mut acc = seq![GameEvent::PlayerUpdated(PlayerUpdated { player: c, previous: Some(p) })];
    assert(all_player(acc));
    lemma_all_player_concat(acc, h);
    acc = acc + h;
    let parts = seq![
        when(ps.armor != cs.armor, GameEvent::PlayerArmorChanged(PlayerArmorChanged { player: c, previous: ps.armor, new: cs.armor })),
        when(ps.helmet != cs.helmet, GameEvent::PlayerHelmetChanged(PlayerHelmetChanged { player: c, previous: ps.helmet, new: cs.helmet })),
        when(ps.flashed != cs.flashed, GameEvent::PlayerFlashAmountChanged(PlayerFlashAmountChanged { player: c, previous: ps.flashed, new: cs.flashed })),
        when(ps.smoked != cs.smoked, GameEvent::PlayerSmokedAmountChanged(PlayerSmokedAmountChanged { player: c, previous: ps.smoked, new: cs.smoked })),
        when(ps.burning != cs.burning, GameEvent::PlayerBurningAmountChanged(PlayerBurningAmountChanged { player: c, previous: ps.burning, new: cs.burning })),
        when(ps.money != cs.money, GameEvent::PlayerMoneyAmountChanged(PlayerMoneyAmountChanged { player: c, previous: ps.money, new: cs.money })),
        when(ps.equip_value != cs.equip_value, GameEvent::PlayerEquipmentValueChanged(PlayerEquipmentValueChanged { player: c, previous: ps.equip_value, new: cs.equip_value })),
    ];
    assert forall|j: int| 0 <= j < parts.len() implies all_player(#[trigger] parts[j]) by {}
    lemma_all_player_concat(acc, parts[0]); acc = acc + parts[0];
    lemma_all_player_concat(acc, parts[1]); acc = acc + parts[1];
    lemma_all_player_concat(acc, parts[2]); acc = acc + parts[2];
    lemma_all_player_concat(acc, parts[3]); acc = acc + parts[3];
    lemma_all_player_concat(acc, parts[4]); acc = acc + parts[4];
    lemma_all_player_concat(acc, parts[5]); acc = acc + parts[5];
    lemma_all_player_concat(acc, parts[6]); acc = acc + parts[6];
    assert(acc == v);
}

proof fn lemma_changed_player_player(p: Player, c: Player)
    requires
        !p.same(&c),
    ensures
        all_player(changed_player_events(p, c)),
{
    let h = health_events(p, c);
    let k = kill_events(p, c);
    assert(all_player(h));
    assert(all_player(k));
    let v = vital_events(p, c);
    lemma_vital_player(p, c);
    let r = round_stat_events(p, c);
    assert(all_player(r)) by {
        let ps = p.state;
        let cs = c.state;
        let a = when(ps.round_killhs != cs.round_killhs, GameEvent::PlayerRoundHeadshotKillsChanged(PlayerRoundHeadshotKillsChanged { player: c, previous: ps.round_killhs, new: cs.round_killhs }));
        let b = when(ps.round_totaldmg != cs.round_totaldmg, GameEvent::PlayerRoundTotalDamageChanged(PlayerRoundTotalDamageChanged { player: c, previous: ps.round_totaldmg, new: cs.round_totaldmg }));
        assert(all_player(a));
        assert(all_player(b));
        lemma_all_player_concat(k, a);
        lemma_all_player_concat(k + a, b);
    }
    let st = status_events(p, c);
    assert(all_player(st)) by {
        let a = when(p.activity != c.activity, GameEvent::PlayerActivityChanged(PlayerActivityChanged { player: c, previous: p.activity, new: c.activity }));
        let b = when(p.team != c.team, GameEvent::PlayerTeamChanged(PlayerTeamChanged { player: c, previous: p.team, new: c.team }));
        let w = when(!active_weapon(p).same(&active_weapon(c)), GameEvent::PlayerActiveWeaponChanged(PlayerActiveWeaponChanged { player: c, previous: active_weapon(p), new: active_weapon(c) }));
        let m = when(p.match_stats != c.match_stats, GameEvent::PlayerStatsChanged(PlayerStatsChanged { player: c, previous: p.match_stats, new: c.match_stats }));
        assert(all_player(a));
        assert(all_player(b));
        assert(all_player(w));
        assert(all_player(m));
        lemma_all_player_concat(a, b);
        lemma_all_player_concat(a + b, w);
        lemma_all_player_concat(a + b + w, m);
    }
    lemma_all_player_concat(v, r);
    lemma_all_player_concat(v + r, st);
}

proof fn lemma_players_player(s: Seq<(Option<Player>, Player)>)
    ensures
        all_player(events_of_players(s)),
    decreases s.len(),
{
    if s.len() > 0 {
        lemma_players_player(s.drop_last());
        let (p, c) = s.last();
        match p {
            Some(pp) => {
                if !pp.same(&c) {
                    lemma_changed_player_player(pp, c);
                }
            },
            None => {},
        }
        lemma_all_player_concat(events_of_players(s.drop_last()), player_events(p, c));
    }
}

proof fn lemma_map_plain(prev: Option<MapState>, cur: Option<MapState>)
    ensures
        all_plain(map_events(prev, cur)),
{
    match (prev, cur) {
        (Some(p), Some(c)) => {
            if !p.same(&c) {
                let ph = map_phase_events(p, c);
                assert(all_plain(ph));
                let e0 = seq![GameEvent::MapUpdated(MapUpdated)];
                let e1 = when(p.mode@ != c.mode@, GameEvent::GamemodeChanged(GamemodeChanged { previous: p.mode, new: c.mode }));
                let e2 = when(p.name@ != c.name@, GameEvent::LevelChanged(LevelChanged { previous: p.name, new: c.name }));
                let e4 = when(p.team_ct.score != c.team_ct.score, GameEvent::TeamScoreChanged(TeamScoreChanged { team: PlayerTeam::CT, previous: p.team_ct.score, new: c.team_ct.score }));
                let e5 = when(p.team_t.score != c.team_t.score, GameEvent::TeamScoreChanged(TeamScoreChanged { team: PlayerTeam::T, previous: p.team_t.score, new: c.team_t.score }));
                assert(all_plain(e0));
                assert(all_plain(e1));
                assert(all_plain(e2));
                assert(all_plain(e4));
                assert(all_plain(e5));
                lemma_all_plain_concat(e0, e1);
                lemma_all_plain_concat(e0 + e1, e2);
                lemma_all_plain_concat(e0 + e1 + e2, ph);
                lemma_all_plain_concat(e0 + e1 + e2 + ph, e4);
                lemma_all_plain_concat(e0 + e1 + e2 + ph + e4, e5);
            }
        },
        _ => {},
    }
}

proof fn lemma_round_plain(prev: Option<Round>, cur: Option<Round>)
    ensures
        all_plain(round_events(prev, cur)),
{
    match (prev, cur) {
        (Some(p), Some(c)) => {
            if p != c {
                let ph = round_phase_events(p, c);
                assert(all_plain(ph));
                let e0 = seq![GameEvent::RoundUpdated(RoundUpdated { previous_phase: p.phase, new_phase: c.phase })];
                let e2 = when(p.bomb != c.bomb, GameEvent::BombStateUpdated(BombStateUpdated { previous: p.bomb, new: c.bomb }));
                assert(all_plain(e0));
                assert(all_plain(e2));
                lemma_all_plain_concat(e0, ph);
                lemma_all_plain_concat(e0 + ph, e2);
            }
        },
        _ => {},
    }
}

proof fn lemma_bomb_plain(prev: Option<Bomb>, cur: Option<Bomb>)
    ensures
        all_plain(bomb_events(prev, cur)),
{
    match (prev, cur) {
        (Some(p), Some(c)) => {
            if !p.same(&c) {
                let ph = bomb_state_events(p.state, c.state);
                assert(all_plain(ph));
                let e0 = seq![GameEvent::BombUpdated(BombUpdated)];
                assert(all_plain(e0));
                lemma_all_plain_concat(e0, ph);
            }
        },
        _ => {},
    }
}

proof fn lemma_meta_plain(prev: Option<GameState>, cur: GameState)
    ensures
        all_plain(meta_events(prev, cur)),
{
    match prev {
        Some(p) => {
            let a = when(!p.auth.same(&cur.auth), GameEvent::AuthUpdated(AuthUpdated));
            let b = when(!p.provider.same(&cur.provider), GameEvent::ProviderUpdated(ProviderUpdated { previous: p.provider, new: cur.provider }));
            assert(all_plain(a));
            assert(all_plain(b));
            lemma_all_plain_concat(a, b);
        },
        None => {},
    }
}

proof fn lemma_all_real_concat(a: Seq<GameEvent>, b: Seq<GameEvent>)
    requires
        all_real(a),
        all_real(b),
    ensures
        all_real(a + b),
{
    assert forall|i: int| 0 <= i < (a + b).len() implies real_change(#[trigger] (a + b)[i]) by {
        if i < a.len() {
            assert((a + b)[i] == a[i]);
        } else {
            assert((a + b)[i] == b[i - a.len()]);
        }
    }
}

proof fn lemma_feed_real(k: KillRecord, victims: Seq<Player>)
    ensures
        all_real(feed_for(k, victims)),
    decreases victims.len(),
{
    if victims.len() > 0 {
        lemma_feed_real(k, victims.drop_last());
        let e = GameEvent::KillFeed(KillFeed { killer: k.0, victim: victims.last(), weapon: k.2, is_headshot: k.1 });
        let w = when(k.0.steamid@ != victims.last().steamid@, e);
        assert(all_real(w));
        lemma_all_real_concat(feed_for(k, victims.drop_last()), w);
    }
}

proof fn lemma_killfeed_real(deaths: Seq<Player>, kills: Seq<KillRecord>)
    ensures
        all_real(killfeed(deaths, kills)),
{
    if deaths.len() > 0 && kills.len() > 0 {
        lemma_feed_real(kills[0], deaths);
    }
}

/// Every derived event describes a real change: `...Changed` and
/// `...Updated` events carry two different values, `PlayerDied` goes to
/// zero health from above zero, `PlayerRespawned` from zero to above zero,
/// `PlayerTookDamage` lowers a positive health, `PlayerGotKill` raises the
/// round-kill count, and a `KillFeed` entry never has a player kill
/// themselves.
pub proof fn lemma_events_are_real_changes(prev: Option<GameState>, cur: GameState)
    ensures
        all_real(diff(prev, cur)),
{
    let obs = observed_players(prev, cur);
    let head = head_events(prev, cur);
    let pe = events_of_players(obs);
    let kf = killfeed(deaths_of(obs), kills_of(obs));
    lemma_head_plain(prev, cur);
    lemma_players_player(obs);
    lemma_player_parts(events_of_players(obs));
    lemma_all_plain_concat(head, pe);
    lemma_plain_parts(head + pe);
    lemma_killfeed_real(deaths_of(obs), kills_of(obs));
    lemma_all_real_concat(head + pe, kf);
    assert(diff(prev, cur) == head + pe + kf);
}

// ------------------------------------------------------- kill feed pairing

/// No event of the sequence is a kill-feed entry.
pub open spec fn no_feed(s: Seq<GameEvent>) -> bool {
    forall|i: int| 0 <= i < s.len() ==> !((#[trigger] s[i]) is KillFeed)
}

/// `e` announces the death of `p`.
pub open spec fn announces_death_of(e: GameEvent, p: Player) -> bool {
    e matches GameEvent::PlayerDied(x) && x.player == p
}

/// `e` announces a kill by `p`, as a headshot or not, with weapon `w`.
pub open spec fn announces_kill_by(e: GameEvent, p: Player, headshot: bool, w: Option<String>) -> bool {
    e matches GameEvent::PlayerGotKill(x) && x.player == p && x.is_headshot == headshot && x.weapon == w
}

proof fn lemma_died_event(pp: Player, c: Player)
    requires
        died(Some(pp), c),
    ensures
        player_events(Some(pp), c).len() > 2,
        announces_death_of(player_events(Some(pp), c)[2], c),
{
    let h = health_events(pp, c);
    assert(h[1] == GameEvent::PlayerDied(PlayerDied { player: c, previous_health: pp.state.health, new_health: c.state.health }));
    assert(h.len() == 2);
    let v = vital_events(pp, c);
    assert(v[2] == h[1]);
    assert(changed_player_events(pp, c)[2] == v[2]);
}

proof fn lemma_kill_event(pp: Player, c: Player)
    requires
        kill_of(Some(pp), c) is Some,
    ensures
        exists|j: int| 0 <= j < player_events(Some(pp), c).len() && announces_kill_by(
            #[trigger] player_events(Some(pp), c)[j],
            (kill_of(Some(pp), c)->0).0,
            (kill_of(Some(pp), c)->0).1,
            (kill_of(Some(pp), c)->0).2,
        ),
{
    let v = vital_events(pp, c);
    let r = round_stat_events(pp, c);
    let kv = kill_events(pp, c);
    assert(kv[1] == GameEvent::PlayerGotKill(PlayerGotKill {
        player: c,
        previous_round_kills: pp.state.round_kills,
        new_round_kills: c.state.round_kills,
        is_headshot: c.state.round_killhs > pp.state.round_killhs,
        weapon: active_weapon(c),
    }));
    assert(r[1] == kv[1]);
    let ch = changed_player_events(pp, c);
    assert(ch[v.len() + 1int] == r[1]);
    assert(player_events(Some(pp), c)[v.len() + 1int] == r[1]);
}

/// `events` announce the death of `p`.
spec fn death_announced(events: Seq<GameEvent>, p: Player) -> bool {
    exists|j: int| 0 <= j < events.len() && announces_death_of(#[trigger] events[j], p)
}

/// Every player of `deaths` has its death announced in `events`.
spec fn deaths_announced_in(deaths: Seq<Player>, events: Seq<GameEvent>) -> bool {
    forall|t: int| 0 <= t < deaths.len() ==> #[trigger] death_announced(events, deaths[t])
}

proof fn lemma_deaths_announced(s: Seq<(Option<Player>, Player)>)
    ensures
        deaths_announced_in(deaths_of(s), events_of_players(s)),
    decreases s.len(),
{
    if s.len() > 0 {
        let t0 = s.drop_last();
        lemma_deaths_announced(t0);
        let p = s.last().0;
        let c = s.last().1;
        let before = events_of_players(t0);
        let pe = player_events(p, c);
        let ev = events_of_players(s);
        assert(ev == before + pe);
        let ds = deaths_of(s);
        let d0 = deaths_of(t0);
        if died(p, c) {
            lemma_died_event(p->0, c);
            assert(ds == d0 + seq![c]);
        } else {
            assert(ds == d0 + Seq::<Player>::empty());
        }
        assert forall|t: int| 0 <= t < ds.len() implies #[trigger] death_announced(ev, ds[t]) by {
            if t < d0.len() {
                assert(ds[t] == d0[t]);
                assert(death_announced(before, d0[t]));
                let j = choose|j: int| 0 <= j < before.len() && announces_death_of(#[trigger] before[j], d0[t]);
                assert(ev[j] == before[j]);
                assert(announces_death_of(ev[j], ds[t]));
            } else {
                assert(ds[t] == c);
                assert(ev[before.len() + 2int] == pe[2]);
                assert(announces_death_of(ev[before.len() + 2int], ds[t]));
            }
        }
    }
}

proof fn lemma_first_kill_announced(s: Seq<(Option<Player>, Player)>)
    ensures
        kills_of(s).len() > 0 ==> exists|j: int|
            0 <= j < events_of_players(s).len()
                && announces_kill_by(#[trigger] events_of_players(s)[j], kills_of(s)[0].0, kills_of(s)[0].1, kills_of(s)[0].2),
    decreases s.len(),
{
    if s.len() > 0 {
        let t0 = s.drop_last();
        lemma_first_kill_announced(t0);
        let p = s.last().0;
        let c = s.last().1;
        let before = events_of_players(t0);
        let pe = player_events(p, c);
        let ev = events_of_players(s);
        assert(ev == before + pe);
        let ks = kills_of(s);
        let k0 = kills_of(t0);
        if ks.len() > 0 {
            if k0.len() > 0 {
                assert(ks[0] == k0[0]);
                let j = choose|j: int| 0 <= j < before.len()
                    && announces_kill_by(#[trigger] before[j], k0[0].0, k0[0].1, k0[0].2);
                assert(ev[j] == before[j]);
            } else {
                assert(kill_of(p, c) is Some);
                assert(ks[0] == kill_of(p, c)->0);
                lemma_kill_event(p->0, c);
                let j = choose|j: int| 0 <= j < pe.len() && announces_kill_by(
                    #[trigger] pe[j], ks[0].0, ks[0].1, ks[0].2);
                assert(ev[before.len() + j] == pe[j]);
            }
        }
    }
}

proof fn lemma_feed_pairs(k: KillRecord, victims: Seq<Player>)
    ensures
        forall|i: int| 0 <= i < feed_for(k, victims).len() ==> {
            &&& (#[trigger] feed_for(k, victims)[i]) is KillFeed
            &&& feed_for(k, victims)[i]->KillFeed_0.killer == k.0
            &&& feed_for(k, victims)[i]->KillFeed_0.is_headshot == k.1
            &&& feed_for(k, victims)[i]->KillFeed_0.weapon == k.2
            &&& victims.contains(feed_for(k, victims)[i]->KillFeed_0.victim)
        },
    decreases victims.len(),
{
    if victims.len() > 0 {
        let vs = victims.drop_last();
        lemma_feed_pairs(k, vs);
        let f0 = feed_for(k, vs);
        let f = feed_for(k, victims);
        assert forall|i: int| 0 <= i < f.len() implies {
            &&& (#[trigger] f[i]) is KillFeed
            &&& f[i]->KillFeed_0.killer == k.0
            &&& f[i]->KillFeed_0.is_headshot == k.1
            &&& f[i]->KillFeed_0.weapon == k.2
            &&& victims.contains(f[i]->KillFeed_0.victim)
        } by {
            if i < f0.len() {
                assert(f[i] == f0[i]);
                let t = choose|t: int| 0 <= t < vs.len() && vs[t] == f0[i]->KillFeed_0.victim;
                assert(victims[t] == vs[t]);
            } else {
                assert(f[i]->KillFeed_0.victim == victims[victims.len() - 1]);
            }
        }
    }
}

/// Every kill-feed entry pairs a kill with a death of the same diff window:
/// the window also announces the victim's death (`PlayerDied`) and the
/// killer's kill (`PlayerGotKill`, with the same headshot flag and weapon),
/// and the killer is never the victim.
pub proof fn lemma_killfeed_pairs_kill_with_death(prev: Option<GameState>, cur: GameState)
    ensures
        forall|i: int| 0 <= i < diff(prev, cur).len() && (#[trigger] diff(prev, cur)[i]) is KillFeed ==> {
            let x = diff(prev, cur)[i]->KillFeed_0;
            &&& x.killer.steamid@ != x.victim.steamid@
            &&& exists|j: int| 0 <= j < diff(prev, cur).len() && announces_death_of(#[trigger] diff(prev, cur)[j], x.victim)
            &&& exists|m: int| 0 <= m < diff(prev, cur).len()
                && announces_kill_by(#[trigger] diff(prev, cur)[m], x.killer, x.is_headshot, x.weapon)
        },
{
    let obs = observed_players(prev, cur);
    let head = head_events(prev, cur);
    let pe = events_of_players(obs);
    let kf = killfeed(deaths_of(obs), kills_of(obs));
    lemma_head_plain(prev, cur);
    lemma_plain_parts(head);
    lemma_players_player(obs);
    lemma_player_parts(events_of_players(obs));
    lemma_plain_parts(pe);
    let d = diff(prev, cur);
    assert(d == head + pe + kf);
    lemma_events_are_real_changes(prev, cur);
    lemma_deaths_announced(obs);
    lemma_first_kill_announced(obs);
    let ds = deaths_of(obs);
    let ks = kills_of(obs);
    if ds.len() > 0 && ks.len() > 0 {
        lemma_feed_pairs(ks[0], ds);
    }
    assert forall|i: int| 0 <= i < d.len() && (#[trigger] d[i]) is KillFeed implies {
        let x = d[i]->KillFeed_0;
        &&& x.killer.steamid@ != x.victim.steamid@
        &&& exists|j: int| 0 <= j < d.len() && announces_death_of(#[trigger] d[j], x.victim)
        &&& exists|m: int| 0 <= m < d.len() && announces_kill_by(#[trigger] d[m], x.killer, x.is_headshot, x.weapon)
    } by {
        assert(real_change(d[i]));
        if i < head.len() {
            assert(d[i] == head[i]);
        } else if i < head.len() + pe.len() {
            assert(d[i] == pe[i - head.len()]);
        } else {
            let fi = i - head.len() - pe.len();
            assert(d[i] == kf[fi]);
            assert(ds.len() > 0 && ks.len() > 0);
            let x = d[i]->KillFeed_0;
            let t = choose|t: int| 0 <= t < ds.len() && ds[t] == x.victim;
            assert(death_announced(pe, ds[t]));
            let j = choose|j: int| 0 <= j < pe.len() && announces_death_of(#[trigger] pe[j], ds[t]);
            assert(d[head.len() + j] == pe[j]);
            assert(announces_death_of(d[head.len() + j], x.victim));
            let mm = choose|mm: int| 0 <= mm < pe.len() && announces_kill_by(#[trigger] pe[mm], ks[0].0, ks[0].1, ks[0].2);
            assert(d[head.len() + mm] == pe[mm]);
            assert(announces_kill_by(d[head.len() + mm], x.killer, x.is_headshot, x.weapon));
        }
    }
}

proof fn lemma_first_players(s: Seq<(Option<Player>, Player)>)
    requires
        forall|i: int| 0 <= i < s.len() ==> (#[trigger] s[i]).0 is None,
    ensures
        events_of_players(s).len() == s.len(),
        forall|i: int| 0 <= i < s.len() ==> events_of_players(s)[i]
            == GameEvent::PlayerUpdated(PlayerUpdated { player: s[i].1, previous: None }),
        deaths_of(s).len() == 0,
        kills_of(s).len() == 0,
    decreases s.len(),
{
    if s.len() > 0 {
        let t = s.drop_last();
        assert forall|i: int| 0 <= i < t.len() implies (#[trigger] t[i]).0 is None by {
            assert(t[i] == s[i]);
        }
        lemma_first_players(t);
        assert(s.last() == s[s.len() - 1]);
        assert forall|i: int| 0 <= i < s.len() implies events_of_players(s)[i]
            == GameEvent::PlayerUpdated(PlayerUpdated { player: s[i].1, previous: None }) by {
            if i < s.len() - 1 {
                assert(t[i] == s[i]);
            }
        }
    }
}

/// On the very first payload (no previous state) the only events are the
/// new state, then one `PlayerUpdated` without a previous snapshot for every
/// observed player, in observation order; nothing else fires.
pub proof fn lemma_first_payload_only_announces(cur: GameState)
    ensures
        diff(None, cur).len() == 1 + observed_players(None, cur).len(),
        diff(None, cur)[0] == new_state_event(cur),
        forall|i: int| 1 <= i < diff(None, cur).len() ==> diff(None, cur)[i]
            == GameEvent::PlayerUpdated(
            PlayerUpdated { player: observed_players(None, cur)[i - 1].1, previous: None },
        ),
{
    let obs = observed_players(None, cur);
    assert forall|i: int| 0 <= i < obs.len() implies (#[trigger] obs[i]).0 is None by {
        match cur.player {
            Some(c) => {
                if i > 0 {
                    assert(obs[i].0 == previous_of(None, cur.allplayers.pairs()[i - 1].0@));
                }
            },
            None => {
                assert(obs[i].0 == previous_of(None, cur.allplayers.pairs()[i].0@));
            },
        }
    }
    lemma_first_players(obs);
    assert(diff(None, cur) =~= seq![new_state_event(cur)] + events_of_players(obs));
}

proof fn lemma_unchanged_players(s: Seq<(Option<Player>, Player)>)
    requires
        forall|i: int| 0 <= i < s.len() ==> (#[trigger] s[i]).0 == Some(s[i].1),
    ensures
        events_of_players(s).len() == 0,
        deaths_of(s).len() == 0,
        kills_of(s).len() == 0,
    decreases s.len(),
{
    if s.len() > 0 {
        let t = s.drop_last();
        assert forall|i: int| 0 <= i < t.len() implies (#[trigger] t[i]).0 == Some(t[i].1) by {
            assert(t[i] == s[i]);
        }
        lemma_unchanged_players(t);
        let c = s.last().1;
        assert(s.last() == s[s.len() - 1]);
        c.lemma_same_reflexive();
    }
}

/// Diffing a state against itself fires nothing but the new-state
/// announcement. (This needs the state to hold no not-a-number reading,
/// since such a reading differs from itself and makes its block count as
/// changed.)
pub proof fn lemma_unchanged_state_only_announces(s: GameState)
    requires
        s.no_nan(),
        strictly_sorted(keys_of(s.allplayers.pairs())),
    ensures
        diff(Some(s), s) == seq![new_state_event(s)],
{
    s.auth.lemma_same_reflexive();
    s.provider.lemma_same_reflexive();
    s.map.lemma_same_reflexive();
    s.bomb.lemma_same_reflexive();
    let obs = observed_players(Some(s), s);
    let pairs = s.allplayers.pairs();
    assert forall|i: int| 0 <= i < obs.len() implies (#[trigger] obs[i]).0 == Some(obs[i].1) by {
        match s.player {
            Some(c) => {
                if i > 0 {
                    assert(obs[i] == (previous_of(Some(s), pairs[i - 1].0@), pairs[i - 1].1));
                    lemma_lookup_present(pairs, i - 1);
                }
            },
            None => {
                assert(obs[i] == (previous_of(Some(s), pairs[i].0@), pairs[i].1));
                lemma_lookup_present(pairs, i);
            },
        }
    }
    lemma_unchanged_players(obs);
    assert(meta_events(Some(s), s) =~= Seq::<GameEvent>::empty());
    assert(diff(Some(s), s) =~= seq![new_state_event(s)]);
}

/// The new state is always announced first.
pub proof fn lemma_new_state_comes_first(prev: Option<GameState>, cur: GameState)
    ensures
        diff(prev, cur).len() >= 1,
        diff(prev, cur)[0] == new_state_event(cur),
{
}

// ----------------------------------------------------------------- exec

proof fn lemma_when_push(acc: Seq<GameEvent>, b: bool, e: GameEvent)
    ensures
        b ==> acc + when(b, e) == acc.push(e),
        !b ==> acc + when(b, e) == acc,
{
    if b {
        assert(acc + when(b, e) =~= acc.push(e));
    } else {
        assert(acc + when(b, e) =~= acc);
    }
}

fn meta_diff(prev: Option<&GameState>, cur: &GameState) -> (r: Vec<GameEvent>)
    ensures
        r@ == meta_events(deref_opt(prev), *cur),
{
    let mut out: Vec<GameEvent> = Vec::new();
    if let Some(p) = prev {
        let auth_changed = !p.auth.same_as(&cur.auth);
        if auth_changed {
            out.push(GameEvent::AuthUpdated(AuthUpdated));
        }
        let ghost a = Seq::<GameEvent>::empty();
        proof {
            lemma_when_push(a, auth_changed, GameEvent::AuthUpdated(AuthUpdated));
        }
        let provider_changed = !p.provider.same_as(&cur.provider);
        let ghost e = GameEvent::ProviderUpdated(ProviderUpdated { previous: p.provider, new: cur.provider });
        if provider_changed {
            out.push(GameEvent::ProviderUpdated(ProviderUpdated {
                previous: p.provider.snapshot(),
                new: cur.provider.snapshot(),
            }));
        }
        proof {
            lemma_when_push(a + when(auth_changed, GameEvent::AuthUpdated(AuthUpdated)), provider_changed, e);
            assert(out@ =~= meta_events(deref_opt(prev), *cur));
        }
    }
    out
}

fn diff_map(prev: Option<&MapState>, cur: Option<&MapState>) -> (r: Vec<GameEvent>)
    ensures
        r@ == map_events(deref_opt(prev), deref_opt(cur)),
{
    let mut out: Vec<GameEvent> = Vec::new();
    let c = match cur {
        Some(m) => m,
        None => return out,
    };
    let p = match prev {
        Some(m) => m,
        None => return out,
    };
    if p.same_as(c) {
        return out;
    }
    out.push(GameEvent::MapUpdated(MapUpdated));
    let ghost acc = seq![GameEvent::MapUpdated(MapUpdated)];
    assert(out@ =~= acc);

    let b = p.mode != c.mode;
    let ghost e = GameEvent::GamemodeChanged(GamemodeChanged { previous: p.mode, new: c.mode });
    if b {
        out.push(GameEvent::GamemodeChanged(GamemodeChanged { previous: p.mode.clone(), new: c.mode.clone() }));
    }
    proof { lemma_when_push(acc, b, e); acc = acc + when(b, e); }

    let b = p.name != c.name;
    let ghost e = GameEvent::LevelChanged(LevelChanged { previous: p.name, new: c.name });
    if b {
        out.push(GameEvent::LevelChanged(LevelChanged { previous: p.name.clone(), new: c.name.clone() }));
    }
    proof { lemma_when_push(acc, b, e); acc = acc + when(b, e); }

    let ghost before_phase = acc;
    if p.phase != c.phase {
        out.push(GameEvent::MapPhaseChanged(MapPhaseChanged { previous: p.phase, new: c.phase }));
        let ghost mid = seq![GameEvent::MapPhaseChanged(MapPhaseChanged { previous: p.phase, new: c.phase })];
        let b = p.phase == MapPhase::Warmup && c.phase == MapPhase::Live;
        if b {
            out.push(GameEvent::MatchStarted(MatchStarted));
        }
        proof {
            lemma_when_push(before_phase + mid, b, GameEvent::MatchStarted(MatchStarted));
            mid = mid + when(b, GameEvent::MatchStarted(MatchStarted));
            assert(out@ =~= before_phase + mid);
        }
        let b = c.phase == MapPhase::Gameover;
        if b {
            out.push(GameEvent::GameOver(GameOver));
        }
        proof {
            lemma_when_push(before_phase + mid, b, GameEvent::GameOver(GameOver));
            mid = mid + when(b, GameEvent::GameOver(GameOver));
            assert(mid == map_phase_events(*p, *c));
            assert(out@ =~= before_phase + mid);
        }
    }
    proof {
        acc = acc + map_phase_events(*p, *c);
        assert(out@ =~= acc);
    }

    let b = p.team_ct.score != c.team_ct.score;
    let ghost e = GameEvent::TeamScoreChanged(TeamScoreChanged { team: PlayerTeam::CT, previous: p.team_ct.score, new: c.team_ct.score });
    if b {
        out.push(GameEvent::TeamScoreChanged(TeamScoreChanged { team: PlayerTeam::CT, previous: p.team_ct.score, new: c.team_ct.score }));
    }
    proof { lemma_when_push(acc, b, e); acc = acc + when(b, e); }

    let b = p.team_t.score != c.team_t.score;
    let ghost e = GameEvent::TeamScoreChanged(TeamScoreChanged { team: PlayerTeam::T, previous: p.team_t.score, new: c.team_t.score });
    if b {
        out.push(GameEvent::TeamScoreChanged(TeamScoreChanged { team: PlayerTeam::T, previous: p.team_t.score, new: c.team_t.score }));
    }
    proof {
        lemma_when_push(acc, b, e);
        acc = acc + when(b, e);
        assert(acc == map_events(deref_opt(prev), deref_opt(cur)));
    }
    out
}

fn diff_round(prev: Option<&Round>, cur: Option<&Round>) -> (r: Vec<GameEvent>)
    ensures
        r@ == round_events(deref_opt(prev), deref_opt(cur)),
{
    let mut out: Vec<GameEvent> = Vec::new();
    let c = match cur {
        Some(r) => r,
        None => return out,
    };
    let p = match prev {
        Some(r) => r,
        None => return out,
    };
    if *p == *c {
        return out;
    }
    out.push(GameEvent::RoundUpdated(RoundUpdated { previous_phase: p.phase, new_phase: c.phase }));
    if p.phase != c.phase {
        out.push(GameEvent::RoundPhaseUpdated(RoundPhaseUpdated { previous: p.phase, new: c.phase }));
        match c.phase {
            RoundPhase::Live => {
                out.push(GameEvent::RoundStarted(RoundStarted));
                out.push(GameEvent::FreezetimeOver(FreezetimeOver));
            },
            RoundPhase::Freezetime => {
                out.push(GameEvent::FreezetimeStarted(FreezetimeStarted));
            },
            RoundPhase::Over => {
                out.push(GameEvent::RoundConcluded(RoundConcluded { winning_team: c.win_team }));
            },
            RoundPhase::Unknown => {},
        }
    }
    let ghost mid = seq![GameEvent::RoundUpdated(RoundUpdated { previous_phase: p.phase, new_phase: c.phase })]
        + round_phase_events(*p, *c);
    assert(out@ =~= mid);
    let b = p.bomb != c.bomb;
    if b {
        out.push(GameEvent::BombStateUpdated(BombStateUpdated { previous: p.bomb, new: c.bomb }));
    }
    proof {
        lemma_when_push(mid, b, GameEvent::BombStateUpdated(BombStateUpdated { previous: p.bomb, new: c.bomb }));
    }
    out
}

fn diff_bomb(prev: Option<&Bomb>, cur: Option<&Bomb>) -> (r: Vec<GameEvent>)
    ensures
        r@ == bomb_events(deref_opt(prev), deref_opt(cur)),
{
    let mut out: Vec<GameEvent> = Vec::new();
    let c = match cur {
        Some(b) => b,
        None => return out,
    };
    let p = match prev {
        Some(b) => b,
        None => return out,
    };
    if p.same_as(c) {
        return out;
    }
    out.push(GameEvent::BombUpdated(BombUpdated));
    if p.state != c.state {
        match c.state {
            BombState::Planting => out.push(GameEvent::BombPlanting(BombPlanting)),
            BombState::Planted => out.push(GameEvent::BombPlanted(BombPlanted)),
            BombState::Defusing => out.push(GameEvent::BombDefusing(BombDefusing)),
            BombState::Defused => out.push(GameEvent::BombDefused(BombDefused)),
            BombState::Exploded => out.push(GameEvent::BombExploded(BombExploded)),
            BombState::Dropped => out.push(GameEvent::BombDropped(BombDropped)),
            BombState::Carried => {
                if p.state == BombState::Dropped || p.state == BombState::Unknown {
                    out.push(GameEvent::BombPickedUp(BombPickedUp));
                }
            },
            BombState::Unknown => {},
        }
    }
    assert(out@ =~= seq![GameEvent::BombUpdated(BombUpdated)] + bomb_state_events(p.state, c.state));
    out
}


proof fn lemma_first_active_skip(p: Seq<(String, Weapon)>, i: int)
    requires
        0 <= i < p.len(),
        p[i].1.state != WeaponState::Active,
    ensures
        first_active(p.skip(i)) == first_active(p.skip(i + 1)),
{
    assert(p.skip(i).drop_first() =~= p.skip(i + 1));
}

/// The name of the player's active weapon, if any.
pub fn active_weapon_name(p: &Player) -> (r: Option<String>)
    ensures
        r == active_weapon(*p),
{
    let ws = p.weapons.entries();
    let ghost pairs = p.weapons.pairs();
    let mut i: usize = 0;
    assert(pairs.skip(0) =~= pairs);
    while i < ws.len()
        invariant
            i <= ws@.len(),
            ws@.len() == pairs.len(),
            pairs == p.weapons.pairs(),
            forall|j: int| 0 <= j < ws@.len() ==> *(#[trigger] ws@[j]).0 == pairs[j].0 && *ws@[j].1 == pairs[j].1,
            first_active(pairs) == first_active(pairs.skip(i as int)),
        decreases ws.len() - i,
    {
        let w = ws[i].1;
        if w.state == WeaponState::Active {
            assert(pairs.skip(i as int)[0] == pairs[i as int]);
            return Some(w.name.clone());
        }
        proof {
            lemma_first_active_skip(pairs, i as int);
        }
        i = i + 1;
    }
    assert(pairs.skip(i as int).len() == 0);
    None
}

fn health_diff(p: &Player, c: &Player) -> (r: Vec<GameEvent>)
    ensures
        r@ == health_events(*p, *c),
{
    let mut out: Vec<GameEvent> = Vec::new();
    let ph = p.state.health;
    let ch = c.state.health;
    if ph != ch {
        out.push(GameEvent::PlayerHealthChanged(PlayerHealthChanged { player: c.snapshot(), previous: ph, new: ch }));
        if ph > 0 && ch == 0 {
            out.push(GameEvent::PlayerDied(PlayerDied { player: c.snapshot(), previous_health: ph, new_health: ch }));
        } else if ph == 0 && ch > 0 {
            out.push(GameEvent::PlayerRespawned(PlayerRespawned { player: c.snapshot(), previous_health: ph, new_health: ch }));
        } else if ch > 0 && ch < ph {
            out.push(GameEvent::PlayerTookDamage(PlayerTookDamage { player: c.snapshot(), previous_health: ph, new_health: ch }));
        }
    }
    assert(out@ =~= health_events(*p, *c));
    out
}

fn kill_diff(p: &Player, c: &Player) -> (r: (Vec<GameEvent>, Option<KillRecord>))
    ensures
        r.0@ == kill_events(*p, *c),
        r.1 == (if p.state.round_kills != c.state.round_kills && c.state.round_kills > p.state.round_kills {
            Some((*c, c.state.round_killhs > p.state.round_killhs, active_weapon(*c)))
        } else {
            None::<KillRecord>
        }),
{
    let mut out: Vec<GameEvent> = Vec::new();
    let mut kill: Option<KillRecord> = None;
    let pk = p.state.round_kills;
    let ck = c.state.round_kills;
    if pk != ck {
        out.push(GameEvent::PlayerRoundKillsChanged(PlayerRoundKillsChanged { player: c.snapshot(), previous: pk, new: ck }));
        if ck > pk {
            let is_hs = c.state.round_killhs > p.state.round_killhs;
            let weapon = active_weapon_name(c);
            out.push(GameEvent::PlayerGotKill(PlayerGotKill {
                player: c.snapshot(),
                previous_round_kills: pk,
                new_round_kills: ck,
                is_headshot: is_hs,
                weapon: weapon.snapshot(),
            }));
            kill = Some((c.snapshot(), is_hs, weapon));
        }
    }
    assert(out@ =~= kill_events(*p, *c));
    (out, kill)
}

fn vital_diff(p: &Player, c: &Player) -> (r: Vec<GameEvent>)
    ensures
        r@ == vital_events(*p, *c),
{
    let ps = p.state;
    let cs = c.state;
    let mut out: Vec<GameEvent> = Vec::new();
    out.push(GameEvent::PlayerUpdated(PlayerUpdated { player: c.snapshot(), previous: Some(p.snapshot()) }));
    let ghost acc = seq![GameEvent::PlayerUpdated(PlayerUpdated { player: *c, previous: Some(*p) })];
    assert(out@ =~= acc);

    let mut h = health_diff(p, c);
    out.append(&mut h);
    proof { acc = acc + health_events(*p, *c); }

    let b = ps.armor != cs.armor;
    let ghost e = GameEvent::PlayerArmorChanged(PlayerArmorChanged { player: *c, previous: ps.armor, new: cs.armor });
    if b { out.push(GameEvent::PlayerArmorChanged(PlayerArmorChanged { player: c.snapshot(), previous: ps.armor, new: cs.armor })); }
    proof { lemma_when_push(acc, b, e); acc = acc + when(b, e); }

    let b = ps.helmet != cs.helmet;
    let ghost e = GameEvent::PlayerHelmetChanged(PlayerHelmetChanged { player: *c, previous: ps.helmet, new: cs.helmet });
    if b { out.push(GameEvent::PlayerHelmetChanged(PlayerHelmetChanged { player: c.snapshot(), previous: ps.helmet, new: cs.helmet })); }
    proof { lemma_when_push(acc, b, e); acc = acc + when(b, e); }

    let b = ps.flashed != cs.flashed;
    let ghost e = GameEvent::PlayerFlashAmountChanged(PlayerFlashAmountChanged { player: *c, previous: ps.flashed, new: cs.flashed });
    if b { out.push(GameEvent::PlayerFlashAmountChanged(PlayerFlashAmountChanged { player: c.snapshot(), previous: ps.flashed, new: cs.flashed })); }
    proof { lemma_when_push(acc, b, e); acc = acc + when(b, e); }

    let b = ps.smoked != cs.smoked;
    let ghost e = GameEvent::PlayerSmokedAmountChanged(PlayerSmokedAmountChanged { player: *c, previous: ps.smoked, new: cs.smoked });
    if b { out.push(GameEvent::PlayerSmokedAmountChanged(PlayerSmokedAmountChanged { player: c.snapshot(), previous: ps.smoked, new: cs.smoked })); }
    proof { lemma_when_push(acc, b, e); acc = acc + when(b, e); }

    let b = ps.burning != cs.burning;
    let ghost e = GameEvent::PlayerBurningAmountChanged(PlayerBurningAmountChanged { player: *c, previous: ps.burning, new: cs.burning });
    if b { out.push(GameEvent::PlayerBurningAmountChanged(PlayerBurningAmountChanged { player: c.snapshot(), previous: ps.burning, new: cs.burning })); }
    proof { lemma_when_push(acc, b, e); acc = acc + when(b, e); }

    let b = ps.money != cs.money;
    let ghost e = GameEvent::PlayerMoneyAmountChanged(PlayerMoneyAmountChanged { player: *c, previous: ps.money, new: cs.money });
    if b { out.push(GameEvent::PlayerMoneyAmountChanged(PlayerMoneyAmountChanged { player: c.snapshot(), previous: ps.money, new: cs.money })); }
    proof { lemma_when_push(acc, b, e); acc = acc + when(b, e); }

    let b = ps.equip_value != cs.equip_value;
    let ghost e = GameEvent::PlayerEquipmentValueChanged(PlayerEquipmentValueChanged { player: *c, previous: ps.equip_value, new: cs.equip_value });
    if b { out.push(GameEvent::PlayerEquipmentValueChanged(PlayerEquipmentValueChanged { player: c.snapshot(), previous: ps.equip_value, new: cs.equip_value })); }
    proof { lemma_when_push(acc, b, e); acc = acc + when(b, e); }
    proof { assert(acc == vital_events(*p, *c)); }
    out
}

#[verifier::rlimit(30)]
fn round_stat_diff(p: &Player, c: &Player) -> (r: (Vec<GameEvent>, Option<KillRecord>))
    ensures
        r.0@ == round_stat_events(*p, *c),
        r.1 == (if c.state.round_kills > p.state.round_kills {
            Some((*c, c.state.round_killhs > p.state.round_killhs, active_weapon(*c)))
        } else {
            None::<KillRecord>
        }),
{
    let ps = p.state;
    let cs = c.state;
    let (mut out, kill) = kill_diff(p, c);
    let ghost acc = kill_events(*p, *c);

    let b = ps.round_killhs != cs.round_killhs;
    let ghost e = GameEvent::PlayerRoundHeadshotKillsChanged(PlayerRoundHeadshotKillsChanged { player: *c, previous: ps.round_killhs, new: cs.round_killhs });
    if b { out.push(GameEvent::PlayerRoundHeadshotKillsChanged(PlayerRoundHeadshotKillsChanged { player: c.snapshot(), previous: ps.round_killhs, new: cs.round_killhs })); }
    proof { lemma_when_push(acc, b, e); acc = acc + when(b, e); }

    let b = ps.round_totaldmg != cs.round_totaldmg;
    let ghost e = GameEvent::PlayerRoundTotalDamageChanged(PlayerRoundTotalDamageChanged { player: *c, previous: ps.round_totaldmg, new: cs.round_totaldmg });
    if b { out.push(GameEvent::PlayerRoundTotalDamageChanged(PlayerRoundTotalDamageChanged { player: c.snapshot(), previous: ps.round_totaldmg, new: cs.round_totaldmg })); }
    proof { lemma_when_push(acc, b, e); acc = acc + when(b, e); }
    proof { assert(acc == round_stat_events(*p, *c)); }
    (out, kill)
}

#[verifier::rlimit(30)]
fn status_diff(p: &Player, c: &Player) -> (r: Vec<GameEvent>)
    ensures
        r@ == status_events(*p, *c),
{
    let mut out: Vec<GameEvent> = Vec::new();
    let ghost acc = Seq::<GameEvent>::empty();

    let b = p.activity != c.activity;
    let ghost e = GameEvent::PlayerActivityChanged(PlayerActivityChanged { player: *c, previous: p.activity, new: c.activity });
    if b { out.push(GameEvent::PlayerActivityChanged(PlayerActivityChanged { player: c.snapshot(), previous: p.activity, new: c.activity })); }
    proof { lemma_when_push(acc, b, e); acc = acc + when(b, e); }

    let b = p.team != c.team;
    let ghost e = GameEvent::PlayerTeamChanged(PlayerTeamChanged { player: *c, previous: p.team, new: c.team });
    if b { out.push(GameEvent::PlayerTeamChanged(PlayerTeamChanged { player: c.snapshot(), previous: p.team, new: c.team })); }
    proof { lemma_when_push(acc, b, e); acc = acc + when(b, e); }

    let prev_active = active_weapon_name(p);
    let cur_active = active_weapon_name(c);
    let b = !prev_active.same_as(&cur_active);
    let ghost e = GameEvent::PlayerActiveWeaponChanged(PlayerActiveWeaponChanged { player: *c, previous: active_weapon(*p), new: active_weapon(*c) });
    if b { out.push(GameEvent::PlayerActiveWeaponChanged(PlayerActiveWeaponChanged { player: c.snapshot(), previous: prev_active, new: cur_active })); }
    proof { lemma_when_push(acc, b, e); acc = acc + when(b, e); }

    let b = p.match_stats != c.match_stats;
    let ghost e = GameEvent::PlayerStatsChanged(PlayerStatsChanged { player: *c, previous: p.match_stats, new: c.match_stats });
    if b { out.push(GameEvent::PlayerStatsChanged(PlayerStatsChanged { player: c.snapshot(), previous: p.match_stats, new: c.match_stats })); }
    proof { lemma_when_push(acc, b, e); acc = acc + when(b, e); }
    proof { assert(acc =~= status_events(*p, *c)); }
    out
}

fn changed_player_diff(p: &Player, c: &Player) -> (r: (Vec<GameEvent>, Option<KillRecord>))
    ensures
        r.0@ == changed_player_events(*p, *c),
        r.1 == (if c.state.round_kills > p.state.round_kills {
            Some((*c, c.state.round_killhs > p.state.round_killhs, active_weapon(*c)))
        } else {
            None::<KillRecord>
        }),
{
    let mut out = vital_diff(p, c);
    let (mut r, kill) = round_stat_diff(p, c);
    out.append(&mut r);
    let mut st = status_diff(p, c);
    out.append(&mut st);
    (out, kill)
}

/// Events, death and kill of one observed player.
fn diff_player(prev: Option<&Player>, cur: &Player) -> (r: (Vec<GameEvent>, bool, Option<KillRecord>))
    ensures
        r.0@ == player_events(deref_opt(prev), *cur),
        r.1 == died(deref_opt(prev), *cur),
        r.2 == kill_of(deref_opt(prev), *cur),
{
    match prev {
        None => {
            let mut out: Vec<GameEvent> = Vec::new();
            out.push(GameEvent::PlayerUpdated(PlayerUpdated { player: cur.snapshot(), previous: None }));
            assert(out@ =~= player_events(deref_opt(prev), *cur));
            (out, false, None)
        },
        Some(p) => {
            if p.same_as(cur) {
                (Vec::new(), false, None)
            } else {
                let (out, kill) = changed_player_diff(p, cur);
                let dead = p.state.health > 0 && cur.state.health == 0;
                (out, dead, kill)
            }
        },
    }
}


fn synthesize_killfeed(deaths: &Vec<Player>, kills: &Vec<KillRecord>) -> (r: Vec<GameEvent>)
    ensures
        r@ == killfeed(deaths@, kills@),
{
    let mut out: Vec<GameEvent> = Vec::new();
    if deaths.len() == 0 || kills.len() == 0 {
        return out;
    }
    // Naive pairing: the first killer with every victim of the same window.
    let killer = &kills[0].0;
    let is_hs = kills[0].1;
    let weapon = &kills[0].2;
    let ghost k = kills@[0];
    let mut i: usize = 0;
    assert(deaths@.take(0) =~= Seq::<Player>::empty());
    while i < deaths.len()
        invariant
            i <= deaths@.len(),
            k == kills@[0],
            *killer == k.0,
            is_hs == k.1,
            *weapon == k.2,
            out@ == feed_for(k, deaths@.take(i as int)),
        decreases deaths.len() - i,
    {
        let victim = &deaths[i];
        let b = killer.steamid != victim.steamid;
        if b {
            out.push(GameEvent::KillFeed(KillFeed {
                killer: killer.snapshot(),
                victim: victim.snapshot(),
                weapon: weapon.snapshot(),
                is_headshot: is_hs,
            }));
        }
        proof {
            let t = deaths@.take(i + 1);
            assert(t.drop_last() =~= deaths@.take(i as int));
            assert(t.last() == deaths@[i as int]);
            lemma_when_push(
                feed_for(k, deaths@.take(i as int)),
                b,
                GameEvent::KillFeed(KillFeed { killer: k.0, victim: deaths@[i as int], weapon: k.2, is_headshot: k.1 }),
            );
        }
        i = i + 1;
    }
    assert(deaths@.take(deaths@.len() as int) =~= deaths@);
    out
}

proof fn lemma_take_step(s: Seq<(Option<Player>, Player)>, n: int)
    requires
        0 <= n < s.len(),
    ensures
        s.take(n + 1).drop_last() == s.take(n),
        s.take(n + 1).last() == s[n],
        s.take(n + 1).len() == n + 1,
        events_of_players(s.take(n + 1)) == events_of_players(s.take(n)) + player_events(s[n].0, s[n].1),
        deaths_of(s.take(n + 1)) == deaths_of(s.take(n)) + if died(s[n].0, s[n].1) { seq![s[n].1] } else { Seq::empty() },
        kills_of(s.take(n + 1)) == kills_of(s.take(n)) + match kill_of(s[n].0, s[n].1) {
            Some(k) => seq![k],
            None => Seq::empty(),
        },
{
    assert(s.take(n + 1).drop_last() =~= s.take(n));
}

/// Diffs `previous` against `current` and returns every derived event, in
/// the order in which it is to be delivered.
pub fn diff_events(previous: Option<&GameState>, current: &GameState) -> (r: Vec<GameEvent>)
    ensures
        r@ == diff(deref_opt(previous), *current),
{
    let ghost prev = deref_opt(previous);
    let ghost obs = observed_players(prev, *current);
    let mut out: Vec<GameEvent> = Vec::new();
    // 1. Always announce the new state first.
    out.push(GameEvent::NewGameState(Box::new(NewGameState { state: current.snapshot() })));
    // 2. Auth and provider.
    let mut m = meta_diff(previous, current);
    out.append(&mut m);
    // 3. Map / match.
    let prev_map = match previous { Some(p) => p.map.as_ref(), None => None };
    let cur_map = current.map.as_ref();
    let mut m = diff_map(prev_map, cur_map);
    out.append(&mut m);
    // 4. Round.
    let prev_round = match previous { Some(p) => p.round.as_ref(), None => None };
    let cur_round = current.round.as_ref();
    let mut m = diff_round(prev_round, cur_round);
    out.append(&mut m);
    // 5. Bomb (root level).
    let prev_bomb = match previous { Some(p) => p.bomb.as_ref(), None => None };
    let cur_bomb = current.bomb.as_ref();
    let mut m = diff_bomb(prev_bomb, cur_bomb);
    out.append(&mut m);
    let ghost head = out@;
    proof {
        assert(deref_opt(prev_map) == match prev { Some(p) => p.map, None => None });
        assert(deref_opt(prev_round) == match prev { Some(p) => p.round, None => None });
        assert(deref_opt(prev_bomb) == match prev { Some(p) => p.bomb, None => None });
        assert(deref_opt(cur_map) == current.map);
        assert(deref_opt(cur_round) == current.round);
        assert(deref_opt(cur_bomb) == current.bomb);
    }

    // 6. The local player, then every entry of allplayers.
    let mut deaths: Vec<Player> = Vec::new();
    let mut kills: Vec<KillRecord> = Vec::new();
    let mut evs: Vec<GameEvent> = Vec::new();
    let mut n: usize = 0;
    proof {
        assert(obs.take(0) =~= Seq::<(Option<Player>, Player)>::empty());
    }
    if let Some(cur_p) = current.player.as_ref() {
        let prev_p = match previous { Some(p) => p.player.as_ref(), None => None };
        let (mut e, dead, kill) = diff_player(prev_p, cur_p);
        evs.append(&mut e);
        if dead {
            deaths.push(cur_p.snapshot());
        }
        if let Some(k) = kill {
            kills.push(k);
        }
        n = 1;
        proof {
            assert(obs[0] == (match prev { Some(p) => p.player, None => None }, *cur_p));
            assert(deref_opt(prev_p) == match prev { Some(p) => p.player, None => None });
            lemma_take_step(obs, 0);
            assert(deaths@ =~= deaths_of(obs.take(1)));
            assert(kills@ =~= kills_of(obs.take(1)));
            assert(evs@ =~= events_of_players(obs.take(1)));
        }
    }
    let ghost local_len = n as int;
    let entries = current.allplayers.entries();
    let ghost pairs = current.allplayers.pairs();
    assert(obs.len() == local_len + pairs.len());
    let mut i: usize = 0;
    while i < entries.len()
        invariant
            prev == deref_opt(previous),
            obs == observed_players(prev, *current),
            pairs == current.allplayers.pairs(),
            local_len == (if current.player is Some { 1int } else { 0int }),
            obs.len() == local_len + pairs.len(),
            entries@.len() == pairs.len(),
            forall|j: int| 0 <= j < entries@.len() ==>
                *(#[trigger] entries@[j]).0 == pairs[j].0 && *entries@[j].1 == pairs[j].1,
            i <= entries@.len(),
            evs@ == events_of_players(obs.take(local_len + i)),
            deaths@ == deaths_of(obs.take(local_len + i)),
            kills@ == kills_of(obs.take(local_len + i)),
        decreases entries.len() - i,
    {
        let (sid, cur_p) = entries[i];
        let prev_p = match previous {
            Some(p) => p.allplayers.get(sid.as_str()),
            None => None,
        };
        let (mut e, dead, kill) = diff_player(prev_p, cur_p);
        evs.append(&mut e);
        if dead {
            deaths.push(cur_p.snapshot());
        }
        if let Some(k) = kill {
            kills.push(k);
        }
        proof {
            let idx = local_len + i;
            assert(obs[idx] == (previous_of(prev, pairs[i as int].0@), pairs[i as int].1));
            assert(deref_opt(prev_p) == previous_of(prev, pairs[i as int].0@));
            lemma_take_step(obs, idx);
            assert(local_len + (i + 1) == idx + 1);
            assert(deaths@ =~= deaths_of(obs.take(idx + 1)));
            assert(kills@ =~= kills_of(obs.take(idx + 1)));
            assert(evs@ =~= events_of_players(obs.take(idx + 1)));
        }
        i = i + 1;
    }
    proof {
        assert(obs.take(obs.len() as int) =~= obs);
    }
    out.append(&mut evs);
    // 7. Kill feed: pair deaths with kills.
    let mut feed = synthesize_killfeed(&deaths, &kills);
    out.append(&mut feed);
    proof {
        assert(out@ =~= diff(prev, *current));
    }
    out
}

/// Diffs `previous` against `current` and routes every derived event: the
/// events in delivery order, and for each one the ids of the handlers to
/// call, in order (see [`Dispatcher::fire`]).
pub fn diff_and_dispatch(
    previous: Option<&GameState>,
    current: &GameState,
    dispatcher: &Dispatcher,
) -> (r: (Vec<GameEvent>, Vec<Vec<usize>>))
    ensures
        r.0@ == diff(deref_opt(previous), *current),
        r.1@.len() == r.0@.len(),
        forall|i: int| 0 <= i < r.1@.len() ==> (#[trigger] r.1@[i])@ == dispatcher.delivery(event_kind(r.0@[i])),
{
    let events = diff_events(previous, current);
    let mut calls: Vec<Vec<usize>> = Vec::new();
    let mut i: usize = 0;
    while i < events.len()
        invariant
            i <= events@.len(),
            calls@.len() == i,
            forall|j: int| 0 <= j < i ==> (#[trigger] calls@[j])@ == dispatcher.delivery(event_kind(events@[j])),
        decreases events.len() - i,
    {
        let ids = dispatcher.fire(&events[i]);
        calls.push(ids);
        i = i + 1;
    }
    (events, calls)
}

// ------------------------------------------------- where events come from

proof fn lemma_meta_none(prev: Option<GameState>, cur: GameState)
    ensures
        none_lifecycle(meta_events(prev, cur)),
        none_team_score(meta_events(prev, cur)),
{
    match prev {
        Some(p) => {
            let a = when(!p.auth.same(&cur.auth), GameEvent::AuthUpdated(AuthUpdated));
            let b = when(!p.provider.same(&cur.provider), GameEvent::ProviderUpdated(ProviderUpdated { previous: p.provider, new: cur.provider }));
            assert(none_lifecycle(a) && none_team_score(a));
            assert(none_lifecycle(b) && none_team_score(b));
            lemma_none_concat(a, b);
        },
        None => {},
    }
}

proof fn lemma_map_none_lifecycle(prev: Option<MapState>, cur: Option<MapState>)
    ensures
        none_lifecycle(map_events(prev, cur)),
{
    match (prev, cur) {
        (Some(p), Some(c)) => {
            if !p.same(&c) {
                let (e0, e1, e2, ph, e4, e5) = map_parts(p, c);
                lemma_map_parts(p, c);
                assert(none_lifecycle(e0));
                assert(none_lifecycle(e1));
                assert(none_lifecycle(e2));
                assert(none_lifecycle(e4));
                assert(none_lifecycle(e5));
                lemma_none_concat(e0, e1);
                lemma_none_concat(e0 + e1, e2);
                lemma_none_concat(e0 + e1 + e2, ph);
                lemma_none_concat(e0 + e1 + e2 + ph, e4);
                lemma_none_concat(e0 + e1 + e2 + ph + e4, e5);
            }
        },
        _ => {},
    }
}

/// The six pieces of the events of a changed map: the announcement, the
/// mode, the level, the phase events, the CT score and the T score.
spec fn map_parts(p: MapState, c: MapState) -> (Seq<GameEvent>, Seq<GameEvent>, Seq<GameEvent>, Seq<GameEvent>, Seq<GameEvent>, Seq<GameEvent>) {
    (
        seq![GameEvent::MapUpdated(MapUpdated)],
        when(p.mode@ != c.mode@, GameEvent::GamemodeChanged(GamemodeChanged { previous: p.mode, new: c.mode })),
        when(p.name@ != c.name@, GameEvent::LevelChanged(LevelChanged { previous: p.name, new: c.name })),
        map_phase_events(p, c),
        when(p.team_ct.score != c.team_ct.score, GameEvent::TeamScoreChanged(TeamScoreChanged { team: PlayerTeam::CT, previous: p.team_ct.score, new: c.team_ct.score })),
        when(p.team_t.score != c.team_t.score, GameEvent::TeamScoreChanged(TeamScoreChanged { team: PlayerTeam::T, previous: p.team_t.score, new: c.team_t.score })),
    )
}

proof fn lemma_map_parts(p: MapState, c: MapState)
    requires
        !p.same(&c),
    ensures
        ({
            let (e0, e1, e2, ph, e4, e5) = map_parts(p, c);
            &&& map_events(Some(p), Some(c)) == e0 + e1 + e2 + ph + e4 + e5
            &&& none_lifecycle(ph)
            &&& none_team_score(e0 + e1 + e2 + ph)
        }),
{
    let (e0, e1, e2, ph, e4, e5) = map_parts(p, c);
    assert(none_lifecycle(ph));
    assert(none_team_score(e0) && none_team_score(e1) && none_team_score(e2) && none_team_score(ph));
    lemma_none_concat(e0, e1);
    lemma_none_concat(e0 + e1, e2);
    lemma_none_concat(e0 + e1 + e2, ph);
}

proof fn lemma_round_none(prev: Option<Round>, cur: Option<Round>)
    ensures
        none_lifecycle(round_events(prev, cur)),
        none_team_score(round_events(prev, cur)),
{
    match (prev, cur) {
        (Some(p), Some(c)) => {
            if p != c {
                let ph = round_phase_events(p, c);
                let e0 = seq![GameEvent::RoundUpdated(RoundUpdated { previous_phase: p.phase, new_phase: c.phase })];
                let e2 = when(p.bomb != c.bomb, GameEvent::BombStateUpdated(BombStateUpdated { previous: p.bomb, new: c.bomb }));
                assert(none_lifecycle(ph) && none_team_score(ph));
                assert(none_lifecycle(e0) && none_team_score(e0));
                assert(none_lifecycle(e2) && none_team_score(e2));
                lemma_none_concat(e0, ph);
                lemma_none_concat(e0 + ph, e2);
            }
        },
        _ => {},
    }
}

proof fn lemma_bomb_none_team_score(prev: Option<Bomb>, cur: Option<Bomb>)
    ensures
        none_team_score(bomb_events(prev, cur)),
{
    match (prev, cur) {
        (Some(p), Some(c)) => {
            if !p.same(&c) {
                let e0 = seq![GameEvent::BombUpdated(BombUpdated)];
                let st = bomb_state_events(p.state, c.state);
                assert(none_team_score(e0) && none_team_score(st));
                lemma_none_concat(e0, st);
            }
        },
        _ => {},
    }
}

proof fn lemma_killfeed_kinds(deaths: Seq<Player>, kills: Seq<KillRecord>)
    ensures
        none_lifecycle(killfeed(deaths, kills)),
        none_team_score(killfeed(deaths, kills)),
{
    if deaths.len() > 0 && kills.len() > 0 {
        lemma_feed_pairs(kills[0], deaths);
    }
}

/// Where `e` occurs in `a + b + c`, when it cannot occur in `a` or `c`.
proof fn lemma_only_in_middle(a: Seq<GameEvent>, b: Seq<GameEvent>, c: Seq<GameEvent>, e: GameEvent)
    requires
        forall|i: int| 0 <= i < a.len() ==> a[i] != e,
        forall|i: int| 0 <= i < c.len() ==> c[i] != e,
    ensures
        (a + b + c).contains(e) <==> b.contains(e),
{
    let s = a + b + c;
    if s.contains(e) {
        let i = choose|i: int| 0 <= i < s.len() && s[i] == e;
        if i < a.len() {
            assert(s[i] == a[i]);
        } else if i < a.len() + b.len() {
            assert(s[i] == b[i - a.len()]);
        } else {
            assert(s[i] == c[i - a.len() - b.len()]);
        }
    }
    if b.contains(e) {
        let j = choose|j: int| 0 <= j < b.len() && b[j] == e;
        assert(s[a.len() + j] == b[j]);
    }
}

/// When the root bomb is present in both snapshots, the diff announces a
/// bomb lifecycle event exactly when the bomb's state changed, and it is
/// the event named after the new state: `BombPlanting`, `BombPlanted`,
/// `BombDefusing`, `BombDefused`, `BombExploded`, `BombDropped` on entering
/// that state, and `BombPickedUp` on becoming carried after being dropped or
/// unknown. No other lifecycle event is announced.
pub proof fn lemma_bomb_event_names_new_state(prev: GameState, cur: GameState)
    requires
        prev.bomb is Some,
        cur.bomb is Some,
    ensures
        ({
            let d = diff(Some(prev), cur);
            let ps = prev.bomb->0.state;
            let cs = cur.bomb->0.state;
            &&& d.contains(GameEvent::BombPlanting(BombPlanting)) <==> (ps != cs && cs == BombState::Planting)
            &&& d.contains(GameEvent::BombPlanted(BombPlanted)) <==> (ps != cs && cs == BombState::Planted)
            &&& d.contains(GameEvent::BombDefusing(BombDefusing)) <==> (ps != cs && cs == BombState::Defusing)
            &&& d.contains(GameEvent::BombDefused(BombDefused)) <==> (ps != cs && cs == BombState::Defused)
            &&& d.contains(GameEvent::BombExploded(BombExploded)) <==> (ps != cs && cs == BombState::Exploded)
            &&& d.contains(GameEvent::BombDropped(BombDropped)) <==> (ps != cs && cs == BombState::Dropped)
            &&& d.contains(GameEvent::BombPickedUp(BombPickedUp))
                <==> (cs == BombState::Carried && (ps == BombState::Dropped || ps == BombState::Unknown))
        }),
{
    let pv = Some(prev);
    let obs = observed_players(pv, cur);
    let a = seq![new_state_event(cur)];
    let m = meta_events(pv, cur);
    let mp = map_events(prev.map, cur.map);
    let rd = round_events(prev.round, cur.round);
    let bm = bomb_events(prev.bomb, cur.bomb);
    let pe = events_of_players(obs);
    let kf = killfeed(deaths_of(obs), kills_of(obs));
    let d = diff(pv, cur);
    assert(d == (a + m + mp + rd) + bm + (pe + kf));
    assert(none_lifecycle(a));
    lemma_meta_none(pv, cur);
    lemma_map_none_lifecycle(prev.map, cur.map);
    lemma_round_none(prev.round, cur.round);
    lemma_none_concat(a, m);
    lemma_none_concat(a + m, mp);
    lemma_none_concat(a + m + mp, rd);
    lemma_players_player(obs);
    lemma_player_parts(pe);
    lemma_killfeed_kinds(deaths_of(obs), kills_of(obs));
    lemma_none_concat(pe, kf);
    let pb = prev.bomb->0;
    let cb = cur.bomb->0;
    let ps = pb.state;
    let cs = cb.state;
    let st = bomb_state_events(ps, cs);
    if pb.same(&cb) {
        assert(ps == cs);
        assert(bm.len() == 0);
    } else {
        assert(bm == seq![GameEvent::BombUpdated(BombUpdated)] + st);
    }
    assert forall|e: GameEvent| is_bomb_lifecycle(e) implies
        (d.contains(e) <==> (!pb.same(&cb) && st.contains(e))) by {
        let aa = a + m + mp + rd;
        let rest = pe + kf;
        assert forall|i: int| 0 <= i < aa.len() implies aa[i] != e by {
            assert(!is_bomb_lifecycle(aa[i]));
        }
        assert forall|i: int| 0 <= i < rest.len() implies rest[i] != e by {
            assert(!is_bomb_lifecycle(rest[i]));
        }
        lemma_only_in_middle(aa, bm, rest, e);
        if !pb.same(&cb) {
            let u = seq![GameEvent::BombUpdated(BombUpdated)];
            if bm.contains(e) {
                let j = choose|j: int| 0 <= j < bm.len() && bm[j] == e;
                assert(j >= 1);
                assert(st[j - 1] == bm[j]);
            }
            if st.contains(e) {
                let j = choose|j: int| 0 <= j < st.len() && st[j] == e;
                assert(bm[j + 1] == st[j]);
            }
        }
    }
    if ps != cs {
        assert(!pb.same(&cb));
    }
    lemma_state_events(ps, cs);
    let evs = seq![
        GameEvent::BombPlanting(BombPlanting),
        GameEvent::BombPlanted(BombPlanted),
        GameEvent::BombDefusing(BombDefusing),
        GameEvent::BombDefused(BombDefused),
        GameEvent::BombExploded(BombExploded),
        GameEvent::BombDropped(BombDropped),
        GameEvent::BombPickedUp(BombPickedUp),
    ];
    assert forall|k: int| 0 <= k < evs.len() implies
        (d.contains(#[trigger] evs[k]) <==> (!pb.same(&cb) && st.contains(evs[k]))) by {
        assert(is_bomb_lifecycle(evs[k]));
    }
    assert(d.contains(evs[0]) == (!pb.same(&cb) && st.contains(evs[0])));
    assert(d.contains(evs[1]) == (!pb.same(&cb) && st.contains(evs[1])));
    assert(d.contains(evs[2]) == (!pb.same(&cb) && st.contains(evs[2])));
    assert(d.contains(evs[3]) == (!pb.same(&cb) && st.contains(evs[3])));
    assert(d.contains(evs[4]) == (!pb.same(&cb) && st.contains(evs[4])));
    assert(d.contains(evs[5]) == (!pb.same(&cb) && st.contains(evs[5])));
    assert(d.contains(evs[6]) == (!pb.same(&cb) && st.contains(evs[6])));
}

proof fn lemma_state_events(ps: BombState, cs: BombState)
    ensures
        ({
            let st = bomb_state_events(ps, cs);
            &&& st.contains(GameEvent::BombPlanting(BombPlanting)) <==> (ps != cs && cs == BombState::Planting)
            &&& st.contains(GameEvent::BombPlanted(BombPlanted)) <==> (ps != cs && cs == BombState::Planted)
            &&& st.contains(GameEvent::BombDefusing(BombDefusing)) <==> (ps != cs && cs == BombState::Defusing)
            &&& st.contains(GameEvent::BombDefused(BombDefused)) <==> (ps != cs && cs == BombState::Defused)
            &&& st.contains(GameEvent::BombExploded(BombExploded)) <==> (ps != cs && cs == BombState::Exploded)
            &&& st.contains(GameEvent::BombDropped(BombDropped)) <==> (ps != cs && cs == BombState::Dropped)
            &&& st.contains(GameEvent::BombPickedUp(BombPickedUp))
                <==> (cs == BombState::Carried && (ps == BombState::Dropped || ps == BombState::Unknown))
        }),
{
    let st = bomb_state_events(ps, cs);
    assert(st.len() <= 1);
    if st.len() == 1 {
        assert(st.contains(st[0]));
    }
    assert forall|e: GameEvent| st.contains(e) implies st.len() == 1 && e == st[0] by {
        let j = choose|j: int| 0 <= j < st.len() && st[j] == e;
    }
}

/// When both snapshots have a map, every `TeamScoreChanged` event of the
/// diff names the team whose score changed and carries that team's previous
/// and new score; and each team whose score changed gets its event.
pub proof fn lemma_team_score_names_the_team(prev: GameState, cur: GameState)
    requires
        prev.map is Some,
        cur.map is Some,
    ensures
        ({
            let d = diff(Some(prev), cur);
            let pm = prev.map->0;
            let cm = cur.map->0;
            &&& forall|i: int| 0 <= i < d.len() && (#[trigger] d[i]) is TeamScoreChanged ==> {
                let x = d[i]->TeamScoreChanged_0;
                ||| x.team == PlayerTeam::CT && x.previous == pm.team_ct.score && x.new == cm.team_ct.score
                ||| x.team == PlayerTeam::T && x.previous == pm.team_t.score && x.new == cm.team_t.score
            }
            &&& pm.team_ct.score != cm.team_ct.score ==> d.contains(GameEvent::TeamScoreChanged(
                TeamScoreChanged { team: PlayerTeam::CT, previous: pm.team_ct.score, new: cm.team_ct.score }))
            &&& pm.team_t.score != cm.team_t.score ==> d.contains(GameEvent::TeamScoreChanged(
                TeamScoreChanged { team: PlayerTeam::T, previous: pm.team_t.score, new: cm.team_t.score }))
        }),
{
    let pv = Some(prev);
    let obs = observed_players(pv, cur);
    let a = seq![new_state_event(cur)];
    let m = meta_events(pv, cur);
    let mp = map_events(prev.map, cur.map);
    let rd = round_events(prev.round, cur.round);
    let bm = bomb_events(prev.bomb, cur.bomb);
    let pe = events_of_players(obs);
    let kf = killfeed(deaths_of(obs), kills_of(obs));
    let d = diff(pv, cur);
    let pm = prev.map->0;
    let cm = cur.map->0;
    let before = a + m;
    let after = rd + bm + pe + kf;
    assert(d == before + mp + after);
    assert(none_team_score(a));
    lemma_meta_none(pv, cur);
    lemma_none_concat(a, m);
    lemma_round_none(prev.round, cur.round);
    lemma_bomb_none_team_score(prev.bomb, cur.bomb);
    lemma_players_player(obs);
    lemma_player_parts(pe);
    lemma_killfeed_kinds(deaths_of(obs), kills_of(obs));
    lemma_none_concat(rd, bm);
    lemma_none_concat(rd + bm, pe);
    lemma_none_concat(rd + bm + pe, kf);
    let ct = GameEvent::TeamScoreChanged(TeamScoreChanged { team: PlayerTeam::CT, previous: pm.team_ct.score, new: cm.team_ct.score });
    let tt = GameEvent::TeamScoreChanged(TeamScoreChanged { team: PlayerTeam::T, previous: pm.team_t.score, new: cm.team_t.score });
    if pm.same(&cm) {
        assert(mp.len() == 0);
        assert(pm.team_ct.score == cm.team_ct.score && pm.team_t.score == cm.team_t.score);
    } else {
        lemma_map_parts(pm, cm);
        let (e0, e1, e2, ph, e4, e5) = map_parts(pm, cm);
        let lead = e0 + e1 + e2 + ph;
        assert(mp == lead + e4 + e5);
        assert forall|i: int| 0 <= i < mp.len() && (#[trigger] mp[i]) is TeamScoreChanged implies
            (mp[i] == ct && pm.team_ct.score != cm.team_ct.score) || (mp[i] == tt && pm.team_t.score != cm.team_t.score) by {
            if i < lead.len() {
                assert(mp[i] == lead[i]);
            } else if i < lead.len() + e4.len() {
                assert(mp[i] == e4[i - lead.len()]);
            } else {
                assert(mp[i] == e5[i - lead.len() - e4.len()]);
            }
        }
        if pm.team_ct.score != cm.team_ct.score {
            assert(mp[lead.len() as int] == ct);
            assert(d[before.len() + lead.len() as int] == ct);
        }
        if pm.team_t.score != cm.team_t.score {
            assert(mp[lead.len() + e4.len() as int] == tt);
            assert(d[before.len() + lead.len() + e4.len() as int] == tt);
        }
    }
    assert forall|i: int| 0 <= i < d.len() && (#[trigger] d[i]) is TeamScoreChanged implies {
        let x = d[i]->TeamScoreChanged_0;
        ||| x.team == PlayerTeam::CT && x.previous == pm.team_ct.score && x.new == cm.team_ct.score
        ||| x.team == PlayerTeam::T && x.previous == pm.team_t.score && x.new == cm.team_t.score
    } by {
        if i < before.len() {
            assert(d[i] == before[i]);
        } else if i < before.len() + mp.len() {
            assert(d[i] == mp[i - before.len()]);
        } else {
            assert(d[i] == after[i - before.len() - mp.len()]);
        }
    }
}

// ------------------------------------------------- player values

proof fn lemma_in_concat(a: Seq<GameEvent>, b: Seq<GameEvent>, e: GameEvent)
    ensures
        (a.contains(e) || b.contains(e)) ==> (a + b).contains(e),
{
    if a.contains(e) {
        let i = choose|i: int| 0 <= i < a.len() && a[i] == e;
        assert((a + b)[i] == a[i]);
    } else if b.contains(e) {
        let i = choose|i: int| 0 <= i < b.len() && b[i] == e;
        assert((a + b)[a.len() + i] == b[i]);
    }
}

proof fn lemma_vital_contains(p: Player, c: Player)
    ensures
        p.state.health != c.state.health ==> vital_events(p, c).contains(GameEvent::PlayerHealthChanged(PlayerHealthChanged { player: c, previous: p.state.health, new: c.state.health })),
        p.state.armor != c.state.armor ==> vital_events(p, c).contains(GameEvent::PlayerArmorChanged(PlayerArmorChanged { player: c, previous: p.state.armor, new: c.state.armor })),
        p.state.helmet != c.state.helmet ==> vital_events(p, c).contains(GameEvent::PlayerHelmetChanged(PlayerHelmetChanged { player: c, previous: p.state.helmet, new: c.state.helmet })),
        p.state.flashed != c.state.flashed ==> vital_events(p, c).contains(GameEvent::PlayerFlashAmountChanged(PlayerFlashAmountChanged { player: c, previous: p.state.flashed, new: c.state.flashed })),
        p.state.smoked != c.state.smoked ==> vital_events(p, c).contains(GameEvent::PlayerSmokedAmountChanged(PlayerSmokedAmountChanged { player: c, previous: p.state.smoked, new: c.state.smoked })),
        p.state.burning != c.state.burning ==> vital_events(p, c).contains(GameEvent::PlayerBurningAmountChanged(PlayerBurningAmountChanged { player: c, previous: p.state.burning, new: c.state.burning })),
        p.state.money != c.state.money ==> vital_events(p, c).contains(GameEvent::PlayerMoneyAmountChanged(PlayerMoneyAmountChanged { player: c, previous: p.state.money, new: c.state.money })),
        p.state.equip_value != c.state.equip_value ==> vital_events(p, c).contains(GameEvent::PlayerEquipmentValueChanged(PlayerEquipmentValueChanged { player: c, previous: p.state.equip_value, new: c.state.equip_value })),
{
    let h = health_events(p, c);
    let acc0 = seq![GameEvent::PlayerUpdated(PlayerUpdated { player: c, previous: Some(p) })] + h;
    let eh = GameEvent::PlayerHealthChanged(PlayerHealthChanged { player: c, previous: p.state.health, new: c.state.health });
    if p.state.health != c.state.health {
        assert(h[0] == eh);
    }
    lemma_in_concat(seq![GameEvent::PlayerUpdated(PlayerUpdated { player: c, previous: Some(p) })], h, eh);
    let e1 = GameEvent::PlayerArmorChanged(PlayerArmorChanged { player: c, previous: p.state.armor, new: c.state.armor });
    let w1 = when(p.state.armor != c.state.armor, e1);
    let acc1 = acc0 + w1;
    let e2 = GameEvent::PlayerHelmetChanged(PlayerHelmetChanged { player: c, previous: p.state.helmet, new: c.state.helmet });
    let w2 = when(p.state.helmet != c.state.helmet, e2);
    let acc2 = acc1 + w2;
    let e3 = GameEvent::PlayerFlashAmountChanged(PlayerFlashAmountChanged { player: c, previous: p.state.flashed, new: c.state.flashed });
    let w3 = when(p.state.flashed != c.state.flashed, e3);
    let acc3 = acc2 + w3;
    let e4 = GameEvent::PlayerSmokedAmountChanged(PlayerSmokedAmountChanged { player: c, previous: p.state.smoked, new: c.state.smoked });
    let w4 = when(p.state.smoked != c.state.smoked, e4);
    let acc4 = acc3 + w4;
    let e5 = GameEvent::PlayerBurningAmountChanged(PlayerBurningAmountChanged { player: c, previous: p.state.burning, new: c.state.burning });
    let w5 = when(p.state.burning != c.state.burning, e5);
    let acc5 = acc4 + w5;
    let e6 = GameEvent::PlayerMoneyAmountChanged(PlayerMoneyAmountChanged { player: c, previous: p.state.money, new: c.state.money });
    let w6 = when(p.state.money != c.state.money, e6);
    let acc6 = acc5 + w6;
    let e7 = GameEvent::PlayerEquipmentValueChanged(PlayerEquipmentValueChanged { player: c, previous: p.state.equip_value, new: c.state.equip_value });
    let w7 = when(p.state.equip_value != c.state.equip_value, e7);
    let acc7 = acc6 + w7;
    assert(acc7 == vital_events(p, c));
    lemma_in_concat(acc0, w1, eh);
    lemma_in_concat(acc1, w2, eh);
    lemma_in_concat(acc2, w3, eh);
    lemma_in_concat(acc3, w4, eh);
    lemma_in_concat(acc4, w5, eh);
    lemma_in_concat(acc5, w6, eh);
    lemma_in_concat(acc6, w7, eh);
    if p.state.armor != c.state.armor {
        assert(w1[0] == e1);
    }
    lemma_in_concat(acc0, w1, e1);
    lemma_in_concat(acc1, w2, e1);
    lemma_in_concat(acc2, w3, e1);
    lemma_in_concat(acc3, w4, e1);
    lemma_in_concat(acc4, w5, e1);
    lemma_in_concat(acc5, w6, e1);
    lemma_in_concat(acc6, w7, e1);
    if p.state.helmet != c.state.helmet {
        assert(w2[0] == e2);
    }
    lemma_in_concat(acc1, w2, e2);
    lemma_in_concat(acc2, w3, e2);
    lemma_in_concat(acc3, w4, e2);
    lemma_in_concat(acc4, w5, e2);
    lemma_in_concat(acc5, w6, e2);
    lemma_in_concat(acc6, w7, e2);
    if p.state.flashed != c.state.flashed {
        assert(w3[0] == e3);
    }
    lemma_in_concat(acc2, w3, e3);
    lemma_in_concat(acc3, w4, e3);
    lemma_in_concat(acc4, w5, e3);
    lemma_in_concat(acc5, w6, e3);
    lemma_in_concat(acc6, w7, e3);
    if p.state.smoked != c.state.smoked {
        assert(w4[0] == e4);
    }
    lemma_in_concat(acc3, w4, e4);
    lemma_in_concat(acc4, w5, e4);
    lemma_in_concat(acc5, w6, e4);
    lemma_in_concat(acc6, w7, e4);
    if p.state.burning != c.state.burning {
        assert(w5[0] == e5);
    }
    lemma_in_concat(acc4, w5, e5);
    lemma_in_concat(acc5, w6, e5);
    lemma_in_concat(acc6, w7, e5);
    if p.state.money != c.state.money {
        assert(w6[0] == e6);
    }
    lemma_in_concat(acc5, w6, e6);
    lemma_in_concat(acc6, w7, e6);
    if p.state.equip_value != c.state.equip_value {
        assert(w7[0] == e7);
    }
    lemma_in_concat(acc6, w7, e7);
}

proof fn lemma_changed_contains(p: Player, c: Player)
    ensures
        p.state.health != c.state.health ==> changed_player_events(p, c).contains(GameEvent::PlayerHealthChanged(PlayerHealthChanged { player: c, previous: p.state.health, new: c.state.health })),
        p.state.armor != c.state.armor ==> changed_player_events(p, c).contains(GameEvent::PlayerArmorChanged(PlayerArmorChanged { player: c, previous: p.state.armor, new: c.state.armor })),
        p.state.helmet != c.state.helmet ==> changed_player_events(p, c).contains(GameEvent::PlayerHelmetChanged(PlayerHelmetChanged { player: c, previous: p.state.helmet, new: c.state.helmet })),
        p.state.flashed != c.state.flashed ==> changed_player_events(p, c).contains(GameEvent::PlayerFlashAmountChanged(PlayerFlashAmountChanged { player: c, previous: p.state.flashed, new: c.state.flashed })),
        p.state.smoked != c.state.smoked ==> changed_player_events(p, c).contains(GameEvent::PlayerSmokedAmountChanged(PlayerSmokedAmountChanged { player: c, previous: p.state.smoked, new: c.state.smoked })),
        p.state.burning != c.state.burning ==> changed_player_events(p, c).contains(GameEvent::PlayerBurningAmountChanged(PlayerBurningAmountChanged { player: c, previous: p.state.burning, new: c.state.burning })),
        p.state.money != c.state.money ==> changed_player_events(p, c).contains(GameEvent::PlayerMoneyAmountChanged(PlayerMoneyAmountChanged { player: c, previous: p.state.money, new: c.state.money })),
        p.state.equip_value != c.state.equip_value ==> changed_player_events(p, c).contains(GameEvent::PlayerEquipmentValueChanged(PlayerEquipmentValueChanged { player: c, previous: p.state.equip_value, new: c.state.equip_value })),
        p.state.round_kills != c.state.round_kills ==> changed_player_events(p, c).contains(GameEvent::PlayerRoundKillsChanged(PlayerRoundKillsChanged { player: c, previous: p.state.round_kills, new: c.state.round_kills })),
        p.state.round_killhs != c.state.round_killhs ==> changed_player_events(p, c).contains(GameEvent::PlayerRoundHeadshotKillsChanged(PlayerRoundHeadshotKillsChanged { player: c, previous: p.state.round_killhs, new: c.state.round_killhs })),
        p.state.round_totaldmg != c.state.round_totaldmg ==> changed_player_events(p, c).contains(GameEvent::PlayerRoundTotalDamageChanged(PlayerRoundTotalDamageChanged { player: c, previous: p.state.round_totaldmg, new: c.state.round_totaldmg })),
        p.activity != c.activity ==> changed_player_events(p, c).contains(GameEvent::PlayerActivityChanged(PlayerActivityChanged { player: c, previous: p.activity, new: c.activity })),
        p.team != c.team ==> changed_player_events(p, c).contains(GameEvent::PlayerTeamChanged(PlayerTeamChanged { player: c, previous: p.team, new: c.team })),
        p.match_stats != c.match_stats ==> changed_player_events(p, c).contains(GameEvent::PlayerStatsChanged(PlayerStatsChanged { player: c, previous: p.match_stats, new: c.match_stats })),
{
    lemma_vital_contains(p, c);
    let v = vital_events(p, c);
    let k = kill_events(p, c);
    let ehs = GameEvent::PlayerRoundHeadshotKillsChanged(PlayerRoundHeadshotKillsChanged { player: c, previous: p.state.round_killhs, new: c.state.round_killhs });
    let edm = GameEvent::PlayerRoundTotalDamageChanged(PlayerRoundTotalDamageChanged { player: c, previous: p.state.round_totaldmg, new: c.state.round_totaldmg });
    let erk = GameEvent::PlayerRoundKillsChanged(PlayerRoundKillsChanged { player: c, previous: p.state.round_kills, new: c.state.round_kills });
    let wa = when(p.state.round_killhs != c.state.round_killhs, ehs);
    let wb = when(p.state.round_totaldmg != c.state.round_totaldmg, edm);
    let r = round_stat_events(p, c);
    assert(r == k + wa + wb);
    if p.state.round_kills != c.state.round_kills {
        assert(k[0] == erk);
    }
    if p.state.round_killhs != c.state.round_killhs {
        assert(wa[0] == ehs);
    }
    if p.state.round_totaldmg != c.state.round_totaldmg {
        assert(wb[0] == edm);
    }
    lemma_in_concat(k, wa, erk);
    lemma_in_concat(k + wa, wb, erk);
    lemma_in_concat(k, wa, ehs);
    lemma_in_concat(k + wa, wb, ehs);
    lemma_in_concat(k + wa, wb, edm);
    let eac = GameEvent::PlayerActivityChanged(PlayerActivityChanged { player: c, previous: p.activity, new: c.activity });
    let ete = GameEvent::PlayerTeamChanged(PlayerTeamChanged { player: c, previous: p.team, new: c.team });
    let est = GameEvent::PlayerStatsChanged(PlayerStatsChanged { player: c, previous: p.match_stats, new: c.match_stats });
    let sa = when(p.activity != c.activity, eac);
    let sb = when(p.team != c.team, ete);
    let sw = when(!active_weapon(p).same(&active_weapon(c)), GameEvent::PlayerActiveWeaponChanged(PlayerActiveWeaponChanged { player: c, previous: active_weapon(p), new: active_weapon(c) }));
    let sm = when(p.match_stats != c.match_stats, est);
    let st = status_events(p, c);
    assert(st == sa + sb + sw + sm);
    if p.activity != c.activity {
        assert(sa[0] == eac);
    }
    if p.team != c.team {
        assert(sb[0] == ete);
    }
    if p.match_stats != c.match_stats {
        assert(sm[0] == est);
    }
    lemma_in_concat(sa, sb, eac);
    lemma_in_concat(sa + sb, sw, eac);
    lemma_in_concat(sa + sb + sw, sm, eac);
    lemma_in_concat(sa, sb, ete);
    lemma_in_concat(sa + sb, sw, ete);
    lemma_in_concat(sa + sb + sw, sm, ete);
    lemma_in_concat(sa + sb + sw, sm, est);
    let ch = changed_player_events(p, c);
    assert(ch == v + r + st);
    assert forall|e: GameEvent| v.contains(e) || r.contains(e) || st.contains(e) implies ch.contains(e) by {
        lemma_in_concat(v, r, e);
        lemma_in_concat(v + r, st, e);
    }
}

proof fn lemma_first_player_in(s: Seq<(Option<Player>, Player)>, e: GameEvent)
    requires
        s.len() > 0,
        player_events(s[0].0, s[0].1).contains(e),
    ensures
        events_of_players(s).contains(e),
    decreases s.len(),
{
    if s.len() == 1 {
        assert(s.last() == s[0]);
        lemma_in_concat(events_of_players(s.drop_last()), player_events(s[0].0, s[0].1), e);
    } else {
        assert(s.drop_last()[0] == s[0]);
        lemma_first_player_in(s.drop_last(), e);
        lemma_in_concat(events_of_players(s.drop_last()), player_events(s.last().0, s.last().1), e);
    }
}

/// Every player event of the diff carries, as its new value, the value of
/// the field in the player snapshot it holds: a `...Changed` event's `new`,
/// a death's or respawn's `new_health`, a kill's `new_round_kills`.
pub proof fn lemma_player_events_carry_new_values(prev: Option<GameState>, cur: GameState)
    ensures
        forall|i: int| 0 <= i < diff(prev, cur).len() ==> carries_current(#[trigger] diff(prev, cur)[i]),
{
    let obs = observed_players(prev, cur);
    let head = head_events(prev, cur);
    let pe = events_of_players(obs);
    let kf = killfeed(deaths_of(obs), kills_of(obs));
    let d = diff(prev, cur);
    assert(d == head + pe + kf);
    lemma_head_plain(prev, cur);
    lemma_players_player(obs);
    lemma_player_parts(pe);
    let ds = deaths_of(obs);
    let ks = kills_of(obs);
    if ds.len() > 0 && ks.len() > 0 {
        lemma_feed_pairs(ks[0], ds);
    }
    assert forall|i: int| 0 <= i < d.len() implies carries_current(#[trigger] d[i]) by {
        if i < head.len() {
            assert(d[i] == head[i]);
            assert(plain_change(head[i]));
        } else if i < head.len() + pe.len() {
            assert(d[i] == pe[i - head.len()]);
            assert(plain_change(pe[i - head.len()]));
        } else {
            assert(d[i] == kf[i - head.len() - pe.len()]);
        }
    }
}

/// For the local player, every field that changed between the two
/// snapshots is announced with its value in the previous snapshot as
/// `previous` and its value in the current snapshot as `new`, on the
/// current snapshot of the player.
pub proof fn lemma_local_player_changes_carry_both_values(prev: GameState, cur: GameState)
    requires
        prev.player is Some,
        cur.player is Some,
        !prev.player->0.same(&cur.player->0),
    ensures
        ({
            let s = diff(Some(prev), cur);
            let p = prev.player->0;
            let c = cur.player->0;
            &&& p.state.health != c.state.health ==> s.contains(GameEvent::PlayerHealthChanged(PlayerHealthChanged { player: c, previous: p.state.health, new: c.state.health }))
            &&& p.state.armor != c.state.armor ==> s.contains(GameEvent::PlayerArmorChanged(PlayerArmorChanged { player: c, previous: p.state.armor, new: c.state.armor }))
            &&& p.state.helmet != c.state.helmet ==> s.contains(GameEvent::PlayerHelmetChanged(PlayerHelmetChanged { player: c, previous: p.state.helmet, new: c.state.helmet }))
            &&& p.state.flashed != c.state.flashed ==> s.contains(GameEvent::PlayerFlashAmountChanged(PlayerFlashAmountChanged { player: c, previous: p.state.flashed, new: c.state.flashed }))
            &&& p.state.smoked != c.state.smoked ==> s.contains(GameEvent::PlayerSmokedAmountChanged(PlayerSmokedAmountChanged { player: c, previous: p.state.smoked, new: c.state.smoked }))
            &&& p.state.burning != c.state.burning ==> s.contains(GameEvent::PlayerBurningAmountChanged(PlayerBurningAmountChanged { player: c, previous: p.state.burning, new: c.state.burning }))
            &&& p.state.money != c.state.money ==> s.contains(GameEvent::PlayerMoneyAmountChanged(PlayerMoneyAmountChanged { player: c, previous: p.state.money, new: c.state.money }))
            &&& p.state.equip_value != c.state.equip_value ==> s.contains(GameEvent::PlayerEquipmentValueChanged(PlayerEquipmentValueChanged { player: c, previous: p.state.equip_value, new: c.state.equip_value }))
            &&& p.state.round_kills != c.state.round_kills ==> s.contains(GameEvent::PlayerRoundKillsChanged(PlayerRoundKillsChanged { player: c, previous: p.state.round_kills, new: c.state.round_kills }))
            &&& p.state.round_killhs != c.state.round_killhs ==> s.contains(GameEvent::PlayerRoundHeadshotKillsChanged(PlayerRoundHeadshotKillsChanged { player: c, previous: p.state.round_killhs, new: c.state.round_killhs }))
            &&& p.state.round_totaldmg != c.state.round_totaldmg ==> s.contains(GameEvent::PlayerRoundTotalDamageChanged(PlayerRoundTotalDamageChanged { player: c, previous: p.state.round_totaldmg, new: c.state.round_totaldmg }))
            &&& p.activity != c.activity ==> s.contains(GameEvent::PlayerActivityChanged(PlayerActivityChanged { player: c, previous: p.activity, new: c.activity }))
            &&& p.team != c.team ==> s.contains(GameEvent::PlayerTeamChanged(PlayerTeamChanged { player: c, previous: p.team, new: c.team }))
            &&& p.match_stats != c.match_stats ==> s.contains(GameEvent::PlayerStatsChanged(PlayerStatsChanged { player: c, previous: p.match_stats, new: c.match_stats }))
        }),
{
    let p = prev.player->0;
    let c = cur.player->0;
    let pv = Some(prev);
    let obs = observed_players(pv, cur);
    let head = head_events(pv, cur);
    let pe = events_of_players(obs);
    let kf = killfeed(deaths_of(obs), kills_of(obs));
    let d = diff(pv, cur);
    assert(d == head + pe + kf);
    assert(obs[0] == (Some(p), c));
    assert(player_events(Some(p), c) == changed_player_events(p, c));
    lemma_changed_contains(p, c);
    assert forall|e: GameEvent| changed_player_events(p, c).contains(e) implies d.contains(e) by {
        lemma_first_player_in(obs, e);
        lemma_in_concat(head, pe, e);
        lemma_in_concat(head + pe, kf, e);
    }
}

} // verus!
