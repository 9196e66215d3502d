//! Strongly typed events derived from consecutive [`GameState`] snapshots.
//!
//! Events are derived from a per-tick diff of two consecutive [`GameState`]
//! snapshots. Each event variant carries the relevant subject (`player`,
//! `team`, `bomb`, ...) plus, where applicable, the `previous` and `new`
//! values to make reaction code straightforward.

use vstd::prelude::*;
use crate::model::{
    BombRoundState, GameState, MapPhase, MatchStats, Player, PlayerActivity, PlayerTeam, Provider,
    RoundPhase, WinningTeam,
};

verus! {

// ------------------------- Player events ------------------------------------

/// A player record changed in some way (catch-all). Fired alongside any of
/// the more specific player events below.
#[derive(Clone, Debug, PartialEq)]
pub struct PlayerUpdated {
    /// Updated player snapshot.
    pub player: Player,
    /// Previous snapshot of the same player (`None` if just connected).
    pub previous: Option<Player>,
}

/// Player health dropped to zero — they were killed.
#[derive(Clone, Debug, PartialEq)]
pub struct PlayerDied {
    /// Player who died.
    pub player: Player,
    /// HP before the killing damage.
    pub previous_health: i32,
    /// HP after (always `0`).
    pub new_health: i32,
}

/// Player respawned (HP went from `0` back to `> 0`).
#[derive(Clone, Debug, PartialEq)]
pub struct PlayerRespawned {
    /// Player who respawned.
    pub player: Player,
    /// HP before respawn (`0`).
    pub previous_health: i32,
    /// HP after respawn.
    pub new_health: i32,
}

/// Player took non-lethal damage.
#[derive(Clone, Debug, PartialEq)]
pub struct PlayerTookDamage {
    /// Affected player.
    pub player: Player,
    /// HP before the damage.
    pub previous_health: i32,
    /// HP after the damage.
    pub new_health: i32,
}

/// Player's `round_kills` counter increased — they got a kill.
#[derive(Clone, Debug, PartialEq)]
pub struct PlayerGotKill {
    /// Player who got the kill.
    pub player: Player,
    /// Round-kill count before the kill.
    pub previous_round_kills: i32,
    /// Round-kill count after the kill.
    pub new_round_kills: i32,
    /// `true` if the kill was a headshot (derived from `round_killhs` delta).
    pub is_headshot: bool,
    /// Currently equipped weapon at the moment the kill was observed.
    pub weapon: Option<String>,
}

/// Player's HP changed (any direction).
#[derive(Clone, Debug, PartialEq)]
pub struct PlayerHealthChanged {
    /// Affected player.
    pub player: Player,
    /// HP before.
    pub previous: i32,
    /// HP after.
    pub new: i32,
}

/// Player's armor value changed.
#[derive(Clone, Debug, PartialEq)]
pub struct PlayerArmorChanged {
    /// Affected player.
    pub player: Player,
    /// Armor before.
    pub previous: i32,
    /// Armor after.
    pub new: i32,
}

/// Player's helmet status changed.
#[derive(Clone, Debug, PartialEq)]
pub struct PlayerHelmetChanged {
    /// Affected player.
    pub player: Player,
    /// Helmet status before.
    pub previous: bool,
    /// Helmet status after.
    pub new: bool,
}

/// Flash blindness level changed.
#[derive(Clone, Debug, PartialEq)]
pub struct PlayerFlashAmountChanged {
    /// Affected player.
    pub player: Player,
    /// Flash level before.
    pub previous: i32,
    /// Flash level after.
    pub new: i32,
}

/// Smoke obscurance level changed.
#[derive(Clone, Debug, PartialEq)]
pub struct PlayerSmokedAmountChanged {
    /// Affected player.
    pub player: Player,
    /// Smoke level before.
    pub previous: i32,
    /// Smoke level after.
    pub new: i32,
}

/// Burning level changed (molotov / incendiary).
#[derive(Clone, Debug, PartialEq)]
pub struct PlayerBurningAmountChanged {
    /// Affected player.
    pub player: Player,
    /// Burning level before.
    pub previous: i32,
    /// Burning level after.
    pub new: i32,
}

/// Cash on hand changed.
#[derive(Clone, Debug, PartialEq)]
pub struct PlayerMoneyAmountChanged {
    /// Affected player.
    pub player: Player,
    /// Money before.
    pub previous: i32,
    /// Money after.
    pub new: i32,
}

/// Equipment value carried changed.
#[derive(Clone, Debug, PartialEq)]
pub struct PlayerEquipmentValueChanged {
    /// Affected player.
    pub player: Player,
    /// Equipment value before.
    pub previous: i32,
    /// Equipment value after.
    pub new: i32,
}

/// Round-kill counter changed (any direction, including reset to 0).
#[derive(Clone, Debug, PartialEq)]
pub struct PlayerRoundKillsChanged {
    /// Affected player.
    pub player: Player,
    /// Round kills before.
    pub previous: i32,
    /// Round kills after.
    pub new: i32,
}

/// Round headshot-kill counter changed.
#[derive(Clone, Debug, PartialEq)]
pub struct PlayerRoundHeadshotKillsChanged {
    /// Affected player.
    pub player: Player,
    /// Headshot kills before.
    pub previous: i32,
    /// Headshot kills after.
    pub new: i32,
}

/// Round total-damage counter changed.
#[derive(Clone, Debug, PartialEq)]
pub struct PlayerRoundTotalDamageChanged {
    /// Affected player.
    pub player: Player,
    /// Round damage before.
    pub previous: i32,
    /// Round damage after.
    pub new: i32,
}

/// Player's [`PlayerActivity`] changed (e.g. began typing, opened menu).
#[derive(Clone, Debug, PartialEq)]
pub struct PlayerActivityChanged {
    /// Affected player.
    pub player: Player,
    /// Activity before.
    pub previous: PlayerActivity,
    /// Activity after.
    pub new: PlayerActivity,
}

/// Player switched sides (e.g. half-time swap, joined).
#[derive(Clone, Debug, PartialEq)]
pub struct PlayerTeamChanged {
    /// Affected player.
    pub player: Player,
    /// Team before.
    pub previous: PlayerTeam,
    /// Team after.
    pub new: PlayerTeam,
}

/// Player's actively held weapon changed.
#[derive(Clone, Debug, PartialEq)]
pub struct PlayerActiveWeaponChanged {
    /// Affected player.
    pub player: Player,
    /// Previous active weapon name.
    pub previous: Option<String>,
    /// Current active weapon name.
    pub new: Option<String>,
}

/// Per-match stats changed.
#[derive(Clone, Debug, PartialEq)]
pub struct PlayerStatsChanged {
    /// Affected player.
    pub player: Player,
    /// Stats before.
    pub previous: MatchStats,
    /// Stats after.
    pub new: MatchStats,
}

// ------------------------- Round / Match events -----------------------------

/// Any field of `round` changed.
#[derive(Clone, Debug, PartialEq)]
pub struct RoundUpdated {
    /// Previous round phase.
    pub previous_phase: RoundPhase,
    /// New round phase.
    pub new_phase: RoundPhase,
}

/// Round phase transitioned (`freezetime` → `live` → `over`).
#[derive(Clone, Debug, PartialEq)]
pub struct RoundPhaseUpdated {
    /// Previous round phase.
    pub previous: RoundPhase,
    /// New round phase.
    pub new: RoundPhase,
}

/// Round entered the `live` phase.
#[derive(Clone, Debug, PartialEq)]
pub struct RoundStarted;

/// Round entered the `over` phase.
#[derive(Clone, Debug, PartialEq)]
pub struct RoundConcluded {
    /// Side that won the round.
    pub winning_team: WinningTeam,
}

/// Round freezetime began.
#[derive(Clone, Debug, PartialEq)]
pub struct FreezetimeStarted;

/// Round freezetime ended.
#[derive(Clone, Debug, PartialEq)]
pub struct FreezetimeOver;

/// Match transitioned out of warmup into live play.
#[derive(Clone, Debug, PartialEq)]
pub struct MatchStarted;

/// Match ended.
#[derive(Clone, Debug, PartialEq)]
pub struct GameOver;

/// Bomb-state field of `round.bomb` changed.
#[derive(Clone, Debug, PartialEq)]
pub struct BombStateUpdated {
    /// State before.
    pub previous: BombRoundState,
    /// State after.
    pub new: BombRoundState,
}

// ------------------------- Map events ---------------------------------------

/// Any field of the `map` block changed.
#[derive(Clone, Debug, PartialEq)]
pub struct MapUpdated;

/// `map.mode` changed (e.g. competitive → wingman).
#[derive(Clone, Debug, PartialEq)]
pub struct GamemodeChanged {
    /// Previous mode string.
    pub previous: String,
    /// New mode string.
    pub new: String,
}

/// `map.name` changed.
#[derive(Clone, Debug, PartialEq)]
pub struct LevelChanged {
    /// Previous map filename.
    pub previous: String,
    /// New map filename.
    pub new: String,
}

/// Map phase changed.
#[derive(Clone, Debug, PartialEq)]
pub struct MapPhaseChanged {
    /// Previous map phase.
    pub previous: MapPhase,
    /// New map phase.
    pub new: MapPhase,
}

/// Either side's score changed.
#[derive(Clone, Debug, PartialEq)]
pub struct TeamScoreChanged {
    /// Side whose score changed.
    pub team: PlayerTeam,
    /// Score before.
    pub previous: u32,
    /// Score after.
    pub new: u32,
}

// ------------------------- Bomb (root-level) --------------------------------

/// Any field of the root `bomb` node changed.
#[derive(Clone, Debug, PartialEq)]
pub struct BombUpdated;

/// Bomb is being planted (planting animation in progress).
#[derive(Clone, Debug, PartialEq)]
pub struct BombPlanting;

/// Bomb has been planted and is counting down.
#[derive(Clone, Debug, PartialEq)]
pub struct BombPlanted;

/// Bomb is being defused.
#[derive(Clone, Debug, PartialEq)]
pub struct BombDefusing;

/// Bomb has been defused.
#[derive(Clone, Debug, PartialEq)]
pub struct BombDefused;

/// Bomb has exploded.
#[derive(Clone, Debug, PartialEq)]
pub struct BombExploded;

/// Bomb was dropped on the ground.
#[derive(Clone, Debug, PartialEq)]
pub struct BombDropped;

/// Bomb was picked up by a T player.
#[derive(Clone, Debug, PartialEq)]
pub struct BombPickedUp;

// ------------------------- Killfeed (synthesised) ---------------------------

/// A kill was attributed end-to-end. Synthesised by correlating
/// [`PlayerDied`] with [`PlayerGotKill`] within the same diff window.
#[derive(Clone, Debug, PartialEq)]
pub struct KillFeed {
    /// Player who got the kill.
    pub killer: Player,
    /// Player who died.
    pub victim: Player,
    /// Weapon used (best-effort — based on the killer's active weapon).
    pub weapon: Option<String>,
    /// `true` if the kill was a headshot.
    pub is_headshot: bool,
}

// ------------------------- Meta events --------------------------------------

/// Auth block in the cfg file changed (rarely fires — auth is set once).
#[derive(Clone, Debug, PartialEq)]
pub struct AuthUpdated;

/// Provider info changed (CS2 client version / appid).
#[derive(Clone, Debug, PartialEq)]
pub struct ProviderUpdated {
    /// Provider before.
    pub previous: Provider,
    /// Provider after.
    pub new: Provider,
}

/// A new GameState payload was received and parsed. Always fires before any
/// derived events.
#[derive(Clone, Debug)]
pub struct NewGameState {
    /// The freshly parsed state.
    pub state: GameState,
}

// ------------------------- Catch-all enum -----------------------------------

/// Catch-all enum useful for storing heterogeneous events in a queue or
/// matching on every variant in one place. The dedicated `on_xxx` methods on
/// [`GameStateListener`](crate::GameStateListener) accept the strongly typed
/// event structs directly — most users should prefer those.
///
/// `NewGameState` carries a full [`GameState`] and is therefore boxed so the
/// total enum size stays small.
#[derive(Clone, Debug)]
#[non_exhaustive]
pub enum GameEvent {
    /// See [`NewGameState`].
    NewGameState(Box<NewGameState>),
    /// See [`AuthUpdated`].
    AuthUpdated(AuthUpdated),
    /// See [`ProviderUpdated`].
    ProviderUpdated(ProviderUpdated),
    /// See [`MapUpdated`].
    MapUpdated(MapUpdated),
    /// See [`GamemodeChanged`].
    GamemodeChanged(GamemodeChanged),
    /// See [`LevelChanged`].
    LevelChanged(LevelChanged),
    /// See [`MapPhaseChanged`].
    MapPhaseChanged(MapPhaseChanged),
    /// See [`TeamScoreChanged`].
    TeamScoreChanged(TeamScoreChanged),
    /// See [`RoundUpdated`].
    RoundUpdated(RoundUpdated),
    /// See [`RoundPhaseUpdated`].
    RoundPhaseUpdated(RoundPhaseUpdated),
    /// See [`RoundStarted`].
    RoundStarted(RoundStarted),
    /// See [`RoundConcluded`].
    RoundConcluded(RoundConcluded),
    /// See [`FreezetimeStarted`].
    FreezetimeStarted(FreezetimeStarted),
    /// See [`FreezetimeOver`].
    FreezetimeOver(FreezetimeOver),
    /// See [`MatchStarted`].
    MatchStarted(MatchStarted),
    /// See [`GameOver`].
    GameOver(GameOver),
    /// See [`BombStateUpdated`].
    BombStateUpdated(BombStateUpdated),
    /// See [`BombUpdated`].
    BombUpdated(BombUpdated),
    /// See [`BombPlanting`].
    BombPlanting(BombPlanting),
    /// See [`BombPlanted`].
    BombPlanted(BombPlanted),
    /// See [`BombDefusing`].
    BombDefusing(BombDefusing),
    /// See [`BombDefused`].
    BombDefused(BombDefused),
    /// See [`BombExploded`].
    BombExploded(BombExploded),
    /// See [`BombDropped`].
    BombDropped(BombDropped),
    /// See [`BombPickedUp`].
    BombPickedUp(BombPickedUp),
    /// See [`PlayerUpdated`].
    PlayerUpdated(PlayerUpdated),
    /// See [`PlayerDied`].
    PlayerDied(PlayerDied),
    /// See [`PlayerRespawned`].
    PlayerRespawned(PlayerRespawned),
    /// See [`PlayerTookDamage`].
    PlayerTookDamage(PlayerTookDamage),
    /// See [`PlayerGotKill`].
    PlayerGotKill(PlayerGotKill),
    /// See [`PlayerHealthChanged`].
    PlayerHealthChanged(PlayerHealthChanged),
    /// See [`PlayerArmorChanged`].
    PlayerArmorChanged(PlayerArmorChanged),
    /// See [`PlayerHelmetChanged`].
    PlayerHelmetChanged(PlayerHelmetChanged),
    /// See [`PlayerFlashAmountChanged`].
    PlayerFlashAmountChanged(PlayerFlashAmountChanged),
    /// See [`PlayerSmokedAmountChanged`].
    PlayerSmokedAmountChanged(PlayerSmokedAmountChanged),
    /// See [`PlayerBurningAmountChanged`].
    PlayerBurningAmountChanged(PlayerBurningAmountChanged),
    /// See [`PlayerMoneyAmountChanged`].
    PlayerMoneyAmountChanged(PlayerMoneyAmountChanged),
    /// See [`PlayerEquipmentValueChanged`].
    PlayerEquipmentValueChanged(PlayerEquipmentValueChanged),
    /// See [`PlayerRoundKillsChanged`].
    PlayerRoundKillsChanged(PlayerRoundKillsChanged),
    /// See [`PlayerRoundHeadshotKillsChanged`].
    PlayerRoundHeadshotKillsChanged(PlayerRoundHeadshotKillsChanged),
    /// See [`PlayerRoundTotalDamageChanged`].
    PlayerRoundTotalDamageChanged(PlayerRoundTotalDamageChanged),
    /// See [`PlayerActivityChanged`].
    PlayerActivityChanged(PlayerActivityChanged),
    /// See [`PlayerTeamChanged`].
    PlayerTeamChanged(PlayerTeamChanged),
    /// See [`PlayerActiveWeaponChanged`].
    PlayerActiveWeaponChanged(PlayerActiveWeaponChanged),
    /// See [`PlayerStatsChanged`].
    PlayerStatsChanged(PlayerStatsChanged),
    /// See [`KillFeed`].
    KillFeed(KillFeed),
}

/// The type of an event, one per [`GameEvent`] variant. Handlers are
/// registered for a kind.
#[derive(Clone, Copy, Debug, PartialEq, Eq, Structural, Hash)]
pub enum EventKind {
    /// The kind of [`NewGameState`].
    NewGameState,
    /// The kind of [`AuthUpdated`].
    AuthUpdated,
    /// The kind of [`ProviderUpdated`].
    ProviderUpdated,
    /// The kind of [`MapUpdated`].
    MapUpdated,
    /// The kind of [`GamemodeChanged`].
    GamemodeChanged,
    /// The kind of [`LevelChanged`].
    LevelChanged,
    /// The kind of [`MapPhaseChanged`].
    MapPhaseChanged,
    /// The kind of [`TeamScoreChanged`].
    TeamScoreChanged,
    /// The kind of [`RoundUpdated`].
    RoundUpdated,
    /// The kind of [`RoundPhaseUpdated`].
    RoundPhaseUpdated,
    /// The kind of [`RoundStarted`].
    RoundStarted,
    /// The kind of [`RoundConcluded`].
    RoundConcluded,
    /// The kind of [`FreezetimeStarted`].
    FreezetimeStarted,
    /// The kind of [`FreezetimeOver`].
    FreezetimeOver,
    /// The kind of [`MatchStarted`].
    MatchStarted,
    /// The kind of [`GameOver`].
    GameOver,
    /// The kind of [`BombStateUpdated`].
    BombStateUpdated,
    /// The kind of [`BombUpdated`].
    BombUpdated,
    /// The kind of [`BombPlanting`].
    BombPlanting,
    /// The kind of [`BombPlanted`].
    BombPlanted,
    /// The kind of [`BombDefusing`].
    BombDefusing,
    /// The kind of [`BombDefused`].
    BombDefused,
    /// The kind of [`BombExploded`].
    BombExploded,
    /// The kind of [`BombDropped`].
    BombDropped,
    /// The kind of [`BombPickedUp`].
    BombPickedUp,
    /// The kind of [`PlayerUpdated`].
    PlayerUpdated,
    /// The kind of [`PlayerDied`].
    PlayerDied,
    /// The kind of [`PlayerRespawned`].
    PlayerRespawned,
    /// The kind of [`PlayerTookDamage`].
    PlayerTookDamage,
    /// The kind of [`PlayerGotKill`].
    PlayerGotKill,
    /// The kind of [`PlayerHealthChanged`].
    PlayerHealthChanged,
    /// The kind of [`PlayerArmorChanged`].
    PlayerArmorChanged,
    /// The kind of [`PlayerHelmetChanged`].
    PlayerHelmetChanged,
    /// The kind of [`PlayerFlashAmountChanged`].
    PlayerFlashAmountChanged,
    /// The kind of [`PlayerSmokedAmountChanged`].
    PlayerSmokedAmountChanged,
    /// The kind of [`PlayerBurningAmountChanged`].
    PlayerBurningAmountChanged,
    /// The kind of [`PlayerMoneyAmountChanged`].
    PlayerMoneyAmountChanged,
    /// The kind of [`PlayerEquipmentValueChanged`].
    PlayerEquipmentValueChanged,
    /// The kind of [`PlayerRoundKillsChanged`].
    PlayerRoundKillsChanged,
    /// The kind of [`PlayerRoundHeadshotKillsChanged`].
    PlayerRoundHeadshotKillsChanged,
    /// The kind of [`PlayerRoundTotalDamageChanged`].
    PlayerRoundTotalDamageChanged,
    /// The kind of [`PlayerActivityChanged`].
    PlayerActivityChanged,
    /// The kind of [`PlayerTeamChanged`].
    PlayerTeamChanged,
    /// The kind of [`PlayerActiveWeaponChanged`].
    PlayerActiveWeaponChanged,
    /// The kind of [`PlayerStatsChanged`].
    PlayerStatsChanged,
    /// The kind of [`KillFeed`].
    KillFeed,
}

/// The kind of an event.
pub open spec fn event_kind(e: GameEvent) -> EventKind {
    match e {
        GameEvent::NewGameState(_) => EventKind::NewGameState,
        GameEvent::AuthUpdated(_) => EventKind::AuthUpdated,
        GameEvent::ProviderUpdated(_) => EventKind::ProviderUpdated,
        GameEvent::MapUpdated(_) => EventKind::MapUpdated,
        GameEvent::GamemodeChanged(_) => EventKind::GamemodeChanged,
        GameEvent::LevelChanged(_) => EventKind::LevelChanged,
        GameEvent::MapPhaseChanged(_) => EventKind::MapPhaseChanged,
        GameEvent::TeamScoreChanged(_) => EventKind::TeamScoreChanged,
        GameEvent::RoundUpdated(_) => EventKind::RoundUpdated,
        GameEvent::RoundPhaseUpdated(_) => EventKind::RoundPhaseUpdated,
        GameEvent::RoundStarted(_) => EventKind::RoundStarted,
        GameEvent::RoundConcluded(_) => EventKind::RoundConcluded,
        GameEvent::FreezetimeStarted(_) => EventKind::FreezetimeStarted,
        GameEvent::FreezetimeOver(_) => EventKind::FreezetimeOver,
        GameEvent::MatchStarted(_) => EventKind::MatchStarted,
        GameEvent::GameOver(_) => EventKind::GameOver,
        GameEvent::BombStateUpdated(_) => EventKind::BombStateUpdated,
        GameEvent::BombUpdated(_) => EventKind::BombUpdated,
        GameEvent::BombPlanting(_) => EventKind::BombPlanting,
        GameEvent::BombPlanted(_) => EventKind::BombPlanted,
        GameEvent::BombDefusing(_) => EventKind::BombDefusing,
        GameEvent::BombDefused(_) => EventKind::BombDefused,
        GameEvent::BombExploded(_) => EventKind::BombExploded,
        GameEvent::BombDropped(_) => EventKind::BombDropped,
        GameEvent::BombPickedUp(_) => EventKind::BombPickedUp,
        GameEvent::PlayerUpdated(_) => EventKind::PlayerUpdated,
        GameEvent::PlayerDied(_) => EventKind::PlayerDied,
        GameEvent::PlayerRespawned(_) => EventKind::PlayerRespawned,
        GameEvent::PlayerTookDamage(_) => EventKind::PlayerTookDamage,
        GameEvent::PlayerGotKill(_) => EventKind::PlayerGotKill,
        GameEvent::PlayerHealthChanged(_) => EventKind::PlayerHealthChanged,
        GameEvent::PlayerArmorChanged(_) => EventKind::PlayerArmorChanged,
        GameEvent::PlayerHelmetChanged(_) => EventKind::PlayerHelmetChanged,
        GameEvent::PlayerFlashAmountChanged(_) => EventKind::PlayerFlashAmountChanged,
        GameEvent::PlayerSmokedAmountChanged(_) => EventKind::PlayerSmokedAmountChanged,
        GameEvent::PlayerBurningAmountChanged(_) => EventKind::PlayerBurningAmountChanged,
        GameEvent::PlayerMoneyAmountChanged(_) => EventKind::PlayerMoneyAmountChanged,
        GameEvent::PlayerEquipmentValueChanged(_) => EventKind::PlayerEquipmentValueChanged,
        GameEvent::PlayerRoundKillsChanged(_) => EventKind::PlayerRoundKillsChanged,
        GameEvent::PlayerRoundHeadshotKillsChanged(_) => EventKind::PlayerRoundHeadshotKillsChanged,
        GameEvent::PlayerRoundTotalDamageChanged(_) => EventKind::PlayerRoundTotalDamageChanged,
        GameEvent::PlayerActivityChanged(_) => EventKind::PlayerActivityChanged,
        GameEvent::PlayerTeamChanged(_) => EventKind::PlayerTeamChanged,
        GameEvent::PlayerActiveWeaponChanged(_) => EventKind::PlayerActiveWeaponChanged,
        GameEvent::PlayerStatsChanged(_) => EventKind::PlayerStatsChanged,
        GameEvent::KillFeed(_) => EventKind::KillFeed,
    }
}

impl GameEvent {
    /// The kind of this event.
    pub fn kind(&self) -> (k: EventKind)
        ensures
            k == event_kind(*self),
    {
        match self {
            GameEvent::NewGameState(_) => EventKind::NewGameState,
            GameEvent::AuthUpdated(_) => EventKind::AuthUpdated,
            GameEvent::ProviderUpdated(_) => EventKind::ProviderUpdated,
            GameEvent::MapUpdated(_) => EventKind::MapUpdated,
            GameEvent::GamemodeChanged(_) => EventKind::GamemodeChanged,
            GameEvent::LevelChanged(_) => EventKind::LevelChanged,
            GameEvent::MapPhaseChanged(_) => EventKind::MapPhaseChanged,
            GameEvent::TeamScoreChanged(_) => EventKind::TeamScoreChanged,
            GameEvent::RoundUpdated(_) => EventKind::RoundUpdated,
            GameEvent::RoundPhaseUpdated(_) => EventKind::RoundPhaseUpdated,
            GameEvent::RoundStarted(_) => EventKind::RoundStarted,
            GameEvent::RoundConcluded(_) => EventKind::RoundConcluded,
            GameEvent::FreezetimeStarted(_) => EventKind::FreezetimeStarted,
            GameEvent::FreezetimeOver(_) => EventKind::FreezetimeOver,
            GameEvent::MatchStarted(_) => EventKind::MatchStarted,
            GameEvent::GameOver(_) => EventKind::GameOver,
            GameEvent::BombStateUpdated(_) => EventKind::BombStateUpdated,
            GameEvent::BombUpdated(_) => EventKind::BombUpdated,
            GameEvent::BombPlanting(_) => EventKind::BombPlanting,
            GameEvent::BombPlanted(_) => EventKind::BombPlanted,
            GameEvent::BombDefusing(_) => EventKind::BombDefusing,
            GameEvent::BombDefused(_) => EventKind::BombDefused,
            GameEvent::BombExploded(_) => EventKind::BombExploded,
            GameEvent::BombDropped(_) => EventKind::BombDropped,
            GameEvent::BombPickedUp(_) => EventKind::BombPickedUp,
            GameEvent::PlayerUpdated(_) => EventKind::PlayerUpdated,
            GameEvent::PlayerDied(_) => EventKind::PlayerDied,
            GameEvent::PlayerRespawned(_) => EventKind::PlayerRespawned,
            GameEvent::PlayerTookDamage(_) => EventKind::PlayerTookDamage,
            GameEvent::PlayerGotKill(_) => EventKind::PlayerGotKill,
            GameEvent::PlayerHealthChanged(_) => EventKind::PlayerHealthChanged,
            GameEvent::PlayerArmorChanged(_) => EventKind::PlayerArmorChanged,
            GameEvent::PlayerHelmetChanged(_) => EventKind::PlayerHelmetChanged,
            GameEvent::PlayerFlashAmountChanged(_) => EventKind::PlayerFlashAmountChanged,
            GameEvent::PlayerSmokedAmountChanged(_) => EventKind::PlayerSmokedAmountChanged,
            GameEvent::PlayerBurningAmountChanged(_) => EventKind::PlayerBurningAmountChanged,
            GameEvent::PlayerMoneyAmountChanged(_) => EventKind::PlayerMoneyAmountChanged,
            GameEvent::PlayerEquipmentValueChanged(_) => EventKind::PlayerEquipmentValueChanged,
            GameEvent::PlayerRoundKillsChanged(_) => EventKind::PlayerRoundKillsChanged,
            GameEvent::PlayerRoundHeadshotKillsChanged(_) => EventKind::PlayerRoundHeadshotKillsChanged,
            GameEvent::PlayerRoundTotalDamageChanged(_) => EventKind::PlayerRoundTotalDamageChanged,
            GameEvent::PlayerActivityChanged(_) => EventKind::PlayerActivityChanged,
            GameEvent::PlayerTeamChanged(_) => EventKind::PlayerTeamChanged,
            GameEvent::PlayerActiveWeaponChanged(_) => EventKind::PlayerActiveWeaponChanged,
            GameEvent::PlayerStatsChanged(_) => EventKind::PlayerStatsChanged,
            GameEvent::KillFeed(_) => EventKind::KillFeed,
        }
    }
}

/// Every event is filed under the kind of the same name, and under no
/// other: an event of variant `V` has kind `EventKind::V`, and an event of
/// kind `EventKind::V` is of variant `V`. So firing an event reaches exactly
/// the handlers registered for its own variant (then the catch-all ones).
pub proof fn lemma_kind_names_variant(e: GameEvent)
    ensures
        (e is AuthUpdated) <==> event_kind(e) == EventKind::AuthUpdated,
        (e is BombDefused) <==> event_kind(e) == EventKind::BombDefused,
        (e is BombDefusing) <==> event_kind(e) == EventKind::BombDefusing,
        (e is BombDropped) <==> event_kind(e) == EventKind::BombDropped,
        (e is BombExploded) <==> event_kind(e) == EventKind::BombExploded,
        (e is BombPickedUp) <==> event_kind(e) == EventKind::BombPickedUp,
        (e is BombPlanted) <==> event_kind(e) == EventKind::BombPlanted,
        (e is BombPlanting) <==> event_kind(e) == EventKind::BombPlanting,
        (e is BombStateUpdated) <==> event_kind(e) == EventKind::BombStateUpdated,
        (e is BombUpdated) <==> event_kind(e) == EventKind::BombUpdated,
        (e is FreezetimeOver) <==> event_kind(e) == EventKind::FreezetimeOver,
        (e is FreezetimeStarted) <==> event_kind(e) == EventKind::FreezetimeStarted,
        (e is GameOver) <==> event_kind(e) == EventKind::GameOver,
        (e is GamemodeChanged) <==> event_kind(e) == EventKind::GamemodeChanged,
        (e is KillFeed) <==> event_kind(e) == EventKind::KillFeed,
        (e is LevelChanged) <==> event_kind(e) == EventKind::LevelChanged,
        (e is MapPhaseChanged) <==> event_kind(e) == EventKind::MapPhaseChanged,
        (e is MapUpdated) <==> event_kind(e) == EventKind::MapUpdated,
        (e is MatchStarted) <==> event_kind(e) == EventKind::MatchStarted,
        (e is NewGameState) <==> event_kind(e) == EventKind::NewGameState,
        (e is PlayerActiveWeaponChanged) <==> event_kind(e) == EventKind::PlayerActiveWeaponChanged,
        (e is PlayerActivityChanged) <==> event_kind(e) == EventKind::PlayerActivityChanged,
        (e is PlayerArmorChanged) <==> event_kind(e) == EventKind::PlayerArmorChanged,
        (e is PlayerBurningAmountChanged) <==> event_kind(e) == EventKind::PlayerBurningAmountChanged,
        (e is PlayerDied) <==> event_kind(e) == EventKind::PlayerDied,
        (e is PlayerEquipmentValueChanged) <==> event_kind(e) == EventKind::PlayerEquipmentValueChanged,
        (e is PlayerFlashAmountChanged) <==> event_kind(e) == EventKind::PlayerFlashAmountChanged,
        (e is PlayerGotKill) <==> event_kind(e) == EventKind::PlayerGotKill,
        (e is PlayerHealthChanged) <==> event_kind(e) == EventKind::PlayerHealthChanged,
        (e is PlayerHelmetChanged) <==> event_kind(e) == EventKind::PlayerHelmetChanged,
        (e is PlayerMoneyAmountChanged) <==> event_kind(e) == EventKind::PlayerMoneyAmountChanged,
        (e is PlayerRespawned) <==> event_kind(e) == EventKind::PlayerRespawned,
        (e is PlayerRoundHeadshotKillsChanged) <==> event_kind(e) == EventKind::PlayerRoundHeadshotKillsChanged,
        (e is PlayerRoundKillsChanged) <==> event_kind(e) == EventKind::PlayerRoundKillsChanged,
        (e is PlayerRoundTotalDamageChanged) <==> event_kind(e) == EventKind::PlayerRoundTotalDamageChanged,
        (e is PlayerSmokedAmountChanged) <==> event_kind(e) == EventKind::PlayerSmokedAmountChanged,
        (e is PlayerStatsChanged) <==> event_kind(e) == EventKind::PlayerStatsChanged,
        (e is PlayerTeamChanged) <==> event_kind(e) == EventKind::PlayerTeamChanged,
        (e is PlayerTookDamage) <==> event_kind(e) == EventKind::PlayerTookDamage,
        (e is PlayerUpdated) <==> event_kind(e) == EventKind::PlayerUpdated,
        (e is ProviderUpdated) <==> event_kind(e) == EventKind::ProviderUpdated,
        (e is RoundConcluded) <==> event_kind(e) == EventKind::RoundConcluded,
        (e is RoundPhaseUpdated) <==> event_kind(e) == EventKind::RoundPhaseUpdated,
        (e is RoundStarted) <==> event_kind(e) == EventKind::RoundStarted,
        (e is RoundUpdated) <==> event_kind(e) == EventKind::RoundUpdated,
        (e is TeamScoreChanged) <==> event_kind(e) == EventKind::TeamScoreChanged,
{
}

} // verus!
