//! Player node: both the local observer and entries inside `allplayers`.

use vstd::prelude::*;
use crate::snapshot::Snapshot;
use crate::strmap::StrMap;

verus! {

/// A single player snapshot.
#[derive(Clone, Debug, PartialEq)]
pub struct Player {
    /// 64-bit SteamID. Empty for bots.
    pub steamid: String,
    /// In-game display name.
    pub name: String,
    /// Clan tag, may be empty.
    pub clan: String,
    /// Observer slot number (0..=9 in standard 5v5).
    pub observer_slot: Option<u8>,
    /// XP overload level (CS2 progression).
    pub xp_overload_level: Option<u32>,
    /// Side the player belongs to.
    pub team: PlayerTeam,
    /// Activity (menu / playing / textinput).
    pub activity: PlayerActivity,
    /// Volatile per-tick state (health, armor, money, ...).
    pub state: PlayerState,
    /// Per-match aggregate statistics.
    pub match_stats: MatchStats,
    /// Inventory keyed by weapon slot id (e.g. `"weapon_0"`).
    pub weapons: StrMap<Weapon>,
    /// SteamID of the player currently being spectated (when `activity = playing` is false).
    pub spectarget: String,
    /// World position vector, formatted by CS2 as `"x, y, z"`.
    pub position: String,
    /// Forward look direction vector, formatted by CS2 as `"x, y, z"`.
    pub forward: String,
}

impl Snapshot for Player {
    open spec fn same(&self, other: &Self) -> bool {
        &&& self.steamid.same(&other.steamid)
        &&& self.name.same(&other.name)
        &&& self.clan.same(&other.clan)
        &&& self.observer_slot.same(&other.observer_slot)
        &&& self.xp_overload_level.same(&other.xp_overload_level)
        &&& self.team.same(&other.team)
        &&& self.activity.same(&other.activity)
        &&& self.state.same(&other.state)
        &&& self.match_stats.same(&other.match_stats)
        &&& self.weapons.same(&other.weapons)
        &&& self.spectarget.same(&other.spectarget)
        &&& self.position.same(&other.position)
        &&& self.forward.same(&other.forward)
    }

    open spec fn no_nan(&self) -> bool {
        &&& self.steamid.no_nan()
        &&& self.name.no_nan()
        &&& self.clan.no_nan()
        &&& self.observer_slot.no_nan()
        &&& self.xp_overload_level.no_nan()
        &&& self.team.no_nan()
        &&& self.activity.no_nan()
        &&& self.state.no_nan()
        &&& self.match_stats.no_nan()
        &&& self.weapons.no_nan()
        &&& self.spectarget.no_nan()
        &&& self.position.no_nan()
        &&& self.forward.no_nan()
    }

    proof fn lemma_same_reflexive(&self) {
        self.steamid.lemma_same_reflexive();
        self.name.lemma_same_reflexive();
        self.clan.lemma_same_reflexive();
        self.observer_slot.lemma_same_reflexive();
        self.xp_overload_level.lemma_same_reflexive();
        self.team.lemma_same_reflexive();
        self.activity.lemma_same_reflexive();
        self.state.lemma_same_reflexive();
        self.match_stats.lemma_same_reflexive();
        self.weapons.lemma_same_reflexive();
        self.spectarget.lemma_same_reflexive();
        self.position.lemma_same_reflexive();
        self.forward.lemma_same_reflexive();
    }

    fn same_as(&self, other: &Self) -> (r: bool) {
        self.steamid.same_as(&other.steamid)
            && self.name.same_as(&other.name)
            && self.clan.same_as(&other.clan)
            && self.observer_slot.same_as(&other.observer_slot)
            && self.xp_overload_level.same_as(&other.xp_overload_level)
            && self.team.same_as(&other.team)
            && self.activity.same_as(&other.activity)
            && self.state.same_as(&other.state)
            && self.match_stats.same_as(&other.match_stats)
            && self.weapons.same_as(&other.weapons)
            && self.spectarget.same_as(&other.spectarget)
            && self.position.same_as(&other.position)
            && self.forward.same_as(&other.forward)
    }

    fn snapshot(&self) -> (r: Self) {
        Player {
            steamid: self.steamid.snapshot(),
            name: self.name.snapshot(),
            clan: self.clan.snapshot(),
            observer_slot: self.observer_slot.snapshot(),
            xp_overload_level: self.xp_overload_level.snapshot(),
            team: self.team.snapshot(),
            activity: self.activity.snapshot(),
            state: self.state.snapshot(),
            match_stats: self.match_stats.snapshot(),
            weapons: self.weapons.snapshot(),
            spectarget: self.spectarget.snapshot(),
            position: self.position.snapshot(),
            forward: self.forward.snapshot(),
        }
    }
}

impl Default for Player {
    fn default() -> (r: Self)
        ensures
            r.steamid@ == Seq::<char>::empty(),
            r.name@ == Seq::<char>::empty(),
            r.clan@ == Seq::<char>::empty(),
            r.observer_slot is None,
            r.xp_overload_level is None,
            r.team == PlayerTeam::Unassigned,
            r.activity == PlayerActivity::Unknown,
            r.weapons.pairs().len() == 0,
            r.spectarget@ == Seq::<char>::empty(),
            r.position@ == Seq::<char>::empty(),
            r.forward@ == Seq::<char>::empty(),
    {
        Player {
            steamid: String::new(),
            name: String::new(),
            clan: String::new(),
            observer_slot: None,
            xp_overload_level: None,
            team: PlayerTeam::Unassigned,
            activity: PlayerActivity::Unknown,
            state: PlayerState::default(),
            match_stats: MatchStats::default(),
            weapons: StrMap::new(),
            spectarget: String::new(),
            position: String::new(),
            forward: String::new(),
        }
    }
}

/// Side the player is on.
#[derive(Clone, Copy, Debug, Default, PartialEq, Eq, Structural, Hash)]
pub enum PlayerTeam {
    /// Counter-Terrorists.
    CT,
    /// Terrorists.
    T,
    /// Player has not joined a side yet.
    #[default]
    Unassigned,
}

impl Snapshot for PlayerTeam {
    open spec fn same(&self, other: &Self) -> bool {
        *self == *other
    }

    open spec fn no_nan(&self) -> bool {
        true
    }

    proof fn lemma_same_reflexive(&self) {
    }

    fn same_as(&self, other: &Self) -> (r: bool) {
        *self == *other
    }

    fn snapshot(&self) -> (r: Self) {
        *self
    }
}

/// What the player is currently doing.
#[derive(Clone, Copy, Debug, Default, PartialEq, Eq, Structural, Hash)]
pub enum PlayerActivity {
    /// Player is in a menu (e.g. team / loadout selection).
    Menu,
    /// Player is alive in-game.
    Playing,
    /// Player is typing in chat.
    Textinput,
    /// Unrecognized activity.
    #[default]
    Unknown,
}

impl Snapshot for PlayerActivity {
    open spec fn same(&self, other: &Self) -> bool {
        *self == *other
    }

    open spec fn no_nan(&self) -> bool {
        true
    }

    proof fn lemma_same_reflexive(&self) {
    }

    fn same_as(&self, other: &Self) -> (r: bool) {
        *self == *other
    }

    fn snapshot(&self) -> (r: Self) {
        *self
    }
}

/// Volatile per-tick state. Mirrors `player_state` block in the GSI cfg.
#[derive(Clone, Copy, Debug, PartialEq, Eq, Structural)]
pub struct PlayerState {
    /// HP (0..=100). 0 means dead.
    pub health: i32,
    /// Armor value (0..=100).
    pub armor: i32,
    /// Whether the player has a helmet.
    pub helmet: bool,
    /// Whether the player carries a defuse kit (CT only).
    pub defusekit: bool,
    /// Flash blindness level, 0..=255.
    pub flashed: i32,
    /// Smoke obscurance level, 0..=255.
    pub smoked: i32,
    /// Molotov burning level, 0..=255.
    pub burning: i32,
    /// Cash on hand.
    pub money: i32,
    /// Kills accumulated in the current round.
    pub round_kills: i32,
    /// Headshot kills accumulated in the current round.
    pub round_killhs: i32,
    /// Total damage dealt in the current round.
    pub round_totaldmg: i32,
    /// Total equipment value carried.
    pub equip_value: i32,
}

impl Snapshot for PlayerState {
    open spec fn same(&self, other: &Self) -> bool {
        &&& self.health.same(&other.health)
        &&& self.armor.same(&other.armor)
        &&& self.helmet.same(&other.helmet)
        &&& self.defusekit.same(&other.defusekit)
        &&& self.flashed.same(&other.flashed)
        &&& self.smoked.same(&other.smoked)
        &&& self.burning.same(&other.burning)
        &&& self.money.same(&other.money)
        &&& self.round_kills.same(&other.round_kills)
        &&& self.round_killhs.same(&other.round_killhs)
        &&& self.round_totaldmg.same(&other.round_totaldmg)
        &&& self.equip_value.same(&other.equip_value)
    }

    open spec fn no_nan(&self) -> bool {
        &&& self.health.no_nan()
        &&& self.armor.no_nan()
        &&& self.helmet.no_nan()
        &&& self.defusekit.no_nan()
        &&& self.flashed.no_nan()
        &&& self.smoked.no_nan()
        &&& self.burning.no_nan()
        &&& self.money.no_nan()
        &&& self.round_kills.no_nan()
        &&& self.round_killhs.no_nan()
        &&& self.round_totaldmg.no_nan()
        &&& self.equip_value.no_nan()
    }

    proof fn lemma_same_reflexive(&self) {
        self.health.lemma_same_reflexive();
        self.armor.lemma_same_reflexive();
        self.helmet.lemma_same_reflexive();
        self.defusekit.lemma_same_reflexive();
        self.flashed.lemma_same_reflexive();
        self.smoked.lemma_same_reflexive();
        self.burning.lemma_same_reflexive();
        self.money.lemma_same_reflexive();
        self.round_kills.lemma_same_reflexive();
        self.round_killhs.lemma_same_reflexive();
        self.round_totaldmg.lemma_same_reflexive();
        self.equip_value.lemma_same_reflexive();
    }

    fn same_as(&self, other: &Self) -> (r: bool) {
        self.health.same_as(&other.health)
            && self.armor.same_as(&other.armor)
            && self.helmet.same_as(&other.helmet)
            && self.defusekit.same_as(&other.defusekit)
            && self.flashed.same_as(&other.flashed)
            && self.smoked.same_as(&other.smoked)
            && self.burning.same_as(&other.burning)
            && self.money.same_as(&other.money)
            && self.round_kills.same_as(&other.round_kills)
            && self.round_killhs.same_as(&other.round_killhs)
            && self.round_totaldmg.same_as(&other.round_totaldmg)
            && self.equip_value.same_as(&other.equip_value)
    }

    fn snapshot(&self) -> (r: Self) {
        PlayerState {
            health: self.health.snapshot(),
            armor: self.armor.snapshot(),
            helmet: self.helmet.snapshot(),
            defusekit: self.defusekit.snapshot(),
            flashed: self.flashed.snapshot(),
            smoked: self.smoked.snapshot(),
            burning: self.burning.snapshot(),
            money: self.money.snapshot(),
            round_kills: self.round_kills.snapshot(),
            round_killhs: self.round_killhs.snapshot(),
            round_totaldmg: self.round_totaldmg.snapshot(),
            equip_value: self.equip_value.snapshot(),
        }
    }
}

impl Default for PlayerState {
    fn default() -> (r: Self)
        ensures
            r.health == 0,
            r.armor == 0,
            !r.helmet,
            !r.defusekit,
            r.flashed == 0,
            r.smoked == 0,
            r.burning == 0,
            r.money == 0,
            r.round_kills == 0,
            r.round_killhs == 0,
            r.round_totaldmg == 0,
            r.equip_value == 0,
    {
        PlayerState {
            health: 0,
            armor: 0,
            helmet: false,
            defusekit: false,
            flashed: 0,
            smoked: 0,
            burning: 0,
            money: 0,
            round_kills: 0,
            round_killhs: 0,
            round_totaldmg: 0,
            equip_value: 0,
        }
    }
}

/// Per-match aggregate stats. Mirrors `player_match_stats`.
#[derive(Clone, Copy, Debug, PartialEq, Eq, Structural)]
pub struct MatchStats {
    /// Match kills.
    pub kills: i32,
    /// Match assists.
    pub assists: i32,
    /// Match deaths.
    pub deaths: i32,
    /// Round-MVP awards earned this match.
    pub mvps: i32,
    /// Match score.
    pub score: i32,
}

impl Snapshot for MatchStats {
    open spec fn same(&self, other: &Self) -> bool {
        &&& self.kills.same(&other.kills)
        &&& self.assists.same(&other.assists)
        &&& self.deaths.same(&other.deaths)
        &&& self.mvps.same(&other.mvps)
        &&& self.score.same(&other.score)
    }

    open spec fn no_nan(&self) -> bool {
        &&& self.kills.no_nan()
        &&& self.assists.no_nan()
        &&& self.deaths.no_nan()
        &&& self.mvps.no_nan()
        &&& self.score.no_nan()
    }

    proof fn lemma_same_reflexive(&self) {
        self.kills.lemma_same_reflexive();
        self.assists.lemma_same_reflexive();
        self.deaths.lemma_same_reflexive();
        self.mvps.lemma_same_reflexive();
        self.score.lemma_same_reflexive();
    }

    fn same_as(&self, other: &Self) -> (r: bool) {
        self.kills.same_as(&other.kills)
            && self.assists.same_as(&other.assists)
            && self.deaths.same_as(&other.deaths)
            && self.mvps.same_as(&other.mvps)
            && self.score.same_as(&other.score)
    }

    fn snapshot(&self) -> (r: Self) {
        MatchStats {
            kills: self.kills.snapshot(),
            assists: self.assists.snapshot(),
            deaths: self.deaths.snapshot(),
            mvps: self.mvps.snapshot(),
            score: self.score.snapshot(),
        }
    }
}

impl Default for MatchStats {
    fn default() -> (r: Self)
        ensures
            r.kills == 0,
            r.assists == 0,
            r.deaths == 0,
            r.mvps == 0,
            r.score == 0,
    {
        MatchStats {
            kills: 0,
            assists: 0,
            deaths: 0,
            mvps: 0,
            score: 0,
        }
    }
}

/// A single weapon slot entry. Slot key is e.g. `"weapon_0"`.
#[derive(Clone, Debug, PartialEq)]
pub struct Weapon {
    /// Weapon class name, e.g. `"weapon_ak47"`.
    pub name: String,
    /// Paint-kit identifier (cosmetics).
    pub paintkit: Option<String>,
    /// Weapon category.
    pub kind: WeaponKind,
    /// Rounds in the current magazine.
    pub ammo_clip: Option<i32>,
    /// Magazine capacity.
    pub ammo_clip_max: Option<i32>,
    /// Reserve ammo carried.
    pub ammo_reserve: Option<i32>,
    /// Whether the weapon is `holstered`, `active`, or `reloading`.
    pub state: WeaponState,
}

impl Snapshot for Weapon {
    open spec fn same(&self, other: &Self) -> bool {
        &&& self.name.same(&other.name)
        &&& self.paintkit.same(&other.paintkit)
        &&& self.kind.same(&other.kind)
        &&& self.ammo_clip.same(&other.ammo_clip)
        &&& self.ammo_clip_max.same(&other.ammo_clip_max)
        &&& self.ammo_reserve.same(&other.ammo_reserve)
        &&& self.state.same(&other.state)
    }

    open spec fn no_nan(&self) -> bool {
        &&& self.name.no_nan()
        &&& self.paintkit.no_nan()
        &&& self.kind.no_nan()
        &&& self.ammo_clip.no_nan()
        &&& self.ammo_clip_max.no_nan()
        &&& self.ammo_reserve.no_nan()
        &&& self.state.no_nan()
    }

    proof fn lemma_same_reflexive(&self) {
        self.name.lemma_same_reflexive();
        self.paintkit.lemma_same_reflexive();
        self.kind.lemma_same_reflexive();
        self.ammo_clip.lemma_same_reflexive();
        self.ammo_clip_max.lemma_same_reflexive();
        self.ammo_reserve.lemma_same_reflexive();
        self.state.lemma_same_reflexive();
    }

    fn same_as(&self, other: &Self) -> (r: bool) {
        self.name.same_as(&other.name)
            && self.paintkit.same_as(&other.paintkit)
            && self.kind.same_as(&other.kind)
            && self.ammo_clip.same_as(&other.ammo_clip)
            && self.ammo_clip_max.same_as(&other.ammo_clip_max)
            && self.ammo_reserve.same_as(&other.ammo_reserve)
            && self.state.same_as(&other.state)
    }

    fn snapshot(&self) -> (r: Self) {
        Weapon {
            name: self.name.snapshot(),
            paintkit: self.paintkit.snapshot(),
            kind: self.kind.snapshot(),
            ammo_clip: self.ammo_clip.snapshot(),
            ammo_clip_max: self.ammo_clip_max.snapshot(),
            ammo_reserve: self.ammo_reserve.snapshot(),
            state: self.state.snapshot(),
        }
    }
}

impl Default for Weapon {
    fn default() -> (r: Self)
        ensures
            r.name@ == Seq::<char>::empty(),
            r.paintkit is None,
            r.kind == WeaponKind::Unknown,
            r.ammo_clip is None,
            r.ammo_clip_max is None,
            r.ammo_reserve is None,
            r.state == WeaponState::Unknown,
    {
        Weapon {
            name: String::new(),
            paintkit: None,
            kind: WeaponKind::Unknown,
            ammo_clip: None,
            ammo_clip_max: None,
            ammo_reserve: None,
            state: WeaponState::Unknown,
        }
    }
}

/// Weapon category as reported by CS2.
#[derive(Clone, Copy, Debug, Default, PartialEq, Eq, Structural, Hash)]
pub enum WeaponKind {
    /// Knife.
    Knife,
    /// Pistol.
    Pistol,
    /// Submachine gun.
    SubmachineGun,
    /// Rifle.
    Rifle,
    /// Sniper rifle.
    SniperRifle,
    /// Shotgun.
    Shotgun,
    /// Heavy / machine gun.
    MachineGun,
    /// Grenade.
    Grenade,
    /// C4 explosive.
    C4,
    /// Taser / Zeus.
    StackableItem,
    /// Unrecognized / future weapon class.
    #[default]
    Unknown,
}

impl Snapshot for WeaponKind {
    open spec fn same(&self, other: &Self) -> bool {
        *self == *other
    }

    open spec fn no_nan(&self) -> bool {
        true
    }

    proof fn lemma_same_reflexive(&self) {
    }

    fn same_as(&self, other: &Self) -> (r: bool) {
        *self == *other
    }

    fn snapshot(&self) -> (r: Self) {
        *self
    }
}

/// Weapon slot state.
#[derive(Clone, Copy, Debug, Default, PartialEq, Eq, Structural, Hash)]
pub enum WeaponState {
    /// In inventory but not equipped.
    Holstered,
    /// Currently equipped.
    Active,
    /// Reloading.
    Reloading,
    /// Unrecognized state.
    #[default]
    Unknown,
}

impl Snapshot for WeaponState {
    open spec fn same(&self, other: &Self) -> bool {
        *self == *other
    }

    open spec fn no_nan(&self) -> bool {
        true
    }

    proof fn lemma_same_reflexive(&self) {
    }

    fn same_as(&self, other: &Self) -> (r: bool) {
        *self == *other
    }

    fn snapshot(&self) -> (r: Self) {
        *self
    }
}

} // verus!
