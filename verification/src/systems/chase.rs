//! What an NPC does to a target it is chasing.
use crate::grid_vec::{chebyshev_spec, GridVec};
use crate::systems::ai::{
    blast_hits_friendlies, blast_hits_friendlies_spec, count_hostiles_near, hostiles_near_spec,
    npcs_roomy, roomy, Faction, NpcInfo,
};
use crate::systems::tactics::{
    adjust_profile_for_style, adjusted_profile, profile_ok, AimingStyle, BowChoice,
    ExplosiveChoice, GunChoice, InventoryTactics, WeaponProfile,
};
use vstd::prelude::*;

verus! {

/// The nearest distance at which an explosive is thrown.
pub const EXPLOSIVE_MIN_RANGE: i32 = 4;

/// The farthest distance at which an explosive is thrown.
pub const EXPLOSIVE_MAX_RANGE: i32 = 8;

/// After how many turns standing still a chasing NPC tries to flank.
pub const STUCK_FLANK_TURNS: u8 = 2;

/// The target an NPC pursues this turn.
#[derive(Clone, Copy, Debug, PartialEq, Eq, Structural)]
pub struct TrackedTarget {
    pub entity: u64,
    pub pos: GridVec,
    pub visible: bool,
    pub locked: bool,
}

/// What a chasing NPC does this turn.
#[derive(Clone, Copy, Debug, PartialEq, Eq)]
pub enum ChaseAction {
    /// Strike the adjacent target.
    Melee,
    /// Throw the grenade at the target's tile.
    ThrowGrenade(ExplosiveChoice),
    /// Throw the molotov at the target's tile.
    ThrowMolotov(ExplosiveChoice),
    /// Fire the gun toward the target, the shot carrying `range` tiles.
    Shoot { gun: GunChoice, range: i32 },
    /// Loose an arrow of `attack` toward `endpoint`.
    LooseArrow { attack: i32, endpoint: GridVec },
    /// Load a round into the gun.
    Reload(GunChoice),
    /// Back away from a target that is too close; if no tile serves, advance as `flank_after`
    /// says.
    Retreat { flank_after: bool },
    /// Step toward the target, or toward a flanking tile beside it.
    Advance { flank: bool },
}

/// What a chasing NPC knows of the situation besides its inventory.
#[derive(Clone, Copy, Debug, PartialEq, Eq)]
pub struct ChaseView {
    /// The NPC's identity and tile.
    pub entity: u64,
    pub my_pos: GridVec,
    pub my_faction: Option<Faction>,
    /// The target.
    pub target: TrackedTarget,
    /// Nothing blocks the line of fire to the target.
    pub has_los: bool,
    /// An ally stands on the line of fire.
    pub friendly_blocked: bool,
    /// Stamina suffices for a throw.
    pub stamina_ok: bool,
    /// The current aiming style.
    pub style: Option<AimingStyle>,
    /// The NPC's aggression is at least 0.85.
    pub bold: bool,
    /// The NPC had this same target locked and saw it at most a turn ago.
    pub recent_lock: bool,
    /// How many turns the NPC has stood still, if it remembers.
    pub stationary_turns: Option<u8>,
    /// The living player, if any.
    pub player: Option<(u64, GridVec)>,
}

/// The floor of `a / b` for a positive `b`.
pub open spec fn floor_div(a: int, b: int) -> int {
    a / b
}

/// Where an arrow shot from `my_pos` toward a target `to_target` away ends: the offset scaled
/// by `max(max_range div max(|dx|, |dy|, 1), 1)`.
pub open spec fn arrow_endpoint_spec(my_pos: GridVec, to_target: GridVec, max_range: int) -> (int, int) {
    let ax = if to_target.x >= 0 { to_target.x as int } else { -to_target.x };
    let ay = if to_target.y >= 0 { to_target.y as int } else { -to_target.y };
    let m0 = if ax >= ay { ax } else { ay };
    let m = if m0 >= 1 { m0 } else { 1 };
    let q = floor_div(max_range, m);
    let scale = if q >= 1 { q } else { 1 };
    (my_pos.x + to_target.x * scale, my_pos.y + to_target.y * scale)
}

/// Computes where an arrow ends.
pub fn arrow_endpoint(my_pos: GridVec, to_target: GridVec, max_range: i32) -> (e: GridVec)
    requires
        roomy(my_pos),
        -0x2000_0000 <= to_target.x <= 0x2000_0000,
        -0x2000_0000 <= to_target.y <= 0x2000_0000,
        0 <= max_range <= 0x1000_0000,
    ensures
        (e.x as int, e.y as int) == arrow_endpoint_spec(my_pos, to_target, max_range as int),
{
    let ax: i32 = if to_target.x >= 0 {
        to_target.x
    } else {
        -to_target.x
    };
    let ay: i32 = if to_target.y >= 0 {
        to_target.y
    } else {
        -to_target.y
    };
    let m0 = if ax >= ay {
        ax
    } else {
        ay
    };
    let m = if m0 >= 1 {
        m0
    } else {
        1
    };
    let q = max_range / m;
    let scale = if q >= 1 {
        q
    } else {
        1
    };
    proof {
        assert(to_target.x * scale <= 0x2000_0000 && to_target.x * scale >= -0x2000_0000 && to_target.y
            * scale <= 0x2000_0000 && to_target.y * scale >= -0x2000_0000) by (nonlinear_arith)
            requires
                ax == (if to_target.x >= 0 { to_target.x as int } else { -to_target.x }),
                ay == (if to_target.y >= 0 { to_target.y as int } else { -to_target.y }),
                ax <= m,
                ay <= m,
                1 <= m <= 0x2000_0000,
                0 <= max_range <= 0x1000_0000,
                q == max_range / m,
                scale == (if q >= 1 { q } else { 1 }),
        {
            if q >= 1 {
                assert(m * q <= max_range);
                assert(ax * q <= m * q);
                assert(ay * q <= m * q);
            }
        }
    }
    GridVec::new(my_pos.x + to_target.x * scale, my_pos.y + to_target.y * scale)
}

/// The Chebyshev distance from the NPC to its target.
pub open spec fn target_distance(v: ChaseView) -> int {
    chebyshev_spec(v.my_pos, v.target.pos)
}

/// A distance lies within a weapon's ranges.
pub open spec fn in_range(p: WeaponProfile, d: int) -> bool {
    p.min_range <= d <= p.max_range
}

/// The radius the NPC counts hostiles in around the target: the grenade's, else the
/// molotov's, else 2.
pub open spec fn cluster_radius(t: InventoryTactics) -> int {
    match t.grenade {
        Some(g) => g.radius as int,
        None => match t.molotov {
            Some(m) => m.radius as int,
            None => 2,
        },
    }
}

/// An explosive is worth throwing: the target is 4 to 8 tiles away, at least two hostiles
/// stand in the blast, and it would spare the thrower and its allies.
pub open spec fn worth_throwing(v: ChaseView, npcs: Seq<NpcInfo>, t: InventoryTactics, e: ExplosiveChoice) -> bool {
    &&& EXPLOSIVE_MIN_RANGE <= target_distance(v) <= EXPLOSIVE_MAX_RANGE
    &&& hostiles_near_spec(v.target.pos, cluster_radius(t), v.my_faction, v.player, npcs) >= 2
    &&& !blast_hits_friendlies_spec(v.target.pos, e.radius as int, v.my_pos, v.my_faction, v.entity, npcs)
}

/// Whether to flank rather than walk straight at the target: after standing still too long,
/// or when a seen target cannot be shot at cleanly.
pub open spec fn flank_spec(v: ChaseView) -> bool {
    (match v.stationary_turns {
        Some(n) => n >= STUCK_FLANK_TURNS,
        None => false,
    }) || (v.target.visible && (!v.has_los || v.friendly_blocked))
}

/// The rules of a chasing NPC, in order: strike an adjacent seen target; throw the grenade
/// (or, with no grenade, the molotov) when it is worth it at a seen target in clear view with
/// stamina to spare; shoot the loaded gun when the target is in range, in clear view and not
/// behind an ally, and seen (or, for suppression fire, locked and seen a turn ago); loose an
/// arrow at a seen target in the bow's range, in clear view and not behind an ally; reload when
/// no gun is loaded, one has room, the target is more than 2 tiles away and either unseen or at
/// least 4 away; back away when closer than the weapon's minimum range but not adjacent; else
/// advance, flanking when stuck or blocked.
pub open spec fn chase_action_spec(v: ChaseView, npcs: Seq<NpcInfo>, t: InventoryTactics) -> ChaseAction {
    let d = target_distance(v);
    let gun = match t.loaded_gun {
        Some(g) => Some(GunChoice { index: g.index, profile: adjusted_profile(g.profile, v.style, v.bold) }),
        None => None,
    };
    let bow = match t.bow {
        Some(b) => Some(BowChoice { attack: b.attack, profile: adjusted_profile(b.profile, v.style, v.bold) }),
        None => None,
    };
    let visible = v.target.visible;
    let clear = v.has_los && !v.friendly_blocked;
    let blind_fire = v.style == Some(AimingStyle::Suppression) && !visible && v.recent_lock;
    let throw_ok = visible && v.stamina_ok && v.has_los;
    if d <= 1 && visible {
        ChaseAction::Melee
    } else if throw_ok && t.grenade is Some && worth_throwing(v, npcs, t, t.grenade->0) {
        ChaseAction::ThrowGrenade(t.grenade->0)
    } else if throw_ok && t.grenade is None && t.molotov is Some && worth_throwing(v, npcs, t, t.molotov->0) {
        ChaseAction::ThrowMolotov(t.molotov->0)
    } else if gun is Some && in_range(gun->0.profile, d) && clear && (visible || blind_fire) {
        ChaseAction::Shoot { gun: gun->0, range: gun->0.profile.max_range }
    } else if bow is Some && visible && clear && in_range(bow->0.profile, d) {
        let to = GridVec { x: (v.target.pos.x - v.my_pos.x) as i32, y: (v.target.pos.y - v.my_pos.y) as i32 };
        let e = arrow_endpoint_spec(v.my_pos, to, bow->0.profile.max_range as int);
        ChaseAction::LooseArrow { attack: bow->0.attack, endpoint: GridVec { x: e.0 as i32, y: e.1 as i32 } }
    } else if t.loaded_gun is None && t.reloadable_gun is Some && d > 2 && (!visible || d >= 4) {
        ChaseAction::Reload(t.reloadable_gun->0)
    } else if (gun is Some && d < gun->0.profile.min_range && d > 1) || (gun is None && bow is Some && d
        < bow->0.profile.min_range && d > 1) {
        ChaseAction::Retreat { flank_after: flank_spec(v) }
    } else {
        ChaseAction::Advance { flank: flank_spec(v) }
    }
}

/// The weapon profiles in an inventory's tactics are small.
pub open spec fn tactics_ok(t: InventoryTactics) -> bool {
    &&& (t.loaded_gun matches Some(g) ==> profile_ok(g.profile))
    &&& (t.bow matches Some(b) ==> profile_ok(b.profile))
    &&& (t.grenade matches Some(g) ==> g.radius < 0x1000_0000)
    &&& (t.molotov matches Some(m) ==> m.radius < 0x1000_0000)
}

/// Decides what a chasing NPC does to its target this turn.
pub fn chase_action(view: &ChaseView, npcs: &Vec<NpcInfo>, tactics: &InventoryTactics) -> (a: ChaseAction)
    requires
        roomy(view.my_pos),
        roomy(view.target.pos),
        view.player matches Some(p) ==> roomy(p.1),
        npcs_roomy(npcs@),
        npcs@.len() < usize::MAX,
        tactics_ok(*tactics),
    ensures
        a == chase_action_spec(*view, npcs@, *tactics),
{
    let v = *view;
    let t = *tactics;
    let d = v.my_pos.chebyshev_distance(v.target.pos);
    let visible = v.target.visible;
    if d <= 1 && visible {
        return ChaseAction::Melee;
    }
    let gun: Option<GunChoice> = match t.loaded_gun {
        Some(g) => Some(GunChoice { index: g.index, profile: adjust_profile_for_style(g.profile, v.style, v.bold) }),
        None => None,
    };
    let bow: Option<BowChoice> = match t.bow {
        Some(b) => Some(BowChoice { attack: b.attack, profile: adjust_profile_for_style(b.profile, v.style, v.bold) }),
        None => None,
    };
    if visible && v.stamina_ok && v.has_los {
        let radius = match t.grenade {
            Some(g) => g.radius,
            None => match t.molotov {
                Some(m) => m.radius,
                None => 2,
            },
        };
        let cluster = count_hostiles_near(v.target.pos, radius, v.my_faction, v.player, npcs);
        if let Some(grenade) = t.grenade {
            if EXPLOSIVE_MIN_RANGE <= d && d <= EXPLOSIVE_MAX_RANGE && cluster >= 2
                && !blast_hits_friendlies(v.target.pos, grenade.radius, v.my_pos, v.my_faction, v.entity, npcs) {
                return ChaseAction::ThrowGrenade(grenade);
            }
        } else if let Some(molotov) = t.molotov {
            if EXPLOSIVE_MIN_RANGE <= d && d <= EXPLOSIVE_MAX_RANGE && cluster >= 2
                && !blast_hits_friendlies(v.target.pos, molotov.radius, v.my_pos, v.my_faction, v.entity, npcs) {
                return ChaseAction::ThrowMolotov(molotov);
            }
        }
    }
    let clear = v.has_los && !v.friendly_blocked;
    if let Some(g) = gun {
        let blind_fire = match v.style {
            Some(AimingStyle::Suppression) => !visible && v.recent_lock,
            _ => false,
        };
        if g.profile.min_range <= d && d <= g.profile.max_range && clear && (visible || blind_fire) {
            return ChaseAction::Shoot { gun: g, range: g.profile.max_range };
        }
    }
    if let Some(b) = bow {
        if visible && clear && b.profile.min_range <= d && d <= b.profile.max_range {
            let to = v.target.pos.minus(v.my_pos);
            let endpoint = arrow_endpoint(v.my_pos, to, b.profile.max_range);
            return ChaseAction::LooseArrow { attack: b.attack, endpoint };
        }
    }
    if t.loaded_gun.is_none() && d > 2 && (!visible || d >= 4) {
        if let Some(r) = t.reloadable_gun {
            return ChaseAction::Reload(r);
        }
    }
    let flank = (match v.stationary_turns {
        Some(n) => n >= STUCK_FLANK_TURNS,
        None => false,
    }) || (visible && (!v.has_los || v.friendly_blocked));
    let min_range = match gun {
        Some(g) => Some(g.profile.min_range),
        None => match bow {
            Some(b) => Some(b.profile.min_range),
            None => None,
        },
    };
    if let Some(m) = min_range {
        if d < m && d > 1 {
            return ChaseAction::Retreat { flank_after: flank };
        }
    }
    ChaseAction::Advance { flank }
}

} // verus!
