//! How NPCs read their inventories and weapons.
use crate::components::Health;
use crate::systems::ai::{turn_hash, turn_hash_spec};
use vstd::prelude::*;
use vstd::string::StrSliceExecFns;

verus! {

/// The most tiles a bow shot carries.
pub const BOW_MAX_RANGE: i32 = 14;

/// The salt of the coin that picks an aiming style.
pub const HASH_KNUTH: u64 = 2_654_435_761;

/// What an item in an inventory slot is.
#[derive(Clone, Debug)]
pub enum ItemKind {
    Whiskey { heal: i32 },
    Beer { heal: i32 },
    Ale { heal: i32 },
    Stout { heal: i32 },
    Wine { heal: i32 },
    Rum { heal: i32 },
    Grenade { damage: i32, radius: i32 },
    Hat { defense: i32 },
    Gun { attack: i32, loaded: i32, capacity: i32, name: String },
    Knife { attack: i32 },
    Tomahawk { attack: i32 },
    Molotov { damage: i32, radius: i32 },
    Bow { attack: i32 },
}

/// The distances at which a weapon is used: not closer than `min_range`, ideally at
/// `preferred_range`, not farther than `max_range`.
#[derive(Clone, Copy, Debug, PartialEq, Eq, Structural)]
pub struct WeaponProfile {
    pub min_range: i32,
    pub preferred_range: i32,
    pub max_range: i32,
}

/// How an NPC aims at its target.
#[derive(Clone, Copy, Debug, PartialEq, Eq, Structural)]
pub enum AimingStyle {
    CarefulAim,
    SnapShot,
    Suppression,
}

/// A gun in inventory slot `index`.
#[derive(Clone, Copy, Debug, PartialEq, Eq, Structural)]
pub struct GunChoice {
    pub index: usize,
    pub profile: WeaponProfile,
}

/// A bow and its attack.
#[derive(Clone, Copy, Debug, PartialEq, Eq, Structural)]
pub struct BowChoice {
    pub attack: i32,
    pub profile: WeaponProfile,
}

/// A grenade or molotov in inventory slot `index`.
#[derive(Clone, Copy, Debug, PartialEq, Eq, Structural)]
pub struct ExplosiveChoice {
    pub index: usize,
    pub damage: i32,
    pub radius: i32,
}

/// A healing drink in inventory slot `index`.
#[derive(Clone, Copy, Debug, PartialEq, Eq, Structural)]
pub struct HealChoice {
    pub index: usize,
    pub amount: i32,
}

/// What an NPC can fight and heal with.
#[derive(Clone, Copy, Debug, PartialEq, Eq)]
pub struct InventoryTactics {
    pub loaded_gun: Option<GunChoice>,
    pub reloadable_gun: Option<GunChoice>,
    pub bow: Option<BowChoice>,
    pub heal: Option<HealChoice>,
    pub grenade: Option<ExplosiveChoice>,
    pub molotov: Option<ExplosiveChoice>,
}

/// `needle` occurs in `hay` as a run of consecutive characters.
pub open spec fn has_text(hay: Seq<char>, needle: Seq<char>) -> bool {
    exists|i: int| 0 <= i && i + needle.len() <= hay.len() && #[trigger] hay.subrange(i, i + needle.len()) == needle
}

/// Whether `needle` occurs in `hay`.
pub fn contains_text(hay: &str, needle: &str) -> (found: bool)
    ensures
        found == has_text(hay@, needle@),
{
    let n = hay.unicode_len();
    let m = needle.unicode_len();
    if m > n {
        proof {
            assert forall|i: int| 0 <= i && i + needle@.len() <= hay@.len() implies #[trigger] hay@.subrange(i, i + needle@.len()) != needle@ by {}
        }
        return false;
    }
    let mut i: usize = 0;
    while i <= n - m
        invariant
            n == hay@.len(),
            m == needle@.len(),
            m <= n,
            i <= n - m + 1,
            forall|k: int| 0 <= k < i ==> #[trigger] hay@.subrange(k, k + m) != needle@,
        decreases n - m + 1 - i,
    {
        let mut j: usize = 0;
        let mut same = true;
        while j < m
            invariant
                n == hay@.len(),
                m == needle@.len(),
                i + m <= n,
                j <= m,
                same == (forall|t: int| 0 <= t < j ==> hay@[i + t] == needle@[t]),
            decreases m - j,
        {
            if hay.get_char(i + j) != needle.get_char(j) {
                same = false;
            }
            j += 1;
        }
        if same {
            proof {
                assert(hay@.subrange(i as int, i + m) =~= needle@);
            }
            return true;
        }
        proof {
            assert(hay@.subrange(i as int, i + m) != needle@) by {
                let t = choose|t: int| 0 <= t < m && hay@[i + t] != needle@[t];
                assert(hay@.subrange(i as int, i + m)[t] == hay@[i + t]);
            }
        }
        i += 1;
    }
    false
}

/// A gun is a long gun when it holds one round or its name mentions a rifle.
pub open spec fn is_long_gun(name: Seq<char>, capacity: int) -> bool {
    ||| capacity == 1
    ||| has_text(name, "Rifle"@)
    ||| has_text(name, "Springfield"@)
    ||| has_text(name, "Enfield"@)
    ||| has_text(name, "Hawken"@)
}

/// The profile of a gun: long guns 3, 8, 18; others 2, 5, 12.
pub open spec fn gun_profile_spec(name: Seq<char>, capacity: int) -> WeaponProfile {
    if is_long_gun(name, capacity) {
        WeaponProfile { min_range: 3, preferred_range: 8, max_range: 18 }
    } else {
        WeaponProfile { min_range: 2, preferred_range: 5, max_range: 12 }
    }
}

/// The ranges at which a gun of this name and capacity is used.
pub fn gun_profile(name: &str, capacity: i32) -> (p: WeaponProfile)
    ensures
        p == gun_profile_spec(name@, capacity as int),
{
    let is_long_gun = capacity == 1 || contains_text(name, "Rifle") || contains_text(name, "Springfield")
        || contains_text(name, "Enfield") || contains_text(name, "Hawken");
    if is_long_gun {
        WeaponProfile { min_range: 3, preferred_range: 8, max_range: 18 }
    } else {
        WeaponProfile { min_range: 2, preferred_range: 5, max_range: 12 }
    }
}

/// A profile with sane, small ranges.
pub open spec fn profile_ok(p: WeaponProfile) -> bool {
    &&& -1000 <= p.min_range <= 1000
    &&& -1000 <= p.preferred_range <= 1000
    &&& -1000 <= p.max_range <= 1000
}

/// The larger of two integers.
pub open spec fn max_int(a: int, b: int) -> int {
    if a >= b {
        a
    } else {
        b
    }
}

/// How an aiming style shifts a weapon's ranges. Careful aim keeps one tile more distance
/// (at least 2) and prefers one more; a snap shot closes in by one (at least 1), prefers one
/// less for a bold NPC (at least 2) and reaches one more; suppression closes in by one (at
/// least 1) and reaches three more.
pub open spec fn adjusted_profile(p: WeaponProfile, style: Option<AimingStyle>, bold: bool) -> WeaponProfile {
    match style {
        Some(AimingStyle::CarefulAim) => WeaponProfile {
            min_range: max_int(p.min_range + 1, 2) as i32,
            preferred_range: (p.preferred_range + 1) as i32,
            max_range: p.max_range,
        },
        Some(AimingStyle::SnapShot) => WeaponProfile {
            min_range: max_int(p.min_range - 1, 1) as i32,
            preferred_range: max_int(p.preferred_range - if bold { 1int } else { 0int }, 2) as i32,
            max_range: (p.max_range + 1) as i32,
        },
        Some(AimingStyle::Suppression) => WeaponProfile {
            min_range: max_int(p.min_range - 1, 1) as i32,
            preferred_range: p.preferred_range,
            max_range: (p.max_range + 3) as i32,
        },
        None => p,
    }
}

/// Shifts a weapon profile for the aiming style; `bold` is whether the NPC's aggression is at
/// least 0.85.
pub fn adjust_profile_for_style(profile: WeaponProfile, style: Option<AimingStyle>, bold: bool) -> (p: WeaponProfile)
    requires
        profile_ok(profile),
    ensures
        p == adjusted_profile(profile, style, bold),
{
    let aggression_bias: i32 = if bold {
        1
    } else {
        0
    };
    match style {
        Some(AimingStyle::CarefulAim) => WeaponProfile {
            min_range: if profile.min_range + 1 >= 2 {
                profile.min_range + 1
            } else {
                2
            },
            preferred_range: profile.preferred_range + 1,
            max_range: profile.max_range,
        },
        Some(AimingStyle::SnapShot) => WeaponProfile {
            min_range: if profile.min_range - 1 >= 1 {
                profile.min_range - 1
            } else {
                1
            },
            preferred_range: if profile.preferred_range - aggression_bias >= 2 {
                profile.preferred_range - aggression_bias
            } else {
                2
            },
            max_range: profile.max_range + 1,
        },
        Some(AimingStyle::Suppression) => WeaponProfile {
            min_range: if profile.min_range - 1 >= 1 {
                profile.min_range - 1
            } else {
                1
            },
            preferred_range: profile.preferred_range,
            max_range: profile.max_range + 3,
        },
        None => profile,
    }
}

/// The aiming style an NPC picks: a reckless one always snaps; others draw careful aim,
/// snap shot or suppression by the per-turn hash modulo 3.
pub open spec fn aiming_style_spec(entity_bits: u64, turn: u32, reckless: bool) -> AimingStyle {
    if reckless {
        AimingStyle::SnapShot
    } else {
        let r = turn_hash_spec(entity_bits, turn, HASH_KNUTH) % 3;
        if r == 0 {
            AimingStyle::CarefulAim
        } else if r == 1 {
            AimingStyle::SnapShot
        } else {
            AimingStyle::Suppression
        }
    }
}

/// Picks an aiming style; `reckless` is whether the NPC's aggression is at least 0.9.
pub fn choose_aiming_style(entity_bits: u64, turn: u32, reckless: bool) -> (s: AimingStyle)
    ensures
        s == aiming_style_spec(entity_bits, turn, reckless),
{
    if reckless {
        return AimingStyle::SnapShot;
    }
    let r = turn_hash(entity_bits, turn, HASH_KNUTH) % 3;
    if r == 0 {
        AimingStyle::CarefulAim
    } else if r == 1 {
        AimingStyle::SnapShot
    } else {
        AimingStyle::Suppression
    }
}

/// Keeps the current aiming style, or picks a new one when there is none or the target
/// changed.
pub fn ensure_aiming_style(
    entity_bits: u64,
    current: Option<AimingStyle>,
    turn: u32,
    reckless: bool,
    target_changed: bool,
) -> (s: AimingStyle)
    ensures
        s == (match current {
            Some(c) if !target_changed => c,
            _ => aiming_style_spec(entity_bits, turn, reckless),
        }),
{
    match current {
        Some(c) if !target_changed => c,
        _ => choose_aiming_style(entity_bits, turn, reckless),
    }
}

/// Nothing found yet.
pub open spec fn no_tactics() -> InventoryTactics {
    InventoryTactics {
        loaded_gun: None,
        reloadable_gun: None,
        bow: None,
        heal: None,
        grenade: None,
        molotov: None,
    }
}

/// What slot `index` holding `item` adds to the tactics found so far: the first loaded gun,
/// the first gun with room for a round, the first bow, the first grenade, the first molotov,
/// and the drink that heals most (the first of equals).
pub open spec fn tactics_step(t: InventoryTactics, item: Option<ItemKind>, index: int) -> InventoryTactics {
    match item {
        Some(ItemKind::Gun { loaded, capacity, name, .. }) => {
            let choice = GunChoice { index: index as usize, profile: gun_profile_spec(name@, capacity as int) };
            InventoryTactics {
                loaded_gun: if loaded > 0 && t.loaded_gun is None { Some(choice) } else { t.loaded_gun },
                reloadable_gun: if loaded < capacity && t.reloadable_gun is None { Some(choice) } else { t.reloadable_gun },
                ..t
            }
        },
        Some(ItemKind::Bow { attack }) => if t.bow is None {
            InventoryTactics {
                bow: Some(BowChoice {
                    attack,
                    profile: WeaponProfile { min_range: 3, preferred_range: 7, max_range: BOW_MAX_RANGE },
                }),
                ..t
            }
        } else {
            t
        },
        Some(ItemKind::Grenade { damage, radius }) => if t.grenade is None {
            InventoryTactics { grenade: Some(ExplosiveChoice { index: index as usize, damage, radius }), ..t }
        } else {
            t
        },
        Some(ItemKind::Molotov { damage, radius }) => if t.molotov is None {
            InventoryTactics { molotov: Some(ExplosiveChoice { index: index as usize, damage, radius }), ..t }
        } else {
            t
        },
        Some(ItemKind::Whiskey { heal })
        | Some(ItemKind::Beer { heal })
        | Some(ItemKind::Ale { heal })
        | Some(ItemKind::Stout { heal })
        | Some(ItemKind::Wine { heal })
        | Some(ItemKind::Rum { heal }) => if heal > (match t.heal {
            Some(c) => c.amount,
            None => i32::MIN,
        }) {
            InventoryTactics { heal: Some(HealChoice { index: index as usize, amount: heal }), ..t }
        } else {
            t
        },
        _ => t,
    }
}

/// The tactics that the slots offer, read in slot order.
pub open spec fn tactics_of(slots: Seq<Option<ItemKind>>) -> InventoryTactics
    decreases slots.len(),
{
    if slots.len() == 0 {
        no_tactics()
    } else {
        tactics_step(tactics_of(slots.drop_last()), slots.last(), slots.len() - 1)
    }
}

/// Reads an inventory (one entry per slot; `None` where the slot's item has no kind) for
/// what it offers in a fight. No inventory offers nothing.
pub fn analyze_inventory(slots: Option<&Vec<Option<ItemKind>>>) -> (t: InventoryTactics)
    ensures
        t == (match slots {
            Some(s) => tactics_of(s@),
            None => no_tactics(),
        }),
{
    let slots = match slots {
        Some(s) => s,
        None => return InventoryTactics {
            loaded_gun: None,
            reloadable_gun: None,
            bow: None,
            heal: None,
            grenade: None,
            molotov: None,
        },
    };
    let mut t = InventoryTactics {
        loaded_gun: None,
        reloadable_gun: None,
        bow: None,
        heal: None,
        grenade: None,
        molotov: None,
    };
    let mut index: usize = 0;
    while index < slots.len()
        invariant
            index <= slots@.len(),
            t == tactics_of(slots@.subrange(0, index as int)),
        decreases slots@.len() - index,
    {
        proof {
            assert(slots@.subrange(0, index + 1).drop_last() == slots@.subrange(0, index as int));
            assert(slots@.subrange(0, index + 1).last() == slots@[index as int]);
        }
        match &slots[index] {
            Some(ItemKind::Gun { loaded, capacity, name, .. }) => {
                let choice = GunChoice { index, profile: gun_profile(name.as_str(), *capacity) };
                if *loaded > 0 && t.loaded_gun.is_none() {
                    t.loaded_gun = Some(choice);
                }
                if *loaded < *capacity && t.reloadable_gun.is_none() {
                    t.reloadable_gun = Some(choice);
                }
            },
            Some(ItemKind::Bow { attack }) => {
                if t.bow.is_none() {
                    t.bow = Some(BowChoice {
                        attack: *attack,
                        profile: WeaponProfile { min_range: 3, preferred_range: 7, max_range: BOW_MAX_RANGE },
                    });
                }
            },
            Some(ItemKind::Grenade { damage, radius }) => {
                if t.grenade.is_none() {
                    t.grenade = Some(ExplosiveChoice { index, damage: *damage, radius: *radius });
                }
            },
            Some(ItemKind::Molotov { damage, radius }) => {
                if t.molotov.is_none() {
                    t.molotov = Some(ExplosiveChoice { index, damage: *damage, radius: *radius });
                }
            },
            Some(ItemKind::Whiskey { heal })
            | Some(ItemKind::Beer { heal })
            | Some(ItemKind::Ale { heal })
            | Some(ItemKind::Stout { heal })
            | Some(ItemKind::Wine { heal })
            | Some(ItemKind::Rum { heal }) => {
                let current_best = match t.heal {
                    Some(choice) => choice.amount,
                    None => i32::MIN,
                };
                if *heal > current_best {
                    t.heal = Some(HealChoice { index, amount: *heal });
                }
            },
            _ => {},
        }
        index += 1;
    }
    proof {
        assert(slots@.subrange(0, slots@.len() as int) == slots@);
    }
    t
}

/// The slots after a reload: one more round in the chosen gun when it has room.
pub open spec fn reloaded(slots: Seq<Option<ItemKind>>, choice: Option<GunChoice>) -> Option<Seq<Option<ItemKind>>> {
    match choice {
        Some(c) => if c.index < slots.len() {
            match slots[c.index as int] {
                Some(ItemKind::Gun { attack, loaded, capacity, name }) => if loaded < capacity {
                    Some(slots.update(c.index as int, Some(ItemKind::Gun { attack, loaded: (loaded + 1) as i32, capacity, name })))
                } else {
                    None
                },
                _ => None,
            }
        } else {
            None
        },
        None => None,
    }
}

/// Loads one round into the chosen gun if it has room. Returns whether it did.
pub fn maybe_reload_gun(choice: Option<GunChoice>, slots: &mut Vec<Option<ItemKind>>) -> (done: bool)
    ensures
        done == reloaded(old(slots)@, choice) is Some,
        done ==> final(slots)@ == reloaded(old(slots)@, choice)->0,
        !done ==> final(slots)@ == old(slots)@,
{
    let c = match choice {
        Some(c) => c,
        None => return false,
    };
    if c.index >= slots.len() {
        return false;
    }
    let mut item: Option<ItemKind> = None;
    slots.set_and_swap(c.index, &mut item);
    match item {
        Some(ItemKind::Gun { attack, loaded, capacity, name }) => {
            if loaded < capacity {
                slots.set(c.index, Some(ItemKind::Gun { attack, loaded: loaded + 1, capacity, name }));
                proof {
                    assert(final(slots)@ =~= reloaded(old(slots)@, choice)->0);
                }
                true
            } else {
                slots.set(c.index, Some(ItemKind::Gun { attack, loaded, capacity, name }));
                proof {
                    assert(final(slots)@ =~= old(slots)@);
                }
                false
            }
        },
        other => {
            slots.set(c.index, other);
            proof {
                assert(final(slots)@ =~= old(slots)@);
            }
            false
        },
    }
}

/// The health fraction `current / max` is at most 0.18.
pub open spec fn badly_hurt(h: Health) -> bool {
    if h.max > 0 {
        50 * h.current <= 9 * h.max
    } else if h.max < 0 {
        50 * h.current >= 9 * h.max
    } else {
        h.current < 0
    }
}

/// Whether an NPC runs: only when hurt and with no drink to heal, at or below
/// `clamp(12 - courage_modifier, 4, 14)` hit points or at most 18% of its maximum.
pub open spec fn should_flee_spec(health: Option<Health>, has_heal: bool, courage_modifier: int) -> bool {
    match health {
        Some(h) => !has_heal && {
            let t = 12 - courage_modifier;
            let threshold = if t < 4 { 4 } else if t > 14 { 14 } else { t };
            h.current <= threshold || badly_hurt(h)
        },
        None => false,
    }
}

/// Decides whether an NPC flees; `courage_modifier` is its courage times 8, rounded.
pub fn should_flee(health: Option<&Health>, has_heal: bool, courage_modifier: i32) -> (flee: bool)
    ensures
        flee == should_flee_spec(match health { Some(h) => Some(*h), None => None }, has_heal, courage_modifier as int),
{
    let h = match health {
        Some(h) => h,
        None => return false,
    };
    if has_heal {
        return false;
    }
    let t: i64 = 12 - courage_modifier as i64;
    let threshold: i64 = if t < 4 {
        4
    } else if t > 14 {
        14
    } else {
        t
    };
    let current = h.current as i64;
    let max = h.max as i64;
    let low = if max > 0 {
        50 * current <= 9 * max
    } else if max < 0 {
        50 * current >= 9 * max
    } else {
        current < 0
    };
    current <= threshold || low
}

} // verus!
