//! Melee damage and health.
use crate::components::{CombatStats, Health};
use vstd::prelude::*;

verus! {

/// The damage of an attack: `attack - defense`, or nothing when that is not positive.
pub open spec fn attack_damage_spec(attacker: CombatStats, target: CombatStats) -> Option<i32> {
    let d = attacker.attack - target.defense;
    if d > 0 {
        Some(d as i32)
    } else {
        None
    }
}

/// Resolves an attack: the damage `max(0, attack - defense)` when it is positive, `None` when
/// the attack deals no damage.
pub fn resolve_attack(attacker: &CombatStats, target: &CombatStats) -> (hit: Option<i32>)
    requires
        i32::MIN <= attacker.attack - target.defense <= i32::MAX,
    ensures
        hit == attack_damage_spec(*attacker, *target),
{
    let damage = attacker.attack - target.defense;
    if damage > 0 {
        Some(damage)
    } else {
        None
    }
}

/// Applies damage to a health pool: `current` drops by `amount` but not below zero.
pub fn apply_damage(health: &mut Health, amount: i32)
    requires
        i32::MIN <= old(health).current - amount <= i32::MAX,
    ensures
        final(health).max == old(health).max,
        final(health).current >= 0,
        final(health).current == (if old(health).current - amount > 0 {
            old(health).current - amount
        } else {
            0
        }),
{
    let remaining = health.current - amount;
    health.current = if remaining > 0 {
        remaining
    } else {
        0
    };
}

/// Whether an entity has been slain: its health is zero or less.
pub fn is_slain(health: &Health) -> (b: bool)
    ensures
        b == (health.current <= 0),
{
    health.current <= 0
}

/// How many of the deaths are hostile.
pub open spec fn hostile_deaths(dead: Seq<(bool, bool)>) -> nat
    decreases dead.len(),
{
    if dead.len() == 0 {
        0
    } else {
        hostile_deaths(dead.drop_last()) + if dead.last().0 {
            1nat
        } else {
            0nat
        }
    }
}

/// Resolves this turn's deaths, each given as (hostile, hideout): the kill count
/// rises by the hostile ones, and the game is won when the hideout falls.
pub fn resolve_deaths(dead: &Vec<(bool, bool)>, kills: u64) -> (r: (u64, bool))
    requires
        kills + dead@.len() <= u64::MAX,
    ensures
        r.0 == kills + hostile_deaths(dead@),
        r.1 == (exists|i: int| 0 <= i < dead@.len() && dead@[i].1),
{
    let mut count = kills;
    let mut won = false;
    let mut i: usize = 0;
    while i < dead.len()
        invariant
            i <= dead@.len(),
            kills + dead@.len() <= u64::MAX,
            count == kills + hostile_deaths(dead@.subrange(0, i as int)),
            hostile_deaths(dead@.subrange(0, i as int)) <= i,
            won == (exists|j: int| 0 <= j < i && dead@[j].1),
        decreases dead@.len() - i,
    {
        proof {
            let s = dead@.subrange(0, i + 1);
            assert(s.drop_last() == dead@.subrange(0, i as int));
            assert(s.last() == dead@[i as int]);
        }
        let (hostile, hideout) = dead[i];
        if hostile {
            count = count + 1;
        }
        if hideout {
            won = true;
        }
        i += 1;
    }
    proof {
        assert(dead@.subrange(0, dead@.len() as int) == dead@);
    }
    (count, won)
}

} // verus!
