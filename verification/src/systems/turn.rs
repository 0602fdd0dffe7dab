//! End-of-turn bookkeeping.
use vstd::prelude::*;

verus! {

/// Mana regenerated per world turn.
pub const MANA_REGEN_PER_TURN: i32 = 2;

/// The mana after a world turn: `current + 2`, capped at `max`.
pub fn regenerate_mana(current: i32, max: i32) -> (m: i32)
    requires
        current <= i32::MAX - MANA_REGEN_PER_TURN,
    ensures
        m == (if current + MANA_REGEN_PER_TURN < max {
            current + MANA_REGEN_PER_TURN
        } else {
            max as int
        }),
{
    let regenerated = current + MANA_REGEN_PER_TURN;
    if regenerated < max {
        regenerated
    } else {
        max
    }
}

/// The energy an action costs; an entity may act once it has this much.
pub const ACTION_COST: i32 = 100;

/// The energy after a tick of a world turn: `energy + speed`, held within `i32`.
pub open spec fn accumulate_spec(energy: int, speed: int) -> int {
    if energy + speed > i32::MAX {
        i32::MAX as int
    } else if energy + speed < i32::MIN {
        i32::MIN as int
    } else {
        energy + speed
    }
}

/// Gains the energy of one tick at `speed`.
pub fn accumulate_energy(energy: i32, speed: i32) -> (e: i32)
    ensures
        e == accumulate_spec(energy as int, speed as int),
{
    let sum = energy as i64 + speed as i64;
    if sum > i32::MAX as i64 {
        i32::MAX
    } else if sum < i32::MIN as i64 {
        i32::MIN
    } else {
        sum as i32
    }
}

/// Whether an entity has the energy to act.
pub fn can_act(energy: i32) -> (b: bool)
    ensures
        b == (energy >= ACTION_COST),
{
    energy >= ACTION_COST
}

/// The energy left after an action: the excess over its cost carries over.
pub fn spend_action(energy: i32) -> (e: i32)
    requires
        energy >= ACTION_COST,
    ensures
        e == energy - ACTION_COST,
{
    energy - ACTION_COST
}

/// One tick for an entity that acts whenever it can: its energy afterwards, and whether it
/// acted.
pub open spec fn energy_tick(energy: int, speed: int) -> (int, bool) {
    let a = accumulate_spec(energy, speed);
    if a >= ACTION_COST {
        (a - ACTION_COST, true)
    } else {
        (a, false)
    }
}

/// `n` ticks from no energy: the energy left and the number of actions taken.
pub open spec fn energy_run(speed: int, n: nat) -> (int, nat)
    decreases n,
{
    if n == 0 {
        (0, 0)
    } else {
        let r = energy_run(speed, (n - 1) as nat);
        let t = energy_tick(r.0, speed);
        (t.0, if t.1 {
            r.1 + 1
        } else {
            r.1
        })
    }
}

/// Energy scheduling is exactly fair in the long run: an entity of speed `speed` (at most
/// the action cost) that acts whenever it can has acted `floor(n * speed / ACTION_COST)`
/// times after `n` ticks, and keeps the rest, `n * speed % ACTION_COST`, as energy.
pub proof fn lemma_energy_is_fair(speed: int, n: nat)
    requires
        0 <= speed <= ACTION_COST,
        n * speed <= i32::MAX,
    ensures
        energy_run(speed, n).1 == (n * speed) / (ACTION_COST as int),
        energy_run(speed, n).0 == (n * speed) % (ACTION_COST as int),
    decreases n,
{
    let c = ACTION_COST as int;
    if n == 0 {
        assert(n * speed == 0) by (nonlinear_arith)
            requires
                n == 0,
        ;
    } else {
        let m = (n - 1) as nat;
        assert(m * speed <= n * speed) by (nonlinear_arith)
            requires
                m == n - 1,
                speed >= 0,
                n >= 1,
        ;
        lemma_energy_is_fair(speed, m);
        assert(n * speed == m * speed + speed) by (nonlinear_arith)
            requires
                m == n - 1,
        ;
        let r = energy_run(speed, m);
        assert(energy_run(speed, n) == ({
            let t = energy_tick(r.0, speed);
            (t.0, if t.1 {
                r.1 + 1
            } else {
                r.1
            })
        }));
        vstd::arithmetic::div_mod::lemma_fundamental_div_mod(m * speed, c);
        let q = r.1 as int;
        assert(m * speed == c * q + r.0);
        assert(c * q == q * c) by (nonlinear_arith);
        assert((q + 1) * c == q * c + c) by (nonlinear_arith);
        let a = r.0 + speed;
        assert(0 <= r.0 < c);
        assert(accumulate_spec(r.0, speed) == a);
        if a >= c {
            vstd::arithmetic::div_mod::lemma_fundamental_div_mod_converse(n * speed, c, q + 1, a - c);
        } else {
            vstd::arithmetic::div_mod::lemma_fundamental_div_mod_converse(n * speed, c, q, a);
        }
    }
}

} // verus!
