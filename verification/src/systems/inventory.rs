//! Inventory rules.
use crate::components::Health;
use crate::systems::tactics::ItemKind;
use vstd::prelude::*;

verus! {

/// How many items an inventory holds at most.
pub const INVENTORY_CAPACITY: usize = 9;

/// Whether an inventory holding `len` items can take one more.
pub fn has_room(len: usize) -> (b: bool)
    ensures
        b == (len < INVENTORY_CAPACITY),
{
    len < INVENTORY_CAPACITY
}

/// Drinks a healing item: `current` rises by `heal`, capped at `max`. Returns the reported
/// amount healed, `min(heal, max - current)`.
pub fn drink(health: &mut Health, heal: i32) -> (healed: i32)
    requires
        i32::MIN <= old(health).max - old(health).current <= i32::MAX,
        i32::MIN <= old(health).current + heal <= i32::MAX,
    ensures
        final(health).max == old(health).max,
        final(health).current == (if old(health).current + heal < old(health).max {
            old(health).current + heal
        } else {
            old(health).max as int
        }),
        healed == (if heal < old(health).max - old(health).current {
            heal as int
        } else {
            old(health).max - old(health).current
        }),
{
    let missing = health.max - health.current;
    let healed = if heal < missing {
        heal
    } else {
        missing
    };
    let raised = health.current + heal;
    health.current = if raised < health.max {
        raised
    } else {
        health.max
    };
    healed
}

/// What explicitly picking up does: with no inventory, nothing; with room, the first item
/// on the tile is taken; with a full inventory, each item on the tile is refused.
#[derive(Clone, Copy, Debug, PartialEq, Eq, Structural)]
pub enum PickupOutcome {
    /// Take the item at this index of the tile's entities.
    Take(usize),
    /// Refuse this many items ("Inventory full!" for each), then find nothing.
    Full(usize),
    /// Nothing to pick up.
    Nothing,
}

/// How many of the flags are set.
pub open spec fn count_true(flags: Seq<bool>) -> nat
    decreases flags.len(),
{
    if flags.len() == 0 {
        0
    } else {
        count_true(flags.drop_last()) + if flags.last() {
            1nat
        } else {
            0nat
        }
    }
}

/// The first index from `k` on whose flag is set.
pub open spec fn first_true(flags: Seq<bool>, k: int) -> Option<int>
    decreases flags.len() - k,
{
    if k < 0 || k >= flags.len() {
        None
    } else if flags[k] {
        Some(k)
    } else {
        first_true(flags, k + 1)
    }
}

/// The outcome of picking up, where `is_item` flags which entities on the tile are items
/// and `inventory_len` is the length of the player's inventory, if it has one.
pub open spec fn pickup_spec(is_item: Seq<bool>, inventory_len: Option<usize>) -> PickupOutcome {
    match inventory_len {
        None => PickupOutcome::Nothing,
        Some(len) => if len < INVENTORY_CAPACITY {
            match first_true(is_item, 0) {
                Some(k) => PickupOutcome::Take(k as usize),
                None => PickupOutcome::Nothing,
            }
        } else if count_true(is_item) > 0 {
            PickupOutcome::Full(count_true(is_item) as usize)
        } else {
            PickupOutcome::Nothing
        },
    }
}

/// Decides what picking up on the player's tile does.
pub fn pickup(is_item: &Vec<bool>, inventory_len: Option<usize>) -> (o: PickupOutcome)
    ensures
        o == pickup_spec(is_item@, inventory_len),
{
    let len = match inventory_len {
        Some(l) => l,
        None => return PickupOutcome::Nothing,
    };
    if len < INVENTORY_CAPACITY {
        let mut k: usize = is_item.len();
        let mut found: Option<usize> = None;
        while k > 0
            invariant
                k <= is_item@.len(),
                found matches Some(f) ==> first_true(is_item@, k as int) == Some(f as int),
                found is None ==> first_true(is_item@, k as int) is None,
            decreases k,
        {
            k -= 1;
            if is_item[k] {
                found = Some(k);
            }
        }
        return match found {
            Some(f) => PickupOutcome::Take(f),
            None => PickupOutcome::Nothing,
        };
    }
    let mut count: usize = 0;
    let mut i: usize = 0;
    while i < is_item.len()
        invariant
            i <= is_item@.len(),
            count == count_true(is_item@.subrange(0, i as int)),
            count <= i,
        decreases is_item@.len() - i,
    {
        proof {
            assert(is_item@.subrange(0, i + 1).drop_last() == is_item@.subrange(0, i as int));
        }
        if is_item[i] {
            count += 1;
        }
        i += 1;
    }
    proof {
        assert(is_item@.subrange(0, is_item@.len() as int) == is_item@);
    }
    if count > 0 {
        PickupOutcome::Full(count)
    } else {
        PickupOutcome::Nothing
    }
}

/// The items that walking onto a tile picks up: the tile's items in order, as many as the
/// inventory has room for.
pub open spec fn auto_pickup_spec(is_item: Seq<bool>, room: int) -> Seq<int>
    decreases is_item.len(),
{
    if is_item.len() == 0 {
        Seq::empty()
    } else {
        let r = auto_pickup_spec(is_item.drop_last(), room);
        if is_item.last() && r.len() < room {
            r.push(is_item.len() - 1)
        } else {
            r
        }
    }
}

/// Picks up what lies on the tile the player walked onto, with an inventory of
/// `inventory_len` items. Returns the indices of the entities taken.
pub fn auto_pickup(is_item: &Vec<bool>, inventory_len: Option<usize>) -> (taken: Vec<usize>)
    ensures
        taken@.map(|_i: int, k: usize| k as int) == (match inventory_len {
            Some(len) => auto_pickup_spec(is_item@, INVENTORY_CAPACITY - len),
            None => Seq::empty(),
        }),
{
    let mut taken: Vec<usize> = Vec::new();
    let mut len = match inventory_len {
        Some(l) => l,
        None => return taken,
    };
    let ghost room = INVENTORY_CAPACITY - len;
    let mut i: usize = 0;
    while i < is_item.len()
        invariant
            i <= is_item@.len(),
            room == INVENTORY_CAPACITY - inventory_len->0,
            inventory_len is Some,
            len == inventory_len->0 + taken@.len(),
            taken@.map(|_i: int, k: usize| k as int) == auto_pickup_spec(is_item@.subrange(0, i as int), room),
        decreases is_item@.len() - i,
    {
        proof {
            assert(is_item@.subrange(0, i + 1).drop_last() == is_item@.subrange(0, i as int));
            assert(is_item@.subrange(0, i + 1).last() == is_item@[i as int]);
        }
        if is_item[i] && len < INVENTORY_CAPACITY {
            taken.push(i);
            len = len + 1;
            proof {
                assert(taken@.map(|_i: int, k: usize| k as int) =~= auto_pickup_spec(is_item@.subrange(0, i as int), room).push(i as int));
            }
        }
        i += 1;
    }
    proof {
        assert(is_item@.subrange(0, is_item@.len() as int) == is_item@);
    }
    taken
}

/// What using an inventory item does.
#[derive(Clone, Copy, Debug, PartialEq, Eq, Structural)]
pub enum UseOutcome {
    /// The slot is empty.
    NoItem,
    /// The slot's item has no kind.
    Invalid,
    /// A drink was used up, healing this much (nothing without a health pool).
    Drank(Option<i32>),
    /// An explosive was used up.
    UsedUp,
    /// A hat was put on, adding this much defense.
    EquippedHat(i32),
    /// A gun was taken in hand.
    EquippedGun,
    /// A knife was readied.
    ReadiedKnife,
    /// A tomahawk was readied.
    ReadiedTomahawk,
    /// The item does nothing when used.
    NoEffect,
}

/// Drinking the item in slot `idx`, if it is a drink, keeps the health arithmetic within `i32`.
pub open spec fn drink_fits(slots: Seq<Option<ItemKind>>, idx: int, health: Option<Health>) -> bool {
    0 <= idx < slots.len() ==> match (slots[idx], health) {
        (Some(ItemKind::Whiskey { heal }), Some(h)) => i32::MIN <= h.max - h.current <= i32::MAX
            && i32::MIN <= h.current + heal <= i32::MAX,
        _ => true,
    }
}

/// Uses the item in slot `idx`: a drink heals (as `drink` does) and is used up, a grenade
/// is used up, a hat, gun, knife or tomahawk is equipped or readied and kept.
pub fn use_item(slots: &mut Vec<Option<ItemKind>>, idx: usize, health: &mut Option<Health>) -> (o: UseOutcome)
    requires
        drink_fits(old(slots)@, idx as int, *old(health)),
    ensures
        idx >= old(slots)@.len() ==> o == UseOutcome::NoItem && final(slots)@ == old(slots)@ && *final(health) == *old(health),
        idx < old(slots)@.len() ==> match old(slots)@[idx as int] {
            None => o == UseOutcome::Invalid && final(slots)@ == old(slots)@ && *final(health) == *old(health),
            Some(ItemKind::Whiskey { heal }) => final(slots)@ == old(slots)@.remove(idx as int) && match *old(health) {
                Some(h) => o == UseOutcome::Drank(Some((if heal < h.max - h.current { heal as int } else { h.max - h.current }) as i32))
                    && *final(health) == Some(Health { current: (if h.current + heal < h.max { h.current + heal } else { h.max as int }) as i32, max: h.max }),
                None => o == UseOutcome::Drank(None) && *final(health) is None,
            },
            Some(ItemKind::Grenade { .. }) => o == UseOutcome::UsedUp && final(slots)@ == old(slots)@.remove(idx as int) && *final(health) == *old(health),
            Some(ItemKind::Hat { defense }) => o == UseOutcome::EquippedHat(defense) && final(slots)@ == old(slots)@ && *final(health) == *old(health),
            Some(ItemKind::Gun { .. }) => o == UseOutcome::EquippedGun && final(slots)@ == old(slots)@ && *final(health) == *old(health),
            Some(ItemKind::Knife { .. }) => o == UseOutcome::ReadiedKnife && final(slots)@ == old(slots)@ && *final(health) == *old(health),
            Some(ItemKind::Tomahawk { .. }) => o == UseOutcome::ReadiedTomahawk && final(slots)@ == old(slots)@ && *final(health) == *old(health),
            _ => o == UseOutcome::NoEffect && final(slots)@ == old(slots)@ && *final(health) == *old(health),
        },
{
    if idx >= slots.len() {
        return UseOutcome::NoItem;
    }
    let (heal_amount, consumed, outcome): (Option<i32>, bool, UseOutcome) = match &slots[idx] {
        None => (None, false, UseOutcome::Invalid),
        Some(ItemKind::Whiskey { heal }) => (Some(*heal), true, UseOutcome::Drank(None)),
        Some(ItemKind::Grenade { .. }) => (None, true, UseOutcome::UsedUp),
        Some(ItemKind::Hat { defense }) => (None, false, UseOutcome::EquippedHat(*defense)),
        Some(ItemKind::Gun { .. }) => (None, false, UseOutcome::EquippedGun),
        Some(ItemKind::Knife { .. }) => (None, false, UseOutcome::ReadiedKnife),
        Some(ItemKind::Tomahawk { .. }) => (None, false, UseOutcome::ReadiedTomahawk),
        _ => (None, false, UseOutcome::NoEffect),
    };
    let mut result = outcome;
    if let Some(heal) = heal_amount {
        match *health {
            Some(h) => {
                let mut hp = h;
                let healed = drink(&mut hp, heal);
                *health = Some(hp);
                result = UseOutcome::Drank(Some(healed));
            },
            None => {},
        }
    }
    if consumed {
        let _removed = slots.remove(idx);
    }
    result
}

} // verus!
