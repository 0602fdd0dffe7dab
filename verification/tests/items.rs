use roguelike::components::Health;
use roguelike::systems::inventory::{auto_pickup, pickup, use_item, PickupOutcome, UseOutcome};
use roguelike::systems::tactics::ItemKind;

#[test]
fn picking_up_takes_the_first_item() {
    assert_eq!(pickup(&vec![false, true, true], Some(3)), PickupOutcome::Take(1));
    assert_eq!(pickup(&vec![false], Some(3)), PickupOutcome::Nothing);
    assert_eq!(pickup(&vec![true, false, true], Some(9)), PickupOutcome::Full(2));
    assert_eq!(pickup(&vec![false], Some(9)), PickupOutcome::Nothing);
    assert_eq!(pickup(&vec![true], None), PickupOutcome::Nothing);
}

#[test]
fn walking_over_items_takes_what_fits() {
    assert_eq!(auto_pickup(&vec![true, false, true, true], Some(7)), vec![0, 2]);
    assert_eq!(auto_pickup(&vec![true, true], Some(0)), vec![0, 1]);
    assert_eq!(auto_pickup(&vec![true], Some(9)), Vec::<usize>::new());
    assert_eq!(auto_pickup(&vec![true], None), Vec::<usize>::new());
}

#[test]
fn using_items() {
    let mut slots = vec![
        Some(ItemKind::Whiskey { heal: 10 }),
        Some(ItemKind::Hat { defense: 1 }),
        Some(ItemKind::Grenade { damage: 8, radius: 2 }),
        None,
        Some(ItemKind::Knife { attack: 4 }),
    ];
    let mut health = Some(Health { current: 15, max: 20 });
    assert_eq!(use_item(&mut slots, 0, &mut health), UseOutcome::Drank(Some(5)));
    assert_eq!(health, Some(Health { current: 20, max: 20 }));
    assert_eq!(slots.len(), 4);
    assert_eq!(use_item(&mut slots, 0, &mut health), UseOutcome::EquippedHat(1));
    assert_eq!(use_item(&mut slots, 1, &mut health), UseOutcome::UsedUp);
    assert_eq!(slots.len(), 3);
    assert_eq!(use_item(&mut slots, 1, &mut health), UseOutcome::Invalid);
    assert_eq!(use_item(&mut slots, 2, &mut health), UseOutcome::ReadiedKnife);
    assert_eq!(use_item(&mut slots, 3, &mut health), UseOutcome::NoItem);
    let mut none = None;
    let mut drinks = vec![Some(ItemKind::Whiskey { heal: 3 })];
    assert_eq!(use_item(&mut drinks, 0, &mut none), UseOutcome::Drank(None));
    assert!(drinks.is_empty());
}
