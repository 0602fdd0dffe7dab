use roguelike::components::Health;
use roguelike::systems::tactics::{
    adjust_profile_for_style, analyze_inventory, choose_aiming_style, contains_text,
    ensure_aiming_style, gun_profile, maybe_reload_gun, should_flee, AimingStyle, BowChoice,
    ExplosiveChoice, GunChoice, HealChoice, ItemKind, WeaponProfile, BOW_MAX_RANGE, HASH_KNUTH,
};
use roguelike::systems::ai::turn_hash;

const LONG: WeaponProfile = WeaponProfile { min_range: 3, preferred_range: 8, max_range: 18 };
const SHORT: WeaponProfile = WeaponProfile { min_range: 2, preferred_range: 5, max_range: 12 };

fn gun(name: &str, loaded: i32, capacity: i32) -> Option<ItemKind> {
    Some(ItemKind::Gun { attack: 6, loaded, capacity, name: name.to_string() })
}

#[test]
fn text_search_finds_runs_of_characters() {
    assert!(contains_text("Sharps Rifle", "Rifle"));
    assert!(contains_text("Rifle", "Rifle"));
    assert!(!contains_text("Rifl", "Rifle"));
    assert!(!contains_text("rifle", "Rifle"));
    assert!(contains_text("abc", ""));
    assert!(contains_text("Colt Navy", "t N"));
}

#[test]
fn long_guns_keep_their_distance() {
    assert_eq!(gun_profile("Springfield 1842", 1), LONG);
    assert_eq!(gun_profile("Hawken Plains Rifle", 6), LONG);
    assert_eq!(gun_profile("Pattern Enfield", 3), LONG);
    assert_eq!(gun_profile("Colt Navy", 1), LONG);
    assert_eq!(gun_profile("Colt Navy", 6), SHORT);
    assert_eq!(gun_profile("Remington", 0), SHORT);
}

#[test]
fn aiming_styles_shift_the_ranges() {
    assert_eq!(adjust_profile_for_style(SHORT, None, true), SHORT);
    assert_eq!(
        adjust_profile_for_style(SHORT, Some(AimingStyle::CarefulAim), false),
        WeaponProfile { min_range: 3, preferred_range: 6, max_range: 12 }
    );
    let tight = WeaponProfile { min_range: 0, preferred_range: 2, max_range: 4 };
    assert_eq!(
        adjust_profile_for_style(tight, Some(AimingStyle::CarefulAim), false),
        WeaponProfile { min_range: 2, preferred_range: 3, max_range: 4 }
    );
    assert_eq!(
        adjust_profile_for_style(SHORT, Some(AimingStyle::SnapShot), true),
        WeaponProfile { min_range: 1, preferred_range: 4, max_range: 13 }
    );
    assert_eq!(
        adjust_profile_for_style(SHORT, Some(AimingStyle::SnapShot), false),
        WeaponProfile { min_range: 1, preferred_range: 5, max_range: 13 }
    );
    assert_eq!(
        adjust_profile_for_style(tight, Some(AimingStyle::SnapShot), true),
        WeaponProfile { min_range: 1, preferred_range: 2, max_range: 5 }
    );
    assert_eq!(
        adjust_profile_for_style(LONG, Some(AimingStyle::Suppression), false),
        WeaponProfile { min_range: 2, preferred_range: 8, max_range: 21 }
    );
}

#[test]
fn aiming_style_follows_the_turn_hash() {
    for turn in 0..30u32 {
        let expected = match turn_hash(42, turn, HASH_KNUTH) % 3 {
            0 => AimingStyle::CarefulAim,
            1 => AimingStyle::SnapShot,
            _ => AimingStyle::Suppression,
        };
        assert_eq!(choose_aiming_style(42, turn, false), expected);
        assert_eq!(choose_aiming_style(42, turn, true), AimingStyle::SnapShot);
    }
    assert_eq!(ensure_aiming_style(42, Some(AimingStyle::CarefulAim), 5, true, false), AimingStyle::CarefulAim);
    assert_eq!(ensure_aiming_style(42, Some(AimingStyle::CarefulAim), 5, true, true), AimingStyle::SnapShot);
    assert_eq!(ensure_aiming_style(42, None, 5, true, false), AimingStyle::SnapShot);
}

#[test]
fn inventory_analysis_picks_the_first_of_each_and_the_best_drink() {
    let slots = vec![
        Some(ItemKind::Whiskey { heal: 5 }),
        gun("Colt Navy", 0, 6),
        None,
        Some(ItemKind::Grenade { damage: 8, radius: 2 }),
        gun("Sharps Rifle", 1, 1),
        Some(ItemKind::Whiskey { heal: 9 }),
        Some(ItemKind::Bow { attack: 3 }),
        Some(ItemKind::Grenade { damage: 4, radius: 1 }),
        Some(ItemKind::Whiskey { heal: 9 }),
        Some(ItemKind::Molotov { damage: 6, radius: 2 }),
        Some(ItemKind::Hat { defense: 1 }),
    ];
    let t = analyze_inventory(Some(&slots));
    assert_eq!(t.loaded_gun, Some(GunChoice { index: 4, profile: LONG }));
    assert_eq!(t.reloadable_gun, Some(GunChoice { index: 1, profile: SHORT }));
    assert_eq!(
        t.bow,
        Some(BowChoice {
            attack: 3,
            profile: WeaponProfile { min_range: 3, preferred_range: 7, max_range: BOW_MAX_RANGE }
        })
    );
    assert_eq!(t.heal, Some(HealChoice { index: 5, amount: 9 }));
    assert_eq!(t.grenade, Some(ExplosiveChoice { index: 3, damage: 8, radius: 2 }));
    assert_eq!(t.molotov, Some(ExplosiveChoice { index: 9, damage: 6, radius: 2 }));

    let none = analyze_inventory(None);
    assert_eq!(none.loaded_gun, None);
    assert_eq!(none.heal, None);
    assert_eq!(analyze_inventory(Some(&Vec::new())), none);
}

#[test]
fn a_drink_that_heals_nothing_is_still_a_choice() {
    let slots = vec![Some(ItemKind::Whiskey { heal: i32::MIN }), Some(ItemKind::Whiskey { heal: -3 })];
    let t = analyze_inventory(Some(&slots));
    assert_eq!(t.heal, Some(HealChoice { index: 1, amount: -3 }));
}

#[test]
fn reloading_adds_one_round() {
    let mut slots = vec![gun("Colt Navy", 2, 6), Some(ItemKind::Knife { attack: 4 })];
    let choice = Some(GunChoice { index: 0, profile: SHORT });
    assert!(maybe_reload_gun(choice, &mut slots));
    match &slots[0] {
        Some(ItemKind::Gun { loaded, capacity, name, .. }) => {
            assert_eq!((*loaded, *capacity, name.as_str()), (3, 6, "Colt Navy"));
        }
        _ => panic!("the gun stays in its slot"),
    }
    assert!(!maybe_reload_gun(Some(GunChoice { index: 1, profile: SHORT }), &mut slots));
    assert!(!maybe_reload_gun(Some(GunChoice { index: 7, profile: SHORT }), &mut slots));
    assert!(!maybe_reload_gun(None, &mut slots));
    let mut full = vec![gun("Colt Navy", 6, 6)];
    assert!(!maybe_reload_gun(choice, &mut full));
}

#[test]
fn flee_triggers_without_healing() {
    let health = Health { current: 5, max: 20 };
    let courage: f64 = 0.2;
    let courage_modifier = (courage * 8.0).round() as i32;
    assert!(should_flee(Some(&health), false, courage_modifier));
    assert!(!should_flee(Some(&health), true, courage_modifier));
}

#[test]
fn flee_thresholds_are_clamped() {
    // Threshold 12 - 0 = 12.
    assert!(should_flee(Some(&Health { current: 12, max: 50 }), false, 0));
    assert!(!should_flee(Some(&Health { current: 13, max: 50 }), false, 0));
    // Brave NPCs still flee at 4 or less.
    assert!(should_flee(Some(&Health { current: 4, max: 20 }), false, 20));
    assert!(!should_flee(Some(&Health { current: 5, max: 20 }), false, 20));
    // Cowards flee at 14 or less.
    assert!(should_flee(Some(&Health { current: 14, max: 50 }), false, -20));
    assert!(!should_flee(Some(&Health { current: 15, max: 50 }), false, -20));
    // At most 18% of the maximum.
    assert!(should_flee(Some(&Health { current: 18, max: 100 }), false, 8));
    assert!(!should_flee(Some(&Health { current: 19, max: 100 }), false, 8));
    assert!(!should_flee(None, false, 0));
}

#[test]
fn every_drink_counts_for_healing() {
    let slots = vec![
        Some(ItemKind::Beer { heal: 4 }),
        Some(ItemKind::Rum { heal: 12 }),
        Some(ItemKind::Wine { heal: 12 }),
        Some(ItemKind::Whiskey { heal: 10 }),
    ];
    let t = analyze_inventory(Some(&slots));
    assert_eq!(t.heal, Some(HealChoice { index: 1, amount: 12 }));
}
