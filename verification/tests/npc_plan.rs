use roguelike::components::Health;
use roguelike::grid_vec::GridVec;
use roguelike::systems::ai::{AiLookDir, AiMemory, Faction, NpcInfo};
use roguelike::systems::npc_plan::{npc_turn, NpcAction, NpcRecord, NpcTurnInput};
use roguelike::systems::npc_turn::{AiState, AiTarget};
use roguelike::systems::tactics::ItemKind;

fn g(x: i32, y: i32) -> GridVec {
    GridVec::new(x, y)
}

fn input(player: Option<(u64, GridVec)>) -> NpcTurnInput {
    NpcTurnInput {
        entity: 7,
        pos: g(5, 5),
        faction: Some(Faction::Outlaws),
        sight_range: Some(8),
        post: None,
        health: Some(Health { current: 30, max: 30 }),
        stamina: Some(20),
        wants_heal: false,
        courage_modifier: 4,
        reckless: false,
        bold: false,
        has_inventory: true,
        turn: 1,
        player_entity: player.map(|p| p.0),
        player,
    }
}

fn record() -> NpcRecord {
    NpcRecord {
        mood: AiState::Patrolling,
        memory: Some(AiMemory {
            prev_pos: None,
            stationary_turns: 0,
            last_known_pos: None,
            last_seen_turn: 0,
            search_attempts: 0,
        }),
        look: Some(AiLookDir(g(0, 1), 0)),
        target: None,
        aiming: None,
        boost: None,
        viewshed_dirty: false,
    }
}

fn none1(_: GridVec) -> Option<GridVec> {
    None
}

fn none2(_: GridVec, _: GridVec) -> Option<GridVec> {
    None
}

fn none3(_: GridVec, _: GridVec, _: bool) -> Option<GridVec> {
    None
}

fn none_patrol(_: u64, _: u32, _: GridVec, _: GridVec) -> Option<GridVec> {
    None
}

fn clear(_: GridVec, _: GridVec) -> bool {
    true
}

#[test]
fn npc_turn_strikes_an_adjacent_player_and_locks_on() {
    let inp = input(Some((1, g(6, 5))));
    let mut rec = record();
    let mut slots: Vec<Option<ItemKind>> = Vec::new();
    let npcs: Vec<NpcInfo> = Vec::new();
    let action = npc_turn(
        &inp, &mut rec, &mut slots, None, &npcs, &Vec::new(), &Vec::new(),
        &none1, &none2, &none3, &none3, &none_patrol, &clear,
    );
    assert_eq!(action, NpcAction::Attack(1));
    assert_eq!(rec.mood, AiState::Chasing);
    assert_eq!(rec.target, Some(AiTarget { entity: 1, last_pos: g(6, 5), last_seen: 1, locked: true }));
    assert_eq!(rec.look, Some(AiLookDir(g(1, 0), 0)));
    assert!(rec.viewshed_dirty);
    assert!(rec.aiming.is_some());
    assert_eq!(rec.memory.unwrap().last_known_pos, Some(g(6, 5)));
}

#[test]
fn npc_turn_escapes_fire_before_anything_else() {
    let inp = input(Some((1, g(6, 5))));
    let mut rec = record();
    let mut slots: Vec<Option<ItemKind>> = Vec::new();
    let npcs: Vec<NpcInfo> = Vec::new();
    let out_of_fire = |_: GridVec| Some(g(-1, 0));
    let action = npc_turn(
        &inp, &mut rec, &mut slots, None, &npcs, &Vec::new(), &Vec::new(),
        &out_of_fire, &none2, &none3, &none3, &none_patrol, &clear,
    );
    assert_eq!(action, NpcAction::Step(g(-1, 0)));
    assert_eq!(rec.look, Some(AiLookDir(g(-1, 0), 0)));
}

#[test]
fn npc_turn_rests_with_nothing_to_do() {
    let mut inp = input(None);
    inp.has_inventory = false;
    let mut rec = record();
    let mut slots: Vec<Option<ItemKind>> = Vec::new();
    let npcs: Vec<NpcInfo> = Vec::new();
    let action = npc_turn(
        &inp, &mut rec, &mut slots, None, &npcs, &Vec::new(), &Vec::new(),
        &none1, &none2, &none3, &none3, &none_patrol, &clear,
    );
    assert_eq!(action, NpcAction::Pass);
    assert_eq!(rec.mood, AiState::Patrolling);
    assert_eq!(rec.look, Some(AiLookDir(g(0, 1), 0)));
    assert_eq!(rec.memory.unwrap().prev_pos, Some(g(5, 5)));
}

#[test]
fn npc_turn_patrols_around_its_post() {
    let mut inp = input(None);
    inp.post = Some(g(10, 10));
    let mut rec = record();
    let mut slots: Vec<Option<ItemKind>> = Vec::new();
    let npcs: Vec<NpcInfo> = Vec::new();
    let patrol = |_: u64, _: u32, _: GridVec, _: GridVec| Some(g(1, 1));
    let action = npc_turn(
        &inp, &mut rec, &mut slots, None, &npcs, &Vec::new(), &Vec::new(),
        &none1, &none2, &none3, &none3, &patrol, &clear,
    );
    assert_eq!(action, NpcAction::Step(g(1, 1)));
    assert_eq!(rec.look, Some(AiLookDir(g(1, 1), 0)));
}

#[test]
fn npc_turn_answers_an_ally_alert() {
    let inp = input(None);
    let mut rec = record();
    let mut slots: Vec<Option<ItemKind>> = Vec::new();
    let npcs: Vec<NpcInfo> = Vec::new();
    let alerts = vec![g(12, 5)];
    let approach = |_: GridVec, goal: GridVec, chase: bool| if goal == g(12, 5) && !chase { Some(g(1, 0)) } else { None };
    let action = npc_turn(
        &inp, &mut rec, &mut slots, None, &npcs, &alerts, &Vec::new(),
        &none1, &none2, &approach, &none3, &none_patrol, &clear,
    );
    assert_eq!(action, NpcAction::Step(g(1, 0)));
    assert_eq!(rec.mood, AiState::Chasing);
    let memory = rec.memory.unwrap();
    assert_eq!(memory.last_known_pos, Some(g(12, 5)));
    assert_eq!(memory.last_seen_turn, 1);
}

#[test]
fn npc_turn_reloads_an_empty_gun_when_idle() {
    let inp = input(None);
    let mut rec = record();
    let mut slots = vec![Some(ItemKind::Gun { attack: 5, loaded: 0, capacity: 6, name: "Revolver".to_string() })];
    let npcs: Vec<NpcInfo> = Vec::new();
    let action = npc_turn(
        &inp, &mut rec, &mut slots, None, &npcs, &Vec::new(), &Vec::new(),
        &none1, &none2, &none3, &none3, &none_patrol, &clear,
    );
    assert_eq!(action, NpcAction::Pass);
    match &slots[0] {
        Some(ItemKind::Gun { loaded, .. }) => assert_eq!(*loaded, 1),
        other => panic!("unexpected slot {:?}", other),
    }
}

#[test]
fn npc_turn_flees_when_badly_hurt() {
    let mut inp = input(Some((1, g(8, 5))));
    inp.health = Some(Health { current: 3, max: 30 });
    let mut rec = record();
    let mut slots: Vec<Option<ItemKind>> = Vec::new();
    let npcs: Vec<NpcInfo> = Vec::new();
    let flee = |from: GridVec, threat: GridVec| if from == g(5, 5) && threat == g(8, 5) { Some(g(-1, 0)) } else { None };
    let action = npc_turn(
        &inp, &mut rec, &mut slots, None, &npcs, &Vec::new(), &Vec::new(),
        &none1, &flee, &none3, &none3, &none_patrol, &clear,
    );
    assert_eq!(action, NpcAction::Step(g(-1, 0)));
    assert_eq!(rec.mood, AiState::Fleeing);
}

#[test]
fn npc_turn_lets_a_dead_player_go() {
    let mut inp = input(None);
    inp.player_entity = Some(1);
    let mut rec = record();
    rec.mood = AiState::Chasing;
    rec.target = Some(AiTarget { entity: 1, last_pos: g(6, 5), last_seen: 0, locked: true });
    let mut memory = rec.memory.unwrap();
    memory.last_known_pos = Some(g(6, 5));
    rec.memory = Some(memory);
    let mut slots: Vec<Option<ItemKind>> = Vec::new();
    let npcs: Vec<NpcInfo> = Vec::new();
    let action = npc_turn(
        &inp, &mut rec, &mut slots, None, &npcs, &Vec::new(), &Vec::new(),
        &none1, &none2, &none3, &none3, &none_patrol, &clear,
    );
    assert_eq!(action, NpcAction::Pass);
    assert_eq!(rec.target, None);
    assert_eq!(rec.mood, AiState::Patrolling);
    assert_eq!(rec.memory.unwrap().last_known_pos, None);
}
