use roguelike::grid_vec::GridVec;
use roguelike::systems::input::{
    map_terminal_input, process_inputs, windowed_command, windowed_poll_order, GameInput,
    GameState, InputEffect, InputFrame, InputMode, InputView, Key, LogLine, PhysicalKey,
    PlayerStatus,
};
use roguelike::systems::tactics::ItemKind;

fn g(x: i32, y: i32) -> GridVec {
    GridVec::new(x, y)
}

fn frame() -> InputFrame {
    InputFrame {
        mode: InputMode::Game,
        welcome_visible: false,
        ability_stamina_pending: 0,
        reload_pending: false,
        restart_requested: false,
        cursor: g(10, 10),
        extra_world_ticks: 0,
        god_mode: false,
        next_game_state: None,
        advance_turn: false,
        viewshed_dirty: false,
    }
}

fn view(stamina: Option<i32>) -> InputView {
    InputView {
        game_state: GameState::Playing,
        awaiting_input: true,
        spectating: false,
        player: Some(PlayerStatus { pos: g(10, 10), stamina, dead: false }),
        throw_pick: 0,
    }
}

fn run(f: &mut InputFrame, v: &InputView, inv: Option<&Vec<Option<ItemKind>>>, cmds: Vec<GameInput>) -> Vec<InputEffect> {
    process_inputs(f, v, inv, &Vec::new(), &cmds)
}

#[test]
fn keys_map_to_commands() {
    assert_eq!(map_terminal_input(Key::Char('q')), Some(GameInput::ToggleMenu));
    assert_eq!(map_terminal_input(Key::Char('w')), Some(GameInput::MoveUp));
    assert_eq!(map_terminal_input(Key::Up), Some(GameInput::MoveUp));
    assert_eq!(map_terminal_input(Key::Left), Some(GameInput::MoveLeft));
    assert_eq!(map_terminal_input(Key::Char('G')), Some(GameInput::ToggleGodMode));
    assert_eq!(map_terminal_input(Key::Char('g')), Some(GameInput::ThrowSand));
    assert_eq!(map_terminal_input(Key::Char('0')), Some(GameInput::UseSlot(9)));
    assert_eq!(map_terminal_input(Key::Char('3')), Some(GameInput::UseSlot(2)));
    assert_eq!(map_terminal_input(Key::Char('x')), None);
    assert_eq!(map_terminal_input(Key::Other), None);
}

#[test]
fn after_the_game_only_restart_works() {
    let mut f = frame();
    let mut v = view(Some(20));
    v.game_state = GameState::Victory;
    let effects = run(&mut f, &v, None, vec![GameInput::MoveUp, GameInput::ReloadOrRestart]);
    assert!(effects.is_empty());
    assert!(f.restart_requested);
    assert!(!f.advance_turn);
    let mut f = frame();
    v.game_state = GameState::Dead;
    run(&mut f, &v, None, vec![GameInput::MoveUp]);
    assert_eq!(f, frame());
}

#[test]
fn a_dead_player_can_watch_the_world() {
    let mut f = frame();
    let mut v = view(Some(20));
    v.player = Some(PlayerStatus { pos: g(10, 10), stamina: None, dead: true });
    v.spectating = true;
    let effects = run(&mut f, &v, None, vec![GameInput::Wait]);
    assert!(effects.is_empty());
    assert!(f.advance_turn);
    assert!(!f.restart_requested);
    let mut f = frame();
    v.player = None;
    run(&mut f, &v, None, vec![GameInput::ReloadOrRestart]);
    assert_eq!(f, frame());
}

#[test]
fn the_menu_takes_its_own_keys() {
    let mut f = frame();
    let v = view(Some(20));
    run(&mut f, &v, None, vec![GameInput::ToggleMenu]);
    assert_eq!(f.mode, InputMode::EscMenu);
    assert_eq!(f.next_game_state, Some(GameState::Paused));
    let mut paused = view(Some(20));
    paused.game_state = GameState::Paused;
    let effects = run(&mut f, &paused, None, vec![GameInput::MoveUp, GameInput::ToggleMenu]);
    assert!(effects.is_empty());
    assert_eq!(f.mode, InputMode::Game);
    assert_eq!(f.next_game_state, Some(GameState::Playing));
    let mut f = InputFrame { mode: InputMode::EscMenu, ..frame() };
    run(&mut f, &v, None, vec![GameInput::ReloadOrRestart]);
    assert!(f.restart_requested);
    assert_eq!(f.mode, InputMode::Game);
}

#[test]
fn the_welcome_screen_swallows_a_batch() {
    let mut f = InputFrame { welcome_visible: true, ..frame() };
    let effects = run(&mut f, &view(Some(20)), None, vec![GameInput::MoveUp]);
    assert!(effects.is_empty());
    assert_eq!(f, frame());
    let mut f = InputFrame { welcome_visible: true, ..frame() };
    run(&mut f, &view(Some(20)), None, vec![]);
    assert!(f.welcome_visible);
}

#[test]
fn moving_costs_stamina_and_ticks() {
    let mut f = frame();
    let effects = run(&mut f, &view(Some(20)), None, vec![GameInput::MoveLeft]);
    assert_eq!(effects, vec![InputEffect::Move { dx: -1, dy: 0 }]);
    assert_eq!((f.extra_world_ticks, f.ability_stamina_pending, f.advance_turn), (2, 2, true));
    let mut f = frame();
    let mut v = view(Some(20));
    v.awaiting_input = false;
    let effects = run(&mut f, &v, None, vec![GameInput::MoveLeft, GameInput::Wait]);
    assert!(effects.is_empty());
    assert_eq!(f, frame());
}

#[test]
fn the_cursor_moves_and_aims() {
    let mut f = frame();
    let v = view(Some(20));
    run(&mut f, &v, None, vec![GameInput::CursorUp, GameInput::CursorUp, GameInput::CursorRight]);
    assert_eq!(f.cursor, g(11, 12));
    assert!(f.viewshed_dirty && f.advance_turn);
    run(&mut f, &v, None, vec![GameInput::CenterCursor]);
    assert_eq!(f.cursor, g(10, 10));
    let hostiles = vec![g(20, 20), g(7, 10), g(13, 7)];
    let effects = process_inputs(&mut f, &v, None, &hostiles, &vec![GameInput::AutoAim, GameInput::AutoAim]);
    assert!(effects.is_empty());
    assert_eq!(f.cursor, g(8, 10));
    let effects = process_inputs(&mut frame(), &v, None, &Vec::new(), &vec![GameInput::AutoAim]);
    assert_eq!(effects, vec![InputEffect::Log(LogLine::NoEnemiesVisible)]);
}

#[test]
fn abilities_need_stamina() {
    let mut f = frame();
    let effects = run(&mut f, &view(Some(9)), None, vec![GameInput::Roundhouse]);
    assert_eq!(effects, vec![InputEffect::Log(LogLine::RoundhouseTired)]);
    assert_eq!(f, frame());
    let effects = run(&mut f, &view(Some(10)), None, vec![GameInput::Roundhouse]);
    assert_eq!(effects, vec![InputEffect::MeleeWide]);
    assert_eq!((f.extra_world_ticks, f.ability_stamina_pending), (1, 10));

    let mut f = InputFrame { cursor: g(15, 11), ..frame() };
    let effects = run(&mut f, &view(Some(8)), None, vec![GameInput::ThrowSand]);
    assert_eq!(
        effects,
        vec![InputEffect::SandCloud { target: g(12, 12) }, InputEffect::Log(LogLine::SandThrown)]
    );
    assert_eq!((f.extra_world_ticks, f.ability_stamina_pending, f.advance_turn), (0, 8, true));
    let effects = run(&mut frame(), &view(Some(8)), None, vec![GameInput::ThrowSand]);
    assert_eq!(effects, vec![InputEffect::Log(LogLine::CursorOnYou)]);
    let effects = run(&mut frame(), &view(None), None, vec![GameInput::ThrowSand]);
    assert_eq!(effects, vec![InputEffect::Log(LogLine::Tired)]);
}

#[test]
fn throwing_a_random_item() {
    let inv = vec![Some(ItemKind::Hat { defense: 1 }), Some(ItemKind::Gun { attack: 7, loaded: 0, capacity: 6, name: "Colt".to_string() })];
    let mut v = view(Some(15));
    v.throw_pick = 1;
    let mut f = InputFrame { cursor: g(12, 10), ..frame() };
    let effects = run(&mut f, &v, Some(&inv), vec![GameInput::ThrowItem]);
    assert_eq!(effects, vec![InputEffect::Throw { slot: 1, dx: 2, dy: 0, damage: 3 }]);
    assert_eq!((f.ability_stamina_pending, f.extra_world_ticks, f.advance_turn), (15, 1, true));
    v.throw_pick = 0;
    let effects = run(&mut InputFrame { cursor: g(12, 10), ..frame() }, &v, Some(&inv), vec![GameInput::ThrowItem]);
    assert_eq!(effects, vec![InputEffect::Throw { slot: 0, dx: 2, dy: 0, damage: 2 }]);
    let mut f = InputFrame { cursor: g(12, 10), ..frame() };
    let effects = run(&mut f, &v, Some(&Vec::new()), vec![GameInput::ThrowItem]);
    assert_eq!(effects, vec![InputEffect::Log(LogLine::InventoryEmpty)]);
    assert_eq!(f.ability_stamina_pending, 15);
    assert!(!f.advance_turn);
    let effects = run(&mut InputFrame { cursor: g(12, 10), ..frame() }, &v, None, vec![GameInput::ThrowItem]);
    assert_eq!(effects, vec![InputEffect::Log(LogLine::NoInventory)]);
    let effects = run(&mut frame(), &view(Some(14)), None, vec![GameInput::ThrowItem]);
    assert_eq!(effects, vec![InputEffect::Log(LogLine::ThrowTired)]);
}

#[test]
fn god_mode_toggles() {
    let mut f = frame();
    let effects = run(&mut f, &view(None), None, vec![GameInput::ToggleGodMode, GameInput::ToggleGodMode, GameInput::ToggleGodMode]);
    assert_eq!(
        effects,
        vec![
            InputEffect::Log(LogLine::GodModeOn),
            InputEffect::Log(LogLine::GodModeOff),
            InputEffect::Log(LogLine::GodModeOn)
        ]
    );
    assert!(f.god_mode);
    assert!(!f.advance_turn);
}

#[test]
fn inventory_slots_fire_throw_or_use() {
    let inv = vec![
        Some(ItemKind::Gun { attack: 7, loaded: 1, capacity: 6, name: "Colt".to_string() }),
        Some(ItemKind::Gun { attack: 7, loaded: 0, capacity: 6, name: "Colt".to_string() }),
        Some(ItemKind::Tomahawk { attack: 5 }),
        Some(ItemKind::Grenade { damage: 8, radius: 2 }),
        Some(ItemKind::Molotov { damage: 6, radius: 1 }),
        Some(ItemKind::Whiskey { heal: 10 }),
        None,
    ];
    let v = view(Some(50));
    let aim = || InputFrame { cursor: g(10, 14), ..frame() };
    assert_eq!(run(&mut aim(), &v, Some(&inv), vec![GameInput::UseSlot(0)]), vec![InputEffect::Shoot { slot: 0, dx: 0, dy: 4 }]);
    assert_eq!(run(&mut frame(), &v, Some(&inv), vec![GameInput::UseSlot(0)]), vec![InputEffect::Log(LogLine::CursorOnYou)]);
    assert_eq!(run(&mut aim(), &v, Some(&inv), vec![GameInput::UseSlot(1)]), vec![InputEffect::Log(LogLine::GunEmpty)]);
    assert_eq!(
        run(&mut aim(), &v, Some(&inv), vec![GameInput::UseSlot(2)]),
        vec![InputEffect::Throw { slot: 2, dx: 0, dy: 4, damage: 5 }]
    );
    assert_eq!(
        run(&mut aim(), &v, Some(&inv), vec![GameInput::UseSlot(3)]),
        vec![InputEffect::Grenade { slot: 3, target: g(10, 14) }]
    );
    assert_eq!(
        run(&mut aim(), &v, Some(&inv), vec![GameInput::UseSlot(4)]),
        vec![InputEffect::Molotov { slot: 4, radius: 1, damage: 6, target: g(10, 14) }]
    );
    assert_eq!(run(&mut aim(), &view(Some(1)), Some(&inv), vec![GameInput::UseSlot(4)]), vec![InputEffect::Log(LogLine::Tired)]);
    let mut f = aim();
    assert_eq!(run(&mut f, &v, Some(&inv), vec![GameInput::UseSlot(5)]), vec![InputEffect::UseItem { slot: 5 }]);
    assert!(f.advance_turn);
    assert_eq!(run(&mut aim(), &v, Some(&inv), vec![GameInput::UseSlot(6)]), vec![InputEffect::UseItem { slot: 6 }]);
    assert_eq!(run(&mut aim(), &v, Some(&inv), vec![GameInput::UseSlot(9)]), vec![InputEffect::UseItem { slot: 9 }]);
    assert_eq!(run(&mut aim(), &v, None, vec![GameInput::UseSlot(0)]), vec![InputEffect::UseItem { slot: 0 }]);
}

#[test]
fn reload_and_wait_end_the_turn() {
    let mut f = frame();
    let effects = run(&mut f, &view(None), None, vec![GameInput::ReloadOrRestart]);
    assert!(effects.is_empty());
    assert_eq!((f.extra_world_ticks, f.reload_pending, f.advance_turn, f.restart_requested), (9, true, true, false));
    let effects = run(&mut frame(), &view(None), None, vec![GameInput::Wait]);
    assert_eq!(effects, vec![InputEffect::Log(LogLine::YouWait)]);
}

#[test]
fn log_lines_read_as_the_game_prints_them() {
    assert_eq!(LogLine::NoEnemiesVisible.text(), "No enemies visible.");
    assert_eq!(LogLine::GunEmpty.text(), "Gun is empty! Press R to reload.");
    assert_eq!(LogLine::GodModeOn.text(), "God mode ENABLED \u{2014} you are invincible.");
}

#[test]
fn windowed_keys_give_the_same_commands() {
    assert_eq!(windowed_command(PhysicalKey::KeyW, false), Some(GameInput::MoveUp));
    assert_eq!(windowed_command(PhysicalKey::ArrowUp, false), Some(GameInput::MoveUp));
    assert_eq!(windowed_command(PhysicalKey::KeyG, false), Some(GameInput::ThrowSand));
    assert_eq!(windowed_command(PhysicalKey::KeyG, true), Some(GameInput::ToggleGodMode));
    assert_eq!(windowed_command(PhysicalKey::Digit(1), false), Some(GameInput::UseSlot(0)));
    assert_eq!(windowed_command(PhysicalKey::Digit(0), false), Some(GameInput::UseSlot(9)));
    assert_eq!(windowed_command(PhysicalKey::Digit(12), false), None);
}

#[test]
fn windowed_keys_are_polled_commands_first_then_digits() {
    let keys = windowed_poll_order();
    assert_eq!(keys.len(), 30);
    assert_eq!(keys[0], PhysicalKey::KeyQ);
    assert_eq!(keys[19], PhysicalKey::KeyE);
    assert_eq!(keys[20], PhysicalKey::Digit(1));
    assert_eq!(keys[29], PhysicalKey::Digit(0));
}

#[test]
fn period_waits_and_escape_opens_the_menu() {
    assert_eq!(map_terminal_input(Key::Char('.')), Some(GameInput::Wait));
    assert_eq!(map_terminal_input(Key::Esc), Some(GameInput::ToggleMenu));
    assert_eq!(map_terminal_input(Key::Char('t')), Some(GameInput::Wait));
    assert_eq!(map_terminal_input(Key::Char('q')), Some(GameInput::ToggleMenu));
}
