//! Keyboard rules: which key means what, and what a batch of commands does to the game.
use crate::components::SPELL_STAMINA_COST;
use crate::fov::trunc_div;
use crate::grid_vec::{chebyshev_spec, king_step_spec, GridVec};
use crate::systems::ai::roomy;
use crate::systems::tactics::ItemKind;
use vstd::prelude::*;

verus! {

/// Radius of the player's grenade blast.
pub const SPELL_RADIUS: i32 = 3;

/// How far the player's bullets travel.
pub const RANGED_ATTACK_RANGE: i32 = 100;

/// Most inventory slots the player has.
pub const MAX_INVENTORY_SIZE: usize = 6;

/// Stamina cost of throwing sand.
pub const SAND_STAMINA_COST: i32 = 8;

/// Stamina cost of throwing an item.
pub const THROW_ITEM_STAMINA_COST: i32 = 15;

/// Stamina cost of a roundhouse kick.
pub const ROUNDHOUSE_STAMINA_COST: i32 = 10;

/// Stamina cost of a step.
pub const MOVE_STAMINA_COST: i32 = 2;

/// The inventory slot a number key selects: `'1'` to `'9'` are slots 0 to 8, `'0'` is slot 9.
pub open spec fn slot_of_key(c: char) -> Option<usize> {
    if '1' <= c <= '9' {
        Some((c as int - '1' as int) as usize)
    } else if c == '0' {
        Some(9)
    } else {
        None
    }
}

/// Maps a number key to an inventory slot: `'1'` to `'9'` are slots 0 to 8, `'0'` is slot 9,
/// and any other key selects none.
pub fn inventory_slot_from_key(c: char) -> (slot: Option<usize>)
    ensures
        slot == slot_of_key(c),
{
    if '1' <= c && c <= '9' {
        Some((c as u32 - '1' as u32) as usize)
    } else if c == '0' {
        Some(9)
    } else {
        None
    }
}

/// A command the player can give.
#[derive(Clone, Copy, Debug, PartialEq, Eq, Structural)]
pub enum GameInput {
    ToggleMenu,
    CursorUp,
    CursorDown,
    CursorLeft,
    CursorRight,
    CenterCursor,
    AutoAim,
    MoveUp,
    MoveDown,
    MoveLeft,
    MoveRight,
    Wait,
    ReloadOrRestart,
    Roundhouse,
    ThrowSand,
    ThrowItem,
    ToggleGodMode,
    UseSlot(usize),
}

/// A key of the terminal.
#[derive(Clone, Copy, Debug, PartialEq, Eq, Structural)]
pub enum Key {
    Char(char),
    Up,
    Down,
    Left,
    Right,
    Esc,
    Other,
}

/// The command a terminal key gives: q or Esc menu; i k j l cursor; c center; v auto-aim; w s a d
/// and the arrows move; t or . wait; r reload or restart; f roundhouse; g sand; e throw; G god
/// mode; a number key uses its slot.
pub open spec fn key_command(key: Key) -> Option<GameInput> {
    match key {
        Key::Char(c) => if c == 'q' {
            Some(GameInput::ToggleMenu)
        } else if c == 'i' {
            Some(GameInput::CursorUp)
        } else if c == 'k' {
            Some(GameInput::CursorDown)
        } else if c == 'j' {
            Some(GameInput::CursorLeft)
        } else if c == 'l' {
            Some(GameInput::CursorRight)
        } else if c == 'c' {
            Some(GameInput::CenterCursor)
        } else if c == 'v' {
            Some(GameInput::AutoAim)
        } else if c == 'w' {
            Some(GameInput::MoveUp)
        } else if c == 's' {
            Some(GameInput::MoveDown)
        } else if c == 'a' {
            Some(GameInput::MoveLeft)
        } else if c == 'd' {
            Some(GameInput::MoveRight)
        } else if c == 't' || c == '.' {
            Some(GameInput::Wait)
        } else if c == 'r' {
            Some(GameInput::ReloadOrRestart)
        } else if c == 'f' {
            Some(GameInput::Roundhouse)
        } else if c == 'g' {
            Some(GameInput::ThrowSand)
        } else if c == 'e' {
            Some(GameInput::ThrowItem)
        } else if c == 'G' {
            Some(GameInput::ToggleGodMode)
        } else {
            match slot_of_key(c) {
                Some(s) => Some(GameInput::UseSlot(s)),
                None => None,
            }
        },
        Key::Up => Some(GameInput::MoveUp),
        Key::Down => Some(GameInput::MoveDown),
        Key::Left => Some(GameInput::MoveLeft),
        Key::Right => Some(GameInput::MoveRight),
        Key::Esc => Some(GameInput::ToggleMenu),
        Key::Other => None,
    }
}

/// The command a terminal key gives, if any.
pub fn map_terminal_input(key: Key) -> (cmd: Option<GameInput>)
    ensures
        cmd == key_command(key),
{
    match key {
        Key::Char(c) => {
            if c == 'q' {
                Some(GameInput::ToggleMenu)
            } else if c == 'i' {
                Some(GameInput::CursorUp)
            } else if c == 'k' {
                Some(GameInput::CursorDown)
            } else if c == 'j' {
                Some(GameInput::CursorLeft)
            } else if c == 'l' {
                Some(GameInput::CursorRight)
            } else if c == 'c' {
                Some(GameInput::CenterCursor)
            } else if c == 'v' {
                Some(GameInput::AutoAim)
            } else if c == 'w' {
                Some(GameInput::MoveUp)
            } else if c == 's' {
                Some(GameInput::MoveDown)
            } else if c == 'a' {
                Some(GameInput::MoveLeft)
            } else if c == 'd' {
                Some(GameInput::MoveRight)
            } else if c == 't' || c == '.' {
                Some(GameInput::Wait)
            } else if c == 'r' {
                Some(GameInput::ReloadOrRestart)
            } else if c == 'f' {
                Some(GameInput::Roundhouse)
            } else if c == 'g' {
                Some(GameInput::ThrowSand)
            } else if c == 'e' {
                Some(GameInput::ThrowItem)
            } else if c == 'G' {
                Some(GameInput::ToggleGodMode)
            } else {
                match inventory_slot_from_key(c) {
                    Some(s) => Some(GameInput::UseSlot(s)),
                    None => None,
                }
            }
        },
        Key::Up => Some(GameInput::MoveUp),
        Key::Down => Some(GameInput::MoveDown),
        Key::Left => Some(GameInput::MoveLeft),
        Key::Right => Some(GameInput::MoveRight),
        Key::Esc => Some(GameInput::ToggleMenu),
        Key::Other => None,
    }
}

/// A key of a windowed keyboard that the game reads.
#[derive(Clone, Copy, Debug, PartialEq, Eq, Structural)]
pub enum PhysicalKey {
    KeyQ,
    KeyI,
    KeyK,
    KeyJ,
    KeyL,
    KeyC,
    KeyV,
    KeyW,
    ArrowUp,
    KeyS,
    ArrowDown,
    KeyA,
    ArrowLeft,
    KeyD,
    ArrowRight,
    KeyT,
    KeyR,
    KeyF,
    KeyG,
    KeyE,
    Digit(u8),
}

/// The command a windowed key gives: as on the terminal, with shift turning the sand key
/// into the god-mode toggle; the digit keys 1 to 9 use slots 0 to 8 and 0 uses slot 9.
pub open spec fn physical_command(key: PhysicalKey, shift: bool) -> Option<GameInput> {
    match key {
        PhysicalKey::KeyQ => Some(GameInput::ToggleMenu),
        PhysicalKey::KeyI => Some(GameInput::CursorUp),
        PhysicalKey::KeyK => Some(GameInput::CursorDown),
        PhysicalKey::KeyJ => Some(GameInput::CursorLeft),
        PhysicalKey::KeyL => Some(GameInput::CursorRight),
        PhysicalKey::KeyC => Some(GameInput::CenterCursor),
        PhysicalKey::KeyV => Some(GameInput::AutoAim),
        PhysicalKey::KeyW | PhysicalKey::ArrowUp => Some(GameInput::MoveUp),
        PhysicalKey::KeyS | PhysicalKey::ArrowDown => Some(GameInput::MoveDown),
        PhysicalKey::KeyA | PhysicalKey::ArrowLeft => Some(GameInput::MoveLeft),
        PhysicalKey::KeyD | PhysicalKey::ArrowRight => Some(GameInput::MoveRight),
        PhysicalKey::KeyT => Some(GameInput::Wait),
        PhysicalKey::KeyR => Some(GameInput::ReloadOrRestart),
        PhysicalKey::KeyF => Some(GameInput::Roundhouse),
        PhysicalKey::KeyG => Some(if shift { GameInput::ToggleGodMode } else { GameInput::ThrowSand }),
        PhysicalKey::KeyE => Some(GameInput::ThrowItem),
        PhysicalKey::Digit(d) => if 1 <= d <= 9 {
            Some(GameInput::UseSlot((d - 1) as usize))
        } else if d == 0 {
            Some(GameInput::UseSlot(9))
        } else {
            None
        },
    }
}

/// The command a windowed key gives, if any.
pub fn windowed_command(key: PhysicalKey, shift: bool) -> (cmd: Option<GameInput>)
    ensures
        cmd == physical_command(key, shift),
{
    match key {
        PhysicalKey::KeyQ => Some(GameInput::ToggleMenu),
        PhysicalKey::KeyI => Some(GameInput::CursorUp),
        PhysicalKey::KeyK => Some(GameInput::CursorDown),
        PhysicalKey::KeyJ => Some(GameInput::CursorLeft),
        PhysicalKey::KeyL => Some(GameInput::CursorRight),
        PhysicalKey::KeyC => Some(GameInput::CenterCursor),
        PhysicalKey::KeyV => Some(GameInput::AutoAim),
        PhysicalKey::KeyW | PhysicalKey::ArrowUp => Some(GameInput::MoveUp),
        PhysicalKey::KeyS | PhysicalKey::ArrowDown => Some(GameInput::MoveDown),
        PhysicalKey::KeyA | PhysicalKey::ArrowLeft => Some(GameInput::MoveLeft),
        PhysicalKey::KeyD | PhysicalKey::ArrowRight => Some(GameInput::MoveRight),
        PhysicalKey::KeyT => Some(GameInput::Wait),
        PhysicalKey::KeyR => Some(GameInput::ReloadOrRestart),
        PhysicalKey::KeyF => Some(GameInput::Roundhouse),
        PhysicalKey::KeyG => Some(if shift {
            GameInput::ToggleGodMode
        } else {
            GameInput::ThrowSand
        }),
        PhysicalKey::KeyE => Some(GameInput::ThrowItem),
        PhysicalKey::Digit(d) => {
            if 1 <= d && d <= 9 {
                Some(GameInput::UseSlot((d - 1) as usize))
            } else if d == 0 {
                Some(GameInput::UseSlot(9))
            } else {
                None
            }
        },
    }
}

/// The order in which the windowed front end polls the keys each frame: the command keys,
/// then the digits 1 to 9 and 0. Commands come out in this order.
pub fn windowed_poll_order() -> (keys: Vec<PhysicalKey>)
    ensures
        keys@ == seq![
            PhysicalKey::KeyQ, PhysicalKey::KeyI, PhysicalKey::KeyK, PhysicalKey::KeyJ, PhysicalKey::KeyL,
            PhysicalKey::KeyC, PhysicalKey::KeyV, PhysicalKey::KeyW, PhysicalKey::ArrowUp, PhysicalKey::KeyS,
            PhysicalKey::ArrowDown, PhysicalKey::KeyA, PhysicalKey::ArrowLeft, PhysicalKey::KeyD,
            PhysicalKey::ArrowRight, PhysicalKey::KeyT, PhysicalKey::KeyR, PhysicalKey::KeyF, PhysicalKey::KeyG,
            PhysicalKey::KeyE, PhysicalKey::Digit(1), PhysicalKey::Digit(2), PhysicalKey::Digit(3),
            PhysicalKey::Digit(4), PhysicalKey::Digit(5), PhysicalKey::Digit(6), PhysicalKey::Digit(7),
            PhysicalKey::Digit(8), PhysicalKey::Digit(9), PhysicalKey::Digit(0),
        ],
{
    let mut keys = vec![
        PhysicalKey::KeyQ, PhysicalKey::KeyI, PhysicalKey::KeyK, PhysicalKey::KeyJ, PhysicalKey::KeyL,
        PhysicalKey::KeyC, PhysicalKey::KeyV, PhysicalKey::KeyW, PhysicalKey::ArrowUp, PhysicalKey::KeyS,
        PhysicalKey::ArrowDown, PhysicalKey::KeyA, PhysicalKey::ArrowLeft, PhysicalKey::KeyD,
        PhysicalKey::ArrowRight, PhysicalKey::KeyT, PhysicalKey::KeyR, PhysicalKey::KeyF, PhysicalKey::KeyG,
        PhysicalKey::KeyE,
    ];
    let mut d: u8 = 1;
    while d <= 9
        invariant
            1 <= d <= 10,
            keys@.len() == 20 + d - 1,
            keys@.subrange(0, 20) == seq![
                PhysicalKey::KeyQ, PhysicalKey::KeyI, PhysicalKey::KeyK, PhysicalKey::KeyJ, PhysicalKey::KeyL,
                PhysicalKey::KeyC, PhysicalKey::KeyV, PhysicalKey::KeyW, PhysicalKey::ArrowUp, PhysicalKey::KeyS,
                PhysicalKey::ArrowDown, PhysicalKey::KeyA, PhysicalKey::ArrowLeft, PhysicalKey::KeyD,
                PhysicalKey::ArrowRight, PhysicalKey::KeyT, PhysicalKey::KeyR, PhysicalKey::KeyF, PhysicalKey::KeyG,
                PhysicalKey::KeyE,
            ],
            forall|k: int| 20 <= k < keys@.len() ==> keys@[k] == PhysicalKey::Digit((k - 19) as u8),
        decreases 10 - d,
    {
        keys.push(PhysicalKey::Digit(d));
        d += 1;
    }
    keys.push(PhysicalKey::Digit(0));
    proof {
        let expected = seq![
            PhysicalKey::KeyQ, PhysicalKey::KeyI, PhysicalKey::KeyK, PhysicalKey::KeyJ, PhysicalKey::KeyL,
            PhysicalKey::KeyC, PhysicalKey::KeyV, PhysicalKey::KeyW, PhysicalKey::ArrowUp, PhysicalKey::KeyS,
            PhysicalKey::ArrowDown, PhysicalKey::KeyA, PhysicalKey::ArrowLeft, PhysicalKey::KeyD,
            PhysicalKey::ArrowRight, PhysicalKey::KeyT, PhysicalKey::KeyR, PhysicalKey::KeyF, PhysicalKey::KeyG,
            PhysicalKey::KeyE, PhysicalKey::Digit(1), PhysicalKey::Digit(2), PhysicalKey::Digit(3),
            PhysicalKey::Digit(4), PhysicalKey::Digit(5), PhysicalKey::Digit(6), PhysicalKey::Digit(7),
            PhysicalKey::Digit(8), PhysicalKey::Digit(9), PhysicalKey::Digit(0),
        ];
        assert forall|k: int| 0 <= k < 30 implies keys@[k] == expected[k] by {
            if k < 20 {
                assert(keys@[k] == keys@.subrange(0, 20)[k]);
            }
        }
        assert(keys@ =~= expected);
    }
    keys
}

/// The game's top-level state.
#[derive(Clone, Copy, Debug, PartialEq, Eq, Structural)]
pub enum GameState {
    Playing,
    Paused,
    Dead,
    Victory,
}

/// Whether keys drive the game or the pause menu.
#[derive(Clone, Copy, Debug, PartialEq, Eq, Structural)]
pub enum InputMode {
    Game,
    EscMenu,
}

/// The state that the input rules read and change.
#[derive(Clone, Copy, Debug, PartialEq, Eq)]
pub struct InputFrame {
    pub mode: InputMode,
    pub welcome_visible: bool,
    /// Stamina that the next player action costs.
    pub ability_stamina_pending: i32,
    pub reload_pending: bool,
    pub restart_requested: bool,
    /// The aiming cursor.
    pub cursor: GridVec,
    /// World ticks that the next action takes beyond one.
    pub extra_world_ticks: u32,
    pub god_mode: bool,
    /// The game state to switch to, if one was asked for.
    pub next_game_state: Option<GameState>,
    /// The player's turn was ended.
    pub advance_turn: bool,
    /// The player's viewshed needs recomputing.
    pub viewshed_dirty: bool,
}

/// What the input rules see of the player.
#[derive(Clone, Copy, Debug, PartialEq, Eq, Structural)]
pub struct PlayerStatus {
    pub pos: GridVec,
    pub stamina: Option<i32>,
    pub dead: bool,
}

/// What the input rules read besides their own state.
#[derive(Clone, Copy, Debug, PartialEq, Eq)]
pub struct InputView {
    pub game_state: GameState,
    /// The game waits for the player's command.
    pub awaiting_input: bool,
    /// The dead player keeps watching the world run.
    pub spectating: bool,
    /// The player, if there is one.
    pub player: Option<PlayerStatus>,
    /// The inventory slot a random throw takes (drawn by the caller, below the inventory's length).
    pub throw_pick: usize,
}

/// A line for the combat log.
#[derive(Clone, Copy, Debug, PartialEq, Eq, Structural)]
pub enum LogLine {
    NoEnemiesVisible,
    YouWait,
    RoundhouseTired,
    Tired,
    CursorOnYou,
    SandThrown,
    ThrowTired,
    GodModeOn,
    GodModeOff,
    GunEmpty,
    NoInventory,
    InventoryEmpty,
}

/// The words of a log line.
pub open spec fn log_text(line: LogLine) -> Seq<char> {
    match line {
        LogLine::NoEnemiesVisible => "No enemies visible."@,
        LogLine::YouWait => "You wait..."@,
        LogLine::RoundhouseTired => "Not enough stamina for roundhouse!"@,
        LogLine::Tired => "Not enough stamina!"@,
        LogLine::CursorOnYou => "Cursor is on your position!"@,
        LogLine::SandThrown => "You throw a handful of sand!"@,
        LogLine::ThrowTired => "Not enough stamina to throw!"@,
        LogLine::GodModeOn => "God mode ENABLED \u{2014} you are invincible."@,
        LogLine::GodModeOff => "God mode DISABLED."@,
        LogLine::GunEmpty => "Gun is empty! Press R to reload."@,
        LogLine::NoInventory => "No inventory!"@,
        LogLine::InventoryEmpty => "Inventory is empty!"@,
    }
}

impl LogLine {
    /// The text of the line.
    pub fn text(self) -> (t: &'static str)
        ensures
            t@ == log_text(self),
    {
        match self {
            LogLine::NoEnemiesVisible => "No enemies visible.",
            LogLine::YouWait => "You wait...",
            LogLine::RoundhouseTired => "Not enough stamina for roundhouse!",
            LogLine::Tired => "Not enough stamina!",
            LogLine::CursorOnYou => "Cursor is on your position!",
            LogLine::SandThrown => "You throw a handful of sand!",
            LogLine::ThrowTired => "Not enough stamina to throw!",
            LogLine::GodModeOn => "God mode ENABLED \u{2014} you are invincible.",
            LogLine::GodModeOff => "God mode DISABLED.",
            LogLine::GunEmpty => "Gun is empty! Press R to reload.",
            LogLine::NoInventory => "No inventory!",
            LogLine::InventoryEmpty => "Inventory is empty!",
        }
    }
}

/// What a command asks of the rest of the game.
#[derive(Clone, Copy, Debug, PartialEq, Eq)]
pub enum InputEffect {
    /// Step the player by `(dx, dy)`.
    Move { dx: i32, dy: i32 },
    /// Kick all around.
    MeleeWide,
    /// Raise a sand cloud of radius 2 at `target`.
    SandCloud { target: GridVec },
    /// Fire the gun in `slot` toward `(dx, dy)`, the bullet carrying `RANGED_ATTACK_RANGE`.
    Shoot { slot: usize, dx: i32, dy: i32 },
    /// Throw the item in `slot` toward `(dx, dy)` for `damage`.
    Throw { slot: usize, dx: i32, dy: i32, damage: i32 },
    /// Throw the grenade in `slot` at `target`, blast radius `SPELL_RADIUS`.
    Grenade { slot: usize, target: GridVec },
    /// Throw the molotov in `slot` at `target`.
    Molotov { slot: usize, radius: i32, damage: i32, target: GridVec },
    /// Use the item in `slot`.
    UseItem { slot: usize },
    /// Write a line to the combat log.
    Log(LogLine),
}

/// The first of the nearest points to `origin`, scanning the list in order.
pub open spec fn first_nearest(origin: GridVec, pts: Seq<GridVec>) -> Option<GridVec>
    decreases pts.len(),
{
    if pts.len() == 0 {
        None
    } else {
        let x = pts.last();
        match first_nearest(origin, pts.drop_last()) {
            Some(r) => if chebyshev_spec(origin, r) <= chebyshev_spec(origin, x) {
                Some(r)
            } else {
                Some(x)
            },
            None => Some(x),
        }
    }
}

/// The player has at least `cost` stamina.
pub open spec fn has_stamina(p: PlayerStatus, cost: int) -> bool {
    p.stamina matches Some(s) && s >= cost
}

/// The damage of an item thrown at random: a knife's or tomahawk's attack, half a gun's, else 2.
pub open spec fn throw_damage(item: Option<ItemKind>) -> i32 {
    match item {
        Some(ItemKind::Knife { attack }) => attack,
        Some(ItemKind::Tomahawk { attack }) => attack,
        Some(ItemKind::Gun { attack, .. }) => trunc_div(attack as int, 2) as i32,
        _ => 2,
    }
}

/// The frame with the turn ended.
pub open spec fn advanced(f: InputFrame) -> InputFrame {
    InputFrame { advance_turn: true, ..f }
}

/// Using inventory slot `idx` with the cursor `delta` away from the player: a loaded gun
/// fires, a knife or tomahawk is thrown, a grenade or molotov is thrown at the cursor if the
/// player has the stamina; anything else is used; with the cursor on the player, nothing
/// is fired or thrown.
pub open spec fn use_slot_step(f: InputFrame, p: PlayerStatus, inv: Option<Seq<Option<ItemKind>>>, idx: usize) -> (InputFrame, Seq<InputEffect>) {
    let dx = (f.cursor.x - p.pos.x) as i32;
    let dy = (f.cursor.y - p.pos.y) as i32;
    let on_player = dx == 0 && dy == 0;
    let fallback = (advanced(f), seq![InputEffect::UseItem { slot: idx }]);
    match inv {
        Some(items) => if idx < items.len() {
            match items[idx as int] {
                Some(ItemKind::Gun { loaded, .. }) => if loaded > 0 {
                    if !on_player {
                        (advanced(InputFrame { extra_world_ticks: 1, ..f }), seq![InputEffect::Shoot { slot: idx, dx, dy }])
                    } else {
                        (f, seq![InputEffect::Log(LogLine::CursorOnYou)])
                    }
                } else {
                    (f, seq![InputEffect::Log(LogLine::GunEmpty)])
                },
                Some(ItemKind::Knife { attack }) => if !on_player {
                    (advanced(InputFrame { extra_world_ticks: 1, ..f }), seq![InputEffect::Throw { slot: idx, dx, dy, damage: attack }])
                } else {
                    (f, seq![InputEffect::Log(LogLine::CursorOnYou)])
                },
                Some(ItemKind::Tomahawk { attack }) => if !on_player {
                    (advanced(InputFrame { extra_world_ticks: 1, ..f }), seq![InputEffect::Throw { slot: idx, dx, dy, damage: attack }])
                } else {
                    (f, seq![InputEffect::Log(LogLine::CursorOnYou)])
                },
                Some(ItemKind::Grenade { .. }) => if has_stamina(p, SPELL_STAMINA_COST as int) {
                    (advanced(InputFrame { extra_world_ticks: 1, ..f }), seq![InputEffect::Grenade { slot: idx, target: f.cursor }])
                } else {
                    (f, seq![InputEffect::Log(LogLine::Tired)])
                },
                Some(ItemKind::Molotov { damage, radius }) => if has_stamina(p, SPELL_STAMINA_COST as int) {
                    (advanced(InputFrame { extra_world_ticks: 1, ..f }), seq![InputEffect::Molotov { slot: idx, radius, damage, target: f.cursor }])
                } else {
                    (f, seq![InputEffect::Log(LogLine::Tired)])
                },
                _ => fallback,
            }
        } else {
            fallback
        },
        None => fallback,
    }
}

/// Throwing a random item: with the cursor on the player, nothing; without an inventory or
/// with an empty one, nothing; else the item in slot `pick` is thrown toward the cursor.
pub open spec fn throw_random_step(f: InputFrame, p: PlayerStatus, inv: Option<Seq<Option<ItemKind>>>, pick: usize) -> (InputFrame, Seq<InputEffect>) {
    let dx = (f.cursor.x - p.pos.x) as i32;
    let dy = (f.cursor.y - p.pos.y) as i32;
    if dx == 0 && dy == 0 {
        (f, seq![InputEffect::Log(LogLine::CursorOnYou)])
    } else {
        match inv {
            None => (f, seq![InputEffect::Log(LogLine::NoInventory)]),
            Some(items) => if items.len() == 0 {
                (f, seq![InputEffect::Log(LogLine::InventoryEmpty)])
            } else {
                (advanced(InputFrame { extra_world_ticks: 1, ..f }), seq![InputEffect::Throw {
                    slot: pick,
                    dx,
                    dy,
                    damage: throw_damage(items[pick as int]),
                }])
            },
        }
    }
}

/// One command in normal play. The menu key always works; every other command works only
/// while the game awaits input.
pub open spec fn game_step(
    f: InputFrame,
    v: InputView,
    p: PlayerStatus,
    inv: Option<Seq<Option<ItemKind>>>,
    hostiles: Seq<GridVec>,
    cmd: GameInput,
) -> (InputFrame, Seq<InputEffect>) {
    let none = Seq::<InputEffect>::empty();
    let moved = |dx: i32, dy: i32| (advanced(InputFrame { extra_world_ticks: 2, ability_stamina_pending: MOVE_STAMINA_COST, ..f }), seq![InputEffect::Move { dx, dy }]);
    let cursor_to = |c: GridVec| (advanced(InputFrame { cursor: c, viewshed_dirty: true, ..f }), none);
    if cmd == GameInput::ToggleMenu {
        (InputFrame {
            mode: InputMode::EscMenu,
            next_game_state: if v.game_state == GameState::Playing { Some(GameState::Paused) } else { f.next_game_state },
            ..f
        }, none)
    } else if !v.awaiting_input {
        (f, none)
    } else {
        match cmd {
            GameInput::CursorUp => cursor_to(GridVec { x: f.cursor.x, y: (f.cursor.y + 1) as i32 }),
            GameInput::CursorDown => cursor_to(GridVec { x: f.cursor.x, y: (f.cursor.y - 1) as i32 }),
            GameInput::CursorLeft => cursor_to(GridVec { x: (f.cursor.x - 1) as i32, y: f.cursor.y }),
            GameInput::CursorRight => cursor_to(GridVec { x: (f.cursor.x + 1) as i32, y: f.cursor.y }),
            GameInput::CenterCursor => cursor_to(p.pos),
            GameInput::AutoAim => match first_nearest(p.pos, hostiles) {
                Some(t) => {
                    let s = king_step_spec(GridVec { x: (t.x - f.cursor.x) as i32, y: (t.y - f.cursor.y) as i32 });
                    cursor_to(GridVec { x: (f.cursor.x + s.0) as i32, y: (f.cursor.y + s.1) as i32 })
                },
                None => (f, seq![InputEffect::Log(LogLine::NoEnemiesVisible)]),
            },
            GameInput::MoveUp => moved(0, 1),
            GameInput::MoveDown => moved(0, -1i32),
            GameInput::MoveLeft => moved(-1i32, 0),
            GameInput::MoveRight => moved(1, 0),
            GameInput::Wait => (advanced(f), seq![InputEffect::Log(LogLine::YouWait)]),
            GameInput::ReloadOrRestart => (advanced(InputFrame { extra_world_ticks: 9, reload_pending: true, ..f }), none),
            GameInput::Roundhouse => if has_stamina(p, ROUNDHOUSE_STAMINA_COST as int) {
                (advanced(InputFrame { extra_world_ticks: 1, ability_stamina_pending: ROUNDHOUSE_STAMINA_COST, ..f }), seq![InputEffect::MeleeWide])
            } else {
                (f, seq![InputEffect::Log(LogLine::RoundhouseTired)])
            },
            GameInput::ThrowSand => if !has_stamina(p, SAND_STAMINA_COST as int) {
                (f, seq![InputEffect::Log(LogLine::Tired)])
            } else if f.cursor == p.pos {
                (f, seq![InputEffect::Log(LogLine::CursorOnYou)])
            } else {
                let s = king_step_spec(GridVec { x: (f.cursor.x - p.pos.x) as i32, y: (f.cursor.y - p.pos.y) as i32 });
                (advanced(InputFrame { ability_stamina_pending: SAND_STAMINA_COST, extra_world_ticks: 0, ..f }), seq![
                    InputEffect::SandCloud { target: GridVec { x: (p.pos.x + 2 * s.0) as i32, y: (p.pos.y + 2 * s.1) as i32 } },
                    InputEffect::Log(LogLine::SandThrown),
                ])
            },
            GameInput::ThrowItem => if has_stamina(p, THROW_ITEM_STAMINA_COST as int) {
                throw_random_step(InputFrame { ability_stamina_pending: THROW_ITEM_STAMINA_COST, ..f }, p, inv, v.throw_pick)
            } else {
                (f, seq![InputEffect::Log(LogLine::ThrowTired)])
            },
            GameInput::ToggleGodMode => (InputFrame { god_mode: !f.god_mode, ..f }, seq![InputEffect::Log(if !f.god_mode { LogLine::GodModeOn } else { LogLine::GodModeOff })]),
            GameInput::UseSlot(idx) => use_slot_step(f, p, inv, idx),
            GameInput::ToggleMenu => (f, none),
        }
    }
}

/// The commands of a batch in normal play, one after another.
pub open spec fn run_game(
    f: InputFrame,
    v: InputView,
    p: PlayerStatus,
    inv: Option<Seq<Option<ItemKind>>>,
    hostiles: Seq<GridVec>,
    cmds: Seq<GameInput>,
) -> (InputFrame, Seq<InputEffect>)
    decreases cmds.len(),
{
    if cmds.len() == 0 {
        (f, Seq::empty())
    } else {
        let r = run_game(f, v, p, inv, hostiles, cmds.drop_last());
        let s = game_step(r.0, v, p, inv, hostiles, cmds.last());
        (s.0, r.1 + s.1)
    }
}

/// A command while the pause menu is open: the menu key closes it (resuming a paused game),
/// the reload key closes it and asks for a restart, any other key does nothing.
pub open spec fn menu_step(f: InputFrame, v: InputView, cmd: GameInput) -> InputFrame {
    match cmd {
        GameInput::ToggleMenu => InputFrame {
            mode: InputMode::Game,
            next_game_state: if v.game_state == GameState::Paused { Some(GameState::Playing) } else { f.next_game_state },
            ..f
        },
        GameInput::ReloadOrRestart => InputFrame { mode: InputMode::Game, restart_requested: true, ..f },
        _ => f,
    }
}

/// The commands of a batch while the pause menu is open.
pub open spec fn run_menu(f: InputFrame, v: InputView, cmds: Seq<GameInput>) -> InputFrame
    decreases cmds.len(),
{
    if cmds.len() == 0 {
        f
    } else {
        menu_step(run_menu(f, v, cmds.drop_last()), v, cmds.last())
    }
}

/// Some command of the batch is the reload-or-restart key.
pub open spec fn asks_restart(cmds: Seq<GameInput>) -> bool {
    exists|i: int| 0 <= i < cmds.len() && cmds[i] == GameInput::ReloadOrRestart
}

/// The game is under way with a living player: the only case in which commands move or
/// aim anything.
pub open spec fn in_play(v: InputView) -> bool {
    &&& v.game_state != GameState::Dead
    &&& v.game_state != GameState::Victory
    &&& v.player matches Some(p) && !p.dead
}

/// What a batch of commands does: once the game is lost or won, only a restart can be asked
/// for; with no player, nothing; with a dead player, only a restart, and a spectating player
/// lets the world run on; with the pause menu open, the menu rules; a welcome screen is closed
/// by any batch of commands and takes nothing else; else the commands of normal play.
pub open spec fn process_spec(
    f: InputFrame,
    v: InputView,
    inv: Option<Seq<Option<ItemKind>>>,
    hostiles: Seq<GridVec>,
    cmds: Seq<GameInput>,
) -> (InputFrame, Seq<InputEffect>) {
    let restart = InputFrame { restart_requested: f.restart_requested || asks_restart(cmds), ..f };
    if v.game_state == GameState::Dead || v.game_state == GameState::Victory {
        (restart, Seq::empty())
    } else {
        match v.player {
            None => (f, Seq::empty()),
            Some(p) => if p.dead {
                (InputFrame { advance_turn: restart.advance_turn || (v.spectating && v.awaiting_input), ..restart }, Seq::empty())
            } else if f.mode == InputMode::EscMenu {
                (run_menu(f, v, cmds), Seq::empty())
            } else if f.welcome_visible && cmds.len() > 0 {
                (InputFrame { welcome_visible: false, ..f }, Seq::empty())
            } else {
                run_game(f, v, p, inv, hostiles, cmds)
            },
        }
    }
}

/// The inventory as a sequence of slots, if there is one.
pub open spec fn inv_view(inv: Option<&Vec<Option<ItemKind>>>) -> Option<Seq<Option<ItemKind>>> {
    match inv {
        Some(v) => Some(v@),
        None => None,
    }
}

/// A cursor within `0x3000_0000` of the origin on each axis.
pub open spec fn cursor_ok(c: GridVec) -> bool {
    -0x3000_0000 <= c.x <= 0x3000_0000 && -0x3000_0000 <= c.y <= 0x3000_0000
}

/// The cursor moved at most one tile on each axis, or onto `pos`.
pub open spec fn cursor_within(new: GridVec, old: GridVec, pos: GridVec) -> bool {
    ||| (-1 <= new.x - old.x <= 1 && -1 <= new.y - old.y <= 1)
    ||| new == pos
}

fn use_slot(
    frame: &mut InputFrame,
    p: PlayerStatus,
    inv: Option<&Vec<Option<ItemKind>>>,
    idx: usize,
    effects: &mut Vec<InputEffect>,
)
    requires
        roomy(p.pos),
        cursor_ok(old(frame).cursor),
    ensures
        *final(frame) == use_slot_step(*old(frame), p, inv_view(inv), idx).0,
        final(effects)@ == old(effects)@ + use_slot_step(*old(frame), p, inv_view(inv), idx).1,
{
    let ghost f0 = *frame;
    let dx = frame.cursor.x - p.pos.x;
    let dy = frame.cursor.y - p.pos.y;
    let on_player = dx == 0 && dy == 0;
    if let Some(items) = inv {
        if idx < items.len() {
            match &items[idx] {
                Some(ItemKind::Gun { loaded, .. }) => {
                    if *loaded > 0 {
                        if !on_player {
                            frame.extra_world_ticks = 1;
                            frame.advance_turn = true;
                            effects.push(InputEffect::Shoot { slot: idx, dx, dy });
                        } else {
                            effects.push(InputEffect::Log(LogLine::CursorOnYou));
                        }
                    } else {
                        effects.push(InputEffect::Log(LogLine::GunEmpty));
                    }
                    return;
                },
                Some(ItemKind::Knife { attack }) | Some(ItemKind::Tomahawk { attack }) => {
                    if !on_player {
                        frame.extra_world_ticks = 1;
                        frame.advance_turn = true;
                        effects.push(InputEffect::Throw { slot: idx, dx, dy, damage: *attack });
                    } else {
                        effects.push(InputEffect::Log(LogLine::CursorOnYou));
                    }
                    return;
                },
                Some(ItemKind::Grenade { .. }) => {
                    let ok = match p.stamina {
                        Some(st) => st >= SPELL_STAMINA_COST,
                        None => false,
                    };
                    if ok {
                        frame.extra_world_ticks = 1;
                        frame.advance_turn = true;
                        effects.push(InputEffect::Grenade { slot: idx, target: frame.cursor });
                    } else {
                        effects.push(InputEffect::Log(LogLine::Tired));
                    }
                    return;
                },
                Some(ItemKind::Molotov { damage, radius }) => {
                    let ok = match p.stamina {
                        Some(st) => st >= SPELL_STAMINA_COST,
                        None => false,
                    };
                    if ok {
                        frame.extra_world_ticks = 1;
                        frame.advance_turn = true;
                        effects.push(InputEffect::Molotov { slot: idx, radius: *radius, damage: *damage, target: frame.cursor });
                    } else {
                        effects.push(InputEffect::Log(LogLine::Tired));
                    }
                    return;
                },
                _ => {},
            }
        }
    }
    frame.advance_turn = true;
    effects.push(InputEffect::UseItem { slot: idx });
}

fn throw_random(
    frame: &mut InputFrame,
    p: PlayerStatus,
    inv: Option<&Vec<Option<ItemKind>>>,
    pick: usize,
    effects: &mut Vec<InputEffect>,
)
    requires
        roomy(p.pos),
        cursor_ok(old(frame).cursor),
        inv matches Some(v) ==> (v@.len() > 0 ==> pick < v@.len()),
    ensures
        *final(frame) == throw_random_step(*old(frame), p, inv_view(inv), pick).0,
        final(effects)@ == old(effects)@ + throw_random_step(*old(frame), p, inv_view(inv), pick).1,
{
    let dx = frame.cursor.x - p.pos.x;
    let dy = frame.cursor.y - p.pos.y;
    if dx == 0 && dy == 0 {
        effects.push(InputEffect::Log(LogLine::CursorOnYou));
        return;
    }
    let items = match inv {
        Some(v) => v,
        None => {
            effects.push(InputEffect::Log(LogLine::NoInventory));
            return;
        },
    };
    if items.len() == 0 {
        effects.push(InputEffect::Log(LogLine::InventoryEmpty));
        return;
    }
    let damage: i32 = match &items[pick] {
        Some(ItemKind::Knife { attack }) => *attack,
        Some(ItemKind::Tomahawk { attack }) => *attack,
        Some(ItemKind::Gun { attack, .. }) => {
            let a = *attack as i64;
            (if a >= 0 {
                a / 2
            } else {
                -((-a) / 2)
            }) as i32
        },
        _ => 2,
    };
    effects.push(InputEffect::Throw { slot: pick, dx, dy, damage });
    frame.extra_world_ticks = 1;
    frame.advance_turn = true;
}

fn aim_at_nearest(frame: &mut InputFrame, p: PlayerStatus, hostiles: &Vec<GridVec>, effects: &mut Vec<InputEffect>)
    requires
        roomy(p.pos),
        cursor_ok(old(frame).cursor),
        forall|i: int| 0 <= i < hostiles@.len() ==> roomy(#[trigger] hostiles@[i]),
    ensures
        (*final(frame), final(effects)@) == (match first_nearest(p.pos, hostiles@) {
            Some(t) => {
                let s = king_step_spec(GridVec { x: (t.x - old(frame).cursor.x) as i32, y: (t.y - old(frame).cursor.y) as i32 });
                (advanced(InputFrame { cursor: GridVec { x: (old(frame).cursor.x + s.0) as i32, y: (old(frame).cursor.y + s.1) as i32 }, viewshed_dirty: true, ..*old(frame) }), old(effects)@)
            },
            None => (*old(frame), old(effects)@.push(InputEffect::Log(LogLine::NoEnemiesVisible))),
        }),
{
    let mut best: Option<GridVec> = None;
    let mut best_dist: i32 = i32::MAX;
    let mut i: usize = 0;
    while i < hostiles.len()
        invariant
            i <= hostiles@.len(),
            roomy(p.pos),
            forall|k: int| 0 <= k < hostiles@.len() ==> roomy(#[trigger] hostiles@[k]),
            best == first_nearest(p.pos, hostiles@.subrange(0, i as int)),
            best matches Some(b) ==> best_dist == chebyshev_spec(p.pos, b),
            best is None ==> best_dist == i32::MAX,
        decreases hostiles@.len() - i,
    {
        proof {
            assert(hostiles@.subrange(0, i + 1).drop_last() == hostiles@.subrange(0, i as int));
            assert(hostiles@.subrange(0, i + 1).last() == hostiles@[i as int]);
            assert(roomy(hostiles@[i as int]));
        }
        let h = hostiles[i];
        let d = p.pos.chebyshev_distance(h);
        if d < best_dist {
            best_dist = d;
            best = Some(h);
        }
        i += 1;
    }
    proof {
        assert(hostiles@.subrange(0, hostiles@.len() as int) == hostiles@);
    }
    match best {
        Some(target) => {
            let step = target.minus(frame.cursor).king_step();
            frame.cursor = frame.cursor.plus(step);
            frame.viewshed_dirty = true;
            frame.advance_turn = true;
        },
        None => {
            effects.push(InputEffect::Log(LogLine::NoEnemiesVisible));
        },
    }
}

fn throw_sand(frame: &mut InputFrame, p: PlayerStatus, effects: &mut Vec<InputEffect>)
    requires
        roomy(p.pos),
        cursor_ok(old(frame).cursor),
    ensures
        (*final(frame), final(effects)@) == (if !has_stamina(p, SAND_STAMINA_COST as int) {
            (*old(frame), old(effects)@.push(InputEffect::Log(LogLine::Tired)))
        } else if old(frame).cursor == p.pos {
            (*old(frame), old(effects)@.push(InputEffect::Log(LogLine::CursorOnYou)))
        } else {
            let s = king_step_spec(GridVec { x: (old(frame).cursor.x - p.pos.x) as i32, y: (old(frame).cursor.y - p.pos.y) as i32 });
            (advanced(InputFrame { ability_stamina_pending: SAND_STAMINA_COST, extra_world_ticks: 0, ..*old(frame) }), old(effects)@ + seq![
                InputEffect::SandCloud { target: GridVec { x: (p.pos.x + 2 * s.0) as i32, y: (p.pos.y + 2 * s.1) as i32 } },
                InputEffect::Log(LogLine::SandThrown),
            ])
        }),
{
    let ok = match p.stamina {
        Some(st) => st >= SAND_STAMINA_COST,
        None => false,
    };
    if !ok {
        effects.push(InputEffect::Log(LogLine::Tired));
        return;
    }
    let delta = frame.cursor.minus(p.pos);
    if delta.is_zero() {
        effects.push(InputEffect::Log(LogLine::CursorOnYou));
        return;
    }
    let step = delta.king_step();
    let center = GridVec::new(p.pos.x + 2 * step.x, p.pos.y + 2 * step.y);
    effects.push(InputEffect::SandCloud { target: center });
    frame.ability_stamina_pending = SAND_STAMINA_COST;
    effects.push(InputEffect::Log(LogLine::SandThrown));
    frame.extra_world_ticks = 0;
    frame.advance_turn = true;
}

#[verifier::spinoff_prover]
#[verifier::rlimit(60)]
fn game_command(
    frame: &mut InputFrame,
    view: &InputView,
    p: PlayerStatus,
    inv: Option<&Vec<Option<ItemKind>>>,
    hostiles: &Vec<GridVec>,
    cmd: GameInput,
    effects: &mut Vec<InputEffect>,
)
    requires
        roomy(p.pos),
        cursor_ok(old(frame).cursor),
        forall|i: int| 0 <= i < hostiles@.len() ==> roomy(#[trigger] hostiles@[i]),
        inv matches Some(v) ==> (v@.len() > 0 ==> view.throw_pick < v@.len()),
    ensures
        *final(frame) == game_step(*old(frame), *view, p, inv_view(inv), hostiles@, cmd).0,
        final(effects)@ == old(effects)@ + game_step(*old(frame), *view, p, inv_view(inv), hostiles@, cmd).1,
        cursor_within(final(frame).cursor, old(frame).cursor, p.pos),
{
    if cmd == GameInput::ToggleMenu {
        frame.mode = InputMode::EscMenu;
        if view.game_state == GameState::Playing {
            frame.next_game_state = Some(GameState::Paused);
        }
        return;
    }
    if !view.awaiting_input {
        return;
    }
    match cmd {
        GameInput::CursorUp => {
            frame.cursor.y = frame.cursor.y + 1;
            frame.viewshed_dirty = true;
            frame.advance_turn = true;
        },
        GameInput::CursorDown => {
            frame.cursor.y = frame.cursor.y - 1;
            frame.viewshed_dirty = true;
            frame.advance_turn = true;
        },
        GameInput::CursorLeft => {
            frame.cursor.x = frame.cursor.x - 1;
            frame.viewshed_dirty = true;
            frame.advance_turn = true;
        },
        GameInput::CursorRight => {
            frame.cursor.x = frame.cursor.x + 1;
            frame.viewshed_dirty = true;
            frame.advance_turn = true;
        },
        GameInput::CenterCursor => {
            frame.cursor = p.pos;
            frame.viewshed_dirty = true;
            frame.advance_turn = true;
        },
        GameInput::AutoAim => {
            aim_at_nearest(frame, p, hostiles, effects);
        },
        GameInput::MoveUp | GameInput::MoveDown | GameInput::MoveLeft | GameInput::MoveRight => {
            let (dx, dy): (i32, i32) = match cmd {
                GameInput::MoveUp => (0, 1),
                GameInput::MoveDown => (0, -1),
                GameInput::MoveLeft => (-1, 0),
                _ => (1, 0),
            };
            frame.extra_world_ticks = 2;
            frame.ability_stamina_pending = MOVE_STAMINA_COST;
            effects.push(InputEffect::Move { dx, dy });
            frame.advance_turn = true;
        },
        GameInput::Wait => {
            effects.push(InputEffect::Log(LogLine::YouWait));
            frame.advance_turn = true;
        },
        GameInput::ReloadOrRestart => {
            frame.extra_world_ticks = 9;
            frame.reload_pending = true;
            frame.advance_turn = true;
        },
        GameInput::Roundhouse => {
            let ok = match p.stamina {
                Some(st) => st >= ROUNDHOUSE_STAMINA_COST,
                None => false,
            };
            if !ok {
                effects.push(InputEffect::Log(LogLine::RoundhouseTired));
            } else {
                frame.extra_world_ticks = 1;
                frame.ability_stamina_pending = ROUNDHOUSE_STAMINA_COST;
                effects.push(InputEffect::MeleeWide);
                frame.advance_turn = true;
            }
        },
        GameInput::ThrowSand => {
            throw_sand(frame, p, effects);
        },
        GameInput::ThrowItem => {
            let ok = match p.stamina {
                Some(st) => st >= THROW_ITEM_STAMINA_COST,
                None => false,
            };
            if !ok {
                effects.push(InputEffect::Log(LogLine::ThrowTired));
            } else {
                frame.ability_stamina_pending = THROW_ITEM_STAMINA_COST;
                throw_random(frame, p, inv, view.throw_pick, effects);
            }
        },
        GameInput::ToggleGodMode => {
            frame.god_mode = !frame.god_mode;
            if frame.god_mode {
                effects.push(InputEffect::Log(LogLine::GodModeOn));
            } else {
                effects.push(InputEffect::Log(LogLine::GodModeOff));
            }
        },
        GameInput::UseSlot(idx) => {
            use_slot(frame, p, inv, idx, effects);
        },
        GameInput::ToggleMenu => {},
    }
}

/// Applies a batch of commands (in order) to the input state, and lists what they ask of
/// the rest of the game: intents for the player and lines for the combat log.
pub fn process_inputs(
    frame: &mut InputFrame,
    view: &InputView,
    inv: Option<&Vec<Option<ItemKind>>>,
    hostiles: &Vec<GridVec>,
    commands: &Vec<GameInput>,
) -> (effects: Vec<InputEffect>)
    requires
        in_play(*view) ==> roomy(old(frame).cursor),
        in_play(*view) ==> (view.player matches Some(p) ==> roomy(p.pos)),
        in_play(*view) ==> forall|i: int| 0 <= i < hostiles@.len() ==> roomy(#[trigger] hostiles@[i]),
        commands@.len() <= 0x1000_0000,
        inv matches Some(v) ==> (v@.len() > 0 ==> view.throw_pick < v@.len()),
    ensures
        (*final(frame), effects@) == process_spec(*old(frame), *view, inv_view(inv), hostiles@, commands@),
{
    let mut effects: Vec<InputEffect> = Vec::new();
    if view.game_state == GameState::Dead || view.game_state == GameState::Victory || (match view.player {
        Some(p) => p.dead,
        None => false,
    }) {
        let mut i: usize = 0;
        let ghost r0 = frame.restart_requested;
        while i < commands.len()
            invariant
                i <= commands@.len(),
                *frame == (InputFrame { restart_requested: frame.restart_requested, ..*old(frame) }),
                frame.restart_requested == (r0 || exists|k: int| 0 <= k < i && commands@[k] == GameInput::ReloadOrRestart),
                r0 == old(frame).restart_requested,
                effects@ == Seq::<InputEffect>::empty(),
            decreases commands@.len() - i,
        {
            if commands[i] == GameInput::ReloadOrRestart {
                frame.restart_requested = true;
            }
            i += 1;
        }
        if view.game_state != GameState::Dead && view.game_state != GameState::Victory {
            if view.spectating && view.awaiting_input {
                frame.advance_turn = true;
            }
        }
        return effects;
    }
    let p = match view.player {
        Some(p) => p,
        None => return effects,
    };
    if frame.mode == InputMode::EscMenu {
        let mut i: usize = 0;
        while i < commands.len()
            invariant
                i <= commands@.len(),
                *frame == run_menu(*old(frame), *view, commands@.subrange(0, i as int)),
            decreases commands@.len() - i,
        {
            proof {
                assert(commands@.subrange(0, i + 1).drop_last() == commands@.subrange(0, i as int));
                assert(commands@.subrange(0, i + 1).last() == commands@[i as int]);
            }
            match commands[i] {
                GameInput::ToggleMenu => {
                    frame.mode = InputMode::Game;
                    if view.game_state == GameState::Paused {
                        frame.next_game_state = Some(GameState::Playing);
                    }
                },
                GameInput::ReloadOrRestart => {
                    frame.mode = InputMode::Game;
                    frame.restart_requested = true;
                },
                _ => {},
            }
            i += 1;
        }
        proof {
            assert(commands@.subrange(0, commands@.len() as int) == commands@);
        }
        return effects;
    }
    if frame.welcome_visible && commands.len() > 0 {
        frame.welcome_visible = false;
        return effects;
    }
    let mut i: usize = 0;
    while i < commands.len()
        invariant
            i <= commands@.len() <= 0x1000_0000,
            roomy(p.pos),
            view.player == Some(p),
            forall|k: int| 0 <= k < hostiles@.len() ==> roomy(#[trigger] hostiles@[k]),
            inv matches Some(v) ==> (v@.len() > 0 ==> view.throw_pick < v@.len()),
            (*frame, effects@) == run_game(*old(frame), *view, p, inv_view(inv), hostiles@, commands@.subrange(0, i as int)),
            -0x1000_0000 - i <= frame.cursor.x <= 0x1000_0000 + i,
            -0x1000_0000 - i <= frame.cursor.y <= 0x1000_0000 + i,
        decreases commands@.len() - i,
    {
        proof {
            assert(commands@.subrange(0, i + 1).drop_last() == commands@.subrange(0, i as int));
            assert(commands@.subrange(0, i + 1).last() == commands@[i as int]);
        }
        game_command(frame, view, p, inv, hostiles, commands[i], &mut effects);
        i += 1;
    }
    proof {
        assert(commands@.subrange(0, commands@.len() as int) == commands@);
    }
    effects
}

} // verus!
