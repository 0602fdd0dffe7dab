# roguelike

A turn-based roguelike set in the Wild West, with its game rules written in Verus and
proved against their contracts.

## Layout

- `src/` — the verified library.
  - `fov.rs`, `fov_laws.rs`: symmetric shadowcasting field of view, the Bresenham line of
    sight, and the laws proved of them (the origin is always seen, nothing beyond the radius
    is, an open map shows the whole disk, a larger radius only adds tiles beyond the
    smaller one).
  - `fov_lines.rs`: sight along a row, a column or a diagonal: a tile is in view exactly
    when it is within the radius and nothing opaque stands between, so along such lines
    sight is symmetric.
  - `ascii_view.rs`: a field of view drawn in characters, on a small walled sample map.
  - `gamemap.rs`, `voxel.rs`, `typeenums.rs`, `graphic_trait.rs`, `color.rs`: the map, its
    tiles and how they are drawn, with fog of war for tiles remembered but out of sight.
  - `systems/`: the rules of play.
    - `input.rs`: keys to commands, and the input state machine (menus, aiming, throwing).
    - `inventory.rs`, `combat.rs`, `movement.rs`, `turn.rs`, `wanted.rs`: items, blows,
      deaths and victory, moves, regeneration, energy scheduling (with its fairness law) and
      the wanted level.
    - `visibility.rs`: viewsheds by ray casting.
    - `pathfinding.rs`, `steering.rs`: A* and distance maps, each with an exact
      specification of the search it runs, and the steps NPCs take (chase, flee, retreat,
      patrol).
    - `astar_laws.rs`: the step A* takes begins a cheapest walk to the goal, when no tile
      costs less than a plain step.
    - `ai.rs`, `tactics.rs`, `chase.rs`, `npc_turn.rs`, `npc_plan.rs`: how NPCs notice
      threats, pick targets, choose weapons, and play a whole turn.
    - `laws.rs`: properties that span several functions.
- `tests/` — tests of the library on concrete values.
- `app/` — the terminal game: the Bevy schedule and the ratatui screen, which hand the
  library plain values and apply what it decides.
