pub mod ai;
pub mod combat;
pub mod input;
pub mod inventory;
pub mod movement;
pub mod pathfinding;
pub mod turn;
pub mod visibility;
pub mod wanted;
pub mod tactics;
pub mod steering;
pub mod chase;
pub mod npc_turn;
pub mod render;
pub mod laws;
pub mod npc_plan;
pub mod astar_laws;
pub mod sight_symmetry;
