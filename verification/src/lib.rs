//! The turn-based core of a grid roguelike: dungeon generation, the spatial
//! index over the dungeon, and the systems that run each turn.

pub mod component;
pub mod damage_system;
pub mod dice;
pub mod map;
pub mod map_indexing_system;
pub mod melee_combat_system;
pub mod monster_ai_system;
pub mod player;
pub mod rect;
pub mod state;
pub mod store;
pub mod visibility_system;
