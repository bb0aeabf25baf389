//! A small turn-based roguelike core: a wall-placement map generator over a
//! fixed tile grid, and the per-tick turn controller that resolves player
//! movement, melee, monster AI, contact damage and the death sweep.
use vstd::prelude::*;

pub mod components;
pub mod map;
pub mod player;
pub mod rect;
mod rng;
pub mod systems;
pub mod turn;

pub use components::{Monster, Player, Position};
pub use map::{GameMap, TileType};
pub use player::{player_input, try_attack, try_move_player, Key};
pub use rect::Rect;
pub use systems::{adjacent_positions, clean_up_dead, contact_damage, MonsterAi, PlayerCombat};
pub use turn::{run_systems, tick, RunState};

verus! {

} // verus!
