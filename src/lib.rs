//! The rules of a turn-based dungeon crawler: dungeon generation with rooms
//! and corridors, a tile grid with teleport and burning tiles, entities that
//! fight and die, an inventory of items, and the tick that runs the player's
//! command, the monsters' turns and the decay of tiles in that order.
//!
//! Drawing, keyboard input and the field-of-view computation stay outside:
//! the field of view comes in as a `fov::Fov` grid.

pub mod command;
pub mod display;
pub mod dungeon;
pub mod fov;
pub mod game;
pub mod game_map;
pub mod items;
pub mod laws;
pub mod movement;
pub mod object;
mod rng;
pub mod room;
pub mod teleport;
pub mod text;
pub mod tile;
pub mod tint;
pub mod turn;
