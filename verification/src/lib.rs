//! Game logic of a tile-based rogue-like: rectangles and their collisions,
//! the player's attributes and movement decisions, sprite-sheet animation,
//! level spawning and pickups.

pub mod config;
pub mod rect;
pub mod collision;
pub mod animation;
pub mod crateobj;
pub mod level;
pub mod pickup;
pub mod combat;
pub mod render;
pub mod items;
pub mod player;
