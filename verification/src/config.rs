//! Sizes, screen geometry and timings shared by the game's logic.

use vstd::prelude::*;

verus! {

/// Side of a map tile, in pixels.
pub const TILE_SIZE: u32 = 64u32;

/// Side of a sprite-sheet cell, in pixels.
pub const TILE_SIZE_64: u32 = 64u32;

/// Half a tile.
pub const TILE_SIZE_HALF: u32 = 32u32;

/// Side of an actor as drawn on the camera.
pub const TILE_SIZE_CAM: u32 = 64u32;

/// Side of the player's hit box.
pub const TILE_SIZE_PLAYER: u32 = 48u32;

/// Side of a projectile.
pub const TILE_SIZE_PROJECTILE: u32 = 32u32;

/// Side of a dropped power or weapon.
pub const TILE_SIZE_POWER: u32 = 48u32;

/// Width of the camera, in pixels.
pub const CAM_W: u32 = 1280u32;

/// Height of the camera, in pixels.
pub const CAM_H: u32 = 720u32;

/// Horizontal screen position at which the player is drawn.
pub const CENTER_W: i32 = 608i32;

/// Vertical screen position at which the player is drawn.
pub const CENTER_H: i32 = 328i32;

/// Number of tile rows the camera spans, rounded up.
pub const SCAN_ROWS: u32 = CAM_H / TILE_SIZE + 1u32;

/// Number of tile columns the camera spans, rounded up.
pub const SCAN_COLS: u32 = CAM_W / TILE_SIZE + 1u32;

/// Number of tile columns of a floor map.
pub const MAP_SIZE_W: usize = 60usize;

/// Number of tile rows of a floor map.
pub const MAP_SIZE_H: usize = 60usize;

/// Reach of the player's basic attack, in pixels.
pub const ATTACK_LENGTH: u32 = 96u32;

/// Length of the sword as drawn.
pub const ATTACK_LENGTH_SWORD: u32 = 80u32;

/// Length of the spear as drawn.
pub const ATTACK_LENGTH_SPEAR: u32 = 112u32;

/// Milliseconds between two basic attacks; also how long an attack lasts.
pub const ATTK_COOLDOWN: u128 = 300u128;

/// Milliseconds between two shots of the player.
pub const FIRE_COOLDOWN_P: u128 = 300u128;

/// Milliseconds that a shield lasts.
pub const SHIELD_TIME: u128 = 5000u128;

/// Milliseconds for one point of mana to come back.
pub const MANA_RESTORE_RATE: u128 = 1000u128;

/// Milliseconds of invincibility after taking damage.
pub const DMG_COOLDOWN: u128 = 800u128;

/// Milliseconds that a dash lasts.
pub const DASH_TIME: u128 = 1000u128;

/// Milliseconds before something else can be picked up.
pub const PICKUP_DELAY: u128 = 1000u128;

/// Milliseconds between two toggles of god mode.
pub const GOD_MODE_DELAY: u128 = 250u128;

/// Debugging aids: a starting power.
pub const DEBUG: bool = false;

/// Development aids: a test crate near the start.
pub const DEVELOP: bool = false;

/// Debugging aid: walk through walls.
pub const DEBUG_NO_WALLS: bool = false;

} // verus!
