//! Kinds of powers, projectiles, weapons and shop wares.

use vstd::prelude::*;

verus! {

/// The ranged ability the player holds.
#[derive(Clone, Copy, Debug, PartialEq, Eq, Structural)]
pub enum PowerType {
    NoPower,
    Fireball,
    Slimeball,
    Shield,
    Dash,
}

/// What the player fires.
#[derive(Clone, Copy, Debug, PartialEq, Eq, Structural)]
pub enum ProjectileType {
    Bullet,
    Fireball,
    Shield,
}

/// A melee weapon lying on the floor or sold in a shop.
#[derive(Clone, Copy, Debug, PartialEq, Eq, Structural)]
pub enum WeaponType {
    Sword,
    Spear,
}

/// What a shop slot sells.
#[derive(Clone, Copy, Debug, PartialEq, Eq, Structural)]
pub enum ShopItems {
    Nothing,
    Fireball,
    Slimeball,
    Shield,
    Dash,
    Sword,
    Spear,
    HealthUpgrade,
    Health,
}

} // verus!
