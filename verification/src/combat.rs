//! How much harm attacks do to enemies.

use vstd::prelude::*;
use crate::items::WeaponType;
use crate::level::EnemyType;

verus! {

/// Damage dealt by one melee hit: the spear hits twice as hard as the sword.
pub open spec fn spec_melee_damage(w: WeaponType) -> u32 {
    match w {
        WeaponType::Sword => 2,
        WeaponType::Spear => 4,
    }
}

/// Damage dealt by one melee hit with weapon `w`.
pub fn melee_damage(w: WeaponType) -> (d: u32)
    ensures
        d == spec_melee_damage(w),
{
    match w {
        WeaponType::Sword => 2,
        WeaponType::Spear => 4,
    }
}

/// What a projectile does to an enemy it hits.
#[derive(Clone, Copy, Debug, PartialEq, Eq, Structural)]
pub struct ProjectileHit {
    /// The enemy is knocked back along the projectile's velocity.
    pub knockback: bool,
    /// The damage the enemy takes.
    pub damage: u32,
}

/// A projectile whose box touches an enemy's box: skeletons are not knocked
/// back and take half the damage (rounded down); other enemies are knocked
/// back and take it all.
pub fn projectile_hit(e: EnemyType, damage: u32) -> (h: ProjectileHit)
    ensures
        e == EnemyType::Skeleton ==> h == (ProjectileHit { knockback: false, damage: damage / 2 }),
        e != EnemyType::Skeleton ==> h == (ProjectileHit { knockback: true, damage }),
{
    match e {
        EnemyType::Melee => ProjectileHit { knockback: true, damage },
        EnemyType::Ranged => ProjectileHit { knockback: true, damage },
        EnemyType::Eyeball => ProjectileHit { knockback: true, damage },
        EnemyType::Skeleton => ProjectileHit { knockback: false, damage: damage / 2 },
        EnemyType::Boss => ProjectileHit { knockback: true, damage },
    }
}

/// A projectile whose round body strikes an enemy: melee, ranged and eyeball
/// enemies are knocked back and take the damage; skeletons and the boss shrug
/// it off. The projectile is spent either way.
pub fn projectile_strike(e: EnemyType, damage: u32) -> (h: Option<ProjectileHit>)
    ensures
        (e == EnemyType::Skeleton || e == EnemyType::Boss) ==> h is None,
        !(e == EnemyType::Skeleton || e == EnemyType::Boss) ==> h == Some(
            ProjectileHit { knockback: true, damage },
        ),
{
    match e {
        EnemyType::Melee => Some(ProjectileHit { knockback: true, damage }),
        EnemyType::Ranged => Some(ProjectileHit { knockback: true, damage }),
        EnemyType::Skeleton => None,
        EnemyType::Eyeball => Some(ProjectileHit { knockback: true, damage }),
        EnemyType::Boss => None,
    }
}

/// Damage the player takes from touching an enemy or an enemy's projectile.
pub const CONTACT_DAMAGE: u32 = 5u32;

} // verus!
