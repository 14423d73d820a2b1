//! Entity records and the fixed-point geometry they are measured in.
//!
//! A world coordinate is an `i64` in units of 1/3000 pixel; a velocity
//! component is an `i64` in milli-units (1000 = the dimensionless speed 1.0
//! of the game rules, which covers 500 px per second). With the fixed tick
//! rate of 60 per second, one tick displaces a mover by
//! `velocity * STEP_FACTOR` coordinate units, exactly.

use vstd::prelude::*;

use crate::powerups::PowerUpType;

verus! {

/// Coordinate units per pixel.
pub const UNITS_PER_PIXEL: i64 = 3000;

/// Units a mover travels per tick and per milli-unit of velocity:
/// (500 px/s / 60 ticks/s) * 3000 units/px / 1000 milli = 25.
pub const STEP_FACTOR: i64 = 25;

/// Coordinates saturate at this magnitude; every reachable game position is
/// far below it, and all arithmetic on in-range coordinates fits in `i64`.
pub const POS_LIMIT: i64 = 0x1000_0000_0000_0000;

/// Largest velocity component magnitude (milli-units) any entity carries.
pub const VEL_LIMIT: i64 = 1000;

/// Largest sprite extent (units) any entity carries.
pub const SIZE_LIMIT: i64 = 3_000_000;

/// Largest window dimension (units) accepted: 100 000 px.
pub const DIM_LIMIT: i64 = 300_000_000;

/// An entity position, in coordinate units.
#[derive(Clone, Copy, Debug, PartialEq, Eq, Structural)]
pub struct Position {
    pub x: i64,
    pub y: i64,
}

/// An entity velocity, in milli-units per axis.
#[derive(Clone, Copy, Debug, PartialEq, Eq, Structural)]
pub struct Velocity {
    pub x: i64,
    pub y: i64,
}

/// Full sprite extent (width, height) in coordinate units, already scaled.
#[derive(Clone, Copy, Debug, PartialEq, Eq, Structural)]
pub struct SpriteSize {
    pub w: i64,
    pub h: i64,
}

/// Whether the movement engine may remove the entity once it leaves the
/// window plus the despawn margin.
#[derive(Clone, Copy, Debug, PartialEq, Eq, Structural)]
pub struct Movable {
    pub auto_despawn: bool,
}

/// What an entity is to the game rules.
#[derive(Clone, Copy, Debug, PartialEq, Eq, Structural)]
pub enum Role {
    /// The player ship.
    Player,
    /// A patrolling enemy ship.
    Enemy,
    /// A projectile fired by the player.
    PlayerLaser,
    /// A projectile fired by an enemy.
    EnemyLaser,
    /// A drifting, collectable power-up.
    PowerUp(PowerUpType),
    /// A request to materialize a power-up, consumed by the dispatcher.
    SpawnPowerUp(PowerUpType),
    /// An explosion visual; `ticks` counts toward the next frame advance,
    /// `frame` is the current sheet index.
    Explosion { ticks: u32, frame: u32 },
    /// A scrolling backdrop tile.
    Background,
    /// The persistent marker that drives backdrop row spawning.
    BackgroundTop,
}

/// One live entity of the world.
#[derive(Clone, Copy, Debug, PartialEq, Eq, Structural)]
pub struct Entity {
    pub pos: Position,
    pub vel: Velocity,
    pub size: SpriteSize,
    pub movable: Movable,
    pub role: Role,
}

impl Entity {
    /// Well-formedness of a single entity: geometry within the model's
    /// bounds, ships never subject to boundary auto-despawn, and explosion
    /// bookkeeping within its cycle.
    pub open spec fn ok(self) -> bool {
        &&& -POS_LIMIT <= self.pos.x <= POS_LIMIT
        &&& -POS_LIMIT <= self.pos.y <= POS_LIMIT
        &&& -VEL_LIMIT <= self.vel.x <= VEL_LIMIT
        &&& -VEL_LIMIT <= self.vel.y <= VEL_LIMIT
        &&& 0 <= self.size.w <= SIZE_LIMIT
        &&& 0 <= self.size.h <= SIZE_LIMIT
        &&& (self.role is Enemy || self.role is Player) ==> !self.movable.auto_despawn
        &&& match self.role {
            Role::Explosion { ticks, frame } => ticks < 3 && frame < 16,
            _ => true,
        }
    }
}

/// Number of enemy ships in a sequence of entities.
pub open spec fn count_enemies(s: Seq<Entity>) -> nat
    decreases s.len(),
{
    if s.len() == 0 {
        0
    } else {
        count_enemies(s.drop_last()) + if s.last().role is Enemy {
            1nat
        } else {
            0nat
        }
    }
}

/// Saturate an unbounded coordinate into the model's coordinate range.
pub open spec fn clamp_coord(x: int) -> i64 {
    if x > POS_LIMIT {
        POS_LIMIT
    } else if x < -POS_LIMIT {
        (-POS_LIMIT) as i64
    } else {
        x as i64
    }
}

/// Saturating coordinate addition, used wherever a spawn position is offset
/// from an existing one.
pub open spec fn cadd(a: int, b: int) -> i64 {
    clamp_coord(a + b)
}

/// Executable saturating coordinate addition.
pub fn add_coord(a: i64, b: i64) -> (r: i64)
    requires
        -POS_LIMIT <= a <= POS_LIMIT,
        -4 * POS_LIMIT <= b <= 4 * POS_LIMIT,
    ensures
        r == cadd(a as int, b as int),
{
    let s = a + b;
    if s > POS_LIMIT {
        POS_LIMIT
    } else if s < -POS_LIMIT {
        -POS_LIMIT
    } else {
        s
    }
}

} // verus!
