use vstd::prelude::*;

verus! {

/// Population ceiling for live hostile entities.
pub const ENEMY_MAX: u32 = 2;

/// Distance kept between a spawned hostile and the world edge.
pub const SPAWN_MARGIN: u32 = 100;

/// Depth layer on which hostiles and their projectiles are drawn.
pub const SPRITE_LAYER: i64 = 10;

/// Uniform sprite scale, in percent.
pub const SPRITE_SCALE_PCT: u32 = 50;

/// Vertical distance between a firing hostile and its projectile.
pub const MUZZLE_OFFSET: i64 = 15;

/// Sprite size of a hostile, in world units.
pub const ENEMY_WIDTH: u32 = 144;
pub const ENEMY_HEIGHT: u32 = 75;

/// Sprite size of a hostile's projectile, in world units.
pub const ENEMY_LASER_WIDTH: u32 = 17;
pub const ENEMY_LASER_HEIGHT: u32 = 55;

/// The role that decides which pass may act on an entity.
#[derive(Clone, Copy, Debug, PartialEq, Eq, Structural)]
pub enum Role {
    Hostile,
    Projectile,
    PlayerControlled,
}

/// The side that emitted a projectile.
#[derive(Clone, Copy, Debug, PartialEq, Eq, Structural)]
pub enum Side {
    Hostile,
    Player,
}

/// Placement of an entity: position, heading in whole degrees
/// (counter-clockwise, `0 <= heading < 360`), whether the sprite is turned
/// over about its horizontal axis, and its uniform scale in percent.
#[derive(Clone, Copy, Debug, PartialEq, Eq, Structural)]
pub struct Transform {
    pub x: i64,
    pub y: i64,
    pub z: i64,
    pub heading: u32,
    pub flipped: bool,
    pub scale_pct: u32,
}

/// Direction of travel per unit of time, consumed by the integrator.
#[derive(Clone, Copy, Debug, PartialEq, Eq, Structural)]
pub struct Velocity {
    pub x: i64,
    pub y: i64,
}

/// Sprite footprint in world units.
#[derive(Clone, Copy, Debug, PartialEq, Eq, Structural)]
pub struct SpriteSize {
    pub width: u32,
    pub height: u32,
}

/// An entity with its components.
#[derive(Clone, Copy, Debug)]
pub struct Entity {
    pub role: Role,
    pub transform: Transform,
    pub velocity: Option<Velocity>,
    pub origin: Option<Side>,
    pub auto_expire: bool,
    pub size: SpriteSize,
}

/// Width and height of the rectangular world, centred on the origin.
#[derive(Clone, Copy, Debug, PartialEq, Eq, Structural)]
pub struct WorldBounds {
    pub width: u32,
    pub height: u32,
}

/// A hostile placed at `(x, y)`.
pub open spec fn hostile_at(x: int, y: int) -> Entity {
    Entity {
        role: Role::Hostile,
        transform: Transform {
            x: x as i64,
            y: y as i64,
            z: SPRITE_LAYER,
            heading: 0,
            flipped: false,
            scale_pct: SPRITE_SCALE_PCT,
        },
        velocity: None,
        origin: None,
        auto_expire: false,
        size: SpriteSize { width: ENEMY_WIDTH, height: ENEMY_HEIGHT },
    }
}

/// The projectile that a hostile placed at `t` emits.
pub open spec fn projectile_from(t: Transform) -> Entity {
    Entity {
        role: Role::Projectile,
        transform: Transform {
            x: t.x,
            y: (t.y - MUZZLE_OFFSET) as i64,
            z: SPRITE_LAYER,
            heading: 0,
            flipped: true,
            scale_pct: SPRITE_SCALE_PCT,
        },
        velocity: Some(Velocity { x: 0, y: -1i64 }),
        origin: Some(Side::Hostile),
        auto_expire: true,
        size: SpriteSize { width: ENEMY_LASER_WIDTH, height: ENEMY_LASER_HEIGHT },
    }
}

/// Builds the hostile entity placed at `(x, y)`.
pub fn new_hostile(x: i64, y: i64) -> (e: Entity)
    ensures
        e == hostile_at(x as int, y as int),
{
    Entity {
        role: Role::Hostile,
        transform: Transform {
            x,
            y,
            z: SPRITE_LAYER,
            heading: 0,
            flipped: false,
            scale_pct: SPRITE_SCALE_PCT,
        },
        velocity: None,
        origin: None,
        auto_expire: false,
        size: SpriteSize { width: ENEMY_WIDTH, height: ENEMY_HEIGHT },
    }
}

/// Builds the projectile that a hostile placed at `t` emits: fifteen units
/// below it, turned over, moving straight down, expiring off screen.
pub fn new_projectile(t: Transform) -> (e: Entity)
    requires
        t.y >= i64::MIN + MUZZLE_OFFSET,
    ensures
        e == projectile_from(t),
{
    Entity {
        role: Role::Projectile,
        transform: Transform {
            x: t.x,
            y: t.y - MUZZLE_OFFSET,
            z: SPRITE_LAYER,
            heading: 0,
            flipped: true,
            scale_pct: SPRITE_SCALE_PCT,
        },
        velocity: Some(Velocity { x: 0, y: -1 }),
        origin: Some(Side::Hostile),
        auto_expire: true,
        size: SpriteSize { width: ENEMY_LASER_WIDTH, height: ENEMY_LASER_HEIGHT },
    }
}

} // verus!
