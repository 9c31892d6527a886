//! Simulation core of a small arcade shooter: a fixed-step scheduler, a
//! hostile population policy, a gated firing pass, an entity registry and a
//! kinematic integrator that clamps the controlled entity to the world.
//!
//! Positions are whole world units (thousandths of one for the controlled
//! entity), headings are whole degrees and time is counted in microseconds,
//! so every pass is exact integer arithmetic.

mod entity;
mod fire;
mod kinematics;
mod random;
mod sched;
mod sim;
mod spawn;
mod world;

pub use entity::{
    new_hostile, new_projectile, Entity, Role, Side, SpriteSize, Transform, Velocity,
    WorldBounds, ENEMY_HEIGHT, ENEMY_LASER_HEIGHT, ENEMY_LASER_WIDTH, ENEMY_MAX, ENEMY_WIDTH,
    MUZZLE_OFFSET, SPAWN_MARGIN, SPRITE_LAYER, SPRITE_SCALE_PCT,
};
pub use fire::{fire_from, FireGate, FIRE_CHANCE_DENOMINATOR, FIRE_CHANCE_NUMERATOR};
pub use sched::FixedStep;
pub use spawn::{spawn_hostile_at, spawn_span, try_spawn_hostile};
pub use world::{
    count_hostiles, fired, has_role, hostile_transforms, is_hostile, lemma_fire_fan_out, lemma_transforms_len,
    World,
};
pub use kinematics::{
    clamp_to, integrate, lemma_idle_step_changes_nothing, lemma_opposite_turns_cancel,
    lemma_step_stops_at_edge, placement, sine, travel_of, turn, Craft, Input, COORD_LIMIT,
    MICROS_PER_SECOND, MOVEMENT_SPEED, ROTATION_SPEED, SUBUNITS,
};
pub use sim::{player_start, Simulation, MOVE_PERIOD, PLAYER_BOTTOM_GAP, PLAYER_HEIGHT, SPAWN_PERIOD};
