use vstd::prelude::*;
use vstd::arithmetic::div_mod::{
    lemma_add_mod_noop_right, lemma_mod_add_multiples_vanish, lemma_small_mod,
    lemma_sub_mod_noop_right,
};
use crate::entity::{Transform, WorldBounds, SPRITE_LAYER, SPRITE_SCALE_PCT};

verus! {

/// Turning speed of the controlled entity, in degrees per second.
pub const ROTATION_SPEED: u64 = 180;

/// Travel speed of the controlled entity, in world units per second.
pub const MOVEMENT_SPEED: u64 = 500;

/// Microseconds in a second: the unit of every time span.
pub const MICROS_PER_SECOND: u64 = 1_000_000;

/// Largest magnitude of a coordinate that the integrator accepts.
pub const COORD_LIMIT: i64 = 0x4000_0000_0000_0000;

/// The directional keys held during a step.
#[derive(Clone, Copy, Debug, PartialEq, Eq, Structural)]
pub struct Input {
    pub left: bool,
    pub right: bool,
    pub up: bool,
}

/// Net turning direction: left turns counter-clockwise, right clockwise,
/// and the two cancel.
pub open spec fn rotation_factor(input: Input) -> int {
    (if input.left { 1int } else { 0int }) - (if input.right { 1int } else { 0int })
}

/// Whether the entity moves forward; there is no reverse.
pub open spec fn movement_factor(input: Input) -> int {
    if input.up { 1 } else { 0 }
}

/// Whole degrees turned in `dt` microseconds at full turning speed.
pub open spec fn turn_step(dt: u32) -> int {
    ROTATION_SPEED * dt / MICROS_PER_SECOND as int
}

/// Heading after a step, kept in `0..360`.
pub open spec fn turned(heading: int, input: Input, dt: u32) -> int {
    (heading + rotation_factor(input) * turn_step(dt)) % 360
}

/// Sine of `d` degrees for `0 <= d <= 180`, in thousandths, by Bhaskara's
/// rational approximation.
pub open spec fn half_sine(d: int) -> int {
    4000 * d * (180 - d) / (40500 - d * (180 - d))
}

/// Sine of `h` degrees for `0 <= h < 360`, in thousandths.
pub open spec fn sine_permille(h: int) -> int {
    if h < 180 { half_sine(h) } else { -half_sine(h - 180) }
}

/// Cosine of `h` degrees for `0 <= h < 360`, in thousandths.
pub open spec fn cosine_permille(h: int) -> int {
    sine_permille((h + 90) % 360)
}

/// Quotient rounded toward zero.
pub open spec fn div_toward_zero(n: int, d: int) -> int {
    if n >= 0 { n / d } else { -((-n) / d) }
}

/// Thousandths of a world unit: the unit of the controlled entity's
/// position, fine enough that slow or slanted motion is not lost.
pub const SUBUNITS: i64 = 1000;

/// Position and heading of the controlled entity. `x` and `y` are in
/// thousandths of a world unit; `heading` is in whole degrees,
/// counter-clockwise.
#[derive(Clone, Copy, Debug, PartialEq, Eq, Structural)]
pub struct Craft {
    pub x: i64,
    pub y: i64,
    pub heading: u32,
}

/// Distance, in thousandths of a world unit, covered along an axis in `dt`
/// microseconds at full speed, for a direction component given in
/// thousandths.
pub open spec fn travel(component: int, dt: u32) -> int {
    div_toward_zero(component * MOVEMENT_SPEED * dt, MICROS_PER_SECOND as int)
}

/// `v` held to `lo..=hi`.
pub open spec fn clamp_spec(v: int, lo: int, hi: int) -> int {
    if v < lo { lo } else if v > hi { hi } else { v }
}

/// Half of an extent in thousandths of a world unit: the largest
/// coordinate of the controlled entity inside the world.
pub open spec fn half_extent(extent: u32) -> int {
    (extent / 2) as int * SUBUNITS
}

/// The controlled entity after one integration step: turn, move along the
/// new forward axis (the local `+y` axis turned by the heading), clamp to
/// the world.
pub open spec fn integrated(c: Craft, input: Input, dt: u32, bounds: WorldBounds) -> Craft {
    let h = turned(c.heading as int, input, dt);
    let m = movement_factor(input);
    let x = c.x + m * travel(-sine_permille(h), dt);
    let y = c.y + m * travel(cosine_permille(h), dt);
    Craft {
        x: clamp_spec(x, -half_extent(bounds.width), half_extent(bounds.width)) as i64,
        y: clamp_spec(y, -half_extent(bounds.height), half_extent(bounds.height)) as i64,
        heading: h as u32,
    }
}

/// Whether the controlled entity lies inside the world.
pub open spec fn inside(c: Craft, bounds: WorldBounds) -> bool {
    -half_extent(bounds.width) <= c.x <= half_extent(bounds.width)
        && -half_extent(bounds.height) <= c.y <= half_extent(bounds.height)
}

/// A position in thousandths rounded to the nearest world unit, halves
/// away from zero.
pub open spec fn round_subunits(v: int) -> int {
    if v >= 0 { (v + 500) / 1000 } else { -((-v + 500) / 1000) }
}

/// Where the controlled entity is drawn.
pub open spec fn placement_of(c: Craft) -> Transform {
    Transform {
        x: round_subunits(c.x as int) as i64,
        y: round_subunits(c.y as int) as i64,
        z: SPRITE_LAYER,
        heading: c.heading,
        flipped: false,
        scale_pct: SPRITE_SCALE_PCT,
    }
}

/// Heading after turning for `dt` microseconds.
pub fn turn(heading: u32, input: Input, dt: u32) -> (r: u32)
    requires
        heading < 360,
    ensures
        r == turned(heading as int, input, dt),
        r < 360,
{
    let step = ROTATION_SPEED * (dt as u64) / MICROS_PER_SECOND;
    let part = step % 360;
    let h = heading as u64;
    proof {
        assert(step == turn_step(dt));
    }
    if input.left && !input.right {
        proof {
            lemma_add_mod_noop_right(h as int, step as int, 360);
            assert(rotation_factor(input) * turn_step(dt) == step);
        }
        ((h + part) % 360) as u32
    } else if input.right && !input.left {
        proof {
            lemma_mod_add_multiples_vanish(h - part, 360);
            lemma_sub_mod_noop_right(h as int, step as int, 360);
            assert(h + 360 - part == 360 + (h - part));
            assert(rotation_factor(input) * turn_step(dt) == -step);
        }
        ((h + 360 - part) % 360) as u32
    } else {
        proof {
            lemma_small_mod(h as nat, 360);
            assert(rotation_factor(input) == 0);
        }
        heading
    }
}

/// Sine of `h` degrees, in thousandths.
pub fn sine(h: u32) -> (r: i64)
    requires
        h < 360,
    ensures
        r == sine_permille(h as int),
        -1000 <= r <= 1000,
{
    let d: i64 = if h < 180 { h as i64 } else { h as i64 - 180 };
    proof {
        assert(0 <= d * (180 - d) <= 8100) by (nonlinear_arith)
            requires 0 <= d <= 180;
    }
    let p = d * (180 - d);
    proof {
        assert(4000 * d * (180 - d) == 4000 * p) by (nonlinear_arith)
            requires p == d * (180 - d);
    }
    let num = 4000 * p;
    let den = 40500 - p;
    let q = num / den;
    proof {
        assert(q <= 1000) by (nonlinear_arith)
            requires q == num / den, num == 4000 * p, den == 40500 - p, 0 <= p <= 8100;
        assert(q >= 0) by (nonlinear_arith)
            requires q == num / den, num >= 0, den > 0;
    }
    if h < 180 { q } else { -q }
}

/// Distance, in thousandths of a world unit, covered along an axis in `dt`
/// microseconds, for a direction component in thousandths.
pub fn travel_of(component: i64, dt: u32) -> (r: i64)
    requires
        -1000 <= component <= 1000,
    ensures
        r == travel(component as int, dt),
        -(MOVEMENT_SPEED * u32::MAX) <= r <= MOVEMENT_SPEED * u32::MAX,
{
    let mag: u64 = if component < 0 { (-component) as u64 } else { component as u64 };
    proof {
        assert(mag * MOVEMENT_SPEED * (dt as u64) <= 1000 * MOVEMENT_SPEED * u32::MAX)
            by (nonlinear_arith)
            requires mag <= 1000, dt <= u32::MAX;
    }
    let q = mag * MOVEMENT_SPEED * (dt as u64) / MICROS_PER_SECOND;
    proof {
        assert(q <= MOVEMENT_SPEED * u32::MAX) by (nonlinear_arith)
            requires q == mag * MOVEMENT_SPEED * (dt as u64) / (MICROS_PER_SECOND as int),
                mag * MOVEMENT_SPEED * (dt as u64) <= 1000 * MOVEMENT_SPEED * u32::MAX;
        if component < 0 {
            assert((-component) * MOVEMENT_SPEED * dt == -(component * MOVEMENT_SPEED * dt))
                by (nonlinear_arith);
        }
    }
    if component < 0 { -(q as i64) } else { q as i64 }
}

/// `v` held to `-limit..=limit`.
pub fn clamp_to(v: i64, limit: i64) -> (r: i64)
    requires
        limit >= 0,
    ensures
        r == clamp_spec(v as int, -(limit as int), limit as int),
{
    if v < -limit {
        -limit
    } else if v > limit {
        limit
    } else {
        v
    }
}

/// Where the controlled entity is drawn: its position rounded to whole
/// world units, on the sprite layer, at its heading.
pub fn placement(c: &Craft) -> (t: Transform)
    requires
        -COORD_LIMIT <= c.x <= COORD_LIMIT,
        -COORD_LIMIT <= c.y <= COORD_LIMIT,
    ensures
        t == placement_of(*c),
{
    let x = if c.x >= 0 { (c.x + 500) / 1000 } else { -((-c.x + 500) / 1000) };
    let y = if c.y >= 0 { (c.y + 500) / 1000 } else { -((-c.y + 500) / 1000) };
    Transform {
        x,
        y,
        z: SPRITE_LAYER,
        heading: c.heading,
        flipped: false,
        scale_pct: SPRITE_SCALE_PCT,
    }
}

/// One integration step of `dt` microseconds for the controlled entity:
/// turn by the left/right keys, move forward while up is held, and stop
/// hard at the world's edges.
pub fn integrate(c: &mut Craft, input: Input, dt: u32, bounds: WorldBounds)
    requires
        old(c).heading < 360,
        -COORD_LIMIT <= old(c).x <= COORD_LIMIT,
        -COORD_LIMIT <= old(c).y <= COORD_LIMIT,
    ensures
        *final(c) == integrated(*old(c), input, dt, bounds),
        inside(*final(c), bounds),
        final(c).heading < 360,
{
    let h = turn(c.heading, input, dt);
    let mut x = c.x;
    let mut y = c.y;
    if input.up {
        let s = sine(h);
        let co = sine(((h as u64 + 90) % 360) as u32);
        x = x + travel_of(-s, dt);
        y = y + travel_of(co, dt);
    }
    c.heading = h;
    c.x = clamp_to(x, (bounds.width / 2) as i64 * SUBUNITS);
    c.y = clamp_to(y, (bounds.height / 2) as i64 * SUBUNITS);
}

/// With no key held, a step leaves a controlled entity that lies inside
/// the world exactly as it was.
pub proof fn lemma_idle_step_changes_nothing(c: Craft, dt: u32, bounds: WorldBounds)
    requires
        c.heading < 360,
        inside(c, bounds),
    ensures
        integrated(c, Input { left: false, right: false, up: false }, dt, bounds) == c,
{
    let input = Input { left: false, right: false, up: false };
    lemma_small_mod(c.heading as nat, 360);
    assert(rotation_factor(input) == 0);
    assert(rotation_factor(input) * turn_step(dt) == 0) by (nonlinear_arith)
        requires rotation_factor(input) == 0;
    assert(turned(c.heading as int, input, dt) == c.heading);
    let h = turned(c.heading as int, input, dt);
    assert(movement_factor(input) * travel(-sine_permille(h), dt) == 0);
    assert(movement_factor(input) * travel(cosine_permille(h), dt) == 0);
}

/// A step whose motion would carry the entity past an edge leaves it
/// exactly on that edge, never beyond; a step inside the world is never
/// clamped.
pub proof fn lemma_step_stops_at_edge(c: Craft, input: Input, dt: u32, bounds: WorldBounds)
    ensures
        ({
            let h = turned(c.heading as int, input, dt);
            let m = movement_factor(input);
            let x = c.x + m * travel(-sine_permille(h), dt);
            let y = c.y + m * travel(cosine_permille(h), dt);
            let r = integrated(c, input, dt, bounds);
            &&& x > half_extent(bounds.width) ==> r.x == half_extent(bounds.width)
            &&& x < -half_extent(bounds.width) ==> r.x == -half_extent(bounds.width)
            &&& y > half_extent(bounds.height) ==> r.y == half_extent(bounds.height)
            &&& y < -half_extent(bounds.height) ==> r.y == -half_extent(bounds.height)
            &&& -half_extent(bounds.width) <= x <= half_extent(bounds.width) ==> r.x == x
            &&& -half_extent(bounds.height) <= y <= half_extent(bounds.height) ==> r.y == y
        }),
{
}

/// Holding left and right together turns the entity not at all.
pub proof fn lemma_opposite_turns_cancel(c: Craft, up: bool, dt: u32, bounds: WorldBounds)
    requires
        c.heading < 360,
    ensures
        integrated(c, Input { left: true, right: true, up }, dt, bounds).heading == c.heading,
{
    let input = Input { left: true, right: true, up };
    lemma_small_mod(c.heading as nat, 360);
    assert(rotation_factor(input) == 0);
    assert(rotation_factor(input) * turn_step(dt) == 0) by (nonlinear_arith)
        requires rotation_factor(input) == 0;
}

} // verus!
