use vstd::prelude::*;
use crate::entity::{hostile_at, new_hostile, Entity, WorldBounds, SPAWN_MARGIN};
use crate::random::draw_in_range;

verus! {

/// Half-width of the spawn range along an axis of length `extent`: half the
/// extent less the margin, or zero where the world is too small for it.
pub open spec fn span_of(extent: u32) -> int {
    if extent / 2 > SPAWN_MARGIN {
        extent / 2 - SPAWN_MARGIN
    } else {
        0
    }
}

/// Whether `(x, y)` is a position at which a hostile may appear.
pub open spec fn in_spawn_area(bounds: WorldBounds, x: int, y: int) -> bool {
    -span_of(bounds.width) <= x <= span_of(bounds.width)
        && -span_of(bounds.height) <= y <= span_of(bounds.height)
}

/// Half-width of the spawn range along an axis of length `extent`.
pub fn spawn_span(extent: u32) -> (r: i64)
    ensures
        r == span_of(extent),
        0 <= r <= u32::MAX / 2,
{
    let half = extent / 2;
    if half > SPAWN_MARGIN {
        (half - SPAWN_MARGIN) as i64
    } else {
        0
    }
}

/// Spawn decision for an already drawn position: below the ceiling the
/// hostile at `(x, y)` is produced and the live count goes up by one; at or
/// above it nothing is produced and the count stays.
pub fn spawn_hostile_at(count: &mut u32, ceiling: u32, x: i64, y: i64) -> (r: Option<Entity>)
    ensures
        *old(count) >= ceiling ==> r is None && *final(count) == *old(count),
        *old(count) < ceiling ==> r == Some(hostile_at(x as int, y as int))
            && *final(count) == *old(count) + 1,
{
    if *count < ceiling {
        *count = *count + 1;
        Some(new_hostile(x, y))
    } else {
        None
    }
}

/// Spawn policy: below the ceiling, draws a position uniformly from the
/// spawn area of `bounds` and produces a hostile there, counting it; at or
/// above the ceiling produces nothing.
pub fn try_spawn_hostile(count: &mut u32, ceiling: u32, bounds: WorldBounds) -> (r: Option<Entity>)
    ensures
        *old(count) >= ceiling ==> r is None && *final(count) == *old(count),
        *old(count) < ceiling ==> r is Some && *final(count) == *old(count) + 1,
        r matches Some(e) ==> e == hostile_at(e.transform.x as int, e.transform.y as int)
            && in_spawn_area(bounds, e.transform.x as int, e.transform.y as int),
{
    if *count >= ceiling {
        return None;
    }
    let w = spawn_span(bounds.width);
    let h = spawn_span(bounds.height);
    let x = draw_in_range(-w, w);
    let y = draw_in_range(-h, h);
    spawn_hostile_at(count, ceiling, x, y)
}

} // verus!
