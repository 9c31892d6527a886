use vstd::prelude::*;
use crate::entity::{new_projectile, projectile_from, Entity, Transform, MUZZLE_OFFSET};
use crate::random::draw_ratio;

verus! {

/// Chance of a firing pass on a tick: one in sixty.
pub const FIRE_CHANCE_NUMERATOR: u32 = 1;
pub const FIRE_CHANCE_DENOMINATOR: u32 = 60;

/// Bernoulli gate in front of the firing pass: each trial succeeds with
/// chance `numerator / denominator`, independently of earlier trials.
#[derive(Clone, Copy, Debug, PartialEq, Eq, Structural)]
pub struct FireGate {
    pub numerator: u32,
    pub denominator: u32,
}

impl FireGate {
    /// The chance is a proper probability.
    pub open spec fn wf(&self) -> bool {
        0 < self.denominator && self.numerator <= self.denominator
    }

    /// A fire gate set to the standard firing chance.
    pub fn standard() -> (g: FireGate)
        ensures
            g.wf(),
            g.numerator == FIRE_CHANCE_NUMERATOR,
            g.denominator == FIRE_CHANCE_DENOMINATOR,
    {
        FireGate { numerator: FIRE_CHANCE_NUMERATOR, denominator: FIRE_CHANCE_DENOMINATOR }
    }

    /// One Bernoulli draw. A zero chance never passes, a certain one
    /// always does.
    pub fn trial(&self) -> (passed: bool)
        requires
            self.wf(),
        ensures
            self.numerator == 0 ==> !passed,
            self.numerator == self.denominator ==> passed,
    {
        draw_ratio(self.numerator, self.denominator)
    }
}

/// Whether every transform leaves room below it for a muzzle offset.
pub open spec fn can_fire_from(hostiles: Seq<Transform>) -> bool {
    forall|i: int| 0 <= i < hostiles.len() ==> hostiles[i].y >= i64::MIN + MUZZLE_OFFSET
}

/// Firing pass: one projectile per hostile transform, in the same order.
pub fn fire_from(hostiles: &Vec<Transform>) -> (r: Vec<Entity>)
    requires
        can_fire_from(hostiles@),
    ensures
        r@.len() == hostiles@.len(),
        forall|i: int| 0 <= i < r@.len() ==> r@[i] == projectile_from(#[trigger] hostiles@[i]),
{
    let mut r: Vec<Entity> = Vec::new();
    let mut i: usize = 0;
    while i < hostiles.len()
        invariant
            i <= hostiles@.len(),
            can_fire_from(hostiles@),
            r@.len() == i,
            forall|j: int| 0 <= j < i ==> r@[j] == projectile_from(#[trigger] hostiles@[j]),
        decreases hostiles@.len() - i,
    {
        r.push(new_projectile(hostiles[i]));
        i = i + 1;
    }
    r
}

} // verus!
