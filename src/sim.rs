use vstd::prelude::*;
use crate::entity::{WorldBounds, SPRITE_SCALE_PCT};
use crate::fire::FireGate;
use crate::kinematics::{
    clamp_to, clamp_spec, half_extent, inside, integrate, integrated, Craft, Input, SUBUNITS,
};
use crate::sched::FixedStep;
use crate::entity::{hostile_at, Entity};
use crate::spawn::in_spawn_area;
use crate::world::{count_hostiles, fired, World};

verus! {

/// Period of the spawn cadence: one second.
pub const SPAWN_PERIOD: u64 = 1_000_000;

/// Period of the movement cadence: a sixtieth of a second, rounded.
pub const MOVE_PERIOD: u64 = 16_667;

/// Sprite height of the controlled entity, in world units.
pub const PLAYER_HEIGHT: u32 = 75;

/// Gap between the bottom edge and the scaled sprite of the controlled
/// entity at start.
pub const PLAYER_BOTTOM_GAP: u32 = 5;

/// Start placement of the controlled entity: centred, heading up, with its
/// centre half its scaled sprite plus a small gap above the bottom edge
/// (in thousandths of a world unit), held inside the world.
pub open spec fn start_craft(bounds: WorldBounds) -> Craft {
    Craft {
        x: 0,
        y: clamp_spec(
            -half_extent(bounds.height) + PLAYER_HEIGHT * SPRITE_SCALE_PCT * SUBUNITS / 200
                + PLAYER_BOTTOM_GAP * SUBUNITS,
            -half_extent(bounds.height),
            half_extent(bounds.height),
        ) as i64,
        heading: 0,
    }
}

/// Start placement of the controlled entity.
pub fn player_start(bounds: WorldBounds) -> (c: Craft)
    ensures
        c == start_craft(bounds),
        inside(c, bounds),
{
    let half = (bounds.height / 2) as i64 * SUBUNITS;
    let lift = (PLAYER_HEIGHT * SPRITE_SCALE_PCT) as i64 * SUBUNITS / 200 + PLAYER_BOTTOM_GAP as i64
        * SUBUNITS;
    Craft { x: 0, y: clamp_to(-half + lift, half), heading: 0 }
}

/// Placement after `n` integration steps of one movement period each.
pub open spec fn integrated_steps(c: Craft, input: Input, n: nat, bounds: WorldBounds) -> Craft
    decreases n,
{
    if n == 0 {
        c
    } else {
        integrated(integrated_steps(c, input, (n - 1) as nat, bounds), input, MOVE_PERIOD as u32, bounds)
    }
}

/// Whether a slot holds a hostile that the spawn policy may place: one at a
/// position inside the spawn area.
pub open spec fn spawned_hostile(slot: Option<Entity>, bounds: WorldBounds) -> bool {
    exists|x: int, y: int| in_spawn_area(bounds, x, y) && slot == Some(#[trigger] hostile_at(x, y))
}

/// Whether `grown` is `slots` with `k` spawned hostiles appended.
pub open spec fn spawned_onto(
    slots: Seq<Option<Entity>>,
    grown: Seq<Option<Entity>>,
    k: nat,
    bounds: WorldBounds,
) -> bool {
    &&& grown.len() == slots.len() + k
    &&& grown.take(slots.len() as int) == slots
    &&& forall|i: int| slots.len() <= i < grown.len() ==> spawned_hostile(#[trigger] grown[i], bounds)
}

/// Number of hostiles that `steps` spawn passes add to a world holding
/// `count` of at most `ceiling`: one per pass until the ceiling is reached.
pub open spec fn spawns_admitted(count: nat, ceiling: nat, steps: nat) -> nat {
    if steps <= ceiling - count { steps } else { (ceiling - count) as nat }
}

/// The whole simulation: the registry, the controlled entity, the two
/// fixed-step cadences and the firing gate.
pub struct Simulation {
    pub world: World,
    pub player: Craft,
    pub spawn_clock: FixedStep,
    pub move_clock: FixedStep,
    pub gate: FireGate,
}

impl Simulation {
    /// Every part is well formed and the controlled entity is inside the
    /// world.
    pub open spec fn wf(&self) -> bool {
        &&& self.world.wf()
        &&& self.spawn_clock.wf()
        &&& self.spawn_clock.period == SPAWN_PERIOD
        &&& self.move_clock.wf()
        &&& self.move_clock.period == MOVE_PERIOD
        &&& self.gate.wf()
        &&& self.player.heading < 360
        &&& inside(self.player, self.world.bounds_spec())
    }

    /// A fresh simulation: an empty world, the controlled entity at its
    /// start placement, both cadences at rest.
    pub fn new(ceiling: u32, bounds: WorldBounds, gate: FireGate) -> (s: Simulation)
        requires
            gate.wf(),
        ensures
            s.wf(),
            s.world.slots() == Seq::<Option<crate::entity::Entity>>::empty(),
            s.world.ceiling_spec() == ceiling,
            s.world.bounds_spec() == bounds,
            s.player == start_craft(bounds),
            s.gate == gate,
            s.spawn_clock.period == SPAWN_PERIOD && s.spawn_clock.accumulated == 0,
            s.move_clock.period == MOVE_PERIOD && s.move_clock.accumulated == 0,
    {
        Simulation {
            world: World::new(ceiling, bounds),
            player: player_start(bounds),
            spawn_clock: FixedStep::new(SPAWN_PERIOD),
            move_clock: FixedStep::new(MOVE_PERIOD),
            gate,
        }
    }

    /// One real update of `elapsed` microseconds: the spawn pass once per
    /// spawn step due, then one gated firing pass, then one integration
    /// step of the controlled entity per movement step due. Returns the
    /// number of projectiles emitted.
    pub fn update(&mut self, elapsed: u64, input: Input) -> (emitted: usize)
        requires
            old(self).wf(),
        ensures
            final(self).wf(),
            final(self).world.ceiling_spec() == old(self).world.ceiling_spec(),
            final(self).world.bounds_spec() == old(self).world.bounds_spec(),
            final(self).gate == old(self).gate,
            final(self).spawn_clock.accumulated == (old(self).spawn_clock.accumulated + elapsed)
                % (SPAWN_PERIOD as int),
            final(self).move_clock.accumulated == (old(self).move_clock.accumulated + elapsed)
                % (MOVE_PERIOD as int),
            final(self).player == integrated_steps(
                old(self).player,
                input,
                ((old(self).move_clock.accumulated + elapsed) / (MOVE_PERIOD as int)) as nat,
                old(self).world.bounds_spec(),
            ),
            count_hostiles(final(self).world.slots()) <= final(self).world.ceiling_spec(),
            ({
                let before = old(self).world.slots();
                let steps = (old(self).spawn_clock.accumulated + elapsed) / (SPAWN_PERIOD as int);
                let k = spawns_admitted(
                    count_hostiles(before),
                    old(self).world.ceiling_spec() as nat,
                    steps as nat,
                );
                let after = final(self).world.slots();
                let mid = after.take((before.len() + k) as int);
                &&& spawned_onto(before, mid, k, old(self).world.bounds_spec())
                &&& count_hostiles(mid) == count_hostiles(before) + k
                &&& (emitted == 0 && after == mid) || (emitted == count_hostiles(mid) && after
                    == mid + fired(mid))
                &&& old(self).gate.numerator == 0 ==> emitted == 0 && after == mid
                &&& old(self).gate.numerator == old(self).gate.denominator ==> emitted
                    == count_hostiles(mid) && after == mid + fired(mid)
            }),
    {
        let ghost before = self.world.slots();
        let ghost c0 = count_hostiles(before);
        let ghost cap = self.world.ceiling_spec() as nat;
        let ghost bounds0 = self.world.bounds_spec();
        proof {
            self.world.lemma_population_cap();
            assert(before.take(before.len() as int) =~= before);
        }
        let spawns = self.spawn_clock.advance(elapsed);
        let mut i: u64 = 0;
        while i < spawns
            invariant
                self.world.wf(),
                self.world.ceiling_spec() == old(self).world.ceiling_spec(),
                self.world.bounds_spec() == old(self).world.bounds_spec(),
                self.gate == old(self).gate,
                self.move_clock == old(self).move_clock,
                self.player == old(self).player,
                self.spawn_clock.wf(),
                self.spawn_clock.period == SPAWN_PERIOD,
                self.spawn_clock.accumulated == (old(self).spawn_clock.accumulated + elapsed)
                    % (SPAWN_PERIOD as int),
                i <= spawns,
                spawned_onto(before, self.world.slots(), spawns_admitted(c0, cap, i as nat), bounds0),
                count_hostiles(self.world.slots()) == c0 + spawns_admitted(c0, cap, i as nat),
                bounds0 == old(self).world.bounds_spec(),
                cap == old(self).world.ceiling_spec(),
                c0 <= cap,
            decreases spawns - i,
        {
            let ghost prev = self.world.slots();
            let id = self.world.spawn_pass();
            proof {
                let cur = self.world.slots();
                if id is Some {
                    let (x, y) = choose|x: int, y: int|
                        in_spawn_area(bounds0, x, y) && cur == prev.push(Some(#[trigger] hostile_at(x, y)));
                    assert(cur.take(before.len() as int) =~= prev.take(before.len() as int));
                    assert forall|j: int| before.len() <= j < cur.len() implies spawned_hostile(
                        #[trigger] cur[j],
                        bounds0,
                    ) by {
                        if j < prev.len() {
                            assert(cur[j] == prev[j]);
                        } else {
                            assert(cur[j] == Some(hostile_at(x, y)));
                        }
                    }
                }
            }
            i = i + 1;
        }
        let ghost mid_slots = self.world.slots();
        proof {
            assert(mid_slots.take(mid_slots.len() as int) =~= mid_slots);
            assert((mid_slots + fired(mid_slots)).take(mid_slots.len() as int) =~= mid_slots);
        }
        let emitted = self.world.fire_gated(&self.gate);
        let moves = self.move_clock.advance(elapsed);
        let bounds = self.world.bounds();
        let dt = MOVE_PERIOD as u32;
        let ghost mid = *self;
        let mut j: u64 = 0;
        while j < moves
            invariant
                self.player.heading < 360,
                inside(self.player, bounds),
                self.world == mid.world,
                self.spawn_clock == mid.spawn_clock,
                self.move_clock == mid.move_clock,
                self.gate == mid.gate,
                j <= moves,
                dt == MOVE_PERIOD as u32,
                self.player == integrated_steps(mid.player, input, j as nat, bounds),
            decreases moves - j,
        {
            integrate(&mut self.player, input, dt, bounds);
            assert(integrated_steps(mid.player, input, (j + 1) as nat, bounds) == integrated(
                integrated_steps(mid.player, input, j as nat, bounds),
                input,
                dt,
                bounds,
            ));
            j = j + 1;
        }
        proof {
            self.world.lemma_population_cap();
        }
        emitted
    }
}

} // verus!
