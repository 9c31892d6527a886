use vstd::prelude::*;
use crate::entity::{
    hostile_at, projectile_from, Entity, Role, Side, Transform, Velocity, WorldBounds,
    MUZZLE_OFFSET,
};
use crate::fire::{fire_from, FireGate};
use crate::spawn::{in_spawn_area, spawn_hostile_at, span_of, try_spawn_hostile};

verus! {

/// Whether a registry slot holds a live hostile.
pub open spec fn is_hostile(slot: Option<Entity>) -> bool {
    slot matches Some(e) && e.role == Role::Hostile
}

/// Whether a registry slot holds a live entity with role `role`.
pub open spec fn has_role(slot: Option<Entity>, role: Role) -> bool {
    slot matches Some(e) && e.role == role
}

/// Number of live hostiles among the slots.
pub open spec fn count_hostiles(slots: Seq<Option<Entity>>) -> nat
    decreases slots.len(),
{
    if slots.len() == 0 {
        0
    } else {
        count_hostiles(slots.drop_last()) + if is_hostile(slots.last()) { 1nat } else { 0nat }
    }
}

/// Transforms of the live hostiles, in slot order.
pub open spec fn hostile_transforms(slots: Seq<Option<Entity>>) -> Seq<Transform>
    decreases slots.len(),
{
    if slots.len() == 0 {
        Seq::empty()
    } else {
        let rest = hostile_transforms(slots.drop_last());
        if is_hostile(slots.last()) {
            rest.push(slots.last()->Some_0.transform)
        } else {
            rest
        }
    }
}

/// The slots that a firing pass adds: one projectile per live hostile.
pub open spec fn fired(slots: Seq<Option<Entity>>) -> Seq<Option<Entity>> {
    hostile_transforms(slots).map_values(|t: Transform| Some(projectile_from(t)))
}

/// Appending a slot that holds no hostile changes neither the count nor the
/// list of hostile transforms.
proof fn lemma_push_other(slots: Seq<Option<Entity>>, slot: Option<Entity>)
    requires
        !is_hostile(slot),
    ensures
        count_hostiles(slots.push(slot)) == count_hostiles(slots),
        hostile_transforms(slots.push(slot)) == hostile_transforms(slots),
{
    assert(slots.push(slot).drop_last() =~= slots);
}

/// Appending a hostile counts it and lists its transform last.
proof fn lemma_push_hostile(slots: Seq<Option<Entity>>, e: Entity)
    requires
        e.role == Role::Hostile,
    ensures
        count_hostiles(slots.push(Some(e))) == count_hostiles(slots) + 1,
        hostile_transforms(slots.push(Some(e))) == hostile_transforms(slots).push(e.transform),
{
    assert(slots.push(Some(e)).drop_last() =~= slots);
}

/// Emptying a slot uncounts the hostile that it held, if any.
proof fn lemma_clear_slot(slots: Seq<Option<Entity>>, i: int)
    requires
        0 <= i < slots.len(),
    ensures
        count_hostiles(slots.update(i, None)) + (if is_hostile(slots[i]) { 1nat } else { 0nat })
            == count_hostiles(slots),
    decreases slots.len(),
{
    let u = slots.update(i, None);
    if i == slots.len() - 1 {
        assert(u.drop_last() =~= slots.drop_last());
    } else {
        assert(u.drop_last() =~= slots.drop_last().update(i, None));
        lemma_clear_slot(slots.drop_last(), i);
    }
}

/// There are as many hostile transforms as live hostiles.
pub proof fn lemma_transforms_len(slots: Seq<Option<Entity>>)
    ensures
        hostile_transforms(slots).len() == count_hostiles(slots),
    decreases slots.len(),
{
    if slots.len() > 0 {
        lemma_transforms_len(slots.drop_last());
    }
}

/// A firing pass over the slots adds exactly one projectile per live
/// hostile, in slot order, each fifteen units below its firer, moving
/// straight down and marked as emitted by the hostile side.
pub proof fn lemma_fire_fan_out(slots: Seq<Option<Entity>>)
    requires
        forall|j: int|
            0 <= j < slots.len() && is_hostile(#[trigger] slots[j]) ==> slots[j]->Some_0.transform.y
                >= i64::MIN + MUZZLE_OFFSET,
    ensures
        fired(slots).len() == count_hostiles(slots),
        forall|i: int|
            0 <= i < fired(slots).len() ==> {
                let t = hostile_transforms(slots)[i];
                let p = (#[trigger] fired(slots)[i])->Some_0;
                &&& fired(slots)[i] is Some
                &&& p.role == Role::Projectile
                &&& p.origin == Some(Side::Hostile)
                &&& p.velocity == Some(Velocity { x: 0, y: -1i64 })
                &&& p.transform.x == t.x
                &&& p.transform.y == t.y - MUZZLE_OFFSET
            },
{
    lemma_transforms_len(slots);
    lemma_transforms_low(slots);
}

/// Hostile transforms inherit a lower bound on `y` from the slots.
proof fn lemma_transforms_low(slots: Seq<Option<Entity>>)
    requires
        forall|j: int|
            0 <= j < slots.len() && is_hostile(#[trigger] slots[j]) ==> slots[j]->Some_0.transform.y
                >= i64::MIN + MUZZLE_OFFSET,
    ensures
        forall|i: int|
            0 <= i < hostile_transforms(slots).len() ==> (#[trigger] hostile_transforms(slots)[i]).y
                >= i64::MIN + MUZZLE_OFFSET,
    decreases slots.len(),
{
    if slots.len() > 0 {
        let rest = slots.drop_last();
        assert forall|j: int| 0 <= j < rest.len() && is_hostile(#[trigger] rest[j]) implies rest[j]->Some_0.transform.y
            >= i64::MIN + MUZZLE_OFFSET by {
            assert(rest[j] == slots[j]);
        }
        lemma_transforms_low(rest);
        if is_hostile(slots.last()) {
            assert(is_hostile(slots[slots.len() - 1]));
            let ht = hostile_transforms(slots);
            assert(ht == hostile_transforms(rest).push(slots.last()->Some_0.transform));
            assert forall|i: int| 0 <= i < ht.len() implies (#[trigger] ht[i]).y >= i64::MIN
                + MUZZLE_OFFSET by {
                if i < ht.len() - 1 {
                    assert(ht[i] == hostile_transforms(rest)[i]);
                }
            }
        }
    }
}

/// The entity registry: slots indexed by entity id, a slot emptied when its
/// entity is destroyed. It tracks the live hostile count against a ceiling.
pub struct World {
    entities: Vec<Option<Entity>>,
    hostile_count: u32,
    ceiling: u32,
    bounds: WorldBounds,
}

impl World {
    /// The registry's slots, indexed by entity id.
    pub closed spec fn slots(&self) -> Seq<Option<Entity>> {
        self.entities@
    }

    /// Population ceiling for hostiles.
    pub closed spec fn ceiling_spec(&self) -> u32 {
        self.ceiling
    }

    /// Size of the world.
    pub closed spec fn bounds_spec(&self) -> WorldBounds {
        self.bounds
    }

    /// The tracked count is the number of live hostiles, never above the
    /// ceiling, and every hostile stands inside the spawn area.
    pub closed spec fn wf(&self) -> bool {
        &&& self.hostile_count == count_hostiles(self.entities@)
        &&& self.hostile_count <= self.ceiling
        &&& forall|i: int|
            0 <= i < self.entities@.len() && is_hostile(#[trigger] self.entities@[i])
                ==> in_spawn_area(
                self.bounds,
                self.entities@[i]->Some_0.transform.x as int,
                self.entities@[i]->Some_0.transform.y as int,
            )
    }

    /// In every well-formed world the live hostiles number at most the
    /// ceiling.
    pub proof fn lemma_population_cap(&self)
        requires
            self.wf(),
        ensures
            count_hostiles(self.slots()) <= self.ceiling_spec(),
    {
    }

    /// An empty world of the given size and hostile ceiling.
    pub fn new(ceiling: u32, bounds: WorldBounds) -> (w: World)
        ensures
            w.wf(),
            w.slots() == Seq::<Option<Entity>>::empty(),
            w.ceiling_spec() == ceiling,
            w.bounds_spec() == bounds,
    {
        World { entities: Vec::new(), hostile_count: 0, ceiling, bounds }
    }

    /// Number of slots, that is the next entity id.
    pub fn len(&self) -> (r: usize)
        ensures
            r == self.slots().len(),
    {
        self.entities.len()
    }

    /// Population ceiling for hostiles.
    pub fn ceiling(&self) -> (r: u32)
        ensures
            r == self.ceiling_spec(),
    {
        self.ceiling
    }

    /// Size of the world.
    pub fn bounds(&self) -> (r: WorldBounds)
        ensures
            r == self.bounds_spec(),
    {
        self.bounds
    }

    /// Number of live hostiles.
    pub fn hostile_count(&self) -> (r: u32)
        requires
            self.wf(),
        ensures
            r == count_hostiles(self.slots()),
    {
        self.hostile_count
    }

    /// The entity with id `id`, or `None` if there is none (never created,
    /// or destroyed).
    pub fn get(&self, id: usize) -> (r: Option<Entity>)
        ensures
            id < self.slots().len() ==> r == self.slots()[id as int],
            id >= self.slots().len() ==> r is None,
    {
        if id < self.entities.len() {
            self.entities[id]
        } else {
            None
        }
    }

    /// Removes the entity with id `id` with all its components, counting a
    /// hostile out of the population. Returns whether there was one; on an
    /// id that holds nothing this does nothing and returns false.
    pub fn destroy(&mut self, id: usize) -> (found: bool)
        requires
            old(self).wf(),
        ensures
            final(self).wf(),
            final(self).ceiling_spec() == old(self).ceiling_spec(),
            final(self).bounds_spec() == old(self).bounds_spec(),
            found == (id < old(self).slots().len() && old(self).slots()[id as int] is Some),
            found ==> final(self).slots() == old(self).slots().update(id as int, None),
            !found ==> final(self).slots() == old(self).slots(),
    {
        if id >= self.entities.len() {
            return false;
        }
        match self.entities[id] {
            None => false,
            Some(e) => {
                proof {
                    lemma_clear_slot(self.entities@, id as int);
                }
                if e.role == Role::Hostile {
                    self.hostile_count = self.hostile_count - 1;
                }
                self.entities.set(id, None);
                proof {
                    assert forall|i: int|
                        0 <= i < self.entities@.len() && is_hostile(#[trigger] self.entities@[i])
                            implies in_spawn_area(
                            self.bounds,
                            self.entities@[i]->Some_0.transform.x as int,
                            self.entities@[i]->Some_0.transform.y as int,
                        ) by {
                        assert(is_hostile(old(self).entities@[i]));
                    }
                }
                true
            },
        }
    }

    /// Transforms of the live hostiles, in id order.
    pub fn hostile_transforms(&self) -> (r: Vec<Transform>)
        requires
            self.wf(),
        ensures
            r@ == hostile_transforms(self.slots()),
            forall|j: int|
                0 <= j < r@.len() ==> in_spawn_area(
                    self.bounds_spec(),
                    (#[trigger] r@[j]).x as int,
                    r@[j].y as int,
                ),
    {
        let mut r: Vec<Transform> = Vec::new();
        let mut i: usize = 0;
        while i < self.entities.len()
            invariant
                self.wf(),
                i <= self.entities@.len(),
                r@ == hostile_transforms(self.entities@.take(i as int)),
                forall|j: int|
                    0 <= j < r@.len() ==> in_spawn_area(
                        self.bounds,
                        (#[trigger] r@[j]).x as int,
                        r@[j].y as int,
                    ),
            decreases self.entities@.len() - i,
        {
            assert(self.entities@.take(i as int + 1).drop_last() =~= self.entities@.take(i as int));
            match self.entities[i] {
                Some(e) => {
                    if e.role == Role::Hostile {
                        assert(is_hostile(self.entities@[i as int]));
                        r.push(e.transform);
                    }
                },
                None => {},
            }
            i = i + 1;
        }
        assert(self.entities@.take(i as int) =~= self.entities@);
        r
    }

    /// Creates an entity that is not a hostile (hostiles enter only through
    /// the spawn policy, which counts them) and returns its id.
    pub fn insert(&mut self, e: Entity) -> (id: usize)
        requires
            old(self).wf(),
            e.role != Role::Hostile,
        ensures
            final(self).wf(),
            final(self).ceiling_spec() == old(self).ceiling_spec(),
            final(self).bounds_spec() == old(self).bounds_spec(),
            id == old(self).slots().len(),
            final(self).slots() == old(self).slots().push(Some(e)),
    {
        let id = self.entities.len();
        proof {
            lemma_push_other(self.entities@, Some(e));
        }
        let ghost prev = self.entities@;
        self.entities.push(Some(e));
        proof {
            assert forall|i: int|
                0 <= i < self.entities@.len() && is_hostile(#[trigger] self.entities@[i])
                    implies in_spawn_area(
                    self.bounds,
                    self.entities@[i]->Some_0.transform.x as int,
                    self.entities@[i]->Some_0.transform.y as int,
                ) by {
                assert(self.entities@[i] == prev.push(Some(e))[i]);
                if i < prev.len() {
                    assert(is_hostile(prev[i]));
                }
            }
        }
        id
    }

    /// Ids of the live entities with role `role`, in increasing order.
    pub fn ids_with_role(&self, role: Role) -> (r: Vec<usize>)
        ensures
            forall|k: int| 0 <= k < r@.len() ==> (#[trigger] r@[k]) < self.slots().len()
                && has_role(self.slots()[r@[k] as int], role),
            forall|k: int, l: int| 0 <= k < l < r@.len() ==> r@[k] < r@[l],
            forall|i: int|
                0 <= i < self.slots().len() && has_role(#[trigger] self.slots()[i], role) ==> r@.contains(i as usize),
    {
        let mut r: Vec<usize> = Vec::new();
        let mut i: usize = 0;
        while i < self.entities.len()
            invariant
                i <= self.entities@.len(),
                forall|k: int| 0 <= k < r@.len() ==> (#[trigger] r@[k]) < i
                    && has_role(self.entities@[r@[k] as int], role),
                forall|k: int, l: int| 0 <= k < l < r@.len() ==> r@[k] < r@[l],
                forall|j: int|
                    0 <= j < i && has_role(#[trigger] self.entities@[j], role)
                        ==> r@.contains(j as usize),
            decreases self.entities@.len() - i,
        {
            match self.entities[i] {
                Some(e) => {
                    if e.role == role {
                        let ghost prev = r@;
                        r.push(i);
                        proof {
                            assert forall|j: int|
                                0 <= j < i + 1 && has_role(#[trigger] self.entities@[j], role) implies r@.contains(j as usize) by {
                                if j < i {
                                    let k = choose|k: int| 0 <= k < prev.len() && prev[k] == j as usize;
                                    assert(r@[k] == j as usize);
                                } else {
                                    assert(r@[r@.len() - 1] == i);
                                }
                            }
                        }
                    }
                },
                None => {},
            }
            i = i + 1;
        }
        r
    }

    /// Spawn pass for an already drawn position inside the spawn area:
    /// below the ceiling the hostile at `(x, y)` is created and its id
    /// returned; at the ceiling nothing changes.
    pub fn spawn_at(&mut self, x: i64, y: i64) -> (id: Option<usize>)
        requires
            old(self).wf(),
            in_spawn_area(old(self).bounds_spec(), x as int, y as int),
        ensures
            final(self).wf(),
            final(self).ceiling_spec() == old(self).ceiling_spec(),
            final(self).bounds_spec() == old(self).bounds_spec(),
            count_hostiles(old(self).slots()) >= old(self).ceiling_spec() ==> id is None
                && final(self).slots() == old(self).slots(),
            count_hostiles(old(self).slots()) < old(self).ceiling_spec() ==> id == Some(
                old(self).slots().len() as usize,
            ) && final(self).slots() == old(self).slots().push(Some(hostile_at(x as int, y as int))),
    {
        let spawned = spawn_hostile_at(&mut self.hostile_count, self.ceiling, x, y);
        self.admit_spawned(spawned)
    }

    /// Spawn pass: below the ceiling a hostile is created at a position
    /// drawn uniformly from the spawn area and its id returned; at the
    /// ceiling nothing changes.
    pub fn spawn_pass(&mut self) -> (id: Option<usize>)
        requires
            old(self).wf(),
        ensures
            final(self).wf(),
            final(self).ceiling_spec() == old(self).ceiling_spec(),
            final(self).bounds_spec() == old(self).bounds_spec(),
            count_hostiles(old(self).slots()) >= old(self).ceiling_spec() ==> id is None
                && final(self).slots() == old(self).slots(),
            count_hostiles(old(self).slots()) < old(self).ceiling_spec() ==> id == Some(
                old(self).slots().len() as usize,
            ) && exists|x: int, y: int|
                in_spawn_area(old(self).bounds_spec(), x, y) && final(self).slots()
                    == old(self).slots().push(Some(#[trigger] hostile_at(x, y))),
            count_hostiles(old(self).slots()) < old(self).ceiling_spec() ==> count_hostiles(
                final(self).slots(),
            ) == count_hostiles(old(self).slots()) + 1,
    {
        let spawned = try_spawn_hostile(&mut self.hostile_count, self.ceiling, self.bounds);
        let ghost e = spawned->Some_0;
        let id = self.admit_spawned(spawned);
        proof {
            if spawned is Some {
                assert(self.slots() == old(self).slots().push(
                    Some(hostile_at(e.transform.x as int, e.transform.y as int)),
                ));
            }
        }
        id
    }

    /// Stores a hostile that the spawn policy produced after counting it.
    fn admit_spawned(&mut self, spawned: Option<Entity>) -> (id: Option<usize>)
        requires
            old(self).hostile_count <= old(self).ceiling,
            spawned is None ==> old(self).hostile_count == count_hostiles(old(self).entities@),
            spawned matches Some(e) ==> old(self).hostile_count == count_hostiles(
                old(self).entities@,
            ) + 1 && e.role == Role::Hostile && in_spawn_area(
                old(self).bounds,
                e.transform.x as int,
                e.transform.y as int,
            ),
            forall|i: int|
                0 <= i < old(self).entities@.len() && is_hostile(#[trigger] old(self).entities@[i])
                    ==> in_spawn_area(
                    old(self).bounds,
                    old(self).entities@[i]->Some_0.transform.x as int,
                    old(self).entities@[i]->Some_0.transform.y as int,
                ),
        ensures
            final(self).wf(),
            final(self).ceiling == old(self).ceiling,
            final(self).bounds == old(self).bounds,
            final(self).hostile_count == old(self).hostile_count,
            spawned is None ==> id is None && final(self).entities@ == old(self).entities@,
            spawned is Some ==> id == Some(old(self).entities@.len() as usize)
                && final(self).entities@ == old(self).entities@.push(spawned),
    {
        match spawned {
            None => None,
            Some(e) => {
                let id = self.entities.len();
                proof {
                    lemma_push_hostile(self.entities@, e);
                }
                self.entities.push(Some(e));
                Some(id)
            },
        }
    }

    /// Firing pass for an already decided gate trial: on success
    /// every live hostile emits one projectile, appended in id order, and
    /// the number emitted is returned; otherwise nothing changes.
    pub fn fire_pass(&mut self, gate_passed: bool) -> (emitted: usize)
        requires
            old(self).wf(),
        ensures
            final(self).wf(),
            final(self).ceiling_spec() == old(self).ceiling_spec(),
            final(self).bounds_spec() == old(self).bounds_spec(),
            !gate_passed ==> emitted == 0 && final(self).slots() == old(self).slots(),
            gate_passed ==> emitted == count_hostiles(old(self).slots())
                && final(self).slots() == old(self).slots() + fired(old(self).slots()),
    {
        if !gate_passed {
            return 0;
        }
        let hostiles = self.hostile_transforms();
        proof {
            lemma_transforms_len(self.entities@);
            assert forall|j: int| 0 <= j < hostiles@.len() implies hostiles@[j].y >= i64::MIN
                + crate::entity::MUZZLE_OFFSET by {
                assert(in_spawn_area(self.bounds, hostiles@[j].x as int, hostiles@[j].y as int));
                assert(span_of(self.bounds.height) <= u32::MAX / 2);
            }
        }
        let shots = fire_from(&hostiles);
        let ghost start = self.entities@;
        let mut i: usize = 0;
        while i < shots.len()
            invariant
                self.wf(),
                self.ceiling == old(self).ceiling,
                self.bounds == old(self).bounds,
                start == old(self).entities@,
                hostiles@ == hostile_transforms(start),
                shots@.len() == hostiles@.len(),
                forall|j: int| 0 <= j < shots@.len() ==> shots@[j] == projectile_from(
                    #[trigger] hostiles@[j],
                ),
                i <= shots@.len(),
                self.entities@ == start + fired(start).take(i as int),
            decreases shots@.len() - i,
        {
            proof {
                assert(shots@[i as int] == projectile_from(hostiles@[i as int]));
                lemma_push_other(self.entities@, Some(shots@[i as int]));
                assert(fired(start).take(i as int + 1) =~= fired(start).take(i as int).push(
                    Some(shots@[i as int]),
                ));
            }
            let ghost prev = self.entities@;
            self.entities.push(Some(shots[i]));
            proof {
                assert(self.entities@ =~= start + fired(start).take(i as int + 1));
                assert forall|k: int|
                    0 <= k < self.entities@.len() && is_hostile(#[trigger] self.entities@[k])
                        implies in_spawn_area(
                        self.bounds,
                        self.entities@[k]->Some_0.transform.x as int,
                        self.entities@[k]->Some_0.transform.y as int,
                    ) by {
                    assert(self.entities@[k] == prev.push(Some(shots@[i as int]))[k]);
                    if k < prev.len() {
                        assert(is_hostile(prev[k]));
                    }
                }
            }
            i = i + 1;
        }
        proof {
            assert(fired(start).take(i as int) =~= fired(start));
        }
        shots.len()
    }

    /// Gated firing pass: one trial of `gate`, then the firing pass on its
    /// outcome. Returns the number of projectiles emitted.
    pub fn fire_gated(&mut self, gate: &FireGate) -> (emitted: usize)
        requires
            old(self).wf(),
            gate.wf(),
        ensures
            final(self).wf(),
            final(self).ceiling_spec() == old(self).ceiling_spec(),
            final(self).bounds_spec() == old(self).bounds_spec(),
            emitted == 0 && final(self).slots() == old(self).slots() || emitted == count_hostiles(
                old(self).slots(),
            ) && final(self).slots() == old(self).slots() + fired(old(self).slots()),
            gate.numerator == 0 ==> emitted == 0 && final(self).slots() == old(self).slots(),
            gate.numerator == gate.denominator ==> emitted == count_hostiles(old(self).slots())
                && final(self).slots() == old(self).slots() + fired(old(self).slots()),
    {
        let passed = gate.trial();
        self.fire_pass(passed)
    }
}

} // verus!
