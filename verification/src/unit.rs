//! Unit components and the locomotion systems: ground clamping, the
//! walking state machine, and the shared health-reduction routine.

use vstd::prelude::*;

verus! {

use crate::fixed::{
    FX_LIMIT, FX_ONE, fx_add, fx_clamp, fx_clamp_val, fx_in_range, fx_mul, fx_sub, fx_to_units,
    sign_of, tdiv,
};
use crate::geom::{BoundingBox, Point};
use crate::physics::DeltaTime;
use crate::store::{Components, Entity, Slot, Store, handle_ok, live_in};
use crate::terrain::Terrain;

/// What a unit is doing this frame. Only `Walk` drives movement; every
/// other state freezes the unit where it stands.
#[derive(Clone, Copy, Debug, PartialEq, Eq, Structural)]
pub enum UnitState {
    /// The path is clear and the unit can walk.
    Walk,
    /// A ledge at head height blocks the unit; it needs to climb.
    Climb,
    /// Another unit blocks the path.
    Wait,
    /// The unit is fighting an enemy unit hand to hand.
    Melee,
    /// The unit is shooting at an enemy unit.
    Shoot,
}

/// Hit points, in fixed-point. A value at or below zero schedules the
/// owner for deletion.
#[derive(Clone, Copy, Debug, PartialEq, Eq, Structural)]
pub struct Health(pub i64);

/// Which army a unit belongs to; determines targeting eligibility.
#[derive(Clone, Copy, Debug, PartialEq, Eq, Structural)]
pub enum Faction {
    Ally,
    Enemy,
}

impl Faction {
    /// The army this one fights.
    pub open spec fn opposite_of(self) -> Faction {
        match self {
            Faction::Ally => Faction::Enemy,
            Faction::Enemy => Faction::Ally,
        }
    }

    pub fn opposite(self) -> (r: Faction)
        ensures
            r == self.opposite_of(),
    {
        match self {
            Faction::Ally => Faction::Enemy,
            Faction::Enemy => Faction::Ally,
        }
    }
}

/// Locomotion intent: the unit's collision silhouette and walking speed
/// in world units per second.
#[derive(Clone, Copy, Debug, PartialEq, Eq, Structural)]
pub struct Walk {
    pub bounds: BoundingBox,
    pub speed: i64,
}

impl Walk {
    pub open spec fn wf(self) -> bool {
        self.bounds.wf() && fx_in_range(self.speed as int)
    }

    pub fn new(bounds: BoundingBox, speed: i64) -> (r: Walk)
        requires
            bounds.wf(),
            fx_in_range(speed as int),
        ensures
            r == (Walk { bounds, speed }),
    {
        Walk { bounds, speed }
    }
}

/// The x coordinate a walking unit is heading for.
#[derive(Clone, Copy, Debug, PartialEq, Eq, Structural)]
pub struct Destination(pub i64);

/// Reduce a unit's health by `dmg` — the single reducer every combat
/// path goes through. Health never increases here, and the crossing to
/// zero or below queues exactly one deletion of the unit; a repeated
/// request for the same handle is absorbed by the deferred barrier.
/// Returns whether the unit was left dead. An entity that is not live or
/// carries no health is skipped unchanged.
pub fn reduce_unit_health(store: &mut Store, unit: Entity, dmg: i64) -> (died: bool)
    requires
        old(store).wf(),
        0 <= dmg,
        fx_in_range(dmg as int),
    ensures
        final(store).wf(),
        final(store).pending_create@ == old(store).pending_create@,
        (old(store).live(unit) && old(store).slots@[unit.index as int].comps.health is Some)
            ==> {
            let h = old(store).slots@[unit.index as int].comps.health->0;
            let h1 = fx_clamp(h.0 - dmg);
            &&& h1 <= h.0
            &&& died == (h1 <= 0)
            &&& final(store).slots@ == old(store).slots@.update(
                unit.index as int,
                Slot {
                    gen: old(store).slots@[unit.index as int].gen,
                    alive: old(store).slots@[unit.index as int].alive,
                    comps: Components {
                        health: Some(Health(h1 as i64)),
                        ..old(store).slots@[unit.index as int].comps
                    },
                },
            )
            &&& final(store).pending_delete@ == (if h1 <= 0 {
                old(store).pending_delete@.push(unit)
            } else {
                old(store).pending_delete@
            })
        },
        !(old(store).live(unit) && old(store).slots@[unit.index as int].comps.health is Some)
            ==> *final(store) == *old(store) && died == false,
{
    match store.get(unit) {
        Some(c) => {
            match c.health {
                Some(h) => {
                    let h1 = fx_sub(h.0, dmg);
                    let s = store.slots[unit.index];
                    let mut c2 = s.comps;
                    c2.health = Some(Health(h1));
                    store.slots.set(unit.index, Slot { gen: s.gen, alive: s.alive, comps: c2 });
                    proof {
                        assert forall|k: int|
                            0 <= k < store.pending_delete@.len() implies handle_ok(
                            store.slots@,
                            #[trigger] store.pending_delete@[k],
                        ) by {
                            assert(handle_ok(old(store).slots@, store.pending_delete@[k]));
                        }
                    }
                    if h1 <= 0 {
                        store.delete_later(unit);
                        true
                    } else {
                        false
                    }
                },
                None => false,
            }
        },
        None => false,
    }
}

/// One unit's walking step. A unit with a destination, walking intent, a
/// state tag and a position moves only while its state is `Walk`: if the
/// terrain probe of its translated silhouette reports a hit on the box's
/// top cell row the unit transitions to `Climb` and stays put; otherwise
/// it advances toward its destination by `speed * dt`, saturating at the
/// representable range. Any component missing leaves the unit untouched.
pub open spec fn walk_step(c: Components, t: Terrain, dt: int) -> Components {
    if c.walk is Some && c.dest is Some && c.state is Some && c.pos is Some {
        let w = c.walk->0;
        let dest = c.dest->0;
        let st = c.state->0;
        let p = c.pos->0;
        if st != UnitState::Walk {
            c
        } else {
            let hb = w.bounds.translate_spec(p);
            if t.box_probe(hb) matches Some(hit) && hit.1 as int == tdiv(
                hb.min.y as int,
                FX_ONE as int,
            ) {
                Components { state: Some(UnitState::Climb), ..c }
            } else {
                let step = fx_clamp(tdiv(w.speed * dt, FX_ONE as int));
                let moved = fx_clamp(p.x + sign_of(dest.0 - p.x) * step);
                Components { pos: Some(Point { x: moved as i64, y: p.y }), ..c }
            }
        }
    } else {
        c
    }
}

/// A slot after the walking system visited it: live entities take their
/// walking step, dead slots are untouched.
pub open spec fn walk_slot(s: Slot, t: Terrain, dt: int) -> Slot {
    Slot { gen: s.gen, alive: s.alive, comps: if s.alive {
        walk_step(s.comps, t, dt)
    } else {
        s.comps
    } }
}

/// Drives horizontal movement of every walking unit.
pub struct WalkSystem;

impl WalkSystem {
    /// Visit every live entity and apply its walking step.
    pub fn run(&mut self, dt: DeltaTime, terrain: &Terrain, store: &mut Store)
        requires
            dt.wf(),
            terrain.wf(),
            old(store).wf(),
        ensures
            final(store).wf(),
            final(store).slots@.len() == old(store).slots@.len(),
            final(store).pending_delete@ == old(store).pending_delete@,
            final(store).pending_create@ == old(store).pending_create@,
            forall|i: int|
                0 <= i < old(store).slots@.len() ==> #[trigger] final(store).slots@[i]
                    == walk_slot(old(store).slots@[i], *terrain, dt.0 as int),
    {
        let n = store.slots.len();
        let mut i: usize = 0;
        while i < n
            invariant
                i <= n,
                store.slots@.len() == n,
                store.pending_delete@ == old(store).pending_delete@,
                store.pending_create@ == old(store).pending_create@,
                store.wf(),
                forall|j: int|
                    0 <= j < i ==> #[trigger] store.slots@[j] == walk_slot(
                        old(store).slots@[j],
                        *terrain,
                        dt.0 as int,
                    ),
                forall|j: int| i <= j < n ==> #[trigger] store.slots@[j] == old(store).slots@[j],
            decreases n - i,
        {
            let s = store.slots[i];
            if s.alive {
                match (s.comps.walk, s.comps.dest, s.comps.state, s.comps.pos) {
                    (Some(w), Some(dest), Some(st), Some(p)) => {
                        if st == UnitState::Walk {
                            let hb = w.bounds.translated(p);
                            let top_row = fx_to_units(hb.min.y) as i32;
                            let probe = terrain.rect_collides(hb);
                            let mut c2 = s.comps;
                            match probe {
                                Some(hit) => {
                                    if hit.1 == top_row {
                                        c2.state = Some(UnitState::Climb);
                                    } else {
                                        let step = fx_mul(w.speed, dt.0);
                                        let moved = if dest.0 > p.x {
                                            fx_add(p.x, step)
                                        } else if dest.0 < p.x {
                                            fx_sub(p.x, step)
                                        } else {
                                            p.x
                                        };
                                        c2.pos = Some(Point { x: moved, y: p.y });
                                    }
                                },
                                None => {
                                    let step = fx_mul(w.speed, dt.0);
                                    let moved = if dest.0 > p.x {
                                        fx_add(p.x, step)
                                    } else if dest.0 < p.x {
                                        fx_sub(p.x, step)
                                    } else {
                                        p.x
                                    };
                                    c2.pos = Some(Point { x: moved, y: p.y });
                                },
                            }
                            store.slots.set(i, Slot { gen: s.gen, alive: s.alive, comps: c2 });
                            proof {
                                assert(store.slots@[i as int] == walk_slot(
                                    old(store).slots@[i as int],
                                    *terrain,
                                    dt.0 as int,
                                ));
                                assert forall|k: int|
                                    0 <= k < store.pending_delete@.len() implies handle_ok(
                                    store.slots@,
                                    #[trigger] store.pending_delete@[k],
                                ) by {
                                    assert(handle_ok(old(store).slots@, store.pending_delete@[k]));
                                }
                            }
                        }
                    },
                    _ => {},
                }
            }
            i = i + 1;
        }
    }
}

/// Whether the unit silhouette anchored at (`x`, `y`) touches terrain.
pub open spec fn fall_collides(t: Terrain, bounds: BoundingBox, x: int, y: int) -> bool {
    t.box_probe(bounds.translate_spec(Point { x: x as i64, y: y as i64 })) is Some
}

/// The resting height reached from `y`: move up one world unit at a time
/// until the silhouette is clear of terrain.
pub open spec fn settle_from(t: Terrain, bounds: BoundingBox, x: int, y: int) -> int
    decreases y + FX_LIMIT + 2 * FX_ONE,
{
    if y < -FX_LIMIT - FX_ONE {
        y
    } else if !fall_collides(t, bounds, x, y) {
        y
    } else {
        settle_from(t, bounds, x, y - FX_ONE)
    }
}

/// A silhouette that touches terrain cannot hang arbitrarily far above
/// the raster: its bottom edge reaches at least up to cell row zero.
proof fn lemma_fall_bound(t: Terrain, bounds: BoundingBox, x: int, y: int)
    requires
        t.wf(),
        bounds.wf(),
        -2 * FX_LIMIT <= y <= 2 * FX_LIMIT,
        -2 * FX_LIMIT <= x <= 2 * FX_LIMIT,
        fall_collides(t, bounds, x, y),
    ensures
        y >= -FX_LIMIT - FX_ONE + 1,
{
    let hb = bounds.translate_spec(Point { x: x as i64, y: y as i64 });
    crate::fixed::lemma_cell_bounds(hb.min.x as int);
    crate::fixed::lemma_cell_bounds(hb.max.x as int);
    crate::fixed::lemma_cell_bounds(hb.min.y as int);
    crate::fixed::lemma_cell_bounds(hb.max.y as int);
    t.lemma_rect_hit_props(
        tdiv(hb.min.y as int, FX_ONE as int),
        tdiv(hb.max.y as int, FX_ONE as int),
        tdiv(hb.min.x as int, FX_ONE as int),
        tdiv(hb.max.x as int, FX_ONE as int),
    );
    let hit = t.box_probe(hb)->0;
    assert(0 <= hit.1 as int);
    assert(tdiv(hb.max.y as int, FX_ONE as int) >= 0);
    if hb.max.y < 0 {
        let a = -(hb.max.y as int);
        crate::fixed::lemma_div_shrinks(a, FX_ONE as int);
        assert(a / (FX_ONE as int) == 0);
        assert(a < FX_ONE) by (nonlinear_arith)
            requires
                a >= 0,
                a / (FX_ONE as int) == 0,
        ;
    }
    assert(hb.max.y as int >= -(FX_ONE as int) + 1);
}

/// Probe the silhouette anchored at (`x`, `y`) against the terrain.
fn probe_at(terrain: &Terrain, bounds: BoundingBox, x: i64, y: i64) -> (r: bool)
    requires
        terrain.wf(),
        bounds.wf(),
        -FX_LIMIT - 2 * FX_ONE <= x <= FX_LIMIT + 2 * FX_ONE,
        -FX_LIMIT - 2 * FX_ONE <= y <= FX_LIMIT + 2 * FX_ONE,
    ensures
        r == fall_collides(*terrain, bounds, x as int, y as int),
{
    terrain.rect_collides(bounds.translated(Point { x, y })).is_some()
}

/// One unit's settling step: nudged down a world unit, then clamped back
/// up onto the topmost clear height.
pub open spec fn fall_step(c: Components, t: Terrain) -> Components {
    if c.walk is Some && c.pos is Some {
        let w = c.walk->0;
        let p = c.pos->0;
        let rest = settle_from(t, w.bounds, p.x as int, fx_clamp(p.y + FX_ONE));
        Components { pos: Some(Point { x: p.x, y: fx_clamp(rest) as i64 }), ..c }
    } else {
        c
    }
}

/// A slot after the settling system visited it.
pub open spec fn fall_slot(s: Slot, t: Terrain) -> Slot {
    Slot { gen: s.gen, alive: s.alive, comps: if s.alive {
        fall_step(s.comps, t)
    } else {
        s.comps
    } }
}

/// Snaps every unit down onto the terrain surface beneath it.
pub struct UnitFallSystem;

impl UnitFallSystem {
    /// Visit every live entity and apply its settling step.
    pub fn run(&mut self, terrain: &Terrain, store: &mut Store)
        requires
            terrain.wf(),
            old(store).wf(),
        ensures
            final(store).wf(),
            final(store).slots@.len() == old(store).slots@.len(),
            final(store).pending_delete@ == old(store).pending_delete@,
            final(store).pending_create@ == old(store).pending_create@,
            forall|i: int|
                0 <= i < old(store).slots@.len() ==> #[trigger] final(store).slots@[i]
                    == fall_slot(old(store).slots@[i], *terrain),
    {
        let n = store.slots.len();
        let mut i: usize = 0;
        while i < n
            invariant
                i <= n,
                store.slots@.len() == n,
                store.pending_delete@ == old(store).pending_delete@,
                store.pending_create@ == old(store).pending_create@,
                store.wf(),
                forall|j: int|
                    0 <= j < i ==> #[trigger] store.slots@[j] == fall_slot(
                        old(store).slots@[j],
                        *terrain,
                    ),
                forall|j: int| i <= j < n ==> #[trigger] store.slots@[j] == old(store).slots@[j],
            decreases n - i,
        {
            let s = store.slots[i];
            if s.alive {
                match (s.comps.walk, s.comps.pos) {
                    (Some(w), Some(p)) => {
                        let mut y: i64 = fx_add(p.y, FX_ONE);
                        let ghost y0 = y as int;
                        while probe_at(terrain, w.bounds, p.x, y)
                            invariant
                                -FX_LIMIT - 2 * FX_ONE <= y <= FX_LIMIT,
                                settle_from(*terrain, w.bounds, p.x as int, y0) == settle_from(
                                    *terrain,
                                    w.bounds,
                                    p.x as int,
                                    y as int,
                                ),
                            decreases y + FX_LIMIT + 2 * FX_ONE,
                        {
                            proof {
                                lemma_fall_bound(*terrain, w.bounds, p.x as int, y as int);
                            }
                            y = y - FX_ONE;
                        }
                        let rest = fx_clamp_val(y);
                        let mut c2 = s.comps;
                        c2.pos = Some(Point { x: p.x, y: rest });
                        store.slots.set(i, Slot { gen: s.gen, alive: s.alive, comps: c2 });
                        proof {
                            assert(store.slots@[i as int] == fall_slot(
                                old(store).slots@[i as int],
                                *terrain,
                            ));
                            assert forall|k: int|
                                0 <= k < store.pending_delete@.len() implies handle_ok(
                                store.slots@,
                                #[trigger] store.pending_delete@[k],
                            ) by {
                                assert(handle_ok(old(store).slots@, store.pending_delete@[k]));
                            }
                        }
                    },
                    _ => {},
                }
            }
            i = i + 1;
        }
    }
}

/// Placeholder for pairwise unit blocking. The observed design probes
/// unit pairs but commits no change; the system therefore leaves the
/// store exactly as it found it.
pub struct UnitCollideSystem;

impl UnitCollideSystem {
    pub fn run(&mut self, store: &mut Store)
        requires
            old(store).wf(),
        ensures
            *final(store) == *old(store),
    {
    }
}

} // verus!
