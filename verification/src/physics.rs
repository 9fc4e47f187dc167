//! Shared physics resources and the motion components: velocity, frame
//! delta-time, gravity, damage payloads, crater-mask references and the
//! short-lived pixel particles.

use vstd::prelude::*;

verus! {

use crate::fixed::{FX_ONE, fx_add, fx_clamp, fx_in_range, fx_mul, tdiv};
use crate::geom::{boxes_intersect, Point};
use crate::store::{Components, Entity, Slot, Store, handle_ok};
use crate::terrain::{
    MaskBuffer, Terrain, bresenham_points, cells_with_pixel, line_hit_from, stamped_cells,
};
use crate::unit::{Faction, Health};

/// Velocity in fixed-point world units per second.
#[derive(Clone, Copy, Debug, PartialEq, Eq, Structural)]
pub struct Velocity {
    pub x: i64,
    pub y: i64,
}

impl Velocity {
    pub open spec fn wf(self) -> bool {
        fx_in_range(self.x as int) && fx_in_range(self.y as int)
    }

    pub fn new(x: i64, y: i64) -> (r: Velocity)
        requires
            fx_in_range(x as int),
            fx_in_range(y as int),
        ensures
            r == (Velocity { x, y }),
    {
        Velocity { x, y }
    }
}

/// Seconds elapsed since the previous frame, in fixed-point.
#[derive(Clone, Copy, Debug, PartialEq, Eq, Structural)]
pub struct DeltaTime(pub i64);

impl DeltaTime {
    pub open spec fn wf(self) -> bool {
        0 <= self.0 && fx_in_range(self.0 as int)
    }

    pub fn new(time: i64) -> (r: DeltaTime)
        requires
            0 <= time,
            fx_in_range(time as int),
        ensures
            r == DeltaTime(time),
    {
        DeltaTime(time)
    }

    pub fn to_seconds(&self) -> (r: i64)
        ensures
            r == self.0,
    {
        self.0
    }
}

/// Downward acceleration in fixed-point world units per second squared;
/// positive pulls toward larger `y`.
#[derive(Clone, Copy, Debug, PartialEq, Eq, Structural)]
pub struct Gravity(pub i64);

impl Gravity {
    pub open spec fn wf(self) -> bool {
        0 <= self.0 && fx_in_range(self.0 as int)
    }
}

/// A projectile's damage payload.
#[derive(Clone, Copy, Debug, PartialEq, Eq, Structural)]
pub struct Damage(pub i64);

/// Reference into the loaded crater masks, carried by a projectile.
#[derive(Clone, Copy, Debug, PartialEq, Eq, Structural)]
pub struct MaskId(pub usize);

/// A decorative pixel: falls under gravity, marks the terrain where it
/// lands, and expires after `life` seconds regardless.
#[derive(Clone, Copy, Debug, PartialEq, Eq, Structural)]
pub struct PixelParticle {
    pub color: u32,
    pub life: i64,
    /// Where the particle was at the end of the previous frame; the
    /// terrain probe walks the segment from there to the new position.
    pub prev: Point,
}

impl PixelParticle {
    pub open spec fn wf(self) -> bool {
        fx_in_range(self.life as int) && self.prev.wf()
    }

    pub fn new(color: u32, life: i64, prev: Point) -> (r: PixelParticle)
        requires
            fx_in_range(life as int),
            prev.wf(),
        ensures
            r == (PixelParticle { color, life, prev }),
    {
        PixelParticle { color, life, prev }
    }
}

/// Explicit Euler: the position advanced by the old velocity.
pub open spec fn integrate_pos(p: Point, v: Velocity, dt: int) -> Point {
    Point {
        x: fx_clamp(p.x + fx_clamp(tdiv(v.x * dt, FX_ONE as int))) as i64,
        y: fx_clamp(p.y + fx_clamp(tdiv(v.y * dt, FX_ONE as int))) as i64,
    }
}

/// Explicit Euler: gravity added to the vertical velocity.
pub open spec fn integrate_vel(v: Velocity, dt: int, g: int) -> Velocity {
    Velocity { x: v.x, y: fx_clamp(v.y + fx_clamp(tdiv(g * dt, FX_ONE as int))) as i64 }
}

/// One Euler step under gravity.
pub fn integrate(p: Point, v: Velocity, dt: i64, g: i64) -> (r: (Point, Velocity))
    requires
        p.wf(),
        v.wf(),
        0 <= dt && fx_in_range(dt as int),
        0 <= g && fx_in_range(g as int),
    ensures
        r.0 == integrate_pos(p, v, dt as int),
        r.1 == integrate_vel(v, dt as int, g as int),
        r.0.wf(),
        r.1.wf(),
{
    let nx = fx_add(p.x, fx_mul(v.x, dt));
    let ny = fx_add(p.y, fx_mul(v.y, dt));
    let nvy = fx_add(v.y, fx_mul(g, dt));
    (Point { x: nx, y: ny }, Velocity { x: v.x, y: nvy })
}

/// Raster cells plus the store pieces the terrain-coupled folds rewrite.
pub type RasterState = (Seq<u32>, Seq<Slot>, Seq<Entity>);

/// Whether slot `i` holds a live pixel particle in motion.
pub open spec fn particle_guard(slots: Seq<Slot>, i: int) -> bool {
    &&& 0 <= i < slots.len()
    &&& slots[i].alive
    &&& slots[i].comps.pos is Some
    &&& slots[i].comps.vel is Some
    &&& slots[i].comps.particle is Some
}

/// One particle's frame: integrate under gravity; where the segment from
/// the new position back to last frame's position crosses terrain, write
/// the particle's color into that cell for good and queue the particle
/// for deletion; and decrement its remaining life by `dt`, queueing
/// deletion on expiry regardless of any collision.
pub open spec fn particle_step(
    st: RasterState,
    w: int,
    h: int,
    i: int,
    dt: int,
    g: int,
) -> RasterState {
    let cells = st.0;
    let slots = st.1;
    let dels = st.2;
    let s = slots[i];
    let p = s.comps.pos->0;
    let v = s.comps.vel->0;
    let par = s.comps.particle->0;
    let np = integrate_pos(p, v, dt);
    let nv = integrate_vel(v, dt, g);
    let hit = line_hit_from(cells, w, h, bresenham_points(np.cell_of(), par.prev.cell_of()), 0);
    let cells1 = match hit {
        Some(pt) => cells_with_pixel(cells, w, pt.0 as int, pt.1 as int, par.color),
        None => cells,
    };
    let dels1 = if hit is Some {
        dels.push(Entity { index: i as usize, gen: s.gen })
    } else {
        dels
    };
    let life1 = fx_clamp(par.life - dt);
    let dels2 = if life1 < 0 {
        dels1.push(Entity { index: i as usize, gen: s.gen })
    } else {
        dels1
    };
    let slots1 = slots.update(
        i,
        Slot {
            gen: s.gen,
            alive: s.alive,
            comps: Components {
                pos: Some(np),
                vel: Some(nv),
                particle: Some(
                    PixelParticle { color: par.color, life: life1 as i64, prev: np },
                ),
                ..s.comps
            },
        },
    );
    (cells1, slots1, dels2)
}

/// The particle frames of slots `0..n`, in order.
pub open spec fn particle_fold(
    st: RasterState,
    w: int,
    h: int,
    dt: int,
    g: int,
    n: int,
) -> RasterState
    decreases n,
{
    if n <= 0 {
        st
    } else {
        let prev = particle_fold(st, w, h, dt, g, n - 1);
        if particle_guard(prev.1, n - 1) {
            particle_step(prev, w, h, n - 1, dt, g)
        } else {
            prev
        }
    }
}

/// Whether slot `i` holds a live ballistic projectile in motion.
pub open spec fn projectile_motion_guard(slots: Seq<Slot>, i: int) -> bool {
    &&& 0 <= i < slots.len()
    &&& slots[i].alive
    &&& slots[i].comps.projectile
    &&& slots[i].comps.pos is Some
    &&& slots[i].comps.vel is Some
}

/// One projectile's motion frame: integrate under gravity, then — unless
/// the projectile is exempted by its `ignore_collision` flag — probe the
/// segment from the new position back to the old one against the
/// terrain. On impact the projectile is queued for deletion, and if it
/// carries a crater-mask reference into the loaded masks, that mask is
/// stamped centered on the impact cell in the same frame.
pub open spec fn projectile_step(
    st: RasterState,
    w: int,
    h: int,
    masks: Seq<MaskBuffer>,
    i: int,
    dt: int,
    g: int,
) -> RasterState {
    let cells = st.0;
    let slots = st.1;
    let dels = st.2;
    let s = slots[i];
    let p = s.comps.pos->0;
    let v = s.comps.vel->0;
    let np = integrate_pos(p, v, dt);
    let nv = integrate_vel(v, dt, g);
    let slots1 = slots.update(
        i,
        Slot {
            gen: s.gen,
            alive: s.alive,
            comps: Components { pos: Some(np), vel: Some(nv), ..s.comps },
        },
    );
    if s.comps.ignore_collision {
        (cells, slots1, dels)
    } else {
        match line_hit_from(cells, w, h, bresenham_points(np.cell_of(), p.cell_of()), 0) {
            Some(pt) => {
                let dels1 = dels.push(Entity { index: i as usize, gen: s.gen });
                let cells1 = match s.comps.mask {
                    Some(mid) => if mid.0 < masks.len() {
                        stamped_cells(
                            cells,
                            w,
                            masks[mid.0 as int],
                            pt.0 - masks[mid.0 as int].width / 2,
                            pt.1 - masks[mid.0 as int].height / 2,
                        )
                    } else {
                        cells
                    },
                    None => cells,
                };
                (cells1, slots1, dels1)
            },
            None => (cells, slots1, dels),
        }
    }
}

/// The projectile motion frames of slots `0..n`, in order.
pub open spec fn projectile_fold(
    st: RasterState,
    w: int,
    h: int,
    masks: Seq<MaskBuffer>,
    dt: int,
    g: int,
    n: int,
) -> RasterState
    decreases n,
{
    if n <= 0 {
        st
    } else {
        let prev = projectile_fold(st, w, h, masks, dt, g, n - 1);
        if projectile_motion_guard(prev.1, n - 1) {
            projectile_step(prev, w, h, masks, n - 1, dt, g)
        } else {
            prev
        }
    }
}

/// Integrates every projectile and resolves its terrain impact: the
/// projectile dies where it strikes ground, cratering the terrain when
/// it carries a mask.
pub struct ProjectileSystem;

impl ProjectileSystem {
    pub fn run(
        &mut self,
        dt: DeltaTime,
        grav: Gravity,
        terrain: &mut Terrain,
        masks: &Vec<MaskBuffer>,
        store: &mut Store,
    )
        requires
            dt.wf(),
            grav.wf(),
            old(terrain).wf(),
            old(store).wf(),
            forall|k: int| 0 <= k < masks@.len() ==> (#[trigger] masks@[k]).wf(),
        ensures
            final(terrain).wf(),
            final(terrain).width == old(terrain).width,
            final(terrain).height == old(terrain).height,
            final(store).wf(),
            final(store).slots@.len() == old(store).slots@.len(),
            final(store).pending_create@ == old(store).pending_create@,
            ({
                let st = projectile_fold(
                    (old(terrain).buffer@, old(store).slots@, old(store).pending_delete@),
                    old(terrain).width as int,
                    old(terrain).height as int,
                    masks@,
                    dt.0 as int,
                    grav.0 as int,
                    old(store).slots@.len() as int,
                );
                &&& final(terrain).buffer@ == st.0
                &&& final(store).slots@ == st.1
                &&& final(store).pending_delete@ == st.2
            }),
    {
        let ghost st0 = (terrain.buffer@, store.slots@, store.pending_delete@);
        let n = store.slots.len();
        let mut i: usize = 0;
        while i < n
            invariant
                i <= n,
                terrain.wf(),
                terrain.width == old(terrain).width,
                terrain.height == old(terrain).height,
                store.wf(),
                store.slots@.len() == n,
                store.pending_create@ == old(store).pending_create@,
                (terrain.buffer@, store.slots@, store.pending_delete@) == projectile_fold(
                    st0,
                    old(terrain).width as int,
                    old(terrain).height as int,
                    masks@,
                    dt.0 as int,
                    grav.0 as int,
                    i as int,
                ),
            decreases n - i,
        {
            let s = store.slots[i];
            if s.alive && s.comps.projectile {
                match (s.comps.pos, s.comps.vel) {
                    (Some(p), Some(v)) => {
                        let (np, nv) = integrate(p, v, dt.0, grav.0);
                        let mut c2 = s.comps;
                        c2.pos = Some(np);
                        c2.vel = Some(nv);
                        let ghost before_set = store.slots@;
                        store.slots.set(i, Slot { gen: s.gen, alive: s.alive, comps: c2 });
                        proof {
                            assert forall|k: int|
                                0 <= k < store.pending_delete@.len() implies handle_ok(
                                store.slots@,
                                #[trigger] store.pending_delete@[k],
                            ) by {
                                assert(handle_ok(before_set, store.pending_delete@[k]));
                            }
                        }
                        if !s.comps.ignore_collision {
                            match terrain.line_collides(np.as_i32(), p.as_i32()) {
                                Some(pt) => {
                                    store.delete_later(Entity { index: i, gen: s.gen });
                                    match s.comps.mask {
                                        Some(mid) => {
                                            if mid.0 < masks.len() {
                                                terrain.apply_mask(&masks[mid.0], pt);
                                            }
                                        },
                                        None => {},
                                    }
                                },
                                None => {},
                            }
                        }
                    },
                    _ => {},
                }
            }
            i = i + 1;
        }
    }
}

/// Store pieces the projectile/unit sweep rewrites.
pub type SweepState = (Seq<Slot>, Seq<Entity>);

/// Whether slot `i` holds a live armed projectile that takes part in the
/// unit sweep.
pub open spec fn projectile_hit_guard(slots: Seq<Slot>, i: int) -> bool {
    &&& 0 <= i < slots.len()
    &&& slots[i].alive
    &&& slots[i].comps.projectile
    &&& !slots[i].comps.ignore_collision
    &&& slots[i].comps.pos is Some
    &&& slots[i].comps.bb is Some
    &&& slots[i].comps.damage is Some
    &&& slots[i].comps.faction is Some
}

/// Whether the unit in slot `j` can take projectile `pi`'s hit: live, of
/// the opposing faction, with health, and its world-space box overlaps
/// the projectile's.
pub open spec fn victim_of(slots: Seq<Slot>, pi: int, j: int) -> bool {
    let pr = slots[pi];
    let u = slots[j];
    &&& u.alive
    &&& u.comps.faction == Some((pr.comps.faction->0).opposite_of())
    &&& u.comps.pos is Some
    &&& u.comps.bb is Some
    &&& u.comps.health is Some
    &&& boxes_intersect(
        pr.comps.bb->0.translate_spec(pr.comps.pos->0),
        u.comps.bb->0.translate_spec(u.comps.pos->0),
    )
}

/// The first slot at or after `j` that qualifies as projectile `pi`'s
/// victim, in iteration order.
pub open spec fn victim_from(slots: Seq<Slot>, pi: int, j: int) -> Option<int>
    decreases slots.len() - j,
{
    if j < 0 || j >= slots.len() {
        None
    } else if victim_of(slots, pi, j) {
        Some(j)
    } else {
        victim_from(slots, pi, j + 1)
    }
}

/// One projectile's unit sweep: the first intersecting opposing unit —
/// and only that one — takes the projectile's damage through the shared
/// health reducer, and the projectile is consumed.
pub open spec fn projectile_hit_step(st: SweepState, pi: int, dmg: int) -> SweepState {
    let slots = st.0;
    let dels = st.1;
    match victim_from(slots, pi, 0) {
        Some(j) => {
            let u = slots[j];
            let h1 = crate::fixed::fx_clamp((u.comps.health->0).0 - dmg);
            let slots1 = slots.update(
                j,
                Slot {
                    gen: u.gen,
                    alive: u.alive,
                    comps: Components { health: Some(Health(h1 as i64)), ..u.comps },
                },
            );
            let dels1 = if h1 <= 0 {
                dels.push(Entity { index: j as usize, gen: u.gen })
            } else {
                dels
            };
            (slots1, dels1.push(Entity { index: pi as usize, gen: slots[pi].gen }))
        },
        None => st,
    }
}

/// The unit sweeps of projectiles `0..n`, in order.
pub open spec fn projectile_hit_fold(st: SweepState, n: int) -> SweepState
    decreases n,
{
    if n <= 0 {
        st
    } else {
        let prev = projectile_hit_fold(st, n - 1);
        if projectile_hit_guard(prev.0, n - 1) {
            projectile_hit_step(prev, n - 1, ((prev.0[n - 1].comps.damage->0).0) as int)
        } else {
            prev
        }
    }
}

/// Sweeps every projectile against the living units of the opposing
/// faction; at most one unit takes each projectile's damage per frame,
/// the first one in iteration order.
pub struct ProjectileCollisionSystem;

impl ProjectileCollisionSystem {
    pub fn run(&mut self, store: &mut Store)
        requires
            old(store).wf(),
        ensures
            final(store).wf(),
            final(store).slots@.len() == old(store).slots@.len(),
            final(store).pending_create@ == old(store).pending_create@,
            ({
                let st = projectile_hit_fold(
                    (old(store).slots@, old(store).pending_delete@),
                    old(store).slots@.len() as int,
                );
                &&& final(store).slots@ == st.0
                &&& final(store).pending_delete@ == st.1
            }),
    {
        let ghost st0 = (store.slots@, store.pending_delete@);
        let n = store.slots.len();
        let mut i: usize = 0;
        while i < n
            invariant
                i <= n,
                store.wf(),
                store.slots@.len() == n,
                store.pending_create@ == old(store).pending_create@,
                (store.slots@, store.pending_delete@) == projectile_hit_fold(st0, i as int),
            decreases n - i,
        {
            let s = store.slots[i];
            if s.alive && s.comps.projectile && !s.comps.ignore_collision {
                match (s.comps.pos, s.comps.bb, s.comps.damage, s.comps.faction) {
                    (Some(pp), Some(pb), Some(dmg), Some(pf)) => {
                        let proj_box = pb.translated(pp);
                        let want = pf.opposite();
                        let mut victim: usize = n;
                        let mut j: usize = 0;
                        while j < n && victim == n
                            invariant
                                j <= n,
                                victim == n || (victim < j && victim_from(store.slots@, i as int, 0)
                                    == Some(victim as int) && victim_of(
                                    store.slots@,
                                    i as int,
                                    victim as int,
                                )),
                                victim == n ==> victim_from(store.slots@, i as int, 0)
                                    == victim_from(store.slots@, i as int, j as int),
                            decreases n - j,
                        {
                            let u = store.slots[j];
                            if u.alive {
                                match (u.comps.faction, u.comps.pos, u.comps.bb, u.comps.health) {
                                    (Some(uf), Some(up), Some(ub), Some(_h)) => {
                                        if uf == want {
                                            let u_box = ub.translated(up);
                                            if proj_box.intersects(&u_box) {
                                                victim = j;
                                            }
                                        }
                                    },
                                    _ => {},
                                }
                            }
                            j = j + 1;
                        }
                        if victim < n {
                            let u = store.slots[victim];
                            crate::unit::reduce_unit_health(
                                store,
                                Entity { index: victim, gen: u.gen },
                                dmg.0,
                            );
                            store.delete_later(Entity { index: i, gen: s.gen });
                        }
                    },
                    _ => {},
                }
            }
            i = i + 1;
        }
    }
}

/// Moves every pixel particle, marks the terrain where one lands, and
/// retires the expired ones.
pub struct ParticleSystem;

impl ParticleSystem {
    pub fn run(
        &mut self,
        dt: DeltaTime,
        grav: Gravity,
        terrain: &mut Terrain,
        store: &mut Store,
    )
        requires
            dt.wf(),
            grav.wf(),
            old(terrain).wf(),
            old(store).wf(),
        ensures
            final(terrain).wf(),
            final(terrain).width == old(terrain).width,
            final(terrain).height == old(terrain).height,
            final(store).wf(),
            final(store).slots@.len() == old(store).slots@.len(),
            final(store).pending_create@ == old(store).pending_create@,
            ({
                let st = particle_fold(
                    (old(terrain).buffer@, old(store).slots@, old(store).pending_delete@),
                    old(terrain).width as int,
                    old(terrain).height as int,
                    dt.0 as int,
                    grav.0 as int,
                    old(store).slots@.len() as int,
                );
                &&& final(terrain).buffer@ == st.0
                &&& final(store).slots@ == st.1
                &&& final(store).pending_delete@ == st.2
            }),
    {
        let ghost st0 = (terrain.buffer@, store.slots@, store.pending_delete@);
        let n = store.slots.len();
        let mut i: usize = 0;
        while i < n
            invariant
                i <= n,
                terrain.wf(),
                terrain.width == old(terrain).width,
                terrain.height == old(terrain).height,
                store.wf(),
                store.slots@.len() == n,
                store.pending_create@ == old(store).pending_create@,
                (terrain.buffer@, store.slots@, store.pending_delete@) == particle_fold(
                    st0,
                    old(terrain).width as int,
                    old(terrain).height as int,
                    dt.0 as int,
                    grav.0 as int,
                    i as int,
                ),
            decreases n - i,
        {
            let s = store.slots[i];
            if s.alive {
                match (s.comps.pos, s.comps.vel, s.comps.particle) {
                    (Some(p), Some(v), Some(par)) => {
                        let (np, nv) = integrate(p, v, dt.0, grav.0);
                        match terrain.line_collides(np.as_i32(), par.prev.as_i32()) {
                            Some(pt) => {
                                terrain.draw_pixel((pt.0 as usize, pt.1 as usize), par.color);
                                store.delete_later(Entity { index: i, gen: s.gen });
                            },
                            None => {},
                        }
                        let life1 = crate::fixed::fx_sub(par.life, dt.0);
                        if life1 < 0 {
                            store.delete_later(Entity { index: i, gen: s.gen });
                        }
                        let mut c2 = s.comps;
                        c2.pos = Some(np);
                        c2.vel = Some(nv);
                        c2.particle = Some(
                            PixelParticle { color: par.color, life: life1, prev: np },
                        );
                        let ghost before_set = store.slots@;
                        store.slots.set(i, Slot { gen: s.gen, alive: s.alive, comps: c2 });
                        proof {
                            assert forall|k: int|
                                0 <= k < store.pending_delete@.len() implies handle_ok(
                                store.slots@,
                                #[trigger] store.pending_delete@[k],
                            ) by {
                                assert(handle_ok(before_set, store.pending_delete@[k]));
                            }
                        }
                    },
                    _ => {},
                }
            }
            i = i + 1;
        }
    }
}

} // verus!
