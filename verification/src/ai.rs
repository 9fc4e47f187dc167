//! Combat: melee exchanges between overlapping units, and turret
//! targeting, ballistic solving and firing.

use vstd::prelude::*;

use rand::RngExt;

verus! {

use crate::fixed::{
    FX_LIMIT, FX_ONE, fx_add, fx_clamp, fx_div, fx_in_range, fx_mul, fx_sub, tdiv,
};
use crate::geom::{boxes_intersect, Point};
use crate::physics::{DeltaTime, Gravity, PixelParticle, Velocity};
use crate::store::{Components, Entity, Slot, Store, handle_ok};
use crate::unit::{Faction, Health, reduce_unit_health};

/// A ranged attacker. While `delay_left` is positive the turret idles;
/// once it expires the turret picks a target, solves the launch velocity
/// for its fixed flight time, and fires if the shot is feasible.
#[derive(Clone, Copy, Debug, PartialEq, Eq, Structural)]
pub struct Turret {
    /// Seconds between shots.
    pub delay: i64,
    /// A shot is only taken when the launch speed stays below this.
    pub max_strength: i64,
    /// Fixed flight time the launch velocity is solved for.
    pub flight_time: i64,
    /// Each velocity component is perturbed uniformly within this bound.
    pub strength_variation: i64,
    /// Seconds until the turret may act again.
    pub delay_left: i64,
}

impl Turret {
    pub open spec fn wf(self) -> bool {
        &&& fx_in_range(self.delay as int)
        &&& 0 <= self.max_strength && fx_in_range(self.max_strength as int)
        &&& 0 < self.flight_time && fx_in_range(self.flight_time as int)
        &&& 0 <= self.strength_variation && fx_in_range(self.strength_variation as int)
        &&& fx_in_range(self.delay_left as int)
    }

    pub fn new(delay: i64, max_strength: i64, strength_variation: i64, flight_time: i64) -> (r:
        Turret)
        requires
            fx_in_range(delay as int),
            0 <= max_strength && fx_in_range(max_strength as int),
            0 < flight_time && fx_in_range(flight_time as int),
            0 <= strength_variation && fx_in_range(strength_variation as int),
        ensures
            r == (Turret { delay, max_strength, flight_time, strength_variation, delay_left: 0 }),
            r.wf(),
    {
        Turret { delay, max_strength, flight_time, strength_variation, delay_left: 0 }
    }
}

impl Default for Turret {
    /// A stock turret: five seconds between shots, three seconds of
    /// flight, launch speed capped at 210 world units per second, and
    /// ten units of perturbation.
    fn default() -> (r: Turret)
        ensures
            r == (Turret {
                delay: 5000,
                max_strength: 210000,
                flight_time: 3000,
                strength_variation: 10000,
                delay_left: 0,
            }),
            r.wf(),
    {
        Turret {
            delay: 5000,
            max_strength: 210000,
            flight_time: 3000,
            strength_variation: 10000,
            delay_left: 0,
        }
    }
}

/// A hand-to-hand attacker: damage per blow, seconds between blows, and
/// the time left until the next blow.
#[derive(Clone, Copy, Debug, PartialEq, Eq, Structural)]
pub struct Melee {
    pub dmg: i64,
    pub hitrate: i64,
    pub cooldown: i64,
}

impl Melee {
    pub open spec fn wf(self) -> bool {
        &&& 0 <= self.dmg && fx_in_range(self.dmg as int)
        &&& fx_in_range(self.hitrate as int)
        &&& fx_in_range(self.cooldown as int)
    }

    pub fn new(dmg: i64, hitrate: i64) -> (r: Melee)
        requires
            0 <= dmg && fx_in_range(dmg as int),
            fx_in_range(hitrate as int),
        ensures
            r == (Melee { dmg, hitrate, cooldown: 0 }),
            r.wf(),
    {
        Melee { dmg, hitrate, cooldown: 0 }
    }
}

/// Store pieces a combat fold rewrites: the slots and the two queues.
pub type CombatState = (Seq<Slot>, Seq<Entity>, Seq<Components>);

/// The blood splash spawned at a melee victim's position.
pub open spec fn blood_comps(p: Point) -> Components {
    Components {
        pos: Some(p),
        vel: Some(Velocity { x: -10000i64, y: -10000i64 }),
        particle: Some(PixelParticle { color: 0xFF0000, life: 10000i64, prev: p }),
        ..Components::empty()
    }
}

/// One blow attempt by the entity in slot `ai` against the entity in
/// slot `vi`, with the pair already known to be in contact. The
/// attacker's cooldown ticks down by `dt`; when it expires the blow
/// lands: the victim takes the attacker's damage through the shared
/// health reducer, the cooldown resets to the attacker's hit rate, and a
/// blood particle is queued at the victim's position. An attacker
/// without a melee component does nothing.
pub open spec fn melee_attack(st: CombatState, ai: int, vi: int, dt: int) -> CombatState {
    let slots = st.0;
    let dels = st.1;
    let crs = st.2;
    let a = slots[ai];
    if a.comps.melee is Some {
        let m = a.comps.melee->0;
        let cd = fx_clamp(m.cooldown - dt);
        if cd <= 0 {
            let slots1 = slots.update(
                ai,
                Slot {
                    gen: a.gen,
                    alive: a.alive,
                    comps: Components {
                        melee: Some(Melee { dmg: m.dmg, hitrate: m.hitrate, cooldown: m.hitrate }),
                        ..a.comps
                    },
                },
            );
            let v = slots1[vi];
            let hurt = v.alive && v.comps.health is Some;
            let h1 = fx_clamp((v.comps.health->0).0 - m.dmg);
            let slots2 = if hurt {
                slots1.update(
                    vi,
                    Slot {
                        gen: v.gen,
                        alive: v.alive,
                        comps: Components { health: Some(Health(h1 as i64)), ..v.comps },
                    },
                )
            } else {
                slots1
            };
            let dels2 = if hurt && h1 <= 0 {
                dels.push(Entity { index: vi as usize, gen: v.gen })
            } else {
                dels
            };
            let crs2 = if v.comps.pos is Some {
                crs.push(blood_comps(v.comps.pos->0))
            } else {
                crs
            };
            (slots2, dels2, crs2)
        } else {
            (
                slots.update(
                    ai,
                    Slot {
                        gen: a.gen,
                        alive: a.alive,
                        comps: Components {
                            melee: Some(
                                Melee { dmg: m.dmg, hitrate: m.hitrate, cooldown: cd as i64 },
                            ),
                            ..a.comps
                        },
                    },
                ),
                dels,
                crs,
            )
        }
    } else {
        st
    }
}

/// Whether the slots at `ai` and `ei` hold a live ally/enemy pair whose
/// world-space boxes overlap.
pub open spec fn melee_contact(slots: Seq<Slot>, ai: int, ei: int) -> bool {
    let a = slots[ai];
    let e = slots[ei];
    &&& a.alive && e.alive
    &&& a.comps.faction == Some(Faction::Ally)
    &&& e.comps.faction == Some(Faction::Enemy)
    &&& a.comps.pos is Some && a.comps.bb is Some
    &&& e.comps.pos is Some && e.comps.bb is Some
    &&& boxes_intersect(
        a.comps.bb->0.translate_spec(a.comps.pos->0),
        e.comps.bb->0.translate_spec(e.comps.pos->0),
    )
}

/// One ally/enemy pair check: while the pair is in contact both sides
/// trade blow attempts, ally first, each evaluated independently in the
/// same frame.
pub open spec fn melee_pair(st: CombatState, ai: int, ei: int, dt: int) -> CombatState {
    if melee_contact(st.0, ai, ei) {
        melee_attack(melee_attack(st, ai, ei, dt), ei, ai, dt)
    } else {
        st
    }
}

/// The pair checks of ally slot `ai` against enemy slots `0..m`, in
/// order.
pub open spec fn melee_inner(st: CombatState, ai: int, m: int, dt: int) -> CombatState
    decreases m,
{
    if m <= 0 {
        st
    } else {
        melee_pair(melee_inner(st, ai, m - 1, dt), ai, m - 1, dt)
    }
}

/// The full melee sweep: every ally slot `0..k` checked against every
/// enemy slot `0..n`, in order.
pub open spec fn melee_sweep(st: CombatState, k: int, n: int, dt: int) -> CombatState
    decreases k,
{
    if k <= 0 {
        st
    } else {
        melee_inner(melee_sweep(st, k - 1, n, dt), k - 1, n, dt)
    }
}

/// One blow attempt, executed: the exact transition `melee_attack`
/// describes.
fn melee_strike(store: &mut Store, ai: usize, vi: usize, dt: i64)
    requires
        old(store).wf(),
        ai < old(store).slots@.len(),
        vi < old(store).slots@.len(),
        ai != vi,
        0 <= dt && fx_in_range(dt as int),
    ensures
        final(store).wf(),
        final(store).slots@.len() == old(store).slots@.len(),
        (final(store).slots@, final(store).pending_delete@, final(store).pending_create@)
            == melee_attack(
            (old(store).slots@, old(store).pending_delete@, old(store).pending_create@),
            ai as int,
            vi as int,
            dt as int,
        ),
{
    let s = store.slots[ai];
    match s.comps.melee {
        Some(m) => {
            let cd = fx_sub(m.cooldown, dt);
            if cd <= 0 {
                let mut c2 = s.comps;
                c2.melee = Some(Melee { dmg: m.dmg, hitrate: m.hitrate, cooldown: m.hitrate });
                store.slots.set(ai, Slot { gen: s.gen, alive: s.alive, comps: c2 });
                proof {
                    assert forall|k: int|
                        0 <= k < store.pending_delete@.len() implies handle_ok(
                        store.slots@,
                        #[trigger] store.pending_delete@[k],
                    ) by {
                        assert(handle_ok(old(store).slots@, store.pending_delete@[k]));
                    }
                }
                let v = store.slots[vi];
                let vh = Entity { index: vi, gen: v.gen };
                reduce_unit_health(store, vh, m.dmg);
                match v.comps.pos {
                    Some(vp) => {
                        let mut blood = Components::new();
                        blood.pos = Some(vp);
                        blood.vel = Some(Velocity { x: -10000, y: -10000 });
                        blood.particle = Some(
                            PixelParticle { color: 0xFF0000, life: 10000, prev: vp },
                        );
                        store.create_later(blood);
                    },
                    None => {},
                }
            } else {
                let mut c2 = s.comps;
                c2.melee = Some(Melee { dmg: m.dmg, hitrate: m.hitrate, cooldown: cd });
                store.slots.set(ai, Slot { gen: s.gen, alive: s.alive, comps: c2 });
                proof {
                    assert forall|k: int|
                        0 <= k < store.pending_delete@.len() implies handle_ok(
                        store.slots@,
                        #[trigger] store.pending_delete@[k],
                    ) by {
                        assert(handle_ok(old(store).slots@, store.pending_delete@[k]));
                    }
                }
            }
        },
        None => {},
    }
}

/// For every unordered ally/enemy pair in contact, both sides trade blow
/// attempts in the same frame: cooldowns tick, expired cooldowns land a
/// blow through the shared health reducer and reset to the attacker's
/// hit rate, and each blow queues a blood particle at its victim.
pub struct MeleeSystem;

impl MeleeSystem {
    pub fn run(&mut self, dt: DeltaTime, store: &mut Store)
        requires
            dt.wf(),
            old(store).wf(),
        ensures
            final(store).wf(),
            final(store).slots@.len() == old(store).slots@.len(),
            ({
                let st = melee_sweep(
                    (old(store).slots@, old(store).pending_delete@, old(store).pending_create@),
                    old(store).slots@.len() as int,
                    old(store).slots@.len() as int,
                    dt.0 as int,
                );
                &&& final(store).slots@ == st.0
                &&& final(store).pending_delete@ == st.1
                &&& final(store).pending_create@ == st.2
            }),
    {
        let ghost st0 = (old(store).slots@, old(store).pending_delete@, old(store).pending_create@);
        let n = store.slots.len();
        let mut i: usize = 0;
        while i < n
            invariant
                i <= n,
                store.wf(),
                store.slots@.len() == n,
                (store.slots@, store.pending_delete@, store.pending_create@) == melee_sweep(
                    st0,
                    i as int,
                    n as int,
                    dt.0 as int,
                ),
            decreases n - i,
        {
            let ghost st_outer = (store.slots@, store.pending_delete@, store.pending_create@);
            let mut j: usize = 0;
            while j < n
                invariant
                    j <= n,
                    i < n,
                    store.wf(),
                    store.slots@.len() == n,
                    (store.slots@, store.pending_delete@, store.pending_create@) == melee_inner(
                        st_outer,
                        i as int,
                        j as int,
                        dt.0 as int,
                    ),
                decreases n - j,
            {
                let sa = store.slots[i];
                let se = store.slots[j];
                let mut contact = false;
                if sa.alive && se.alive {
                    match (sa.comps.faction, se.comps.faction, sa.comps.pos, sa.comps.bb,
                    se.comps.pos, se.comps.bb) {
                        (
                            Some(Faction::Ally),
                            Some(Faction::Enemy),
                            Some(ap),
                            Some(ab),
                            Some(ep),
                            Some(eb),
                        ) => {
                            let a_box = ab.translated(ap);
                            let e_box = eb.translated(ep);
                            contact = a_box.intersects(&e_box);
                        },
                        _ => {},
                    }
                }
                if contact {
                    melee_strike(store, i, j, dt.0);
                    melee_strike(store, j, i, dt.0);
                }
                j = j + 1;
            }
            i = i + 1;
        }
    }
}

/// Squared Euclidean distance between two points, exact.
pub open spec fn dsq(ax: int, ay: int, bx: int, by: int) -> int {
    (ax - bx) * (ax - bx) + (ay - by) * (ay - by)
}

/// The far-away stand-in aimed at when no target qualifies; a shot at it
/// normally exceeds the turret's strength cap, so the turret holds fire.
pub const NO_TARGET: i64 = -1_000_000;

/// The predicted position the turret aims for: scanning slots `0..n` in
/// order, every live unit of the wanted faction that has a position and
/// walking intent is a candidate at its position advanced by
/// `speed * flight_time`; the candidate at the smallest predicted
/// distance from the turret wins, earlier candidates winning ties.
pub open spec fn target_scan(
    slots: Seq<Slot>,
    want: Faction,
    tx: int,
    ty: int,
    ft: int,
    n: int,
) -> (int, int)
    decreases n,
{
    if n <= 0 {
        (NO_TARGET as int, NO_TARGET as int)
    } else {
        let prev = target_scan(slots, want, tx, ty, ft, n - 1);
        let s = slots[n - 1];
        if s.alive && s.comps.faction == Some(want) && s.comps.pos is Some && s.comps.walk
            is Some {
            let p = s.comps.pos->0;
            let w = s.comps.walk->0;
            let px = fx_clamp(p.x + fx_clamp(tdiv(w.speed * ft, FX_ONE as int)));
            let py = p.y as int;
            if dsq(px, py, tx, ty) < dsq(prev.0, prev.1, tx, ty) {
                (px, py)
            } else {
                prev
            }
        } else {
            prev
        }
    }
}

/// Pick the turret's target among the store's live units: the candidate
/// of the wanted faction with the smallest predicted distance.
pub fn select_target(store: &Store, want: Faction, tpos: Point, flight_time: i64) -> (r: (
    i64,
    i64,
))
    requires
        store.wf(),
        tpos.wf(),
        0 < flight_time && fx_in_range(flight_time as int),
    ensures
        (r.0 as int, r.1 as int) == target_scan(
            store.slots@,
            want,
            tpos.x as int,
            tpos.y as int,
            flight_time as int,
            store.slots@.len() as int,
        ),
        fx_in_range(r.0 as int),
        fx_in_range(r.1 as int),
{
    let n = store.slots.len();
    let mut cx: i64 = NO_TARGET;
    let mut cy: i64 = NO_TARGET;
    let mut best: i128 = crate::fixed::dist_sq(cx, cy, tpos.x, tpos.y);
    let mut j: usize = 0;
    while j < n
        invariant
            j <= n,
            fx_in_range(cx as int),
            fx_in_range(cy as int),
            (cx as int, cy as int) == target_scan(
                store.slots@,
                want,
                tpos.x as int,
                tpos.y as int,
                flight_time as int,
                j as int,
            ),
            best as int == dsq(cx as int, cy as int, tpos.x as int, tpos.y as int),
        decreases n - j,
    {
        let s = store.slots[j];
        if s.alive {
            match (s.comps.faction, s.comps.pos, s.comps.walk) {
                (Some(f), Some(p), Some(w)) => {
                    if f == want {
                        let px = fx_add(p.x, fx_mul(w.speed, flight_time));
                        let py = p.y;
                        let d = crate::fixed::dist_sq(px, py, tpos.x, tpos.y);
                        if d < best {
                            cx = px;
                            cy = py;
                            best = d;
                        }
                    }
                },
                _ => {},
            }
        }
        j = j + 1;
    }
    (cx, cy)
}

/// The horizontal launch velocity for a target `dx` away: `dx` over the
/// flight time, plus the sampled perturbation, saturating throughout.
pub open spec fn solve_vx(dx: int, ft: int, p1: int) -> int {
    fx_clamp(fx_clamp(tdiv(dx * FX_ONE, ft)) + p1)
}

/// The vertical launch velocity: `(dy + g*t*t/2) / t` plus the sampled
/// perturbation, with every product and sum truncating and saturating as
/// the fixed-point operations do.
pub open spec fn solve_vy(dy: int, g: int, ft: int, p2: int) -> int {
    let hg = g / 2;
    let a = fx_clamp(tdiv(hg * ft, FX_ONE as int));
    let b = fx_clamp(tdiv(a * ft, FX_ONE as int));
    let num = fx_clamp(dy + b);
    fx_clamp(fx_clamp(tdiv(num * FX_ONE, ft)) + p2)
}

/// A shot is taken only when the launch speed is strictly below the
/// strength cap.
pub open spec fn turret_fires(vx: int, vy: int, max_strength: int) -> bool {
    vx * vx + vy * vy < max_strength * max_strength
}

/// Solve the two launch-velocity components for a target `(dx, dy)` away
/// under gravity `g`, to be reached after exactly `flight_time` seconds,
/// each component perturbed by a sampled offset.
pub fn turret_solve(dx: i64, dy: i64, gravity: i64, flight_time: i64, p1: i64, p2: i64) -> (v: (
    i64,
    i64,
))
    requires
        fx_in_range(dx as int),
        fx_in_range(dy as int),
        0 <= gravity && fx_in_range(gravity as int),
        0 < flight_time && fx_in_range(flight_time as int),
        fx_in_range(p1 as int),
        fx_in_range(p2 as int),
    ensures
        v.0 as int == solve_vx(dx as int, flight_time as int, p1 as int),
        v.1 as int == solve_vy(dy as int, gravity as int, flight_time as int, p2 as int),
        fx_in_range(v.0 as int),
        fx_in_range(v.1 as int),
{
    proof {
        crate::fixed::lemma_div_shrinks(gravity as int, 2);
    }
    let hg: i64 = ((gravity as u64) / 2u64) as i64;
    let a = fx_mul(hg, flight_time);
    let b = fx_mul(a, flight_time);
    let num = fx_add(dy, b);
    let vy = fx_add(fx_div(num, flight_time), p2);
    let vx = fx_add(fx_div(dx, flight_time), p1);
    (vx, vy)
}

/// Relies on `rand::Rng::random_range` over `rand::rng()`: a sample from
/// the inclusive symmetric range; uniform, and it panics only on an
/// empty range, which the bound below rules out. Nothing more is assumed
/// of which value comes back.
#[verifier::external_body]
fn sample_symmetric(bound: i64) -> (r: i64)
    requires
        0 <= bound,
    ensures
        -bound <= r <= bound,
{
    rand::rng().random_range(-bound..=bound)
}

/// Store pieces the turret fold rewrites: the slots and the creation
/// queue.
pub type TurretState = (Seq<Slot>, Seq<Components>);

/// Whether slot `i` holds a complete, live turret: position, faction,
/// bounding box, damage payload, crater mask and sprite all present.
pub open spec fn turret_guard(slots: Seq<Slot>, i: int) -> bool {
    &&& 0 <= i < slots.len()
    &&& slots[i].alive
    &&& slots[i].comps.turret is Some
    &&& slots[i].comps.pos is Some
    &&& slots[i].comps.faction is Some
    &&& slots[i].comps.bb is Some
    &&& slots[i].comps.damage is Some
    &&& slots[i].comps.mask is Some
    &&& slots[i].comps.sprite is Some
}

/// The projectile a firing turret queues: the turret's position, the
/// solved velocity, and the turret's box, damage, mask, sprite and
/// faction.
pub open spec fn projectile_comps(tc: Components, vx: i64, vy: i64) -> Components {
    Components {
        pos: tc.pos,
        vel: Some(Velocity { x: vx, y: vy }),
        bb: tc.bb,
        faction: tc.faction,
        damage: tc.damage,
        mask: tc.mask,
        sprite: tc.sprite,
        projectile: true,
        ..Components::empty()
    }
}

/// One turret's action for the frame, given the two sampled
/// perturbations: tick the delay down and idle while it is positive;
/// otherwise aim at the scanned target, solve the launch velocity, and
/// fire — queueing a projectile and resetting the delay — only if the
/// shot stays below the strength cap. An infeasible shot leaves the
/// delay expired so the turret retries next frame.
pub open spec fn turret_step(st: TurretState, i: int, dt: int, g: int, p: (i64, i64)) -> TurretState {
    let slots = st.0;
    let crs = st.1;
    let s = slots[i];
    let t = s.comps.turret->0;
    let tp = s.comps.pos->0;
    let dl = fx_clamp(t.delay_left - dt);
    if dl > 0 {
        (slots.update(i, slot_with_turret(s, Turret { delay_left: dl as i64, ..t })), crs)
    } else {
        let want = (s.comps.faction->0).opposite_of();
        let c = target_scan(slots, want, tp.x as int, tp.y as int, t.flight_time as int, slots.len() as int);
        let dx = fx_clamp(c.0 - tp.x);
        let dy = fx_clamp(c.1 - tp.y);
        let vx = solve_vx(dx, t.flight_time as int, p.0 as int);
        let vy = solve_vy(dy, g, t.flight_time as int, p.1 as int);
        if turret_fires(vx, vy, t.max_strength as int) {
            (
                slots.update(i, slot_with_turret(s, Turret { delay_left: t.delay, ..t })),
                crs.push(projectile_comps(s.comps, vx as i64, vy as i64)),
            )
        } else {
            (slots.update(i, slot_with_turret(s, Turret { delay_left: dl as i64, ..t })), crs)
        }
    }
}

/// The slot with only its turret component replaced.
pub open spec fn slot_with_turret(s: Slot, t: Turret) -> Slot {
    Slot { gen: s.gen, alive: s.alive, comps: Components { turret: Some(t), ..s.comps } }
}

/// The turret actions of slots `0..n`, in order, drawing the sampled
/// perturbations from `orc`.
pub open spec fn turret_fold(
    st: TurretState,
    dt: int,
    g: int,
    orc: Seq<(i64, i64)>,
    n: int,
) -> TurretState
    decreases n,
{
    if n <= 0 {
        st
    } else {
        let prev = turret_fold(st, dt, g, orc, n - 1);
        if turret_guard(prev.0, n - 1) {
            turret_step(prev, n - 1, dt, g, orc[n - 1])
        } else {
            prev
        }
    }
}

/// The bound the sampled perturbations obey: within the turret's own
/// variation for a complete turret slot, and unused (zero) elsewhere.
pub open spec fn turret_oracle_ok(slots: Seq<Slot>, i: int, p: (i64, i64)) -> bool {
    if turret_guard(slots, i) {
        let var = (slots[i].comps.turret->0).strength_variation;
        -var <= p.0 <= var && -var <= p.1 <= var
    } else {
        p == (0i64, 0i64)
    }
}

/// Everything the turret fold leaves alone: every slot keeps its
/// generation, liveness and components, except that a turret's
/// `delay_left` may change.
pub open spec fn same_turret_shape(s1: Slot, s2: Slot) -> bool {
    &&& s2.gen == s1.gen
    &&& s2.alive == s1.alive
    &&& s2.comps.pos == s1.comps.pos
    &&& s2.comps.faction == s1.comps.faction
    &&& s2.comps.bb == s1.comps.bb
    &&& s2.comps.damage == s1.comps.damage
    &&& s2.comps.mask == s1.comps.mask
    &&& s2.comps.sprite == s1.comps.sprite
    &&& s2.comps.walk == s1.comps.walk
    &&& s2.comps.health == s1.comps.health
    &&& s2.comps.melee == s1.comps.melee
    &&& (s2.comps.turret is Some <==> s1.comps.turret is Some)
    &&& (s1.comps.turret is Some ==> {
        let t1 = s1.comps.turret->0;
        let t2 = s2.comps.turret->0;
        &&& t2.delay == t1.delay
        &&& t2.max_strength == t1.max_strength
        &&& t2.flight_time == t1.flight_time
        &&& t2.strength_variation == t1.strength_variation
    })
}

proof fn lemma_turret_fold_agree(
    st: TurretState,
    dt: int,
    g: int,
    o1: Seq<(i64, i64)>,
    o2: Seq<(i64, i64)>,
    n: int,
)
    requires
        forall|k: int| 0 <= k < n ==> o1[k] == o2[k],
    ensures
        turret_fold(st, dt, g, o1, n) == turret_fold(st, dt, g, o2, n),
    decreases n,
{
    if n > 0 {
        lemma_turret_fold_agree(st, dt, g, o1, o2, n - 1);
    }
}

proof fn lemma_turret_fold_frame(
    st: TurretState,
    dt: int,
    g: int,
    orc: Seq<(i64, i64)>,
    n: int,
)
    ensures
        turret_fold(st, dt, g, orc, n).0.len() == st.0.len(),
        forall|j: int|
            0 <= j < st.0.len() ==> same_turret_shape(
                st.0[j],
                #[trigger] turret_fold(st, dt, g, orc, n).0[j],
            ),
    decreases n,
{
    if n > 0 {
        lemma_turret_fold_frame(st, dt, g, orc, n - 1);
    }
}

/// Counts each turret's delay down and, once it expires, aims at the
/// nearest predicted opposing walker and fires a ballistic projectile if
/// the solved launch speed is feasible.
pub struct TurretSystem;

impl TurretSystem {
    pub fn run(&mut self, dt: DeltaTime, grav: Gravity, store: &mut Store)
        requires
            dt.wf(),
            grav.wf(),
            old(store).wf(),
        ensures
            final(store).wf(),
            final(store).slots@.len() == old(store).slots@.len(),
            final(store).pending_delete@ == old(store).pending_delete@,
            exists|orc: Seq<(i64, i64)>|
                {
                    &&& #[trigger] orc.len() == old(store).slots@.len()
                    &&& (forall|k: int|
                        0 <= k < orc.len() ==> turret_oracle_ok(
                            old(store).slots@,
                            k,
                            #[trigger] orc[k],
                        ))
                    &&& ({
                        let st = turret_fold(
                            (old(store).slots@, old(store).pending_create@),
                            dt.0 as int,
                            grav.0 as int,
                            orc,
                            old(store).slots@.len() as int,
                        );
                        final(store).slots@ == st.0 && final(store).pending_create@ == st.1
                    })
                },
    {
        let ghost st0 = (old(store).slots@, old(store).pending_create@);
        let ghost mut orc: Seq<(i64, i64)> = Seq::empty();
        let n = store.slots.len();
        let mut i: usize = 0;
        while i < n
            invariant
                i <= n,
                store.wf(),
                store.slots@.len() == n,
                store.pending_delete@ == old(store).pending_delete@,
                orc.len() == i,
                forall|k: int|
                    0 <= k < i ==> turret_oracle_ok(old(store).slots@, k, #[trigger] orc[k]),
                (store.slots@, store.pending_create@) == turret_fold(
                    st0,
                    dt.0 as int,
                    grav.0 as int,
                    orc,
                    i as int,
                ),
            decreases n - i,
        {
            proof {
                lemma_turret_fold_frame(st0, dt.0 as int, grav.0 as int, orc, i as int);
            }
            let s = store.slots[i];
            let mut sampled: (i64, i64) = (0, 0);
            if s.alive {
                match (s.comps.turret, s.comps.pos, s.comps.faction, s.comps.bb, s.comps.damage,
                s.comps.mask, s.comps.sprite) {
                    (Some(t), Some(tp), Some(f), Some(_bb), Some(_dmg), Some(_mask), Some(_spr)) => {
                        let dl = fx_sub(t.delay_left, dt.0);
                        if dl > 0 {
                            write_turret(store, i, Turret { delay_left: dl, ..t });
                        } else {
                            let c = select_target(store, f.opposite(), tp, t.flight_time);
                            let dx = fx_sub(c.0, tp.x);
                            let dy = fx_sub(c.1, tp.y);
                            let p1 = sample_symmetric(t.strength_variation);
                            let p2 = sample_symmetric(t.strength_variation);
                            sampled = (p1, p2);
                            let v = turret_solve(dx, dy, grav.0, t.flight_time, p1, p2);
                            proof {
                                crate::fixed::lemma_square_bound(v.0 as int, FX_LIMIT as int);
                                crate::fixed::lemma_square_bound(v.1 as int, FX_LIMIT as int);
                                crate::fixed::lemma_square_bound(
                                    t.max_strength as int,
                                    FX_LIMIT as int,
                                );
                            }
                            let fire = (v.0 as i128) * (v.0 as i128) + (v.1 as i128) * (v.1
                                as i128) < (t.max_strength as i128) * (t.max_strength as i128);
                            if fire {
                                write_turret(store, i, Turret { delay_left: t.delay, ..t });
                                let mut proj = Components::new();
                                proj.pos = Some(tp);
                                proj.vel = Some(Velocity { x: v.0, y: v.1 });
                                proj.bb = s.comps.bb;
                                proj.faction = s.comps.faction;
                                proj.damage = s.comps.damage;
                                proj.mask = s.comps.mask;
                                proj.sprite = s.comps.sprite;
                                proj.projectile = true;
                                store.create_later(proj);
                            } else {
                                write_turret(store, i, Turret { delay_left: dl, ..t });
                            }
                        }
                    },
                    _ => {},
                }
            }
            proof {
                let prev = orc;
                orc = orc.push(sampled);
                lemma_turret_fold_agree(
                    st0,
                    dt.0 as int,
                    grav.0 as int,
                    prev,
                    orc,
                    i as int,
                );
            }
            i = i + 1;
        }
    }
}

/// Replace the turret component of slot `i`.
fn write_turret(store: &mut Store, i: usize, t: Turret)
    requires
        old(store).wf(),
        i < old(store).slots@.len(),
        t.wf(),
    ensures
        final(store).wf(),
        final(store).slots@ == old(store).slots@.update(
            i as int,
            slot_with_turret(old(store).slots@[i as int], t),
        ),
        final(store).pending_delete@ == old(store).pending_delete@,
        final(store).pending_create@ == old(store).pending_create@,
{
    let s = store.slots[i];
    let mut c2 = s.comps;
    c2.turret = Some(t);
    store.slots.set(i, Slot { gen: s.gen, alive: s.alive, comps: c2 });
    proof {
        assert forall|k: int|
            0 <= k < store.pending_delete@.len() implies handle_ok(
            store.slots@,
            #[trigger] store.pending_delete@[k],
        ) by {
            assert(handle_ok(old(store).slots@, store.pending_delete@[k]));
        }
    }
}

} // verus!
