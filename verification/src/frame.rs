//! The scheduler: one deterministic frame update.
//!
//! Systems run in a fixed order that honors their declared read/write
//! dependencies — projectile motion and cratering write the terrain
//! before the locomotion systems read it; combat runs after movement;
//! particles write the terrain last. Entity creations and deletions
//! requested along the way are buffered and applied at a single barrier
//! at the end of the frame, the only point where the store's structure
//! changes.

use vstd::prelude::*;

verus! {

use crate::ai::{melee_sweep, turret_fold, turret_oracle_ok, MeleeSystem, TurretSystem};
use crate::physics::{
    particle_fold, projectile_fold, projectile_hit_fold, DeltaTime, Gravity, ParticleSystem,
    ProjectileCollisionSystem, ProjectileSystem,
};
use crate::store::{creates_upto, deletes_upto, live_in, Store};
use crate::terrain::{MaskBuffer, Terrain};
use crate::unit::{fall_slot, walk_slot, UnitFallSystem, WalkSystem};

/// One frame: projectile motion and terrain impact, projectile/unit
/// hits, ground clamping, walking, melee, turret fire, particles, and
/// the deferred barrier. The contract names each stage's transform in
/// order; the turret stage's sampled perturbations appear as a bounded
/// oracle. After the barrier both queues are empty and no handle whose
/// deletion was queued during the frame resolves to data any more.
pub fn run_frame(
    dt: DeltaTime,
    grav: Gravity,
    terrain: &mut Terrain,
    masks: &Vec<MaskBuffer>,
    store: &mut Store,
)
    requires
        dt.wf(),
        grav.wf(),
        old(terrain).wf(),
        old(store).wf(),
        forall|k: int| 0 <= k < masks@.len() ==> (#[trigger] masks@[k]).wf(),
    ensures
        final(terrain).wf(),
        final(terrain).width == old(terrain).width,
        final(terrain).height == old(terrain).height,
        final(store).wf(),
        final(store).pending_delete@.len() == 0,
        final(store).pending_create@.len() == 0,
        exists|orc: Seq<(i64, i64)>, t1: Terrain|
            {
                let n = old(store).slots@.len() as int;
                let w = old(terrain).width as int;
                let h = old(terrain).height as int;
                let s1 = projectile_fold(
                    (old(terrain).buffer@, old(store).slots@, old(store).pending_delete@),
                    w,
                    h,
                    masks@,
                    dt.0 as int,
                    grav.0 as int,
                    n,
                );
                let s2 = projectile_hit_fold((s1.1, s1.2), n);
                let slots_fallen = Seq::new(s2.0.len(), |i: int| fall_slot(s2.0[i], t1));
                let slots_walked = Seq::new(
                    slots_fallen.len(),
                    |i: int| walk_slot(slots_fallen[i], t1, dt.0 as int),
                );
                let m = melee_sweep(
                    (slots_walked, s2.1, old(store).pending_create@),
                    n,
                    n,
                    dt.0 as int,
                );
                let tr = turret_fold((m.0, m.2), dt.0 as int, grav.0 as int, orc, n);
                let s6 = particle_fold(
                    (s1.0, tr.0, m.1),
                    w,
                    h,
                    dt.0 as int,
                    grav.0 as int,
                    n,
                );
                &&& #[trigger] orc.len() == n
                &&& #[trigger] t1.wf()
                &&& t1.width == old(terrain).width
                &&& t1.height == old(terrain).height
                &&& t1.buffer@ == s1.0
                &&& forall|k: int| 0 <= k < n ==> turret_oracle_ok(m.0, k, #[trigger] orc[k])
                &&& final(terrain).buffer@ == s6.0
                &&& final(store).slots@ == creates_upto(
                    deletes_upto(s6.1, s6.2, s6.2.len() as int),
                    tr.1,
                    tr.1.len() as int,
                )
                &&& forall|k: int|
                    0 <= k < s6.2.len() ==> !live_in(final(store).slots@, #[trigger] s6.2[k])
            },
{
    let mut projectile_system = ProjectileSystem;
    projectile_system.run(dt, grav, terrain, masks, store);
    let mut collision_system = ProjectileCollisionSystem;
    collision_system.run(store);
    let ghost t1_snap = *terrain;
    let ghost slots_after_hits = store.slots@;
    let mut fall_system = UnitFallSystem;
    fall_system.run(terrain, store);
    proof {
        assert(store.slots@ =~= Seq::new(
            slots_after_hits.len(),
            |i: int| fall_slot(slots_after_hits[i], t1_snap),
        ));
    }
    let ghost slots_fallen_snap = store.slots@;
    let mut walk_system = WalkSystem;
    walk_system.run(dt, terrain, store);
    proof {
        assert(store.slots@ =~= Seq::new(
            slots_fallen_snap.len(),
            |i: int| walk_slot(slots_fallen_snap[i], t1_snap, dt.0 as int),
        ));
    }
    let ghost slots_walked_snap = store.slots@;
    let mut melee_system = MeleeSystem;
    melee_system.run(dt, store);
    let ghost pre_turret_slots = store.slots@;
    let ghost pre_turret_creates = store.pending_create@;
    let mut turret_system = TurretSystem;
    turret_system.run(dt, grav, store);
    let ghost orc_w = choose|orc: Seq<(i64, i64)>|
        {
            &&& #[trigger] orc.len() == pre_turret_slots.len()
            &&& (forall|k: int|
                0 <= k < orc.len() ==> turret_oracle_ok(pre_turret_slots, k, #[trigger] orc[k]))
            &&& ({
                let st = turret_fold(
                    (pre_turret_slots, pre_turret_creates),
                    dt.0 as int,
                    grav.0 as int,
                    orc,
                    pre_turret_slots.len() as int,
                );
                store.slots@ == st.0 && store.pending_create@ == st.1
            })
        };
    let mut particle_system = ParticleSystem;
    particle_system.run(dt, grav, terrain, store);
    store.apply_deferred();
    proof {
        let n = old(store).slots@.len() as int;
        let w = old(terrain).width as int;
        let h = old(terrain).height as int;
        let s1 = projectile_fold(
            (old(terrain).buffer@, old(store).slots@, old(store).pending_delete@),
            w,
            h,
            masks@,
            dt.0 as int,
            grav.0 as int,
            n,
        );
        let s2 = projectile_hit_fold((s1.1, s1.2), n);
        let slots_fallen = Seq::new(s2.0.len(), |i: int| fall_slot(s2.0[i], t1_snap));
        let slots_walked = Seq::new(
            slots_fallen.len(),
            |i: int| walk_slot(slots_fallen[i], t1_snap, dt.0 as int),
        );
        assert(slots_fallen =~= slots_fallen_snap);
        assert(slots_walked =~= slots_walked_snap);
    }
}

} // verus!
