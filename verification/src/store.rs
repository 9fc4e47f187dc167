//! The entity/component store.
//!
//! Entities are slot indices paired with a generation counter, so a
//! deleted-and-reused index can never be confused with a live handle.
//! Creations and deletions requested while systems run are queued and
//! applied together at the end-of-frame barrier, `apply_deferred`; that
//! barrier is the only point where the store's structure changes.

use vstd::prelude::*;

verus! {

use crate::ai::{Melee, Turret};
use crate::fixed::fx_in_range;
use crate::geom::{BoundingBox, Point};
use crate::physics::{Damage, MaskId, PixelParticle, Velocity};
use crate::unit::{Destination, Faction, Health, UnitState, Walk};

/// A slot generation past this bound is never reused; the counter can
/// therefore always be bumped without wrapping.
pub const GEN_LIMIT: u64 = 0x8000_0000_0000_0000;

/// Handle to one simulated object: a slot index and the generation the
/// slot had when the handle was issued.
#[derive(Clone, Copy, Debug, PartialEq, Eq, Structural)]
pub struct Entity {
    pub index: usize,
    pub gen: u64,
}

/// The sparse component set of one entity. An absent component simply
/// means the owning systems skip this entity.
#[derive(Clone, Copy, Debug, PartialEq, Eq, Structural)]
pub struct Components {
    pub pos: Option<Point>,
    pub vel: Option<Velocity>,
    pub bb: Option<BoundingBox>,
    pub health: Option<Health>,
    pub state: Option<UnitState>,
    pub walk: Option<Walk>,
    pub dest: Option<Destination>,
    pub faction: Option<Faction>,
    pub turret: Option<Turret>,
    pub melee: Option<Melee>,
    pub damage: Option<Damage>,
    pub mask: Option<MaskId>,
    pub particle: Option<PixelParticle>,
    /// Marks a ballistic projectile.
    pub projectile: bool,
    /// Once set, the projectile is exempt from every further collision
    /// check for its remaining lifetime.
    pub ignore_collision: bool,
    /// Image reference for the external renderer; opaque to the core.
    pub sprite: Option<usize>,
}

impl Components {
    /// Every held quantity is a representable stored value.
    pub open spec fn wf(self) -> bool {
        &&& self.pos matches Some(p) ==> p.wf()
        &&& self.vel matches Some(v) ==> v.wf()
        &&& self.bb matches Some(b) ==> b.wf()
        &&& self.health matches Some(h) ==> fx_in_range(h.0 as int)
        &&& self.walk matches Some(w) ==> w.wf()
        &&& self.dest matches Some(d) ==> fx_in_range(d.0 as int)
        &&& self.turret matches Some(t) ==> t.wf()
        &&& self.melee matches Some(m) ==> m.wf()
        &&& self.damage matches Some(d) ==> 0 <= d.0 && fx_in_range(d.0 as int)
        &&& self.particle matches Some(p) ==> p.wf()
    }

    /// A component set with nothing attached.
    pub fn new() -> (r: Components)
        ensures
            r == Self::empty(),
            r.wf(),
    {
        Components {
            pos: None,
            vel: None,
            bb: None,
            health: None,
            state: None,
            walk: None,
            dest: None,
            faction: None,
            turret: None,
            melee: None,
            damage: None,
            mask: None,
            particle: None,
            projectile: false,
            ignore_collision: false,
            sprite: None,
        }
    }

    pub open spec fn empty() -> Components {
        Components {
            pos: None,
            vel: None,
            bb: None,
            health: None,
            state: None,
            walk: None,
            dest: None,
            faction: None,
            turret: None,
            melee: None,
            damage: None,
            mask: None,
            particle: None,
            projectile: false,
            ignore_collision: false,
            sprite: None,
        }
    }
}

/// One storage slot: its current generation, whether it holds a live
/// entity, and that entity's components.
#[derive(Clone, Copy, Debug, PartialEq, Eq, Structural)]
pub struct Slot {
    pub gen: u64,
    pub alive: bool,
    pub comps: Components,
}

/// Whether `e` names a live entity in `slots`.
pub open spec fn live_in(slots: Seq<Slot>, e: Entity) -> bool {
    e.index < slots.len() && slots[e.index as int].alive && slots[e.index as int].gen == e.gen
}

/// A handle that was issued by this store in the past: its slot exists
/// and its generation does not lie in the slot's future.
pub open spec fn handle_ok(slots: Seq<Slot>, e: Entity) -> bool {
    e.index < slots.len() && e.gen <= slots[e.index as int].gen
}

/// One deletion applied to the slots: clears `alive` when the handle is
/// live, and is a no-op otherwise — a second request for the same handle
/// changes nothing.
pub open spec fn delete_one(slots: Seq<Slot>, e: Entity) -> Seq<Slot> {
    if live_in(slots, e) {
        slots.update(
            e.index as int,
            Slot { gen: slots[e.index as int].gen, alive: false, comps: slots[e.index as int].comps },
        )
    } else {
        slots
    }
}

/// The slots after the first `n` queued deletions were applied in order.
pub open spec fn deletes_upto(slots: Seq<Slot>, dels: Seq<Entity>, n: int) -> Seq<Slot>
    decreases n,
{
    if n <= 0 {
        slots
    } else {
        delete_one(deletes_upto(slots, dels, n - 1), dels[n - 1])
    }
}

/// A slot a creation may take over: dead, with a reusable generation.
pub open spec fn slot_free(s: Slot) -> bool {
    !s.alive && s.gen < GEN_LIMIT
}

/// Index of the first reusable slot at or after `i`, or the length when
/// there is none.
pub open spec fn first_free_from(slots: Seq<Slot>, i: int) -> int
    decreases slots.len() - i,
{
    if i < 0 || i >= slots.len() {
        slots.len() as int
    } else if slot_free(slots[i]) {
        i
    } else {
        first_free_from(slots, i + 1)
    }
}

/// The slots after one creation: the first reusable slot is taken over
/// with its generation bumped, or a fresh slot is appended.
pub open spec fn alloc_slots(slots: Seq<Slot>, c: Components) -> Seq<Slot> {
    let j = first_free_from(slots, 0);
    if j < slots.len() {
        slots.update(j, Slot { gen: (slots[j].gen + 1) as u64, alive: true, comps: c })
    } else {
        slots.push(Slot { gen: 0, alive: true, comps: c })
    }
}

/// The handle that creation hands out.
pub open spec fn alloc_entity(slots: Seq<Slot>) -> Entity {
    let j = first_free_from(slots, 0);
    if j < slots.len() {
        Entity { index: j as usize, gen: (slots[j].gen + 1) as u64 }
    } else {
        Entity { index: slots.len() as usize, gen: 0 }
    }
}

/// The slots after the first `n` queued creations were applied in order.
pub open spec fn creates_upto(slots: Seq<Slot>, cs: Seq<Components>, n: int) -> Seq<Slot>
    decreases n,
{
    if n <= 0 {
        slots
    } else {
        alloc_slots(creates_upto(slots, cs, n - 1), cs[n - 1])
    }
}

/// Law: a deletion request is idempotent — deleting the same handle
/// twice leaves exactly the state of deleting it once.
pub proof fn lemma_delete_idempotent(slots: Seq<Slot>, e: Entity)
    ensures
        delete_one(delete_one(slots, e), e) == delete_one(slots, e),
{
    if live_in(slots, e) {
        assert(!live_in(delete_one(slots, e), e));
    }
}

/// What one deletion does and does not touch.
proof fn lemma_delete_one_props(slots: Seq<Slot>, e: Entity)
    ensures
        delete_one(slots, e).len() == slots.len(),
        forall|j: int|
            0 <= j < slots.len() ==> (#[trigger] delete_one(slots, e)[j]).gen == slots[j].gen
                && delete_one(slots, e)[j].comps == slots[j].comps && (delete_one(slots, e)[j].alive
                ==> slots[j].alive),
        !live_in(delete_one(slots, e), e),
        forall|e2: Entity| !live_in(slots, e2) ==> !live_in(delete_one(slots, e), e2),
        forall|e2: Entity| handle_ok(slots, e2) ==> handle_ok(delete_one(slots, e), e2),
        forall|e2: Entity| e2.index != e.index ==> live_in(delete_one(slots, e), e2) == live_in(
            slots,
            e2,
        ),
{
}

/// Properties of the free-slot scan.
proof fn lemma_first_free_props(slots: Seq<Slot>, i: int)
    requires
        0 <= i <= slots.len(),
    ensures
        i <= first_free_from(slots, i) <= slots.len(),
        first_free_from(slots, i) < slots.len() ==> slot_free(
            slots[first_free_from(slots, i)],
        ),
    decreases slots.len() - i,
{
    if i < slots.len() && !slot_free(slots[i]) {
        lemma_first_free_props(slots, i + 1);
    }
}

/// What one creation does and does not touch.
proof fn lemma_alloc_props(slots: Seq<Slot>, c: Components)
    requires
        slots.len() <= usize::MAX,
        forall|j: int| 0 <= j < slots.len() ==> (#[trigger] slots[j]).gen <= GEN_LIMIT,
    ensures
        slots.len() <= alloc_slots(slots, c).len() <= slots.len() + 1,
        live_in(alloc_slots(slots, c), alloc_entity(slots)),
        alloc_slots(slots, c)[alloc_entity(slots).index as int].comps == c,
        forall|j: int|
            0 <= j < alloc_slots(slots, c).len() ==> (#[trigger] alloc_slots(slots, c)[j]).gen
                <= GEN_LIMIT,
        forall|e2: Entity|
            handle_ok(slots, e2) && !live_in(slots, e2) ==> handle_ok(alloc_slots(slots, c), e2)
                && !live_in(alloc_slots(slots, c), e2),
        forall|e2: Entity|
            live_in(slots, e2) ==> live_in(alloc_slots(slots, c), e2) && alloc_slots(
                slots,
                c,
            )[e2.index as int].comps == slots[e2.index as int].comps,
{
    lemma_first_free_props(slots, 0);
}

/// All live components and the two mutation queues.
pub struct Store {
    pub slots: Vec<Slot>,
    pub pending_delete: Vec<Entity>,
    pub pending_create: Vec<Components>,
}

impl Store {
    /// Slots hold representable components and reusable generations, and
    /// every queued deletion handle was really issued by this store.
    pub open spec fn wf(self) -> bool {
        &&& forall|i: int|
            0 <= i < self.slots@.len() ==> (#[trigger] self.slots@[i]).comps.wf()
                && self.slots@[i].gen <= GEN_LIMIT
        &&& forall|i: int|
            0 <= i < self.pending_delete@.len() ==> handle_ok(
                self.slots@,
                #[trigger] self.pending_delete@[i],
            )
        &&& forall|i: int|
            0 <= i < self.pending_create@.len() ==> (#[trigger] self.pending_create@[i]).wf()
    }

    pub open spec fn live(self, e: Entity) -> bool {
        live_in(self.slots@, e)
    }

    /// What a component lookup answers: the entity's components while the
    /// handle is live, absence afterwards — never stale data.
    pub open spec fn lookup(self, e: Entity) -> Option<Components> {
        if live_in(self.slots@, e) {
            Some(self.slots@[e.index as int].comps)
        } else {
            None
        }
    }

    pub fn new() -> (r: Store)
        ensures
            r.wf(),
            r.slots@.len() == 0,
            r.pending_delete@.len() == 0,
            r.pending_create@.len() == 0,
    {
        Store { slots: Vec::new(), pending_delete: Vec::new(), pending_create: Vec::new() }
    }

    pub fn is_live(&self, e: Entity) -> (r: bool)
        ensures
            r == self.live(e),
    {
        e.index < self.slots.len() && self.slots[e.index].alive && self.slots[e.index].gen == e.gen
    }

    /// Look an entity up; a deleted or stale handle finds nothing.
    pub fn get(&self, e: Entity) -> (r: Option<Components>)
        ensures
            r == self.lookup(e),
    {
        if e.index < self.slots.len() && self.slots[e.index].alive && self.slots[e.index].gen
            == e.gen {
            Some(self.slots[e.index].comps)
        } else {
            None
        }
    }

    /// Take over the first reusable slot, or append a fresh one.
    fn take_slot(&mut self, c: Components) -> (e: Entity)
        requires
            old(self).wf(),
            c.wf(),
        ensures
            final(self).wf(),
            final(self).slots@ == alloc_slots(old(self).slots@, c),
            e == alloc_entity(old(self).slots@),
            final(self).pending_delete@ == old(self).pending_delete@,
            final(self).pending_create@ == old(self).pending_create@,
            final(self).live(e),
            final(self).lookup(e) == Some(c),
    {
        let n = self.slots.len();
        proof {
            lemma_alloc_props(self.slots@, c);
        }
        let mut i: usize = 0;
        while i < n
            invariant
                i <= n,
                self.slots@ == old(self).slots@,
                self.pending_delete@ == old(self).pending_delete@,
                self.pending_create@ == old(self).pending_create@,
                first_free_from(self.slots@, 0) == first_free_from(self.slots@, i as int),
            decreases n - i,
        {
            let s = self.slots[i];
            if !s.alive && s.gen < GEN_LIMIT {
                let e = Entity { index: i, gen: s.gen + 1 };
                self.slots.set(i, Slot { gen: s.gen + 1, alive: true, comps: c });
                proof {
                    assert forall|k: int|
                        0 <= k < old(self).pending_delete@.len() implies handle_ok(
                        self.slots@,
                        #[trigger] old(self).pending_delete@[k],
                    ) by {
                        assert(handle_ok(old(self).slots@, old(self).pending_delete@[k]));
                    }
                }
                return e;
            }
            i = i + 1;
        }
        let e = Entity { index: n, gen: 0 };
        self.slots.push(Slot { gen: 0, alive: true, comps: c });
        proof {
            assert forall|k: int|
                0 <= k < old(self).pending_delete@.len() implies handle_ok(
                self.slots@,
                #[trigger] old(self).pending_delete@[k],
            ) by {
                assert(handle_ok(old(self).slots@, old(self).pending_delete@[k]));
            }
        }
        e
    }

    /// Create an entity synchronously; used during world setup, outside
    /// the frame pipeline.
    pub fn create_now(&mut self, c: Components) -> (e: Entity)
        requires
            old(self).wf(),
            c.wf(),
        ensures
            final(self).wf(),
            final(self).slots@ == alloc_slots(old(self).slots@, c),
            e == alloc_entity(old(self).slots@),
            final(self).pending_delete@ == old(self).pending_delete@,
            final(self).pending_create@ == old(self).pending_create@,
            final(self).live(e),
            final(self).lookup(e) == Some(c),
            forall|e2: Entity|
                old(self).live(e2) ==> final(self).live(e2) && final(self).lookup(e2) == old(
                    self,
                ).lookup(e2),
    {
        let n = self.slots.len();
        proof {
            assert(self.slots@.len() == n);
            lemma_alloc_props(self.slots@, c);
        }
        self.take_slot(c)
    }

    /// Queue an entity for deletion at the end-of-frame barrier. A second
    /// request for the same handle is harmless.
    pub fn delete_later(&mut self, e: Entity)
        requires
            old(self).wf(),
            handle_ok(old(self).slots@, e),
        ensures
            final(self).wf(),
            final(self).slots@ == old(self).slots@,
            final(self).pending_delete@ == old(self).pending_delete@.push(e),
            final(self).pending_create@ == old(self).pending_create@,
    {
        self.pending_delete.push(e);
    }

    /// Queue a component set to become a fresh entity at the end-of-frame
    /// barrier.
    pub fn create_later(&mut self, c: Components)
        requires
            old(self).wf(),
            c.wf(),
        ensures
            final(self).wf(),
            final(self).slots@ == old(self).slots@,
            final(self).pending_delete@ == old(self).pending_delete@,
            final(self).pending_create@ == old(self).pending_create@.push(c),
    {
        self.pending_create.push(c);
    }

    /// The end-of-frame barrier: apply every queued deletion, then every
    /// queued creation, and leave both queues empty. No lookup afterwards
    /// returns data for a handle whose deletion was queued — deleted
    /// identifiers read as absent, never as stale data, even when their
    /// slot was immediately reused (the generation was bumped).
    pub fn apply_deferred(&mut self)
        requires
            old(self).wf(),
        ensures
            final(self).wf(),
            final(self).pending_delete@.len() == 0,
            final(self).pending_create@.len() == 0,
            final(self).slots@ == creates_upto(
                deletes_upto(
                    old(self).slots@,
                    old(self).pending_delete@,
                    old(self).pending_delete@.len() as int,
                ),
                old(self).pending_create@,
                old(self).pending_create@.len() as int,
            ),
            forall|k: int|
                0 <= k < old(self).pending_delete@.len() ==> !final(self).live(
                    #[trigger] old(self).pending_delete@[k],
                ) && final(self).lookup(old(self).pending_delete@[k]) is None,
    {
        let ghost orig = self.slots@;
        let ghost dels = self.pending_delete@;
        let n = self.pending_delete.len();
        let mut i: usize = 0;
        while i < n
            invariant
                i <= n,
                self.pending_delete@ == dels,
                self.pending_create@ == old(self).pending_create@,
                self.slots@ == deletes_upto(orig, dels, i as int),
                self.slots@.len() == orig.len(),
                forall|j: int|
                    0 <= j < self.slots@.len() ==> (#[trigger] self.slots@[j]).comps.wf()
                        && self.slots@[j].gen <= GEN_LIMIT,
                forall|k: int|
                    0 <= k < dels.len() ==> handle_ok(self.slots@, #[trigger] dels[k]),
                forall|k: int| 0 <= k < i ==> !live_in(self.slots@, #[trigger] dels[k]),
            decreases n - i,
        {
            let ghost before = self.slots@;
            let e = self.pending_delete[i];
            if e.index < self.slots.len() {
                let s = self.slots[e.index];
                if s.alive && s.gen == e.gen {
                    self.slots.set(e.index, Slot { gen: s.gen, alive: false, comps: s.comps });
                }
            }
            proof {
                assert(self.slots@ =~= delete_one(before, dels[i as int]));
                lemma_delete_one_props(before, dels[i as int]);
            }
            i = i + 1;
        }
        self.pending_delete = Vec::new();

        let ghost after_dels = self.slots@;
        let ghost creates = self.pending_create@;
        let m = self.pending_create.len();
        let mut j: usize = 0;
        while j < m
            invariant
                j <= m,
                self.pending_create@ == creates,
                self.pending_delete@.len() == 0,
                self.slots@ == creates_upto(after_dels, creates, j as int),
                forall|jj: int|
                    0 <= jj < self.slots@.len() ==> (#[trigger] self.slots@[jj]).comps.wf()
                        && self.slots@[jj].gen <= GEN_LIMIT,
                forall|k: int|
                    0 <= k < dels.len() ==> handle_ok(self.slots@, #[trigger] dels[k]) && !live_in(
                        self.slots@,
                        dels[k],
                    ),
            decreases m - j,
        {
            let ghost before = self.slots@;
            let c = self.pending_create[j];
            let n_now = self.slots.len();
            proof {
                assert(before.len() == n_now);
                lemma_alloc_props(before, c);
            }
            self.take_slot(c);
            j = j + 1;
        }
        self.pending_create = Vec::new();
    }
}

} // verus!
