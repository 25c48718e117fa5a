//! The per-tick movement phase: integrate every body, then push every body
//! out of every platform.
use vstd::prelude::*;
use crate::geometry::{Position, Collider};
use crate::motion::{
    Mover, JumpState, MAX_DROP_VELOCITY, integrate, integrated, resolve, resolved,
    lemma_integration_caps_fall, lemma_resolution_keeps_fall_cap,
};
use crate::world::{Entity, World, entities_wf};

verus! {

/// Runs the integrator and then the platform resolver over the world.
pub struct MoverSystem {}

/// Takes part in integration: alive, with a mover and a position.
pub open spec fn is_mover(e: Entity) -> bool {
    e.alive && e.mover.is_some() && e.position.is_some()
}

/// Takes part in platform resolution as a moving body.
pub open spec fn is_body(e: Entity) -> bool {
    is_mover(e) && e.collider.is_some()
}

/// Takes part in platform resolution as a surface.
pub open spec fn is_platform(e: Entity) -> bool {
    e.alive && e.platform.is_some() && e.position.is_some() && e.collider.is_some()
}

pub open spec fn integrated_entity(e: Entity, dt: int) -> Entity {
    if is_mover(e) {
        let (m, p) = integrated(e.mover.unwrap(), e.position.unwrap(), dt);
        Entity { mover: Some(m), position: Some(p), ..e }
    } else {
        e
    }
}

pub open spec fn integrated_all(ents: Seq<Entity>, dt: int) -> Seq<Entity> {
    Seq::new(ents.len(), |i: int| integrated_entity(ents[i], dt))
}

/// A body after being pushed out of each of the first `n` entities that is a
/// platform, in order.
pub open spec fn settled(m: Mover, p: Position, c: Collider, ents: Seq<Entity>, n: nat) -> (
    Mover,
    Position,
)
    decreases n,
{
    if n == 0 {
        (m, p)
    } else {
        let (m1, p1) = settled(m, p, c, ents, (n - 1) as nat);
        let e = ents[n - 1];
        if is_platform(e) {
            resolved(m1, p1, c, e.position.unwrap(), e.collider.unwrap())
        } else {
            (m1, p1)
        }
    }
}

/// A body starts each resolution pass airborne and must land again.
pub open spec fn settled_entity(e: Entity, ents: Seq<Entity>) -> Entity {
    if is_body(e) {
        let m = Mover { jump_state: JumpState::Airborne, ..e.mover.unwrap() };
        let (m1, p1) = settled(m, e.position.unwrap(), e.collider.unwrap(), ents, ents.len());
        Entity { mover: Some(m1), position: Some(p1), ..e }
    } else {
        e
    }
}

pub open spec fn settled_all(ents: Seq<Entity>) -> Seq<Entity> {
    Seq::new(ents.len(), |i: int| settled_entity(ents[i], ents))
}

/// The world's entities after the movement phase of a tick of `dt`
/// microseconds.
pub open spec fn moved_all(ents: Seq<Entity>, dt: int) -> Seq<Entity> {
    settled_all(integrated_all(ents, dt))
}

proof fn lemma_settled_wf(m: Mover, p: Position, c: Collider, ents: Seq<Entity>, n: nat)
    requires
        m.wf(),
        p.wf(),
        c.wf(),
        entities_wf(ents),
        n <= ents.len(),
    ensures
        settled(m, p, c, ents, n).0.wf(),
        settled(m, p, c, ents, n).1.wf(),
    decreases n,
{
    if n > 0 {
        lemma_settled_wf(m, p, c, ents, (n - 1) as nat);
        assert(ents[n - 1].wf());
        crate::motion::lemma_resolved_wf(
            settled(m, p, c, ents, (n - 1) as nat).0,
            settled(m, p, c, ents, (n - 1) as nat).1,
            c,
            ents[n - 1].position.unwrap(),
            ents[n - 1].collider.unwrap(),
        );
    }
}

proof fn lemma_settled_keeps_fall_cap(m: Mover, p: Position, c: Collider, ents: Seq<Entity>, n: nat)
    requires
        m.velocity_y >= -MAX_DROP_VELOCITY,
        n <= ents.len(),
    ensures
        settled(m, p, c, ents, n).0.velocity_y >= -MAX_DROP_VELOCITY,
    decreases n,
{
    if n > 0 {
        lemma_settled_keeps_fall_cap(m, p, c, ents, (n - 1) as nat);
        let (m1, p1) = settled(m, p, c, ents, (n - 1) as nat);
        let e = ents[n - 1];
        lemma_resolution_keeps_fall_cap(m1, p1, c, e.position.unwrap(), e.collider.unwrap());
    }
}

/// After a movement phase no moving entity falls faster than the terminal
/// speed, whatever the velocities before it.
pub proof fn lemma_movement_caps_fall(ents: Seq<Entity>, dt: int)
    requires
        dt >= 0,
    ensures
        forall|i: int|
            0 <= i < ents.len() && is_mover(#[trigger] moved_all(ents, dt)[i]) ==> moved_all(
                ents,
                dt,
            )[i].mover.unwrap().velocity_y >= -MAX_DROP_VELOCITY,
{
    let mid = integrated_all(ents, dt);
    assert forall|i: int|
        0 <= i < ents.len() && is_mover(#[trigger] moved_all(ents, dt)[i]) implies moved_all(
        ents,
        dt,
    )[i].mover.unwrap().velocity_y >= -MAX_DROP_VELOCITY by {
        let e = ents[i];
        assert(is_mover(e));
        lemma_integration_caps_fall(e.mover.unwrap(), e.position.unwrap(), dt);
        let f = mid[i];
        if is_body(f) {
            let m = Mover { jump_state: JumpState::Airborne, ..f.mover.unwrap() };
            lemma_settled_keeps_fall_cap(m, f.position.unwrap(), f.collider.unwrap(), mid, mid.len());
        }
    }
}

impl MoverSystem {
    /// Integrates every body over `dt` microseconds.
    pub fn integrate_all(&self, world: &mut World, dt: u32)
        requires
            old(world).wf(),
        ensures
            final(world).entities@ == integrated_all(old(world).entities@, dt as int),
            final(world).score == old(world).score,
            final(world).camera == old(world).camera,
            final(world).wf(),
    {
        let n = world.entities.len();
        let ghost start = world.entities@;
        let mut i: usize = 0;
        while i < n
            invariant
                0 <= i <= n == start.len() == world.entities@.len(),
                start == old(world).entities@,
                world.score == old(world).score,
                world.camera == old(world).camera,
                world.camera.wf(),
                entities_wf(start),
                forall|k: int|
                    0 <= k < i ==> world.entities@[k] == #[trigger] integrated_entity(
                        start[k],
                        dt as int,
                    ),
                forall|k: int| 0 <= k < n ==> #[trigger] world.entities@[k].wf(),
                forall|k: int| i <= k < n ==> world.entities@[k] == start[k],
            decreases n - i,
        {
            let mut e = world.entities[i];
            assert(e.wf());
            if e.alive {
                match (e.mover, e.position) {
                    (Some(m0), Some(p0)) => {
                        let mut m = m0;
                        let mut p = p0;
                        integrate(&mut m, &mut p, dt);
                        e.mover = Some(m);
                        e.position = Some(p);
                    },
                    _ => {},
                }
            }
            world.entities.set(i, e);
            i += 1;
        }
        assert(world.entities@ =~= integrated_all(start, dt as int));
    }

    /// Pushes every body out of every platform it overlaps, platforms taken
    /// in order of identifier.
    pub fn resolve_all(&self, world: &mut World)
        requires
            old(world).wf(),
        ensures
            final(world).entities@ == settled_all(old(world).entities@),
            final(world).score == old(world).score,
            final(world).camera == old(world).camera,
            final(world).wf(),
    {
        let n = world.entities.len();
        let ghost start = world.entities@;
        let mut i: usize = 0;
        while i < n
            invariant
                0 <= i <= n == start.len() == world.entities@.len(),
                start == old(world).entities@,
                world.score == old(world).score,
                world.camera == old(world).camera,
                world.camera.wf(),
                entities_wf(start),
                forall|k: int|
                    0 <= k < i ==> world.entities@[k] == #[trigger] settled_entity(
                        start[k],
                        start,
                    ),
                forall|k: int| 0 <= k < n ==> #[trigger] world.entities@[k].wf(),
                forall|k: int| i <= k < n ==> world.entities@[k] == start[k],
            decreases n - i,
        {
            let mut e = world.entities[i];
            assert(e.wf());
            if e.alive {
                match (e.mover, e.position, e.collider) {
                    (Some(m0), Some(p0), Some(c)) => {
                        let mut m = m0;
                        m.jump_state = JumpState::Airborne;
                        let mut p = p0;
                        let ghost m_start = m;
                        let mut j: usize = 0;
                        while j < n
                            invariant
                                0 <= j <= n == start.len() == world.entities@.len(),
                                i < n,
                                e == start[i as int],
                                is_body(e),
                                c == e.collider.unwrap(),
                                m_start == (Mover {
                                    jump_state: JumpState::Airborne,
                                    ..e.mover.unwrap()
                                }),
                                (m, p) == settled(m_start, e.position.unwrap(), c, start, j as nat),
                                m.wf(),
                                p.wf(),
                                c.wf(),
                                entities_wf(start),
                                forall|k: int|
                                    0 <= k < i ==> world.entities@[k] == #[trigger] settled_entity(
                                        start[k],
                                        start,
                                    ),
                                forall|k: int| i <= k < n ==> world.entities@[k] == start[k],
                            decreases n - j,
                        {
                            let q = world.entities[j];
                            proof {
                                let s = start[j as int];
                                assert(s.wf());
                                if (j as int) < (i as int) {
                                    assert(q == settled_entity(s, start));
                                }
                                assert(is_platform(q) == is_platform(s));
                                if is_platform(s) {
                                    assert(q == s);
                                }
                            }
                            if q.alive && q.platform.is_some() {
                                match (q.position, q.collider) {
                                    (Some(pp), Some(pc)) => {
                                        resolve(&mut m, &mut p, &c, &pp, &pc);
                                    },
                                    _ => {},
                                }
                            }
                            j += 1;
                        }
                        e.mover = Some(m);
                        e.position = Some(p);
                    },
                    _ => {},
                }
            }
            world.entities.set(i, e);
            i += 1;
        }
        assert(world.entities@ =~= settled_all(start));
    }

    /// One movement phase: integration over `dt` microseconds, then platform
    /// resolution.
    pub fn run(&mut self, world: &mut World, dt: u32)
        requires
            old(world).wf(),
        ensures
            final(world).entities@ == moved_all(old(world).entities@, dt as int),
            final(world).score == old(world).score,
            final(world).camera == old(world).camera,
            final(world).wf(),
    {
        self.integrate_all(world, dt);
        self.resolve_all(world);
    }
}

} // verus!
