//! Thrown potions: a potion that touches an enemy destroys it and scores; a
//! potion that touches an enemy or a platform is destroyed.
use vstd::prelude::*;
use crate::geometry::{Collider, overlaps, check_collision};
use crate::world::{Entity, World, entities_wf, destroyed};
use crate::mover_system::is_platform;
use crate::enemy_system::is_hazard;

verus! {

/// Runs the potion sweeps.
pub struct PotionSystem {}

/// Takes part in the potion sweeps as a projectile.
pub open spec fn is_projectile(e: Entity) -> bool {
    e.alive && e.potion.is_some() && e.position.is_some()
}

/// The box of a projectile, from its potion's own size.
pub open spec fn projectile_box(e: Entity) -> Collider {
    Collider { width: e.potion.unwrap().width, height: e.potion.unwrap().height }
}

pub open spec fn strikes(p: Entity, t: Entity) -> bool {
    overlaps(p.position.unwrap(), projectile_box(p), t.position.unwrap(), t.collider.unwrap())
}

/// Projectile `p` touches enemy `t`.
pub open spec fn kills(p: Entity, t: Entity) -> bool {
    is_projectile(p) && is_hazard(t) && strikes(p, t)
}

/// Projectile `p` touches platform `t`.
pub open spec fn lands(p: Entity, t: Entity) -> bool {
    is_projectile(p) && is_platform(t) && strikes(p, t)
}

/// `e` touches, or is touched by, the first `m` entities in a way that
/// destroys it.
pub open spec fn doomed_by(e: Entity, ents: Seq<Entity>, m: int) -> bool {
    exists|j: int|
        0 <= j < m && (kills(e, #[trigger] ents[j]) || lands(e, ents[j]) || kills(ents[j], e))
}

/// An entity after the potion sweeps.
pub open spec fn swept(e: Entity, ents: Seq<Entity>) -> Entity {
    if doomed_by(e, ents, ents.len() as int) {
        Entity { doomed: true, ..e }
    } else {
        e
    }
}

pub open spec fn swept_all(ents: Seq<Entity>) -> Seq<Entity> {
    Seq::new(ents.len(), |i: int| swept(ents[i], ents))
}

/// Enemies among the first `m` entities that projectile `p` touches.
pub open spec fn kills_by(p: Entity, ents: Seq<Entity>, m: nat) -> nat
    decreases m,
{
    if m == 0 {
        0
    } else {
        kills_by(p, ents, (m - 1) as nat) + if kills(p, ents[m - 1]) {
            1nat
        } else {
            0nat
        }
    }
}

/// Pairs of a projectile among the first `n` entities and an enemy it
/// touches.
pub open spec fn kill_total(ents: Seq<Entity>, n: nat) -> nat
    decreases n,
{
    if n == 0 {
        0
    } else {
        kill_total(ents, (n - 1) as nat) + kills_by(ents[n - 1], ents, ents.len())
    }
}

pub open spec fn sat_u64(v: int) -> u64 {
    if v > u64::MAX {
        u64::MAX
    } else {
        v as u64
    }
}

impl PotionSystem {
    /// Destroys every enemy that a potion touches, and every potion that
    /// touches an enemy or a platform; scores one for each potion and enemy
    /// that touch. Returns the number of those pairs.
    pub fn run(&mut self, world: &mut World) -> (kills: u64)
        requires
            old(world).wf(),
        ensures
            final(world).entities@ == swept_all(old(world).entities@),
            kills == sat_u64(kill_total(old(world).entities@, old(world).entities@.len()) as int),
            final(world).score == sat_u64(
                old(world).score + kill_total(old(world).entities@, old(world).entities@.len()),
            ),
            final(world).camera == old(world).camera,
            final(world).wf(),
    {
        let n = world.entities.len();
        let ghost start = world.entities@;
        let mut total: u64 = 0;
        let mut i: usize = 0;
        while i < n
            invariant
                0 <= i <= n == start.len() == world.entities@.len(),
                start == old(world).entities@,
                world.camera == old(world).camera,
                world.camera.wf(),
                entities_wf(start),
                world.score == sat_u64(old(world).score + kill_total(start, i as nat)),
                total == sat_u64(kill_total(start, i as nat) as int),
                forall|k: int| 0 <= k < i ==> world.entities@[k] == #[trigger] swept(start[k], start),
                forall|k: int| 0 <= k < n ==> #[trigger] world.entities@[k].wf(),
                forall|k: int| i <= k < n ==> world.entities@[k] == start[k],
            decreases n - i,
        {
            let e = world.entities[i];
            assert(e.wf());
            let mut doom = false;
            let mut j: usize = 0;
            let ghost score_before = world.score;
            let ghost total_before = total;
            while j < n
                invariant
                    0 <= j <= n == start.len() == world.entities@.len(),
                    i < n,
                    e == start[i as int],
                    e.wf(),
                    world.camera == old(world).camera,
                    entities_wf(start),
                    score_before == sat_u64(old(world).score + kill_total(start, i as nat)),
                    total_before == sat_u64(kill_total(start, i as nat) as int),
                    world.score == sat_u64(score_before + kills_by(e, start, j as nat)),
                    total == sat_u64(total_before + kills_by(e, start, j as nat)),
                    doom == doomed_by(e, start, j as int),
                    forall|k: int|
                        0 <= k < i ==> world.entities@[k] == #[trigger] swept(start[k], start),
                    forall|k: int| 0 <= k < n ==> #[trigger] world.entities@[k].wf(),
                    forall|k: int| i <= k < n ==> world.entities@[k] == start[k],
                decreases n - j,
            {
                let q = world.entities[j];
                let ghost s = start[j as int];
                proof {
                    assert(s.wf());
                    if (j as int) < (i as int) {
                        assert(q == swept(s, start));
                    }
                    assert(q.alive == s.alive && q.potion == s.potion && q.position == s.position
                        && q.collider == s.collider && q.enemy == s.enemy && q.platform
                        == s.platform);
                }
                let mut hit_here = false;
                let mut any_here = false;
                // projectile e against enemy or platform q
                if e.alive && e.potion.is_some() && e.position.is_some() && q.alive {
                    let ep = e.position.unwrap();
                    let pot = e.potion.unwrap();
                    let pc = Collider { width: pot.width, height: pot.height };
                    match (q.position, q.collider) {
                        (Some(qp), Some(qc)) => {
                            if check_collision(&pc, &ep, &qc, &qp) {
                                if q.enemy.is_some() {
                                    hit_here = true;
                                    any_here = true;
                                }
                                if q.platform.is_some() {
                                    any_here = true;
                                }
                            }
                        },
                        _ => {},
                    }
                }
                // projectile q against enemy e
                if q.alive && q.potion.is_some() && q.position.is_some() && e.alive
                    && e.enemy.is_some() {
                    let qp = q.position.unwrap();
                    let pot = q.potion.unwrap();
                    let qc = Collider { width: pot.width, height: pot.height };
                    match (e.position, e.collider) {
                        (Some(ep), Some(ec)) => {
                            if check_collision(&qc, &qp, &ec, &ep) {
                                any_here = true;
                            }
                        },
                        _ => {},
                    }
                }
                assert(hit_here == kills(e, s));
                assert(any_here == (kills(e, s) || lands(e, s) || kills(s, e)));
                if hit_here {
                    world.score = world.score.saturating_add(1);
                    total = total.saturating_add(1);
                }
                if any_here {
                    doom = true;
                }
                proof {
                    if any_here {
                        assert(doomed_by(e, start, j + 1));
                    } else {
                        if doomed_by(e, start, j + 1) {
                            let w = choose|w: int|
                                0 <= w < j + 1 && (kills(e, #[trigger] start[w]) || lands(
                                    e,
                                    start[w],
                                ) || kills(start[w], e));
                            if w < j {
                                assert(doomed_by(e, start, j as int));
                            }
                        }
                    }
                }
                j += 1;
            }
            if doom {
                world.destroy(i);
            }
            proof {
                assert(kill_total(start, (i + 1) as nat) == kill_total(start, i as nat) + kills_by(
                    e,
                    start,
                    n as nat,
                ));
            }
            i += 1;
        }
        assert(world.entities@ =~= swept_all(start));
        total
    }
}

} // verus!
