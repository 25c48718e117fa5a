//! Enemies: patrolling between their bounds, and hurting the player on
//! contact.
use vstd::prelude::*;
use crate::geometry::{Position, COORD_LIMIT, overlaps, check_collision};
use crate::motion::{Mover, SPEED_LIMIT, abs, div_toward_zero};
use crate::components::Player;
use crate::world::{Entity, World, entities_wf};

verus! {

/// How close to a bound an enemy turns around.
pub const SWAP_RANGE: i64 = 1000;

/// Patrol speed of an enemy.
pub const ENEMY_VELOCITY: i64 = 50_000;

/// Health lost to one hit.
pub const HIT_DAMAGE: i32 = 40;

/// Speed of the push a hit gives the player.
pub const KNOCKBACK_SPEED: i64 = 100_000;

/// Moves enemies and applies their damage.
pub struct EnemySystem {}

/// The integer square root of `n`.
pub open spec fn int_sqrt(n: nat) -> nat {
    choose|r: nat| is_root(r, n)
}

pub open spec fn is_root(r: nat, n: nat) -> bool {
    r * r <= n < (r + 1) * (r + 1)
}

proof fn lemma_int_sqrt_unique(n: nat, r: nat)
    requires
        r * r <= n < (r + 1) * (r + 1),
    ensures
        int_sqrt(n) == r,
{
    assert(is_root(r, n));
    let s = int_sqrt(n);
    if s < r {
        assert((s + 1) * (s + 1) <= r * r) by (nonlinear_arith)
            requires s < r;
    } else if r < s {
        assert((r + 1) * (r + 1) <= s * s) by (nonlinear_arith)
            requires r < s;
    }
}

/// Integer square root of `n`, for `n` below 2^104.
pub fn isqrt(n: u128) -> (r: u64)
    requires
        n < 0x100_0000_0000_0000_0000_0000_0000,
    ensures
        r == int_sqrt(n as nat),
        is_root(r as nat, n as nat),
        r < 0x10_0000_0000_0000,
{
    let mut lo: u128 = 0;
    let mut hi: u128 = 0x10_0000_0000_0000;
    assert(hi * hi == 0x100_0000_0000_0000_0000_0000_0000);
    while hi - lo > 1
        invariant
            lo < hi <= 0x10_0000_0000_0000,
            lo * lo <= n < hi * hi,
        decreases hi - lo,
    {
        let mid = lo + (hi - lo) / 2;
        assert(mid * mid <= 0x100_0000_0000_0000_0000_0000_0000) by (nonlinear_arith)
            requires mid <= 0x10_0000_0000_0000;
        if mid * mid <= n {
            lo = mid;
        } else {
            hi = mid;
        }
    }
    proof {
        lemma_int_sqrt_unique(n as nat, lo as nat);
    }
    lo as u64
}

/// Finer resolution in which the length of a direction is measured.
pub const DIRECTION_SCALE: i64 = 1000;

/// Velocity of magnitude `speed` along `(dx, dy)`. The length is the integer
/// square root of the direction taken `DIRECTION_SCALE` times finer, so that
/// short directions keep their angle; zero for a zero vector.
pub open spec fn along(dx: int, dy: int, speed: int) -> (int, int) {
    let fx = dx * DIRECTION_SCALE;
    let fy = dy * DIRECTION_SCALE;
    let len = int_sqrt((fx * fx + fy * fy) as nat);
    if len == 0 {
        (0, 0)
    } else {
        (div_toward_zero(fx * speed, len as int), div_toward_zero(fy * speed, len as int))
    }
}

/// Velocity of `KNOCKBACK_SPEED` along `(dx, dy)`; zero for a zero vector.
pub open spec fn knockback(dx: int, dy: int) -> (int, int) {
    along(dx, dy, KNOCKBACK_SPEED as int)
}

proof fn lemma_component_below_root(d: int, e: int, len: nat)
    requires
        len * len <= d * d + e * e < (len + 1) * (len + 1),
    ensures
        abs(d) <= len,
{
    if abs(d) > len {
        assert((len + 1) * (len + 1) <= d * d) by (nonlinear_arith)
            requires abs(d) >= len + 1, len >= 0, abs(d) == d || abs(d) == -d;
        assert(e * e >= 0) by (nonlinear_arith);
    }
}

proof fn lemma_along_bounded(d: int, len: nat, speed: int)
    requires
        abs(d) <= len,
        len > 0,
        speed >= 0,
    ensures
        -speed <= div_toward_zero(d * speed, len as int) <= speed,
{
    if d >= 0 {
        assert(d * speed <= len * speed) by (nonlinear_arith)
            requires d <= len, speed >= 0;
        assert((d * speed) / (len as int) <= speed) by (nonlinear_arith)
            requires d * speed <= len * speed, len > 0, d >= 0;
        assert(0 <= (d * speed) / (len as int)) by (nonlinear_arith)
            requires d >= 0, len > 0, speed >= 0;
    } else {
        assert((-d) * speed <= len * speed) by (nonlinear_arith)
            requires -d <= len, speed >= 0;
        assert(((-d) * speed) / (len as int) <= speed) by (nonlinear_arith)
            requires (-d) * speed <= len * speed, len > 0, d < 0;
        assert(0 <= ((-d) * speed) / (len as int)) by (nonlinear_arith)
            requires d < 0, len > 0, speed >= 0;
        assert(-(d * speed) == (-d) * speed) by (nonlinear_arith);
    }
}

fn along_component(d: i64, len: u64, speed: i64) -> (v: i64)
    requires
        abs(d as int) <= len,
        len > 0,
        0 <= speed <= SPEED_LIMIT,
        -2 * COORD_LIMIT * DIRECTION_SCALE <= d <= 2 * COORD_LIMIT * DIRECTION_SCALE,
    ensures
        v == div_toward_zero(d * speed, len as int),
        -speed <= v <= speed,
{
    proof {
        lemma_along_bounded(d as int, len as nat, speed as int);
    }
    assert(-0x1_0000_0000_0000_0000_0000_0000_0000 <= d * speed
        <= 0x1_0000_0000_0000_0000_0000_0000_0000) by (nonlinear_arith)
        requires
            -2_000_000_000_000_000 <= d <= 2_000_000_000_000_000,
            0 <= speed <= SPEED_LIMIT;
    let num = d as i128 * speed as i128;
    if num >= 0 {
        (num / len as i128) as i64
    } else {
        (-((-num) / len as i128)) as i64
    }
}

/// A velocity of magnitude `speed` along `(dx, dy)`.
pub fn along_exec(dx: i64, dy: i64, speed: i64) -> (v: (i64, i64))
    requires
        -2 * COORD_LIMIT <= dx <= 2 * COORD_LIMIT,
        -2 * COORD_LIMIT <= dy <= 2 * COORD_LIMIT,
        0 <= speed <= SPEED_LIMIT,
    ensures
        v.0 == along(dx as int, dy as int, speed as int).0,
        v.1 == along(dx as int, dy as int, speed as int).1,
        -speed <= v.0 <= speed,
        -speed <= v.1 <= speed,
{
    let fx = dx * DIRECTION_SCALE;
    let fy = dy * DIRECTION_SCALE;
    assert(0 <= fx * fx <= 0x40_0000_0000_0000_0000_0000_0000) by (nonlinear_arith)
        requires -2_000_000_000_000_000 <= fx <= 2_000_000_000_000_000;
    assert(0 <= fy * fy <= 0x40_0000_0000_0000_0000_0000_0000) by (nonlinear_arith)
        requires -2_000_000_000_000_000 <= fy <= 2_000_000_000_000_000;
    let sq = (fx as i128 * fx as i128 + fy as i128 * fy as i128) as u128;
    let len = isqrt(sq);
    if len == 0 {
        (0, 0)
    } else {
        proof {
            let n = (fx * fx + fy * fy) as nat;
            assert(sq == n);
            assert(is_root(len as nat, n));
            lemma_component_below_root(fx as int, fy as int, len as nat);
            lemma_component_below_root(fy as int, fx as int, len as nat);
        }
        (along_component(fx, len, speed), along_component(fy, len, speed))
    }
}

/// The knockback away from `from` for a body at `to`.
pub fn knockback_from(to: &Position, from: &Position) -> (v: (i64, i64))
    requires
        to.wf(),
        from.wf(),
    ensures
        v.0 == knockback(to.x - from.x, to.y - from.y).0,
        v.1 == knockback(to.x - from.x, to.y - from.y).1,
        -KNOCKBACK_SPEED <= v.0 <= KNOCKBACK_SPEED,
        -KNOCKBACK_SPEED <= v.1 <= KNOCKBACK_SPEED,
{
    along_exec(to.x - from.x, to.y - from.y, KNOCKBACK_SPEED)
}

/// Hurts the player on contact: alive, with a collider and a position.
pub open spec fn is_hazard(e: Entity) -> bool {
    e.alive && e.enemy.is_some() && e.position.is_some() && e.collider.is_some()
}

/// Can be hurt: alive, with player state, mover, collider and position.
pub open spec fn is_target(e: Entity) -> bool {
    e.alive && e.player.is_some() && e.mover.is_some() && e.position.is_some()
        && e.collider.is_some()
}

pub open spec fn touches(t: Entity, h: Entity) -> bool {
    overlaps(t.position.unwrap(), t.collider.unwrap(), h.position.unwrap(), h.collider.unwrap())
}

/// Some hazard among the first `n` entities touches `t`.
pub open spec fn touched_before(t: Entity, ents: Seq<Entity>, n: int) -> bool {
    exists|j: int| 0 <= j < n && is_hazard(#[trigger] ents[j]) && touches(t, ents[j])
}

/// The first hazard that touches `t`.
pub open spec fn first_hazard(t: Entity, ents: Seq<Entity>) -> int {
    choose|j: int|
        0 <= j < ents.len() && is_hazard(#[trigger] ents[j]) && touches(t, ents[j]) && !touched_before(
            t,
            ents,
            j,
        )
}

/// A hit lands: the player is not immune and some hazard touches it.
pub open spec fn is_hit(t: Entity, ents: Seq<Entity>) -> bool {
    is_target(t) && t.player.unwrap().last_hit > t.player.unwrap().hit_cooldown && touched_before(
        t,
        ents,
        ents.len() as int,
    )
}

/// `v` held in the range of `i32`.
pub open spec fn sat_i32(v: int) -> i32 {
    if v > i32::MAX {
        i32::MAX
    } else if v < i32::MIN {
        i32::MIN
    } else {
        v as i32
    }
}

/// Player state after a hit: immune and steering lost, less health.
pub open spec fn hurt(p: Player) -> Player {
    Player { in_hit: true, last_hit: 0, health: sat_i32(p.health - HIT_DAMAGE), ..p }
}

/// The target after the damage sweep: when hit, hurt and pushed away from the
/// first hazard that touches it.
pub open spec fn damaged(t: Entity, ents: Seq<Entity>) -> Entity {
    if is_hit(t, ents) {
        let h = ents[first_hazard(t, ents)];
        let tp = t.position.unwrap();
        let hp = h.position.unwrap();
        let v = knockback(tp.x - hp.x, tp.y - hp.y);
        Entity {
            player: Some(hurt(t.player.unwrap())),
            mover: Some(
                Mover { velocity_x: v.0 as i64, velocity_y: v.1 as i64, ..t.mover.unwrap() },
            ),
            ..t
        }
    } else {
        t
    }
}

/// An enemy heading out of its bounds and within `SWAP_RANGE` of one turns
/// around.
pub open spec fn patrolled(e: Entity) -> Entity {
    if e.alive && e.enemy.is_some() && e.position.is_some() && e.mover.is_some() {
        let m = e.mover.unwrap();
        let x = e.position.unwrap().x as int;
        match m.bounds {
            Some(b) => if (abs(x - b.max_x) < SWAP_RANGE && m.velocity_x > 0) || (abs(x - b.min_x)
                < SWAP_RANGE && m.velocity_x < 0) {
                Entity { mover: Some(Mover { velocity_x: (-m.velocity_x) as i64, ..m }), ..e }
            } else {
                e
            },
            None => e,
        }
    } else {
        e
    }
}

pub open spec fn patrolled_all(ents: Seq<Entity>) -> Seq<Entity> {
    Seq::new(ents.len(), |i: int| patrolled(ents[i]))
}

pub open spec fn damaged_all(ents: Seq<Entity>) -> Seq<Entity> {
    Seq::new(ents.len(), |i: int| damaged(ents[i], ents))
}

/// Number of the first `n` entities that are hit.
pub open spec fn hit_count(ents: Seq<Entity>, n: nat) -> nat
    decreases n,
{
    if n == 0 {
        0
    } else {
        hit_count(ents, (n - 1) as nat) + if is_hit(ents[n - 1], ents) {
            1nat
        } else {
            0nat
        }
    }
}

/// The entities after the enemy phase.
pub open spec fn enemy_phase(ents: Seq<Entity>) -> Seq<Entity> {
    damaged_all(patrolled_all(ents))
}

/// Position, collider and the markers that the sweeps test are the same.
pub open spec fn same_shape(a: Entity, b: Entity) -> bool {
    &&& a.alive == b.alive
    &&& a.position == b.position
    &&& a.collider == b.collider
    &&& a.enemy == b.enemy
    &&& a.player.is_some() == b.player.is_some()
    &&& a.mover.is_some() == b.mover.is_some()
}

fn sat_i32_exec(v: i64) -> (r: i32)
    ensures
        r == sat_i32(v as int),
{
    if v > i32::MAX as i64 {
        i32::MAX
    } else if v < i32::MIN as i64 {
        i32::MIN
    } else {
        v as i32
    }
}

impl EnemySystem {
    /// Turns around each enemy that reached a bound.
    pub fn patrol(&self, world: &mut World)
        requires
            old(world).wf(),
        ensures
            final(world).entities@ == patrolled_all(old(world).entities@),
            final(world).score == old(world).score,
            final(world).camera == old(world).camera,
            final(world).wf(),
    {
        let n = world.entities.len();
        let ghost start = world.entities@;
        let mut i: usize = 0;
        while i < n
            invariant
                0 <= i <= n == start.len() == world.entities@.len(),
                start == old(world).entities@,
                world.score == old(world).score,
                world.camera == old(world).camera,
                world.camera.wf(),
                entities_wf(start),
                forall|k: int| 0 <= k < i ==> world.entities@[k] == #[trigger] patrolled(start[k]),
                forall|k: int| 0 <= k < n ==> #[trigger] world.entities@[k].wf(),
                forall|k: int| i <= k < n ==> world.entities@[k] == start[k],
            decreases n - i,
        {
            let mut e = world.entities[i];
            assert(e.wf());
            if e.alive && e.enemy.is_some() {
                match (e.position, e.mover) {
                    (Some(p), Some(m0)) => {
                        let mut m = m0;
                        match m.bounds {
                            Some(b) => {
                                let to_max = if p.x >= b.max_x {
                                    p.x - b.max_x
                                } else {
                                    b.max_x - p.x
                                };
                                let to_min = if p.x >= b.min_x {
                                    p.x - b.min_x
                                } else {
                                    b.min_x - p.x
                                };
                                if (to_max < SWAP_RANGE && m.velocity_x > 0) || (to_min
                                    < SWAP_RANGE && m.velocity_x < 0) {
                                    m.velocity_x = -m.velocity_x;
                                }
                            },
                            None => {},
                        }
                        e.mover = Some(m);
                    },
                    _ => {},
                }
            }
            world.entities.set(i, e);
            i += 1;
        }
        assert(world.entities@ =~= patrolled_all(start));
    }

    /// Hurts every player that a hazard touches, unless it is immune, and
    /// returns how many were hurt.
    pub fn damage(&self, world: &mut World) -> (hits: usize)
        requires
            old(world).wf(),
        ensures
            final(world).entities@ == damaged_all(old(world).entities@),
            hits == hit_count(old(world).entities@, old(world).entities@.len()),
            final(world).score == old(world).score,
            final(world).camera == old(world).camera,
            final(world).wf(),
    {
        let n = world.entities.len();
        let ghost start = world.entities@;
        let mut hits: usize = 0;
        let mut i: usize = 0;
        while i < n
            invariant
                0 <= i <= n == start.len() == world.entities@.len(),
                start == old(world).entities@,
                world.score == old(world).score,
                world.camera == old(world).camera,
                world.camera.wf(),
                entities_wf(start),
                hits == hit_count(start, i as nat),
                hits <= i,
                forall|k: int|
                    0 <= k < i ==> world.entities@[k] == #[trigger] damaged(start[k], start),
                forall|k: int| 0 <= k < n ==> #[trigger] world.entities@[k].wf(),
                forall|k: int| 0 <= k < n ==> same_shape(#[trigger] world.entities@[k], start[k]),
                forall|k: int| i <= k < n ==> world.entities@[k] == start[k],
            decreases n - i,
        {
            let mut e = world.entities[i];
            assert(e.wf());
            if e.alive {
                match (e.player, e.mover, e.position, e.collider) {
                    (Some(pl), Some(m), Some(p), Some(c)) => {
                        if pl.last_hit > pl.hit_cooldown {
                            let mut j: usize = 0;
                            let mut found = false;
                            while j < n && !found
                                invariant
                                    0 <= j <= n == start.len() == world.entities@.len(),
                                    i < n,
                                    e == start[i as int],
                                    is_target(e),
                                    e.player == Some(pl),
                                    e.mover == Some(m),
                                    e.position == Some(p),
                                    e.collider == Some(c),
                                    p.wf(),
                                    c.wf(),
                                    entities_wf(start),
                                    forall|k: int|
                                        0 <= k < n ==> same_shape(
                                            #[trigger] world.entities@[k],
                                            start[k],
                                        ),
                                    !found ==> !touched_before(e, start, j as int),
                                    found ==> j > 0 && is_hazard(start[j - 1]) && touches(
                                        e,
                                        start[j - 1],
                                    ) && !touched_before(e, start, j - 1),
                                decreases n - j + if found {
                                    0int
                                } else {
                                    1int
                                },
                            {
                                let q = world.entities[j];
                                proof {
                                    assert(same_shape(q, start[j as int]));
                                    assert(start[j as int].wf());
                                }
                                if q.alive && q.enemy.is_some() {
                                    match (q.position, q.collider) {
                                        (Some(qp), Some(qc)) => {
                                            if check_collision(&c, &p, &qc, &qp) {
                                                found = true;
                                            }
                                        },
                                        _ => {},
                                    }
                                }
                                proof {
                                    if !found {
                                        assert forall|k: int|
                                            0 <= k < j + 1 && is_hazard(
                                                #[trigger] start[k],
                                            ) implies !touches(e, start[k]) by {
                                            if k < j {
                                                assert(!(0 <= k < j && is_hazard(start[k])
                                                    && touches(e, start[k])));
                                            }
                                        }
                                    }
                                }
                                j += 1;
                            }
                            if found {
                                let h = world.entities[j - 1];
                                proof {
                                    assert(same_shape(h, start[j - 1]));
                                    assert(start[j - 1].wf());
                                    assert(touched_before(e, start, n as int));
                                    let fh = first_hazard(e, start);
                                    assert(0 <= fh < n && is_hazard(start[fh]) && touches(
                                        e,
                                        start[fh],
                                    ) && !touched_before(e, start, fh));
                                    if fh < j - 1 {
                                        assert(touched_before(e, start, j - 1));
                                    }
                                    if fh > j - 1 {
                                        assert(touched_before(e, start, fh));
                                    }
                                }
                                let hp = h.position.unwrap();
                                let v = knockback_from(&p, &hp);
                                let mut pl2 = pl;
                                pl2.in_hit = true;
                                pl2.last_hit = 0;
                                pl2.health = sat_i32_exec(pl.health as i64 - HIT_DAMAGE as i64);
                                let mut m2 = m;
                                m2.velocity_x = v.0;
                                m2.velocity_y = v.1;
                                e.player = Some(pl2);
                                e.mover = Some(m2);
                                hits = hits + 1;
                            } else {
                                assert(!touched_before(e, start, n as int));
                            }
                        }
                    },
                    _ => {},
                }
            }
            world.entities.set(i, e);
            i += 1;
        }
        assert(world.entities@ =~= damaged_all(start));
        hits
    }

    /// The enemy phase of a tick: patrol, then damage. Returns the number of
    /// hits.
    pub fn run(&mut self, world: &mut World) -> (hits: usize)
        requires
            old(world).wf(),
        ensures
            final(world).entities@ == enemy_phase(old(world).entities@),
            hits == hit_count(
                patrolled_all(old(world).entities@),
                old(world).entities@.len(),
            ),
            final(world).score == old(world).score,
            final(world).camera == old(world).camera,
            final(world).wf(),
    {
        self.patrol(world);
        self.damage(world)
    }
}

} // verus!
