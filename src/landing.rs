//! A body falling onto a single platform: it lands within finitely many
//! ticks, and once landed it stays at rest.
use vstd::prelude::*;
use vstd::arithmetic::div_mod::lemma_div_is_ordered;
use crate::world::Entity;
use crate::mover_system::{
    is_body, is_platform, is_mover, moved_all, integrated_all, settled, lemma_movement_caps_fall,
};
use crate::geometry::{Position, Collider, COORD_LIMIT, bottom2, top2, left2, right2};
use crate::motion::{
    Mover, JumpState, MAX_DROP_VELOCITY, GRAVITY, VERTICAL_SCALE, MICROS, integrated, resolved, sag,
    rise, gravity_dv, fall_velocity, Push, chosen_push, push_up2,
};

verus! {

/// One tick of a body over a world whose only platform is `pp`, `pc`:
/// integration, then a resolution pass that starts airborne.
pub open spec fn tick_on(
    m: Mover,
    p: Position,
    c: Collider,
    pp: Position,
    pc: Collider,
    dt: int,
) -> (Mover, Position) {
    let (m1, p1) = integrated(m, p, dt);
    resolved(Mover { jump_state: JumpState::Airborne, ..m1 }, p1, c, pp, pc)
}

/// `n` ticks of `tick_on`.
pub open spec fn ticks_on(
    m: Mover,
    p: Position,
    c: Collider,
    pp: Position,
    pc: Collider,
    dt: int,
    n: nat,
) -> (Mover, Position)
    decreases n,
{
    if n == 0 {
        (m, p)
    } else {
        let (m1, p1) = tick_on(m, p, c, pp, pc, dt);
        ticks_on(m1, p1, c, pp, pc, dt, (n - 1) as nat)
    }
}

/// At rest on the platform: no vertical speed, landed, and the bottom edge on
/// the platform's top edge (half a unit above it when the two heights sum to
/// an odd number).
pub open spec fn resting_on(m: Mover, p: Position, c: Collider, pp: Position, pc: Collider) -> bool {
    &&& m.velocity_y == 0
    &&& m.jump_state == JumpState::Landed
    &&& bottom2(p, c) == top2(pp, pc) + (c.height + pc.height) % 2
}

/// Largest drop in one tick for a body that falls no faster than the
/// terminal speed.
pub open spec fn fall_bound(dt: int) -> int {
    (VERTICAL_SCALE * MAX_DROP_VELOCITY) as int * dt / (1000 * MICROS) as int + sag(dt)
}

/// The platform holds the body: the tick has positive length, the body does
/// not move sideways and stays in its bounds, a tick's largest drop is small
/// against both heights and against the overlap of the two boxes on either
/// side, and the platform stands well inside the world.
pub open spec fn holds(m: Mover, p: Position, c: Collider, pp: Position, pc: Collider, dt: int) -> bool {
    let f = fall_bound(dt);
    &&& m.wf()
    &&& p.wf()
    &&& c.wf()
    &&& pp.wf()
    &&& pc.wf()
    &&& 0 < dt <= u32::MAX
    &&& m.velocity_x == 0
    &&& (m.bounds matches Some(b) ==> b.min_x <= p.x <= b.max_x)
    &&& 2 * f + 1 < right2(pp, pc) - left2(p, c)
    &&& 2 * f + 1 < right2(p, c) - left2(pp, pc)
    &&& 2 * f + 1 <= c.height + pc.height
    &&& top2(pp, pc) >= 2 * f - 2 * COORD_LIMIT
    &&& top2(pp, pc) + 2 * c.height + 2 <= 2 * COORD_LIMIT
}

proof fn lemma_rise_bounds(vy: int, dt: int)
    requires
        -MAX_DROP_VELOCITY <= vy <= 0,
        0 <= dt,
    ensures
        -fall_bound(dt) <= rise(vy, dt) <= -sag(dt),
{
    let a = VERTICAL_SCALE as int * vy * dt;
    let big = (VERTICAL_SCALE * MAX_DROP_VELOCITY) as int * dt;
    assert(a <= 0) by (nonlinear_arith)
        requires vy <= 0, dt >= 0, a == VERTICAL_SCALE as int * vy * dt;
    assert(-a <= big) by (nonlinear_arith)
        requires -MAX_DROP_VELOCITY <= vy, dt >= 0, a == VERTICAL_SCALE as int * vy * dt,
            big == (VERTICAL_SCALE * MAX_DROP_VELOCITY) as int * dt;
    lemma_div_is_ordered(-a, big, (1000 * MICROS) as int);
    lemma_div_is_ordered(0, -a, (1000 * MICROS) as int);
}

/// A tick of positive length slows a body and pulls it down by at least one
/// unit each.
proof fn lemma_gravity_positive(dt: int)
    requires
        dt >= 1,
    ensures
        gravity_dv(dt) >= 1,
        sag(dt) >= 1,
{
    let m = MICROS as int;
    let a = GRAVITY as int * dt + m - 1;
    assert(a >= m);
    lemma_div_is_ordered(m, a, m);
    let g = GRAVITY as int * dt * dt;
    assert(g >= 1) by (nonlinear_arith)
        requires dt >= 1, g == GRAVITY as int * dt * dt;
    let d = 2 * m * m;
    lemma_div_is_ordered(d, g + d - 1, d);
}

/// One tick of a body above the platform, falling no faster than the
/// terminal speed: it either stays above, lower by at least one unit and
/// still falling, or it lands and rests.
proof fn lemma_tick_above(m: Mover, p: Position, c: Collider, pp: Position, pc: Collider, dt: int)
    requires
        holds(m, p, c, pp, pc, dt),
        -MAX_DROP_VELOCITY <= m.velocity_y <= 0,
        m.jump_state != JumpState::Jump,
        bottom2(p, c) >= top2(pp, pc),
    ensures
        ({
            let (m1, p1) = tick_on(m, p, c, pp, pc, dt);
            ||| resting_on(m1, p1, c, pp, pc) && p1.x == p.x
            ||| {
                &&& holds(m1, p1, c, pp, pc, dt)
                &&& -MAX_DROP_VELOCITY <= m1.velocity_y <= 0
                &&& m1.jump_state != JumpState::Jump
                &&& top2(pp, pc) <= bottom2(p1, c) <= bottom2(p, c) - 2
                &&& p1.x == p.x
            }
        }),
{
    let f = fall_bound(dt);
    lemma_rise_bounds(m.velocity_y as int, dt);
    lemma_gravity_positive(dt);
    let (mi, pi) = integrated(m, p, dt);
    let r = rise(m.velocity_y as int, dt);
    assert(pi.x == p.x);
    assert(pi.y == p.y + r);
    assert(mi.velocity_y == fall_velocity(m.velocity_y as int, dt));
    assert(mi.velocity_y < 0);
    let ma = Mover { jump_state: JumpState::Airborne, ..mi };
    let (m1, p1) = tick_on(m, p, c, pp, pc, dt);
    if bottom2(pi, c) >= top2(pp, pc) {
        assert((m1, p1) == (ma, pi));
    } else {
        let d = push_up2(pi, c, pp, pc);
        assert(0 < d <= 2 * f);
        assert(chosen_push(pi, c, pp, pc) == Push::Up);
        assert(m1.velocity_y == 0 && m1.jump_state == JumpState::Landed);
        assert(p1.y == pi.y + (d + 1) / 2);
        assert(d % 2 == (c.height + pc.height) % 2);
        assert(bottom2(p1, c) == top2(pp, pc) + (c.height + pc.height) % 2);
    }
}

/// A body falling no faster than the terminal speed, above or on a platform
/// that holds it, is at rest on it after finitely many ticks, at the same
/// horizontal position.
pub proof fn lemma_falling_body_lands(
    m: Mover,
    p: Position,
    c: Collider,
    pp: Position,
    pc: Collider,
    dt: int,
)
    requires
        holds(m, p, c, pp, pc, dt),
        -MAX_DROP_VELOCITY <= m.velocity_y <= 0,
        m.jump_state != JumpState::Jump,
        bottom2(p, c) >= top2(pp, pc),
    ensures
        exists|n: nat|
            #![trigger ticks_on(m, p, c, pp, pc, dt, n)]
            resting_on(
                ticks_on(m, p, c, pp, pc, dt, n).0,
                ticks_on(m, p, c, pp, pc, dt, n).1,
                c,
                pp,
                pc,
            ) && ticks_on(m, p, c, pp, pc, dt, n).1.x == p.x,
    decreases bottom2(p, c) - top2(pp, pc),
{
    lemma_tick_above(m, p, c, pp, pc, dt);
    let (m1, p1) = tick_on(m, p, c, pp, pc, dt);
    assert(ticks_on(m, p, c, pp, pc, dt, 1) == ticks_on(m1, p1, c, pp, pc, dt, 0));
    if resting_on(m1, p1, c, pp, pc) && p1.x == p.x {
        assert(resting_on(
            ticks_on(m, p, c, pp, pc, dt, 1).0,
            ticks_on(m, p, c, pp, pc, dt, 1).1,
            c,
            pp,
            pc,
        ));
    } else {
        lemma_falling_body_lands(m1, p1, c, pp, pc, dt);
        let k = choose|k: nat|
            #![trigger ticks_on(m1, p1, c, pp, pc, dt, k)]
            resting_on(
                ticks_on(m1, p1, c, pp, pc, dt, k).0,
                ticks_on(m1, p1, c, pp, pc, dt, k).1,
                c,
                pp,
                pc,
            ) && ticks_on(m1, p1, c, pp, pc, dt, k).1.x == p1.x;
        assert(ticks_on(m, p, c, pp, pc, dt, k + 1) == ticks_on(m1, p1, c, pp, pc, dt, k));
    }
}

/// A body at rest on a platform that holds it stays exactly as it is.
pub proof fn lemma_rest_is_kept(m: Mover, p: Position, c: Collider, pp: Position, pc: Collider, dt: int)
    requires
        holds(m, p, c, pp, pc, dt),
        resting_on(m, p, c, pp, pc),
    ensures
        tick_on(m, p, c, pp, pc, dt) == (m, p),
{
    lemma_tick_above(m, p, c, pp, pc, dt);
    let (m1, p1) = tick_on(m, p, c, pp, pc, dt);
    assert(bottom2(p1, c) == bottom2(p, c));
    assert(p1 == p);
    assert(m1 == m);
}

/// `n` movement phases of `dt` microseconds over the whole world.
pub open spec fn world_ticks(ents: Seq<Entity>, dt: int, n: nat) -> Seq<Entity>
    decreases n,
{
    if n == 0 {
        ents
    } else {
        world_ticks(moved_all(ents, dt), dt, (n - 1) as nat)
    }
}

/// A world of one body followed by one platform.
pub open spec fn body_and_platform(ents: Seq<Entity>) -> bool {
    &&& ents.len() == 2
    &&& is_body(ents[0])
    &&& ents[0].platform.is_none()
    &&& is_platform(ents[1])
    &&& ents[1].mover.is_none()
}

/// In a world of one body and one platform, the movement phase moves the body
/// by `tick_on` and leaves the platform as it is.
pub proof fn lemma_movement_phase_on_one_platform(ents: Seq<Entity>, dt: int)
    requires
        body_and_platform(ents),
    ensures
        ({
            let e = ents[0];
            let q = ents[1];
            let (m1, p1) = tick_on(
                e.mover.unwrap(),
                e.position.unwrap(),
                e.collider.unwrap(),
                q.position.unwrap(),
                q.collider.unwrap(),
                dt,
            );
            &&& moved_all(ents, dt).len() == 2
            &&& moved_all(ents, dt)[0] == Entity { mover: Some(m1), position: Some(p1), ..e }
            &&& moved_all(ents, dt)[1] == q
        }),
{
    let e = ents[0];
    let q = ents[1];
    let mid = integrated_all(ents, dt);
    assert(mid[1] == q);
    let (mi, pi) = integrated(e.mover.unwrap(), e.position.unwrap(), dt);
    assert(mid[0] == Entity { mover: Some(mi), position: Some(pi), ..e });
    let ma = Mover { jump_state: JumpState::Airborne, ..mi };
    let c = e.collider.unwrap();
    assert(settled(ma, pi, c, mid, 0) == (ma, pi));
    assert(!is_platform(mid[0]));
    assert(settled(ma, pi, c, mid, 1) == (ma, pi));
    assert(settled(ma, pi, c, mid, 2) == resolved(ma, pi, c, q.position.unwrap(), q.collider.unwrap()));
}

proof fn lemma_world_ticks_follow_body(ents: Seq<Entity>, dt: int, n: nat)
    requires
        body_and_platform(ents),
    ensures
        ({
            let e = ents[0];
            let q = ents[1];
            let (mn, pn) = ticks_on(
                e.mover.unwrap(),
                e.position.unwrap(),
                e.collider.unwrap(),
                q.position.unwrap(),
                q.collider.unwrap(),
                dt,
                n,
            );
            &&& world_ticks(ents, dt, n).len() == 2
            &&& world_ticks(ents, dt, n)[0] == Entity { mover: Some(mn), position: Some(pn), ..e }
            &&& world_ticks(ents, dt, n)[1] == q
        }),
    decreases n,
{
    if n > 0 {
        lemma_movement_phase_on_one_platform(ents, dt);
        let next = moved_all(ents, dt);
        assert(body_and_platform(next));
        lemma_world_ticks_follow_body(next, dt, (n - 1) as nat);
    } else {
        assert(ents[0] == Entity { mover: ents[0].mover, position: ents[0].position, ..ents[0] });
    }
}

/// In a world of one body and one platform that holds it, a body above the
/// platform falling no faster than the terminal speed is, after finitely many
/// movement phases, at rest on the platform: no vertical speed, landed, its
/// bottom edge on the platform's top edge.
pub proof fn lemma_body_comes_to_rest(ents: Seq<Entity>, dt: int)
    requires
        body_and_platform(ents),
        holds(
            ents[0].mover.unwrap(),
            ents[0].position.unwrap(),
            ents[0].collider.unwrap(),
            ents[1].position.unwrap(),
            ents[1].collider.unwrap(),
            dt,
        ),
        -MAX_DROP_VELOCITY <= ents[0].mover.unwrap().velocity_y <= 0,
        ents[0].mover.unwrap().jump_state != JumpState::Jump,
        bottom2(ents[0].position.unwrap(), ents[0].collider.unwrap()) >= top2(
            ents[1].position.unwrap(),
            ents[1].collider.unwrap(),
        ),
    ensures
        exists|n: nat|
            #![trigger world_ticks(ents, dt, n)]
            resting_on(
                world_ticks(ents, dt, n)[0].mover.unwrap(),
                world_ticks(ents, dt, n)[0].position.unwrap(),
                ents[0].collider.unwrap(),
                ents[1].position.unwrap(),
                ents[1].collider.unwrap(),
            ),
{
    let e = ents[0];
    let q = ents[1];
    let (m, p, c, pp, pc) = (
        e.mover.unwrap(),
        e.position.unwrap(),
        e.collider.unwrap(),
        q.position.unwrap(),
        q.collider.unwrap(),
    );
    lemma_falling_body_lands(m, p, c, pp, pc, dt);
    let n = choose|n: nat|
        #![trigger ticks_on(m, p, c, pp, pc, dt, n)]
        resting_on(ticks_on(m, p, c, pp, pc, dt, n).0, ticks_on(m, p, c, pp, pc, dt, n).1, c, pp, pc)
            && ticks_on(m, p, c, pp, pc, dt, n).1.x == p.x;
    lemma_world_ticks_follow_body(ents, dt, n);
}

/// In a world of one body at rest on one platform that holds it, the
/// movement phase changes nothing.
pub proof fn lemma_resting_world_is_kept(ents: Seq<Entity>, dt: int)
    requires
        body_and_platform(ents),
        holds(
            ents[0].mover.unwrap(),
            ents[0].position.unwrap(),
            ents[0].collider.unwrap(),
            ents[1].position.unwrap(),
            ents[1].collider.unwrap(),
            dt,
        ),
        resting_on(
            ents[0].mover.unwrap(),
            ents[0].position.unwrap(),
            ents[0].collider.unwrap(),
            ents[1].position.unwrap(),
            ents[1].collider.unwrap(),
        ),
    ensures
        moved_all(ents, dt) == ents,
{
    lemma_movement_phase_on_one_platform(ents, dt);
    lemma_rest_is_kept(
        ents[0].mover.unwrap(),
        ents[0].position.unwrap(),
        ents[0].collider.unwrap(),
        ents[1].position.unwrap(),
        ents[1].collider.unwrap(),
        dt,
    );
    assert(moved_all(ents, dt) =~= ents);
}

/// However many movement phases run, afterwards no moving entity falls
/// faster than the terminal speed.
pub proof fn lemma_repeated_movement_caps_fall(ents: Seq<Entity>, dt: int, n: nat)
    requires
        dt >= 0,
        n >= 1,
    ensures
        forall|i: int|
            0 <= i < world_ticks(ents, dt, n).len() && is_mover(
                #[trigger] world_ticks(ents, dt, n)[i],
            ) ==> world_ticks(ents, dt, n)[i].mover.unwrap().velocity_y >= -MAX_DROP_VELOCITY,
    decreases n,
{
    let next = moved_all(ents, dt);
    if n == 1 {
        assert(world_ticks(ents, dt, 1) == world_ticks(next, dt, 0));
        lemma_movement_caps_fall(ents, dt);
    } else {
        lemma_repeated_movement_caps_fall(next, dt, (n - 1) as nat);
    }
}

} // verus!
