//! The movement integrator and the platform penetration resolver.
use vstd::prelude::*;
use crate::geometry::{
    Position, Collider, COORD_LIMIT, overlaps, left2, right2, bottom2, top2, check_collision,
};

verus! {

/// Largest downward speed a falling body reaches.
pub const MAX_DROP_VELOCITY: i64 = 600_000;

/// Downward acceleration, in thousandths of a world unit per second squared.
pub const GRAVITY: i64 = 400_000;

/// Upward speed added by a jump.
pub const JUMP_VELOCITY: i64 = 250_000;

/// Scale on the velocity term of the vertical step, in thousandths.
pub const VERTICAL_SCALE: i64 = 1200;

/// Largest magnitude of a velocity component.
pub const SPEED_LIMIT: i64 = 1_000_000_000_000;

/// Microseconds in a second.
pub const MICROS: i64 = 1_000_000;

#[derive(Clone, Copy, Debug, PartialEq, Eq, Structural)]
pub enum JumpState {
    Landed,
    Airborne,
    Jump,
}

/// Horizontal range that a body's center is held in.
#[derive(Clone, Copy, Debug, PartialEq, Eq)]
pub struct XBounds {
    pub min_x: i64,
    pub max_x: i64,
}

/// The moving part of an entity: velocity, jump state and horizontal bounds.
#[derive(Clone, Copy, Debug, PartialEq, Eq)]
pub struct Mover {
    pub velocity_x: i64,
    pub velocity_y: i64,
    pub jump_state: JumpState,
    pub bounds: Option<XBounds>,
    /// Gravity scale in thousandths, carried for the entity's owner.
    pub gravity: i64,
}

pub open spec fn speed_ok(v: int) -> bool {
    -SPEED_LIMIT <= v <= SPEED_LIMIT
}

impl Mover {
    pub open spec fn wf(self) -> bool {
        &&& speed_ok(self.velocity_x as int)
        &&& speed_ok(self.velocity_y as int)
        &&& match self.bounds {
            Some(b) => -COORD_LIMIT <= b.min_x <= COORD_LIMIT && -COORD_LIMIT <= b.max_x
                <= COORD_LIMIT,
            None => true,
        }
    }

    /// A body at rest, airborne, held between `min_x` and `max_x`.
    pub fn new(min_x: i64, max_x: i64) -> (m: Mover)
        ensures
            m.velocity_x == 0,
            m.velocity_y == 0,
            m.jump_state == JumpState::Airborne,
            m.bounds == Some(XBounds { min_x, max_x }),
            m.gravity == 1000,
    {
        Mover {
            velocity_x: 0,
            velocity_y: 0,
            jump_state: JumpState::Airborne,
            bounds: Some(XBounds { min_x, max_x }),
            gravity: 1000,
        }
    }
}

/// Division that rounds toward zero.
pub open spec fn div_toward_zero(a: int, d: int) -> int {
    if a >= 0 {
        a / d
    } else {
        -((-a) / d)
    }
}

/// `v` held in `[-lim, lim]`.
pub open spec fn held(v: int, lim: int) -> int {
    if v > lim {
        lim
    } else if v < -lim {
        -lim
    } else {
        v
    }
}

/// `x` held in the body's horizontal bounds, if it has any.
pub open spec fn clamp_x(x: int, bounds: Option<XBounds>) -> int {
    match bounds {
        Some(b) => if x > b.max_x {
            b.max_x as int
        } else if x < b.min_x {
            b.min_x as int
        } else {
            x
        },
        None => x,
    }
}

/// Speed lost to gravity over `dt` microseconds, rounded up, so that every
/// tick of positive length slows a body.
pub open spec fn gravity_dv(dt: int) -> int {
    (GRAVITY as int * dt + MICROS as int - 1) / MICROS as int
}

/// Drop due to gravity over `dt` microseconds, `GRAVITY * dt * dt / 2`,
/// rounded up, so that every tick of positive length pulls a body at rest
/// into the surface under it.
pub open spec fn sag(dt: int) -> int {
    (GRAVITY as int * dt * dt + 2 * MICROS as int * MICROS as int - 1) / (2 * MICROS as int
        * MICROS as int)
}

/// Vertical step: the scaled velocity term less the gravity term.
pub open spec fn rise(vy: int, dt: int) -> int {
    div_toward_zero(VERTICAL_SCALE as int * vy * dt, 1000 * MICROS as int) - sag(dt)
}

/// Horizontal step.
pub open spec fn run_x(vx: int, dt: int) -> int {
    div_toward_zero(vx * dt, MICROS as int)
}

/// The body after a pending jump is taken: impulse added, state airborne.
pub open spec fn take_jump(m: Mover) -> Mover {
    if m.jump_state == JumpState::Jump {
        Mover {
            velocity_y: held(m.velocity_y + JUMP_VELOCITY, SPEED_LIMIT as int) as i64,
            jump_state: JumpState::Airborne,
            ..m
        }
    } else {
        m
    }
}

/// Vertical velocity after gravity, never below the terminal fall speed.
pub open spec fn fall_velocity(vy: int, dt: int) -> int {
    let v = vy - gravity_dv(dt);
    if v < -MAX_DROP_VELOCITY {
        -MAX_DROP_VELOCITY as int
    } else {
        v
    }
}

/// Body and position after one integration step of `dt` microseconds.
pub open spec fn integrated(m: Mover, p: Position, dt: int) -> (Mover, Position) {
    let j = take_jump(m);
    let y = held(p.y + rise(j.velocity_y as int, dt), COORD_LIMIT as int);
    let x = clamp_x(held(p.x + run_x(j.velocity_x as int, dt), COORD_LIMIT as int), j.bounds);
    (
        Mover { velocity_y: fall_velocity(j.velocity_y as int, dt) as i64, ..j },
        Position { x: x as i64, y: y as i64 },
    )
}

fn div_toward_zero_exec(a: i128, d: i128) -> (r: i128)
    requires
        d > 0,
        -0x1_0000_0000_0000_0000_0000_0000_0000 <= a <= 0x1_0000_0000_0000_0000_0000_0000_0000,
    ensures
        r == div_toward_zero(a as int, d as int),
{
    if a >= 0 {
        a / d
    } else {
        -((-a) / d)
    }
}

fn held_exec(v: i128, lim: i64) -> (r: i64)
    requires
        lim >= 0,
    ensures
        r == held(v as int, lim as int),
{
    if v > lim as i128 {
        lim
    } else if v < -(lim as i128) {
        -lim
    } else {
        v as i64
    }
}

/// Advances a body and its position by `dt` microseconds: a pending jump adds
/// its impulse, the position moves by the velocity and gravity terms and is
/// held in the bounds, and gravity slows the fall speed down to the terminal
/// speed. Coordinates are held within `COORD_LIMIT` of the origin and speeds
/// within `SPEED_LIMIT`.
pub fn integrate(mover: &mut Mover, pos: &mut Position, dt: u32)
    requires
        old(mover).wf(),
        old(pos).wf(),
    ensures
        (*final(mover), *final(pos)) == integrated(*old(mover), *old(pos), dt as int),
        final(mover).wf(),
        final(pos).wf(),
{
    if let JumpState::Jump = mover.jump_state {
        mover.velocity_y = held_exec(mover.velocity_y as i128 + JUMP_VELOCITY as i128, SPEED_LIMIT);
        mover.jump_state = JumpState::Airborne;
    }
    let dt_w = dt as i128;
    assert(0 <= dt_w * dt_w <= 0x1_0000_0000_0000_0000) by (nonlinear_arith)
        requires 0 <= dt_w < 0x1_0000_0000;
    assert(-0x1000_0000_0000_0000_0000_0000 <= VERTICAL_SCALE * mover.velocity_y * dt_w
        <= 0x1000_0000_0000_0000_0000_0000) by (nonlinear_arith)
        requires 0 <= dt_w < 0x1_0000_0000, -SPEED_LIMIT <= mover.velocity_y <= SPEED_LIMIT;
    assert(-0x1000_0000_0000_0000_0000_0000 <= mover.velocity_x * dt_w
        <= 0x1000_0000_0000_0000_0000_0000) by (nonlinear_arith)
        requires 0 <= dt_w < 0x1_0000_0000, -SPEED_LIMIT <= mover.velocity_x <= SPEED_LIMIT;
    let sag_w = (GRAVITY as i128 * (dt_w * dt_w) + 2 * MICROS as i128 * MICROS as i128 - 1) / (2
        * MICROS as i128 * MICROS as i128);
    assert(sag_w == sag(dt as int)) by (nonlinear_arith)
        requires
            sag_w == (GRAVITY as i128 * (dt_w * dt_w) + 2 * MICROS as i128 * MICROS as i128 - 1) / (
            2 * MICROS as i128 * MICROS as i128),
            dt_w == dt;
    let dy = div_toward_zero_exec(
        VERTICAL_SCALE as i128 * mover.velocity_y as i128 * dt_w,
        1000 * MICROS as i128,
    ) - sag_w;
    let dx = div_toward_zero_exec(mover.velocity_x as i128 * dt_w, MICROS as i128);
    let y = held_exec(pos.y as i128 + dy, COORD_LIMIT);
    let mut x = held_exec(pos.x as i128 + dx, COORD_LIMIT);
    match mover.bounds {
        Some(b) => {
            if x > b.max_x {
                x = b.max_x;
            } else if x < b.min_x {
                x = b.min_x;
            }
        },
        None => {},
    }
    pos.x = x;
    pos.y = y;
    let dv = (GRAVITY as i128 * dt_w + MICROS as i128 - 1) / MICROS as i128;
    let mut vy = mover.velocity_y as i128 - dv;
    if vy < -(MAX_DROP_VELOCITY as i128) {
        vy = -(MAX_DROP_VELOCITY as i128);
    }
    mover.velocity_y = vy as i64;
}

/// A body with horizontal bounds ends every integration step inside them,
/// whatever its speed and the length of the step.
pub proof fn lemma_integration_keeps_bounds(m: Mover, p: Position, dt: int)
    requires
        m.bounds matches Some(b) && b.min_x <= b.max_x,
    ensures
        m.bounds.unwrap().min_x <= integrated(m, p, dt).1.x <= m.bounds.unwrap().max_x,
{
}

/// No integration step leaves a body falling faster than the terminal speed,
/// whatever its velocity before.
pub proof fn lemma_integration_caps_fall(m: Mover, p: Position, dt: int)
    requires
        dt >= 0,
    ensures
        integrated(m, p, dt).0.velocity_y >= -MAX_DROP_VELOCITY,
{
}

/// Being pushed out of a platform never makes a body fall faster.
pub proof fn lemma_resolution_keeps_fall_cap(
    m: Mover,
    p: Position,
    c: Collider,
    pp: Position,
    pc: Collider,
)
    requires
        m.velocity_y >= -MAX_DROP_VELOCITY,
    ensures
        resolved(m, p, c, pp, pc).0.velocity_y >= -MAX_DROP_VELOCITY,
{
}

/// Direction in which an overlapping body is pushed out of a platform.
#[derive(Clone, Copy, Debug, PartialEq, Eq, Structural)]
pub enum Push {
    Right,
    Left,
    Up,
    Down,
}

pub open spec fn abs(v: int) -> int {
    if v < 0 {
        -v
    } else {
        v
    }
}

/// Smallest magnitude of the four displacements.
pub open spec fn min_magnitude(r: int, l: int, t: int, b: int) -> int {
    let m1 = if abs(l) < abs(r) {
        abs(l)
    } else {
        abs(r)
    };
    let m2 = if abs(t) < m1 {
        abs(t)
    } else {
        m1
    };
    if abs(b) < m2 {
        abs(b)
    } else {
        m2
    }
}

/// The displacement of least magnitude; on a tie the first of right, left,
/// up, down.
pub open spec fn push_axis(r: int, l: int, t: int, b: int) -> Push {
    let m = min_magnitude(r, l, t, b);
    if abs(r) == m {
        Push::Right
    } else if abs(l) == m {
        Push::Left
    } else if abs(t) == m {
        Push::Up
    } else {
        Push::Down
    }
}

/// Half of a doubled displacement, rounded away from zero so that the boxes
/// end up apart.
pub open spec fn half_out(d: int) -> int {
    if d >= 0 {
        (d + 1) / 2
    } else {
        -((-d + 1) / 2)
    }
}

/// Doubled displacements that separate the body at `p` with collider `c` from
/// the platform at `pp` with collider `pc`: pushing right, left, up, down.
pub open spec fn push_right2(p: Position, c: Collider, pp: Position, pc: Collider) -> int {
    right2(pp, pc) - left2(p, c)
}

pub open spec fn push_left2(p: Position, c: Collider, pp: Position, pc: Collider) -> int {
    left2(pp, pc) - right2(p, c)
}

pub open spec fn push_up2(p: Position, c: Collider, pp: Position, pc: Collider) -> int {
    top2(pp, pc) - bottom2(p, c)
}

pub open spec fn push_down2(p: Position, c: Collider, pp: Position, pc: Collider) -> int {
    bottom2(pp, pc) - top2(p, c)
}

pub open spec fn chosen_push(p: Position, c: Collider, pp: Position, pc: Collider) -> Push {
    push_axis(
        push_right2(p, c, pp, pc),
        push_left2(p, c, pp, pc),
        push_up2(p, c, pp, pc),
        push_down2(p, c, pp, pc),
    )
}

/// Body and position after being pushed out of one platform, if it overlaps
/// it. Landing on the top stops a fall and lands the body; hitting the bottom
/// stops a rise; a sideways push keeps the velocity.
pub open spec fn resolved(m: Mover, p: Position, c: Collider, pp: Position, pc: Collider) -> (
    Mover,
    Position,
) {
    let lim = COORD_LIMIT as int;
    if !overlaps(pp, pc, p, c) {
        (m, p)
    } else {
        match chosen_push(p, c, pp, pc) {
            Push::Right => (
                m,
                Position { x: held(p.x + half_out(push_right2(p, c, pp, pc)), lim) as i64, ..p },
            ),
            Push::Left => (
                m,
                Position { x: held(p.x + half_out(push_left2(p, c, pp, pc)), lim) as i64, ..p },
            ),
            Push::Up => (
                if m.velocity_y < 0 {
                    Mover { velocity_y: 0, jump_state: JumpState::Landed, ..m }
                } else {
                    m
                },
                Position { y: held(p.y + half_out(push_up2(p, c, pp, pc)), lim) as i64, ..p },
            ),
            Push::Down => (
                if m.velocity_y > 0 {
                    Mover { velocity_y: 0, ..m }
                } else {
                    m
                },
                Position { y: held(p.y + half_out(push_down2(p, c, pp, pc)), lim) as i64, ..p },
            ),
        }
    }
}

/// Resolution keeps a body and its position well formed.
pub proof fn lemma_resolved_wf(m: Mover, p: Position, c: Collider, pp: Position, pc: Collider)
    requires
        m.wf(),
        p.wf(),
    ensures
        resolved(m, p, c, pp, pc).0.wf(),
        resolved(m, p, c, pp, pc).1.wf(),
{
}

fn abs_exec(v: i64) -> (r: i64)
    requires
        v > i64::MIN,
    ensures
        r == abs(v as int),
{
    if v < 0 {
        -v
    } else {
        v
    }
}

fn half_out_exec(d: i64) -> (r: i64)
    requires
        -0x1000_0000_0000_0000 <= d <= 0x1000_0000_0000_0000,
    ensures
        r == half_out(d as int),
{
    if d >= 0 {
        (d + 1) / 2
    } else {
        -((-d + 1) / 2)
    }
}

/// Pushes a body out of one platform along the displacement of least
/// magnitude, if the two overlap. A displacement of an odd number of half
/// units is rounded away from the platform, so the two end up apart.
pub fn resolve(
    mover: &mut Mover,
    pos: &mut Position,
    collider: &Collider,
    platform_pos: &Position,
    platform_collider: &Collider,
)
    requires
        old(mover).wf(),
        old(pos).wf(),
        collider.wf(),
        platform_pos.wf(),
        platform_collider.wf(),
    ensures
        (*final(mover), *final(pos)) == resolved(
            *old(mover),
            *old(pos),
            *collider,
            *platform_pos,
            *platform_collider,
        ),
        final(mover).wf(),
        final(pos).wf(),
{
    if !check_collision(platform_collider, platform_pos, collider, pos) {
        return;
    }
    let dr = (2 * platform_pos.x + platform_collider.width) - (2 * pos.x - collider.width);
    let dl = (2 * platform_pos.x - platform_collider.width) - (2 * pos.x + collider.width);
    let dt = (2 * platform_pos.y + platform_collider.height) - (2 * pos.y - collider.height);
    let db = (2 * platform_pos.y - platform_collider.height) - (2 * pos.y + collider.height);

    let mut min = abs_exec(dr);
    min = if abs_exec(dl) < min {
        abs_exec(dl)
    } else {
        min
    };
    min = if abs_exec(dt) < min {
        abs_exec(dt)
    } else {
        min
    };
    min = if abs_exec(db) < min {
        abs_exec(db)
    } else {
        min
    };

    if abs_exec(dr) == min {
        pos.x = held_exec(pos.x as i128 + half_out_exec(dr) as i128, COORD_LIMIT);
    } else if abs_exec(dl) == min {
        pos.x = held_exec(pos.x as i128 + half_out_exec(dl) as i128, COORD_LIMIT);
    } else if abs_exec(dt) == min {
        if mover.velocity_y < 0 {
            mover.velocity_y = 0;
            mover.jump_state = JumpState::Landed;
        }
        pos.y = held_exec(pos.y as i128 + half_out_exec(dt) as i128, COORD_LIMIT);
    } else {
        if mover.velocity_y > 0 {
            mover.velocity_y = 0;
        }
        pos.y = held_exec(pos.y as i128 + half_out_exec(db) as i128, COORD_LIMIT);
    }
}

} // verus!
