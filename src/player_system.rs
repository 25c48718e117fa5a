//! The player's turn of a tick: health decay and falls, cooldowns, steering,
//! jumping, throwing, healing and picking up ingredients.
use vstd::prelude::*;
use crate::geometry::{Position, overlaps, check_collision};
use crate::motion::{Mover, JumpState, SPEED_LIMIT, held, div_toward_zero};
use crate::components::{Player, Ingredient, PotionInfo};
use crate::world::{Entity, World, entities_wf};
use crate::enemy_system::{is_target, sat_i32};
use crate::potion_system::sat_u64;

verus! {

/// Hornwort spent on a throw.
pub const ATTACK_H_COST: u64 = 3;

/// Mushrooms spent on a throw.
pub const ATTACK_M_COST: u64 = 1;

/// Hornwort spent on a heal.
pub const HEAL_H_COST: u64 = 1;

/// Mushrooms spent on a heal.
pub const HEAL_M_COST: u64 = 3;

/// Health restored by a heal.
pub const HEAL_AMOUNT: i32 = 10;

/// Running speed at full axis deflection.
pub const RUN_SPEED: i64 = 140_000;

/// A player whose center drops below this height dies.
pub const FALL_LIMIT: i64 = -50_000;

/// What the player asks for this tick.
#[derive(Clone, Copy, Debug, PartialEq, Eq)]
pub struct PlayerInput {
    /// Horizontal axis in thousandths: -1000 is full left, 1000 full right.
    pub axis: Option<i64>,
    pub jump: bool,
    pub throw: bool,
    pub heal: bool,
    pub pickup: bool,
    /// Pointer position in screen pixels.
    pub mouse: Option<(i64, i64)>,
}

/// What the player phase reports back.
#[derive(Clone, Copy, Debug, PartialEq, Eq)]
pub struct PlayerReport {
    /// No player is left alive with health.
    pub lose: bool,
    /// A throw to be spawned.
    pub potion: Option<PotionInfo>,
}

/// Health decay clock and the player phase.
pub struct PlayerSystem {
    /// Microseconds between two points of health decay.
    pub health_tick_rate: u64,
    /// Microseconds since the last point of decay.
    pub last_tick: u64,
}

/// Health after decay and the fall check, never below zero.
pub open spec fn health_after(p: Player, y: int, tick: bool) -> i32 {
    let h = if tick {
        sat_i32(p.health - 1)
    } else {
        p.health
    };
    let h2 = if y < FALL_LIMIT {
        0
    } else {
        h
    };
    if h2 <= 0 {
        0
    } else {
        h2
    }
}

/// Horizontal velocity asked for by an axis value.
pub open spec fn run_velocity(a: int) -> i64 {
    held(div_toward_zero(a * RUN_SPEED, 1000), SPEED_LIMIT as int) as i64
}

/// Health, decay and cooldown timers after `dt` microseconds.
pub open spec fn aged(p: Player, y: int, dt: u64, tick: bool) -> Player {
    Player {
        health: health_after(p, y, tick),
        last_hit: p.last_hit.saturating_add(dt),
        last_throw: p.last_throw.saturating_add(dt),
        last_heal: p.last_heal.saturating_add(dt),
        ..p
    }
}

/// A knocked-back player regains control once `hit_last` has passed;
/// otherwise the axis sets the running speed.
pub open spec fn steered(p: Player, m: Mover, input: PlayerInput) -> (Player, Mover) {
    if p.in_hit {
        (Player { in_hit: !(p.last_hit > p.hit_last), ..p }, m)
    } else {
        match input.axis {
            Some(a) => (p, Mover { velocity_x: run_velocity(a as int), ..m }),
            None => (p, m),
        }
    }
}

/// A jump is asked for only from the ground.
pub open spec fn jump_asked(m: Mover, input: PlayerInput) -> Mover {
    if input.jump && m.jump_state == JumpState::Landed {
        Mover { jump_state: JumpState::Jump, ..m }
    } else {
        m
    }
}

pub open spec fn throws(p: Player, input: PlayerInput) -> bool {
    input.throw && p.last_throw > p.throw_cooldown && p.hornwort >= ATTACK_H_COST && p.mushroom
        >= ATTACK_M_COST
}

pub open spec fn heals(p: Player, input: PlayerInput) -> bool {
    input.heal && p.last_heal > p.heal_cooldown && p.hornwort >= HEAL_H_COST && p.mushroom
        >= HEAL_M_COST
}

/// Throw and heal, each when asked for, off cooldown and paid for; either
/// restarts the throw cooldown.
pub open spec fn spent(p: Player, pos: Position, input: PlayerInput) -> (Player, Option<PotionInfo>) {
    let mouse = match input.mouse {
        Some(mp) => mp,
        None => (0i64, 0i64),
    };
    let t = throws(p, input);
    let p3 = if t {
        Player {
            hornwort: (p.hornwort - ATTACK_H_COST) as u64,
            mushroom: (p.mushroom - ATTACK_M_COST) as u64,
            last_throw: 0,
            ..p
        }
    } else {
        p
    };
    let request = if t {
        Some(PotionInfo { px: pos.x, py: pos.y, mx: mouse.0, my: mouse.1 })
    } else {
        None
    };
    let h = heals(p3, input);
    let p4 = if h {
        Player {
            hornwort: (p3.hornwort - HEAL_H_COST) as u64,
            mushroom: (p3.mushroom - HEAL_M_COST) as u64,
            health: sat_i32(p3.health + HEAL_AMOUNT),
            last_heal: 0,
            ..p3
        }
    } else {
        p3
    };
    let p5 = if t || h {
        Player { last_throw: 0, ..p4 }
    } else {
        p4
    };
    (p5, request)
}

/// Player, mover and throw request after the player's own turn; `tick` says
/// whether a point of health decays now.
pub open spec fn player_turn(
    p: Player,
    m: Mover,
    pos: Position,
    input: PlayerInput,
    dt: u64,
    tick: bool,
) -> (Player, Mover, Option<PotionInfo>) {
    let p1 = aged(p, pos.y as int, dt, tick);
    let (p2, m2) = steered(p1, m, input);
    let m3 = jump_asked(m2, input);
    let (p5, request) = spent(p2, pos, input);
    (p5, m3, request)
}

/// An entity after the player's own turn; a player out of health is
/// destroyed.
pub open spec fn turned(e: Entity, input: PlayerInput, dt: u64, tick: bool) -> Entity {
    if is_target(e) {
        let pos = e.position.unwrap();
        let (p, m, _) = player_turn(e.player.unwrap(), e.mover.unwrap(), pos, input, dt, tick);
        Entity {
            player: Some(p),
            mover: Some(m),
            doomed: e.doomed || health_after(e.player.unwrap(), pos.y as int, tick) == 0,
            ..e
        }
    } else {
        e
    }
}

pub open spec fn turned_all(ents: Seq<Entity>, input: PlayerInput, dt: u64, tick: bool) -> Seq<
    Entity,
> {
    Seq::new(ents.len(), |i: int| turned(ents[i], input, dt, tick))
}

/// The throw request of the last player among the first `n` that throws.
pub open spec fn last_request(
    ents: Seq<Entity>,
    input: PlayerInput,
    dt: u64,
    tick: bool,
    n: nat,
) -> Option<PotionInfo>
    decreases n,
{
    if n == 0 {
        None
    } else {
        let e = ents[n - 1];
        let r = if is_target(e) {
            player_turn(e.player.unwrap(), e.mover.unwrap(), e.position.unwrap(), input, dt, tick).2
        } else {
            None
        };
        match r {
            Some(info) => Some(info),
            None => last_request(ents, input, dt, tick, (n - 1) as nat),
        }
    }
}

/// Whether the game is lost: true when the last player among the first `n`
/// is out of health, or when there is none.
pub open spec fn lost(ents: Seq<Entity>, tick: bool, n: nat) -> bool
    decreases n,
{
    if n == 0 {
        true
    } else {
        let e = ents[n - 1];
        if is_target(e) {
            health_after(e.player.unwrap(), e.position.unwrap().y as int, tick) == 0
        } else {
            lost(ents, tick, (n - 1) as nat)
        }
    }
}

/// Can be picked up: alive, an ingredient, with collider and position.
pub open spec fn is_pickup(e: Entity) -> bool {
    e.alive && e.ingredient.is_some() && e.position.is_some() && e.collider.is_some()
}

/// Player `p` stands on ingredient `t`.
pub open spec fn collects(p: Entity, t: Entity) -> bool {
    is_target(p) && is_pickup(t) && overlaps(
        p.position.unwrap(),
        p.collider.unwrap(),
        t.position.unwrap(),
        t.collider.unwrap(),
    )
}

pub open spec fn hornwort_of(t: Entity) -> nat {
    match t.ingredient {
        Some(Ingredient::Hornwort { count }) => count as nat,
        _ => 0,
    }
}

pub open spec fn mushroom_of(t: Entity) -> nat {
    match t.ingredient {
        Some(Ingredient::Mushroom { count }) => count as nat,
        _ => 0,
    }
}

/// Hornwort that `p` collects from the first `m` entities.
pub open spec fn hornwort_gain(p: Entity, ents: Seq<Entity>, m: nat) -> nat
    decreases m,
{
    if m == 0 {
        0
    } else {
        hornwort_gain(p, ents, (m - 1) as nat) + if collects(p, ents[m - 1]) {
            hornwort_of(ents[m - 1])
        } else {
            0
        }
    }
}

/// Mushrooms that `p` collects from the first `m` entities.
pub open spec fn mushroom_gain(p: Entity, ents: Seq<Entity>, m: nat) -> nat
    decreases m,
{
    if m == 0 {
        0
    } else {
        mushroom_gain(p, ents, (m - 1) as nat) + if collects(p, ents[m - 1]) {
            mushroom_of(ents[m - 1])
        } else {
            0
        }
    }
}

/// Some player among the first `m` entities collects `t`.
pub open spec fn collected_by(t: Entity, ents: Seq<Entity>, m: int) -> bool {
    exists|j: int| 0 <= j < m && collects(#[trigger] ents[j], t)
}

/// An entity after the pickup sweep: a player gains what it stands on, and
/// what is picked up is destroyed.
pub open spec fn gathered(e: Entity, ents: Seq<Entity>) -> Entity {
    let n = ents.len();
    let e1 = if is_target(e) {
        let p = e.player.unwrap();
        Entity {
            player: Some(
                Player {
                    hornwort: sat_u64(p.hornwort + hornwort_gain(e, ents, n)),
                    mushroom: sat_u64(p.mushroom + mushroom_gain(e, ents, n)),
                    ..p
                },
            ),
            ..e
        }
    } else {
        e
    };
    if collected_by(e, ents, n as int) {
        Entity { doomed: true, ..e1 }
    } else {
        e1
    }
}

pub open spec fn gathered_all(ents: Seq<Entity>) -> Seq<Entity> {
    Seq::new(ents.len(), |i: int| gathered(ents[i], ents))
}

/// The entities after the player phase.
pub open spec fn player_phase(ents: Seq<Entity>, input: PlayerInput, dt: u64, tick: bool) -> Seq<
    Entity,
> {
    let t = turned_all(ents, input, dt, tick);
    if input.pickup {
        gathered_all(t)
    } else {
        t
    }
}

fn sat_i32_add(a: i32, b: i32) -> (r: i32)
    ensures
        r == sat_i32(a + b),
{
    let v = a as i64 + b as i64;
    if v > i32::MAX as i64 {
        i32::MAX
    } else if v < i32::MIN as i64 {
        i32::MIN
    } else {
        v as i32
    }
}

fn run_velocity_exec(a: i64) -> (v: i64)
    ensures
        v == run_velocity(a as int),
{
    let num = a as i128 * RUN_SPEED as i128;
    assert(-0x1000_0000_0000_0000_0000_0000 <= num <= 0x1000_0000_0000_0000_0000_0000) by (nonlinear_arith)
        requires num == a * RUN_SPEED, i64::MIN <= a <= i64::MAX;
    let q = if num >= 0 {
        num / 1000
    } else {
        -((-num) / 1000)
    };
    if q > SPEED_LIMIT as i128 {
        SPEED_LIMIT
    } else if q < -(SPEED_LIMIT as i128) {
        -SPEED_LIMIT
    } else {
        q as i64
    }
}

fn age(player: &mut Player, y: i64, dt: u64, tick: bool)
    ensures
        *final(player) == aged(*old(player), y as int, dt, tick),
{
    if tick {
        player.health = sat_i32_add(player.health, -1);
    }
    if y < FALL_LIMIT {
        player.health = 0;
    }
    if player.health <= 0 {
        player.health = 0;
    }
    player.last_hit = player.last_hit.saturating_add(dt);
    player.last_throw = player.last_throw.saturating_add(dt);
    player.last_heal = player.last_heal.saturating_add(dt);
}

fn steer(player: &mut Player, mover: &mut Mover, input: &PlayerInput)
    requires
        old(mover).wf(),
    ensures
        *final(player) == steered(*old(player), *old(mover), *input).0,
        *final(mover) == jump_asked(steered(*old(player), *old(mover), *input).1, *input),
        final(mover).wf(),
{
    if player.in_hit {
        if player.last_hit > player.hit_last {
            player.in_hit = false;
        }
    } else {
        match input.axis {
            Some(a) => {
                mover.velocity_x = run_velocity_exec(a);
            },
            None => {},
        }
    }
    if input.jump {
        if let JumpState::Landed = mover.jump_state {
            mover.jump_state = JumpState::Jump;
        }
    }
}

fn spend(player: &mut Player, pos: &Position, input: &PlayerInput) -> (request: Option<PotionInfo>)
    ensures
        (*final(player), request) == spent(*old(player), *pos, *input),
{
    let mut throw = false;
    let mut request = None;
    if input.throw && player.last_throw > player.throw_cooldown {
        if player.hornwort >= ATTACK_H_COST && player.mushroom >= ATTACK_M_COST {
            player.hornwort = player.hornwort - ATTACK_H_COST;
            player.mushroom = player.mushroom - ATTACK_M_COST;
            let mouse = match input.mouse {
                Some(mp) => mp,
                None => (0, 0),
            };
            request = Some(PotionInfo { px: pos.x, py: pos.y, mx: mouse.0, my: mouse.1 });
            player.last_throw = 0;
            throw = true;
        }
    }
    if input.heal && player.last_heal > player.heal_cooldown {
        if player.hornwort >= HEAL_H_COST && player.mushroom >= HEAL_M_COST {
            player.hornwort = player.hornwort - HEAL_H_COST;
            player.mushroom = player.mushroom - HEAL_M_COST;
            player.health = sat_i32_add(player.health, HEAL_AMOUNT);
            player.last_heal = 0;
            throw = true;
        }
    }
    if throw {
        player.last_throw = 0;
    }
    request
}

/// The player's own turn, without pickups.
pub fn take_turn(
    player: &mut Player,
    mover: &mut Mover,
    pos: &Position,
    input: &PlayerInput,
    dt: u64,
    tick: bool,
) -> (r: (Option<PotionInfo>, bool))
    requires
        old(mover).wf(),
    ensures
        r.1 == (health_after(*old(player), pos.y as int, tick) == 0),
        (*final(player), *final(mover), r.0) == player_turn(
            *old(player),
            *old(mover),
            *pos,
            *input,
            dt,
            tick,
        ),
        final(mover).wf(),
{
    age(player, pos.y, dt, tick);
    let out = player.health == 0;
    steer(player, mover, input);
    (spend(player, pos, input), out)
}

/// Whether a point of health decays after `dt` more microseconds, and the
/// decay clock afterwards.
pub open spec fn decay_clock(rate: u64, last: u64, dt: u64) -> (bool, u64) {
    let t = last.saturating_add(dt);
    if t >= rate {
        (true, 0)
    } else {
        (false, t)
    }
}

impl PlayerSystem {
    /// Advances the health decay clock by `dt` microseconds; says whether a
    /// point of health decays now.
    pub fn advance_clock(&mut self, dt: u64) -> (tick: bool)
        ensures
            (tick, final(self).last_tick) == decay_clock(
                old(self).health_tick_rate,
                old(self).last_tick,
                dt,
            ),
            final(self).health_tick_rate == old(self).health_tick_rate,
    {
        self.last_tick = self.last_tick.saturating_add(dt);
        let tick = self.last_tick >= self.health_tick_rate;
        if tick {
            self.last_tick = 0;
        }
        tick
    }

    /// Every player's own turn. Returns the last throw request and whether
    /// the game is lost.
    pub fn turn_all(&self, world: &mut World, input: &PlayerInput, dt: u64, tick: bool) -> (r: (
        Option<PotionInfo>,
        bool,
    ))
        requires
            old(world).wf(),
        ensures
            final(world).entities@ == turned_all(old(world).entities@, *input, dt, tick),
            r.0 == last_request(old(world).entities@, *input, dt, tick, old(world).entities@.len()),
            r.1 == lost(old(world).entities@, tick, old(world).entities@.len()),
            final(world).score == old(world).score,
            final(world).camera == old(world).camera,
            final(world).wf(),
    {
        let n = world.entities.len();
        let ghost start = world.entities@;
        let mut request: Option<PotionInfo> = None;
        let mut lose = true;
        let mut i: usize = 0;
        while i < n
            invariant
                0 <= i <= n == start.len() == world.entities@.len(),
                start == old(world).entities@,
                world.score == old(world).score,
                world.camera == old(world).camera,
                world.camera.wf(),
                entities_wf(start),
                request == last_request(start, *input, dt, tick, i as nat),
                lose == lost(start, tick, i as nat),
                forall|k: int|
                    0 <= k < i ==> world.entities@[k] == #[trigger] turned(start[k], *input, dt, tick),
                forall|k: int| 0 <= k < n ==> #[trigger] world.entities@[k].wf(),
                forall|k: int| i <= k < n ==> world.entities@[k] == start[k],
            decreases n - i,
        {
            let mut e = world.entities[i];
            assert(e.wf());
            if e.alive {
                match (e.player, e.mover, e.position, e.collider) {
                    (Some(p0), Some(m0), Some(pos), Some(_)) => {
                        let mut p = p0;
                        let mut m = m0;
                        let (r, out) = take_turn(&mut p, &mut m, &pos, input, dt, tick);
                        lose = out;
                        if lose {
                            e.doomed = true;
                        }
                        match r {
                            Some(info) => {
                                request = Some(info);
                            },
                            None => {},
                        }
                        e.player = Some(p);
                        e.mover = Some(m);
                    },
                    _ => {},
                }
            }
            world.entities.set(i, e);
            i += 1;
        }
        assert(world.entities@ =~= turned_all(start, *input, dt, tick));
        (request, lose)
    }

    /// Every player collects the ingredients it stands on; those are
    /// destroyed.
    pub fn gather(&self, world: &mut World)
        requires
            old(world).wf(),
        ensures
            final(world).entities@ == gathered_all(old(world).entities@),
            final(world).score == old(world).score,
            final(world).camera == old(world).camera,
            final(world).wf(),
    {
        let n = world.entities.len();
        let ghost start = world.entities@;
        let mut i: usize = 0;
        while i < n
            invariant
                0 <= i <= n == start.len() == world.entities@.len(),
                start == old(world).entities@,
                world.score == old(world).score,
                world.camera == old(world).camera,
                world.camera.wf(),
                entities_wf(start),
                forall|k: int| 0 <= k < i ==> world.entities@[k] == #[trigger] gathered(start[k], start),
                forall|k: int| 0 <= k < n ==> #[trigger] world.entities@[k].wf(),
                forall|k: int| i <= k < n ==> world.entities@[k] == start[k],
            decreases n - i,
        {
            let mut e = world.entities[i];
            assert(e.wf());
            let target = e.alive && e.player.is_some() && e.mover.is_some() && e.position.is_some()
                && e.collider.is_some();
            let pickup = e.alive && e.ingredient.is_some() && e.position.is_some()
                && e.collider.is_some();
            let mut hornwort: u64 = match e.player {
                Some(p) => p.hornwort,
                None => 0,
            };
            let mut mushroom: u64 = match e.player {
                Some(p) => p.mushroom,
                None => 0,
            };
            let ghost h0 = hornwort;
            let ghost m0 = mushroom;
            let mut taken = false;
            let mut j: usize = 0;
            while j < n
                invariant
                    0 <= j <= n == start.len() == world.entities@.len(),
                    i < n,
                    e == start[i as int],
                    e.wf(),
                    entities_wf(start),
                    target == is_target(e),
                    pickup == is_pickup(e),
                    hornwort == sat_u64(h0 + hornwort_gain(e, start, j as nat)),
                    mushroom == sat_u64(m0 + mushroom_gain(e, start, j as nat)),
                    taken == collected_by(e, start, j as int),
                    forall|k: int| 0 <= k < i ==> world.entities@[k] == #[trigger] gathered(start[k], start),
                    forall|k: int| i <= k < n ==> world.entities@[k] == start[k],
                decreases n - j,
            {
                let q = world.entities[j];
                let ghost s = start[j as int];
                proof {
                    assert(s.wf());
                    if (j as int) < (i as int) {
                        assert(q == gathered(s, start));
                    }
                    assert(q.alive == s.alive && q.ingredient == s.ingredient && q.position
                        == s.position && q.collider == s.collider && q.player.is_some()
                        == s.player.is_some() && q.mover == s.mover);
                }
                let q_target = q.alive && q.player.is_some() && q.mover.is_some()
                    && q.position.is_some() && q.collider.is_some();
                let q_pickup = q.alive && q.ingredient.is_some() && q.position.is_some()
                    && q.collider.is_some();
                if target && q_pickup {
                    if check_collision(
                        &e.collider.unwrap(),
                        &e.position.unwrap(),
                        &q.collider.unwrap(),
                        &q.position.unwrap(),
                    ) {
                        match q.ingredient {
                            Some(Ingredient::Hornwort { count }) => {
                                hornwort = hornwort.saturating_add(count);
                            },
                            Some(Ingredient::Mushroom { count }) => {
                                mushroom = mushroom.saturating_add(count);
                            },
                            None => {},
                        }
                    }
                }
                if pickup && q_target {
                    if check_collision(
                        &q.collider.unwrap(),
                        &q.position.unwrap(),
                        &e.collider.unwrap(),
                        &e.position.unwrap(),
                    ) {
                        taken = true;
                    }
                }
                proof {
                    if collected_by(e, start, j + 1) && !collects(s, e) {
                        let w = choose|w: int| 0 <= w < j + 1 && collects(#[trigger] start[w], e);
                        assert(w < j);
                        assert(collected_by(e, start, j as int));
                    }
                    if collects(s, e) {
                        assert(collected_by(e, start, j + 1));
                    }
                }
                j += 1;
            }
            if target {
                let mut p = e.player.unwrap();
                p.hornwort = hornwort;
                p.mushroom = mushroom;
                e.player = Some(p);
            }
            if taken {
                e.doomed = true;
            }
            world.entities.set(i, e);
            i += 1;
        }
        assert(world.entities@ =~= gathered_all(start));
    }

    /// The player phase of a tick of `dt` microseconds: health decay on its
    /// clock, every player's own turn, then pickups when asked for.
    pub fn run(&mut self, world: &mut World, input: &PlayerInput, dt: u64) -> (report: PlayerReport)
        requires
            old(world).wf(),
        ensures
            ({
                let (tick, clock) = decay_clock(
                    old(self).health_tick_rate,
                    old(self).last_tick,
                    dt,
                );
                &&& final(self).last_tick == clock
                &&& final(self).health_tick_rate == old(self).health_tick_rate
                &&& final(world).entities@ == player_phase(old(world).entities@, *input, dt, tick)
                &&& report.potion == last_request(
                    old(world).entities@,
                    *input,
                    dt,
                    tick,
                    old(world).entities@.len(),
                )
                &&& report.lose == lost(old(world).entities@, tick, old(world).entities@.len())
            }),
            final(world).score == old(world).score,
            final(world).camera == old(world).camera,
            final(world).wf(),
    {
        let tick = self.advance_clock(dt);
        let (potion, lose) = self.turn_all(world, input, dt, tick);
        if input.pickup {
            self.gather(world);
        }
        PlayerReport { lose, potion }
    }
}

} // verus!
