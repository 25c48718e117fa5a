//! The tick driver: one simulation state, advanced phase by phase.
use vstd::prelude::*;
use crate::components::PotionInfo;
use crate::geometry::{overlaps, check_collision};
use crate::world::{Entity, World, maintained, entities_wf};
use crate::mover_system::{MoverSystem, moved_all};
use crate::enemy_system::{EnemySystem, patrolled_all, damaged_all, hit_count};
use crate::potion_system::{PotionSystem, swept_all, kill_total, sat_u64};
use crate::player_system::{
    PlayerSystem, PlayerInput, decay_clock, turned_all, gathered_all, last_request, lost,
};
use crate::weight::{WeightSystem, sunk_all};
use crate::animation::{SpriteAnimationSystem, animated_all};
use crate::camera::{CameraSystem, camera_for, focus};

verus! {

/// What a tick reports back.
#[derive(Clone, Copy, Debug, PartialEq, Eq)]
pub struct TickReport {
    /// Players hurt by enemies.
    pub hits: usize,
    /// Potion and enemy pairs that touched.
    pub kills: u64,
    /// No player is left with health.
    pub lose: bool,
    /// A throw to be spawned.
    pub potion: Option<PotionInfo>,
}

/// A live player with a box.
pub open spec fn is_walker(e: Entity) -> bool {
    e.alive && e.player.is_some() && e.position.is_some() && e.collider.is_some()
}

/// A live exit with a box.
pub open spec fn is_exit(e: Entity) -> bool {
    e.alive && e.gate.is_some() && e.position.is_some() && e.collider.is_some()
}

pub open spec fn at_exit(p: Entity, g: Entity) -> bool {
    is_walker(p) && is_exit(g) && overlaps(
        p.position.unwrap(),
        p.collider.unwrap(),
        g.position.unwrap(),
        g.collider.unwrap(),
    )
}

/// Whether some player overlaps some exit: the level is won.
pub fn reached_exit(world: &World) -> (r: bool)
    requires
        world.wf(),
    ensures
        r == exists|i: int, j: int|
            0 <= i < world.entities@.len() && 0 <= j < world.entities@.len() && at_exit(
                #[trigger] world.entities@[i],
                #[trigger] world.entities@[j],
            ),
{
    let n = world.entities.len();
    let ghost ents = world.entities@;
    let mut i: usize = 0;
    while i < n
        invariant
            0 <= i <= n == ents.len(),
            ents == world.entities@,
            entities_wf(ents),
            forall|a: int, b: int| 0 <= a < i && 0 <= b < n ==> !at_exit(#[trigger] ents[a], #[trigger] ents[b]),
        decreases n - i,
    {
        let p = world.entities[i];
        assert(p.wf());
        if p.alive && p.player.is_some() {
            match (p.position, p.collider) {
                (Some(pp), Some(pc)) => {
                    let mut j: usize = 0;
                    while j < n
                        invariant
                            0 <= j <= n == ents.len(),
                            i < n,
                            ents == world.entities@,
                            entities_wf(ents),
                            p == ents[i as int],
                            p.alive && p.player.is_some(),
                            p.position == Some(pp),
                            p.collider == Some(pc),
                            pp.wf(),
                            pc.wf(),
                            forall|b: int| 0 <= b < j ==> !at_exit(p, #[trigger] ents[b]),
                        decreases n - j,
                    {
                        let g = world.entities[j];
                        assert(g.wf());
                        if g.alive && g.gate.is_some() {
                            match (g.position, g.collider) {
                                (Some(gp), Some(gc)) => {
                                    if check_collision(&pc, &pp, &gc, &gp) {
                                        assert(at_exit(ents[i as int], ents[j as int]));
                                        return true;
                                    }
                                },
                                _ => {},
                            }
                        }
                        j += 1;
                    }
                },
                _ => {},
            }
        }
        i += 1;
    }
    false
}

/// The world and the systems that advance it.
pub struct Simulation {
    pub world: World,
    pub player_system: PlayerSystem,
    pub enemy_system: EnemySystem,
    pub mover_system: MoverSystem,
    pub potion_system: PotionSystem,
    pub weight_system: WeightSystem,
    pub animation_system: SpriteAnimationSystem,
    pub camera_system: CameraSystem,
}

impl Simulation {
    /// A simulation of `world` whose health decays one point every
    /// `health_tick_rate` microseconds.
    pub fn new(world: World, health_tick_rate: u64) -> (s: Simulation)
        ensures
            s.world == world,
            s.player_system.health_tick_rate == health_tick_rate,
            s.player_system.last_tick == 0,
    {
        Simulation {
            world,
            player_system: PlayerSystem { health_tick_rate, last_tick: 0 },
            enemy_system: EnemySystem {},
            mover_system: MoverSystem {},
            potion_system: PotionSystem {},
            weight_system: WeightSystem {},
            animation_system: SpriteAnimationSystem {},
            camera_system: CameraSystem {},
        }
    }

    /// One tick of `dt` microseconds: the player's turn on `input`, enemy
    /// patrols, integration and platform resolution, then the damage,
    /// potion and pickup sweeps, sinking, animation and the camera; the
    /// deletions recorded on the way are carried out last.
    pub fn tick(&mut self, input: &PlayerInput, dt: u32) -> (report: TickReport)
        requires
            old(self).world.wf(),
        ensures
            ({
                let d = dt as u64;
                let (tick, clock) = decay_clock(
                    old(self).player_system.health_tick_rate,
                    old(self).player_system.last_tick,
                    d,
                );
                let e0 = old(self).world.entities@;
                let e1 = turned_all(e0, *input, d, tick);
                let e2 = patrolled_all(e1);
                let e3 = moved_all(e2, dt as int);
                let e4 = damaged_all(e3);
                let e5 = swept_all(e4);
                let e6 = if input.pickup {
                    gathered_all(e5)
                } else {
                    e5
                };
                let e7 = animated_all(sunk_all(e6), d);
                &&& final(self).player_system.last_tick == clock
                &&& report.potion == last_request(e0, *input, d, tick, e0.len())
                &&& report.lose == lost(e0, tick, e0.len())
                &&& report.hits == hit_count(e3, e3.len())
                &&& report.kills == sat_u64(kill_total(e4, e4.len()) as int)
                &&& final(self).world.score == sat_u64(
                    old(self).world.score + kill_total(e4, e4.len()),
                )
                &&& final(self).world.camera == camera_for(focus(e7, e7.len()))
                &&& final(self).world.entities@ == maintained(e7)
            }),
            final(self).player_system.health_tick_rate == old(self).player_system.health_tick_rate,
            final(self).world.wf(),
    {
        let d = dt as u64;
        let tick = self.player_system.advance_clock(d);
        let (potion, lose) = self.player_system.turn_all(&mut self.world, input, d, tick);
        self.enemy_system.patrol(&mut self.world);
        self.mover_system.run(&mut self.world, dt);
        let hits = self.enemy_system.damage(&mut self.world);
        let kills = self.potion_system.run(&mut self.world);
        if input.pickup {
            self.player_system.gather(&mut self.world);
        }
        self.weight_system.run(&mut self.world);
        self.animation_system.run(&mut self.world, d);
        self.camera_system.run(&mut self.world);
        self.world.maintain();
        TickReport { hits, kills, lose, potion }
    }
}

} // verus!
