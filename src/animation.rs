//! Facing and frame selection for animated sprites.
use vstd::prelude::*;
use crate::motion::JumpState;
use crate::components::SpriteAnimation;
use crate::world::{Entity, World, entities_wf};

verus! {

/// Picks each animated entity's facing and sprite frame.
pub struct SpriteAnimationSystem {}

/// Animated: alive, with an animation, a mover and a sprite.
pub open spec fn is_animated(e: Entity) -> bool {
    e.alive && e.animation.is_some() && e.mover.is_some() && e.sprite.is_some()
}

/// The sprite for an animation that has run `a.elapsed_time`: the airborne
/// frame in the air, else a running or an idle frame.
pub open spec fn frame_of(a: SpriteAnimation, airborne: bool, moving: bool) -> usize {
    let step = (a.elapsed_time / a.time_per_frame) as int;
    if airborne {
        a.airborne_offset
    } else if moving {
        (a.move_offset + step % (a.move_count as int)) as usize
    } else {
        (a.idle_offset + step % (a.idle_count as int)) as usize
    }
}

pub open spec fn animated(e: Entity, dt: u64) -> Entity {
    if is_animated(e) {
        let m = e.mover.unwrap();
        let a0 = e.animation.unwrap();
        let a = SpriteAnimation { elapsed_time: a0.elapsed_time.saturating_add(dt), ..a0 };
        Entity {
            flipped: if m.velocity_x < 0 {
                true
            } else if m.velocity_x > 0 {
                false
            } else {
                e.flipped
            },
            animation: Some(a),
            sprite: Some(
                frame_of(a, m.jump_state == JumpState::Airborne, m.velocity_x != 0),
            ),
            ..e
        }
    } else {
        e
    }
}

pub open spec fn animated_all(ents: Seq<Entity>, dt: u64) -> Seq<Entity> {
    Seq::new(ents.len(), |i: int| animated(ents[i], dt))
}

fn frame(a: &SpriteAnimation, airborne: bool, moving: bool) -> (f: usize)
    requires
        a.wf(),
    ensures
        f == frame_of(*a, airborne, moving),
{
    let step = a.elapsed_time / a.time_per_frame;
    if airborne {
        a.airborne_offset
    } else if moving {
        a.move_offset + (step % a.move_count as u64) as usize
    } else {
        a.idle_offset + (step % a.idle_count as u64) as usize
    }
}

impl SpriteAnimationSystem {
    pub fn run(&mut self, world: &mut World, dt: u64)
        requires
            old(world).wf(),
        ensures
            final(world).entities@ == animated_all(old(world).entities@, dt),
            final(world).score == old(world).score,
            final(world).camera == old(world).camera,
            final(world).wf(),
    {
        let n = world.entities.len();
        let ghost start = world.entities@;
        let mut i: usize = 0;
        while i < n
            invariant
                0 <= i <= n == start.len() == world.entities@.len(),
                start == old(world).entities@,
                world.score == old(world).score,
                world.camera == old(world).camera,
                world.camera.wf(),
                entities_wf(start),
                forall|k: int| 0 <= k < i ==> world.entities@[k] == #[trigger] animated(start[k], dt),
                forall|k: int| 0 <= k < n ==> #[trigger] world.entities@[k].wf(),
                forall|k: int| i <= k < n ==> world.entities@[k] == start[k],
            decreases n - i,
        {
            let mut e = world.entities[i];
            assert(e.wf());
            if e.alive && e.sprite.is_some() {
                match (e.animation, e.mover) {
                    (Some(a0), Some(m)) => {
                        if m.velocity_x < 0 {
                            e.flipped = true;
                        } else if m.velocity_x > 0 {
                            e.flipped = false;
                        }
                        let mut a = a0;
                        a.elapsed_time = a.elapsed_time.saturating_add(dt);
                        let airborne = match m.jump_state {
                            JumpState::Airborne => true,
                            _ => false,
                        };
                        e.sprite = Some(frame(&a, airborne, m.velocity_x != 0));
                        e.animation = Some(a);
                    },
                    _ => {},
                }
            }
            world.entities.set(i, e);
            i += 1;
        }
        assert(world.entities@ =~= animated_all(start, dt));
    }
}

} // verus!
