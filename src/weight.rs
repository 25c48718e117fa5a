//! Weighted entities sink at a fixed rate.
use vstd::prelude::*;
use crate::geometry::{Position, COORD_LIMIT};
use crate::motion::held;
use crate::world::{Entity, World, entities_wf};

verus! {

/// How far a weighted entity sinks each tick.
pub const SINK_STEP: i64 = 100;

/// Lowers every weighted entity.
pub struct WeightSystem {}

pub open spec fn sunk(e: Entity) -> Entity {
    if e.alive && e.weight.is_some() && e.position.is_some() {
        let p = e.position.unwrap();
        Entity {
            position: Some(Position { y: held(p.y - SINK_STEP, COORD_LIMIT as int) as i64, ..p }),
            ..e
        }
    } else {
        e
    }
}

pub open spec fn sunk_all(ents: Seq<Entity>) -> Seq<Entity> {
    Seq::new(ents.len(), |i: int| sunk(ents[i]))
}

impl WeightSystem {
    pub fn run(&mut self, world: &mut World)
        requires
            old(world).wf(),
        ensures
            final(world).entities@ == sunk_all(old(world).entities@),
            final(world).score == old(world).score,
            final(world).camera == old(world).camera,
            final(world).wf(),
    {
        let n = world.entities.len();
        let ghost start = world.entities@;
        let mut i: usize = 0;
        while i < n
            invariant
                0 <= i <= n == start.len() == world.entities@.len(),
                start == old(world).entities@,
                world.score == old(world).score,
                world.camera == old(world).camera,
                world.camera.wf(),
                entities_wf(start),
                forall|k: int| 0 <= k < i ==> world.entities@[k] == #[trigger] sunk(start[k]),
                forall|k: int| 0 <= k < n ==> #[trigger] world.entities@[k].wf(),
                forall|k: int| i <= k < n ==> world.entities@[k] == start[k],
            decreases n - i,
        {
            let mut e = world.entities[i];
            assert(e.wf());
            if e.alive && e.weight.is_some() {
                match e.position {
                    Some(p) => {
                        let y = if p.y - SINK_STEP < -COORD_LIMIT {
                            -COORD_LIMIT
                        } else {
                            p.y - SINK_STEP
                        };
                        e.position = Some(Position { y, ..p });
                    },
                    None => {},
                }
            }
            world.entities.set(i, e);
            i += 1;
        }
        assert(world.entities@ =~= sunk_all(start));
    }
}

} // verus!
