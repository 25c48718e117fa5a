//! The camera follows the player.
use vstd::prelude::*;
use crate::geometry::{Position, COORD_LIMIT};
use crate::motion::held;
use crate::world::{Entity, World, entities_wf};

verus! {

/// Width of the camera's view.
pub const CAMERA_WIDTH: i64 = 400_000;

/// Height of the camera's view.
pub const CAMERA_HEIGHT: i64 = 225_000;

/// Moves the camera so that the player is in the middle of its view.
pub struct CameraSystem {}

/// The position of the last live player among the first `n` entities.
pub open spec fn focus(ents: Seq<Entity>, n: nat) -> Option<Position>
    decreases n,
{
    if n == 0 {
        None
    } else {
        let e = ents[n - 1];
        if e.alive && e.player.is_some() && e.position.is_some() {
            e.position
        } else {
            focus(ents, (n - 1) as nat)
        }
    }
}

/// The camera's corner for a view centered on `f`, or on the origin.
pub open spec fn camera_for(f: Option<Position>) -> Position {
    let (x, y) = match f {
        Some(p) => (p.x as int, p.y as int),
        None => (0int, 0int),
    };
    Position {
        x: held(x - CAMERA_WIDTH / 2, COORD_LIMIT as int) as i64,
        y: held(y - CAMERA_HEIGHT / 2, COORD_LIMIT as int) as i64,
    }
}

impl CameraSystem {
    pub fn run(&mut self, world: &mut World)
        requires
            old(world).wf(),
        ensures
            final(world).camera == camera_for(focus(old(world).entities@, old(world).entities@.len())),
            final(world).entities@ == old(world).entities@,
            final(world).score == old(world).score,
            final(world).wf(),
    {
        let n = world.entities.len();
        let mut found: Option<Position> = None;
        let mut i: usize = 0;
        while i < n
            invariant
                0 <= i <= n == world.entities@.len(),
                world.entities@ == old(world).entities@,
                entities_wf(world.entities@),
                found == focus(world.entities@, i as nat),
                found matches Some(p) ==> p.wf(),
            decreases n - i,
        {
            let e = world.entities[i];
            assert(e.wf());
            if e.alive && e.player.is_some() && e.position.is_some() {
                found = e.position;
            }
            i += 1;
        }
        let (x, y) = match found {
            Some(p) => (p.x, p.y),
            None => (0, 0),
        };
        let cx = x - CAMERA_WIDTH / 2;
        let cy = y - CAMERA_HEIGHT / 2;
        world.camera = Position {
            x: if cx < -COORD_LIMIT {
                -COORD_LIMIT
            } else {
                cx
            },
            y: if cy < -COORD_LIMIT {
                -COORD_LIMIT
            } else {
                cy
            },
        };
    }
}

} // verus!
