//! Entities as bundles of optional attachments, and the world that holds them.
use vstd::prelude::*;
use crate::geometry::{Position, Collider, SIZE_LIMIT};
use crate::motion::Mover;
use crate::components::{
    Player, Enemy, Platform, Gate, Weight, Potion, Ingredient, SpriteAnimation,
};

verus! {

/// One entity. Each attachment is optional; a phase of the tick takes part
/// only for the entities that carry what it needs.
#[derive(Clone, Copy, Debug, PartialEq, Eq)]
pub struct Entity {
    pub alive: bool,
    /// Deletion recorded this tick; it takes effect at `maintain`.
    pub doomed: bool,
    pub position: Option<Position>,
    pub collider: Option<Collider>,
    pub mover: Option<Mover>,
    pub player: Option<Player>,
    pub enemy: Option<Enemy>,
    pub platform: Option<Platform>,
    pub potion: Option<Potion>,
    pub ingredient: Option<Ingredient>,
    pub gate: Option<Gate>,
    pub weight: Option<Weight>,
    pub animation: Option<SpriteAnimation>,
    /// Sprite shown for the entity, if it is drawn.
    pub sprite: Option<usize>,
    pub flipped: bool,
}

impl Entity {
    pub open spec fn wf(self) -> bool {
        &&& (self.position matches Some(p) ==> p.wf())
        &&& (self.collider matches Some(c) ==> c.wf())
        &&& (self.mover matches Some(m) ==> m.wf())
        &&& (self.potion matches Some(q) ==> 0 <= q.width <= SIZE_LIMIT && 0 <= q.height
            <= SIZE_LIMIT)
        &&& (self.animation matches Some(a) ==> a.wf())
        // platforms are static
        &&& (self.platform.is_some() ==> self.mover.is_none())
    }

    /// An entity with no attachments.
    pub fn empty() -> (e: Entity)
        ensures
            e.alive && !e.doomed,
            e.position.is_none() && e.collider.is_none() && e.mover.is_none(),
            e.player.is_none() && e.enemy.is_none() && e.platform.is_none(),
            e.potion.is_none() && e.ingredient.is_none() && e.gate.is_none(),
            e.weight.is_none() && e.animation.is_none() && e.sprite.is_none(),
            !e.flipped,
            e.wf(),
    {
        Entity {
            alive: true,
            doomed: false,
            position: None,
            collider: None,
            mover: None,
            player: None,
            enemy: None,
            platform: None,
            potion: None,
            ingredient: None,
            gate: None,
            weight: None,
            animation: None,
            sprite: None,
            flipped: false,
        }
    }
}

/// Every entity of the simulation, indexed by identifier, with the running
/// score and the camera's position.
#[derive(Debug)]
pub struct World {
    pub entities: Vec<Entity>,
    pub score: u64,
    pub camera: Position,
}

pub open spec fn entities_wf(ents: Seq<Entity>) -> bool {
    forall|i: int| 0 <= i < ents.len() ==> #[trigger] ents[i].wf()
}

impl World {
    pub open spec fn wf(self) -> bool {
        entities_wf(self.entities@) && self.camera.wf()
    }

    /// A world with no entities, no score and the camera at the origin.
    pub fn new() -> (w: World)
        ensures
            w.entities@.len() == 0,
            w.score == 0,
            w.camera == (Position { x: 0, y: 0 }),
            w.wf(),
    {
        World { entities: Vec::new(), score: 0, camera: Position { x: 0, y: 0 } }
    }

    /// Adds an entity and returns its identifier.
    pub fn spawn(&mut self, e: Entity) -> (id: usize)
        requires
            old(self).wf(),
            e.wf(),
            old(self).entities@.len() < usize::MAX,
        ensures
            id == old(self).entities@.len(),
            final(self).entities@ == old(self).entities@.push(e),
            final(self).score == old(self).score,
            final(self).camera == old(self).camera,
            final(self).wf(),
    {
        let id = self.entities.len();
        self.entities.push(e);
        id
    }

    /// Records the deletion of entity `id`. Recording it again, or for an
    /// identifier that names no live entity, changes nothing.
    pub fn destroy(&mut self, id: usize)
        requires
            old(self).wf(),
        ensures
            final(self).entities@ == destroyed(old(self).entities@, id as int),
            final(self).score == old(self).score,
            final(self).camera == old(self).camera,
            final(self).wf(),
    {
        if id < self.entities.len() && self.entities[id].alive {
            let mut e = self.entities[id];
            e.doomed = true;
            self.entities.set(id, e);
            assert(entities_wf(self.entities@)) by {
                assert forall|k: int| 0 <= k < self.entities@.len() implies #[trigger] self.entities@[k].wf() by {
                    assert(old(self).entities@[k].wf());
                }
            }
        }
    }

    /// Carries out the deletions recorded this tick.
    pub fn maintain(&mut self)
        requires
            old(self).wf(),
        ensures
            final(self).entities@ == maintained(old(self).entities@),
            final(self).score == old(self).score,
            final(self).camera == old(self).camera,
            final(self).wf(),
    {
        let n = self.entities.len();
        let ghost start = self.entities@;
        let mut i: usize = 0;
        while i < n
            invariant
                0 <= i <= n == start.len() == self.entities@.len(),
                self.score == old(self).score,
                self.camera == old(self).camera,
                start == old(self).entities@,
                old(self).wf(),
                forall|k: int| 0 <= k < i ==> self.entities@[k] == #[trigger] removed(start[k]),
                forall|k: int| i <= k < n ==> self.entities@[k] == start[k],
            decreases n - i,
        {
            let mut e = self.entities[i];
            if e.doomed {
                e.alive = false;
                e.doomed = false;
            }
            self.entities.set(i, e);
            i += 1;
        }
        assert(self.entities@ =~= maintained(start));
        assert(entities_wf(self.entities@)) by {
            assert forall|k: int| 0 <= k < self.entities@.len() implies #[trigger] self.entities@[k].wf() by {
                assert(start[k].wf());
            }
        }
    }
}

/// The entities after recording the deletion of `id`.
pub open spec fn destroyed(ents: Seq<Entity>, id: int) -> Seq<Entity> {
    if 0 <= id < ents.len() && ents[id].alive {
        ents.update(id, Entity { doomed: true, ..ents[id] })
    } else {
        ents
    }
}

/// An entity after the tick's deletions are carried out.
pub open spec fn removed(e: Entity) -> Entity {
    if e.doomed {
        Entity { alive: false, doomed: false, ..e }
    } else {
        e
    }
}

pub open spec fn maintained(ents: Seq<Entity>) -> Seq<Entity> {
    Seq::new(ents.len(), |i: int| removed(ents[i]))
}

/// Recording a deletion twice is the same as recording it once.
pub proof fn lemma_destroy_idempotent(ents: Seq<Entity>, id: int)
    ensures
        destroyed(destroyed(ents, id), id) == destroyed(ents, id),
{
    if 0 <= id < ents.len() && ents[id].alive {
        assert(destroyed(destroyed(ents, id), id) =~= destroyed(ents, id));
    }
}

} // verus!
