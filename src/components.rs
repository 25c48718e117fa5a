//! Attachments that entities carry besides position, collider and mover.
use vstd::prelude::*;

verus! {

/// State of the player: hit immunity, cooldowns, health and carried
/// ingredients. Times are in microseconds.
#[derive(Clone, Copy, Debug, PartialEq, Eq)]
pub struct Player {
    /// Knocked back and not steering until `hit_last` has passed.
    pub in_hit: bool,
    pub last_hit: u64,
    pub last_throw: u64,
    pub last_heal: u64,
    /// How often the player can be hit.
    pub hit_cooldown: u64,
    /// How long a hit takes the steering away.
    pub hit_last: u64,
    pub throw_cooldown: u64,
    pub heal_cooldown: u64,
    pub health: i32,
    pub hornwort: u64,
    pub mushroom: u64,
}

impl Player {
    /// A fresh player: full health, no ingredients, every timer at zero.
    pub fn new() -> (p: Player)
        ensures
            !p.in_hit,
            p.last_hit == 0 && p.last_throw == 0 && p.last_heal == 0,
            p.health == 100,
            p.hit_cooldown == 1_000_000,
            p.heal_cooldown == 300_000,
            p.hit_last == 200_000,
            p.throw_cooldown == 500_000,
            p.hornwort == 0 && p.mushroom == 0,
    {
        Player {
            in_hit: false,
            last_hit: 0,
            last_throw: 0,
            last_heal: 0,
            health: 100,
            hit_cooldown: 1_000_000,
            heal_cooldown: 300_000,
            hit_last: 200_000,
            throw_cooldown: 500_000,
            hornwort: 0,
            mushroom: 0,
        }
    }
}

/// Marks a hazard that hurts the player on contact.
#[derive(Clone, Copy, Debug, PartialEq, Eq)]
pub struct Enemy {}

/// Marks a static surface that bodies are pushed out of.
#[derive(Clone, Copy, Debug, PartialEq, Eq)]
pub struct Platform {}

/// Marks the level's goal.
#[derive(Clone, Copy, Debug, PartialEq, Eq)]
pub struct Gate {}

/// Marks an entity that sinks slowly.
#[derive(Clone, Copy, Debug, PartialEq, Eq)]
pub struct Weight {}

/// A thrown projectile with its own box.
#[derive(Clone, Copy, Debug, PartialEq, Eq)]
pub struct Potion {
    pub width: i64,
    pub height: i64,
}

/// A pickup and how many of its kind it gives.
#[derive(Clone, Copy, Debug, PartialEq, Eq)]
pub enum Ingredient {
    Hornwort { count: u64 },
    Mushroom { count: u64 },
}

/// Frame selection for an animated sprite. Times are in microseconds.
#[derive(Clone, Copy, Debug, PartialEq, Eq)]
pub struct SpriteAnimation {
    pub elapsed_time: u64,
    pub time_per_frame: u64,
    pub move_offset: usize,
    pub move_count: usize,
    pub idle_offset: usize,
    pub idle_count: usize,
    pub airborne_offset: usize,
}

impl SpriteAnimation {
    pub open spec fn wf(self) -> bool {
        &&& self.time_per_frame > 0
        &&& self.move_count > 0
        &&& self.idle_count > 0
        &&& self.move_offset + self.move_count <= usize::MAX
        &&& self.idle_offset + self.idle_count <= usize::MAX
    }

    pub fn new(
        move_offset: usize,
        move_count: usize,
        idle_offset: usize,
        idle_count: usize,
        time_per_frame: u64,
        airborne_offset: usize,
    ) -> (a: SpriteAnimation)
        ensures
            a == (SpriteAnimation {
                elapsed_time: 0,
                time_per_frame,
                move_offset,
                move_count,
                idle_offset,
                idle_count,
                airborne_offset,
            }),
    {
        SpriteAnimation {
            move_count,
            move_offset,
            idle_count,
            idle_offset,
            time_per_frame,
            airborne_offset,
            elapsed_time: 0,
        }
    }
}

/// A throw requested by the player: where it starts and the pointer's
/// position in screen pixels.
#[derive(Clone, Copy, Debug, PartialEq, Eq)]
pub struct PotionInfo {
    pub px: i64,
    pub py: i64,
    pub mx: i64,
    pub my: i64,
}

/// Holds the throw asked for in a tick until it is spawned.
#[derive(Clone, Copy, Debug, PartialEq, Eq)]
pub struct PotionSpawner {
    pub potion: Option<PotionInfo>,
}

impl Default for PotionSpawner {
    fn default() -> (s: PotionSpawner)
        ensures
            s.potion.is_none(),
    {
        PotionSpawner { potion: None }
    }
}

} // verus!
