//! Building a level: platforms laid on a staggered grid with random jitter,
//! ingredients, enemies and a gate on them, the player on the first
//! platform; and spawning a thrown potion.
use vstd::prelude::*;
use vstd::arithmetic::div_mod::lemma_fundamental_div_mod_converse;
use crate::geometry::{Position, Collider, COORD_LIMIT};
use crate::motion::{Mover, JumpState, XBounds, held, div_toward_zero};
use crate::components::{
    Player, Enemy, Platform, Gate, Potion, Ingredient, SpriteAnimation, PotionInfo,
};
use crate::world::{Entity, World};
use crate::camera::{CAMERA_WIDTH, CAMERA_HEIGHT};
use crate::enemy_system::{ENEMY_VELOCITY, along, along_exec};

verus! {

pub const LEVEL_WIDTH: i64 = 3_000_000;

pub const LEVEL_HEIGHT: i64 = 600_000;

pub const PLATFORM_HEIGHT: i64 = 25_000;

pub const PLATFORM_WIDTH: i64 = 100_000;

pub const RESOURCE_WIDTH: i64 = 28_000;

pub const RESOURCE_HEIGHT: i64 = 25_000;

pub const PLAYER_HEIGHT: i64 = 25_000;

pub const PLAYER_WIDTH: i64 = 28_000;

pub const GATE_HEIGHT: i64 = 22_000;

pub const GATE_WIDTH: i64 = 26_000;

/// Launch speed of a thrown potion.
pub const POTION_SPEED: i64 = 200_000;

/// Width and height of a thrown potion's box.
pub const POTION_SIZE: i64 = 10_000;

/// How far past the level's sides a body may go.
pub const LEVEL_MARGIN: i64 = 100_000;

/// Horizontal gap between the platforms of a row.
pub const JUMP_X: i64 = PLATFORM_WIDTH + 50_000;

/// Vertical gap between rows.
pub const JUMP_Y: i64 = 70_000;

/// Largest random shift of a platform, horizontally and vertically.
pub const WIGGLE_X: i64 = 35_000;

pub const WIGGLE_Y: i64 = 30_000;

/// Microseconds per frame of a walking sprite.
pub const FRAME_TIME: u64 = 200_000;

/// Builds levels and spawns thrown potions.
pub struct LevelState {}

/// Relies on rand::Rng::gen_range over rand::thread_rng: a value drawn
/// uniformly from `0..bound`, so below `bound`. gen_range panics on an empty
/// range, which `bound > 0` rules out; thread_rng panics only when the
/// system's entropy source fails.
#[verifier::external_body]
fn draw_below(bound: u64) -> (r: u64)
    requires
        bound > 0,
    ensures
        r < bound,
{
    rand::Rng::gen_range(&mut rand::thread_rng(), 0..bound)
}

/// The level's horizontal bounds for free bodies.
pub open spec fn level_bounds() -> XBounds {
    XBounds { min_x: (-LEVEL_MARGIN) as i64, max_x: (LEVEL_WIDTH + LEVEL_MARGIN) as i64 }
}

/// Where a throw from `(info.px, info.py)` is aimed: the pointer, from screen
/// pixels on a screen of `sw` by `sh`, into the camera's view centered on
/// the thrower, relative to the thrower.
pub open spec fn aim(info: PotionInfo, sw: int, sh: int) -> (int, int) {
    let lim = COORD_LIMIT as int;
    let lx = held(div_toward_zero(info.mx * CAMERA_WIDTH, sw), lim);
    let ly = held(div_toward_zero(info.my * CAMERA_HEIGHT, sh), lim);
    (lx - CAMERA_WIDTH / 2, CAMERA_HEIGHT / 2 - ly)
}

/// The entity of a potion thrown as `info` asks.
pub open spec fn thrown_potion(info: PotionInfo, sw: int, sh: int) -> Entity {
    let (dx, dy) = aim(info, sw, sh);
    let v = along(dx, dy, POTION_SPEED as int);
    Entity {
        alive: true,
        doomed: false,
        position: Some(Position { x: info.px, y: info.py }),
        collider: None,
        mover: Some(
            Mover {
                gravity: 500,
                velocity_x: v.0 as i64,
                velocity_y: v.1 as i64,
                jump_state: JumpState::Airborne,
                bounds: Some(level_bounds()),
            },
        ),
        player: None,
        enemy: None,
        platform: None,
        potion: Some(Potion { width: POTION_SIZE, height: POTION_SIZE }),
        ingredient: None,
        gate: None,
        weight: None,
        animation: None,
        sprite: Some(2),
        flipped: false,
    }
}

fn scale_pointer(m: i64, span: i64, screen: u32) -> (r: i64)
    requires
        screen > 0,
        0 < span <= 1_000_000,
    ensures
        r == held(div_toward_zero(m * span, screen as int), COORD_LIMIT as int),
{
    assert(-0x1000_0000_0000_0000_0000_0000 <= m * span <= 0x1000_0000_0000_0000_0000_0000) by (nonlinear_arith)
        requires 0 < span <= 1_000_000, i64::MIN <= m <= i64::MAX;
    let num = m as i128 * span as i128;
    let q = if num >= 0 {
        num / screen as i128
    } else {
        -((-num) / screen as i128)
    };
    if q > COORD_LIMIT as i128 {
        COORD_LIMIT
    } else if q < -(COORD_LIMIT as i128) {
        -COORD_LIMIT
    } else {
        q as i64
    }
}

/// A platform centered at `(x, y)`.
pub open spec fn platform_entity(x: i64, y: i64) -> Entity {
    Entity {
        position: Some(Position { x, y }),
        platform: Some(Platform {}),
        collider: Some(Collider { width: PLATFORM_WIDTH, height: PLATFORM_HEIGHT }),
        sprite: Some(4),
        ..bare()
    }
}

/// A gate standing on a platform centered at `(px, py)`.
pub open spec fn gate_entity(px: i64, py: i64) -> Entity {
    Entity {
        position: Some(
            Position { x: px, y: (py + PLATFORM_HEIGHT / 2 + GATE_HEIGHT / 2) as i64 },
        ),
        gate: Some(Gate {}),
        collider: Some(Collider { width: GATE_WIDTH, height: GATE_HEIGHT }),
        sprite: Some(3),
        ..bare()
    }
}

/// A single hornwort (or mushroom) at `(x, y)`.
pub open spec fn ingredient_entity(hornwort: bool, x: i64, y: i64) -> Entity {
    Entity {
        position: Some(Position { x, y }),
        collider: Some(Collider { width: RESOURCE_WIDTH, height: RESOURCE_HEIGHT }),
        ingredient: Some(
            if hornwort {
                Ingredient::Hornwort { count: 1 }
            } else {
                Ingredient::Mushroom { count: 1 }
            },
        ),
        sprite: Some(
            if hornwort {
                5
            } else {
                6
            },
        ),
        ..bare()
    }
}

/// An enemy centered at `(x, y)` patrolling between `min_x` and `max_x`.
pub open spec fn enemy_entity(x: i64, y: i64, min_x: i64, max_x: i64, vx: i64) -> Entity {
    Entity {
        position: Some(Position { x, y }),
        enemy: Some(Enemy {}),
        sprite: Some(0),
        animation: Some(
            SpriteAnimation {
                elapsed_time: 0,
                time_per_frame: FRAME_TIME,
                move_offset: 0,
                move_count: 2,
                idle_offset: 0,
                idle_count: 1,
                airborne_offset: 0,
            },
        ),
        mover: Some(
            Mover {
                velocity_x: vx,
                velocity_y: 0,
                jump_state: JumpState::Airborne,
                bounds: Some(XBounds { min_x, max_x }),
                gravity: 1000,
            },
        ),
        collider: Some(Collider { width: PLAYER_WIDTH, height: PLAYER_HEIGHT }),
        ..bare()
    }
}

/// The player standing on a platform centered at `(px, py)`.
pub open spec fn player_entity(px: i64, py: i64) -> Entity {
    Entity {
        position: Some(Position { x: px, y: (py + PLATFORM_HEIGHT / 2 + PLAYER_HEIGHT) as i64 }),
        sprite: Some(0),
        animation: Some(
            SpriteAnimation {
                elapsed_time: 0,
                time_per_frame: FRAME_TIME,
                move_offset: 0,
                move_count: 2,
                idle_offset: 0,
                idle_count: 1,
                airborne_offset: 0,
            },
        ),
        player: Some(
            Player {
                in_hit: false,
                last_hit: 0,
                last_throw: 0,
                last_heal: 0,
                health: 100,
                hit_cooldown: 1_000_000,
                heal_cooldown: 300_000,
                hit_last: 200_000,
                throw_cooldown: 500_000,
                hornwort: 0,
                mushroom: 0,
            },
        ),
        mover: Some(
            Mover {
                velocity_x: 0,
                velocity_y: 0,
                jump_state: JumpState::Airborne,
                bounds: Some(level_bounds()),
                gravity: 1000,
            },
        ),
        collider: Some(Collider { width: 24_000, height: 25_000 }),
        ..bare()
    }
}

/// A live entity with no attachments.
pub open spec fn bare() -> Entity {
    Entity {
        alive: true,
        doomed: false,
        position: None,
        collider: None,
        mover: None,
        player: None,
        enemy: None,
        platform: None,
        potion: None,
        ingredient: None,
        gate: None,
        weight: None,
        animation: None,
        sprite: None,
        flipped: false,
    }
}

/// Room for an ingredient's center on a platform.
pub const RESOURCE_SPAN: i64 = PLATFORM_WIDTH - RESOURCE_WIDTH;

/// The random choices made for one platform.
#[derive(Clone, Copy, Debug, PartialEq, Eq)]
pub struct PlatformRoll {
    /// Shift of the platform from its place on the grid.
    pub shift_x: i64,
    pub shift_y: i64,
    /// How many hornworts, and their offsets from the left end of the room.
    pub hornworts: u64,
    pub hornwort_xs: (i64, i64),
    /// How many mushrooms, and its offset.
    pub mushrooms: u64,
    pub mushroom_x: i64,
    /// The exit goes here on a 9.
    pub gate_roll: u64,
    pub enemy: bool,
    /// The enemy starts walking left.
    pub enemy_left: bool,
}

/// Every choice in its range.
pub open spec fn roll_ok(r: PlatformRoll) -> bool {
    &&& 0 <= r.shift_x < WIGGLE_X
    &&& 0 <= r.shift_y < WIGGLE_Y
    &&& r.hornworts < 3
    &&& 0 <= r.hornwort_xs.0 < RESOURCE_SPAN
    &&& 0 <= r.hornwort_xs.1 < RESOURCE_SPAN
    &&& r.mushrooms < 2
    &&& 0 <= r.mushroom_x < RESOURCE_SPAN
    &&& r.gate_roll < 10
}

/// The rolled hornworts at height `y`.
pub open spec fn herbs_for(x_min: i64, y: i64, r: PlatformRoll) -> Seq<Entity> {
    let a = ingredient_entity(true, (x_min + r.hornwort_xs.0) as i64, y);
    let b = ingredient_entity(true, (x_min + r.hornwort_xs.1) as i64, y);
    if r.hornworts == 0 {
        seq![]
    } else if r.hornworts == 1 {
        seq![a]
    } else {
        seq![a, b]
    }
}

/// The rolled hornworts, then the rolled mushroom, at height `y`.
pub open spec fn resources_for(x_min: i64, y: i64, r: PlatformRoll) -> Seq<Entity> {
    herbs_for(x_min, y, r) + if r.mushrooms == 1 {
        seq![ingredient_entity(false, (x_min + r.mushroom_x) as i64, y)]
    } else {
        seq![]
    }
}

/// The exit goes on this platform.
pub open spec fn exit_here(nat_x: i64, nat_y: i64, r: PlatformRoll) -> bool {
    nat_x + r.shift_x >= LEVEL_WIDTH / 2 && nat_y + r.shift_y >= LEVEL_HEIGHT / 2 && r.gate_roll
        == 9
}

/// What one platform of the grid at `(nat_x, nat_y)` brings into the level.
pub open spec fn placed(nat_x: i64, nat_y: i64, r: PlatformRoll) -> Seq<Entity> {
    let x = (nat_x + r.shift_x) as i64;
    let y = (nat_y + r.shift_y) as i64;
    let min_x = (x - PLATFORM_WIDTH / 2 + RESOURCE_WIDTH / 2) as i64;
    let max_x = (x + PLATFORM_WIDTH / 2 - RESOURCE_WIDTH / 2) as i64;
    let vx: int = if r.enemy_left {
        -ENEMY_VELOCITY
    } else {
        ENEMY_VELOCITY as int
    };
    seq![platform_entity(x, y)] + resources_for(min_x, (y + PLATFORM_HEIGHT) as i64, r) + (if exit_here(
        nat_x,
        nat_y,
        r,
    ) {
        seq![gate_entity(x, y)]
    } else {
        seq![]
    }) + (if r.enemy {
        seq![enemy_entity(x, (y + 25_000) as i64, min_x, max_x, vx as i64)]
    } else {
        seq![]
    })
}

/// Coordinates of any object placed in a level.
pub open spec fn in_level(x: int, y: int) -> bool {
    -LEVEL_MARGIN <= x <= LEVEL_WIDTH + LEVEL_MARGIN && -LEVEL_MARGIN <= y <= LEVEL_HEIGHT
        + LEVEL_MARGIN
}

/// One platform brings at most six entities.
proof fn lemma_placed_len(nat_x: i64, nat_y: i64, r: PlatformRoll)
    requires
        roll_ok(r),
    ensures
        placed(nat_x, nat_y, r).len() <= 6,
{
}

/// Platforms in a row of the grid.
pub const GRID_COLUMNS: usize = 10;

/// Rows of the grid.
pub const GRID_ROWS: usize = 9;

/// Place on the grid of the `k`-th platform, counted row by row from the
/// bottom left: rows `JUMP_Y` apart, platforms in a row `2 * JUMP_X` apart,
/// every other row shifted right by `JUMP_X`.
pub open spec fn cell_x(k: int) -> i64 {
    (50_000 + 150_000 * ((k / 10) % 2) + 300_000 * (k % 10)) as i64
}

pub open spec fn cell_y(k: int) -> i64 {
    (12_500 + 70_000 * (k / 10)) as i64
}

/// Center of the `k`-th platform: its grid place moved by its roll.
pub open spec fn platform_center(rolls: Seq<PlatformRoll>, k: int) -> (i64, i64) {
    ((cell_x(k) + rolls[k].shift_x) as i64, (cell_y(k) + rolls[k].shift_y) as i64)
}

/// What the first `n` platforms of the grid bring, in order.
pub open spec fn laid(rolls: Seq<PlatformRoll>, n: nat) -> Seq<Entity>
    decreases n,
{
    if n == 0 {
        seq![]
    } else {
        laid(rolls, (n - 1) as nat) + placed(cell_x(n - 1), cell_y(n - 1), rolls[n - 1])
    }
}

/// The roll of one of the first `n` platforms placed the exit.
pub open spec fn exit_rolled(rolls: Seq<PlatformRoll>, n: int) -> bool {
    exists|k: int| 0 <= k < n && exit_here(cell_x(k), cell_y(k), #[trigger] rolls[k])
}

/// The level that `rolls` give: the ninety platforms of the grid with what
/// stands on them, and, when no roll placed the exit, one exit on the last
/// platform.
pub open spec fn level_layout(rolls: Seq<PlatformRoll>) -> Seq<Entity> {
    let last = platform_center(rolls, 89);
    laid(rolls, 90) + if exit_rolled(rolls, 90) {
        seq![]
    } else {
        seq![gate_entity(last.0, last.1)]
    }
}

/// Ninety rolls, each in range.
pub open spec fn rolls_ok(rolls: Seq<PlatformRoll>) -> bool {
    rolls.len() == 90 && forall|k: int| 0 <= k < 90 ==> roll_ok(#[trigger] rolls[k])
}

impl LevelState {
    /// Spawns the potion that a throw asks for, flying from the thrower
    /// toward the pointer at `POTION_SPEED`, on a screen of `screen_w` by
    /// `screen_h` pixels. Returns its identifier.
    pub fn spawn_potion(world: &mut World, info: PotionInfo, screen_w: u32, screen_h: u32) -> (id:
        usize)
        requires
            old(world).wf(),
            old(world).entities@.len() < usize::MAX,
            screen_w > 0,
            screen_h > 0,
            (Position { x: info.px, y: info.py }).wf(),
        ensures
            id == old(world).entities@.len(),
            final(world).entities@ == old(world).entities@.push(
                thrown_potion(info, screen_w as int, screen_h as int),
            ),
            final(world).score == old(world).score,
            final(world).camera == old(world).camera,
            final(world).wf(),
    {
        let lx = scale_pointer(info.mx, CAMERA_WIDTH, screen_w);
        let ly = scale_pointer(info.my, CAMERA_HEIGHT, screen_h);
        let v = along_exec(lx - CAMERA_WIDTH / 2, CAMERA_HEIGHT / 2 - ly, POTION_SPEED);
        let mut e = Entity::empty();
        e.position = Some(Position { x: info.px, y: info.py });
        e.mover = Some(
            Mover {
                gravity: 500,
                velocity_x: v.0,
                velocity_y: v.1,
                jump_state: JumpState::Airborne,
                bounds: Some(XBounds { min_x: -LEVEL_MARGIN, max_x: LEVEL_WIDTH + LEVEL_MARGIN }),
            },
        );
        e.potion = Some(Potion { width: POTION_SIZE, height: POTION_SIZE });
        e.sprite = Some(2);
        world.spawn(e)
    }

    /// Places the level's exit on the platform centered at `(px, py)`.
    fn spawn_gate(world: &mut World, px: i64, py: i64)
        requires
            old(world).wf(),
            in_level(px as int, py + PLATFORM_HEIGHT / 2 + GATE_HEIGHT / 2),
            old(world).entities@.len() < usize::MAX,
        ensures
            final(world).entities@ == old(world).entities@.push(gate_entity(px, py)),
            final(world).score == old(world).score,
            final(world).camera == old(world).camera,
            final(world).wf(),
    {
        let mut e = Entity::empty();
        e.position = Some(Position { x: px, y: py + PLATFORM_HEIGHT / 2 + GATE_HEIGHT / 2 });
        e.gate = Some(Gate {});
        e.collider = Some(Collider { width: GATE_WIDTH, height: GATE_HEIGHT });
        e.sprite = Some(3);
        assert(e == gate_entity(px, py));
        world.spawn(e);
    }

    /// The random choices for one platform, drawn in the order the level is
    /// built: its shift, its ingredients, the exit roll, the enemy.
    fn roll_platform() -> (r: PlatformRoll)
        ensures
            roll_ok(r),
    {
        let shift_x = draw_below(WIGGLE_X as u64) as i64;
        let shift_y = draw_below(WIGGLE_Y as u64) as i64;
        let hornworts = draw_below(3);
        let h0 = draw_below(RESOURCE_SPAN as u64) as i64;
        let h1 = draw_below(RESOURCE_SPAN as u64) as i64;
        let mushrooms = draw_below(2);
        let mushroom_x = draw_below(RESOURCE_SPAN as u64) as i64;
        let gate_roll = draw_below(10);
        let enemy = draw_below(2) == 1;
        let enemy_left = draw_below(2) == 1;
        PlatformRoll {
            shift_x,
            shift_y,
            hornworts,
            hornwort_xs: (h0, h1),
            mushrooms,
            mushroom_x,
            gate_roll,
            enemy,
            enemy_left,
        }
    }

    /// Puts the rolled hornworts, then the rolled mushroom, at height `y`,
    /// each `x_min` plus its rolled offset.
    fn generate_resources(world: &mut World, y: i64, x_min: i64, roll: &PlatformRoll)
        requires
            old(world).wf(),
            roll_ok(*roll),
            in_level(x_min as int, y as int),
            in_level(x_min + RESOURCE_SPAN, y as int),
            old(world).entities@.len() + 3 < usize::MAX,
        ensures
            final(world).entities@ == old(world).entities@ + resources_for(x_min, y, *roll),
            final(world).score == old(world).score,
            final(world).camera == old(world).camera,
            final(world).wf(),
    {
        let mut i: u64 = 0;
        while i < roll.hornworts
            invariant
                world.wf(),
                0 <= i <= roll.hornworts < 3,
                roll_ok(*roll),
                in_level(x_min as int, y as int),
                in_level(x_min + RESOURCE_SPAN, y as int),
                old(world).entities@.len() + 3 < usize::MAX,
                world.entities@ == old(world).entities@ + herbs_for(x_min, y, *roll).take(i as int),
                world.score == old(world).score,
                world.camera == old(world).camera,
            decreases roll.hornworts - i,
        {
            let x = if i == 0 {
                x_min + roll.hornwort_xs.0
            } else {
                x_min + roll.hornwort_xs.1
            };
            let mut e = Entity::empty();
            e.position = Some(Position { x, y });
            e.collider = Some(Collider { width: RESOURCE_WIDTH, height: RESOURCE_HEIGHT });
            e.ingredient = Some(Ingredient::Hornwort { count: 1 });
            e.sprite = Some(5);
            assert(e == herbs_for(x_min, y, *roll)[i as int]);
            world.spawn(e);
            assert(herbs_for(x_min, y, *roll).take(i + 1) =~= herbs_for(x_min, y, *roll).take(
                i as int,
            ).push(e));
            assert(world.entities@ =~= old(world).entities@ + herbs_for(x_min, y, *roll).take(
                i + 1,
            ));
            i += 1;
        }
        assert(herbs_for(x_min, y, *roll).take(i as int) =~= herbs_for(x_min, y, *roll));
        if roll.mushrooms == 1 {
            let mut e = Entity::empty();
            e.position = Some(Position { x: x_min + roll.mushroom_x, y });
            e.collider = Some(Collider { width: RESOURCE_WIDTH, height: RESOURCE_HEIGHT });
            e.ingredient = Some(Ingredient::Mushroom { count: 1 });
            e.sprite = Some(6);
            world.spawn(e);
        }
        assert(world.entities@ =~= old(world).entities@ + resources_for(x_min, y, *roll));
    }

    /// Lays one platform around `(nat_x, nat_y)` as `roll` says: the
    /// platform, its ingredients, the exit when the platform is in the upper
    /// right half and the roll hits, and an enemy patrolling it. Returns
    /// whether the exit was placed.
    pub fn place_platform(world: &mut World, nat_x: i64, nat_y: i64, roll: &PlatformRoll) -> (exit:
        bool)
        requires
            old(world).wf(),
            roll_ok(*roll),
            PLATFORM_WIDTH / 2 <= nat_x < LEVEL_WIDTH - PLATFORM_WIDTH / 2,
            PLATFORM_HEIGHT / 2 <= nat_y < LEVEL_HEIGHT,
            old(world).entities@.len() + 10 < usize::MAX,
        ensures
            final(world).entities@ == old(world).entities@ + placed(nat_x, nat_y, *roll),
            exit == exit_here(nat_x, nat_y, *roll),
            final(world).score == old(world).score,
            final(world).camera == old(world).camera,
            final(world).wf(),
    {
        let x = nat_x + roll.shift_x;
        let y = nat_y + roll.shift_y;
        let mut plat = Entity::empty();
        plat.position = Some(Position { x, y });
        plat.platform = Some(Platform {});
        plat.collider = Some(Collider { width: PLATFORM_WIDTH, height: PLATFORM_HEIGHT });
        plat.sprite = Some(4);
        assert(plat == platform_entity(x, y));
        world.spawn(plat);
        let ghost w1 = world.entities@;

        let min_x = x - PLATFORM_WIDTH / 2 + RESOURCE_WIDTH / 2;
        let max_x = x + PLATFORM_WIDTH / 2 - RESOURCE_WIDTH / 2;
        Self::generate_resources(world, y + PLATFORM_HEIGHT, min_x, roll);
        let ghost w2 = world.entities@;

        let mut exit = false;
        if x >= LEVEL_WIDTH / 2 && y >= LEVEL_HEIGHT / 2 && roll.gate_roll == 9 {
            exit = true;
            Self::spawn_gate(world, x, y);
        }
        let ghost w3 = world.entities@;

        if roll.enemy {
            let mut mover = Mover::new(min_x, max_x);
            mover.velocity_x = if roll.enemy_left {
                -ENEMY_VELOCITY
            } else {
                ENEMY_VELOCITY
            };
            let ey = y + 25_000;
            let mut enemy = Entity::empty();
            enemy.position = Some(Position { x, y: ey });
            enemy.enemy = Some(Enemy {});
            enemy.sprite = Some(0);
            enemy.animation = Some(SpriteAnimation::new(0, 2, 0, 1, FRAME_TIME, 0));
            enemy.mover = Some(mover);
            enemy.collider = Some(Collider { width: PLAYER_WIDTH, height: PLAYER_HEIGHT });
            assert(enemy == enemy_entity(x, ey, min_x, max_x, mover.velocity_x));
            world.spawn(enemy);
        }
        assert(world.entities@ =~= old(world).entities@ + placed(nat_x, nat_y, *roll));
        exit
    }

    /// Lays the platforms of the grid row by row, each as its roll says,
    /// then places the exit on the last platform if no roll placed it.
    /// Returns the center of the first platform.
    pub fn lay_platforms(world: &mut World, rolls: &Vec<PlatformRoll>) -> (first: (i64, i64))
        requires
            old(world).wf(),
            rolls_ok(rolls@),
            old(world).entities@.len() + 1000 < usize::MAX,
        ensures
            final(world).entities@ == old(world).entities@ + level_layout(rolls@),
            final(world).entities@.len() <= old(world).entities@.len() + 600,
            first == platform_center(rolls@, 0),
            final(world).score == old(world).score,
            final(world).camera == old(world).camera,
            final(world).wf(),
    {
        let ghost start = old(world).entities@;
        let mut offset = false;
        let mut gate_spawned = false;
        let mut gate_x: i64 = 0;
        let mut gate_y: i64 = 0;
        let mut ret_x: i64 = 0;
        let mut ret_y: i64 = 0;
        let mut k: usize = 0;
        let mut nat_y: i64 = PLATFORM_HEIGHT / 2;
        let ghost mut row: int = 0;
        while nat_y < LEVEL_HEIGHT
            invariant
                world.wf(),
                rolls_ok(rolls@),
                0 <= row <= 9,
                k == 10 * row,
                nat_y == 12_500 + 70_000 * row,
                row > 0 ==> nat_y - 70_000 < LEVEL_HEIGHT,
                offset == (row % 2 == 1),
                start.len() + 1000 < usize::MAX,
                world.entities@ == start + laid(rolls@, k as nat),
                laid(rolls@, k as nat).len() <= 6 * k,
                world.score == old(world).score,
                world.camera == old(world).camera,
                k > 0 ==> (ret_x, ret_y) == platform_center(rolls@, 0),
                k > 0 ==> (gate_x, gate_y) == platform_center(rolls@, k - 1),
                gate_spawned == exit_rolled(rolls@, k as int),
            decreases 9 - row,
        {
            let mut nat_x: i64 = PLATFORM_WIDTH / 2;
            if offset {
                nat_x = nat_x + JUMP_X;
            }
            offset = !offset;
            let ghost mut col: int = 0;
            while nat_x < LEVEL_WIDTH - PLATFORM_WIDTH / 2
                invariant
                    world.wf(),
                    rolls_ok(rolls@),
                    0 <= row <= 8,
                    0 <= col <= 10,
                    k == 10 * row + col,
                    nat_y == 12_500 + 70_000 * row,
                    nat_y < LEVEL_HEIGHT,
                    nat_x == 50_000 + 150_000 * (row % 2) + 300_000 * col,
                    col > 0 ==> nat_x - 300_000 < LEVEL_WIDTH - PLATFORM_WIDTH / 2,
                    offset == (row % 2 == 0),
                    start.len() + 1000 < usize::MAX,
                    world.entities@ == start + laid(rolls@, k as nat),
                    laid(rolls@, k as nat).len() <= 6 * k,
                    world.score == old(world).score,
                    world.camera == old(world).camera,
                    k > 0 ==> (ret_x, ret_y) == platform_center(rolls@, 0),
                    k > 0 ==> (gate_x, gate_y) == platform_center(rolls@, k - 1),
                    gate_spawned == exit_rolled(rolls@, k as int),
                decreases 10 - col,
            {
                proof {
                    lemma_fundamental_div_mod_converse(k as int, 10, row, col);
                    assert(cell_x(k as int) == nat_x && cell_y(k as int) == nat_y);
                    assert(roll_ok(rolls@[k as int]));
                    lemma_placed_len(nat_x, nat_y, rolls@[k as int]);
                }
                let roll = &rolls[k];
                let x = nat_x + roll.shift_x;
                let y = nat_y + roll.shift_y;
                let exit = Self::place_platform(world, nat_x, nat_y, roll);
                proof {
                    assert(laid(rolls@, (k + 1) as nat) == laid(rolls@, k as nat) + placed(
                        nat_x,
                        nat_y,
                        rolls@[k as int],
                    ));
                    assert(world.entities@ =~= start + laid(rolls@, (k + 1) as nat));
                    if exit {
                        assert(exit_rolled(rolls@, k + 1));
                    } else {
                        if exit_rolled(rolls@, k + 1) {
                            let j = choose|j: int|
                                0 <= j < k + 1 && exit_here(cell_x(j), cell_y(j), #[trigger] rolls@[j]);
                            assert(j != k);
                            assert(exit_rolled(rolls@, k as int));
                        }
                    }
                    if gate_spawned {
                        let j = choose|j: int|
                            0 <= j < k && exit_here(cell_x(j), cell_y(j), #[trigger] rolls@[j]);
                        assert(exit_rolled(rolls@, k + 1));
                    }
                }
                gate_x = x;
                gate_y = y;
                if exit {
                    gate_spawned = true;
                }
                if k == 0 {
                    ret_x = x;
                    ret_y = y;
                }
                k = k + 1;
                nat_x = nat_x + JUMP_X * 2;
                proof {
                    col = col + 1;
                }
            }
            nat_y = nat_y + JUMP_Y;
            proof {
                row = row + 1;
            }
        }
        assert(k == 90);
        if !gate_spawned {
            proof {
                assert(roll_ok(rolls@[89]));
            }
            Self::spawn_gate(world, gate_x, gate_y);
        }
        assert(world.entities@ =~= start + level_layout(rolls@));
        (ret_x, ret_y)
    }

    /// Lays the grid of platforms with fresh random rolls. Returns the center
    /// of the first platform.
    fn generate_platforms(world: &mut World) -> (r: (i64, i64))
        requires
            old(world).wf(),
            old(world).entities@.len() + 1000 < usize::MAX,
        ensures
            exists|rolls: Seq<PlatformRoll>|
                #![trigger level_layout(rolls)]
                rolls_ok(rolls) && final(world).entities@ == old(world).entities@ + level_layout(
                    rolls,
                ) && r == platform_center(rolls, 0),
            final(world).entities@.len() <= old(world).entities@.len() + 600,
            final(world).score == old(world).score,
            final(world).camera == old(world).camera,
            final(world).wf(),
    {
        let mut rolls: Vec<PlatformRoll> = Vec::new();
        let mut i: usize = 0;
        while i < GRID_ROWS * GRID_COLUMNS
            invariant
                0 <= i <= 90,
                rolls@.len() == i,
                forall|k: int| 0 <= k < i ==> roll_ok(#[trigger] rolls@[k]),
            decreases 90 - i,
        {
            rolls.push(Self::roll_platform());
            i = i + 1;
        }
        Self::lay_platforms(world, &rolls)
    }

    /// Builds a level into `world`: platforms with what stands on them, then
    /// the player on the first platform. Returns the player's identifier.
    pub fn create_entities(world: &mut World) -> (player: usize)
        requires
            old(world).wf(),
            old(world).entities@.len() + 1000 < usize::MAX,
        ensures
            player + 1 == final(world).entities@.len(),
            exists|rolls: Seq<PlatformRoll>|
                #![trigger level_layout(rolls)]
                rolls_ok(rolls) && final(world).entities@ == old(world).entities@ + level_layout(
                    rolls,
                ) + seq![player_entity(platform_center(rolls, 0).0, platform_center(rolls, 0).1)],
            final(world).score == old(world).score,
            final(world).camera == old(world).camera,
            final(world).wf(),
    {
        let (plat_x, plat_y) = Self::generate_platforms(world);
        let mut e = Entity::empty();
        e.position = Some(Position { x: plat_x, y: plat_y + PLATFORM_HEIGHT / 2 + PLAYER_HEIGHT });
        e.sprite = Some(0);
        e.animation = Some(SpriteAnimation::new(0, 2, 0, 1, FRAME_TIME, 0));
        e.player = Some(Player::new());
        e.mover = Some(Mover::new(-LEVEL_MARGIN, LEVEL_WIDTH + LEVEL_MARGIN));
        e.collider = Some(Collider { width: 24_000, height: 25_000 });
        assert(e == player_entity(plat_x, plat_y));
        world.spawn(e)
    }

    /// Spawns the throw that the player phase asked for, if any.
    pub fn update(world: &mut World, request: Option<PotionInfo>, screen_w: u32, screen_h: u32) -> (r:
        Option<usize>)
        requires
            old(world).wf(),
            old(world).entities@.len() < usize::MAX,
            screen_w > 0,
            screen_h > 0,
            request matches Some(info) ==> (Position { x: info.px, y: info.py }).wf(),
        ensures
            match request {
                Some(info) => r == Some(old(world).entities@.len() as usize)
                    && final(world).entities@ == old(world).entities@.push(
                    thrown_potion(info, screen_w as int, screen_h as int),
                ),
                None => r.is_none() && final(world).entities@ == old(world).entities@,
            },
            final(world).score == old(world).score,
            final(world).camera == old(world).camera,
            final(world).wf(),
    {
        match request {
            Some(info) => Some(Self::spawn_potion(world, info, screen_w, screen_h)),
            None => None,
        }
    }
}

} // verus!
