use platformer::components::{Enemy, Player, PotionInfo};
use platformer::geometry::Collider;
use platformer::motion::Mover;
use platformer::world::Entity;
use platformer::level::{
    LevelState, PlatformRoll, LEVEL_HEIGHT, LEVEL_WIDTH, PLATFORM_HEIGHT, PLATFORM_WIDTH, POTION_SPEED, WIGGLE_X,
    WIGGLE_Y,
};
use platformer::geometry::Position;
use platformer::motion::JumpState;
use platformer::player_system::PlayerInput;
use platformer::simulation::{reached_exit, Simulation};
use platformer::components::{Gate, Ingredient};
use platformer::world::World;

#[test]
fn level_has_platforms_gate_and_player() {
    let mut w = World::new();
    let pid = LevelState::create_entities(&mut w);
    assert_eq!(pid + 1, w.entities.len());
    let platforms: Vec<Position> = w
        .entities
        .iter()
        .filter(|e| e.platform.is_some())
        .map(|e| e.position.unwrap())
        .collect();
    // nine rows of ten
    assert_eq!(platforms.len(), 90);
    for (i, p) in platforms.iter().enumerate() {
        let row = (i / 10) as i64;
        let col = (i % 10) as i64;
        let nat_x = PLATFORM_WIDTH / 2 + (row % 2) * 150_000 + 300_000 * col;
        let nat_y = PLATFORM_HEIGHT / 2 + 70_000 * row;
        assert!(p.x >= nat_x && p.x < nat_x + WIGGLE_X, "platform {} at {:?}", i, p);
        assert!(p.y >= nat_y && p.y < nat_y + WIGGLE_Y, "platform {} at {:?}", i, p);
        assert!(p.x < LEVEL_WIDTH && p.y < LEVEL_HEIGHT + WIGGLE_Y);
    }
    assert!(w.entities.iter().any(|e| e.gate.is_some()));
    let player = w.entities[pid];
    assert!(player.player.is_some());
    let first = platforms[0];
    assert_eq!(player.position, Some(Position { x: first.x, y: first.y + PLATFORM_HEIGHT / 2 + 25_000 }));
    for e in w.entities.iter() {
        if let Some(platformer::components::Ingredient::Hornwort { count }) = e.ingredient {
            assert_eq!(count, 1);
        }
    }
}

#[test]
fn potion_flies_toward_pointer() {
    let mut w = World::new();
    // pointer at the right edge, half way down an 800 by 450 screen
    let info = PotionInfo { px: 1_000_000, py: 200_000, mx: 800, my: 225 };
    let id = LevelState::spawn_potion(&mut w, info, 800, 450);
    let e = w.entities[id];
    assert_eq!(e.position, Some(Position { x: 1_000_000, y: 200_000 }));
    let m = e.mover.unwrap();
    assert_eq!((m.velocity_x, m.velocity_y), (POTION_SPEED, 0));
    assert_eq!(m.jump_state, JumpState::Airborne);
    assert_eq!(m.gravity, 500);
    assert!(e.potion.is_some() && e.collider.is_none());
    // pointer at the top left corner: up and to the left
    let info = PotionInfo { px: 0, py: 0, mx: 0, my: 0 };
    let id = LevelState::spawn_potion(&mut w, info, 800, 450);
    let m = w.entities[id].mover.unwrap();
    assert!(m.velocity_x < 0 && m.velocity_y > 0);
    // pointer on the thrower: no direction
    let info = PotionInfo { px: 0, py: 0, mx: 400, my: 225 };
    let id = LevelState::spawn_potion(&mut w, info, 800, 450);
    let m = w.entities[id].mover.unwrap();
    assert_eq!((m.velocity_x, m.velocity_y), (0, 0));
    assert_eq!(LevelState::update(&mut w, None, 800, 450), None);
    assert_eq!(w.entities.len(), 3);
}

#[test]
fn simulation_runs_a_level() {
    let mut w = World::new();
    let pid = LevelState::create_entities(&mut w);
    let mut sim = Simulation::new(w, 5_000_000);
    let input = PlayerInput { axis: None, jump: false, throw: false, heal: false, pickup: false, mouse: None };
    let mut landed = false;
    for _ in 0..120 {
        let r = sim.tick(&input, 16_667);
        assert!(!r.lose);
        let m = sim.world.entities[pid].mover.unwrap();
        assert!(m.velocity_y >= -600_000);
        if m.jump_state == JumpState::Landed {
            landed = true;
        }
    }
    assert!(landed);
    let p = sim.world.entities[pid].position.unwrap();
    assert_eq!(sim.world.camera, Position { x: p.x - 200_000, y: p.y - 112_500 });
}

#[test]
fn simulation_spawns_and_scores_a_throw() {
    let mut w = World::new();
    let mut pl = Entity::empty();
    let mut p = Player::new();
    p.hornwort = 3;
    p.mushroom = 1;
    p.last_throw = 1_000_000;
    pl.player = Some(p);
    pl.mover = Some(Mover::new(-100_000, 3_100_000));
    pl.position = Some(Position { x: 0, y: 0 });
    pl.collider = Some(Collider { width: 24_000, height: 25_000 });
    w.spawn(pl);
    let mut en = Entity::empty();
    en.enemy = Some(Enemy {});
    en.position = Some(Position { x: 60_000, y: 0 });
    en.collider = Some(Collider { width: 28_000, height: 25_000 });
    let eid = w.spawn(en);
    let mut sim = Simulation::new(w, 5_000_000);
    let throw = PlayerInput { axis: None, jump: false, throw: true, heal: false, pickup: false, mouse: Some((800, 225)) };
    let r = sim.tick(&throw, 16_667);
    assert!(r.potion.is_some());
    let q = LevelState::update(&mut sim.world, r.potion, 800, 450).unwrap();
    let idle = PlayerInput { axis: None, jump: false, throw: false, heal: false, pickup: false, mouse: None };
    let mut kills = 0;
    for _ in 0..60 {
        kills += sim.tick(&idle, 16_667).kills;
    }
    assert_eq!(kills, 1);
    assert_eq!(sim.world.score, 1);
    assert!(!sim.world.entities[eid].alive);
    assert!(!sim.world.entities[q].alive);
}

fn roll(gate_roll: u64, enemy: bool) -> PlatformRoll {
    PlatformRoll {
        shift_x: 1_000,
        shift_y: 2_000,
        hornworts: 2,
        hornwort_xs: (0, 71_999),
        mushrooms: 1,
        mushroom_x: 36_000,
        gate_roll,
        enemy,
        enemy_left: true,
    }
}

#[test]
fn placed_platform_follows_its_roll() {
    let mut w = World::new();
    let exit = LevelState::place_platform(&mut w, 50_000, 12_500, &roll(9, true));
    // lower left: no exit, whatever the roll
    assert!(!exit);
    assert_eq!(w.entities.len(), 5);
    let plat = w.entities[0];
    assert!(plat.platform.is_some());
    assert_eq!(plat.position, Some(Position { x: 51_000, y: 14_500 }));
    assert_eq!(plat.collider, Some(Collider { width: PLATFORM_WIDTH, height: PLATFORM_HEIGHT }));
    let xs: Vec<i64> = w.entities[1..4].iter().map(|e| e.position.unwrap().x).collect();
    assert_eq!(xs, vec![15_000, 86_999, 51_000]);
    for e in &w.entities[1..4] {
        assert_eq!(e.position.unwrap().y, 39_500);
    }
    assert_eq!(w.entities[1].ingredient, Some(Ingredient::Hornwort { count: 1 }));
    assert_eq!(w.entities[3].ingredient, Some(Ingredient::Mushroom { count: 1 }));
    let enemy = w.entities[4];
    assert!(enemy.enemy.is_some());
    assert_eq!(enemy.position, Some(Position { x: 51_000, y: 39_500 }));
    let m = enemy.mover.unwrap();
    assert_eq!(m.velocity_x, -50_000);
    assert_eq!(m.bounds.map(|b| (b.min_x, b.max_x)), Some((15_000, 87_000)));
}

#[test]
fn exit_placed_in_upper_right_on_a_nine() {
    let mut w = World::new();
    let mut r = roll(9, false);
    r.hornworts = 0;
    r.mushrooms = 0;
    assert!(LevelState::place_platform(&mut w, 2_750_000, 572_500, &r));
    assert_eq!(w.entities.len(), 2);
    let gate = w.entities[1];
    assert_eq!(gate.gate, Some(Gate {}));
    assert_eq!(gate.position, Some(Position { x: 2_751_000, y: 574_500 + 12_500 + 11_000 }));
    let mut w2 = World::new();
    r.gate_roll = 8;
    assert!(!LevelState::place_platform(&mut w2, 2_750_000, 572_500, &r));
    assert_eq!(w2.entities.len(), 1);
}

#[test]
fn standing_on_exit_wins() {
    let mut w = World::new();
    let mut r = roll(9, false);
    r.hornworts = 0;
    r.mushrooms = 0;
    LevelState::place_platform(&mut w, 2_750_000, 572_500, &r);
    assert!(!reached_exit(&w));
    let mut pl = Entity::empty();
    pl.player = Some(Player::new());
    pl.position = Some(Position { x: 2_760_000, y: 600_000 });
    pl.collider = Some(Collider { width: 24_000, height: 25_000 });
    let id = w.spawn(pl);
    assert!(reached_exit(&w));
    w.destroy(id);
    w.maintain();
    assert!(!reached_exit(&w));
}

fn plain_rolls() -> Vec<PlatformRoll> {
    let mut r = roll(0, false);
    r.hornworts = 0;
    r.mushrooms = 0;
    vec![r; 90]
}

#[test]
fn grid_of_ninety_platforms_from_rolls() {
    let mut rolls = plain_rolls();
    for (k, r) in rolls.iter_mut().enumerate() {
        r.shift_x = (k as i64 * 389) % WIGGLE_X;
        r.shift_y = (k as i64 * 251) % WIGGLE_Y;
    }
    let mut w = World::new();
    let first = LevelState::lay_platforms(&mut w, &rolls);
    // ninety platforms, then the one exit on the last platform
    assert_eq!(w.entities.len(), 91);
    for k in 0..90 {
        let row = (k / 10) as i64;
        let col = (k % 10) as i64;
        let x = 50_000 + 150_000 * (row % 2) + 300_000 * col + rolls[k].shift_x;
        let y = 12_500 + 70_000 * row + rolls[k].shift_y;
        let e = w.entities[k];
        assert!(e.platform.is_some());
        assert_eq!(e.position, Some(Position { x, y }));
    }
    assert_eq!(first, (50_000, 12_500));
    let last = w.entities[89].position.unwrap();
    let gate = w.entities[90];
    assert!(gate.gate.is_some());
    assert_eq!(gate.position, Some(Position { x: last.x, y: last.y + 12_500 + 11_000 }));
    assert_eq!(w.entities.iter().filter(|e| e.gate.is_some()).count(), 1);
}

#[test]
fn rolled_exit_replaces_the_fallback() {
    let mut rolls = plain_rolls();
    // platform 75: row 7, column 5, in the upper right half
    rolls[75].gate_roll = 9;
    let mut w = World::new();
    LevelState::lay_platforms(&mut w, &rolls);
    assert_eq!(w.entities.len(), 91);
    let gates: Vec<usize> = (0..w.entities.len()).filter(|&i| w.entities[i].gate.is_some()).collect();
    assert_eq!(gates, vec![76]);
    // a nine on a lower left platform places nothing
    let mut rolls = plain_rolls();
    rolls[0].gate_roll = 9;
    let mut w = World::new();
    LevelState::lay_platforms(&mut w, &rolls);
    assert!(w.entities[90].gate.is_some());
    assert_eq!(w.entities.iter().filter(|e| e.gate.is_some()).count(), 1);
}
