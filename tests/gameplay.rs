use platformer::components::{Enemy, Ingredient, Platform, Player, Potion, PotionInfo, SpriteAnimation};
use platformer::enemy_system::{isqrt, knockback_from, EnemySystem, HIT_DAMAGE, KNOCKBACK_SPEED};
use platformer::geometry::{Collider, Position};
use platformer::motion::{JumpState, Mover};
use platformer::player_system::{PlayerInput, PlayerSystem, ATTACK_H_COST, ATTACK_M_COST, HEAL_AMOUNT};
use platformer::potion_system::PotionSystem;
use platformer::world::{Entity, World};
use platformer::camera::{CameraSystem, CAMERA_HEIGHT, CAMERA_WIDTH};
use platformer::animation::SpriteAnimationSystem;
use platformer::weight::WeightSystem;
use platformer::components::Weight;

fn player_at(x: i64, y: i64) -> Entity {
    let mut e = Entity::empty();
    let mut p = Player::new();
    p.last_hit = 2_000_000;
    e.player = Some(p);
    e.mover = Some(Mover::new(-100_000, 3_100_000));
    e.position = Some(Position { x, y });
    e.collider = Some(Collider { width: 24_000, height: 25_000 });
    e
}

fn enemy_at(x: i64, y: i64) -> Entity {
    let mut e = Entity::empty();
    e.enemy = Some(Enemy {});
    e.mover = Some(Mover::new(x - 36_000, x + 36_000));
    e.position = Some(Position { x, y });
    e.collider = Some(Collider { width: 28_000, height: 25_000 });
    e
}

fn potion_at(x: i64, y: i64) -> Entity {
    let mut e = Entity::empty();
    e.potion = Some(Potion { width: 10_000, height: 10_000 });
    e.position = Some(Position { x, y });
    e.mover = Some(Mover::new(-100_000, 3_100_000));
    e
}

fn platform_at(x: i64, y: i64) -> Entity {
    let mut e = Entity::empty();
    e.platform = Some(Platform {});
    e.position = Some(Position { x, y });
    e.collider = Some(Collider { width: 100_000, height: 25_000 });
    e
}

fn idle() -> PlayerInput {
    PlayerInput { axis: None, jump: false, throw: false, heal: false, pickup: false, mouse: None }
}

#[test]
fn damage_sweep_hits_player_once() {
    let mut w = World::new();
    let pid = w.spawn(player_at(50_000, 100_000));
    w.spawn(enemy_at(55_000, 100_000));
    let mut sys = EnemySystem {};
    let hits = sys.damage(&mut w);
    assert_eq!(hits, 1);
    let e = w.entities[pid];
    let p = e.player.unwrap();
    assert_eq!(p.health, 100 - HIT_DAMAGE);
    assert!(p.in_hit);
    assert_eq!(p.last_hit, 0);
    let m = e.mover.unwrap();
    // pushed straight away from (55, 100)
    assert_eq!(m.velocity_x, -KNOCKBACK_SPEED);
    assert_eq!(m.velocity_y, 0);
    // immune right after
    assert_eq!(sys.damage(&mut w), 0);
    assert_eq!(w.entities[pid].player.unwrap().health, 100 - HIT_DAMAGE);
}

#[test]
fn damage_needs_cooldown_elapsed() {
    let mut w = World::new();
    let mut pl = player_at(50_000, 100_000);
    let mut p = pl.player.unwrap();
    p.last_hit = 1_000_000; // equal to the cooldown: not elapsed
    pl.player = Some(p);
    let pid = w.spawn(pl);
    w.spawn(enemy_at(55_000, 100_000));
    let mut sys = EnemySystem {};
    assert_eq!(sys.damage(&mut w), 0);
    assert_eq!(w.entities[pid].player.unwrap().health, 100);
}

#[test]
fn damage_from_first_enemy_only() {
    let mut w = World::new();
    let pid = w.spawn(player_at(50_000, 100_000));
    w.spawn(enemy_at(50_000, 110_000));
    w.spawn(enemy_at(60_000, 100_000));
    let mut sys = EnemySystem {};
    assert_eq!(sys.damage(&mut w), 1);
    let e = w.entities[pid];
    assert_eq!(e.player.unwrap().health, 100 - HIT_DAMAGE);
    let m = e.mover.unwrap();
    assert_eq!((m.velocity_x, m.velocity_y), (0, -KNOCKBACK_SPEED));
}

#[test]
fn knockback_values() {
    let v = knockback_from(&Position { x: 3_000, y: 4_000 }, &Position { x: 0, y: 0 });
    assert_eq!(v, (60_000, 80_000));
    let v = knockback_from(&Position { x: 7, y: 7 }, &Position { x: 7, y: 7 });
    assert_eq!(v, (0, 0));
    let v = knockback_from(&Position { x: -1, y: -1 }, &Position { x: 0, y: 0 });
    // a diagonal of one thousandth keeps its angle and its speed
    assert_eq!(v, (-70_721, -70_721));
    let v = knockback_from(&Position { x: 2, y: 1 }, &Position { x: 0, y: 0 });
    // length sqrt(5) = 2.236
    assert_eq!(v, (89_445, 44_722));
}

#[test]
fn integer_square_roots() {
    assert_eq!(isqrt(0), 0);
    assert_eq!(isqrt(1), 1);
    assert_eq!(isqrt(24), 4);
    assert_eq!(isqrt(25), 5);
    assert_eq!(isqrt(1u128 << 80), 1u64 << 40);
    assert_eq!(isqrt((1u128 << 104) - 1), (1u64 << 52) - 1);
}

#[test]
fn enemy_turns_at_bound() {
    let mut w = World::new();
    let mut e = enemy_at(0, 0);
    let mut m = Mover::new(-50_000, 50_000);
    m.velocity_x = 50_000;
    e.mover = Some(m);
    e.position = Some(Position { x: 49_500, y: 0 });
    let id = w.spawn(e);
    let mut far = enemy_at(0, 0);
    let mut m2 = Mover::new(-50_000, 50_000);
    m2.velocity_x = 50_000;
    far.mover = Some(m2);
    let id2 = w.spawn(far);
    let mut sys = EnemySystem {};
    sys.patrol(&mut w);
    assert_eq!(w.entities[id].mover.unwrap().velocity_x, -50_000);
    assert_eq!(w.entities[id2].mover.unwrap().velocity_x, 50_000);
}

#[test]
fn projectile_hitting_platform_is_destroyed_without_score() {
    let mut w = World::new();
    let q = w.spawn(potion_at(10_000, 10_000));
    let p = w.spawn(platform_at(10_000, 10_000));
    let mut sys = PotionSystem {};
    let kills = sys.run(&mut w);
    assert_eq!(kills, 0);
    assert_eq!(w.score, 0);
    assert!(w.entities[q].doomed);
    assert!(!w.entities[p].doomed);
    w.maintain();
    assert!(!w.entities[q].alive);
    assert!(w.entities[p].alive);
}

#[test]
fn projectile_on_enemy_and_platform_is_deleted_once() {
    let mut w = World::new();
    let q = w.spawn(potion_at(10_000, 10_000));
    let en = w.spawn(enemy_at(15_000, 10_000));
    let p = w.spawn(platform_at(10_000, 0));
    let mut sys = PotionSystem {};
    let kills = sys.run(&mut w);
    assert_eq!(kills, 1);
    assert_eq!(w.score, 1);
    let doomed: Vec<usize> = (0..w.entities.len()).filter(|&i| w.entities[i].doomed).collect();
    assert_eq!(doomed, vec![q, en]);
    // recording the deletion again changes nothing
    w.destroy(q);
    w.destroy(q);
    let doomed: Vec<usize> = (0..w.entities.len()).filter(|&i| w.entities[i].doomed).collect();
    assert_eq!(doomed, vec![q, en]);
    w.maintain();
    assert!(!w.entities[q].alive && !w.entities[en].alive && w.entities[p].alive);
    // destroying a removed entity is a no-op too
    w.destroy(q);
    assert!(!w.entities[q].doomed);
}

#[test]
fn projectile_in_open_air_survives() {
    let mut w = World::new();
    let q = w.spawn(potion_at(10_000, 500_000));
    w.spawn(platform_at(10_000, 0));
    w.spawn(enemy_at(300_000, 0));
    let mut sys = PotionSystem {};
    assert_eq!(sys.run(&mut w), 0);
    assert!(!w.entities[q].doomed);
}

#[test]
fn two_projectiles_on_one_enemy_score_twice() {
    let mut w = World::new();
    w.spawn(potion_at(10_000, 10_000));
    w.spawn(potion_at(12_000, 10_000));
    w.spawn(enemy_at(11_000, 10_000));
    let mut sys = PotionSystem {};
    assert_eq!(sys.run(&mut w), 2);
    assert_eq!(w.score, 2);
}

#[test]
fn pickup_collects_on_action_only() {
    let mut w = World::new();
    let pid = w.spawn(player_at(0, 0));
    let mut herb = Entity::empty();
    herb.ingredient = Some(Ingredient::Hornwort { count: 1 });
    herb.position = Some(Position { x: 5_000, y: 0 });
    herb.collider = Some(Collider { width: 28_000, height: 25_000 });
    let h = w.spawn(herb);
    let mut shroom = herb;
    shroom.ingredient = Some(Ingredient::Mushroom { count: 2 });
    let s = w.spawn(shroom);
    let mut far = herb;
    far.position = Some(Position { x: 500_000, y: 0 });
    let f = w.spawn(far);

    let mut sys = PlayerSystem { health_tick_rate: 5_000_000, last_tick: 0 };
    sys.run(&mut w, &idle(), 1_000);
    assert_eq!(w.entities[pid].player.unwrap().hornwort, 0);
    assert!(!w.entities[h].doomed);

    let mut input = idle();
    input.pickup = true;
    sys.run(&mut w, &input, 1_000);
    let p = w.entities[pid].player.unwrap();
    assert_eq!(p.hornwort, 1);
    assert_eq!(p.mushroom, 2);
    assert!(w.entities[h].doomed && w.entities[s].doomed);
    assert!(!w.entities[f].doomed);
}

#[test]
fn player_steers_and_jumps_from_ground() {
    let mut w = World::new();
    let pid = w.spawn(player_at(0, 0));
    let mut sys = PlayerSystem { health_tick_rate: 5_000_000, last_tick: 0 };
    let mut input = idle();
    input.axis = Some(-500);
    input.jump = true;
    sys.run(&mut w, &input, 1_000);
    let m = w.entities[pid].mover.unwrap();
    assert_eq!(m.velocity_x, -70_000);
    // airborne: no jump
    assert_eq!(m.jump_state, JumpState::Airborne);
    let mut m2 = m;
    m2.jump_state = JumpState::Landed;
    w.entities[pid].mover = Some(m2);
    sys.run(&mut w, &input, 1_000);
    assert_eq!(w.entities[pid].mover.unwrap().jump_state, JumpState::Jump);
}

#[test]
fn knocked_back_player_cannot_steer() {
    let mut w = World::new();
    let mut pl = player_at(0, 0);
    let mut p = pl.player.unwrap();
    p.in_hit = true;
    p.last_hit = 0;
    pl.player = Some(p);
    let mut m = pl.mover.unwrap();
    m.velocity_x = 90_000;
    pl.mover = Some(m);
    let pid = w.spawn(pl);
    let mut sys = PlayerSystem { health_tick_rate: 5_000_000, last_tick: 0 };
    let mut input = idle();
    input.axis = Some(1000);
    sys.run(&mut w, &input, 100_000);
    assert_eq!(w.entities[pid].mover.unwrap().velocity_x, 90_000);
    assert!(w.entities[pid].player.unwrap().in_hit);
    sys.run(&mut w, &input, 150_000);
    // 0.25 s since the hit: control comes back this tick, steering the next
    assert!(!w.entities[pid].player.unwrap().in_hit);
    sys.run(&mut w, &input, 1_000);
    assert_eq!(w.entities[pid].mover.unwrap().velocity_x, 140_000);
}

#[test]
fn throw_costs_ingredients_and_asks_for_potion() {
    let mut w = World::new();
    let mut pl = player_at(40_000, 60_000);
    let mut p = pl.player.unwrap();
    p.hornwort = 4;
    p.mushroom = 1;
    p.last_throw = 1_000_000;
    pl.player = Some(p);
    let pid = w.spawn(pl);
    let mut sys = PlayerSystem { health_tick_rate: 5_000_000, last_tick: 0 };
    let mut input = idle();
    input.throw = true;
    input.mouse = Some((300, 200));
    let r = sys.run(&mut w, &input, 1_000);
    assert_eq!(r.potion, Some(PotionInfo { px: 40_000, py: 60_000, mx: 300, my: 200 }));
    let p = w.entities[pid].player.unwrap();
    assert_eq!(p.hornwort, 4 - ATTACK_H_COST);
    assert_eq!(p.mushroom, 1 - ATTACK_M_COST);
    assert_eq!(p.last_throw, 0);
    // cannot afford another
    let r = sys.run(&mut w, &input, 1_000_000);
    assert_eq!(r.potion, None);
}

#[test]
fn heal_restores_health() {
    let mut w = World::new();
    let mut pl = player_at(0, 0);
    let mut p = pl.player.unwrap();
    p.hornwort = 1;
    p.mushroom = 3;
    p.health = 50;
    p.last_heal = 1_000_000;
    pl.player = Some(p);
    let pid = w.spawn(pl);
    let mut sys = PlayerSystem { health_tick_rate: 5_000_000, last_tick: 0 };
    let mut input = idle();
    input.heal = true;
    sys.run(&mut w, &input, 1_000);
    let p = w.entities[pid].player.unwrap();
    assert_eq!(p.health, 50 + HEAL_AMOUNT);
    assert_eq!((p.hornwort, p.mushroom), (0, 0));
    assert_eq!(p.last_heal, 0);
    assert_eq!(p.last_throw, 0);
}

#[test]
fn health_decays_on_its_clock_and_falls_kill() {
    let mut w = World::new();
    let pid = w.spawn(player_at(0, 0));
    let mut sys = PlayerSystem { health_tick_rate: 5_000_000, last_tick: 0 };
    sys.run(&mut w, &idle(), 4_000_000);
    assert_eq!(w.entities[pid].player.unwrap().health, 100);
    sys.run(&mut w, &idle(), 1_000_000);
    assert_eq!(w.entities[pid].player.unwrap().health, 99);
    assert_eq!(sys.last_tick, 0);
    let mut e = w.entities[pid];
    e.position = Some(Position { x: 0, y: -50_001 });
    w.entities[pid] = e;
    let r = sys.run(&mut w, &idle(), 1_000);
    assert!(r.lose);
    assert_eq!(w.entities[pid].player.unwrap().health, 0);
    assert!(w.entities[pid].doomed);
}

#[test]
fn no_player_means_lost() {
    let mut w = World::new();
    w.spawn(platform_at(0, 0));
    let mut sys = PlayerSystem { health_tick_rate: 5_000_000, last_tick: 0 };
    assert!(sys.run(&mut w, &idle(), 1_000).lose);
}

#[test]
fn camera_centers_on_player() {
    let mut w = World::new();
    w.spawn(player_at(300_000, 200_000));
    let mut cam = CameraSystem {};
    cam.run(&mut w);
    assert_eq!(w.camera, Position { x: 300_000 - CAMERA_WIDTH / 2, y: 200_000 - CAMERA_HEIGHT / 2 });
    let mut empty = World::new();
    cam.run(&mut empty);
    assert_eq!(empty.camera, Position { x: -CAMERA_WIDTH / 2, y: -CAMERA_HEIGHT / 2 });
}

#[test]
fn animation_frames_and_facing() {
    let mut w = World::new();
    let mut e = player_at(0, 0);
    e.animation = Some(SpriteAnimation::new(0, 2, 7, 1, 200_000, 9));
    e.sprite = Some(0);
    let mut m = e.mover.unwrap();
    m.velocity_x = -10;
    m.jump_state = JumpState::Landed;
    e.mover = Some(m);
    let id = w.spawn(e);
    let mut sys = SpriteAnimationSystem {};
    sys.run(&mut w, 250_000);
    assert!(w.entities[id].flipped);
    assert_eq!(w.entities[id].sprite, Some(1));
    sys.run(&mut w, 200_000);
    assert_eq!(w.entities[id].sprite, Some(0));
    let mut m = w.entities[id].mover.unwrap();
    m.velocity_x = 0;
    w.entities[id].mover = Some(m);
    sys.run(&mut w, 1);
    assert_eq!(w.entities[id].sprite, Some(7));
    assert!(w.entities[id].flipped);
    m.jump_state = JumpState::Airborne;
    m.velocity_x = 5;
    w.entities[id].mover = Some(m);
    sys.run(&mut w, 1);
    assert_eq!(w.entities[id].sprite, Some(9));
    assert!(!w.entities[id].flipped);
}

#[test]
fn weighted_entities_sink() {
    let mut w = World::new();
    let mut e = Entity::empty();
    e.weight = Some(Weight {});
    e.position = Some(Position { x: 0, y: 1_000 });
    let id = w.spawn(e);
    let mut sys = WeightSystem {};
    sys.run(&mut w);
    assert_eq!(w.entities[id].position.unwrap().y, 900);
}
