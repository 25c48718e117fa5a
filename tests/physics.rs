use platformer::geometry::{check_collision, Collider, Position};
use platformer::motion::{
    integrate, resolve, JumpState, Mover, XBounds, GRAVITY, JUMP_VELOCITY, MAX_DROP_VELOCITY,
};
use platformer::mover_system::MoverSystem;
use platformer::components::Platform;
use platformer::world::{Entity, World};

fn pos(x: i64, y: i64) -> Position {
    Position { x, y }
}

fn size(width: i64, height: i64) -> Collider {
    Collider { width, height }
}

#[test]
fn overlap_is_symmetric() {
    let cases = [
        (pos(0, 0), size(10_000, 10_000), pos(5_000, 5_000), size(10_000, 10_000)),
        (pos(0, 0), size(10_000, 10_000), pos(50_000, 0), size(10_000, 10_000)),
        (pos(-3_000, 7_000), size(1_000, 30_000), pos(-3_400, -5_000), size(2_000, 2_000)),
        (pos(100, 100), size(0, 0), pos(100, 100), size(10, 10)),
    ];
    for (pa, ca, pb, cb) in cases.iter() {
        assert_eq!(check_collision(ca, pa, cb, pb), check_collision(cb, pb, ca, pa));
    }
    assert!(check_collision(&size(10_000, 10_000), &pos(0, 0), &size(10_000, 10_000), &pos(5_000, 5_000)));
    assert!(!check_collision(&size(10_000, 10_000), &pos(0, 0), &size(10_000, 10_000), &pos(50_000, 0)));
}

#[test]
fn touching_edges_do_not_overlap() {
    // A's right edge at 5000 is B's left edge.
    let a = (pos(0, 0), size(10_000, 10_000));
    let b = (pos(10_000, 0), size(10_000, 10_000));
    assert!(!check_collision(&a.1, &a.0, &b.1, &b.0));
    assert!(!check_collision(&b.1, &b.0, &a.1, &a.0));
    // A's top edge is B's bottom edge.
    let c = (pos(0, 10_000), size(10_000, 10_000));
    assert!(!check_collision(&a.1, &a.0, &c.1, &c.0));
    // One unit more and they overlap.
    let d = (pos(9_999, 0), size(10_000, 10_000));
    assert!(check_collision(&a.1, &a.0, &d.1, &d.0));
}

#[test]
fn odd_sizes_overlap_exactly() {
    // Edges at 0.5 units: [-1.5, 1.5] against [1.5, 4.5] only touch.
    assert!(!check_collision(&size(3, 1), &pos(0, 0), &size(3, 1), &pos(3, 0)));
    assert!(check_collision(&size(3, 1), &pos(0, 0), &size(3, 1), &pos(2, 0)));
}

#[test]
fn integration_step_values() {
    let mut m = Mover::new(-1_000_000, 1_000_000);
    m.velocity_x = 10_000;
    m.velocity_y = 100_000;
    let mut p = pos(0, 0);
    integrate(&mut m, &mut p, 1_000_000);
    // y += 1.2 * 100 * 1 - 0.5 * 400 * 1 = -80 units
    assert_eq!(p.y, -80_000);
    assert_eq!(p.x, 10_000);
    // vy = 100 - 400 = -300 units/s
    assert_eq!(m.velocity_y, -300_000);
    assert_eq!(m.jump_state, JumpState::Airborne);
}

#[test]
fn jump_impulse_is_taken_once() {
    let mut m = Mover::new(-1_000_000, 1_000_000);
    m.jump_state = JumpState::Jump;
    let mut p = pos(0, 0);
    integrate(&mut m, &mut p, 10_000);
    // 250 - 400 * 0.01 = 246 units/s
    assert_eq!(m.velocity_y, JUMP_VELOCITY - GRAVITY / 100);
    assert_eq!(m.jump_state, JumpState::Airborne);
    // 1.2 * 250 * 0.01 - 0.5 * 400 * 0.0001 = 3 - 0.02 = 2.98 units
    assert_eq!(p.y, 2_980);
}

#[test]
fn bounds_clamp_position() {
    let mut m = Mover::new(0, 100_000);
    m.velocity_x = 1_000_000;
    let mut p = pos(50_000, 0);
    integrate(&mut m, &mut p, 5_000_000);
    assert_eq!(p.x, 100_000);
    for _ in 0..20 {
        integrate(&mut m, &mut p, 3_000_000);
        assert!(p.x >= 0 && p.x <= 100_000);
    }
    m.velocity_x = -1_000_000;
    integrate(&mut m, &mut p, 5_000_000);
    assert_eq!(p.x, 0);
}

#[test]
fn unbounded_body_is_not_clamped() {
    let mut m = Mover::new(0, 100_000);
    m.bounds = None;
    m.velocity_x = 1_000_000;
    let mut p = pos(50_000, 0);
    integrate(&mut m, &mut p, 1_000_000);
    assert_eq!(p.x, 1_050_000);
}

#[test]
fn fall_speed_is_capped() {
    let mut m = Mover::new(-1_000_000, 1_000_000);
    let mut p = pos(0, 0);
    for _ in 0..200 {
        integrate(&mut m, &mut p, 16_667);
        assert!(m.velocity_y >= -MAX_DROP_VELOCITY);
    }
    assert_eq!(m.velocity_y, -MAX_DROP_VELOCITY);
    m.velocity_y = -5_000_000;
    integrate(&mut m, &mut p, 16_667);
    assert_eq!(m.velocity_y, -MAX_DROP_VELOCITY);
}

#[test]
fn resolver_lands_body_on_top() {
    let mut m = Mover::new(-1_000_000, 1_000_000);
    m.velocity_y = -100_000;
    let c = size(24_000, 25_000);
    // bottom edge at -0.5 units, platform top at 0
    let mut p = pos(0, 12_000);
    resolve(&mut m, &mut p, &c, &pos(0, -12_500), &size(100_000, 25_000));
    assert_eq!(p.y, 12_500);
    assert_eq!(m.velocity_y, 0);
    assert_eq!(m.jump_state, JumpState::Landed);
}

#[test]
fn resolver_stops_rise_on_bottom() {
    let mut m = Mover::new(-1_000_000, 1_000_000);
    m.velocity_y = 100_000;
    let c = size(24_000, 25_000);
    // top edge 1 unit into a platform whose bottom is at 0
    let mut p = pos(0, -11_500);
    resolve(&mut m, &mut p, &c, &pos(0, 12_500), &size(100_000, 25_000));
    assert_eq!(p.y, -12_500);
    assert_eq!(m.velocity_y, 0);
    assert_eq!(m.jump_state, JumpState::Airborne);
}

#[test]
fn resolver_pushes_sideways_keeping_velocity() {
    let mut m = Mover::new(-1_000_000, 1_000_000);
    m.velocity_x = 50_000;
    m.velocity_y = -10_000;
    let c = size(10_000, 10_000);
    // right edge 1 unit into the left side of a tall platform
    let mut p = pos(-54_000, 0);
    resolve(&mut m, &mut p, &c, &pos(0, 0), &size(100_000, 100_000));
    assert_eq!(p.x, -55_000);
    assert_eq!(m.velocity_x, 50_000);
    assert_eq!(m.velocity_y, -10_000);
}

#[test]
fn resolver_tie_prefers_horizontal() {
    // Equal penetration of 1 unit to the left and from above: left wins.
    let mut m = Mover::new(-1_000_000, 1_000_000);
    m.velocity_y = -10_000;
    let c = size(10_000, 10_000);
    let mut p = pos(-54_000, 54_000);
    resolve(&mut m, &mut p, &c, &pos(0, 0), &size(100_000, 100_000));
    assert_eq!(p, pos(-55_000, 54_000));
    assert_eq!(m.velocity_y, -10_000);
}

#[test]
fn resolver_leaves_apart_boxes_alone() {
    let mut m = Mover::new(-1_000_000, 1_000_000);
    m.velocity_y = -10_000;
    let mut p = pos(0, 100_000);
    resolve(&mut m, &mut p, &size(10_000, 10_000), &pos(0, 0), &size(100_000, 25_000));
    assert_eq!(p, pos(0, 100_000));
    assert_eq!(m.velocity_y, -10_000);
}

fn body_over_platform(y: i64, vy: i64) -> World {
    let mut w = World::new();
    let mut body = Entity::empty();
    let mut m = Mover::new(-3_000_000, 3_000_000);
    m.velocity_y = vy;
    body.mover = Some(m);
    body.position = Some(pos(0, y));
    body.collider = Some(size(24_000, 25_000));
    w.spawn(body);
    let mut plat = Entity::empty();
    plat.platform = Some(Platform {});
    plat.position = Some(pos(0, 0));
    plat.collider = Some(size(100_000, 25_000));
    w.spawn(plat);
    w
}

#[test]
fn falling_body_comes_to_rest() {
    let mut w = body_over_platform(80_000, -50_000);
    let mut sys = MoverSystem {};
    let mut landed_at = None;
    for t in 0..200 {
        sys.run(&mut w, 16_667);
        let m = w.entities[0].mover.unwrap();
        if m.jump_state == JumpState::Landed {
            landed_at = Some(t);
            break;
        }
    }
    assert!(landed_at.is_some());
    let m = w.entities[0].mover.unwrap();
    let p = w.entities[0].position.unwrap();
    assert_eq!(m.velocity_y, 0);
    // bottom edge on the platform's top edge at 12.5 units
    assert_eq!(2 * p.y - 25_000, 25_000);
    // and it stays there
    for _ in 0..50 {
        sys.run(&mut w, 16_667);
        assert_eq!(w.entities[0].position.unwrap(), p);
        assert_eq!(w.entities[0].mover.unwrap().jump_state, JumpState::Landed);
        assert_eq!(w.entities[0].mover.unwrap().velocity_y, 0);
    }
}

#[test]
fn body_leaving_platform_is_airborne() {
    let mut w = body_over_platform(80_000, -50_000);
    let mut sys = MoverSystem {};
    for _ in 0..100 {
        sys.run(&mut w, 16_667);
    }
    assert_eq!(w.entities[0].mover.unwrap().jump_state, JumpState::Landed);
    let mut m = w.entities[0].mover.unwrap();
    m.jump_state = JumpState::Jump;
    w.entities[0].mover = Some(m);
    sys.run(&mut w, 16_667);
    let m = w.entities[0].mover.unwrap();
    assert_eq!(m.jump_state, JumpState::Airborne);
    assert!(m.velocity_y > 0);
}

#[test]
fn platform_is_never_moved() {
    let mut w = body_over_platform(20_000, -300_000);
    let mut sys = MoverSystem {};
    for _ in 0..30 {
        sys.run(&mut w, 16_667);
        assert_eq!(w.entities[1].position, Some(pos(0, 0)));
    }
}

#[test]
fn bounds_held_in_a_world() {
    let mut w = World::new();
    let mut e = Entity::empty();
    let mut m = Mover::new(0, 100_000);
    m.velocity_x = 1_000_000;
    e.mover = Some(m);
    e.position = Some(pos(0, 0));
    w.spawn(e);
    let mut sys = MoverSystem {};
    for _ in 0..10 {
        sys.run(&mut w, 1_000_000);
        let x = w.entities[0].position.unwrap().x;
        assert!((0..=100_000).contains(&x));
    }
    assert_eq!(w.entities[0].mover.unwrap().bounds, Some(XBounds { min_x: 0, max_x: 100_000 }));
}

#[test]
fn body_rests_at_one_millisecond_ticks() {
    // 1 thousandth above the platform's top, falling at 1.2 units/s
    let mut w = body_over_platform(25_001, -1_200);
    let mut sys = MoverSystem {};
    let mut landed = false;
    for _ in 0..10 {
        sys.run(&mut w, 1_000);
        if w.entities[0].mover.unwrap().jump_state == JumpState::Landed {
            landed = true;
            break;
        }
    }
    assert!(landed);
    let p = w.entities[0].position.unwrap();
    assert_eq!(p.y, 25_000);
    for _ in 0..100 {
        sys.run(&mut w, 1_000);
        let m = w.entities[0].mover.unwrap();
        assert_eq!(m.jump_state, JumpState::Landed);
        assert_eq!(m.velocity_y, 0);
        assert_eq!(w.entities[0].position.unwrap(), p);
    }
}

#[test]
fn gravity_acts_on_the_shortest_tick() {
    let mut m = Mover::new(-1_000_000, 1_000_000);
    let mut p = pos(0, 0);
    integrate(&mut m, &mut p, 1);
    assert_eq!(p.y, -1);
    assert_eq!(m.velocity_y, -1);
}
