use bonq::ball::{BallState, NewBall, Vec2, DEFAULT_DEGREE, MIN_VELOCITY};
use bonq::wall::{Collider, Side};
use bonq::world::{Input, World, LAUNCH_X, LAUNCH_Y};

fn input(held: bool, released: bool, x: i64, y: i64) -> Input {
    Input { held, released, launch_velocity: Vec2 { x, y } }
}

fn active(w: &World) -> usize {
    w.balls.iter().filter(|b| b.state != BallState::AtRest).count()
}

#[test]
fn first_tick_spawns_a_charging_ball() {
    let mut w = World::new();
    assert_eq!(w.walls.len(), 4);
    assert!(w.balls.is_empty());
    w.tick(input(false, false, 0, 0));
    assert_eq!(w.balls.len(), 1);
    assert_eq!(w.balls[0].position, Vec2 { x: LAUNCH_X, y: LAUNCH_Y });
    assert_eq!(w.charging_ball(), Some(NewBall { degree: DEFAULT_DEGREE, velocity: MIN_VELOCITY }));
}

#[test]
fn holding_charges_and_release_launches() {
    let mut w = World::new();
    w.tick(input(false, false, 0, 0));
    w.tick(input(true, false, 0, 0));
    w.tick(input(true, false, 0, 0));
    assert_eq!(w.charging_ball(), Some(NewBall { degree: 92, velocity: MIN_VELOCITY + 2 }));
    w.tick(input(false, true, 0, 40));
    assert_eq!(w.balls.len(), 1);
    assert_eq!(w.charging_ball(), None);
    assert!(matches!(w.balls[0].state, BallState::Moving(_)));
    assert_eq!(active(&w), 1);
}

#[test]
fn spent_ball_is_replaced_and_one_ball_stays_in_play() {
    let mut w = World::new();
    w.tick(input(false, false, 0, 0));
    w.tick(input(false, true, 3, 3));
    for _ in 0..10 {
        w.tick(input(false, false, 0, 0));
        assert_eq!(active(&w), 1);
    }
    assert_eq!(w.balls.len(), 2);
    assert_eq!(w.balls[0].state, BallState::AtRest);
    assert!(matches!(w.balls[1].state, BallState::Charging(_)));
}

#[test]
fn launch_without_a_charging_ball_does_nothing() {
    let mut w = World::new();
    assert!(!w.launch_ball(Vec2 { x: 1, y: 1 }));
    assert!(!w.charge_ball());
    assert!(w.balls.is_empty());
    w.spawn_new_ball();
    w.spawn_new_ball();
    assert_eq!(w.balls.len(), 1);
    assert_eq!(w.find_charging(), Some(0));
}

#[test]
fn moving_ball_travels_and_slows() {
    let mut w = World::new();
    w.tick(input(false, false, 0, 0));
    assert!(w.launch_ball(Vec2 { x: 10, y: 20 }));
    w.move_balls();
    assert_eq!(w.balls[0].position, Vec2 { x: LAUNCH_X + 10, y: LAUNCH_Y + 20 });
    w.settle_balls();
    assert!(matches!(w.balls[0].state, BallState::Moving(m) if m.velocity == Vec2 { x: 9, y: 19 }));
    assert!(w.has_active_ball());
}

#[test]
fn long_play_keeps_one_ball_in_play() {
    let mut w = World::new();
    for n in 0..600u32 {
        let held = n % 7 < 4;
        let released = n % 7 == 4;
        let v = (n % 50) as i64;
        w.tick(input(held, released, 60 - v, v));
        assert_eq!(active(&w), 1);
        let charging = w.balls.iter().filter(|b| matches!(b.state, BallState::Charging(_))).count();
        assert!(charging <= 1);
    }
}

#[test]
fn new_world_has_the_four_arena_walls() {
    let w = World::new();
    let got: Vec<(Side, i64, i64, i64, i64)> =
        w.walls.iter().map(|x| (x.side, x.rect.cx, x.rect.cy, x.rect.width, x.rect.height)).collect();
    assert_eq!(
        got,
        vec![
            (Side::Top, 0, 3700, 5700, 300),
            (Side::Bottom, 0, -3700, 5700, 300),
            (Side::Left, -2700, 0, 300, 7700),
            (Side::Right, 2700, 0, 300, 7700),
        ]
    );
    assert!(w.walls.iter().all(|x| x.collider == Collider::Solid));
}
