use bonq::ball::{Moving, Vec2};
use bonq::collider::{advance, ball_collision, collide, Collision};
use bonq::wall::{arena_walls, Rect};

fn square(cx: i64, cy: i64, size: i64) -> Rect {
    Rect { cx, cy, width: size, height: size }
}

#[test]
fn classifies_faces() {
    let wall = Rect { cx: 2700, cy: 0, width: 300, height: 7700 };
    assert_eq!(collide(square(2600, 0, 100), wall), Some(Collision::Left));
    assert_eq!(collide(square(2800, 0, 100), wall), Some(Collision::Right));
    let top = Rect { cx: 0, cy: 3700, width: 5700, height: 300 };
    assert_eq!(collide(square(0, 3600, 100), top), Some(Collision::Bottom));
    assert_eq!(collide(square(0, 3800, 100), top), Some(Collision::Top));
}

#[test]
fn no_collision_when_apart_or_touching() {
    let wall = Rect { cx: 2700, cy: 0, width: 300, height: 7700 };
    assert_eq!(collide(square(0, 0, 100), wall), None);
    assert_eq!(collide(square(2500, 0, 100), wall), None);
}

#[test]
fn smaller_overlap_decides_and_ties_go_horizontal() {
    let wall = square(0, 0, 100);
    assert_eq!(collide(square(-90, -50, 100), wall), Some(Collision::Left));
    assert_eq!(collide(square(-50, -90, 100), wall), Some(Collision::Bottom));
    assert_eq!(collide(square(-70, -70, 100), wall), Some(Collision::Left));
}

#[test]
fn left_face_hit_negates_x_only() {
    let walls = arena_walls(300);
    let mut m = Moving { velocity: Vec2 { x: 30, y: 20 } };
    ball_collision(&mut m, Vec2 { x: 2600, y: 0 }, 100, &walls);
    assert_eq!(m.velocity, Vec2 { x: -30, y: 20 });
}

#[test]
fn moving_away_from_the_face_is_not_reflected() {
    let walls = arena_walls(300);
    let mut m = Moving { velocity: Vec2 { x: -30, y: 20 } };
    ball_collision(&mut m, Vec2 { x: 2600, y: 0 }, 100, &walls);
    assert_eq!(m.velocity, Vec2 { x: -30, y: 20 });
}

#[test]
fn top_wall_reflects_upward_motion() {
    let walls = arena_walls(300);
    let mut m = Moving { velocity: Vec2 { x: 5, y: 40 } };
    ball_collision(&mut m, Vec2 { x: 0, y: 3600 }, 100, &walls);
    assert_eq!(m.velocity, Vec2 { x: 5, y: -40 });
}

#[test]
fn free_flight_keeps_velocity() {
    let walls = arena_walls(300);
    let mut m = Moving { velocity: Vec2 { x: 12, y: -7 } };
    ball_collision(&mut m, Vec2 { x: 0, y: 0 }, 100, &walls);
    assert_eq!(m.velocity, Vec2 { x: 12, y: -7 });
}

#[test]
fn advance_adds_velocity_and_saturates() {
    assert_eq!(advance(Vec2 { x: 10, y: -20 }, Vec2 { x: 5, y: -5 }), Vec2 { x: 15, y: -25 });
    assert_eq!(advance(Vec2 { x: i64::MAX - 1, y: i64::MIN + 1 }, Vec2 { x: 5, y: -5 }), Vec2 { x: i64::MAX, y: i64::MIN });
}
