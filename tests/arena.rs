use bonq::wall::{arena_walls, spawn, wall_layout, Collider, Side};

#[test]
fn top_wall_layout() {
    let r = wall_layout(600, 800, 30, Side::Top);
    assert_eq!((r.cx, r.cy), (0, 370));
    assert_eq!((r.width, r.height), (570, 30));
}

#[test]
fn left_wall_layout() {
    let r = wall_layout(600, 800, 30, Side::Left);
    assert_eq!((r.cx, r.cy), (-270, 0));
    assert_eq!((r.width, r.height), (30, 770));
}

#[test]
fn bottom_and_right_wall_layout() {
    let b = wall_layout(600, 800, 30, Side::Bottom);
    assert_eq!((b.cx, b.cy, b.width, b.height), (0, -370, 570, 30));
    let r = wall_layout(600, 800, 30, Side::Right);
    assert_eq!((r.cx, r.cy, r.width, r.height), (270, 0, 30, 770));
}

#[test]
fn spawned_wall_uses_the_arena_size() {
    let w = spawn(300, Side::Top);
    assert_eq!(w.side, Side::Top);
    assert_eq!(w.collider, Collider::Solid);
    assert_eq!((w.rect.cx, w.rect.cy, w.rect.width, w.rect.height), (0, 3700, 5700, 300));
}

#[test]
fn arena_has_four_solid_walls() {
    let walls = arena_walls(300);
    assert_eq!(walls.len(), 4);
    let sides: Vec<Side> = walls.iter().map(|w| w.side).collect();
    assert_eq!(sides, vec![Side::Top, Side::Bottom, Side::Left, Side::Right]);
    assert_eq!((walls[2].rect.cx, walls[2].rect.height), (-2700, 7700));
    assert!(walls.iter().all(|w| w.collider == Collider::Solid));
}
