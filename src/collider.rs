//! Collision response between a moving ball and the walls.
use vstd::prelude::*;
use crate::ball::{Moving, Vec2, bounded};
use crate::wall::{Collider, Rect, Wall};

verus! {

/// Which face of a wall a box has hit: `Left` means the box came in from
/// the left of the wall, `Top` from above it.
#[derive(Debug, Clone, Copy, PartialEq, Eq, Structural)]
pub enum Collision {
    Left,
    Right,
    Top,
    Bottom,
}

/// How deep two extents overlap along one axis, doubled so as to stay on
/// the integer grid: the sum of the extents less twice the distance of the
/// centres. The boxes overlap on that axis when it is positive.
pub open spec fn depth2(ca: int, sa: int, cb: int, sb: int) -> int {
    let d = if ca < cb { cb - ca } else { ca - cb };
    sa + sb - 2 * d
}

/// The face of `b` that box `a` has hit, if the two overlap. The axis with
/// the smaller overlap decides; on a tie the horizontal axis does.
pub open spec fn collision_of(a: Rect, b: Rect) -> Option<Collision> {
    let dx = depth2(a.cx as int, a.width as int, b.cx as int, b.width as int);
    let dy = depth2(a.cy as int, a.height as int, b.cy as int, b.height as int);
    if dx <= 0 || dy <= 0 {
        None
    } else if dy < dx {
        if a.cy < b.cy { Some(Collision::Bottom) } else { Some(Collision::Top) }
    } else {
        if a.cx < b.cx { Some(Collision::Left) } else { Some(Collision::Right) }
    }
}

/// A velocity after a hit on face `c`: the component along the hit axis
/// is negated when, and only when, it points into the wall.
pub open spec fn reflect(v: Vec2, c: Collision) -> Vec2 {
    match c {
        Collision::Left => if v.x > 0 { Vec2 { x: (-v.x) as i64, ..v } } else { v },
        Collision::Right => if v.x < 0 { Vec2 { x: (-v.x) as i64, ..v } } else { v },
        Collision::Top => if v.y < 0 { Vec2 { y: (-v.y) as i64, ..v } } else { v },
        Collision::Bottom => if v.y > 0 { Vec2 { y: (-v.y) as i64, ..v } } else { v },
    }
}

/// The velocity after the walls from index `i` on are checked in turn: the
/// first wall the box overlaps reflects it, and, being solid, ends the scan.
pub open spec fn respond_from(v: Vec2, a: Rect, walls: Seq<Wall>, i: int) -> Vec2
    decreases walls.len() - i,
{
    if i < 0 || i >= walls.len() {
        v
    } else {
        match collision_of(a, walls[i].rect) {
            Some(c) => match walls[i].collider {
                Collider::Solid => reflect(v, c),
            },
            None => respond_from(v, a, walls, i + 1),
        }
    }
}

/// Collision response keeps a velocity within the launch bounds.
pub proof fn lemma_respond_bounded(v: Vec2, a: Rect, walls: Seq<Wall>, i: int)
    requires
        v.bounded(),
    ensures
        respond_from(v, a, walls, i).bounded(),
    decreases walls.len() - i,
{
    if 0 <= i < walls.len() && collision_of(a, walls[i].rect) is None {
        lemma_respond_bounded(v, a, walls, i + 1);
    }
}

/// A box moving right that hits a wall's left face bounces back: its
/// horizontal velocity is negated and its vertical velocity kept.
pub proof fn lemma_left_hit_reflects(v: Vec2, a: Rect, wall: Wall)
    requires
        collision_of(a, wall.rect) == Some(Collision::Left),
        v.x > 0,
    ensures
        respond_from(v, a, seq![wall], 0) == (Vec2 { x: (-v.x) as i64, y: v.y }),
{
}

fn depth2_of(ca: i64, sa: i64, cb: i64, sb: i64) -> (r: i128)
    ensures
        r == depth2(ca as int, sa as int, cb as int, sb as int),
{
    let d: i128 = if ca < cb { cb as i128 - ca as i128 } else { ca as i128 - cb as i128 };
    sa as i128 + sb as i128 - 2 * d
}

/// The face of `b` that box `a` has hit, if the two overlap.
pub fn collide(a: Rect, b: Rect) -> (r: Option<Collision>)
    ensures
        r == collision_of(a, b),
{
    let dx = depth2_of(a.cx, a.width, b.cx, b.width);
    let dy = depth2_of(a.cy, a.height, b.cy, b.height);
    if dx <= 0 || dy <= 0 {
        None
    } else if dy < dx {
        if a.cy < b.cy { Some(Collision::Bottom) } else { Some(Collision::Top) }
    } else {
        if a.cx < b.cx { Some(Collision::Left) } else { Some(Collision::Right) }
    }
}

/// Reflects `ball`'s velocity off the first of `walls` that its box overlaps,
/// on the axis of the face hit and only if it moves into the wall there.
/// The box is centred on `position` and `size` wide and high.
pub fn ball_collision(ball: &mut Moving, position: Vec2, size: i64, walls: &Vec<Wall>)
    requires
        old(ball).wf(),
    ensures
        final(ball).velocity == respond_from(
            old(ball).velocity,
            Rect { cx: position.x, cy: position.y, width: size, height: size },
            walls@,
            0,
        ),
        final(ball).wf(),
{
    let a = Rect { cx: position.x, cy: position.y, width: size, height: size };
    let v0 = ball.velocity;
    let mut v = v0;
    let mut i: usize = 0;
    while i < walls.len()
        invariant_except_break
            v == v0,
            respond_from(v0, a, walls@, 0) == respond_from(v0, a, walls@, i as int),
        invariant
            0 <= i <= walls@.len(),
            v0.bounded(),
            v.bounded(),
        ensures
            v == respond_from(v0, a, walls@, 0),
        decreases walls@.len() - i,
    {
        let wall = walls[i];
        if let Some(c) = collide(a, wall.rect) {
            let reflect_x = match c {
                Collision::Left => v0.x > 0,
                Collision::Right => v0.x < 0,
                _ => false,
            };
            let reflect_y = match c {
                Collision::Top => v0.y < 0,
                Collision::Bottom => v0.y > 0,
                _ => false,
            };
            if reflect_x {
                v.x = -v0.x;
            }
            if reflect_y {
                v.y = -v0.y;
            }
            assert(wall == walls@[i as int]);
            assert(v == reflect(v0, c));
            match wall.collider {
                Collider::Solid => {
                    break;
                },
            }
        }
        i = i + 1;
    }
    ball.velocity = v;
}

/// A coordinate moved by `v`, held within the range of `i64`.
pub open spec fn moved(p: int, v: int) -> int {
    if p + v > i64::MAX { i64::MAX as int } else if p + v < i64::MIN { i64::MIN as int } else { p + v }
}

fn move_coordinate(p: i64, v: i64) -> (r: i64)
    requires
        bounded(v),
    ensures
        r == moved(p as int, v as int),
{
    if v > 0 && p > i64::MAX - v {
        i64::MAX
    } else if v < 0 && p < i64::MIN - v {
        i64::MIN
    } else {
        p + v
    }
}

/// One step of motion: the position moves by the velocity.
pub fn advance(position: Vec2, velocity: Vec2) -> (r: Vec2)
    requires
        velocity.bounded(),
    ensures
        r.x == moved(position.x as int, velocity.x as int),
        r.y == moved(position.y as int, velocity.y as int),
{
    Vec2 { x: move_coordinate(position.x, velocity.x), y: move_coordinate(position.y, velocity.y) }
}

} // verus!
