//! The four walls that bound the arena.
use vstd::prelude::*;

verus! {

/// Width of the arena.
pub const ARENA_WIDTH: i64 = 6000;

/// Height of the arena.
pub const ARENA_HEIGHT: i64 = 8000;

/// Which border of the arena a wall stands on.
#[derive(Debug, Clone, Copy, PartialEq, Eq, Structural)]
pub enum Side {
    Top,
    Bottom,
    Left,
    Right,
}

/// An axis-aligned rectangle given by its centre and its full extent.
#[derive(Debug, Clone, Copy, PartialEq, Eq, Structural)]
pub struct Rect {
    pub cx: i64,
    pub cy: i64,
    pub width: i64,
    pub height: i64,
}

/// Centre of the wall on `side`, for an arena of `w` by `h` with walls `t` thick.
pub open spec fn wall_center(w: int, h: int, t: int, side: Side) -> (int, int) {
    match side {
        Side::Top => (0, h / 2 - t),
        Side::Bottom => (0, -(h / 2 - t)),
        Side::Left => (-(w / 2 - t), 0),
        Side::Right => (w / 2 - t, 0),
    }
}

/// Extent of the wall on `side`, for an arena of `w` by `h` with walls `t` thick.
pub open spec fn wall_size(w: int, h: int, t: int, side: Side) -> (int, int) {
    match side {
        Side::Top | Side::Bottom => (w - t, t),
        Side::Left | Side::Right => (t, h - t),
    }
}

/// The rectangle of the wall on `side`, for an arena of `w` by `h` whose walls
/// are `t` thick. The arena is centred on the origin; its dimensions are even
/// so that every centre lies on the grid.
pub fn wall_layout(w: u32, h: u32, t: u32, side: Side) -> (r: Rect)
    requires
        w % 2 == 0,
        h % 2 == 0,
    ensures
        (r.cx as int, r.cy as int) == wall_center(w as int, h as int, t as int, side),
        (r.width as int, r.height as int) == wall_size(w as int, h as int, t as int, side),
{
    let hw: i64 = (w / 2) as i64;
    let hh: i64 = (h / 2) as i64;
    let t: i64 = t as i64;
    let w: i64 = w as i64;
    let h: i64 = h as i64;
    match side {
        Side::Top => Rect { cx: 0, cy: hh - t, width: w - t, height: t },
        Side::Bottom => Rect { cx: 0, cy: -(hh - t), width: w - t, height: t },
        Side::Left => Rect { cx: -(hw - t), cy: 0, width: t, height: h - t },
        Side::Right => Rect { cx: hw - t, cy: 0, width: t, height: h - t },
    }
}

/// How a wall treats a ball that touches it.
#[derive(Debug, Clone, Copy, PartialEq, Eq, Structural)]
pub enum Collider {
    /// The ball bounces off, and no wall behind this one is looked at.
    Solid,
}

/// A wall of the arena.
#[derive(Debug, Clone, Copy, PartialEq, Eq, Structural)]
pub struct Wall {
    pub side: Side,
    pub rect: Rect,
    pub collider: Collider,
}

/// The solid wall on `side` of the arena, `thickness` thick.
pub fn spawn(thickness: u32, side: Side) -> (wall: Wall)
    ensures
        wall.side == side,
        wall.collider == Collider::Solid,
        (wall.rect.cx as int, wall.rect.cy as int) == wall_center(ARENA_WIDTH as int, ARENA_HEIGHT as int, thickness as int, side),
        (wall.rect.width as int, wall.rect.height as int) == wall_size(ARENA_WIDTH as int, ARENA_HEIGHT as int, thickness as int, side),
{
    Wall { side, rect: wall_layout(ARENA_WIDTH as u32, ARENA_HEIGHT as u32, thickness, side), collider: Collider::Solid }
}

/// The four walls of the arena, `thickness` thick: top, bottom, left, right.
pub fn arena_walls(thickness: u32) -> (walls: Vec<Wall>)
    ensures
        walls@.len() == 4,
        walls@[0].side == Side::Top,
        walls@[1].side == Side::Bottom,
        walls@[2].side == Side::Left,
        walls@[3].side == Side::Right,
        forall|i: int| 0 <= i < 4 ==> {
            let w = #[trigger] walls@[i];
            &&& w.collider == Collider::Solid
            &&& (w.rect.cx as int, w.rect.cy as int) == wall_center(ARENA_WIDTH as int, ARENA_HEIGHT as int, thickness as int, w.side)
            &&& (w.rect.width as int, w.rect.height as int) == wall_size(ARENA_WIDTH as int, ARENA_HEIGHT as int, thickness as int, w.side)
        },
{
    let mut walls: Vec<Wall> = Vec::new();
    walls.push(spawn(thickness, Side::Top));
    walls.push(spawn(thickness, Side::Bottom));
    walls.push(spawn(thickness, Side::Left));
    walls.push(spawn(thickness, Side::Right));
    walls
}

} // verus!
