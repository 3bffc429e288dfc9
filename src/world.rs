//! The game world: the arena's walls and its balls, advanced one fixed
//! tick at a time.
use vstd::prelude::*;
use crate::ball::{
    Ball, BallState, DEFAULT_DEGREE, MIN_VELOCITY, Moving, NewBall, Vec2, charge_ball, is_ball_still_moving,
    launch, new_ball, next_degree, next_power, settle,
};
use crate::collider::{advance, ball_collision, lemma_respond_bounded, moved, respond_from};
use crate::wall::{
    ARENA_HEIGHT, ARENA_WIDTH, Collider, Rect, Side, Wall, arena_walls, wall_center, wall_size,
};

verus! {

/// Width and height of a ball.
pub const BALL_SIZE: i64 = 100;

/// Thickness of the arena's walls.
pub const WALL_THICKNESS: u32 = 300;

/// Horizontal coordinate where a fresh ball waits: the centre.
pub const LAUNCH_X: i64 = 0;

/// Vertical coordinate where a fresh ball waits: near the bottom.
pub const LAUNCH_Y: i64 = -3000;

/// What the player did during one tick. `launch_velocity` is the velocity
/// that the charging ball's angle and power give, used when the charge
/// input is released.
#[derive(Debug, Clone, Copy, PartialEq, Eq, Structural)]
pub struct Input {
    pub held: bool,
    pub released: bool,
    pub launch_velocity: Vec2,
}

/// The arena's walls and every ball, in the order they were made.
pub struct World {
    pub balls: Vec<Ball>,
    pub walls: Vec<Wall>,
}

/// No two balls of `s` are in play.
pub open spec fn at_most_one_active(s: Seq<Ball>) -> bool {
    forall|i: int, j: int|
        0 <= i < s.len() && 0 <= j < s.len() && #[trigger] s[i].is_active() && #[trigger] s[j].is_active() ==> i == j
}

/// Some ball of `s` is in play.
pub open spec fn has_active(s: Seq<Ball>) -> bool {
    exists|i: int| 0 <= i < s.len() && #[trigger] s[i].is_active()
}

/// Some ball of `s` is charging.
pub open spec fn has_charging(s: Seq<Ball>) -> bool {
    exists|i: int| 0 <= i < s.len() && #[trigger] s[i].state is Charging
}

/// Every ball of `s` is well formed.
pub open spec fn all_wf(s: Seq<Ball>) -> bool {
    forall|i: int| 0 <= i < s.len() ==> #[trigger] s[i].wf()
}

/// The box a ball occupies.
pub open spec fn ball_box(p: Vec2) -> Rect {
    Rect { cx: p.x, cy: p.y, width: BALL_SIZE, height: BALL_SIZE }
}

/// A ball after the motion of one tick: a moving ball bounces off the walls
/// and then moves by its new velocity; other balls stay as they are.
pub open spec fn moved_ball(b: Ball, walls: Seq<Wall>) -> Ball {
    match b.state {
        BallState::Moving(m) => {
            let v = respond_from(m.velocity, ball_box(b.position), walls, 0);
            Ball {
                position: Vec2 { x: moved(b.position.x as int, v.x as int) as i64, y: moved(b.position.y as int, v.y as int) as i64 },
                state: BallState::Moving(Moving { velocity: v }),
            }
        },
        _ => b,
    }
}

/// A ball after the rest check of one tick.
pub open spec fn settled_ball(b: Ball) -> Ball {
    Ball { position: b.position, state: settle(b.state) }
}

/// A charging ball after one charge tick; other balls stay as they are.
pub open spec fn charged_ball(b: Ball) -> Ball {
    match b.state {
        BallState::Charging(n) => Ball {
            position: b.position,
            state: BallState::Charging(NewBall {
                degree: next_degree(n.degree as int) as u32,
                velocity: next_power(n.velocity as int) as u32,
            }),
        },
        _ => b,
    }
}

/// The ball the spawner makes.
pub open spec fn fresh_ball() -> Ball {
    Ball {
        position: Vec2 { x: LAUNCH_X, y: LAUNCH_Y },
        state: BallState::Charging(NewBall { degree: DEFAULT_DEGREE, velocity: MIN_VELOCITY }),
    }
}

/// A charging ball after a launch with velocity `v`; other balls stay as
/// they are.
pub open spec fn launched_ball(b: Ball, v: Vec2) -> Ball {
    match b.state {
        BallState::Charging(_) => Ball { position: b.position, state: BallState::Moving(Moving { velocity: v }) },
        _ => b,
    }
}

/// The balls after the spawner: a fresh ball is added when none is in play.
pub open spec fn spawned(s: Seq<Ball>) -> Seq<Ball> {
    if has_active(s) { s } else { s.push(fresh_ball()) }
}

/// The balls after one tick with `input`, among `walls`: motion with
/// collision response, the rest check, launch on release, charge while
/// held, and the spawner, in that order.
pub open spec fn tick_balls(s: Seq<Ball>, walls: Seq<Wall>, input: Input) -> Seq<Ball> {
    let s1 = s.map_values(|b: Ball| moved_ball(b, walls));
    let s2 = s1.map_values(|b: Ball| settled_ball(b));
    let s3 = if input.released { s2.map_values(|b: Ball| launched_ball(b, input.launch_velocity)) } else { s2 };
    let s4 = if input.held { s3.map_values(|b: Ball| charged_ball(b)) } else { s3 };
    spawned(s4)
}

/// The balls after one tick for each of `inputs`, in order.
pub open spec fn run(s: Seq<Ball>, walls: Seq<Wall>, inputs: Seq<Input>) -> Seq<Ball>
    decreases inputs.len(),
{
    if inputs.len() == 0 {
        s
    } else {
        tick_balls(run(s, walls, inputs.drop_last()), walls, inputs.last())
    }
}

/// A step on each ball that never puts a ball into play keeps at most one
/// ball in play.
proof fn lemma_map_keeps_single(s: Seq<Ball>, f: spec_fn(Ball) -> Ball)
    requires
        at_most_one_active(s),
        forall|b: Ball| #[trigger] f(b).is_active() ==> b.is_active(),
    ensures
        at_most_one_active(s.map_values(f)),
{
    let t = s.map_values(f);
    assert forall|j: int, k: int|
        0 <= j < t.len() && 0 <= k < t.len() && #[trigger] t[j].is_active() && #[trigger] t[k].is_active() implies j == k by {
        assert(f(s[j]).is_active() && f(s[k]).is_active());
        assert(s[j].is_active() && s[k].is_active());
    }
}

/// The spawner keeps at most one ball in play and leaves one in play.
proof fn lemma_spawned_single(s: Seq<Ball>)
    requires
        at_most_one_active(s),
    ensures
        at_most_one_active(spawned(s)),
        has_active(spawned(s)),
{
    let t = spawned(s);
    if !has_active(s) {
        let n = s.len() as int;
        assert(t[n].is_active());
        assert forall|j: int, k: int|
            0 <= j < t.len() && 0 <= k < t.len() && #[trigger] t[j].is_active() && #[trigger] t[k].is_active() implies j == k by {
            if j < n {
                assert(s[j].is_active());
            }
            if k < n {
                assert(s[k].is_active());
            }
        }
    }
}

/// One tick keeps at most one ball in play and leaves exactly one in play.
pub proof fn lemma_tick_single(s: Seq<Ball>, walls: Seq<Wall>, input: Input)
    requires
        at_most_one_active(s),
    ensures
        at_most_one_active(tick_balls(s, walls, input)),
        has_active(tick_balls(s, walls, input)),
{
    let s1 = s.map_values(|b: Ball| moved_ball(b, walls));
    lemma_map_keeps_single(s, |b: Ball| moved_ball(b, walls));
    let s2 = s1.map_values(|b: Ball| settled_ball(b));
    lemma_map_keeps_single(s1, |b: Ball| settled_ball(b));
    let s3 = if input.released { s2.map_values(|b: Ball| launched_ball(b, input.launch_velocity)) } else { s2 };
    lemma_map_keeps_single(s2, |b: Ball| launched_ball(b, input.launch_velocity));
    let s4 = if input.held { s3.map_values(|b: Ball| charged_ball(b)) } else { s3 };
    lemma_map_keeps_single(s3, |b: Ball| charged_ball(b));
    lemma_spawned_single(s4);
}

/// For any sequence of inputs, at most one ball is ever in play, and after
/// one tick or more exactly one is: the spawner never adds a second ball.
pub proof fn lemma_single_active_ball(s: Seq<Ball>, walls: Seq<Wall>, inputs: Seq<Input>)
    requires
        at_most_one_active(s),
    ensures
        at_most_one_active(run(s, walls, inputs)),
        inputs.len() > 0 ==> has_active(run(s, walls, inputs)),
    decreases inputs.len(),
{
    if inputs.len() > 0 {
        lemma_single_active_ball(s, walls, inputs.drop_last());
        lemma_tick_single(run(s, walls, inputs.drop_last()), walls, inputs.last());
    }
}

impl World {
    /// At most one ball is in play, and every ball is well formed.
    pub open spec fn wf(self) -> bool {
        at_most_one_active(self.balls@) && all_wf(self.balls@)
    }

    /// An arena with its four solid walls, `WALL_THICKNESS` thick, in the
    /// order top, bottom, left, right, and no ball yet.
    pub fn new() -> (w: World)
        ensures
            w.wf(),
            w.balls@.len() == 0,
            w.walls@.len() == 4,
            w.walls@[0].side == Side::Top,
            w.walls@[1].side == Side::Bottom,
            w.walls@[2].side == Side::Left,
            w.walls@[3].side == Side::Right,
            forall|i: int| 0 <= i < 4 ==> {
                let x = #[trigger] w.walls@[i];
                &&& x.collider == Collider::Solid
                &&& (x.rect.cx as int, x.rect.cy as int) == wall_center(ARENA_WIDTH as int, ARENA_HEIGHT as int, WALL_THICKNESS as int, x.side)
                &&& (x.rect.width as int, x.rect.height as int) == wall_size(ARENA_WIDTH as int, ARENA_HEIGHT as int, WALL_THICKNESS as int, x.side)
            },
    {
        World { balls: Vec::new(), walls: arena_walls(WALL_THICKNESS) }
    }

    /// The index of the charging ball, if there is one.
    pub fn find_charging(&self) -> (r: Option<usize>)
        ensures
            r matches Some(i) ==> i < self.balls@.len() && self.balls@[i as int].state is Charging,
            r is None <==> !has_charging(self.balls@),
    {
        let mut i: usize = 0;
        while i < self.balls.len()
            invariant
                i <= self.balls@.len(),
                forall|j: int| 0 <= j < i ==> !(#[trigger] self.balls@[j].state is Charging),
            decreases self.balls@.len() - i,
        {
            if let BallState::Charging(_) = self.balls[i].state {
                return Some(i);
            }
            i = i + 1;
        }
        None
    }

    /// The aim of the charging ball, if there is one: what the charge
    /// indicator shows.
    pub fn charging_ball(&self) -> (r: Option<NewBall>)
        ensures
            r is None <==> !has_charging(self.balls@),
            r matches Some(n) ==> exists|i: int|
                0 <= i < self.balls@.len() && #[trigger] self.balls@[i].state == BallState::Charging(n),
    {
        match self.find_charging() {
            Some(i) => match self.balls[i].state {
                BallState::Charging(n) => Some(n),
                _ => None,
            },
            None => None,
        }
    }

    /// Motion of one tick: each moving ball bounces off the first wall it
    /// overlaps and then moves by its velocity.
    pub fn move_balls(&mut self)
        requires
            old(self).wf(),
        ensures
            final(self).wf(),
            final(self).walls@ == old(self).walls@,
            final(self).balls@.len() == old(self).balls@.len(),
            final(self).balls@ == old(self).balls@.map_values(|b: Ball| moved_ball(b, old(self).walls@)),
    {
        let ghost before = self.balls@;
        let mut i: usize = 0;
        while i < self.balls.len()
            invariant
                i <= self.balls@.len() == before.len(),
                self.walls@ == old(self).walls@,
                at_most_one_active(before),
                all_wf(before),
                forall|j: int| 0 <= j < i ==> #[trigger] self.balls@[j] == moved_ball(before[j], self.walls@),
                forall|j: int| i <= j < before.len() ==> #[trigger] self.balls@[j] == before[j],
            decreases self.balls@.len() - i,
        {
            let b = self.balls[i];
            if let BallState::Moving(m) = b.state {
                let mut m = m;
                assert(before[i as int].wf());
                ball_collision(&mut m, b.position, BALL_SIZE, &self.walls);
                let p = advance(b.position, m.velocity);
                self.balls.set(i, Ball { position: p, state: BallState::Moving(m) });
            }
            i = i + 1;
        }
        assert forall|j: int| 0 <= j < self.balls@.len() implies #[trigger] self.balls@[j].wf() by {
            assert(before[j].wf());
            if let BallState::Moving(m) = before[j].state {
                lemma_respond_bounded(m.velocity, ball_box(before[j].position), self.walls@, 0);
            }
        }
        assert(self.balls@ =~= before.map_values(|b: Ball| moved_ball(b, self.walls@)));
        proof {
            lemma_map_keeps_single(before, |b: Ball| moved_ball(b, self.walls@));
        }
    }

    /// The rest check of one tick on every ball.
    pub fn settle_balls(&mut self)
        requires
            old(self).wf(),
        ensures
            final(self).wf(),
            final(self).walls@ == old(self).walls@,
            final(self).balls@.len() == old(self).balls@.len(),
            final(self).balls@ == old(self).balls@.map_values(|b: Ball| settled_ball(b)),
    {
        let ghost before = self.balls@;
        let mut i: usize = 0;
        while i < self.balls.len()
            invariant
                i <= self.balls@.len() == before.len(),
                self.walls@ == old(self).walls@,
                at_most_one_active(before),
                all_wf(before),
                forall|j: int| 0 <= j < i ==> #[trigger] self.balls@[j] == settled_ball(before[j]),
                forall|j: int| i <= j < before.len() ==> #[trigger] self.balls@[j] == before[j],
            decreases self.balls@.len() - i,
        {
            let mut b = self.balls[i];
            assert(before[i as int].wf());
            is_ball_still_moving(&mut b);
            self.balls.set(i, b);
            i = i + 1;
        }
        assert forall|j: int| 0 <= j < self.balls@.len() implies #[trigger] self.balls@[j].wf() by {
            assert(before[j].wf());
        }
        assert(self.balls@ =~= before.map_values(|b: Ball| settled_ball(b)));
        proof {
            lemma_map_keeps_single(before, |b: Ball| settled_ball(b));
        }
    }

    /// Launches the charging ball with `velocity`. Returns whether there was
    /// one; with none, nothing changes.
    pub fn launch_ball(&mut self, velocity: Vec2) -> (launched: bool)
        requires
            old(self).wf(),
            velocity.bounded(),
        ensures
            final(self).wf(),
            final(self).walls@ == old(self).walls@,
            launched == has_charging(old(self).balls@),
            !launched ==> final(self).balls@ == old(self).balls@,
            final(self).balls@ == old(self).balls@.map_values(|b: Ball| launched_ball(b, velocity)),
    {
        match self.find_charging() {
            Some(i) => {
                let ghost before = self.balls@;
                let mut b = self.balls[i];
                launch(&mut b, velocity);
                self.balls.set(i, b);
                assert(before[i as int].state is Charging);
                assert forall|j: int| 0 <= j < self.balls@.len() implies #[trigger] self.balls@[j].wf() by {
                    assert(before[j].wf());
                }
                assert forall|j: int| 0 <= j < before.len() implies #[trigger] self.balls@[j] == launched_ball(before[j], velocity) by {
                    if j != i && before[j].state is Charging {
                        assert(before[j].is_active() && before[i as int].is_active());
                    }
                }
                assert(self.balls@ =~= before.map_values(|b: Ball| launched_ball(b, velocity)));
                proof {
                    lemma_map_keeps_single(before, |b: Ball| launched_ball(b, velocity));
                }
                true
            },
            None => {
                assert(self.balls@ =~= self.balls@.map_values(|b: Ball| launched_ball(b, velocity)));
                false
            },
        }
    }

    /// One charge tick on the charging ball. Returns whether there was one;
    /// with none, nothing changes.
    pub fn charge_ball(&mut self) -> (charged: bool)
        requires
            old(self).wf(),
        ensures
            final(self).wf(),
            final(self).walls@ == old(self).walls@,
            charged == has_charging(old(self).balls@),
            !charged ==> final(self).balls@ == old(self).balls@,
            final(self).balls@ == old(self).balls@.map_values(|b: Ball| charged_ball(b)),
    {
        match self.find_charging() {
            Some(i) => {
                let ghost before = self.balls@;
                let b = self.balls[i];
                if let BallState::Charging(n) = b.state {
                    let mut n = n;
                    assert(before[i as int].wf());
                    charge_ball(&mut n);
                    self.balls.set(i, Ball { position: b.position, state: BallState::Charging(n) });
                    assert forall|j: int| 0 <= j < self.balls@.len() implies #[trigger] self.balls@[j].wf() by {
                        assert(before[j].wf());
                    }
                    assert forall|j: int| 0 <= j < before.len() implies #[trigger] self.balls@[j] == charged_ball(before[j]) by {
                        if j != i && before[j].state is Charging {
                            assert(before[j].is_active() && before[i as int].is_active());
                        }
                    }
                    assert(self.balls@ =~= before.map_values(|b: Ball| charged_ball(b)));
                    proof {
                        lemma_map_keeps_single(before, |b: Ball| charged_ball(b));
                    }
                }
                true
            },
            None => {
                assert(self.balls@ =~= self.balls@.map_values(|b: Ball| charged_ball(b)));
                false
            },
        }
    }

    /// Whether some ball is in play.
    pub fn has_active_ball(&self) -> (r: bool)
        ensures
            r == has_active(self.balls@),
    {
        let mut i: usize = 0;
        while i < self.balls.len()
            invariant
                i <= self.balls@.len(),
                forall|j: int| 0 <= j < i ==> !(#[trigger] self.balls@[j].is_active()),
            decreases self.balls@.len() - i,
        {
            match self.balls[i].state {
                BallState::AtRest => {},
                _ => {
                    assert(self.balls@[i as int].is_active());
                    return true;
                },
            }
            i = i + 1;
        }
        false
    }

    /// The spawner: when no ball is in play, a fresh charging ball is added
    /// at the launch position; otherwise nothing changes.
    pub fn spawn_new_ball(&mut self)
        requires
            old(self).wf(),
        ensures
            final(self).wf(),
            final(self).walls@ == old(self).walls@,
            has_active(final(self).balls@),
            final(self).balls@ == spawned(old(self).balls@),
    {
        if !self.has_active_ball() {
            let ghost before = self.balls@;
            self.balls.push(new_ball(Vec2 { x: LAUNCH_X, y: LAUNCH_Y }));
            let ghost n = before.len() as int;
            proof {
                lemma_spawned_single(before);
            }
            assert forall|j: int| 0 <= j < self.balls@.len() implies #[trigger] self.balls@[j].wf() by {
                if j < n {
                    assert(before[j].wf());
                }
            }
        }
    }

    /// One fixed tick, its systems in order: motion with collision
    /// response, the rest check, launch on release, charge while held, and
    /// the spawner. Afterwards exactly one ball is in play.
    pub fn tick(&mut self, input: Input)
        requires
            old(self).wf(),
            input.launch_velocity.bounded(),
        ensures
            final(self).wf(),
            has_active(final(self).balls@),
            final(self).walls@ == old(self).walls@,
            final(self).balls@ == tick_balls(old(self).balls@, old(self).walls@, input),
    {
        self.move_balls();
        self.settle_balls();
        if input.released {
            self.launch_ball(input.launch_velocity);
        }
        if input.held {
            self.charge_ball();
        }
        self.spawn_new_ball();
    }
}

} // verus!
