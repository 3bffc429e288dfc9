//! A single ball: its charge, its flight and its rest.
use vstd::prelude::*;
use vstd::arithmetic::div_mod::lemma_add_mod_noop;

verus! {

/// Largest launch power; power wraps round below it while charging.
pub const MAX_VELOCITY: u32 = 250;

/// Smallest launch power; a fresh ball starts with it.
pub const MIN_VELOCITY: u32 = 100;

/// Power gained by one charge tick.
pub const POWER_STEP: u32 = 1;

/// Degrees gained by one charge tick.
pub const ANGLE_STEP: u32 = 1;

/// The aim angle wraps round at this many degrees.
pub const ANGLE_MODULUS: u32 = 180;

/// Aim angle of a fresh ball: straight up.
pub const DEFAULT_DEGREE: u32 = 90;

/// Speed taken off each velocity component by one tick of friction.
pub const FRICTION: i64 = 1;

/// A moving ball whose speed is at most this is at rest.
pub const STILL_SPEED: i64 = 1;

/// A pair of coordinates, used for positions and velocities.
#[derive(Debug, Clone, Copy, PartialEq, Eq, Structural)]
pub struct Vec2 {
    pub x: i64,
    pub y: i64,
}

/// A ball that is being aimed and charged: `degree` is the aim angle
/// (0 points left, 90 straight up) and `velocity` the launch power.
#[derive(Debug, Clone, Copy, PartialEq, Eq, Structural)]
pub struct NewBall {
    pub degree: u32,
    pub velocity: u32,
}

/// A ball in flight.
#[derive(Debug, Clone, Copy, PartialEq, Eq, Structural)]
pub struct Moving {
    pub velocity: Vec2,
}

/// Where a ball is in its life.
#[derive(Debug, Clone, Copy, PartialEq, Eq, Structural)]
pub enum BallState {
    Charging(NewBall),
    Moving(Moving),
    AtRest,
}

/// A ball of the game.
#[derive(Debug, Clone, Copy, PartialEq, Eq, Structural)]
pub struct Ball {
    pub position: Vec2,
    pub state: BallState,
}

impl NewBall {
    /// The aim angle is below the modulus and the power within its bounds.
    pub open spec fn wf(self) -> bool {
        &&& self.degree < ANGLE_MODULUS
        &&& MIN_VELOCITY <= self.velocity <= MAX_VELOCITY
    }
}

/// A velocity component a launch can give: no faster than the largest power.
pub open spec fn bounded(v: i64) -> bool {
    -(MAX_VELOCITY as int) <= v <= MAX_VELOCITY as int
}

impl Vec2 {
    /// Both components are within the launch bounds.
    pub open spec fn bounded(self) -> bool {
        bounded(self.x) && bounded(self.y)
    }
}

impl Moving {
    pub open spec fn wf(self) -> bool {
        self.velocity.bounded()
    }
}

impl Ball {
    pub open spec fn wf(self) -> bool {
        match self.state {
            BallState::Charging(n) => n.wf(),
            BallState::Moving(m) => m.wf(),
            BallState::AtRest => true,
        }
    }

    /// Charging or moving: the ball is in play.
    pub open spec fn is_active(self) -> bool {
        !(self.state is AtRest)
    }
}

/// The aim angle after one charge tick.
pub open spec fn next_degree(d: int) -> int {
    (d + ANGLE_STEP) % (ANGLE_MODULUS as int)
}

/// The power after one charge tick: it wraps round below the largest power
/// and is then raised to at least the smallest.
pub open spec fn next_power(p: int) -> int {
    let q = (p + POWER_STEP) % (MAX_VELOCITY as int);
    if q < MIN_VELOCITY { MIN_VELOCITY as int } else { q }
}

/// The aim angle after `n` charge ticks from `d`.
pub open spec fn degree_after(d: int, n: nat) -> int
    decreases n,
{
    if n == 0 { d } else { next_degree(degree_after(d, (n - 1) as nat)) }
}

/// The power after `n` charge ticks from `p`.
pub open spec fn power_after(p: int, n: nat) -> int
    decreases n,
{
    if n == 0 { p } else { next_power(power_after(p, (n - 1) as nat)) }
}

/// One tick of friction on a velocity component: it loses `FRICTION` and
/// never drops below zero.
pub open spec fn friction(v: int) -> int {
    if v - FRICTION > 0 { v - FRICTION } else { 0 }
}

/// The square of a velocity's length.
pub open spec fn speed_squared(v: Vec2) -> int {
    v.x * v.x + v.y * v.y
}

/// Whether a velocity counts as standing still.
pub open spec fn is_still(v: Vec2) -> bool {
    speed_squared(v) <= STILL_SPEED * STILL_SPEED
}

/// A moving ball's state after one rest check: at rest once it is still,
/// else slowed by friction on both axes. Other states are left as they are.
pub open spec fn settle(s: BallState) -> BallState {
    match s {
        BallState::Moving(m) => if is_still(m.velocity) {
            BallState::AtRest
        } else {
            BallState::Moving(Moving {
                velocity: Vec2 { x: friction(m.velocity.x as int) as i64, y: friction(m.velocity.y as int) as i64 },
            })
        },
        _ => s,
    }
}

/// The velocity of a moving ball after `n` ticks of friction.
pub open spec fn slowed(v: Vec2, n: nat) -> Vec2
    decreases n,
{
    if n == 0 {
        v
    } else {
        let w = slowed(v, (n - 1) as nat);
        Vec2 { x: friction(w.x as int) as i64, y: friction(w.y as int) as i64 }
    }
}

/// One charge tick: the aim angle moves on by one step, modulo its range,
/// and the power by one step, wrapping round below the largest power and
/// never below the smallest.
pub fn charge_ball(ball: &mut NewBall)
    requires
        old(ball).wf(),
    ensures
        final(ball).degree == next_degree(old(ball).degree as int),
        final(ball).velocity == next_power(old(ball).velocity as int),
        final(ball).wf(),
{
    ball.degree = (ball.degree + ANGLE_STEP) % ANGLE_MODULUS;
    let q = (ball.velocity + POWER_STEP) % MAX_VELOCITY;
    ball.velocity = if q < MIN_VELOCITY { MIN_VELOCITY } else { q };
}

/// One friction step on a velocity component.
fn apply_friction(v: i64) -> (r: i64)
    ensures
        r == friction(v as int),
{
    if v > FRICTION { v - FRICTION } else { 0 }
}

/// Whether a velocity counts as standing still.
pub fn velocity_is_still(v: Vec2) -> (r: bool)
    requires
        v.bounded(),
    ensures
        r == is_still(v),
{
    let (x, y) = (v.x, v.y);
    assert(0 <= x * x <= 62500 && 0 <= y * y <= 62500) by (nonlinear_arith)
        requires
            -250 <= x <= 250,
            -250 <= y <= 250,
    ;
    let sq: i64 = x * x + y * y;
    sq <= STILL_SPEED * STILL_SPEED
}

/// The rest check of one tick: a moving ball whose speed is at most
/// `STILL_SPEED` comes to rest with no velocity left; a faster one loses
/// `FRICTION` on each velocity component, which never drops below zero.
/// A ball that is charging or at rest is left as it is.
pub fn is_ball_still_moving(ball: &mut Ball)
    requires
        old(ball).wf(),
    ensures
        final(ball).position == old(ball).position,
        final(ball).state == settle(old(ball).state),
        final(ball).wf(),
        final(ball).state matches BallState::Moving(m) ==> m.velocity.x >= 0 && m.velocity.y >= 0,
{
    if let BallState::Moving(m) = ball.state {
        if velocity_is_still(m.velocity) {
            ball.state = BallState::AtRest;
        } else {
            let v = Vec2 { x: apply_friction(m.velocity.x), y: apply_friction(m.velocity.y) };
            ball.state = BallState::Moving(Moving { velocity: v });
        }
    }
}

/// Launches a charging ball with the given velocity, which is what the aim
/// angle and the power give: `(-cos(degree) * power, sin(degree) * power)`.
/// Returns whether there was a charging ball to launch; a ball in any other
/// state is left as it is.
pub fn launch(ball: &mut Ball, velocity: Vec2) -> (launched: bool)
    requires
        velocity.bounded(),
    ensures
        launched == (old(ball).state is Charging),
        final(ball).position == old(ball).position,
        launched ==> final(ball).state == BallState::Moving(Moving { velocity }),
        !launched ==> *final(ball) == *old(ball),
        old(ball).wf() ==> final(ball).wf(),
{
    if let BallState::Charging(_) = ball.state {
        ball.state = BallState::Moving(Moving { velocity });
        true
    } else {
        false
    }
}

/// A fresh ball: charging at `position`, aimed straight up, with the
/// smallest power.
pub fn new_ball(position: Vec2) -> (b: Ball)
    ensures
        b.position == position,
        b.state == BallState::Charging(NewBall { degree: DEFAULT_DEGREE, velocity: MIN_VELOCITY }),
        b.wf(),
        b.is_active(),
{
    Ball { position, state: BallState::Charging(NewBall { degree: DEFAULT_DEGREE, velocity: MIN_VELOCITY }) }
}

/// Charging from an angle of zero, `n` ticks leave the angle at `n` modulo
/// the angle range.
pub proof fn lemma_charge_wrap(n: nat)
    ensures
        degree_after(0, n) == (n as int) % (ANGLE_MODULUS as int),
    decreases n,
{
    if n > 0 {
        lemma_charge_wrap((n - 1) as nat);
        lemma_add_mod_noop(n - 1, 1, ANGLE_MODULUS as int);
    }
}

/// However many charge ticks run, the power stays between the smallest and
/// the largest power; after one tick or more that holds from any start.
pub proof fn lemma_power_bounds(p: int, n: nat)
    requires
        p >= 0,
        n > 0 || MIN_VELOCITY <= p <= MAX_VELOCITY,
    ensures
        MIN_VELOCITY <= power_after(p, n) <= MAX_VELOCITY,
    decreases n,
{
    if n > 0 {
        if n > 1 {
            lemma_power_bounds(p, (n - 1) as nat);
        }
    }
}

/// After any number of friction ticks, one or more, no velocity component
/// is negative.
pub proof fn lemma_friction_floor(v: Vec2, n: nat)
    requires
        n > 0,
    ensures
        slowed(v, n).x >= 0,
        slowed(v, n).y >= 0,
{
}

/// A ball comes to rest at most once: a state at rest is left at rest by
/// every later rest check, and a moving ball that is still goes to rest.
pub proof fn lemma_rest_is_final(s: BallState)
    ensures
        s is AtRest ==> settle(s) == s,
        s matches BallState::Moving(m) && is_still(m.velocity) ==> settle(s) is AtRest,
        settle(s) is AtRest ==> settle(settle(s)) == settle(s),
{
}

} // verus!
