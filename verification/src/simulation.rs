//! The simulated player: its state and the deterministic rules that move it.

use vstd::prelude::*;

verus! {

/// Speed, in velocity units, that one held direction gives along its axis.
pub const MOVEMENT_SPEED: i32 = 200;

/// Thousandths of a position unit travelled per tick and velocity unit.
pub const PHYSICS_FACTOR: i32 = 15;

/// Thousandths in one position unit.
pub const POSITION_SCALE: i32 = 1000;

/// Where the player stands, in whole position units.
#[derive(Clone, Copy, Debug, PartialEq, Eq, Structural)]
pub struct Position {
    pub x: i32,
    pub y: i32,
}

/// How fast the player moves, in velocity units per axis.
#[derive(Clone, Copy, Debug, PartialEq, Eq, Structural)]
pub struct Velocity {
    pub x: i32,
    pub y: i32,
}

/// The direction flags that account for the velocity of the current tick.
#[derive(Clone, Copy, Debug, PartialEq, Eq, Structural)]
pub struct LastInputState {
    pub left: bool,
    pub right: bool,
    pub up: bool,
    pub down: bool,
}

impl Position {
    /// The point at which the player starts and to which a reset returns it.
    pub open spec fn origin_spec() -> Position {
        Position { x: 0, y: 0 }
    }

    #[verifier::when_used_as_spec(origin_spec)]
    pub fn origin() -> (p: Position)
        ensures
            p == Position::origin_spec(),
    {
        Position { x: 0, y: 0 }
    }
}

impl Velocity {
    /// Standing still.
    pub open spec fn zero_spec() -> Velocity {
        Velocity { x: 0, y: 0 }
    }

    #[verifier::when_used_as_spec(zero_spec)]
    pub fn zero() -> (v: Velocity)
        ensures
            v == Velocity::zero_spec(),
    {
        Velocity { x: 0, y: 0 }
    }
}

impl Default for LastInputState {
    fn default() -> (s: Self)
        ensures
            s == (LastInputState { left: false, right: false, up: false, down: false }),
    {
        LastInputState { left: false, right: false, up: false, down: false }
    }
}

/// The velocity that the held keys ask for: right wins over left, down over up.
pub open spec fn velocity_for_keys_spec(left: bool, right: bool, up: bool, down: bool) -> Velocity {
    Velocity {
        x: if right {
            MOVEMENT_SPEED
        } else if left {
            (-MOVEMENT_SPEED) as i32
        } else {
            0
        },
        y: if down {
            (-MOVEMENT_SPEED) as i32
        } else if up {
            MOVEMENT_SPEED
        } else {
            0
        },
    }
}

/// Velocity for the keys held this tick.
pub fn velocity_for_keys(left: bool, right: bool, up: bool, down: bool) -> (v: Velocity)
    ensures
        v == velocity_for_keys_spec(left, right, up, down),
{
    let mut v = Velocity { x: 0, y: 0 };
    if left {
        v.x = -MOVEMENT_SPEED;
    }
    if right {
        v.x = MOVEMENT_SPEED;
    }
    if up {
        v.y = MOVEMENT_SPEED;
    }
    if down {
        v.y = -MOVEMENT_SPEED;
    }
    v
}

/// The flags that took effect: on each axis at most one direction is set.
pub open spec fn effective_inputs_spec(left: bool, right: bool, up: bool, down: bool) -> LastInputState {
    LastInputState { left: left && !right, right, up: up && !down, down }
}

/// Direction flags that account for the velocity which the same keys give.
pub fn effective_inputs(left: bool, right: bool, up: bool, down: bool) -> (s: LastInputState)
    ensures
        s == effective_inputs_spec(left, right, up, down),
{
    let mut s = LastInputState { left: false, right: false, up: false, down: false };
    if left {
        s.left = true;
    }
    if right {
        s.right = true;
        s.left = false;
    }
    if up {
        s.up = true;
    }
    if down {
        s.down = true;
        s.up = false;
    }
    s
}

/// Truncating quotient, as machine division computes it.
pub open spec fn truncating_div(a: int, b: int) -> int
    recommends
        b > 0,
{
    if a >= 0 {
        a / b
    } else {
        -((-a) / b)
    }
}

/// Position units travelled in one tick along an axis at velocity `v`.
pub open spec fn tick_delta(v: int) -> int {
    truncating_div(v * PHYSICS_FACTOR, POSITION_SCALE as int)
}

/// The position one tick later.
pub open spec fn advance_spec(p: Position, v: Velocity) -> (int, int) {
    (p.x + tick_delta(v.x as int), p.y + tick_delta(v.y as int))
}

/// `i` fits an `i32`.
pub open spec fn fits_i32(i: int) -> bool {
    i32::MIN <= i <= i32::MAX
}

/// Moves the player by one tick of its velocity.
pub fn advance(p: Position, v: Velocity) -> (next: Position)
    requires
        fits_i32(v.x * PHYSICS_FACTOR),
        fits_i32(v.y * PHYSICS_FACTOR),
        fits_i32(advance_spec(p, v).0),
        fits_i32(advance_spec(p, v).1),
    ensures
        next.x == advance_spec(p, v).0,
        next.y == advance_spec(p, v).1,
{
    let dx: i32 = (v.x * PHYSICS_FACTOR) / POSITION_SCALE;
    let dy: i32 = (v.y * PHYSICS_FACTOR) / POSITION_SCALE;
    Position { x: p.x + dx, y: p.y + dy }
}

/// The factor by which the boost key multiplies a velocity: 2 while the
/// player moves, else 1.
pub open spec fn boost_factor(v: Velocity, boost: bool) -> int {
    if boost && (v.x != 0 || v.y != 0) {
        2
    } else {
        1
    }
}

/// The factor by which the speed keys multiply a velocity: 0 where the
/// slow key is held, else 3 where the fast key is, else 1.
pub open spec fn speed_multiplier(fast: bool, slow: bool) -> int {
    if slow {
        0
    } else if fast {
        3
    } else {
        1
    }
}

/// A velocity multiplied out of band by the speed keys. No flags account
/// for the result unless it is the velocity itself.
pub fn speed_control(v: Velocity, fast: bool, boost: bool, slow: bool) -> (modified: Velocity)
    requires
        fits_i32(v.x * boost_factor(v, boost)),
        fits_i32(v.y * boost_factor(v, boost)),
        fits_i32(v.x * boost_factor(v, boost) * speed_multiplier(fast, slow)),
        fits_i32(v.y * boost_factor(v, boost) * speed_multiplier(fast, slow)),
    ensures
        modified.x == v.x * boost_factor(v, boost) * speed_multiplier(fast, slow),
        modified.y == v.y * boost_factor(v, boost) * speed_multiplier(fast, slow),
{
    let mut modified = v;
    let mut multiplier: i32 = 1;
    if fast {
        multiplier = 3;
    }
    if boost {
        if modified.x != 0 || modified.y != 0 {
            modified.x = modified.x * 2;
            modified.y = modified.y * 2;
        }
    }
    if slow {
        multiplier = 0;
    }
    if multiplier != 1 {
        modified.x = modified.x * multiplier;
        modified.y = modified.y * multiplier;
    }
    modified
}

/// A tick at a velocity which the physics factor turns into whole position
/// units moves the player by exactly that many thousandths: nothing is
/// lost to rounding. Every velocity that keys give is such a velocity.
pub proof fn lemma_advance_is_exact(p: Position, v: Velocity)
    requires
        (v.x * PHYSICS_FACTOR) % (POSITION_SCALE as int) == 0,
        (v.y * PHYSICS_FACTOR) % (POSITION_SCALE as int) == 0,
    ensures
        advance_spec(p, v).0 * POSITION_SCALE == p.x * POSITION_SCALE + v.x * PHYSICS_FACTOR,
        advance_spec(p, v).1 * POSITION_SCALE == p.y * POSITION_SCALE + v.y * PHYSICS_FACTOR,
{
}

} // verus!
