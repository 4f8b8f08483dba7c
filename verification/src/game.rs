//! The replicated entity (`Player`), the command that mutates it
//! (`PlayerInput`), movement integration with bounds clamping, random
//! spawning, and the fixed-timestep accumulator.

use vstd::prelude::*;

verus! {

/// Milli-units per world unit: every coordinate, axis and color channel is
/// stored scaled by this, so the simulation is exact integer arithmetic.
pub const SCALE: u32 = 1000;

/// Width of the play area, in milli-units (1000 world units).
pub const GAME_AREA_WIDTH: u32 = 1000 * SCALE;

/// Height of the play area, in milli-units (1000 world units).
pub const GAME_AREA_HEIGHT: u32 = 1000 * SCALE;

/// Side of the player's square, in milli-units (20 world units).
pub const PLAYER_SIZE: u32 = 20 * SCALE;

/// Margin kept between a clamped position and the far edges (10 world units).
pub const POS_MARGIN: u32 = 10 * SCALE;

/// Largest position a player's `pos_x` may hold after any mutation.
pub const POS_MAX_X: u32 = GAME_AREA_WIDTH - POS_MARGIN;

/// Largest position a player's `pos_y` may hold after any mutation.
pub const POS_MAX_Y: u32 = GAME_AREA_HEIGHT - POS_MARGIN;

/// Distance from the play-area edges within which players spawn (10 world units).
pub const SPAWN_PADDING: u32 = 10 * SCALE;

/// Full deflection of an input axis (the value 1.0), in milli-units.
pub const AXIS_MAX: i32 = 1000;

/// Full negative deflection of an input axis (the value -1.0).
pub const AXIS_MIN: i32 = -1000;

/// Milli-units of position gained per tick per milli-unit of axis:
/// speed 300 world units per second times the 1/30 s tick.
pub const MOVE_PER_TICK: i32 = 10;

/// Duration of one simulation tick in microseconds (1/30 s).
pub const TICK_MICROS: u64 = 33333;

/// The replicated entity. Coordinates and color channels are milli-units;
/// color channels lie in `[0, SCALE]` and positions inside the play area.
#[derive(PartialEq, Eq, Structural, Clone, Copy, Debug)]
pub struct Player {
    pub id: u32,
    pub cur_sequence_id: u32,
    pub pos_x: u32,
    pub pos_y: u32,
    pub col_r: u32,
    pub col_g: u32,
    pub col_b: u32,
    pub col_a: u32,
}

/// Per-player control state: a movement direction, not a velocity.
/// On the wire the axes may hold any value; the server clamps them to
/// `[-AXIS_MAX, AXIS_MAX]` before storing them.
#[derive(PartialEq, Eq, Structural, Clone, Copy, Debug)]
pub struct PlayerInput {
    pub id: u32,
    pub cur_sequence_id: u32,
    pub up_down: i32,
    pub left_right: i32,
}

/// A player is well formed when its position is inside the clamping bounds
/// and its color channels are within the unit scale.
pub open spec fn player_valid(p: Player) -> bool {
    &&& p.pos_x <= POS_MAX_X
    &&& p.pos_y <= POS_MAX_Y
    &&& p.col_r <= SCALE
    &&& p.col_g <= SCALE
    &&& p.col_b <= SCALE
    &&& p.col_a <= SCALE
}

/// Both axes of a stored input lie in `[-AXIS_MAX, AXIS_MAX]`.
pub open spec fn input_clamped(i: PlayerInput) -> bool {
    &&& AXIS_MIN <= i.left_right <= AXIS_MAX
    &&& AXIS_MIN <= i.up_down <= AXIS_MAX
}

/// Clamp an unbounded coordinate into `[0, max]`.
pub open spec fn clamp_coord(v: int, max: int) -> int {
    if v < 0 {
        0
    } else if v > max {
        max
    } else {
        v
    }
}

/// One tick of movement along one axis, clamped into `[0, max]`.
pub open spec fn step_coord(pos: u32, axis: i32, max: u32) -> u32 {
    clamp_coord(pos + axis * MOVE_PER_TICK, max as int) as u32
}

/// An axis clamped into `[-AXIS_MAX, AXIS_MAX]`.
pub open spec fn clamp_axis_spec(a: i32) -> i32 {
    if a < AXIS_MIN {
        AXIS_MIN
    } else if a > AXIS_MAX {
        AXIS_MAX
    } else {
        a
    }
}

/// Clamp an axis value into `[-AXIS_MAX, AXIS_MAX]`.
pub fn clamp_axis(a: i32) -> (r: i32)
    ensures
        r == clamp_axis_spec(a),
{
    if a < AXIS_MIN {
        AXIS_MIN
    } else if a > AXIS_MAX {
        AXIS_MAX
    } else {
        a
    }
}

fn clamp_to_max(v: i64, max: u32) -> (r: u32)
    ensures
        r as int == clamp_coord(v as int, max as int),
{
    if v < 0 {
        0
    } else if v > max as i64 {
        max
    } else {
        v as u32
    }
}

impl Player {
    /// Advance this player's position by one fixed tick of movement along
    /// `input`'s axes, then clamp both coordinates into the play area.
    /// Identity, sequence id and color are untouched.
    pub fn update(&mut self, input: &PlayerInput)
        ensures
            final(self).pos_x == step_coord(old(self).pos_x, input.left_right, POS_MAX_X),
            final(self).pos_y == step_coord(old(self).pos_y, input.up_down, POS_MAX_Y),
            final(self).id == old(self).id,
            final(self).cur_sequence_id == old(self).cur_sequence_id,
            final(self).col_r == old(self).col_r,
            final(self).col_g == old(self).col_g,
            final(self).col_b == old(self).col_b,
            final(self).col_a == old(self).col_a,
            final(self).pos_x <= POS_MAX_X,
            final(self).pos_y <= POS_MAX_Y,
    {
        proof {
            assert(MOVE_PER_TICK == 10);
        }
        let nx: i64 = self.pos_x as i64 + (input.left_right as i64) * 10;
        let ny: i64 = self.pos_y as i64 + (input.up_down as i64) * 10;
        self.pos_x = clamp_to_max(nx, POS_MAX_X);
        self.pos_y = clamp_to_max(ny, POS_MAX_Y);
    }
}

/// Relies on `rand::Rng::gen_range` over the half-open range `0..bound`:
/// the result is strictly below `bound`, and the call panics only on an
/// empty range, which `bound > 0` rules out.
#[verifier::external_body]
fn rand_u32_below(bound: u32) -> (r: u32)
    requires
        bound > 0,
    ensures
        r < bound,
{
    rand::Rng::gen_range(&mut rand::thread_rng(), 0..bound)
}

/// Spawn a fresh player with the given id: sequence id zero, a random
/// position within the spawn padding of the play-area bounds, and a random
/// opaque color.
pub fn create_random_player(id: u32) -> (p: Player)
    ensures
        p.id == id,
        p.cur_sequence_id == 0,
        SPAWN_PADDING <= p.pos_x < GAME_AREA_WIDTH - SPAWN_PADDING,
        SPAWN_PADDING <= p.pos_y < GAME_AREA_HEIGHT - SPAWN_PADDING,
        p.col_a == SCALE,
        player_valid(p),
{
    let x = SPAWN_PADDING + rand_u32_below(GAME_AREA_WIDTH - 2 * SPAWN_PADDING);
    let y = SPAWN_PADDING + rand_u32_below(GAME_AREA_HEIGHT - 2 * SPAWN_PADDING);
    let r = rand_u32_below(SCALE);
    let g = rand_u32_below(SCALE);
    let b = rand_u32_below(SCALE);
    Player {
        id,
        cur_sequence_id: 0,
        pos_x: x,
        pos_y: y,
        col_r: r,
        col_g: g,
        col_b: b,
        col_a: SCALE,
    }
}

/// Accumulate elapsed wall-clock time into a tick timer.
pub fn timer_add(timer: &mut u64, dt_micros: u64)
    requires
        *old(timer) + dt_micros <= u64::MAX,
    ensures
        *final(timer) == *old(timer) + dt_micros,
{
    *timer = *timer + dt_micros;
}

/// Consume one fixed tick from the accumulator if more than a tick's worth
/// of time has been gathered; says whether a tick should run. A single
/// frame may consume zero, one or several ticks.
pub fn timer_take_tick(timer: &mut u64) -> (ticked: bool)
    ensures
        ticked == (*old(timer) > TICK_MICROS),
        *final(timer) == if *old(timer) > TICK_MICROS {
            (*old(timer) - TICK_MICROS) as u64
        } else {
            *old(timer)
        },
{
    if *timer > TICK_MICROS {
        *timer = *timer - TICK_MICROS;
        true
    } else {
        false
    }
}

} // verus!
