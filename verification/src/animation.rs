//! Animated transitions of the temperature shown on the LCD.
//!
//! Positions are fixed-point numbers: one display unit is `POSITION_SCALE`.
//! A transition runs from `start_val` to the target over `duration_ms`;
//! its time is measured in `TIME_STEPS` parts of the duration.
//!
//! The arithmetic is exact on these whole numbers, so it is a quantized form
//! of the eased curve over real numbers: time is taken in steps of 1/2^20 of
//! the duration (rounded down) and positions in steps of 1/65536 of a unit
//! (rounded towards the start). Near a rounding threshold of the shown value
//! a smooth transition may therefore show, at some elapsed times, a value
//! one unit off from the same curve evaluated in `f64`. The roller and
//! immediate modes and every finished transition are not affected.

use std::time::Instant;
use vstd::arithmetic::div_mod::{
    lemma_div_is_ordered, lemma_div_multiples_vanish, lemma_fundamental_div_mod,
    lemma_multiply_divide_le, lemma_multiply_divide_lt,
};
use vstd::arithmetic::mul::{lemma_mul_inequality, lemma_mul_is_commutative};
use vstd::prelude::*;

use crate::clock::{instant_now, nanos_since};

verus! {

/// How the shown value moves towards a new target.
#[derive(Debug, Clone, Copy, PartialEq, Eq, Structural)]
pub enum AnimationMode {
    /// Jump to the target at once.
    Immediate,
    /// Ease in and out along a cubic curve.
    Smooth,
    /// Count one display unit at a time, evenly spread over the duration.
    Roller,
}

/// One display unit in fixed point.
pub const POSITION_SCALE: u64 = 65536;

/// The largest position: `u16::MAX` display units.
pub const MAX_POSITION: u64 = 4294901760;

/// A transition's time is measured in this many parts of its duration.
pub const TIME_STEPS: u128 = 1048576;

/// `TIME_STEPS` cubed: the progress of a finished smooth transition.
pub const TIME_STEPS_CUBED: u128 = 1152921504606846976;

/// Nanoseconds in a millisecond.
pub const NANOS_PER_MILLI: u128 = 1000000;

pub open spec fn cube(x: int) -> int {
    x * x * x
}

/// Cubic ease-in-out at time `tq` (out of `TIME_STEPS`), as a part of
/// `TIME_STEPS_CUBED`: `4t³` in the first half, `1 - (2 - 2t)³ / 2` after.
pub open spec fn ease_in_out(tq: int) -> int {
    if 2 * tq < TIME_STEPS {
        4 * cube(tq)
    } else {
        TIME_STEPS_CUBED - 4 * cube(TIME_STEPS - tq)
    }
}

/// The point `progress / TIME_STEPS_CUBED` of the way from `start` to `target`,
/// rounded towards `start`.
pub open spec fn interpolate(start: int, target: int, progress: int) -> int {
    if target >= start {
        start + (target - start) * progress / (TIME_STEPS_CUBED as int)
    } else {
        start - (start - target) * progress / (TIME_STEPS_CUBED as int)
    }
}

/// A duration given in milliseconds, in nanoseconds.
pub open spec fn duration_nanos(duration_ms: u64) -> int {
    duration_ms * NANOS_PER_MILLI
}

/// Position of a smooth transition after `elapsed` of `duration` nanoseconds.
pub open spec fn smooth_position(start: int, target: int, elapsed: int, duration: int) -> int {
    if duration == 0 {
        target
    } else {
        let fraction = elapsed * TIME_STEPS / duration;
        let tq = if fraction < TIME_STEPS { fraction } else { TIME_STEPS as int };
        if tq >= TIME_STEPS {
            target
        } else {
            interpolate(start, target, ease_in_out(tq))
        }
    }
}

/// Whole display units between two positions.
pub open spec fn unit_distance(start: int, target: int) -> int {
    if target >= start {
        (target - start) / (POSITION_SCALE as int)
    } else {
        (start - target) / (POSITION_SCALE as int)
    }
}

/// Position of a roller transition after `elapsed` of `duration` nanoseconds:
/// one unit per `duration / distance`, never past the target.
pub open spec fn roller_position(start: int, target: int, elapsed: int, duration: int) -> int {
    let diff = unit_distance(start, target);
    if diff == 0 || duration == 0 {
        target
    } else {
        let taken = elapsed * diff / duration;
        let steps = if taken < diff { taken } else { diff };
        if target >= start {
            start + steps * POSITION_SCALE
        } else {
            start - steps * POSITION_SCALE
        }
    }
}

/// The display value of a position: rounded half up, clamped to `u16`.
pub open spec fn display_value(position: int) -> u16 {
    let rounded = (position + POSITION_SCALE / 2) / (POSITION_SCALE as int);
    if rounded > u16::MAX {
        u16::MAX
    } else if rounded < 0 {
        0
    } else {
        rounded as u16
    }
}

/// Animates the value shown on the display towards its latest target.
pub struct DisplayAnimator {
    /// Current position (fixed point).
    pub current_val: u64,
    /// The value being moved to.
    pub target_val: u16,
    /// Position at which the current transition began (fixed point).
    pub start_val: u64,
    /// When the current transition began.
    pub start_time: Instant,
    /// Length of a transition, in milliseconds.
    pub duration_ms: u64,
    /// How values move.
    pub mode: AnimationMode,
    /// The value last reported by `tick`.
    pub last_sent: u16,
}

impl DisplayAnimator {
    /// Positions lie on the display's range; outside smooth mode they are
    /// whole display units.
    pub open spec fn wf(&self) -> bool {
        &&& self.current_val <= MAX_POSITION
        &&& self.start_val <= MAX_POSITION
        &&& self.mode != AnimationMode::Smooth ==> {
            &&& self.current_val % POSITION_SCALE == 0
            &&& self.start_val % POSITION_SCALE == 0
        }
    }

    /// The target as a position.
    pub open spec fn target_position(&self) -> int {
        self.target_val * POSITION_SCALE
    }

    /// Position of the current transition `elapsed` nanoseconds after it began.
    pub open spec fn position_at(&self, elapsed: int) -> int {
        match self.mode {
            AnimationMode::Immediate => self.target_position(),
            AnimationMode::Smooth => smooth_position(
                self.start_val as int,
                self.target_position(),
                elapsed,
                duration_nanos(self.duration_ms),
            ),
            AnimationMode::Roller => roller_position(
                self.start_val as int,
                self.target_position(),
                elapsed,
                duration_nanos(self.duration_ms),
            ),
        }
    }

    /// The value shown `elapsed` nanoseconds after the transition began.
    pub open spec fn shown_at(&self, elapsed: int) -> u16 {
        match self.mode {
            AnimationMode::Immediate => self.target_val,
            _ => display_value(self.position_at(elapsed)),
        }
    }

    /// What `tick` does when it reads `elapsed` from the clock: `next` is the
    /// animator after it, `shown` its result.
    pub open spec fn ticked(&self, next: &Self, shown: Option<u16>, elapsed: int) -> bool {
        &&& next.current_val == self.position_at(elapsed)
        &&& next.last_sent == self.shown_at(elapsed)
        &&& shown == if self.shown_at(elapsed) != self.last_sent {
            Some(self.shown_at(elapsed))
        } else {
            None::<u16>
        }
        &&& next.target_val == self.target_val
        &&& next.start_val == self.start_val
        &&& next.start_time == self.start_time
        &&& next.duration_ms == self.duration_ms
        &&& next.mode == self.mode
    }

    /// What `set_target(target)` does: nothing when `target` is already
    /// the target; otherwise a new transition from the current position,
    /// timed from the moment of the call.
    pub open spec fn retargeted(&self, next: &Self, target: u16) -> bool {
        &&& self.target_val == target ==> *next == *self
        &&& self.target_val != target ==> {
            &&& next.target_val == target
            &&& next.start_val == self.current_val
            &&& next.current_val == self.current_val
            &&& next.duration_ms == self.duration_ms
            &&& next.mode == self.mode
            &&& next.last_sent == self.last_sent
        }
    }

    /// An animator at zero, with nothing reported yet.
    pub fn new(mode: AnimationMode, duration_ms: u64) -> (anim: Self)
        ensures
            anim.wf(),
            anim.current_val == 0,
            anim.target_val == 0,
            anim.start_val == 0,
            anim.duration_ms == duration_ms,
            anim.mode == mode,
            anim.last_sent == 0,
    {
        DisplayAnimator {
            current_val: 0,
            target_val: 0,
            start_val: 0,
            start_time: instant_now(),
            duration_ms,
            mode,
            last_sent: 0,
        }
    }

    /// Starts a transition from the current position to `target`, unless
    /// `target` is already the target.
    pub fn set_target(&mut self, target: u16)
        requires
            old(self).wf(),
        ensures
            final(self).wf(),
            old(self).retargeted(&*final(self), target),
    {
        if self.target_val == target {
            return;
        }
        self.start_val = self.current_val;
        self.target_val = target;
        self.start_time = instant_now();
    }

    /// Advances the transition to `elapsed_ns` nanoseconds after it began.
    /// Returns the value to show when it differs from the last one reported.
    pub fn tick_at(&mut self, elapsed_ns: u128) -> (shown: Option<u16>)
        requires
            old(self).wf(),
        ensures
            final(self).wf(),
            old(self).ticked(&*final(self), shown, elapsed_ns as int),
    {
        let target_pos: u64 = self.target_val as u64 * POSITION_SCALE;
        let new_display: u16 = match self.mode {
            AnimationMode::Immediate => {
                self.current_val = target_pos;
                self.target_val
            },
            AnimationMode::Smooth => {
                self.current_val = smooth_step(self.start_val, target_pos, elapsed_ns, self.duration_ms);
                display_of(self.current_val)
            },
            AnimationMode::Roller => {
                self.current_val = roller_step(self.start_val, target_pos, elapsed_ns, self.duration_ms);
                display_of(self.current_val)
            },
        };
        if new_display != self.last_sent {
            self.last_sent = new_display;
            Some(new_display)
        } else {
            None
        }
    }

    /// Advances the transition to the present moment. Returns the value to
    /// show when it differs from the last one reported.
    pub fn tick(&mut self) -> (shown: Option<u16>)
        requires
            old(self).wf(),
        ensures
            final(self).wf(),
            exists|elapsed: int|
                0 <= elapsed && #[trigger] old(self).ticked(&*final(self), shown, elapsed),
    {
        let elapsed = nanos_since(&self.start_time);
        let shown = self.tick_at(elapsed);
        assert(old(self).ticked(&*self, shown, elapsed as int));
        shown
    }
}

/// Rounds a position to the display.
fn display_of(position: u64) -> (shown: u16)
    requires
        position <= MAX_POSITION,
    ensures
        shown == display_value(position as int),
{
    let rounded: u64 = (position + POSITION_SCALE / 2) / POSITION_SCALE;
    proof {
        lemma_multiply_divide_lt(
            position + POSITION_SCALE / 2,
            POSITION_SCALE as int,
            u16::MAX + 1,
        );
    }
    rounded as u16
}

proof fn lemma_cube_monotone(x: int, y: int)
    requires
        0 <= x <= y,
    ensures
        x * x <= y * y,
        cube(x) <= cube(y),
        0 <= cube(x),
{
    assert(x * x <= y * y) by (nonlinear_arith)
        requires
            0 <= x <= y,
    ;
    assert(x * x * x <= y * y * y) by (nonlinear_arith)
        requires
            0 <= x <= y,
            x * x <= y * y,
    ;
    assert(0 <= x * x * x) by (nonlinear_arith)
        requires
            0 <= x,
    ;
}

/// The ease-in-out progress lies between zero and a finished transition.
proof fn lemma_ease_bounds(tq: int)
    requires
        0 <= tq <= TIME_STEPS,
    ensures
        0 <= ease_in_out(tq) <= TIME_STEPS_CUBED,
        2 * tq < TIME_STEPS ==> ease_in_out(tq) <= TIME_STEPS_CUBED / 2,
        2 * tq >= TIME_STEPS ==> ease_in_out(tq) >= TIME_STEPS_CUBED / 2,
{
    if 2 * tq < TIME_STEPS {
        lemma_cube_monotone(tq, (TIME_STEPS / 2) as int);
    } else {
        lemma_cube_monotone((TIME_STEPS - tq) as int, (TIME_STEPS / 2) as int);
    }
    assert(cube(524288) == TIME_STEPS_CUBED / 8);
}

/// The ease-in-out curve never goes back.
proof fn lemma_ease_monotone(t1: int, t2: int)
    requires
        0 <= t1 <= t2 <= TIME_STEPS,
    ensures
        ease_in_out(t1) <= ease_in_out(t2),
{
    lemma_ease_bounds(t1);
    lemma_ease_bounds(t2);
    if 2 * t2 < TIME_STEPS {
        lemma_cube_monotone(t1, t2);
    } else if 2 * t1 >= TIME_STEPS {
        lemma_cube_monotone((TIME_STEPS - t2) as int, (TIME_STEPS - t1) as int);
    }
}

/// `part * progress / TIME_STEPS_CUBED` lies between zero and `part`.
proof fn lemma_scaled_part(part: int, progress: int)
    requires
        0 <= part,
        0 <= progress <= TIME_STEPS_CUBED,
    ensures
        0 <= part * progress / (TIME_STEPS_CUBED as int) <= part,
{
    lemma_mul_inequality(progress, TIME_STEPS_CUBED as int, part);
    lemma_mul_is_commutative(part, progress);
    lemma_mul_is_commutative(part, TIME_STEPS_CUBED as int);
    lemma_multiply_divide_le(part * progress, TIME_STEPS_CUBED as int, part);
    lemma_mul_inequality(0, progress, part);
    lemma_div_is_ordered(0, part * progress, TIME_STEPS_CUBED as int);
}

/// Interpolation is monotone in the progress.
proof fn lemma_interpolate_monotone(start: int, target: int, p1: int, p2: int)
    requires
        0 <= p1 <= p2 <= TIME_STEPS_CUBED,
    ensures
        target >= start ==> interpolate(start, target, p1) <= interpolate(start, target, p2),
        target < start ==> interpolate(start, target, p1) >= interpolate(start, target, p2),
        target >= start ==> start <= interpolate(start, target, p2) <= target,
        target < start ==> target <= interpolate(start, target, p2) <= start,
{
    let part = if target >= start { target - start } else { start - target };
    lemma_mul_inequality(p1, p2, part);
    lemma_mul_is_commutative(p1, part);
    lemma_mul_is_commutative(p2, part);
    lemma_div_is_ordered(part * p1, part * p2, TIME_STEPS_CUBED as int);
    lemma_scaled_part(part, p2);
}

/// `elapsed * TIME_STEPS / duration` reaches `TIME_STEPS` exactly when the
/// duration has passed.
proof fn lemma_fraction_full(elapsed: int, duration: int)
    requires
        0 <= elapsed,
        0 < duration,
    ensures
        (elapsed * TIME_STEPS / duration >= TIME_STEPS) <==> elapsed >= duration,
{
    if elapsed >= duration {
        lemma_mul_inequality(duration, elapsed, TIME_STEPS as int);
        lemma_div_is_ordered(duration * TIME_STEPS, elapsed * TIME_STEPS, duration);
        lemma_mul_is_commutative(duration, TIME_STEPS as int);
        lemma_div_multiples_vanish(TIME_STEPS as int, duration);
    } else {
        lemma_mul_strict_inequality_pos(elapsed, duration, TIME_STEPS as int);
        lemma_mul_is_commutative(duration, TIME_STEPS as int);
        lemma_multiply_divide_lt(elapsed * TIME_STEPS, duration, TIME_STEPS as int);
    }
}

proof fn lemma_mul_strict_inequality_pos(x: int, y: int, z: int)
    requires
        x < y,
        z > 0,
    ensures
        x * z < y * z,
{
    vstd::arithmetic::mul::lemma_mul_strict_inequality(x, y, z);
}

/// Computes `smooth_position` for positions on the display's range.
fn smooth_step(start: u64, target: u64, elapsed: u128, duration_ms: u64) -> (pos: u64)
    requires
        start <= MAX_POSITION,
        target <= MAX_POSITION,
    ensures
        pos as int == smooth_position(start as int, target as int, elapsed as int, duration_nanos(duration_ms)),
        target >= start ==> start <= pos <= target,
        target < start ==> target <= pos <= start,
{
    let duration: u128 = duration_ms as u128 * NANOS_PER_MILLI;
    if duration == 0 {
        return target;
    }
    proof {
        lemma_fraction_full(elapsed as int, duration as int);
    }
    if elapsed >= duration {
        return target;
    }
    assert(elapsed * TIME_STEPS <= duration * TIME_STEPS) by {
        lemma_mul_inequality(elapsed as int, duration as int, TIME_STEPS as int);
    }
    let tq: u128 = elapsed * TIME_STEPS / duration;
    proof {
        lemma_ease_bounds(tq as int);
    }
    let progress: u128 = if 2 * tq < TIME_STEPS {
        proof {
            lemma_cube_monotone(tq as int, TIME_STEPS as int);
        }
        4 * (tq * tq * tq)
    } else {
        let rest: u128 = TIME_STEPS - tq;
        proof {
            lemma_cube_monotone(rest as int, TIME_STEPS as int);
        }
        TIME_STEPS_CUBED - 4 * (rest * rest * rest)
    };
    assert(progress as int == ease_in_out(tq as int));
    proof {
        lemma_interpolate_monotone(start as int, target as int, 0, progress as int);
    }
    if target >= start {
        let part: u128 = (target - start) as u128;
        proof {
            lemma_mul_inequality(progress as int, TIME_STEPS_CUBED as int, part as int);
            lemma_mul_is_commutative(part as int, progress as int);
        }
        let moved: u128 = part * progress / TIME_STEPS_CUBED;
        start + moved as u64
    } else {
        let part: u128 = (start - target) as u128;
        proof {
            lemma_mul_inequality(progress as int, TIME_STEPS_CUBED as int, part as int);
            lemma_mul_is_commutative(part as int, progress as int);
        }
        let moved: u128 = part * progress / TIME_STEPS_CUBED;
        start - moved as u64
    }
}

/// Computes `roller_position` for whole display units on the display's range.
fn roller_step(start: u64, target: u64, elapsed: u128, duration_ms: u64) -> (pos: u64)
    requires
        start <= MAX_POSITION,
        target <= MAX_POSITION,
        start % POSITION_SCALE == 0,
        target % POSITION_SCALE == 0,
    ensures
        pos as int == roller_position(start as int, target as int, elapsed as int, duration_nanos(duration_ms)),
        pos % POSITION_SCALE == 0,
        target >= start ==> start <= pos <= target,
        target < start ==> target <= pos <= start,
{
    let duration: u128 = duration_ms as u128 * NANOS_PER_MILLI;
    let diff: u64 = if target >= start {
        (target - start) / POSITION_SCALE
    } else {
        (start - target) / POSITION_SCALE
    };
    if diff == 0 || duration == 0 {
        return target;
    }
    let capped: u128 = if elapsed < duration { elapsed } else { duration };
    proof {
        if target >= start {
            lemma_div_is_ordered((target - start) as int, MAX_POSITION as int, POSITION_SCALE as int);
        } else {
            lemma_div_is_ordered((start - target) as int, MAX_POSITION as int, POSITION_SCALE as int);
        }
        assert((duration as int) * (diff as int) <= 18446744073709551615int * 1000000 * 65535)
            by (nonlinear_arith)
            requires
                duration <= 18446744073709551615int * 1000000,
                diff <= 65535,
        ;
        lemma_mul_inequality(capped as int, duration as int, diff as int);
        lemma_mul_is_commutative(duration as int, diff as int);
        lemma_multiply_divide_le((capped as int) * (diff as int), duration as int, diff as int);
        lemma_div_multiples_vanish(diff as int, duration as int);
        if elapsed >= duration {
            lemma_mul_inequality(duration as int, elapsed as int, diff as int);
            lemma_div_is_ordered((duration as int) * (diff as int), (elapsed as int) * (diff as int), duration as int);
        }
    }
    let steps: u128 = capped * (diff as u128) / duration;
    let ghost taken: int = (elapsed as int) * (diff as int) / (duration as int);
    assert(steps as int == (if taken < diff { taken } else { diff as int }));
    proof {
        lemma_mul_inequality(steps as int, diff as int, POSITION_SCALE as int);
        if target >= start {
            lemma_fundamental_div_mod((target - start) as int, POSITION_SCALE as int);
        } else {
            lemma_fundamental_div_mod((start - target) as int, POSITION_SCALE as int);
        }
        vstd::arithmetic::div_mod::lemma_mod_multiples_basic(steps as int, POSITION_SCALE as int);
    }
    let offset: u64 = steps as u64 * POSITION_SCALE;
    if target >= start {
        start + offset
    } else {
        start - offset
    }
}

/// Rounding to the display keeps the order of positions.
proof fn lemma_display_monotone(p1: int, p2: int)
    ensures
        p1 <= p2 ==> display_value(p1) <= display_value(p2),
{
    if p1 <= p2 {
        lemma_div_is_ordered(
            p1 + POSITION_SCALE / 2,
            p2 + POSITION_SCALE / 2,
            POSITION_SCALE as int,
        );
    }
}

/// A whole number of display units shows as that number.
proof fn lemma_display_of_units(units: int)
    requires
        0 <= units <= u16::MAX,
    ensures
        display_value(units * POSITION_SCALE) == units,
{
    lemma_fundamental_div_mod(units * POSITION_SCALE + POSITION_SCALE / 2, POSITION_SCALE as int);
    vstd::arithmetic::div_mod::lemma_div_multiples_vanish_fancy(
        units,
        (POSITION_SCALE / 2) as int,
        POSITION_SCALE as int,
    );
}

/// The distance in units between two whole-unit positions, times the
/// scale, is their difference.
proof fn lemma_unit_distance_exact(start: int, target: int)
    requires
        0 <= start,
        0 <= target,
        start % (POSITION_SCALE as int) == 0,
        target % (POSITION_SCALE as int) == 0,
    ensures
        target >= start ==> unit_distance(start, target) * POSITION_SCALE == target - start,
        target < start ==> unit_distance(start, target) * POSITION_SCALE == start - target,
{
    lemma_fundamental_div_mod(start, POSITION_SCALE as int);
    lemma_fundamental_div_mod(target, POSITION_SCALE as int);
    let a = start / (POSITION_SCALE as int);
    let b = target / (POSITION_SCALE as int);
    if target >= start {
        vstd::arithmetic::mul::lemma_mul_is_distributive_sub(POSITION_SCALE as int, b, a);
        assert(target - start == (POSITION_SCALE as int) * (b - a));
        lemma_mul_is_commutative(POSITION_SCALE as int, b - a);
        lemma_div_multiples_vanish(b - a, POSITION_SCALE as int);
    } else {
        vstd::arithmetic::mul::lemma_mul_is_distributive_sub(POSITION_SCALE as int, a, b);
        assert(start - target == (POSITION_SCALE as int) * (a - b));
        lemma_mul_is_commutative(POSITION_SCALE as int, a - b);
        lemma_div_multiples_vanish(a - b, POSITION_SCALE as int);
    }
}

/// A smooth transition never moves back, and stays between its start and
/// its target.
proof fn lemma_smooth_monotone(start: int, target: int, e1: int, e2: int, duration: int)
    requires
        0 <= e1 <= e2,
        0 <= duration,
    ensures
        target >= start ==> smooth_position(start, target, e1, duration) <= smooth_position(start, target, e2, duration),
        target < start ==> smooth_position(start, target, e1, duration) >= smooth_position(start, target, e2, duration),
        target >= start ==> start <= smooth_position(start, target, e2, duration) <= target,
        target < start ==> target <= smooth_position(start, target, e2, duration) <= start,
{
    if duration > 0 {
        lemma_mul_inequality(e1, e2, TIME_STEPS as int);
        lemma_div_is_ordered(e1 * TIME_STEPS, e2 * TIME_STEPS, duration);
        lemma_mul_inequality(0, e1, TIME_STEPS as int);
        lemma_div_is_ordered(0, e1 * TIME_STEPS, duration);
        let f1 = e1 * TIME_STEPS / duration;
        let f2 = e2 * TIME_STEPS / duration;
        let t1 = if f1 < TIME_STEPS { f1 } else { TIME_STEPS as int };
        let t2 = if f2 < TIME_STEPS { f2 } else { TIME_STEPS as int };
        lemma_ease_bounds(t1);
        lemma_ease_bounds(t2);
        lemma_interpolate_monotone(start, target, 0, ease_in_out(t1));
        lemma_interpolate_monotone(start, target, 0, ease_in_out(t2));
        if t2 < TIME_STEPS {
            lemma_ease_monotone(t1, t2);
            lemma_interpolate_monotone(start, target, ease_in_out(t1), ease_in_out(t2));
        }
    }
}

/// A roller transition never moves back, and stays between its start and
/// its target.
proof fn lemma_roller_monotone(start: int, target: int, e1: int, e2: int, duration: int)
    requires
        0 <= e1 <= e2,
        0 <= duration,
        0 <= start,
        0 <= target,
        start % (POSITION_SCALE as int) == 0,
        target % (POSITION_SCALE as int) == 0,
    ensures
        target >= start ==> roller_position(start, target, e1, duration) <= roller_position(start, target, e2, duration),
        target < start ==> roller_position(start, target, e1, duration) >= roller_position(start, target, e2, duration),
        target >= start ==> start <= roller_position(start, target, e2, duration) <= target,
        target < start ==> target <= roller_position(start, target, e2, duration) <= start,
{
    let diff = unit_distance(start, target);
    lemma_unit_distance_exact(start, target);
    if diff != 0 && duration != 0 {
        assert(diff > 0) by {
            if target >= start {
                lemma_div_is_ordered(0, target - start, POSITION_SCALE as int);
            } else {
                lemma_div_is_ordered(0, start - target, POSITION_SCALE as int);
            }
        }
        lemma_mul_inequality(e1, e2, diff);
        lemma_div_is_ordered(e1 * diff, e2 * diff, duration);
        lemma_mul_inequality(0, e1, diff);
        lemma_div_is_ordered(0, e1 * diff, duration);
        let k1 = e1 * diff / duration;
        let k2 = e2 * diff / duration;
        let s1 = if k1 < diff { k1 } else { diff };
        let s2 = if k2 < diff { k2 } else { diff };
        lemma_mul_inequality(s1, s2, POSITION_SCALE as int);
        lemma_mul_inequality(s2, diff, POSITION_SCALE as int);
        lemma_mul_inequality(0, s1, POSITION_SCALE as int);
    }
}

/// Within one transition the shown value only moves towards the target:
/// rising transitions never show a smaller value later, falling ones never
/// a larger one, and every position lies between the start and the target.
pub proof fn lemma_transition_monotone(anim: DisplayAnimator, e1: int, e2: int)
    requires
        anim.wf(),
        0 <= e1 <= e2,
    ensures
        anim.start_val <= anim.target_position() ==> {
            &&& anim.position_at(e1) <= anim.position_at(e2)
            &&& anim.shown_at(e1) <= anim.shown_at(e2)
            &&& anim.mode != AnimationMode::Immediate ==> anim.start_val <= anim.position_at(e2)
            &&& anim.position_at(e2) <= anim.target_position()
        },
        anim.start_val >= anim.target_position() ==> {
            &&& anim.position_at(e1) >= anim.position_at(e2)
            &&& anim.shown_at(e1) >= anim.shown_at(e2)
            &&& anim.mode != AnimationMode::Immediate ==> anim.start_val >= anim.position_at(e2)
            &&& anim.position_at(e2) >= anim.target_position()
        },
{
    let d = duration_nanos(anim.duration_ms);
    let s = anim.start_val as int;
    let t = anim.target_position();
    lemma_mul_inequality(0, anim.target_val as int, POSITION_SCALE as int);
    vstd::arithmetic::div_mod::lemma_mod_multiples_basic(anim.target_val as int, POSITION_SCALE as int);
    match anim.mode {
        AnimationMode::Immediate => {},
        AnimationMode::Smooth => {
            lemma_smooth_monotone(s, t, e1, e2, d);
            lemma_smooth_monotone(s, t, e1, e1, d);
            lemma_display_monotone(anim.position_at(e1), anim.position_at(e2));
            lemma_display_monotone(anim.position_at(e2), anim.position_at(e1));
        },
        AnimationMode::Roller => {
            lemma_roller_monotone(s, t, e1, e2, d);
            lemma_roller_monotone(s, t, e1, e1, d);
            lemma_display_monotone(anim.position_at(e1), anim.position_at(e2));
            lemma_display_monotone(anim.position_at(e2), anim.position_at(e1));
        },
    }
}

/// Once the duration has passed, a transition stands at its target and the
/// display shows the target value; with a zero duration this holds at once.
pub proof fn lemma_transition_completes(anim: DisplayAnimator, elapsed: int)
    requires
        anim.wf(),
        elapsed >= duration_nanos(anim.duration_ms),
    ensures
        anim.position_at(elapsed) == anim.target_position(),
        anim.shown_at(elapsed) == anim.target_val,
{
    let d = duration_nanos(anim.duration_ms);
    let s = anim.start_val as int;
    let t = anim.target_position();
    lemma_mul_inequality(0, anim.target_val as int, POSITION_SCALE as int);
    vstd::arithmetic::div_mod::lemma_mod_multiples_basic(anim.target_val as int, POSITION_SCALE as int);
    lemma_display_of_units(anim.target_val as int);
    match anim.mode {
        AnimationMode::Immediate => {},
        AnimationMode::Smooth => {
            if d > 0 {
                lemma_fraction_full(elapsed, d);
            }
        },
        AnimationMode::Roller => {
            let diff = unit_distance(s, t);
            lemma_unit_distance_exact(s, t);
            if diff != 0 && d != 0 {
                lemma_mul_inequality(d, elapsed, diff);
                lemma_div_is_ordered(d * diff, elapsed * diff, d);
                lemma_mul_is_commutative(d, diff);
                lemma_div_multiples_vanish(diff, d);
            }
        },
    }
}

/// A tick reports a value only when it differs from the last report, and
/// afterwards the last report is what the display shows; so once a
/// transition has completed and been reported, further ticks report nothing.
pub proof fn lemma_completed_transition_is_quiet(
    anim: DisplayAnimator,
    next: DisplayAnimator,
    shown: Option<u16>,
    elapsed: int,
)
    requires
        anim.wf(),
        anim.last_sent == anim.target_val,
        elapsed >= duration_nanos(anim.duration_ms),
        anim.ticked(&next, shown, elapsed),
    ensures
        shown == None::<u16>,
        next.last_sent == anim.last_sent,
{
    lemma_transition_completes(anim, elapsed);
}

/// A smooth transition depends only on the distance to travel: moving both
/// ends by the same amount moves every position by that amount.
pub proof fn lemma_smooth_shift(start: int, target: int, shift: int, elapsed: int, duration: int)
    ensures
        smooth_position(start + shift, target + shift, elapsed, duration)
            == smooth_position(start, target, elapsed, duration) + shift,
{
}

/// Half way through a smooth transition (of an even number of
/// nanoseconds), the position is half way between start and target,
/// rounded towards the start.
pub proof fn lemma_smooth_half_way(start: int, target: int, duration: int)
    requires
        duration > 0,
        duration % 2 == 0,
    ensures
        target >= start ==> smooth_position(start, target, duration / 2, duration) == start + (
        target - start) / 2,
        target < start ==> smooth_position(start, target, duration / 2, duration) == start - (
        start - target) / 2,
{
    let half = duration / 2;
    assert(half * TIME_STEPS == duration * 524288);
    lemma_div_multiples_vanish(524288, duration);
    assert(half * TIME_STEPS / duration == 524288);
    assert(cube(524288) == 144115188075855872);
    assert(ease_in_out(524288) == 576460752303423488);
    let x = if target >= start { target - start } else { start - target };
    assert(x * 576460752303423488 / 1152921504606846976int == x / 2) by {
        lemma_fundamental_div_mod(x, 2);
        let q = x / 2;
        let r = x % 2;
        assert(x * 576460752303423488 == q * 1152921504606846976int + r * 576460752303423488);
        vstd::arithmetic::div_mod::lemma_fundamental_div_mod_converse(
            x * 576460752303423488,
            1152921504606846976int,
            q,
            r * 576460752303423488,
        );
    }
}

/// A roller transition depends only on the distance to travel: moving both
/// ends by the same amount moves every position by that amount.
pub proof fn lemma_roller_shift(start: int, target: int, shift: int, elapsed: int, duration: int)
    ensures
        roller_position(start + shift, target + shift, elapsed, duration)
            == roller_position(start, target, elapsed, duration) + shift,
{
    assert(unit_distance(start + shift, target + shift) == unit_distance(start, target));
}

/// A roller transition over at least one unit does not reach its target
/// before its duration has passed: it spreads its steps over the whole
/// duration.
pub proof fn lemma_roller_not_early(start: int, target: int, elapsed: int, duration: int)
    requires
        0 <= elapsed < duration,
        unit_distance(start, target) > 0,
    ensures
        roller_position(start, target, elapsed, duration) != target,
{
    let n = unit_distance(start, target);
    vstd::arithmetic::mul::lemma_mul_strict_inequality(elapsed, duration, n);
    lemma_mul_is_commutative(duration, n);
    lemma_multiply_divide_lt(elapsed * n, duration, n);
    let taken = elapsed * n / duration;
    lemma_mul_inequality(taken, n - 1, POSITION_SCALE as int);
    if target >= start {
        lemma_fundamental_div_mod(target - start, POSITION_SCALE as int);
    } else {
        lemma_fundamental_div_mod(start - target, POSITION_SCALE as int);
    }
}

} // verus!
