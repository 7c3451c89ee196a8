//! The rewind controller: it turns held keys and drags along the seek bar
//! into requests to move the playback position.

use vstd::prelude::*;
use crate::score::Micros;

verus! {

/// How far one tick moves the position while a rewind key has been held for
/// less than a second, in milliseconds.
pub const REWIND_STEP: i64 = 100;

/// The step never grows beyond this many times `REWIND_STEP`.
pub const MAX_ACCELERATION: u64 = 10;

/// The whole width of the seek bar, in the unit of pointer positions:
/// millionths.
pub const BAR_WIDTH: i64 = 1_000_000;

/// Which way a rewind key moves the position.
#[derive(Debug, PartialEq, Eq, Clone, Copy, Structural)]
pub enum Direction {
    Backward,
    Forward,
}

/// What the user is doing to the playback position.
#[derive(Debug, PartialEq, Eq, Clone, Copy, Structural)]
pub enum RewindController {
    /// Nothing: the playback runs by itself.
    Idle,
    /// A rewind key is down since `start_time`.
    HoldingKey { direction: Direction, start_time: Micros },
    /// The pointer went down on the seek bar at `origin_x` and has not come
    /// up yet.
    ScrubbingBar { origin_x: u32 },
}

/// One thing that the input reports.
#[derive(Debug, PartialEq, Eq, Clone, Copy, Structural)]
pub enum InputEdge {
    /// A rewind key went down.
    RewindKeyDown { direction: Direction },
    /// The rewind key came up.
    RewindKeyUp,
    /// The pointer went down on the seek bar, at `x` millionths of its width.
    PointerDown { x: i64 },
    /// The pointer moved to `x` millionths of the width of the seek bar; it
    /// may have left the bar on either side.
    PointerMove { x: i64 },
    /// The pointer came up.
    PointerUp,
    /// A tick of the simulation.
    Tick,
}

/// What the controller asks of the player.
#[derive(Debug, PartialEq, Eq, Clone, Copy, Structural)]
pub enum SeekRequest {
    /// Leave the position alone.
    Nothing,
    /// Move the position by `delta` milliseconds, backward if negative.
    Rewind { delta: i64 },
    /// Put the position at `millionths` of the piece.
    SetPercentage { millionths: u32 },
}

/// How far one tick moves the position after the key has been held for
/// `held`, in milliseconds: one `REWIND_STEP` for each second begun, up to
/// `MAX_ACCELERATION` of them.
pub open spec fn hold_step(held: int) -> int {
    let seconds_begun = held / 1_000_000 + 1;
    if seconds_begun > MAX_ACCELERATION {
        REWIND_STEP * MAX_ACCELERATION
    } else {
        REWIND_STEP * seconds_begun
    }
}

/// The time for which a key has been down at `now` that went down at
/// `start_time`.
pub open spec fn held_for(start_time: int, now: int) -> int {
    if now >= start_time {
        now - start_time
    } else {
        0
    }
}

/// `step`, with the sign of `direction`.
pub open spec fn directed(direction: Direction, step: int) -> int {
    match direction {
        Direction::Backward => -step,
        Direction::Forward => step,
    }
}

/// A pointer position, brought back onto the seek bar.
pub open spec fn on_bar(x: int) -> int {
    if x < 0 {
        0
    } else if x > BAR_WIDTH {
        BAR_WIDTH as int
    } else {
        x
    }
}

/// The state that follows `state` when `edge` arrives at `now`, and what is
/// asked of the player. An edge that means nothing in a state leaves it as it
/// is and asks nothing.
pub open spec fn next(state: RewindController, edge: InputEdge, now: Micros) -> (
    RewindController,
    SeekRequest,
) {
    match (state, edge) {
        (RewindController::Idle, InputEdge::RewindKeyDown { direction }) => (
            RewindController::HoldingKey { direction, start_time: now },
            SeekRequest::Nothing,
        ),
        (RewindController::Idle, InputEdge::PointerDown { x }) => (
            RewindController::ScrubbingBar { origin_x: on_bar(x as int) as u32 },
            SeekRequest::Nothing,
        ),
        (RewindController::HoldingKey { direction, start_time }, InputEdge::Tick) => (
            state,
            SeekRequest::Rewind {
                delta: directed(direction, hold_step(held_for(start_time as int, now as int))) as i64,
            },
        ),
        (RewindController::HoldingKey { .. }, InputEdge::RewindKeyUp) => (
            RewindController::Idle,
            SeekRequest::Nothing,
        ),
        (RewindController::ScrubbingBar { .. }, InputEdge::PointerMove { x }) => (
            state,
            SeekRequest::SetPercentage { millionths: on_bar(x as int) as u32 },
        ),
        (RewindController::ScrubbingBar { .. }, InputEdge::PointerUp) => (
            RewindController::Idle,
            SeekRequest::Nothing,
        ),
        _ => (state, SeekRequest::Nothing),
    }
}

/// How far one tick moves the position after the key has been held for
/// `held`, in milliseconds.
pub fn rewind_step(held: Micros) -> (step: i64)
    ensures
        step == hold_step(held as int),
        REWIND_STEP <= step <= REWIND_STEP * MAX_ACCELERATION,
{
    let seconds: u64 = held / 1_000_000;
    if seconds >= MAX_ACCELERATION {
        REWIND_STEP * 10
    } else {
        REWIND_STEP * (seconds as i64 + 1)
    }
}

/// A pointer position, brought back onto the seek bar.
pub fn clamp_to_bar(x: i64) -> (millionths: u32)
    ensures
        millionths == on_bar(x as int),
        millionths <= BAR_WIDTH,
{
    if x < 0 {
        0
    } else if x > BAR_WIDTH {
        1_000_000
    } else {
        x as u32
    }
}

impl RewindController {
    /// Whether the user holds the position: the playback does not run by
    /// itself then.
    pub fn is_rewinding(&self) -> (busy: bool)
        ensures
            busy == !(*self is Idle),
    {
        match self {
            RewindController::Idle => false,
            _ => true,
        }
    }

    /// The state that follows this one when `edge` arrives at `now`, and what
    /// is asked of the player.
    pub fn step(self, edge: InputEdge, now: Micros) -> (result: (RewindController, SeekRequest))
        ensures
            result == next(self, edge, now),
    {
        match self {
            RewindController::Idle => match edge {
                InputEdge::RewindKeyDown { direction } => (
                    RewindController::HoldingKey { direction, start_time: now },
                    SeekRequest::Nothing,
                ),
                InputEdge::PointerDown { x } => (
                    RewindController::ScrubbingBar { origin_x: clamp_to_bar(x) },
                    SeekRequest::Nothing,
                ),
                _ => (self, SeekRequest::Nothing),
            },
            RewindController::HoldingKey { direction, start_time } => match edge {
                InputEdge::Tick => {
                    let held: Micros = if now >= start_time { now - start_time } else { 0 };
                    let step: i64 = rewind_step(held);
                    let delta: i64 = match direction {
                        Direction::Backward => -step,
                        Direction::Forward => step,
                    };
                    (self, SeekRequest::Rewind { delta })
                },
                InputEdge::RewindKeyUp => (RewindController::Idle, SeekRequest::Nothing),
                _ => (self, SeekRequest::Nothing),
            },
            RewindController::ScrubbingBar { origin_x } => match edge {
                InputEdge::PointerMove { x } => (
                    self,
                    SeekRequest::SetPercentage { millionths: clamp_to_bar(x) },
                ),
                InputEdge::PointerUp => (RewindController::Idle, SeekRequest::Nothing),
                _ => (self, SeekRequest::Nothing),
            },
        }
    }
}

/// A key that has been held for more than a second moves the position
/// further with each tick than it did in its first fifth of a second.
pub proof fn lemma_hold_accelerates(early: Micros, late: Micros)
    requires
        early <= 200_000,
        late > 1_000_000,
    ensures
        hold_step(late as int) > hold_step(early as int),
        hold_step(early as int) == REWIND_STEP,
{
}

/// The longer a key is held, the further a tick moves the position, never
/// less.
pub proof fn lemma_hold_step_grows(shorter: Micros, longer: Micros)
    requires
        shorter <= longer,
    ensures
        hold_step(shorter as int) <= hold_step(longer as int),
{
    assert(shorter as int / 1_000_000 <= longer as int / 1_000_000);
}

/// While a rewind key is held, every tick asks for a move in the direction
/// of the key, and a tick after more than a second asks for a longer one than
/// a tick within the first fifth of a second.
pub proof fn lemma_ticks_accelerate(direction: Direction, start_time: Micros, early: Micros, late: Micros)
    requires
        held_for(start_time as int, early as int) <= 200_000,
        held_for(start_time as int, late as int) > 1_000_000,
    ensures
        ({
            let state = RewindController::HoldingKey { direction, start_time };
            let first = next(state, InputEdge::Tick, early);
            let second = next(state, InputEdge::Tick, late);
            &&& first.0 == state
            &&& second.0 == state
            &&& first.1 matches SeekRequest::Rewind { delta: short }
            &&& second.1 matches SeekRequest::Rewind { delta: long }
            &&& short == directed(direction, REWIND_STEP as int)
            &&& direction == Direction::Forward ==> long > short > 0
            &&& direction == Direction::Backward ==> long < short < 0
        }),
{
    lemma_hold_accelerates(
        held_for(start_time as int, early as int) as u64,
        held_for(start_time as int, late as int) as u64,
    );
}

} // verus!
