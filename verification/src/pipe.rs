//! Obstacles: pipes that move towards the players, each with a gap to pass
//! through.
//!
//! A pipe appears far ahead at a height that chance decides, one every
//! `PIPE_SPAWN_INTERVAL`, and moves towards the players at `PIPE_SPEED`. The
//! players look at the nearest pipe that still lies ahead.

use vstd::prelude::*;
use crate::chance::{draw, fraction, FRACTIONS};
use crate::fixed::{minus, narrow, over, saturate, scaled};

verus! {

/// The horizontal position at which every player flies.
pub const PLAYER_LINE: i64 = -500_000_000_000;

/// The speed at which the pipes move towards the players, per second.
pub const PIPE_SPEED: i64 = 400_000_000_000;

/// The lowest centre of a gap.
pub const PIPE_HEIGHT_MIN: i64 = -250_000_000_000;

/// The centres of the gaps lie below this height.
pub const PIPE_HEIGHT_MAX: i64 = 250_000_000_000;

/// The time between two pipes, in nanoseconds.
pub const PIPE_SPAWN_INTERVAL: i64 = 2_000_000_000;

/// The horizontal position at which a pipe appears.
pub const PIPE_SPAWN_POSITION: i64 = 1_500_000_000_000;

/// A pipe: the height of the centre of its gap, and its horizontal position.
#[derive(Clone, Copy, Debug, PartialEq, Eq)]
pub struct Pipe {
    pub height: i64,
    pub position: i64,
}

impl Pipe {
    /// How far ahead of the players the pipe is; negative once it has been
    /// passed.
    pub open spec fn distance(&self) -> int {
        self.position - PLAYER_LINE
    }

    /// Whether the pipe still lies ahead of the players, or level with them.
    pub open spec fn upcoming(&self) -> bool {
        self.distance() >= 0
    }

    /// The pipe after `dt` nanoseconds: nearer to the players by what
    /// `PIPE_SPEED` amounts to.
    pub open spec fn after_move(self, dt: u64) -> Pipe {
        let moved = saturate(scaled(PIPE_SPEED as int, dt as int));
        Pipe { position: saturate(self.position - moved) as i64, ..self }
    }

    /// The pipe that a draw stands for: at the spawn position, its gap at
    /// the point of `[PIPE_HEIGHT_MIN, PIPE_HEIGHT_MAX)` that the draw marks.
    pub open spec fn drawn(draw: u32) -> Pipe {
        Pipe {
            height: (PIPE_HEIGHT_MIN + (fraction(draw) * (PIPE_HEIGHT_MAX - PIPE_HEIGHT_MIN)) / (
            FRACTIONS as int)) as i64,
            position: PIPE_SPAWN_POSITION,
        }
    }

    /// The distance of the pipe from the players, negative once it has been
    /// passed.
    pub fn distance_ahead(&self) -> (d: i64)
        ensures
            d == saturate(self.distance()),
    {
        minus(self.position, PLAYER_LINE)
    }

    /// Moves the pipe towards the players for `dt` nanoseconds.
    pub fn advance(&mut self, dt: u64)
        ensures
            *final(self) == old(self).after_move(dt),
    {
        self.position = minus(self.position, over(PIPE_SPEED, dt));
    }

    /// The pipe that a draw stands for.
    pub fn from_draw(draw: u32) -> (pipe: Pipe)
        ensures
            pipe == Pipe::drawn(draw),
            pipe.position == PIPE_SPAWN_POSITION,
            PIPE_HEIGHT_MIN <= pipe.height < PIPE_HEIGHT_MAX,
    {
        let f: i64 = (draw / 256) as i64;
        let span: i64 = PIPE_HEIGHT_MAX - PIPE_HEIGHT_MIN;
        assert(0 <= f * span <= 0x100_0000 * 500_000_000_000 && (f * span) / 0x100_0000
            < 500_000_000_000) by (nonlinear_arith)
            requires
                0 <= f < 0x100_0000,
                span == 500_000_000_000,
        ;
        Pipe { height: PIPE_HEIGHT_MIN + (f * span) / FRACTIONS, position: PIPE_SPAWN_POSITION }
    }
}

/// The time that is left until the next pipe, once `dt` nanoseconds have
/// passed.
pub open spec fn countdown_after(countdown: i64, dt: u64) -> int {
    saturate(countdown - dt)
}

/// Lets `dt` nanoseconds pass on the countdown to the next pipe. When the
/// countdown has run out, a new pipe is made, at a height that chance
/// decides, and the countdown starts again at `PIPE_SPAWN_INTERVAL`.
pub fn spawn(countdown: &mut i64, dt: u64) -> (made: Option<Pipe>)
    ensures
        made is Some <==> countdown_after(*old(countdown), dt) <= 0,
        made is None ==> *final(countdown) == countdown_after(*old(countdown), dt),
        made matches Some(pipe) ==> {
            &&& *final(countdown) == PIPE_SPAWN_INTERVAL
            &&& pipe.position == PIPE_SPAWN_POSITION
            &&& PIPE_HEIGHT_MIN <= pipe.height < PIPE_HEIGHT_MAX
        },
{
    let left = narrow((*countdown as i128) - (dt as i128));
    if left <= 0 {
        *countdown = PIPE_SPAWN_INTERVAL;
        Some(Pipe::from_draw(draw()))
    } else {
        *countdown = left;
        None
    }
}

/// Moves every pipe towards the players for `dt` nanoseconds.
pub fn move_pipes(pipes: &mut Vec<Pipe>, dt: u64)
    ensures
        final(pipes)@ == old(pipes)@.map_values(|p: Pipe| p.after_move(dt)),
{
    let n = pipes.len();
    let mut k: usize = 0;
    while k < n
        invariant
            0 <= k <= n,
            pipes@.len() == n,
            n == old(pipes)@.len(),
            forall|i: int| 0 <= i < k ==> #[trigger] pipes@[i] == old(pipes)@[i].after_move(dt),
            forall|i: int| k <= i < n ==> #[trigger] pipes@[i] == old(pipes)@[i],
        decreases n - k,
    {
        pipes[k].advance(dt);
        k = k + 1;
    }
}

/// Whether pipe `i` is the nearest of the upcoming pipes: it lies ahead, no
/// upcoming pipe is nearer, and none that is just as near stands before it.
pub open spec fn is_nearest(pipes: Seq<Pipe>, i: int) -> bool {
    &&& 0 <= i < pipes.len()
    &&& pipes[i].upcoming()
    &&& forall|j: int|
        0 <= j < pipes.len() && (#[trigger] pipes[j]).upcoming() ==> pipes[i].distance()
            <= pipes[j].distance()
    &&& forall|j: int|
        0 <= j < i && (#[trigger] pipes[j]).upcoming() ==> pipes[i].distance()
            < pipes[j].distance()
}

/// At most one pipe is the nearest of the upcoming pipes.
pub proof fn lemma_nearest_unique(pipes: Seq<Pipe>, i: int, j: int)
    requires
        is_nearest(pipes, i),
        is_nearest(pipes, j),
    ensures
        i == j,
{
}

/// Whether no pipe lies ahead.
pub open spec fn none_upcoming(pipes: Seq<Pipe>) -> bool {
    forall|j: int| 0 <= j < pipes.len() ==> !(#[trigger] pipes[j]).upcoming()
}

/// The nearest upcoming pipe, if any pipe lies ahead. Pipes that have been
/// passed are ignored.
pub fn nearest_upcoming(pipes: &[Pipe]) -> (found: Option<usize>)
    ensures
        match found {
            Some(i) => is_nearest(pipes@, i as int),
            None => none_upcoming(pipes@),
        },
{
    let mut found: Option<usize> = None;
    let mut k: usize = 0;
    while k < pipes.len()
        invariant
            0 <= k <= pipes@.len(),
            match found {
                Some(i) => i < k && is_nearest(pipes@.take(k as int), i as int),
                None => none_upcoming(pipes@.take(k as int)),
            },
        decreases pipes@.len() - k,
    {
        let here = pipes[k].position;
        if here >= PLAYER_LINE {
            match found {
                Some(i) => {
                    if here < pipes[i].position {
                        found = Some(k);
                    }
                },
                None => {
                    found = Some(k);
                },
            }
        }
        k = k + 1;
    }
    assert(pipes@.take(k as int) =~= pipes@);
    found
}

} // verus!
