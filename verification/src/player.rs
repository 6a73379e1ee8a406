//! Players: the agents of a generation. Each owns a brain, falls under
//! gravity, decides once a tick whether to thrust, gathers fitness for as
//! long as it lives, and dies when it leaves the playfield or hits a pipe.
//!
//! What a tick does to one player is given by three spec functions,
//! `after_physics`, `after_jump` and `after_death`; the functions `physics`,
//! `jump` and `death` apply them to every player of a generation.

use vstd::prelude::*;
use crate::fixed::{minus, over, plus, saturate, scaled};
use crate::genetics::{seed_parameters, Brain};
use crate::network::{inference, reals};
use crate::pipe::{is_nearest, nearest_upcoming, none_upcoming, Pipe, PLAYER_LINE};

verus! {

/// The downward acceleration, per second squared.
pub const GRAVITY: i64 = 4_000_000_000_000;

/// The upward velocity that a thrust gives, per second.
pub const JUMP_VELOCITY: i64 = 1_400_000_000_000;

/// The upper edge of the playfield: a player at or above it dies.
pub const UPPER_BOUND: i64 = 350_000_000_000;

/// The lower edge of the playfield: a player at or below it dies.
pub const LOWER_BOUND: i64 = -350_000_000_000;

/// A pipe nearer than this to the players' line, ahead or behind, is level
/// with them.
pub const ALIGNMENT_TOLERANCE: i64 = 45_000_000_000;

/// A player nearer than this to the centre of a gap passes through it.
pub const GAP_TOLERANCE: i64 = 80_000_000_000;

/// The size of the first generation.
pub const INITIAL_POPULATION: usize = 1600;

/// One agent. `score` is its fitness: the time it has lived, in nanoseconds.
#[derive(Clone, Copy, Debug, PartialEq, Eq)]
pub struct Player {
    pub velocity: i64,
    pub is_dead: bool,
    pub position: i64,
    pub brain: Brain,
    pub score: u64,
}

impl Player {
    /// Whether the player is as every player is at the start of a
    /// generation: at height zero, at rest, alive, with no fitness yet.
    pub open spec fn is_neutral(self) -> bool {
        &&& self.position == 0
        &&& self.velocity == 0
        &&& self.score == 0
        &&& !self.is_dead
    }

    /// The player after `dt` nanoseconds of flight. Gravity changes the
    /// velocity, the new velocity changes the position, and the time is
    /// added to the fitness. A dead player does not change.
    pub open spec fn after_physics(self, dt: u64) -> Player {
        if self.is_dead {
            self
        } else {
            let velocity = saturate(self.velocity - saturate(scaled(GRAVITY as int, dt as int)));
            let position = saturate(self.position + saturate(scaled(velocity, dt as int)));
            let score = if self.score + dt > u64::MAX {
                u64::MAX as int
            } else {
                self.score + dt
            };
            Player {
                velocity: velocity as i64,
                position: position as i64,
                score: score as u64,
                ..self
            }
        }
    }

    /// What the player senses of a pipe: its own height and velocity, the
    /// distance to the pipe, and how far above it the centre of the gap is.
    pub open spec fn sensors(self, pipe: Pipe) -> Seq<int> {
        seq![
            self.position as int,
            self.velocity as int,
            saturate(pipe.distance()),
            saturate(pipe.height - self.position),
        ]
    }

    /// Whether the brain asks for thrust on seeing `pipe`: its first output
    /// exceeds its second.
    pub open spec fn wants_thrust(self, pipe: Pipe) -> bool {
        let outputs = inference(self.brain@, self.sensors(pipe));
        outputs[0] > outputs[1]
    }

    /// The player after its decision of this tick. With no pipe ahead it is
    /// put back to height zero at rest. With one, it thrusts if its brain
    /// says so, and is otherwise left to gravity. A dead player does not
    /// change.
    pub open spec fn after_jump(self, nearest: Option<Pipe>) -> Player {
        if self.is_dead {
            self
        } else {
            match nearest {
                None => Player { position: 0, velocity: 0, ..self },
                Some(pipe) => if self.wants_thrust(pipe) {
                    Player { velocity: JUMP_VELOCITY, ..self }
                } else {
                    self
                },
            }
        }
    }

    /// Whether the player is at or beyond an edge of the playfield.
    pub open spec fn out_of_bounds(self) -> bool {
        self.position >= UPPER_BOUND || self.position <= LOWER_BOUND
    }

    /// Whether the player runs into `pipe`: the pipe is level with it, and
    /// it is not within the gap.
    pub open spec fn hits(self, pipe: Pipe) -> bool {
        &&& -ALIGNMENT_TOLERANCE < pipe.distance() < ALIGNMENT_TOLERANCE
        &&& !(-GAP_TOLERANCE < pipe.height - self.position < GAP_TOLERANCE)
    }

    /// Whether the player hits one of the first `n` pipes.
    pub open spec fn hits_any(self, pipes: Seq<Pipe>, n: int) -> bool {
        exists|j: int| 0 <= j < n && #[trigger] self.hits(pipes[j])
    }

    /// Whether this tick ends the player's life.
    pub open spec fn doomed(self, pipes: Seq<Pipe>) -> bool {
        self.out_of_bounds() || self.hits_any(pipes, pipes.len() as int)
    }

    /// The player after the check for collisions. Death is final: a dead
    /// player stays dead.
    pub open spec fn after_death(self, pipes: Seq<Pipe>) -> Player {
        Player { is_dead: self.is_dead || self.doomed(pipes), ..self }
    }

    /// A player at the start of its life.
    pub fn new(brain: Brain) -> (player: Player)
        ensures
            player.is_neutral(),
            player.brain == brain,
    {
        Player { velocity: 0, is_dead: false, position: 0, brain, score: 0 }
    }

    /// Lets `dt` nanoseconds pass.
    pub fn advance(&mut self, dt: u64)
        ensures
            *final(self) == old(self).after_physics(dt),
            final(self).score >= old(self).score,
            final(self).brain == old(self).brain,
            final(self).is_dead == old(self).is_dead,
    {
        if self.is_dead {
            return;
        }
        self.velocity = minus(self.velocity, over(GRAVITY, dt));
        self.position = plus(self.position, over(self.velocity, dt));
        self.score = self.score.saturating_add(dt);
    }

    /// Makes the decision of this tick, given the nearest upcoming pipe.
    pub fn decide(&mut self, nearest: Option<Pipe>)
        ensures
            *final(self) == old(self).after_jump(nearest),
            final(self).score == old(self).score,
            final(self).brain == old(self).brain,
            final(self).is_dead == old(self).is_dead,
            nearest is None && !old(self).is_dead ==> final(self).position == 0,
            nearest is None && !old(self).is_dead ==> final(self).velocity == 0,
    {
        if self.is_dead {
            return;
        }
        match nearest {
            None => {
                self.position = 0;
                self.velocity = 0;
            },
            Some(pipe) => {
                let inputs: [i64; 4] = [
                    self.position,
                    self.velocity,
                    pipe.distance_ahead(),
                    minus(pipe.height, self.position),
                ];
                let outputs = self.brain.think(inputs);
                assert(reals(inputs@) =~= self.sensors(pipe));
                if outputs[0] > outputs[1] {
                    self.velocity = JUMP_VELOCITY;
                }
            },
        }
    }

    /// Checks whether the player has left the playfield or hit a pipe.
    pub fn collide(&mut self, pipes: &[Pipe])
        ensures
            *final(self) == old(self).after_death(pipes@),
            final(self).score == old(self).score,
            final(self).brain == old(self).brain,
            old(self).is_dead ==> final(self).is_dead,
    {
        if self.position >= UPPER_BOUND || self.position <= LOWER_BOUND {
            self.is_dead = true;
            return;
        }
        let mut hit = false;
        let mut k: usize = 0;
        while k < pipes.len()
            invariant
                0 <= k <= pipes@.len(),
                *self == *old(self),
                hit == self.hits_any(pipes@, k as int),
            decreases pipes@.len() - k,
        {
            let pipe = pipes[k];
            let distance: i128 = (pipe.position as i128) - (PLAYER_LINE as i128);
            let reach: i128 = ALIGNMENT_TOLERANCE as i128;
            let level = -reach < distance && distance < reach;
            let offset: i128 = (pipe.height as i128) - (self.position as i128);
            let room: i128 = GAP_TOLERANCE as i128;
            let clear = -room < offset && offset < room;
            assert((level && !clear) == self.hits(pipes@[k as int]));
            if level && !clear {
                hit = true;
            }
            k = k + 1;
        }
        if hit {
            self.is_dead = true;
        }
    }
}

/// The pipe that the players will meet next, if any lies ahead.
pub open spec fn nearest_pipe(pipes: Seq<Pipe>) -> Option<Pipe> {
    if none_upcoming(pipes) {
        None
    } else {
        Some(pipes[choose|i: int| is_nearest(pipes, i)])
    }
}

/// Whether every player of the sequence is dead.
pub open spec fn all_dead(players: Seq<Player>) -> bool {
    forall|i: int| 0 <= i < players.len() ==> (#[trigger] players[i]).is_dead
}

/// `count` players at the start of their lives, each with the seed brain.
pub fn spawn(count: usize) -> (players: Vec<Player>)
    ensures
        players@.len() == count,
        forall|i: int|
            0 <= i < count ==> (#[trigger] players@[i]).is_neutral() && players@[i].brain@
                == seed_parameters(),
{
    let mut players: Vec<Player> = Vec::new();
    let mut k: usize = 0;
    while k < count
        invariant
            0 <= k <= count,
            players@.len() == k,
            forall|i: int|
                0 <= i < k ==> (#[trigger] players@[i]).is_neutral() && players@[i].brain@
                    == seed_parameters(),
        decreases count - k,
    {
        players.push(Player::new(Brain::new()));
        k = k + 1;
    }
    players
}

/// Lets `dt` nanoseconds pass for every player. The living fall and gather
/// fitness; the dead stay as they are.
pub fn physics(players: &mut Vec<Player>, dt: u64)
    ensures
        final(players)@ == old(players)@.map_values(|p: Player| p.after_physics(dt)),
{
    let n = players.len();
    let mut k: usize = 0;
    while k < n
        invariant
            0 <= k <= n,
            players@.len() == n,
            n == old(players)@.len(),
            forall|i: int|
                0 <= i < k ==> #[trigger] players@[i] == old(players)@[i].after_physics(dt),
            forall|i: int| k <= i < n ==> #[trigger] players@[i] == old(players)@[i],
        decreases n - k,
    {
        players[k].advance(dt);
        k = k + 1;
    }
}

/// Lets every living player make its decision: thrust or not, on sight of
/// the nearest upcoming pipe; with no pipe ahead, back to height zero at
/// rest.
pub fn jump(players: &mut Vec<Player>, pipes: &[Pipe])
    ensures
        final(players)@ == old(players)@.map_values(
            |p: Player| p.after_jump(nearest_pipe(pipes@)),
        ),
{
    let nearest: Option<Pipe> = match nearest_upcoming(pipes) {
        Some(i) => Some(pipes[i]),
        None => None,
    };
    let n = players.len();
    let mut k: usize = 0;
    while k < n
        invariant
            0 <= k <= n,
            players@.len() == n,
            n == old(players)@.len(),
            forall|i: int|
                0 <= i < k ==> #[trigger] players@[i] == old(players)@[i].after_jump(nearest),
            forall|i: int| k <= i < n ==> #[trigger] players@[i] == old(players)@[i],
        decreases n - k,
    {
        players[k].decide(nearest);
        k = k + 1;
    }
}

/// Marks as dead every player that has left the playfield or hit a pipe.
pub fn death(players: &mut Vec<Player>, pipes: &[Pipe])
    ensures
        final(players)@ == old(players)@.map_values(|p: Player| p.after_death(pipes@)),
{
    let n = players.len();
    let mut k: usize = 0;
    while k < n
        invariant
            0 <= k <= n,
            players@.len() == n,
            n == old(players)@.len(),
            forall|i: int|
                0 <= i < k ==> #[trigger] players@[i] == old(players)@[i].after_death(pipes@),
            forall|i: int| k <= i < n ==> #[trigger] players@[i] == old(players)@[i],
        decreases n - k,
    {
        players[k].collide(pipes);
        k = k + 1;
    }
}

/// Fitness never falls, whatever a tick does to a player, and the fitness
/// of a dead player never changes.
pub proof fn lemma_fitness_monotone(
    player: Player,
    dt: u64,
    nearest: Option<Pipe>,
    pipes: Seq<Pipe>,
)
    ensures
        player.after_physics(dt).score >= player.score,
        player.after_jump(nearest).score == player.score,
        player.after_death(pipes).score == player.score,
        player.is_dead ==> player.after_physics(dt) == player,
        player.is_dead ==> player.after_jump(nearest) == player,
        player.is_dead ==> player.after_death(pipes) == player,
{
}

} // verus!
