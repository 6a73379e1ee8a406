//! Generations: when every player has died, the best of them found the next
//! generation.
//!
//! The players are ranked by fitness, highest first; of two with the same
//! fitness the one that stands earlier ranks higher. The next generation then
//! holds, in this order: the mutated offspring of each elite, elite by elite
//! in rank order; a number of players with fresh random brains; unmutated
//! copies of the brains that rank directly below the best; and last an
//! unmutated copy of the best brain.

use vstd::prelude::*;
use crate::genetics::{in_unit_range, within_step, Brain, MUTATION_STEP};
use crate::pipe::Pipe;
use crate::player::{all_dead, death, jump, nearest_pipe, physics, Player};

verus! {

/// How many of the best players have offspring, unless the settings say
/// otherwise.
pub const ELITE_COUNT: usize = 80;

/// How many offspring each elite has.
pub const OFFSPRING_PER_ELITE: usize = 20;

/// How many players of a new generation get a fresh random brain.
pub const FRESH_COUNT: usize = 100;

/// How many brains below the best are carried forward unchanged.
pub const CARRY_FORWARD: usize = 39;

/// The numbers that shape a new generation.
#[derive(Clone, Copy, Debug, PartialEq, Eq)]
pub struct Settings {
    /// How many of the best players have offspring.
    pub elite_count: usize,
    /// How many offspring each of them has.
    pub offspring_per_elite: usize,
    /// How many players get a fresh random brain.
    pub fresh_count: usize,
    /// How many brains below the best are carried forward unchanged.
    pub carry_forward: usize,
    /// The range of the perturbation of each parameter of an offspring.
    pub mutation_step: u32,
}

impl Settings {
    /// How many elites a population of the given size yields: no more than
    /// it has players.
    pub open spec fn elites(self, population: int) -> int {
        if population < self.elite_count {
            population
        } else {
            self.elite_count as int
        }
    }

    /// How many brains below the best a population of the given size can
    /// carry forward: no more than it has players below the best.
    pub open spec fn carried(self, population: int) -> int {
        if population <= 0 {
            0
        } else if population - 1 < self.carry_forward {
            population - 1
        } else {
            self.carry_forward as int
        }
    }

    /// The size of the generation that follows one of the given size.
    pub open spec fn generation_size(self, population: int) -> int {
        self.elites(population) * self.offspring_per_elite + self.fresh_count + self.carried(
            population,
        ) + 1
    }

    /// The settings named by the constants of this module, with
    /// `MUTATION_STEP`.
    pub fn standard() -> (settings: Settings)
        ensures
            settings == (Settings {
                elite_count: ELITE_COUNT,
                offspring_per_elite: OFFSPRING_PER_ELITE,
                fresh_count: FRESH_COUNT,
                carry_forward: CARRY_FORWARD,
                mutation_step: MUTATION_STEP,
            }),
    {
        Settings {
            elite_count: ELITE_COUNT,
            offspring_per_elite: OFFSPRING_PER_ELITE,
            fresh_count: FRESH_COUNT,
            carry_forward: CARRY_FORWARD,
            mutation_step: MUTATION_STEP,
        }
    }
}

/// The fitness of each player, in the order of the players.
pub open spec fn scores(players: Seq<Player>) -> Seq<u64> {
    players.map_values(|p: Player| p.score)
}

/// Whether player `a` ranks above player `b`: it has the higher fitness, or
/// the same and stands earlier.
pub open spec fn precedes(scores: Seq<u64>, a: int, b: int) -> bool {
    scores[a] > scores[b] || (scores[a] == scores[b] && a < b)
}

/// Whether player `a` has a rank in `order`.
pub open spec fn occurs(order: Seq<usize>, a: int) -> bool {
    exists|i: int| 0 <= i < order.len() && #[trigger] order[i] == a
}

/// Whether `order` lists the players by rank: every player once, each
/// ranking above all that follow it.
pub open spec fn is_ranking(order: Seq<usize>, scores: Seq<u64>) -> bool {
    &&& order.len() == scores.len()
    &&& forall|i: int| 0 <= i < order.len() ==> 0 <= #[trigger] order[i] < scores.len()
    &&& forall|i: int, j: int|
        0 <= i < j < order.len() ==> precedes(
            scores,
            #[trigger] order[i] as int,
            #[trigger] order[j] as int,
        )
    &&& forall|a: int| 0 <= a < scores.len() ==> #[trigger] occurs(order, a)
}

/// The players by rank, best first.
pub open spec fn ranking(scores: Seq<u64>) -> Seq<usize> {
    choose|order: Seq<usize>| is_ranking(order, scores)
}

/// Two rankings of the same players agree up to place `i`.
proof fn lemma_rankings_agree(a: Seq<usize>, b: Seq<usize>, scores: Seq<u64>, i: int)
    requires
        is_ranking(a, scores),
        is_ranking(b, scores),
        0 <= i < scores.len(),
    ensures
        forall|j: int| 0 <= j <= i ==> a[j] == b[j],
    decreases i,
{
    if i > 0 {
        lemma_rankings_agree(a, b, scores, i - 1);
    }
    if a[i] != b[i] {
        // What stands at place `i` of one ranking stands further on in the
        // other, behind what stands at place `i` there: each of the two would
        // rank above the other.
        assert(occurs(b, a[i] as int));
        let q = choose|q: int| 0 <= q < b.len() && #[trigger] b[q] == a[i] as int;
        assert(q > i);
        assert(occurs(a, b[i] as int));
        let p = choose|p: int| 0 <= p < a.len() && #[trigger] a[p] == b[i] as int;
        assert(p > i);
    }
}

/// The players have one ranking only: ties are broken by the order in which
/// the players stand, so nothing is left open.
pub proof fn lemma_ranking_unique(a: Seq<usize>, b: Seq<usize>, scores: Seq<u64>)
    requires
        is_ranking(a, scores),
        is_ranking(b, scores),
    ensures
        a == b,
{
    if scores.len() > 0 {
        lemma_rankings_agree(a, b, scores, scores.len() - 1);
    }
}

/// The first of a ranking is a fittest player: none has lived longer.
pub proof fn lemma_best_first(order: Seq<usize>, scores: Seq<u64>, a: int)
    requires
        is_ranking(order, scores),
        0 <= a < scores.len(),
    ensures
        scores[order[0] as int] >= scores[a],
{
    assert(occurs(order, a));
    let i = choose|i: int| 0 <= i < order.len() && #[trigger] order[i] == a;
    if i > 0 {
        assert(precedes(scores, order[0] as int, order[i] as int));
    }
}

/// Ranks the players by fitness, highest first; players of equal fitness
/// keep the order in which they stand.
pub fn rank(players: &[Player]) -> (order: Vec<usize>)
    ensures
        is_ranking(order@, scores(players@)),
        order@ == ranking(scores(players@)),
{
    let n = players.len();
    let ghost sc = scores(players@);
    let mut order: Vec<usize> = Vec::new();
    let mut k: usize = 0;
    while k < n
        invariant
            0 <= k <= n,
            n == players@.len(),
            sc == scores(players@),
            order@.len() == k,
            forall|i: int| 0 <= i < k ==> 0 <= #[trigger] order@[i] < k,
            forall|i: int, j: int|
                0 <= i < j < k ==> precedes(
                    sc,
                    #[trigger] order@[i] as int,
                    #[trigger] order@[j] as int,
                ),
            forall|a: int| 0 <= a < k ==> #[trigger] occurs(order@, a),
        decreases n - k,
    {
        let score = players[k].score;
        let mut at: usize = k;
        while at > 0 && players[order[at - 1]].score < score
            invariant
                0 <= at <= k,
                k < n,
                n == players@.len(),
                sc == scores(players@),
                score == sc[k as int],
                order@.len() == k,
                forall|i: int| 0 <= i < k ==> 0 <= #[trigger] order@[i] < k,
                forall|j: int| at <= j < k ==> sc[(#[trigger] order@[j]) as int] < score,
            decreases at,
        {
            at = at - 1;
        }
        let ghost before = order@;
        order.insert(at, k);
        proof {
            before.insert_ensures(at as int, k);
            let after = order@;
            assert forall|a: int| 0 <= a < k + 1 implies #[trigger] occurs(after, a) by {
                if a == k {
                    assert(after[at as int] == a);
                } else {
                    assert(occurs(before, a));
                    let w = choose|w: int| 0 <= w < before.len() && #[trigger] before[w] == a;
                    if w < at {
                        assert(after[w] == a);
                    } else {
                        assert(after[w + 1] == a);
                    }
                }
            }
        }
        k = k + 1;
    }
    proof {
        lemma_ranking_unique(order@, ranking(sc), sc);
    }
    order
}

/// Whether every player is dead.
pub fn every_dead(players: &[Player]) -> (dead: bool)
    ensures
        dead == all_dead(players@),
{
    let mut k: usize = 0;
    while k < players.len()
        invariant
            0 <= k <= players@.len(),
            forall|i: int| 0 <= i < k ==> (#[trigger] players@[i]).is_dead,
        decreases players@.len() - k,
    {
        if !players[k].is_dead {
            return false;
        }
        k = k + 1;
    }
    true
}

/// The place in the new generation of offspring number `child` of the elite
/// of the given rank.
pub open spec fn child_slot(rank: int, child: int, per_elite: int) -> int {
    rank * per_elite + child
}

/// Whether `next` is a generation that `previous` can have, given the
/// ranking `order` of `previous`:
/// every player is in its neutral state; the offspring of each elite stand
/// first, elite by elite, each within the mutation step of its parent; then
/// come the fresh brains, each parameter between minus one and one; then the
/// copies of the brains of rank 1, 2, and so on; and last the copy of the
/// brain of rank 0. Every brain that was made anew is well formed.
pub open spec fn descends(
    next: Seq<Player>,
    previous: Seq<Player>,
    order: Seq<usize>,
    settings: Settings,
) -> bool {
    let population = previous.len() as int;
    let elites = settings.elites(population);
    let per_elite = settings.offspring_per_elite as int;
    let fresh_at = elites * per_elite;
    let carried_at = fresh_at + settings.fresh_count;
    let top_at = carried_at + settings.carried(population);
    &&& next.len() == settings.generation_size(population)
    &&& next.len() == top_at + 1
    &&& forall|i: int| 0 <= i < next.len() ==> (#[trigger] next[i]).is_neutral()
    &&& forall|i: int| 0 <= i < carried_at ==> (#[trigger] next[i]).brain.wf()
    &&& forall|rank: int, child: int|
        0 <= rank < elites && 0 <= child < per_elite ==> within_step(
            (#[trigger] next[child_slot(rank, child, per_elite)]).brain@,
            previous[order[rank] as int].brain@,
            settings.mutation_step as int,
        )
    &&& forall|i: int| fresh_at <= i < carried_at ==> in_unit_range((#[trigger] next[i]).brain@)
    &&& forall|i: int|
        carried_at <= i < top_at ==> (#[trigger] next[i]).brain == previous[order[i - carried_at
            + 1] as int].brain
    &&& next[top_at].brain == previous[order[0] as int].brain
}

/// A generation whose every player has a rank as an elite and a place in
/// the band below the best is followed by one of
/// `elite_count * offspring_per_elite + fresh_count + carry_forward + 1`
/// players.
pub proof fn lemma_generation_size(settings: Settings, population: int)
    requires
        population >= settings.elite_count,
        population > settings.carry_forward,
    ensures
        settings.generation_size(population) == settings.elite_count
            * settings.offspring_per_elite + settings.fresh_count + settings.carry_forward + 1,
{
}

/// Ends the generation if it is over. While a player lives, and when there
/// are no players at all, nothing happens. Once every player is dead the
/// players are replaced by the next generation and the course is cleared of
/// pipes.
pub fn game_over(
    players: &mut Vec<Player>,
    pipes: &mut Vec<Pipe>,
    settings: &Settings,
) -> (fired: bool)
    ensures
        fired <==> old(players)@.len() > 0 && all_dead(old(players)@),
        !fired ==> final(players)@ == old(players)@ && final(pipes)@ == old(pipes)@,
        fired ==> final(pipes)@.len() == 0 && descends(
            final(players)@,
            old(players)@,
            ranking(scores(old(players)@)),
            *settings,
        ),
{
    let population = players.len();
    if population == 0 || !every_dead(players.as_slice()) {
        return false;
    }
    let order = rank(players.as_slice());
    let next = next_generation(players.as_slice(), &order, settings);
    *players = next;
    pipes.clear();
    true
}

/// The players after the physics, the decisions and the collisions of one
/// tick of `dt` nanoseconds among `pipes`.
pub open spec fn after_tick(players: Seq<Player>, pipes: Seq<Pipe>, dt: u64) -> Seq<Player> {
    players.map_values(
        |p: Player| p.after_physics(dt).after_jump(nearest_pipe(pipes)).after_death(pipes),
    )
}

/// One tick of the simulation. Every player flies for `dt` nanoseconds,
/// makes its decision and is checked for collisions, in this order; only
/// then, with every player's fate known, is the generation ended if it is
/// over. Returns whether it was.
pub fn tick(
    players: &mut Vec<Player>,
    pipes: &mut Vec<Pipe>,
    dt: u64,
    settings: &Settings,
) -> (ended: bool)
    ensures
        ended <==> old(players)@.len() > 0 && all_dead(after_tick(old(players)@, old(pipes)@, dt)),
        !ended ==> final(players)@ == after_tick(old(players)@, old(pipes)@, dt) && final(pipes)@
            == old(pipes)@,
        ended ==> final(pipes)@.len() == 0 && descends(
            final(players)@,
            after_tick(old(players)@, old(pipes)@, dt),
            ranking(scores(after_tick(old(players)@, old(pipes)@, dt))),
            *settings,
        ),
{
    physics(players, dt);
    jump(players, pipes.as_slice());
    death(players, pipes.as_slice());
    assert(players@ =~= after_tick(old(players)@, old(pipes)@, dt));
    game_over(players, pipes, settings)
}

/// Builds the generation that follows `players`, whose ranking is `order`.
fn next_generation(players: &[Player], order: &Vec<usize>, settings: &Settings) -> (next: Vec<
    Player,
>)
    requires
        players@.len() > 0,
        is_ranking(order@, scores(players@)),
    ensures
        descends(next@, players@, order@, *settings),
{
    let population = players.len();
    let elites = if population < settings.elite_count {
        population
    } else {
        settings.elite_count
    };
    let carried = if population - 1 < settings.carry_forward {
        population - 1
    } else {
        settings.carry_forward
    };
    let per_elite = settings.offspring_per_elite;
    let step = settings.mutation_step;
    let ghost previous = players@;
    let mut next: Vec<Player> = Vec::new();
    let mut rank: usize = 0;
    while rank < elites
        invariant
            0 <= rank <= elites <= population,
            population == players@.len(),
            previous == players@,
            is_ranking(order@, scores(previous)),
            next@.len() == rank * per_elite,
            forall|i: int| 0 <= i < next@.len() ==> (#[trigger] next@[i]).is_neutral(),
            forall|i: int| 0 <= i < next@.len() ==> (#[trigger] next@[i]).brain.wf(),
            forall|r: int, c: int|
                0 <= r < rank && 0 <= c < per_elite ==> within_step(
                    (#[trigger] next@[child_slot(r, c, per_elite as int)]).brain@,
                    previous[order@[r] as int].brain@,
                    step as int,
                ),
        decreases elites - rank,
    {
        let parent = players[order[rank]].brain;
        let children = parent.reproduce(per_elite, step);
        let ghost base = next@;
        let mut child: usize = 0;
        while child < per_elite
            invariant
                0 <= child <= per_elite,
                children@.len() == per_elite,
                forall|k: int|
                    0 <= k < per_elite ==> (#[trigger] children@[k]).wf() && within_step(
                        children@[k]@,
                        parent@,
                        step as int,
                    ),
                base.len() == rank * per_elite,
                next@.len() == base.len() + child,
                forall|i: int| 0 <= i < base.len() ==> #[trigger] next@[i] == base[i],
                forall|i: int| 0 <= i < next@.len() ==> (#[trigger] next@[i]).is_neutral(),
                forall|i: int| 0 <= i < next@.len() ==> (#[trigger] next@[i]).brain.wf(),
                forall|c: int|
                    0 <= c < child ==> within_step(
                        (#[trigger] next@[base.len() + c]).brain@,
                        parent@,
                        step as int,
                    ),
            decreases per_elite - child,
        {
            next.push(Player::new(children[child]));
            child = child + 1;
        }
        proof {
            assert((rank + 1) * per_elite == rank * per_elite + per_elite) by (nonlinear_arith);
            assert forall|r: int, c: int|
                0 <= r < rank + 1 && 0 <= c < per_elite implies within_step(
                (#[trigger] next@[child_slot(r, c, per_elite as int)]).brain@,
                previous[order@[r] as int].brain@,
                step as int,
            ) by {
                if r < rank {
                    assert(0 <= r * per_elite + c < rank * per_elite) by (nonlinear_arith)
                        requires
                            0 <= r < rank,
                            0 <= c < per_elite,
                    ;
                    assert(next@[child_slot(r, c, per_elite as int)] == base[child_slot(
                        r,
                        c,
                        per_elite as int,
                    )]);
                } else {
                    assert(child_slot(r, c, per_elite as int) == base.len() + c);
                }
            }
        }
        rank = rank + 1;
    }
    let ghost offspring = next@;
    let mut fresh: usize = 0;
    while fresh < settings.fresh_count
        invariant
            0 <= fresh <= settings.fresh_count,
            next@.len() == offspring.len() + fresh,
            forall|i: int| 0 <= i < offspring.len() ==> #[trigger] next@[i] == offspring[i],
            forall|i: int| 0 <= i < next@.len() ==> (#[trigger] next@[i]).is_neutral(),
            forall|i: int| 0 <= i < next@.len() ==> (#[trigger] next@[i]).brain.wf(),
            forall|i: int|
                offspring.len() <= i < next@.len() ==> in_unit_range((#[trigger] next@[i]).brain@),
        decreases settings.fresh_count - fresh,
    {
        next.push(Player::new(Brain::random()));
        fresh = fresh + 1;
    }
    let ghost seeded = next@;
    let mut below: usize = 0;
    while below < carried
        invariant
            0 <= below <= carried < population,
            population == players@.len(),
            previous == players@,
            is_ranking(order@, scores(previous)),
            next@.len() == seeded.len() + below,
            forall|i: int| 0 <= i < seeded.len() ==> #[trigger] next@[i] == seeded[i],
            forall|i: int| 0 <= i < next@.len() ==> (#[trigger] next@[i]).is_neutral(),
            forall|i: int|
                seeded.len() <= i < next@.len() ==> (#[trigger] next@[i]).brain
                    == previous[order@[i - seeded.len() + 1] as int].brain,
        decreases carried - below,
    {
        next.push(carry(players, order[below + 1]));
        below = below + 1;
    }
    next.push(carry(players, order[0]));
    proof {
        let per = per_elite as int;
        assert forall|r: int, c: int| 0 <= r < elites && 0 <= c < per implies within_step(
            (#[trigger] next@[child_slot(r, c, per)]).brain@,
            previous[order@[r] as int].brain@,
            step as int,
        ) by {
            assert(0 <= r * per + c < elites * per) by (nonlinear_arith)
                requires
                    0 <= r < elites,
                    0 <= c < per,
            ;
        }
    }
    next
}

/// A player at the start of its life with the brain of player `i`.
fn carry(players: &[Player], i: usize) -> (player: Player)
    requires
        i < players@.len(),
    ensures
        player.is_neutral(),
        player.brain == players@[i as int].brain,
{
    Player::new(players[i].brain)
}

} // verus!
