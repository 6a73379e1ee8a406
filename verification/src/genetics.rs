//! The brain: a feed-forward network of fixed shape, four inputs, eight
//! hidden units and two outputs, with a bias on every unit and the logistic
//! sigmoid as its activation.
//!
//! A brain is made in one of three ways: as the seed brain, whose parameters
//! are written down here; at random, every parameter drawn from `[-1, 1)`;
//! or as the child of another brain, every parameter moved by a draw from
//! `[-step, step)`. Only the values of the parameters ever differ between
//! brains; the shape does not.

use vstd::prelude::*;
use crate::activation::{logistic, logistic_of};
use crate::chance::{draw, lemma_spread_bounds, spread, spread_of};
use crate::description::{
    append_row, append_rows, description, lemma_row_text_agrees, lemma_rows_text_agrees,
};
use crate::fixed::ONE;
use crate::network::{
    hidden_layer, hidden_unit, inference, lemma_inference_bounds, lemma_weighted_sum_agrees,
    output_unit, reals, unit, well_formed, HIDDEN_BIAS_AT, OUTPUT_BIAS_AT, OUTPUT_WEIGHTS_AT,
    PARAMETERS, PARAMETER_LIMIT,
};
use crate::numeral::append;

verus! {

/// The range of the perturbation that reproduction adds to each parameter
/// (five thousandths), unless the caller names another.
pub const MUTATION_STEP: u32 = 5_000_000;

/// The hidden weights of the seed brain.
pub const SEED_HIDDEN_WEIGHTS: [i64; 32] = [
    -848_789_500,
    491_375_270,
    399_873_230,
    364_316_000,
    234_517_780,
    -103_829_905,
    -198_376_420,
    998_588_560,
    628_014_740,
    -300_816_480,
    -1_171_730_600,
    769_319_500,
    -391_688_880,
    521_827_640,
    -138_096_620,
    674_125_130,
    -343_928_870,
    941_265_100,
    -134_422_560,
    -274_242_280,
    -764_241_600,
    742_728_530,
    1_330_818_000,
    56_586_930,
    -492_794_480,
    224_115_000,
    1_040_134_500,
    1_618_181_500,
    368_731_100,
    347_338_500,
    351_388_130,
    -181_152_270,
];

/// The output weights of the seed brain.
pub const SEED_OUTPUT_WEIGHTS: [i64; 16] = [
    321_518_100,
    718_526_840,
    531_775_800,
    679_690_360,
    -283_959_570,
    -812_366_000,
    843_314_470,
    -599_579_300,
    -299_668_300,
    -911_553_200,
    239_063_520,
    -969_079_900,
    791_514_400,
    630_645_040,
    722_579_540,
    198_444_990,
];

/// The hidden biases of the seed brain.
pub const SEED_HIDDEN_BIAS: [i64; 8] = [
    936_299_000,
    -356_243_370,
    5_529_036,
    791_268_170,
    550_030_500,
    451_602_700,
    -33_982_830,
    -910_076_740,
];

/// The output biases of the seed brain.
pub const SEED_OUTPUT_BIAS: [i64; 2] = [-1_120_683_900, 110_290_670];

/// The parameters of a network with four inputs, eight hidden units and two
/// outputs.
#[derive(Clone, Copy, Debug, PartialEq, Eq)]
pub struct Brain {
    hidden_weights: [i64; 32],
    output_weights: [i64; 16],
    hidden_bias: [i64; 8],
    output_bias: [i64; 2],
}

/// The parameter list that four arrays of parameters make.
pub open spec fn parameter_list(
    hidden_weights: Seq<i64>,
    output_weights: Seq<i64>,
    hidden_bias: Seq<i64>,
    output_bias: Seq<i64>,
) -> Seq<int> {
    Seq::new(
        PARAMETERS as nat,
        |i: int|
            if i < OUTPUT_WEIGHTS_AT {
                hidden_weights[i] as int
            } else if i < HIDDEN_BIAS_AT {
                output_weights[i - OUTPUT_WEIGHTS_AT] as int
            } else if i < OUTPUT_BIAS_AT {
                hidden_bias[i - HIDDEN_BIAS_AT] as int
            } else {
                output_bias[i - OUTPUT_BIAS_AT] as int
            },
    )
}

/// Whether every array holds only values within `PARAMETER_LIMIT`.
pub open spec fn arrays_within_limit(
    hidden_weights: Seq<i64>,
    output_weights: Seq<i64>,
    hidden_bias: Seq<i64>,
    output_bias: Seq<i64>,
) -> bool {
    &&& forall|i: int|
        0 <= i < 32 ==> -PARAMETER_LIMIT <= #[trigger] hidden_weights[i] <= PARAMETER_LIMIT
    &&& forall|i: int|
        0 <= i < 16 ==> -PARAMETER_LIMIT <= #[trigger] output_weights[i] <= PARAMETER_LIMIT
    &&& forall|i: int|
        0 <= i < 8 ==> -PARAMETER_LIMIT <= #[trigger] hidden_bias[i] <= PARAMETER_LIMIT
    &&& forall|i: int|
        0 <= i < 2 ==> -PARAMETER_LIMIT <= #[trigger] output_bias[i] <= PARAMETER_LIMIT
}

/// The parameter list of the seed brain.
pub open spec fn seed_parameters() -> Seq<int> {
    parameter_list(
        SEED_HIDDEN_WEIGHTS@,
        SEED_OUTPUT_WEIGHTS@,
        SEED_HIDDEN_BIAS@,
        SEED_OUTPUT_BIAS@,
    )
}

/// Whether every parameter lies between minus one and one.
pub open spec fn in_unit_range(parameters: Seq<int>) -> bool {
    forall|i: int| 0 <= i < parameters.len() ==> -ONE <= #[trigger] parameters[i] <= ONE
}

/// Whether `child` has the length of `parent` and differs from it by no more
/// than `step` in any place.
pub open spec fn within_step(child: Seq<int>, parent: Seq<int>, step: int) -> bool {
    &&& child.len() == parent.len()
    &&& forall|i: int|
        0 <= i < parent.len() ==> -step <= #[trigger] child[i] - parent[i] <= step
}

/// What mutation makes of one parameter: the parameter plus the point of
/// `[-step, step)` that the draw stands for, kept within `PARAMETER_LIMIT`.
pub open spec fn perturbed(parameter: int, draw: u32, step: int) -> int {
    let moved = parameter + spread(draw, step);
    if moved < -PARAMETER_LIMIT {
        -PARAMETER_LIMIT as int
    } else if moved > PARAMETER_LIMIT {
        PARAMETER_LIMIT as int
    } else {
        moved
    }
}

/// A mutated parameter stays within `step` of the one it came from.
pub proof fn lemma_perturbed_near(parameter: int, draw: u32, step: int)
    requires
        0 <= step,
        -PARAMETER_LIMIT <= parameter <= PARAMETER_LIMIT,
    ensures
        -step <= perturbed(parameter, draw, step) - parameter <= step,
        -PARAMETER_LIMIT <= perturbed(parameter, draw, step) <= PARAMETER_LIMIT,
{
    lemma_spread_bounds(draw, step);
}

/// Inference has no hidden state and no chance in it: two runs of one brain
/// on the same readings give the same outputs.
pub proof fn lemma_inference_deterministic(
    brain: Brain,
    inputs: [i64; 4],
    first: [i64; 2],
    second: [i64; 2],
)
    requires
        reals(first@) == inference(brain@, reals(inputs@)),
        reals(second@) == inference(brain@, reals(inputs@)),
    ensures
        first == second,
{
    assert forall|k: int| 0 <= k < 2 implies first[k] == second[k] by {
        assert(reals(first@)[k] == reals(second@)[k]);
    }
}

impl View for Brain {
    type V = Seq<int>;

    /// The 58 parameters in one list.
    closed spec fn view(&self) -> Seq<int> {
        parameter_list(
            self.hidden_weights@,
            self.output_weights@,
            self.hidden_bias@,
            self.output_bias@,
        )
    }
}

impl Brain {
    #[verifier::type_invariant]
    spec fn within_limit(self) -> bool {
        arrays_within_limit(
            self.hidden_weights@,
            self.output_weights@,
            self.hidden_bias@,
            self.output_bias@,
        )
    }

    /// Whether the brain has its 58 parameters, each within
    /// `PARAMETER_LIMIT`. Every brain that this library hands out is.
    pub open spec fn wf(&self) -> bool {
        well_formed(self@)
    }

    /// A brain never has more or fewer than its 58 parameters.
    pub proof fn lemma_topology(self)
        ensures
            self@.len() == PARAMETERS,
            self@.subrange(0, OUTPUT_WEIGHTS_AT as int).len() == 32,
            self@.subrange(OUTPUT_WEIGHTS_AT as int, HIDDEN_BIAS_AT as int).len() == 16,
            self@.subrange(HIDDEN_BIAS_AT as int, OUTPUT_BIAS_AT as int).len() == 8,
            self@.subrange(OUTPUT_BIAS_AT as int, PARAMETERS as int).len() == 2,
    {
    }

    /// The seed brain, whose parameters are the `SEED_` constants.
    pub fn new() -> (brain: Brain)
        ensures
            brain@ == seed_parameters(),
            brain.wf(),
    {
        Brain {
            hidden_weights: SEED_HIDDEN_WEIGHTS,
            output_weights: SEED_OUTPUT_WEIGHTS,
            hidden_bias: SEED_HIDDEN_BIAS,
            output_bias: SEED_OUTPUT_BIAS,
        }
    }

    /// A brain with the given parameters, if each of them is within
    /// `PARAMETER_LIMIT`.
    pub fn from_parameters(
        hidden_weights: [i64; 32],
        output_weights: [i64; 16],
        hidden_bias: [i64; 8],
        output_bias: [i64; 2],
    ) -> (made: Option<Brain>)
        ensures
            made is Some <==> arrays_within_limit(
                hidden_weights@,
                output_weights@,
                hidden_bias@,
                output_bias@,
            ),
            made matches Some(brain) ==> brain.wf() && brain@ == parameter_list(
                hidden_weights@,
                output_weights@,
                hidden_bias@,
                output_bias@,
            ),
    {
        if all_within_limit(hidden_weights.as_slice()) && all_within_limit(
            output_weights.as_slice(),
        ) && all_within_limit(hidden_bias.as_slice()) && all_within_limit(
            output_bias.as_slice(),
        ) {
            Some(Brain { hidden_weights, output_weights, hidden_bias, output_bias })
        } else {
            None
        }
    }

    /// The hidden weights: the four of hidden unit `i` at `4 * i`.
    pub fn hidden_weights(&self) -> (weights: [i64; 32])
        ensures
            forall|i: int| 0 <= i < 32 ==> #[trigger] weights[i] == self@[i],
    {
        self.hidden_weights
    }

    /// The output weights: the eight of output `i` at `8 * i`.
    pub fn output_weights(&self) -> (weights: [i64; 16])
        ensures
            forall|i: int| 0 <= i < 16 ==> #[trigger] weights[i] == self@[OUTPUT_WEIGHTS_AT + i],
    {
        self.output_weights
    }

    /// The biases of the hidden units.
    pub fn hidden_bias(&self) -> (bias: [i64; 8])
        ensures
            forall|i: int| 0 <= i < 8 ==> #[trigger] bias[i] == self@[HIDDEN_BIAS_AT + i],
    {
        self.hidden_bias
    }

    /// The biases of the outputs.
    pub fn output_bias(&self) -> (bias: [i64; 2])
        ensures
            forall|i: int| 0 <= i < 2 ==> #[trigger] bias[i] == self@[OUTPUT_BIAS_AT + i],
    {
        self.output_bias
    }

    /// The brain that 58 draws stand for: parameter `i` is draw `i` spread
    /// over `[-1, 1)`.
    pub fn from_draws(draws: &[u32; 58]) -> (brain: Brain)
        ensures
            brain.wf(),
            forall|i: int|
                0 <= i < PARAMETERS ==> #[trigger] brain@[i] == spread(draws[i], ONE as int),
            in_unit_range(brain@),
    {
        let blank = Brain {
            hidden_weights: [0; 32],
            output_weights: [0; 16],
            hidden_bias: [0; 8],
            output_bias: [0; 2],
        };
        let brain = blank.mutated(draws, ONE as u32);
        assert forall|i: int| 0 <= i < PARAMETERS implies #[trigger] brain@[i] == spread(
            draws[i],
            ONE as int,
        ) && -ONE <= brain@[i] <= ONE by {
            lemma_spread_bounds(draws[i], ONE as int);
        }
        brain
    }

    /// A brain whose every weight and bias is drawn independently and
    /// uniformly from `[-1, 1)`.
    pub fn random() -> (brain: Brain)
        ensures
            brain.wf(),
            in_unit_range(brain@),
    {
        let draws = fresh_draws();
        Brain::from_draws(&draws)
    }

    /// The child that 58 draws make of this brain: parameter `i` moves by
    /// draw `i` spread over `[-step, step)`.
    pub fn mutated(&self, draws: &[u32; 58], step: u32) -> (child: Brain)
        ensures
            child.wf(),
            forall|i: int|
                0 <= i < PARAMETERS ==> #[trigger] child@[i] == perturbed(
                    self@[i],
                    draws[i],
                    step as int,
                ),
            within_step(child@, self@, step as int),
    {
        proof {
            use_type_invariant(self);
        }
        let hidden_weights = perturb(&self.hidden_weights, draws, 0, step);
        let output_weights = perturb(&self.output_weights, draws, OUTPUT_WEIGHTS_AT, step);
        let hidden_bias = perturb(&self.hidden_bias, draws, HIDDEN_BIAS_AT, step);
        let output_bias = perturb(&self.output_bias, draws, OUTPUT_BIAS_AT, step);
        let child = Brain { hidden_weights, output_weights, hidden_bias, output_bias };
        assert forall|i: int| 0 <= i < PARAMETERS implies #[trigger] child@[i] == perturbed(
            self@[i],
            draws[i],
            step as int,
        ) && -step <= child@[i] - self@[i] <= step by {
            lemma_perturbed_near(self@[i], draws[i], step as int);
        }
        child
    }

    /// `n` children, each a copy of this brain with every weight and bias
    /// moved independently by less than `step`.
    pub fn reproduce(&self, n: usize, step: u32) -> (children: Vec<Brain>)
        ensures
            children@.len() == n,
            forall|k: int|
                0 <= k < n ==> (#[trigger] children@[k]).wf() && within_step(
                    children@[k]@,
                    self@,
                    step as int,
                ),
    {
        let mut children: Vec<Brain> = Vec::new();
        let mut k: usize = 0;
        while k < n
            invariant
                0 <= k <= n,
                children@.len() == k,
                forall|c: int|
                    0 <= c < k ==> (#[trigger] children@[c]).wf() && within_step(
                        children@[c]@,
                        self@,
                        step as int,
                    ),
            decreases n - k,
        {
            let draws = fresh_draws();
            let child = self.mutated(&draws, step);
            children.push(child);
            k = k + 1;
        }
        children
    }

    /// `n` children by mutation with `MUTATION_STEP`.
    pub fn generate_n_child(&self, n: usize) -> (children: Vec<Brain>)
        ensures
            children@.len() == n,
            forall|k: int|
                0 <= k < n ==> (#[trigger] children@[k]).wf() && within_step(
                    children@[k]@,
                    self@,
                    MUTATION_STEP as int,
                ),
    {
        self.reproduce(n, MUTATION_STEP)
    }

    /// A description of the brain for people to read: every parameter as a
    /// decimal numeral, laid out as `description` says.
    pub fn print(&self) -> (text: String)
        ensures
            text@ == description(self@),
    {
        let ghost parameters = self@;
        let mut text = String::new();
        append(&mut text, "\n\n---- Brain ----\nHidden weights:\n");
        append_rows(&mut text, self.hidden_weights.as_slice(), 8, 4);
        proof {
            lemma_rows_text_agrees(reals(self.hidden_weights@), 0, parameters, 0, 8, 4);
        }
        append(&mut text, "Output weights:\n");
        append_rows(&mut text, self.output_weights.as_slice(), 2, 8);
        proof {
            lemma_rows_text_agrees(
                reals(self.output_weights@),
                0,
                parameters,
                OUTPUT_WEIGHTS_AT as int,
                2,
                8,
            );
        }
        append(&mut text, "Hidden bias:\n");
        append_row(&mut text, self.hidden_bias.as_slice(), 0, 8);
        proof {
            lemma_row_text_agrees(
                reals(self.hidden_bias@),
                0,
                parameters,
                HIDDEN_BIAS_AT as int,
                8,
            );
        }
        append(&mut text, "\nOutput bias:\n");
        append_row(&mut text, self.output_bias.as_slice(), 0, 2);
        proof {
            lemma_row_text_agrees(
                reals(self.output_bias@),
                0,
                parameters,
                OUTPUT_BIAS_AT as int,
                2,
            );
        }
        text
    }

    /// The logistic sigmoid, the activation of every unit.
    pub fn sigmoid(x: i64) -> (y: i64)
        ensures
            y == logistic(x as int),
            0 < y < ONE,
    {
        logistic_of(x)
    }

    /// Runs the network on four sensor readings. The result depends on the
    /// parameters and the readings alone, and both outputs lie strictly
    /// between zero and one.
    pub fn think(&self, inputs: [i64; 4]) -> (outputs: [i64; 2])
        ensures
            reals(outputs@) == inference(self@, reals(inputs@)),
            0 < outputs[0] < ONE,
            0 < outputs[1] < ONE,
    {
        proof {
            use_type_invariant(self);
        }
        let ghost parameters = self@;
        let ghost readings = reals(inputs@);
        let mut hidden: [i64; 8] = [0; 8];
        let mut i: usize = 0;
        while i < 8
            invariant
                0 <= i <= 8,
                parameters == self@,
                readings == reals(inputs@),
                self.within_limit(),
                forall|u: int|
                    0 <= u < i ==> #[trigger] hidden[u] == hidden_unit(parameters, readings, u),
            decreases 8 - i,
        {
            let a = unit(
                self.hidden_bias[i],
                self.hidden_weights.as_slice(),
                4 * i,
                inputs.as_slice(),
            );
            proof {
                lemma_weighted_sum_agrees(
                    reals(self.hidden_weights@),
                    4 * i,
                    parameters,
                    4 * i,
                    readings,
                    4,
                );
            }
            hidden[i] = a;
            i = i + 1;
        }
        let ghost layer = hidden_layer(parameters, readings);
        let mut outputs: [i64; 2] = [0; 2];
        let mut k: usize = 0;
        while k < 2
            invariant
                0 <= k <= 2,
                parameters == self@,
                readings == reals(inputs@),
                layer == hidden_layer(parameters, readings),
                reals(hidden@) == layer,
                self.within_limit(),
                forall|u: int|
                    0 <= u < k ==> #[trigger] outputs[u] == output_unit(parameters, readings, u),
            decreases 2 - k,
        {
            let a = unit(
                self.output_bias[k],
                self.output_weights.as_slice(),
                8 * k,
                hidden.as_slice(),
            );
            proof {
                lemma_weighted_sum_agrees(
                    reals(self.output_weights@),
                    8 * k,
                    parameters,
                    OUTPUT_WEIGHTS_AT + 8 * k,
                    layer,
                    8,
                );
            }
            outputs[k] = a;
            k = k + 1;
        }
        proof {
            lemma_inference_bounds(parameters, readings);
        }
        outputs
    }
}

/// Whether every value of the slice is within `PARAMETER_LIMIT`.
fn all_within_limit(values: &[i64]) -> (within: bool)
    ensures
        within <==> forall|i: int|
            0 <= i < values@.len() ==> -PARAMETER_LIMIT <= #[trigger] values@[i]
                <= PARAMETER_LIMIT,
{
    let mut i: usize = 0;
    while i < values.len()
        invariant
            0 <= i <= values@.len(),
            forall|j: int|
                0 <= j < i ==> -PARAMETER_LIMIT <= #[trigger] values@[j] <= PARAMETER_LIMIT,
        decreases values@.len() - i,
    {
        if values[i] < -PARAMETER_LIMIT || values[i] > PARAMETER_LIMIT {
            return false;
        }
        i = i + 1;
    }
    true
}

/// One draw for each parameter of a brain.
fn fresh_draws() -> (draws: [u32; 58]) {
    let mut draws: [u32; 58] = [0; 58];
    let mut i: usize = 0;
    while i < 58
        invariant
            0 <= i <= 58,
        decreases 58 - i,
    {
        draws[i] = draw();
        i = i + 1;
    }
    draws
}

/// Mutates the parameters of one array, with the draws that stand from `at`
/// on.
fn perturb<const N: usize>(parent: &[i64; N], draws: &[u32; 58], at: usize, step: u32) -> (child:
    [i64; N])
    requires
        at + N <= 58,
        forall|j: int| 0 <= j < N ==> -PARAMETER_LIMIT <= #[trigger] parent[j] <= PARAMETER_LIMIT,
    ensures
        forall|j: int|
            0 <= j < N ==> #[trigger] child[j] == perturbed(
                parent[j] as int,
                draws[at + j],
                step as int,
            ),
{
    let mut child: [i64; N] = *parent;
    let mut j: usize = 0;
    while j < N
        invariant
            0 <= j <= N,
            at + N <= 58,
            forall|c: int|
                0 <= c < N ==> -PARAMETER_LIMIT <= #[trigger] parent[c] <= PARAMETER_LIMIT,
            forall|c: int|
                0 <= c < j ==> #[trigger] child[c] == perturbed(
                    parent[c] as int,
                    draws[at + c],
                    step as int,
                ),
        decreases N - j,
    {
        let moved: i64 = parent[j] + spread_of(draws[at + j], step);
        let kept: i64 = if moved < -PARAMETER_LIMIT {
            -PARAMETER_LIMIT
        } else if moved > PARAMETER_LIMIT {
            PARAMETER_LIMIT
        } else {
            moved
        };
        child[j] = kept;
        j = j + 1;
    }
    child
}

} // verus!
