//! The network: what a list of 58 parameters makes of four readings.
//!
//! The parameters stand in one list: the 32 hidden weights (unit by unit,
//! four to a unit), the 16 output weights (eight to a unit), the 8 hidden
//! biases and the 2 output biases. A unit adds its bias to the sum of its
//! inputs, each times its weight, and applies the logistic sigmoid. The sum
//! is exact; only the sigmoid rounds.

use vstd::prelude::*;
use crate::activation::{lemma_logistic_bounds, lemma_logistic_saturates, logistic, logistic_of};
use crate::fixed::{floor_one, narrow, ONE};

verus! {

/// The number of parameters of a brain.
pub const PARAMETERS: usize = 58;

/// Where the output weights begin in the list.
pub const OUTPUT_WEIGHTS_AT: usize = 32;

/// Where the hidden biases begin in the list.
pub const HIDDEN_BIAS_AT: usize = 48;

/// Where the output biases begin in the list.
pub const OUTPUT_BIAS_AT: usize = 56;

/// No parameter grows beyond this magnitude (a thousand): mutation stops
/// there.
pub const PARAMETER_LIMIT: i64 = 1_000_000_000_000;

/// Whether a parameter list has the length of a brain's and keeps every
/// parameter within `PARAMETER_LIMIT`.
pub open spec fn well_formed(parameters: Seq<int>) -> bool {
    &&& parameters.len() == PARAMETERS
    &&& forall|i: int|
        0 <= i < PARAMETERS ==> -PARAMETER_LIMIT <= #[trigger] parameters[i] <= PARAMETER_LIMIT
}

/// A sequence of fixed-point numbers as mathematical integers.
pub open spec fn reals(values: Seq<i64>) -> Seq<int> {
    values.map_values(|v: i64| v as int)
}

/// The parameter that stands `j` places after `base`.
pub open spec fn parameter_at(parameters: Seq<int>, base: int, j: int) -> int {
    parameters[base + j]
}

/// The sum of the first `n` of `values`, each times the parameter that
/// stands `base` places further on in the list.
pub open spec fn weighted_sum(parameters: Seq<int>, base: int, values: Seq<int>, n: nat) -> int
    decreases n,
{
    if n == 0 {
        0
    } else {
        weighted_sum(parameters, base, values, (n - 1) as nat) + values[n - 1] * parameter_at(
            parameters,
            base,
            n - 1,
        )
    }
}

/// The activation of a unit: the logistic of its bias plus the weighted sum
/// of its inputs. The sum of products counts billionths of billionths, and
/// is rounded down to billionths before the logistic is taken.
pub open spec fn activation(bias: int, sum: int) -> int {
    logistic((bias * ONE + sum) / (ONE as int))
}

/// The activation of hidden unit `i`, on the four inputs.
pub open spec fn hidden_unit(parameters: Seq<int>, inputs: Seq<int>, i: int) -> int {
    activation(parameters[HIDDEN_BIAS_AT + i], weighted_sum(parameters, 4 * i, inputs, 4))
}

/// The activations of the eight hidden units.
pub open spec fn hidden_layer(parameters: Seq<int>, inputs: Seq<int>) -> Seq<int> {
    Seq::new(8, |i: int| hidden_unit(parameters, inputs, i))
}

/// Output `i`, on the eight hidden activations.
pub open spec fn output_unit(parameters: Seq<int>, inputs: Seq<int>, i: int) -> int {
    activation(
        parameters[OUTPUT_BIAS_AT + i],
        weighted_sum(parameters, OUTPUT_WEIGHTS_AT + 8 * i, hidden_layer(parameters, inputs), 8),
    )
}

/// What a network with these parameters makes of these inputs.
pub open spec fn inference(parameters: Seq<int>, inputs: Seq<int>) -> Seq<int> {
    seq![output_unit(parameters, inputs, 0), output_unit(parameters, inputs, 1)]
}

/// Whatever its bias and its inputs, the activation of a unit lies strictly
/// between zero and one.
pub proof fn lemma_activation_bounds(bias: int, sum: int)
    ensures
        0 < activation(bias, sum) < ONE,
{
    lemma_logistic_bounds((bias * ONE + sum) / (ONE as int));
}

/// Whatever the parameters and the readings, inference gives two outputs,
/// each strictly between zero and one.
pub proof fn lemma_inference_bounds(parameters: Seq<int>, inputs: Seq<int>)
    ensures
        inference(parameters, inputs).len() == 2,
        forall|k: int| 0 <= k < 2 ==> 0 < #[trigger] inference(parameters, inputs)[k] < ONE,
{
    let layer = hidden_layer(parameters, inputs);
    lemma_activation_bounds(
        parameters[OUTPUT_BIAS_AT + 0],
        weighted_sum(parameters, OUTPUT_WEIGHTS_AT + 8 * 0, layer, 8),
    );
    lemma_activation_bounds(
        parameters[OUTPUT_BIAS_AT + 1],
        weighted_sum(parameters, OUTPUT_WEIGHTS_AT + 8 * 1, layer, 8),
    );
}

/// A weighted sum depends only on the parameters that it reads.
pub(crate) proof fn lemma_weighted_sum_agrees(
    p: Seq<int>,
    p_base: int,
    q: Seq<int>,
    q_base: int,
    values: Seq<int>,
    n: nat,
)
    requires
        forall|j: int|
            0 <= j < n ==> #[trigger] parameter_at(p, p_base, j) == parameter_at(q, q_base, j),
    ensures
        weighted_sum(p, p_base, values, n) == weighted_sum(q, q_base, values, n),
    decreases n,
{
    if n > 0 {
        lemma_weighted_sum_agrees(p, p_base, q, q_base, values, (n - 1) as nat);
    }
}

/// Computes the activation of the unit with the given bias, whose inputs are
/// `values` and whose weights stand from `base` on.
pub(crate) fn unit(bias: i64, weights: &[i64], base: usize, values: &[i64]) -> (a: i64)
    requires
        values@.len() <= 8,
        base + values@.len() <= weights@.len(),
        -PARAMETER_LIMIT <= bias <= PARAMETER_LIMIT,
        forall|j: int|
            0 <= j < weights@.len() ==> -PARAMETER_LIMIT <= #[trigger] weights@[j]
                <= PARAMETER_LIMIT,
    ensures
        a == activation(
            bias as int,
            weighted_sum(reals(weights@), base as int, reals(values@), values@.len()),
        ),
        0 < a < ONE,
{
    let n = values.len();
    let m = weights.len();
    let ghost ws = reals(weights@);
    let ghost vs = reals(values@);
    let mut sum: i128 = 0;
    let mut j: usize = 0;
    while j < n
        invariant
            0 <= j <= n,
            n == values@.len(),
            n <= 8,
            m == weights@.len(),
            base + n <= m,
            ws == reals(weights@),
            vs == reals(values@),
            forall|j: int|
                0 <= j < weights@.len() ==> -PARAMETER_LIMIT <= #[trigger] weights@[j]
                    <= PARAMETER_LIMIT,
            sum == weighted_sum(ws, base as int, vs, j as nat),
            -j * 9_223_372_036_854_775_808_000_000_000_000 <= sum <= j
                * 9_223_372_036_854_775_808_000_000_000_000,
        decreases n - j,
    {
        let v = values[j];
        let w = weights[base + j];
        assert(-9_223_372_036_854_775_808_000_000_000_000 <= v * w
            <= 9_223_372_036_854_775_808_000_000_000_000) by (nonlinear_arith)
            requires
                -0x8000_0000_0000_0000 <= v < 0x8000_0000_0000_0000,
                -PARAMETER_LIMIT <= w <= PARAMETER_LIMIT,
                PARAMETER_LIMIT == 1_000_000_000_000,
        ;
        sum = sum + (v as i128) * (w as i128);
        j = j + 1;
    }
    assert(-1_000_000_000_000_000_000_000 <= bias * ONE <= 1_000_000_000_000_000_000_000)
        by (nonlinear_arith)
        requires
            -PARAMETER_LIMIT <= bias <= PARAMETER_LIMIT,
            PARAMETER_LIMIT == 1_000_000_000_000,
            ONE == 1_000_000_000,
    ;
    let z: i128 = (bias as i128) * (ONE as i128) + sum;
    let x = narrow(floor_one(z));
    proof {
        lemma_logistic_saturates((z as int) / (ONE as int));
    }
    logistic_of(x)
}

} // verus!
