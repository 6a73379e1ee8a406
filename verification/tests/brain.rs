use neuroflap::fixed::ONE;
use neuroflap::genetics::{
    Brain, MUTATION_STEP, SEED_HIDDEN_BIAS, SEED_HIDDEN_WEIGHTS, SEED_OUTPUT_BIAS,
    SEED_OUTPUT_WEIGHTS,
};
use neuroflap::network::PARAMETER_LIMIT;

fn parameters(brain: &Brain) -> Vec<i64> {
    let mut all = Vec::new();
    all.extend_from_slice(&brain.hidden_weights());
    all.extend_from_slice(&brain.output_weights());
    all.extend_from_slice(&brain.hidden_bias());
    all.extend_from_slice(&brain.output_bias());
    all
}

fn to_real(x: i64) -> f64 {
    x as f64 / ONE as f64
}

fn real_sigmoid(x: f64) -> f64 {
    1.0 / (1.0 + (-x).exp())
}

fn real_think(brain: &Brain, inputs: [i64; 4]) -> [f64; 2] {
    let hw = brain.hidden_weights();
    let ow = brain.output_weights();
    let hb = brain.hidden_bias();
    let ob = brain.output_bias();
    let mut hidden = [0.0f64; 8];
    for i in 0..8 {
        let mut z = to_real(hb[i]);
        for j in 0..4 {
            z += to_real(inputs[j]) * to_real(hw[i * 4 + j]);
        }
        hidden[i] = real_sigmoid(z);
    }
    let mut outputs = [0.0f64; 2];
    for i in 0..2 {
        let mut z = to_real(ob[i]);
        for j in 0..8 {
            z += hidden[j] * to_real(ow[i * 8 + j]);
        }
        outputs[i] = real_sigmoid(z);
    }
    outputs
}

#[test]
fn new_gives_the_seed_parameters() {
    let brain = Brain::new();
    assert_eq!(brain.hidden_weights(), SEED_HIDDEN_WEIGHTS);
    assert_eq!(brain.output_weights(), SEED_OUTPUT_WEIGHTS);
    assert_eq!(brain.hidden_bias(), SEED_HIDDEN_BIAS);
    assert_eq!(brain.output_bias(), SEED_OUTPUT_BIAS);
    assert_eq!(brain.hidden_weights()[0], -848_789_500);
    assert_eq!(brain.hidden_weights()[27], 1_618_181_500);
    assert_eq!(brain.output_weights()[15], 198_444_990);
    assert_eq!(brain.hidden_bias()[2], 5_529_036);
    assert_eq!(brain.output_bias(), [-1_120_683_900, 110_290_670]);
}

#[test]
fn topology_is_fixed() {
    let settings = [Brain::new(), Brain::random(), Brain::new().generate_n_child(1)[0]];
    for brain in settings.iter() {
        assert_eq!(brain.hidden_weights().len(), 32);
        assert_eq!(brain.output_weights().len(), 16);
        assert_eq!(brain.hidden_bias().len(), 8);
        assert_eq!(brain.output_bias().len(), 2);
        assert_eq!(parameters(brain).len(), 58);
    }
}

#[test]
fn seed_brain_on_the_reference_input() {
    let brain = Brain::new();
    let outputs = brain.think([0, 0, 500 * ONE, 0]);
    assert_eq!(outputs, [202_976_068, 796_131_944]);
}

#[test]
fn seed_brain_on_other_inputs() {
    let brain = Brain::new();
    assert_eq!(brain.think([0, 0, 0, 0]), [427_151_926, 567_581_302]);
    assert_eq!(
        brain.think([100 * ONE, -600 * ONE, 250 * ONE, -120 * ONE]),
        [245_884_450, 527_544_751]
    );
    assert_eq!(
        brain.think([i64::MAX, i64::MIN, i64::MAX, i64::MIN]),
        [151_837_266, 576_576_620]
    );
}

#[test]
fn think_agrees_with_the_real_logistic_network() {
    let brains = [Brain::new(), Brain::random(), Brain::random()];
    let inputs = [
        [0, 0, 500 * ONE, 0],
        [0, 0, 0, 0],
        [12 * ONE, -300 * ONE, 1500 * ONE, -90 * ONE],
        [-349 * ONE, 1400 * ONE, 3 * ONE, 250 * ONE],
        [ONE / 3, -ONE / 7, ONE / 11, ONE / 13],
    ];
    for brain in brains.iter() {
        for input in inputs.iter() {
            let got = brain.think(*input);
            let want = real_think(brain, *input);
            for k in 0..2 {
                assert!((to_real(got[k]) - want[k]).abs() < 5e-8, "{:?} {:?}", got, want);
            }
        }
    }
}

#[test]
fn think_is_deterministic() {
    let brain = Brain::random();
    let inputs = [17 * ONE, -3 * ONE, 420 * ONE, 55 * ONE];
    let first = brain.think(inputs);
    let second = brain.think(inputs);
    assert_eq!(first, second);
    let copy = brain;
    assert_eq!(copy.think(inputs), first);
}

#[test]
fn outputs_lie_strictly_between_zero_and_one() {
    let extremes = [i64::MIN, -1_000_000 * ONE, -ONE, -1, 0, 1, ONE, 1_000_000 * ONE, i64::MAX];
    let limit = Brain::from_parameters(
        [PARAMETER_LIMIT; 32],
        [PARAMETER_LIMIT; 16],
        [PARAMETER_LIMIT; 8],
        [PARAMETER_LIMIT; 2],
    )
    .unwrap();
    let floor = Brain::from_parameters(
        [-PARAMETER_LIMIT; 32],
        [-PARAMETER_LIMIT; 16],
        [-PARAMETER_LIMIT; 8],
        [-PARAMETER_LIMIT; 2],
    )
    .unwrap();
    for brain in [Brain::new(), Brain::random(), limit, floor].iter() {
        for a in extremes.iter() {
            for b in extremes.iter() {
                let outputs = brain.think([*a, *b, *b, *a]);
                assert!(0 < outputs[0] && outputs[0] < ONE);
                assert!(0 < outputs[1] && outputs[1] < ONE);
            }
        }
    }
    assert_eq!(limit.think([i64::MAX; 4]), [ONE - 1, ONE - 1]);
    assert_eq!(limit.think([i64::MIN; 4]), [ONE - 1, ONE - 1]);
    assert_eq!(floor.think([i64::MIN; 4]), [1, 1]);
}

#[test]
fn sigmoid_values() {
    assert_eq!(Brain::sigmoid(0), 500_000_000);
    assert_eq!(Brain::sigmoid(ONE), 731_058_578);
    assert_eq!(Brain::sigmoid(-ONE), 268_941_422);
    assert_eq!(Brain::sigmoid(2_500_000_000), 924_141_819);
    assert_eq!(Brain::sigmoid(-3_250_000_000), 37_326_888);
    assert_eq!(Brain::sigmoid(10 * ONE), 999_954_602);
    assert_eq!(Brain::sigmoid(123_456_789), 530_825_055);
    assert_eq!(Brain::sigmoid(-987_654_321), 271_375_643);
}

#[test]
fn sigmoid_saturates() {
    assert_eq!(Brain::sigmoid(21 * ONE - 1), ONE - 1);
    assert_eq!(Brain::sigmoid(21 * ONE), ONE - 1);
    assert_eq!(Brain::sigmoid(i64::MAX), ONE - 1);
    assert_eq!(Brain::sigmoid(-21 * ONE), 1);
    assert_eq!(Brain::sigmoid(-21 * ONE + 1), 1);
    assert_eq!(Brain::sigmoid(i64::MIN), 1);
}

#[test]
fn sigmoid_is_symmetric_and_close_to_the_real_one() {
    let mut x = -25 * ONE;
    while x <= 25 * ONE {
        let y = Brain::sigmoid(x);
        assert!(0 < y && y < ONE);
        assert_eq!(y + Brain::sigmoid(-x), ONE);
        assert!((to_real(y) - real_sigmoid(to_real(x))).abs() < 3e-9, "{} {}", x, y);
        x += 7_654_321;
    }
}

#[test]
fn sigmoid_does_not_fall() {
    let mut x = -22 * ONE;
    let mut last = 0;
    while x <= 22 * ONE {
        let y = Brain::sigmoid(x);
        assert!(y >= last);
        last = y;
        x += 3_141_593;
    }
}

#[test]
fn random_parameters_lie_in_the_unit_range() {
    for _ in 0..50 {
        let brain = Brain::random();
        for p in parameters(&brain) {
            assert!(-ONE <= p && p <= ONE);
        }
    }
}

#[test]
fn random_brains_differ() {
    let a = Brain::random();
    let b = Brain::random();
    assert_ne!(a, b);
    let all = parameters(&a);
    assert!(all.iter().any(|p| *p != all[0]));
}

#[test]
fn from_draws_spreads_each_draw() {
    let lowest = Brain::from_draws(&[0; 58]);
    assert!(parameters(&lowest).iter().all(|p| *p == -ONE));
    let highest = Brain::from_draws(&[u32::MAX; 58]);
    assert!(parameters(&highest).iter().all(|p| *p == 999_999_880));
    let middle = Brain::from_draws(&[1 << 31; 58]);
    assert!(parameters(&middle).iter().all(|p| *p == 0));
    let mut draws = [0u32; 58];
    draws[0] = 256;
    draws[32] = 1 << 31;
    draws[48] = u32::MAX;
    draws[57] = 255;
    let mixed = Brain::from_draws(&draws);
    assert_eq!(mixed.hidden_weights()[0], -999_999_881);
    assert_eq!(mixed.hidden_weights()[1], -ONE);
    assert_eq!(mixed.output_weights()[0], 0);
    assert_eq!(mixed.hidden_bias()[0], 999_999_880);
    assert_eq!(mixed.output_bias()[1], -ONE);
}

#[test]
fn mutated_moves_each_parameter_by_its_draw() {
    let parent = Brain::new();
    let down = parent.mutated(&[0; 58], MUTATION_STEP);
    let up = parent.mutated(&[u32::MAX; 58], MUTATION_STEP);
    let still = parent.mutated(&[1 << 31; 58], MUTATION_STEP);
    let before = parameters(&parent);
    for (i, p) in before.iter().enumerate() {
        assert_eq!(parameters(&down)[i], p - 5_000_000);
        assert_eq!(parameters(&up)[i], p + 4_999_999);
        assert_eq!(parameters(&still)[i], *p);
    }
    let mut draws = [1u32 << 31; 58];
    draws[5] = 0x4000_0000;
    draws[40] = 123_456_789;
    let child = parent.mutated(&draws, 150_000_000);
    assert_eq!(child.hidden_weights()[5], -103_829_905 - 75_000_000);
    assert_eq!(child.output_weights()[8], -299_668_300 - 141_376_645);
    assert_eq!(child.hidden_weights()[4], 234_517_780);
}

#[test]
fn mutated_with_step_zero_is_a_copy() {
    let parent = Brain::random();
    assert_eq!(parent.mutated(&[u32::MAX; 58], 0), parent);
    assert_eq!(parent.mutated(&[7; 58], 0), parent);
}

#[test]
fn mutation_stops_at_the_parameter_limit() {
    let top = Brain::from_parameters(
        [PARAMETER_LIMIT; 32],
        [PARAMETER_LIMIT; 16],
        [PARAMETER_LIMIT; 8],
        [PARAMETER_LIMIT; 2],
    )
    .unwrap();
    let child = top.mutated(&[u32::MAX; 58], MUTATION_STEP);
    assert!(parameters(&child).iter().all(|p| *p == PARAMETER_LIMIT));
    let lower = top.mutated(&[0; 58], MUTATION_STEP);
    assert!(parameters(&lower).iter().all(|p| *p == PARAMETER_LIMIT - 5_000_000));
    let bottom = Brain::from_parameters(
        [-PARAMETER_LIMIT; 32],
        [-PARAMETER_LIMIT; 16],
        [-PARAMETER_LIMIT; 8],
        [-PARAMETER_LIMIT; 2],
    )
    .unwrap();
    let child = bottom.mutated(&[0; 58], u32::MAX);
    assert!(parameters(&child).iter().all(|p| *p == -PARAMETER_LIMIT));
}

#[test]
fn generate_n_child_returns_n_children() {
    let parent = Brain::new();
    assert_eq!(parent.generate_n_child(0).len(), 0);
    assert_eq!(parent.generate_n_child(1).len(), 1);
    assert_eq!(parent.generate_n_child(100).len(), 100);
    assert_eq!(parent.reproduce(0, 1).len(), 0);
    assert_eq!(parent.reproduce(37, 150_000_000).len(), 37);
}

#[test]
fn children_stay_within_the_mutation_step() {
    let parent = Brain::random();
    let before = parameters(&parent);
    for child in parent.generate_n_child(100) {
        let after = parameters(&child);
        for i in 0..58 {
            assert!((after[i] - before[i]).abs() <= MUTATION_STEP as i64);
        }
    }
    for child in parent.reproduce(50, 150_000_000) {
        let after = parameters(&child);
        for i in 0..58 {
            assert!((after[i] - before[i]).abs() <= 150_000_000);
        }
    }
}

#[test]
fn children_are_mutated_and_independent() {
    let parent = Brain::new();
    let children = parent.generate_n_child(20);
    assert!(children.iter().all(|c| *c != parent));
    assert_ne!(children[0], children[1]);
    assert_eq!(parent, Brain::new());
}

#[test]
fn from_parameters_checks_the_limit() {
    let made = Brain::from_parameters([1; 32], [2; 16], [3; 8], [4; 2]).unwrap();
    assert_eq!(made.hidden_weights(), [1; 32]);
    assert_eq!(made.output_weights(), [2; 16]);
    assert_eq!(made.hidden_bias(), [3; 8]);
    assert_eq!(made.output_bias(), [4; 2]);
    let mut weights = [0i64; 32];
    weights[31] = PARAMETER_LIMIT;
    assert!(Brain::from_parameters(weights, [0; 16], [0; 8], [0; 2]).is_some());
    weights[31] = PARAMETER_LIMIT + 1;
    assert!(Brain::from_parameters(weights, [0; 16], [0; 8], [0; 2]).is_none());
    assert!(Brain::from_parameters([0; 32], [-PARAMETER_LIMIT - 1; 16], [0; 8], [0; 2]).is_none());
    assert!(Brain::from_parameters([0; 32], [0; 16], [i64::MAX; 8], [0; 2]).is_none());
    assert!(Brain::from_parameters([0; 32], [0; 16], [0; 8], [0, i64::MIN]).is_none());
    assert!(Brain::from_parameters([0; 32], [0; 16], [0; 8], [0, -PARAMETER_LIMIT]).is_some());
}

#[test]
fn hand_made_network() {
    let mut hidden_weights = [0i64; 32];
    hidden_weights[0] = ONE;
    hidden_weights[5] = -ONE;
    let mut output_weights = [0i64; 16];
    output_weights[0] = 2 * ONE;
    output_weights[9] = 2 * ONE;
    let brain = Brain::from_parameters(hidden_weights, output_weights, [0; 8], [-ONE, 0]).unwrap();
    let outputs = brain.think([ONE, ONE, 0, 0]);
    let first = Brain::sigmoid(2 * Brain::sigmoid(ONE) - ONE);
    let second = Brain::sigmoid(2 * Brain::sigmoid(-ONE));
    assert_eq!(outputs, [first, second]);
    assert_eq!(outputs, [613_516_303, 631_319_775]);
}

#[test]
fn print_describes_the_seed_brain() {
    let expected = [
        "\n\n---- Brain ----\n",
        "Hidden weights:\n",
        "-0.8487895 0.49137527 0.39987323 0.364316 \n",
        "0.23451778 -0.103829905 -0.19837642 0.99858856 \n",
        "0.62801474 -0.30081648 -1.1717306 0.7693195 \n",
        "-0.39168888 0.52182764 -0.13809662 0.67412513 \n",
        "-0.34392887 0.9412651 -0.13442256 -0.27424228 \n",
        "-0.7642416 0.74272853 1.330818 0.05658693 \n",
        "-0.49279448 0.224115 1.0401345 1.6181815 \n",
        "0.3687311 0.3473385 0.35138813 -0.18115227 \n",
        "Output weights:\n",
        "0.3215181 0.71852684 0.5317758 0.67969036 ",
        "-0.28395957 -0.812366 0.84331447 -0.5995793 \n",
        "-0.2996683 -0.9115532 0.23906352 -0.9690799 ",
        "0.7915144 0.63064504 0.72257954 0.19844499 \n",
        "Hidden bias:\n",
        "0.936299 -0.35624337 0.005529036 0.79126817 ",
        "0.5500305 0.4516027 -0.03398283 -0.91007674 \n",
        "Output bias:\n",
        "-1.1206839 0.11029067 ",
    ]
    .concat();
    assert_eq!(Brain::new().print(), expected);
}

#[test]
fn print_writes_whole_numbers_and_fractions() {
    let mut hidden_weights = [0i64; 32];
    hidden_weights[0] = ONE;
    hidden_weights[1] = -ONE;
    hidden_weights[2] = 1;
    hidden_weights[3] = -1;
    hidden_weights[4] = 12 * ONE + 500_000_000;
    hidden_weights[5] = -999 * ONE - 999_999_999;
    hidden_weights[6] = PARAMETER_LIMIT;
    hidden_weights[7] = -PARAMETER_LIMIT;
    hidden_weights[8] = 100_000_000;
    hidden_weights[9] = 10;
    hidden_weights[10] = 1_000_000_010;
    hidden_weights[11] = 20 * ONE;
    let brain =
        Brain::from_parameters(hidden_weights, [0; 16], [7 * ONE; 8], [-3, 250_000_000]).unwrap();
    let expected = [
        "\n\n---- Brain ----\n",
        "Hidden weights:\n",
        "1 -1 0.000000001 -0.000000001 \n",
        "12.5 -999.999999999 1000 -1000 \n",
        "0.1 0.00000001 1.00000001 20 \n",
        "0 0 0 0 \n",
        "0 0 0 0 \n",
        "0 0 0 0 \n",
        "0 0 0 0 \n",
        "0 0 0 0 \n",
        "Output weights:\n",
        "0 0 0 0 0 0 0 0 \n",
        "0 0 0 0 0 0 0 0 \n",
        "Hidden bias:\n",
        "7 7 7 7 7 7 7 7 \n",
        "Output bias:\n",
        "-0.000000003 0.25 ",
    ]
    .concat();
    assert_eq!(brain.print(), expected);
}
