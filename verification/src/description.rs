//! The description of a brain: a text for people to read, with every
//! parameter as a decimal numeral.

use vstd::prelude::*;
use crate::network::{parameter_at, reals, HIDDEN_BIAS_AT, OUTPUT_BIAS_AT, OUTPUT_WEIGHTS_AT};
use crate::numeral::{append_char, append_numeral, numeral};

verus! {

/// The text of `n` parameters in a row, from place `from` on: the numeral
/// of each, followed by a space.
pub open spec fn row_text(parameters: Seq<int>, from: int, n: nat) -> Seq<char>
    decreases n,
{
    if n == 0 {
        Seq::empty()
    } else {
        row_text(parameters, from, (n - 1) as nat) + numeral(parameter_at(parameters, from, n - 1))
            + seq![' ']
    }
}

/// The text of `rows` rows of `per_row` parameters each, from place `from`
/// on: every row ends its line.
pub open spec fn rows_text(parameters: Seq<int>, from: int, rows: nat, per_row: nat) -> Seq<char>
    decreases rows,
{
    if rows == 0 {
        Seq::empty()
    } else {
        rows_text(parameters, from, (rows - 1) as nat, per_row) + row_text(
            parameters,
            from + (rows - 1) * per_row,
            per_row,
        ) + seq!['\n']
    }
}

/// The text that describes a brain: under a heading, the hidden weights,
/// one hidden unit to a line; the output weights, one output to a line; the
/// hidden biases on one line; the output biases on one line.
pub open spec fn description(parameters: Seq<int>) -> Seq<char> {
    "\n\n---- Brain ----\nHidden weights:\n"@ + rows_text(parameters, 0, 8, 4)
        + "Output weights:\n"@ + rows_text(parameters, OUTPUT_WEIGHTS_AT as int, 2, 8)
        + "Hidden bias:\n"@ + row_text(parameters, HIDDEN_BIAS_AT as int, 8)
        + "\nOutput bias:\n"@ + row_text(parameters, OUTPUT_BIAS_AT as int, 2)
}

/// The text of a row depends only on the parameters that it shows.
pub(crate) proof fn lemma_row_text_agrees(
    p: Seq<int>,
    p_from: int,
    q: Seq<int>,
    q_from: int,
    n: nat,
)
    requires
        forall|j: int|
            0 <= j < n ==> #[trigger] parameter_at(p, p_from, j) == parameter_at(q, q_from, j),
    ensures
        row_text(p, p_from, n) == row_text(q, q_from, n),
    decreases n,
{
    if n > 0 {
        lemma_row_text_agrees(p, p_from, q, q_from, (n - 1) as nat);
    }
}

/// The text of rows depends only on the parameters that they show.
pub(crate) proof fn lemma_rows_text_agrees(
    p: Seq<int>,
    p_from: int,
    q: Seq<int>,
    q_from: int,
    rows: nat,
    per_row: nat,
)
    requires
        forall|j: int|
            0 <= j < rows * per_row ==> #[trigger] parameter_at(p, p_from, j) == parameter_at(
                q,
                q_from,
                j,
            ),
    ensures
        rows_text(p, p_from, rows, per_row) == rows_text(q, q_from, rows, per_row),
    decreases rows,
{
    if rows > 0 {
        let done = (rows - 1) * per_row;
        assert(done + per_row == rows * per_row) by (nonlinear_arith)
            requires
                done == (rows - 1) * per_row,
        ;
        assert(0 <= done) by (nonlinear_arith)
            requires
                done == (rows - 1) * per_row,
                rows >= 1,
                per_row >= 0,
        ;
        lemma_rows_text_agrees(p, p_from, q, q_from, (rows - 1) as nat, per_row);
        assert forall|j: int| 0 <= j < per_row implies #[trigger] parameter_at(
            p,
            p_from + done,
            j,
        ) == parameter_at(q, q_from + done, j) by {
            assert(parameter_at(p, p_from, done + j) == parameter_at(q, q_from, done + j));
        }
        lemma_row_text_agrees(p, p_from + done, q, q_from + done, per_row);
    }
}

/// Appends a row of `n` values, from place `from` on.
pub(crate) fn append_row(text: &mut String, values: &[i64], from: usize, n: usize)
    requires
        from + n <= values@.len(),
    ensures
        final(text)@ == old(text)@ + row_text(reals(values@), from as int, n as nat),
{
    let m = values.len();
    let mut j: usize = 0;
    while j < n
        invariant
            0 <= j <= n,
            m == values@.len(),
            from + n <= m,
            text@ == old(text)@ + row_text(reals(values@), from as int, j as nat),
        decreases n - j,
    {
        append_numeral(text, values[from + j]);
        append_char(text, ' ');
        j = j + 1;
    }
}

/// Appends `rows` rows of `per_row` values each, one row to a line.
pub(crate) fn append_rows(text: &mut String, values: &[i64], rows: usize, per_row: usize)
    requires
        rows * per_row <= values@.len(),
    ensures
        final(text)@ == old(text)@ + rows_text(reals(values@), 0, rows as nat, per_row as nat),
{
    let m = values.len();
    let mut r: usize = 0;
    let mut from: usize = 0;
    while r < rows
        invariant
            0 <= r <= rows,
            m == values@.len(),
            rows * per_row <= m,
            from == r * per_row,
            text@ == old(text)@ + rows_text(reals(values@), 0, r as nat, per_row as nat),
        decreases rows - r,
    {
        proof {
            assert((r + 1) * per_row == r * per_row + per_row) by (nonlinear_arith);
            assert((r + 1) * per_row <= rows * per_row) by (nonlinear_arith)
                requires
                    r + 1 <= rows,
            ;
        }
        append_row(text, values, from, per_row);
        append_char(text, '\n');
        proof {
            assert(text@ =~= old(text)@ + rows_text(
                reals(values@),
                0,
                (r + 1) as nat,
                per_row as nat,
            ));
        }
        from = from + per_row;
        r = r + 1;
    }
}

} // verus!
