//! The mathematical model of the linear-system solver: the Gauss-Jordan
//! reduction of the augmented matrix `[A | b]`, the scan that classifies
//! the reduced system, and the parametrization of an indeterminate
//! solution set.

use crate::error::FreeTerm;
use crate::error::PivotRelation;
use crate::fp;
use crate::matrix::pivot_upto;
use crate::matrix::sm_scale_row;
use crate::matrix::sm_swap;
use crate::matrix::add_row_upto;
use crate::matrix::MatModel;
use crate::utils::spec_nearly_equal;
use vstd::prelude::*;

verus! {

/// The state of the reduction: the augmented matrix and the row the next
/// pivot will live in.  The column under consideration advances with
/// every step; the row advances only when a pivot is found.
#[verifier::ext_equal]
pub struct RrefState {
    pub m: MatModel,
    pub row: int,
}

/// The matrix `m` with, for every row `k != row` below `upto`,
/// `m[k][j]` times row `row` subtracted (as an addition of the negated
/// coefficient) over all columns: clearing the pivot column `j` from
/// every other row.
pub open spec fn elim_col_upto(m: MatModel, row: int, j: int, upto: int) -> MatModel {
    MatModel {
        elems: Seq::new(
            m.elems.len(),
            |k: int|
                if 0 <= k < upto && k != row {
                    add_row_upto(m, k, row, fp::neg_of(m.at(k, j)), m.cols as int)
                } else {
                    m.elems[k]
                },
        ),
        ..m
    }
}

/// One step of the reduction at column `j`: if every candidate pivot in
/// the column (at or below the pivot row) is tolerance-zero, the column
/// is skipped; otherwise the best candidate is swapped into the pivot
/// row, the row is scaled so the pivot becomes 1, the column is cleared
/// from every other row, and the pivot row advances.
pub open spec fn rref_step(s: RrefState, j: int) -> RrefState {
    if s.row >= s.m.rows {
        s
    } else {
        let p = pivot_upto(s.m, j, s.row, s.m.rows as int);
        let pv = s.m.at(p, j);
        if spec_nearly_equal(pv, fp::ZERO_BITS) {
            s
        } else {
            let m1 = if p != s.row {
                sm_swap(s.m, s.row, p)
            } else {
                s.m
            };
            let m2 = sm_scale_row(m1, s.row, fp::div_of(fp::ONE_BITS, pv));
            RrefState { m: elim_col_upto(m2, s.row, j, m2.rows as int), row: s.row + 1 }
        }
    }
}

/// The state of the reduction after the first `j` columns of the
/// coefficient matrix have been processed.
pub open spec fn rref_iter(m: MatModel, j: int) -> RrefState
    decreases j,
{
    if j <= 0 {
        RrefState { m, row: 0 }
    } else {
        rref_step(rref_iter(m, j - 1), j - 1)
    }
}

/// Whether every coefficient entry of row `i` (all columns but the last,
/// augmented one) is tolerance-zero.
pub open spec fn coeff_row_zero(m: MatModel, i: int) -> bool {
    forall|j: int| 0 <= j < m.cols - 1 ==> spec_nearly_equal(#[trigger] m.at(i, j), fp::ZERO_BITS)
}

/// The classifying scan of the reduced augmented matrix, from row `i`
/// upward: a row whose coefficients are all tolerance-zero but whose
/// augmented entry is not makes the system incompatible (`Err`);
/// otherwise the scan returns the index of the last row with a nonzero
/// coefficient, or -1 when there is none.
pub open spec fn last_nonzero_scan(m: MatModel, i: int) -> Result<int, ()>
    decreases i + 1,
{
    if i < 0 {
        Ok(-1)
    } else if !coeff_row_zero(m, i) {
        Ok(i)
    } else if !spec_nearly_equal(m.at(i, m.cols - 1), fp::ZERO_BITS) {
        Err(())
    } else {
        last_nonzero_scan(m, i - 1)
    }
}

/// The unique solution of a determined system: the augmented column of
/// the first `n` rows, as an `n` by 1 matrix.
pub open spec fn sm_solution(m: MatModel, n: nat) -> MatModel {
    MatModel { rows: n, cols: 1, elems: Seq::new(n, |i: int| Seq::new(1, |z: int| m.at(i, m.cols - 1))) }
}

/// The first column of row `i` (among the coefficient columns) holding a
/// tolerance-nonzero entry, scanning from column `j`; the number of
/// coefficient columns when there is none.
pub open spec fn first_nonzero_col(m: MatModel, i: int, j: int) -> int
    decreases m.cols - j,
{
    if j >= m.cols - 1 {
        j
    } else if !spec_nearly_equal(m.at(i, j), fp::ZERO_BITS) {
        j
    } else {
        first_nonzero_col(m, i, j + 1)
    }
}

/// The model of one free-variable term: the index of the free variable
/// and the coefficient moved to the right-hand side (sign flipped).
pub type TermModel = (int, u64);

/// The free-variable terms of row `i` taken from the columns
/// `from <= j < upto`: one term per tolerance-nonzero coefficient, with
/// the coefficient negated.
pub open spec fn terms_upto(m: MatModel, i: int, from: int, upto: int) -> Seq<TermModel>
    decreases upto - from,
{
    if upto <= from {
        Seq::empty()
    } else {
        terms_upto(m, i, from, upto - 1) + (if !spec_nearly_equal(
            m.at(i, upto - 1),
            fp::ZERO_BITS,
        ) {
            seq![(upto - 1, fp::neg_of(m.at(i, upto - 1)))]
        } else {
            Seq::empty()
        })
    }
}

/// The model of the parametrized relation read off row `i` of the
/// reduced matrix: the pivot variable, the constant (the augmented
/// entry), and the terms of the free variables to its right.
#[verifier::ext_equal]
pub struct RelModel {
    pub var: int,
    pub constant: u64,
    pub terms: Seq<TermModel>,
}

/// The relation read off row `i`: its pivot variable is the first
/// tolerance-nonzero coefficient column.
pub open spec fn spec_relation(m: MatModel, i: int) -> RelModel {
    let p = first_nonzero_col(m, i, 0);
    RelModel { var: p, constant: m.at(i, m.cols - 1), terms: terms_upto(m, i, p + 1, m.cols - 1) }
}

/// The model of a sequence of free-variable terms.
pub open spec fn terms_view(s: Seq<FreeTerm>) -> Seq<TermModel> {
    Seq::new(s.len(), |k: int| (s[k].var as int, s[k].coeff))
}

/// The model of a parametrized relation.
pub open spec fn rel_model(r: PivotRelation) -> RelModel {
    RelModel { var: r.var as int, constant: r.constant, terms: terms_view(r.terms@) }
}

/// Once the pivot row of the reduction has passed the last row, the
/// remaining columns change nothing.
pub proof fn lemma_rref_stall(m: MatModel, j1: int, j2: int)
    requires
        0 <= j1 <= j2,
        rref_iter(m, j1).row >= rref_iter(m, j1).m.rows,
    ensures
        rref_iter(m, j2) == rref_iter(m, j1),
    decreases j2 - j1,
{
    if j1 < j2 {
        lemma_rref_stall(m, j1, j2 - 1);
    }
}

} // verus!
