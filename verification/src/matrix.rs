//! The dense matrix type and its elementary operations.
//!
//! A matrix owns its elements as rows of IEEE double bit patterns.  The
//! mathematical model of a matrix is `MatModel`: its dimensions and the
//! sequence of its rows.  Every operation returns fresh storage; no
//! operation mutates an operand held by the caller.

use crate::error::CalcError;
use crate::fp;
use crate::utils::nearly_equal;
use crate::utils::spec_nearly_equal;
use vstd::prelude::*;

verus! {

/// The mathematical model of a matrix: its dimensions and its elements,
/// row by row, each element the bit pattern of an IEEE double.
#[verifier::ext_equal]
pub struct MatModel {
    pub rows: nat,
    pub cols: nat,
    pub elems: Seq<Seq<u64>>,
}

impl MatModel {
    /// The storage matches the dimensions: one sequence per row, each of
    /// the common length.
    pub open spec fn wf(self) -> bool {
        &&& self.elems.len() == self.rows
        &&& forall|i: int| 0 <= i < self.rows ==> (#[trigger] self.elems[i]).len() == self.cols
    }

    /// The element at row `i`, column `j`.
    pub open spec fn at(self, i: int, j: int) -> u64 {
        self.elems[i][j]
    }

    /// Whether the matrix has as many rows as columns.
    pub open spec fn is_square(self) -> bool {
        self.rows == self.cols
    }
}

/// The model with one element replaced.
pub open spec fn sm_update(m: MatModel, i: int, j: int, v: u64) -> MatModel {
    MatModel { elems: m.elems.update(i, m.elems[i].update(j, v)), ..m }
}

/// A `rows` by `cols` model with every element `v`.
pub open spec fn sm_filled(rows: nat, cols: nat, v: u64) -> MatModel {
    MatModel { rows, cols, elems: Seq::new(rows, |i: int| Seq::new(cols, |j: int| v)) }
}

/// The zero-filled `rows` by `cols` model.
pub open spec fn sm_zero(rows: nat, cols: nat) -> MatModel {
    sm_filled(rows, cols, fp::ZERO_BITS)
}

/// The `n` by `n` identity model: 1.0 on the diagonal, 0.0 elsewhere.
pub open spec fn sm_identity(n: nat) -> MatModel {
    MatModel {
        rows: n,
        cols: n,
        elems: Seq::new(
            n,
            |i: int| Seq::new(n, |j: int| if i == j { fp::ONE_BITS } else { fp::ZERO_BITS }),
        ),
    }
}

/// The elements of the identity with only the first `k` diagonal entries
/// written so far.
spec fn identity_prefix(n: nat, k: int) -> Seq<Seq<u64>> {
    Seq::new(
        n,
        |a: int|
            Seq::new(n, |b: int| if a == b && a < k { fp::ONE_BITS } else { fp::ZERO_BITS }),
    )
}

/// Row `i` of the elementwise sum of `a` and `b`.
pub open spec fn add_row(a: MatModel, b: MatModel, i: int) -> Seq<u64> {
    Seq::new(a.cols, |j: int| fp::add_of(a.at(i, j), b.at(i, j)))
}

/// The elementwise sum of two same-size matrices.
pub open spec fn sm_add(a: MatModel, b: MatModel) -> MatModel {
    MatModel { rows: a.rows, cols: a.cols, elems: Seq::new(a.rows, |i: int| add_row(a, b, i)) }
}

/// Row `i` of `a` with every element multiplied by the scalar `k`.
pub open spec fn scale_row_model(a: MatModel, k: u64, i: int) -> Seq<u64> {
    Seq::new(a.cols, |j: int| fp::mul_of(a.at(i, j), k))
}

/// The matrix `a` with every element multiplied by the scalar `k`.
pub open spec fn sm_scale(a: MatModel, k: u64) -> MatModel {
    MatModel {
        rows: a.rows,
        cols: a.cols,
        elems: Seq::new(a.rows, |i: int| scale_row_model(a, k, i)),
    }
}

/// Row `i` of the transpose of `a`: column `i` of `a`.
pub open spec fn transpose_row(a: MatModel, i: int) -> Seq<u64> {
    Seq::new(a.rows, |j: int| a.at(j, i))
}

/// The transpose of `a`.
pub open spec fn sm_transpose(a: MatModel) -> MatModel {
    MatModel { rows: a.cols, cols: a.rows, elems: Seq::new(a.cols, |i: int| transpose_row(a, i)) }
}

/// The running inner product of the first `n` positions of `ra` and `rb`,
/// accumulated left to right from 0.0, in the evaluation order of the
/// product loop.
pub open spec fn dot_prefix(ra: Seq<u64>, rb: Seq<u64>, n: int) -> u64
    decreases n,
{
    if n <= 0 {
        fp::ZERO_BITS
    } else {
        fp::add_of(dot_prefix(ra, rb, n - 1), fp::mul_of(ra[n - 1], rb[n - 1]))
    }
}

/// Column `j` of `m`, top to bottom.
pub open spec fn col_of(m: MatModel, j: int) -> Seq<u64> {
    Seq::new(m.rows, |k: int| m.at(k, j))
}

/// Element `(i, j)` of the matrix product `a * b`.
pub open spec fn mul_entry(a: MatModel, b: MatModel, i: int, j: int) -> u64 {
    dot_prefix(a.elems[i], col_of(b, j), a.cols as int)
}

/// Row `i` of the matrix product `a * b`.
pub open spec fn mul_row(a: MatModel, b: MatModel, i: int) -> Seq<u64> {
    Seq::new(b.cols, |j: int| mul_entry(a, b, i, j))
}

/// The matrix product of `a` (m by n) and `b` (n by p): an m by p matrix
/// whose `(i, j)` element is the inner product of row `i` of `a` and
/// column `j` of `b`.
pub open spec fn sm_mul(a: MatModel, b: MatModel) -> MatModel {
    MatModel { rows: a.rows, cols: b.cols, elems: Seq::new(a.rows, |i: int| mul_row(a, b, i)) }
}

/// Whether every diagonal element of `m` is tolerance-equal to 1.0 and
/// every off-diagonal element tolerance-equal to 0.0 (and `m` is square).
pub open spec fn spec_is_identity(m: MatModel) -> bool {
    &&& m.is_square()
    &&& forall|i: int, j: int|
        0 <= i < m.rows && 0 <= j < m.cols ==> (if i == j {
            spec_nearly_equal(#[trigger] m.at(i, j), fp::ONE_BITS)
        } else {
            spec_nearly_equal(m.at(i, j), fp::ZERO_BITS)
        })
}

/// The model with rows `a` and `b` exchanged.
pub open spec fn sm_swap(m: MatModel, a: int, b: int) -> MatModel {
    MatModel { elems: m.elems.update(a, m.elems[b]).update(b, m.elems[a]), ..m }
}

/// Row `i` of `m` with the columns `from <= j < upto` multiplied by
/// `factor` (the others unchanged).
pub open spec fn scale_row_upto(m: MatModel, i: int, factor: u64, upto: int) -> Seq<u64> {
    Seq::new(m.cols, |j: int| if j < upto { fp::mul_of(m.at(i, j), factor) } else { m.at(i, j) })
}

/// The model with row `i` multiplied elementwise by `factor`.
pub open spec fn sm_scale_row(m: MatModel, i: int, factor: u64) -> MatModel {
    MatModel { elems: m.elems.update(i, scale_row_upto(m, i, factor, m.cols as int)), ..m }
}

/// Row `dst` of `m` with `factor` times row `src` subtracted from the
/// columns `from <= j < upto` (the others unchanged).
pub open spec fn sub_row_upto(m: MatModel, dst: int, src: int, factor: u64, from: int, upto: int) -> Seq<
    u64,
> {
    Seq::new(
        m.cols,
        |j: int|
            if from <= j < upto {
                fp::sub_of(m.at(dst, j), fp::mul_of(factor, m.at(src, j)))
            } else {
                m.at(dst, j)
            },
    )
}

/// The model with `factor` times row `src` subtracted from row `dst`,
/// starting at column `from`.
pub open spec fn sm_sub_scaled_row(m: MatModel, dst: int, src: int, factor: u64, from: int) -> MatModel {
    MatModel { elems: m.elems.update(dst, sub_row_upto(m, dst, src, factor, from, m.cols as int)), ..m }
}

/// Row `dst` of `m` with `factor` times row `src` added to the columns
/// `j < upto` (the others unchanged).
pub open spec fn add_row_upto(m: MatModel, dst: int, src: int, factor: u64, upto: int) -> Seq<u64> {
    Seq::new(
        m.cols,
        |j: int|
            if j < upto {
                fp::add_of(m.at(dst, j), fp::mul_of(factor, m.at(src, j)))
            } else {
                m.at(dst, j)
            },
    )
}

/// The model with `factor` times row `src` added to row `dst`.
pub open spec fn sm_add_scaled_row(m: MatModel, dst: int, src: int, factor: u64) -> MatModel {
    MatModel { elems: m.elems.update(dst, add_row_upto(m, dst, src, factor, m.cols as int)), ..m }
}

/// The index, among the rows `from <= i < upto`, of a largest-magnitude
/// element in column `colk`: the scan keeps the earliest row unless a
/// strictly larger magnitude appears below it.
pub open spec fn pivot_upto(m: MatModel, colk: int, from: int, upto: int) -> int
    decreases upto - from,
{
    if upto <= from + 1 {
        from
    } else {
        let b = pivot_upto(m, colk, from, upto - 1);
        if fp::lt_of(fp::abs_of(m.at(b, colk)), fp::abs_of(m.at(upto - 1, colk))) {
            upto - 1
        } else {
            b
        }
    }
}

/// Row `i` of the coefficient matrix `a` extended with the entry of the
/// single-column right-hand side `b`.
pub open spec fn augment_row(a: MatModel, b: MatModel, i: int) -> Seq<u64> {
    a.elems[i].push(b.at(i, 0))
}

/// The augmented matrix `[a | b]`: `a` with the single column of `b`
/// appended on the right.
pub open spec fn sm_augment(a: MatModel, b: MatModel) -> MatModel {
    MatModel {
        rows: a.rows,
        cols: a.cols + 1,
        elems: Seq::new(a.rows, |i: int| augment_row(a, b, i)),
    }
}

/// The state of the determinant elimination after some number of pivot
/// steps: the partially triangularized matrix, the accumulated product of
/// the pivots (sign-adjusted for row swaps), and whether a tolerance-zero
/// pivot column has been found.
#[verifier::ext_equal]
pub struct DetState {
    pub m: MatModel,
    pub acc: u64,
    pub singular: bool,
}

/// The matrix `m` with, for every row `k < i < upto`, `factor_i` times
/// row `k` subtracted over the columns `k..cols`, where `factor_i` is
/// `m[i][k] / m[k][k]`: one column of forward elimination.
pub open spec fn elim_below_upto(m: MatModel, k: int, upto: int) -> MatModel {
    MatModel {
        elems: Seq::new(
            m.elems.len(),
            |i: int|
                if k < i < upto {
                    sub_row_upto(m, i, k, fp::div_of(m.at(i, k), m.at(k, k)), k, m.cols as int)
                } else {
                    m.elems[i]
                },
        ),
        ..m
    }
}

/// One step of the determinant elimination at diagonal position `k`:
/// select the largest-magnitude pivot in column `k` at or below row `k`;
/// if it is tolerance-zero the matrix is singular; otherwise swap it into
/// place (negating the accumulator), eliminate the column below it, and
/// multiply the pivot into the accumulator.
pub open spec fn det_step(s: DetState, k: int) -> DetState {
    if s.singular {
        s
    } else {
        let n = s.m.rows as int;
        let p = pivot_upto(s.m, k, k, n);
        let pv = s.m.at(p, k);
        if spec_nearly_equal(pv, fp::ZERO_BITS) {
            DetState { singular: true, ..s }
        } else {
            let m1 = if p != k {
                sm_swap(s.m, k, p)
            } else {
                s.m
            };
            let acc1 = if p != k {
                fp::neg_of(s.acc)
            } else {
                s.acc
            };
            DetState { m: elim_below_upto(m1, k, n), acc: fp::mul_of(acc1, pv), singular: false }
        }
    }
}

/// The state of the determinant elimination after the first `k` pivot
/// steps on `m`, starting from the accumulator 1.0.
pub open spec fn det_iter(m: MatModel, k: int) -> DetState
    decreases k,
{
    if k <= 0 {
        DetState { m, acc: fp::ONE_BITS, singular: false }
    } else {
        det_step(det_iter(m, k - 1), k - 1)
    }
}

/// The determinant of the square matrix `m`, computed by Gaussian
/// elimination with partial pivoting: exactly 0.0 if some pivot column is
/// tolerance-zero, and otherwise the sign-adjusted product of the pivots.
pub open spec fn spec_determinant(m: MatModel) -> u64 {
    let s = det_iter(m, m.rows as int);
    if s.singular {
        fp::ZERO_BITS
    } else {
        s.acc
    }
}

/// Once a step of the determinant elimination finds a singular column,
/// every later state stays singular.
proof fn lemma_det_singular_stable(m: MatModel, k1: int, k2: int)
    requires
        0 <= k1 <= k2,
        det_iter(m, k1).singular,
    ensures
        det_iter(m, k2).singular,
    decreases k2 - k1,
{
    if k1 < k2 {
        lemma_det_singular_stable(m, k1, k2 - 1);
    }
}

/// The state of the Gauss-Jordan inversion: the matrix being driven to
/// the identity, the accumulator receiving every row operation, and
/// whether all pivot columns found so far were tolerance-nonzero.
#[verifier::ext_equal]
pub struct GjState {
    pub m: MatModel,
    pub acc: MatModel,
    pub ok: bool,
}

/// The matrix `m` with, for every row `k < i < upto`, `factor_i` times
/// row `k` subtracted over all columns, where `factor_i` is
/// `f[i][k] / f[k][k]`: the factors are read from `f` so that the same
/// row operation can be applied to an accumulator.
pub open spec fn gj_elim_below(m: MatModel, f: MatModel, k: int, upto: int) -> MatModel {
    MatModel {
        elems: Seq::new(
            m.elems.len(),
            |i: int|
                if k < i < upto {
                    sub_row_upto(m, i, k, fp::div_of(f.at(i, k), f.at(k, k)), 0, m.cols as int)
                } else {
                    m.elems[i]
                },
        ),
        ..m
    }
}

/// The matrix `m` with, for every row `i < upto` (all above row `k`),
/// `f[i][k] / f[k][k]` times row `k` subtracted over all columns.
pub open spec fn gj_elim_above_upto(m: MatModel, f: MatModel, k: int, upto: int) -> MatModel {
    MatModel {
        elems: Seq::new(
            m.elems.len(),
            |i: int|
                if 0 <= i < upto {
                    sub_row_upto(m, i, k, fp::div_of(f.at(i, k), f.at(k, k)), 0, m.cols as int)
                } else {
                    m.elems[i]
                },
        ),
        ..m
    }
}

/// One forward step of the inversion at diagonal position `k`: partial
/// pivoting as in the determinant, with the row swap and the eliminations
/// applied to the accumulator as well.
pub open spec fn gj_fwd_step(s: GjState, k: int) -> GjState {
    if !s.ok {
        s
    } else {
        let n = s.m.rows as int;
        let p = pivot_upto(s.m, k, k, n);
        let pv = s.m.at(p, k);
        if spec_nearly_equal(pv, fp::ZERO_BITS) {
            GjState { ok: false, ..s }
        } else {
            let m1 = if p != k {
                sm_swap(s.m, k, p)
            } else {
                s.m
            };
            let a1 = if p != k {
                sm_swap(s.acc, k, p)
            } else {
                s.acc
            };
            GjState { m: gj_elim_below(m1, m1, k, n), acc: gj_elim_below(a1, m1, k, n), ok: true }
        }
    }
}

/// The inversion state after the first `k` forward steps on `m`, the
/// accumulator starting as the identity.
pub open spec fn gj_fwd(m: MatModel, k: int) -> GjState
    decreases k,
{
    if k <= 0 {
        GjState { m, acc: sm_identity(m.rows), ok: true }
    } else {
        gj_fwd_step(gj_fwd(m, k - 1), k - 1)
    }
}

/// One scaling step of the inversion: row `k` of both matrices is
/// multiplied by the reciprocal of the diagonal element `m[k][k]`.
pub open spec fn gj_scale_step(s: GjState, k: int) -> GjState {
    if !s.ok {
        s
    } else {
        let f = fp::div_of(fp::ONE_BITS, s.m.at(k, k));
        GjState { m: sm_scale_row(s.m, k, f), acc: sm_scale_row(s.acc, k, f), ok: true }
    }
}

/// The inversion state after the forward phase and the scaling of the
/// first `k` rows.
pub open spec fn gj_scale_iter(m: MatModel, k: int) -> GjState
    decreases k,
{
    if k <= 0 {
        gj_fwd(m, m.rows as int)
    } else {
        gj_scale_step(gj_scale_iter(m, k - 1), k - 1)
    }
}

/// One back-substitution step of the inversion at diagonal position `k`:
/// the super-diagonal entries of column `k` are eliminated from every row
/// above `k`, in both matrices.
pub open spec fn gj_back_step(s: GjState, k: int) -> GjState {
    if !s.ok {
        s
    } else {
        GjState {
            m: gj_elim_above_upto(s.m, s.m, k, k),
            acc: gj_elim_above_upto(s.acc, s.m, k, k),
            ok: true,
        }
    }
}

/// The inversion state after the forward and scaling phases and the
/// first `j` back-substitution steps, which process the columns from the
/// last (`rows - 1`) toward the first.
pub open spec fn gj_back_iter(m: MatModel, j: int) -> GjState
    decreases j,
{
    if j <= 0 {
        gj_scale_iter(m, m.rows as int)
    } else {
        gj_back_step(gj_back_iter(m, j - 1), m.rows - j)
    }
}

/// How many back-substitution steps an `n` by `n` inversion makes: one
/// per column after the first.
pub open spec fn gj_back_steps(m: MatModel) -> int {
    if m.rows == 0 {
        0
    } else {
        m.rows - 1
    }
}

/// The final state of the Gauss-Jordan inversion of `m`.
pub open spec fn spec_inverse_state(m: MatModel) -> GjState {
    gj_back_iter(m, gj_back_steps(m))
}

/// Whether every pivot column of the forward phase was
/// tolerance-nonzero.
pub open spec fn spec_inverse_ok(m: MatModel) -> bool {
    gj_fwd(m, m.rows as int).ok
}

/// The inverse of `m`: the accumulator after the whole Gauss-Jordan
/// elimination.
pub open spec fn spec_inverse(m: MatModel) -> MatModel {
    spec_inverse_state(m).acc
}

/// The base raised to the `e`-th power by repeated multiplication from
/// the identity: `b * (b * (... * (b * I)))`, `e` times.
pub open spec fn sm_pow(b: MatModel, e: nat) -> MatModel
    decreases e,
{
    if e == 0 {
        sm_identity(b.rows)
    } else {
        sm_mul(b, sm_pow(b, (e - 1) as nat))
    }
}

/// Whether the double `e` has a tolerance-zero fractional part, making
/// it an acceptable matrix exponent.
pub open spec fn spec_exp_integral(e: u64) -> bool {
    spec_nearly_equal(fp::sub_of(e, fp::trunc_of(e)), fp::ZERO_BITS)
}

/// How many multiplications the power loop makes: the exponent's
/// absolute value, truncated to an unsigned integer.
pub open spec fn spec_pow_count(e: u64) -> nat {
    fp::to_u64_of(fp::abs_of(e)) as nat
}

/// The matrix the power loop multiplies by: the inverse for a negative
/// exponent, the base itself otherwise.
pub open spec fn spec_pow_base(m: MatModel, e: u64) -> MatModel {
    if fp::lt_of(e, fp::ZERO_BITS) {
        spec_inverse(m)
    } else {
        m
    }
}

/// Transposing a matrix twice gives back exactly the original matrix,
/// element for element.
pub proof fn lemma_transpose_involution(m: MatModel)
    requires
        m.wf(),
    ensures
        sm_transpose(sm_transpose(m)) == m,
{
    assert(sm_transpose(sm_transpose(m)) =~~= m);
}

/// Once a forward step of the inversion finds a singular column, every
/// later forward state keeps the failure.
proof fn lemma_gj_ok_stable(m: MatModel, k1: int, k2: int)
    requires
        0 <= k1 <= k2,
        !gj_fwd(m, k1).ok,
    ensures
        !gj_fwd(m, k2).ok,
    decreases k2 - k1,
{
    if k1 < k2 {
        lemma_gj_ok_stable(m, k1, k2 - 1);
    }
}

/// A dense matrix of IEEE doubles, held as bit patterns.
#[derive(Clone, Debug)]
pub struct Matrix {
    rows: usize,
    cols: usize,
    data: Vec<Vec<u64>>,
}

impl View for Matrix {
    type V = MatModel;

    closed spec fn view(&self) -> MatModel {
        MatModel {
            rows: self.rows as nat,
            cols: self.cols as nat,
            elems: Seq::new(self.data@.len(), |i: int| self.data@[i]@),
        }
    }
}

/// A row of `cols` copies of `v`.
fn filled_row(cols: usize, v: u64) -> (r: Vec<u64>)
    ensures
        r@ == Seq::new(cols as nat, |j: int| v),
{
    let mut row: Vec<u64> = Vec::new();
    let mut j: usize = 0;
    while j < cols
        invariant
            j <= cols,
            row@ == Seq::new(j as nat, |k: int| v),
        decreases cols - j,
    {
        row.push(v);
        proof {
            assert(row@ =~= Seq::new((j + 1) as nat, |k: int| v));
        }
        j = j + 1;
    }
    row
}

impl Matrix {
    /// Creates a `rows` by `cols` matrix with every element 0.0.
    pub fn new(rows: usize, cols: usize) -> (r: Matrix)
        ensures
            r@.wf(),
            r@ == sm_zero(rows as nat, cols as nat),
    {
        let mut data: Vec<Vec<u64>> = Vec::new();
        let mut i: usize = 0;
        while i < rows
            invariant
                i <= rows,
                data@.len() == i,
                forall|k: int|
                    0 <= k < i ==> (#[trigger] data@[k])@ == Seq::new(
                        cols as nat,
                        |j: int| fp::ZERO_BITS,
                    ),
            decreases rows - i,
        {
            data.push(filled_row(cols, fp::ZERO_BITS));
            i = i + 1;
        }
        let r = Matrix { rows, cols, data };
        proof {
            assert(r@.elems =~~= sm_zero(rows as nat, cols as nat).elems);
        }
        r
    }

    /// Creates a 1 by 1 matrix holding `scalar`.
    pub fn from_scalar(scalar: u64) -> (r: Matrix)
        ensures
            r@.wf(),
            r@ == sm_update(sm_zero(1, 1), 0, 0, scalar),
    {
        let mut m = Matrix::new(1, 1);
        let _ = m.set(0, 0, scalar);
        m
    }

    /// Creates the `size` by `size` identity matrix.
    pub fn identity(size: usize) -> (r: Matrix)
        ensures
            r@.wf(),
            r@ == sm_identity(size as nat),
    {
        let mut m = Matrix::new(size, size);
        let mut i: usize = 0;
        proof {
            assert(m@.elems =~~= identity_prefix(size as nat, 0));
        }
        while i < size
            invariant
                i <= size,
                m@.wf(),
                m@.rows == size,
                m@.cols == size,
                m@.elems == identity_prefix(size as nat, i as int),
            decreases size - i,
        {
            let _ = m.set(i, i, fp::ONE_BITS);
            i = i + 1;
            proof {
                assert(m@.elems =~~= identity_prefix(size as nat, i as int));
            }
        }
        proof {
            assert(m@.elems =~~= sm_identity(size as nat).elems);
        }
        m
    }

    /// The elemental matrix of type I: the identity with rows `i` and
    /// `j` exchanged, or `IndexOutOfRange` if either row index lies
    /// outside the matrix.
    pub fn elemental_i(size: usize, i: usize, j: usize) -> (r: Result<Matrix, CalcError>)
        ensures
            i < size && j < size ==> (r matches Ok(m) && m@.wf() && m@ == sm_update(
                sm_update(
                    sm_update(
                        sm_update(sm_identity(size as nat), i as int, i as int, fp::ZERO_BITS),
                        i as int,
                        j as int,
                        fp::ONE_BITS,
                    ),
                    j as int,
                    j as int,
                    fp::ZERO_BITS,
                ),
                j as int,
                i as int,
                fp::ONE_BITS,
            )),
            !(i < size && j < size) ==> r == Err::<Matrix, CalcError>(CalcError::IndexOutOfRange),
    {
        let mut m = Matrix::identity(size);
        if i >= size || j >= size {
            return Err(CalcError::IndexOutOfRange);
        }
        let _ = m.set(i, i, fp::ZERO_BITS);
        let _ = m.set(i, j, fp::ONE_BITS);
        let _ = m.set(j, j, fp::ZERO_BITS);
        let _ = m.set(j, i, fp::ONE_BITS);
        Ok(m)
    }

    /// The elemental matrix of type II: the identity with the diagonal
    /// element of row `i` replaced by `scalar`, or `IndexOutOfRange` if
    /// `i` lies outside the matrix.
    pub fn elemental_ii(size: usize, i: usize, scalar: u64) -> (r: Result<Matrix, CalcError>)
        ensures
            i < size ==> (r matches Ok(m) && m@.wf() && m@ == sm_update(
                sm_identity(size as nat),
                i as int,
                i as int,
                scalar,
            )),
            i >= size ==> r == Err::<Matrix, CalcError>(CalcError::IndexOutOfRange),
    {
        let mut m = Matrix::identity(size);
        if i >= size {
            return Err(CalcError::IndexOutOfRange);
        }
        let _ = m.set(i, i, scalar);
        Ok(m)
    }

    /// The elemental matrix of type III: the identity with `scalar`
    /// placed at `(i, j)`, which adds `scalar` times row `j` to row `i`
    /// when multiplied from the left; `IndexOutOfRange` if either index
    /// lies outside the matrix.
    pub fn elemental_iii(size: usize, i: usize, j: usize, scalar: u64) -> (r: Result<
        Matrix,
        CalcError,
    >)
        ensures
            i < size && j < size ==> (r matches Ok(m) && m@.wf() && m@ == sm_update(
                sm_identity(size as nat),
                i as int,
                j as int,
                scalar,
            )),
            !(i < size && j < size) ==> r == Err::<Matrix, CalcError>(CalcError::IndexOutOfRange),
    {
        let mut m = Matrix::identity(size);
        if i >= size || j >= size {
            return Err(CalcError::IndexOutOfRange);
        }
        let _ = m.set(i, j, scalar);
        Ok(m)
    }

    /// The number of rows.
    pub fn rows(&self) -> (r: usize)
        ensures
            r == self@.rows,
    {
        self.rows
    }

    /// The number of columns.
    pub fn cols(&self) -> (r: usize)
        ensures
            r == self@.cols,
    {
        self.cols
    }

    /// Whether the matrix is square.
    pub fn is_square(&self) -> (r: bool)
        ensures
            r == self@.is_square(),
    {
        self.rows == self.cols
    }

    /// The element at `(row, col)`, or `IndexOutOfRange` if either index
    /// lies outside the matrix.
    pub fn get(&self, row: usize, col: usize) -> (r: Result<u64, CalcError>)
        requires
            self@.wf(),
        ensures
            row < self@.rows && col < self@.cols ==> r == Ok::<u64, CalcError>(
                self@.at(row as int, col as int),
            ),
            !(row < self@.rows && col < self@.cols) ==> r == Err::<u64, CalcError>(
                CalcError::IndexOutOfRange,
            ),
    {
        if row >= self.rows || col >= self.cols {
            return Err(CalcError::IndexOutOfRange);
        }
        proof {
            assert(self@.elems.len() == self.data@.len());
            assert(self@.elems[row as int] == self.data@[row as int]@);
        }
        Ok(self.data[row][col])
    }

    /// Replaces the element at `(row, col)`, or returns `IndexOutOfRange`,
    /// leaving the matrix unchanged, if either index lies outside it.
    pub fn set(&mut self, row: usize, col: usize, val: u64) -> (r: Result<(), CalcError>)
        requires
            old(self)@.wf(),
        ensures
            final(self)@.wf(),
            row < old(self)@.rows && col < old(self)@.cols ==> r == Ok::<(), CalcError>(())
                && final(self)@ == sm_update(old(self)@, row as int, col as int, val),
            !(row < old(self)@.rows && col < old(self)@.cols) ==> r == Err::<(), CalcError>(
                CalcError::IndexOutOfRange,
            ) && final(self)@ == old(self)@,
    {
        if row >= self.rows || col >= self.cols {
            return Err(CalcError::IndexOutOfRange);
        }
        proof {
            assert(self@.elems.len() == self.data@.len());
            assert(self@.elems[row as int] == self.data@[row as int]@);
        }
        self.data[row][col] = val;
        proof {
            assert(self@.elems =~~= sm_update(old(self)@, row as int, col as int, val).elems);
        }
        Ok(())
    }

    /// The element at `(row, col)` of a matrix known to contain it.
    pub(crate) fn entry(&self, row: usize, col: usize) -> (r: u64)
        requires
            self@.wf(),
            row < self@.rows,
            col < self@.cols,
        ensures
            r == self@.at(row as int, col as int),
    {
        proof {
            assert(self@.elems.len() == self.data@.len());
            assert(self@.elems[row as int] == self.data@[row as int]@);
        }
        self.data[row][col]
    }

    /// An independent copy of the matrix.
    pub(crate) fn duplicate(&self) -> (r: Matrix)
        requires
            self@.wf(),
        ensures
            r@.wf(),
            r@ == self@,
    {
        let mut data: Vec<Vec<u64>> = Vec::new();
        let mut i: usize = 0;
        while i < self.rows
            invariant
                i <= self@.rows,
                self@.wf(),
                self@.rows == self.rows,
                self@.cols == self.cols,
                data@.len() == i,
                forall|k: int| 0 <= k < i ==> (#[trigger] data@[k])@ == self@.elems[k],
            decreases self.rows - i,
        {
            let mut row: Vec<u64> = Vec::new();
            let mut j: usize = 0;
            while j < self.cols
                invariant
                    i < self@.rows,
                    j <= self@.cols,
                    self@.wf(),
                    self@.rows == self.rows,
                    self@.cols == self.cols,
                    row@ == self@.elems[i as int].take(j as int),
                decreases self.cols - j,
            {
                row.push(self.entry(i, j));
                j = j + 1;
                proof {
                    assert(row@ =~= self@.elems[i as int].take(j as int));
                }
            }
            proof {
                assert(row@ =~= self@.elems[i as int]);
            }
            data.push(row);
            i = i + 1;
        }
        let r = Matrix { rows: self.rows, cols: self.cols, data };
        proof {
            assert(r@ =~~= self@);
        }
        r
    }

    /// Builds a matrix from rows given as vectors.  An empty input gives
    /// the empty matrix; rows of unequal lengths are rejected with
    /// `DimensionMismatch`.
    pub fn from_2d(nested: Vec<Vec<u64>>) -> (r: Result<Matrix, CalcError>)
        ensures
            nested@.len() == 0 ==> (r matches Ok(m) && m@.wf() && m@ == sm_zero(0, 0)),
            nested@.len() > 0 && (exists|k: int|
                0 <= k < nested@.len() && (#[trigger] nested@[k])@.len() != nested@[0]@.len())
                ==> r == Err::<Matrix, CalcError>(CalcError::DimensionMismatch),
            nested@.len() > 0 && (forall|k: int|
                0 <= k < nested@.len() ==> (#[trigger] nested@[k])@.len() == nested@[0]@.len())
                ==> (r matches Ok(m) && m@.wf() && m@.rows == nested@.len() && m@.cols
                == nested@[0]@.len() && m@.elems == Seq::new(
                nested@.len(),
                |k: int| nested@[k]@,
            )),
    {
        let rows = nested.len();
        if rows == 0 {
            return Ok(Matrix::new(0, 0));
        }
        let cols = nested[0].len();
        let mut i: usize = 0;
        while i < rows
            invariant
                i <= rows,
                rows == nested@.len(),
                cols == nested@[0]@.len(),
                forall|k: int| 0 <= k < i ==> (#[trigger] nested@[k])@.len() == cols,
            decreases rows - i,
        {
            if nested[i].len() != cols {
                return Err(CalcError::DimensionMismatch);
            }
            i = i + 1;
        }
        let r = Matrix { rows, cols, data: nested };
        proof {
            assert(r@.elems =~~= Seq::new(nested@.len(), |k: int| nested@[k]@));
        }
        Ok(r)
    }

    /// The elementwise sum of two matrices of equal dimensions, or
    /// `DimensionMismatch` if the dimensions differ.
    pub fn add(left: &Matrix, right: &Matrix) -> (r: Result<Matrix, CalcError>)
        requires
            left@.wf(),
            right@.wf(),
        ensures
            left@.rows == right@.rows && left@.cols == right@.cols ==> (r matches Ok(m)
                && m@.wf() && m@ == sm_add(left@, right@)),
            !(left@.rows == right@.rows && left@.cols == right@.cols) ==> r == Err::<
                Matrix,
                CalcError,
            >(CalcError::DimensionMismatch),
    {
        if left.rows != right.rows || left.cols != right.cols {
            return Err(CalcError::DimensionMismatch);
        }
        let mut data: Vec<Vec<u64>> = Vec::new();
        let mut i: usize = 0;
        while i < left.rows
            invariant
                i <= left@.rows,
                left@.wf(),
                right@.wf(),
                left@.rows == left.rows,
                left@.cols == left.cols,
                right@.rows == left@.rows,
                right@.cols == left@.cols,
                data@.len() == i,
                forall|k: int| 0 <= k < i ==> (#[trigger] data@[k])@ == add_row(left@, right@, k),
            decreases left.rows - i,
        {
            let mut row: Vec<u64> = Vec::new();
            let mut j: usize = 0;
            while j < left.cols
                invariant
                    i < left@.rows,
                    j <= left@.cols,
                    left@.wf(),
                    right@.wf(),
                    left@.rows == left.rows,
                    left@.cols == left.cols,
                    right@.rows == left@.rows,
                    right@.cols == left@.cols,
                    row@ == add_row(left@, right@, i as int).take(j as int),
                decreases left.cols - j,
            {
                row.push(fp::fp_add(left.entry(i, j), right.entry(i, j)));
                j = j + 1;
                proof {
                    assert(row@ =~= add_row(left@, right@, i as int).take(j as int));
                }
            }
            proof {
                assert(row@ =~= add_row(left@, right@, i as int));
            }
            data.push(row);
            i = i + 1;
        }
        let m = Matrix { rows: left.rows, cols: left.cols, data };
        proof {
            assert(m@ =~~= sm_add(left@, right@));
        }
        Ok(m)
    }

    /// The matrix with every element multiplied by the scalar `scalar`.
    pub fn scale(&self, scalar: u64) -> (r: Matrix)
        requires
            self@.wf(),
        ensures
            r@.wf(),
            r@ == sm_scale(self@, scalar),
    {
        let mut data: Vec<Vec<u64>> = Vec::new();
        let mut i: usize = 0;
        while i < self.rows
            invariant
                i <= self@.rows,
                self@.wf(),
                self@.rows == self.rows,
                self@.cols == self.cols,
                data@.len() == i,
                forall|k: int|
                    0 <= k < i ==> (#[trigger] data@[k])@ == scale_row_model(self@, scalar, k),
            decreases self.rows - i,
        {
            let mut row: Vec<u64> = Vec::new();
            let mut j: usize = 0;
            while j < self.cols
                invariant
                    i < self@.rows,
                    j <= self@.cols,
                    self@.wf(),
                    self@.rows == self.rows,
                    self@.cols == self.cols,
                    row@ == scale_row_model(self@, scalar, i as int).take(j as int),
                decreases self.cols - j,
            {
                row.push(fp::fp_mul(self.entry(i, j), scalar));
                j = j + 1;
                proof {
                    assert(row@ =~= scale_row_model(self@, scalar, i as int).take(j as int));
                }
            }
            proof {
                assert(row@ =~= scale_row_model(self@, scalar, i as int));
            }
            data.push(row);
            i = i + 1;
        }
        let m = Matrix { rows: self.rows, cols: self.cols, data };
        proof {
            assert(m@ =~~= sm_scale(self@, scalar));
        }
        m
    }

    /// The transpose: a `cols` by `rows` matrix with `T[j][i] = A[i][j]`.
    pub fn transpose(&self) -> (r: Matrix)
        requires
            self@.wf(),
        ensures
            r@.wf(),
            r@ == sm_transpose(self@),
    {
        let mut data: Vec<Vec<u64>> = Vec::new();
        let mut i: usize = 0;
        while i < self.cols
            invariant
                i <= self@.cols,
                self@.wf(),
                self@.rows == self.rows,
                self@.cols == self.cols,
                data@.len() == i,
                forall|k: int| 0 <= k < i ==> (#[trigger] data@[k])@ == transpose_row(self@, k),
            decreases self.cols - i,
        {
            let mut row: Vec<u64> = Vec::new();
            let mut j: usize = 0;
            while j < self.rows
                invariant
                    i < self@.cols,
                    j <= self@.rows,
                    self@.wf(),
                    self@.rows == self.rows,
                    self@.cols == self.cols,
                    row@ == transpose_row(self@, i as int).take(j as int),
                decreases self.rows - j,
            {
                row.push(self.entry(j, i));
                j = j + 1;
                proof {
                    assert(row@ =~= transpose_row(self@, i as int).take(j as int));
                }
            }
            proof {
                assert(row@ =~= transpose_row(self@, i as int));
            }
            data.push(row);
            i = i + 1;
        }
        let m = Matrix { rows: self.cols, cols: self.rows, data };
        proof {
            assert(m@ =~~= sm_transpose(self@));
        }
        m
    }

    /// The matrix product of an m by n and an n by p matrix, or
    /// `DimensionMismatch` unless the inner dimensions agree.
    pub fn multiply(left: &Matrix, right: &Matrix) -> (r: Result<Matrix, CalcError>)
        requires
            left@.wf(),
            right@.wf(),
        ensures
            left@.cols == right@.rows ==> (r matches Ok(m) && m@.wf() && m@ == sm_mul(
                left@,
                right@,
            )),
            left@.cols != right@.rows ==> r == Err::<Matrix, CalcError>(
                CalcError::DimensionMismatch,
            ),
    {
        if left.cols != right.rows {
            return Err(CalcError::DimensionMismatch);
        }
        let mut data: Vec<Vec<u64>> = Vec::new();
        let mut i: usize = 0;
        while i < left.rows
            invariant
                i <= left@.rows,
                left@.wf(),
                right@.wf(),
                left@.rows == left.rows,
                left@.cols == left.cols,
                right@.rows == left@.cols,
                right@.cols == right.cols,
                data@.len() == i,
                forall|k: int| 0 <= k < i ==> (#[trigger] data@[k])@ == mul_row(left@, right@, k),
            decreases left.rows - i,
        {
            let mut row: Vec<u64> = Vec::new();
            let mut j: usize = 0;
            while j < right.cols
                invariant
                    i < left@.rows,
                    j <= right@.cols,
                    left@.wf(),
                    right@.wf(),
                    left@.rows == left.rows,
                    left@.cols == left.cols,
                    right@.rows == left@.cols,
                    right@.cols == right.cols,
                    row@ == mul_row(left@, right@, i as int).take(j as int),
                decreases right.cols - j,
            {
                let mut sum: u64 = fp::ZERO_BITS;
                let mut n: usize = 0;
                while n < left.cols
                    invariant
                        i < left@.rows,
                        j < right@.cols,
                        n <= left@.cols,
                        left@.wf(),
                        right@.wf(),
                        left@.rows == left.rows,
                        left@.cols == left.cols,
                        right@.rows == left@.cols,
                        right@.cols == right.cols,
                        sum == dot_prefix(left@.elems[i as int], col_of(right@, j as int), n as int),
                    decreases left.cols - n,
                {
                    let term = fp::fp_mul(left.entry(i, n), right.entry(n, j));
                    proof {
                        assert(col_of(right@, j as int)[n as int] == right@.at(n as int, j as int));
                    }
                    sum = fp::fp_add(sum, term);
                    n = n + 1;
                }
                row.push(sum);
                j = j + 1;
                proof {
                    assert(row@ =~= mul_row(left@, right@, i as int).take(j as int));
                }
            }
            proof {
                assert(row@ =~= mul_row(left@, right@, i as int));
            }
            data.push(row);
            i = i + 1;
        }
        let m = Matrix { rows: left.rows, cols: right.cols, data };
        proof {
            assert(m@ =~~= sm_mul(left@, right@));
        }
        Ok(m)
    }

    /// The augmented matrix `[a | b]` of a coefficient matrix and a
    /// single-column right-hand side with as many rows.
    pub(crate) fn augment(a: &Matrix, b: &Matrix) -> (r: Matrix)
        requires
            a@.wf(),
            b@.wf(),
            b@.rows == a@.rows,
            b@.cols == 1,
            a@.cols < usize::MAX,
        ensures
            r@.wf(),
            r@ == sm_augment(a@, b@),
    {
        let mut data: Vec<Vec<u64>> = Vec::new();
        let mut i: usize = 0;
        while i < a.rows
            invariant
                i <= a@.rows,
                a@.wf(),
                b@.wf(),
                a@.rows == a.rows,
                a@.cols == a.cols,
                b@.rows == a@.rows,
                b@.cols == 1,
                a@.cols < usize::MAX,
                data@.len() == i,
                forall|k: int| 0 <= k < i ==> (#[trigger] data@[k])@ == augment_row(a@, b@, k),
            decreases a.rows - i,
        {
            let mut row = a.copy_row(i);
            row.push(b.entry(i, 0));
            data.push(row);
            i = i + 1;
        }
        let r = Matrix { rows: a.rows, cols: a.cols + 1, data };
        proof {
            assert(r@ =~~= sm_augment(a@, b@));
        }
        r
    }

    /// Whether the matrix is square with 1.0 on the diagonal and 0.0
    /// elsewhere, up to tolerance.
    pub fn is_identity(&self) -> (r: bool)
        requires
            self@.wf(),
        ensures
            r == spec_is_identity(self@),
    {
        if !self.is_square() {
            return false;
        }
        let n = self.rows;
        let mut i: usize = 0;
        while i < n
            invariant
                i <= n,
                self@.wf(),
                self@.rows == n,
                self@.cols == n,
                forall|a: int, b: int|
                    0 <= a < i && 0 <= b < n ==> (if a == b {
                        spec_nearly_equal(#[trigger] self@.at(a, b), fp::ONE_BITS)
                    } else {
                        spec_nearly_equal(self@.at(a, b), fp::ZERO_BITS)
                    }),
            decreases n - i,
        {
            let mut j: usize = 0;
            while j < n
                invariant
                    i < n,
                    j <= n,
                    self@.wf(),
                    self@.rows == n,
                    self@.cols == n,
                    forall|a: int, b: int|
                        0 <= a < i && 0 <= b < n ==> (if a == b {
                            spec_nearly_equal(#[trigger] self@.at(a, b), fp::ONE_BITS)
                        } else {
                            spec_nearly_equal(self@.at(a, b), fp::ZERO_BITS)
                        }),
                    forall|b: int|
                        0 <= b < j ==> (if i == b {
                            spec_nearly_equal(#[trigger] self@.at(i as int, b), fp::ONE_BITS)
                        } else {
                            spec_nearly_equal(self@.at(i as int, b), fp::ZERO_BITS)
                        }),
                decreases n - j,
            {
                let val = self.entry(i, j);
                if i == j {
                    if !nearly_equal(val, fp::ONE_BITS) {
                        return false;
                    }
                } else {
                    if !nearly_equal(val, fp::ZERO_BITS) {
                        return false;
                    }
                }
                j = j + 1;
            }
            i = i + 1;
        }
        true
    }

    /// An independent copy of row `i`.
    pub(crate) fn copy_row(&self, i: usize) -> (r: Vec<u64>)
        requires
            self@.wf(),
            i < self@.rows,
        ensures
            r@ == self@.elems[i as int],
    {
        let mut row: Vec<u64> = Vec::new();
        let mut j: usize = 0;
        while j < self.cols
            invariant
                i < self@.rows,
                j <= self@.cols,
                self@.wf(),
                self@.rows == self.rows,
                self@.cols == self.cols,
                row@ == self@.elems[i as int].take(j as int),
            decreases self.cols - j,
        {
            row.push(self.entry(i, j));
            j = j + 1;
            proof {
                assert(row@ =~= self@.elems[i as int].take(j as int));
            }
        }
        proof {
            assert(row@ =~= self@.elems[i as int]);
        }
        row
    }

    /// Exchanges rows `a` and `b`.
    pub(crate) fn swap_rows(&mut self, a: usize, b: usize)
        requires
            old(self)@.wf(),
            a < old(self)@.rows,
            b < old(self)@.rows,
        ensures
            final(self)@.wf(),
            final(self)@ == sm_swap(old(self)@, a as int, b as int),
    {
        let ra = self.copy_row(a);
        let rb = self.copy_row(b);
        proof {
            assert(self@.elems.len() == self.data@.len());
        }
        self.data[a] = rb;
        self.data[b] = ra;
        proof {
            assert(self@ =~~= sm_swap(old(self)@, a as int, b as int));
        }
    }

    /// Multiplies every element of row `i` by `factor`.
    pub(crate) fn scale_row(&mut self, i: usize, factor: u64)
        requires
            old(self)@.wf(),
            i < old(self)@.rows,
        ensures
            final(self)@.wf(),
            final(self)@ == sm_scale_row(old(self)@, i as int, factor),
    {
        let cols = self.cols;
        let mut j: usize = 0;
        proof {
            assert(self@.elems =~~= old(self)@.elems.update(
                i as int,
                scale_row_upto(old(self)@, i as int, factor, 0),
            ));
        }
        while j < cols
            invariant
                i < old(self)@.rows,
                j <= old(self)@.cols,
                old(self)@.wf(),
                cols == old(self)@.cols,
                self@.wf(),
                self@ == (MatModel {
                    elems: old(self)@.elems.update(
                        i as int,
                        scale_row_upto(old(self)@, i as int, factor, j as int),
                    ),
                    ..old(self)@
                }),
            decreases cols - j,
        {
            let v = fp::fp_mul(self.entry(i, j), factor);
            proof {
                assert(self@.at(i as int, j as int) == old(self)@.at(i as int, j as int));
            }
            let _ = self.set(i, j, v);
            j = j + 1;
            proof {
                assert(self@.elems =~~= old(self)@.elems.update(
                    i as int,
                    scale_row_upto(old(self)@, i as int, factor, j as int),
                ));
            }
        }
        proof {
            assert(self@ =~~= sm_scale_row(old(self)@, i as int, factor));
        }
    }

    /// Subtracts `factor` times row `src` from row `dst`, over the
    /// columns from `from` on.
    pub(crate) fn sub_scaled_row(&mut self, dst: usize, src: usize, factor: u64, from: usize)
        requires
            old(self)@.wf(),
            dst < old(self)@.rows,
            src < old(self)@.rows,
            dst != src,
        ensures
            final(self)@.wf(),
            final(self)@ == sm_sub_scaled_row(old(self)@, dst as int, src as int, factor, from as int),
    {
        let cols = self.cols;
        let mut j: usize = from;
        if from > cols {
            proof {
                assert(self@.elems =~~= sm_sub_scaled_row(
                    old(self)@,
                    dst as int,
                    src as int,
                    factor,
                    from as int,
                ).elems);
            }
            return ;
        }
        proof {
            assert(self@.elems =~~= old(self)@.elems.update(
                dst as int,
                sub_row_upto(old(self)@, dst as int, src as int, factor, from as int, from as int),
            ));
        }
        while j < cols
            invariant
                dst < old(self)@.rows,
                src < old(self)@.rows,
                dst != src,
                from <= j <= old(self)@.cols,
                old(self)@.wf(),
                cols == old(self)@.cols,
                self@.wf(),
                self@ == (MatModel {
                    elems: old(self)@.elems.update(
                        dst as int,
                        sub_row_upto(old(self)@, dst as int, src as int, factor, from as int, j as int),
                    ),
                    ..old(self)@
                }),
            decreases cols - j,
        {
            proof {
                assert(self@.at(dst as int, j as int) == old(self)@.at(dst as int, j as int));
                assert(self@.elems[src as int] == old(self)@.elems[src as int]);
            }
            let v = fp::fp_sub(self.entry(dst, j), fp::fp_mul(factor, self.entry(src, j)));
            let _ = self.set(dst, j, v);
            j = j + 1;
            proof {
                assert(self@.elems =~~= old(self)@.elems.update(
                    dst as int,
                    sub_row_upto(old(self)@, dst as int, src as int, factor, from as int, j as int),
                ));
            }
        }
        proof {
            assert(self@.elems =~~= sm_sub_scaled_row(
                old(self)@,
                dst as int,
                src as int,
                factor,
                from as int,
            ).elems);
        }
    }

    /// Adds `factor` times row `src` to row `dst`.
    pub(crate) fn add_scaled_row(&mut self, dst: usize, src: usize, factor: u64)
        requires
            old(self)@.wf(),
            dst < old(self)@.rows,
            src < old(self)@.rows,
            dst != src,
        ensures
            final(self)@.wf(),
            final(self)@ == sm_add_scaled_row(old(self)@, dst as int, src as int, factor),
    {
        let cols = self.cols;
        let mut j: usize = 0;
        proof {
            assert(self@.elems =~~= old(self)@.elems.update(
                dst as int,
                add_row_upto(old(self)@, dst as int, src as int, factor, 0),
            ));
        }
        while j < cols
            invariant
                dst < old(self)@.rows,
                src < old(self)@.rows,
                dst != src,
                j <= old(self)@.cols,
                old(self)@.wf(),
                cols == old(self)@.cols,
                self@.wf(),
                self@ == (MatModel {
                    elems: old(self)@.elems.update(
                        dst as int,
                        add_row_upto(old(self)@, dst as int, src as int, factor, j as int),
                    ),
                    ..old(self)@
                }),
            decreases cols - j,
        {
            proof {
                assert(self@.at(dst as int, j as int) == old(self)@.at(dst as int, j as int));
                assert(self@.elems[src as int] == old(self)@.elems[src as int]);
            }
            let v = fp::fp_add(self.entry(dst, j), fp::fp_mul(factor, self.entry(src, j)));
            let _ = self.set(dst, j, v);
            j = j + 1;
            proof {
                assert(self@.elems =~~= old(self)@.elems.update(
                    dst as int,
                    add_row_upto(old(self)@, dst as int, src as int, factor, j as int),
                ));
            }
        }
        proof {
            assert(self@.elems =~~= sm_add_scaled_row(
                old(self)@,
                dst as int,
                src as int,
                factor,
            ).elems);
        }
    }

    /// The row, at or below `from`, holding a largest-magnitude element
    /// of column `colk`.
    pub(crate) fn find_pivot(&self, colk: usize, from: usize) -> (r: usize)
        requires
            self@.wf(),
            colk < self@.cols,
            from < self@.rows,
        ensures
            from <= r < self@.rows,
            r == pivot_upto(self@, colk as int, from as int, self@.rows as int),
    {
        let mut best: usize = from;
        let mut i: usize = from + 1;
        while i < self.rows
            invariant
                self@.wf(),
                self@.rows == self.rows,
                self@.cols == self.cols,
                colk < self@.cols,
                from < self@.rows,
                from + 1 <= i <= self@.rows,
                from <= best < i,
                best == pivot_upto(self@, colk as int, from as int, i as int),
            decreases self.rows - i,
        {
            if fp::fp_lt(fp::fp_abs(self.entry(best, colk)), fp::fp_abs(self.entry(i, colk))) {
                best = i;
            }
            i = i + 1;
        }
        best
    }

    /// The determinant of a square matrix, computed by Gaussian
    /// elimination with partial pivoting on an internal copy, or
    /// `NonSquare` for a rectangular matrix.  A tolerance-zero pivot
    /// column makes the determinant exactly 0.0.
    pub fn determinant(&self) -> (r: Result<u64, CalcError>)
        requires
            self@.wf(),
        ensures
            self@.is_square() ==> r == Ok::<u64, CalcError>(spec_determinant(self@)),
            !self@.is_square() ==> r == Err::<u64, CalcError>(CalcError::NonSquare),
    {
        if !self.is_square() {
            return Err(CalcError::NonSquare);
        }
        let n = self.rows;
        let mut matrix = self.duplicate();
        let mut det: u64 = fp::ONE_BITS;
        let mut k: usize = 0;
        while k < n
            invariant
                k <= n,
                self@.wf(),
                self@.rows == n,
                self@.cols == n,
                matrix@.wf(),
                matrix@.rows == n,
                matrix@.cols == n,
                det_iter(self@, k as int) == (DetState { m: matrix@, acc: det, singular: false }),
            decreases n - k,
        {
            let ghost s_pre = det_iter(self@, k as int);
            let p = matrix.find_pivot(k, k);
            let pv = matrix.entry(p, k);
            if nearly_equal(pv, fp::ZERO_BITS) {
                proof {
                    assert(det_iter(self@, k as int + 1) == det_step(s_pre, k as int));
                    lemma_det_singular_stable(self@, k as int + 1, n as int);
                }
                return Ok(fp::ZERO_BITS);
            }
            if p != k {
                matrix.swap_rows(k, p);
                det = fp::fp_neg(det);
            }
            let ghost m1 = matrix@;
            let mut i: usize = k + 1;
            proof {
                assert(matrix@ =~~= elim_below_upto(m1, k as int, (k + 1) as int));
            }
            while i < n
                invariant
                    k < n,
                    k + 1 <= i <= n,
                    m1.wf(),
                    m1.rows == n,
                    m1.cols == n,
                    matrix@.wf(),
                    matrix@.rows == n,
                    matrix@.cols == n,
                    matrix@ == elim_below_upto(m1, k as int, i as int),
                decreases n - i,
            {
                proof {
                    assert(matrix@.elems[i as int] == m1.elems[i as int]);
                    assert(matrix@.elems[k as int] == m1.elems[k as int]);
                }
                let factor = fp::fp_div(matrix.entry(i, k), matrix.entry(k, k));
                matrix.sub_scaled_row(i, k, factor, k);
                i = i + 1;
                proof {
                    assert(matrix@ =~~= elim_below_upto(m1, k as int, i as int));
                }
            }
            det = fp::fp_mul(det, pv);
            k = k + 1;
            proof {
                assert(det_iter(self@, k as int) == det_step(s_pre, k as int - 1));
                assert(det_iter(self@, k as int) =~~= (DetState {
                    m: matrix@,
                    acc: det,
                    singular: false,
                }));
            }
        }
        Ok(det)
    }

    /// The inverse of a square matrix with a tolerance-nonzero
    /// determinant, computed by Gauss-Jordan elimination with partial
    /// pivoting: every row operation that drives the matrix to the
    /// identity is applied to an accumulator that starts as the identity.
    /// Fails with `NonSquare` for a rectangular matrix and with
    /// `Singular` when the determinant is tolerance-zero (checked up
    /// front) or a pivot column degenerates during elimination.
    pub fn inverse(&self) -> (r: Result<Matrix, CalcError>)
        requires
            self@.wf(),
        ensures
            !self@.is_square() ==> r == Err::<Matrix, CalcError>(CalcError::NonSquare),
            self@.is_square() && spec_nearly_equal(spec_determinant(self@), fp::ZERO_BITS) ==> r
                == Err::<Matrix, CalcError>(CalcError::Singular),
            self@.is_square() && !spec_nearly_equal(spec_determinant(self@), fp::ZERO_BITS)
                && !spec_inverse_ok(self@) ==> r == Err::<Matrix, CalcError>(CalcError::Singular),
            self@.is_square() && !spec_nearly_equal(spec_determinant(self@), fp::ZERO_BITS)
                && spec_inverse_ok(self@) ==> (r matches Ok(m) && m@.wf() && m@.rows == self@.rows
                && m@.cols == self@.cols && m@ == spec_inverse(self@)),
    {
        if !self.is_square() {
            return Err(CalcError::NonSquare);
        }
        let det = match self.determinant() {
            Ok(d) => d,
            Err(_) => {
                proof {
                    assert(false);
                }
                fp::ZERO_BITS
            },
        };
        if nearly_equal(det, fp::ZERO_BITS) {
            return Err(CalcError::Singular);
        }
        let n = self.rows;
        let mut matrix = self.duplicate();
        let mut accum = Matrix::identity(n);
        let mut k: usize = 0;
        while k < n
            invariant
                k <= n,
                self@.wf(),
                self@.rows == n,
                self@.cols == n,
                matrix@.wf(),
                matrix@.rows == n,
                matrix@.cols == n,
                accum@.wf(),
                accum@.rows == n,
                accum@.cols == n,
                gj_fwd(self@, k as int) == (GjState { m: matrix@, acc: accum@, ok: true }),
            decreases n - k,
        {
            let ghost s_pre = gj_fwd(self@, k as int);
            let p = matrix.find_pivot(k, k);
            let pv = matrix.entry(p, k);
            if nearly_equal(pv, fp::ZERO_BITS) {
                proof {
                    assert(gj_fwd(self@, k as int + 1) == gj_fwd_step(s_pre, k as int));
                    lemma_gj_ok_stable(self@, k as int + 1, n as int);
                }
                return Err(CalcError::Singular);
            }
            if p != k {
                matrix.swap_rows(k, p);
                accum.swap_rows(k, p);
            }
            let ghost m1 = matrix@;
            let ghost a1 = accum@;
            let mut i: usize = k + 1;
            proof {
                assert(matrix@ =~~= gj_elim_below(m1, m1, k as int, (k + 1) as int));
                assert(accum@ =~~= gj_elim_below(a1, m1, k as int, (k + 1) as int));
            }
            while i < n
                invariant
                    k < n,
                    k + 1 <= i <= n,
                    m1.wf(),
                    m1.rows == n,
                    m1.cols == n,
                    a1.wf(),
                    a1.rows == n,
                    a1.cols == n,
                    matrix@.wf(),
                    matrix@.rows == n,
                    matrix@.cols == n,
                    accum@.wf(),
                    accum@.rows == n,
                    accum@.cols == n,
                    matrix@ == gj_elim_below(m1, m1, k as int, i as int),
                    accum@ == gj_elim_below(a1, m1, k as int, i as int),
                decreases n - i,
            {
                proof {
                    assert(matrix@.elems[i as int] == m1.elems[i as int]);
                    assert(matrix@.elems[k as int] == m1.elems[k as int]);
                    assert(accum@.elems[i as int] == a1.elems[i as int]);
                }
                let factor = fp::fp_div(matrix.entry(i, k), matrix.entry(k, k));
                matrix.sub_scaled_row(i, k, factor, 0);
                accum.sub_scaled_row(i, k, factor, 0);
                i = i + 1;
                proof {
                    assert(matrix@ =~~= gj_elim_below(m1, m1, k as int, i as int));
                    assert(accum@ =~~= gj_elim_below(a1, m1, k as int, i as int));
                }
            }
            k = k + 1;
            proof {
                assert(gj_fwd(self@, k as int) == gj_fwd_step(s_pre, k as int - 1));
                assert(gj_fwd(self@, k as int) =~~= (GjState {
                    m: matrix@,
                    acc: accum@,
                    ok: true,
                }));
            }
        }
        let mut k: usize = 0;
        while k < n
            invariant
                k <= n,
                self@.wf(),
                self@.rows == n,
                self@.cols == n,
                matrix@.wf(),
                matrix@.rows == n,
                matrix@.cols == n,
                accum@.wf(),
                accum@.rows == n,
                accum@.cols == n,
                gj_scale_iter(self@, k as int) == (GjState { m: matrix@, acc: accum@, ok: true }),
            decreases n - k,
        {
            let ghost s_pre = gj_scale_iter(self@, k as int);
            let f = fp::fp_div(fp::ONE_BITS, matrix.entry(k, k));
            matrix.scale_row(k, f);
            accum.scale_row(k, f);
            k = k + 1;
            proof {
                assert(gj_scale_iter(self@, k as int) == gj_scale_step(s_pre, k as int - 1));
                assert(gj_scale_iter(self@, k as int) =~~= (GjState {
                    m: matrix@,
                    acc: accum@,
                    ok: true,
                }));
            }
        }
        let mut step: usize = 0;
        while step + 1 < n
            invariant
                n == 0 ==> step == 0,
                n > 0 ==> step <= n - 1,
                self@.wf(),
                self@.rows == n,
                self@.cols == n,
                matrix@.wf(),
                matrix@.rows == n,
                matrix@.cols == n,
                accum@.wf(),
                accum@.rows == n,
                accum@.cols == n,
                gj_back_iter(self@, step as int) == (GjState { m: matrix@, acc: accum@, ok: true }),
            decreases n - step,
        {
            let ghost s_pre = gj_back_iter(self@, step as int);
            let k = n - 1 - step;
            let ghost mk = matrix@;
            let ghost ak = accum@;
            let mut i: usize = 0;
            proof {
                assert(matrix@ =~~= gj_elim_above_upto(mk, mk, k as int, 0));
                assert(accum@ =~~= gj_elim_above_upto(ak, mk, k as int, 0));
            }
            while i < k
                invariant
                    k < n,
                    i <= k,
                    mk.wf(),
                    mk.rows == n,
                    mk.cols == n,
                    ak.wf(),
                    ak.rows == n,
                    ak.cols == n,
                    matrix@.wf(),
                    matrix@.rows == n,
                    matrix@.cols == n,
                    accum@.wf(),
                    accum@.rows == n,
                    accum@.cols == n,
                    matrix@ == gj_elim_above_upto(mk, mk, k as int, i as int),
                    accum@ == gj_elim_above_upto(ak, mk, k as int, i as int),
                decreases k - i,
            {
                proof {
                    assert(matrix@.elems[i as int] == mk.elems[i as int]);
                    assert(matrix@.elems[k as int] == mk.elems[k as int]);
                    assert(accum@.elems[i as int] == ak.elems[i as int]);
                }
                let factor = fp::fp_div(matrix.entry(i, k), matrix.entry(k, k));
                matrix.sub_scaled_row(i, k, factor, 0);
                accum.sub_scaled_row(i, k, factor, 0);
                i = i + 1;
                proof {
                    assert(matrix@ =~~= gj_elim_above_upto(mk, mk, k as int, i as int));
                    assert(accum@ =~~= gj_elim_above_upto(ak, mk, k as int, i as int));
                }
            }
            step = step + 1;
            proof {
                assert(gj_back_iter(self@, step as int) == gj_back_step(
                    s_pre,
                    n as int - step as int,
                ));
                assert(gj_back_iter(self@, step as int) =~~= (GjState {
                    m: matrix@,
                    acc: accum@,
                    ok: true,
                }));
            }
        }
        proof {
            assert(step as int == gj_back_steps(self@));
        }
        Ok(accum)
    }

    /// The matrix raised to the integral power carried by the double
    /// `exp`.  Fails with `NonSquare` for a rectangular matrix and with
    /// `InvalidExponent` when the exponent's fractional part is not
    /// tolerance-zero.  A negative exponent raises the inverse instead
    /// (propagating `Singular`); the result is built by `|exp|`
    /// multiplications by the base, starting from the identity.
    pub fn pow(&self, exp: u64) -> (r: Result<Matrix, CalcError>)
        requires
            self@.wf(),
        ensures
            !self@.is_square() ==> r == Err::<Matrix, CalcError>(CalcError::NonSquare),
            self@.is_square() && !spec_exp_integral(exp) ==> r == Err::<Matrix, CalcError>(
                CalcError::InvalidExponent,
            ),
            self@.is_square() && spec_exp_integral(exp) && fp::lt_of(exp, fp::ZERO_BITS) && (
            spec_nearly_equal(spec_determinant(self@), fp::ZERO_BITS) || !spec_inverse_ok(self@))
                ==> r == Err::<Matrix, CalcError>(CalcError::Singular),
            self@.is_square() && spec_exp_integral(exp) && (fp::lt_of(exp, fp::ZERO_BITS) ==> (
            !spec_nearly_equal(spec_determinant(self@), fp::ZERO_BITS) && spec_inverse_ok(self@)))
                ==> (r matches Ok(m) && m@.wf() && m@.rows == self@.rows && m@.cols == self@.cols
                && m@ == sm_pow(spec_pow_base(self@, exp), spec_pow_count(exp))),
    {
        if !self.is_square() {
            return Err(CalcError::NonSquare);
        }
        let fract = fp::fp_sub(exp, fp::fp_trunc(exp));
        if !nearly_equal(fract, fp::ZERO_BITS) {
            return Err(CalcError::InvalidExponent);
        }
        let base = if fp::fp_lt(exp, fp::ZERO_BITS) {
            match self.inverse() {
                Ok(m) => m,
                Err(e) => {
                    return Err(e);
                },
            }
        } else {
            self.duplicate()
        };
        let n = self.rows;
        let count = fp::fp_to_u64(fp::fp_abs(exp));
        let mut result = Matrix::identity(n);
        let mut t: u64 = 0;
        while t < count
            invariant
                t <= count,
                base@.wf(),
                base@.rows == n,
                base@.cols == n,
                result@.wf(),
                result@.rows == n,
                result@.cols == n,
                result@ == sm_pow(base@, t as nat),
            decreases count - t,
        {
            result = match Matrix::multiply(&base, &result) {
                Ok(m) => m,
                Err(_) => {
                    proof {
                        assert(false);
                    }
                    Matrix::new(0, 0)
                },
            };
            t = t + 1;
        }
        Ok(result)
    }
}

} // verus!
