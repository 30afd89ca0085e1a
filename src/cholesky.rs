//! Cholesky decomposition of symmetric positive-definite matrices, and the
//! triangular solves that use its factor.
use vstd::prelude::*;

use crate::error::{Error, ErrorKind};
use crate::matrix::Matrix;

verus! {

/// The numeric operations that the decomposition needs from its scalar type.
///
/// Each operation is named by a spec function, and the executable method
/// returns exactly what that spec function gives; the contracts of the
/// decomposition are stated over these names.
pub trait Real: Copy + Sized {
    spec fn spec_zero() -> Self;

    spec fn spec_one() -> Self;

    spec fn spec_epsilon() -> Self;

    spec fn spec_plus(self, other: Self) -> Self;

    spec fn spec_minus(self, other: Self) -> Self;

    spec fn spec_times(self, other: Self) -> Self;

    spec fn spec_over(self, other: Self) -> Self;

    spec fn spec_sqrt(self) -> Self;

    spec fn spec_abs(self) -> Self;

    spec fn spec_less_than(self, other: Self) -> bool;

    fn zero() -> (r: Self)
        ensures
            r == Self::spec_zero(),
    ;

    fn one() -> (r: Self)
        ensures
            r == Self::spec_one(),
    ;

    /// The machine epsilon: the threshold below which a pivot counts as zero.
    fn epsilon() -> (r: Self)
        ensures
            r == Self::spec_epsilon(),
    ;

    fn plus(self, other: Self) -> (r: Self)
        ensures
            r == self.spec_plus(other),
    ;

    fn minus(self, other: Self) -> (r: Self)
        ensures
            r == self.spec_minus(other),
    ;

    fn times(self, other: Self) -> (r: Self)
        ensures
            r == self.spec_times(other),
    ;

    fn over(self, other: Self) -> (r: Self)
        ensures
            r == self.spec_over(other),
    ;

    fn sqrt(self) -> (r: Self)
        ensures
            r == self.spec_sqrt(),
    ;

    fn abs(self) -> (r: Self)
        ensures
            r == self.spec_abs(),
    ;

    fn less_than(self, other: Self) -> (r: bool)
        ensures
            r == self.spec_less_than(other),
    ;
}

/// The sum `L[k][0] L[j][0] + .. + L[k][t-1] L[j][t-1]` over the finished
/// columns of the factor of `a`, accumulated from zero in column order.
pub open spec fn sweep_dot<T: Real>(a: Matrix<T>, k: int, j: int, t: int) -> T
    decreases j, 0int, t,
{
    if j < 0 || t <= 0 || t > j {
        T::spec_zero()
    } else {
        sweep_dot(a, k, j, t - 1).spec_plus(
            cholesky_entry(a, k, t - 1).spec_times(cholesky_entry(a, j, t - 1)),
        )
    }
}

/// Entry `(k, j)` of `a` once the finished columns have been subtracted from
/// it; column zero is left as it is.
pub open spec fn updated_entry<T: Real>(a: Matrix<T>, k: int, j: int) -> T
    decreases j, 1int, 0int,
{
    if j <= 0 {
        a.entry(k, j)
    } else {
        a.entry(k, j).spec_minus(sweep_dot(a, k, j, j))
    }
}

/// Entry `(k, j)`, for `k >= j`, of the factor that the column sweep makes of `a`.
pub open spec fn cholesky_entry<T: Real>(a: Matrix<T>, k: int, j: int) -> T
    decreases j, 2int, 0int,
{
    if j < 0 {
        a.entry(k, j)
    } else {
        updated_entry(a, k, j).spec_over(updated_entry(a, j, j).spec_sqrt())
    }
}

/// The pivot of column `j`: its diagonal entry once updated.
pub open spec fn pivot<T: Real>(a: Matrix<T>, j: int) -> T {
    updated_entry(a, j, j)
}

/// The pivot of column `j` is below epsilon in magnitude.
pub open spec fn pivot_singular<T: Real>(a: Matrix<T>, j: int) -> bool {
    pivot(a, j).spec_abs().spec_less_than(T::spec_epsilon())
}

/// The pivot of column `j` is neither below epsilon in magnitude nor negative.
pub open spec fn pivot_ok<T: Real>(a: Matrix<T>, j: int) -> bool {
    !pivot_singular(a, j) && !pivot(a, j).spec_less_than(T::spec_zero())
}

/// The pivots of the first `m` columns are all acceptable.
pub open spec fn sweep_ok<T: Real>(a: Matrix<T>, m: int) -> bool {
    forall|j: int| 0 <= j < m ==> #[trigger] pivot_ok(a, j)
}

/// The message for a rejected pivot in column `j`.
pub open spec fn pivot_message<T: Real>(a: Matrix<T>, j: int) -> Seq<char> {
    if pivot_singular(a, j) {
        "Matrix is singular to working precision."@
    } else {
        "Diagonal entries of matrix are not all positive."@
    }
}

/// Column `j` is the first whose pivot is rejected.
pub open spec fn first_rejected<T: Real>(a: Matrix<T>, j: int) -> bool {
    sweep_ok(a, j) && !pivot_ok(a, j)
}

/// The lower triangle of `f` is the factor that the column sweep makes of `a`.
pub open spec fn is_sweep_of<T: Real>(f: Matrix<T>, a: Matrix<T>) -> bool {
    forall|k: int, j: int| 0 <= j <= k < f.nrows() ==> #[trigger] f.entry(k, j) == cholesky_entry(a, k, j)
}

/// The product of the first `i` diagonal entries of `l`, from one.
pub open spec fn diagonal_product<T: Real>(l: Matrix<T>, i: int) -> T
    decreases i,
{
    if i <= 0 {
        T::spec_one()
    } else {
        diagonal_product(l, i - 1).spec_times(l.entry(i - 1, i - 1))
    }
}

/// The diagonal entry `i` of `l` is below epsilon in magnitude.
pub open spec fn small_diagonal<T: Real>(l: Matrix<T>, i: int) -> bool {
    l.entry(i, i).spec_abs().spec_less_than(T::spec_epsilon())
}

/// Some diagonal entry of the square matrix `l` is below epsilon in magnitude.
pub open spec fn has_small_diagonal<T: Real>(l: Matrix<T>) -> bool {
    exists|i: int| 0 <= i < l.nrows() && #[trigger] small_diagonal(l, i)
}

/// Entry `i` of the solution of `L y = b` by forward substitution.
pub open spec fn forward_value<T: Real>(l: Matrix<T>, b: Seq<T>, i: int) -> T
    decreases i, 1int, 0int,
{
    if i < 0 {
        T::spec_zero()
    } else {
        b[i].spec_minus(forward_dot(l, b, i, i)).spec_over(l.entry(i, i))
    }
}

/// The sum `L[i][0] y[0] + .. + L[i][t-1] y[t-1]`, accumulated from zero.
pub open spec fn forward_dot<T: Real>(l: Matrix<T>, b: Seq<T>, i: int, t: int) -> T
    decreases i, 0int, t,
{
    if i < 0 || t <= 0 || t > i {
        T::spec_zero()
    } else {
        forward_dot(l, b, i, t - 1).spec_plus(l.entry(i, t - 1).spec_times(forward_value(l, b, t - 1)))
    }
}

/// The solution of `L y = b` by forward substitution.
pub open spec fn forward_solution<T: Real>(l: Matrix<T>, b: Seq<T>) -> Seq<T> {
    Seq::new(b.len(), |i: int| forward_value(l, b, i))
}

/// Entry `i` of the solution of `L^T x = b` by back substitution.
pub open spec fn back_value<T: Real>(l: Matrix<T>, b: Seq<T>, i: int) -> T
    decreases l.nrows() - i, 1int, 0int,
{
    if i < 0 || i >= l.nrows() {
        T::spec_zero()
    } else {
        b[i].spec_minus(back_dot(l, b, i, l.nrows() as int)).spec_over(l.entry(i, i))
    }
}

/// The sum `L[i+1][i] x[i+1] + .. + L[t-1][i] x[t-1]`, accumulated from zero.
pub open spec fn back_dot<T: Real>(l: Matrix<T>, b: Seq<T>, i: int, t: int) -> T
    decreases l.nrows() - i, 0int, t - i,
{
    if i < 0 || t <= i + 1 || t > l.nrows() {
        T::spec_zero()
    } else {
        back_dot(l, b, i, t - 1).spec_plus(l.entry(t - 1, i).spec_times(back_value(l, b, t - 1)))
    }
}

/// The solution of `L^T x = b` by back substitution.
pub open spec fn back_solution<T: Real>(l: Matrix<T>, b: Seq<T>) -> Seq<T> {
    Seq::new(b.len(), |i: int| back_value(l, b, i))
}

/// `a` and `b` agree on and below the diagonal.
pub open spec fn same_lower<T>(a: Matrix<T>, b: Matrix<T>) -> bool {
    forall|p: int, q: int| 0 <= q <= p ==> #[trigger] a.entry(p, q) == b.entry(p, q)
}

proof fn lemma_dot_congruent<T: Real>(a: Matrix<T>, b: Matrix<T>, k: int, j: int, t: int)
    requires
        same_lower(a, b),
        0 <= j <= k,
        forall|r: int, c: int| 0 <= c < j && c <= r ==> #[trigger] cholesky_entry(a, r, c) == cholesky_entry(b, r, c),
    ensures
        sweep_dot(a, k, j, t) == sweep_dot(b, k, j, t),
    decreases t,
{
    if t > 0 && t <= j {
        lemma_dot_congruent(a, b, k, j, t - 1);
        assert(cholesky_entry(a, k, t - 1) == cholesky_entry(b, k, t - 1));
        assert(cholesky_entry(a, j, t - 1) == cholesky_entry(b, j, t - 1));
    }
}

proof fn lemma_sweep_congruent<T: Real>(a: Matrix<T>, b: Matrix<T>, j: int)
    requires
        same_lower(a, b),
    ensures
        forall|r: int, c: int| 0 <= c <= j && c <= r ==> #[trigger] cholesky_entry(a, r, c) == cholesky_entry(b, r, c),
        forall|r: int, c: int| 0 <= c <= j && c <= r ==> #[trigger] updated_entry(a, r, c) == updated_entry(b, r, c),
    decreases j,
{
    if j >= 0 {
        if j > 0 {
            lemma_sweep_congruent(a, b, j - 1);
        }
        assert forall|r: int| j <= r implies #[trigger] updated_entry(a, r, j) == updated_entry(b, r, j) by {
            lemma_dot_congruent(a, b, r, j, j);
        }
        assert forall|r: int, c: int| 0 <= c <= j && c <= r implies #[trigger] cholesky_entry(a, r, c) == cholesky_entry(b, r, c) by {
            if c == j {
                assert(updated_entry(a, r, j) == updated_entry(b, r, j));
                assert(updated_entry(a, j, j) == updated_entry(b, j, j));
            }
        }
        assert forall|r: int, c: int| 0 <= c <= j && c <= r implies #[trigger] updated_entry(a, r, c) == updated_entry(b, r, c) by {
            if c == j {
                assert(updated_entry(a, r, j) == updated_entry(b, r, j));
            }
        }
    }
}

/// The column sweep never reads the strict upper triangle: two matrices that
/// agree on and below the diagonal give the same pivots, the same verdict,
/// and the same factor.
pub proof fn law_upper_triangle_unread<T: Real>(a: Matrix<T>, b: Matrix<T>, n: nat)
    requires
        same_lower(a, b),
    ensures
        forall|j: int| 0 <= j < n ==> #[trigger] pivot_ok(a, j) == pivot_ok(b, j),
        forall|j: int| 0 <= j < n ==> #[trigger] first_rejected(a, j) == first_rejected(b, j),
        forall|j: int| 0 <= j < n ==> #[trigger] pivot_message(a, j) == pivot_message(b, j),
        sweep_ok(a, n as int) == sweep_ok(b, n as int),
        forall|r: int, c: int| 0 <= c <= r < n ==> #[trigger] cholesky_entry(a, r, c) == cholesky_entry(b, r, c),
{
    lemma_sweep_congruent(a, b, n as int);
    assert forall|j: int| 0 <= j < n implies #[trigger] pivot_ok(a, j) == pivot_ok(b, j) by {
        assert(updated_entry(a, j, j) == updated_entry(b, j, j));
    }
    assert forall|j: int| 0 <= j < n implies #[trigger] pivot_message(a, j) == pivot_message(b, j) by {
        assert(updated_entry(a, j, j) == updated_entry(b, j, j));
    }
    assert forall|j: int| 0 <= j < n implies #[trigger] first_rejected(a, j) == first_rejected(b, j) by {
        lemma_sweep_ok_same(a, b, j);
    }
    lemma_sweep_ok_same(a, b, n as int);
}

proof fn lemma_sweep_ok_same<T: Real>(a: Matrix<T>, b: Matrix<T>, m: int)
    requires
        forall|i: int| 0 <= i < m ==> #[trigger] pivot_ok(a, i) == pivot_ok(b, i),
    ensures
        sweep_ok(a, m) == sweep_ok(b, m),
{
    if sweep_ok(a, m) {
        assert forall|i: int| 0 <= i < m implies #[trigger] pivot_ok(b, i) by {
            assert(pivot_ok(a, i));
        }
    }
    if sweep_ok(b, m) {
        assert forall|i: int| 0 <= i < m implies #[trigger] pivot_ok(a, i) by {
            assert(pivot_ok(b, i));
        }
    }
}

/// The Cholesky factor `L` of a matrix `A = L L^T`.
///
/// The strictly upper triangle of the stored factor still holds the input's
/// values; `unpack` clears it.
#[derive(Clone, Debug)]
pub struct Cholesky<T> {
    l: Matrix<T>,
}

impl<T> Cholesky<T> {
    /// The stored factor, upper triangle not yet cleared.
    pub closed spec fn factor(&self) -> Matrix<T> {
        self.l
    }
}

/// Every entry of `l` strictly above the diagonal is zero.
pub open spec fn zero_above_diagonal<T: Real>(l: Matrix<T>) -> bool {
    forall|i: int, j: int| 0 <= i < j < l.ncols() ==> #[trigger] l.entry(i, j) == T::spec_zero()
}

/// `m` is a well-formed square matrix of dimension `n`.
pub open spec fn square<T>(m: Matrix<T>, n: nat) -> bool {
    &&& m.wf()
    &&& m.nrows() == n
    &&& m.ncols() == n
}

/// `a` and `b` agree strictly above the diagonal.
pub open spec fn same_upper<T>(a: Matrix<T>, b: Matrix<T>) -> bool {
    forall|p: int, q: int| 0 <= p < q < a.ncols() ==> #[trigger] a.entry(p, q) == b.entry(p, q)
}

/// `r` keeps the diagonal and lower triangle of `m` and holds `z` strictly above
/// the diagonal.
pub open spec fn lower_part_of<T>(r: Matrix<T>, m: Matrix<T>, z: T) -> bool {
    forall|i: int, j: int|
        0 <= i < r.nrows() && 0 <= j < r.ncols() ==> #[trigger] r.entry(i, j) == (if j > i {
            z
        } else {
            m.entry(i, j)
        })
}

/// Columns before `j` of `a` hold the factor of `m`; the lower triangle of the
/// later columns still holds `m`.
spec fn sweep_state<T: Real>(a: Matrix<T>, m: Matrix<T>, j: int) -> bool {
    &&& forall|k: int, c: int| 0 <= c < j && c <= k < a.nrows() ==> #[trigger] a.entry(k, c) == cholesky_entry(m, k, c)
    &&& forall|k: int, c: int| j < c && c <= k < a.nrows() ==> #[trigger] a.entry(k, c) == m.entry(k, c)
}

impl<T: Real> Cholesky<T> {
    /// The dimension of the factor.
    pub fn dim(&self) -> (r: usize)
        ensures
            r == self.factor().nrows(),
    {
        self.l.rows()
    }

    /// Factors a square matrix column by column (the gaxpy-rich, left-looking
    /// form).
    ///
    /// Each column `j` first loses the dot products of the earlier columns,
    /// then its diagonal entry is tested: below epsilon in magnitude the matrix
    /// is singular, below zero it is not positive definite; both are
    /// `DecompFailure`. Otherwise the column is divided by the square root of
    /// its diagonal entry. Only the lower triangle is written.
    pub fn decompose(matrix: Matrix<T>) -> (r: Result<Cholesky<T>, Error>)
        requires
            matrix.wf(),
            matrix.nrows() == matrix.ncols(),
        ensures
            (r is Ok) == sweep_ok(matrix, matrix.nrows() as int),
            r matches Ok(c) ==> (square(c.factor(), matrix.nrows() as nat) && same_upper(c.factor(), matrix) && is_sweep_of(c.factor(), matrix)),
            r matches Err(e) ==> (e.kind == ErrorKind::DecompFailure && exists|j: int| 0 <= j < matrix.nrows() && #[trigger] first_rejected(matrix, j) && e.description@ == pivot_message(matrix, j)),
    {
        let n = matrix.rows();
        let ghost m = matrix;
        let mut a = matrix;
        let mut j: usize = 0;
        while j < n
            invariant
                square(a, n as nat),
                n == m.nrows(),
                m == matrix,
                same_upper(a, m),
                j <= n,
                sweep_ok(m, j as int),
                sweep_state(a, m, j as int),
                forall|k: int| j <= k < n ==> #[trigger] a.entry(k, j as int) == m.entry(k, j as int),
            decreases n - j,
        {
            // Subtract the finished columns from column j.
            let mut k: usize = j;
            while k < n
                invariant
                    square(a, n as nat),
                    n == m.nrows(),
                    same_upper(a, m),
                    j < n,
                    j <= k <= n,
                    sweep_state(a, m, j as int),
                    forall|r: int| j <= r < k ==> #[trigger] a.entry(r, j as int) == updated_entry(m, r, j as int),
                    forall|r: int| k <= r < n ==> #[trigger] a.entry(r, j as int) == m.entry(r, j as int),
                decreases n - k,
            {
                if j > 0 {
                    let mut kj_dot = T::zero();
                    let mut t: usize = 0;
                    while t < j
                        invariant
                            square(a, n as nat),
                            0 < j < n,
                            j <= k < n,
                            t <= j,
                            sweep_state(a, m, j as int),
                            kj_dot == sweep_dot(m, k as int, j as int, t as int),
                        decreases j - t,
                    {
                        kj_dot = kj_dot.plus(a.get(k, t).times(*a.get(j, t)));
                        t = t + 1;
                    }
                    let updated = a.get(k, j).minus(kj_dot);
                    a.set(k, j, updated);
                }
                k = k + 1;
            }
            let diagonal = *a.get(j, j);
            if diagonal.abs().less_than(T::epsilon()) {
                assert(first_rejected(m, j as int));
                return Err(Error::new(ErrorKind::DecompFailure, "Matrix is singular to working precision."));
            } else if diagonal.less_than(T::zero()) {
                assert(first_rejected(m, j as int));
                return Err(Error::new(ErrorKind::DecompFailure, "Diagonal entries of matrix are not all positive."));
            }
            assert(pivot_ok(m, j as int));
            // Scale column j by the square root of its pivot.
            let divisor = diagonal.sqrt();
            let mut k: usize = j;
            while k < n
                invariant
                    square(a, n as nat),
                    n == m.nrows(),
                    same_upper(a, m),
                    j < n,
                    j <= k <= n,
                    sweep_state(a, m, j as int),
                    divisor == pivot(m, j as int).spec_sqrt(),
                    forall|r: int| j <= r < k ==> #[trigger] a.entry(r, j as int) == cholesky_entry(m, r, j as int),
                    forall|r: int| k <= r < n ==> #[trigger] a.entry(r, j as int) == updated_entry(m, r, j as int),
                decreases n - k,
            {
                let scaled = a.get(k, j).over(divisor);
                a.set(k, j, scaled);
                k = k + 1;
            }
            j = j + 1;
            assert(sweep_ok(m, j as int));
        }
        Ok(Cholesky { l: a })
    }

    /// The determinant of the decomposed matrix: the square of the product of
    /// the factor's diagonal entries; one for an empty matrix.
    pub fn det(&self) -> (r: T)
        requires
            self.factor().wf(),
            self.factor().nrows() == self.factor().ncols(),
        ensures
            r == diagonal_product(self.factor(), self.factor().nrows() as int).spec_times(
                diagonal_product(self.factor(), self.factor().nrows() as int),
            ),
    {
        let n = self.l.rows();
        let mut l_det = T::one();
        let mut i: usize = 0;
        while i < n
            invariant
                square(self.l, n as nat),
                i <= n,
                l_det == diagonal_product(self.l, i as int),
            decreases n - i,
        {
            l_det = l_det.times(*self.l.get(i, i));
            i = i + 1;
        }
        l_det.times(l_det)
    }

    /// Solves `A x = b` through `L y = b`, then `L^T x = y`.
    ///
    /// A factor made by `decompose` has its diagonal away from zero, so
    /// neither solve is expected to fail; a failure is reported as `DivByZero`.
    pub fn solve(&self, b: Vec<T>) -> (r: Result<Vec<T>, Error>)
        requires
            self.factor().wf(),
            self.factor().nrows() == self.factor().ncols(),
            b@.len() == self.factor().nrows(),
        ensures
            (r is Err) == has_small_diagonal(self.factor()),
            r matches Ok(x) ==> (x@ == back_solution(self.factor(), forward_solution(self.factor(), b@))),
            r matches Err(e) ==> (e.kind == ErrorKind::DivByZero),
    {
        match forward_substitution(&self.l, b) {
            Ok(y) => transpose_back_substitution(&self.l, y),
            Err(e) => Err(e),
        }
    }

    /// The clean lower-triangular factor: the stored factor with every entry
    /// strictly above the diagonal set to zero.
    pub fn unpack(self) -> (r: Matrix<T>)
        requires
            self.factor().wf(),
        ensures
            r.wf(),
            r.nrows() == self.factor().nrows(),
            r.ncols() == self.factor().ncols(),
            lower_part_of(r, self.factor(), T::spec_zero()),
    {
        let mut l = self.l;
        l.nullify_upper_triangular_part(T::zero());
        l
    }
}

impl<T: Real> Matrix<T> {
    /// The clean lower-triangular Cholesky factor of this square matrix, made by
    /// `Cholesky::decompose` and `unpack`; this matrix is left as it is.
    pub fn cholesky(&self) -> (r: Result<Matrix<T>, Error>)
        requires
            self.wf(),
            self.nrows() == self.ncols(),
        ensures
            (r is Ok) == sweep_ok(*self, self.nrows() as int),
            r matches Ok(l) ==> (square(l, self.nrows() as nat) && is_sweep_of(l, *self) && zero_above_diagonal(l)),
            r matches Err(e) ==> (e.kind == ErrorKind::DecompFailure && exists|j: int| 0 <= j < self.nrows() && #[trigger] first_rejected(*self, j) && e.description@ == pivot_message(*self, j)),
    {
        let copy = self.copy_of();
        proof {
            law_upper_triangle_unread(copy, *self, self.nrows() as nat);
        }
        match Cholesky::decompose(copy) {
            Ok(c) => {
                let l = c.unpack();
                Ok(l)
            },
            Err(e) => {
                proof {
                    let j = choose|j: int| 0 <= j < copy.nrows() && #[trigger] first_rejected(copy, j) && e.description@ == pivot_message(copy, j);
                    assert(first_rejected(*self, j));
                    assert(pivot_message(copy, j) == pivot_message(*self, j));
                }
                Err(e)
            },
        }
    }
}

/// Solves `L y = b` for lower-triangular `L`, from the first index to the last.
///
/// A diagonal entry below epsilon in magnitude gives `DivByZero`.
pub fn forward_substitution<T: Real>(l: &Matrix<T>, b: Vec<T>) -> (r: Result<Vec<T>, Error>)
    requires
        l.wf(),
        l.nrows() == l.ncols(),
        l.nrows() == b@.len(),
    ensures
        (r is Err) == has_small_diagonal(*l),
        r matches Ok(y) ==> (y@ == forward_solution(*l, b@)),
        r matches Err(e) ==> (e.kind == ErrorKind::DivByZero),
{
    let n = l.rows();
    let mut y = b;
    let mut i: usize = 0;
    while i < n
        invariant
            square(*l, n as nat),
            y@.len() == n,
            b@.len() == n,
            i <= n,
            forall|p: int| 0 <= p < i ==> !#[trigger] small_diagonal(*l, p),
            forall|p: int| 0 <= p < i ==> #[trigger] y@[p] == forward_value(*l, b@, p),
            forall|p: int| i <= p < n ==> #[trigger] y@[p] == b@[p],
        decreases n - i,
    {
        let mut inner_product = T::zero();
        let mut j: usize = 0;
        while j < i
            invariant
                square(*l, n as nat),
                y@.len() == n,
                i < n,
                j <= i,
                forall|p: int| 0 <= p < i ==> #[trigger] y@[p] == forward_value(*l, b@, p),
                inner_product == forward_dot(*l, b@, i as int, j as int),
            decreases i - j,
        {
            inner_product = inner_product.plus(l.get(i, j).times(y[j]));
            j = j + 1;
        }
        let diagonal = *l.get(i, i);
        if diagonal.abs().less_than(T::epsilon()) {
            assert(small_diagonal(*l, i as int));
            return Err(Error::new(ErrorKind::DivByZero, "Matrix L is singular to working precision."));
        }
        let value = y[i].minus(inner_product).over(diagonal);
        y.set(i, value);
        i = i + 1;
    }
    assert(y@ =~= forward_solution(*l, b@));
    Ok(y)
}

/// Solves `L^T x = b` for lower-triangular `L`, from the last index to the first.
///
/// A diagonal entry below epsilon in magnitude gives `DivByZero`.
pub fn transpose_back_substitution<T: Real>(l: &Matrix<T>, b: Vec<T>) -> (r: Result<Vec<T>, Error>)
    requires
        l.wf(),
        l.nrows() == l.ncols(),
        l.nrows() == b@.len(),
    ensures
        (r is Err) == has_small_diagonal(*l),
        r matches Ok(x) ==> (x@ == back_solution(*l, b@)),
        r matches Err(e) ==> (e.kind == ErrorKind::DivByZero),
{
    let n = l.rows();
    let mut x = b;
    let mut i: usize = n;
    while i > 0
        invariant
            square(*l, n as nat),
            x@.len() == n,
            b@.len() == n,
            i <= n,
            forall|p: int| i <= p < n ==> !#[trigger] small_diagonal(*l, p),
            forall|p: int| i <= p < n ==> #[trigger] x@[p] == back_value(*l, b@, p),
            forall|p: int| 0 <= p < i ==> #[trigger] x@[p] == b@[p],
        decreases i,
    {
        i = i - 1;
        let mut inner_product = T::zero();
        let mut j: usize = i + 1;
        while j < n
            invariant
                square(*l, n as nat),
                x@.len() == n,
                i < n,
                i + 1 <= j <= n,
                forall|p: int| i < p < n ==> #[trigger] x@[p] == back_value(*l, b@, p),
                inner_product == back_dot(*l, b@, i as int, j as int),
            decreases n - j,
        {
            inner_product = inner_product.plus(l.get(j, i).times(x[j]));
            j = j + 1;
        }
        let diagonal = *l.get(i, i);
        if diagonal.abs().less_than(T::epsilon()) {
            assert(small_diagonal(*l, i as int));
            return Err(Error::new(ErrorKind::DivByZero, "Matrix L is singular to working precision."));
        }
        let value = x[i].minus(inner_product).over(diagonal);
        x.set(i, value);
    }
    assert(x@ =~= back_solution(*l, b@));
    Ok(x)
}

/// The scalar's arithmetic is exact on zero and one, as floating point is:
/// sums, differences, products and quotients of these values, the square root
/// of one, and the tests that one is neither below epsilon nor negative.
pub open spec fn exact_on_zero_and_one<T: Real>() -> bool {
    let z = T::spec_zero();
    let o = T::spec_one();
    &&& z.spec_plus(z) == z
    &&& z.spec_times(z) == z
    &&& o.spec_times(z) == z
    &&& z.spec_minus(z) == z
    &&& o.spec_minus(z) == o
    &&& o.spec_sqrt() == o
    &&& z.spec_over(o) == z
    &&& o.spec_over(o) == o
    &&& !o.spec_abs().spec_less_than(T::spec_epsilon())
    &&& !o.spec_less_than(z)
}

/// `a` is the `n x n` identity matrix.
pub open spec fn is_identity<T: Real>(a: Matrix<T>, n: nat) -> bool {
    &&& square(a, n)
    &&& forall|i: int, j: int|
        0 <= i < n && 0 <= j < n ==> #[trigger] a.entry(i, j) == (if i == j {
            T::spec_one()
        } else {
            T::spec_zero()
        })
}

proof fn lemma_identity_dot<T: Real>(a: Matrix<T>, n: nat, k: int, j: int, t: int)
    requires
        exact_on_zero_and_one::<T>(),
        is_identity(a, n),
        0 <= j <= k < n,
        0 <= t <= j,
        forall|r: int, c: int| 0 <= c < j && c <= r < n ==> #[trigger] cholesky_entry(a, r, c) == a.entry(r, c),
    ensures
        sweep_dot(a, k, j, t) == T::spec_zero(),
    decreases t,
{
    if t > 0 {
        lemma_identity_dot(a, n, k, j, t - 1);
        assert(cholesky_entry(a, k, t - 1) == a.entry(k, t - 1));
        assert(cholesky_entry(a, j, t - 1) == a.entry(j, t - 1));
    }
}

proof fn lemma_identity_sweep<T: Real>(a: Matrix<T>, n: nat, j: int)
    requires
        exact_on_zero_and_one::<T>(),
        is_identity(a, n),
        j < n,
    ensures
        forall|r: int, c: int| 0 <= c <= j && c <= r < n ==> #[trigger] cholesky_entry(a, r, c) == a.entry(r, c),
        forall|c: int| 0 <= c <= j ==> #[trigger] pivot_ok(a, c),
    decreases j,
{
    if j >= 0 {
        if j > 0 {
            lemma_identity_sweep(a, n, j - 1);
        }
        assert forall|r: int| j <= r < n implies #[trigger] updated_entry(a, r, j) == a.entry(r, j) by {
            if j > 0 {
                lemma_identity_dot(a, n, r, j, j);
            }
        }
        assert(updated_entry(a, j, j) == T::spec_one());
        assert(pivot_ok(a, j));
        assert forall|r: int, c: int| 0 <= c <= j && c <= r < n implies #[trigger] cholesky_entry(a, r, c) == a.entry(r, c) by {
            if c == j {
                assert(updated_entry(a, r, j) == a.entry(r, j));
            }
        }
    }
}

/// Decomposing the identity matrix succeeds, and the factor is the identity
/// again: every pivot is one, and every earlier column adds nothing. This
/// holds for any scalar whose arithmetic is exact on zero and one.
pub proof fn law_identity_factor<T: Real>(a: Matrix<T>, n: nat)
    requires
        exact_on_zero_and_one::<T>(),
        is_identity(a, n),
    ensures
        sweep_ok(a, n as int),
        forall|r: int, c: int| 0 <= c <= r < n ==> #[trigger] cholesky_entry(a, r, c) == a.entry(r, c),
{
    if n > 0 {
        lemma_identity_sweep(a, n, n - 1);
    }
}

} // verus!
