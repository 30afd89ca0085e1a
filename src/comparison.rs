//! Elementwise comparison of matrices: pluggable scalar comparators, a
//! comparison engine that collects every mismatch in row-major order, and the
//! rendering of a failed comparison into a diagnostic report.
use vstd::prelude::*;

use crate::matrix::Matrix;
use crate::text::{decimal, i64_text, signed_decimal, u64_text, usize_text};

verus! {

/// An optional string, seen as an optional sequence of characters.
pub open spec fn text_opt(o: Option<String>) -> Option<Seq<char>> {
    match o {
        Some(s) => Some(s@),
        None => None,
    }
}

/// The distance between two integers.
pub open spec fn distance(x: int, y: int) -> int {
    if x > y {
        x - y
    } else {
        y - x
    }
}

/// A scalar that can be shown in a diagnostic report.
pub trait Render {
    spec fn text(&self) -> Seq<char>;

    fn render(&self) -> (r: String)
        ensures
            r@ == self.text(),
    ;
}

impl Render for i64 {
    open spec fn text(&self) -> Seq<char> {
        signed_decimal(*self as int)
    }

    fn render(&self) -> (r: String) {
        i64_text(*self)
    }
}

impl Render for u64 {
    open spec fn text(&self) -> Seq<char> {
        decimal(*self as nat)
    }

    fn render(&self) -> (r: String) {
        u64_text(*self)
    }
}

/// The error payload that a comparator attaches to a mismatching pair.
pub trait ComparisonFailure {
    /// The human-readable explanation of the mismatch, if any.
    spec fn reason(&self) -> Option<Seq<char>>;

    fn failure_reason(&self) -> (r: Option<String>)
        ensures
            text_opt(r) == self.reason(),
    ;
}

/// A rule deciding whether two scalars are equal enough.
pub trait ElementwiseComparator<T, E>: Sized {
    /// `None` when `x` and `y` are accepted as equal, else the error describing the mismatch.
    spec fn outcome(&self, x: T, y: T) -> Option<E>;

    spec fn description_text(&self) -> Seq<char>;

    spec fn definition_text(&self) -> Seq<char>;

    fn compare(&self, x: T, y: T) -> (r: Option<E>)
        ensures
            r == self.outcome(x, y),
    ;

    fn description(&self) -> (r: String)
        ensures
            r@ == self.description_text(),
    ;

    fn definition(&self) -> (r: String)
        ensures
            r@ == self.definition_text(),
    ;
}

/// One mismatching cell: both values, the comparator's error, and the location.
#[derive(Copy, Clone, Debug)]
pub struct ElementComparisonFailure<T, E> {
    pub x: T,
    pub y: T,
    pub error: E,
    pub row: usize,
    pub col: usize,
}

/// The explanation appended to a mismatch line: a space and the reason, or nothing.
pub open spec fn reason_suffix(reason: Option<Seq<char>>) -> Seq<char> {
    match reason {
        Some(s) => " "@ + s,
        None => Seq::empty(),
    }
}

impl<T: Render, E: ComparisonFailure> ElementComparisonFailure<T, E> {
    /// The line `(row, col): x = .., y = ...` followed by the reason, if any.
    pub open spec fn line(&self) -> Seq<char> {
        "("@ + decimal(self.row as nat) + ", "@ + decimal(self.col as nat) + "): x = "@
            + self.x.text() + ", y = "@ + self.y.text() + "."@ + reason_suffix(
            self.error.reason(),
        )
    }

    /// Renders this mismatch as one line of a report.
    pub fn to_string(&self) -> (r: String)
        ensures
            r@ == self.line(),
    {
        let mut s = String::from_str("(");
        let row = usize_text(self.row);
        s.append(row.as_str());
        s.append(", ");
        let col = usize_text(self.col);
        s.append(col.as_str());
        s.append("): x = ");
        let x = self.x.render();
        s.append(x.as_str());
        s.append(", y = ");
        let y = self.y.render();
        s.append(y.as_str());
        s.append(".");
        match self.error.failure_reason() {
            Some(reason) => {
                s.append(" ");
                s.append(reason.as_str());
            },
            None => {},
        }
        s
    }
}

/// The outcome of comparing two matrices.
#[derive(Debug)]
pub enum MatrixComparisonResult<T, C, E> {
    Match,
    MismatchedDimensions { dim_x: (usize, usize), dim_y: (usize, usize) },
    MismatchedElements { comparator: C, mismatches: Vec<ElementComparisonFailure<T, E>> },
}

/// The report lines of a sequence of mismatches, each indented by a space.
pub open spec fn mismatch_lines<T: Render, E: ComparisonFailure>(
    s: Seq<ElementComparisonFailure<T, E>>,
) -> Seq<char>
    decreases s.len(),
{
    if s.len() == 0 {
        Seq::empty()
    } else {
        mismatch_lines(s.drop_last()) + " "@ + s.last().line() + "\n"@
    }
}

/// The report for matrices whose elements do not all match.
pub open spec fn elements_report(
    num: nat,
    lines: Seq<char>,
    description: Seq<char>,
    definition: Seq<char>,
) -> Seq<char> {
    "\n\nMatrices X and Y have "@ + decimal(num)
        + " mismatched element pairs. The mismatched elements are listed below, in the format\n(row, col): x = x[[row, col]], y = y[[row, col]].\n\n"@
        + lines + "\nComparison criterion: "@ + description + ", defined by\n    "@ + definition
        + ".\n\n"@
}

/// The report for matrices of different shapes.
pub open spec fn dimensions_report(dim_x: (usize, usize), dim_y: (usize, usize)) -> Seq<char> {
    "\n\nDimensions of matrices X and Y do not match.\n dim(X) = "@ + decimal(dim_x.0 as nat)
        + " x "@ + decimal(dim_x.1 as nat) + "\n dim(Y) = "@ + decimal(dim_y.0 as nat) + " x "@
        + decimal(dim_y.1 as nat) + "\n\n"@
}

impl<T: Copy + Render, C: ElementwiseComparator<T, E>, E: ComparisonFailure> MatrixComparisonResult<
    T,
    C,
    E,
> {
    /// The diagnostic report of a failed comparison; `None` for a match.
    pub open spec fn report(&self) -> Option<Seq<char>> {
        match self {
            MatrixComparisonResult::Match => None,
            MatrixComparisonResult::MismatchedDimensions { dim_x, dim_y } => Some(
                dimensions_report(*dim_x, *dim_y),
            ),
            MatrixComparisonResult::MismatchedElements { comparator, mismatches } => Some(
                elements_report(
                    mismatches@.len(),
                    mismatch_lines(mismatches@),
                    comparator.description_text(),
                    comparator.definition_text(),
                ),
            ),
        }
    }

    /// Renders the result into a report; a match renders to no report.
    pub fn panic_message(&self) -> (r: Option<String>)
        ensures
            text_opt(r) == self.report(),
    {
        match self {
            MatrixComparisonResult::MismatchedElements { comparator, mismatches } => {
                let mut lines = String::new();
                let mut k: usize = 0;
                while k < mismatches.len()
                    invariant
                        k <= mismatches@.len(),
                        lines@ == mismatch_lines(mismatches@.subrange(0, k as int)),
                    decreases mismatches@.len() - k,
                {
                    let line = mismatches[k].to_string();
                    proof {
                        let next = mismatches@.subrange(0, k + 1);
                        assert(next.drop_last() =~= mismatches@.subrange(0, k as int));
                    }
                    lines.append(" ");
                    lines.append(line.as_str());
                    lines.append("\n");
                    k = k + 1;
                }
                assert(mismatches@.subrange(0, mismatches@.len() as int) =~= mismatches@);
                let mut s = String::from_str("\n\nMatrices X and Y have ");
                let num = usize_text(mismatches.len());
                s.append(num.as_str());
                s.append(
                    " mismatched element pairs. The mismatched elements are listed below, in the format\n(row, col): x = x[[row, col]], y = y[[row, col]].\n\n",
                );
                s.append(lines.as_str());
                s.append("\nComparison criterion: ");
                let description = comparator.description();
                s.append(description.as_str());
                s.append(", defined by\n    ");
                let definition = comparator.definition();
                s.append(definition.as_str());
                s.append(".\n\n");
                Some(s)
            },
            MatrixComparisonResult::MismatchedDimensions { dim_x, dim_y } => {
                let mut s = String::from_str(
                    "\n\nDimensions of matrices X and Y do not match.\n dim(X) = ",
                );
                let a = usize_text(dim_x.0);
                s.append(a.as_str());
                s.append(" x ");
                let b = usize_text(dim_x.1);
                s.append(b.as_str());
                s.append("\n dim(Y) = ");
                let c = usize_text(dim_y.0);
                s.append(c.as_str());
                s.append(" x ");
                let d = usize_text(dim_y.1);
                s.append(d.as_str());
                s.append("\n\n");
                Some(s)
            },
            MatrixComparisonResult::Match => None,
        }
    }
}

/// Accepts two scalars only when they are equal.
#[derive(Copy, Clone, Debug)]
pub struct ExactElementwiseComparator;

/// The error of an exact comparison; it carries no data.
#[derive(Copy, Clone, Debug)]
pub struct ExactError;

impl ComparisonFailure for ExactError {
    open spec fn reason(&self) -> Option<Seq<char>> {
        None
    }

    fn failure_reason(&self) -> (r: Option<String>) {
        None
    }
}

fn exact_description() -> (r: String)
    ensures
        r@ == "exact equality"@,
{
    String::from_str("exact equality")
}

fn exact_definition() -> (r: String)
    ensures
        r@ == "x == y"@,
{
    String::from_str("x == y")
}

impl ElementwiseComparator<i64, ExactError> for ExactElementwiseComparator {
    open spec fn outcome(&self, x: i64, y: i64) -> Option<ExactError> {
        if x == y {
            None
        } else {
            Some(ExactError)
        }
    }

    open spec fn description_text(&self) -> Seq<char> {
        "exact equality"@
    }

    open spec fn definition_text(&self) -> Seq<char> {
        "x == y"@
    }

    fn compare(&self, x: i64, y: i64) -> (r: Option<ExactError>) {
        if x == y {
            None
        } else {
            Some(ExactError)
        }
    }

    fn description(&self) -> (r: String) {
        exact_description()
    }

    fn definition(&self) -> (r: String) {
        exact_definition()
    }
}

impl ElementwiseComparator<u64, ExactError> for ExactElementwiseComparator {
    open spec fn outcome(&self, x: u64, y: u64) -> Option<ExactError> {
        if x == y {
            None
        } else {
            Some(ExactError)
        }
    }

    open spec fn description_text(&self) -> Seq<char> {
        "exact equality"@
    }

    open spec fn definition_text(&self) -> Seq<char> {
        "x == y"@
    }

    fn compare(&self, x: u64, y: u64) -> (r: Option<ExactError>) {
        if x == y {
            None
        } else {
            Some(ExactError)
        }
    }

    fn description(&self) -> (r: String) {
        exact_description()
    }

    fn definition(&self) -> (r: String) {
        exact_definition()
    }
}

/// Accepts two scalars when they are equal or at most `tol` apart.
#[derive(Copy, Clone, Debug)]
pub struct AbsoluteElementwiseComparator<T> {
    pub tol: T,
}

/// The error of an absolute comparison: the distance between the two values.
#[derive(Copy, Clone, Debug)]
pub struct AbsoluteError<T>(pub T);

impl<T: Render> ComparisonFailure for AbsoluteError<T> {
    open spec fn reason(&self) -> Option<Seq<char>> {
        Some("Absolute error: "@ + self.0.text())
    }

    fn failure_reason(&self) -> (r: Option<String>) {
        let mut s = String::from_str("Absolute error: ");
        let d = self.0.render();
        s.append(d.as_str());
        Some(s)
    }
}

fn absolute_description() -> (r: String)
    ensures
        r@ == "absolute difference"@,
{
    String::from_str("absolute difference")
}

/// The definition `|x - y| <= tol`, with the tolerance written out.
pub open spec fn absolute_definition_text(tol: Seq<char>) -> Seq<char> {
    "|x - y| <= "@ + tol
}

fn absolute_definition<T: Render>(tol: &T) -> (r: String)
    ensures
        r@ == absolute_definition_text(tol.text()),
{
    let mut s = String::from_str("|x - y| <= ");
    let t = tol.render();
    s.append(t.as_str());
    s
}

impl ElementwiseComparator<u64, AbsoluteError<u64>> for AbsoluteElementwiseComparator<u64> {
    open spec fn outcome(&self, x: u64, y: u64) -> Option<AbsoluteError<u64>> {
        if x == y || distance(x as int, y as int) <= self.tol {
            None
        } else {
            Some(AbsoluteError(distance(x as int, y as int) as u64))
        }
    }

    open spec fn description_text(&self) -> Seq<char> {
        "absolute difference"@
    }

    open spec fn definition_text(&self) -> Seq<char> {
        absolute_definition_text(self.tol.text())
    }

    fn compare(&self, x: u64, y: u64) -> (r: Option<AbsoluteError<u64>>) {
        if x == y {
            None
        } else {
            let d: u64 = if x > y {
                x - y
            } else {
                y - x
            };
            if d <= self.tol {
                None
            } else {
                Some(AbsoluteError(d))
            }
        }
    }

    fn description(&self) -> (r: String) {
        absolute_description()
    }

    fn definition(&self) -> (r: String) {
        absolute_definition(&self.tol)
    }
}

impl ElementwiseComparator<i64, AbsoluteError<u64>> for AbsoluteElementwiseComparator<i64> {
    open spec fn outcome(&self, x: i64, y: i64) -> Option<AbsoluteError<u64>> {
        if x == y || distance(x as int, y as int) <= self.tol {
            None
        } else {
            Some(AbsoluteError(distance(x as int, y as int) as u64))
        }
    }

    open spec fn description_text(&self) -> Seq<char> {
        "absolute difference"@
    }

    open spec fn definition_text(&self) -> Seq<char> {
        absolute_definition_text(self.tol.text())
    }

    fn compare(&self, x: i64, y: i64) -> (r: Option<AbsoluteError<u64>>) {
        if x == y {
            None
        } else {
            let d: u64 = if x > y {
                (x as i128 - y as i128) as u64
            } else {
                (y as i128 - x as i128) as u64
            };
            if (d as i128) <= (self.tol as i128) {
                None
            } else {
                Some(AbsoluteError(d))
            }
        }
    }

    fn description(&self) -> (r: String) {
        absolute_description()
    }

    fn definition(&self) -> (r: String) {
        absolute_definition(&self.tol)
    }
}

/// The mismatches among the first `n` cells of row `i`, in column order.
pub open spec fn row_mismatches<T, C: ElementwiseComparator<T, E>, E>(
    x: Matrix<T>,
    y: Matrix<T>,
    c: C,
    i: int,
    n: int,
) -> Seq<ElementComparisonFailure<T, E>>
    decreases n,
{
    if n <= 0 {
        Seq::empty()
    } else {
        let prev = row_mismatches(x, y, c, i, n - 1);
        let a = x.entry(i, n - 1);
        let b = y.entry(i, n - 1);
        match c.outcome(a, b) {
            Some(e) => prev.push(
                ElementComparisonFailure { x: a, y: b, error: e, row: i as usize, col: (n - 1) as usize },
            ),
            None => prev,
        }
    }
}

/// The mismatches among the first `m` rows, in row-major order.
pub open spec fn mismatches_upto<T, C: ElementwiseComparator<T, E>, E>(
    x: Matrix<T>,
    y: Matrix<T>,
    c: C,
    m: int,
) -> Seq<ElementComparisonFailure<T, E>>
    decreases m,
{
    if m <= 0 {
        Seq::empty()
    } else {
        mismatches_upto(x, y, c, m - 1) + row_mismatches(x, y, c, m - 1, x.ncols() as int)
    }
}

/// Every mismatching cell of two matrices of one shape, in row-major order.
pub open spec fn all_mismatches<T, C: ElementwiseComparator<T, E>, E>(
    x: Matrix<T>,
    y: Matrix<T>,
    c: C,
) -> Seq<ElementComparisonFailure<T, E>> {
    mismatches_upto(x, y, c, x.nrows() as int)
}

/// The mismatches that precede cell `(i, j)` in row-major order.
pub open spec fn mismatches_before<T, C: ElementwiseComparator<T, E>, E>(
    x: Matrix<T>,
    y: Matrix<T>,
    c: C,
    i: int,
    j: int,
) -> Seq<ElementComparisonFailure<T, E>> {
    mismatches_upto(x, y, c, i) + row_mismatches(x, y, c, i, j)
}

/// The two matrices have the same number of rows and of columns.
pub open spec fn same_shape<T>(x: Matrix<T>, y: Matrix<T>) -> bool {
    x.nrows() == y.nrows() && x.ncols() == y.ncols()
}

/// Compares two matrices cell by cell with `comparator`.
///
/// Matrices of different shapes give `MismatchedDimensions` without any scan.
/// Otherwise every cell is compared, and all mismatches are collected in
/// row-major order: none gives `Match`, some give `MismatchedElements`.
pub fn elementwise_matrix_comparison<T: Copy, C: ElementwiseComparator<T, E>, E>(
    x: &Matrix<T>,
    y: &Matrix<T>,
    comparator: C,
) -> (r: MatrixComparisonResult<T, C, E>)
    requires
        x.wf(),
        y.wf(),
    ensures
        !same_shape(*x, *y) ==> (r == (MatrixComparisonResult::<T, C, E>::MismatchedDimensions {
            dim_x: (x.nrows(), x.ncols()),
            dim_y: (y.nrows(), y.ncols()),
        })),
        same_shape(*x, *y) && all_mismatches(*x, *y, comparator).len() == 0 ==> (r is Match),
        same_shape(*x, *y) && all_mismatches(*x, *y, comparator).len() > 0 ==> (r matches MatrixComparisonResult::MismatchedElements { comparator: c, mismatches: m } && c == comparator && m@ == all_mismatches(*x, *y, comparator)),
{
    if x.rows() == y.rows() && x.cols() == y.cols() {
        let rows = x.rows();
        let cols = x.cols();
        let mut mismatches: Vec<ElementComparisonFailure<T, E>> = Vec::new();
        let mut i: usize = 0;
        while i < rows
            invariant
                x.wf(),
                y.wf(),
                same_shape(*x, *y),
                rows == x.nrows(),
                cols == x.ncols(),
                i <= rows,
                mismatches@ == mismatches_upto(*x, *y, comparator, i as int),
            decreases rows - i,
        {
            let mut j: usize = 0;
            while j < cols
                invariant
                    x.wf(),
                    y.wf(),
                    same_shape(*x, *y),
                    rows == x.nrows(),
                    cols == x.ncols(),
                    i < rows,
                    j <= cols,
                    mismatches@ == mismatches_before(*x, *y, comparator, i as int, j as int),
                decreases cols - j,
            {
                let a = *x.get(i, j);
                let b = *y.get(i, j);
                let ghost before = mismatches@;
                match comparator.compare(a, b) {
                    Some(error) => {
                        mismatches.push(ElementComparisonFailure { x: a, y: b, error, row: i, col: j });
                        proof {
                            let up = mismatches_upto(*x, *y, comparator, i as int);
                            let rm = row_mismatches(*x, *y, comparator, i as int, j as int);
                            assert((up + rm).push(ElementComparisonFailure { x: a, y: b, error, row: i, col: j }) =~= up + rm.push(ElementComparisonFailure { x: a, y: b, error, row: i, col: j }));
                        }
                    },
                    None => {},
                }
                j = j + 1;
            }
            i = i + 1;
        }
        if mismatches.len() == 0 {
            MatrixComparisonResult::Match
        } else {
            MatrixComparisonResult::MismatchedElements { comparator, mismatches }
        }
    } else {
        MatrixComparisonResult::MismatchedDimensions {
            dim_x: (x.rows(), x.cols()),
            dim_y: (y.rows(), y.cols()),
        }
    }
}

/// `c` accepts every value paired with itself.
pub open spec fn accepts_equal_values<T, C: ElementwiseComparator<T, E>, E>(c: C) -> bool {
    forall|v: T| #[trigger] c.outcome(v, v) is None
}

proof fn lemma_row_self<T, C: ElementwiseComparator<T, E>, E>(x: Matrix<T>, c: C, i: int, n: int)
    requires
        forall|v: T| #[trigger] c.outcome(v, v) is None,
    ensures
        row_mismatches(x, x, c, i, n).len() == 0,
    decreases n,
{
    if n > 0 {
        lemma_row_self(x, c, i, n - 1);
        assert(c.outcome(x.entry(i, n - 1), x.entry(i, n - 1)) is None);
    }
}

proof fn lemma_upto_self<T, C: ElementwiseComparator<T, E>, E>(x: Matrix<T>, c: C, m: int)
    requires
        forall|v: T| #[trigger] c.outcome(v, v) is None,
    ensures
        mismatches_upto(x, x, c, m).len() == 0,
    decreases m,
{
    if m > 0 {
        lemma_upto_self(x, c, m - 1);
        lemma_row_self(x, c, m - 1, x.ncols() as int);
    }
}

/// Comparing a matrix with itself, under a comparator that accepts every
/// value paired with itself, finds no mismatch: the comparison is a `Match`.
pub proof fn law_self_comparison_matches<T, C: ElementwiseComparator<T, E>, E>(x: Matrix<T>, c: C)
    requires
        accepts_equal_values::<T, C, E>(c),
    ensures
        same_shape(x, x),
        all_mismatches(x, x, c).len() == 0,
{
    lemma_upto_self(x, c, x.nrows() as int);
}

/// The exact and absolute comparators accept every value paired with itself,
/// whatever the tolerance.
pub proof fn law_comparators_accept_equal_values(tol_signed: i64, tol_unsigned: u64)
    ensures
        accepts_equal_values::<i64, ExactElementwiseComparator, ExactError>(ExactElementwiseComparator),
        accepts_equal_values::<u64, ExactElementwiseComparator, ExactError>(ExactElementwiseComparator),
        accepts_equal_values::<i64, AbsoluteElementwiseComparator<i64>, AbsoluteError<u64>>(
            AbsoluteElementwiseComparator { tol: tol_signed },
        ),
        accepts_equal_values::<u64, AbsoluteElementwiseComparator<u64>, AbsoluteError<u64>>(
            AbsoluteElementwiseComparator { tol: tol_unsigned },
        ),
{
}

/// The failure recorded for cell `(i, j)` when `c` rejects its pair.
pub open spec fn cell_failure<T, C: ElementwiseComparator<T, E>, E>(
    x: Matrix<T>,
    y: Matrix<T>,
    c: C,
    i: int,
    j: int,
) -> ElementComparisonFailure<T, E> {
    ElementComparisonFailure {
        x: x.entry(i, j),
        y: y.entry(i, j),
        error: c.outcome(x.entry(i, j), y.entry(i, j))->0,
        row: i as usize,
        col: j as usize,
    }
}

/// `c` rejects the pair at `(r, k)` and accepts every other pair of the two matrices.
pub open spec fn only_cell_rejected<T, C: ElementwiseComparator<T, E>, E>(
    x: Matrix<T>,
    y: Matrix<T>,
    c: C,
    r: int,
    k: int,
) -> bool {
    &&& c.outcome(x.entry(r, k), y.entry(r, k)) is Some
    &&& forall|i: int, j: int|
        0 <= i < x.nrows() && 0 <= j < x.ncols() && (i != r || j != k) ==> (#[trigger] c.outcome(
            x.entry(i, j),
            y.entry(i, j),
        ) is None)
}

proof fn lemma_row_single<T, C: ElementwiseComparator<T, E>, E>(
    x: Matrix<T>,
    y: Matrix<T>,
    c: C,
    r: int,
    k: int,
    i: int,
    n: int,
)
    requires
        0 <= i < x.nrows(),
        0 <= k < x.ncols(),
        n <= x.ncols(),
        only_cell_rejected(x, y, c, r, k),
    ensures
        row_mismatches(x, y, c, i, n) == (if i == r && n > k {
            seq![cell_failure(x, y, c, r, k)]
        } else {
            Seq::<ElementComparisonFailure<T, E>>::empty()
        }),
    decreases n,
{
    if n > 0 {
        lemma_row_single(x, y, c, r, k, i, n - 1);
        if i == r && n - 1 == k {
            assert(Seq::<ElementComparisonFailure<T, E>>::empty().push(cell_failure(x, y, c, r, k))
                =~= seq![cell_failure(x, y, c, r, k)]);
        } else {
            assert(c.outcome(x.entry(i, n - 1), y.entry(i, n - 1)) is None);
        }
    }
}

proof fn lemma_upto_single<T, C: ElementwiseComparator<T, E>, E>(
    x: Matrix<T>,
    y: Matrix<T>,
    c: C,
    r: int,
    k: int,
    m: int,
)
    requires
        0 <= r < x.nrows(),
        0 <= k < x.ncols(),
        m <= x.nrows(),
        only_cell_rejected(x, y, c, r, k),
    ensures
        mismatches_upto(x, y, c, m) == (if m > r {
            seq![cell_failure(x, y, c, r, k)]
        } else {
            Seq::<ElementComparisonFailure<T, E>>::empty()
        }),
    decreases m,
{
    if m > 0 {
        lemma_upto_single(x, y, c, r, k, m - 1);
        lemma_row_single(x, y, c, r, k, m - 1, x.ncols() as int);
        let prev = mismatches_upto(x, y, c, m - 1);
        let row = row_mismatches(x, y, c, m - 1, x.ncols() as int);
        if m - 1 == r {
            assert(prev + row =~= row);
        } else {
            assert(prev + row =~= prev);
        }
    }
}

/// When a comparator rejects the pair at cell `(r, k)` and accepts every other
/// pair of two matrices of one shape, the comparison records exactly one
/// mismatch, the one at `(r, k)`.
pub proof fn law_single_rejected_cell<T, C: ElementwiseComparator<T, E>, E>(
    x: Matrix<T>,
    y: Matrix<T>,
    c: C,
    r: int,
    k: int,
)
    requires
        same_shape(x, y),
        0 <= r < x.nrows(),
        0 <= k < x.ncols(),
        only_cell_rejected(x, y, c, r, k),
    ensures
        all_mismatches(x, y, c) == seq![cell_failure(x, y, c, r, k)],
{
    lemma_upto_single(x, y, c, r, k, x.nrows() as int);
}

/// When two matrices of one shape differ in exactly one cell `(r, k)` by more
/// than the tolerance, the absolute comparison records exactly one mismatch,
/// at `(r, k)`, carrying both values and their distance.
pub proof fn law_single_cell_mismatch(x: Matrix<i64>, y: Matrix<i64>, tol: i64, r: int, k: int)
    requires
        same_shape(x, y),
        0 <= r < x.nrows(),
        0 <= k < x.ncols(),
        forall|i: int, j: int|
            0 <= i < x.nrows() && 0 <= j < x.ncols() && (i != r || j != k) ==> #[trigger] x.entry(i, j)
                == y.entry(i, j),
        x.entry(r, k) != y.entry(r, k),
        distance(x.entry(r, k) as int, y.entry(r, k) as int) > tol,
    ensures
        all_mismatches(x, y, AbsoluteElementwiseComparator { tol }) == seq![
            ElementComparisonFailure {
                x: x.entry(r, k),
                y: y.entry(r, k),
                error: AbsoluteError(distance(x.entry(r, k) as int, y.entry(r, k) as int) as u64),
                row: r as usize,
                col: k as usize,
            },
        ],
{
    let c = AbsoluteElementwiseComparator { tol };
    assert forall|i: int, j: int|
        0 <= i < x.nrows() && 0 <= j < x.ncols() && (i != r || j != k) implies (#[trigger] c.outcome(
            x.entry(i, j),
            y.entry(i, j),
        ) is None) by {
        assert(x.entry(i, j) == y.entry(i, j));
    }
    law_single_rejected_cell(x, y, c, r, k);
}

} // verus!
