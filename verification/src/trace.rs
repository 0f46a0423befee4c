//! Execution traces: 2D tables of field elements.
//!
//! A [`Trace`] is the witness for an AIR.  It has a fixed number of
//! columns (the AIR's shape) and a variable number of rows (the
//! computation length).  Stored in row-major flat layout.

use vstd::prelude::*;
use crate::air_expr::{AirExpr, Assignment};
use crate::column::{Column, ColumnCount, ColumnRef};
use crate::error::Error;
use crate::field::PrimeField;
use crate::text::decimal;

verus! {

/// A row count newtype.
#[derive(Debug, Clone, Copy, PartialEq, Eq, Structural)]
pub struct RowCount(pub usize);

impl RowCount {
    /// Create a new row count.
    pub fn new(n: usize) -> (r: Self)
        ensures
            r.0 == n,
    {
        RowCount(n)
    }

    /// The underlying count.
    pub fn count(self) -> (n: usize)
        ensures
            n == self.0,
    {
        self.0
    }

    /// Renders the count in decimal.
    pub fn to_text(self) -> (s: String)
        ensures
            s@ == decimal(self.0 as nat),
    {
        crate::text::decimal_string(self.0)
    }
}

/// Position of cell `(r, c)` in the row-major layout of a table with `cols` columns.
pub open spec fn flat_index(r: int, c: int, cols: int) -> int {
    r * cols + c
}

/// A cell of a table lies within its row-major layout, after every cell of earlier rows.
pub proof fn lemma_flat_index_bounds(r: int, c: int, rows: int, cols: int)
    requires
        0 <= r < rows,
        0 <= c < cols,
    ensures
        0 <= flat_index(r, c, cols) < rows * cols,
        r * cols <= flat_index(r, c, cols) < (r + 1) * cols,
        (r + 1) * cols <= rows * cols,
{
    assert(0 <= r * cols) by (nonlinear_arith)
        requires
            0 <= r,
            0 <= cols,
    ;
    assert((r + 1) * cols == r * cols + cols) by (nonlinear_arith);
    assert((r + 1) * cols <= rows * cols) by (nonlinear_arith)
        requires
            r + 1 <= rows,
            0 <= cols,
    ;
}

/// An execution trace: a 2D table of field elements.
///
/// Stored in row-major order: `data[row * column_count + col]`.
/// Each row has exactly `column_count` elements, and there is at
/// least one row.
#[derive(Debug)]
pub struct Trace<F: PrimeField> {
    data: Vec<F>,
    column_count: ColumnCount,
    row_count: RowCount,
}

impl<F: PrimeField> Trace<F> {
    #[verifier::type_invariant]
    spec fn well_formed(self) -> bool {
        &&& self.data@.len() == self.row_count.0 * self.column_count.0
        &&& self.row_count.0 >= 1
    }

    /// The values of the table, row after row.
    pub closed spec fn spec_data(&self) -> Seq<F> {
        self.data@
    }

    /// The number of columns.
    pub closed spec fn spec_cols(&self) -> nat {
        self.column_count.0 as nat
    }

    /// The number of rows.
    pub closed spec fn spec_rows(&self) -> nat {
        self.row_count.0 as nat
    }

    /// The value at row `r`, column `c`.
    pub open spec fn cell(&self, r: int, c: int) -> F {
        self.spec_data()[flat_index(r, c, self.spec_cols() as int)]
    }

    /// The table as a sequence of rows.
    pub open spec fn spec_rows_view(&self) -> Seq<Seq<F>> {
        Seq::new(self.spec_rows(), |r: int| Seq::new(self.spec_cols(), |c: int| self.cell(r, c)))
    }

    /// The values of column `c`, top to bottom.
    pub open spec fn spec_column(&self, c: int) -> Seq<F> {
        Seq::new(self.spec_rows(), |r: int| self.cell(r, c))
    }

    /// What `get(row, col)` gives.
    pub open spec fn spec_get(&self, row: int, col: Column) -> Result<F, Error> {
        if row < self.spec_rows() && col.0 < self.spec_cols() {
            Ok(self.cell(row, col.0 as int))
        } else {
            Err(Error::ColumnOutOfBounds { index: col.0, column_count: self.spec_cols() as usize })
        }
    }

    /// Shape facts of every trace: at least one row, and exactly
    /// `rows * cols` values.
    pub fn shape_facts(&self)
        ensures
            self.spec_rows() >= 1,
            self.spec_data().len() == self.spec_rows() * self.spec_cols(),
            self.spec_data().len() <= usize::MAX,
            self.spec_cols() <= usize::MAX,
            self.spec_rows() <= usize::MAX,
    {
        proof { use_type_invariant(self); }
        let _len = self.data.len();
    }

    /// Construct a trace from a slice of rows.
    ///
    /// Each inner vector must have exactly `column_count` elements.
    /// Fails with [`Error::EmptyTrace`] if `rows` is empty, or with
    /// [`Error::RowLengthMismatch`] for the first row of the wrong
    /// length.
    pub fn from_rows(column_count: ColumnCount, rows: &[Vec<F>]) -> (r: Result<Trace<F>, Error>)
        ensures
            rows@.len() == 0 ==> r == Err::<Trace<F>, Error>(Error::EmptyTrace),
            (r is Ok) <==> rows@.len() > 0 && forall|i: int| 0 <= i < rows@.len() ==> #[trigger] rows@[i]@.len() == column_count.0,
            r matches Ok(t) ==> {
                &&& t.spec_cols() == column_count.0
                &&& t.spec_rows() == rows@.len()
                &&& forall|i: int, j: int| 0 <= i < rows@.len() && 0 <= j < column_count.0
                        ==> #[trigger] t.cell(i, j) == rows@[i]@[j]
            },
            rows@.len() > 0 ==> (r matches Err(e) ==> (e matches Error::RowLengthMismatch { row, expected, actual } && {
                &&& row < rows@.len()
                &&& expected == column_count.0
                &&& actual == rows@[row as int]@.len()
                &&& actual != expected
                &&& forall|i: int| 0 <= i < row ==> #[trigger] rows@[i]@.len() == column_count.0
            })),
    {
        if rows.len() == 0 {
            return Err(Error::EmptyTrace);
        }
        let cols = column_count.0;
        let mut data: Vec<F> = Vec::new();
        let mut i: usize = 0;
        while i < rows.len()
            invariant
                0 <= i <= rows@.len(),
                cols == column_count.0,
                forall|k: int| 0 <= k < i ==> #[trigger] rows@[k]@.len() == cols,
                data@.len() == i * cols,
                forall|r: int, c: int| 0 <= r < i && 0 <= c < cols
                    ==> #[trigger] data@[flat_index(r, c, cols as int)] == rows@[r]@[c],
            decreases rows@.len() - i,
        {
            let row = &rows[i];
            if row.len() != cols {
                return Err(Error::RowLengthMismatch { row: i, expected: cols, actual: row.len() });
            }
            let ghost before = data@;
            let mut j: usize = 0;
            while j < cols
                invariant
                    0 <= j <= cols,
                    i < rows@.len(),
                    row@ == rows@[i as int]@,
                    row@.len() == cols,
                    data@.len() == i * cols + j,
                    data@.subrange(0, i * cols) == before,
                    forall|c: int| 0 <= c < j ==> #[trigger] data@[i * cols + c] == row@[c],
                decreases cols - j,
            {
                data.push(row[j]);
                j = j + 1;
            }
            proof {
                assert((i + 1) * cols == i * cols + cols) by (nonlinear_arith);
                assert forall|r: int, c: int| 0 <= r < i + 1 && 0 <= c < cols
                    implies #[trigger] data@[flat_index(r, c, cols as int)] == rows@[r]@[c] by {
                    lemma_flat_index_bounds(r, c, (i + 1) as int, cols as int);
                    if r < i {
                        lemma_flat_index_bounds(r, c, i as int, cols as int);
                        assert(data@[flat_index(r, c, cols as int)]
                            == data@.subrange(0, i * cols)[flat_index(r, c, cols as int)]);
                    } else {
                        assert(flat_index(r, c, cols as int) == i * cols + c);
                    }
                }
            }
            i = i + 1;
        }
        let t = Trace { data, column_count, row_count: RowCount(rows.len()) };
        proof {
            assert forall|r: int, c: int| 0 <= r < rows@.len() && 0 <= c < column_count.0
                implies #[trigger] t.cell(r, c) == rows@[r]@[c] by {
                assert(data@[flat_index(r, c, cols as int)] == rows@[r]@[c]);
            }
        }
        Ok(t)
    }

    /// The number of columns.
    pub fn column_count(&self) -> (c: ColumnCount)
        ensures
            c.0 == self.spec_cols(),
    {
        self.column_count
    }

    /// The number of rows.
    pub fn row_count(&self) -> (r: RowCount)
        ensures
            r.0 == self.spec_rows(),
    {
        self.row_count
    }

    /// Get the value at `(row, col)`; fails with
    /// [`Error::ColumnOutOfBounds`] if the row or the column is out of range.
    pub fn get(&self, row: usize, col: Column) -> (r: Result<F, Error>)
        ensures
            r == self.spec_get(row as int, col),
    {
        proof { use_type_invariant(self); }
        if row >= self.row_count.0 || col.0 >= self.column_count.0 {
            Err(Error::ColumnOutOfBounds { index: col.0, column_count: self.column_count.0 })
        } else {
            proof {
                lemma_flat_index_bounds(row as int, col.0 as int, self.row_count.0 as int, self.column_count.0 as int);
                assert(row * self.column_count.0 + col.0 < self.data.len());
            }
            Ok(self.data[row * self.column_count.0 + col.0])
        }
    }

    /// An assignment for the row pair `(row, row + 1)`: current-row
    /// references read `row`, next-row references read `row + 1`.
    ///
    /// Fails with [`Error::InsufficientRows`] if `row + 1` is not a row.
    pub fn row_pair_assignment(&self, row: usize) -> (r: Result<RowPair<'_, F>, Error>)
        ensures
            (r is Ok) <==> row + 1 < self.spec_rows(),
            r matches Ok(p) ==> p.trace == self && p.row == row,
            r matches Err(e) ==> e == (Error::InsufficientRows { row_count: self.spec_rows() as usize }),
    {
        proof { use_type_invariant(self); }
        if row >= self.row_count.0 - 1 {
            Err(Error::InsufficientRows { row_count: self.row_count.0 })
        } else {
            Ok(RowPair { trace: self, row })
        }
    }

    /// Extract all values from a single column, top to bottom; fails
    /// with [`Error::ColumnOutOfBounds`] if `col` is out of range.
    pub fn column_values(&self, col: Column) -> (r: Result<Vec<F>, Error>)
        ensures
            (r is Ok) <==> col.0 < self.spec_cols(),
            r matches Ok(v) ==> v@ == self.spec_column(col.0 as int),
            r matches Err(e) ==> e == (Error::ColumnOutOfBounds { index: col.0, column_count: self.spec_cols() as usize }),
    {
        proof { use_type_invariant(self); }
        if col.0 >= self.column_count.0 {
            return Err(Error::ColumnOutOfBounds { index: col.0, column_count: self.column_count.0 });
        }
        let rows = self.row_count.0;
        let cols = self.column_count.0;
        let mut out: Vec<F> = Vec::new();
        let mut r: usize = 0;
        while r < rows
            invariant
                0 <= r <= rows,
                rows == self.spec_rows(),
                cols == self.spec_cols(),
                col.0 < cols,
                self.data@.len() == rows * cols,
                self.spec_data() == self.data@,
                out@.len() == r,
                forall|k: int| 0 <= k < r ==> #[trigger] out@[k] == self.cell(k, col.0 as int),
            decreases rows - r,
        {
            proof {
                lemma_flat_index_bounds(r as int, col.0 as int, rows as int, cols as int);
                assert(r * cols + col.0 < self.data.len());
            }
            out.push(self.data[r * cols + col.0]);
            r = r + 1;
        }
        proof { assert(out@ =~= self.spec_column(col.0 as int)); }
        Ok(out)
    }

    /// The raw data as a flat slice (row-major order).
    pub fn data(&self) -> (d: &[F])
        ensures
            d@ == self.spec_data(),
    {
        self.data.as_slice()
    }
}

/// A trace built from rows reads them back: `get(i, j)` gives the
/// value of row `i` at column `j`, and `column_values(j)` lists column
/// `j` of the rows, for every row and column within the table.
pub proof fn lemma_trace_reads_rows<F: PrimeField>(t: &Trace<F>, cols: ColumnCount, rows: Seq<Seq<F>>)
    requires
        t.spec_cols() == cols.0,
        t.spec_rows() == rows.len(),
        forall|i: int, j: int| 0 <= i < rows.len() && 0 <= j < cols.0 ==> #[trigger] t.cell(i, j) == rows[i][j],
    ensures
        forall|i: int, j: usize| 0 <= i < rows.len() && j < cols.0 ==>
            #[trigger] t.spec_get(i, Column(j)) == Ok::<F, Error>(rows[i][j as int]),
        forall|j: int| 0 <= j < cols.0 ==>
            #[trigger] t.spec_column(j) == Seq::new(rows.len(), |i: int| rows[i][j]),
{
    assert forall|j: int| 0 <= j < cols.0 implies
        #[trigger] t.spec_column(j) == Seq::new(rows.len(), |i: int| rows[i][j]) by {
        assert(t.spec_column(j) =~= Seq::new(rows.len(), |i: int| rows[i][j]));
    }
}

/// Two traces of the same shape whose tables have the same rows hold
/// the same values, in the same order.
pub proof fn lemma_rows_determine_data<F: PrimeField>(a: &Trace<F>, b: &Trace<F>)
    requires
        a.spec_data().len() == a.spec_rows() * a.spec_cols(),
        b.spec_data().len() == b.spec_rows() * b.spec_cols(),
        a.spec_cols() == b.spec_cols(),
        a.spec_rows() == b.spec_rows(),
        a.spec_rows_view() == b.spec_rows_view(),
    ensures
        a.spec_data() == b.spec_data(),
{
    let cols = a.spec_cols() as int;
    let rows = a.spec_rows() as int;
    assert forall|k: int| 0 <= k < a.spec_data().len() implies a.spec_data()[k] == b.spec_data()[k] by {
        assert(cols > 0) by (nonlinear_arith)
            requires
                0 <= k < rows * cols,
                rows >= 0,
                cols >= 0,
        ;
        let r = k / cols;
        let c = k % cols;
        vstd::arithmetic::div_mod::lemma_fundamental_div_mod(k, cols);
        vstd::arithmetic::div_mod::lemma_mod_pos_bound(k, cols);
        assert(r < rows) by (nonlinear_arith)
            requires
                k == cols * r + c,
                0 <= c,
                k < rows * cols,
                cols > 0,
        ;
        assert(0 <= r) by (nonlinear_arith)
            requires
                k == cols * r + c,
                c < cols,
                0 <= k,
                cols > 0,
        ;
        assert(flat_index(r, c, cols) == k) by (nonlinear_arith)
            requires
                k == cols * r + c,
        ;
        assert(0 <= c < cols);
        assert(a.spec_rows_view()[r] == Seq::new(a.spec_cols(), |j: int| a.cell(r, j)));
        assert(b.spec_rows_view()[r] == Seq::new(b.spec_cols(), |j: int| b.cell(r, j)));
        assert(a.spec_rows_view()[r][c] == a.cell(r, c));
        assert(b.spec_rows_view()[r][c] == b.cell(r, c));
    }
    assert(a.spec_data() =~= b.spec_data());
}

/// What the row pair `(row, row + 1)` of a table of `cols` columns
/// (given as its rows) assigns to `cr`: the value, or
/// [`Error::ColumnOutOfBounds`] where the row or the column is out of range.
pub open spec fn table_lookup<F>(view: Seq<Seq<F>>, cols: nat, row: int, cr: ColumnRef) -> Result<F, Error> {
    let r = match cr {
        ColumnRef::Current(_) => row,
        ColumnRef::Next(_) => row + 1,
    };
    let c = cr.spec_column();
    if 0 <= r < view.len() && c.0 < cols {
        Ok(view[r][c.0 as int])
    } else {
        Err(Error::ColumnOutOfBounds { index: c.0, column_count: cols as usize })
    }
}

/// The assignment of the row pair `(row, row + 1)` of a table.
pub open spec fn pair_lookup<F>(view: Seq<Seq<F>>, cols: nat, row: int) -> spec_fn(ColumnRef) -> Result<F, Error> {
    |cr: ColumnRef| table_lookup(view, cols, row, cr)
}

/// Evaluating under a trace's row-pair assignment is evaluating under
/// the row pair of the trace's table.
pub proof fn lemma_row_pair_eval<F: PrimeField>(t: &Trace<F>, row: usize, e: AirExpr<F>)
    ensures
        e.eval(&RowPair { trace: t, row }) == e.eval_with(pair_lookup(t.spec_rows_view(), t.spec_cols(), row as int)),
{
    let p = RowPair { trace: t, row };
    assert((|cr: ColumnRef| p.spec_value(cr)) =~= pair_lookup(t.spec_rows_view(), t.spec_cols(), row as int));
}

impl<F: PrimeField> Clone for Trace<F> {
    fn clone(&self) -> (r: Self)
        ensures
            r.spec_data() == self.spec_data(),
            r.spec_cols() == self.spec_cols(),
            r.spec_rows() == self.spec_rows(),
    {
        proof { use_type_invariant(self); }
        let mut data: Vec<F> = Vec::new();
        let mut i: usize = 0;
        while i < self.data.len()
            invariant
                i <= self.data@.len(),
                data@ == self.data@.subrange(0, i as int),
            decreases self.data@.len() - i,
        {
            data.push(self.data[i]);
            i = i + 1;
        }
        proof { assert(self.data@.subrange(0, self.data@.len() as int) =~= self.data@); }
        Trace { data, column_count: self.column_count, row_count: self.row_count }
    }
}

/// The assignment of a trace's row pair `(row, row + 1)`.
pub struct RowPair<'a, F: PrimeField> {
    /// The trace read from.
    pub trace: &'a Trace<F>,
    /// The current row; `row + 1` is the next row.
    pub row: usize,
}

impl<'a, F: PrimeField> Assignment<F> for RowPair<'a, F> {
    open spec fn spec_value(&self, cr: ColumnRef) -> Result<F, Error> {
        match cr {
            ColumnRef::Current(c) => self.trace.spec_get(self.row as int, c),
            ColumnRef::Next(c) => self.trace.spec_get(self.row + 1, c),
        }
    }

    fn value(&self, cr: ColumnRef) -> (r: Result<F, Error>) {
        match cr {
            ColumnRef::Current(c) => self.trace.get(self.row, c),
            ColumnRef::Next(c) => {
                if self.row == usize::MAX {
                    self.trace.shape_facts();
                    Err(Error::ColumnOutOfBounds { index: c.0, column_count: self.trace.column_count.0 })
                } else {
                    self.trace.get(self.row + 1, c)
                }
            },
        }
    }
}

} // verus!
