//! The Air trait: the core abstraction for algebraic intermediate representations.
//!
//! An [`Air`] defines a set of columns and transition constraints
//! that must hold at every consecutive row pair of an execution trace.

use vstd::prelude::*;
use crate::air_expr::AirExpr;
use crate::column::ColumnCount;
use crate::error::Error;
use crate::field::PrimeField;
use crate::trace::{RowPair, Trace};

verus! {

/// Whether every constraint evaluates to zero at every consecutive
/// row pair `(row, row + 1)` of the trace.
pub open spec fn satisfies_all<F: PrimeField>(constraints: Seq<AirExpr<F>>, trace: &Trace<F>) -> bool {
    forall|row: int, k: int|
        0 <= row < trace.spec_rows() - 1 && 0 <= k < constraints.len()
            ==> #[trigger] constraints[k].eval(&RowPair { trace, row: row as usize })
                == Ok::<nat, Error>(0)
}

/// An Algebraic Intermediate Representation.
///
/// Defines the **columns** (trace width) and **transition constraints**
/// (polynomial expressions that must be zero at every consecutive
/// row pair) for a provable computation, and generates the execution
/// trace from an input.
///
/// Each `Air` can be read as a morphism in a category whose objects
/// are trace shapes ([`ColumnCount`]); parallel composition of
/// independent AIRs is the tensor product (column concatenation).
pub trait Air<F: PrimeField> {
    /// The type of input this AIR computes over.
    type Input;

    /// The number of columns of this AIR's traces.
    spec fn spec_column_count(&self) -> nat;

    /// The transition constraints.
    spec fn spec_constraints(&self) -> Seq<AirExpr<F>>;

    /// The number of columns in this AIR's trace.
    fn column_count(&self) -> (c: ColumnCount)
        ensures
            c.0 == self.spec_column_count(),
    ;

    /// The transition constraints.
    ///
    /// Each [`AirExpr`] must evaluate to zero for every consecutive
    /// row pair `(row[i], row[i+1])` in a valid trace.
    fn constraints(&self) -> (v: Vec<AirExpr<F>>)
        ensures
            v@ == self.spec_constraints(),
    ;

    /// Generate the execution trace from an input.
    ///
    /// The returned trace has [`column_count()`](Air::column_count)
    /// columns.  The number of rows is determined by the input.
    fn generate_trace(&self, input: &Self::Input) -> (r: Result<Trace<F>, Error>)
        ensures
            r matches Ok(t) ==> t.spec_cols() == self.spec_column_count(),
    ;
}

} // verus!
