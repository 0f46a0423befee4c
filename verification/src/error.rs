//! Project-wide error type.

use vstd::prelude::*;
use crate::text::{decimal, push_decimal, push_decimal_succ};

verus! {

/// All errors that can arise in machine-cat.
#[derive(Debug)]
pub enum Error {
    /// An error propagated from proof-cat.
    ProofCat(proof_cat::Error),
    /// An error propagated from plonkish-cat.
    Plonkish(plonkish_cat::Error),
    /// An error propagated from field-cat (field arithmetic or byte encoding).
    FieldCat(field_cat::Error),
    /// Column index out of bounds.
    ColumnOutOfBounds {
        /// The column index that was accessed.
        index: usize,
        /// The total number of columns.
        column_count: usize,
    },
    /// Trace has zero rows.
    EmptyTrace,
    /// Trace column count does not match the AIR's column count.
    ColumnCountMismatch {
        /// The expected column count (from the AIR).
        expected: usize,
        /// The actual column count (from the trace).
        actual: usize,
    },
    /// Trace row count is not a power of two.
    TraceNotPowerOfTwo {
        /// The row count.
        row_count: usize,
    },
    /// An AIR constraint was not satisfied at a row pair.
    UnsatisfiedAirConstraint {
        /// The row index of the failing pair.
        row: usize,
    },
    /// AIR has no constraints.
    NoConstraints,
    /// Trace has fewer than 2 rows.
    InsufficientRows {
        /// The row count.
        row_count: usize,
    },
    /// Row length does not match column count.
    RowLengthMismatch {
        /// The row index.
        row: usize,
        /// The expected length.
        expected: usize,
        /// The actual length.
        actual: usize,
    },
}

/// Wraps an error of proof-cat-core in proof-cat's error
/// (proof-cat's `From<proof_cat_core::Error>`, which builds the
/// `ProofCatCore` variant around it).
#[verifier::external_body]
pub(crate) fn core_error_into_proof_cat(e: proof_cat_core::Error) -> (r: proof_cat::Error) {
    proof_cat::Error::from(e)
}

/// The text that proof-cat's `Display` gives its error.
#[verifier::external_body]
fn proof_cat_error_text(e: &proof_cat::Error) -> String {
    e.to_string()
}

/// The text that plonkish-cat's `Display` gives its error.
#[verifier::external_body]
fn plonkish_error_text(e: &plonkish_cat::Error) -> String {
    e.to_string()
}

/// The text that field-cat's `Display` gives its error.
#[verifier::external_body]
fn field_cat_error_text(e: &field_cat::Error) -> String {
    e.to_string()
}

impl Error {
    /// The text that describes an error of this crate's own kinds;
    /// for an error passed on from another crate, the prefix that
    /// comes before that crate's own description of it.
    pub open spec fn spec_text(&self) -> Seq<char> {
        match self {
            Error::ProofCat(_) => "proof-cat error: "@,
            Error::Plonkish(_) => "plonkish-cat error: "@,
            Error::FieldCat(_) => "field-cat error: "@,
            Error::ColumnOutOfBounds { index, column_count } =>
                "column index "@ + decimal(*index as nat) + " out of bounds (column count: "@
                    + decimal(*column_count as nat) + ")"@,
            Error::EmptyTrace => "trace has zero rows"@,
            Error::ColumnCountMismatch { expected, actual } =>
                "column count mismatch: expected "@ + decimal(*expected as nat) + ", got "@
                    + decimal(*actual as nat),
            Error::TraceNotPowerOfTwo { row_count } =>
                "trace row count "@ + decimal(*row_count as nat) + " is not a power of two"@,
            Error::UnsatisfiedAirConstraint { row } =>
                "AIR constraint not satisfied at row pair ("@ + decimal(*row as nat) + ", "@
                    + decimal(*row as nat + 1) + ")"@,
            Error::NoConstraints => "AIR has no constraints"@,
            Error::InsufficientRows { row_count } =>
                "trace has "@ + decimal(*row_count as nat) + " rows, need at least 2"@,
            Error::RowLengthMismatch { row, expected, actual } =>
                "row "@ + decimal(*row as nat) + " has "@ + decimal(*actual as nat)
                    + " elements, expected "@ + decimal(*expected as nat),
        }
    }

    /// Whether the error was passed on from another crate.
    pub open spec fn is_outside(&self) -> bool {
        self is ProofCat || self is Plonkish || self is FieldCat
    }

    /// A human-readable description of the error.
    ///
    /// For an error of this crate's own kinds the text is exactly
    /// [`spec_text`](Error::spec_text); for an error passed on from
    /// another crate it is that prefix followed by the other crate's
    /// own description.
    pub fn to_text(&self) -> (s: String)
        ensures
            !self.is_outside() ==> s@ == self.spec_text(),
            self.is_outside() ==> self.spec_text().is_prefix_of(s@),
    {
        match self {
            Error::ProofCat(e) => {
                let t = proof_cat_error_text(e);
                prefixed("proof-cat error: ", t)
            },
            Error::Plonkish(e) => {
                let t = plonkish_error_text(e);
                prefixed("plonkish-cat error: ", t)
            },
            Error::FieldCat(e) => {
                let t = field_cat_error_text(e);
                prefixed("field-cat error: ", t)
            },
            Error::ColumnOutOfBounds { index, column_count } => {
                let mut s = String::from_str("column index ");
                push_decimal(&mut s, *index);
                s.append(" out of bounds (column count: ");
                push_decimal(&mut s, *column_count);
                s.append(")");
                s
            },
            Error::EmptyTrace => String::from_str("trace has zero rows"),
            Error::ColumnCountMismatch { expected, actual } => {
                let mut s = String::from_str("column count mismatch: expected ");
                push_decimal(&mut s, *expected);
                s.append(", got ");
                push_decimal(&mut s, *actual);
                s
            },
            Error::TraceNotPowerOfTwo { row_count } => {
                let mut s = String::from_str("trace row count ");
                push_decimal(&mut s, *row_count);
                s.append(" is not a power of two");
                s
            },
            Error::UnsatisfiedAirConstraint { row } => {
                let mut s = String::from_str("AIR constraint not satisfied at row pair (");
                push_decimal(&mut s, *row);
                s.append(", ");
                push_decimal_succ(&mut s, *row);
                s.append(")");
                s
            },
            Error::NoConstraints => String::from_str("AIR has no constraints"),
            Error::InsufficientRows { row_count } => {
                let mut s = String::from_str("trace has ");
                push_decimal(&mut s, *row_count);
                s.append(" rows, need at least 2");
                s
            },
            Error::RowLengthMismatch { row, expected, actual } => {
                let mut s = String::from_str("row ");
                push_decimal(&mut s, *row);
                s.append(" has ");
                push_decimal(&mut s, *actual);
                s.append(" elements, expected ");
                push_decimal(&mut s, *expected);
                s
            },
        }
    }
}

impl From<proof_cat::Error> for Error {
    fn from(e: proof_cat::Error) -> (r: Self) {
        Error::ProofCat(e)
    }
}

impl vstd::std_specs::convert::FromSpecImpl<proof_cat::Error> for Error {
    open spec fn obeys_from_spec() -> bool {
        true
    }

    open spec fn from_spec(e: proof_cat::Error) -> Self {
        Error::ProofCat(e)
    }
}

impl From<plonkish_cat::Error> for Error {
    fn from(e: plonkish_cat::Error) -> (r: Self) {
        Error::Plonkish(e)
    }
}

impl vstd::std_specs::convert::FromSpecImpl<plonkish_cat::Error> for Error {
    open spec fn obeys_from_spec() -> bool {
        true
    }

    open spec fn from_spec(e: plonkish_cat::Error) -> Self {
        Error::Plonkish(e)
    }
}

impl From<field_cat::Error> for Error {
    fn from(e: field_cat::Error) -> (r: Self) {
        Error::FieldCat(e)
    }
}

impl vstd::std_specs::convert::FromSpecImpl<field_cat::Error> for Error {
    open spec fn obeys_from_spec() -> bool {
        true
    }

    open spec fn from_spec(e: field_cat::Error) -> Self {
        Error::FieldCat(e)
    }
}

/// `prefix` followed by `rest`.
fn prefixed(prefix: &str, rest: String) -> (s: String)
    ensures
        s@ == prefix@ + rest@,
        prefix@.is_prefix_of(s@),
{
    let mut s = String::from_str(prefix);
    s.append(rest.as_str());
    proof { assert(s@.subrange(0, prefix@.len() as int) =~= prefix@); }
    s
}

} // verus!
