//! Trace<F>-to-sumcheck bridge: proving AIR constraint satisfaction.
//!
//! Converts an AIR's transition constraints over an execution trace
//! into a sumcheck claim and delegates to proof-cat-core for the proof.
//!
//! [`air_prove`] produces an [`AirProof<F>`]; [`air_verify`] checks it.
//! The protocol opens all trace values (it is not zero-knowledge).

use vstd::prelude::*;
use vstd::string::StringSliceAdditionalSpecFns;
use crate::air::{Air, satisfies_all};
use crate::air_expr::AirExpr;
use crate::column::{Column, ColumnCount};
use crate::error::Error;
use crate::field::{PrimeField, add_mod, mul_mod};
use crate::trace::{Trace, RowPair, pair_lookup, lemma_row_pair_eval};
use crate::pow2::{next_pow2, is_pow2, log2, lemma_next_pow2, lemma_pow2_double_below, lemma_next_pow2_least};
use crate::primitives::{
    values_of, all_zero, all_zero_rounds, rounds_of, RoundPoly, usize_le_bytes,
    merkle_root, merkle_root_to_bytes, merkle_open, merkle_proof_depth,
    merkle_tree_nodes, merkle_tree_leaf_count, merkle_root_bytes, merkle_proof_siblings, merkle_leaf_hash,
    merkle_commitment_root,
    merkle_path_root, transcript_new, transcript_absorb, transcript_state,
    transcript_digest, usize_to_le_bytes, sumcheck_prover_rounds,
    sumcheck_verdict, multilinear_value, merkle_verification_failed,
};
use crate::pow2::{pow2, pow2_checked, log2_exec};
use proof_cat_core::commit::merkle::{MerkleProof, MerkleRoot, MerkleTree};
use proof_cat_core::transcript::Transcript;

verus! {

/// Domain separation label for the AIR proof transcript.
pub const TRANSCRIPT_LABEL: &'static str = "machine-cat-v0.1";

// ── Proof types ──────────────────────────────────────────────

/// An opened column: all values in a column with their Merkle proofs.
#[derive(Debug, Clone)]
pub struct ColumnOpening<F> {
    /// The column index.
    pub column_index: usize,
    /// The opened values (one per row).
    pub values: Vec<F>,
    /// The Merkle proofs (one per value).
    pub merkle_proofs: Vec<MerkleProof>,
}

impl<F> ColumnOpening<F> {
    /// The column index.
    pub fn column_index(&self) -> (i: usize)
        ensures
            i == self.column_index,
    {
        self.column_index
    }

    /// The opened values (one per row).
    pub fn values(&self) -> (v: &[F])
        ensures
            v@ == self.values@,
    {
        self.values.as_slice()
    }

    /// The Merkle proofs (one per value).
    pub fn merkle_proofs(&self) -> (p: &[MerkleProof])
        ensures
            p@ == self.merkle_proofs@,
    {
        self.merkle_proofs.as_slice()
    }
}

/// A proof that an AIR's constraints hold over a given trace.
#[derive(Debug, Clone)]
pub struct AirProof<F> {
    /// The Merkle root committing to the trace (row-major).
    pub trace_commitment: MerkleRoot,
    /// The sumcheck proof: its round polynomials.
    pub sumcheck: Vec<RoundPoly<F>>,
    /// The opened column values with Merkle proofs.
    pub column_openings: Vec<ColumnOpening<F>>,
    /// The trace row count.
    pub row_count: usize,
}

impl<F> AirProof<F> {
    /// The Merkle root committing to the trace.
    pub fn trace_commitment(&self) -> (r: &MerkleRoot)
        ensures
            *r == self.trace_commitment,
    {
        &self.trace_commitment
    }

    /// The sumcheck proof's round polynomials.
    pub fn sumcheck(&self) -> (s: &[RoundPoly<F>])
        ensures
            s@ == self.sumcheck@,
    {
        self.sumcheck.as_slice()
    }

    /// The opened column values with Merkle proofs.
    pub fn column_openings(&self) -> (o: &[ColumnOpening<F>])
        ensures
            o@ == self.column_openings@,
    {
        self.column_openings.as_slice()
    }

    /// The trace row count.
    pub fn row_count(&self) -> (n: usize)
        ensures
            n == self.row_count,
    {
        self.row_count
    }
}

// ── Trace<F> shape ──────────────────────────────────────────────

/// The shape check of a trace against an AIR of `air_cols` columns:
/// the column counts must agree and there must be at least two rows.
pub open spec fn check_shape(air_cols: nat, cols: nat, rows: nat) -> Result<(), Error> {
    if cols != air_cols {
        Err(Error::ColumnCountMismatch { expected: air_cols as usize, actual: cols as usize })
    } else if rows < 2 {
        Err(Error::InsufficientRows { row_count: rows as usize })
    } else {
        Ok(())
    }
}

/// The shape check passes exactly when the trace has the AIR's column
/// count and at least two rows (one row pair), whatever that column
/// count is; a column mismatch is reported first, then too few rows.
pub proof fn lemma_shape_check(air_cols: nat, cols: nat, rows: nat)
    ensures
        (check_shape(air_cols, cols, rows) is Ok) <==> (cols == air_cols && rows >= 2),
        cols != air_cols ==> check_shape(air_cols, cols, rows)
            == Err::<(), Error>(Error::ColumnCountMismatch { expected: air_cols as usize, actual: cols as usize }),
        cols == air_cols && rows < 2 ==> check_shape(air_cols, cols, rows)
            == Err::<(), Error>(Error::InsufficientRows { row_count: rows as usize }),
{
}

/// [`air_prove`] succeeds on a trace exactly when the trace has the
/// AIR's column count and at least two rows, the AIR has a constraint,
/// and every constraint vanishes at every row pair of the trace.
pub proof fn lemma_prove_succeeds_iff<F: PrimeField, A: Air<F>>(air: &A, t: &Trace<F>)
    requires
        1 <= t.spec_rows() <= usize::MAX,
    ensures
        ({
            let cs = air.spec_constraints();
            (check_shape(air.spec_column_count(), t.spec_cols(), t.spec_rows()) is Ok && cs.len() > 0
                && check_constraints(cs, t.spec_rows_view(), t.spec_cols()) is Ok)
            <==> (t.spec_cols() == air.spec_column_count() && t.spec_rows() >= 2 && cs.len() > 0
                && satisfies_all(cs, t))
        }),
{
    lemma_shape_check(air.spec_column_count(), t.spec_cols(), t.spec_rows());
    lemma_check_iff_satisfied(air.spec_constraints(), t);
}

/// Validate that the trace matches the AIR's column count and has enough rows.
fn validate_trace<F: PrimeField, A: Air<F>>(air: &A, trace: &Trace<F>) -> (r: Result<(), Error>)
    ensures
        r == check_shape(air.spec_column_count(), trace.spec_cols(), trace.spec_rows()),
{
    let air_cols = air.column_count();
    let cols = trace.column_count();
    if cols.0 != air_cols.0 {
        Err(Error::ColumnCountMismatch { expected: air_cols.0, actual: cols.0 })
    } else if trace.row_count().count() < 2 {
        Err(Error::InsufficientRows { row_count: trace.row_count().count() })
    } else {
        Ok(())
    }
}


// ── Constraint checking ──────────────────────────────────────

/// Checking the constraints of the row pair `(row, row + 1)` of a
/// table, from constraint `k` on: the first evaluation error, or
/// [`Error::UnsatisfiedAirConstraint`] at the first constraint that
/// does not vanish.
pub open spec fn check_row<F: PrimeField>(cs: Seq<AirExpr<F>>, view: Seq<Seq<F>>, cols: nat, row: int, k: int) -> Result<(), Error>
    decreases cs.len() - k,
{
    if k < 0 || k >= cs.len() {
        Ok(())
    } else {
        match cs[k].eval_with(pair_lookup(view, cols, row)) {
            Err(e) => Err(e),
            Ok(v) => if v == 0 {
                check_row(cs, view, cols, row, k + 1)
            } else {
                Err(Error::UnsatisfiedAirConstraint { row: row as usize })
            },
        }
    }
}

/// Checking the first `n` row pairs of a table, in order.
pub open spec fn check_pairs<F: PrimeField>(cs: Seq<AirExpr<F>>, view: Seq<Seq<F>>, cols: nat, n: nat) -> Result<(), Error>
    decreases n,
{
    if n == 0 {
        Ok(())
    } else {
        match check_pairs(cs, view, cols, (n - 1) as nat) {
            Err(e) => Err(e),
            Ok(_) => check_row(cs, view, cols, n - 1, 0),
        }
    }
}

/// The number of row pairs of a table of `rows` rows.
pub open spec fn pair_count(rows: nat) -> nat {
    if rows == 0 { 0 } else { (rows - 1) as nat }
}

/// Checking every row pair of a table.
pub open spec fn check_constraints<F: PrimeField>(cs: Seq<AirExpr<F>>, view: Seq<Seq<F>>, cols: nat) -> Result<(), Error> {
    check_pairs(cs, view, cols, pair_count(view.len()))
}

/// A row passes from constraint `k` on exactly when every later constraint vanishes on it.
proof fn lemma_check_row_ok<F: PrimeField>(cs: Seq<AirExpr<F>>, view: Seq<Seq<F>>, cols: nat, row: int, k: int)
    requires
        0 <= k,
    ensures
        check_row(cs, view, cols, row, k) is Ok <==> forall|j: int| k <= j < cs.len()
            ==> #[trigger] cs[j].eval_with(pair_lookup(view, cols, row)) == Ok::<nat, Error>(0),
    decreases cs.len() - k,
{
    if k < cs.len() {
        lemma_check_row_ok(cs, view, cols, row, k + 1);
    }
}

/// The first `n` row pairs pass exactly when every constraint vanishes on each of them.
proof fn lemma_check_pairs_ok<F: PrimeField>(cs: Seq<AirExpr<F>>, view: Seq<Seq<F>>, cols: nat, n: nat)
    ensures
        check_pairs(cs, view, cols, n) is Ok <==> forall|row: int, j: int| 0 <= row < n && 0 <= j < cs.len()
            ==> #[trigger] cs[j].eval_with(pair_lookup(view, cols, row)) == Ok::<nat, Error>(0),
    decreases n,
{
    if n > 0 {
        lemma_check_pairs_ok(cs, view, cols, (n - 1) as nat);
        lemma_check_row_ok(cs, view, cols, n - 1, 0);
        if check_pairs(cs, view, cols, n) is Ok {
            assert forall|row: int, j: int| 0 <= row < n && 0 <= j < cs.len()
                implies #[trigger] cs[j].eval_with(pair_lookup(view, cols, row)) == Ok::<nat, Error>(0) by {
                if row < n - 1 {
                } else {
                }
            }
        }
    }
}

/// Once checking fails, it fails with the same error over any longer prefix.
proof fn lemma_check_pairs_err<F: PrimeField>(cs: Seq<AirExpr<F>>, view: Seq<Seq<F>>, cols: nat, n: nat, m: nat)
    requires
        n <= m,
        check_pairs(cs, view, cols, n) is Err,
    ensures
        check_pairs(cs, view, cols, m) == check_pairs(cs, view, cols, n),
    decreases m - n,
{
    if n < m {
        lemma_check_pairs_err(cs, view, cols, n, (m - 1) as nat);
    }
}

/// The constraints pass on a trace exactly when they vanish at every row pair.
pub proof fn lemma_check_iff_satisfied<F: PrimeField>(cs: Seq<AirExpr<F>>, t: &Trace<F>)
    requires
        1 <= t.spec_rows() <= usize::MAX,
    ensures
        check_constraints(cs, t.spec_rows_view(), t.spec_cols()) is Ok <==> satisfies_all(cs, t),
{
    let view = t.spec_rows_view();
    let cols = t.spec_cols();
    lemma_check_pairs_ok(cs, view, cols, pair_count(view.len()));
    assert(pair_count(view.len()) == t.spec_rows() - 1);
    if check_constraints(cs, view, cols) is Ok {
        assert forall|row: int, k: int| 0 <= row < t.spec_rows() - 1 && 0 <= k < cs.len()
            implies #[trigger] cs[k].eval(&RowPair { trace: t, row: row as usize }) == Ok::<nat, Error>(0) by {
            lemma_row_pair_eval(t, row as usize, cs[k]);
            assert(cs[k].eval_with(pair_lookup(view, cols, row)) == Ok::<nat, Error>(0));
        }
    }
    if satisfies_all(cs, t) {
        assert forall|row: int, j: int| 0 <= row < pair_count(view.len()) && 0 <= j < cs.len()
            implies #[trigger] cs[j].eval_with(pair_lookup(view, cols, row)) == Ok::<nat, Error>(0) by {
            lemma_row_pair_eval(t, row as usize, cs[j]);
            assert(cs[j].eval(&RowPair { trace: t, row: row as usize }) == Ok::<nat, Error>(0));
        }
    }
}

/// Validate that all constraints hold at every row pair; fails with the
/// first evaluation error or unsatisfied constraint, row by row.
fn validate_constraints<F: PrimeField>(constraints: &Vec<AirExpr<F>>, trace: &Trace<F>) -> (r: Result<(), Error>)
    ensures
        r == check_constraints(constraints@, trace.spec_rows_view(), trace.spec_cols()),
{
    trace.shape_facts();
    let ghost cs = constraints@;
    let ghost view = trace.spec_rows_view();
    let ghost cols = trace.spec_cols();
    let rows = trace.row_count().count();
    let mut row: usize = 0;
    while row < rows - 1
        invariant
            rows == trace.spec_rows(),
            rows >= 1,
            row <= rows - 1,
            cs == constraints@,
            view == trace.spec_rows_view(),
            cols == trace.spec_cols(),
            check_pairs(cs, view, cols, row as nat) == Ok::<(), Error>(()),
        decreases rows - 1 - row,
    {
        let assign = match trace.row_pair_assignment(row) {
            Ok(a) => a,
            Err(e) => { return Err(e); },
        };
        let mut k: usize = 0;
        while k < constraints.len()
            invariant
                k <= constraints@.len(),
                cs == constraints@,
                assign.trace == trace,
                assign.row == row,
                row < rows - 1,
                rows == trace.spec_rows(),
                view == trace.spec_rows_view(),
                cols == trace.spec_cols(),
                check_pairs(cs, view, cols, row as nat) == Ok::<(), Error>(()),
                check_row(cs, view, cols, row as int, 0) == check_row(cs, view, cols, row as int, k as int),
            decreases constraints@.len() - k,
        {
            proof { lemma_row_pair_eval(trace, row, cs[k as int]); }
            match constraints[k].evaluate(&assign) {
                Err(e) => {
                    proof {
                        assert(check_pairs(cs, view, cols, (row + 1) as nat) == Err::<(), Error>(e));
                        lemma_check_pairs_err(cs, view, cols, (row + 1) as nat, (rows - 1) as nat);
                    }
                    return Err(e);
                },
                Ok(v) => {
                    if !v.is_zero() {
                        proof {
                            lemma_check_pairs_err(cs, view, cols, (row + 1) as nat, (rows - 1) as nat);
                        }
                        return Err(Error::UnsatisfiedAirConstraint { row });
                    }
                },
            }
            k = k + 1;
        }
        proof {
            assert(check_pairs(cs, view, cols, (row + 1) as nat) == check_row(cs, view, cols, row as int, 0));
        }
        row = row + 1;
    }
    proof {
        assert(view.len() == rows);
        assert(pair_count(view.len()) == row);
    }
    Ok(())
}

// ── Combining constraints ────────────────────────────────────

/// The random linear combination `acc + sum_j alphas[j] * P_j` of the
/// constraint values at the row pair `(row, row + 1)`, over the
/// constraints from `k` on that have a coefficient: the first
/// evaluation error, or the combined value.
pub open spec fn combine_row<F: PrimeField>(cs: Seq<AirExpr<F>>, alphas: Seq<nat>, view: Seq<Seq<F>>, cols: nat, row: int, k: int, acc: nat)
    -> Result<nat, Error>
    decreases cs.len() - k,
{
    if k < 0 || k >= cs.len() || k >= alphas.len() {
        Ok(acc)
    } else {
        match cs[k].eval_with(pair_lookup(view, cols, row)) {
            Err(e) => Err(e),
            Ok(v) => combine_row(cs, alphas, view, cols, row, k + 1,
                add_mod(F::modulus(), acc, mul_mod(F::modulus(), alphas[k], v))),
        }
    }
}

/// The combined values of the first `n` row pairs, or the first error.
pub open spec fn combine_pairs<F: PrimeField>(cs: Seq<AirExpr<F>>, alphas: Seq<nat>, view: Seq<Seq<F>>, cols: nat, n: nat)
    -> Result<Seq<nat>, Error>
    decreases n,
{
    if n == 0 {
        Ok(seq![])
    } else {
        match combine_pairs(cs, alphas, view, cols, (n - 1) as nat) {
            Err(e) => Err(e),
            Ok(s) => match combine_row(cs, alphas, view, cols, n - 1, 0, 0) {
                Err(e) => Err(e),
                Ok(v) => Ok(s.push(v)),
            },
        }
    }
}

/// The combined values of every row pair of a table.
pub open spec fn combined_evals<F: PrimeField>(cs: Seq<AirExpr<F>>, alphas: Seq<nat>, view: Seq<Seq<F>>, cols: nat) -> Result<Seq<nat>, Error> {
    combine_pairs(cs, alphas, view, cols, pair_count(view.len()))
}

/// Once combining fails, it fails with the same error over any longer prefix.
proof fn lemma_combine_pairs_err<F: PrimeField>(cs: Seq<AirExpr<F>>, alphas: Seq<nat>, view: Seq<Seq<F>>, cols: nat, n: nat, m: nat)
    requires
        n <= m,
        combine_pairs(cs, alphas, view, cols, n) is Err,
    ensures
        combine_pairs(cs, alphas, view, cols, m) == combine_pairs(cs, alphas, view, cols, n),
    decreases m - n,
{
    if n < m {
        lemma_combine_pairs_err(cs, alphas, view, cols, n, (m - 1) as nat);
    }
}

/// Combining `n` row pairs gives `n` values.
proof fn lemma_combine_pairs_len<F: PrimeField>(cs: Seq<AirExpr<F>>, alphas: Seq<nat>, view: Seq<Seq<F>>, cols: nat, n: nat)
    ensures
        combine_pairs(cs, alphas, view, cols, n) is Ok ==> combine_pairs(cs, alphas, view, cols, n)->Ok_0.len() == n,
    decreases n,
{
    if n > 0 {
        lemma_combine_pairs_len(cs, alphas, view, cols, (n - 1) as nat);
    }
}

/// Where every constraint vanishes at a row pair, its combination is zero.
proof fn lemma_combine_row_zero<F: PrimeField>(cs: Seq<AirExpr<F>>, alphas: Seq<nat>, view: Seq<Seq<F>>, cols: nat, row: int, k: int)
    requires
        0 <= k,
        check_row(cs, view, cols, row, k) is Ok,
    ensures
        combine_row(cs, alphas, view, cols, row, k, 0) == Ok::<nat, Error>(0),
    decreases cs.len() - k,
{
    if k < cs.len() && k < alphas.len() {
        F::lemma_modulus();
        crate::field::lemma_add_scaled_zero(F::modulus(), 0, alphas[k]);
        lemma_combine_row_zero(cs, alphas, view, cols, row, k + 1);
    } else if k < cs.len() {
    }
}

/// Where the first `n` row pairs pass, their combined values are all zero.
proof fn lemma_combine_pairs_zero<F: PrimeField>(cs: Seq<AirExpr<F>>, alphas: Seq<nat>, view: Seq<Seq<F>>, cols: nat, n: nat)
    requires
        check_pairs(cs, view, cols, n) is Ok,
    ensures
        combine_pairs(cs, alphas, view, cols, n) == Ok::<Seq<nat>, Error>(Seq::new(n, |i: int| 0nat)),
    decreases n,
{
    if n > 0 {
        lemma_combine_pairs_zero(cs, alphas, view, cols, (n - 1) as nat);
        lemma_combine_row_zero(cs, alphas, view, cols, n - 1, 0);
        assert(Seq::new((n - 1) as nat, |i: int| 0nat).push(0nat) =~= Seq::new(n, |i: int| 0nat));
    } else {
        assert(Seq::new(0, |i: int| 0nat) =~= Seq::<nat>::empty());
    }
}

/// On a table whose constraints pass, every combined value is zero.
pub proof fn lemma_satisfied_combines_to_zero<F: PrimeField>(cs: Seq<AirExpr<F>>, alphas: Seq<nat>, view: Seq<Seq<F>>, cols: nat)
    requires
        check_constraints(cs, view, cols) is Ok,
    ensures
        combined_evals(cs, alphas, view, cols) is Ok,
        all_zero(combined_evals(cs, alphas, view, cols)->Ok_0),
        combined_evals(cs, alphas, view, cols)->Ok_0.len() == pair_count(view.len()),
{
    lemma_combine_pairs_zero(cs, alphas, view, cols, pair_count(view.len()));
}

/// Compute the random linear combination of the constraint values at
/// each row pair `(i, i + 1)`: `sum_j alphas[j] * P_j(row_i, row_{i+1})`.
fn compute_combined_evals<F: PrimeField>(constraints: &Vec<AirExpr<F>>, alphas: &Vec<F>, trace: &Trace<F>) -> (r: Result<Vec<F>, Error>)
    ensures
        r matches Ok(v) ==> combined_evals(constraints@, values_of(alphas@), trace.spec_rows_view(), trace.spec_cols())
            == Ok::<Seq<nat>, Error>(values_of(v@)),
        r matches Err(e) ==> combined_evals(constraints@, values_of(alphas@), trace.spec_rows_view(), trace.spec_cols())
            == Err::<Seq<nat>, Error>(e),
{
    trace.shape_facts();
    let ghost cs = constraints@;
    let ghost al = values_of(alphas@);
    let ghost view = trace.spec_rows_view();
    let ghost cols = trace.spec_cols();
    let rows = trace.row_count().count();
    let mut out: Vec<F> = Vec::new();
    proof { assert(values_of(out@) =~= Seq::<nat>::empty()); }
    let mut row: usize = 0;
    while row < rows - 1
        invariant
            rows == trace.spec_rows(),
            rows >= 1,
            row <= rows - 1,
            cs == constraints@,
            al == values_of(alphas@),
            view == trace.spec_rows_view(),
            cols == trace.spec_cols(),
            combine_pairs(cs, al, view, cols, row as nat) == Ok::<Seq<nat>, Error>(values_of(out@)),
        decreases rows - 1 - row,
    {
        let assign = match trace.row_pair_assignment(row) {
            Ok(a) => a,
            Err(e) => { return Err(e); },
        };
        let mut acc = F::zero();
        let mut k: usize = 0;
        while k < constraints.len() && k < alphas.len()
            invariant
                k <= constraints@.len(),
                k <= alphas@.len(),
                cs == constraints@,
                al == values_of(alphas@),
                assign.trace == trace,
                assign.row == row,
                row < rows - 1,
                rows == trace.spec_rows(),
                view == trace.spec_rows_view(),
                cols == trace.spec_cols(),
                combine_pairs(cs, al, view, cols, row as nat) == Ok::<Seq<nat>, Error>(values_of(out@)),
                combine_row(cs, al, view, cols, row as int, 0, 0)
                    == combine_row(cs, al, view, cols, row as int, k as int, acc.val()),
            decreases constraints@.len() - k,
        {
            proof { lemma_row_pair_eval(trace, row, cs[k as int]); }
            match constraints[k].evaluate(&assign) {
                Err(e) => {
                    proof {
                        lemma_combine_pairs_err(cs, al, view, cols, (row + 1) as nat, (rows - 1) as nat);
                    }
                    return Err(e);
                },
                Ok(v) => {
                    acc = acc.plus(alphas[k].times(v));
                },
            }
            k = k + 1;
        }
        proof {
            assert(values_of(out@.push(acc)) =~= values_of(out@).push(acc.val()));
        }
        out.push(acc);
        row = row + 1;
    }
    proof {
        assert(view.len() == rows);
        assert(pair_count(view.len()) == row);
    }
    Ok(out)
}

// ── Padding ──────────────────────────────────────────────────

/// `v` followed by zeros up to the next power of two of its length.
pub open spec fn padded(v: Seq<nat>) -> Seq<nat> {
    v + Seq::new((next_pow2(v.len()) - v.len()) as nat, |i: int| 0nat)
}

/// Next power of two `>= n` (minimum 1).
pub fn pad_to_power_of_two_len(n: usize) -> (r: usize)
    requires
        next_pow2(n as nat) <= usize::MAX,
    ensures
        r == next_pow2(n as nat),
{
    if n <= 1 {
        return 1;
    }
    let mut p: usize = 1;
    proof { lemma_next_pow2(n as nat); }
    while p < n
        invariant
            is_pow2(p as nat),
            p >= 1,
            p <= next_pow2(n as nat),
            next_pow2(n as nat) <= usize::MAX,
            is_pow2(next_pow2(n as nat)),
            n <= next_pow2(n as nat),
            forall|q: nat| is_pow2(q) && q >= n ==> p <= q,
        decreases next_pow2(n as nat) - p,
    {
        proof {
            lemma_pow2_double_below(p as nat, next_pow2(n as nat), n as nat);
        }
        p = p * 2;
    }
    proof { lemma_next_pow2_least(n as nat, p as nat); }
    p
}

/// Pad a vector to the next power of two of its length with zeros.
fn pad_to_power_of_two<F: PrimeField>(v: Vec<F>) -> (r: Vec<F>)
    requires
        next_pow2(v@.len()) <= usize::MAX,
    ensures
        values_of(r@) == padded(values_of(v@)),
        r@.len() == next_pow2(v@.len()),
{
    let target = pad_to_power_of_two_len(v.len());
    proof { lemma_next_pow2(v@.len()); }
    let ghost orig = v@;
    let mut out = v;
    while out.len() < target
        invariant
            orig.len() <= out@.len() <= target,
            target == next_pow2(orig.len()),
            out@.subrange(0, orig.len() as int) == orig,
            forall|i: int| orig.len() <= i < out@.len() ==> (#[trigger] out@[i]).val() == 0,
        decreases target - out@.len(),
    {
        out.push(F::zero());
    }
    proof {
        assert(values_of(out@) =~= padded(values_of(orig)));
    }
    out
}

// ── Challenges ───────────────────────────────────────────────

/// The `k` challenges squeezed one after another from a transcript in
/// state `state`, and the state after them.
pub open spec fn squeezed<F: PrimeField>(state: Seq<u8>, k: nat) -> (Seq<nat>, Seq<u8>)
    decreases k,
{
    if k == 0 {
        (seq![], state)
    } else {
        let prev = squeezed::<F>(state, (k - 1) as nat);
        let d = transcript_digest(prev.1);
        (prev.0.push(F::decoding(d)), prev.1 + d)
    }
}

/// Squeeze `count` challenges from the transcript.
fn squeeze_challenges<F: PrimeField>(count: usize, transcript: Transcript) -> (r: Result<(Vec<F>, Transcript), Error>)
    ensures
        r is Ok,
        r matches Ok((alphas, t)) ==> values_of(alphas@) == squeezed::<F>(transcript_state(transcript), count as nat).0
            && transcript_state(t) == squeezed::<F>(transcript_state(transcript), count as nat).1,
{
    let ghost start = transcript_state(transcript);
    let mut alphas: Vec<F> = Vec::new();
    let mut t = transcript;
    let mut i: usize = 0;
    while i < count
        invariant
            i <= count,
            values_of(alphas@) == squeezed::<F>(start, i as nat).0,
            transcript_state(t) == squeezed::<F>(start, i as nat).1,
        decreases count - i,
    {
        match F::squeeze(t) {
            Ok((c, t2)) => {
                proof { assert(values_of(alphas@.push(c)) =~= values_of(alphas@).push(c.val())); }
                alphas.push(c);
                t = t2;
            },
            Err(e) => {
                return Err(Error::ProofCat(crate::error::core_error_into_proof_cat(e)));
            },
        }
        i = i + 1;
    }
    Ok((alphas, t))
}

// ── Commitment openings ──────────────────────────────────────

/// Whether the Merkle opening `proof` of the value `value` at position
/// `flat` of a committed vector leads back to the root `root`.
pub open spec fn opening_leads_to<F: PrimeField>(root: Seq<u8>, flat: nat, value: F, proof: MerkleProof) -> bool {
    merkle_path_root(
        merkle_leaf_hash(usize_le_bytes(flat), F::encoding(value.val())),
        flat,
        merkle_proof_siblings(proof),
    ) == root
}

/// The byte encodings of a sequence of field elements.
pub open spec fn encodings<F: PrimeField>(data: Seq<F>) -> Seq<Seq<u8>> {
    data.map_values(|x: F| F::encoding(x.val()))
}

/// Whether a tree commits to `data`: the tree was built from the
/// values of `data` as `merkle_commit` builds it.
pub open spec fn commits_to<F: PrimeField>(tree: MerkleTree, data: Seq<F>) -> bool {
    &&& merkle_tree_nodes(tree)[1] == merkle_commitment_root(encodings(data))
    &&& merkle_tree_leaf_count(tree) == data.len()
    &&& merkle_tree_nodes(tree).len() == 2 * next_pow2(data.len())
    &&& forall|i: int| 0 <= i < data.len() ==>
        #[trigger] merkle_tree_nodes(tree)[next_pow2(data.len()) + i]
            == merkle_leaf_hash(usize_le_bytes(i as nat), F::encoding(data[i].val()))
}

/// Whether `openings` open every column of the trace `t` against a
/// commitment with root `root` and `depth` levels: one opening per
/// column, in order, each holding the column's values and one opening
/// per row leading back to the root.
pub open spec fn opens_trace<F: PrimeField>(openings: Seq<ColumnOpening<F>>, t: &Trace<F>, root: Seq<u8>, depth: nat) -> bool {
    &&& openings.len() == t.spec_cols()
    &&& forall|c: int| 0 <= c < openings.len() ==> {
        &&& (#[trigger] openings[c]).column_index == c
        &&& openings[c].values@ == t.spec_column(c)
        &&& openings[c].merkle_proofs@.len() == t.spec_rows()
    }
    &&& forall|c: int, r: int| 0 <= c < openings.len() && 0 <= r < t.spec_rows() ==> {
        &&& opening_leads_to(root, (r * t.spec_cols() + c) as nat, t.cell(r, c),
                #[trigger] openings[c].merkle_proofs@[r])
        &&& merkle_proof_siblings(openings[c].merkle_proofs@[r]).len() == depth
    }
}

/// Open all columns from the Merkle tree that commits to the trace.
fn open_all_columns<F: PrimeField, A: Air<F>>(air: &A, trace: &Trace<F>, tree: &MerkleTree) -> (r: Result<Vec<ColumnOpening<F>>, Error>)
    requires
        trace.spec_cols() == air.spec_column_count(),
        commits_to(*tree, trace.spec_data()),
    ensures
        r is Ok,
        r matches Ok(v) ==> opens_trace(v@, trace, merkle_tree_nodes(*tree)[1], log2(next_pow2(trace.spec_data().len()))),
{
    trace.shape_facts();
    let cols = air.column_count().count();
    let rows = trace.row_count().count();
    let ghost data = trace.spec_data();
    let ghost n = next_pow2(data.len());
    let ghost root = merkle_tree_nodes(*tree)[1];
    let ghost depth = log2(n);
    proof { lemma_next_pow2(data.len()); }
    let mut out: Vec<ColumnOpening<F>> = Vec::new();
    let mut c: usize = 0;
    while c < cols
        invariant
            c <= cols,
            cols == trace.spec_cols(),
            rows == trace.spec_rows(),
            data == trace.spec_data(),
            data.len() == rows * cols,
            data.len() <= usize::MAX,
            n == next_pow2(data.len()),
            n >= 1,
            root == merkle_tree_nodes(*tree)[1],
            depth == log2(n),
            commits_to(*tree, data),
            out@.len() == c,
            forall|j: int| 0 <= j < c ==> {
                &&& (#[trigger] out@[j]).column_index == j
                &&& out@[j].values@ == trace.spec_column(j)
                &&& out@[j].merkle_proofs@.len() == rows
            },
            forall|j: int, k: int| 0 <= j < c && 0 <= k < rows ==> {
                &&& opening_leads_to(root, (k * cols + j) as nat, trace.cell(k, j), #[trigger] out@[j].merkle_proofs@[k])
                &&& merkle_proof_siblings(out@[j].merkle_proofs@[k]).len() == depth
            },
        decreases cols - c,
    {
        let values = match trace.column_values(Column::new(c)) {
            Ok(v) => v,
            Err(e) => { return Err(e); },
        };
        let mut proofs: Vec<MerkleProof> = Vec::new();
        let mut row: usize = 0;
        while row < rows
            invariant
                row <= rows,
                c < cols,
                cols == trace.spec_cols(),
                rows == trace.spec_rows(),
                data == trace.spec_data(),
                data.len() == rows * cols,
                data.len() <= usize::MAX,
                n == next_pow2(data.len()),
                n >= 1,
                root == merkle_tree_nodes(*tree)[1],
                depth == log2(n),
                commits_to(*tree, data),
                proofs@.len() == row,
                forall|k: int| 0 <= k < row ==> {
                    &&& opening_leads_to(root, (k * cols + c) as nat, trace.cell(k, c as int), #[trigger] proofs@[k])
                    &&& merkle_proof_siblings(proofs@[k]).len() == depth
                },
            decreases rows - row,
        {
            proof {
                crate::trace::lemma_flat_index_bounds(row as int, c as int, rows as int, cols as int);
            }
            let flat = row * cols + c;
            match merkle_open(tree, flat) {
                Ok(p) => {
                    proof {
                        assert(merkle_tree_nodes(*tree).len() / 2 == n);
                        assert(merkle_tree_nodes(*tree)[n + flat]
                            == merkle_leaf_hash(usize_le_bytes(flat as nat), F::encoding(data[flat as int].val())));
                        assert(trace.cell(row as int, c as int) == data[flat as int]);
                    }
                    proofs.push(p);
                },
                Err(e) => {
                    return Err(Error::ProofCat(crate::error::core_error_into_proof_cat(e)));
                },
            }
            row = row + 1;
        }
        let opening = ColumnOpening { column_index: c, values, merkle_proofs: proofs };
        out.push(opening);
        c = c + 1;
    }
    Ok(out)
}

// ── Prove ────────────────────────────────────────────────────

/// The transcript state after absorbing the label, the trace
/// commitment's root, the column count and the constraint count.
pub open spec fn opening_state(root: Seq<u8>, cols: nat, k: nat) -> Seq<u8> {
    TRANSCRIPT_LABEL.spec_bytes() + root + usize_le_bytes(cols) + usize_le_bytes(k)
}

/// Whether `p` is the proof that [`air_prove`] gives for the trace `t`
/// of an AIR with constraints `cs`: its commitment is the root of the
/// Merkle tree over the trace's values, row after row; it records the
/// row count, opens
/// every column against its commitment root, and its sumcheck rounds
/// are the prover's rounds for the (all-zero) padded combination of
/// the constraints, one round per variable.
pub open spec fn proves<F: PrimeField>(cs: Seq<AirExpr<F>>, t: &Trace<F>, p: AirProof<F>) -> bool {
    let rows = t.spec_rows();
    let cols = t.spec_cols();
    let root = merkle_root_bytes(p.trace_commitment);
    let width = next_pow2(pair_count(rows));
    &&& root == merkle_commitment_root(encodings(t.spec_data()))
    &&& p.row_count == rows
    &&& opens_trace(p.column_openings@, t, root, log2(next_pow2(rows * cols)))
    &&& rounds_of(p.sumcheck@) == sumcheck_prover_rounds(
            F::modulus(),
            Seq::new(width, |i: int| 0nat),
            squeezed::<F>(opening_state(root, cols, cs.len()), cs.len()).1,
        )
    &&& rounds_of(p.sumcheck@).len() == log2(width)
    &&& all_zero_rounds(rounds_of(p.sumcheck@))
}

/// Prove that a trace satisfies an AIR's constraints.
///
/// 1. Validate the trace dimensions and constraint satisfaction.
/// 2. Commit the trace (all values, row-major) to a Merkle tree.
/// 3. Squeeze one challenge per constraint from the transcript.
/// 4. Combine the constraint values at each row pair with them.
/// 5. Pad to a power of two and run sumcheck (claim: sum = 0).
/// 6. Open all trace column values with Merkle proofs.
///
/// Fails with the first failing check: the trace's shape, then
/// [`Error::NoConstraints`], then the first row pair at which a
/// constraint fails; it succeeds on every valid trace, and the proof
/// it gives is honest, so [`air_verify`] accepts it.  (The padded
/// number of row pairs, and the node count of the commitment tree,
/// must fit in a `usize`.)
pub fn air_prove<F: PrimeField, A: Air<F>>(air: &A, trace: &Trace<F>) -> (r: Result<AirProof<F>, Error>)
    requires
        next_pow2(pair_count(trace.spec_rows())) <= usize::MAX,
        2 * next_pow2(trace.spec_rows() * trace.spec_cols()) <= usize::MAX,
    ensures
        ({
            let cs = air.spec_constraints();
            let shape = check_shape(air.spec_column_count(), trace.spec_cols(), trace.spec_rows());
            let checked = check_constraints(cs, trace.spec_rows_view(), trace.spec_cols());
            &&& (r is Ok) <==> (shape is Ok && cs.len() > 0 && checked is Ok)
            &&& shape is Err ==> r == Err::<AirProof<F>, Error>(shape->Err_0)
            &&& shape is Ok && cs.len() == 0 ==> r == Err::<AirProof<F>, Error>(Error::NoConstraints)
            &&& shape is Ok && cs.len() > 0 && checked is Err ==> r == Err::<AirProof<F>, Error>(checked->Err_0)
            &&& r is Ok ==> proves(cs, trace, r->Ok_0)
            &&& r is Ok ==> honest_proof(cs, air.spec_column_count(), r->Ok_0)
        }),
{
    trace.shape_facts();
    match validate_trace(air, trace) {
        Ok(()) => {},
        Err(e) => { return Err(e); },
    }
    let constraints = air.constraints();
    if constraints.len() == 0 {
        return Err(Error::NoConstraints);
    }
    match validate_constraints(&constraints, trace) {
        Ok(()) => {},
        Err(e) => { return Err(e); },
    }
    let ghost cs = constraints@;
    let ghost rows = trace.spec_rows();
    let ghost cols = trace.spec_cols();

    // Commit the trace.
    let tree = F::merkle_commit(trace.data());
    let root = merkle_root(&tree);
    let root_bytes = merkle_root_to_bytes(&root);
    proof {
        lemma_next_pow2(trace.spec_data().len());
        assert(trace.spec_data().map_values(|x: F| F::encoding(x.val())) =~= encodings(trace.spec_data()));
    }

    // Initialize the transcript.
    let t = transcript_new(TRANSCRIPT_LABEL.as_bytes());
    let t = transcript_absorb(t, root_bytes.as_slice());
    let cols_bytes = usize_to_le_bytes(air.column_count().count());
    let t = transcript_absorb(t, cols_bytes.as_slice());
    let count_bytes = usize_to_le_bytes(constraints.len());
    let t = transcript_absorb(t, count_bytes.as_slice());
    proof {
        assert(transcript_state(t) == opening_state(merkle_root_bytes(root), cols, cs.len()));
    }

    // Combination challenges, one per constraint.
    let (alphas, t) = match squeeze_challenges(constraints.len(), t) {
        Ok(x) => x,
        Err(e) => { return Err(e); },
    };

    // Combined constraint values at each row pair.
    proof {
        lemma_satisfied_combines_to_zero(cs, values_of(alphas@), trace.spec_rows_view(), cols);
        assert(trace.spec_rows_view().len() == rows);
    }
    let combined = match compute_combined_evals(&constraints, &alphas, trace) {
        Ok(v) => v,
        Err(e) => { return Err(e); },
    };
    let padded = pad_to_power_of_two(combined);
    proof {
        let width = next_pow2(pair_count(rows));
        assert(values_of(padded@) =~= Seq::new(width, |i: int| 0nat));
        lemma_next_pow2(pair_count(rows));
    }

    // Sumcheck over the padded combination (claim: sum = 0).
    let sumcheck = match F::sumcheck_prove(padded, F::zero(), t) {
        Ok(s) => s,
        Err(e) => { return Err(Error::ProofCat(crate::error::core_error_into_proof_cat(e))); },
    };

    // Open all columns.
    let column_openings = match open_all_columns(air, trace, &tree) {
        Ok(o) => o,
        Err(e) => { return Err(e); },
    };
    let p = AirProof {
        trace_commitment: root,
        sumcheck,
        column_openings,
        row_count: trace.row_count().count(),
    };
    proof {
        lemma_next_pow2(rows * cols);
        lemma_proof_of_valid_trace_is_honest(cs, trace, p);
    }
    Ok(p)
}

// ── Verify helpers ───────────────────────────────────────────

/// Whether the opening of row `row` of the `c`-th column opening of
/// `p` verifies: the opening has a Merkle proof for that row, its
/// position `row * columns + column_index` (with `columns` the number
/// of openings) and that position plus `2^depth` fit in a `usize`, and
/// the opened value leads back to the commitment.
pub open spec fn opening_row_verifies<F: PrimeField>(p: AirProof<F>, c: int, row: int) -> bool {
    let o = p.column_openings@[c];
    let flat = row * p.column_openings@.len() + o.column_index;
    let proof = o.merkle_proofs@[row];
    &&& row < o.merkle_proofs@.len()
    &&& flat + pow2(merkle_proof_siblings(proof).len()) <= usize::MAX
    &&& opening_leads_to(merkle_root_bytes(p.trace_commitment), flat as nat, o.values@[row], proof)
}

/// Whether every opened value of `p` verifies against its commitment.
pub open spec fn openings_verify<F: PrimeField>(p: AirProof<F>) -> bool {
    forall|c: int, row: int| 0 <= c < p.column_openings@.len() && 0 <= row < p.column_openings@[c].values@.len()
        ==> #[trigger] opening_row_verifies(p, c, row)
}

/// Verify all Merkle openings in the proof.  A value without a Merkle
/// proof, or whose position does not fit in a `usize`, does not verify.
fn verify_merkle_openings<F: PrimeField>(proof: &AirProof<F>) -> (ok: bool)
    ensures
        ok == openings_verify(*proof),
{
    let cols = proof.column_openings.len();
    let mut c: usize = 0;
    while c < cols
        invariant
            c <= cols,
            cols == proof.column_openings@.len(),
            forall|j: int, row: int| 0 <= j < c && 0 <= row < proof.column_openings@[j].values@.len()
                ==> #[trigger] opening_row_verifies(*proof, j, row),
        decreases cols - c,
    {
        let opening = &proof.column_openings[c];
        let mut row: usize = 0;
        while row < opening.values.len()
            invariant
                c < cols,
                cols == proof.column_openings@.len(),
                *opening == proof.column_openings@[c as int],
                row <= opening.values@.len(),
                forall|j: int, r: int| 0 <= j < c && 0 <= r < proof.column_openings@[j].values@.len()
                    ==> #[trigger] opening_row_verifies(*proof, j, r),
                forall|r: int| 0 <= r < row ==> #[trigger] opening_row_verifies(*proof, c as int, r),
            decreases opening.values@.len() - row,
        {
            if row >= opening.merkle_proofs.len() {
                proof { assert(!opening_row_verifies(*proof, c as int, row as int)); }
                return false;
            }
            let mp = &opening.merkle_proofs[row];
            let depth = merkle_proof_depth(mp);
            let fits = match row.checked_mul(cols) {
                Some(base) => match base.checked_add(opening.column_index) {
                    Some(flat) => match pow2_checked(depth) {
                        Some(span) => match flat.checked_add(span) {
                            Some(_) => Some(flat),
                            None => None,
                        },
                        None => None,
                    },
                    None => None,
                },
                None => None,
            };
            let ghost spec_flat = row * proof.column_openings@.len() + opening.column_index;
            match fits {
                Some(flat) => {
                    proof { assert(flat == spec_flat); }
                    if !F::merkle_verify(&proof.trace_commitment, flat, opening.values[row], mp) {
                        proof { assert(!opening_row_verifies(*proof, c as int, row as int)); }
                        return false;
                    }
                },
                None => {
                    proof {
                        assert(row * cols >= 0) by (nonlinear_arith)
                            requires row >= 0, cols >= 0;
                        assert(!opening_row_verifies(*proof, c as int, row as int));
                    }
                    return false;
                },
            }
            row = row + 1;
        }
        c = c + 1;
    }
    true
}

/// The value at row `r`, column `c` of the table that the openings of
/// `p` give: the `r`-th value of the `c`-th opening, if there is one.
pub open spec fn opened_cell<F: PrimeField>(p: AirProof<F>, r: int, c: int) -> Option<F> {
    if 0 <= c < p.column_openings@.len() && 0 <= r < p.column_openings@[c].values@.len() {
        Some(p.column_openings@[c].values@[r])
    } else {
        None
    }
}

/// Row `r` of the opened table, from column `c` on, after `acc`: the
/// row, or [`Error::ColumnOutOfBounds`] at its first missing value.
pub open spec fn opened_row<F: PrimeField>(p: AirProof<F>, cols: nat, r: int, c: int, acc: Seq<F>) -> Result<Seq<F>, Error>
    decreases cols - c,
{
    if c < 0 || c >= cols {
        Ok(acc)
    } else {
        match opened_cell(p, r, c) {
            None => Err(Error::ColumnOutOfBounds { index: c as usize, column_count: cols as usize }),
            Some(v) => opened_row(p, cols, r, c + 1, acc.push(v)),
        }
    }
}

/// The first `n` rows of the opened table, or the first missing value.
pub open spec fn opened_rows<F: PrimeField>(p: AirProof<F>, cols: nat, n: nat) -> Result<Seq<Seq<F>>, Error>
    decreases n,
{
    if n == 0 {
        Ok(seq![])
    } else {
        match opened_rows(p, cols, (n - 1) as nat) {
            Err(e) => Err(e),
            Ok(rows) => match opened_row(p, cols, n - 1, 0, seq![]) {
                Err(e) => Err(e),
                Ok(row) => Ok(rows.push(row)),
            },
        }
    }
}

/// A row read from column `c` on has `cols` values, the opened ones.
proof fn lemma_opened_row<F: PrimeField>(p: AirProof<F>, cols: nat, r: int, c: int, acc: Seq<F>)
    requires
        0 <= c <= cols,
        acc.len() == c,
    ensures
        opened_row(p, cols, r, c, acc) matches Ok(row) ==> row.len() == cols
            && row.subrange(0, c) == acc
            && forall|j: int| c <= j < cols ==> opened_cell(p, r, j) == Some(#[trigger] row[j]),
    decreases cols - c,
{
    if c < cols {
        if let Some(v) = opened_cell(p, r, c) {
            lemma_opened_row(p, cols, r, c + 1, acc.push(v));
            if let Ok(row) = opened_row(p, cols, r, c, acc) {
                assert(row.subrange(0, c + 1) == acc.push(v));
                assert(row.subrange(0, c + 1)[c] == row[c]);
                assert(acc.push(v)[c] == v);
                assert(row.subrange(0, c) =~= row.subrange(0, c + 1).subrange(0, c));
            }
        }
    } else {
        assert(acc.subrange(0, c) =~= acc);
    }
}

/// Once reading the rows fails, it fails with the same error over more rows.
proof fn lemma_opened_rows_err<F: PrimeField>(p: AirProof<F>, cols: nat, n: nat, m: nat)
    requires
        n <= m,
        opened_rows(p, cols, n) is Err,
    ensures
        opened_rows(p, cols, m) == opened_rows(p, cols, n),
    decreases m - n,
{
    if n < m {
        lemma_opened_rows_err(p, cols, n, (m - 1) as nat);
    }
}

/// The first `n` opened rows, where they are all there: `n` rows of
/// `cols` values each, the opened values.
proof fn lemma_opened_rows_ok<F: PrimeField>(p: AirProof<F>, cols: nat, n: nat)
    ensures
        opened_rows(p, cols, n) matches Ok(rows) ==> rows.len() == n
            && (forall|i: int| 0 <= i < n ==> (#[trigger] rows[i]).len() == cols)
            && forall|i: int, j: int| 0 <= i < n && 0 <= j < cols ==>
                opened_cell(p, i, j) == Some(#[trigger] rows[i][j]),
    decreases n,
{
    if n > 0 {
        lemma_opened_rows_ok(p, cols, (n - 1) as nat);
        lemma_opened_row(p, cols, n - 1, 0, seq![]);
    }
}

/// Where every value of a row is opened, reading it succeeds.
proof fn lemma_opened_row_complete<F: PrimeField>(p: AirProof<F>, cols: nat, r: int, c: int, acc: Seq<F>)
    requires
        0 <= c <= cols,
        forall|j: int| c <= j < cols ==> (#[trigger] opened_cell(p, r, j)) is Some,
    ensures
        opened_row(p, cols, r, c, acc) is Ok,
    decreases cols - c,
{
    if c < cols {
        lemma_opened_row_complete(p, cols, r, c + 1, acc.push(opened_cell(p, r, c)->Some_0));
    }
}

/// Where every value of the first `n` rows is opened, reading them succeeds.
proof fn lemma_opened_rows_complete<F: PrimeField>(p: AirProof<F>, cols: nat, n: nat)
    requires
        forall|i: int, j: int| 0 <= i < n && 0 <= j < cols ==> (#[trigger] opened_cell(p, i, j)) is Some,
    ensures
        opened_rows(p, cols, n) is Ok,
    decreases n,
{
    if n > 0 {
        lemma_opened_rows_complete(p, cols, (n - 1) as nat);
        lemma_opened_row_complete(p, cols, n - 1, 0, seq![]);
    }
}

/// Reconstruct a trace from the opened column values: `row_count`
/// rows of the AIR's column count, read from the openings.
fn reconstruct_trace<F: PrimeField, A: Air<F>>(air: &A, proof: &AirProof<F>) -> (r: Result<Trace<F>, Error>)
    ensures
        ({
            let cols = air.spec_column_count();
            let opened = opened_rows(*proof, cols, proof.row_count as nat);
            &&& opened is Err ==> r == Err::<Trace<F>, Error>(opened->Err_0)
            &&& opened is Ok && proof.row_count == 0 ==> r == Err::<Trace<F>, Error>(Error::EmptyTrace)
            &&& opened is Ok && proof.row_count > 0 ==> (r is Ok && r->Ok_0.spec_cols() == cols
                && r->Ok_0.spec_rows() == proof.row_count && r->Ok_0.spec_rows_view() == opened->Ok_0)
        }),
{
    let column_count = air.column_count();
    let cols = column_count.count();
    let rows = proof.row_count;
    let ghost p = *proof;
    let mut row_vecs: Vec<Vec<F>> = Vec::new();
    let mut r: usize = 0;
    while r < rows
        invariant
            r <= rows,
            rows == proof.row_count,
            cols == air.spec_column_count(),
            p == *proof,
            opened_rows(p, cols as nat, r as nat) is Ok,
            opened_rows(p, cols as nat, r as nat)->Ok_0 == row_vecs@.map_values(|v: Vec<F>| v@),
        decreases rows - r,
    {
        let mut row: Vec<F> = Vec::new();
        let mut c: usize = 0;
        while c < cols
            invariant
                c <= cols,
                r < rows,
                rows == proof.row_count,
                cols == air.spec_column_count(),
                p == *proof,
                opened_rows(p, cols as nat, r as nat) is Ok,
                opened_row(p, cols as nat, r as int, 0, seq![]) == opened_row(p, cols as nat, r as int, c as int, row@),
            decreases cols - c,
        {
            let cell = if c < proof.column_openings.len() && r < proof.column_openings[c].values.len() {
                Some(proof.column_openings[c].values[r])
            } else {
                None
            };
            match cell {
                Some(v) => { row.push(v); },
                None => {
                    proof {
                        lemma_opened_rows_err(p, cols as nat, (r + 1) as nat, rows as nat);
                    }
                    return Err(Error::ColumnOutOfBounds { index: c, column_count: cols });
                },
            }
            c = c + 1;
        }
        proof {
            assert(row_vecs@.push(row).map_values(|v: Vec<F>| v@)
                =~= row_vecs@.map_values(|v: Vec<F>| v@).push(row@));
        }
        row_vecs.push(row);
        r = r + 1;
    }
    proof {
        lemma_opened_rows_ok(p, cols as nat, rows as nat);
    }
    let result = Trace::from_rows(column_count, row_vecs.as_slice());
    proof {
        if rows > 0 {
            let opened = opened_rows(p, cols as nat, rows as nat)->Ok_0;
            assert forall|i: int| 0 <= i < row_vecs@.len() implies #[trigger] row_vecs@[i]@.len() == cols by {
                assert(opened[i] == row_vecs@[i]@);
                if cols > 0 {
                    assert(opened[i].len() == cols);
                } else {
                    assert(opened[i] == opened_row(p, 0, i, 0, seq![])->Ok_0);
                }
            }
            if result is Ok {
                let t = result->Ok_0;
                assert forall|i: int| 0 <= i < opened.len() implies #[trigger] t.spec_rows_view()[i] =~= opened[i] by {
                    assert(opened[i] == row_vecs@[i]@);
                    assert forall|j: int| 0 <= j < cols implies t.spec_rows_view()[i][j] == opened[i][j] by {
                        assert(t.cell(i, j) == row_vecs@[i]@[j]);
                    }
                }
                assert(t.spec_rows_view() =~= opened);
            }
        }
    }
    result
}

// ── Verify ───────────────────────────────────────────────────

/// What [`air_verify`] concludes for the proof `p` of an AIR with
/// constraints `cs` and `cols` columns: `None` where proof-cat-core
/// rejects (the sumcheck or a Merkle opening), else its result.
///
/// The transcript is replayed as the prover builds it; the sumcheck is
/// checked over `log2` of the padded number of row pairs; the openings
/// are checked against the commitment; the opened table is then
/// re-combined and the multilinear extension of its padding, at the
/// sumcheck's challenges, must equal the sumcheck's final claim.
pub open spec fn verify_outcome<F: PrimeField>(cs: Seq<AirExpr<F>>, cols: nat, p: AirProof<F>) -> Option<Result<bool, Error>> {
    let k = cs.len();
    if k == 0 {
        Some(Err(Error::NoConstraints))
    } else {
        let sq = squeezed::<F>(opening_state(merkle_root_bytes(p.trace_commitment), cols, k), k);
        let num_vars = log2(next_pow2(pair_count(p.row_count as nat)));
        match sumcheck_verdict(F::modulus(), rounds_of(p.sumcheck@), 0, num_vars, sq.1) {
            None => None,
            Some(verdict) => if !openings_verify(p) {
                None
            } else {
                match opened_rows(p, cols, p.row_count as nat) {
                    Err(e) => Some(Err(e)),
                    Ok(view) => if p.row_count == 0 {
                        Some(Err(Error::EmptyTrace))
                    } else {
                        match combined_evals(cs, sq.0, view, cols) {
                            Err(e) => Some(Err(e)),
                            Ok(ev) => Some(Ok(multilinear_value(F::modulus(), padded(ev), verdict.1) == verdict.0)),
                        }
                    },
                }
            },
        }
    }
}

/// Whether `p` is an honest proof for constraints `cs` over `cols`
/// columns: its sumcheck rounds are all zero, one per variable of the
/// padded row pairs; every opening verifies; the openings give a full
/// table of at least one row; and the constraints pass on that table.
pub open spec fn honest_proof<F: PrimeField>(cs: Seq<AirExpr<F>>, cols: nat, p: AirProof<F>) -> bool {
    let rounds = rounds_of(p.sumcheck@);
    let opened = opened_rows(p, cols, p.row_count as nat);
    &&& all_zero_rounds(rounds)
    &&& rounds.len() == log2(next_pow2(pair_count(p.row_count as nat)))
    &&& openings_verify(p)
    &&& p.row_count > 0
    &&& opened is Ok
    &&& check_constraints(cs, opened->Ok_0, cols) is Ok
}

/// Every proof that [`air_prove`] gives for a trace on which the
/// constraints pass is honest, and so [`air_verify`] accepts it
/// (provided the commitment's positions, plus its leaf capacity, fit
/// in a `usize`).
pub proof fn lemma_proof_of_valid_trace_is_honest<F: PrimeField>(cs: Seq<AirExpr<F>>, t: &Trace<F>, p: AirProof<F>)
    requires
        proves(cs, t, p),
        check_constraints(cs, t.spec_rows_view(), t.spec_cols()) is Ok,
        t.spec_rows() >= 1,
        next_pow2(t.spec_rows() * t.spec_cols()) + t.spec_rows() * t.spec_cols() <= usize::MAX,
    ensures
        honest_proof(cs, t.spec_cols(), p),
{
    lemma_proof_opens_trace(cs, t, p);
}

/// The openings of every proof that [`air_prove`] gives for a trace
/// carry a Merkle proof for each value, all of them verify against the
/// commitment, and read row by row they give back the trace's table
/// (provided the commitment's positions, plus its leaf capacity, fit
/// in a `usize`).
pub proof fn lemma_proof_opens_trace<F: PrimeField>(cs: Seq<AirExpr<F>>, t: &Trace<F>, p: AirProof<F>)
    requires
        proves(cs, t, p),
        t.spec_rows() >= 1,
        next_pow2(t.spec_rows() * t.spec_cols()) + t.spec_rows() * t.spec_cols() <= usize::MAX,
    ensures
        openings_verify(p),
        forall|c: int| 0 <= c < p.column_openings@.len()
            ==> (#[trigger] p.column_openings@[c]).merkle_proofs@.len() == p.column_openings@[c].values@.len(),
        opened_rows(p, t.spec_cols(), p.row_count as nat) == Ok::<Seq<Seq<F>>, Error>(t.spec_rows_view()),
{
    let rows = t.spec_rows();
    let cols = t.spec_cols();
    let len = rows * cols;
    let root = merkle_root_bytes(p.trace_commitment);
    let depth = log2(next_pow2(len));
    lemma_next_pow2(len);
    assert forall|c: int, row: int| 0 <= c < p.column_openings@.len() && 0 <= row < p.column_openings@[c].values@.len()
        implies #[trigger] opening_row_verifies(p, c, row) by {
        let o = p.column_openings@[c];
        assert(o.column_index == c);
        assert(o.values@ == t.spec_column(c));
        assert(0 <= row < rows);
        crate::trace::lemma_flat_index_bounds(row, c, rows as int, cols as int);
        assert(opening_leads_to(root, (row * cols + c) as nat, t.cell(row, c), o.merkle_proofs@[row]));
        assert(merkle_proof_siblings(o.merkle_proofs@[row]).len() == depth);
        assert(o.values@[row] == t.cell(row, c));
    }
    assert forall|i: int, j: int| 0 <= i < rows && 0 <= j < cols implies (#[trigger] opened_cell(p, i, j)) is Some by {
        assert(p.column_openings@[j].values@ == t.spec_column(j));
    }
    lemma_opened_rows_complete(p, cols, rows);
    lemma_opened_rows_ok(p, cols, rows);
    let opened = opened_rows(p, cols, rows)->Ok_0;
    assert forall|i: int| 0 <= i < rows implies #[trigger] opened[i] =~= t.spec_rows_view()[i] by {
        assert forall|j: int| 0 <= j < cols implies opened[i][j] == t.spec_rows_view()[i][j] by {
            assert(opened_cell(p, i, j) == Some(opened[i][j]));
            assert(p.column_openings@[j].values@ == t.spec_column(j));
        }
    }
    assert(opened =~= t.spec_rows_view());
}

/// The trace rebuilt from the openings of a proof that [`air_prove`]
/// gives (a trace of the proof's row count and the trace's column
/// count whose table is the opened one, as the verifier rebuilds it)
/// is the proved trace: the same shape and the same values.
pub proof fn lemma_rebuilt_trace_is_proved_trace<F: PrimeField>(
    cs: Seq<AirExpr<F>>,
    t: &Trace<F>,
    p: AirProof<F>,
    rebuilt: &Trace<F>,
)
    requires
        proves(cs, t, p),
        t.spec_rows() >= 1,
        next_pow2(t.spec_rows() * t.spec_cols()) + t.spec_rows() * t.spec_cols() <= usize::MAX,
        t.spec_data().len() == t.spec_rows() * t.spec_cols(),
        rebuilt.spec_data().len() == rebuilt.spec_rows() * rebuilt.spec_cols(),
        rebuilt.spec_cols() == t.spec_cols(),
        rebuilt.spec_rows() == p.row_count,
        opened_rows(p, t.spec_cols(), p.row_count as nat) == Ok::<Seq<Seq<F>>, Error>(rebuilt.spec_rows_view()),
    ensures
        rebuilt.spec_rows() == t.spec_rows(),
        rebuilt.spec_cols() == t.spec_cols(),
        rebuilt.spec_data() == t.spec_data(),
{
    lemma_proof_opens_trace(cs, t, p);
    crate::trace::lemma_rows_determine_data(rebuilt, t);
}

/// The trace the Fibonacci AIR generates for at least one step passes
/// the prover's checks: [`air_prove`] succeeds on it.
pub proof fn lemma_fibonacci_trace_is_provable<F: PrimeField>(input: crate::fibonacci::FibonacciInput<F>, t: &Trace<F>)
    requires
        crate::fibonacci::is_fibonacci_trace(input, *t),
        input.num_steps.0 >= 1,
        t.spec_rows() <= usize::MAX,
    ensures
        check_shape(2, t.spec_cols(), t.spec_rows()) is Ok,
        check_constraints(seq![crate::fibonacci::fib_constraint_a::<F>(), crate::fibonacci::fib_constraint_b::<F>()],
            t.spec_rows_view(), t.spec_cols()) is Ok,
{
    let cs = seq![crate::fibonacci::fib_constraint_a::<F>(), crate::fibonacci::fib_constraint_b::<F>()];
    crate::fibonacci::lemma_fibonacci_trace_satisfies(input, t);
    lemma_check_iff_satisfied(cs, t);
}

/// Verify an AIR proof.
///
/// Replays the transcript, checks the sumcheck proof, verifies all
/// Merkle openings, and confirms that the re-evaluated combination of
/// the opened trace matches the sumcheck's final claim.  An honest
/// proof is accepted.  Any proof is refused with
/// [`Error::NoConstraints`] for an AIR without constraints; otherwise
/// the padded number of the proof's row pairs must fit in a `usize`.
pub fn air_verify<F: PrimeField, A: Air<F>>(air: &A, proof: &AirProof<F>) -> (r: Result<bool, Error>)
    requires
        air.spec_constraints().len() > 0 ==> next_pow2(pair_count(proof.row_count as nat)) <= usize::MAX,
    ensures
        ({
            let cs = air.spec_constraints();
            let cols = air.spec_column_count();
            &&& verify_outcome(cs, cols, *proof) is None ==> (r matches Err(Error::ProofCat(_)))
            &&& verify_outcome(cs, cols, *proof) is Some ==> r == verify_outcome(cs, cols, *proof)->Some_0
            &&& honest_proof(cs, cols, *proof) && cs.len() > 0 ==> r == Ok::<bool, Error>(true)
        }),
{
    let constraints = air.constraints();
    if constraints.len() == 0 {
        return Err(Error::NoConstraints);
    }
    let ghost cs = constraints@;
    let ghost cols = air.spec_column_count();

    // Replay the transcript.
    let root_bytes = merkle_root_to_bytes(&proof.trace_commitment);
    let t = transcript_new(TRANSCRIPT_LABEL.as_bytes());
    let t = transcript_absorb(t, root_bytes.as_slice());
    let cols_bytes = usize_to_le_bytes(air.column_count().count());
    let t = transcript_absorb(t, cols_bytes.as_slice());
    let count_bytes = usize_to_le_bytes(constraints.len());
    let t = transcript_absorb(t, count_bytes.as_slice());
    let (alphas, t) = match squeeze_challenges(constraints.len(), t) {
        Ok(x) => x,
        Err(e) => { return Err(e); },
    };

    // Padded length and number of sumcheck variables.
    let num_row_pairs = if proof.row_count == 0 { 0 } else { proof.row_count - 1 };
    let padded_len = pad_to_power_of_two_len(num_row_pairs);
    proof { lemma_next_pow2(num_row_pairs as nat); }
    let num_vars = log2_exec(padded_len);

    // Run the sumcheck verifier.
    let (final_eval, challenges) = match F::sumcheck_verify(proof.sumcheck(), F::zero(), num_vars, t) {
        Ok(x) => x,
        Err(e) => { return Err(Error::ProofCat(crate::error::core_error_into_proof_cat(e))); },
    };

    // Verify the Merkle openings.
    if !verify_merkle_openings(proof) {
        return Err(Error::ProofCat(crate::error::core_error_into_proof_cat(merkle_verification_failed())));
    }

    // Reconstruct the trace and re-evaluate.
    let trace = match reconstruct_trace(air, proof) {
        Ok(t) => t,
        Err(e) => { return Err(e); },
    };
    trace.shape_facts();
    proof {
        if honest_proof(cs, cols, *proof) {
            let view = opened_rows(*proof, cols, proof.row_count as nat)->Ok_0;
            assert(trace.spec_rows_view() == view);
            lemma_satisfied_combines_to_zero(cs, values_of(alphas@), view, cols);
        }
    }
    let combined = match compute_combined_evals(&constraints, &alphas, &trace) {
        Ok(v) => v,
        Err(e) => { return Err(e); },
    };
    proof {
        assert(trace.spec_rows_view().len() == proof.row_count);
        lemma_combine_pairs_len(cs, values_of(alphas@), trace.spec_rows_view(), trace.spec_cols(),
            pair_count(proof.row_count as nat));
        assert(combined@.len() == values_of(combined@).len());
    }
    let padded = pad_to_power_of_two(combined);
    proof {
        lemma_next_pow2(pair_count(proof.row_count as nat));
        if honest_proof(cs, cols, *proof) {
            assert(crate::primitives::all_zero(values_of(padded@)));
        }
    }
    let expected = match F::multilinear_evaluate(padded, challenges.as_slice()) {
        Ok(v) => v,
        Err(e) => { return Err(Error::ProofCat(crate::error::core_error_into_proof_cat(e))); },
    };
    Ok(expected.equals(final_eval))
}

} // verus!
