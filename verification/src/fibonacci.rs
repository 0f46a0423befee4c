//! Fibonacci AIR: a concrete example of the [`Air`] trait.
//!
//! The trace has 2 columns (`a`, `b`) and 2 transition constraints:
//!
//! - `next_a - current_b = 0`
//! - `next_b - current_a - current_b = 0`
//!
//! Given initial values `(a_0, b_0)`, row `i + 1` is `(b_i, a_i + b_i)`.

use vstd::prelude::*;
use crate::air::{Air, satisfies_all};
use crate::air_expr::{AirExpr, Assignment};
use crate::column::{Column, ColumnCount, ColumnRef};
use crate::error::Error;
use crate::field::{
    PrimeField, add_mod, neg_mod, lemma_add_neg_cancel, lemma_sum_minus_parts, lemma_difference_zero,
    lemma_difference_of_sum_zero,
};
use crate::trace::{RowPair, Trace};

verus! {

/// Number of computation steps (rows = steps + 1).
#[derive(Debug, Clone, Copy, PartialEq, Eq, Structural)]
pub struct StepCount(pub usize);

impl StepCount {
    /// Create a new step count.
    pub fn new(n: usize) -> (s: Self)
        ensures
            s.0 == n,
    {
        StepCount(n)
    }

    /// The underlying count.
    pub fn count(self) -> (n: usize)
        ensures
            n == self.0,
    {
        self.0
    }
}

/// Input to the Fibonacci AIR: initial values and step count.
#[derive(Debug, Clone, Copy)]
pub struct FibonacciInput<F> {
    /// The initial value of column `a`.
    pub initial_a: F,
    /// The initial value of column `b`.
    pub initial_b: F,
    /// The number of computation steps.
    pub num_steps: StepCount,
}

impl<F> FibonacciInput<F> {
    /// Create a Fibonacci input.
    pub fn new(initial_a: F, initial_b: F, num_steps: StepCount) -> (r: Self)
        ensures
            r.initial_a == initial_a,
            r.initial_b == initial_b,
            r.num_steps == num_steps,
    {
        FibonacciInput { initial_a, initial_b, num_steps }
    }

    /// The initial value of column `a`.
    pub fn initial_a(&self) -> (a: &F)
        ensures
            *a == self.initial_a,
    {
        &self.initial_a
    }

    /// The initial value of column `b`.
    pub fn initial_b(&self) -> (b: &F)
        ensures
            *b == self.initial_b,
    {
        &self.initial_b
    }

    /// The number of computation steps.
    pub fn num_steps(&self) -> (s: StepCount)
        ensures
            s == self.num_steps,
    {
        self.num_steps
    }
}

/// Row `i` of the Fibonacci trace started at `(a, b)`, as values of
/// the field of modulus `p`.
pub open spec fn fib_row(p: nat, a: nat, b: nat, i: nat) -> (nat, nat)
    decreases i,
{
    if i == 0 {
        (a, b)
    } else {
        let prev = fib_row(p, a, b, (i - 1) as nat);
        (prev.1, add_mod(p, prev.0, prev.1))
    }
}

/// The Fibonacci AIR.
///
/// Two columns (`a` = column 0, `b` = column 1) with transition
/// constraints ensuring each row is the Fibonacci successor of
/// the previous row.
#[derive(Debug, Clone, Copy)]
pub struct FibonacciAir;

/// `next_a - current_b`.
pub open spec fn fib_constraint_a<F>() -> AirExpr<F> {
    AirExpr::Sum(
        Box::new(AirExpr::Ref(ColumnRef::Next(Column(0)))),
        Box::new(AirExpr::Neg(Box::new(AirExpr::Ref(ColumnRef::Current(Column(1)))))),
    )
}

/// `next_b - current_a - current_b`.
pub open spec fn fib_constraint_b<F>() -> AirExpr<F> {
    AirExpr::Sum(
        Box::new(AirExpr::Sum(
            Box::new(AirExpr::Ref(ColumnRef::Next(Column(1)))),
            Box::new(AirExpr::Neg(Box::new(AirExpr::Ref(ColumnRef::Current(Column(0)))))),
        )),
        Box::new(AirExpr::Neg(Box::new(AirExpr::Ref(ColumnRef::Current(Column(1)))))),
    )
}

/// Whether `t` is the Fibonacci trace of `input`: `steps + 1` rows of
/// two columns, row `i` holding [`fib_row`] of the initial values.
pub open spec fn is_fibonacci_trace<F: PrimeField>(input: FibonacciInput<F>, t: Trace<F>) -> bool {
    &&& t.spec_cols() == 2
    &&& t.spec_rows() == input.num_steps.0 + 1
    &&& forall|i: int| 0 <= i < t.spec_rows() ==> {
        &&& (#[trigger] t.cell(i, 0)).val() == fib_row(F::modulus(), input.initial_a.val(), input.initial_b.val(), i as nat).0
        &&& t.cell(i, 1).val() == fib_row(F::modulus(), input.initial_a.val(), input.initial_b.val(), i as nat).1
    }
}

/// Every Fibonacci trace satisfies the Fibonacci constraints at every row pair.
pub proof fn lemma_fibonacci_trace_satisfies<F: PrimeField>(input: FibonacciInput<F>, t: &Trace<F>)
    requires
        is_fibonacci_trace(input, *t),
    ensures
        satisfies_all(seq![fib_constraint_a::<F>(), fib_constraint_b::<F>()], t),
{
    F::lemma_modulus();
    let m = F::modulus();
    let cs = seq![fib_constraint_a::<F>(), fib_constraint_b::<F>()];
    assert forall|row: int, k: int|
        0 <= row < t.spec_rows() - 1 && 0 <= k < cs.len()
        implies #[trigger] cs[k].eval(&RowPair { trace: t, row: row as usize }) == Ok::<nat, Error>(0) by {
        let p = RowPair { trace: t, row: row as usize };
        let a0 = input.initial_a.val();
        let b0 = input.initial_b.val();
        let cur = fib_row(m, a0, b0, row as nat);
        let nxt = fib_row(m, a0, b0, (row + 1) as nat);
        assert(t.cell(row, 0).val() == cur.0);
        assert(t.cell(row + 1, 0).val() == nxt.0);
        assert(nxt == (cur.1, add_mod(m, cur.0, cur.1)));
        reveal_with_fuel(AirExpr::eval_with, 4);
        assert(p.spec_value(ColumnRef::Current(Column(0))) == Ok::<F, Error>(t.cell(row, 0)));
        assert(p.spec_value(ColumnRef::Current(Column(1))) == Ok::<F, Error>(t.cell(row, 1)));
        assert(p.spec_value(ColumnRef::Next(Column(0))) == Ok::<F, Error>(t.cell(row + 1, 0)));
        assert(p.spec_value(ColumnRef::Next(Column(1))) == Ok::<F, Error>(t.cell(row + 1, 1)));
        if k == 0 {
            lemma_add_neg_cancel(m, cur.1);
        } else {
            lemma_sum_minus_parts(m, cur.0, cur.1);
        }
    }
}

impl<F: PrimeField> Air<F> for FibonacciAir {
    type Input = FibonacciInput<F>;

    open spec fn spec_column_count(&self) -> nat {
        2
    }

    open spec fn spec_constraints(&self) -> Seq<AirExpr<F>> {
        seq![fib_constraint_a(), fib_constraint_b()]
    }

    fn column_count(&self) -> (c: ColumnCount) {
        ColumnCount::new(2)
    }

    fn constraints(&self) -> (v: Vec<AirExpr<F>>) {
        let current_a = AirExpr::current(Column::new(0));
        let current_b = AirExpr::current(Column::new(1));
        let current_b_again = AirExpr::current(Column::new(1));
        let next_a = AirExpr::next(Column::new(0));
        let next_b = AirExpr::next(Column::new(1));
        let first = next_a - current_b;
        let second = next_b - current_a - current_b_again;
        let v = vec![first, second];
        proof { assert(v@ =~= seq![fib_constraint_a::<F>(), fib_constraint_b::<F>()]); }
        v
    }

    /// The trace has `steps + 1` rows `(a_i, b_i)` starting at the
    /// initial values, each the Fibonacci successor of the one
    /// before.  Where `steps + 1` does not fit in a `usize`, no row
    /// is produced and the result is [`Error::EmptyTrace`].
    fn generate_trace(&self, input: &FibonacciInput<F>) -> (r: Result<Trace<F>, Error>)
        ensures
            (r is Ok) <==> input.num_steps.0 < usize::MAX,
            r matches Ok(t) ==> is_fibonacci_trace(*input, t),
            r matches Ok(t) ==> satisfies_all(self.spec_constraints(), &t),
            r matches Err(e) ==> e == Error::EmptyTrace,
    {
        if input.num_steps.0 == usize::MAX {
            return Err(Error::EmptyTrace);
        }
        let num_rows = input.num_steps.0 + 1;
        let ghost m = F::modulus();
        let ghost a0 = input.initial_a.val();
        let ghost b0 = input.initial_b.val();
        let mut rows: Vec<Vec<F>> = Vec::new();
        let mut a = input.initial_a;
        let mut b = input.initial_b;
        let mut i: usize = 0;
        while i < num_rows
            invariant
                0 <= i <= num_rows,
                rows@.len() == i,
                m == F::modulus(),
                (a.val(), b.val()) == fib_row(m, a0, b0, i as nat),
                forall|k: int| 0 <= k < i ==> (#[trigger] rows@[k])@.len() == 2
                    && rows@[k]@[0].val() == fib_row(m, a0, b0, k as nat).0
                    && rows@[k]@[1].val() == fib_row(m, a0, b0, k as nat).1,
            decreases num_rows - i,
        {
            rows.push(vec![a, b]);
            let next_b = a.plus(b);
            a = b;
            b = next_b;
            i = i + 1;
        }
        let r = Trace::from_rows(ColumnCount::new(2), rows.as_slice());
        match r {
            Ok(t) => {
                proof {
                    assert forall|k: int| 0 <= k < t.spec_rows() implies {
                        &&& (#[trigger] t.cell(k, 0)).val() == fib_row(m, a0, b0, k as nat).0
                        &&& t.cell(k, 1).val() == fib_row(m, a0, b0, k as nat).1
                    } by {
                        assert(t.cell(k, 0) == rows@[k]@[0]);
                        assert(t.cell(k, 1) == rows@[k]@[1]);
                    }
                    lemma_fibonacci_trace_satisfies(*input, &t);
                }
                Ok(t)
            },
            Err(e) => {
                proof { assert(rows@[0]@.len() == 2); }
                Err(e)
            },
        }
    }
}

/// Whether row `i` of a trace is the Fibonacci successor of row
/// `i - 1`: its `a` is congruent to the previous `b`, and its `b` to
/// the sum of the previous `a` and `b`, modulo the field's modulus.
pub open spec fn is_fibonacci_step<F: PrimeField>(t: &Trace<F>, i: int) -> bool {
    let m = F::modulus();
    &&& t.cell(i, 0).val() % m == t.cell(i - 1, 1).val() % m
    &&& t.cell(i, 1).val() % m == (t.cell(i - 1, 0).val() + t.cell(i - 1, 1).val()) % m
}

/// Where both Fibonacci constraints vanish at the row pair
/// `(row, row + 1)` of a two-column trace, the next row is the
/// Fibonacci successor of the current one, in the field.
proof fn lemma_fibonacci_row_step<F: PrimeField>(t: &Trace<F>, row: int)
    requires
        t.spec_cols() == 2,
        0 <= row < t.spec_rows() - 1,
        t.spec_rows() <= usize::MAX,
        fib_constraint_a::<F>().eval(&RowPair { trace: t, row: row as usize }) == Ok::<nat, Error>(0),
        fib_constraint_b::<F>().eval(&RowPair { trace: t, row: row as usize }) == Ok::<nat, Error>(0),
    ensures
        t.cell(row + 1, 0).val() % F::modulus() == t.cell(row, 1).val() % F::modulus(),
        t.cell(row + 1, 1).val() % F::modulus() == (t.cell(row, 0).val() + t.cell(row, 1).val()) % F::modulus(),
{
    F::lemma_modulus();
    let m = F::modulus();
    let p = RowPair { trace: t, row: row as usize };
    let c0 = t.cell(row, 0).val();
    let c1 = t.cell(row, 1).val();
    let n0 = t.cell(row + 1, 0).val();
    let n1 = t.cell(row + 1, 1).val();
    assert(p.spec_value(ColumnRef::Current(Column(0))) == Ok::<F, Error>(t.cell(row, 0)));
    assert(p.spec_value(ColumnRef::Current(Column(1))) == Ok::<F, Error>(t.cell(row, 1)));
    assert(p.spec_value(ColumnRef::Next(Column(0))) == Ok::<F, Error>(t.cell(row + 1, 0)));
    assert(p.spec_value(ColumnRef::Next(Column(1))) == Ok::<F, Error>(t.cell(row + 1, 1)));
    assert(add_mod(m, n0, neg_mod(m, c1)) == 0) by {
        reveal_with_fuel(AirExpr::eval_with, 3);
    }
    assert(add_mod(m, add_mod(m, n1, neg_mod(m, c0)), neg_mod(m, c1)) == 0) by {
        reveal_with_fuel(AirExpr::eval_with, 4);
    }
    lemma_difference_zero(m, n0, c1);
    lemma_difference_of_sum_zero(m, n1, c0, c1);
}

/// A two-column trace that satisfies the Fibonacci AIR's constraints at
/// every row pair steps by the Fibonacci rule: each row's `a` is the
/// previous row's `b`, and each row's `b` is the sum of the previous
/// row's `a` and `b`, in the field.
pub proof fn lemma_fibonacci_constraints_force_steps<F: PrimeField>(t: &Trace<F>)
    requires
        t.spec_cols() == 2,
        t.spec_rows() <= usize::MAX,
        satisfies_all(Air::<F>::spec_constraints(&FibonacciAir), t),
    ensures
        forall|i: int| 1 <= i < t.spec_rows() ==> is_fibonacci_step(t, i),
{
    let cs = Air::<F>::spec_constraints(&FibonacciAir);
    assert forall|i: int| 1 <= i < t.spec_rows() implies is_fibonacci_step(t, i) by {
        let row = i - 1;
        assert(cs[0].eval(&RowPair { trace: t, row: row as usize }) == Ok::<nat, Error>(0));
        assert(cs[1].eval(&RowPair { trace: t, row: row as usize }) == Ok::<nat, Error>(0));
        lemma_fibonacci_row_step(t, row);
        assert(row + 1 == i);
    }
}

} // verus!
