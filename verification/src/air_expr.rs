//! Symbolic constraint expressions with row-relative addressing.
//!
//! [`AirExpr`] is a polynomial expression over [`ColumnRef`]s (current
//! row / next row).  Constraints built from `AirExpr` must evaluate to
//! zero at every consecutive row pair of an execution trace.

use vstd::prelude::*;
use crate::column::{Column, ColumnRef};
use crate::error::Error;
use crate::field::{
    PrimeField, add_mod, mul_mod, neg_mod, lemma_add_mod_is_sum, lemma_mul_mod_is_product, lemma_neg_mod_is_inverse,
};

verus! {

/// Values for the column references of one row pair: what an
/// [`AirExpr`] is evaluated against.
pub trait Assignment<F: PrimeField> {
    /// The value (or the error) that `value` gives for `cr`.
    spec fn spec_value(&self, cr: ColumnRef) -> Result<F, Error>;

    /// The value assigned to `cr`.
    fn value(&self, cr: ColumnRef) -> (r: Result<F, Error>)
        ensures
            r == self.spec_value(cr),
    ;
}

/// An assignment given by the values of two rows: `current` answers
/// [`ColumnRef::Current`] and `next` answers [`ColumnRef::Next`].
pub struct RowValues<F> {
    /// The values of the current row.
    pub current: Vec<F>,
    /// The values of the next row.
    pub next: Vec<F>,
}

/// The value at column `c` of `row`, or [`Error::ColumnOutOfBounds`].
pub open spec fn spec_row_lookup<F>(row: Seq<F>, c: Column) -> Result<F, Error> {
    if c.0 < row.len() {
        Ok(row[c.0 as int])
    } else {
        Err(Error::ColumnOutOfBounds { index: c.0, column_count: row.len() as usize })
    }
}

fn row_lookup<F: Copy>(row: &Vec<F>, c: Column) -> (r: Result<F, Error>)
    ensures
        r == spec_row_lookup(row@, c),
{
    if c.0 < row.len() {
        Ok(row[c.0])
    } else {
        Err(Error::ColumnOutOfBounds { index: c.0, column_count: row.len() })
    }
}

impl<F> RowValues<F> {
    /// An assignment from the values of the current and the next row.
    pub fn new(current: Vec<F>, next: Vec<F>) -> (r: Self)
        ensures
            r.current == current,
            r.next == next,
    {
        RowValues { current, next }
    }
}

impl<F: PrimeField> Assignment<F> for RowValues<F> {
    open spec fn spec_value(&self, cr: ColumnRef) -> Result<F, Error> {
        match cr {
            ColumnRef::Current(c) => spec_row_lookup(self.current@, c),
            ColumnRef::Next(c) => spec_row_lookup(self.next@, c),
        }
    }

    fn value(&self, cr: ColumnRef) -> (r: Result<F, Error>) {
        match cr {
            ColumnRef::Current(c) => row_lookup(&self.current, c),
            ColumnRef::Next(c) => row_lookup(&self.next, c),
        }
    }
}

/// A symbolic polynomial expression over row-relative column references.
///
/// Used to define AIR transition constraints: expressions that must
/// equal zero for every consecutive row pair `(row[i], row[i+1])`.
#[derive(Debug)]
pub enum AirExpr<F> {
    /// A field constant.
    Constant(F),
    /// A row-relative column reference.
    Ref(ColumnRef),
    /// Negation.
    Neg(Box<AirExpr<F>>),
    /// Sum of two expressions.
    Sum(Box<AirExpr<F>>, Box<AirExpr<F>>),
    /// Product of two expressions.
    Product(Box<AirExpr<F>>, Box<AirExpr<F>>),
}

impl<F: PrimeField> AirExpr<F> {
    /// The value of the expression when each column reference `cr`
    /// has the value (or the error) `f(cr)`: the value of the field
    /// expression, or the first error that a referenced column gives,
    /// operands being evaluated left to right.
    pub open spec fn eval_with(self, f: spec_fn(ColumnRef) -> Result<F, Error>) -> Result<nat, Error>
        decreases self,
    {
        match self {
            AirExpr::Constant(c) => Ok(c.val()),
            AirExpr::Ref(cr) => match f(cr) {
                Ok(v) => Ok(v.val()),
                Err(e) => Err(e),
            },
            AirExpr::Neg(inner) => match inner.eval_with(f) {
                Ok(v) => Ok(neg_mod(F::modulus(), v)),
                Err(e) => Err(e),
            },
            AirExpr::Sum(l, r) => match l.eval_with(f) {
                Err(e) => Err(e),
                Ok(lv) => match r.eval_with(f) {
                    Err(e) => Err(e),
                    Ok(rv) => Ok(add_mod(F::modulus(), lv, rv)),
                },
            },
            AirExpr::Product(l, r) => match l.eval_with(f) {
                Err(e) => Err(e),
                Ok(lv) => match r.eval_with(f) {
                    Err(e) => Err(e),
                    Ok(rv) => Ok(mul_mod(F::modulus(), lv, rv)),
                },
            },
        }
    }

    /// The value of the expression under an assignment.
    pub open spec fn eval<A: Assignment<F>>(self, a: &A) -> Result<nat, Error> {
        self.eval_with(|cr: ColumnRef| a.spec_value(cr))
    }

    /// A constant expression.
    pub fn constant(c: F) -> (e: Self)
        ensures
            e == AirExpr::<F>::Constant(c),
    {
        AirExpr::Constant(c)
    }

    /// Reference a column in the current row.
    pub fn current(col: Column) -> (e: Self)
        ensures
            e == AirExpr::<F>::Ref(ColumnRef::Current(col)),
    {
        AirExpr::Ref(ColumnRef::Current(col))
    }

    /// Reference a column in the next row.
    pub fn next(col: Column) -> (e: Self)
        ensures
            e == AirExpr::<F>::Ref(ColumnRef::Next(col)),
    {
        AirExpr::Ref(ColumnRef::Next(col))
    }

    /// Evaluate this expression under an assignment of the column
    /// references of a row pair.
    ///
    /// Fails with the first error that the assignment gives for a
    /// referenced column (e.g., column out of bounds).
    pub fn evaluate<A: Assignment<F>>(&self, assignment: &A) -> (r: Result<F, Error>)
        ensures
            match r {
                Ok(v) => self.eval(assignment) == Ok::<nat, Error>(v.val()),
                Err(e) => self.eval(assignment) == Err::<nat, Error>(e),
            },
        decreases self,
    {
        match self {
            AirExpr::Constant(c) => Ok(*c),
            AirExpr::Ref(cr) => assignment.value(*cr),
            AirExpr::Neg(inner) => match inner.evaluate(assignment) {
                Ok(v) => Ok(v.negated()),
                Err(e) => Err(e),
            },
            AirExpr::Sum(left, right) => {
                let l = match left.evaluate(assignment) {
                    Ok(v) => v,
                    Err(e) => { return Err(e); },
                };
                let r = match right.evaluate(assignment) {
                    Ok(v) => v,
                    Err(e) => { return Err(e); },
                };
                Ok(l.plus(r))
            },
            AirExpr::Product(left, right) => {
                let l = match left.evaluate(assignment) {
                    Ok(v) => v,
                    Err(e) => { return Err(e); },
                };
                let r = match right.evaluate(assignment) {
                    Ok(v) => v,
                    Err(e) => { return Err(e); },
                };
                Ok(l.times(r))
            },
        }
    }
}

/// A constant evaluates to its value, and a column reference to the
/// value that the assignment gives it (or the assignment's error).
pub proof fn lemma_eval_leaves<F: PrimeField, A: Assignment<F>>(c: F, cr: ColumnRef, a: &A)
    ensures
        AirExpr::<F>::Constant(c).eval(a) == Ok::<nat, Error>(c.val()),
        a.spec_value(cr) matches Ok(v) ==> AirExpr::<F>::Ref(cr).eval(a) == Ok::<nat, Error>(v.val()),
        a.spec_value(cr) matches Err(e) ==> AirExpr::<F>::Ref(cr).eval(a) == Err::<nat, Error>(e),
{
}

/// A negation evaluates to the additive inverse of its operand's value:
/// a value below the modulus whose sum with the operand's value is a
/// multiple of the modulus; an operand's error is passed on.
pub proof fn lemma_eval_neg<F: PrimeField, A: Assignment<F>>(x: AirExpr<F>, a: &A)
    ensures
        x.eval(a) matches Ok(v) ==> ({
            let n = AirExpr::Neg(Box::new(x)).eval(a);
            &&& n is Ok
            &&& n->Ok_0 < F::modulus()
            &&& (v + n->Ok_0) % F::modulus() == 0
        }),
        x.eval(a) is Err ==> AirExpr::Neg(Box::new(x)).eval(a) == x.eval(a),
{
    F::lemma_modulus();
    if let Ok(v) = x.eval(a) {
        lemma_neg_mod_is_inverse(F::modulus(), v);
    }
}

/// A sum evaluates to the sum of its operands' values modulo the
/// field's modulus; the left operand's error comes first, then the
/// right one's.
pub proof fn lemma_eval_sum<F: PrimeField, A: Assignment<F>>(l: AirExpr<F>, r: AirExpr<F>, a: &A)
    ensures
        l.eval(a) is Ok && r.eval(a) is Ok ==> AirExpr::Sum(Box::new(l), Box::new(r)).eval(a)
            == Ok::<nat, Error>((l.eval(a)->Ok_0 + r.eval(a)->Ok_0) % F::modulus()),
        l.eval(a) is Err ==> AirExpr::Sum(Box::new(l), Box::new(r)).eval(a) == l.eval(a),
        l.eval(a) is Ok && r.eval(a) is Err ==> AirExpr::Sum(Box::new(l), Box::new(r)).eval(a) == r.eval(a),
{
    F::lemma_modulus();
    if l.eval(a) is Ok && r.eval(a) is Ok {
        let lv = l.eval(a)->Ok_0;
        let rv = r.eval(a)->Ok_0;
        lemma_add_mod_is_sum(F::modulus(), lv, rv);
        assert(AirExpr::Sum(Box::new(l), Box::new(r)).eval(a) == Ok::<nat, Error>(add_mod(F::modulus(), lv, rv)));
    }
}

/// A product evaluates to the product of its operands' values modulo
/// the field's modulus; the left operand's error comes first, then
/// the right one's.
pub proof fn lemma_eval_product<F: PrimeField, A: Assignment<F>>(l: AirExpr<F>, r: AirExpr<F>, a: &A)
    ensures
        l.eval(a) is Ok && r.eval(a) is Ok ==> AirExpr::Product(Box::new(l), Box::new(r)).eval(a)
            == Ok::<nat, Error>((l.eval(a)->Ok_0 * r.eval(a)->Ok_0) % F::modulus()),
        l.eval(a) is Err ==> AirExpr::Product(Box::new(l), Box::new(r)).eval(a) == l.eval(a),
        l.eval(a) is Ok && r.eval(a) is Err ==> AirExpr::Product(Box::new(l), Box::new(r)).eval(a) == r.eval(a),
{
    F::lemma_modulus();
    if l.eval(a) is Ok && r.eval(a) is Ok {
        let lv = l.eval(a)->Ok_0;
        let rv = r.eval(a)->Ok_0;
        lemma_mul_mod_is_product(F::modulus(), lv, rv);
        assert(AirExpr::Product(Box::new(l), Box::new(r)).eval(a) == Ok::<nat, Error>(mul_mod(F::modulus(), lv, rv)));
    }
}

impl<F: PrimeField> Clone for AirExpr<F> {
    /// A copy of the expression.
    fn clone(&self) -> (e: Self)
        ensures
            e == *self,
        decreases self,
    {
        match self {
            AirExpr::Constant(c) => AirExpr::Constant(*c),
            AirExpr::Ref(cr) => AirExpr::Ref(*cr),
            AirExpr::Neg(inner) => AirExpr::Neg(Box::new((**inner).clone())),
            AirExpr::Sum(l, r) => AirExpr::Sum(Box::new((**l).clone()), Box::new((**r).clone())),
            AirExpr::Product(l, r) => AirExpr::Product(Box::new((**l).clone()), Box::new((**r).clone())),
        }
    }
}

impl<F> core::ops::Add for AirExpr<F> {
    type Output = Self;

    fn add(self, rhs: Self) -> (e: Self) {
        AirExpr::Sum(Box::new(self), Box::new(rhs))
    }
}

impl<F> vstd::std_specs::ops::AddSpecImpl for AirExpr<F> {
    open spec fn obeys_add_spec() -> bool {
        true
    }

    open spec fn add_req(self, rhs: Self) -> bool {
        true
    }

    open spec fn add_spec(self, rhs: Self) -> Self {
        AirExpr::Sum(Box::new(self), Box::new(rhs))
    }
}

impl<F> core::ops::Neg for AirExpr<F> {
    type Output = Self;

    fn neg(self) -> (e: Self) {
        AirExpr::Neg(Box::new(self))
    }
}

impl<F> vstd::std_specs::ops::NegSpecImpl for AirExpr<F> {
    open spec fn obeys_neg_spec() -> bool {
        true
    }

    open spec fn neg_req(self) -> bool {
        true
    }

    open spec fn neg_spec(self) -> Self {
        AirExpr::Neg(Box::new(self))
    }
}

impl<F> core::ops::Sub for AirExpr<F> {
    type Output = Self;

    fn sub(self, rhs: Self) -> (e: Self) {
        AirExpr::Sum(Box::new(self), Box::new(AirExpr::Neg(Box::new(rhs))))
    }
}

impl<F> vstd::std_specs::ops::SubSpecImpl for AirExpr<F> {
    open spec fn obeys_sub_spec() -> bool {
        true
    }

    open spec fn sub_req(self, rhs: Self) -> bool {
        true
    }

    open spec fn sub_spec(self, rhs: Self) -> Self {
        AirExpr::Sum(Box::new(self), Box::new(AirExpr::Neg(Box::new(rhs))))
    }
}

impl<F> core::ops::Mul for AirExpr<F> {
    type Output = Self;

    fn mul(self, rhs: Self) -> (e: Self) {
        AirExpr::Product(Box::new(self), Box::new(rhs))
    }
}

impl<F> vstd::std_specs::ops::MulSpecImpl for AirExpr<F> {
    open spec fn obeys_mul_spec() -> bool {
        true
    }

    open spec fn mul_req(self, rhs: Self) -> bool {
        true
    }

    open spec fn mul_spec(self, rhs: Self) -> Self {
        AirExpr::Product(Box::new(self), Box::new(rhs))
    }
}

} // verus!
