//! Column newtypes for AIR trace tables.
//!
//! - [`Column`]: a column index within a trace table
//! - [`ColumnCount`]: the number of columns (the AIR's "shape")
//! - [`ColumnRef`]: a row-relative column reference (current or next row)

use vstd::prelude::*;
use crate::text::{decimal, push_decimal};

verus! {

/// A column index within a trace table.
#[derive(Debug, Clone, Copy, PartialEq, Eq, Hash, Structural)]
pub struct Column(pub usize);

impl Column {
    /// Create a new column index.
    pub fn new(index: usize) -> (c: Self)
        ensures
            c.0 == index,
    {
        Column(index)
    }

    /// The underlying index.
    pub fn index(self) -> (i: usize)
        ensures
            i == self.0,
    {
        self.0
    }

    /// The text `c<index>`, as the column is displayed.
    pub open spec fn spec_text(self) -> Seq<char> {
        seq!['c'] + decimal(self.0 as nat)
    }

    /// Renders the column as `c<index>`.
    pub fn to_text(self) -> (s: String)
        ensures
            s@ == self.spec_text(),
    {
        let mut s = String::from_str("c");
        proof { reveal_strlit("c"); }
        push_decimal(&mut s, self.0);
        s
    }
}

/// The number of columns in a trace table.
///
/// This is the "shape" of an AIR: two AIRs with the same
/// [`ColumnCount`] operate on trace tables of the same width.
#[derive(Debug, Clone, Copy, PartialEq, Eq, Hash, Structural)]
pub struct ColumnCount(pub usize);

impl ColumnCount {
    /// Create a new column count.
    pub fn new(n: usize) -> (c: Self)
        ensures
            c.0 == n,
    {
        ColumnCount(n)
    }

    /// The underlying count.
    pub fn count(self) -> (n: usize)
        ensures
            n == self.0,
    {
        self.0
    }

    /// Zero columns (the unit object for tensor product).
    pub fn zero() -> (c: Self)
        ensures
            c.0 == 0,
    {
        ColumnCount(0)
    }

    /// The tensor product of two column spaces: their widths add.
    pub open spec fn spec_tensor(self, other: Self) -> Self {
        ColumnCount((self.0 + other.0) as usize)
    }

    /// Tensor product: parallel composition of column spaces.
    pub fn tensor(self, other: Self) -> (c: Self)
        requires
            self.0 + other.0 <= usize::MAX,
        ensures
            c == self.spec_tensor(other),
            c.0 == self.0 + other.0,
    {
        ColumnCount(self.0 + other.0)
    }

    /// Renders the count in decimal.
    pub fn to_text(self) -> (s: String)
        ensures
            s@ == decimal(self.0 as nat),
    {
        crate::text::decimal_string(self.0)
    }
}

impl core::ops::Add for ColumnCount {
    type Output = Self;

    fn add(self, rhs: Self) -> (c: Self) {
        self.tensor(rhs)
    }
}

impl vstd::std_specs::ops::AddSpecImpl for ColumnCount {
    open spec fn obeys_add_spec() -> bool {
        true
    }

    open spec fn add_req(self, rhs: Self) -> bool {
        self.0 + rhs.0 <= usize::MAX
    }

    open spec fn add_spec(self, rhs: Self) -> Self {
        self.spec_tensor(rhs)
    }
}

/// The empty shape is a unit for the tensor product, on either side.
pub proof fn lemma_tensor_unit(c: ColumnCount)
    ensures
        ColumnCount(0).spec_tensor(c) == c,
        c.spec_tensor(ColumnCount(0)) == c,
{
}

/// The tensor product of shapes is commutative.
pub proof fn lemma_tensor_commutative(a: ColumnCount, b: ColumnCount)
    ensures
        a.spec_tensor(b) == b.spec_tensor(a),
{
}

/// The tensor product of shapes is associative (where the widths fit in a `usize`).
pub proof fn lemma_tensor_associative(a: ColumnCount, b: ColumnCount, c: ColumnCount)
    requires
        a.0 + b.0 + c.0 <= usize::MAX,
    ensures
        a.spec_tensor(b).spec_tensor(c) == a.spec_tensor(b.spec_tensor(c)),
{
}

/// A row-relative column reference.
///
/// AIR constraint expressions use [`ColumnRef`] to address
/// values in the **current** row or the **next** row.
#[derive(Debug, Clone, Copy, PartialEq, Eq, Hash, Structural)]
pub enum ColumnRef {
    /// The value of a column in the current row.
    Current(Column),
    /// The value of a column in the next row.
    Next(Column),
}

impl ColumnRef {
    /// The referenced column, regardless of row position.
    pub open spec fn spec_column(self) -> Column {
        match self {
            ColumnRef::Current(c) => c,
            ColumnRef::Next(c) => c,
        }
    }

    /// The referenced column, regardless of row position.
    pub fn column(self) -> (c: Column)
        ensures
            c == self.spec_column(),
    {
        match self {
            ColumnRef::Current(c) => c,
            ColumnRef::Next(c) => c,
        }
    }

    /// Whether this references the current row.
    pub fn is_current(self) -> (b: bool)
        ensures
            b <==> self is Current,
    {
        match self {
            ColumnRef::Current(_) => true,
            ColumnRef::Next(_) => false,
        }
    }

    /// Whether this references the next row.
    pub fn is_next(self) -> (b: bool)
        ensures
            b <==> self is Next,
    {
        match self {
            ColumnRef::Current(_) => false,
            ColumnRef::Next(_) => true,
        }
    }

    /// The text `curr.c<index>` or `next.c<index>`.
    pub open spec fn spec_text(self) -> Seq<char> {
        match self {
            ColumnRef::Current(c) => seq!['c', 'u', 'r', 'r', '.'] + c.spec_text(),
            ColumnRef::Next(c) => seq!['n', 'e', 'x', 't', '.'] + c.spec_text(),
        }
    }

    /// Renders the reference as `curr.c<index>` or `next.c<index>`.
    pub fn to_text(self) -> (s: String)
        ensures
            s@ == self.spec_text(),
    {
        match self {
            ColumnRef::Current(c) => {
                let mut s = String::from_str("curr.");
                proof { reveal_strlit("curr."); }
                let t = c.to_text();
                s.append(t.as_str());
                s
            },
            ColumnRef::Next(c) => {
                let mut s = String::from_str("next.");
                proof { reveal_strlit("next."); }
                let t = c.to_text();
                s.append(t.as_str());
                s
            },
        }
    }
}

} // verus!
