//! machine-cat: a generic AIR (Algebraic Intermediate Representation)
//! framework over execution traces, with a sumcheck-based prover.
//!
//! Transition constraints are polynomial expressions over the current
//! row and the next row of a trace; they must vanish at every
//! consecutive row pair.
//!
//! - [`column`]: `Column`, `ColumnCount`, `ColumnRef` newtypes
//! - [`field`]: the `PrimeField` trait, stated over canonical values
//! - [`f101`]: `F101`, the field of integers modulo 101
//! - [`baby_bear`]: `BabyBear`, the field of integers modulo `2^31 - 1`
//! - [`bfield`]: `BFieldElement`, the field of integers modulo `2^64 - 2^32 + 1`
//! - [`air_expr`]: `AirExpr`, constraint expressions with row-relative addressing
//! - [`trace`]: `Trace`, a 2D table of field elements
//! - [`air`]: the `Air` trait
//! - [`fibonacci`]: `FibonacciAir`, a concrete AIR
//! - [`bridge`]: `air_prove` / `air_verify`, the trace-to-sumcheck bridge
//! - [`primitives`]: the proof-cat-core calls the bridge makes
//! - [`error`]: the crate's error type

pub mod air;
pub mod air_expr;
pub mod baby_bear;
pub mod bfield;
pub mod bridge;
pub mod column;
pub mod error;
pub mod f101;
pub mod fibonacci;
pub mod field;
pub mod outside;
pub mod pow2;
pub mod primitives;
pub mod text;
pub mod trace;

pub use air::Air;
pub use air_expr::{AirExpr, Assignment, RowValues};
pub use column::{Column, ColumnCount, ColumnRef};
pub use error::Error;
pub use fibonacci::{FibonacciAir, FibonacciInput, StepCount};
pub use baby_bear::BabyBear;
pub use bfield::BFieldElement;
pub use f101::F101;
pub use field::PrimeField;
pub use trace::{RowCount, RowPair, Trace};
