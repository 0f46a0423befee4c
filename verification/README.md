# machine-cat

An AIR (Algebraic Intermediate Representation) framework: execution
traces are tables of field elements, and transition constraints are
polynomial expressions over the current and the next row that must
vanish at every consecutive row pair.  A trace that satisfies an AIR's
constraints is proved with a sumcheck over the random linear
combination of the constraints, with a Merkle commitment to the trace;
the verifier replays the transcript and re-checks the opened trace.

The library is written in Verus.  `src/` holds the verified library:

- `column`: column indices, column counts (with their tensor product)
  and row-relative column references;
- `field`: the `PrimeField` trait over which traces, constraints and
  proofs are generic: an element is held by its canonical value, and
  each operation (the arithmetic, and the proof-cat-core primitives on
  the field's elements) is stated over values modulo the field's
  modulus;
- `f101`, `baby_bear`, `bfield`: field-cat's `F101`, `BabyBear` and
  `BFieldElement` (the fields of integers modulo 101, `2^31 - 1` and
  `2^64 - 2^32 + 1`), whose arithmetic and primitives are field-cat's
  and proof-cat-core's, called through trusted wrappers;
- `air_expr`: constraint expressions and their evaluation;
- `trace`: execution traces;
- `air`: the `Air` trait; `fibonacci`: the Fibonacci AIR;
- `bridge`: `air_prove` and `air_verify`;
- `primitives`: the names for what proof-cat-core's Merkle tree,
  transcript, multilinear polynomials and sumcheck compute, and the
  calls into it that do not depend on the field, each with the
  contract that Verus trusts;
- `error`, `text`, `pow2`, `outside`: errors, decimal text, powers of
  two, and the declarations of the outside crates' types.

`app/` adds `Display` and `std::error::Error` through wrapper types.
