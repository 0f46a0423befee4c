use machine_cat::bridge::{air_prove, air_verify, pad_to_power_of_two_len};
use machine_cat::{Air, Column, ColumnCount, Error, FibonacciAir, FibonacciInput, PrimeField, StepCount, Trace, F101};
use machine_cat::{BFieldElement, BabyBear};

#[test]
fn fibonacci_prove_verify_roundtrip() -> Result<(), Error> {
    let air = FibonacciAir;
    let input = FibonacciInput::new(F101::new(1), F101::new(1), StepCount::new(7));
    let trace = air.generate_trace(&input)?;

    let proof = air_prove(&air, &trace)?;
    assert!(air_verify(&air, &proof)?);
    Ok(())
}

#[test]
fn fibonacci_small_trace() -> Result<(), Error> {
    let air = FibonacciAir;
    // Minimum: 2 rows (1 step).
    let input = FibonacciInput::new(F101::new(1), F101::new(1), StepCount::new(1));
    let trace = air.generate_trace(&input)?;

    let proof = air_prove(&air, &trace)?;
    assert!(air_verify(&air, &proof)?);
    Ok(())
}

#[test]
fn fibonacci_different_initial_values() -> Result<(), Error> {
    let air = FibonacciAir;
    let input = FibonacciInput::new(F101::new(3), F101::new(5), StepCount::new(3));
    let trace = air.generate_trace(&input)?;

    let proof = air_prove(&air, &trace)?;
    assert!(air_verify(&air, &proof)?);
    Ok(())
}

#[test]
fn invalid_trace_column_count_rejected() {
    let air = FibonacciAir;
    // 3 columns instead of 2.
    let trace = Trace::from_rows(
        ColumnCount::new(3),
        &[
            vec![F101::new(1), F101::new(1), F101::new(0)],
            vec![F101::new(1), F101::new(2), F101::new(0)],
        ],
    );
    match trace {
        Ok(t) => assert!(air_prove(&air, &t).is_err()),
        Err(_) => {} // Also acceptable
    }
}

#[test]
fn tampered_trace_rejected() {
    let air = FibonacciAir;
    // Valid first row, invalid second row.
    let trace = Trace::from_rows(
        ColumnCount::new(2),
        &[
            vec![F101::new(1), F101::new(1)],
            vec![F101::new(1), F101::new(99)], // Should be 2, not 99
        ],
    );
    match trace {
        Ok(t) => assert!(air_prove(&air, &t).is_err()),
        Err(_) => {}
    }
}

#[test]
fn prove_errors_are_exact() -> Result<(), Error> {
    let air = FibonacciAir;
    let wide = Trace::from_rows(ColumnCount::new(3), &[vec![F101::new(1), F101::new(1), F101::new(0)], vec![F101::new(1), F101::new(2), F101::new(0)]])?;
    match air_prove(&air, &wide) {
        Err(Error::ColumnCountMismatch { expected, actual }) => assert_eq!((expected, actual), (2, 3)),
        other => panic!("unexpected result: {:?}", other.is_ok()),
    }
    let short = Trace::from_rows(ColumnCount::new(2), &[vec![F101::new(1), F101::new(1)]])?;
    match air_prove(&air, &short) {
        Err(Error::InsufficientRows { row_count }) => assert_eq!(row_count, 1),
        other => panic!("unexpected result: {:?}", other.is_ok()),
    }
    let bad = Trace::from_rows(
        ColumnCount::new(2),
        &[
            vec![F101::new(1), F101::new(1)],
            vec![F101::new(1), F101::new(2)],
            vec![F101::new(2), F101::new(4)],
        ],
    )?;
    match air_prove(&air, &bad) {
        Err(Error::UnsatisfiedAirConstraint { row }) => assert_eq!(row, 1),
        other => panic!("unexpected result: {:?}", other.is_ok()),
    }
    Ok(())
}

#[test]
fn proof_records_trace() -> Result<(), Error> {
    let air = FibonacciAir;
    let trace = air.generate_trace(&FibonacciInput::new(F101::new(1), F101::new(1), StepCount::new(4)))?;
    let proof = air_prove(&air, &trace)?;
    assert_eq!(proof.row_count(), 5);
    assert_eq!(proof.column_openings().len(), 2);
    for (c, opening) in proof.column_openings().iter().enumerate() {
        assert_eq!(opening.column_index(), c);
        assert_eq!(opening.values(), trace.column_values(Column::new(c))?.as_slice());
        assert_eq!(opening.merkle_proofs().len(), 5);
    }
    // 4 row pairs: 2 sumcheck rounds, all zero.
    assert_eq!(proof.sumcheck().len(), 2);
    for round in proof.sumcheck() {
        assert!(round.eval_zero.is_zero() && round.eval_one.is_zero());
    }
    assert_eq!(proof.trace_commitment().as_bytes().len(), 32);
    Ok(())
}

#[test]
fn tampered_opening_rejected() -> Result<(), Error> {
    let air = FibonacciAir;
    let trace = air.generate_trace(&FibonacciInput::new(F101::new(1), F101::new(1), StepCount::new(7)))?;
    let mut proof = air_prove(&air, &trace)?;
    proof.column_openings[1].values[3] = F101::new(77);
    match air_verify(&air, &proof) {
        Err(Error::ProofCat(_)) => {},
        other => panic!("unexpected result: {:?}", other),
    }
    Ok(())
}

#[test]
fn tampered_sumcheck_rejected() -> Result<(), Error> {
    let air = FibonacciAir;
    let trace = air.generate_trace(&FibonacciInput::new(F101::new(1), F101::new(1), StepCount::new(7)))?;
    let mut proof = air_prove(&air, &trace)?;
    proof.sumcheck[0].eval_zero = F101::new(5);
    assert!(air_verify(&air, &proof).is_err());
    let mut short = air_prove(&air, &trace)?;
    short.sumcheck.pop();
    assert!(air_verify(&air, &short).is_err());
    Ok(())
}

#[test]
fn wrong_row_count_rejected() -> Result<(), Error> {
    let air = FibonacciAir;
    let trace = air.generate_trace(&FibonacciInput::new(F101::new(1), F101::new(1), StepCount::new(7)))?;
    let mut proof = air_prove(&air, &trace)?;
    // 8 rows claimed as 9: the opened columns have no ninth value.
    proof.row_count = 9;
    assert!(air_verify(&air, &proof).is_err());
    Ok(())
}

#[test]
fn pad_lengths() {
    assert_eq!(pad_to_power_of_two_len(0), 1);
    assert_eq!(pad_to_power_of_two_len(1), 1);
    assert_eq!(pad_to_power_of_two_len(2), 2);
    assert_eq!(pad_to_power_of_two_len(3), 4);
    assert_eq!(pad_to_power_of_two_len(7), 8);
    assert_eq!(pad_to_power_of_two_len(8), 8);
    assert_eq!(pad_to_power_of_two_len(9), 16);
}

#[test]
fn error_texts() {
    assert_eq!(Error::EmptyTrace.to_text(), "trace has zero rows");
    assert_eq!(
        Error::ColumnOutOfBounds { index: 5, column_count: 2 }.to_text(),
        "column index 5 out of bounds (column count: 2)"
    );
    assert_eq!(
        Error::UnsatisfiedAirConstraint { row: 3 }.to_text(),
        "AIR constraint not satisfied at row pair (3, 4)"
    );
    assert_eq!(
        Error::RowLengthMismatch { row: 1, expected: 2, actual: 3 }.to_text(),
        "row 1 has 3 elements, expected 2"
    );
    assert_eq!(
        Error::ColumnCountMismatch { expected: 2, actual: 3 }.to_text(),
        "column count mismatch: expected 2, got 3"
    );
    assert_eq!(Error::InsufficientRows { row_count: 1 }.to_text(), "trace has 1 rows, need at least 2");
    assert_eq!(Error::TraceNotPowerOfTwo { row_count: 6 }.to_text(), "trace row count 6 is not a power of two");
    assert_eq!(Error::NoConstraints.to_text(), "AIR has no constraints");
    let wrapped = Error::from(field_cat::Error::DivisionByZero);
    assert_eq!(wrapped.to_text(), "field-cat error: division by zero");
}

#[test]
fn commitment_is_root_of_trace_tree() -> Result<(), Error> {
    let air = FibonacciAir;
    let trace = air.generate_trace(&FibonacciInput::new(F101::new(2), F101::new(3), StepCount::new(5)))?;
    let proof = air_prove(&air, &trace)?;
    let values: Vec<field_cat::F101> = trace.data().iter().map(|v| field_cat::F101::new(v.value())).collect();
    let tree = proof_cat_core::commit::merkle::MerkleTree::from_field_values(&values);
    assert_eq!(*proof.trace_commitment(), tree.root());
    Ok(())
}

#[test]
fn missing_merkle_proof_fails_verification() -> Result<(), Error> {
    let air = FibonacciAir;
    let trace = air.generate_trace(&FibonacciInput::new(F101::new(1), F101::new(1), StepCount::new(3)))?;
    let mut proof = air_prove(&air, &trace)?;
    proof.column_openings[1].merkle_proofs.pop();
    match air_verify(&air, &proof) {
        Err(Error::ProofCat(proof_cat::Error::ProofCatCore(proof_cat_core::Error::MerkleVerificationFailed))) => {}
        other => panic!("unexpected result: {:?}", other.is_ok()),
    }
    Ok(())
}

#[test]
fn cloned_proof_verifies() -> Result<(), Error> {
    let air = FibonacciAir;
    let trace = air.generate_trace(&FibonacciInput::new(F101::new(1), F101::new(1), StepCount::new(3)))?;
    let proof = air_prove(&air, &trace)?;
    let copy = proof.clone();
    assert_eq!(copy.row_count(), proof.row_count());
    assert!(air_verify(&air, &copy)?);
    let constraints = Air::<F101>::constraints(&air);
    let again: Vec<_> = constraints.iter().map(|c| c.clone()).collect();
    assert_eq!(again.len(), 2);
    Ok(())
}

#[test]
fn baby_bear_prove_verify_roundtrip() -> Result<(), Error> {
    let air = FibonacciAir;
    let input = FibonacciInput::new(BabyBear::new(2_147_483_646), BabyBear::new(1), StepCount::new(6));
    let trace = air.generate_trace(&input)?;
    // Row 1 is (1, (p - 1) + 1) = (1, 0).
    assert_eq!(trace.get(1, Column::new(0))?, BabyBear::new(1));
    assert_eq!(trace.get(1, Column::new(1))?, BabyBear::zero());
    let proof = air_prove(&air, &trace)?;
    assert!(air_verify(&air, &proof)?);
    Ok(())
}

#[test]
fn bfield_prove_verify_roundtrip() -> Result<(), Error> {
    let air = FibonacciAir;
    let p_minus_one = 0xFFFF_FFFF_0000_0000u64;
    let input = FibonacciInput::new(BFieldElement::new(p_minus_one), BFieldElement::new(p_minus_one), StepCount::new(4));
    let trace = air.generate_trace(&input)?;
    // Row 1 is (p - 1, (p - 1) + (p - 1)) = (p - 1, p - 2).
    assert_eq!(trace.get(1, Column::new(1))?, BFieldElement::new(p_minus_one - 1));
    assert_eq!(BFieldElement::new(0xFFFF_FFFF_0000_0001).value(), 0);
    let proof = air_prove(&air, &trace)?;
    assert!(air_verify(&air, &proof)?);
    Ok(())
}

#[test]
fn baby_bear_tampered_trace_rejected() {
    let air = FibonacciAir;
    let trace = Trace::from_rows(
        ColumnCount::new(2),
        &[vec![BabyBear::new(1), BabyBear::new(1)], vec![BabyBear::new(1), BabyBear::new(3)]],
    );
    match trace {
        Ok(t) => assert!(matches!(air_prove(&air, &t), Err(Error::UnsatisfiedAirConstraint { row: 0 }))),
        Err(_) => panic!("the rows have the right length"),
    }
}
