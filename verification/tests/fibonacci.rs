use machine_cat::{Air, Column, Error, FibonacciAir, FibonacciInput, PrimeField, StepCount, F101};

#[test]
fn fibonacci_trace_correctness() -> Result<(), Error> {
    let air = FibonacciAir;
    let input = FibonacciInput::new(F101::new(1), F101::new(1), StepCount::new(7));
    let trace = air.generate_trace(&input)?;

    // 8 rows: (1,1), (1,2), (2,3), (3,5), (5,8), (8,13), (13,21), (21,34)
    assert_eq!(trace.row_count().count(), 8);
    assert_eq!(trace.get(0, Column::new(0))?, F101::new(1));
    assert_eq!(trace.get(0, Column::new(1))?, F101::new(1));
    assert_eq!(trace.get(7, Column::new(0))?, F101::new(21));
    assert_eq!(trace.get(7, Column::new(1))?, F101::new(34));
    Ok(())
}

#[test]
fn fibonacci_constraints_satisfied() -> Result<(), Error> {
    let air = FibonacciAir;
    let input = FibonacciInput::new(F101::new(1), F101::new(1), StepCount::new(7));
    let trace = air.generate_trace(&input)?;
    let constraints = air.constraints();

    // Check constraints at every row pair.
    (0..trace.row_count().count() - 1).try_for_each(|row| {
        let assign = trace.row_pair_assignment(row)?;
        constraints.iter().try_for_each(|c| {
            let val = c.evaluate(&assign)?;
            if val == F101::zero() {
                Ok(())
            } else {
                Err(Error::UnsatisfiedAirConstraint { row })
            }
        })
    })
}

#[test]
fn fibonacci_single_step() -> Result<(), Error> {
    let air = FibonacciAir;
    let input = FibonacciInput::new(F101::new(3), F101::new(5), StepCount::new(1));
    let trace = air.generate_trace(&input)?;

    // 2 rows: (3, 5), (5, 8)
    assert_eq!(trace.row_count().count(), 2);
    assert_eq!(trace.get(0, Column::new(0))?, F101::new(3));
    assert_eq!(trace.get(0, Column::new(1))?, F101::new(5));
    assert_eq!(trace.get(1, Column::new(0))?, F101::new(5));
    assert_eq!(trace.get(1, Column::new(1))?, F101::new(8));
    Ok(())
}

#[test]
fn fibonacci_input_accessors() {
    let input = FibonacciInput::new(F101::new(4), F101::new(9), StepCount::new(3));
    assert_eq!(*input.initial_a(), F101::new(4));
    assert_eq!(*input.initial_b(), F101::new(9));
    assert_eq!(input.num_steps(), StepCount::new(3));
}

#[test]
fn fibonacci_shape() {
    let air = FibonacciAir;
    assert_eq!(Air::<F101>::column_count(&air).count(), 2);
    assert_eq!(Air::<F101>::constraints(&air).len(), 2);
}

#[test]
fn fibonacci_wraps_modulo_101() -> Result<(), Error> {
    // 1, 1, 2, 3, 5, 8, 13, 21, 34, 55, 89, 144 = 43 (mod 101)
    let air = FibonacciAir;
    let input = FibonacciInput::new(F101::new(1), F101::new(1), StepCount::new(10));
    let trace = air.generate_trace(&input)?;
    assert_eq!(trace.row_count().count(), 11);
    assert_eq!(trace.get(10, Column::new(0))?, F101::new(89));
    assert_eq!(trace.get(10, Column::new(1))?, F101::new(43));
    Ok(())
}

#[test]
fn fibonacci_zero_steps_is_one_row() -> Result<(), Error> {
    let air = FibonacciAir;
    let input = FibonacciInput::new(F101::new(2), F101::new(7), StepCount::new(0));
    let trace = air.generate_trace(&input)?;
    assert_eq!(trace.row_count().count(), 1);
    assert_eq!(trace.get(0, Column::new(1))?, F101::new(7));
    Ok(())
}

#[test]
fn fibonacci_step_count_overflow_is_empty() {
    let air = FibonacciAir;
    let input = FibonacciInput::new(F101::new(2), F101::new(7), StepCount::new(usize::MAX));
    match air.generate_trace(&input) {
        Err(Error::EmptyTrace) => {},
        other => panic!("unexpected result: {:?}", other),
    }
}
