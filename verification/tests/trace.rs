use machine_cat::{Assignment, Column, ColumnCount, ColumnRef, Error, RowCount, Trace, F101};

fn fib_trace() -> Result<Trace<F101>, Error> {
    Trace::from_rows(
        ColumnCount::new(2),
        &[
            vec![F101::new(1), F101::new(1)],
            vec![F101::new(1), F101::new(2)],
            vec![F101::new(2), F101::new(3)],
            vec![F101::new(3), F101::new(5)],
        ],
    )
}

#[test]
fn from_rows_and_get() -> Result<(), Error> {
    let t = fib_trace()?;
    assert_eq!(t.row_count(), RowCount::new(4));
    assert_eq!(t.column_count(), ColumnCount::new(2));
    assert_eq!(t.get(0, Column::new(0))?, F101::new(1));
    assert_eq!(t.get(3, Column::new(1))?, F101::new(5));
    Ok(())
}

#[test]
fn empty_rows_fails() {
    let result = Trace::<F101>::from_rows(ColumnCount::new(2), &[]);
    assert!(result.is_err());
}

#[test]
fn wrong_row_length_fails() {
    let result = Trace::from_rows(
        ColumnCount::new(2),
        &[vec![F101::new(1), F101::new(2)], vec![F101::new(3)]],
    );
    assert!(result.is_err());
}

#[test]
fn column_values_extraction() -> Result<(), Error> {
    let t = fib_trace()?;
    let col0 = t.column_values(Column::new(0))?;
    assert_eq!(col0, vec![F101::new(1), F101::new(1), F101::new(2), F101::new(3)]);
    Ok(())
}

#[test]
fn row_pair_assignment_works() -> Result<(), Error> {
    let t = fib_trace()?;
    let assign = t.row_pair_assignment(1)?;
    // Current row 1: [1, 2], Next row 2: [2, 3]
    assert_eq!(assign.value(ColumnRef::Current(Column::new(0)))?, F101::new(1));
    assert_eq!(assign.value(ColumnRef::Current(Column::new(1)))?, F101::new(2));
    assert_eq!(assign.value(ColumnRef::Next(Column::new(0)))?, F101::new(2));
    assert_eq!(assign.value(ColumnRef::Next(Column::new(1)))?, F101::new(3));
    Ok(())
}

#[test]
fn row_pair_at_last_row_fails() -> Result<(), Error> {
    let t = fib_trace()?;
    // Row 3 is the last row; no "next" row exists.
    let result = t.row_pair_assignment(3);
    assert!(result.is_err());
    Ok(())
}

#[test]
fn errors_of_from_rows_are_exact() {
    match Trace::<F101>::from_rows(ColumnCount::new(2), &[]) {
        Err(Error::EmptyTrace) => {},
        other => panic!("unexpected result: {:?}", other),
    }
    match Trace::from_rows(
        ColumnCount::new(2),
        &[vec![F101::new(1), F101::new(2)], vec![F101::new(3)], vec![F101::new(4)]],
    ) {
        Err(Error::RowLengthMismatch { row, expected, actual }) => {
            assert_eq!((row, expected, actual), (1, 2, 1));
        },
        other => panic!("unexpected result: {:?}", other),
    }
}

#[test]
fn get_out_of_range_fails() -> Result<(), Error> {
    let t = fib_trace()?;
    match t.get(4, Column::new(0)) {
        Err(Error::ColumnOutOfBounds { index, column_count }) => assert_eq!((index, column_count), (0, 2)),
        other => panic!("unexpected result: {:?}", other),
    }
    match t.get(0, Column::new(2)) {
        Err(Error::ColumnOutOfBounds { index, column_count }) => assert_eq!((index, column_count), (2, 2)),
        other => panic!("unexpected result: {:?}", other),
    }
    assert!(t.column_values(Column::new(2)).is_err());
    Ok(())
}

#[test]
fn data_is_row_major() -> Result<(), Error> {
    let t = fib_trace()?;
    let expected: Vec<F101> = [1u64, 1, 1, 2, 2, 3, 3, 5].iter().map(|v| F101::new(*v)).collect();
    assert_eq!(t.data(), expected.as_slice());
    Ok(())
}

#[test]
fn last_row_pair_reads_last_row() -> Result<(), Error> {
    let t = fib_trace()?;
    let assign = t.row_pair_assignment(2)?;
    assert_eq!(assign.value(ColumnRef::Next(Column::new(1)))?, F101::new(5));
    match t.row_pair_assignment(usize::MAX) {
        Err(Error::InsufficientRows { row_count }) => assert_eq!(row_count, 4),
        other => panic!("unexpected result: {:?}", other.is_ok()),
    }
    Ok(())
}
