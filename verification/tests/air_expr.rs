use machine_cat::{AirExpr, Column, Error, PrimeField, RowValues, F101};

fn two_col_assignment(curr: Vec<F101>, next: Vec<F101>) -> RowValues<F101> {
    RowValues::new(curr, next)
}

#[test]
fn constant_evaluates_to_itself() -> Result<(), Error> {
    let e = AirExpr::constant(F101::new(42));
    let assign = two_col_assignment(vec![], vec![]);
    assert_eq!(e.evaluate(&assign)?, F101::new(42));
    Ok(())
}

#[test]
fn current_ref_evaluates() -> Result<(), Error> {
    let e = AirExpr::current(Column::new(1));
    let assign = two_col_assignment(
        vec![F101::new(10), F101::new(20)],
        vec![F101::new(30), F101::new(40)],
    );
    assert_eq!(e.evaluate(&assign)?, F101::new(20));
    Ok(())
}

#[test]
fn next_ref_evaluates() -> Result<(), Error> {
    let e = AirExpr::next(Column::new(0));
    let assign = two_col_assignment(
        vec![F101::new(10), F101::new(20)],
        vec![F101::new(30), F101::new(40)],
    );
    assert_eq!(e.evaluate(&assign)?, F101::new(30));
    Ok(())
}

#[test]
fn arithmetic_works() -> Result<(), Error> {
    // next_b - current_a - current_b = 0
    // With curr = [3, 5], next = [5, 8]: 8 - 3 - 5 = 0
    let current_a = AirExpr::current(Column::new(0));
    let current_b = AirExpr::current(Column::new(1));
    let next_b = AirExpr::next(Column::new(1));
    let expr = next_b - current_a - current_b;

    let assign = two_col_assignment(
        vec![F101::new(3), F101::new(5)],
        vec![F101::new(5), F101::new(8)],
    );
    assert_eq!(expr.evaluate(&assign)?, F101::zero());
    Ok(())
}

#[test]
fn product_evaluates() -> Result<(), Error> {
    // current_a * current_b = 3 * 5 = 15
    let expr = AirExpr::current(Column::new(0)) * AirExpr::current(Column::new(1));
    let assign = two_col_assignment(vec![F101::new(3), F101::new(5)], vec![]);
    assert_eq!(expr.evaluate(&assign)?, F101::new(15));
    Ok(())
}

#[test]
fn out_of_bounds_column_fails() {
    let e = AirExpr::current(Column::new(5));
    let assign = two_col_assignment(vec![F101::new(1)], vec![]);
    assert!(e.evaluate(&assign).is_err());
}

#[test]
fn arithmetic_wraps_modulo_101() -> Result<(), Error> {
    // 60 + 50 = 110 = 9 (mod 101); 20 * 30 = 600 = 95 (mod 101); -1 = 100.
    let assign = two_col_assignment(vec![F101::new(60), F101::new(50)], vec![F101::new(20), F101::new(30)]);
    let sum = AirExpr::current(Column::new(0)) + AirExpr::current(Column::new(1));
    assert_eq!(sum.evaluate(&assign)?, F101::new(9));
    let product = AirExpr::next(Column::new(0)) * AirExpr::next(Column::new(1));
    assert_eq!(product.evaluate(&assign)?, F101::new(95));
    let negated = -AirExpr::constant(F101::new(1));
    assert_eq!(negated.evaluate(&assign)?, F101::new(100));
    let difference = AirExpr::constant(F101::new(3)) - AirExpr::constant(F101::new(5));
    assert_eq!(difference.evaluate(&assign)?.value(), 99);
    Ok(())
}

#[test]
fn out_of_bounds_error_names_the_column() {
    let e = AirExpr::constant(F101::new(1)) + AirExpr::next(Column::new(3));
    let assign = two_col_assignment(vec![F101::new(1)], vec![F101::new(2), F101::new(3)]);
    match e.evaluate(&assign) {
        Err(Error::ColumnOutOfBounds { index, column_count }) => {
            assert_eq!(index, 3);
            assert_eq!(column_count, 2);
        },
        other => panic!("unexpected result: {:?}", other),
    }
}

#[test]
fn first_error_wins() {
    // The left operand is evaluated first.
    let e = AirExpr::current(Column::new(7)) * AirExpr::next(Column::new(9));
    let assign = two_col_assignment(vec![F101::new(1)], vec![]);
    match e.evaluate(&assign) {
        Err(Error::ColumnOutOfBounds { index, column_count }) => {
            assert_eq!(index, 7);
            assert_eq!(column_count, 1);
        },
        other => panic!("unexpected result: {:?}", other),
    }
}

#[test]
fn field_element_new_reduces() {
    assert_eq!(F101::new(103), F101::new(2));
    assert_eq!(F101::new(101).value(), 0);
    assert!(F101::zero().is_zero());
    assert!(!F101::new(5).is_zero());
}
