use machine_cat::{Column, ColumnCount, ColumnRef, RowCount, StepCount};

#[test]
fn column_count_tensor_is_addition() {
    let a = ColumnCount::new(3);
    let b = ColumnCount::new(4);
    assert_eq!(a.tensor(b), ColumnCount::new(7));
    assert_eq!(a + b, ColumnCount::new(7));
}

#[test]
fn column_ref_accessors() {
    let curr = ColumnRef::Current(Column::new(2));
    assert!(curr.is_current());
    assert!(!curr.is_next());
    assert_eq!(curr.column(), Column::new(2));

    let next = ColumnRef::Next(Column::new(5));
    assert!(next.is_next());
    assert!(!next.is_current());
    assert_eq!(next.column(), Column::new(5));
}

#[test]
fn column_display() {
    assert_eq!(Column::new(3).to_text(), "c3");
}

#[test]
fn column_ref_display() {
    assert_eq!(ColumnRef::Current(Column::new(0)).to_text(), "curr.c0");
    assert_eq!(ColumnRef::Next(Column::new(1)).to_text(), "next.c1");
}

#[test]
fn column_index_roundtrip() {
    assert_eq!(Column::new(0).index(), 0);
    assert_eq!(Column::new(17).index(), 17);
}

#[test]
fn tensor_zero_is_unit() {
    let c = ColumnCount::new(9);
    assert_eq!(ColumnCount::zero().tensor(c), c);
    assert_eq!(c.tensor(ColumnCount::zero()), c);
    assert_eq!(ColumnCount::zero().count(), 0);
}

#[test]
fn tensor_is_associative_and_commutative() {
    let a = ColumnCount::new(2);
    let b = ColumnCount::new(3);
    let c = ColumnCount::new(5);
    assert_eq!(a.tensor(b).tensor(c), a.tensor(b.tensor(c)));
    assert_eq!(a.tensor(b), b.tensor(a));
}

#[test]
fn multi_digit_texts() {
    assert_eq!(Column::new(1234).to_text(), "c1234");
    assert_eq!(ColumnRef::Next(Column::new(40)).to_text(), "next.c40");
    assert_eq!(ColumnCount::new(105).to_text(), "105");
    assert_eq!(RowCount::new(0).to_text(), "0");
    assert_eq!(RowCount::new(usize::MAX).to_text(), usize::MAX.to_string());
}

#[test]
fn count_newtypes_roundtrip() {
    assert_eq!(RowCount::new(8).count(), 8);
    assert_eq!(StepCount::new(7).count(), 7);
    assert_eq!(ColumnCount::new(2).count(), 2);
}
