use leptos_struct_table::{FieldGetter, Record, TableRow};

#[test]
fn record_has_the_identity_it_was_given() {
    let row = Record::new(42, vec![1, 2, 3]);
    assert_eq!(row.identity(), 42);
    assert_eq!(row.cell(0), Some(1));
    assert_eq!(row.cell(2), Some(3));
    assert_eq!(row.cell(3), None);
}

#[test]
fn record_with_cell_writes_one_column_of_a_copy() {
    let row = Record::new(42, vec![1, 2, 3]);
    let edited = row.with_cell(1, -9);
    assert_eq!(edited.id, 42);
    assert_eq!(edited.cells, vec![1, -9, 3]);
    assert_eq!(row.cells, vec![1, 2, 3]);
}

#[test]
fn record_with_cell_of_a_missing_column_is_a_plain_copy() {
    let row = Record::new(42, vec![1, 2, 3]);
    let edited = row.with_cell(3, -9);
    assert_eq!(edited.id, 42);
    assert_eq!(edited.cells, vec![1, 2, 3]);
    let empty = Record::new(1, vec![]).with_cell(0, 5);
    assert!(empty.cells.is_empty());
}

#[test]
fn field_getters_of_one_type_are_all_equal() {
    let a: FieldGetter<String> = FieldGetter::default();
    let b: FieldGetter<String> = FieldGetter::default();
    assert_eq!(a, b);
    assert_eq!(a.clone(), b);
    assert!(a <= b);
    let c: FieldGetter<u32> = FieldGetter::default();
    let d = c;
    assert_eq!(c, d);
}
