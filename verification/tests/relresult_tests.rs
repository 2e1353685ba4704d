use mentat::relresult::RelResult;
use mentat::values::TypedValue;

type StructuredRelResult = RelResult<TypedValue>;

#[test]
fn test_rel_result() {
    let empty = StructuredRelResult::empty(3);
    let unit = StructuredRelResult { width: 1, values: vec![TypedValue::Long(5)] };
    let two_by_two = StructuredRelResult {
        width: 2,
        values: vec![
            TypedValue::Long(5),
            TypedValue::Boolean(true),
            TypedValue::Long(-2),
            TypedValue::Boolean(false),
        ],
    };

    assert!(empty.is_empty());
    assert!(!unit.is_empty());
    assert!(!two_by_two.is_empty());

    assert_eq!(empty.row_count(), 0);
    assert_eq!(unit.row_count(), 1);
    assert_eq!(two_by_two.row_count(), 2);

    assert_eq!(empty.row(0), None);
    assert_eq!(unit.row(1), None);
    assert_eq!(two_by_two.row(2), None);

    assert_eq!(unit.row(0), Some(vec![TypedValue::Long(5)].as_slice()));
    assert_eq!(two_by_two.row(0), Some(vec![TypedValue::Long(5), TypedValue::Boolean(true)].as_slice()));
    assert_eq!(two_by_two.row(1), Some(vec![TypedValue::Long(-2), TypedValue::Boolean(false)].as_slice()));

    let rows = two_by_two.rows();
    let mut rr = rows.into_iter();
    assert_eq!(rr.next(), Some(vec![TypedValue::Long(5), TypedValue::Boolean(true)].as_slice()));
    assert_eq!(rr.next(), Some(vec![TypedValue::Long(-2), TypedValue::Boolean(false)].as_slice()));
    assert_eq!(rr.next(), None);
}

#[test]
fn rows_of_a_ragged_result() {
    let ragged = RelResult { width: 2, values: vec![1, 2, 3, 4, 5] };
    assert_eq!(ragged.row_count(), 2);
    let rows = ragged.rows();
    assert_eq!(rows, vec![&[1, 2][..], &[3, 4][..], &[5][..]]);
    assert_eq!(ragged.row(1), Some(&[3, 4][..]));
    assert_eq!(ragged.row(2), None);
    assert_eq!(ragged.row(usize::MAX), None);

    let no_width: RelResult<i32> = RelResult { width: 0, values: vec![1] };
    assert_eq!(no_width.row(7), Some(&[][..]));
}

#[test]
fn rows_are_taken_one_by_one() {
    let result = RelResult::from_rows(vec![vec![1, 2], vec![3, 4], vec![5]]);
    assert_eq!(result.width, 2);
    assert_eq!(result.values, vec![1, 2, 3, 4, 5]);
    let mut it = result.into_iter();
    assert_eq!(it.next(), Some(vec![1, 2]));
    assert_eq!(it.next(), Some(vec![3, 4]));
    assert_eq!(it.next(), Some(vec![5]));
    assert_eq!(it.next(), None);
    assert_eq!(it.next(), None);

    let none: RelResult<i32> = RelResult::from_rows(vec![]);
    assert_eq!(none.width, 0);
    assert!(none.is_empty());
    let mut it = none.into_iter();
    assert_eq!(it.next(), None);
}
