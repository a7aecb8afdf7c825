use pueue::text::{format_ids, to_decimal};

#[test]
fn decimal_of_zero_is_one_digit() {
    assert_eq!(to_decimal(0), "0");
}

#[test]
fn decimal_has_no_leading_zeros() {
    assert_eq!(to_decimal(7), "7");
    assert_eq!(to_decimal(10), "10");
    assert_eq!(to_decimal(1234567890), "1234567890");
    assert_eq!(to_decimal(usize::MAX), format!("{}", usize::MAX));
}

#[test]
fn id_lists_are_written_in_brackets() {
    assert_eq!(format_ids(&vec![]), "[]");
    assert_eq!(format_ids(&vec![3]), "[3]");
    assert_eq!(format_ids(&vec![0, 1, 20]), "[0, 1, 20]");
    assert_eq!(format_ids(&vec![2, 0, 2]), format!("{:?}", vec![2usize, 0, 2]));
}
