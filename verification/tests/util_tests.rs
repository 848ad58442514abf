use exifrename::util::get_usize_len;

#[test]
fn width_of_zero_is_zero() {
    assert_eq!(get_usize_len(0), 0);
}

#[test]
fn width_counts_decimal_digits() {
    assert_eq!(get_usize_len(1), 1);
    assert_eq!(get_usize_len(9), 1);
    assert_eq!(get_usize_len(10), 2);
    assert_eq!(get_usize_len(99), 2);
    assert_eq!(get_usize_len(100), 3);
    assert_eq!(get_usize_len(12345), 5);
}
