use clock_roles::text::{decimal, digit_str, join_lines, same_text, two_digits};

#[test]
fn digit_str_gives_each_digit() {
    let expected = ["0", "1", "2", "3", "4", "5", "6", "7", "8", "9"];
    for d in 0..10u32 {
        assert_eq!(digit_str(d), expected[d as usize]);
    }
}

#[test]
fn two_digits_pads_with_a_zero() {
    assert_eq!(two_digits(0), "00");
    assert_eq!(two_digits(7), "07");
    assert_eq!(two_digits(9), "09");
}

#[test]
fn two_digits_keeps_two_digit_numbers() {
    assert_eq!(two_digits(10), "10");
    assert_eq!(two_digits(23), "23");
    assert_eq!(two_digits(59), "59");
    assert_eq!(two_digits(99), "99");
}

#[test]
fn decimal_of_zero_is_one_digit() {
    assert_eq!(decimal(0), "0");
}

#[test]
fn decimal_writes_every_digit_in_order() {
    assert_eq!(decimal(9), "9");
    assert_eq!(decimal(10), "10");
    assert_eq!(decimal(101), "101");
    assert_eq!(decimal(12345), "12345");
    assert_eq!(decimal(9_876_543_210), "9876543210");
}

#[test]
fn decimal_agrees_with_the_standard_library() {
    for n in [1usize, 42, 999, 1000, 65_535, usize::MAX] {
        assert_eq!(decimal(n), n.to_string());
    }
}

#[test]
fn join_lines_of_nothing_is_empty() {
    assert_eq!(join_lines(&Vec::new()), "");
}

#[test]
fn join_lines_of_one_line_is_that_line() {
    assert_eq!(join_lines(&vec!["UTC".to_string()]), "UTC");
}

#[test]
fn join_lines_puts_a_line_feed_between_lines() {
    let lines = vec!["UTC".to_string(), "Asia/Tokyo".to_string(), "Europe/Paris".to_string()];
    assert_eq!(join_lines(&lines), "UTC\nAsia/Tokyo\nEurope/Paris");
}

#[test]
fn join_lines_keeps_empty_lines() {
    let lines = vec!["".to_string(), "a".to_string(), "".to_string()];
    assert_eq!(join_lines(&lines), "\na\n");
}

#[test]
fn same_text_compares_characters() {
    assert!(same_text("all", "all"));
    assert!(!same_text("all", "All"));
    assert!(!same_text("all", "all "));
    assert!(same_text("", ""));
}
