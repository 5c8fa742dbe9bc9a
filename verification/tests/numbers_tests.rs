use deck::decimal::decimal;
use deck::page::page_name;

#[test]
fn single_digits() {
    assert_eq!(decimal(0), "0");
    assert_eq!(decimal(7), "7");
    assert_eq!(decimal(9), "9");
}

#[test]
fn several_digits() {
    assert_eq!(decimal(10), "10");
    assert_eq!(decimal(42), "42");
    assert_eq!(decimal(100), "100");
    assert_eq!(decimal(3000), "3000");
    assert_eq!(decimal(1234567890), "1234567890");
}

#[test]
fn decimal_agrees_with_the_standard_formatting() {
    for n in [0usize, 1, 9, 10, 11, 99, 100, 101, 999, 1000, 65535, 65536, usize::MAX] {
        assert_eq!(decimal(n), format!("{}", n));
    }
}

#[test]
fn page_names_are_the_number_and_the_suffix() {
    assert_eq!(page_name(1), "1.html");
    assert_eq!(page_name(2), "2.html");
    assert_eq!(page_name(10), "10.html");
    assert_eq!(page_name(123), "123.html");
}

#[test]
fn page_names_of_different_numbers_differ() {
    assert_ne!(page_name(1), page_name(10));
    assert_ne!(page_name(12), page_name(21));
}
