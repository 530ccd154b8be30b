use scooter::text::{
    append_decimal, append_signed_decimal, append_spaces, concat2, concat3, decimal_len,
};

#[test]
fn decimal_numerals() {
    let mut s = String::from("n=");
    append_decimal(&mut s, 0);
    assert_eq!(s, "n=0");
    let mut s = String::new();
    append_decimal(&mut s, 7);
    append_decimal(&mut s, 10);
    append_decimal(&mut s, 1234567890);
    assert_eq!(s, "7101234567890");
    let mut s = String::new();
    append_decimal(&mut s, u64::MAX);
    assert_eq!(s, "18446744073709551615");
}

#[test]
fn signed_decimal_numerals() {
    let mut s = String::new();
    append_signed_decimal(&mut s, -12);
    assert_eq!(s, "-12");
    let mut s = String::new();
    append_signed_decimal(&mut s, i32::MIN);
    assert_eq!(s, "-2147483648");
    let mut s = String::new();
    append_signed_decimal(&mut s, i32::MAX);
    assert_eq!(s, "2147483647");
    let mut s = String::new();
    append_signed_decimal(&mut s, 0);
    assert_eq!(s, "0");
}

#[test]
fn number_of_digits() {
    assert_eq!(decimal_len(0), 1);
    assert_eq!(decimal_len(9), 1);
    assert_eq!(decimal_len(10), 2);
    assert_eq!(decimal_len(99), 2);
    assert_eq!(decimal_len(100), 3);
    assert_eq!(decimal_len(u64::MAX), 20);
}

#[test]
fn spaces_and_concatenation() {
    let mut s = String::from("a");
    append_spaces(&mut s, 3);
    append_spaces(&mut s, 0);
    assert_eq!(s, "a   ");
    assert_eq!(concat2("ab", "cd"), "abcd");
    assert_eq!(concat3("a", "", "c"), "ac");
}
