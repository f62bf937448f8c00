use autocmd::digits::{is_an_unsigned_integer, u64_to_dec};

#[test]
fn decimal_of_zero() {
    assert_eq!(u64_to_dec(0), "0");
}

#[test]
fn decimal_of_single_digit() {
    assert_eq!(u64_to_dec(7), "7");
}

#[test]
fn decimal_of_round_number() {
    assert_eq!(u64_to_dec(60), "60");
}

#[test]
fn decimal_of_many_digits() {
    assert_eq!(u64_to_dec(1234567890), "1234567890");
}

#[test]
fn decimal_of_largest() {
    assert_eq!(u64_to_dec(u64::MAX), "18446744073709551615");
}

#[test]
fn accepts_plain_number() {
    assert!(is_an_unsigned_integer(String::from("123")).is_ok());
}

#[test]
fn accepts_zero() {
    assert!(is_an_unsigned_integer(String::from("0")).is_ok());
}

#[test]
fn accepts_plus_sign() {
    assert!(is_an_unsigned_integer(String::from("+5")).is_ok());
}

#[test]
fn accepts_largest_value() {
    assert!(is_an_unsigned_integer(String::from("18446744073709551615")).is_ok());
}

#[test]
fn rejects_value_past_largest() {
    assert!(is_an_unsigned_integer(String::from("18446744073709551616")).is_err());
}

#[test]
fn rejects_empty() {
    assert!(is_an_unsigned_integer(String::new()).is_err());
}

#[test]
fn rejects_bare_plus() {
    assert!(is_an_unsigned_integer(String::from("+")).is_err());
}

#[test]
fn rejects_trailing_letter() {
    assert!(is_an_unsigned_integer(String::from("12a")).is_err());
}

#[test]
fn rejects_negative() {
    assert!(is_an_unsigned_integer(String::from("-3")).is_err());
}

#[test]
fn rejects_inner_space() {
    assert!(is_an_unsigned_integer(String::from("1 2")).is_err());
}

#[test]
fn rejection_message() {
    let r = is_an_unsigned_integer(String::from("abc"));
    assert_eq!(r.unwrap_err(), "the value must be a positive integer.");
}

#[test]
fn accepts_own_decimal_notation() {
    for n in [0u64, 1, 9, 10, 59, 60, 61, 1000, u64::MAX] {
        assert!(is_an_unsigned_integer(u64_to_dec(n)).is_ok());
    }
}
