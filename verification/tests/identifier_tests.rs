use kvhooks::identifier::check_identifier;
use kvhooks::identifier::format_identifier;
use kvhooks::identifier::IdentCheck;

#[test]
fn valid_identifier_accepted() {
    assert_eq!(check_identifier("52998224725"), IdentCheck::Valid);
}

#[test]
fn repeated_digits_rejected() {
    assert_eq!(check_identifier("11111111111"), IdentCheck::RepeatedDigits);
    assert_eq!(check_identifier("00000000000"), IdentCheck::RepeatedDigits);
}

#[test]
fn wrong_first_check_digit_rejected() {
    assert_eq!(check_identifier("52998224735"), IdentCheck::WrongCheckDigit);
}

#[test]
fn wrong_second_check_digit_rejected() {
    assert_eq!(check_identifier("52998224724"), IdentCheck::WrongCheckDigit);
}

#[test]
fn non_digit_rejected() {
    assert_eq!(check_identifier("5299822472a"), IdentCheck::NotDigits);
    assert_eq!(check_identifier(""), IdentCheck::NotDigits);
    assert_eq!(check_identifier("529.982.247"), IdentCheck::NotDigits);
}

#[test]
fn wrong_length_rejected() {
    assert_eq!(check_identifier("1234567890"), IdentCheck::WrongLength);
    assert_eq!(check_identifier("123456789012"), IdentCheck::WrongLength);
}

#[test]
fn check_digit_overflow_maps_to_zero() {
    // The weighted sum of the first nine digits leaves 11 - (sum mod 11) at
    // 10 or 11, which the scheme maps to a zero check digit.
    assert_eq!(check_identifier("94208093900"), IdentCheck::Valid);
    assert_eq!(format_identifier("94208093900"), "942.080.939-00");
}

#[test]
fn grouped_format() {
    assert_eq!(format_identifier("52998224725"), "529.982.247-25");
}
