use vault_identity::request::{
    deserialize_trimmed_i32_opt, deserialize_truthy_i32_opt, PushTokenRequest,
};
use vault_identity::text::IntParseError;

fn trimmed(s: &str) -> Result<Option<i32>, IntParseError> {
    deserialize_trimmed_i32_opt(Some(s.to_string()))
}

fn truthy(s: &str) -> Result<Option<i32>, IntParseError> {
    deserialize_truthy_i32_opt(Some(s.to_string()))
}

#[test]
fn a_missing_field_says_nothing() {
    assert_eq!(deserialize_trimmed_i32_opt(None), Ok(None));
    assert_eq!(deserialize_truthy_i32_opt(None), Ok(None));
}

#[test]
fn a_blank_field_says_nothing() {
    for s in ["", " ", "\t\n", "\u{3000}"] {
        assert_eq!(trimmed(s), Ok(None));
        assert_eq!(truthy(s), Ok(None));
    }
}

#[test]
fn an_integer_field_is_read_with_white_space_aside() {
    assert_eq!(trimmed("5"), Ok(Some(5)));
    assert_eq!(trimmed(" 0 "), Ok(Some(0)));
    assert_eq!(trimmed("\t-12\n"), Ok(Some(-12)));
    assert_eq!(trimmed("+9"), Ok(Some(9)));
    assert_eq!(trimmed(" 2147483647"), Ok(Some(i32::MAX)));
    assert_eq!(trimmed("-2147483648 "), Ok(Some(i32::MIN)));
}

#[test]
fn a_field_that_is_no_integer_is_refused() {
    assert_eq!(trimmed("true"), Err(IntParseError::InvalidDigit));
    assert_eq!(trimmed("1 2"), Err(IntParseError::InvalidDigit));
    assert_eq!(trimmed("2147483648"), Err(IntParseError::PosOverflow));
    assert_eq!(trimmed("-2147483649"), Err(IntParseError::NegOverflow));
    assert_eq!(truthy("yes"), Err(IntParseError::InvalidDigit));
    assert_eq!(truthy("tRUE"), Err(IntParseError::InvalidDigit));
    assert_eq!(truthy("99999999999"), Err(IntParseError::PosOverflow));
    assert_eq!(truthy("-99999999999"), Err(IntParseError::NegOverflow));
}

#[test]
fn words_for_yes_and_no_stand_for_one_and_zero() {
    for s in ["1", "true", "True", "TRUE", " true ", "\nTRUE"] {
        assert_eq!(truthy(s), Ok(Some(1)));
    }
    for s in ["0", "false", "False", "FALSE", " false ", "False\t"] {
        assert_eq!(truthy(s), Ok(Some(0)));
    }
    assert_eq!(truthy(" 7 "), Ok(Some(7)));
    assert_eq!(truthy("-1"), Ok(Some(-1)));
    assert_eq!(truthy("01"), Ok(Some(1)));
}

#[test]
fn words_only_add_to_what_integer_fields_read() {
    for s in ["1", "0", "2", "-3", " 4 ", "", " ", "+1", "00"] {
        assert_eq!(truthy(s), trimmed(s));
    }
}

#[test]
fn a_push_token_is_a_text() {
    let request = PushTokenRequest { push_token: "abc".to_string() };
    assert_eq!(request.push_token, "abc");
}
