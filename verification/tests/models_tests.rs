use scrobblist::lastfm::error::AuthError;
use scrobblist::lastfm::models::{
    i64_from_number_or_string, optional_u32_from_number_or_string, u32_from_number_or_string,
    u64_from_number_or_string, NumberOrString,
};

#[test]
fn numbers_sent_as_numbers_or_strings() {
    assert_eq!(i64_from_number_or_string(NumberOrString::Number(-3)), Ok(-3));
    assert_eq!(i64_from_number_or_string(NumberOrString::Text("-3".to_string())), Ok(-3));
    assert_eq!(
        i64_from_number_or_string(NumberOrString::Text("x".to_string())),
        Err("invalid digit found in string".to_string())
    );
    assert_eq!(u64_from_number_or_string(NumberOrString::Text("12".to_string())), Ok(12));
    assert_eq!(
        u64_from_number_or_string(NumberOrString::Text("".to_string())),
        Err("cannot parse integer from empty string".to_string())
    );
    assert_eq!(u32_from_number_or_string(NumberOrString::Number(7)), Ok(7));
    assert_eq!(
        u32_from_number_or_string(NumberOrString::Number(4294967296)),
        Err("out of range integral type conversion attempted".to_string())
    );
    assert_eq!(
        u32_from_number_or_string(NumberOrString::Text("4294967296".to_string())),
        Err(u32::try_from(4294967296u64).unwrap_err().to_string())
    );
    assert_eq!(optional_u32_from_number_or_string(None), Ok(None));
    assert_eq!(optional_u32_from_number_or_string(Some(NumberOrString::Number(5))), Ok(Some(5)));
    assert_eq!(
        optional_u32_from_number_or_string(Some(NumberOrString::Text("4294967296".to_string()))),
        Err("number too large to fit in target type".to_string())
    );
}

#[test]
fn flow_error_messages() {
    assert_eq!(AuthError::Timeout.message(), "Authentication timed out");
    assert_eq!(AuthError::Http("x".to_string()).message(), "HTTP error: x");
    assert_eq!(AuthError::CallbackServer("p".to_string()).message(), "Callback server failed to start: p");
    assert_eq!(AuthError::InvalidCallback.message(), "Callback validation failed");
}
