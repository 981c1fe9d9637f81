use fake::faker::internet::en::SafeEmail;
use fake::Fake;
use newsletter::domain::SubscriberEmail;
use newsletter::domain::SubscriberName;

#[test]
fn empty_email_is_rejected() {
    let a = "".to_string();
    assert!(SubscriberEmail::parse(a).is_err());
}

#[test]
fn missing_email_symbol_is_rejected() {
    let a = "domain.com".to_string();
    assert!(SubscriberEmail::parse(a).is_err());
}

#[test]
fn missing_email_subject_is_rejected() {
    let a = "@domain.com".to_string();
    assert!(SubscriberEmail::parse(a).is_err());
}

#[test]
fn valid_email_is_passes_successfully() {
    for _ in 0..100 {
        let a: String = SafeEmail().fake();
        assert!(SubscriberEmail::parse(a).is_ok());
    }
}

#[test]
fn a_256_grapheme_long_name_is_valid() {
    let a = "a".repeat(256);
    assert!(SubscriberName::parse(a).is_ok());
}

#[test]
fn a_name_longer_then_256_is_rejected() {
    let a = "a".repeat(257);
    assert!(SubscriberName::parse(a).is_err());
}

#[test]
fn whitespace_only_names_are_rejected() {
    let a = " ".repeat(256);
    assert!(SubscriberName::parse(a).is_err());
}

#[test]
fn empty_string_is_rejected() {
    let a = "".to_string();
    assert!(SubscriberName::parse(a).is_err());
}

#[test]
fn name_containing_a_invalid_char_is_rejected() {
    for char in &['/', '(', ')', '<', '>', '\\', '{', '}'] {
        let name = char.to_string();
        assert!(SubscriberName::parse(name).is_err());
    }
}

#[test]
fn a_valid_name_is_successful() {
    let name = "Kunal Singh".to_string();
    assert!(SubscriberName::parse(name).is_ok());
}

#[test]
fn email_error_message_names_the_address() {
    let e = SubscriberEmail::parse("nonsense".to_string()).unwrap_err();
    assert_eq!(e, "nonsense is not a valid email");
}

#[test]
fn name_error_message_names_the_input() {
    let e = SubscriberName::parse("{}".to_string()).unwrap_err();
    assert_eq!(e, "{} is not a valid subscriber name");
}

#[test]
fn accepted_email_keeps_its_characters() {
    let e = SubscriberEmail::parse("someone@example.com".to_string()).unwrap();
    assert_eq!(e.as_str(), "someone@example.com");
}

#[test]
fn accepted_name_keeps_its_characters() {
    let n = SubscriberName::parse("Ursula K. Le Guin".to_string()).unwrap();
    assert_eq!(n.as_str(), "Ursula K. Le Guin");
}
