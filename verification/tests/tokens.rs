use auth::app_error::AppErrorType;
use auth::logic::{CaptchaAnswer, CaptchaID, FieldValidationError, URLToken};
use auth::tasks::Keyable;
use uuid::Uuid;

fn alnum(n: usize) -> String {
    "aZ09bY18cX".chars().cycle().take(n).collect()
}

#[test]
fn a_url_token_is_150_ascii_letters_and_digits() {
    let text = alnum(150);
    let token = URLToken::parse(text.clone()).unwrap();
    assert_eq!(token.as_str(), text);
}

#[test]
fn a_url_token_of_another_length_is_invalid() {
    for n in [0, 1, 149, 151, 300] {
        assert!(matches!(
            URLToken::parse(alnum(n)),
            Err(FieldValidationError::InvalidUrlToken)
        ));
    }
}

#[test]
fn a_url_token_with_another_character_is_invalid() {
    for bad in ['-', '_', ' ', '\n', 'é', '☃', '/', '\u{0}'] {
        let mut text = alnum(149);
        text.push(bad);
        assert_eq!(text.chars().count(), 150);
        assert!(matches!(URLToken::parse(text), Err(FieldValidationError::InvalidUrlToken)));
        let mut text = String::new();
        text.push(bad);
        text.push_str(&alnum(149));
        assert!(matches!(URLToken::parse(text), Err(FieldValidationError::InvalidUrlToken)));
    }
}

#[test]
fn a_url_token_is_not_normalised() {
    let lower = alnum(150).to_lowercase();
    let token = URLToken::parse(lower.clone()).unwrap();
    assert_eq!(token.as_str(), lower);
    assert_ne!(token.as_str(), alnum(150));
}

#[test]
fn a_generated_url_token_parses() {
    for _ in 0..20 {
        let token = URLToken::generate();
        assert_eq!(token.as_str().len(), 150);
        assert!(token.as_str().chars().all(|c| c.is_ascii_alphanumeric()));
        assert!(URLToken::parse(token.as_str().to_string()).is_ok());
    }
}

#[test]
fn generated_url_tokens_differ() {
    assert_ne!(URLToken::generate().as_str(), URLToken::generate().as_str());
}

#[test]
fn a_url_token_is_taken_from_the_store_as_it_is() {
    assert_eq!(URLToken::from_str_no_validate("anything".to_string()).as_str(), "anything");
    assert_eq!(URLToken::from_stored("x y".to_string()).to_stored(), "x y");
}

#[test]
fn a_captcha_id_is_a_uuid() {
    let text = "550e8400-e29b-41d4-a716-446655440000".to_string();
    assert_eq!(CaptchaID::parse(text.clone()).unwrap().as_str(), text);
    // the other forms the parser takes are kept as they were written
    let simple = "550e8400e29b41d4a716446655440000".to_string();
    assert_eq!(CaptchaID::parse(simple.clone()).unwrap().as_str(), simple);
    let upper = "550E8400-E29B-41D4-A716-446655440000".to_string();
    assert_eq!(CaptchaID::parse(upper.clone()).unwrap().as_str(), upper);
}

#[test]
fn what_is_no_uuid_is_no_captcha_id() {
    for bad in ["", "not-a-uuid", "550e8400-e29b-41d4-a716-44665544000", "550e8400-e29b-41d4-a716-44665544000g"] {
        match CaptchaID::parse(bad.to_string()) {
            Err(e) => {
                assert!(matches!(
                    e.error_type,
                    AppErrorType::ValidationError(FieldValidationError::InvalidCaptchaID)
                ));
                assert!(e.msg.is_none());
            }
            Ok(_) => panic!("{:?} was taken for a captcha id", bad),
        }
    }
}

#[test]
fn a_captcha_id_made_of_a_uuid_is_its_hyphenated_text() {
    let uuid = Uuid::parse_str("550e8400-e29b-41d4-a716-446655440000").unwrap();
    let id = CaptchaID::from_uuid(uuid.as_u128());
    assert_eq!(id.as_str(), "550e8400-e29b-41d4-a716-446655440000");
    assert_eq!(CaptchaID::from_uuid(0).as_str(), "00000000-0000-0000-0000-000000000000");
    assert_eq!(CaptchaID::from_uuid(u128::MAX).as_str(), "ffffffff-ffff-ffff-ffff-ffffffffffff");
    let random = Uuid::new_v4();
    let id = CaptchaID::from_uuid(random.as_u128());
    assert_eq!(id.as_str(), random.to_string());
    assert!(CaptchaID::parse(id.as_str().to_string()).is_ok());
}

#[test]
fn a_captcha_id_is_taken_from_the_store_as_it_is() {
    assert_eq!(CaptchaID::from_str("whatever".to_string()).as_str(), "whatever");
    assert_eq!(CaptchaID::from_stored("k".to_string()).to_stored(), "k");
}

#[test]
fn a_captcha_answer_is_4_to_6_ascii_letters_and_digits() {
    for good in ["abcd", "ABCDE", "a1B2c3", "0000"] {
        assert_eq!(CaptchaAnswer::parse(good.to_string()).unwrap().as_str(), good);
    }
    for bad in ["", "abc", "abcdefg", "ab d", "ab-d", "abcé", "éé", "ab\ncd"] {
        assert!(matches!(
            CaptchaAnswer::parse(bad.to_string()),
            Err(FieldValidationError::InvalidCaptchaAnswer)
        ));
    }
}

#[test]
fn captcha_answers_are_compared_exactly() {
    let a = CaptchaAnswer::from_str("AbCd".to_string());
    assert!(a.same_as(&CaptchaAnswer::from_str("AbCd".to_string())));
    assert!(!a.same_as(&CaptchaAnswer::from_str("abcd".to_string())));
    assert!(!a.same_as(&CaptchaAnswer::from_str("AbCd ".to_string())));
    assert!(a.same_as(&a.clone()));
}

#[test]
fn captcha_answers_are_equal_if_their_texts_are() {
    let a = CaptchaAnswer::from_str("AbCd".to_string());
    assert!(a == CaptchaAnswer::from_str("AbCd".to_string()));
    assert!(a != CaptchaAnswer::from_str("abcd".to_string()));
    assert!(a != CaptchaAnswer::from_str("AbC".to_string()));
}

#[test]
fn a_token_is_made_of_the_bytes_that_were_drawn() {
    let drawn: Vec<u8> = b"aZ09bY18cX".iter().copied().cycle().take(150).collect();
    let token = URLToken::from_drawn(drawn.clone());
    assert_eq!(token.as_str().as_bytes(), drawn.as_slice());
    let other: Vec<u8> = b"Q7".iter().copied().cycle().take(150).collect();
    assert_eq!(URLToken::from_drawn(other).as_str(), "Q7".repeat(75));
}

#[test]
fn a_generated_url_token_is_not_one_letter_over_and_over() {
    let token = URLToken::generate();
    let first = token.as_str().chars().next().unwrap();
    assert!(token.as_str().chars().any(|c| c != first));
}
