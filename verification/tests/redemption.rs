use auth::app_error::{AppError, AppErrorType};
use auth::logic::{
    Captcha, CaptchaAnswer, CaptchaFields, CaptchaID, ConfirmEmail, CreateUserError, Email,
    FieldValidationError, URLToken,
};
use auth::store::MemoryHash;

fn is_invalid_token(e: &AppError) -> bool {
    matches!(e.error_type, AppErrorType::ValidationError(FieldValidationError::InvalidUrlToken))
        && e.msg.is_none()
}

fn email() -> Email {
    Email::parse("ursula@example.com".to_string()).unwrap()
}

#[test]
fn an_issued_token_names_the_record_of_its_email() {
    let mut store = MemoryHash::new();
    let token = URLToken::store_user_fields_at(&mut store, &email(), 1700000000).unwrap();
    assert_eq!(token.as_str().len(), 150);
    assert_eq!(store.len(), 1);
    assert_eq!(
        store.get_one(token.as_str()),
        Some(r#"{"email":"ursula@example.com","timestamp":1700000000}"#.to_string())
    );
}

#[test]
fn a_token_is_issued_with_the_time_of_the_clock() {
    let mut store = MemoryHash::new();
    let before = chrono::Utc::now().timestamp();
    let token = loop {
        if let Some(token) = URLToken::store_user_fields_to_redis(&mut store, &email()) {
            break token;
        }
    };
    let after = chrono::Utc::now().timestamp();
    let record = ConfirmEmail::from_json_str(&store.get_one(token.as_str()).unwrap()).unwrap();
    assert_eq!(record.email.as_str(), "ursula@example.com");
    assert!(before <= record.timestamp && record.timestamp <= after);
}

#[test]
fn a_candidate_is_issued_only_if_the_store_took_it() {
    let (token, fields) = URLToken::candidate(&email(), 5);
    assert_eq!(fields, r#"{"email":"ursula@example.com","timestamp":5}"#);
    let text = token.as_str().to_string();
    assert!(token.issued(0).is_none());
    let (token, _) = URLToken::candidate(&email(), 5);
    let text2 = token.as_str().to_string();
    assert_eq!(token.issued(1).unwrap().as_str(), text2);
    assert_ne!(text, text2);
}

#[test]
fn a_token_is_redeemed_once() {
    let mut store = MemoryHash::new();
    let token = URLToken::store_user_fields_at(&mut store, &email(), 1700000000).unwrap();
    let other = URLToken::store_user_fields_at(&mut store, &email(), 1700000001).unwrap();

    let record = token.get_associated_redis_fields(&mut store).unwrap();
    assert_eq!(record.email.as_str(), "ursula@example.com");
    assert_eq!(record.timestamp, 1700000000);
    assert_eq!(store.len(), 1);
    assert_eq!(store.get_one(token.as_str()), None);

    // the second redemption finds nothing and fails as an invalid token
    let again = token.get_associated_redis_fields(&mut store).unwrap_err();
    assert!(is_invalid_token(&again));
    let third = token.get_associated_redis_fields(&mut store).unwrap_err();
    assert!(is_invalid_token(&third));

    // the other token is untouched by all this
    assert_eq!(store.len(), 1);
    assert_eq!(other.get_associated_redis_fields(&mut store).unwrap().timestamp, 1700000001);
    assert_eq!(store.len(), 0);
}

#[test]
fn a_token_that_was_never_issued_is_invalid() {
    let mut store = MemoryHash::new();
    URLToken::store_user_fields_at(&mut store, &email(), 1).unwrap();
    let stranger = URLToken::generate();
    let e = stranger.get_associated_redis_fields(&mut store).unwrap_err();
    assert!(is_invalid_token(&e));
    assert_eq!(store.len(), 1);
}

#[test]
fn a_token_whose_entry_is_no_record_is_invalid_and_its_entry_stays() {
    let mut store = MemoryHash::new();
    let token = URLToken::generate();
    assert!(store.insert_if_absent(token.as_str(), "garbage"));
    let e = token.get_associated_redis_fields(&mut store).unwrap_err();
    assert!(is_invalid_token(&e));
    assert_eq!(store.get_one(token.as_str()), Some("garbage".to_string()));
}

#[test]
fn what_a_read_found_is_the_record_or_an_invalid_token() {
    let found = Some(r#"{"email":"a@b.cd","timestamp":3}"#.to_string());
    let record = URLToken::confirmation_from(found).unwrap();
    assert_eq!(record.email.as_str(), "a@b.cd");
    assert_eq!(record.timestamp, 3);
    assert!(is_invalid_token(&URLToken::confirmation_from(None).unwrap_err()));
    assert!(is_invalid_token(
        &URLToken::confirmation_from(Some("nil".to_string())).unwrap_err()
    ));
}

#[test]
fn an_expired_token_cannot_be_redeemed_after_the_reaper_has_passed() {
    let mut store = MemoryHash::new();
    let now = 1_700_000_000;
    let token = URLToken::store_user_fields_at(&mut store, &email(), now).unwrap();
    let settings = auth::config::Task1Settings { expiry_time: 1, deletion_bulk_count: 5 };
    let (mut store, report) = auth::server::start_redis_fields_deletion_task(
        store,
        settings,
        settings,
        "email",
        now + 3,
    )
    .unwrap();
    assert_eq!(report.batches, vec![1]);
    assert_eq!(store.get_one(token.as_str()), None);
    assert!(is_invalid_token(&token.get_associated_redis_fields(&mut store).unwrap_err()));
}

fn stored_captcha(store: &mut MemoryHash, answer: &str) -> CaptchaID {
    let id = CaptchaID::from_uuid(uuid::Uuid::new_v4().as_u128());
    let fields =
        CaptchaFields::json_string(CaptchaAnswer::from_str(answer.to_string()), 10).unwrap();
    assert!(store.insert_if_absent(id.as_str(), &fields));
    id
}

fn is_invalid_captcha_id(e: &AppError) -> bool {
    matches!(e.error_type, AppErrorType::ValidationError(FieldValidationError::InvalidCaptchaID))
        && e.msg.is_none()
}

#[test]
fn the_right_captcha_answer_is_taken_once() {
    let mut store = MemoryHash::new();
    let id = stored_captcha(&mut store, "aB3d");
    let answer = CaptchaAnswer::parse("aB3d".to_string()).unwrap();
    assert!(CaptchaAnswer::is_valid_captcha_answer(&mut store, &answer, &id).is_ok());
    assert_eq!(store.len(), 0);
    // the second check finds nothing and fails as an invalid id
    let e = CaptchaAnswer::is_valid_captcha_answer(&mut store, &answer, &id).unwrap_err();
    assert!(is_invalid_captcha_id(&e));
    assert_eq!(store.get_one(id.as_str()), None);
}

#[test]
fn a_captcha_id_that_was_never_stored_is_invalid() {
    let mut store = MemoryHash::new();
    stored_captcha(&mut store, "aB3d");
    let stranger = CaptchaID::from_uuid(uuid::Uuid::new_v4().as_u128());
    let answer = CaptchaAnswer::parse("aB3d".to_string()).unwrap();
    let e = CaptchaAnswer::is_valid_captcha_answer(&mut store, &answer, &stranger).unwrap_err();
    assert!(is_invalid_captcha_id(&e));
    assert_eq!(store.len(), 1);
}

#[test]
fn what_a_read_of_a_captcha_found_is_the_record_or_an_invalid_id() {
    let found = Some(r#"{"answer":"aB3d","timestamp":3}"#.to_string());
    let record = CaptchaAnswer::fields_from(found).unwrap();
    assert_eq!(record.answer.as_str(), "aB3d");
    assert_eq!(record.timestamp, 3);
    assert!(is_invalid_captcha_id(&CaptchaAnswer::fields_from(None).unwrap_err()));
    assert!(is_invalid_captcha_id(
        &CaptchaAnswer::fields_from(Some("nil".to_string())).unwrap_err()
    ));
}

#[test]
fn a_wrong_captcha_answer_leaves_the_captcha_in_place() {
    let mut store = MemoryHash::new();
    let id = stored_captcha(&mut store, "aB3d");
    let wrong = CaptchaAnswer::parse("ab3d".to_string()).unwrap();
    let e = CaptchaAnswer::is_valid_captcha_answer(&mut store, &wrong, &id).unwrap_err();
    assert!(matches!(
        e.error_type,
        AppErrorType::ValidationError(FieldValidationError::InvalidCaptchaAnswer)
    ));
    assert_eq!(store.len(), 1);
    let right = CaptchaAnswer::parse("aB3d".to_string()).unwrap();
    assert!(CaptchaAnswer::is_valid_captcha_answer(&mut store, &right, &id).is_ok());
}

#[test]
fn a_captcha_entry_that_is_no_record_is_an_invalid_id_and_stays() {
    let mut store = MemoryHash::new();
    let id = CaptchaID::from_uuid(1);
    store.insert_if_absent(id.as_str(), "nil");
    let answer = CaptchaAnswer::parse("abcd".to_string()).unwrap();
    let e = CaptchaAnswer::is_valid_captcha_answer(&mut store, &answer, &id).unwrap_err();
    assert!(is_invalid_captcha_id(&e));
    assert_eq!(store.len(), 1);
}

#[test]
fn a_generated_captcha_has_an_id_an_answer_and_an_image() {
    let captcha = Captcha::generate().unwrap();
    let (id, fields) = captcha.stored_fields(77);
    assert_eq!(id.len(), 36);
    assert!(CaptchaID::parse(id.clone()).is_ok());
    let record = CaptchaFields::from_json_str(&fields).unwrap();
    assert_eq!(record.timestamp, 77);
    assert!(!record.answer.as_str().is_empty());
    let data = captcha.get_response_data();
    assert_eq!(data.id.as_str(), id);
    assert!(!data.img.is_empty());
}

#[test]
fn a_captcha_is_assembled_of_what_was_drawn() {
    let drawn = Some(("aB3d".to_string(), "aW1n".to_string()));
    let captcha = Captcha::assemble(0x550e8400e29b41d4a716446655440000, drawn).unwrap();
    let (id, fields) = captcha.stored_fields(1);
    assert_eq!(id, "550e8400-e29b-41d4-a716-446655440000");
    assert_eq!(fields, r#"{"answer":"aB3d","timestamp":1}"#);
    assert_eq!(captcha.get_response_data().img, "aW1n");
    match Captcha::assemble(1, None) {
        Err(e) => assert!(matches!(
            e.error_type,
            AppErrorType::RegistrationError(CreateUserError::CaptchaGeneration)
        )),
        Ok(_) => panic!("a captcha was made of nothing"),
    }
}

#[test]
fn a_captcha_whose_id_is_taken_gets_a_fresh_id_and_is_tried_again() {
    let mut store = MemoryHash::new();
    let mut captcha =
        Captcha::assemble(5, Some(("abcd".to_string(), "img".to_string()))).unwrap();
    assert!(captcha.store_captcha_answer_at(&mut store, 9));
    let first = "00000000-0000-0000-0000-000000000005";
    assert_eq!(store.get_one(first), Some(r#"{"answer":"abcd","timestamp":9}"#.to_string()));
    assert_eq!(captcha.stored_fields(9).0, first);

    // a second captcha that was given the same id collides: nothing is overwritten,
    // and the captcha comes out with another id
    let mut twin = Captcha::assemble(5, Some(("wxyz".to_string(), "img2".to_string()))).unwrap();
    assert!(!twin.store_captcha_answer_at(&mut store, 10));
    assert_eq!(store.len(), 1);
    assert_eq!(store.get_one(first), Some(r#"{"answer":"abcd","timestamp":9}"#.to_string()));
    let (fresh, fields) = twin.stored_fields(10);
    assert_ne!(fresh, first);
    assert_eq!(fresh.len(), 36);
    assert!(CaptchaID::parse(fresh.clone()).is_ok());
    assert_eq!(fields, r#"{"answer":"wxyz","timestamp":10}"#);

    // the next attempt stores it under the fresh id
    let mut attempts = 1;
    while !twin.store_captcha_answer_at(&mut store, 10) {
        attempts += 1;
    }
    assert_eq!(attempts, 1);
    assert_eq!(store.len(), 2);
    assert_eq!(store.get_one(&fresh), Some(r#"{"answer":"wxyz","timestamp":10}"#.to_string()));
    assert_eq!(twin.get_response_data().img, "img2");
}

#[test]
fn the_answer_of_the_store_decides_whether_a_captcha_is_issued() {
    let mut captcha = Captcha::assemble(7, Some(("abcd".to_string(), "img".to_string()))).unwrap();
    assert!(captcha.stored(true));
    assert_eq!(captcha.stored_fields(1).0, "00000000-0000-0000-0000-000000000007");
    assert!(!captcha.stored(false));
    assert_ne!(captcha.stored_fields(1).0, "00000000-0000-0000-0000-000000000007");
    captcha.renew_id(0x550e8400e29b41d4a716446655440000);
    let (id, fields) = captcha.stored_fields(1);
    assert_eq!(id, "550e8400-e29b-41d4-a716-446655440000");
    assert_eq!(fields, r#"{"answer":"abcd","timestamp":1}"#);
}

#[test]
fn a_captcha_is_stored_with_the_time_of_the_clock() {
    let mut store = MemoryHash::new();
    let mut captcha =
        Captcha::assemble(6, Some(("abcd".to_string(), "img".to_string()))).unwrap();
    let before = chrono::Utc::now().timestamp();
    assert!(captcha.store_captcha_answer_in_redis(&mut store));
    let after = chrono::Utc::now().timestamp();
    let fields = store.get_one("00000000-0000-0000-0000-000000000006").unwrap();
    let record = CaptchaFields::from_json_str(&fields).unwrap();
    assert!(before <= record.timestamp && record.timestamp <= after);
    // the same captcha again collides with itself and moves on to a fresh id
    assert!(!captcha.store_captcha_answer_in_redis(&mut store));
    assert!(captcha.store_captcha_answer_in_redis(&mut store));
    assert_eq!(store.len(), 2);
}

#[test]
fn a_captcha_is_reloaded_only_under_an_id_that_is_stored() {
    let mut store = MemoryHash::new();
    let id = stored_captcha(&mut store, "abcd");
    let text = id.as_str().to_string();
    let fresh = Captcha::reload_captcha(id, &mut store).unwrap();
    assert_eq!(store.len(), 0);
    assert_ne!(fresh.get_response_data().id.as_str(), text);
    match Captcha::reload_captcha(CaptchaID::from_str(text), &mut store) {
        Err(e) => assert!(matches!(
            e.error_type,
            AppErrorType::ValidationError(FieldValidationError::InvalidCaptchaID)
        )),
        Ok(_) => panic!("a captcha was reloaded under an id that is not stored"),
    }
}

#[test]
fn a_candidate_is_stored_only_if_its_token_is_free() {
    let mut store = MemoryHash::new();
    let token = URLToken::from_str_no_validate("taken".to_string());
    assert_eq!(URLToken::store_candidate(&mut store, token, "first").unwrap().as_str(), "taken");
    let again = URLToken::from_str_no_validate("taken".to_string());
    assert!(URLToken::store_candidate(&mut store, again, "second").is_none());
    assert_eq!(store.len(), 1);
    assert_eq!(store.get_one("taken"), Some("first".to_string()));
    let other = URLToken::from_str_no_validate("free".to_string());
    assert!(URLToken::store_candidate(&mut store, other, "third").is_some());
    assert_eq!(store.len(), 2);
}

#[test]
fn an_attempt_cannot_fail_on_a_store_that_holds_no_token() {
    let mut store = MemoryHash::new();
    assert!(store.insert_if_absent("not a token", "x"));
    assert!(store.insert_if_absent("550e8400-e29b-41d4-a716-446655440000", "y"));
    for n in 0..5 {
        assert!(URLToken::store_user_fields_at(&mut store, &email(), n).is_some());
        // from here on the store holds tokens, and an attempt may fail in principle
    }
    assert_eq!(store.len(), 7);
    assert!(URLToken::store_user_fields_to_redis(&mut MemoryHash::new(), &email()).is_some());
}

#[test]
fn a_record_stored_in_another_json_form_is_redeemed_all_the_same() {
    let mut store = MemoryHash::new();
    let token = URLToken::generate();
    assert!(store.insert_if_absent(
        token.as_str(),
        "{ \"timestamp\": 12, \"email\": \"ursula@example.com\" }"
    ));
    let record = token.get_associated_redis_fields(&mut store).unwrap();
    assert_eq!(record.email.as_str(), "ursula@example.com");
    assert_eq!(record.timestamp, 12);
    assert_eq!(store.len(), 0);
    assert!(is_invalid_token(&token.get_associated_redis_fields(&mut store).unwrap_err()));
}

#[test]
fn a_captcha_stored_in_another_json_form_is_checked_all_the_same() {
    let mut store = MemoryHash::new();
    let id = CaptchaID::from_uuid(9);
    assert!(store.insert_if_absent(id.as_str(), "{\"timestamp\":1, \"answer\":\"aB3d\"}"));
    let wrong = CaptchaAnswer::parse("zzzz".to_string()).unwrap();
    assert!(CaptchaAnswer::is_valid_captcha_answer(&mut store, &wrong, &id).is_err());
    assert_eq!(store.len(), 1);
    let right = CaptchaAnswer::parse("aB3d".to_string()).unwrap();
    assert!(CaptchaAnswer::is_valid_captcha_answer(&mut store, &right, &id).is_ok());
    assert_eq!(store.len(), 0);
}
