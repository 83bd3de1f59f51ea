use auth::app_error::{select_return, AppError, AppErrorType, TaskEnd};
use auth::db::{sqlx_user_insertion_error, InsertionFailure};
use auth::logic::{
    AuthError, CreateUser, CreateUserRequest, DeleteUserRequest, FieldValidationError, Login,
    Password, ResetPassword, ResetPasswordRequest, SQLXUser, StoredCredentials, URLToken,
    UpdateAction, UpdateStep, UpdateUser, UpdateUserError,
};
use auth::routes::{
    get_home_page, get_login_page, get_register_page, get_register_request_page,
    get_reset_password_page, get_reset_password_request_page, get_settings_page, login_user,
    logout_user, CreateUserRequestForm, DeleteUserRequestForm, Landing, LoginForm, LoginOutcome,
    RegisterToken, ResetPasswordRequestForm, ResetPasswordToken, UpdateUserForm,
};
use auth::session::{UserSession, UserSessionError};

#[test]
fn an_error_with_a_message_is_of_unknown_kind() {
    let e = AppError::with_msg("boom".to_string());
    assert!(matches!(e.error_type, AppErrorType::Unknown(())));
    assert_eq!(e.msg.as_deref(), Some("boom"));
}

#[test]
fn an_error_made_of_a_kind_carries_no_message() {
    let e = AppError::from(FieldValidationError::NotABee);
    assert!(matches!(e.error_type, AppErrorType::ValidationError(FieldValidationError::NotABee)));
    assert!(e.msg.is_none());
    let e = AppError::from(auth::logic::CreateUserError::CaptchaGeneration);
    assert!(matches!(e.error_type, AppErrorType::RegistrationError(_)));
    let e = AppError::from(UpdateUserError::EmailTaken);
    assert!(matches!(e.error_type, AppErrorType::UpdateUserError(UpdateUserError::EmailTaken)));
    let e = AppError::from(UserSessionError::InvalidSessionCookie);
    assert!(matches!(e.error_type, AppErrorType::SessionError(_)));
    let e = AppError::from(AuthError::InvalidCredentials);
    assert!(matches!(e.error_type, AppErrorType::AuthError(AuthError::InvalidCredentials)));
    let e = AppError::from(AppErrorType::Unknown(()));
    assert!(matches!(e.error_type, AppErrorType::Unknown(())));
    assert!(e.msg.is_none());
}

#[test]
fn a_broken_constraint_names_the_field_that_is_taken() {
    let db = |constraint: Option<&str>| InsertionFailure::Database {
        constraint: constraint.map(|c| c.to_string()),
        message: "duplicate key".to_string(),
    };
    let e = sqlx_user_insertion_error(db(Some("users_email_key")));
    assert!(matches!(
        e.error_type,
        AppErrorType::ValidationError(FieldValidationError::EmailTaken)
    ));
    let e = sqlx_user_insertion_error(db(Some("users_username_key")));
    assert!(matches!(
        e.error_type,
        AppErrorType::ValidationError(FieldValidationError::UsernameTaken)
    ));
    let e = sqlx_user_insertion_error(db(Some("users_pkey")));
    assert!(matches!(e.error_type, AppErrorType::Unknown(())));
    assert_eq!(e.msg.as_deref(), Some("duplicate key"));
    let e = sqlx_user_insertion_error(db(None));
    assert!(matches!(e.error_type, AppErrorType::Unknown(())));
    assert_eq!(e.msg.as_deref(), Some("duplicate key"));
    let e = sqlx_user_insertion_error(InsertionFailure::Other { message: "timeout".to_string() });
    assert!(matches!(e.error_type, AppErrorType::Unknown(())));
    assert_eq!(e.msg.as_deref(), Some("timeout"));
}

#[test]
fn the_end_of_a_task_is_logged_by_how_it_ended() {
    let line = select_return("server", &TaskEnd::Returned);
    assert!(!line.is_error);
    assert_eq!(line.message, "server successfully returned");
    let line = select_return("task1 (redis deletion: captcha)", &TaskEnd::Failed("x".to_string()));
    assert!(line.is_error);
    assert_eq!(line.message, "task1 (redis deletion: captcha) returned with app_error");
    let line = select_return("server", &TaskEnd::JoinFailed("panicked".to_string()));
    assert!(line.is_error);
    assert_eq!(line.message, "server returned with app_error");
}

#[test]
fn a_session_holds_the_account_that_is_logged_in() {
    let nobody = UserSession::holding(None);
    assert!(!nobody.is_active());
    match nobody.get_session_id() {
        Err(e) => assert!(matches!(
            e.error_type,
            AppErrorType::SessionError(UserSessionError::InvalidSessionCookie)
        )),
        Ok(_) => panic!("an id out of nowhere"),
    }
    let somebody = nobody.activate(9);
    assert!(somebody.is_active());
    assert_eq!(somebody.get_session_id().unwrap(), 9);
    assert!(!somebody.deactivate().is_active());
    assert!(!logout_user(&somebody).is_active());
    assert!(!logout_user(&nobody).is_active());
}

fn target(landing: Landing) -> Option<&'static str> {
    match landing {
        Landing::Page => None,
        Landing::SeeOther(path) => Some(path),
    }
}

#[test]
fn pages_are_shown_by_the_session_and_the_token() {
    let nobody = UserSession::holding(None);
    let somebody = UserSession::holding(Some(1));
    assert_eq!(target(get_home_page(&nobody)), Some("/login"));
    assert_eq!(target(get_home_page(&somebody)), None);
    assert_eq!(target(get_settings_page(&nobody)), Some("/login"));
    assert_eq!(target(get_settings_page(&somebody)), None);
    assert_eq!(target(get_login_page(&nobody)), None);
    assert_eq!(target(get_login_page(&somebody)), Some("/home"));
    assert_eq!(target(get_register_request_page(&nobody)), None);
    assert_eq!(target(get_register_request_page(&somebody)), Some("/home"));
    assert_eq!(target(get_reset_password_request_page(&nobody)), None);
    assert_eq!(target(get_reset_password_request_page(&somebody)), Some("/home"));

    let with = RegisterToken { token: Some("t".to_string()) };
    let without = RegisterToken { token: None };
    assert_eq!(target(get_register_page(&with, &nobody)), None);
    assert_eq!(target(get_register_page(&without, &nobody)), Some("/register/request"));
    assert_eq!(target(get_register_page(&with, &somebody)), Some("/home"));
    assert_eq!(target(get_register_page(&without, &somebody)), Some("/home"));

    let with = ResetPasswordToken { token: Some("t".to_string()) };
    let without = ResetPasswordToken { token: None };
    assert_eq!(target(get_reset_password_page(&nobody, &with)), None);
    assert_eq!(
        target(get_reset_password_page(&nobody, &without)),
        Some("/reset-password/request")
    );
    assert_eq!(target(get_reset_password_page(&somebody, &with)), Some("/home"));
    assert_eq!(target(get_reset_password_page(&somebody, &without)), Some("/home"));
}

#[test]
fn a_login_goes_by_the_requested_deletion() {
    assert_eq!(login_user(false, false), LoginOutcome::Activate);
    assert_eq!(login_user(false, true), LoginOutcome::Activate);
    assert_eq!(login_user(true, false), LoginOutcome::Conflict);
    assert_eq!(login_user(true, true), LoginOutcome::CancelDeletion);
}

fn login(password: &str) -> Login {
    Login::validate_form_fields(LoginForm {
        email: "a@b.cd".to_string(),
        password: password.to_string(),
        cancel_deletion: false,
    })
    .unwrap()
}

#[test]
fn a_login_is_held_against_the_stored_credentials() {
    let hash = Password::parse("Passw0rd.".to_string()).unwrap().generate_argon2_hash().unwrap();
    let found = |requested_deletion: Option<bool>| {
        Some(StoredCredentials {
            id: 77,
            password_hash: hash.expose_as_str().to_string(),
            requested_deletion,
        })
    };
    assert_eq!(login("Passw0rd.").check_password_is_valid(found(None)).unwrap(), (77, false));
    assert_eq!(
        login("Passw0rd.").check_password_is_valid(found(Some(true))).unwrap(),
        (77, true)
    );
    // any value of the column counts as a request
    assert_eq!(
        login("Passw0rd.").check_password_is_valid(found(Some(false))).unwrap(),
        (77, true)
    );
    let e = login("Passw0rd!").check_password_is_valid(found(None)).unwrap_err();
    assert!(matches!(e.error_type, AppErrorType::AuthError(AuthError::InvalidPassword)));
    let e = login("Passw0rd.").check_password_is_valid(None).unwrap_err();
    assert!(matches!(e.error_type, AppErrorType::AuthError(AuthError::InvalidCredentials)));
}

fn update(email: Option<&str>, username: Option<&str>, password: Option<&str>) -> UpdateUser {
    UpdateUser::validate_update_form(UpdateUserForm {
        new_email: email.map(|s| s.to_string()),
        new_username: username.map(|s| s.to_string()),
        new_password: password.map(|s| s.to_string()),
        new_password_confirm: password.map(|s| s.to_string()),
        password: "Passw0rd.".to_string(),
        confirmation_sentence: "Update my account.".to_string(),
    })
    .unwrap()
}

#[test]
fn an_update_runs_its_statements_in_order_and_then_commits() {
    let u = update(Some("new@b.cd"), Some("newname"), Some("N3wPassw0rd!"));
    match u.update_user_in_db(UpdateStep::Email) {
        UpdateAction::SetEmail(e) => assert_eq!(e, "new@b.cd"),
        other => panic!("{:?}", other),
    }
    let next = UpdateUser::rows_verdict(UpdateStep::Email, 1).unwrap().unwrap();
    assert_eq!(next, UpdateStep::Username);
    match u.update_user_in_db(next) {
        UpdateAction::SetUsername(n) => assert_eq!(n, "newname"),
        other => panic!("{:?}", other),
    }
    let next = UpdateUser::rows_verdict(UpdateStep::Username, 1).unwrap().unwrap();
    assert_eq!(next, UpdateStep::Password);
    match u.update_user_in_db(next) {
        UpdateAction::SetPasswordHash(h) => {
            let hash = auth::logic::PasswordHash::from_str(h);
            assert!(Password::parse("N3wPassw0rd!".to_string())
                .unwrap()
                .verify_password(&hash)
                .is_ok());
        }
        other => panic!("{:?}", other),
    }
    assert_eq!(UpdateUser::rows_verdict(UpdateStep::Password, 1).unwrap(), None);
}

#[test]
fn an_update_skips_what_it_does_not_change() {
    let u = update(None, Some("newname"), None);
    assert!(matches!(u.update_user_in_db(UpdateStep::Email), UpdateAction::SetUsername(_)));
    assert!(matches!(u.update_user_in_db(UpdateStep::Username), UpdateAction::SetUsername(_)));
    assert!(matches!(u.update_user_in_db(UpdateStep::Password), UpdateAction::Commit));
    let u = update(Some("new@b.cd"), None, None);
    assert!(matches!(u.update_user_in_db(UpdateStep::Email), UpdateAction::SetEmail(_)));
    assert!(matches!(u.update_user_in_db(UpdateStep::Username), UpdateAction::Commit));
    let u = update(None, None, Some("N3wPassw0rd!"));
    assert!(matches!(u.update_user_in_db(UpdateStep::Email), UpdateAction::SetPasswordHash(_)));
}

#[test]
fn an_update_that_changes_no_row_or_several_fails() {
    for rows in [0, 2, u64::MAX] {
        let e = UpdateUser::rows_verdict(UpdateStep::Email, rows).unwrap_err();
        assert!(matches!(
            e.error_type,
            AppErrorType::UpdateUserError(UpdateUserError::EmailTaken)
        ));
        let e = UpdateUser::rows_verdict(UpdateStep::Username, rows).unwrap_err();
        assert!(matches!(
            e.error_type,
            AppErrorType::UpdateUserError(UpdateUserError::UsernameTaken)
        ));
        let e = UpdateUser::rows_verdict(UpdateStep::Password, rows).unwrap_err();
        assert!(matches!(e.error_type, AppErrorType::Unknown(())));
        assert_eq!(e.msg.as_deref(), Some("Failed updating user password"));
    }
}

#[test]
fn a_failing_hasher_fails_the_update_with_its_message() {
    match UpdateUser::hashed_update(Err("out of memory".to_string())) {
        UpdateAction::Fail(e) => {
            assert!(matches!(e.error_type, AppErrorType::Unknown(())));
            assert_eq!(e.msg.as_deref(), Some("out of memory"));
        }
        other => panic!("{:?}", other),
    }
    match UpdateUser::hashed_update(Ok(auth::logic::PasswordHash::from_str("phc".to_string()))) {
        UpdateAction::SetPasswordHash(h) => assert_eq!(h, "phc"),
        other => panic!("{:?}", other),
    }
}

#[test]
fn the_current_password_is_held_against_the_stored_hash() {
    let hash = Password::parse("Passw0rd.".to_string()).unwrap().generate_argon2_hash().unwrap();
    let text = hash.expose_as_str().to_string();
    let u = update(None, Some("newname"), None);
    assert!(u.check_password_is_valid(Some(text.clone())).is_ok());
    let e = u.check_password_is_valid(None).unwrap_err();
    assert!(matches!(
        e.error_type,
        AppErrorType::SessionError(UserSessionError::InvalidSessionCookie)
    ));

    let form = |p: &str| DeleteUserRequestForm {
        password: p.to_string(),
        confirmation_sentence: "Delete my account.".to_string(),
    };
    let d = DeleteUserRequest::validate_delete_user_request_form(form("Passw0rd."), 1).unwrap();
    assert!(d.verify_password(Some(text.clone())).is_ok());
    let e = d.verify_password(None).unwrap_err();
    assert!(matches!(
        e.error_type,
        AppErrorType::SessionError(UserSessionError::InvalidSessionCookie)
    ));
    let d = DeleteUserRequest::validate_delete_user_request_form(form("0ther.Pass"), 1).unwrap();
    let e = d.verify_password(Some(text)).unwrap_err();
    assert!(matches!(e.error_type, AppErrorType::AuthError(AuthError::InvalidPassword)));
}

#[test]
fn what_the_database_says_of_a_taken_field_is_an_error_or_none() {
    assert!(CreateUserRequest::check_email_taken(Some(false)).is_ok());
    let e = CreateUserRequest::check_email_taken(Some(true)).unwrap_err();
    assert!(matches!(
        e.error_type,
        AppErrorType::ValidationError(FieldValidationError::EmailTaken)
    ));
    let e = CreateUserRequest::check_email_taken(None).unwrap_err();
    assert!(matches!(e.error_type, AppErrorType::Unknown(())));
    assert_eq!(e.msg.as_deref(), Some("Failed retrieving email existence from postgres"));

    assert!(CreateUser::check_username_taken(Some(false)).is_ok());
    let e = CreateUser::check_username_taken(Some(true)).unwrap_err();
    assert!(matches!(
        e.error_type,
        AppErrorType::ValidationError(FieldValidationError::UsernameTaken)
    ));
    let e = CreateUser::check_username_taken(None).unwrap_err();
    assert!(matches!(e.error_type, AppErrorType::Unknown(())));
    assert_eq!(e.msg.as_deref(), Some("Failed retrieving username existence from postgres"));
}

#[test]
fn the_emails_carry_their_token() {
    let token = URLToken::from_str_no_validate("TOKEN".to_string());
    let request = CreateUserRequest::validate_register_request_form(CreateUserRequestForm {
        email: "a@b.cd".to_string(),
        captcha_id: "550e8400-e29b-41d4-a716-446655440000".to_string(),
        captcha_answer: "abcd".to_string(),
        bzz: None,
    })
    .unwrap();
    assert_eq!(
        request.send_confirmation_email(&token),
        "a@b.cd | https://127.0.0.1:8443/register?token=TOKEN"
    );
    let request =
        ResetPasswordRequest::validate_password_reset_request_form(ResetPasswordRequestForm {
            email: "a@b.cd".to_string(),
            captcha_id: "550e8400-e29b-41d4-a716-446655440000".to_string(),
            captcha_answer: "abcd".to_string(),
            bzz: None,
        })
        .unwrap();
    assert_eq!(
        request.send_confirmation_email(&token),
        "https://127.0.0.1:8443/reset-password?token=TOKEN"
    );
    let user = SQLXUser::from_row("a@b.cd".to_string(), "ursula".to_string());
    assert_eq!(user.recipient(), ("a@b.cd", "ursula"));
    assert_eq!(
        DeleteUserRequest::send_account_deletion_requested_email(&token, &user),
        "Hi ursula,\nWe have received a request to delete your account.\n\
         All data associated with this account will be removed in 15 days.\n\n\
         If you are not the author of this request please log into your account or click here\n\
         to the cancel your account deletion. Also, change your password as soon as you can\n\
         because someone knows it!\n\
         a@b.cd | https://127.0.0.1:8443/delete-account/cancel?token=TOKEN"
    );
    let updated = ResetPassword::update_password_in_db(
        auth::logic::Email::from("a@b.cd".to_string()),
        auth::logic::Username::from("ursula".to_string()),
    );
    assert_eq!(
        updated.send_password_updated_email(),
        "a@b.cd | Hi ursula,\nYour password has been updated as you requested\n\
         If you are not the author of this request, please contact our support as soon as possible\n"
    );
}

#[test]
fn a_field_is_available_if_no_account_was_found() {
    assert!(auth::logic::Email::is_available(false));
    assert!(!auth::logic::Email::is_available(true));
    assert!(auth::logic::Username::is_available(false));
    assert!(!auth::logic::Username::is_available(true));
}

#[test]
fn the_row_of_a_new_user_holds_the_hash_of_the_password() {
    let user = CreateUser::validate_register_form(auth::routes::CreateUserForm {
        token: "aZ09bY18cX".chars().cycle().take(150).collect(),
        username: "ursula".to_string(),
        password: "Passw0rd.".to_string(),
        password_confirm: "Passw0rd.".to_string(),
    })
    .unwrap();
    let email = auth::logic::Email::parse("a@b.cd".to_string()).unwrap();
    let (address, name, hash) = user.insert_user_infos_to_db(&email).unwrap();
    assert_eq!(address, "a@b.cd");
    assert_eq!(name, "ursula");
    assert!(user.password.verify_password(&auth::logic::PasswordHash::from_str(hash)).is_ok());
}
