use crate::app_error::error::{AppError, AppErrorType, AppFailure};
use crate::logic::user::authenticate::AuthError;
use crate::text::{
    ascii_digit, ascii_lowercase, ascii_punctuation, ascii_uppercase, is_ascii_digit,
    is_ascii_lowercase, is_ascii_punctuation, is_ascii_uppercase,
};
use vstd::prelude::*;
use vstd::std_specs::convert::FromSpecImpl;
use vstd::string::StrSliceExecFns;

verus! {

/// Why a field of a request was turned down.
#[derive(Clone, Copy, Debug, PartialEq, Eq, Structural)]
pub enum FieldValidationError {
    EmailTaken,
    UsernameTaken,
    InvalidPasswordFmt,
    InvalidUsernameFmt,
    InvalidCaptchaID,
    InvalidCaptchaAnswer,
    InvalidEmailFmt,
    InvalidUrlToken,
    NotABee,
}

/// Whether `validator::validate_email` takes `text` for an email address.
pub uninterp spec fn email_format(text: Seq<char>) -> bool;

/// `validator::validate_email`: says whether the text is an email address
/// by the rules of the HTML5 specification. The verdict depends on the
/// text alone.
#[verifier::external_body]
fn validate_email(email: &str) -> (valid: bool)
    ensures
        valid == email_format(email@),
{
    validator::validate_email(email)
}

/// An email address.
#[derive(Debug)]
pub struct Email(String);

impl View for Email {
    type V = Seq<char>;

    closed spec fn view(&self) -> Seq<char> {
        self.0@
    }
}

impl Clone for Email {
    fn clone(&self) -> (copy: Self)
        ensures
            copy@ == self@,
    {
        Email(self.0.clone())
    }
}

impl Email {
    pub fn as_str(&self) -> (s: &str)
        ensures
            s@ == self@,
    {
        self.0.as_str()
    }

    /// Takes `email` exactly if it has the format of an email address.
    pub fn parse(email: String) -> (parsed: Result<Self, FieldValidationError>)
        ensures
            match parsed {
                Ok(e) => email_format(email@) && e@ == email@,
                Err(e) => !email_format(email@) && e == FieldValidationError::InvalidEmailFmt,
            },
    {
        let valid = validate_email(email.as_str());
        Self::from_checked(email, valid)
    }

    /// Whether the address is free, given whether the database found an
    /// account that goes by it.
    pub fn is_available(found: bool) -> (available: bool)
        ensures
            available == !found,
    {
        !found
    }

    /// The address `email` if the check of its format said `valid`, the
    /// format error if it did not.
    pub fn from_checked(email: String, valid: bool) -> (parsed: Result<Self, FieldValidationError>)
        ensures
            match parsed {
                Ok(e) => valid && e@ == email@,
                Err(e) => !valid && e == FieldValidationError::InvalidEmailFmt,
            },
    {
        if valid {
            Ok(Email(email))
        } else {
            Err(FieldValidationError::InvalidEmailFmt)
        }
    }
}

impl From<String> for Email {
    /// Should only be called to retrieve an email from the database
    /// because it has already been parsed prior to insertion
    fn from(email_str: String) -> (e: Self)
        ensures
            e@ == email_str@,
    {
        Email(email_str)
    }
}

impl FromSpecImpl<String> for Email {
    open spec fn obeys_from_spec() -> bool {
        true
    }

    closed spec fn from_spec(email_str: String) -> Self {
        Email(email_str)
    }
}

/// Whether `char::is_alphanumeric` holds of `c`: whether Unicode counts it
/// as a letter or a number.
pub uninterp spec fn unicode_alphanumeric(c: char) -> bool;

/// `char::is_alphanumeric` of the standard library. The verdict depends on
/// the character alone.
#[verifier::external_body]
fn char_is_alphanumeric(c: char) -> (b: bool)
    ensures
        b == unicode_alphanumeric(c),
{
    c.is_alphanumeric()
}

/// A character may stand in a username if it is a letter or a number, an
/// underscore or a full stop.
pub open spec fn username_char(c: char, alphanumeric: bool) -> bool {
    alphanumeric || c == '_' || c == '.'
}

/// The format of a username: 2 to 30 characters, each of which may stand
/// in a username.
pub open spec fn username_format(text: Seq<char>) -> bool {
    &&& 2 <= text.len() <= 30
    &&& forall|i: int|
        0 <= i < text.len() ==> username_char(#[trigger] text[i], unicode_alphanumeric(text[i]))
}

/// The name a user goes by.
#[derive(Debug)]
pub struct Username(String);

impl View for Username {
    type V = Seq<char>;

    closed spec fn view(&self) -> Seq<char> {
        self.0@
    }
}

impl Clone for Username {
    fn clone(&self) -> (copy: Self)
        ensures
            copy@ == self@,
    {
        Username(self.0.clone())
    }
}

impl Username {
    pub fn as_str(&self) -> (s: &str)
        ensures
            s@ == self@,
    {
        self.0.as_str()
    }

    /// Whether the name is free, given whether the database found an
    /// account that goes by it.
    pub fn is_available(found: bool) -> (available: bool)
        ensures
            available == !found,
    {
        !found
    }

    /// Whether `c` may stand in a username, given whether it is a letter
    /// or a number.
    pub fn char_allowed(c: char, alphanumeric: bool) -> (allowed: bool)
        ensures
            allowed == username_char(c, alphanumeric),
    {
        alphanumeric || c == '_' || c == '.'
    }

    /// Takes `username` exactly if it has the format of a username.
    pub fn parse(username: String) -> (parsed: Result<Self, FieldValidationError>)
        ensures
            match parsed {
                Ok(u) => username_format(username@) && u@ == username@,
                Err(e) => !username_format(username@) && e
                    == FieldValidationError::InvalidUsernameFmt,
            },
    {
        let len = username.as_str().unicode_len();
        if len < 2 || len > 30 {
            return Err(FieldValidationError::InvalidUsernameFmt);
        }
        let text = username.as_str();
        for c in it: text.chars()
            invariant
                it.seq() == username@,
                forall|i: int|
                    0 <= i < it.index() ==> username_char(
                        #[trigger] username@[i],
                        unicode_alphanumeric(username@[i]),
                    ),
        {
            if !Self::char_allowed(c, char_is_alphanumeric(c)) {
                return Err(FieldValidationError::InvalidUsernameFmt);
            }
        }
        Ok(Username(username))
    }
}

impl From<String> for Username {
    /// Should only be called to retrieve a username from the database
    /// because it has already been parsed prior to insertion
    fn from(username_str: String) -> (u: Self)
        ensures
            u@ == username_str@,
    {
        Username(username_str)
    }
}

impl FromSpecImpl<String> for Username {
    open spec fn obeys_from_spec() -> bool {
        true
    }

    closed spec fn from_spec(username_str: String) -> Self {
        Username(username_str)
    }
}

/// The classes of characters a password must draw from.
#[derive(Clone, Copy, Debug, PartialEq, Eq, Structural)]
pub enum CharClass {
    Lowercase,
    Uppercase,
    Digit,
    Punctuation,
}

/// Whether `c` belongs to `class`.
pub open spec fn in_class(class: CharClass, c: char) -> bool {
    match class {
        CharClass::Lowercase => ascii_lowercase(c),
        CharClass::Uppercase => ascii_uppercase(c),
        CharClass::Digit => ascii_digit(c),
        CharClass::Punctuation => ascii_punctuation(c),
    }
}

/// Whether one of the first `upto` characters of `text` belongs to `class`.
pub open spec fn has_class(text: Seq<char>, class: CharClass, upto: int) -> bool {
    exists|i: int| 0 <= i < upto && in_class(class, #[trigger] text[i])
}

/// The format of a password: 8 to 100 bytes of UTF-8, among them a
/// lower-case letter, an upper-case letter, a digit and a punctuation
/// character, all of ASCII.
pub open spec fn password_format(text: Seq<char>) -> bool {
    &&& 8 <= vstd::utf8::encode_utf8(text).len() <= 100
    &&& has_class(text, CharClass::Lowercase, text.len() as int)
    &&& has_class(text, CharClass::Uppercase, text.len() as int)
    &&& has_class(text, CharClass::Digit, text.len() as int)
    &&& has_class(text, CharClass::Punctuation, text.len() as int)
}

fn is_in_class(class: CharClass, c: char) -> (b: bool)
    ensures
        b == in_class(class, c),
{
    match class {
        CharClass::Lowercase => is_ascii_lowercase(c),
        CharClass::Uppercase => is_ascii_uppercase(c),
        CharClass::Digit => is_ascii_digit(c),
        CharClass::Punctuation => is_ascii_punctuation(c),
    }
}

fn contains_class(text: &str, class: CharClass) -> (found: bool)
    ensures
        found == has_class(text@, class, text@.len() as int),
{
    let mut found = false;
    for c in it: text.chars()
        invariant
            it.seq() == text@,
            found == has_class(text@, class, it.index() as int),
    {
        if is_in_class(class, c) {
            assert(in_class(class, text@[it.index() as int]));
            found = true;
        } else {
            proof {
                if has_class(text@, class, it.index() + 1) {
                    let i = choose|i: int|
                        0 <= i < it.index() + 1 && in_class(class, #[trigger] text@[i]);
                    assert(i < it.index());
                }
            }
        }
    }
    found
}

/// A password as the user typed it.
pub struct Password(String);

impl View for Password {
    type V = Seq<char>;

    closed spec fn view(&self) -> Seq<char> {
        self.0@
    }
}

impl Clone for Password {
    fn clone(&self) -> (copy: Self)
        ensures
            copy@ == self@,
    {
        Password(self.0.clone())
    }
}

/// A password hash in the PHC string format.
pub struct PasswordHash(String);

impl View for PasswordHash {
    type V = Seq<char>;

    closed spec fn view(&self) -> Seq<char> {
        self.0@
    }
}

impl PasswordHash {
    /// The hash that the PHC string `hash` writes.
    pub fn new(hash: String) -> (h: Self)
        ensures
            h@ == hash@,
    {
        PasswordHash(hash)
    }

    pub fn from_str(hash_str: String) -> (h: Self)
        ensures
            h@ == hash_str@,
    {
        PasswordHash(hash_str)
    }

    pub fn expose_as_str(&self) -> (s: &str)
        ensures
            s@ == self@,
    {
        self.0.as_str()
    }
}

impl Default for PasswordHash {
    fn default() -> (h: Self)
        ensures
            h@ == Seq::<char>::empty(),
    {
        PasswordHash(String::new())
    }
}

/// How `password_hash::PasswordHash::new` fails on `hash`, if it does:
/// whether the error is the one for an invalid password, and its message.
pub uninterp spec fn phc_parse_failure(hash: Seq<char>) -> Option<(bool, Seq<char>)>;

/// Whether Argon2, with its default parameters, finds that `password`
/// matches the PHC string `hash`.
pub uninterp spec fn argon2_accepts(password: Seq<u8>, hash: Seq<char>) -> bool;

/// `password_hash::PasswordHash::new`: parses a PHC string. Hands back
/// nothing if it parses, else whether the error is `Error::Password` and
/// the error's message. The outcome depends on the string alone.
#[verifier::external_body]
fn phc_parse(hash: &str) -> (failure: Option<(bool, String)>)
    ensures
        match failure {
            Some((invalid_password, message)) => phc_parse_failure(hash@) == Some(
                (invalid_password, message@),
            ),
            None => phc_parse_failure(hash@) is None,
        },
{
    match argon2::password_hash::PasswordHash::new(hash) {
        Ok(_) => None,
        Err(e) => Some((e == argon2::password_hash::Error::Password, e.to_string())),
    }
}

/// `PasswordVerifier::verify_password` of `Argon2::default()` on the
/// parsed `hash`: whether the password matches. A string that does not
/// parse matches nothing. The verdict depends on the arguments alone.
#[verifier::external_body]
fn argon2_verify(password: &[u8], hash: &str) -> (accepted: bool)
    ensures
        accepted == argon2_accepts(password@, hash@),
{
    match argon2::password_hash::PasswordHash::new(hash) {
        Ok(parsed) => argon2::PasswordVerifier::verify_password(
            &argon2::Argon2::default(),
            password,
            &parsed,
        ).is_ok(),
        Err(_) => false,
    }
}

/// `PasswordHasher::hash_password` of `Argon2::default()` with a salt that
/// `SaltString::generate` draws from the operating system: the PHC string
/// of the hash, or the error's message. The salt is random, so the string
/// is not named; what is claimed of it is what the crate's documentation
/// shows of every hash: it parses, and the password it was made of matches
/// it.
#[verifier::external_body]
fn argon2_hash(password: &[u8]) -> (hashed: Result<String, String>)
    ensures
        hashed is Ok ==> phc_parse_failure(hashed->Ok_0@) is None && argon2_accepts(
            password@,
            hashed->Ok_0@,
        ),
{
    let salt = argon2::password_hash::SaltString::generate(
        &mut argon2::password_hash::rand_core::OsRng,
    );
    match argon2::PasswordHasher::hash_password(&argon2::Argon2::default(), password, &salt) {
        Ok(hash) => Ok(hash.to_string()),
        Err(e) => Err(e.to_string()),
    }
}

impl Password {
    pub fn expose_as_str(&self) -> (s: &str)
        ensures
            s@ == self@,
    {
        self.0.as_str()
    }

    pub fn expose_as_bytes(&self) -> (bytes: &[u8])
        ensures
            bytes@ == vstd::utf8::encode_utf8(self@),
    {
        self.0.as_str().as_bytes()
    }

    /// Takes `password` exactly if it has the format of a password.
    pub fn parse(password: String) -> (parsed: Result<Self, FieldValidationError>)
        ensures
            match parsed {
                Ok(p) => password_format(password@) && p@ == password@,
                Err(e) => !password_format(password@) && e
                    == FieldValidationError::InvalidPasswordFmt,
            },
    {
        let len = password.as_str().as_bytes().len();
        if len < 8 || len > 100 {
            return Err(FieldValidationError::InvalidPasswordFmt);
        }
        let pwd = password.as_str();
        let valid = contains_class(pwd, CharClass::Lowercase) && contains_class(
            pwd,
            CharClass::Uppercase,
        ) && contains_class(pwd, CharClass::Digit) && contains_class(pwd, CharClass::Punctuation);
        if !valid {
            return Err(FieldValidationError::InvalidPasswordFmt);
        }
        Ok(Password(password))
    }

    /// The hash record made of what the hasher handed back: the hash, or
    /// the hasher's message.
    pub fn hashed(outcome: Result<String, String>) -> (hash: Result<PasswordHash, String>)
        ensures
            match (outcome, hash) {
                (Ok(text), Ok(h)) => h@ == text@,
                (Err(message), Err(m)) => m@ == message@,
                _ => false,
            },
    {
        match outcome {
            Ok(text) => Ok(PasswordHash::new(text)),
            Err(message) => Err(message),
        }
    }

    /// Hashes the password with Argon2 and a fresh random salt. The
    /// password checks against the hash that comes out.
    pub fn generate_argon2_hash(&self) -> (hash: Result<PasswordHash, String>)
        ensures
            hash is Ok ==> Self::verdict(
                phc_parse_failure(hash->Ok_0@),
                argon2_accepts(vstd::utf8::encode_utf8(self@), hash->Ok_0@),
            ) is Ok,
    {
        Self::hashed(argon2_hash(self.expose_as_bytes()))
    }

    /// What a check of a password against a hash comes to: an invalid
    /// password where the hash names one or does not match, the parser's
    /// message where the hash is malformed.
    pub open spec fn verdict(failure: Option<(bool, Seq<char>)>, accepted: bool) -> Result<
        (),
        AppFailure,
    > {
        match failure {
            Some((invalid_password, message)) => if invalid_password {
                Err(AppFailure::of(AppErrorType::AuthError(AuthError::InvalidPassword)))
            } else {
                Err(AppFailure::unknown(message))
            },
            None => if accepted {
                Ok(())
            } else {
                Err(AppFailure::of(AppErrorType::AuthError(AuthError::InvalidPassword)))
            },
        }
    }

    /// The verdict on what the parser and, where the hash parsed, the
    /// verifier handed back.
    pub fn judge(failure: Option<(bool, String)>, accepted: bool) -> (checked: Result<
        (),
        AppError,
    >)
        ensures
            match checked {
                Ok(()) => Self::verdict(
                    match failure {
                        Some((p, m)) => Some((p, m@)),
                        None => None,
                    },
                    accepted,
                ) is Ok,
                Err(e) => Self::verdict(
                    match failure {
                        Some((p, m)) => Some((p, m@)),
                        None => None,
                    },
                    accepted,
                ) == Err::<(), AppFailure>(e@),
            },
    {
        match failure {
            Some((invalid_password, message)) => {
                if invalid_password {
                    Err(AppError::from(AuthError::InvalidPassword))
                } else {
                    Err(AppError::with_msg(message))
                }
            },
            None => {
                if accepted {
                    Ok(())
                } else {
                    Err(AppError::from(AuthError::InvalidPassword))
                }
            },
        }
    }

    /// Checks the password against `hash`.
    pub fn verify_password(&self, hash: &PasswordHash) -> (checked: Result<(), AppError>)
        ensures
            match checked {
                Ok(()) => Self::verdict(
                    phc_parse_failure(hash@),
                    argon2_accepts(vstd::utf8::encode_utf8(self@), hash@),
                ) is Ok,
                Err(e) => Self::verdict(
                    phc_parse_failure(hash@),
                    argon2_accepts(vstd::utf8::encode_utf8(self@), hash@),
                ) == Err::<(), AppFailure>(e@),
            },
    {
        match phc_parse(hash.expose_as_str()) {
            Some(failure) => Self::judge(Some(failure), false),
            None => Self::judge(
                None,
                argon2_verify(self.expose_as_bytes(), hash.expose_as_str()),
            ),
        }
    }
}

} // verus!
