use crate::app_error::error::{AppError, AppErrorType, AppFailure};
use crate::clock::unix_now;
use crate::logic::email::confirm_email::ConfirmEmail;
use crate::logic::user::validate::{Email, FieldValidationError};
use crate::store::{
    has_key, lemma_dropped_key_is_gone, lemma_one_value_per_key, without, Field, MemoryHash,
};
use crate::tasks::redis_fields_deletion::EmptyGeneratable;
use crate::tasks::sweep::Keyable;
use crate::text::{all_ascii_alphanumeric, ascii_alphanumeric, is_all_ascii_alphanumeric, push_char};
use vstd::prelude::*;
use vstd::string::StrSliceExecFns;

verus! {

/// How many characters a URL token has.
pub const URL_TOKEN_LENGTH: usize = 150;

/// The format of a URL token: exactly 150 ASCII letters and digits.
pub open spec fn url_token_format(text: Seq<char>) -> bool {
    text.len() == URL_TOKEN_LENGTH && all_ascii_alphanumeric(text)
}

/// `rand`'s `Rng::sample` with the `Alphanumeric` distribution on the
/// thread's generator: one byte drawn from `A-Z`, `a-z`, `0-9`. Which one
/// is up to the generator; only its class is claimed.
#[verifier::external_body]
fn sample_alphanumeric() -> (b: u8)
    ensures
        ascii_alphanumeric(b as char),
{
    rand::Rng::sample(&mut rand::thread_rng(), rand::distributions::Alphanumeric)
}

/// A single-use token that is sent out in a link and names one entry of
/// the email dataset.
pub struct URLToken(String);

impl View for URLToken {
    type V = Seq<char>;

    closed spec fn view(&self) -> Seq<char> {
        self.0@
    }
}

impl URLToken {
    /// Admits `token` exactly if it has the token format.
    pub fn parse(token: String) -> (parsed: Result<Self, FieldValidationError>)
        ensures
            match parsed {
                Ok(t) => url_token_format(token@) && t@ == token@,
                Err(e) => !url_token_format(token@) && e == FieldValidationError::InvalidUrlToken,
            },
    {
        if token.as_str().unicode_len() == URL_TOKEN_LENGTH && is_all_ascii_alphanumeric(
            token.as_str(),
        ) {
            return Ok(URLToken(token));
        }
        Err(FieldValidationError::InvalidUrlToken)
    }

    pub fn as_str(&self) -> (s: &str)
        ensures
            s@ == self@,
    {
        self.0.as_str()
    }

    /// The token made of the drawn bytes: its characters are the bytes, in
    /// the order in which they were drawn.
    pub fn from_drawn(drawn: Vec<u8>) -> (token: Self)
        requires
            drawn@.len() == URL_TOKEN_LENGTH,
            forall|i: int| 0 <= i < drawn@.len() ==> ascii_alphanumeric(#[trigger] drawn@[i] as char),
        ensures
            token@ == Seq::new(URL_TOKEN_LENGTH as nat, |i: int| drawn@[i] as char),
            url_token_format(token@),
    {
        let mut text = String::new();
        let mut n: usize = 0;
        while n < drawn.len()
            invariant
                n <= drawn@.len(),
                text@ == Seq::new(n as nat, |i: int| drawn@[i] as char),
            decreases drawn@.len() - n,
        {
            let ghost before = text@;
            push_char(&mut text, drawn[n] as char);
            n = n + 1;
            assert(text@ =~= Seq::new(n as nat, |i: int| drawn@[i] as char));
        }
        URLToken(text)
    }

    /// A fresh token: 150 letters and digits drawn at random, in the order
    /// in which they were drawn.
    pub fn generate() -> (token: Self)
        ensures
            url_token_format(token@),
    {
        let mut drawn: Vec<u8> = Vec::new();
        while drawn.len() < URL_TOKEN_LENGTH
            invariant
                drawn@.len() <= URL_TOKEN_LENGTH,
                forall|i: int|
                    0 <= i < drawn@.len() ==> ascii_alphanumeric(#[trigger] drawn@[i] as char),
            decreases URL_TOKEN_LENGTH - drawn@.len(),
        {
            drawn.push(sample_alphanumeric());
        }
        Self::from_drawn(drawn)
    }

    /// Takes `token` as it is; for texts that come back from the store.
    pub fn from_str_no_validate(token: String) -> (t: Self)
        ensures
            t@ == token@,
    {
        URLToken(token)
    }
}

impl EmptyGeneratable for URLToken {
    open spec fn is_placeholder(&self) -> bool {
        self@.len() == 0
    }

    fn generate_empty() -> (e: Self) {
        URLToken(String::new())
    }
}

/// Used for token vector allocation: the copy is the empty placeholder,
/// never a second token of the same text.
impl Clone for URLToken {
    fn clone(&self) -> (copy: Self)
        ensures
            copy.is_placeholder(),
    {
        Self::generate_empty()
    }
}

impl Keyable for URLToken {
    open spec fn text(&self) -> Seq<char> {
        self@
    }

    fn from_stored(raw: String) -> (key: Self) {
        URLToken::from_str_no_validate(raw)
    }

    fn to_stored(&self) -> (raw: String) {
        self.0.clone()
    }
}

/// Whether some key of `fields` has the token format: only against such a
/// key can a fresh token collide.
pub open spec fn holds_a_token(fields: Seq<Field>) -> bool {
    exists|i: int| 0 <= i < fields.len() && url_token_format((#[trigger] fields[i]).0)
}

/// What `fields` holds for `token`: the address and the creation time of
/// the record stored under it, if a record is stored under it.
pub open spec fn stored_confirmation(fields: Seq<Field>, token: Seq<char>) -> Option<
    (Seq<char>, i64),
> {
    if exists|text: Seq<char>| #[trigger] fields.contains((token, text)) {
        ConfirmEmail::read(choose|text: Seq<char>| #[trigger] fields.contains((token, text)))
    } else {
        None
    }
}

/// The error for a token that names no readable confirmation record.
pub open spec fn invalid_url_token() -> AppFailure {
    AppFailure::of(AppErrorType::ValidationError(FieldValidationError::InvalidUrlToken))
}

impl URLToken {
    /// A candidate for issuance: a fresh token and the record of `email`
    /// made at `timestamp`, to be stored under it if the token is free.
    pub fn candidate(email: &Email, timestamp: i64) -> (made: (URLToken, String))
        ensures
            url_token_format(made.0@),
            made.1@ == ConfirmEmail::wire(email@, timestamp),
    {
        let token = URLToken::generate();
        let confirmation_fields = match ConfirmEmail::json_string(email.clone(), timestamp) {
            Ok(text) => text,
            Err(_) => String::new(),
        };
        (token, confirmation_fields)
    }

    /// What the store's answer to a set-if-absent makes of a candidate:
    /// the token is issued if the store took the record, and another
    /// candidate must be tried if the token was taken.
    pub fn issued(self, stored: u8) -> (token: Option<URLToken>)
        ensures
            match token {
                Some(t) => stored != 0 && t@ == self@,
                None => stored == 0,
            },
    {
        if stored != 0 {
            Some(self)
        } else {
            None
        }
    }

    /// Stores `fields` under the candidate `token` if the token is free,
    /// and issues it; a token that is taken is not issued, and nothing
    /// changes.
    pub fn store_candidate(store: &mut MemoryHash, token: URLToken, fields: &str) -> (issued:
        Option<URLToken>)
        requires
            old(store).wf(),
        ensures
            final(store).wf(),
            match issued {
                Some(t) => t@ == token@ && !has_key(old(store)@, token@) && final(store)@
                    == old(store)@.push((token@, fields@)),
                None => has_key(old(store)@, token@) && final(store)@ == old(store)@,
            },
    {
        let stored = store.insert_if_absent(token.as_str(), fields);
        token.issued(if stored { 1 } else { 0 })
    }

    /// One attempt to issue a token for `email` at `timestamp`: stores the
    /// record under a fresh token unless that token is taken, in which
    /// case nothing changes and the caller tries again. A fresh token has
    /// the token format, so the attempt can only fail on a store that
    /// holds a key of that format.
    pub fn store_user_fields_at(store: &mut MemoryHash, email: &Email, timestamp: i64) -> (token:
        Option<URLToken>)
        requires
            old(store).wf(),
        ensures
            final(store).wf(),
            match token {
                Some(t) => url_token_format(t@) && !has_key(old(store)@, t@) && final(store)@
                    == old(store)@.push((t@, ConfirmEmail::wire(email@, timestamp))),
                None => holds_a_token(old(store)@) && final(store)@ == old(store)@,
            },
    {
        let (token, confirmation_fields) = URLToken::candidate(email, timestamp);
        let ghost drawn = token@;
        let issued = Self::store_candidate(store, token, confirmation_fields.as_str());
        proof {
            if issued is None {
                let i = choose|i: int|
                    0 <= i < old(store)@.len() && (#[trigger] old(store)@[i]).0 == drawn;
                assert(url_token_format(old(store)@[i].0));
            }
        }
        issued
    }

    /// One attempt to issue a token for `email`, stamped with the clock's
    /// reading. It can only fail on a store that holds a key of the token
    /// format.
    pub fn store_user_fields_to_redis(store: &mut MemoryHash, email: &Email) -> (token: Option<
        URLToken,
    >)
        requires
            old(store).wf(),
        ensures
            final(store).wf(),
            match token {
                Some(t) => url_token_format(t@) && !has_key(old(store)@, t@) && exists|
                    timestamp: i64,
                |
                    final(store)@ == old(store)@.push(
                        (t@, #[trigger] ConfirmEmail::wire(email@, timestamp)),
                    ),
                None => holds_a_token(old(store)@) && final(store)@ == old(store)@,
            },
    {
        let timestamp = unix_now();
        let token = Self::store_user_fields_at(store, email, timestamp);
        proof {
            if token is Some {
                assert(store@ == old(store)@.push(
                    (token->Some_0@, ConfirmEmail::wire(email@, timestamp)),
                ));
            }
        }
        token
    }

    /// The record that a read of a token's field found: the record the
    /// text decodes to. Where the store held nothing, or something that
    /// is no record, the token is invalid.
    pub fn confirmation_from(found: Option<String>) -> (fields: Result<ConfirmEmail, AppError>)
        ensures
            match fields {
                Ok(record) => found is Some && ConfirmEmail::read(found->Some_0@) == Some(
                    (record.email@, record.timestamp),
                ),
                Err(e) => e@ == invalid_url_token() && (found is Some ==> ConfirmEmail::read(
                    found->Some_0@,
                ) is None),
            },
    {
        match found {
            Some(text) => match ConfirmEmail::from_json_str(text.as_str()) {
                Ok(record) => Ok(record),
                Err(_) => Err(AppError::from(FieldValidationError::InvalidUrlToken)),
            },
            None => Err(AppError::from(FieldValidationError::InvalidUrlToken)),
        }
    }

    /// Redeems the token: reads the record stored under it and removes the
    /// entry, so that the token cannot be redeemed again. Where the store
    /// holds no record under the token, the token is invalid and the store
    /// is left as it was.
    pub fn get_associated_redis_fields(&self, store: &mut MemoryHash) -> (fields: Result<
        ConfirmEmail,
        AppError,
    >)
        requires
            old(store).wf(),
        ensures
            final(store).wf(),
            match stored_confirmation(old(store)@, self@) {
                Some((email, timestamp)) => fields is Ok && fields->Ok_0.email@ == email
                    && fields->Ok_0.timestamp == timestamp && final(store)@ == without(
                    old(store)@,
                    set![self@],
                ),
                None => fields is Err && fields->Err_0@ == invalid_url_token() && final(store)@
                    == old(store)@,
            },
    {
        let found = store.get_one(self.as_str());
        proof {
            if found is Some {
                lemma_stored_text(store@, self@, found->Some_0@);
            } else {
                lemma_nothing_stored(store@, self@);
            }
        }
        match Self::confirmation_from(found) {
            Ok(record) => {
                // Removing (token -> fields) entry to make sure the email isn't validated
                // multiple times (user clicking confirmation link multiple times).
                store.delete_one(self.as_str());
                Ok(record)
            },
            Err(e) => Err(e),
        }
    }

    /// A token can be redeemed once: after a redemption the store holds
    /// nothing under the token, so redeeming it again finds the token
    /// invalid.
    pub proof fn lemma_redeemed_once(before: Seq<Field>, token: Seq<char>)
        ensures
            stored_confirmation(without(before, set![token]), token) is None,
    {
        lemma_dropped_key_is_gone(before, token);
        lemma_nothing_stored(without(before, set![token]), token);
    }

    /// A token that was issued can be redeemed: where the store holds the
    /// record of `email` made at `timestamp` under the token, that record
    /// is what the store holds for it.
    pub proof fn lemma_issued_is_stored(
        fields: Seq<Field>,
        token: Seq<char>,
        email: Seq<char>,
        timestamp: i64,
    )
        requires
            crate::store::unique_keys(fields),
            fields.contains((token, ConfirmEmail::wire(email, timestamp))),
        ensures
            stored_confirmation(fields, token) == Some((email, timestamp)),
    {
        lemma_stored_text(fields, token, ConfirmEmail::wire(email, timestamp));
        ConfirmEmail::lemma_round_trip(email, timestamp);
    }
}

/// Where the hash holds `text` under `token`, what it holds for the token
/// is what `text` reads as.
proof fn lemma_stored_text(fields: Seq<Field>, token: Seq<char>, text: Seq<char>)
    requires
        crate::store::unique_keys(fields),
        fields.contains((token, text)),
    ensures
        stored_confirmation(fields, token) == ConfirmEmail::read(text),
{
    let held = choose|held: Seq<char>| #[trigger] fields.contains((token, held));
    lemma_one_value_per_key(fields, token, text, held);
}

/// Where the hash holds nothing under `token`, it holds no record for it.
proof fn lemma_nothing_stored(fields: Seq<Field>, token: Seq<char>)
    requires
        !has_key(fields, token),
    ensures
        stored_confirmation(fields, token) is None,
{
    if exists|held: Seq<char>| #[trigger] fields.contains((token, held)) {
        let held = choose|held: Seq<char>| #[trigger] fields.contains((token, held));
        let i = choose|i: int| 0 <= i < fields.len() && fields[i] == (token, held);
        assert(fields[i].0 == token);
    }
}

} // verus!
