use crate::app_error::error::{AppError, AppErrorType, AppFailure};
use crate::logic::user::create::CreateUserError;
use crate::logic::user::validate::FieldValidationError;
use crate::logic::wire::{
    lemma_read_written, read_record, record_read, record_text, write_record, WireError,
};
use crate::clock::unix_now;
use crate::store::{has_key, lemma_one_value_per_key, without, Field, MemoryHash};
use crate::tasks::redis_fields_deletion::{EmptyGeneratable, Timestampable};
use crate::tasks::sweep::{Expirable, Keyable};
use crate::text::{all_ascii_alphanumeric, is_all_ascii_alphanumeric};
use vstd::prelude::*;
use vstd::std_specs::cmp::PartialEqSpecImpl;

verus! {

/// The format of a captcha answer: 4 to 6 bytes, all of them ASCII letters
/// or digits.
pub open spec fn captcha_answer_format(text: Seq<char>) -> bool {
    4 <= vstd::utf8::encode_utf8(text).len() <= 6 && all_ascii_alphanumeric(text)
}

/// What a user read off a captcha image.
#[derive(Debug)]
pub struct CaptchaAnswer(String);

impl View for CaptchaAnswer {
    type V = Seq<char>;

    closed spec fn view(&self) -> Seq<char> {
        self.0@
    }
}

impl Clone for CaptchaAnswer {
    fn clone(&self) -> (copy: Self)
        ensures
            copy@ == self@,
    {
        CaptchaAnswer(self.0.clone())
    }
}

impl PartialEq for CaptchaAnswer {
    fn eq(&self, other: &Self) -> (same: bool) {
        self.0 == other.0
    }
}

impl PartialEqSpecImpl for CaptchaAnswer {
    open spec fn obeys_eq_spec() -> bool {
        true
    }

    closed spec fn eq_spec(&self, other: &Self) -> bool {
        self.0@ == other.0@
    }
}

impl CaptchaAnswer {
    /// Takes `captcha_answer` exactly if it has the format of an answer.
    pub fn parse(captcha_answer: String) -> (parsed: Result<Self, FieldValidationError>)
        ensures
            match parsed {
                Ok(a) => captcha_answer_format(captcha_answer@) && a@ == captcha_answer@,
                Err(e) => !captcha_answer_format(captcha_answer@) && e
                    == FieldValidationError::InvalidCaptchaAnswer,
            },
    {
        let len = captcha_answer.as_str().as_bytes().len();
        if len < 4 || len > 6 || !is_all_ascii_alphanumeric(captcha_answer.as_str()) {
            return Err(FieldValidationError::InvalidCaptchaAnswer);
        }
        Ok(CaptchaAnswer(captcha_answer))
    }

    /// Takes `captcha_answer` as it is.
    pub fn from_str(captcha_answer: String) -> (a: Self)
        ensures
            a@ == captcha_answer@,
    {
        CaptchaAnswer(captcha_answer)
    }

    pub fn as_str(&self) -> (s: &str)
        ensures
            s@ == self@,
    {
        self.0.as_str()
    }

    /// Whether the two answers are the same text, character for character.
    pub fn same_as(&self, other: &CaptchaAnswer) -> (same: bool)
        ensures
            same == (self@ == other@),
    {
        self.0 == other.0
    }
}

/// What the captcha dataset holds under an id: the answer to the captcha
/// and the Unix time at which it was made.
#[derive(Debug)]
pub struct CaptchaFields {
    pub answer: CaptchaAnswer,
    pub timestamp: i64,
}

impl CaptchaFields {
    /// The name of the field that holds the answer.
    pub open spec fn field_name() -> Seq<char> {
        seq!['a', 'n', 's', 'w', 'e', 'r']
    }

    /// The wire form of the record of `answer` made at `timestamp`:
    /// `{"answer":"...","timestamp":...}`.
    pub open spec fn wire(answer: Seq<char>, timestamp: i64) -> Seq<char> {
        record_text(Self::field_name(), answer, timestamp as int)
    }

    /// Writes the record of `answer` made at `timestamp`.
    pub fn json_string(answer: CaptchaAnswer, timestamp: i64) -> (text: Result<String, WireError>)
        ensures
            text is Ok,
            text->Ok_0@ == Self::wire(answer@, timestamp),
    {
        proof {
            reveal_strlit("answer");
        }
        assert("answer"@ =~= Self::field_name());
        Ok(write_record("answer", answer.as_str(), timestamp))
    }

    /// What a text reads as: the answer and the creation time of the
    /// record it holds, if it holds one.
    pub open spec fn read(text: Seq<char>) -> Option<(Seq<char>, i64)> {
        record_read(text, Self::field_name())
    }

    /// The record of the fields that were read, if any were.
    pub fn from_fields(found: Option<(String, i64)>) -> (read: Result<Self, WireError>)
        ensures
            match read {
                Ok(record) => found is Some && record.answer@ == found->Some_0.0@
                    && record.timestamp == found->Some_0.1,
                Err(e) => found is None && e == WireError::NotARecord,
            },
    {
        match found {
            Some((answer, timestamp)) => Ok(CaptchaFields { answer: CaptchaAnswer::from_str(answer), timestamp }),
            None => Err(WireError::NotARecord),
        }
    }

    /// Reads a record back. What [`CaptchaFields::json_string`] wrote is read
    /// as it was written; a text in another JSON form is read as JSON; any
    /// other text is no record.
    pub fn from_json_str(text: &str) -> (read: Result<Self, WireError>)
        ensures
            match read {
                Ok(record) => Self::read(text@) == Some((record.answer@, record.timestamp)),
                Err(e) => e == WireError::NotARecord && Self::read(text@) is None,
            },
    {
        proof {
            reveal_strlit("answer");
        }
        assert("answer"@ =~= Self::field_name());
        Self::from_fields(read_record(text, "answer"))
    }

    /// A record read back from its wire form is the record that was
    /// written, field for field.
    pub proof fn lemma_round_trip(answer: Seq<char>, timestamp: i64)
        ensures
            Self::read(Self::wire(answer, timestamp)) == Some((answer, timestamp)),
    {
        lemma_read_written(Self::field_name(), answer, timestamp);
    }

    /// The wire form of a record decodes to the record's creation time.
    pub proof fn lemma_decoded_timestamp(answer: Seq<char>, timestamp: i64)
        ensures
            <Self as Expirable>::decoded_timestamp(Self::wire(answer, timestamp)) == Some(timestamp),
    {
        Self::lemma_round_trip(answer, timestamp);
    }
}

impl Timestampable for CaptchaFields {
    open spec fn created_at(&self) -> i64 {
        self.timestamp
    }

    fn get_timestamp(&self) -> (t: i64) {
        self.timestamp
    }
}

impl Expirable for CaptchaFields {
    open spec fn decoded_timestamp(raw: Seq<char>) -> Option<i64> {
        match Self::read(raw) {
            Some((answer, timestamp)) => Some(timestamp),
            None => None,
        }
    }

    fn decode(raw: &str) -> (record: Option<Self>) {
        match Self::from_json_str(raw) {
            Ok(r) => Some(r),
            Err(_) => None,
        }
    }
}

/// Whether `uuid::Uuid::from_str` takes `text` for a UUID.
pub uninterp spec fn uuid_format(text: Seq<char>) -> bool;

/// The text that `Uuid::to_string` writes for the UUID of the bits
/// `bits`.
pub uninterp spec fn uuid_text(bits: u128) -> Seq<char>;

/// `uuid::Uuid::from_str`: says whether the text parses as a UUID, in any
/// of the forms the crate writes. The verdict depends on the text alone.
#[verifier::external_body]
fn uuid_parses(text: &str) -> (valid: bool)
    ensures
        valid == uuid_format(text@),
{
    <uuid::Uuid as std::str::FromStr>::from_str(text).is_ok()
}

/// `Uuid::to_string` on `Uuid::from_u128(bits)`: the hyphenated lower-case
/// form, which is 36 characters long and which the parser takes back.
#[verifier::external_body]
fn uuid_to_string(bits: u128) -> (text: String)
    ensures
        text@ == uuid_text(bits),
        text@.len() == 36,
        uuid_format(text@),
{
    uuid::Uuid::from_u128(bits).to_string()
}

/// `Uuid::new_v4`, as its 128 bits: a random UUID.
#[verifier::external_body]
fn uuid_new_v4() -> (bits: u128) {
    uuid::Uuid::new_v4().as_u128()
}

/// The key under which the captcha dataset holds an answer.
#[derive(Debug)]
pub struct CaptchaID(String);

impl View for CaptchaID {
    type V = Seq<char>;

    closed spec fn view(&self) -> Seq<char> {
        self.0@
    }
}

impl CaptchaID {
    /// Takes `captcha_id` exactly if it parses as a UUID.
    pub fn parse(captcha_id: String) -> (parsed: Result<Self, AppError>)
        ensures
            match parsed {
                Ok(id) => uuid_format(captcha_id@) && id@ == captcha_id@,
                Err(e) => !uuid_format(captcha_id@) && e@ == AppFailure::of(
                    AppErrorType::ValidationError(FieldValidationError::InvalidCaptchaID),
                ),
            },
    {
        let valid = uuid_parses(captcha_id.as_str());
        Self::from_checked(captcha_id, valid)
    }

    /// The id `captcha_id` if the check of its format said `valid`, the
    /// format error if it did not.
    pub fn from_checked(captcha_id: String, valid: bool) -> (parsed: Result<Self, AppError>)
        ensures
            match parsed {
                Ok(id) => valid && id@ == captcha_id@,
                Err(e) => !valid && e@ == AppFailure::of(
                    AppErrorType::ValidationError(FieldValidationError::InvalidCaptchaID),
                ),
            },
    {
        if !valid {
            return Err(AppError::from(FieldValidationError::InvalidCaptchaID));
        }
        Ok(CaptchaID(captcha_id))
    }

    /// The id that the UUID of the bits `id` writes. It is never the
    /// placeholder, and it parses.
    pub fn from_uuid(id: u128) -> (made: Self)
        ensures
            made@ == uuid_text(id),
            made@.len() == 36,
            uuid_format(made@),
    {
        CaptchaID(uuid_to_string(id))
    }

    /// Takes `id` as it is.
    pub fn from_str(id: String) -> (made: Self)
        ensures
            made@ == id@,
    {
        CaptchaID(id)
    }

    pub fn as_str(&self) -> (s: &str)
        ensures
            s@ == self@,
    {
        self.0.as_str()
    }
}

impl EmptyGeneratable for CaptchaID {
    open spec fn is_placeholder(&self) -> bool {
        self@.len() == 0
    }

    fn generate_empty() -> (e: Self) {
        CaptchaID(String::new())
    }
}

/// Used for id vector allocation: the copy is the empty placeholder, never
/// a second id of the same text.
impl Clone for CaptchaID {
    fn clone(&self) -> (copy: Self)
        ensures
            copy.is_placeholder(),
    {
        Self::generate_empty()
    }
}

impl Keyable for CaptchaID {
    open spec fn text(&self) -> Seq<char> {
        self@
    }

    fn from_stored(raw: String) -> (key: Self) {
        CaptchaID::from_str(raw)
    }

    fn to_stored(&self) -> (raw: String) {
        self.0.clone()
    }
}

/// `captcha::gen` at `Difficulty::Hard`, then `as_base64` and
/// `chars_as_string` on what it made: the characters of a random captcha
/// and its image as base64, or nothing where the image could not be
/// encoded. The captcha is random, so nothing is claimed of either text.
#[verifier::external_body]
fn draw_captcha() -> (drawn: Option<(String, String)>) {
    let drawn = ::captcha::gen(::captcha::Difficulty::Hard);
    match drawn.as_base64() {
        Some(img) => Some((drawn.chars_as_string(), img)),
        None => None,
    }
}

/// A captcha: the id it is stored under, its answer and its image.
pub struct Captcha {
    id: CaptchaID,
    answer: CaptchaAnswer,
    img: String,
}

/// What the client is told of a captcha: its id and its image.
#[derive(Debug)]
pub struct CaptchaResponseData {
    pub id: CaptchaID,
    pub img: String,
}

impl Captcha {
    pub closed spec fn id(&self) -> Seq<char> {
        self.id@
    }

    pub closed spec fn answer(&self) -> Seq<char> {
        self.answer@
    }

    pub closed spec fn img(&self) -> Seq<char> {
        self.img@
    }

    /// The captcha of the id `id` made of what was drawn: its characters
    /// and its image. Where nothing was drawn, generation has failed.
    pub fn assemble(id: u128, drawn: Option<(String, String)>) -> (made: Result<Self, AppError>)
        ensures
            match made {
                Ok(c) => drawn is Some && c.id() == uuid_text(id) && c.id().len() == 36
                    && uuid_format(c.id()) && c.answer() == drawn->Some_0.0@ && c.img()
                    == drawn->Some_0.1@,
                Err(e) => drawn is None && e@ == AppFailure::of(
                    AppErrorType::RegistrationError(CreateUserError::CaptchaGeneration),
                ),
            },
    {
        match drawn {
            Some((chars, img)) => Ok(
                Captcha {
                    id: CaptchaID::from_uuid(id),
                    answer: CaptchaAnswer::from_str(chars),
                    img,
                },
            ),
            None => Err(AppError::from(CreateUserError::CaptchaGeneration)),
        }
    }

    /// A fresh captcha under a fresh random id. Its id is never the
    /// placeholder.
    pub fn generate() -> (made: Result<Self, AppError>)
        ensures
            match made {
                Ok(c) => c.id().len() == 36 && uuid_format(c.id()),
                Err(e) => e@ == AppFailure::of(
                    AppErrorType::RegistrationError(CreateUserError::CaptchaGeneration),
                ),
            },
    {
        let drawn = draw_captcha();
        Self::assemble(uuid_new_v4(), drawn)
    }

    /// The record to store for this captcha, made at `timestamp`, and the
    /// key to store it under.
    pub fn stored_fields(&self, timestamp: i64) -> (entry: (String, String))
        ensures
            entry.0@ == self.id(),
            entry.1@ == CaptchaFields::wire(self.answer(), timestamp),
    {
        let text = match CaptchaFields::json_string(self.answer.clone(), timestamp) {
            Ok(text) => text,
            Err(_) => String::new(),
        };
        (self.id.to_stored(), text)
    }

    pub fn get_response_data(self) -> (data: CaptchaResponseData)
        ensures
            data.id@ == self.id(),
            data.img@ == self.img(),
    {
        CaptchaResponseData { id: self.id, img: self.img }
    }
}

/// The answer of the record that `fields` holds under `id`, if it holds a
/// record there.
pub open spec fn stored_answer(fields: Seq<Field>, id: Seq<char>) -> Option<Seq<char>> {
    if exists|text: Seq<char>| #[trigger] fields.contains((id, text)) {
        match CaptchaFields::read(choose|text: Seq<char>| #[trigger] fields.contains((id, text))) {
            Some((answer, timestamp)) => Some(answer),
            None => None,
        }
    } else {
        None
    }
}

/// The error for an answer that is not the captcha's.
pub open spec fn invalid_captcha_answer() -> AppFailure {
    AppFailure::of(AppErrorType::ValidationError(FieldValidationError::InvalidCaptchaAnswer))
}

/// The error for an id under which no captcha is stored.
pub open spec fn invalid_captcha_id() -> AppFailure {
    AppFailure::of(AppErrorType::ValidationError(FieldValidationError::InvalidCaptchaID))
}

/// The error for a captcha that could not be made.
pub open spec fn captcha_generation_failed() -> AppFailure {
    AppFailure::of(AppErrorType::RegistrationError(CreateUserError::CaptchaGeneration))
}

impl CaptchaAnswer {
    /// Holds the answer against the stored record: it must be the
    /// record's answer, character for character.
    pub fn check_against(&self, fields: &CaptchaFields) -> (checked: Result<(), AppError>)
        ensures
            match checked {
                Ok(()) => fields.answer@ == self@,
                Err(e) => fields.answer@ != self@ && e@ == invalid_captcha_answer(),
            },
    {
        if !fields.answer.same_as(self) {
            return Err(AppError::from(FieldValidationError::InvalidCaptchaAnswer));
        }
        Ok(())
    }

    /// The record that a read of a captcha's field found: the record the
    /// text decodes to. Where the store held nothing, or something that
    /// is no record, the id is invalid.
    pub fn fields_from(found: Option<String>) -> (fields: Result<CaptchaFields, AppError>)
        ensures
            match fields {
                Ok(record) => found is Some && CaptchaFields::read(found->Some_0@) == Some(
                    (record.answer@, record.timestamp),
                ),
                Err(e) => e@ == invalid_captcha_id() && (found is Some ==> CaptchaFields::read(
                    found->Some_0@,
                ) is None),
            },
    {
        match found {
            Some(text) => match CaptchaFields::from_json_str(text.as_str()) {
                Ok(record) => Ok(record),
                Err(_) => Err(AppError::from(FieldValidationError::InvalidCaptchaID)),
            },
            None => Err(AppError::from(FieldValidationError::InvalidCaptchaID)),
        }
    }

    /// Checks `captcha_answer` against the record stored under
    /// `captcha_id`, and removes the record if the answer is right, so
    /// that a captcha is solved once. A wrong answer leaves the record in
    /// place. An id under which no record is stored is invalid, as is the
    /// id of a captcha that has been solved already.
    pub fn is_valid_captcha_answer(
        store: &mut MemoryHash,
        captcha_answer: &CaptchaAnswer,
        captcha_id: &CaptchaID,
    ) -> (checked: Result<(), AppError>)
        requires
            old(store).wf(),
        ensures
            final(store).wf(),
            match stored_answer(old(store)@, captcha_id@) {
                Some(answer) => if answer == captcha_answer@ {
                    checked is Ok && final(store)@ == without(old(store)@, set![captcha_id@])
                } else {
                    checked is Err && checked->Err_0@ == invalid_captcha_answer() && final(store)@
                        == old(store)@
                },
                None => checked is Err && final(store)@ == old(store)@ && checked->Err_0@
                    == invalid_captcha_id(),
            },
    {
        let found = store.get_one(captcha_id.as_str());
        proof {
            if found is Some {
                lemma_stored_text(store@, captcha_id@, found->Some_0@);
            } else {
                lemma_absent_answer(store@, captcha_id@);
            }
        }
        let fields = match Self::fields_from(found) {
            Ok(fields) => fields,
            Err(e) => {
                return Err(e);
            },
        };
        match captcha_answer.check_against(&fields) {
            Ok(()) => {
                store.delete_one(captcha_id.as_str());
                Ok(())
            },
            Err(e) => Err(e),
        }
    }

    /// A captcha is solved once: after a right answer the store holds
    /// nothing under the id, so a second check of the same id finds the id
    /// invalid.
    pub proof fn lemma_solved_once(before: Seq<Field>, captcha_id: Seq<char>)
        ensures
            stored_answer(without(before, set![captcha_id]), captcha_id) is None,
    {
        crate::store::lemma_dropped_key_is_gone(before, captcha_id);
        lemma_absent_answer(without(before, set![captcha_id]), captcha_id);
    }
}

/// Where the hash holds nothing under `id`, there is no stored answer.
proof fn lemma_absent_answer(fields: Seq<Field>, id: Seq<char>)
    requires
        !has_key(fields, id),
    ensures
        stored_answer(fields, id) is None,
{
    if exists|held: Seq<char>| #[trigger] fields.contains((id, held)) {
        let held = choose|held: Seq<char>| #[trigger] fields.contains((id, held));
        let i = choose|i: int| 0 <= i < fields.len() && fields[i] == (id, held);
        assert(fields[i].0 == id);
    }
}

/// Where the hash holds `text` under `id`, the stored answer is the answer
/// that `text` reads as.
proof fn lemma_stored_text(fields: Seq<Field>, id: Seq<char>, text: Seq<char>)
    requires
        crate::store::unique_keys(fields),
        fields.contains((id, text)),
    ensures
        stored_answer(fields, id) == match CaptchaFields::read(text) {
            Some((answer, timestamp)) => Some(answer),
            None => None::<Seq<char>>,
        },
{
    let held = choose|held: Seq<char>| #[trigger] fields.contains((id, held));
    lemma_one_value_per_key(fields, id, text, held);
}

/// Where the hash holds the record of `answer` under `id`, that is the
/// stored answer.
pub proof fn lemma_stored_answer(fields: Seq<Field>, id: Seq<char>, answer: Seq<char>, timestamp: i64)
    requires
        crate::store::unique_keys(fields),
        fields.contains((id, CaptchaFields::wire(answer, timestamp))),
    ensures
        stored_answer(fields, id) == Some(answer),
{
    lemma_stored_text(fields, id, CaptchaFields::wire(answer, timestamp));
    CaptchaFields::lemma_round_trip(answer, timestamp);
}

impl Captcha {
    /// What becomes of a reload once the old captcha has been deleted: an
    /// id under which nothing was stored is invalid.
    pub fn reloadable(existed: bool) -> (checked: Result<(), AppError>)
        ensures
            match checked {
                Ok(()) => existed,
                Err(e) => !existed && e@ == invalid_captcha_id(),
            },
    {
        if !existed {
            return Err(AppError::from(FieldValidationError::InvalidCaptchaID));
        }
        Ok(())
    }

    /// Replaces the captcha stored under `id` by a fresh one: removes the
    /// old record and makes a new captcha. An id under which nothing is
    /// stored is invalid.
    pub fn reload_captcha(id: CaptchaID, store: &mut MemoryHash) -> (made: Result<Self, AppError>)
        requires
            old(store).wf(),
        ensures
            final(store).wf(),
            final(store)@ == without(old(store)@, set![id@]),
            match made {
                Ok(c) => has_key(old(store)@, id@) && c.id().len() == 36 && uuid_format(c.id()),
                Err(e) => if has_key(old(store)@, id@) {
                    e@ == captcha_generation_failed()
                } else {
                    e@ == invalid_captcha_id()
                },
            },
    {
        let existed = store.delete_one(id.as_str());
        match Self::reloadable(existed) {
            Ok(()) => Self::generate(),
            Err(e) => Err(e),
        }
    }

    /// Gives the captcha the id that the UUID of the bits `fresh` writes;
    /// its answer and its image stay.
    pub fn renew_id(&mut self, fresh: u128)
        ensures
            final(self).id() == uuid_text(fresh),
            final(self).id().len() == 36,
            uuid_format(final(self).id()),
            final(self).answer() == old(self).answer(),
            final(self).img() == old(self).img(),
    {
        self.id = CaptchaID::from_uuid(fresh);
    }

    /// What the store's answer to a set-if-absent makes of a captcha: one
    /// that the store took is issued as it is; one whose id was taken gets
    /// a fresh random id, under which it is to be tried again. A taken id
    /// is no error.
    pub fn stored(&mut self, res: bool) -> (issued: bool)
        ensures
            issued == res,
            final(self).answer() == old(self).answer(),
            final(self).img() == old(self).img(),
            res ==> final(self).id() == old(self).id(),
            !res ==> final(self).id().len() == 36 && uuid_format(final(self).id()),
    {
        if !res {
            self.renew_id(uuid_new_v4());
        }
        res
    }

    /// One attempt to store the captcha's answer under its id, stamped
    /// `timestamp`. Where the id is free the record is stored; where it is
    /// taken the store stays as it is, the captcha gets a fresh id, and
    /// the caller tries again.
    pub fn store_captcha_answer_at(&mut self, store: &mut MemoryHash, timestamp: i64) -> (stored:
        bool)
        requires
            old(store).wf(),
        ensures
            final(store).wf(),
            stored == !has_key(old(store)@, old(self).id()),
            final(self).answer() == old(self).answer(),
            final(self).img() == old(self).img(),
            stored ==> final(self).id() == old(self).id() && final(store)@ == old(store)@.push(
                (old(self).id(), CaptchaFields::wire(old(self).answer(), timestamp)),
            ),
            !stored ==> final(store)@ == old(store)@ && final(self).id().len() == 36
                && uuid_format(final(self).id()),
    {
        let (id, answer) = self.stored_fields(timestamp);
        let res = store.insert_if_absent(id.as_str(), answer.as_str());
        self.stored(res)
    }

    /// One attempt to store the captcha's answer under its id, stamped
    /// with the clock's reading. Where the id is taken the store stays as
    /// it is, the captcha gets a fresh id, and the caller tries again.
    pub fn store_captcha_answer_in_redis(&mut self, store: &mut MemoryHash) -> (stored: bool)
        requires
            old(store).wf(),
        ensures
            final(store).wf(),
            stored == !has_key(old(store)@, old(self).id()),
            final(self).answer() == old(self).answer(),
            final(self).img() == old(self).img(),
            stored ==> final(self).id() == old(self).id() && exists|timestamp: i64|
                final(store)@ == old(store)@.push(
                    (old(self).id(), #[trigger] CaptchaFields::wire(old(self).answer(), timestamp)),
                ),
            !stored ==> final(store)@ == old(store)@ && final(self).id().len() == 36
                && uuid_format(final(self).id()),
    {
        let timestamp = unix_now();
        let stored = self.store_captcha_answer_at(store, timestamp);
        proof {
            if stored {
                assert(store@ == old(store)@.push(
                    (old(self).id(), CaptchaFields::wire(old(self).answer(), timestamp)),
                ));
            }
        }
        stored
    }
}

} // verus!
