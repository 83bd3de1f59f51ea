use crate::logic::user::validate::Email;
use crate::logic::wire::{
    lemma_read_written, read_record, record_read, record_text, write_record, WireError,
};
use crate::tasks::redis_fields_deletion::Timestampable;
use crate::tasks::sweep::Expirable;
use vstd::prelude::*;

verus! {

/// What the email dataset holds under a token: the address to confirm and
/// the Unix time at which the token was issued.
#[derive(Debug)]
pub struct ConfirmEmail {
    pub email: Email,
    pub timestamp: i64,
}

impl ConfirmEmail {
    /// The name of the field that holds the address.
    pub open spec fn field_name() -> Seq<char> {
        seq!['e', 'm', 'a', 'i', 'l']
    }

    /// The wire form of the record of `email` made at `timestamp`:
    /// `{"email":"...","timestamp":...}`.
    pub open spec fn wire(email: Seq<char>, timestamp: i64) -> Seq<char> {
        record_text(Self::field_name(), email, timestamp as int)
    }

    /// Writes the record of `email` made at `timestamp`.
    pub fn json_string(email: Email, timestamp: i64) -> (text: Result<String, WireError>)
        ensures
            text is Ok,
            text->Ok_0@ == Self::wire(email@, timestamp),
    {
        proof {
            reveal_strlit("email");
        }
        assert("email"@ =~= Self::field_name());
        Ok(write_record("email", email.as_str(), timestamp))
    }

    /// What a text reads as: the address and the creation time of the
    /// record it holds, if it holds one.
    pub open spec fn read(text: Seq<char>) -> Option<(Seq<char>, i64)> {
        record_read(text, Self::field_name())
    }

    /// The record of the fields that were read, if any were.
    pub fn from_fields(found: Option<(String, i64)>) -> (read: Result<Self, WireError>)
        ensures
            match read {
                Ok(record) => found is Some && record.email@ == found->Some_0.0@
                    && record.timestamp == found->Some_0.1,
                Err(e) => found is None && e == WireError::NotARecord,
            },
    {
        match found {
            Some((email, timestamp)) => Ok(ConfirmEmail { email: Email::from(email), timestamp }),
            None => Err(WireError::NotARecord),
        }
    }

    /// Reads a record back. What [`ConfirmEmail::json_string`] wrote is read
    /// as it was written; a text in another JSON form is read as JSON; any
    /// other text is no record.
    pub fn from_json_str(text: &str) -> (read: Result<Self, WireError>)
        ensures
            match read {
                Ok(record) => Self::read(text@) == Some((record.email@, record.timestamp)),
                Err(e) => e == WireError::NotARecord && Self::read(text@) is None,
            },
    {
        proof {
            reveal_strlit("email");
        }
        assert("email"@ =~= Self::field_name());
        Self::from_fields(read_record(text, "email"))
    }

    /// A record read back from its wire form is the record that was
    /// written, field for field.
    pub proof fn lemma_round_trip(email: Seq<char>, timestamp: i64)
        ensures
            Self::read(Self::wire(email, timestamp)) == Some((email, timestamp)),
    {
        lemma_read_written(Self::field_name(), email, timestamp);
    }

    /// The wire form of a record decodes to the record's creation time.
    pub proof fn lemma_decoded_timestamp(email: Seq<char>, timestamp: i64)
        ensures
            <Self as Expirable>::decoded_timestamp(Self::wire(email, timestamp)) == Some(timestamp),
    {
        Self::lemma_round_trip(email, timestamp);
    }
}

impl Timestampable for ConfirmEmail {
    open spec fn created_at(&self) -> i64 {
        self.timestamp
    }

    fn get_timestamp(&self) -> (t: i64) {
        self.timestamp
    }
}

impl Expirable for ConfirmEmail {
    open spec fn decoded_timestamp(raw: Seq<char>) -> Option<i64> {
        match Self::read(raw) {
            Some((email, timestamp)) => Some(timestamp),
            None => None,
        }
    }

    fn decode(raw: &str) -> (record: Option<Self>) {
        match Self::from_json_str(raw) {
            Ok(r) => Some(r),
            Err(_) => None,
        }
    }
}

} // verus!
