use vstd::prelude::*;
use vstd::string::StringExecFns;

verus! {

/// Why a reaper stopped. Every variant is fatal for the task that met it.
#[derive(Debug)]
pub enum Task1Error {
    /// The scan over the dataset could not be opened.
    RedisIterError { err: String, hash_name: String },
    /// The store failed while deleting a batch.
    RedisRemovalError { err: String, hash_name: String },
    /// The store removed fewer keys than the batch held.
    Removal { hash_name: String },
    /// The dataset name is not one the service knows.
    InvalidHashName,
}

/// The mathematical value of a [`Task1Error`].
pub enum Task1Failure {
    RedisIterError { err: Seq<char>, hash_name: Seq<char> },
    RedisRemovalError { err: Seq<char>, hash_name: Seq<char> },
    Removal { hash_name: Seq<char> },
    InvalidHashName,
}

impl View for Task1Error {
    type V = Task1Failure;

    open spec fn view(&self) -> Task1Failure {
        match *self {
            Task1Error::RedisIterError { err, hash_name } => Task1Failure::RedisIterError {
                err: err@,
                hash_name: hash_name@,
            },
            Task1Error::RedisRemovalError { err, hash_name } => Task1Failure::RedisRemovalError {
                err: err@,
                hash_name: hash_name@,
            },
            Task1Error::Removal { hash_name } => Task1Failure::Removal { hash_name: hash_name@ },
            Task1Error::InvalidHashName => Task1Failure::InvalidHashName,
        }
    }
}

impl Task1Failure {
    /// What the error says of itself.
    pub open spec fn message(self) -> Seq<char> {
        match self {
            Task1Failure::RedisIterError { err, hash_name } => hash_name
                + " fields async iterator acquisition failed"@,
            Task1Failure::RedisRemovalError { err, hash_name } => "Removing "@ + hash_name
                + " fields from redis failed"@,
            Task1Failure::Removal { hash_name } => "Not all "@ + hash_name
                + " fields were removed from redis"@,
            Task1Failure::InvalidHashName => "Invalid redis hash name chosen for field deletion"@,
        }
    }
}

impl Task1Error {
    /// What the error says of itself.
    pub fn message(&self) -> (text: String)
        ensures
            text@ == self@.message(),
    {
        match self {
            Task1Error::RedisIterError { err, hash_name } => {
                let mut text = String::from_str(hash_name.as_str());
                text.append(" fields async iterator acquisition failed");
                text
            },
            Task1Error::RedisRemovalError { err, hash_name } => {
                let mut text = String::from_str("Removing ");
                text.append(hash_name.as_str());
                text.append(" fields from redis failed");
                text
            },
            Task1Error::Removal { hash_name } => {
                let mut text = String::from_str("Not all ");
                text.append(hash_name.as_str());
                text.append(" fields were removed from redis");
                text
            },
            Task1Error::InvalidHashName => String::from_str(
                "Invalid redis hash name chosen for field deletion",
            ),
        }
    }
}

} // verus!
