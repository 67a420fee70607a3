//! Errors produced while validating or persisting state-store records.

use vstd::prelude::*;
use vstd::string::*;

use crate::text;
use crate::text::{append_decimal, join3, join4, join5, signed_decimal_text};

verus! {

/// Why the store refused a record or a write.
#[derive(Debug)]
pub enum StoreError {
    IdentityConflict { entity: &'static str, key: String },
    ObservationConflict { entity: &'static str, key: String, observed_at: i64 },
    NotFound { entity: &'static str, key: String },
    StaleWrite { entity: &'static str, key: String },
    InvalidRecord { entity: &'static str, key: String, reason: String },
    CorruptData { entity: &'static str, key: String, reason: String },
    InvalidInteger { field: &'static str, value: u64 },
    InvalidSequence { field: &'static str },
    SnapshotUnavailable { intent_id: String, input: &'static str },
    Initialization(String),
    Serialization(String),
    Database(String),
}

/// What a [`StoreError`] says, over mathematical texts and numbers.
pub enum Fault {
    IdentityConflict { entity: Seq<char>, key: Seq<char> },
    ObservationConflict { entity: Seq<char>, key: Seq<char>, observed_at: int },
    NotFound { entity: Seq<char>, key: Seq<char> },
    StaleWrite { entity: Seq<char>, key: Seq<char> },
    InvalidRecord { entity: Seq<char>, key: Seq<char>, reason: Seq<char> },
    CorruptData { entity: Seq<char>, key: Seq<char>, reason: Seq<char> },
    InvalidInteger { field: Seq<char>, value: nat },
    InvalidSequence { field: Seq<char> },
    SnapshotUnavailable { intent_id: Seq<char>, input: Seq<char> },
    Initialization(Seq<char>),
    Serialization(Seq<char>),
    Database(Seq<char>),
}

impl View for StoreError {
    type V = Fault;

    open spec fn view(&self) -> Fault {
        match self {
            StoreError::IdentityConflict { entity, key } => Fault::IdentityConflict {
                entity: entity@,
                key: key@,
            },
            StoreError::ObservationConflict { entity, key, observed_at } => {
                Fault::ObservationConflict {
                    entity: entity@,
                    key: key@,
                    observed_at: *observed_at as int,
                }
            },
            StoreError::NotFound { entity, key } => Fault::NotFound { entity: entity@, key: key@ },
            StoreError::StaleWrite { entity, key } => Fault::StaleWrite {
                entity: entity@,
                key: key@,
            },
            StoreError::InvalidRecord { entity, key, reason } => Fault::InvalidRecord {
                entity: entity@,
                key: key@,
                reason: reason@,
            },
            StoreError::CorruptData { entity, key, reason } => Fault::CorruptData {
                entity: entity@,
                key: key@,
                reason: reason@,
            },
            StoreError::InvalidInteger { field, value } => Fault::InvalidInteger {
                field: field@,
                value: *value as nat,
            },
            StoreError::InvalidSequence { field } => Fault::InvalidSequence { field: field@ },
            StoreError::SnapshotUnavailable { intent_id, input } => Fault::SnapshotUnavailable {
                intent_id: intent_id@,
                input: input@,
            },
            StoreError::Initialization(text) => Fault::Initialization(text@),
            StoreError::Serialization(text) => Fault::Serialization(text@),
            StoreError::Database(text) => Fault::Database(text@),
        }
    }
}

/// The fault that a result carries, if it is an error.
pub open spec fn fault<T>(result: Result<T, StoreError>) -> Option<Fault> {
    match result {
        Ok(_) => None,
        Err(error) => Some(error@),
    }
}

/// The first of two faults, where there is one.
pub open spec fn first_of(first: Option<Fault>, second: Option<Fault>) -> Option<Fault> {
    if first is Some {
        first
    } else {
        second
    }
}

/// A record that contradicts itself or its neighbours.
pub open spec fn corrupt_fault(entity: Seq<char>, key: Seq<char>, reason: Seq<char>) -> Fault {
    Fault::CorruptData { entity, key, reason }
}

/// A request that the store does not accept.
pub open spec fn invalid_fault(entity: Seq<char>, key: Seq<char>, reason: Seq<char>) -> Fault {
    Fault::InvalidRecord { entity, key, reason }
}

/// Two different facts that claim one identity.
pub open spec fn conflict_fault(entity: Seq<char>, key: Seq<char>) -> Fault {
    Fault::IdentityConflict { entity, key }
}

/// A write that was overtaken by another.
pub open spec fn stale_fault(entity: Seq<char>, key: Seq<char>) -> Fault {
    Fault::StaleWrite { entity, key }
}

/// A record that is not there.
pub open spec fn missing_fault(entity: Seq<char>, key: Seq<char>) -> Fault {
    Fault::NotFound { entity, key }
}

/// The sentence in which an error is reported.
pub open spec fn fault_message(fault: Fault) -> Seq<char> {
    match fault {
        Fault::IdentityConflict { entity, key } => entity + " identity conflict for "@ + key,
        Fault::ObservationConflict { entity, key, observed_at } => entity
            + " observation conflict for "@ + key + " at "@ + text::signed_decimal(observed_at),
        Fault::NotFound { entity, key } => entity + " not found for "@ + key,
        Fault::StaleWrite { entity, key } => "stale "@ + entity + " write for "@ + key,
        Fault::InvalidRecord { entity, key, reason } => "invalid "@ + entity + " record "@ + key
            + ": "@ + reason,
        Fault::CorruptData { entity, key, reason } => entity + " record "@ + key + " is corrupt: "@
            + reason,
        Fault::InvalidInteger { field, value } => field + " value "@ + text::decimal(value)
            + " does not fit in a SQLite INTEGER"@,
        Fault::InvalidSequence { field } => field + " must be greater than zero"@,
        Fault::SnapshotUnavailable { intent_id, input } => "risk snapshot for intent "@ + intent_id
            + " is unavailable: "@ + input,
        Fault::Initialization(text) => "failed to initialize the state store: "@ + text,
        Fault::Serialization(text) => text,
        Fault::Database(text) => text,
    }
}

impl StoreError {
    pub fn corrupt(entity: &'static str, key: &str, reason: &str) -> (e: StoreError)
        ensures
            e@ == corrupt_fault(entity@, key@, reason@),
    {
        StoreError::CorruptData { entity, key: key.to_owned(), reason: reason.to_owned() }
    }

    pub fn invalid(entity: &'static str, key: &str, reason: &str) -> (e: StoreError)
        ensures
            e@ == invalid_fault(entity@, key@, reason@),
    {
        StoreError::InvalidRecord { entity, key: key.to_owned(), reason: reason.to_owned() }
    }

    pub fn conflict(entity: &'static str, key: &str) -> (e: StoreError)
        ensures
            e@ == conflict_fault(entity@, key@),
    {
        StoreError::IdentityConflict { entity, key: key.to_owned() }
    }

    pub fn stale(entity: &'static str, key: &str) -> (e: StoreError)
        ensures
            e@ == stale_fault(entity@, key@),
    {
        StoreError::StaleWrite { entity, key: key.to_owned() }
    }

    pub fn missing(entity: &'static str, key: &str) -> (e: StoreError)
        ensures
            e@ == missing_fault(entity@, key@),
    {
        StoreError::NotFound { entity, key: key.to_owned() }
    }

    /// The sentence in which the error is reported.
    pub fn message(&self) -> (r: String)
        ensures
            r@ == fault_message(self@),
    {
        match self {
            StoreError::IdentityConflict { entity, key } => join3(
                entity,
                " identity conflict for ",
                key.as_str(),
            ),
            StoreError::ObservationConflict { entity, key, observed_at } => join5(
                entity,
                " observation conflict for ",
                key.as_str(),
                " at ",
                signed_decimal_text(*observed_at).as_str(),
            ),
            StoreError::NotFound { entity, key } => join3(entity, " not found for ", key.as_str()),
            StoreError::StaleWrite { entity, key } => join4(
                "stale ",
                entity,
                " write for ",
                key.as_str(),
            ),
            StoreError::InvalidRecord { entity, key, reason } => {
                let mut out = join5("invalid ", entity, " record ", key.as_str(), ": ");
                out.append(reason.as_str());
                out
            },
            StoreError::CorruptData { entity, key, reason } => join5(
                entity,
                " record ",
                key.as_str(),
                " is corrupt: ",
                reason.as_str(),
            ),
            StoreError::InvalidInteger { field, value } => {
                let mut out = (*field).to_owned();
                out.append(" value ");
                append_decimal(&mut out, *value);
                out.append(" does not fit in a SQLite INTEGER");
                out
            },
            StoreError::InvalidSequence { field } => {
                let mut out = (*field).to_owned();
                out.append(" must be greater than zero");
                out
            },
            StoreError::SnapshotUnavailable { intent_id, input } => join4(
                "risk snapshot for intent ",
                intent_id.as_str(),
                " is unavailable: ",
                input,
            ),
            StoreError::Initialization(text) => {
                let mut out = "failed to initialize the state store: ".to_owned();
                out.append(text.as_str());
                out
            },
            StoreError::Serialization(text) => text.clone(),
            StoreError::Database(text) => text.clone(),
        }
    }
}

/// What is wrong first is reported, and nothing is reported only if nothing is
/// wrong.
pub proof fn the_first_fault_is_reported(first: Option<Fault>, second: Option<Fault>)
    ensures
        first_of(first, second) is None <==> first is None && second is None,
        first is Some ==> first_of(first, second) == first,
        first is None ==> first_of(first, second) == second,
{
}

/// A result is without fault if and only if it succeeded.
pub proof fn successes_have_no_fault<T>(result: Result<T, StoreError>)
    ensures
        fault(result) is None <==> result is Ok,
{
}

/// A message says what is concerned and what is wrong with it.
pub proof fn messages_say_what_is_wrong(
    entity: Seq<char>,
    key: Seq<char>,
    reason: Seq<char>,
    value: nat,
    at: int,
)
    ensures
        fault_message(Fault::IdentityConflict { entity, key }) == entity
            + " identity conflict for "@ + key,
        fault_message(Fault::ObservationConflict { entity, key, observed_at: at }) == entity
            + " observation conflict for "@ + key + " at "@ + text::signed_decimal(at),
        fault_message(Fault::NotFound { entity, key }) == entity + " not found for "@ + key,
        fault_message(Fault::StaleWrite { entity, key }) == "stale "@ + entity + " write for "@
            + key,
        fault_message(Fault::InvalidRecord { entity, key, reason }) == "invalid "@ + entity
            + " record "@ + key + ": "@ + reason,
        fault_message(Fault::CorruptData { entity, key, reason }) == entity + " record "@ + key
            + " is corrupt: "@ + reason,
        fault_message(Fault::InvalidInteger { field: entity, value }) == entity + " value "@
            + text::decimal(value) + " does not fit in a SQLite INTEGER"@,
        fault_message(Fault::InvalidSequence { field: entity }) == entity
            + " must be greater than zero"@,
        fault_message(Fault::SnapshotUnavailable { intent_id: key, input: reason })
            == "risk snapshot for intent "@ + key + " is unavailable: "@ + reason,
        fault_message(Fault::Initialization(reason)) == "failed to initialize the state store: "@
            + reason,
        fault_message(Fault::Serialization(reason)) == reason,
        fault_message(Fault::Database(reason)) == reason,
{
}

}
