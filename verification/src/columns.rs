//! Columns of a stored row: enumerations, copies of payload fields, digests.

use vstd::prelude::*;
use vstd::string::*;

use crate::error;
use crate::error::{Fault, StoreError};
use crate::json;
use crate::json::CanonicalJson;
use crate::text;
use crate::text::{is_lower_hex_64, join2, join5, quoted, same_optional, same_text};

verus! {

/// A column that holds one value of an enumeration: its text, and what the
/// enumeration's own parser makes of it.
pub struct EnumColumn<T> {
    pub text: String,
    pub parsed: Result<T, String>,
}

/// A column that holds JSON, with the digest beside it.
pub struct JsonColumns {
    pub text: String,
    pub digest: String,
}

/// The same column once more.
pub fn copy_enum_column(value: &EnumColumn<String>) -> (r: EnumColumn<String>)
    ensures
        r == *value,
{
    EnumColumn {
        text: value.text.clone(),
        parsed: match &value.parsed {
            Ok(parsed) => Ok(parsed.clone()),
            Err(error) => Err(error.clone()),
        },
    }
}

/// What is wrong with a column that holds an enumeration.
pub open spec fn enum_fault<T>(
    entity: Seq<char>,
    key: Seq<char>,
    column: Seq<char>,
    value: EnumColumn<T>,
) -> Option<Fault> {
    match value.parsed {
        Ok(_) => None,
        Err(error) => Some(
            error::corrupt_fault(
                entity,
                key,
                "invalid "@ + column + " value "@ + text::debug_text(value.text@) + ": "@ + error@,
            ),
        ),
    }
}

/// The value of a column that holds an enumeration.
pub fn parse_enum_column<T>(
    entity: &'static str,
    key: &str,
    column: &'static str,
    value: EnumColumn<T>,
) -> (r: Result<T, StoreError>)
    ensures
        error::fault(r) == enum_fault(entity@, key@, column@, value),
        r matches Ok(parsed) ==> value.parsed == Ok::<T, String>(parsed),
{
    match value.parsed {
        Ok(parsed) => Ok(parsed),
        Err(error) => {
            let mut reason = join5(
                "invalid ",
                column,
                " value ",
                quoted(value.text.as_str()).as_str(),
                ": ",
            );
            reason.append(error.as_str());
            Err(StoreError::corrupt(entity, key, reason.as_str()))
        },
    }
}

/// What is wrong with an optional column that holds an enumeration.
pub open spec fn optional_enum_fault<T>(
    entity: Seq<char>,
    key: Seq<char>,
    column: Seq<char>,
    value: Option<EnumColumn<T>>,
) -> Option<Fault> {
    match value {
        Some(value) => enum_fault(entity, key, column, value),
        None => None,
    }
}

/// The value that an optional column parses to.
pub open spec fn optional_parsed<T>(value: Option<EnumColumn<T>>) -> Option<T> {
    match value {
        Some(value) => Some(value.parsed->Ok_0),
        None => None,
    }
}

/// The value of an optional column that holds an enumeration.
pub fn parse_optional_enum_column<T>(
    entity: &'static str,
    key: &str,
    column: &'static str,
    value: Option<EnumColumn<T>>,
) -> (r: Result<Option<T>, StoreError>)
    ensures
        error::fault(r) == optional_enum_fault(entity@, key@, column@, value),
        r matches Ok(parsed) ==> parsed == optional_parsed(value),
{
    match value {
        Some(value) => {
            let parsed = parse_enum_column(entity, key, column, value)?;
            Ok(Some(parsed))
        },
        None => Ok(None),
    }
}

/// The fault of a column that is not what the payload says.
pub open spec fn alias_fault(entity: Seq<char>, key: Seq<char>, column: Seq<char>) -> Fault {
    error::corrupt_fault(entity, key, column + " does not match payload_json"@)
}

/// A column agrees with the payload, or the fault that it does not.
pub open spec fn column_fault(
    entity: Seq<char>,
    key: Seq<char>,
    column: Seq<char>,
    agrees: bool,
) -> Option<Fault> {
    if agrees {
        None
    } else {
        Some(alias_fault(entity, key, column))
    }
}

fn alias_mismatch(entity: &'static str, key: &str, column: &'static str) -> (e: StoreError)
    ensures
        e@ == alias_fault(entity@, key@, column@),
{
    let reason = join2(column, " does not match payload_json");
    StoreError::corrupt(entity, key, reason.as_str())
}

/// Refuses a column that is not what the payload says.
pub fn validate_column(
    entity: &'static str,
    key: &str,
    column: &'static str,
    stored: &str,
    payload: &str,
) -> (r: Result<(), StoreError>)
    ensures
        error::fault(r) == column_fault(entity@, key@, column@, stored@ == payload@),
{
    if same_text(stored, payload) {
        Ok(())
    } else {
        Err(alias_mismatch(entity, key, column))
    }
}

/// Refuses an optional column that is not what the payload says.
pub fn validate_optional_column(
    entity: &'static str,
    key: &str,
    column: &'static str,
    stored: &Option<String>,
    payload: &Option<String>,
) -> (r: Result<(), StoreError>)
    ensures
        error::fault(r) == column_fault(
            entity@,
            key@,
            column@,
            text::optional_text(*stored) == text::optional_text(*payload),
        ),
{
    if same_optional(stored, payload) {
        Ok(())
    } else {
        Err(alias_mismatch(entity, key, column))
    }
}

/// Refuses a number that is not what the payload says.
pub fn validate_i64_column(
    entity: &'static str,
    key: &str,
    column: &'static str,
    stored: i64,
    payload: i64,
) -> (r: Result<(), StoreError>)
    ensures
        error::fault(r) == column_fault(entity@, key@, column@, stored == payload),
{
    if stored == payload {
        Ok(())
    } else {
        Err(alias_mismatch(entity, key, column))
    }
}

/// Refuses an optional number that is not what the payload says.
pub fn validate_optional_i64_column(
    entity: &'static str,
    key: &str,
    column: &'static str,
    stored: Option<i64>,
    payload: Option<i64>,
) -> (r: Result<(), StoreError>)
    ensures
        error::fault(r) == column_fault(entity@, key@, column@, stored == payload),
{
    let agrees = match (stored, payload) {
        (Some(stored), Some(payload)) => stored == payload,
        (None, None) => true,
        _ => false,
    };
    if agrees {
        Ok(())
    } else {
        Err(alias_mismatch(entity, key, column))
    }
}

/// What is wrong with a stored digest.
pub open spec fn digest_fault(entity: Seq<char>, key: Seq<char>, hash: Seq<char>) -> Option<Fault> {
    if text::lower_hex_64(hash) {
        None
    } else {
        Some(error::corrupt_fault(entity, key, "payload_hash is not lowercase SHA-256 hex"@))
    }
}

/// Refuses a text that is no digest.
pub fn validate_hash(entity: &'static str, key: &str, hash: &str) -> (r: Result<(), StoreError>)
    ensures
        error::fault(r) == digest_fault(entity@, key@, hash@),
{
    if is_lower_hex_64(hash) {
        Ok(())
    } else {
        Err(StoreError::corrupt(entity, key, "payload_hash is not lowercase SHA-256 hex"))
    }
}

/// What is wrong with JSON columns of which both or none must be present.
pub open spec fn optional_json_fault(
    entity: Seq<char>,
    key: Seq<char>,
    text: Option<String>,
    digest: Option<String>,
    partial: Seq<char>,
) -> Option<Fault> {
    match (text, digest) {
        (Some(text), Some(digest)) => json::stored_fault(entity, key, text@, digest@),
        (None, None) => None,
        _ => Some(error::corrupt_fault(entity, key, partial)),
    }
}

/// The canonical JSON of two columns of which both or none must be present.
pub fn optional_canonical(
    entity: &'static str,
    key: &str,
    text: Option<String>,
    digest: Option<String>,
    partial: &str,
) -> (r: Result<Option<CanonicalJson>, StoreError>)
    ensures
        error::fault(r) == optional_json_fault(entity@, key@, text, digest, partial@),
        r matches Ok(json) ==> match (json, text) {
            (Some(json), Some(text)) => json@ == text@,
            (None, None) => true,
            _ => false,
        },
{
    match (text, digest) {
        (Some(text), Some(digest)) => {
            let json = CanonicalJson::from_stored(entity, key, text, digest)?;
            Ok(Some(json))
        },
        (None, None) => Ok(None),
        _ => Err(StoreError::corrupt(entity, key, partial)),
    }
}

/// What is wrong with a payload that the domain cannot read.
pub open spec fn decode_fault<T>(
    entity: Seq<char>,
    key: Seq<char>,
    decoded: Result<T, String>,
) -> Option<Fault> {
    match decoded {
        Ok(_) => None,
        Err(error) => Some(
            error::corrupt_fault(entity, key, "payload_json DTO mismatch: "@ + error@),
        ),
    }
}

/// The record that the domain reads from a payload.
pub fn deserialize_payload<T>(entity: &'static str, key: &str, decoded: Result<T, String>) -> (r:
    Result<T, StoreError>)
    ensures
        error::fault(r) == decode_fault(entity@, key@, decoded),
        r matches Ok(record) ==> decoded == Ok::<T, String>(record),
{
    match decoded {
        Ok(record) => Ok(record),
        Err(error) => {
            let reason = join2("payload_json DTO mismatch: ", error.as_str());
            Err(StoreError::corrupt(entity, key, reason.as_str()))
        },
    }
}

/// Whether two optional times are the same.
pub fn same_time(a: Option<i64>, b: Option<i64>) -> (r: bool)
    ensures
        r == (a == b),
{
    match (a, b) {
        (Some(a), Some(b)) => a == b,
        (None, None) => true,
        _ => false,
    }
}

/// Whether two optional counts are the same.
pub fn same_count(a: Option<u64>, b: Option<u64>) -> (r: bool)
    ensures
        r == (a == b),
{
    match (a, b) {
        (Some(a), Some(b)) => a == b,
        (None, None) => true,
        _ => false,
    }
}

/// A column that is not there is no fault; one that is there is one only if it
/// cannot be read. A payload is kept with its digest or not at all.
pub proof fn columns_are_whole(
    entity: Seq<char>,
    key: Seq<char>,
    column: Seq<char>,
    agrees: bool,
    hash: Seq<char>,
    text: Option<String>,
    digest: Option<String>,
    partial: Seq<char>,
)
    ensures
        column_fault(entity, key, column, agrees) is None <==> agrees,
        digest_fault(entity, key, hash) is None <==> text::lower_hex_64(hash),
        optional_json_fault(entity, key, text, digest, partial) is None <==> (text is None
            && digest is None) || (text is Some && digest is Some && json::stored_fault(
            entity,
            key,
            (text->0)@,
            (digest->0)@,
        ) is None),
{
}

/// A value that is one of a few is read if it is one of them.
pub proof fn named_values_are_read<T>(
    entity: Seq<char>,
    key: Seq<char>,
    column: Seq<char>,
    value: EnumColumn<T>,
    decoded: Result<T, String>,
)
    ensures
        enum_fault(entity, key, column, value) is None <==> value.parsed is Ok,
        optional_enum_fault(entity, key, column, Some(value)) is None <==> value.parsed is Ok,
        optional_enum_fault::<T>(entity, key, column, None) is None,
        value.parsed is Ok ==> optional_parsed(Some(value)) == Some(value.parsed->Ok_0),
        optional_parsed::<T>(None) is None,
        decode_fault(entity, key, decoded) is None <==> decoded is Ok,
{
}

}
