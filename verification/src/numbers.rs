//! Counters and their representation as signed 64-bit columns.

use vstd::prelude::*;
use vstd::string::*;

use crate::error;
use crate::error::{Fault, StoreError};
use crate::text::join2;

verus! {

/// What is wrong with a counter that is to be stored.
pub open spec fn stored_integer_fault(field: Seq<char>, value: nat) -> Option<Fault> {
    if value > i64::MAX {
        Some(Fault::InvalidInteger { field, value })
    } else {
        None
    }
}

/// The column value of a counter.
pub fn u64_to_i64(field: &'static str, value: u64) -> (r: Result<i64, StoreError>)
    ensures
        error::fault(r) == stored_integer_fault(field@, value as nat),
        r matches Ok(column) ==> column == value,
{
    if value > i64::MAX as u64 {
        Err(StoreError::InvalidInteger { field, value })
    } else {
        Ok(value as i64)
    }
}

/// What is wrong with counting one further, where the new count is to be
/// stored.
pub open spec fn increment_fault(field: Seq<char>, value: nat) -> Option<Fault> {
    if value >= u64::MAX {
        Some(Fault::InvalidInteger { field, value })
    } else {
        stored_integer_fault(field, value + 1)
    }
}

/// Counts one further, if the new count can be stored.
pub fn checked_increment(field: &'static str, value: u64) -> (r: Result<u64, StoreError>)
    ensures
        error::fault(r) == increment_fault(field@, value as nat),
        r matches Ok(next) ==> next == value + 1,
{
    if value == u64::MAX {
        return Err(StoreError::InvalidInteger { field, value });
    }
    let next: u64 = value + 1;
    u64_to_i64(field, next)?;
    Ok(next)
}

/// What is wrong with a sequence number that is to be stored.
pub open spec fn positive_integer_fault(field: Seq<char>, value: nat) -> Option<Fault> {
    if value == 0 {
        Some(Fault::InvalidSequence { field })
    } else {
        stored_integer_fault(field, value)
    }
}

/// The column value of a count that starts at one.
pub fn positive_u64_to_i64(field: &'static str, value: u64) -> (r: Result<i64, StoreError>)
    ensures
        error::fault(r) == positive_integer_fault(field@, value as nat),
        r matches Ok(column) ==> column == value,
{
    if value == 0 {
        return Err(StoreError::InvalidSequence { field });
    }
    u64_to_i64(field, value)
}

/// The column value of a count that starts at zero.
pub fn non_negative_u64_to_i64(field: &'static str, value: u64) -> (r: Result<i64, StoreError>)
    ensures
        error::fault(r) == stored_integer_fault(field@, value as nat),
        r matches Ok(column) ==> column == value,
{
    u64_to_i64(field, value)
}

/// What is wrong with an optional sequence number that is to be stored.
pub open spec fn optional_sequence_fault(field: Seq<char>, sequence: Option<u64>) -> Option<Fault> {
    match sequence {
        Some(value) => positive_integer_fault(field, value as nat),
        None => None,
    }
}

/// The column value of an optional sequence number.
pub fn sequence_to_i64(field: &'static str, sequence: Option<u64>) -> (r: Result<
    Option<i64>,
    StoreError,
>)
    ensures
        error::fault(r) == optional_sequence_fault(field@, sequence),
        r matches Ok(column) ==> match (column, sequence) {
            (Some(column), Some(value)) => column == value,
            (None, None) => true,
            _ => false,
        },
{
    match sequence {
        Some(value) => {
            let column: i64 = positive_u64_to_i64(field, value)?;
            Ok(Some(column))
        },
        None => Ok(None),
    }
}

/// What is wrong with a stored count that starts at zero.
pub open spec fn non_negative_fault(
    entity: Seq<char>,
    key: Seq<char>,
    column: Seq<char>,
    value: int,
) -> Option<Fault> {
    if value < 0 {
        Some(error::corrupt_fault(entity, key, column + " must be non-negative"@))
    } else {
        None
    }
}

/// The count of a column that starts at zero.
pub fn non_negative_from_row(
    entity: &'static str,
    key: &str,
    column: &'static str,
    value: i64,
) -> (r: Result<u64, StoreError>)
    ensures
        error::fault(r) == non_negative_fault(entity@, key@, column@, value as int),
        r matches Ok(count) ==> count == value,
{
    if value < 0 {
        let reason = join2(column, " must be non-negative");
        return Err(StoreError::corrupt(entity, key, reason.as_str()));
    }
    Ok(value as u64)
}

/// What is wrong with a stored count that starts at one.
pub open spec fn positive_fault(
    entity: Seq<char>,
    key: Seq<char>,
    column: Seq<char>,
    value: int,
) -> Option<Fault> {
    if value <= 0 {
        Some(error::corrupt_fault(entity, key, column + " must be greater than zero"@))
    } else {
        None
    }
}

/// The count of a column that starts at one.
pub fn positive_from_row(
    entity: &'static str,
    key: &str,
    column: &'static str,
    value: i64,
) -> (r: Result<u64, StoreError>)
    ensures
        error::fault(r) == positive_fault(entity@, key@, column@, value as int),
        r matches Ok(count) ==> count == value,
{
    if value <= 0 {
        let reason = join2(column, " must be greater than zero");
        return Err(StoreError::corrupt(entity, key, reason.as_str()));
    }
    Ok(value as u64)
}

/// What is wrong with a stored optional sequence number.
pub open spec fn stored_sequence_fault(
    entity: Seq<char>,
    key: Seq<char>,
    sequence: Option<i64>,
) -> Option<Fault> {
    match sequence {
        Some(value) => positive_fault(entity, key, "sequence"@, value as int),
        None => None,
    }
}

/// The optional sequence number of a column.
pub fn sequence_from_row(entity: &'static str, key: &str, sequence: Option<i64>) -> (r: Result<
    Option<u64>,
    StoreError,
>)
    ensures
        error::fault(r) == stored_sequence_fault(entity@, key@, sequence),
        r matches Ok(number) ==> match (number, sequence) {
            (Some(number), Some(value)) => number == value,
            (None, None) => true,
            _ => false,
        },
{
    match sequence {
        Some(value) => {
            let number: u64 = positive_from_row(entity, key, "sequence", value)?;
            Ok(Some(number))
        },
        None => Ok(None),
    }
}

/// The later of two times.
pub open spec fn later(a: i64, b: i64) -> i64 {
    if a >= b {
        a
    } else {
        b
    }
}

/// The later of two times.
pub fn later_of(a: i64, b: i64) -> (r: i64)
    ensures
        r == later(a, b),
{
    if a >= b {
        a
    } else {
        b
    }
}

/// The later of two times of which either may be missing.
pub open spec fn later_optional(a: Option<i64>, b: Option<i64>) -> Option<i64> {
    match (a, b) {
        (Some(a), Some(b)) => Some(later(a, b)),
        (Some(a), None) => Some(a),
        (None, Some(b)) => Some(b),
        (None, None) => None,
    }
}

/// The later of two times of which either may be missing.
pub fn max_optional(left: Option<i64>, right: Option<i64>) -> (r: Option<i64>)
    ensures
        r == later_optional(left, right),
{
    match (left, right) {
        (Some(left), Some(right)) => Some(later_of(left, right)),
        (Some(value), None) => Some(value),
        (None, Some(value)) => Some(value),
        (None, None) => None,
    }
}

/// The later of two times is one of them, and neither is later still.
pub proof fn later_is_neither_before(a: i64, b: i64, x: Option<i64>, y: Option<i64>)
    ensures
        later(a, b) >= a && later(a, b) >= b,
        later(a, b) == a || later(a, b) == b,
        later_optional(x, y) is None <==> x is None && y is None,
        later_optional(x, y) == x || later_optional(x, y) == y,
        x matches Some(time) ==> later_optional(x, y)->0 >= time,
        y matches Some(time) ==> later_optional(x, y)->0 >= time,
{
}

/// A counter can be stored if it is no greater than the greatest column value; a
/// sequence number is not zero, either.
pub proof fn counters_fit_their_columns(field: Seq<char>, value: nat)
    ensures
        stored_integer_fault(field, value) is None <==> value <= 0x7fff_ffff_ffff_ffff,
        increment_fault(field, value) is None <==> value + 1 <= 0x7fff_ffff_ffff_ffff,
        positive_integer_fault(field, value) is None <==> 1 <= value <= 0x7fff_ffff_ffff_ffff,
        positive_integer_fault(field, 0) == Some(Fault::InvalidSequence { field }),
{
}

/// A stored count is not negative, and a stored sequence number at least one.
pub proof fn stored_counts_are_not_negative(
    entity: Seq<char>,
    key: Seq<char>,
    column: Seq<char>,
    value: int,
)
    ensures
        non_negative_fault(entity, key, column, value) is None <==> value >= 0,
        positive_fault(entity, key, column, value) is None <==> value >= 1,
{
}

}
