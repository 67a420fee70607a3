//! Events of the transport: what the system reports of itself, and messages
//! that could not be taken in.

use vstd::prelude::*;
use vstd::string::*;

use crate::domain::MessageId;
use crate::error;
use crate::error::{Fault, StoreError};
use crate::json;
use crate::json::CanonicalJson;
use crate::model::WriteOutcome;
use crate::numbers;
use crate::numbers::u64_to_i64;
use crate::text;
use crate::text::{is_blank, join2, same_optional, same_text, signed_decimal_text};

verus! {

/// How grave a system event is.
#[derive(Clone, Copy, Debug, PartialEq, Eq, Structural)]
pub enum SystemEventSeverity {
    Info,
    Warning,
    Error,
    Critical,
}

impl SystemEventSeverity {
    /// The text under which the severity is stored.
    pub open spec fn name(self) -> Seq<char> {
        match self {
            SystemEventSeverity::Info => "INFO"@,
            SystemEventSeverity::Warning => "WARNING"@,
            SystemEventSeverity::Error => "ERROR"@,
            SystemEventSeverity::Critical => "CRITICAL"@,
        }
    }

    /// The text under which the severity is stored.
    pub fn as_str(self) -> (r: &'static str)
        ensures
            r@ == self.name(),
    {
        match self {
            SystemEventSeverity::Info => "INFO",
            SystemEventSeverity::Warning => "WARNING",
            SystemEventSeverity::Error => "ERROR",
            SystemEventSeverity::Critical => "CRITICAL",
        }
    }

    /// The severity that is stored under a text.
    pub fn parse(value: &str) -> (r: Option<SystemEventSeverity>)
        ensures
            r matches Some(found) ==> found.name() == value@,
            r is None ==> forall|other: SystemEventSeverity| #[trigger] other.name() != value@,
    {
        if same_text(value, "INFO") {
            Some(SystemEventSeverity::Info)
        } else if same_text(value, "WARNING") {
            Some(SystemEventSeverity::Warning)
        } else if same_text(value, "ERROR") {
            Some(SystemEventSeverity::Error)
        } else if same_text(value, "CRITICAL") {
            Some(SystemEventSeverity::Critical)
        } else {
            None
        }
    }
}

/// No two severities are stored under one text.
pub proof fn severity_names_differ(a: SystemEventSeverity, b: SystemEventSeverity)
    ensures
        a.name() == b.name() ==> a == b,
{
    reveal_strlit("INFO");
    reveal_strlit("WARNING");
    reveal_strlit("ERROR");
    reveal_strlit("CRITICAL");
    assert("INFO"@.len() == 4);
    assert("WARNING"@.len() == 7);
    assert("ERROR"@.len() == 5);
    assert("CRITICAL"@.len() == 8);
}

/// A system event that is to be written down.
#[derive(Debug, PartialEq, Eq)]
pub struct NewSystemEvent {
    pub system_event_id: String,
    pub event_type: String,
    pub severity: SystemEventSeverity,
    pub component: String,
    pub message: String,
    pub metadata: Option<CanonicalJson>,
    pub timestamp: i64,
    pub created_at: i64,
}

/// A system event that is written down.
#[derive(Debug, PartialEq, Eq)]
pub struct StoredSystemEvent {
    pub system_event_id: String,
    pub event_type: String,
    pub severity: SystemEventSeverity,
    pub component: String,
    pub message: String,
    pub metadata: Option<CanonicalJson>,
    pub timestamp: i64,
    pub created_at: i64,
}

/// Why a message could not be taken in.
#[derive(Clone, Copy, Debug, PartialEq, Eq, Structural)]
pub enum DeadletterReason {
    UnknownType,
    SchemaMajorMismatch,
    MissingRequiredField,
    InvalidFieldType,
    InvalidHmac,
    DecodeFailed,
    WireFrameTooLarge,
    WireProtocolViolation,
    SchemaValidationFailed,
}

impl DeadletterReason {
    /// The text under which the reason is stored.
    pub open spec fn name(self) -> Seq<char> {
        match self {
            DeadletterReason::UnknownType => "UNKNOWN_TYPE"@,
            DeadletterReason::SchemaMajorMismatch => "SCHEMA_MAJOR_MISMATCH"@,
            DeadletterReason::MissingRequiredField => "MISSING_REQUIRED_FIELD"@,
            DeadletterReason::InvalidFieldType => "INVALID_FIELD_TYPE"@,
            DeadletterReason::InvalidHmac => "INVALID_HMAC"@,
            DeadletterReason::DecodeFailed => "DECODE_FAILED"@,
            DeadletterReason::WireFrameTooLarge => "WIRE_FRAME_TOO_LARGE"@,
            DeadletterReason::WireProtocolViolation => "WIRE_PROTOCOL_VIOLATION"@,
            DeadletterReason::SchemaValidationFailed => "SCHEMA_VALIDATION_FAILED"@,
        }
    }

    /// The text under which the reason is stored.
    pub fn as_str(self) -> (r: &'static str)
        ensures
            r@ == self.name(),
    {
        match self {
            DeadletterReason::UnknownType => "UNKNOWN_TYPE",
            DeadletterReason::SchemaMajorMismatch => "SCHEMA_MAJOR_MISMATCH",
            DeadletterReason::MissingRequiredField => "MISSING_REQUIRED_FIELD",
            DeadletterReason::InvalidFieldType => "INVALID_FIELD_TYPE",
            DeadletterReason::InvalidHmac => "INVALID_HMAC",
            DeadletterReason::DecodeFailed => "DECODE_FAILED",
            DeadletterReason::WireFrameTooLarge => "WIRE_FRAME_TOO_LARGE",
            DeadletterReason::WireProtocolViolation => "WIRE_PROTOCOL_VIOLATION",
            DeadletterReason::SchemaValidationFailed => "SCHEMA_VALIDATION_FAILED",
        }
    }

    /// The reason that is stored under a text.
    pub fn parse(value: &str) -> (r: Option<DeadletterReason>)
        ensures
            r matches Some(found) ==> found.name() == value@,
            r is None ==> forall|other: DeadletterReason| #[trigger] other.name() != value@,
    {
        if same_text(value, "UNKNOWN_TYPE") {
            Some(DeadletterReason::UnknownType)
        } else if same_text(value, "SCHEMA_MAJOR_MISMATCH") {
            Some(DeadletterReason::SchemaMajorMismatch)
        } else if same_text(value, "MISSING_REQUIRED_FIELD") {
            Some(DeadletterReason::MissingRequiredField)
        } else if same_text(value, "INVALID_FIELD_TYPE") {
            Some(DeadletterReason::InvalidFieldType)
        } else if same_text(value, "INVALID_HMAC") {
            Some(DeadletterReason::InvalidHmac)
        } else if same_text(value, "DECODE_FAILED") {
            Some(DeadletterReason::DecodeFailed)
        } else if same_text(value, "WIRE_FRAME_TOO_LARGE") {
            Some(DeadletterReason::WireFrameTooLarge)
        } else if same_text(value, "WIRE_PROTOCOL_VIOLATION") {
            Some(DeadletterReason::WireProtocolViolation)
        } else if same_text(value, "SCHEMA_VALIDATION_FAILED") {
            Some(DeadletterReason::SchemaValidationFailed)
        } else {
            None
        }
    }
}

/// No two reasons are stored under one text.
pub proof fn deadletter_reason_names_differ(a: DeadletterReason, b: DeadletterReason)
    ensures
        a.name() == b.name() ==> a == b,
{
    reveal_strlit("UNKNOWN_TYPE");
    reveal_strlit("SCHEMA_MAJOR_MISMATCH");
    reveal_strlit("MISSING_REQUIRED_FIELD");
    reveal_strlit("INVALID_FIELD_TYPE");
    reveal_strlit("INVALID_HMAC");
    reveal_strlit("DECODE_FAILED");
    reveal_strlit("WIRE_FRAME_TOO_LARGE");
    reveal_strlit("WIRE_PROTOCOL_VIOLATION");
    reveal_strlit("SCHEMA_VALIDATION_FAILED");
    assert("UNKNOWN_TYPE"@.len() == 12);
    assert("SCHEMA_MAJOR_MISMATCH"@.len() == 21);
    assert("MISSING_REQUIRED_FIELD"@.len() == 22);
    assert("INVALID_FIELD_TYPE"@.len() == 18);
    assert("INVALID_HMAC"@.len() == 12);
    assert("DECODE_FAILED"@.len() == 13);
    assert("WIRE_FRAME_TOO_LARGE"@.len() == 20);
    assert("WIRE_PROTOCOL_VIOLATION"@.len() == 23);
    assert("SCHEMA_VALIDATION_FAILED"@.len() == 24);
    assert("UNKNOWN_TYPE"@[0] != "INVALID_HMAC"@[0]);
}

/// A message that could not be taken in, to be written down.
#[derive(Debug, PartialEq, Eq)]
pub struct NewDeadletterEvent {
    pub deadletter_id: String,
    pub message_id: Option<MessageId>,
    pub message_type: Option<String>,
    pub schema_version: Option<String>,
    pub reason: DeadletterReason,
    pub source: String,
    pub raw_payload: Option<String>,
    /// How many bytes came, before anything was cut off.
    pub raw_payload_length: Option<u64>,
    pub error_message: String,
    pub received_at: i64,
    pub created_at: i64,
}

/// A message that could not be taken in.
#[derive(Debug, PartialEq, Eq)]
pub struct StoredDeadletterEvent {
    pub deadletter_id: String,
    pub message_id: Option<MessageId>,
    pub message_type: Option<String>,
    pub schema_version: Option<String>,
    pub reason: DeadletterReason,
    pub source: String,
    pub raw_payload: Option<String>,
    /// How many bytes came, before anything was cut off.
    pub raw_payload_length: Option<u64>,
    pub error_message: String,
    pub received_at: i64,
    pub created_at: i64,
}

/// The columns of a system event.
pub struct SystemEventRow {
    pub system_event_id: String,
    pub event_type: String,
    pub severity: String,
    pub component: String,
    pub message: String,
    pub metadata_json: Option<String>,
    pub timestamp: i64,
    pub created_at: i64,
}

/// The columns of a message that could not be taken in.
pub struct DeadletterEventRow {
    pub deadletter_id: String,
    pub message_id: Option<String>,
    pub message_type: Option<String>,
    pub schema_version: Option<String>,
    pub reason: String,
    pub source: String,
    pub raw_payload: Option<String>,
    pub raw_payload_length: Option<i64>,
    pub error_message: String,
    pub received_at: i64,
    pub created_at: i64,
}

/// What is wrong with a text that must be given.
pub open spec fn required_fault(field: Seq<char>, value: Seq<char>) -> Option<Fault> {
    if text::blank(value) {
        Some(error::invalid_fault("transport_event"@, field, "value must not be empty"@))
    } else {
        None
    }
}

fn require(field: &'static str, value: &str) -> (r: Result<(), StoreError>)
    ensures
        error::fault(r) == required_fault(field@, value@),
{
    if is_blank(value) {
        Err(StoreError::invalid("transport_event", field, "value must not be empty"))
    } else {
        Ok(())
    }
}

/// What is wrong with a time.
pub open spec fn timestamp_fault(entity: Seq<char>, value: i64) -> Option<Fault> {
    if value < 0 {
        Some(
            error::invalid_fault(
                entity,
                text::signed_decimal(value as int),
                "timestamp must be non-negative"@,
            ),
        )
    } else {
        None
    }
}

fn check_timestamp(entity: &'static str, value: i64) -> (r: Result<(), StoreError>)
    ensures
        error::fault(r) == timestamp_fault(entity@, value),
{
    if value < 0 {
        Err(
            StoreError::invalid(
                entity,
                signed_decimal_text(value).as_str(),
                "timestamp must be non-negative",
            ),
        )
    } else {
        Ok(())
    }
}

/// What is wrong with a system event that is to be written down.
pub open spec fn new_system_event_fault(event: NewSystemEvent) -> Option<Fault> {
    let f = required_fault("system_event_id"@, event.system_event_id@);
    let f = error::first_of(f, required_fault("system event type"@, event.event_type@));
    let f = error::first_of(f, required_fault("system event component"@, event.component@));
    let f = error::first_of(f, required_fault("system event message"@, event.message@));
    let f = error::first_of(f, timestamp_fault("system_event"@, event.timestamp));
    error::first_of(f, timestamp_fault("system_event"@, event.created_at))
}

/// Refuses a system event that cannot be written down.
pub fn validate_system_event(event: &NewSystemEvent) -> (r: Result<(), StoreError>)
    ensures
        error::fault(r) == new_system_event_fault(*event),
{
    require("system_event_id", event.system_event_id.as_str())?;
    require("system event type", event.event_type.as_str())?;
    require("system event component", event.component.as_str())?;
    require("system event message", event.message.as_str())?;
    check_timestamp("system_event", event.timestamp)?;
    check_timestamp("system_event", event.created_at)
}

/// How many bytes a text takes.
pub open spec fn byte_length(value: Seq<char>) -> nat {
    vstd::utf8::encode_utf8(value).len()
}

/// What is wrong with a message that is to be written down as not taken in.
pub open spec fn new_deadletter_fault(event: NewDeadletterEvent) -> Option<Fault> {
    let f = required_fault("deadletter_id"@, event.deadletter_id@);
    let f = error::first_of(f, required_fault("deadletter source"@, event.source@));
    let f = error::first_of(f, required_fault("deadletter error_message"@, event.error_message@));
    let f = error::first_of(f, timestamp_fault("deadletter_event"@, event.received_at));
    let f = error::first_of(f, timestamp_fault("deadletter_event"@, event.created_at));
    error::first_of(
        f,
        match (event.raw_payload, event.raw_payload_length) {
            (Some(_), None) => Some(
                error::invalid_fault(
                    "deadletter_event"@,
                    event.deadletter_id@,
                    "raw_payload_length is required when raw_payload is present"@,
                ),
            ),
            (Some(kept), Some(length)) => if length < byte_length(kept@) {
                Some(
                    error::invalid_fault(
                        "deadletter_event"@,
                        event.deadletter_id@,
                        "raw_payload_length is shorter than the retained payload"@,
                    ),
                )
            } else {
                None
            },
            _ => None,
        },
    )
}

/// Refuses a message that cannot be written down as not taken in.
pub fn validate_deadletter_event(event: &NewDeadletterEvent) -> (r: Result<(), StoreError>)
    ensures
        error::fault(r) == new_deadletter_fault(*event),
{
    require("deadletter_id", event.deadletter_id.as_str())?;
    require("deadletter source", event.source.as_str())?;
    require("deadletter error_message", event.error_message.as_str())?;
    check_timestamp("deadletter_event", event.received_at)?;
    check_timestamp("deadletter_event", event.created_at)?;
    if let Some(raw_payload) = &event.raw_payload {
        match event.raw_payload_length {
            None => {
                return Err(
                    StoreError::invalid(
                        "deadletter_event",
                        event.deadletter_id.as_str(),
                        "raw_payload_length is required when raw_payload is present",
                    ),
                );
            },
            Some(original_length) => {
                if original_length < raw_payload.as_str().as_bytes().len() as u64 {
                    return Err(
                        StoreError::invalid(
                            "deadletter_event",
                            event.deadletter_id.as_str(),
                            "raw_payload_length is shorter than the retained payload",
                        ),
                    );
                }
            },
        }
    }
    Ok(())
}

/// The column values of a message that could not be taken in: its length as a
/// column, once the whole was found in order.
pub fn deadletter_length_column(event: &NewDeadletterEvent) -> (r: Result<
    Option<i64>,
    StoreError,
>)
    ensures
        error::fault(r) == error::first_of(
            new_deadletter_fault(*event),
            match event.raw_payload_length {
                Some(length) => numbers::stored_integer_fault(
                    "deadletter_events.raw_payload_length"@,
                    length as nat,
                ),
                None => None,
            },
        ),
        r matches Ok(column) ==> match (column, event.raw_payload_length) {
            (Some(column), Some(length)) => column == length,
            (None, None) => true,
            _ => false,
        },
{
    validate_deadletter_event(event)?;
    match event.raw_payload_length {
        Some(length) => {
            let column: i64 = u64_to_i64("deadletter_events.raw_payload_length", length)?;
            Ok(Some(column))
        },
        None => Ok(None),
    }
}

/// Some severity is stored under a text.
pub open spec fn severity_known(raw: Seq<char>) -> bool {
    exists|severity: SystemEventSeverity| #[trigger] severity.name() == raw
}

/// Some reason is stored under a text.
pub open spec fn reason_known(raw: Seq<char>) -> bool {
    exists|reason: DeadletterReason| #[trigger] reason.name() == raw
}

/// The canonical form of optional JSON.
pub open spec fn metadata_outcome(raw: Option<String>) -> Result<Option<Seq<char>>, Fault> {
    match raw {
        None => Ok(None),
        Some(raw) => match json::parse_outcome(raw@) {
            Ok(canonical) => Ok(Some(canonical)),
            Err(fault) => Err(fault),
        },
    }
}

/// What is wrong with a stored system event.
pub open spec fn system_event_row_fault(row: SystemEventRow) -> Option<Fault> {
    if !severity_known(row.severity@) {
        Some(
            error::corrupt_fault(
                "system_event"@,
                row.system_event_id@,
                "unknown severity "@ + row.severity@,
            ),
        )
    } else {
        match metadata_outcome(row.metadata_json) {
            Ok(_) => None,
            Err(fault) => Some(fault),
        }
    }
}

/// Optional JSON, by its canonical text.
pub open spec fn metadata_text(metadata: Option<CanonicalJson>) -> Option<Seq<char>> {
    match metadata {
        Some(metadata) => Some(metadata@),
        None => None,
    }
}

/// The event is what the row holds.
pub open spec fn system_event_reads(row: SystemEventRow, event: StoredSystemEvent) -> bool {
    &&& event.system_event_id == row.system_event_id
    &&& event.event_type == row.event_type
    &&& event.severity.name() == row.severity@
    &&& event.component == row.component
    &&& event.message == row.message
    &&& metadata_outcome(row.metadata_json) matches Ok(canonical) && metadata_text(event.metadata)
        == canonical
    &&& event.timestamp == row.timestamp
    &&& event.created_at == row.created_at
}

/// Reads a system event.
pub fn system_event_from_row(row: SystemEventRow) -> (r: Result<StoredSystemEvent, StoreError>)
    ensures
        error::fault(r) == system_event_row_fault(row),
        r matches Ok(event) ==> system_event_reads(row, event),
{
    let severity = match SystemEventSeverity::parse(row.severity.as_str()) {
        Some(severity) => {
            assert(severity.name() == row.severity@);
            severity
        },
        None => {
            let reason = join2("unknown severity ", row.severity.as_str());
            return Err(
                StoreError::corrupt(
                    "system_event",
                    row.system_event_id.as_str(),
                    reason.as_str(),
                ),
            );
        },
    };
    let metadata = match &row.metadata_json {
        Some(raw) => {
            let parsed = CanonicalJson::parse(raw.as_str());
            assert(json::told(parsed) == json::parse_outcome(raw@));
            Some(parsed?)
        },
        None => None,
    };
    Ok(
        StoredSystemEvent {
            system_event_id: row.system_event_id,
            event_type: row.event_type,
            severity,
            component: row.component,
            message: row.message,
            metadata,
            timestamp: row.timestamp,
            created_at: row.created_at,
        },
    )
}

/// What is wrong with a stored message that could not be taken in.
pub open spec fn deadletter_row_fault(row: DeadletterEventRow) -> Option<Fault> {
    if !reason_known(row.reason@) {
        Some(
            error::corrupt_fault(
                "deadletter_event"@,
                row.deadletter_id@,
                "unknown reason "@ + row.reason@,
            ),
        )
    } else if row.raw_payload_length matches Some(length) && length < 0 {
        Some(
            error::corrupt_fault(
                "deadletter_event"@,
                row.deadletter_id@,
                "raw_payload_length is negative"@,
            ),
        )
    } else {
        None
    }
}

/// The event is what the row holds.
pub open spec fn deadletter_reads(row: DeadletterEventRow, event: StoredDeadletterEvent) -> bool {
    &&& event.deadletter_id == row.deadletter_id
    &&& event.message_id == row.message_id
    &&& event.message_type == row.message_type
    &&& event.schema_version == row.schema_version
    &&& event.reason.name() == row.reason@
    &&& event.source == row.source
    &&& event.raw_payload == row.raw_payload
    &&& match (event.raw_payload_length, row.raw_payload_length) {
        (Some(length), Some(column)) => length == column,
        (None, None) => true,
        _ => false,
    }
    &&& event.error_message == row.error_message
    &&& event.received_at == row.received_at
    &&& event.created_at == row.created_at
}

/// Reads a message that could not be taken in.
pub fn deadletter_event_from_row(row: DeadletterEventRow) -> (r: Result<
    StoredDeadletterEvent,
    StoreError,
>)
    ensures
        error::fault(r) == deadletter_row_fault(row),
        r matches Ok(event) ==> deadletter_reads(row, event),
{
    let reason = match DeadletterReason::parse(row.reason.as_str()) {
        Some(reason) => {
            assert(reason.name() == row.reason@);
            reason
        },
        None => {
            let reason = join2("unknown reason ", row.reason.as_str());
            return Err(
                StoreError::corrupt(
                    "deadletter_event",
                    row.deadletter_id.as_str(),
                    reason.as_str(),
                ),
            );
        },
    };
    let raw_payload_length: Option<u64> = match row.raw_payload_length {
        Some(length) => {
            if length < 0 {
                return Err(
                    StoreError::corrupt(
                        "deadletter_event",
                        row.deadletter_id.as_str(),
                        "raw_payload_length is negative",
                    ),
                );
            }
            Some(length as u64)
        },
        None => None,
    };
    Ok(
        StoredDeadletterEvent {
            deadletter_id: row.deadletter_id,
            message_id: row.message_id,
            message_type: row.message_type,
            schema_version: row.schema_version,
            reason,
            source: row.source,
            raw_payload: row.raw_payload,
            raw_payload_length,
            error_message: row.error_message,
            received_at: row.received_at,
            created_at: row.created_at,
        },
    )
}

/// The stored system event is the incoming one.
pub open spec fn system_events_agree(stored: StoredSystemEvent, incoming: NewSystemEvent) -> bool {
    &&& stored.system_event_id@ == incoming.system_event_id@
    &&& stored.event_type@ == incoming.event_type@
    &&& stored.severity == incoming.severity
    &&& stored.component@ == incoming.component@
    &&& stored.message@ == incoming.message@
    &&& metadata_text(stored.metadata) == metadata_text(incoming.metadata)
    &&& stored.timestamp == incoming.timestamp
    &&& stored.created_at == incoming.created_at
}

/// Whether the stored system event is the incoming one.
pub fn same_system_event(stored: &StoredSystemEvent, incoming: &NewSystemEvent) -> (r: bool)
    ensures
        r == system_events_agree(*stored, *incoming),
{
    let same_metadata = match (&stored.metadata, &incoming.metadata) {
        (Some(left), Some(right)) => left.same(right),
        (None, None) => true,
        _ => false,
    };
    same_text(stored.system_event_id.as_str(), incoming.system_event_id.as_str()) && same_text(
        stored.event_type.as_str(),
        incoming.event_type.as_str(),
    ) && stored.severity == incoming.severity && same_text(
        stored.component.as_str(),
        incoming.component.as_str(),
    ) && same_text(stored.message.as_str(), incoming.message.as_str()) && same_metadata
        && stored.timestamp == incoming.timestamp && stored.created_at == incoming.created_at
}

/// The stored message is the incoming one.
pub open spec fn deadletters_agree(
    stored: StoredDeadletterEvent,
    incoming: NewDeadletterEvent,
) -> bool {
    &&& stored.deadletter_id@ == incoming.deadletter_id@
    &&& text::optional_text(stored.message_id) == text::optional_text(incoming.message_id)
    &&& text::optional_text(stored.message_type) == text::optional_text(incoming.message_type)
    &&& text::optional_text(stored.schema_version) == text::optional_text(incoming.schema_version)
    &&& stored.reason == incoming.reason
    &&& stored.source@ == incoming.source@
    &&& text::optional_text(stored.raw_payload) == text::optional_text(incoming.raw_payload)
    &&& stored.raw_payload_length == incoming.raw_payload_length
    &&& stored.error_message@ == incoming.error_message@
    &&& stored.received_at == incoming.received_at
    &&& stored.created_at == incoming.created_at
}

/// Whether the stored message is the incoming one.
pub fn same_deadletter_event(stored: &StoredDeadletterEvent, incoming: &NewDeadletterEvent) -> (r:
    bool)
    ensures
        r == deadletters_agree(*stored, *incoming),
{
    let same_length = match (stored.raw_payload_length, incoming.raw_payload_length) {
        (Some(left), Some(right)) => left == right,
        (None, None) => true,
        _ => false,
    };
    same_text(stored.deadletter_id.as_str(), incoming.deadletter_id.as_str()) && same_optional(
        &stored.message_id,
        &incoming.message_id,
    ) && same_optional(&stored.message_type, &incoming.message_type) && same_optional(
        &stored.schema_version,
        &incoming.schema_version,
    ) && stored.reason == incoming.reason && same_text(
        stored.source.as_str(),
        incoming.source.as_str(),
    ) && same_optional(&stored.raw_payload, &incoming.raw_payload) && same_length && same_text(
        stored.error_message.as_str(),
        incoming.error_message.as_str(),
    ) && stored.received_at == incoming.received_at && stored.created_at == incoming.created_at
}

/// The outcome of an offer: whether the record is new.
pub open spec fn offered<T>(stored: T, inserted: bool) -> WriteOutcome<T> {
    if inserted {
        WriteOutcome::Inserted(stored)
    } else {
        WriteOutcome::Duplicate(stored)
    }
}

/// Decides about a system event that was offered: `stored` is what is written
/// down under its name, and `inserted` whether it was put there just now.
pub fn resolve_system_event(
    event: &NewSystemEvent,
    stored: Option<StoredSystemEvent>,
    inserted: bool,
) -> (r: Result<WriteOutcome<StoredSystemEvent>, StoreError>)
    ensures
        error::fault(r) == (match stored {
            None => Some(error::missing_fault("system_event"@, event.system_event_id@)),
            Some(found) => if system_events_agree(found, *event) {
                None
            } else {
                Some(error::conflict_fault("system_event"@, event.system_event_id@))
            },
        }),
        r matches Ok(outcome) ==> stored is Some && outcome == offered(stored->0, inserted),
{
    match stored {
        None => Err(StoreError::missing("system_event", event.system_event_id.as_str())),
        Some(found) => {
            if !same_system_event(&found, event) {
                return Err(StoreError::conflict("system_event", event.system_event_id.as_str()));
            }
            if inserted {
                Ok(WriteOutcome::Inserted(found))
            } else {
                Ok(WriteOutcome::Duplicate(found))
            }
        },
    }
}

/// Decides about a message that was offered as not taken in: `stored` is what is
/// written down under its name, and `inserted` whether it was put there just
/// now.
pub fn resolve_deadletter_event(
    event: &NewDeadletterEvent,
    stored: Option<StoredDeadletterEvent>,
    inserted: bool,
) -> (r: Result<WriteOutcome<StoredDeadletterEvent>, StoreError>)
    ensures
        error::fault(r) == (match stored {
            None => Some(error::missing_fault("deadletter_event"@, event.deadletter_id@)),
            Some(found) => if deadletters_agree(found, *event) {
                None
            } else {
                Some(error::conflict_fault("deadletter_event"@, event.deadletter_id@))
            },
        }),
        r matches Ok(outcome) ==> stored is Some && outcome == offered(stored->0, inserted),
{
    match stored {
        None => Err(StoreError::missing("deadletter_event", event.deadletter_id.as_str())),
        Some(found) => {
            if !same_deadletter_event(&found, event) {
                return Err(
                    StoreError::conflict("deadletter_event", event.deadletter_id.as_str()),
                );
            }
            if inserted {
                Ok(WriteOutcome::Inserted(found))
            } else {
                Ok(WriteOutcome::Duplicate(found))
            }
        },
    }
}

/// What is kept of a message never is more than what came.
pub proof fn kept_payload_is_no_longer(event: NewDeadletterEvent, kept: String)
    requires
        new_deadletter_fault(event) is None,
        event.raw_payload == Some(kept),
    ensures
        event.raw_payload_length matches Some(length) && byte_length(kept@) <= length,
{
}

/// A system event is taken if it is named, says what it is, where it comes from
/// and what happened, at times that are not negative.
pub proof fn system_events_say_what_happened(event: NewSystemEvent)
    ensures
        new_system_event_fault(event) is None <==> {
            &&& !text::blank(event.system_event_id@)
            &&& !text::blank(event.event_type@)
            &&& !text::blank(event.component@)
            &&& !text::blank(event.message@)
            &&& event.timestamp >= 0
            &&& event.created_at >= 0
        },
{
}

/// An undelivered message is taken if it is named, says where it came from and
/// what was wrong with it, at times that are not negative; what is kept of it is
/// no longer than it was.
pub proof fn deadletters_say_what_was_wrong(event: NewDeadletterEvent)
    ensures
        new_deadletter_fault(event) is None <==> {
            &&& !text::blank(event.deadletter_id@)
            &&& !text::blank(event.source@)
            &&& !text::blank(event.error_message@)
            &&& event.received_at >= 0
            &&& event.created_at >= 0
            &&& event.raw_payload is Some ==> event.raw_payload_length is Some
                && event.raw_payload_length->0 >= vstd::utf8::encode_utf8(
                (event.raw_payload->0)@,
            ).len()
        },
{
}

/// A stored event is read if its severity is one of the four there are.
pub proof fn severities_are_known_by_name(row: SystemEventRow)
    ensures
        system_event_row_fault(row) is None ==> row.severity@ == "INFO"@ || row.severity@
            == "WARNING"@ || row.severity@ == "ERROR"@ || row.severity@ == "CRITICAL"@,
        row.metadata_json is None && (row.severity@ == "INFO"@ || row.severity@ == "WARNING"@
            || row.severity@ == "ERROR"@ || row.severity@ == "CRITICAL"@)
            ==> system_event_row_fault(row) is None,
{
    assert(SystemEventSeverity::Info.name() == "INFO"@);
    assert(SystemEventSeverity::Warning.name() == "WARNING"@);
    assert(SystemEventSeverity::Error.name() == "ERROR"@);
    assert(SystemEventSeverity::Critical.name() == "CRITICAL"@);
}

/// A stored undelivered message is read if its reason is one of those there are
/// and its length is not negative.
pub proof fn reasons_are_known_by_name(row: DeadletterEventRow)
    ensures
        deadletter_row_fault(row) is None <==> {
            &&& row.reason@ == "UNKNOWN_TYPE"@ || row.reason@ == "SCHEMA_MAJOR_MISMATCH"@
                || row.reason@ == "MISSING_REQUIRED_FIELD"@ || row.reason@
                == "INVALID_FIELD_TYPE"@ || row.reason@ == "INVALID_HMAC"@ || row.reason@
                == "DECODE_FAILED"@ || row.reason@ == "WIRE_FRAME_TOO_LARGE"@ || row.reason@
                == "WIRE_PROTOCOL_VIOLATION"@ || row.reason@ == "SCHEMA_VALIDATION_FAILED"@
            &&& row.raw_payload_length is Some ==> row.raw_payload_length->0 >= 0
        },
{
    assert(DeadletterReason::UnknownType.name() == "UNKNOWN_TYPE"@);
    assert(DeadletterReason::SchemaMajorMismatch.name() == "SCHEMA_MAJOR_MISMATCH"@);
    assert(DeadletterReason::MissingRequiredField.name() == "MISSING_REQUIRED_FIELD"@);
    assert(DeadletterReason::InvalidFieldType.name() == "INVALID_FIELD_TYPE"@);
    assert(DeadletterReason::InvalidHmac.name() == "INVALID_HMAC"@);
    assert(DeadletterReason::DecodeFailed.name() == "DECODE_FAILED"@);
    assert(DeadletterReason::WireFrameTooLarge.name() == "WIRE_FRAME_TOO_LARGE"@);
    assert(DeadletterReason::WireProtocolViolation.name() == "WIRE_PROTOCOL_VIOLATION"@);
    assert(DeadletterReason::SchemaValidationFailed.name() == "SCHEMA_VALIDATION_FAILED"@);
}

/// An event comes twice only if all of it is the same.
pub proof fn repeated_transport_events_are_the_same(
    stored: StoredSystemEvent,
    incoming: NewSystemEvent,
    kept: StoredDeadletterEvent,
    arriving: NewDeadletterEvent,
)
    ensures
        system_events_agree(stored, incoming) <==> {
            &&& stored.system_event_id@ == incoming.system_event_id@
            &&& stored.event_type@ == incoming.event_type@
            &&& stored.severity == incoming.severity
            &&& stored.component@ == incoming.component@
            &&& stored.message@ == incoming.message@
            &&& stored.metadata is Some <==> incoming.metadata is Some
            &&& stored.metadata is Some ==> (stored.metadata->0)@ == (incoming.metadata->0)@
            &&& stored.timestamp == incoming.timestamp
            &&& stored.created_at == incoming.created_at
        },
        deadletters_agree(kept, arriving) <==> {
            &&& kept.deadletter_id@ == arriving.deadletter_id@
            &&& kept.message_id is Some <==> arriving.message_id is Some
            &&& kept.message_id is Some ==> (kept.message_id->0)@ == (arriving.message_id->0)@
            &&& kept.message_type is Some <==> arriving.message_type is Some
            &&& kept.message_type is Some ==> (kept.message_type->0)@ == (arriving.message_type->0)@
            &&& kept.schema_version is Some <==> arriving.schema_version is Some
            &&& kept.schema_version is Some ==> (kept.schema_version->0)@ == (
            arriving.schema_version->0)@
            &&& kept.reason == arriving.reason
            &&& kept.source@ == arriving.source@
            &&& kept.raw_payload is Some <==> arriving.raw_payload is Some
            &&& kept.raw_payload is Some ==> (kept.raw_payload->0)@ == (arriving.raw_payload->0)@
            &&& kept.raw_payload_length == arriving.raw_payload_length
            &&& kept.error_message@ == arriving.error_message@
            &&& kept.received_at == arriving.received_at
            &&& kept.created_at == arriving.created_at
        },
{
}

/// A record that was inserted is told apart from one that was known.
pub proof fn new_records_are_told_apart<T>(stored: T, inserted: bool)
    ensures
        inserted ==> offered(stored, inserted) == WriteOutcome::Inserted(stored),
        !inserted ==> offered(stored, inserted) == WriteOutcome::Duplicate(stored),
{
}

}
