//! Delivery attempts: what may be recorded, what may be read back, and how a
//! reserved delivery becomes a message with its attempt.

use serde_json::Value;
use vstd::prelude::*;
use vstd::string::*;

use crate::columns;
use crate::columns::{optional_canonical, parse_enum_column, same_time, EnumColumn, JsonColumns};
use crate::deliveries;
use crate::deliveries::require_non_empty;
use crate::domain::{
    CommandDeliveryAttemptStatus, CommandId, MessageId, RequestId, SessionId, SessionStatus,
    WireOutboxStatus,
};
use crate::error;
use crate::error::{Fault, StoreError};
use crate::json;
use crate::json::CanonicalJson;
use crate::model::{
    ClaimWireOutbox, CommandReceivedAttemptUpdate, CompleteTransportWrite, DeliveryAttemptTimeout,
    DeliverySubject, NewDeliveryAttempt, NewReservedDelivery, NewWireOutbox, StoredDeliveryAttempt,
    StoredOutboundDelivery, StoredSessionRecord, StoredWireOutbox, WriteOutcome,
};
use crate::numbers;
use crate::numbers::non_negative_from_row;
use crate::text;
use crate::text::{is_blank, join2, join3, quoted, same_optional, same_text};

verus! {

/// An attempt in this state is bound to a message in the outbox.
pub open spec fn needs_outbox(status: CommandDeliveryAttemptStatus) -> bool {
    status is Pending || status is Sent || status is Acked || status is Unconfirmed
}

fn status_needs_outbox(status: CommandDeliveryAttemptStatus) -> (r: bool)
    ensures
        r == needs_outbox(status),
{
    match status {
        CommandDeliveryAttemptStatus::Pending
        | CommandDeliveryAttemptStatus::Sent
        | CommandDeliveryAttemptStatus::Acked
        | CommandDeliveryAttemptStatus::Unconfirmed => true,
        _ => false,
    }
}

/// A text is missing or blank.
pub open spec fn missing_or_blank(value: Option<String>) -> bool {
    value matches Some(value) ==> text::blank(value@)
}

fn is_missing_or_blank(value: &Option<String>) -> (r: bool)
    ensures
        r == missing_or_blank(*value),
{
    match value {
        Some(value) => is_blank(value.as_str()),
        None => true,
    }
}

/// Why the state of an attempt does not agree with its times, its subject and
/// its error.
pub open spec fn attempt_state_reason(
    status: CommandDeliveryAttemptStatus,
    subject: DeliverySubject,
    attempted_at: i64,
    acked_at: Option<i64>,
    error: Option<String>,
    updated_at: i64,
) -> Option<Seq<char>> {
    if updated_at < attempted_at || (status is Acked) != (acked_at is Some) {
        Some("attempt timestamps do not match status"@)
    } else if status is Acked && !(subject is ExecutionCommand) {
        Some("ACKED is only valid for execution command receipt"@)
    } else if status is Unconfirmed && missing_or_blank(error) {
        Some("UNCONFIRMED requires a non-empty error"@)
    } else {
        None
    }
}

fn find_attempt_state_reason(
    status: CommandDeliveryAttemptStatus,
    subject: &DeliverySubject,
    attempted_at: i64,
    acked_at: Option<i64>,
    error: &Option<String>,
    updated_at: i64,
) -> (r: Option<&'static str>)
    ensures
        match r {
            Some(reason) => attempt_state_reason(
                status,
                *subject,
                attempted_at,
                acked_at,
                *error,
                updated_at,
            ) == Some(reason@),
            None => attempt_state_reason(
                status,
                *subject,
                attempted_at,
                acked_at,
                *error,
                updated_at,
            ) is None,
        },
{
    let acked = status == CommandDeliveryAttemptStatus::Acked;
    if updated_at < attempted_at || acked != acked_at.is_some() {
        return Some("attempt timestamps do not match status");
    }
    if acked && subject.command_id().is_none() {
        return Some("ACKED is only valid for execution command receipt");
    }
    if status == CommandDeliveryAttemptStatus::Unconfirmed && is_missing_or_blank(error) {
        return Some("UNCONFIRMED requires a non-empty error");
    }
    None
}

/// Why an attempt may not be recorded, apart from its name.
pub open spec fn new_attempt_reason(attempt: NewDeliveryAttempt) -> Option<Seq<char>> {
    let state = attempt_state_reason(
        attempt.status,
        attempt.subject,
        attempt.attempted_at,
        attempt.acked_at,
        attempt.error,
        attempt.updated_at,
    );
    if state is Some {
        state
    } else if attempt.message_id is Some && attempt.session_id is None {
        Some("session_id and message_id must be present together"@)
    } else if attempt.message_id is Some && attempt.request_payload is Some {
        Some("outbox-bound attempts must not duplicate the request payload"@)
    } else if attempt.message_id is None && attempt.request_payload is None {
        Some("unbound delivery attempts require the rejected request payload"@)
    } else if attempt.message_id is None && needs_outbox(attempt.status) {
        Some("delivery status requires an outbox binding"@)
    } else {
        None
    }
}

/// What is wrong with an attempt that is to be recorded.
pub open spec fn new_attempt_fault(attempt: NewDeliveryAttempt) -> Option<Fault> {
    error::first_of(
        deliveries::non_empty_fault("delivery attempt_id"@, attempt.attempt_id@),
        match new_attempt_reason(attempt) {
            Some(reason) => Some(
                error::invalid_fault("command_delivery_attempt"@, attempt.attempt_id@, reason),
            ),
            None => None,
        },
    )
}

/// Refuses an attempt that may not be recorded.
pub fn validate_new_attempt(attempt: &NewDeliveryAttempt) -> (r: Result<(), StoreError>)
    ensures
        error::fault(r) == new_attempt_fault(*attempt),
{
    require_non_empty("delivery attempt_id", attempt.attempt_id.as_str())?;
    let reason = match find_attempt_state_reason(
        attempt.status,
        &attempt.subject,
        attempt.attempted_at,
        attempt.acked_at,
        &attempt.error,
        attempt.updated_at,
    ) {
        Some(reason) => Some(reason),
        None => if attempt.message_id.is_some() && attempt.session_id.is_none() {
            Some("session_id and message_id must be present together")
        } else if attempt.message_id.is_some() && attempt.request_payload.is_some() {
            Some("outbox-bound attempts must not duplicate the request payload")
        } else if attempt.message_id.is_none() && attempt.request_payload.is_none() {
            Some("unbound delivery attempts require the rejected request payload")
        } else if attempt.message_id.is_none() && status_needs_outbox(attempt.status) {
            Some("delivery status requires an outbox binding")
        } else {
            None
        },
    };
    match reason {
        Some(reason) => Err(
            StoreError::invalid("command_delivery_attempt", attempt.attempt_id.as_str(), reason),
        ),
        None => Ok(()),
    }
}

/// The text of an optional payload.
pub open spec fn payload_text(payload: Option<CanonicalJson>) -> Option<Seq<char>> {
    match payload {
        Some(payload) => Some(payload@),
        None => None,
    }
}

/// Whether two optional payloads are the same.
pub fn same_payload(a: &Option<CanonicalJson>, b: &Option<CanonicalJson>) -> (r: bool)
    ensures
        r == (payload_text(*a) == payload_text(*b)),
{
    match (a, b) {
        (Some(a), Some(b)) => a.same(b),
        (None, None) => true,
        _ => false,
    }
}

/// The recorded attempt is the one that is to be recorded.
pub open spec fn attempt_recorded(
    existing: StoredDeliveryAttempt,
    incoming: NewDeliveryAttempt,
) -> bool {
    &&& existing.attempt_id@ == incoming.attempt_id@
    &&& existing.subject.command() == incoming.subject.command()
    &&& existing.subject.request() == incoming.subject.request()
    &&& text::optional_text(existing.session_id) == text::optional_text(incoming.session_id)
    &&& text::optional_text(existing.message_id) == text::optional_text(incoming.message_id)
    &&& payload_text(existing.request_payload) == payload_text(incoming.request_payload)
    &&& existing.status == incoming.status
    &&& existing.attempted_at == incoming.attempted_at
    &&& existing.acked_at == incoming.acked_at
    &&& text::optional_text(existing.error) == text::optional_text(incoming.error)
    &&& existing.updated_at == incoming.updated_at
}

/// Whether the recorded attempt is the one that is to be recorded.
pub fn same_attempt(existing: &StoredDeliveryAttempt, incoming: &NewDeliveryAttempt) -> (r: bool)
    ensures
        r == attempt_recorded(*existing, *incoming),
{
    same_text(existing.attempt_id.as_str(), incoming.attempt_id.as_str()) && existing.subject.same(
        &incoming.subject,
    ) && same_optional(&existing.session_id, &incoming.session_id) && same_optional(
        &existing.message_id,
        &incoming.message_id,
    ) && same_payload(&existing.request_payload, &incoming.request_payload) && existing.status
        == incoming.status && existing.attempted_at == incoming.attempted_at && same_time(
        existing.acked_at,
        incoming.acked_at,
    ) && same_optional(&existing.error, &incoming.error) && existing.updated_at
        == incoming.updated_at
}

/// The attempt as it is first recorded.
pub open spec fn first_record(attempt: NewDeliveryAttempt) -> StoredDeliveryAttempt {
    StoredDeliveryAttempt {
        attempt_id: attempt.attempt_id,
        subject: attempt.subject,
        session_id: attempt.session_id,
        message_id: attempt.message_id,
        request_payload: attempt.request_payload,
        status: attempt.status,
        attempted_at: attempt.attempted_at,
        acked_at: attempt.acked_at,
        error: attempt.error,
        revision: 0,
        updated_at: attempt.updated_at,
    }
}

/// The attempt as it is first recorded.
pub fn new_attempt_record(attempt: NewDeliveryAttempt) -> (r: StoredDeliveryAttempt)
    ensures
        r == first_record(attempt),
{
    StoredDeliveryAttempt {
        attempt_id: attempt.attempt_id,
        subject: attempt.subject,
        session_id: attempt.session_id,
        message_id: attempt.message_id,
        request_payload: attempt.request_payload,
        status: attempt.status,
        attempted_at: attempt.attempted_at,
        acked_at: attempt.acked_at,
        error: attempt.error,
        revision: 0,
        updated_at: attempt.updated_at,
    }
}

/// Recording an attempt once more is a repetition, not a conflict.
pub proof fn first_record_is_recorded(attempt: NewDeliveryAttempt)
    ensures
        attempt_recorded(first_record(attempt), attempt),
{
}

/// Decides about an attempt whose name or message is taken. `existing` holds
/// the attempts that take them.
pub fn resolve_attempt_replay(existing: Vec<StoredDeliveryAttempt>, attempt: &NewDeliveryAttempt) -> (r:
    Result<WriteOutcome<StoredDeliveryAttempt>, StoreError>)
    ensures
        error::fault(r) == (if existing@.len() == 1 && attempt_recorded(existing@[0], *attempt) {
            None
        } else {
            Some(
                error::conflict_fault(
                    "command_delivery_attempt"@,
                    "attempt_id="@ + attempt.attempt_id@,
                ),
            )
        }),
        r matches Ok(outcome) ==> outcome == WriteOutcome::Duplicate(existing@[0]),
{
    if existing.len() == 1 && same_attempt(&existing[0], attempt) {
        let mut existing = existing;
        return Ok(WriteOutcome::Duplicate(existing.remove(0)));
    }
    let key = join2("attempt_id=", attempt.attempt_id.as_str());
    Err(StoreError::conflict("command_delivery_attempt", key.as_str()))
}

/// A row of the attempts.
pub struct DeliveryAttemptRow {
    pub attempt_id: String,
    pub command_id: Option<CommandId>,
    pub request_id: Option<RequestId>,
    pub session_id: Option<SessionId>,
    pub message_id: Option<MessageId>,
    pub status: EnumColumn<CommandDeliveryAttemptStatus>,
    pub request_payload_json: Option<String>,
    pub request_payload_hash: Option<String>,
    pub attempted_at: i64,
    pub acked_at: Option<i64>,
    pub error: Option<String>,
    pub revision: i64,
    pub updated_at: i64,
}

/// The subject that two columns name, of which exactly one is present.
pub open spec fn row_subject(
    command_id: Option<CommandId>,
    request_id: Option<RequestId>,
) -> Option<DeliverySubject> {
    match (command_id, request_id) {
        (Some(command_id), None) => Some(DeliverySubject::ExecutionCommand(command_id)),
        (None, Some(request_id)) => Some(DeliverySubject::ReconciliationRequest(request_id)),
        _ => None,
    }
}

/// What is wrong with a row of the attempts.
pub open spec fn attempt_row_fault(row: DeliveryAttemptRow) -> Option<Fault> {
    let entity = "command_delivery_attempt"@;
    let key = row.attempt_id@;
    match row_subject(row.command_id, row.request_id) {
        None => Some(
            error::corrupt_fault(entity, key, "exactly one delivery subject must be present"@),
        ),
        Some(subject) => error::first_of(
            columns::enum_fault(entity, key, "status"@, row.status),
            error::first_of(
                match attempt_state_reason(
                    row.status.parsed->Ok_0,
                    subject,
                    row.attempted_at,
                    row.acked_at,
                    row.error,
                    row.updated_at,
                ) {
                    Some(reason) => Some(error::corrupt_fault(entity, key, reason)),
                    None => None,
                },
                error::first_of(
                    columns::optional_json_fault(
                        entity,
                        key,
                        row.request_payload_json,
                        row.request_payload_hash,
                        "request payload and hash must be present together"@,
                    ),
                    numbers::non_negative_fault(entity, key, "revision"@, row.revision as int),
                ),
            ),
        ),
    }
}

/// The attempt holds what the row holds.
pub open spec fn attempt_of_row(row: DeliveryAttemptRow, attempt: StoredDeliveryAttempt) -> bool {
    &&& attempt == StoredDeliveryAttempt {
        attempt_id: row.attempt_id,
        subject: row_subject(row.command_id, row.request_id)->0,
        session_id: row.session_id,
        message_id: row.message_id,
        request_payload: attempt.request_payload,
        status: row.status.parsed->Ok_0,
        attempted_at: row.attempted_at,
        acked_at: row.acked_at,
        error: row.error,
        revision: row.revision as u64,
        updated_at: row.updated_at,
    }
    &&& payload_text(attempt.request_payload) == text::optional_text(row.request_payload_json)
}

/// Reads an attempt.
pub fn delivery_attempt_from_row(row: DeliveryAttemptRow) -> (r: Result<
    StoredDeliveryAttempt,
    StoreError,
>)
    ensures
        error::fault(r) == attempt_row_fault(row),
        r matches Ok(attempt) ==> attempt_of_row(row, attempt),
{
    let attempt_id = row.attempt_id;
    let subject = match (row.command_id, row.request_id) {
        (Some(command_id), None) => DeliverySubject::ExecutionCommand(command_id),
        (None, Some(request_id)) => DeliverySubject::ReconciliationRequest(request_id),
        _ => {
            return Err(
                StoreError::corrupt(
                    "command_delivery_attempt",
                    attempt_id.as_str(),
                    "exactly one delivery subject must be present",
                ),
            );
        },
    };
    let status = parse_enum_column(
        "command_delivery_attempt",
        attempt_id.as_str(),
        "status",
        row.status,
    )?;
    if let Some(reason) = find_attempt_state_reason(
        status,
        &subject,
        row.attempted_at,
        row.acked_at,
        &row.error,
        row.updated_at,
    ) {
        return Err(
            StoreError::corrupt("command_delivery_attempt", attempt_id.as_str(), reason),
        );
    }
    let request_payload = optional_canonical(
        "command_delivery_attempt",
        attempt_id.as_str(),
        row.request_payload_json,
        row.request_payload_hash,
        "request payload and hash must be present together",
    )?;
    let revision: u64 = non_negative_from_row(
        "command_delivery_attempt",
        attempt_id.as_str(),
        "revision",
        row.revision,
    )?;
    Ok(
        StoredDeliveryAttempt {
            attempt_id,
            subject,
            session_id: row.session_id,
            message_id: row.message_id,
            request_payload,
            status,
            attempted_at: row.attempted_at,
            acked_at: row.acked_at,
            error: row.error,
            revision,
            updated_at: row.updated_at,
        },
    )
}

/// The parent record that a message speaks of: its kind and its name.
pub open spec fn outbox_parent(outbox: StoredWireOutbox) -> Option<(Seq<char>, Seq<char>)> {
    match (outbox.command_id, outbox.request_id) {
        (Some(command_id), None) => Some(("execution_command"@, command_id@)),
        (None, Some(request_id)) => Some(("reconciliation_run"@, request_id@)),
        _ => None,
    }
}

/// What is wrong with the payload of a message. `payload` is what the wire
/// format holds as payload, or why the message cannot be decoded; `parent` is
/// the payload of the record that the message speaks of.
pub open spec fn parent_payload_fault(
    outbox: StoredWireOutbox,
    payload: Result<Value, String>,
    parent: Option<JsonColumns>,
) -> Option<Fault> {
    match payload {
        Err(error) => Some(
            error::corrupt_fault("wire_outbox"@, outbox.message_id@, error@),
        ),
        Ok(value) => match outbox_parent(outbox) {
            None => None,
            Some((entity, key)) => match parent {
                None => Some(error::missing_fault(entity, key)),
                Some(stored) => error::first_of(
                    json::stored_fault(entity, key, stored.text@, stored.digest@),
                    if stored.text@ != json::canonical_text(json::value_tree(value)) {
                        Some(
                            error::conflict_fault(
                                "outbound_delivery_payload"@,
                                outbox.message_id@,
                            ),
                        )
                    } else {
                        None
                    },
                ),
            },
        },
    }
}

/// Refuses a message whose payload is not that of the record it speaks of.
pub fn validate_outbox_parent_payload(
    outbox: &StoredWireOutbox,
    payload: Result<Value, String>,
    parent: Option<JsonColumns>,
) -> (r: Result<(), StoreError>)
    ensures
        error::fault(r) == parent_payload_fault(*outbox, payload, parent),
{
    let value = match payload {
        Ok(value) => value,
        Err(error) => {
            return Err(
                StoreError::corrupt("wire_outbox", outbox.message_id.as_str(), error.as_str()),
            );
        },
    };
    let canonical = match CanonicalJson::from_value(value) {
        Ok(canonical) => canonical,
        Err(error) => {
            let reason = join2(
                "wire payload cannot be canonicalized: ",
                error.message().as_str(),
            );
            return Err(
                StoreError::corrupt("wire_outbox", outbox.message_id.as_str(), reason.as_str()),
            );
        },
    };
    let (entity, key) = match (&outbox.command_id, &outbox.request_id) {
        (Some(command_id), None) => ("execution_command", command_id),
        (None, Some(request_id)) => ("reconciliation_run", request_id),
        _ => {
            return Ok(());
        },
    };
    let stored = match parent {
        Some(stored) => stored,
        None => {
            return Err(StoreError::missing(entity, key.as_str()));
        },
    };
    let durable = CanonicalJson::from_stored(entity, key.as_str(), stored.text, stored.digest)?;
    if !durable.same(&canonical) {
        return Err(StoreError::conflict("outbound_delivery_payload", outbox.message_id.as_str()));
    }
    Ok(())
}

/// What the attempt refers to, as far as it can be found.
pub struct AttemptSurroundings {
    pub outbox: Option<StoredWireOutbox>,
    pub payload: Result<Value, String>,
    pub parent: Option<JsonColumns>,
}

/// What is wrong with an attempt and the message that it is bound to.
pub open spec fn stored_attempt_fault(
    attempt: StoredDeliveryAttempt,
    around: AttemptSurroundings,
) -> Option<Fault> {
    let entity = "command_delivery_attempt"@;
    let key = attempt.attempt_id@;
    match (attempt.session_id, attempt.message_id) {
        (Some(session_id), Some(_)) => match around.outbox {
            None => Some(error::corrupt_fault(entity, key, "referenced outbox is missing"@)),
            Some(outbox) => error::first_of(
                parent_payload_fault(outbox, around.payload, around.parent),
                if text::optional_text(outbox.session_id) != Some(session_id@)
                    || text::optional_text(outbox.command_id) != attempt.subject.command()
                    || text::optional_text(outbox.request_id) != attempt.subject.request() {
                    Some(
                        error::corrupt_fault(
                            entity,
                            key,
                            "outbox session or subject binding does not match"@,
                        ),
                    )
                } else {
                    None
                },
            ),
        },
        (_, None) => if needs_outbox(attempt.status) {
            Some(
                error::corrupt_fault(
                    entity,
                    key,
                    "delivery status requires an outbox binding"@,
                ),
            )
        } else {
            None
        },
        (None, Some(_)) => Some(
            error::corrupt_fault(
                entity,
                key,
                "session_id and message_id must be present together"@,
            ),
        ),
    }
}

/// Refuses an attempt that does not agree with the message it is bound to.
pub fn validate_stored_attempt(attempt: &StoredDeliveryAttempt, around: AttemptSurroundings) -> (r:
    Result<(), StoreError>)
    ensures
        error::fault(r) == stored_attempt_fault(*attempt, around),
{
    match (&attempt.session_id, &attempt.message_id) {
        (Some(session_id), Some(_)) => {
            let outbox = match around.outbox {
                Some(outbox) => outbox,
                None => {
                    return Err(
                        StoreError::corrupt(
                            "command_delivery_attempt",
                            attempt.attempt_id.as_str(),
                            "referenced outbox is missing",
                        ),
                    );
                },
            };
            validate_outbox_parent_payload(&outbox, around.payload, around.parent)?;
            if !text::optional_is(&outbox.session_id, session_id.as_str()) || !same_optional(
                &outbox.command_id,
                &attempt.subject.command_copy(),
            ) || !same_optional(&outbox.request_id, &attempt.subject.request_copy()) {
                return Err(
                    StoreError::corrupt(
                        "command_delivery_attempt",
                        attempt.attempt_id.as_str(),
                        "outbox session or subject binding does not match",
                    ),
                );
            }
            Ok(())
        },
        (_, None) => {
            if status_needs_outbox(attempt.status) {
                return Err(
                    StoreError::corrupt(
                        "command_delivery_attempt",
                        attempt.attempt_id.as_str(),
                        "delivery status requires an outbox binding",
                    ),
                );
            }
            Ok(())
        },
        (None, Some(_)) => Err(
            StoreError::corrupt(
                "command_delivery_attempt",
                attempt.attempt_id.as_str(),
                "session_id and message_id must be present together",
            ),
        ),
    }
}

/// The type of the message that delivers a subject.
pub open spec fn subject_message_type(subject: DeliverySubject) -> Seq<char> {
    match subject {
        DeliverySubject::ExecutionCommand(_) => "execution.command"@,
        DeliverySubject::ReconciliationRequest(_) => "reconciliation.request"@,
    }
}

/// What is wrong with a delivery under a reservation.
pub open spec fn reserved_delivery_fault(
    session: StoredSessionRecord,
    delivery: NewReservedDelivery,
) -> Option<Fault> {
    let reservation = delivery.reservation;
    error::first_of(
        deliveries::non_empty_fault("delivery attempt_id"@, delivery.attempt_id@),
        if !(session.status is Active) || session.revision != reservation.session_revision
            || session.last_outbound_sequence != reservation.sequence || delivery.created_at
            < session.updated_at {
            Some(error::stale_fault("outbound_reservation"@, reservation.session_id@))
        } else if session.client_id@ != reservation.client_id@ || session.account_id@
            != reservation.account_id@ || text::optional_text(session.terminal_id)
            != text::optional_text(reservation.terminal_id) {
            Some(error::conflict_fault("outbound_reservation"@, reservation.session_id@))
        } else if delivery.message_type@ != subject_message_type(reservation.subject) {
            Some(
                error::invalid_fault(
                    "outbound_delivery"@,
                    delivery.message_id@,
                    "message_type "@ + text::debug_text(delivery.message_type@)
                        + " does not match delivery subject"@,
                ),
            )
        } else {
            None
        },
    )
}

/// The message of a reserved delivery as it enters the outbox.
pub open spec fn outbox_of_delivery(delivery: NewReservedDelivery, outbox: NewWireOutbox) -> bool {
    &&& outbox == NewWireOutbox {
        message_id: delivery.message_id,
        session_id: Some(delivery.reservation.session_id),
        message_type: delivery.message_type,
        sequence: Some(delivery.reservation.sequence),
        command_id: outbox.command_id,
        request_id: outbox.request_id,
        payload: delivery.envelope,
        status: WireOutboxStatus::Pending,
        created_at: delivery.created_at,
        updated_at: delivery.created_at,
        sent_at: None,
        acked_at: None,
        last_error: None,
    }
    &&& text::optional_text(outbox.command_id) == delivery.reservation.subject.command()
    &&& text::optional_text(outbox.request_id) == delivery.reservation.subject.request()
}

/// The attempt of a reserved delivery as it is first recorded.
pub open spec fn attempt_of_delivery(delivery: NewReservedDelivery) -> NewDeliveryAttempt {
    NewDeliveryAttempt {
        attempt_id: delivery.attempt_id,
        subject: delivery.reservation.subject,
        session_id: Some(delivery.reservation.session_id),
        message_id: Some(delivery.message_id),
        request_payload: None,
        status: CommandDeliveryAttemptStatus::Pending,
        attempted_at: delivery.created_at,
        acked_at: None,
        error: None,
        updated_at: delivery.created_at,
    }
}

/// Turns a delivery under a reservation into a message and an attempt, if the
/// reservation still stands.
pub fn enqueue_reserved_delivery(session: &StoredSessionRecord, delivery: NewReservedDelivery) -> (r:
    Result<(NewWireOutbox, NewDeliveryAttempt), StoreError>)
    ensures
        error::fault(r) == reserved_delivery_fault(*session, delivery),
        r matches Ok((outbox, attempt)) ==> outbox_of_delivery(delivery, outbox) && attempt
            == attempt_of_delivery(delivery),
{
    require_non_empty("delivery attempt_id", delivery.attempt_id.as_str())?;
    if session.status != SessionStatus::Active || session.revision
        != delivery.reservation.session_revision || session.last_outbound_sequence
        != delivery.reservation.sequence || delivery.created_at < session.updated_at {
        return Err(
            StoreError::stale("outbound_reservation", delivery.reservation.session_id.as_str()),
        );
    }
    if !same_text(session.client_id.as_str(), delivery.reservation.client_id.as_str())
        || !same_text(session.account_id.as_str(), delivery.reservation.account_id.as_str())
        || !same_optional(&session.terminal_id, &delivery.reservation.terminal_id) {
        return Err(
            StoreError::conflict("outbound_reservation", delivery.reservation.session_id.as_str()),
        );
    }
    let expected_type = match delivery.reservation.subject {
        DeliverySubject::ExecutionCommand(_) => "execution.command",
        DeliverySubject::ReconciliationRequest(_) => "reconciliation.request",
    };
    if !same_text(delivery.message_type.as_str(), expected_type) {
        let reason = join3(
            "message_type ",
            quoted(delivery.message_type.as_str()).as_str(),
            " does not match delivery subject",
        );
        return Err(
            StoreError::invalid("outbound_delivery", delivery.message_id.as_str(), reason.as_str()),
        );
    }
    let outbox = NewWireOutbox {
        message_id: delivery.message_id.clone(),
        session_id: Some(delivery.reservation.session_id.clone()),
        message_type: delivery.message_type,
        sequence: Some(delivery.reservation.sequence),
        command_id: delivery.reservation.subject.command_copy(),
        request_id: delivery.reservation.subject.request_copy(),
        payload: delivery.envelope,
        status: WireOutboxStatus::Pending,
        created_at: delivery.created_at,
        updated_at: delivery.created_at,
        sent_at: None,
        acked_at: None,
        last_error: None,
    };
    let attempt = NewDeliveryAttempt {
        attempt_id: delivery.attempt_id,
        subject: delivery.reservation.subject,
        session_id: Some(delivery.reservation.session_id),
        message_id: Some(delivery.message_id),
        request_payload: None,
        status: CommandDeliveryAttemptStatus::Pending,
        attempted_at: delivery.created_at,
        acked_at: None,
        error: None,
        updated_at: delivery.created_at,
    };
    Ok((outbox, attempt))
}

/// Joins the message and the attempt of a delivery: both are new, or both were
/// there already.
pub fn join_delivery(
    outbox: WriteOutcome<StoredWireOutbox>,
    attempt: WriteOutcome<StoredDeliveryAttempt>,
) -> (r: Result<StoredOutboundDelivery, StoreError>)
    ensures
        error::fault(r) == (if (outbox is Inserted) != (attempt is Inserted) {
            Some(
                error::conflict_fault("outbound_delivery"@, outbox.stored().message_id@),
            )
        } else {
            None
        }),
        r matches Ok(delivery) ==> delivery == (StoredOutboundDelivery {
            outbox: outbox.stored(),
            attempt: attempt.stored(),
        }),
{
    if outbox.was_inserted() != attempt.was_inserted() {
        let message_id = outbox.record().message_id.clone();
        return Err(StoreError::conflict("outbound_delivery", message_id.as_str()));
    }
    Ok(StoredOutboundDelivery { outbox: outbox.into_record(), attempt: attempt.into_record() })
}

/// A delivery that is set up passes every check on new attempts.
pub proof fn reserved_attempt_is_valid(session: StoredSessionRecord, delivery: NewReservedDelivery)
    requires
        reserved_delivery_fault(session, delivery) is None,
    ensures
        new_attempt_fault(attempt_of_delivery(delivery)) is None,
{
}

/// The state of an attempt agrees with its times, its subject and its error, so
/// that it can be read back.
pub open spec fn coherent(attempt: StoredDeliveryAttempt) -> bool {
    attempt_state_reason(
        attempt.status,
        attempt.subject,
        attempt.attempted_at,
        attempt.acked_at,
        attempt.error,
        attempt.updated_at,
    ) is None
}

/// An attempt is coherent from the start.
pub proof fn first_records_are_coherent(attempt: NewDeliveryAttempt)
    requires
        new_attempt_fault(attempt) is None,
    ensures
        coherent(first_record(attempt)),
{
}

/// Neither a claim nor the end of a write leaves a delivery with an attempt that
/// cannot be read back, or with a message that it is not bound to.
pub proof fn writes_keep_attempts_coherent(
    before: StoredOutboundDelivery,
    session: StoredSessionRecord,
    expires_at: Option<i64>,
    claim: ClaimWireOutbox,
    completion: CompleteTransportWrite,
    result: deliveries::TransportWriteResult,
    after: StoredOutboundDelivery,
)
    requires
        coherent(before.attempt),
        ({
            ||| deliveries::step_made(
                before.outbox,
                before.attempt,
                deliveries::claim_step(
                    deliveries::claim_verdict(
                        before.outbox,
                        before.attempt,
                        session,
                        expires_at,
                        claim,
                    ),
                    claim.claimed_at,
                ),
                after,
            )
            ||| deliveries::step_made(
                before.outbox,
                before.attempt,
                deliveries::finished_write(before.outbox, before.attempt, completion, result),
                after,
            )
        }),
    ensures
        coherent(after.attempt),
        same_binding(before, after),
{
}

/// A delivery is bound as it was: its message and its attempt have kept their
/// names, their session and what they are about.
pub open spec fn same_binding(
    before: StoredOutboundDelivery,
    after: StoredOutboundDelivery,
) -> bool {
    &&& after.outbox.message_id == before.outbox.message_id
    &&& after.outbox.session_id == before.outbox.session_id
    &&& after.outbox.command_id == before.outbox.command_id
    &&& after.outbox.request_id == before.outbox.request_id
    &&& after.outbox.payload == before.outbox.payload
    &&& after.attempt.attempt_id == before.attempt.attempt_id
    &&& after.attempt.session_id == before.attempt.session_id
    &&& after.attempt.message_id == before.attempt.message_id
    &&& after.attempt.subject == before.attempt.subject
}

/// The end of a session leaves no delivery with an attempt that cannot be read
/// back, or with a message that it is not bound to.
pub proof fn ends_keep_attempts_coherent(
    before: StoredOutboundDelivery,
    changed_at: i64,
    error: Seq<char>,
    after: StoredOutboundDelivery,
)
    requires
        coherent(before.attempt),
        !text::blank(error),
        ({
            ||| deliveries::step_made(
                before.outbox,
                before.attempt,
                deliveries::settle_step(changed_at)(before),
                after,
            )
            ||| deliveries::step_made(
                before.outbox,
                before.attempt,
                deliveries::cancel_step(changed_at, error)(before),
                after,
            )
            ||| deliveries::step_made(
                before.outbox,
                before.attempt,
                deliveries::unconfirm_step(changed_at, error)(before),
                after,
            )
        }),
    ensures
        coherent(after.attempt),
        same_binding(before, after),
{
}

/// Neither a peer's word nor its silence leaves an attempt that cannot be read
/// back.
pub proof fn answers_keep_attempts_coherent(
    before: StoredDeliveryAttempt,
    update: CommandReceivedAttemptUpdate,
    sent: Option<StoredWireOutbox>,
    timeout: DeliveryAttemptTimeout,
    after: StoredDeliveryAttempt,
)
    requires
        coherent(before),
        ({
            ||| deliveries::attempt_decided(before, deliveries::received(before, update), after)
            ||| deliveries::attempt_decided(
                before,
                deliveries::timed_out(before, sent, timeout),
                after,
            )
        }),
    ensures
        coherent(after),
        after.subject == before.subject,
        after.session_id == before.session_id,
        after.message_id == before.message_id,
{
}

/// A delivery whose message and attempt are bound to each other stays so.
pub proof fn bound_deliveries_stay_bound(
    before: StoredOutboundDelivery,
    payload: Result<Value, String>,
    parent: Option<JsonColumns>,
    after: StoredOutboundDelivery,
)
    requires
        same_binding(before, after),
        before.attempt.session_id is Some,
        before.attempt.message_id is Some,
        stored_attempt_fault(
            before.attempt,
            (AttemptSurroundings { outbox: Some(before.outbox), payload, parent }),
        ) is None,
    ensures
        stored_attempt_fault(
            after.attempt,
            (AttemptSurroundings { outbox: Some(after.outbox), payload, parent }),
        ) is None,
{
}

/// An attempt was acknowledged if and only if it says when, and only a command
/// can be; one that is in doubt says why; and nothing happened before it was
/// made.
pub proof fn attempts_are_as_their_status_says(
    status: CommandDeliveryAttemptStatus,
    subject: DeliverySubject,
    attempted_at: i64,
    acked_at: Option<i64>,
    error: Option<String>,
    updated_at: i64,
)
    ensures
        attempt_state_reason(
            status,
            subject,
            attempted_at,
            acked_at,
            error,
            updated_at,
        ) is None <==> {
            &&& updated_at >= attempted_at
            &&& status is Acked <==> acked_at is Some
            &&& status is Acked ==> subject is ExecutionCommand
            &&& status is Unconfirmed ==> error is Some && !text::blank((error->0)@)
        },
{
}

/// A new attempt belongs to a message of a session or keeps the request that
/// could not be sent; without a message it is not pending, sent, acknowledged or
/// in doubt.
pub proof fn attempts_are_bound_or_keep_their_request(attempt: NewDeliveryAttempt)
    requires
        new_attempt_fault(attempt) is None,
    ensures
        !text::blank(attempt.attempt_id@),
        attempt.updated_at >= attempt.attempted_at,
        attempt.message_id is Some ==> attempt.session_id is Some && attempt.request_payload
            is None,
        attempt.message_id is None ==> attempt.request_payload is Some && !(attempt.status
            is Pending) && !(attempt.status is Sent) && !(attempt.status is Acked) && !(
        attempt.status is Unconfirmed),
{
}

/// An attempt comes twice if all of it is the same.
pub proof fn repeated_attempts_are_the_same(
    existing: StoredDeliveryAttempt,
    incoming: NewDeliveryAttempt,
)
    requires
        attempt_recorded(existing, incoming),
    ensures
        existing.attempt_id@ == incoming.attempt_id@,
        existing.subject is ExecutionCommand <==> incoming.subject is ExecutionCommand,
        existing.session_id is Some <==> incoming.session_id is Some,
        existing.session_id is Some ==> (existing.session_id->0)@ == (incoming.session_id->0)@,
        existing.message_id is Some <==> incoming.message_id is Some,
        existing.message_id is Some ==> (existing.message_id->0)@ == (incoming.message_id->0)@,
        existing.request_payload is Some <==> incoming.request_payload is Some,
        existing.request_payload is Some ==> (existing.request_payload->0)@ == (
        incoming.request_payload->0)@,
        existing.status == incoming.status,
        existing.attempted_at == incoming.attempted_at,
        existing.acked_at == incoming.acked_at,
        existing.error is Some <==> incoming.error is Some,
        existing.error is Some ==> (existing.error->0)@ == (incoming.error->0)@,
        existing.updated_at == incoming.updated_at,
{
}

/// An attempt is stored as it was made.
pub proof fn first_records_are_as_made(attempt: NewDeliveryAttempt)
    ensures
        ({
            let stored = first_record(attempt);
            &&& stored.attempt_id == attempt.attempt_id
            &&& stored.subject == attempt.subject
            &&& stored.session_id == attempt.session_id
            &&& stored.message_id == attempt.message_id
            &&& stored.request_payload == attempt.request_payload
            &&& stored.status == attempt.status
            &&& stored.attempted_at == attempt.attempted_at
            &&& stored.acked_at == attempt.acked_at
            &&& stored.error == attempt.error
            &&& stored.revision == 0
            &&& stored.updated_at == attempt.updated_at
        }),
{
}

/// An attempt that was read is about one command or one request and is as its
/// status says.
pub proof fn read_attempts_are_sound(row: DeliveryAttemptRow)
    requires
        attempt_row_fault(row) is None,
    ensures
        row.command_id is Some <==> row.request_id is None,
        row.status.parsed is Ok,
        row.updated_at >= row.attempted_at,
        row.status.parsed->Ok_0 is Acked <==> row.acked_at is Some,
        row.status.parsed->Ok_0 is Acked ==> row.command_id is Some,
        row.status.parsed->Ok_0 is Unconfirmed ==> row.error is Some && !text::blank(
            (row.error->0)@,
        ),
        row.request_payload_json is Some <==> row.request_payload_hash is Some,
        row.revision >= 0,
{
}

/// What a message brings is what is stored of its command or its request.
pub proof fn messages_bring_what_is_stored(
    outbox: StoredWireOutbox,
    payload: Result<Value, String>,
    parent: Option<JsonColumns>,
)
    requires
        parent_payload_fault(outbox, payload, parent) is None,
    ensures
        payload is Ok,
        (outbox.command_id is Some && outbox.request_id is None) || (outbox.command_id is None
            && outbox.request_id is Some) ==> parent is Some && (parent->0).text@
            == json::canonical_text(json::value_tree(payload->Ok_0)),
{
}

/// An attempt that was read and names a message goes over the session of that
/// message and is about the command or the request that the message carries.
pub proof fn read_attempts_fit_their_message(
    attempt: StoredDeliveryAttempt,
    around: AttemptSurroundings,
)
    requires
        stored_attempt_fault(attempt, around) is None,
    ensures
        attempt.message_id is Some ==> {
            &&& attempt.session_id is Some
            &&& around.outbox is Some
            &&& (around.outbox->0).session_id is Some && ((around.outbox->0).session_id->0)@ == (
            attempt.session_id->0)@
            &&& attempt.subject matches DeliverySubject::ExecutionCommand(id) ==> (
            around.outbox->0).command_id is Some && ((around.outbox->0).command_id->0)@ == id@ && (
            around.outbox->0).request_id is None
            &&& attempt.subject matches DeliverySubject::ReconciliationRequest(id) ==> (
            around.outbox->0).request_id is Some && ((around.outbox->0).request_id->0)@ == id@ && (
            around.outbox->0).command_id is None
        },
        attempt.message_id is None ==> !(attempt.status is Pending) && !(attempt.status is Sent)
            && !(attempt.status is Acked) && !(attempt.status is Unconfirmed),
{
}

/// A message is sent under a number that was reserved for it only while the
/// session is active and has not changed since, is the one that was meant, and
/// only under the type that its subject has.
pub proof fn reserved_numbers_are_used_as_meant(
    session: StoredSessionRecord,
    delivery: NewReservedDelivery,
)
    ensures
        reserved_delivery_fault(session, delivery) is None <==> {
            &&& !text::blank(delivery.attempt_id@)
            &&& session.status is Active
            &&& session.revision == delivery.reservation.session_revision
            &&& session.last_outbound_sequence == delivery.reservation.sequence
            &&& delivery.created_at >= session.updated_at
            &&& session.client_id@ == delivery.reservation.client_id@
            &&& session.account_id@ == delivery.reservation.account_id@
            &&& session.terminal_id is Some <==> delivery.reservation.terminal_id is Some
            &&& session.terminal_id is Some ==> (session.terminal_id->0)@ == (
            delivery.reservation.terminal_id->0)@
            &&& delivery.reservation.subject is ExecutionCommand ==> delivery.message_type@
                == "execution.command"@
            &&& delivery.reservation.subject is ReconciliationRequest ==> delivery.message_type@
                == "reconciliation.request"@
        },
{
}

/// A message and its attempt start together: pending, over the session and under
/// the number that were reserved, about what they were reserved for.
pub proof fn deliveries_start_pending(delivery: NewReservedDelivery, outbox: NewWireOutbox)
    requires
        outbox_of_delivery(delivery, outbox),
    ensures
        outbox.message_id == delivery.message_id,
        outbox.session_id == Some(delivery.reservation.session_id),
        outbox.sequence == Some(delivery.reservation.sequence),
        outbox.message_type == delivery.message_type,
        outbox.payload == delivery.envelope,
        outbox.status is Pending,
        outbox.created_at == delivery.created_at,
        outbox.updated_at == delivery.created_at,
        outbox.sent_at is None && outbox.acked_at is None && outbox.last_error is None,
        delivery.reservation.subject matches DeliverySubject::ExecutionCommand(id)
            ==> outbox.command_id is Some && (outbox.command_id->0)@ == id@ && outbox.request_id
            is None,
        delivery.reservation.subject matches DeliverySubject::ReconciliationRequest(id)
            ==> outbox.request_id is Some && (outbox.request_id->0)@ == id@ && outbox.command_id
            is None,
        ({
            let attempt = attempt_of_delivery(delivery);
            &&& attempt.attempt_id == delivery.attempt_id
            &&& attempt.subject == delivery.reservation.subject
            &&& attempt.session_id == Some(delivery.reservation.session_id)
            &&& attempt.message_id == Some(delivery.message_id)
            &&& attempt.request_payload is None
            &&& attempt.status is Pending
            &&& attempt.attempted_at == delivery.created_at
            &&& attempt.updated_at == delivery.created_at
            &&& attempt.acked_at is None && attempt.error is None
        }),
{
}

}
