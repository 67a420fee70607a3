//! Wire messages: what was received, and what is to be sent.

use vstd::prelude::*;
use vstd::string::*;

use crate::columns;
use crate::columns::{parse_enum_column, same_count, validate_hash, EnumColumn, JsonColumns};
use crate::deliveries;
use crate::domain::{CommandId, MessageId, RequestId, SessionId, WireInboxStatus, WireOutboxStatus};
use crate::error;
use crate::error::{Fault, StoreError};
use crate::json;
use crate::json::CanonicalJson;
use crate::model::{NewWireInbox, NewWireOutbox, StoredWireInbox, StoredWireOutbox, WriteOutcome};
use crate::numbers;
use crate::numbers::{non_negative_from_row, sequence_from_row, sequence_to_i64};
use crate::plans;
use crate::text;
use crate::text::{join2, optional_is, same_optional, same_text};

verus! {

/// The type of a message that carries a command.
pub const EXECUTION_COMMAND_TYPE: &'static str = "execution.command";

/// The type of a message that asks for a reconciliation.
pub const RECONCILIATION_REQUEST_TYPE: &'static str = "reconciliation.request";

/// A wire message as the wire format reads it. The command and the request are
/// those that its payload names, or why the payload is neither.
pub struct WireEnvelope {
    pub message_id: MessageId,
    pub message_type: String,
    pub session_id: Option<SessionId>,
    pub sequence: Option<u64>,
    pub command: Result<CommandId, String>,
    pub request: Result<RequestId, String>,
}

/// What a message in the outbox says of itself, beside its payload.
pub struct OutboxFace {
    pub message_id: Seq<char>,
    pub message_type: Seq<char>,
    pub session_id: Option<Seq<char>>,
    pub sequence: Option<u64>,
    pub command_id: Option<Seq<char>>,
    pub request_id: Option<Seq<char>>,
    pub created_at: i64,
    pub updated_at: i64,
}

/// What a message in the outbox says of itself.
pub open spec fn face(message: StoredWireOutbox) -> OutboxFace {
    OutboxFace {
        message_id: message.message_id@,
        message_type: message.message_type@,
        session_id: text::optional_text(message.session_id),
        sequence: message.sequence,
        command_id: text::optional_text(message.command_id),
        request_id: text::optional_text(message.request_id),
        created_at: message.created_at,
        updated_at: message.updated_at,
    }
}

/// The envelope is that of the message in the outbox.
pub open spec fn envelope_of_message(wire: WireEnvelope, message: OutboxFace) -> bool {
    &&& wire.message_id@ == message.message_id
    &&& wire.message_type@ == message.message_type
    &&& text::optional_text(wire.session_id) == message.session_id
    &&& wire.sequence == message.sequence
}

/// Why a message does not speak of what its payload speaks of.
pub open spec fn subject_reason(wire: WireEnvelope, message: OutboxFace) -> Option<Seq<char>> {
    if wire.message_type@ == EXECUTION_COMMAND_TYPE@ {
        match wire.command {
            Err(error) => Some("invalid execution.command payload: "@ + error@),
            Ok(command_id) => if message.command_id != Some(command_id@) || message.request_id
                is Some {
                Some("execution.command subject does not match payload"@)
            } else {
                None
            },
        }
    } else if wire.message_type@ == RECONCILIATION_REQUEST_TYPE@ {
        match wire.request {
            Err(error) => Some("invalid reconciliation.request payload: "@ + error@),
            Ok(request_id) => if message.request_id != Some(request_id@) || message.command_id
                is Some {
                Some("reconciliation.request subject does not match payload"@)
            } else {
                None
            },
        }
    } else if message.command_id is Some || message.request_id is Some {
        Some("message type must not carry a delivery subject"@)
    } else {
        None
    }
}

/// Why a message may not stand in the outbox.
pub open spec fn outbox_reason(message: OutboxFace, wire: Result<WireEnvelope, String>) -> Option<
    Seq<char>,
> {
    match wire {
        Err(error) => Some(error@),
        Ok(wire) => if !envelope_of_message(wire, message) {
            Some("wire envelope identity does not match denormalized columns"@)
        } else {
            match subject_reason(wire, message) {
                Some(reason) => Some(reason),
                None => if message.updated_at < message.created_at {
                    Some("updated_at precedes created_at"@)
                } else {
                    None
                },
            }
        },
    }
}

/// What is wrong with a message in the outbox.
pub open spec fn outbox_fault(message: OutboxFace, wire: Result<WireEnvelope, String>) -> Option<
    Fault,
> {
    match outbox_reason(message, wire) {
        Some(reason) => Some(error::corrupt_fault("wire_outbox"@, message.message_id, reason)),
        None => None,
    }
}

fn check_subject(wire: &WireEnvelope, message: &StoredWireOutbox) -> (r: Result<(), String>)
    ensures
        plans::reason_of(r) == subject_reason(*wire, face(*message)),
{
    if same_text(wire.message_type.as_str(), EXECUTION_COMMAND_TYPE) {
        match &wire.command {
            Err(error) => {
                return Err(join2("invalid execution.command payload: ", error.as_str()));
            },
            Ok(command_id) => {
                if !optional_is(&message.command_id, command_id.as_str())
                    || message.request_id.is_some() {
                    return Err("execution.command subject does not match payload".to_owned());
                }
            },
        }
    } else if same_text(wire.message_type.as_str(), RECONCILIATION_REQUEST_TYPE) {
        match &wire.request {
            Err(error) => {
                return Err(join2("invalid reconciliation.request payload: ", error.as_str()));
            },
            Ok(request_id) => {
                if !optional_is(&message.request_id, request_id.as_str())
                    || message.command_id.is_some() {
                    return Err("reconciliation.request subject does not match payload".to_owned());
                }
            },
        }
    } else if message.command_id.is_some() || message.request_id.is_some() {
        return Err("message type must not carry a delivery subject".to_owned());
    }
    Ok(())
}

fn check_outbox(message: &StoredWireOutbox, wire: &Result<WireEnvelope, String>) -> (r: Result<
    (),
    String,
>)
    ensures
        plans::reason_of(r) == outbox_reason(face(*message), *wire),
{
    let wire = match wire {
        Ok(wire) => wire,
        Err(error) => {
            return Err(error.clone());
        },
    };
    if !same_text(wire.message_id.as_str(), message.message_id.as_str()) || !same_text(
        wire.message_type.as_str(),
        message.message_type.as_str(),
    ) || !same_optional(&wire.session_id, &message.session_id) || !same_count(
        wire.sequence,
        message.sequence,
    ) {
        return Err("wire envelope identity does not match denormalized columns".to_owned());
    }
    check_subject(wire, message)?;
    if message.updated_at < message.created_at {
        return Err("updated_at precedes created_at".to_owned());
    }
    Ok(())
}

/// Refuses a stored message that is not the wire message it holds. `wire` is
/// what the wire format reads from its payload.
pub fn validate_stored_wire_outbox(
    message: &StoredWireOutbox,
    wire: &Result<WireEnvelope, String>,
) -> (r: Result<(), StoreError>)
    ensures
        error::fault(r) == outbox_fault(face(*message), *wire),
{
    match check_outbox(message, wire) {
        Ok(_) => Ok(()),
        Err(reason) => Err(
            StoreError::corrupt("wire_outbox", message.message_id.as_str(), reason.as_str()),
        ),
    }
}

/// The record of a message that is put into the outbox.
pub open spec fn outbox_record(message: NewWireOutbox) -> StoredWireOutbox {
    StoredWireOutbox {
        message_id: message.message_id,
        session_id: message.session_id,
        message_type: message.message_type,
        sequence: message.sequence,
        command_id: message.command_id,
        request_id: message.request_id,
        payload: message.payload,
        status: message.status,
        revision: 0,
        created_at: message.created_at,
        updated_at: message.updated_at,
        sent_at: message.sent_at,
        acked_at: message.acked_at,
        last_error: message.last_error,
    }
}

/// What is wrong with a message that is to be put into the outbox.
pub open spec fn new_outbox_fault(
    message: NewWireOutbox,
    wire: Result<WireEnvelope, String>,
) -> Option<Fault> {
    match outbox_reason(face(outbox_record(message)), wire) {
        Some(reason) => Some(error::invalid_fault("wire_outbox"@, message.message_id@, reason)),
        None => numbers::optional_sequence_fault("wire_outbox.sequence"@, message.sequence),
    }
}

/// Puts a message into the outbox: gives its record, or refuses it.
pub fn enqueue_wire_outbox(message: NewWireOutbox, wire: &Result<WireEnvelope, String>) -> (r:
    Result<StoredWireOutbox, StoreError>)
    ensures
        error::fault(r) == new_outbox_fault(message, *wire),
        r matches Ok(stored) ==> stored == outbox_record(message),
{
    let stored = StoredWireOutbox {
        message_id: message.message_id,
        session_id: message.session_id,
        message_type: message.message_type,
        sequence: message.sequence,
        command_id: message.command_id,
        request_id: message.request_id,
        payload: message.payload,
        status: message.status,
        revision: 0,
        created_at: message.created_at,
        updated_at: message.updated_at,
        sent_at: message.sent_at,
        acked_at: message.acked_at,
        last_error: message.last_error,
    };
    if let Err(reason) = check_outbox(&stored, wire) {
        return Err(
            StoreError::invalid("wire_outbox", stored.message_id.as_str(), reason.as_str()),
        );
    }
    sequence_to_i64("wire_outbox.sequence", stored.sequence)?;
    Ok(stored)
}

/// The stored message is the incoming one, whatever became of it since.
pub open spec fn same_outbox_fact(existing: StoredWireOutbox, incoming: NewWireOutbox) -> bool {
    &&& existing.message_id@ == incoming.message_id@
    &&& text::optional_text(existing.session_id) == text::optional_text(incoming.session_id)
    &&& existing.message_type@ == incoming.message_type@
    &&& existing.sequence == incoming.sequence
    &&& text::optional_text(existing.command_id) == text::optional_text(incoming.command_id)
    &&& text::optional_text(existing.request_id) == text::optional_text(incoming.request_id)
    &&& existing.payload@ == incoming.payload@
}

/// Whether the stored message is the incoming one.
pub fn same_wire_outbox_fact(existing: &StoredWireOutbox, incoming: &NewWireOutbox) -> (r: bool)
    ensures
        r == same_outbox_fact(*existing, *incoming),
{
    same_text(existing.message_id.as_str(), incoming.message_id.as_str()) && same_optional(
        &existing.session_id,
        &incoming.session_id,
    ) && same_text(existing.message_type.as_str(), incoming.message_type.as_str()) && same_count(
        existing.sequence,
        incoming.sequence,
    ) && same_optional(&existing.command_id, &incoming.command_id) && same_optional(
        &existing.request_id,
        &incoming.request_id,
    ) && existing.payload.same(&incoming.payload)
}

/// The key of a message.
pub open spec fn message_key(message_id: Seq<char>) -> Seq<char> {
    "message_id="@ + message_id
}

/// Decides about a message whose name or whose place in its session is taken
/// in the outbox. `existing` holds the stored messages that share either.
pub fn resolve_wire_outbox_replay(existing: Vec<StoredWireOutbox>, incoming: &NewWireOutbox) -> (r:
    Result<WriteOutcome<StoredWireOutbox>, StoreError>)
    ensures
        error::fault(r) == (if existing@.len() == 1 && same_outbox_fact(existing@[0], *incoming) {
            None
        } else {
            Some(error::conflict_fault("wire_outbox"@, message_key(incoming.message_id@)))
        }),
        r matches Ok(outcome) ==> outcome == WriteOutcome::Duplicate(existing@[0]),
{
    let mut rows = existing;
    if rows.len() == 1 && same_wire_outbox_fact(&rows[0], incoming) {
        let only = rows.remove(0);
        return Ok(WriteOutcome::Duplicate(only));
    }
    let key = join2("message_id=", incoming.message_id.as_str());
    Err(StoreError::conflict("wire_outbox", key.as_str()))
}

/// A row of the outbox.
pub struct WireOutboxRow {
    pub message_id: MessageId,
    pub session_id: Option<SessionId>,
    pub message_type: String,
    pub sequence: Option<i64>,
    pub command_id: Option<CommandId>,
    pub request_id: Option<RequestId>,
    pub payload: JsonColumns,
    pub status: EnumColumn<WireOutboxStatus>,
    pub revision: i64,
    pub created_at: i64,
    pub updated_at: i64,
    pub sent_at: Option<i64>,
    pub acked_at: Option<i64>,
    pub last_error: Option<String>,
}

/// The sequence number that a column holds.
pub open spec fn column_sequence(sequence: Option<i64>) -> Option<u64> {
    match sequence {
        Some(value) => Some(value as u64),
        None => None,
    }
}

/// The message holds what the row holds.
pub open spec fn outbox_of_row(row: WireOutboxRow, stored: StoredWireOutbox) -> bool {
    &&& stored == StoredWireOutbox {
        message_id: row.message_id,
        session_id: row.session_id,
        message_type: row.message_type,
        sequence: column_sequence(row.sequence),
        command_id: row.command_id,
        request_id: row.request_id,
        payload: stored.payload,
        status: row.status.parsed->Ok_0,
        revision: row.revision as u64,
        created_at: row.created_at,
        updated_at: row.updated_at,
        sent_at: row.sent_at,
        acked_at: row.acked_at,
        last_error: row.last_error,
    }
    &&& stored.payload@ == row.payload.text@
}

/// What is wrong with the columns of a row of the outbox.
pub open spec fn outbox_columns_fault(row: WireOutboxRow) -> Option<Fault> {
    let e = "wire_outbox"@;
    let key = row.message_id@;
    let f = json::stored_fault(e, key, row.payload.text@, row.payload.digest@);
    let f = error::first_of(f, numbers::stored_sequence_fault(e, key, row.sequence));
    let f = error::first_of(f, columns::enum_fault(e, key, "status"@, row.status));
    error::first_of(f, numbers::non_negative_fault(e, key, "revision"@, row.revision as int))
}

fn read_outbox_columns(row: WireOutboxRow) -> (r: Result<StoredWireOutbox, StoreError>)
    ensures
        error::fault(r) == outbox_columns_fault(row),
        r matches Ok(stored) ==> outbox_of_row(row, stored),
{
    let entity = "wire_outbox";
    let key = row.message_id;
    let payload = CanonicalJson::from_stored(
        entity,
        key.as_str(),
        row.payload.text,
        row.payload.digest,
    )?;
    let sequence = sequence_from_row(entity, key.as_str(), row.sequence)?;
    let status = parse_enum_column(entity, key.as_str(), "status", row.status)?;
    let revision: u64 = non_negative_from_row(entity, key.as_str(), "revision", row.revision)?;
    Ok(
        StoredWireOutbox {
            message_id: key,
            session_id: row.session_id,
            message_type: row.message_type,
            sequence,
            command_id: row.command_id,
            request_id: row.request_id,
            payload,
            status,
            revision,
            created_at: row.created_at,
            updated_at: row.updated_at,
            sent_at: row.sent_at,
            acked_at: row.acked_at,
            last_error: row.last_error,
        },
    )
}

/// What the row of a message says of the message.
pub open spec fn row_face(row: WireOutboxRow) -> OutboxFace {
    OutboxFace {
        message_id: row.message_id@,
        message_type: row.message_type@,
        session_id: text::optional_text(row.session_id),
        sequence: column_sequence(row.sequence),
        command_id: text::optional_text(row.command_id),
        request_id: text::optional_text(row.request_id),
        created_at: row.created_at,
        updated_at: row.updated_at,
    }
}

/// Reads a message of the outbox. `wire` is what the wire format reads from
/// its payload.
pub fn wire_outbox_from_row(row: WireOutboxRow, wire: &Result<WireEnvelope, String>) -> (r: Result<
    StoredWireOutbox,
    StoreError,
>)
    ensures
        error::fault(r) == error::first_of(
            outbox_columns_fault(row),
            outbox_fault(row_face(row), *wire),
        ),
        r matches Ok(stored) ==> outbox_of_row(row, stored),
{
    let stored = read_outbox_columns(row)?;
    assert(face(stored) == row_face(row));
    validate_stored_wire_outbox(&stored, wire)?;
    Ok(stored)
}

/// A row of the inbox.
pub struct WireInboxRow {
    pub message_id: MessageId,
    pub session_id: Option<SessionId>,
    pub message_type: String,
    pub sequence: Option<i64>,
    pub received_at: i64,
    pub handled_at: Option<i64>,
    pub status: EnumColumn<WireInboxStatus>,
    pub payload_hash: String,
}

/// What is wrong with a row of the inbox.
pub open spec fn inbox_row_fault(row: WireInboxRow) -> Option<Fault> {
    let e = "wire_inbox"@;
    let key = row.message_id@;
    let f = columns::digest_fault(e, key, row.payload_hash@);
    let f = error::first_of(f, numbers::stored_sequence_fault(e, key, row.sequence));
    error::first_of(f, columns::enum_fault(e, key, "status"@, row.status))
}

/// Reads a message of the inbox.
pub fn wire_inbox_from_row(row: WireInboxRow) -> (r: Result<StoredWireInbox, StoreError>)
    ensures
        error::fault(r) == inbox_row_fault(row),
        r matches Ok(stored) ==> stored == (StoredWireInbox {
            message_id: row.message_id,
            session_id: row.session_id,
            message_type: row.message_type,
            sequence: column_sequence(row.sequence),
            received_at: row.received_at,
            handled_at: row.handled_at,
            status: row.status.parsed->Ok_0,
            payload_hash: row.payload_hash,
        }),
{
    let entity = "wire_inbox";
    let key = row.message_id;
    validate_hash(entity, key.as_str(), row.payload_hash.as_str())?;
    let sequence = sequence_from_row(entity, key.as_str(), row.sequence)?;
    let status = parse_enum_column(entity, key.as_str(), "status", row.status)?;
    Ok(
        StoredWireInbox {
            message_id: key,
            session_id: row.session_id,
            message_type: row.message_type,
            sequence,
            received_at: row.received_at,
            handled_at: row.handled_at,
            status,
            payload_hash: row.payload_hash,
        },
    )
}

/// The record of a received message: of the message itself only the digest is
/// kept.
pub open spec fn inbox_of_message(message: NewWireInbox, stored: StoredWireInbox) -> bool {
    &&& stored == StoredWireInbox {
        message_id: message.message_id,
        session_id: message.session_id,
        message_type: message.message_type,
        sequence: message.sequence,
        received_at: message.received_at,
        handled_at: message.handled_at,
        status: message.status,
        payload_hash: stored.payload_hash,
    }
    &&& stored.payload_hash@ == json::text_digest(message.wire_message@)
}

/// Records a received message: gives its record, or refuses it.
pub fn record_wire_inbox(message: &NewWireInbox) -> (r: Result<StoredWireInbox, StoreError>)
    ensures
        error::fault(r) == numbers::optional_sequence_fault(
            "wire_inbox.sequence"@,
            message.sequence,
        ),
        r matches Ok(stored) ==> inbox_of_message(*message, stored),
{
    sequence_to_i64("wire_inbox.sequence", message.sequence)?;
    Ok(
        StoredWireInbox {
            message_id: message.message_id.clone(),
            session_id: text::copy_optional(&message.session_id),
            message_type: message.message_type.clone(),
            sequence: message.sequence,
            received_at: message.received_at,
            handled_at: message.handled_at,
            status: message.status.clone(),
            payload_hash: message.wire_message.sha256_hex().to_owned(),
        },
    )
}

/// The received message is on record, whatever became of it since.
pub open spec fn same_inbox_fact(existing: StoredWireInbox, incoming: NewWireInbox) -> bool {
    &&& existing.message_id@ == incoming.message_id@
    &&& text::optional_text(existing.session_id) == text::optional_text(incoming.session_id)
    &&& existing.message_type@ == incoming.message_type@
    &&& existing.sequence == incoming.sequence
    &&& existing.payload_hash@ == json::text_digest(incoming.wire_message@)
}

/// Whether the received message is on record.
pub fn same_wire_inbox_fact(existing: &StoredWireInbox, incoming: &NewWireInbox) -> (r: bool)
    ensures
        r == same_inbox_fact(*existing, *incoming),
{
    same_text(existing.message_id.as_str(), incoming.message_id.as_str()) && same_optional(
        &existing.session_id,
        &incoming.session_id,
    ) && same_text(existing.message_type.as_str(), incoming.message_type.as_str()) && same_count(
        existing.sequence,
        incoming.sequence,
    ) && same_text(existing.payload_hash.as_str(), incoming.wire_message.sha256_hex())
}

/// Decides about a received message whose name or whose place in its session
/// is taken. `existing` holds the messages on record that share either.
pub fn resolve_wire_inbox_replay(existing: Vec<StoredWireInbox>, incoming: &NewWireInbox) -> (r:
    Result<WriteOutcome<StoredWireInbox>, StoreError>)
    ensures
        error::fault(r) == (if existing@.len() == 1 && same_inbox_fact(existing@[0], *incoming) {
            None
        } else {
            Some(error::conflict_fault("wire_inbox"@, message_key(incoming.message_id@)))
        }),
        r matches Ok(outcome) ==> outcome == WriteOutcome::Duplicate(existing@[0]),
{
    let mut rows = existing;
    if rows.len() == 1 && same_wire_inbox_fact(&rows[0], incoming) {
        let only = rows.remove(0);
        return Ok(WriteOutcome::Duplicate(only));
    }
    let key = join2("message_id=", incoming.message_id.as_str());
    Err(StoreError::conflict("wire_inbox", key.as_str()))
}

/// A message that was put into the outbox, or recorded in the inbox, is known
/// when it comes again.
pub proof fn stored_messages_are_known(
    outgoing: NewWireOutbox,
    received: NewWireInbox,
    stored: StoredWireInbox,
)
    requires
        inbox_of_message(received, stored),
    ensures
        same_outbox_fact(outbox_record(outgoing), outgoing),
        same_inbox_fact(stored, received),
{
}

/// A message in the outbox speaks of at most one thing.
pub proof fn outbox_subject_is_single(message: StoredWireOutbox, wire: Result<WireEnvelope, String>)
    requires
        outbox_reason(face(message), wire) is None,
    ensures
        !(message.command_id is Some && message.request_id is Some),
        message.command_id is Some ==> message.message_type@ == EXECUTION_COMMAND_TYPE@,
        message.request_id is Some ==> message.message_type@ == RECONCILIATION_REQUEST_TYPE@,
{
}

/// A message that may stand in the outbox may stand there after every change
/// that is not dated back.
pub proof fn changed_messages_may_stand(
    before: StoredWireOutbox,
    step: deliveries::OutboxStep,
    after: StoredWireOutbox,
    wire: Result<WireEnvelope, String>,
)
    requires
        outbox_reason(face(before), wire) is None,
        deliveries::outbox_moved(before, step, after),
        step.at >= before.updated_at,
    ensures
        outbox_reason(face(after), wire) is None,
{
}

/// A message is stored if its envelope says of it what its columns say, and it
/// carries the command or the request that its payload names, and only that one
/// of the two that belongs to its type.
pub proof fn messages_carry_what_their_type_says(
    message: OutboxFace,
    wire: Result<WireEnvelope, String>,
)
    ensures
        outbox_reason(message, wire) is None <==> {
            let envelope = wire->Ok_0;
            &&& wire is Ok
            &&& envelope.message_id@ == message.message_id
            &&& envelope.message_type@ == message.message_type
            &&& text::optional_text(envelope.session_id) == message.session_id
            &&& envelope.sequence == message.sequence
            &&& message.updated_at >= message.created_at
            &&& message.message_type == "execution.command"@ ==> envelope.command is Ok
                && message.command_id == Some((envelope.command->Ok_0)@) && message.request_id
                is None
            &&& message.message_type == "reconciliation.request"@ && message.message_type
                != "execution.command"@ ==> envelope.request is Ok && message.request_id == Some(
                (envelope.request->Ok_0)@,
            ) && message.command_id is None
            &&& message.message_type != "execution.command"@ && message.message_type
                != "reconciliation.request"@ ==> message.command_id is None && message.request_id
                is None
        },
{
}

/// A message is stored as it was given, at its first revision.
pub proof fn stored_messages_are_as_given(message: NewWireOutbox)
    ensures
        ({
            let stored = outbox_record(message);
            &&& stored.message_id == message.message_id
            &&& stored.session_id == message.session_id
            &&& stored.message_type == message.message_type
            &&& stored.sequence == message.sequence
            &&& stored.command_id == message.command_id
            &&& stored.request_id == message.request_id
            &&& stored.payload == message.payload
            &&& stored.status == message.status
            &&& stored.revision == 0
            &&& stored.created_at == message.created_at
            &&& stored.updated_at == message.updated_at
            &&& stored.sent_at == message.sent_at
            &&& stored.acked_at == message.acked_at
            &&& stored.last_error == message.last_error
        }),
{
}

/// A message comes twice if what it says is the same, whatever became of it
/// since.
pub proof fn repeated_wire_messages_say_the_same(
    existing: StoredWireOutbox,
    incoming: NewWireOutbox,
    received: StoredWireInbox,
    arriving: NewWireInbox,
)
    ensures
        same_outbox_fact(existing, incoming) <==> {
            &&& existing.message_id@ == incoming.message_id@
            &&& existing.session_id is Some <==> incoming.session_id is Some
            &&& existing.session_id is Some ==> (existing.session_id->0)@ == (
            incoming.session_id->0)@
            &&& existing.message_type@ == incoming.message_type@
            &&& existing.sequence == incoming.sequence
            &&& existing.command_id is Some <==> incoming.command_id is Some
            &&& existing.command_id is Some ==> (existing.command_id->0)@ == (
            incoming.command_id->0)@
            &&& existing.request_id is Some <==> incoming.request_id is Some
            &&& existing.request_id is Some ==> (existing.request_id->0)@ == (
            incoming.request_id->0)@
            &&& existing.payload@ == incoming.payload@
        },
        same_inbox_fact(received, arriving) <==> {
            &&& received.message_id@ == arriving.message_id@
            &&& received.session_id is Some <==> arriving.session_id is Some
            &&& received.session_id is Some ==> (received.session_id->0)@ == (
            arriving.session_id->0)@
            &&& received.message_type@ == arriving.message_type@
            &&& received.sequence == arriving.sequence
            &&& received.payload_hash@ == json::text_digest(arriving.wire_message@)
        },
{
}

/// A stored message is read if its payload is intact, its number is positive where
/// it has one, and its status and revision are sound.
pub proof fn read_wire_messages_are_sound(row: WireOutboxRow, inbox: WireInboxRow)
    ensures
        outbox_columns_fault(row) is None <==> {
            &&& json::stored_fault(
                "wire_outbox"@,
                row.message_id@,
                row.payload.text@,
                row.payload.digest@,
            ) is None
            &&& row.sequence is Some ==> row.sequence->0 > 0
            &&& row.status.parsed is Ok
            &&& row.revision >= 0
        },
        inbox_row_fault(inbox) is None <==> {
            &&& text::lower_hex_64(inbox.payload_hash@)
            &&& inbox.sequence is Some ==> inbox.sequence->0 > 0
            &&& inbox.status.parsed is Ok
        },
{
}

/// A new message is taken if it is sound and its number, where it has one, is
/// counted from one and fits its column.
pub proof fn new_messages_are_numbered_from_one(
    message: NewWireOutbox,
    wire: Result<WireEnvelope, String>,
)
    ensures
        new_outbox_fault(message, wire) is None <==> {
            &&& outbox_reason(
                (OutboxFace {
                    message_id: message.message_id@,
                    message_type: message.message_type@,
                    session_id: text::optional_text(message.session_id),
                    sequence: message.sequence,
                    command_id: text::optional_text(message.command_id),
                    request_id: text::optional_text(message.request_id),
                    created_at: message.created_at,
                    updated_at: message.updated_at,
                }),
                wire,
            ) is None
            &&& message.sequence is Some ==> 0 < message.sequence->0 <= i64::MAX
        },
{
}

}
