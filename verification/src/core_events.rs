//! Core events: appended once, and known when they come again.

use vstd::prelude::*;
use vstd::string::*;

use crate::columns::JsonColumns;
use crate::error;
use crate::error::StoreError;
use crate::json;
use crate::json::CanonicalJson;
use crate::model::{CoreEventMetadata, NewCoreEvent, StoredCoreEvent, WriteOutcome};
use crate::text;
use crate::text::{join2, join4, same_optional, same_text};

verus! {

/// Reads a core event from its columns.
pub fn core_event_from_row(metadata: CoreEventMetadata, payload: JsonColumns) -> (r: Result<
    StoredCoreEvent,
    StoreError,
>)
    ensures
        error::fault(r) == json::stored_fault(
            "core_event"@,
            metadata.event_id@,
            payload.text@,
            payload.digest@,
        ),
        r matches Ok(stored) ==> stored.metadata == metadata && stored.payload@ == payload.text@,
{
    let payload = CanonicalJson::from_stored(
        "core_event",
        metadata.event_id.as_str(),
        payload.text,
        payload.digest,
    )?;
    Ok(StoredCoreEvent { metadata, payload })
}

/// Two descriptions are of one event: they agree in everything but the times
/// at which the event was received and written down.
pub open spec fn same_fact(left: CoreEventMetadata, right: CoreEventMetadata) -> bool {
    &&& left.event_id@ == right.event_id@
    &&& text::optional_text(left.message_id) == text::optional_text(right.message_id)
    &&& left.event_type@ == right.event_type@
    &&& left.aggregate_type@ == right.aggregate_type@
    &&& left.aggregate_id@ == right.aggregate_id@
    &&& left.schema_version@ == right.schema_version@
    &&& text::optional_text(left.correlation_id) == text::optional_text(right.correlation_id)
    &&& text::optional_text(left.causation_id) == text::optional_text(right.causation_id)
    &&& text::optional_text(left.account_id) == text::optional_text(right.account_id)
    &&& text::optional_text(left.client_id) == text::optional_text(right.client_id)
    &&& text::optional_text(left.terminal_id) == text::optional_text(right.terminal_id)
    &&& text::optional_text(left.strategy_id) == text::optional_text(right.strategy_id)
    &&& text::optional_text(left.intent_id) == text::optional_text(right.intent_id)
    &&& text::optional_text(left.plan_id) == text::optional_text(right.plan_id)
    &&& text::optional_text(left.leg_id) == text::optional_text(right.leg_id)
    &&& text::optional_text(left.command_id) == text::optional_text(right.command_id)
    &&& text::optional_text(left.idempotency_key) == text::optional_text(right.idempotency_key)
    &&& left.event_at == right.event_at
    &&& left.source@ == right.source@
}

/// The stored event is the incoming one.
pub open spec fn same_event(existing: StoredCoreEvent, incoming: NewCoreEvent) -> bool {
    existing.payload@ == incoming.payload@ && same_fact(existing.metadata, incoming.metadata)
}

/// Whether the stored event is the incoming one.
pub fn same_core_event_fact(existing: &StoredCoreEvent, incoming: &NewCoreEvent) -> (r: bool)
    ensures
        r == same_event(*existing, *incoming),
{
    let left = &existing.metadata;
    let right = &incoming.metadata;
    existing.payload.same(&incoming.payload) && same_text(
        left.event_id.as_str(),
        right.event_id.as_str(),
    ) && same_optional(&left.message_id, &right.message_id) && same_text(
        left.event_type.as_str(),
        right.event_type.as_str(),
    ) && same_text(left.aggregate_type.as_str(), right.aggregate_type.as_str()) && same_text(
        left.aggregate_id.as_str(),
        right.aggregate_id.as_str(),
    ) && same_text(left.schema_version.as_str(), right.schema_version.as_str()) && same_optional(
        &left.correlation_id,
        &right.correlation_id,
    ) && same_optional(&left.causation_id, &right.causation_id) && same_optional(
        &left.account_id,
        &right.account_id,
    ) && same_optional(&left.client_id, &right.client_id) && same_optional(
        &left.terminal_id,
        &right.terminal_id,
    ) && same_optional(&left.strategy_id, &right.strategy_id) && same_optional(
        &left.intent_id,
        &right.intent_id,
    ) && same_optional(&left.plan_id, &right.plan_id) && same_optional(
        &left.leg_id,
        &right.leg_id,
    ) && same_optional(&left.command_id, &right.command_id) && same_optional(
        &left.idempotency_key,
        &right.idempotency_key,
    ) && left.event_at == right.event_at && same_text(left.source.as_str(), right.source.as_str())
}

/// The key under which a conflict about an event is reported.
pub open spec fn conflict_key(event: NewCoreEvent) -> Seq<char> {
    match event.metadata.message_id {
        Some(message_id) => "event_id="@ + event.metadata.event_id@ + " or message_id="@
            + message_id@,
        None => "event_id="@ + event.metadata.event_id@,
    }
}

/// The key under which a conflict about an event is reported.
pub fn core_event_conflict_key(event: &NewCoreEvent) -> (r: String)
    ensures
        r@ == conflict_key(*event),
{
    match &event.metadata.message_id {
        Some(message_id) => join4(
            "event_id=",
            event.metadata.event_id.as_str(),
            " or message_id=",
            message_id.as_str(),
        ),
        None => join2("event_id=", event.metadata.event_id.as_str()),
    }
}

/// Decides about an event whose name or message is taken. `existing` holds the
/// stored events that share either with it.
pub fn resolve_core_event_replay(existing: Vec<StoredCoreEvent>, incoming: &NewCoreEvent) -> (r:
    Result<WriteOutcome<StoredCoreEvent>, StoreError>)
    ensures
        error::fault(r) == (if existing@.len() == 1 && same_event(existing@[0], *incoming) {
            None
        } else {
            Some(error::conflict_fault("core_event"@, conflict_key(*incoming)))
        }),
        r matches Ok(outcome) ==> outcome == WriteOutcome::Duplicate(existing@[0]),
{
    let mut rows = existing;
    if rows.len() == 1 && same_core_event_fact(&rows[0], incoming) {
        let only = rows.remove(0);
        return Ok(WriteOutcome::Duplicate(only));
    }
    Err(StoreError::conflict("core_event", core_event_conflict_key(incoming).as_str()))
}

/// An event that was appended is known when it comes again, at whatever time.
pub proof fn appended_event_is_known(event: NewCoreEvent, again: NewCoreEvent)
    requires
        again.payload == event.payload,
        again.metadata == (CoreEventMetadata {
            received_at: again.metadata.received_at,
            created_at: again.metadata.created_at,
            ..event.metadata
        }),
    ensures
        same_event(StoredCoreEvent { metadata: event.metadata, payload: event.payload }, again),
{
}

/// An event comes twice if its payload is the same and all that is said of it,
/// but for when it was received and stored.
pub proof fn repeated_events_are_the_same(existing: StoredCoreEvent, incoming: NewCoreEvent)
    ensures
        same_event(existing, incoming) ==> {
            &&& existing.payload@ == incoming.payload@
            &&& existing.metadata.event_id@ == incoming.metadata.event_id@
            &&& existing.metadata.event_type@ == incoming.metadata.event_type@
            &&& existing.metadata.aggregate_type@ == incoming.metadata.aggregate_type@
            &&& existing.metadata.aggregate_id@ == incoming.metadata.aggregate_id@
            &&& existing.metadata.schema_version@ == incoming.metadata.schema_version@
            &&& existing.metadata.event_at == incoming.metadata.event_at
            &&& existing.metadata.source@ == incoming.metadata.source@
            &&& existing.metadata.message_id is Some <==> incoming.metadata.message_id is Some
            &&& existing.metadata.message_id is Some ==> (existing.metadata.message_id->0)@ == (
            incoming.metadata.message_id->0)@
            &&& existing.metadata.account_id is Some <==> incoming.metadata.account_id is Some
            &&& existing.metadata.account_id is Some ==> (existing.metadata.account_id->0)@ == (
            incoming.metadata.account_id->0)@
            &&& existing.metadata.correlation_id is Some
                <==> incoming.metadata.correlation_id is Some
            &&& existing.metadata.causation_id is Some <==> incoming.metadata.causation_id is Some
            &&& existing.metadata.client_id is Some <==> incoming.metadata.client_id is Some
            &&& existing.metadata.terminal_id is Some <==> incoming.metadata.terminal_id is Some
            &&& existing.metadata.strategy_id is Some <==> incoming.metadata.strategy_id is Some
            &&& existing.metadata.intent_id is Some <==> incoming.metadata.intent_id is Some
            &&& existing.metadata.plan_id is Some <==> incoming.metadata.plan_id is Some
            &&& existing.metadata.leg_id is Some <==> incoming.metadata.leg_id is Some
            &&& existing.metadata.command_id is Some <==> incoming.metadata.command_id is Some
            &&& existing.metadata.idempotency_key is Some
                <==> incoming.metadata.idempotency_key is Some
        },
        existing.payload@ == incoming.payload@ && existing.metadata == (CoreEventMetadata {
            received_at: existing.metadata.received_at,
            created_at: existing.metadata.created_at,
            ..incoming.metadata
        }) ==> same_event(existing, incoming),
{
}

}
