//! What is written down is read back: a row with the columns of a record reads
//! as that record.

use vstd::prelude::*;

use crate::attempts;
use crate::attempts::DeliveryAttemptRow;
use crate::columns::{EnumColumn, JsonColumns};
use crate::commands;
use crate::commands::{CommandRow, CommandStateRow, ExecutionEventRow};
use crate::error;
use crate::event_stream;
use crate::event_stream::{EventStreamRecord, EventStreamRow};
use crate::inbound_durability;
use crate::inbound_durability::{
    InboundRow, RejectionRow, ResumeRow, StoredInboundAdmission, StoredInboundRejection,
    StoredSessionResumeAdmission,
};
use crate::json;
use crate::json::CanonicalJson;
use crate::model::{
    CoreEventMetadata, StoredCoreEvent, StoredDeliveryAttempt, StoredSessionRecord,
    StoredWireInbox, StoredWireOutbox,
};
use crate::outbound_work;
use crate::outbound_work::{StoredOutboundDeliveryWork, WorkRow};
use crate::plans;
use crate::plans::{ExecutionPlanJournal, LegRow, PlanRow};
use crate::reconciliation;
use crate::reconciliation::{
    NewManualReconciliationEscalation, NewReconciliationResult, NewReconciliationRun,
    ReconciliationRunStatus, StoredReconciliationRun,
};
use crate::reconciliation_rows;
use crate::reconciliation_rows::{OptionalJson, ReconciliationRunRow};
use crate::risk;
use crate::risk::{RiskResultRow, TradeIntentRow};
use crate::risk_capacity;
use crate::risk_capacity::{RiskCapacityRow, StoredRiskCapacitySnapshot};
use crate::sessions;
use crate::sessions::SessionRow;
use crate::snapshots;
use crate::snapshots::{Snapshot, SnapshotKind, SnapshotRow};
use crate::text;
use crate::trading::{
    ExecutionCommandState, StoredExecutionCommand, StoredExecutionEvent, StoredExecutionLeg,
    StoredExecutionPlan, StoredRiskResult, StoredTradeIntent,
};
use crate::transport_events;
use crate::transport_events::{
    DeadletterEventRow, StoredDeadletterEvent, StoredSystemEvent, SystemEventRow,
};
use crate::wire;
use crate::wire::{WireEnvelope, WireInboxRow, WireOutboxRow};

verus! {

/// Two columns hold a JSON text and its digest.
pub open spec fn hold_json(columns: JsonColumns, text: Seq<char>) -> bool {
    columns.text@ == text && columns.digest@ == json::text_digest(text)
}

/// A column holds the name of a value.
pub open spec fn holds_name<T>(column: EnumColumn<T>, value: T) -> bool {
    column.parsed == Ok::<T, String>(value)
}

/// An optional column holds an optional count.
pub open spec fn holds_count(column: Option<i64>, count: Option<u64>) -> bool {
    match (column, count) {
        (Some(column), Some(count)) => column == count,
        (None, None) => true,
        _ => false,
    }
}

/// An event is read back as it was appended.
pub proof fn events_are_read_back(
    event: StoredCoreEvent,
    metadata: CoreEventMetadata,
    payload: JsonColumns,
)
    requires
        json::is_canonical_text(event.payload@),
        metadata == event.metadata,
        hold_json(payload, event.payload@),
    ensures
        json::stored_fault(
            "core_event"@,
            metadata.event_id@,
            payload.text@,
            payload.digest@,
        ) is None,
{
}

/// A row has the columns of a message in the outbox.
pub open spec fn holds_outbox(row: WireOutboxRow, message: StoredWireOutbox) -> bool {
    &&& row.message_id == message.message_id
    &&& row.session_id == message.session_id
    &&& row.message_type == message.message_type
    &&& holds_count(row.sequence, message.sequence)
    &&& row.command_id == message.command_id
    &&& row.request_id == message.request_id
    &&& hold_json(row.payload, message.payload@)
    &&& holds_name(row.status, message.status)
    &&& row.revision == message.revision
    &&& row.created_at == message.created_at
    &&& row.updated_at == message.updated_at
    &&& row.sent_at == message.sent_at
    &&& row.acked_at == message.acked_at
    &&& row.last_error == message.last_error
}

/// A message in the outbox is read back as it was written.
pub proof fn outgoing_messages_are_read_back(
    message: StoredWireOutbox,
    row: WireOutboxRow,
    wire: Result<WireEnvelope, String>,
)
    requires
        json::is_canonical_text(message.payload@),
        message.sequence matches Some(sequence) ==> sequence > 0,
        wire::outbox_reason(wire::face(message), wire) is None,
        holds_outbox(row, message),
    ensures
        error::first_of(
            wire::outbox_columns_fault(row),
            wire::outbox_fault(wire::row_face(row), wire),
        ) is None,
        wire::outbox_of_row(row, message),
{
    assert(wire::column_sequence(row.sequence) == message.sequence);
    assert(wire::row_face(row) == wire::face(message));
}

/// A received message is read back as it was recorded.
pub proof fn received_messages_are_read_back(message: StoredWireInbox, row: WireInboxRow)
    requires
        text::lower_hex_64(message.payload_hash@),
        message.sequence matches Some(sequence) ==> sequence > 0,
        row.message_id == message.message_id,
        row.session_id == message.session_id,
        row.message_type == message.message_type,
        holds_count(row.sequence, message.sequence),
        row.received_at == message.received_at,
        row.handled_at == message.handled_at,
        holds_name(row.status, message.status),
        row.payload_hash == message.payload_hash,
    ensures
        wire::inbox_row_fault(row) is None,
        wire::column_sequence(row.sequence) == message.sequence,
{
}

/// A row has the columns of a session.
pub open spec fn holds_session(row: SessionRow, session: StoredSessionRecord) -> bool {
    &&& row.session_id == session.session_id
    &&& row.client_id == session.client_id
    &&& row.account_id == session.account_id
    &&& row.terminal_id == session.terminal_id
    &&& row.platform == session.platform
    &&& holds_name(row.status, session.status)
    &&& row.capabilities_json@ == session.capabilities@
    &&& row.remote_addr == session.remote_addr
    &&& row.connected_at == session.connected_at
    &&& row.last_heartbeat_at == session.last_heartbeat_at
    &&& row.last_time_sync_at == session.last_time_sync_at
    &&& match (row.clock_sync_status, session.clock_sync_status) {
        (Some(column), Some(status)) => holds_name(column, status),
        (None, None) => true,
        _ => false,
    }
    &&& row.disconnected_at == session.disconnected_at
    &&& row.revision == session.revision
    &&& row.updated_at == session.updated_at
    &&& row.last_outbound_sequence == session.last_outbound_sequence
    &&& row.max_inflight_commands == session.max_inflight_commands
}

/// A session is read back as it was written.
pub proof fn sessions_are_read_back(session: StoredSessionRecord, row: SessionRow)
    requires
        json::is_canonical_text(session.capabilities@),
        sessions::consistent(session),
        session.last_outbound_sequence > 0,
        session.max_inflight_commands > 0,
        holds_session(row, session),
    ensures
        sessions::session_row_fault(row) is None,
        sessions::session_of_row(row, session),
{
}

/// A row has the columns of an attempt.
pub open spec fn holds_attempt(row: DeliveryAttemptRow, attempt: StoredDeliveryAttempt) -> bool {
    &&& row.attempt_id == attempt.attempt_id
    &&& attempts::row_subject(row.command_id, row.request_id) == Some(attempt.subject)
    &&& row.session_id == attempt.session_id
    &&& row.message_id == attempt.message_id
    &&& holds_name(row.status, attempt.status)
    &&& match attempt.request_payload {
        Some(payload) => {
            &&& text::optional_text(row.request_payload_json) == Some(payload@)
            &&& text::optional_text(row.request_payload_hash) == Some(json::text_digest(payload@))
        },
        None => row.request_payload_json is None && row.request_payload_hash is None,
    }
    &&& row.attempted_at == attempt.attempted_at
    &&& row.acked_at == attempt.acked_at
    &&& row.error == attempt.error
    &&& row.revision == attempt.revision
    &&& row.updated_at == attempt.updated_at
}

/// An attempt is read back as it was written.
pub proof fn attempts_are_read_back(attempt: StoredDeliveryAttempt, row: DeliveryAttemptRow)
    requires
        attempt.request_payload matches Some(payload) ==> json::is_canonical_text(payload@),
        attempts::coherent(attempt),
        holds_attempt(row, attempt),
    ensures
        attempts::attempt_row_fault(row) is None,
        attempts::attempt_of_row(row, attempt),
{
}

/// A row has the columns of an intent.
pub open spec fn holds_intent(row: TradeIntentRow, stored: StoredTradeIntent) -> bool {
    let intent = stored.intent;
    &&& row.intent_id == intent.intent_id
    &&& row.decision_id == intent.decision_id
    &&& row.strategy_id == intent.strategy_id
    &&& row.account_id == intent.account_id
    &&& row.symbol == intent.symbol
    &&& row.action@ == intent.action.name()
    &&& holds_name(row.status, stored.status)
    &&& row.requested_at == intent.requested_at
    &&& row.signal_expires_at == intent.signal_expires_at
    &&& row.idempotency_key == intent.idempotency_key
    &&& hold_json(row.payload, stored.payload@)
    &&& row.created_at == stored.created_at
    &&& row.updated_at == stored.updated_at
    &&& row.intent == Ok::<_, String>(intent)
}

/// An intent is read back as it was written.
pub proof fn intents_are_read_back(stored: StoredTradeIntent, row: TradeIntentRow)
    requires
        json::is_canonical_text(stored.payload@),
        holds_intent(row, stored),
    ensures
        risk::intent_row_fault(row) is None,
        risk::intent_of_row(row, stored),
{
}

/// A row has the columns of a risk decision.
pub open spec fn holds_risk(row: RiskResultRow, stored: StoredRiskResult) -> bool {
    let result = stored.result;
    &&& row.risk_id == result.risk_id
    &&& row.intent_id == result.intent_id
    &&& row.account_id == result.account_id
    &&& row.approved == (if result.approved {
        1int
    } else {
        0int
    })
    &&& row.reason == result.reason
    &&& row.snapshot_age_ms == result.snapshot_age_ms
    &&& row.symbol_metadata_age_ms == result.symbol_metadata_age_ms
    &&& row.evaluated_at == result.evaluated_at
    &&& row.valid_until == result.valid_until
    &&& hold_json(row.payload, stored.payload@)
    &&& row.result == Ok::<_, String>(result)
    &&& row.verdict is None
}

/// A risk decision is read back as it was written, with the intent that it was
/// made on.
pub proof fn risk_results_are_read_back(
    stored: StoredRiskResult,
    intent: StoredTradeIntent,
    row: RiskResultRow,
)
    requires
        json::is_canonical_text(stored.payload@),
        json::is_canonical_text(intent.payload@),
        intent.intent.intent_id == stored.result.intent_id,
        risk::risk_identity_fault(stored.result, Some(intent)) is None,
        holds_risk(row, stored),
        row.parent matches Some(parent) && holds_intent(parent, intent),
    ensures
        risk::risk_row_fault(row) is None,
        risk::risk_of_row(row, stored),
{
    intents_are_read_back(intent, row.parent->0);
}

/// A row has the columns of a command.
pub open spec fn holds_command(row: CommandRow, stored: StoredExecutionCommand) -> bool {
    let command = stored.command;
    &&& row.command_id == command.command_id
    &&& row.risk_id == stored.risk_id
    &&& row.plan_id == command.plan_id
    &&& row.leg_id == command.leg_id
    &&& row.account_id == command.account_id
    &&& row.client_id == command.client_id
    &&& row.terminal_id == command.terminal_id
    &&& row.symbol == command.symbol
    &&& row.action == command.action
    &&& row.expires_at == command.expires_at
    &&& row.idempotency_key == command.idempotency_key
    &&& hold_json(row.payload, stored.payload@)
    &&& row.hmac == command.hmac
    &&& row.created_at == stored.created_at
    &&& row.command == Ok::<_, String>(command)
}

/// A command is read back as it was written.
pub proof fn commands_are_read_back(stored: StoredExecutionCommand, row: CommandRow)
    requires
        json::is_canonical_text(stored.payload@),
        holds_command(row, stored),
    ensures
        commands::command_row_fault(row) is None,
        commands::command_of_row(row, stored),
{
}

/// The state of a command is read back as it was written.
pub proof fn command_states_are_read_back(state: ExecutionCommandState, row: CommandStateRow)
    requires
        holds_name(row.status, state.status),
        row.command_id == state.command_id,
        row.delivery_attempts == state.delivery_attempts,
    ensures
        commands::command_state_row_fault(row) is None,
        row.delivery_attempts as u32 == state.delivery_attempts,
        row.status.parsed->Ok_0 == state.status,
{
}

/// A row has the columns of a report about a command.
pub open spec fn holds_report(row: ExecutionEventRow, stored: StoredExecutionEvent) -> bool {
    let event = stored.event;
    &&& row.execution_id == event.execution_id
    &&& row.command_id == event.command_id
    &&& row.plan_id == event.plan_id
    &&& row.leg_id == event.leg_id
    &&& row.account_id == event.account_id
    &&& row.status == event.status
    &&& row.broker_order_id == event.broker_order_id
    &&& row.position_ticket == event.position_ticket
    &&& row.event_at == event.event_at
    &&& row.filled_at == event.filled_at
    &&& hold_json(row.payload, stored.payload@)
    &&& row.created_at == stored.created_at
    &&& row.event == Ok::<_, String>(event)
}

/// A report about a command is read back as it was written.
pub proof fn reports_are_read_back(stored: StoredExecutionEvent, row: ExecutionEventRow)
    requires
        json::is_canonical_text(stored.payload@),
        holds_report(row, stored),
    ensures
        commands::event_row_fault(row) is None,
        commands::event_of_row(row, stored),
{
}

/// An event of the stream is read back as it was published.
pub proof fn stream_events_are_read_back(record: EventStreamRecord, row: EventStreamRow)
    requires
        json::is_canonical_text(record.payload@),
        record.stream_sequence > 0,
        row.stream_sequence == record.stream_sequence,
        row.event_id == record.event_id,
        holds_name(row.topic, record.topic),
        row.account_id == record.account_id,
        row.event_type == record.event_type,
        hold_json(row.payload, record.payload@),
        row.created_at == record.created_at,
    ensures
        event_stream::event_row_fault(row) is None,
        event_stream::reads_as(row, record),
{
}

/// An event of the system is read back as it was recorded.
pub proof fn system_events_are_read_back(event: StoredSystemEvent, row: SystemEventRow)
    requires
        event.metadata matches Some(metadata) ==> json::is_canonical_text(metadata@),
        row.system_event_id == event.system_event_id,
        row.event_type == event.event_type,
        row.severity@ == event.severity.name(),
        row.component == event.component,
        row.message == event.message,
        text::optional_text(row.metadata_json) == transport_events::metadata_text(event.metadata),
        row.timestamp == event.timestamp,
        row.created_at == event.created_at,
    ensures
        transport_events::system_event_row_fault(row) is None,
        transport_events::system_event_reads(row, event),
{
}

/// A message that was put aside is read back as it was recorded.
pub proof fn deadletters_are_read_back(event: StoredDeadletterEvent, row: DeadletterEventRow)
    requires
        row.deadletter_id == event.deadletter_id,
        row.message_id == event.message_id,
        row.message_type == event.message_type,
        row.schema_version == event.schema_version,
        row.reason@ == event.reason.name(),
        row.source == event.source,
        row.raw_payload == event.raw_payload,
        holds_count(row.raw_payload_length, event.raw_payload_length),
        row.error_message == event.error_message,
        row.received_at == event.received_at,
        row.created_at == event.created_at,
    ensures
        transport_events::deadletter_row_fault(row) is None,
        transport_events::deadletter_reads(row, event),
{
}

/// A row has the columns of an admitted message.
pub open spec fn holds_inbound(row: InboundRow, stored: StoredInboundAdmission) -> bool {
    &&& row.message_id == stored.message_id
    &&& row.session_id == stored.session_id
    &&& row.client_id == stored.client_id
    &&& row.account_id == stored.account_id
    &&& row.terminal_id == stored.terminal_id
    &&& row.message_type == stored.message_type
    &&& row.schema_version == stored.schema_version
    &&& row.sequence == stored.sequence
    &&& row.correlation_id == stored.correlation_id
    &&& row.causation_id == stored.causation_id
    &&& hold_json(row.envelope, stored.envelope@)
    &&& holds_count(row.raw_payload_length, stored.raw_payload_length)
    &&& row.received_at == stored.received_at
    &&& row.status@ == stored.status.name()
    &&& row.lease_owner == stored.lease_owner
    &&& row.lease_expires_at == stored.lease_expires_at
    &&& row.revision == stored.revision
    &&& row.finished_at == stored.finished_at
    &&& row.last_error == stored.last_error
    &&& row.created_at == stored.created_at
    &&& row.updated_at == stored.updated_at
}

/// An admitted message is read back as it was written.
pub proof fn admitted_messages_are_read_back(stored: StoredInboundAdmission, row: InboundRow)
    requires
        json::is_canonical_text(stored.envelope@),
        holds_inbound(row, stored),
    ensures
        inbound_durability::inbound_row_fault(row) is None,
        inbound_durability::inbound_reads(row, stored),
{
    inbound_durability::durable_status_names_differ(stored.status, stored.status);
}

/// A refused message is read back as it was written.
pub proof fn refused_messages_are_read_back(stored: StoredInboundRejection, row: RejectionRow)
    requires
        json::is_canonical_text(stored.envelope@),
        row.sequence == stored.sequence,
        hold_json(row.envelope, stored.envelope@),
        holds_name(row.reason, stored.reason),
    ensures
        inbound_durability::rejection_row_fault(row) is None,
        row.reason.parsed->Ok_0 == stored.reason,
{
}

/// A row has the columns of a session that is resumed.
pub open spec fn holds_resume(row: ResumeRow, stored: StoredSessionResumeAdmission) -> bool {
    &&& row.hello_message_id == stored.hello_message_id
    &&& row.session_id == stored.session_id
    &&& row.client_id == stored.client_id
    &&& row.account_id == stored.account_id
    &&& row.terminal_id == stored.terminal_id
    &&& hold_json(row.cursor, stored.cursor@)
    &&& row.received_at == stored.received_at
    &&& row.status@ == stored.status.name()
    &&& row.lease_owner == stored.lease_owner
    &&& row.lease_expires_at == stored.lease_expires_at
    &&& row.revision == stored.revision
    &&& row.reconciliation_request_id == stored.reconciliation_request_id
    &&& row.finished_at == stored.finished_at
    &&& row.last_error == stored.last_error
    &&& row.created_at == stored.created_at
    &&& row.updated_at == stored.updated_at
}

/// A session that is resumed is read back as it was written.
pub proof fn resumes_are_read_back(stored: StoredSessionResumeAdmission, row: ResumeRow)
    requires
        json::is_canonical_text(stored.cursor@),
        holds_resume(row, stored),
    ensures
        inbound_durability::resume_row_fault(row) is None,
        inbound_durability::resume_reads(row, stored),
{
    inbound_durability::durable_status_names_differ(stored.status, stored.status);
}

/// A row has the columns of a piece of work.
pub open spec fn holds_work(row: WorkRow, work: StoredOutboundDeliveryWork) -> bool {
    &&& row.work_id == work.work_id
    &&& outbound_work::row_subject(row) == Some(work.subject@)
    &&& row.generation == work.generation
    &&& row.message_id@ == work.message_id@
    &&& row.status@ == work.status.name()
    &&& row.delivery_attempts == work.delivery_attempts
    &&& row.next_attempt_at == work.next_attempt_at
    &&& text::optional_text(row.lease_owner) == text::optional_text(work.lease_owner)
    &&& row.lease_expires_at == work.lease_expires_at
    &&& row.revision == work.revision
    &&& match (row.last_outcome, work.last_outcome) {
        (Some(column), Some(outcome)) => column@ == outcome.name(),
        (None, None) => true,
        _ => false,
    }
    &&& text::optional_text(row.last_error) == text::optional_text(work.last_error)
    &&& row.completed_at == work.completed_at
    &&& row.created_at == work.created_at
    &&& row.updated_at == work.updated_at
}

/// A piece of work is read back as it was written.
pub proof fn work_is_read_back(work: StoredOutboundDeliveryWork, row: WorkRow)
    requires
        work.message_id@ == outbound_work::message_name(work.subject@, work.generation),
        holds_work(row, work),
    ensures
        outbound_work::work_row_fault(row) is None,
        outbound_work::read_work(row) == work@,
{
    outbound_work::work_status_names_differ(work.status, work.status);
    if let Some(outcome) = work.last_outcome {
        outbound_work::work_outcome_names_differ(outcome, outcome);
    }
}

/// A capacity is read back as it was recorded.
pub proof fn capacities_are_read_back(
    entity: Seq<char>,
    stored: StoredRiskCapacitySnapshot,
    row: RiskCapacityRow,
)
    requires
        json::is_canonical_text(stored.payload@),
        risk_capacity::capacity_fault(stored.capacity, stored.recorded_at) is None,
        row.account_id == stored.capacity.account_id,
        row.strategy_id == stored.capacity.strategy_id,
        row.observed_at == stored.capacity.observed_at,
        hold_json(row.payload, stored.payload@),
        row.recorded_at == stored.recorded_at,
        row.capacity == Ok::<_, String>(stored.capacity),
    ensures
        risk_capacity::capacity_row_fault(entity, row) is None,
{
}

/// An observation is read back as it was kept.
pub proof fn snapshots_are_read_back(kind: SnapshotKind, snapshot: Snapshot, row: SnapshotRow)
    requires
        json::is_canonical_text(snapshot.payload@),
        row.account_id == snapshot.account_id,
        row.id == snapshot.id,
        row.symbol == snapshot.symbol,
        row.observed_at == snapshot.observed_at,
        hold_json(row.payload, snapshot.payload@),
        row.value matches Ok(value) && {
            &&& value.account_id == snapshot.account_id
            &&& value.id == snapshot.id
            &&& value.symbol == snapshot.symbol
            &&& value.observed_at == snapshot.observed_at
        },
    ensures
        snapshots::snapshot_row_fault(kind, row) is None,
{
}

/// A row has the columns of a leg.
pub open spec fn holds_leg(row: LegRow, stored: StoredExecutionLeg) -> bool {
    let definition = stored.leg.definition;
    &&& row.leg_id == definition.leg_id
    &&& row.plan_id == stored.plan_id
    &&& row.symbol@ == definition.symbol@
    &&& row.action@ == definition.action@
    &&& holds_name(row.status, stored.leg.state.status)
    &&& hold_json(row.payload, stored.payload@)
    &&& row.updated_at == stored.updated_at
    &&& row.definition == Ok::<_, String>(definition)
    &&& row.verdict is None
}

/// A leg is read back as it was written.
pub proof fn legs_are_read_back(stored: StoredExecutionLeg, row: LegRow)
    requires
        json::is_canonical_text(stored.payload@),
        stored.updated_at >= 0,
        holds_leg(row, stored),
    ensures
        plans::leg_row_fault(row) is None,
        plans::leg_of_row(row, stored),
{
}

/// A journal is that of a plan.
pub open spec fn is_journal(journal: ExecutionPlanJournal, stored: StoredExecutionPlan) -> bool {
    &&& journal.risk_id == stored.risk_id
    &&& journal.intent_id == stored.intent_id
    &&& journal.definition == stored.plan.definition
    &&& journal.legs@.len() == stored.plan.legs@.len()
    &&& forall|i: int|
        0 <= i < journal.legs@.len() ==> {
            &&& (#[trigger] journal.legs@[i]).definition == stored.plan.legs@[i].definition
            &&& journal.legs@[i].payload is Ok
        }
}

/// A row has the columns of a plan.
pub open spec fn holds_plan(row: PlanRow, stored: StoredExecutionPlan) -> bool {
    let definition = stored.plan.definition;
    &&& row.plan_id == definition.plan_id
    &&& row.risk_id == stored.risk_id
    &&& row.intent_id == stored.intent_id
    &&& row.account_id@ == definition.account_id@
    &&& row.strategy_id@ == definition.strategy_id@
    &&& holds_name(row.status, stored.plan.state.status)
    &&& row.mode@ == definition.mode@
    &&& row.failure_policy@ == definition.failure_policy@
    &&& hold_json(row.payload, stored.payload@)
    &&& row.created_at == stored.created_at
    &&& row.updated_at == stored.updated_at
}

/// A row has the columns of a leg of a plan, as the journal keeps it.
pub open spec fn holds_plan_leg(
    row: LegRow,
    journal: ExecutionPlanJournal,
    stored: StoredExecutionPlan,
    i: int,
) -> bool {
    let payload = journal.legs@[i].payload->Ok_0;
    &&& holds_leg(
        row,
        StoredExecutionLeg {
            plan_id: stored.plan.definition.plan_id,
            leg: stored.plan.legs@[i],
            payload,
            updated_at: row.updated_at,
        },
    )
    &&& json::is_canonical_text(payload@)
    &&& row.updated_at >= stored.created_at
}

/// Rows have the columns of the legs of a plan, one row each, in any order.
pub open spec fn hold_plan_legs(
    rows: Seq<LegRow>,
    journal: ExecutionPlanJournal,
    stored: StoredExecutionPlan,
) -> bool {
    &&& rows.len() == stored.plan.legs@.len()
    &&& plans::row_leg_ids(rows).no_duplicates()
    &&& forall|k: int|
        #![trigger rows[k]]
        0 <= k < rows.len() ==> exists|i: int|
            0 <= i < journal.legs@.len() && #[trigger] holds_plan_leg(
                rows[k],
                journal,
                stored,
                i,
            )
    &&& forall|i: int|
        0 <= i < journal.legs@.len() ==> exists|k: int|
            {
                &&& 0 <= k < rows.len()
                &&& rows[k].leg_id == (#[trigger] journal.legs@[i]).definition.leg_id
                &&& #[trigger] holds_plan_leg(rows[k], journal, stored, i)
            }
}

proof fn leg_rows_are_sound(key: Seq<char>, created_at: i64, rows: Seq<LegRow>)
    requires
        plans::row_leg_ids(rows).no_duplicates(),
        forall|k: int|
            0 <= k < rows.len() ==> plans::leg_row_fault(#[trigger] rows[k]) is None
                && rows[k].updated_at >= created_at,
    ensures
        plans::leg_rows_fault(key, created_at, rows) is None,
    decreases rows.len(),
{
    if rows.len() > 0 {
        let rest = rows.drop_last();
        let ids = plans::row_leg_ids(rows);
        assert(plans::row_leg_ids(rest) =~= ids.drop_last());
        leg_rows_are_sound(key, created_at, rest);
        if plans::row_leg_ids(rest).contains(rows.last().leg_id@) {
            let k = choose|k: int|
                0 <= k < rest.len() && #[trigger] plans::row_leg_ids(rest)[k]
                    == rows.last().leg_id@;
            assert(ids[k] == ids[rows.len() - 1]);
        }
        assert(rows.last() == rows[rows.len() - 1]);
    }
}

/// The row of a leg is where its name is found.
proof fn leg_is_found(
    rows: Seq<LegRow>,
    journal: ExecutionPlanJournal,
    stored: StoredExecutionPlan,
    i: int,
) -> (k: int)
    requires
        hold_plan_legs(rows, journal, stored),
        0 <= i < journal.legs@.len(),
    ensures
        k == text::first_index(
            plans::row_leg_ids(rows),
            journal.legs@[i].definition.leg_id@,
        ),
        0 <= k < rows.len(),
        holds_plan_leg(rows[k], journal, stored, i),
{
    let ids = plans::row_leg_ids(rows);
    let id = journal.legs@[i].definition.leg_id;
    let k = choose|k: int|
        {
            &&& 0 <= k < rows.len()
            &&& rows[k].leg_id == id
            &&& #[trigger] holds_plan_leg(rows[k], journal, stored, i)
        };
    assert(ids[k] == id@);
    text::first_index_is(ids, id@, k);
    k
}

proof fn journal_legs_are_found(
    key: Seq<char>,
    rows: Seq<LegRow>,
    journal: ExecutionPlanJournal,
    stored: StoredExecutionPlan,
    n: nat,
)
    requires
        is_journal(journal, stored),
        hold_plan_legs(rows, journal, stored),
        plans::journal_leg_ids(journal.legs@).no_duplicates(),
        n <= journal.legs@.len(),
    ensures
        plans::journal_legs_fault(key, rows, journal.legs@, n) is None,
    decreases n,
{
    if n > 0 {
        let i = n - 1;
        journal_legs_are_found(key, rows, journal, stored, i as nat);
        let k = leg_is_found(rows, journal, stored, i);
        let ids = plans::journal_leg_ids(journal.legs@);
        assert(!ids.take(i).contains(ids[i]));
        assert(journal.legs@[i].payload is Ok);
    }
}

/// A plan is read back as it was written, in whatever order its legs come.
pub proof fn plans_are_read_back(
    stored: StoredExecutionPlan,
    row: PlanRow,
    journal: ExecutionPlanJournal,
    rows: Seq<LegRow>,
)
    requires
        json::is_canonical_text(stored.payload@),
        0 <= stored.created_at <= stored.updated_at,
        plans::journal_leg_ids(journal.legs@).no_duplicates(),
        text::texts(stored.plan.state.filled_legs@) == plans::filled_ids(stored.plan.legs@),
        text::texts(stored.plan.state.failed_legs@) == plans::failed_ids(stored.plan.legs@),
        is_journal(journal, stored),
        holds_plan(row, stored),
        hold_plan_legs(rows, journal, stored),
    ensures
        plans::plan_row_fault(row, Ok(journal), rows) is None,
        plans::plan_of_rows(row, journal, rows, stored),
{
    assert forall|k: int| 0 <= k < rows.len() implies plans::leg_row_fault(
        #[trigger] rows[k],
    ) is None && rows[k].updated_at >= stored.created_at by {
        let i = choose|i: int|
            0 <= i < journal.legs@.len() && #[trigger] holds_plan_leg(
                rows[k],
                journal,
                stored,
                i,
            );
        legs_are_read_back(
            StoredExecutionLeg {
                plan_id: stored.plan.definition.plan_id,
                leg: stored.plan.legs@[i],
                payload: journal.legs@[i].payload->Ok_0,
                updated_at: rows[k].updated_at,
            },
            rows[k],
        );
    }
    leg_rows_are_sound(row.plan_id@, row.created_at, rows);
    journal_legs_are_found(row.plan_id@, rows, journal, stored, journal.legs@.len());
    assert forall|i: int| 0 <= i < journal.legs@.len() implies (#[trigger] stored.plan.legs@[i])
        == plans::row_leg(
        rows[text::first_index(
            plans::row_leg_ids(rows),
            journal.legs@[i].definition.leg_id@,
        ) as int],
    ) by {
        let k = leg_is_found(rows, journal, stored, i);
    }
}

/// The run that a request opens.
pub open spec fn requested(
    new_run: NewReconciliationRun,
    payload: CanonicalJson,
) -> StoredReconciliationRun {
    StoredReconciliationRun {
        request: new_run.request,
        requested_at: new_run.requested_at,
        status: ReconciliationRunStatus::Requested,
        result: None,
        result_evaluation: None,
        completeness: None,
        manual_evidence: None,
        manual_evaluation: None,
        request_event: StoredCoreEvent { metadata: new_run.event_metadata, payload },
        result_event: None,
        created_at: new_run.event_metadata.created_at,
        updated_at: new_run.event_metadata.created_at,
    }
}

/// The result of a run is one that the run could have been given.
pub open spec fn result_stands(run: StoredReconciliationRun) -> bool {
    let result = run.result->0;
    let evaluation = run.result_evaluation->0;
    let event = run.result_event->0;
    run.result is Some ==> {
        &&& reconciliation::answers(result, run.request)
        &&& reconciliation::result_sets_fault(result, run.request.command_ids) is None
        &&& reconciliation::evaluation_fault(
            evaluation,
            run.request,
            Some(result.observed_at),
        ) is None
        &&& reconciliation::completeness_fault(run.completeness->0, run.request) is None
        &&& reconciliation::link_fault(result, evaluation) is None
        &&& reconciliation::metadata_fits(event.metadata, reconciliation::result_subject(result))
    }
}

/// A person was asked to look at a run for a reason that may be given.
pub open spec fn manual_stands(run: StoredReconciliationRun) -> bool {
    let observed_at = reconciliation::result_time(run.result);
    run.manual_evidence is Some ==> {
        &&& reconciliation_rows::manual_state(
            run.request,
            run.requested_at,
            observed_at,
            run.result_evaluation,
            run.manual_evidence->0,
            run.manual_evaluation->0,
            run.status,
        )
        &&& reconciliation::evaluation_fault(
            run.manual_evaluation->0,
            run.request,
            observed_at,
        ) is None
    }
}

/// A run is one that its request, its result and its escalation could have led
/// to.
pub open spec fn run_stands(run: StoredReconciliationRun) -> bool {
    &&& reconciliation::request_fault(run.request, run.requested_at) is None
    &&& reconciliation::metadata_fits(
        run.request_event.metadata,
        reconciliation::request_subject(run.request, run.requested_at),
    )
    &&& reconciliation_rows::run_holds(run)
    &&& result_stands(run)
    &&& manual_stands(run)
}

/// A request opens a run that stands.
pub proof fn requested_runs_stand(new_run: NewReconciliationRun, payload: CanonicalJson)
    requires
        reconciliation::new_run_fault(new_run) is None,
    ensures
        run_stands(requested(new_run, payload)),
{
}

/// A run that is given a result stands.
pub proof fn committed_runs_stand(
    run: StoredReconciliationRun,
    new_result: NewReconciliationResult,
)
    requires
        run_stands(run),
        run.result is None,
        reconciliation::commit_fault(Some(run), new_result) is None,
    ensures
        run_stands(reconciliation::committed(run, new_result)),
{
    reconciliation_rows::commit_keeps_runs(run, new_result);
}

/// A run that is handed over to a person stands.
pub proof fn escalated_runs_stand(
    run: StoredReconciliationRun,
    escalation: NewManualReconciliationEscalation,
)
    requires
        run_stands(run),
        run.manual_evidence is None,
        reconciliation::escalate_fault(Some(run), escalation) is None,
    ensures
        run_stands(reconciliation::escalated(run, escalation)),
{
    reconciliation_rows::escalation_keeps_runs(run, escalation);
}

/// Optional columns hold a JSON text with its digest, from which the domain
/// reads a value.
pub open spec fn hold_optional<T>(columns: OptionalJson<T>, value: Option<T>) -> bool {
    match value {
        Some(value) => {
            &&& columns.text matches Some(text) && json::is_canonical_text(text@)
            &&& columns.digest matches Some(digest) && digest@ == json::text_digest(
                columns.text->0@,
            )
            &&& columns.decoded == Ok::<T, String>(value)
        },
        None => columns.text is None && columns.digest is None,
    }
}

/// A row has the columns of the request of a run.
pub open spec fn holds_request(row: ReconciliationRunRow, run: StoredReconciliationRun) -> bool {
    let request = run.request;
    &&& row.request_id == request.request_id
    &&& row.account_id@ == request.account_id@
    &&& text::optional_text(row.terminal_id) == text::optional_text(request.terminal_id)
    &&& text::optional_text(row.client_id) == text::optional_text(request.client_id)
    &&& row.reason@ == request.reason.name()
    &&& row.scope@ == reconciliation::scope_text(request)
    &&& text::optional_text(row.command_ids_json) == reconciliation::command_list(request)
    &&& match reconciliation::command_list(request) {
        Some(ids) => {
            &&& json::is_canonical_text(ids)
            &&& text::optional_text(row.command_ids_hash) == Some(json::text_digest(ids))
        },
        None => row.command_ids_hash is None,
    }
    &&& row.since_server_time == request.since_server_time
    &&& row.requested_at == run.requested_at
    &&& hold_json(row.request_payload, run.request_event.payload@)
    &&& row.request == Ok::<_, String>(request)
    &&& row.request_event == Some(run.request_event)
}

/// A row has the columns of a run.
pub open spec fn holds_run(row: ReconciliationRunRow, run: StoredReconciliationRun) -> bool {
    &&& holds_request(row, run)
    &&& row.status@ == run.status.name()
    &&& row.has_result_event_id == run.result_event is Some
    &&& row.result_event == run.result_event
    &&& row.result_observed_at == reconciliation::result_time(run.result)
    &&& hold_optional(row.result, run.result)
    &&& run.result_event matches Some(event) ==> text::optional_text(row.result.text) == Some(
        event.payload@,
    )
    &&& hold_optional(row.result_evaluation, run.result_evaluation)
    &&& hold_optional(row.completeness, run.completeness)
    &&& run.completeness matches Some(completeness) ==> {
        &&& row.symbol_metadata_complete == reconciliation_rows::flag_column(
            completeness.symbol_metadata_complete,
        )
        &&& row.command_scope_complete == reconciliation_rows::flag_column(
            completeness.command_scope_complete,
        )
    }
    &&& hold_optional(row.manual_evidence, run.manual_evidence)
    &&& hold_optional(row.manual_evaluation, run.manual_evaluation)
    &&& row.created_at == run.created_at
    &&& row.updated_at == run.updated_at
}

/// A run that stands is read back as it was written.
pub proof fn runs_are_read_back(run: StoredReconciliationRun, row: ReconciliationRunRow)
    requires
        json::is_canonical_text(run.request_event.payload@),
        run_stands(run),
        holds_run(row, run),
    ensures
        reconciliation_rows::run_row_fault(row) is None,
        reconciliation_rows::run_of_row(row) == run,
{
    let status = reconciliation_rows::row_status(row);
    reconciliation::run_status_names_differ(status, run.status);
    assert(reconciliation_rows::run_request_fault(row) is None);
    assert(reconciliation_rows::run_result_fault(row) is None);
    assert(reconciliation_rows::run_manual_fault(row) is None);
}

}
