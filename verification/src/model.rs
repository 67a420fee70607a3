//! Records that the store keeps, and the requests that change them.

use vstd::prelude::*;

use crate::domain::{
    AccountId, CausationId, ClientId, ClockSyncStatus, CommandDeliveryAttemptStatus, CommandId,
    CorrelationId, IdempotencyKey, IntentId, LegId, MessageId, PlanId, RequestId, SessionId,
    SessionStatus, StrategyId, TerminalId, TransportAckStatus, WireInboxStatus, WireOutboxStatus,
};
use crate::json::CanonicalJson;
use crate::text;
use crate::text::{copy_optional, same_text};

verus! {

/// The only scope in which circuit-breaker states are kept.
pub const GLOBAL_CIRCUIT_BREAKER_SCOPE: &'static str = "GLOBAL";

pub const DELIVERY_ERROR_COMMAND_EXPIRED: &'static str = "COMMAND_EXPIRED";

pub const DELIVERY_ERROR_SESSION_UNAVAILABLE: &'static str = "SESSION_UNAVAILABLE";

pub const DELIVERY_ERROR_CLOCK_UNHEALTHY: &'static str = "CLOCK_UNHEALTHY";

/// What the error of an outbox message begins with when a peer refused it.
pub const TRANSPORT_ACK_REJECTED_PREFIX: &'static str = "TRANSPORT_ACK_REJECTED:";

/// What came of a write: the record is new, or it was there already.
#[derive(Debug, PartialEq, Eq)]
pub enum WriteOutcome<T> {
    Inserted(T),
    Duplicate(T),
}

impl<T> WriteOutcome<T> {
    /// The record that is stored now.
    pub open spec fn stored(self) -> T {
        match self {
            WriteOutcome::Inserted(record) => record,
            WriteOutcome::Duplicate(record) => record,
        }
    }

    pub fn record(&self) -> (r: &T)
        ensures
            *r == self.stored(),
    {
        match self {
            WriteOutcome::Inserted(record) => record,
            WriteOutcome::Duplicate(record) => record,
        }
    }

    pub fn into_record(self) -> (r: T)
        ensures
            r == self.stored(),
    {
        match self {
            WriteOutcome::Inserted(record) => record,
            WriteOutcome::Duplicate(record) => record,
        }
    }

    pub fn was_inserted(&self) -> (r: bool)
        ensures
            r == (self is Inserted),
    {
        match self {
            WriteOutcome::Inserted(_) => true,
            WriteOutcome::Duplicate(_) => false,
        }
    }
}

/// A circuit-breaker state to be written behind the head that its writer saw.
#[derive(Debug, PartialEq, Eq)]
pub struct NewCircuitBreakerSnapshot {
    pub expected_head_revision: Option<u64>,
    pub schema_version: String,
    pub status: String,
    pub recovery_epoch: u64,
    pub updated_at: i64,
    pub payload: CanonicalJson,
}

/// One link of the chain of circuit-breaker states.
#[derive(Debug, PartialEq, Eq)]
pub struct StoredCircuitBreakerSnapshot {
    pub scope: String,
    pub state_revision: u64,
    pub schema_version: String,
    pub status: String,
    pub recovery_epoch: u64,
    pub updated_at: i64,
    pub payload: CanonicalJson,
}

/// What recovery needs of the newest circuit-breaker state.
#[derive(Debug, PartialEq, Eq)]
pub struct CircuitBreakerHeadMetadata {
    pub state_revision: u64,
    pub recovery_epoch: u64,
}

/// Everything about a core event but its payload.
#[derive(Debug, PartialEq, Eq)]
pub struct CoreEventMetadata {
    pub event_id: String,
    pub event_type: String,
    pub aggregate_type: String,
    pub aggregate_id: String,
    pub message_id: Option<MessageId>,
    pub schema_version: String,
    pub correlation_id: Option<CorrelationId>,
    pub causation_id: Option<CausationId>,
    pub account_id: Option<AccountId>,
    pub client_id: Option<ClientId>,
    pub terminal_id: Option<TerminalId>,
    pub strategy_id: Option<StrategyId>,
    pub intent_id: Option<IntentId>,
    pub plan_id: Option<PlanId>,
    pub leg_id: Option<LegId>,
    pub command_id: Option<CommandId>,
    pub idempotency_key: Option<IdempotencyKey>,
    pub event_at: i64,
    pub received_at: i64,
    pub created_at: i64,
    pub source: String,
}

/// A core event to be appended.
#[derive(Debug, PartialEq, Eq)]
pub struct NewCoreEvent {
    pub metadata: CoreEventMetadata,
    pub payload: CanonicalJson,
}

/// A core event that was appended.
#[derive(Debug, PartialEq, Eq)]
pub struct StoredCoreEvent {
    pub metadata: CoreEventMetadata,
    pub payload: CanonicalJson,
}

/// A received wire message to be recorded.
#[derive(Debug, PartialEq, Eq)]
pub struct NewWireInbox {
    pub message_id: MessageId,
    pub session_id: Option<SessionId>,
    pub message_type: String,
    pub sequence: Option<u64>,
    pub received_at: i64,
    pub handled_at: Option<i64>,
    pub status: WireInboxStatus,
    /// Canonical form of the complete wire envelope. Only its digest is stored.
    pub wire_message: CanonicalJson,
}

/// A received wire message on record.
#[derive(Debug, PartialEq, Eq)]
pub struct StoredWireInbox {
    pub message_id: MessageId,
    pub session_id: Option<SessionId>,
    pub message_type: String,
    pub sequence: Option<u64>,
    pub received_at: i64,
    pub handled_at: Option<i64>,
    pub status: WireInboxStatus,
    pub payload_hash: String,
}

/// A wire message to be put into the outbox.
#[derive(Debug, PartialEq, Eq)]
pub struct NewWireOutbox {
    pub message_id: MessageId,
    pub session_id: Option<SessionId>,
    pub message_type: String,
    pub sequence: Option<u64>,
    pub command_id: Option<CommandId>,
    pub request_id: Option<RequestId>,
    pub payload: CanonicalJson,
    pub status: WireOutboxStatus,
    pub created_at: i64,
    pub updated_at: i64,
    pub sent_at: Option<i64>,
    pub acked_at: Option<i64>,
    pub last_error: Option<String>,
}

/// A wire message in the outbox.
#[derive(Debug, PartialEq, Eq)]
pub struct StoredWireOutbox {
    pub message_id: MessageId,
    pub session_id: Option<SessionId>,
    pub message_type: String,
    pub sequence: Option<u64>,
    pub command_id: Option<CommandId>,
    pub request_id: Option<RequestId>,
    pub payload: CanonicalJson,
    pub status: WireOutboxStatus,
    pub revision: u64,
    pub created_at: i64,
    pub updated_at: i64,
    pub sent_at: Option<i64>,
    pub acked_at: Option<i64>,
    pub last_error: Option<String>,
}

/// A session that an execution client asks for.
#[derive(Debug, PartialEq, Eq)]
pub struct NewSessionRecord {
    pub session_id: SessionId,
    pub client_id: ClientId,
    pub account_id: AccountId,
    pub terminal_id: Option<TerminalId>,
    pub platform: String,
    pub status: SessionStatus,
    pub capabilities: CanonicalJson,
    pub remote_addr: Option<String>,
    pub connected_at: i64,
    pub last_heartbeat_at: Option<i64>,
    pub last_time_sync_at: Option<i64>,
    pub clock_sync_status: Option<ClockSyncStatus>,
    pub disconnected_at: Option<i64>,
    pub max_inflight_commands: u64,
    pub updated_at: i64,
}

/// A session of an execution client.
#[derive(Debug, PartialEq, Eq)]
pub struct StoredSessionRecord {
    pub session_id: SessionId,
    pub client_id: ClientId,
    pub account_id: AccountId,
    pub terminal_id: Option<TerminalId>,
    pub platform: String,
    pub status: SessionStatus,
    pub capabilities: CanonicalJson,
    pub remote_addr: Option<String>,
    pub connected_at: i64,
    pub last_heartbeat_at: Option<i64>,
    pub last_time_sync_at: Option<i64>,
    pub clock_sync_status: Option<ClockSyncStatus>,
    pub disconnected_at: Option<i64>,
    pub revision: u64,
    pub updated_at: i64,
    pub last_outbound_sequence: u64,
    pub max_inflight_commands: u64,
}

/// What is to be delivered.
#[derive(Debug, PartialEq, Eq)]
pub enum DeliverySubject {
    ExecutionCommand(CommandId),
    ReconciliationRequest(RequestId),
}

impl DeliverySubject {
    /// The command, where the subject is one.
    pub open spec fn command(self) -> Option<Seq<char>> {
        match self {
            DeliverySubject::ExecutionCommand(command_id) => Some(command_id@),
            DeliverySubject::ReconciliationRequest(_) => None,
        }
    }

    /// The reconciliation request, where the subject is one.
    pub open spec fn request(self) -> Option<Seq<char>> {
        match self {
            DeliverySubject::ExecutionCommand(_) => None,
            DeliverySubject::ReconciliationRequest(request_id) => Some(request_id@),
        }
    }

    pub fn command_id(&self) -> (r: Option<&CommandId>)
        ensures
            match r {
                Some(command_id) => self.command() == Some(command_id@) && *self
                    == DeliverySubject::ExecutionCommand(*command_id),
                None => self.command() is None,
            },
    {
        match self {
            DeliverySubject::ExecutionCommand(command_id) => Some(command_id),
            DeliverySubject::ReconciliationRequest(_) => None,
        }
    }

    pub fn request_id(&self) -> (r: Option<&RequestId>)
        ensures
            match r {
                Some(request_id) => self.request() == Some(request_id@) && *self
                    == DeliverySubject::ReconciliationRequest(*request_id),
                None => self.request() is None,
            },
    {
        match self {
            DeliverySubject::ExecutionCommand(_) => None,
            DeliverySubject::ReconciliationRequest(request_id) => Some(request_id),
        }
    }

    /// Whether two subjects are the same.
    pub fn same(&self, other: &DeliverySubject) -> (r: bool)
        ensures
            r == (self.command() == other.command() && self.request() == other.request()),
    {
        match (self, other) {
            (DeliverySubject::ExecutionCommand(a), DeliverySubject::ExecutionCommand(b)) => {
                same_text(a.as_str(), b.as_str())
            },
            (
                DeliverySubject::ReconciliationRequest(a),
                DeliverySubject::ReconciliationRequest(b),
            ) => same_text(a.as_str(), b.as_str()),
            _ => false,
        }
    }

    /// A copy of the command, where the subject is one.
    pub fn command_copy(&self) -> (r: Option<CommandId>)
        ensures
            text::optional_text(r) == self.command(),
    {
        match self {
            DeliverySubject::ExecutionCommand(command_id) => Some(command_id.clone()),
            DeliverySubject::ReconciliationRequest(_) => None,
        }
    }

    /// A copy of the reconciliation request, where the subject is one.
    pub fn request_copy(&self) -> (r: Option<RequestId>)
        ensures
            text::optional_text(r) == self.request(),
    {
        match self {
            DeliverySubject::ExecutionCommand(_) => None,
            DeliverySubject::ReconciliationRequest(request_id) => Some(request_id.clone()),
        }
    }
}

impl Clone for DeliverySubject {
    fn clone(&self) -> (r: Self)
        ensures
            r == *self,
    {
        match self {
            DeliverySubject::ExecutionCommand(id) => DeliverySubject::ExecutionCommand(id.clone()),
            DeliverySubject::ReconciliationRequest(id) => DeliverySubject::ReconciliationRequest(
                id.clone(),
            ),
        }
    }
}

/// Why a delivery was not started.
#[derive(Clone, Copy, Debug, PartialEq, Eq, Structural)]
pub enum DeliveryRejectionKind {
    NoActiveSession,
    AmbiguousRoute,
    StaleSession,
    ClockUnhealthy,
    Backpressure,
    InflightLimit,
    Expired,
    IdentityMismatch,
}

impl DeliveryRejectionKind {
    /// The status under which a delivery that was not started is recorded.
    pub open spec fn status(self) -> CommandDeliveryAttemptStatus {
        match self {
            DeliveryRejectionKind::NoActiveSession
            | DeliveryRejectionKind::AmbiguousRoute
            | DeliveryRejectionKind::StaleSession
            | DeliveryRejectionKind::ClockUnhealthy => CommandDeliveryAttemptStatus::NoActiveSession,
            DeliveryRejectionKind::Backpressure
            | DeliveryRejectionKind::InflightLimit => CommandDeliveryAttemptStatus::Backpressure,
            DeliveryRejectionKind::Expired => CommandDeliveryAttemptStatus::Cancelled,
            DeliveryRejectionKind::IdentityMismatch => CommandDeliveryAttemptStatus::Failed,
        }
    }

    pub fn attempt_status(self) -> (r: CommandDeliveryAttemptStatus)
        ensures
            r == self.status(),
    {
        match self {
            DeliveryRejectionKind::NoActiveSession
            | DeliveryRejectionKind::AmbiguousRoute
            | DeliveryRejectionKind::StaleSession
            | DeliveryRejectionKind::ClockUnhealthy => CommandDeliveryAttemptStatus::NoActiveSession,
            DeliveryRejectionKind::Backpressure
            | DeliveryRejectionKind::InflightLimit => CommandDeliveryAttemptStatus::Backpressure,
            DeliveryRejectionKind::Expired => CommandDeliveryAttemptStatus::Cancelled,
            DeliveryRejectionKind::IdentityMismatch => CommandDeliveryAttemptStatus::Failed,
        }
    }
}

/// An attempt to deliver a subject, to be recorded.
#[derive(Debug, PartialEq, Eq)]
pub struct NewDeliveryAttempt {
    pub attempt_id: String,
    pub subject: DeliverySubject,
    pub session_id: Option<SessionId>,
    pub message_id: Option<MessageId>,
    pub request_payload: Option<CanonicalJson>,
    pub status: CommandDeliveryAttemptStatus,
    pub attempted_at: i64,
    pub acked_at: Option<i64>,
    pub error: Option<String>,
    pub updated_at: i64,
}

/// An attempt to deliver a subject.
#[derive(Debug, PartialEq, Eq)]
pub struct StoredDeliveryAttempt {
    pub attempt_id: String,
    pub subject: DeliverySubject,
    pub session_id: Option<SessionId>,
    pub message_id: Option<MessageId>,
    pub request_payload: Option<CanonicalJson>,
    pub status: CommandDeliveryAttemptStatus,
    pub attempted_at: i64,
    pub acked_at: Option<i64>,
    pub error: Option<String>,
    pub revision: u64,
    pub updated_at: i64,
}

/// The active session of an identity, and the one it took the place of.
#[derive(Debug, PartialEq, Eq)]
pub struct SessionReplacement {
    pub session: StoredSessionRecord,
    pub replaced_session: Option<StoredSessionRecord>,
    pub unconfirmed_attempts: Vec<StoredDeliveryAttempt>,
}

/// A sign of life of a session.
#[derive(Debug, PartialEq, Eq)]
pub struct SessionHeartbeatUpdate {
    pub session_id: SessionId,
    pub expected_revision: u64,
    pub heartbeat_at: i64,
    pub clock_sync_status: ClockSyncStatus,
    pub last_time_sync_at: Option<i64>,
    pub updated_at: i64,
}

/// The end of a session.
#[derive(Debug, PartialEq, Eq)]
pub struct SessionStatusUpdate {
    pub session_id: SessionId,
    pub expected_revision: u64,
    pub changed_at: i64,
    pub delivery_error: String,
}

/// Which session may carry a message.
#[derive(Debug, PartialEq, Eq)]
pub struct SessionRouteQuery {
    pub account_id: AccountId,
    pub client_id: Option<ClientId>,
    pub terminal_id: Option<TerminalId>,
    pub fresh_after: i64,
    pub require_synced_clock: bool,
}

/// The answer to a [`SessionRouteQuery`].
#[derive(Debug, PartialEq, Eq)]
pub enum SessionRouteResolution {
    Ready(StoredSessionRecord),
    NoActiveSession,
    Stale { candidate_count: usize },
    ClockUnhealthy { candidate_count: usize },
    Ambiguous { candidate_count: usize },
}

/// A request for the next sequence number of a session.
#[derive(Debug, PartialEq, Eq)]
pub struct ReserveOutboundSequence {
    pub session_id: SessionId,
    pub expected_revision: u64,
    pub subject: DeliverySubject,
    pub fresh_after: i64,
    pub reserved_at: i64,
}

/// A sequence number that was set aside for one subject.
#[derive(Debug, PartialEq, Eq)]
pub struct OutboundReservation {
    pub session_id: SessionId,
    pub client_id: ClientId,
    pub account_id: AccountId,
    pub terminal_id: Option<TerminalId>,
    pub session_revision: u64,
    pub sequence: u64,
    pub subject: DeliverySubject,
}

/// The answer to a [`ReserveOutboundSequence`].
#[derive(Debug, PartialEq, Eq)]
pub enum SequenceReservation {
    Reserved(OutboundReservation),
    SessionUnavailable,
    ClockUnhealthy,
    Expired,
    IdentityMismatch { field: &'static str },
    InflightLimit { session_id: SessionId, inflight: u64, limit: u64 },
}

/// A message to be sent under a reservation.
#[derive(Debug, PartialEq, Eq)]
pub struct NewReservedDelivery {
    pub reservation: OutboundReservation,
    pub attempt_id: String,
    pub message_id: MessageId,
    pub message_type: String,
    pub envelope: CanonicalJson,
    pub created_at: i64,
}

/// A message in the outbox with the attempt to deliver it.
#[derive(Debug, PartialEq, Eq)]
pub struct StoredOutboundDelivery {
    pub outbox: StoredWireOutbox,
    pub attempt: StoredDeliveryAttempt,
}

/// The answer to a [`ClaimWireOutbox`].
#[derive(Debug, PartialEq, Eq)]
pub enum OutboxClaimOutcome {
    Claimed(StoredOutboundDelivery),
    Expired(StoredOutboundDelivery),
    SessionUnavailable(StoredOutboundDelivery),
    ClockUnhealthy(StoredOutboundDelivery),
}

/// The wish to start writing a message to the wire.
#[derive(Debug, PartialEq, Eq)]
pub struct ClaimWireOutbox {
    pub message_id: MessageId,
    pub expected_outbox_revision: u64,
    pub expected_attempt_revision: u64,
    pub fresh_after: i64,
    pub require_synced_clock: bool,
    pub claimed_at: i64,
}

/// The end of writing a message to the wire.
#[derive(Debug, PartialEq, Eq)]
pub struct CompleteTransportWrite {
    pub message_id: MessageId,
    pub expected_outbox_revision: u64,
    pub expected_attempt_revision: u64,
    pub completed_at: i64,
    pub error: Option<String>,
}

/// A peer's answer to a message.
#[derive(Debug, PartialEq, Eq)]
pub struct TransportAckUpdate {
    pub message_id: MessageId,
    pub session_id: SessionId,
    pub message_type: String,
    pub status: TransportAckStatus,
    pub reason: Option<String>,
    pub acked_at: i64,
}

/// A peer's word that it holds a command.
#[derive(Debug, PartialEq, Eq)]
pub struct CommandReceivedAttemptUpdate {
    pub source_message_id: MessageId,
    pub session_id: SessionId,
    pub command_id: CommandId,
    pub received_at: i64,
}

/// A peer's silence about a command.
#[derive(Debug, PartialEq, Eq)]
pub struct DeliveryAttemptTimeout {
    pub attempt_id: String,
    pub expected_revision: u64,
    pub timed_out_at: i64,
    pub error: String,
}

/// An ended session and the attempts that it leaves in doubt.
#[derive(Debug, PartialEq, Eq)]
pub struct SessionDisconnectOutcome {
    pub session: StoredSessionRecord,
    pub unconfirmed_attempts: Vec<StoredDeliveryAttempt>,
}

/// What was found interrupted at startup.
#[derive(Debug, PartialEq, Eq)]
pub struct DeliveryStartupFenceReport {
    pub sessions_staled: u64,
    pub outboxes_fenced: u64,
    pub attempts_unconfirmed: u64,
    pub attempts_cancelled: u64,
    pub attempts_rejected: u64,
}

impl Clone for StoredCircuitBreakerSnapshot {
    fn clone(&self) -> (r: Self)
        ensures
            r == *self,
    {
        StoredCircuitBreakerSnapshot {
            scope: self.scope.clone(),
            state_revision: self.state_revision,
            schema_version: self.schema_version.clone(),
            status: self.status.clone(),
            recovery_epoch: self.recovery_epoch,
            updated_at: self.updated_at,
            payload: self.payload.clone(),
        }
    }
}

impl Clone for CoreEventMetadata {
    fn clone(&self) -> (r: Self)
        ensures
            r == *self,
    {
        CoreEventMetadata {
            event_id: self.event_id.clone(),
            event_type: self.event_type.clone(),
            aggregate_type: self.aggregate_type.clone(),
            aggregate_id: self.aggregate_id.clone(),
            message_id: copy_optional(&self.message_id),
            schema_version: self.schema_version.clone(),
            correlation_id: copy_optional(&self.correlation_id),
            causation_id: copy_optional(&self.causation_id),
            account_id: copy_optional(&self.account_id),
            client_id: copy_optional(&self.client_id),
            terminal_id: copy_optional(&self.terminal_id),
            strategy_id: copy_optional(&self.strategy_id),
            intent_id: copy_optional(&self.intent_id),
            plan_id: copy_optional(&self.plan_id),
            leg_id: copy_optional(&self.leg_id),
            command_id: copy_optional(&self.command_id),
            idempotency_key: copy_optional(&self.idempotency_key),
            event_at: self.event_at,
            received_at: self.received_at,
            created_at: self.created_at,
            source: self.source.clone(),
        }
    }
}

impl Clone for NewCoreEvent {
    fn clone(&self) -> (r: Self)
        ensures
            r == *self,
    {
        NewCoreEvent {
            metadata: self.metadata.clone(),
            payload: self.payload.clone(),
        }
    }
}

impl Clone for StoredCoreEvent {
    fn clone(&self) -> (r: Self)
        ensures
            r == *self,
    {
        StoredCoreEvent {
            metadata: self.metadata.clone(),
            payload: self.payload.clone(),
        }
    }
}

impl Clone for NewWireOutbox {
    fn clone(&self) -> (r: Self)
        ensures
            r == *self,
    {
        NewWireOutbox {
            message_id: self.message_id.clone(),
            session_id: copy_optional(&self.session_id),
            message_type: self.message_type.clone(),
            sequence: self.sequence,
            command_id: copy_optional(&self.command_id),
            request_id: copy_optional(&self.request_id),
            payload: self.payload.clone(),
            status: self.status,
            created_at: self.created_at,
            updated_at: self.updated_at,
            sent_at: self.sent_at,
            acked_at: self.acked_at,
            last_error: copy_optional(&self.last_error),
        }
    }
}

impl Clone for StoredWireOutbox {
    fn clone(&self) -> (r: Self)
        ensures
            r == *self,
    {
        StoredWireOutbox {
            message_id: self.message_id.clone(),
            session_id: copy_optional(&self.session_id),
            message_type: self.message_type.clone(),
            sequence: self.sequence,
            command_id: copy_optional(&self.command_id),
            request_id: copy_optional(&self.request_id),
            payload: self.payload.clone(),
            status: self.status,
            revision: self.revision,
            created_at: self.created_at,
            updated_at: self.updated_at,
            sent_at: self.sent_at,
            acked_at: self.acked_at,
            last_error: copy_optional(&self.last_error),
        }
    }
}

impl Clone for StoredSessionRecord {
    fn clone(&self) -> (r: Self)
        ensures
            r == *self,
    {
        StoredSessionRecord {
            session_id: self.session_id.clone(),
            client_id: self.client_id.clone(),
            account_id: self.account_id.clone(),
            terminal_id: copy_optional(&self.terminal_id),
            platform: self.platform.clone(),
            status: self.status,
            capabilities: self.capabilities.clone(),
            remote_addr: copy_optional(&self.remote_addr),
            connected_at: self.connected_at,
            last_heartbeat_at: self.last_heartbeat_at,
            last_time_sync_at: self.last_time_sync_at,
            clock_sync_status: copy_optional(&self.clock_sync_status),
            disconnected_at: self.disconnected_at,
            revision: self.revision,
            updated_at: self.updated_at,
            last_outbound_sequence: self.last_outbound_sequence,
            max_inflight_commands: self.max_inflight_commands,
        }
    }
}

impl Clone for StoredDeliveryAttempt {
    fn clone(&self) -> (r: Self)
        ensures
            r == *self,
    {
        StoredDeliveryAttempt {
            attempt_id: self.attempt_id.clone(),
            subject: self.subject.clone(),
            session_id: copy_optional(&self.session_id),
            message_id: copy_optional(&self.message_id),
            request_payload: match &self.request_payload {
                Some(value) => Some(value.clone()),
                None => None,
            },
            status: self.status,
            attempted_at: self.attempted_at,
            acked_at: self.acked_at,
            error: copy_optional(&self.error),
            revision: self.revision,
            updated_at: self.updated_at,
        }
    }
}

impl Clone for StoredOutboundDelivery {
    fn clone(&self) -> (r: Self)
        ensures
            r == *self,
    {
        StoredOutboundDelivery {
            outbox: self.outbox.clone(),
            attempt: self.attempt.clone(),
        }
    }
}

impl vstd::std_specs::convert::FromSpecImpl<NewSessionRecord> for StoredSessionRecord {
    open spec fn obeys_from_spec() -> bool {
        true
    }

    open spec fn from_spec(record: NewSessionRecord) -> StoredSessionRecord {
        StoredSessionRecord {
            session_id: record.session_id,
            client_id: record.client_id,
            account_id: record.account_id,
            terminal_id: record.terminal_id,
            platform: record.platform,
            status: record.status,
            capabilities: record.capabilities,
            remote_addr: record.remote_addr,
            connected_at: record.connected_at,
            last_heartbeat_at: record.last_heartbeat_at,
            last_time_sync_at: record.last_time_sync_at,
            clock_sync_status: record.clock_sync_status,
            disconnected_at: record.disconnected_at,
            revision: 0,
            updated_at: record.updated_at,
            last_outbound_sequence: 1,
            max_inflight_commands: record.max_inflight_commands,
        }
    }
}

impl From<NewSessionRecord> for StoredSessionRecord {
    fn from(record: NewSessionRecord) -> (r: Self) {
        StoredSessionRecord {
            session_id: record.session_id,
            client_id: record.client_id,
            account_id: record.account_id,
            terminal_id: record.terminal_id,
            platform: record.platform,
            status: record.status,
            capabilities: record.capabilities,
            remote_addr: record.remote_addr,
            connected_at: record.connected_at,
            last_heartbeat_at: record.last_heartbeat_at,
            last_time_sync_at: record.last_time_sync_at,
            clock_sync_status: record.clock_sync_status,
            disconnected_at: record.disconnected_at,
            revision: 0,
            updated_at: record.updated_at,
            last_outbound_sequence: 1,
            max_inflight_commands: record.max_inflight_commands,
        }
    }
}

impl vstd::std_specs::convert::FromSpecImpl<NewCoreEvent> for StoredCoreEvent {
    open spec fn obeys_from_spec() -> bool {
        true
    }

    open spec fn from_spec(event: NewCoreEvent) -> StoredCoreEvent {
        StoredCoreEvent {
            metadata: event.metadata,
            payload: event.payload,
        }
    }
}

impl From<NewCoreEvent> for StoredCoreEvent {
    fn from(event: NewCoreEvent) -> (r: Self) {
        StoredCoreEvent {
            metadata: event.metadata,
            payload: event.payload,
        }
    }
}

impl vstd::std_specs::convert::FromSpecImpl<NewWireOutbox> for StoredWireOutbox {
    open spec fn obeys_from_spec() -> bool {
        true
    }

    open spec fn from_spec(message: NewWireOutbox) -> StoredWireOutbox {
        StoredWireOutbox {
            message_id: message.message_id,
            session_id: message.session_id,
            message_type: message.message_type,
            sequence: message.sequence,
            command_id: message.command_id,
            request_id: message.request_id,
            payload: message.payload,
            status: message.status,
            revision: 0,
            created_at: message.created_at,
            updated_at: message.updated_at,
            sent_at: message.sent_at,
            acked_at: message.acked_at,
            last_error: message.last_error,
        }
    }
}

impl From<NewWireOutbox> for StoredWireOutbox {
    fn from(message: NewWireOutbox) -> (r: Self) {
        StoredWireOutbox {
            message_id: message.message_id,
            session_id: message.session_id,
            message_type: message.message_type,
            sequence: message.sequence,
            command_id: message.command_id,
            request_id: message.request_id,
            payload: message.payload,
            status: message.status,
            revision: 0,
            created_at: message.created_at,
            updated_at: message.updated_at,
            sent_at: message.sent_at,
            acked_at: message.acked_at,
            last_error: message.last_error,
        }
    }
}

/// A delivery is refused for want of a session, of room, of time, or because it
/// is not the one that was meant, and its attempt ends accordingly.
pub proof fn refusals_end_attempts(kind: DeliveryRejectionKind)
    ensures
        kind.status() is NoActiveSession <==> kind is NoActiveSession || kind is AmbiguousRoute
            || kind is StaleSession || kind is ClockUnhealthy,
        kind.status() is Backpressure <==> kind is Backpressure || kind is InflightLimit,
        kind.status() is Cancelled <==> kind is Expired,
        kind.status() is Failed <==> kind is IdentityMismatch,
{
}

/// What is delivered is a command or a request, and never both.
pub proof fn deliveries_have_one_subject(subject: DeliverySubject)
    ensures
        subject matches DeliverySubject::ExecutionCommand(id) ==> subject.command() == Some(id@)
            && subject.request() is None,
        subject matches DeliverySubject::ReconciliationRequest(id) ==> subject.request() == Some(
            id@,
        ) && subject.command() is None,
{
}

/// Whether a record was new or known, it is the one that is stored.
pub proof fn outcomes_hold_the_stored_record<T>(record: T)
    ensures
        WriteOutcome::Inserted(record).stored() == record,
        WriteOutcome::Duplicate(record).stored() == record,
{
}

}
