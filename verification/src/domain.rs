//! The vocabulary of the trading domain, as far as the store reads it.
//!
//! An identifier is a text. A status that the store only compares or carries
//! along is the text under which it is stored; one that the store decides on is
//! an enumeration.

use vstd::prelude::*;

use crate::text;
use crate::text::same_text;

verus! {

pub type AccountId = String;

pub type BrokerOrderId = String;

pub type CausationId = String;

pub type ClientId = String;

pub type CommandId = String;

pub type CorrelationId = String;

pub type DecisionId = String;

pub type ExecutionId = String;

pub type IdempotencyKey = String;

pub type IntentId = String;

pub type LegId = String;

pub type MessageId = String;

pub type PlanId = String;

pub type PositionId = String;

pub type RequestId = String;

pub type RiskId = String;

pub type SessionId = String;

pub type StrategyId = String;

pub type SymbolCode = String;

pub type TerminalId = String;

/// The state of an execution client's clock, as stored.
pub type ClockSyncStatus = String;

/// Why a message is refused, by its code.
pub type ErrorCode = String;

/// The topic of an event of the event stream, by its name.
pub type EventStreamTopic = String;

/// The state of a received wire message, as stored.
pub type WireInboxStatus = String;

/// The clock state in which a client may be sent commands.
pub const CLOCK_SYNCED: &'static str = "SYNCED";

/// Whether a client counts as connected.
#[derive(Clone, Copy, Debug, PartialEq, Eq, Structural)]
pub enum SessionStatus {
    Active,
    Stale,
    Disconnected,
}

/// How far one attempt to deliver a message got.
#[derive(Clone, Copy, Debug, PartialEq, Eq, Structural)]
pub enum CommandDeliveryAttemptStatus {
    Pending,
    Sent,
    Acked,
    Unconfirmed,
    NoActiveSession,
    Backpressure,
    Failed,
    Cancelled,
}

/// How far a message in the outbox got.
#[derive(Clone, Copy, Debug, PartialEq, Eq, Structural)]
pub enum WireOutboxStatus {
    Pending,
    WriteStarted,
    Sent,
    Acked,
    Failed,
    Cancelled,
}

/// How a peer answered a message at the transport level.
#[derive(Clone, Copy, Debug, PartialEq, Eq, Structural)]
pub enum TransportAckStatus {
    Accepted,
    Duplicate,
    Rejected,
}

impl SessionStatus {
    /// The text under which the status is stored.
    pub open spec fn name(self) -> Seq<char> {
        match self {
            SessionStatus::Active => "ACTIVE"@,
            SessionStatus::Stale => "STALE"@,
            SessionStatus::Disconnected => "DISCONNECTED"@,
        }
    }

    pub fn as_str(self) -> (r: &'static str)
        ensures
            r@ == self.name(),
    {
        match self {
            SessionStatus::Active => "ACTIVE",
            SessionStatus::Stale => "STALE",
            SessionStatus::Disconnected => "DISCONNECTED",
        }
    }

    /// The status that is stored under a text.
    pub fn parse(value: &str) -> (r: Option<SessionStatus>)
        ensures
            r matches Some(status) ==> status.name() == value@,
            r is None ==> forall|status: SessionStatus| #[trigger] status.name() != value@,
    {
        if same_text(value, "ACTIVE") {
            Some(SessionStatus::Active)
        } else if same_text(value, "STALE") {
            Some(SessionStatus::Stale)
        } else if same_text(value, "DISCONNECTED") {
            Some(SessionStatus::Disconnected)
        } else {
            None
        }
    }
}

impl CommandDeliveryAttemptStatus {
    /// The text under which the status is stored.
    pub open spec fn name(self) -> Seq<char> {
        match self {
            CommandDeliveryAttemptStatus::Pending => "PENDING"@,
            CommandDeliveryAttemptStatus::Sent => "SENT"@,
            CommandDeliveryAttemptStatus::Acked => "ACKED"@,
            CommandDeliveryAttemptStatus::Unconfirmed => "UNCONFIRMED"@,
            CommandDeliveryAttemptStatus::NoActiveSession => "NO_ACTIVE_SESSION"@,
            CommandDeliveryAttemptStatus::Backpressure => "BACKPRESSURE"@,
            CommandDeliveryAttemptStatus::Failed => "FAILED"@,
            CommandDeliveryAttemptStatus::Cancelled => "CANCELLED"@,
        }
    }

    pub fn as_str(self) -> (r: &'static str)
        ensures
            r@ == self.name(),
    {
        match self {
            CommandDeliveryAttemptStatus::Pending => "PENDING",
            CommandDeliveryAttemptStatus::Sent => "SENT",
            CommandDeliveryAttemptStatus::Acked => "ACKED",
            CommandDeliveryAttemptStatus::Unconfirmed => "UNCONFIRMED",
            CommandDeliveryAttemptStatus::NoActiveSession => "NO_ACTIVE_SESSION",
            CommandDeliveryAttemptStatus::Backpressure => "BACKPRESSURE",
            CommandDeliveryAttemptStatus::Failed => "FAILED",
            CommandDeliveryAttemptStatus::Cancelled => "CANCELLED",
        }
    }

    /// The status that is stored under a text.
    pub fn parse(value: &str) -> (r: Option<CommandDeliveryAttemptStatus>)
        ensures
            r matches Some(status) ==> status.name() == value@,
            r is None ==> forall|status: CommandDeliveryAttemptStatus|
                #[trigger] status.name() != value@,
    {
        if same_text(value, "PENDING") {
            Some(CommandDeliveryAttemptStatus::Pending)
        } else if same_text(value, "SENT") {
            Some(CommandDeliveryAttemptStatus::Sent)
        } else if same_text(value, "ACKED") {
            Some(CommandDeliveryAttemptStatus::Acked)
        } else if same_text(value, "UNCONFIRMED") {
            Some(CommandDeliveryAttemptStatus::Unconfirmed)
        } else if same_text(value, "NO_ACTIVE_SESSION") {
            Some(CommandDeliveryAttemptStatus::NoActiveSession)
        } else if same_text(value, "BACKPRESSURE") {
            Some(CommandDeliveryAttemptStatus::Backpressure)
        } else if same_text(value, "FAILED") {
            Some(CommandDeliveryAttemptStatus::Failed)
        } else if same_text(value, "CANCELLED") {
            Some(CommandDeliveryAttemptStatus::Cancelled)
        } else {
            None
        }
    }
}

impl WireOutboxStatus {
    /// The text under which the status is stored.
    pub open spec fn name(self) -> Seq<char> {
        match self {
            WireOutboxStatus::Pending => "PENDING"@,
            WireOutboxStatus::WriteStarted => "WRITE_STARTED"@,
            WireOutboxStatus::Sent => "SENT"@,
            WireOutboxStatus::Acked => "ACKED"@,
            WireOutboxStatus::Failed => "FAILED"@,
            WireOutboxStatus::Cancelled => "CANCELLED"@,
        }
    }

    pub fn as_str(self) -> (r: &'static str)
        ensures
            r@ == self.name(),
    {
        match self {
            WireOutboxStatus::Pending => "PENDING",
            WireOutboxStatus::WriteStarted => "WRITE_STARTED",
            WireOutboxStatus::Sent => "SENT",
            WireOutboxStatus::Acked => "ACKED",
            WireOutboxStatus::Failed => "FAILED",
            WireOutboxStatus::Cancelled => "CANCELLED",
        }
    }

    /// The status that is stored under a text.
    pub fn parse(value: &str) -> (r: Option<WireOutboxStatus>)
        ensures
            r matches Some(status) ==> status.name() == value@,
            r is None ==> forall|status: WireOutboxStatus| #[trigger] status.name() != value@,
    {
        if same_text(value, "PENDING") {
            Some(WireOutboxStatus::Pending)
        } else if same_text(value, "WRITE_STARTED") {
            Some(WireOutboxStatus::WriteStarted)
        } else if same_text(value, "SENT") {
            Some(WireOutboxStatus::Sent)
        } else if same_text(value, "ACKED") {
            Some(WireOutboxStatus::Acked)
        } else if same_text(value, "FAILED") {
            Some(WireOutboxStatus::Failed)
        } else if same_text(value, "CANCELLED") {
            Some(WireOutboxStatus::Cancelled)
        } else {
            None
        }
    }
}

/// Whether a clock state is the one in which commands may be sent.
pub open spec fn clock_synced(status: Option<ClockSyncStatus>) -> bool {
    text::optional_text(status) == Some(CLOCK_SYNCED@)
}

/// Whether a clock state is the one in which commands may be sent.
pub fn is_clock_synced(status: &Option<ClockSyncStatus>) -> (r: bool)
    ensures
        r == clock_synced(*status),
{
    text::optional_is(status, CLOCK_SYNCED)
}

/// No two states of a session are stored under one text.
pub proof fn session_status_names_differ(a: SessionStatus, b: SessionStatus)
    ensures
        a.name() == b.name() ==> a == b,
{
    reveal_strlit("ACTIVE");
    reveal_strlit("STALE");
    reveal_strlit("DISCONNECTED");
    assert("ACTIVE"@.len() == 6);
    assert("STALE"@.len() == 5);
    assert("DISCONNECTED"@.len() == 12);
}

/// No two states of a delivery attempt are stored under one text.
pub proof fn attempt_status_names_differ(a: CommandDeliveryAttemptStatus, b: CommandDeliveryAttemptStatus)
    ensures
        a.name() == b.name() ==> a == b,
{
    reveal_strlit("PENDING");
    reveal_strlit("SENT");
    reveal_strlit("ACKED");
    reveal_strlit("UNCONFIRMED");
    reveal_strlit("NO_ACTIVE_SESSION");
    reveal_strlit("BACKPRESSURE");
    reveal_strlit("FAILED");
    reveal_strlit("CANCELLED");
    assert("PENDING"@.len() == 7);
    assert("SENT"@.len() == 4);
    assert("ACKED"@.len() == 5);
    assert("UNCONFIRMED"@.len() == 11);
    assert("NO_ACTIVE_SESSION"@.len() == 17);
    assert("BACKPRESSURE"@.len() == 12);
    assert("FAILED"@.len() == 6);
    assert("CANCELLED"@.len() == 9);
}

/// No two states of an outgoing message are stored under one text.
pub proof fn outbox_status_names_differ(a: WireOutboxStatus, b: WireOutboxStatus)
    ensures
        a.name() == b.name() ==> a == b,
{
    reveal_strlit("PENDING");
    reveal_strlit("WRITE_STARTED");
    reveal_strlit("SENT");
    reveal_strlit("ACKED");
    reveal_strlit("FAILED");
    reveal_strlit("CANCELLED");
    assert("PENDING"@.len() == 7);
    assert("WRITE_STARTED"@.len() == 13);
    assert("SENT"@.len() == 4);
    assert("ACKED"@.len() == 5);
    assert("FAILED"@.len() == 6);
    assert("CANCELLED"@.len() == 9);
}

/// A clock is in step only if its status says so.
pub proof fn only_synced_clocks_are_in_step(status: Option<ClockSyncStatus>)
    ensures
        clock_synced(status) <==> status is Some && (status->0)@ == "SYNCED"@,
{
}

/// The texts under which sessions, attempts and messages are stored.
pub proof fn statuses_are_stored_by_name()
    ensures
        SessionStatus::Active.name() == "ACTIVE"@,
        SessionStatus::Stale.name() == "STALE"@,
        SessionStatus::Disconnected.name() == "DISCONNECTED"@,
        CommandDeliveryAttemptStatus::Pending.name() == "PENDING"@,
        CommandDeliveryAttemptStatus::Sent.name() == "SENT"@,
        CommandDeliveryAttemptStatus::Acked.name() == "ACKED"@,
        CommandDeliveryAttemptStatus::Unconfirmed.name() == "UNCONFIRMED"@,
        CommandDeliveryAttemptStatus::NoActiveSession.name() == "NO_ACTIVE_SESSION"@,
        CommandDeliveryAttemptStatus::Backpressure.name() == "BACKPRESSURE"@,
        CommandDeliveryAttemptStatus::Failed.name() == "FAILED"@,
        CommandDeliveryAttemptStatus::Cancelled.name() == "CANCELLED"@,
        WireOutboxStatus::Pending.name() == "PENDING"@,
        WireOutboxStatus::WriteStarted.name() == "WRITE_STARTED"@,
        WireOutboxStatus::Sent.name() == "SENT"@,
        WireOutboxStatus::Acked.name() == "ACKED"@,
        WireOutboxStatus::Failed.name() == "FAILED"@,
        WireOutboxStatus::Cancelled.name() == "CANCELLED"@,
{
}

}
