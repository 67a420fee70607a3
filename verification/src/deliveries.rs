//! The life of an outbound message: claimed, written to the wire, answered by
//! the peer, cancelled, or left in doubt.
//!
//! Each function takes the records as they stand and says what becomes of them.
//! A record that changes counts its revision one further; a record whose
//! revision stays is unchanged.

use vstd::prelude::*;
use vstd::string::*;

use crate::domain;
use crate::domain::{
    CommandDeliveryAttemptStatus, MessageId, SessionId, SessionStatus, WireOutboxStatus,
};
use crate::domain::{is_clock_synced, TransportAckStatus};
use crate::error;
use crate::error::{Fault, StoreError};
use crate::model::{
    ClaimWireOutbox, CommandReceivedAttemptUpdate, CompleteTransportWrite, DeliveryAttemptTimeout,
    DeliverySubject, OutboxClaimOutcome, StoredDeliveryAttempt, StoredOutboundDelivery,
    StoredSessionRecord, StoredWireOutbox, TransportAckUpdate, DELIVERY_ERROR_CLOCK_UNHEALTHY,
    DELIVERY_ERROR_COMMAND_EXPIRED, DELIVERY_ERROR_SESSION_UNAVAILABLE,
    TRANSPORT_ACK_REJECTED_PREFIX,
};
use crate::numbers;
use crate::numbers::{checked_increment, later_of};
use crate::text;
use crate::text::{copy_optional, is_blank, join2, optional_is, same_text, text_begins_with};

verus! {

/// What changes in an outbox message.
pub struct OutboxStep {
    pub status: WireOutboxStatus,
    pub at: i64,
    pub sent_at: Option<i64>,
    pub acked_at: Option<i64>,
    pub error: Option<Seq<char>>,
}

/// What changes in a delivery attempt.
pub struct AttemptStep {
    pub status: CommandDeliveryAttemptStatus,
    pub at: i64,
    pub acked_at: Option<i64>,
    pub error: Option<Seq<char>>,
}

/// What a request does to a delivery: it is refused, or the message, the
/// attempt, both or neither change.
pub enum DeliveryStep {
    Refused(Fault),
    Moved { outbox: Option<OutboxStep>, attempt: Option<AttemptStep> },
}

/// `after` is `before` after the step.
pub open spec fn outbox_moved(
    before: StoredWireOutbox,
    step: OutboxStep,
    after: StoredWireOutbox,
) -> bool {
    &&& after == StoredWireOutbox {
        status: step.status,
        revision: (before.revision + 1) as u64,
        updated_at: step.at,
        sent_at: step.sent_at,
        acked_at: step.acked_at,
        last_error: after.last_error,
        ..before
    }
    &&& text::optional_text(after.last_error) == step.error
}

/// `after` is `before` after the step.
pub open spec fn attempt_moved(
    before: StoredDeliveryAttempt,
    step: AttemptStep,
    after: StoredDeliveryAttempt,
) -> bool {
    &&& after == StoredDeliveryAttempt {
        status: step.status,
        revision: (before.revision + 1) as u64,
        updated_at: step.at,
        acked_at: step.acked_at,
        error: after.error,
        ..before
    }
    &&& text::optional_text(after.error) == step.error
}

/// Why a step is not made.
pub open spec fn step_fault(
    outbox: StoredWireOutbox,
    attempt: StoredDeliveryAttempt,
    step: DeliveryStep,
) -> Option<Fault> {
    match step {
        DeliveryStep::Refused(fault) => Some(fault),
        DeliveryStep::Moved { outbox: outbox_step, attempt: attempt_step } => if outbox_step is Some
            && numbers::increment_fault(
            "wire_outbox.revision"@,
            outbox.revision as nat,
        ) is Some {
            numbers::increment_fault("wire_outbox.revision"@, outbox.revision as nat)
        } else if attempt_step is Some {
            numbers::increment_fault(
                "command_delivery_attempts.revision"@,
                attempt.revision as nat,
            )
        } else {
            None
        },
    }
}

/// `after` is the delivery after the step.
pub open spec fn step_made(
    outbox: StoredWireOutbox,
    attempt: StoredDeliveryAttempt,
    step: DeliveryStep,
    after: StoredOutboundDelivery,
) -> bool {
    match step {
        DeliveryStep::Refused(_) => false,
        DeliveryStep::Moved { outbox: outbox_step, attempt: attempt_step } => {
            &&& match outbox_step {
                Some(step) => outbox_moved(outbox, step, after.outbox),
                None => after.outbox == outbox,
            }
            &&& match attempt_step {
                Some(step) => attempt_moved(attempt, step, after.attempt),
                None => after.attempt == attempt,
            }
        },
    }
}

/// The outbox message in a new state.
pub fn update_outbox_state(
    current: &StoredWireOutbox,
    status: WireOutboxStatus,
    updated_at: i64,
    sent_at: Option<i64>,
    acked_at: Option<i64>,
    error: Option<String>,
) -> (r: Result<StoredWireOutbox, StoreError>)
    ensures
        error::fault(r) == numbers::increment_fault(
            "wire_outbox.revision"@,
            current.revision as nat,
        ),
        r matches Ok(after) ==> outbox_moved(
            *current,
            OutboxStep {
                status,
                at: updated_at,
                sent_at,
                acked_at,
                error: text::optional_text(error),
            },
            after,
        ),
{
    let revision: u64 = checked_increment("wire_outbox.revision", current.revision)?;
    let mut next = current.clone();
    next.status = status;
    next.revision = revision;
    next.updated_at = updated_at;
    next.sent_at = sent_at;
    next.acked_at = acked_at;
    next.last_error = error;
    Ok(next)
}

/// The delivery attempt in a new state.
pub fn update_attempt_state(
    current: &StoredDeliveryAttempt,
    status: CommandDeliveryAttemptStatus,
    updated_at: i64,
    acked_at: Option<i64>,
    error: Option<String>,
) -> (r: Result<StoredDeliveryAttempt, StoreError>)
    ensures
        error::fault(r) == numbers::increment_fault(
            "command_delivery_attempts.revision"@,
            current.revision as nat,
        ),
        r matches Ok(after) ==> attempt_moved(
            *current,
            AttemptStep { status, at: updated_at, acked_at, error: text::optional_text(error) },
            after,
        ),
{
    let revision: u64 = checked_increment("command_delivery_attempts.revision", current.revision)?;
    let mut next = current.clone();
    next.status = status;
    next.revision = revision;
    next.updated_at = updated_at;
    next.acked_at = acked_at;
    next.error = error;
    Ok(next)
}

/// The fault of a delivery that another write has overtaken.
pub open spec fn stale_outbound_fault(message_id: Seq<char>) -> Fault {
    error::stale_fault("outbound_delivery"@, message_id)
}

pub fn stale_outbound(message_id: &MessageId) -> (e: StoreError)
    ensures
        e@ == stale_outbound_fault(message_id@),
{
    StoreError::stale("outbound_delivery", message_id.as_str())
}

/// The fault of a request that makes no sense for a delivery.
pub open spec fn invalid_outbound_fault(message_id: Seq<char>, reason: Seq<char>) -> Fault {
    error::invalid_fault("outbound_delivery"@, message_id, reason)
}

pub fn invalid_outbound(message_id: &MessageId, reason: &str) -> (e: StoreError)
    ensures
        e@ == invalid_outbound_fault(message_id@, reason@),
{
    StoreError::invalid("outbound_delivery", message_id.as_str(), reason)
}

/// The fault of a text that must not be blank.
pub open spec fn non_empty_fault(field: Seq<char>, value: Seq<char>) -> Option<Fault> {
    if text::blank(value) {
        Some(
            error::invalid_fault("gateway_delivery"@, field, field + " must not be empty"@),
        )
    } else {
        None
    }
}

/// Refuses a blank text.
pub fn require_non_empty(field: &'static str, value: &str) -> (r: Result<(), StoreError>)
    ensures
        error::fault(r) == non_empty_fault(field@, value@),
{
    if is_blank(value) {
        let reason = join2(field, " must not be empty");
        return Err(StoreError::invalid("gateway_delivery", field, reason.as_str()));
    }
    Ok(())
}

/// The fault of a change that is dated before the last one.
pub open spec fn backdated_fault(
    outbox: StoredWireOutbox,
    attempt: StoredDeliveryAttempt,
    at: i64,
) -> Option<Fault> {
    if at < outbox.updated_at || at < attempt.updated_at {
        Some(stale_outbound_fault(outbox.message_id@))
    } else {
        None
    }
}

/// Refuses a change that is dated before the last one.
pub fn require_monotonic_transition_time(
    outbox: &StoredWireOutbox,
    attempt: &StoredDeliveryAttempt,
    at: i64,
) -> (r: Result<(), StoreError>)
    ensures
        error::fault(r) == backdated_fault(*outbox, *attempt, at),
{
    if at < outbox.updated_at || at < attempt.updated_at {
        Err(stale_outbound(&outbox.message_id))
    } else {
        Ok(())
    }
}

/// The peer refused the message: its error says so.
pub open spec fn refused_by_peer(outbox: StoredWireOutbox) -> bool {
    outbox.last_error matches Some(reason) && text::begins_with(
        reason@,
        TRANSPORT_ACK_REJECTED_PREFIX@,
    )
}

fn is_refused_by_peer(outbox: &StoredWireOutbox) -> (r: bool)
    ensures
        r == refused_by_peer(*outbox),
{
    match &outbox.last_error {
        Some(reason) => text_begins_with(reason.as_str(), TRANSPORT_ACK_REJECTED_PREFIX),
        None => false,
    }
}

/// How writing a message to the wire ended.
#[derive(Clone, Copy, Debug, PartialEq, Eq, Structural)]
pub enum TransportWriteResult {
    Sent,
    Backpressure,
    Failed,
    Unconfirmed,
}

/// What is wrong with the report of a finished write: a sent message has no
/// error, any other end needs one.
pub open spec fn completion_fault(
    completion: CompleteTransportWrite,
    result: TransportWriteResult,
) -> Option<Fault> {
    if result is Sent {
        if completion.error is Some {
            Some(
                invalid_outbound_fault(
                    completion.message_id@,
                    "sent write must not include error"@,
                ),
            )
        } else {
            None
        }
    } else {
        match completion.error {
            Some(error) => non_empty_fault("transport write error"@, error@),
            None => non_empty_fault("transport write error"@, Seq::empty()),
        }
    }
}

/// What the end of a write does to a delivery that nobody answered yet.
pub open spec fn ordinary_end(
    completion: CompleteTransportWrite,
    result: TransportWriteResult,
) -> (OutboxStep, AttemptStep) {
    let error = text::optional_text(completion.error);
    let at = completion.completed_at;
    let (outbox_status, attempt_status, sent_at) = match result {
        TransportWriteResult::Sent => (
            WireOutboxStatus::Sent,
            CommandDeliveryAttemptStatus::Sent,
            Some(at),
        ),
        TransportWriteResult::Backpressure => (
            WireOutboxStatus::Failed,
            CommandDeliveryAttemptStatus::Backpressure,
            None,
        ),
        TransportWriteResult::Failed => (
            WireOutboxStatus::Failed,
            CommandDeliveryAttemptStatus::Failed,
            None,
        ),
        TransportWriteResult::Unconfirmed => (
            WireOutboxStatus::WriteStarted,
            CommandDeliveryAttemptStatus::Unconfirmed,
            None,
        ),
    };
    (
        OutboxStep { status: outbox_status, at, sent_at, acked_at: None, error },
        AttemptStep { status: attempt_status, at, acked_at: None, error },
    )
}

/// The attempt counts as sent, however the write ended: the peer has answered.
pub open spec fn answered_attempt(
    attempt: StoredDeliveryAttempt,
    completion: CompleteTransportWrite,
) -> AttemptStep {
    AttemptStep {
        status: CommandDeliveryAttemptStatus::Sent,
        at: numbers::later(completion.completed_at, attempt.updated_at),
        acked_at: None,
        error: None,
    }
}

/// The delivery is settled: the end of the write changes nothing any more.
pub open spec fn settled(outbox: StoredWireOutbox, attempt: StoredDeliveryAttempt) -> bool {
    ||| attempt.status is Unconfirmed
    ||| outbox.status is Failed && attempt.status is Failed
    ||| outbox.status is Failed && refused_by_peer(outbox) && (attempt.status is Sent
        || attempt.status is Acked)
}

/// What the end of a write does to a delivery.
pub open spec fn finished_write(
    outbox: StoredWireOutbox,
    attempt: StoredDeliveryAttempt,
    completion: CompleteTransportWrite,
    result: TransportWriteResult,
) -> DeliveryStep {
    let stale = DeliveryStep::Refused(stale_outbound_fault(completion.message_id@));
    if completion_fault(completion, result) is Some {
        DeliveryStep::Refused(completion_fault(completion, result)->0)
    } else if outbox.status is Failed && refused_by_peer(outbox) && attempt.status is Pending {
        if attempt.revision != completion.expected_attempt_revision {
            stale
        } else {
            DeliveryStep::Moved {
                outbox: None,
                attempt: Some(answered_attempt(attempt, completion)),
            }
        }
    } else if settled(outbox, attempt) {
        DeliveryStep::Moved { outbox: None, attempt: None }
    } else if outbox.status is Acked {
        if attempt.status is Pending && attempt.revision != completion.expected_attempt_revision {
            stale
        } else if attempt.status is Pending || attempt.status is Failed
            || attempt.status is Backpressure {
            DeliveryStep::Moved {
                outbox: None,
                attempt: Some(answered_attempt(attempt, completion)),
            }
        } else {
            DeliveryStep::Moved { outbox: None, attempt: None }
        }
    } else if attempt.status is Acked {
        if outbox.status is WriteStarted {
            DeliveryStep::Moved {
                outbox: Some(
                    OutboxStep {
                        status: WireOutboxStatus::Sent,
                        at: numbers::later(completion.completed_at, outbox.updated_at),
                        sent_at: Some(completion.completed_at),
                        acked_at: None,
                        error: None,
                    },
                ),
                attempt: None,
            }
        } else if outbox.status is Sent || outbox.status is Failed {
            DeliveryStep::Moved { outbox: None, attempt: None }
        } else {
            stale
        }
    } else if !(outbox.status is WriteStarted) || !(attempt.status is Pending) || outbox.revision
        != completion.expected_outbox_revision || attempt.revision
        != completion.expected_attempt_revision {
        stale
    } else if backdated_fault(outbox, attempt, completion.completed_at) is Some {
        DeliveryStep::Refused(backdated_fault(outbox, attempt, completion.completed_at)->0)
    } else {
        let (outbox_step, attempt_step) = ordinary_end(completion, result);
        DeliveryStep::Moved { outbox: Some(outbox_step), attempt: Some(attempt_step) }
    }
}

/// Books the end of a write. What the peer answered meanwhile outweighs what
/// the writer saw.
pub fn finish_transport_write(
    outbox: StoredWireOutbox,
    attempt: StoredDeliveryAttempt,
    completion: &CompleteTransportWrite,
    result: TransportWriteResult,
) -> (r: Result<StoredOutboundDelivery, StoreError>)
    ensures
        error::fault(r) == step_fault(
            outbox,
            attempt,
            finished_write(outbox, attempt, *completion, result),
        ),
        r matches Ok(after) ==> step_made(
            outbox,
            attempt,
            finished_write(outbox, attempt, *completion, result),
            after,
        ),
{
    match result {
        TransportWriteResult::Sent => {
            if completion.error.is_some() {
                return Err(
                    invalid_outbound(&completion.message_id, "sent write must not include error"),
                );
            }
        },
        _ => {
            match &completion.error {
                Some(error) => require_non_empty("transport write error", error.as_str())?,
                None => {
                    let nothing = String::new();
                    require_non_empty("transport write error", nothing.as_str())?
                },
            }
        },
    }
    let refused = outbox.status == WireOutboxStatus::Failed && is_refused_by_peer(&outbox);
    if refused && attempt.status == CommandDeliveryAttemptStatus::Pending {
        if attempt.revision != completion.expected_attempt_revision {
            return Err(stale_outbound(&completion.message_id));
        }
        let at: i64 = later_of(completion.completed_at, attempt.updated_at);
        let next = update_attempt_state(
            &attempt,
            CommandDeliveryAttemptStatus::Sent,
            at,
            None,
            None,
        )?;
        return Ok(StoredOutboundDelivery { outbox, attempt: next });
    }
    if attempt.status == CommandDeliveryAttemptStatus::Unconfirmed || (outbox.status
        == WireOutboxStatus::Failed && attempt.status == CommandDeliveryAttemptStatus::Failed) || (
    refused && (attempt.status == CommandDeliveryAttemptStatus::Sent || attempt.status
        == CommandDeliveryAttemptStatus::Acked)) {
        return Ok(StoredOutboundDelivery { outbox, attempt });
    }
    if outbox.status == WireOutboxStatus::Acked {
        if attempt.status == CommandDeliveryAttemptStatus::Pending && attempt.revision
            != completion.expected_attempt_revision {
            return Err(stale_outbound(&completion.message_id));
        }
        if attempt.status == CommandDeliveryAttemptStatus::Pending || attempt.status
            == CommandDeliveryAttemptStatus::Failed || attempt.status
            == CommandDeliveryAttemptStatus::Backpressure {
            let at: i64 = later_of(completion.completed_at, attempt.updated_at);
            let next = update_attempt_state(
                &attempt,
                CommandDeliveryAttemptStatus::Sent,
                at,
                None,
                None,
            )?;
            return Ok(StoredOutboundDelivery { outbox, attempt: next });
        }
        return Ok(StoredOutboundDelivery { outbox, attempt });
    }
    if attempt.status == CommandDeliveryAttemptStatus::Acked {
        if outbox.status == WireOutboxStatus::WriteStarted {
            let at: i64 = later_of(completion.completed_at, outbox.updated_at);
            let next = update_outbox_state(
                &outbox,
                WireOutboxStatus::Sent,
                at,
                Some(completion.completed_at),
                None,
                None,
            )?;
            return Ok(StoredOutboundDelivery { outbox: next, attempt });
        }
        if outbox.status == WireOutboxStatus::Sent || outbox.status == WireOutboxStatus::Failed {
            return Ok(StoredOutboundDelivery { outbox, attempt });
        }
        return Err(stale_outbound(&completion.message_id));
    }
    if outbox.status != WireOutboxStatus::WriteStarted || attempt.status
        != CommandDeliveryAttemptStatus::Pending || outbox.revision
        != completion.expected_outbox_revision || attempt.revision
        != completion.expected_attempt_revision {
        return Err(stale_outbound(&completion.message_id));
    }
    require_monotonic_transition_time(&outbox, &attempt, completion.completed_at)?;
    let (outbox_status, attempt_status, sent_at) = match result {
        TransportWriteResult::Sent => (
            WireOutboxStatus::Sent,
            CommandDeliveryAttemptStatus::Sent,
            Some(completion.completed_at),
        ),
        TransportWriteResult::Backpressure => (
            WireOutboxStatus::Failed,
            CommandDeliveryAttemptStatus::Backpressure,
            None,
        ),
        TransportWriteResult::Failed => (
            WireOutboxStatus::Failed,
            CommandDeliveryAttemptStatus::Failed,
            None,
        ),
        TransportWriteResult::Unconfirmed => (
            WireOutboxStatus::WriteStarted,
            CommandDeliveryAttemptStatus::Unconfirmed,
            None,
        ),
    };
    let next_outbox = update_outbox_state(
        &outbox,
        outbox_status,
        completion.completed_at,
        sent_at,
        None,
        copy_optional(&completion.error),
    )?;
    let next_attempt = update_attempt_state(
        &attempt,
        attempt_status,
        completion.completed_at,
        None,
        copy_optional(&completion.error),
    )?;
    Ok(StoredOutboundDelivery { outbox: next_outbox, attempt: next_attempt })
}

/// The last time a session was heard of.
pub open spec fn last_seen(session: StoredSessionRecord) -> i64 {
    match session.last_heartbeat_at {
        Some(at) => at,
        None => session.connected_at,
    }
}

/// The last time a session was heard of.
pub fn session_last_seen(session: &StoredSessionRecord) -> (r: i64)
    ensures
        r == last_seen(*session),
{
    match session.last_heartbeat_at {
        Some(at) => at,
        None => session.connected_at,
    }
}

/// What becomes of a delivery whose write was to start.
pub enum ClaimKind {
    Claimed,
    Expired,
    SessionUnavailable,
    ClockUnhealthy,
}

/// Whether a write may start.
pub enum ClaimVerdict {
    Refused(Fault),
    Decided(ClaimKind),
}

/// Whether a write may start. `expires_at` is the time at which the command
/// runs out; nothing where there is no such command.
pub open spec fn claim_verdict(
    outbox: StoredWireOutbox,
    attempt: StoredDeliveryAttempt,
    session: StoredSessionRecord,
    expires_at: Option<i64>,
    claim: ClaimWireOutbox,
) -> ClaimVerdict {
    if !(outbox.status is Pending) || !(attempt.status is Pending) || outbox.revision
        != claim.expected_outbox_revision || attempt.revision != claim.expected_attempt_revision {
        ClaimVerdict::Refused(stale_outbound_fault(claim.message_id@))
    } else if backdated_fault(outbox, attempt, claim.claimed_at) is Some {
        ClaimVerdict::Refused(backdated_fault(outbox, attempt, claim.claimed_at)->0)
    } else if !(session.status is Active) || last_seen(session) < claim.fresh_after {
        ClaimVerdict::Decided(ClaimKind::SessionUnavailable)
    } else if attempt.subject is ExecutionCommand && !claim.require_synced_clock {
        ClaimVerdict::Refused(
            invalid_outbound_fault(
                claim.message_id@,
                "execution command claim must require a synced clock"@,
            ),
        )
    } else if claim.require_synced_clock && !domain::clock_synced(session.clock_sync_status) {
        ClaimVerdict::Decided(ClaimKind::ClockUnhealthy)
    } else if attempt.subject is ExecutionCommand {
        match expires_at {
            None => ClaimVerdict::Refused(
                error::missing_fault(
                    "execution_command"@,
                    attempt.subject->ExecutionCommand_0@,
                ),
            ),
            Some(expires_at) => if claim.claimed_at >= expires_at {
                ClaimVerdict::Decided(ClaimKind::Expired)
            } else {
                ClaimVerdict::Decided(ClaimKind::Claimed)
            },
        }
    } else {
        ClaimVerdict::Decided(ClaimKind::Claimed)
    }
}

/// The delivery is called off.
pub open spec fn called_off(
    at: i64,
    status: CommandDeliveryAttemptStatus,
    reason: Seq<char>,
) -> DeliveryStep {
    DeliveryStep::Moved {
        outbox: Some(
            OutboxStep {
                status: WireOutboxStatus::Cancelled,
                at,
                sent_at: None,
                acked_at: None,
                error: Some(reason),
            },
        ),
        attempt: Some(AttemptStep { status, at, acked_at: None, error: Some(reason) }),
    }
}

/// What a claim does to a delivery.
pub open spec fn claim_step(verdict: ClaimVerdict, at: i64) -> DeliveryStep {
    match verdict {
        ClaimVerdict::Refused(fault) => DeliveryStep::Refused(fault),
        ClaimVerdict::Decided(kind) => match kind {
            ClaimKind::SessionUnavailable => called_off(
                at,
                CommandDeliveryAttemptStatus::NoActiveSession,
                DELIVERY_ERROR_SESSION_UNAVAILABLE@,
            ),
            ClaimKind::ClockUnhealthy => called_off(
                at,
                CommandDeliveryAttemptStatus::NoActiveSession,
                DELIVERY_ERROR_CLOCK_UNHEALTHY@,
            ),
            ClaimKind::Expired => called_off(
                at,
                CommandDeliveryAttemptStatus::Cancelled,
                DELIVERY_ERROR_COMMAND_EXPIRED@,
            ),
            ClaimKind::Claimed => DeliveryStep::Moved {
                outbox: Some(
                    OutboxStep {
                        status: WireOutboxStatus::WriteStarted,
                        at,
                        sent_at: None,
                        acked_at: None,
                        error: None,
                    },
                ),
                attempt: Some(
                    AttemptStep {
                        status: CommandDeliveryAttemptStatus::Pending,
                        at,
                        acked_at: None,
                        error: None,
                    },
                ),
            },
        },
    }
}

/// The delivery that a claim hands back.
pub open spec fn claimed_delivery(outcome: OutboxClaimOutcome) -> StoredOutboundDelivery {
    match outcome {
        OutboxClaimOutcome::Claimed(delivery) => delivery,
        OutboxClaimOutcome::Expired(delivery) => delivery,
        OutboxClaimOutcome::SessionUnavailable(delivery) => delivery,
        OutboxClaimOutcome::ClockUnhealthy(delivery) => delivery,
    }
}

/// Which answer a claim hands back.
pub open spec fn claim_kind(outcome: OutboxClaimOutcome) -> ClaimKind {
    match outcome {
        OutboxClaimOutcome::Claimed(_) => ClaimKind::Claimed,
        OutboxClaimOutcome::Expired(_) => ClaimKind::Expired,
        OutboxClaimOutcome::SessionUnavailable(_) => ClaimKind::SessionUnavailable,
        OutboxClaimOutcome::ClockUnhealthy(_) => ClaimKind::ClockUnhealthy,
    }
}

/// Calls a delivery off.
pub fn cancel_claimed_delivery(
    outbox: &StoredWireOutbox,
    attempt: &StoredDeliveryAttempt,
    cancelled_at: i64,
    attempt_status: CommandDeliveryAttemptStatus,
    reason: &str,
) -> (r: Result<StoredOutboundDelivery, StoreError>)
    ensures
        error::fault(r) == step_fault(
            *outbox,
            *attempt,
            called_off(cancelled_at, attempt_status, reason@),
        ),
        r matches Ok(after) ==> step_made(
            *outbox,
            *attempt,
            called_off(cancelled_at, attempt_status, reason@),
            after,
        ),
{
    let next_outbox = update_outbox_state(
        outbox,
        WireOutboxStatus::Cancelled,
        cancelled_at,
        None,
        None,
        Some(reason.to_owned()),
    )?;
    let next_attempt = update_attempt_state(
        attempt,
        attempt_status,
        cancelled_at,
        None,
        Some(reason.to_owned()),
    )?;
    Ok(StoredOutboundDelivery { outbox: next_outbox, attempt: next_attempt })
}

/// The session that is to carry a message.
pub fn outbox_session<'a>(outbox: &'a StoredWireOutbox, message_id: &MessageId) -> (r: Result<
    &'a SessionId,
    StoreError,
>)
    ensures
        error::fault(r) == match outbox.session_id {
            Some(_) => None,
            None => Some(
                error::corrupt_fault(
                    "outbound_delivery"@,
                    message_id@,
                    "delivery outbox has no session"@,
                ),
            ),
        },
        r matches Ok(session_id) ==> outbox.session_id == Some(*session_id),
{
    match &outbox.session_id {
        Some(session_id) => Ok(session_id),
        None => Err(
            StoreError::corrupt(
                "outbound_delivery",
                message_id.as_str(),
                "delivery outbox has no session",
            ),
        ),
    }
}

/// Starts writing a message to the wire, or calls the delivery off where the
/// session, its clock or the command no longer allow it.
pub fn claim_outbox(
    outbox: &StoredWireOutbox,
    attempt: &StoredDeliveryAttempt,
    session: &StoredSessionRecord,
    expires_at: Option<i64>,
    claim: &ClaimWireOutbox,
) -> (r: Result<OutboxClaimOutcome, StoreError>)
    ensures
        ({
            let verdict = claim_verdict(*outbox, *attempt, *session, expires_at, *claim);
            let step = claim_step(verdict, claim.claimed_at);
            &&& error::fault(r) == step_fault(*outbox, *attempt, step)
            &&& r matches Ok(outcome) ==> {
                &&& verdict == ClaimVerdict::Decided(claim_kind(outcome))
                &&& step_made(*outbox, *attempt, step, claimed_delivery(outcome))
            }
        }),
{
    if outbox.status != WireOutboxStatus::Pending || attempt.status
        != CommandDeliveryAttemptStatus::Pending || outbox.revision
        != claim.expected_outbox_revision || attempt.revision != claim.expected_attempt_revision {
        return Err(stale_outbound(&claim.message_id));
    }
    require_monotonic_transition_time(outbox, attempt, claim.claimed_at)?;
    if session.status != SessionStatus::Active || session_last_seen(session) < claim.fresh_after {
        let delivery = cancel_claimed_delivery(
            outbox,
            attempt,
            claim.claimed_at,
            CommandDeliveryAttemptStatus::NoActiveSession,
            DELIVERY_ERROR_SESSION_UNAVAILABLE,
        )?;
        return Ok(OutboxClaimOutcome::SessionUnavailable(delivery));
    }
    let command_subject = attempt.subject.command_id().is_some();
    if command_subject && !claim.require_synced_clock {
        return Err(
            invalid_outbound(
                &claim.message_id,
                "execution command claim must require a synced clock",
            ),
        );
    }
    if claim.require_synced_clock && !is_clock_synced(&session.clock_sync_status) {
        let delivery = cancel_claimed_delivery(
            outbox,
            attempt,
            claim.claimed_at,
            CommandDeliveryAttemptStatus::NoActiveSession,
            DELIVERY_ERROR_CLOCK_UNHEALTHY,
        )?;
        return Ok(OutboxClaimOutcome::ClockUnhealthy(delivery));
    }
    if let DeliverySubject::ExecutionCommand(command_id) = &attempt.subject {
        match expires_at {
            None => {
                return Err(StoreError::missing("execution_command", command_id.as_str()));
            },
            Some(expires_at) => {
                if claim.claimed_at >= expires_at {
                    let delivery = cancel_claimed_delivery(
                        outbox,
                        attempt,
                        claim.claimed_at,
                        CommandDeliveryAttemptStatus::Cancelled,
                        DELIVERY_ERROR_COMMAND_EXPIRED,
                    )?;
                    return Ok(OutboxClaimOutcome::Expired(delivery));
                }
            },
        }
    }
    let next_outbox = update_outbox_state(
        outbox,
        WireOutboxStatus::WriteStarted,
        claim.claimed_at,
        None,
        None,
        None,
    )?;
    let next_attempt = update_attempt_state(
        attempt,
        CommandDeliveryAttemptStatus::Pending,
        claim.claimed_at,
        None,
        None,
    )?;
    Ok(
        OutboxClaimOutcome::Claimed(
            StoredOutboundDelivery { outbox: next_outbox, attempt: next_attempt },
        ),
    )
}

/// What a request does to an outbox message: it is refused, or the message
/// changes or stays.
pub enum OutboxDecision {
    Refused(Fault),
    Kept,
    Moved(OutboxStep),
}

/// Why the decision is not carried out.
pub open spec fn outbox_fault(outbox: StoredWireOutbox, decision: OutboxDecision) -> Option<Fault> {
    match decision {
        OutboxDecision::Refused(fault) => Some(fault),
        OutboxDecision::Kept => None,
        OutboxDecision::Moved(_) => numbers::increment_fault(
            "wire_outbox.revision"@,
            outbox.revision as nat,
        ),
    }
}

/// `after` is the message after the decision.
pub open spec fn outbox_decided(
    outbox: StoredWireOutbox,
    decision: OutboxDecision,
    after: StoredWireOutbox,
) -> bool {
    match decision {
        OutboxDecision::Refused(_) => false,
        OutboxDecision::Kept => after == outbox,
        OutboxDecision::Moved(step) => outbox_moved(outbox, step, after),
    }
}

/// A peer's answer can still count: the message is on its way, or was.
pub open spec fn answerable(outbox: StoredWireOutbox) -> bool {
    outbox.status is WriteStarted || outbox.status is Sent || outbox.status is Failed
}

/// When the message counts as sent, once a peer has answered it.
pub open spec fn answered_sent_at(outbox: StoredWireOutbox, update: TransportAckUpdate) -> i64 {
    match outbox.sent_at {
        Some(at) => at,
        None => update.acked_at,
    }
}

/// The error under which a refusal is kept.
pub open spec fn durable_reason(reason: Seq<char>) -> Seq<char> {
    TRANSPORT_ACK_REJECTED_PREFIX@ + reason
}

/// What a peer's answer does to a message. An accepted message stays accepted
/// and a refused one refused.
pub open spec fn acknowledged(outbox: StoredWireOutbox, update: TransportAckUpdate) -> OutboxDecision {
    let conflict = OutboxDecision::Refused(
        error::conflict_fault("transport_ack"@, update.message_id@),
    );
    let stale = OutboxDecision::Refused(stale_outbound_fault(update.message_id@));
    let transition_at = numbers::later(update.acked_at, outbox.updated_at);
    let sent_at = answered_sent_at(outbox, update);
    if text::optional_text(outbox.session_id) != Some(update.session_id@) || outbox.message_type@
        != update.message_type@ {
        conflict
    } else if update.status is Rejected {
        match update.reason {
            None => OutboxDecision::Refused(
                invalid_outbound_fault(
                    update.message_id@,
                    "rejected transport ack requires reason"@,
                ),
            ),
            Some(reason) => if non_empty_fault("transport ack rejection reason"@, reason@) is Some {
                OutboxDecision::Refused(
                    non_empty_fault("transport ack rejection reason"@, reason@)->0,
                )
            } else if outbox.status is Acked {
                conflict
            } else if refused_by_peer(outbox) {
                if outbox.last_error->0@ == durable_reason(reason@) {
                    OutboxDecision::Kept
                } else {
                    conflict
                }
            } else if !answerable(outbox) {
                stale
            } else {
                OutboxDecision::Moved(
                    OutboxStep {
                        status: WireOutboxStatus::Failed,
                        at: transition_at,
                        sent_at: Some(sent_at),
                        acked_at: None,
                        error: Some(durable_reason(reason@)),
                    },
                )
            },
        }
    } else if outbox.status is Acked {
        OutboxDecision::Kept
    } else if refused_by_peer(outbox) {
        conflict
    } else if !answerable(outbox) {
        stale
    } else {
        let acked_at = numbers::later(update.acked_at, sent_at);
        OutboxDecision::Moved(
            OutboxStep {
                status: WireOutboxStatus::Acked,
                at: numbers::later(transition_at, acked_at),
                sent_at: Some(sent_at),
                acked_at: Some(acked_at),
                error: None,
            },
        )
    }
}

fn sent_at_or(outbox: &StoredWireOutbox, at: i64) -> (r: i64)
    ensures
        r == match outbox.sent_at {
            Some(sent_at) => sent_at,
            None => at,
        },
{
    match outbox.sent_at {
        Some(sent_at) => sent_at,
        None => at,
    }
}

/// Books a peer's answer to a message.
pub fn record_transport_ack(outbox: StoredWireOutbox, update: &TransportAckUpdate) -> (r: Result<
    StoredWireOutbox,
    StoreError,
>)
    ensures
        error::fault(r) == outbox_fault(outbox, acknowledged(outbox, *update)),
        r matches Ok(after) ==> outbox_decided(outbox, acknowledged(outbox, *update), after),
{
    if !optional_is(&outbox.session_id, update.session_id.as_str()) || !same_text(
        outbox.message_type.as_str(),
        update.message_type.as_str(),
    ) {
        return Err(StoreError::conflict("transport_ack", update.message_id.as_str()));
    }
    let transition_at: i64 = later_of(update.acked_at, outbox.updated_at);
    let answerable = outbox.status == WireOutboxStatus::WriteStarted || outbox.status
        == WireOutboxStatus::Sent || outbox.status == WireOutboxStatus::Failed;
    match update.status {
        TransportAckStatus::Accepted | TransportAckStatus::Duplicate => {
            if outbox.status == WireOutboxStatus::Acked {
                return Ok(outbox);
            }
            if is_refused_by_peer(&outbox) {
                return Err(StoreError::conflict("transport_ack", update.message_id.as_str()));
            }
            if !answerable {
                return Err(stale_outbound(&update.message_id));
            }
            let sent_at: i64 = sent_at_or(&outbox, update.acked_at);
            let acked_at: i64 = later_of(update.acked_at, sent_at);
            let at: i64 = later_of(transition_at, acked_at);
            update_outbox_state(
                &outbox,
                WireOutboxStatus::Acked,
                at,
                Some(sent_at),
                Some(acked_at),
                None,
            )
        },
        TransportAckStatus::Rejected => {
            let reason = match &update.reason {
                Some(reason) => reason,
                None => {
                    return Err(
                        invalid_outbound(
                            &update.message_id,
                            "rejected transport ack requires reason",
                        ),
                    );
                },
            };
            require_non_empty("transport ack rejection reason", reason.as_str())?;
            let durable = join2(TRANSPORT_ACK_REJECTED_PREFIX, reason.as_str());
            if outbox.status == WireOutboxStatus::Acked {
                return Err(StoreError::conflict("transport_ack", update.message_id.as_str()));
            }
            if is_refused_by_peer(&outbox) {
                if optional_is(&outbox.last_error, durable.as_str()) {
                    return Ok(outbox);
                }
                return Err(StoreError::conflict("transport_ack", update.message_id.as_str()));
            }
            if !answerable {
                return Err(stale_outbound(&update.message_id));
            }
            let sent_at: i64 = sent_at_or(&outbox, update.acked_at);
            update_outbox_state(
                &outbox,
                WireOutboxStatus::Failed,
                transition_at,
                Some(sent_at),
                None,
                Some(durable),
            )
        },
    }
}

/// What a request does to an attempt: it is refused, or the attempt changes or
/// stays.
pub enum AttemptDecision {
    Refused(Fault),
    Kept,
    Moved(AttemptStep),
}

/// Why the decision is not carried out.
pub open spec fn attempt_fault(
    attempt: StoredDeliveryAttempt,
    decision: AttemptDecision,
) -> Option<Fault> {
    match decision {
        AttemptDecision::Refused(fault) => Some(fault),
        AttemptDecision::Kept => None,
        AttemptDecision::Moved(_) => numbers::increment_fault(
            "command_delivery_attempts.revision"@,
            attempt.revision as nat,
        ),
    }
}

/// `after` is the attempt after the decision.
pub open spec fn attempt_decided(
    attempt: StoredDeliveryAttempt,
    decision: AttemptDecision,
    after: StoredDeliveryAttempt,
) -> bool {
    match decision {
        AttemptDecision::Refused(_) => false,
        AttemptDecision::Kept => after == attempt,
        AttemptDecision::Moved(step) => attempt_moved(attempt, step, after),
    }
}

/// The fault of an attempt that another write has overtaken.
pub open spec fn stale_attempt_fault(attempt_id: Seq<char>) -> Fault {
    error::stale_fault("command_delivery_attempt"@, attempt_id)
}

fn stale_attempt(attempt_id: &String) -> (e: StoreError)
    ensures
        e@ == stale_attempt_fault(attempt_id@),
{
    StoreError::stale("command_delivery_attempt", attempt_id.as_str())
}

/// What a peer's word that it holds the command does to an attempt.
pub open spec fn received(
    attempt: StoredDeliveryAttempt,
    update: CommandReceivedAttemptUpdate,
) -> AttemptDecision {
    if text::optional_text(attempt.session_id) != Some(update.session_id@)
        || attempt.subject.command() != Some(update.command_id@) {
        AttemptDecision::Refused(
            error::conflict_fault("command_received_attempt"@, update.source_message_id@),
        )
    } else if attempt.status is Acked {
        AttemptDecision::Kept
    } else if attempt.status is NoActiveSession || attempt.status is Cancelled {
        AttemptDecision::Refused(stale_attempt_fault(attempt.attempt_id@))
    } else if update.received_at < attempt.attempted_at {
        AttemptDecision::Refused(
            error::invalid_fault(
                "command_received_attempt"@,
                update.source_message_id@,
                "received_at precedes attempted_at"@,
            ),
        )
    } else {
        AttemptDecision::Moved(
            AttemptStep {
                status: CommandDeliveryAttemptStatus::Acked,
                at: numbers::later(update.received_at, attempt.updated_at),
                acked_at: Some(update.received_at),
                error: None,
            },
        )
    }
}

/// Books a peer's word that it holds the command.
pub fn record_command_received_attempt(
    attempt: StoredDeliveryAttempt,
    update: &CommandReceivedAttemptUpdate,
) -> (r: Result<StoredDeliveryAttempt, StoreError>)
    ensures
        error::fault(r) == attempt_fault(attempt, received(attempt, *update)),
        r matches Ok(after) ==> attempt_decided(attempt, received(attempt, *update), after),
{
    let same_subject = match attempt.subject.command_id() {
        Some(command_id) => same_text(command_id.as_str(), update.command_id.as_str()),
        None => false,
    };
    if !optional_is(&attempt.session_id, update.session_id.as_str()) || !same_subject {
        return Err(
            StoreError::conflict("command_received_attempt", update.source_message_id.as_str()),
        );
    }
    if attempt.status == CommandDeliveryAttemptStatus::Acked {
        return Ok(attempt);
    }
    if attempt.status == CommandDeliveryAttemptStatus::NoActiveSession || attempt.status
        == CommandDeliveryAttemptStatus::Cancelled {
        return Err(stale_attempt(&attempt.attempt_id));
    }
    if update.received_at < attempt.attempted_at {
        return Err(
            StoreError::invalid(
                "command_received_attempt",
                update.source_message_id.as_str(),
                "received_at precedes attempted_at",
            ),
        );
    }
    let at: i64 = later_of(update.received_at, attempt.updated_at);
    update_attempt_state(
        &attempt,
        CommandDeliveryAttemptStatus::Acked,
        at,
        Some(update.received_at),
        None,
    )
}

/// What a peer's silence does to an attempt. `outbox` is the message that the
/// attempt sends; nothing where it has none or the message is not there.
pub open spec fn timed_out(
    attempt: StoredDeliveryAttempt,
    outbox: Option<StoredWireOutbox>,
    timeout: DeliveryAttemptTimeout,
) -> AttemptDecision {
    let stale = AttemptDecision::Refused(stale_attempt_fault(attempt.attempt_id@));
    if non_empty_fault("delivery timeout error"@, timeout.error@) is Some {
        AttemptDecision::Refused(non_empty_fault("delivery timeout error"@, timeout.error@)->0)
    } else if !(attempt.subject is ExecutionCommand) {
        AttemptDecision::Refused(
            error::invalid_fault(
                "command_delivery_attempt"@,
                timeout.attempt_id@,
                "command.received timeout only applies to execution commands"@,
            ),
        )
    } else if attempt.status is Unconfirmed || attempt.status is Acked {
        AttemptDecision::Kept
    } else if !(attempt.status is Sent) {
        stale
    } else if attempt.message_id is None {
        AttemptDecision::Refused(
            error::corrupt_fault(
                "command_delivery_attempt"@,
                attempt.attempt_id@,
                "SENT attempt has no message_id"@,
            ),
        )
    } else if outbox is None {
        AttemptDecision::Refused(error::missing_fault("wire_outbox"@, attempt.message_id->0@))
    } else if outbox->0.status is Failed && refused_by_peer(outbox->0) {
        AttemptDecision::Kept
    } else if attempt.revision != timeout.expected_revision || timeout.timed_out_at
        < attempt.updated_at {
        stale
    } else {
        AttemptDecision::Moved(
            AttemptStep {
                status: CommandDeliveryAttemptStatus::Unconfirmed,
                at: timeout.timed_out_at,
                acked_at: None,
                error: Some(timeout.error@),
            },
        )
    }
}

/// Books a peer's silence about a command.
pub fn timeout_delivery_attempt(
    attempt: StoredDeliveryAttempt,
    outbox: &Option<StoredWireOutbox>,
    timeout: &DeliveryAttemptTimeout,
) -> (r: Result<StoredDeliveryAttempt, StoreError>)
    ensures
        error::fault(r) == attempt_fault(attempt, timed_out(attempt, *outbox, *timeout)),
        r matches Ok(after) ==> attempt_decided(
            attempt,
            timed_out(attempt, *outbox, *timeout),
            after,
        ),
{
    require_non_empty("delivery timeout error", timeout.error.as_str())?;
    if attempt.subject.command_id().is_none() {
        return Err(
            StoreError::invalid(
                "command_delivery_attempt",
                timeout.attempt_id.as_str(),
                "command.received timeout only applies to execution commands",
            ),
        );
    }
    if attempt.status == CommandDeliveryAttemptStatus::Unconfirmed || attempt.status
        == CommandDeliveryAttemptStatus::Acked {
        return Ok(attempt);
    }
    if attempt.status != CommandDeliveryAttemptStatus::Sent {
        return Err(stale_attempt(&attempt.attempt_id));
    }
    let message_id = match &attempt.message_id {
        Some(message_id) => message_id,
        None => {
            return Err(
                StoreError::corrupt(
                    "command_delivery_attempt",
                    attempt.attempt_id.as_str(),
                    "SENT attempt has no message_id",
                ),
            );
        },
    };
    let outbox = match outbox {
        Some(outbox) => outbox,
        None => {
            return Err(StoreError::missing("wire_outbox", message_id.as_str()));
        },
    };
    if outbox.status == WireOutboxStatus::Failed && is_refused_by_peer(outbox) {
        return Ok(attempt);
    }
    if attempt.revision != timeout.expected_revision || timeout.timed_out_at < attempt.updated_at {
        return Err(stale_attempt(&attempt.attempt_id));
    }
    update_attempt_state(
        &attempt,
        CommandDeliveryAttemptStatus::Unconfirmed,
        timeout.timed_out_at,
        None,
        Some(timeout.error.clone()),
    )
}

/// The first fault that the step meets in a list of deliveries.
pub open spec fn first_fault(
    deliveries: Seq<StoredOutboundDelivery>,
    step: spec_fn(StoredOutboundDelivery) -> DeliveryStep,
) -> Option<Fault>
    decreases deliveries.len(),
{
    if deliveries.len() == 0 {
        None
    } else {
        match first_fault(deliveries.drop_last(), step) {
            Some(fault) => Some(fault),
            None => step_fault(
                deliveries.last().outbox,
                deliveries.last().attempt,
                step(deliveries.last()),
            ),
        }
    }
}

/// Each delivery of `after` is the one at the same place of `before` after the
/// step.
pub open spec fn all_made(
    before: Seq<StoredOutboundDelivery>,
    step: spec_fn(StoredOutboundDelivery) -> DeliveryStep,
    after: Seq<StoredOutboundDelivery>,
) -> bool {
    &&& after.len() == before.len()
    &&& forall|i: int|
        0 <= i < before.len() ==> step_made(
            before[i].outbox,
            before[i].attempt,
            step(before[i]),
            #[trigger] after[i],
        )
}

proof fn first_fault_of_prefix(
    deliveries: Seq<StoredOutboundDelivery>,
    step: spec_fn(StoredOutboundDelivery) -> DeliveryStep,
    n: int,
)
    requires
        0 <= n <= deliveries.len(),
        first_fault(deliveries.take(n), step) is Some,
    ensures
        first_fault(deliveries, step) == first_fault(deliveries.take(n), step),
    decreases deliveries.len(),
{
    if n < deliveries.len() {
        assert(deliveries.drop_last().take(n) =~= deliveries.take(n));
        first_fault_of_prefix(deliveries.drop_last(), step, n);
    } else {
        assert(deliveries.take(n) =~= deliveries);
    }
}

/// An attempt whose message the peer refused counts as sent.
pub open spec fn settle_step(changed_at: i64) -> spec_fn(StoredOutboundDelivery) -> DeliveryStep {
    |delivery: StoredOutboundDelivery|
        match delivery.outbox.last_error {
            None => DeliveryStep::Refused(
                error::corrupt_fault(
                    "outbound_delivery"@,
                    delivery.outbox.message_id@,
                    "transport-rejected outbox has no rejection reason"@,
                ),
            ),
            Some(_) => if !refused_by_peer(delivery.outbox) {
                DeliveryStep::Refused(
                    error::corrupt_fault(
                        "outbound_delivery"@,
                        delivery.outbox.message_id@,
                        "transport-rejected outbox has an invalid rejection reason"@,
                    ),
                )
            } else {
                DeliveryStep::Moved {
                    outbox: None,
                    attempt: Some(
                        AttemptStep {
                            status: CommandDeliveryAttemptStatus::Sent,
                            at: numbers::later(changed_at, delivery.attempt.updated_at),
                            acked_at: None,
                            error: None,
                        },
                    ),
                }
            },
        }
}

/// A message that was not yet written is called off.
pub open spec fn cancel_step(changed_at: i64, error: Seq<char>) -> spec_fn(
    StoredOutboundDelivery,
) -> DeliveryStep {
    |delivery: StoredOutboundDelivery|
        match backdated_fault(delivery.outbox, delivery.attempt, changed_at) {
            Some(fault) => DeliveryStep::Refused(fault),
            None => called_off(changed_at, CommandDeliveryAttemptStatus::Cancelled, error),
        }
}

/// An attempt whose message may have reached the peer is in doubt.
pub open spec fn unconfirm_step(changed_at: i64, error: Seq<char>) -> spec_fn(
    StoredOutboundDelivery,
) -> DeliveryStep {
    |delivery: StoredOutboundDelivery|
        if changed_at < delivery.attempt.updated_at {
            DeliveryStep::Refused(stale_attempt_fault(delivery.attempt.attempt_id@))
        } else {
            DeliveryStep::Moved {
                outbox: None,
                attempt: Some(
                    AttemptStep {
                        status: CommandDeliveryAttemptStatus::Unconfirmed,
                        at: changed_at,
                        acked_at: None,
                        error: Some(error),
                    },
                ),
            }
        }
}

fn settle_one(delivery: StoredOutboundDelivery, changed_at: i64) -> (r: Result<
    StoredOutboundDelivery,
    StoreError,
>)
    ensures
        error::fault(r) == step_fault(
            delivery.outbox,
            delivery.attempt,
            settle_step(changed_at)(delivery),
        ),
        r matches Ok(after) ==> step_made(
            delivery.outbox,
            delivery.attempt,
            settle_step(changed_at)(delivery),
            after,
        ),
{
    let StoredOutboundDelivery { outbox, attempt } = delivery;
    if outbox.last_error.is_none() {
        return Err(
            StoreError::corrupt(
                "outbound_delivery",
                outbox.message_id.as_str(),
                "transport-rejected outbox has no rejection reason",
            ),
        );
    }
    if !is_refused_by_peer(&outbox) {
        return Err(
            StoreError::corrupt(
                "outbound_delivery",
                outbox.message_id.as_str(),
                "transport-rejected outbox has an invalid rejection reason",
            ),
        );
    }
    let at: i64 = later_of(changed_at, attempt.updated_at);
    let next = update_attempt_state(&attempt, CommandDeliveryAttemptStatus::Sent, at, None, None)?;
    Ok(StoredOutboundDelivery { outbox, attempt: next })
}

fn cancel_one(delivery: StoredOutboundDelivery, changed_at: i64, error: &str) -> (r: Result<
    StoredOutboundDelivery,
    StoreError,
>)
    ensures
        error::fault(r) == step_fault(
            delivery.outbox,
            delivery.attempt,
            cancel_step(changed_at, error@)(delivery),
        ),
        r matches Ok(after) ==> step_made(
            delivery.outbox,
            delivery.attempt,
            cancel_step(changed_at, error@)(delivery),
            after,
        ),
{
    require_monotonic_transition_time(&delivery.outbox, &delivery.attempt, changed_at)?;
    cancel_claimed_delivery(
        &delivery.outbox,
        &delivery.attempt,
        changed_at,
        CommandDeliveryAttemptStatus::Cancelled,
        error,
    )
}

fn unconfirm_one(delivery: StoredOutboundDelivery, changed_at: i64, error: &str) -> (r: Result<
    StoredOutboundDelivery,
    StoreError,
>)
    ensures
        error::fault(r) == step_fault(
            delivery.outbox,
            delivery.attempt,
            unconfirm_step(changed_at, error@)(delivery),
        ),
        r matches Ok(after) ==> step_made(
            delivery.outbox,
            delivery.attempt,
            unconfirm_step(changed_at, error@)(delivery),
            after,
        ),
{
    let StoredOutboundDelivery { outbox, attempt } = delivery;
    if changed_at < attempt.updated_at {
        return Err(stale_attempt(&attempt.attempt_id));
    }
    let next = update_attempt_state(
        &attempt,
        CommandDeliveryAttemptStatus::Unconfirmed,
        changed_at,
        None,
        Some(error.to_owned()),
    )?;
    Ok(StoredOutboundDelivery { outbox, attempt: next })
}

/// Settles the pending attempts of a session whose messages the peer refused.
pub fn settle_rejected_pending_attempts(
    deliveries: Vec<StoredOutboundDelivery>,
    changed_at: i64,
) -> (r: Result<Vec<StoredOutboundDelivery>, StoreError>)
    ensures
        error::fault(r) == first_fault(deliveries@, settle_step(changed_at)),
        r matches Ok(after) ==> all_made(deliveries@, settle_step(changed_at), after@),
{
    let ghost before = deliveries@;
    let ghost step = settle_step(changed_at);
    let mut out: Vec<StoredOutboundDelivery> = Vec::new();
    for delivery in it: deliveries
        invariant
            it.seq() == before,
            step == settle_step(changed_at),
            all_made(before.take(it.index()), step, out@),
            first_fault(before.take(it.index()), step) is None,
    {
        let ghost longer = before.take(it.index() + 1);
        assert(delivery == before[it.index()]);
        assert(longer.drop_last() =~= before.take(it.index()));
        match settle_one(delivery, changed_at) {
            Ok(after) => {
                out.push(after);
            },
            Err(error) => {
                proof {
                    first_fault_of_prefix(before, step, it.index() + 1);
                }
                return Err(error);
            },
        }
    }
    assert(before.take(before.len() as int) =~= before);
    Ok(out)
}

/// Calls off the messages of a session that were not yet written.
pub fn cancel_session_pending_deliveries(
    deliveries: Vec<StoredOutboundDelivery>,
    changed_at: i64,
    error: &str,
) -> (r: Result<Vec<StoredOutboundDelivery>, StoreError>)
    ensures
        error::fault(r) == first_fault(deliveries@, cancel_step(changed_at, error@)),
        r matches Ok(after) ==> all_made(deliveries@, cancel_step(changed_at, error@), after@),
{
    let ghost before = deliveries@;
    let ghost step = cancel_step(changed_at, error@);
    let mut out: Vec<StoredOutboundDelivery> = Vec::new();
    for delivery in it: deliveries
        invariant
            it.seq() == before,
            step == cancel_step(changed_at, error@),
            all_made(before.take(it.index()), step, out@),
            first_fault(before.take(it.index()), step) is None,
    {
        let ghost longer = before.take(it.index() + 1);
        assert(delivery == before[it.index()]);
        assert(longer.drop_last() =~= before.take(it.index()));
        match cancel_one(delivery, changed_at, error) {
            Ok(after) => {
                out.push(after);
            },
            Err(error) => {
                proof {
                    first_fault_of_prefix(before, step, it.index() + 1);
                }
                return Err(error);
            },
        }
    }
    assert(before.take(before.len() as int) =~= before);
    Ok(out)
}

/// Puts in doubt the attempts of a session whose messages may have reached the
/// peer.
pub fn unconfirm_session_attempts(
    deliveries: Vec<StoredOutboundDelivery>,
    changed_at: i64,
    error: &str,
) -> (r: Result<Vec<StoredOutboundDelivery>, StoreError>)
    ensures
        error::fault(r) == first_fault(deliveries@, unconfirm_step(changed_at, error@)),
        r matches Ok(after) ==> all_made(deliveries@, unconfirm_step(changed_at, error@), after@),
{
    let ghost before = deliveries@;
    let ghost step = unconfirm_step(changed_at, error@);
    let mut out: Vec<StoredOutboundDelivery> = Vec::new();
    for delivery in it: deliveries
        invariant
            it.seq() == before,
            step == unconfirm_step(changed_at, error@),
            all_made(before.take(it.index()), step, out@),
            first_fault(before.take(it.index()), step) is None,
    {
        let ghost longer = before.take(it.index() + 1);
        assert(delivery == before[it.index()]);
        assert(longer.drop_last() =~= before.take(it.index()));
        match unconfirm_one(delivery, changed_at, error) {
            Ok(after) => {
                out.push(after);
            },
            Err(error) => {
                proof {
                    first_fault_of_prefix(before, step, it.index() + 1);
                }
                return Err(error);
            },
        }
    }
    assert(before.take(before.len() as int) =~= before);
    Ok(out)
}

/// A message that the peer accepted stays accepted: neither the end of a write
/// nor another answer changes it.
pub proof fn accepted_stays_accepted(
    outbox: StoredWireOutbox,
    attempt: StoredDeliveryAttempt,
    completion: CompleteTransportWrite,
    result: TransportWriteResult,
    update: TransportAckUpdate,
)
    requires
        outbox.status is Acked,
    ensures
        finished_write(outbox, attempt, completion, result) matches DeliveryStep::Moved {
            outbox: step,
            ..
        } ==> step is None,
        !(acknowledged(outbox, update) is Moved),
{
}

/// An attempt whose command the peer holds stays so: neither the end of a
/// write, nor silence, nor another word of the peer changes it.
pub proof fn received_stays_received(
    outbox: StoredWireOutbox,
    attempt: StoredDeliveryAttempt,
    completion: CompleteTransportWrite,
    result: TransportWriteResult,
    sent: Option<StoredWireOutbox>,
    timeout: DeliveryAttemptTimeout,
    update: CommandReceivedAttemptUpdate,
)
    requires
        attempt.status is Acked,
    ensures
        finished_write(outbox, attempt, completion, result) matches DeliveryStep::Moved {
            attempt: step,
            ..
        } ==> step is None,
        !(timed_out(attempt, sent, timeout) is Moved),
        !(received(attempt, update) is Moved),
{
}

/// What begins with the mark of a refusal is a refusal.
proof fn durable_reason_is_a_refusal(reason: Seq<char>)
    ensures
        text::begins_with(durable_reason(reason), TRANSPORT_ACK_REJECTED_PREFIX@),
{
    let mark = TRANSPORT_ACK_REJECTED_PREFIX@;
    assert(durable_reason(reason).take(mark.len() as int) =~= mark);
}

/// The same answer twice counts once.
pub proof fn answer_counts_once(
    outbox: StoredWireOutbox,
    update: TransportAckUpdate,
    after: StoredWireOutbox,
)
    requires
        outbox_decided(outbox, acknowledged(outbox, update), after),
    ensures
        acknowledged(after, update) is Kept,
{
    if update.reason is Some {
        durable_reason_is_a_refusal(update.reason->0@);
    }
}

/// Once a peer has accepted a message it cannot refuse it, and once it has
/// refused it, it cannot accept it.
pub proof fn answers_exclude_each_other(
    outbox: StoredWireOutbox,
    first: TransportAckUpdate,
    after: StoredWireOutbox,
    second: TransportAckUpdate,
)
    requires
        outbox_decided(outbox, acknowledged(outbox, first), after),
        (first.status is Rejected) != (second.status is Rejected),
    ensures
        acknowledged(after, second) is Refused,
{
    if first.reason is Some {
        durable_reason_is_a_refusal(first.reason->0@);
    }
}

/// A message is claimed at most once: a claimed or called-off delivery refuses
/// every further claim.
pub proof fn claimed_at_most_once(
    outbox: StoredWireOutbox,
    attempt: StoredDeliveryAttempt,
    session: StoredSessionRecord,
    expires_at: Option<i64>,
    claim: ClaimWireOutbox,
    after: StoredOutboundDelivery,
    session_then: StoredSessionRecord,
    expires_then: Option<i64>,
    again: ClaimWireOutbox,
)
    requires
        step_made(
            outbox,
            attempt,
            claim_step(
                claim_verdict(outbox, attempt, session, expires_at, claim),
                claim.claimed_at,
            ),
            after,
        ),
    ensures
        claim_verdict(after.outbox, after.attempt, session_then, expires_then, again)
            == ClaimVerdict::Refused(stale_outbound_fault(again.message_id@)),
{
}

/// A write ends at most once: once its end is booked, another end changes
/// nothing.
pub proof fn write_ends_once(
    outbox: StoredWireOutbox,
    attempt: StoredDeliveryAttempt,
    completion: CompleteTransportWrite,
    result: TransportWriteResult,
    after: StoredOutboundDelivery,
    again: CompleteTransportWrite,
    another: TransportWriteResult,
)
    requires
        outbox.status is WriteStarted,
        attempt.status is Pending,
        step_made(outbox, attempt, finished_write(outbox, attempt, completion, result), after),
    ensures
        finished_write(after.outbox, after.attempt, again, another) matches DeliveryStep::Moved {
            outbox: outbox_step,
            attempt: attempt_step,
        } ==> outbox_step is None && attempt_step is None,
{
}

/// No step is dated before the record that it changes.
pub open spec fn step_goes_forward(
    outbox: StoredWireOutbox,
    attempt: StoredDeliveryAttempt,
    step: DeliveryStep,
) -> bool {
    step matches DeliveryStep::Moved { outbox: outbox_step, attempt: attempt_step } ==> {
        &&& outbox_step matches Some(step) ==> step.at >= outbox.updated_at
        &&& attempt_step matches Some(step) ==> step.at >= attempt.updated_at
    }
}

/// Time does not go back in the life of a delivery, whichever way it goes.
pub proof fn deliveries_go_forward(
    outbox: StoredWireOutbox,
    attempt: StoredDeliveryAttempt,
    completion: CompleteTransportWrite,
    result: TransportWriteResult,
    session: StoredSessionRecord,
    expires_at: Option<i64>,
    claim: ClaimWireOutbox,
    changed_at: i64,
    error: Seq<char>,
)
    ensures
        step_goes_forward(
            outbox,
            attempt,
            finished_write(outbox, attempt, completion, result),
        ),
        step_goes_forward(
            outbox,
            attempt,
            claim_step(
                claim_verdict(outbox, attempt, session, expires_at, claim),
                claim.claimed_at,
            ),
        ),
        step_goes_forward(
            outbox,
            attempt,
            settle_step(changed_at)(StoredOutboundDelivery { outbox, attempt }),
        ),
        step_goes_forward(
            outbox,
            attempt,
            cancel_step(changed_at, error)(StoredOutboundDelivery { outbox, attempt }),
        ),
        step_goes_forward(
            outbox,
            attempt,
            unconfirm_step(changed_at, error)(StoredOutboundDelivery { outbox, attempt }),
        ),
{
}

/// Time does not go back in what a peer says about a message or a command.
pub proof fn answers_go_forward(
    outbox: StoredWireOutbox,
    update: TransportAckUpdate,
    attempt: StoredDeliveryAttempt,
    word: CommandReceivedAttemptUpdate,
    sent: Option<StoredWireOutbox>,
    timeout: DeliveryAttemptTimeout,
)
    ensures
        acknowledged(outbox, update) matches OutboxDecision::Moved(step) ==> step.at
            >= outbox.updated_at && (step.acked_at matches Some(acked_at) ==> step.sent_at
            matches Some(sent_at) && sent_at <= acked_at <= step.at),
        received(attempt, word) matches AttemptDecision::Moved(step) ==> step.at
            >= attempt.updated_at,
        timed_out(attempt, sent, timeout) matches AttemptDecision::Moved(step) ==> step.at
            >= attempt.updated_at,
{
}

/// The peer refused the message while its attempt is pending.
pub open spec fn refused_while_pending(delivery: StoredOutboundDelivery) -> bool {
    delivery.outbox.status is Failed && delivery.attempt.status is Pending && refused_by_peer(
        delivery.outbox,
    )
}

/// The message was not yet written.
pub open spec fn not_yet_written(delivery: StoredOutboundDelivery) -> bool {
    delivery.outbox.status is Pending && delivery.attempt.status is Pending
}

/// The message may have reached the peer.
pub open spec fn may_have_arrived(delivery: StoredOutboundDelivery) -> bool {
    ||| delivery.attempt.status is Sent && !(delivery.outbox.status is Failed)
    ||| delivery.attempt.status is Pending && (delivery.outbox.status is WriteStarted
        || delivery.outbox.status is Sent || delivery.outbox.status is Acked)
}

/// The end of a session treats a delivery in at most one way, and what it has
/// treated it does not treat again.
pub proof fn ends_treat_a_delivery_once(
    delivery: StoredOutboundDelivery,
    changed_at: i64,
    error: Seq<char>,
    after: StoredOutboundDelivery,
)
    ensures
        !(refused_while_pending(delivery) && not_yet_written(delivery)),
        !(refused_while_pending(delivery) && may_have_arrived(delivery)),
        !(not_yet_written(delivery) && may_have_arrived(delivery)),
        refused_while_pending(delivery) && step_made(
            delivery.outbox,
            delivery.attempt,
            settle_step(changed_at)(delivery),
            after,
        ) ==> !refused_while_pending(after) && !not_yet_written(after) && !may_have_arrived(after),
        not_yet_written(delivery) && step_made(
            delivery.outbox,
            delivery.attempt,
            cancel_step(changed_at, error)(delivery),
            after,
        ) ==> !refused_while_pending(after) && !not_yet_written(after) && !may_have_arrived(after),
        may_have_arrived(delivery) && step_made(
            delivery.outbox,
            delivery.attempt,
            unconfirm_step(changed_at, error)(delivery),
            after,
        ) ==> !refused_while_pending(after) && !not_yet_written(after) && !may_have_arrived(after),
{
}

/// When a claim is answered how. It is heard at all only if message and attempt
/// are pending at the revisions that it names and it is not dated before them. A
/// session that is not active, or that was last heard of before the time asked
/// for, is unavailable, whatever else holds; its last heartbeat counts, or its
/// connection where it sent none. Beyond that a command is claimed only with a
/// synced clock and before it runs out.
pub proof fn claims_need_a_live_session(
    outbox: StoredWireOutbox,
    attempt: StoredDeliveryAttempt,
    session: StoredSessionRecord,
    expires_at: Option<i64>,
    claim: ClaimWireOutbox,
)
    ensures
        ({
            let verdict = claim_verdict(outbox, attempt, session, expires_at, claim);
            let heard = outbox.status is Pending && attempt.status is Pending && outbox.revision
                == claim.expected_outbox_revision && attempt.revision
                == claim.expected_attempt_revision && claim.claimed_at >= outbox.updated_at
                && claim.claimed_at >= attempt.updated_at;
            let live = session.status is Active && match session.last_heartbeat_at {
                Some(at) => at >= claim.fresh_after,
                None => session.connected_at >= claim.fresh_after,
            };
            let synced = session.clock_sync_status is Some && (session.clock_sync_status->0)@
                == "SYNCED"@;
            let command = attempt.subject is ExecutionCommand;
            &&& !heard ==> verdict is Refused
            &&& verdict == ClaimVerdict::Decided(ClaimKind::SessionUnavailable) <==> heard && !live
            &&& verdict == ClaimVerdict::Decided(ClaimKind::ClockUnhealthy) <==> heard && live
                && claim.require_synced_clock && !synced
            &&& verdict == ClaimVerdict::Decided(ClaimKind::Expired) <==> heard && live && command
                && claim.require_synced_clock && synced && (expires_at matches Some(at)
                && claim.claimed_at >= at)
            &&& verdict == ClaimVerdict::Decided(ClaimKind::Claimed) <==> heard && live && (
            claim.require_synced_clock ==> synced) && (command ==> claim.require_synced_clock && (
            expires_at matches Some(at) && claim.claimed_at < at))
        }),
{
}

/// What a claim leaves behind. A claimed message is being written and its
/// attempt pending; any other answer calls both off and says why. Nothing else
/// about them changes but their revision and time.
pub proof fn claims_start_or_call_off(
    outbox: StoredWireOutbox,
    attempt: StoredDeliveryAttempt,
    at: i64,
    outcome: OutboxClaimOutcome,
)
    requires
        outbox.revision < u64::MAX,
        attempt.revision < u64::MAX,
        step_made(
            outbox,
            attempt,
            claim_step(ClaimVerdict::Decided(claim_kind(outcome)), at),
            claimed_delivery(outcome),
        ),
    ensures
        ({
            let delivery = match outcome {
                OutboxClaimOutcome::Claimed(delivery) => delivery,
                OutboxClaimOutcome::Expired(delivery) => delivery,
                OutboxClaimOutcome::SessionUnavailable(delivery) => delivery,
                OutboxClaimOutcome::ClockUnhealthy(delivery) => delivery,
            };
            let said = |outbox: Option<String>, attempt: Option<String>, reason: Seq<char>|
                outbox is Some && attempt is Some && (outbox->0)@ == reason && (attempt->0)@
                    == reason;
            &&& delivery.outbox.message_id == outbox.message_id
            &&& delivery.outbox.session_id == outbox.session_id
            &&& delivery.outbox.payload == outbox.payload
            &&& delivery.outbox.sequence == outbox.sequence
            &&& delivery.outbox.revision == outbox.revision + 1
            &&& delivery.outbox.updated_at == at
            &&& delivery.outbox.sent_at is None && delivery.outbox.acked_at is None
            &&& delivery.attempt.attempt_id == attempt.attempt_id
            &&& delivery.attempt.subject == attempt.subject
            &&& delivery.attempt.revision == attempt.revision + 1
            &&& delivery.attempt.updated_at == at
            &&& delivery.attempt.acked_at is None
            &&& outcome is Claimed ==> delivery.outbox.status is WriteStarted
                && delivery.attempt.status is Pending && delivery.outbox.last_error is None
                && delivery.attempt.error is None
            &&& outcome is SessionUnavailable ==> delivery.outbox.status is Cancelled
                && delivery.attempt.status is NoActiveSession && said(
                delivery.outbox.last_error,
                delivery.attempt.error,
                "SESSION_UNAVAILABLE"@,
            )
            &&& outcome is ClockUnhealthy ==> delivery.outbox.status is Cancelled
                && delivery.attempt.status is NoActiveSession && said(
                delivery.outbox.last_error,
                delivery.attempt.error,
                "CLOCK_UNHEALTHY"@,
            )
            &&& outcome is Expired ==> delivery.outbox.status is Cancelled
                && delivery.attempt.status is Cancelled && said(
                delivery.outbox.last_error,
                delivery.attempt.error,
                "COMMAND_EXPIRED"@,
            )
        }),
{
}

/// What the end of a write leaves behind, where the write was under way and
/// nobody answered the message: what was sent is sent, what met backpressure or
/// failed has failed, and what is unconfirmed is in doubt.
pub proof fn writes_end_as_they_ended(
    outbox: StoredWireOutbox,
    attempt: StoredDeliveryAttempt,
    completion: CompleteTransportWrite,
    result: TransportWriteResult,
    after: StoredOutboundDelivery,
)
    requires
        outbox.status is WriteStarted,
        attempt.status is Pending,
        step_made(outbox, attempt, finished_write(outbox, attempt, completion, result), after),
    ensures
        outbox.revision == completion.expected_outbox_revision,
        attempt.revision == completion.expected_attempt_revision,
        completion.completed_at >= outbox.updated_at,
        completion.completed_at >= attempt.updated_at,
        after.outbox.updated_at == completion.completed_at,
        after.attempt.updated_at == completion.completed_at,
        after.outbox.acked_at is None && after.attempt.acked_at is None,
        result is Sent ==> after.outbox.status is Sent && after.attempt.status is Sent
            && after.outbox.sent_at == Some(completion.completed_at) && completion.error is None
            && after.outbox.last_error is None && after.attempt.error is None,
        result is Backpressure ==> after.outbox.status is Failed
            && after.attempt.status is Backpressure,
        result is Failed ==> after.outbox.status is Failed && after.attempt.status is Failed,
        result is Unconfirmed ==> after.outbox.status is WriteStarted
            && after.attempt.status is Unconfirmed,
        !(result is Sent) ==> {
            &&& completion.error is Some && !text::blank((completion.error->0)@)
            &&& after.outbox.sent_at is None
            &&& after.outbox.last_error is Some && (after.outbox.last_error->0)@ == (
            completion.error->0)@
            &&& after.attempt.error is Some && (after.attempt.error->0)@ == (completion.error->0)@
        },
{
}

/// A write that is under way can be ended by whoever holds its revisions.
pub proof fn writes_under_way_can_end(
    outbox: StoredWireOutbox,
    attempt: StoredDeliveryAttempt,
    completion: CompleteTransportWrite,
    result: TransportWriteResult,
)
    requires
        outbox.status is WriteStarted,
        attempt.status is Pending,
        outbox.revision == completion.expected_outbox_revision,
        attempt.revision == completion.expected_attempt_revision,
        completion.completed_at >= outbox.updated_at,
        completion.completed_at >= attempt.updated_at,
        result is Sent ==> completion.error is None,
        !(result is Sent) ==> completion.error is Some && !text::blank((completion.error->0)@),
    ensures
        finished_write(outbox, attempt, completion, result) is Moved,
{
}

/// Once somebody answered, the end of the write no longer decides: an accepted
/// message stays accepted and a refused one refused, and an attempt that counted
/// as not sent counts as sent.
pub proof fn answers_outlast_the_write(
    outbox: StoredWireOutbox,
    attempt: StoredDeliveryAttempt,
    completion: CompleteTransportWrite,
    result: TransportWriteResult,
    after: StoredOutboundDelivery,
)
    requires
        step_made(outbox, attempt, finished_write(outbox, attempt, completion, result), after),
    ensures
        attempt.status is Unconfirmed ==> after.outbox == outbox && after.attempt == attempt,
        outbox.status is Acked ==> {
            &&& after.outbox == outbox
            &&& attempt.status is Pending || attempt.status is Failed
                || attempt.status is Backpressure ==> after.attempt.status is Sent
                && after.attempt.error is None && after.attempt.updated_at >= attempt.updated_at
                && after.attempt.updated_at >= completion.completed_at
            &&& attempt.status is Sent || attempt.status is Acked ==> after.attempt == attempt
        },
        outbox.status is Failed && attempt.status is Failed ==> after.outbox == outbox
            && after.attempt == attempt,
        outbox.status is Failed && attempt.status is Acked ==> after.outbox == outbox
            && after.attempt == attempt,
        outbox.status is WriteStarted && attempt.status is Acked ==> after.attempt == attempt
            && after.outbox.status is Sent && after.outbox.sent_at == Some(completion.completed_at)
            && after.outbox.updated_at >= outbox.updated_at && after.outbox.updated_at
            >= completion.completed_at,
        outbox.status is Failed && attempt.status is Pending ==> {
            &&& outbox.last_error is Some && text::begins_with(
                (outbox.last_error->0)@,
                "TRANSPORT_ACK_REJECTED:"@,
            )
            &&& after.outbox == outbox
            &&& after.attempt.status is Sent
        },
        outbox.status is Pending || outbox.status is Cancelled ==> attempt.status is Unconfirmed,
{
}

/// What a peer's answer does to a message that is on its way: accepted, it is
/// acknowledged; refused, it has failed for the reason given. It is dated no
/// earlier than the message.
pub proof fn answers_are_recorded(
    outbox: StoredWireOutbox,
    update: TransportAckUpdate,
    after: StoredWireOutbox,
)
    requires
        outbox_decided(outbox, acknowledged(outbox, update), after),
    ensures
        outbox.session_id is Some && (outbox.session_id->0)@ == update.session_id@,
        outbox.message_type@ == update.message_type@,
        !(update.status is Rejected) ==> after.status is Acked && !(outbox.status is Pending)
            && !(outbox.status is Cancelled),
        !(update.status is Rejected) && !(outbox.status is Acked) ==> {
            &&& after.last_error is None
            &&& after.sent_at == (if outbox.sent_at is Some {
                outbox.sent_at
            } else {
                Some(update.acked_at)
            })
            &&& after.acked_at matches Some(at) && at >= update.acked_at && at >= after.sent_at->0
                && (at == update.acked_at || at == after.sent_at->0) && after.updated_at >= at
            &&& after.updated_at >= outbox.updated_at
        },
        outbox.status is Acked ==> after == outbox,
        update.status is Rejected ==> {
            &&& !(outbox.status is Acked)
            &&& update.reason is Some && !text::blank((update.reason->0)@)
            &&& after.last_error is Some && (after.last_error->0)@ == "TRANSPORT_ACK_REJECTED:"@ + (
            update.reason->0)@
        },
        update.status is Rejected && !(outbox.last_error is Some && text::begins_with(
            (outbox.last_error->0)@,
            "TRANSPORT_ACK_REJECTED:"@,
        )) ==> {
            &&& after.status is Failed
            &&& outbox.status is WriteStarted || outbox.status is Sent || outbox.status is Failed
            &&& after.acked_at is None
            &&& after.updated_at >= outbox.updated_at && after.updated_at >= update.acked_at
        },
        update.status is Rejected && outbox.last_error is Some && text::begins_with(
            (outbox.last_error->0)@,
            "TRANSPORT_ACK_REJECTED:"@,
        ) ==> after == outbox,
{
}

/// A message that is on its way takes the first answer that it gets.
pub proof fn messages_on_their_way_can_be_answered(
    outbox: StoredWireOutbox,
    update: TransportAckUpdate,
)
    requires
        outbox.session_id is Some && (outbox.session_id->0)@ == update.session_id@,
        outbox.message_type@ == update.message_type@,
        outbox.status is WriteStarted || outbox.status is Sent || outbox.status is Failed,
        !(outbox.last_error is Some && text::begins_with(
            (outbox.last_error->0)@,
            "TRANSPORT_ACK_REJECTED:"@,
        )),
        update.status is Rejected ==> update.reason is Some && !text::blank((update.reason->0)@),
    ensures
        acknowledged(outbox, update) is Moved,
{
}

/// A peer's word that it holds a command counts for the attempt that sent it
/// over the peer's session, unless that attempt was called off, and never before
/// the attempt.
pub proof fn received_commands_are_recorded(
    attempt: StoredDeliveryAttempt,
    update: CommandReceivedAttemptUpdate,
    after: StoredDeliveryAttempt,
)
    requires
        attempt_decided(attempt, received(attempt, update), after),
    ensures
        attempt.session_id is Some && (attempt.session_id->0)@ == update.session_id@,
        attempt.subject is ExecutionCommand && (attempt.subject->ExecutionCommand_0)@
            == update.command_id@,
        after.status is Acked,
        attempt.status is Acked ==> after == attempt,
        !(attempt.status is Acked) ==> {
            &&& !(attempt.status is NoActiveSession) && !(attempt.status is Cancelled)
            &&& update.received_at >= attempt.attempted_at
            &&& after.acked_at == Some(update.received_at)
            &&& after.error is None
            &&& after.updated_at >= attempt.updated_at && after.updated_at >= update.received_at
        },
{
}

/// Every attempt that was not called off takes the peer's word.
pub proof fn attempts_take_the_word_of_their_peer(
    attempt: StoredDeliveryAttempt,
    update: CommandReceivedAttemptUpdate,
)
    requires
        attempt.session_id is Some && (attempt.session_id->0)@ == update.session_id@,
        attempt.subject is ExecutionCommand && (attempt.subject->ExecutionCommand_0)@
            == update.command_id@,
        !(attempt.status is NoActiveSession) && !(attempt.status is Cancelled),
        update.received_at >= attempt.attempted_at,
    ensures
        !(received(attempt, update) is Refused),
{
}

/// Silence puts a command that was sent in doubt, and nothing else: an attempt
/// that was answered, refused or in doubt already stays as it is, and any other
/// is refused.
pub proof fn silence_puts_sent_commands_in_doubt(
    attempt: StoredDeliveryAttempt,
    outbox: Option<StoredWireOutbox>,
    timeout: DeliveryAttemptTimeout,
    after: StoredDeliveryAttempt,
)
    requires
        attempt_decided(attempt, timed_out(attempt, outbox, timeout), after),
    ensures
        attempt.subject is ExecutionCommand,
        !text::blank(timeout.error@),
        attempt.status is Unconfirmed || attempt.status is Acked || attempt.status is Sent,
        !(attempt.status is Sent) ==> after == attempt,
        attempt.status is Sent ==> outbox is Some && (if outbox->0.status is Failed
            && outbox->0.last_error is Some && text::begins_with(
            (outbox->0.last_error->0)@,
            "TRANSPORT_ACK_REJECTED:"@,
        ) {
            after == attempt
        } else {
            &&& attempt.revision == timeout.expected_revision
            &&& timeout.timed_out_at >= attempt.updated_at
            &&& after.status is Unconfirmed
            &&& after.updated_at == timeout.timed_out_at
            &&& after.error is Some && (after.error->0)@ == timeout.error@
        }),
{
}

/// What the end of a session does to what it leaves open: a message that was not
/// written is called off, one that may have arrived is in doubt, and an attempt
/// whose message was refused counts as sent.
pub proof fn session_ends_treat_their_deliveries(
    before: Seq<StoredOutboundDelivery>,
    at: i64,
    error: Seq<char>,
    after: Seq<StoredOutboundDelivery>,
    i: int,
)
    requires
        0 <= i < before.len(),
    ensures
        all_made(before, cancel_step(at, error), after) ==> {
            &&& at >= before[i].outbox.updated_at && at >= before[i].attempt.updated_at
            &&& after[i].outbox.status is Cancelled && after[i].attempt.status is Cancelled
            &&& after[i].outbox.updated_at == at && after[i].attempt.updated_at == at
            &&& after[i].outbox.last_error is Some && (after[i].outbox.last_error->0)@ == error
            &&& after[i].attempt.error is Some && (after[i].attempt.error->0)@ == error
            &&& after[i].outbox.message_id == before[i].outbox.message_id
        },
        all_made(before, unconfirm_step(at, error), after) ==> {
            &&& at >= before[i].attempt.updated_at
            &&& after[i].outbox == before[i].outbox
            &&& after[i].attempt.status is Unconfirmed
            &&& after[i].attempt.updated_at == at
            &&& after[i].attempt.error is Some && (after[i].attempt.error->0)@ == error
        },
        all_made(before, settle_step(at), after) ==> {
            &&& after[i].outbox == before[i].outbox
            &&& before[i].outbox.last_error is Some && text::begins_with(
                (before[i].outbox.last_error->0)@,
                "TRANSPORT_ACK_REJECTED:"@,
            )
            &&& after[i].attempt.status is Sent
            &&& after[i].attempt.error is None
            &&& after[i].attempt.updated_at >= before[i].attempt.updated_at
            &&& after[i].attempt.updated_at >= at
        },
{
    let seen = after[i];
    if all_made(before, cancel_step(at, error), after) {
        assert(step_made(
            before[i].outbox,
            before[i].attempt,
            cancel_step(at, error)(before[i]),
            after[i],
        ));
    }
    if all_made(before, unconfirm_step(at, error), after) {
        assert(step_made(
            before[i].outbox,
            before[i].attempt,
            unconfirm_step(at, error)(before[i]),
            after[i],
        ));
    }
    if all_made(before, settle_step(at), after) {
        assert(step_made(
            before[i].outbox,
            before[i].attempt,
            settle_step(at)(before[i]),
            after[i],
        ));
    }
}

/// A peer that says it received a command is taken at its word if the command was
/// sent to it over that session and the attempt was not given up; it received it
/// no earlier than it was sent, and what was noted stays.
pub proof fn receipts_are_taken_from_the_one_it_was_sent_to(
    attempt: StoredDeliveryAttempt,
    update: CommandReceivedAttemptUpdate,
)
    ensures
        ({
            let meant = attempt.session_id is Some && (attempt.session_id->0)@
                == update.session_id@ && attempt.subject.command() == Some(update.command_id@);
            let over = attempt.status is NoActiveSession || attempt.status is Cancelled;
            let decision = received(attempt, update);
            &&& !meant ==> decision is Refused
            &&& meant && attempt.status is Acked ==> decision is Kept
            &&& meant && over ==> decision is Refused
            &&& meant && !over && !(attempt.status is Acked) && update.received_at
                < attempt.attempted_at ==> decision is Refused
            &&& meant && !over && !(attempt.status is Acked) && update.received_at
                >= attempt.attempted_at ==> {
                &&& decision is Moved
                &&& decision->Moved_0.status is Acked
                &&& decision->Moved_0.acked_at == Some(update.received_at)
                &&& decision->Moved_0.error is None
                &&& update.received_at >= attempt.updated_at ==> decision->Moved_0.at
                    == update.received_at
                &&& update.received_at < attempt.updated_at ==> decision->Moved_0.at
                    == attempt.updated_at
            }
        }),
{
}

/// What is done to the deliveries of a session is done to each of them, one by
/// one, in their order; none is lost and none is added, and each stays the same
/// message and the same attempt.
pub proof fn deliveries_are_treated_one_by_one(
    before: Seq<StoredOutboundDelivery>,
    step: spec_fn(StoredOutboundDelivery) -> DeliveryStep,
    after: Seq<StoredOutboundDelivery>,
)
    requires
        all_made(before, step, after),
    ensures
        after.len() == before.len(),
        forall|i: int|
            0 <= i < before.len() ==> (#[trigger] after[i]).outbox.message_id
                == before[i].outbox.message_id && after[i].attempt.attempt_id
                == before[i].attempt.attempt_id && after[i].outbox.payload
                == before[i].outbox.payload && after[i].attempt.subject
                == before[i].attempt.subject && step(before[i]) is Moved,
{
    assert forall|i: int| 0 <= i < before.len() implies (#[trigger] after[i]).outbox.message_id
        == before[i].outbox.message_id && after[i].attempt.attempt_id
        == before[i].attempt.attempt_id && after[i].outbox.payload == before[i].outbox.payload
        && after[i].attempt.subject == before[i].attempt.subject && step(before[i]) is Moved by {
        assert(step_made(before[i].outbox, before[i].attempt, step(before[i]), after[i]));
    }
}

}
