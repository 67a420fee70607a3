use sinan_store::attempts::{
    delivery_attempt_from_row, enqueue_reserved_delivery, join_delivery, new_attempt_record,
    resolve_attempt_replay, same_attempt, validate_new_attempt, validate_stored_attempt,
    AttemptSurroundings, DeliveryAttemptRow,
};
use sinan_store::columns::{EnumColumn, JsonColumns};
use sinan_store::deliveries::{
    cancel_session_pending_deliveries, claim_outbox, finish_transport_write, outbox_session,
    record_command_received_attempt, record_transport_ack, settle_rejected_pending_attempts,
    timeout_delivery_attempt, unconfirm_session_attempts, TransportWriteResult,
};
use sinan_store::domain::{
    CommandDeliveryAttemptStatus, SessionStatus, TransportAckStatus, WireOutboxStatus,
};
use sinan_store::error::StoreError;
use sinan_store::json::CanonicalJson;
use sinan_store::model::{
    ClaimWireOutbox, CommandReceivedAttemptUpdate, CompleteTransportWrite,
    DeliveryAttemptTimeout, DeliverySubject, NewDeliveryAttempt, NewReservedDelivery,
    NewSessionRecord, OutboxClaimOutcome, ReserveOutboundSequence, SequenceReservation,
    SessionHeartbeatUpdate, SessionRouteQuery, SessionRouteResolution, SessionStatusUpdate,
    StoredDeliveryAttempt, StoredOutboundDelivery, StoredSessionRecord, StoredWireOutbox,
    TransportAckUpdate, WriteOutcome,
};
use sinan_store::selection::{
    count_inflight, list_pending_outbox, pick, text_begins_like, LeftOpen, OpenDeliveries,
    PendingMessages, TracedAttempt,
};
use sinan_store::sessions::{
    close_session, fence_active_sessions, fence_interrupted_writes, plan_session_replacement,
    reserve_outbound_sequence, resolve_session_replay, resolve_session_route, session_from_row,
    supersede_session, update_session_heartbeat, validate_new_active_session,
    validate_subject_route, FenceTally, InterruptedSession, InterruptedWrite, SessionDeliveries,
    SessionRow, SubjectRoute,
};

fn text(value: &str) -> String {
    value.to_string()
}

fn json(value: &str) -> CanonicalJson {
    CanonicalJson::parse(value).unwrap()
}

fn new_session() -> NewSessionRecord {
    NewSessionRecord {
        session_id: text("s1"),
        client_id: text("c1"),
        account_id: text("a1"),
        terminal_id: Some(text("t1")),
        platform: text("MT5"),
        status: SessionStatus::Active,
        capabilities: json("{}"),
        remote_addr: None,
        connected_at: 100,
        last_heartbeat_at: None,
        last_time_sync_at: Some(100),
        clock_sync_status: Some(text("SYNCED")),
        disconnected_at: None,
        max_inflight_commands: 2,
        updated_at: 100,
    }
}

fn session() -> StoredSessionRecord {
    let new = new_session();
    StoredSessionRecord {
        session_id: new.session_id,
        client_id: new.client_id,
        account_id: new.account_id,
        terminal_id: new.terminal_id,
        platform: new.platform,
        status: new.status,
        capabilities: new.capabilities,
        remote_addr: new.remote_addr,
        connected_at: new.connected_at,
        last_heartbeat_at: new.last_heartbeat_at,
        last_time_sync_at: new.last_time_sync_at,
        clock_sync_status: new.clock_sync_status,
        disconnected_at: new.disconnected_at,
        revision: 1,
        updated_at: new.updated_at,
        last_outbound_sequence: 0,
        max_inflight_commands: new.max_inflight_commands,
    }
}

fn command() -> DeliverySubject {
    DeliverySubject::ExecutionCommand(text("cmd1"))
}

fn outbox(status: WireOutboxStatus) -> StoredWireOutbox {
    StoredWireOutbox {
        message_id: text("m1"),
        session_id: Some(text("s1")),
        message_type: text("execution.command"),
        sequence: Some(1),
        command_id: Some(text("cmd1")),
        request_id: None,
        payload: json("{}"),
        status,
        revision: 1,
        created_at: 200,
        updated_at: 200,
        sent_at: None,
        acked_at: None,
        last_error: None,
    }
}

fn attempt(status: CommandDeliveryAttemptStatus) -> StoredDeliveryAttempt {
    StoredDeliveryAttempt {
        attempt_id: text("at1"),
        subject: command(),
        session_id: Some(text("s1")),
        message_id: Some(text("m1")),
        request_payload: None,
        status,
        attempted_at: 200,
        acked_at: None,
        error: None,
        revision: 1,
        updated_at: 200,
    }
}

fn delivery(
    of_outbox: WireOutboxStatus,
    of_attempt: CommandDeliveryAttemptStatus,
) -> StoredOutboundDelivery {
    StoredOutboundDelivery { outbox: outbox(of_outbox), attempt: attempt(of_attempt) }
}

fn refused(of_attempt: CommandDeliveryAttemptStatus) -> StoredOutboundDelivery {
    let mut found = delivery(WireOutboxStatus::Failed, of_attempt);
    found.outbox.last_error = Some(text("TRANSPORT_ACK_REJECTED:BAD"));
    found
}

fn claim() -> ClaimWireOutbox {
    ClaimWireOutbox {
        message_id: text("m1"),
        expected_outbox_revision: 1,
        expected_attempt_revision: 1,
        fresh_after: 50,
        require_synced_clock: true,
        claimed_at: 210,
    }
}

fn completion(error: Option<&str>) -> CompleteTransportWrite {
    CompleteTransportWrite {
        message_id: text("m1"),
        expected_outbox_revision: 1,
        expected_attempt_revision: 1,
        completed_at: 220,
        error: error.map(text),
    }
}

fn ack(status: TransportAckStatus, reason: Option<&str>) -> TransportAckUpdate {
    TransportAckUpdate {
        message_id: text("m1"),
        session_id: text("s1"),
        message_type: text("execution.command"),
        status,
        reason: reason.map(text),
        acked_at: 230,
    }
}

fn route() -> Option<SubjectRoute> {
    Some(SubjectRoute {
        account_id: text("a1"),
        client_id: Some(text("c1")),
        terminal_id: None,
        expires_at: Some(1000),
    })
}

fn reserve() -> ReserveOutboundSequence {
    ReserveOutboundSequence {
        session_id: text("s1"),
        expected_revision: 1,
        subject: command(),
        fresh_after: 50,
        reserved_at: 150,
    }
}

fn is_stale<T>(result: Result<T, StoreError>) -> bool {
    matches!(result, Err(StoreError::StaleWrite { .. }))
}

fn is_conflict<T>(result: Result<T, StoreError>) -> bool {
    matches!(result, Err(StoreError::IdentityConflict { .. }))
}

fn is_invalid<T>(result: Result<T, StoreError>) -> bool {
    matches!(result, Err(StoreError::InvalidRecord { .. }))
}

#[test]
fn only_a_sound_session_becomes_active() {
    assert!(validate_new_active_session(&new_session()).is_ok());
    let mut bad = new_session();
    bad.max_inflight_commands = 0;
    assert!(is_invalid(validate_new_active_session(&bad)));
    let mut bad = new_session();
    bad.updated_at = 99;
    assert!(is_invalid(validate_new_active_session(&bad)));
    let mut bad = new_session();
    bad.status = SessionStatus::Stale;
    assert!(is_invalid(validate_new_active_session(&bad)));
    let mut bad = new_session();
    bad.last_heartbeat_at = Some(101);
    assert!(is_invalid(validate_new_active_session(&bad)));
    let mut bad = new_session();
    bad.last_time_sync_at = None;
    assert!(is_invalid(validate_new_active_session(&bad)));
}

#[test]
fn heartbeats_never_go_back() {
    let update = |heartbeat_at: i64, revision: u64| SessionHeartbeatUpdate {
        session_id: text("s1"),
        expected_revision: revision,
        heartbeat_at,
        clock_sync_status: text("SYNCED"),
        last_time_sync_at: None,
        updated_at: heartbeat_at,
    };
    let after = update_session_heartbeat(&session(), &update(120, 1)).unwrap();
    assert_eq!(after.last_heartbeat_at, Some(120));
    assert_eq!(after.last_time_sync_at, Some(100));
    assert_eq!(after.revision, 2);
    assert_eq!(after.updated_at, 120);
    assert!(is_stale(update_session_heartbeat(&after, &update(119, 2))));
    assert!(is_stale(update_session_heartbeat(&after, &update(130, 1))));
    let mut never_synced = session();
    never_synced.last_time_sync_at = None;
    never_synced.clock_sync_status = None;
    assert!(is_invalid(update_session_heartbeat(&never_synced, &update(120, 1))));
}

#[test]
fn sequence_numbers_are_set_aside_one_by_one() {
    let (answer, after) =
        reserve_outbound_sequence(&session(), &route(), 1, &reserve()).unwrap();
    match answer {
        SequenceReservation::Reserved(reservation) => {
            assert_eq!(reservation.sequence, 1);
            assert_eq!(reservation.session_revision, 2);
            assert_eq!(reservation.subject, command());
        }
        other => panic!("{other:?}"),
    }
    assert_eq!(after.last_outbound_sequence, 1);
    assert_eq!(after.revision, 2);
    assert_eq!(after.updated_at, 150);
    let mut next = reserve();
    next.expected_revision = 2;
    let (answer, later) = reserve_outbound_sequence(&after, &route(), 1, &next).unwrap();
    assert!(matches!(answer, SequenceReservation::Reserved(found) if found.sequence == 2));
    assert_eq!(later.last_outbound_sequence, 2);
}

#[test]
fn reservations_are_refused_for_their_reason() {
    let ask = |session: &StoredSessionRecord, route: &Option<SubjectRoute>, inflight: i64| {
        reserve_outbound_sequence(session, route, inflight, &reserve())
    };
    assert_eq!(
        ask(&session(), &route(), 2).unwrap().0,
        SequenceReservation::InflightLimit { session_id: text("s1"), inflight: 2, limit: 2 }
    );
    assert!(matches!(ask(&session(), &route(), -1), Err(StoreError::CorruptData { .. })));
    assert!(matches!(ask(&session(), &None, 0), Err(StoreError::NotFound { .. })));
    let mut stale = session();
    stale.status = SessionStatus::Stale;
    assert_eq!(ask(&stale, &route(), 0).unwrap().0, SequenceReservation::SessionUnavailable);
    let mut drifting = session();
    drifting.clock_sync_status = Some(text("DRIFTING"));
    assert_eq!(ask(&drifting, &route(), 0).unwrap().0, SequenceReservation::ClockUnhealthy);
    let mut late = session();
    late.updated_at = 151;
    assert!(is_stale(ask(&late, &route(), 0)));
    let mut elsewhere = route();
    elsewhere.as_mut().unwrap().account_id = text("a2");
    assert_eq!(
        ask(&session(), &elsewhere, 0).unwrap().0,
        SequenceReservation::IdentityMismatch { field: "account_id" }
    );
    let mut over = route();
    over.as_mut().unwrap().expires_at = Some(150);
    assert_eq!(ask(&session(), &over, 0).unwrap().0, SequenceReservation::Expired);
    let mut full = session();
    full.last_outbound_sequence = u64::MAX;
    assert!(ask(&full, &route(), 0).is_err());
}

#[test]
fn requests_are_not_held_up_by_the_limit() {
    let mut request = reserve();
    request.subject = DeliverySubject::ReconciliationRequest(text("r1"));
    let mut drifting = session();
    drifting.clock_sync_status = None;
    drifting.last_time_sync_at = None;
    let (answer, _) = reserve_outbound_sequence(&drifting, &route(), 9, &request).unwrap();
    assert!(matches!(answer, SequenceReservation::Reserved(_)));
    assert!(validate_subject_route(&drifting, &route(), &request).unwrap().is_none());
}

#[test]
fn what_was_set_aside_can_be_sent() {
    let (answer, after) = reserve_outbound_sequence(&session(), &route(), 0, &reserve()).unwrap();
    let reservation = match answer {
        SequenceReservation::Reserved(reservation) => reservation,
        other => panic!("{other:?}"),
    };
    let delivery = |message_type: &str, created_at: i64, session_revision: u64| {
        let (answer, _) =
            reserve_outbound_sequence(&session(), &route(), 0, &reserve()).unwrap();
        let mut held = match answer {
            SequenceReservation::Reserved(held) => held,
            other => panic!("{other:?}"),
        };
        held.session_revision = session_revision;
        NewReservedDelivery {
            reservation: held,
            attempt_id: text("at1"),
            message_id: text("m1"),
            message_type: text(message_type),
            envelope: json("{}"),
            created_at,
        }
    };
    let (outbox, attempt) =
        enqueue_reserved_delivery(&after, delivery("execution.command", 160, 2)).unwrap();
    assert_eq!(outbox.sequence, Some(reservation.sequence));
    assert_eq!(outbox.command_id, Some(text("cmd1")));
    assert_eq!(outbox.status, WireOutboxStatus::Pending);
    assert_eq!(attempt.subject, command());
    assert_eq!(attempt.status, CommandDeliveryAttemptStatus::Pending);
    assert_eq!(attempt.message_id, Some(text("m1")));
    assert!(is_stale(enqueue_reserved_delivery(&after, delivery("execution.command", 160, 1))));
    assert!(is_stale(enqueue_reserved_delivery(&after, delivery("execution.command", 149, 2))));
    assert!(is_invalid(enqueue_reserved_delivery(
        &after,
        delivery("reconciliation.request", 160, 2)
    )));
}

#[test]
fn message_and_attempt_go_together() {
    let both = join_delivery(
        WriteOutcome::Inserted(outbox(WireOutboxStatus::Pending)),
        WriteOutcome::Inserted(attempt(CommandDeliveryAttemptStatus::Pending)),
    );
    assert!(both.is_ok());
    let torn = join_delivery(
        WriteOutcome::Inserted(outbox(WireOutboxStatus::Pending)),
        WriteOutcome::Duplicate(attempt(CommandDeliveryAttemptStatus::Pending)),
    );
    assert!(is_conflict(torn));
}

#[test]
fn a_write_is_claimed_at_most_once() {
    let pending = delivery(WireOutboxStatus::Pending, CommandDeliveryAttemptStatus::Pending);
    let claimed =
        claim_outbox(&pending.outbox, &pending.attempt, &session(), Some(1000), &claim()).unwrap();
    let after = match claimed {
        OutboxClaimOutcome::Claimed(after) => after,
        other => panic!("{other:?}"),
    };
    assert_eq!(after.outbox.status, WireOutboxStatus::WriteStarted);
    assert_eq!(after.outbox.revision, 2);
    assert!(is_stale(claim_outbox(
        &after.outbox,
        &after.attempt,
        &session(),
        Some(1000),
        &claim()
    )));
}

#[test]
fn claims_are_called_off_for_their_reason() {
    let pending = delivery(WireOutboxStatus::Pending, CommandDeliveryAttemptStatus::Pending);
    let ask = |session: &StoredSessionRecord, expires_at: Option<i64>, claim: ClaimWireOutbox| {
        claim_outbox(&pending.outbox, &pending.attempt, session, expires_at, &claim)
    };
    match ask(&session(), Some(210), claim()).unwrap() {
        OutboxClaimOutcome::Expired(after) => {
            assert_eq!(after.outbox.status, WireOutboxStatus::Cancelled);
            assert_eq!(after.outbox.last_error, Some(text("COMMAND_EXPIRED")));
            assert_eq!(after.attempt.status, CommandDeliveryAttemptStatus::Cancelled);
        }
        other => panic!("{other:?}"),
    }
    let mut gone = session();
    gone.status = SessionStatus::Disconnected;
    match ask(&gone, Some(1000), claim()).unwrap() {
        OutboxClaimOutcome::SessionUnavailable(after) => {
            assert_eq!(after.attempt.status, CommandDeliveryAttemptStatus::NoActiveSession);
            assert_eq!(after.attempt.error, Some(text("SESSION_UNAVAILABLE")));
        }
        other => panic!("{other:?}"),
    }
    let mut drifting = session();
    drifting.clock_sync_status = Some(text("DRIFTING"));
    assert!(matches!(
        ask(&drifting, Some(1000), claim()).unwrap(),
        OutboxClaimOutcome::ClockUnhealthy(after)
            if after.outbox.last_error == Some(text("CLOCK_UNHEALTHY"))
    ));
    let mut careless = claim();
    careless.require_synced_clock = false;
    assert!(is_invalid(ask(&session(), Some(1000), careless)));
    let mut early = claim();
    early.claimed_at = 199;
    assert!(is_stale(ask(&session(), Some(1000), early)));
}

#[test]
fn writes_end_as_they_were_told_to() {
    let end = |result: TransportWriteResult, error: Option<&str>| {
        finish_transport_write(
            outbox(WireOutboxStatus::WriteStarted),
            attempt(CommandDeliveryAttemptStatus::Pending),
            &completion(error),
            result,
        )
    };
    let sent = end(TransportWriteResult::Sent, None).unwrap();
    assert_eq!(sent.outbox.status, WireOutboxStatus::Sent);
    assert_eq!(sent.outbox.sent_at, Some(220));
    assert_eq!(sent.attempt.status, CommandDeliveryAttemptStatus::Sent);
    let full = end(TransportWriteResult::Backpressure, Some("full")).unwrap();
    assert_eq!(full.outbox.status, WireOutboxStatus::Failed);
    assert_eq!(full.attempt.status, CommandDeliveryAttemptStatus::Backpressure);
    let failed = end(TransportWriteResult::Failed, Some("torn")).unwrap();
    assert_eq!(failed.attempt.status, CommandDeliveryAttemptStatus::Failed);
    assert_eq!(failed.attempt.error, Some(text("torn")));
    let doubtful = end(TransportWriteResult::Unconfirmed, Some("lost")).unwrap();
    assert_eq!(doubtful.attempt.status, CommandDeliveryAttemptStatus::Unconfirmed);
    assert!(is_invalid(end(TransportWriteResult::Sent, Some("why"))));
    assert!(is_invalid(end(TransportWriteResult::Failed, None)));
    assert!(is_invalid(end(TransportWriteResult::Failed, Some(" "))));
}

#[test]
fn a_refusal_settles_what_is_still_pending() {
    let found = refused(CommandDeliveryAttemptStatus::Pending);
    let after = finish_transport_write(
        found.outbox,
        found.attempt,
        &completion(None),
        TransportWriteResult::Sent,
    )
    .unwrap();
    assert_eq!(after.outbox.status, WireOutboxStatus::Failed);
    assert_eq!(after.attempt.status, CommandDeliveryAttemptStatus::Sent);
    assert_eq!(after.attempt.revision, 2);
    let again = finish_transport_write(
        after.outbox,
        after.attempt,
        &completion(None),
        TransportWriteResult::Sent,
    )
    .unwrap();
    assert_eq!(again.attempt.revision, 2);
}

#[test]
fn answers_count_once() {
    let accepted = record_transport_ack(
        outbox(WireOutboxStatus::Sent),
        &ack(TransportAckStatus::Accepted, None),
    )
    .unwrap();
    assert_eq!(accepted.status, WireOutboxStatus::Acked);
    assert_eq!(accepted.acked_at, Some(230));
    assert_eq!(accepted.revision, 2);
    let again =
        record_transport_ack(accepted, &ack(TransportAckStatus::Duplicate, None)).unwrap();
    assert_eq!(again.revision, 2);
    assert!(is_conflict(record_transport_ack(
        again,
        &ack(TransportAckStatus::Rejected, Some("BAD"))
    )));
    let rejected = record_transport_ack(
        outbox(WireOutboxStatus::WriteStarted),
        &ack(TransportAckStatus::Rejected, Some("BAD")),
    )
    .unwrap();
    assert_eq!(rejected.status, WireOutboxStatus::Failed);
    assert_eq!(rejected.last_error, Some(text("TRANSPORT_ACK_REJECTED:BAD")));
    let rejected =
        record_transport_ack(rejected, &ack(TransportAckStatus::Rejected, Some("BAD"))).unwrap();
    assert_eq!(rejected.revision, 2);
    assert!(is_conflict(record_transport_ack(
        rejected,
        &ack(TransportAckStatus::Accepted, None)
    )));
    assert!(is_invalid(record_transport_ack(
        outbox(WireOutboxStatus::Sent),
        &ack(TransportAckStatus::Rejected, None)
    )));
    assert!(is_stale(record_transport_ack(
        outbox(WireOutboxStatus::Pending),
        &ack(TransportAckStatus::Accepted, None)
    )));
    let mut stranger = ack(TransportAckStatus::Accepted, None);
    stranger.session_id = text("s2");
    assert!(is_conflict(record_transport_ack(outbox(WireOutboxStatus::Sent), &stranger)));
}

#[test]
fn a_received_command_stays_received() {
    let word = CommandReceivedAttemptUpdate {
        source_message_id: text("m1"),
        session_id: text("s1"),
        command_id: text("cmd1"),
        received_at: 240,
    };
    let after = record_command_received_attempt(
        attempt(CommandDeliveryAttemptStatus::Sent),
        &word,
    )
    .unwrap();
    assert_eq!(after.status, CommandDeliveryAttemptStatus::Acked);
    assert_eq!(after.acked_at, Some(240));
    let again = record_command_received_attempt(after, &word).unwrap();
    assert_eq!(again.revision, 2);
}

#[test]
fn silence_leaves_an_attempt_in_doubt() {
    let timeout = |revision: u64, at: i64, error: &str| DeliveryAttemptTimeout {
        attempt_id: text("at1"),
        expected_revision: revision,
        timed_out_at: at,
        error: text(error),
    };
    let sent = || attempt(CommandDeliveryAttemptStatus::Sent);
    let wire = || Some(outbox(WireOutboxStatus::Sent));
    let after = timeout_delivery_attempt(sent(), &wire(), &timeout(1, 300, "SILENT")).unwrap();
    assert_eq!(after.status, CommandDeliveryAttemptStatus::Unconfirmed);
    assert_eq!(after.error, Some(text("SILENT")));
    assert!(is_stale(timeout_delivery_attempt(sent(), &wire(), &timeout(2, 300, "SILENT"))));
    assert!(timeout_delivery_attempt(sent(), &wire(), &timeout(1, 300, "")).is_err());
}

#[test]
fn deliveries_of_an_ended_session_are_treated() {
    let settled = settle_rejected_pending_attempts(
        vec![refused(CommandDeliveryAttemptStatus::Pending)],
        300,
    )
    .unwrap();
    assert_eq!(settled[0].attempt.status, CommandDeliveryAttemptStatus::Sent);
    assert_eq!(settled[0].attempt.updated_at, 300);
    assert!(matches!(
        settle_rejected_pending_attempts(
            vec![delivery(WireOutboxStatus::Failed, CommandDeliveryAttemptStatus::Pending)],
            300
        ),
        Err(StoreError::CorruptData { .. })
    ));
    let cancelled = cancel_session_pending_deliveries(
        vec![delivery(WireOutboxStatus::Pending, CommandDeliveryAttemptStatus::Pending)],
        300,
        "GONE",
    )
    .unwrap();
    assert_eq!(cancelled[0].outbox.status, WireOutboxStatus::Cancelled);
    assert_eq!(cancelled[0].attempt.error, Some(text("GONE")));
    assert!(is_stale(cancel_session_pending_deliveries(
        vec![delivery(WireOutboxStatus::Pending, CommandDeliveryAttemptStatus::Pending)],
        199,
        "GONE",
    )));
    let doubtful = unconfirm_session_attempts(
        vec![delivery(WireOutboxStatus::Sent, CommandDeliveryAttemptStatus::Sent)],
        300,
        "GONE",
    )
    .unwrap();
    assert_eq!(doubtful[0].attempt.status, CommandDeliveryAttemptStatus::Unconfirmed);
    assert_eq!(doubtful[0].outbox.status, WireOutboxStatus::Sent);
}

#[test]
fn closing_a_session_closes_its_deliveries() {
    let touched = || SessionDeliveries {
        rejected: vec![refused(CommandDeliveryAttemptStatus::Pending)],
        pending: vec![delivery(
            WireOutboxStatus::Pending,
            CommandDeliveryAttemptStatus::Pending,
        )],
        in_doubt: vec![delivery(WireOutboxStatus::Sent, CommandDeliveryAttemptStatus::Sent)],
    };
    let update = |revision: u64, error: &str| SessionStatusUpdate {
        session_id: text("s1"),
        expected_revision: revision,
        changed_at: 400,
        delivery_error: text(error),
    };
    let end =
        close_session(&session(), touched(), &update(1, "BYE"), SessionStatus::Disconnected)
            .unwrap();
    assert_eq!(end.session.status, SessionStatus::Disconnected);
    assert_eq!(end.session.disconnected_at, Some(400));
    assert_eq!(end.session.revision, 2);
    assert_eq!(end.deliveries.rejected[0].attempt.status, CommandDeliveryAttemptStatus::Sent);
    assert_eq!(
        end.deliveries.pending[0].attempt.status,
        CommandDeliveryAttemptStatus::Cancelled
    );
    assert_eq!(
        end.deliveries.in_doubt[0].attempt.status,
        CommandDeliveryAttemptStatus::Unconfirmed
    );
    assert!(is_stale(close_session(
        &session(),
        touched(),
        &update(2, "BYE"),
        SessionStatus::Stale
    )));
    assert!(is_invalid(close_session(
        &session(),
        touched(),
        &update(1, ""),
        SessionStatus::Stale
    )));
}

#[test]
fn a_newer_session_takes_the_place_of_an_older() {
    let mut newer = new_session();
    newer.session_id = text("s2");
    newer.connected_at = 500;
    newer.last_time_sync_at = Some(500);
    newer.updated_at = 500;
    assert!(plan_session_replacement(vec![session()], &newer).is_ok());
    assert!(plan_session_replacement(vec![], &newer).is_ok());
    assert!(plan_session_replacement(vec![session()], &new_session()).is_ok());
    let mut changed = new_session();
    changed.platform = text("MT4");
    assert!(is_conflict(plan_session_replacement(vec![session()], &changed)));
    let mut older = new_session();
    older.session_id = text("s2");
    let mut late = session();
    late.updated_at = 600;
    assert!(is_stale(plan_session_replacement(vec![late], &older)));
    assert!(matches!(
        plan_session_replacement(vec![session(), session()], &newer),
        Err(StoreError::CorruptData { .. })
    ));
    let end = supersede_session(
        &session(),
        SessionDeliveries { rejected: vec![], pending: vec![], in_doubt: vec![] },
        500,
    )
    .unwrap();
    assert_eq!(end.session.status, SessionStatus::Stale);
}

#[test]
fn one_fitting_session_carries_a_message() {
    let query = |account: &str, fresh_after: i64, synced: bool| SessionRouteQuery {
        account_id: text(account),
        client_id: None,
        terminal_id: Some(text("t1")),
        fresh_after,
        require_synced_clock: synced,
    };
    let mut other = session();
    other.session_id = text("s2");
    other.terminal_id = None;
    let all = || {
        let mut ended = session();
        ended.session_id = text("s3");
        ended.status = SessionStatus::Disconnected;
        vec![session(), ended]
    };
    let found = pick(all(), &query("a1", 100, true));
    assert_eq!(found.len(), 1);
    assert!(matches!(
        resolve_session_route(found, &query("a1", 100, true)),
        SessionRouteResolution::Ready(found) if found.session_id == "s1"
    ));
    assert!(pick(vec![other], &query("a1", 100, true)).is_empty());
    assert_eq!(
        resolve_session_route(pick(all(), &query("a2", 100, true)), &query("a2", 100, true)),
        SessionRouteResolution::NoActiveSession
    );
    assert_eq!(
        resolve_session_route(pick(all(), &query("a1", 101, true)), &query("a1", 101, true)),
        SessionRouteResolution::Stale { candidate_count: 1 }
    );
    let mut drifting = session();
    drifting.clock_sync_status = Some(text("DRIFTING"));
    assert_eq!(
        resolve_session_route(vec![drifting], &query("a1", 100, true)),
        SessionRouteResolution::ClockUnhealthy { candidate_count: 1 }
    );
    assert_eq!(
        resolve_session_route(vec![session(), session()], &query("a1", 100, true)),
        SessionRouteResolution::Ambiguous { candidate_count: 2 }
    );
}

#[test]
fn open_deliveries_are_found_by_how_they_were_left() {
    let all = || {
        let mut elsewhere =
            delivery(WireOutboxStatus::Pending, CommandDeliveryAttemptStatus::Pending);
        elsewhere.outbox.session_id = Some(text("s2"));
        vec![
            refused(CommandDeliveryAttemptStatus::Pending),
            refused(CommandDeliveryAttemptStatus::Sent),
            delivery(WireOutboxStatus::Pending, CommandDeliveryAttemptStatus::Pending),
            delivery(WireOutboxStatus::WriteStarted, CommandDeliveryAttemptStatus::Pending),
            delivery(WireOutboxStatus::Acked, CommandDeliveryAttemptStatus::Sent),
            delivery(WireOutboxStatus::Acked, CommandDeliveryAttemptStatus::Acked),
            elsewhere,
        ]
    };
    let left = |left: LeftOpen| pick(all(), &OpenDeliveries { session_id: text("s1"), left });
    assert_eq!(left(LeftOpen::Refused), vec![refused(CommandDeliveryAttemptStatus::Pending)]);
    assert_eq!(
        left(LeftOpen::NotWritten),
        vec![delivery(WireOutboxStatus::Pending, CommandDeliveryAttemptStatus::Pending)]
    );
    assert_eq!(
        left(LeftOpen::InDoubt),
        vec![
            delivery(WireOutboxStatus::WriteStarted, CommandDeliveryAttemptStatus::Pending),
            delivery(WireOutboxStatus::Acked, CommandDeliveryAttemptStatus::Sent),
        ]
    );
    assert!(text_begins_like("transport_ack_rejected: X", "TRANSPORT_ACK_REJECTED:"));
    assert!(text_begins_like("TRANSPORT-ACK-REJECTED:", "TRANSPORT_ACK_REJECTED:"));
    assert!(!text_begins_like("TRANSPORT_ACK_REJECTED", "TRANSPORT_ACK_REJECTED:"));
    assert!(!text_begins_like("TRANSPORT_ACK_REJEKTED:", "TRANSPORT_ACK_REJECTED:"));
}

#[test]
fn commands_on_their_way_are_counted() {
    let traced = |delivery: StoredOutboundDelivery| TracedAttempt {
        attempt: delivery.attempt,
        outbox: Some(delivery.outbox),
    };
    let mut request =
        delivery(WireOutboxStatus::Sent, CommandDeliveryAttemptStatus::Sent);
    request.attempt.subject = DeliverySubject::ReconciliationRequest(text("r1"));
    let attempts = vec![
        traced(delivery(WireOutboxStatus::Pending, CommandDeliveryAttemptStatus::Pending)),
        traced(delivery(WireOutboxStatus::Sent, CommandDeliveryAttemptStatus::Unconfirmed)),
        traced(delivery(WireOutboxStatus::Acked, CommandDeliveryAttemptStatus::Acked)),
        traced(refused(CommandDeliveryAttemptStatus::Sent)),
        traced(request),
        TracedAttempt { attempt: attempt(CommandDeliveryAttemptStatus::Sent), outbox: None },
    ];
    assert_eq!(count_inflight(&text("s1"), &attempts), 3);
    assert_eq!(count_inflight(&text("s2"), &attempts), 0);
}

#[test]
fn waiting_messages_are_listed_up_to_a_limit() {
    let pending = PendingMessages { session_id: text("s1") };
    let messages = || {
        vec![
            outbox(WireOutboxStatus::Pending),
            outbox(WireOutboxStatus::Sent),
            outbox(WireOutboxStatus::Pending),
        ]
    };
    assert_eq!(list_pending_outbox(messages(), &pending, 5).unwrap().len(), 2);
    assert_eq!(list_pending_outbox(messages(), &pending, 1).unwrap().len(), 1);
    let numbered = |id: &str, sequence: Option<u64>| {
        let mut message = outbox(WireOutboxStatus::Pending);
        message.message_id = text(id);
        message.sequence = sequence;
        message
    };
    let shuffled =
        vec![numbered("m3", Some(9)), numbered("m2", Some(7)), numbered("m1", Some(9))];
    let listed = list_pending_outbox(shuffled, &pending, 2).unwrap();
    assert_eq!(listed[0].message_id, "m2");
    assert_eq!(listed[1].message_id, "m1");
    assert!(matches!(
        list_pending_outbox(messages(), &pending, 0),
        Err(StoreError::InvalidSequence { field: "list_pending_outbox.limit" })
    ));
}

#[test]
fn startup_leaves_nothing_active() {
    let sessions = vec![InterruptedSession {
        session: session(),
        deliveries: SessionDeliveries {
            rejected: vec![refused(CommandDeliveryAttemptStatus::Pending)],
            pending: vec![delivery(
                WireOutboxStatus::Pending,
                CommandDeliveryAttemptStatus::Pending,
            )],
            in_doubt: vec![delivery(
                WireOutboxStatus::WriteStarted,
                CommandDeliveryAttemptStatus::Pending,
            )],
        },
    }];
    let (ends, tally) = fence_active_sessions(sessions, 900, "RESTART").unwrap();
    assert_eq!(ends[0].session.status, SessionStatus::Stale);
    assert_eq!(tally.attempts_rejected, 1);
    assert_eq!(tally.attempts_cancelled, 1);
    assert_eq!(tally.attempts_unconfirmed, 1);
    let writes = vec![InterruptedWrite {
        outbox: outbox(WireOutboxStatus::WriteStarted),
        attempt: Some(attempt(CommandDeliveryAttemptStatus::Sent)),
    }];
    let (writes, report) = fence_interrupted_writes(writes, 900, "RESTART", 1, tally).unwrap();
    assert_eq!(writes[0].outbox.last_error, Some(text("RESTART")));
    assert_eq!(
        writes[0].attempt.as_ref().unwrap().status,
        CommandDeliveryAttemptStatus::Unconfirmed
    );
    assert_eq!(report.sessions_staled, 1);
    assert_eq!(report.outboxes_fenced, 1);
    assert_eq!(report.attempts_unconfirmed, 2);
    let tally =
        FenceTally { attempts_unconfirmed: u64::MAX, attempts_cancelled: 0, attempts_rejected: 0 };
    let writes = vec![InterruptedWrite {
        outbox: outbox(WireOutboxStatus::WriteStarted),
        attempt: Some(attempt(CommandDeliveryAttemptStatus::Sent)),
    }];
    assert!(matches!(
        fence_interrupted_writes(writes, 900, "RESTART", 1, tally),
        Err(StoreError::InvalidInteger { field: "startup_fence.attempts_unconfirmed", .. })
    ));
}

#[test]
fn attempts_are_recorded_once() {
    let new = |status: CommandDeliveryAttemptStatus| NewDeliveryAttempt {
        attempt_id: text("at1"),
        subject: command(),
        session_id: Some(text("s1")),
        message_id: Some(text("m1")),
        request_payload: None,
        status,
        attempted_at: 200,
        acked_at: None,
        error: None,
        updated_at: 200,
    };
    let pending = new(CommandDeliveryAttemptStatus::Pending);
    assert!(validate_new_attempt(&pending).is_ok());
    let stored = new_attempt_record(new(CommandDeliveryAttemptStatus::Pending));
    let mut expected = attempt(CommandDeliveryAttemptStatus::Pending);
    expected.revision = 0;
    assert_eq!(stored, expected);
    assert!(same_attempt(&stored, &pending));
    assert!(matches!(
        resolve_attempt_replay(vec![stored], &pending),
        Ok(WriteOutcome::Duplicate(_))
    ));
    let mut moved = attempt(CommandDeliveryAttemptStatus::Pending);
    moved.session_id = Some(text("s2"));
    assert!(is_conflict(resolve_attempt_replay(vec![moved], &pending)));
    let mut unbound = new(CommandDeliveryAttemptStatus::Pending);
    unbound.message_id = None;
    assert!(validate_new_attempt(&unbound).is_err());
}

#[test]
fn sessions_are_inserted_once() {
    assert!(matches!(
        resolve_session_replay(Some(session()), &new_session()),
        Ok(WriteOutcome::Duplicate(_))
    ));
    let mut other = new_session();
    other.account_id = text("a2");
    assert!(is_conflict(resolve_session_replay(Some(session()), &other)));
}

fn session_row() -> SessionRow {
    SessionRow {
        session_id: text("s1"),
        client_id: text("c1"),
        account_id: text("a1"),
        terminal_id: None,
        platform: text("MT5"),
        status: EnumColumn { text: text("ACTIVE"), parsed: Ok(SessionStatus::Active) },
        capabilities_json: text(r#"{"a":1}"#),
        remote_addr: None,
        connected_at: 100,
        last_heartbeat_at: Some(120),
        last_time_sync_at: None,
        clock_sync_status: None,
        disconnected_at: None,
        revision: 4,
        updated_at: 130,
        last_outbound_sequence: 7,
        max_inflight_commands: 2,
    }
}

#[test]
fn stored_sessions_are_read_back() {
    let read = session_from_row(session_row()).unwrap();
    assert_eq!(read.status, SessionStatus::Active);
    assert_eq!(read.revision, 4);
    assert_eq!(read.last_outbound_sequence, 7);
    assert_eq!(read.capabilities.as_str(), r#"{"a":1}"#);
    let torn = |change: &dyn Fn(&mut SessionRow)| {
        let mut row = session_row();
        change(&mut row);
        matches!(session_from_row(row), Err(StoreError::CorruptData { .. }))
    };
    assert!(torn(&|row| row.capabilities_json = text(r#"{ "a":1}"#)));
    assert!(torn(&|row| row.capabilities_json = text("{")));
    assert!(torn(&|row| row.status.parsed = Err(text("unknown"))));
    assert!(torn(&|row| row.revision = -1));
    assert!(torn(&|row| row.last_outbound_sequence = 0));
    assert!(torn(&|row| row.max_inflight_commands = 0));
    assert!(torn(&|row| row.disconnected_at = Some(125)));
    assert!(torn(&|row| row.last_heartbeat_at = Some(99)));
}

fn attempt_row() -> DeliveryAttemptRow {
    DeliveryAttemptRow {
        attempt_id: text("at1"),
        command_id: Some(text("cmd1")),
        request_id: None,
        session_id: Some(text("s1")),
        message_id: Some(text("m1")),
        status: EnumColumn {
            text: text("PENDING"),
            parsed: Ok(CommandDeliveryAttemptStatus::Pending),
        },
        request_payload_json: None,
        request_payload_hash: None,
        attempted_at: 200,
        acked_at: None,
        error: None,
        revision: 1,
        updated_at: 200,
    }
}

#[test]
fn stored_attempts_are_read_back() {
    let read = delivery_attempt_from_row(attempt_row()).unwrap();
    assert_eq!(read, attempt(CommandDeliveryAttemptStatus::Pending));
    let torn = |change: &dyn Fn(&mut DeliveryAttemptRow)| {
        let mut row = attempt_row();
        change(&mut row);
        matches!(delivery_attempt_from_row(row), Err(StoreError::CorruptData { .. }))
    };
    assert!(torn(&|row| row.request_id = Some(text("q1"))));
    assert!(torn(&|row| row.command_id = None));
    assert!(torn(&|row| row.acked_at = Some(210)));
    assert!(torn(&|row| row.request_payload_json = Some(text("{}"))));
    assert!(torn(&|row| row.revision = -1));
    assert!(torn(&|row| row.updated_at = 199));
}

#[test]
fn attempts_agree_with_their_message() {
    let parent = || {
        let (text, digest) = json(r#"{"lots":1}"#).into_parts();
        JsonColumns { text, digest }
    };
    let payload = |value: &str| {
        let mut map = serde_json::Map::new();
        map.insert(text("lots"), serde_json::Value::from(value.len()));
        serde_json::Value::Object(map)
    };
    let around = |outbox: Option<StoredWireOutbox>, value: &str| AttemptSurroundings {
        outbox,
        payload: Ok(payload(value)),
        parent: Some(parent()),
    };
    let pending = attempt(CommandDeliveryAttemptStatus::Pending);
    let sound = outbox(WireOutboxStatus::Pending);
    validate_stored_attempt(&pending, around(Some(sound.clone()), "1")).unwrap();
    assert!(is_conflict(validate_stored_attempt(&pending, around(Some(sound.clone()), "12"))));
    let corrupt = |result: Result<(), StoreError>| {
        matches!(result, Err(StoreError::CorruptData { .. }))
    };
    assert!(corrupt(validate_stored_attempt(&pending, around(None, "1"))));
    let mut elsewhere = sound.clone();
    elsewhere.session_id = Some(text("s2"));
    assert!(corrupt(validate_stored_attempt(&pending, around(Some(elsewhere), "1"))));
    let mut loose = pending.clone();
    loose.message_id = None;
    assert!(corrupt(validate_stored_attempt(&loose, around(None, "1"))));
    loose.status = CommandDeliveryAttemptStatus::Failed;
    validate_stored_attempt(&loose, around(None, "1")).unwrap();
    let id = text("m1");
    assert_eq!(outbox_session(&sound, &id).unwrap(), "s1");
    let mut nowhere = sound.clone();
    nowhere.session_id = None;
    assert!(outbox_session(&nowhere, &id).is_err());
}
