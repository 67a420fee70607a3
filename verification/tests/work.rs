use sinan_store::columns::{EnumColumn, JsonColumns};
use sinan_store::error::StoreError;
use sinan_store::inbound_durability::{
    accepted_inbound, accepted_resume, admit_inbound, admit_session_resume, claim_next_inbound,
    claim_next_session_resume, complete_inbound, complete_session_resume, fail_inbound,
    fail_session_resume, inbound_from_row, inbound_rejection_from_row, reclaim_expired_inbound,
    reclaim_expired_session_resume, rejected_inbound, rejection_id, resume_from_row,
    validate_new_inbound,
    ClaimDurableWork, CompleteInboundAdmission, CompleteSessionResumeAdmission,
    DurableInboundAdmissionOutcome, DurableSessionResumeAdmissionOutcome, DurableWorkStatus,
    FailInboundAdmission, FailSessionResumeAdmission, InboundDecision, InboundRow,
    NewInboundAdmission, NewSessionResumeAdmission, ReclaimDurableWork, RejectionRow, ResumeRow,
};
use sinan_store::json::{sha256_hex, CanonicalJson};
use sinan_store::outbound_work::{
    claim_next_outbound_delivery, complete_outbound_delivery_work, lease_work, new_work,
    next_candidate, outbound_delivery_message_id, retry_outbound_delivery_work, subject_columns,
    work_from_row, work_id, ClaimOutboundDeliveryWork, CompleteOutboundDeliveryWork, DueCommand, DueRequest,
    OutboundDeliveryWorkOutcome, OutboundDeliveryWorkStatus, OutboundDeliveryWorkSubject,
    RetryOutboundDeliveryWork, StoredOutboundDeliveryWork, WorkRow,
};

fn text(value: &str) -> String {
    value.to_string()
}

fn json(value: &str) -> CanonicalJson {
    CanonicalJson::parse(value).unwrap()
}

fn columns(value: &str) -> JsonColumns {
    let (text, digest) = json(value).into_parts();
    JsonColumns { text, digest }
}

fn is_stale<T>(result: Result<T, StoreError>) -> bool {
    matches!(result, Err(StoreError::StaleWrite { .. }))
}

fn command() -> OutboundDeliveryWorkSubject {
    OutboundDeliveryWorkSubject::ExecutionCommand(text("cmd1"))
}

fn claim(at: i64) -> ClaimOutboundDeliveryWork {
    ClaimOutboundDeliveryWork {
        worker_id: text("w1"),
        claimed_at: at,
        lease_expires_at: at + 50,
    }
}

fn leased() -> StoredOutboundDeliveryWork {
    lease_work(new_work(&command(), 100), &claim(100)).unwrap()
}

fn complete(revision: u64, worker: &str, at: i64) -> CompleteOutboundDeliveryWork {
    CompleteOutboundDeliveryWork {
        work_id: text("execution.command:cmd1"),
        expected_revision: revision,
        worker_id: text(worker),
        completed_at: at,
        outcome: OutboundDeliveryWorkOutcome::Sent,
        error: None,
    }
}

fn retry(revision: u64, advance: bool) -> RetryOutboundDeliveryWork {
    RetryOutboundDeliveryWork {
        work_id: text("execution.command:cmd1"),
        expected_revision: revision,
        worker_id: text("w1"),
        failed_at: 120,
        retry_at: 500,
        outcome: OutboundDeliveryWorkOutcome::DefinitelyNotWritten,
        error: text("full"),
        advance_generation: advance,
    }
}

fn row(id: &str, status: &str, created_at: i64) -> WorkRow {
    WorkRow {
        work_id: format!("execution.command:{id}"),
        command_id: Some(text(id)),
        request_id: None,
        generation: 1,
        message_id: format!("msg:execution.command:{id}:v1"),
        status: text(status),
        delivery_attempts: 0,
        next_attempt_at: if status == "PENDING" { Some(created_at) } else { None },
        lease_owner: if status == "PROCESSING" { Some(text("w9")) } else { None },
        lease_expires_at: if status == "PROCESSING" { Some(created_at + 10) } else { None },
        revision: 1,
        last_outcome: if status == "DELIVERED" { Some(text("SENT")) } else { None },
        last_error: None,
        completed_at: if status == "DELIVERED" { Some(created_at) } else { None },
        created_at,
        updated_at: created_at,
    }
}

#[test]
fn work_and_messages_are_named_after_their_subject() {
    assert_eq!(work_id(&command()), "execution.command:cmd1");
    let request = OutboundDeliveryWorkSubject::ReconciliationRequest(text("r1"));
    assert_eq!(work_id(&request), "reconciliation.request:r1");
    assert_eq!(outbound_delivery_message_id(&command(), 1), "msg:execution.command:cmd1:v1");
    assert_eq!(outbound_delivery_message_id(&request, 12), "msg:reconciliation.request:r1:v12");
    assert_eq!(subject_columns(&command()), (Some("cmd1"), None));
    assert_eq!(subject_columns(&request), (None, Some("r1")));
}

#[test]
fn leased_work_belongs_to_one_worker() {
    let work = leased();
    assert_eq!(work.status, OutboundDeliveryWorkStatus::Processing);
    assert_eq!(work.lease_owner, Some(text("w1")));
    assert_eq!(work.lease_expires_at, Some(150));
    assert_eq!(work.delivery_attempts, 1);
    assert!(is_stale(lease_work(leased(), &claim(149))));
    assert!(lease_work(leased(), &claim(150)).is_ok());
}

#[test]
fn the_holder_completes_its_work() {
    let revision = leased().revision;
    let done =
        complete_outbound_delivery_work(Some(leased()), complete(revision, "w1", 120)).unwrap();
    assert_eq!(done.status, OutboundDeliveryWorkStatus::Delivered);
    assert_eq!(done.completed_at, Some(120));
    assert_eq!(done.lease_owner, None);
    assert_eq!(done.revision, revision + 1);
    assert!(is_stale(complete_outbound_delivery_work(
        Some(leased()),
        complete(revision, "w2", 120)
    )));
    assert!(is_stale(complete_outbound_delivery_work(
        Some(leased()),
        complete(revision + 1, "w1", 120)
    )));
    assert!(is_stale(complete_outbound_delivery_work(
        Some(leased()),
        complete(revision, "w1", 151)
    )));
    assert!(matches!(
        complete_outbound_delivery_work(None, complete(revision, "w1", 120)),
        Err(StoreError::NotFound { .. })
    ));
    let mut unfinished = complete(revision, "w1", 120);
    unfinished.outcome = OutboundDeliveryWorkOutcome::InfrastructureError;
    assert!(matches!(
        complete_outbound_delivery_work(Some(leased()), unfinished),
        Err(StoreError::InvalidRecord { .. })
    ));
    assert!(is_stale(lease_work(done, &claim(900))));
}

#[test]
fn work_is_tried_again_when_its_time_comes() {
    let revision = leased().revision;
    let again = retry_outbound_delivery_work(Some(leased()), retry(revision, false)).unwrap();
    assert_eq!(again.status, OutboundDeliveryWorkStatus::Pending);
    assert_eq!(again.next_attempt_at, Some(500));
    assert_eq!(again.last_error, Some(text("full")));
    assert_eq!(again.message_id, "msg:execution.command:cmd1:v1");
    assert!(is_stale(lease_work(again, &claim(499))));
    let next = retry_outbound_delivery_work(Some(leased()), retry(revision, true)).unwrap();
    assert_eq!(next.generation, 2);
    assert_eq!(next.message_id, "msg:execution.command:cmd1:v2");
    assert!(lease_work(next, &claim(500)).is_ok());
    let mut finished = retry(revision, false);
    finished.outcome = OutboundDeliveryWorkOutcome::Sent;
    assert!(matches!(
        retry_outbound_delivery_work(Some(leased()), finished),
        Err(StoreError::InvalidRecord { .. })
    ));
}

#[test]
fn work_is_served_in_turn() {
    let works = vec![row("cmd1", "PENDING", 300), row("cmd2", "PROCESSING", 200)];
    let commands = vec![
        DueCommand { command_id: text("cmd3"), created_at: 100, status: text("CREATED") },
        DueCommand { command_id: text("cmd1"), created_at: 50, status: text("CREATED") },
    ];
    let requests: Vec<DueRequest> = vec![];
    let found = next_candidate(&works, &commands, &requests, 400).unwrap();
    assert_eq!(found.subject, OutboundDeliveryWorkSubject::ExecutionCommand(text("cmd2")));
    assert!(!found.fresh);
    let fresh = next_candidate(&vec![], &commands, &requests, 400).unwrap();
    assert!(fresh.fresh);
    assert_eq!(fresh.subject, OutboundDeliveryWorkSubject::ExecutionCommand(text("cmd1")));
    assert!(next_candidate(&vec![row("cmd1", "DELIVERED", 1)], &vec![], &requests, 400).is_none());
    let mut nameless = row("cmd1", "PENDING", 1);
    nameless.command_id = None;
    assert!(matches!(
        next_candidate(&vec![nameless], &vec![], &requests, 400).unwrap().subject,
        OutboundDeliveryWorkSubject::ReconciliationRequest(id) if id.is_empty()
    ));
    let given = claim_next_outbound_delivery(&works, &commands, &requests, &claim(400))
        .unwrap()
        .unwrap();
    assert!(!given.begun);
    assert_eq!(given.work.work_id, "execution.command:cmd2");
    assert_eq!(given.work.revision, 2);
    assert!(claim_next_outbound_delivery(&vec![], &vec![], &requests, &claim(400))
        .unwrap()
        .is_none());
    let mut empty = claim(400);
    empty.lease_expires_at = 400;
    assert!(claim_next_outbound_delivery(&works, &commands, &requests, &empty).is_err());
}

#[test]
fn torn_work_is_noticed() {
    assert!(work_from_row(&row("cmd1", "PENDING", 1)).is_ok());
    assert!(work_from_row(&row("cmd1", "DELIVERED", 1)).is_ok());
    let mut torn = row("cmd1", "PENDING", 1);
    torn.status = text("LOST");
    assert!(matches!(work_from_row(&torn), Err(StoreError::CorruptData { .. })));
    let mut torn = row("cmd1", "PENDING", 1);
    torn.request_id = Some(text("r1"));
    assert!(matches!(work_from_row(&torn), Err(StoreError::CorruptData { .. })));
    let mut torn = row("cmd1", "PENDING", 1);
    torn.generation = -1;
    assert!(matches!(work_from_row(&torn), Err(StoreError::CorruptData { .. })));
    for outcome in [
        OutboundDeliveryWorkOutcome::Sent,
        OutboundDeliveryWorkOutcome::Unconfirmed,
        OutboundDeliveryWorkOutcome::Rejected,
        OutboundDeliveryWorkOutcome::DefinitelyNotWritten,
        OutboundDeliveryWorkOutcome::InfrastructureError,
        OutboundDeliveryWorkOutcome::Superseded,
        OutboundDeliveryWorkOutcome::Expired,
        OutboundDeliveryWorkOutcome::PermanentRejection,
    ] {
        assert_eq!(OutboundDeliveryWorkOutcome::parse(outcome.as_str()), Some(outcome));
        assert_ne!(outcome.may_complete(), outcome.may_retry());
    }
}

const ENVELOPE: &str = r#"{"account_id":"a1","client_id":"c1","message_id":"m1","payload":{},"schema_version":"1.0","sequence":3,"session_id":"s1","type":"heartbeat"}"#;

fn inbound() -> NewInboundAdmission {
    NewInboundAdmission {
        message_id: text("m1"),
        session_id: text("s1"),
        client_id: text("c1"),
        account_id: text("a1"),
        terminal_id: None,
        message_type: text("heartbeat"),
        schema_version: text("1.0"),
        sequence: 3,
        correlation_id: None,
        causation_id: None,
        envelope: json(ENVELOPE),
        raw_payload_length: Some(120),
        received_at: 10,
        created_at: 11,
    }
}

fn inbound_row(id: &str, status: &str, received_at: i64) -> InboundRow {
    let finished = status == "HANDLED" || status == "FAILED";
    InboundRow {
        message_id: text(id),
        session_id: text("s1"),
        client_id: text("c1"),
        account_id: text("a1"),
        terminal_id: None,
        message_type: text("heartbeat"),
        schema_version: text("1.0"),
        sequence: 3,
        correlation_id: None,
        causation_id: None,
        envelope: columns(&ENVELOPE.replace("\"m1\"", &format!("\"{id}\""))),
        raw_payload_length: Some(120),
        received_at,
        status: text(status),
        lease_owner: if status == "PROCESSING" { Some(text("w9")) } else { None },
        lease_expires_at: if status == "PROCESSING" { Some(received_at + 100) } else { None },
        revision: 1,
        finished_at: if finished { Some(received_at) } else { None },
        last_error: if status == "FAILED" { Some(text("torn")) } else { None },
        created_at: received_at + 1,
        updated_at: received_at + 1,
    }
}

fn work_claim(at: i64) -> ClaimDurableWork {
    ClaimDurableWork { worker_id: text("w1"), claimed_at: at, lease_expires_at: at + 100 }
}

#[test]
fn admitted_messages_say_what_their_envelope_says() {
    validate_new_inbound(&inbound()).unwrap();
    let mut other = inbound();
    other.sequence = 4;
    assert!(validate_new_inbound(&other).is_err());
    let mut other = inbound();
    other.sequence = 0;
    assert!(matches!(validate_new_inbound(&other), Err(StoreError::InvalidSequence { .. })));
    let mut other = inbound();
    other.envelope = json("[]");
    assert!(matches!(validate_new_inbound(&other), Err(StoreError::InvalidRecord { .. })));
    let mut other = inbound();
    other.account_id = text("");
    assert!(validate_new_inbound(&other).is_err());
}

#[test]
fn messages_are_admitted_once() {
    let reason = text("DUPLICATE_MESSAGE_CONFLICT");
    assert!(matches!(
        admit_inbound(&inbound(), vec![], &reason),
        Ok(InboundDecision::Accept)
    ));
    let stored = || inbound_from_row(&inbound_row("m1", "PENDING", 10)).unwrap();
    assert!(matches!(
        admit_inbound(&inbound(), vec![stored()], &reason),
        Ok(InboundDecision::Duplicate(found)) if found.message_id == "m1"
    ));
    let mut changed = inbound();
    changed.account_id = text("a2");
    changed.envelope = json(&ENVELOPE.replace("\"a1\"", "\"a2\""));
    match admit_inbound(&changed, vec![stored()], &reason) {
        Ok(InboundDecision::Reject(id)) => assert_eq!(id, rejection_id(&changed, &reason)),
        _ => panic!("the message was not refused"),
    }
    assert!(matches!(
        accepted_inbound(&text("m1"), Some(stored())),
        Ok(DurableInboundAdmissionOutcome::Accepted(_))
    ));
    assert!(accepted_inbound(&text("m1"), None).is_err());
}

#[test]
fn refusals_are_named_after_what_they_refuse() {
    let identity = format!(
        "m1\u{1f}s1\u{1f}3\u{1f}{}\u{1f}WHY",
        sha256_hex(inbound().envelope.as_str())
    );
    assert_eq!(
        rejection_id(&inbound(), &text("WHY")),
        format!("inbound-rejection-{}", sha256_hex(&identity))
    );
    assert_ne!(
        rejection_id(&inbound(), &text("WHY")),
        rejection_id(&inbound(), &text("WHAT"))
    );
}

fn rejection_row() -> RejectionRow {
    let reason = text("WHY");
    RejectionRow {
        rejection_id: rejection_id(&inbound(), &reason),
        message_id: text("m1"),
        session_id: text("s1"),
        client_id: text("c1"),
        account_id: text("a1"),
        terminal_id: None,
        message_type: text("heartbeat"),
        schema_version: text("1.0"),
        sequence: 3,
        correlation_id: None,
        causation_id: None,
        envelope: columns(ENVELOPE),
        reason: EnumColumn { text: reason.clone(), parsed: Ok(reason) },
        received_at: 10,
        created_at: 11,
    }
}

#[test]
fn refused_messages_are_kept() {
    let reason = text("WHY");
    let stored = || inbound_rejection_from_row(rejection_row()).unwrap();
    assert_eq!(stored().reason, "WHY");
    assert!(matches!(
        rejected_inbound(&inbound(), &reason, Some(stored())),
        Ok(DurableInboundAdmissionOutcome::Rejected(found)) if found.message_id == "m1"
    ));
    assert!(matches!(
        rejected_inbound(&inbound(), &reason, None),
        Err(StoreError::NotFound { .. })
    ));
    let mut other = stored();
    other.account_id = text("a2");
    assert!(matches!(
        rejected_inbound(&inbound(), &reason, Some(other)),
        Err(StoreError::IdentityConflict { .. })
    ));
    let torn = |change: &dyn Fn(&mut RejectionRow)| {
        let mut row = rejection_row();
        change(&mut row);
        matches!(inbound_rejection_from_row(row), Err(StoreError::CorruptData { .. }))
    };
    assert!(torn(&|row| row.reason.parsed = Err(text("unknown"))));
    assert!(torn(&|row| row.sequence = -3));
    assert!(torn(&|row| row.envelope.digest = text("0")));
}

#[test]
fn messages_are_worked_on_in_turn() {
    let rows = vec![
        inbound_row("m3", "PENDING", 30),
        inbound_row("m1", "HANDLED", 10),
        inbound_row("m2", "PENDING", 20),
        inbound_row("m4", "PROCESSING", 5),
    ];
    let taken = claim_next_inbound(&rows, &work_claim(50)).unwrap().unwrap();
    assert_eq!(taken.message_id, "m2");
    assert_eq!(taken.status, DurableWorkStatus::Processing);
    assert_eq!(taken.lease_owner, Some(text("w1")));
    assert_eq!(taken.revision, 2);
    let reclaim = |at: i64| ReclaimDurableWork {
        worker_id: text("w1"),
        reclaimed_at: at,
        lease_expires_at: at + 100,
    };
    assert!(reclaim_expired_inbound(&rows, &reclaim(104)).unwrap().is_none());
    let taken = reclaim_expired_inbound(&rows, &reclaim(105)).unwrap().unwrap();
    assert_eq!(taken.message_id, "m4");
    assert!(claim_next_inbound(&vec![], &work_claim(50)).unwrap().is_none());
}

#[test]
fn finished_messages_stay_finished() {
    let rows = vec![inbound_row("m1", "PENDING", 10)];
    let taken = || claim_next_inbound(&rows, &work_claim(50)).unwrap();
    let completion = |revision: u64, worker: &str| CompleteInboundAdmission {
        message_id: text("m1"),
        expected_revision: revision,
        worker_id: text(worker),
        completed_at: 60,
    };
    let done = complete_inbound(taken(), &completion(2, "w1")).unwrap();
    assert_eq!(done.status, DurableWorkStatus::Handled);
    assert_eq!(done.finished_at, Some(60));
    assert!(is_stale(complete_inbound(Some(done), &completion(3, "w1"))));
    assert!(is_stale(complete_inbound(taken(), &completion(2, "w2"))));
    let failure = |error: &str| FailInboundAdmission {
        message_id: text("m1"),
        expected_revision: 2,
        worker_id: text("w1"),
        failed_at: 60,
        error: text(error),
    };
    let failed = fail_inbound(taken(), failure("torn")).unwrap();
    assert_eq!(failed.status, DurableWorkStatus::Failed);
    assert_eq!(failed.last_error, Some(text("torn")));
    assert!(fail_inbound(taken(), failure(" ")).is_err());
}

fn resume() -> NewSessionResumeAdmission {
    NewSessionResumeAdmission {
        hello_message_id: text("h1"),
        session_id: text("s1"),
        client_id: text("c1"),
        account_id: text("a1"),
        terminal_id: None,
        cursor: json("{}"),
        received_at: 10,
        created_at: 11,
    }
}

fn resume_row(status: &str) -> ResumeRow {
    ResumeRow {
        hello_message_id: text("h1"),
        session_id: text("s1"),
        client_id: text("c1"),
        account_id: text("a1"),
        terminal_id: None,
        cursor: columns("{}"),
        received_at: 10,
        status: text(status),
        lease_owner: if status == "PROCESSING" { Some(text("w9")) } else { None },
        lease_expires_at: if status == "PROCESSING" { Some(100) } else { None },
        revision: 1,
        reconciliation_request_id: None,
        finished_at: None,
        last_error: None,
        created_at: 11,
        updated_at: 11,
    }
}

#[test]
fn sessions_are_resumed_once() {
    assert!(admit_session_resume(&resume(), vec![]).unwrap().is_none());
    let stored = || resume_from_row(&resume_row("PENDING")).unwrap();
    assert!(matches!(
        admit_session_resume(&resume(), vec![stored()]),
        Ok(Some(DurableSessionResumeAdmissionOutcome::Duplicate(_)))
    ));
    let mut other = resume();
    other.cursor = json("[]");
    assert!(matches!(
        admit_session_resume(&other, vec![stored()]),
        Err(StoreError::IdentityConflict { .. })
    ));
    assert!(matches!(
        accepted_resume(&text("h1"), Some(stored())),
        Ok(DurableSessionResumeAdmissionOutcome::Accepted(_))
    ));
    let taken =
        || claim_next_session_resume(&vec![resume_row("PENDING")], &work_claim(50)).unwrap();
    let done = complete_session_resume(
        taken(),
        CompleteSessionResumeAdmission {
            hello_message_id: text("h1"),
            expected_revision: 2,
            worker_id: text("w1"),
            completed_at: 60,
            reconciliation_request_id: Some(text("r1")),
        },
    )
    .unwrap();
    assert_eq!(done.status, DurableWorkStatus::Handled);
    assert_eq!(done.reconciliation_request_id, Some(text("r1")));
    let failed = fail_session_resume(
        taken(),
        FailSessionResumeAdmission {
            hello_message_id: text("h1"),
            expected_revision: 2,
            worker_id: text("w1"),
            failed_at: 60,
            error: text("torn"),
        },
    )
    .unwrap();
    assert_eq!(failed.status, DurableWorkStatus::Failed);
    let reclaimed = reclaim_expired_session_resume(
        &vec![resume_row("PROCESSING")],
        &ReclaimDurableWork { worker_id: text("w1"), reclaimed_at: 100, lease_expires_at: 200 },
    )
    .unwrap()
    .unwrap();
    assert_eq!(reclaimed.lease_owner, Some(text("w1")));
}
