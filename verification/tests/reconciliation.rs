use serde_json::Value;
use sinan_store::checkpoint::{
    advance_checkpoint, compare_full_set, require_checkpoint_account,
    validate_checkpoint_integrity, validate_membership, FullSetDecision, FullSetKind,
    ReadinessRuns, SetMemberRow, StoredFullSet,
};
use sinan_store::columns::JsonColumns;
use sinan_store::error::StoreError;
use sinan_store::evidence::{
    validate_account_durable_snapshot_full_set_consistency,
    validate_all_durable_snapshot_full_set_consistency, AccountEvidence, EvidenceEvent,
    EvidenceKind,
};
use sinan_store::ingest::{
    ingest_durable, ingest_market_bar, rebuild_ingest_projections, replay_ingested_events,
    update_market_snapshot, BarRow, IngestedEvent,
};
use sinan_store::json::CanonicalJson;
use sinan_store::latest::LatestTable;
use sinan_store::model::{CoreEventMetadata, NewCoreEvent, StoredCoreEvent, WriteOutcome};
use sinan_store::projection::AccountProjection;
use sinan_store::rebuild::{
    rebuild_reconciliation_account_projections, rebuild_reconciliation_projections,
    replay_reconciliation_events, ReplayedEvent,
};
use sinan_store::reconciliation::{
    command_ids_json, commit_reconciliation_result, escalate_reconciliation_manual,
    parse_run_status, run_status_name, scope_name, set_json, settle_reconciliation_run,
    validate_evaluation, validate_new_run, validate_request, validate_result_sets, AccountReconciliationCheckpoint,
    ManualReconciliationEvidence, NewManualReconciliationEscalation, NewReconciliationResult,
    NewReconciliationRun, ReconciliationCompleteness, ReconciliationDisposition,
    ReconciliationEvaluation, ReconciliationReason, ReconciliationRequest, ReconciliationResult,
    ReconciliationRunStatus, ResultCommit, StoredReconciliationRun,
};
use sinan_store::reconciliation_rows::{
    corrupt_from_invalid, reconciliation_run_from_row, OptionalJson, ReconciliationRunRow,
};
use sinan_store::snapshots::{
    classify_full_set_member, classify_latest, classify_market_bar, snapshot_from_row,
    ApplyDecision, DurableProjection, MarketBar, ProjectionWriteOutcome, Snapshot, SnapshotKind,
    SnapshotRow, SnapshotValue,
};

fn text(value: &str) -> String {
    value.to_string()
}

fn json(value: &str) -> CanonicalJson {
    CanonicalJson::parse(value).unwrap()
}

fn value(text: &str) -> Value {
    serde_json::from_str(text).unwrap()
}

fn columns(value: &str) -> JsonColumns {
    let (text, digest) = json(value).into_parts();
    JsonColumns { text, digest }
}

fn payload(id: &str, at: i64, value: i64) -> String {
    format!(r#"{{"id":"{id}","observed_at":{at},"value":{value}}}"#)
}

fn snapshot(id: &str, at: i64, value: i64) -> Snapshot {
    Snapshot {
        account_id: text("a1"),
        id: text(id),
        symbol: text("EURUSD"),
        observed_at: at,
        payload: json(&payload(id, at, value)),
    }
}

fn metadata(id: &str, event_type: &str, at: i64) -> CoreEventMetadata {
    CoreEventMetadata {
        event_id: text(id),
        event_type: text(event_type),
        aggregate_type: text("reconciliation"),
        aggregate_id: text("q1"),
        message_id: None,
        schema_version: text("1.0"),
        correlation_id: None,
        causation_id: None,
        account_id: Some(text("a1")),
        client_id: None,
        terminal_id: None,
        strategy_id: None,
        intent_id: None,
        plan_id: None,
        leg_id: None,
        command_id: None,
        idempotency_key: None,
        event_at: at,
        received_at: at + 1,
        created_at: at + 2,
        source: text("gateway"),
    }
}

fn request() -> ReconciliationRequest {
    ReconciliationRequest {
        request_id: text("q1"),
        account_id: text("a1"),
        terminal_id: None,
        client_id: None,
        reason: ReconciliationReason::ManualRequest,
        command_ids: None,
        since_server_time: None,
    }
}

fn result(at: i64, positions: Vec<Snapshot>) -> ReconciliationResult {
    let set: Vec<String> =
        positions.iter().map(|position| text(position.payload.as_str())).collect();
    ReconciliationResult {
        request_id: text("q1"),
        account_id: text("a1"),
        terminal_id: None,
        client_id: None,
        observed_at: at,
        account: Some(snapshot("a1", at, 1)),
        orders: vec![],
        symbol_metadata: vec![snapshot("EURUSD", at, 2)],
        unresolved_command_ids: vec![],
        payload: json(&format!(r#"{{"at":{at},"positions":[{}]}}"#, set.join(","))),
        positions,
    }
}

fn evaluation(at: Option<i64>, disposition: ReconciliationDisposition) -> ReconciliationEvaluation {
    ReconciliationEvaluation {
        request_id: text("q1"),
        account_id: text("a1"),
        observed_at: at,
        disposition,
        command_ids: vec![],
        findings: vec![],
    }
}

fn completeness() -> ReconciliationCompleteness {
    ReconciliationCompleteness { symbol_metadata_complete: true, command_scope_complete: true }
}

fn requested() -> StoredReconciliationRun {
    StoredReconciliationRun {
        request: request(),
        requested_at: 100,
        status: ReconciliationRunStatus::Requested,
        result: None,
        result_evaluation: None,
        completeness: None,
        manual_evidence: None,
        manual_evaluation: None,
        request_event: StoredCoreEvent {
            metadata: metadata("e1", "reconciliation.request", 100),
            payload: json(r#"{"request":1}"#),
        },
        result_event: None,
        created_at: 102,
        updated_at: 102,
    }
}

fn new_result(at: i64) -> NewReconciliationResult {
    NewReconciliationResult {
        result: result(at, vec![snapshot("p1", at, 5)]),
        evaluation: evaluation(Some(at), ReconciliationDisposition::Completed),
        completeness: completeness(),
        event_metadata: metadata("e2", "reconciliation.result", at),
    }
}

fn committed(at: i64) -> StoredReconciliationRun {
    match commit_reconciliation_result(Some(requested()), new_result(at)) {
        Ok(ResultCommit::Committed(run)) => run,
        _ => panic!("the result was not stored"),
    }
}

#[test]
fn requests_must_make_sense() {
    validate_request(&request(), 100).unwrap();
    let mut other = request();
    other.command_ids = Some(vec![text("c2"), text("c1")]);
    assert!(matches!(validate_request(&other, 100), Err(StoreError::InvalidRecord { .. })));
    other.command_ids = Some(vec![]);
    assert!(validate_request(&other, 100).is_err());
    other.command_ids = Some(vec![text("c1"), text("c2")]);
    validate_request(&other, 100).unwrap();
    other.since_server_time = Some(101);
    assert!(validate_request(&other, 100).is_err());
    assert!(validate_request(&request(), -1).is_err());
    let mut blank = request();
    blank.account_id = text(" ");
    assert!(validate_request(&blank, 100).is_err());
    assert_eq!(scope_name(&request()), "ACCOUNT");
    assert_eq!(scope_name(&other), "TARGETED");
    for status in [
        ReconciliationRunStatus::Requested,
        ReconciliationRunStatus::PendingEvidence,
        ReconciliationRunStatus::Completed,
        ReconciliationRunStatus::ManualReconciliationRequired,
    ] {
        assert_eq!(parse_run_status(run_status_name(status), "q1").unwrap(), status);
    }
    assert!(matches!(parse_run_status("LOST", "q1"), Err(StoreError::CorruptData { .. })));
}

#[test]
fn runs_are_stored_once() {
    let new = || NewReconciliationRun {
        request: request(),
        requested_at: 100,
        event_metadata: metadata("e1", "reconciliation.request", 100),
    };
    validate_new_run(&new()).unwrap();
    let mut other = new();
    other.event_metadata.event_at = 99;
    assert!(matches!(validate_new_run(&other), Err(StoreError::IdentityConflict { .. })));
    assert!(matches!(
        settle_reconciliation_run(Some(requested()), &new(), true, true),
        Ok(WriteOutcome::Inserted(_))
    ));
    assert!(matches!(
        settle_reconciliation_run(Some(requested()), &new(), false, false),
        Ok(WriteOutcome::Duplicate(_))
    ));
    assert!(matches!(
        settle_reconciliation_run(Some(requested()), &new(), true, false),
        Err(StoreError::IdentityConflict { .. })
    ));
    assert!(matches!(
        settle_reconciliation_run(None, &new(), true, true),
        Err(StoreError::NotFound { .. })
    ));
}

#[test]
fn full_sets_are_sorted_and_of_one_time() {
    let good = result(200, vec![snapshot("p1", 200, 1), snapshot("p2", 200, 1)]);
    validate_result_sets(&good, &None).unwrap();
    let twice = result(200, vec![snapshot("p1", 200, 1), snapshot("p1", 200, 1)]);
    assert!(matches!(validate_result_sets(&twice, &None), Err(StoreError::InvalidRecord { .. })));
    let mixed = result(200, vec![snapshot("p1", 199, 1)]);
    assert!(validate_result_sets(&mixed, &None).is_err());
    let mut open = result(200, vec![]);
    open.unresolved_command_ids = vec![text("c1")];
    validate_result_sets(&open, &Some(vec![text("c1")])).unwrap();
    assert!(validate_result_sets(&open, &Some(vec![text("c2")])).is_err());
}

#[test]
fn evaluations_fit_what_they_evaluate() {
    let completed = evaluation(Some(200), ReconciliationDisposition::Completed);
    validate_evaluation(&completed, &request(), Some(200)).unwrap();
    assert!(matches!(
        validate_evaluation(&completed, &request(), Some(201)),
        Err(StoreError::IdentityConflict { .. })
    ));
    let mut open = evaluation(Some(200), ReconciliationDisposition::Completed);
    open.command_ids = vec![text("c1")];
    assert!(matches!(
        validate_evaluation(&open, &request(), Some(200)),
        Err(StoreError::InvalidRecord { .. })
    ));
    let pending = evaluation(Some(200), ReconciliationDisposition::PendingEvidence);
    assert!(validate_evaluation(&pending, &request(), Some(200)).is_err());
}

#[test]
fn a_result_is_stored_once() {
    let run = committed(200);
    assert_eq!(run.status, ReconciliationRunStatus::Completed);
    assert_eq!(run.updated_at, 202);
    assert!(matches!(
        commit_reconciliation_result(Some(committed(200)), new_result(200)),
        Ok(ResultCommit::Replayed(_))
    ));
    assert!(matches!(
        commit_reconciliation_result(Some(committed(200)), new_result(300)),
        Err(StoreError::IdentityConflict { .. })
    ));
    assert!(matches!(
        commit_reconciliation_result(None, new_result(200)),
        Err(StoreError::NotFound { .. })
    ));
    assert!(matches!(
        commit_reconciliation_result(Some(requested()), new_result(99)),
        Err(StoreError::InvalidRecord { .. })
    ));
    let mut open = new_result(200);
    open.result.unresolved_command_ids = vec![text("c1")];
    assert!(matches!(
        commit_reconciliation_result(Some(requested()), open),
        Err(StoreError::InvalidRecord { .. })
    ));
}

#[test]
fn a_person_is_called_in_once() {
    let escalation = |at: i64, reason: &str| NewManualReconciliationEscalation {
        evidence: ManualReconciliationEvidence {
            request_id: text("q1"),
            escalated_at: at,
            reason: text(reason),
        },
        evaluation: evaluation(None, ReconciliationDisposition::ManualRequired),
        updated_at: at,
    };
    let escalated =
        escalate_reconciliation_manual(Some(requested()), escalation(300, "lost")).unwrap();
    assert!(escalated.was_inserted());
    let run = escalated.into_record();
    assert_eq!(run.status, ReconciliationRunStatus::ManualReconciliationRequired);
    assert!(matches!(
        escalate_reconciliation_manual(Some(run), escalation(300, "lost")),
        Ok(WriteOutcome::Duplicate(_))
    ));
    assert!(matches!(
        escalate_reconciliation_manual(Some(requested()), escalation(300, "")),
        Err(StoreError::InvalidRecord { .. })
    ));
    assert!(matches!(
        escalate_reconciliation_manual(Some(requested()), escalation(99, "lost")),
        Err(StoreError::InvalidRecord { .. })
    ));
    assert!(escalate_reconciliation_manual(Some(committed(200)), escalation(300, "lost")).is_err());
}

fn pending_with(findings: &str) -> StoredReconciliationRun {
    let mut pending = new_result(200);
    pending.evaluation.disposition = ReconciliationDisposition::PendingEvidence;
    pending.evaluation.command_ids = vec![text("c1")];
    pending.evaluation.findings = vec![value(findings)];
    match commit_reconciliation_result(Some(requested()), pending) {
        Ok(ResultCommit::Committed(run)) => run,
        _ => panic!("the result was not stored"),
    }
}

fn escalation_with(findings: &str) -> NewManualReconciliationEscalation {
    let mut manual = evaluation(Some(200), ReconciliationDisposition::ManualRequired);
    manual.command_ids = vec![text("c1")];
    manual.findings = vec![value(findings)];
    NewManualReconciliationEscalation {
        evidence: ManualReconciliationEvidence {
            request_id: text("q1"),
            escalated_at: 300,
            reason: text("lost"),
        },
        evaluation: manual,
        updated_at: 300,
    }
}

#[test]
fn findings_are_compared_as_values() {
    let escalates = |stored: &str, incoming: &str| {
        escalate_reconciliation_manual(Some(pending_with(stored)), escalation_with(incoming))
    };
    let run = escalates("[0.0]", "[-0.0]").unwrap();
    assert!(run.was_inserted());
    assert!(matches!(
        escalate_reconciliation_manual(Some(run.into_record()), escalation_with("[0.0]")),
        Ok(WriteOutcome::Duplicate(_))
    ));
    assert!(escalates(r#"{"a":1,"b":{"c":-0.0}}"#, r#"{"b":{"c":0.0},"a":1}"#).is_ok());
    assert!(escalates(r#"["-0.0",null,true]"#, r#"["-0.0",null,true]"#).is_ok());
    for (stored, incoming) in [
        ("[0]", "[0.0]"),
        ("[1.5]", "[-1.5]"),
        (r#"["0.0"]"#, r#"["-0.0"]"#),
        ("[1,2]", "[2,1]"),
        (r#"{"a":1}"#, r#"{"a":1,"b":1}"#),
    ] {
        assert!(matches!(
            escalates(stored, incoming),
            Err(StoreError::InvalidRecord { reason, .. })
                if reason == "manual evaluation may only change a pending result disposition"
        ));
    }
}

#[test]
fn runs_with_equal_findings_are_read_back() {
    let pending = pending_with("[0.0]");
    let result = new_result(200).result;
    let payload = text(result.payload.as_str());
    let escalation = escalation_with("[-0.0]");
    let row = ReconciliationRunRow {
        status: text("MANUAL_RECONCILIATION_REQUIRED"),
        result_evaluation: present("{}", pending.result_evaluation.unwrap()),
        manual_evidence: present("{}", escalation.evidence),
        manual_evaluation: present("{}", escalation.evaluation),
        result: present(&payload, result),
        updated_at: 300,
        ..completed_row()
    };
    let run = reconciliation_run_from_row(row).unwrap();
    assert_eq!(run.status, ReconciliationRunStatus::ManualReconciliationRequired);
}

#[test]
fn results_are_repeated_with_equal_numbers() {
    let with = |payload: &str| {
        let mut result = new_result(200);
        result.result.payload = json(payload);
        result
    };
    let stored = || match commit_reconciliation_result(Some(requested()), with("[0.0,1.5]")) {
        Ok(ResultCommit::Committed(run)) => run,
        _ => panic!("the result was not stored"),
    };
    assert!(matches!(
        commit_reconciliation_result(Some(stored()), with("[-0.0,1.5]")),
        Ok(ResultCommit::Replayed(_))
    ));
    assert!(matches!(
        commit_reconciliation_result(Some(stored()), with("[0.0,-1.5]")),
        Err(StoreError::IdentityConflict { .. })
    ));
}

fn absent<T>() -> OptionalJson<T> {
    OptionalJson { text: None, digest: None, decoded: Err(text("nothing")) }
}

fn present<T>(value: &str, decoded: T) -> OptionalJson<T> {
    let (text, digest) = json(value).into_parts();
    OptionalJson { text: Some(text), digest: Some(digest), decoded: Ok(decoded) }
}

fn run_row() -> ReconciliationRunRow {
    ReconciliationRunRow {
        request_id: text("q1"),
        account_id: text("a1"),
        terminal_id: None,
        client_id: None,
        reason: text("MANUAL_REQUEST"),
        scope: text("ACCOUNT"),
        command_ids_json: None,
        command_ids_hash: None,
        since_server_time: None,
        requested_at: 100,
        status: text("REQUESTED"),
        request_payload: columns(r#"{"request":1}"#),
        request: Ok(request()),
        request_event: Some(requested().request_event),
        has_result_event_id: false,
        result_event: None,
        result_observed_at: None,
        result: absent(),
        result_evaluation: absent(),
        completeness: absent(),
        symbol_metadata_complete: None,
        command_scope_complete: None,
        manual_evidence: absent(),
        manual_evaluation: absent(),
        created_at: 102,
        updated_at: 102,
    }
}

fn completed_row() -> ReconciliationRunRow {
    let run = committed(200);
    let result = new_result(200).result;
    let payload = text(result.payload.as_str());
    ReconciliationRunRow {
        status: text("COMPLETED"),
        has_result_event_id: true,
        result_event: run.result_event,
        result_observed_at: Some(200),
        result: present(&payload, result),
        result_evaluation: present(
            r#"{"evaluation":1}"#,
            evaluation(Some(200), ReconciliationDisposition::Completed),
        ),
        completeness: present(r#"{"completeness":1}"#, completeness()),
        symbol_metadata_complete: Some(1),
        command_scope_complete: Some(1),
        updated_at: 202,
        ..run_row()
    }
}

#[test]
fn stored_runs_are_read_back() {
    assert_eq!(reconciliation_run_from_row(run_row()).unwrap(), requested());
    assert_eq!(reconciliation_run_from_row(completed_row()).unwrap(), committed(200));
}

#[test]
fn torn_runs_are_noticed() {
    let told = |row: ReconciliationRunRow| match reconciliation_run_from_row(row) {
        Err(StoreError::CorruptData { reason, .. }) => reason,
        other => panic!("{other:?}"),
    };
    let mut row = run_row();
    row.request_event = None;
    assert_eq!(told(row), "request event is missing");
    let mut row = run_row();
    row.account_id = text("a2");
    assert_eq!(told(row), "request payload aliases do not match columns");
    let mut row = run_row();
    row.updated_at = 103;
    assert_eq!(told(row), "created_at/updated_at aliases are not monotonic");
    let mut row = completed_row();
    row.result_evaluation = absent();
    assert_eq!(told(row), "result columns are only partially populated");
    let mut row = completed_row();
    row.symbol_metadata_complete = Some(0);
    assert_eq!(told(row), "result payload aliases do not match columns or request");
    let mut row = completed_row();
    row.result_event = None;
    assert_eq!(told(row), "result event is missing");
    let mut row = run_row();
    row.status = text("MANUAL_RECONCILIATION_REQUIRED");
    assert_eq!(told(row), "manual status requires explicit evidence");
    let mut row = run_row();
    row.request = Err(text("bad payload"));
    assert_eq!(told(row), "bad payload");
    assert!(matches!(
        corrupt_from_invalid(StoreError::conflict("x", "y"), "q1"),
        StoreError::CorruptData { entity: "reconciliation_run", reason, .. }
            if reason == "x identity aliases do not match"
    ));
}

#[test]
fn the_newest_observation_stays() {
    let kept = || Some((100, text("h")));
    let ask = |at: i64, hash: &str| classify_latest("e", text("k"), at, hash, kept());
    assert_eq!(ask(101, "x").unwrap(), ApplyDecision::Applied);
    assert_eq!(ask(99, "x").unwrap(), ApplyDecision::IgnoredOlder);
    assert_eq!(ask(100, "h").unwrap(), ApplyDecision::Unchanged);
    assert!(matches!(
        ask(100, "x"),
        Err(StoreError::ObservationConflict { entity: "e", observed_at: 100, .. })
    ));
    assert_eq!(classify_latest("e", text("k"), 1, "x", None).unwrap(), ApplyDecision::Applied);
    let member = |at: i64, hash: &str| {
        classify_full_set_member("e", "k", at, hash, Some(100), &Some(text("h")))
    };
    assert_eq!(member(99, "h").unwrap(), Some(ApplyDecision::IgnoredOlder));
    assert_eq!(member(100, "h").unwrap(), Some(ApplyDecision::Unchanged));
    assert_eq!(member(101, "x").unwrap(), None);
    assert!(matches!(member(100, "x"), Err(StoreError::ObservationConflict { .. })));
    let set = |at: i64, hash: &str| compare_full_set("s", &text("a1"), at, hash, kept());
    assert_eq!(set(101, "x").unwrap(), FullSetDecision::Applied);
    assert_eq!(set(99, "x").unwrap(), FullSetDecision::IgnoredOlder);
    assert_eq!(set(100, "h").unwrap(), FullSetDecision::Unchanged);
    assert!(matches!(set(100, "x"), Err(StoreError::ObservationConflict { .. })));
}

#[test]
fn checkpoints_go_forward() {
    let advance = |at: i64, existing: Option<AccountReconciliationCheckpoint>| {
        advance_checkpoint(
            &request(),
            &result(at, vec![]),
            &evaluation(Some(at), ReconciliationDisposition::Completed),
            completeness(),
            &json("[]"),
            &json("[]"),
            at + 1,
            existing,
        )
    };
    let first = advance(200, None);
    assert_eq!(first.result_observed_at, 200);
    assert_eq!(first.pending_commands_reconciled_at, Some(200));
    assert_eq!(first.positions_set_hash, json("[]").sha256_hex());
    let older = advance(150, Some(advance(200, None)));
    assert_eq!(older, advance(200, None));
    let newer = advance(300, Some(first));
    assert_eq!(newer.result_observed_at, 300);
    assert_eq!(newer.updated_at, 301);
    require_checkpoint_account("a1", &text("a1")).unwrap();
    assert!(require_checkpoint_account("a2", &text("a1")).is_err());
}

fn member_row(id: &str, at: i64, value: i64) -> SetMemberRow {
    SetMemberRow {
        set_observed_at: at,
        id: text(id),
        payload: columns(&payload(id, at, value)),
        value: Ok(SnapshotValue {
            account_id: text("a1"),
            id: text(id),
            symbol: text("EURUSD"),
            observed_at: at,
        }),
        latest: Some((at, text(json(&payload(id, at, value)).sha256_hex()))),
    }
}

fn applied(at: i64, positions: Vec<Snapshot>) -> AccountProjection {
    AccountProjection::new(text("a1"))
        .apply_result(
            &request(),
            &result(at, positions),
            &evaluation(Some(at), ReconciliationDisposition::Completed),
            completeness(),
            at + 1,
        )
        .unwrap()
}

#[test]
fn full_sets_are_kept_whole() {
    let state = applied(200, vec![snapshot("p1", 200, 5)]);
    let checkpoint = state.checkpoint.unwrap();
    assert_eq!(
        checkpoint.positions_set_hash,
        json(&format!("[{}]", payload("p1", 200, 5))).sha256_hex()
    );
    let check = |rows: Vec<SetMemberRow>, live: Vec<String>| {
        validate_membership(FullSetKind::Positions, &checkpoint, rows, &live)
    };
    check(vec![member_row("p1", 200, 5)], vec![text("p1")]).unwrap();
    assert!(matches!(
        check(vec![member_row("p1", 200, 6)], vec![text("p1")]),
        Err(StoreError::CorruptData { reason, .. })
            if reason == "positions_set_hash does not match membership"
    ));
    assert!(matches!(
        check(vec![], vec![]),
        Err(StoreError::CorruptData { reason, .. })
            if reason == "positions_set_hash does not match membership"
    ));
    assert!(matches!(
        check(vec![member_row("p1", 199, 5)], vec![text("p1")]),
        Err(StoreError::CorruptData { .. })
    ));
    assert!(matches!(
        check(vec![member_row("p1", 200, 5)], vec![text("p1"), text("p2")]),
        Err(StoreError::CorruptData { .. })
    ));
    let mut lost = member_row("p1", 200, 5);
    lost.latest = None;
    assert!(matches!(check(vec![lost], vec![text("p1")]), Err(StoreError::CorruptData { .. })));
    let full = |rows: Vec<SetMemberRow>| StoredFullSet {
        live: rows.iter().map(|row| row.id.clone()).collect(),
        rows,
    };
    let runs = || ReadinessRuns {
        account: vec![committed(200)],
        symbols: vec![committed(200)],
        commands: vec![committed(200)],
    };
    validate_checkpoint_integrity(
        &checkpoint,
        &Some(committed(200)),
        &runs(),
        full(vec![member_row("p1", 200, 5)]),
        full(vec![]),
    )
    .unwrap();
    assert!(matches!(
        validate_checkpoint_integrity(
            &checkpoint,
            &None,
            &runs(),
            full(vec![member_row("p1", 200, 5)]),
            full(vec![]),
        ),
        Err(StoreError::CorruptData { .. })
    ));
}

#[test]
fn a_full_set_replaces_what_is_older() {
    let mut state = AccountProjection::new(text("a1"));
    for (id, at) in [("p1", 100), ("p2", 150), ("p3", 250)] {
        state.apply_snapshot(DurableProjection::Position, &snapshot(id, at, 1), at).unwrap();
    }
    let mut state = state
        .apply_result(
            &request(),
            &result(200, vec![snapshot("p1", 200, 5)]),
            &evaluation(Some(200), ReconciliationDisposition::Completed),
            completeness(),
            201,
        )
        .unwrap();
    let held = |state: &AccountProjection| {
        let mut ids: Vec<(String, i64)> =
            state.positions.rows().iter().map(|row| (row.id.clone(), row.observed_at)).collect();
        ids.sort();
        ids
    };
    assert_eq!(held(&state), vec![(text("p1"), 200), (text("p3"), 250)]);
    let again =
        state.apply_snapshot(DurableProjection::Position, &snapshot("p2", 150, 1), 300).unwrap();
    assert_eq!(again, ApplyDecision::IgnoredOlder);
    let same =
        state.apply_snapshot(DurableProjection::Position, &snapshot("p1", 200, 5), 300).unwrap();
    assert_eq!(same, ApplyDecision::Unchanged);
    assert!(matches!(
        state.apply_snapshot(DurableProjection::Position, &snapshot("p1", 200, 6), 300),
        Err(StoreError::ObservationConflict { entity: "position_snapshot", .. })
    ));
    assert_eq!(held(&state).len(), 2);
}

#[test]
fn tables_hold_one_row_each() {
    let mut table = LatestTable::new();
    let seen = table.observe(SnapshotKind::Market, &snapshot("EURUSD", 10, 1), 11).unwrap();
    assert_eq!(seen, ApplyDecision::Applied);
    table.observe(SnapshotKind::Market, &snapshot("EURUSD", 20, 2), 21).unwrap();
    assert_eq!(table.rows().len(), 1);
    assert_eq!(table.get("EURUSD").unwrap().observed_at, 20);
    assert!(table.get("USDJPY").is_none());
    assert_eq!(
        update_market_snapshot(&mut table, &snapshot("EURUSD", 15, 3), 30).unwrap(),
        ProjectionWriteOutcome::ProjectionIgnored
    );
    assert_eq!(
        update_market_snapshot(&mut table, &snapshot("EURUSD", 30, 3), 30).unwrap(),
        ProjectionWriteOutcome::Applied
    );
}

fn replayed(id: &str, kind: DurableProjection, of: Snapshot) -> ReplayedEvent {
    let at = of.observed_at;
    ReplayedEvent {
        event_id: text(id),
        event: Some(StoredCoreEvent {
            metadata: metadata(id, kind.event_type(), at),
            payload: of.payload.clone(),
        }),
        snapshot: Ok(of),
        result: Err(text("no result")),
        run: None,
    }
}

fn replayed_result(at: i64) -> ReplayedEvent {
    let run = committed(at);
    ReplayedEvent {
        event_id: text("e2"),
        event: committed(at).result_event,
        snapshot: Err(text("no snapshot")),
        result: Ok(new_result(at).result),
        run: Some(run),
    }
}

fn positions(accounts: &Vec<AccountProjection>) -> Vec<(String, i64, String)> {
    let mut found: Vec<(String, i64, String)> = accounts
        .iter()
        .flat_map(|account| account.positions.rows())
        .map(|row| (row.id.clone(), row.observed_at, text(row.payload.sha256_hex())))
        .collect();
    found.sort();
    found
}

#[test]
fn replay_order_is_immaterial() {
    let events = || {
        vec![
            replayed("x1", DurableProjection::Position, snapshot("p1", 150, 4)),
            replayed("x2", DurableProjection::Position, snapshot("p1", 200, 5)),
            replayed("x3", DurableProjection::Position, snapshot("p2", 120, 7)),
            replayed("x4", DurableProjection::Position, snapshot("p3", 250, 8)),
            replayed_result(200),
        ]
    };
    let first = replay_reconciliation_events(&events()).unwrap();
    assert_eq!(first.report.replayed_snapshot_facts, 4);
    assert_eq!(first.report.replayed_reconciliation_results, 1);
    let found = positions(&first.accounts);
    assert_eq!(found.len(), 2);
    assert_eq!((found[0].0.as_str(), found[0].1), ("p1", 200));
    assert_eq!((found[1].0.as_str(), found[1].1), ("p3", 250));
    for turn in 0..5 {
        let mut other = events();
        other.rotate_left(turn);
        let again = replay_reconciliation_events(&other).unwrap();
        assert_eq!(positions(&again.accounts), found);
        let mut back = events();
        back.rotate_left(turn);
        back.reverse();
        let again = replay_reconciliation_events(&back).unwrap();
        assert_eq!(positions(&again.accounts), found);
        assert_eq!(again.accounts[0].checkpoint, first.accounts[0].checkpoint);
    }
}

#[test]
fn rebuilt_checkpoints_are_not_refused() {
    let events = vec![
        replayed("x1", DurableProjection::Position, snapshot("p1", 150, 4)),
        replayed("x2", DurableProjection::Position, snapshot("p9", 160, 4)),
        replayed_result(200),
        replayed("x3", DurableProjection::Position, snapshot("p1", 200, 5)),
        replayed("x4", DurableProjection::Position, snapshot("p1", 210, 6)),
        replayed("x5", DurableProjection::Position, snapshot("p3", 250, 8)),
    ];
    let state = replay_reconciliation_events(&events).unwrap().accounts.pop().unwrap();
    let checkpoint = state.checkpoint.unwrap();
    let rows: Vec<SetMemberRow> = state
        .position_members
        .rows()
        .iter()
        .map(|row| {
            let mut stored = member_row(row.id.as_str(), row.observed_at, 5);
            assert_eq!(stored.payload.text, row.payload.as_str());
            stored.latest = state
                .positions
                .get(row.id.as_str())
                .map(|latest| (latest.observed_at, text(latest.payload.sha256_hex())));
            stored
        })
        .collect();
    assert_eq!(rows.len(), 1);
    assert_eq!(rows[0].latest.as_ref().map(|latest| latest.0), Some(210));
    let live = state
        .positions
        .rows()
        .iter()
        .filter(|row| row.observed_at <= checkpoint.positions_observed_at)
        .map(|row| row.id.clone())
        .collect();
    validate_checkpoint_integrity(
        &checkpoint,
        &Some(committed(200)),
        &ReadinessRuns {
            account: vec![committed(200)],
            symbols: vec![committed(200)],
            commands: vec![committed(200)],
        },
        StoredFullSet { rows, live },
        StoredFullSet { rows: vec![], live: vec![] },
    )
    .unwrap();
}

#[test]
fn broken_events_stop_a_replay() {
    let told = |event: ReplayedEvent| match replay_reconciliation_events(&vec![event]) {
        Err(StoreError::CorruptData { reason, .. }) => reason,
        _ => panic!("the replay went on"),
    };
    let mut gone = replayed("x1", DurableProjection::Account, snapshot("a1", 1, 1));
    gone.event = None;
    assert_eq!(told(gone), "event disappeared");
    let mut loose = replayed_result(200);
    loose.run = None;
    assert_eq!(told(loose), "reconciliation result has no durable run");
    let mut bad = replayed("x1", DurableProjection::Account, snapshot("a1", 1, 1));
    bad.snapshot = Err(text("torn"));
    assert_eq!(told(bad), "torn");
    let conflicting = vec![
        replayed("x1", DurableProjection::Order, snapshot("o1", 1, 1)),
        replayed("x2", DurableProjection::Order, snapshot("o1", 1, 2)),
    ];
    assert!(matches!(
        replay_reconciliation_events(&conflicting),
        Err(StoreError::ObservationConflict { .. })
    ));
}

fn fact(id: &str, of: Snapshot) -> EvidenceEvent {
    EvidenceEvent {
        event_id: text(id),
        kind: EvidenceKind::Position,
        account_id: text("a1"),
        payload: columns(of.payload.as_str()),
        snapshot: Ok(of),
        result: Err(text("no result")),
    }
}

fn result_fact(at: i64, positions: Vec<Snapshot>) -> EvidenceEvent {
    let of = result(at, positions);
    EvidenceEvent {
        event_id: text("e2"),
        kind: EvidenceKind::Result,
        account_id: text("a1"),
        payload: columns(of.payload.as_str()),
        snapshot: Err(text("no snapshot")),
        result: Ok(of),
    }
}

#[test]
fn facts_and_full_sets_must_agree() {
    let check = |events: Vec<EvidenceEvent>| {
        validate_account_durable_snapshot_full_set_consistency(&text("a1"), &events)
    };
    check(vec![
        fact("x1", snapshot("p1", 200, 5)),
        fact("x2", snapshot("p2", 199, 5)),
        result_fact(200, vec![snapshot("p1", 200, 5)]),
    ])
    .unwrap();
    assert!(matches!(
        check(vec![
            fact("x1", snapshot("p2", 200, 5)),
            result_fact(200, vec![snapshot("p1", 200, 5)]),
        ]),
        Err(StoreError::ObservationConflict { observed_at: 200, .. })
    ));
    assert!(matches!(
        check(vec![
            fact("x1", snapshot("p1", 200, 6)),
            result_fact(200, vec![snapshot("p1", 200, 5)]),
        ]),
        Err(StoreError::ObservationConflict { .. })
    ));
    assert!(matches!(
        check(vec![fact("x1", snapshot("p1", 10, 1)), fact("x2", snapshot("p1", 10, 2))]),
        Err(StoreError::ObservationConflict { .. })
    ));
    let mut stranger = fact("x1", snapshot("p1", 10, 1));
    stranger.account_id = text("a2");
    assert!(check(vec![stranger]).is_err());
    validate_all_durable_snapshot_full_set_consistency(&vec![AccountEvidence {
        account_id: text("a1"),
        events: vec![fact("x1", snapshot("p1", 10, 1))],
    }])
    .unwrap();
}

#[test]
fn projections_are_rebuilt_from_sound_facts() {
    let events = || {
        vec![
            replayed("x1", DurableProjection::Position, snapshot("p1", 200, 5)),
            replayed_result(200),
        ]
    };
    let evidence = |value: i64| {
        vec![
            fact("x1", snapshot("p1", 200, value)),
            result_fact(200, vec![snapshot("p1", 200, 5)]),
        ]
    };
    let all = |value: i64| vec![AccountEvidence { account_id: text("a1"), events: evidence(value) }];
    let rebuilt = rebuild_reconciliation_projections(&all(5), &events()).unwrap();
    assert_eq!(positions(&rebuilt.accounts).len(), 1);
    assert!(rebuild_reconciliation_projections(&all(6), &events()).is_err());
    let one =
        rebuild_reconciliation_account_projections(&text("a1"), &evidence(5), &events()).unwrap();
    assert_eq!(positions(&one.accounts), positions(&rebuilt.accounts));
}

fn core_event(id: &str, kind: DurableProjection, of: &Snapshot) -> NewCoreEvent {
    NewCoreEvent {
        metadata: metadata(id, kind.event_type(), of.observed_at),
        payload: of.payload.clone(),
    }
}

#[test]
fn repeated_facts_change_nothing() {
    let mut state = AccountProjection::new(text("a1"));
    let of = snapshot("p1", 100, 1);
    let event = core_event("x1", DurableProjection::Position, &of);
    let evidence = vec![fact("x1", snapshot("p1", 100, 1))];
    let kind = DurableProjection::Position;
    assert_eq!(
        ingest_durable(&mut state, kind, &event, &of, vec![], &evidence).unwrap(),
        ProjectionWriteOutcome::Applied
    );
    let stored = || vec![StoredCoreEvent {
        metadata: metadata("x1", "position.snapshot", 100),
        payload: of.payload.clone(),
    }];
    assert_eq!(
        ingest_durable(&mut state, kind, &event, &of, stored(), &evidence).unwrap(),
        ProjectionWriteOutcome::Duplicate
    );
    assert_eq!(state.positions.rows().len(), 1);
    let older = snapshot("p1", 50, 9);
    let late = core_event("x2", kind, &older);
    assert_eq!(
        ingest_durable(&mut state, kind, &late, &older, vec![], &evidence).unwrap(),
        ProjectionWriteOutcome::FactAppendedProjectionIgnored
    );
    let mut wrong = core_event("x3", kind, &of);
    wrong.metadata.event_type = text("order.snapshot");
    assert!(matches!(
        ingest_durable(&mut state, kind, &wrong, &of, vec![], &evidence),
        Err(StoreError::IdentityConflict { entity: "core_event", .. })
    ));
}

fn bar(value: i64) -> MarketBar {
    MarketBar {
        symbol: text("EURUSD"),
        timeframe: text("M1"),
        timestamp: 60,
        payload: json(&format!(r#"{{"close":{value}}}"#)),
    }
}

#[test]
fn bars_are_never_replaced() {
    let event = |id: &str, value: i64| NewCoreEvent {
        metadata: metadata(id, "market.bar", 60),
        payload: bar(value).payload,
    };
    let mut bars: Vec<BarRow> = vec![];
    assert_eq!(
        ingest_market_bar(&mut bars, &event("b1", 1), &bar(1), vec![]).unwrap(),
        ProjectionWriteOutcome::Applied
    );
    assert!(ingest_market_bar(&mut bars, &event("b2", 1), &bar(1), vec![]).is_ok());
    assert!(matches!(
        ingest_market_bar(&mut bars, &event("b3", 2), &bar(2), vec![]),
        Err(StoreError::ObservationConflict { .. })
    ));
    assert_eq!(bars.len(), 1);
    assert_eq!(classify_market_bar("a1", &bar(1), &None).unwrap(), ApplyDecision::Applied);
}

#[test]
fn ingested_facts_are_counted() {
    let ingested = |id: &str, kind: &str, of: Snapshot| IngestedEvent {
        event_id: text(id),
        event_type: text(kind),
        account_id: Some(text("a1")),
        received_at: of.observed_at + 1,
        payload: columns(of.payload.as_str()),
        snapshot: Ok(of),
        bar: Err(text("no bar")),
    };
    let events = vec![
        ingested("x1", "account.snapshot", snapshot("a1", 100, 1)),
        ingested("x2", "account.snapshot", snapshot("a1", 50, 1)),
        ingested("x3", "account.snapshot", snapshot("a1", 100, 1)),
        ingested("x4", "symbol.metadata", snapshot("EURUSD", 10, 1)),
    ];
    let rebuilt = replay_ingested_events(&events).unwrap();
    assert_eq!(rebuilt.report.replayed_facts, 4);
    assert_eq!(rebuilt.report.applied, 2);
    assert_eq!(rebuilt.report.ignored_older, 1);
    assert_eq!(rebuilt.report.unchanged, 1);
    assert_eq!(rebuilt.accounts.len(), 1);
    let alone = rebuild_ingest_projections(&vec![], &events, &vec![]).unwrap();
    assert_eq!(alone.report, rebuilt.report);
    assert!(alone.accounts.is_empty());
    let mut stranger = ingested("x5", "account.snapshot", snapshot("a1", 100, 1));
    stranger.account_id = Some(text("a2"));
    assert!(matches!(
        replay_ingested_events(&vec![stranger]),
        Err(StoreError::CorruptData { .. })
    ));
}

#[test]
fn ingest_rebuilds_keep_reconciliations() {
    let ingested = |id: &str, kind: &str, of: Snapshot| IngestedEvent {
        event_id: text(id),
        event_type: text(kind),
        account_id: Some(text("a1")),
        received_at: of.observed_at + 1,
        payload: columns(of.payload.as_str()),
        snapshot: Ok(of),
        bar: Ok(bar(1)),
    };
    let events = vec![
        ingested("x1", "position.snapshot", snapshot("p1", 150, 4)),
        ingested("x2", "position.snapshot", snapshot("p9", 160, 4)),
        ingested("b1", "market.bar", snapshot("b", 170, 1)),
        ingested("x3", "position.snapshot", snapshot("p1", 140, 3)),
    ];
    let observed = || {
        vec![
            replayed("x1", DurableProjection::Position, snapshot("p1", 150, 4)),
            replayed("x2", DurableProjection::Position, snapshot("p9", 160, 4)),
            replayed("x3", DurableProjection::Position, snapshot("p1", 140, 3)),
        ]
    };
    let mut committed = observed();
    committed.push(replayed_result(200));
    let rebuilt = rebuild_ingest_projections(&vec![], &events, &committed).unwrap();
    assert_eq!(rebuilt.report.replayed_facts, 4);
    assert_eq!(rebuilt.report.applied, 3);
    assert_eq!(rebuilt.report.ignored_older, 1);
    assert_eq!(rebuilt.bars.len(), 1);
    let held: Vec<(String, i64)> =
        positions(&rebuilt.accounts).into_iter().map(|held| (held.0, held.1)).collect();
    assert_eq!(held, vec![(text("p1"), 200)]);
    assert_eq!(rebuilt.accounts[0].position_members.rows().len(), 1);
    let checkpoint = rebuilt.accounts[0].checkpoint.as_ref().unwrap();
    assert_eq!(checkpoint.result_observed_at, 200);
    let plain = rebuild_ingest_projections(&vec![], &events, &observed()).unwrap();
    assert!(plain.accounts[0].checkpoint.is_none());
    assert_eq!(
        positions(&plain.accounts),
        positions(&replay_ingested_events(&events).unwrap().accounts)
    );
    let mut broken = observed();
    broken.push(replayed_result(200));
    broken[3].run = None;
    assert!(matches!(
        rebuild_ingest_projections(&vec![], &events, &broken),
        Err(StoreError::CorruptData { .. })
    ));
}

#[test]
fn sets_and_commands_are_written_as_lists() {
    let set = vec![snapshot("p1", 200, 5), snapshot("p2", 200, 6)];
    assert_eq!(
        set_json(&set).unwrap().as_str(),
        format!("[{},{}]", payload("p1", 200, 5), payload("p2", 200, 6))
    );
    assert_eq!(set_json(&vec![]).unwrap().as_str(), "[]");
    let mut asked = request();
    assert!(command_ids_json(&asked).unwrap().is_none());
    asked.command_ids = Some(vec![text("c\"1"), text("c2")]);
    assert_eq!(command_ids_json(&asked).unwrap().unwrap().as_str(), r#"["c\"1","c2"]"#);
    let mut row = run_row();
    let targeted = || ReconciliationRequest {
        command_ids: Some(vec![text("c1"), text("c2")]),
        ..request()
    };
    row.request = Ok(targeted());
    row.scope = text(scope_name(&targeted()));
    let (list, digest) = json(r#"["c1","c2"]"#).into_parts();
    row.command_ids_json = Some(list);
    row.command_ids_hash = Some(digest);
    let read = reconciliation_run_from_row(row).unwrap();
    assert_eq!(read.request.command_ids, Some(vec![text("c1"), text("c2")]));
    let mut row = run_row();
    row.request = Ok(targeted());
    row.scope = text(scope_name(&targeted()));
    let (list, digest) = json(r#"["c1"]"#).into_parts();
    row.command_ids_json = Some(list);
    row.command_ids_hash = Some(digest);
    assert!(matches!(
        reconciliation_run_from_row(row),
        Err(StoreError::CorruptData { reason, .. })
            if reason == "request payload aliases do not match columns"
    ));
}

#[test]
fn observations_repeat_their_columns() {
    let row = |id: &str| SnapshotRow {
        account_id: text("a1"),
        id: text(id),
        symbol: text("EURUSD"),
        payload: columns(&payload("p1", 10, 1)),
        observed_at: 10,
        value: Ok(SnapshotValue {
            account_id: text("a1"),
            id: text("p1"),
            symbol: text("EURUSD"),
            observed_at: 10,
        }),
    };
    assert_eq!(
        snapshot_from_row(SnapshotKind::Position, row("p1")).unwrap(),
        snapshot("p1", 10, 1)
    );
    assert!(matches!(
        snapshot_from_row(SnapshotKind::Position, row("p2")),
        Err(StoreError::CorruptData { .. })
    ));
}
