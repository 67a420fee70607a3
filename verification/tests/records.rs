use sinan_store::circuit_breaker::{
    circuit_breaker_head_metadata, circuit_breaker_snapshot_from_row, settle_circuit_breaker_race,
    write_circuit_breaker_snapshot, CircuitBreakerRow,
};
use sinan_store::columns::{EnumColumn, JsonColumns};
use sinan_store::core_events::{core_event_from_row, resolve_core_event_replay};
use sinan_store::domain::{
    CommandDeliveryAttemptStatus, SessionStatus, WireOutboxStatus,
};
use sinan_store::error::StoreError;
use sinan_store::event_stream::{
    event_is_visible, resolve_event_stream_append, validate_new_event, EventReplayError,
    EventRetentionPolicy, EventStreamFilter, EventStreamLog, EventStreamRow, NewEventStreamRecord,
};
use sinan_store::json::{sha256_hex, CanonicalJson};
use sinan_store::migrations::{
    applied_migration_from_row, applied_record, unix_timestamp_millis, AppliedMigration,
    Migration, MigrationError, Migrator,
};
use sinan_store::model::{
    CoreEventMetadata, NewCircuitBreakerSnapshot, NewCoreEvent, NewWireInbox, NewWireOutbox,
    StoredCircuitBreakerSnapshot, StoredCoreEvent, WriteOutcome,
};
use sinan_store::options::StoreOptions;
use sinan_store::snapshots::AuthorizedAccountScope;
use sinan_store::transport_events::{
    deadletter_event_from_row, deadletter_length_column, resolve_deadletter_event,
    resolve_system_event, system_event_from_row, validate_deadletter_event,
    validate_system_event, DeadletterEventRow, DeadletterReason, NewDeadletterEvent,
    NewSystemEvent, SystemEventRow, SystemEventSeverity,
};
use sinan_store::wire::{
    enqueue_wire_outbox, record_wire_inbox, resolve_wire_inbox_replay, resolve_wire_outbox_replay,
    wire_inbox_from_row, wire_outbox_from_row, WireEnvelope, WireInboxRow, WireOutboxRow,
};

fn text(value: &str) -> String {
    value.to_string()
}

fn json(value: &str) -> CanonicalJson {
    CanonicalJson::parse(value).unwrap()
}

fn columns(value: &str) -> JsonColumns {
    let (text, digest) = json(value).into_parts();
    JsonColumns { text, digest }
}

fn breaker(expected: Option<u64>, status: &str, epoch: u64) -> NewCircuitBreakerSnapshot {
    NewCircuitBreakerSnapshot {
        expected_head_revision: expected,
        schema_version: text("1.0"),
        status: text(status),
        recovery_epoch: epoch,
        updated_at: 10,
        payload: json(&format!(
            r#"{{"schema_version":"1.0","status":"{status}","recovery_epoch":{epoch}}}"#
        )),
    }
}

fn written(new: NewCircuitBreakerSnapshot, head: Option<u64>) -> StoredCircuitBreakerSnapshot {
    match write_circuit_breaker_snapshot(new, head, None) {
        Ok(WriteOutcome::Inserted(stored)) => stored,
        other => panic!("{other:?}"),
    }
}

#[test]
fn breaker_states_form_a_chain() {
    let first = written(breaker(None, "CLOSED", 0), None);
    assert_eq!(first.state_revision, 1);
    assert_eq!(first.scope, "GLOBAL");
    let second = written(breaker(Some(1), "OPEN", 1), Some(1));
    assert_eq!(second.state_revision, 2);
    assert!(matches!(
        write_circuit_breaker_snapshot(breaker(Some(1), "CLOSED", 3), Some(2), Some(second)),
        Err(StoreError::StaleWrite { entity: "circuit_breaker_snapshot", .. })
    ));
}

#[test]
fn a_breaker_state_that_was_written_repeats() {
    let stored = written(breaker(None, "CLOSED", 0), None);
    assert!(matches!(
        write_circuit_breaker_snapshot(breaker(None, "CLOSED", 0), Some(1), Some(stored)),
        Ok(WriteOutcome::Duplicate(_))
    ));
    let stored = written(breaker(None, "CLOSED", 0), None);
    assert!(matches!(
        settle_circuit_breaker_race(&breaker(None, "CLOSED", 0), Some(stored)),
        Ok(WriteOutcome::Duplicate(_))
    ));
}

#[test]
fn breaker_states_must_make_sense() {
    let refused = |new: NewCircuitBreakerSnapshot| {
        write_circuit_breaker_snapshot(new, None, None).unwrap_err().message()
    };
    assert_eq!(
        refused(breaker(None, "AJAR", 0)),
        "invalid circuit_breaker_snapshot record expected_head_revision=none: invalid status \"AJAR\""
    );
    let mut other = breaker(None, "CLOSED", 0);
    other.recovery_epoch = 1;
    assert!(refused(other).ends_with("recovery_epoch does not match payload_json"));
    let mut other = breaker(None, "CLOSED", 0);
    other.payload = json("[]");
    assert!(refused(other).ends_with("payload_json must be an object"));
    let mut other = breaker(None, "CLOSED", 0);
    other.updated_at = -1;
    assert!(refused(other).ends_with("updated_at must be non-negative"));
    assert!(matches!(
        write_circuit_breaker_snapshot(breaker(Some(0), "CLOSED", 0), None, None),
        Err(StoreError::InvalidSequence { .. })
    ));
}

#[test]
fn breaker_rows_are_taken_back() {
    let row = |revision: i64| CircuitBreakerRow {
        scope: text("GLOBAL"),
        state_revision: revision,
        schema_version: text("1.0"),
        status: text("OPEN"),
        recovery_epoch: 4,
        updated_at: 10,
        payload: columns(r#"{"schema_version":"1.0","status":"OPEN","recovery_epoch":4}"#),
    };
    assert_eq!(circuit_breaker_snapshot_from_row(row(3)).unwrap().state_revision, 3);
    assert!(matches!(
        circuit_breaker_snapshot_from_row(row(0)),
        Err(StoreError::CorruptData { .. })
    ));
    assert_eq!(circuit_breaker_head_metadata(3, 4).unwrap().recovery_epoch, 4);
    assert!(circuit_breaker_head_metadata(-3, 4).is_err());
}

fn metadata() -> CoreEventMetadata {
    CoreEventMetadata {
        event_id: text("e1"),
        event_type: text("account.snapshot"),
        aggregate_type: text("account"),
        aggregate_id: text("a1"),
        message_id: Some(text("m1")),
        schema_version: text("1.0"),
        correlation_id: None,
        causation_id: None,
        account_id: Some(text("a1")),
        client_id: None,
        terminal_id: None,
        strategy_id: None,
        intent_id: None,
        plan_id: None,
        leg_id: None,
        command_id: None,
        idempotency_key: None,
        event_at: 1,
        received_at: 2,
        created_at: 3,
        source: text("gateway"),
    }
}

#[test]
fn core_events_are_known_when_they_come_again() {
    let stored = || StoredCoreEvent { metadata: metadata(), payload: json("{}") };
    let mut again = NewCoreEvent { metadata: metadata(), payload: json("{}") };
    again.metadata.received_at = 99;
    again.metadata.created_at = 100;
    assert!(matches!(
        resolve_core_event_replay(vec![stored()], &again),
        Ok(WriteOutcome::Duplicate(found)) if found.metadata.received_at == 2
    ));
    again.metadata.event_at = 2;
    match resolve_core_event_replay(vec![stored()], &again) {
        Err(StoreError::IdentityConflict { entity, key }) => {
            assert_eq!(entity, "core_event");
            assert_eq!(key, "event_id=e1 or message_id=m1");
        }
        other => panic!("{other:?}"),
    }
    assert!(core_event_from_row(metadata(), columns("{}")).is_ok());
    let torn = JsonColumns { text: text("{}"), digest: sha256_hex("x") };
    assert!(matches!(
        core_event_from_row(metadata(), torn),
        Err(StoreError::CorruptData { entity: "core_event", .. })
    ));
}

fn message() -> NewWireOutbox {
    NewWireOutbox {
        message_id: text("m1"),
        session_id: Some(text("s1")),
        message_type: text("execution.command"),
        sequence: Some(7),
        command_id: Some(text("cmd1")),
        request_id: None,
        payload: json("{}"),
        status: WireOutboxStatus::Pending,
        created_at: 10,
        updated_at: 10,
        sent_at: None,
        acked_at: None,
        last_error: None,
    }
}

fn envelope() -> Result<WireEnvelope, String> {
    Ok(WireEnvelope {
        message_id: text("m1"),
        message_type: text("execution.command"),
        session_id: Some(text("s1")),
        sequence: Some(7),
        command: Ok(text("cmd1")),
        request: Err(text("no request")),
    })
}

#[test]
fn messages_say_what_their_payload_says() {
    let stored = enqueue_wire_outbox(message(), &envelope()).unwrap();
    assert_eq!(stored.revision, 0);
    let mut other = message();
    other.sequence = Some(8);
    assert!(enqueue_wire_outbox(other, &envelope()).is_err());
    let mut other = message();
    other.command_id = Some(text("cmd2"));
    assert!(enqueue_wire_outbox(other, &envelope()).is_err());
    assert!(enqueue_wire_outbox(message(), &Err(text("torn"))).is_err());
    assert!(matches!(
        resolve_wire_outbox_replay(vec![stored], &message()),
        Ok(WriteOutcome::Duplicate(_))
    ));
    let mut changed = message();
    changed.payload = json("[]");
    let stored = enqueue_wire_outbox(message(), &envelope()).unwrap();
    assert!(matches!(
        resolve_wire_outbox_replay(vec![stored], &changed),
        Err(StoreError::IdentityConflict { .. })
    ));
    let row = WireOutboxRow {
        message_id: text("m1"),
        session_id: Some(text("s1")),
        message_type: text("execution.command"),
        sequence: Some(7),
        command_id: Some(text("cmd1")),
        request_id: None,
        payload: columns("{}"),
        status: EnumColumn { text: text("PENDING"), parsed: Ok(WireOutboxStatus::Pending) },
        revision: 0,
        created_at: 10,
        updated_at: 10,
        sent_at: None,
        acked_at: None,
        last_error: None,
    };
    assert_eq!(
        wire_outbox_from_row(row, &envelope()).unwrap(),
        enqueue_wire_outbox(message(), &envelope()).unwrap()
    );
}

#[test]
fn received_messages_are_known_by_their_digest() {
    let new = || NewWireInbox {
        message_id: text("m1"),
        session_id: Some(text("s1")),
        message_type: text("heartbeat"),
        sequence: Some(1),
        received_at: 5,
        handled_at: None,
        status: text("RECEIVED"),
        wire_message: json("{}"),
    };
    let stored = record_wire_inbox(&new()).unwrap();
    assert_eq!(stored.payload_hash, sha256_hex("{}"));
    assert!(matches!(
        resolve_wire_inbox_replay(vec![stored], &new()),
        Ok(WriteOutcome::Duplicate(_))
    ));
    let mut other = new();
    other.wire_message = json("[]");
    let stored = record_wire_inbox(&new()).unwrap();
    assert!(matches!(
        resolve_wire_inbox_replay(vec![stored], &other),
        Err(StoreError::IdentityConflict { .. })
    ));
    let mut zero = new();
    zero.sequence = Some(0);
    assert!(matches!(record_wire_inbox(&zero), Err(StoreError::InvalidSequence { .. })));
    let row = WireInboxRow {
        message_id: text("m1"),
        session_id: None,
        message_type: text("heartbeat"),
        sequence: None,
        received_at: 5,
        handled_at: None,
        status: EnumColumn { text: text("RECEIVED"), parsed: Ok(text("RECEIVED")) },
        payload_hash: text("short"),
    };
    assert!(matches!(wire_inbox_from_row(row), Err(StoreError::CorruptData { .. })));
}

fn stream_row(sequence: i64, topic: &str, account: Option<&str>) -> EventStreamRow {
    EventStreamRow {
        stream_sequence: sequence,
        event_id: format!("e{sequence}"),
        topic: EnumColumn { text: text(topic), parsed: Ok(text(topic)) },
        account_id: account.map(text),
        event_type: text("x"),
        payload: columns("{}"),
        created_at: sequence * 10,
    }
}

fn stream() -> EventStreamLog {
    EventStreamLog::from_rows(vec![
        stream_row(1, "account.snapshot", Some("a1")),
        stream_row(2, "account.snapshot", Some("a2")),
        stream_row(3, "system.event", None),
        stream_row(5, "account.snapshot", Some("a1")),
        stream_row(8, "order.snapshot", Some("a1")),
    ])
    .unwrap()
}

fn filter(topics: &[&str], accounts: &[&str]) -> EventStreamFilter {
    EventStreamFilter::new(
        topics.iter().map(|topic| text(topic)).collect(),
        AuthorizedAccountScope::new(accounts.iter().map(|account| text(account)).collect()),
    )
}

fn seen(log: &EventStreamLog, after: Option<&str>, filter: &EventStreamFilter, limit: u64) -> Vec<u64> {
    let window = log.replay_event_stream(after, filter, limit).unwrap();
    window.records.iter().map(|record| record.stream_sequence).collect()
}

#[test]
fn subscribers_see_what_they_may_see() {
    let log = stream();
    let own = filter(&["account.snapshot", "system.event"], &["a1"]);
    assert_eq!(seen(&log, Some("e1"), &own, 10), vec![3, 5]);
    assert_eq!(seen(&log, Some("e1"), &own, 1), vec![3]);
    let window = log.replay_event_stream(Some("e1"), &own, 1).unwrap();
    assert!(window.has_more);
    assert_eq!(window.high_water, Some(8));
    assert_eq!(seen(&log, Some("e3"), &own, 1), vec![5]);
    assert_eq!(seen(&log, Some("e1"), &filter(&[], &["a1"]), 5), Vec::<u64>::new());
    assert!(event_is_visible("system.event", &None, &AuthorizedAccountScope::empty()));
    assert!(!event_is_visible("account.snapshot", &None, &AuthorizedAccountScope::empty()));
    let all = EventStreamFilter::all_topics(
        filter(&["orders", "risk"], &[]).topics().clone(),
        AuthorizedAccountScope::new(vec![text("a1")]),
    );
    assert_eq!(all.topics().len(), 2);
    assert!(!all.is_empty());
}

#[test]
fn a_subscriber_without_a_cursor_starts_at_the_end() {
    let log = stream();
    let own = filter(&["account.snapshot"], &["a1"]);
    let window = log.replay_event_stream(None, &own, 10).unwrap();
    assert_eq!(window.high_water, Some(8));
    assert!(window.records.is_empty());
    assert_eq!(log.event_stream_high_water().unwrap(), Some(8));
    let empty = EventStreamLog::from_rows(vec![]).unwrap();
    assert_eq!(empty.event_stream_high_water().unwrap(), None);
}

#[test]
fn hidden_and_unknown_cursors_look_alike() {
    let log = stream();
    let own = filter(&["account.snapshot"], &["a1"]);
    for cursor in ["e2", "e4"] {
        match log.replay_event_stream(Some(cursor), &own, 10) {
            Err(EventReplayError::CursorExpired { event_id }) => assert_eq!(event_id, cursor),
            other => panic!("{other:?}"),
        }
    }
    assert!(matches!(
        log.replay_event_stream(Some("e1"), &own, 0),
        Err(EventReplayError::InvalidLimit)
    ));
}

#[test]
fn pruning_keeps_the_latest_events() {
    let policy = |latest: Option<u64>, since: Option<i64>| EventRetentionPolicy {
        retain_latest: latest,
        created_at_or_after: since,
    };
    let (outcome, left) = stream().prune_event_stream(policy(Some(2), None)).unwrap();
    assert_eq!(outcome.deleted, 3);
    assert_eq!(outcome.oldest_remaining_event_id, Some(text("e5")));
    assert_eq!(outcome.oldest_remaining_sequence, Some(5));
    assert_eq!(left.rows().len(), 2);
    let (outcome, _) = stream().prune_event_stream(policy(Some(9), None)).unwrap();
    assert_eq!(outcome.deleted, 0);
    assert!(matches!(
        stream().prune_event_stream(policy(None, None)),
        Err(StoreError::InvalidRecord { entity: "event_retention_policy", .. })
    ));
    assert!(matches!(
        stream().prune_event_stream(policy(Some(0), None)),
        Err(StoreError::InvalidSequence { .. })
    ));
}

#[test]
fn stream_events_are_appended_once() {
    let new = |topic: &str, account: Option<&str>| NewEventStreamRecord {
        event_id: text("e1"),
        topic: text(topic),
        account_id: account.map(text),
        event_type: text("x"),
        payload: json("{}"),
        created_at: 10,
    };
    assert!(validate_new_event(&new("account.snapshot", Some("a1"))).is_ok());
    assert!(validate_new_event(&new("account.snapshot", None)).is_err());
    assert!(validate_new_event(&new("system.event", None)).is_ok());
    let event = new("account.snapshot", Some("a1"));
    let row = || stream_row(1, "account.snapshot", Some("a1"));
    assert!(matches!(
        resolve_event_stream_append(&event, Some(row()), true),
        Ok(WriteOutcome::Inserted(_))
    ));
    assert!(matches!(
        resolve_event_stream_append(&event, Some(row()), false),
        Ok(WriteOutcome::Duplicate(_))
    ));
    assert!(matches!(
        resolve_event_stream_append(
            &event,
            Some(stream_row(1, "account.snapshot", Some("a2"))),
            false
        ),
        Err(StoreError::IdentityConflict { .. })
    ));
}

fn system_event() -> NewSystemEvent {
    NewSystemEvent {
        system_event_id: text("x1"),
        event_type: text("started"),
        severity: SystemEventSeverity::Warning,
        component: text("gateway"),
        message: text("hello"),
        metadata: Some(json("{}")),
        timestamp: 1,
        created_at: 2,
    }
}

fn deadletter() -> NewDeadletterEvent {
    NewDeadletterEvent {
        deadletter_id: text("d1"),
        message_id: None,
        message_type: None,
        schema_version: None,
        reason: DeadletterReason::DecodeFailed,
        source: text("gateway"),
        raw_payload: Some(text("abc")),
        raw_payload_length: Some(10),
        error_message: text("torn"),
        received_at: 1,
        created_at: 2,
    }
}

#[test]
fn system_events_are_kept() {
    assert!(validate_system_event(&system_event()).is_ok());
    let mut bad = system_event();
    bad.component = text(" ");
    assert!(validate_system_event(&bad).is_err());
    let mut bad = system_event();
    bad.timestamp = -1;
    assert!(validate_system_event(&bad).is_err());
    let row = |severity: &str| SystemEventRow {
        system_event_id: text("x1"),
        event_type: text("started"),
        severity: text(severity),
        component: text("gateway"),
        message: text("hello"),
        metadata_json: Some(text("{}")),
        timestamp: 1,
        created_at: 2,
    };
    let stored = system_event_from_row(row("WARNING")).unwrap();
    assert!(matches!(
        resolve_system_event(&system_event(), Some(stored), false),
        Ok(WriteOutcome::Duplicate(_))
    ));
    assert!(matches!(system_event_from_row(row("LOUD")), Err(StoreError::CorruptData { .. })));
    assert!(matches!(
        resolve_system_event(&system_event(), None, true),
        Err(StoreError::NotFound { .. })
    ));
    let mut other = system_event();
    other.message = text("bye");
    let stored = system_event_from_row(row("WARNING")).unwrap();
    assert!(matches!(
        resolve_system_event(&other, Some(stored), false),
        Err(StoreError::IdentityConflict { .. })
    ));
}

#[test]
fn kept_payload_is_no_longer_than_what_came() {
    assert!(validate_deadletter_event(&deadletter()).is_ok());
    assert_eq!(deadletter_length_column(&deadletter()).unwrap(), Some(10));
    let mut bad = deadletter();
    bad.raw_payload_length = Some(2);
    assert!(validate_deadletter_event(&bad).is_err());
    let mut huge = deadletter();
    huge.raw_payload_length = Some(u64::MAX);
    assert!(matches!(
        deadletter_length_column(&huge),
        Err(StoreError::InvalidInteger { .. })
    ));
    let row = |reason: &str, length: Option<i64>| DeadletterEventRow {
        deadletter_id: text("d1"),
        message_id: None,
        message_type: None,
        schema_version: None,
        reason: text(reason),
        source: text("gateway"),
        raw_payload: Some(text("abc")),
        raw_payload_length: length,
        error_message: text("torn"),
        received_at: 1,
        created_at: 2,
    };
    let stored = deadletter_event_from_row(row("DECODE_FAILED", Some(10))).unwrap();
    assert!(matches!(
        resolve_deadletter_event(&deadletter(), Some(stored), true),
        Ok(WriteOutcome::Inserted(_))
    ));
    assert!(deadletter_event_from_row(row("NO_REASON", Some(10))).is_err());
    assert!(deadletter_event_from_row(row("DECODE_FAILED", Some(-1))).is_err());
}

#[test]
fn names_are_read_back() {
    for status in [SessionStatus::Active, SessionStatus::Stale, SessionStatus::Disconnected] {
        assert_eq!(SessionStatus::parse(status.as_str()), Some(status));
    }
    for status in [
        WireOutboxStatus::Pending,
        WireOutboxStatus::WriteStarted,
        WireOutboxStatus::Sent,
        WireOutboxStatus::Acked,
        WireOutboxStatus::Failed,
        WireOutboxStatus::Cancelled,
    ] {
        assert_eq!(WireOutboxStatus::parse(status.as_str()), Some(status));
    }
    for status in [
        CommandDeliveryAttemptStatus::Pending,
        CommandDeliveryAttemptStatus::Sent,
        CommandDeliveryAttemptStatus::Acked,
        CommandDeliveryAttemptStatus::Unconfirmed,
        CommandDeliveryAttemptStatus::NoActiveSession,
        CommandDeliveryAttemptStatus::Backpressure,
        CommandDeliveryAttemptStatus::Failed,
        CommandDeliveryAttemptStatus::Cancelled,
    ] {
        assert_eq!(CommandDeliveryAttemptStatus::parse(status.as_str()), Some(status));
    }
    for reason in [
        DeadletterReason::UnknownType,
        DeadletterReason::SchemaMajorMismatch,
        DeadletterReason::MissingRequiredField,
        DeadletterReason::InvalidFieldType,
        DeadletterReason::InvalidHmac,
        DeadletterReason::DecodeFailed,
        DeadletterReason::WireFrameTooLarge,
        DeadletterReason::WireProtocolViolation,
        DeadletterReason::SchemaValidationFailed,
    ] {
        assert_eq!(DeadletterReason::parse(reason.as_str()), Some(reason));
    }
    for severity in [
        SystemEventSeverity::Info,
        SystemEventSeverity::Warning,
        SystemEventSeverity::Error,
        SystemEventSeverity::Critical,
    ] {
        assert_eq!(SystemEventSeverity::parse(severity.as_str()), Some(severity));
    }
    assert_eq!(SessionStatus::parse("active"), None);
}

fn migrator() -> Migrator {
    Migrator::new(vec![
        Migration::new(1, "first", "CREATE TABLE a (x)"),
        Migration::new(2, "second", "CREATE TABLE b (y)"),
    ])
    .unwrap()
}

#[test]
fn migrations_count_up_from_one() {
    assert!(matches!(
        Migrator::new(vec![Migration::new(2, "second", "")]),
        Err(MigrationError::InvalidSequence { expected: 1, found: 2 })
    ));
    assert_eq!(
        Migration::new(1, "first", "abc").checksum(),
        "ba7816bf8f01cfea414140de5dae2223b00361a396177a9cb410ff61f20015ad"
    );
    let pending = migrator().pending(&vec![], 0).unwrap();
    assert_eq!(pending.len(), 2);
    let applied: Vec<AppliedMigration> = vec![applied_record(&pending[0])];
    let rest = migrator().pending(&applied, 1).unwrap();
    assert_eq!(rest.len(), 1);
    assert_eq!(rest[0].version(), 2);
    assert_eq!(rest[0].name(), "second");
}

#[test]
fn changed_migrations_are_noticed() {
    let applied = |version: u32, name: &str, sql: &str| AppliedMigration {
        version,
        name: text(name),
        checksum: sha256_hex(sql),
    };
    let ask = |applied: AppliedMigration, version: i64| {
        migrator().pending(&vec![applied], version).unwrap_err()
    };
    assert!(matches!(
        ask(applied(1, "first", "CREATE TABLE a (z)"), 1),
        MigrationError::ChecksumMismatch { version: 1, name: "first" }
    ));
    assert_eq!(
        ask(applied(1, "other", "CREATE TABLE a (x)"), 1).message(),
        "migration 1 name mismatch: expected \"first\", database contains \"other\""
    );
    assert!(matches!(
        ask(applied(2, "second", "CREATE TABLE b (y)"), 2),
        MigrationError::InvalidAppliedSequence { expected: 1, found: 2 }
    ));
    assert!(matches!(
        ask(applied(1, "first", "CREATE TABLE a (x)"), 2),
        MigrationError::UserVersionMismatch { expected: 1, actual: 2 }
    ));
    let one = Migrator::new(vec![Migration::new(1, "first", "CREATE TABLE a (x)")]).unwrap();
    let two = vec![
        applied(1, "first", "CREATE TABLE a (x)"),
        applied(2, "second", "CREATE TABLE b (y)"),
    ];
    assert!(matches!(
        one.pending(&two, 2),
        Err(MigrationError::DatabaseAhead { applied: 2, available: 1 })
    ));
    assert!(matches!(
        applied_migration_from_row(-1, text("x"), text("y")),
        Err(MigrationError::InvalidStoredVersion { found: -1 })
    ));
    assert_eq!(unix_timestamp_millis(Some(12)).unwrap(), 12);
    assert!(matches!(
        unix_timestamp_millis(None),
        Err(MigrationError::TimeBeforeUnixEpoch)
    ));
    assert!(matches!(
        unix_timestamp_millis(Some(u128::MAX)),
        Err(MigrationError::TimestampOverflow)
    ));
}

#[test]
fn stores_are_opened_the_usual_way() {
    let options = StoreOptions::new(text("sqlite::memory:"));
    assert_eq!(options.database_url, "sqlite::memory:");
    assert_eq!(options.max_connections, 5);
    assert_eq!(options.busy_timeout_millis, 5000);
    assert!(options.create_if_missing);
}

#[test]
fn second_runs_do_nothing() {
    let known = vec![applied_record(&migrator().pending(&vec![], 0).unwrap()[0])];
    let first = migrator().run(known, 1).unwrap();
    assert_eq!(first.executed.len(), 1);
    assert_eq!(first.executed[0].version(), 2);
    let versions: Vec<u32> = first.applied.iter().map(|record| record.version).collect();
    assert_eq!(versions, vec![1, 2]);
    assert_eq!(first.user_version, 2);
    let second = migrator().run(first.applied, first.user_version).unwrap();
    assert!(second.executed.is_empty());
    assert_eq!(second.applied.len(), 2);
    assert_eq!(second.user_version, 2);
    assert!(matches!(
        migrator().run(vec![], 1),
        Err(MigrationError::UserVersionMismatch { expected: 0, actual: 1 })
    ));
}
