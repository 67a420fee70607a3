use sinan_store::columns::JsonColumns;
use sinan_store::control_plane::{
    execution_command_status_bundle, latest_risk_results, load_control_plane_state,
    plan_command_ids, trade_intent_workflow_status, ControlPlaneRecords, ControlPlaneStateLimits,
    PlanCommand,
};
use sinan_store::error::StoreError;
use sinan_store::json::CanonicalJson;
use sinan_store::outbound_work::{
    claimed_command, claimed_request, lease_work, new_work, ClaimOutboundDeliveryWork,
    ClaimedOutboundDelivery, OutboundDeliveryWorkSubject,
};
use sinan_store::latest_state::{load_latest_state, LatestStateRows};
use sinan_store::listing::{latest_of, newest_shown, oldest_first};
use sinan_store::model::{
    CoreEventMetadata, StoredCircuitBreakerSnapshot, StoredCoreEvent,
};
use sinan_store::reconciliation::{
    AccountReconciliationCheckpoint, ReconciliationReason, ReconciliationRequest,
    ReconciliationRunStatus, StoredReconciliationRun,
};
use sinan_store::risk_capacity::{
    decode_capacity_row, record_risk_capacity_snapshot, validate_capacity,
    NewRiskCapacitySnapshot, RiskCapacity, RiskCapacityRow, StoredRiskCapacitySnapshot,
};
use sinan_store::risk_snapshot::{
    is_ready, load_trusted_risk_snapshot, next_pending_risk_intent_id, waits_for_decision,
    AccountCommand, CheckpointTimes, CommandFace, LatestFace, MemberRow, ProposedSymbols, RiskCandidate,
    RiskInputs, StateColumns,
};
use sinan_store::snapshots::{
    AuthorizedAccountScope, ProjectionWriteOutcome, SnapshotRow,
    SnapshotValue,
};
use sinan_store::trading::{
    ExecutionCommand, ExecutionCommandState, ExecutionEvent, RiskResult, StoredExecutionCommand,
    StoredExecutionEvent, StoredRiskResult, StoredTradeIntent, TradeIntent, TradeIntentAction,
};
use sinan_store::transaction_snapshot::{
    has_delivery_route_proof, load_execution_projection, load_reconciliation_evaluation_snapshot,
    load_route_command_ids, scoped_command_ids, CommandRoute, DeliveryRoute, ScopedCommand,
};

fn text(value: &str) -> String {
    value.to_string()
}

fn json(value: &str) -> CanonicalJson {
    CanonicalJson::parse(value).unwrap()
}

fn columns(value: &str) -> JsonColumns {
    let (text, digest) = json(value).into_parts();
    JsonColumns { text, digest }
}

fn scope(accounts: &[&str]) -> AuthorizedAccountScope {
    AuthorizedAccountScope::new(accounts.iter().map(|account| text(account)).collect())
}

fn row(account: &str, id: &str, symbol: &str, at: i64) -> SnapshotRow {
    SnapshotRow {
        account_id: text(account),
        id: text(id),
        symbol: text(symbol),
        payload: columns(&format!(r#"{{"id":"{id}"}}"#)),
        observed_at: at,
        value: Ok(SnapshotValue {
            account_id: text(account),
            id: text(id),
            symbol: text(symbol),
            observed_at: at,
        }),
    }
}

fn command(id: &str, account: &str) -> StoredExecutionCommand {
    StoredExecutionCommand {
        command: ExecutionCommand {
            command_id: text(id),
            plan_id: Some(text("p1")),
            leg_id: Some(text("l1")),
            account_id: text(account),
            strategy_id: text("st1"),
            client_id: Some(text("c1")),
            terminal_id: None,
            symbol: text("EURUSD"),
            action: text("BUY"),
            lots: None,
            sl: None,
            tp: None,
            expires_at: 900,
            idempotency_key: format!("k-{id}"),
            hmac: "a".repeat(64),
        },
        risk_id: text("r1"),
        payload: json("{}"),
        created_at: 10,
    }
}

fn state(id: &str, account: &str, status: &str, at: i64) -> ExecutionCommandState {
    ExecutionCommandState {
        command_id: text(id),
        account_id: text(account),
        plan_id: Some(text("p1")),
        leg_id: Some(text("l1")),
        status: text(status),
        delivery_attempts: 0,
        last_delivery_error: None,
        created_at: 10,
        dispatched_at: None,
        command_received_at: None,
        reconciling_at: None,
        completed_at: None,
        updated_at: at,
    }
}

fn event(id: &str, account: &str, at: i64) -> StoredExecutionEvent {
    StoredExecutionEvent {
        event: ExecutionEvent {
            execution_id: text(id),
            command_id: text("cmd1"),
            plan_id: None,
            leg_id: None,
            account_id: text(account),
            status: text("FILLED"),
            broker_order_id: None,
            position_ticket: None,
            event_at: at,
            filled_at: None,
        },
        payload: json("{}"),
        created_at: at,
    }
}

fn risk(id: &str, intent: &str, account: &str, at: i64) -> StoredRiskResult {
    StoredRiskResult {
        result: RiskResult {
            risk_id: text(id),
            intent_id: text(intent),
            account_id: text(account),
            decision_id: text("d1"),
            approved: false,
            reason: text("NO"),
            snapshot_age_ms: 0,
            symbol_metadata_age_ms: 0,
            evaluated_at: at,
            valid_until: at + 1,
            has_sizing_version: false,
            has_risk_base_amount: false,
            has_risk_budget_amount: false,
            has_adjusted_risk_pct: false,
            sizing_candidates: None,
            adjusted_legs: None,
        },
        payload: json("{}"),
    }
}

fn intent(id: &str, at: i64) -> StoredTradeIntent {
    StoredTradeIntent {
        intent: TradeIntent {
            intent_id: text(id),
            decision_id: text("d1"),
            strategy_id: text("st1"),
            account_id: text("a1"),
            symbol: text("EURUSD"),
            action: TradeIntentAction::Buy,
            requested_at: at,
            signal_expires_at: 1000,
            idempotency_key: text("k1"),
            single_leg_id: text("l1"),
            correlation_id: text("co1"),
            proposed_sl: None,
            proposed_tp: None,
            proposed_legs: None,
        },
        status: text("ACCEPTED"),
        payload: json("{}"),
        created_at: at,
        updated_at: at,
    }
}

fn ids(events: &Vec<StoredExecutionEvent>) -> Vec<String> {
    events.iter().map(|event| event.event.execution_id.clone()).collect()
}

#[test]
fn lists_show_the_newest_of_their_accounts() {
    let events = || {
        vec![
            event("x3", "a1", 30),
            event("x1", "a1", 10),
            event("x9", "a2", 90),
            event("x2", "a1", 20),
            event("x2b", "a1", 20),
        ]
    };
    assert_eq!(ids(&oldest_first(events())), vec!["x1", "x2", "x2b", "x3", "x9"]);
    assert_eq!(ids(&newest_shown(events(), &scope(&["a1"]), 2)), vec!["x2b", "x3"]);
    assert!(newest_shown(events(), &AuthorizedAccountScope::empty(), 9).is_empty());
    assert_eq!(latest_of(events()).unwrap().event.execution_id, "x9");
    assert!(latest_of(Vec::<StoredExecutionEvent>::new()).is_none());
}

#[test]
fn overtaken_decisions_are_not_shown() {
    let values = vec![
        risk("r1", "i1", "a1", 10),
        risk("r2", "i1", "a1", 20),
        risk("r3", "i2", "a1", 15),
        risk("r4", "i3", "a2", 99),
    ];
    let shown: Vec<String> = latest_risk_results(values, &scope(&["a1"]), 9)
        .into_iter()
        .map(|found| found.result.risk_id)
        .collect();
    assert_eq!(shown, vec!["r3", "r2"]);
}

fn nothing() -> LatestStateRows {
    LatestStateRows {
        accounts: vec![],
        positions: vec![],
        orders: vec![],
        symbols: vec![],
        markets: vec![],
    }
}

#[test]
fn the_state_is_shown_within_limits() {
    let limits = |events: usize| ControlPlaneStateLimits {
        sessions: 1,
        open_plans: 1,
        pending_commands: 1,
        recent_events: events,
        latest_risk_results: 1,
    };
    let records = || ControlPlaneRecords {
        latest: nothing(),
        sessions: vec![],
        plans: vec![],
        commands: vec![
            state("cmd1", "a1", "FILLED", 50),
            state("cmd2", "a1", "SENT", 20),
            state("cmd3", "a1", "SENT", 10),
        ],
        events: vec![event("x1", "a1", 10), event("x2", "a1", 20)],
        risk_results: vec![],
        circuit_breaker: None,
    };
    let seen = load_control_plane_state(&scope(&["a1"]), limits(1), records()).unwrap();
    assert_eq!(ids(&seen.recent_events), vec!["x2"]);
    assert_eq!(seen.pending_commands.len(), 1);
    assert_eq!(seen.pending_commands[0].command_id, "cmd2");
    assert!(matches!(
        load_control_plane_state(&scope(&["a1"]), limits(0), records()),
        Err(StoreError::InvalidRecord { entity: "control_plane_state_limits", .. })
    ));
}

#[test]
fn readers_see_their_own_intents_and_commands() {
    let status = |accounts: &[&str]| {
        trade_intent_workflow_status(
            &scope(accounts),
            Some(intent("i1", 10)),
            vec![risk("r1", "i1", "a1", 10), risk("r2", "i1", "a1", 20)],
            vec![],
            &vec![PlanCommand { command_id: text("cmd1"), plan_id: Some(text("p1")) }],
        )
    };
    let found = status(&["a1"]).unwrap();
    assert_eq!(found.latest_risk_result.unwrap().result.risk_id, "r2");
    assert!(found.command_ids.is_empty());
    assert!(status(&["a2"]).is_none());
    let of_plan = |id: &str, plan: Option<&str>| PlanCommand {
        command_id: text(id),
        plan_id: plan.map(text),
    };
    let commands = vec![
        of_plan("cmd3", Some("p1")),
        of_plan("cmd2", Some("p2")),
        of_plan("cmd4", None),
        of_plan("cmd1", Some("p1")),
    ];
    assert_eq!(plan_command_ids(&commands, &text("p1")), vec![text("cmd1"), text("cmd3")]);
    let bundle = |accounts: &[&str], limit: usize| {
        execution_command_status_bundle(
            &scope(accounts),
            &text("cmd1"),
            limit,
            Some(state("cmd1", "a1", "SENT", 20)),
            Some(command("cmd1", "a1")),
            vec![event("x1", "a1", 10), event("x2", "a1", 20)],
        )
    };
    let found = bundle(&["a1"], 1).unwrap().unwrap();
    assert_eq!(ids(&found.events), vec!["x2"]);
    assert!(bundle(&["a2"], 1).unwrap().is_none());
    assert!(matches!(bundle(&["a1"], 0), Err(StoreError::InvalidRecord { .. })));
}

#[test]
fn readers_see_the_latest_state_of_their_accounts() {
    let rows = || LatestStateRows {
        accounts: vec![row("a1", "a1", "", 10), row("a2", "a2", "", 10)],
        positions: vec![row("a1", "p1", "EURUSD", 10)],
        orders: vec![],
        symbols: vec![],
        markets: vec![row("a2", "EURUSD", "EURUSD", 10)],
    };
    let seen = load_latest_state(&scope(&["a1"]), rows()).unwrap();
    assert_eq!(seen.accounts.len(), 1);
    assert_eq!(seen.accounts[0].account_id, "a1");
    assert_eq!(seen.positions.len(), 1);
    assert!(seen.markets.is_empty());
    let shuffled = LatestStateRows {
        positions: vec![
            row("a2", "p1", "EURUSD", 10),
            row("a1", "p2", "EURUSD", 10),
            row("a1", "p10", "EURUSD", 10),
        ],
        ..nothing()
    };
    let seen = load_latest_state(&scope(&["a2", "a1"]), shuffled).unwrap();
    let order: Vec<(String, String)> =
        seen.positions.into_iter().map(|seen| (seen.account_id, seen.id)).collect();
    assert_eq!(
        order,
        vec![(text("a1"), text("p10")), (text("a1"), text("p2")), (text("a2"), text("p1"))]
    );
    let mut hidden = rows();
    hidden.positions[0].payload.digest = "0".repeat(64);
    let seen = load_latest_state(&scope(&[]), hidden).unwrap();
    assert!(seen.accounts.is_empty() && seen.positions.is_empty() && seen.markets.is_empty());
    let mut torn = rows();
    torn.positions[0].payload.digest = "0".repeat(64);
    assert!(matches!(
        load_latest_state(&scope(&["a1"]), torn),
        Err(StoreError::CorruptData { .. })
    ));
}

fn capacity(at: i64, share: f64) -> RiskCapacity {
    RiskCapacity {
        account_id: text("a1"),
        strategy_id: text("st1"),
        observed_at: at,
        daily_realized_loss_pct: 0.0f64.to_bits(),
        equity_drawdown_pct: (-0.0f64).to_bits(),
        remaining_account_risk_pct: share.to_bits(),
        remaining_portfolio_risk_pct: 2.0f64.to_bits(),
    }
}

fn stored_capacity(at: i64, share: f64) -> StoredRiskCapacitySnapshot {
    StoredRiskCapacitySnapshot {
        capacity: capacity(at, share),
        payload: json(&format!(r#"{{"at":{at},"share":{share}}}"#)),
        recorded_at: 100,
    }
}

#[test]
fn capacities_are_recorded_once() {
    validate_capacity(&capacity(10, 1.5), 100).unwrap();
    for share in [f64::NAN, f64::INFINITY, -0.5] {
        assert!(matches!(
            validate_capacity(&capacity(10, share), 100),
            Err(StoreError::InvalidRecord { entity: "risk_capacity_snapshot", .. })
        ));
    }
    assert!(validate_capacity(&capacity(101, 1.5), 100).is_err());
    let write = |at: i64, share: f64, existing: bool, latest: Option<i64>| {
        record_risk_capacity_snapshot(
            &NewRiskCapacitySnapshot { capacity: capacity(at, share), recorded_at: 100 },
            &stored_capacity(at, share).payload,
            &if existing { Some(stored_capacity(at, 1.5)) } else { None },
            &latest.map(|time| stored_capacity(time, 1.5)),
        )
    };
    let first = write(10, 1.5, false, None).unwrap();
    assert_eq!(first.outcome, ProjectionWriteOutcome::Applied);
    assert!(first.becomes_latest);
    let late = write(10, 1.5, false, Some(20)).unwrap();
    assert_eq!(late.outcome, ProjectionWriteOutcome::FactAppendedProjectionIgnored);
    assert!(!late.becomes_latest);
    assert_eq!(write(10, 1.5, true, None).unwrap().outcome, ProjectionWriteOutcome::Duplicate);
    assert!(matches!(
        write(10, 1.0, true, None),
        Err(StoreError::ObservationConflict { .. })
    ));
    let row = RiskCapacityRow {
        account_id: text("a1"),
        strategy_id: text("st1"),
        observed_at: 11,
        payload: columns(r#"{"at":10}"#),
        recorded_at: 100,
        capacity: Ok(capacity(10, 1.5)),
    };
    assert!(matches!(
        decode_capacity_row("risk_capacity_snapshot", row),
        Err(StoreError::CorruptData { .. })
    ));
}

fn request(commands: Option<Vec<String>>) -> ReconciliationRequest {
    ReconciliationRequest {
        request_id: text("q1"),
        account_id: text("a1"),
        terminal_id: None,
        client_id: Some(text("c1")),
        reason: ReconciliationReason::ConnectionRestored,
        command_ids: commands,
        since_server_time: None,
    }
}

fn run(commands: Option<Vec<String>>) -> StoredReconciliationRun {
    StoredReconciliationRun {
        request: request(commands),
        requested_at: 100,
        status: ReconciliationRunStatus::Requested,
        result: None,
        result_evaluation: None,
        completeness: None,
        manual_evidence: None,
        manual_evaluation: None,
        request_event: StoredCoreEvent {
            metadata: CoreEventMetadata {
                event_id: text("e1"),
                event_type: text("reconciliation.request"),
                aggregate_type: text("reconciliation"),
                aggregate_id: text("q1"),
                message_id: None,
                schema_version: text("1.0"),
                correlation_id: None,
                causation_id: None,
                account_id: Some(text("a1")),
                client_id: Some(text("c1")),
                terminal_id: None,
                strategy_id: None,
                intent_id: None,
                plan_id: None,
                leg_id: None,
                command_id: None,
                idempotency_key: None,
                event_at: 100,
                received_at: 101,
                created_at: 102,
                source: text("gateway"),
            },
            payload: json("{}"),
        },
        result_event: None,
        created_at: 102,
        updated_at: 102,
    }
}

#[test]
fn commands_are_found_by_their_route() {
    let commands = vec![
        CommandRoute {
            command_id: text("cmd1"),
            account_id: text("a1"),
            terminal_id: None,
            client_id: Some(text("c1")),
        },
        CommandRoute {
            command_id: text("cmd2"),
            account_id: text("a1"),
            terminal_id: None,
            client_id: Some(text("c2")),
        },
        CommandRoute {
            command_id: text("cmd3"),
            account_id: text("a1"),
            terminal_id: None,
            client_id: None,
        },
    ];
    let routes = vec![DeliveryRoute {
        command_id: text("cmd3"),
        account_id: text("a1"),
        terminal_id: None,
        client_id: text("c1"),
    }];
    assert!(has_delivery_route_proof(&routes, &request(None), &text("cmd3")));
    assert!(!has_delivery_route_proof(&routes, &request(None), &text("cmd2")));
    assert_eq!(
        load_route_command_ids(&commands, &routes, &request(None)),
        vec![text("cmd1"), text("cmd3")]
    );
}

#[test]
fn evaluations_see_the_commands_in_scope() {
    let found = |id: &str, account: &str| ScopedCommand {
        command: Some(command(id, account)),
        state: Some(state(id, account, "SENT", 20)),
        events: vec![event("x1", account, 10)],
    };
    let route = |id: &str, client: &str| CommandRoute {
        command_id: text(id),
        account_id: text("a1"),
        terminal_id: None,
        client_id: Some(text(client)),
    };
    let listed = || run(Some(vec![text("cmd1")]));
    let load = |run: Option<StoredReconciliationRun>, found: Vec<ScopedCommand>| {
        let commands = vec![route("cmd2", "c1"), route("cmd1", "c1"), route("cmd3", "c2")];
        load_reconciliation_evaluation_snapshot(run, &commands, &vec![], found)
    };
    let seen = load(Some(listed()), vec![found("cmd1", "a1")]).unwrap().unwrap();
    assert_eq!(seen.commands.len(), 1);
    assert_eq!(seen.events.len(), 1);
    assert!(load(None, vec![]).unwrap().is_none());
    assert!(load(Some(listed()), vec![found("cmd1", "a2")]).is_err());
    let missing = |found: Vec<ScopedCommand>| {
        matches!(
            load(Some(listed()), found),
            Err(StoreError::CorruptData { reason, .. })
                if reason == "scoped command cmd1 is missing"
        )
    };
    assert!(missing(vec![]));
    assert!(missing(vec![found("cmd2", "a1")]));
    let names = scoped_command_ids(
        &request(None),
        &vec![route("cmd2", "c1"), route("cmd1", "c1"), route("cmd3", "c2")],
        &vec![],
    );
    assert_eq!(names, vec![text("cmd1"), text("cmd2")]);
    let seen = load(Some(run(None)), vec![found("cmd1", "a1"), found("cmd2", "a1")]);
    let seen = seen.unwrap().unwrap();
    let names: Vec<String> =
        seen.commands.into_iter().map(|seen| seen.command.command.command_id).collect();
    assert_eq!(names, vec!["cmd1", "cmd2"]);
    assert_eq!(seen.events.len(), 1);
    assert_eq!(
        scoped_command_ids(&request(Some(vec![text("cmd9")])), &vec![], &vec![]),
        vec![text("cmd9")]
    );
    assert!(load_execution_projection(&text("cmd1"), &None, None, vec![]).unwrap().is_none());
    assert!(matches!(
        load_execution_projection(&text("cmd1"), &Some(text("p1")), None, vec![]),
        Err(StoreError::CorruptData { reason, .. }) if reason == "parent workflow p1 is missing"
    ));
}

fn checkpoint() -> AccountReconciliationCheckpoint {
    AccountReconciliationCheckpoint {
        account_id: text("a1"),
        source_request_id: text("q1"),
        result_observed_at: 200,
        account_refreshed_at: Some(200),
        positions_observed_at: 200,
        positions_set_hash: "a".repeat(64),
        orders_observed_at: 200,
        orders_set_hash: "b".repeat(64),
        symbol_metadata_refreshed_at: Some(200),
        pending_commands_reconciled_at: Some(200),
        updated_at: 201,
    }
}

fn inputs(id: &str, at: i64) -> RiskInputs {
    RiskInputs {
        intent: intent(id, at),
        assessed: false,
        account: Some(row("a1", "a1", "", 200)),
        checkpoint: Some(checkpoint()),
        positions: vec![LatestFace {
            observed_at: 200,
            symbol: text("USDJPY"),
            status: text(""),
        }],
        orders: vec![],
        position_members: vec![MemberRow {
            account_id: text("a1"),
            set_observed_at: 200,
            id: text("p1"),
            payload: columns(r#"{"id":"p1"}"#),
            value: Ok(SnapshotValue {
                account_id: text("a1"),
                id: text("p1"),
                symbol: text("USDJPY"),
                observed_at: 200,
            }),
            status: text(""),
        }],
        order_members: vec![],
        commands: vec![AccountCommand {
            command_id: text("cmd1"),
            action: text("BUY"),
            symbol: text("EURUSD"),
            state_columns: Some(StateColumns { status: text("FILLED"), updated_at: 150 }),
            command: None,
            state: None,
        }],
        state_changes: vec![150],
        metadata: vec![row("a1", "EURUSD", "EURUSD", 200), row("a1", "USDJPY", "USDJPY", 200)],
        markets: vec![row("a1", "EURUSD", "EURUSD", 200), row("a1", "USDJPY", "USDJPY", 200)],
        circuit_breaker: Some(StoredCircuitBreakerSnapshot {
            scope: text("GLOBAL"),
            state_revision: 1,
            schema_version: text("1.0"),
            status: text("CLOSED"),
            recovery_epoch: 0,
            updated_at: 1,
            payload: json("{}"),
        }),
        capacity: Some(stored_capacity(10, 1.5)),
    }
}

#[test]
fn trusted_snapshots_lack_nothing() {
    let seen = load_trusted_risk_snapshot(&text("i1"), Some(inputs("i1", 10))).unwrap().unwrap();
    assert_eq!(seen.positions.len(), 1);
    assert_eq!(seen.symbol_metadata.len(), 2);
    assert_eq!(seen.markets.len(), 2);
    assert!(seen.pending_commands.is_empty());
    assert!(matches!(
        load_trusted_risk_snapshot(&text("i1"), None),
        Err(StoreError::NotFound { entity: "trade_intent", .. })
    ));
    let mut done = inputs("i1", 10);
    done.assessed = true;
    assert!(load_trusted_risk_snapshot(&text("i1"), Some(done)).unwrap().is_none());
    let told = |inputs: RiskInputs| match load_trusted_risk_snapshot(&text("i1"), Some(inputs)) {
        Err(StoreError::SnapshotUnavailable { input, .. }) => input,
        Err(other) => panic!("{other:?}"),
        Ok(_) => panic!("the snapshot was trusted"),
    };
    let mut bare = inputs("i1", 10);
    bare.account = None;
    assert_eq!(told(bare), "account snapshot is unavailable");
    let mut bare = inputs("i1", 10);
    bare.checkpoint = None;
    assert_eq!(told(bare), "reconciliation checkpoint is unavailable");
    let mut late = inputs("i1", 10);
    late.positions[0].observed_at = 201;
    assert_eq!(told(late), "position snapshot changed after the full-set watermark");
    let mut late = inputs("i1", 10);
    late.state_changes = vec![201];
    assert_eq!(told(late), "command lifecycle changed after the reconciliation watermark");
    let mut torn = inputs("i1", 10);
    torn.commands[0].state_columns = None;
    assert!(matches!(
        load_trusted_risk_snapshot(&text("i1"), Some(torn)),
        Err(StoreError::CorruptData { entity: "risk_input.pending_command", .. })
    ));
}

#[test]
fn trusted_snapshots_come_by_name() {
    let order = |id: &str| MemberRow {
        account_id: text("a1"),
        set_observed_at: 200,
        id: text(id),
        payload: columns("{}"),
        value: Ok(SnapshotValue {
            account_id: text("a1"),
            id: text(id),
            symbol: text("EURUSD"),
            observed_at: 200,
        }),
        status: text("PLACED"),
    };
    let mut given = inputs("i1", 10);
    given.order_members = vec![order("o3"), order("o1"), order("o2")];
    let seen = load_trusted_risk_snapshot(&text("i1"), Some(given)).unwrap().unwrap();
    let ids: Vec<&str> = seen.orders.iter().map(|order| order.snapshot.id.as_str()).collect();
    assert_eq!(ids, vec!["o1", "o2", "o3"]);
    assert!(waits_for_decision(&intent("i1", 10), false));
    assert!(!waits_for_decision(&intent("i1", 10), true));
}

fn face(symbol: &str, status: &str, at: i64) -> LatestFace {
    LatestFace { observed_at: at, symbol: text(symbol), status: text(status) }
}

fn candidate(id: &str, at: i64) -> RiskCandidate {
    RiskCandidate {
        intent_id: text(id),
        status: text("ACCEPTED"),
        requested_at: at,
        symbol: text("EURUSD"),
        legs: ProposedSymbols::Absent,
        has_decision_time: true,
        assessed: false,
        has_account: true,
        has_capacity: true,
        has_circuit_breaker: true,
        checkpoint: Some(CheckpointTimes {
            positions_observed_at: 200,
            orders_observed_at: 200,
            pending_commands_reconciled_at: Some(200),
        }),
        positions: vec![face("USDJPY", "", 200)],
        orders: vec![face("GBPUSD", "FILLED", 200)],
        commands: vec![CommandFace {
            action: text("BUY"),
            symbol: text("EURUSD"),
            state: Some(StateColumns { status: text("FILLED"), updated_at: 150 }),
        }],
        metadata: vec![text("EURUSD"), text("USDJPY")],
        markets: vec![text("EURUSD"), text("USDJPY")],
    }
}

#[test]
fn the_oldest_ready_intent_is_next() {
    assert!(is_ready(&candidate("i1", 10)));
    let mut bare = candidate("i0", 5);
    bare.markets.pop();
    assert!(!is_ready(&bare));
    let mut done = candidate("i9", 1);
    done.assessed = true;
    assert!(!is_ready(&done));
    let items = vec![candidate("i2", 20), bare, candidate("i1", 10), done];
    assert_eq!(next_pending_risk_intent_id(&items), Some(text("i1")));
    let tied = vec![candidate("i4", 10), candidate("i3", 10)];
    assert_eq!(next_pending_risk_intent_id(&tied), Some(text("i3")));
    assert_eq!(next_pending_risk_intent_id(&vec![]), None);
}

#[test]
fn intents_wait_for_what_they_rest_on() {
    let ready = |change: fn(&mut RiskCandidate)| {
        let mut item = candidate("i1", 10);
        change(&mut item);
        is_ready(&item)
    };
    assert!(ready(|item| item.legs = ProposedSymbols::Listed(vec![text("USDJPY")])));
    assert!(ready(|item| {
        item.symbol = text("GBPUSD");
        item.legs = ProposedSymbols::Listed(vec![]);
    }));
    assert!(!ready(|item| item.legs = ProposedSymbols::Listed(vec![text("GBPUSD")])));
    assert!(!ready(|item| item.legs = ProposedSymbols::Malformed));
    assert!(!ready(|item| item.symbol = text("GBPUSD")));
    assert!(!ready(|item| item.status = text("REJECTED")));
    assert!(!ready(|item| item.has_decision_time = false));
    assert!(!ready(|item| item.has_account = false));
    assert!(!ready(|item| item.has_capacity = false));
    assert!(!ready(|item| item.has_circuit_breaker = false));
    assert!(!ready(|item| item.checkpoint = None));
    assert!(!ready(|item| {
        item.checkpoint = Some(CheckpointTimes {
            positions_observed_at: 200,
            orders_observed_at: 200,
            pending_commands_reconciled_at: None,
        });
    }));
    assert!(!ready(|item| item.positions = vec![face("USDJPY", "", 201)]));
    assert!(!ready(|item| item.positions = vec![face("GBPUSD", "", 200)]));
    assert!(!ready(|item| item.orders = vec![face("GBPUSD", "PLACED", 200)]));
    assert!(!ready(|item| item.orders = vec![face("EURUSD", "FILLED", 201)]));
    assert!(!ready(|item| item.commands[0].state = None));
    assert!(!ready(|item| {
        item.commands[0].state = Some(StateColumns { status: text("FILLED"), updated_at: 201 });
    }));
    assert!(!ready(|item| {
        item.commands[0].symbol = text("GBPUSD");
        item.commands[0].state = Some(StateColumns { status: text("SENT"), updated_at: 150 });
    }));
}

#[test]
fn claimed_work_comes_with_what_it_delivers() {
    let claim = ClaimOutboundDeliveryWork {
        worker_id: text("w1"),
        claimed_at: 100,
        lease_expires_at: 150,
    };
    let subject = OutboundDeliveryWorkSubject::ExecutionCommand(text("cmd1"));
    let work = || lease_work(new_work(&subject, 100), &claim).unwrap();
    let id = text("cmd1");
    let plan_intent = Some(text("i1"));
    let claimed = claimed_command(
        work(),
        &id,
        Some(command("cmd1", "a1")),
        Some(state("cmd1", "a1", "CREATED", 20)),
        &plan_intent,
        &Some(intent("i1", 5)),
    )
    .unwrap();
    assert_eq!(claimed.work().work_id, "execution.command:cmd1");
    match claimed {
        ClaimedOutboundDelivery::ExecutionCommand { correlation_id, causation_id, .. } => {
            assert_eq!(correlation_id, Some(intent("i1", 5).intent.correlation_id));
            assert_eq!(causation_id, Some(text("i1")));
        }
        _ => panic!("the command was not claimed"),
    }
    let missing = |result: Result<ClaimedOutboundDelivery, StoreError>| {
        matches!(result, Err(StoreError::NotFound { .. }))
    };
    assert!(missing(claimed_command(work(), &id, None, None, &None, &None)));
    assert!(missing(claimed_command(
        work(),
        &id,
        Some(command("cmd1", "a1")),
        None,
        &None,
        &None
    )));
    assert!(matches!(
        claimed_command(
            work(),
            &id,
            Some(command("cmd1", "a1")),
            Some(state("cmd1", "a1", "CREATED", 20)),
            &None,
            &None
        ),
        Err(StoreError::CorruptData { .. })
    ));
    assert!(matches!(
        claimed_request(work(), &text("q1"), Some(run(None))),
        Ok(ClaimedOutboundDelivery::ReconciliationRequest { run, .. })
            if run.request.request_id == "q1"
    ));
    assert!(missing(claimed_request(work(), &text("q1"), None)));
}
