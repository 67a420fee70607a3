use sinan_store::columns::{EnumColumn, JsonColumns};
use sinan_store::commands::{
    execution_command_from_row, execution_command_state_from_row, execution_event_from_row,
    new_execution_command_record, new_execution_event_record, resolve_command_state_replay,
    resolve_execution_command_replay, resolve_execution_event_replay,
    update_execution_command_state, validate_command_state_identity, CommandIdentity, CommandRow,
    CommandStateRow, ExecutionEventRow,
};
use sinan_store::error::StoreError;
use sinan_store::json::CanonicalJson;
use sinan_store::lifecycle::{
    propose_execution_lifecycle, update_execution_lifecycle,
    validate_execution_lifecycle_update_shape, LifecycleProposal,
};
use sinan_store::model::WriteOutcome;
use sinan_store::plans::{
    execution_leg_from_row, execution_plan_from_row, resolve_execution_plan_replay,
    update_execution_leg_state, update_execution_plan_state, validate_execution_plan_graph,
    validate_new_execution_plan, validate_stored_plan, ExecutionPlanJournal, JournalLeg, LegRow,
    PlanRow, StateWrite,
};
use sinan_store::risk::{
    new_trade_intent_record, resolve_risk_result_replay, resolve_trade_intent_replay,
    risk_result_from_row, trade_intent_from_row, validate_new_risk_result,
    validate_risk_result_intent_contract, validate_risk_result_intent_identity, RiskResultRow,
    TradeIntentRow,
};
use sinan_store::trading::{
    is_finite, same_f64_bits, AdjustedRiskLeg, AdjustedRiskLegAction, CommandStateUpdate,
    ExecutionCommand, ExecutionCommandState, ExecutionEvent, ExecutionLeg,
    ExecutionLegDefinition, ExecutionLegState, ExecutionLifecycleUpdate, ExecutionPlan,
    ExecutionPlanDefinition, ExecutionPlanState, LegStateUpdate, NewExecutionCommand,
    NewExecutionEvent, NewExecutionPlan, NewExecutionWorkflow, NewRiskResult, NewTradeIntent,
    PlanStateUpdate, RiskResult, SizingCandidate, StoredExecutionLeg, StoredExecutionPlan,
    StoredRiskResult, StoredTradeIntent, TradeIntent, TradeIntentAction,
};
use sinan_store::workflow::{
    validate_execution_command_graph, validate_initial_command_state,
    validate_new_execution_workflow, validate_persisted_command_state,
};
use sinan_store::workflow_records::{
    assemble_execution_workflow, finish_execution_workflow, WorkflowPayloads,
};

fn text(value: &str) -> String {
    value.to_string()
}

fn json(value: &str) -> CanonicalJson {
    CanonicalJson::parse(value).unwrap()
}

fn columns(value: &str) -> JsonColumns {
    let (text, digest) = json(value).into_parts();
    JsonColumns { text, digest }
}

fn named(value: &str) -> EnumColumn<String> {
    EnumColumn { text: text(value), parsed: Ok(text(value)) }
}

fn bits(value: f64) -> u64 {
    value.to_bits()
}

fn intent(action: TradeIntentAction) -> TradeIntent {
    TradeIntent {
        intent_id: text("i1"),
        decision_id: text("d1"),
        strategy_id: text("st1"),
        account_id: text("a1"),
        symbol: text("EURUSD"),
        action,
        requested_at: 100,
        signal_expires_at: 1000,
        idempotency_key: text("k1"),
        single_leg_id: text("l1"),
        correlation_id: text("co1"),
        proposed_sl: Some(bits(1.05)),
        proposed_tp: Some(bits(1.25)),
        proposed_legs: None,
    }
}

fn new_intent() -> NewTradeIntent {
    NewTradeIntent {
        intent: intent(TradeIntentAction::Buy),
        initial_status: text("ACCEPTED"),
        recorded_at: 110,
    }
}

fn stored_intent() -> StoredTradeIntent {
    new_trade_intent_record(new_intent(), json(r#"{"intent":1}"#))
}

fn risk() -> RiskResult {
    RiskResult {
        risk_id: text("r1"),
        intent_id: text("i1"),
        account_id: text("a1"),
        decision_id: text("d1"),
        approved: true,
        reason: text("OK"),
        snapshot_age_ms: 1,
        symbol_metadata_age_ms: 2,
        evaluated_at: 200,
        valid_until: 900,
        has_sizing_version: true,
        has_risk_base_amount: true,
        has_risk_budget_amount: true,
        has_adjusted_risk_pct: true,
        sizing_candidates: Some(vec![SizingCandidate {
            leg_id: text("l1"),
            symbol: text("EURUSD"),
            action: AdjustedRiskLegAction::Buy,
            ratio: bits(1.0),
            stop_loss_price: bits(1.05),
        }]),
        adjusted_legs: Some(vec![AdjustedRiskLeg {
            leg_id: text("l1"),
            symbol: text("EURUSD"),
            action: AdjustedRiskLegAction::Buy,
            lots: bits(0.5),
            approved_sl: bits(1.05),
        }]),
    }
}

fn stored_risk() -> StoredRiskResult {
    StoredRiskResult { result: risk(), payload: json(r#"{"risk":1}"#) }
}

fn leg_definition() -> ExecutionLegDefinition {
    ExecutionLegDefinition {
        leg_id: text("l1"),
        symbol: text("EURUSD"),
        action: text("BUY"),
        ratio: bits(1.0),
        lots: Some(bits(0.5)),
        sl: Some(bits(1.05)),
        tp: Some(bits(1.25)),
    }
}

fn plan_definition() -> ExecutionPlanDefinition {
    ExecutionPlanDefinition {
        plan_id: text("p1"),
        account_id: text("a1"),
        strategy_id: text("st1"),
        mode: text("SEQUENTIAL"),
        failure_policy: text("STOP"),
    }
}

fn plan() -> ExecutionPlan {
    ExecutionPlan {
        definition: plan_definition(),
        legs: vec![ExecutionLeg {
            definition: leg_definition(),
            state: ExecutionLegState { status: text("PENDING") },
        }],
        state: ExecutionPlanState {
            status: text("PENDING"),
            filled_legs: vec![],
            failed_legs: vec![],
        },
    }
}

fn new_plan() -> NewExecutionPlan {
    NewExecutionPlan {
        plan: plan(),
        risk_id: text("r1"),
        intent_id: text("i1"),
        recorded_at: 300,
    }
}

fn stored_plan() -> StoredExecutionPlan {
    StoredExecutionPlan {
        plan: plan(),
        risk_id: text("r1"),
        intent_id: text("i1"),
        payload: json(r#"{"plan":1}"#),
        created_at: 300,
        updated_at: 300,
    }
}

fn stored_leg() -> StoredExecutionLeg {
    StoredExecutionLeg {
        plan_id: text("p1"),
        leg: ExecutionLeg {
            definition: leg_definition(),
            state: ExecutionLegState { status: text("PENDING") },
        },
        payload: json(r#"{"leg":1}"#),
        updated_at: 300,
    }
}

fn command() -> ExecutionCommand {
    ExecutionCommand {
        command_id: text("cmd1"),
        plan_id: Some(text("p1")),
        leg_id: Some(text("l1")),
        account_id: text("a1"),
        strategy_id: text("st1"),
        client_id: None,
        terminal_id: None,
        symbol: text("EURUSD"),
        action: text("BUY"),
        lots: Some(bits(0.5)),
        sl: Some(bits(1.05)),
        tp: Some(bits(1.25)),
        expires_at: 900,
        idempotency_key: text("ck1"),
        hmac: "a".repeat(64),
    }
}

fn new_command() -> NewExecutionCommand {
    NewExecutionCommand { command: command(), risk_id: text("r1"), created_at: 310 }
}

fn state(status: &str, updated_at: i64) -> ExecutionCommandState {
    ExecutionCommandState {
        command_id: text("cmd1"),
        account_id: text("a1"),
        plan_id: Some(text("p1")),
        leg_id: Some(text("l1")),
        status: text(status),
        delivery_attempts: 0,
        last_delivery_error: None,
        created_at: 310,
        dispatched_at: None,
        command_received_at: None,
        reconciling_at: None,
        completed_at: None,
        updated_at,
    }
}

fn workflow() -> NewExecutionWorkflow {
    NewExecutionWorkflow {
        intent: new_intent(),
        risk_result: NewRiskResult { result: risk() },
        plan: new_plan(),
        commands: vec![new_command()],
        command_states: vec![state("CREATED", 310)],
    }
}

#[test]
fn numbers_are_compared_bit_by_bit() {
    assert!(is_finite(bits(1.5)));
    assert!(!is_finite(bits(f64::INFINITY)));
    assert!(!is_finite(bits(f64::NAN)));
    assert!(same_f64_bits(bits(0.1), bits(0.1)));
    assert!(!same_f64_bits(bits(0.0), bits(-0.0)));
    assert!(!same_f64_bits(bits(f64::NAN), bits(f64::NAN)));
}

#[test]
fn approvals_fit_their_intent() {
    let buy = intent(TradeIntentAction::Buy);
    validate_risk_result_intent_contract(&risk(), &buy).unwrap();
    let told = |result: &RiskResult, intent: &TradeIntent| {
        validate_risk_result_intent_contract(result, intent).unwrap_err()
    };
    let mut bare = risk();
    bare.adjusted_legs = None;
    assert_eq!(
        told(&bare, &buy),
        "approved BUY intent must contain actionable sizing"
    );
    let mut early = risk();
    early.evaluated_at = 99;
    assert_eq!(
        told(&early, &buy),
        "approved result evaluated_at 99 precedes intent requested_at 100"
    );
    let mut long = risk();
    long.valid_until = 1001;
    assert_eq!(
        told(&long, &buy),
        "approved result valid_until 1001 exceeds intent signal_expires_at 1000"
    );
    assert_eq!(
        told(&risk(), &intent(TradeIntentAction::Close)),
        "CLOSE intent cannot be approved in the first implementation"
    );
    assert_eq!(
        told(&risk(), &intent(TradeIntentAction::Hold)),
        "HOLD intent must not contain sizing"
    );
    let mut two = risk();
    let extra = risk().sizing_candidates.unwrap().remove(0);
    two.sizing_candidates.as_mut().unwrap().push(extra);
    assert_eq!(
        told(&two, &buy),
        "approved single-leg intent must contain exactly one sizing candidate, found 2"
    );
    let mut other = risk();
    other.sizing_candidates.as_mut().unwrap()[0].ratio = bits(0.5);
    assert!(told(&other, &buy).starts_with("single-leg sizing candidate must match"));
    let mut refused = risk();
    refused.approved = false;
    validate_risk_result_intent_contract(&refused, &buy).unwrap();
}

#[test]
fn decisions_belong_to_a_stored_intent() {
    let new = || NewRiskResult { result: risk() };
    validate_risk_result_intent_identity(&new(), &Some(stored_intent())).unwrap();
    assert!(matches!(
        validate_risk_result_intent_identity(&new(), &None),
        Err(StoreError::NotFound { entity: "trade_intent", .. })
    ));
    let mut other = stored_intent();
    other.intent.account_id = text("a2");
    assert!(matches!(
        validate_risk_result_intent_identity(&new(), &Some(other)),
        Err(StoreError::IdentityConflict { entity: "risk_result", .. })
    ));
    assert!(validate_new_risk_result(&new(), &None).is_ok());
    assert!(matches!(
        validate_new_risk_result(&new(), &Some(text("no"))),
        Err(StoreError::InvalidRecord { .. })
    ));
    assert!(matches!(
        resolve_risk_result_replay(stored_risk(), &new(), &json(r#"{"risk":1}"#)),
        Ok(WriteOutcome::Duplicate(_))
    ));
    assert!(matches!(
        resolve_risk_result_replay(stored_risk(), &new(), &json(r#"{"risk":2}"#)),
        Err(StoreError::IdentityConflict { .. })
    ));
}

#[test]
fn intents_are_recorded_once() {
    let buy = intent(TradeIntentAction::Buy);
    assert_eq!(stored_intent().created_at, 110);
    assert_eq!(stored_intent().status, "ACCEPTED");
    assert!(matches!(
        resolve_trade_intent_replay(vec![stored_intent()], &buy, &json(r#"{"intent":1}"#)),
        Ok(WriteOutcome::Duplicate(_))
    ));
    assert!(matches!(
        resolve_trade_intent_replay(vec![stored_intent()], &buy, &json(r#"{"intent":2}"#)),
        Err(StoreError::IdentityConflict { .. })
    ));
    assert!(matches!(
        resolve_trade_intent_replay(vec![], &buy, &json(r#"{"intent":1}"#)),
        Err(StoreError::IdentityConflict { .. })
    ));
}

fn intent_row() -> TradeIntentRow {
    TradeIntentRow {
        intent_id: text("i1"),
        decision_id: text("d1"),
        strategy_id: text("st1"),
        account_id: text("a1"),
        symbol: text("EURUSD"),
        action: text("BUY"),
        status: named("ACCEPTED"),
        requested_at: 100,
        signal_expires_at: 1000,
        idempotency_key: text("k1"),
        payload: columns(r#"{"intent":1}"#),
        created_at: 110,
        updated_at: 110,
        intent: Ok(intent(TradeIntentAction::Buy)),
    }
}

fn risk_row() -> RiskResultRow {
    RiskResultRow {
        risk_id: text("r1"),
        intent_id: text("i1"),
        account_id: text("a1"),
        approved: 1,
        reason: text("OK"),
        snapshot_age_ms: 1,
        symbol_metadata_age_ms: 2,
        evaluated_at: 200,
        valid_until: 900,
        payload: columns(r#"{"risk":1}"#),
        result: Ok(risk()),
        verdict: None,
        parent: Some(intent_row()),
    }
}

#[test]
fn rows_repeat_their_payload() {
    assert_eq!(trade_intent_from_row(intent_row()).unwrap(), stored_intent());
    let mut torn = intent_row();
    torn.symbol = text("USDJPY");
    assert!(matches!(trade_intent_from_row(torn), Err(StoreError::CorruptData { .. })));
    let mut torn = intent_row();
    torn.status = EnumColumn { text: text("ODD"), parsed: Err(text("unknown")) };
    match trade_intent_from_row(torn) {
        Err(StoreError::CorruptData { reason, .. }) => {
            assert_eq!(reason, "invalid status value \"ODD\": unknown")
        }
        other => panic!("{other:?}"),
    }
    assert_eq!(risk_result_from_row(risk_row()).unwrap(), stored_risk());
    let mut torn = risk_row();
    torn.approved = 2;
    assert!(matches!(risk_result_from_row(torn), Err(StoreError::CorruptData { .. })));
    let mut torn = risk_row();
    torn.parent = None;
    assert!(matches!(risk_result_from_row(torn), Err(StoreError::CorruptData { .. })));
    let mut torn = risk_row();
    torn.verdict = Some(text("no"));
    assert!(matches!(risk_result_from_row(torn), Err(StoreError::CorruptData { .. })));
}

#[test]
fn plans_carry_out_what_was_approved() {
    let told = |plan: &ExecutionPlan, at: i64| {
        validate_execution_plan_graph(
            plan,
            &text("r1"),
            &text("i1"),
            at,
            &stored_risk(),
            &stored_intent(),
        )
    };
    told(&plan(), 300).unwrap();
    assert_eq!(
        told(&plan(), 900).unwrap_err(),
        "plan was not created within the approved execution window"
    );
    let mut larger = plan();
    larger.legs[0].definition.lots = Some(bits(0.6));
    assert!(told(&larger, 300).is_err());
    let mut other = plan();
    other.definition.strategy_id = text("st2");
    assert_eq!(
        told(&other, 300).unwrap_err(),
        "plan identity differs from its intent or risk approval"
    );
    let mut more = plan();
    more.legs.push(plan().legs.remove(0));
    assert_eq!(
        told(&more, 300).unwrap_err(),
        "plan legs do not correspond one-to-one with risk legs"
    );
    validate_new_execution_plan(
        &new_plan(),
        &None,
        &Some(stored_risk()),
        &Some(stored_intent()),
    )
    .unwrap();
    let mut moved = new_plan();
    moved.plan.state.status = text("RUNNING");
    assert!(validate_new_execution_plan(
        &moved,
        &None,
        &Some(stored_risk()),
        &Some(stored_intent())
    )
    .is_err());
    validate_stored_plan(&stored_plan(), &None, &Some(stored_risk()), &Some(stored_intent()))
        .unwrap();
    assert!(matches!(
        resolve_execution_plan_replay(stored_plan(), &new_plan(), &json(r#"{"plan":1}"#)),
        Ok(WriteOutcome::Duplicate(_))
    ));
    assert!(matches!(
        resolve_execution_plan_replay(stored_plan(), &new_plan(), &json(r#"{"plan":2}"#)),
        Err(StoreError::IdentityConflict { .. })
    ));
}

fn leg_row(status: &str) -> LegRow {
    LegRow {
        leg_id: text("l1"),
        plan_id: text("p1"),
        symbol: text("EURUSD"),
        action: text("BUY"),
        status: named(status),
        payload: columns(r#"{"leg":1}"#),
        updated_at: 300,
        definition: Ok(leg_definition()),
        verdict: None,
    }
}

#[test]
fn plans_are_put_together_from_their_rows() {
    let row = |status: &str| PlanRow {
        plan_id: text("p1"),
        risk_id: text("r1"),
        intent_id: text("i1"),
        account_id: text("a1"),
        strategy_id: text("st1"),
        status: named(status),
        mode: text("SEQUENTIAL"),
        failure_policy: text("STOP"),
        payload: columns(r#"{"plan":1}"#),
        created_at: 300,
        updated_at: 300,
    };
    let journal = || {
        Ok(ExecutionPlanJournal {
            risk_id: text("r1"),
            intent_id: text("i1"),
            definition: plan_definition(),
            legs: vec![JournalLeg {
                definition: leg_definition(),
                payload: Ok(json(r#"{"leg":1}"#)),
            }],
        })
    };
    let read =
        execution_plan_from_row(row("PENDING"), journal(), vec![leg_row("PENDING")]).unwrap();
    assert_eq!(read, stored_plan());
    let filled =
        execution_plan_from_row(row("FILLED"), journal(), vec![leg_row("FILLED")]).unwrap();
    assert_eq!(filled.plan.state.filled_legs, vec![text("l1")]);
    assert!(filled.plan.state.failed_legs.is_empty());
    assert!(matches!(
        execution_plan_from_row(row("PENDING"), journal(), vec![]),
        Err(StoreError::CorruptData { .. })
    ));
    assert!(matches!(
        execution_plan_from_row(row("PENDING"), Err(text("torn")), vec![leg_row("PENDING")]),
        Err(StoreError::CorruptData { .. })
    ));
    assert_eq!(execution_leg_from_row(leg_row("PENDING")).unwrap(), stored_leg());
    let mut torn = leg_row("PENDING");
    torn.action = text("SELL");
    assert!(matches!(execution_leg_from_row(torn), Err(StoreError::CorruptData { .. })));
}

#[test]
fn states_change_from_what_was_expected() {
    let update = |expected: &str, at: i64| PlanStateUpdate {
        plan_id: text("p1"),
        expected_status: text(expected),
        expected_updated_at: 300,
        state: ExecutionPlanState {
            status: text("RUNNING"),
            filled_legs: vec![],
            failed_legs: vec![],
        },
        updated_at: at,
    };
    match update_execution_plan_state(stored_plan(), &update("PENDING", 400), &None) {
        Ok(StateWrite::Applied(next)) => {
            assert_eq!(next.plan.state.status, "RUNNING");
            assert_eq!(next.updated_at, 400);
            assert!(matches!(
                update_execution_plan_state(next, &update("PENDING", 400), &None),
                Ok(StateWrite::Replayed(_))
            ));
        }
        _ => panic!("the state was not changed"),
    }
    assert!(matches!(
        update_execution_plan_state(stored_plan(), &update("RUNNING", 400), &None),
        Err(StoreError::StaleWrite { entity: "execution_plan_state", .. })
    ));
    assert!(matches!(
        update_execution_plan_state(stored_plan(), &update("PENDING", 300), &None),
        Err(StoreError::StaleWrite { .. })
    ));
    let leg_update = LegStateUpdate {
        plan_id: text("p1"),
        leg_id: text("l1"),
        expected_status: text("PENDING"),
        expected_updated_at: 300,
        state: ExecutionLegState { status: text("SENT") },
        updated_at: 400,
    };
    assert!(matches!(
        update_execution_leg_state(stored_leg(), &leg_update, &None, &Some(stored_plan()), &None),
        Ok(StateWrite::Applied(next)) if next.leg.state.status == "SENT"
    ));
    assert!(matches!(
        update_execution_leg_state(
            stored_leg(),
            &leg_update,
            &None,
            &Some(stored_plan()),
            &Some(text("torn"))
        ),
        Err(StoreError::InvalidRecord { .. })
    ));
    assert!(matches!(
        update_execution_leg_state(stored_leg(), &leg_update, &None, &None, &None),
        Err(StoreError::NotFound { .. })
    ));
}

#[test]
fn plan_and_legs_change_together() {
    let update = |leg: &str, at: i64| ExecutionLifecycleUpdate {
        plan: PlanStateUpdate {
            plan_id: text("p1"),
            expected_status: text("PENDING"),
            expected_updated_at: 300,
            state: ExecutionPlanState {
                status: text("FILLED"),
                filled_legs: vec![text("l1")],
                failed_legs: vec![],
            },
            updated_at: at,
        },
        legs: vec![LegStateUpdate {
            plan_id: text("p1"),
            leg_id: text(leg),
            expected_status: text("PENDING"),
            expected_updated_at: 300,
            state: ExecutionLegState { status: text("FILLED") },
            updated_at: 400,
        }],
    };
    validate_execution_lifecycle_update_shape(&update("l1", 400)).unwrap();
    let mut none = update("l1", 400);
    none.legs.clear();
    assert!(validate_execution_lifecycle_update_shape(&none).is_err());
    let legs = match propose_execution_lifecycle(
        &stored_plan(),
        &vec![stored_leg()],
        &update("l1", 400),
    ) {
        Ok(LifecycleProposal::Proposed(legs)) => legs,
        _ => panic!("nothing was proposed"),
    };
    assert_eq!(legs[0].state.status, "FILLED");
    let next = update_execution_lifecycle(
        stored_plan(),
        &vec![stored_leg()],
        &update("l1", 400),
        legs,
        &None,
    )
    .unwrap();
    assert_eq!(next.plan.state.status, "FILLED");
    assert_eq!(next.plan.state.filled_legs, vec![text("l1")]);
    assert_eq!(next.updated_at, 400);
    assert!(propose_execution_lifecycle(&stored_plan(), &vec![stored_leg()], &update("l2", 400))
        .is_err());
    let early = match propose_execution_lifecycle(
        &stored_plan(),
        &vec![stored_leg()],
        &update("l1", 399),
    ) {
        Ok(LifecycleProposal::Proposed(legs)) => legs,
        _ => panic!("nothing was proposed"),
    };
    assert!(matches!(
        update_execution_lifecycle(
            stored_plan(),
            &vec![stored_leg()],
            &update("l1", 399),
            early,
            &None
        ),
        Err(StoreError::InvalidRecord { entity: "execution_lifecycle", .. })
    ));
}

#[test]
fn commands_follow_from_their_plan() {
    let told = |command: &ExecutionCommand, at: i64| {
        validate_execution_command_graph(
            command,
            &text("r1"),
            at,
            &plan(),
            &text("r1"),
            300,
            &risk(),
            &intent(TradeIntentAction::Buy),
        )
    };
    told(&command(), 310).unwrap();
    let mut drifted = command();
    drifted.sl = Some(bits(1.06));
    assert_eq!(
        told(&drifted, 310).unwrap_err(),
        "command cmd1 drifts from approved plan leg l1"
    );
    let mut endless = command();
    endless.expires_at = 901;
    assert_eq!(
        told(&endless, 310).unwrap_err(),
        "command lifecycle is outside the approved execution window"
    );
    let mut bare = command();
    bare.hmac = "A".repeat(64);
    assert_eq!(
        told(&bare, 310).unwrap_err(),
        "command hmac must be lowercase 64-character hex"
    );
    let mut lost = command();
    lost.leg_id = Some(text("l9"));
    assert_eq!(told(&lost, 310).unwrap_err(), "command references unknown plan leg l9");
    let mut lost = command();
    lost.plan_id = None;
    assert_eq!(told(&lost, 310).unwrap_err(), "workflow command has no plan_id");
    validate_initial_command_state(&state("CREATED", 310), &new_command()).unwrap();
    assert_eq!(
        validate_initial_command_state(&state("SENT", 310), &new_command()).unwrap_err(),
        "command cmd1 must start in a pristine CREATED state"
    );
    let stored = new_execution_command_record(new_command(), json(r#"{"command":1}"#));
    validate_persisted_command_state(&state("SENT", 400), &stored).unwrap();
    let mut late = state("SENT", 400);
    late.dispatched_at = Some(401);
    assert_eq!(
        validate_persisted_command_state(&late, &stored).unwrap_err(),
        "dispatched_at is outside the persisted lifecycle window"
    );
}

fn command_row() -> CommandRow {
    CommandRow {
        command_id: text("cmd1"),
        risk_id: text("r1"),
        plan_id: Some(text("p1")),
        leg_id: Some(text("l1")),
        account_id: text("a1"),
        client_id: None,
        terminal_id: None,
        symbol: text("EURUSD"),
        action: text("BUY"),
        expires_at: 900,
        idempotency_key: text("ck1"),
        payload: columns(r#"{"command":1}"#),
        hmac: "a".repeat(64),
        created_at: 310,
        command: Ok(command()),
    }
}

fn state_row() -> CommandStateRow {
    CommandStateRow {
        command_id: text("cmd1"),
        account_id: text("a1"),
        plan_id: Some(text("p1")),
        leg_id: Some(text("l1")),
        status: named("CREATED"),
        delivery_attempts: 0,
        last_delivery_error: None,
        created_at: 310,
        dispatched_at: None,
        command_received_at: None,
        reconciling_at: None,
        completed_at: None,
        updated_at: 310,
    }
}

#[test]
fn workflows_are_written_once() {
    validate_new_execution_workflow(&workflow()).unwrap();
    let mut bare = workflow();
    bare.commands.clear();
    bare.command_states.clear();
    assert!(matches!(
        validate_new_execution_workflow(&bare),
        Err(StoreError::InvalidRecord { entity: "execution_workflow", .. })
    ));
    let mut twice = workflow();
    twice.commands.push(new_command());
    twice.command_states.push(state("CREATED", 310));
    assert!(validate_new_execution_workflow(&twice).is_err());
    let stored = || {
        assemble_execution_workflow(
            stored_plan(),
            Some(stored_risk()),
            Some(stored_intent()),
            vec![command_row()],
            &vec![state_row()],
        )
        .unwrap()
    };
    assert_eq!(stored().commands[0].command, command());
    let payloads = |intent: &str| WorkflowPayloads {
        intent: json(intent),
        risk_result: json(r#"{"risk":1}"#),
        plan: json(r#"{"plan":1}"#),
        commands: vec![json(r#"{"command":1}"#)],
    };
    assert!(matches!(
        finish_execution_workflow(
            Some(stored()),
            &workflow(),
            &payloads(r#"{"intent":1}"#),
            true
        ),
        Ok(WriteOutcome::Inserted(_))
    ));
    assert!(matches!(
        finish_execution_workflow(
            Some(stored()),
            &workflow(),
            &payloads(r#"{"intent":1}"#),
            false
        ),
        Ok(WriteOutcome::Duplicate(_))
    ));
    assert!(matches!(
        finish_execution_workflow(
            Some(stored()),
            &workflow(),
            &payloads(r#"{"intent":2}"#),
            false
        ),
        Err(StoreError::IdentityConflict { .. })
    ));
    assert!(matches!(
        assemble_execution_workflow(
            stored_plan(),
            None,
            Some(stored_intent()),
            vec![command_row()],
            &vec![state_row()],
        ),
        Err(StoreError::CorruptData { .. })
    ));
}

#[test]
fn command_states_go_forward() {
    let update = |expected: &str, status: &str, at: i64| CommandStateUpdate {
        expected_status: text(expected),
        expected_updated_at: 310,
        state: state(status, at),
    };
    let current = Some(state("CREATED", 310));
    let next =
        update_execution_command_state(&current, update("CREATED", "SENT", 400)).unwrap();
    assert_eq!(next.status, "SENT");
    let again =
        update_execution_command_state(&Some(next), update("CREATED", "SENT", 400)).unwrap();
    assert_eq!(again.updated_at, 400);
    assert!(matches!(
        update_execution_command_state(&current, update("SENT", "DONE", 400)),
        Err(StoreError::StaleWrite { .. })
    ));
    assert!(matches!(
        update_execution_command_state(&None, update("CREATED", "SENT", 400)),
        Err(StoreError::NotFound { .. })
    ));
    let mut other = update("CREATED", "SENT", 400);
    other.state.account_id = text("a2");
    assert!(matches!(
        update_execution_command_state(&current, other),
        Err(StoreError::IdentityConflict { .. })
    ));
    assert!(matches!(
        resolve_command_state_replay(Some(state("SENT", 400)), &state("CREATED", 310)),
        Ok(WriteOutcome::Duplicate(found)) if found.status == "SENT"
    ));
    assert!(resolve_command_state_replay(None, &state("CREATED", 310)).is_err());
    let identity = |account: &str| {
        Some(CommandIdentity {
            account_id: text(account),
            plan_id: Some(text("p1")),
            leg_id: Some(text("l1")),
            created_at: 310,
        })
    };
    validate_command_state_identity(&identity("a1"), &state("CREATED", 310)).unwrap();
    assert!(validate_command_state_identity(&identity("a2"), &state("CREATED", 310)).is_err());
    assert_eq!(execution_command_state_from_row(state_row()).unwrap(), state("CREATED", 310));
    let mut torn = state_row();
    torn.delivery_attempts = -1;
    assert!(matches!(
        execution_command_state_from_row(torn),
        Err(StoreError::CorruptData { .. })
    ));
}

#[test]
fn commands_and_events_are_recorded_once() {
    let stored = || new_execution_command_record(new_command(), json(r#"{"command":1}"#));
    assert_eq!(execution_command_from_row(command_row()).unwrap(), stored());
    assert!(matches!(
        resolve_execution_command_replay(
            vec![stored()],
            &new_command(),
            &json(r#"{"command":1}"#)
        ),
        Ok(WriteOutcome::Duplicate(_))
    ));
    assert!(matches!(
        resolve_execution_command_replay(
            vec![stored()],
            &new_command(),
            &json(r#"{"command":2}"#)
        ),
        Err(StoreError::IdentityConflict { .. })
    ));
    let event = || ExecutionEvent {
        execution_id: text("x1"),
        command_id: text("cmd1"),
        plan_id: Some(text("p1")),
        leg_id: Some(text("l1")),
        account_id: text("a1"),
        status: text("FILLED"),
        broker_order_id: Some(text("b1")),
        position_ticket: None,
        event_at: 500,
        filled_at: Some(500),
    };
    let recorded = || {
        new_execution_event_record(
            NewExecutionEvent { event: event(), created_at: 510 },
            json(r#"{"event":1}"#),
        )
    };
    assert!(matches!(
        resolve_execution_event_replay(Some(recorded()), &event(), &json(r#"{"event":1}"#)),
        Ok(WriteOutcome::Duplicate(_))
    ));
    assert!(resolve_execution_event_replay(
        Some(recorded()),
        &event(),
        &json(r#"{"event":2}"#)
    )
    .is_err());
    let row = ExecutionEventRow {
        execution_id: text("x1"),
        command_id: text("cmd1"),
        plan_id: Some(text("p1")),
        leg_id: Some(text("l1")),
        account_id: text("a1"),
        status: text("FILLED"),
        broker_order_id: Some(text("b1")),
        position_ticket: None,
        event_at: 500,
        filled_at: Some(500),
        payload: columns(r#"{"event":1}"#),
        created_at: 510,
        event: Ok(event()),
    };
    assert_eq!(execution_event_from_row(row).unwrap(), recorded());
}
