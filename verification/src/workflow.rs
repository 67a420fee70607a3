//! Workflows: an intent, its approval, its plan and one command for each leg.

use vstd::prelude::*;
use vstd::string::*;

use crate::domain::RiskId;
use crate::error;
use crate::error::{Fault, StoreError};
use crate::plans;
use crate::plans::{find_leg, INTENT_ACCEPTED};
use crate::text;
use crate::text::{
    among_first, first_place, is_lower_hex_64, join2, join3, join4, same_optional, same_text,
};
use crate::trading;
use crate::trading::{
    same_optional_f64_bits, ExecutionCommand, ExecutionCommandState, ExecutionLeg, ExecutionPlan,
    NewExecutionCommand, NewExecutionPlan, NewExecutionWorkflow, NewRiskResult, NewTradeIntent,
    RiskResult, StoredExecutionCommand, StoredExecutionPlan, StoredRiskResult, StoredTradeIntent,
    TradeIntent,
};

verus! {

/// The status in which a command begins.
pub const COMMAND_CREATED: &'static str = "CREATED";

/// The command carries the leg out: same symbol, same action, same numbers.
pub open spec fn command_of_leg(command: ExecutionCommand, leg: ExecutionLeg) -> bool {
    &&& command.symbol@ == leg.definition.symbol@
    &&& command.action@ == leg.definition.action@
    &&& trading::same_optional_finite(command.lots, leg.definition.lots)
    &&& trading::same_optional_finite(command.sl, leg.definition.sl)
    &&& trading::same_optional_finite(command.tp, leg.definition.tp)
}

/// The command belongs to the plan and to what the plan comes from.
pub open spec fn command_in_graph(
    command: ExecutionCommand,
    command_risk_id: Seq<char>,
    plan: ExecutionPlan,
    plan_risk_id: Seq<char>,
    risk: RiskResult,
    intent: TradeIntent,
) -> bool {
    &&& command.plan_id->0@ == plan.definition.plan_id@
    &&& command_risk_id == plan_risk_id
    &&& plan_risk_id == risk.risk_id@
    &&& command.account_id@ == plan.definition.account_id@
    &&& command.account_id@ == risk.account_id@
    &&& command.account_id@ == intent.account_id@
    &&& command.strategy_id@ == plan.definition.strategy_id@
    &&& command.strategy_id@ == intent.strategy_id@
}

/// The life of the command lies within what was approved.
pub open spec fn command_in_time(
    command: ExecutionCommand,
    created_at: i64,
    plan_created_at: i64,
    risk: RiskResult,
    intent: TradeIntent,
) -> bool {
    &&& plan_created_at <= created_at
    &&& risk.evaluated_at <= created_at
    &&& 0 <= created_at
    &&& created_at < command.expires_at
    &&& command.expires_at <= risk.valid_until
    &&& command.expires_at <= intent.signal_expires_at
}

/// Why a command does not follow from its plan.
pub open spec fn command_graph_reason(
    command: ExecutionCommand,
    command_risk_id: Seq<char>,
    command_created_at: i64,
    plan: ExecutionPlan,
    plan_risk_id: Seq<char>,
    plan_created_at: i64,
    risk: RiskResult,
    intent: TradeIntent,
) -> Option<Seq<char>> {
    if command.plan_id is None {
        Some("workflow command has no plan_id"@)
    } else if command.leg_id is None {
        Some("workflow command has no leg_id"@)
    } else {
        let leg_id = command.leg_id->0@;
        let at = text::first_index(plans::leg_ids(plan.legs@), leg_id) as int;
        if at >= plan.legs@.len() {
            Some("command references unknown plan leg "@ + leg_id)
        } else if !command_in_graph(command, command_risk_id, plan, plan_risk_id, risk, intent) {
            Some("command identity differs from its plan or approval"@)
        } else if !command_of_leg(command, plan.legs@[at]) {
            Some("command "@ + command.command_id@ + " drifts from approved plan leg "@ + leg_id)
        } else if !command_in_time(command, command_created_at, plan_created_at, risk, intent) {
            Some("command lifecycle is outside the approved execution window"@)
        } else if !text::lower_hex_64(command.hmac@) {
            Some("command hmac must be lowercase 64-character hex"@)
        } else {
            None
        }
    }
}

/// Checks that a command follows from its plan.
pub fn validate_execution_command_graph(
    command: &ExecutionCommand,
    command_risk_id: &RiskId,
    command_created_at: i64,
    plan: &ExecutionPlan,
    plan_risk_id: &RiskId,
    plan_created_at: i64,
    risk: &RiskResult,
    intent: &TradeIntent,
) -> (r: Result<(), String>)
    ensures
        plans::reason_of(r) == command_graph_reason(
            *command,
            command_risk_id@,
            command_created_at,
            *plan,
            plan_risk_id@,
            plan_created_at,
            *risk,
            *intent,
        ),
{
    let plan_id = match &command.plan_id {
        Some(plan_id) => plan_id,
        None => {
            return Err("workflow command has no plan_id".to_owned());
        },
    };
    let leg_id = match &command.leg_id {
        Some(leg_id) => leg_id,
        None => {
            return Err("workflow command has no leg_id".to_owned());
        },
    };
    let at: usize = find_leg(&plan.legs, leg_id.as_str());
    if at >= plan.legs.len() {
        return Err(join2("command references unknown plan leg ", leg_id.as_str()));
    }
    let leg = &plan.legs[at];
    if !same_text(plan_id.as_str(), plan.definition.plan_id.as_str()) || !same_text(
        command_risk_id.as_str(),
        plan_risk_id.as_str(),
    ) || !same_text(plan_risk_id.as_str(), risk.risk_id.as_str()) || !same_text(
        command.account_id.as_str(),
        plan.definition.account_id.as_str(),
    ) || !same_text(command.account_id.as_str(), risk.account_id.as_str()) || !same_text(
        command.account_id.as_str(),
        intent.account_id.as_str(),
    ) || !same_text(command.strategy_id.as_str(), plan.definition.strategy_id.as_str())
        || !same_text(command.strategy_id.as_str(), intent.strategy_id.as_str()) {
        return Err("command identity differs from its plan or approval".to_owned());
    }
    if !same_text(command.symbol.as_str(), leg.definition.symbol.as_str()) || !same_text(
        command.action.as_str(),
        leg.definition.action.as_str(),
    ) || !same_optional_f64_bits(command.lots, leg.definition.lots) || !same_optional_f64_bits(
        command.sl,
        leg.definition.sl,
    ) || !same_optional_f64_bits(command.tp, leg.definition.tp) {
        return Err(
            join4(
                "command ",
                command.command_id.as_str(),
                " drifts from approved plan leg ",
                leg_id.as_str(),
            ),
        );
    }
    if command_created_at < plan_created_at || command_created_at < risk.evaluated_at
        || command_created_at < 0 || command.expires_at <= command_created_at
        || command.expires_at > risk.valid_until || command.expires_at
        > intent.signal_expires_at {
        return Err("command lifecycle is outside the approved execution window".to_owned());
    }
    if !is_lower_hex_64(command.hmac.as_str()) {
        return Err("command hmac must be lowercase 64-character hex".to_owned());
    }
    Ok(())
}

/// Why a new command does not follow from the new plan.
pub open spec fn new_command_reason(
    command: NewExecutionCommand,
    plan: NewExecutionPlan,
    risk: NewRiskResult,
    intent: NewTradeIntent,
) -> Option<Seq<char>> {
    command_graph_reason(
        command.command,
        command.risk_id@,
        command.created_at,
        plan.plan,
        plan.risk_id@,
        plan.recorded_at,
        risk.result,
        intent.intent,
    )
}

/// Checks that a new command follows from the new plan.
pub fn validate_new_execution_command_graph(
    command: &NewExecutionCommand,
    plan: &NewExecutionPlan,
    risk: &NewRiskResult,
    intent: &NewTradeIntent,
) -> (r: Result<(), String>)
    ensures
        plans::reason_of(r) == new_command_reason(*command, *plan, *risk, *intent),
{
    validate_execution_command_graph(
        &command.command,
        &command.risk_id,
        command.created_at,
        &plan.plan,
        &plan.risk_id,
        plan.recorded_at,
        &risk.result,
        &intent.intent,
    )
}

/// Why a stored command does not follow from the stored plan.
pub open spec fn stored_command_reason(
    command: ExecutionCommand,
    risk_id: Seq<char>,
    created_at: i64,
    plan: StoredExecutionPlan,
    risk: StoredRiskResult,
    intent: StoredTradeIntent,
) -> Option<Seq<char>> {
    command_graph_reason(
        command,
        risk_id,
        created_at,
        plan.plan,
        plan.risk_id@,
        plan.created_at,
        risk.result,
        intent.intent,
    )
}

/// Checks that a stored command follows from the stored plan.
pub fn validate_stored_execution_command_graph(
    command: &StoredExecutionCommand,
    plan: &StoredExecutionPlan,
    risk: &StoredRiskResult,
    intent: &StoredTradeIntent,
) -> (r: Result<(), String>)
    ensures
        plans::reason_of(r) == stored_command_reason(
            command.command,
            command.risk_id@,
            command.created_at,
            *plan,
            *risk,
            *intent,
        ),
{
    validate_execution_command_graph(
        &command.command,
        &command.risk_id,
        command.created_at,
        &plan.plan,
        &plan.risk_id,
        plan.created_at,
        &risk.result,
        &intent.intent,
    )
}

/// A command has not been touched since it was made.
pub open spec fn untouched(state: ExecutionCommandState) -> bool {
    &&& state.status@ == COMMAND_CREATED@
    &&& state.delivery_attempts == 0
    &&& state.last_delivery_error is None
    &&& state.dispatched_at is None
    &&& state.command_received_at is None
    &&& state.reconciling_at is None
    &&& state.completed_at is None
}

/// A state is of this command.
pub open spec fn state_of_command(
    state: ExecutionCommandState,
    command: ExecutionCommand,
    created_at: i64,
) -> bool {
    &&& state.command_id@ == command.command_id@
    &&& state.account_id@ == command.account_id@
    &&& text::optional_text(state.plan_id) == text::optional_text(command.plan_id)
    &&& text::optional_text(state.leg_id) == text::optional_text(command.leg_id)
    &&& state.created_at == created_at
}

fn is_state_of_command(
    state: &ExecutionCommandState,
    command: &ExecutionCommand,
    created_at: i64,
) -> (r: bool)
    ensures
        r == state_of_command(*state, *command, created_at),
{
    same_text(state.command_id.as_str(), command.command_id.as_str()) && same_text(
        state.account_id.as_str(),
        command.account_id.as_str(),
    ) && same_optional(&state.plan_id, &command.plan_id) && same_optional(
        &state.leg_id,
        &command.leg_id,
    ) && state.created_at == created_at
}

/// Why a state is not the beginning of a command.
pub open spec fn initial_state_reason(
    state: ExecutionCommandState,
    command: NewExecutionCommand,
) -> Option<Seq<char>> {
    let id = command.command.command_id@;
    if !state_of_command(state, command.command, command.created_at) || state.updated_at
        != command.created_at {
        Some("initial state identity differs from command "@ + id)
    } else if !untouched(state) {
        Some("command "@ + id + " must start in a pristine CREATED state"@)
    } else {
        None
    }
}

/// Checks that a state is the beginning of a command.
pub fn validate_initial_command_state(
    state: &ExecutionCommandState,
    command: &NewExecutionCommand,
) -> (r: Result<(), String>)
    ensures
        plans::reason_of(r) == initial_state_reason(*state, *command),
{
    if !is_state_of_command(state, &command.command, command.created_at) || state.updated_at
        != command.created_at {
        return Err(
            join2(
                "initial state identity differs from command ",
                command.command.command_id.as_str(),
            ),
        );
    }
    if !same_text(state.status.as_str(), COMMAND_CREATED) || state.delivery_attempts != 0
        || state.last_delivery_error.is_some() || state.dispatched_at.is_some()
        || state.command_received_at.is_some() || state.reconciling_at.is_some()
        || state.completed_at.is_some() {
        return Err(
            join3(
                "command ",
                command.command.command_id.as_str(),
                " must start in a pristine CREATED state",
            ),
        );
    }
    Ok(())
}

/// A time lies within the life of a state.
pub open spec fn within_life(time: Option<i64>, state: ExecutionCommandState) -> bool {
    time matches Some(time) ==> state.created_at <= time <= state.updated_at
}

/// Why a stored state is not one of the command.
pub open spec fn persisted_state_reason(
    state: ExecutionCommandState,
    command: ExecutionCommand,
    created_at: i64,
) -> Option<Seq<char>> {
    let outside = " is outside the persisted lifecycle window"@;
    if !state_of_command(state, command, created_at) {
        Some("state identity differs from its command"@)
    } else if state.created_at < 0 || state.updated_at < state.created_at {
        Some("created_at/updated_at lifecycle is invalid"@)
    } else if !within_life(state.dispatched_at, state) {
        Some("dispatched_at"@ + outside)
    } else if !within_life(state.command_received_at, state) {
        Some("command_received_at"@ + outside)
    } else if !within_life(state.reconciling_at, state) {
        Some("reconciling_at"@ + outside)
    } else if !within_life(state.completed_at, state) {
        Some("completed_at"@ + outside)
    } else {
        None
    }
}

fn is_within_life(time: Option<i64>, state: &ExecutionCommandState) -> (r: bool)
    ensures
        r == within_life(time, *state),
{
    match time {
        Some(time) => state.created_at <= time && time <= state.updated_at,
        None => true,
    }
}

/// Checks that a stored state is one of the command.
pub fn validate_persisted_command_state(
    state: &ExecutionCommandState,
    command: &StoredExecutionCommand,
) -> (r: Result<(), String>)
    ensures
        plans::reason_of(r) == persisted_state_reason(
            *state,
            command.command,
            command.created_at,
        ),
{
    if !is_state_of_command(state, &command.command, command.created_at) {
        return Err("state identity differs from its command".to_owned());
    }
    if state.created_at < 0 || state.updated_at < state.created_at {
        return Err("created_at/updated_at lifecycle is invalid".to_owned());
    }
    let outside = " is outside the persisted lifecycle window";
    if !is_within_life(state.dispatched_at, state) {
        return Err(join2("dispatched_at", outside));
    }
    if !is_within_life(state.command_received_at, state) {
        return Err(join2("command_received_at", outside));
    }
    if !is_within_life(state.reconciling_at, state) {
        return Err(join2("reconciling_at", outside));
    }
    if !is_within_life(state.completed_at, state) {
        return Err(join2("completed_at", outside));
    }
    Ok(())
}

/// A first state is a stored state of its command, once both are stored.
pub proof fn first_state_is_valid(state: ExecutionCommandState, command: NewExecutionCommand)
    requires
        initial_state_reason(state, command) is None,
        0 <= command.created_at,
    ensures
        persisted_state_reason(state, command.command, command.created_at) is None,
{
}

/// The names of new commands.
pub open spec fn new_command_ids(commands: Seq<NewExecutionCommand>) -> Seq<Seq<char>> {
    Seq::new(commands.len(), |i: int| commands[i].command.command_id@)
}

/// The idempotency keys of new commands.
pub open spec fn new_command_idempotency_keys(commands: Seq<NewExecutionCommand>) -> Seq<Seq<char>> {
    Seq::new(commands.len(), |i: int| commands[i].command.idempotency_key@)
}

/// The legs that new commands carry out.
pub open spec fn new_command_legs(commands: Seq<NewExecutionCommand>) -> Seq<Seq<char>> {
    Seq::new(commands.len(), |i: int| commands[i].command.leg_id->0@)
}

/// The commands that states are of.
pub open spec fn state_command_ids(states: Seq<ExecutionCommandState>) -> Seq<Seq<char>> {
    Seq::new(states.len(), |i: int| states[i].command_id@)
}

/// Why a command has no place in a workflow, after the commands before it.
pub open spec fn workflow_command_reason(
    earlier: Seq<NewExecutionCommand>,
    command: NewExecutionCommand,
    workflow: NewExecutionWorkflow,
) -> Option<Seq<char>> {
    match new_command_reason(command, workflow.plan, workflow.risk_result, workflow.intent) {
        Some(reason) => Some(reason),
        None => if new_command_ids(earlier).contains(command.command.command_id@) {
            Some("duplicate command_id "@ + command.command.command_id@)
        } else if new_command_idempotency_keys(earlier).contains(
            command.command.idempotency_key@,
        ) {
            Some("duplicate command idempotency_key "@ + command.command.idempotency_key@)
        } else if new_command_legs(earlier).contains(command.command.leg_id->0@) {
            Some("multiple commands reference plan leg "@ + command.command.leg_id->0@)
        } else {
            None
        },
    }
}

/// The first reason why a command has no place in a workflow.
pub open spec fn workflow_commands_reason(
    commands: Seq<NewExecutionCommand>,
    workflow: NewExecutionWorkflow,
) -> Option<Seq<char>>
    decreases commands.len(),
{
    if commands.len() == 0 {
        None
    } else {
        match workflow_commands_reason(commands.drop_last(), workflow) {
            Some(reason) => Some(reason),
            None => workflow_command_reason(commands.drop_last(), commands.last(), workflow),
        }
    }
}

proof fn workflow_commands_reason_of_prefix(
    commands: Seq<NewExecutionCommand>,
    workflow: NewExecutionWorkflow,
    n: int,
)
    requires
        0 <= n <= commands.len(),
        workflow_commands_reason(commands.take(n), workflow) is Some,
    ensures
        workflow_commands_reason(commands, workflow) == workflow_commands_reason(
            commands.take(n),
            workflow,
        ),
    decreases commands.len(),
{
    if n < commands.len() {
        assert(commands.drop_last().take(n) =~= commands.take(n));
        workflow_commands_reason_of_prefix(commands.drop_last(), workflow, n);
    } else {
        assert(commands.take(n) =~= commands);
    }
}

/// The first reason why the states of a workflow are not one for each command.
pub open spec fn workflow_states_reason(states: Seq<ExecutionCommandState>) -> Option<Seq<char>>
    decreases states.len(),
{
    if states.len() == 0 {
        None
    } else {
        match workflow_states_reason(states.drop_last()) {
            Some(reason) => Some(reason),
            None => if state_command_ids(states.drop_last()).contains(states.last().command_id@) {
                Some("duplicate command state for "@ + states.last().command_id@)
            } else {
                None
            },
        }
    }
}

proof fn workflow_states_reason_of_prefix(states: Seq<ExecutionCommandState>, n: int)
    requires
        0 <= n <= states.len(),
        workflow_states_reason(states.take(n)) is Some,
    ensures
        workflow_states_reason(states) == workflow_states_reason(states.take(n)),
    decreases states.len(),
{
    if n < states.len() {
        assert(states.drop_last().take(n) =~= states.take(n));
        workflow_states_reason_of_prefix(states.drop_last(), n);
    } else {
        assert(states.take(n) =~= states);
    }
}

/// Why a command does not begin with its state.
pub open spec fn command_beginning_reason(
    command: NewExecutionCommand,
    states: Seq<ExecutionCommandState>,
) -> Option<Seq<char>> {
    let at = text::first_index(state_command_ids(states), command.command.command_id@) as int;
    if at >= states.len() {
        Some("command "@ + command.command.command_id@ + " has no initial state"@)
    } else {
        initial_state_reason(states[at], command)
    }
}

/// The first reason why a command does not begin with its state.
pub open spec fn beginnings_reason(
    commands: Seq<NewExecutionCommand>,
    states: Seq<ExecutionCommandState>,
) -> Option<Seq<char>>
    decreases commands.len(),
{
    if commands.len() == 0 {
        None
    } else {
        match beginnings_reason(commands.drop_last(), states) {
            Some(reason) => Some(reason),
            None => command_beginning_reason(commands.last(), states),
        }
    }
}

proof fn beginnings_reason_of_prefix(
    commands: Seq<NewExecutionCommand>,
    states: Seq<ExecutionCommandState>,
    n: int,
)
    requires
        0 <= n <= commands.len(),
        beginnings_reason(commands.take(n), states) is Some,
    ensures
        beginnings_reason(commands, states) == beginnings_reason(commands.take(n), states),
    decreases commands.len(),
{
    if n < commands.len() {
        assert(commands.drop_last().take(n) =~= commands.take(n));
        beginnings_reason_of_prefix(commands.drop_last(), states, n);
    } else {
        assert(commands.take(n) =~= commands);
    }
}

/// Intent, approval and plan name each other.
pub open spec fn one_graph(workflow: NewExecutionWorkflow) -> bool {
    &&& workflow.plan.intent_id@ == workflow.intent.intent.intent_id@
    &&& workflow.plan.risk_id@ == workflow.risk_result.result.risk_id@
    &&& workflow.risk_result.result.intent_id@ == workflow.intent.intent.intent_id@
}

/// Every leg of the plan has a command, and there are as many of both.
pub open spec fn commands_cover_legs(workflow: NewExecutionWorkflow) -> bool {
    &&& workflow.commands@.len() == workflow.plan.plan.legs@.len()
    &&& forall|i: int|
        0 <= i < workflow.plan.plan.legs@.len() ==> new_command_legs(
            workflow.commands@,
        ).contains((#[trigger] workflow.plan.plan.legs@[i]).definition.leg_id@)
}

/// Why a workflow may not be stored.
pub open spec fn new_workflow_reason(workflow: NewExecutionWorkflow) -> Option<Seq<char>> {
    if workflow.intent.initial_status@ != INTENT_ACCEPTED@ {
        Some("workflow intent must have initial status ACCEPTED"@)
    } else if workflow.intent.recorded_at < 0 {
        Some("intent recorded_at must be non-negative"@)
    } else if !one_graph(workflow) {
        Some("intent, risk result, and plan identities do not form one graph"@)
    } else if workflow_commands_reason(workflow.commands@, workflow) is Some {
        workflow_commands_reason(workflow.commands@, workflow)
    } else if !commands_cover_legs(workflow) {
        Some("commands must correspond one-to-one with plan legs"@)
    } else if workflow_states_reason(workflow.command_states@) is Some {
        workflow_states_reason(workflow.command_states@)
    } else if workflow.command_states@.len() != workflow.commands@.len() {
        Some("every command must have exactly one initial state"@)
    } else {
        beginnings_reason(workflow.commands@, workflow.command_states@)
    }
}

/// What is wrong with a workflow that is to be stored.
pub open spec fn new_workflow_fault(workflow: NewExecutionWorkflow) -> Option<Fault> {
    match new_workflow_reason(workflow) {
        Some(reason) => Some(
            error::invalid_fault(
                "execution_workflow"@,
                plans::plan_key(workflow.plan.plan.definition.plan_id@),
                reason,
            ),
        ),
        None => None,
    }
}

fn list_command_ids(commands: &Vec<NewExecutionCommand>) -> (r: Vec<&str>)
    ensures
        text::views(r@) == new_command_ids(commands@),
{
    let mut out: Vec<&str> = Vec::new();
    let mut i: usize = 0;
    while i < commands.len()
        invariant
            i <= commands.len(),
            out@.len() == i,
            forall|j: int| 0 <= j < i ==> (#[trigger] out@[j])@ == commands@[j].command.command_id@,
        decreases commands.len() - i,
    {
        out.push(commands[i].command.command_id.as_str());
        i = i + 1;
    }
    assert(text::views(out@) =~= new_command_ids(commands@));
    out
}

fn list_idempotency_keys(commands: &Vec<NewExecutionCommand>) -> (r: Vec<&str>)
    ensures
        text::views(r@) == new_command_idempotency_keys(commands@),
{
    let mut out: Vec<&str> = Vec::new();
    let mut i: usize = 0;
    while i < commands.len()
        invariant
            i <= commands.len(),
            out@.len() == i,
            forall|j: int| 0 <= j < i ==> (#[trigger] out@[j])@ == commands@[j].command.idempotency_key@,
        decreases commands.len() - i,
    {
        out.push(commands[i].command.idempotency_key.as_str());
        i = i + 1;
    }
    assert(text::views(out@) =~= new_command_idempotency_keys(commands@));
    out
}

fn list_state_ids(states: &Vec<ExecutionCommandState>) -> (r: Vec<&str>)
    ensures
        text::views(r@) == state_command_ids(states@),
{
    let mut out: Vec<&str> = Vec::new();
    let mut i: usize = 0;
    while i < states.len()
        invariant
            i <= states.len(),
            out@.len() == i,
            forall|j: int| 0 <= j < i ==> (#[trigger] out@[j])@ == states@[j].command_id@,
        decreases states.len() - i,
    {
        out.push(states[i].command_id.as_str());
        i = i + 1;
    }
    assert(text::views(out@) =~= state_command_ids(states@));
    out
}

/// Checks the commands of a workflow, and gives the legs that they carry out.
fn check_workflow_commands(workflow: &NewExecutionWorkflow) -> (r: Result<Vec<&str>, String>)
    ensures
        match r {
            Ok(legs) => workflow_commands_reason(workflow.commands@, *workflow) is None
                && text::views(legs@) == new_command_legs(workflow.commands@),
            Err(reason) => workflow_commands_reason(workflow.commands@, *workflow) == Some(
                reason@,
            ),
        },
{
    let ghost all = workflow.commands@;
    let ids = list_command_ids(&workflow.commands);
    let keys = list_idempotency_keys(&workflow.commands);
    let mut legs: Vec<&str> = Vec::new();
    let mut i: usize = 0;
    while i < workflow.commands.len()
        invariant
            i <= workflow.commands.len(),
            all == workflow.commands@,
            text::views(ids@) == new_command_ids(all),
            text::views(keys@) == new_command_idempotency_keys(all),
            legs@.len() == i,
            forall|j: int|
                0 <= j < i ==> (#[trigger] legs@[j])@ == all[j].command.leg_id->0@,
            workflow_commands_reason(all.take(i as int), *workflow) is None,
        decreases workflow.commands.len() - i,
    {
        let ghost earlier = all.take(i as int);
        let ghost longer = all.take(i + 1);
        assert(longer.drop_last() =~= earlier);
        assert(text::views(ids@).len() == ids@.len());
        assert(text::views(keys@).len() == keys@.len());
        assert(new_command_ids(earlier) =~= text::views(ids@).take(i as int));
        assert(new_command_idempotency_keys(earlier) =~= text::views(keys@).take(i as int));
        let command = &workflow.commands[i];
        if let Err(reason) = validate_new_execution_command_graph(
            command,
            &workflow.plan,
            &workflow.risk_result,
            &workflow.intent,
        ) {
            proof {
                workflow_commands_reason_of_prefix(all, *workflow, i + 1);
            }
            return Err(reason);
        }
        if among_first(&ids, i, command.command.command_id.as_str()) {
            proof {
                workflow_commands_reason_of_prefix(all, *workflow, i + 1);
            }
            return Err(join2("duplicate command_id ", command.command.command_id.as_str()));
        }
        if among_first(&keys, i, command.command.idempotency_key.as_str()) {
            proof {
                workflow_commands_reason_of_prefix(all, *workflow, i + 1);
            }
            return Err(
                join2(
                    "duplicate command idempotency_key ",
                    command.command.idempotency_key.as_str(),
                ),
            );
        }
        let leg_id = match &command.command.leg_id {
            Some(leg_id) => leg_id,
            None => {
                return Err("workflow command has no leg_id".to_owned());
            },
        };
        assert(text::views(legs@).take(i as int) =~= new_command_legs(earlier));
        if among_first(&legs, legs.len(), leg_id.as_str()) {
            proof {
                workflow_commands_reason_of_prefix(all, *workflow, i + 1);
            }
            return Err(join2("multiple commands reference plan leg ", leg_id.as_str()));
        }
        legs.push(leg_id.as_str());
        i = i + 1;
    }
    assert(all.take(i as int) =~= all);
    assert(text::views(legs@) =~= new_command_legs(all));
    Ok(legs)
}

fn covers_legs(workflow: &NewExecutionWorkflow, legs: &Vec<&str>) -> (r: bool)
    requires
        text::views(legs@) == new_command_legs(workflow.commands@),
    ensures
        r == commands_cover_legs(*workflow),
{
    assert(text::views(legs@).len() == legs@.len());
    if workflow.commands.len() != workflow.plan.plan.legs.len() {
        return false;
    }
    let mut i: usize = 0;
    while i < workflow.plan.plan.legs.len()
        invariant
            i <= workflow.plan.plan.legs.len(),
            workflow.commands.len() == workflow.plan.plan.legs.len(),
            text::views(legs@) == new_command_legs(workflow.commands@),
            forall|j: int|
                0 <= j < i ==> new_command_legs(workflow.commands@).contains(
                    (#[trigger] workflow.plan.plan.legs@[j]).definition.leg_id@,
                ),
        decreases workflow.plan.plan.legs.len() - i,
    {
        assert(text::views(legs@).take(legs@.len() as int) =~= text::views(legs@));
        let leg = &workflow.plan.plan.legs[i];
        if !among_first(legs, legs.len(), leg.definition.leg_id.as_str()) {
            assert(!new_command_legs(workflow.commands@).contains(
                workflow.plan.plan.legs@[i as int].definition.leg_id@,
            ));
            return false;
        }
        i = i + 1;
    }
    true
}

fn check_workflow_states(states: &Vec<ExecutionCommandState>) -> (r: Result<(), String>)
    ensures
        plans::reason_of(r) == workflow_states_reason(states@),
{
    let ids = list_state_ids(states);
    let mut i: usize = 0;
    while i < states.len()
        invariant
            i <= states.len(),
            text::views(ids@) == state_command_ids(states@),
            workflow_states_reason(states@.take(i as int)) is None,
        decreases states.len() - i,
    {
        let ghost longer = states@.take(i + 1);
        assert(longer.drop_last() =~= states@.take(i as int));
        assert(text::views(ids@).len() == ids@.len());
        assert(state_command_ids(longer.drop_last()) =~= text::views(ids@).take(i as int));
        if among_first(&ids, i, states[i].command_id.as_str()) {
            proof {
                workflow_states_reason_of_prefix(states@, i + 1);
            }
            return Err(join2("duplicate command state for ", states[i].command_id.as_str()));
        }
        i = i + 1;
    }
    assert(states@.take(i as int) =~= states@);
    Ok(())
}

fn check_beginnings(
    commands: &Vec<NewExecutionCommand>,
    states: &Vec<ExecutionCommandState>,
) -> (r: Result<(), String>)
    ensures
        plans::reason_of(r) == beginnings_reason(commands@, states@),
{
    let ids = list_state_ids(states);
    let mut i: usize = 0;
    while i < commands.len()
        invariant
            i <= commands.len(),
            text::views(ids@) == state_command_ids(states@),
            beginnings_reason(commands@.take(i as int), states@) is None,
        decreases commands.len() - i,
    {
        let ghost longer = commands@.take(i + 1);
        assert(longer.drop_last() =~= commands@.take(i as int));
        assert(text::views(ids@).len() == ids@.len());
        let command = &commands[i];
        let at: usize = first_place(&ids, command.command.command_id.as_str());
        if at >= states.len() {
            proof {
                beginnings_reason_of_prefix(commands@, states@, i + 1);
            }
            return Err(
                join3("command ", command.command.command_id.as_str(), " has no initial state"),
            );
        }
        if let Err(reason) = validate_initial_command_state(&states[at], command) {
            proof {
                beginnings_reason_of_prefix(commands@, states@, i + 1);
            }
            return Err(reason);
        }
        i = i + 1;
    }
    assert(commands@.take(i as int) =~= commands@);
    Ok(())
}

fn check_new_workflow(workflow: &NewExecutionWorkflow) -> (r: Result<(), String>)
    ensures
        plans::reason_of(r) == new_workflow_reason(*workflow),
{
    if !same_text(workflow.intent.initial_status.as_str(), INTENT_ACCEPTED) {
        return Err("workflow intent must have initial status ACCEPTED".to_owned());
    }
    if workflow.intent.recorded_at < 0 {
        return Err("intent recorded_at must be non-negative".to_owned());
    }
    if !same_text(workflow.plan.intent_id.as_str(), workflow.intent.intent.intent_id.as_str())
        || !same_text(workflow.plan.risk_id.as_str(), workflow.risk_result.result.risk_id.as_str())
        || !same_text(
        workflow.risk_result.result.intent_id.as_str(),
        workflow.intent.intent.intent_id.as_str(),
    ) {
        return Err("intent, risk result, and plan identities do not form one graph".to_owned());
    }
    let legs = check_workflow_commands(workflow)?;
    if !covers_legs(workflow, &legs) {
        return Err("commands must correspond one-to-one with plan legs".to_owned());
    }
    check_workflow_states(&workflow.command_states)?;
    if workflow.command_states.len() != workflow.commands.len() {
        return Err("every command must have exactly one initial state".to_owned());
    }
    check_beginnings(&workflow.commands, &workflow.command_states)
}

/// Refuses a workflow that does not hold together.
pub fn validate_new_execution_workflow(workflow: &NewExecutionWorkflow) -> (r: Result<
    (),
    StoreError,
>)
    ensures
        error::fault(r) == new_workflow_fault(*workflow),
{
    match check_new_workflow(workflow) {
        Ok(_) => Ok(()),
        Err(reason) => {
            let key = join2("plan_id=", workflow.plan.plan.definition.plan_id.as_str());
            Err(StoreError::invalid("execution_workflow", key.as_str(), reason.as_str()))
        },
    }
}

proof fn commands_in_place(commands: Seq<NewExecutionCommand>, workflow: NewExecutionWorkflow)
    requires
        workflow_commands_reason(commands, workflow) is None,
    ensures
        new_command_ids(commands).no_duplicates(),
        new_command_idempotency_keys(commands).no_duplicates(),
        new_command_legs(commands).no_duplicates(),
        forall|i: int|
            0 <= i < commands.len() ==> new_command_reason(
                #[trigger] commands[i],
                workflow.plan,
                workflow.risk_result,
                workflow.intent,
            ) is None,
    decreases commands.len(),
{
    if commands.len() > 0 {
        let fewer = commands.drop_last();
        commands_in_place(fewer, workflow);
        grown_without_repetition(
            new_command_ids(fewer),
            new_command_ids(commands),
        );
        grown_without_repetition(
            new_command_idempotency_keys(fewer),
            new_command_idempotency_keys(commands),
        );
        grown_without_repetition(new_command_legs(fewer), new_command_legs(commands));
        assert forall|i: int| 0 <= i < commands.len() implies new_command_reason(
            #[trigger] commands[i],
            workflow.plan,
            workflow.risk_result,
            workflow.intent,
        ) is None by {
            if i < commands.len() - 1 {
                assert(fewer[i] == commands[i]);
            }
        }
    }
}

proof fn grown_without_repetition(fewer: Seq<Seq<char>>, keys: Seq<Seq<char>>)
    requires
        fewer.no_duplicates(),
        keys.len() == fewer.len() + 1,
        forall|i: int| 0 <= i < fewer.len() ==> keys[i] == #[trigger] fewer[i],
        !fewer.contains(keys.last()),
    ensures
        keys.no_duplicates(),
{
    assert forall|i: int, j: int| 0 <= i < keys.len() && 0 <= j < keys.len() && i
        != j implies keys[i] != keys[j] by {
        if i < fewer.len() {
            assert(keys[i] == fewer[i]);
        }
        if j < fewer.len() {
            assert(keys[j] == fewer[j]);
        }
    }
}

proof fn states_in_place(states: Seq<ExecutionCommandState>)
    requires
        workflow_states_reason(states) is None,
    ensures
        state_command_ids(states).no_duplicates(),
    decreases states.len(),
{
    if states.len() > 0 {
        states_in_place(states.drop_last());
        grown_without_repetition(
            state_command_ids(states.drop_last()),
            state_command_ids(states),
        );
    }
}

/// A workflow that may be stored has one command for each leg of its plan: no
/// two commands share a name, an idempotency key or a leg, and each leg has a
/// command that carries it out.
pub proof fn each_leg_has_one_command(workflow: NewExecutionWorkflow)
    requires
        new_workflow_reason(workflow) is None,
    ensures
        new_command_ids(workflow.commands@).no_duplicates(),
        new_command_idempotency_keys(workflow.commands@).no_duplicates(),
        new_command_legs(workflow.commands@).no_duplicates(),
        state_command_ids(workflow.command_states@).no_duplicates(),
        workflow.commands@.len() == workflow.plan.plan.legs@.len(),
        workflow.command_states@.len() == workflow.commands@.len(),
        forall|i: int|
            0 <= i < workflow.plan.plan.legs@.len() ==> exists|k: int|
                0 <= k < workflow.commands@.len() && (
                #[trigger] workflow.commands@[k]).command.leg_id->0@ == (
                #[trigger] workflow.plan.plan.legs@[i]).definition.leg_id@,
        forall|k: int|
            0 <= k < workflow.commands@.len() ==> {
                let command = (#[trigger] workflow.commands@[k]).command;
                let at = text::first_index(
                    plans::leg_ids(workflow.plan.plan.legs@),
                    command.leg_id->0@,
                ) as int;
                &&& at < workflow.plan.plan.legs@.len()
                &&& command_of_leg(command, workflow.plan.plan.legs@[at])
            },
{
    commands_in_place(workflow.commands@, workflow);
    states_in_place(workflow.command_states@);
    assert forall|i: int| 0 <= i < workflow.plan.plan.legs@.len() implies exists|k: int|
        0 <= k < workflow.commands@.len() && (
        #[trigger] workflow.commands@[k]).command.leg_id->0@ == (
        #[trigger] workflow.plan.plan.legs@[i]).definition.leg_id@ by {
        let legs = new_command_legs(workflow.commands@);
        let id = workflow.plan.plan.legs@[i].definition.leg_id@;
        let k = choose|k: int| 0 <= k < legs.len() && legs[k] == id;
        assert(workflow.commands@[k].command.leg_id->0@ == id);
    }
}

/// A command of a plan is one of its legs, of the account and strategy of the
/// plan, the decision and the intent, and asks for what the leg says: symbol,
/// action, size and limits. It is made after the plan and the decision, and
/// expires before the decision and the signal do. It is signed.
pub proof fn commands_carry_out_their_leg(
    command: ExecutionCommand,
    command_risk_id: Seq<char>,
    command_created_at: i64,
    plan: ExecutionPlan,
    plan_risk_id: Seq<char>,
    plan_created_at: i64,
    risk: RiskResult,
    intent: TradeIntent,
)
    ensures
        command_graph_reason(
            command,
            command_risk_id,
            command_created_at,
            plan,
            plan_risk_id,
            plan_created_at,
            risk,
            intent,
        ) is None <==> {
            let at = text::first_index(plans::leg_ids(plan.legs@), (command.leg_id->0)@) as int;
            let leg = plan.legs@[at];
            &&& command.plan_id is Some
            &&& command.leg_id is Some
            &&& at < plan.legs@.len()
            &&& (command.plan_id->0)@ == plan.definition.plan_id@
            &&& command_risk_id == plan_risk_id
            &&& command_risk_id == risk.risk_id@
            &&& command.account_id@ == plan.definition.account_id@
            &&& command.account_id@ == risk.account_id@
            &&& command.account_id@ == intent.account_id@
            &&& command.strategy_id@ == plan.definition.strategy_id@
            &&& command.strategy_id@ == intent.strategy_id@
            &&& command.symbol@ == leg.definition.symbol@
            &&& command.action@ == leg.definition.action@
            &&& command.lots == leg.definition.lots && (command.lots is Some ==> trading::finite(
                command.lots->0,
            ))
            &&& command.sl == leg.definition.sl && (command.sl is Some ==> trading::finite(
                command.sl->0,
            ))
            &&& command.tp == leg.definition.tp && (command.tp is Some ==> trading::finite(
                command.tp->0,
            ))
            &&& 0 <= command_created_at < command.expires_at
            &&& plan_created_at <= command_created_at
            &&& risk.evaluated_at <= command_created_at
            &&& command.expires_at <= risk.valid_until
            &&& command.expires_at <= intent.signal_expires_at
            &&& text::lower_hex_64(command.hmac@)
        },
{
}

/// A command starts as created: never tried, never sent, and of the same age as
/// its state.
pub proof fn commands_start_from_nothing(
    state: ExecutionCommandState,
    command: NewExecutionCommand,
)
    ensures
        initial_state_reason(state, command) is None <==> {
            &&& state.command_id@ == command.command.command_id@
            &&& state.account_id@ == command.command.account_id@
            &&& text::optional_text(state.plan_id) == text::optional_text(command.command.plan_id)
            &&& text::optional_text(state.leg_id) == text::optional_text(command.command.leg_id)
            &&& state.created_at == command.created_at
            &&& state.updated_at == command.created_at
            &&& state.status@ == "CREATED"@
            &&& state.delivery_attempts == 0
            &&& state.last_delivery_error is None
            &&& state.dispatched_at is None
            &&& state.command_received_at is None
            &&& state.reconciling_at is None
            &&& state.completed_at is None
        },
{
}

/// A stored state is of its command, and nothing happened to the command before
/// it was made or after it was last changed.
pub proof fn stored_states_lie_within_their_life(
    state: ExecutionCommandState,
    command: ExecutionCommand,
    created_at: i64,
)
    ensures
        persisted_state_reason(state, command, created_at) is None <==> {
            &&& state.command_id@ == command.command_id@
            &&& state.account_id@ == command.account_id@
            &&& text::optional_text(state.plan_id) == text::optional_text(command.plan_id)
            &&& text::optional_text(state.leg_id) == text::optional_text(command.leg_id)
            &&& state.created_at == created_at
            &&& 0 <= state.created_at <= state.updated_at
            &&& state.dispatched_at is Some ==> state.created_at <= state.dispatched_at->0
                <= state.updated_at
            &&& state.command_received_at is Some ==> state.created_at
                <= state.command_received_at->0 <= state.updated_at
            &&& state.reconciling_at is Some ==> state.created_at <= state.reconciling_at->0
                <= state.updated_at
            &&& state.completed_at is Some ==> state.created_at <= state.completed_at->0
                <= state.updated_at
        },
{
}

proof fn beginnings_in_place(
    commands: Seq<NewExecutionCommand>,
    states: Seq<ExecutionCommandState>,
)
    requires
        beginnings_reason(commands, states) is None,
    ensures
        forall|i: int|
            0 <= i < commands.len() ==> command_beginning_reason(
                #[trigger] commands[i],
                states,
            ) is None,
    decreases commands.len(),
{
    if commands.len() > 0 {
        let rest = commands.drop_last();
        beginnings_in_place(rest, states);
        assert forall|i: int| 0 <= i < commands.len() implies command_beginning_reason(
            #[trigger] commands[i],
            states,
        ) is None by {
            if i < rest.len() {
                assert(rest[i] == commands[i]);
            }
        }
    }
}

/// A workflow that is stored is of an accepted intent, of the decision about it
/// and of the plan that carries both out; every command in it belongs to that
/// plan and starts from nothing, as created.
pub proof fn stored_workflows_are_of_one_piece(workflow: NewExecutionWorkflow, k: int)
    requires
        new_workflow_reason(workflow) is None,
        0 <= k < workflow.commands@.len(),
    ensures
        workflow.intent.initial_status@ == "ACCEPTED"@,
        workflow.intent.recorded_at >= 0,
        workflow.plan.intent_id@ == workflow.intent.intent.intent_id@,
        workflow.plan.risk_id@ == workflow.risk_result.result.risk_id@,
        workflow.risk_result.result.intent_id@ == workflow.intent.intent.intent_id@,
        ({
            let command = workflow.commands@[k];
            let at = text::first_index(
                state_command_ids(workflow.command_states@),
                command.command.command_id@,
            ) as int;
            &&& command.risk_id@ == workflow.risk_result.result.risk_id@
            &&& command.command.plan_id is Some && (command.command.plan_id->0)@
                == workflow.plan.plan.definition.plan_id@
            &&& command.command.account_id@ == workflow.intent.intent.account_id@
            &&& command.created_at < command.command.expires_at
            &&& command.command.expires_at <= workflow.intent.intent.signal_expires_at
            &&& command.command.expires_at <= workflow.risk_result.result.valid_until
            &&& at < workflow.command_states@.len()
            &&& workflow.command_states@[at].command_id@ == command.command.command_id@
            &&& workflow.command_states@[at].status@ == "CREATED"@
            &&& workflow.command_states@[at].delivery_attempts == 0
            &&& workflow.command_states@[at].created_at == command.created_at
        }),
        forall|a: int, b: int|
            0 <= a < b < workflow.commands@.len() ==> (
            #[trigger] workflow.commands@[a]).command.command_id@ != (
            #[trigger] workflow.commands@[b]).command.command_id@
                && workflow.commands@[a].command.idempotency_key@
                != workflow.commands@[b].command.idempotency_key@ && (
            workflow.commands@[a].command.leg_id->0)@ != (
            workflow.commands@[b].command.leg_id->0)@,
{
    commands_in_place(workflow.commands@, workflow);
    beginnings_in_place(workflow.commands@, workflow.command_states@);
    let command = workflow.commands@[k];
    assert(new_command_reason(
        command,
        workflow.plan,
        workflow.risk_result,
        workflow.intent,
    ) is None);
    assert(command_beginning_reason(command, workflow.command_states@) is None);
    let ids = new_command_ids(workflow.commands@);
    let keys = new_command_idempotency_keys(workflow.commands@);
    let legs = new_command_legs(workflow.commands@);
    assert forall|a: int, b: int| 0 <= a < b < workflow.commands@.len() implies (
    #[trigger] workflow.commands@[a]).command.command_id@ != (
    #[trigger] workflow.commands@[b]).command.command_id@
        && workflow.commands@[a].command.idempotency_key@
        != workflow.commands@[b].command.idempotency_key@ && (
    workflow.commands@[a].command.leg_id->0)@ != (workflow.commands@[b].command.leg_id->0)@ by {
        assert(ids[a] != ids[b]);
        assert(keys[a] != keys[b]);
        assert(legs[a] != legs[b]);
    }
}

}
