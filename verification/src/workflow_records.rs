//! Stored workflows: how they are put together from rows, and what storing one
//! a second time comes to.

use vstd::prelude::*;
use vstd::string::*;

use crate::commands;
use crate::commands::{
    execution_command_from_row, execution_command_state_from_row, same_command_state_identity,
    CommandRow, CommandStateRow,
};
use crate::error;
use crate::error::{Fault, StoreError};
use crate::json::CanonicalJson;
use crate::model::WriteOutcome;
use crate::plans;
use crate::text;
use crate::text::{among_first, count_distinct, first_place, join2, join3, last_place, same_text};
use crate::trading::{
    ExecutionCommandState, ExecutionLeg, NewExecutionCommand, NewExecutionWorkflow,
    StoredExecutionCommand, StoredExecutionPlan, StoredExecutionWorkflow, StoredRiskResult,
    StoredTradeIntent,
};
use crate::workflow;
use crate::workflow::{validate_persisted_command_state, validate_stored_execution_command_graph};

verus! {

/// The legs that the commands of rows carry out.
pub open spec fn row_legs(rows: Seq<CommandRow>) -> Seq<Seq<char>> {
    Seq::new(rows.len(), |i: int| (rows[i].command->Ok_0).leg_id->0@)
}

/// The commands that rows of states are of.
pub open spec fn state_row_ids(rows: Seq<CommandStateRow>) -> Seq<Seq<char>> {
    Seq::new(rows.len(), |i: int| rows[i].command_id@)
}

/// The fault of a workflow that does not hold together.
pub open spec fn workflow_corrupt(plan_id: Seq<char>, reason: Seq<char>) -> Fault {
    error::corrupt_fault("execution_workflow"@, plan_id, reason)
}

/// What is wrong with the row of one command, after the rows before it.
pub open spec fn workflow_row_fault(
    earlier: Seq<CommandRow>,
    row: CommandRow,
    plan: StoredExecutionPlan,
    risk: StoredRiskResult,
    intent: StoredTradeIntent,
) -> Option<Fault> {
    let command = row.command->Ok_0;
    let f = commands::command_row_fault(row);
    let f = error::first_of(
        f,
        match workflow::stored_command_reason(
            command,
            row.risk_id@,
            row.created_at,
            plan,
            risk,
            intent,
        ) {
            Some(reason) => Some(
                error::corrupt_fault("execution_command"@, command.command_id@, reason),
            ),
            None => None,
        },
    );
    error::first_of(
        f,
        if row_legs(earlier).contains(command.leg_id->0@) {
            Some(
                workflow_corrupt(
                    plan.plan.definition.plan_id@,
                    "multiple commands reference the same plan leg"@,
                ),
            )
        } else {
            None
        },
    )
}

/// What is wrong with the rows of the commands.
pub open spec fn workflow_rows_fault(
    rows: Seq<CommandRow>,
    plan: StoredExecutionPlan,
    risk: StoredRiskResult,
    intent: StoredTradeIntent,
) -> Option<Fault>
    decreases rows.len(),
{
    if rows.len() == 0 {
        None
    } else {
        error::first_of(
            workflow_rows_fault(rows.drop_last(), plan, risk, intent),
            workflow_row_fault(rows.drop_last(), rows.last(), plan, risk, intent),
        )
    }
}

proof fn workflow_rows_fault_of_prefix(
    rows: Seq<CommandRow>,
    plan: StoredExecutionPlan,
    risk: StoredRiskResult,
    intent: StoredTradeIntent,
    n: int,
)
    requires
        0 <= n <= rows.len(),
        workflow_rows_fault(rows.take(n), plan, risk, intent) is Some,
    ensures
        workflow_rows_fault(rows, plan, risk, intent) == workflow_rows_fault(
            rows.take(n),
            plan,
            risk,
            intent,
        ),
    decreases rows.len(),
{
    if n < rows.len() {
        assert(rows.drop_last().take(n) =~= rows.take(n));
        workflow_rows_fault_of_prefix(rows.drop_last(), plan, risk, intent, n);
    } else {
        assert(rows.take(n) =~= rows);
    }
}

/// The place of the command of a leg among the rows.
pub open spec fn command_place(rows: Seq<CommandRow>, leg: ExecutionLeg) -> int {
    text::first_index(row_legs(rows), leg.definition.leg_id@) as int
}

/// The place of the state of a leg's command among the rows.
pub open spec fn state_place(
    rows: Seq<CommandRow>,
    states: Seq<CommandStateRow>,
    leg: ExecutionLeg,
) -> int {
    text::first_index(
        state_row_ids(states),
        (rows[command_place(rows, leg)].command->Ok_0).command_id@,
    ) as int
}

/// The state that a row holds.
pub open spec fn state_of_row(row: CommandStateRow) -> ExecutionCommandState {
    ExecutionCommandState {
        command_id: row.command_id,
        account_id: row.account_id,
        plan_id: row.plan_id,
        leg_id: row.leg_id,
        status: row.status.parsed->Ok_0,
        delivery_attempts: row.delivery_attempts as u32,
        last_delivery_error: row.last_delivery_error,
        created_at: row.created_at,
        dispatched_at: row.dispatched_at,
        command_received_at: row.command_received_at,
        reconciling_at: row.reconciling_at,
        completed_at: row.completed_at,
        updated_at: row.updated_at,
    }
}

/// What is wrong with the command of one leg, after the legs before it.
pub open spec fn workflow_leg_fault(
    plan_id: Seq<char>,
    earlier: Seq<ExecutionLeg>,
    leg: ExecutionLeg,
    rows: Seq<CommandRow>,
    states: Seq<CommandStateRow>,
) -> Option<Fault> {
    let leg_id = leg.definition.leg_id@;
    let at = command_place(rows, leg);
    let command = rows[at].command->Ok_0;
    let found = state_place(rows, states, leg);
    if at >= rows.len() || plans::leg_ids(earlier).contains(leg_id) {
        Some(workflow_corrupt(plan_id, "plan leg "@ + leg_id + " has no command"@))
    } else if found >= states.len() {
        Some(
            workflow_corrupt(
                plan_id,
                "command "@ + command.command_id@ + " has no lifecycle state"@,
            ),
        )
    } else {
        error::first_of(
            commands::command_state_row_fault(states[found]),
            match workflow::persisted_state_reason(
                state_of_row(states[found]),
                command,
                rows[at].created_at,
            ) {
                Some(reason) => Some(
                    error::corrupt_fault(
                        "execution_command_state"@,
                        command.command_id@,
                        reason,
                    ),
                ),
                None => None,
            },
        )
    }
}

/// What is wrong with the commands of the legs.
pub open spec fn workflow_legs_fault(
    plan_id: Seq<char>,
    legs: Seq<ExecutionLeg>,
    rows: Seq<CommandRow>,
    states: Seq<CommandStateRow>,
) -> Option<Fault>
    decreases legs.len(),
{
    if legs.len() == 0 {
        None
    } else {
        error::first_of(
            workflow_legs_fault(plan_id, legs.drop_last(), rows, states),
            workflow_leg_fault(plan_id, legs.drop_last(), legs.last(), rows, states),
        )
    }
}

proof fn workflow_legs_fault_of_prefix(
    plan_id: Seq<char>,
    legs: Seq<ExecutionLeg>,
    rows: Seq<CommandRow>,
    states: Seq<CommandStateRow>,
    n: int,
)
    requires
        0 <= n <= legs.len(),
        workflow_legs_fault(plan_id, legs.take(n), rows, states) is Some,
    ensures
        workflow_legs_fault(plan_id, legs, rows, states) == workflow_legs_fault(
            plan_id,
            legs.take(n),
            rows,
            states,
        ),
    decreases legs.len(),
{
    if n < legs.len() {
        assert(legs.drop_last().take(n) =~= legs.take(n));
        workflow_legs_fault_of_prefix(plan_id, legs.drop_last(), rows, states, n);
    } else {
        assert(legs.take(n) =~= legs);
    }
}

/// What is wrong with a stored workflow.
pub open spec fn workflow_fault(
    plan: StoredExecutionPlan,
    risk: Option<StoredRiskResult>,
    intent: Option<StoredTradeIntent>,
    rows: Seq<CommandRow>,
    states: Seq<CommandStateRow>,
) -> Option<Fault> {
    let plan_id = plan.plan.definition.plan_id@;
    if risk is None {
        Some(
            workflow_corrupt(
                plan_id,
                "parent risk result "@ + plan.risk_id@ + " is missing"@,
            ),
        )
    } else if intent is None {
        Some(
            workflow_corrupt(
                plan_id,
                "parent trade intent "@ + plan.intent_id@ + " is missing"@,
            ),
        )
    } else {
        let f = workflow_rows_fault(rows, plan, risk->0, intent->0);
        let f = error::first_of(
            f,
            if rows.len() != plan.plan.legs@.len() {
                Some(
                    workflow_corrupt(
                        plan_id,
                        "commands do not correspond one-to-one with plan legs"@,
                    ),
                )
            } else {
                None
            },
        );
        error::first_of(f, workflow_legs_fault(plan_id, plan.plan.legs@, rows, states))
    }
}

/// The commands and the states stand in the order of the legs, each as its row
/// has it.
pub open spec fn assembled(
    legs: Seq<ExecutionLeg>,
    rows: Seq<CommandRow>,
    state_rows: Seq<CommandStateRow>,
    found: Seq<StoredExecutionCommand>,
    states: Seq<ExecutionCommandState>,
) -> bool {
    &&& found.len() == legs.len()
    &&& states.len() == legs.len()
    &&& forall|i: int|
        0 <= i < legs.len() ==> {
            let leg = #[trigger] legs[i];
            &&& commands::command_of_row(rows[command_place(rows, leg)], found[i])
            &&& states[i] == state_of_row(state_rows[state_place(rows, state_rows, leg)])
        }
}

fn list_command_legs<'a>(found: &'a Vec<StoredExecutionCommand>, n: usize) -> (r: Vec<&'a str>)
    requires
        n <= found.len(),
        forall|i: int| 0 <= i < n ==> (#[trigger] found@[i]).command.leg_id is Some,
    ensures
        r@.len() == n,
        forall|i: int| 0 <= i < n ==> (#[trigger] r@[i])@ == found@[i].command.leg_id->0@,
{
    let mut out: Vec<&'a str> = Vec::new();
    let mut i: usize = 0;
    while i < n
        invariant
            i <= n <= found.len(),
            forall|j: int| 0 <= j < n ==> (#[trigger] found@[j]).command.leg_id is Some,
            out@.len() == i,
            forall|j: int| 0 <= j < i ==> (#[trigger] out@[j])@ == found@[j].command.leg_id->0@,
        decreases n - i,
    {
        if let Some(leg_id) = &found[i].command.leg_id {
            out.push(leg_id.as_str());
        }
        i = i + 1;
    }
    out
}

fn list_state_row_ids(states: &Vec<CommandStateRow>) -> (r: Vec<&str>)
    ensures
        text::views(r@) == state_row_ids(states@),
{
    let mut out: Vec<&str> = Vec::new();
    let mut i: usize = 0;
    while i < states.len()
        invariant
            i <= states.len(),
            out@.len() == i,
            forall|j: int| 0 <= j < i ==> (#[trigger] out@[j])@ == states@[j].command_id@,
        decreases states.len() - i,
    {
        out.push(states[i].command_id.as_str());
        i = i + 1;
    }
    assert(text::views(out@) =~= state_row_ids(states@));
    out
}

fn read_workflow_commands(
    rows: Vec<CommandRow>,
    plan: &StoredExecutionPlan,
    risk: &StoredRiskResult,
    intent: &StoredTradeIntent,
) -> (r: Result<Vec<StoredExecutionCommand>, StoreError>)
    ensures
        error::fault(r) == workflow_rows_fault(rows@, *plan, *risk, *intent),
        r matches Ok(found) ==> {
            &&& found@.len() == rows@.len()
            &&& forall|i: int|
                0 <= i < rows@.len() ==> commands::command_of_row(rows@[i], #[trigger] found@[i])
                    && found@[i].command.leg_id is Some
        },
{
    let ghost all = rows@;
    let mut found: Vec<StoredExecutionCommand> = Vec::new();
    for row in it: rows
        invariant
            it.seq() == all,
            all == rows@,
            found@.len() == it.index(),
            forall|i: int|
                0 <= i < found@.len() ==> commands::command_of_row(all[i], #[trigger] found@[i])
                    && found@[i].command.leg_id is Some,
            workflow_rows_fault(all.take(it.index()), *plan, *risk, *intent) is None,
    {
        let ghost n = it.index();
        let ghost earlier = all.take(n);
        let ghost longer = all.take(n + 1);
        assert(row == all[n]);
        assert(longer.drop_last() =~= earlier);
        assert(longer.last() == row);
        let read = execution_command_from_row(row);
        let command = match read {
            Ok(command) => command,
            Err(error) => {
                proof {
                    workflow_rows_fault_of_prefix(all, *plan, *risk, *intent, n + 1);
                }
                return Err(error);
            },
        };
        if let Err(reason) = validate_stored_execution_command_graph(&command, plan, risk, intent) {
            proof {
                workflow_rows_fault_of_prefix(all, *plan, *risk, *intent, n + 1);
            }
            return Err(
                StoreError::corrupt(
                    "execution_command",
                    command.command.command_id.as_str(),
                    reason.as_str(),
                ),
            );
        }
        let legs = list_command_legs(&found, found.len());
        assert(text::views(legs@).take(n) =~= row_legs(earlier));
        let taken = match &command.command.leg_id {
            Some(leg_id) => among_first(&legs, legs.len(), leg_id.as_str()),
            None => false,
        };
        if taken {
            proof {
                workflow_rows_fault_of_prefix(all, *plan, *risk, *intent, n + 1);
            }
            return Err(
                StoreError::corrupt(
                    "execution_workflow",
                    plan.plan.definition.plan_id.as_str(),
                    "multiple commands reference the same plan leg",
                ),
            );
        }
        found.push(command);
    }
    assert(all.take(all.len() as int) =~= all);
    Ok(found)
}

fn leg_seen_earlier(legs: &Vec<ExecutionLeg>, n: usize) -> (r: bool)
    requires
        n < legs.len(),
    ensures
        r == plans::leg_ids(legs@.take(n as int)).contains(legs@[n as int].definition.leg_id@),
{
    let ghost earlier = plans::leg_ids(legs@.take(n as int));
    let mut i: usize = 0;
    while i < n
        invariant
            i <= n < legs.len(),
            earlier == plans::leg_ids(legs@.take(n as int)),
            forall|j: int| 0 <= j < i ==> earlier[j] != legs@[n as int].definition.leg_id@,
        decreases n - i,
    {
        if same_text(
            legs[i].definition.leg_id.as_str(),
            legs[n].definition.leg_id.as_str(),
        ) {
            assert(earlier[i as int] == legs@[n as int].definition.leg_id@);
            return true;
        }
        i = i + 1;
    }
    false
}

fn read_leg_state(
    plan_id: &str,
    command: &StoredExecutionCommand,
    states: &Vec<CommandStateRow>,
    Ghost(row): Ghost<CommandRow>,
) -> (r: Result<ExecutionCommandState, StoreError>)
    requires
        commands::command_of_row(row, *command),
    ensures
        ({
            let id = (row.command->Ok_0).command_id@;
            let found = text::first_index(state_row_ids(states@), id) as int;
            &&& error::fault(r) == (if found >= states@.len() {
                Some(
                    workflow_corrupt(plan_id@, "command "@ + id + " has no lifecycle state"@),
                )
            } else {
                error::first_of(
                    commands::command_state_row_fault(states@[found]),
                    match workflow::persisted_state_reason(
                        state_of_row(states@[found]),
                        row.command->Ok_0,
                        row.created_at,
                    ) {
                        Some(reason) => Some(
                            error::corrupt_fault("execution_command_state"@, id, reason),
                        ),
                        None => None,
                    },
                )
            })
            &&& r matches Ok(state) ==> found < states@.len() && state == state_of_row(
                states@[found],
            )
        }),
{
    let ids = list_state_row_ids(states);
    let id = command.command.command_id.as_str();
    assert(text::views(ids@).len() == ids@.len());
    let found: usize = first_place(&ids, id);
    if found >= states.len() {
        let reason = join3("command ", id, " has no lifecycle state");
        return Err(StoreError::corrupt("execution_workflow", plan_id, reason.as_str()));
    }
    let state = execution_command_state_from_row(states[found].clone())?;
    if let Err(reason) = validate_persisted_command_state(&state, command) {
        return Err(StoreError::corrupt("execution_command_state", id, reason.as_str()));
    }
    Ok(state)
}

/// Puts a stored workflow together. `rows` are the commands of the plan and
/// `states` the states of these commands.
pub fn assemble_execution_workflow(
    plan: StoredExecutionPlan,
    risk: Option<StoredRiskResult>,
    intent: Option<StoredTradeIntent>,
    rows: Vec<CommandRow>,
    states: &Vec<CommandStateRow>,
) -> (r: Result<StoredExecutionWorkflow, StoreError>)
    ensures
        error::fault(r) == workflow_fault(plan, risk, intent, rows@, states@),
        r matches Ok(stored) ==> {
            &&& stored.plan == plan
            &&& Some(stored.risk_result) == risk
            &&& Some(stored.intent) == intent
            &&& assembled(
                plan.plan.legs@,
                rows@,
                states@,
                stored.commands@,
                stored.command_states@,
            )
        },
{
    let risk_result = match risk {
        Some(risk_result) => risk_result,
        None => {
            let reason = join3("parent risk result ", plan.risk_id.as_str(), " is missing");
            return Err(
                StoreError::corrupt(
                    "execution_workflow",
                    plan.plan.definition.plan_id.as_str(),
                    reason.as_str(),
                ),
            );
        },
    };
    let parent = match intent {
        Some(parent) => parent,
        None => {
            let reason = join3("parent trade intent ", plan.intent_id.as_str(), " is missing");
            return Err(
                StoreError::corrupt(
                    "execution_workflow",
                    plan.plan.definition.plan_id.as_str(),
                    reason.as_str(),
                ),
            );
        },
    };
    let ghost all = rows@;
    let found = read_workflow_commands(rows, &plan, &risk_result, &parent)?;
    if found.len() != plan.plan.legs.len() {
        return Err(
            StoreError::corrupt(
                "execution_workflow",
                plan.plan.definition.plan_id.as_str(),
                "commands do not correspond one-to-one with plan legs",
            ),
        );
    }
    let ghost plan_id = plan.plan.definition.plan_id@;
    let ghost legs = plan.plan.legs@;
    let places = list_command_legs(&found, found.len());
    assert(text::views(places@) =~= row_legs(all));
    let mut commands: Vec<StoredExecutionCommand> = Vec::new();
    let mut command_states: Vec<ExecutionCommandState> = Vec::new();
    let mut i: usize = 0;
    while i < plan.plan.legs.len()
        invariant
            i <= plan.plan.legs.len(),
            plan_id == plan.plan.definition.plan_id@,
            legs == plan.plan.legs@,
            all == rows@,
            found@.len() == all.len(),
            forall|j: int|
                0 <= j < all.len() ==> commands::command_of_row(all[j], #[trigger] found@[j])
                    && found@[j].command.leg_id is Some,
            text::views(places@) == row_legs(all),
            places@.len() == all.len(),
            workflow_fault(plan, risk, intent, all, states@) == workflow_legs_fault(
                plan_id,
                legs,
                all,
                states@,
            ),
            workflow_legs_fault(plan_id, legs.take(i as int), all, states@) is None,
            commands@.len() == i,
            command_states@.len() == i,
            forall|j: int|
                0 <= j < i ==> {
                    let leg = #[trigger] legs[j];
                    &&& commands::command_of_row(all[command_place(all, leg)], commands@[j])
                    &&& command_states@[j] == state_of_row(
                        states@[state_place(all, states@, leg)],
                    )
                },
        decreases plan.plan.legs.len() - i,
    {
        let ghost longer = legs.take(i + 1);
        assert(longer.drop_last() =~= legs.take(i as int));
        let leg = &plan.plan.legs[i];
        let at: usize = first_place(&places, leg.definition.leg_id.as_str());
        if at >= found.len() || leg_seen_earlier(&plan.plan.legs, i) {
            proof {
                workflow_legs_fault_of_prefix(plan_id, legs, all, states@, i + 1);
            }
            let reason = join3("plan leg ", leg.definition.leg_id.as_str(), " has no command");
            return Err(
                StoreError::corrupt(
                    "execution_workflow",
                    plan.plan.definition.plan_id.as_str(),
                    reason.as_str(),
                ),
            );
        }
        let command = &found[at];
        let read = read_leg_state(
            plan.plan.definition.plan_id.as_str(),
            command,
            states,
            Ghost(all[at as int]),
        );
        let state = match read {
            Ok(state) => state,
            Err(error) => {
                proof {
                    workflow_legs_fault_of_prefix(plan_id, legs, all, states@, i + 1);
                }
                return Err(error);
            },
        };
        commands.push(command.clone());
        command_states.push(state);
        i = i + 1;
    }
    assert(legs.take(i as int) =~= legs);
    Ok(
        StoredExecutionWorkflow {
            intent: parent,
            risk_result,
            plan,
            commands,
            command_states,
        },
    )
}

/// The names of stored commands.
pub open spec fn stored_command_ids(found: Seq<StoredExecutionCommand>) -> Seq<Seq<char>> {
    Seq::new(found.len(), |i: int| found[i].command.command_id@)
}

/// The canonical forms of the parts of a workflow that is to be stored.
pub struct WorkflowPayloads {
    pub intent: CanonicalJson,
    pub risk_result: CanonicalJson,
    pub plan: CanonicalJson,
    pub commands: Vec<CanonicalJson>,
}

/// Intent, approval and plan are stored as the workflow has them.
pub open spec fn heads_replay(
    stored: StoredExecutionWorkflow,
    incoming: NewExecutionWorkflow,
    payloads: WorkflowPayloads,
) -> bool {
    &&& stored.intent.payload@ == payloads.intent@
    &&& stored.intent.status@ == incoming.intent.initial_status@
    &&& stored.intent.created_at == incoming.intent.recorded_at
    &&& stored.intent.updated_at == incoming.intent.recorded_at
    &&& stored.risk_result.payload@ == payloads.risk_result@
    &&& stored.plan.payload@ == payloads.plan@
    &&& stored.plan.risk_id@ == incoming.plan.risk_id@
    &&& stored.plan.intent_id@ == incoming.plan.intent_id@
    &&& stored.plan.created_at == incoming.plan.recorded_at
}

/// A command is stored as the workflow has it.
pub open spec fn command_replays(
    found: Seq<StoredExecutionCommand>,
    command: NewExecutionCommand,
    payload: Seq<char>,
) -> bool {
    let at = text::last_index(stored_command_ids(found), command.command.command_id@) as int;
    &&& at < found.len()
    &&& found[at].risk_id@ == command.risk_id@
    &&& found[at].payload@ == payload
    &&& found[at].created_at == command.created_at
}

/// A state is stored, or a later one of the same command.
pub open spec fn workflow_state_replays(
    states: Seq<ExecutionCommandState>,
    state: ExecutionCommandState,
) -> bool {
    let at = text::last_index(workflow::state_command_ids(states), state.command_id@) as int;
    &&& at < states.len()
    &&& commands::state_of_same_command(states[at], state)
    &&& states[at].updated_at >= state.updated_at
}

/// The workflow is stored as it comes in, except that its commands may have
/// gone on since.
pub open spec fn workflow_replays(
    stored: StoredExecutionWorkflow,
    incoming: NewExecutionWorkflow,
    payloads: WorkflowPayloads,
) -> bool {
    &&& heads_replay(stored, incoming, payloads)
    &&& text::distinct(stored_command_ids(stored.commands@)) == incoming.commands@.len()
    &&& forall|i: int|
        0 <= i < incoming.commands@.len() ==> command_replays(
            stored.commands@,
            #[trigger] incoming.commands@[i],
            payloads.commands@[i]@,
        )
    &&& text::distinct(workflow::state_command_ids(stored.command_states@))
        == incoming.command_states@.len()
    &&& forall|i: int|
        0 <= i < incoming.command_states@.len() ==> workflow_state_replays(
            stored.command_states@,
            #[trigger] incoming.command_states@[i],
        )
}

fn do_commands_replay(
    found: &Vec<StoredExecutionCommand>,
    incoming: &Vec<NewExecutionCommand>,
    payloads: &Vec<CanonicalJson>,
) -> (r: bool)
    requires
        payloads@.len() == incoming@.len(),
    ensures
        r == (text::distinct(stored_command_ids(found@)) == incoming@.len() && forall|i: int|
            0 <= i < incoming@.len() ==> command_replays(
                found@,
                #[trigger] incoming@[i],
                payloads@[i]@,
            )),
{
    let mut ids: Vec<&str> = Vec::new();
    let mut i: usize = 0;
    while i < found.len()
        invariant
            i <= found.len(),
            ids@.len() == i,
            forall|j: int| 0 <= j < i ==> (#[trigger] ids@[j])@ == found@[j].command.command_id@,
        decreases found.len() - i,
    {
        ids.push(found[i].command.command_id.as_str());
        i = i + 1;
    }
    assert(text::views(ids@) =~= stored_command_ids(found@));
    if count_distinct(&ids) != incoming.len() {
        return false;
    }
    let mut k: usize = 0;
    while k < incoming.len()
        invariant
            k <= incoming.len(),
            payloads@.len() == incoming@.len(),
            ids@.len() == found@.len(),
            text::views(ids@) == stored_command_ids(found@),
            forall|j: int|
                0 <= j < k ==> command_replays(found@, #[trigger] incoming@[j], payloads@[j]@),
        decreases incoming.len() - k,
    {
        let command = &incoming[k];
        let at: usize = last_place(&ids, command.command.command_id.as_str());
        if at >= found.len() || !same_text(found[at].risk_id.as_str(), command.risk_id.as_str())
            || !found[at].payload.same(&payloads[k]) || found[at].created_at
            != command.created_at {
            assert(!command_replays(found@, incoming@[k as int], payloads@[k as int]@));
            return false;
        }
        k = k + 1;
    }
    true
}

fn do_states_replay(
    states: &Vec<ExecutionCommandState>,
    incoming: &Vec<ExecutionCommandState>,
) -> (r: bool)
    ensures
        r == (text::distinct(workflow::state_command_ids(states@)) == incoming@.len() && forall|
            i: int,
        |
            0 <= i < incoming@.len() ==> workflow_state_replays(states@, #[trigger] incoming@[i])),
{
    let mut ids: Vec<&str> = Vec::new();
    let mut i: usize = 0;
    while i < states.len()
        invariant
            i <= states.len(),
            ids@.len() == i,
            forall|j: int| 0 <= j < i ==> (#[trigger] ids@[j])@ == states@[j].command_id@,
        decreases states.len() - i,
    {
        ids.push(states[i].command_id.as_str());
        i = i + 1;
    }
    assert(text::views(ids@) =~= workflow::state_command_ids(states@));
    if count_distinct(&ids) != incoming.len() {
        return false;
    }
    let mut k: usize = 0;
    while k < incoming.len()
        invariant
            k <= incoming.len(),
            ids@.len() == states@.len(),
            text::views(ids@) == workflow::state_command_ids(states@),
            forall|j: int| 0 <= j < k ==> workflow_state_replays(states@, #[trigger] incoming@[j]),
        decreases incoming.len() - k,
    {
        let state = &incoming[k];
        let at: usize = last_place(&ids, state.command_id.as_str());
        if at >= states.len() || !same_command_state_identity(&states[at], state)
            || states[at].updated_at < state.updated_at {
            assert(!workflow_state_replays(states@, incoming@[k as int]));
            return false;
        }
        k = k + 1;
    }
    true
}

/// The fault of a workflow that differs from the stored one.
pub open spec fn workflow_replay_fault(
    stored: StoredExecutionWorkflow,
    incoming: NewExecutionWorkflow,
    payloads: WorkflowPayloads,
) -> Option<Fault> {
    if workflow_replays(stored, incoming, payloads) {
        None
    } else {
        Some(
            error::conflict_fault(
                "execution_workflow"@,
                plans::plan_key(incoming.plan.plan.definition.plan_id@),
            ),
        )
    }
}

/// Refuses a workflow that differs from the stored one.
pub fn validate_execution_workflow_replay(
    stored: &StoredExecutionWorkflow,
    incoming: &NewExecutionWorkflow,
    payloads: &WorkflowPayloads,
) -> (r: Result<(), StoreError>)
    requires
        payloads.commands@.len() == incoming.commands@.len(),
    ensures
        error::fault(r) == workflow_replay_fault(*stored, *incoming, *payloads),
{
    if stored.intent.payload.same(&payloads.intent) && same_text(
        stored.intent.status.as_str(),
        incoming.intent.initial_status.as_str(),
    ) && stored.intent.created_at == incoming.intent.recorded_at && stored.intent.updated_at
        == incoming.intent.recorded_at && stored.risk_result.payload.same(&payloads.risk_result)
        && stored.plan.payload.same(&payloads.plan) && same_text(
        stored.plan.risk_id.as_str(),
        incoming.plan.risk_id.as_str(),
    ) && same_text(stored.plan.intent_id.as_str(), incoming.plan.intent_id.as_str())
        && stored.plan.created_at == incoming.plan.recorded_at && do_commands_replay(
        &stored.commands,
        &incoming.commands,
        &payloads.commands,
    ) && do_states_replay(&stored.command_states, &incoming.command_states) {
        Ok(())
    } else {
        let key = join2("plan_id=", incoming.plan.plan.definition.plan_id.as_str());
        Err(StoreError::conflict("execution_workflow", key.as_str()))
    }
}

/// What storing a workflow came to. `stored` is the workflow as it reads back,
/// and `inserted_any` says whether any of its records was new.
pub fn finish_execution_workflow(
    stored: Option<StoredExecutionWorkflow>,
    incoming: &NewExecutionWorkflow,
    payloads: &WorkflowPayloads,
    inserted_any: bool,
) -> (r: Result<WriteOutcome<StoredExecutionWorkflow>, StoreError>)
    requires
        payloads.commands@.len() == incoming.commands@.len(),
    ensures
        error::fault(r) == match stored {
            None => Some(
                workflow_corrupt(
                    incoming.plan.plan.definition.plan_id@,
                    "committed workflow could not be read back"@,
                ),
            ),
            Some(stored) => workflow_replay_fault(stored, *incoming, *payloads),
        },
        r matches Ok(outcome) ==> outcome == (if inserted_any {
            WriteOutcome::Inserted(stored->0)
        } else {
            WriteOutcome::Duplicate(stored->0)
        }),
{
    let found = match stored {
        Some(found) => found,
        None => {
            return Err(
                StoreError::corrupt(
                    "execution_workflow",
                    incoming.plan.plan.definition.plan_id.as_str(),
                    "committed workflow could not be read back",
                ),
            );
        },
    };
    validate_execution_workflow_replay(&found, incoming, payloads)?;
    if inserted_any {
        Ok(WriteOutcome::Inserted(found))
    } else {
        Ok(WriteOutcome::Duplicate(found))
    }
}

/// A workflow that was stored can be stored again: its own records replay it.
pub proof fn stored_workflow_replays(
    workflow: NewExecutionWorkflow,
    stored: StoredExecutionWorkflow,
    payloads: WorkflowPayloads,
)
    requires
        workflow::new_workflow_reason(workflow) is None,
        heads_replay(stored, workflow, payloads),
        stored.commands@.len() == workflow.commands@.len(),
        forall|i: int|
            0 <= i < workflow.commands@.len() ==> {
                let command = #[trigger] workflow.commands@[i];
                &&& stored.commands@[i].command.command_id@ == command.command.command_id@
                &&& stored.commands@[i].risk_id@ == command.risk_id@
                &&& stored.commands@[i].payload@ == payloads.commands@[i]@
                &&& stored.commands@[i].created_at == command.created_at
            },
        stored.command_states@ == workflow.command_states@,
    ensures
        workflow_replays(stored, workflow, payloads),
{
    workflow::each_leg_has_one_command(workflow);
    let ids = stored_command_ids(stored.commands@);
    assert(ids =~= workflow::new_command_ids(workflow.commands@));
    text::distinct_of_unique(ids);
    assert forall|i: int| 0 <= i < workflow.commands@.len() implies command_replays(
        stored.commands@,
        #[trigger] workflow.commands@[i],
        payloads.commands@[i]@,
    ) by {
        assert(ids[i] == workflow.commands@[i].command.command_id@);
        text::last_index_is(ids, ids[i], i);
    }
    let states = workflow::state_command_ids(stored.command_states@);
    text::distinct_of_unique(states);
    assert forall|i: int| 0 <= i < workflow.command_states@.len() implies workflow_state_replays(
        stored.command_states@,
        #[trigger] workflow.command_states@[i],
    ) by {
        assert(states[i] == workflow.command_states@[i].command_id@);
        text::last_index_is(states, states[i], i);
    }
}

proof fn rows_in_place(
    rows: Seq<CommandRow>,
    plan: StoredExecutionPlan,
    risk: StoredRiskResult,
    intent: StoredTradeIntent,
)
    requires
        workflow_rows_fault(rows, plan, risk, intent) is None,
    ensures
        forall|i: int|
            0 <= i < rows.len() ==> commands::command_row_fault(#[trigger] rows[i]) is None
                && workflow::stored_command_reason(
                rows[i].command->Ok_0,
                rows[i].risk_id@,
                rows[i].created_at,
                plan,
                risk,
                intent,
            ) is None,
        forall|i: int, j: int|
            0 <= i < j < rows.len() ==> ((#[trigger] rows[i]).command->Ok_0).leg_id->0@ != ((
            #[trigger] rows[j]).command->Ok_0).leg_id->0@,
    decreases rows.len(),
{
    if rows.len() > 0 {
        let rest = rows.drop_last();
        rows_in_place(rest, plan, risk, intent);
        let legs = row_legs(rest);
        assert forall|i: int| 0 <= i < rows.len() implies commands::command_row_fault(
            #[trigger] rows[i],
        ) is None && workflow::stored_command_reason(
            rows[i].command->Ok_0,
            rows[i].risk_id@,
            rows[i].created_at,
            plan,
            risk,
            intent,
        ) is None by {
            if i < rest.len() {
                assert(rest[i] == rows[i]);
            }
        }
        assert forall|i: int, j: int| 0 <= i < j < rows.len() implies ((
        #[trigger] rows[i]).command->Ok_0).leg_id->0@ != ((
        #[trigger] rows[j]).command->Ok_0).leg_id->0@ by {
            assert(rest[i] == rows[i]);
            if j < rest.len() {
                assert(rest[j] == rows[j]);
            } else {
                assert(legs[i] == (rows[i].command->Ok_0).leg_id->0@);
            }
        }
    }
}

/// A workflow that was read has its decision and its intent, as many commands as
/// its plan has legs, no two of them for the same leg, and all of them carry the
/// plan out.
pub proof fn read_workflows_are_of_one_piece(
    plan: StoredExecutionPlan,
    risk: Option<StoredRiskResult>,
    intent: Option<StoredTradeIntent>,
    rows: Seq<CommandRow>,
    states: Seq<CommandStateRow>,
)
    requires
        workflow_fault(plan, risk, intent, rows, states) is None,
    ensures
        risk is Some,
        intent is Some,
        rows.len() == plan.plan.legs@.len(),
        forall|i: int|
            0 <= i < rows.len() ==> {
                let command = (#[trigger] rows[i]).command->Ok_0;
                &&& rows[i].command is Ok
                &&& rows[i].command_id@ == command.command_id@
                &&& rows[i].risk_id@ == plan.risk_id@
                &&& command.plan_id is Some && (command.plan_id->0)@
                    == plan.plan.definition.plan_id@
                &&& command.account_id@ == plan.plan.definition.account_id@
                &&& command.expires_at <= (risk->0).result.valid_until
                &&& command.expires_at <= (intent->0).intent.signal_expires_at
                &&& rows[i].created_at < command.expires_at
            },
        forall|i: int, j: int|
            0 <= i < j < rows.len() ==> ((#[trigger] rows[i]).command->Ok_0).leg_id->0@ != ((
            #[trigger] rows[j]).command->Ok_0).leg_id->0@,
{
    rows_in_place(rows, plan, risk->0, intent->0);
}

/// Each leg of a workflow that was read stands with its own command and the state
/// of that command.
pub proof fn read_legs_have_their_command(
    plan_id: Seq<char>,
    legs: Seq<ExecutionLeg>,
    rows: Seq<CommandRow>,
    states: Seq<CommandStateRow>,
    i: int,
)
    requires
        workflow_legs_fault(plan_id, legs, rows, states) is None,
        0 <= i < legs.len(),
    ensures
        ({
            let at = command_place(rows, legs[i]);
            let found = state_place(rows, states, legs[i]);
            &&& 0 <= at < rows.len()
            &&& (rows[at].command->Ok_0).leg_id->0@ == legs[i].definition.leg_id@
            &&& 0 <= found < states.len()
            &&& states[found].command_id@ == (rows[at].command->Ok_0).command_id@
            &&& 0 <= states[found].delivery_attempts <= 4294967295
            &&& states[found].status.parsed is Ok
            &&& states[found].account_id@ == (rows[at].command->Ok_0).account_id@
            &&& states[found].created_at == rows[at].created_at
            &&& states[found].created_at <= states[found].updated_at
        }),
    decreases legs.len(),
{
    if i < legs.len() - 1 {
        assert(legs.drop_last()[i] == legs[i]);
        read_legs_have_their_command(plan_id, legs.drop_last(), rows, states, i);
    } else {
        assert(workflow_leg_fault(plan_id, legs.drop_last(), legs[i], rows, states) is None);
        let at = command_place(rows, legs[i]);
        text::first_index_facts(row_legs(rows), legs[i].definition.leg_id@);
        text::first_index_facts(
            state_row_ids(states),
            (rows[at].command->Ok_0).command_id@,
        );
        assert(row_legs(rows)[at] == legs[i].definition.leg_id@);
    }
}

/// A workflow that comes again is the stored one: the same intent, not changed
/// since, the same decision and plan, and the same commands, whose states may
/// have gone on since.
pub proof fn repeated_workflows_are_the_stored_ones(
    stored: StoredExecutionWorkflow,
    incoming: NewExecutionWorkflow,
    payloads: WorkflowPayloads,
)
    requires
        workflow_replay_fault(stored, incoming, payloads) is None,
    ensures
        stored.intent.payload@ == payloads.intent@,
        stored.intent.status@ == incoming.intent.initial_status@,
        stored.intent.created_at == incoming.intent.recorded_at,
        stored.intent.updated_at == incoming.intent.recorded_at,
        stored.risk_result.payload@ == payloads.risk_result@,
        stored.plan.payload@ == payloads.plan@,
        stored.plan.risk_id@ == incoming.plan.risk_id@,
        stored.plan.intent_id@ == incoming.plan.intent_id@,
        stored.plan.created_at == incoming.plan.recorded_at,
        forall|i: int|
            0 <= i < incoming.commands@.len() ==> {
                let command = #[trigger] incoming.commands@[i];
                let at = text::last_index(
                    stored_command_ids(stored.commands@),
                    command.command.command_id@,
                ) as int;
                &&& 0 <= at < stored.commands@.len()
                &&& stored.commands@[at].command.command_id@ == command.command.command_id@
                &&& stored.commands@[at].risk_id@ == command.risk_id@
                &&& stored.commands@[at].payload@ == payloads.commands@[i]@
                &&& stored.commands@[at].created_at == command.created_at
            },
        forall|i: int|
            0 <= i < incoming.command_states@.len() ==> {
                let state = #[trigger] incoming.command_states@[i];
                let at = text::last_index(
                    workflow::state_command_ids(stored.command_states@),
                    state.command_id@,
                ) as int;
                &&& 0 <= at < stored.command_states@.len()
                &&& stored.command_states@[at].command_id@ == state.command_id@
                &&& stored.command_states@[at].account_id@ == state.account_id@
                &&& stored.command_states@[at].created_at == state.created_at
                &&& stored.command_states@[at].updated_at >= state.updated_at
            },
{
    let ids = stored_command_ids(stored.commands@);
    let state_ids = workflow::state_command_ids(stored.command_states@);
    assert forall|i: int| 0 <= i < incoming.commands@.len() implies {
        let command = #[trigger] incoming.commands@[i];
        let at = text::last_index(ids, command.command.command_id@) as int;
        &&& 0 <= at < stored.commands@.len()
        &&& stored.commands@[at].command.command_id@ == command.command.command_id@
        &&& stored.commands@[at].risk_id@ == command.risk_id@
        &&& stored.commands@[at].payload@ == payloads.commands@[i]@
        &&& stored.commands@[at].created_at == command.created_at
    } by {
        let command = incoming.commands@[i];
        assert(command_replays(stored.commands@, command, payloads.commands@[i]@));
        text::last_index_facts(ids, command.command.command_id@);
        let at = text::last_index(ids, command.command.command_id@) as int;
        assert(ids[at] == stored.commands@[at].command.command_id@);
    }
    assert forall|i: int| 0 <= i < incoming.command_states@.len() implies {
        let state = #[trigger] incoming.command_states@[i];
        let at = text::last_index(state_ids, state.command_id@) as int;
        &&& 0 <= at < stored.command_states@.len()
        &&& stored.command_states@[at].command_id@ == state.command_id@
        &&& stored.command_states@[at].account_id@ == state.account_id@
        &&& stored.command_states@[at].created_at == state.created_at
        &&& stored.command_states@[at].updated_at >= state.updated_at
    } by {
        assert(workflow_state_replays(stored.command_states@, incoming.command_states@[i]));
    }
}

/// A state is read from its row as it stands there.
pub proof fn read_states_are_as_stored(row: CommandStateRow)
    requires
        commands::command_state_row_fault(row) is None,
    ensures
        ({
            let state = state_of_row(row);
            &&& state.command_id == row.command_id
            &&& state.account_id == row.account_id
            &&& state.plan_id == row.plan_id
            &&& state.leg_id == row.leg_id
            &&& state.delivery_attempts == row.delivery_attempts
            &&& state.last_delivery_error == row.last_delivery_error
            &&& state.created_at == row.created_at
            &&& state.dispatched_at == row.dispatched_at
            &&& state.command_received_at == row.command_received_at
            &&& state.reconciling_at == row.reconciling_at
            &&& state.completed_at == row.completed_at
            &&& state.updated_at == row.updated_at
        }),
{
}

/// A workflow is put together leg by leg: each leg with the command that names it
/// and the state of that command.
pub proof fn workflows_are_put_together_leg_by_leg(
    legs: Seq<ExecutionLeg>,
    rows: Seq<CommandRow>,
    state_rows: Seq<CommandStateRow>,
    found: Seq<StoredExecutionCommand>,
    states: Seq<ExecutionCommandState>,
    i: int,
)
    requires
        assembled(legs, rows, state_rows, found, states),
        workflow_legs_fault(Seq::empty(), legs, rows, state_rows) is None,
        0 <= i < legs.len(),
    ensures
        found.len() == legs.len(),
        states.len() == legs.len(),
        ({
            let at = command_place(rows, legs[i]);
            &&& 0 <= at < rows.len()
            &&& found[i].command == rows[at].command->Ok_0
            &&& found[i].command.leg_id->0@ == legs[i].definition.leg_id@
            &&& found[i].risk_id == rows[at].risk_id
            &&& found[i].created_at == rows[at].created_at
            &&& states[i].command_id@ == found[i].command.command_id@
        }),
{
    read_legs_have_their_command(Seq::empty(), legs, rows, state_rows, i);
    assert(commands::command_of_row(rows[command_place(rows, legs[i])], found[i]));
}

}
