//! What the owners of a transaction read before they decide: a workflow with
//! everything that was reported of it, and what a reconciliation is about.

use vstd::prelude::*;
use vstd::string::*;

use crate::domain::{AccountId, ClientId, CommandId, PlanId, TerminalId};
use crate::error;
use crate::error::{Fault, StoreError};
use crate::listing;
use crate::listing::{oldest_first, Listed};
use crate::reconciliation;
use crate::reconciliation::{ReconciliationRequest, StoredReconciliationRun};
use crate::text;
use crate::text::{join2, join3, optional_is, same_text, sort_texts};
use crate::trading::{
    ExecutionCommandState, StoredExecutionCommand, StoredExecutionEvent, StoredExecutionWorkflow,
};
use crate::workflow;
use crate::workflow::validate_persisted_command_state;

verus! {

/// A workflow with everything that was reported of it.
#[derive(Debug, PartialEq, Eq)]
pub struct ExecutionProjectionSnapshot {
    pub workflow: StoredExecutionWorkflow,
    pub events: Vec<StoredExecutionEvent>,
}

/// A command and how far it got.
#[derive(Debug, PartialEq, Eq)]
pub struct StoredExecutionCommandLifecycle {
    pub command: StoredExecutionCommand,
    pub state: ExecutionCommandState,
}

/// What a reconciliation is about.
pub struct ReconciliationEvaluationSnapshot {
    pub run: StoredReconciliationRun,
    pub commands: Vec<StoredExecutionCommandLifecycle>,
    pub events: Vec<StoredExecutionEvent>,
}

/// Commands are listed by their name alone.
impl Listed for StoredExecutionCommandLifecycle {
    open spec fn time(&self) -> i64 {
        0
    }

    open spec fn key(&self) -> Seq<char> {
        self.command.command.command_id@
    }

    open spec fn account(&self) -> Seq<char> {
        self.command.command.account_id@
    }

    open spec fn current(&self) -> bool {
        true
    }

    fn listed_at(&self) -> (r: i64) {
        0
    }

    fn listed_as(&self) -> (r: &str) {
        self.command.command.command_id.as_str()
    }

    fn listed_for(&self) -> (r: &String) {
        &self.command.command.account_id
    }

    fn is_current(&self) -> (r: bool) {
        true
    }
}

/// The command is one of the workflow.
pub open spec fn in_workflow(workflow: StoredExecutionWorkflow, command_id: Seq<char>) -> bool {
    exists|i: int|
        0 <= i < workflow.commands@.len()
            && (#[trigger] workflow.commands@[i]).command.command_id@ == command_id
}

fn is_in_workflow(workflow: &StoredExecutionWorkflow, command_id: &CommandId) -> (r: bool)
    ensures
        r == in_workflow(*workflow, command_id@),
{
    let mut i: usize = 0;
    while i < workflow.commands.len()
        invariant
            i <= workflow.commands.len(),
            forall|j: int|
                0 <= j < i ==> (#[trigger] workflow.commands@[j]).command.command_id@
                    != command_id@,
        decreases workflow.commands.len() - i,
    {
        if same_text(workflow.commands[i].command.command_id.as_str(), command_id.as_str()) {
            return true;
        }
        i = i + 1;
    }
    false
}

/// What is wrong with reading the workflow of a command.
pub open spec fn projection_fault(
    command_id: Seq<char>,
    plan_id: Option<PlanId>,
    workflow: Option<StoredExecutionWorkflow>,
) -> Option<Fault> {
    match plan_id {
        None => None,
        Some(plan_id) => match workflow {
            None => Some(
                error::corrupt_fault(
                    "execution_projection_snapshot"@,
                    command_id,
                    "parent workflow "@ + plan_id@ + " is missing"@,
                ),
            ),
            Some(workflow) => if in_workflow(workflow, command_id) {
                None
            } else {
                Some(
                    error::corrupt_fault(
                        "execution_projection_snapshot"@,
                        command_id,
                        "command is not part of parent workflow "@ + plan_id@,
                    ),
                )
            },
        },
    }
}

/// Puts the workflow of a command together with what was reported of its plan.
/// `plan_id` is the plan that the command names, if it is known, `workflow` the
/// one of that plan, and `events` what was reported of it.
pub fn load_execution_projection(
    command_id: &CommandId,
    plan_id: &Option<PlanId>,
    workflow: Option<StoredExecutionWorkflow>,
    events: Vec<StoredExecutionEvent>,
) -> (r: Result<Option<ExecutionProjectionSnapshot>, StoreError>)
    ensures
        error::fault(r) == projection_fault(command_id@, *plan_id, workflow),
        r matches Ok(snapshot) ==> match snapshot {
            None => plan_id is None,
            Some(snapshot) => plan_id is Some && workflow == Some(snapshot.workflow)
                && snapshot.events@ == listing::sorted(events@),
        },
{
    let plan_id = match plan_id {
        Some(plan_id) => plan_id,
        None => {
            return Ok(None);
        },
    };
    let workflow = match workflow {
        Some(workflow) => workflow,
        None => {
            let reason = join3("parent workflow ", plan_id.as_str(), " is missing");
            return Err(
                StoreError::corrupt(
                    "execution_projection_snapshot",
                    command_id.as_str(),
                    reason.as_str(),
                ),
            );
        },
    };
    if !is_in_workflow(&workflow, command_id) {
        let reason = join2("command is not part of parent workflow ", plan_id.as_str());
        return Err(
            StoreError::corrupt(
                "execution_projection_snapshot",
                command_id.as_str(),
                reason.as_str(),
            ),
        );
    }
    Ok(Some(ExecutionProjectionSnapshot { workflow, events: oldest_first(events) }))
}

/// A session through which a command was sent.
pub struct DeliveryRoute {
    pub command_id: CommandId,
    pub account_id: AccountId,
    pub terminal_id: Option<TerminalId>,
    pub client_id: ClientId,
}

/// Where a command is bound for.
pub struct CommandRoute {
    pub command_id: CommandId,
    pub account_id: AccountId,
    pub terminal_id: Option<TerminalId>,
    pub client_id: Option<ClientId>,
}

/// A value is what is wanted, or nothing in particular is.
pub open spec fn wanted(wanted: Option<String>, value: Option<Seq<char>>) -> bool {
    wanted matches Some(name) ==> value == Some(name@)
}

fn is_wanted(wanted_value: &Option<String>, value: &Option<String>) -> (r: bool)
    ensures
        r == wanted(*wanted_value, text::optional_text(*value)),
{
    match wanted_value {
        Some(name) => optional_is(value, name.as_str()),
        None => true,
    }
}

/// The command was sent through a session of the route that the request is
/// about.
pub open spec fn sent_along(
    routes: Seq<DeliveryRoute>,
    request: ReconciliationRequest,
    command_id: Seq<char>,
) -> bool {
    exists|i: int|
        0 <= i < routes.len() && #[trigger] along(routes[i], request, command_id)
}

/// The session is of the route that the request is about, and the command was
/// sent through it.
pub open spec fn along(
    route: DeliveryRoute,
    request: ReconciliationRequest,
    command_id: Seq<char>,
) -> bool {
    &&& route.command_id@ == command_id
    &&& route.account_id@ == request.account_id@
    &&& wanted(request.terminal_id, text::optional_text(route.terminal_id))
    &&& wanted(request.client_id, Some(route.client_id@))
}

/// Whether the command was sent through a session of the route that the request
/// is about.
pub fn has_delivery_route_proof(
    routes: &Vec<DeliveryRoute>,
    request: &ReconciliationRequest,
    command_id: &CommandId,
) -> (r: bool)
    ensures
        r == sent_along(routes@, *request, command_id@),
{
    let mut i: usize = 0;
    while i < routes.len()
        invariant
            i <= routes.len(),
            forall|j: int| 0 <= j < i ==> !#[trigger] along(routes@[j], *request, command_id@),
        decreases routes.len() - i,
    {
        let route = &routes[i];
        let same_client = match &request.client_id {
            Some(client_id) => same_text(route.client_id.as_str(), client_id.as_str()),
            None => true,
        };
        if same_text(route.command_id.as_str(), command_id.as_str()) && same_text(
            route.account_id.as_str(),
            request.account_id.as_str(),
        ) && is_wanted(&request.terminal_id, &route.terminal_id) && same_client {
            assert(along(routes@[i as int], *request, command_id@));
            return true;
        }
        i = i + 1;
    }
    false
}

/// A command belongs to what the request is about: it is of the account, and
/// bound for the route or sent along it.
pub open spec fn on_route(
    routes: Seq<DeliveryRoute>,
    request: ReconciliationRequest,
    command_id: Seq<char>,
    account_id: Seq<char>,
    terminal_id: Option<Seq<char>>,
    client_id: Option<Seq<char>>,
) -> bool {
    account_id == request.account_id@ && ((wanted(request.terminal_id, terminal_id) && wanted(
        request.client_id,
        client_id,
    )) || sent_along(routes, request, command_id))
}

fn is_on_route(
    routes: &Vec<DeliveryRoute>,
    request: &ReconciliationRequest,
    command_id: &CommandId,
    account_id: &AccountId,
    terminal_id: &Option<TerminalId>,
    client_id: &Option<ClientId>,
) -> (r: bool)
    ensures
        r == on_route(
            routes@,
            *request,
            command_id@,
            account_id@,
            text::optional_text(*terminal_id),
            text::optional_text(*client_id),
        ),
{
    same_text(account_id.as_str(), request.account_id.as_str()) && ((is_wanted(
        &request.terminal_id,
        terminal_id,
    ) && is_wanted(&request.client_id, client_id)) || has_delivery_route_proof(
        routes,
        request,
        command_id,
    ))
}

/// The names of the commands that a request without a list is about, in the
/// order in which they are given.
pub open spec fn route_commands(
    commands: Seq<CommandRoute>,
    routes: Seq<DeliveryRoute>,
    request: ReconciliationRequest,
) -> Seq<CommandId>
    decreases commands.len(),
{
    if commands.len() == 0 {
        Seq::empty()
    } else {
        let before = route_commands(commands.drop_last(), routes, request);
        let last = commands.last();
        if on_route(
            routes,
            request,
            last.command_id@,
            last.account_id@,
            text::optional_text(last.terminal_id),
            text::optional_text(last.client_id),
        ) {
            before.push(last.command_id)
        } else {
            before
        }
    }
}

/// Finds the commands that a request without a list is about, by name.
pub fn load_route_command_ids(
    commands: &Vec<CommandRoute>,
    routes: &Vec<DeliveryRoute>,
    request: &ReconciliationRequest,
) -> (r: Vec<CommandId>)
    ensures
        text::texts(r@) == text::ascending(
            text::texts(route_commands(commands@, routes@, *request)),
        ),
{
    let mut found: Vec<CommandId> = Vec::new();
    let mut i: usize = 0;
    while i < commands.len()
        invariant
            i <= commands.len(),
            found@ == route_commands(commands@.take(i as int), routes@, *request),
        decreases commands.len() - i,
    {
        assert(commands@.take(i + 1).drop_last() =~= commands@.take(i as int));
        let command = &commands[i];
        if is_on_route(
            routes,
            request,
            &command.command_id,
            &command.account_id,
            &command.terminal_id,
            &command.client_id,
        ) {
            found.push(command.command_id.clone());
        }
        i = i + 1;
    }
    assert(commands@.take(i as int) =~= commands@);
    sort_texts(found)
}

/// The names of the commands that a request is about: those that it lists, or,
/// where it has no list, those of its route, in ascending order. `commands` are
/// the commands of its account, and `routes` the sessions through which they
/// were sent.
pub open spec fn names_in_scope(
    request: ReconciliationRequest,
    commands: Seq<CommandRoute>,
    routes: Seq<DeliveryRoute>,
) -> Seq<Seq<char>> {
    match request.command_ids {
        Some(ids) => text::texts(ids@),
        None => text::ascending(text::texts(route_commands(commands, routes, request))),
    }
}

/// Names the commands that a request is about.
pub fn scoped_command_ids(
    request: &ReconciliationRequest,
    commands: &Vec<CommandRoute>,
    routes: &Vec<DeliveryRoute>,
) -> (r: Vec<CommandId>)
    ensures
        text::texts(r@) == names_in_scope(*request, commands@, routes@),
{
    let ids = match &request.command_ids {
        Some(ids) => ids,
        None => {
            return load_route_command_ids(commands, routes, request);
        },
    };
    let mut names: Vec<CommandId> = Vec::new();
    let mut i: usize = 0;
    assert(text::texts(names@) =~= text::texts(ids@).take(0));
    while i < ids.len()
        invariant
            i <= ids.len(),
            text::texts(names@) == text::texts(ids@).take(i as int),
        decreases ids.len() - i,
    {
        let ghost before = names@;
        names.push(ids[i].clone());
        i = i + 1;
        assert(text::texts(names@) =~= text::texts(before).push(ids@[i - 1]@));
        assert(text::texts(names@) =~= text::texts(ids@).take(i as int));
    }
    assert(text::texts(ids@).take(i as int) =~= text::texts(ids@));
    names
}

/// What the store finds under the name of a command.
pub struct ScopedCommand {
    pub command: Option<StoredExecutionCommand>,
    pub state: Option<ExecutionCommandState>,
    pub events: Vec<StoredExecutionEvent>,
}

/// The command that was found under a name.
pub open spec fn command_under(found: Seq<ScopedCommand>, i: int, name: Seq<char>) -> Option<
    StoredExecutionCommand,
> {
    if i < found.len() && (found[i].command matches Some(command) && command.command.command_id@
        == name) {
        found[i].command
    } else {
        None
    }
}

/// How far the command got that was found under a name.
pub open spec fn state_under(found: Seq<ScopedCommand>, i: int, name: Seq<char>) -> Option<
    ExecutionCommandState,
> {
    if i < found.len() && (found[i].state matches Some(state) && state.command_id@ == name) {
        found[i].state
    } else {
        None
    }
}

/// What is wrong with a command that a reconciliation is about.
pub open spec fn scoped_fault(
    request: ReconciliationRequest,
    routes: Seq<DeliveryRoute>,
    name: Seq<char>,
    command: Option<StoredExecutionCommand>,
    state: Option<ExecutionCommandState>,
) -> Option<Fault> {
    let entity = "reconciliation_evaluation_snapshot"@;
    let key = request.request_id@;
    match command {
        None => Some(
            error::corrupt_fault(entity, key, "scoped command "@ + name + " is missing"@),
        ),
        Some(command) => {
            let value = command.command;
            if !on_route(
                routes,
                request,
                value.command_id@,
                value.account_id@,
                text::optional_text(value.terminal_id),
                text::optional_text(value.client_id),
            ) {
                Some(
                    error::corrupt_fault(
                        entity,
                        key,
                        "scoped command "@ + value.command_id@
                            + " is outside the request route"@,
                    ),
                )
            } else {
                match state {
                    None => Some(
                        error::corrupt_fault(
                            entity,
                            key,
                            "scoped command "@ + name + " has no lifecycle state"@,
                        ),
                    ),
                    Some(state) => match workflow::persisted_state_reason(
                        state,
                        value,
                        command.created_at,
                    ) {
                        Some(reason) => Some(
                            error::corrupt_fault("execution_command_state"@, name, reason),
                        ),
                        None => None,
                    },
                }
            }
        },
    }
}

/// What is wrong with the commands that a reconciliation is about.
pub open spec fn evaluation_fault(
    request: ReconciliationRequest,
    routes: Seq<DeliveryRoute>,
    names: Seq<Seq<char>>,
    found: Seq<ScopedCommand>,
) -> Option<Fault>
    decreases names.len(),
{
    if names.len() == 0 {
        None
    } else {
        let i = names.len() - 1;
        error::first_of(
            evaluation_fault(request, routes, names.drop_last(), found),
            scoped_fault(
                request,
                routes,
                names[i],
                command_under(found, i, names[i]),
                state_under(found, i, names[i]),
            ),
        )
    }
}

proof fn evaluation_fault_of_prefix(
    request: ReconciliationRequest,
    routes: Seq<DeliveryRoute>,
    names: Seq<Seq<char>>,
    found: Seq<ScopedCommand>,
    n: int,
)
    requires
        0 <= n <= names.len(),
        evaluation_fault(request, routes, names.take(n), found) is Some,
    ensures
        evaluation_fault(request, routes, names, found) == evaluation_fault(
            request,
            routes,
            names.take(n),
            found,
        ),
    decreases names.len(),
{
    if n < names.len() {
        assert(names.drop_last().take(n) =~= names.take(n));
        evaluation_fault_of_prefix(request, routes, names.drop_last(), found, n);
    } else {
        assert(names.take(n) =~= names);
    }
}

/// The commands, with how far they got.
pub open spec fn lifecycles(found: Seq<ScopedCommand>, n: nat) -> Seq<
    StoredExecutionCommandLifecycle,
> {
    Seq::new(
        n,
        |i: int|
            StoredExecutionCommandLifecycle {
                command: found[i].command->0,
                state: found[i].state->0,
            },
    )
}

/// Of what was reported that which is about a command.
pub open spec fn reports_of(events: Seq<StoredExecutionEvent>, name: Seq<char>) -> Seq<
    StoredExecutionEvent,
>
    decreases events.len(),
{
    if events.len() == 0 {
        Seq::empty()
    } else {
        let before = reports_of(events.drop_last(), name);
        if events.last().event.command_id@ == name {
            before.push(events.last())
        } else {
            before
        }
    }
}

/// Everything that was reported of the commands.
pub open spec fn reports(found: Seq<ScopedCommand>, names: Seq<Seq<char>>) -> Seq<
    StoredExecutionEvent,
>
    decreases names.len(),
{
    if names.len() == 0 {
        Seq::empty()
    } else {
        let i = names.len() - 1;
        reports(found, names.drop_last()) + reports_of(found[i].events@, names[i])
    }
}

fn append_reports(
    reports: &mut Vec<StoredExecutionEvent>,
    events: Vec<StoredExecutionEvent>,
    name: &CommandId,
)
    ensures
        final(reports)@ == old(reports)@ + reports_of(events@, name@),
{
    let ghost all = events@;
    let ghost before = reports@;
    assert(reports@ =~= before + reports_of(all.take(0), name@));
    for event in it: events
        invariant
            it.seq() == all,
            all == events@,
            before == old(reports)@,
            reports@ == before + reports_of(all.take(it.index()), name@),
    {
        let ghost longer = all.take(it.index() + 1);
        assert(longer.drop_last() =~= all.take(it.index()));
        assert(longer.last() == event);
        if same_text(event.event.command_id.as_str(), name.as_str()) {
            reports.push(event);
        }
        assert(reports@ =~= before + reports_of(longer, name@));
    }
    assert(all.take(all.len() as int) =~= all);
}

fn check_scoped(
    request: &ReconciliationRequest,
    routes: &Vec<DeliveryRoute>,
    command_id: &CommandId,
    command: Option<StoredExecutionCommand>,
    state: Option<ExecutionCommandState>,
) -> (r: Result<StoredExecutionCommandLifecycle, StoreError>)
    ensures
        error::fault(r) == scoped_fault(*request, routes@, command_id@, command, state),
        r matches Ok(lifecycle) ==> lifecycle == (StoredExecutionCommandLifecycle {
            command: command->0,
            state: state->0,
        }),
{
    let command = match command {
        Some(command) => command,
        None => {
            let reason = join3("scoped command ", command_id.as_str(), " is missing");
            return Err(
                StoreError::corrupt(
                    "reconciliation_evaluation_snapshot",
                    request.request_id.as_str(),
                    reason.as_str(),
                ),
            );
        },
    };
    if !is_on_route(
        routes,
        request,
        &command.command.command_id,
        &command.command.account_id,
        &command.command.terminal_id,
        &command.command.client_id,
    ) {
        let reason = join3(
            "scoped command ",
            command.command.command_id.as_str(),
            " is outside the request route",
        );
        return Err(
            StoreError::corrupt(
                "reconciliation_evaluation_snapshot",
                request.request_id.as_str(),
                reason.as_str(),
            ),
        );
    }
    let state = match state {
        Some(state) => state,
        None => {
            let reason = join3(
                "scoped command ",
                command_id.as_str(),
                " has no lifecycle state",
            );
            return Err(
                StoreError::corrupt(
                    "reconciliation_evaluation_snapshot",
                    request.request_id.as_str(),
                    reason.as_str(),
                ),
            );
        },
    };
    if let Err(reason) = validate_persisted_command_state(&state, &command) {
        return Err(
            StoreError::corrupt(
                "execution_command_state",
                command_id.as_str(),
                reason.as_str(),
            ),
        );
    }
    Ok(StoredExecutionCommandLifecycle { command, state })
}

/// The command, where it bears the name.
fn command_of_name(command: Option<StoredExecutionCommand>, name: &CommandId) -> (r: Option<
    StoredExecutionCommand,
>)
    ensures
        r == (if command matches Some(found) && found.command.command_id@ == name@ {
            command
        } else {
            None
        }),
{
    match command {
        Some(command) => if same_text(command.command.command_id.as_str(), name.as_str()) {
            Some(command)
        } else {
            None
        },
        None => None,
    }
}

/// How far the command got, where it bears the name.
fn state_of_name(state: Option<ExecutionCommandState>, name: &CommandId) -> (r: Option<
    ExecutionCommandState,
>)
    ensures
        r == (if state matches Some(found) && found.command_id@ == name@ {
            state
        } else {
            None
        }),
{
    match state {
        Some(state) => if same_text(state.command_id.as_str(), name.as_str()) {
            Some(state)
        } else {
            None
        },
        None => None,
    }
}

/// What is wrong with reading a reconciliation.
pub open spec fn snapshot_fault(
    run: Option<StoredReconciliationRun>,
    commands: Seq<CommandRoute>,
    routes: Seq<DeliveryRoute>,
    found: Seq<ScopedCommand>,
) -> Option<Fault> {
    match run {
        None => None,
        Some(run) => evaluation_fault(
            run.request,
            routes,
            names_in_scope(run.request, commands, routes),
            found,
        ),
    }
}

/// Puts a reconciliation together with the commands that it is about, by name,
/// and with what was reported of them, oldest first. `commands` are the commands
/// of the account, `routes` the sessions through which they were sent, and
/// `found` is what the store finds under the name of each command in scope, in
/// the order of [`scoped_command_ids`]; what bears another name counts as not
/// found.
pub fn load_reconciliation_evaluation_snapshot(
    run: Option<StoredReconciliationRun>,
    commands: &Vec<CommandRoute>,
    routes: &Vec<DeliveryRoute>,
    found: Vec<ScopedCommand>,
) -> (r: Result<Option<ReconciliationEvaluationSnapshot>, StoreError>)
    ensures
        error::fault(r) == snapshot_fault(run, commands@, routes@, found@),
        r matches Ok(snapshot) ==> match snapshot {
            None => run is None,
            Some(snapshot) => {
                let names = names_in_scope(snapshot.run.request, commands@, routes@);
                &&& run == Some(snapshot.run)
                &&& snapshot.commands@ == listing::sorted(lifecycles(found@, names.len()))
                &&& snapshot.events@ == listing::sorted(reports(found@, names))
            },
        },
{
    let about = match run {
        Some(about) => about,
        None => {
            return Ok(None);
        },
    };
    let names = scoped_command_ids(&about.request, commands, routes);
    let ghost all = text::texts(names@);
    let ghost given = found@;
    let mut scoped: Vec<StoredExecutionCommandLifecycle> = Vec::new();
    let mut events: Vec<StoredExecutionEvent> = Vec::new();
    let mut i: usize = 0;
    for item in it: found
        invariant
            it.seq() == given,
            given == found@,
            run == Some(about),
            all == text::texts(names@),
            all == names_in_scope(about.request, commands@, routes@),
            i == (if it.index() < names@.len() {
                it.index()
            } else {
                names@.len() as int
            }),
            evaluation_fault(about.request, routes@, all.take(i as int), given) is None,
            scoped@ == lifecycles(given, i as nat),
            events@ == reports(given, all.take(i as int)),
    {
        if i < names.len() {
            let ghost longer = all.take(i + 1);
            assert(longer.drop_last() =~= all.take(i as int));
            assert(longer[i as int] == names@[i as int]@);
            assert(item == given[i as int]);
            let ScopedCommand { command, state, events: reported } = item;
            let command = command_of_name(command, &names[i]);
            let state = state_of_name(state, &names[i]);
            match check_scoped(&about.request, routes, &names[i], command, state) {
                Ok(lifecycle) => scoped.push(lifecycle),
                Err(error) => {
                    proof {
                        evaluation_fault_of_prefix(about.request, routes@, all, given, i + 1);
                    }
                    return Err(error);
                },
            }
            append_reports(&mut events, reported, &names[i]);
            i = i + 1;
            assert(scoped@ =~= lifecycles(given, i as nat));
        }
    }
    if i < names.len() {
        let ghost longer = all.take(i + 1);
        assert(longer.drop_last() =~= all.take(i as int));
        assert(longer[i as int] == names@[i as int]@);
        proof {
            evaluation_fault_of_prefix(about.request, routes@, all, given, i + 1);
        }
        let reason = join3("scoped command ", names[i].as_str(), " is missing");
        return Err(
            StoreError::corrupt(
                "reconciliation_evaluation_snapshot",
                about.request.request_id.as_str(),
                reason.as_str(),
            ),
        );
    }
    assert(all.take(i as int) =~= all);
    Ok(
        Some(
            ReconciliationEvaluationSnapshot {
                run: about,
                commands: oldest_first(scoped),
                events: oldest_first(events),
            },
        ),
    )
}

/// Every command that is found for a route belongs to it.
pub proof fn route_commands_are_on_route(
    commands: Seq<CommandRoute>,
    routes: Seq<DeliveryRoute>,
    request: ReconciliationRequest,
    command_id: CommandId,
)
    requires
        route_commands(commands, routes, request).contains(command_id),
    ensures
        exists|i: int|
            0 <= i < commands.len() && (#[trigger] commands[i]).command_id == command_id
                && on_route(
                routes,
                request,
                commands[i].command_id@,
                commands[i].account_id@,
                text::optional_text(commands[i].terminal_id),
                text::optional_text(commands[i].client_id),
            ),
    decreases commands.len(),
{
    let found = route_commands(commands, routes, request);
    let before = route_commands(commands.drop_last(), routes, request);
    let k = choose|k: int| 0 <= k < found.len() && found[k] == command_id;
    if k < before.len() {
        assert(before[k] == command_id);
        route_commands_are_on_route(commands.drop_last(), routes, request, command_id);
        let i = choose|i: int|
            0 <= i < commands.drop_last().len() && (
            #[trigger] commands.drop_last()[i]).command_id == command_id && on_route(
                routes,
                request,
                commands.drop_last()[i].command_id@,
                commands.drop_last()[i].account_id@,
                text::optional_text(commands.drop_last()[i].terminal_id),
                text::optional_text(commands.drop_last()[i].client_id),
            );
        assert(commands[i].command_id == command_id);
    } else {
        assert(commands[commands.len() - 1].command_id == command_id);
    }
}

/// A command that is found for a route is not refused as being outside of it.
pub proof fn found_commands_are_in_scope(
    request: ReconciliationRequest,
    routes: Seq<DeliveryRoute>,
    command: StoredExecutionCommand,
    state: ExecutionCommandState,
)
    requires
        on_route(
            routes,
            request,
            command.command.command_id@,
            command.command.account_id@,
            text::optional_text(command.command.terminal_id),
            text::optional_text(command.command.client_id),
        ),
        workflow::persisted_state_reason(state, command.command, command.created_at) is None,
    ensures
        scoped_fault(
            request,
            routes,
            command.command.command_id@,
            Some(command),
            Some(state),
        ) is None,
{
}

/// The names of commands.
pub open spec fn command_names(commands: Seq<StoredExecutionCommandLifecycle>) -> Seq<Seq<char>> {
    Seq::new(commands.len(), |i: int| commands[i].command.command.command_id@)
}

proof fn found_under_their_names(
    request: ReconciliationRequest,
    routes: Seq<DeliveryRoute>,
    names: Seq<Seq<char>>,
    found: Seq<ScopedCommand>,
)
    requires
        evaluation_fault(request, routes, names, found) is None,
    ensures
        command_names(lifecycles(found, names.len())) == names,
    decreases names.len(),
{
    if names.len() > 0 {
        found_under_their_names(request, routes, names.drop_last(), found);
        let before = command_names(lifecycles(found, (names.len() - 1) as nat));
        assert(command_names(lifecycles(found, names.len())) =~= before.push(names.last()));
        assert(names.drop_last().push(names.last()) =~= names);
    } else {
        assert(command_names(lifecycles(found, 0)) =~= names);
    }
}

proof fn sorted_stays(commands: Seq<StoredExecutionCommandLifecycle>)
    requires
        text::strictly_sorted(command_names(commands)),
    ensures
        listing::sorted(commands) == commands,
    decreases commands.len(),
{
    if commands.len() > 0 {
        let shorter = commands.drop_last();
        let names = command_names(commands);
        assert(command_names(shorter) =~= names.drop_last());
        sorted_stays(shorter);
        if shorter.len() > 0 {
            let n = commands.len() - 1;
            assert(text::precedes(names[n - 1], names[n]));
            text::precedes_asymmetric(names[n - 1], names[n]);
        }
        assert(shorter.push(commands.last()) =~= commands);
    } else {
        assert(listing::sorted(commands) =~= commands);
    }
}

/// An evaluation sees exactly the commands that the request is about, each once
/// and by name, where no two that are in scope have one name.
pub proof fn evaluations_see_what_is_in_scope(
    request: ReconciliationRequest,
    commands: Seq<CommandRoute>,
    routes: Seq<DeliveryRoute>,
    found: Seq<ScopedCommand>,
)
    requires
        text::strictly_sorted(names_in_scope(request, commands, routes)),
        evaluation_fault(
            request,
            routes,
            names_in_scope(request, commands, routes),
            found,
        ) is None,
    ensures
        command_names(
            listing::sorted(
                lifecycles(found, names_in_scope(request, commands, routes).len()),
            ),
        ) == names_in_scope(request, commands, routes),
{
    let names = names_in_scope(request, commands, routes);
    found_under_their_names(request, routes, names, found);
    sorted_stays(lifecycles(found, names.len()));
}

proof fn route_names_differ(
    commands: Seq<CommandRoute>,
    routes: Seq<DeliveryRoute>,
    request: ReconciliationRequest,
)
    requires
        forall|i: int, j: int|
            0 <= i < j < commands.len() ==> (#[trigger] commands[i]).command_id@ != (
            #[trigger] commands[j]).command_id@,
    ensures
        text::texts(route_commands(commands, routes, request)).no_duplicates(),
        forall|k: int|
            0 <= k < route_commands(commands, routes, request).len() ==> exists|i: int|
                0 <= i < commands.len() && (#[trigger] commands[i]).command_id == (
                #[trigger] route_commands(commands, routes, request)[k]),
    decreases commands.len(),
{
    if commands.len() > 0 {
        let shorter = commands.drop_last();
        assert forall|i: int, j: int| 0 <= i < j < shorter.len() implies (
        #[trigger] shorter[i]).command_id@ != (#[trigger] shorter[j]).command_id@ by {
            assert(shorter[i] == commands[i] && shorter[j] == commands[j]);
        }
        route_names_differ(shorter, routes, request);
        let before = route_commands(shorter, routes, request);
        let after = route_commands(commands, routes, request);
        let last = commands.len() - 1;
        assert forall|k: int| 0 <= k < after.len() implies exists|i: int|
            0 <= i < commands.len() && (#[trigger] commands[i]).command_id == (
            #[trigger] after[k]) by {
            if k < before.len() {
                assert(after[k] == before[k]);
                let i = choose|i: int|
                    0 <= i < shorter.len() && (#[trigger] shorter[i]).command_id == before[k];
                assert(commands[i].command_id == after[k]);
            } else {
                assert(commands[last].command_id == after[k]);
            }
        }
        let names = text::texts(after);
        assert forall|i: int, j: int| 0 <= i < names.len() && 0 <= j < names.len() && i
            != j implies names[i] != names[j] by {
            let (low, high) = if i < j {
                (i, j)
            } else {
                (j, i)
            };
            assert(names[low] == before[low]@);
            if high < before.len() {
                assert(text::texts(before)[low] != text::texts(before)[high]);
            } else {
                let k = choose|k: int|
                    0 <= k < shorter.len() && (#[trigger] shorter[k]).command_id == before[low];
                assert(commands[k].command_id@ != commands[last].command_id@);
            }
        }
    }
}

/// The commands in scope are named in ascending order, each once: a request that
/// may be stored lists them so, and the commands of an account have names of
/// their own.
pub proof fn scopes_name_commands_once(
    request: ReconciliationRequest,
    requested_at: i64,
    commands: Seq<CommandRoute>,
    routes: Seq<DeliveryRoute>,
)
    requires
        reconciliation::request_fault(request, requested_at) is None,
        forall|i: int, j: int|
            0 <= i < j < commands.len() ==> (#[trigger] commands[i]).command_id@ != (
            #[trigger] commands[j]).command_id@,
    ensures
        text::strictly_sorted(names_in_scope(request, commands, routes)),
{
    if request.command_ids is None {
        route_names_differ(commands, routes, request);
        text::ascending_is_sorted(text::texts(route_commands(commands, routes, request)));
    }
}

/// A request about an account, and about a terminal or a client where it names
/// one, is about the commands of the account that were meant for them, or were
/// sent to them.
pub proof fn requests_reach_commands_of_their_route(
    routes: Seq<DeliveryRoute>,
    request: ReconciliationRequest,
    command_id: Seq<char>,
    account_id: Seq<char>,
    terminal_id: Option<Seq<char>>,
    client_id: Option<Seq<char>>,
)
    ensures
        on_route(routes, request, command_id, account_id, terminal_id, client_id) ==> account_id
            == request.account_id@,
        account_id == request.account_id@ && (request.terminal_id is Some ==> terminal_id == Some(
            (request.terminal_id->0)@,
        )) && (request.client_id is Some ==> client_id == Some((request.client_id->0)@))
            ==> on_route(routes, request, command_id, account_id, terminal_id, client_id),
        forall|i: int|
            0 <= i < routes.len() && account_id == request.account_id@ && (
            #[trigger] routes[i]).command_id@ == command_id && routes[i].account_id@
                == request.account_id@ && (request.terminal_id is Some
                ==> routes[i].terminal_id is Some && (routes[i].terminal_id->0)@ == (
            request.terminal_id->0)@) && (request.client_id is Some ==> routes[i].client_id@ == (
            request.client_id->0)@) ==> on_route(
                routes,
                request,
                command_id,
                account_id,
                terminal_id,
                client_id,
            ),
        on_route(routes, request, command_id, account_id, terminal_id, client_id) && !((
        request.terminal_id is Some ==> terminal_id == Some((request.terminal_id->0)@)) && (
        request.client_id is Some ==> client_id == Some((request.client_id->0)@))) ==> exists|
            i: int,
        |
            0 <= i < routes.len() && (#[trigger] routes[i]).command_id@ == command_id
                && routes[i].account_id@ == request.account_id@ && (request.terminal_id is Some
                ==> routes[i].terminal_id is Some && (routes[i].terminal_id->0)@ == (
            request.terminal_id->0)@) && (request.client_id is Some ==> routes[i].client_id@ == (
            request.client_id->0)@),
{
    assert forall|i: int|
        0 <= i < routes.len() && account_id == request.account_id@ && (
        #[trigger] routes[i]).command_id@ == command_id && routes[i].account_id@
            == request.account_id@ && (request.terminal_id is Some ==> routes[i].terminal_id is Some
            && (routes[i].terminal_id->0)@ == (request.terminal_id->0)@) && (request.client_id
            is Some ==> routes[i].client_id@ == (request.client_id->0)@) implies on_route(
        routes,
        request,
        command_id,
        account_id,
        terminal_id,
        client_id,
    ) by {
        assert(along(routes[i], request, command_id));
    }
    if on_route(routes, request, command_id, account_id, terminal_id, client_id) && !((
    request.terminal_id is Some ==> terminal_id == Some((request.terminal_id->0)@)) && (
    request.client_id is Some ==> client_id == Some((request.client_id->0)@))) {
        assert(sent_along(routes, request, command_id));
        let i = choose|i: int|
            0 <= i < routes.len() && #[trigger] along(routes[i], request, command_id);
        assert(routes[i].command_id@ == command_id);
    }
}

/// Every command on the route of a request without a list is in its scope; a
/// request with a list is about that list.
pub proof fn scopes_miss_nothing(
    commands: Seq<CommandRoute>,
    routes: Seq<DeliveryRoute>,
    request: ReconciliationRequest,
    i: int,
)
    requires
        0 <= i < commands.len(),
        on_route(
            routes,
            request,
            commands[i].command_id@,
            commands[i].account_id@,
            text::optional_text(commands[i].terminal_id),
            text::optional_text(commands[i].client_id),
        ),
    ensures
        route_commands(commands, routes, request).contains(commands[i].command_id),
        request.command_ids is Some ==> names_in_scope(request, commands, routes) == text::texts(
            (request.command_ids->0)@,
        ),
    decreases commands.len(),
{
    let rest = commands.drop_last();
    let all = route_commands(commands, routes, request);
    let before = route_commands(rest, routes, request);
    if i < rest.len() {
        assert(rest[i] == commands[i]);
        scopes_miss_nothing(rest, routes, request, i);
        let k = choose|k: int| 0 <= k < before.len() && before[k] == commands[i].command_id;
        assert(all[k] == commands[i].command_id);
    } else {
        assert(all[all.len() - 1] == commands[i].command_id);
    }
}

/// A command of a plan is shown with the workflow that it belongs to.
pub proof fn commands_are_shown_with_their_workflow(
    command_id: Seq<char>,
    plan_id: Option<PlanId>,
    workflow: Option<StoredExecutionWorkflow>,
)
    ensures
        projection_fault(command_id, plan_id, workflow) is None <==> (plan_id is Some
            ==> workflow is Some && exists|i: int|
            0 <= i < (workflow->0).commands@.len() && (
            #[trigger] (workflow->0).commands@[i]).command.command_id@ == command_id),
{
}

/// A command that is evaluated is there, is on the route of the request, and has
/// a state that fits it.
pub proof fn evaluated_commands_are_whole(
    request: ReconciliationRequest,
    routes: Seq<DeliveryRoute>,
    name: Seq<char>,
    command: Option<StoredExecutionCommand>,
    state: Option<ExecutionCommandState>,
)
    ensures
        scoped_fault(request, routes, name, command, state) is None <==> {
            &&& command is Some
            &&& state is Some
            &&& on_route(
                routes,
                request,
                (command->0).command.command_id@,
                (command->0).command.account_id@,
                text::optional_text((command->0).command.terminal_id),
                text::optional_text((command->0).command.client_id),
            )
            &&& workflow::persisted_state_reason(
                state->0,
                (command->0).command,
                (command->0).created_at,
            ) is None
        },
{
}

/// The reports that are shown of a command are all those that name it, and no
/// others.
pub proof fn reports_of_a_command_name_it(
    events: Seq<StoredExecutionEvent>,
    name: Seq<char>,
    report: StoredExecutionEvent,
)
    ensures
        reports_of(events, name).contains(report) <==> events.contains(report)
            && report.event.command_id@ == name,
    decreases events.len(),
{
    if events.len() > 0 {
        let rest = events.drop_last();
        let last = events.last();
        reports_of_a_command_name_it(rest, name, report);
        let before = reports_of(rest, name);
        let all = reports_of(events, name);
        assert(events[events.len() - 1] == last);
        if rest.contains(report) {
            let k = choose|k: int| 0 <= k < rest.len() && rest[k] == report;
            assert(events[k] == report);
        }
        if events.contains(report) {
            let k = choose|k: int| 0 <= k < events.len() && events[k] == report;
            if k < rest.len() {
                assert(rest[k] == report);
            }
        }
        if last.event.command_id@ == name {
            if before.contains(report) {
                let k = choose|k: int| 0 <= k < before.len() && before[k] == report;
                assert(all[k] == report);
            }
            if report == last {
                assert(all[all.len() - 1] == report);
            }
            if all.contains(report) {
                let k = choose|k: int| 0 <= k < all.len() && all[k] == report;
                if k < before.len() {
                    assert(before[k] == report);
                }
            }
        }
    }
}

/// The reports of an evaluation are those of the commands in its scope, each
/// command with its own.
pub proof fn evaluations_show_the_reports_of_their_commands(
    found: Seq<ScopedCommand>,
    names: Seq<Seq<char>>,
    i: int,
    report: StoredExecutionEvent,
)
    requires
        0 <= i < names.len(),
        found[i].events@.contains(report),
        report.event.command_id@ == names[i],
    ensures
        reports(found, names).contains(report),
    decreases names.len(),
{
    let last = names.len() - 1;
    let before = reports(found, names.drop_last());
    let own = reports_of(found[last].events@, names[last]);
    let all = before + own;
    assert(reports(found, names) == all);
    if i < last {
        assert(names.drop_last()[i] == names[i]);
        evaluations_show_the_reports_of_their_commands(found, names.drop_last(), i, report);
        let k = choose|k: int| 0 <= k < before.len() && before[k] == report;
        assert(all[k] == report);
    } else {
        reports_of_a_command_name_it(found[last].events@, names[last], report);
        let k = choose|k: int| 0 <= k < own.len() && own[k] == report;
        assert(all[before.len() + k] == report);
    }
}

/// A request that is not stored has nothing to be evaluated; one that is stored is
/// evaluated over its scope.
pub proof fn stored_requests_are_evaluated(
    run: Option<StoredReconciliationRun>,
    commands: Seq<CommandRoute>,
    routes: Seq<DeliveryRoute>,
    found: Seq<ScopedCommand>,
)
    ensures
        run is None ==> snapshot_fault(run, commands, routes, found) is None,
        run matches Some(stored) ==> snapshot_fault(run, commands, routes, found)
            == evaluation_fault(
            stored.request,
            routes,
            names_in_scope(stored.request, commands, routes),
            found,
        ),
{
}

/// An evaluation goes through only if each command of its scope is whole and
/// stands in its place.
pub proof fn evaluations_go_through_command_by_command(
    request: ReconciliationRequest,
    routes: Seq<DeliveryRoute>,
    names: Seq<Seq<char>>,
    found: Seq<ScopedCommand>,
    i: int,
)
    requires
        evaluation_fault(request, routes, names, found) is None,
        0 <= i < names.len(),
    ensures
        i < found.len(),
        found[i].command is Some,
        (found[i].command->0).command.command_id@ == names[i],
        (found[i].command->0).command.account_id@ == request.account_id@,
        found[i].state is Some,
        (found[i].state->0).command_id@ == names[i],
    decreases names.len(),
{
    if i < names.len() - 1 {
        assert(names.drop_last()[i] == names[i]);
        evaluations_go_through_command_by_command(request, routes, names.drop_last(), found, i);
    }
}

}
