//! What the control plane is shown: bounded lists of the accounts that the
//! reader may see.

use vstd::prelude::*;
use vstd::string::*;

use crate::domain::{AccountId, CommandId, PlanId};
use crate::error;
use crate::error::{Fault, StoreError};
use crate::latest_state;
use crate::latest_state::{load_latest_state, LatestStateRows};
use crate::listing;
use crate::listing::{is_before, keep_shown, keep_tail, latest_of, newest_shown, oldest_first, Listed};
use crate::model::{StoredCircuitBreakerSnapshot, StoredSessionRecord};
use crate::snapshots::{AuthorizedAccountScope, LatestStateProjection};
use crate::text;
use crate::text::{optional_is, same_text, sort_texts};
use crate::trading::{
    ExecutionCommandState, StoredExecutionCommand, StoredExecutionEvent, StoredExecutionPlan,
    StoredRiskResult, StoredTradeIntent,
};

verus! {

/// How much of each kind is shown.
#[derive(Clone, Copy, Debug, PartialEq, Eq, Structural)]
pub struct ControlPlaneStateLimits {
    pub sessions: usize,
    pub open_plans: usize,
    pub pending_commands: usize,
    pub recent_events: usize,
    pub latest_risk_results: usize,
}

impl Default for ControlPlaneStateLimits {
    fn default() -> (r: Self)
        ensures
            r == (ControlPlaneStateLimits {
                sessions: 128,
                open_plans: 128,
                pending_commands: 512,
                recent_events: 512,
                latest_risk_results: 256,
            }),
    {
        ControlPlaneStateLimits {
            sessions: 128,
            open_plans: 128,
            pending_commands: 512,
            recent_events: 512,
            latest_risk_results: 256,
        }
    }
}

/// What is wrong with a limit.
pub open spec fn state_limit_fault(field: Seq<char>, value: usize) -> Option<Fault> {
    if value == 0 || value > i64::MAX {
        Some(
            error::invalid_fault(
                "control_plane_state_limits"@,
                field,
                "must be a positive value representable by SQLite"@,
            ),
        )
    } else {
        None
    }
}

fn check_state_limit(field: &'static str, value: usize) -> (r: Result<(), StoreError>)
    ensures
        error::fault(r) == state_limit_fault(field@, value),
{
    if value == 0 || value as u64 > i64::MAX as u64 {
        Err(
            StoreError::invalid(
                "control_plane_state_limits",
                field,
                "must be a positive value representable by SQLite",
            ),
        )
    } else {
        Ok(())
    }
}

/// What is wrong with limits.
pub open spec fn limits_fault(limits: ControlPlaneStateLimits) -> Option<Fault> {
    let f = state_limit_fault("sessions"@, limits.sessions);
    let f = error::first_of(f, state_limit_fault("open_plans"@, limits.open_plans));
    let f = error::first_of(f, state_limit_fault("pending_commands"@, limits.pending_commands));
    let f = error::first_of(f, state_limit_fault("recent_events"@, limits.recent_events));
    error::first_of(f, state_limit_fault("latest_risk_results"@, limits.latest_risk_results))
}

impl ControlPlaneStateLimits {
    /// The limits, if a query can have them.
    pub fn validate(self) -> (r: Result<ControlPlaneStateLimits, StoreError>)
        ensures
            error::fault(r) == limits_fault(self),
            r matches Ok(limits) ==> limits == self,
    {
        check_state_limit("sessions", self.sessions)?;
        check_state_limit("open_plans", self.open_plans)?;
        check_state_limit("pending_commands", self.pending_commands)?;
        check_state_limit("recent_events", self.recent_events)?;
        check_state_limit("latest_risk_results", self.latest_risk_results)?;
        Ok(self)
    }
}

/// What is wrong with the length of a list that is asked for.
pub open spec fn query_limit_fault(field: Seq<char>, value: usize) -> Option<Fault> {
    if value == 0 {
        Some(error::invalid_fault("control_plane_query_limit"@, field, "must be positive"@))
    } else if value > i64::MAX {
        Some(
            error::invalid_fault(
                "control_plane_query_limit"@,
                field,
                "does not fit in a SQLite INTEGER"@,
            ),
        )
    } else {
        None
    }
}

/// The length of a list that is asked for, as a column.
pub fn checked_limit(field: &'static str, value: usize) -> (r: Result<i64, StoreError>)
    ensures
        error::fault(r) == query_limit_fault(field@, value),
        r matches Ok(limit) ==> limit == value,
{
    if value == 0 {
        return Err(StoreError::invalid("control_plane_query_limit", field, "must be positive"));
    }
    if value as u64 > i64::MAX as u64 {
        return Err(
            StoreError::invalid(
                "control_plane_query_limit",
                field,
                "does not fit in a SQLite INTEGER",
            ),
        );
    }
    Ok(value as i64)
}

impl Listed for StoredSessionRecord {
    open spec fn time(&self) -> i64 {
        self.updated_at
    }

    open spec fn key(&self) -> Seq<char> {
        self.session_id@
    }

    open spec fn account(&self) -> Seq<char> {
        self.account_id@
    }

    open spec fn current(&self) -> bool {
        true
    }

    fn listed_at(&self) -> (r: i64) {
        self.updated_at
    }

    fn listed_as(&self) -> (r: &str) {
        self.session_id.as_str()
    }

    fn listed_for(&self) -> (r: &String) {
        &self.account_id
    }

    fn is_current(&self) -> (r: bool) {
        true
    }
}

/// A plan with the given status is still open.
pub open spec fn open_plan_status(status: Seq<char>) -> bool {
    status == "PENDING"@ || status == "RECONCILING"@ || status
        == "MANUAL_RECONCILIATION_REQUIRED"@ || status == "PARTIAL"@
}

impl Listed for StoredExecutionPlan {
    open spec fn time(&self) -> i64 {
        self.updated_at
    }

    open spec fn key(&self) -> Seq<char> {
        self.plan.definition.plan_id@
    }

    open spec fn account(&self) -> Seq<char> {
        self.plan.definition.account_id@
    }

    open spec fn current(&self) -> bool {
        open_plan_status(self.plan.state.status@)
    }

    fn listed_at(&self) -> (r: i64) {
        self.updated_at
    }

    fn listed_as(&self) -> (r: &str) {
        self.plan.definition.plan_id.as_str()
    }

    fn listed_for(&self) -> (r: &String) {
        &self.plan.definition.account_id
    }

    fn is_current(&self) -> (r: bool) {
        let status = self.plan.state.status.as_str();
        same_text(status, "PENDING") || same_text(status, "RECONCILING") || same_text(
            status,
            "MANUAL_RECONCILIATION_REQUIRED",
        ) || same_text(status, "PARTIAL")
    }
}

/// A command with the given status is done with.
pub open spec fn finished_command_status(status: Seq<char>) -> bool {
    status == "REJECTED"@ || status == "FILLED"@ || status == "FAILED"@ || status == "EXPIRED"@
        || status == "CANCELLED"@
}

impl Listed for ExecutionCommandState {
    open spec fn time(&self) -> i64 {
        self.updated_at
    }

    open spec fn key(&self) -> Seq<char> {
        self.command_id@
    }

    open spec fn account(&self) -> Seq<char> {
        self.account_id@
    }

    open spec fn current(&self) -> bool {
        !finished_command_status(self.status@)
    }

    fn listed_at(&self) -> (r: i64) {
        self.updated_at
    }

    fn listed_as(&self) -> (r: &str) {
        self.command_id.as_str()
    }

    fn listed_for(&self) -> (r: &String) {
        &self.account_id
    }

    fn is_current(&self) -> (r: bool) {
        let status = self.status.as_str();
        !(same_text(status, "REJECTED") || same_text(status, "FILLED") || same_text(
            status,
            "FAILED",
        ) || same_text(status, "EXPIRED") || same_text(status, "CANCELLED"))
    }
}

impl Listed for StoredExecutionEvent {
    open spec fn time(&self) -> i64 {
        self.event.event_at
    }

    open spec fn key(&self) -> Seq<char> {
        self.event.execution_id@
    }

    open spec fn account(&self) -> Seq<char> {
        self.event.account_id@
    }

    open spec fn current(&self) -> bool {
        true
    }

    fn listed_at(&self) -> (r: i64) {
        self.event.event_at
    }

    fn listed_as(&self) -> (r: &str) {
        self.event.execution_id.as_str()
    }

    fn listed_for(&self) -> (r: &String) {
        &self.event.account_id
    }

    fn is_current(&self) -> (r: bool) {
        true
    }
}

impl Listed for StoredRiskResult {
    open spec fn time(&self) -> i64 {
        self.result.evaluated_at
    }

    open spec fn key(&self) -> Seq<char> {
        self.result.risk_id@
    }

    open spec fn account(&self) -> Seq<char> {
        self.result.account_id@
    }

    open spec fn current(&self) -> bool {
        true
    }

    fn listed_at(&self) -> (r: i64) {
        self.result.evaluated_at
    }

    fn listed_as(&self) -> (r: &str) {
        self.result.risk_id.as_str()
    }

    fn listed_for(&self) -> (r: &String) {
        &self.result.account_id
    }

    fn is_current(&self) -> (r: bool) {
        true
    }
}

/// A decision about the same intent is newer.
pub open spec fn overtaken(all: Seq<StoredRiskResult>, result: StoredRiskResult) -> bool {
    exists|i: int|
        0 <= i < all.len() && (#[trigger] all[i]).result.intent_id@ == result.result.intent_id@
            && listing::comes_before(result, all[i])
}

/// Of the given decisions those that are the newest about their intent.
pub open spec fn leading(all: Seq<StoredRiskResult>, given: Seq<StoredRiskResult>) -> Seq<
    StoredRiskResult,
>
    decreases given.len(),
{
    if given.len() == 0 {
        Seq::empty()
    } else {
        let before = leading(all, given.drop_last());
        if overtaken(all, given.last()) {
            before
        } else {
            before.push(given.last())
        }
    }
}

fn is_overtaken(all: &Vec<StoredRiskResult>, result: &StoredRiskResult) -> (r: bool)
    ensures
        r == overtaken(all@, *result),
{
    let mut i: usize = 0;
    while i < all.len()
        invariant
            i <= all.len(),
            forall|j: int|
                0 <= j < i ==> !((#[trigger] all@[j]).result.intent_id@
                    == result.result.intent_id@ && listing::comes_before(*result, all@[j])),
        decreases all.len() - i,
    {
        if same_text(all[i].result.intent_id.as_str(), result.result.intent_id.as_str())
            && is_before(result, &all[i]) {
            return true;
        }
        i = i + 1;
    }
    false
}

/// The newest so many of the decisions, of each intent the newest one.
pub open spec fn leading_results(
    values: Seq<StoredRiskResult>,
    accounts: Set<Seq<char>>,
    limit: int,
) -> Seq<StoredRiskResult> {
    let seen = listing::shown(values, accounts);
    listing::tail(listing::sorted(leading(seen, seen)), limit)
}

fn drop_overtaken(values: Vec<StoredRiskResult>) -> (r: Vec<StoredRiskResult>)
    ensures
        r@ == leading(values@, values@),
{
    let ghost all = values@;
    let mut late: Vec<bool> = Vec::new();
    let mut i: usize = 0;
    while i < values.len()
        invariant
            i <= values.len(),
            values@ == all,
            late.len() == i,
            forall|j: int| 0 <= j < i ==> #[trigger] late@[j] == overtaken(all, all[j]),
        decreases values.len() - i,
    {
        late.push(is_overtaken(&values, &values[i]));
        i = i + 1;
    }
    let mut kept: Vec<StoredRiskResult> = Vec::new();
    let mut at: usize = 0;
    for value in it: values
        invariant
            it.seq() == all,
            all == values@,
            at == it.index(),
            late.len() == all.len(),
            forall|j: int| 0 <= j < all.len() ==> #[trigger] late@[j] == overtaken(all, all[j]),
            kept@ == leading(all, all.take(it.index())),
    {
        let ghost longer = all.take(it.index() + 1);
        assert(longer.drop_last() =~= all.take(it.index()));
        assert(longer.last() == value);
        assert(value == all[at as int]);
        assert(late@[at as int] == overtaken(all, all[at as int]));
        if !late[at] {
            kept.push(value);
        }
        at = at + 1;
    }
    assert(all.take(all.len() as int) =~= all);
    kept
}

/// Lists the newest decisions, of each intent the newest one, oldest first.
pub fn latest_risk_results(
    values: Vec<StoredRiskResult>,
    scope: &AuthorizedAccountScope,
    limit: usize,
) -> (r: Vec<StoredRiskResult>)
    ensures
        r@ == leading_results(values@, scope@, limit as int),
{
    keep_tail(oldest_first(drop_overtaken(keep_shown(values, scope))), limit)
}

/// What the control plane is shown.
pub struct ControlPlaneStateSnapshot {
    pub latest: LatestStateProjection,
    pub sessions: Vec<StoredSessionRecord>,
    pub open_plans: Vec<StoredExecutionPlan>,
    pub pending_commands: Vec<ExecutionCommandState>,
    pub recent_events: Vec<StoredExecutionEvent>,
    pub latest_risk_results: Vec<StoredRiskResult>,
    pub circuit_breaker: Option<StoredCircuitBreakerSnapshot>,
}

/// What the store holds of what the control plane may be shown. Sessions that
/// were turned away are not among it.
pub struct ControlPlaneRecords {
    pub latest: LatestStateRows,
    pub sessions: Vec<StoredSessionRecord>,
    pub plans: Vec<StoredExecutionPlan>,
    pub commands: Vec<ExecutionCommandState>,
    pub events: Vec<StoredExecutionEvent>,
    pub risk_results: Vec<StoredRiskResult>,
    pub circuit_breaker: Option<StoredCircuitBreakerSnapshot>,
}

/// Gathers what the control plane is shown.
pub fn load_control_plane_state(
    scope: &AuthorizedAccountScope,
    limits: ControlPlaneStateLimits,
    records: ControlPlaneRecords,
) -> (r: Result<ControlPlaneStateSnapshot, StoreError>)
    ensures
        error::fault(r) == error::first_of(
            limits_fault(limits),
            latest_state::latest_state_fault(records.latest, scope@),
        ),
        r matches Ok(state) ==> {
            &&& latest_state::shows(state.latest, records.latest, scope@)
            &&& state.sessions@ == listing::newest(
                records.sessions@,
                scope@,
                limits.sessions as int,
            )
            &&& state.open_plans@ == listing::newest(
                records.plans@,
                scope@,
                limits.open_plans as int,
            )
            &&& state.pending_commands@ == listing::newest(
                records.commands@,
                scope@,
                limits.pending_commands as int,
            )
            &&& state.recent_events@ == listing::newest(
                records.events@,
                scope@,
                limits.recent_events as int,
            )
            &&& state.latest_risk_results@ == leading_results(
                records.risk_results@,
                scope@,
                limits.latest_risk_results as int,
            )
            &&& state.circuit_breaker == records.circuit_breaker
        },
{
    let limits = limits.validate()?;
    Ok(
        ControlPlaneStateSnapshot {
            latest: load_latest_state(scope, records.latest)?,
            sessions: newest_shown(records.sessions, scope, limits.sessions),
            open_plans: newest_shown(records.plans, scope, limits.open_plans),
            pending_commands: newest_shown(records.commands, scope, limits.pending_commands),
            recent_events: newest_shown(records.events, scope, limits.recent_events),
            latest_risk_results: latest_risk_results(
                records.risk_results,
                scope,
                limits.latest_risk_results,
            ),
            circuit_breaker: records.circuit_breaker,
        },
    )
}

/// An intent and how far it got.
#[derive(Debug, PartialEq, Eq)]
pub struct TradeIntentWorkflowStatus {
    pub intent: StoredTradeIntent,
    pub latest_risk_result: Option<StoredRiskResult>,
    pub plan: Option<StoredExecutionPlan>,
    pub command_ids: Vec<CommandId>,
}

/// A command and the plan that it belongs to.
pub struct PlanCommand {
    pub command_id: CommandId,
    pub plan_id: Option<PlanId>,
}

/// The names of the commands of a plan, in the order in which they are given.
pub open spec fn commands_of_plan(commands: Seq<PlanCommand>, plan_id: Seq<char>) -> Seq<Seq<char>>
    decreases commands.len(),
{
    if commands.len() == 0 {
        Seq::empty()
    } else {
        let before = commands_of_plan(commands.drop_last(), plan_id);
        let last = commands.last();
        if text::optional_text(last.plan_id) == Some(plan_id) {
            before.push(last.command_id@)
        } else {
            before
        }
    }
}

/// Names the commands of a plan, in ascending order.
pub fn plan_command_ids(commands: &Vec<PlanCommand>, plan_id: &PlanId) -> (r: Vec<CommandId>)
    ensures
        text::texts(r@) == text::ascending(commands_of_plan(commands@, plan_id@)),
{
    let mut found: Vec<CommandId> = Vec::new();
    let mut i: usize = 0;
    assert(text::texts(found@) =~= commands_of_plan(commands@.take(0), plan_id@));
    while i < commands.len()
        invariant
            i <= commands.len(),
            text::texts(found@) == commands_of_plan(commands@.take(i as int), plan_id@),
        decreases commands.len() - i,
    {
        assert(commands@.take(i + 1).drop_last() =~= commands@.take(i as int));
        if optional_is(&commands[i].plan_id, plan_id.as_str()) {
            let ghost before = found@;
            found.push(commands[i].command_id.clone());
            assert(text::texts(found@) =~= text::texts(before).push(
                commands@[i as int].command_id@,
            ));
        }
        i = i + 1;
    }
    assert(commands@.take(i as int) =~= commands@);
    sort_texts(found)
}

/// The names of the commands of the newest plan, in ascending order.
pub open spec fn newest_commands(
    plans: Seq<StoredExecutionPlan>,
    commands: Seq<PlanCommand>,
) -> Seq<Seq<char>> {
    match listing::newest_one(plans) {
        Some(plan) => text::ascending(
            commands_of_plan(commands, plan.plan.definition.plan_id@),
        ),
        None => Seq::empty(),
    }
}

/// Tells how far an intent got, if the reader may see its account. `risk_results`
/// and `plans` are those of the intent, and `commands` those of its plans.
pub fn trade_intent_workflow_status(
    scope: &AuthorizedAccountScope,
    intent: Option<StoredTradeIntent>,
    risk_results: Vec<StoredRiskResult>,
    plans: Vec<StoredExecutionPlan>,
    commands: &Vec<PlanCommand>,
) -> (r: Option<TradeIntentWorkflowStatus>)
    ensures
        r is Some <==> (intent matches Some(found) && scope@.contains(found.intent.account_id@)),
        r matches Some(status) ==> {
            &&& intent == Some(status.intent)
            &&& status.latest_risk_result == listing::newest_one(risk_results@)
            &&& status.plan == listing::newest_one(plans@)
            &&& text::texts(status.command_ids@) == newest_commands(plans@, commands@)
        },
{
    let intent = match intent {
        Some(intent) => intent,
        None => {
            return None;
        },
    };
    if !scope.contains(&intent.intent.account_id) {
        return None;
    }
    let plan = latest_of(plans);
    let command_ids = match &plan {
        Some(plan) => plan_command_ids(commands, &plan.plan.definition.plan_id),
        None => Vec::new(),
    };
    assert(plan is None ==> text::texts(command_ids@) =~= Seq::empty());
    Some(
        TradeIntentWorkflowStatus {
            intent,
            latest_risk_result: latest_of(risk_results),
            plan,
            command_ids,
        },
    )
}

/// A command, how far it got, and what was reported of it.
#[derive(Debug, PartialEq, Eq)]
pub struct ExecutionCommandStatusBundle {
    pub state: ExecutionCommandState,
    pub command: StoredExecutionCommand,
    pub events: Vec<StoredExecutionEvent>,
}

/// Of the reports those about a command of an account.
pub open spec fn reports_about(
    events: Seq<StoredExecutionEvent>,
    command_id: Seq<char>,
    account_id: Seq<char>,
) -> Seq<StoredExecutionEvent>
    decreases events.len(),
{
    if events.len() == 0 {
        Seq::empty()
    } else {
        let before = reports_about(events.drop_last(), command_id, account_id);
        if events.last().event.command_id@ == command_id && events.last().event.account_id@
            == account_id {
            before.push(events.last())
        } else {
            before
        }
    }
}

fn keep_reports_about(
    events: Vec<StoredExecutionEvent>,
    command_id: &CommandId,
    account_id: &AccountId,
) -> (r: Vec<StoredExecutionEvent>)
    ensures
        r@ == reports_about(events@, command_id@, account_id@),
{
    let ghost all = events@;
    let mut kept: Vec<StoredExecutionEvent> = Vec::new();
    for event in it: events
        invariant
            it.seq() == all,
            all == events@,
            kept@ == reports_about(all.take(it.index()), command_id@, account_id@),
    {
        let ghost longer = all.take(it.index() + 1);
        assert(longer.drop_last() =~= all.take(it.index()));
        assert(longer.last() == event);
        if same_text(event.event.command_id.as_str(), command_id.as_str()) && same_text(
            event.event.account_id.as_str(),
            account_id.as_str(),
        ) {
            kept.push(event);
        }
    }
    assert(all.take(all.len() as int) =~= all);
    kept
}

/// The reader may see the state.
pub open spec fn state_allowed(state: Option<ExecutionCommandState>, accounts: Set<Seq<char>>) -> bool {
    state matches Some(found) && accounts.contains(found.account_id@)
}

/// The command belongs to the state.
pub open spec fn command_belongs(
    state: ExecutionCommandState,
    command: Option<StoredExecutionCommand>,
) -> bool {
    command matches Some(found) && found.command.account_id@ == state.account_id@
}

/// Tells how far a command got, if the reader may see its account, with the
/// newest reports about it, oldest first.
pub fn execution_command_status_bundle(
    scope: &AuthorizedAccountScope,
    command_id: &CommandId,
    event_limit: usize,
    state: Option<ExecutionCommandState>,
    command: Option<StoredExecutionCommand>,
    events: Vec<StoredExecutionEvent>,
) -> (r: Result<Option<ExecutionCommandStatusBundle>, StoreError>)
    ensures
        error::fault(r) == error::first_of(
            query_limit_fault("command_events"@, event_limit),
            if state_allowed(state, scope@) && !command_belongs(state->0, command) {
                Some(
                    error::corrupt_fault(
                        "execution_command_state"@,
                        command_id@,
                        "parent command is missing"@,
                    ),
                )
            } else {
                None
            },
        ),
        r matches Ok(found) ==> (found is Some <==> state_allowed(state, scope@)),
        r matches Ok(Some(bundle)) ==> {
            &&& state == Some(bundle.state)
            &&& command == Some(bundle.command)
            &&& bundle.events@ == listing::tail(
                listing::sorted(reports_about(events@, command_id@, bundle.state.account_id@)),
                event_limit as int,
            )
        },
{
    checked_limit("command_events", event_limit)?;
    let state = match state {
        Some(state) => state,
        None => {
            return Ok(None);
        },
    };
    if !scope.contains(&state.account_id) {
        return Ok(None);
    }
    let command = match command {
        Some(command) => {
            if !same_text(command.command.account_id.as_str(), state.account_id.as_str()) {
                return Err(
                    StoreError::corrupt(
                        "execution_command_state",
                        command_id.as_str(),
                        "parent command is missing",
                    ),
                );
            }
            command
        },
        None => {
            return Err(
                StoreError::corrupt(
                    "execution_command_state",
                    command_id.as_str(),
                    "parent command is missing",
                ),
            );
        },
    };
    let events = keep_tail(
        oldest_first(keep_reports_about(events, command_id, &state.account_id)),
        event_limit,
    );
    Ok(Some(ExecutionCommandStatusBundle { state, command, events }))
}

proof fn nothing_shown<T: Listed>(values: Seq<T>)
    ensures
        listing::shown(values, Set::<Seq<char>>::empty()) == Seq::<T>::empty(),
    decreases values.len(),
{
    if values.len() > 0 {
        nothing_shown(values.drop_last());
    }
}

/// Who may see no account is shown nothing.
pub proof fn empty_scope_shows_nothing<T: Listed>(values: Seq<T>, limit: int)
    requires
        limit >= 0,
    ensures
        listing::newest(values, Set::<Seq<char>>::empty(), limit) == Seq::<T>::empty(),
{
    nothing_shown(values);
}

proof fn leading_is_leading(all: Seq<StoredRiskResult>, given: Seq<StoredRiskResult>)
    ensures
        forall|i: int|
            0 <= i < leading(all, given).len() ==> !overtaken(all, #[trigger] leading(all, given)[i]),
    decreases given.len(),
{
    if given.len() > 0 {
        leading_is_leading(all, given.drop_last());
        let before = leading(all, given.drop_last());
        let after = leading(all, given);
        assert forall|i: int| 0 <= i < after.len() implies !overtaken(
            all,
            #[trigger] after[i],
        ) by {
            if i < before.len() {
                assert(after[i] == before[i]);
            }
        }
    }
}

/// Of an intent only the newest decision is ever shown.
pub proof fn overtaken_decisions_are_not_shown(
    values: Seq<StoredRiskResult>,
    accounts: Set<Seq<char>>,
    limit: int,
    result: StoredRiskResult,
)
    requires
        limit >= 0,
        overtaken(listing::shown(values, accounts), result),
    ensures
        !leading_results(values, accounts, limit).contains(result),
{
    let seen = listing::shown(values, accounts);
    let first = leading(seen, seen);
    leading_is_leading(seen, seen);
    listing::sorted_members(first);
    let list = leading_results(values, accounts, limit);
    if list.contains(result) {
        let all = listing::sorted(first);
        let gone = all.len() - list.len();
        let i = choose|i: int| 0 <= i < list.len() && list[i] == result;
        assert(all[gone + i] == result);
        let k = choose|k: int| 0 <= k < first.len() && first[k] == result;
        assert(!overtaken(seen, first[k]));
    }
}

/// Open plans are those that are pending, reconciling, in a person's hands or
/// partly carried out. Those that the reader may see are shown, and no others;
/// only newer ones push one out.
pub proof fn open_plans_are_shown(plans: Seq<StoredExecutionPlan>, accounts: Set<Seq<char>>, limit: int)
    requires
        limit >= 0,
    ensures
        ({
            let list = listing::newest(plans, accounts, limit);
            &&& list.len() <= limit
            &&& forall|k: int| 0 <= k < list.len() ==> {
                let shown = #[trigger] list[k];
                &&& plans.contains(shown)
                &&& accounts.contains(shown.plan.definition.account_id@)
                &&& (shown.plan.state.status@ == "PENDING"@ || shown.plan.state.status@ == "RECONCILING"@
                    || shown.plan.state.status@ == "MANUAL_RECONCILIATION_REQUIRED"@
                    || shown.plan.state.status@ == "PARTIAL"@)
            }
            &&& forall|i: int| 0 <= i < plans.len() ==> {
                let value = #[trigger] plans[i];
                accounts.contains(value.plan.definition.account_id@) && ((value.plan.state.status@ == "PENDING"@ || value.plan.state.status@ == "RECONCILING"@
                    || value.plan.state.status@ == "MANUAL_RECONCILIATION_REQUIRED"@
                    || value.plan.state.status@ == "PARTIAL"@)) ==> list.contains(value) || (list.len() == limit && forall|k: int|
                    0 <= k < list.len() ==> value.updated_at < (#[trigger] list[k]).updated_at || (
                    value.updated_at == list[k].updated_at && !text::precedes(
                        list[k].plan.definition.plan_id@,
                        value.plan.definition.plan_id@,
                    )))
            }
            &&& forall|j: int, k: int|
                0 <= j < k < list.len() ==> (#[trigger] list[j]).updated_at < (
                #[trigger] list[k]).updated_at || (list[j].updated_at == list[k].updated_at && !text::precedes(
                    list[k].plan.definition.plan_id@,
                    list[j].plan.definition.plan_id@,
                ))
        }),
{
    listing::lists_stay_within_bounds(plans, accounts, limit);
    let list = listing::newest(plans, accounts, limit);
    assert forall|i: int| 0 <= i < plans.len() implies {
        let value = #[trigger] plans[i];
        accounts.contains(value.plan.definition.account_id@) && ((value.plan.state.status@ == "PENDING"@ || value.plan.state.status@ == "RECONCILING"@
                    || value.plan.state.status@ == "MANUAL_RECONCILIATION_REQUIRED"@
                    || value.plan.state.status@ == "PARTIAL"@)) ==> list.contains(value) || (list.len() == limit && forall|k: int|
            0 <= k < list.len() ==> value.updated_at < (#[trigger] list[k]).updated_at || (value.updated_at
                == list[k].updated_at && !text::precedes(list[k].plan.definition.plan_id@, value.plan.definition.plan_id@)))
    } by {
        let value = plans[i];
        if accounts.contains(value.plan.definition.account_id@) && ((value.plan.state.status@ == "PENDING"@ || value.plan.state.status@ == "RECONCILING"@
                    || value.plan.state.status@ == "MANUAL_RECONCILIATION_REQUIRED"@
                    || value.plan.state.status@ == "PARTIAL"@)) {
            listing::lists_leave_out_only_older(plans, accounts, limit, i);
            if !list.contains(value) {
                assert forall|k: int| 0 <= k < list.len() implies value.updated_at < (
                #[trigger] list[k]).updated_at || (value.updated_at == list[k].updated_at && !text::precedes(
                    list[k].plan.definition.plan_id@,
                    value.plan.definition.plan_id@,
                )) by {
                    assert(!listing::comes_before(list[k], value));
                }
            }
        }
    }
    assert forall|j: int, k: int| 0 <= j < k < list.len() implies (#[trigger] list[j]).updated_at < (
    #[trigger] list[k]).updated_at || (list[j].updated_at == list[k].updated_at && !text::precedes(
        list[k].plan.definition.plan_id@,
        list[j].plan.definition.plan_id@,
    )) by {
        assert(!listing::comes_before(list[k], list[j]));
    }
}

/// Commands are shown that were neither rejected, nor filled, nor failed, nor
/// expired, nor cancelled, as far as the reader may see them; only newer ones
/// push one out.
pub proof fn unfinished_commands_are_shown(commands: Seq<ExecutionCommandState>, accounts: Set<Seq<char>>, limit: int)
    requires
        limit >= 0,
    ensures
        ({
            let list = listing::newest(commands, accounts, limit);
            &&& list.len() <= limit
            &&& forall|k: int| 0 <= k < list.len() ==> {
                let shown = #[trigger] list[k];
                &&& commands.contains(shown)
                &&& accounts.contains(shown.account_id@)
                &&& (shown.status@ != "REJECTED"@ && shown.status@ != "FILLED"@ && shown.status@ != "FAILED"@
                    && shown.status@ != "EXPIRED"@ && shown.status@ != "CANCELLED"@)
            }
            &&& forall|i: int| 0 <= i < commands.len() ==> {
                let value = #[trigger] commands[i];
                accounts.contains(value.account_id@) && ((value.status@ != "REJECTED"@ && value.status@ != "FILLED"@ && value.status@ != "FAILED"@
                    && value.status@ != "EXPIRED"@ && value.status@ != "CANCELLED"@)) ==> list.contains(value) || (list.len() == limit && forall|k: int|
                    0 <= k < list.len() ==> value.updated_at < (#[trigger] list[k]).updated_at || (
                    value.updated_at == list[k].updated_at && !text::precedes(
                        list[k].command_id@,
                        value.command_id@,
                    )))
            }
            &&& forall|j: int, k: int|
                0 <= j < k < list.len() ==> (#[trigger] list[j]).updated_at < (
                #[trigger] list[k]).updated_at || (list[j].updated_at == list[k].updated_at && !text::precedes(
                    list[k].command_id@,
                    list[j].command_id@,
                ))
        }),
{
    listing::lists_stay_within_bounds(commands, accounts, limit);
    let list = listing::newest(commands, accounts, limit);
    assert forall|i: int| 0 <= i < commands.len() implies {
        let value = #[trigger] commands[i];
        accounts.contains(value.account_id@) && ((value.status@ != "REJECTED"@ && value.status@ != "FILLED"@ && value.status@ != "FAILED"@
                    && value.status@ != "EXPIRED"@ && value.status@ != "CANCELLED"@)) ==> list.contains(value) || (list.len() == limit && forall|k: int|
            0 <= k < list.len() ==> value.updated_at < (#[trigger] list[k]).updated_at || (value.updated_at
                == list[k].updated_at && !text::precedes(list[k].command_id@, value.command_id@)))
    } by {
        let value = commands[i];
        if accounts.contains(value.account_id@) && ((value.status@ != "REJECTED"@ && value.status@ != "FILLED"@ && value.status@ != "FAILED"@
                    && value.status@ != "EXPIRED"@ && value.status@ != "CANCELLED"@)) {
            listing::lists_leave_out_only_older(commands, accounts, limit, i);
            if !list.contains(value) {
                assert forall|k: int| 0 <= k < list.len() implies value.updated_at < (
                #[trigger] list[k]).updated_at || (value.updated_at == list[k].updated_at && !text::precedes(
                    list[k].command_id@,
                    value.command_id@,
                )) by {
                    assert(!listing::comes_before(list[k], value));
                }
            }
        }
    }
    assert forall|j: int, k: int| 0 <= j < k < list.len() implies (#[trigger] list[j]).updated_at < (
    #[trigger] list[k]).updated_at || (list[j].updated_at == list[k].updated_at && !text::precedes(
        list[k].command_id@,
        list[j].command_id@,
    )) by {
        assert(!listing::comes_before(list[k], list[j]));
    }
}

/// The sessions of the accounts that the reader may see are shown; only newer
/// ones push one out.
pub proof fn sessions_are_shown(sessions: Seq<StoredSessionRecord>, accounts: Set<Seq<char>>, limit: int)
    requires
        limit >= 0,
    ensures
        ({
            let list = listing::newest(sessions, accounts, limit);
            &&& list.len() <= limit
            &&& forall|k: int| 0 <= k < list.len() ==> {
                let shown = #[trigger] list[k];
                &&& sessions.contains(shown)
                &&& accounts.contains(shown.account_id@)
            }
            &&& forall|i: int| 0 <= i < sessions.len() ==> {
                let value = #[trigger] sessions[i];
                accounts.contains(value.account_id@) ==> list.contains(value) || (list.len() == limit && forall|k: int|
                    0 <= k < list.len() ==> value.updated_at < (#[trigger] list[k]).updated_at || (
                    value.updated_at == list[k].updated_at && !text::precedes(
                        list[k].session_id@,
                        value.session_id@,
                    )))
            }
            &&& forall|j: int, k: int|
                0 <= j < k < list.len() ==> (#[trigger] list[j]).updated_at < (
                #[trigger] list[k]).updated_at || (list[j].updated_at == list[k].updated_at && !text::precedes(
                    list[k].session_id@,
                    list[j].session_id@,
                ))
        }),
{
    listing::lists_stay_within_bounds(sessions, accounts, limit);
    let list = listing::newest(sessions, accounts, limit);
    assert forall|i: int| 0 <= i < sessions.len() implies {
        let value = #[trigger] sessions[i];
        accounts.contains(value.account_id@) ==> list.contains(value) || (list.len() == limit && forall|k: int|
            0 <= k < list.len() ==> value.updated_at < (#[trigger] list[k]).updated_at || (value.updated_at
                == list[k].updated_at && !text::precedes(list[k].session_id@, value.session_id@)))
    } by {
        let value = sessions[i];
        if accounts.contains(value.account_id@) {
            listing::lists_leave_out_only_older(sessions, accounts, limit, i);
            if !list.contains(value) {
                assert forall|k: int| 0 <= k < list.len() implies value.updated_at < (
                #[trigger] list[k]).updated_at || (value.updated_at == list[k].updated_at && !text::precedes(
                    list[k].session_id@,
                    value.session_id@,
                )) by {
                    assert(!listing::comes_before(list[k], value));
                }
            }
        }
    }
    assert forall|j: int, k: int| 0 <= j < k < list.len() implies (#[trigger] list[j]).updated_at < (
    #[trigger] list[k]).updated_at || (list[j].updated_at == list[k].updated_at && !text::precedes(
        list[k].session_id@,
        list[j].session_id@,
    )) by {
        assert(!listing::comes_before(list[k], list[j]));
    }
}

/// The reports about the accounts that the reader may see are shown; only newer
/// ones push one out.
pub proof fn recent_events_are_shown(events: Seq<StoredExecutionEvent>, accounts: Set<Seq<char>>, limit: int)
    requires
        limit >= 0,
    ensures
        ({
            let list = listing::newest(events, accounts, limit);
            &&& list.len() <= limit
            &&& forall|k: int| 0 <= k < list.len() ==> {
                let shown = #[trigger] list[k];
                &&& events.contains(shown)
                &&& accounts.contains(shown.event.account_id@)
            }
            &&& forall|i: int| 0 <= i < events.len() ==> {
                let value = #[trigger] events[i];
                accounts.contains(value.event.account_id@) ==> list.contains(value) || (list.len() == limit && forall|k: int|
                    0 <= k < list.len() ==> value.event.event_at < (#[trigger] list[k]).event.event_at || (
                    value.event.event_at == list[k].event.event_at && !text::precedes(
                        list[k].event.execution_id@,
                        value.event.execution_id@,
                    )))
            }
            &&& forall|j: int, k: int|
                0 <= j < k < list.len() ==> (#[trigger] list[j]).event.event_at < (
                #[trigger] list[k]).event.event_at || (list[j].event.event_at == list[k].event.event_at && !text::precedes(
                    list[k].event.execution_id@,
                    list[j].event.execution_id@,
                ))
        }),
{
    listing::lists_stay_within_bounds(events, accounts, limit);
    let list = listing::newest(events, accounts, limit);
    assert forall|i: int| 0 <= i < events.len() implies {
        let value = #[trigger] events[i];
        accounts.contains(value.event.account_id@) ==> list.contains(value) || (list.len() == limit && forall|k: int|
            0 <= k < list.len() ==> value.event.event_at < (#[trigger] list[k]).event.event_at || (value.event.event_at
                == list[k].event.event_at && !text::precedes(list[k].event.execution_id@, value.event.execution_id@)))
    } by {
        let value = events[i];
        if accounts.contains(value.event.account_id@) {
            listing::lists_leave_out_only_older(events, accounts, limit, i);
            if !list.contains(value) {
                assert forall|k: int| 0 <= k < list.len() implies value.event.event_at < (
                #[trigger] list[k]).event.event_at || (value.event.event_at == list[k].event.event_at && !text::precedes(
                    list[k].event.execution_id@,
                    value.event.execution_id@,
                )) by {
                    assert(!listing::comes_before(list[k], value));
                }
            }
        }
    }
    assert forall|j: int, k: int| 0 <= j < k < list.len() implies (#[trigger] list[j]).event.event_at < (
    #[trigger] list[k]).event.event_at || (list[j].event.event_at == list[k].event.event_at && !text::precedes(
        list[k].event.execution_id@,
        list[j].event.execution_id@,
    )) by {
        assert(!listing::comes_before(list[k], list[j]));
    }
}

/// The newest decision about an intent, and its newest plan: one of those that
/// there are, and none is newer.
pub proof fn workflow_status_is_the_newest(
    risk_results: Seq<StoredRiskResult>,
    plans: Seq<StoredExecutionPlan>,
)
    ensures
        listing::newest_one(risk_results) is None <==> risk_results.len() == 0,
        listing::newest_one(risk_results) matches Some(found) ==> risk_results.contains(found)
            && forall|i: int|
            0 <= i < risk_results.len() ==> (#[trigger] risk_results[i]).result.evaluated_at
                < found.result.evaluated_at || (risk_results[i].result.evaluated_at
                == found.result.evaluated_at && !text::precedes(
                found.result.risk_id@,
                risk_results[i].result.risk_id@,
            )),
        listing::newest_one(plans) is None <==> plans.len() == 0,
        listing::newest_one(plans) matches Some(found) ==> plans.contains(found) && forall|i: int|
            0 <= i < plans.len() ==> (#[trigger] plans[i]).updated_at < found.updated_at || (
            plans[i].updated_at == found.updated_at && !text::precedes(
                found.plan.definition.plan_id@,
                plans[i].plan.definition.plan_id@,
            )),
{
    listing::newest_one_is_newest(risk_results);
    listing::newest_one_is_newest(plans);
    if risk_results.len() > 0 {
        let found = listing::newest_one(risk_results)->0;
        assert forall|i: int| 0 <= i < risk_results.len() implies (
        #[trigger] risk_results[i]).result.evaluated_at < found.result.evaluated_at || (
        risk_results[i].result.evaluated_at == found.result.evaluated_at && !text::precedes(
            found.result.risk_id@,
            risk_results[i].result.risk_id@,
        )) by {
            assert(!listing::comes_before(found, risk_results[i]));
        }
    }
    if plans.len() > 0 {
        let found = listing::newest_one(plans)->0;
        assert forall|i: int| 0 <= i < plans.len() implies (#[trigger] plans[i]).updated_at
            < found.updated_at || (plans[i].updated_at == found.updated_at && !text::precedes(
            found.plan.definition.plan_id@,
            plans[i].plan.definition.plan_id@,
        )) by {
            assert(!listing::comes_before(found, plans[i]));
        }
    }
}

/// The commands of a plan are those that name the plan, and no others.
pub proof fn plan_commands_name_the_plan(
    commands: Seq<PlanCommand>,
    plan_id: Seq<char>,
    command_id: Seq<char>,
)
    ensures
        commands_of_plan(commands, plan_id).contains(command_id) <==> exists|i: int|
            0 <= i < commands.len() && (#[trigger] commands[i]).command_id@ == command_id
                && commands[i].plan_id is Some && (commands[i].plan_id->0)@ == plan_id,
    decreases commands.len(),
{
    if commands.len() > 0 {
        let shorter = commands.drop_last();
        plan_commands_name_the_plan(shorter, plan_id, command_id);
        let before = commands_of_plan(shorter, plan_id);
        let after = commands_of_plan(commands, plan_id);
        if before.contains(command_id) {
            let k = choose|k: int| 0 <= k < before.len() && before[k] == command_id;
            assert(after[k] == command_id);
            let i = choose|i: int|
                0 <= i < shorter.len() && (#[trigger] shorter[i]).command_id@ == command_id
                    && shorter[i].plan_id is Some && (shorter[i].plan_id->0)@ == plan_id;
            assert(commands[i] == shorter[i]);
        }
        if after.contains(command_id) {
            let k = choose|k: int| 0 <= k < after.len() && after[k] == command_id;
            if k < before.len() {
                assert(before[k] == command_id);
            } else {
                assert(commands[commands.len() - 1] == commands.last());
            }
        }
        if exists|i: int|
            0 <= i < commands.len() && (#[trigger] commands[i]).command_id@ == command_id
                && commands[i].plan_id is Some && (commands[i].plan_id->0)@ == plan_id {
            let i = choose|i: int|
                0 <= i < commands.len() && (#[trigger] commands[i]).command_id@ == command_id
                    && commands[i].plan_id is Some && (commands[i].plan_id->0)@ == plan_id;
            if i == commands.len() - 1 {
                assert(after[after.len() - 1] == command_id);
            } else {
                assert(shorter[i] == commands[i]);
            }
        }
    }
}

/// The reports about a command are those that name the command and its account,
/// and no others.
pub proof fn reports_name_the_command(
    events: Seq<StoredExecutionEvent>,
    command_id: Seq<char>,
    account_id: Seq<char>,
    event: StoredExecutionEvent,
)
    ensures
        reports_about(events, command_id, account_id).contains(event) <==> events.contains(event)
            && event.event.command_id@ == command_id && event.event.account_id@ == account_id,
    decreases events.len(),
{
    if events.len() > 0 {
        let shorter = events.drop_last();
        reports_name_the_command(shorter, command_id, account_id, event);
        let before = reports_about(shorter, command_id, account_id);
        let after = reports_about(events, command_id, account_id);
        if before.contains(event) {
            let k = choose|k: int| 0 <= k < before.len() && before[k] == event;
            assert(after[k] == event);
        }
        if shorter.contains(event) {
            let i = choose|i: int| 0 <= i < shorter.len() && shorter[i] == event;
            assert(events[i] == event);
        }
        if after.contains(event) {
            let k = choose|k: int| 0 <= k < after.len() && after[k] == event;
            if k < before.len() {
                assert(before[k] == event);
            } else {
                assert(events[events.len() - 1] == event);
            }
        }
        if events.contains(event) && event.event.command_id@ == command_id
            && event.event.account_id@ == account_id {
            let i = choose|i: int| 0 <= i < events.len() && events[i] == event;
            if i == events.len() - 1 {
                assert(after[after.len() - 1] == event);
            } else {
                assert(shorter[i] == event);
            }
        }
    }
}

proof fn leading_is_not_overtaken(
    all: Seq<StoredRiskResult>,
    given: Seq<StoredRiskResult>,
    result: StoredRiskResult,
)
    ensures
        leading(all, given).contains(result) <==> given.contains(result) && !overtaken(
            all,
            result,
        ),
    decreases given.len(),
{
    if given.len() > 0 {
        let shorter = given.drop_last();
        leading_is_not_overtaken(all, shorter, result);
        let before = leading(all, shorter);
        let after = leading(all, given);
        if before.contains(result) {
            let k = choose|k: int| 0 <= k < before.len() && before[k] == result;
            assert(after[k] == result);
        }
        if shorter.contains(result) {
            let i = choose|i: int| 0 <= i < shorter.len() && shorter[i] == result;
            assert(given[i] == result);
        }
        if after.contains(result) {
            let k = choose|k: int| 0 <= k < after.len() && after[k] == result;
            if k < before.len() {
                assert(before[k] == result);
            } else {
                assert(given[given.len() - 1] == result);
            }
        }
        if given.contains(result) && !overtaken(all, result) {
            let i = choose|i: int| 0 <= i < given.len() && given[i] == result;
            if i == given.len() - 1 {
                assert(after[after.len() - 1] == result);
            } else {
                assert(shorter[i] == result);
            }
        }
    }
}

/// Of the decisions about one intent only the newest is shown: whatever is
/// shown is a decision that may be seen, and no decision that may be seen and is
/// about the same intent was made later.
pub proof fn newest_decisions_are_shown(
    values: Seq<StoredRiskResult>,
    accounts: Set<Seq<char>>,
    limit: int,
)
    requires
        limit >= 0,
    ensures
        ({
            let list = leading_results(values, accounts, limit);
            &&& list.len() <= limit
            &&& forall|k: int| 0 <= k < list.len() ==> {
                let shown = #[trigger] list[k];
                &&& values.contains(shown)
                &&& accounts.contains(shown.result.account_id@)
                &&& forall|i: int|
                    0 <= i < values.len() && accounts.contains(
                        (#[trigger] values[i]).result.account_id@,
                    ) && values[i].result.intent_id@ == shown.result.intent_id@
                        ==> values[i].result.evaluated_at < shown.result.evaluated_at || (
                    values[i].result.evaluated_at == shown.result.evaluated_at && !text::precedes(
                        shown.result.risk_id@,
                        values[i].result.risk_id@,
                    ))
            }
            &&& forall|j: int, k: int|
                0 <= j < k < list.len() ==> (#[trigger] list[j]).result.evaluated_at <= (
                #[trigger] list[k]).result.evaluated_at
        }),
{
    let seen = listing::shown(values, accounts);
    let kept = leading(seen, seen);
    let all = listing::sorted(kept);
    let list = leading_results(values, accounts, limit);
    listing::sorted_members(kept);
    listing::sorted_is_ordered(kept);
    let gone = all.len() - list.len();
    assert forall|k: int| 0 <= k < list.len() implies {
        let shown = #[trigger] list[k];
        &&& values.contains(shown)
        &&& accounts.contains(shown.result.account_id@)
        &&& forall|i: int|
            0 <= i < values.len() && accounts.contains((#[trigger] values[i]).result.account_id@)
                && values[i].result.intent_id@ == shown.result.intent_id@
                ==> values[i].result.evaluated_at < shown.result.evaluated_at || (
            values[i].result.evaluated_at == shown.result.evaluated_at && !text::precedes(
                shown.result.risk_id@,
                values[i].result.risk_id@,
            ))
    } by {
        let shown = list[k];
        assert(list[k] == all[gone + k]);
        assert(kept.contains(all[gone + k]));
        leading_is_not_overtaken(seen, seen, shown);
        listing::shown_are_seen(values, accounts, shown);
        assert forall|i: int|
            0 <= i < values.len() && accounts.contains((#[trigger] values[i]).result.account_id@)
                && values[i].result.intent_id@ == shown.result.intent_id@ implies
            values[i].result.evaluated_at < shown.result.evaluated_at || (
        values[i].result.evaluated_at == shown.result.evaluated_at && !text::precedes(
            shown.result.risk_id@,
            values[i].result.risk_id@,
        )) by {
            listing::shown_are_seen(values, accounts, values[i]);
            let s = choose|s: int| 0 <= s < seen.len() && seen[s] == values[i];
            assert(seen[s].result.intent_id@ == shown.result.intent_id@);
            assert(!listing::comes_before(shown, seen[s]));
        }
    }
    assert forall|j: int, k: int| 0 <= j < k < list.len() implies (
    #[trigger] list[j]).result.evaluated_at <= (#[trigger] list[k]).result.evaluated_at by {
        assert(list[j] == all[gone + j]);
        assert(list[k] == all[gone + k]);
        assert(!listing::comes_before(all[gone + k], all[gone + j]));
    }
}

/// A command is answered only to a reader who may see its account, and only if
/// the command and its state are of one account.
pub proof fn commands_are_answered_to_their_readers(
    state: ExecutionCommandState,
    command: Option<StoredExecutionCommand>,
    accounts: Set<Seq<char>>,
)
    ensures
        state_allowed(Some(state), accounts) <==> accounts.contains(state.account_id@),
        !state_allowed(None, accounts),
        command_belongs(state, command) <==> (command matches Some(found)
            && found.command.account_id@ == state.account_id@),
{
}

/// A query asks for at least one record of each kind, and for no more than can be
/// counted.
pub proof fn queries_ask_for_something(
    limits: ControlPlaneStateLimits,
    field: Seq<char>,
    value: usize,
)
    ensures
        limits_fault(limits) is None <==> {
            &&& 1 <= limits.sessions <= i64::MAX
            &&& 1 <= limits.open_plans <= i64::MAX
            &&& 1 <= limits.pending_commands <= i64::MAX
            &&& 1 <= limits.recent_events <= i64::MAX
            &&& 1 <= limits.latest_risk_results <= i64::MAX
        },
        query_limit_fault(field, value) is None <==> 1 <= value <= i64::MAX,
{
}

/// The commands that are shown of a workflow are those of its newest plan, in
/// order, and none without a plan.
pub proof fn shown_commands_are_of_the_newest_plan(
    plans: Seq<StoredExecutionPlan>,
    commands: Seq<PlanCommand>,
)
    ensures
        listing::newest_one(plans) is None ==> newest_commands(plans, commands).len() == 0,
        listing::newest_one(plans) matches Some(plan) ==> newest_commands(
            plans,
            commands,
        ).to_multiset() == commands_of_plan(
            commands,
            plan.plan.definition.plan_id@,
        ).to_multiset() && (commands_of_plan(
            commands,
            plan.plan.definition.plan_id@,
        ).no_duplicates() ==> forall|i: int, j: int|
            0 <= i < j < newest_commands(plans, commands).len() ==> text::precedes(
                #[trigger] newest_commands(plans, commands)[i],
                #[trigger] newest_commands(plans, commands)[j],
            )),
{
    if listing::newest_one(plans) is Some {
        let plan = listing::newest_one(plans)->0;
        let list = commands_of_plan(commands, plan.plan.definition.plan_id@);
        text::ascending_is_a_rearrangement(list);
        if list.no_duplicates() {
            text::ascending_is_sorted(list);
        }
    }
}

/// A decision leads if no other about the same intent is newer, and of those of
/// the same time none has a name that comes after its own; each that leads is
/// kept.
pub proof fn leading_decisions_are_kept(
    all: Seq<StoredRiskResult>,
    given: Seq<StoredRiskResult>,
    i: int,
)
    requires
        0 <= i < given.len(),
        forall|k: int|
            0 <= k < all.len() && (#[trigger] all[k]).result.intent_id@
                == given[i].result.intent_id@ ==> all[k].result.evaluated_at
                < given[i].result.evaluated_at || (all[k].result.evaluated_at
                == given[i].result.evaluated_at && !text::precedes(
                given[i].result.risk_id@,
                all[k].result.risk_id@,
            )),
    ensures
        leading(all, given).contains(given[i]),
    decreases given.len(),
{
    let rest = given.drop_last();
    let before = leading(all, rest);
    let kept = leading(all, given);
    assert(!overtaken(all, given[i]));
    if i < rest.len() {
        assert(rest[i] == given[i]);
        leading_decisions_are_kept(all, rest, i);
        let k = choose|k: int| 0 <= k < before.len() && before[k] == given[i];
        assert(kept[k] == given[i]);
    } else {
        assert(kept[kept.len() - 1] == given[i]);
    }
}

}
