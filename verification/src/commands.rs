//! Commands, their states, and the events that report on them.

use vstd::prelude::*;
use vstd::string::*;

use crate::columns;
use crate::columns::{
    copy_enum_column, deserialize_payload, parse_enum_column, same_time, validate_column, validate_i64_column,
    validate_optional_column, validate_optional_i64_column, EnumColumn, JsonColumns,
};
use crate::domain::{AccountId, CommandId, ExecutionId, LegId, PlanId, RiskId};
use crate::error;
use crate::error::{Fault, StoreError};
use crate::json;
use crate::json::CanonicalJson;
use crate::model::WriteOutcome;
use crate::text;
use crate::text::{copy_optional, join2, same_optional, same_text};
use crate::trading::{
    CommandStateUpdate, ExecutionCommand, ExecutionCommandState, ExecutionEvent,
    NewExecutionCommand, NewExecutionEvent, StoredExecutionCommand, StoredExecutionEvent,
};

verus! {

/// The key of a command and of its state.
pub open spec fn command_key(command_id: Seq<char>) -> Seq<char> {
    "command_id="@ + command_id
}

/// A row of the commands, with what the domain reads from its payload.
pub struct CommandRow {
    pub command_id: CommandId,
    pub risk_id: RiskId,
    pub plan_id: Option<String>,
    pub leg_id: Option<String>,
    pub account_id: String,
    pub client_id: Option<String>,
    pub terminal_id: Option<String>,
    pub symbol: String,
    pub action: String,
    pub expires_at: i64,
    pub idempotency_key: String,
    pub payload: JsonColumns,
    pub hmac: String,
    pub created_at: i64,
    pub command: Result<ExecutionCommand, String>,
}

/// What is wrong with a row of the commands.
pub open spec fn command_row_fault(row: CommandRow) -> Option<Fault> {
    let e = "execution_command"@;
    let key = row.command_id@;
    let command = row.command->Ok_0;
    let f = json::stored_fault(e, key, row.payload.text@, row.payload.digest@);
    let f = error::first_of(f, columns::decode_fault(e, key, row.command));
    let f = error::first_of(
        f,
        columns::column_fault(e, key, "command_id"@, key == command.command_id@),
    );
    let f = error::first_of(
        f,
        columns::column_fault(
            e,
            key,
            "plan_id"@,
            text::optional_text(row.plan_id) == text::optional_text(command.plan_id),
        ),
    );
    let f = error::first_of(
        f,
        columns::column_fault(
            e,
            key,
            "leg_id"@,
            text::optional_text(row.leg_id) == text::optional_text(command.leg_id),
        ),
    );
    let f = error::first_of(
        f,
        columns::column_fault(e, key, "account_id"@, row.account_id@ == command.account_id@),
    );
    let f = error::first_of(
        f,
        columns::column_fault(
            e,
            key,
            "client_id"@,
            text::optional_text(row.client_id) == text::optional_text(command.client_id),
        ),
    );
    let f = error::first_of(
        f,
        columns::column_fault(
            e,
            key,
            "terminal_id"@,
            text::optional_text(row.terminal_id) == text::optional_text(command.terminal_id),
        ),
    );
    let f = error::first_of(
        f,
        columns::column_fault(e, key, "symbol"@, row.symbol@ == command.symbol@),
    );
    let f = error::first_of(
        f,
        columns::column_fault(e, key, "action"@, row.action@ == command.action@),
    );
    let f = error::first_of(
        f,
        columns::column_fault(e, key, "expires_at"@, row.expires_at == command.expires_at),
    );
    let f = error::first_of(
        f,
        columns::column_fault(
            e,
            key,
            "idempotency_key"@,
            row.idempotency_key@ == command.idempotency_key@,
        ),
    );
    let f = error::first_of(
        f,
        columns::column_fault(e, key, "hmac"@, row.hmac@ == command.hmac@),
    );
    f
}

/// The command holds what the row holds.
pub open spec fn command_of_row(row: CommandRow, stored: StoredExecutionCommand) -> bool {
    &&& stored == StoredExecutionCommand {
        command: row.command->Ok_0,
        risk_id: row.risk_id,
        payload: stored.payload,
        created_at: row.created_at,
    }
    &&& stored.payload@ == row.payload.text@
    &&& stored.command.command_id@ == row.command_id@
}

/// Reads a command.
pub fn execution_command_from_row(row: CommandRow) -> (r: Result<
    StoredExecutionCommand,
    StoreError,
>)
    ensures
        error::fault(r) == command_row_fault(row),
        r matches Ok(stored) ==> command_of_row(row, stored),
{
    let entity = "execution_command";
    let key = row.command_id;
    let payload = CanonicalJson::from_stored(
        entity,
        key.as_str(),
        row.payload.text,
        row.payload.digest,
    )?;
    let command = deserialize_payload(entity, key.as_str(), row.command)?;
    validate_column(entity, key.as_str(), "command_id", key.as_str(), command.command_id.as_str())?;
    validate_optional_column(entity, key.as_str(), "plan_id", &row.plan_id, &command.plan_id)?;
    validate_optional_column(entity, key.as_str(), "leg_id", &row.leg_id, &command.leg_id)?;
    validate_column(
        entity,
        key.as_str(),
        "account_id",
        row.account_id.as_str(),
        command.account_id.as_str(),
    )?;
    validate_optional_column(
        entity,
        key.as_str(),
        "client_id",
        &row.client_id,
        &command.client_id,
    )?;
    validate_optional_column(
        entity,
        key.as_str(),
        "terminal_id",
        &row.terminal_id,
        &command.terminal_id,
    )?;
    validate_column(entity, key.as_str(), "symbol", row.symbol.as_str(), command.symbol.as_str())?;
    validate_column(entity, key.as_str(), "action", row.action.as_str(), command.action.as_str())?;
    validate_i64_column(entity, key.as_str(), "expires_at", row.expires_at, command.expires_at)?;
    validate_column(
        entity,
        key.as_str(),
        "idempotency_key",
        row.idempotency_key.as_str(),
        command.idempotency_key.as_str(),
    )?;
    validate_column(entity, key.as_str(), "hmac", row.hmac.as_str(), command.hmac.as_str())?;
    Ok(
        StoredExecutionCommand {
            command,
            risk_id: row.risk_id,
            payload,
            created_at: row.created_at,
        },
    )
}

/// The record of a command that is stored for the first time.
pub fn new_execution_command_record(new_command: NewExecutionCommand, payload: CanonicalJson) -> (r:
    StoredExecutionCommand)
    ensures
        r == (StoredExecutionCommand {
            command: new_command.command,
            risk_id: new_command.risk_id,
            payload,
            created_at: new_command.created_at,
        }),
{
    StoredExecutionCommand {
        command: new_command.command,
        risk_id: new_command.risk_id,
        payload,
        created_at: new_command.created_at,
    }
}

/// The stored command is the incoming one.
pub open spec fn same_command_record(
    existing: StoredExecutionCommand,
    incoming: NewExecutionCommand,
    payload: Seq<char>,
) -> bool {
    &&& existing.command.command_id@ == incoming.command.command_id@
    &&& existing.command.idempotency_key@ == incoming.command.idempotency_key@
    &&& existing.risk_id@ == incoming.risk_id@
    &&& existing.payload@ == payload
}

/// Some stored command has this name.
pub open spec fn command_taken(existing: Seq<StoredExecutionCommand>, command_id: Seq<char>) -> bool {
    exists|i: int|
        0 <= i < existing.len() && (#[trigger] existing[i]).command.command_id@ == command_id
}

/// Decides about a command whose name or idempotency key is taken. `existing`
/// holds the stored commands that share either with it.
pub fn resolve_execution_command_replay(
    existing: Vec<StoredExecutionCommand>,
    incoming: &NewExecutionCommand,
    payload: &CanonicalJson,
) -> (r: Result<WriteOutcome<StoredExecutionCommand>, StoreError>)
    ensures
        error::fault(r) == (if existing@.len() == 1 && same_command_record(
            existing@[0],
            *incoming,
            payload@,
        ) {
            None
        } else {
            Some(
                error::conflict_fault(
                    "execution_command"@,
                    if command_taken(existing@, incoming.command.command_id@) {
                        command_key(incoming.command.command_id@)
                    } else {
                        "idempotency_key="@ + incoming.command.idempotency_key@
                    },
                ),
            )
        }),
        r matches Ok(outcome) ==> outcome == WriteOutcome::Duplicate(existing@[0]),
{
    let command = &incoming.command;
    let mut rows = existing;
    if rows.len() == 1 && same_text(
        rows[0].command.command_id.as_str(),
        command.command_id.as_str(),
    ) && same_text(
        rows[0].command.idempotency_key.as_str(),
        command.idempotency_key.as_str(),
    ) && same_text(rows[0].risk_id.as_str(), incoming.risk_id.as_str()) && rows[0].payload.same(
        payload,
    ) {
        let only = rows.remove(0);
        return Ok(WriteOutcome::Duplicate(only));
    }
    let mut i: usize = 0;
    while i < rows.len()
        invariant
            i <= rows.len(),
            rows == existing,
            *command == incoming.command,
            !(existing@.len() == 1 && same_command_record(existing@[0], *incoming, payload@)),
            forall|j: int|
                0 <= j < i ==> (#[trigger] existing@[j]).command.command_id@
                    != command.command_id@,
        decreases rows.len() - i,
    {
        if same_text(rows[i].command.command_id.as_str(), command.command_id.as_str()) {
            assert(command_taken(existing@, command.command_id@));
            let key = join2("command_id=", command.command_id.as_str());
            return Err(StoreError::conflict("execution_command", key.as_str()));
        }
        i = i + 1;
    }
    let key = join2("idempotency_key=", command.idempotency_key.as_str());
    Err(StoreError::conflict("execution_command", key.as_str()))
}

/// A row of the command states.
pub struct CommandStateRow {
    pub command_id: CommandId,
    pub account_id: AccountId,
    pub plan_id: Option<PlanId>,
    pub leg_id: Option<LegId>,
    pub status: EnumColumn<String>,
    pub delivery_attempts: i64,
    pub last_delivery_error: Option<String>,
    pub created_at: i64,
    pub dispatched_at: Option<i64>,
    pub command_received_at: Option<i64>,
    pub reconciling_at: Option<i64>,
    pub completed_at: Option<i64>,
    pub updated_at: i64,
}

impl Clone for CommandStateRow {
    fn clone(&self) -> (r: Self)
        ensures
            r == *self,
    {
        CommandStateRow {
            command_id: self.command_id.clone(),
            account_id: self.account_id.clone(),
            plan_id: copy_optional(&self.plan_id),
            leg_id: copy_optional(&self.leg_id),
            status: copy_enum_column(&self.status),
            delivery_attempts: self.delivery_attempts,
            last_delivery_error: copy_optional(&self.last_delivery_error),
            created_at: self.created_at,
            dispatched_at: self.dispatched_at,
            command_received_at: self.command_received_at,
            reconciling_at: self.reconciling_at,
            completed_at: self.completed_at,
            updated_at: self.updated_at,
        }
    }
}

/// What is wrong with a row of the command states.
pub open spec fn command_state_row_fault(row: CommandStateRow) -> Option<Fault> {
    let e = "execution_command_state"@;
    if !(0 <= row.delivery_attempts <= u32::MAX) {
        Some(
            error::corrupt_fault(
                e,
                row.command_id@,
                "delivery_attempts does not fit in u32"@,
            ),
        )
    } else {
        columns::enum_fault(e, row.command_id@, "status"@, row.status)
    }
}

/// Reads the state of a command.
pub fn execution_command_state_from_row(row: CommandStateRow) -> (r: Result<
    ExecutionCommandState,
    StoreError,
>)
    ensures
        error::fault(r) == command_state_row_fault(row),
        r matches Ok(state) ==> state == (ExecutionCommandState {
            command_id: row.command_id,
            account_id: row.account_id,
            plan_id: row.plan_id,
            leg_id: row.leg_id,
            status: row.status.parsed->Ok_0,
            delivery_attempts: row.delivery_attempts as u32,
            last_delivery_error: row.last_delivery_error,
            created_at: row.created_at,
            dispatched_at: row.dispatched_at,
            command_received_at: row.command_received_at,
            reconciling_at: row.reconciling_at,
            completed_at: row.completed_at,
            updated_at: row.updated_at,
        }),
{
    if row.delivery_attempts < 0 || row.delivery_attempts > 0xffff_ffff {
        return Err(
            StoreError::corrupt(
                "execution_command_state",
                row.command_id.as_str(),
                "delivery_attempts does not fit in u32",
            ),
        );
    }
    let status = parse_enum_column(
        "execution_command_state",
        row.command_id.as_str(),
        "status",
        row.status,
    )?;
    Ok(
        ExecutionCommandState {
            command_id: row.command_id,
            account_id: row.account_id,
            plan_id: row.plan_id,
            leg_id: row.leg_id,
            status,
            delivery_attempts: row.delivery_attempts as u32,
            last_delivery_error: row.last_delivery_error,
            created_at: row.created_at,
            dispatched_at: row.dispatched_at,
            command_received_at: row.command_received_at,
            reconciling_at: row.reconciling_at,
            completed_at: row.completed_at,
            updated_at: row.updated_at,
        },
    )
}

/// Two states are of one command.
pub open spec fn state_of_same_command(a: ExecutionCommandState, b: ExecutionCommandState) -> bool {
    &&& a.command_id@ == b.command_id@
    &&& a.account_id@ == b.account_id@
    &&& text::optional_text(a.plan_id) == text::optional_text(b.plan_id)
    &&& text::optional_text(a.leg_id) == text::optional_text(b.leg_id)
    &&& a.created_at == b.created_at
}

/// Whether two states are of one command.
pub fn same_command_state_identity(
    existing: &ExecutionCommandState,
    proposed: &ExecutionCommandState,
) -> (r: bool)
    ensures
        r == state_of_same_command(*existing, *proposed),
{
    same_text(existing.command_id.as_str(), proposed.command_id.as_str()) && same_text(
        existing.account_id.as_str(),
        proposed.account_id.as_str(),
    ) && same_optional(&existing.plan_id, &proposed.plan_id) && same_optional(
        &existing.leg_id,
        &proposed.leg_id,
    ) && existing.created_at == proposed.created_at
}

/// Two states are the same in every field.
pub open spec fn same_state(a: ExecutionCommandState, b: ExecutionCommandState) -> bool {
    &&& state_of_same_command(a, b)
    &&& a.status@ == b.status@
    &&& a.delivery_attempts == b.delivery_attempts
    &&& text::optional_text(a.last_delivery_error) == text::optional_text(b.last_delivery_error)
    &&& a.dispatched_at == b.dispatched_at
    &&& a.command_received_at == b.command_received_at
    &&& a.reconciling_at == b.reconciling_at
    &&& a.completed_at == b.completed_at
    &&& a.updated_at == b.updated_at
}

fn is_same_state(a: &ExecutionCommandState, b: &ExecutionCommandState) -> (r: bool)
    ensures
        r == same_state(*a, *b),
{
    same_command_state_identity(a, b) && same_text(a.status.as_str(), b.status.as_str())
        && a.delivery_attempts == b.delivery_attempts && same_optional(
        &a.last_delivery_error,
        &b.last_delivery_error,
    ) && same_time(a.dispatched_at, b.dispatched_at) && same_time(
        a.command_received_at,
        b.command_received_at,
    ) && same_time(a.reconciling_at, b.reconciling_at) && same_time(a.completed_at, b.completed_at)
        && a.updated_at == b.updated_at
}

/// What the row of a command says about whose command it is.
pub struct CommandIdentity {
    pub account_id: String,
    pub plan_id: Option<String>,
    pub leg_id: Option<String>,
    pub created_at: i64,
}

/// What is wrong with the state of a stored command.
pub open spec fn state_identity_fault(
    command: Option<CommandIdentity>,
    state: ExecutionCommandState,
) -> Option<Fault> {
    let key = command_key(state.command_id@);
    match command {
        None => Some(error::missing_fault("execution_command"@, key)),
        Some(command) => if command.account_id@ == state.account_id@ && text::optional_text(
            command.plan_id,
        ) == text::optional_text(state.plan_id) && text::optional_text(command.leg_id)
            == text::optional_text(state.leg_id) && command.created_at == state.created_at {
            None
        } else {
            Some(error::conflict_fault("execution_command_state"@, key))
        },
    }
}

/// Refuses a state that is not of the command that it names.
pub fn validate_command_state_identity(
    command: &Option<CommandIdentity>,
    state: &ExecutionCommandState,
) -> (r: Result<(), StoreError>)
    ensures
        error::fault(r) == state_identity_fault(*command, *state),
{
    let key = join2("command_id=", state.command_id.as_str());
    match command {
        None => Err(StoreError::missing("execution_command", key.as_str())),
        Some(command) => {
            if same_text(command.account_id.as_str(), state.account_id.as_str()) && same_optional(
                &command.plan_id,
                &state.plan_id,
            ) && same_optional(&command.leg_id, &state.leg_id) && command.created_at
                == state.created_at {
                Ok(())
            } else {
                Err(StoreError::conflict("execution_command_state", key.as_str()))
            }
        },
    }
}

/// A first state may be written again: it is the stored one, or the stored one
/// has since gone on from it.
pub open spec fn state_replays(
    existing: Option<ExecutionCommandState>,
    state: ExecutionCommandState,
) -> bool {
    existing matches Some(existing) && (same_state(existing, state) || (state_of_same_command(
        existing,
        state,
    ) && existing.updated_at > state.updated_at))
}

/// Decides about a first state of a command that has a state already.
pub fn resolve_command_state_replay(
    existing: Option<ExecutionCommandState>,
    state: &ExecutionCommandState,
) -> (r: Result<WriteOutcome<ExecutionCommandState>, StoreError>)
    ensures
        error::fault(r) == (if state_replays(existing, *state) {
            None
        } else {
            Some(
                error::conflict_fault("execution_command_state"@, command_key(state.command_id@)),
            )
        }),
        r matches Ok(outcome) ==> outcome == WriteOutcome::Duplicate(existing->0),
{
    if let Some(stored) = existing {
        if is_same_state(&stored, state) || (same_command_state_identity(&stored, state)
            && stored.updated_at > state.updated_at) {
            return Ok(WriteOutcome::Duplicate(stored));
        }
    }
    let key = join2("command_id=", state.command_id.as_str());
    Err(StoreError::conflict("execution_command_state", key.as_str()))
}

/// The change finds the state of the command as it expects it.
pub open spec fn state_expected(
    current: ExecutionCommandState,
    update: CommandStateUpdate,
) -> bool {
    &&& state_of_same_command(current, update.state)
    &&& current.status@ == update.expected_status@
    &&& current.updated_at == update.expected_updated_at
    &&& current.updated_at < update.state.updated_at
}

/// What is wrong with a change of the state of a command.
pub open spec fn state_update_fault(
    current: Option<ExecutionCommandState>,
    update: CommandStateUpdate,
) -> Option<Fault> {
    let key = command_key(update.state.command_id@);
    match current {
        None => Some(error::missing_fault("execution_command_state"@, key)),
        Some(current) => if state_expected(current, update) || same_state(current, update.state) {
            None
        } else if !state_of_same_command(current, update.state) {
            Some(error::conflict_fault("execution_command_state"@, key))
        } else {
            Some(error::stale_fault("execution_command_state"@, key))
        },
    }
}

/// Changes the state of a command.
pub fn update_execution_command_state(
    current: &Option<ExecutionCommandState>,
    update: CommandStateUpdate,
) -> (r: Result<ExecutionCommandState, StoreError>)
    ensures
        error::fault(r) == state_update_fault(*current, update),
        r matches Ok(state) ==> state == update.state,
{
    let key = join2("command_id=", update.state.command_id.as_str());
    let current = match current {
        Some(current) => current,
        None => {
            return Err(StoreError::missing("execution_command_state", key.as_str()));
        },
    };
    let same_command = same_command_state_identity(current, &update.state);
    if same_command && same_text(current.status.as_str(), update.expected_status.as_str())
        && current.updated_at == update.expected_updated_at && current.updated_at
        < update.state.updated_at {
        return Ok(update.state);
    }
    if is_same_state(current, &update.state) {
        return Ok(update.state);
    }
    if same_command {
        Err(StoreError::stale("execution_command_state", key.as_str()))
    } else {
        Err(StoreError::conflict("execution_command_state", key.as_str()))
    }
}

/// A row of the execution events, with what the domain reads from its payload.
pub struct ExecutionEventRow {
    pub execution_id: ExecutionId,
    pub command_id: String,
    pub plan_id: Option<String>,
    pub leg_id: Option<String>,
    pub account_id: String,
    pub status: String,
    pub broker_order_id: Option<String>,
    pub position_ticket: Option<String>,
    pub event_at: i64,
    pub filled_at: Option<i64>,
    pub payload: JsonColumns,
    pub created_at: i64,
    pub event: Result<ExecutionEvent, String>,
}

/// What is wrong with a row of the execution events.
pub open spec fn event_row_fault(row: ExecutionEventRow) -> Option<Fault> {
    let e = "execution_event"@;
    let key = row.execution_id@;
    let event = row.event->Ok_0;
    let f = json::stored_fault(e, key, row.payload.text@, row.payload.digest@);
    let f = error::first_of(f, columns::decode_fault(e, key, row.event));
    let f = error::first_of(
        f,
        columns::column_fault(e, key, "execution_id"@, key == event.execution_id@),
    );
    let f = error::first_of(
        f,
        columns::column_fault(e, key, "command_id"@, row.command_id@ == event.command_id@),
    );
    let f = error::first_of(
        f,
        columns::column_fault(
            e,
            key,
            "plan_id"@,
            text::optional_text(row.plan_id) == text::optional_text(event.plan_id),
        ),
    );
    let f = error::first_of(
        f,
        columns::column_fault(
            e,
            key,
            "leg_id"@,
            text::optional_text(row.leg_id) == text::optional_text(event.leg_id),
        ),
    );
    let f = error::first_of(
        f,
        columns::column_fault(e, key, "account_id"@, row.account_id@ == event.account_id@),
    );
    let f = error::first_of(
        f,
        columns::column_fault(e, key, "status"@, row.status@ == event.status@),
    );
    let f = error::first_of(
        f,
        columns::column_fault(
            e,
            key,
            "broker_order_id"@,
            text::optional_text(row.broker_order_id) == text::optional_text(event.broker_order_id),
        ),
    );
    let f = error::first_of(
        f,
        columns::column_fault(
            e,
            key,
            "position_ticket"@,
            text::optional_text(row.position_ticket) == text::optional_text(event.position_ticket),
        ),
    );
    let f = error::first_of(
        f,
        columns::column_fault(e, key, "event_at"@, row.event_at == event.event_at),
    );
    let f = error::first_of(
        f,
        columns::column_fault(e, key, "filled_at"@, row.filled_at == event.filled_at),
    );
    f
}

/// The event holds what the row holds.
pub open spec fn event_of_row(row: ExecutionEventRow, stored: StoredExecutionEvent) -> bool {
    &&& stored == StoredExecutionEvent {
        event: row.event->Ok_0,
        payload: stored.payload,
        created_at: row.created_at,
    }
    &&& stored.payload@ == row.payload.text@
    &&& stored.event.execution_id@ == row.execution_id@
}

/// Reads an execution event.
pub fn execution_event_from_row(row: ExecutionEventRow) -> (r: Result<
    StoredExecutionEvent,
    StoreError,
>)
    ensures
        error::fault(r) == event_row_fault(row),
        r matches Ok(stored) ==> event_of_row(row, stored),
{
    let entity = "execution_event";
    let key = row.execution_id;
    let payload = CanonicalJson::from_stored(
        entity,
        key.as_str(),
        row.payload.text,
        row.payload.digest,
    )?;
    let event = deserialize_payload(entity, key.as_str(), row.event)?;
    validate_column(
        entity,
        key.as_str(),
        "execution_id",
        key.as_str(),
        event.execution_id.as_str(),
    )?;
    validate_column(
        entity,
        key.as_str(),
        "command_id",
        row.command_id.as_str(),
        event.command_id.as_str(),
    )?;
    validate_optional_column(entity, key.as_str(), "plan_id", &row.plan_id, &event.plan_id)?;
    validate_optional_column(entity, key.as_str(), "leg_id", &row.leg_id, &event.leg_id)?;
    validate_column(
        entity,
        key.as_str(),
        "account_id",
        row.account_id.as_str(),
        event.account_id.as_str(),
    )?;
    validate_column(entity, key.as_str(), "status", row.status.as_str(), event.status.as_str())?;
    validate_optional_column(
        entity,
        key.as_str(),
        "broker_order_id",
        &row.broker_order_id,
        &event.broker_order_id,
    )?;
    validate_optional_column(
        entity,
        key.as_str(),
        "position_ticket",
        &row.position_ticket,
        &event.position_ticket,
    )?;
    validate_i64_column(entity, key.as_str(), "event_at", row.event_at, event.event_at)?;
    validate_optional_i64_column(
        entity,
        key.as_str(),
        "filled_at",
        row.filled_at,
        event.filled_at,
    )?;
    Ok(StoredExecutionEvent { event, payload, created_at: row.created_at })
}

/// The record of an execution event that is stored for the first time.
pub fn new_execution_event_record(new_event: NewExecutionEvent, payload: CanonicalJson) -> (r:
    StoredExecutionEvent)
    ensures
        r == (StoredExecutionEvent {
            event: new_event.event,
            payload,
            created_at: new_event.created_at,
        }),
{
    StoredExecutionEvent { event: new_event.event, payload, created_at: new_event.created_at }
}

/// Decides about an execution event whose name is taken. `existing` is the
/// stored event of that name.
pub fn resolve_execution_event_replay(
    existing: Option<StoredExecutionEvent>,
    incoming: &ExecutionEvent,
    payload: &CanonicalJson,
) -> (r: Result<WriteOutcome<StoredExecutionEvent>, StoreError>)
    ensures
        error::fault(r) == (if existing matches Some(stored) && stored.event.execution_id@
            == incoming.execution_id@ && stored.payload@ == payload@ {
            None
        } else {
            Some(
                error::conflict_fault(
                    "execution_event"@,
                    "execution_id="@ + incoming.execution_id@,
                ),
            )
        }),
        r matches Ok(outcome) ==> outcome == WriteOutcome::Duplicate(existing->0),
{
    if let Some(stored) = existing {
        if same_text(stored.event.execution_id.as_str(), incoming.execution_id.as_str())
            && stored.payload.same(payload) {
            return Ok(WriteOutcome::Duplicate(stored));
        }
    }
    let key = join2("execution_id=", incoming.execution_id.as_str());
    Err(StoreError::conflict("execution_event", key.as_str()))
}

/// The state of a command only goes forward in time, unless the change was
/// made before.
pub proof fn command_states_go_forward(
    current: ExecutionCommandState,
    update: CommandStateUpdate,
)
    requires
        state_update_fault(Some(current), update) is None,
    ensures
        current.updated_at <= update.state.updated_at,
        state_of_same_command(current, update.state),
        current.updated_at == update.state.updated_at ==> same_state(current, update.state),
{
}

/// A change that was made can be made again, and then changes nothing.
pub proof fn command_state_change_repeats(
    current: ExecutionCommandState,
    update: CommandStateUpdate,
)
    requires
        state_update_fault(Some(current), update) is None,
    ensures
        state_update_fault(Some(update.state), update) is None,
{
}

/// A state that was stored can be stored again, also after it went on.
pub proof fn first_state_repeats(first: ExecutionCommandState, update: CommandStateUpdate)
    requires
        state_update_fault(Some(first), update) is None,
    ensures
        state_replays(Some(first), first),
        state_replays(Some(update.state), first),
{
}

/// A command that was read is the one its columns speak of.
pub proof fn read_commands_agree_with_their_columns(row: CommandRow)
    ensures
        command_row_fault(row) is None <==> {
            let command = row.command->Ok_0;
            &&& json::stored_fault(
                "execution_command"@,
                row.command_id@,
                row.payload.text@,
                row.payload.digest@,
            ) is None
            &&& row.command is Ok
            &&& row.command_id@ == command.command_id@
            &&& row.plan_id is Some <==> command.plan_id is Some
            &&& row.plan_id is Some ==> (row.plan_id->0)@ == (command.plan_id->0)@
            &&& row.leg_id is Some <==> command.leg_id is Some
            &&& row.leg_id is Some ==> (row.leg_id->0)@ == (command.leg_id->0)@
            &&& row.account_id@ == command.account_id@
            &&& row.client_id is Some <==> command.client_id is Some
            &&& row.client_id is Some ==> (row.client_id->0)@ == (command.client_id->0)@
            &&& row.terminal_id is Some <==> command.terminal_id is Some
            &&& row.terminal_id is Some ==> (row.terminal_id->0)@ == (command.terminal_id->0)@
            &&& row.symbol@ == command.symbol@
            &&& row.action@ == command.action@
            &&& row.expires_at == command.expires_at
            &&& row.idempotency_key@ == command.idempotency_key@
            &&& row.hmac@ == command.hmac@
        },
{
}

/// A report that was read is the one its columns speak of.
pub proof fn read_reports_agree_with_their_columns(row: ExecutionEventRow)
    ensures
        event_row_fault(row) is None <==> {
            let event = row.event->Ok_0;
            &&& json::stored_fault(
                "execution_event"@,
                row.execution_id@,
                row.payload.text@,
                row.payload.digest@,
            ) is None
            &&& row.event is Ok
            &&& row.execution_id@ == event.execution_id@
            &&& row.command_id@ == event.command_id@
            &&& row.plan_id is Some <==> event.plan_id is Some
            &&& row.plan_id is Some ==> (row.plan_id->0)@ == (event.plan_id->0)@
            &&& row.leg_id is Some <==> event.leg_id is Some
            &&& row.leg_id is Some ==> (row.leg_id->0)@ == (event.leg_id->0)@
            &&& row.account_id@ == event.account_id@
            &&& row.status@ == event.status@
            &&& row.broker_order_id is Some <==> event.broker_order_id is Some
            &&& row.broker_order_id is Some ==> (row.broker_order_id->0)@ == (
            event.broker_order_id->0)@
            &&& row.position_ticket is Some <==> event.position_ticket is Some
            &&& row.position_ticket is Some ==> (row.position_ticket->0)@ == (
            event.position_ticket->0)@
            &&& row.event_at == event.event_at
            &&& row.filled_at == event.filled_at
        },
{
}

/// A command comes twice if its name, its idempotency key, its decision and its
/// payload are the same, and in no other case.
pub proof fn repeated_commands_say_the_same(
    existing: StoredExecutionCommand,
    incoming: NewExecutionCommand,
    payload: Seq<char>,
)
    ensures
        same_command_record(existing, incoming, payload) <==> existing.command.command_id@
            == incoming.command.command_id@ && existing.command.idempotency_key@
            == incoming.command.idempotency_key@ && existing.risk_id@ == incoming.risk_id@
            && existing.payload@ == payload,
{
}

/// A first state is of the command it names: of the same account, plan and leg,
/// and as old. Without the command there is none.
pub proof fn states_are_of_their_command(
    command: Option<CommandIdentity>,
    state: ExecutionCommandState,
)
    ensures
        command is None ==> state_identity_fault(command, state) is Some,
        command matches Some(found) ==> (state_identity_fault(command, state) is None <==> {
            &&& found.account_id@ == state.account_id@
            &&& found.plan_id is Some <==> state.plan_id is Some
            &&& found.plan_id is Some ==> (found.plan_id->0)@ == (state.plan_id->0)@
            &&& found.leg_id is Some <==> state.leg_id is Some
            &&& found.leg_id is Some ==> (found.leg_id->0)@ == (state.leg_id->0)@
            &&& found.created_at == state.created_at
        }),
{
}

/// A state takes the place of another only if it is of the same command, the
/// other is in the status and of the time that was expected, and it is newer;
/// repeating the state that is stored changes nothing. Otherwise it is refused:
/// as a conflict if it is of another command, as stale if it is of the same.
pub proof fn states_replace_what_was_expected(
    current: ExecutionCommandState,
    update: CommandStateUpdate,
)
    ensures
        ({
            let same = current.command_id@ == update.state.command_id@ && current.account_id@
                == update.state.account_id@ && text::optional_text(current.plan_id)
                == text::optional_text(update.state.plan_id) && text::optional_text(current.leg_id)
                == text::optional_text(update.state.leg_id) && current.created_at
                == update.state.created_at;
            let expected = current.status@ == update.expected_status@ && current.updated_at
                == update.expected_updated_at && current.updated_at < update.state.updated_at;
            let repeated = current.status@ == update.state.status@ && current.delivery_attempts
                == update.state.delivery_attempts && text::optional_text(
                current.last_delivery_error,
            ) == text::optional_text(update.state.last_delivery_error) && current.dispatched_at
                == update.state.dispatched_at && current.command_received_at
                == update.state.command_received_at && current.reconciling_at
                == update.state.reconciling_at && current.completed_at == update.state.completed_at
                && current.updated_at == update.state.updated_at;
            &&& state_update_fault(Some(current), update) is None <==> same && (expected
                || repeated)
            &&& !same ==> state_update_fault(Some(current), update) == Some(
                error::conflict_fault(
                    "execution_command_state"@,
                    "command_id="@ + update.state.command_id@,
                ),
            )
            &&& same && !expected && !repeated ==> state_update_fault(Some(current), update)
                == Some(
                error::stale_fault(
                    "execution_command_state"@,
                    "command_id="@ + update.state.command_id@,
                ),
            )
            &&& state_expected(current, update) <==> same && expected
        }),
        state_update_fault(None, update) is Some,
{
}

/// A first state that comes again is accepted if it is the stored one or the
/// stored one of the same command is newer.
pub proof fn newer_states_stand(existing: ExecutionCommandState, state: ExecutionCommandState)
    ensures
        state_replays(Some(existing), state) ==> {
            &&& existing.command_id@ == state.command_id@
            &&& existing.account_id@ == state.account_id@
            &&& existing.created_at == state.created_at
            &&& existing.updated_at >= state.updated_at
            &&& existing.updated_at == state.updated_at ==> existing.status@ == state.status@
                && existing.delivery_attempts == state.delivery_attempts && existing.completed_at
                == state.completed_at
        },
        existing == state ==> state_replays(Some(existing), state),
        !state_replays(None, state),
{
}

/// The number of attempts that was read is the stored one, and the status one of
/// those that are known.
pub proof fn read_states_are_sound(row: CommandStateRow)
    ensures
        command_state_row_fault(row) is None <==> 0 <= row.delivery_attempts <= 4294967295
            && row.status.parsed is Ok,
{
}

/// A command is taken if one of its name is stored.
pub proof fn command_names_are_taken_once(
    existing: Seq<StoredExecutionCommand>,
    command_id: Seq<char>,
)
    ensures
        command_taken(existing, command_id) <==> exists|i: int|
            0 <= i < existing.len() && (#[trigger] existing[i]).command.command_id@ == command_id,
{
}

}
