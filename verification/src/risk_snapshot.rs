//! What a risk decision rests on: everything that is known of the account of an
//! intent, and nothing that changed since its last reconciliation.

use vstd::prelude::*;
use vstd::string::*;

use crate::checkpoint::FullSetKind;
use crate::columns::JsonColumns;
use crate::domain::{AccountId, CommandId, IntentId, SymbolCode};
use crate::error;
use crate::error::{Fault, StoreError};
use crate::json;
use crate::json::CanonicalJson;
use crate::listing;
use crate::listing::{oldest_first, Listed};
use crate::model::StoredCircuitBreakerSnapshot;
use crate::reconciliation::AccountReconciliationCheckpoint;
use crate::risk_capacity::StoredRiskCapacitySnapshot;
use crate::snapshots;
use crate::snapshots::{Observation, Snapshot, SnapshotRow, SnapshotValue};
use crate::text;
use crate::text::{join3, list_contains, same_text, text_precedes};
use crate::trading::{
    ExecutionCommandState, StoredExecutionCommand, StoredTradeIntent,
};
use crate::workflow;
use crate::workflow::validate_persisted_command_state;

verus! {

/// A command that is under way.
#[derive(Debug, PartialEq, Eq)]
pub struct PendingCommandSnapshot {
    pub command: StoredExecutionCommand,
    pub state: ExecutionCommandState,
}

/// An order, with its status.
#[derive(Debug, PartialEq, Eq)]
pub struct OrderObservation {
    pub snapshot: Snapshot,
    pub status: String,
}

/// What a risk decision rests on.
pub struct TrustedRiskSnapshot {
    pub intent: StoredTradeIntent,
    pub account: Snapshot,
    pub checkpoint: AccountReconciliationCheckpoint,
    pub positions: Vec<Snapshot>,
    pub orders: Vec<OrderObservation>,
    pub symbol_metadata: Vec<Snapshot>,
    pub markets: Vec<Snapshot>,
    pub pending_commands: Vec<PendingCommandSnapshot>,
    pub circuit_breaker: Option<StoredCircuitBreakerSnapshot>,
    pub capacity: StoredRiskCapacitySnapshot,
}

/// The newest observation of a position or an order, as far as scheduling is
/// concerned. A position has no status.
pub struct LatestFace {
    pub observed_at: i64,
    pub symbol: SymbolCode,
    pub status: String,
}

/// A member of a full set, with what the domain reads from its payload. A
/// position has no status.
pub struct MemberRow {
    pub account_id: String,
    pub set_observed_at: i64,
    pub id: String,
    pub payload: JsonColumns,
    pub value: Result<SnapshotValue, String>,
    pub status: String,
}

impl Listed for MemberRow {
    open spec fn time(&self) -> i64 {
        0
    }

    open spec fn key(&self) -> Seq<char> {
        self.id@
    }

    open spec fn account(&self) -> Seq<char> {
        self.id@
    }

    open spec fn current(&self) -> bool {
        true
    }

    fn listed_at(&self) -> (r: i64) {
        0
    }

    fn listed_as(&self) -> (r: &str) {
        self.id.as_str()
    }

    fn listed_for(&self) -> (r: &String) {
        &self.id
    }

    fn is_current(&self) -> (r: bool) {
        true
    }
}

/// A command of the account: its columns, those of its state, and both as they
/// are read.
pub struct AccountCommand {
    pub command_id: CommandId,
    pub action: String,
    pub symbol: SymbolCode,
    pub state_columns: Option<StateColumns>,
    pub command: Option<StoredExecutionCommand>,
    pub state: Option<ExecutionCommandState>,
}

impl Listed for AccountCommand {
    open spec fn time(&self) -> i64 {
        0
    }

    open spec fn key(&self) -> Seq<char> {
        self.command_id@
    }

    open spec fn account(&self) -> Seq<char> {
        self.command_id@
    }

    open spec fn current(&self) -> bool {
        true
    }

    fn listed_at(&self) -> (r: i64) {
        0
    }

    fn listed_as(&self) -> (r: &str) {
        self.command_id.as_str()
    }

    fn listed_for(&self) -> (r: &String) {
        &self.command_id
    }

    fn is_current(&self) -> (r: bool) {
        true
    }
}

/// How far a command got, and since when.
pub struct StateColumns {
    pub status: String,
    pub updated_at: i64,
}

/// An intent, with what the store knows of its account.
pub struct RiskInputs {
    pub intent: StoredTradeIntent,
    /// There is a risk decision already.
    pub assessed: bool,
    pub account: Option<SnapshotRow>,
    pub checkpoint: Option<AccountReconciliationCheckpoint>,
    pub positions: Vec<LatestFace>,
    pub orders: Vec<LatestFace>,
    pub position_members: Vec<MemberRow>,
    pub order_members: Vec<MemberRow>,
    pub commands: Vec<AccountCommand>,
    /// When the states of the account's commands last changed.
    pub state_changes: Vec<i64>,
    pub metadata: Vec<SnapshotRow>,
    pub markets: Vec<SnapshotRow>,
    pub circuit_breaker: Option<StoredCircuitBreakerSnapshot>,
    pub capacity: Option<StoredRiskCapacitySnapshot>,
}

/// The fault of something that a risk decision needs and that is not there.
pub open spec fn unavailable_fault(intent_id: Seq<char>, input: Seq<char>) -> Fault {
    Fault::SnapshotUnavailable { intent_id, input }
}

fn unavailable(intent_id: &IntentId, input: &'static str) -> (e: StoreError)
    ensures
        e@ == unavailable_fault(intent_id@, input@),
{
    StoreError::SnapshotUnavailable { intent_id: intent_id.clone(), input }
}

/// An order with the given status may still be filled.
pub open spec fn active_order(status: Seq<char>) -> bool {
    status == "PLACED"@ || status == "PARTIALLY_FILLED"@ || status == "UNKNOWN"@
}

/// Whether an order with the given status may still be filled.
pub fn order_is_active(status: &str) -> (r: bool)
    ensures
        r == active_order(status@),
{
    same_text(status, "PLACED") || same_text(status, "PARTIALLY_FILLED") || same_text(
        status,
        "UNKNOWN",
    )
}

/// A command with the given status will do nothing more.
pub open spec fn terminal_status(status: Seq<char>) -> bool {
    status == "DELIVERY_FAILED"@ || status == "REJECTED"@ || status == "FILLED"@ || status
        == "FAILED"@ || status == "EXPIRED"@ || status == "CANCELLED"@
}

/// Whether a command with the given status will do nothing more.
pub fn command_state_is_terminal(status: &str) -> (r: bool)
    ensures
        r == terminal_status(status@),
{
    same_text(status, "DELIVERY_FAILED") || same_text(status, "REJECTED") || same_text(
        status,
        "FILLED",
    ) || same_text(status, "FAILED") || same_text(status, "EXPIRED") || same_text(
        status,
        "CANCELLED",
    )
}

/// A command opens a position.
pub open spec fn opening_action(action: Seq<char>) -> bool {
    action == "BUY"@ || action == "SELL"@
}

fn is_opening_action(action: &str) -> (r: bool)
    ensures
        r == opening_action(action@),
{
    same_text(action, "BUY") || same_text(action, "SELL")
}

/// What is wrong with the account.
pub open spec fn account_row_fault(account_id: Seq<char>, row: SnapshotRow) -> Option<Fault> {
    let entity = "account_snapshot"@;
    let f = json::stored_fault(entity, account_id, row.payload.text@, row.payload.digest@);
    error::first_of(
        f,
        match row.value {
            Err(error) => Some(error::corrupt_fault(entity, account_id, error@)),
            Ok(value) => if value.account_id@ != account_id || row.account_id@ != account_id
                || value.observed_at != row.observed_at {
                Some(
                    error::corrupt_fault(
                        entity,
                        account_id,
                        "payload identity does not match projection columns"@,
                    ),
                )
            } else {
                None
            },
        },
    )
}

/// The observation that a row holds.
pub open spec fn row_observation(row: SnapshotRow) -> Observation {
    Observation {
        account_id: row.account_id@,
        id: row.id@,
        symbol: row.symbol@,
        observed_at: row.observed_at,
        payload: row.payload.text@,
    }
}

fn copy_snapshot(row: &SnapshotRow, payload: CanonicalJson) -> (r: Snapshot)
    requires
        payload@ == row.payload.text@,
    ensures
        r@ == row_observation(*row),
{
    Snapshot {
        account_id: row.account_id.clone(),
        id: row.id.clone(),
        symbol: row.symbol.clone(),
        observed_at: row.observed_at,
        payload,
    }
}

fn load_account(account_id: &AccountId, row: &SnapshotRow) -> (r: Result<Snapshot, StoreError>)
    ensures
        error::fault(r) == account_row_fault(account_id@, *row),
        r matches Ok(snapshot) ==> snapshot@ == row_observation(*row),
{
    let payload = CanonicalJson::from_stored(
        "account_snapshot",
        account_id.as_str(),
        row.payload.text.clone(),
        row.payload.digest.clone(),
    )?;
    let value = match &row.value {
        Ok(value) => value,
        Err(error) => {
            return Err(
                StoreError::corrupt("account_snapshot", account_id.as_str(), error.as_str()),
            );
        },
    };
    if !same_text(value.account_id.as_str(), account_id.as_str()) || !same_text(
        row.account_id.as_str(),
        account_id.as_str(),
    ) || value.observed_at != row.observed_at {
        return Err(
            StoreError::corrupt(
                "account_snapshot",
                account_id.as_str(),
                "payload identity does not match projection columns",
            ),
        );
    }
    Ok(copy_snapshot(row, payload))
}

/// Something was observed after a time.
pub open spec fn seen_after(faces: Seq<LatestFace>, at: i64) -> bool {
    exists|i: int| 0 <= i < faces.len() && (#[trigger] faces[i]).observed_at > at
}

fn is_seen_after(faces: &Vec<LatestFace>, at: i64) -> (r: bool)
    ensures
        r == seen_after(faces@, at),
{
    let mut i: usize = 0;
    while i < faces.len()
        invariant
            i <= faces.len(),
            forall|j: int| 0 <= j < i ==> (#[trigger] faces@[j]).observed_at <= at,
        decreases faces.len() - i,
    {
        if faces[i].observed_at > at {
            return true;
        }
        i = i + 1;
    }
    false
}

/// What is wrong with what was observed since the last full sets.
pub open spec fn partial_state_fault(
    intent_id: Seq<char>,
    checkpoint: AccountReconciliationCheckpoint,
    positions: Seq<LatestFace>,
    orders: Seq<LatestFace>,
) -> Option<Fault> {
    if seen_after(positions, checkpoint.positions_observed_at) {
        Some(
            unavailable_fault(
                intent_id,
                "position snapshot changed after the full-set watermark"@,
            ),
        )
    } else if seen_after(orders, checkpoint.orders_observed_at) {
        Some(
            unavailable_fault(
                intent_id,
                "order snapshot changed after the full-set watermark"@,
            ),
        )
    } else {
        None
    }
}

fn reject_partial_state_after_checkpoint(
    intent_id: &IntentId,
    checkpoint: &AccountReconciliationCheckpoint,
    positions: &Vec<LatestFace>,
    orders: &Vec<LatestFace>,
) -> (r: Result<(), StoreError>)
    ensures
        error::fault(r) == partial_state_fault(intent_id@, *checkpoint, positions@, orders@),
{
    if is_seen_after(positions, checkpoint.positions_observed_at) {
        return Err(
            unavailable(intent_id, "position snapshot changed after the full-set watermark"),
        );
    }
    if is_seen_after(orders, checkpoint.orders_observed_at) {
        return Err(
            unavailable(intent_id, "order snapshot changed after the full-set watermark"),
        );
    }
    Ok(())
}

/// What is wrong with a member of a full set.
pub open spec fn member_row_fault(
    kind: FullSetKind,
    account_id: Seq<char>,
    watermark: i64,
    row: MemberRow,
) -> Option<Fault> {
    let entity = kind.member_name();
    let key = account_id + ":"@ + row.id@;
    let f = json::stored_fault(entity, key, row.payload.text@, row.payload.digest@);
    error::first_of(
        f,
        match row.value {
            Err(error) => Some(error::corrupt_fault(entity, key, error@)),
            Ok(value) => if row.account_id@ != account_id || row.set_observed_at != watermark
                || value.account_id@ != account_id || value.id@ != row.id@ || value.observed_at
                != watermark {
                Some(
                    error::corrupt_fault(
                        entity,
                        key,
                        "payload identity or watermark does not match checkpoint"@,
                    ),
                )
            } else {
                None
            },
        },
    )
}

/// What is wrong with the members of a full set.
pub open spec fn member_rows_fault(
    kind: FullSetKind,
    account_id: Seq<char>,
    watermark: i64,
    rows: Seq<MemberRow>,
) -> Option<Fault>
    decreases rows.len(),
{
    if rows.len() == 0 {
        None
    } else {
        error::first_of(
            member_rows_fault(kind, account_id, watermark, rows.drop_last()),
            member_row_fault(kind, account_id, watermark, rows.last()),
        )
    }
}

proof fn member_rows_fault_of_prefix(
    kind: FullSetKind,
    account_id: Seq<char>,
    watermark: i64,
    rows: Seq<MemberRow>,
    n: int,
)
    requires
        0 <= n <= rows.len(),
        member_rows_fault(kind, account_id, watermark, rows.take(n)) is Some,
    ensures
        member_rows_fault(kind, account_id, watermark, rows) == member_rows_fault(
            kind,
            account_id,
            watermark,
            rows.take(n),
        ),
    decreases rows.len(),
{
    if n < rows.len() {
        assert(rows.drop_last().take(n) =~= rows.take(n));
        member_rows_fault_of_prefix(kind, account_id, watermark, rows.drop_last(), n);
    } else {
        assert(rows.take(n) =~= rows);
    }
}

/// The observation that a member of a full set is.
pub open spec fn member_observation(row: MemberRow) -> Observation {
    let value = row.value->Ok_0;
    Observation {
        account_id: value.account_id@,
        id: value.id@,
        symbol: value.symbol@,
        observed_at: value.observed_at,
        payload: row.payload.text@,
    }
}

/// The orders are the members, one for one.
pub open spec fn members_read(rows: Seq<MemberRow>, members: Seq<OrderObservation>) -> bool {
    &&& members.len() == rows.len()
    &&& forall|i: int|
        0 <= i < rows.len() ==> (#[trigger] members[i]).snapshot@ == member_observation(rows[i])
            && members[i].status == rows[i].status
}

fn load_members(
    kind: FullSetKind,
    account_id: &AccountId,
    watermark: i64,
    rows: &Vec<MemberRow>,
) -> (r: Result<Vec<OrderObservation>, StoreError>)
    ensures
        error::fault(r) == member_rows_fault(kind, account_id@, watermark, rows@),
        r matches Ok(members) ==> members_read(rows@, members@),
{
    let mut members: Vec<OrderObservation> = Vec::new();
    let mut i: usize = 0;
    while i < rows.len()
        invariant
            i <= rows.len(),
            member_rows_fault(kind, account_id@, watermark, rows@.take(i as int)) is None,
            members.len() == i,
            forall|j: int|
                0 <= j < i ==> (#[trigger] members@[j]).snapshot@ == member_observation(rows@[j])
                    && members@[j].status == rows@[j].status,
        decreases rows.len() - i,
    {
        let ghost longer = rows@.take(i + 1);
        assert(longer.drop_last() =~= rows@.take(i as int));
        match load_member(kind, account_id, watermark, &rows[i]) {
            Ok(member) => members.push(member),
            Err(error) => {
                proof {
                    member_rows_fault_of_prefix(kind, account_id@, watermark, rows@, i + 1);
                }
                return Err(error);
            },
        }
        i = i + 1;
    }
    assert(rows@.take(i as int) =~= rows@);
    Ok(members)
}

fn load_member(kind: FullSetKind, account_id: &AccountId, watermark: i64, row: &MemberRow) -> (r:
    Result<OrderObservation, StoreError>)
    ensures
        error::fault(r) == member_row_fault(kind, account_id@, watermark, *row),
        r matches Ok(member) ==> member.snapshot@ == member_observation(*row) && member.status
            == row.status,
{
    let entity = kind.member_entity();
    let key = join3(account_id.as_str(), ":", row.id.as_str());
    let payload = CanonicalJson::from_stored(
        entity,
        key.as_str(),
        row.payload.text.clone(),
        row.payload.digest.clone(),
    )?;
    let value = match &row.value {
        Ok(value) => value,
        Err(error) => {
            return Err(StoreError::corrupt(entity, key.as_str(), error.as_str()));
        },
    };
    if !same_text(row.account_id.as_str(), account_id.as_str()) || row.set_observed_at != watermark
        || !same_text(value.account_id.as_str(), account_id.as_str()) || !same_text(
        value.id.as_str(),
        row.id.as_str(),
    ) || value.observed_at != watermark {
        return Err(
            StoreError::corrupt(
                entity,
                key.as_str(),
                "payload identity or watermark does not match checkpoint",
            ),
        );
    }
    Ok(
        OrderObservation {
            snapshot: Snapshot {
                account_id: value.account_id.clone(),
                id: value.id.clone(),
                symbol: value.symbol.clone(),
                observed_at: value.observed_at,
                payload,
            },
            status: row.status.clone(),
        },
    )
}

/// The snapshots of orders or positions, without a status.
pub open spec fn faces(members: Seq<OrderObservation>) -> Seq<Snapshot> {
    Seq::new(members.len(), |i: int| members[i].snapshot)
}

fn drop_statuses(members: Vec<OrderObservation>) -> (r: Vec<Snapshot>)
    ensures
        r@ == faces(members@),
{
    let ghost all = members@;
    let mut out: Vec<Snapshot> = Vec::new();
    for member in it: members
        invariant
            it.seq() == all,
            all == members@,
            out@ == faces(all.take(it.index())),
    {
        assert(faces(all.take(it.index() + 1)) =~= faces(all.take(it.index())).push(
            member.snapshot,
        ));
        out.push(member.snapshot);
    }
    assert(all.take(all.len() as int) =~= all);
    out
}

/// The first command without a state.
pub open spec fn stateless(commands: Seq<AccountCommand>) -> Option<Seq<char>>
    decreases commands.len(),
{
    if commands.len() == 0 {
        None
    } else if stateless(commands.drop_last()) is Some {
        stateless(commands.drop_last())
    } else if commands.last().state_columns is None {
        Some(commands.last().command_id@)
    } else {
        None
    }
}

proof fn stateless_in_prefix(commands: Seq<AccountCommand>, n: int)
    requires
        0 <= n <= commands.len(),
        stateless(commands.take(n)) is Some,
    ensures
        stateless(commands) == stateless(commands.take(n)),
    decreases commands.len(),
{
    if n < commands.len() {
        assert(commands.drop_last().take(n) =~= commands.take(n));
        stateless_in_prefix(commands.drop_last(), n);
    } else {
        assert(commands.take(n) =~= commands);
    }
}

fn check_states(commands: &Vec<AccountCommand>) -> (r: Result<(), StoreError>)
    ensures
        error::fault(r) == (match stateless(commands@) {
            Some(command_id) => Some(
                error::corrupt_fault(
                    "risk_input.pending_command"@,
                    command_id,
                    "execution command has no lifecycle state"@,
                ),
            ),
            None => None,
        }),
{
    let mut i: usize = 0;
    while i < commands.len()
        invariant
            i <= commands.len(),
            stateless(commands@.take(i as int)) is None,
        decreases commands.len() - i,
    {
        assert(commands@.take(i + 1).drop_last() =~= commands@.take(i as int));
        if commands[i].state_columns.is_none() {
            proof {
                stateless_in_prefix(commands@, i + 1);
            }
            return Err(
                StoreError::corrupt(
                    "risk_input.pending_command",
                    commands[i].command_id.as_str(),
                    "execution command has no lifecycle state",
                ),
            );
        }
        i = i + 1;
    }
    assert(commands@.take(i as int) =~= commands@);
    Ok(())
}

/// Some state changed after a time.
pub open spec fn changed_after(changes: Seq<i64>, at: i64) -> bool {
    exists|i: int| 0 <= i < changes.len() && #[trigger] changes[i] > at
}

fn is_changed_after(changes: &Vec<i64>, at: i64) -> (r: bool)
    ensures
        r == changed_after(changes@, at),
{
    let mut i: usize = 0;
    while i < changes.len()
        invariant
            i <= changes.len(),
            forall|j: int| 0 <= j < i ==> #[trigger] changes@[j] <= at,
        decreases changes.len() - i,
    {
        if changes[i] > at {
            return true;
        }
        i = i + 1;
    }
    false
}

/// A command is under way.
pub open spec fn under_way(command: AccountCommand) -> bool {
    command.state_columns matches Some(columns) && !terminal_status(columns.status@)
}

/// What is wrong with a command that is under way.
pub open spec fn pending_fault(account_id: Seq<char>, command: AccountCommand) -> Option<Fault> {
    let entity = "risk_input.pending_command"@;
    let id = command.command_id@;
    match (command.command, command.state) {
        (None, _) => Some(
            error::corrupt_fault(
                entity,
                id,
                "command disappeared while loading one transaction"@,
            ),
        ),
        (Some(_), None) => Some(
            error::corrupt_fault(
                entity,
                id,
                "command state disappeared while loading one transaction"@,
            ),
        ),
        (Some(found), Some(state)) => match workflow::persisted_state_reason(
            state,
            found.command,
            found.created_at,
        ) {
            Some(reason) => Some(error::corrupt_fault(entity, id, reason)),
            None => if found.command.account_id@ != account_id || state.account_id@ != account_id {
                Some(
                    error::corrupt_fault(
                        entity,
                        id,
                        "command or state belongs to another account"@,
                    ),
                )
            } else {
                None
            },
        },
    }
}

/// What is wrong with the commands that are under way.
pub open spec fn pending_list_fault(
    account_id: Seq<char>,
    commands: Seq<AccountCommand>,
) -> Option<Fault>
    decreases commands.len(),
{
    if commands.len() == 0 {
        None
    } else {
        error::first_of(
            pending_list_fault(account_id, commands.drop_last()),
            if under_way(commands.last()) {
                pending_fault(account_id, commands.last())
            } else {
                None
            },
        )
    }
}

proof fn pending_list_fault_of_prefix(
    account_id: Seq<char>,
    commands: Seq<AccountCommand>,
    n: int,
)
    requires
        0 <= n <= commands.len(),
        pending_list_fault(account_id, commands.take(n)) is Some,
    ensures
        pending_list_fault(account_id, commands) == pending_list_fault(
            account_id,
            commands.take(n),
        ),
    decreases commands.len(),
{
    if n < commands.len() {
        assert(commands.drop_last().take(n) =~= commands.take(n));
        pending_list_fault_of_prefix(account_id, commands.drop_last(), n);
    } else {
        assert(commands.take(n) =~= commands);
    }
}

/// The commands that are under way.
pub open spec fn pending(commands: Seq<AccountCommand>) -> Seq<PendingCommandSnapshot>
    decreases commands.len(),
{
    if commands.len() == 0 {
        Seq::empty()
    } else if under_way(commands.last()) {
        pending(commands.drop_last()).push(
            PendingCommandSnapshot {
                command: commands.last().command->0,
                state: commands.last().state->0,
            },
        )
    } else {
        pending(commands.drop_last())
    }
}

/// What is wrong with the commands of the account.
pub open spec fn commands_fault(
    intent_id: Seq<char>,
    account_id: Seq<char>,
    reconciled_at: i64,
    commands: Seq<AccountCommand>,
    state_changes: Seq<i64>,
) -> Option<Fault> {
    if stateless(commands) is Some {
        Some(
            error::corrupt_fault(
                "risk_input.pending_command"@,
                stateless(commands)->0,
                "execution command has no lifecycle state"@,
            ),
        )
    } else if changed_after(state_changes, reconciled_at) {
        Some(
            unavailable_fault(
                intent_id,
                "command lifecycle changed after the reconciliation watermark"@,
            ),
        )
    } else {
        pending_list_fault(account_id, commands)
    }
}

fn check_pending(account_id: &AccountId, command: &AccountCommand) -> (r: Result<
    PendingCommandSnapshot,
    StoreError,
>)
    ensures
        error::fault(r) == pending_fault(account_id@, *command),
        r matches Ok(snapshot) ==> snapshot == (PendingCommandSnapshot {
            command: command.command->0,
            state: command.state->0,
        }),
{
    let id = command.command_id.as_str();
    let found = match &command.command {
        Some(found) => found,
        None => {
            return Err(
                StoreError::corrupt(
                    "risk_input.pending_command",
                    id,
                    "command disappeared while loading one transaction",
                ),
            );
        },
    };
    let state = match &command.state {
        Some(state) => state,
        None => {
            return Err(
                StoreError::corrupt(
                    "risk_input.pending_command",
                    id,
                    "command state disappeared while loading one transaction",
                ),
            );
        },
    };
    if let Err(reason) = validate_persisted_command_state(state, found) {
        return Err(StoreError::corrupt("risk_input.pending_command", id, reason.as_str()));
    }
    if !same_text(found.command.account_id.as_str(), account_id.as_str()) || !same_text(
        state.account_id.as_str(),
        account_id.as_str(),
    ) {
        return Err(
            StoreError::corrupt(
                "risk_input.pending_command",
                id,
                "command or state belongs to another account",
            ),
        );
    }
    Ok(PendingCommandSnapshot { command: found.clone(), state: state.clone() })
}

fn load_pending_commands(
    intent_id: &IntentId,
    account_id: &AccountId,
    reconciled_at: i64,
    commands: &Vec<AccountCommand>,
    state_changes: &Vec<i64>,
) -> (r: Result<Vec<PendingCommandSnapshot>, StoreError>)
    ensures
        error::fault(r) == commands_fault(
            intent_id@,
            account_id@,
            reconciled_at,
            commands@,
            state_changes@,
        ),
        r matches Ok(list) ==> list@ == pending(commands@),
{
    check_states(commands)?;
    if is_changed_after(state_changes, reconciled_at) {
        return Err(
            unavailable(
                intent_id,
                "command lifecycle changed after the reconciliation watermark",
            ),
        );
    }
    let mut list: Vec<PendingCommandSnapshot> = Vec::new();
    let mut i: usize = 0;
    while i < commands.len()
        invariant
            i <= commands.len(),
            stateless(commands@) is None,
            !changed_after(state_changes@, reconciled_at),
            pending_list_fault(account_id@, commands@.take(i as int)) is None,
            list@ == pending(commands@.take(i as int)),
        decreases commands.len() - i,
    {
        assert(commands@.take(i + 1).drop_last() =~= commands@.take(i as int));
        let open = match &commands[i].state_columns {
            Some(columns) => !command_state_is_terminal(columns.status.as_str()),
            None => false,
        };
        if open {
            match check_pending(account_id, &commands[i]) {
                Ok(snapshot) => list.push(snapshot),
                Err(error) => {
                    proof {
                        pending_list_fault_of_prefix(account_id@, commands@, i + 1);
                    }
                    return Err(error);
                },
            }
        }
        i = i + 1;
    }
    assert(commands@.take(i as int) =~= commands@);
    Ok(list)
}

/// The symbols of the intent.
pub open spec fn intent_symbols(intent: StoredTradeIntent) -> Seq<Seq<char>> {
    match intent.intent.proposed_legs {
        Some(legs) => Seq::new(legs@.len(), |i: int| legs@[i].symbol@),
        None => seq![intent.intent.symbol@],
    }
}

/// The symbols of the positions.
pub open spec fn position_symbols(positions: Seq<Snapshot>) -> Seq<Seq<char>> {
    Seq::new(positions.len(), |i: int| positions[i].symbol@)
}

/// The symbols of the orders that may still be filled.
pub open spec fn order_symbols(orders: Seq<OrderObservation>) -> Seq<Seq<char>>
    decreases orders.len(),
{
    if orders.len() == 0 {
        Seq::empty()
    } else if active_order(orders.last().status@) {
        order_symbols(orders.drop_last()).push(orders.last().snapshot.symbol@)
    } else {
        order_symbols(orders.drop_last())
    }
}

/// The symbols of the commands that may still open a position.
pub open spec fn command_symbols(commands: Seq<PendingCommandSnapshot>) -> Seq<Seq<char>>
    decreases commands.len(),
{
    if commands.len() == 0 {
        Seq::empty()
    } else if opening_action(commands.last().command.command.action@) && !terminal_status(
        commands.last().state.status@,
    ) {
        command_symbols(commands.drop_last()).push(commands.last().command.command.symbol@)
    } else {
        command_symbols(commands.drop_last())
    }
}

/// Every symbol that a risk decision has to know about.
pub open spec fn needed_symbols(
    intent: StoredTradeIntent,
    positions: Seq<Snapshot>,
    orders: Seq<OrderObservation>,
    commands: Seq<PendingCommandSnapshot>,
) -> Seq<Seq<char>> {
    intent_symbols(intent) + position_symbols(positions) + order_symbols(orders)
        + command_symbols(commands)
}

fn push_symbol(symbols: &mut Vec<SymbolCode>, symbol: &SymbolCode)
    ensures
        text::texts(final(symbols)@) == text::texts(old(symbols)@).push(symbol@),
{
    symbols.push(symbol.clone());
    assert(text::texts(symbols@) =~= text::texts(old(symbols)@).push(symbol@));
}

/// Collects every symbol that a risk decision has to know about.
pub fn required_symbols(
    intent: &StoredTradeIntent,
    positions: &Vec<Snapshot>,
    orders: &Vec<OrderObservation>,
    commands: &Vec<PendingCommandSnapshot>,
) -> (r: Vec<SymbolCode>)
    ensures
        text::texts(r@) == needed_symbols(*intent, positions@, orders@, commands@),
{
    let mut symbols: Vec<SymbolCode> = Vec::new();
    match &intent.intent.proposed_legs {
        Some(legs) => {
            let mut i: usize = 0;
            while i < legs.len()
                invariant
                    i <= legs.len(),
                    text::texts(symbols@) == Seq::new(i as nat, |j: int| legs@[j].symbol@),
                decreases legs.len() - i,
            {
                push_symbol(&mut symbols, &legs[i].symbol);
                assert(text::texts(symbols@) =~= Seq::new(
                    (i + 1) as nat,
                    |j: int| legs@[j].symbol@,
                ));
                i = i + 1;
            }
        },
        None => {
            push_symbol(&mut symbols, &intent.intent.symbol);
        },
    }
    assert(text::texts(symbols@) =~= intent_symbols(*intent));
    let ghost first = intent_symbols(*intent);
    let mut i: usize = 0;
    while i < positions.len()
        invariant
            i <= positions.len(),
            text::texts(symbols@) =~= first + position_symbols(positions@.take(i as int)),
        decreases positions.len() - i,
    {
        push_symbol(&mut symbols, &positions[i].symbol);
        assert(position_symbols(positions@.take(i + 1)) =~= position_symbols(
            positions@.take(i as int),
        ).push(positions@[i as int].symbol@));
        i = i + 1;
    }
    assert(positions@.take(i as int) =~= positions@);
    let ghost second = first + position_symbols(positions@);
    let mut k: usize = 0;
    while k < orders.len()
        invariant
            k <= orders.len(),
            text::texts(symbols@) =~= second + order_symbols(orders@.take(k as int)),
        decreases orders.len() - k,
    {
        assert(orders@.take(k + 1).drop_last() =~= orders@.take(k as int));
        if order_is_active(orders[k].status.as_str()) {
            push_symbol(&mut symbols, &orders[k].snapshot.symbol);
        }
        k = k + 1;
    }
    assert(orders@.take(k as int) =~= orders@);
    let ghost third = second + order_symbols(orders@);
    let mut m: usize = 0;
    while m < commands.len()
        invariant
            m <= commands.len(),
            text::texts(symbols@) =~= third + command_symbols(commands@.take(m as int)),
        decreases commands.len() - m,
    {
        assert(commands@.take(m + 1).drop_last() =~= commands@.take(m as int));
        if is_opening_action(commands[m].command.command.action.as_str())
            && !command_state_is_terminal(commands[m].state.status.as_str()) {
            push_symbol(&mut symbols, &commands[m].command.command.symbol);
        }
        m = m + 1;
    }
    assert(commands@.take(m as int) =~= commands@);
    symbols
}

/// What is known of every symbol: its metadata, or its market.
#[derive(Clone, Copy, Debug, PartialEq, Eq, Structural)]
pub enum SymbolInput {
    Metadata,
    Market,
}

impl SymbolInput {
    /// The name under which faults about a row are reported.
    pub open spec fn row_name(self) -> Seq<char> {
        match self {
            SymbolInput::Metadata => "symbol_metadata"@,
            SymbolInput::Market => "market_snapshot"@,
        }
    }

    /// The name under which it is reported that a symbol occurs twice.
    pub open spec fn input_name(self) -> Seq<char> {
        match self {
            SymbolInput::Metadata => "risk_input.symbol_metadata"@,
            SymbolInput::Market => "risk_input.market_snapshot"@,
        }
    }

    /// How it is described that a symbol is lacking.
    pub open spec fn lacking(self) -> Seq<char> {
        match self {
            SymbolInput::Metadata => "required symbol metadata set is incomplete"@,
            SymbolInput::Market => "required market snapshot set is incomplete"@,
        }
    }

    /// The name of a row beside its account.
    pub open spec fn row_key(self, row: SnapshotRow) -> Seq<char> {
        match self {
            SymbolInput::Metadata => row.id@,
            SymbolInput::Market => row.symbol@,
        }
    }

    /// The payload is of what the row is of.
    pub open spec fn same_row(
        self,
        account_id: Seq<char>,
        row: SnapshotRow,
        value: SnapshotValue,
    ) -> bool {
        match self {
            SymbolInput::Metadata => value.account_id@ == account_id && value.id@ == row.id@
                && value.symbol@ == row.symbol@ && value.observed_at == row.observed_at,
            SymbolInput::Market => row.account_id@ == account_id && value.symbol@ == row.symbol@
                && value.observed_at == row.observed_at,
        }
    }
}

/// What is wrong with a row about a symbol.
pub open spec fn symbol_row_fault(
    input: SymbolInput,
    account_id: Seq<char>,
    row: SnapshotRow,
) -> Option<Fault> {
    let entity = input.row_name();
    let key = account_id + ":"@ + input.row_key(row);
    let f = json::stored_fault(entity, key, row.payload.text@, row.payload.digest@);
    error::first_of(
        f,
        match row.value {
            Err(error) => Some(error::corrupt_fault(entity, key, error@)),
            Ok(value) => if input.same_row(account_id, row, value) {
                None
            } else {
                Some(
                    error::corrupt_fault(
                        entity,
                        key,
                        "payload identity does not match projection columns"@,
                    ),
                )
            },
        },
    )
}

/// The observations with one more, ordered by their symbols.
pub open spec fn placed(list: Seq<Observation>, item: Observation) -> Seq<Observation>
    decreases list.len(),
{
    if list.len() == 0 || !text::precedes(item.symbol, list.last().symbol) {
        list.push(item)
    } else {
        placed(list.drop_last(), item).push(list.last())
    }
}

/// The rows about the needed symbols, ordered by their symbols.
pub open spec fn gathered(rows: Seq<SnapshotRow>, needed: Seq<Seq<char>>) -> Seq<Observation>
    decreases rows.len(),
{
    if rows.len() == 0 {
        Seq::empty()
    } else {
        let before = gathered(rows.drop_last(), needed);
        if needed.contains(rows.last().symbol@) {
            placed(before, row_observation(rows.last()))
        } else {
            before
        }
    }
}

/// Some observation is of the symbol.
pub open spec fn covers(list: Seq<Observation>, symbol: Seq<char>) -> bool {
    exists|i: int| 0 <= i < list.len() && (#[trigger] list[i]).symbol == symbol
}

/// What is wrong with the rows about symbols, one after the other.
pub open spec fn gather_fault(
    input: SymbolInput,
    account_id: Seq<char>,
    rows: Seq<SnapshotRow>,
    needed: Seq<Seq<char>>,
) -> Option<Fault>
    decreases rows.len(),
{
    if rows.len() == 0 {
        None
    } else {
        let last = rows.last();
        let f = gather_fault(input, account_id, rows.drop_last(), needed);
        let f = error::first_of(f, symbol_row_fault(input, account_id, last));
        error::first_of(
            f,
            if needed.contains(last.symbol@) && covers(
                gathered(rows.drop_last(), needed),
                last.symbol@,
            ) {
                Some(error::conflict_fault(input.input_name(), account_id))
            } else {
                None
            },
        )
    }
}

proof fn gather_fault_of_prefix(
    input: SymbolInput,
    account_id: Seq<char>,
    rows: Seq<SnapshotRow>,
    needed: Seq<Seq<char>>,
    n: int,
)
    requires
        0 <= n <= rows.len(),
        gather_fault(input, account_id, rows.take(n), needed) is Some,
    ensures
        gather_fault(input, account_id, rows, needed) == gather_fault(
            input,
            account_id,
            rows.take(n),
            needed,
        ),
    decreases rows.len(),
{
    if n < rows.len() {
        assert(rows.drop_last().take(n) =~= rows.take(n));
        gather_fault_of_prefix(input, account_id, rows.drop_last(), needed, n);
    } else {
        assert(rows.take(n) =~= rows);
    }
}

/// Every needed symbol is covered.
pub open spec fn all_covered(list: Seq<Observation>, needed: Seq<Seq<char>>) -> bool {
    forall|i: int| 0 <= i < needed.len() ==> covers(list, #[trigger] needed[i])
}

/// What is wrong with what is known of the needed symbols.
pub open spec fn symbols_fault(
    input: SymbolInput,
    intent_id: Seq<char>,
    account_id: Seq<char>,
    rows: Seq<SnapshotRow>,
    needed: Seq<Seq<char>>,
) -> Option<Fault> {
    error::first_of(
        gather_fault(input, account_id, rows, needed),
        if all_covered(gathered(rows, needed), needed) {
            None
        } else {
            Some(unavailable_fault(intent_id, input.lacking()))
        },
    )
}

proof fn placed_at(list: Seq<Observation>, item: Observation, at: int)
    requires
        0 <= at <= list.len(),
        forall|i: int|
            at <= i < list.len() ==> text::precedes(item.symbol, (#[trigger] list[i]).symbol),
        at > 0 ==> !text::precedes(item.symbol, list[at - 1].symbol),
    ensures
        placed(list, item) == list.insert(at, item),
    decreases list.len(),
{
    if at == list.len() {
        if list.len() > 0 {
            assert(list[list.len() - 1] == list.last());
        }
        assert(list.push(item) =~= list.insert(at, item));
    } else {
        assert(text::precedes(item.symbol, list[list.len() - 1].symbol));
        assert forall|i: int| at <= i < list.drop_last().len() implies text::precedes(
            item.symbol,
            (#[trigger] list.drop_last()[i]).symbol,
        ) by {
            assert(text::precedes(item.symbol, list[i].symbol));
        }
        placed_at(list.drop_last(), item, at);
        assert(list.drop_last().insert(at, item).push(list.last()) =~= list.insert(at, item));
    }
}

fn place(list: &mut Vec<Snapshot>, item: Snapshot)
    ensures
        snapshots::observations(final(list)@) == placed(snapshots::observations(old(list)@), item@),
{
    let ghost before = snapshots::observations(list@);
    let ghost given = item@;
    let mut at: usize = list.len();
    while at > 0 && text_precedes(item.symbol.as_str(), list[at - 1].symbol.as_str())
        invariant
            at <= list.len(),
            list@ == old(list)@,
            before == snapshots::observations(list@),
            forall|i: int|
                at <= i < list.len() ==> text::precedes(
                    item.symbol@,
                    (#[trigger] before[i]).symbol,
                ),
        decreases at,
    {
        at = at - 1;
    }
    proof {
        placed_at(before, item@, at as int);
    }
    list.insert(at, item);
    assert(snapshots::observations(list@) =~= before.insert(at as int, given));
}

fn is_covered(list: &Vec<Snapshot>, symbol: &str) -> (r: bool)
    ensures
        r == covers(snapshots::observations(list@), symbol@),
{
    let ghost all = snapshots::observations(list@);
    let mut i: usize = 0;
    while i < list.len()
        invariant
            i <= list.len(),
            all == snapshots::observations(list@),
            forall|j: int| 0 <= j < i ==> (#[trigger] all[j]).symbol != symbol@,
        decreases list.len() - i,
    {
        if same_text(list[i].symbol.as_str(), symbol) {
            assert(all[i as int].symbol == symbol@);
            return true;
        }
        i = i + 1;
    }
    false
}

fn load_symbol_row(input: SymbolInput, account_id: &AccountId, row: &SnapshotRow) -> (r: Result<
    Snapshot,
    StoreError,
>)
    ensures
        error::fault(r) == symbol_row_fault(input, account_id@, *row),
        r matches Ok(snapshot) ==> snapshot@ == row_observation(*row),
{
    let (entity, name) = match input {
        SymbolInput::Metadata => ("symbol_metadata", row.id.as_str()),
        SymbolInput::Market => ("market_snapshot", row.symbol.as_str()),
    };
    let key = join3(account_id.as_str(), ":", name);
    let payload = CanonicalJson::from_stored(
        entity,
        key.as_str(),
        row.payload.text.clone(),
        row.payload.digest.clone(),
    )?;
    let value = match &row.value {
        Ok(value) => value,
        Err(error) => {
            return Err(StoreError::corrupt(entity, key.as_str(), error.as_str()));
        },
    };
    let same = match input {
        SymbolInput::Metadata => same_text(value.account_id.as_str(), account_id.as_str())
            && same_text(value.id.as_str(), row.id.as_str()),
        SymbolInput::Market => same_text(row.account_id.as_str(), account_id.as_str()),
    };
    if !same || !same_text(value.symbol.as_str(), row.symbol.as_str()) || value.observed_at
        != row.observed_at {
        return Err(
            StoreError::corrupt(
                entity,
                key.as_str(),
                "payload identity does not match projection columns",
            ),
        );
    }
    Ok(copy_snapshot(row, payload))
}

/// Reads what is known of the needed symbols.
pub fn load_required(
    input: SymbolInput,
    intent_id: &IntentId,
    account_id: &AccountId,
    rows: &Vec<SnapshotRow>,
    needed: &Vec<SymbolCode>,
) -> (r: Result<Vec<Snapshot>, StoreError>)
    ensures
        error::fault(r) == symbols_fault(
            input,
            intent_id@,
            account_id@,
            rows@,
            text::texts(needed@),
        ),
        r matches Ok(list) ==> snapshots::observations(list@) == gathered(rows@, text::texts(needed@)),
{
    let ghost names = text::texts(needed@);
    let mut list: Vec<Snapshot> = Vec::new();
    assert(snapshots::observations(list@) =~= Seq::<Observation>::empty());
    let mut i: usize = 0;
    while i < rows.len()
        invariant
            i <= rows.len(),
            names == text::texts(needed@),
            gather_fault(input, account_id@, rows@.take(i as int), names) is None,
            snapshots::observations(list@) == gathered(rows@.take(i as int), names),
        decreases rows.len() - i,
    {
        assert(rows@.take(i + 1).drop_last() =~= rows@.take(i as int));
        match load_symbol_row(input, account_id, &rows[i]) {
            Ok(snapshot) => {
                if list_contains(needed, rows[i].symbol.as_str()) {
                    if is_covered(&list, rows[i].symbol.as_str()) {
                        proof {
                            gather_fault_of_prefix(input, account_id@, rows@, names, i + 1);
                        }
                        let entity = match input {
                            SymbolInput::Metadata => "risk_input.symbol_metadata",
                            SymbolInput::Market => "risk_input.market_snapshot",
                        };
                        return Err(StoreError::conflict(entity, account_id.as_str()));
                    }
                    place(&mut list, snapshot);
                }
            },
            Err(error) => {
                proof {
                    gather_fault_of_prefix(input, account_id@, rows@, names, i + 1);
                }
                return Err(error);
            },
        }
        i = i + 1;
    }
    assert(rows@.take(i as int) =~= rows@);
    let mut k: usize = 0;
    while k < needed.len()
        invariant
            k <= needed.len(),
            names == text::texts(needed@),
            gather_fault(input, account_id@, rows@, names) is None,
            snapshots::observations(list@) == gathered(rows@, names),
            forall|j: int| 0 <= j < k ==> covers(snapshots::observations(list@), #[trigger] names[j]),
        decreases needed.len() - k,
    {
        if !is_covered(&list, needed[k].as_str()) {
            assert(!covers(snapshots::observations(list@), names[k as int]));
            let lacking = match input {
                SymbolInput::Metadata => "required symbol metadata set is incomplete",
                SymbolInput::Market => "required market snapshot set is incomplete",
            };
            return Err(unavailable(intent_id, lacking));
        }
        assert(covers(snapshots::observations(list@), names[k as int]));
        k = k + 1;
    }
    Ok(list)
}

/// An intent waits for a risk decision.
pub open spec fn awaits_decision(inputs: RiskInputs) -> bool {
    inputs.intent.status@ == "ACCEPTED"@ && !inputs.assessed
}

/// Whether an intent waits for a risk decision. Nothing else has to be read of
/// one that does not.
pub fn waits_for_decision(intent: &StoredTradeIntent, assessed: bool) -> (r: bool)
    ensures
        r == (intent.status@ == "ACCEPTED"@ && !assessed),
{
    same_text(intent.status.as_str(), "ACCEPTED") && !assessed
}

/// The symbols of the members of the full set of positions.
pub open spec fn member_symbols(rows: Seq<MemberRow>) -> Seq<Seq<char>> {
    Seq::new(rows.len(), |i: int| member_observation(rows[i]).symbol)
}

/// The symbols of the members of the full set of orders that may still be
/// filled.
pub open spec fn active_member_symbols(rows: Seq<MemberRow>) -> Seq<Seq<char>>
    decreases rows.len(),
{
    if rows.len() == 0 {
        Seq::empty()
    } else if active_order(rows.last().status@) {
        active_member_symbols(rows.drop_last()).push(member_observation(rows.last()).symbol)
    } else {
        active_member_symbols(rows.drop_last())
    }
}

/// The members of the full set of positions, by their names.
pub open spec fn positions_of(inputs: RiskInputs) -> Seq<MemberRow> {
    listing::sorted(inputs.position_members@)
}

/// The members of the full set of orders, by their names.
pub open spec fn orders_of(inputs: RiskInputs) -> Seq<MemberRow> {
    listing::sorted(inputs.order_members@)
}

/// The commands of the account, by their names.
pub open spec fn commands_of(inputs: RiskInputs) -> Seq<AccountCommand> {
    listing::sorted(inputs.commands@)
}

/// Every symbol that a decision about the intent has to know about.
pub open spec fn needed(inputs: RiskInputs) -> Seq<Seq<char>> {
    intent_symbols(inputs.intent) + member_symbols(positions_of(inputs))
        + active_member_symbols(orders_of(inputs)) + command_symbols(
        pending(commands_of(inputs)),
    )
}

proof fn needed_is_needed(
    inputs: RiskInputs,
    positions: Seq<OrderObservation>,
    orders: Seq<OrderObservation>,
)
    requires
        members_read(positions_of(inputs), positions),
        members_read(orders_of(inputs), orders),
    ensures
        needed_symbols(inputs.intent, faces(positions), orders, pending(commands_of(inputs)))
            == needed(inputs),
{
    assert(position_symbols(faces(positions)) =~= member_symbols(positions_of(inputs)));
    active_symbols_agree(orders_of(inputs), orders);
}

proof fn active_symbols_agree(rows: Seq<MemberRow>, orders: Seq<OrderObservation>)
    requires
        members_read(rows, orders),
    ensures
        order_symbols(orders) == active_member_symbols(rows),
    decreases rows.len(),
{
    if rows.len() > 0 {
        let last = rows.len() - 1;
        assert(orders[last].snapshot@ == member_observation(rows[last]));
        assert forall|i: int| 0 <= i < rows.drop_last().len() implies (
        #[trigger] orders.drop_last()[i]).snapshot@ == member_observation(rows.drop_last()[i])
            && orders.drop_last()[i].status == rows.drop_last()[i].status by {
            assert(orders[i].snapshot@ == member_observation(rows[i]));
        }
        active_symbols_agree(rows.drop_last(), orders.drop_last());
    }
}

/// What is wrong with what a decision about the intent rests on.
pub open spec fn inputs_fault(inputs: RiskInputs) -> Option<Fault> {
    let id = inputs.intent.intent.intent_id@;
    let account = inputs.intent.intent.account_id@;
    let checkpoint = inputs.checkpoint->0;
    let f = match inputs.account {
        None => Some(unavailable_fault(id, "account snapshot is unavailable"@)),
        Some(row) => account_row_fault(account, row),
    };
    let f = error::first_of(
        f,
        if inputs.checkpoint is None {
            Some(unavailable_fault(id, "reconciliation checkpoint is unavailable"@))
        } else if checkpoint.pending_commands_reconciled_at is None {
            Some(
                unavailable_fault(
                    id,
                    "pending-command reconciliation watermark is unavailable"@,
                ),
            )
        } else {
            None
        },
    );
    let f = error::first_of(
        f,
        partial_state_fault(id, checkpoint, inputs.positions@, inputs.orders@),
    );
    let f = error::first_of(
        f,
        member_rows_fault(
            FullSetKind::Positions,
            checkpoint.account_id@,
            checkpoint.positions_observed_at,
            positions_of(inputs),
        ),
    );
    let f = error::first_of(
        f,
        member_rows_fault(
            FullSetKind::Orders,
            checkpoint.account_id@,
            checkpoint.orders_observed_at,
            orders_of(inputs),
        ),
    );
    let f = error::first_of(
        f,
        commands_fault(
            id,
            account,
            checkpoint.pending_commands_reconciled_at->0,
            commands_of(inputs),
            inputs.state_changes@,
        ),
    );
    let f = error::first_of(
        f,
        symbols_fault(SymbolInput::Metadata, id, account, inputs.metadata@, needed(inputs)),
    );
    let f = error::first_of(
        f,
        symbols_fault(SymbolInput::Market, id, account, inputs.markets@, needed(inputs)),
    );
    error::first_of(
        f,
        if inputs.capacity is None {
            Some(unavailable_fault(id, "risk capacity is unavailable"@))
        } else {
            None
        },
    )
}

/// Gathers what a risk decision about an intent rests on, if it waits for one.
/// `inputs` is what the store knows, unless it does not know the intent.
/// Positions, orders and commands come by their names.
pub fn load_trusted_risk_snapshot(intent_id: &IntentId, inputs: Option<RiskInputs>) -> (r: Result<
    Option<TrustedRiskSnapshot>,
    StoreError,
>)
    ensures
        error::fault(r) == (match inputs {
            None => Some(error::missing_fault("trade_intent"@, intent_id@)),
            Some(found) => if awaits_decision(found) {
                inputs_fault(found)
            } else {
                None
            },
        }),
        r matches Ok(snapshot) ==> inputs matches Some(found) && (snapshot is Some
            <==> awaits_decision(found)),
        r matches Ok(Some(snapshot)) ==> {
            let found = inputs->0;
            &&& snapshot.intent == found.intent
            &&& snapshot.account@ == row_observation(found.account->0)
            &&& Some(snapshot.checkpoint) == found.checkpoint
            &&& members_read(orders_of(found), snapshot.orders@)
            &&& snapshots::observations(snapshot.positions@) == Seq::new(
                positions_of(found).len(),
                |i: int| member_observation(positions_of(found)[i]),
            )
            &&& snapshots::observations(snapshot.symbol_metadata@) == gathered(
                found.metadata@,
                needed(found),
            )
            &&& snapshots::observations(snapshot.markets@) == gathered(found.markets@, needed(found))
            &&& snapshot.pending_commands@ == pending(commands_of(found))
            &&& snapshot.circuit_breaker == found.circuit_breaker
            &&& Some(snapshot.capacity) == found.capacity
        },
{
    let inputs = match inputs {
        Some(inputs) => inputs,
        None => {
            return Err(StoreError::missing("trade_intent", intent_id.as_str()));
        },
    };
    if !waits_for_decision(&inputs.intent, inputs.assessed) {
        return Ok(None);
    }
    let ghost given = inputs;
    let RiskInputs {
        intent,
        account,
        checkpoint,
        positions: latest_positions,
        orders: latest_orders,
        position_members,
        order_members,
        commands,
        state_changes,
        metadata,
        markets,
        circuit_breaker,
        capacity,
        ..
    } = inputs;
    let id = &intent.intent.intent_id;
    let account_id = &intent.intent.account_id;
    let account = match &account {
        Some(row) => load_account(account_id, row)?,
        None => {
            return Err(unavailable(id, "account snapshot is unavailable"));
        },
    };
    let checkpoint = match checkpoint {
        Some(checkpoint) => checkpoint,
        None => {
            return Err(unavailable(id, "reconciliation checkpoint is unavailable"));
        },
    };
    let reconciled_at: i64 = match checkpoint.pending_commands_reconciled_at {
        Some(reconciled_at) => reconciled_at,
        None => {
            return Err(
                unavailable(id, "pending-command reconciliation watermark is unavailable"),
            );
        },
    };
    reject_partial_state_after_checkpoint(id, &checkpoint, &latest_positions, &latest_orders)?;
    let position_members = oldest_first(position_members);
    let order_members = oldest_first(order_members);
    let commands = oldest_first(commands);
    let positions = load_members(
        FullSetKind::Positions,
        &checkpoint.account_id,
        checkpoint.positions_observed_at,
        &position_members,
    )?;
    let ghost read_positions = positions@;
    let orders = load_members(
        FullSetKind::Orders,
        &checkpoint.account_id,
        checkpoint.orders_observed_at,
        &order_members,
    )?;
    let pending_commands = load_pending_commands(
        id,
        account_id,
        reconciled_at,
        &commands,
        &state_changes,
    )?;
    let positions = drop_statuses(positions);
    let symbols = required_symbols(&intent, &positions, &orders, &pending_commands);
    proof {
        needed_is_needed(given, read_positions, orders@);
    }
    let symbol_metadata = load_required(
        SymbolInput::Metadata,
        id,
        account_id,
        &metadata,
        &symbols,
    )?;
    let markets = load_required(SymbolInput::Market, id, account_id, &markets, &symbols)?;
    assert(snapshots::observations(positions@) =~= Seq::new(
        positions_of(given).len(),
        |i: int| member_observation(positions_of(given)[i]),
    ));
    match capacity {
        Some(capacity) => Ok(
            Some(
                TrustedRiskSnapshot {
                    intent,
                    account,
                    checkpoint,
                    positions,
                    orders,
                    symbol_metadata,
                    markets,
                    pending_commands,
                    circuit_breaker,
                    capacity,
                },
            ),
        ),
        None => Err(unavailable(&intent.intent.intent_id, "risk capacity is unavailable")),
    }
}

/// Some row is about the symbol.
pub open spec fn listed(rows: Seq<SnapshotRow>, symbol: Seq<char>) -> bool {
    exists|i: int| 0 <= i < rows.len() && (#[trigger] rows[i]).symbol@ == symbol
}

/// Both the metadata and the market of a symbol are known.
pub open spec fn symbol_known(inputs: RiskInputs, symbol: Seq<char>) -> bool {
    listed(inputs.metadata@, symbol) && listed(inputs.markets@, symbol)
}

/// Every symbol of the intent is known.
pub open spec fn intent_ready(inputs: RiskInputs) -> bool {
    forall|i: int|
        0 <= i < intent_symbols(inputs.intent).len() ==> symbol_known(
            inputs,
            #[trigger] intent_symbols(inputs.intent)[i],
        )
}

/// Every symbol that was observed is known; of orders only such as may still be
/// filled count.
pub open spec fn faces_ready(inputs: RiskInputs, faces: Seq<LatestFace>, orders: bool) -> bool {
    forall|i: int|
        0 <= i < faces.len() && (orders ==> active_order((#[trigger] faces[i]).status@))
            ==> symbol_known(inputs, faces[i].symbol@)
}

/// No command lacks a state, or changed after a time.
pub open spec fn commands_settled(commands: Seq<AccountCommand>, at: i64) -> bool {
    forall|i: int|
        0 <= i < commands.len() ==> ((#[trigger] commands[i]).state_columns matches Some(columns)
            && columns.updated_at <= at)
}

/// Every symbol of a command that may still open a position is known.
pub open spec fn commands_ready(inputs: RiskInputs) -> bool {
    forall|i: int|
        0 <= i < inputs.commands@.len() && opening_action(
            (#[trigger] inputs.commands@[i]).action@,
        ) && under_way(inputs.commands@[i]) ==> symbol_known(inputs, inputs.commands@[i].symbol@)
}

/// Everything is there that a decision about the intent rests on, and nothing
/// has changed since the last reconciliation.
pub open spec fn ready(inputs: RiskInputs) -> bool {
    &&& awaits_decision(inputs)
    &&& inputs.account is Some
    &&& inputs.capacity is Some
    &&& inputs.circuit_breaker is Some
    &&& inputs.checkpoint matches Some(checkpoint)
        && checkpoint.pending_commands_reconciled_at matches Some(reconciled_at) && {
        &&& !seen_after(inputs.positions@, checkpoint.positions_observed_at)
        &&& !seen_after(inputs.orders@, checkpoint.orders_observed_at)
        &&& commands_settled(inputs.commands@, reconciled_at)
    }
    &&& intent_ready(inputs)
    &&& faces_ready(inputs, inputs.positions@, false)
    &&& faces_ready(inputs, inputs.orders@, true)
    &&& commands_ready(inputs)
}

/// What the payload of an intent says of the legs that are proposed.
pub enum ProposedSymbols {
    /// No legs are proposed.
    Absent,
    /// The symbols of the legs.
    Listed(Vec<SymbolCode>),
    /// Something else stands where a list should.
    Malformed,
}

/// How far the reconciliation of an account got, as far as scheduling is
/// concerned.
pub struct CheckpointTimes {
    pub positions_observed_at: i64,
    pub orders_observed_at: i64,
    pub pending_commands_reconciled_at: Option<i64>,
}

/// A command of the account, as far as scheduling is concerned.
pub struct CommandFace {
    pub action: String,
    pub symbol: SymbolCode,
    pub state: Option<StateColumns>,
}

/// An intent that may be decided next: what the columns say of it and of its
/// account. `metadata` and `markets` are the symbols of which these are known.
pub struct RiskCandidate {
    pub intent_id: IntentId,
    pub status: String,
    pub requested_at: i64,
    pub symbol: SymbolCode,
    pub legs: ProposedSymbols,
    /// The strategy said when it decided.
    pub has_decision_time: bool,
    /// There is a risk decision already.
    pub assessed: bool,
    pub has_account: bool,
    pub has_capacity: bool,
    pub has_circuit_breaker: bool,
    pub checkpoint: Option<CheckpointTimes>,
    pub positions: Vec<LatestFace>,
    pub orders: Vec<LatestFace>,
    pub commands: Vec<CommandFace>,
    pub metadata: Vec<SymbolCode>,
    pub markets: Vec<SymbolCode>,
}

/// Both the metadata and the market of a symbol are known.
pub open spec fn covered(candidate: RiskCandidate, symbol: Seq<char>) -> bool {
    text::texts(candidate.metadata@).contains(symbol) && text::texts(
        candidate.markets@,
    ).contains(symbol)
}

fn is_symbol_covered(candidate: &RiskCandidate, symbol: &str) -> (r: bool)
    ensures
        r == covered(*candidate, symbol@),
{
    list_contains(&candidate.metadata, symbol) && list_contains(&candidate.markets, symbol)
}

/// Every symbol of a list is known.
pub open spec fn list_covered(candidate: RiskCandidate, symbols: Seq<String>) -> bool {
    forall|i: int| 0 <= i < symbols.len() ==> covered(candidate, (#[trigger] symbols[i])@)
}

fn is_list_covered(candidate: &RiskCandidate, symbols: &Vec<SymbolCode>) -> (r: bool)
    ensures
        r == list_covered(*candidate, symbols@),
{
    let mut i: usize = 0;
    while i < symbols.len()
        invariant
            i <= symbols.len(),
            forall|j: int| 0 <= j < i ==> covered(*candidate, (#[trigger] symbols@[j])@),
        decreases symbols.len() - i,
    {
        if !is_symbol_covered(candidate, symbols[i].as_str()) {
            return false;
        }
        i = i + 1;
    }
    true
}

/// Every symbol of the intent is known.
pub open spec fn legs_covered(candidate: RiskCandidate) -> bool {
    match candidate.legs {
        ProposedSymbols::Absent => covered(candidate, candidate.symbol@),
        ProposedSymbols::Listed(symbols) => list_covered(candidate, symbols@),
        ProposedSymbols::Malformed => false,
    }
}

fn are_legs_covered(candidate: &RiskCandidate) -> (r: bool)
    ensures
        r == legs_covered(*candidate),
{
    match &candidate.legs {
        ProposedSymbols::Absent => is_symbol_covered(candidate, candidate.symbol.as_str()),
        ProposedSymbols::Listed(symbols) => is_list_covered(candidate, symbols),
        ProposedSymbols::Malformed => false,
    }
}

/// Every symbol that was observed is known; of orders only such as may still be
/// filled count.
pub open spec fn faces_covered(
    candidate: RiskCandidate,
    faces: Seq<LatestFace>,
    orders: bool,
) -> bool {
    forall|i: int|
        0 <= i < faces.len() && (orders ==> active_order((#[trigger] faces[i]).status@))
            ==> covered(candidate, faces[i].symbol@)
}

fn are_faces_covered(candidate: &RiskCandidate, faces: &Vec<LatestFace>, orders: bool) -> (r: bool)
    ensures
        r == faces_covered(*candidate, faces@, orders),
{
    let mut i: usize = 0;
    while i < faces.len()
        invariant
            i <= faces.len(),
            forall|j: int|
                0 <= j < i && (orders ==> active_order((#[trigger] faces@[j]).status@))
                    ==> covered(*candidate, faces@[j].symbol@),
        decreases faces.len() - i,
    {
        let counts = !orders || order_is_active(faces[i].status.as_str());
        if counts && !is_symbol_covered(candidate, faces[i].symbol.as_str()) {
            assert(orders ==> active_order(faces@[i as int].status@));
            return false;
        }
        i = i + 1;
    }
    true
}

/// No command lacks a state, or changed after a time.
pub open spec fn faces_settled(commands: Seq<CommandFace>, at: i64) -> bool {
    forall|i: int|
        0 <= i < commands.len() ==> ((#[trigger] commands[i]).state matches Some(state)
            && state.updated_at <= at)
}

fn are_faces_settled(commands: &Vec<CommandFace>, at: i64) -> (r: bool)
    ensures
        r == faces_settled(commands@, at),
{
    let mut i: usize = 0;
    while i < commands.len()
        invariant
            i <= commands.len(),
            forall|j: int|
                0 <= j < i ==> ((#[trigger] commands@[j]).state matches Some(state)
                    && state.updated_at <= at),
        decreases commands.len() - i,
    {
        let settled = match &commands[i].state {
            Some(state) => state.updated_at <= at,
            None => false,
        };
        if !settled {
            assert(!(commands@[i as int].state matches Some(state) && state.updated_at <= at));
            return false;
        }
        i = i + 1;
    }
    true
}

/// The command may still open a position.
pub open spec fn may_open(command: CommandFace) -> bool {
    opening_action(command.action@) && (command.state matches Some(state) && !terminal_status(
        state.status@,
    ))
}

/// Every symbol of a command that may still open a position is known.
pub open spec fn commands_covered(candidate: RiskCandidate) -> bool {
    forall|i: int|
        0 <= i < candidate.commands@.len() && may_open(#[trigger] candidate.commands@[i])
            ==> covered(candidate, candidate.commands@[i].symbol@)
}

fn are_commands_covered(candidate: &RiskCandidate) -> (r: bool)
    ensures
        r == commands_covered(*candidate),
{
    let mut i: usize = 0;
    while i < candidate.commands.len()
        invariant
            i <= candidate.commands.len(),
            forall|j: int|
                0 <= j < i && may_open(#[trigger] candidate.commands@[j]) ==> covered(
                    *candidate,
                    candidate.commands@[j].symbol@,
                ),
        decreases candidate.commands.len() - i,
    {
        let command = &candidate.commands[i];
        let open = match &command.state {
            Some(state) => !command_state_is_terminal(state.status.as_str()),
            None => false,
        };
        if is_opening_action(command.action.as_str()) && open && !is_symbol_covered(
            candidate,
            command.symbol.as_str(),
        ) {
            assert(may_open(candidate.commands@[i as int]));
            return false;
        }
        i = i + 1;
    }
    true
}

/// Everything is there that a decision about the intent rests on, and nothing
/// has changed since the last reconciliation, as far as the columns say.
pub open spec fn schedulable(candidate: RiskCandidate) -> bool {
    &&& candidate.status@ == "ACCEPTED"@
    &&& !candidate.assessed
    &&& candidate.has_decision_time
    &&& candidate.has_account
    &&& candidate.has_capacity
    &&& candidate.has_circuit_breaker
    &&& candidate.checkpoint matches Some(checkpoint)
        && checkpoint.pending_commands_reconciled_at matches Some(reconciled_at) && {
        &&& !seen_after(candidate.positions@, checkpoint.positions_observed_at)
        &&& !seen_after(candidate.orders@, checkpoint.orders_observed_at)
        &&& faces_settled(candidate.commands@, reconciled_at)
    }
    &&& legs_covered(candidate)
    &&& faces_covered(candidate, candidate.positions@, false)
    &&& faces_covered(candidate, candidate.orders@, true)
    &&& commands_covered(candidate)
}

/// Whether everything is there that a decision about the intent rests on.
pub fn is_ready(candidate: &RiskCandidate) -> (r: bool)
    ensures
        r == schedulable(*candidate),
{
    if !same_text(candidate.status.as_str(), "ACCEPTED") || candidate.assessed
        || !candidate.has_decision_time || !candidate.has_account || !candidate.has_capacity
        || !candidate.has_circuit_breaker {
        return false;
    }
    let checkpoint = match &candidate.checkpoint {
        Some(checkpoint) => checkpoint,
        None => {
            return false;
        },
    };
    let reconciled_at: i64 = match checkpoint.pending_commands_reconciled_at {
        Some(reconciled_at) => reconciled_at,
        None => {
            return false;
        },
    };
    !is_seen_after(&candidate.positions, checkpoint.positions_observed_at) && !is_seen_after(
        &candidate.orders,
        checkpoint.orders_observed_at,
    ) && are_faces_settled(&candidate.commands, reconciled_at) && are_legs_covered(candidate)
        && are_faces_covered(candidate, &candidate.positions, false) && are_faces_covered(
        candidate,
        &candidate.orders,
        true,
    ) && are_commands_covered(candidate)
}

/// One intent comes before another.
pub open spec fn requested_before(a: RiskCandidate, b: RiskCandidate) -> bool {
    a.requested_at < b.requested_at || (a.requested_at == b.requested_at && text::precedes(
        a.intent_id@,
        b.intent_id@,
    ))
}

/// Where the intent stands that is decided next.
pub open spec fn next_ready(items: Seq<RiskCandidate>) -> Option<int>
    decreases items.len(),
{
    if items.len() == 0 {
        None
    } else {
        let before = next_ready(items.drop_last());
        let at = items.len() - 1;
        if !schedulable(items[at]) {
            before
        } else {
            match before {
                None => Some(at),
                Some(best) => if requested_before(items[at], items[best]) {
                    Some(at)
                } else {
                    before
                },
            }
        }
    }
}

/// Picks the intent that is decided next: of those that everything is there for
/// the one that was requested first.
pub fn next_pending_risk_intent_id(items: &Vec<RiskCandidate>) -> (r: Option<IntentId>)
    ensures
        match (r, next_ready(items@)) {
            (Some(intent_id), Some(best)) => 0 <= best < items@.len() && intent_id
                == items@[best].intent_id,
            (None, None) => true,
            _ => false,
        },
{
    let mut best: Option<usize> = None;
    let mut i: usize = 0;
    while i < items.len()
        invariant
            i <= items.len(),
            match (best, next_ready(items@.take(i as int))) {
                (Some(found), Some(meant)) => found == meant && found < i,
                (None, None) => true,
                _ => false,
            },
        decreases items.len() - i,
    {
        assert(items@.take(i + 1).drop_last() =~= items@.take(i as int));
        if is_ready(&items[i]) {
            let better = match best {
                None => true,
                Some(found) => {
                    let a = &items[i];
                    let b = &items[found];
                    a.requested_at < b.requested_at || (a.requested_at == b.requested_at
                        && text_precedes(a.intent_id.as_str(), b.intent_id.as_str()))
                },
            };
            if better {
                best = Some(i);
            }
        }
        i = i + 1;
    }
    assert(items@.take(i as int) =~= items@);
    match best {
        Some(found) => Some(items[found].intent_id.clone()),
        None => None,
    }
}

/// The symbols that rows are about.
pub open spec fn row_symbols(rows: Seq<SnapshotRow>) -> Seq<Seq<char>> {
    Seq::new(rows.len(), |i: int| rows[i].symbol@)
}

/// What the columns say of an intent is what its inputs say.
pub open spec fn faces_of(candidate: RiskCandidate, inputs: RiskInputs) -> bool {
    &&& candidate.status@ == inputs.intent.status@
    &&& candidate.assessed == inputs.assessed
    &&& candidate.has_account == inputs.account is Some
    &&& candidate.has_capacity == inputs.capacity is Some
    &&& candidate.has_circuit_breaker == inputs.circuit_breaker is Some
    &&& match (candidate.checkpoint, inputs.checkpoint) {
        (Some(times), Some(checkpoint)) => {
            &&& times.positions_observed_at == checkpoint.positions_observed_at
            &&& times.orders_observed_at == checkpoint.orders_observed_at
            &&& times.pending_commands_reconciled_at == checkpoint.pending_commands_reconciled_at
        },
        (None, None) => true,
        _ => false,
    }
    &&& candidate.positions@ == inputs.positions@
    &&& candidate.orders@ == inputs.orders@
    &&& candidate.commands@.len() == inputs.commands@.len()
    &&& forall|i: int|
        0 <= i < candidate.commands@.len() ==> {
            &&& (#[trigger] candidate.commands@[i]).action@ == inputs.commands@[i].action@
            &&& candidate.commands@[i].symbol@ == inputs.commands@[i].symbol@
            &&& candidate.commands@[i].state == inputs.commands@[i].state_columns
        }
    &&& text::texts(candidate.metadata@) == row_symbols(inputs.metadata@)
    &&& text::texts(candidate.markets@) == row_symbols(inputs.markets@)
    &&& match (candidate.legs, inputs.intent.intent.proposed_legs) {
        (ProposedSymbols::Listed(symbols), Some(legs)) => text::texts(symbols@)
            == intent_symbols(inputs.intent),
        (ProposedSymbols::Absent, None) => candidate.symbol@ == inputs.intent.intent.symbol@,
        _ => false,
    }
}

proof fn covered_is_known(candidate: RiskCandidate, inputs: RiskInputs, symbol: Seq<char>)
    requires
        faces_of(candidate, inputs),
        covered(candidate, symbol),
    ensures
        symbol_known(inputs, symbol),
{
    let metadata = row_symbols(inputs.metadata@);
    let i = choose|i: int| 0 <= i < metadata.len() && metadata[i] == symbol;
    assert(inputs.metadata@[i].symbol@ == symbol);
    let markets = row_symbols(inputs.markets@);
    let j = choose|j: int| 0 <= j < markets.len() && markets[j] == symbol;
    assert(inputs.markets@[j].symbol@ == symbol);
}

proof fn schedulable_is_ready(candidate: RiskCandidate, inputs: RiskInputs)
    requires
        schedulable(candidate),
        faces_of(candidate, inputs),
    ensures
        ready(inputs),
{
    let symbols = intent_symbols(inputs.intent);
    assert forall|i: int| 0 <= i < symbols.len() implies symbol_known(
        inputs,
        #[trigger] symbols[i],
    ) by {
        match candidate.legs {
            ProposedSymbols::Listed(list) => {
                assert(text::texts(list@)[i] == list@[i]@);
            },
            _ => {},
        }
        covered_is_known(candidate, inputs, symbols[i]);
    }
    let positions = inputs.positions@;
    assert forall|i: int| 0 <= i < positions.len() implies symbol_known(
        inputs,
        (#[trigger] positions[i]).symbol@,
    ) by {
        covered_is_known(candidate, inputs, positions[i].symbol@);
    }
    let orders = inputs.orders@;
    assert forall|i: int|
        0 <= i < orders.len() && active_order((#[trigger] orders[i]).status@) implies symbol_known(
        inputs,
        orders[i].symbol@,
    ) by {
        covered_is_known(candidate, inputs, orders[i].symbol@);
    }
    let commands = inputs.commands@;
    assert forall|i: int|
        0 <= i < commands.len() && opening_action((#[trigger] commands[i]).action@) && under_way(
            commands[i],
        ) implies symbol_known(inputs, commands[i].symbol@) by {
        assert(may_open(candidate.commands@[i]));
        covered_is_known(candidate, inputs, commands[i].symbol@);
    }
    let at = (inputs.checkpoint->0).pending_commands_reconciled_at->0;
    assert forall|i: int| 0 <= i < commands.len() implies ((
    #[trigger] commands[i]).state_columns matches Some(columns) && columns.updated_at <= at) by {
        assert(candidate.commands@[i].state == commands[i].state_columns);
    }
}

/// The inputs belong together: the full sets hold nothing that was not observed
/// as well, and the columns of commands say what the commands say.
pub open spec fn coherent(inputs: RiskInputs) -> bool {
    &&& forall|i: int|
        0 <= i < inputs.position_members@.len() ==> observed_symbol(
            inputs.positions@,
            member_observation(#[trigger] inputs.position_members@[i]).symbol,
            false,
        )
    &&& forall|i: int|
        0 <= i < inputs.order_members@.len() && active_order(
            (#[trigger] inputs.order_members@[i]).status@,
        ) ==> observed_symbol(
            inputs.orders@,
            member_observation(inputs.order_members@[i]).symbol,
            true,
        )
    &&& forall|i: int| 0 <= i < inputs.commands@.len() ==> columns_agree(
        #[trigger] inputs.commands@[i],
    )
    &&& forall|i: int|
        0 <= i < inputs.state_changes@.len() ==> change_of(
            inputs.commands@,
            #[trigger] inputs.state_changes@[i],
        )
}

/// The symbol was observed; of orders only such as may still be filled count.
pub open spec fn observed_symbol(faces: Seq<LatestFace>, symbol: Seq<char>, orders: bool) -> bool {
    exists|i: int|
        0 <= i < faces.len() && (#[trigger] faces[i]).symbol@ == symbol && (orders ==> active_order(
            faces[i].status@,
        ))
}

/// The columns of a command say what the command says.
pub open spec fn columns_agree(command: AccountCommand) -> bool {
    &&& command.command matches Some(found) ==> found.command.symbol@ == command.symbol@
        && found.command.action@ == command.action@
}

/// Some command changed its state at that time.
pub open spec fn change_of(commands: Seq<AccountCommand>, at: i64) -> bool {
    exists|i: int|
        0 <= i < commands.len() && ((#[trigger] commands[i]).state_columns matches Some(columns)
            && columns.updated_at == at)
}

proof fn placed_covers(list: Seq<Observation>, item: Observation, symbol: Seq<char>)
    requires
        covers(list, symbol) || item.symbol == symbol,
    ensures
        covers(placed(list, item), symbol),
    decreases list.len(),
{
    let after = placed(list, item);
    if list.len() == 0 || !text::precedes(item.symbol, list.last().symbol) {
        if item.symbol == symbol {
            assert(after[after.len() - 1].symbol == symbol);
        } else {
            let i = choose|i: int| 0 <= i < list.len() && (#[trigger] list[i]).symbol == symbol;
            assert(after[i].symbol == symbol);
        }
    } else {
        let shorter = list.drop_last();
        let before = placed(shorter, item);
        if list.last().symbol == symbol {
            assert(after[after.len() - 1].symbol == symbol);
        } else {
            if item.symbol != symbol {
                let i = choose|i: int|
                    0 <= i < list.len() && (#[trigger] list[i]).symbol == symbol;
                assert(shorter[i].symbol == symbol);
            }
            placed_covers(shorter, item, symbol);
            let k = choose|k: int|
                0 <= k < before.len() && (#[trigger] before[k]).symbol == symbol;
            assert(after[k].symbol == symbol);
        }
    }
}

proof fn gathered_covers(rows: Seq<SnapshotRow>, needed: Seq<Seq<char>>, i: int)
    requires
        0 <= i < rows.len(),
        needed.contains(rows[i].symbol@),
    ensures
        covers(gathered(rows, needed), rows[i].symbol@),
    decreases rows.len(),
{
    let before = gathered(rows.drop_last(), needed);
    if i < rows.len() - 1 {
        assert(rows.drop_last()[i] == rows[i]);
        gathered_covers(rows.drop_last(), needed, i);
    }
    if needed.contains(rows.last().symbol@) {
        placed_covers(before, row_observation(rows.last()), rows[i].symbol@);
    }
}

proof fn listed_is_covered(rows: Seq<SnapshotRow>, needed: Seq<Seq<char>>)
    requires
        forall|i: int| 0 <= i < needed.len() ==> listed(rows, #[trigger] needed[i]),
    ensures
        all_covered(gathered(rows, needed), needed),
{
    assert forall|i: int| 0 <= i < needed.len() implies covers(
        gathered(rows, needed),
        #[trigger] needed[i],
    ) by {
        assert(listed(rows, needed[i]));
        let k = choose|k: int| 0 <= k < rows.len() && (#[trigger] rows[k]).symbol@ == needed[i];
        assert(needed.contains(rows[k].symbol@));
        gathered_covers(rows, needed, k);
    }
}

proof fn member_faults_are_corruption(
    kind: FullSetKind,
    account_id: Seq<char>,
    watermark: i64,
    rows: Seq<MemberRow>,
)
    ensures
        member_rows_fault(kind, account_id, watermark, rows) matches Some(fault)
            ==> fault is CorruptData,
    decreases rows.len(),
{
    if rows.len() > 0 {
        member_faults_are_corruption(kind, account_id, watermark, rows.drop_last());
    }
}

proof fn pending_faults_are_corruption(account_id: Seq<char>, commands: Seq<AccountCommand>)
    ensures
        pending_list_fault(account_id, commands) matches Some(fault) ==> fault is CorruptData,
    decreases commands.len(),
{
    if commands.len() > 0 {
        pending_faults_are_corruption(account_id, commands.drop_last());
    }
}

proof fn gather_faults_are_not_gaps(
    input: SymbolInput,
    account_id: Seq<char>,
    rows: Seq<SnapshotRow>,
    needed: Seq<Seq<char>>,
)
    ensures
        gather_fault(input, account_id, rows, needed) matches Some(fault)
            ==> fault is CorruptData || fault is IdentityConflict,
    decreases rows.len(),
{
    if rows.len() > 0 {
        gather_faults_are_not_gaps(input, account_id, rows.drop_last(), needed);
    }
}

proof fn active_members_known(inputs: RiskInputs, rows: Seq<MemberRow>)
    requires
        forall|i: int|
            0 <= i < rows.len() && active_order((#[trigger] rows[i]).status@) ==> symbol_known(
                inputs,
                member_observation(rows[i]).symbol,
            ),
    ensures
        forall|i: int|
            0 <= i < active_member_symbols(rows).len() ==> symbol_known(
                inputs,
                #[trigger] active_member_symbols(rows)[i],
            ),
    decreases rows.len(),
{
    if rows.len() > 0 {
        let shorter = rows.drop_last();
        assert forall|i: int|
            0 <= i < shorter.len() && active_order((#[trigger] shorter[i]).status@)
            implies symbol_known(inputs, member_observation(shorter[i]).symbol) by {
            assert(shorter[i] == rows[i]);
        }
        active_members_known(inputs, shorter);
        assert(rows[rows.len() - 1] == rows.last());
        let before = active_member_symbols(shorter);
        let after = active_member_symbols(rows);
        assert forall|i: int| 0 <= i < after.len() implies symbol_known(
            inputs,
            #[trigger] after[i],
        ) by {
            if i < before.len() {
                assert(after[i] == before[i]);
            }
        }
    }
}

proof fn pending_symbols_known(inputs: RiskInputs, commands: Seq<AccountCommand>)
    requires
        pending_list_fault(inputs.intent.intent.account_id@, commands) is None,
        forall|i: int| 0 <= i < commands.len() ==> columns_agree(#[trigger] commands[i]),
        forall|i: int|
            0 <= i < commands.len() && opening_action((#[trigger] commands[i]).action@)
                && under_way(commands[i]) ==> symbol_known(inputs, commands[i].symbol@),
    ensures
        forall|i: int|
            0 <= i < command_symbols(pending(commands)).len() ==> symbol_known(
                inputs,
                #[trigger] command_symbols(pending(commands))[i],
            ),
    decreases commands.len(),
{
    if commands.len() > 0 {
        let shorter = commands.drop_last();
        let last = commands.len() - 1;
        assert(commands[last] == commands.last());
        assert forall|i: int| 0 <= i < shorter.len() implies columns_agree(
            #[trigger] shorter[i],
        ) by {
            assert(shorter[i] == commands[i]);
        }
        assert forall|i: int|
            0 <= i < shorter.len() && opening_action((#[trigger] shorter[i]).action@)
                && under_way(shorter[i]) implies symbol_known(inputs, shorter[i].symbol@) by {
            assert(shorter[i] == commands[i]);
        }
        pending_symbols_known(inputs, shorter);
        if under_way(commands.last()) {
            let before = pending(shorter);
            let after = pending(commands);
            assert(after.drop_last() =~= before);
            assert(columns_agree(commands[last]));
            let earlier = command_symbols(before);
            let symbols = command_symbols(after);
            assert forall|i: int| 0 <= i < symbols.len() implies symbol_known(
                inputs,
                #[trigger] symbols[i],
            ) by {
                if i < earlier.len() {
                    assert(symbols[i] == earlier[i]);
                } else {
                    assert(commands[last].action@ == after.last().command.command.action@);
                }
            }
        }
    }
}

proof fn settled_has_states(commands: Seq<AccountCommand>, at: i64)
    requires
        commands_settled(commands, at),
    ensures
        stateless(commands) is None,
    decreases commands.len(),
{
    if commands.len() > 0 {
        let shorter = commands.drop_last();
        assert(commands_settled(shorter, at)) by {
            assert forall|i: int| 0 <= i < shorter.len() implies ((
            #[trigger] shorter[i]).state_columns matches Some(columns) && columns.updated_at
                <= at) by {
                assert(shorter[i] == commands[i]);
            }
        }
        settled_has_states(shorter, at);
        assert(commands[commands.len() - 1] == commands.last());
    }
}

/// An intent that is picked lacks nothing: gathering what a decision rests on
/// never finds something missing or outdated. (It may still find something
/// corrupt.)
pub proof fn picked_intents_lack_nothing(candidate: RiskCandidate, inputs: RiskInputs)
    requires
        schedulable(candidate),
        faces_of(candidate, inputs),
        coherent(inputs),
    ensures
        inputs_fault(inputs) matches Some(fault) ==> !(fault is SnapshotUnavailable),
{
    schedulable_is_ready(candidate, inputs);
    let checkpoint = inputs.checkpoint->0;
    let reconciled_at = checkpoint.pending_commands_reconciled_at->0;
    let account = inputs.intent.intent.account_id@;
    let positions = positions_of(inputs);
    let orders = orders_of(inputs);
    let commands = commands_of(inputs);
    listing::sorted_members(inputs.position_members@);
    listing::sorted_members(inputs.order_members@);
    listing::sorted_members(inputs.commands@);
    member_faults_are_corruption(
        FullSetKind::Positions,
        checkpoint.account_id@,
        checkpoint.positions_observed_at,
        positions,
    );
    member_faults_are_corruption(
        FullSetKind::Orders,
        checkpoint.account_id@,
        checkpoint.orders_observed_at,
        orders,
    );
    pending_faults_are_corruption(account, commands);
    gather_faults_are_not_gaps(SymbolInput::Metadata, account, inputs.metadata@, needed(inputs));
    gather_faults_are_not_gaps(SymbolInput::Market, account, inputs.markets@, needed(inputs));
    assert forall|i: int| 0 <= i < commands.len() implies ((
    #[trigger] commands[i]).state_columns matches Some(columns) && columns.updated_at
        <= reconciled_at) by {
        assert(inputs.commands@.contains(commands[i]));
    }
    settled_has_states(commands, reconciled_at);
    assert(!changed_after(inputs.state_changes@, reconciled_at)) by {
        if changed_after(inputs.state_changes@, reconciled_at) {
            let i = choose|i: int|
                0 <= i < inputs.state_changes@.len() && #[trigger] inputs.state_changes@[i]
                    > reconciled_at;
            assert(change_of(inputs.commands@, inputs.state_changes@[i]));
            let k = choose|k: int|
                0 <= k < inputs.commands@.len() && ((
                #[trigger] inputs.commands@[k]).state_columns matches Some(columns)
                    && columns.updated_at == inputs.state_changes@[i]);
            assert(inputs.commands@[k].state_columns->0.updated_at <= reconciled_at);
        }
    }
    if pending_list_fault(account, commands) is None {
        let symbols = needed(inputs);
        let first = intent_symbols(inputs.intent);
        let second = member_symbols(positions);
        let third = active_member_symbols(orders);
        let fourth = command_symbols(pending(commands));
        assert forall|i: int| 0 <= i < commands.len() implies columns_agree(
            #[trigger] commands[i],
        ) by {
            assert(inputs.commands@.contains(commands[i]));
        }
        assert forall|i: int|
            0 <= i < commands.len() && opening_action((#[trigger] commands[i]).action@)
                && under_way(commands[i]) implies symbol_known(inputs, commands[i].symbol@) by {
            assert(inputs.commands@.contains(commands[i]));
        }
        pending_symbols_known(inputs, commands);
        assert forall|i: int|
            0 <= i < orders.len() && active_order(
                (#[trigger] orders[i]).status@,
            ) implies symbol_known(inputs, member_observation(orders[i]).symbol) by {
            assert(inputs.order_members@.contains(orders[i]));
            let symbol = member_observation(orders[i]).symbol;
            assert(observed_symbol(inputs.orders@, symbol, true));
            let k = choose|k: int|
                0 <= k < inputs.orders@.len() && (#[trigger] inputs.orders@[k]).symbol@ == symbol
                    && (true ==> active_order(inputs.orders@[k].status@));
            assert(symbol_known(inputs, inputs.orders@[k].symbol@));
        }
        active_members_known(inputs, orders);
        assert forall|i: int| 0 <= i < symbols.len() implies symbol_known(
            inputs,
            #[trigger] symbols[i],
        ) by {
            if i < first.len() {
                assert(symbols[i] == first[i]);
            } else if i < first.len() + second.len() {
                let j = i - first.len();
                assert(symbols[i] == second[j]);
                assert(inputs.position_members@.contains(positions[j]));
                let symbol = member_observation(positions[j]).symbol;
                assert(observed_symbol(inputs.positions@, symbol, false));
                let k = choose|k: int|
                    0 <= k < inputs.positions@.len() && (
                    #[trigger] inputs.positions@[k]).symbol@ == symbol;
                assert(symbol_known(inputs, inputs.positions@[k].symbol@));
            } else if i < first.len() + second.len() + third.len() {
                assert(symbols[i] == third[i - first.len() - second.len()]);
            } else {
                assert(symbols[i] == fourth[i - first.len() - second.len() - third.len()]);
            }
        }
        assert forall|i: int| 0 <= i < symbols.len() implies listed(
            inputs.metadata@,
            #[trigger] symbols[i],
        ) by {
            assert(symbol_known(inputs, symbols[i]));
        }
        assert forall|i: int| 0 <= i < symbols.len() implies listed(
            inputs.markets@,
            #[trigger] symbols[i],
        ) by {
            assert(symbol_known(inputs, symbols[i]));
        }
        listed_is_covered(inputs.metadata@, symbols);
        listed_is_covered(inputs.markets@, symbols);
    }
}

/// What a decision rests on covers every symbol that it has to know about.
pub proof fn trusted_snapshots_cover_their_symbols(inputs: RiskInputs, i: int)
    requires
        awaits_decision(inputs),
        inputs_fault(inputs) is None,
        0 <= i < needed(inputs).len(),
    ensures
        covers(gathered(inputs.metadata@, needed(inputs)), needed(inputs)[i]),
        covers(gathered(inputs.markets@, needed(inputs)), needed(inputs)[i]),
{
}

/// What a decision rests on comes by its names: positions, orders and commands.
pub proof fn trusted_snapshots_are_in_order(inputs: RiskInputs)
    ensures
        forall|i: int, j: int|
            0 <= i < j < positions_of(inputs).len() ==> !text::precedes(
                (#[trigger] positions_of(inputs)[j]).id@,
                (#[trigger] positions_of(inputs)[i]).id@,
            ),
        forall|i: int, j: int|
            0 <= i < j < orders_of(inputs).len() ==> !text::precedes(
                (#[trigger] orders_of(inputs)[j]).id@,
                (#[trigger] orders_of(inputs)[i]).id@,
            ),
        forall|i: int, j: int|
            0 <= i < j < commands_of(inputs).len() ==> !text::precedes(
                (#[trigger] commands_of(inputs)[j]).command_id@,
                (#[trigger] commands_of(inputs)[i]).command_id@,
            ),
        positions_of(inputs).to_multiset() == inputs.position_members@.to_multiset(),
        orders_of(inputs).to_multiset() == inputs.order_members@.to_multiset(),
        commands_of(inputs).to_multiset() == inputs.commands@.to_multiset(),
{
    listing::sorted_is_ordered(inputs.position_members@);
    listing::sorted_is_ordered(inputs.order_members@);
    listing::sorted_is_ordered(inputs.commands@);
    listing::sorted_is_a_rearrangement(inputs.position_members@);
    listing::sorted_is_a_rearrangement(inputs.order_members@);
    listing::sorted_is_a_rearrangement(inputs.commands@);
}

proof fn pending_has(commands: Seq<AccountCommand>, i: int)
    requires
        0 <= i < commands.len(),
        under_way(commands[i]),
    ensures
        pending(commands).contains(
            PendingCommandSnapshot { command: commands[i].command->0, state: commands[i].state->0 },
        ),
    decreases commands.len(),
{
    let shorter = commands.drop_last();
    let after = pending(commands);
    let held = PendingCommandSnapshot {
        command: commands[i].command->0,
        state: commands[i].state->0,
    };
    if i == commands.len() - 1 {
        assert(after[after.len() - 1] == held);
    } else {
        assert(shorter[i] == commands[i]);
        pending_has(shorter, i);
        let before = pending(shorter);
        let k = choose|k: int| 0 <= k < before.len() && before[k] == held;
        assert(after[k] == held);
    }
}

proof fn pending_only(commands: Seq<AccountCommand>, k: int) -> (i: int)
    requires
        0 <= k < pending(commands).len(),
    ensures
        0 <= i < commands.len(),
        under_way(commands[i]),
        pending(commands)[k] == (PendingCommandSnapshot {
            command: commands[i].command->0,
            state: commands[i].state->0,
        }),
    decreases commands.len(),
{
    let shorter = commands.drop_last();
    let before = pending(shorter);
    if k < before.len() {
        let i = pending_only(shorter, k);
        assert(shorter[i] == commands[i]);
        i
    } else {
        commands.len() - 1
    }
}

proof fn pending_is_sound(account_id: Seq<char>, commands: Seq<AccountCommand>, i: int)
    requires
        0 <= i < commands.len(),
        under_way(commands[i]),
        pending_list_fault(account_id, commands) is None,
    ensures
        pending_fault(account_id, commands[i]) is None,
    decreases commands.len(),
{
    if i < commands.len() - 1 {
        assert(commands.drop_last()[i] == commands[i]);
        pending_is_sound(account_id, commands.drop_last(), i);
    }
}

proof fn states_are_there(commands: Seq<AccountCommand>, i: int)
    requires
        0 <= i < commands.len(),
        stateless(commands) is None,
    ensures
        commands[i].state_columns is Some,
    decreases commands.len(),
{
    if i < commands.len() - 1 {
        assert(commands.drop_last()[i] == commands[i]);
        states_are_there(commands.drop_last(), i);
    }
}

/// Every command of the account is pending whose delivery did not fail and which
/// was neither rejected, nor filled, nor failed, nor expired, nor cancelled. A
/// trusted snapshot holds all of these and no others, each with its state, and
/// each is of the account of the intent.
pub proof fn trusted_snapshots_hold_every_pending_command(
    inputs: RiskInputs,
    held: Seq<PendingCommandSnapshot>,
)
    requires
        inputs_fault(inputs) is None,
        held == pending(commands_of(inputs)),
    ensures
        forall|i: int| 0 <= i < inputs.commands@.len() ==> {
            let command = #[trigger] inputs.commands@[i];
            &&& command.state_columns is Some
            &&& ({
                let status = (command.state_columns->0).status@;
                status != "DELIVERY_FAILED"@ && status != "REJECTED"@ && status != "FILLED"@ && status != "FAILED"@
                && status != "EXPIRED"@ && status != "CANCELLED"@
            }) ==> {
                &&& command.command is Some && command.state is Some
                &&& command.command->0.command.account_id@ == inputs.intent.intent.account_id@
                &&& command.state->0.account_id@ == inputs.intent.intent.account_id@
                &&& held.contains(
                    PendingCommandSnapshot {
                        command: command.command->0,
                        state: command.state->0,
                    },
                )
            }
        },
        forall|k: int| 0 <= k < held.len() ==> exists|i: int| {
            let command = #[trigger] inputs.commands@[i];
            let status = (command.state_columns->0).status@;
            &&& 0 <= i < inputs.commands@.len()
            &&& command.state_columns is Some
            &&& status != "DELIVERY_FAILED"@ && status != "REJECTED"@ && status != "FILLED"@ && status != "FAILED"@
                && status != "EXPIRED"@ && status != "CANCELLED"@
            &&& #[trigger] held[k] == (PendingCommandSnapshot {
                command: command.command->0,
                state: command.state->0,
            })
        },
{
    let commands = commands_of(inputs);
    let account = inputs.intent.intent.account_id@;
    listing::sorted_members(inputs.commands@);
    assert forall|i: int| 0 <= i < inputs.commands@.len() implies {
        let command = #[trigger] inputs.commands@[i];
        &&& command.state_columns is Some
        &&& ({
            let status = (command.state_columns->0).status@;
            status != "DELIVERY_FAILED"@ && status != "REJECTED"@ && status != "FILLED"@ && status != "FAILED"@
                && status != "EXPIRED"@ && status != "CANCELLED"@
        }) ==> {
            &&& command.command is Some && command.state is Some
            &&& command.command->0.command.account_id@ == account
            &&& command.state->0.account_id@ == account
            &&& held.contains(
                PendingCommandSnapshot { command: command.command->0, state: command.state->0 },
            )
        }
    } by {
        let command = inputs.commands@[i];
        listing::sorted_keeps(inputs.commands@, i);
        let k = choose|k: int| 0 <= k < commands.len() && commands[k] == command;
        states_are_there(commands, k);
        let status = (command.state_columns->0).status@;
        if status != "DELIVERY_FAILED"@ && status != "REJECTED"@ && status != "FILLED"@ && status != "FAILED"@
                && status != "EXPIRED"@ && status != "CANCELLED"@ {
            pending_has(commands, k);
            pending_is_sound(account, commands, k);
        }
    }
    assert forall|k: int| 0 <= k < held.len() implies exists|i: int| {
        let command = #[trigger] inputs.commands@[i];
        let status = (command.state_columns->0).status@;
        &&& 0 <= i < inputs.commands@.len()
        &&& command.state_columns is Some
        &&& status != "DELIVERY_FAILED"@ && status != "REJECTED"@ && status != "FILLED"@ && status != "FAILED"@
                && status != "EXPIRED"@ && status != "CANCELLED"@
        &&& #[trigger] held[k] == (PendingCommandSnapshot {
            command: command.command->0,
            state: command.state->0,
        })
    } by {
        let c = pending_only(commands, k);
        assert(inputs.commands@.contains(commands[c]));
        let i = choose|i: int| 0 <= i < inputs.commands@.len() && inputs.commands@[i] == commands[c];
        assert(inputs.commands@[i].state_columns is Some);
    }
}

proof fn member_is_sound(
    kind: FullSetKind,
    account_id: Seq<char>,
    watermark: i64,
    rows: Seq<MemberRow>,
    i: int,
)
    requires
        0 <= i < rows.len(),
        member_rows_fault(kind, account_id, watermark, rows) is None,
    ensures
        member_row_fault(kind, account_id, watermark, rows[i]) is None,
    decreases rows.len(),
{
    if i < rows.len() - 1 {
        assert(rows.drop_last()[i] == rows[i]);
        member_is_sound(kind, account_id, watermark, rows.drop_last(), i);
    }
}

/// A snapshot is trusted only if the account was observed and reconciled, with
/// all its commands, nothing was observed or changed since, the members of its
/// full sets are of the account and of the time of the sets, and its capacity is
/// known.
pub proof fn trusted_snapshots_are_fresh(inputs: RiskInputs)
    requires
        inputs_fault(inputs) is None,
    ensures
        inputs.account is Some && (inputs.account->0).account_id@
            == inputs.intent.intent.account_id@,
        inputs.checkpoint is Some && (inputs.checkpoint->0).pending_commands_reconciled_at is Some,
        inputs.capacity is Some,
        ({
            let checkpoint = inputs.checkpoint->0;
            &&& forall|i: int|
                0 <= i < inputs.positions@.len() ==> (#[trigger] inputs.positions@[i]).observed_at
                    <= checkpoint.positions_observed_at
            &&& forall|i: int|
                0 <= i < inputs.orders@.len() ==> (#[trigger] inputs.orders@[i]).observed_at
                    <= checkpoint.orders_observed_at
            &&& forall|i: int|
                0 <= i < inputs.state_changes@.len() ==> #[trigger] inputs.state_changes@[i]
                    <= checkpoint.pending_commands_reconciled_at->0
            &&& forall|i: int| 0 <= i < inputs.position_members@.len() ==> {
                let row = #[trigger] inputs.position_members@[i];
                &&& row.account_id@ == checkpoint.account_id@
                &&& row.set_observed_at == checkpoint.positions_observed_at
                &&& row.value is Ok && (row.value->Ok_0).id@ == row.id@
                &&& (row.value->Ok_0).account_id@ == checkpoint.account_id@
                &&& (row.value->Ok_0).observed_at == checkpoint.positions_observed_at
            }
            &&& forall|i: int| 0 <= i < inputs.order_members@.len() ==> {
                let row = #[trigger] inputs.order_members@[i];
                &&& row.account_id@ == checkpoint.account_id@
                &&& row.set_observed_at == checkpoint.orders_observed_at
                &&& row.value is Ok && (row.value->Ok_0).id@ == row.id@
                &&& (row.value->Ok_0).account_id@ == checkpoint.account_id@
                &&& (row.value->Ok_0).observed_at == checkpoint.orders_observed_at
            }
        }),
{
    let checkpoint = inputs.checkpoint->0;
    let positions = positions_of(inputs);
    let orders = orders_of(inputs);
    assert forall|i: int| 0 <= i < inputs.position_members@.len() implies {
        let row = #[trigger] inputs.position_members@[i];
        &&& row.account_id@ == checkpoint.account_id@
        &&& row.set_observed_at == checkpoint.positions_observed_at
        &&& row.value is Ok && (row.value->Ok_0).id@ == row.id@
        &&& (row.value->Ok_0).account_id@ == checkpoint.account_id@
        &&& (row.value->Ok_0).observed_at == checkpoint.positions_observed_at
    } by {
        listing::sorted_keeps(inputs.position_members@, i);
        let k = choose|k: int|
            0 <= k < positions.len() && positions[k] == inputs.position_members@[i];
        member_is_sound(
            FullSetKind::Positions,
            checkpoint.account_id@,
            checkpoint.positions_observed_at,
            positions,
            k,
        );
    }
    assert forall|i: int| 0 <= i < inputs.order_members@.len() implies {
        let row = #[trigger] inputs.order_members@[i];
        &&& row.account_id@ == checkpoint.account_id@
        &&& row.set_observed_at == checkpoint.orders_observed_at
        &&& row.value is Ok && (row.value->Ok_0).id@ == row.id@
        &&& (row.value->Ok_0).account_id@ == checkpoint.account_id@
        &&& (row.value->Ok_0).observed_at == checkpoint.orders_observed_at
    } by {
        listing::sorted_keeps(inputs.order_members@, i);
        let k = choose|k: int| 0 <= k < orders.len() && orders[k] == inputs.order_members@[i];
        member_is_sound(
            FullSetKind::Orders,
            checkpoint.account_id@,
            checkpoint.orders_observed_at,
            orders,
            k,
        );
    }
}

/// Nothing counts as changed since the last full sets but what was observed
/// after them, and no command but one that changed after it was reconciled.
pub proof fn only_later_changes_outdate(
    intent_id: Seq<char>,
    checkpoint: AccountReconciliationCheckpoint,
    positions: Seq<LatestFace>,
    orders: Seq<LatestFace>,
    changes: Seq<i64>,
    at: i64,
)
    ensures
        partial_state_fault(intent_id, checkpoint, positions, orders) is None <==> (forall|i: int|
            0 <= i < positions.len() ==> (#[trigger] positions[i]).observed_at
                <= checkpoint.positions_observed_at) && (forall|i: int|
            0 <= i < orders.len() ==> (#[trigger] orders[i]).observed_at
                <= checkpoint.orders_observed_at),
        changed_after(changes, at) <==> exists|i: int|
            0 <= i < changes.len() && #[trigger] changes[i] > at,
{
}

/// What is enough for a snapshot to be trusted: the account, its checkpoint and
/// its capacity are there, and neither the sets, nor the commands, nor the
/// symbols are at fault.
pub proof fn complete_inputs_are_trusted(inputs: RiskInputs)
    requires
        inputs.account is Some && account_row_fault(
            inputs.intent.intent.account_id@,
            inputs.account->0,
        ) is None,
        inputs.checkpoint is Some && (inputs.checkpoint->0).pending_commands_reconciled_at is Some,
        inputs.capacity is Some,
        forall|i: int|
            0 <= i < inputs.positions@.len() ==> (#[trigger] inputs.positions@[i]).observed_at
                <= (inputs.checkpoint->0).positions_observed_at,
        forall|i: int|
            0 <= i < inputs.orders@.len() ==> (#[trigger] inputs.orders@[i]).observed_at <= (
            inputs.checkpoint->0).orders_observed_at,
        member_rows_fault(
            FullSetKind::Positions,
            (inputs.checkpoint->0).account_id@,
            (inputs.checkpoint->0).positions_observed_at,
            positions_of(inputs),
        ) is None,
        member_rows_fault(
            FullSetKind::Orders,
            (inputs.checkpoint->0).account_id@,
            (inputs.checkpoint->0).orders_observed_at,
            orders_of(inputs),
        ) is None,
        commands_fault(
            inputs.intent.intent.intent_id@,
            inputs.intent.intent.account_id@,
            (inputs.checkpoint->0).pending_commands_reconciled_at->0,
            commands_of(inputs),
            inputs.state_changes@,
        ) is None,
        symbols_fault(
            SymbolInput::Metadata,
            inputs.intent.intent.intent_id@,
            inputs.intent.intent.account_id@,
            inputs.metadata@,
            needed(inputs),
        ) is None,
        symbols_fault(
            SymbolInput::Market,
            inputs.intent.intent.intent_id@,
            inputs.intent.intent.account_id@,
            inputs.markets@,
            needed(inputs),
        ) is None,
    ensures
        inputs_fault(inputs) is None,
{
}

proof fn active_has(rows: Seq<MemberRow>, i: int)
    requires
        0 <= i < rows.len(),
        rows[i].status@ == "PLACED"@ || rows[i].status@ == "PARTIALLY_FILLED"@ || rows[i].status@
            == "UNKNOWN"@,
    ensures
        active_member_symbols(rows).contains(member_observation(rows[i]).symbol),
    decreases rows.len(),
{
    let shorter = rows.drop_last();
    let after = active_member_symbols(rows);
    let symbol = member_observation(rows[i]).symbol;
    if i == rows.len() - 1 {
        assert(after[after.len() - 1] == symbol);
    } else {
        assert(shorter[i] == rows[i]);
        active_has(shorter, i);
        let before = active_member_symbols(shorter);
        let k = choose|k: int| 0 <= k < before.len() && before[k] == symbol;
        assert(after[k] == symbol);
    }
}

proof fn command_symbol_is_there(commands: Seq<PendingCommandSnapshot>, i: int)
    requires
        0 <= i < commands.len(),
        commands[i].command.command.action@ == "BUY"@ || commands[i].command.command.action@
            == "SELL"@,
        ({
            let status = commands[i].state.status@;
            status != "DELIVERY_FAILED"@ && status != "REJECTED"@ && status != "FILLED"@ && status != "FAILED"@
                && status != "EXPIRED"@ && status != "CANCELLED"@
        }),
    ensures
        command_symbols(commands).contains(commands[i].command.command.symbol@),
    decreases commands.len(),
{
    let shorter = commands.drop_last();
    let after = command_symbols(commands);
    let symbol = commands[i].command.command.symbol@;
    if i == commands.len() - 1 {
        assert(after[after.len() - 1] == symbol);
    } else {
        assert(shorter[i] == commands[i]);
        command_symbol_is_there(shorter, i);
        let before = command_symbols(shorter);
        let k = choose|k: int| 0 <= k < before.len() && before[k] == symbol;
        assert(after[k] == symbol);
    }
}

/// A trusted snapshot knows the metadata and the market of every symbol at
/// stake: those of the intent, of every position, of every order that is placed,
/// partly filled or unknown, and of every pending command that buys or sells.
pub proof fn trusted_snapshots_know_what_is_at_stake(inputs: RiskInputs, symbol: Seq<char>)
    requires
        inputs_fault(inputs) is None,
        ({
            ||| inputs.intent.intent.proposed_legs is None && symbol
                == inputs.intent.intent.symbol@
            ||| inputs.intent.intent.proposed_legs is Some && exists|i: int|
                0 <= i < (inputs.intent.intent.proposed_legs->0)@.len() && (
                #[trigger] (inputs.intent.intent.proposed_legs->0)@[i]).symbol@ == symbol
            ||| exists|i: int|
                0 <= i < inputs.position_members@.len() && ((
                #[trigger] inputs.position_members@[i]).value->Ok_0).symbol@ == symbol
            ||| exists|i: int| {
                let row = #[trigger] inputs.order_members@[i];
                &&& 0 <= i < inputs.order_members@.len()
                &&& (row.value->Ok_0).symbol@ == symbol
                &&& row.status@ == "PLACED"@ || row.status@ == "PARTIALLY_FILLED"@ || row.status@
                    == "UNKNOWN"@
            }
            ||| exists|k: int| {
                let held = #[trigger] pending(commands_of(inputs))[k];
                let status = held.state.status@;
                &&& 0 <= k < pending(commands_of(inputs)).len()
                &&& held.command.command.symbol@ == symbol
                &&& held.command.command.action@ == "BUY"@ || held.command.command.action@
                    == "SELL"@
                &&& status != "DELIVERY_FAILED"@ && status != "REJECTED"@ && status != "FILLED"@ && status != "FAILED"@
                && status != "EXPIRED"@ && status != "CANCELLED"@
            }
        }),
    ensures
        exists|j: int|
            0 <= j < gathered(inputs.metadata@, needed(inputs)).len() && (
            #[trigger] gathered(inputs.metadata@, needed(inputs))[j]).symbol == symbol,
        exists|j: int|
            0 <= j < gathered(inputs.markets@, needed(inputs)).len() && (
            #[trigger] gathered(inputs.markets@, needed(inputs))[j]).symbol == symbol,
{
    let first = intent_symbols(inputs.intent);
    let second = member_symbols(positions_of(inputs));
    let third = active_member_symbols(orders_of(inputs));
    let fourth = command_symbols(pending(commands_of(inputs)));
    let all = needed(inputs);
    assert(all == first + second + third + fourth);
    let at: int = if inputs.intent.intent.proposed_legs is None && symbol
        == inputs.intent.intent.symbol@ {
        0
    } else if inputs.intent.intent.proposed_legs is Some && exists|i: int|
        0 <= i < (inputs.intent.intent.proposed_legs->0)@.len() && (
        #[trigger] (inputs.intent.intent.proposed_legs->0)@[i]).symbol@ == symbol {
        let legs = (inputs.intent.intent.proposed_legs->0)@;
        let i = choose|i: int| 0 <= i < legs.len() && (#[trigger] legs[i]).symbol@ == symbol;
        assert(first[i] == symbol);
        i
    } else if exists|i: int|
        0 <= i < inputs.position_members@.len() && ((
        #[trigger] inputs.position_members@[i]).value->Ok_0).symbol@ == symbol {
        let i = choose|i: int|
            0 <= i < inputs.position_members@.len() && ((
            #[trigger] inputs.position_members@[i]).value->Ok_0).symbol@ == symbol;
        listing::sorted_keeps(inputs.position_members@, i);
        let positions = positions_of(inputs);
        let k = choose|k: int|
            0 <= k < positions.len() && positions[k] == inputs.position_members@[i];
        assert(second[k] == symbol);
        first.len() + k
    } else if exists|i: int| {
        let row = #[trigger] inputs.order_members@[i];
        &&& 0 <= i < inputs.order_members@.len()
        &&& (row.value->Ok_0).symbol@ == symbol
        &&& row.status@ == "PLACED"@ || row.status@ == "PARTIALLY_FILLED"@ || row.status@
            == "UNKNOWN"@
    } {
        let i = choose|i: int| {
            let row = #[trigger] inputs.order_members@[i];
            &&& 0 <= i < inputs.order_members@.len()
            &&& (row.value->Ok_0).symbol@ == symbol
            &&& row.status@ == "PLACED"@ || row.status@ == "PARTIALLY_FILLED"@ || row.status@
                == "UNKNOWN"@
        };
        listing::sorted_keeps(inputs.order_members@, i);
        let orders = orders_of(inputs);
        let k = choose|k: int| 0 <= k < orders.len() && orders[k] == inputs.order_members@[i];
        active_has(orders, k);
        let m = choose|m: int| 0 <= m < third.len() && third[m] == symbol;
        first.len() + second.len() + m
    } else {
        let held = pending(commands_of(inputs));
        let k = choose|k: int| {
            let held = #[trigger] pending(commands_of(inputs))[k];
            let status = held.state.status@;
            &&& 0 <= k < pending(commands_of(inputs)).len()
            &&& held.command.command.symbol@ == symbol
            &&& held.command.command.action@ == "BUY"@ || held.command.command.action@ == "SELL"@
            &&& status != "DELIVERY_FAILED"@ && status != "REJECTED"@ && status != "FILLED"@ && status != "FAILED"@
                && status != "EXPIRED"@ && status != "CANCELLED"@
        };
        command_symbol_is_there(held, k);
        let m = choose|m: int| 0 <= m < fourth.len() && fourth[m] == symbol;
        first.len() + second.len() + third.len() + m
    };
    assert(all[at] == symbol);
    assert(covers(gathered(inputs.metadata@, all), all[at]));
    assert(covers(gathered(inputs.markets@, all), all[at]));
}

/// When an intent can be decided: it is accepted and not yet decided, its
/// strategy said when it decided, its account is known, reconciled and has a
/// capacity, there is a circuit breaker, nothing was observed or changed since,
/// and of every symbol at stake both the metadata and the market are known.
pub proof fn ready_intents_lack_nothing(candidate: RiskCandidate)
    ensures
        ({
            let known = |symbol: Seq<char>|
                (exists|i: int|
                    0 <= i < candidate.metadata@.len() && (#[trigger] candidate.metadata@[i])@
                        == symbol) && (exists|i: int|
                    0 <= i < candidate.markets@.len() && (#[trigger] candidate.markets@[i])@
                        == symbol);
            schedulable(candidate) <==> {
                &&& candidate.status@ == "ACCEPTED"@
                &&& !candidate.assessed
                &&& candidate.has_decision_time
                &&& candidate.has_account
                &&& candidate.has_capacity
                &&& candidate.has_circuit_breaker
                &&& candidate.checkpoint is Some
                &&& (candidate.checkpoint->0).pending_commands_reconciled_at is Some
                &&& forall|i: int|
                    0 <= i < candidate.positions@.len() ==> (
                    #[trigger] candidate.positions@[i]).observed_at <= (
                    candidate.checkpoint->0).positions_observed_at && known(
                        candidate.positions@[i].symbol@,
                    )
                &&& forall|i: int|
                    0 <= i < candidate.orders@.len() ==> (
                    #[trigger] candidate.orders@[i]).observed_at <= (
                    candidate.checkpoint->0).orders_observed_at && (candidate.orders@[i].status@
                        == "PLACED"@ || candidate.orders@[i].status@ == "PARTIALLY_FILLED"@
                        || candidate.orders@[i].status@ == "UNKNOWN"@ ==> known(
                        candidate.orders@[i].symbol@,
                    ))
                &&& forall|i: int| 0 <= i < candidate.commands@.len() ==> {
                    let command = #[trigger] candidate.commands@[i];
                    let status = (command.state->0).status@;
                    &&& command.state is Some
                    &&& (command.state->0).updated_at <= (
                    candidate.checkpoint->0).pending_commands_reconciled_at->0
                    &&& (command.action@ == "BUY"@ || command.action@ == "SELL"@) && status != "DELIVERY_FAILED"@ && status != "REJECTED"@ && status != "FILLED"@ && status != "FAILED"@
                && status != "EXPIRED"@ && status != "CANCELLED"@
                        ==> known(command.symbol@)
                }
                &&& match candidate.legs {
                    ProposedSymbols::Absent => known(candidate.symbol@),
                    ProposedSymbols::Listed(symbols) => forall|i: int|
                        0 <= i < symbols@.len() ==> known((#[trigger] symbols@[i])@),
                    ProposedSymbols::Malformed => false,
                }
            }
        }),
{
    let known = |symbol: Seq<char>|
        (exists|i: int|
            0 <= i < candidate.metadata@.len() && (#[trigger] candidate.metadata@[i])@ == symbol)
            && (exists|i: int|
            0 <= i < candidate.markets@.len() && (#[trigger] candidate.markets@[i])@ == symbol);
    assert forall|symbol: Seq<char>| #[trigger] covered(candidate, symbol) == known(symbol) by {
        let metadata = text::texts(candidate.metadata@);
        let markets = text::texts(candidate.markets@);
        if metadata.contains(symbol) {
            let i = choose|i: int| 0 <= i < metadata.len() && metadata[i] == symbol;
            assert(candidate.metadata@[i]@ == symbol);
        }
        if markets.contains(symbol) {
            let i = choose|i: int| 0 <= i < markets.len() && markets[i] == symbol;
            assert(candidate.markets@[i]@ == symbol);
        }
        if known(symbol) {
            let i = choose|i: int|
                0 <= i < candidate.metadata@.len() && (#[trigger] candidate.metadata@[i])@
                    == symbol;
            assert(metadata[i] == symbol);
            let j = choose|j: int|
                0 <= j < candidate.markets@.len() && (#[trigger] candidate.markets@[j])@ == symbol;
            assert(markets[j] == symbol);
        }
    }
    assert forall|i: int| 0 <= i < candidate.commands@.len() implies may_open(
        #[trigger] candidate.commands@[i],
    ) == ({
        let command = candidate.commands@[i];
        let status = (command.state->0).status@;
        command.state is Some && (command.action@ == "BUY"@ || command.action@ == "SELL"@) && status != "DELIVERY_FAILED"@ && status != "REJECTED"@ && status != "FILLED"@ && status != "FAILED"@
                && status != "EXPIRED"@ && status != "CANCELLED"@
    }) by {}
}

/// The intent that is decided next can be decided, and no other that can be was
/// requested earlier, or at the same time under a name that comes first.
pub proof fn oldest_ready_intent_is_next(items: Seq<RiskCandidate>)
    ensures
        next_ready(items) is None <==> forall|i: int|
            0 <= i < items.len() ==> !schedulable(#[trigger] items[i]),
        next_ready(items) matches Some(best) ==> 0 <= best < items.len() && schedulable(
            items[best],
        ) && forall|i: int|
            0 <= i < items.len() && schedulable(#[trigger] items[i]) ==> items[best].requested_at
                < items[i].requested_at || (items[best].requested_at == items[i].requested_at
                && !text::precedes(items[i].intent_id@, items[best].intent_id@)),
    decreases items.len(),
{
    if items.len() > 0 {
        let shorter = items.drop_last();
        let at = items.len() - 1;
        oldest_ready_intent_is_next(shorter);
        assert forall|i: int| 0 <= i < shorter.len() implies #[trigger] shorter[i] == items[i] by {}
        let before = next_ready(shorter);
        if before is Some && schedulable(items[at]) {
            let best = before->0;
            assert(shorter[best] == items[best]);
            text::precedes_irreflexive(items[at].intent_id@);
            assert forall|i: int| 0 <= i < items.len() && schedulable(#[trigger] items[i]) implies ({
                let chosen = next_ready(items)->0;
                items[chosen].requested_at < items[i].requested_at || (items[chosen].requested_at
                    == items[i].requested_at && !text::precedes(
                    items[i].intent_id@,
                    items[chosen].intent_id@,
                ))
            }) by {
                if i < at {
                    assert(schedulable(shorter[i]));
                    if requested_before(items[at], items[best]) && items[i].requested_at
                        == items[best].requested_at && items[at].requested_at
                        == items[best].requested_at && text::precedes(
                        items[i].intent_id@,
                        items[at].intent_id@,
                    ) {
                        text::precedes_transitive(
                            items[i].intent_id@,
                            items[at].intent_id@,
                            items[best].intent_id@,
                        );
                    }
                }
            }
        } else if before is Some {
            let best = before->0;
            assert(shorter[best] == items[best]);
            assert forall|i: int| 0 <= i < items.len() && schedulable(#[trigger] items[i]) implies
                items[best].requested_at < items[i].requested_at || (items[best].requested_at
                == items[i].requested_at && !text::precedes(
                items[i].intent_id@,
                items[best].intent_id@,
            )) by {
                assert(shorter[i] == items[i]);
            }
        } else {
            assert forall|i: int| 0 <= i < at implies !schedulable(#[trigger] items[i]) by {
                assert(shorter[i] == items[i]);
            }
            if schedulable(items[at]) {
                text::precedes_irreflexive(items[at].intent_id@);
            }
        }
        if next_ready(items) is None {
            assert forall|i: int| 0 <= i < items.len() implies !schedulable(
                #[trigger] items[i],
            ) by {
                if i < at {
                    assert(shorter[i] == items[i]);
                }
            }
        }
    }
}

/// A member of a set that a decision rests on is intact, and is of the account,
/// of the time and of the name under which it is kept.
pub proof fn members_at_stake_are_as_kept(
    kind: FullSetKind,
    account_id: Seq<char>,
    watermark: i64,
    row: MemberRow,
)
    ensures
        member_row_fault(kind, account_id, watermark, row) is None <==> {
            &&& json::stored_fault(
                kind.member_name(),
                account_id + ":"@ + row.id@,
                row.payload.text@,
                row.payload.digest@,
            ) is None
            &&& row.value is Ok
            &&& row.account_id@ == account_id
            &&& row.set_observed_at == watermark
            &&& (row.value->Ok_0).account_id@ == account_id
            &&& (row.value->Ok_0).id@ == row.id@
            &&& (row.value->Ok_0).observed_at == watermark
        },
{
}

/// A command that a decision rests on is whole: it and its state are there, fit
/// each other, and are of the account.
pub proof fn commands_at_stake_are_whole(account_id: Seq<char>, command: AccountCommand)
    ensures
        pending_fault(account_id, command) is None <==> {
            &&& command.command is Some
            &&& command.state is Some
            &&& workflow::persisted_state_reason(
                command.state->0,
                (command.command->0).command,
                (command.command->0).created_at,
            ) is None
            &&& (command.command->0).command.account_id@ == account_id
            &&& (command.state->0).account_id@ == account_id
        },
{
}

/// What is known of a symbol is intact, and is of the account, the symbol and the
/// time under which it is stored; so is what is known of the account.
pub proof fn symbols_at_stake_are_as_stored(account_id: Seq<char>, row: SnapshotRow)
    ensures
        symbol_row_fault(SymbolInput::Metadata, account_id, row) is None <==> {
            &&& json::stored_fault(
                "symbol_metadata"@,
                account_id + ":"@ + row.id@,
                row.payload.text@,
                row.payload.digest@,
            ) is None
            &&& row.value is Ok
            &&& (row.value->Ok_0).account_id@ == account_id
            &&& (row.value->Ok_0).id@ == row.id@
            &&& (row.value->Ok_0).symbol@ == row.symbol@
            &&& (row.value->Ok_0).observed_at == row.observed_at
        },
        symbol_row_fault(SymbolInput::Market, account_id, row) is None <==> {
            &&& json::stored_fault(
                "market_snapshot"@,
                account_id + ":"@ + row.symbol@,
                row.payload.text@,
                row.payload.digest@,
            ) is None
            &&& row.value is Ok
            &&& row.account_id@ == account_id
            &&& (row.value->Ok_0).symbol@ == row.symbol@
            &&& (row.value->Ok_0).observed_at == row.observed_at
        },
        account_row_fault(account_id, row) is None <==> {
            &&& json::stored_fault(
                "account_snapshot"@,
                account_id,
                row.payload.text@,
                row.payload.digest@,
            ) is None
            &&& row.value is Ok
            &&& row.account_id@ == account_id
            &&& (row.value->Ok_0).account_id@ == account_id
            &&& (row.value->Ok_0).observed_at == row.observed_at
        },
{
}

}
