//! Checkpoints: how far the reconciliations of an account got, and the evidence
//! for it.

use vstd::prelude::*;
use vstd::string::*;

use crate::columns::JsonColumns;
use crate::domain::AccountId;
use crate::error;
use crate::error::{Fault, StoreError};
use crate::json;
use crate::json::CanonicalJson;
use crate::listing;
use crate::listing::{oldest_first, Listed};
use crate::numbers;
use crate::numbers::{later_of, max_optional};
use crate::reconciliation;
use crate::reconciliation::{
    set_json, AccountReconciliationCheckpoint, ReconciliationCompleteness,
    ReconciliationDisposition, ReconciliationEvaluation, ReconciliationRequest,
    ReconciliationResult, ReconciliationRunStatus, StoredReconciliationRun,
};
use crate::snapshots;
use crate::snapshots::{Snapshot, SnapshotValue};
use crate::text;
use crate::text::{is_lower_hex_64, join2, join3, same_text, text_precedes};

verus! {

/// What a full set does to the one that is kept.
#[derive(Clone, Copy, Debug, PartialEq, Eq, Structural)]
pub enum FullSetDecision {
    Applied,
    IgnoredOlder,
    Unchanged,
}

/// What a full set does to the one that is kept: the newer one stays.
pub open spec fn full_set_decision(
    observed_at: i64,
    existing: Option<(i64, Seq<char>)>,
) -> FullSetDecision {
    match existing {
        None => FullSetDecision::Applied,
        Some((watermark, _)) => if observed_at > watermark {
            FullSetDecision::Applied
        } else if observed_at < watermark {
            FullSetDecision::IgnoredOlder
        } else {
            FullSetDecision::Unchanged
        },
    }
}

/// What a full set does to the one that is kept. Two full sets for one time
/// must agree.
pub fn compare_full_set(
    entity: &'static str,
    account_id: &AccountId,
    observed_at: i64,
    set_hash: &str,
    existing: Option<(i64, String)>,
) -> (r: Result<FullSetDecision, StoreError>)
    ensures
        error::fault(r) == (if snapshots::contradicts(
            observed_at,
            set_hash@,
            snapshots::kept(existing),
        ) {
            Some(snapshots::observation_conflict(entity@, account_id@, observed_at))
        } else {
            None
        }),
        r matches Ok(decision) ==> decision == full_set_decision(
            observed_at,
            snapshots::kept(existing),
        ),
{
    match existing {
        None => Ok(FullSetDecision::Applied),
        Some((watermark, existing_hash)) => {
            if observed_at > watermark {
                Ok(FullSetDecision::Applied)
            } else if observed_at < watermark {
                Ok(FullSetDecision::IgnoredOlder)
            } else if same_text(existing_hash.as_str(), set_hash) {
                Ok(FullSetDecision::Unchanged)
            } else {
                Err(
                    StoreError::ObservationConflict {
                        entity,
                        key: account_id.clone(),
                        observed_at,
                    },
                )
            }
        },
    }
}

/// A checkpoint, over mathematical texts.
pub struct Checkpoint {
    pub account_id: Seq<char>,
    pub source_request_id: Seq<char>,
    pub result_observed_at: i64,
    pub account_refreshed_at: Option<i64>,
    pub positions_observed_at: i64,
    pub positions_set_hash: Seq<char>,
    pub orders_observed_at: i64,
    pub orders_set_hash: Seq<char>,
    pub symbol_metadata_refreshed_at: Option<i64>,
    pub pending_commands_reconciled_at: Option<i64>,
    pub updated_at: i64,
}

impl View for AccountReconciliationCheckpoint {
    type V = Checkpoint;

    open spec fn view(&self) -> Checkpoint {
        Checkpoint {
            account_id: self.account_id@,
            source_request_id: self.source_request_id@,
            result_observed_at: self.result_observed_at,
            account_refreshed_at: self.account_refreshed_at,
            positions_observed_at: self.positions_observed_at,
            positions_set_hash: self.positions_set_hash@,
            orders_observed_at: self.orders_observed_at,
            orders_set_hash: self.orders_set_hash@,
            symbol_metadata_refreshed_at: self.symbol_metadata_refreshed_at,
            pending_commands_reconciled_at: self.pending_commands_reconciled_at,
            updated_at: self.updated_at,
        }
    }
}

/// The optional checkpoint, over mathematical texts.
pub open spec fn optional_checkpoint(checkpoint: Option<AccountReconciliationCheckpoint>) -> Option<
    Checkpoint,
> {
    match checkpoint {
        Some(checkpoint) => Some(checkpoint@),
        None => None,
    }
}

/// What a result adds to a checkpoint.
pub struct Advance {
    pub account_id: Seq<char>,
    pub request_id: Seq<char>,
    pub observed_at: i64,
    pub account: bool,
    pub symbols: bool,
    pub commands: bool,
    pub positions_set_hash: Seq<char>,
    pub orders_set_hash: Seq<char>,
    pub updated_at: i64,
}

/// A time, where something holds.
pub open spec fn time_if(holds: bool, time: i64) -> Option<i64> {
    if holds {
        Some(time)
    } else {
        None
    }
}

/// The run covers every command of the account, whatever terminal or client it
/// goes through.
pub open spec fn account_wide(request: ReconciliationRequest) -> bool {
    request.command_ids is None && request.terminal_id is None && request.client_id is None
}

/// What a result adds to a checkpoint.
pub open spec fn advance_of(
    request: ReconciliationRequest,
    result: ReconciliationResult,
    evaluation: ReconciliationEvaluation,
    completeness: ReconciliationCompleteness,
    positions_set: Seq<char>,
    orders_set: Seq<char>,
    updated_at: i64,
) -> Advance {
    Advance {
        account_id: result.account_id@,
        request_id: result.request_id@,
        observed_at: result.observed_at,
        account: result.account is Some,
        symbols: completeness.symbol_metadata_complete,
        commands: account_wide(request) && evaluation.disposition
            == ReconciliationDisposition::Completed && completeness.command_scope_complete,
        positions_set_hash: json::text_digest(positions_set),
        orders_set_hash: json::text_digest(orders_set),
        updated_at,
    }
}

/// The checkpoint once a result was added: every time only goes forward, and of
/// results for one time the one with the smaller name is the source.
pub open spec fn advanced(existing: Option<Checkpoint>, advance: Advance) -> Checkpoint {
    let account = time_if(advance.account, advance.observed_at);
    let symbols = time_if(advance.symbols, advance.observed_at);
    let commands = time_if(advance.commands, advance.observed_at);
    match existing {
        None => Checkpoint {
            account_id: advance.account_id,
            source_request_id: advance.request_id,
            result_observed_at: advance.observed_at,
            account_refreshed_at: account,
            positions_observed_at: advance.observed_at,
            positions_set_hash: advance.positions_set_hash,
            orders_observed_at: advance.observed_at,
            orders_set_hash: advance.orders_set_hash,
            symbol_metadata_refreshed_at: symbols,
            pending_commands_reconciled_at: commands,
            updated_at: advance.updated_at,
        },
        Some(existing) => Checkpoint {
            account_id: existing.account_id,
            source_request_id: if advance.observed_at > existing.result_observed_at || (
            advance.observed_at == existing.result_observed_at && text::precedes(
                advance.request_id,
                existing.source_request_id,
            )) {
                advance.request_id
            } else {
                existing.source_request_id
            },
            result_observed_at: numbers::later(existing.result_observed_at, advance.observed_at),
            account_refreshed_at: numbers::later_optional(existing.account_refreshed_at, account),
            positions_observed_at: numbers::later(
                existing.positions_observed_at,
                advance.observed_at,
            ),
            positions_set_hash: if advance.observed_at > existing.positions_observed_at {
                advance.positions_set_hash
            } else {
                existing.positions_set_hash
            },
            orders_observed_at: numbers::later(existing.orders_observed_at, advance.observed_at),
            orders_set_hash: if advance.observed_at > existing.orders_observed_at {
                advance.orders_set_hash
            } else {
                existing.orders_set_hash
            },
            symbol_metadata_refreshed_at: numbers::later_optional(
                existing.symbol_metadata_refreshed_at,
                symbols,
            ),
            pending_commands_reconciled_at: numbers::later_optional(
                existing.pending_commands_reconciled_at,
                commands,
            ),
            updated_at: numbers::later(existing.updated_at, advance.updated_at),
        },
    }
}

/// Adds a result to the checkpoint of its account. `positions_set` and
/// `orders_set` are the canonical forms of its two full sets.
pub fn advance_checkpoint(
    request: &ReconciliationRequest,
    result: &ReconciliationResult,
    evaluation: &ReconciliationEvaluation,
    completeness: ReconciliationCompleteness,
    positions_set: &CanonicalJson,
    orders_set: &CanonicalJson,
    updated_at: i64,
    existing: Option<AccountReconciliationCheckpoint>,
) -> (r: AccountReconciliationCheckpoint)
    ensures
        r@ == advanced(
            optional_checkpoint(existing),
            advance_of(
                *request,
                *result,
                *evaluation,
                completeness,
                positions_set@,
                orders_set@,
                updated_at,
            ),
        ),
{
    let observed_at: i64 = result.observed_at;
    let account_refresh = if result.account.is_some() {
        Some(observed_at)
    } else {
        None
    };
    let symbol_refresh = if completeness.symbol_metadata_complete {
        Some(observed_at)
    } else {
        None
    };
    let pending_refresh = if request.command_ids.is_none() && request.terminal_id.is_none()
        && request.client_id.is_none() && evaluation.disposition
        == ReconciliationDisposition::Completed && completeness.command_scope_complete {
        Some(observed_at)
    } else {
        None
    };
    match existing {
        None => AccountReconciliationCheckpoint {
            account_id: result.account_id.clone(),
            source_request_id: result.request_id.clone(),
            result_observed_at: observed_at,
            account_refreshed_at: account_refresh,
            positions_observed_at: observed_at,
            positions_set_hash: positions_set.sha256_hex().to_owned(),
            orders_observed_at: observed_at,
            orders_set_hash: orders_set.sha256_hex().to_owned(),
            symbol_metadata_refreshed_at: symbol_refresh,
            pending_commands_reconciled_at: pending_refresh,
            updated_at,
        },
        Some(existing) => {
            let incoming_is_source = observed_at > existing.result_observed_at || (observed_at
                == existing.result_observed_at && text_precedes(
                result.request_id.as_str(),
                existing.source_request_id.as_str(),
            ));
            AccountReconciliationCheckpoint {
                account_id: existing.account_id,
                source_request_id: if incoming_is_source {
                    result.request_id.clone()
                } else {
                    existing.source_request_id
                },
                result_observed_at: later_of(existing.result_observed_at, observed_at),
                account_refreshed_at: max_optional(existing.account_refreshed_at, account_refresh),
                positions_observed_at: later_of(existing.positions_observed_at, observed_at),
                positions_set_hash: if observed_at > existing.positions_observed_at {
                    positions_set.sha256_hex().to_owned()
                } else {
                    existing.positions_set_hash
                },
                orders_observed_at: later_of(existing.orders_observed_at, observed_at),
                orders_set_hash: if observed_at > existing.orders_observed_at {
                    orders_set.sha256_hex().to_owned()
                } else {
                    existing.orders_set_hash
                },
                symbol_metadata_refreshed_at: max_optional(
                    existing.symbol_metadata_refreshed_at,
                    symbol_refresh,
                ),
                pending_commands_reconciled_at: max_optional(
                    existing.pending_commands_reconciled_at,
                    pending_refresh,
                ),
                updated_at: later_of(existing.updated_at, updated_at),
            }
        },
    }
}

/// An optional time is not negative and not after another.
pub open spec fn within(time: Option<i64>, limit: i64) -> bool {
    time matches Some(time) ==> 0 <= time <= limit
}

/// The times and digests of a checkpoint can be those of a checkpoint.
pub open spec fn shaped(checkpoint: Checkpoint) -> bool {
    &&& 0 <= checkpoint.result_observed_at
    &&& checkpoint.result_observed_at <= checkpoint.updated_at
    &&& checkpoint.positions_observed_at == checkpoint.result_observed_at
    &&& checkpoint.orders_observed_at == checkpoint.result_observed_at
    &&& within(checkpoint.account_refreshed_at, checkpoint.result_observed_at)
    &&& within(checkpoint.symbol_metadata_refreshed_at, checkpoint.result_observed_at)
    &&& within(checkpoint.pending_commands_reconciled_at, checkpoint.result_observed_at)
    &&& text::lower_hex_64(checkpoint.positions_set_hash)
    &&& text::lower_hex_64(checkpoint.orders_set_hash)
}

fn is_within(time: Option<i64>, limit: i64) -> (r: bool)
    ensures
        r == within(time, limit),
{
    match time {
        Some(time) => 0 <= time && time <= limit,
        None => true,
    }
}

fn is_shaped(checkpoint: &AccountReconciliationCheckpoint) -> (r: bool)
    ensures
        r == shaped(checkpoint@),
{
    checkpoint.result_observed_at >= 0 && checkpoint.updated_at >= checkpoint.result_observed_at
        && checkpoint.positions_observed_at == checkpoint.result_observed_at
        && checkpoint.orders_observed_at == checkpoint.result_observed_at && is_within(
        checkpoint.account_refreshed_at,
        checkpoint.result_observed_at,
    ) && is_within(checkpoint.symbol_metadata_refreshed_at, checkpoint.result_observed_at)
        && is_within(checkpoint.pending_commands_reconciled_at, checkpoint.result_observed_at)
        && is_lower_hex_64(checkpoint.positions_set_hash.as_str()) && is_lower_hex_64(
        checkpoint.orders_set_hash.as_str(),
    )
}

/// A result that may be added to a checkpoint keeps it in shape.
pub proof fn advance_keeps_shape(existing: Option<Checkpoint>, advance: Advance)
    requires
        existing matches Some(checkpoint) ==> shaped(checkpoint),
        0 <= advance.observed_at <= advance.updated_at,
        text::lower_hex_64(advance.positions_set_hash),
        text::lower_hex_64(advance.orders_set_hash),
    ensures
        shaped(advanced(existing, advance)),
{
}

/// The times of a checkpoint never go back.
pub proof fn checkpoints_go_forward(existing: Checkpoint, advance: Advance)
    ensures
        ({
            let after = advanced(Some(existing), advance);
            &&& existing.result_observed_at <= after.result_observed_at
            &&& advance.observed_at <= after.result_observed_at
            &&& existing.positions_observed_at <= after.positions_observed_at
            &&& existing.orders_observed_at <= after.orders_observed_at
            &&& existing.updated_at <= after.updated_at
            &&& existing.account_refreshed_at matches Some(at) ==> after.account_refreshed_at
                matches Some(later) && at <= later
            &&& existing.symbol_metadata_refreshed_at matches Some(at)
                ==> after.symbol_metadata_refreshed_at matches Some(later) && at <= later
            &&& existing.pending_commands_reconciled_at matches Some(at)
                ==> after.pending_commands_reconciled_at matches Some(later) && at <= later
            &&& after.account_id == existing.account_id
        }),
{
}

/// In which order two results are added to a checkpoint does not matter, where
/// results for one time hold the same sets and no two results share a name.
pub proof fn results_commute(existing: Option<Checkpoint>, first: Advance, second: Advance)
    requires
        first.account_id == second.account_id,
        existing matches Some(checkpoint) ==> {
            &&& checkpoint.account_id == first.account_id
            &&& checkpoint.positions_observed_at == checkpoint.result_observed_at
            &&& checkpoint.orders_observed_at == checkpoint.result_observed_at
        },
        first.request_id != second.request_id,
        first.observed_at == second.observed_at ==> first.positions_set_hash
            == second.positions_set_hash && first.orders_set_hash == second.orders_set_hash,
    ensures
        advanced(Some(advanced(existing, first)), second) == advanced(
            Some(advanced(existing, second)),
            first,
        ),
{
    text::precedes_total(first.request_id, second.request_id);
    if text::precedes(first.request_id, second.request_id) {
        text::precedes_asymmetric(first.request_id, second.request_id);
    } else {
        text::precedes_asymmetric(second.request_id, first.request_id);
    }
    if existing is Some {
        let source = existing->0.source_request_id;
        let a = first.request_id;
        let b = second.request_id;
        if text::precedes(a, source) && text::precedes(b, a) {
            text::precedes_transitive(b, a, source);
        }
        if text::precedes(b, source) && text::precedes(a, b) {
            text::precedes_transitive(a, b, source);
        }
        if source != a {
            text::precedes_total(source, a);
        }
        if source != b {
            text::precedes_total(source, b);
        }
        if source == a {
            text::precedes_irreflexive(a);
        }
        if source == b {
            text::precedes_irreflexive(b);
        }
    }
}

/// The fault of a checkpoint.
pub open spec fn checkpoint_corrupt(account_id: Seq<char>, reason: Seq<char>) -> Option<Fault> {
    Some(error::corrupt_fault("account_reconciliation_checkpoint"@, account_id, reason))
}

/// How it is reported that a full set of the source cannot be written down.
pub open spec fn unwritable(
    key: Seq<char>,
    reason: Seq<char>,
    fault: Option<Fault>,
) -> Option<Fault> {
    match fault {
        Some(fault) => checkpoint_corrupt(key, reason + error::fault_message(fault)),
        None => None,
    }
}

fn source_set(key: &str, reason: &str, set: &Vec<Snapshot>) -> (r: Result<
    CanonicalJson,
    StoreError,
>)
    ensures
        error::fault(r) == unwritable(key@, reason@, reconciliation::set_fault(set@)),
        r matches Ok(json) ==> json@ == reconciliation::set_text(set@),
{
    match set_json(set) {
        Ok(json) => Ok(json),
        Err(error) => {
            let reason = join2(reason, error.message().as_str());
            Err(StoreError::corrupt("account_reconciliation_checkpoint", key, reason.as_str()))
        },
    }
}

/// What is wrong with the run that a checkpoint names as its source.
pub open spec fn source_fault(
    checkpoint: Checkpoint,
    source: Option<StoredReconciliationRun>,
) -> Option<Fault> {
    let key = checkpoint.account_id;
    match source {
        None => checkpoint_corrupt(key, "source reconciliation run is missing"@),
        Some(source) => if source.request.account_id@ != checkpoint.account_id
            || reconciliation::result_time(source.result) != Some(checkpoint.result_observed_at) {
            checkpoint_corrupt(
                key,
                "source run does not match checkpoint account and result watermark"@,
            )
        } else {
            let result = source.result->0;
            let f = unwritable(
                key,
                "source position full set cannot be canonicalized: "@,
                reconciliation::set_fault(result.positions@),
            );
            let f = error::first_of(
                f,
                unwritable(
                    key,
                    "source order full set cannot be canonicalized: "@,
                    reconciliation::set_fault(result.orders@),
                ),
            );
            error::first_of(
                f,
                if json::text_digest(reconciliation::set_text(result.positions@))
                    != checkpoint.positions_set_hash || json::text_digest(
                    reconciliation::set_text(result.orders@),
                ) != checkpoint.orders_set_hash {
                    checkpoint_corrupt(
                        key,
                        "full-set hashes do not match the source reconciliation result"@,
                    )
                } else {
                    None
                },
            )
        },
    }
}

fn check_source(
    checkpoint: &AccountReconciliationCheckpoint,
    source: &Option<StoredReconciliationRun>,
) -> (r: Result<(), StoreError>)
    ensures
        error::fault(r) == source_fault(checkpoint@, *source),
{
    let entity = "account_reconciliation_checkpoint";
    let key = checkpoint.account_id.as_str();
    let source = match source {
        Some(source) => source,
        None => {
            return Err(StoreError::corrupt(entity, key, "source reconciliation run is missing"));
        },
    };
    let result = match &source.result {
        Some(result) => result,
        None => {
            return Err(
                StoreError::corrupt(
                    entity,
                    key,
                    "source run does not match checkpoint account and result watermark",
                ),
            );
        },
    };
    if !same_text(source.request.account_id.as_str(), key) || result.observed_at
        != checkpoint.result_observed_at {
        return Err(
            StoreError::corrupt(
                entity,
                key,
                "source run does not match checkpoint account and result watermark",
            ),
        );
    }
    let positions = source_set(
        key,
        "source position full set cannot be canonicalized: ",
        &result.positions,
    )?;
    let orders = source_set(
        key,
        "source order full set cannot be canonicalized: ",
        &result.orders,
    )?;
    if !same_text(positions.sha256_hex(), checkpoint.positions_set_hash.as_str()) || !same_text(
        orders.sha256_hex(),
        checkpoint.orders_set_hash.as_str(),
    ) {
        return Err(
            StoreError::corrupt(
                entity,
                key,
                "full-set hashes do not match the source reconciliation result",
            ),
        );
    }
    Ok(())
}

/// The runs that were observed at the times that a checkpoint names, where it
/// names them.
pub struct ReadinessRuns {
    pub account: Vec<StoredReconciliationRun>,
    pub symbols: Vec<StoredReconciliationRun>,
    pub commands: Vec<StoredReconciliationRun>,
}

/// The run reported the account.
pub open spec fn reports_account(run: StoredReconciliationRun) -> bool {
    run.result matches Some(result) && result.account is Some
}

/// The run reported all symbol metadata.
pub open spec fn reports_symbols(run: StoredReconciliationRun) -> bool {
    run.completeness matches Some(completeness) && completeness.symbol_metadata_complete
}

/// The run left no command of the account open.
pub open spec fn settles_commands(run: StoredReconciliationRun) -> bool {
    &&& run.status == ReconciliationRunStatus::Completed
    &&& account_wide(run.request)
    &&& run.result_evaluation matches Some(evaluation) && evaluation.disposition
        == ReconciliationDisposition::Completed
    &&& run.completeness matches Some(completeness) && completeness.command_scope_complete
}

/// What is wrong with the evidence for the times of a checkpoint.
pub open spec fn readiness_fault(checkpoint: Checkpoint, runs: ReadinessRuns) -> Option<Fault> {
    let key = checkpoint.account_id;
    if checkpoint.account_refreshed_at is Some && !exists|i: int|
        0 <= i < runs.account@.len() && reports_account(#[trigger] runs.account@[i]) {
        checkpoint_corrupt(
            key,
            "account_refreshed_at has no durable account snapshot evidence"@,
        )
    } else if checkpoint.symbol_metadata_refreshed_at is Some && !exists|i: int|
        0 <= i < runs.symbols@.len() && reports_symbols(#[trigger] runs.symbols@[i]) {
        checkpoint_corrupt(
            key,
            "symbol_metadata_refreshed_at has no explicit completeness evidence"@,
        )
    } else if checkpoint.pending_commands_reconciled_at is Some && !exists|i: int|
        0 <= i < runs.commands@.len() && settles_commands(#[trigger] runs.commands@[i]) {
        checkpoint_corrupt(
            key,
            "pending_commands_reconciled_at has no account-wide completeness evidence"@,
        )
    } else {
        None
    }
}

fn any_reports_account(runs: &Vec<StoredReconciliationRun>) -> (r: bool)
    ensures
        r == exists|i: int| 0 <= i < runs@.len() && reports_account(#[trigger] runs@[i]),
{
    let mut i: usize = 0;
    while i < runs.len()
        invariant
            i <= runs.len(),
            forall|j: int| 0 <= j < i ==> !reports_account(#[trigger] runs@[j]),
        decreases runs.len() - i,
    {
        if let Some(result) = &runs[i].result {
            if result.account.is_some() {
                assert(reports_account(runs@[i as int]));
                return true;
            }
        }
        i = i + 1;
    }
    false
}

fn any_reports_symbols(runs: &Vec<StoredReconciliationRun>) -> (r: bool)
    ensures
        r == exists|i: int| 0 <= i < runs@.len() && reports_symbols(#[trigger] runs@[i]),
{
    let mut i: usize = 0;
    while i < runs.len()
        invariant
            i <= runs.len(),
            forall|j: int| 0 <= j < i ==> !reports_symbols(#[trigger] runs@[j]),
        decreases runs.len() - i,
    {
        if let Some(completeness) = runs[i].completeness {
            if completeness.symbol_metadata_complete {
                assert(reports_symbols(runs@[i as int]));
                return true;
            }
        }
        i = i + 1;
    }
    false
}

fn does_settle_commands(run: &StoredReconciliationRun) -> (r: bool)
    ensures
        r == settles_commands(*run),
{
    let completed = match &run.result_evaluation {
        Some(evaluation) => evaluation.disposition == ReconciliationDisposition::Completed,
        None => false,
    };
    let complete = match run.completeness {
        Some(completeness) => completeness.command_scope_complete,
        None => false,
    };
    run.status == ReconciliationRunStatus::Completed && run.request.command_ids.is_none()
        && run.request.terminal_id.is_none() && run.request.client_id.is_none() && completed
        && complete
}

fn any_settles_commands(runs: &Vec<StoredReconciliationRun>) -> (r: bool)
    ensures
        r == exists|i: int| 0 <= i < runs@.len() && settles_commands(#[trigger] runs@[i]),
{
    let mut i: usize = 0;
    while i < runs.len()
        invariant
            i <= runs.len(),
            forall|j: int| 0 <= j < i ==> !settles_commands(#[trigger] runs@[j]),
        decreases runs.len() - i,
    {
        if does_settle_commands(&runs[i]) {
            return true;
        }
        i = i + 1;
    }
    false
}

/// Refuses a checkpoint without evidence for its times.
pub fn validate_checkpoint_readiness_evidence(
    checkpoint: &AccountReconciliationCheckpoint,
    runs: &ReadinessRuns,
) -> (r: Result<(), StoreError>)
    ensures
        error::fault(r) == readiness_fault(checkpoint@, *runs),
{
    let entity = "account_reconciliation_checkpoint";
    let key = checkpoint.account_id.as_str();
    if checkpoint.account_refreshed_at.is_some() && !any_reports_account(&runs.account) {
        return Err(
            StoreError::corrupt(
                entity,
                key,
                "account_refreshed_at has no durable account snapshot evidence",
            ),
        );
    }
    if checkpoint.symbol_metadata_refreshed_at.is_some() && !any_reports_symbols(&runs.symbols) {
        return Err(
            StoreError::corrupt(
                entity,
                key,
                "symbol_metadata_refreshed_at has no explicit completeness evidence",
            ),
        );
    }
    if checkpoint.pending_commands_reconciled_at.is_some() && !any_settles_commands(
        &runs.commands,
    ) {
        return Err(
            StoreError::corrupt(
                entity,
                key,
                "pending_commands_reconciled_at has no account-wide completeness evidence",
            ),
        );
    }
    Ok(())
}

/// Which of its two full sets a checkpoint is asked about.
#[derive(Clone, Copy, Debug, PartialEq, Eq, Structural)]
pub enum FullSetKind {
    Positions,
    Orders,
}

impl FullSetKind {
    /// The name under which faults about members are reported.
    pub open spec fn member_name(self) -> Seq<char> {
        match self {
            FullSetKind::Positions => "reconciliation_position_set_member"@,
            FullSetKind::Orders => "reconciliation_order_set_member"@,
        }
    }

    pub fn member_entity(self) -> (r: &'static str)
        ensures
            r@ == self.member_name(),
    {
        match self {
            FullSetKind::Positions => "reconciliation_position_set_member",
            FullSetKind::Orders => "reconciliation_order_set_member",
        }
    }
}

/// A row of the members of a full set, with what the domain reads from its
/// payload, and with the time and the digest of the newest observation of what
/// it is of.
pub struct SetMemberRow {
    pub set_observed_at: i64,
    pub id: String,
    pub payload: JsonColumns,
    pub value: Result<SnapshotValue, String>,
    pub latest: Option<(i64, String)>,
}

/// Members are listed by their name alone.
impl Listed for SetMemberRow {
    open spec fn time(&self) -> i64 {
        0
    }

    open spec fn key(&self) -> Seq<char> {
        self.id@
    }

    open spec fn account(&self) -> Seq<char> {
        self.id@
    }

    open spec fn current(&self) -> bool {
        true
    }

    fn listed_at(&self) -> (r: i64) {
        0
    }

    fn listed_as(&self) -> (r: &str) {
        self.id.as_str()
    }

    fn listed_for(&self) -> (r: &String) {
        &self.id
    }

    fn is_current(&self) -> (r: bool) {
        true
    }
}

/// The newest observation agrees with a member of a full set: it is newer, or
/// it is that member.
pub open spec fn latest_agrees(
    latest: Option<(i64, String)>,
    set_observed_at: i64,
    hash: Seq<char>,
) -> bool {
    latest matches Some((at, kept)) && at >= set_observed_at && (at == set_observed_at ==> kept@
        == hash)
}

/// What is wrong with a member of a full set.
pub open spec fn member_fault(
    kind: FullSetKind,
    account_id: Seq<char>,
    set_observed_at: i64,
    row: SetMemberRow,
) -> Option<Fault> {
    let e = kind.member_name();
    let key = account_id + ":"@ + row.id@;
    let value = row.value->Ok_0;
    let f = json::stored_fault(e, key, row.payload.text@, row.payload.digest@);
    let f = error::first_of(
        f,
        match row.value {
            Err(error) => Some(error::corrupt_fault(e, key, error@)),
            Ok(_) => None,
        },
    );
    let f = error::first_of(
        f,
        if row.set_observed_at != set_observed_at || value.observed_at != row.set_observed_at
            || value.account_id@ != account_id || value.id@ != row.id@ {
            Some(
                error::corrupt_fault(
                    e,
                    key,
                    "membership aliases do not match payload or checkpoint"@,
                ),
            )
        } else {
            None
        },
    );
    error::first_of(
        f,
        if latest_agrees(row.latest, row.set_observed_at, json::text_digest(row.payload.text@)) {
            None
        } else {
            Some(
                error::corrupt_fault(
                    e,
                    key,
                    "latest projection disagrees with full-set membership"@,
                ),
            )
        },
    )
}

/// What is wrong with the members of a full set.
pub open spec fn members_fault(
    kind: FullSetKind,
    account_id: Seq<char>,
    set_observed_at: i64,
    rows: Seq<SetMemberRow>,
) -> Option<Fault>
    decreases rows.len(),
{
    if rows.len() == 0 {
        None
    } else {
        error::first_of(
            members_fault(kind, account_id, set_observed_at, rows.drop_last()),
            member_fault(kind, account_id, set_observed_at, rows.last()),
        )
    }
}

proof fn members_fault_of_prefix(
    kind: FullSetKind,
    account_id: Seq<char>,
    set_observed_at: i64,
    rows: Seq<SetMemberRow>,
    n: int,
)
    requires
        0 <= n <= rows.len(),
        members_fault(kind, account_id, set_observed_at, rows.take(n)) is Some,
    ensures
        members_fault(kind, account_id, set_observed_at, rows) == members_fault(
            kind,
            account_id,
            set_observed_at,
            rows.take(n),
        ),
    decreases rows.len(),
{
    if n < rows.len() {
        assert(rows.drop_last().take(n) =~= rows.take(n));
        members_fault_of_prefix(kind, account_id, set_observed_at, rows.drop_last(), n);
    } else {
        assert(rows.take(n) =~= rows);
    }
}

fn check_member(
    kind: FullSetKind,
    account_id: &str,
    set_observed_at: i64,
    row: SetMemberRow,
) -> (r: Result<(String, CanonicalJson), StoreError>)
    ensures
        error::fault(r) == member_fault(kind, account_id@, set_observed_at, row),
        r matches Ok((id, payload)) ==> id == row.id && payload@ == row.payload.text@
            && json::parsed_json(payload@) is Ok,
{
    let entity = kind.member_entity();
    let key = join3(account_id, ":", row.id.as_str());
    let payload = CanonicalJson::from_stored(
        entity,
        key.as_str(),
        row.payload.text,
        row.payload.digest,
    )?;
    let value = match row.value {
        Ok(value) => value,
        Err(error) => {
            return Err(StoreError::corrupt(entity, key.as_str(), error.as_str()));
        },
    };
    if row.set_observed_at != set_observed_at || value.observed_at != row.set_observed_at
        || !same_text(value.account_id.as_str(), account_id) || !same_text(
        value.id.as_str(),
        row.id.as_str(),
    ) {
        return Err(
            StoreError::corrupt(
                entity,
                key.as_str(),
                "membership aliases do not match payload or checkpoint",
            ),
        );
    }
    let agrees = match &row.latest {
        Some((at, hash)) => *at > row.set_observed_at || (*at == row.set_observed_at && same_text(
            hash.as_str(),
            payload.sha256_hex(),
        )),
        None => false,
    };
    if !agrees {
        return Err(
            StoreError::corrupt(
                entity,
                key.as_str(),
                "latest projection disagrees with full-set membership",
            ),
        );
    }
    Ok((row.id, payload))
}

/// The canonical texts of the members of a full set.
pub open spec fn row_texts(rows: Seq<SetMemberRow>) -> Seq<Seq<char>> {
    Seq::new(rows.len(), |i: int| rows[i].payload.text@)
}

/// The names of the members of a full set.
pub open spec fn member_ids(rows: Seq<SetMemberRow>) -> Seq<Seq<char>> {
    Seq::new(rows.len(), |i: int| rows[i].id@)
}

/// How it is described that a full set has another digest.
pub open spec fn hash_reason(kind: FullSetKind) -> Seq<char> {
    match kind {
        FullSetKind::Positions => "positions_set_hash does not match membership"@,
        FullSetKind::Orders => "orders_set_hash does not match membership"@,
    }
}

/// How it is described that something is kept which a full set lacks.
pub open spec fn tombstone_reason(kind: FullSetKind) -> Seq<char> {
    match kind {
        FullSetKind::Positions => {
            "position projection contains a row tombstoned by the full set"@
        },
        FullSetKind::Orders => "order projection contains a row tombstoned by the full set"@,
    }
}

/// What is wrong with a full set, whose members are taken by name. `live` are the
/// names of what is kept from its time or before.
pub open spec fn membership_fault(
    kind: FullSetKind,
    account_id: Seq<char>,
    set_observed_at: i64,
    set_hash: Seq<char>,
    rows: Seq<SetMemberRow>,
    live: Seq<Seq<char>>,
) -> Option<Fault> {
    let sorted = listing::sorted(rows);
    let f = members_fault(kind, account_id, set_observed_at, sorted);
    let f = error::first_of(
        f,
        if json::text_digest(json::list_text(row_texts(sorted))) != set_hash {
            checkpoint_corrupt(account_id, hash_reason(kind))
        } else {
            None
        },
    );
    error::first_of(
        f,
        if text::all_within(live, member_ids(sorted)) {
            None
        } else {
            checkpoint_corrupt(account_id, tombstone_reason(kind))
        },
    )
}

/// Refuses a full set that is not the one that the checkpoint speaks of, or
/// with which the newest observations disagree.
pub fn validate_membership(
    kind: FullSetKind,
    checkpoint: &AccountReconciliationCheckpoint,
    rows: Vec<SetMemberRow>,
    live: &Vec<String>,
) -> (r: Result<(), StoreError>)
    ensures
        error::fault(r) == membership_fault(
            kind,
            checkpoint.account_id@,
            match kind {
                FullSetKind::Positions => checkpoint.positions_observed_at,
                FullSetKind::Orders => checkpoint.orders_observed_at,
            },
            match kind {
                FullSetKind::Positions => checkpoint.positions_set_hash@,
                FullSetKind::Orders => checkpoint.orders_set_hash@,
            },
            rows@,
            text::texts(live@),
        ),
{
    let account_id = checkpoint.account_id.as_str();
    let set_observed_at: i64 = match kind {
        FullSetKind::Positions => checkpoint.positions_observed_at,
        FullSetKind::Orders => checkpoint.orders_observed_at,
    };
    let set_hash = match kind {
        FullSetKind::Positions => checkpoint.positions_set_hash.as_str(),
        FullSetKind::Orders => checkpoint.orders_set_hash.as_str(),
    };
    let sorted = oldest_first(rows);
    let ghost all = sorted@;
    let mut ids: Vec<String> = Vec::new();
    let mut payloads: Vec<CanonicalJson> = Vec::new();
    for row in it: sorted
        invariant
            it.seq() == all,
            all == listing::sorted(rows@),
            account_id@ == checkpoint.account_id@,
            set_observed_at == match kind {
                FullSetKind::Positions => checkpoint.positions_observed_at,
                FullSetKind::Orders => checkpoint.orders_observed_at,
            },
            ids@.len() == it.index(),
            payloads@.len() == it.index(),
            forall|j: int| 0 <= j < ids@.len() ==> (#[trigger] ids@[j])@ == all[j].id@,
            forall|j: int|
                0 <= j < payloads@.len() ==> (#[trigger] payloads@[j])@ == all[j].payload.text@
                    && json::parsed_json(payloads@[j]@) is Ok,
            members_fault(kind, account_id@, set_observed_at, all.take(it.index())) is None,
    {
        let ghost n = it.index();
        assert(row == all[n]);
        assert(all.take(n + 1).drop_last() =~= all.take(n));
        match check_member(kind, account_id, set_observed_at, row) {
            Ok((id, payload)) => {
                ids.push(id);
                payloads.push(payload);
            },
            Err(error) => {
                proof {
                    members_fault_of_prefix(kind, account_id@, set_observed_at, all, n + 1);
                }
                return Err(error);
            },
        }
    }
    assert(all.take(all.len() as int) =~= all);
    assert(text::texts(ids@) =~= member_ids(all));
    let entity = "account_reconciliation_checkpoint";
    proof {
        let views = json::canonical_views(payloads@);
        assert(views =~= row_texts(all));
        assert forall|j: int| 0 <= j < views.len() implies json::parsed_json(
            #[trigger] views[j],
        ) is Ok by {
            assert(views[j] == payloads@[j]@);
        }
        json::readable_lists_are_taken(views);
    }
    let set = CanonicalJson::from_list(&payloads)?;
    if !same_text(set.sha256_hex(), set_hash) {
        let reason = match kind {
            FullSetKind::Positions => "positions_set_hash does not match membership",
            FullSetKind::Orders => "orders_set_hash does not match membership",
        };
        return Err(StoreError::corrupt(entity, account_id, reason));
    }
    if !text::list_within(live, &ids) {
        let reason = match kind {
            FullSetKind::Positions => {
                "position projection contains a row tombstoned by the full set"
            },
            FullSetKind::Orders => "order projection contains a row tombstoned by the full set",
        };
        return Err(StoreError::corrupt(entity, account_id, reason));
    }
    Ok(())
}

/// A full set as it is stored: its members, and the names of what is kept from
/// its time or before.
pub struct StoredFullSet {
    pub rows: Vec<SetMemberRow>,
    pub live: Vec<String>,
}

/// What is wrong with a stored checkpoint.
pub open spec fn checkpoint_fault(
    checkpoint: Checkpoint,
    source: Option<StoredReconciliationRun>,
    runs: ReadinessRuns,
    positions: StoredFullSet,
    orders: StoredFullSet,
) -> Option<Fault> {
    let key = checkpoint.account_id;
    if !shaped(checkpoint) {
        checkpoint_corrupt(key, "timestamps or full-set hashes are invalid"@)
    } else {
        let f = source_fault(checkpoint, source);
        let f = error::first_of(f, readiness_fault(checkpoint, runs));
        let f = error::first_of(
            f,
            membership_fault(
                FullSetKind::Positions,
                key,
                checkpoint.positions_observed_at,
                checkpoint.positions_set_hash,
                positions.rows@,
                text::texts(positions.live@),
            ),
        );
        error::first_of(
            f,
            membership_fault(
                FullSetKind::Orders,
                key,
                checkpoint.orders_observed_at,
                checkpoint.orders_set_hash,
                orders.rows@,
                text::texts(orders.live@),
            ),
        )
    }
}

/// Refuses a stored checkpoint that the stored evidence does not bear out.
pub fn validate_checkpoint_integrity(
    checkpoint: &AccountReconciliationCheckpoint,
    source: &Option<StoredReconciliationRun>,
    runs: &ReadinessRuns,
    positions: StoredFullSet,
    orders: StoredFullSet,
) -> (r: Result<(), StoreError>)
    ensures
        error::fault(r) == checkpoint_fault(checkpoint@, *source, *runs, positions, orders),
{
    if !is_shaped(checkpoint) {
        return Err(
            StoreError::corrupt(
                "account_reconciliation_checkpoint",
                checkpoint.account_id.as_str(),
                "timestamps or full-set hashes are invalid",
            ),
        );
    }
    check_source(checkpoint, source)?;
    validate_checkpoint_readiness_evidence(checkpoint, runs)?;
    validate_membership(
        FullSetKind::Positions,
        checkpoint,
        positions.rows,
        &positions.live,
    )?;
    validate_membership(FullSetKind::Orders, checkpoint, orders.rows, &orders.live)
}

/// Refuses a checkpoint that is of another account than the one asked for.
pub fn require_checkpoint_account(stored_account: &str, account_id: &AccountId) -> (r: Result<
    (),
    StoreError,
>)
    ensures
        error::fault(r) == (if stored_account@ == account_id@ {
            None
        } else {
            checkpoint_corrupt(account_id@, "account_id alias does not match lookup key"@)
        }),
{
    if same_text(stored_account, account_id.as_str()) {
        Ok(())
    } else {
        Err(
            StoreError::corrupt(
                "account_reconciliation_checkpoint",
                account_id.as_str(),
                "account_id alias does not match lookup key",
            ),
        )
    }
}

/// A run through one client, through one terminal or about a list of commands
/// says nothing about the other commands of the account, nor does one that was
/// not completed or did not cover them all: the time up to which the commands
/// are reconciled stays as it was. A completed run about the whole account moves
/// it to the time of the result, unless it is later already.
pub proof fn partial_runs_settle_nothing(
    request: ReconciliationRequest,
    result: ReconciliationResult,
    evaluation: ReconciliationEvaluation,
    completeness: ReconciliationCompleteness,
    positions_set: Seq<char>,
    orders_set: Seq<char>,
    updated_at: i64,
    existing: Option<Checkpoint>,
)
    ensures
        ({
            let after = advanced(
                existing,
                advance_of(
                    request,
                    result,
                    evaluation,
                    completeness,
                    positions_set,
                    orders_set,
                    updated_at,
                ),
            ).pending_commands_reconciled_at;
            let before = match existing {
                Some(checkpoint) => checkpoint.pending_commands_reconciled_at,
                None => None,
            };
            &&& request.client_id is Some ==> after == before
            &&& request.terminal_id is Some ==> after == before
            &&& request.command_ids is Some ==> after == before
            &&& !(evaluation.disposition is Completed) ==> after == before
            &&& !completeness.command_scope_complete ==> after == before
            &&& request.client_id is None && request.terminal_id is None
                && request.command_ids is None && evaluation.disposition is Completed
                && completeness.command_scope_complete ==> {
                &&& after matches Some(at) && at >= result.observed_at
                &&& after == Some(result.observed_at) || after == before
                &&& (before matches Some(at) && at > result.observed_at) ==> after == before
            }
        }),
{
}

/// The time of the account moves to that of a result which reports the account,
/// and the time of the symbols to that of a result which reports all of them;
/// any other result leaves them as they were.
pub proof fn results_refresh_what_they_report(
    request: ReconciliationRequest,
    result: ReconciliationResult,
    evaluation: ReconciliationEvaluation,
    completeness: ReconciliationCompleteness,
    positions_set: Seq<char>,
    orders_set: Seq<char>,
    updated_at: i64,
    existing: Option<Checkpoint>,
)
    ensures
        ({
            let after = advanced(
                existing,
                advance_of(
                    request,
                    result,
                    evaluation,
                    completeness,
                    positions_set,
                    orders_set,
                    updated_at,
                ),
            );
            let account = match existing {
                Some(checkpoint) => checkpoint.account_refreshed_at,
                None => None,
            };
            let symbols = match existing {
                Some(checkpoint) => checkpoint.symbol_metadata_refreshed_at,
                None => None,
            };
            &&& result.account is None ==> after.account_refreshed_at == account
            &&& result.account is Some && (account matches Some(at) ==> at <= result.observed_at)
                ==> after.account_refreshed_at == Some(result.observed_at)
            &&& result.account is Some && (account matches Some(at) && at > result.observed_at)
                ==> after.account_refreshed_at == account
            &&& !completeness.symbol_metadata_complete ==> after.symbol_metadata_refreshed_at
                == symbols
            &&& completeness.symbol_metadata_complete && (symbols matches Some(at) ==> at
                <= result.observed_at) ==> after.symbol_metadata_refreshed_at == Some(
                result.observed_at,
            )
            &&& completeness.symbol_metadata_complete && (symbols matches Some(at) && at
                > result.observed_at) ==> after.symbol_metadata_refreshed_at == symbols
        }),
{
}

/// A checkpoint keeps the newest result: its sets, its time and its name. An
/// older result changes none of them, and of two results for one time the one
/// whose name comes first gives the name.
pub proof fn checkpoints_keep_the_newest(
    request: ReconciliationRequest,
    result: ReconciliationResult,
    evaluation: ReconciliationEvaluation,
    completeness: ReconciliationCompleteness,
    positions_set: Seq<char>,
    orders_set: Seq<char>,
    updated_at: i64,
    existing: Option<Checkpoint>,
)
    requires
        existing matches Some(checkpoint) ==> shaped(checkpoint),
    ensures
        ({
            let after = advanced(
                existing,
                advance_of(
                    request,
                    result,
                    evaluation,
                    completeness,
                    positions_set,
                    orders_set,
                    updated_at,
                ),
            );
            let newest = existing matches Some(checkpoint) ==> checkpoint.result_observed_at
                < result.observed_at;
            &&& newest ==> {
                &&& after.source_request_id == result.request_id@
                &&& after.result_observed_at == result.observed_at
                &&& after.positions_observed_at == result.observed_at
                &&& after.positions_set_hash == json::text_digest(positions_set)
                &&& after.orders_observed_at == result.observed_at
                &&& after.orders_set_hash == json::text_digest(orders_set)
            }
            &&& !newest ==> {
                &&& after.result_observed_at == existing->0.result_observed_at
                &&& after.positions_observed_at == existing->0.result_observed_at
                &&& after.positions_set_hash == existing->0.positions_set_hash
                &&& after.orders_observed_at == existing->0.result_observed_at
                &&& after.orders_set_hash == existing->0.orders_set_hash
                &&& result.observed_at < existing->0.result_observed_at ==> after.source_request_id
                    == existing->0.source_request_id
                &&& result.observed_at == existing->0.result_observed_at ==> (
                after.source_request_id == existing->0.source_request_id
                    || after.source_request_id == result.request_id@) && !text::precedes(
                    existing->0.source_request_id,
                    after.source_request_id,
                ) && !text::precedes(result.request_id@, after.source_request_id)
            }
            &&& existing is None ==> after.account_id == result.account_id@ && after.updated_at
                == updated_at
            &&& existing matches Some(checkpoint) ==> after.account_id == checkpoint.account_id
                && after.updated_at >= updated_at && after.updated_at >= checkpoint.updated_at && (
            after.updated_at == updated_at || after.updated_at == checkpoint.updated_at)
        }),
{
    if existing is Some {
        let a = existing->0.source_request_id;
        let b = result.request_id@;
        text::precedes_irreflexive(a);
        text::precedes_irreflexive(b);
        if text::precedes(b, a) {
            text::precedes_asymmetric(b, a);
        }
    }
}

/// Two full sets of one time that differ contradict each other; otherwise the
/// newer one stays.
pub proof fn newer_sets_replace_older(
    observed_at: i64,
    set_hash: Seq<char>,
    watermark: i64,
    existing_hash: Seq<char>,
)
    ensures
        snapshots::contradicts(observed_at, set_hash, Some((watermark, existing_hash))) <==> (
        observed_at == watermark && set_hash != existing_hash),
        !snapshots::contradicts(observed_at, set_hash, None),
        full_set_decision(observed_at, None) is Applied,
        full_set_decision(observed_at, Some((watermark, existing_hash))) is Applied
            <==> observed_at > watermark,
        full_set_decision(observed_at, Some((watermark, existing_hash))) is IgnoredOlder
            <==> observed_at < watermark,
        full_set_decision(observed_at, Some((watermark, existing_hash))) is Unchanged
            <==> observed_at == watermark,
{
}

/// A stored checkpoint that passes is borne out: its times fit, the run that it
/// names is of its account, was answered at its time and has its sets, and each
/// time that it claims has a run which reports as much.
pub proof fn passing_checkpoints_are_borne_out(
    checkpoint: Checkpoint,
    source: Option<StoredReconciliationRun>,
    runs: ReadinessRuns,
    positions: StoredFullSet,
    orders: StoredFullSet,
)
    requires
        checkpoint_fault(checkpoint, source, runs, positions, orders) is None,
    ensures
        0 <= checkpoint.result_observed_at <= checkpoint.updated_at,
        checkpoint.positions_observed_at == checkpoint.result_observed_at,
        checkpoint.orders_observed_at == checkpoint.result_observed_at,
        checkpoint.account_refreshed_at matches Some(at) ==> 0 <= at
            <= checkpoint.result_observed_at,
        checkpoint.symbol_metadata_refreshed_at matches Some(at) ==> 0 <= at
            <= checkpoint.result_observed_at,
        checkpoint.pending_commands_reconciled_at matches Some(at) ==> 0 <= at
            <= checkpoint.result_observed_at,
        source is Some && source->0.request.account_id@ == checkpoint.account_id,
        source->0.result is Some && ({
            let result = source->0.result->0;
            &&& result.observed_at == checkpoint.result_observed_at
            &&& checkpoint.positions_set_hash == json::text_digest(
                reconciliation::set_text(result.positions@),
            )
            &&& checkpoint.orders_set_hash == json::text_digest(
                reconciliation::set_text(result.orders@),
            )
        }),
        checkpoint.account_refreshed_at is Some ==> exists|i: int|
            0 <= i < runs.account@.len() && ((#[trigger] runs.account@[i]).result matches Some(
                result,
            ) && result.account is Some),
        checkpoint.symbol_metadata_refreshed_at is Some ==> exists|i: int|
            0 <= i < runs.symbols@.len() && ((#[trigger] runs.symbols@[i]).completeness matches Some(
                completeness,
            ) && completeness.symbol_metadata_complete),
        checkpoint.pending_commands_reconciled_at is Some ==> exists|i: int|
            {
                let run = #[trigger] runs.commands@[i];
                &&& 0 <= i < runs.commands@.len()
                &&& run.status is Completed
                &&& run.request.command_ids is None
                &&& run.request.terminal_id is None
                &&& run.request.client_id is None
                &&& run.result_evaluation matches Some(evaluation)
                    && evaluation.disposition is Completed
                &&& run.completeness matches Some(completeness)
                    && completeness.command_scope_complete
            },
{
    if checkpoint.account_refreshed_at is Some {
        let i = choose|i: int|
            0 <= i < runs.account@.len() && reports_account(#[trigger] runs.account@[i]);
        assert(reports_account(runs.account@[i]));
    }
    if checkpoint.symbol_metadata_refreshed_at is Some {
        let i = choose|i: int|
            0 <= i < runs.symbols@.len() && reports_symbols(#[trigger] runs.symbols@[i]);
        assert(reports_symbols(runs.symbols@[i]));
    }
    if checkpoint.pending_commands_reconciled_at is Some {
        let i = choose|i: int|
            0 <= i < runs.commands@.len() && settles_commands(#[trigger] runs.commands@[i]);
        assert(settles_commands(runs.commands@[i]));
    }
}

/// A checkpoint says that something was refreshed only if a run is kept that did
/// it: one that reported the account, one that claimed all symbols, one about the
/// whole account that was completed and claimed all commands.
pub proof fn claims_of_readiness_need_their_run(checkpoint: Checkpoint, runs: ReadinessRuns)
    ensures
        readiness_fault(checkpoint, runs) is None <==> {
            &&& checkpoint.account_refreshed_at is Some ==> exists|i: int|
                0 <= i < runs.account@.len() && (#[trigger] runs.account@[i]).result is Some && (
                runs.account@[i].result->0).account is Some
            &&& checkpoint.symbol_metadata_refreshed_at is Some ==> exists|i: int|
                0 <= i < runs.symbols@.len() && (#[trigger] runs.symbols@[i]).completeness is Some
                    && (runs.symbols@[i].completeness->0).symbol_metadata_complete
            &&& checkpoint.pending_commands_reconciled_at is Some ==> exists|i: int|
                0 <= i < runs.commands@.len() && ({
                    let run = #[trigger] runs.commands@[i];
                    &&& run.status is Completed
                    &&& run.request.command_ids is None
                    &&& run.request.terminal_id is None
                    &&& run.request.client_id is None
                    &&& run.result_evaluation is Some && (run.result_evaluation->0).disposition
                        is Completed
                    &&& run.completeness is Some && (run.completeness->0).command_scope_complete
                })
        },
{
    if checkpoint.account_refreshed_at is Some {
        assert(forall|i: int|
            0 <= i < runs.account@.len() ==> (reports_account(#[trigger] runs.account@[i]) <==> (
            runs.account@[i].result is Some && (runs.account@[i].result->0).account is Some)));
    }
    if checkpoint.symbol_metadata_refreshed_at is Some {
        assert(forall|i: int|
            0 <= i < runs.symbols@.len() ==> (reports_symbols(#[trigger] runs.symbols@[i]) <==> (
            runs.symbols@[i].completeness is Some && (
            runs.symbols@[i].completeness->0).symbol_metadata_complete)));
    }
}

/// The shape of a checkpoint: it is of one result, nothing was refreshed after
/// that result or before the beginning of time, and it holds two digests.
pub proof fn checkpoints_are_of_one_result(checkpoint: Checkpoint)
    ensures
        shaped(checkpoint) <==> {
            &&& 0 <= checkpoint.result_observed_at <= checkpoint.updated_at
            &&& checkpoint.positions_observed_at == checkpoint.result_observed_at
            &&& checkpoint.orders_observed_at == checkpoint.result_observed_at
            &&& checkpoint.account_refreshed_at is Some ==> 0 <= checkpoint.account_refreshed_at->0
                <= checkpoint.result_observed_at
            &&& checkpoint.symbol_metadata_refreshed_at is Some ==> 0
                <= checkpoint.symbol_metadata_refreshed_at->0 <= checkpoint.result_observed_at
            &&& checkpoint.pending_commands_reconciled_at is Some ==> 0
                <= checkpoint.pending_commands_reconciled_at->0 <= checkpoint.result_observed_at
            &&& text::lower_hex_64(checkpoint.positions_set_hash)
            &&& text::lower_hex_64(checkpoint.orders_set_hash)
        },
{
}

/// A member of a kept set is intact, of the account and the time of the set, under
/// its own name, and what is known of it is not older and, if as old, the same.
pub proof fn kept_members_agree_with_what_is_known(
    kind: FullSetKind,
    account_id: Seq<char>,
    set_observed_at: i64,
    row: SetMemberRow,
)
    ensures
        member_fault(kind, account_id, set_observed_at, row) is None <==> {
            &&& json::stored_fault(
                kind.member_name(),
                account_id + ":"@ + row.id@,
                row.payload.text@,
                row.payload.digest@,
            ) is None
            &&& row.value is Ok
            &&& row.set_observed_at == set_observed_at
            &&& (row.value->Ok_0).observed_at == set_observed_at
            &&& (row.value->Ok_0).account_id@ == account_id
            &&& (row.value->Ok_0).id@ == row.id@
            &&& row.latest is Some
            &&& (row.latest->0).0 >= set_observed_at
            &&& (row.latest->0).0 == set_observed_at ==> (row.latest->0).1@ == json::text_digest(
                row.payload.text@,
            )
        },
{
}

/// The source of a checkpoint is a stored run of its account, with a result of its
/// time and with its two sets.
pub proof fn checkpoints_have_their_source(
    checkpoint: Checkpoint,
    source: Option<StoredReconciliationRun>,
)
    ensures
        source_fault(checkpoint, source) is None ==> {
            &&& source is Some
            &&& (source->0).request.account_id@ == checkpoint.account_id
            &&& (source->0).result is Some
            &&& ((source->0).result->0).observed_at == checkpoint.result_observed_at
            &&& json::text_digest(
                reconciliation::set_text(((source->0).result->0).positions@),
            ) == checkpoint.positions_set_hash
            &&& json::text_digest(
                reconciliation::set_text(((source->0).result->0).orders@),
            ) == checkpoint.orders_set_hash
        },
        source is Some && (source->0).request.account_id@ == checkpoint.account_id && (
        source->0).result is Some && ((source->0).result->0).observed_at
            == checkpoint.result_observed_at && reconciliation::set_fault(
            ((source->0).result->0).positions@,
        ) is None && reconciliation::set_fault(((source->0).result->0).orders@) is None
            && json::text_digest(reconciliation::set_text(((source->0).result->0).positions@))
            == checkpoint.positions_set_hash && json::text_digest(
            reconciliation::set_text(((source->0).result->0).orders@),
        ) == checkpoint.orders_set_hash ==> source_fault(checkpoint, source) is None,
{
}

}
