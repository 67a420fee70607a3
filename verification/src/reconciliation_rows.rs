//! Stored reconciliation runs: how they are read, and what reading them back
//! guarantees.

use vstd::prelude::*;
use vstd::string::*;

use crate::columns;
use crate::columns::{optional_canonical, same_time, JsonColumns};
use crate::domain::RequestId;
use crate::error;
use crate::error::{Fault, StoreError};
use crate::json;
use crate::json::CanonicalJson;
use crate::model::StoredCoreEvent;
use crate::reconciliation;
use crate::reconciliation::{
    command_ids_json, parse_run_status, reason_name, scope_name, validate_completeness,
    validate_evaluation, validate_request, validate_result_evaluation_link, validate_result_sets,
    validate_stored_event, EventSubject, ManualReconciliationEvidence, NewManualReconciliationEscalation,
    NewReconciliationResult, ReconciliationCompleteness, ReconciliationDisposition,
    ReconciliationEvaluation, ReconciliationRequest, ReconciliationResult, ReconciliationRunStatus,
    StoredReconciliationRun, REQUEST_EVENT_TYPE, RESULT_EVENT_TYPE,
};
use crate::text;
use crate::text::{is_blank, join2, same_optional, same_text};

verus! {

/// JSON columns of which both or none are present, with what the domain reads
/// from the text.
pub struct OptionalJson<T> {
    pub text: Option<String>,
    pub digest: Option<String>,
    pub decoded: Result<T, String>,
}

/// What is wrong with a payload that the domain cannot read.
pub open spec fn unreadable<T>(
    entity: Seq<char>,
    key: Seq<char>,
    decoded: Result<T, String>,
) -> Option<Fault> {
    match decoded {
        Ok(_) => None,
        Err(error) => Some(error::corrupt_fault(entity, key, error@)),
    }
}

/// What is wrong with optional JSON columns.
pub open spec fn optional_json_fault<T>(
    entity: Seq<char>,
    key: Seq<char>,
    value: OptionalJson<T>,
) -> Option<Fault> {
    error::first_of(
        columns::optional_json_fault(
            entity,
            key,
            value.text,
            value.digest,
            "JSON/hash columns are only partially populated"@,
        ),
        if value.text is Some {
            unreadable(entity, key, value.decoded)
        } else {
            None
        },
    )
}

/// What optional JSON columns hold.
pub open spec fn held<T>(value: OptionalJson<T>) -> Option<T> {
    if value.text is Some {
        Some(value.decoded->Ok_0)
    } else {
        None
    }
}

fn decode_canonical<T>(entity: &'static str, key: &str, decoded: Result<T, String>) -> (r: Result<
    T,
    StoreError,
>)
    ensures
        error::fault(r) == unreadable(entity@, key@, decoded),
        r matches Ok(value) ==> decoded == Ok::<T, String>(value),
{
    match decoded {
        Ok(value) => Ok(value),
        Err(error) => Err(StoreError::corrupt(entity, key, error.as_str())),
    }
}

fn optional_decoded<T>(entity: &'static str, key: &str, value: OptionalJson<T>) -> (r: Result<
    Option<(CanonicalJson, T)>,
    StoreError,
>)
    ensures
        error::fault(r) == optional_json_fault(entity@, key@, value),
        r matches Ok(found) ==> match found {
            Some((payload, decoded)) => value.text matches Some(text) && payload@ == text@
                && held(value) == Some(decoded),
            None => value.text is None,
        },
{
    let payload = optional_canonical(
        entity,
        key,
        value.text,
        value.digest,
        "JSON/hash columns are only partially populated",
    )?;
    match payload {
        Some(payload) => {
            let decoded = decode_canonical(entity, key, value.decoded)?;
            Ok(Some((payload, decoded)))
        },
        None => Ok(None),
    }
}

/// A row of the runs, with the events that it names and what the domain reads
/// from its payloads.
pub struct ReconciliationRunRow {
    pub request_id: RequestId,
    pub account_id: String,
    pub terminal_id: Option<String>,
    pub client_id: Option<String>,
    pub reason: String,
    pub scope: String,
    pub command_ids_json: Option<String>,
    pub command_ids_hash: Option<String>,
    pub since_server_time: Option<i64>,
    pub requested_at: i64,
    pub status: String,
    pub request_payload: JsonColumns,
    pub request: Result<ReconciliationRequest, String>,
    pub request_event: Option<StoredCoreEvent>,
    pub has_result_event_id: bool,
    pub result_event: Option<StoredCoreEvent>,
    pub result_observed_at: Option<i64>,
    pub result: OptionalJson<ReconciliationResult>,
    pub result_evaluation: OptionalJson<ReconciliationEvaluation>,
    pub completeness: OptionalJson<ReconciliationCompleteness>,
    pub symbol_metadata_complete: Option<i64>,
    pub command_scope_complete: Option<i64>,
    pub manual_evidence: OptionalJson<ManualReconciliationEvidence>,
    pub manual_evaluation: OptionalJson<ReconciliationEvaluation>,
    pub created_at: i64,
    pub updated_at: i64,
}

/// A fault in what a row holds, as a fault of the row.
pub open spec fn corrupt_of(fault: Option<Fault>, key: Seq<char>) -> Option<Fault> {
    match fault {
        None => None,
        Some(Fault::InvalidRecord { entity, key: inner, reason }) => Some(
            error::corrupt_fault("reconciliation_run"@, key, reason),
        ),
        Some(Fault::CorruptData { entity, key: inner, reason }) => Some(
            error::corrupt_fault("reconciliation_run"@, key, reason),
        ),
        Some(Fault::IdentityConflict { entity, key: inner }) => Some(
            error::corrupt_fault(
                "reconciliation_run"@,
                key,
                entity + " identity aliases do not match"@,
            ),
        ),
        Some(other) => Some(other),
    }
}

/// An error in what a row holds, as an error of the row.
pub fn corrupt_from_invalid(error: StoreError, key: &str) -> (e: StoreError)
    ensures
        Some(e@) == corrupt_of(Some(error@), key@),
{
    match error {
        StoreError::InvalidRecord { entity, key: inner, reason } => StoreError::corrupt(
            "reconciliation_run",
            key,
            reason.as_str(),
        ),
        StoreError::CorruptData { entity, key: inner, reason } => StoreError::corrupt(
            "reconciliation_run",
            key,
            reason.as_str(),
        ),
        StoreError::IdentityConflict { entity, key: inner } => {
            let reason = join2(entity, " identity aliases do not match");
            StoreError::corrupt("reconciliation_run", key, reason.as_str())
        },
        other => other,
    }
}

fn as_corrupt(result: Result<(), StoreError>, key: &str) -> (r: Result<(), StoreError>)
    ensures
        error::fault(r) == corrupt_of(error::fault(result), key@),
{
    match result {
        Ok(_) => Ok(()),
        Err(error) => Err(corrupt_from_invalid(error, key)),
    }
}

/// A fault of the row.
pub open spec fn row_corrupt(key: Seq<char>, reason: Seq<char>) -> Option<Fault> {
    Some(error::corrupt_fault("reconciliation_run"@, key, reason))
}

/// What is wrong with the columns that repeat the request.
pub open spec fn request_aliases_fault(row: ReconciliationRunRow) -> Option<Fault> {
    let key = row.request_id@;
    let request = row.request->Ok_0;
    error::first_of(
        columns::optional_json_fault(
            "reconciliation_run.command_ids"@,
            key,
            row.command_ids_json,
            row.command_ids_hash,
            "JSON/hash columns are only partially populated"@,
        ),
        if row.account_id@ == request.account_id@ && text::optional_text(row.terminal_id)
            == text::optional_text(request.terminal_id) && text::optional_text(row.client_id)
            == text::optional_text(request.client_id) && row.reason@ == request.reason.name()
            && row.scope@ == reconciliation::scope_text(request) && text::optional_text(
            row.command_ids_json,
        ) == reconciliation::command_list(request) && row.since_server_time
            == request.since_server_time {
            None
        } else {
            row_corrupt(key, "request payload aliases do not match columns"@)
        },
    )
}

/// The number that stands for a flag.
pub open spec fn flag_column(flag: bool) -> Option<i64> {
    Some(
        if flag {
            1i64
        } else {
            0i64
        },
    )
}

fn is_flag(column: Option<i64>, flag: bool) -> (r: bool)
    ensures
        r == (column == flag_column(flag)),
{
    match column {
        Some(value) => if flag {
            value == 1
        } else {
            value == 0
        },
        None => false,
    }
}

/// What is wrong with the columns that hold the result.
pub open spec fn result_columns_fault(row: ReconciliationRunRow) -> Option<Fault> {
    let key = row.request_id@;
    let request = row.request->Ok_0;
    match (held(row.result), held(row.result_evaluation), held(row.completeness)) {
        (None, None, None) => if row.result_observed_at is None {
            None
        } else {
            row_corrupt(key, "result columns are only partially populated"@)
        },
        (Some(result), Some(evaluation), Some(completeness)) => if row.result_observed_at != Some(
            result.observed_at,
        ) || !reconciliation::answers(result, request) || row.symbol_metadata_complete
            != flag_column(completeness.symbol_metadata_complete) || row.command_scope_complete
            != flag_column(completeness.command_scope_complete) {
            row_corrupt(key, "result payload aliases do not match columns or request"@)
        } else {
            let f = reconciliation::result_sets_fault(result, request.command_ids);
            let f = error::first_of(
                f,
                reconciliation::evaluation_fault(evaluation, request, Some(result.observed_at)),
            );
            let f = error::first_of(f, reconciliation::completeness_fault(completeness, request));
            let f = error::first_of(f, reconciliation::link_fault(result, evaluation));
            corrupt_of(f, key)
        },
        _ => row_corrupt(key, "result columns are only partially populated"@),
    }
}

/// What is wrong with the event of the result.
pub open spec fn result_event_fault(row: ReconciliationRunRow) -> Option<Fault> {
    let key = row.request_id@;
    match (row.has_result_event_id, held(row.result)) {
        (true, Some(result)) => match row.result_event {
            None => row_corrupt(key, "result event is missing"@),
            Some(event) => corrupt_of(
                reconciliation::stored_event_fault(
                    event,
                    reconciliation::result_subject(result),
                    row.result.text->0@,
                ),
                key,
            ),
        },
        (false, None) => None,
        _ => row_corrupt(key, "result columns are only partially populated"@),
    }
}

/// Why a person has to look is told as it may be told.
pub open spec fn manual_state(
    request: ReconciliationRequest,
    requested_at: i64,
    result_observed_at: Option<i64>,
    result_evaluation: Option<ReconciliationEvaluation>,
    evidence: ManualReconciliationEvidence,
    evaluation: ReconciliationEvaluation,
    status: ReconciliationRunStatus,
) -> bool {
    &&& status == ReconciliationRunStatus::ManualReconciliationRequired
    &&& evidence.request_id@ == request.request_id@
    &&& !text::blank(evidence.reason@)
    &&& requested_at <= evidence.escalated_at
    &&& result_observed_at matches Some(at) ==> at <= evidence.escalated_at
    &&& evaluation.disposition == ReconciliationDisposition::ManualRequired
    &&& reconciliation::only_escalates(evaluation, result_evaluation)
}

/// What is wrong with the columns that tell why a person has to look.
pub open spec fn manual_columns_fault(
    key: Seq<char>,
    request: ReconciliationRequest,
    requested_at: i64,
    result_observed_at: Option<i64>,
    result_evaluation: Option<ReconciliationEvaluation>,
    evidence: Option<ManualReconciliationEvidence>,
    evaluation: Option<ReconciliationEvaluation>,
    status: ReconciliationRunStatus,
) -> Option<Fault> {
    match (evidence, evaluation) {
        (None, None) => if status == ReconciliationRunStatus::ManualReconciliationRequired {
            row_corrupt(key, "manual status requires explicit evidence"@)
        } else {
            None
        },
        (Some(evidence), Some(evaluation)) => if !manual_state(
            request,
            requested_at,
            result_observed_at,
            result_evaluation,
            evidence,
            evaluation,
            status,
        ) {
            row_corrupt(key, "manual evidence aliases or state are invalid"@)
        } else {
            corrupt_of(
                reconciliation::evaluation_fault(evaluation, request, result_observed_at),
                key,
            )
        },
        _ => row_corrupt(key, "manual evidence columns are only partially populated"@),
    }
}

/// The time of the last change is that of what the status stands for.
pub open spec fn status_time(
    status: ReconciliationRunStatus,
    created_at: i64,
    updated_at: i64,
    result_event: Option<StoredCoreEvent>,
    evidence: Option<ManualReconciliationEvidence>,
) -> bool {
    match status {
        ReconciliationRunStatus::Requested => updated_at == created_at,
        ReconciliationRunStatus::PendingEvidence | ReconciliationRunStatus::Completed => {
            result_event matches Some(event) && updated_at == event.metadata.created_at
        },
        ReconciliationRunStatus::ManualReconciliationRequired => {
            &&& evidence matches Some(evidence) && updated_at >= evidence.escalated_at
            &&& result_event matches Some(event) ==> updated_at >= event.metadata.created_at
        },
    }
}

/// The times of a run follow each other.
pub open spec fn run_times(
    requested_at: i64,
    status: ReconciliationRunStatus,
    created_at: i64,
    updated_at: i64,
    request_event: StoredCoreEvent,
    result_event: Option<StoredCoreEvent>,
    evidence: Option<ManualReconciliationEvidence>,
) -> bool {
    &&& created_at == request_event.metadata.created_at
    &&& requested_at <= created_at
    &&& created_at <= updated_at
    &&& status_time(status, created_at, updated_at, result_event, evidence)
}

/// An evaluation is there and comes to this.
pub open spec fn comes_to(
    evaluation: Option<ReconciliationEvaluation>,
    disposition: ReconciliationDisposition,
) -> bool {
    evaluation matches Some(evaluation) && evaluation.disposition == disposition
}

/// The status is what the evidence says.
pub open spec fn state_consistent(
    status: ReconciliationRunStatus,
    result: Option<ReconciliationResult>,
    result_evaluation: Option<ReconciliationEvaluation>,
    manual_evidence: Option<ManualReconciliationEvidence>,
    manual_evaluation: Option<ReconciliationEvaluation>,
) -> bool {
    match status {
        ReconciliationRunStatus::Requested => result is None && manual_evidence is None
            && manual_evaluation is None,
        ReconciliationRunStatus::PendingEvidence => result is Some && comes_to(
            result_evaluation,
            ReconciliationDisposition::PendingEvidence,
        ) && manual_evidence is None && manual_evaluation is None,
        ReconciliationRunStatus::Completed => result is Some && comes_to(
            result_evaluation,
            ReconciliationDisposition::Completed,
        ) && manual_evidence is None && manual_evaluation is None,
        ReconciliationRunStatus::ManualReconciliationRequired => manual_evidence is Some
            && comes_to(manual_evaluation, ReconciliationDisposition::ManualRequired),
    }
}

fn does_come_to(
    evaluation: &Option<ReconciliationEvaluation>,
    disposition: ReconciliationDisposition,
) -> (r: bool)
    ensures
        r == comes_to(*evaluation, disposition),
{
    match evaluation {
        Some(evaluation) => evaluation.disposition == disposition,
        None => false,
    }
}

/// Refuses a run whose status is not what the evidence says.
pub fn validate_run_state_consistency(
    status: ReconciliationRunStatus,
    result: &Option<ReconciliationResult>,
    result_evaluation: &Option<ReconciliationEvaluation>,
    manual_evidence: &Option<ManualReconciliationEvidence>,
    manual_evaluation: &Option<ReconciliationEvaluation>,
    key: &str,
) -> (r: Result<(), StoreError>)
    ensures
        error::fault(r) == (if state_consistent(
            status,
            *result,
            *result_evaluation,
            *manual_evidence,
            *manual_evaluation,
        ) {
            None
        } else {
            row_corrupt(key@, "status does not match durable result/manual evidence"@)
        }),
{
    let valid = match status {
        ReconciliationRunStatus::Requested => result.is_none() && manual_evidence.is_none()
            && manual_evaluation.is_none(),
        ReconciliationRunStatus::PendingEvidence => result.is_some() && does_come_to(
            result_evaluation,
            ReconciliationDisposition::PendingEvidence,
        ) && manual_evidence.is_none() && manual_evaluation.is_none(),
        ReconciliationRunStatus::Completed => result.is_some() && does_come_to(
            result_evaluation,
            ReconciliationDisposition::Completed,
        ) && manual_evidence.is_none() && manual_evaluation.is_none(),
        ReconciliationRunStatus::ManualReconciliationRequired => manual_evidence.is_some()
            && does_come_to(manual_evaluation, ReconciliationDisposition::ManualRequired),
    };
    if valid {
        Ok(())
    } else {
        Err(
            StoreError::corrupt(
                "reconciliation_run",
                key,
                "status does not match durable result/manual evidence",
            ),
        )
    }
}

fn validate_manual_columns(
    request: &ReconciliationRequest,
    requested_at: i64,
    result_observed_at: Option<i64>,
    result_evaluation: &Option<ReconciliationEvaluation>,
    evidence: &Option<ManualReconciliationEvidence>,
    evaluation: &Option<ReconciliationEvaluation>,
    status: ReconciliationRunStatus,
    key: &str,
) -> (r: Result<(), StoreError>)
    ensures
        error::fault(r) == manual_columns_fault(
            key@,
            *request,
            requested_at,
            result_observed_at,
            *result_evaluation,
            *evidence,
            *evaluation,
            status,
        ),
{
    match (evidence, evaluation) {
        (None, None) => {
            if status == ReconciliationRunStatus::ManualReconciliationRequired {
                return Err(
                    StoreError::corrupt(
                        "reconciliation_run",
                        key,
                        "manual status requires explicit evidence",
                    ),
                );
            }
            Ok(())
        },
        (Some(evidence), Some(evaluation)) => {
            let after_result = match result_observed_at {
                Some(at) => at <= evidence.escalated_at,
                None => true,
            };
            if status != ReconciliationRunStatus::ManualReconciliationRequired || !same_text(
                evidence.request_id.as_str(),
                request.request_id.as_str(),
            ) || is_blank(evidence.reason.as_str()) || evidence.escalated_at < requested_at
                || !after_result || evaluation.disposition
                != ReconciliationDisposition::ManualRequired
                || !reconciliation::does_only_escalate(evaluation, result_evaluation) {
                return Err(
                    StoreError::corrupt(
                        "reconciliation_run",
                        key,
                        "manual evidence aliases or state are invalid",
                    ),
                );
            }
            as_corrupt(validate_evaluation(evaluation, request, result_observed_at), key)
        },
        _ => Err(
            StoreError::corrupt(
                "reconciliation_run",
                key,
                "manual evidence columns are only partially populated",
            ),
        ),
    }
}

/// What is wrong with a row of the runs, up to the event of the request.
pub open spec fn run_request_fault(row: ReconciliationRunRow) -> Option<Fault> {
    let key = row.request_id@;
    let request = row.request->Ok_0;
    let e = "reconciliation_run.request"@;
    let f = json::stored_fault(e, key, row.request_payload.text@, row.request_payload.digest@);
    let f = error::first_of(f, unreadable(e, key, row.request));
    let f = error::first_of(
        f,
        corrupt_of(reconciliation::request_fault(request, row.requested_at), key),
    );
    let f = error::first_of(f, request_aliases_fault(row));
    error::first_of(
        f,
        match row.request_event {
            None => row_corrupt(key, "request event is missing"@),
            Some(event) => corrupt_of(
                reconciliation::stored_event_fault(
                    event,
                    reconciliation::request_subject(request, row.requested_at),
                    row.request_payload.text@,
                ),
                key,
            ),
        },
    )
}

/// The status that a row holds.
pub open spec fn row_status(row: ReconciliationRunRow) -> ReconciliationRunStatus {
    choose|status: ReconciliationRunStatus| #[trigger] status.name() == row.status@
}

/// What is wrong with a row of the runs, behind the event of the request.
pub open spec fn run_result_fault(row: ReconciliationRunRow) -> Option<Fault> {
    let key = row.request_id@;
    let f = reconciliation::run_status_fault(row.status@, key);
    let f = error::first_of(f, optional_json_fault("reconciliation_run.result"@, key, row.result));
    let f = error::first_of(
        f,
        optional_json_fault("reconciliation_run.result_evaluation"@, key, row.result_evaluation),
    );
    let f = error::first_of(
        f,
        optional_json_fault("reconciliation_run.completeness"@, key, row.completeness),
    );
    let f = error::first_of(f, result_columns_fault(row));
    error::first_of(f, result_event_fault(row))
}

/// What is wrong with a row of the runs, behind the event of the result.
pub open spec fn run_manual_fault(row: ReconciliationRunRow) -> Option<Fault> {
    let key = row.request_id@;
    let status = row_status(row);
    let f = optional_json_fault(
        "reconciliation_run.manual_evidence"@,
        key,
        row.manual_evidence,
    );
    let f = error::first_of(
        f,
        optional_json_fault("reconciliation_run.manual_evaluation"@, key, row.manual_evaluation),
    );
    let f = error::first_of(
        f,
        manual_columns_fault(
            key,
            row.request->Ok_0,
            row.requested_at,
            row.result_observed_at,
            held(row.result_evaluation),
            held(row.manual_evidence),
            held(row.manual_evaluation),
            status,
        ),
    );
    let f = error::first_of(
        f,
        if run_times(
            row.requested_at,
            status,
            row.created_at,
            row.updated_at,
            row.request_event->0,
            if row.has_result_event_id {
                row.result_event
            } else {
                None
            },
            held(row.manual_evidence),
        ) {
            None
        } else {
            row_corrupt(key, "created_at/updated_at aliases are not monotonic"@)
        },
    );
    error::first_of(
        f,
        if state_consistent(
            status,
            held(row.result),
            held(row.result_evaluation),
            held(row.manual_evidence),
            held(row.manual_evaluation),
        ) {
            None
        } else {
            row_corrupt(key, "status does not match durable result/manual evidence"@)
        },
    )
}

/// What is wrong with a row of the runs.
pub open spec fn run_row_fault(row: ReconciliationRunRow) -> Option<Fault> {
    let f = run_request_fault(row);
    let f = error::first_of(f, run_result_fault(row));
    error::first_of(f, run_manual_fault(row))
}

/// The run that a row holds.
pub open spec fn run_of_row(row: ReconciliationRunRow) -> StoredReconciliationRun {
    StoredReconciliationRun {
        request: row.request->Ok_0,
        requested_at: row.requested_at,
        status: row_status(row),
        result: held(row.result),
        result_evaluation: held(row.result_evaluation),
        completeness: held(row.completeness),
        manual_evidence: held(row.manual_evidence),
        manual_evaluation: held(row.manual_evaluation),
        request_event: row.request_event->0,
        result_event: if row.has_result_event_id {
            row.result_event
        } else {
            None
        },
        created_at: row.created_at,
        updated_at: row.updated_at,
    }
}

fn check_request_aliases(row: &ReconciliationRunRow, request: &ReconciliationRequest) -> (r: Result<
    (),
    StoreError,
>)
    requires
        row.request->Ok_0 == *request,
    ensures
        error::fault(r) == request_aliases_fault(*row),
{
    let key = row.request_id.as_str();
    let command_ids = optional_canonical(
        "reconciliation_run.command_ids",
        key,
        text::copy_optional(&row.command_ids_json),
        text::copy_optional(&row.command_ids_hash),
        "JSON/hash columns are only partially populated",
    )?;
    let expected = command_ids_json(request)?;
    let same_commands = match (&command_ids, &expected) {
        (Some(stored), Some(expected)) => stored.same(expected),
        (None, None) => true,
        _ => false,
    };
    if same_text(row.account_id.as_str(), request.account_id.as_str()) && same_optional(
        &row.terminal_id,
        &request.terminal_id,
    ) && same_optional(&row.client_id, &request.client_id) && same_text(
        row.reason.as_str(),
        reason_name(request.reason),
    ) && same_text(row.scope.as_str(), scope_name(request)) && same_commands && same_time(
        row.since_server_time,
        request.since_server_time,
    ) {
        Ok(())
    } else {
        Err(
            StoreError::corrupt(
                "reconciliation_run",
                key,
                "request payload aliases do not match columns",
            ),
        )
    }
}

/// The columns that repeat what a result says.
struct ResultAliases {
    observed_at: Option<i64>,
    symbol_metadata_complete: Option<i64>,
    command_scope_complete: Option<i64>,
}

fn check_result_columns(
    aliases: &ResultAliases,
    request: &ReconciliationRequest,
    result: &Option<ReconciliationResult>,
    evaluation: &Option<ReconciliationEvaluation>,
    completeness: Option<ReconciliationCompleteness>,
    key: &str,
    Ghost(row): Ghost<ReconciliationRunRow>,
) -> (r: Result<(), StoreError>)
    requires
        row.request_id@ == key@,
        row.request->Ok_0 == *request,
        row.result_observed_at == aliases.observed_at,
        row.symbol_metadata_complete == aliases.symbol_metadata_complete,
        row.command_scope_complete == aliases.command_scope_complete,
        held(row.result) == *result,
        held(row.result_evaluation) == *evaluation,
        held(row.completeness) == completeness,
    ensures
        error::fault(r) == result_columns_fault(row),
{
    match (result, evaluation, completeness) {
        (None, None, None) => {
            if aliases.observed_at.is_none() {
                Ok(())
            } else {
                Err(
                    StoreError::corrupt(
                        "reconciliation_run",
                        key,
                        "result columns are only partially populated",
                    ),
                )
            }
        },
        (Some(result), Some(evaluation), Some(completeness)) => {
            if !same_time(aliases.observed_at, Some(result.observed_at))
                || !reconciliation::is_answer(result, request) || !is_flag(
                aliases.symbol_metadata_complete,
                completeness.symbol_metadata_complete,
            ) || !is_flag(aliases.command_scope_complete, completeness.command_scope_complete) {
                return Err(
                    StoreError::corrupt(
                        "reconciliation_run",
                        key,
                        "result payload aliases do not match columns or request",
                    ),
                );
            }
            as_corrupt(validate_result_sets(result, &request.command_ids), key)?;
            as_corrupt(
                validate_evaluation(evaluation, request, Some(result.observed_at)),
                key,
            )?;
            as_corrupt(validate_completeness(&completeness, request), key)?;
            as_corrupt(validate_result_evaluation_link(result, evaluation), key)
        },
        _ => Err(
            StoreError::corrupt(
                "reconciliation_run",
                key,
                "result columns are only partially populated",
            ),
        ),
    }
}

fn check_result_event(
    has_result_event_id: bool,
    result: &Option<ReconciliationResult>,
    payload: &Option<CanonicalJson>,
    event: &Option<StoredCoreEvent>,
    key: &str,
    Ghost(row): Ghost<ReconciliationRunRow>,
) -> (r: Result<(), StoreError>)
    requires
        row.request_id@ == key@,
        row.has_result_event_id == has_result_event_id,
        row.result_event == *event,
        held(row.result) == *result,
        payload is Some == result is Some,
        payload matches Some(payload) ==> payload@ == row.result.text->0@,
    ensures
        error::fault(r) == result_event_fault(row),
{
    match (has_result_event_id, result, payload) {
        (true, Some(result), Some(payload)) => {
            match event {
                None => Err(
                    StoreError::corrupt("reconciliation_run", key, "result event is missing"),
                ),
                Some(event) => {
                    let subject = EventSubject {
                        event_type: RESULT_EVENT_TYPE,
                        request_id: &result.request_id,
                        account_id: &result.account_id,
                        terminal_id: &result.terminal_id,
                        client_id: &result.client_id,
                        event_at: result.observed_at,
                    };
                    as_corrupt(validate_stored_event(event, &subject, payload), key)
                },
            }
        },
        (false, None, None) => Ok(()),
        _ => Err(
            StoreError::corrupt(
                "reconciliation_run",
                key,
                "result columns are only partially populated",
            ),
        ),
    }
}

fn check_run_times(
    requested_at: i64,
    status: ReconciliationRunStatus,
    created_at: i64,
    updated_at: i64,
    request_event: &StoredCoreEvent,
    result_event: &Option<StoredCoreEvent>,
    evidence: &Option<ManualReconciliationEvidence>,
) -> (r: bool)
    ensures
        r == run_times(
            requested_at,
            status,
            created_at,
            updated_at,
            *request_event,
            *result_event,
            *evidence,
        ),
{
    let status_time_valid = match status {
        ReconciliationRunStatus::Requested => updated_at == created_at,
        ReconciliationRunStatus::PendingEvidence | ReconciliationRunStatus::Completed => {
            match result_event {
                Some(event) => updated_at == event.metadata.created_at,
                None => false,
            }
        },
        ReconciliationRunStatus::ManualReconciliationRequired => {
            let after_evidence = match evidence {
                Some(evidence) => updated_at >= evidence.escalated_at,
                None => false,
            };
            let after_result = match result_event {
                Some(event) => updated_at >= event.metadata.created_at,
                None => true,
            };
            after_evidence && after_result
        },
    };
    created_at == request_event.metadata.created_at && created_at >= requested_at && updated_at
        >= created_at && status_time_valid
}

fn read_run_request(row: &ReconciliationRunRow) -> (r: Result<(), StoreError>)
    ensures
        error::fault(r) == run_request_fault(*row),
{
    let key = row.request_id.as_str();
    let entity = "reconciliation_run.request";
    let payload = CanonicalJson::from_stored(
        entity,
        key,
        row.request_payload.text.clone(),
        row.request_payload.digest.clone(),
    )?;
    let request = match &row.request {
        Ok(request) => request,
        Err(error) => {
            return Err(StoreError::corrupt(entity, key, error.as_str()));
        },
    };
    as_corrupt(validate_request(request, row.requested_at), key)?;
    check_request_aliases(row, request)?;
    let event = match &row.request_event {
        Some(event) => event,
        None => {
            return Err(StoreError::corrupt("reconciliation_run", key, "request event is missing"));
        },
    };
    let subject = EventSubject {
        event_type: REQUEST_EVENT_TYPE,
        request_id: &request.request_id,
        account_id: &request.account_id,
        terminal_id: &request.terminal_id,
        client_id: &request.client_id,
        event_at: row.requested_at,
    };
    as_corrupt(validate_stored_event(event, &subject, &payload), key)
}

fn split<T>(found: Option<(CanonicalJson, T)>) -> (r: (Option<CanonicalJson>, Option<T>))
    ensures
        match found {
            Some((payload, value)) => r == (Some(payload), Some(value)),
            None => r == (None::<CanonicalJson>, None::<T>),
        },
{
    match found {
        Some((payload, value)) => (Some(payload), Some(value)),
        None => (None, None),
    }
}

/// Reads a run.
pub fn reconciliation_run_from_row(row: ReconciliationRunRow) -> (r: Result<
    StoredReconciliationRun,
    StoreError,
>)
    ensures
        error::fault(r) == run_row_fault(row),
        r matches Ok(run) ==> run == run_of_row(row),
{
    let ghost whole = row;
    read_run_request(&row)?;
    let key = row.request_id;
    let status = parse_run_status(row.status.as_str(), key.as_str())?;
    proof {
        reconciliation::run_status_names_differ(status, row_status(whole));
    }
    let (result_payload, result) = split(
        optional_decoded("reconciliation_run.result", key.as_str(), row.result)?,
    );
    let (_, result_evaluation) = split(
        optional_decoded(
            "reconciliation_run.result_evaluation",
            key.as_str(),
            row.result_evaluation,
        )?,
    );
    let (_, completeness) = split(
        optional_decoded("reconciliation_run.completeness", key.as_str(), row.completeness)?,
    );
    let (request, request_event) = match (row.request, row.request_event) {
        (Ok(request), Some(event)) => (request, event),
        _ => {
            return Err(
                StoreError::corrupt(
                    "reconciliation_run",
                    key.as_str(),
                    "request event is missing",
                ),
            );
        },
    };
    let aliases = ResultAliases {
        observed_at: row.result_observed_at,
        symbol_metadata_complete: row.symbol_metadata_complete,
        command_scope_complete: row.command_scope_complete,
    };
    check_result_columns(
        &aliases,
        &request,
        &result,
        &result_evaluation,
        completeness,
        key.as_str(),
        Ghost(whole),
    )?;
    check_result_event(
        row.has_result_event_id,
        &result,
        &result_payload,
        &row.result_event,
        key.as_str(),
        Ghost(whole),
    )?;
    let result_event = if row.has_result_event_id {
        row.result_event
    } else {
        None
    };
    let (_, manual_evidence) = split(
        optional_decoded(
            "reconciliation_run.manual_evidence",
            key.as_str(),
            row.manual_evidence,
        )?,
    );
    let (_, manual_evaluation) = split(
        optional_decoded(
            "reconciliation_run.manual_evaluation",
            key.as_str(),
            row.manual_evaluation,
        )?,
    );
    validate_manual_columns(
        &request,
        row.requested_at,
        row.result_observed_at,
        &result_evaluation,
        &manual_evidence,
        &manual_evaluation,
        status,
        key.as_str(),
    )?;
    if !check_run_times(
        row.requested_at,
        status,
        row.created_at,
        row.updated_at,
        &request_event,
        &result_event,
        &manual_evidence,
    ) {
        return Err(
            StoreError::corrupt(
                "reconciliation_run",
                key.as_str(),
                "created_at/updated_at aliases are not monotonic",
            ),
        );
    }
    validate_run_state_consistency(
        status,
        &result,
        &result_evaluation,
        &manual_evidence,
        &manual_evaluation,
        key.as_str(),
    )?;
    Ok(
        StoredReconciliationRun {
            request,
            requested_at: row.requested_at,
            status,
            result,
            result_evaluation,
            completeness,
            manual_evidence,
            manual_evaluation,
            request_event,
            result_event,
            created_at: row.created_at,
            updated_at: row.updated_at,
        },
    )
}

/// A stored run holds together: its status is what its evidence says, and its
/// times follow each other.
pub open spec fn run_holds(run: StoredReconciliationRun) -> bool {
    &&& run.result is Some == run.result_evaluation is Some
    &&& run.result is Some == run.completeness is Some
    &&& run.result is Some == run.result_event is Some
    &&& run.manual_evidence is Some == run.manual_evaluation is Some
    &&& run_times(
        run.requested_at,
        run.status,
        run.created_at,
        run.updated_at,
        run.request_event,
        run.result_event,
        run.manual_evidence,
    )
    &&& state_consistent(
        run.status,
        run.result,
        run.result_evaluation,
        run.manual_evidence,
        run.manual_evaluation,
    )
    &&& run.manual_evidence is Some ==> run.status
        == ReconciliationRunStatus::ManualReconciliationRequired
}

/// What is read is a run that holds together.
pub proof fn read_runs_hold(row: ReconciliationRunRow)
    requires
        run_row_fault(row) is None,
    ensures
        run_holds(run_of_row(row)),
{
}

/// Storing a result keeps a run together.
pub proof fn commit_keeps_runs(run: StoredReconciliationRun, new_result: NewReconciliationResult)
    requires
        run_holds(run),
        run.result is None,
        reconciliation::commit_fault(Some(run), new_result) is None,
    ensures
        run_holds(reconciliation::committed(run, new_result)),
        reconciliation::committed(run, new_result).status
            != ReconciliationRunStatus::ManualReconciliationRequired,
{
}

/// An escalation keeps a run together.
pub proof fn escalation_keeps_runs(
    run: StoredReconciliationRun,
    escalation: NewManualReconciliationEscalation,
)
    requires
        run_holds(run),
        run.manual_evidence is None,
        reconciliation::escalate_fault(Some(run), escalation) is None,
    ensures
        run_holds(reconciliation::escalated(run, escalation)),
{
}

/// A run that is completed stays as it is: no other result is stored, and it is
/// not handed over to a person.
pub proof fn completed_runs_stay(
    run: StoredReconciliationRun,
    new_result: NewReconciliationResult,
    escalation: NewManualReconciliationEscalation,
)
    requires
        run_holds(run),
        run.status == ReconciliationRunStatus::Completed,
    ensures
        reconciliation::escalate_fault(Some(run), escalation) is Some,
        reconciliation::commit_fault(Some(run), new_result) is None
            ==> reconciliation::result_replays(run, new_result),
{
}

/// A run that was handed over to a person stays with that person.
pub proof fn manual_runs_stay(
    run: StoredReconciliationRun,
    new_result: NewReconciliationResult,
    escalation: NewManualReconciliationEscalation,
)
    requires
        run_holds(run),
        run.status == ReconciliationRunStatus::ManualReconciliationRequired,
    ensures
        reconciliation::escalate_fault(Some(run), escalation) is None
            ==> reconciliation::escalation_replays(run, escalation),
        reconciliation::commit_fault(Some(run), new_result) is None
            ==> reconciliation::result_replays(run, new_result),
{
}

/// A result that leaves commands open never completes a run.
pub proof fn open_commands_never_complete(
    run: StoredReconciliationRun,
    new_result: NewReconciliationResult,
)
    requires
        reconciliation::commit_fault(Some(run), new_result) is None,
        new_result.result.unresolved_command_ids@.len() > 0,
    ensures
        reconciliation::disposed(new_result.evaluation.disposition)
            == ReconciliationRunStatus::PendingEvidence,
{
}

/// A result that was stored can be stored again, and then changes nothing.
pub proof fn stored_result_repeats(
    run: StoredReconciliationRun,
    new_result: NewReconciliationResult,
)
    requires
        run_holds(run),
        run.result is None,
        reconciliation::commit_fault(Some(run), new_result) is None,
    ensures
        reconciliation::commit_fault(
            Some(reconciliation::committed(run, new_result)),
            new_result,
        ) is None,
        reconciliation::result_replays(
            reconciliation::committed(run, new_result),
            new_result,
        ),
{
    reconciliation::evaluations_are_themselves(new_result.evaluation);
}

/// An escalation that was stored can be stored again, and then changes nothing.
pub proof fn stored_escalation_repeats(
    run: StoredReconciliationRun,
    escalation: NewManualReconciliationEscalation,
)
    requires
        run_holds(run),
        run.manual_evidence is None,
        reconciliation::escalate_fault(Some(run), escalation) is None,
    ensures
        reconciliation::escalate_fault(
            Some(reconciliation::escalated(run, escalation)),
            escalation,
        ) is None,
        reconciliation::escalation_replays(
            reconciliation::escalated(run, escalation),
            escalation,
        ),
{
    reconciliation::evaluations_are_themselves(escalation.evaluation);
}

/// The status of a run that was read is what its evidence says: a run that was
/// only requested has no result, a completed or pending one has a result that
/// comes to this, and one in a person's hands has the evidence for it.
pub proof fn read_runs_are_what_their_evidence_says(row: ReconciliationRunRow)
    requires
        run_row_fault(row) is None,
    ensures
        ({
            let run = run_of_row(row);
            &&& run.status is Requested ==> run.result is None && run.manual_evidence is None
                && run.updated_at == run.created_at
            &&& run.status is Completed ==> run.result is Some && run.result_evaluation is Some && (
            run.result_evaluation->0).disposition is Completed && run.manual_evidence is None
            &&& run.status is PendingEvidence ==> run.result is Some && run.result_evaluation
                is Some && (run.result_evaluation->0).disposition is PendingEvidence
                && run.manual_evidence is None
            &&& run.status is ManualReconciliationRequired ==> run.manual_evidence is Some
                && run.manual_evaluation is Some && (run.manual_evaluation->0).disposition
                is ManualRequired && !text::blank((run.manual_evidence->0).reason@) && (
            run.manual_evidence->0).escalated_at >= run.requested_at
            &&& run.request.account_id@ == row.account_id@
            &&& run.requested_at <= run.created_at <= run.updated_at
            &&& row.status@ == run.status.name()
            &&& row.reason@ == run.request.reason.name()
            &&& run.request.command_ids is Some ==> row.scope@ == "TARGETED"@
            &&& run.request.command_ids is None ==> row.scope@ == "ACCOUNT"@
            &&& run.result is Some ==> row.result_observed_at == Some((run.result->0).observed_at)
                && (run.result->0).account_id@ == run.request.account_id@ && (
            run.result->0).request_id@ == run.request.request_id@ && (run.completeness matches Some(
                completeness,
            ) && row.command_scope_complete == Some(
                if completeness.command_scope_complete {
                    1i64
                } else {
                    0i64
                },
            ) && row.symbol_metadata_complete == Some(
                if completeness.symbol_metadata_complete {
                    1i64
                } else {
                    0i64
                },
            ))
        }),
{
}

/// A run is read only if its request is intact, sound and the one its columns
/// speak of, and the event that told of it is the stored one.
pub proof fn read_runs_are_of_their_request(row: ReconciliationRunRow)
    requires
        run_row_fault(row) is None,
    ensures
        row.request is Ok,
        row.request_event is Some,
        ({
            let request = row.request->Ok_0;
            let event = row.request_event->0;
            &&& json::stored_fault(
                "reconciliation_run.request"@,
                row.request_id@,
                row.request_payload.text@,
                row.request_payload.digest@,
            ) is None
            &&& reconciliation::request_fault(request, row.requested_at) is None
            &&& row.account_id@ == request.account_id@
            &&& row.terminal_id is Some <==> request.terminal_id is Some
            &&& row.terminal_id is Some ==> (row.terminal_id->0)@ == (request.terminal_id->0)@
            &&& row.client_id is Some <==> request.client_id is Some
            &&& row.client_id is Some ==> (row.client_id->0)@ == (request.client_id->0)@
            &&& row.since_server_time == request.since_server_time
            &&& row.command_ids_json is Some <==> request.command_ids is Some
            &&& row.command_ids_json is Some <==> row.command_ids_hash is Some
            &&& event.payload@ == row.request_payload.text@
            &&& event.metadata.event_type@ == "reconciliation.request"@
            &&& event.metadata.aggregate_id@ == request.request_id@
            &&& event.metadata.event_at == row.requested_at
            &&& event.metadata.created_at == row.created_at
        }),
{
}

/// A result is read only whole, with its evaluation and its claims, if it is sound
/// and answers the request, and the event that told of it is the stored one; a
/// run was last changed when its result was stored or it was handed over.
pub proof fn read_results_are_whole(row: ReconciliationRunRow)
    requires
        run_row_fault(row) is None,
    ensures
        ({
            let run = run_of_row(row);
            &&& run.result is Some <==> run.result_evaluation is Some
            &&& run.result is Some <==> run.completeness is Some
            &&& run.result is Some <==> run.result_event is Some
            &&& run.result is None ==> row.result_observed_at is None
            &&& run.manual_evidence is Some <==> run.manual_evaluation is Some
            &&& run.manual_evidence is Some <==> run.status is ManualReconciliationRequired
            &&& run.result is Some ==> {
                let result = run.result->0;
                &&& reconciliation::result_sets_fault(result, run.request.command_ids) is None
                &&& reconciliation::evaluation_fault(
                    run.result_evaluation->0,
                    run.request,
                    Some(result.observed_at),
                ) is None
                &&& reconciliation::completeness_fault(run.completeness->0, run.request) is None
                &&& reconciliation::link_fault(result, run.result_evaluation->0) is None
                &&& (run.result_event->0).metadata.event_type@ == "reconciliation.result"@
                &&& (run.result_event->0).metadata.aggregate_id@ == result.request_id@
                &&& (run.result_event->0).metadata.event_at == result.observed_at
                &&& (run.result_event->0).payload@ == (row.result.text->0)@
                &&& run.updated_at >= (run.result_event->0).metadata.created_at
                &&& run.status is Completed || run.status is PendingEvidence ==> run.updated_at == (
                run.result_event->0).metadata.created_at
            }
            &&& run.manual_evidence is Some ==> {
                &&& run.updated_at >= (run.manual_evidence->0).escalated_at
                &&& (run.manual_evidence->0).request_id@ == run.request.request_id@
                &&& run.result is Some ==> (run.manual_evidence->0).escalated_at >= (
                run.result->0).observed_at
                &&& run.result_evaluation is Some ==> (run.result_evaluation->0).disposition
                    is PendingEvidence
            }
        }),
{
}

}
