//! Reconciliation runs: what is asked of an execution client, what it answers,
//! and when a person has to look.

use serde_json::Value;
use vstd::prelude::*;
use vstd::string::*;

use crate::columns::same_time;
use crate::domain::{AccountId, ClientId, CommandId, RequestId, TerminalId};
use crate::error;
use crate::error::{Fault, StoreError};
use crate::json;
use crate::json::{equal_values, CanonicalJson};
use crate::model::{CoreEventMetadata, StoredCoreEvent, WriteOutcome};
use crate::snapshots::Snapshot;
use crate::text;
use crate::text::{
    any_blank, is_blank, join2, list_within, optional_is, quoted, same_list, same_optional,
    same_text, strictly_sorted_unique,
};

verus! {

pub const REQUEST_EVENT_TYPE: &'static str = "reconciliation.request";

pub const RESULT_EVENT_TYPE: &'static str = "reconciliation.result";

pub const RECONCILIATION_AGGREGATE: &'static str = "reconciliation";

/// How far a run got.
#[derive(Clone, Copy, Debug, PartialEq, Eq, Structural)]
pub enum ReconciliationRunStatus {
    Requested,
    PendingEvidence,
    Completed,
    ManualReconciliationRequired,
}

/// What the evaluation of a result comes to.
#[derive(Clone, Copy, Debug, PartialEq, Eq, Structural)]
pub enum ReconciliationDisposition {
    Completed,
    PendingEvidence,
    ManualRequired,
}

/// Why a reconciliation is asked for.
#[derive(Clone, Copy, Debug, PartialEq, Eq, Structural)]
pub enum ReconciliationReason {
    DeliveryUnconfirmed,
    ConnectionRestored,
    ManualRequest,
    StateStoreRestored,
}

/// A request to an execution client to report what it knows.
#[derive(Debug, PartialEq, Eq)]
pub struct ReconciliationRequest {
    pub request_id: RequestId,
    pub account_id: AccountId,
    pub terminal_id: Option<TerminalId>,
    pub client_id: Option<ClientId>,
    pub reason: ReconciliationReason,
    pub command_ids: Option<Vec<CommandId>>,
    pub since_server_time: Option<i64>,
}

/// What an execution client reports. `payload` is the canonical form of the
/// whole report.
#[derive(Debug, PartialEq, Eq)]
pub struct ReconciliationResult {
    pub request_id: RequestId,
    pub account_id: AccountId,
    pub terminal_id: Option<TerminalId>,
    pub client_id: Option<ClientId>,
    pub observed_at: i64,
    pub account: Option<Snapshot>,
    pub positions: Vec<Snapshot>,
    pub orders: Vec<Snapshot>,
    pub symbol_metadata: Vec<Snapshot>,
    pub unresolved_command_ids: Vec<CommandId>,
    pub payload: CanonicalJson,
}

/// What the evaluation of a result found.
#[derive(Debug, PartialEq, Eq)]
pub struct ReconciliationEvaluation {
    pub request_id: RequestId,
    pub account_id: AccountId,
    pub observed_at: Option<i64>,
    pub disposition: ReconciliationDisposition,
    pub command_ids: Vec<CommandId>,
    pub findings: Vec<Value>,
}

/// How much a result covers.
#[derive(Clone, Copy, Debug, PartialEq, Eq, Structural)]
pub struct ReconciliationCompleteness {
    /// The producer attests that the symbol metadata is all there is for the
    /// account.
    pub symbol_metadata_complete: bool,
    /// The evaluation used every command of the account.
    pub command_scope_complete: bool,
}

/// Why a person has to look.
#[derive(Debug, PartialEq, Eq)]
pub struct ManualReconciliationEvidence {
    pub request_id: RequestId,
    pub escalated_at: i64,
    pub reason: String,
}

/// A run to be stored.
#[derive(Debug, PartialEq, Eq)]
pub struct NewReconciliationRun {
    pub request: ReconciliationRequest,
    pub requested_at: i64,
    pub event_metadata: CoreEventMetadata,
}

/// A result to be stored with its evaluation.
#[derive(Debug, PartialEq, Eq)]
pub struct NewReconciliationResult {
    pub result: ReconciliationResult,
    pub evaluation: ReconciliationEvaluation,
    pub completeness: ReconciliationCompleteness,
    pub event_metadata: CoreEventMetadata,
}

/// An escalation to be stored.
#[derive(Debug, PartialEq, Eq)]
pub struct NewManualReconciliationEscalation {
    pub evidence: ManualReconciliationEvidence,
    pub evaluation: ReconciliationEvaluation,
    pub updated_at: i64,
}

/// A stored run.
#[derive(Debug, PartialEq, Eq)]
pub struct StoredReconciliationRun {
    pub request: ReconciliationRequest,
    pub requested_at: i64,
    pub status: ReconciliationRunStatus,
    pub result: Option<ReconciliationResult>,
    pub result_evaluation: Option<ReconciliationEvaluation>,
    pub completeness: Option<ReconciliationCompleteness>,
    pub manual_evidence: Option<ManualReconciliationEvidence>,
    pub manual_evaluation: Option<ReconciliationEvaluation>,
    pub request_event: StoredCoreEvent,
    pub result_event: Option<StoredCoreEvent>,
    pub created_at: i64,
    pub updated_at: i64,
}

/// How far the reconciliations of an account got.
#[derive(Debug, PartialEq, Eq)]
pub struct AccountReconciliationCheckpoint {
    pub account_id: AccountId,
    pub source_request_id: RequestId,
    pub result_observed_at: i64,
    pub account_refreshed_at: Option<i64>,
    pub positions_observed_at: i64,
    pub positions_set_hash: String,
    pub orders_observed_at: i64,
    pub orders_set_hash: String,
    pub symbol_metadata_refreshed_at: Option<i64>,
    pub pending_commands_reconciled_at: Option<i64>,
    pub updated_at: i64,
}

/// What a rebuild of the projections replayed.
#[derive(Clone, Copy, Debug, PartialEq, Eq, Structural)]
pub struct ReconciliationProjectionRebuildReport {
    pub replayed_snapshot_facts: u64,
    pub replayed_reconciliation_results: u64,
}

impl ReconciliationRunStatus {
    /// The text under which the status is stored.
    pub open spec fn name(self) -> Seq<char> {
        match self {
            ReconciliationRunStatus::Requested => "REQUESTED"@,
            ReconciliationRunStatus::PendingEvidence => "PENDING_EVIDENCE"@,
            ReconciliationRunStatus::Completed => "COMPLETED"@,
            ReconciliationRunStatus::ManualReconciliationRequired => {
                "MANUAL_RECONCILIATION_REQUIRED"@
            },
        }
    }
}

/// The text under which a status is stored.
pub fn run_status_name(status: ReconciliationRunStatus) -> (r: &'static str)
    ensures
        r@ == status.name(),
{
    match status {
        ReconciliationRunStatus::Requested => "REQUESTED",
        ReconciliationRunStatus::PendingEvidence => "PENDING_EVIDENCE",
        ReconciliationRunStatus::Completed => "COMPLETED",
        ReconciliationRunStatus::ManualReconciliationRequired => "MANUAL_RECONCILIATION_REQUIRED",
    }
}

/// The texts under which statuses are stored tell them apart.
pub proof fn run_status_names_differ(a: ReconciliationRunStatus, b: ReconciliationRunStatus)
    ensures
        a.name() == b.name() ==> a == b,
{
    reveal_strlit("REQUESTED");
    reveal_strlit("PENDING_EVIDENCE");
    reveal_strlit("COMPLETED");
    reveal_strlit("MANUAL_RECONCILIATION_REQUIRED");
    assert("REQUESTED"@[0] == 'R');
    assert("PENDING_EVIDENCE"@[0] == 'P');
    assert("COMPLETED"@[0] == 'C');
    assert("MANUAL_RECONCILIATION_REQUIRED"@[0] == 'M');
}

/// A text is the name of some status.
pub open spec fn run_status_known(text: Seq<char>) -> bool {
    exists|status: ReconciliationRunStatus| #[trigger] status.name() == text
}

/// What is wrong with the text of a status.
pub open spec fn run_status_fault(raw: Seq<char>, key: Seq<char>) -> Option<Fault> {
    if run_status_known(raw) {
        None
    } else {
        Some(
            error::corrupt_fault(
                "reconciliation_run"@,
                key,
                "unknown status "@ + text::debug_text(raw),
            ),
        )
    }
}

/// The status that a text names.
pub fn parse_run_status(raw: &str, key: &str) -> (r: Result<ReconciliationRunStatus, StoreError>)
    ensures
        error::fault(r) == run_status_fault(raw@, key@),
        r matches Ok(status) ==> status.name() == raw@,
{
    if same_text(raw, "REQUESTED") {
        assert(ReconciliationRunStatus::Requested.name() == raw@);
        return Ok(ReconciliationRunStatus::Requested);
    }
    if same_text(raw, "PENDING_EVIDENCE") {
        assert(ReconciliationRunStatus::PendingEvidence.name() == raw@);
        return Ok(ReconciliationRunStatus::PendingEvidence);
    }
    if same_text(raw, "COMPLETED") {
        assert(ReconciliationRunStatus::Completed.name() == raw@);
        return Ok(ReconciliationRunStatus::Completed);
    }
    if same_text(raw, "MANUAL_RECONCILIATION_REQUIRED") {
        assert(ReconciliationRunStatus::ManualReconciliationRequired.name() == raw@);
        return Ok(ReconciliationRunStatus::ManualReconciliationRequired);
    }
    let reason = join2("unknown status ", quoted(raw).as_str());
    Err(StoreError::corrupt("reconciliation_run", key, reason.as_str()))
}

/// The status that a disposition leads to.
pub open spec fn disposed(disposition: ReconciliationDisposition) -> ReconciliationRunStatus {
    match disposition {
        ReconciliationDisposition::Completed => ReconciliationRunStatus::Completed,
        ReconciliationDisposition::PendingEvidence => ReconciliationRunStatus::PendingEvidence,
        ReconciliationDisposition::ManualRequired => {
            ReconciliationRunStatus::ManualReconciliationRequired
        },
    }
}

/// The status that a disposition leads to.
pub fn status_for_disposition(disposition: ReconciliationDisposition) -> (r:
    ReconciliationRunStatus)
    ensures
        r == disposed(disposition),
{
    match disposition {
        ReconciliationDisposition::Completed => ReconciliationRunStatus::Completed,
        ReconciliationDisposition::PendingEvidence => ReconciliationRunStatus::PendingEvidence,
        ReconciliationDisposition::ManualRequired => {
            ReconciliationRunStatus::ManualReconciliationRequired
        },
    }
}

impl ReconciliationReason {
    /// The text under which the reason is stored.
    pub open spec fn name(self) -> Seq<char> {
        match self {
            ReconciliationReason::DeliveryUnconfirmed => "DELIVERY_UNCONFIRMED"@,
            ReconciliationReason::ConnectionRestored => "CONNECTION_RESTORED"@,
            ReconciliationReason::ManualRequest => "MANUAL_REQUEST"@,
            ReconciliationReason::StateStoreRestored => "STATE_STORE_RESTORED"@,
        }
    }
}

/// The text under which a reason is stored.
pub fn reason_name(reason: ReconciliationReason) -> (r: &'static str)
    ensures
        r@ == reason.name(),
{
    match reason {
        ReconciliationReason::DeliveryUnconfirmed => "DELIVERY_UNCONFIRMED",
        ReconciliationReason::ConnectionRestored => "CONNECTION_RESTORED",
        ReconciliationReason::ManualRequest => "MANUAL_REQUEST",
        ReconciliationReason::StateStoreRestored => "STATE_STORE_RESTORED",
    }
}

/// The text that says whether a request is about some commands or about the
/// whole account.
pub open spec fn scope_text(request: ReconciliationRequest) -> Seq<char> {
    if request.command_ids is Some {
        "TARGETED"@
    } else {
        "ACCOUNT"@
    }
}

/// The text that says whether a request is about some commands or about the
/// whole account.
pub fn scope_name(request: &ReconciliationRequest) -> (r: &'static str)
    ensures
        r@ == scope_text(*request),
{
    if request.command_ids.is_some() {
        "TARGETED"
    } else {
        "ACCOUNT"
    }
}

/// The canonical text of the list of commands that a request names.
pub open spec fn command_list(request: ReconciliationRequest) -> Option<Seq<char>> {
    match request.command_ids {
        Some(ids) => Some(json::text_list(text::texts(ids@))),
        None => None,
    }
}

/// The canonical form of the list of commands that a request names.
pub fn command_ids_json(request: &ReconciliationRequest) -> (r: Result<
    Option<CanonicalJson>,
    StoreError,
>)
    ensures
        r matches Ok(list) && match list {
            Some(list) => command_list(*request) == Some(list@) && json::is_canonical_text(list@),
            None => request.command_ids is None,
        },
{
    match &request.command_ids {
        Some(ids) => Ok(Some(CanonicalJson::from_texts(ids)?)),
        None => Ok(None),
    }
}

/// An optional text is present and blank.
pub open spec fn present_blank(value: Option<String>) -> bool {
    value matches Some(text) && text::blank(text@)
}

fn is_present_blank(value: &Option<String>) -> (r: bool)
    ensures
        r == present_blank(*value),
{
    match value {
        Some(text) => is_blank(text.as_str()),
        None => false,
    }
}

/// A list of commands stands in order, none of them twice and none blank.
pub open spec fn proper_list(ids: Seq<String>) -> bool {
    text::strictly_sorted(text::texts(ids)) && text::none_blank(text::texts(ids))
}

fn is_proper_list(ids: &Vec<String>) -> (r: bool)
    ensures
        r == proper_list(ids@),
{
    strictly_sorted_unique(ids) && !any_blank(ids)
}

/// What is wrong with a request.
pub open spec fn request_fault(request: ReconciliationRequest, requested_at: i64) -> Option<Fault> {
    let e = "reconciliation_request"@;
    let key = request.request_id@;
    if text::blank(key) {
        Some(error::invalid_fault(e, key, "request_id must not be empty"@))
    } else if text::blank(request.account_id@) {
        Some(error::invalid_fault(e, request.account_id@, "account_id must not be empty"@))
    } else if present_blank(request.terminal_id) || present_blank(request.client_id) {
        Some(
            error::invalid_fault(
                e,
                key,
                "terminal_id and client_id must be non-empty when present"@,
            ),
        )
    } else if request.command_ids matches Some(ids) && (ids@.len() == 0 || !proper_list(ids@)) {
        Some(
            error::invalid_fault(
                e,
                key,
                "command_ids must be None or a non-empty unique sorted list"@,
            ),
        )
    } else if requested_at < 0 {
        Some(error::invalid_fault(e, key, "requested_at must be non-negative"@))
    } else if request.since_server_time matches Some(since) && (since < 0 || since
        > requested_at) {
        Some(
            error::invalid_fault(
                e,
                key,
                "since_server_time must be non-negative and not exceed requested_at"@,
            ),
        )
    } else {
        None
    }
}

/// Refuses a request that makes no sense.
pub fn validate_request(request: &ReconciliationRequest, requested_at: i64) -> (r: Result<
    (),
    StoreError,
>)
    ensures
        error::fault(r) == request_fault(*request, requested_at),
{
    let entity = "reconciliation_request";
    let key = request.request_id.as_str();
    if is_blank(key) {
        return Err(StoreError::invalid(entity, key, "request_id must not be empty"));
    }
    if is_blank(request.account_id.as_str()) {
        return Err(
            StoreError::invalid(
                entity,
                request.account_id.as_str(),
                "account_id must not be empty",
            ),
        );
    }
    if is_present_blank(&request.terminal_id) || is_present_blank(&request.client_id) {
        return Err(
            StoreError::invalid(
                entity,
                key,
                "terminal_id and client_id must be non-empty when present",
            ),
        );
    }
    if let Some(ids) = &request.command_ids {
        if ids.len() == 0 || !is_proper_list(ids) {
            return Err(
                StoreError::invalid(
                    entity,
                    key,
                    "command_ids must be None or a non-empty unique sorted list",
                ),
            );
        }
    }
    if requested_at < 0 {
        return Err(StoreError::invalid(entity, key, "requested_at must be non-negative"));
    }
    if let Some(since) = request.since_server_time {
        if since < 0 || since > requested_at {
            return Err(
                StoreError::invalid(
                    entity,
                    key,
                    "since_server_time must be non-negative and not exceed requested_at",
                ),
            );
        }
    }
    Ok(())
}

/// What an event of a run is about.
pub struct EventSubject<'a> {
    pub event_type: &'static str,
    pub request_id: &'a RequestId,
    pub account_id: &'a AccountId,
    pub terminal_id: &'a Option<TerminalId>,
    pub client_id: &'a Option<ClientId>,
    pub event_at: i64,
}

/// The description of an event fits what it is about, and claims nothing else.
pub open spec fn metadata_fits(metadata: CoreEventMetadata, subject: EventSubject) -> bool {
    &&& metadata.event_type@ == subject.event_type@
    &&& metadata.aggregate_type@ == RECONCILIATION_AGGREGATE@
    &&& metadata.aggregate_id@ == subject.request_id@
    &&& metadata.event_at == subject.event_at
    &&& 0 <= metadata.event_at
    &&& metadata.event_at <= metadata.received_at
    &&& metadata.received_at <= metadata.created_at
    &&& text::optional_text(metadata.account_id) == Some(subject.account_id@)
    &&& text::optional_text(metadata.terminal_id) == text::optional_text(*subject.terminal_id)
    &&& text::optional_text(metadata.client_id) == text::optional_text(*subject.client_id)
    &&& metadata.strategy_id is None
    &&& metadata.intent_id is None
    &&& metadata.plan_id is None
    &&& metadata.leg_id is None
    &&& metadata.command_id is None
    &&& metadata.idempotency_key is None
    &&& !text::blank(metadata.event_id@)
    &&& !text::blank(metadata.schema_version@)
    &&& !text::blank(metadata.source@)
}

/// What is wrong with the description of an event.
pub open spec fn metadata_fault(metadata: CoreEventMetadata, subject: EventSubject) -> Option<
    Fault,
> {
    if metadata_fits(metadata, subject) {
        None
    } else {
        Some(error::conflict_fault("reconciliation_core_event"@, metadata.event_id@))
    }
}

/// Refuses an event that is not about what it should be about.
pub fn validate_event_metadata(metadata: &CoreEventMetadata, subject: &EventSubject) -> (r: Result<
    (),
    StoreError,
>)
    ensures
        error::fault(r) == metadata_fault(*metadata, *subject),
{
    if same_text(metadata.event_type.as_str(), subject.event_type) && same_text(
        metadata.aggregate_type.as_str(),
        RECONCILIATION_AGGREGATE,
    ) && same_text(metadata.aggregate_id.as_str(), subject.request_id.as_str())
        && metadata.event_at == subject.event_at && metadata.event_at >= 0 && metadata.received_at
        >= metadata.event_at && metadata.created_at >= metadata.received_at && optional_is(
        &metadata.account_id,
        subject.account_id.as_str(),
    ) && same_optional(&metadata.terminal_id, subject.terminal_id) && same_optional(
        &metadata.client_id,
        subject.client_id,
    ) && metadata.strategy_id.is_none() && metadata.intent_id.is_none()
        && metadata.plan_id.is_none() && metadata.leg_id.is_none() && metadata.command_id.is_none()
        && metadata.idempotency_key.is_none() && !is_blank(metadata.event_id.as_str()) && !is_blank(
        metadata.schema_version.as_str(),
    ) && !is_blank(metadata.source.as_str()) {
        Ok(())
    } else {
        Err(StoreError::conflict("reconciliation_core_event", metadata.event_id.as_str()))
    }
}

/// What is wrong with a stored event of a run.
pub open spec fn stored_event_fault(
    event: StoredCoreEvent,
    subject: EventSubject,
    payload: Seq<char>,
) -> Option<Fault> {
    error::first_of(
        metadata_fault(event.metadata, subject),
        if event.payload@ != payload {
            Some(
                error::conflict_fault(
                    "reconciliation_core_event.payload"@,
                    event.metadata.event_id@,
                ),
            )
        } else {
            None
        },
    )
}

/// Refuses a stored event that does not hold what the run holds.
pub fn validate_stored_event(
    event: &StoredCoreEvent,
    subject: &EventSubject,
    payload: &CanonicalJson,
) -> (r: Result<(), StoreError>)
    ensures
        error::fault(r) == stored_event_fault(*event, *subject, payload@),
{
    validate_event_metadata(&event.metadata, subject)?;
    if !event.payload.same(payload) {
        return Err(
            StoreError::conflict(
                "reconciliation_core_event.payload",
                event.metadata.event_id.as_str(),
            ),
        );
    }
    Ok(())
}

/// The names of what observations are of.
pub open spec fn snapshot_ids(set: Seq<Snapshot>) -> Seq<Seq<char>> {
    Seq::new(set.len(), |i: int| set[i].id@)
}

/// The canonical texts of the members of a set.
pub open spec fn member_texts(set: Seq<Snapshot>) -> Seq<Seq<char>> {
    Seq::new(set.len(), |i: int| set[i].payload@)
}

/// The canonical text of a set: that of the list of its members.
pub open spec fn set_text(set: Seq<Snapshot>) -> Seq<char> {
    json::list_text(member_texts(set))
}

/// What is wrong with writing a set down as a list.
pub open spec fn set_fault(set: Seq<Snapshot>) -> Option<Fault> {
    json::list_fault(member_texts(set))
}

/// The canonical form of a set.
pub fn set_json(set: &Vec<Snapshot>) -> (r: Result<CanonicalJson, StoreError>)
    ensures
        error::fault(r) == set_fault(set@),
        r matches Ok(json) ==> json@ == set_text(set@),
{
    let mut members: Vec<CanonicalJson> = Vec::new();
    let mut i: usize = 0;
    while i < set.len()
        invariant
            i <= set.len(),
            members@.len() == i,
            forall|j: int| 0 <= j < i ==> (#[trigger] members@[j])@ == set@[j].payload@,
        decreases set.len() - i,
    {
        members.push(set[i].payload.clone());
        i = i + 1;
    }
    assert(json::canonical_views(members@) =~= member_texts(set@));
    CanonicalJson::from_list(&members)
}

/// A full set: in order, nothing twice, all of one account and one time.
pub open spec fn full_set(set: Seq<Snapshot>, account_id: Seq<char>, observed_at: i64) -> bool {
    &&& text::strictly_sorted(snapshot_ids(set))
    &&& forall|i: int|
        0 <= i < set.len() ==> {
            let value = #[trigger] set[i];
            &&& !text::blank(value.id@)
            &&& value.account_id@ == account_id
            &&& value.observed_at == observed_at
        }
}

fn is_full_set(set: &Vec<Snapshot>, account_id: &str, observed_at: i64) -> (r: bool)
    ensures
        r == full_set(set@, account_id@, observed_at),
{
    let ghost ids = snapshot_ids(set@);
    let mut i: usize = 0;
    while i < set.len()
        invariant
            i <= set.len(),
            ids == snapshot_ids(set@),
            text::strictly_sorted(ids.take(i as int)),
            forall|j: int|
                0 <= j < i ==> {
                    let value = #[trigger] set@[j];
                    &&& !text::blank(value.id@)
                    &&& value.account_id@ == account_id@
                    &&& value.observed_at == observed_at
                },
        decreases set.len() - i,
    {
        if is_blank(set[i].id.as_str()) || !same_text(set[i].account_id.as_str(), account_id)
            || set[i].observed_at != observed_at {
            assert(!full_set(set@, account_id@, observed_at)) by {
                let value = set@[i as int];
            }
            return false;
        }
        if i > 0 && !text::text_precedes(set[i - 1].id.as_str(), set[i].id.as_str()) {
            assert(!text::precedes(ids[i - 1], ids[i as int]));
            return false;
        }
        proof {
            let longer = ids.take(i + 1);
            let shorter = ids.take(i as int);
            assert forall|a: int, b: int| 0 <= a < b < longer.len() implies text::precedes(
                #[trigger] longer[a],
                #[trigger] longer[b],
            ) by {
                if b < i {
                    assert(shorter[a] == longer[a] && shorter[b] == longer[b]);
                } else if a < i - 1 {
                    assert(shorter[a] == longer[a]);
                    assert(shorter[i - 1] == ids[i - 1]);
                    assert(text::precedes(shorter[a], shorter[i - 1]));
                    text::precedes_transitive(longer[a], ids[i - 1], longer[b]);
                }
            }
        }
        i = i + 1;
    }
    assert(ids.take(i as int) =~= ids);
    true
}

/// What is wrong with the sets of a result.
pub open spec fn result_sets_fault(
    result: ReconciliationResult,
    command_ids: Option<Vec<CommandId>>,
) -> Option<Fault> {
    let e = "reconciliation_result"@;
    let key = result.request_id@;
    if result.account matches Some(account) && (account.account_id@ != result.account_id@
        || account.observed_at != result.observed_at) {
        Some(
            error::invalid_fault(
                e,
                key,
                "account snapshot must match result account_id and observed_at"@,
            ),
        )
    } else if !full_set(result.positions@, result.account_id@, result.observed_at) {
        Some(
            error::invalid_fault(
                e,
                key,
                "positions must be a unique sorted full set for the result account and observed_at"@,
            ),
        )
    } else if !full_set(result.orders@, result.account_id@, result.observed_at) {
        Some(
            error::invalid_fault(
                e,
                key,
                "orders must be a unique sorted full set for the result account and observed_at"@,
            ),
        )
    } else if !full_set(result.symbol_metadata@, result.account_id@, result.observed_at) {
        Some(
            error::invalid_fault(
                e,
                key,
                "symbol_metadata must be unique, sorted, and match account_id and observed_at"@,
            ),
        )
    } else if !proper_list(result.unresolved_command_ids@) {
        Some(error::invalid_fault(e, key, "unresolved_command_ids must be unique and sorted"@))
    } else if command_ids matches Some(target) && !text::all_within(
        text::texts(result.unresolved_command_ids@),
        text::texts(target@),
    ) {
        Some(
            error::invalid_fault(
                e,
                key,
                "targeted result contains an unresolved command outside request scope"@,
            ),
        )
    } else {
        None
    }
}

/// Refuses a result whose sets are not full sets.
pub fn validate_result_sets(result: &ReconciliationResult, target: &Option<Vec<CommandId>>) -> (r:
    Result<(), StoreError>)
    ensures
        error::fault(r) == result_sets_fault(*result, *target),
{
    let entity = "reconciliation_result";
    let key = result.request_id.as_str();
    if let Some(account) = &result.account {
        if !same_text(account.account_id.as_str(), result.account_id.as_str())
            || account.observed_at != result.observed_at {
            return Err(
                StoreError::invalid(
                    entity,
                    key,
                    "account snapshot must match result account_id and observed_at",
                ),
            );
        }
    }
    if !is_full_set(&result.positions, result.account_id.as_str(), result.observed_at) {
        return Err(
            StoreError::invalid(
                entity,
                key,
                "positions must be a unique sorted full set for the result account and observed_at",
            ),
        );
    }
    if !is_full_set(&result.orders, result.account_id.as_str(), result.observed_at) {
        return Err(
            StoreError::invalid(
                entity,
                key,
                "orders must be a unique sorted full set for the result account and observed_at",
            ),
        );
    }
    if !is_full_set(&result.symbol_metadata, result.account_id.as_str(), result.observed_at) {
        return Err(
            StoreError::invalid(
                entity,
                key,
                "symbol_metadata must be unique, sorted, and match account_id and observed_at",
            ),
        );
    }
    if !is_proper_list(&result.unresolved_command_ids) {
        return Err(
            StoreError::invalid(entity, key, "unresolved_command_ids must be unique and sorted"),
        );
    }
    if let Some(target) = target {
        if !list_within(&result.unresolved_command_ids, target) {
            return Err(
                StoreError::invalid(
                    entity,
                    key,
                    "targeted result contains an unresolved command outside request scope",
                ),
            );
        }
    }
    Ok(())
}

/// What is wrong with an evaluation.
pub open spec fn evaluation_fault(
    evaluation: ReconciliationEvaluation,
    request: ReconciliationRequest,
    expected_observed_at: Option<i64>,
) -> Option<Fault> {
    let e = "reconciliation_evaluation"@;
    let key = request.request_id@;
    if evaluation.request_id@ != request.request_id@ || evaluation.account_id@
        != request.account_id@ || evaluation.observed_at != expected_observed_at {
        Some(error::conflict_fault(e, key))
    } else if !proper_list(evaluation.command_ids@) {
        Some(error::invalid_fault(e, key, "command_ids must be unique and sorted"@))
    } else if evaluation.disposition == ReconciliationDisposition::Completed
        && evaluation.command_ids@.len() != 0 {
        Some(
            error::invalid_fault(
                e,
                key,
                "completed evaluation cannot retain attention commands"@,
            ),
        )
    } else if evaluation.disposition == ReconciliationDisposition::PendingEvidence
        && evaluation.command_ids@.len() == 0 {
        Some(
            error::invalid_fault(
                e,
                key,
                "pending evaluation must retain at least one attention command"@,
            ),
        )
    } else if request.command_ids matches Some(target) && !text::all_within(
        text::texts(evaluation.command_ids@),
        text::texts(target@),
    ) {
        Some(
            error::invalid_fault(
                e,
                key,
                "evaluation command is outside targeted request scope"@,
            ),
        )
    } else {
        None
    }
}

/// Refuses an evaluation that is not one of the request.
pub fn validate_evaluation(
    evaluation: &ReconciliationEvaluation,
    request: &ReconciliationRequest,
    expected_observed_at: Option<i64>,
) -> (r: Result<(), StoreError>)
    ensures
        error::fault(r) == evaluation_fault(*evaluation, *request, expected_observed_at),
{
    let entity = "reconciliation_evaluation";
    let key = request.request_id.as_str();
    if !same_text(evaluation.request_id.as_str(), request.request_id.as_str()) || !same_text(
        evaluation.account_id.as_str(),
        request.account_id.as_str(),
    ) || !same_time(evaluation.observed_at, expected_observed_at) {
        return Err(StoreError::conflict(entity, key));
    }
    if !is_proper_list(&evaluation.command_ids) {
        return Err(StoreError::invalid(entity, key, "command_ids must be unique and sorted"));
    }
    if evaluation.disposition == ReconciliationDisposition::Completed
        && evaluation.command_ids.len() != 0 {
        return Err(
            StoreError::invalid(
                entity,
                key,
                "completed evaluation cannot retain attention commands",
            ),
        );
    }
    if evaluation.disposition == ReconciliationDisposition::PendingEvidence
        && evaluation.command_ids.len() == 0 {
        return Err(
            StoreError::invalid(
                entity,
                key,
                "pending evaluation must retain at least one attention command",
            ),
        );
    }
    if let Some(target) = &request.command_ids {
        if !list_within(&evaluation.command_ids, target) {
            return Err(
                StoreError::invalid(
                    entity,
                    key,
                    "evaluation command is outside targeted request scope",
                ),
            );
        }
    }
    Ok(())
}

/// What is wrong with a claim of completeness.
pub open spec fn completeness_fault(
    completeness: ReconciliationCompleteness,
    request: ReconciliationRequest,
) -> Option<Fault> {
    if completeness.command_scope_complete && request.command_ids is Some {
        Some(
            error::invalid_fault(
                "reconciliation_completeness"@,
                request.request_id@,
                "command_scope_complete requires an account-wide request"@,
            ),
        )
    } else {
        None
    }
}

/// Refuses a claim of completeness that the request does not allow.
pub fn validate_completeness(
    completeness: &ReconciliationCompleteness,
    request: &ReconciliationRequest,
) -> (r: Result<(), StoreError>)
    ensures
        error::fault(r) == completeness_fault(*completeness, *request),
{
    if completeness.command_scope_complete && request.command_ids.is_some() {
        return Err(
            StoreError::invalid(
                "reconciliation_completeness",
                request.request_id.as_str(),
                "command_scope_complete requires an account-wide request",
            ),
        );
    }
    Ok(())
}

/// What is wrong with an evaluation of a result.
pub open spec fn link_fault(
    result: ReconciliationResult,
    evaluation: ReconciliationEvaluation,
) -> Option<Fault> {
    let e = "reconciliation_evaluation"@;
    let key = result.request_id@;
    if result.unresolved_command_ids@.len() != 0 && evaluation.disposition
        == ReconciliationDisposition::Completed {
        Some(
            error::invalid_fault(
                e,
                key,
                "a result with unresolved commands cannot be Completed"@,
            ),
        )
    } else if !text::all_within(
        text::texts(result.unresolved_command_ids@),
        text::texts(evaluation.command_ids@),
    ) {
        Some(
            error::invalid_fault(
                e,
                key,
                "unresolved commands must be included in evaluation.command_ids"@,
            ),
        )
    } else {
        None
    }
}

/// Refuses an evaluation that passes over what a result leaves open.
pub fn validate_result_evaluation_link(
    result: &ReconciliationResult,
    evaluation: &ReconciliationEvaluation,
) -> (r: Result<(), StoreError>)
    ensures
        error::fault(r) == link_fault(*result, *evaluation),
{
    let entity = "reconciliation_evaluation";
    let key = result.request_id.as_str();
    if result.unresolved_command_ids.len() != 0 && evaluation.disposition
        == ReconciliationDisposition::Completed {
        return Err(
            StoreError::invalid(
                entity,
                key,
                "a result with unresolved commands cannot be Completed",
            ),
        );
    }
    if !list_within(&result.unresolved_command_ids, &evaluation.command_ids) {
        return Err(
            StoreError::invalid(
                entity,
                key,
                "unresolved commands must be included in evaluation.command_ids",
            ),
        );
    }
    Ok(())
}

/// A result answers a request.
pub open spec fn answers(result: ReconciliationResult, request: ReconciliationRequest) -> bool {
    &&& result.request_id@ == request.request_id@
    &&& result.account_id@ == request.account_id@
    &&& text::optional_text(result.terminal_id) == text::optional_text(request.terminal_id)
    &&& text::optional_text(result.client_id) == text::optional_text(request.client_id)
}

pub(crate) fn is_answer(result: &ReconciliationResult, request: &ReconciliationRequest) -> (r: bool)
    ensures
        r == answers(*result, *request),
{
    same_text(result.request_id.as_str(), request.request_id.as_str()) && same_text(
        result.account_id.as_str(),
        request.account_id.as_str(),
    ) && same_optional(&result.terminal_id, &request.terminal_id) && same_optional(
        &result.client_id,
        &request.client_id,
    )
}

/// What the event of a result is about.
pub open spec fn result_subject(result: ReconciliationResult) -> EventSubject<'static> {
    EventSubject {
        event_type: RESULT_EVENT_TYPE,
        request_id: &result.request_id,
        account_id: &result.account_id,
        terminal_id: &result.terminal_id,
        client_id: &result.client_id,
        event_at: result.observed_at,
    }
}

/// What the event of a request is about.
pub open spec fn request_subject(
    request: ReconciliationRequest,
    requested_at: i64,
) -> EventSubject<'static> {
    EventSubject {
        event_type: REQUEST_EVENT_TYPE,
        request_id: &request.request_id,
        account_id: &request.account_id,
        terminal_id: &request.terminal_id,
        client_id: &request.client_id,
        event_at: requested_at,
    }
}

/// What is wrong with a result and its evaluation.
pub open spec fn bundle_fault(
    run: StoredReconciliationRun,
    bundle: NewReconciliationResult,
) -> Option<Fault> {
    let e = "reconciliation_result"@;
    let result = bundle.result;
    let key = result.request_id@;
    if !answers(result, run.request) {
        Some(error::conflict_fault(e, key))
    } else if result.observed_at < run.requested_at {
        Some(error::invalid_fault(e, key, "observed_at must not predate requested_at"@))
    } else if bundle.evaluation.disposition == ReconciliationDisposition::ManualRequired {
        Some(
            error::invalid_fault(
                e,
                key,
                "MANUAL_REQUIRED must use explicit manual escalation evidence"@,
            ),
        )
    } else if bundle.event_metadata.created_at < run.updated_at {
        Some(error::stale_fault("reconciliation_run"@, key))
    } else {
        let f = metadata_fault(bundle.event_metadata, result_subject(result));
        let f = error::first_of(f, result_sets_fault(result, run.request.command_ids));
        let f = error::first_of(
            f,
            evaluation_fault(bundle.evaluation, run.request, Some(result.observed_at)),
        );
        let f = error::first_of(f, completeness_fault(bundle.completeness, run.request));
        error::first_of(f, link_fault(result, bundle.evaluation))
    }
}

/// Refuses a result and its evaluation that do not fit the run.
pub fn validate_result_bundle(run: &StoredReconciliationRun, bundle: &NewReconciliationResult) -> (r:
    Result<(), StoreError>)
    ensures
        error::fault(r) == bundle_fault(*run, *bundle),
{
    let entity = "reconciliation_result";
    let result = &bundle.result;
    let key = result.request_id.as_str();
    if !is_answer(result, &run.request) {
        return Err(StoreError::conflict(entity, key));
    }
    if result.observed_at < run.requested_at {
        return Err(StoreError::invalid(entity, key, "observed_at must not predate requested_at"));
    }
    if bundle.evaluation.disposition == ReconciliationDisposition::ManualRequired {
        return Err(
            StoreError::invalid(
                entity,
                key,
                "MANUAL_REQUIRED must use explicit manual escalation evidence",
            ),
        );
    }
    if bundle.event_metadata.created_at < run.updated_at {
        return Err(StoreError::stale("reconciliation_run", key));
    }
    let subject = EventSubject {
        event_type: RESULT_EVENT_TYPE,
        request_id: &result.request_id,
        account_id: &result.account_id,
        terminal_id: &result.terminal_id,
        client_id: &result.client_id,
        event_at: result.observed_at,
    };
    validate_event_metadata(&bundle.event_metadata, &subject)?;
    validate_result_sets(result, &run.request.command_ids)?;
    validate_evaluation(&bundle.evaluation, &run.request, Some(result.observed_at))?;
    validate_completeness(&bundle.completeness, &run.request)?;
    validate_result_evaluation_link(result, &bundle.evaluation)
}

/// Two lists of findings are equal, one by one.
pub open spec fn equal_findings(a: Seq<Value>, b: Seq<Value>) -> bool {
    a.len() == b.len() && forall|i: int|
        0 <= i < a.len() ==> json::equal_json(#[trigger] a[i], b[i])
}

fn same_findings(a: &Vec<Value>, b: &Vec<Value>) -> (r: bool)
    ensures
        r == equal_findings(a@, b@),
{
    if a.len() != b.len() {
        return false;
    }
    let mut i: usize = 0;
    while i < a.len()
        invariant
            i <= a.len(),
            a.len() == b.len(),
            forall|j: int| 0 <= j < i ==> json::equal_json(#[trigger] a@[j], b@[j]),
        decreases a.len() - i,
    {
        if !equal_values(&a[i], &b[i]) {
            assert(!json::equal_json(a@[i as int], b@[i as int]));
            return false;
        }
        i = i + 1;
    }
    true
}

/// An evaluation found what it found.
pub proof fn evaluations_are_themselves(evaluation: ReconciliationEvaluation)
    ensures
        same_found(evaluation, evaluation),
{
    let findings = evaluation.findings@;
    assert forall|i: int| 0 <= i < findings.len() implies json::equal_json(
        #[trigger] findings[i],
        findings[i],
    ) by {
        json::same_is_alike(json::canonical(json::value_tree(findings[i])));
    }
}

/// Two evaluations found the same.
pub open spec fn same_found(a: ReconciliationEvaluation, b: ReconciliationEvaluation) -> bool {
    &&& a.request_id@ == b.request_id@
    &&& a.account_id@ == b.account_id@
    &&& a.observed_at == b.observed_at
    &&& text::texts(a.command_ids@) == text::texts(b.command_ids@)
    &&& equal_findings(a.findings@, b.findings@)
}

fn is_same_found(a: &ReconciliationEvaluation, b: &ReconciliationEvaluation) -> (r: bool)
    ensures
        r == same_found(*a, *b),
{
    same_text(a.request_id.as_str(), b.request_id.as_str()) && same_text(
        a.account_id.as_str(),
        b.account_id.as_str(),
    ) && same_time(a.observed_at, b.observed_at) && same_list(&a.command_ids, &b.command_ids)
        && same_findings(&a.findings, &b.findings)
}

/// A manual evaluation only changes what a pending result comes to.
pub open spec fn only_escalates(
    evaluation: ReconciliationEvaluation,
    result_evaluation: Option<ReconciliationEvaluation>,
) -> bool {
    result_evaluation matches Some(pending) ==> pending.disposition
        == ReconciliationDisposition::PendingEvidence && same_found(evaluation, pending)
}

pub(crate) fn does_only_escalate(
    evaluation: &ReconciliationEvaluation,
    result_evaluation: &Option<ReconciliationEvaluation>,
) -> (r: bool)
    ensures
        r == only_escalates(*evaluation, *result_evaluation),
{
    match result_evaluation {
        Some(pending) => pending.disposition == ReconciliationDisposition::PendingEvidence
            && is_same_found(evaluation, pending),
        None => true,
    }
}

/// When the result of a run was observed.
pub open spec fn result_time(result: Option<ReconciliationResult>) -> Option<i64> {
    match result {
        Some(result) => Some(result.observed_at),
        None => None,
    }
}

fn time_of_result(result: &Option<ReconciliationResult>) -> (r: Option<i64>)
    ensures
        r == result_time(*result),
{
    match result {
        Some(result) => Some(result.observed_at),
        None => None,
    }
}

/// What is wrong with an escalation.
pub open spec fn escalation_fault(
    run: StoredReconciliationRun,
    escalation: NewManualReconciliationEscalation,
) -> Option<Fault> {
    let e = "manual_reconciliation_evidence"@;
    let evidence = escalation.evidence;
    let key = evidence.request_id@;
    if key != run.request.request_id@ {
        Some(error::conflict_fault(e, key))
    } else if text::blank(evidence.reason@) {
        Some(error::invalid_fault(e, key, "reason must not be empty"@))
    } else if evidence.escalated_at < run.requested_at || (run.result matches Some(result)
        && evidence.escalated_at < result.observed_at) || escalation.updated_at
        < evidence.escalated_at || escalation.updated_at < run.updated_at {
        Some(
            error::invalid_fault(
                e,
                key,
                "escalation timestamps must not predate request or result"@,
            ),
        )
    } else if escalation.evaluation.disposition != ReconciliationDisposition::ManualRequired {
        Some(
            error::invalid_fault(e, key, "evaluation disposition must be MANUAL_REQUIRED"@),
        )
    } else if !only_escalates(escalation.evaluation, run.result_evaluation) {
        Some(
            error::invalid_fault(
                e,
                key,
                "manual evaluation may only change a pending result disposition"@,
            ),
        )
    } else {
        evaluation_fault(escalation.evaluation, run.request, result_time(run.result))
    }
}

/// Refuses an escalation that does not fit the run.
pub fn validate_manual_escalation(
    run: &StoredReconciliationRun,
    escalation: &NewManualReconciliationEscalation,
) -> (r: Result<(), StoreError>)
    ensures
        error::fault(r) == escalation_fault(*run, *escalation),
{
    let entity = "manual_reconciliation_evidence";
    let evidence = &escalation.evidence;
    let key = evidence.request_id.as_str();
    if !same_text(key, run.request.request_id.as_str()) {
        return Err(StoreError::conflict(entity, key));
    }
    if is_blank(evidence.reason.as_str()) {
        return Err(StoreError::invalid(entity, key, "reason must not be empty"));
    }
    let before_result = match &run.result {
        Some(result) => evidence.escalated_at < result.observed_at,
        None => false,
    };
    if evidence.escalated_at < run.requested_at || before_result || escalation.updated_at
        < evidence.escalated_at || escalation.updated_at < run.updated_at {
        return Err(
            StoreError::invalid(
                entity,
                key,
                "escalation timestamps must not predate request or result",
            ),
        );
    }
    if escalation.evaluation.disposition != ReconciliationDisposition::ManualRequired {
        return Err(
            StoreError::invalid(entity, key, "evaluation disposition must be MANUAL_REQUIRED"),
        );
    }
    if !does_only_escalate(&escalation.evaluation, &run.result_evaluation) {
        return Err(
            StoreError::invalid(
                entity,
                key,
                "manual evaluation may only change a pending result disposition",
            ),
        );
    }
    validate_evaluation(&escalation.evaluation, &run.request, time_of_result(&run.result))
}

/// Two descriptions of an event of a run mean the same.
pub open spec fn same_semantics(left: CoreEventMetadata, right: CoreEventMetadata) -> bool {
    &&& left.event_id@ == right.event_id@
    &&& left.event_type@ == right.event_type@
    &&& left.aggregate_type@ == right.aggregate_type@
    &&& left.aggregate_id@ == right.aggregate_id@
    &&& text::optional_text(left.message_id) == text::optional_text(right.message_id)
    &&& left.schema_version@ == right.schema_version@
    &&& text::optional_text(left.correlation_id) == text::optional_text(right.correlation_id)
    &&& text::optional_text(left.causation_id) == text::optional_text(right.causation_id)
    &&& text::optional_text(left.account_id) == text::optional_text(right.account_id)
    &&& text::optional_text(left.client_id) == text::optional_text(right.client_id)
    &&& text::optional_text(left.terminal_id) == text::optional_text(right.terminal_id)
    &&& left.event_at == right.event_at
    &&& left.source@ == right.source@
}

/// Whether two descriptions of an event of a run mean the same.
pub fn same_event_semantics(left: &CoreEventMetadata, right: &CoreEventMetadata) -> (r: bool)
    ensures
        r == same_semantics(*left, *right),
{
    same_text(left.event_id.as_str(), right.event_id.as_str()) && same_text(
        left.event_type.as_str(),
        right.event_type.as_str(),
    ) && same_text(left.aggregate_type.as_str(), right.aggregate_type.as_str()) && same_text(
        left.aggregate_id.as_str(),
        right.aggregate_id.as_str(),
    ) && same_optional(&left.message_id, &right.message_id) && same_text(
        left.schema_version.as_str(),
        right.schema_version.as_str(),
    ) && same_optional(&left.correlation_id, &right.correlation_id) && same_optional(
        &left.causation_id,
        &right.causation_id,
    ) && same_optional(&left.account_id, &right.account_id) && same_optional(
        &left.client_id,
        &right.client_id,
    ) && same_optional(&left.terminal_id, &right.terminal_id) && left.event_at == right.event_at
        && same_text(left.source.as_str(), right.source.as_str())
}

/// The texts of an optional list.
pub open spec fn optional_texts(list: Option<Vec<String>>) -> Option<Seq<Seq<char>>> {
    match list {
        Some(list) => Some(text::texts(list@)),
        None => None,
    }
}

/// Two requests are the same.
pub open spec fn same_request(a: ReconciliationRequest, b: ReconciliationRequest) -> bool {
    &&& a.request_id@ == b.request_id@
    &&& a.account_id@ == b.account_id@
    &&& text::optional_text(a.terminal_id) == text::optional_text(b.terminal_id)
    &&& text::optional_text(a.client_id) == text::optional_text(b.client_id)
    &&& a.reason == b.reason
    &&& optional_texts(a.command_ids) == optional_texts(b.command_ids)
    &&& a.since_server_time == b.since_server_time
}

fn is_same_request(a: &ReconciliationRequest, b: &ReconciliationRequest) -> (r: bool)
    ensures
        r == same_request(*a, *b),
{
    let same_commands = match (&a.command_ids, &b.command_ids) {
        (Some(left), Some(right)) => same_list(left, right),
        (None, None) => true,
        _ => false,
    };
    same_commands && same_text(a.request_id.as_str(), b.request_id.as_str()) && same_text(
        a.account_id.as_str(),
        b.account_id.as_str(),
    ) && same_optional(&a.terminal_id, &b.terminal_id) && same_optional(&a.client_id, &b.client_id)
        && a.reason == b.reason && same_time(a.since_server_time, b.since_server_time)
}

/// The stored run is the one that is to be stored.
pub open spec fn run_replays(stored: StoredReconciliationRun, incoming: NewReconciliationRun) -> bool {
    &&& same_request(stored.request, incoming.request)
    &&& stored.requested_at == incoming.requested_at
    &&& same_semantics(stored.request_event.metadata, incoming.event_metadata)
}

/// Whether the stored run is the one that is to be stored.
pub fn same_request_run(stored: &StoredReconciliationRun, incoming: &NewReconciliationRun) -> (r: bool)
    ensures
        r == run_replays(*stored, *incoming),
{
    is_same_request(&stored.request, &incoming.request) && stored.requested_at
        == incoming.requested_at && same_event_semantics(
        &stored.request_event.metadata,
        &incoming.event_metadata,
    )
}

/// What is wrong with a run that is to be stored.
pub open spec fn new_run_fault(new_run: NewReconciliationRun) -> Option<Fault> {
    error::first_of(
        request_fault(new_run.request, new_run.requested_at),
        metadata_fault(
            new_run.event_metadata,
            request_subject(new_run.request, new_run.requested_at),
        ),
    )
}

/// Refuses a run that may not be stored.
pub fn validate_new_run(new_run: &NewReconciliationRun) -> (r: Result<(), StoreError>)
    ensures
        error::fault(r) == new_run_fault(*new_run),
{
    validate_request(&new_run.request, new_run.requested_at)?;
    let subject = EventSubject {
        event_type: REQUEST_EVENT_TYPE,
        request_id: &new_run.request.request_id,
        account_id: &new_run.request.account_id,
        terminal_id: &new_run.request.terminal_id,
        client_id: &new_run.request.client_id,
        event_at: new_run.requested_at,
    };
    validate_event_metadata(&new_run.event_metadata, &subject)
}

/// What storing a run came to. `stored` is the run as it reads back; the other
/// two say whether the run and its event were new.
pub fn settle_reconciliation_run(
    stored: Option<StoredReconciliationRun>,
    new_run: &NewReconciliationRun,
    run_inserted: bool,
    event_inserted: bool,
) -> (r: Result<WriteOutcome<StoredReconciliationRun>, StoreError>)
    ensures
        error::fault(r) == (match stored {
            None => Some(
                error::missing_fault("reconciliation_run"@, new_run.request.request_id@),
            ),
            Some(stored) => if run_inserted == event_inserted && (run_inserted || run_replays(
                stored,
                *new_run,
            )) {
                None
            } else {
                Some(error::conflict_fault("reconciliation_run"@, new_run.request.request_id@))
            },
        }),
        r matches Ok(outcome) ==> outcome == (if run_inserted {
            WriteOutcome::Inserted(stored->0)
        } else {
            WriteOutcome::Duplicate(stored->0)
        }),
{
    let key = new_run.request.request_id.as_str();
    let found = match stored {
        Some(found) => found,
        None => {
            return Err(StoreError::missing("reconciliation_run", key));
        },
    };
    if run_inserted && event_inserted {
        Ok(WriteOutcome::Inserted(found))
    } else if !run_inserted && !event_inserted && same_request_run(&found, new_run) {
        Ok(WriteOutcome::Duplicate(found))
    } else {
        Err(StoreError::conflict("reconciliation_run", key))
    }
}

/// Two evaluations are the same.
pub open spec fn same_evaluation(a: ReconciliationEvaluation, b: ReconciliationEvaluation) -> bool {
    same_found(a, b) && a.disposition == b.disposition
}

/// The stored result is the incoming one, with numbers compared as numbers: the
/// sign of a zero does not matter.
pub open spec fn result_replays(
    stored: StoredReconciliationRun,
    incoming: NewReconciliationResult,
) -> bool {
    &&& stored.result matches Some(result) && json::unsigned_zeros(result.payload@)
        == json::unsigned_zeros(incoming.result.payload@)
    &&& stored.result_evaluation matches Some(evaluation) && same_evaluation(
        evaluation,
        incoming.evaluation,
    )
    &&& stored.completeness == Some(incoming.completeness)
    &&& stored.result_event matches Some(event) && same_semantics(
        event.metadata,
        incoming.event_metadata,
    )
}

/// Whether the stored result is the incoming one.
pub fn same_result_commit(stored: &StoredReconciliationRun, incoming: &NewReconciliationResult) -> (r:
    bool)
    ensures
        r == result_replays(*stored, *incoming),
{
    let result = match &stored.result {
        Some(result) => result.payload.same_value(&incoming.result.payload),
        None => false,
    };
    let evaluation = match &stored.result_evaluation {
        Some(evaluation) => is_same_found(evaluation, &incoming.evaluation)
            && evaluation.disposition == incoming.evaluation.disposition,
        None => false,
    };
    let completeness = match stored.completeness {
        Some(completeness) => completeness == incoming.completeness,
        None => false,
    };
    let event = match &stored.result_event {
        Some(event) => same_event_semantics(&event.metadata, &incoming.event_metadata),
        None => false,
    };
    result && evaluation && completeness && event
}

/// What is wrong with storing a result.
pub open spec fn commit_fault(
    existing: Option<StoredReconciliationRun>,
    new_result: NewReconciliationResult,
) -> Option<Fault> {
    let key = new_result.result.request_id@;
    match existing {
        None => Some(error::missing_fault("reconciliation_run"@, key)),
        Some(existing) => error::first_of(
            bundle_fault(existing, new_result),
            if existing.result is Some {
                if result_replays(existing, new_result) {
                    None
                } else {
                    Some(error::conflict_fault("reconciliation_result"@, key))
                }
            } else if existing.status != ReconciliationRunStatus::Requested {
                Some(error::stale_fault("reconciliation_run"@, key))
            } else {
                None
            },
        ),
    }
}

/// What storing a result amounts to.
pub enum ResultCommit {
    /// It was stored before.
    Replayed(StoredReconciliationRun),
    /// The run as it will stand.
    Committed(StoredReconciliationRun),
}

/// The run with its result.
pub open spec fn committed(
    existing: StoredReconciliationRun,
    new_result: NewReconciliationResult,
) -> StoredReconciliationRun {
    StoredReconciliationRun {
        status: disposed(new_result.evaluation.disposition),
        result: Some(new_result.result),
        result_evaluation: Some(new_result.evaluation),
        completeness: Some(new_result.completeness),
        result_event: Some(
            StoredCoreEvent {
                metadata: new_result.event_metadata,
                payload: new_result.result.payload,
            },
        ),
        updated_at: new_result.event_metadata.created_at,
        ..existing
    }
}

/// Stores a result with its evaluation, or finds that it was stored before.
pub fn commit_reconciliation_result(
    existing: Option<StoredReconciliationRun>,
    new_result: NewReconciliationResult,
) -> (r: Result<ResultCommit, StoreError>)
    ensures
        error::fault(r) == commit_fault(existing, new_result),
        r matches Ok(ResultCommit::Replayed(run)) ==> existing == Some(run) && run.result is Some,
        r matches Ok(ResultCommit::Committed(run)) ==> existing->0.result is None && run
            == committed(existing->0, new_result),
{
    let key = new_result.result.request_id.clone();
    let run = match existing {
        Some(run) => run,
        None => {
            return Err(StoreError::missing("reconciliation_run", key.as_str()));
        },
    };
    validate_result_bundle(&run, &new_result)?;
    if run.result.is_some() {
        if same_result_commit(&run, &new_result) {
            return Ok(ResultCommit::Replayed(run));
        }
        return Err(StoreError::conflict("reconciliation_result", key.as_str()));
    }
    if run.status != ReconciliationRunStatus::Requested {
        return Err(StoreError::stale("reconciliation_run", key.as_str()));
    }
    let payload = new_result.result.payload.clone();
    let updated_at: i64 = new_result.event_metadata.created_at;
    Ok(
        ResultCommit::Committed(
            StoredReconciliationRun {
                request: run.request,
                requested_at: run.requested_at,
                status: status_for_disposition(new_result.evaluation.disposition),
                result: Some(new_result.result),
                result_evaluation: Some(new_result.evaluation),
                completeness: Some(new_result.completeness),
                manual_evidence: run.manual_evidence,
                manual_evaluation: run.manual_evaluation,
                request_event: run.request_event,
                result_event: Some(
                    StoredCoreEvent { metadata: new_result.event_metadata, payload },
                ),
                created_at: run.created_at,
                updated_at,
            },
        ),
    )
}

/// The stored escalation is the incoming one.
pub open spec fn escalation_replays(
    existing: StoredReconciliationRun,
    escalation: NewManualReconciliationEscalation,
) -> bool {
    &&& existing.manual_evidence matches Some(evidence) && evidence.request_id@
        == escalation.evidence.request_id@ && evidence.escalated_at
        == escalation.evidence.escalated_at && evidence.reason@ == escalation.evidence.reason@
    &&& existing.manual_evaluation matches Some(evaluation) && same_evaluation(
        evaluation,
        escalation.evaluation,
    )
    &&& existing.updated_at == escalation.updated_at
}

fn does_escalation_replay(
    existing: &StoredReconciliationRun,
    escalation: &NewManualReconciliationEscalation,
) -> (r: bool)
    ensures
        r == escalation_replays(*existing, *escalation),
{
    let evidence = match &existing.manual_evidence {
        Some(evidence) => same_text(
            evidence.request_id.as_str(),
            escalation.evidence.request_id.as_str(),
        ) && evidence.escalated_at == escalation.evidence.escalated_at && same_text(
            evidence.reason.as_str(),
            escalation.evidence.reason.as_str(),
        ),
        None => false,
    };
    let evaluation = match &existing.manual_evaluation {
        Some(evaluation) => is_same_found(evaluation, &escalation.evaluation)
            && evaluation.disposition == escalation.evaluation.disposition,
        None => false,
    };
    evidence && evaluation && existing.updated_at == escalation.updated_at
}

/// What is wrong with storing an escalation.
pub open spec fn escalate_fault(
    existing: Option<StoredReconciliationRun>,
    escalation: NewManualReconciliationEscalation,
) -> Option<Fault> {
    let key = escalation.evidence.request_id@;
    match existing {
        None => Some(error::missing_fault("reconciliation_run"@, key)),
        Some(existing) => error::first_of(
            escalation_fault(existing, escalation),
            if existing.manual_evidence is Some {
                if escalation_replays(existing, escalation) {
                    None
                } else {
                    Some(error::conflict_fault("manual_reconciliation_evidence"@, key))
                }
            } else if existing.status == ReconciliationRunStatus::Completed {
                Some(error::stale_fault("reconciliation_run"@, key))
            } else {
                None
            },
        ),
    }
}

/// The run with its escalation.
pub open spec fn escalated(
    existing: StoredReconciliationRun,
    escalation: NewManualReconciliationEscalation,
) -> StoredReconciliationRun {
    StoredReconciliationRun {
        status: ReconciliationRunStatus::ManualReconciliationRequired,
        manual_evidence: Some(escalation.evidence),
        manual_evaluation: Some(escalation.evaluation),
        updated_at: escalation.updated_at,
        ..existing
    }
}

/// Hands a run over to a person, or finds that it was handed over before.
pub fn escalate_reconciliation_manual(
    existing: Option<StoredReconciliationRun>,
    escalation: NewManualReconciliationEscalation,
) -> (r: Result<WriteOutcome<StoredReconciliationRun>, StoreError>)
    ensures
        error::fault(r) == escalate_fault(existing, escalation),
        r matches Ok(WriteOutcome::Duplicate(run)) ==> existing == Some(run)
            && run.manual_evidence is Some,
        r matches Ok(WriteOutcome::Inserted(run)) ==> existing->0.manual_evidence is None && run
            == escalated(existing->0, escalation),
{
    let key = escalation.evidence.request_id.clone();
    let run = match existing {
        Some(run) => run,
        None => {
            return Err(StoreError::missing("reconciliation_run", key.as_str()));
        },
    };
    validate_manual_escalation(&run, &escalation)?;
    if run.manual_evidence.is_some() {
        if does_escalation_replay(&run, &escalation) {
            return Ok(WriteOutcome::Duplicate(run));
        }
        return Err(StoreError::conflict("manual_reconciliation_evidence", key.as_str()));
    }
    if run.status == ReconciliationRunStatus::Completed {
        return Err(StoreError::stale("reconciliation_run", key.as_str()));
    }
    Ok(
        WriteOutcome::Inserted(
            StoredReconciliationRun {
                request: run.request,
                requested_at: run.requested_at,
                status: ReconciliationRunStatus::ManualReconciliationRequired,
                result: run.result,
                result_evaluation: run.result_evaluation,
                completeness: run.completeness,
                manual_evidence: Some(escalation.evidence),
                manual_evaluation: Some(escalation.evaluation),
                request_event: run.request_event,
                result_event: run.result_event,
                created_at: run.created_at,
                updated_at: escalation.updated_at,
            },
        ),
    )
}

/// The texts under which runs are stored.
pub proof fn run_statuses_are_stored_by_name()
    ensures
        ReconciliationRunStatus::Requested.name() == "REQUESTED"@,
        ReconciliationRunStatus::PendingEvidence.name() == "PENDING_EVIDENCE"@,
        ReconciliationRunStatus::Completed.name() == "COMPLETED"@,
        ReconciliationRunStatus::ManualReconciliationRequired.name()
            == "MANUAL_RECONCILIATION_REQUIRED"@,
        ReconciliationReason::DeliveryUnconfirmed.name() == "DELIVERY_UNCONFIRMED"@,
        ReconciliationReason::ConnectionRestored.name() == "CONNECTION_RESTORED"@,
        ReconciliationReason::ManualRequest.name() == "MANUAL_REQUEST"@,
        ReconciliationReason::StateStoreRestored.name() == "STATE_STORE_RESTORED"@,
{
}

/// A request about a list of commands is targeted, any other is about the
/// account.
pub proof fn requests_without_a_list_are_about_the_account(request: ReconciliationRequest)
    ensures
        request.command_ids is Some ==> scope_text(request) == "TARGETED"@,
        request.command_ids is None ==> scope_text(request) == "ACCOUNT"@,
{
}

/// A request is taken if it and its account have names, its terminal and client
/// have where they are given, its list of commands, where it has one, holds some
/// and is in order without blanks, and its times are not negative and do not
/// reach beyond the request.
pub proof fn sound_requests_are_taken(request: ReconciliationRequest, requested_at: i64)
    ensures
        request_fault(request, requested_at) is None <==> {
            &&& !text::blank(request.request_id@)
            &&& !text::blank(request.account_id@)
            &&& request.terminal_id is Some ==> !text::blank((request.terminal_id->0)@)
            &&& request.client_id is Some ==> !text::blank((request.client_id->0)@)
            &&& request.command_ids is Some ==> {
                let ids = (request.command_ids->0)@;
                &&& ids.len() > 0
                &&& forall|i: int| 0 <= i < ids.len() ==> !text::blank((#[trigger] ids[i])@)
                &&& forall|i: int, j: int|
                    0 <= i < j < ids.len() ==> text::precedes(
                        (#[trigger] ids[i])@,
                        (#[trigger] ids[j])@,
                    )
            }
            &&& requested_at >= 0
            &&& request.since_server_time matches Some(since) ==> 0 <= since <= requested_at
        },
{
    if request.command_ids is Some {
        let ids = (request.command_ids->0)@;
        list_is_proper(ids);
    }
}

proof fn list_is_proper(ids: Seq<String>)
    ensures
        proper_list(ids) <==> {
            &&& forall|i: int| 0 <= i < ids.len() ==> !text::blank((#[trigger] ids[i])@)
            &&& forall|i: int, j: int|
                0 <= i < j < ids.len() ==> text::precedes(
                    (#[trigger] ids[i])@,
                    (#[trigger] ids[j])@,
                )
        },
{
    let list = text::texts(ids);
    assert forall|i: int| 0 <= i < ids.len() implies #[trigger] ids[i]@ == list[i] by {}
    if proper_list(ids) {
        assert forall|i: int| 0 <= i < ids.len() implies !text::blank((#[trigger] ids[i])@) by {
            assert(!text::blank(list[i]));
        }
        assert forall|i: int, j: int| 0 <= i < j < ids.len() implies text::precedes(
            (#[trigger] ids[i])@,
            (#[trigger] ids[j])@,
        ) by {
            assert(text::precedes(list[i], list[j]));
        }
    }
}

/// A full set: every member has a name and is of the account and of the time,
/// and they stand in the order of their names, none twice.
pub proof fn full_sets_are_of_one_account_and_time(
    set: Seq<Snapshot>,
    account_id: Seq<char>,
    observed_at: i64,
)
    ensures
        full_set(set, account_id, observed_at) <==> {
            &&& forall|i: int| 0 <= i < set.len() ==> {
                let member = #[trigger] set[i];
                &&& !text::blank(member.id@)
                &&& member.account_id@ == account_id
                &&& member.observed_at == observed_at
            }
            &&& forall|i: int, j: int|
                0 <= i < j < set.len() ==> text::precedes(
                    (#[trigger] set[i]).id@,
                    (#[trigger] set[j]).id@,
                )
        },
{
    let ids = snapshot_ids(set);
    assert forall|i: int| 0 <= i < set.len() implies #[trigger] set[i].id@ == ids[i] by {}
    if full_set(set, account_id, observed_at) {
        assert forall|i: int, j: int| 0 <= i < j < set.len() implies text::precedes(
            (#[trigger] set[i]).id@,
            (#[trigger] set[j]).id@,
        ) by {
            assert(text::precedes(ids[i], ids[j]));
        }
    }
}

/// The sets of a result that is taken: all are full sets of its account and
/// time, so is the account where it is reported, and what it leaves open is in
/// order and within what was asked.
pub proof fn results_hold_full_sets(
    result: ReconciliationResult,
    target: Option<Vec<CommandId>>,
)
    ensures
        result_sets_fault(result, target) is None <==> {
            &&& result.account is Some ==> (result.account->0).account_id@ == result.account_id@ && (
            result.account->0).observed_at == result.observed_at
            &&& full_set(result.positions@, result.account_id@, result.observed_at)
            &&& full_set(result.orders@, result.account_id@, result.observed_at)
            &&& full_set(result.symbol_metadata@, result.account_id@, result.observed_at)
            &&& forall|i: int|
                0 <= i < result.unresolved_command_ids@.len() ==> !text::blank(
                    (#[trigger] result.unresolved_command_ids@[i])@,
                )
            &&& forall|i: int, j: int|
                0 <= i < j < result.unresolved_command_ids@.len() ==> text::precedes(
                    (#[trigger] result.unresolved_command_ids@[i])@,
                    (#[trigger] result.unresolved_command_ids@[j])@,
                )
            &&& target is Some ==> forall|i: int|
                0 <= i < result.unresolved_command_ids@.len() ==> text::texts(
                    (target->0)@,
                ).contains((#[trigger] result.unresolved_command_ids@[i])@)
        },
{
    list_is_proper(result.unresolved_command_ids@);
    if target is Some {
        names_are_within(result.unresolved_command_ids@, (target->0)@);
    }
}

proof fn names_are_within(part: Seq<String>, whole: Seq<String>)
    ensures
        text::all_within(text::texts(part), text::texts(whole)) <==> forall|i: int|
            0 <= i < part.len() ==> text::texts(whole).contains((#[trigger] part[i])@),
{
    let a = text::texts(part);
    let b = text::texts(whole);
    assert forall|i: int| 0 <= i < part.len() implies #[trigger] part[i]@ == a[i] by {}
    if text::all_within(a, b) {
        assert forall|i: int| 0 <= i < part.len() implies b.contains((#[trigger] part[i])@) by {
            assert(b.contains(a[i]));
        }
    }
    if forall|i: int| 0 <= i < part.len() ==> b.contains((#[trigger] part[i])@) {
        assert forall|i: int| 0 <= i < a.len() implies b.contains(#[trigger] a[i]) by {
            assert(part[i]@ == a[i]);
        }
    }
}

/// An evaluation that is taken is of the request and the time of the result; if
/// it is completed it leaves no command open, if it is pending it leaves some,
/// and it names no command outside of a targeted request.
pub proof fn evaluations_fit_their_request(
    evaluation: ReconciliationEvaluation,
    request: ReconciliationRequest,
    observed_at: Option<i64>,
)
    ensures
        evaluation_fault(evaluation, request, observed_at) is None <==> {
            &&& evaluation.request_id@ == request.request_id@
            &&& evaluation.account_id@ == request.account_id@
            &&& evaluation.observed_at == observed_at
            &&& evaluation.disposition is Completed ==> evaluation.command_ids@.len() == 0
            &&& evaluation.disposition is PendingEvidence ==> evaluation.command_ids@.len() > 0
            &&& forall|i: int|
                0 <= i < evaluation.command_ids@.len() ==> !text::blank(
                    (#[trigger] evaluation.command_ids@[i])@,
                )
            &&& forall|i: int, j: int|
                0 <= i < j < evaluation.command_ids@.len() ==> text::precedes(
                    (#[trigger] evaluation.command_ids@[i])@,
                    (#[trigger] evaluation.command_ids@[j])@,
                )
            &&& request.command_ids is Some ==> forall|i: int|
                0 <= i < evaluation.command_ids@.len() ==> text::texts(
                    (request.command_ids->0)@,
                ).contains((#[trigger] evaluation.command_ids@[i])@)
        },
{
    list_is_proper(evaluation.command_ids@);
    if request.command_ids is Some {
        names_are_within(evaluation.command_ids@, (request.command_ids->0)@);
    }
}

/// No result of a targeted request covers all commands; and a result that leaves
/// commands open is not completed, and its evaluation names them all.
pub proof fn open_commands_are_evaluated(
    completeness: ReconciliationCompleteness,
    request: ReconciliationRequest,
    result: ReconciliationResult,
    evaluation: ReconciliationEvaluation,
)
    ensures
        completeness_fault(completeness, request) is None <==> (completeness.command_scope_complete
            ==> request.command_ids is None),
        link_fault(result, evaluation) is None <==> {
            &&& evaluation.disposition is Completed ==> result.unresolved_command_ids@.len() == 0
            &&& forall|i: int|
                0 <= i < result.unresolved_command_ids@.len() ==> text::texts(
                    evaluation.command_ids@,
                ).contains((#[trigger] result.unresolved_command_ids@[i])@)
        },
{
    names_are_within(result.unresolved_command_ids@, evaluation.command_ids@);
}

/// An event of a run is described as what it is: of this kind, about this
/// request, account, terminal and client, at this time, received and stored no
/// earlier, and about nothing else.
pub proof fn run_events_describe_their_run(metadata: CoreEventMetadata, subject: EventSubject)
    ensures
        metadata_fault(metadata, subject) is None <==> {
            &&& metadata.event_type@ == subject.event_type@
            &&& metadata.aggregate_type@ == "reconciliation"@
            &&& metadata.aggregate_id@ == subject.request_id@
            &&& 0 <= metadata.event_at
            &&& metadata.event_at == subject.event_at
            &&& metadata.event_at <= metadata.received_at
            &&& metadata.received_at <= metadata.created_at
            &&& metadata.account_id is Some && (metadata.account_id->0)@ == subject.account_id@
            &&& text::optional_text(metadata.terminal_id) == text::optional_text(
                *subject.terminal_id,
            )
            &&& text::optional_text(metadata.client_id) == text::optional_text(*subject.client_id)
            &&& metadata.strategy_id is None && metadata.intent_id is None
            &&& metadata.plan_id is None && metadata.leg_id is None
            &&& metadata.command_id is None && metadata.idempotency_key is None
            &&& !text::blank(metadata.event_id@)
            &&& !text::blank(metadata.schema_version@)
            &&& !text::blank(metadata.source@)
        },
{
}

/// What the events of a run are of: the request and its time, or the result and
/// its time.
pub proof fn run_events_are_requests_and_results(
    request: ReconciliationRequest,
    requested_at: i64,
    result: ReconciliationResult,
)
    ensures
        request_subject(request, requested_at).event_type@ == "reconciliation.request"@,
        request_subject(request, requested_at).request_id == request.request_id,
        request_subject(request, requested_at).account_id == request.account_id,
        request_subject(request, requested_at).terminal_id == request.terminal_id,
        request_subject(request, requested_at).client_id == request.client_id,
        request_subject(request, requested_at).event_at == requested_at,
        result_subject(result).event_type@ == "reconciliation.result"@,
        result_subject(result).request_id == result.request_id,
        result_subject(result).account_id == result.account_id,
        result_subject(result).terminal_id == result.terminal_id,
        result_subject(result).client_id == result.client_id,
        result_subject(result).event_at == result.observed_at,
{
}

/// A result is stored for a run that still waits for one, if it answers the
/// request, was not observed before it, does not call in a person, and is sound.
/// The run then is completed or pending as the evaluation says, holds the result
/// as it came, and keeps everything else.
pub proof fn results_complete_their_runs(
    run: StoredReconciliationRun,
    new_result: NewReconciliationResult,
)
    requires
        run.result is None,
        commit_fault(Some(run), new_result) is None,
    ensures
        run.status is Requested,
        new_result.result.request_id@ == run.request.request_id@,
        new_result.result.account_id@ == run.request.account_id@,
        text::optional_text(new_result.result.terminal_id) == text::optional_text(
            run.request.terminal_id,
        ),
        text::optional_text(new_result.result.client_id) == text::optional_text(
            run.request.client_id,
        ),
        new_result.result.observed_at >= run.requested_at,
        new_result.event_metadata.created_at >= run.updated_at,
        result_sets_fault(new_result.result, run.request.command_ids) is None,
        evaluation_fault(
            new_result.evaluation,
            run.request,
            Some(new_result.result.observed_at),
        ) is None,
        completeness_fault(new_result.completeness, run.request) is None,
        link_fault(new_result.result, new_result.evaluation) is None,
        metadata_fault(new_result.event_metadata, result_subject(new_result.result)) is None,
        ({
            let after = committed(run, new_result);
            &&& new_result.evaluation.disposition is Completed || (
            new_result.evaluation.disposition is PendingEvidence)
            &&& new_result.evaluation.disposition is Completed ==> after.status is Completed
            &&& new_result.evaluation.disposition is PendingEvidence
                ==> after.status is PendingEvidence
            &&& after.result == Some(new_result.result)
            &&& after.result_evaluation == Some(new_result.evaluation)
            &&& after.completeness == Some(new_result.completeness)
            &&& after.result_event is Some && (after.result_event->0).payload
                == new_result.result.payload && (after.result_event->0).metadata
                == new_result.event_metadata
            &&& after.updated_at == new_result.event_metadata.created_at
            &&& after.request == run.request
            &&& after.requested_at == run.requested_at
            &&& after.created_at == run.created_at
            &&& after.request_event == run.request_event
            &&& after.manual_evidence == run.manual_evidence
        }),
{
}

/// Nothing else stands in the way of such a result.
pub proof fn sound_results_are_stored(
    run: StoredReconciliationRun,
    new_result: NewReconciliationResult,
)
    requires
        run.result is None,
        run.status is Requested,
        new_result.result.request_id@ == run.request.request_id@,
        new_result.result.account_id@ == run.request.account_id@,
        text::optional_text(new_result.result.terminal_id) == text::optional_text(
            run.request.terminal_id,
        ),
        text::optional_text(new_result.result.client_id) == text::optional_text(
            run.request.client_id,
        ),
        new_result.result.observed_at >= run.requested_at,
        !(new_result.evaluation.disposition is ManualRequired),
        new_result.event_metadata.created_at >= run.updated_at,
        result_sets_fault(new_result.result, run.request.command_ids) is None,
        evaluation_fault(
            new_result.evaluation,
            run.request,
            Some(new_result.result.observed_at),
        ) is None,
        completeness_fault(new_result.completeness, run.request) is None,
        link_fault(new_result.result, new_result.evaluation) is None,
        metadata_fault(new_result.event_metadata, result_subject(new_result.result)) is None,
    ensures
        commit_fault(Some(run), new_result) is None,
{
}

/// A stored result is repeated only by the same result, with the same evaluation
/// and claims, told by the same event; anything else conflicts with it.
pub proof fn only_the_same_result_repeats(
    run: StoredReconciliationRun,
    new_result: NewReconciliationResult,
)
    requires
        run.result is Some,
        commit_fault(Some(run), new_result) is None,
    ensures
        json::unsigned_zeros((run.result->0).payload@) == json::unsigned_zeros(
            new_result.result.payload@,
        ),
        run.completeness == Some(new_result.completeness),
        run.result_evaluation is Some && ({
            let evaluation = run.result_evaluation->0;
            &&& evaluation.request_id@ == new_result.evaluation.request_id@
            &&& evaluation.account_id@ == new_result.evaluation.account_id@
            &&& evaluation.observed_at == new_result.evaluation.observed_at
            &&& evaluation.disposition == new_result.evaluation.disposition
            &&& text::texts(evaluation.command_ids@) == text::texts(
                new_result.evaluation.command_ids@,
            )
            &&& evaluation.findings@.len() == new_result.evaluation.findings@.len()
            &&& forall|i: int|
                0 <= i < evaluation.findings@.len() ==> json::equal_json(
                    #[trigger] evaluation.findings@[i],
                    new_result.evaluation.findings@[i],
                )
        }),
        run.result_event is Some && (run.result_event->0).metadata.event_id@
            == new_result.event_metadata.event_id@ && (run.result_event->0).metadata.event_at
            == new_result.event_metadata.event_at,
{
}

/// A person is called in for a run that is not completed, with a reason, not
/// before the request, its result or its last change, and with the findings of a
/// result that is pending, where there is one. The run then is in that person's
/// hands and keeps everything else.
pub proof fn escalations_hand_runs_over(
    run: StoredReconciliationRun,
    escalation: NewManualReconciliationEscalation,
)
    requires
        run.manual_evidence is None,
        escalate_fault(Some(run), escalation) is None,
    ensures
        !(run.status is Completed),
        escalation.evidence.request_id@ == run.request.request_id@,
        !text::blank(escalation.evidence.reason@),
        escalation.evidence.escalated_at >= run.requested_at,
        run.result is Some ==> escalation.evidence.escalated_at >= (run.result->0).observed_at,
        escalation.updated_at >= escalation.evidence.escalated_at,
        escalation.updated_at >= run.updated_at,
        escalation.evaluation.disposition is ManualRequired,
        run.result_evaluation is Some ==> (run.result_evaluation->0).disposition
            is PendingEvidence && escalation.evaluation.observed_at == (
        run.result_evaluation->0).observed_at && text::texts(escalation.evaluation.command_ids@)
            == text::texts((run.result_evaluation->0).command_ids@),
        ({
            let after = escalated(run, escalation);
            &&& after.status is ManualReconciliationRequired
            &&& after.manual_evidence == Some(escalation.evidence)
            &&& after.manual_evaluation == Some(escalation.evaluation)
            &&& after.updated_at == escalation.updated_at
            &&& after.request == run.request
            &&& after.result == run.result
            &&& after.result_evaluation == run.result_evaluation
            &&& after.result_event == run.result_event
            &&& after.created_at == run.created_at
        }),
{
}

/// Nothing else stands in the way of such an escalation.
pub proof fn sound_escalations_are_stored(
    run: StoredReconciliationRun,
    escalation: NewManualReconciliationEscalation,
)
    requires
        run.manual_evidence is None,
        !(run.status is Completed),
        run.result is None,
        run.result_evaluation is None,
        escalation.evidence.request_id@ == run.request.request_id@,
        !text::blank(escalation.evidence.reason@),
        escalation.evidence.escalated_at >= run.requested_at,
        escalation.updated_at >= escalation.evidence.escalated_at,
        escalation.updated_at >= run.updated_at,
        escalation.evaluation.disposition is ManualRequired,
        evaluation_fault(escalation.evaluation, run.request, None) is None,
    ensures
        escalate_fault(Some(run), escalation) is None,
{
}

/// A stored escalation is repeated only by the same one.
pub proof fn only_the_same_escalation_repeats(
    run: StoredReconciliationRun,
    escalation: NewManualReconciliationEscalation,
)
    requires
        run.manual_evidence is Some,
        escalate_fault(Some(run), escalation) is None,
    ensures
        (run.manual_evidence->0).request_id@ == escalation.evidence.request_id@,
        (run.manual_evidence->0).escalated_at == escalation.evidence.escalated_at,
        (run.manual_evidence->0).reason@ == escalation.evidence.reason@,
        run.updated_at == escalation.updated_at,
        run.manual_evaluation is Some && (run.manual_evaluation->0).disposition
            == escalation.evaluation.disposition && text::texts(
            (run.manual_evaluation->0).command_ids@,
        ) == text::texts(escalation.evaluation.command_ids@),
{
}

/// A stored run is repeated only by a request for the same: of the same account,
/// terminal and client, for the same reason, about the same commands and times.
pub proof fn only_the_same_request_repeats(
    stored: StoredReconciliationRun,
    incoming: NewReconciliationRun,
)
    requires
        run_replays(stored, incoming),
    ensures
        stored.request.request_id@ == incoming.request.request_id@,
        stored.request.account_id@ == incoming.request.account_id@,
        text::optional_text(stored.request.terminal_id) == text::optional_text(
            incoming.request.terminal_id,
        ),
        text::optional_text(stored.request.client_id) == text::optional_text(
            incoming.request.client_id,
        ),
        stored.request.reason == incoming.request.reason,
        stored.request.command_ids is Some <==> incoming.request.command_ids is Some,
        stored.request.command_ids is Some ==> text::texts((stored.request.command_ids->0)@)
            == text::texts((incoming.request.command_ids->0)@),
        stored.request.since_server_time == incoming.request.since_server_time,
        stored.requested_at == incoming.requested_at,
        stored.request_event.metadata.event_id@ == incoming.event_metadata.event_id@,
{
}

}
