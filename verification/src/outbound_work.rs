//! Work that brings commands and reconciliation requests to their clients:
//! leased to one worker at a time, and tried again until it is done.

use vstd::prelude::*;
use vstd::string::*;

use crate::domain::{CausationId, CommandId, CorrelationId, IntentId, MessageId, RequestId};
use crate::error;
use crate::error::{Fault, StoreError};
use crate::numbers;
use crate::numbers::u64_to_i64;
use crate::reconciliation::StoredReconciliationRun;
use crate::text;
use crate::text::{
    append_decimal, copy_optional, is_blank, join2, join3, join4, optional_is, optional_is_blank,
    same_text, signed_decimal_text, text_precedes,
};
use crate::trading::{
    ExecutionCommand, ExecutionCommandState, StoredExecutionCommand, StoredTradeIntent,
};

verus! {

/// How far a piece of work got.
#[derive(Clone, Copy, Debug, PartialEq, Eq, Structural)]
pub enum OutboundDeliveryWorkStatus {
    Pending,
    Processing,
    Delivered,
}

impl OutboundDeliveryWorkStatus {
    /// The text under which the status is stored.
    pub open spec fn name(self) -> Seq<char> {
        match self {
            OutboundDeliveryWorkStatus::Pending => "PENDING"@,
            OutboundDeliveryWorkStatus::Processing => "PROCESSING"@,
            OutboundDeliveryWorkStatus::Delivered => "DELIVERED"@,
        }
    }

    /// The text under which the status is stored.
    pub fn as_str(self) -> (r: &'static str)
        ensures
            r@ == self.name(),
    {
        match self {
            OutboundDeliveryWorkStatus::Pending => "PENDING",
            OutboundDeliveryWorkStatus::Processing => "PROCESSING",
            OutboundDeliveryWorkStatus::Delivered => "DELIVERED",
        }
    }

    /// The status that is stored under a text, if there is one.
    pub open spec fn named(value: Seq<char>) -> Option<OutboundDeliveryWorkStatus> {
        if value == "PENDING"@ {
            Some(OutboundDeliveryWorkStatus::Pending)
        } else if value == "PROCESSING"@ {
            Some(OutboundDeliveryWorkStatus::Processing)
        } else if value == "DELIVERED"@ {
            Some(OutboundDeliveryWorkStatus::Delivered)
        } else {
            None
        }
    }

    /// The status that is stored under a text.
    pub fn parse(value: &str) -> (r: Option<OutboundDeliveryWorkStatus>)
        ensures
            r == OutboundDeliveryWorkStatus::named(value@),
            r matches Some(found) ==> found.name() == value@,
            r is None ==> forall|other: OutboundDeliveryWorkStatus| #[trigger] other.name() != value@,
    {
        if same_text(value, "PENDING") {
            Some(OutboundDeliveryWorkStatus::Pending)
        } else if same_text(value, "PROCESSING") {
            Some(OutboundDeliveryWorkStatus::Processing)
        } else if same_text(value, "DELIVERED") {
            Some(OutboundDeliveryWorkStatus::Delivered)
        } else {
            None
        }
    }
}

/// No two statuses are stored under one text, and each is found under its own.
pub proof fn work_status_names_differ(a: OutboundDeliveryWorkStatus, b: OutboundDeliveryWorkStatus)
    ensures
        a.name() == b.name() ==> a == b,
        OutboundDeliveryWorkStatus::named(a.name()) == Some(a),
{
    reveal_strlit("PENDING");
    reveal_strlit("PROCESSING");
    reveal_strlit("DELIVERED");
    assert("PENDING"@.len() == 7);
    assert("PROCESSING"@.len() == 10);
    assert("DELIVERED"@.len() == 9);
}

/// What the last try came to.
#[derive(Clone, Copy, Debug, PartialEq, Eq, Structural)]
pub enum OutboundDeliveryWorkOutcome {
    Sent,
    Unconfirmed,
    Rejected,
    DefinitelyNotWritten,
    InfrastructureError,
    Superseded,
    Expired,
    PermanentRejection,
}

impl OutboundDeliveryWorkOutcome {
    /// The text under which the outcome is stored.
    pub open spec fn name(self) -> Seq<char> {
        match self {
            OutboundDeliveryWorkOutcome::Sent => "SENT"@,
            OutboundDeliveryWorkOutcome::Unconfirmed => "UNCONFIRMED"@,
            OutboundDeliveryWorkOutcome::Rejected => "REJECTED"@,
            OutboundDeliveryWorkOutcome::DefinitelyNotWritten => "DEFINITELY_NOT_WRITTEN"@,
            OutboundDeliveryWorkOutcome::InfrastructureError => "INFRASTRUCTURE_ERROR"@,
            OutboundDeliveryWorkOutcome::Superseded => "SUPERSEDED"@,
            OutboundDeliveryWorkOutcome::Expired => "EXPIRED"@,
            OutboundDeliveryWorkOutcome::PermanentRejection => "PERMANENT_REJECTION"@,
        }
    }

    /// The text under which the outcome is stored.
    pub fn as_str(self) -> (r: &'static str)
        ensures
            r@ == self.name(),
    {
        match self {
            OutboundDeliveryWorkOutcome::Sent => "SENT",
            OutboundDeliveryWorkOutcome::Unconfirmed => "UNCONFIRMED",
            OutboundDeliveryWorkOutcome::Rejected => "REJECTED",
            OutboundDeliveryWorkOutcome::DefinitelyNotWritten => "DEFINITELY_NOT_WRITTEN",
            OutboundDeliveryWorkOutcome::InfrastructureError => "INFRASTRUCTURE_ERROR",
            OutboundDeliveryWorkOutcome::Superseded => "SUPERSEDED",
            OutboundDeliveryWorkOutcome::Expired => "EXPIRED",
            OutboundDeliveryWorkOutcome::PermanentRejection => "PERMANENT_REJECTION",
        }
    }

    /// The outcome that is stored under a text, if there is one.
    pub open spec fn named(value: Seq<char>) -> Option<OutboundDeliveryWorkOutcome> {
        if value == "SENT"@ {
            Some(OutboundDeliveryWorkOutcome::Sent)
        } else if value == "UNCONFIRMED"@ {
            Some(OutboundDeliveryWorkOutcome::Unconfirmed)
        } else if value == "REJECTED"@ {
            Some(OutboundDeliveryWorkOutcome::Rejected)
        } else if value == "DEFINITELY_NOT_WRITTEN"@ {
            Some(OutboundDeliveryWorkOutcome::DefinitelyNotWritten)
        } else if value == "INFRASTRUCTURE_ERROR"@ {
            Some(OutboundDeliveryWorkOutcome::InfrastructureError)
        } else if value == "SUPERSEDED"@ {
            Some(OutboundDeliveryWorkOutcome::Superseded)
        } else if value == "EXPIRED"@ {
            Some(OutboundDeliveryWorkOutcome::Expired)
        } else if value == "PERMANENT_REJECTION"@ {
            Some(OutboundDeliveryWorkOutcome::PermanentRejection)
        } else {
            None
        }
    }

    /// The outcome that is stored under a text.
    pub fn parse(value: &str) -> (r: Option<OutboundDeliveryWorkOutcome>)
        ensures
            r == OutboundDeliveryWorkOutcome::named(value@),
            r matches Some(found) ==> found.name() == value@,
            r is None ==> forall|other: OutboundDeliveryWorkOutcome| #[trigger] other.name() != value@,
    {
        if same_text(value, "SENT") {
            Some(OutboundDeliveryWorkOutcome::Sent)
        } else if same_text(value, "UNCONFIRMED") {
            Some(OutboundDeliveryWorkOutcome::Unconfirmed)
        } else if same_text(value, "REJECTED") {
            Some(OutboundDeliveryWorkOutcome::Rejected)
        } else if same_text(value, "DEFINITELY_NOT_WRITTEN") {
            Some(OutboundDeliveryWorkOutcome::DefinitelyNotWritten)
        } else if same_text(value, "INFRASTRUCTURE_ERROR") {
            Some(OutboundDeliveryWorkOutcome::InfrastructureError)
        } else if same_text(value, "SUPERSEDED") {
            Some(OutboundDeliveryWorkOutcome::Superseded)
        } else if same_text(value, "EXPIRED") {
            Some(OutboundDeliveryWorkOutcome::Expired)
        } else if same_text(value, "PERMANENT_REJECTION") {
            Some(OutboundDeliveryWorkOutcome::PermanentRejection)
        } else {
            None
        }
    }
}

/// No two outcomes are stored under one text, and each is found under its own.
pub proof fn work_outcome_names_differ(a: OutboundDeliveryWorkOutcome, b: OutboundDeliveryWorkOutcome)
    ensures
        a.name() == b.name() ==> a == b,
        OutboundDeliveryWorkOutcome::named(a.name()) == Some(a),
{
    reveal_strlit("SENT");
    reveal_strlit("UNCONFIRMED");
    reveal_strlit("REJECTED");
    reveal_strlit("DEFINITELY_NOT_WRITTEN");
    reveal_strlit("INFRASTRUCTURE_ERROR");
    reveal_strlit("SUPERSEDED");
    reveal_strlit("EXPIRED");
    reveal_strlit("PERMANENT_REJECTION");
    assert("SENT"@.len() == 4);
    assert("UNCONFIRMED"@.len() == 11);
    assert("REJECTED"@.len() == 8);
    assert("DEFINITELY_NOT_WRITTEN"@.len() == 22);
    assert("INFRASTRUCTURE_ERROR"@.len() == 20);
    assert("SUPERSEDED"@.len() == 10);
    assert("EXPIRED"@.len() == 7);
    assert("PERMANENT_REJECTION"@.len() == 19);
}

impl OutboundDeliveryWorkOutcome {
    /// Work with this outcome is done.
    pub open spec fn finishes(self) -> bool {
        self is Sent || self is Unconfirmed || self is Superseded || self is Expired
            || self is PermanentRejection
    }

    /// Whether work with this outcome is done.
    pub fn may_complete(self) -> (r: bool)
        ensures
            r == self.finishes(),
    {
        match self {
            OutboundDeliveryWorkOutcome::Sent
            | OutboundDeliveryWorkOutcome::Unconfirmed
            | OutboundDeliveryWorkOutcome::Superseded
            | OutboundDeliveryWorkOutcome::Expired
            | OutboundDeliveryWorkOutcome::PermanentRejection => true,
            _ => false,
        }
    }

    /// Whether work with this outcome is to be tried again.
    pub fn may_retry(self) -> (r: bool)
        ensures
            r == !self.finishes(),
    {
        match self {
            OutboundDeliveryWorkOutcome::Rejected
            | OutboundDeliveryWorkOutcome::DefinitelyNotWritten
            | OutboundDeliveryWorkOutcome::InfrastructureError => true,
            _ => false,
        }
    }
}

/// What is to be delivered.
#[derive(Debug, PartialEq, Eq)]
pub enum OutboundDeliveryWorkSubject {
    ExecutionCommand(CommandId),
    ReconciliationRequest(RequestId),
}

impl Clone for OutboundDeliveryWorkSubject {
    fn clone(&self) -> (r: Self)
        ensures
            r == *self,
    {
        match self {
            OutboundDeliveryWorkSubject::ExecutionCommand(id) => {
                OutboundDeliveryWorkSubject::ExecutionCommand(id.clone())
            },
            OutboundDeliveryWorkSubject::ReconciliationRequest(id) => {
                OutboundDeliveryWorkSubject::ReconciliationRequest(id.clone())
            },
        }
    }
}

/// What is to be delivered, over mathematical texts.
pub enum Subject {
    ExecutionCommand(Seq<char>),
    ReconciliationRequest(Seq<char>),
}

impl View for OutboundDeliveryWorkSubject {
    type V = Subject;

    open spec fn view(&self) -> Subject {
        match self {
            OutboundDeliveryWorkSubject::ExecutionCommand(id) => Subject::ExecutionCommand(id@),
            OutboundDeliveryWorkSubject::ReconciliationRequest(id) => {
                Subject::ReconciliationRequest(id@)
            },
        }
    }
}

/// A piece of work.
#[derive(Debug, PartialEq, Eq)]
pub struct StoredOutboundDeliveryWork {
    pub work_id: String,
    pub subject: OutboundDeliveryWorkSubject,
    pub generation: u64,
    pub message_id: MessageId,
    pub status: OutboundDeliveryWorkStatus,
    pub delivery_attempts: u64,
    pub next_attempt_at: Option<i64>,
    pub lease_owner: Option<String>,
    pub lease_expires_at: Option<i64>,
    pub revision: u64,
    pub last_outcome: Option<OutboundDeliveryWorkOutcome>,
    pub last_error: Option<String>,
    pub completed_at: Option<i64>,
    pub created_at: i64,
    pub updated_at: i64,
}

/// A piece of work, over mathematical texts.
pub struct Work {
    pub work_id: Seq<char>,
    pub subject: Subject,
    pub generation: u64,
    pub message_id: Seq<char>,
    pub status: OutboundDeliveryWorkStatus,
    pub delivery_attempts: u64,
    pub next_attempt_at: Option<i64>,
    pub lease_owner: Option<Seq<char>>,
    pub lease_expires_at: Option<i64>,
    pub revision: u64,
    pub last_outcome: Option<OutboundDeliveryWorkOutcome>,
    pub last_error: Option<Seq<char>>,
    pub completed_at: Option<i64>,
    pub created_at: i64,
    pub updated_at: i64,
}

impl View for StoredOutboundDeliveryWork {
    type V = Work;

    open spec fn view(&self) -> Work {
        Work {
            work_id: self.work_id@,
            subject: self.subject@,
            generation: self.generation,
            message_id: self.message_id@,
            status: self.status,
            delivery_attempts: self.delivery_attempts,
            next_attempt_at: self.next_attempt_at,
            lease_owner: text::optional_text(self.lease_owner),
            lease_expires_at: self.lease_expires_at,
            revision: self.revision,
            last_outcome: self.last_outcome,
            last_error: text::optional_text(self.last_error),
            completed_at: self.completed_at,
            created_at: self.created_at,
            updated_at: self.updated_at,
        }
    }
}

/// A worker asks for work.
#[derive(Debug, PartialEq, Eq)]
pub struct ClaimOutboundDeliveryWork {
    pub worker_id: String,
    pub claimed_at: i64,
    pub lease_expires_at: i64,
}

/// Work that a worker was given, with what it is about.
pub enum ClaimedOutboundDelivery {
    ExecutionCommand {
        work: StoredOutboundDeliveryWork,
        command: StoredExecutionCommand,
        state: ExecutionCommandState,
        correlation_id: Option<CorrelationId>,
        causation_id: Option<CausationId>,
    },
    ReconciliationRequest { work: StoredOutboundDeliveryWork, run: StoredReconciliationRun },
}

impl ClaimedOutboundDelivery {
    /// The work.
    pub fn work(&self) -> (r: &StoredOutboundDeliveryWork)
        ensures
            *r == (match *self {
                ClaimedOutboundDelivery::ExecutionCommand { work, .. } => work,
                ClaimedOutboundDelivery::ReconciliationRequest { work, .. } => work,
            }),
    {
        match self {
            ClaimedOutboundDelivery::ExecutionCommand { work, .. } => work,
            ClaimedOutboundDelivery::ReconciliationRequest { work, .. } => work,
        }
    }
}

/// A worker is done.
#[derive(Debug, PartialEq, Eq)]
pub struct CompleteOutboundDeliveryWork {
    pub work_id: String,
    pub expected_revision: u64,
    pub worker_id: String,
    pub completed_at: i64,
    pub outcome: OutboundDeliveryWorkOutcome,
    pub error: Option<String>,
}

/// A worker failed, and the work is to be tried again.
#[derive(Debug, PartialEq, Eq)]
pub struct RetryOutboundDeliveryWork {
    pub work_id: String,
    pub expected_revision: u64,
    pub worker_id: String,
    pub failed_at: i64,
    pub retry_at: i64,
    pub outcome: OutboundDeliveryWorkOutcome,
    pub error: String,
    /// The next try is under a new message: only where it is certain that
    /// nothing reached the peer.
    pub advance_generation: bool,
}

/// The columns of a piece of work.
pub struct WorkRow {
    pub work_id: String,
    pub command_id: Option<String>,
    pub request_id: Option<String>,
    pub generation: i64,
    pub message_id: String,
    pub status: String,
    pub delivery_attempts: i64,
    pub next_attempt_at: Option<i64>,
    pub lease_owner: Option<String>,
    pub lease_expires_at: Option<i64>,
    pub revision: i64,
    pub last_outcome: Option<String>,
    pub last_error: Option<String>,
    pub completed_at: Option<i64>,
    pub created_at: i64,
    pub updated_at: i64,
}

/// The fault of work that another write has overtaken.
pub open spec fn stale_work_fault(work_id: Seq<char>) -> Fault {
    error::stale_fault("outbound_delivery_work"@, work_id)
}

/// The fault of a request about work that is not in order.
pub open spec fn invalid_work_fault(work_id: Seq<char>, reason: Seq<char>) -> Fault {
    error::invalid_fault("outbound_delivery_work"@, work_id, reason)
}

/// The name of the work about a subject.
pub open spec fn work_name(subject: Subject) -> Seq<char> {
    match subject {
        Subject::ExecutionCommand(id) => "execution.command:"@ + id,
        Subject::ReconciliationRequest(id) => "reconciliation.request:"@ + id,
    }
}

/// The name of the work about a subject.
pub fn work_id(subject: &OutboundDeliveryWorkSubject) -> (r: String)
    ensures
        r@ == work_name(subject@),
{
    match subject {
        OutboundDeliveryWorkSubject::ExecutionCommand(id) => join2(
            "execution.command:",
            id.as_str(),
        ),
        OutboundDeliveryWorkSubject::ReconciliationRequest(id) => join2(
            "reconciliation.request:",
            id.as_str(),
        ),
    }
}

/// The name of the message that brings a subject in a generation.
pub open spec fn message_name(subject: Subject, generation: u64) -> Seq<char> {
    "msg:"@ + work_name(subject) + ":v"@ + text::decimal(generation as nat)
}

/// The name of the message that brings a subject in a generation.
pub fn outbound_delivery_message_id(subject: &OutboundDeliveryWorkSubject, generation: u64) -> (r:
    MessageId)
    ensures
        r@ == message_name(subject@, generation),
{
    let mut out = join3("msg:", work_id(subject).as_str(), ":v");
    append_decimal(&mut out, generation);
    out
}

/// The columns that say what work is about.
pub fn subject_columns(subject: &OutboundDeliveryWorkSubject) -> (r: (
    Option<&str>,
    Option<&str>,
))
    ensures
        match (r, subject@) {
            ((Some(id), None), Subject::ExecutionCommand(named)) => id@ == named,
            ((None, Some(id)), Subject::ReconciliationRequest(named)) => id@ == named,
            _ => false,
        },
{
    match subject {
        OutboundDeliveryWorkSubject::ExecutionCommand(id) => (Some(id.as_str()), None),
        OutboundDeliveryWorkSubject::ReconciliationRequest(id) => (None, Some(id.as_str())),
    }
}

/// What is wrong with a stored count.
pub open spec fn work_count_fault(field: Seq<char>, value: i64) -> Option<Fault> {
    if value < 0 {
        Some(
            error::corrupt_fault(field, text::signed_decimal(value as int), "negative value"@),
        )
    } else {
        None
    }
}

fn i64_to_u64(field: &'static str, value: i64) -> (r: Result<u64, StoreError>)
    ensures
        error::fault(r) == work_count_fault(field@, value),
        r matches Ok(count) ==> count == value,
{
    if value < 0 {
        Err(
            StoreError::corrupt(field, signed_decimal_text(value).as_str(), "negative value"),
        )
    } else {
        Ok(value as u64)
    }
}

/// What is wrong with the text of an outcome.
pub open spec fn outcome_fault(work_id: Seq<char>, raw: Seq<char>) -> Option<Fault> {
    if OutboundDeliveryWorkOutcome::named(raw) is Some {
        None
    } else {
        Some(
            error::corrupt_fault("outbound_delivery_work"@, work_id, "unknown outcome "@ + raw),
        )
    }
}

/// Reads an outcome.
pub fn parse_outcome(work_id: &str, value: &str) -> (r: Result<
    OutboundDeliveryWorkOutcome,
    StoreError,
>)
    ensures
        error::fault(r) == outcome_fault(work_id@, value@),
        r matches Ok(outcome) ==> OutboundDeliveryWorkOutcome::named(value@) == Some(outcome),
{
    match OutboundDeliveryWorkOutcome::parse(value) {
        Some(outcome) => Ok(outcome),
        None => {
            let reason = join2("unknown outcome ", value);
            Err(StoreError::corrupt("outbound_delivery_work", work_id, reason.as_str()))
        },
    }
}

/// What a row is about, if it is about just one thing.
pub open spec fn row_subject(row: WorkRow) -> Option<Subject> {
    match (row.command_id, row.request_id) {
        (Some(id), None) => Some(Subject::ExecutionCommand(id@)),
        (None, Some(id)) => Some(Subject::ReconciliationRequest(id@)),
        _ => None,
    }
}

/// What is wrong with a stored piece of work.
pub open spec fn work_row_fault(row: WorkRow) -> Option<Fault> {
    let id = row.work_id@;
    let f = if row_subject(row) is None {
        Some(
            error::corrupt_fault(
                "outbound_delivery_work"@,
                id,
                "work must reference exactly one delivery subject"@,
            ),
        )
    } else {
        None
    };
    let f = error::first_of(
        f,
        if OutboundDeliveryWorkStatus::named(row.status@) is Some {
            None
        } else {
            Some(
                error::corrupt_fault(
                    "outbound_delivery_work"@,
                    id,
                    "unknown status "@ + row.status@,
                ),
            )
        },
    );
    let f = error::first_of(
        f,
        match row.last_outcome {
            Some(raw) => outcome_fault(id, raw@),
            None => None,
        },
    );
    let f = error::first_of(
        f,
        work_count_fault("outbound_delivery_work.generation"@, row.generation),
    );
    let f = error::first_of(
        f,
        work_count_fault("outbound_delivery_work.delivery_attempts"@, row.delivery_attempts),
    );
    let f = error::first_of(f, work_count_fault("outbound_delivery_work.revision"@, row.revision));
    error::first_of(
        f,
        if row.message_id@ == message_name(row_subject(row)->0, row.generation as u64) {
            None
        } else {
            Some(message_mismatch_fault(id))
        },
    )
}

/// The fault of work whose message is not named after it.
pub open spec fn message_mismatch_fault(work_id: Seq<char>) -> Fault {
    error::corrupt_fault(
        "outbound_delivery_work"@,
        work_id,
        "message_id does not match subject and generation"@,
    )
}

/// The work that a row holds.
pub open spec fn read_work(row: WorkRow) -> Work {
    Work {
        work_id: row.work_id@,
        subject: row_subject(row)->0,
        generation: row.generation as u64,
        message_id: row.message_id@,
        status: OutboundDeliveryWorkStatus::named(row.status@)->0,
        delivery_attempts: row.delivery_attempts as u64,
        next_attempt_at: row.next_attempt_at,
        lease_owner: text::optional_text(row.lease_owner),
        lease_expires_at: row.lease_expires_at,
        revision: row.revision as u64,
        last_outcome: match row.last_outcome {
            Some(raw) => OutboundDeliveryWorkOutcome::named(raw@),
            None => None,
        },
        last_error: text::optional_text(row.last_error),
        completed_at: row.completed_at,
        created_at: row.created_at,
        updated_at: row.updated_at,
    }
}

/// Refuses work whose message is not named after it.
pub fn validate_work_message_id(work: &StoredOutboundDeliveryWork) -> (r: Result<(), StoreError>)
    ensures
        error::fault(r) == (if work.message_id@ == message_name(work.subject@, work.generation) {
            None
        } else {
            Some(message_mismatch_fault(work.work_id@))
        }),
{
    let expected = outbound_delivery_message_id(&work.subject, work.generation);
    if same_text(work.message_id.as_str(), expected.as_str()) {
        Ok(())
    } else {
        Err(
            StoreError::corrupt(
                "outbound_delivery_work",
                work.work_id.as_str(),
                "message_id does not match subject and generation",
            ),
        )
    }
}

/// Reads a piece of work.
pub fn work_from_row(row: &WorkRow) -> (r: Result<StoredOutboundDeliveryWork, StoreError>)
    ensures
        error::fault(r) == work_row_fault(*row),
        r matches Ok(work) ==> work@ == read_work(*row),
{
    let work_id = row.work_id.as_str();
    let subject = match (&row.command_id, &row.request_id) {
        (Some(id), None) => OutboundDeliveryWorkSubject::ExecutionCommand(id.clone()),
        (None, Some(id)) => OutboundDeliveryWorkSubject::ReconciliationRequest(id.clone()),
        _ => {
            return Err(
                StoreError::corrupt(
                    "outbound_delivery_work",
                    work_id,
                    "work must reference exactly one delivery subject",
                ),
            );
        },
    };
    let status = match OutboundDeliveryWorkStatus::parse(row.status.as_str()) {
        Some(status) => status,
        None => {
            let reason = join2("unknown status ", row.status.as_str());
            return Err(
                StoreError::corrupt("outbound_delivery_work", work_id, reason.as_str()),
            );
        },
    };
    let last_outcome = match &row.last_outcome {
        Some(raw) => {
            let outcome = parse_outcome(work_id, raw.as_str())?;
            Some(outcome)
        },
        None => None,
    };
    let generation: u64 = i64_to_u64("outbound_delivery_work.generation", row.generation)?;
    let delivery_attempts: u64 = i64_to_u64(
        "outbound_delivery_work.delivery_attempts",
        row.delivery_attempts,
    )?;
    let revision: u64 = i64_to_u64("outbound_delivery_work.revision", row.revision)?;
    let work = StoredOutboundDeliveryWork {
        work_id: row.work_id.clone(),
        subject,
        generation,
        message_id: row.message_id.clone(),
        status,
        delivery_attempts,
        next_attempt_at: row.next_attempt_at,
        lease_owner: copy_optional(&row.lease_owner),
        lease_expires_at: row.lease_expires_at,
        revision,
        last_outcome,
        last_error: copy_optional(&row.last_error),
        completed_at: row.completed_at,
        created_at: row.created_at,
        updated_at: row.updated_at,
    };
    validate_work_message_id(&work)?;
    Ok(work)
}

/// What is wrong with a claim.
pub open spec fn claim_fault(claim: ClaimOutboundDeliveryWork) -> Option<Fault> {
    if text::blank(claim.worker_id@) || claim.claimed_at < 0 || claim.lease_expires_at
        <= claim.claimed_at {
        Some(
            invalid_work_fault(
                claim.worker_id@,
                "claim requires a non-empty owner and a future lease"@,
            ),
        )
    } else {
        None
    }
}

/// Refuses a claim that is not in order.
pub fn validate_claim(claim: &ClaimOutboundDeliveryWork) -> (r: Result<(), StoreError>)
    ensures
        error::fault(r) == claim_fault(*claim),
{
    if is_blank(claim.worker_id.as_str()) || claim.claimed_at < 0 || claim.lease_expires_at
        <= claim.claimed_at {
        return Err(
            StoreError::invalid(
                "outbound_delivery_work",
                claim.worker_id.as_str(),
                "claim requires a non-empty owner and a future lease",
            ),
        );
    }
    Ok(())
}

/// Something that can be given to a worker: work that waits or was abandoned,
/// or a subject that there is no work for yet.
pub struct WorkCandidate {
    pub fresh: bool,
    pub due_at: i64,
    pub subject: OutboundDeliveryWorkSubject,
}

/// A [`WorkCandidate`], over mathematical texts.
pub struct Candidate {
    pub fresh: bool,
    pub due_at: i64,
    pub subject: Subject,
}

impl View for WorkCandidate {
    type V = Candidate;

    open spec fn view(&self) -> Candidate {
        Candidate { fresh: self.fresh, due_at: self.due_at, subject: self.subject@ }
    }
}

/// A command, as far as scheduling is concerned.
pub struct DueCommand {
    pub command_id: CommandId,
    pub created_at: i64,
    pub status: String,
}

/// A reconciliation request, as far as scheduling is concerned.
pub struct DueRequest {
    pub request_id: RequestId,
    pub requested_at: i64,
    pub status: String,
}

/// Subjects, by kind and then by name.
pub open spec fn subject_before(a: Subject, b: Subject) -> bool {
    match (a, b) {
        (Subject::ExecutionCommand(a), Subject::ExecutionCommand(b)) => text::precedes(a, b),
        (Subject::ReconciliationRequest(a), Subject::ReconciliationRequest(b)) => text::precedes(
            a,
            b,
        ),
        (Subject::ExecutionCommand(_), Subject::ReconciliationRequest(_)) => true,
        (Subject::ReconciliationRequest(_), Subject::ExecutionCommand(_)) => false,
    }
}

/// One candidate is served before another: work that exists comes first, then
/// what is due longer.
pub open spec fn served_before(a: Candidate, b: Candidate) -> bool {
    if a.fresh != b.fresh {
        b.fresh
    } else if a.due_at != b.due_at {
        a.due_at < b.due_at
    } else {
        subject_before(a.subject, b.subject)
    }
}

fn is_served_before(a: &WorkCandidate, b: &WorkCandidate) -> (r: bool)
    ensures
        r == served_before(a@, b@),
{
    if a.fresh != b.fresh {
        return b.fresh;
    }
    if a.due_at != b.due_at {
        return a.due_at < b.due_at;
    }
    match (&a.subject, &b.subject) {
        (
            OutboundDeliveryWorkSubject::ExecutionCommand(left),
            OutboundDeliveryWorkSubject::ExecutionCommand(right),
        ) => text_precedes(left.as_str(), right.as_str()),
        (
            OutboundDeliveryWorkSubject::ReconciliationRequest(left),
            OutboundDeliveryWorkSubject::ReconciliationRequest(right),
        ) => text_precedes(left.as_str(), right.as_str()),
        (OutboundDeliveryWorkSubject::ExecutionCommand(_), _) => true,
        _ => false,
    }
}

/// Work waits for its time, which has come, or was abandoned.
pub open spec fn is_due(
    status: Seq<char>,
    next_attempt_at: Option<i64>,
    lease_expires_at: Option<i64>,
    at: i64,
) -> bool {
    ||| status == "PENDING"@ && (next_attempt_at matches Some(time) && time <= at)
    ||| status == "PROCESSING"@ && (lease_expires_at matches Some(time) && time <= at)
}

fn due(status: &str, next_attempt_at: Option<i64>, lease_expires_at: Option<i64>, at: i64) -> (r:
    bool)
    ensures
        r == is_due(status@, next_attempt_at, lease_expires_at, at),
{
    let waited = match next_attempt_at {
        Some(time) => time <= at,
        None => false,
    };
    let abandoned = match lease_expires_at {
        Some(time) => time <= at,
        None => false,
    };
    (same_text(status, "PENDING") && waited) || (same_text(status, "PROCESSING") && abandoned)
}

/// The candidate that a row is: the command comes before the request where a
/// row should name both, and a row that names neither stands for the request
/// with the empty name.
pub open spec fn candidate_of(row: WorkRow) -> Candidate {
    Candidate {
        fresh: false,
        due_at: row.created_at,
        subject: match (row.command_id, row.request_id) {
            (Some(id), _) => Subject::ExecutionCommand(id@),
            (None, Some(id)) => Subject::ReconciliationRequest(id@),
            (None, None) => Subject::ReconciliationRequest(Seq::empty()),
        },
    }
}

/// The work that can be given out.
pub open spec fn waiting(works: Seq<WorkRow>, at: i64) -> Seq<Candidate>
    decreases works.len(),
{
    if works.len() == 0 {
        Seq::empty()
    } else {
        let before = waiting(works.drop_last(), at);
        let row = works.last();
        if is_due(row.status@, row.next_attempt_at, row.lease_expires_at, at) {
            before.push(candidate_of(row))
        } else {
            before
        }
    }
}

/// Some work is about the command.
pub open spec fn command_has_work(works: Seq<WorkRow>, command_id: Seq<char>) -> bool {
    exists|i: int|
        0 <= i < works.len() && text::optional_text((#[trigger] works[i]).command_id) == Some(
            command_id,
        )
}

/// Some work is about the request.
pub open spec fn request_has_work(works: Seq<WorkRow>, request_id: Seq<char>) -> bool {
    exists|i: int|
        0 <= i < works.len() && text::optional_text((#[trigger] works[i]).request_id) == Some(
            request_id,
        )
}

/// The new commands that there is no work for.
pub open spec fn new_commands(commands: Seq<DueCommand>, works: Seq<WorkRow>) -> Seq<Candidate>
    decreases commands.len(),
{
    if commands.len() == 0 {
        Seq::empty()
    } else {
        let before = new_commands(commands.drop_last(), works);
        let command = commands.last();
        if command.status@ == "CREATED"@ && !command_has_work(works, command.command_id@) {
            before.push(
                Candidate {
                    fresh: true,
                    due_at: command.created_at,
                    subject: Subject::ExecutionCommand(command.command_id@),
                },
            )
        } else {
            before
        }
    }
}

/// The new requests that there is no work for.
pub open spec fn new_requests(requests: Seq<DueRequest>, works: Seq<WorkRow>) -> Seq<Candidate>
    decreases requests.len(),
{
    if requests.len() == 0 {
        Seq::empty()
    } else {
        let before = new_requests(requests.drop_last(), works);
        let request = requests.last();
        if request.status@ == "REQUESTED"@ && !request_has_work(works, request.request_id@) {
            before.push(
                Candidate {
                    fresh: true,
                    due_at: request.requested_at,
                    subject: Subject::ReconciliationRequest(request.request_id@),
                },
            )
        } else {
            before
        }
    }
}

/// Everything that can be given to a worker.
pub open spec fn candidates(
    works: Seq<WorkRow>,
    commands: Seq<DueCommand>,
    requests: Seq<DueRequest>,
    at: i64,
) -> Seq<Candidate> {
    waiting(works, at) + new_commands(commands, works) + new_requests(requests, works)
}

/// The first to be served.
pub open spec fn first_served(list: Seq<Candidate>) -> Option<Candidate>
    decreases list.len(),
{
    if list.len() == 0 {
        None
    } else {
        match first_served(list.drop_last()) {
            None => Some(list.last()),
            Some(best) => if served_before(list.last(), best) {
                Some(list.last())
            } else {
                Some(best)
            },
        }
    }
}

/// Offers a candidate beside the best so far.
fn offer(Ghost(list): Ghost<Seq<Candidate>>, best: Option<WorkCandidate>, next: WorkCandidate) -> (r:
    Option<WorkCandidate>)
    requires
        same_candidate(best, first_served(list)),
    ensures
        same_candidate(r, first_served(list.push(next@))),
{
    assert(list.push(next@).drop_last() =~= list);
    match best {
        None => Some(next),
        Some(best) => {
            if is_served_before(&next, &best) {
                Some(next)
            } else {
                Some(best)
            }
        },
    }
}

/// The candidate is the one that is meant.
pub open spec fn same_candidate(found: Option<WorkCandidate>, meant: Option<Candidate>) -> bool {
    match (found, meant) {
        (Some(found), Some(meant)) => found@ == meant,
        (None, None) => true,
        _ => false,
    }
}

fn has_work_for_command(works: &Vec<WorkRow>, command_id: &str) -> (r: bool)
    ensures
        r == command_has_work(works@, command_id@),
{
    let mut i: usize = 0;
    while i < works.len()
        invariant
            i <= works.len(),
            forall|j: int|
                0 <= j < i ==> text::optional_text((#[trigger] works@[j]).command_id) != Some(
                    command_id@,
                ),
        decreases works.len() - i,
    {
        if optional_is(&works[i].command_id, command_id) {
            return true;
        }
        i = i + 1;
    }
    false
}

fn has_work_for_request(works: &Vec<WorkRow>, request_id: &str) -> (r: bool)
    ensures
        r == request_has_work(works@, request_id@),
{
    let mut i: usize = 0;
    while i < works.len()
        invariant
            i <= works.len(),
            forall|j: int|
                0 <= j < i ==> text::optional_text((#[trigger] works@[j]).request_id) != Some(
                    request_id@,
                ),
        decreases works.len() - i,
    {
        if optional_is(&works[i].request_id, request_id) {
            return true;
        }
        i = i + 1;
    }
    false
}

/// Picks what a worker is given.
pub fn next_candidate(
    works: &Vec<WorkRow>,
    commands: &Vec<DueCommand>,
    requests: &Vec<DueRequest>,
    at: i64,
) -> (r: Option<WorkCandidate>)
    ensures
        same_candidate(r, first_served(candidates(works@, commands@, requests@, at))),
{
    let mut best: Option<WorkCandidate> = None;
    let mut i: usize = 0;
    while i < works.len()
        invariant
            i <= works.len(),
            same_candidate(best, first_served(waiting(works@.take(i as int), at))),
        decreases works.len() - i,
    {
        let ghost shorter = waiting(works@.take(i as int), at);
        assert(works@.take(i + 1).drop_last() =~= works@.take(i as int));
        let row = &works[i];
        if due(row.status.as_str(), row.next_attempt_at, row.lease_expires_at, at) {
            let subject = match (&row.command_id, &row.request_id) {
                (Some(id), _) => OutboundDeliveryWorkSubject::ExecutionCommand(id.clone()),
                (None, Some(id)) => OutboundDeliveryWorkSubject::ReconciliationRequest(id.clone()),
                (None, None) => OutboundDeliveryWorkSubject::ReconciliationRequest(String::new()),
            };
            let next = WorkCandidate { fresh: false, due_at: row.created_at, subject };
            assert(candidate_of(*row) == next@);
            best = offer(Ghost(shorter), best, next);
        }
        i = i + 1;
    }
    assert(works@.take(i as int) =~= works@);
    let ghost first = waiting(works@, at);
    assert(first + new_commands(commands@.take(0), works@) =~= first);
    let mut k: usize = 0;
    while k < commands.len()
        invariant
            k <= commands.len(),
            first == waiting(works@, at),
            same_candidate(
                best,
                first_served(first + new_commands(commands@.take(k as int), works@)),
            ),
        decreases commands.len() - k,
    {
        let ghost shorter = first + new_commands(commands@.take(k as int), works@);
        assert(commands@.take(k + 1).drop_last() =~= commands@.take(k as int));
        let command = &commands[k];
        if same_text(command.status.as_str(), "CREATED") && !has_work_for_command(
            works,
            command.command_id.as_str(),
        ) {
            let next = WorkCandidate {
                fresh: true,
                due_at: command.created_at,
                subject: OutboundDeliveryWorkSubject::ExecutionCommand(
                    command.command_id.clone(),
                ),
            };
            assert(first + new_commands(commands@.take(k + 1), works@) =~= shorter.push(next@));
            best = offer(Ghost(shorter), best, next);
        }
        k = k + 1;
    }
    assert(commands@.take(k as int) =~= commands@);
    let ghost second = first + new_commands(commands@, works@);
    assert(second + new_requests(requests@.take(0), works@) =~= second);
    let mut m: usize = 0;
    while m < requests.len()
        invariant
            m <= requests.len(),
            same_candidate(
                best,
                first_served(second + new_requests(requests@.take(m as int), works@)),
            ),
        decreases requests.len() - m,
    {
        let ghost shorter = second + new_requests(requests@.take(m as int), works@);
        assert(requests@.take(m + 1).drop_last() =~= requests@.take(m as int));
        let request = &requests[m];
        if same_text(request.status.as_str(), "REQUESTED") && !has_work_for_request(
            works,
            request.request_id.as_str(),
        ) {
            let next = WorkCandidate {
                fresh: true,
                due_at: request.requested_at,
                subject: OutboundDeliveryWorkSubject::ReconciliationRequest(
                    request.request_id.clone(),
                ),
            };
            assert(second + new_requests(requests@.take(m + 1), works@) =~= shorter.push(next@));
            best = offer(Ghost(shorter), best, next);
        }
        m = m + 1;
    }
    assert(requests@.take(m as int) =~= requests@);
    best
}

/// The work that a subject starts with.
pub open spec fn first_work(subject: Subject, at: i64) -> Work {
    Work {
        work_id: work_name(subject),
        subject,
        generation: 1,
        message_id: message_name(subject, 1),
        status: OutboundDeliveryWorkStatus::Pending,
        delivery_attempts: 0,
        next_attempt_at: Some(at),
        lease_owner: None,
        lease_expires_at: None,
        revision: 0,
        last_outcome: None,
        last_error: None,
        completed_at: None,
        created_at: at,
        updated_at: at,
    }
}

/// The work that a subject starts with.
pub fn new_work(subject: &OutboundDeliveryWorkSubject, at: i64) -> (r: StoredOutboundDeliveryWork)
    ensures
        r@ == first_work(subject@, at),
{
    StoredOutboundDeliveryWork {
        work_id: work_id(subject),
        subject: subject.clone(),
        generation: 1,
        message_id: outbound_delivery_message_id(subject, 1),
        status: OutboundDeliveryWorkStatus::Pending,
        delivery_attempts: 0,
        next_attempt_at: Some(at),
        lease_owner: None,
        lease_expires_at: None,
        revision: 0,
        last_outcome: None,
        last_error: None,
        completed_at: None,
        created_at: at,
        updated_at: at,
    }
}

/// What is wrong with counting one further.
pub open spec fn overflow_fault(field: Seq<char>, value: u64) -> Option<Fault> {
    if value == u64::MAX {
        Some(Fault::InvalidInteger { field, value: value as nat })
    } else {
        None
    }
}

fn plus_one(field: &'static str, value: u64) -> (r: Result<u64, StoreError>)
    ensures
        error::fault(r) == overflow_fault(field@, value),
        r matches Ok(next) ==> next == value + 1,
{
    if value == u64::MAX {
        Err(StoreError::InvalidInteger { field, value })
    } else {
        Ok(value + 1)
    }
}

/// What is wrong with giving work to a worker.
pub open spec fn lease_fault(work: Work, at: i64) -> Option<Fault> {
    let attempts = "outbound_delivery_work.delivery_attempts"@;
    let revision = "outbound_delivery_work.revision"@;
    let f = if work.message_id == message_name(work.subject, work.generation) {
        None
    } else {
        Some(message_mismatch_fault(work.work_id))
    };
    let f = error::first_of(f, overflow_fault(revision, work.revision));
    let f = error::first_of(f, overflow_fault(attempts, work.delivery_attempts));
    let f = error::first_of(
        f,
        numbers::stored_integer_fault(attempts, (work.delivery_attempts + 1) as nat),
    );
    let f = error::first_of(
        f,
        numbers::stored_integer_fault(revision, (work.revision + 1) as nat),
    );
    error::first_of(
        f,
        if is_due(work.status.name(), work.next_attempt_at, work.lease_expires_at, at) {
            None
        } else {
            Some(stale_work_fault(work.work_id))
        },
    )
}

/// The work once it was given to a worker.
pub open spec fn leased(work: Work, claim: ClaimOutboundDeliveryWork) -> Work {
    Work {
        status: OutboundDeliveryWorkStatus::Processing,
        delivery_attempts: (work.delivery_attempts + 1) as u64,
        next_attempt_at: None,
        lease_owner: Some(claim.worker_id@),
        lease_expires_at: Some(claim.lease_expires_at),
        revision: (work.revision + 1) as u64,
        updated_at: claim.claimed_at,
        ..work
    }
}

/// Gives work to a worker.
pub fn lease_work(work: StoredOutboundDeliveryWork, claim: &ClaimOutboundDeliveryWork) -> (r: Result<
    StoredOutboundDeliveryWork,
    StoreError,
>)
    ensures
        error::fault(r) == lease_fault(work@, claim.claimed_at),
        r matches Ok(given) ==> given@ == leased(work@, *claim),
{
    validate_work_message_id(&work)?;
    let revision: u64 = plus_one("outbound_delivery_work.revision", work.revision)?;
    let delivery_attempts: u64 = plus_one(
        "outbound_delivery_work.delivery_attempts",
        work.delivery_attempts,
    )?;
    u64_to_i64("outbound_delivery_work.delivery_attempts", delivery_attempts)?;
    u64_to_i64("outbound_delivery_work.revision", revision)?;
    if !due(
        work.status.as_str(),
        work.next_attempt_at,
        work.lease_expires_at,
        claim.claimed_at,
    ) {
        return Err(StoreError::stale("outbound_delivery_work", work.work_id.as_str()));
    }
    Ok(
        StoredOutboundDeliveryWork {
            status: OutboundDeliveryWorkStatus::Processing,
            delivery_attempts,
            next_attempt_at: None,
            lease_owner: Some(claim.worker_id.clone()),
            lease_expires_at: Some(claim.lease_expires_at),
            revision,
            updated_at: claim.claimed_at,
            ..work
        },
    )
}

/// The row of some work.
pub open spec fn row_of(works: Seq<WorkRow>, work_id: Seq<char>) -> Option<WorkRow>
    decreases works.len(),
{
    if works.len() == 0 {
        None
    } else if row_of(works.drop_last(), work_id) is Some {
        row_of(works.drop_last(), work_id)
    } else if works.last().work_id@ == work_id {
        Some(works.last())
    } else {
        None
    }
}

proof fn row_in_prefix(works: Seq<WorkRow>, work_id: Seq<char>, n: int)
    requires
        0 <= n <= works.len(),
        row_of(works.take(n), work_id) is Some,
    ensures
        row_of(works, work_id) == row_of(works.take(n), work_id),
    decreases works.len(),
{
    if n < works.len() {
        assert(works.drop_last().take(n) =~= works.take(n));
        row_in_prefix(works.drop_last(), work_id, n);
    } else {
        assert(works.take(n) =~= works);
    }
}

fn find_row<'a>(works: &'a Vec<WorkRow>, work_id: &str) -> (r: Option<&'a WorkRow>)
    ensures
        match (r, row_of(works@, work_id@)) {
            (Some(found), Some(row)) => *found == row,
            (None, None) => true,
            _ => false,
        },
{
    let mut i: usize = 0;
    while i < works.len()
        invariant
            i <= works.len(),
            row_of(works@.take(i as int), work_id@) is None,
        decreases works.len() - i,
    {
        assert(works@.take(i + 1).drop_last() =~= works@.take(i as int));
        if same_text(works[i].work_id.as_str(), work_id) {
            proof {
                row_in_prefix(works@, work_id@, i + 1);
            }
            return Some(&works[i]);
        }
        i = i + 1;
    }
    assert(works@.take(i as int) =~= works@);
    None
}

/// A worker was given work.
pub struct LeasedWork {
    /// The work was begun just now.
    pub begun: bool,
    pub work: StoredOutboundDeliveryWork,
}

/// What is wrong with giving a worker the work about a subject.
pub open spec fn give_fault(works: Seq<WorkRow>, subject: Subject, at: i64) -> Option<Fault> {
    match row_of(works, work_name(subject)) {
        None => lease_fault(first_work(subject, at), at),
        Some(row) => error::first_of(work_row_fault(row), lease_fault(read_work(row), at)),
    }
}

/// What is wrong with giving a worker the next work.
pub open spec fn next_fault(
    works: Seq<WorkRow>,
    commands: Seq<DueCommand>,
    requests: Seq<DueRequest>,
    claim: ClaimOutboundDeliveryWork,
) -> Option<Fault> {
    error::first_of(
        claim_fault(claim),
        match first_served(candidates(works, commands, requests, claim.claimed_at)) {
            None => None,
            Some(candidate) => give_fault(works, candidate.subject, claim.claimed_at),
        },
    )
}

/// The work about a subject, begun if there is none.
pub open spec fn work_about(works: Seq<WorkRow>, subject: Subject, at: i64) -> Work {
    match row_of(works, work_name(subject)) {
        None => first_work(subject, at),
        Some(row) => read_work(row),
    }
}

/// Gives a worker the next work: what was abandoned or waits first, and then
/// commands and requests that nothing was done for.
pub fn claim_next_outbound_delivery(
    works: &Vec<WorkRow>,
    commands: &Vec<DueCommand>,
    requests: &Vec<DueRequest>,
    claim: &ClaimOutboundDeliveryWork,
) -> (r: Result<Option<LeasedWork>, StoreError>)
    ensures
        error::fault(r) == next_fault(works@, commands@, requests@, *claim),
        r matches Ok(given) ==> match (
            given,
            first_served(candidates(works@, commands@, requests@, claim.claimed_at)),
        ) {
            (None, None) => true,
            (Some(given), Some(candidate)) => {
                &&& given.work@ == leased(
                    work_about(works@, candidate.subject, claim.claimed_at),
                    *claim,
                )
                &&& given.begun == (row_of(works@, work_name(candidate.subject)) is None)
            },
            _ => false,
        },
{
    validate_claim(claim)?;
    let candidate = match next_candidate(works, commands, requests, claim.claimed_at) {
        Some(candidate) => candidate,
        None => {
            return Ok(None);
        },
    };
    let name = work_id(&candidate.subject);
    let (begun, current) = match find_row(works, name.as_str()) {
        Some(row) => {
            let current = work_from_row(row)?;
            (false, current)
        },
        None => (true, new_work(&candidate.subject, claim.claimed_at)),
    };
    let work = lease_work(current, claim)?;
    Ok(Some(LeasedWork { begun, work }))
}

/// What is wrong with finding out why a command is sent.
pub open spec fn context_fault(
    command: ExecutionCommand,
    plan_intent: Option<IntentId>,
    intent: Option<StoredTradeIntent>,
) -> Option<Fault> {
    match command.plan_id {
        None => None,
        Some(plan_id) => match plan_intent {
            None => Some(
                error::corrupt_fault(
                    "execution_command"@,
                    command.command_id@,
                    "parent plan "@ + plan_id@ + " has no trade intent"@,
                ),
            ),
            Some(intent_id) => if intent is None {
                Some(
                    error::corrupt_fault(
                        "execution_command"@,
                        command.command_id@,
                        "parent plan "@ + plan_id@ + " references missing intent "@ + intent_id@,
                    ),
                )
            } else {
                None
            },
        },
    }
}

/// Tells why a command is sent: what its intent belongs to, and the intent.
/// `plan_intent` is the intent that the plan of the command names, and `intent`
/// that intent.
pub fn command_envelope_context(
    command: &ExecutionCommand,
    plan_intent: &Option<IntentId>,
    intent: &Option<StoredTradeIntent>,
) -> (r: Result<(Option<CorrelationId>, Option<CausationId>), StoreError>)
    ensures
        error::fault(r) == context_fault(*command, *plan_intent, *intent),
        r matches Ok((correlation_id, causation_id)) ==> if command.plan_id is None {
            correlation_id is None && causation_id is None
        } else {
            &&& correlation_id == Some((intent->0).intent.correlation_id)
            &&& causation_id == Some((intent->0).intent.intent_id)
        },
{
    let plan_id = match &command.plan_id {
        Some(plan_id) => plan_id,
        None => {
            return Ok((None, None));
        },
    };
    let intent_id = match plan_intent {
        Some(intent_id) => intent_id,
        None => {
            let reason = join3("parent plan ", plan_id.as_str(), " has no trade intent");
            return Err(
                StoreError::corrupt(
                    "execution_command",
                    command.command_id.as_str(),
                    reason.as_str(),
                ),
            );
        },
    };
    match intent {
        Some(intent) => Ok(
            (Some(intent.intent.correlation_id.clone()), Some(intent.intent.intent_id.clone())),
        ),
        None => {
            let reason = join4(
                "parent plan ",
                plan_id.as_str(),
                " references missing intent ",
                intent_id.as_str(),
            );
            Err(
                StoreError::corrupt(
                    "execution_command",
                    command.command_id.as_str(),
                    reason.as_str(),
                ),
            )
        },
    }
}

/// Puts work about a command together with the command.
pub fn claimed_command(
    work: StoredOutboundDeliveryWork,
    command_id: &CommandId,
    command: Option<StoredExecutionCommand>,
    state: Option<ExecutionCommandState>,
    plan_intent: &Option<IntentId>,
    intent: &Option<StoredTradeIntent>,
) -> (r: Result<ClaimedOutboundDelivery, StoreError>)
    ensures
        error::fault(r) == (match (command, state) {
            (None, _) => Some(error::missing_fault("execution_command"@, command_id@)),
            (Some(_), None) => Some(
                error::missing_fault("execution_command_state"@, command_id@),
            ),
            (Some(found), Some(_)) => context_fault(found.command, *plan_intent, *intent),
        }),
        r matches Ok(claimed) ==> claimed matches ClaimedOutboundDelivery::ExecutionCommand {
            work: given,
            command: found,
            state: reached,
            correlation_id,
            causation_id,
        } && given == work && Some(found) == command && Some(reached) == state && (
        if found.command.plan_id is None {
            correlation_id is None && causation_id is None
        } else {
            &&& correlation_id == Some((intent->0).intent.correlation_id)
            &&& causation_id == Some((intent->0).intent.intent_id)
        }),
{
    let command = match command {
        Some(command) => command,
        None => {
            return Err(StoreError::missing("execution_command", command_id.as_str()));
        },
    };
    let state = match state {
        Some(state) => state,
        None => {
            return Err(StoreError::missing("execution_command_state", command_id.as_str()));
        },
    };
    let (correlation_id, causation_id) = command_envelope_context(
        &command.command,
        plan_intent,
        intent,
    )?;
    Ok(
        ClaimedOutboundDelivery::ExecutionCommand {
            work,
            command,
            state,
            correlation_id,
            causation_id,
        },
    )
}

/// Puts work about a reconciliation request together with its run.
pub fn claimed_request(
    work: StoredOutboundDeliveryWork,
    request_id: &RequestId,
    run: Option<StoredReconciliationRun>,
) -> (r: Result<ClaimedOutboundDelivery, StoreError>)
    ensures
        error::fault(r) == (if run is None {
            Some(error::missing_fault("reconciliation_run"@, request_id@))
        } else {
            None
        }),
        r matches Ok(claimed) ==> run matches Some(found) && claimed
            == (ClaimedOutboundDelivery::ReconciliationRequest { work, run: found }),
{
    match run {
        Some(run) => Ok(ClaimedOutboundDelivery::ReconciliationRequest { work, run }),
        None => Err(StoreError::missing("reconciliation_run", request_id.as_str())),
    }
}

/// What is wrong with the error that comes with an outcome.
pub open spec fn outcome_error_fault(
    outcome: OutboundDeliveryWorkOutcome,
    error: Option<Seq<char>>,
    work_id: Seq<char>,
) -> Option<Fault> {
    if outcome is Unconfirmed && (error matches Some(text) ==> text::blank(text)) {
        Some(invalid_work_fault(work_id, "unconfirmed delivery requires an error"@))
    } else if error matches Some(text) && text::blank(text) {
        Some(invalid_work_fault(work_id, "delivery error must not be empty"@))
    } else {
        None
    }
}

/// Refuses an outcome whose error is missing or empty.
pub fn validate_error(
    outcome: OutboundDeliveryWorkOutcome,
    error: &Option<String>,
    work_id: &str,
) -> (r: Result<(), StoreError>)
    ensures
        error::fault(r) == outcome_error_fault(outcome, text::optional_text(*error), work_id@),
{
    let blank = optional_is_blank(error);
    if outcome == OutboundDeliveryWorkOutcome::Unconfirmed && (error.is_none() || blank) {
        return Err(
            StoreError::invalid(
                "outbound_delivery_work",
                work_id,
                "unconfirmed delivery requires an error",
            ),
        );
    }
    if blank {
        return Err(
            StoreError::invalid(
                "outbound_delivery_work",
                work_id,
                "delivery error must not be empty",
            ),
        );
    }
    Ok(())
}

/// The worker holds the work at a time.
pub open spec fn holds(work: Work, revision: u64, worker_id: Seq<char>, at: i64) -> bool {
    &&& work.status is Processing
    &&& work.revision == revision
    &&& work.lease_owner == Some(worker_id)
    &&& work.updated_at <= at
    &&& work.lease_expires_at matches Some(until) && until > at
}

/// What is wrong with finishing work that is not held.
pub open spec fn owned_fault(
    current: Option<StoredOutboundDeliveryWork>,
    work_id: Seq<char>,
    revision: u64,
    worker_id: Seq<char>,
    at: i64,
) -> Option<Fault> {
    if text::blank(worker_id) || at < 0 {
        Some(invalid_work_fault(work_id, "invalid owner or completion timestamp"@))
    } else {
        match current {
            None => Some(error::missing_fault("outbound_delivery_work"@, work_id)),
            Some(work) => if holds(work@, revision, worker_id, at) {
                None
            } else {
                Some(stale_work_fault(work_id))
            },
        }
    }
}

/// The work, if the worker holds it.
pub fn validate_owned_work(
    current: Option<StoredOutboundDeliveryWork>,
    work_id: &str,
    expected_revision: u64,
    worker_id: &str,
    finished_at: i64,
) -> (r: Result<StoredOutboundDeliveryWork, StoreError>)
    ensures
        error::fault(r) == owned_fault(
            current,
            work_id@,
            expected_revision,
            worker_id@,
            finished_at,
        ),
        r matches Ok(work) ==> current == Some(work),
{
    if is_blank(worker_id) || finished_at < 0 {
        return Err(
            StoreError::invalid(
                "outbound_delivery_work",
                work_id,
                "invalid owner or completion timestamp",
            ),
        );
    }
    let current = match current {
        Some(current) => current,
        None => {
            return Err(StoreError::missing("outbound_delivery_work", work_id));
        },
    };
    let expired = match current.lease_expires_at {
        Some(lease_expires_at) => lease_expires_at <= finished_at,
        None => true,
    };
    if current.status != OutboundDeliveryWorkStatus::Processing || current.revision
        != expected_revision || !optional_is(&current.lease_owner, worker_id)
        || current.updated_at > finished_at || expired {
        return Err(StoreError::stale("outbound_delivery_work", work_id));
    }
    Ok(current)
}

/// What is wrong with a completion.
pub open spec fn completion_fault(
    current: Option<StoredOutboundDeliveryWork>,
    completion: CompleteOutboundDeliveryWork,
) -> Option<Fault> {
    let id = completion.work_id@;
    let revision = "outbound_delivery_work.revision"@;
    let f = if completion.outcome.finishes() {
        None
    } else {
        Some(invalid_work_fault(id, "retryable outcome cannot complete work"@))
    };
    let f = error::first_of(
        f,
        outcome_error_fault(completion.outcome, text::optional_text(completion.error), id),
    );
    let f = error::first_of(
        f,
        owned_fault(
            current,
            id,
            completion.expected_revision,
            completion.worker_id@,
            completion.completed_at,
        ),
    );
    let f = error::first_of(f, overflow_fault(revision, completion.expected_revision));
    error::first_of(
        f,
        numbers::stored_integer_fault(revision, (completion.expected_revision + 1) as nat),
    )
}

/// The work once it was completed.
pub open spec fn completed(work: Work, completion: CompleteOutboundDeliveryWork) -> Work {
    Work {
        status: OutboundDeliveryWorkStatus::Delivered,
        next_attempt_at: None,
        lease_owner: None,
        lease_expires_at: None,
        revision: (work.revision + 1) as u64,
        last_outcome: Some(completion.outcome),
        last_error: text::optional_text(completion.error),
        completed_at: Some(completion.completed_at),
        updated_at: completion.completed_at,
        ..work
    }
}

/// Completes work.
pub fn complete_outbound_delivery_work(
    current: Option<StoredOutboundDeliveryWork>,
    completion: CompleteOutboundDeliveryWork,
) -> (r: Result<StoredOutboundDeliveryWork, StoreError>)
    ensures
        error::fault(r) == completion_fault(current, completion),
        r matches Ok(work) ==> current is Some && work@ == completed((current->0)@, completion),
{
    if !completion.outcome.may_complete() {
        return Err(
            StoreError::invalid(
                "outbound_delivery_work",
                completion.work_id.as_str(),
                "retryable outcome cannot complete work",
            ),
        );
    }
    validate_error(completion.outcome, &completion.error, completion.work_id.as_str())?;
    let current = validate_owned_work(
        current,
        completion.work_id.as_str(),
        completion.expected_revision,
        completion.worker_id.as_str(),
        completion.completed_at,
    )?;
    let revision: u64 = plus_one("outbound_delivery_work.revision", current.revision)?;
    u64_to_i64("outbound_delivery_work.revision", revision)?;
    Ok(
        StoredOutboundDeliveryWork {
            status: OutboundDeliveryWorkStatus::Delivered,
            next_attempt_at: None,
            lease_owner: None,
            lease_expires_at: None,
            revision,
            last_outcome: Some(completion.outcome),
            last_error: completion.error,
            completed_at: Some(completion.completed_at),
            updated_at: completion.completed_at,
            ..current
        },
    )
}

/// The generation in which work is tried again.
pub open spec fn next_generation(work: Work, retry: RetryOutboundDeliveryWork) -> int {
    if retry.advance_generation {
        work.generation + 1
    } else {
        work.generation as int
    }
}

/// What is wrong with trying work again.
pub open spec fn retry_fault(
    current: Option<StoredOutboundDeliveryWork>,
    retry: RetryOutboundDeliveryWork,
) -> Option<Fault> {
    let id = retry.work_id@;
    let revision = "outbound_delivery_work.revision"@;
    let generation = "outbound_delivery_work.generation"@;
    let f = if retry.outcome.finishes() {
        Some(invalid_work_fault(id, "delivered outcome cannot schedule a retry"@))
    } else if text::blank(retry.error@) || retry.retry_at <= retry.failed_at {
        Some(
            invalid_work_fault(
                id,
                "retry requires a non-empty error and retry_at later than failed_at"@,
            ),
        )
    } else {
        None
    };
    let f = error::first_of(
        f,
        owned_fault(current, id, retry.expected_revision, retry.worker_id@, retry.failed_at),
    );
    let f = error::first_of(f, overflow_fault(revision, retry.expected_revision));
    let work = (current->0)@;
    let f = error::first_of(
        f,
        if retry.advance_generation {
            overflow_fault(generation, work.generation)
        } else {
            None
        },
    );
    let f = error::first_of(
        f,
        numbers::stored_integer_fault(generation, next_generation(work, retry) as nat),
    );
    error::first_of(
        f,
        numbers::stored_integer_fault(revision, (retry.expected_revision + 1) as nat),
    )
}

/// The work once it waits to be tried again.
pub open spec fn rescheduled(work: Work, retry: RetryOutboundDeliveryWork) -> Work {
    Work {
        generation: next_generation(work, retry) as u64,
        message_id: message_name(work.subject, next_generation(work, retry) as u64),
        status: OutboundDeliveryWorkStatus::Pending,
        next_attempt_at: Some(retry.retry_at),
        lease_owner: None,
        lease_expires_at: None,
        revision: (work.revision + 1) as u64,
        last_outcome: Some(retry.outcome),
        last_error: Some(retry.error@),
        completed_at: None,
        updated_at: retry.failed_at,
        ..work
    }
}

/// Has work tried again later.
pub fn retry_outbound_delivery_work(
    current: Option<StoredOutboundDeliveryWork>,
    retry: RetryOutboundDeliveryWork,
) -> (r: Result<StoredOutboundDeliveryWork, StoreError>)
    ensures
        error::fault(r) == retry_fault(current, retry),
        r matches Ok(work) ==> current is Some && work@ == rescheduled((current->0)@, retry),
{
    if !retry.outcome.may_retry() {
        return Err(
            StoreError::invalid(
                "outbound_delivery_work",
                retry.work_id.as_str(),
                "delivered outcome cannot schedule a retry",
            ),
        );
    }
    if is_blank(retry.error.as_str()) || retry.retry_at <= retry.failed_at {
        return Err(
            StoreError::invalid(
                "outbound_delivery_work",
                retry.work_id.as_str(),
                "retry requires a non-empty error and retry_at later than failed_at",
            ),
        );
    }
    let current = validate_owned_work(
        current,
        retry.work_id.as_str(),
        retry.expected_revision,
        retry.worker_id.as_str(),
        retry.failed_at,
    )?;
    let revision: u64 = plus_one("outbound_delivery_work.revision", current.revision)?;
    let generation: u64 = if retry.advance_generation {
        plus_one("outbound_delivery_work.generation", current.generation)?
    } else {
        current.generation
    };
    let message_id = outbound_delivery_message_id(&current.subject, generation);
    u64_to_i64("outbound_delivery_work.generation", generation)?;
    u64_to_i64("outbound_delivery_work.revision", revision)?;
    Ok(
        StoredOutboundDeliveryWork {
            generation,
            message_id,
            status: OutboundDeliveryWorkStatus::Pending,
            next_attempt_at: Some(retry.retry_at),
            lease_owner: None,
            lease_expires_at: None,
            revision,
            last_outcome: Some(retry.outcome),
            last_error: Some(retry.error),
            completed_at: None,
            updated_at: retry.failed_at,
            ..current
        },
    )
}

proof fn status_texts_differ()
    ensures
        "PENDING"@ != "PROCESSING"@,
        "PENDING"@ != "DELIVERED"@,
        "PROCESSING"@ != "DELIVERED"@,
{
    reveal_strlit("PENDING");
    reveal_strlit("PROCESSING");
    reveal_strlit("DELIVERED");
    assert("PENDING"@.len() == 7);
    assert("PROCESSING"@.len() == 10);
    assert("DELIVERED"@.len() == 9);
}

/// While a lease runs, the work is given to nobody else.
pub proof fn leases_are_exclusive(work: Work, claim: ClaimOutboundDeliveryWork, at: i64)
    requires
        at < claim.lease_expires_at,
    ensures
        lease_fault(leased(work, claim), at) is Some,
{
    status_texts_differ();
}

/// Work that is done is never given out again.
pub proof fn done_work_stays_done(
    work: Work,
    completion: CompleteOutboundDeliveryWork,
    at: i64,
)
    ensures
        lease_fault(completed(work, completion), at) is Some,
{
    status_texts_differ();
}

/// A worker whose lease ran out, or who gave the work back, cannot finish it.
pub proof fn late_workers_are_refused(
    work: StoredOutboundDeliveryWork,
    completion: CompleteOutboundDeliveryWork,
)
    requires
        work.lease_expires_at matches Some(until) ==> until <= completion.completed_at,
    ensures
        completion_fault(Some(work), completion) is Some,
{
}

/// Who was given work can complete it while the lease runs.
pub proof fn holders_can_complete(
    before: Work,
    given: StoredOutboundDeliveryWork,
    claim: ClaimOutboundDeliveryWork,
    completion: CompleteOutboundDeliveryWork,
)
    requires
        claim_fault(claim) is None,
        lease_fault(before, claim.claimed_at) is None,
        given@ == leased(before, claim),
        completion.worker_id@ == claim.worker_id@,
        completion.expected_revision == given.revision,
        claim.claimed_at <= completion.completed_at < claim.lease_expires_at,
        completion.outcome is Sent,
        completion.error is None,
        before.revision < i64::MAX - 1,
    ensures
        completion_fault(Some(given), completion) is None,
{
}

/// Work that waits for its next try is given out when its time has come, and
/// not before.
pub proof fn retries_wait_for_their_time(work: Work, retry: RetryOutboundDeliveryWork, at: i64)
    ensures
        at < retry.retry_at ==> lease_fault(rescheduled(work, retry), at) is Some,
        at >= retry.retry_at && work.revision + 2 <= i64::MAX && work.delivery_attempts + 1
            <= i64::MAX ==> lease_fault(rescheduled(work, retry), at) is None,
{
    status_texts_differ();
}

/// A message is sent again under its name unless it is certain that nothing
/// reached the peer.
pub proof fn messages_keep_their_name(work: Work, retry: RetryOutboundDeliveryWork)
    requires
        work.message_id == message_name(work.subject, work.generation),
        !retry.advance_generation,
    ensures
        rescheduled(work, retry).message_id == work.message_id,
{
}

proof fn work_names_differ(a: Subject, b: Subject)
    requires
        work_name(a) == work_name(b),
    ensures
        a == b,
{
    reveal_strlit("execution.command:");
    reveal_strlit("reconciliation.request:");
    match (a, b) {
        (Subject::ExecutionCommand(x), Subject::ExecutionCommand(y)) => {
            let head = "execution.command:"@;
            assert((head + x).skip(head.len() as int) =~= x);
            assert((head + y).skip(head.len() as int) =~= y);
        },
        (Subject::ReconciliationRequest(x), Subject::ReconciliationRequest(y)) => {
            let head = "reconciliation.request:"@;
            assert((head + x).skip(head.len() as int) =~= x);
            assert((head + y).skip(head.len() as int) =~= y);
        },
        (Subject::ExecutionCommand(x), Subject::ReconciliationRequest(y)) => {
            assert(("execution.command:"@ + x)[0] == 'e');
            assert(("reconciliation.request:"@ + y)[0] == 'r');
        },
        (Subject::ReconciliationRequest(x), Subject::ExecutionCommand(y)) => {
            assert(("reconciliation.request:"@ + x)[0] == 'r');
            assert(("execution.command:"@ + y)[0] == 'e');
        },
    }
}

/// No two subjects, and no two generations of one subject, share a message.
pub proof fn messages_name_what_they_bring(a: Subject, b: Subject, m: u64, n: u64)
    requires
        message_name(a, m) == message_name(b, n),
    ensures
        a == b,
        m == n,
{
    reveal_strlit("msg:");
    reveal_strlit(":v");
    let left = message_name(a, m);
    let right = message_name(b, n);
    let d = text::decimal(m as nat);
    let e = text::decimal(n as nat);
    text::decimal_is_digits(m as nat);
    text::decimal_is_digits(n as nat);
    let mark = ":v"@;
    assert(mark[1] == 'v');
    if d.len() < e.len() {
        let at = left.len() - d.len() - 1;
        assert(left[at] == 'v');
        assert(right[at] == e[at - (right.len() - e.len())]);
    }
    if e.len() < d.len() {
        let at = right.len() - e.len() - 1;
        assert(right[at] == 'v');
        assert(left[at] == d[at - (left.len() - d.len())]);
    }
    let cut = left.len() - d.len();
    assert(left.skip(cut) =~= d);
    assert(right.skip(cut) =~= e);
    text::decimal_injective(m as nat, n as nat);
    let head = "msg:"@;
    assert(left.subrange(head.len() as int, cut - mark.len()) =~= work_name(a));
    assert(right.subrange(head.len() as int, cut - mark.len()) =~= work_name(b));
    work_names_differ(a, b);
}

/// Every step counts up the revision.
pub proof fn revisions_count_up(
    work: Work,
    claim: ClaimOutboundDeliveryWork,
    completion: CompleteOutboundDeliveryWork,
    retry: RetryOutboundDeliveryWork,
)
    requires
        work.revision < u64::MAX,
    ensures
        leased(work, claim).revision == work.revision + 1,
        completed(work, completion).revision == work.revision + 1,
        rescheduled(work, retry).revision == work.revision + 1,
{
}

proof fn first_served_is_first(list: Seq<Candidate>, i: int)
    requires
        0 <= i < list.len(),
    ensures
        first_served(list) is Some,
        !served_before(list[i], first_served(list)->0),
    decreases list.len(),
{
    let last = list.last();
    let shorter = list.drop_last();
    if i < list.len() - 1 {
        assert(shorter[i] == list[i]);
        first_served_is_first(shorter, i);
        let best = first_served(shorter)->0;
        if served_before(last, best) {
            if served_before(list[i], last) {
                served_transitive(list[i], last, best);
            }
        }
    } else {
        served_irreflexive(last);
        if shorter.len() > 0 {
            first_served_is_first(shorter, 0);
        }
    }
}

proof fn served_irreflexive(a: Candidate)
    ensures
        !served_before(a, a),
{
    match a.subject {
        Subject::ExecutionCommand(id) => text::precedes_irreflexive(id),
        Subject::ReconciliationRequest(id) => text::precedes_irreflexive(id),
    }
}

proof fn served_transitive(a: Candidate, b: Candidate, c: Candidate)
    requires
        served_before(a, b),
        served_before(b, c),
    ensures
        served_before(a, c),
{
    if a.fresh == b.fresh && b.fresh == c.fresh && a.due_at == b.due_at && b.due_at == c.due_at {
        match (a.subject, b.subject, c.subject) {
            (
                Subject::ExecutionCommand(x),
                Subject::ExecutionCommand(y),
                Subject::ExecutionCommand(z),
            ) => text::precedes_transitive(x, y, z),
            (
                Subject::ReconciliationRequest(x),
                Subject::ReconciliationRequest(y),
                Subject::ReconciliationRequest(z),
            ) => text::precedes_transitive(x, y, z),
            _ => {},
        }
    }
}

/// Nothing that can be given out comes before what is given out.
pub proof fn work_is_served_in_turn(
    works: Seq<WorkRow>,
    commands: Seq<DueCommand>,
    requests: Seq<DueRequest>,
    at: i64,
    i: int,
)
    requires
        0 <= i < candidates(works, commands, requests, at).len(),
    ensures
        first_served(candidates(works, commands, requests, at)) matches Some(best)
            && !served_before(candidates(works, commands, requests, at)[i], best),
{
    first_served_is_first(candidates(works, commands, requests, at), i);
}

/// What is final: a message that was sent, or may have been, and one that is not
/// to be sent any more. Everything else is tried again.
pub proof fn only_final_outcomes_finish(outcome: OutboundDeliveryWorkOutcome)
    ensures
        outcome.finishes() <==> (outcome.name() == "SENT"@ || outcome.name() == "UNCONFIRMED"@
            || outcome.name() == "SUPERSEDED"@ || outcome.name() == "EXPIRED"@ || outcome.name()
            == "PERMANENT_REJECTION"@),
        !outcome.finishes() <==> (outcome.name() == "REJECTED"@ || outcome.name()
            == "DEFINITELY_NOT_WRITTEN"@ || outcome.name() == "INFRASTRUCTURE_ERROR"@),
{
    work_outcome_names_differ(
        outcome,
        OutboundDeliveryWorkOutcome::Sent,
    );
    work_outcome_names_differ(
        outcome,
        OutboundDeliveryWorkOutcome::Unconfirmed,
    );
    work_outcome_names_differ(
        outcome,
        OutboundDeliveryWorkOutcome::Superseded,
    );
    work_outcome_names_differ(
        outcome,
        OutboundDeliveryWorkOutcome::Expired,
    );
    work_outcome_names_differ(
        outcome,
        OutboundDeliveryWorkOutcome::PermanentRejection,
    );
    work_outcome_names_differ(
        outcome,
        OutboundDeliveryWorkOutcome::Rejected,
    );
    work_outcome_names_differ(
        outcome,
        OutboundDeliveryWorkOutcome::DefinitelyNotWritten,
    );
    work_outcome_names_differ(
        outcome,
        OutboundDeliveryWorkOutcome::InfrastructureError,
    );
}

/// The candidates are the pieces of work whose time has come, those whose worker
/// let its lease run out, and the new commands and requests that have no work
/// yet.
pub proof fn what_is_due_is_a_candidate(
    works: Seq<WorkRow>,
    commands: Seq<DueCommand>,
    requests: Seq<DueRequest>,
    at: i64,
)
    ensures
        forall|i: int|
            0 <= i < works.len() && ({
                let row = #[trigger] works[i];
                ||| row.status@ == "PENDING"@ && row.next_attempt_at is Some
                    && row.next_attempt_at->0 <= at
                ||| row.status@ == "PROCESSING"@ && row.lease_expires_at is Some
                    && row.lease_expires_at->0 <= at
            }) ==> candidates(works, commands, requests, at).contains(candidate_of(works[i])),
        forall|i: int|
            0 <= i < commands.len() && (#[trigger] commands[i]).status@ == "CREATED"@ && (forall|
                k: int,
            |
                0 <= k < works.len() ==> text::optional_text((#[trigger] works[k]).command_id)
                    != Some(commands[i].command_id@)) ==> candidates(
                works,
                commands,
                requests,
                at,
            ).contains(
                (Candidate {
                    fresh: true,
                    due_at: commands[i].created_at,
                    subject: Subject::ExecutionCommand(commands[i].command_id@),
                }),
            ),
        forall|i: int|
            0 <= i < requests.len() && (#[trigger] requests[i]).status@ == "REQUESTED"@ && (forall|
                k: int,
            |
                0 <= k < works.len() ==> text::optional_text((#[trigger] works[k]).request_id)
                    != Some(requests[i].request_id@)) ==> candidates(
                works,
                commands,
                requests,
                at,
            ).contains(
                (Candidate {
                    fresh: true,
                    due_at: requests[i].requested_at,
                    subject: Subject::ReconciliationRequest(requests[i].request_id@),
                }),
            ),
{
    waiting_has_the_due(works, at);
    commands_have_the_new(commands, works);
    requests_have_the_new(requests, works);
    let all = candidates(works, commands, requests, at);
    let a = waiting(works, at);
    let b = new_commands(commands, works);
    let c = new_requests(requests, works);
    assert forall|x: Candidate| a.contains(x) || b.contains(x) || c.contains(x) implies #[trigger] all.contains(
    x) by {
        if a.contains(x) {
            let k = choose|k: int| 0 <= k < a.len() && a[k] == x;
            assert(all[k] == x);
        } else if b.contains(x) {
            let k = choose|k: int| 0 <= k < b.len() && b[k] == x;
            assert(all[a.len() + k] == x);
        } else {
            let k = choose|k: int| 0 <= k < c.len() && c[k] == x;
            assert(all[a.len() + b.len() + k] == x);
        }
    }
}

proof fn waiting_has_the_due(works: Seq<WorkRow>, at: i64)
    ensures
        forall|i: int|
            0 <= i < works.len() && is_due(
                (#[trigger] works[i]).status@,
                works[i].next_attempt_at,
                works[i].lease_expires_at,
                at,
            ) ==> waiting(works, at).contains(candidate_of(works[i])),
        forall|k: int|
            0 <= k < waiting(works, at).len() ==> exists|i: int|
                0 <= i < works.len() && is_due(
                    (#[trigger] works[i]).status@,
                    works[i].next_attempt_at,
                    works[i].lease_expires_at,
                    at,
                ) && #[trigger] waiting(works, at)[k] == candidate_of(works[i]),
    decreases works.len(),
{
    if works.len() > 0 {
        let rest = works.drop_last();
        waiting_has_the_due(rest, at);
        let before = waiting(rest, at);
        let all = waiting(works, at);
        assert forall|i: int|
            0 <= i < works.len() && is_due(
                (#[trigger] works[i]).status@,
                works[i].next_attempt_at,
                works[i].lease_expires_at,
                at,
            ) implies all.contains(candidate_of(works[i])) by {
            if i < rest.len() {
                assert(rest[i] == works[i]);
                let k = choose|k: int| 0 <= k < before.len() && before[k] == candidate_of(rest[i]);
                assert(all[k] == candidate_of(works[i]));
            } else {
                assert(all.last() == candidate_of(works[i]));
            }
        }
        assert forall|k: int| 0 <= k < all.len() implies exists|i: int|
            0 <= i < works.len() && is_due(
                (#[trigger] works[i]).status@,
                works[i].next_attempt_at,
                works[i].lease_expires_at,
                at,
            ) && #[trigger] all[k] == candidate_of(works[i]) by {
            if k < before.len() {
                assert(before[k] == all[k]);
                let i = choose|i: int|
                    0 <= i < rest.len() && is_due(
                        (#[trigger] rest[i]).status@,
                        rest[i].next_attempt_at,
                        rest[i].lease_expires_at,
                        at,
                    ) && before[k] == candidate_of(rest[i]);
                assert(works[i] == rest[i]);
            } else {
                assert(works[works.len() - 1] == works.last());
            }
        }
    }
}

proof fn commands_have_the_new(commands: Seq<DueCommand>, works: Seq<WorkRow>)
    ensures
        forall|i: int|
            0 <= i < commands.len() && (#[trigger] commands[i]).status@ == "CREATED"@
                && !command_has_work(works, commands[i].command_id@) ==> new_commands(
                commands,
                works,
            ).contains(
                (Candidate {
                    fresh: true,
                    due_at: commands[i].created_at,
                    subject: Subject::ExecutionCommand(commands[i].command_id@),
                }),
            ),
        forall|k: int|
            0 <= k < new_commands(commands, works).len() ==> exists|i: int|
                0 <= i < commands.len() && (#[trigger] commands[i]).status@ == "CREATED"@
                    && !command_has_work(works, commands[i].command_id@)
                    && #[trigger] new_commands(commands, works)[k] == (Candidate {
                    fresh: true,
                    due_at: commands[i].created_at,
                    subject: Subject::ExecutionCommand(commands[i].command_id@),
                }),
    decreases commands.len(),
{
    if commands.len() > 0 {
        let rest = commands.drop_last();
        commands_have_the_new(rest, works);
        let before = new_commands(rest, works);
        let all = new_commands(commands, works);
        assert forall|i: int|
            0 <= i < commands.len() && (#[trigger] commands[i]).status@ == "CREATED"@
                && !command_has_work(works, commands[i].command_id@) implies all.contains(
            (Candidate {
                fresh: true,
                due_at: commands[i].created_at,
                subject: Subject::ExecutionCommand(commands[i].command_id@),
            }),
        ) by {
            let meant = Candidate {
                fresh: true,
                due_at: commands[i].created_at,
                subject: Subject::ExecutionCommand(commands[i].command_id@),
            };
            if i < rest.len() {
                assert(rest[i] == commands[i]);
                let k = choose|k: int| 0 <= k < before.len() && before[k] == meant;
                assert(all[k] == meant);
            } else {
                assert(all.last() == meant);
            }
        }
        assert forall|k: int| 0 <= k < all.len() implies exists|i: int|
            0 <= i < commands.len() && (#[trigger] commands[i]).status@ == "CREATED"@
                && !command_has_work(works, commands[i].command_id@) && #[trigger] all[k] == (
            Candidate {
                fresh: true,
                due_at: commands[i].created_at,
                subject: Subject::ExecutionCommand(commands[i].command_id@),
            }) by {
            if k < before.len() {
                assert(before[k] == all[k]);
                let i = choose|i: int|
                    0 <= i < rest.len() && (#[trigger] rest[i]).status@ == "CREATED"@
                        && !command_has_work(works, rest[i].command_id@) && before[k] == (
                    Candidate {
                        fresh: true,
                        due_at: rest[i].created_at,
                        subject: Subject::ExecutionCommand(rest[i].command_id@),
                    });
                assert(commands[i] == rest[i]);
            } else {
                assert(commands[commands.len() - 1] == commands.last());
            }
        }
    }
}

proof fn requests_have_the_new(requests: Seq<DueRequest>, works: Seq<WorkRow>)
    ensures
        forall|i: int|
            0 <= i < requests.len() && (#[trigger] requests[i]).status@ == "REQUESTED"@
                && !request_has_work(works, requests[i].request_id@) ==> new_requests(
                requests,
                works,
            ).contains(
                (Candidate {
                    fresh: true,
                    due_at: requests[i].requested_at,
                    subject: Subject::ReconciliationRequest(requests[i].request_id@),
                }),
            ),
        forall|k: int|
            0 <= k < new_requests(requests, works).len() ==> exists|i: int|
                0 <= i < requests.len() && (#[trigger] requests[i]).status@ == "REQUESTED"@
                    && !request_has_work(works, requests[i].request_id@)
                    && #[trigger] new_requests(requests, works)[k] == (Candidate {
                    fresh: true,
                    due_at: requests[i].requested_at,
                    subject: Subject::ReconciliationRequest(requests[i].request_id@),
                }),
    decreases requests.len(),
{
    if requests.len() > 0 {
        let rest = requests.drop_last();
        requests_have_the_new(rest, works);
        let before = new_requests(rest, works);
        let all = new_requests(requests, works);
        assert forall|i: int|
            0 <= i < requests.len() && (#[trigger] requests[i]).status@ == "REQUESTED"@
                && !request_has_work(works, requests[i].request_id@) implies all.contains(
            (Candidate {
                fresh: true,
                due_at: requests[i].requested_at,
                subject: Subject::ReconciliationRequest(requests[i].request_id@),
            }),
        ) by {
            let meant = Candidate {
                fresh: true,
                due_at: requests[i].requested_at,
                subject: Subject::ReconciliationRequest(requests[i].request_id@),
            };
            if i < rest.len() {
                assert(rest[i] == requests[i]);
                let k = choose|k: int| 0 <= k < before.len() && before[k] == meant;
                assert(all[k] == meant);
            } else {
                assert(all.last() == meant);
            }
        }
        assert forall|k: int| 0 <= k < all.len() implies exists|i: int|
            0 <= i < requests.len() && (#[trigger] requests[i]).status@ == "REQUESTED"@
                && !request_has_work(works, requests[i].request_id@) && #[trigger] all[k] == (
            Candidate {
                fresh: true,
                due_at: requests[i].requested_at,
                subject: Subject::ReconciliationRequest(requests[i].request_id@),
            }) by {
            if k < before.len() {
                assert(before[k] == all[k]);
                let i = choose|i: int|
                    0 <= i < rest.len() && (#[trigger] rest[i]).status@ == "REQUESTED"@
                        && !request_has_work(works, rest[i].request_id@) && before[k] == (
                    Candidate {
                        fresh: true,
                        due_at: rest[i].requested_at,
                        subject: Subject::ReconciliationRequest(rest[i].request_id@),
                    });
                assert(requests[i] == rest[i]);
            } else {
                assert(requests[requests.len() - 1] == requests.last());
            }
        }
    }
}

/// Nothing else is a candidate: work that was begun is due, and what is new has
/// no work yet.
pub proof fn candidates_are_due(
    works: Seq<WorkRow>,
    commands: Seq<DueCommand>,
    requests: Seq<DueRequest>,
    at: i64,
    k: int,
)
    requires
        0 <= k < candidates(works, commands, requests, at).len(),
    ensures
        ({
            let candidate = candidates(works, commands, requests, at)[k];
            &&& !candidate.fresh ==> exists|i: int|
                0 <= i < works.len() && candidate.due_at == (#[trigger] works[i]).created_at && (
                works[i].command_id is Some ==> candidate.subject == Subject::ExecutionCommand(
                    (works[i].command_id->0)@,
                )) && (works[i].command_id is None && works[i].request_id is Some
                    ==> candidate.subject == Subject::ReconciliationRequest(
                    (works[i].request_id->0)@,
                )) && ((works[i].status@ == "PENDING"@ && works[i].next_attempt_at is Some
                    && works[i].next_attempt_at->0 <= at) || (works[i].status@ == "PROCESSING"@
                    && works[i].lease_expires_at is Some && works[i].lease_expires_at->0 <= at))
            &&& candidate.fresh && candidate.subject is ExecutionCommand ==> (exists|i: int|
                0 <= i < commands.len() && (#[trigger] commands[i]).status@ == "CREATED"@
                    && commands[i].created_at == candidate.due_at && Subject::ExecutionCommand(
                    commands[i].command_id@,
                ) == candidate.subject) && forall|i: int|
                0 <= i < works.len() ==> ((#[trigger] works[i]).command_id matches Some(id)
                    ==> Subject::ExecutionCommand(id@) != candidate.subject)
            &&& candidate.fresh && candidate.subject is ReconciliationRequest ==> (exists|i: int|
                0 <= i < requests.len() && (#[trigger] requests[i]).status@ == "REQUESTED"@
                    && requests[i].requested_at == candidate.due_at
                    && Subject::ReconciliationRequest(requests[i].request_id@)
                    == candidate.subject) && forall|i: int|
                0 <= i < works.len() ==> ((#[trigger] works[i]).request_id matches Some(id)
                    ==> Subject::ReconciliationRequest(id@) != candidate.subject)
        }),
{
    waiting_has_the_due(works, at);
    commands_have_the_new(commands, works);
    requests_have_the_new(requests, works);
    let a = waiting(works, at);
    let b = new_commands(commands, works);
    let c = new_requests(requests, works);
    if k < a.len() {
        assert(candidates(works, commands, requests, at)[k] == a[k]);
    } else if k < a.len() + b.len() {
        assert(candidates(works, commands, requests, at)[k] == b[k - a.len()]);
    } else {
        assert(candidates(works, commands, requests, at)[k] == c[k - a.len() - b.len()]);
    }
}

/// Work that was begun is served before new work, what has waited longer before
/// what has waited less, and at the same time commands before requests, each in
/// the order of their names.
pub proof fn older_work_is_served_first(a: Candidate, b: Candidate)
    ensures
        !a.fresh && b.fresh ==> served_before(a, b) && !served_before(b, a),
        a.fresh == b.fresh && a.due_at < b.due_at ==> served_before(a, b) && !served_before(b, a),
        a.fresh == b.fresh && a.due_at == b.due_at && a.subject is ExecutionCommand
            && b.subject is ReconciliationRequest ==> served_before(a, b) && !served_before(b, a),
        a.fresh == b.fresh && a.due_at == b.due_at && a.subject is ExecutionCommand
            && b.subject is ExecutionCommand ==> (served_before(a, b) <==> text::precedes(
            a.subject->ExecutionCommand_0,
            b.subject->ExecutionCommand_0,
        )),
        a.fresh == b.fresh && a.due_at == b.due_at && a.subject is ReconciliationRequest
            && b.subject is ReconciliationRequest ==> (served_before(a, b) <==> text::precedes(
            a.subject->ReconciliationRequest_0,
            b.subject->ReconciliationRequest_0,
        )),
{
}

/// A claim that is taken comes from somebody and holds for a while; work is given
/// to it only when it is due, and then belongs to it until the lease ends, as one
/// more attempt at the same message.
pub proof fn leases_are_of_due_work(work: Work, claim: ClaimOutboundDeliveryWork)
    ensures
        claim_fault(claim) is None <==> !text::blank(claim.worker_id@) && 0 <= claim.claimed_at
            < claim.lease_expires_at,
        lease_fault(work, claim.claimed_at) is None ==> ({
            ||| work.status is Pending && work.next_attempt_at is Some && work.next_attempt_at->0
                <= claim.claimed_at
            ||| work.status is Processing && work.lease_expires_at is Some
                && work.lease_expires_at->0 <= claim.claimed_at
        }) && work.revision < i64::MAX && work.delivery_attempts < i64::MAX,
        ({
            let after = leased(work, claim);
            lease_fault(work, claim.claimed_at) is None ==> {
                &&& after.status is Processing
                &&& after.lease_owner == Some(claim.worker_id@)
                &&& after.lease_expires_at == Some(claim.lease_expires_at)
                &&& after.next_attempt_at is None
                &&& after.delivery_attempts == work.delivery_attempts + 1
                &&& after.revision == work.revision + 1
                &&& after.updated_at == claim.claimed_at
                &&& after.work_id == work.work_id
                &&& after.subject == work.subject
                &&& after.generation == work.generation
                &&& after.message_id == work.message_id
                &&& after.created_at == work.created_at
                &&& after.last_outcome == work.last_outcome
                &&& after.last_error == work.last_error
                &&& after.completed_at == work.completed_at
            }
        }),
{
    status_texts_differ();
}

/// Every piece of work that is due, whose message is the one its subject and
/// generation name and whose counters are not exhausted, is given out.
pub proof fn due_work_is_given(work: Work, at: i64)
    requires
        work.message_id == message_name(work.subject, work.generation),
        work.revision < i64::MAX,
        work.delivery_attempts < i64::MAX,
        ({
            ||| work.status is Pending && work.next_attempt_at is Some && work.next_attempt_at->0
                <= at
            ||| work.status is Processing && work.lease_expires_at is Some
                && work.lease_expires_at->0 <= at
        }),
    ensures
        lease_fault(work, at) is None,
{
}

/// New work starts from nothing: at its first generation, never tried, and due at
/// once.
pub proof fn new_work_is_due_at_once(subject: Subject, at: i64)
    ensures
        ({
            let work = first_work(subject, at);
            &&& work.subject == subject
            &&& work.generation == 1
            &&& work.delivery_attempts == 0
            &&& work.revision == 0
            &&& work.status is Pending
            &&& work.next_attempt_at == Some(at)
            &&& work.lease_owner is None && work.lease_expires_at is None
            &&& work.last_outcome is None && work.last_error is None
            &&& work.completed_at is None
            &&& work.created_at == at && work.updated_at == at
            &&& subject matches Subject::ExecutionCommand(id) ==> work.work_id
                == "execution.command:"@ + id && work.message_id == "msg:"@ + (
            "execution.command:"@ + id) + ":v"@ + text::decimal(1)
            &&& subject matches Subject::ReconciliationRequest(id) ==> work.work_id
                == "reconciliation.request:"@ + id && work.message_id == "msg:"@ + (
            "reconciliation.request:"@ + id) + ":v"@ + text::decimal(1)
            &&& lease_fault(work, at) is None
        }),
{
}

/// Work is completed by the worker that holds it, while the lease runs, at the
/// revision it knows, with a final outcome, and with an error where the message
/// may not have arrived. It is then done, and keeps what it was about.
pub proof fn completions_come_from_the_holder(
    current: StoredOutboundDeliveryWork,
    completion: CompleteOutboundDeliveryWork,
)
    ensures
        completion_fault(Some(current), completion) is None <==> {
            &&& completion.outcome is Sent || completion.outcome is Unconfirmed
                || completion.outcome is Superseded || completion.outcome is Expired
                || completion.outcome is PermanentRejection
            &&& completion.outcome is Unconfirmed ==> completion.error is Some
            &&& completion.error is Some ==> !text::blank((completion.error->0)@)
            &&& !text::blank(completion.worker_id@)
            &&& completion.completed_at >= 0
            &&& current.status is Processing
            &&& current.revision == completion.expected_revision
            &&& current.lease_owner is Some && (current.lease_owner->0)@ == completion.worker_id@
            &&& current.updated_at <= completion.completed_at
            &&& current.lease_expires_at is Some && current.lease_expires_at->0
                > completion.completed_at
            &&& completion.expected_revision < i64::MAX
        },
        completion_fault(Some(current), completion) is None ==> ({
            let after = completed(current@, completion);
            &&& after.status is Delivered
            &&& after.completed_at == Some(completion.completed_at)
            &&& after.updated_at == completion.completed_at
            &&& after.last_outcome == Some(completion.outcome)
            &&& completion.error is Some ==> after.last_error == Some((completion.error->0)@)
            &&& completion.error is None ==> after.last_error is None
            &&& after.lease_owner is None && after.lease_expires_at is None
            &&& after.next_attempt_at is None
            &&& after.revision == current.revision + 1
            &&& after.delivery_attempts == current.delivery_attempts
            &&& after.generation == current.generation
            &&& after.message_id == current.message_id@
            &&& after.subject == current.subject@
            &&& after.work_id == current.work_id@
            &&& after.created_at == current.created_at
        }),
{
}

/// Work is put off by the worker that holds it, with an outcome that is not
/// final, an error, and a later time. It then waits for that time; its message
/// changes only with its generation, which goes up by one when it is asked to.
pub proof fn retries_come_from_the_holder(
    current: StoredOutboundDeliveryWork,
    retry: RetryOutboundDeliveryWork,
)
    ensures
        retry_fault(Some(current), retry) is None <==> {
            &&& retry.outcome is Rejected || retry.outcome is DefinitelyNotWritten
                || retry.outcome is InfrastructureError
            &&& !text::blank(retry.error@)
            &&& retry.retry_at > retry.failed_at
            &&& !text::blank(retry.worker_id@)
            &&& retry.failed_at >= 0
            &&& current.status is Processing
            &&& current.revision == retry.expected_revision
            &&& current.lease_owner is Some && (current.lease_owner->0)@ == retry.worker_id@
            &&& current.updated_at <= retry.failed_at
            &&& current.lease_expires_at is Some && current.lease_expires_at->0 > retry.failed_at
            &&& retry.expected_revision < i64::MAX
            &&& retry.advance_generation ==> current.generation < i64::MAX
            &&& current.generation <= i64::MAX
        },
        retry_fault(Some(current), retry) is None ==> ({
            let after = rescheduled(current@, retry);
            &&& after.status is Pending
            &&& after.next_attempt_at == Some(retry.retry_at)
            &&& after.lease_owner is None && after.lease_expires_at is None
            &&& after.last_outcome == Some(retry.outcome)
            &&& after.last_error == Some(retry.error@)
            &&& after.completed_at is None
            &&& after.updated_at == retry.failed_at
            &&& after.revision == current.revision + 1
            &&& retry.advance_generation ==> after.generation == current.generation + 1
            &&& !retry.advance_generation ==> after.generation == current.generation
            &&& after.message_id == message_name(current.subject@, after.generation)
            &&& after.delivery_attempts == current.delivery_attempts
            &&& after.subject == current.subject@
            &&& after.work_id == current.work_id@
            &&& after.created_at == current.created_at
        }),
{
}

/// A row is read as work about the one command or request that it names, with
/// counters that are not negative and under the message that belongs to it.
pub proof fn read_work_is_about_one_subject(row: WorkRow)
    ensures
        work_row_fault(row) is None <==> {
            &&& row.command_id is Some <==> row.request_id is None
            &&& row.status@ == "PENDING"@ || row.status@ == "PROCESSING"@ || row.status@
                == "DELIVERED"@
            &&& row.last_outcome is Some ==> OutboundDeliveryWorkOutcome::named(
                (row.last_outcome->0)@,
            ) is Some
            &&& row.generation >= 0 && row.delivery_attempts >= 0 && row.revision >= 0
            &&& row.command_id is Some ==> row.message_id@ == "msg:"@ + ("execution.command:"@ + (
            row.command_id->0)@) + ":v"@ + text::decimal(row.generation as nat)
            &&& row.command_id is None && row.request_id is Some ==> row.message_id@ == "msg:"@ + (
            "reconciliation.request:"@ + (row.request_id->0)@) + ":v"@ + text::decimal(
                row.generation as nat,
            )
        },
        work_row_fault(row) is None ==> ({
            let work = read_work(row);
            &&& work.work_id == row.work_id@
            &&& row.command_id is Some ==> work.subject == Subject::ExecutionCommand(
                (row.command_id->0)@,
            )
            &&& row.request_id is Some ==> work.subject == Subject::ReconciliationRequest(
                (row.request_id->0)@,
            )
            &&& work.status.name() == row.status@
            &&& work.generation == row.generation
            &&& work.delivery_attempts == row.delivery_attempts
            &&& work.revision == row.revision
            &&& work.next_attempt_at == row.next_attempt_at
            &&& work.lease_expires_at == row.lease_expires_at
            &&& row.lease_owner is Some ==> work.lease_owner == Some((row.lease_owner->0)@)
            &&& row.lease_owner is None ==> work.lease_owner is None
            &&& row.last_error is Some ==> work.last_error == Some((row.last_error->0)@)
            &&& row.last_error is None ==> work.last_error is None
            &&& row.last_outcome is Some ==> work.last_outcome is Some && (
            work.last_outcome->0).name() == (row.last_outcome->0)@
            &&& row.last_outcome is None ==> work.last_outcome is None
            &&& work.completed_at == row.completed_at
            &&& work.created_at == row.created_at
            &&& work.updated_at == row.updated_at
        }),
{
}

/// What a command is sent under comes from the intent of its plan; a command of a
/// plan whose intent cannot be found is not sent.
pub proof fn commands_of_plans_need_their_intent(
    command: ExecutionCommand,
    plan_intent: Option<IntentId>,
    intent: Option<StoredTradeIntent>,
)
    ensures
        context_fault(command, plan_intent, intent) is None <==> (command.plan_id is Some
            ==> plan_intent is Some && intent is Some),
{
}

/// Work is looked up by its name.
pub proof fn work_is_found_by_name(works: Seq<WorkRow>, work_id: Seq<char>)
    ensures
        row_of(works, work_id) is None <==> forall|i: int|
            0 <= i < works.len() ==> (#[trigger] works[i]).work_id@ != work_id,
        row_of(works, work_id) is Some ==> works.contains(row_of(works, work_id)->0) && (row_of(
            works,
            work_id,
        )->0).work_id@ == work_id,
    decreases works.len(),
{
    if works.len() > 0 {
        let rest = works.drop_last();
        work_is_found_by_name(rest, work_id);
        assert(forall|i: int| 0 <= i < rest.len() ==> #[trigger] works[i] == rest[i]);
        assert(forall|i: int| 0 <= i < rest.len() ==> #[trigger] rest[i] == works[i]);
        assert(works[works.len() - 1] == works.last());
        if row_of(rest, work_id) is Some {
            let found = row_of(rest, work_id)->0;
            let k = choose|k: int| 0 <= k < rest.len() && rest[k] == found;
            assert(works[k] == found);
        }
    }
}

/// What is given out is the work that is stored about its subject, or new work
/// where none is.
pub proof fn given_work_is_the_stored_work(
    works: Seq<WorkRow>,
    commands: Seq<DueCommand>,
    requests: Seq<DueRequest>,
    claim: ClaimOutboundDeliveryWork,
    subject: Subject,
)
    ensures
        ({
            let name = match subject {
                Subject::ExecutionCommand(id) => "execution.command:"@ + id,
                Subject::ReconciliationRequest(id) => "reconciliation.request:"@ + id,
            };
            &&& row_of(works, name) is None ==> work_about(works, subject, claim.claimed_at)
                == first_work(subject, claim.claimed_at)
            &&& row_of(works, name) is Some ==> work_about(works, subject, claim.claimed_at)
                == read_work(row_of(works, name)->0)
        }),
        next_fault(works, commands, requests, claim) is None ==> !text::blank(claim.worker_id@) && 0
            <= claim.claimed_at < claim.lease_expires_at,
        candidates(works, commands, requests, claim.claimed_at).len() == 0 && !text::blank(
            claim.worker_id@,
        ) && 0 <= claim.claimed_at < claim.lease_expires_at ==> next_fault(
            works,
            commands,
            requests,
            claim,
        ) is None,
{
}

}
