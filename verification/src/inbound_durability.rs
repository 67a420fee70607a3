//! Messages and resumed sessions that came in: written down before they are
//! worked on, and leased to one worker at a time.

use vstd::prelude::*;
use vstd::string::*;

use crate::columns::{EnumColumn, JsonColumns};
use crate::domain::{
    AccountId, CausationId, ClientId, CorrelationId, ErrorCode, MessageId, RequestId, SessionId,
    TerminalId,
};
use crate::error;
use crate::error::{Fault, StoreError};
use crate::json;
use crate::json::{sha256_hex, CanonicalJson, JsonDocument};
use crate::numbers;
use crate::numbers::u64_to_i64;
use crate::text;
use crate::text::{
    append_decimal, copy_optional, is_blank, join2, optional_is, same_optional, same_text,
    signed_decimal_text, text_precedes,
};

verus! {

/// How far work got.
#[derive(Clone, Copy, Debug, PartialEq, Eq, Structural)]
pub enum DurableWorkStatus {
    Pending,
    Processing,
    Handled,
    Failed,
}

impl DurableWorkStatus {
    /// The text under which the status is stored.
    pub open spec fn name(self) -> Seq<char> {
        match self {
            DurableWorkStatus::Pending => "PENDING"@,
            DurableWorkStatus::Processing => "PROCESSING"@,
            DurableWorkStatus::Handled => "HANDLED"@,
            DurableWorkStatus::Failed => "FAILED"@,
        }
    }

    /// The text under which the status is stored.
    pub fn as_str(self) -> (r: &'static str)
        ensures
            r@ == self.name(),
    {
        match self {
            DurableWorkStatus::Pending => "PENDING",
            DurableWorkStatus::Processing => "PROCESSING",
            DurableWorkStatus::Handled => "HANDLED",
            DurableWorkStatus::Failed => "FAILED",
        }
    }

    /// The status that is stored under a text, if there is one.
    pub open spec fn named(value: Seq<char>) -> Option<DurableWorkStatus> {
        if value == "PENDING"@ {
            Some(DurableWorkStatus::Pending)
        } else if value == "PROCESSING"@ {
            Some(DurableWorkStatus::Processing)
        } else if value == "HANDLED"@ {
            Some(DurableWorkStatus::Handled)
        } else if value == "FAILED"@ {
            Some(DurableWorkStatus::Failed)
        } else {
            None
        }
    }

    /// The status that is stored under a text.
    pub fn parse(value: &str) -> (r: Option<DurableWorkStatus>)
        ensures
            r == DurableWorkStatus::named(value@),
            r matches Some(found) ==> found.name() == value@,
            r is None ==> forall|other: DurableWorkStatus| #[trigger] other.name() != value@,
    {
        if same_text(value, "PENDING") {
            Some(DurableWorkStatus::Pending)
        } else if same_text(value, "PROCESSING") {
            Some(DurableWorkStatus::Processing)
        } else if same_text(value, "HANDLED") {
            Some(DurableWorkStatus::Handled)
        } else if same_text(value, "FAILED") {
            Some(DurableWorkStatus::Failed)
        } else {
            None
        }
    }
}

/// No two statuses are stored under one text, and each is found under its own.
pub proof fn durable_status_names_differ(a: DurableWorkStatus, b: DurableWorkStatus)
    ensures
        a.name() == b.name() ==> a == b,
        DurableWorkStatus::named(a.name()) == Some(a),
{
    reveal_strlit("PENDING");
    reveal_strlit("PROCESSING");
    reveal_strlit("HANDLED");
    reveal_strlit("FAILED");
    assert("PENDING"@.len() == 7);
    assert("PROCESSING"@.len() == 10);
    assert("HANDLED"@.len() == 7);
    assert("FAILED"@.len() == 6);
    assert("PENDING"@[0] != "HANDLED"@[0]);
}

/// A message that came in.
#[derive(Debug, PartialEq, Eq)]
pub struct NewInboundAdmission {
    pub message_id: MessageId,
    pub session_id: SessionId,
    pub client_id: ClientId,
    pub account_id: AccountId,
    pub terminal_id: Option<TerminalId>,
    pub message_type: String,
    pub schema_version: String,
    pub sequence: u64,
    pub correlation_id: Option<CorrelationId>,
    pub causation_id: Option<CausationId>,
    pub envelope: CanonicalJson,
    pub raw_payload_length: Option<u64>,
    pub received_at: i64,
    pub created_at: i64,
}

/// A message that was written down to be worked on.
#[derive(Debug, PartialEq, Eq)]
pub struct StoredInboundAdmission {
    pub message_id: MessageId,
    pub session_id: SessionId,
    pub client_id: ClientId,
    pub account_id: AccountId,
    pub terminal_id: Option<TerminalId>,
    pub message_type: String,
    pub schema_version: String,
    pub sequence: u64,
    pub correlation_id: Option<CorrelationId>,
    pub causation_id: Option<CausationId>,
    pub envelope: CanonicalJson,
    pub raw_payload_length: Option<u64>,
    pub received_at: i64,
    pub status: DurableWorkStatus,
    pub lease_owner: Option<String>,
    pub lease_expires_at: Option<i64>,
    pub revision: u64,
    pub finished_at: Option<i64>,
    pub last_error: Option<String>,
    pub created_at: i64,
    pub updated_at: i64,
}

/// A message that was refused, because another has its name or its place.
#[derive(Debug, PartialEq, Eq)]
pub struct StoredInboundRejection {
    pub rejection_id: String,
    pub message_id: MessageId,
    pub session_id: SessionId,
    pub client_id: ClientId,
    pub account_id: AccountId,
    pub terminal_id: Option<TerminalId>,
    pub message_type: String,
    pub schema_version: String,
    pub sequence: u64,
    pub correlation_id: Option<CorrelationId>,
    pub causation_id: Option<CausationId>,
    pub envelope: CanonicalJson,
    pub reason: ErrorCode,
    pub received_at: i64,
    pub created_at: i64,
}

/// What became of a message that came in.
#[derive(Debug, PartialEq, Eq)]
pub enum DurableInboundAdmissionOutcome {
    Accepted(StoredInboundAdmission),
    Duplicate(StoredInboundAdmission),
    Rejected(StoredInboundRejection),
}

/// A session that is resumed.
#[derive(Debug, PartialEq, Eq)]
pub struct NewSessionResumeAdmission {
    pub hello_message_id: MessageId,
    pub session_id: SessionId,
    pub client_id: ClientId,
    pub account_id: AccountId,
    pub terminal_id: Option<TerminalId>,
    pub cursor: CanonicalJson,
    pub received_at: i64,
    pub created_at: i64,
}

/// A session that is resumed, written down to be worked on.
#[derive(Debug, PartialEq, Eq)]
pub struct StoredSessionResumeAdmission {
    pub hello_message_id: MessageId,
    pub session_id: SessionId,
    pub client_id: ClientId,
    pub account_id: AccountId,
    pub terminal_id: Option<TerminalId>,
    pub cursor: CanonicalJson,
    pub received_at: i64,
    pub status: DurableWorkStatus,
    pub lease_owner: Option<String>,
    pub lease_expires_at: Option<i64>,
    pub revision: u64,
    pub reconciliation_request_id: Option<RequestId>,
    pub finished_at: Option<i64>,
    pub last_error: Option<String>,
    pub created_at: i64,
    pub updated_at: i64,
}

/// What became of a session that is resumed.
#[derive(Debug, PartialEq, Eq)]
pub enum DurableSessionResumeAdmissionOutcome {
    Accepted(StoredSessionResumeAdmission),
    Duplicate(StoredSessionResumeAdmission),
}

/// A worker asks for work that waits.
#[derive(Debug, PartialEq, Eq)]
pub struct ClaimDurableWork {
    pub worker_id: String,
    pub claimed_at: i64,
    pub lease_expires_at: i64,
}

/// A worker asks for work that another has abandoned.
#[derive(Debug, PartialEq, Eq)]
pub struct ReclaimDurableWork {
    pub worker_id: String,
    pub reclaimed_at: i64,
    pub lease_expires_at: i64,
}

/// A worker is done with a message.
#[derive(Debug, PartialEq, Eq)]
pub struct CompleteInboundAdmission {
    pub message_id: MessageId,
    pub expected_revision: u64,
    pub worker_id: String,
    pub completed_at: i64,
}

/// A worker gave up on a message.
#[derive(Debug, PartialEq, Eq)]
pub struct FailInboundAdmission {
    pub message_id: MessageId,
    pub expected_revision: u64,
    pub worker_id: String,
    pub failed_at: i64,
    pub error: String,
}

/// A worker is done with a resumed session.
#[derive(Debug, PartialEq, Eq)]
pub struct CompleteSessionResumeAdmission {
    pub hello_message_id: MessageId,
    pub expected_revision: u64,
    pub worker_id: String,
    pub completed_at: i64,
    pub reconciliation_request_id: Option<RequestId>,
}

/// A worker gave up on a resumed session.
#[derive(Debug, PartialEq, Eq)]
pub struct FailSessionResumeAdmission {
    pub hello_message_id: MessageId,
    pub expected_revision: u64,
    pub worker_id: String,
    pub failed_at: i64,
    pub error: String,
}

/// The columns of a message that came in.
pub struct InboundRow {
    pub message_id: String,
    pub session_id: String,
    pub client_id: String,
    pub account_id: String,
    pub terminal_id: Option<String>,
    pub message_type: String,
    pub schema_version: String,
    pub sequence: i64,
    pub correlation_id: Option<String>,
    pub causation_id: Option<String>,
    pub envelope: JsonColumns,
    pub raw_payload_length: Option<i64>,
    pub received_at: i64,
    pub status: String,
    pub lease_owner: Option<String>,
    pub lease_expires_at: Option<i64>,
    pub revision: i64,
    pub finished_at: Option<i64>,
    pub last_error: Option<String>,
    pub created_at: i64,
    pub updated_at: i64,
}

/// The columns of a message that was refused.
pub struct RejectionRow {
    pub rejection_id: String,
    pub message_id: String,
    pub session_id: String,
    pub client_id: String,
    pub account_id: String,
    pub terminal_id: Option<String>,
    pub message_type: String,
    pub schema_version: String,
    pub sequence: i64,
    pub correlation_id: Option<String>,
    pub causation_id: Option<String>,
    pub envelope: JsonColumns,
    pub reason: EnumColumn<ErrorCode>,
    pub received_at: i64,
    pub created_at: i64,
}

/// The columns of a session that is resumed.
pub struct ResumeRow {
    pub hello_message_id: String,
    pub session_id: String,
    pub client_id: String,
    pub account_id: String,
    pub terminal_id: Option<String>,
    pub cursor: JsonColumns,
    pub received_at: i64,
    pub status: String,
    pub lease_owner: Option<String>,
    pub lease_expires_at: Option<i64>,
    pub revision: i64,
    pub reconciliation_request_id: Option<String>,
    pub finished_at: Option<i64>,
    pub last_error: Option<String>,
    pub created_at: i64,
    pub updated_at: i64,
}

/// What is wrong with a text that must be given.
pub open spec fn given_fault(field: Seq<char>, value: Seq<char>) -> Option<Fault> {
    if text::blank(value) {
        Some(
            error::invalid_fault("inbound_durability"@, field, field + " must not be empty"@),
        )
    } else {
        None
    }
}

fn require_given(field: &'static str, value: &str) -> (r: Result<(), StoreError>)
    ensures
        error::fault(r) == given_fault(field@, value@),
{
    if is_blank(value) {
        let reason = join2(field, " must not be empty");
        Err(StoreError::invalid("inbound_durability", field, reason.as_str()))
    } else {
        Ok(())
    }
}

/// What is wrong with a time.
pub open spec fn time_fault(entity: Seq<char>, value: i64) -> Option<Fault> {
    if value < 0 {
        Some(
            error::invalid_fault(
                entity,
                text::signed_decimal(value as int),
                "timestamp must be non-negative"@,
            ),
        )
    } else {
        None
    }
}

fn validate_time(entity: &'static str, value: i64) -> (r: Result<(), StoreError>)
    ensures
        error::fault(r) == time_fault(entity@, value),
{
    if value < 0 {
        Err(
            StoreError::invalid(
                entity,
                signed_decimal_text(value).as_str(),
                "timestamp must be non-negative",
            ),
        )
    } else {
        Ok(())
    }
}

/// What is wrong with a claim.
pub open spec fn claim_fault(worker_id: Seq<char>, at: i64, lease_expires_at: i64) -> Option<
    Fault,
> {
    let f = given_fault("worker_id"@, worker_id);
    let f = error::first_of(f, time_fault("durable work claim"@, at));
    error::first_of(
        f,
        if lease_expires_at <= at {
            Some(
                error::invalid_fault(
                    "durable_work_claim"@,
                    worker_id,
                    "lease_expires_at must be later than the claim time"@,
                ),
            )
        } else {
            None
        },
    )
}

/// Refuses a claim that is not in order.
pub fn validate_claim(worker_id: &str, at: i64, lease_expires_at: i64) -> (r: Result<
    (),
    StoreError,
>)
    ensures
        error::fault(r) == claim_fault(worker_id@, at, lease_expires_at),
{
    require_given("worker_id", worker_id)?;
    validate_time("durable work claim", at)?;
    if lease_expires_at <= at {
        return Err(
            StoreError::invalid(
                "durable_work_claim",
                worker_id,
                "lease_expires_at must be later than the claim time",
            ),
        );
    }
    Ok(())
}

/// The envelope says what its columns say.
pub open spec fn envelope_agrees(envelope: json::JsonTree, admission: NewInboundAdmission) -> bool {
    &&& json::member_text(envelope, "message_id"@) == Some(admission.message_id@)
    &&& json::member_text(envelope, "type"@) == Some(admission.message_type@)
    &&& json::member_text(envelope, "schema_version"@) == Some(admission.schema_version@)
    &&& json::member_text(envelope, "session_id"@) == Some(admission.session_id@)
    &&& json::member(envelope, "sequence"@) == Some(
        json::JsonTree::Natural(admission.sequence as nat),
    )
    &&& json::member_text(envelope, "client_id"@) matches Some(client_id) ==> client_id
        == admission.client_id@
    &&& json::member_text(envelope, "correlation_id"@) == text::optional_text(
        admission.correlation_id,
    )
    &&& json::member_text(envelope, "causation_id"@) == text::optional_text(
        admission.causation_id,
    )
}

/// What is wrong with the envelope of a message.
pub open spec fn envelope_fault(admission: NewInboundAdmission) -> Option<Fault> {
    match json::parsed_json(admission.envelope@) {
        Err(error) => Some(Fault::Serialization(error)),
        Ok(envelope) => if !(envelope is Object) {
            Some(
                error::invalid_fault(
                    "inbound_admission"@,
                    admission.message_id@,
                    "canonical envelope must be a JSON object"@,
                ),
            )
        } else if !envelope_agrees(envelope, admission) {
            Some(
                error::invalid_fault(
                    "inbound_admission"@,
                    admission.message_id@,
                    "canonical envelope identity differs from indexed columns"@,
                ),
            )
        } else {
            None
        },
    }
}

/// Refuses an envelope that does not say what its columns say.
pub fn validate_envelope_identity(admission: &NewInboundAdmission) -> (r: Result<(), StoreError>)
    ensures
        error::fault(r) == envelope_fault(*admission),
{
    let envelope = match JsonDocument::read(admission.envelope.as_str()) {
        Ok(envelope) => envelope,
        Err(error) => {
            return Err(StoreError::Serialization(error));
        },
    };
    if !envelope.is_object() {
        return Err(
            StoreError::invalid(
                "inbound_admission",
                admission.message_id.as_str(),
                "canonical envelope must be a JSON object",
            ),
        );
    }
    let same_client = match envelope.text_member("client_id") {
        Some(client_id) => same_text(client_id.as_str(), admission.client_id.as_str()),
        None => true,
    };
    let agrees = optional_is(
        &envelope.text_member("message_id"),
        admission.message_id.as_str(),
    ) && optional_is(&envelope.text_member("type"), admission.message_type.as_str())
        && optional_is(
        &envelope.text_member("schema_version"),
        admission.schema_version.as_str(),
    ) && optional_is(&envelope.text_member("session_id"), admission.session_id.as_str())
        && envelope.member_is_natural("sequence", admission.sequence) && same_client
        && same_optional(&envelope.text_member("correlation_id"), &admission.correlation_id)
        && same_optional(&envelope.text_member("causation_id"), &admission.causation_id);
    if agrees {
        Ok(())
    } else {
        Err(
            StoreError::invalid(
                "inbound_admission",
                admission.message_id.as_str(),
                "canonical envelope identity differs from indexed columns",
            ),
        )
    }
}

/// What is wrong with a message that came in.
pub open spec fn new_inbound_fault(admission: NewInboundAdmission) -> Option<Fault> {
    let f = given_fault("message_id"@, admission.message_id@);
    let f = error::first_of(f, given_fault("session_id"@, admission.session_id@));
    let f = error::first_of(f, given_fault("client_id"@, admission.client_id@));
    let f = error::first_of(f, given_fault("account_id"@, admission.account_id@));
    let f = error::first_of(f, given_fault("message_type"@, admission.message_type@));
    let f = error::first_of(f, given_fault("schema_version"@, admission.schema_version@));
    let f = error::first_of(
        f,
        if admission.sequence == 0 {
            Some(Fault::InvalidSequence { field: "inbound_admissions.sequence"@ })
        } else {
            None
        },
    );
    let f = error::first_of(
        f,
        match admission.raw_payload_length {
            Some(length) => numbers::stored_integer_fault(
                "inbound_admissions.raw_payload_length"@,
                length as nat,
            ),
            None => None,
        },
    );
    let f = error::first_of(f, time_fault("inbound admission"@, admission.received_at));
    let f = error::first_of(f, time_fault("inbound admission"@, admission.created_at));
    error::first_of(f, envelope_fault(admission))
}

/// Refuses a message that cannot be written down.
pub fn validate_new_inbound(admission: &NewInboundAdmission) -> (r: Result<(), StoreError>)
    ensures
        error::fault(r) == new_inbound_fault(*admission),
{
    require_given("message_id", admission.message_id.as_str())?;
    require_given("session_id", admission.session_id.as_str())?;
    require_given("client_id", admission.client_id.as_str())?;
    require_given("account_id", admission.account_id.as_str())?;
    require_given("message_type", admission.message_type.as_str())?;
    require_given("schema_version", admission.schema_version.as_str())?;
    if admission.sequence == 0 {
        return Err(StoreError::InvalidSequence { field: "inbound_admissions.sequence" });
    }
    if let Some(length) = admission.raw_payload_length {
        u64_to_i64("inbound_admissions.raw_payload_length", length)?;
    }
    validate_time("inbound admission", admission.received_at)?;
    validate_time("inbound admission", admission.created_at)?;
    validate_envelope_identity(admission)
}

/// What is wrong with a session that is resumed.
pub open spec fn new_resume_fault(admission: NewSessionResumeAdmission) -> Option<Fault> {
    let f = given_fault("hello_message_id"@, admission.hello_message_id@);
    let f = error::first_of(f, given_fault("session_id"@, admission.session_id@));
    let f = error::first_of(f, given_fault("client_id"@, admission.client_id@));
    let f = error::first_of(f, given_fault("account_id"@, admission.account_id@));
    let f = error::first_of(f, time_fault("session resume admission"@, admission.received_at));
    error::first_of(f, time_fault("session resume admission"@, admission.created_at))
}

/// Refuses a session that cannot be resumed.
pub fn validate_new_resume(admission: &NewSessionResumeAdmission) -> (r: Result<(), StoreError>)
    ensures
        error::fault(r) == new_resume_fault(*admission),
{
    require_given("hello_message_id", admission.hello_message_id.as_str())?;
    require_given("session_id", admission.session_id.as_str())?;
    require_given("client_id", admission.client_id.as_str())?;
    require_given("account_id", admission.account_id.as_str())?;
    validate_time("session resume admission", admission.received_at)?;
    validate_time("session resume admission", admission.created_at)
}

/// The stored message is the incoming one.
pub open spec fn same_message(
    stored: StoredInboundAdmission,
    incoming: NewInboundAdmission,
) -> bool {
    &&& stored.message_id@ == incoming.message_id@
    &&& stored.session_id@ == incoming.session_id@
    &&& stored.client_id@ == incoming.client_id@
    &&& stored.account_id@ == incoming.account_id@
    &&& text::optional_text(stored.terminal_id) == text::optional_text(incoming.terminal_id)
    &&& stored.message_type@ == incoming.message_type@
    &&& stored.schema_version@ == incoming.schema_version@
    &&& stored.sequence == incoming.sequence
    &&& text::optional_text(stored.correlation_id) == text::optional_text(incoming.correlation_id)
    &&& text::optional_text(stored.causation_id) == text::optional_text(incoming.causation_id)
    &&& stored.envelope@ == incoming.envelope@
}

/// Whether the stored message is the incoming one.
pub fn same_inbound_identity(stored: &StoredInboundAdmission, incoming: &NewInboundAdmission) -> (r:
    bool)
    ensures
        r == same_message(*stored, *incoming),
{
    same_text(stored.message_id.as_str(), incoming.message_id.as_str())
        && same_text(stored.session_id.as_str(), incoming.session_id.as_str())
        && same_text(stored.client_id.as_str(), incoming.client_id.as_str())
        && same_text(stored.account_id.as_str(), incoming.account_id.as_str())
        && same_optional(&stored.terminal_id, &incoming.terminal_id)
        && same_text(stored.message_type.as_str(), incoming.message_type.as_str())
        && same_text(stored.schema_version.as_str(), incoming.schema_version.as_str())
        && stored.sequence == incoming.sequence
        && same_optional(&stored.correlation_id, &incoming.correlation_id)
        && same_optional(&stored.causation_id, &incoming.causation_id)
        && stored.envelope.same(&incoming.envelope)
}

/// The refused message is the incoming one, refused for the same reason.
pub open spec fn same_rejection(
    stored: StoredInboundRejection,
    incoming: NewInboundAdmission,
    reason: Seq<char>,
) -> bool {
    &&& stored.message_id@ == incoming.message_id@
    &&& stored.session_id@ == incoming.session_id@
    &&& stored.client_id@ == incoming.client_id@
    &&& stored.account_id@ == incoming.account_id@
    &&& text::optional_text(stored.terminal_id) == text::optional_text(incoming.terminal_id)
    &&& stored.message_type@ == incoming.message_type@
    &&& stored.schema_version@ == incoming.schema_version@
    &&& stored.sequence == incoming.sequence
    &&& text::optional_text(stored.correlation_id) == text::optional_text(incoming.correlation_id)
    &&& text::optional_text(stored.causation_id) == text::optional_text(incoming.causation_id)
    &&& stored.envelope@ == incoming.envelope@
    &&& stored.reason@ == reason
}

/// Whether the refused message is the incoming one, refused for the same reason.
pub fn same_rejection_identity(
    stored: &StoredInboundRejection,
    incoming: &NewInboundAdmission,
    reason: &ErrorCode,
) -> (r: bool)
    ensures
        r == same_rejection(*stored, *incoming, reason@),
{
    same_text(stored.message_id.as_str(), incoming.message_id.as_str())
        && same_text(stored.session_id.as_str(), incoming.session_id.as_str())
        && same_text(stored.client_id.as_str(), incoming.client_id.as_str())
        && same_text(stored.account_id.as_str(), incoming.account_id.as_str())
        && same_optional(&stored.terminal_id, &incoming.terminal_id)
        && same_text(stored.message_type.as_str(), incoming.message_type.as_str())
        && same_text(stored.schema_version.as_str(), incoming.schema_version.as_str())
        && stored.sequence == incoming.sequence
        && same_optional(&stored.correlation_id, &incoming.correlation_id)
        && same_optional(&stored.causation_id, &incoming.causation_id)
        && stored.envelope.same(&incoming.envelope) && same_text(stored.reason.as_str(), reason.as_str())
}

/// The stored session is the incoming one.
pub open spec fn same_resume(
    stored: StoredSessionResumeAdmission,
    incoming: NewSessionResumeAdmission,
) -> bool {
    &&& stored.hello_message_id@ == incoming.hello_message_id@
    &&& stored.session_id@ == incoming.session_id@
    &&& stored.client_id@ == incoming.client_id@
    &&& stored.account_id@ == incoming.account_id@
    &&& text::optional_text(stored.terminal_id) == text::optional_text(incoming.terminal_id)
    &&& stored.cursor@ == incoming.cursor@
}

/// Whether the stored session is the incoming one.
pub fn same_resume_identity(
    stored: &StoredSessionResumeAdmission,
    incoming: &NewSessionResumeAdmission,
) -> (r: bool)
    ensures
        r == same_resume(*stored, *incoming),
{
    same_text(stored.hello_message_id.as_str(), incoming.hello_message_id.as_str())
        && same_text(stored.session_id.as_str(), incoming.session_id.as_str())
        && same_text(stored.client_id.as_str(), incoming.client_id.as_str())
        && same_text(stored.account_id.as_str(), incoming.account_id.as_str())
        && same_optional(&stored.terminal_id, &incoming.terminal_id)
        && stored.cursor.same(&incoming.cursor)
}

/// What the name of a refusal is made of.
pub open spec fn rejection_identity(admission: NewInboundAdmission, reason: Seq<char>) -> Seq<
    char,
> {
    admission.message_id@ + "\u{1f}"@ + admission.session_id@ + "\u{1f}"@ + text::decimal(
        admission.sequence as nat,
    ) + "\u{1f}"@ + json::text_digest(admission.envelope@) + "\u{1f}"@ + reason
}

/// The name of a refusal.
pub open spec fn rejection_name(admission: NewInboundAdmission, reason: Seq<char>) -> Seq<char> {
    "inbound-rejection-"@ + json::text_digest(rejection_identity(admission, reason))
}

/// The name of a refusal: the same for the same message and reason.
pub fn rejection_id(admission: &NewInboundAdmission, reason: &ErrorCode) -> (r: String)
    ensures
        r@ == rejection_name(*admission, reason@),
{
    let mut identity = admission.message_id.clone();
    identity.append("\u{1f}");
    identity.append(admission.session_id.as_str());
    identity.append("\u{1f}");
    append_decimal(&mut identity, admission.sequence);
    identity.append("\u{1f}");
    identity.append(admission.envelope.sha256_hex());
    identity.append("\u{1f}");
    identity.append(reason.as_str());
    join2("inbound-rejection-", sha256_hex(identity.as_str()).as_str())
}

/// What is to become of a message that came in.
pub enum InboundDecision {
    /// It is to be written down.
    Accept,
    /// It is there already.
    Duplicate(StoredInboundAdmission),
    /// It is to be refused, under this name.
    Reject(String),
}

/// Decides about a message that came in. `conflicts` holds the stored messages
/// that have its name, or its place in its session; `reason` is why it is
/// refused where it is not one of them.
pub fn admit_inbound(
    admission: &NewInboundAdmission,
    conflicts: Vec<StoredInboundAdmission>,
    reason: &ErrorCode,
) -> (r: Result<InboundDecision, StoreError>)
    ensures
        error::fault(r) == error::first_of(
            new_inbound_fault(*admission),
            numbers::stored_integer_fault(
                "inbound_admissions.sequence"@,
                admission.sequence as nat,
            ),
        ),
        r matches Ok(decision) ==> (if conflicts@.len() == 0 {
            decision is Accept
        } else if conflicts@.len() == 1 && same_message(conflicts@[0], *admission) {
            decision == InboundDecision::Duplicate(conflicts@[0])
        } else {
            decision matches InboundDecision::Reject(name) && name@ == rejection_name(
                *admission,
                reason@,
            )
        }),
{
    validate_new_inbound(admission)?;
    u64_to_i64("inbound_admissions.sequence", admission.sequence)?;
    let mut conflicts = conflicts;
    if conflicts.len() == 0 {
        return Ok(InboundDecision::Accept);
    }
    if conflicts.len() == 1 && same_inbound_identity(&conflicts[0], admission) {
        let only = conflicts.remove(0);
        return Ok(InboundDecision::Duplicate(only));
    }
    Ok(InboundDecision::Reject(rejection_id(admission, reason)))
}

/// Takes note that a message was written down.
pub fn accepted_inbound(message_id: &MessageId, stored: Option<StoredInboundAdmission>) -> (r:
    Result<DurableInboundAdmissionOutcome, StoreError>)
    ensures
        error::fault(r) == (if stored is None {
            Some(error::missing_fault("inbound_admission"@, message_id@))
        } else {
            None
        }),
        r matches Ok(outcome) ==> stored is Some && outcome
            == DurableInboundAdmissionOutcome::Accepted(stored->0),
{
    match stored {
        Some(stored) => Ok(DurableInboundAdmissionOutcome::Accepted(stored)),
        None => Err(StoreError::missing("inbound_admission", message_id.as_str())),
    }
}

/// Takes note that a message was refused. `stored` is the refusal that is
/// written down under its name.
pub fn rejected_inbound(
    admission: &NewInboundAdmission,
    reason: &ErrorCode,
    stored: Option<StoredInboundRejection>,
) -> (r: Result<DurableInboundAdmissionOutcome, StoreError>)
    ensures
        error::fault(r) == (match stored {
            None => Some(
                error::missing_fault("inbound_rejection"@, rejection_name(*admission, reason@)),
            ),
            Some(found) => if same_rejection(found, *admission, reason@) {
                None
            } else {
                Some(
                    error::conflict_fault(
                        "inbound_rejection"@,
                        rejection_name(*admission, reason@),
                    ),
                )
            },
        }),
        r matches Ok(outcome) ==> stored is Some && outcome
            == DurableInboundAdmissionOutcome::Rejected(stored->0),
{
    match stored {
        Some(stored) => {
            if !same_rejection_identity(&stored, admission, reason) {
                return Err(
                    StoreError::conflict(
                        "inbound_rejection",
                        rejection_id(admission, reason).as_str(),
                    ),
                );
            }
            Ok(DurableInboundAdmissionOutcome::Rejected(stored))
        },
        None => Err(
            StoreError::missing("inbound_rejection", rejection_id(admission, reason).as_str()),
        ),
    }
}

/// Decides about a session that is resumed: it is new, or known, or contradicts
/// what is known. `conflicts` holds the stored ones that share its name or its
/// session.
pub fn admit_session_resume(
    admission: &NewSessionResumeAdmission,
    conflicts: Vec<StoredSessionResumeAdmission>,
) -> (r: Result<Option<DurableSessionResumeAdmissionOutcome>, StoreError>)
    ensures
        error::fault(r) == error::first_of(
            new_resume_fault(*admission),
            if conflicts@.len() == 0 || (conflicts@.len() == 1 && same_resume(
                conflicts@[0],
                *admission,
            )) {
                None
            } else {
                Some(
                    error::conflict_fault(
                        "session_resume_admission"@,
                        admission.hello_message_id@,
                    ),
                )
            },
        ),
        r matches Ok(outcome) ==> outcome == (if conflicts@.len() == 0 {
            None
        } else {
            Some(DurableSessionResumeAdmissionOutcome::Duplicate(conflicts@[0]))
        }),
{
    validate_new_resume(admission)?;
    let mut conflicts = conflicts;
    if conflicts.len() == 0 {
        return Ok(None);
    }
    if conflicts.len() == 1 && same_resume_identity(&conflicts[0], admission) {
        let only = conflicts.remove(0);
        return Ok(Some(DurableSessionResumeAdmissionOutcome::Duplicate(only)));
    }
    Err(
        StoreError::conflict("session_resume_admission", admission.hello_message_id.as_str()),
    )
}

/// Takes note that a resumed session was written down.
pub fn accepted_resume(
    hello_message_id: &MessageId,
    stored: Option<StoredSessionResumeAdmission>,
) -> (r: Result<DurableSessionResumeAdmissionOutcome, StoreError>)
    ensures
        error::fault(r) == (if stored is None {
            Some(error::missing_fault("session_resume_admission"@, hello_message_id@))
        } else {
            None
        }),
        r matches Ok(outcome) ==> stored is Some && outcome
            == DurableSessionResumeAdmissionOutcome::Accepted(stored->0),
{
    match stored {
        Some(stored) => Ok(DurableSessionResumeAdmissionOutcome::Accepted(stored)),
        None => Err(
            StoreError::missing("session_resume_admission", hello_message_id.as_str()),
        ),
    }
}

/// What is wrong with a stored count.
pub open spec fn count_fault(entity: Seq<char>, key: Seq<char>, value: i64) -> Option<Fault> {
    if value < 0 {
        Some(
            error::corrupt_fault(
                entity,
                key,
                "negative integer value "@ + text::signed_decimal(value as int),
            ),
        )
    } else {
        None
    }
}

fn i64_to_u64(entity: &'static str, key: &str, value: i64) -> (r: Result<u64, StoreError>)
    ensures
        error::fault(r) == count_fault(entity@, key@, value),
        r matches Ok(count) ==> count == value,
{
    if value < 0 {
        let reason = join2("negative integer value ", signed_decimal_text(value).as_str());
        Err(StoreError::corrupt(entity, key, reason.as_str()))
    } else {
        Ok(value as u64)
    }
}

/// What is wrong with the text of a status.
pub open spec fn status_fault(entity: Seq<char>, key: Seq<char>, raw: Seq<char>) -> Option<Fault> {
    if DurableWorkStatus::named(raw) is Some {
        None
    } else {
        Some(error::corrupt_fault(entity, key, "unknown durable work status "@ + raw))
    }
}

fn parse_work_status(entity: &'static str, key: &str, value: &str) -> (r: Result<
    DurableWorkStatus,
    StoreError,
>)
    ensures
        error::fault(r) == status_fault(entity@, key@, value@),
        r matches Ok(status) ==> DurableWorkStatus::named(value@) == Some(status),
{
    match DurableWorkStatus::parse(value) {
        Some(status) => Ok(status),
        None => {
            let reason = join2("unknown durable work status ", value);
            Err(StoreError::corrupt(entity, key, reason.as_str()))
        },
    }
}

/// What is wrong with a stored message.
pub open spec fn inbound_row_fault(row: InboundRow) -> Option<Fault> {
    let id = row.message_id@;
    let f = count_fault("inbound_admissions"@, id, row.sequence);
    let f = error::first_of(
        f,
        json::stored_fault("inbound_admission"@, id, row.envelope.text@, row.envelope.digest@),
    );
    let f = error::first_of(
        f,
        match row.raw_payload_length {
            Some(length) => count_fault("inbound_admissions"@, id, length),
            None => None,
        },
    );
    let f = error::first_of(f, status_fault("inbound_admission"@, id, row.status@));
    error::first_of(f, count_fault("inbound_admissions"@, id, row.revision))
}

/// The stored count is the column.
pub open spec fn optional_count(count: Option<u64>, column: Option<i64>) -> bool {
    match (count, column) {
        (Some(count), Some(column)) => count == column,
        (None, None) => true,
        _ => false,
    }
}

/// The message is what the row holds.
pub open spec fn inbound_reads(row: InboundRow, stored: StoredInboundAdmission) -> bool {
    &&& stored.message_id == row.message_id
    &&& stored.session_id == row.session_id
    &&& stored.client_id == row.client_id
    &&& stored.account_id == row.account_id
    &&& stored.terminal_id == row.terminal_id
    &&& stored.message_type == row.message_type
    &&& stored.schema_version == row.schema_version
    &&& stored.sequence == row.sequence
    &&& stored.correlation_id == row.correlation_id
    &&& stored.causation_id == row.causation_id
    &&& stored.envelope@ == row.envelope.text@
    &&& optional_count(stored.raw_payload_length, row.raw_payload_length)
    &&& stored.received_at == row.received_at
    &&& DurableWorkStatus::named(row.status@) == Some(stored.status)
    &&& stored.lease_owner == row.lease_owner
    &&& stored.lease_expires_at == row.lease_expires_at
    &&& stored.revision == row.revision
    &&& stored.finished_at == row.finished_at
    &&& stored.last_error == row.last_error
    &&& stored.created_at == row.created_at
    &&& stored.updated_at == row.updated_at
}

/// Reads a stored message.
pub fn inbound_from_row(row: &InboundRow) -> (r: Result<StoredInboundAdmission, StoreError>)
    ensures
        error::fault(r) == inbound_row_fault(*row),
        r matches Ok(stored) ==> inbound_reads(*row, stored),
{
    let id = row.message_id.as_str();
    let sequence: u64 = i64_to_u64("inbound_admissions", id, row.sequence)?;
    let envelope = CanonicalJson::from_stored(
        "inbound_admission",
        id,
        row.envelope.text.clone(),
        row.envelope.digest.clone(),
    )?;
    let raw_payload_length: Option<u64> = match row.raw_payload_length {
        Some(length) => {
            let length: u64 = i64_to_u64("inbound_admissions", id, length)?;
            Some(length)
        },
        None => None,
    };
    let status = parse_work_status("inbound_admission", id, row.status.as_str())?;
    let revision: u64 = i64_to_u64("inbound_admissions", id, row.revision)?;
    Ok(
        StoredInboundAdmission {
            message_id: row.message_id.clone(),
            session_id: row.session_id.clone(),
            client_id: row.client_id.clone(),
            account_id: row.account_id.clone(),
            terminal_id: copy_optional(&row.terminal_id),
            message_type: row.message_type.clone(),
            schema_version: row.schema_version.clone(),
            sequence,
            correlation_id: copy_optional(&row.correlation_id),
            causation_id: copy_optional(&row.causation_id),
            envelope,
            raw_payload_length,
            received_at: row.received_at,
            status,
            lease_owner: copy_optional(&row.lease_owner),
            lease_expires_at: row.lease_expires_at,
            revision,
            finished_at: row.finished_at,
            last_error: copy_optional(&row.last_error),
            created_at: row.created_at,
            updated_at: row.updated_at,
        },
    )
}

/// What is wrong with a stored refusal.
pub open spec fn rejection_row_fault(row: RejectionRow) -> Option<Fault> {
    let id = row.rejection_id@;
    let f = match row.reason.parsed {
        Ok(_) => None,
        Err(_) => Some(
            error::corrupt_fault(
                "inbound_rejection"@,
                id,
                "unknown reason "@ + row.reason.text@,
            ),
        ),
    };
    let f = error::first_of(f, count_fault("inbound_rejection"@, id, row.sequence));
    error::first_of(
        f,
        json::stored_fault("inbound_rejection"@, id, row.envelope.text@, row.envelope.digest@),
    )
}

/// Reads a stored refusal.
pub fn inbound_rejection_from_row(row: RejectionRow) -> (r: Result<
    StoredInboundRejection,
    StoreError,
>)
    ensures
        error::fault(r) == rejection_row_fault(row),
        r matches Ok(stored) ==> {
            &&& stored.rejection_id == row.rejection_id
            &&& stored.message_id == row.message_id
            &&& stored.session_id == row.session_id
            &&& stored.client_id == row.client_id
            &&& stored.account_id == row.account_id
            &&& stored.terminal_id == row.terminal_id
            &&& stored.message_type == row.message_type
            &&& stored.schema_version == row.schema_version
            &&& stored.sequence == row.sequence
            &&& stored.correlation_id == row.correlation_id
            &&& stored.causation_id == row.causation_id
            &&& stored.envelope@ == row.envelope.text@
            &&& stored.reason == row.reason.parsed->Ok_0
            &&& stored.received_at == row.received_at
            &&& stored.created_at == row.created_at
        },
{
    let id = row.rejection_id.as_str();
    let reason = match row.reason.parsed {
        Ok(reason) => reason,
        Err(_) => {
            let reason = join2("unknown reason ", row.reason.text.as_str());
            return Err(StoreError::corrupt("inbound_rejection", id, reason.as_str()));
        },
    };
    let sequence: u64 = i64_to_u64("inbound_rejection", id, row.sequence)?;
    let envelope = CanonicalJson::from_stored(
        "inbound_rejection",
        id,
        row.envelope.text,
        row.envelope.digest,
    )?;
    Ok(
        StoredInboundRejection {
            rejection_id: row.rejection_id,
            message_id: row.message_id,
            session_id: row.session_id,
            client_id: row.client_id,
            account_id: row.account_id,
            terminal_id: row.terminal_id,
            message_type: row.message_type,
            schema_version: row.schema_version,
            sequence,
            correlation_id: row.correlation_id,
            causation_id: row.causation_id,
            envelope,
            reason,
            received_at: row.received_at,
            created_at: row.created_at,
        },
    )
}

/// What is wrong with a stored resumed session.
pub open spec fn resume_row_fault(row: ResumeRow) -> Option<Fault> {
    let entity = "session_resume_admission"@;
    let id = row.hello_message_id@;
    let f = json::stored_fault(entity, id, row.cursor.text@, row.cursor.digest@);
    let f = error::first_of(f, status_fault(entity, id, row.status@));
    error::first_of(f, count_fault(entity, id, row.revision))
}

/// The resumed session is what the row holds.
pub open spec fn resume_reads(row: ResumeRow, stored: StoredSessionResumeAdmission) -> bool {
    &&& stored.hello_message_id == row.hello_message_id
    &&& stored.session_id == row.session_id
    &&& stored.client_id == row.client_id
    &&& stored.account_id == row.account_id
    &&& stored.terminal_id == row.terminal_id
    &&& stored.cursor@ == row.cursor.text@
    &&& stored.received_at == row.received_at
    &&& DurableWorkStatus::named(row.status@) == Some(stored.status)
    &&& stored.lease_owner == row.lease_owner
    &&& stored.lease_expires_at == row.lease_expires_at
    &&& stored.revision == row.revision
    &&& stored.reconciliation_request_id == row.reconciliation_request_id
    &&& stored.finished_at == row.finished_at
    &&& stored.last_error == row.last_error
    &&& stored.created_at == row.created_at
    &&& stored.updated_at == row.updated_at
}

/// Reads a stored resumed session.
pub fn resume_from_row(row: &ResumeRow) -> (r: Result<StoredSessionResumeAdmission, StoreError>)
    ensures
        error::fault(r) == resume_row_fault(*row),
        r matches Ok(stored) ==> resume_reads(*row, stored),
{
    let id = row.hello_message_id.as_str();
    let cursor = CanonicalJson::from_stored(
        "session_resume_admission",
        id,
        row.cursor.text.clone(),
        row.cursor.digest.clone(),
    )?;
    let status = parse_work_status("session_resume_admission", id, row.status.as_str())?;
    let revision: u64 = i64_to_u64("session_resume_admission", id, row.revision)?;
    Ok(
        StoredSessionResumeAdmission {
            hello_message_id: row.hello_message_id.clone(),
            session_id: row.session_id.clone(),
            client_id: row.client_id.clone(),
            account_id: row.account_id.clone(),
            terminal_id: copy_optional(&row.terminal_id),
            cursor,
            received_at: row.received_at,
            status,
            lease_owner: copy_optional(&row.lease_owner),
            lease_expires_at: row.lease_expires_at,
            revision,
            reconciliation_request_id: copy_optional(&row.reconciliation_request_id),
            finished_at: row.finished_at,
            last_error: copy_optional(&row.last_error),
            created_at: row.created_at,
            updated_at: row.updated_at,
        },
    )
}

/// A row of a queue of work.
pub trait Queued: Sized {
    /// The text of its status.
    spec fn state(&self) -> Seq<char>;

    /// When it came in.
    spec fn since(&self) -> i64;

    /// Until when it is leased.
    spec fn leased_until(&self) -> Option<i64>;

    /// Its name.
    spec fn name(&self) -> Seq<char>;

    fn state_text(&self) -> (r: &str)
        ensures
            r@ == self.state(),
    ;

    fn came_in_at(&self) -> (r: i64)
        ensures
            r == self.since(),
    ;

    fn lease_end(&self) -> (r: Option<i64>)
        ensures
            r == self.leased_until(),
    ;

    fn name_text(&self) -> (r: &str)
        ensures
            r@ == self.name(),
    ;
}

impl Queued for InboundRow {
    open spec fn state(&self) -> Seq<char> {
        self.status@
    }

    open spec fn since(&self) -> i64 {
        self.received_at
    }

    open spec fn leased_until(&self) -> Option<i64> {
        self.lease_expires_at
    }

    open spec fn name(&self) -> Seq<char> {
        self.message_id@
    }

    fn state_text(&self) -> (r: &str) {
        self.status.as_str()
    }

    fn came_in_at(&self) -> (r: i64) {
        self.received_at
    }

    fn lease_end(&self) -> (r: Option<i64>) {
        self.lease_expires_at
    }

    fn name_text(&self) -> (r: &str) {
        self.message_id.as_str()
    }
}

impl Queued for ResumeRow {
    open spec fn state(&self) -> Seq<char> {
        self.status@
    }

    open spec fn since(&self) -> i64 {
        self.received_at
    }

    open spec fn leased_until(&self) -> Option<i64> {
        self.lease_expires_at
    }

    open spec fn name(&self) -> Seq<char> {
        self.hello_message_id@
    }

    fn state_text(&self) -> (r: &str) {
        self.status.as_str()
    }

    fn came_in_at(&self) -> (r: i64) {
        self.received_at
    }

    fn lease_end(&self) -> (r: Option<i64>) {
        self.lease_expires_at
    }

    fn name_text(&self) -> (r: &str) {
        self.hello_message_id.as_str()
    }
}

/// The row can be given out: it waits, or, where abandoned work is asked for,
/// its lease has run out by then.
pub open spec fn available<T: Queued>(row: T, abandoned_by: Option<i64>) -> bool {
    match abandoned_by {
        None => row.state() == "PENDING"@,
        Some(at) => row.state() == "PROCESSING"@ && (row.leased_until() matches Some(until)
            && until <= at),
    }
}

/// One row comes before another.
pub open spec fn earlier<T: Queued>(a: T, b: T, abandoned_by: Option<i64>) -> bool {
    let left = a.leased_until()->0;
    let right = b.leased_until()->0;
    if abandoned_by is Some && left != right {
        left < right
    } else if a.since() != b.since() {
        a.since() < b.since()
    } else {
        text::precedes(a.name(), b.name())
    }
}

/// Where the row stands that comes first.
pub open spec fn first_available<T: Queued>(rows: Seq<T>, abandoned_by: Option<i64>) -> Option<int>
    decreases rows.len(),
{
    if rows.len() == 0 {
        None
    } else {
        let before = first_available(rows.drop_last(), abandoned_by);
        let at = rows.len() - 1;
        if !available(rows[at], abandoned_by) {
            before
        } else {
            match before {
                None => Some(at),
                Some(best) => if earlier(rows[at], rows[best], abandoned_by) {
                    Some(at)
                } else {
                    before
                },
            }
        }
    }
}

fn is_available<T: Queued>(row: &T, abandoned_by: Option<i64>) -> (r: bool)
    ensures
        r == available(*row, abandoned_by),
{
    match abandoned_by {
        None => same_text(row.state_text(), "PENDING"),
        Some(at) => {
            let over = match row.lease_end() {
                Some(until) => until <= at,
                None => false,
            };
            same_text(row.state_text(), "PROCESSING") && over
        },
    }
}

fn is_earlier<T: Queued>(a: &T, b: &T, abandoned_by: Option<i64>) -> (r: bool)
    requires
        available(*a, abandoned_by),
        available(*b, abandoned_by),
    ensures
        r == earlier(*a, *b, abandoned_by),
{
    if abandoned_by.is_some() {
        if let (Some(left), Some(right)) = (a.lease_end(), b.lease_end()) {
            if left != right {
                return left < right;
            }
        }
    }
    if a.came_in_at() != b.came_in_at() {
        a.came_in_at() < b.came_in_at()
    } else {
        text_precedes(a.name_text(), b.name_text())
    }
}

proof fn first_available_facts<T: Queued>(rows: Seq<T>, abandoned_by: Option<i64>)
    ensures
        first_available(rows, abandoned_by) matches Some(best) ==> 0 <= best < rows.len()
            && available(rows[best], abandoned_by),
    decreases rows.len(),
{
    if rows.len() > 0 {
        first_available_facts(rows.drop_last(), abandoned_by);
    }
}

/// Finds the row that comes first.
fn find_available<T: Queued>(rows: &Vec<T>, abandoned_by: Option<i64>) -> (r: Option<usize>)
    ensures
        match (r, first_available(rows@, abandoned_by)) {
            (Some(found), Some(best)) => found == best && found < rows.len(),
            (None, None) => true,
            _ => false,
        },
{
    let mut best: Option<usize> = None;
    let mut i: usize = 0;
    while i < rows.len()
        invariant
            i <= rows.len(),
            match (best, first_available(rows@.take(i as int), abandoned_by)) {
                (Some(found), Some(meant)) => found == meant && found < i && available(
                    rows@[found as int],
                    abandoned_by,
                ),
                (None, None) => true,
                _ => false,
            },
        decreases rows.len() - i,
    {
        let ghost longer = rows@.take(i + 1);
        assert(longer.drop_last() =~= rows@.take(i as int));
        if is_available(&rows[i], abandoned_by) {
            let better = match best {
                None => true,
                Some(found) => is_earlier(&rows[i], &rows[found], abandoned_by),
            };
            if better {
                best = Some(i);
            }
        }
        i = i + 1;
    }
    assert(rows@.take(i as int) =~= rows@);
    best
}

/// What is wrong with giving out work that was last changed at a time.
pub open spec fn lease_fault(
    entity: Seq<char>,
    field: Seq<char>,
    key: Seq<char>,
    updated_at: i64,
    revision: u64,
    at: i64,
) -> Option<Fault> {
    if at < updated_at {
        Some(error::invalid_fault(entity, key, "claim time predates the current revision"@))
    } else {
        error::first_of(
            numbers::stored_integer_fault(field, revision as nat),
            numbers::stored_integer_fault(field, (revision + 1) as nat),
        )
    }
}

fn check_lease(
    entity: &'static str,
    field: &'static str,
    key: &str,
    updated_at: i64,
    revision: u64,
    at: i64,
) -> (r: Result<u64, StoreError>)
    ensures
        error::fault(r) == lease_fault(entity@, field@, key@, updated_at, revision, at),
        r matches Ok(next) ==> next == revision + 1,
{
    if at < updated_at {
        return Err(
            StoreError::invalid(entity, key, "claim time predates the current revision"),
        );
    }
    u64_to_i64(field, revision)?;
    let next: u64 = revision + 1;
    u64_to_i64(field, next)?;
    Ok(next)
}

/// The lease of a piece of work.
pub struct Lease {
    pub status: DurableWorkStatus,
    pub owner: Option<Seq<char>>,
    pub until: Option<i64>,
    pub revision: u64,
    pub updated_at: i64,
}

/// The worker holds the work at a time.
pub open spec fn holds(lease: Lease, revision: u64, worker_id: Seq<char>, at: i64) -> bool {
    &&& lease.status is Processing
    &&& lease.revision == revision
    &&& lease.owner == Some(worker_id)
    &&& lease.updated_at <= at
    &&& lease.until matches Some(until) && at < until
}

fn is_held(
    status: DurableWorkStatus,
    owner: &Option<String>,
    until: Option<i64>,
    current_revision: u64,
    updated_at: i64,
    revision: u64,
    worker_id: &str,
    at: i64,
) -> (r: bool)
    ensures
        r == holds(
            Lease {
                status,
                owner: text::optional_text(*owner),
                until,
                revision: current_revision,
                updated_at,
            },
            revision,
            worker_id@,
            at,
        ),
{
    let running = match until {
        Some(until) => at < until,
        None => false,
    };
    status == DurableWorkStatus::Processing && current_revision == revision && optional_is(
        owner,
        worker_id,
    ) && updated_at <= at && running
}

/// The lease of a stored message.
pub open spec fn inbound_lease(stored: StoredInboundAdmission) -> Lease {
    Lease {
        status: stored.status,
        owner: text::optional_text(stored.lease_owner),
        until: stored.lease_expires_at,
        revision: stored.revision,
        updated_at: stored.updated_at,
    }
}

/// The message once it was given to a worker.
pub open spec fn leased_inbound(
    before: StoredInboundAdmission,
    after: StoredInboundAdmission,
    worker_id: Seq<char>,
    at: i64,
    until: i64,
) -> bool {
    &&& after == (StoredInboundAdmission {
        status: DurableWorkStatus::Processing,
        lease_owner: after.lease_owner,
        lease_expires_at: Some(until),
        revision: (before.revision + 1) as u64,
        updated_at: at,
        ..before
    })
    &&& text::optional_text(after.lease_owner) == Some(worker_id)
}

fn give_inbound(stored: StoredInboundAdmission, worker_id: &str, at: i64, until: i64) -> (r: Result<
    StoredInboundAdmission,
    StoreError,
>)
    ensures
        error::fault(r) == lease_fault(
            "inbound_admission"@,
            "inbound_admissions.revision"@,
            stored.message_id@,
            stored.updated_at,
            stored.revision,
            at,
        ),
        r matches Ok(after) ==> leased_inbound(stored, after, worker_id@, at, until),
{
    let revision: u64 = check_lease(
        "inbound_admission",
        "inbound_admissions.revision",
        stored.message_id.as_str(),
        stored.updated_at,
        stored.revision,
        at,
    )?;
    Ok(
        StoredInboundAdmission {
            status: DurableWorkStatus::Processing,
            lease_owner: Some(worker_id.to_owned()),
            lease_expires_at: Some(until),
            revision,
            updated_at: at,
            ..stored
        },
    )
}

/// What is wrong with giving out the message that comes first.
pub open spec fn inbound_queue_fault(
    rows: Seq<InboundRow>,
    abandoned_by: Option<i64>,
    at: i64,
) -> Option<Fault> {
    match first_available(rows, abandoned_by) {
        None => None,
        Some(best) => {
            let row = rows[best];
            error::first_of(
                inbound_row_fault(row),
                lease_fault(
                    "inbound_admission"@,
                    "inbound_admissions.revision"@,
                    row.message_id@,
                    row.updated_at,
                    row.revision as u64,
                    at,
                ),
            )
        },
    }
}

/// The message that is given out is the one that comes first.
pub open spec fn inbound_given(
    rows: Seq<InboundRow>,
    abandoned_by: Option<i64>,
    given: Option<StoredInboundAdmission>,
    worker_id: Seq<char>,
    at: i64,
    until: i64,
) -> bool {
    match (first_available(rows, abandoned_by), given) {
        (None, None) => true,
        (Some(best), Some(after)) => exists|before: StoredInboundAdmission|
            #[trigger] inbound_reads(rows[best], before) && leased_inbound(
                before,
                after,
                worker_id,
                at,
                until,
            ),
        _ => false,
    }
}

fn inbound_from_queue(
    rows: &Vec<InboundRow>,
    abandoned_by: Option<i64>,
    worker_id: &str,
    at: i64,
    until: i64,
) -> (r: Result<Option<StoredInboundAdmission>, StoreError>)
    ensures
        error::fault(r) == inbound_queue_fault(rows@, abandoned_by, at),
        r matches Ok(given) ==> inbound_given(
            rows@,
            abandoned_by,
            given,
            worker_id@,
            at,
            until,
        ),
{
    match find_available(rows, abandoned_by) {
        None => Ok(None),
        Some(best) => {
            let before = inbound_from_row(&rows[best])?;
            let ghost read = before;
            let after = give_inbound(before, worker_id, at, until)?;
            assert(inbound_reads(rows@[best as int], read));
            Ok(Some(after))
        },
    }
}

/// Gives a worker the message that waits longest.
pub fn claim_next_inbound(rows: &Vec<InboundRow>, claim: &ClaimDurableWork) -> (r: Result<
    Option<StoredInboundAdmission>,
    StoreError,
>)
    ensures
        error::fault(r) == error::first_of(
            claim_fault(claim.worker_id@, claim.claimed_at, claim.lease_expires_at),
            inbound_queue_fault(rows@, None, claim.claimed_at),
        ),
        r matches Ok(given) ==> inbound_given(
            rows@,
            None,
            given,
            claim.worker_id@,
            claim.claimed_at,
            claim.lease_expires_at,
        ),
{
    validate_claim(claim.worker_id.as_str(), claim.claimed_at, claim.lease_expires_at)?;
    inbound_from_queue(
        rows,
        None,
        claim.worker_id.as_str(),
        claim.claimed_at,
        claim.lease_expires_at,
    )
}

/// Gives a worker the message that was abandoned first.
pub fn reclaim_expired_inbound(rows: &Vec<InboundRow>, reclaim: &ReclaimDurableWork) -> (r: Result<
    Option<StoredInboundAdmission>,
    StoreError,
>)
    ensures
        error::fault(r) == error::first_of(
            claim_fault(reclaim.worker_id@, reclaim.reclaimed_at, reclaim.lease_expires_at),
            inbound_queue_fault(rows@, Some(reclaim.reclaimed_at), reclaim.reclaimed_at),
        ),
        r matches Ok(given) ==> inbound_given(
            rows@,
            Some(reclaim.reclaimed_at),
            given,
            reclaim.worker_id@,
            reclaim.reclaimed_at,
            reclaim.lease_expires_at,
        ),
{
    validate_claim(reclaim.worker_id.as_str(), reclaim.reclaimed_at, reclaim.lease_expires_at)?;
    inbound_from_queue(
        rows,
        Some(reclaim.reclaimed_at),
        reclaim.worker_id.as_str(),
        reclaim.reclaimed_at,
        reclaim.lease_expires_at,
    )
}

/// What is wrong with finishing a message.
pub open spec fn finish_inbound_fault(
    current: Option<StoredInboundAdmission>,
    id: Seq<char>,
    revision: u64,
    worker_id: Seq<char>,
    at: i64,
) -> Option<Fault> {
    let f = given_fault("worker_id"@, worker_id);
    let f = error::first_of(f, time_fault("inbound completion"@, at));
    let f = error::first_of(
        f,
        match current {
            None => Some(error::missing_fault("inbound_admission"@, id)),
            Some(stored) => if holds(inbound_lease(stored), revision, worker_id, at) {
                None
            } else {
                Some(error::stale_fault("inbound_admission"@, id))
            },
        },
    );
    let f = error::first_of(
        f,
        numbers::stored_integer_fault("inbound_admissions.revision"@, revision as nat),
    );
    error::first_of(
        f,
        numbers::stored_integer_fault("inbound_admissions.revision"@, (revision + 1) as nat),
    )
}

/// The message once it was finished, in success unless there is an error.
pub open spec fn finished_inbound(
    before: StoredInboundAdmission,
    at: i64,
    error: Option<String>,
) -> StoredInboundAdmission {
    StoredInboundAdmission {
        status: if error is Some {
            DurableWorkStatus::Failed
        } else {
            DurableWorkStatus::Handled
        },
        lease_owner: None,
        lease_expires_at: None,
        revision: (before.revision + 1) as u64,
        finished_at: Some(at),
        last_error: error,
        updated_at: at,
        ..before
    }
}

fn finish_inbound(
    current: Option<StoredInboundAdmission>,
    id: &str,
    expected_revision: u64,
    worker_id: &str,
    finished_at: i64,
    error: Option<String>,
) -> (r: Result<StoredInboundAdmission, StoreError>)
    ensures
        error::fault(r) == finish_inbound_fault(
            current,
            id@,
            expected_revision,
            worker_id@,
            finished_at,
        ),
        r matches Ok(stored) ==> current is Some && stored == finished_inbound(
            current->0,
            finished_at,
            error,
        ),
{
    require_given("worker_id", worker_id)?;
    validate_time("inbound completion", finished_at)?;
    let current = match current {
        Some(current) => current,
        None => {
            return Err(StoreError::missing("inbound_admission", id));
        },
    };
    if !is_held(
        current.status,
        &current.lease_owner,
        current.lease_expires_at,
        current.revision,
        current.updated_at,
        expected_revision,
        worker_id,
        finished_at,
    ) {
        return Err(StoreError::stale("inbound_admission", id));
    }
    u64_to_i64("inbound_admissions.revision", expected_revision)?;
    let revision: u64 = expected_revision + 1;
    u64_to_i64("inbound_admissions.revision", revision)?;
    let status = if error.is_some() {
        DurableWorkStatus::Failed
    } else {
        DurableWorkStatus::Handled
    };
    Ok(
        StoredInboundAdmission {
            status,
            lease_owner: None,
            lease_expires_at: None,
            revision,
            finished_at: Some(finished_at),
            last_error: error,
            updated_at: finished_at,
            ..current
        },
    )
}

/// Takes note that a worker is done with a message.
pub fn complete_inbound(
    current: Option<StoredInboundAdmission>,
    completion: &CompleteInboundAdmission,
) -> (r: Result<StoredInboundAdmission, StoreError>)
    ensures
        error::fault(r) == finish_inbound_fault(
            current,
            completion.message_id@,
            completion.expected_revision,
            completion.worker_id@,
            completion.completed_at,
        ),
        r matches Ok(stored) ==> current is Some && stored == finished_inbound(
            current->0,
            completion.completed_at,
            None,
        ),
{
    finish_inbound(
        current,
        completion.message_id.as_str(),
        completion.expected_revision,
        completion.worker_id.as_str(),
        completion.completed_at,
        None,
    )
}

/// Takes note that a worker gave up on a message.
pub fn fail_inbound(
    current: Option<StoredInboundAdmission>,
    failure: FailInboundAdmission,
) -> (r: Result<StoredInboundAdmission, StoreError>)
    ensures
        error::fault(r) == error::first_of(
            given_fault("inbound failure error"@, failure.error@),
            finish_inbound_fault(
                current,
                failure.message_id@,
                failure.expected_revision,
                failure.worker_id@,
                failure.failed_at,
            ),
        ),
        r matches Ok(stored) ==> current is Some && stored == finished_inbound(
            current->0,
            failure.failed_at,
            Some(failure.error),
        ),
{
    require_given("inbound failure error", failure.error.as_str())?;
    finish_inbound(
        current,
        failure.message_id.as_str(),
        failure.expected_revision,
        failure.worker_id.as_str(),
        failure.failed_at,
        Some(failure.error),
    )
}

/// The lease of a stored resumed session.
pub open spec fn resume_lease(stored: StoredSessionResumeAdmission) -> Lease {
    Lease {
        status: stored.status,
        owner: text::optional_text(stored.lease_owner),
        until: stored.lease_expires_at,
        revision: stored.revision,
        updated_at: stored.updated_at,
    }
}

/// The resumed session once it was given to a worker.
pub open spec fn leased_resume(
    before: StoredSessionResumeAdmission,
    after: StoredSessionResumeAdmission,
    worker_id: Seq<char>,
    at: i64,
    until: i64,
) -> bool {
    &&& after == (StoredSessionResumeAdmission {
        status: DurableWorkStatus::Processing,
        lease_owner: after.lease_owner,
        lease_expires_at: Some(until),
        revision: (before.revision + 1) as u64,
        updated_at: at,
        ..before
    })
    &&& text::optional_text(after.lease_owner) == Some(worker_id)
}

fn give_resume(stored: StoredSessionResumeAdmission, worker_id: &str, at: i64, until: i64) -> (r: Result<
    StoredSessionResumeAdmission,
    StoreError,
>)
    ensures
        error::fault(r) == lease_fault(
            "session_resume_admission"@,
            "session_resume_admissions.revision"@,
            stored.hello_message_id@,
            stored.updated_at,
            stored.revision,
            at,
        ),
        r matches Ok(after) ==> leased_resume(stored, after, worker_id@, at, until),
{
    let revision: u64 = check_lease(
        "session_resume_admission",
        "session_resume_admissions.revision",
        stored.hello_message_id.as_str(),
        stored.updated_at,
        stored.revision,
        at,
    )?;
    Ok(
        StoredSessionResumeAdmission {
            status: DurableWorkStatus::Processing,
            lease_owner: Some(worker_id.to_owned()),
            lease_expires_at: Some(until),
            revision,
            updated_at: at,
            ..stored
        },
    )
}

/// What is wrong with giving out the resumed session that comes first.
pub open spec fn resume_queue_fault(
    rows: Seq<ResumeRow>,
    abandoned_by: Option<i64>,
    at: i64,
) -> Option<Fault> {
    match first_available(rows, abandoned_by) {
        None => None,
        Some(best) => {
            let row = rows[best];
            error::first_of(
                resume_row_fault(row),
                lease_fault(
                    "session_resume_admission"@,
                    "session_resume_admissions.revision"@,
                    row.hello_message_id@,
                    row.updated_at,
                    row.revision as u64,
                    at,
                ),
            )
        },
    }
}

/// The resumed session that is given out is the one that comes first.
pub open spec fn resume_given(
    rows: Seq<ResumeRow>,
    abandoned_by: Option<i64>,
    given: Option<StoredSessionResumeAdmission>,
    worker_id: Seq<char>,
    at: i64,
    until: i64,
) -> bool {
    match (first_available(rows, abandoned_by), given) {
        (None, None) => true,
        (Some(best), Some(after)) => exists|before: StoredSessionResumeAdmission|
            #[trigger] resume_reads(rows[best], before) && leased_resume(
                before,
                after,
                worker_id,
                at,
                until,
            ),
        _ => false,
    }
}

fn resume_from_queue(
    rows: &Vec<ResumeRow>,
    abandoned_by: Option<i64>,
    worker_id: &str,
    at: i64,
    until: i64,
) -> (r: Result<Option<StoredSessionResumeAdmission>, StoreError>)
    ensures
        error::fault(r) == resume_queue_fault(rows@, abandoned_by, at),
        r matches Ok(given) ==> resume_given(
            rows@,
            abandoned_by,
            given,
            worker_id@,
            at,
            until,
        ),
{
    match find_available(rows, abandoned_by) {
        None => Ok(None),
        Some(best) => {
            let before = resume_from_row(&rows[best])?;
            let ghost read = before;
            let after = give_resume(before, worker_id, at, until)?;
            assert(resume_reads(rows@[best as int], read));
            Ok(Some(after))
        },
    }
}

/// Gives a worker the resumed session that waits longest.
pub fn claim_next_session_resume(rows: &Vec<ResumeRow>, claim: &ClaimDurableWork) -> (r: Result<
    Option<StoredSessionResumeAdmission>,
    StoreError,
>)
    ensures
        error::fault(r) == error::first_of(
            claim_fault(claim.worker_id@, claim.claimed_at, claim.lease_expires_at),
            resume_queue_fault(rows@, None, claim.claimed_at),
        ),
        r matches Ok(given) ==> resume_given(
            rows@,
            None,
            given,
            claim.worker_id@,
            claim.claimed_at,
            claim.lease_expires_at,
        ),
{
    validate_claim(claim.worker_id.as_str(), claim.claimed_at, claim.lease_expires_at)?;
    resume_from_queue(
        rows,
        None,
        claim.worker_id.as_str(),
        claim.claimed_at,
        claim.lease_expires_at,
    )
}

/// Gives a worker the resumed session that was abandoned first.
pub fn reclaim_expired_session_resume(rows: &Vec<ResumeRow>, reclaim: &ReclaimDurableWork) -> (r: Result<
    Option<StoredSessionResumeAdmission>,
    StoreError,
>)
    ensures
        error::fault(r) == error::first_of(
            claim_fault(reclaim.worker_id@, reclaim.reclaimed_at, reclaim.lease_expires_at),
            resume_queue_fault(rows@, Some(reclaim.reclaimed_at), reclaim.reclaimed_at),
        ),
        r matches Ok(given) ==> resume_given(
            rows@,
            Some(reclaim.reclaimed_at),
            given,
            reclaim.worker_id@,
            reclaim.reclaimed_at,
            reclaim.lease_expires_at,
        ),
{
    validate_claim(reclaim.worker_id.as_str(), reclaim.reclaimed_at, reclaim.lease_expires_at)?;
    resume_from_queue(
        rows,
        Some(reclaim.reclaimed_at),
        reclaim.worker_id.as_str(),
        reclaim.reclaimed_at,
        reclaim.lease_expires_at,
    )
}

/// What is wrong with finishing a resumed session.
pub open spec fn finish_resume_fault(
    current: Option<StoredSessionResumeAdmission>,
    id: Seq<char>,
    revision: u64,
    worker_id: Seq<char>,
    at: i64,
) -> Option<Fault> {
    let f = given_fault("worker_id"@, worker_id);
    let f = error::first_of(f, time_fault("session resume completion"@, at));
    let f = error::first_of(
        f,
        match current {
            None => Some(error::missing_fault("session_resume_admission"@, id)),
            Some(stored) => if holds(resume_lease(stored), revision, worker_id, at) {
                None
            } else {
                Some(error::stale_fault("session_resume_admission"@, id))
            },
        },
    );
    let f = error::first_of(
        f,
        numbers::stored_integer_fault("session_resume_admissions.revision"@, revision as nat),
    );
    error::first_of(
        f,
        numbers::stored_integer_fault("session_resume_admissions.revision"@, (revision + 1) as nat),
    )
}

/// The resumed session once it was finished, in success unless there is an error.
pub open spec fn finished_resume(
    before: StoredSessionResumeAdmission,
    reconciliation_request_id: Option<RequestId>,
    at: i64,
    error: Option<String>,
) -> StoredSessionResumeAdmission {
    StoredSessionResumeAdmission {
        status: if error is Some {
            DurableWorkStatus::Failed
        } else {
            DurableWorkStatus::Handled
        },
        lease_owner: None,
        lease_expires_at: None,
        revision: (before.revision + 1) as u64,
        reconciliation_request_id,
        finished_at: Some(at),
        last_error: error,
        updated_at: at,
        ..before
    }
}

fn finish_resume(
    current: Option<StoredSessionResumeAdmission>,
    id: &str,
    expected_revision: u64,
    worker_id: &str,
    reconciliation_request_id: Option<RequestId>,
    finished_at: i64,
    error: Option<String>,
) -> (r: Result<StoredSessionResumeAdmission, StoreError>)
    ensures
        error::fault(r) == finish_resume_fault(
            current,
            id@,
            expected_revision,
            worker_id@,
            finished_at,
        ),
        r matches Ok(stored) ==> current is Some && stored == finished_resume(
            current->0,
            reconciliation_request_id,
            finished_at,
            error,
        ),
{
    require_given("worker_id", worker_id)?;
    validate_time("session resume completion", finished_at)?;
    let current = match current {
        Some(current) => current,
        None => {
            return Err(StoreError::missing("session_resume_admission", id));
        },
    };
    if !is_held(
        current.status,
        &current.lease_owner,
        current.lease_expires_at,
        current.revision,
        current.updated_at,
        expected_revision,
        worker_id,
        finished_at,
    ) {
        return Err(StoreError::stale("session_resume_admission", id));
    }
    u64_to_i64("session_resume_admissions.revision", expected_revision)?;
    let revision: u64 = expected_revision + 1;
    u64_to_i64("session_resume_admissions.revision", revision)?;
    let status = if error.is_some() {
        DurableWorkStatus::Failed
    } else {
        DurableWorkStatus::Handled
    };
    Ok(
        StoredSessionResumeAdmission {
            status,
            lease_owner: None,
            lease_expires_at: None,
            revision,
            reconciliation_request_id,
            finished_at: Some(finished_at),
            last_error: error,
            updated_at: finished_at,
            ..current
        },
    )
}

/// Takes note that a worker is done with a resumed session.
pub fn complete_session_resume(
    current: Option<StoredSessionResumeAdmission>,
    completion: CompleteSessionResumeAdmission,
) -> (r: Result<StoredSessionResumeAdmission, StoreError>)
    ensures
        error::fault(r) == finish_resume_fault(
            current,
            completion.hello_message_id@,
            completion.expected_revision,
            completion.worker_id@,
            completion.completed_at,
        ),
        r matches Ok(stored) ==> current is Some && stored == finished_resume(
            current->0,
            completion.reconciliation_request_id,
            completion.completed_at,
            None,
        ),
{
    finish_resume(
        current,
        completion.hello_message_id.as_str(),
        completion.expected_revision,
        completion.worker_id.as_str(),
        completion.reconciliation_request_id,
        completion.completed_at,
        None,
    )
}

/// Takes note that a worker gave up on a resumed session.
pub fn fail_session_resume(
    current: Option<StoredSessionResumeAdmission>,
    failure: FailSessionResumeAdmission,
) -> (r: Result<StoredSessionResumeAdmission, StoreError>)
    ensures
        error::fault(r) == error::first_of(
            given_fault("session resume failure error"@, failure.error@),
            finish_resume_fault(
                current,
                failure.hello_message_id@,
                failure.expected_revision,
                failure.worker_id@,
                failure.failed_at,
            ),
        ),
        r matches Ok(stored) ==> current is Some && stored == finished_resume(
            current->0,
            None,
            failure.failed_at,
            Some(failure.error),
        ),
{
    require_given("session resume failure error", failure.error.as_str())?;
    finish_resume(
        current,
        failure.hello_message_id.as_str(),
        failure.expected_revision,
        failure.worker_id.as_str(),
        None,
        failure.failed_at,
        Some(failure.error),
    )
}

proof fn state_texts_differ()
    ensures
        "PENDING"@ != "PROCESSING"@,
        "PENDING"@ != "HANDLED"@,
        "PENDING"@ != "FAILED"@,
        "PROCESSING"@ != "HANDLED"@,
        "PROCESSING"@ != "FAILED"@,
{
    reveal_strlit("PENDING");
    reveal_strlit("PROCESSING");
    reveal_strlit("HANDLED");
    reveal_strlit("FAILED");
    assert("PENDING"@.len() == 7);
    assert("PROCESSING"@.len() == 10);
    assert("HANDLED"@.len() == 7);
    assert("FAILED"@.len() == 6);
    assert("PENDING"@[0] != "HANDLED"@[0]);
}

/// While a lease runs, the work is neither given out nor taken for abandoned.
pub proof fn running_leases_are_left_alone<T: Queued>(row: T, at: i64)
    requires
        row.state() == "PROCESSING"@,
        row.leased_until() matches Some(until) && at < until,
    ensures
        !available(row, None),
        !available(row, Some(at)),
{
    state_texts_differ();
}

/// Work that was finished, well or badly, is never given out again.
pub proof fn finished_work_stays_finished<T: Queued>(row: T, abandoned_by: Option<i64>)
    requires
        row.state() == "HANDLED"@ || row.state() == "FAILED"@,
    ensures
        !available(row, abandoned_by),
{
    state_texts_differ();
}

/// Who was given a message can finish it while the lease runs.
pub proof fn holders_can_finish(
    before: StoredInboundAdmission,
    after: StoredInboundAdmission,
    worker_id: Seq<char>,
    at: i64,
    until: i64,
    finished_at: i64,
)
    requires
        claim_fault(worker_id, at, until) is None,
        leased_inbound(before, after, worker_id, at, until),
        before.revision + 2 <= i64::MAX,
        at <= finished_at < until,
    ensures
        finish_inbound_fault(
            Some(after),
            after.message_id@,
            after.revision,
            worker_id,
            finished_at,
        ) is None,
{
}

/// Once a message was taken over by another worker, the first one cannot finish
/// it any more.
pub proof fn overtaken_workers_are_refused(
    before: StoredInboundAdmission,
    after: StoredInboundAdmission,
    worker_id: Seq<char>,
    at: i64,
    until: i64,
    first_worker: Seq<char>,
    finished_at: i64,
)
    requires
        leased_inbound(before, after, worker_id, at, until),
        before.revision < u64::MAX,
    ensures
        finish_inbound_fault(
            Some(after),
            after.message_id@,
            before.revision,
            first_worker,
            finished_at,
        ) is Some,
{
}

/// A message that was written down is known when it comes again.
pub proof fn admitted_messages_are_known(
    admission: NewInboundAdmission,
    stored: StoredInboundAdmission,
)
    requires
        stored.message_id == admission.message_id,
        stored.session_id == admission.session_id,
        stored.client_id == admission.client_id,
        stored.account_id == admission.account_id,
        stored.terminal_id == admission.terminal_id,
        stored.message_type == admission.message_type,
        stored.schema_version == admission.schema_version,
        stored.sequence == admission.sequence,
        stored.correlation_id == admission.correlation_id,
        stored.causation_id == admission.causation_id,
        stored.envelope == admission.envelope,
    ensures
        same_message(stored, admission),
{
}

/// A message that is refused twice for one reason is refused under one name,
/// whenever it comes.
pub proof fn refusals_keep_their_name(
    admission: NewInboundAdmission,
    again: NewInboundAdmission,
    reason: Seq<char>,
)
    requires
        again == (NewInboundAdmission {
            received_at: again.received_at,
            created_at: again.created_at,
            raw_payload_length: again.raw_payload_length,
            ..admission
        }),
    ensures
        rejection_name(again, reason) == rejection_name(admission, reason),
{
}

proof fn earlier_irreflexive<T: Queued>(a: T, abandoned_by: Option<i64>)
    ensures
        !earlier(a, a, abandoned_by),
{
    text::precedes_irreflexive(a.name());
}

proof fn earlier_transitive<T: Queued>(a: T, b: T, c: T, abandoned_by: Option<i64>)
    requires
        earlier(a, b, abandoned_by),
        earlier(b, c, abandoned_by),
    ensures
        earlier(a, c, abandoned_by),
{
    if text::precedes(a.name(), b.name()) && text::precedes(b.name(), c.name()) {
        text::precedes_transitive(a.name(), b.name(), c.name());
    }
}

/// Work is given out in turn: nothing that could be given out comes before what
/// is.
pub proof fn queues_are_served_in_turn<T: Queued>(
    rows: Seq<T>,
    abandoned_by: Option<i64>,
    i: int,
)
    requires
        0 <= i < rows.len(),
        available(rows[i], abandoned_by),
    ensures
        first_available(rows, abandoned_by) matches Some(best) && 0 <= best < rows.len()
            && available(rows[best], abandoned_by) && !earlier(
            rows[i],
            rows[best],
            abandoned_by,
        ),
    decreases rows.len(),
{
    first_available_facts(rows, abandoned_by);
    first_available_facts(rows.drop_last(), abandoned_by);
    let at = rows.len() - 1;
    if i < at {
        assert(rows.drop_last()[i] == rows[i]);
        queues_are_served_in_turn(rows.drop_last(), abandoned_by, i);
        let best = first_available(rows.drop_last(), abandoned_by)->0;
        assert(rows.drop_last()[best] == rows[best]);
        if available(rows[at], abandoned_by) && earlier(rows[at], rows[best], abandoned_by) {
            if earlier(rows[i], rows[at], abandoned_by) {
                earlier_transitive(rows[i], rows[at], rows[best], abandoned_by);
            }
        }
    } else {
        earlier_irreflexive(rows[at], abandoned_by);
    }
}

/// Who waits in a queue of messages is pending, or, when leases that ran out are
/// collected, is in work under a lease that ended by then. If anybody waits,
/// somebody is served: when collecting, the one whose lease ended first, otherwise
/// the one who came first, and among those who came together the one whose name
/// comes first.
pub proof fn inbound_queue_serves_the_longest_waiting(
    rows: Seq<InboundRow>,
    abandoned_by: Option<i64>,
    i: int,
)
    requires
        0 <= i < rows.len(),
        abandoned_by is None ==> rows[i].status@ == "PENDING"@,
        abandoned_by is Some ==> rows[i].status@ == "PROCESSING"@ && rows[i].lease_expires_at
            is Some && rows[i].lease_expires_at->0 <= abandoned_by->0,
    ensures
        first_available(rows, abandoned_by) is Some,
        ({
            let best = first_available(rows, abandoned_by)->0;
            &&& 0 <= best < rows.len()
            &&& abandoned_by is None ==> rows[best].status@ == "PENDING"@ && rows[best].received_at
                <= rows[i].received_at && (rows[best].received_at == rows[i].received_at
                ==> !text::precedes(rows[i].message_id@, rows[best].message_id@))
            &&& abandoned_by is Some ==> rows[best].status@ == "PROCESSING"@
                && rows[best].lease_expires_at is Some && rows[best].lease_expires_at->0
                <= rows[i].lease_expires_at->0 && (rows[best].lease_expires_at
                == rows[i].lease_expires_at ==> rows[best].received_at <= rows[i].received_at) && (
            rows[best].lease_expires_at == rows[i].lease_expires_at && rows[best].received_at
                == rows[i].received_at ==> !text::precedes(rows[i].message_id@, rows[best].message_id@))
        }),
{
    queues_are_served_in_turn(rows, abandoned_by, i);
}

/// Nobody is served who does not wait.
pub proof fn inbound_queue_serves_only_the_waiting(rows: Seq<InboundRow>, abandoned_by: Option<i64>)
    ensures
        first_available(rows, abandoned_by) matches Some(best) ==> {
            &&& 0 <= best < rows.len()
            &&& abandoned_by is None ==> rows[best].status@ == "PENDING"@
            &&& abandoned_by is Some ==> rows[best].status@ == "PROCESSING"@
                && rows[best].lease_expires_at is Some && rows[best].lease_expires_at->0
                <= abandoned_by->0
        },
{
    first_available_facts(rows, abandoned_by);
}

/// What is given to a worker belongs to it until its lease ends, at the next
/// revision, and is otherwise as it was stored.
pub proof fn given_inbound_belongs_to_its_worker(
    rows: Seq<InboundRow>,
    abandoned_by: Option<i64>,
    given: StoredInboundAdmission,
    worker_id: Seq<char>,
    at: i64,
    until: i64,
)
    requires
        inbound_queue_fault(rows, abandoned_by, at) is None,
        inbound_given(rows, abandoned_by, Some(given), worker_id, at, until),
    ensures
        ({
            let best = first_available(rows, abandoned_by)->0;
            &&& given.message_id == rows[best].message_id
            &&& given.session_id == rows[best].session_id
            &&& given.client_id == rows[best].client_id
            &&& given.account_id == rows[best].account_id
            &&& given.terminal_id == rows[best].terminal_id
            &&& given.envelope@ == rows[best].envelope.text@
            &&& given.received_at == rows[best].received_at
            &&& given.created_at == rows[best].created_at
            &&& given.finished_at == rows[best].finished_at
            &&& given.last_error == rows[best].last_error
            &&& given.status is Processing
            &&& given.lease_owner is Some && (given.lease_owner->0)@ == worker_id
            &&& given.lease_expires_at == Some(until)
            &&& given.revision == rows[best].revision + 1
            &&& given.updated_at == at
            &&& at >= rows[best].updated_at
            &&& rows[best].revision >= 0
        }),
{
    first_available_facts(rows, abandoned_by);
}

/// Only the worker that holds the work can end it, while its lease runs and at
/// the revision it knows; then it is over, with or without an error.
pub proof fn inbound_work_is_ended_by_its_holder(
    stored: StoredInboundAdmission,
    id: Seq<char>,
    revision: u64,
    worker_id: Seq<char>,
    at: i64,
    error: Option<String>,
)
    ensures
        finish_inbound_fault(Some(stored), id, revision, worker_id, at) is None <==> {
            &&& !text::blank(worker_id)
            &&& at >= 0
            &&& stored.status is Processing
            &&& stored.revision == revision
            &&& stored.lease_owner is Some && (stored.lease_owner->0)@ == worker_id
            &&& stored.updated_at <= at
            &&& stored.lease_expires_at is Some && at < stored.lease_expires_at->0
            &&& revision < i64::MAX
        },
        ({
            let after = finished_inbound(stored, at, error);
            &&& error is None ==> after.status is Handled
            &&& error is Some ==> after.status is Failed
            &&& after.last_error == error
            &&& after.finished_at == Some(at)
            &&& after.updated_at == at
            &&& after.lease_owner is None && after.lease_expires_at is None
            &&& revision < i64::MAX && stored.revision == revision ==> after.revision == revision
                + 1
            &&& after.message_id == stored.message_id
            &&& after.session_id == stored.session_id
            &&& after.client_id == stored.client_id
            &&& after.account_id == stored.account_id
            &&& after.envelope == stored.envelope
            &&& after.received_at == stored.received_at
            &&& after.created_at == stored.created_at
            &&& after.sequence == stored.sequence
        }),
{
}

/// Who waits in a queue of messages is pending, or, when leases that ran out are
/// collected, is in work under a lease that ended by then. If anybody waits,
/// somebody is served: when collecting, the one whose lease ended first, otherwise
/// the one who came first, and among those who came together the one whose name
/// comes first.
pub proof fn resume_queue_serves_the_longest_waiting(
    rows: Seq<ResumeRow>,
    abandoned_by: Option<i64>,
    i: int,
)
    requires
        0 <= i < rows.len(),
        abandoned_by is None ==> rows[i].status@ == "PENDING"@,
        abandoned_by is Some ==> rows[i].status@ == "PROCESSING"@ && rows[i].lease_expires_at
            is Some && rows[i].lease_expires_at->0 <= abandoned_by->0,
    ensures
        first_available(rows, abandoned_by) is Some,
        ({
            let best = first_available(rows, abandoned_by)->0;
            &&& 0 <= best < rows.len()
            &&& abandoned_by is None ==> rows[best].status@ == "PENDING"@ && rows[best].received_at
                <= rows[i].received_at && (rows[best].received_at == rows[i].received_at
                ==> !text::precedes(rows[i].hello_message_id@, rows[best].hello_message_id@))
            &&& abandoned_by is Some ==> rows[best].status@ == "PROCESSING"@
                && rows[best].lease_expires_at is Some && rows[best].lease_expires_at->0
                <= rows[i].lease_expires_at->0 && (rows[best].lease_expires_at
                == rows[i].lease_expires_at ==> rows[best].received_at <= rows[i].received_at) && (
            rows[best].lease_expires_at == rows[i].lease_expires_at && rows[best].received_at
                == rows[i].received_at ==> !text::precedes(rows[i].hello_message_id@, rows[best].hello_message_id@))
        }),
{
    queues_are_served_in_turn(rows, abandoned_by, i);
}

/// Nobody is served who does not wait.
pub proof fn resume_queue_serves_only_the_waiting(rows: Seq<ResumeRow>, abandoned_by: Option<i64>)
    ensures
        first_available(rows, abandoned_by) matches Some(best) ==> {
            &&& 0 <= best < rows.len()
            &&& abandoned_by is None ==> rows[best].status@ == "PENDING"@
            &&& abandoned_by is Some ==> rows[best].status@ == "PROCESSING"@
                && rows[best].lease_expires_at is Some && rows[best].lease_expires_at->0
                <= abandoned_by->0
        },
{
    first_available_facts(rows, abandoned_by);
}

/// What is given to a worker belongs to it until its lease ends, at the next
/// revision, and is otherwise as it was stored.
pub proof fn given_resume_belongs_to_its_worker(
    rows: Seq<ResumeRow>,
    abandoned_by: Option<i64>,
    given: StoredSessionResumeAdmission,
    worker_id: Seq<char>,
    at: i64,
    until: i64,
)
    requires
        resume_queue_fault(rows, abandoned_by, at) is None,
        resume_given(rows, abandoned_by, Some(given), worker_id, at, until),
    ensures
        ({
            let best = first_available(rows, abandoned_by)->0;
            &&& given.hello_message_id == rows[best].hello_message_id
            &&& given.session_id == rows[best].session_id
            &&& given.client_id == rows[best].client_id
            &&& given.account_id == rows[best].account_id
            &&& given.terminal_id == rows[best].terminal_id
            &&& given.cursor@ == rows[best].cursor.text@
            &&& given.received_at == rows[best].received_at
            &&& given.created_at == rows[best].created_at
            &&& given.finished_at == rows[best].finished_at
            &&& given.last_error == rows[best].last_error
            &&& given.status is Processing
            &&& given.lease_owner is Some && (given.lease_owner->0)@ == worker_id
            &&& given.lease_expires_at == Some(until)
            &&& given.revision == rows[best].revision + 1
            &&& given.updated_at == at
            &&& at >= rows[best].updated_at
            &&& rows[best].revision >= 0
        }),
{
    first_available_facts(rows, abandoned_by);
}

/// Only the worker that holds the work can end it, while its lease runs and at
/// the revision it knows; then it is over, with or without an error.
pub proof fn resume_work_is_ended_by_its_holder(
    stored: StoredSessionResumeAdmission,
    id: Seq<char>,
    revision: u64,
    worker_id: Seq<char>,
    at: i64,
    error: Option<String>,
    request_id: Option<RequestId>,
)
    ensures
        finish_resume_fault(Some(stored), id, revision, worker_id, at) is None <==> {
            &&& !text::blank(worker_id)
            &&& at >= 0
            &&& stored.status is Processing
            &&& stored.revision == revision
            &&& stored.lease_owner is Some && (stored.lease_owner->0)@ == worker_id
            &&& stored.updated_at <= at
            &&& stored.lease_expires_at is Some && at < stored.lease_expires_at->0
            &&& revision < i64::MAX
        },
        ({
            let after = finished_resume(stored, request_id, at, error);
            &&& error is None ==> after.status is Handled
            &&& error is Some ==> after.status is Failed
            &&& after.last_error == error
            &&& after.finished_at == Some(at)
            &&& after.updated_at == at
            &&& after.lease_owner is None && after.lease_expires_at is None
            &&& revision < i64::MAX && stored.revision == revision ==> after.revision == revision
                + 1
            &&& after.hello_message_id == stored.hello_message_id
            &&& after.session_id == stored.session_id
            &&& after.client_id == stored.client_id
            &&& after.account_id == stored.account_id
            &&& after.cursor == stored.cursor
            &&& after.received_at == stored.received_at
            &&& after.created_at == stored.created_at
            &&& after.reconciliation_request_id == request_id
        }),
{
}

/// A claim that is taken comes from somebody and holds for a while.
pub proof fn claims_hold_for_a_while(worker_id: Seq<char>, at: i64, lease_expires_at: i64)
    ensures
        claim_fault(worker_id, at, lease_expires_at) is None <==> !text::blank(worker_id) && 0 <= at
            < lease_expires_at,
{
}

/// A message is written down only if it and everybody it concerns are named, it
/// is numbered from one, its times are not negative, and its envelope is an object
/// that says of it what its columns say.
pub proof fn admitted_messages_agree_with_their_envelope(admission: NewInboundAdmission)
    ensures
        new_inbound_fault(admission) is None <==> {
            &&& !text::blank(admission.message_id@)
            &&& !text::blank(admission.session_id@)
            &&& !text::blank(admission.client_id@)
            &&& !text::blank(admission.account_id@)
            &&& !text::blank(admission.message_type@)
            &&& !text::blank(admission.schema_version@)
            &&& admission.sequence >= 1
            &&& admission.raw_payload_length is Some ==> admission.raw_payload_length->0 <= i64::MAX
            &&& admission.received_at >= 0
            &&& admission.created_at >= 0
            &&& json::parsed_json(admission.envelope@) is Ok
            &&& ({
                let envelope = json::parsed_json(admission.envelope@)->Ok_0;
                &&& envelope is Object
                &&& json::member_text(envelope, "message_id"@) == Some(admission.message_id@)
                &&& json::member_text(envelope, "type"@) == Some(admission.message_type@)
                &&& json::member_text(envelope, "schema_version"@) == Some(
                    admission.schema_version@,
                )
                &&& json::member_text(envelope, "session_id"@) == Some(admission.session_id@)
                &&& json::member(envelope, "sequence"@) == Some(
                    json::JsonTree::Natural(admission.sequence as nat),
                )
                &&& json::member_text(envelope, "client_id"@) is Some ==> json::member_text(
                    envelope,
                    "client_id"@,
                )->0 == admission.client_id@
                &&& admission.correlation_id is Some ==> json::member_text(
                    envelope,
                    "correlation_id"@,
                ) == Some((admission.correlation_id->0)@)
                &&& admission.correlation_id is None ==> json::member_text(
                    envelope,
                    "correlation_id"@,
                ) is None
                &&& admission.causation_id is Some ==> json::member_text(
                    envelope,
                    "causation_id"@,
                ) == Some((admission.causation_id->0)@)
                &&& admission.causation_id is None ==> json::member_text(
                    envelope,
                    "causation_id"@,
                ) is None
            })
        },
{
}

/// A session is resumed only by a message that names itself and everybody it
/// concerns, at times that are not negative.
pub proof fn resumed_sessions_are_named(admission: NewSessionResumeAdmission)
    ensures
        new_resume_fault(admission) is None <==> {
            &&& !text::blank(admission.hello_message_id@)
            &&& !text::blank(admission.session_id@)
            &&& !text::blank(admission.client_id@)
            &&& !text::blank(admission.account_id@)
            &&& admission.received_at >= 0
            &&& admission.created_at >= 0
        },
{
}

/// A message is a duplicate only of one that came over the same session under the
/// same number and says the same.
pub proof fn duplicates_say_the_same(
    stored: StoredInboundAdmission,
    incoming: NewInboundAdmission,
    refused: StoredInboundRejection,
    reason: Seq<char>,
)
    ensures
        same_message(stored, incoming) ==> {
            &&& stored.message_id@ == incoming.message_id@
            &&& stored.session_id@ == incoming.session_id@
            &&& stored.client_id@ == incoming.client_id@
            &&& stored.account_id@ == incoming.account_id@
            &&& stored.terminal_id is Some <==> incoming.terminal_id is Some
            &&& stored.terminal_id is Some ==> (stored.terminal_id->0)@ == (
            incoming.terminal_id->0)@
            &&& stored.message_type@ == incoming.message_type@
            &&& stored.schema_version@ == incoming.schema_version@
            &&& stored.sequence == incoming.sequence
            &&& stored.correlation_id is Some <==> incoming.correlation_id is Some
            &&& stored.correlation_id is Some ==> (stored.correlation_id->0)@ == (
            incoming.correlation_id->0)@
            &&& stored.causation_id is Some <==> incoming.causation_id is Some
            &&& stored.causation_id is Some ==> (stored.causation_id->0)@ == (
            incoming.causation_id->0)@
            &&& stored.envelope@ == incoming.envelope@
        },
        same_rejection(refused, incoming, reason) ==> {
            &&& refused.message_id@ == incoming.message_id@
            &&& refused.session_id@ == incoming.session_id@
            &&& refused.client_id@ == incoming.client_id@
            &&& refused.account_id@ == incoming.account_id@
            &&& refused.terminal_id is Some <==> incoming.terminal_id is Some
            &&& refused.terminal_id is Some ==> (refused.terminal_id->0)@ == (
            incoming.terminal_id->0)@
            &&& refused.message_type@ == incoming.message_type@
            &&& refused.schema_version@ == incoming.schema_version@
            &&& refused.sequence == incoming.sequence
            &&& refused.correlation_id is Some <==> incoming.correlation_id is Some
            &&& refused.correlation_id is Some ==> (refused.correlation_id->0)@ == (
            incoming.correlation_id->0)@
            &&& refused.causation_id is Some <==> incoming.causation_id is Some
            &&& refused.causation_id is Some ==> (refused.causation_id->0)@ == (
            incoming.causation_id->0)@
            &&& refused.envelope@ == incoming.envelope@
            &&& refused.reason@ == reason
        },
{
}

/// A second greeting is the same as the first only if it is of the same client
/// and account, over the same session, from the same terminal and with the same
/// cursor; times do not matter.
pub proof fn repeated_greetings_say_the_same(
    stored: StoredSessionResumeAdmission,
    incoming: NewSessionResumeAdmission,
)
    ensures
        same_resume(stored, incoming) <==> {
            &&& stored.hello_message_id@ == incoming.hello_message_id@
            &&& stored.session_id@ == incoming.session_id@
            &&& stored.client_id@ == incoming.client_id@
            &&& stored.account_id@ == incoming.account_id@
            &&& stored.terminal_id is Some <==> incoming.terminal_id is Some
            &&& stored.terminal_id is Some ==> (stored.terminal_id->0)@ == (
            incoming.terminal_id->0)@
            &&& stored.cursor@ == incoming.cursor@
        },
{
}

/// Repeating a message word for word makes a duplicate, whenever it is received.
pub proof fn repeated_messages_are_duplicates(
    stored: StoredInboundAdmission,
    incoming: NewInboundAdmission,
)
    requires
        stored.message_id == incoming.message_id,
        stored.session_id == incoming.session_id,
        stored.client_id == incoming.client_id,
        stored.account_id == incoming.account_id,
        stored.terminal_id == incoming.terminal_id,
        stored.message_type == incoming.message_type,
        stored.schema_version == incoming.schema_version,
        stored.sequence == incoming.sequence,
        stored.correlation_id == incoming.correlation_id,
        stored.causation_id == incoming.causation_id,
        stored.envelope == incoming.envelope,
    ensures
        same_message(stored, incoming),
{
}

/// A refusal is named after the message, its session and number, its envelope and
/// the reason.
pub proof fn refusals_are_named_after_their_message(
    admission: NewInboundAdmission,
    reason: Seq<char>,
)
    ensures
        rejection_name(admission, reason) == "inbound-rejection-"@ + json::text_digest(
            admission.message_id@ + "\u{1f}"@ + admission.session_id@ + "\u{1f}"@ + text::decimal(
                admission.sequence as nat,
            ) + "\u{1f}"@ + json::text_digest(admission.envelope@) + "\u{1f}"@ + reason,
        ),
{
}

/// A stored message is read as it was stored, if its counters are not negative,
/// its status is known and its envelope is intact.
pub proof fn read_messages_are_as_stored(row: InboundRow, stored: StoredInboundAdmission)
    requires
        inbound_reads(row, stored),
    ensures
        inbound_row_fault(row) is None ==> {
            &&& row.sequence >= 0
            &&& row.revision >= 0
            &&& row.raw_payload_length is Some ==> row.raw_payload_length->0 >= 0
            &&& json::stored_fault(
                "inbound_admission"@,
                row.message_id@,
                row.envelope.text@,
                row.envelope.digest@,
            ) is None
        },
        stored.status is Pending <==> row.status@ == "PENDING"@,
        stored.status is Processing <==> row.status@ == "PROCESSING"@,
        stored.status is Handled <==> row.status@ == "HANDLED"@,
        stored.status is Failed <==> row.status@ == "FAILED"@,
        stored.sequence == row.sequence,
        stored.revision == row.revision,
        stored.raw_payload_length is Some <==> row.raw_payload_length is Some,
        stored.raw_payload_length is Some ==> stored.raw_payload_length->0
            == row.raw_payload_length->0,
        stored.message_type == row.message_type,
        stored.schema_version == row.schema_version,
        stored.correlation_id == row.correlation_id,
        stored.causation_id == row.causation_id,
        stored.lease_owner == row.lease_owner,
        stored.lease_expires_at == row.lease_expires_at,
        stored.finished_at == row.finished_at,
        stored.last_error == row.last_error,
        stored.updated_at == row.updated_at,
{
    state_texts_differ();
    durable_status_names_differ(DurableWorkStatus::Handled, DurableWorkStatus::Failed);
}

/// A stored greeting is read as it was stored, if its status is known, its
/// revision is not negative and its cursor is intact.
pub proof fn read_greetings_are_as_stored(row: ResumeRow, stored: StoredSessionResumeAdmission)
    requires
        resume_reads(row, stored),
    ensures
        resume_row_fault(row) is None ==> row.revision >= 0 && json::stored_fault(
            "session_resume_admission"@,
            row.hello_message_id@,
            row.cursor.text@,
            row.cursor.digest@,
        ) is None,
        stored.status is Pending <==> row.status@ == "PENDING"@,
        stored.status is Processing <==> row.status@ == "PROCESSING"@,
        stored.status is Handled <==> row.status@ == "HANDLED"@,
        stored.status is Failed <==> row.status@ == "FAILED"@,
        stored.revision == row.revision,
        stored.reconciliation_request_id == row.reconciliation_request_id,
        stored.lease_owner == row.lease_owner,
        stored.lease_expires_at == row.lease_expires_at,
        stored.finished_at == row.finished_at,
        stored.last_error == row.last_error,
        stored.updated_at == row.updated_at,
{
    state_texts_differ();
    durable_status_names_differ(DurableWorkStatus::Handled, DurableWorkStatus::Failed);
}

}
