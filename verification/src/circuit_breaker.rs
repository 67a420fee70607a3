//! The chain of circuit-breaker states. Each state is written behind the head
//! that its writer saw, or not at all.

use vstd::prelude::*;
use vstd::string::*;

use crate::columns::JsonColumns;
use crate::error;
use crate::error::{Fault, StoreError};
use crate::json;
use crate::json::{CanonicalJson, JsonDocument, JsonTree};
use crate::model::{
    CircuitBreakerHeadMetadata, NewCircuitBreakerSnapshot, StoredCircuitBreakerSnapshot,
    WriteOutcome, GLOBAL_CIRCUIT_BREAKER_SCOPE,
};
use crate::numbers;
use crate::numbers::{non_negative_u64_to_i64, positive_u64_to_i64};
use crate::plans;
use crate::text;
use crate::text::{decimal_text, is_blank, join2, join4, quoted, same_text};

verus! {

/// The texts that a circuit breaker may have as its status.
pub open spec fn breaker_status(status: Seq<char>) -> bool {
    status == "CLOSED"@ || status == "OPEN"@ || status == "HALF_OPEN"@
}

/// Whether a text is the status of a circuit breaker.
pub fn is_circuit_breaker_status(status: &str) -> (r: bool)
    ensures
        r == breaker_status(status@),
{
    same_text(status, "CLOSED") || same_text(status, "OPEN") || same_text(status, "HALF_OPEN")
}

/// The key of a state.
pub open spec fn snapshot_key(state_revision: nat) -> Seq<char> {
    "scope="@ + GLOBAL_CIRCUIT_BREAKER_SCOPE@ + ",state_revision="@ + text::decimal(state_revision)
}

/// The key of a state.
pub fn circuit_breaker_snapshot_key(state_revision: u64) -> (r: String)
    ensures
        r@ == snapshot_key(state_revision as nat),
{
    join4(
        "scope=",
        GLOBAL_CIRCUIT_BREAKER_SCOPE,
        ",state_revision=",
        decimal_text(state_revision).as_str(),
    )
}

/// How a writer names the head that it saw.
pub open spec fn expected_text(expected: Option<u64>) -> Seq<char> {
    match expected {
        Some(revision) => text::decimal(revision as nat),
        None => "none"@,
    }
}

fn expected_as_text(expected: Option<u64>) -> (r: String)
    ensures
        r@ == expected_text(expected),
{
    match expected {
        Some(revision) => decimal_text(revision),
        None => "none".to_owned(),
    }
}

/// The fault of a writer that saw another head.
pub open spec fn stale_snapshot(expected: Option<u64>) -> Fault {
    error::stale_fault(
        "circuit_breaker_snapshot"@,
        "scope="@ + GLOBAL_CIRCUIT_BREAKER_SCOPE@ + ",expected_head_revision="@ + expected_text(
            expected,
        ),
    )
}

/// The error of a writer that saw another head.
pub fn stale_circuit_breaker_snapshot(expected_head_revision: Option<u64>) -> (e: StoreError)
    ensures
        e@ == stale_snapshot(expected_head_revision),
{
    let key = join4(
        "scope=",
        GLOBAL_CIRCUIT_BREAKER_SCOPE,
        ",expected_head_revision=",
        expected_as_text(expected_head_revision).as_str(),
    );
    StoreError::stale("circuit_breaker_snapshot", key.as_str())
}

/// What is wrong with a stored revision.
pub open spec fn revision_fault(key: Seq<char>, revision: i64) -> Option<Fault> {
    if revision <= 0 {
        Some(
            error::corrupt_fault(
                "circuit_breaker_snapshot"@,
                key,
                "state_revision must be greater than zero"@,
            ),
        )
    } else {
        None
    }
}

/// The revision that a column holds.
pub fn circuit_breaker_revision_from_i64(key: &str, revision: i64) -> (r: Result<u64, StoreError>)
    ensures
        error::fault(r) == revision_fault(key@, revision),
        r matches Ok(number) ==> number == revision,
{
    if revision <= 0 {
        return Err(
            StoreError::corrupt(
                "circuit_breaker_snapshot",
                key,
                "state_revision must be greater than zero",
            ),
        );
    }
    Ok(revision as u64)
}

/// Why a payload does not say what the columns say.
pub open spec fn aliases_reason(
    schema_version: Seq<char>,
    status: Seq<char>,
    recovery_epoch: u64,
    payload: Seq<char>,
) -> Option<Seq<char>> {
    match json::parsed_json(payload) {
        Err(error) => Some("payload_json is invalid: "@ + error),
        Ok(value) => if !(value is Object) {
            Some("payload_json must be an object"@)
        } else if json::member(value, "schema_version"@) != Some(JsonTree::Text(schema_version)) {
            Some("schema_version does not match payload_json"@)
        } else if json::member(value, "recovery_epoch"@) != Some(
            JsonTree::Natural(recovery_epoch as nat),
        ) {
            Some("recovery_epoch does not match payload_json"@)
        } else if json::member(value, "status"@) != Some(JsonTree::Text(status)) {
            Some("status does not match payload_json"@)
        } else {
            None
        },
    }
}

/// Checks that a payload says what the columns say.
pub fn validate_circuit_breaker_payload_aliases(
    schema_version: &str,
    status: &str,
    recovery_epoch: u64,
    payload: &CanonicalJson,
) -> (r: Result<(), String>)
    ensures
        plans::reason_of(r) == aliases_reason(schema_version@, status@, recovery_epoch, payload@),
{
    let document = match JsonDocument::read(payload.as_str()) {
        Ok(document) => document,
        Err(error) => {
            return Err(join2("payload_json is invalid: ", error.as_str()));
        },
    };
    if !document.is_object() {
        return Err("payload_json must be an object".to_owned());
    }
    if !document.member_is_text("schema_version", schema_version) {
        return Err("schema_version does not match payload_json".to_owned());
    }
    if !document.member_is_natural("recovery_epoch", recovery_epoch) {
        return Err("recovery_epoch does not match payload_json".to_owned());
    }
    if !document.member_is_text("status", status) {
        return Err("status does not match payload_json".to_owned());
    }
    Ok(())
}

/// What is wrong with a state that is to be written.
pub open spec fn new_snapshot_fault(snapshot: NewCircuitBreakerSnapshot) -> Option<Fault> {
    let e = "circuit_breaker_snapshot"@;
    let key = "expected_head_revision="@ + expected_text(snapshot.expected_head_revision);
    if snapshot.expected_head_revision == Some(0u64) {
        Some(
            Fault::InvalidSequence { field: "circuit_breaker_snapshot.expected_head_revision"@ },
        )
    } else if text::blank(snapshot.schema_version@) {
        Some(error::invalid_fault(e, key, "schema_version must not be empty"@))
    } else if !breaker_status(snapshot.status@) {
        Some(
            error::invalid_fault(e, key, "invalid status "@ + text::debug_text(snapshot.status@)),
        )
    } else if snapshot.updated_at < 0 {
        Some(error::invalid_fault(e, key, "updated_at must be non-negative"@))
    } else {
        let f = numbers::optional_sequence_fault(
            "circuit_breaker_snapshot.expected_head_revision"@,
            snapshot.expected_head_revision,
        );
        let f = error::first_of(
            f,
            numbers::stored_integer_fault(
                "circuit_breaker_snapshot.recovery_epoch"@,
                snapshot.recovery_epoch as nat,
            ),
        );
        error::first_of(
            f,
            match aliases_reason(
                snapshot.schema_version@,
                snapshot.status@,
                snapshot.recovery_epoch,
                snapshot.payload@,
            ) {
                Some(reason) => Some(error::invalid_fault(e, key, reason)),
                None => None,
            },
        )
    }
}

/// Refuses a state that may not be written.
pub fn validate_new_circuit_breaker_snapshot(snapshot: &NewCircuitBreakerSnapshot) -> (r: Result<
    (),
    StoreError,
>)
    ensures
        error::fault(r) == new_snapshot_fault(*snapshot),
{
    let entity = "circuit_breaker_snapshot";
    let key = join2(
        "expected_head_revision=",
        expected_as_text(snapshot.expected_head_revision).as_str(),
    );
    if let Some(expected) = snapshot.expected_head_revision {
        if expected == 0 {
            return Err(
                StoreError::InvalidSequence {
                    field: "circuit_breaker_snapshot.expected_head_revision",
                },
            );
        }
    }
    if is_blank(snapshot.schema_version.as_str()) {
        return Err(StoreError::invalid(entity, key.as_str(), "schema_version must not be empty"));
    }
    if !is_circuit_breaker_status(snapshot.status.as_str()) {
        let reason = join2("invalid status ", quoted(snapshot.status.as_str()).as_str());
        return Err(StoreError::invalid(entity, key.as_str(), reason.as_str()));
    }
    if snapshot.updated_at < 0 {
        return Err(StoreError::invalid(entity, key.as_str(), "updated_at must be non-negative"));
    }
    if let Some(expected) = snapshot.expected_head_revision {
        positive_u64_to_i64("circuit_breaker_snapshot.expected_head_revision", expected)?;
    }
    non_negative_u64_to_i64(
        "circuit_breaker_snapshot.recovery_epoch",
        snapshot.recovery_epoch,
    )?;
    match validate_circuit_breaker_payload_aliases(
        snapshot.schema_version.as_str(),
        snapshot.status.as_str(),
        snapshot.recovery_epoch,
        &snapshot.payload,
    ) {
        Ok(_) => Ok(()),
        Err(reason) => Err(StoreError::invalid(entity, key.as_str(), reason.as_str())),
    }
}

/// The place that a writer asks for: behind the head that it saw.
pub open spec fn target(expected: Option<u64>) -> nat {
    match expected {
        Some(revision) => (revision + 1) as nat,
        None => 1,
    }
}

/// What is wrong with the place that a writer asks for.
pub open spec fn target_fault(expected: Option<u64>) -> Option<Fault> {
    let field = "circuit_breaker_snapshot.state_revision"@;
    if expected == Some(u64::MAX) {
        Some(Fault::InvalidInteger { field, value: u64::MAX as nat })
    } else {
        numbers::stored_integer_fault(field, target(expected))
    }
}

/// The place that a writer asks for.
pub fn target_revision(expected_head_revision: Option<u64>) -> (r: Result<u64, StoreError>)
    ensures
        error::fault(r) == target_fault(expected_head_revision),
        r matches Ok(revision) ==> revision == target(expected_head_revision),
{
    let revision: u64 = match expected_head_revision {
        Some(expected) => {
            if expected == u64::MAX {
                return Err(
                    StoreError::InvalidInteger {
                        field: "circuit_breaker_snapshot.state_revision",
                        value: expected,
                    },
                );
            }
            expected + 1
        },
        None => 1,
    };
    positive_u64_to_i64("circuit_breaker_snapshot.state_revision", revision)?;
    Ok(revision)
}

/// The stored state is the one that is to be written.
pub open spec fn same_snapshot(
    existing: StoredCircuitBreakerSnapshot,
    incoming: NewCircuitBreakerSnapshot,
) -> bool {
    &&& existing.scope@ == GLOBAL_CIRCUIT_BREAKER_SCOPE@
    &&& existing.schema_version@ == incoming.schema_version@
    &&& existing.status@ == incoming.status@
    &&& existing.recovery_epoch == incoming.recovery_epoch
    &&& existing.updated_at == incoming.updated_at
    &&& existing.payload@ == incoming.payload@
}

/// Whether the stored state is the one that is to be written.
pub fn same_circuit_breaker_snapshot(
    existing: &StoredCircuitBreakerSnapshot,
    incoming: &NewCircuitBreakerSnapshot,
) -> (r: bool)
    ensures
        r == same_snapshot(*existing, *incoming),
{
    same_text(existing.scope.as_str(), GLOBAL_CIRCUIT_BREAKER_SCOPE) && same_text(
        existing.schema_version.as_str(),
        incoming.schema_version.as_str(),
    ) && same_text(existing.status.as_str(), incoming.status.as_str()) && existing.recovery_epoch
        == incoming.recovery_epoch && existing.updated_at == incoming.updated_at
        && existing.payload.same(&incoming.payload)
}

/// What is wrong with writing a state behind the head. `head` is the newest
/// revision; `existing` is the state at the place that the writer asks for.
pub open spec fn write_fault(
    snapshot: NewCircuitBreakerSnapshot,
    head: Option<u64>,
    existing: Option<StoredCircuitBreakerSnapshot>,
) -> Option<Fault> {
    let f = new_snapshot_fault(snapshot);
    let f = error::first_of(f, target_fault(snapshot.expected_head_revision));
    error::first_of(
        f,
        if snapshot.expected_head_revision == head {
            None
        } else if head matches Some(revision) && revision == target(
            snapshot.expected_head_revision,
        ) {
            match existing {
                None => Some(
                    error::corrupt_fault(
                        "circuit_breaker_snapshot"@,
                        snapshot_key(target(snapshot.expected_head_revision)),
                        "head revision row is missing"@,
                    ),
                ),
                Some(existing) => if same_snapshot(existing, snapshot) {
                    None
                } else {
                    Some(stale_snapshot(snapshot.expected_head_revision))
                },
            }
        } else {
            Some(stale_snapshot(snapshot.expected_head_revision))
        },
    )
}

/// The state holds what was to be written, at the place that its writer asked
/// for.
pub open spec fn snapshot_written(
    snapshot: NewCircuitBreakerSnapshot,
    stored: StoredCircuitBreakerSnapshot,
) -> bool {
    &&& stored.scope@ == GLOBAL_CIRCUIT_BREAKER_SCOPE@
    &&& stored.state_revision == target(snapshot.expected_head_revision)
    &&& stored.schema_version == snapshot.schema_version
    &&& stored.status == snapshot.status
    &&& stored.recovery_epoch == snapshot.recovery_epoch
    &&& stored.updated_at == snapshot.updated_at
    &&& stored.payload == snapshot.payload
}

/// Writes a state behind the head, or finds that it was written before.
pub fn write_circuit_breaker_snapshot(
    snapshot: NewCircuitBreakerSnapshot,
    head: Option<u64>,
    existing: Option<StoredCircuitBreakerSnapshot>,
) -> (r: Result<WriteOutcome<StoredCircuitBreakerSnapshot>, StoreError>)
    ensures
        error::fault(r) == write_fault(snapshot, head, existing),
        r matches Ok(WriteOutcome::Inserted(stored)) ==> snapshot.expected_head_revision == head
            && snapshot_written(snapshot, stored),
        r matches Ok(WriteOutcome::Duplicate(stored)) ==> snapshot.expected_head_revision != head
            && Some(stored) == existing,
{
    validate_new_circuit_breaker_snapshot(&snapshot)?;
    let revision: u64 = target_revision(snapshot.expected_head_revision)?;
    let saw_head = match (snapshot.expected_head_revision, head) {
        (Some(expected), Some(head)) => expected == head,
        (None, None) => true,
        _ => false,
    };
    if !saw_head {
        let written = match head {
            Some(head) => head == revision,
            None => false,
        };
        if written {
            match existing {
                None => {
                    return Err(
                        StoreError::corrupt(
                            "circuit_breaker_snapshot",
                            circuit_breaker_snapshot_key(revision).as_str(),
                            "head revision row is missing",
                        ),
                    );
                },
                Some(stored) => {
                    if same_circuit_breaker_snapshot(&stored, &snapshot) {
                        return Ok(WriteOutcome::Duplicate(stored));
                    }
                },
            }
        }
        return Err(stale_circuit_breaker_snapshot(snapshot.expected_head_revision));
    }
    Ok(
        WriteOutcome::Inserted(
            StoredCircuitBreakerSnapshot {
                scope: GLOBAL_CIRCUIT_BREAKER_SCOPE.to_owned(),
                state_revision: revision,
                schema_version: snapshot.schema_version,
                status: snapshot.status,
                recovery_epoch: snapshot.recovery_epoch,
                updated_at: snapshot.updated_at,
                payload: snapshot.payload,
            },
        ),
    )
}

/// Decides about a state whose place was taken while it was being written.
pub fn settle_circuit_breaker_race(
    snapshot: &NewCircuitBreakerSnapshot,
    existing: Option<StoredCircuitBreakerSnapshot>,
) -> (r: Result<WriteOutcome<StoredCircuitBreakerSnapshot>, StoreError>)
    ensures
        error::fault(r) == (if existing matches Some(stored) && same_snapshot(stored, *snapshot) {
            None
        } else {
            Some(stale_snapshot(snapshot.expected_head_revision))
        }),
        r matches Ok(outcome) ==> outcome == WriteOutcome::Duplicate(existing->0),
{
    if let Some(stored) = existing {
        if same_circuit_breaker_snapshot(&stored, snapshot) {
            return Ok(WriteOutcome::Duplicate(stored));
        }
    }
    Err(stale_circuit_breaker_snapshot(snapshot.expected_head_revision))
}

/// What is wrong with a stored epoch.
pub open spec fn epoch_fault(state_revision: i64, recovery_epoch: i64) -> Option<Fault> {
    if recovery_epoch < 0 {
        Some(
            error::corrupt_fault(
                "circuit_breaker_snapshot"@,
                snapshot_key(state_revision as nat),
                "recovery_epoch must be non-negative"@,
            ),
        )
    } else {
        None
    }
}

/// Reads what recovery needs of the newest state.
pub fn circuit_breaker_head_metadata(state_revision: i64, recovery_epoch: i64) -> (r: Result<
    CircuitBreakerHeadMetadata,
    StoreError,
>)
    ensures
        error::fault(r) == error::first_of(
            revision_fault("head"@, state_revision),
            epoch_fault(state_revision, recovery_epoch),
        ),
        r matches Ok(head) ==> head.state_revision == state_revision && head.recovery_epoch
            == recovery_epoch,
{
    let revision: u64 = circuit_breaker_revision_from_i64("head", state_revision)?;
    if recovery_epoch < 0 {
        return Err(
            StoreError::corrupt(
                "circuit_breaker_snapshot",
                circuit_breaker_snapshot_key(revision).as_str(),
                "recovery_epoch must be non-negative",
            ),
        );
    }
    Ok(
        CircuitBreakerHeadMetadata {
            state_revision: revision,
            recovery_epoch: recovery_epoch as u64,
        },
    )
}

/// A row of the circuit-breaker states.
pub struct CircuitBreakerRow {
    pub scope: String,
    pub state_revision: i64,
    pub schema_version: String,
    pub status: String,
    pub recovery_epoch: i64,
    pub updated_at: i64,
    pub payload: JsonColumns,
}

/// What is wrong with a row of the circuit-breaker states.
pub open spec fn snapshot_row_fault(row: CircuitBreakerRow) -> Option<Fault> {
    let e = "circuit_breaker_snapshot"@;
    let key = snapshot_key(row.state_revision as nat);
    if revision_fault(row.scope@, row.state_revision) is Some {
        revision_fault(row.scope@, row.state_revision)
    } else if row.scope@ != GLOBAL_CIRCUIT_BREAKER_SCOPE@ {
        Some(error::corrupt_fault(e, key, "unsupported scope "@ + text::debug_text(row.scope@)))
    } else if row.recovery_epoch < 0 {
        epoch_fault(row.state_revision, row.recovery_epoch)
    } else if text::blank(row.schema_version@) {
        Some(error::corrupt_fault(e, key, "schema_version must not be empty"@))
    } else if !breaker_status(row.status@) {
        Some(error::corrupt_fault(e, key, "invalid status "@ + text::debug_text(row.status@)))
    } else if row.updated_at < 0 {
        Some(error::corrupt_fault(e, key, "updated_at must be non-negative"@))
    } else {
        error::first_of(
            json::stored_fault(e, key, row.payload.text@, row.payload.digest@),
            match aliases_reason(
                row.schema_version@,
                row.status@,
                row.recovery_epoch as u64,
                row.payload.text@,
            ) {
                Some(reason) => Some(error::corrupt_fault(e, key, reason)),
                None => None,
            },
        )
    }
}

/// Reads a circuit-breaker state.
pub fn circuit_breaker_snapshot_from_row(row: CircuitBreakerRow) -> (r: Result<
    StoredCircuitBreakerSnapshot,
    StoreError,
>)
    ensures
        error::fault(r) == snapshot_row_fault(row),
        r matches Ok(stored) ==> stored == (StoredCircuitBreakerSnapshot {
            scope: row.scope,
            state_revision: row.state_revision as u64,
            schema_version: row.schema_version,
            status: row.status,
            recovery_epoch: row.recovery_epoch as u64,
            updated_at: row.updated_at,
            payload: stored.payload,
        }) && stored.payload@ == row.payload.text@,
{
    let entity = "circuit_breaker_snapshot";
    let state_revision: u64 = circuit_breaker_revision_from_i64(
        row.scope.as_str(),
        row.state_revision,
    )?;
    let key = circuit_breaker_snapshot_key(state_revision);
    if !same_text(row.scope.as_str(), GLOBAL_CIRCUIT_BREAKER_SCOPE) {
        let reason = join2("unsupported scope ", quoted(row.scope.as_str()).as_str());
        return Err(StoreError::corrupt(entity, key.as_str(), reason.as_str()));
    }
    if row.recovery_epoch < 0 {
        return Err(
            StoreError::corrupt(entity, key.as_str(), "recovery_epoch must be non-negative"),
        );
    }
    let recovery_epoch: u64 = row.recovery_epoch as u64;
    if is_blank(row.schema_version.as_str()) {
        return Err(StoreError::corrupt(entity, key.as_str(), "schema_version must not be empty"));
    }
    if !is_circuit_breaker_status(row.status.as_str()) {
        let reason = join2("invalid status ", quoted(row.status.as_str()).as_str());
        return Err(StoreError::corrupt(entity, key.as_str(), reason.as_str()));
    }
    if row.updated_at < 0 {
        return Err(StoreError::corrupt(entity, key.as_str(), "updated_at must be non-negative"));
    }
    let payload = CanonicalJson::from_stored(
        entity,
        key.as_str(),
        row.payload.text,
        row.payload.digest,
    )?;
    if let Err(reason) = validate_circuit_breaker_payload_aliases(
        row.schema_version.as_str(),
        row.status.as_str(),
        recovery_epoch,
        &payload,
    ) {
        return Err(StoreError::corrupt(entity, key.as_str(), reason.as_str()));
    }
    Ok(
        StoredCircuitBreakerSnapshot {
            scope: row.scope,
            state_revision,
            schema_version: row.schema_version,
            status: row.status,
            recovery_epoch,
            updated_at: row.updated_at,
            payload,
        },
    )
}

/// The chain grows by one link at a time: what is written behind the head is
/// the next revision, and the first state has revision one.
pub proof fn chain_grows_by_one(
    snapshot: NewCircuitBreakerSnapshot,
    head: Option<u64>,
    stored: StoredCircuitBreakerSnapshot,
)
    requires
        snapshot.expected_head_revision == head,
        write_fault(snapshot, head, None) is None,
        snapshot_written(snapshot, stored),
    ensures
        head is None ==> stored.state_revision == 1,
        head matches Some(revision) ==> stored.state_revision == revision + 1,
        stored.state_revision <= i64::MAX,
{
}

/// Of two writers that saw the same head only one writes: behind the new head
/// the other is refused, unless it wants the very same state.
pub proof fn one_writer_per_head(
    first: NewCircuitBreakerSnapshot,
    stored: StoredCircuitBreakerSnapshot,
    second: NewCircuitBreakerSnapshot,
)
    requires
        write_fault(first, first.expected_head_revision, None) is None,
        snapshot_written(first, stored),
        second.expected_head_revision == first.expected_head_revision,
        new_snapshot_fault(second) is None,
    ensures
        write_fault(second, Some(stored.state_revision), Some(stored)) == (if same_snapshot(
            stored,
            second,
        ) {
            None
        } else {
            Some(stale_snapshot(second.expected_head_revision))
        }),
{
}

/// A state that was written can be written again, and then changes nothing.
pub proof fn written_state_repeats(
    snapshot: NewCircuitBreakerSnapshot,
    stored: StoredCircuitBreakerSnapshot,
)
    requires
        write_fault(snapshot, snapshot.expected_head_revision, None) is None,
        snapshot_written(snapshot, stored),
    ensures
        snapshot.expected_head_revision != Some(stored.state_revision),
        write_fault(snapshot, Some(stored.state_revision), Some(stored)) is None,
{
}

/// A state that may be written is taken back when it is read, provided its
/// payload is canonical.
pub proof fn written_state_is_taken_back(
    snapshot: NewCircuitBreakerSnapshot,
    row: CircuitBreakerRow,
)
    requires
        write_fault(snapshot, snapshot.expected_head_revision, None) is None,
        json::is_canonical_text(snapshot.payload@),
        row.scope@ == GLOBAL_CIRCUIT_BREAKER_SCOPE@,
        row.state_revision == target(snapshot.expected_head_revision),
        row.schema_version@ == snapshot.schema_version@,
        row.status@ == snapshot.status@,
        row.recovery_epoch == snapshot.recovery_epoch,
        row.updated_at == snapshot.updated_at,
        row.payload.text@ == snapshot.payload@,
        row.payload.digest@ == json::text_digest(snapshot.payload@),
    ensures
        snapshot_row_fault(row) is None,
{
}

/// A state of the breaker is taken if it names its schema, is closed, open or
/// half open, is not of a negative time, follows a state that was counted, and
/// says in its payload what its columns say.
pub proof fn breaker_states_are_sound(snapshot: NewCircuitBreakerSnapshot)
    ensures
        new_snapshot_fault(snapshot) is None <==> {
            let payload = json::parsed_json(snapshot.payload@);
            &&& snapshot.expected_head_revision is Some ==> 0 < snapshot.expected_head_revision->0
                <= i64::MAX
            &&& !text::blank(snapshot.schema_version@)
            &&& snapshot.status@ == "CLOSED"@ || snapshot.status@ == "OPEN"@ || snapshot.status@
                == "HALF_OPEN"@
            &&& snapshot.updated_at >= 0
            &&& snapshot.recovery_epoch <= i64::MAX
            &&& payload is Ok
            &&& payload->Ok_0 is Object
            &&& json::member(payload->Ok_0, "schema_version"@) == Some(
                JsonTree::Text(snapshot.schema_version@),
            )
            &&& json::member(payload->Ok_0, "recovery_epoch"@) == Some(
                JsonTree::Natural(snapshot.recovery_epoch as nat),
            )
            &&& json::member(payload->Ok_0, "status"@) == Some(JsonTree::Text(snapshot.status@))
        },
{
}

/// A state is written on top of the one its writer expects. If somebody was
/// faster, it is accepted only if what they wrote is the very same; otherwise it
/// is stale.
pub proof fn states_are_written_on_top(
    snapshot: NewCircuitBreakerSnapshot,
    head: Option<u64>,
    existing: Option<StoredCircuitBreakerSnapshot>,
)
    requires
        new_snapshot_fault(snapshot) is None,
        snapshot.expected_head_revision is Some ==> snapshot.expected_head_revision->0 < i64::MAX,
    ensures
        snapshot.expected_head_revision == head ==> write_fault(snapshot, head, existing) is None,
        ({
            let next: int = if snapshot.expected_head_revision is Some {
                snapshot.expected_head_revision->0 + 1
            } else {
                1
            };
            &&& snapshot.expected_head_revision != head && write_fault(
                snapshot,
                head,
                existing,
            ) is None ==> {
                &&& head is Some && head->0 == next
                &&& existing is Some
                &&& (existing->0).scope@ == "GLOBAL"@
                &&& (existing->0).schema_version@ == snapshot.schema_version@
                &&& (existing->0).status@ == snapshot.status@
                &&& (existing->0).recovery_epoch == snapshot.recovery_epoch
                &&& (existing->0).updated_at == snapshot.updated_at
                &&& (existing->0).payload@ == snapshot.payload@
            }
            &&& head != snapshot.expected_head_revision && (head is None || head->0 != next)
                ==> write_fault(snapshot, head, existing) is Some && (write_fault(
                snapshot,
                head,
                existing,
            )->0) is StaleWrite
        }),
{
}

/// What is written is what was given, at the next revision.
pub proof fn written_states_are_as_given(
    snapshot: NewCircuitBreakerSnapshot,
    stored: StoredCircuitBreakerSnapshot,
)
    requires
        snapshot_written(snapshot, stored),
    ensures
        stored.scope@ == "GLOBAL"@,
        snapshot.expected_head_revision is None ==> stored.state_revision == 1,
        snapshot.expected_head_revision is Some ==> stored.state_revision
            == snapshot.expected_head_revision->0 + 1,
        stored.schema_version == snapshot.schema_version,
        stored.status == snapshot.status,
        stored.recovery_epoch == snapshot.recovery_epoch,
        stored.updated_at == snapshot.updated_at,
        stored.payload == snapshot.payload,
{
}

/// A stored state is read if it is sound: numbered from one, of the one scope
/// there is, in a known status, and as its payload says.
pub proof fn read_breaker_states_are_sound(row: CircuitBreakerRow)
    ensures
        snapshot_row_fault(row) is None ==> {
            let payload = json::parsed_json(row.payload.text@);
            &&& row.state_revision > 0
            &&& row.scope@ == "GLOBAL"@
            &&& row.recovery_epoch >= 0
            &&& !text::blank(row.schema_version@)
            &&& row.status@ == "CLOSED"@ || row.status@ == "OPEN"@ || row.status@ == "HALF_OPEN"@
            &&& row.updated_at >= 0
            &&& payload is Ok && payload->Ok_0 is Object
            &&& json::member(payload->Ok_0, "schema_version"@) == Some(
                JsonTree::Text(row.schema_version@),
            )
            &&& json::member(payload->Ok_0, "recovery_epoch"@) == Some(
                JsonTree::Natural(row.recovery_epoch as nat),
            )
            &&& json::member(payload->Ok_0, "status"@) == Some(JsonTree::Text(row.status@))
        },
{
}

}
