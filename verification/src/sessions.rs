//! Sessions of execution clients: registered, kept alive, routed to, and ended.

use vstd::prelude::*;
use vstd::string::*;

use crate::attempts;
use crate::columns;
use crate::columns::{parse_enum_column, parse_optional_enum_column, same_time, EnumColumn};
use crate::deliveries;
use crate::deliveries::{
    cancel_session_pending_deliveries, require_non_empty, session_last_seen,
    settle_rejected_pending_attempts, stale_outbound, unconfirm_session_attempts,
    update_attempt_state, update_outbox_state,
};
use crate::domain;
use crate::domain::{
    is_clock_synced, AccountId, ClientId, CommandDeliveryAttemptStatus, SessionId, SessionStatus,
    TerminalId, WireOutboxStatus,
};
use crate::error;
use crate::error::{Fault, StoreError};
use crate::json;
use crate::json::CanonicalJson;
use crate::model::{
    DeliveryStartupFenceReport, DeliverySubject, NewReservedDelivery, NewSessionRecord, OutboundReservation,
    ReserveOutboundSequence, SequenceReservation, SessionHeartbeatUpdate, SessionRouteQuery,
    SessionRouteResolution, SessionStatusUpdate, StoredDeliveryAttempt, StoredOutboundDelivery,
    StoredSessionRecord, StoredWireOutbox, WriteOutcome,
};
use crate::numbers;
use crate::numbers::{checked_increment, non_negative_from_row, positive_from_row};
use crate::text;
use crate::text::{copy_optional, join2, join5, optional_is, same_optional, same_text};

verus! {

/// The fault of a session that another write has overtaken.
pub open spec fn stale_session_fault(session_id: Seq<char>) -> Fault {
    error::stale_fault("execution_client_session"@, session_id)
}

pub fn stale_session(session_id: &SessionId) -> (e: StoreError)
    ensures
        e@ == stale_session_fault(session_id@),
{
    StoreError::stale("execution_client_session", session_id.as_str())
}

/// A time lies in the life of a session, or is missing.
pub open spec fn within_session(at: Option<i64>, connected_at: i64, updated_at: i64) -> bool {
    at matches Some(at) ==> connected_at <= at <= updated_at
}

fn is_within_session(at: Option<i64>, connected_at: i64, updated_at: i64) -> (r: bool)
    ensures
        r == within_session(at, connected_at, updated_at),
{
    match at {
        Some(at) => connected_at <= at && at <= updated_at,
        None => true,
    }
}

/// The clock state and the time of the last synchronisation agree: a synced
/// clock was synchronised at some time, and a synchronised clock has a state.
pub open spec fn clock_evidence_agrees(
    clock_sync_status: Option<domain::ClockSyncStatus>,
    last_time_sync_at: Option<i64>,
) -> bool {
    &&& domain::clock_synced(clock_sync_status) ==> last_time_sync_at is Some
    &&& last_time_sync_at is Some ==> clock_sync_status is Some
}

/// What is wrong with a session that is to become active.
pub open spec fn new_session_fault(session: NewSessionRecord) -> Option<Fault> {
    if !(session.status is Active) || session.disconnected_at is Some
        || session.max_inflight_commands == 0 || session.updated_at < session.connected_at
        || !within_session(session.last_heartbeat_at, session.connected_at, session.updated_at)
        || !within_session(session.last_time_sync_at, session.connected_at, session.updated_at) {
        Some(
            error::invalid_fault(
                "execution_client_session"@,
                session.session_id@,
                "invalid active session status, limit, or timestamps"@,
            ),
        )
    } else if !clock_evidence_agrees(session.clock_sync_status, session.last_time_sync_at) {
        Some(
            error::invalid_fault(
                "execution_client_session"@,
                session.session_id@,
                "time-sync evidence is inconsistent with clock_sync_status"@,
            ),
        )
    } else {
        None
    }
}

/// Refuses a session that cannot become active.
pub fn validate_new_active_session(session: &NewSessionRecord) -> (r: Result<(), StoreError>)
    ensures
        error::fault(r) == new_session_fault(*session),
{
    if session.status != SessionStatus::Active || session.disconnected_at.is_some()
        || session.max_inflight_commands == 0 || session.updated_at < session.connected_at
        || !is_within_session(session.last_heartbeat_at, session.connected_at, session.updated_at)
        || !is_within_session(session.last_time_sync_at, session.connected_at, session.updated_at) {
        return Err(
            StoreError::invalid(
                "execution_client_session",
                session.session_id.as_str(),
                "invalid active session status, limit, or timestamps",
            ),
        );
    }
    if (is_clock_synced(&session.clock_sync_status) && session.last_time_sync_at.is_none()) || (
    session.last_time_sync_at.is_some() && session.clock_sync_status.is_none()) {
        return Err(
            StoreError::invalid(
                "execution_client_session",
                session.session_id.as_str(),
                "time-sync evidence is inconsistent with clock_sync_status",
            ),
        );
    }
    Ok(())
}

/// The stored session is the one that is asked for: who connected, from where,
/// when, and with which abilities.
pub open spec fn registered_as(existing: StoredSessionRecord, incoming: NewSessionRecord) -> bool {
    &&& existing.session_id@ == incoming.session_id@
    &&& existing.client_id@ == incoming.client_id@
    &&& existing.account_id@ == incoming.account_id@
    &&& text::optional_text(existing.terminal_id) == text::optional_text(incoming.terminal_id)
    &&& existing.platform@ == incoming.platform@
    &&& existing.capabilities@ == incoming.capabilities@
    &&& text::optional_text(existing.remote_addr) == text::optional_text(incoming.remote_addr)
    &&& existing.connected_at == incoming.connected_at
    &&& existing.max_inflight_commands == incoming.max_inflight_commands
}

/// Whether the stored session is the one that is asked for.
pub fn same_registration(existing: &StoredSessionRecord, incoming: &NewSessionRecord) -> (r: bool)
    ensures
        r == registered_as(*existing, *incoming),
{
    same_text(existing.session_id.as_str(), incoming.session_id.as_str()) && same_text(
        existing.client_id.as_str(),
        incoming.client_id.as_str(),
    ) && same_text(existing.account_id.as_str(), incoming.account_id.as_str()) && same_optional(
        &existing.terminal_id,
        &incoming.terminal_id,
    ) && same_text(existing.platform.as_str(), incoming.platform.as_str())
        && existing.capabilities.same(&incoming.capabilities) && same_optional(
        &existing.remote_addr,
        &incoming.remote_addr,
    ) && existing.connected_at == incoming.connected_at && existing.max_inflight_commands
        == incoming.max_inflight_commands
}

/// The stored session agrees with the one that is asked for in everything that
/// a request states.
pub open spec fn same_session(existing: StoredSessionRecord, incoming: NewSessionRecord) -> bool {
    &&& registered_as(existing, incoming)
    &&& existing.status == incoming.status
    &&& existing.last_heartbeat_at == incoming.last_heartbeat_at
    &&& existing.last_time_sync_at == incoming.last_time_sync_at
    &&& text::optional_text(existing.clock_sync_status) == text::optional_text(
        incoming.clock_sync_status,
    )
    &&& existing.disconnected_at == incoming.disconnected_at
    &&& existing.updated_at == incoming.updated_at
}

/// Whether the stored session agrees with the one that is asked for.
pub fn same_session_identity(existing: &StoredSessionRecord, incoming: &NewSessionRecord) -> (r:
    bool)
    ensures
        r == same_session(*existing, *incoming),
{
    same_registration(existing, incoming) && existing.status == incoming.status && same_time(
        existing.last_heartbeat_at,
        incoming.last_heartbeat_at,
    ) && same_time(existing.last_time_sync_at, incoming.last_time_sync_at) && same_optional(
        &existing.clock_sync_status,
        &incoming.clock_sync_status,
    ) && same_time(existing.disconnected_at, incoming.disconnected_at) && existing.updated_at
        == incoming.updated_at
}

/// The session is active and at the revision that the caller saw.
pub open spec fn active_at(session: StoredSessionRecord, revision: u64) -> bool {
    session.status is Active && session.revision == revision
}

/// Refuses a session that is not active or that another write has overtaken.
pub fn require_active_session_revision(
    session: &StoredSessionRecord,
    expected_revision: u64,
) -> (r: Result<(), StoreError>)
    ensures
        error::fault(r) == (if active_at(*session, expected_revision) {
            None
        } else {
            Some(stale_session_fault(session.session_id@))
        }),
{
    if session.status == SessionStatus::Active && session.revision == expected_revision {
        Ok(())
    } else {
        Err(stale_session(&session.session_id))
    }
}

/// The time of the last synchronisation, once a heartbeat is booked.
pub open spec fn synced_after(
    current: StoredSessionRecord,
    update: SessionHeartbeatUpdate,
) -> Option<i64> {
    if update.last_time_sync_at is Some {
        update.last_time_sync_at
    } else {
        current.last_time_sync_at
    }
}

/// A time goes back behind the last one of its kind.
pub open spec fn goes_back(at: i64, last: Option<i64>) -> bool {
    last matches Some(last) && at < last
}

/// What is wrong with a heartbeat.
pub open spec fn heartbeat_fault(
    current: StoredSessionRecord,
    update: SessionHeartbeatUpdate,
) -> Option<Fault> {
    if !active_at(current, update.expected_revision) {
        Some(stale_session_fault(current.session_id@))
    } else if update.updated_at < current.updated_at || update.heartbeat_at < current.connected_at
        || goes_back(update.heartbeat_at, current.last_heartbeat_at) {
        Some(stale_session_fault(update.session_id@))
    } else if update.last_time_sync_at matches Some(synced_at) && (synced_at < current.connected_at
        || goes_back(synced_at, current.last_time_sync_at)) {
        Some(stale_session_fault(update.session_id@))
    } else if update.clock_sync_status@ == domain::CLOCK_SYNCED@ && synced_after(current, update)
        is None {
        Some(
            error::invalid_fault(
                "execution_client_session"@,
                update.session_id@,
                "SYNCED heartbeat requires time-sync evidence"@,
            ),
        )
    } else {
        numbers::increment_fault("execution_client_sessions.revision"@, current.revision as nat)
    }
}

/// Books a heartbeat. Neither the heartbeats nor the synchronisations of a
/// session ever go back.
pub fn update_session_heartbeat(current: &StoredSessionRecord, update: &SessionHeartbeatUpdate) -> (r:
    Result<StoredSessionRecord, StoreError>)
    ensures
        error::fault(r) == heartbeat_fault(*current, *update),
        r matches Ok(next) ==> next == (StoredSessionRecord {
            last_heartbeat_at: Some(update.heartbeat_at),
            last_time_sync_at: synced_after(*current, *update),
            clock_sync_status: Some(update.clock_sync_status),
            revision: (current.revision + 1) as u64,
            updated_at: update.updated_at,
            ..*current
        }),
{
    require_active_session_revision(current, update.expected_revision)?;
    let heartbeat_goes_back = match current.last_heartbeat_at {
        Some(last) => update.heartbeat_at < last,
        None => false,
    };
    if update.updated_at < current.updated_at || update.heartbeat_at < current.connected_at
        || heartbeat_goes_back {
        return Err(stale_session(&update.session_id));
    }
    let last_time_sync_at = match update.last_time_sync_at {
        Some(synced_at) => {
            let sync_goes_back = match current.last_time_sync_at {
                Some(last) => synced_at < last,
                None => false,
            };
            if synced_at < current.connected_at || sync_goes_back {
                return Err(stale_session(&update.session_id));
            }
            Some(synced_at)
        },
        None => current.last_time_sync_at,
    };
    if same_text(update.clock_sync_status.as_str(), domain::CLOCK_SYNCED)
        && last_time_sync_at.is_none() {
        return Err(
            StoreError::invalid(
                "execution_client_session",
                update.session_id.as_str(),
                "SYNCED heartbeat requires time-sync evidence",
            ),
        );
    }
    let revision: u64 = checked_increment("execution_client_sessions.revision", current.revision)?;
    let mut next = current.clone();
    next.last_heartbeat_at = Some(update.heartbeat_at);
    next.last_time_sync_at = last_time_sync_at;
    next.clock_sync_status = Some(update.clock_sync_status.clone());
    next.revision = revision;
    next.updated_at = update.updated_at;
    Ok(next)
}

/// The session as it stands once it has ended.
pub open spec fn ended(
    current: StoredSessionRecord,
    status: SessionStatus,
    changed_at: i64,
) -> StoredSessionRecord {
    StoredSessionRecord {
        status,
        disconnected_at: Some(changed_at),
        revision: (current.revision + 1) as u64,
        updated_at: changed_at,
        ..current
    }
}

/// Ends an active session.
pub fn transition_session_status(
    current: &StoredSessionRecord,
    status: SessionStatus,
    changed_at: i64,
) -> (r: Result<StoredSessionRecord, StoreError>)
    ensures
        error::fault(r) == numbers::increment_fault(
            "execution_client_sessions.revision"@,
            current.revision as nat,
        ),
        r matches Ok(next) ==> next == ended(*current, status, changed_at),
{
    let revision: u64 = checked_increment("execution_client_sessions.revision", current.revision)?;
    let mut next = current.clone();
    next.status = status;
    next.disconnected_at = Some(changed_at);
    next.revision = revision;
    next.updated_at = changed_at;
    Ok(next)
}

/// The deliveries that the end of a session touches: those whose message the
/// peer refused while the attempt is pending, those not yet written, and those
/// that may have reached the peer.
pub struct SessionDeliveries {
    pub rejected: Vec<StoredOutboundDelivery>,
    pub pending: Vec<StoredOutboundDelivery>,
    pub in_doubt: Vec<StoredOutboundDelivery>,
}

/// An ended session with the deliveries that its end touched.
pub struct SessionEnd {
    pub session: StoredSessionRecord,
    pub deliveries: SessionDeliveries,
}

/// `after` is `before` once the session has ended.
pub open spec fn deliveries_ended(
    before: SessionDeliveries,
    changed_at: i64,
    error: Seq<char>,
    after: SessionDeliveries,
) -> bool {
    &&& deliveries::all_made(
        before.rejected@,
        deliveries::settle_step(changed_at),
        after.rejected@,
    )
    &&& deliveries::all_made(
        before.pending@,
        deliveries::cancel_step(changed_at, error),
        after.pending@,
    )
    &&& deliveries::all_made(
        before.in_doubt@,
        deliveries::unconfirm_step(changed_at, error),
        after.in_doubt@,
    )
}

/// What is wrong with closing a session.
pub open spec fn close_fault(
    current: StoredSessionRecord,
    touched: SessionDeliveries,
    update: SessionStatusUpdate,
) -> Option<Fault> {
    error::first_of(
        deliveries::non_empty_fault("session status delivery_error"@, update.delivery_error@),
        if !active_at(current, update.expected_revision) {
            Some(stale_session_fault(current.session_id@))
        } else if update.changed_at < current.updated_at {
            Some(stale_session_fault(update.session_id@))
        } else {
            error::first_of(
                deliveries::first_fault(
                    touched.rejected@,
                    deliveries::settle_step(update.changed_at),
                ),
                error::first_of(
                    deliveries::first_fault(
                        touched.in_doubt@,
                        deliveries::unconfirm_step(update.changed_at, update.delivery_error@),
                    ),
                    error::first_of(
                        deliveries::first_fault(
                            touched.pending@,
                            deliveries::cancel_step(update.changed_at, update.delivery_error@),
                        ),
                        numbers::increment_fault(
                            "execution_client_sessions.revision"@,
                            current.revision as nat,
                        ),
                    ),
                ),
            )
        },
    )
}

/// Closes an active session: nothing of it stays pending, and what may have
/// reached the peer is in doubt.
pub fn close_session(
    current: &StoredSessionRecord,
    touched: SessionDeliveries,
    update: &SessionStatusUpdate,
    status: SessionStatus,
) -> (r: Result<SessionEnd, StoreError>)
    ensures
        error::fault(r) == close_fault(*current, touched, *update),
        r matches Ok(end) ==> {
            &&& end.session == ended(*current, status, update.changed_at)
            &&& deliveries_ended(touched, update.changed_at, update.delivery_error@, end.deliveries)
        },
{
    require_non_empty("session status delivery_error", update.delivery_error.as_str())?;
    require_active_session_revision(current, update.expected_revision)?;
    if update.changed_at < current.updated_at {
        return Err(stale_session(&update.session_id));
    }
    let rejected = settle_rejected_pending_attempts(touched.rejected, update.changed_at)?;
    let in_doubt = unconfirm_session_attempts(
        touched.in_doubt,
        update.changed_at,
        update.delivery_error.as_str(),
    )?;
    let pending = cancel_session_pending_deliveries(
        touched.pending,
        update.changed_at,
        update.delivery_error.as_str(),
    )?;
    let session = transition_session_status(current, status, update.changed_at)?;
    Ok(SessionEnd { session, deliveries: SessionDeliveries { rejected, pending, in_doubt } })
}

/// What is to be done so that a session becomes the active one of its identity.
pub enum ReplacementPlan {
    /// It is the active one already.
    Keep(StoredSessionRecord),
    /// Another session is active and has to give way.
    Supersede(StoredSessionRecord),
    /// No session is active.
    Register,
}

/// The text under which a session is named in a conflict.
pub open spec fn session_key(session_id: Seq<char>) -> Seq<char> {
    "session_id="@ + session_id
}

/// What is wrong with making a session the active one.
pub open spec fn replacement_fault(
    active: Seq<StoredSessionRecord>,
    session: NewSessionRecord,
) -> Option<Fault> {
    if new_session_fault(session) is Some {
        new_session_fault(session)
    } else if active.len() > 1 {
        Some(
            error::corrupt_fault(
                "execution_client_session"@,
                session.account_id@,
                "more than one active session has the same identity"@,
            ),
        )
    } else if active.len() == 0 {
        None
    } else if active[0].session_id@ == session.session_id@ {
        if registered_as(active[0], session) {
            None
        } else {
            Some(
                error::conflict_fault(
                    "execution_client_session"@,
                    session_key(session.session_id@),
                ),
            )
        }
    } else if session.updated_at < active[0].updated_at {
        Some(stale_session_fault(active[0].session_id@))
    } else {
        None
    }
}

/// Decides how a session becomes the active one of its identity. `active` holds
/// the sessions of that identity which are active now.
pub fn plan_session_replacement(active: Vec<StoredSessionRecord>, session: &NewSessionRecord) -> (r:
    Result<ReplacementPlan, StoreError>)
    ensures
        error::fault(r) == replacement_fault(active@, *session),
        r matches Ok(plan) ==> match plan {
            ReplacementPlan::Keep(existing) => active@.len() == 1 && existing == active@[0]
                && existing.session_id@ == session.session_id@,
            ReplacementPlan::Supersede(existing) => active@.len() == 1 && existing == active@[0]
                && existing.session_id@ != session.session_id@,
            ReplacementPlan::Register => active@.len() == 0,
        },
{
    validate_new_active_session(session)?;
    if active.len() > 1 {
        return Err(
            StoreError::corrupt(
                "execution_client_session",
                session.account_id.as_str(),
                "more than one active session has the same identity",
            ),
        );
    }
    let mut active = active;
    match active.pop() {
        None => Ok(ReplacementPlan::Register),
        Some(existing) => {
            if same_text(existing.session_id.as_str(), session.session_id.as_str()) {
                if same_registration(&existing, session) {
                    return Ok(ReplacementPlan::Keep(existing));
                }
                let key = join2("session_id=", session.session_id.as_str());
                return Err(StoreError::conflict("execution_client_session", key.as_str()));
            }
            if session.updated_at < existing.updated_at {
                return Err(stale_session(&existing.session_id));
            }
            Ok(ReplacementPlan::Supersede(existing))
        },
    }
}

/// What is wrong with replacing an active session.
pub open spec fn supersede_fault(
    existing: StoredSessionRecord,
    touched: SessionDeliveries,
    changed_at: i64,
) -> Option<Fault> {
    error::first_of(
        deliveries::first_fault(touched.rejected@, deliveries::settle_step(changed_at)),
        error::first_of(
            deliveries::first_fault(
                touched.pending@,
                deliveries::cancel_step(changed_at, "SESSION_REPLACED"@),
            ),
            error::first_of(
                deliveries::first_fault(
                    touched.in_doubt@,
                    deliveries::unconfirm_step(changed_at, "SESSION_REPLACED"@),
                ),
                numbers::increment_fault(
                    "execution_client_sessions.revision"@,
                    existing.revision as nat,
                ),
            ),
        ),
    )
}

/// Ends a session in favour of another.
pub fn supersede_session(
    existing: &StoredSessionRecord,
    touched: SessionDeliveries,
    changed_at: i64,
) -> (r: Result<SessionEnd, StoreError>)
    ensures
        error::fault(r) == supersede_fault(*existing, touched, changed_at),
        r matches Ok(end) ==> {
            &&& end.session == ended(*existing, SessionStatus::Stale, changed_at)
            &&& deliveries_ended(touched, changed_at, "SESSION_REPLACED"@, end.deliveries)
        },
{
    let rejected = settle_rejected_pending_attempts(touched.rejected, changed_at)?;
    let pending = cancel_session_pending_deliveries(
        touched.pending,
        changed_at,
        "SESSION_REPLACED",
    )?;
    let in_doubt = unconfirm_session_attempts(touched.in_doubt, changed_at, "SESSION_REPLACED")?;
    let session = transition_session_status(existing, SessionStatus::Stale, changed_at)?;
    Ok(SessionEnd { session, deliveries: SessionDeliveries { rejected, pending, in_doubt } })
}

/// The session that carries a message, or why none does.
pub open spec fn route(
    candidates: Seq<StoredSessionRecord>,
    query: SessionRouteQuery,
) -> SessionRouteResolution {
    if candidates.len() == 0 {
        SessionRouteResolution::NoActiveSession
    } else if candidates.len() > 1 {
        SessionRouteResolution::Ambiguous { candidate_count: candidates.len() as usize }
    } else if deliveries::last_seen(candidates[0]) < query.fresh_after {
        SessionRouteResolution::Stale { candidate_count: 1 }
    } else if query.require_synced_clock && !domain::clock_synced(candidates[0].clock_sync_status) {
        SessionRouteResolution::ClockUnhealthy { candidate_count: 1 }
    } else {
        SessionRouteResolution::Ready(candidates[0])
    }
}

/// Chooses the session that carries a message. `candidates` holds the active
/// sessions that the query admits.
pub fn resolve_session_route(candidates: Vec<StoredSessionRecord>, query: &SessionRouteQuery) -> (r:
    SessionRouteResolution)
    ensures
        r == route(candidates@, *query),
{
    if candidates.len() > 1 {
        return SessionRouteResolution::Ambiguous { candidate_count: candidates.len() };
    }
    let mut candidates = candidates;
    match candidates.pop() {
        None => SessionRouteResolution::NoActiveSession,
        Some(session) => {
            if session_last_seen(&session) < query.fresh_after {
                return SessionRouteResolution::Stale { candidate_count: 1 };
            }
            if query.require_synced_clock && !is_clock_synced(&session.clock_sync_status) {
                return SessionRouteResolution::ClockUnhealthy { candidate_count: 1 };
            }
            SessionRouteResolution::Ready(session)
        },
    }
}

/// Where a subject has to go, and until when.
pub struct SubjectRoute {
    pub account_id: AccountId,
    pub client_id: Option<ClientId>,
    pub terminal_id: Option<TerminalId>,
    /// The time at which a command runs out.
    pub expires_at: Option<i64>,
}

/// The field in which a session is not the one that a subject has to go to.
pub open spec fn route_mismatch(session: StoredSessionRecord, route: SubjectRoute) -> Option<
    Seq<char>,
> {
    if route.account_id@ != session.account_id@ {
        Some("account_id"@)
    } else if route.client_id matches Some(client_id) && client_id@ != session.client_id@ {
        Some("client_id"@)
    } else if route.terminal_id matches Some(terminal_id) && text::optional_text(
        session.terminal_id,
    ) != Some(terminal_id@) {
        Some("terminal_id"@)
    } else {
        None
    }
}

fn find_route_mismatch(session: &StoredSessionRecord, route: &SubjectRoute) -> (r: Option<
    &'static str,
>)
    ensures
        match r {
            Some(field) => route_mismatch(*session, *route) == Some(field@),
            None => route_mismatch(*session, *route) is None,
        },
{
    if !same_text(route.account_id.as_str(), session.account_id.as_str()) {
        return Some("account_id");
    }
    if let Some(client_id) = &route.client_id {
        if !same_text(client_id.as_str(), session.client_id.as_str()) {
            return Some("client_id");
        }
    }
    if let Some(terminal_id) = &route.terminal_id {
        if !optional_is(&session.terminal_id, terminal_id.as_str()) {
            return Some("terminal_id");
        }
    }
    None
}

/// The answer to a request for a sequence number, over mathematical values.
pub enum ReservationVerdict {
    Refused(Fault),
    SessionUnavailable,
    ClockUnhealthy,
    Expired,
    IdentityMismatch(Seq<char>),
    InflightLimit { inflight: nat, limit: nat },
    Reserved,
}

/// Whether a subject may go over a session. `found` is the route of the
/// subject; nothing where there is no such subject.
pub open spec fn subject_verdict(
    session: StoredSessionRecord,
    found: Option<SubjectRoute>,
    request: ReserveOutboundSequence,
) -> Option<ReservationVerdict> {
    match request.subject {
        DeliverySubject::ExecutionCommand(command_id) => if !domain::clock_synced(
            session.clock_sync_status,
        ) {
            Some(ReservationVerdict::ClockUnhealthy)
        } else {
            match found {
                None => Some(
                    ReservationVerdict::Refused(
                        error::missing_fault("execution_command"@, command_id@),
                    ),
                ),
                Some(route) => if route_mismatch(session, route) is Some {
                    Some(ReservationVerdict::IdentityMismatch(route_mismatch(session, route)->0))
                } else if route.expires_at matches Some(expires_at) && request.reserved_at
                    >= expires_at {
                    Some(ReservationVerdict::Expired)
                } else {
                    None
                },
            }
        },
        DeliverySubject::ReconciliationRequest(request_id) => match found {
            None => Some(
                ReservationVerdict::Refused(
                    error::missing_fault("reconciliation_run"@, request_id@),
                ),
            ),
            Some(route) => if route_mismatch(session, route) is Some {
                Some(ReservationVerdict::IdentityMismatch(route_mismatch(session, route)->0))
            } else {
                None
            },
        },
    }
}

/// Whether an answer says what a verdict says.
pub open spec fn says(answer: SequenceReservation, verdict: ReservationVerdict) -> bool {
    match answer {
        SequenceReservation::Reserved(_) => verdict is Reserved,
        SequenceReservation::SessionUnavailable => verdict is SessionUnavailable,
        SequenceReservation::ClockUnhealthy => verdict is ClockUnhealthy,
        SequenceReservation::Expired => verdict is Expired,
        SequenceReservation::IdentityMismatch { field } => verdict
            == ReservationVerdict::IdentityMismatch(field@),
        SequenceReservation::InflightLimit { inflight, limit, .. } => verdict
            == ReservationVerdict::InflightLimit { inflight: inflight as nat, limit: limit as nat },
    }
}

/// Why a subject may not go over a session, if it may not.
pub fn validate_subject_route(
    session: &StoredSessionRecord,
    found: &Option<SubjectRoute>,
    request: &ReserveOutboundSequence,
) -> (r: Result<Option<SequenceReservation>, StoreError>)
    ensures
        match r {
            Err(error) => subject_verdict(*session, *found, *request) == Some(
                ReservationVerdict::Refused(error@),
            ),
            Ok(None) => subject_verdict(*session, *found, *request) is None,
            Ok(Some(answer)) => {
                &&& subject_verdict(*session, *found, *request) is Some
                &&& !(answer is Reserved)
                &&& says(answer, subject_verdict(*session, *found, *request)->0)
            },
        },
{
    match &request.subject {
        DeliverySubject::ExecutionCommand(command_id) => {
            if !is_clock_synced(&session.clock_sync_status) {
                return Ok(Some(SequenceReservation::ClockUnhealthy));
            }
            match found {
                None => Err(StoreError::missing("execution_command", command_id.as_str())),
                Some(route) => {
                    if let Some(field) = find_route_mismatch(session, route) {
                        return Ok(Some(SequenceReservation::IdentityMismatch { field }));
                    }
                    if let Some(expires_at) = route.expires_at {
                        if request.reserved_at >= expires_at {
                            return Ok(Some(SequenceReservation::Expired));
                        }
                    }
                    Ok(None)
                },
            }
        },
        DeliverySubject::ReconciliationRequest(request_id) => {
            match found {
                None => Err(StoreError::missing("reconciliation_run", request_id.as_str())),
                Some(route) => {
                    if let Some(field) = find_route_mismatch(session, route) {
                        return Ok(Some(SequenceReservation::IdentityMismatch { field }));
                    }
                    Ok(None)
                },
            }
        },
    }
}

/// Whether the next sequence number of a session is set aside. `inflight` is
/// the number of commands on their way over the session, as counted.
pub open spec fn reservation_verdict(
    session: StoredSessionRecord,
    found: Option<SubjectRoute>,
    inflight: i64,
    request: ReserveOutboundSequence,
) -> ReservationVerdict {
    let sequence_fault = numbers::increment_fault(
        "execution_client_sessions.last_outbound_sequence"@,
        session.last_outbound_sequence as nat,
    );
    let revision_fault = numbers::increment_fault(
        "execution_client_sessions.revision"@,
        session.revision as nat,
    );
    if !active_at(session, request.expected_revision) || deliveries::last_seen(session)
        < request.fresh_after {
        ReservationVerdict::SessionUnavailable
    } else if request.reserved_at < session.updated_at {
        ReservationVerdict::Refused(stale_session_fault(request.session_id@))
    } else if subject_verdict(session, found, request) is Some {
        subject_verdict(session, found, request)->0
    } else if request.subject is ExecutionCommand && inflight < 0 {
        ReservationVerdict::Refused(
            error::corrupt_fault(
                "command_delivery_attempt"@,
                session.session_id@,
                "negative inflight count"@,
            ),
        )
    } else if request.subject is ExecutionCommand && inflight >= session.max_inflight_commands {
        ReservationVerdict::InflightLimit {
            inflight: inflight as nat,
            limit: session.max_inflight_commands as nat,
        }
    } else if sequence_fault is Some {
        ReservationVerdict::Refused(sequence_fault->0)
    } else if revision_fault is Some {
        ReservationVerdict::Refused(revision_fault->0)
    } else {
        ReservationVerdict::Reserved
    }
}

/// The session once its next sequence number is set aside.
pub open spec fn reserved_session(
    session: StoredSessionRecord,
    reserved_at: i64,
) -> StoredSessionRecord {
    StoredSessionRecord {
        last_outbound_sequence: (session.last_outbound_sequence + 1) as u64,
        revision: (session.revision + 1) as u64,
        updated_at: reserved_at,
        ..session
    }
}

/// What is set aside.
pub open spec fn reservation_of(
    session: StoredSessionRecord,
    subject: DeliverySubject,
) -> OutboundReservation {
    OutboundReservation {
        session_id: session.session_id,
        client_id: session.client_id,
        account_id: session.account_id,
        terminal_id: session.terminal_id,
        session_revision: (session.revision + 1) as u64,
        sequence: (session.last_outbound_sequence + 1) as u64,
        subject,
    }
}

/// Sets the next sequence number of a session aside for a subject, if the
/// session may carry it and is not at its limit. The second component is the
/// session as it stands then.
pub fn reserve_outbound_sequence(
    session: &StoredSessionRecord,
    found: &Option<SubjectRoute>,
    inflight: i64,
    request: &ReserveOutboundSequence,
) -> (r: Result<(SequenceReservation, StoredSessionRecord), StoreError>)
    ensures
        ({
            let verdict = reservation_verdict(*session, *found, inflight, *request);
            match r {
                Err(error) => verdict == ReservationVerdict::Refused(error@),
                Ok((answer, after)) => {
                    &&& says(answer, verdict)
                    &&& answer matches SequenceReservation::Reserved(reservation) ==> reservation
                        == reservation_of(*session, request.subject) && after == reserved_session(
                        *session,
                        request.reserved_at,
                    )
                    &&& !(answer is Reserved) ==> after == *session
                    &&& answer matches SequenceReservation::InflightLimit { session_id, .. }
                        ==> session_id == session.session_id
                },
            }
        }),
{
    if session.status != SessionStatus::Active || session.revision != request.expected_revision
        || session_last_seen(session) < request.fresh_after {
        return Ok((SequenceReservation::SessionUnavailable, session.clone()));
    }
    if request.reserved_at < session.updated_at {
        return Err(stale_session(&request.session_id));
    }
    if let Some(rejection) = validate_subject_route(session, found, request)? {
        return Ok((rejection, session.clone()));
    }
    if request.subject.command_id().is_some() {
        if inflight < 0 {
            return Err(
                StoreError::corrupt(
                    "command_delivery_attempt",
                    session.session_id.as_str(),
                    "negative inflight count",
                ),
            );
        }
        let inflight: u64 = inflight as u64;
        if inflight >= session.max_inflight_commands {
            return Ok(
                (
                    SequenceReservation::InflightLimit {
                        session_id: session.session_id.clone(),
                        inflight,
                        limit: session.max_inflight_commands,
                    },
                    session.clone(),
                ),
            );
        }
    }
    let sequence: u64 = checked_increment(
        "execution_client_sessions.last_outbound_sequence",
        session.last_outbound_sequence,
    )?;
    let revision: u64 = checked_increment("execution_client_sessions.revision", session.revision)?;
    let mut after = session.clone();
    after.last_outbound_sequence = sequence;
    after.revision = revision;
    after.updated_at = request.reserved_at;
    let reservation = OutboundReservation {
        session_id: session.session_id.clone(),
        client_id: session.client_id.clone(),
        account_id: session.account_id.clone(),
        terminal_id: copy_optional(&session.terminal_id),
        session_revision: revision,
        sequence,
        subject: request.subject.clone(),
    };
    Ok((SequenceReservation::Reserved(reservation), after))
}

/// An active session that is found at startup, with the deliveries that it left
/// open.
pub struct InterruptedSession {
    pub session: StoredSessionRecord,
    pub deliveries: SessionDeliveries,
}

/// A message whose write was started before the store came up.
pub struct InterruptedWrite {
    pub outbox: StoredWireOutbox,
    pub attempt: Option<StoredDeliveryAttempt>,
}

/// How many attempts were touched at startup.
pub struct FenceTally {
    pub attempts_unconfirmed: u64,
    pub attempts_cancelled: u64,
    pub attempts_rejected: u64,
}

/// The attempts that the peer refused.
pub open spec fn rejected_total(sessions: Seq<InterruptedSession>) -> nat
    decreases sessions.len(),
{
    if sessions.len() == 0 {
        0
    } else {
        rejected_total(sessions.drop_last()) + sessions.last().deliveries.rejected@.len()
    }
}

/// The attempts that were not yet written.
pub open spec fn cancelled_total(sessions: Seq<InterruptedSession>) -> nat
    decreases sessions.len(),
{
    if sessions.len() == 0 {
        0
    } else {
        cancelled_total(sessions.drop_last()) + sessions.last().deliveries.pending@.len()
    }
}

/// The attempts that may have reached the peer.
pub open spec fn unconfirmed_total(sessions: Seq<InterruptedSession>) -> nat
    decreases sessions.len(),
{
    if sessions.len() == 0 {
        0
    } else {
        unconfirmed_total(sessions.drop_last()) + sessions.last().deliveries.in_doubt@.len()
    }
}

/// The fault of a tally that is too long to count.
pub open spec fn tally_fault(field: Seq<char>, total: nat) -> Option<Fault> {
    if total > u64::MAX {
        Some(Fault::InvalidInteger { field, value: u64::MAX as nat })
    } else {
        None
    }
}

fn add_to_tally(field: &'static str, tally: u64, count: usize) -> (r: Result<u64, StoreError>)
    ensures
        error::fault(r) == tally_fault(field@, (tally + count) as nat),
        r matches Ok(total) ==> total == tally + count,
{
    let count: u64 = count as u64;
    match tally.checked_add(count) {
        Some(total) => Ok(total),
        None => Err(StoreError::InvalidInteger { field, value: u64::MAX }),
    }
}

/// What is wrong with fencing off the sessions that are found at startup.
pub open spec fn fence_sessions_fault(
    sessions: Seq<InterruptedSession>,
    fenced_at: i64,
    error: Seq<char>,
) -> Option<Fault>
    decreases sessions.len(),
{
    if sessions.len() == 0 {
        None
    } else {
        let last = sessions.last();
        error::first_of(
            fence_sessions_fault(sessions.drop_last(), fenced_at, error),
            if fenced_at < last.session.updated_at {
                Some(stale_session_fault(last.session.session_id@))
            } else {
                error::first_of(
                    deliveries::first_fault(
                        last.deliveries.rejected@,
                        deliveries::settle_step(fenced_at),
                    ),
                    error::first_of(
                        tally_fault("startup_fence.attempts_rejected"@, rejected_total(sessions)),
                        error::first_of(
                            deliveries::first_fault(
                                last.deliveries.pending@,
                                deliveries::cancel_step(fenced_at, error),
                            ),
                            error::first_of(
                                tally_fault(
                                    "startup_fence.attempts_cancelled"@,
                                    cancelled_total(sessions),
                                ),
                                error::first_of(
                                    deliveries::first_fault(
                                        last.deliveries.in_doubt@,
                                        deliveries::unconfirm_step(fenced_at, error),
                                    ),
                                    error::first_of(
                                        tally_fault(
                                            "startup_fence.attempts_unconfirmed"@,
                                            unconfirmed_total(sessions),
                                        ),
                                        numbers::increment_fault(
                                            "execution_client_sessions.revision"@,
                                            last.session.revision as nat,
                                        ),
                                    ),
                                ),
                            ),
                        ),
                    ),
                )
            },
        )
    }
}

proof fn fence_sessions_fault_of_prefix(
    sessions: Seq<InterruptedSession>,
    fenced_at: i64,
    error: Seq<char>,
    n: int,
)
    requires
        0 <= n <= sessions.len(),
        fence_sessions_fault(sessions.take(n), fenced_at, error) is Some,
    ensures
        fence_sessions_fault(sessions, fenced_at, error) == fence_sessions_fault(
            sessions.take(n),
            fenced_at,
            error,
        ),
    decreases sessions.len(),
{
    if n < sessions.len() {
        assert(sessions.drop_last().take(n) =~= sessions.take(n));
        fence_sessions_fault_of_prefix(sessions.drop_last(), fenced_at, error, n);
    } else {
        assert(sessions.take(n) =~= sessions);
    }
}

/// Each session of `after` is the one at the same place of `before`, ended, and
/// so are its deliveries.
pub open spec fn sessions_fenced(
    before: Seq<InterruptedSession>,
    fenced_at: i64,
    error: Seq<char>,
    after: Seq<SessionEnd>,
) -> bool {
    &&& after.len() == before.len()
    &&& forall|i: int|
        0 <= i < before.len() ==> {
            &&& (#[trigger] after[i]).session == ended(
                before[i].session,
                SessionStatus::Stale,
                fenced_at,
            )
            &&& deliveries_ended(before[i].deliveries, fenced_at, error, after[i].deliveries)
        }
}

fn fence_session(
    interrupted: InterruptedSession,
    fenced_at: i64,
    error: &str,
    tally: &mut FenceTally,
) -> (r: Result<SessionEnd, StoreError>)
    ensures
        error::fault(r) == (if fenced_at < interrupted.session.updated_at {
            Some(stale_session_fault(interrupted.session.session_id@))
        } else {
            error::first_of(
                deliveries::first_fault(
                    interrupted.deliveries.rejected@,
                    deliveries::settle_step(fenced_at),
                ),
                error::first_of(
                    tally_fault(
                        "startup_fence.attempts_rejected"@,
                        old(tally).attempts_rejected as nat
                            + interrupted.deliveries.rejected@.len(),
                    ),
                    error::first_of(
                        deliveries::first_fault(
                            interrupted.deliveries.pending@,
                            deliveries::cancel_step(fenced_at, error@),
                        ),
                        error::first_of(
                            tally_fault(
                                "startup_fence.attempts_cancelled"@,
                                old(tally).attempts_cancelled as nat
                                    + interrupted.deliveries.pending@.len(),
                            ),
                            error::first_of(
                                deliveries::first_fault(
                                    interrupted.deliveries.in_doubt@,
                                    deliveries::unconfirm_step(fenced_at, error@),
                                ),
                                error::first_of(
                                    tally_fault(
                                        "startup_fence.attempts_unconfirmed"@,
                                        old(tally).attempts_unconfirmed as nat
                                            + interrupted.deliveries.in_doubt@.len(),
                                    ),
                                    numbers::increment_fault(
                                        "execution_client_sessions.revision"@,
                                        interrupted.session.revision as nat,
                                    ),
                                ),
                            ),
                        ),
                    ),
                ),
            )
        }),
        r matches Ok(end) ==> {
            &&& end.session == ended(interrupted.session, SessionStatus::Stale, fenced_at)
            &&& deliveries_ended(interrupted.deliveries, fenced_at, error@, end.deliveries)
            &&& final(tally).attempts_rejected == old(tally).attempts_rejected
                + interrupted.deliveries.rejected@.len()
            &&& final(tally).attempts_cancelled == old(tally).attempts_cancelled
                + interrupted.deliveries.pending@.len()
            &&& final(tally).attempts_unconfirmed == old(tally).attempts_unconfirmed
                + interrupted.deliveries.in_doubt@.len()
        },
{
    let InterruptedSession { session, deliveries: touched } = interrupted;
    if fenced_at < session.updated_at {
        return Err(stale_session(&session.session_id));
    }
    let rejected = settle_rejected_pending_attempts(touched.rejected, fenced_at)?;
    let rejected_count: u64 = add_to_tally(
        "startup_fence.attempts_rejected",
        tally.attempts_rejected,
        rejected.len(),
    )?;
    let pending = cancel_session_pending_deliveries(touched.pending, fenced_at, error)?;
    let cancelled_count: u64 = add_to_tally(
        "startup_fence.attempts_cancelled",
        tally.attempts_cancelled,
        pending.len(),
    )?;
    let in_doubt = unconfirm_session_attempts(touched.in_doubt, fenced_at, error)?;
    let unconfirmed_count: u64 = add_to_tally(
        "startup_fence.attempts_unconfirmed",
        tally.attempts_unconfirmed,
        in_doubt.len(),
    )?;
    let next = transition_session_status(&session, SessionStatus::Stale, fenced_at)?;
    tally.attempts_rejected = rejected_count;
    tally.attempts_cancelled = cancelled_count;
    tally.attempts_unconfirmed = unconfirmed_count;
    Ok(SessionEnd { session: next, deliveries: SessionDeliveries { rejected, pending, in_doubt } })
}

/// Fences off the sessions that are found active at startup: each of them ends,
/// and so do the deliveries that it left open.
pub fn fence_active_sessions(
    sessions: Vec<InterruptedSession>,
    fenced_at: i64,
    error: &str,
) -> (r: Result<(Vec<SessionEnd>, FenceTally), StoreError>)
    ensures
        error::fault(r) == error::first_of(
            deliveries::non_empty_fault("startup fence error"@, error@),
            fence_sessions_fault(sessions@, fenced_at, error@),
        ),
        r matches Ok((ends, tally)) ==> {
            &&& sessions_fenced(sessions@, fenced_at, error@, ends@)
            &&& tally.attempts_rejected == rejected_total(sessions@)
            &&& tally.attempts_cancelled == cancelled_total(sessions@)
            &&& tally.attempts_unconfirmed == unconfirmed_total(sessions@)
        },
{
    require_non_empty("startup fence error", error)?;
    let ghost before = sessions@;
    let mut tally = FenceTally {
        attempts_unconfirmed: 0,
        attempts_cancelled: 0,
        attempts_rejected: 0,
    };
    let mut ends: Vec<SessionEnd> = Vec::new();
    for interrupted in it: sessions
        invariant
            it.seq() == before,
            deliveries::non_empty_fault("startup fence error"@, error@) is None,
            fence_sessions_fault(before.take(it.index()), fenced_at, error@) is None,
            sessions_fenced(before.take(it.index()), fenced_at, error@, ends@),
            tally.attempts_rejected == rejected_total(before.take(it.index())),
            tally.attempts_cancelled == cancelled_total(before.take(it.index())),
            tally.attempts_unconfirmed == unconfirmed_total(before.take(it.index())),
    {
        let ghost longer = before.take(it.index() + 1);
        assert(interrupted == before[it.index()]);
        assert(longer.drop_last() =~= before.take(it.index()));
        match fence_session(interrupted, fenced_at, error, &mut tally) {
            Ok(end) => {
                ends.push(end);
            },
            Err(failure) => {
                proof {
                    fence_sessions_fault_of_prefix(before, fenced_at, error@, it.index() + 1);
                }
                return Err(failure);
            },
        }
    }
    assert(before.take(before.len() as int) =~= before);
    Ok((ends, tally))
}

/// An attempt that counts as open when its write is found interrupted.
pub open spec fn open_attempt(attempt: Option<StoredDeliveryAttempt>) -> bool {
    attempt matches Some(attempt) && (attempt.status is Pending || attempt.status is Sent)
}

/// The open attempts among interrupted writes.
pub open spec fn open_total(writes: Seq<InterruptedWrite>) -> nat
    decreases writes.len(),
{
    if writes.len() == 0 {
        0
    } else {
        open_total(writes.drop_last()) + (if open_attempt(writes.last().attempt) {
            1nat
        } else {
            0
        })
    }
}

/// What is wrong with fencing off the writes that are found started.
pub open spec fn fence_writes_fault(
    writes: Seq<InterruptedWrite>,
    fenced_at: i64,
    already: nat,
) -> Option<Fault>
    decreases writes.len(),
{
    if writes.len() == 0 {
        None
    } else {
        let last = writes.last();
        error::first_of(
            fence_writes_fault(writes.drop_last(), fenced_at, already),
            if fenced_at < last.outbox.updated_at {
                Some(deliveries::stale_outbound_fault(last.outbox.message_id@))
            } else {
                error::first_of(
                    numbers::increment_fault(
                        "wire_outbox.revision"@,
                        last.outbox.revision as nat,
                    ),
                    if open_attempt(last.attempt) {
                        error::first_of(
                            numbers::increment_fault(
                                "command_delivery_attempts.revision"@,
                                last.attempt->0.revision as nat,
                            ),
                            tally_fault(
                                "startup_fence.attempts_unconfirmed"@,
                                already + open_total(writes),
                            ),
                        )
                    } else {
                        None
                    },
                )
            },
        )
    }
}

proof fn fence_writes_fault_of_prefix(
    writes: Seq<InterruptedWrite>,
    fenced_at: i64,
    already: nat,
    n: int,
)
    requires
        0 <= n <= writes.len(),
        fence_writes_fault(writes.take(n), fenced_at, already) is Some,
    ensures
        fence_writes_fault(writes, fenced_at, already) == fence_writes_fault(
            writes.take(n),
            fenced_at,
            already,
        ),
    decreases writes.len(),
{
    if n < writes.len() {
        assert(writes.drop_last().take(n) =~= writes.take(n));
        fence_writes_fault_of_prefix(writes.drop_last(), fenced_at, already, n);
    } else {
        assert(writes.take(n) =~= writes);
    }
}

/// `after` is the interrupted write once it is fenced off: the message keeps
/// its times and carries the error, and an open attempt is in doubt.
pub open spec fn write_fenced(
    before: InterruptedWrite,
    fenced_at: i64,
    error: Seq<char>,
    after: InterruptedWrite,
) -> bool {
    &&& deliveries::outbox_moved(
        before.outbox,
        deliveries::OutboxStep {
            status: WireOutboxStatus::WriteStarted,
            at: fenced_at,
            sent_at: before.outbox.sent_at,
            acked_at: before.outbox.acked_at,
            error: Some(error),
        },
        after.outbox,
    )
    &&& if open_attempt(before.attempt) {
        after.attempt is Some && deliveries::attempt_moved(
            before.attempt->0,
            deliveries::AttemptStep {
                status: CommandDeliveryAttemptStatus::Unconfirmed,
                at: fenced_at,
                acked_at: None,
                error: Some(error),
            },
            after.attempt->0,
        )
    } else {
        after.attempt == before.attempt
    }
}

/// Each write of `after` is the one at the same place of `before`, fenced off.
pub open spec fn writes_fenced(
    before: Seq<InterruptedWrite>,
    fenced_at: i64,
    error: Seq<char>,
    after: Seq<InterruptedWrite>,
) -> bool {
    &&& after.len() == before.len()
    &&& forall|i: int|
        0 <= i < before.len() ==> write_fenced(before[i], fenced_at, error, #[trigger] after[i])
}

/// Fences off the writes that are found started at startup, and reports what
/// was found. `sessions_staled` sessions were ended before, and `tally` counts
/// their attempts.
pub fn fence_interrupted_writes(
    writes: Vec<InterruptedWrite>,
    fenced_at: i64,
    error: &str,
    sessions_staled: usize,
    tally: FenceTally,
) -> (r: Result<(Vec<InterruptedWrite>, DeliveryStartupFenceReport), StoreError>)
    ensures
        error::fault(r) == fence_writes_fault(
            writes@,
            fenced_at,
            tally.attempts_unconfirmed as nat,
        ),
        r matches Ok((fenced, report)) ==> {
            &&& writes_fenced(writes@, fenced_at, error@, fenced@)
            &&& report.sessions_staled == sessions_staled
            &&& report.outboxes_fenced == writes@.len()
            &&& report.attempts_unconfirmed == tally.attempts_unconfirmed + open_total(writes@)
            &&& report.attempts_cancelled == tally.attempts_cancelled
            &&& report.attempts_rejected == tally.attempts_rejected
        },
{
    let ghost before = writes@;
    let ghost already = tally.attempts_unconfirmed as nat;
    let mut attempts_unconfirmed: u64 = tally.attempts_unconfirmed;
    let count: usize = writes.len();
    let mut fenced: Vec<InterruptedWrite> = Vec::new();
    for write in it: writes
        invariant
            it.seq() == before,
            already == tally.attempts_unconfirmed,
            fence_writes_fault(before.take(it.index()), fenced_at, already) is None,
            writes_fenced(before.take(it.index()), fenced_at, error@, fenced@),
            attempts_unconfirmed == already + open_total(before.take(it.index())),
    {
        let ghost longer = before.take(it.index() + 1);
        assert(write == before[it.index()]);
        assert(longer.drop_last() =~= before.take(it.index()));
        let InterruptedWrite { outbox, attempt } = write;
        if fenced_at < outbox.updated_at {
            proof {
                fence_writes_fault_of_prefix(before, fenced_at, already, it.index() + 1);
            }
            return Err(stale_outbound(&outbox.message_id));
        }
        let next_outbox = match update_outbox_state(
            &outbox,
            WireOutboxStatus::WriteStarted,
            fenced_at,
            outbox.sent_at,
            outbox.acked_at,
            Some(error.to_owned()),
        ) {
            Ok(next) => next,
            Err(failure) => {
                proof {
                    fence_writes_fault_of_prefix(before, fenced_at, already, it.index() + 1);
                }
                return Err(failure);
            },
        };
        let next_attempt = match attempt {
            Some(attempt) => {
                if attempt.status == CommandDeliveryAttemptStatus::Pending || attempt.status
                    == CommandDeliveryAttemptStatus::Sent {
                    let next = match update_attempt_state(
                        &attempt,
                        CommandDeliveryAttemptStatus::Unconfirmed,
                        fenced_at,
                        None,
                        Some(error.to_owned()),
                    ) {
                        Ok(next) => next,
                        Err(failure) => {
                            proof {
                                fence_writes_fault_of_prefix(
                                    before,
                                    fenced_at,
                                    already,
                                    it.index() + 1,
                                );
                            }
                            return Err(failure);
                        },
                    };
                    attempts_unconfirmed = match add_to_tally(
                        "startup_fence.attempts_unconfirmed",
                        attempts_unconfirmed,
                        1,
                    ) {
                        Ok(total) => total,
                        Err(failure) => {
                            proof {
                                fence_writes_fault_of_prefix(
                                    before,
                                    fenced_at,
                                    already,
                                    it.index() + 1,
                                );
                            }
                            return Err(failure);
                        },
                    };
                    Some(next)
                } else {
                    Some(attempt)
                }
            },
            None => None,
        };
        fenced.push(InterruptedWrite { outbox: next_outbox, attempt: next_attempt });
    }
    assert(before.take(before.len() as int) =~= before);
    Ok(
        (
            fenced,
            DeliveryStartupFenceReport {
                sessions_staled: sessions_staled as u64,
                outboxes_fenced: count as u64,
                attempts_unconfirmed,
                attempts_cancelled: tally.attempts_cancelled,
                attempts_rejected: tally.attempts_rejected,
            },
        ),
    )
}

/// A row of the sessions.
pub struct SessionRow {
    pub session_id: SessionId,
    pub client_id: ClientId,
    pub account_id: AccountId,
    pub terminal_id: Option<TerminalId>,
    pub platform: String,
    pub status: EnumColumn<SessionStatus>,
    pub capabilities_json: String,
    pub remote_addr: Option<String>,
    pub connected_at: i64,
    pub last_heartbeat_at: Option<i64>,
    pub last_time_sync_at: Option<i64>,
    pub clock_sync_status: Option<EnumColumn<domain::ClockSyncStatus>>,
    pub disconnected_at: Option<i64>,
    pub revision: i64,
    pub updated_at: i64,
    pub last_outbound_sequence: i64,
    pub max_inflight_commands: i64,
}

/// The times, the status and the clock of a session agree.
pub open spec fn consistent_times(
    status: SessionStatus,
    connected_at: i64,
    last_heartbeat_at: Option<i64>,
    last_time_sync_at: Option<i64>,
    clock_sync_status: Option<domain::ClockSyncStatus>,
    disconnected_at: Option<i64>,
    updated_at: i64,
) -> bool {
    &&& updated_at >= connected_at
    &&& within_session(last_heartbeat_at, connected_at, updated_at)
    &&& within_session(last_time_sync_at, connected_at, updated_at)
    &&& status is Active ==> disconnected_at is None
    &&& clock_evidence_agrees(clock_sync_status, last_time_sync_at)
}

/// The times, the status and the clock of a session agree.
pub open spec fn consistent(session: StoredSessionRecord) -> bool {
    consistent_times(
        session.status,
        session.connected_at,
        session.last_heartbeat_at,
        session.last_time_sync_at,
        session.clock_sync_status,
        session.disconnected_at,
        session.updated_at,
    )
}

/// What is wrong with a row of the sessions.
pub open spec fn session_row_fault(row: SessionRow) -> Option<Fault> {
    let entity = "execution_client_session"@;
    let key = row.session_id@;
    match json::parse_outcome(row.capabilities_json@) {
        Err(fault) => Some(
            error::corrupt_fault(
                entity,
                key,
                "invalid capabilities_json: "@ + error::fault_message(fault),
            ),
        ),
        Ok(canonical) => if canonical != row.capabilities_json@ {
            Some(
                error::corrupt_fault(entity, key, "capabilities_json is not in canonical form"@),
            )
        } else {
            error::first_of(
                columns::enum_fault(entity, key, "status"@, row.status),
                error::first_of(
                    columns::optional_enum_fault(
                        entity,
                        key,
                        "clock_sync_status"@,
                        row.clock_sync_status,
                    ),
                    error::first_of(
                        numbers::non_negative_fault(entity, key, "revision"@, row.revision as int),
                        error::first_of(
                            numbers::positive_fault(
                                entity,
                                key,
                                "last_outbound_sequence"@,
                                row.last_outbound_sequence as int,
                            ),
                            error::first_of(
                                numbers::positive_fault(
                                    entity,
                                    key,
                                    "max_inflight_commands"@,
                                    row.max_inflight_commands as int,
                                ),
                                if consistent_times(
                                    row.status.parsed->Ok_0,
                                    row.connected_at,
                                    row.last_heartbeat_at,
                                    row.last_time_sync_at,
                                    columns::optional_parsed(row.clock_sync_status),
                                    row.disconnected_at,
                                    row.updated_at,
                                ) {
                                    None
                                } else {
                                    Some(
                                        error::corrupt_fault(
                                            entity,
                                            key,
                                            "session timestamps, status, or clock-sync evidence are inconsistent"@,
                                        ),
                                    )
                                },
                            ),
                        ),
                    ),
                ),
            )
        },
    }
}

/// The session holds what the row holds.
pub open spec fn session_of_row(row: SessionRow, session: StoredSessionRecord) -> bool {
    &&& session == StoredSessionRecord {
        session_id: row.session_id,
        client_id: row.client_id,
        account_id: row.account_id,
        terminal_id: row.terminal_id,
        platform: row.platform,
        status: row.status.parsed->Ok_0,
        capabilities: session.capabilities,
        remote_addr: row.remote_addr,
        connected_at: row.connected_at,
        last_heartbeat_at: row.last_heartbeat_at,
        last_time_sync_at: row.last_time_sync_at,
        clock_sync_status: columns::optional_parsed(row.clock_sync_status),
        disconnected_at: row.disconnected_at,
        revision: row.revision as u64,
        updated_at: row.updated_at,
        last_outbound_sequence: row.last_outbound_sequence as u64,
        max_inflight_commands: row.max_inflight_commands as u64,
    }
    &&& session.capabilities@ == row.capabilities_json@
}

/// Reads a session.
pub fn session_from_row(row: SessionRow) -> (r: Result<StoredSessionRecord, StoreError>)
    ensures
        error::fault(r) == session_row_fault(row),
        r matches Ok(session) ==> session_of_row(row, session) && consistent(session),
{
    let capabilities = match CanonicalJson::parse(row.capabilities_json.as_str()) {
        Ok(capabilities) => capabilities,
        Err(error) => {
            let reason = join2("invalid capabilities_json: ", error.message().as_str());
            return Err(
                StoreError::corrupt(
                    "execution_client_session",
                    row.session_id.as_str(),
                    reason.as_str(),
                ),
            );
        },
    };
    if !same_text(capabilities.as_str(), row.capabilities_json.as_str()) {
        return Err(
            StoreError::corrupt(
                "execution_client_session",
                row.session_id.as_str(),
                "capabilities_json is not in canonical form",
            ),
        );
    }
    let key = row.session_id.clone();
    let status = parse_enum_column(
        "execution_client_session",
        key.as_str(),
        "status",
        row.status,
    )?;
    let clock_sync_status = parse_optional_enum_column(
        "execution_client_session",
        key.as_str(),
        "clock_sync_status",
        row.clock_sync_status,
    )?;
    let revision: u64 = non_negative_from_row(
        "execution_client_session",
        key.as_str(),
        "revision",
        row.revision,
    )?;
    let last_outbound_sequence: u64 = positive_from_row(
        "execution_client_session",
        key.as_str(),
        "last_outbound_sequence",
        row.last_outbound_sequence,
    )?;
    let max_inflight_commands: u64 = positive_from_row(
        "execution_client_session",
        key.as_str(),
        "max_inflight_commands",
        row.max_inflight_commands,
    )?;
    if row.updated_at < row.connected_at || !is_within_session(
        row.last_heartbeat_at,
        row.connected_at,
        row.updated_at,
    ) || !is_within_session(row.last_time_sync_at, row.connected_at, row.updated_at) || (status
        == SessionStatus::Active && row.disconnected_at.is_some()) || (is_clock_synced(
        &clock_sync_status,
    ) && row.last_time_sync_at.is_none()) || (row.last_time_sync_at.is_some()
        && clock_sync_status.is_none()) {
        return Err(
            StoreError::corrupt(
                "execution_client_session",
                key.as_str(),
                "session timestamps, status, or clock-sync evidence are inconsistent",
            ),
        );
    }
    Ok(
        StoredSessionRecord {
            session_id: row.session_id,
            client_id: row.client_id,
            account_id: row.account_id,
            terminal_id: row.terminal_id,
            platform: row.platform,
            status,
            capabilities,
            remote_addr: row.remote_addr,
            connected_at: row.connected_at,
            last_heartbeat_at: row.last_heartbeat_at,
            last_time_sync_at: row.last_time_sync_at,
            clock_sync_status,
            disconnected_at: row.disconnected_at,
            revision,
            updated_at: row.updated_at,
            last_outbound_sequence,
            max_inflight_commands,
        },
    )
}

/// What is wrong with a session that is to be inserted where its name or its
/// identity is taken. `existing` is the session of that name.
pub open spec fn session_replay_fault(
    existing: Option<StoredSessionRecord>,
    session: NewSessionRecord,
) -> Option<Fault> {
    match existing {
        Some(existing) => if same_session(existing, session) {
            None
        } else {
            Some(
                error::conflict_fault(
                    "execution_client_session"@,
                    session_key(session.session_id@),
                ),
            )
        },
        None => Some(
            error::conflict_fault(
                "execution_client_session"@,
                "active identity client_id="@ + session.client_id@ + ",account_id="@
                    + session.account_id@ + ",terminal_id="@ + (match session.terminal_id {
                    Some(terminal_id) => terminal_id@,
                    None => Seq::empty(),
                }),
            ),
        ),
    }
}

/// Decides about a session whose name or identity is taken.
pub fn resolve_session_replay(
    existing: Option<StoredSessionRecord>,
    session: &NewSessionRecord,
) -> (r: Result<WriteOutcome<StoredSessionRecord>, StoreError>)
    ensures
        error::fault(r) == session_replay_fault(existing, *session),
        r matches Ok(outcome) ==> outcome == WriteOutcome::Duplicate(existing->0),
{
    match existing {
        Some(existing) => {
            if same_session_identity(&existing, session) {
                return Ok(WriteOutcome::Duplicate(existing));
            }
            let key = join2("session_id=", session.session_id.as_str());
            Err(StoreError::conflict("execution_client_session", key.as_str()))
        },
        None => {
            let mut key = join5(
                "active identity client_id=",
                session.client_id.as_str(),
                ",account_id=",
                session.account_id.as_str(),
                ",terminal_id=",
            );
            match &session.terminal_id {
                Some(terminal_id) => {
                    key.append(terminal_id.as_str());
                },
                None => {
                    let nothing = String::new();
                    key.append(nothing.as_str());
                },
            }
            Err(StoreError::conflict("execution_client_session", key.as_str()))
        },
    }
}

/// A session that may become active is consistent once it is stored, and asking
/// for it once more is a repetition, not a conflict.
pub proof fn new_session_is_consistent(session: NewSessionRecord)
    requires
        new_session_fault(session) is None,
    ensures
        consistent(<StoredSessionRecord as vstd::std_specs::convert::FromSpec<NewSessionRecord>>::from_spec(session)),
        same_session(<StoredSessionRecord as vstd::std_specs::convert::FromSpec<NewSessionRecord>>::from_spec(session), session),
{
}

/// A consistent session stays consistent when it ends or when a sequence number
/// is set aside.
pub proof fn sessions_stay_consistent(
    session: StoredSessionRecord,
    status: SessionStatus,
    at: i64,
)
    requires
        consistent(session),
        at >= session.updated_at,
        !(status is Active),
    ensures
        consistent(ended(session, status, at)),
        session.status is Active ==> consistent(reserved_session(session, at)),
{
}

/// A consistent session stays consistent under a heartbeat that is not dated
/// after the moment at which it is booked.
pub proof fn heartbeat_keeps_consistency(
    session: StoredSessionRecord,
    update: SessionHeartbeatUpdate,
    next: StoredSessionRecord,
)
    requires
        consistent(session),
        heartbeat_fault(session, update) is None,
        update.heartbeat_at <= update.updated_at,
        update.last_time_sync_at matches Some(synced_at) ==> synced_at <= update.updated_at,
        next == (StoredSessionRecord {
            last_heartbeat_at: Some(update.heartbeat_at),
            last_time_sync_at: synced_after(session, update),
            clock_sync_status: Some(update.clock_sync_status),
            revision: (session.revision + 1) as u64,
            updated_at: update.updated_at,
            ..session
        }),
    ensures
        consistent(next),
{
}

/// A command is reserved only below the limit of the session.
pub proof fn reserved_below_the_limit(
    session: StoredSessionRecord,
    found: Option<SubjectRoute>,
    inflight: i64,
    request: ReserveOutboundSequence,
)
    requires
        reservation_verdict(session, found, inflight, request) is Reserved,
        request.subject is ExecutionCommand,
    ensures
        0 <= inflight < session.max_inflight_commands,
        domain::clock_synced(session.clock_sync_status),
        session.status is Active,
{
}

/// Sequence numbers of a session strictly increase, and a reservation is void
/// once another is made.
pub proof fn sequence_numbers_increase(
    session: StoredSessionRecord,
    subject: DeliverySubject,
    reserved_at: i64,
    next_subject: DeliverySubject,
)
    requires
        session.last_outbound_sequence + 1 < u64::MAX,
        session.revision + 1 < u64::MAX,
    ensures
        ({
            let first = reservation_of(session, subject);
            let after = reserved_session(session, reserved_at);
            let second = reservation_of(after, next_subject);
            &&& first.sequence == session.last_outbound_sequence + 1
            &&& after.last_outbound_sequence == first.sequence
            &&& second.sequence == first.sequence + 1
            &&& second.session_revision > first.session_revision
        }),
{
}

/// What is reserved can be sent: a delivery that follows its reservation, with
/// nothing in between, is accepted.
pub proof fn reserved_can_be_sent(
    session: StoredSessionRecord,
    request: ReserveOutboundSequence,
    delivery: NewReservedDelivery,
)
    requires
        session.status is Active,
        delivery.reservation == reservation_of(session, request.subject),
        delivery.message_type@ == attempts::subject_message_type(request.subject),
        !text::blank(delivery.attempt_id@),
        delivery.created_at >= request.reserved_at,
    ensures
        attempts::reserved_delivery_fault(
            reserved_session(session, request.reserved_at),
            delivery,
        ) is None,
{
}

/// After the startup fence no session that was active still is, and every
/// attempt that may have reached the peer is in doubt.
pub proof fn fence_leaves_nothing_active(
    before: Seq<InterruptedSession>,
    fenced_at: i64,
    error: Seq<char>,
    after: Seq<SessionEnd>,
    i: int,
    j: int,
)
    requires
        sessions_fenced(before, fenced_at, error, after),
        0 <= i < after.len(),
    ensures
        !(after[i].session.status is Active),
        0 <= j < after[i].deliveries.in_doubt@.len()
            ==> after[i].deliveries.in_doubt@[j].attempt.status is Unconfirmed,
        0 <= j < after[i].deliveries.pending@.len()
            ==> after[i].deliveries.pending@[j].attempt.status is Cancelled
            && after[i].deliveries.pending@[j].outbox.status is Cancelled,
{
    assert(after[i].session == ended(before[i].session, SessionStatus::Stale, fenced_at));
}

/// A session that is to become active has no end, can carry a command, and
/// nothing about it is dated outside of its life; a synced clock was synced at
/// some time, and a clock that was synced has a state. Every such session is
/// taken.
pub proof fn new_sessions_are_sound(session: NewSessionRecord)
    ensures
        new_session_fault(session) is None <==> {
            &&& session.status is Active
            &&& session.disconnected_at is None
            &&& session.max_inflight_commands > 0
            &&& session.connected_at <= session.updated_at
            &&& session.last_heartbeat_at matches Some(at) ==> session.connected_at <= at
                <= session.updated_at
            &&& session.last_time_sync_at matches Some(at) ==> session.connected_at <= at
                <= session.updated_at
            &&& (session.clock_sync_status is Some && (session.clock_sync_status->0)@
                == "SYNCED"@) ==> session.last_time_sync_at is Some
            &&& session.last_time_sync_at is Some ==> session.clock_sync_status is Some
        },
{
}

/// A heartbeat is booked if the session is active at the revision that it names
/// and nothing about it goes back; a synced clock needs a time at which it was
/// synced, now or before.
pub proof fn heartbeats_go_forward(current: StoredSessionRecord, update: SessionHeartbeatUpdate)
    requires
        current.revision < 0x7fff_ffff_ffff_ffff,
    ensures
        heartbeat_fault(current, update) is None <==> {
            &&& current.status is Active
            &&& current.revision == update.expected_revision
            &&& update.updated_at >= current.updated_at
            &&& update.heartbeat_at >= current.connected_at
            &&& current.last_heartbeat_at matches Some(last) ==> update.heartbeat_at >= last
            &&& update.last_time_sync_at matches Some(at) ==> at >= current.connected_at && (
            current.last_time_sync_at matches Some(last) ==> at >= last)
            &&& update.clock_sync_status@ == "SYNCED"@ ==> update.last_time_sync_at is Some
                || current.last_time_sync_at is Some
        },
        synced_after(current, update) == (if update.last_time_sync_at is Some {
            update.last_time_sync_at
        } else {
            current.last_time_sync_at
        }),
{
}

/// An ended session is over: it has its end, one revision more, and nothing else
/// about it changed.
pub proof fn ended_sessions_are_over(
    current: StoredSessionRecord,
    status: SessionStatus,
    changed_at: i64,
)
    requires
        current.revision < u64::MAX,
    ensures
        ({
            let after = ended(current, status, changed_at);
            &&& after.status == status
            &&& after.disconnected_at == Some(changed_at)
            &&& after.updated_at == changed_at
            &&& after.revision == current.revision + 1
            &&& after.session_id == current.session_id
            &&& after.account_id == current.account_id
            &&& after.client_id == current.client_id
            &&& after.terminal_id == current.terminal_id
            &&& after.last_outbound_sequence == current.last_outbound_sequence
            &&& after.connected_at == current.connected_at
        }),
{
}

/// A session is closed only while it is active at the revision that is named,
/// not before its last change, and with a reason.
pub proof fn sessions_are_closed_once(
    current: StoredSessionRecord,
    touched: SessionDeliveries,
    update: SessionStatusUpdate,
)
    requires
        close_fault(current, touched, update) is None,
    ensures
        current.status is Active,
        current.revision == update.expected_revision,
        update.changed_at >= current.updated_at,
        !text::blank(update.delivery_error@),
{
}

/// Nothing but an active session of the same identity stands in the way of a new
/// one: the same session again is kept, and an older one gives way.
pub proof fn older_sessions_give_way(
    active: Seq<StoredSessionRecord>,
    session: NewSessionRecord,
)
    requires
        new_session_fault(session) is None,
    ensures
        active.len() == 0 ==> replacement_fault(active, session) is None,
        active.len() > 1 ==> replacement_fault(active, session) is Some,
        active.len() == 1 && active[0].session_id@ != session.session_id@ ==> (replacement_fault(
            active,
            session,
        ) is None <==> active[0].updated_at <= session.updated_at),
        active.len() == 1 && active[0].session_id@ == session.session_id@ ==> (replacement_fault(
            active,
            session,
        ) is None <==> {
            &&& active[0].client_id@ == session.client_id@
            &&& active[0].account_id@ == session.account_id@
            &&& text::optional_text(active[0].terminal_id) == text::optional_text(
                session.terminal_id,
            )
            &&& active[0].platform@ == session.platform@
            &&& active[0].capabilities@ == session.capabilities@
            &&& text::optional_text(active[0].remote_addr) == text::optional_text(
                session.remote_addr,
            )
            &&& active[0].connected_at == session.connected_at
            &&& active[0].max_inflight_commands == session.max_inflight_commands
        }),
{
}

/// A message goes over a session only if it is the only candidate, was heard of
/// since the time asked for, and has a synced clock where one is asked for.
pub proof fn routes_need_one_fresh_session(
    candidates: Seq<StoredSessionRecord>,
    query: SessionRouteQuery,
    session: StoredSessionRecord,
)
    requires
        candidates.len() <= usize::MAX,
    ensures
        ({
            let seen = match candidates[0].last_heartbeat_at {
                Some(at) => at,
                None => candidates[0].connected_at,
            };
            let synced = candidates[0].clock_sync_status is Some && (
            candidates[0].clock_sync_status->0)@ == "SYNCED"@;
            &&& candidates.len() == 0 <==> route(candidates, query) is NoActiveSession
            &&& candidates.len() > 1 <==> route(candidates, query) is Ambiguous
            &&& route(candidates, query) == SessionRouteResolution::Ready(session) <==> (
            candidates.len() == 1 && session == candidates[0] && seen >= query.fresh_after && (
            query.require_synced_clock ==> synced))
            &&& route(candidates, query) is Stale <==> candidates.len() == 1 && seen
                < query.fresh_after
            &&& route(candidates, query) is ClockUnhealthy <==> candidates.len() == 1 && seen
                >= query.fresh_after && query.require_synced_clock && !synced
        }),
{
}

/// When a sequence number is set aside: the session is active at the revision
/// that is named and was heard of since the time asked for, the request is not
/// dated before it, and the subject goes to this account, and to this client and
/// terminal where it says so. A command also needs a synced clock, time left and
/// room among those on their way.
pub proof fn sequences_are_reserved_for_live_sessions(
    session: StoredSessionRecord,
    found: Option<SubjectRoute>,
    inflight: i64,
    request: ReserveOutboundSequence,
)
    requires
        session.revision < 0x7fff_ffff_ffff_ffff,
        session.last_outbound_sequence < 0x7fff_ffff_ffff_ffff,
        inflight >= 0,
    ensures
        ({
            let verdict = reservation_verdict(session, found, inflight, request);
            let live = session.status is Active && session.revision == request.expected_revision
                && match session.last_heartbeat_at {
                Some(at) => at >= request.fresh_after,
                None => session.connected_at >= request.fresh_after,
            };
            let synced = session.clock_sync_status is Some && (session.clock_sync_status->0)@
                == "SYNCED"@;
            let command = request.subject is ExecutionCommand;
            let here = found is Some && (found->0).account_id@ == session.account_id@ && ((
            found->0).client_id is None || ((found->0).client_id->0)@ == session.client_id@) && ((
            found->0).terminal_id is None || (session.terminal_id is Some && ((
            found->0).terminal_id->0)@ == (session.terminal_id->0)@));
            let late = (found->0).expires_at is Some && request.reserved_at >= (
            found->0).expires_at->0;
            &&& verdict is SessionUnavailable <==> !live
            &&& verdict is Reserved <==> live && request.reserved_at >= session.updated_at && here
                && (command ==> synced && !late && inflight < session.max_inflight_commands)
            &&& verdict is ClockUnhealthy <==> live && request.reserved_at >= session.updated_at
                && command && !synced
            &&& verdict is Expired <==> live && request.reserved_at >= session.updated_at && command
                && synced && here && late
            &&& verdict is InflightLimit <==> live && request.reserved_at >= session.updated_at
                && command && synced && here && !late && inflight >= session.max_inflight_commands
        }),
{
}

/// What is set aside is the next number of the session, for the subject asked
/// for, and the session counts it.
pub proof fn reservations_take_the_next_number(
    session: StoredSessionRecord,
    subject: DeliverySubject,
    reserved_at: i64,
)
    requires
        session.revision < u64::MAX,
        session.last_outbound_sequence < u64::MAX,
    ensures
        ({
            let reservation = reservation_of(session, subject);
            let after = reserved_session(session, reserved_at);
            &&& reservation.sequence == session.last_outbound_sequence + 1
            &&& reservation.session_id == session.session_id
            &&& reservation.account_id == session.account_id
            &&& reservation.client_id == session.client_id
            &&& reservation.terminal_id == session.terminal_id
            &&& reservation.subject == subject
            &&& reservation.session_revision == session.revision + 1
            &&& after.last_outbound_sequence == session.last_outbound_sequence + 1
            &&& after.revision == session.revision + 1
            &&& after.updated_at == reserved_at
            &&& after.status == session.status
            &&& after.session_id == session.session_id
        }),
{
}

/// At startup every session that is found active is stale, and a write that was
/// under way keeps its message and puts a pending or sent attempt in doubt.
pub proof fn startup_fences_what_was_under_way(
    before: InterruptedWrite,
    fenced_at: i64,
    error: Seq<char>,
    after: InterruptedWrite,
    sessions: Seq<InterruptedSession>,
    ends: Seq<SessionEnd>,
    i: int,
)
    ensures
        write_fenced(before, fenced_at, error, after) ==> {
            &&& after.outbox.status is WriteStarted
            &&& after.outbox.updated_at == fenced_at
            &&& after.outbox.last_error is Some && (after.outbox.last_error->0)@ == error
            &&& after.outbox.message_id == before.outbox.message_id
            &&& (before.attempt is Some && ((before.attempt->0).status is Pending || (
            before.attempt->0).status is Sent)) ==> after.attempt is Some && (
            after.attempt->0).status is Unconfirmed && (after.attempt->0).updated_at == fenced_at
            &&& !(before.attempt is Some && ((before.attempt->0).status is Pending || (
            before.attempt->0).status is Sent)) ==> after.attempt == before.attempt
        },
        sessions_fenced(sessions, fenced_at, error, ends) && 0 <= i < sessions.len() ==> {
            &&& ends[i].session.status is Stale
            &&& ends[i].session.disconnected_at == Some(fenced_at)
            &&& ends[i].session.session_id == sessions[i].session.session_id
        },
{
    if sessions_fenced(sessions, fenced_at, error, ends) && 0 <= i < sessions.len() {
        let end = ends[i];
    }
}

/// The times, the clock and the status of a session that is read agree.
pub proof fn consistent_sessions_are_sound(session: StoredSessionRecord)
    ensures
        consistent(session) <==> {
            &&& session.connected_at <= session.updated_at
            &&& session.last_heartbeat_at matches Some(at) ==> session.connected_at <= at
                <= session.updated_at
            &&& session.last_time_sync_at matches Some(at) ==> session.connected_at <= at
                <= session.updated_at
            &&& session.status is Active ==> session.disconnected_at is None
            &&& (session.clock_sync_status is Some && (session.clock_sync_status->0)@
                == "SYNCED"@) ==> session.last_time_sync_at is Some
            &&& session.last_time_sync_at is Some ==> session.clock_sync_status is Some
        },
{
}

/// What a start reports of the deliveries it touched is their number: of those
/// that were rejected, called off and put in doubt over all sessions, and of the
/// attempts that were open when their message was being written.
pub proof fn starts_report_what_they_touched(
    sessions: Seq<InterruptedSession>,
    session: InterruptedSession,
    writes: Seq<InterruptedWrite>,
    write: InterruptedWrite,
)
    ensures
        rejected_total(Seq::empty()) == 0,
        cancelled_total(Seq::empty()) == 0,
        unconfirmed_total(Seq::empty()) == 0,
        open_total(Seq::empty()) == 0,
        rejected_total(sessions.push(session)) == rejected_total(sessions)
            + session.deliveries.rejected@.len(),
        cancelled_total(sessions.push(session)) == cancelled_total(sessions)
            + session.deliveries.pending@.len(),
        unconfirmed_total(sessions.push(session)) == unconfirmed_total(sessions)
            + session.deliveries.in_doubt@.len(),
        write.attempt is Some && ((write.attempt->0).status is Pending || (
        write.attempt->0).status is Sent) ==> open_total(writes.push(write)) == open_total(writes)
            + 1,
        write.attempt is None ==> open_total(writes.push(write)) == open_total(writes),
{
    assert(sessions.push(session).drop_last() == sessions);
    assert(writes.push(write).drop_last() == writes);
}

/// A start does not go back in time: it refuses sessions and messages that were
/// changed after it.
pub proof fn starts_come_after_what_they_fence(
    sessions: Seq<InterruptedSession>,
    writes: Seq<InterruptedWrite>,
    fenced_at: i64,
    error: Seq<char>,
    already: nat,
    i: int,
)
    ensures
        fence_sessions_fault(sessions, fenced_at, error) is None && 0 <= i < sessions.len()
            ==> sessions[i].session.updated_at <= fenced_at,
        fence_writes_fault(writes, fenced_at, already) is None && 0 <= i < writes.len()
            ==> writes[i].outbox.updated_at <= fenced_at,
    decreases sessions.len() + writes.len(),
{
    if sessions.len() > 0 {
        starts_come_after_what_they_fence(
            sessions.drop_last(),
            Seq::empty(),
            fenced_at,
            error,
            already,
            i,
        );
        if 0 <= i < sessions.len() - 1 {
            assert(sessions.drop_last()[i] == sessions[i]);
        }
    }
    if writes.len() > 0 {
        starts_come_after_what_they_fence(
            Seq::empty(),
            writes.drop_last(),
            fenced_at,
            error,
            already,
            i,
        );
        if 0 <= i < writes.len() - 1 {
            assert(writes.drop_last()[i] == writes[i]);
        }
    }
}

/// A session that is registered again is the stored one, or it is refused.
pub proof fn registered_sessions_are_not_replaced(
    existing: Option<StoredSessionRecord>,
    session: NewSessionRecord,
)
    ensures
        session_replay_fault(existing, session) is None <==> existing is Some && same_session(
            existing->0,
            session,
        ),
        session_replay_fault(existing, session) is Some ==> session_replay_fault(
            existing,
            session,
        )->0 is IdentityConflict,
{
}

/// A session is the one that is stored only if everything about it is the same.
pub proof fn repeated_sessions_are_the_same(
    existing: StoredSessionRecord,
    incoming: NewSessionRecord,
)
    ensures
        same_session(existing, incoming) <==> {
            &&& existing.session_id@ == incoming.session_id@
            &&& existing.client_id@ == incoming.client_id@
            &&& existing.account_id@ == incoming.account_id@
            &&& existing.terminal_id is Some <==> incoming.terminal_id is Some
            &&& existing.terminal_id is Some ==> (existing.terminal_id->0)@ == (
            incoming.terminal_id->0)@
            &&& existing.platform@ == incoming.platform@
            &&& existing.capabilities@ == incoming.capabilities@
            &&& existing.remote_addr is Some <==> incoming.remote_addr is Some
            &&& existing.remote_addr is Some ==> (existing.remote_addr->0)@ == (
            incoming.remote_addr->0)@
            &&& existing.connected_at == incoming.connected_at
            &&& existing.max_inflight_commands == incoming.max_inflight_commands
            &&& existing.status == incoming.status
            &&& existing.last_heartbeat_at == incoming.last_heartbeat_at
            &&& existing.last_time_sync_at == incoming.last_time_sync_at
            &&& existing.clock_sync_status is Some <==> incoming.clock_sync_status is Some
            &&& existing.clock_sync_status is Some ==> (existing.clock_sync_status->0)@ == (
            incoming.clock_sync_status->0)@
            &&& existing.disconnected_at == incoming.disconnected_at
            &&& existing.updated_at == incoming.updated_at
        },
{
}

}
