//! Rebuilding what the store knows from durable facts.

use vstd::prelude::*;
use vstd::string::*;

use crate::domain::AccountId;
use crate::error;
use crate::error::{Fault, StoreError};
use crate::evidence;
use crate::evidence::{
    validate_account_durable_snapshot_full_set_consistency,
    validate_all_durable_snapshot_full_set_consistency, AccountEvidence, EvidenceEvent,
};
use crate::latest;
use crate::model::StoredCoreEvent;
use crate::projection;
use crate::projection::{AccountProjection, Outcome, Projected};
use crate::reconciliation::{
    ReconciliationCompleteness, ReconciliationEvaluation, ReconciliationProjectionRebuildReport,
    ReconciliationRequest, ReconciliationResult, StoredReconciliationRun, RESULT_EVENT_TYPE,
};
use crate::snapshots::{DurableProjection, Snapshot};
use crate::text::same_text;

verus! {

/// A durable fact that is replayed: its event, what the domain reads from it,
/// and for a result the run that it belongs to.
pub struct ReplayedEvent {
    pub event_id: String,
    pub event: Option<StoredCoreEvent>,
    pub snapshot: Result<Snapshot, String>,
    pub result: Result<ReconciliationResult, String>,
    pub run: Option<StoredReconciliationRun>,
}

/// What a replayed event is of, where it is an observation.
pub open spec fn snapshot_type(event_type: Seq<char>) -> Option<DurableProjection> {
    if event_type == DurableProjection::Account.name() {
        Some(DurableProjection::Account)
    } else if event_type == DurableProjection::Symbol.name() {
        Some(DurableProjection::Symbol)
    } else if event_type == DurableProjection::Position.name() {
        Some(DurableProjection::Position)
    } else if event_type == DurableProjection::Order.name() {
        Some(DurableProjection::Order)
    } else {
        None
    }
}

/// Reads the type of an observation.
pub fn type_of_snapshot(event_type: &str) -> (r: Option<DurableProjection>)
    ensures
        r == snapshot_type(event_type@),
{
    if same_text(event_type, DurableProjection::Account.event_type()) {
        Some(DurableProjection::Account)
    } else if same_text(event_type, DurableProjection::Symbol.event_type()) {
        Some(DurableProjection::Symbol)
    } else if same_text(event_type, DurableProjection::Position.event_type()) {
        Some(DurableProjection::Position)
    } else if same_text(event_type, DurableProjection::Order.event_type()) {
        Some(DurableProjection::Order)
    } else {
        None
    }
}

/// The fault of a core event.
pub open spec fn event_corrupt(event_id: Seq<char>, reason: Seq<char>) -> Option<Fault> {
    Some(error::corrupt_fault("core_event"@, event_id, reason))
}

/// The run holds the replayed result, and names its event.
pub open spec fn run_matches(
    run: StoredReconciliationRun,
    result: ReconciliationResult,
    event_id: Seq<char>,
) -> bool {
    &&& run.result matches Some(stored) && stored.payload@ == result.payload@
    &&& run.result_event matches Some(event) && event.metadata.event_id@ == event_id
}

/// The account that a replayed event changes.
pub open spec fn touched(replayed: ReplayedEvent) -> Seq<char> {
    if snapshot_type((replayed.event->0).metadata.event_type@) is Some {
        (replayed.snapshot->Ok_0).account_id@
    } else {
        (replayed.result->Ok_0).account_id@
    }
}

/// A replayed event changes an account.
pub open spec fn touches(replayed: ReplayedEvent) -> bool {
    let event_type = (replayed.event->0).metadata.event_type@;
    snapshot_type(event_type) is Some || event_type == RESULT_EVENT_TYPE@
}

/// A replayed result with what was made of it.
pub open spec fn outcome_of(replayed: ReplayedEvent) -> Outcome {
    let run = replayed.run->0;
    Outcome {
        request: run.request,
        result: replayed.result->Ok_0,
        evaluation: run.result_evaluation->0,
        completeness: run.completeness->0,
    }
}

/// What is wrong with a replayed event, by itself.
pub open spec fn replayed_fault(replayed: ReplayedEvent) -> Option<Fault> {
    let id = replayed.event_id@;
    match replayed.event {
        None => event_corrupt(id, "event disappeared"@),
        Some(event) => match event.metadata.account_id {
            None => event_corrupt(
                id,
                "account_id is required for reconciliation projection rebuild"@,
            ),
            Some(account_id) => if snapshot_type(event.metadata.event_type@) is Some {
                match replayed.snapshot {
                    Err(error) => event_corrupt(id, error@),
                    Ok(snapshot) => if account_id@ != snapshot.account_id@ {
                        event_corrupt(id, "payload account_id does not match event metadata"@)
                    } else {
                        None
                    },
                }
            } else if event.metadata.event_type@ == RESULT_EVENT_TYPE@ {
                match replayed.result {
                    Err(error) => event_corrupt(id, error@),
                    Ok(result) => match replayed.run {
                        None => event_corrupt(id, "reconciliation result has no durable run"@),
                        Some(run) => if !run_matches(run, result, id) {
                            event_corrupt(
                                id,
                                "reconciliation result does not match run aliases"@,
                            )
                        } else if run.result_evaluation is None {
                            Some(
                                error::corrupt_fault(
                                    "reconciliation_run"@,
                                    result.request_id@,
                                    "result evaluation is missing"@,
                                ),
                            )
                        } else if run.completeness is None {
                            Some(
                                error::corrupt_fault(
                                    "reconciliation_run"@,
                                    result.request_id@,
                                    "result completeness is missing"@,
                                ),
                            )
                        } else {
                            None
                        },
                    },
                }
            } else {
                None
            },
        },
    }
}

/// What is wrong with what a replayed event does to its account.
pub open spec fn step_fault(state: Projected, replayed: ReplayedEvent) -> Option<Fault> {
    let metadata = (replayed.event->0).metadata;
    match snapshot_type(metadata.event_type@) {
        Some(kind) => {
            let observation = (replayed.snapshot->Ok_0)@;
            if projection::snapshot_disputed(state, kind, observation) {
                Some(latest::dispute(projection::reported_kind(kind), observation))
            } else {
                None
            }
        },
        None => if metadata.event_type@ == RESULT_EVENT_TYPE@ {
            projection::result_fault(state, outcome_of(replayed), metadata.received_at)
        } else {
            None
        },
    }
}

/// What is known of the account once a replayed event was taken over.
pub open spec fn step(state: Projected, replayed: ReplayedEvent) -> Projected {
    let metadata = (replayed.event->0).metadata;
    match snapshot_type(metadata.event_type@) {
        Some(kind) => projection::with_snapshot(
            state,
            kind,
            (replayed.snapshot->Ok_0)@,
            metadata.received_at,
        ),
        None => if metadata.event_type@ == RESULT_EVENT_TYPE@ {
            projection::with_result(state, outcome_of(replayed), metadata.received_at)
        } else {
            state
        },
    }
}

/// What is known of an account once events were replayed.
pub open spec fn known(events: Seq<ReplayedEvent>, account_id: Seq<char>) -> Projected
    decreases events.len(),
{
    if events.len() == 0 {
        projection::nothing_known()
    } else {
        let before = known(events.drop_last(), account_id);
        if touches(events.last()) && touched(events.last()) == account_id {
            step(before, events.last())
        } else {
            before
        }
    }
}

/// What is wrong with replaying events.
pub open spec fn replay_fault(events: Seq<ReplayedEvent>) -> Option<Fault>
    decreases events.len(),
{
    if events.len() == 0 {
        None
    } else {
        let f = replay_fault(events.drop_last());
        let f = error::first_of(f, replayed_fault(events.last()));
        error::first_of(
            f,
            if touches(events.last()) {
                step_fault(known(events.drop_last(), touched(events.last())), events.last())
            } else {
                None
            },
        )
    }
}

proof fn replay_fault_of_prefix(events: Seq<ReplayedEvent>, n: int)
    requires
        0 <= n <= events.len(),
        replay_fault(events.take(n)) is Some,
    ensures
        replay_fault(events) == replay_fault(events.take(n)),
    decreases events.len(),
{
    if n < events.len() {
        assert(events.drop_last().take(n) =~= events.take(n));
        replay_fault_of_prefix(events.drop_last(), n);
    } else {
        assert(events.take(n) =~= events);
    }
}

/// How many of the events are observations.
pub open spec fn snapshots_in(events: Seq<ReplayedEvent>) -> nat
    decreases events.len(),
{
    if events.len() == 0 {
        0
    } else {
        snapshots_in(events.drop_last()) + (if snapshot_type(
            (events.last().event->0).metadata.event_type@,
        ) is Some {
            1nat
        } else {
            0nat
        })
    }
}

/// How many of the events are results.
pub open spec fn results_in(events: Seq<ReplayedEvent>) -> nat
    decreases events.len(),
{
    if events.len() == 0 {
        0
    } else {
        results_in(events.drop_last()) + (if snapshot_type(
            (events.last().event->0).metadata.event_type@,
        ) is None && (events.last().event->0).metadata.event_type@ == RESULT_EVENT_TYPE@ {
            1nat
        } else {
            0nat
        })
    }
}

/// What is held of an account; of accounts that occur twice the last counts.
pub open spec fn account_of(states: Seq<AccountProjection>, account_id: Seq<char>) -> Projected
    decreases states.len(),
{
    if states.len() == 0 {
        projection::nothing_known()
    } else if states.last().account_id@ == account_id {
        states.last()@
    } else {
        account_of(states.drop_last(), account_id)
    }
}

proof fn account_at(states: Seq<AccountProjection>, at: int)
    requires
        0 <= at < states.len(),
        forall|i: int|
            at < i < states.len() ==> (#[trigger] states[i]).account_id@
                != states[at].account_id@,
    ensures
        account_of(states, states[at].account_id@) == states[at]@,
    decreases states.len(),
{
    if at < states.len() - 1 {
        assert(states.drop_last()[at] == states[at]);
        account_at(states.drop_last(), at);
    }
}

proof fn account_absent(states: Seq<AccountProjection>, account_id: Seq<char>)
    requires
        forall|i: int| 0 <= i < states.len() ==> (#[trigger] states[i]).account_id@ != account_id,
    ensures
        account_of(states, account_id) == projection::nothing_known(),
    decreases states.len(),
{
    if states.len() > 0 {
        assert(states[states.len() - 1] == states.last());
        assert forall|i: int| 0 <= i < states.drop_last().len() implies (
        #[trigger] states.drop_last()[i]).account_id@ != account_id by {
            assert(states[i].account_id@ != account_id);
        }
        account_absent(states.drop_last(), account_id);
    }
}

proof fn others_stay(states: Seq<AccountProjection>, at: int, account_id: Seq<char>)
    requires
        0 <= at < states.len(),
        states[at].account_id@ != account_id,
    ensures
        account_of(states.remove(at), account_id) == account_of(states, account_id),
    decreases states.len(),
{
    let after = states.remove(at);
    if at == states.len() - 1 {
        assert(after =~= states.drop_last());
    } else {
        assert(after.last() == states.last());
        assert(after.drop_last() =~= states.drop_last().remove(at));
        if states.last().account_id@ != account_id {
            assert(states.drop_last()[at] == states[at]);
            others_stay(states.drop_last(), at, account_id);
        }
    }
}

/// An account that is added holds from then on, and no other is touched.
pub proof fn pushed(states: Seq<AccountProjection>, state: AccountProjection)
    ensures
        forall|id: Seq<char>| #[trigger]
            account_of(states.push(state), id) == (if id == state.account_id@ {
                state@
            } else {
                account_of(states, id)
            }),
{
    assert(states.push(state).drop_last() =~= states);
}

/// Takes out what is held of an account.
pub fn take_account(states: &mut Vec<AccountProjection>, account_id: &AccountId) -> (r:
    AccountProjection)
    ensures
        r.account_id@ == account_id@,
        r@ == account_of(old(states)@, account_id@),
        forall|other: Seq<char>|
            other != account_id@ ==> #[trigger] account_of(final(states)@, other) == account_of(
                old(states)@,
                other,
            ),
{
    let ghost before = states@;
    let mut i: usize = states.len();
    while i > 0
        invariant
            i <= states.len(),
            states@ == before,
            before == old(states)@,
            forall|j: int|
                i <= j < states.len() ==> (#[trigger] before[j]).account_id@ != account_id@,
        decreases i,
    {
        i = i - 1;
        if same_text(states[i].account_id.as_str(), account_id.as_str()) {
            proof {
                account_at(before, i as int);
                assert forall|other: Seq<char>| other != account_id@ implies #[trigger] account_of(
                    before.remove(i as int),
                    other,
                ) == account_of(before, other) by {
                    others_stay(before, i as int, other);
                }
            }
            return states.remove(i);
        }
    }
    proof {
        account_absent(before, account_id@);
    }
    AccountProjection::new(account_id.clone())
}

/// What a rebuild came to.
pub struct RebuiltProjections {
    pub report: ReconciliationProjectionRebuildReport,
    pub accounts: Vec<AccountProjection>,
}

fn check_result_run<'a>(
    event_id: &str,
    result: &'a Result<ReconciliationResult, String>,
    run: &'a Option<StoredReconciliationRun>,
) -> (r: Result<
    (
        &'a ReconciliationRequest,
        &'a ReconciliationResult,
        &'a ReconciliationEvaluation,
        ReconciliationCompleteness,
    ),
    StoreError,
>)
    ensures
        error::fault(r) == (match *result {
            Err(error) => event_corrupt(event_id@, error@),
            Ok(found) => match *run {
                None => event_corrupt(event_id@, "reconciliation result has no durable run"@),
                Some(stored) => if !run_matches(stored, found, event_id@) {
                    event_corrupt(
                        event_id@,
                        "reconciliation result does not match run aliases"@,
                    )
                } else if stored.result_evaluation is None {
                    Some(
                        error::corrupt_fault(
                            "reconciliation_run"@,
                            found.request_id@,
                            "result evaluation is missing"@,
                        ),
                    )
                } else if stored.completeness is None {
                    Some(
                        error::corrupt_fault(
                            "reconciliation_run"@,
                            found.request_id@,
                            "result completeness is missing"@,
                        ),
                    )
                } else {
                    None
                },
            },
        }),
        r matches Ok((request, found, evaluation, completeness)) ==> result->Ok_0 == *found
            && run->0.request == *request && run->0.result_evaluation == Some(*evaluation)
            && run->0.completeness == Some(completeness),
{
    let found = match result {
        Ok(found) => found,
        Err(error) => {
            return Err(StoreError::corrupt("core_event", event_id, error.as_str()));
        },
    };
    let stored = match run {
        Some(stored) => stored,
        None => {
            return Err(
                StoreError::corrupt(
                    "core_event",
                    event_id,
                    "reconciliation result has no durable run",
                ),
            );
        },
    };
    let same_result = match &stored.result {
        Some(kept) => kept.payload.same(&found.payload),
        None => false,
    };
    let same_event = match &stored.result_event {
        Some(event) => same_text(event.metadata.event_id.as_str(), event_id),
        None => false,
    };
    if !same_result || !same_event {
        return Err(
            StoreError::corrupt(
                "core_event",
                event_id,
                "reconciliation result does not match run aliases",
            ),
        );
    }
    let evaluation = match &stored.result_evaluation {
        Some(evaluation) => evaluation,
        None => {
            return Err(
                StoreError::corrupt(
                    "reconciliation_run",
                    found.request_id.as_str(),
                    "result evaluation is missing",
                ),
            );
        },
    };
    let completeness = match stored.completeness {
        Some(completeness) => completeness,
        None => {
            return Err(
                StoreError::corrupt(
                    "reconciliation_run",
                    found.request_id.as_str(),
                    "result completeness is missing",
                ),
            );
        },
    };
    Ok((&stored.request, found, evaluation, completeness))
}

/// Takes one replayed event over.
fn replay_event(states: &mut Vec<AccountProjection>, replayed: &ReplayedEvent) -> (r: Result<
    (),
    StoreError,
>)
    ensures
        error::fault(r) == error::first_of(
            replayed_fault(*replayed),
            if touches(*replayed) {
                step_fault(account_of(old(states)@, touched(*replayed)), *replayed)
            } else {
                None
            },
        ),
        r is Ok ==> forall|id: Seq<char>| #[trigger]
            account_of(final(states)@, id) == (if touches(*replayed) && touched(*replayed) == id {
                step(account_of(old(states)@, id), *replayed)
            } else {
                account_of(old(states)@, id)
            }),
{
    let event_id = replayed.event_id.as_str();
    let event = match &replayed.event {
        Some(event) => event,
        None => {
            return Err(StoreError::corrupt("core_event", event_id, "event disappeared"));
        },
    };
    let account_id = match &event.metadata.account_id {
        Some(account_id) => account_id,
        None => {
            return Err(
                StoreError::corrupt(
                    "core_event",
                    event_id,
                    "account_id is required for reconciliation projection rebuild",
                ),
            );
        },
    };
    if let Some(kind) = type_of_snapshot(event.metadata.event_type.as_str()) {
        let snapshot = match &replayed.snapshot {
            Ok(snapshot) => snapshot,
            Err(error) => {
                return Err(StoreError::corrupt("core_event", event_id, error.as_str()));
            },
        };
        if !same_text(account_id.as_str(), snapshot.account_id.as_str()) {
            return Err(
                StoreError::corrupt(
                    "core_event",
                    event_id,
                    "payload account_id does not match event metadata",
                ),
            );
        }
        let mut state = take_account(states, &snapshot.account_id);
        let ghost left = states@;
        state.apply_snapshot(kind, snapshot, event.metadata.received_at)?;
        let ghost made = state;
        states.push(state);
        proof {
            pushed(left, made);
        }
        return Ok(());
    }
    if same_text(event.metadata.event_type.as_str(), RESULT_EVENT_TYPE) {
        let (request, result, evaluation, completeness) = check_result_run(
            event_id,
            &replayed.result,
            &replayed.run,
        )?;
        let state = take_account(states, &result.account_id);
        let ghost left = states@;
        let after = state.apply_result(
            request,
            result,
            evaluation,
            completeness,
            event.metadata.received_at,
        )?;
        let ghost made = after;
        states.push(after);
        proof {
            pushed(left, made);
        }
    }
    Ok(())
}

/// Rebuilds what is known of every account from durable facts, in their order.
pub fn replay_reconciliation_events(events: &Vec<ReplayedEvent>) -> (r: Result<
    RebuiltProjections,
    StoreError,
>)
    ensures
        error::fault(r) == replay_fault(events@),
        r matches Ok(rebuilt) ==> {
            &&& forall|id: Seq<char>| #[trigger]
                account_of(rebuilt.accounts@, id) == known(events@, id)
            &&& rebuilt.report.replayed_snapshot_facts == snapshots_in(events@)
            &&& rebuilt.report.replayed_reconciliation_results == results_in(events@)
        },
{
    let mut states: Vec<AccountProjection> = Vec::new();
    let mut facts: u64 = 0;
    let mut results: u64 = 0;
    let mut i: usize = 0;
    while i < events.len()
        invariant
            i <= events.len(),
            replay_fault(events@.take(i as int)) is None,
            forall|id: Seq<char>| #[trigger]
                account_of(states@, id) == known(events@.take(i as int), id),
            facts == snapshots_in(events@.take(i as int)),
            results == results_in(events@.take(i as int)),
            facts + results <= i,
        decreases events.len() - i,
    {
        let ghost longer = events@.take(i + 1);
        let ghost before = states@;
        assert(longer.drop_last() =~= events@.take(i as int));
        assert(longer.last() == events@[i as int]);
        if let Err(error) = replay_event(&mut states, &events[i]) {
            proof {
                replay_fault_of_prefix(events@, i + 1);
            }
            return Err(error);
        }
        if let Some(event) = &events[i].event {
            if type_of_snapshot(event.metadata.event_type.as_str()).is_some() {
                facts = facts + 1;
            } else if same_text(event.metadata.event_type.as_str(), RESULT_EVENT_TYPE) {
                results = results + 1;
            }
        }
        proof {
            assert forall|id: Seq<char>| #[trigger] account_of(states@, id) == known(
                longer,
                id,
            ) by {
                assert(account_of(before, id) == known(events@.take(i as int), id));
            }
        }
        i = i + 1;
    }
    assert(events@.take(i as int) =~= events@);
    Ok(
        RebuiltProjections {
            report: ReconciliationProjectionRebuildReport {
                replayed_snapshot_facts: facts,
                replayed_reconciliation_results: results,
            },
            accounts: states,
        },
    )
}

/// What is rebuilt is what the events say, and the report counts them.
pub open spec fn rebuilt_from(rebuilt: RebuiltProjections, events: Seq<ReplayedEvent>) -> bool {
    &&& forall|id: Seq<char>| #[trigger] account_of(rebuilt.accounts@, id) == known(events, id)
    &&& rebuilt.report.replayed_snapshot_facts == snapshots_in(events)
    &&& rebuilt.report.replayed_reconciliation_results == results_in(events)
}

/// Rebuilds what is known of every account, once its durable facts were found
/// not to contradict each other.
pub fn rebuild_reconciliation_projections(
    evidence: &Vec<AccountEvidence>,
    events: &Vec<ReplayedEvent>,
) -> (r: Result<RebuiltProjections, StoreError>)
    ensures
        error::fault(r) == error::first_of(
            evidence::all_consistency_fault(evidence@),
            replay_fault(events@),
        ),
        r matches Ok(rebuilt) ==> rebuilt_from(rebuilt, events@),
{
    validate_all_durable_snapshot_full_set_consistency(evidence)?;
    replay_reconciliation_events(events)
}

/// Rebuilds what is known of one account, once its durable facts were found not
/// to contradict each other.
pub fn rebuild_reconciliation_account_projections(
    account_id: &AccountId,
    evidence: &Vec<EvidenceEvent>,
    events: &Vec<ReplayedEvent>,
) -> (r: Result<RebuiltProjections, StoreError>)
    ensures
        error::fault(r) == error::first_of(
            evidence::consistency_fault(account_id@, evidence@),
            replay_fault(events@),
        ),
        r matches Ok(rebuilt) ==> rebuilt_from(rebuilt, events@),
{
    validate_account_durable_snapshot_full_set_consistency(account_id, evidence)?;
    replay_reconciliation_events(events)
}

/// The events of one account are all that matter to it.
pub proof fn accounts_are_rebuilt_alone(events: Seq<ReplayedEvent>, account_id: Seq<char>)
    ensures
        known(events, account_id) == known(
            events.filter(|e: ReplayedEvent| touches(e) && touched(e) == account_id),
            account_id,
        ),
    decreases events.len(),
{
    let mine = |e: ReplayedEvent| touches(e) && touched(e) == account_id;
    reveal(Seq::filter);
    if events.len() > 0 {
        accounts_are_rebuilt_alone(events.drop_last(), account_id);
        let rest = events.drop_last().filter(mine);
        if mine(events.last()) {
            let all = events.filter(mine);
            assert(all =~= rest.push(events.last()));
            assert(all.drop_last() =~= rest);
        }
    }
}

/// Rebuilding repeats what was done when each event came in.
pub proof fn rebuilding_repeats(
    events: Seq<ReplayedEvent>,
    replayed: ReplayedEvent,
    account_id: Seq<char>,
)
    ensures
        known(events.push(replayed), account_id) == (if touches(replayed) && touched(replayed)
            == account_id {
            step(known(events, account_id), replayed)
        } else {
            known(events, account_id)
        }),
{
    assert(events.push(replayed).drop_last() =~= events);
}

/// Only these events tell something about an account: observations of the
/// account, of symbols, positions and orders, and results of a reconciliation.
pub proof fn events_that_tell_of_accounts(replayed: ReplayedEvent)
    ensures
        ({
            let event_type = (replayed.event->0).metadata.event_type@;
            &&& touches(replayed) <==> event_type == "account.snapshot"@ || event_type
                == "symbol.metadata"@ || event_type == "position.snapshot"@ || event_type
                == "order.snapshot"@ || event_type == "reconciliation.result"@
            &&& event_type == "account.snapshot"@ ==> snapshot_type(event_type) == Some(
                DurableProjection::Account,
            )
            &&& snapshot_type(event_type) == Some(DurableProjection::Account) ==> event_type
                == "account.snapshot"@
            &&& snapshot_type(event_type) == Some(DurableProjection::Symbol) ==> event_type
                == "symbol.metadata"@
            &&& snapshot_type(event_type) == Some(DurableProjection::Position) ==> event_type
                == "position.snapshot"@
            &&& snapshot_type(event_type) == Some(DurableProjection::Order) ==> event_type
                == "order.snapshot"@
            &&& snapshot_type(event_type) is None ==> event_type != "account.snapshot"@
                && event_type != "symbol.metadata"@ && event_type != "position.snapshot"@
                && event_type != "order.snapshot"@
        }),
{
}

/// A replayed event is still there, names its account, and can be read; an
/// observation is of the account it names, and a result is the one that its run
/// holds, with its evaluation and its claims.
pub proof fn replayed_events_are_sound(replayed: ReplayedEvent)
    requires
        replayed_fault(replayed) is None,
    ensures
        replayed.event is Some,
        ({
            let metadata = (replayed.event->0).metadata;
            &&& metadata.account_id is Some
            &&& snapshot_type(metadata.event_type@) is Some ==> replayed.snapshot is Ok && (
            replayed.snapshot->Ok_0).account_id@ == (metadata.account_id->0)@
            &&& snapshot_type(metadata.event_type@) is None && metadata.event_type@
                == "reconciliation.result"@ ==> {
                &&& replayed.result is Ok
                &&& replayed.run is Some
                &&& (replayed.run->0).result is Some && ((replayed.run->0).result->0).payload@ == (
                replayed.result->Ok_0).payload@
                &&& (replayed.run->0).result_event is Some && ((
                replayed.run->0).result_event->0).metadata.event_id@ == replayed.event_id@
                &&& (replayed.run->0).result_evaluation is Some
                &&& (replayed.run->0).completeness is Some
            }
        }),
{
}

/// An event changes only what it tells of: an observation its own table, and a
/// result is taken with the request, the evaluation and the claims of its run.
pub proof fn replayed_observations_change_their_table(state: Projected, replayed: ReplayedEvent)
    ensures
        ({
            let metadata = (replayed.event->0).metadata;
            let after = step(state, replayed);
            let observation = (replayed.snapshot->Ok_0)@;
            &&& snapshot_type(metadata.event_type@) == Some(DurableProjection::Account) ==> after
                == (Projected {
                account: latest::observed(state.account, observation, metadata.received_at),
                ..state
            })
            &&& snapshot_type(metadata.event_type@) == Some(DurableProjection::Symbol) ==> after
                == (Projected {
                symbols: latest::observed(state.symbols, observation, metadata.received_at),
                ..state
            })
            &&& snapshot_type(metadata.event_type@) == Some(DurableProjection::Position)
                ==> after.orders == state.orders && after.account == state.account
                && after.position_members == state.position_members && after.checkpoint
                == state.checkpoint
            &&& snapshot_type(metadata.event_type@) == Some(DurableProjection::Order)
                ==> after.positions == state.positions && after.account == state.account
                && after.order_members == state.order_members && after.checkpoint
                == state.checkpoint
            &&& !touches(replayed) ==> after == state
        }),
{
}

/// What a rebuild reports is how many observations and how many results it
/// replayed.
pub proof fn replayed_events_are_counted(events: Seq<ReplayedEvent>, replayed: ReplayedEvent)
    ensures
        snapshots_in(Seq::empty()) == 0,
        results_in(Seq::empty()) == 0,
        ({
            let event_type = (replayed.event->0).metadata.event_type@;
            let observed = event_type == "account.snapshot"@ || event_type == "symbol.metadata"@
                || event_type == "position.snapshot"@ || event_type == "order.snapshot"@;
            &&& observed ==> snapshots_in(events.push(replayed)) == snapshots_in(events) + 1
                && results_in(events.push(replayed)) == results_in(events)
            &&& !observed && event_type == "reconciliation.result"@ ==> snapshots_in(
                events.push(replayed),
            ) == snapshots_in(events) && results_in(events.push(replayed)) == results_in(events)
                + 1
            &&& !observed && event_type != "reconciliation.result"@ ==> snapshots_in(
                events.push(replayed),
            ) == snapshots_in(events) && results_in(events.push(replayed)) == results_in(events)
        }),
{
    assert(events.push(replayed).drop_last() == events);
}

/// A rebuild goes through only if each of its events can be read and does not
/// contradict what came before.
pub proof fn rebuilds_go_through_event_by_event(
    events: Seq<ReplayedEvent>,
    replayed: ReplayedEvent,
)
    ensures
        replay_fault(Seq::empty()) is None,
        replay_fault(events.push(replayed)) is None <==> replay_fault(events) is None
            && replayed_fault(replayed) is None && (touches(replayed) ==> step_fault(
            known(events, touched(replayed)),
            replayed,
        ) is None),
        replay_fault(events) is Some ==> replay_fault(events.push(replayed)) == replay_fault(events),
{
    assert(events.push(replayed).drop_last() == events);
}

}
