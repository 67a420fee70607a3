//! What a checkpoint claims of the tables and of the runs of its account, and
//! that whatever is taken over keeps it true.

use vstd::prelude::*;
use vstd::string::*;

use crate::checkpoint;
use crate::checkpoint::{
    Checkpoint, FullSetDecision, FullSetKind, ReadinessRuns, SetMemberRow, StoredFullSet,
};
use crate::convergence;
use crate::json;
use crate::latest;
use crate::latest::Latest;
use crate::listing;
use crate::projection;
use crate::projection::{FullSet, Outcome, Projected};
use crate::rebuild;
use crate::rebuild::ReplayedEvent;
use crate::reconciliation;
use crate::reconciliation::{
    ReconciliationDisposition, ReconciliationResult, ReconciliationRunStatus,
    StoredReconciliationRun,
};
use crate::reconciliation_rows;
use crate::reconciliation_rows::ReconciliationRunRow;
use crate::snapshots;
use crate::snapshots::{DurableProjection, Observation, Snapshot, SnapshotKind};
use crate::text;

verus! {

/// The newest observation under a name is newer than the full set of this time,
/// or is what the set holds.
pub open spec fn upheld(
    table: Map<Seq<char>, Latest>,
    id: Seq<char>,
    member: Latest,
    time: i64,
) -> bool {
    &&& table.contains_key(id)
    &&& table[id].observed_at >= time
    &&& table[id].observed_at == time ==> json::text_digest(table[id].payload)
        == json::text_digest(member.payload)
}

/// A table bears the full set out that goes with it: the set is of the time that
/// is kept, each of its members is there or was observed since, and nothing is
/// there from its time or before that it lacks.
pub open spec fn borne_out(
    table: Map<Seq<char>, Latest>,
    members: Map<Seq<char>, Latest>,
    kept: Option<(i64, Seq<char>)>,
) -> bool {
    match kept {
        None => true,
        Some((time, _)) => {
            &&& forall|id: Seq<char>| #[trigger]
                members.contains_key(id) ==> members[id].observed_at == time && upheld(
                    table,
                    id,
                    members[id],
                    time,
                )
            &&& forall|id: Seq<char>| #[trigger]
                table.contains_key(id) && table[id].observed_at <= time ==> members.contains_key(
                    id,
                )
        },
    }
}

/// An observation leaves the full set borne out.
pub proof fn observations_bear_sets_out(
    table: Map<Seq<char>, Latest>,
    members: Map<Seq<char>, Latest>,
    kept: Option<(i64, Seq<char>)>,
    observation: Observation,
    updated_at: i64,
)
    requires
        borne_out(table, members, kept),
    ensures
        borne_out(
            projection::set_bound_observed(
                table,
                convergence::watermark(kept),
                observation,
                updated_at,
            ),
            members,
            kept,
        ),
{
}

/// What observing a set undisputed says of each of its members.
proof fn members_undisputed(
    kind: SnapshotKind,
    table: Map<Seq<char>, Latest>,
    set: Seq<Snapshot>,
    time: i64,
    updated_at: i64,
)
    requires
        forall|k: int| 0 <= k < set.len() ==> (#[trigger] set[k]).observed_at == time,
        forall|k: int, m: int|
            0 <= k < m < set.len() ==> (#[trigger] set[k]).id@ != (#[trigger] set[m]).id@,
        projection::set_disputed(kind, table, set, updated_at) is None,
    ensures
        forall|k: int| 0 <= k < set.len() ==> !latest::disputed(table, (#[trigger] set[k])@),
    decreases set.len(),
{
    if set.len() > 0 {
        let shorter = set.drop_last();
        members_undisputed(kind, table, shorter, time, updated_at);
        convergence::members_observed(table, shorter, time, updated_at);
        let before = projection::set_observed(table, shorter, updated_at);
        let last = set.last();
        let ids = reconciliation::snapshot_ids(shorter);
        assert(!ids.contains(last.id@)) by {
            if ids.contains(last.id@) {
                let k = choose|k: int| 0 <= k < ids.len() && ids[k] == last.id@;
                assert(set[k].id@ == last.id@);
                assert(set[set.len() - 1].id@ == last.id@);
            }
        }
        assert(before.contains_key(last.id@) <==> table.contains_key(last.id@));
        assert(latest::disputed(before, last@) == latest::disputed(table, last@));
        assert forall|k: int| 0 <= k < set.len() implies !latest::disputed(
            table,
            (#[trigger] set[k])@,
        ) by {
            if k < set.len() - 1 {
                assert(set[k] == shorter[k]);
            }
        }
    }
}

/// The members of a full set are its observations, each under its name.
proof fn members_are_listed(set: Seq<Snapshot>, time: i64)
    requires
        forall|k: int, m: int|
            0 <= k < m < set.len() ==> (#[trigger] set[k]).id@ != (#[trigger] set[m]).id@,
    ensures
        ({
            let members = projection::set_members(set, time);
            &&& forall|k: int|
                0 <= k < set.len() ==> members.contains_key((#[trigger] set[k]).id@)
                    && members[set[k].id@].payload == set[k].payload@
                    && members[set[k].id@].observed_at == time
            &&& forall|id: Seq<char>| #[trigger]
                members.contains_key(id) ==> reconciliation::snapshot_ids(set).contains(id)
        }),
    decreases set.len(),
{
    let members = projection::set_members(set, time);
    if set.len() > 0 {
        let shorter = set.drop_last();
        members_are_listed(shorter, time);
        let ids = reconciliation::snapshot_ids(set);
        let fewer = reconciliation::snapshot_ids(shorter);
        assert forall|k: int| 0 <= k < set.len() implies members.contains_key(
            (#[trigger] set[k]).id@,
        ) && members[set[k].id@].payload == set[k].payload@ && members[set[k].id@].observed_at
            == time by {
            if k < set.len() - 1 {
                assert(set[k] == shorter[k]);
                assert(set[k].id@ != set[set.len() - 1].id@);
            }
        }
        assert forall|id: Seq<char>| #[trigger] members.contains_key(id) implies ids.contains(
            id,
        ) by {
            if id == set.last().id@ {
                assert(ids[set.len() - 1] == id);
            } else {
                assert(projection::set_members(shorter, time).contains_key(id));
                let k = choose|k: int| 0 <= k < fewer.len() && fewer[k] == id;
                assert(shorter[k] == set[k]);
                assert(ids[k] == id);
            }
        }
    }
}

/// The full set that is kept once another was taken over.
pub open spec fn kept_after(kept: Option<(i64, Seq<char>)>, full: FullSet) -> Option<
    (i64, Seq<char>),
> {
    if checkpoint::full_set_decision(full.observed_at, kept) == FullSetDecision::Applied {
        Some((full.observed_at, full.hash))
    } else {
        kept
    }
}

/// A full set that is taken over is borne out.
pub proof fn full_sets_are_borne_out(
    kind: FullSetKind,
    table: Map<Seq<char>, Latest>,
    members: Map<Seq<char>, Latest>,
    kept: Option<(i64, Seq<char>)>,
    full: FullSet,
    updated_at: i64,
)
    requires
        borne_out(table, members, kept),
        convergence::sound_set(full),
        projection::full_set_fault(kind, table, kept, full, updated_at) is None,
    ensures
        borne_out(
            projection::with_full_set(table, kept, full, updated_at),
            projection::with_full_set_members(members, kept, full),
            kept_after(kept, full),
        ),
{
    if checkpoint::full_set_decision(full.observed_at, kept) == FullSetDecision::Applied {
        let set = full.set;
        let time = full.observed_at;
        let ids = reconciliation::snapshot_ids(set);
        let observed = projection::set_observed(table, set, updated_at);
        let after = projection::with_full_set(table, kept, full, updated_at);
        let listed = projection::with_full_set_members(members, kept, full);
        convergence::members_observed(table, set, time, updated_at);
        members_undisputed(projection::member_kind(kind), table, set, time, updated_at);
        members_are_listed(set, time);
        assert forall|id: Seq<char>| #[trigger] listed.contains_key(id) implies listed[id].observed_at
            == time && upheld(after, id, listed[id], time) by {
            let k = choose|k: int| 0 <= k < ids.len() && ids[k] == id;
            assert(set[k].id@ == id);
            assert(!latest::disputed(table, set[k]@));
            assert(observed.contains_key(id));
            assert(ids.contains(id));
        }
        assert forall|id: Seq<char>| #[trigger]
            after.contains_key(id) && after[id].observed_at <= time implies listed.contains_key(
            id,
        ) by {
            assert(ids.contains(id));
            let k = choose|k: int| 0 <= k < ids.len() && ids[k] == id;
            assert(set[k].id@ == id);
        }
    }
}

/// Names are those of the members of a full set, in order.
pub open spec fn names_of(ids: Seq<Seq<char>>, members: Map<Seq<char>, Latest>) -> bool {
    &&& text::strictly_sorted(ids)
    &&& forall|id: Seq<char>| #[trigger] ids.contains(id) <==> members.contains_key(id)
}

/// The texts of the members of a full set.
pub open spec fn texts_of(ids: Seq<Seq<char>>, members: Map<Seq<char>, Latest>) -> Seq<Seq<char>> {
    Seq::new(ids.len(), |i: int| members[ids[i]].payload)
}

/// The digest that is kept is that of the list of the members of the full set.
pub open spec fn digested(
    members: Map<Seq<char>, Latest>,
    kept: Option<(i64, Seq<char>)>,
) -> bool {
    kept matches Some((_, hash)) ==> forall|ids: Seq<Seq<char>>|
        #[trigger] names_of(ids, members) ==> json::text_digest(
            json::list_text(texts_of(ids, members)),
        ) == hash
}

/// A full set that is taken over is kept with its digest.
pub proof fn full_sets_are_digested(
    members: Map<Seq<char>, Latest>,
    kept: Option<(i64, Seq<char>)>,
    full: FullSet,
)
    requires
        digested(members, kept),
        text::strictly_sorted(reconciliation::snapshot_ids(full.set)),
        full.hash == json::text_digest(reconciliation::set_text(full.set)),
    ensures
        digested(projection::with_full_set_members(members, kept, full), kept_after(kept, full)),
{
    if checkpoint::full_set_decision(full.observed_at, kept) == FullSetDecision::Applied {
        let set = full.set;
        let names = reconciliation::snapshot_ids(set);
        let listed = projection::with_full_set_members(members, kept, full);
        text::strictly_sorted_has_no_duplicates(names);
        assert forall|k: int, m: int| 0 <= k < m < set.len() implies (#[trigger] set[k]).id@ != (
        #[trigger] set[m]).id@ by {
            assert(names[k] != names[m]);
        }
        members_are_listed(set, full.observed_at);
        assert forall|ids: Seq<Seq<char>>| #[trigger] names_of(
            ids,
            listed,
        ) implies json::text_digest(json::list_text(texts_of(ids, listed))) == full.hash by {
            assert forall|id: Seq<char>| #[trigger] ids.contains(id) <==> names.contains(id) by {
                if names.contains(id) {
                    let k = choose|k: int| 0 <= k < names.len() && names[k] == id;
                    assert(listed.contains_key(set[k].id@));
                }
            }
            text::strictly_sorted_lists_agree(ids, names);
            assert(texts_of(ids, listed) =~= reconciliation::member_texts(set)) by {
                assert forall|k: int| 0 <= k < set.len() implies #[trigger] texts_of(ids, listed)[k]
                    == reconciliation::member_texts(set)[k] by {
                    assert(ids[k] == set[k].id@);
                }
            }
        }
    }
}

/// The tables of an account bear its checkpoint out, and the checkpoint has the
/// digests of its full sets.
pub open spec fn intact(state: Projected) -> bool {
    &&& borne_out(state.positions, state.position_members, projection::kept_positions(state))
    &&& borne_out(state.orders, state.order_members, projection::kept_orders(state))
    &&& digested(state.position_members, projection::kept_positions(state))
    &&& digested(state.order_members, projection::kept_orders(state))
}

/// An observation leaves an account intact.
pub proof fn observations_keep_accounts_intact(
    state: Projected,
    kind: DurableProjection,
    observation: Observation,
    updated_at: i64,
)
    requires
        intact(state),
    ensures
        intact(projection::with_snapshot(state, kind, observation, updated_at)),
{
    observations_bear_sets_out(
        state.positions,
        state.position_members,
        projection::kept_positions(state),
        observation,
        updated_at,
    );
    observations_bear_sets_out(
        state.orders,
        state.order_members,
        projection::kept_orders(state),
        observation,
        updated_at,
    );
}

proof fn listed_sets_are_sound(full: FullSet, account_id: Seq<char>)
    requires
        reconciliation::full_set(full.set, account_id, full.observed_at),
    ensures
        convergence::sound_set(full),
{
    let ids = reconciliation::snapshot_ids(full.set);
    text::strictly_sorted_has_no_duplicates(ids);
    assert forall|k: int, m: int| 0 <= k < m < full.set.len() implies (
    #[trigger] full.set[k]).id@ != (#[trigger] full.set[m]).id@ by {
        assert(ids[k] != ids[m]);
    }
}

/// A result leaves an account intact.
pub proof fn results_keep_accounts_intact(state: Projected, outcome: Outcome, updated_at: i64)
    requires
        intact(state),
        reconciliation::result_sets_fault(outcome.result, outcome.request.command_ids) is None,
        projection::result_fault(state, outcome, updated_at) is None,
    ensures
        intact(projection::with_result(state, outcome, updated_at)),
{
    let result = outcome.result;
    let positions = projection::positions_of(result);
    let orders = projection::orders_of(result);
    listed_sets_are_sound(positions, result.account_id@);
    listed_sets_are_sound(orders, result.account_id@);
    full_sets_are_borne_out(
        FullSetKind::Positions,
        state.positions,
        state.position_members,
        projection::kept_positions(state),
        positions,
        updated_at,
    );
    full_sets_are_borne_out(
        FullSetKind::Orders,
        state.orders,
        state.order_members,
        projection::kept_orders(state),
        orders,
        updated_at,
    );
    full_sets_are_digested(
        state.position_members,
        projection::kept_positions(state),
        positions,
    );
    full_sets_are_digested(state.order_members, projection::kept_orders(state), orders);
    let after = projection::with_result(state, outcome, updated_at);
    assert(projection::kept_positions(after) == kept_after(
        projection::kept_positions(state),
        positions,
    ));
    assert(projection::kept_orders(after) == kept_after(projection::kept_orders(state), orders));
}

/// The replayed event is a result about an account.
pub open spec fn is_result(replayed: ReplayedEvent, account_id: Seq<char>) -> bool {
    &&& rebuild::touches(replayed)
    &&& rebuild::touched(replayed) == account_id
    &&& rebuild::snapshot_type((replayed.event->0).metadata.event_type@) is None
}

/// The result of a run and a replayed one report the same.
pub open spec fn same_report(a: ReconciliationResult, b: ReconciliationResult) -> bool {
    &&& a.observed_at == b.observed_at
    &&& a.account is Some <==> b.account is Some
    &&& reconciliation::member_texts(a.positions@) == reconciliation::member_texts(b.positions@)
    &&& reconciliation::member_texts(a.orders@) == reconciliation::member_texts(b.orders@)
}

/// A replayed result is one that was committed: its sets are full sets, it was
/// received after it was observed, and its run, as it was read, answers it.
pub open spec fn was_committed(replayed: ReplayedEvent) -> bool {
    let result = replayed.result->Ok_0;
    let run = replayed.run->0;
    &&& reconciliation::result_sets_fault(result, run.request.command_ids) is None
    &&& 0 <= result.observed_at <= (replayed.event->0).metadata.received_at
    &&& text::lower_hex_64(json::text_digest(reconciliation::set_text(result.positions@)))
    &&& text::lower_hex_64(json::text_digest(reconciliation::set_text(result.orders@)))
    &&& run.request.account_id@ == result.account_id@
    &&& run.result matches Some(stored) && same_report(stored, result)
    &&& run.result_evaluation matches Some(evaluation) ==> evaluation.disposition
        == ReconciliationDisposition::Completed ==> run.status
        == ReconciliationRunStatus::Completed
}

/// A result that is replayed with its run as it was read was committed.
pub proof fn read_results_were_committed(row: ReconciliationRunRow, replayed: ReplayedEvent)
    requires
        reconciliation_rows::run_row_fault(row) is None,
        replayed.run == Some(reconciliation_rows::run_of_row(row)),
        replayed.event is Some,
        replayed.event == reconciliation_rows::run_of_row(row).result_event,
        replayed.result is Ok,
        reconciliation_rows::run_of_row(row).result == Some(replayed.result->Ok_0),
        text::lower_hex_64(json::text_digest(reconciliation::set_text((replayed.result->Ok_0).positions@))),
        text::lower_hex_64(json::text_digest(reconciliation::set_text((replayed.result->Ok_0).orders@))),
    ensures
        was_committed(replayed),
{
}

/// Every replayed result about an account was committed.
pub open spec fn all_committed(events: Seq<ReplayedEvent>, account_id: Seq<char>) -> bool {
    forall|i: int|
        0 <= i < events.len() && is_result(#[trigger] events[i], account_id) ==> was_committed(
            events[i],
        )
}

/// A rebuilt account is intact.
pub proof fn rebuilt_accounts_are_intact(events: Seq<ReplayedEvent>, account_id: Seq<char>)
    requires
        rebuild::replay_fault(events) is None,
        all_committed(events, account_id),
    ensures
        intact(rebuild::known(events, account_id)),
    decreases events.len(),
{
    if events.len() > 0 {
        let shorter = events.drop_last();
        let last = events.last();
        let before = rebuild::known(shorter, account_id);
        assert(all_committed(shorter, account_id)) by {
            assert forall|i: int|
                0 <= i < shorter.len() && is_result(
                    #[trigger] shorter[i],
                    account_id,
                ) implies was_committed(shorter[i]) by {
                assert(shorter[i] == events[i]);
            }
        }
        rebuilt_accounts_are_intact(shorter, account_id);
        if rebuild::touches(last) && rebuild::touched(last) == account_id {
            let metadata = (last.event->0).metadata;
            match rebuild::snapshot_type(metadata.event_type@) {
                Some(kind) => {
                    observations_keep_accounts_intact(
                        before,
                        kind,
                        (last.snapshot->Ok_0)@,
                        metadata.received_at,
                    );
                },
                None => {
                    assert(events[events.len() - 1] == last);
                    assert(is_result(last, account_id));
                    results_keep_accounts_intact(
                        before,
                        rebuild::outcome_of(last),
                        metadata.received_at,
                    );
                },
            }
        }
    }
}

/// The replayed event is the result that a checkpoint names as its source.
pub open spec fn is_source(
    replayed: ReplayedEvent,
    account_id: Seq<char>,
    checkpoint: Checkpoint,
) -> bool {
    let result = replayed.result->Ok_0;
    &&& is_result(replayed, account_id)
    &&& result.request_id@ == checkpoint.source_request_id
    &&& result.observed_at == checkpoint.result_observed_at
    &&& json::text_digest(reconciliation::set_text(result.positions@)) == checkpoint.positions_set_hash
    &&& json::text_digest(reconciliation::set_text(result.orders@)) == checkpoint.orders_set_hash
}

/// The replayed event is a result of a time that reports the account.
pub open spec fn refreshes_account(
    replayed: ReplayedEvent,
    account_id: Seq<char>,
    time: i64,
) -> bool {
    &&& is_result(replayed, account_id)
    &&& (replayed.result->Ok_0).observed_at == time
    &&& (replayed.result->Ok_0).account is Some
}

/// The replayed event is a result of a time that reports all symbol metadata.
pub open spec fn refreshes_symbols(
    replayed: ReplayedEvent,
    account_id: Seq<char>,
    time: i64,
) -> bool {
    &&& is_result(replayed, account_id)
    &&& (replayed.result->Ok_0).observed_at == time
    &&& ((replayed.run->0).completeness->0).symbol_metadata_complete
}

/// The replayed event is a result of a time that leaves no command open.
pub open spec fn settles_commands(
    replayed: ReplayedEvent,
    account_id: Seq<char>,
    time: i64,
) -> bool {
    let run = replayed.run->0;
    &&& is_result(replayed, account_id)
    &&& (replayed.result->Ok_0).observed_at == time
    &&& checkpoint::account_wide(run.request)
    &&& (run.result_evaluation->0).disposition == ReconciliationDisposition::Completed
    &&& (run.completeness->0).command_scope_complete
}

/// What a checkpoint says comes from results that were replayed.
pub open spec fn sourced(
    events: Seq<ReplayedEvent>,
    account_id: Seq<char>,
    checkpoint: Checkpoint,
) -> bool {
    &&& checkpoint.account_id == account_id
    &&& checkpoint::shaped(checkpoint)
    &&& exists|i: int|
        0 <= i < events.len() && is_source(#[trigger] events[i], account_id, checkpoint)
    &&& checkpoint.account_refreshed_at matches Some(time) ==> exists|i: int|
        0 <= i < events.len() && refreshes_account(#[trigger] events[i], account_id, time)
    &&& checkpoint.symbol_metadata_refreshed_at matches Some(time) ==> exists|i: int|
        0 <= i < events.len() && refreshes_symbols(#[trigger] events[i], account_id, time)
    &&& checkpoint.pending_commands_reconciled_at matches Some(time) ==> exists|i: int|
        0 <= i < events.len() && settles_commands(#[trigger] events[i], account_id, time)
}

proof fn sources_stay(
    events: Seq<ReplayedEvent>,
    account_id: Seq<char>,
    checkpoint: Checkpoint,
)
    requires
        events.len() > 0,
        sourced(events.drop_last(), account_id, checkpoint),
    ensures
        sourced(events, account_id, checkpoint),
{
    let shorter = events.drop_last();
    let i = choose|i: int|
        0 <= i < shorter.len() && is_source(#[trigger] shorter[i], account_id, checkpoint);
    assert(events[i] == shorter[i]);
    if let Some(time) = checkpoint.account_refreshed_at {
        let i = choose|i: int|
            0 <= i < shorter.len() && refreshes_account(#[trigger] shorter[i], account_id, time);
        assert(events[i] == shorter[i]);
    }
    if let Some(time) = checkpoint.symbol_metadata_refreshed_at {
        let i = choose|i: int|
            0 <= i < shorter.len() && refreshes_symbols(#[trigger] shorter[i], account_id, time);
        assert(events[i] == shorter[i]);
    }
    if let Some(time) = checkpoint.pending_commands_reconciled_at {
        let i = choose|i: int|
            0 <= i < shorter.len() && settles_commands(#[trigger] shorter[i], account_id, time);
        assert(events[i] == shorter[i]);
    }
}

/// What the checkpoint of a rebuilt account says comes from its results.
pub proof fn rebuilt_checkpoints_are_sourced(events: Seq<ReplayedEvent>, account_id: Seq<char>)
    requires
        rebuild::replay_fault(events) is None,
        all_committed(events, account_id),
    ensures
        rebuild::known(events, account_id).checkpoint matches Some(checkpoint) ==> sourced(
            events,
            account_id,
            checkpoint,
        ),
    decreases events.len(),
{
    if events.len() > 0 {
        let shorter = events.drop_last();
        let last = events.last();
        let before = rebuild::known(shorter, account_id);
        assert(all_committed(shorter, account_id)) by {
            assert forall|i: int|
                0 <= i < shorter.len() && is_result(
                    #[trigger] shorter[i],
                    account_id,
                ) implies was_committed(shorter[i]) by {
                assert(shorter[i] == events[i]);
            }
        }
        rebuilt_checkpoints_are_sourced(shorter, account_id);
        if let Some(checkpoint) = before.checkpoint {
            sources_stay(events, account_id, checkpoint);
        }
        if is_result(last, account_id) {
            assert(events[events.len() - 1] == last);
            let received_at = (last.event->0).metadata.received_at;
            let outcome = rebuild::outcome_of(last);
            let advance = checkpoint::advance_of(
                outcome.request,
                outcome.result,
                outcome.evaluation,
                outcome.completeness,
                reconciliation::set_text(outcome.result.positions@),
                reconciliation::set_text(outcome.result.orders@),
                received_at,
            );
            let after = checkpoint::advanced(before.checkpoint, advance);
            assert(rebuild::known(events, account_id).checkpoint == Some(after));
            checkpoint::advance_keeps_shape(before.checkpoint, advance);
            match before.checkpoint {
                None => {
                    assert(is_source(events[events.len() - 1], account_id, after));
                },
                Some(earlier) => {
                    let i = choose|i: int|
                        0 <= i < events.len() && is_source(
                            #[trigger] events[i],
                            account_id,
                            earlier,
                        );
                    assert(is_source(events[i], account_id, after) || is_source(
                        events[events.len() - 1],
                        account_id,
                        after,
                    ));
                },
            }
            if let Some(time) = after.account_refreshed_at {
                if before.checkpoint is None || (before.checkpoint->0).account_refreshed_at
                    != Some(time) {
                    assert(refreshes_account(events[events.len() - 1], account_id, time));
                }
            }
            if let Some(time) = after.symbol_metadata_refreshed_at {
                if before.checkpoint is None || (
                before.checkpoint->0).symbol_metadata_refreshed_at != Some(time) {
                    assert(refreshes_symbols(events[events.len() - 1], account_id, time));
                }
            }
            if let Some(time) = after.pending_commands_reconciled_at {
                if before.checkpoint is None || (
                before.checkpoint->0).pending_commands_reconciled_at != Some(time) {
                    assert(settles_commands(events[events.len() - 1], account_id, time));
                }
            }
        }
    }
}

/// A stored row is that of a member of a full set, with the newest observation
/// under its name.
pub open spec fn is_row_of(
    kind: FullSetKind,
    row: SetMemberRow,
    account_id: Seq<char>,
    table: Map<Seq<char>, Latest>,
    members: Map<Seq<char>, Latest>,
) -> bool {
    let member = members[row.id@];
    &&& members.contains_key(row.id@)
    &&& row.set_observed_at == member.observed_at
    &&& row.payload.text@ == member.payload
    &&& json::stored_fault(
        kind.member_name(),
        account_id + ":"@ + row.id@,
        row.payload.text@,
        row.payload.digest@,
    ) is None
    &&& row.value matches Ok(value) && value.account_id@ == account_id && value.id@ == row.id@
        && value.observed_at == row.set_observed_at
    &&& snapshots::kept(row.latest) == latest::seen(table, row.id@)
}

/// A full set as it is stored is the one that is kept: a row for each member, and
/// what is there from its time or before.
pub open spec fn is_set_of(
    kind: FullSetKind,
    stored: StoredFullSet,
    account_id: Seq<char>,
    table: Map<Seq<char>, Latest>,
    members: Map<Seq<char>, Latest>,
    kept: (i64, Seq<char>),
) -> bool {
    &&& forall|i: int|
        0 <= i < stored.rows@.len() ==> is_row_of(
            kind,
            #[trigger] stored.rows@[i],
            account_id,
            table,
            members,
        )
    &&& forall|id: Seq<char>| #[trigger]
        members.contains_key(id) ==> checkpoint::member_ids(stored.rows@).contains(id)
    &&& forall|i: int, j: int|
        0 <= i < j < stored.rows@.len() ==> (#[trigger] stored.rows@[i]).id@ != (
        #[trigger] stored.rows@[j]).id@
    &&& forall|i: int|
        0 <= i < stored.live@.len() ==> table.contains_key((#[trigger] stored.live@[i])@)
            && table[stored.live@[i]@].observed_at <= kept.0
}

proof fn rows_pass(
    kind: FullSetKind,
    rows: Seq<SetMemberRow>,
    account_id: Seq<char>,
    table: Map<Seq<char>, Latest>,
    members: Map<Seq<char>, Latest>,
    kept: (i64, Seq<char>),
)
    requires
        borne_out(table, members, Some(kept)),
        forall|i: int|
            0 <= i < rows.len() ==> is_row_of(
                kind,
                #[trigger] rows[i],
                account_id,
                table,
                members,
            ),
    ensures
        checkpoint::members_fault(kind, account_id, kept.0, rows) is None,
    decreases rows.len(),
{
    if rows.len() > 0 {
        rows_pass(kind, rows.drop_last(), account_id, table, members, kept);
        let row = rows[rows.len() - 1];
        assert(is_row_of(kind, row, account_id, table, members));
        assert(upheld(table, row.id@, members[row.id@], kept.0));
        assert(row.latest is Some);
    }
}

/// Rows of which no two have one name stand by name once they are sorted.
proof fn rows_are_in_order(rows: Seq<SetMemberRow>)
    requires
        forall|i: int, j: int|
            0 <= i < j < rows.len() ==> (#[trigger] rows[i]).id@ != (#[trigger] rows[j]).id@,
    ensures
        text::strictly_sorted(checkpoint::member_ids(listing::sorted(rows))),
        forall|row: SetMemberRow| #[trigger]
            listing::sorted(rows).contains(row) <==> rows.contains(row),
{
    broadcast use vstd::seq_lib::group_to_multiset_ensures;

    let sorted = listing::sorted(rows);
    let ids = checkpoint::member_ids(sorted);
    listing::sorted_is_ordered(rows);
    listing::sorted_is_a_rearrangement(rows);
    assert forall|row: SetMemberRow| #[trigger] sorted.contains(row) <==> rows.contains(row) by {
        assert(sorted.to_multiset().count(row) == rows.to_multiset().count(row));
    }
    assert(rows.no_duplicates());
    rows.lemma_multiset_has_no_duplicates();
    sorted.lemma_multiset_has_no_duplicates_conv();
    assert forall|i: int, j: int| 0 <= i < j < ids.len() implies text::precedes(
        #[trigger] ids[i],
        #[trigger] ids[j],
    ) by {
        assert(!listing::comes_before(sorted[j], sorted[i]));
        assert(sorted.contains(sorted[i]) && sorted.contains(sorted[j]));
        let k = choose|k: int| 0 <= k < rows.len() && rows[k] == sorted[i];
        let m = choose|m: int| 0 <= m < rows.len() && rows[m] == sorted[j];
        assert(k != m);
        if k < m {
            assert(rows[k].id@ != rows[m].id@);
        } else {
            assert(rows[m].id@ != rows[k].id@);
        }
        text::precedes_total(ids[i], ids[j]);
    }
}

/// A full set that is borne out is not refused.
pub proof fn borne_out_sets_pass(
    kind: FullSetKind,
    stored: StoredFullSet,
    account_id: Seq<char>,
    table: Map<Seq<char>, Latest>,
    members: Map<Seq<char>, Latest>,
    kept: (i64, Seq<char>),
)
    requires
        borne_out(table, members, Some(kept)),
        digested(members, Some(kept)),
        is_set_of(kind, stored, account_id, table, members, kept),
    ensures
        checkpoint::membership_fault(
            kind,
            account_id,
            kept.0,
            kept.1,
            stored.rows@,
            text::texts(stored.live@),
        ) is None,
{
    let rows = stored.rows@;
    let sorted = listing::sorted(rows);
    let ids = checkpoint::member_ids(sorted);
    rows_are_in_order(rows);
    assert forall|i: int| 0 <= i < sorted.len() implies is_row_of(
        kind,
        #[trigger] sorted[i],
        account_id,
        table,
        members,
    ) by {
        assert(sorted.contains(sorted[i]));
        let k = choose|k: int| 0 <= k < rows.len() && rows[k] == sorted[i];
        assert(is_row_of(kind, rows[k], account_id, table, members));
    }
    rows_pass(kind, sorted, account_id, table, members, kept);
    assert forall|id: Seq<char>| #[trigger] ids.contains(id) <==> members.contains_key(id) by {
        if ids.contains(id) {
            let k = choose|k: int| 0 <= k < ids.len() && ids[k] == id;
            assert(is_row_of(kind, sorted[k], account_id, table, members));
        }
        if members.contains_key(id) {
            let names = checkpoint::member_ids(rows);
            let k = choose|k: int| 0 <= k < names.len() && names[k] == id;
            assert(sorted.contains(rows[k]));
            let m = choose|m: int| 0 <= m < sorted.len() && sorted[m] == rows[k];
            assert(ids[m] == id);
        }
    }
    assert(names_of(ids, members));
    assert(checkpoint::row_texts(sorted) =~= texts_of(ids, members)) by {
        assert forall|i: int| 0 <= i < sorted.len() implies #[trigger] checkpoint::row_texts(
            sorted,
        )[i] == texts_of(ids, members)[i] by {
            assert(is_row_of(kind, sorted[i], account_id, table, members));
            assert(ids[i] == sorted[i].id@);
        }
    }
    let live = text::texts(stored.live@);
    assert forall|i: int| 0 <= i < live.len() implies ids.contains(#[trigger] live[i]) by {
        assert(live[i] == stored.live@[i]@);
        assert(members.contains_key(live[i]));
    }
}

/// The runs that are read for a checkpoint are those of the replayed results
/// that it comes from.
pub open spec fn are_runs_of(
    events: Seq<ReplayedEvent>,
    account_id: Seq<char>,
    checkpoint: Checkpoint,
    source: Option<StoredReconciliationRun>,
    runs: ReadinessRuns,
) -> bool {
    &&& forall|i: int|
        0 <= i < events.len() && is_source(#[trigger] events[i], account_id, checkpoint)
            ==> source == events[i].run
    &&& checkpoint.account_refreshed_at matches Some(time) ==> forall|i: int|
        0 <= i < events.len() && refreshes_account(#[trigger] events[i], account_id, time)
            ==> runs.account@.contains(events[i].run->0)
    &&& checkpoint.symbol_metadata_refreshed_at matches Some(time) ==> forall|i: int|
        0 <= i < events.len() && refreshes_symbols(#[trigger] events[i], account_id, time)
            ==> runs.symbols@.contains(events[i].run->0)
    &&& checkpoint.pending_commands_reconciled_at matches Some(time) ==> forall|i: int|
        0 <= i < events.len() && settles_commands(#[trigger] events[i], account_id, time)
            ==> runs.commands@.contains(events[i].run->0)
}

proof fn replayed_without_fault(events: Seq<ReplayedEvent>, i: int)
    requires
        rebuild::replay_fault(events) is None,
        0 <= i < events.len(),
    ensures
        rebuild::replayed_fault(events[i]) is None,
        is_result(events[i], rebuild::touched(events[i])) ==> reconciliation::set_fault(
            (events[i].result->Ok_0).positions@,
        ) is None && reconciliation::set_fault((events[i].result->Ok_0).orders@) is None,
    decreases events.len(),
{
    if i < events.len() - 1 {
        replayed_without_fault(events.drop_last(), i);
    }
}

/// The checkpoint of a rebuilt account is not refused when it is read back.
pub proof fn rebuilt_checkpoints_pass(
    events: Seq<ReplayedEvent>,
    account_id: Seq<char>,
    source: Option<StoredReconciliationRun>,
    runs: ReadinessRuns,
    positions: StoredFullSet,
    orders: StoredFullSet,
)
    requires
        rebuild::replay_fault(events) is None,
        all_committed(events, account_id),
        rebuild::known(events, account_id).checkpoint is Some,
        ({
            let state = rebuild::known(events, account_id);
            let checkpoint = state.checkpoint->0;
            &&& are_runs_of(events, account_id, checkpoint, source, runs)
            &&& is_set_of(
                FullSetKind::Positions,
                positions,
                account_id,
                state.positions,
                state.position_members,
                (checkpoint.positions_observed_at, checkpoint.positions_set_hash),
            )
            &&& is_set_of(
                FullSetKind::Orders,
                orders,
                account_id,
                state.orders,
                state.order_members,
                (checkpoint.orders_observed_at, checkpoint.orders_set_hash),
            )
        }),
    ensures
        checkpoint::checkpoint_fault(
            rebuild::known(events, account_id).checkpoint->0,
            source,
            runs,
            positions,
            orders,
        ) is None,
{
    let state = rebuild::known(events, account_id);
    let checkpoint = state.checkpoint->0;
    rebuilt_accounts_are_intact(events, account_id);
    rebuilt_checkpoints_are_sourced(events, account_id);
    borne_out_sets_pass(
        FullSetKind::Positions,
        positions,
        account_id,
        state.positions,
        state.position_members,
        (checkpoint.positions_observed_at, checkpoint.positions_set_hash),
    );
    borne_out_sets_pass(
        FullSetKind::Orders,
        orders,
        account_id,
        state.orders,
        state.order_members,
        (checkpoint.orders_observed_at, checkpoint.orders_set_hash),
    );
    let i = choose|i: int|
        0 <= i < events.len() && is_source(#[trigger] events[i], account_id, checkpoint);
    replayed_without_fault(events, i);
    assert(was_committed(events[i]));
    assert(checkpoint::source_fault(checkpoint, source) is None);
    if let Some(time) = checkpoint.account_refreshed_at {
        let i = choose|i: int|
            0 <= i < events.len() && refreshes_account(#[trigger] events[i], account_id, time);
        replayed_without_fault(events, i);
        assert(was_committed(events[i]));
        let k = choose|k: int| 0 <= k < runs.account@.len() && runs.account@[k] == events[i].run->0;
        assert(checkpoint::reports_account(runs.account@[k]));
    }
    if let Some(time) = checkpoint.symbol_metadata_refreshed_at {
        let i = choose|i: int|
            0 <= i < events.len() && refreshes_symbols(#[trigger] events[i], account_id, time);
        replayed_without_fault(events, i);
        let k = choose|k: int| 0 <= k < runs.symbols@.len() && runs.symbols@[k] == events[i].run->0;
        assert(checkpoint::reports_symbols(runs.symbols@[k]));
    }
    if let Some(time) = checkpoint.pending_commands_reconciled_at {
        let i = choose|i: int|
            0 <= i < events.len() && settles_commands(#[trigger] events[i], account_id, time);
        replayed_without_fault(events, i);
        assert(was_committed(events[i]));
        let k = choose|k: int|
            0 <= k < runs.commands@.len() && runs.commands@[k] == events[i].run->0;
        assert(checkpoint::settles_commands(runs.commands@[k]));
    }
}

}
