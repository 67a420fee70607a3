//! Durable facts lead to one state, in whatever order they are replayed.

use vstd::prelude::*;

use crate::checkpoint;
use crate::checkpoint::FullSetDecision;
use crate::evidence;
use crate::evidence::{EvidenceEvent, Fact, MemberKind};
use crate::json;
use crate::latest;
use crate::latest::Latest;
use crate::projection;
use crate::projection::{FullSet, Projected};
use crate::rebuild;
use crate::rebuild::ReplayedEvent;
use crate::reconciliation;
use crate::reconciliation::{ReconciliationResult, RESULT_EVENT_TYPE};
use crate::snapshots::{DurableProjection, Observation, Snapshot};

verus! {

/// What a fact does to a table of the newest observations: it adds one
/// observation, or replaces everything up to its time by a full set.
pub enum TableFact {
    Single(Observation),
    Full(FullSet),
}

/// A fact, with the time at which it is taken over.
pub struct Dated {
    pub fact: TableFact,
    pub at: i64,
}

/// A table of the newest observations, with the time and the digest of the full
/// set that goes with it.
pub struct SetTable {
    pub table: Map<Seq<char>, Latest>,
    pub kept: Option<(i64, Seq<char>)>,
}

/// The time of the full set that is kept.
pub open spec fn watermark(kept: Option<(i64, Seq<char>)>) -> Option<i64> {
    match kept {
        Some((time, _)) => Some(time),
        None => None,
    }
}

/// The table once a fact was taken over.
pub open spec fn table_step(state: SetTable, dated: Dated) -> SetTable {
    match dated.fact {
        TableFact::Single(observation) => SetTable {
            table: projection::set_bound_observed(
                state.table,
                watermark(state.kept),
                observation,
                dated.at,
            ),
            kept: state.kept,
        },
        TableFact::Full(full) => SetTable {
            table: projection::with_full_set(state.table, state.kept, full, dated.at),
            kept: if checkpoint::full_set_decision(full.observed_at, state.kept)
                == FullSetDecision::Applied {
                Some((full.observed_at, full.hash))
            } else {
                state.kept
            },
        },
    }
}

/// The table once facts were taken over, one after the other.
pub open spec fn run(state: SetTable, facts: Seq<Dated>) -> SetTable
    decreases facts.len(),
{
    if facts.len() == 0 {
        state
    } else {
        table_step(run(state, facts.drop_last()), facts.last())
    }
}

/// The table before any fact.
pub open spec fn blank_table() -> SetTable {
    SetTable { table: Map::empty(), kept: None }
}

proof fn run_in_two(state: SetTable, first: Seq<Dated>, second: Seq<Dated>)
    ensures
        run(state, first + second) == run(run(state, first), second),
    decreases second.len(),
{
    if second.len() == 0 {
        assert(first + second =~= first);
    } else {
        assert((first + second).drop_last() =~= first + second.drop_last());
        run_in_two(state, first, second.drop_last());
    }
}

/// The fact is this observation.
pub open spec fn is_single(dated: Dated, id: Seq<char>, time: i64, digest: Seq<char>) -> bool {
    dated.fact matches TableFact::Single(observation) && observation.id == id
        && observation.observed_at == time && json::text_digest(observation.payload) == digest
}

/// The full set holds this member.
pub open spec fn has_member(full: FullSet, id: Seq<char>, digest: Seq<char>) -> bool {
    exists|k: int|
        0 <= k < full.set.len() && (#[trigger] full.set[k]).id@ == id && json::text_digest(
            full.set[k].payload@,
        ) == digest
}

/// The fact is a full set with this member.
pub open spec fn is_member(dated: Dated, id: Seq<char>, time: i64, digest: Seq<char>) -> bool {
    dated.fact matches TableFact::Full(full) && full.observed_at == time && has_member(
        full,
        id,
        digest,
    )
}

/// A full set is of one time, and holds nothing twice.
pub open spec fn sound_set(full: FullSet) -> bool {
    &&& forall|k: int|
        0 <= k < full.set.len() ==> (#[trigger] full.set[k]).observed_at == full.observed_at
    &&& forall|k: int, m: int|
        0 <= k < m < full.set.len() ==> (#[trigger] full.set[k]).id@ != (
        #[trigger] full.set[m]).id@
}

/// Two facts do not contradict each other: two observations of one thing at one
/// time are the same, two full sets for one time hold the same, and a full set
/// holds every observation of its time.
pub open spec fn compatible(a: Dated, b: Dated) -> bool {
    match (a.fact, b.fact) {
        (TableFact::Single(x), TableFact::Single(y)) => x.id == y.id && x.observed_at
            == y.observed_at ==> json::text_digest(x.payload) == json::text_digest(y.payload),
        (TableFact::Single(x), TableFact::Full(y)) => x.observed_at == y.observed_at
            ==> has_member(y, x.id, json::text_digest(x.payload)),
        (TableFact::Full(x), TableFact::Single(y)) => x.observed_at == y.observed_at
            ==> has_member(x, y.id, json::text_digest(y.payload)),
        (TableFact::Full(x), TableFact::Full(y)) => x.observed_at == y.observed_at ==> x.hash
            == y.hash && forall|k: int|
            0 <= k < x.set.len() ==> has_member(
                y,
                (#[trigger] x.set[k]).id@,
                json::text_digest(x.set[k].payload@),
            ),
    }
}

/// No two of the facts contradict each other.
pub open spec fn agree(facts: Seq<Dated>) -> bool {
    &&& forall|i: int|
        0 <= i < facts.len() ==> ((#[trigger] facts[i]).fact matches TableFact::Full(full)
            ==> sound_set(full))
    &&& forall|i: int, j: int|
        0 <= i < facts.len() && 0 <= j < facts.len() ==> compatible(
            #[trigger] facts[i],
            #[trigger] facts[j],
        )
}

/// The full set that is kept is the newest one.
pub open spec fn newest_is_kept(facts: Seq<Dated>, kept: Option<(i64, Seq<char>)>) -> bool {
    match kept {
        None => forall|i: int| 0 <= i < facts.len() ==> (#[trigger] facts[i]).fact is Single,
        Some((time, hash)) => newest_set(facts, time, hash),
    }
}

/// The newest full set is of this time, with this digest.
pub open spec fn newest_set(facts: Seq<Dated>, time: i64, hash: Seq<char>) -> bool {
    &&& exists|i: int| 0 <= i < facts.len() && #[trigger] is_set(facts[i], time, hash)
    &&& forall|i: int|
        0 <= i < facts.len() ==> ((#[trigger] facts[i]).fact matches TableFact::Full(full)
            ==> full.observed_at <= time)
}

/// The fact is a full set of this time with this digest.
pub open spec fn is_set(dated: Dated, time: i64, hash: Seq<char>) -> bool {
    dated.fact matches TableFact::Full(full) && full.observed_at == time && full.hash == hash
}

/// A time is after the full set that is kept.
pub open spec fn beyond(time: i64, kept: Option<(i64, Seq<char>)>) -> bool {
    kept matches Some((mark, _)) ==> time > mark
}

/// A row comes from an observation after the full set that is kept, or from
/// that full set.
pub open spec fn vouched(
    facts: Seq<Dated>,
    kept: Option<(i64, Seq<char>)>,
    id: Seq<char>,
    row: Latest,
) -> bool {
    ||| beyond(row.observed_at, kept) && exists|i: int|
        0 <= i < facts.len() && #[trigger] is_single(
            facts[i],
            id,
            row.observed_at,
            json::text_digest(row.payload),
        )
    ||| watermark(kept) == Some(row.observed_at) && exists|i: int|
        0 <= i < facts.len() && #[trigger] is_member(
            facts[i],
            id,
            row.observed_at,
            json::text_digest(row.payload),
        )
}

/// Every row comes from a fact.
pub open spec fn rows_vouched(facts: Seq<Dated>, state: SetTable) -> bool {
    forall|id: Seq<char>| #[trigger]
        state.table.contains_key(id) ==> vouched(facts, state.kept, id, state.table[id])
}

/// No observation after the full set that is kept was lost.
pub open spec fn singles_kept(facts: Seq<Dated>, state: SetTable) -> bool {
    forall|i: int|
        0 <= i < facts.len() ==> ((#[trigger] facts[i]).fact matches TableFact::Single(o) ==> beyond(o.observed_at, state.kept) ==> state.table.contains_key(o.id)
            && state.table[o.id].observed_at >= o.observed_at)
}

/// A member of the full set that is kept is in the table.
pub open spec fn member_kept(state: SetTable, full: FullSet, k: int) -> bool {
    state.table.contains_key(full.set[k].id@) && state.table[full.set[k].id@].observed_at
        >= full.observed_at
}

/// No member of the full set that is kept was lost.
pub open spec fn members_kept(facts: Seq<Dated>, state: SetTable) -> bool {
    forall|i: int, k: int|
        0 <= i < facts.len() && ((#[trigger] facts[i]).fact matches TableFact::Full(full)
            && watermark(state.kept) == Some(full.observed_at) && 0 <= k < full.set.len())
            ==> #[trigger] member_kept(state, facts[i].fact->Full_0, k)
}

/// The table is what the facts say.
pub open spec fn told_by(facts: Seq<Dated>, state: SetTable) -> bool {
    &&& newest_is_kept(facts, state.kept)
    &&& rows_vouched(facts, state)
    &&& singles_kept(facts, state)
    &&& members_kept(facts, state)
}

/// What a full set's members do to a table.
pub proof fn members_observed(
    table: Map<Seq<char>, Latest>,
    set: Seq<Snapshot>,
    time: i64,
    updated_at: i64,
)
    requires
        forall|k: int| 0 <= k < set.len() ==> (#[trigger] set[k]).observed_at == time,
        forall|k: int, m: int|
            0 <= k < m < set.len() ==> (#[trigger] set[k]).id@ != (#[trigger] set[m]).id@,
    ensures
        ({
            let after = projection::set_observed(table, set, updated_at);
            &&& forall|k: int|
                0 <= k < set.len() ==> after.contains_key((#[trigger] set[k]).id@) && after[set[
                k].id@] == (if table.contains_key(set[k].id@) && table[set[k].id@].observed_at
                    >= time {
                    table[set[k].id@]
                } else {
                    latest::recorded(set[k]@, updated_at)
                })
            &&& forall|id: Seq<char>|
                !reconciliation::snapshot_ids(set).contains(id) ==> (
                #[trigger] after.contains_key(id) <==> table.contains_key(id)) && after[id]
                    == table[id]
        }),
    decreases set.len(),
{
    let after = projection::set_observed(table, set, updated_at);
    if set.len() > 0 {
        let shorter = set.drop_last();
        let last = set.last();
        let before = projection::set_observed(table, shorter, updated_at);
        members_observed(table, shorter, time, updated_at);
        let ids = reconciliation::snapshot_ids(set);
        let fewer = reconciliation::snapshot_ids(shorter);
        assert(!fewer.contains(last.id@)) by {
            if fewer.contains(last.id@) {
                let k = choose|k: int| 0 <= k < fewer.len() && fewer[k] == last.id@;
                assert(set[k].id@ == last.id@);
                assert(set[set.len() - 1].id@ == last.id@);
            }
        }
        assert(before.contains_key(last.id@) <==> table.contains_key(last.id@));
        assert forall|k: int| 0 <= k < set.len() implies after.contains_key(
            (#[trigger] set[k]).id@,
        ) && after[set[k].id@] == (if table.contains_key(set[k].id@) && table[set[
        k].id@].observed_at >= time {
            table[set[k].id@]
        } else {
            latest::recorded(set[k]@, updated_at)
        }) by {
            if k < set.len() - 1 {
                assert(shorter[k] == set[k]);
                assert(set[k].id@ != set[set.len() - 1].id@);
            } else {
                assert(set[k] == last);
            }
        }
        assert forall|id: Seq<char>| !ids.contains(id) implies (#[trigger] after.contains_key(id)
            <==> table.contains_key(id)) && after[id] == table[id] by {
            assert(!fewer.contains(id)) by {
                if fewer.contains(id) {
                    let k = choose|k: int| 0 <= k < fewer.len() && fewer[k] == id;
                    assert(ids[k] == id);
                }
            }
            assert(ids[set.len() - 1] == last.id@);
            assert(before.contains_key(id) <==> table.contains_key(id));
        }
    }
}

proof fn single_keeps(facts: Seq<Dated>, state: SetTable, dated: Dated)
    requires
        told_by(facts, state),
        dated.fact is Single,
    ensures
        told_by(facts.push(dated), table_step(state, dated)),
{
    let o = dated.fact->Single_0;
    let after = table_step(state, dated);
    let all = facts.push(dated);
    let last = facts.len() as int;
    assert(all[last] == dated);
    assert forall|i: int| 0 <= i < facts.len() implies #[trigger] all[i] == facts[i] by {}
    assert(newest_is_kept(all, after.kept)) by {
        if state.kept is Some {
            let (time, hash) = state.kept->0;
            let i = choose|i: int| 0 <= i < facts.len() && #[trigger] is_set(facts[i], time, hash);
            assert(is_set(all[i], time, hash));
        }
    }
    assert forall|id: Seq<char>| #[trigger] after.table.contains_key(id) implies vouched(
        all,
        after.kept,
        id,
        after.table[id],
    ) by {
        let row = after.table[id];
        if state.table.contains_key(id) && state.table[id] == row {
            vouched_stays(facts, dated, state.kept, id, row);
        } else {
            assert(is_single(all[last], id, row.observed_at, json::text_digest(row.payload)));
        }
    }
    assert forall|i: int| 0 <= i < all.len() implies ((#[trigger] all[i]).fact matches
    TableFact::Single(x) ==> beyond(x.observed_at, after.kept) ==> after.table.contains_key(x.id)
        && after.table[x.id].observed_at >= x.observed_at) by {
        if i < facts.len() {
            assert(all[i] == facts[i]);
        }
    }
    assert forall|i: int, k: int|
        0 <= i < all.len() && ((#[trigger] all[i]).fact matches TableFact::Full(full)
            && watermark(after.kept) == Some(full.observed_at) && 0 <= k < full.set.len())
        implies #[trigger] member_kept(after, all[i].fact->Full_0, k) by {
        assert(all[i] == facts[i]);
        assert(member_kept(state, facts[i].fact->Full_0, k));
    }
}

proof fn vouched_stays(
    facts: Seq<Dated>,
    dated: Dated,
    kept: Option<(i64, Seq<char>)>,
    id: Seq<char>,
    row: Latest,
)
    requires
        vouched(facts, kept, id, row),
    ensures
        vouched(facts.push(dated), kept, id, row),
{
    let all = facts.push(dated);
    let digest = json::text_digest(row.payload);
    if beyond(row.observed_at, kept) && exists|i: int|
        0 <= i < facts.len() && #[trigger] is_single(facts[i], id, row.observed_at, digest) {
        let i = choose|i: int|
            0 <= i < facts.len() && #[trigger] is_single(facts[i], id, row.observed_at, digest);
        assert(all[i] == facts[i]);
        assert(is_single(all[i], id, row.observed_at, digest));
    } else {
        let i = choose|i: int|
            0 <= i < facts.len() && #[trigger] is_member(facts[i], id, row.observed_at, digest);
        assert(all[i] == facts[i]);
        assert(is_member(all[i], id, row.observed_at, digest));
    }
}

proof fn older_full_keeps(facts: Seq<Dated>, state: SetTable, dated: Dated)
    requires
        told_by(facts, state),
        agree(facts.push(dated)),
        dated.fact is Full,
        checkpoint::full_set_decision((dated.fact->Full_0).observed_at, state.kept)
            != FullSetDecision::Applied,
    ensures
        told_by(facts.push(dated), table_step(state, dated)),
{
    let full = dated.fact->Full_0;
    let all = facts.push(dated);
    let last = facts.len() as int;
    assert(all[last] == dated);
    assert forall|i: int| 0 <= i < facts.len() implies #[trigger] all[i] == facts[i] by {}
    let (time, hash) = state.kept->0;
    let w = choose|w: int| 0 <= w < facts.len() && #[trigger] is_set(facts[w], time, hash);
    assert(is_set(all[w], time, hash));
    assert(newest_is_kept(all, state.kept));
    assert forall|id: Seq<char>| #[trigger] state.table.contains_key(id) implies vouched(
        all,
        state.kept,
        id,
        state.table[id],
    ) by {
        vouched_stays(facts, dated, state.kept, id, state.table[id]);
    }
    assert forall|i: int| 0 <= i < all.len() implies ((#[trigger] all[i]).fact matches
    TableFact::Single(x) ==> beyond(x.observed_at, state.kept) ==> state.table.contains_key(x.id)
        && state.table[x.id].observed_at >= x.observed_at) by {
        if i < facts.len() {
            assert(all[i] == facts[i]);
        }
    }
    assert forall|i: int, k: int|
        0 <= i < all.len() && ((#[trigger] all[i]).fact matches TableFact::Full(other)
            && watermark(state.kept) == Some(other.observed_at) && 0 <= k < other.set.len())
        implies #[trigger] member_kept(state, all[i].fact->Full_0, k) by {
        if i < facts.len() {
            assert(all[i] == facts[i]);
            assert(member_kept(state, facts[i].fact->Full_0, k));
        } else {
            let kept_set = facts[w].fact->Full_0;
            assert(compatible(all[last], all[w]));
            assert(has_member(
                kept_set,
                full.set[k].id@,
                json::text_digest(full.set[k].payload@),
            ));
            let m = choose|m: int|
                0 <= m < kept_set.set.len() && (#[trigger] kept_set.set[m]).id@
                    == full.set[k].id@ && json::text_digest(kept_set.set[m].payload@)
                    == json::text_digest(full.set[k].payload@);
            assert(member_kept(state, facts[w].fact->Full_0, m));
        }
    }
}

proof fn newer_full_keeps(facts: Seq<Dated>, state: SetTable, dated: Dated)
    requires
        told_by(facts, state),
        agree(facts.push(dated)),
        dated.fact is Full,
        checkpoint::full_set_decision((dated.fact->Full_0).observed_at, state.kept)
            == FullSetDecision::Applied,
    ensures
        told_by(facts.push(dated), table_step(state, dated)),
{
    let full = dated.fact->Full_0;
    let time = full.observed_at;
    let all = facts.push(dated);
    let last = facts.len() as int;
    let after = table_step(state, dated);
    assert(all[last] == dated);
    assert forall|i: int| 0 <= i < facts.len() implies #[trigger] all[i] == facts[i] by {}
    assert(sound_set(full));
    let ids = reconciliation::snapshot_ids(full.set);
    let seen = projection::set_observed(state.table, full.set, dated.at);
    members_observed(state.table, full.set, time, dated.at);
    assert(after.table == latest::left_by_set(seen, time, ids));
    assert(is_set(all[last], time, full.hash));
    assert(newest_set(all, time, full.hash)) by {
        assert forall|i: int| 0 <= i < all.len() implies ((#[trigger] all[i]).fact matches
        TableFact::Full(other) ==> other.observed_at <= time) by {
            if i < facts.len() {
                assert(all[i] == facts[i]);
            }
        }
    }
    assert forall|id: Seq<char>| #[trigger] after.table.contains_key(id) implies vouched(
        all,
        after.kept,
        id,
        after.table[id],
    ) by {
        let row = after.table[id];
        let digest = json::text_digest(row.payload);
        if ids.contains(id) {
            let k = choose|k: int| 0 <= k < ids.len() && ids[k] == id;
            assert(full.set[k].id@ == id);
            if state.table.contains_key(id) && state.table[id].observed_at >= time {
                assert(row == state.table[id]);
                newer_row(facts, state, dated, id);
            } else {
                assert(row == latest::recorded(full.set[k]@, dated.at));
                assert(has_member(full, id, digest));
                assert(is_member(all[last], id, row.observed_at, digest));
            }
        } else {
            assert(seen.contains_key(id));
            assert(row == state.table[id]);
            newer_row(facts, state, dated, id);
        }
    }
    assert forall|i: int| 0 <= i < all.len() implies ((#[trigger] all[i]).fact matches
    TableFact::Single(x) ==> beyond(x.observed_at, after.kept) ==> after.table.contains_key(x.id)
        && after.table[x.id].observed_at >= x.observed_at) by {
        if i < facts.len() && facts[i].fact is Single {
            let x = facts[i].fact->Single_0;
            assert(all[i] == facts[i]);
            if x.observed_at > time {
                assert(beyond(x.observed_at, state.kept));
                assert(state.table.contains_key(x.id));
                if ids.contains(x.id) {
                    let k = choose|k: int| 0 <= k < ids.len() && ids[k] == x.id;
                    assert(full.set[k].id@ == x.id);
                }
                assert(seen.contains_key(x.id));
            }
        }
    }
    assert forall|i: int, k: int|
        0 <= i < all.len() && ((#[trigger] all[i]).fact matches TableFact::Full(other)
            && watermark(after.kept) == Some(other.observed_at) && 0 <= k < other.set.len())
        implies #[trigger] member_kept(after, all[i].fact->Full_0, k) by {
        if i < facts.len() {
            assert(all[i] == facts[i]);
            assert(false);
        } else {
            assert(ids[k] == full.set[k].id@);
            assert(seen.contains_key(full.set[k].id@));
        }
    }
}

/// A row that is not older than a newer full set comes from an observation
/// after it, or is a member of it.
proof fn newer_row(facts: Seq<Dated>, state: SetTable, dated: Dated, id: Seq<char>)
    requires
        told_by(facts, state),
        agree(facts.push(dated)),
        dated.fact matches TableFact::Full(full) && checkpoint::full_set_decision(
            full.observed_at,
            state.kept,
        ) == FullSetDecision::Applied && state.table.contains_key(id)
            && state.table[id].observed_at >= full.observed_at,
    ensures
        ({
            let full = dated.fact->Full_0;
            vouched(
                facts.push(dated),
                Some((full.observed_at, full.hash)),
                id,
                state.table[id],
            )
        }),
{
    let full = dated.fact->Full_0;
    let row = state.table[id];
    let digest = json::text_digest(row.payload);
    let all = facts.push(dated);
    let last = facts.len() as int;
    assert(vouched(facts, state.kept, id, row));
    assert(exists|i: int|
        0 <= i < facts.len() && #[trigger] is_single(facts[i], id, row.observed_at, digest));
    let i = choose|i: int|
        0 <= i < facts.len() && #[trigger] is_single(facts[i], id, row.observed_at, digest);
    assert(all[i] == facts[i]);
    assert(all[last] == dated);
    assert(is_single(all[i], id, row.observed_at, digest));
    if row.observed_at == full.observed_at {
        assert(compatible(all[i], all[last]));
        assert(is_member(all[last], id, row.observed_at, digest));
    }
}

proof fn fewer_agree(facts: Seq<Dated>)
    requires
        agree(facts),
        facts.len() > 0,
    ensures
        agree(facts.drop_last()),
{
    let shorter = facts.drop_last();
    assert forall|i: int| 0 <= i < shorter.len() implies ((#[trigger] shorter[i]).fact matches
    TableFact::Full(full) ==> sound_set(full)) by {
        assert(shorter[i] == facts[i]);
    }
    assert forall|i: int, j: int| 0 <= i < shorter.len() && 0 <= j < shorter.len()
        implies compatible(#[trigger] shorter[i], #[trigger] shorter[j]) by {
        assert(compatible(facts[i], facts[j]));
    }
}

/// The table that facts lead to is what they say.
pub proof fn run_is_told(facts: Seq<Dated>)
    requires
        agree(facts),
    ensures
        told_by(facts, run(blank_table(), facts)),
    decreases facts.len(),
{
    if facts.len() > 0 {
        let shorter = facts.drop_last();
        let last = facts.last();
        let before = run(blank_table(), shorter);
        fewer_agree(facts);
        run_is_told(shorter);
        assert(shorter.push(last) =~= facts);
        match last.fact {
            TableFact::Single(_) => single_keeps(shorter, before, last),
            TableFact::Full(full) => {
                if checkpoint::full_set_decision(full.observed_at, before.kept)
                    == FullSetDecision::Applied {
                    newer_full_keeps(shorter, before, last);
                } else {
                    older_full_keeps(shorter, before, last);
                }
            },
        }
    }
}

/// The same facts, in whatever order and however often.
pub open spec fn same_facts(a: Seq<Dated>, b: Seq<Dated>) -> bool {
    &&& forall|i: int| 0 <= i < a.len() ==> holds_fact(b, (#[trigger] a[i]).fact)
    &&& forall|i: int| 0 <= i < b.len() ==> holds_fact(a, (#[trigger] b[i]).fact)
}

/// The fact is among others.
pub open spec fn holds_fact(facts: Seq<Dated>, fact: TableFact) -> bool {
    exists|i: int| 0 <= i < facts.len() && (#[trigger] facts[i]).fact == fact
}

proof fn same_agreement(a: Seq<Dated>, b: Seq<Dated>)
    requires
        same_facts(a, b),
        agree(a),
    ensures
        agree(b),
{
    assert forall|i: int| 0 <= i < b.len() implies ((#[trigger] b[i]).fact matches
    TableFact::Full(full) ==> sound_set(full)) by {
        assert(holds_fact(a, b[i].fact));
    }
    assert forall|i: int, j: int| 0 <= i < b.len() && 0 <= j < b.len() implies compatible(
        #[trigger] b[i],
        #[trigger] b[j],
    ) by {
        assert(holds_fact(a, b[i].fact) && holds_fact(a, b[j].fact));
        let k = choose|k: int| 0 <= k < a.len() && (#[trigger] a[k]).fact == b[i].fact;
        let m = choose|m: int| 0 <= m < a.len() && (#[trigger] a[m]).fact == b[j].fact;
        assert(compatible(a[k], a[m]));
    }
}

proof fn same_kept(a: Seq<Dated>, b: Seq<Dated>, x: SetTable, y: SetTable)
    requires
        same_facts(a, b),
        agree(a),
        newest_is_kept(a, x.kept),
        newest_is_kept(b, y.kept),
    ensures
        x.kept == y.kept,
{
    if x.kept is Some {
        let (time, hash) = x.kept->0;
        let i = choose|i: int| 0 <= i < a.len() && #[trigger] is_set(a[i], time, hash);
        assert(holds_fact(b, a[i].fact));
        let j = choose|j: int| 0 <= j < b.len() && (#[trigger] b[j]).fact == a[i].fact;
        assert(!(b[j].fact is Single));
        assert(y.kept is Some);
        let (other, digest) = y.kept->0;
        let k = choose|k: int| 0 <= k < b.len() && #[trigger] is_set(b[k], other, digest);
        assert(holds_fact(a, b[k].fact));
        let m = choose|m: int| 0 <= m < a.len() && (#[trigger] a[m]).fact == b[k].fact;
        assert(time <= other);
        assert(other <= time);
        assert(compatible(a[i], a[m]));
    } else if y.kept is Some {
        let (other, digest) = y.kept->0;
        let k = choose|k: int| 0 <= k < b.len() && #[trigger] is_set(b[k], other, digest);
        assert(holds_fact(a, b[k].fact));
        let m = choose|m: int| 0 <= m < a.len() && (#[trigger] a[m]).fact == b[k].fact;
        assert(!(a[m].fact is Single));
    }
}

/// What one table holds, the other holds for the same or a later time.
proof fn row_is_matched(
    a: Seq<Dated>,
    b: Seq<Dated>,
    x: SetTable,
    y: SetTable,
    id: Seq<char>,
)
    requires
        same_facts(a, b),
        told_by(a, x),
        told_by(b, y),
        x.kept == y.kept,
        x.table.contains_key(id),
    ensures
        y.table.contains_key(id),
        y.table[id].observed_at >= x.table[id].observed_at,
{
    let row = x.table[id];
    let digest = json::text_digest(row.payload);
    assert(vouched(a, x.kept, id, row));
    if beyond(row.observed_at, x.kept) && exists|i: int|
        0 <= i < a.len() && #[trigger] is_single(a[i], id, row.observed_at, digest) {
        let i = choose|i: int|
            0 <= i < a.len() && #[trigger] is_single(a[i], id, row.observed_at, digest);
        assert(holds_fact(b, a[i].fact));
        let j = choose|j: int| 0 <= j < b.len() && (#[trigger] b[j]).fact == a[i].fact;
        assert(b[j].fact matches TableFact::Single(o) && o.id == id);
    } else {
        let i = choose|i: int|
            0 <= i < a.len() && #[trigger] is_member(a[i], id, row.observed_at, digest);
        assert(holds_fact(b, a[i].fact));
        let j = choose|j: int| 0 <= j < b.len() && (#[trigger] b[j]).fact == a[i].fact;
        let full = b[j].fact->Full_0;
        let k = choose|k: int|
            0 <= k < full.set.len() && (#[trigger] full.set[k]).id@ == id && json::text_digest(
                full.set[k].payload@,
            ) == digest;
        assert(member_kept(y, b[j].fact->Full_0, k));
    }
}

proof fn same_row(
    a: Seq<Dated>,
    b: Seq<Dated>,
    x: SetTable,
    y: SetTable,
    id: Seq<char>,
)
    requires
        agree(a),
        same_facts(a, b),
        told_by(a, x),
        told_by(b, y),
        x.kept == y.kept,
        x.table.contains_key(id),
        y.table.contains_key(id),
        x.table[id].observed_at == y.table[id].observed_at,
    ensures
        json::text_digest(x.table[id].payload) == json::text_digest(y.table[id].payload),
{
    let row = x.table[id];
    let other = y.table[id];
    let time = row.observed_at;
    let left = json::text_digest(row.payload);
    let right = json::text_digest(other.payload);
    assert(vouched(a, x.kept, id, row));
    assert(vouched(b, y.kept, id, other));
    if beyond(time, x.kept) {
        let i = choose|i: int| 0 <= i < a.len() && #[trigger] is_single(a[i], id, time, left);
        let j = choose|j: int| 0 <= j < b.len() && #[trigger] is_single(b[j], id, time, right);
        assert(holds_fact(a, b[j].fact));
        let m = choose|m: int| 0 <= m < a.len() && (#[trigger] a[m]).fact == b[j].fact;
        assert(compatible(a[i], a[m]));
    } else {
        let i = choose|i: int| 0 <= i < a.len() && #[trigger] is_member(a[i], id, time, left);
        let j = choose|j: int| 0 <= j < b.len() && #[trigger] is_member(b[j], id, time, right);
        assert(holds_fact(a, b[j].fact));
        let m = choose|m: int| 0 <= m < a.len() && (#[trigger] a[m]).fact == b[j].fact;
        let first = a[i].fact->Full_0;
        let second = a[m].fact->Full_0;
        assert(compatible(a[i], a[m]));
        let k = choose|k: int|
            0 <= k < first.set.len() && (#[trigger] first.set[k]).id@ == id
                && json::text_digest(first.set[k].payload@) == left;
        assert(has_member(second, first.set[k].id@, left));
        let n = choose|n: int|
            0 <= n < second.set.len() && (#[trigger] second.set[n]).id@ == id
                && json::text_digest(second.set[n].payload@) == left;
        let p = choose|p: int|
            0 <= p < second.set.len() && (#[trigger] second.set[p]).id@ == id
                && json::text_digest(second.set[p].payload@) == right;
        assert(sound_set(second));
        if n < p {
            assert(second.set[n].id@ != second.set[p].id@);
        }
        if p < n {
            assert(second.set[p].id@ != second.set[n].id@);
        }
    }
}

/// Facts that do not contradict each other lead to the same table, in whatever
/// order and however often they are taken over: the same things are in it, for
/// the same times and with the same digests.
pub proof fn order_is_immaterial(a: Seq<Dated>, b: Seq<Dated>, id: Seq<char>)
    requires
        same_facts(a, b),
        agree(a),
    ensures
        run(blank_table(), a).kept == run(blank_table(), b).kept,
        latest::seen(run(blank_table(), a).table, id) == latest::seen(
            run(blank_table(), b).table,
            id,
        ),
{
    let x = run(blank_table(), a);
    let y = run(blank_table(), b);
    same_agreement(a, b);
    run_is_told(a);
    run_is_told(b);
    same_kept(a, b, x, y);
    if x.table.contains_key(id) {
        row_is_matched(a, b, x, y, id);
        row_is_matched(b, a, y, x, id);
        same_row(a, b, x, y, id);
    } else if y.table.contains_key(id) {
        row_is_matched(b, a, y, x, id);
    }
}

/// The tables in which the newest observations of an account are kept.
pub enum Kept {
    Account,
    Symbols,
    Positions,
    Orders,
}

/// A table of what is known of an account.
pub open spec fn kept_table(kept: Kept, state: Projected) -> SetTable {
    match kept {
        Kept::Account => SetTable { table: state.account, kept: None },
        Kept::Symbols => SetTable { table: state.symbols, kept: None },
        Kept::Positions => SetTable {
            table: state.positions,
            kept: projection::kept_positions(state),
        },
        Kept::Orders => SetTable { table: state.orders, kept: projection::kept_orders(state) },
    }
}

/// The table in which an observation is kept.
pub open spec fn is_kept_in(kept: Kept, kind: DurableProjection) -> bool {
    match kind {
        DurableProjection::Account => kept is Account,
        DurableProjection::Symbol => kept is Symbols,
        DurableProjection::Position => kept is Positions,
        DurableProjection::Order => kept is Orders,
        DurableProjection::MarketBar => false,
    }
}

/// Observations, as facts.
pub open spec fn singles(list: Seq<Snapshot>, at: i64) -> Seq<Dated> {
    Seq::new(list.len(), |i: int| Dated { fact: TableFact::Single(list[i]@), at })
}

/// What a replayed event says of a table.
pub open spec fn facts_of(kept: Kept, replayed: ReplayedEvent) -> Seq<Dated> {
    let metadata = (replayed.event->0).metadata;
    let at = metadata.received_at;
    let result = replayed.result->Ok_0;
    match rebuild::snapshot_type(metadata.event_type@) {
        Some(kind) => if is_kept_in(kept, kind) {
            seq![Dated { fact: TableFact::Single((replayed.snapshot->Ok_0)@), at }]
        } else {
            Seq::empty()
        },
        None => if metadata.event_type@ == RESULT_EVENT_TYPE@ {
            match kept {
                Kept::Account => match result.account {
                    Some(account) => seq![Dated { fact: TableFact::Single(account@), at }],
                    None => Seq::empty(),
                },
                Kept::Symbols => singles(result.symbol_metadata@, at),
                Kept::Positions => seq![
                    Dated { fact: TableFact::Full(projection::positions_of(result)), at },
                ],
                Kept::Orders => seq![
                    Dated { fact: TableFact::Full(projection::orders_of(result)), at },
                ],
            }
        } else {
            Seq::empty()
        },
    }
}

/// A replayed event speaks of an account.
pub open spec fn speaks_of(replayed: ReplayedEvent, account_id: Seq<char>) -> bool {
    rebuild::touches(replayed) && rebuild::touched(replayed) == account_id
}

/// What replayed events say of a table of an account, in their order.
pub open spec fn facts_in(
    kept: Kept,
    events: Seq<ReplayedEvent>,
    account_id: Seq<char>,
) -> Seq<Dated>
    decreases events.len(),
{
    if events.len() == 0 {
        Seq::empty()
    } else {
        let before = facts_in(kept, events.drop_last(), account_id);
        if speaks_of(events.last(), account_id) {
            before + facts_of(kept, events.last())
        } else {
            before
        }
    }
}

proof fn one_fact(state: SetTable, dated: Dated)
    ensures
        run(state, seq![dated]) == table_step(state, dated),
{
    assert(seq![dated].drop_last() =~= Seq::<Dated>::empty());
    assert(run(state, Seq::<Dated>::empty()) == state);
}

proof fn singles_are_observed(state: SetTable, list: Seq<Snapshot>, at: i64)
    requires
        state.kept is None,
    ensures
        run(state, singles(list, at)) == (SetTable {
            table: projection::set_observed(state.table, list, at),
            kept: None,
        }),
    decreases list.len(),
{
    if list.len() > 0 {
        assert(singles(list, at).drop_last() =~= singles(list.drop_last(), at));
        singles_are_observed(state, list.drop_last(), at);
    }
}

proof fn step_is_told(kept: Kept, state: Projected, replayed: ReplayedEvent)
    ensures
        kept_table(kept, rebuild::step(state, replayed)) == run(
            kept_table(kept, state),
            facts_of(kept, replayed),
        ),
{
    let table = kept_table(kept, state);
    let facts = facts_of(kept, replayed);
    if facts.len() == 1 {
        assert(facts =~= seq![facts[0]]);
        one_fact(table, facts[0]);
    }
    if kept is Symbols {
        singles_are_observed(
            table,
            (replayed.result->Ok_0).symbol_metadata@,
            (replayed.event->0).metadata.received_at,
        );
    }
}

/// What is known of an account is what the events say of it.
pub proof fn known_is_told(kept: Kept, events: Seq<ReplayedEvent>, account_id: Seq<char>)
    ensures
        kept_table(kept, rebuild::known(events, account_id)) == run(
            blank_table(),
            facts_in(kept, events, account_id),
        ),
    decreases events.len(),
{
    if events.len() > 0 {
        known_is_told(kept, events.drop_last(), account_id);
        if speaks_of(events.last(), account_id) {
            step_is_told(
                kept,
                rebuild::known(events.drop_last(), account_id),
                events.last(),
            );
            run_in_two(
                blank_table(),
                facts_in(kept, events.drop_last(), account_id),
                facts_of(kept, events.last()),
            );
        }
    }
}

/// The same events, in whatever order and however often.
pub open spec fn same_events(a: Seq<ReplayedEvent>, b: Seq<ReplayedEvent>) -> bool {
    &&& forall|i: int| 0 <= i < a.len() ==> b.contains(#[trigger] a[i])
    &&& forall|i: int| 0 <= i < b.len() ==> a.contains(#[trigger] b[i])
}

proof fn fact_has_event(
    kept: Kept,
    events: Seq<ReplayedEvent>,
    account_id: Seq<char>,
    i: int,
) -> (r: (int, int))
    requires
        0 <= i < facts_in(kept, events, account_id).len(),
    ensures
        0 <= r.0 < events.len(),
        speaks_of(events[r.0], account_id),
        0 <= r.1 < facts_of(kept, events[r.0]).len(),
        facts_of(kept, events[r.0])[r.1] == facts_in(kept, events, account_id)[i],
    decreases events.len(),
{
    let before = facts_in(kept, events.drop_last(), account_id);
    if i < before.len() {
        let r = fact_has_event(kept, events.drop_last(), account_id, i);
        assert(events.drop_last()[r.0] == events[r.0]);
        r
    } else {
        (events.len() - 1, i - before.len())
    }
}

proof fn event_has_fact(
    kept: Kept,
    events: Seq<ReplayedEvent>,
    account_id: Seq<char>,
    n: int,
    k: int,
)
    requires
        0 <= n < events.len(),
        speaks_of(events[n], account_id),
        0 <= k < facts_of(kept, events[n]).len(),
    ensures
        holds_fact(facts_in(kept, events, account_id), facts_of(kept, events[n])[k].fact),
    decreases events.len(),
{
    let before = facts_in(kept, events.drop_last(), account_id);
    let all = facts_in(kept, events, account_id);
    let fact = facts_of(kept, events[n])[k].fact;
    if n < events.len() - 1 {
        assert(events.drop_last()[n] == events[n]);
        event_has_fact(kept, events.drop_last(), account_id, n, k);
        let i = choose|i: int| 0 <= i < before.len() && (#[trigger] before[i]).fact == fact;
        assert(all[i].fact == fact);
    } else {
        assert(all[before.len() + k].fact == fact);
    }
}

proof fn facts_are_found(
    kept: Kept,
    a: Seq<ReplayedEvent>,
    b: Seq<ReplayedEvent>,
    account_id: Seq<char>,
)
    requires
        forall|i: int| 0 <= i < a.len() ==> b.contains(#[trigger] a[i]),
    ensures
        forall|i: int|
            0 <= i < facts_in(kept, a, account_id).len() ==> holds_fact(
                facts_in(kept, b, account_id),
                (#[trigger] facts_in(kept, a, account_id)[i]).fact,
            ),
{
    let facts = facts_in(kept, a, account_id);
    assert forall|i: int| 0 <= i < facts.len() implies holds_fact(
        facts_in(kept, b, account_id),
        (#[trigger] facts[i]).fact,
    ) by {
        let (n, k) = fact_has_event(kept, a, account_id, i);
        assert(b.contains(a[n]));
        let m = choose|m: int| 0 <= m < b.len() && b[m] == a[n];
        event_has_fact(kept, b, account_id, m, k);
    }
}

/// Whatever the order in which the same events are replayed, and however often,
/// the same is known of an account in the end: the same things, of the same
/// times and with the same digests, and the same full set. The events must not
/// contradict each other.
pub proof fn replay_order_is_immaterial(
    kept: Kept,
    a: Seq<ReplayedEvent>,
    b: Seq<ReplayedEvent>,
    account_id: Seq<char>,
    id: Seq<char>,
)
    requires
        same_events(a, b),
        agree(facts_in(kept, a, account_id)),
    ensures
        kept_table(kept, rebuild::known(a, account_id)).kept == kept_table(
            kept,
            rebuild::known(b, account_id),
        ).kept,
        latest::seen(kept_table(kept, rebuild::known(a, account_id)).table, id) == latest::seen(
            kept_table(kept, rebuild::known(b, account_id)).table,
            id,
        ),
{
    facts_are_found(kept, a, b, account_id);
    facts_are_found(kept, b, a, account_id);
    known_is_told(kept, a, account_id);
    known_is_told(kept, b, account_id);
    order_is_immaterial(facts_in(kept, a, account_id), facts_in(kept, b, account_id), id);
}

/// The table whose facts are of a kind.
pub open spec fn table_of(kind: MemberKind) -> Kept {
    match kind {
        MemberKind::Position => Kept::Positions,
        MemberKind::Order => Kept::Orders,
    }
}

/// The full set that a result carries, to be taken over.
pub open spec fn full_of(kind: MemberKind, result: ReconciliationResult) -> FullSet {
    match kind {
        MemberKind::Position => projection::positions_of(result),
        MemberKind::Order => projection::orders_of(result),
    }
}

/// A fact comes from a durable event.
pub open spec fn comes_from(kind: MemberKind, fact: TableFact, event: EvidenceEvent) -> bool {
    match fact {
        TableFact::Single(observation) => {
            &&& evidence::is_fact_event(kind, event)
            &&& evidence::fact_of(event) == (Fact {
                observed_at: observation.observed_at,
                id: observation.id,
                hash: json::text_digest(observation.payload),
            })
        },
        TableFact::Full(full) => event.kind is Result && full == full_of(
            kind,
            event.result->Ok_0,
        ),
    }
}

/// Every fact comes from one of the durable events.
pub open spec fn come_from(
    kind: MemberKind,
    facts: Seq<Dated>,
    events: Seq<EvidenceEvent>,
) -> bool {
    forall|i: int|
        0 <= i < facts.len() ==> exists|n: int|
            0 <= n < events.len() && comes_from(kind, (#[trigger] facts[i]).fact, #[trigger] events[n])
}

proof fn source(kind: MemberKind, facts: Seq<Dated>, events: Seq<EvidenceEvent>, i: int) -> (n: int)
    requires
        come_from(kind, facts, events),
        0 <= i < facts.len(),
    ensures
        0 <= n < events.len(),
        comes_from(kind, facts[i].fact, events[n]),
{
    choose|n: int|
        0 <= n < events.len() && comes_from(kind, facts[i].fact, #[trigger] events[n])
}

proof fn member_is_held(kind: MemberKind, result: ReconciliationResult, id: Seq<char>, hash: Seq<char>)
    requires
        evidence::set_of(kind, result).members.contains((id, hash)),
    ensures
        has_member(full_of(kind, result), id, hash),
{
    let members = evidence::set_of(kind, result).members;
    let k = choose|k: int| 0 <= k < members.len() && members[k] == (id, hash);
    assert(full_of(kind, result).set[k].id@ == id);
}

proof fn single_fits_full(
    kind: MemberKind,
    account_id: Seq<char>,
    events: Seq<EvidenceEvent>,
    single: Dated,
    full: Dated,
    n: int,
    m: int,
)
    requires
        evidence::consistency_fault(account_id, events) is None,
        0 <= n < events.len(),
        0 <= m < events.len(),
        single.fact is Single,
        full.fact is Full,
        comes_from(kind, single.fact, events[n]),
        comes_from(kind, full.fact, events[m]),
    ensures
        compatible(single, full),
        compatible(full, single),
{
    let x = single.fact->Single_0;
    let y = full.fact->Full_0;
    if x.observed_at == y.observed_at {
        let i = evidence::fact_event_is_told(kind, events, n);
        let k = evidence::set_event_is_told(kind, events, m);
        evidence::consistent_facts_are_members(kind, account_id, events, i, k);
        member_is_held(kind, events[m].result->Ok_0, x.id, json::text_digest(x.payload));
    }
}

proof fn fulls_fit(
    kind: MemberKind,
    account_id: Seq<char>,
    events: Seq<EvidenceEvent>,
    a: Dated,
    b: Dated,
    n: int,
    m: int,
)
    requires
        evidence::consistency_fault(account_id, events) is None,
        0 <= n < events.len(),
        0 <= m < events.len(),
        a.fact is Full,
        b.fact is Full,
        comes_from(kind, a.fact, events[n]),
        comes_from(kind, b.fact, events[m]),
    ensures
        compatible(a, b),
{
    let x = a.fact->Full_0;
    let y = b.fact->Full_0;
    let left = events[n].result->Ok_0;
    let right = events[m].result->Ok_0;
    if x.observed_at == y.observed_at {
        let i = evidence::set_event_is_told(kind, events, n);
        let j = evidence::set_event_is_told(kind, events, m);
        if i < j {
            evidence::consistent_sets_agree(kind, account_id, events, i, j);
        } else if j < i {
            evidence::consistent_sets_agree(kind, account_id, events, j, i);
        }
        let members = evidence::set_of(kind, left).members;
        assert forall|k: int| 0 <= k < x.set.len() implies has_member(
            y,
            (#[trigger] x.set[k]).id@,
            json::text_digest(x.set[k].payload@),
        ) by {
            assert(members[k] == (x.set[k].id@, json::text_digest(x.set[k].payload@)));
            assert(evidence::set_of(kind, right).members.contains(members[k]));
            member_is_held(kind, right, x.set[k].id@, json::text_digest(x.set[k].payload@));
        }
    }
}

/// Facts from consistent durable events do not contradict each other.
pub proof fn consistent_events_agree(
    kind: MemberKind,
    account_id: Seq<char>,
    events: Seq<EvidenceEvent>,
    facts: Seq<Dated>,
)
    requires
        evidence::consistency_fault(account_id, events) is None,
        come_from(kind, facts, events),
    ensures
        agree(facts),
{
    assert forall|i: int| 0 <= i < facts.len() implies ((#[trigger] facts[i]).fact matches
    TableFact::Full(full) ==> sound_set(full)) by {
        let n = source(kind, facts, events, i);
        if facts[i].fact is Full {
            let result = events[n].result->Ok_0;
            let full = facts[i].fact->Full_0;
            evidence::consistent_sets_are_sound(kind, account_id, events, n);
            assert(full.set == evidence::set_in(kind, result));
            assert(full.observed_at == result.observed_at);
            assert(sound_set(full));
        }
    }
    assert forall|i: int, j: int| 0 <= i < facts.len() && 0 <= j < facts.len() implies compatible(
        #[trigger] facts[i],
        #[trigger] facts[j],
    ) by {
        let n = source(kind, facts, events, i);
        let m = source(kind, facts, events, j);
        match (facts[i].fact, facts[j].fact) {
            (TableFact::Single(x), TableFact::Single(y)) => {
                let p = evidence::fact_event_is_told(kind, events, n);
                let q = evidence::fact_event_is_told(kind, events, m);
                if x.id == y.id && x.observed_at == y.observed_at {
                    if p < q {
                        evidence::consistent_facts_agree(kind, account_id, events, p, q);
                    } else if q < p {
                        evidence::consistent_facts_agree(kind, account_id, events, q, p);
                    }
                }
            },
            (TableFact::Single(_), TableFact::Full(_)) => {
                single_fits_full(kind, account_id, events, facts[i], facts[j], n, m);
            },
            (TableFact::Full(_), TableFact::Single(_)) => {
                single_fits_full(kind, account_id, events, facts[j], facts[i], m, n);
            },
            (TableFact::Full(_), TableFact::Full(_)) => {
                fulls_fit(kind, account_id, events, facts[i], facts[j], n, m);
            },
        }
    }
}

/// Once the durable facts of an account were found to be consistent, the order
/// in which they are replayed does not matter to its positions and orders.
pub proof fn consistent_replays_agree(
    kind: MemberKind,
    account_id: Seq<char>,
    evidence: Seq<EvidenceEvent>,
    a: Seq<ReplayedEvent>,
    b: Seq<ReplayedEvent>,
    id: Seq<char>,
)
    requires
        evidence::consistency_fault(account_id, evidence) is None,
        come_from(kind, facts_in(table_of(kind), a, account_id), evidence),
        same_events(a, b),
    ensures
        latest::seen(kept_table(table_of(kind), rebuild::known(a, account_id)).table, id)
            == latest::seen(kept_table(table_of(kind), rebuild::known(b, account_id)).table, id),
{
    consistent_events_agree(
        kind,
        account_id,
        evidence,
        facts_in(table_of(kind), a, account_id),
    );
    replay_order_is_immaterial(table_of(kind), a, b, account_id, id);
}

}
