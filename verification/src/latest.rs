//! Tables of the newest observations: at most one row for each name.

use vstd::prelude::*;
use vstd::string::*;

use crate::error;
use crate::error::{Fault, StoreError};
use crate::json;
use crate::json::CanonicalJson;
use crate::snapshots;
use crate::snapshots::{classify_latest, ApplyDecision, Observation, Snapshot, SnapshotKind};
use crate::text;
use crate::text::{list_contains, same_text};

verus! {

/// A row of a table of the newest observations.
#[derive(Debug, PartialEq, Eq)]
pub struct LatestRow {
    pub id: String,
    pub symbol: String,
    pub payload: CanonicalJson,
    pub observed_at: i64,
    pub updated_at: i64,
}

/// What a table holds under a name.
pub struct Latest {
    pub symbol: Seq<char>,
    pub payload: Seq<char>,
    pub observed_at: i64,
    pub updated_at: i64,
}

impl View for LatestRow {
    type V = Latest;

    open spec fn view(&self) -> Latest {
        Latest {
            symbol: self.symbol@,
            payload: self.payload@,
            observed_at: self.observed_at,
            updated_at: self.updated_at,
        }
    }
}

/// The names of rows.
pub open spec fn row_ids(rows: Seq<LatestRow>) -> Seq<Seq<char>> {
    Seq::new(rows.len(), |i: int| rows[i].id@)
}

/// What rows hold, each under its name.
pub open spec fn table_of(rows: Seq<LatestRow>) -> Map<Seq<char>, Latest> {
    Map::new(
        |id: Seq<char>| row_ids(rows).contains(id),
        |id: Seq<char>| rows[text::first_index(row_ids(rows), id) as int]@,
    )
}

/// A table of the newest observations.
pub struct LatestTable {
    rows: Vec<LatestRow>,
}

impl View for LatestTable {
    type V = Map<Seq<char>, Latest>;

    closed spec fn view(&self) -> Map<Seq<char>, Latest> {
        table_of(self.rows@)
    }
}

/// What a table holds once the observation is recorded in it.
pub open spec fn recorded(observation: Observation, updated_at: i64) -> Latest {
    Latest {
        symbol: observation.symbol,
        payload: observation.payload,
        observed_at: observation.observed_at,
        updated_at,
    }
}

/// The time and the digest of what a table holds under a name.
pub open spec fn seen(table: Map<Seq<char>, Latest>, id: Seq<char>) -> Option<(i64, Seq<char>)> {
    if table.contains_key(id) {
        Some((table[id].observed_at, json::text_digest(table[id].payload)))
    } else {
        None
    }
}

/// The table holds something else for the time of the observation.
pub open spec fn disputed(table: Map<Seq<char>, Latest>, observation: Observation) -> bool {
    snapshots::contradicts(
        observation.observed_at,
        json::text_digest(observation.payload),
        seen(table, observation.id),
    )
}

/// What an observation does to a table.
pub open spec fn decision(table: Map<Seq<char>, Latest>, observation: Observation) -> ApplyDecision {
    snapshots::latest_decision(observation.observed_at, seen(table, observation.id))
}

/// The table once the observation was made.
pub open spec fn observed(
    table: Map<Seq<char>, Latest>,
    observation: Observation,
    updated_at: i64,
) -> Map<Seq<char>, Latest> {
    if decision(table, observation) == ApplyDecision::Applied {
        table.insert(observation.id, recorded(observation, updated_at))
    } else {
        table
    }
}

/// The fault of an observation that contradicts another.
pub open spec fn dispute(kind: SnapshotKind, observation: Observation) -> Fault {
    snapshots::observation_conflict(
        kind.name(),
        kind.key(observation.account_id, observation.id),
        observation.observed_at,
    )
}

/// The rows of a table that a full set leaves: those of its members, and those
/// that are newer than it.
pub open spec fn left_by_set(
    table: Map<Seq<char>, Latest>,
    observed_at: i64,
    members: Seq<Seq<char>>,
) -> Map<Seq<char>, Latest> {
    Map::new(
        |id: Seq<char>|
            table.contains_key(id) && (table[id].observed_at > observed_at || members.contains(id)),
        |id: Seq<char>| table[id],
    )
}

impl LatestTable {
    /// No name occurs twice.
    #[verifier::type_invariant]
    spec fn one_row_each(self) -> bool {
        row_ids(self.rows@).no_duplicates()
    }

    /// The empty table.
    pub fn new() -> (r: LatestTable)
        ensures
            r@ == Map::<Seq<char>, Latest>::empty(),
    {
        let rows: Vec<LatestRow> = Vec::new();
        assert(table_of(rows@) =~= Map::<Seq<char>, Latest>::empty());
        LatestTable { rows }
    }

    fn place(&self, id: &str) -> (r: usize)
        ensures
            r == text::first_index(row_ids(self.rows@), id@),
            r <= self.rows@.len(),
            r < self.rows@.len() ==> self.rows@[r as int].id@ == id@,
            r < self.rows@.len() <==> self@.contains_key(id@),
            r < self.rows@.len() ==> self@[id@] == self.rows@[r as int]@,
    {
        let ghost ids = row_ids(self.rows@);
        let mut i: usize = 0;
        while i < self.rows.len() && !same_text(self.rows[i].id.as_str(), id)
            invariant
                i <= self.rows.len(),
                ids == row_ids(self.rows@),
                forall|j: int| 0 <= j < i ==> ids[j] != id@,
            decreases self.rows.len() - i,
        {
            i = i + 1;
        }
        proof {
            text::first_index_is(ids, id@, i as int);
            text::first_index_facts(ids, id@);
        }
        i
    }

    /// What the table holds under a name.
    pub fn get(&self, id: &str) -> (r: Option<&LatestRow>)
        ensures
            match r {
                Some(row) => self@.contains_key(id@) && row@ == self@[id@] && row.id@ == id@,
                None => !self@.contains_key(id@),
            },
    {
        let at: usize = self.place(id);
        if at < self.rows.len() {
            Some(&self.rows[at])
        } else {
            None
        }
    }

    /// Records a row in the place of the one with its name.
    pub fn put(&mut self, row: LatestRow)
        ensures
            final(self)@ == old(self)@.insert(row.id@, row@),
    {
        proof {
            use_type_invariant(&*self);
        }
        let ghost before = self.rows@;
        let at: usize = self.place(row.id.as_str());
        let mut rows: Vec<LatestRow> = Vec::new();
        std::mem::swap(&mut rows, &mut self.rows);
        if at < rows.len() {
            rows.set(at, row);
            proof {
                let after = rows@;
                assert(row_ids(after) =~= row_ids(before));
                replaced(before, after, at as int);
            }
        } else {
            rows.push(row);
            proof {
                assert(rows@.drop_last() =~= before);
                added(before, rows@);
            }
        }
        self.rows = rows;
    }

    /// Makes an observation: the newer one stays, and two for one time must
    /// agree.
    pub fn observe(&mut self, kind: SnapshotKind, snapshot: &Snapshot, updated_at: i64) -> (r:
        Result<ApplyDecision, StoreError>)
        ensures
            error::fault(r) == (if disputed(old(self)@, snapshot@) {
                Some(dispute(kind, snapshot@))
            } else {
                None
            }),
            r matches Ok(made) ==> made == decision(old(self)@, snapshot@) && final(self)@
                == observed(old(self)@, snapshot@, updated_at),
            r is Err ==> final(self)@ == old(self)@,
    {
        let existing: Option<(i64, String)> = match self.get(snapshot.id.as_str()) {
            Some(row) => Some((row.observed_at, row.payload.sha256_hex().to_owned())),
            None => None,
        };
        let key = kind.row_key(snapshot.account_id.as_str(), snapshot.id.as_str());
        let decided = classify_latest(
            kind.entity(),
            key,
            snapshot.observed_at,
            snapshot.payload.sha256_hex(),
            existing,
        )?;
        if decided == ApplyDecision::Applied {
            self.put(
                LatestRow {
                    id: snapshot.id.clone(),
                    symbol: snapshot.symbol.clone(),
                    payload: snapshot.payload.clone(),
                    observed_at: snapshot.observed_at,
                    updated_at,
                },
            );
        }
        Ok(decided)
    }

    /// Removes what a full set does not leave.
    pub fn leave_by_set(&mut self, observed_at: i64, members: &Vec<String>)
        ensures
            final(self)@ == left_by_set(old(self)@, observed_at, text::texts(members@)),
    {
        proof {
            use_type_invariant(&*self);
        }
        let ghost before = self.rows@;
        let mut rows: Vec<LatestRow> = Vec::new();
        std::mem::swap(&mut rows, &mut self.rows);
        let mut kept: Vec<LatestRow> = Vec::new();
        proof {
            assert(left_by_set(
                table_of(before.take(0)),
                observed_at,
                text::texts(members@),
            ) =~= table_of(kept@));
        }
        for row in it: rows
            invariant
                it.seq() == before,
                row_ids(before).no_duplicates(),
                row_ids(kept@).no_duplicates(),
                forall|i: int|
                    #![trigger kept@[i]]
                    0 <= i < kept@.len() ==> row_ids(before.take(it.index())).contains(
                        kept@[i].id@,
                    ),
                table_of(kept@) == left_by_set(
                    table_of(before.take(it.index())),
                    observed_at,
                    text::texts(members@),
                ),
        {
            let ghost n = it.index();
            let ghost had = kept@;
            assert(row == before[n]);
            if row.observed_at > observed_at || list_contains(members, row.id.as_str()) {
                proof {
                    kept_row(before, n, had, row, observed_at, text::texts(members@));
                }
                kept.push(row);
            } else {
                proof {
                    dropped_row(before, n, had, observed_at, text::texts(members@));
                }
            }
        }
        assert(before.take(before.len() as int) =~= before);
        self.rows = kept;
    }

    /// The rows.
    pub fn rows(&self) -> (r: &Vec<LatestRow>)
        ensures
            row_ids(r@).no_duplicates(),
            table_of(r@) == self@,
    {
        proof {
            use_type_invariant(self);
        }
        &self.rows
    }
}

proof fn replaced(before: Seq<LatestRow>, after: Seq<LatestRow>, at: int)
    requires
        row_ids(before).no_duplicates(),
        0 <= at < before.len(),
        after == before.update(at, after[at]),
        after[at].id@ == before[at].id@,
    ensures
        row_ids(after).no_duplicates(),
        table_of(after) == table_of(before).insert(after[at].id@, after[at]@),
{
    let ids = row_ids(before);
    assert(row_ids(after) =~= ids);
    let goal = table_of(before).insert(after[at].id@, after[at]@);
    assert forall|id: Seq<char>| #[trigger] table_of(after).contains_key(id) == goal.contains_key(
        id,
    ) by {
        assert(ids[at] == after[at].id@);
    }
    assert forall|id: Seq<char>| table_of(after).contains_key(id) implies #[trigger] table_of(
        after,
    )[id] == goal[id] by {
        text::first_index_facts(ids, id);
        let i = text::first_index(ids, id) as int;
        if id != after[at].id@ {
            assert(i != at);
        } else {
            assert(ids[i] == ids[at]);
            assert(i == at);
        }
    }
    assert(table_of(after) =~= goal);
}

proof fn added(before: Seq<LatestRow>, after: Seq<LatestRow>)
    requires
        row_ids(before).no_duplicates(),
        after.len() == before.len() + 1,
        after.drop_last() == before,
        !row_ids(before).contains(after.last().id@),
    ensures
        row_ids(after).no_duplicates(),
        table_of(after) == table_of(before).insert(after.last().id@, after.last()@),
{
    let ids = row_ids(before);
    let longer = row_ids(after);
    let n = before.len() as int;
    assert forall|i: int| 0 <= i < n implies longer[i] == ids[i] && after[i] == before[i] by {
        assert(after.drop_last()[i] == before[i]);
    }
    assert forall|i: int, j: int| 0 <= i < longer.len() && 0 <= j < longer.len() && i
        != j implies longer[i] != longer[j] by {
        if i < n && j < n {
            assert(ids[i] != ids[j]);
        } else if i < n {
            assert(ids.contains(ids[i]));
        } else {
            assert(ids.contains(ids[j]));
        }
    }
    let goal = table_of(before).insert(after.last().id@, after.last()@);
    assert forall|id: Seq<char>| #[trigger] table_of(after).contains_key(id) == goal.contains_key(
        id,
    ) by {
        if longer.contains(id) {
            let i = choose|i: int| 0 <= i < longer.len() && longer[i] == id;
            if i < n {
                assert(ids[i] == id);
            }
        }
        if ids.contains(id) {
            let i = choose|i: int| 0 <= i < ids.len() && ids[i] == id;
            assert(longer[i] == id);
        }
        assert(longer[n] == after.last().id@);
    }
    assert forall|id: Seq<char>| table_of(after).contains_key(id) implies #[trigger] table_of(
        after,
    )[id] == goal[id] by {
        text::first_index_facts(longer, id);
        let i = text::first_index(longer, id) as int;
        if i < n {
            assert forall|k: int| 0 <= k < i implies ids[k] != id by {
                assert(longer[k] != id);
            }
            text::first_index_is(ids, id, i);
            assert(ids.contains(ids[i]));
        }
    }
    assert(table_of(after) =~= goal);
}

proof fn prefix_table(before: Seq<LatestRow>, n: int)
    requires
        row_ids(before).no_duplicates(),
        0 <= n < before.len(),
    ensures
        row_ids(before.take(n)).no_duplicates(),
        !row_ids(before.take(n)).contains(before[n].id@),
        table_of(before.take(n + 1)) == table_of(before.take(n)).insert(
            before[n].id@,
            before[n]@,
        ),
{
    let ids = row_ids(before);
    let shorter = row_ids(before.take(n));
    assert forall|i: int, j: int| 0 <= i < shorter.len() && 0 <= j < shorter.len() && i
        != j implies shorter[i] != shorter[j] by {
        assert(ids[i] != ids[j]);
    }
    if shorter.contains(before[n].id@) {
        let i = choose|i: int| 0 <= i < shorter.len() && shorter[i] == before[n].id@;
        assert(ids[i] == ids[n]);
    }
    assert(before.take(n + 1).drop_last() =~= before.take(n));
    added(before.take(n), before.take(n + 1));
}

proof fn kept_row(
    before: Seq<LatestRow>,
    n: int,
    had: Seq<LatestRow>,
    row: LatestRow,
    observed_at: i64,
    members: Seq<Seq<char>>,
)
    requires
        row_ids(before).no_duplicates(),
        0 <= n < before.len(),
        row == before[n],
        row.observed_at > observed_at || members.contains(row.id@),
        row_ids(had).no_duplicates(),
        forall|i: int|
            #![trigger had[i]]
            0 <= i < had.len() ==> row_ids(before.take(n)).contains(had[i].id@),
        table_of(had) == left_by_set(table_of(before.take(n)), observed_at, members),
    ensures
        row_ids(had.push(row)).no_duplicates(),
        forall|i: int|
            #![trigger had.push(row)[i]]
            0 <= i < had.push(row).len() ==> row_ids(before.take(n + 1)).contains(
                had.push(row)[i].id@,
            ),
        table_of(had.push(row)) == left_by_set(
            table_of(before.take(n + 1)),
            observed_at,
            members,
        ),
{
    let after = had.push(row);
    prefix_table(before, n);
    let shorter = row_ids(before.take(n));
    let longer = row_ids(before.take(n + 1));
    if row_ids(had).contains(row.id@) {
        let i = choose|i: int| 0 <= i < had.len() && row_ids(had)[i] == row.id@;
        assert(had[i].id@ == row.id@);
    }
    assert(after.drop_last() =~= had);
    added(had, after);
    assert forall|i: int| #![trigger after[i]] 0 <= i < after.len() implies longer.contains(
        after[i].id@,
    ) by {
        if i < had.len() {
            assert(after[i] == had[i]);
            let k = choose|k: int| 0 <= k < shorter.len() && shorter[k] == had[i].id@;
            assert(longer[k] == after[i].id@);
        } else {
            assert(longer[n] == row.id@);
        }
    }
    assert(table_of(after) =~= left_by_set(table_of(before.take(n + 1)), observed_at, members));
}

proof fn dropped_row(
    before: Seq<LatestRow>,
    n: int,
    had: Seq<LatestRow>,
    observed_at: i64,
    members: Seq<Seq<char>>,
)
    requires
        row_ids(before).no_duplicates(),
        0 <= n < before.len(),
        !(before[n].observed_at > observed_at || members.contains(before[n].id@)),
        forall|i: int|
            #![trigger had[i]]
            0 <= i < had.len() ==> row_ids(before.take(n)).contains(had[i].id@),
        table_of(had) == left_by_set(table_of(before.take(n)), observed_at, members),
    ensures
        forall|i: int|
            #![trigger had[i]]
            0 <= i < had.len() ==> row_ids(before.take(n + 1)).contains(had[i].id@),
        table_of(had) == left_by_set(table_of(before.take(n + 1)), observed_at, members),
{
    prefix_table(before, n);
    let shorter = row_ids(before.take(n));
    let longer = row_ids(before.take(n + 1));
    assert forall|i: int| #![trigger had[i]] 0 <= i < had.len() implies longer.contains(
        had[i].id@,
    ) by {
        let k = choose|k: int| 0 <= k < shorter.len() && shorter[k] == had[i].id@;
        assert(longer[k] == had[i].id@);
    }
    let goal = left_by_set(table_of(before.take(n + 1)), observed_at, members);
    assert forall|id: Seq<char>| #[trigger] table_of(had).contains_key(id) == goal.contains_key(
        id,
    ) by {
        if id == before[n].id@ {
            assert(!table_of(before.take(n)).contains_key(id));
        }
    }
    assert(table_of(had) =~= goal);
}

/// The table with rows put into it, one after the other.
pub open spec fn with_rows(rows: Seq<LatestRow>) -> Map<Seq<char>, Latest>
    decreases rows.len(),
{
    if rows.len() == 0 {
        Map::empty()
    } else {
        with_rows(rows.drop_last()).insert(rows.last().id@, rows.last()@)
    }
}

impl LatestTable {
    /// The table with the given rows. Of rows with one name the last one stays.
    pub fn from_rows(rows: Vec<LatestRow>) -> (r: LatestTable)
        ensures
            r@ == with_rows(rows@),
    {
        let ghost all = rows@;
        let mut table = LatestTable::new();
        for row in it: rows
            invariant
                it.seq() == all,
                all == rows@,
                table@ == with_rows(all.take(it.index())),
        {
            assert(row == all[it.index()]);
            assert(all.take(it.index() + 1).drop_last() =~= all.take(it.index()));
            table.put(row);
        }
        assert(all.take(all.len() as int) =~= all);
        table
    }
}

/// An observation is kept if nothing is known of its subject or what is known is
/// older; nothing else changes. If something else is known of the same time, the
/// two contradict each other.
pub proof fn only_newer_observations_are_kept(
    table: Map<Seq<char>, Latest>,
    observation: Observation,
    updated_at: i64,
)
    ensures
        ({
            let after = observed(table, observation, updated_at);
            let id = observation.id;
            let newer = !table.contains_key(id) || table[id].observed_at < observation.observed_at;
            &&& after.contains_key(id)
            &&& newer ==> after[id].payload == observation.payload && after[id].observed_at
                == observation.observed_at && after[id].symbol == observation.symbol
                && after[id].updated_at == updated_at
            &&& !newer ==> after[id] == table[id]
            &&& forall|other: Seq<char>|
                other != id ==> (#[trigger] after.contains_key(other) <==> table.contains_key(
                    other,
                )) && (table.contains_key(other) ==> after[other] == table[other])
            &&& disputed(table, observation) <==> table.contains_key(id) && table[id].observed_at
                == observation.observed_at && json::text_digest(table[id].payload)
                != json::text_digest(observation.payload)
            &&& newer <==> decision(table, observation) is Applied
            &&& table.contains_key(id) && table[id].observed_at > observation.observed_at
                <==> decision(table, observation) is IgnoredOlder
        }),
{
}

/// A full set leaves what it lists and what is newer than it; what is not newer
/// and not listed is gone.
pub proof fn full_sets_leave_members_and_newer(
    table: Map<Seq<char>, Latest>,
    observed_at: i64,
    members: Seq<Seq<char>>,
    id: Seq<char>,
)
    ensures
        left_by_set(table, observed_at, members).contains_key(id) <==> table.contains_key(id) && (
        members.contains(id) || table[id].observed_at > observed_at),
        left_by_set(table, observed_at, members).contains_key(id) ==> left_by_set(
            table,
            observed_at,
            members,
        )[id] == table[id],
{
}

}
