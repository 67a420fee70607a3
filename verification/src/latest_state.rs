//! The newest observations of the accounts that a reader may see.

use vstd::prelude::*;
use vstd::string::*;

use crate::error;
use crate::error::{Fault, StoreError};
use crate::snapshots;
use crate::snapshots::{
    snapshot_from_row, AuthorizedAccountScope, LatestStateProjection, Observation, Snapshot,
    SnapshotKind, SnapshotRow,
};
use crate::text;
use crate::text::{same_text, text_precedes};

verus! {

/// The rows of the newest observations.
pub struct LatestStateRows {
    pub accounts: Vec<SnapshotRow>,
    pub positions: Vec<SnapshotRow>,
    pub orders: Vec<SnapshotRow>,
    pub symbols: Vec<SnapshotRow>,
    pub markets: Vec<SnapshotRow>,
}

/// One row stands before another: by account, and within an account by name.
pub open spec fn row_before(a: SnapshotRow, b: SnapshotRow) -> bool {
    text::precedes(a.account_id@, b.account_id@) || (a.account_id@ == b.account_id@
        && text::precedes(a.id@, b.id@))
}

/// The rows with another put behind all that it does not stand before.
pub open spec fn with_row(rows: Seq<SnapshotRow>, row: SnapshotRow) -> Seq<SnapshotRow>
    decreases rows.len(),
{
    if rows.len() == 0 || !row_before(row, rows.last()) {
        rows.push(row)
    } else {
        with_row(rows.drop_last(), row).push(rows.last())
    }
}

/// The rows by account and name.
pub open spec fn by_name(rows: Seq<SnapshotRow>) -> Seq<SnapshotRow>
    decreases rows.len(),
{
    if rows.len() == 0 {
        Seq::empty()
    } else {
        with_row(by_name(rows.drop_last()), rows.last())
    }
}

proof fn with_row_at(rows: Seq<SnapshotRow>, row: SnapshotRow, at: int)
    requires
        0 <= at <= rows.len(),
        forall|i: int| at <= i < rows.len() ==> row_before(row, #[trigger] rows[i]),
        at > 0 ==> !row_before(row, rows[at - 1]),
    ensures
        with_row(rows, row) == rows.insert(at, row),
    decreases rows.len(),
{
    if at == rows.len() {
        if rows.len() > 0 {
            assert(rows[rows.len() - 1] == rows.last());
        }
        assert(rows.push(row) =~= rows.insert(at, row));
    } else {
        let shorter = rows.drop_last();
        assert(row_before(row, rows[rows.len() - 1]));
        assert forall|i: int| at <= i < shorter.len() implies row_before(
            row,
            #[trigger] shorter[i],
        ) by {
            assert(shorter[i] == rows[i]);
        }
        with_row_at(shorter, row, at);
        assert(shorter.insert(at, row).push(rows.last()) =~= rows.insert(at, row));
    }
}

fn stands_before(a: &SnapshotRow, b: &SnapshotRow) -> (r: bool)
    ensures
        r == row_before(*a, *b),
{
    if text_precedes(a.account_id.as_str(), b.account_id.as_str()) {
        true
    } else {
        same_text(a.account_id.as_str(), b.account_id.as_str()) && text_precedes(
            a.id.as_str(),
            b.id.as_str(),
        )
    }
}

fn sort_rows(rows: Vec<SnapshotRow>) -> (r: Vec<SnapshotRow>)
    ensures
        r@ == by_name(rows@),
{
    let ghost all = rows@;
    let mut list: Vec<SnapshotRow> = Vec::new();
    for row in it: rows
        invariant
            it.seq() == all,
            all == rows@,
            list@ == by_name(all.take(it.index())),
    {
        let ghost longer = all.take(it.index() + 1);
        assert(longer.drop_last() =~= all.take(it.index()));
        assert(longer.last() == row);
        let ghost before = list@;
        let mut at: usize = list.len();
        while at > 0 && stands_before(&row, &list[at - 1])
            invariant
                at <= list.len(),
                list@ == before,
                forall|i: int| at <= i < list.len() ==> row_before(row, #[trigger] before[i]),
            decreases at,
        {
            at = at - 1;
        }
        proof {
            with_row_at(before, row, at as int);
        }
        list.insert(at, row);
    }
    assert(all.take(all.len() as int) =~= all);
    list
}

/// What is wrong with the rows of the accounts that may be seen.
pub open spec fn scoped_rows_fault(
    kind: SnapshotKind,
    rows: Seq<SnapshotRow>,
    accounts: Set<Seq<char>>,
) -> Option<Fault>
    decreases rows.len(),
{
    if rows.len() == 0 {
        None
    } else {
        error::first_of(
            scoped_rows_fault(kind, rows.drop_last(), accounts),
            if accounts.contains(rows.last().account_id@) {
                snapshots::snapshot_row_fault(kind, rows.last())
            } else {
                None
            },
        )
    }
}

proof fn scoped_rows_fault_of_prefix(
    kind: SnapshotKind,
    rows: Seq<SnapshotRow>,
    accounts: Set<Seq<char>>,
    n: int,
)
    requires
        0 <= n <= rows.len(),
        scoped_rows_fault(kind, rows.take(n), accounts) is Some,
    ensures
        scoped_rows_fault(kind, rows, accounts) == scoped_rows_fault(
            kind,
            rows.take(n),
            accounts,
        ),
    decreases rows.len(),
{
    if n < rows.len() {
        assert(rows.drop_last().take(n) =~= rows.take(n));
        scoped_rows_fault_of_prefix(kind, rows.drop_last(), accounts, n);
    } else {
        assert(rows.take(n) =~= rows);
    }
}

/// The observation in a row.
pub open spec fn row_observation(row: SnapshotRow) -> Observation {
    Observation {
        account_id: row.account_id@,
        id: row.id@,
        symbol: row.symbol@,
        observed_at: row.observed_at,
        payload: row.payload.text@,
    }
}

/// The observations in the rows of the accounts that may be seen.
pub open spec fn scoped(rows: Seq<SnapshotRow>, accounts: Set<Seq<char>>) -> Seq<Observation>
    decreases rows.len(),
{
    if rows.len() == 0 {
        Seq::empty()
    } else {
        let before = scoped(rows.drop_last(), accounts);
        let row = rows.last();
        if accounts.contains(row.account_id@) {
            before.push(row_observation(row))
        } else {
            before
        }
    }
}

/// The observations that a reader is shown.
pub open spec fn listed(rows: Seq<SnapshotRow>, accounts: Set<Seq<char>>) -> Seq<Observation> {
    scoped(by_name(rows), accounts)
}

fn load_rows(kind: SnapshotKind, rows: Vec<SnapshotRow>, scope: &AuthorizedAccountScope) -> (r:
    Result<Vec<Snapshot>, StoreError>)
    ensures
        error::fault(r) == scoped_rows_fault(kind, rows@, scope@),
        r matches Ok(list) ==> snapshots::observations(list@) == scoped(rows@, scope@),
{
    let ghost all = rows@;
    let mut list: Vec<Snapshot> = Vec::new();
    assert(snapshots::observations(list@) =~= scoped(all.take(0), scope@));
    for row in it: rows
        invariant
            it.seq() == all,
            all == rows@,
            scoped_rows_fault(kind, all.take(it.index()), scope@) is None,
            snapshots::observations(list@) == scoped(all.take(it.index()), scope@),
    {
        let ghost longer = all.take(it.index() + 1);
        assert(longer.drop_last() =~= all.take(it.index()));
        assert(longer.last() == row);
        if scope.contains(&row.account_id) {
            match snapshot_from_row(kind, row) {
                Ok(snapshot) => {
                    let ghost before = snapshots::observations(list@);
                    let ghost read = snapshot@;
                    list.push(snapshot);
                    assert(snapshots::observations(list@) =~= before.push(read));
                },
                Err(error) => {
                    proof {
                        scoped_rows_fault_of_prefix(kind, all, scope@, it.index() + 1);
                    }
                    return Err(error);
                },
            }
        }
    }
    assert(all.take(all.len() as int) =~= all);
    Ok(list)
}

/// What is wrong with the newest observations.
pub open spec fn latest_state_fault(rows: LatestStateRows, accounts: Set<Seq<char>>) -> Option<
    Fault,
> {
    let f = scoped_rows_fault(SnapshotKind::Account, by_name(rows.accounts@), accounts);
    let f = error::first_of(
        f,
        scoped_rows_fault(SnapshotKind::Position, by_name(rows.positions@), accounts),
    );
    let f = error::first_of(
        f,
        scoped_rows_fault(SnapshotKind::Order, by_name(rows.orders@), accounts),
    );
    let f = error::first_of(
        f,
        scoped_rows_fault(SnapshotKind::Symbol, by_name(rows.symbols@), accounts),
    );
    error::first_of(
        f,
        scoped_rows_fault(SnapshotKind::Market, by_name(rows.markets@), accounts),
    )
}

/// What a reader is shown of the rows: what they hold of the accounts that the
/// reader may see, each list by account and name.
pub open spec fn shows(
    state: LatestStateProjection,
    rows: LatestStateRows,
    accounts: Set<Seq<char>>,
) -> bool {
    &&& snapshots::observations(state.accounts@) == listed(rows.accounts@, accounts)
    &&& snapshots::observations(state.positions@) == listed(rows.positions@, accounts)
    &&& snapshots::observations(state.orders@) == listed(rows.orders@, accounts)
    &&& snapshots::observations(state.symbols@) == listed(rows.symbols@, accounts)
    &&& snapshots::observations(state.markets@) == listed(rows.markets@, accounts)
    &&& in_order(snapshots::observations(state.accounts@))
    &&& in_order(snapshots::observations(state.positions@))
    &&& in_order(snapshots::observations(state.orders@))
    &&& in_order(snapshots::observations(state.symbols@))
    &&& in_order(snapshots::observations(state.markets@))
}

/// Reads the newest observations of the accounts that the reader may see, each
/// list by account and name.
pub fn load_latest_state(scope: &AuthorizedAccountScope, rows: LatestStateRows) -> (r: Result<
    LatestStateProjection,
    StoreError,
>)
    ensures
        error::fault(r) == latest_state_fault(rows, scope@),
        r matches Ok(state) ==> shows(state, rows, scope@),
{
    proof {
        latest_state_is_in_order(rows.accounts@, scope@);
        latest_state_is_in_order(rows.positions@, scope@);
        latest_state_is_in_order(rows.orders@, scope@);
        latest_state_is_in_order(rows.symbols@, scope@);
        latest_state_is_in_order(rows.markets@, scope@);
    }
    let accounts = load_rows(SnapshotKind::Account, sort_rows(rows.accounts), scope)?;
    let positions = load_rows(SnapshotKind::Position, sort_rows(rows.positions), scope)?;
    let orders = load_rows(SnapshotKind::Order, sort_rows(rows.orders), scope)?;
    let symbols = load_rows(SnapshotKind::Symbol, sort_rows(rows.symbols), scope)?;
    let markets = load_rows(SnapshotKind::Market, sort_rows(rows.markets), scope)?;
    Ok(LatestStateProjection { accounts, positions, orders, symbols, markets })
}

/// No row stands before one that does not stand behind it.
proof fn rows_chain(a: SnapshotRow, b: SnapshotRow, c: SnapshotRow)
    requires
        !row_before(b, a),
        !row_before(c, b),
    ensures
        !row_before(c, a),
{
    if row_before(c, a) {
        if b.account_id@ != a.account_id@ {
            text::precedes_total(a.account_id@, b.account_id@);
            if c.account_id@ != a.account_id@ {
                text::precedes_transitive(c.account_id@, a.account_id@, b.account_id@);
            }
        } else if c.account_id@ == a.account_id@ {
            if b.id@ != a.id@ {
                text::precedes_total(a.id@, b.id@);
                text::precedes_transitive(c.id@, a.id@, b.id@);
            }
        }
    }
}

/// Rows stand by account and name.
pub open spec fn rows_in_order(rows: Seq<SnapshotRow>) -> bool {
    forall|i: int, j: int|
        0 <= i < j < rows.len() ==> !row_before(#[trigger] rows[j], #[trigger] rows[i])
}

proof fn with_row_adds_one(rows: Seq<SnapshotRow>, row: SnapshotRow)
    ensures
        with_row(rows, row).len() == rows.len() + 1,
        with_row(rows, row).to_multiset() == rows.to_multiset().insert(row),
        forall|i: int|
            0 <= i < with_row(rows, row).len() ==> #[trigger] with_row(rows, row)[i] == row
                || rows.contains(with_row(rows, row)[i]),
    decreases rows.len(),
{
    broadcast use vstd::seq_lib::group_to_multiset_ensures;

    let after = with_row(rows, row);
    if rows.len() == 0 || !row_before(row, rows.last()) {
        assert forall|i: int| 0 <= i < after.len() implies #[trigger] after[i] == row
            || rows.contains(after[i]) by {
            if i < rows.len() {
                assert(after[i] == rows[i]);
            }
        }
    } else {
        let shorter = rows.drop_last();
        let last = rows.last();
        with_row_adds_one(shorter, row);
        let before = with_row(shorter, row);
        assert(shorter.push(last) =~= rows);
        assert(shorter.to_multiset().insert(row).insert(last) =~= shorter.to_multiset().insert(
            last,
        ).insert(row));
        assert forall|i: int| 0 <= i < after.len() implies #[trigger] after[i] == row
            || rows.contains(after[i]) by {
            if i < before.len() {
                assert(after[i] == before[i]);
                if before[i] != row {
                    let k = choose|k: int| 0 <= k < shorter.len() && shorter[k] == before[i];
                    assert(rows[k] == before[i]);
                }
            } else {
                assert(rows[rows.len() - 1] == after[i]);
            }
        }
    }
}

proof fn with_row_keeps_order(rows: Seq<SnapshotRow>, row: SnapshotRow)
    requires
        rows_in_order(rows),
    ensures
        rows_in_order(with_row(rows, row)),
    decreases rows.len(),
{
    let after = with_row(rows, row);
    let last = rows.len() - 1;
    if rows.len() == 0 || !row_before(row, rows.last()) {
        assert forall|i: int, j: int| 0 <= i < j < after.len() implies !row_before(
            #[trigger] after[j],
            #[trigger] after[i],
        ) by {
            if j < rows.len() {
                assert(!row_before(rows[j], rows[i]));
            } else if i < last {
                assert(!row_before(rows[last], rows[i]));
                rows_chain(rows[i], rows[last], row);
            }
        }
    } else {
        let shorter = rows.drop_last();
        assert forall|i: int, j: int| 0 <= i < j < shorter.len() implies !row_before(
            #[trigger] shorter[j],
            #[trigger] shorter[i],
        ) by {
            assert(!row_before(rows[j], rows[i]));
        }
        with_row_keeps_order(shorter, row);
        with_row_adds_one(shorter, row);
        let before = with_row(shorter, row);
        assert forall|i: int, j: int| 0 <= i < j < after.len() implies !row_before(
            #[trigger] after[j],
            #[trigger] after[i],
        ) by {
            assert(after[i] == before[i]);
            if j < before.len() {
                assert(after[j] == before[j]);
                assert(!row_before(before[j], before[i]));
            } else if before[i] == row {
                if text::precedes(row.account_id@, rows[last].account_id@) {
                    text::precedes_asymmetric(row.account_id@, rows[last].account_id@);
                } else {
                    text::precedes_asymmetric(row.id@, rows[last].id@);
                    text::precedes_irreflexive(row.account_id@);
                }
            } else {
                let k = choose|k: int| 0 <= k < shorter.len() && shorter[k] == before[i];
                assert(!row_before(rows[last], rows[k]));
            }
        }
    }
}

proof fn sorted_rows_are_in_order(rows: Seq<SnapshotRow>)
    ensures
        rows_in_order(by_name(rows)),
        by_name(rows).to_multiset() == rows.to_multiset(),
    decreases rows.len(),
{
    broadcast use vstd::seq_lib::group_to_multiset_ensures;

    if rows.len() > 0 {
        let shorter = rows.drop_last();
        sorted_rows_are_in_order(shorter);
        with_row_keeps_order(by_name(shorter), rows.last());
        with_row_adds_one(by_name(shorter), rows.last());
        assert(shorter.push(rows.last()) =~= rows);
    } else {
        assert(by_name(rows) =~= rows);
    }
}

/// One observation stands before another: by account, and within an account by
/// name.
pub open spec fn observed_before(a: Observation, b: Observation) -> bool {
    text::precedes(a.account_id, b.account_id) || (a.account_id == b.account_id
        && text::precedes(a.id, b.id))
}

proof fn row_of_shown(rows: Seq<SnapshotRow>, accounts: Set<Seq<char>>, i: int) -> (k: int)
    requires
        0 <= i < scoped(rows, accounts).len(),
    ensures
        0 <= k < rows.len(),
        scoped(rows.take(k), accounts).len() == i,
        scoped(rows, accounts)[i].account_id == rows[k].account_id@,
        scoped(rows, accounts)[i].id == rows[k].id@,
    decreases rows.len(),
{
    let shorter = rows.drop_last();
    if i < scoped(shorter, accounts).len() {
        let k = row_of_shown(shorter, accounts, i);
        assert(shorter.take(k) =~= rows.take(k));
        k
    } else {
        assert(rows.take(rows.len() - 1) =~= shorter);
        rows.len() - 1
    }
}

proof fn fewer_rows_show_fewer(rows: Seq<SnapshotRow>, accounts: Set<Seq<char>>, n: int)
    requires
        0 <= n <= rows.len(),
    ensures
        scoped(rows.take(n), accounts).len() <= scoped(rows, accounts).len(),
    decreases rows.len(),
{
    if n < rows.len() {
        assert(rows.drop_last().take(n) =~= rows.take(n));
        fewer_rows_show_fewer(rows.drop_last(), accounts, n);
    } else {
        assert(rows.take(n) =~= rows);
    }
}

/// Observations stand by account and name.
pub open spec fn in_order(list: Seq<Observation>) -> bool {
    forall|i: int, j: int|
        0 <= i < j < list.len() ==> !observed_before(#[trigger] list[j], #[trigger] list[i])
}

/// What a reader is shown stands by account and name.
pub proof fn latest_state_is_in_order(rows: Seq<SnapshotRow>, accounts: Set<Seq<char>>)
    ensures
        in_order(listed(rows, accounts)),
{
    let sorted = by_name(rows);
    let list = listed(rows, accounts);
    sorted_rows_are_in_order(rows);
    assert forall|i: int, j: int| 0 <= i < j < list.len() implies !observed_before(
        #[trigger] list[j],
        #[trigger] list[i],
    ) by {
        let first = row_of_shown(sorted, accounts, i);
        let second = row_of_shown(sorted, accounts, j);
        if second < first {
            assert(sorted.take(first).take(second) =~= sorted.take(second));
            fewer_rows_show_fewer(sorted.take(first), accounts, second);
        }
        assert(first != second);
        assert(!row_before(sorted[second], sorted[first]));
    }
}

proof fn row_is_shown(rows: Seq<SnapshotRow>, accounts: Set<Seq<char>>, k: int) -> (i: int)
    requires
        0 <= k < rows.len(),
        accounts.contains(rows[k].account_id@),
    ensures
        0 <= i < scoped(rows, accounts).len(),
        scoped(rows, accounts)[i] == row_observation(rows[k]),
    decreases rows.len(),
{
    if k < rows.len() - 1 {
        let i = row_is_shown(rows.drop_last(), accounts, k);
        i
    } else {
        scoped(rows, accounts).len() - 1
    }
}

/// Every row of an account that a reader may see is shown.
pub proof fn readers_miss_nothing(rows: Seq<SnapshotRow>, accounts: Set<Seq<char>>, k: int) -> (i:
    int)
    requires
        0 <= k < rows.len(),
        accounts.contains(rows[k].account_id@),
    ensures
        0 <= i < listed(rows, accounts).len(),
        listed(rows, accounts)[i] == row_observation(rows[k]),
{
    broadcast use vstd::seq_lib::group_to_multiset_ensures;

    sorted_rows_are_in_order(rows);
    let sorted = by_name(rows);
    assert(rows.contains(rows[k]));
    assert(sorted.to_multiset().count(rows[k]) > 0);
    assert(sorted.contains(rows[k]));
    let at = choose|at: int| 0 <= at < sorted.len() && sorted[at] == rows[k];
    row_is_shown(sorted, accounts, at)
}

proof fn shown_is_within(rows: Seq<SnapshotRow>, accounts: Set<Seq<char>>, i: int)
    requires
        0 <= i < scoped(rows, accounts).len(),
    ensures
        accounts.contains(scoped(rows, accounts)[i].account_id),
    decreases rows.len(),
{
    if i < scoped(rows.drop_last(), accounts).len() {
        shown_is_within(rows.drop_last(), accounts, i);
    }
}

/// Nobody is shown an observation of an account that they may not see; who may
/// see none is shown nothing.
pub proof fn readers_see_their_accounts(rows: Seq<SnapshotRow>, accounts: Set<Seq<char>>)
    ensures
        forall|i: int|
            0 <= i < listed(rows, accounts).len() ==> accounts.contains(
                (#[trigger] listed(rows, accounts)[i]).account_id,
            ),
        accounts.is_empty() ==> listed(rows, accounts).len() == 0,
{
    assert forall|i: int| 0 <= i < listed(rows, accounts).len() implies accounts.contains(
        (#[trigger] listed(rows, accounts)[i]).account_id,
    ) by {
        shown_is_within(by_name(rows), accounts, i);
    }
    if accounts.is_empty() && listed(rows, accounts).len() > 0 {
        assert(accounts.contains(listed(rows, accounts)[0].account_id));
    }
}

proof fn hidden_rows_are_not_read(
    kind: SnapshotKind,
    rows: Seq<SnapshotRow>,
    accounts: Set<Seq<char>>,
)
    requires
        accounts.is_empty(),
    ensures
        scoped_rows_fault(kind, rows, accounts) is None,
    decreases rows.len(),
{
    if rows.len() > 0 {
        hidden_rows_are_not_read(kind, rows.drop_last(), accounts);
    }
}

/// Who may see no account is shown nothing and refused nothing, whatever is
/// stored.
pub proof fn empty_scopes_are_answered(rows: LatestStateRows, accounts: Set<Seq<char>>)
    requires
        accounts.is_empty(),
    ensures
        latest_state_fault(rows, accounts) is None,
        listed(rows.accounts@, accounts).len() == 0,
        listed(rows.positions@, accounts).len() == 0,
        listed(rows.orders@, accounts).len() == 0,
        listed(rows.symbols@, accounts).len() == 0,
        listed(rows.markets@, accounts).len() == 0,
{
    readers_see_their_accounts(rows.accounts@, accounts);
    readers_see_their_accounts(rows.positions@, accounts);
    readers_see_their_accounts(rows.orders@, accounts);
    readers_see_their_accounts(rows.symbols@, accounts);
    readers_see_their_accounts(rows.markets@, accounts);
    hidden_rows_are_not_read(SnapshotKind::Account, by_name(rows.accounts@), accounts);
    hidden_rows_are_not_read(SnapshotKind::Position, by_name(rows.positions@), accounts);
    hidden_rows_are_not_read(SnapshotKind::Order, by_name(rows.orders@), accounts);
    hidden_rows_are_not_read(SnapshotKind::Symbol, by_name(rows.symbols@), accounts);
    hidden_rows_are_not_read(SnapshotKind::Market, by_name(rows.markets@), accounts);
}

/// What a reader sees of a row is what the row says.
pub proof fn rows_are_shown_as_they_are(row: SnapshotRow)
    ensures
        row_observation(row).account_id == row.account_id@,
        row_observation(row).id == row.id@,
        row_observation(row).symbol == row.symbol@,
        row_observation(row).observed_at == row.observed_at,
        row_observation(row).payload == row.payload.text@,
{
}

/// A reader sees every row of the accounts it may see, and no other.
pub proof fn readers_see_rows_of_their_accounts(
    rows: Seq<SnapshotRow>,
    accounts: Set<Seq<char>>,
    k: int,
)
    requires
        0 <= k < rows.len(),
    ensures
        accounts.contains(rows[k].account_id@) ==> exists|i: int|
            0 <= i < listed(rows, accounts).len() && ({
                let seen = #[trigger] listed(rows, accounts)[i];
                &&& seen.account_id == rows[k].account_id@
                &&& seen.id == rows[k].id@
                &&& seen.observed_at == rows[k].observed_at
                &&& seen.payload == rows[k].payload.text@
            }),
        forall|i: int|
            0 <= i < listed(rows, accounts).len() ==> accounts.contains(
                (#[trigger] listed(rows, accounts)[i]).account_id,
            ),
        forall|i: int, j: int|
            0 <= i < j < listed(rows, accounts).len() ==> {
                let a = #[trigger] listed(rows, accounts)[i];
                let b = #[trigger] listed(rows, accounts)[j];
                &&& !text::precedes(b.account_id, a.account_id)
                &&& a.account_id == b.account_id ==> !text::precedes(b.id, a.id)
            },
{
    readers_see_their_accounts(rows, accounts);
    latest_state_is_in_order(rows, accounts);
    if accounts.contains(rows[k].account_id@) {
        let i = readers_miss_nothing(rows, accounts, k);
        assert(listed(rows, accounts)[i] == row_observation(rows[k]));
    }
}

}
