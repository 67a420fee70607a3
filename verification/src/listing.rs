//! Lists of records for readers: of the accounts that they may see, the newest
//! ones, oldest first.

use vstd::prelude::*;
use vstd::string::*;

use crate::snapshots::AuthorizedAccountScope;
use crate::text;
use crate::text::text_precedes;

verus! {

/// A record of an account that is listed by its time, and by its name where
/// times are equal.
pub trait Listed: Sized {
    /// The time by which it is listed.
    spec fn time(&self) -> i64;

    /// The name by which it is listed.
    spec fn key(&self) -> Seq<char>;

    /// The account that it belongs to.
    spec fn account(&self) -> Seq<char>;

    /// It is of the kind that is listed.
    spec fn current(&self) -> bool;

    fn listed_at(&self) -> (r: i64)
        ensures
            r == self.time(),
    ;

    fn listed_as(&self) -> (r: &str)
        ensures
            r@ == self.key(),
    ;

    fn listed_for(&self) -> (r: &String)
        ensures
            r@ == self.account(),
    ;

    fn is_current(&self) -> (r: bool)
        ensures
            r == self.current(),
    ;
}

/// One record stands before another.
pub open spec fn comes_before<T: Listed>(a: T, b: T) -> bool {
    a.time() < b.time() || (a.time() == b.time() && text::precedes(a.key(), b.key()))
}

/// Whether one record stands before another.
pub fn is_before<T: Listed>(a: &T, b: &T) -> (r: bool)
    ensures
        r == comes_before(*a, *b),
{
    if a.listed_at() < b.listed_at() {
        true
    } else {
        a.listed_at() == b.listed_at() && text_precedes(a.listed_as(), b.listed_as())
    }
}

/// No record stands before one that does not stand behind it.
pub proof fn not_before_chains<T: Listed>(a: T, b: T, c: T)
    requires
        !comes_before(b, a),
        !comes_before(c, b),
    ensures
        !comes_before(c, a),
{
    if comes_before(c, a) && a.time() == b.time() && b.time() == c.time() {
        if a.key() != b.key() {
            text::precedes_total(a.key(), b.key());
            text::precedes_transitive(c.key(), a.key(), b.key());
        }
    }
}

/// The list with an item put behind everything that it does not stand before.
pub open spec fn placed<T: Listed>(list: Seq<T>, item: T) -> Seq<T>
    decreases list.len(),
{
    if list.len() == 0 || !comes_before(item, list.last()) {
        list.push(item)
    } else {
        placed(list.drop_last(), item).push(list.last())
    }
}

/// The records, oldest first; such as are equal keep their order.
pub open spec fn sorted<T: Listed>(values: Seq<T>) -> Seq<T>
    decreases values.len(),
{
    if values.len() == 0 {
        Seq::empty()
    } else {
        placed(sorted(values.drop_last()), values.last())
    }
}

proof fn placed_at<T: Listed>(list: Seq<T>, item: T, at: int)
    requires
        0 <= at <= list.len(),
        forall|i: int| at <= i < list.len() ==> comes_before(item, #[trigger] list[i]),
        at > 0 ==> !comes_before(item, list[at - 1]),
    ensures
        placed(list, item) == list.insert(at, item),
    decreases list.len(),
{
    if at == list.len() {
        if list.len() > 0 {
            assert(list[list.len() - 1] == list.last());
        }
        assert(list.push(item) =~= list.insert(at, item));
    } else {
        assert(comes_before(item, list[list.len() - 1]));
        assert forall|i: int| at <= i < list.drop_last().len() implies comes_before(
            item,
            #[trigger] list.drop_last()[i],
        ) by {
            assert(comes_before(item, list[i]));
        }
        placed_at(list.drop_last(), item, at);
        assert(list.drop_last().insert(at, item).push(list.last()) =~= list.insert(at, item));
    }
}

/// Puts an item into its place.
fn place<T: Listed>(list: &mut Vec<T>, item: T)
    ensures
        final(list)@ == placed(old(list)@, item),
{
    let ghost before = list@;
    let mut at: usize = list.len();
    while at > 0 && is_before(&item, &list[at - 1])
        invariant
            at <= list.len(),
            list@ == before,
            before == old(list)@,
            forall|i: int| at <= i < list.len() ==> comes_before(item, #[trigger] before[i]),
        decreases at,
    {
        at = at - 1;
    }
    proof {
        placed_at(before, item, at as int);
    }
    list.insert(at, item);
}

/// Of the records those of the listed kind that belong to the given accounts.
pub open spec fn shown<T: Listed>(values: Seq<T>, accounts: Set<Seq<char>>) -> Seq<T>
    decreases values.len(),
{
    if values.len() == 0 {
        Seq::empty()
    } else {
        let before = shown(values.drop_last(), accounts);
        let last = values.last();
        if last.current() && accounts.contains(last.account()) {
            before.push(last)
        } else {
            before
        }
    }
}

/// Keeps the records of the listed kind that belong to the given accounts.
pub fn keep_shown<T: Listed>(values: Vec<T>, scope: &AuthorizedAccountScope) -> (r: Vec<T>)
    ensures
        r@ == shown(values@, scope@),
{
    let ghost all = values@;
    let mut kept: Vec<T> = Vec::new();
    for value in it: values
        invariant
            it.seq() == all,
            all == values@,
            kept@ == shown(all.take(it.index()), scope@),
    {
        let ghost longer = all.take(it.index() + 1);
        assert(longer.drop_last() =~= all.take(it.index()));
        assert(longer.last() == value);
        if value.is_current() && scope.contains(value.listed_for()) {
            kept.push(value);
        }
    }
    assert(all.take(all.len() as int) =~= all);
    kept
}

/// Lists records, oldest first.
pub fn oldest_first<T: Listed>(values: Vec<T>) -> (r: Vec<T>)
    ensures
        r@ == sorted(values@),
{
    let ghost all = values@;
    let mut list: Vec<T> = Vec::new();
    for value in it: values
        invariant
            it.seq() == all,
            all == values@,
            list@ == sorted(all.take(it.index())),
    {
        let ghost longer = all.take(it.index() + 1);
        assert(longer.drop_last() =~= all.take(it.index()));
        assert(longer.last() == value);
        place(&mut list, value);
    }
    assert(all.take(all.len() as int) =~= all);
    list
}

/// The last so many.
pub open spec fn tail<T>(list: Seq<T>, limit: int) -> Seq<T> {
    if list.len() <= limit {
        list
    } else {
        list.skip(list.len() - limit)
    }
}

/// The newest so many of the records that are shown, oldest first.
pub open spec fn newest<T: Listed>(values: Seq<T>, accounts: Set<Seq<char>>, limit: int) -> Seq<
    T,
> {
    tail(sorted(shown(values, accounts)), limit)
}

/// Lists the newest so many records, oldest first.
pub fn newest_shown<T: Listed>(
    values: Vec<T>,
    scope: &AuthorizedAccountScope,
    limit: usize,
) -> (r: Vec<T>)
    ensures
        r@ == newest(values@, scope@, limit as int),
{
    let list = oldest_first(keep_shown(values, scope));
    keep_tail(list, limit)
}

/// Keeps the last so many.
pub fn keep_tail<T>(list: Vec<T>, limit: usize) -> (r: Vec<T>)
    ensures
        r@ == tail(list@, limit as int),
{
    let ghost all = list@;
    let mut list = list;
    let ghost mut gone: int = 0;
    assert(all.skip(0) =~= all);
    while list.len() > limit
        invariant
            0 <= gone <= all.len(),
            list@ == all.skip(gone),
            gone > 0 ==> list@.len() >= limit,
        decreases list.len(),
    {
        let ghost before = list@;
        list.remove(0);
        assert(before.remove(0) =~= all.skip(gone + 1));
        proof {
            gone = gone + 1;
        }
    }
    assert(list@.len() == all.len() - gone);
    list
}

/// The newest record.
pub open spec fn newest_one<T: Listed>(values: Seq<T>) -> Option<T> {
    if values.len() == 0 {
        None
    } else {
        Some(sorted(values).last())
    }
}

/// The newest of some records.
pub fn latest_of<T: Listed>(values: Vec<T>) -> (r: Option<T>)
    ensures
        r == newest_one(values@),
{
    proof {
        sorted_is_a_rearrangement(values@);
    }
    let mut list = oldest_first(values);
    list.pop()
}

/// Sorting leaves out nothing and adds nothing.
pub proof fn sorted_is_a_rearrangement<T: Listed>(values: Seq<T>)
    ensures
        sorted(values).len() == values.len(),
        sorted(values).to_multiset() == values.to_multiset(),
    decreases values.len(),
{
    broadcast use vstd::seq_lib::group_to_multiset_ensures;

    if values.len() > 0 {
        let before = sorted(values.drop_last());
        sorted_is_a_rearrangement(values.drop_last());
        placed_adds_one(before, values.last());
        assert(values.drop_last().push(values.last()) =~= values);
    } else {
        assert(sorted(values) =~= values);
    }
}

proof fn placed_adds_one<T: Listed>(list: Seq<T>, item: T)
    ensures
        placed(list, item).len() == list.len() + 1,
        placed(list, item).to_multiset() == list.to_multiset().insert(item),
        forall|i: int|
            0 <= i < placed(list, item).len() ==> #[trigger] placed(list, item)[i] == item
                || list.contains(placed(list, item)[i]),
    decreases list.len(),
{
    broadcast use vstd::seq_lib::group_to_multiset_ensures;

    if list.len() == 0 || !comes_before(item, list.last()) {
        let after = list.push(item);
        assert forall|i: int| 0 <= i < after.len() implies #[trigger] after[i] == item
            || list.contains(after[i]) by {
            if i < list.len() {
                assert(after[i] == list[i]);
            }
        }
    } else {
        let shorter = list.drop_last();
        placed_adds_one(shorter, item);
        let before = placed(shorter, item);
        assert(shorter.push(list.last()) =~= list);
        assert(list.to_multiset() == shorter.to_multiset().insert(list.last()));
        assert(before.push(list.last()).to_multiset() == before.to_multiset().insert(list.last()));
        assert(shorter.to_multiset().insert(item).insert(list.last())
            =~= shorter.to_multiset().insert(list.last()).insert(item));
        let after = before.push(list.last());
        assert forall|i: int| 0 <= i < after.len() implies #[trigger] after[i] == item
            || list.contains(after[i]) by {
            if i < before.len() {
                assert(after[i] == before[i]);
                if before[i] != item {
                    let k = choose|k: int| 0 <= k < shorter.len() && shorter[k] == before[i];
                    assert(list[k] == before[i]);
                }
            } else {
                assert(list[list.len() - 1] == after[i]);
            }
        }
    }
}

/// The records stand oldest first.
pub open spec fn ordered<T: Listed>(list: Seq<T>) -> bool {
    forall|i: int, j: int|
        0 <= i < j < list.len() ==> !comes_before(#[trigger] list[j], #[trigger] list[i])
}

proof fn placed_keeps_order<T: Listed>(list: Seq<T>, item: T)
    requires
        ordered(list),
    ensures
        ordered(placed(list, item)),
    decreases list.len(),
{
    let after = placed(list, item);
    if list.len() == 0 || !comes_before(item, list.last()) {
        assert forall|i: int, j: int| 0 <= i < j < after.len() implies !comes_before(
            #[trigger] after[j],
            #[trigger] after[i],
        ) by {
            if j < list.len() {
                assert(!comes_before(list[j], list[i]));
            } else {
                let last = list.len() - 1;
                if i < last {
                    assert(!comes_before(list[last], list[i]));
                    not_before_chains(list[i], list[last], item);
                }
            }
        }
    } else {
        let shorter = list.drop_last();
        assert(ordered(shorter)) by {
            assert forall|i: int, j: int| 0 <= i < j < shorter.len() implies !comes_before(
                #[trigger] shorter[j],
                #[trigger] shorter[i],
            ) by {
                assert(!comes_before(list[j], list[i]));
            }
        }
        placed_keeps_order(shorter, item);
        placed_adds_one(shorter, item);
        let before = placed(shorter, item);
        let last = list.len() - 1;
        assert forall|i: int, j: int| 0 <= i < j < after.len() implies !comes_before(
            #[trigger] after[j],
            #[trigger] after[i],
        ) by {
            assert(after[i] == before[i]);
            if j < before.len() {
                assert(after[j] == before[j]);
                assert(!comes_before(before[j], before[i]));
            } else {
                assert(after[j] == list[last]);
                if before[i] == item {
                    if item.time() == list[last].time() {
                        text::precedes_asymmetric(item.key(), list[last].key());
                    }
                } else {
                    let k = choose|k: int| 0 <= k < shorter.len() && shorter[k] == before[i];
                    assert(!comes_before(list[last], list[k]));
                }
            }
        }
    }
}

/// Sorting puts the oldest first.
pub proof fn sorted_is_ordered<T: Listed>(values: Seq<T>)
    ensures
        ordered(sorted(values)),
    decreases values.len(),
{
    if values.len() > 0 {
        sorted_is_ordered(values.drop_last());
        placed_keeps_order(sorted(values.drop_last()), values.last());
    }
}

proof fn shown_belongs<T: Listed>(values: Seq<T>, accounts: Set<Seq<char>>)
    ensures
        forall|i: int|
            0 <= i < shown(values, accounts).len() ==> accounts.contains(
                (#[trigger] shown(values, accounts)[i]).account(),
            ) && shown(values, accounts)[i].current() && values.contains(
                shown(values, accounts)[i],
            ),
    decreases values.len(),
{
    if values.len() > 0 {
        let shorter = values.drop_last();
        shown_belongs(shorter, accounts);
        let before = shown(shorter, accounts);
        let after = shown(values, accounts);
        assert forall|i: int| 0 <= i < after.len() implies accounts.contains(
            (#[trigger] after[i]).account(),
        ) && after[i].current() && values.contains(after[i]) by {
            if i < before.len() {
                assert(after[i] == before[i]);
                assert(shorter.contains(before[i]));
                let k = choose|k: int| 0 <= k < shorter.len() && shorter[k] == before[i];
                assert(values[k] == before[i]);
            } else {
                assert(values[values.len() - 1] == after[i]);
            }
        }
    }
}

/// Every record of a sorted list is one of those that were sorted.
pub proof fn sorted_members<T: Listed>(values: Seq<T>)
    ensures
        forall|i: int|
            0 <= i < sorted(values).len() ==> values.contains(#[trigger] sorted(values)[i]),
    decreases values.len(),
{
    if values.len() > 0 {
        let shorter = values.drop_last();
        sorted_members(shorter);
        placed_adds_one(sorted(shorter), values.last());
        let after = sorted(values);
        assert forall|i: int| 0 <= i < after.len() implies values.contains(#[trigger] after[i]) by {
            if after[i] == values.last() {
                assert(values[values.len() - 1] == after[i]);
            } else {
                let before = sorted(shorter);
                let k = choose|k: int| 0 <= k < before.len() && before[k] == after[i];
                assert(shorter.contains(before[k]));
                let m = choose|m: int| 0 <= m < shorter.len() && shorter[m] == before[k];
                assert(values[m] == after[i]);
            }
        }
    }
}

/// Nobody is shown a record of an account that they may not see, nor more
/// records than they asked for; and what is shown comes oldest first.
pub proof fn lists_stay_within_bounds<T: Listed>(
    values: Seq<T>,
    accounts: Set<Seq<char>>,
    limit: int,
)
    requires
        limit >= 0,
    ensures
        ({
            let list = newest(values, accounts, limit);
            &&& list.len() <= limit
            &&& ordered(list)
            &&& forall|i: int|
                0 <= i < list.len() ==> accounts.contains((#[trigger] list[i]).account())
                    && list[i].current() && values.contains(list[i])
        }),
{
    let seen = shown(values, accounts);
    let all = sorted(seen);
    let list = newest(values, accounts, limit);
    shown_belongs(values, accounts);
    sorted_members(seen);
    sorted_is_ordered(seen);
    let gone = all.len() - list.len();
    assert forall|i: int| 0 <= i < list.len() implies accounts.contains(
        (#[trigger] list[i]).account(),
    ) && list[i].current() && values.contains(list[i]) by {
        assert(list[i] == all[gone + i]);
        assert(seen.contains(all[gone + i]));
        let k = choose|k: int| 0 <= k < seen.len() && seen[k] == list[i];
        assert(seen[k] == list[i]);
    }
    assert forall|i: int, j: int| 0 <= i < j < list.len() implies !comes_before(
        #[trigger] list[j],
        #[trigger] list[i],
    ) by {
        assert(!comes_before(all[gone + j], all[gone + i]));
    }
}

/// What a list leaves out for its length is not newer than what it shows.
pub proof fn lists_show_the_newest<T: Listed>(
    values: Seq<T>,
    accounts: Set<Seq<char>>,
    limit: int,
    i: int,
    k: int,
)
    requires
        limit >= 0,
        0 <= i < sorted(shown(values, accounts)).len() - limit,
        0 <= k < newest(values, accounts, limit).len(),
    ensures
        !comes_before(
            newest(values, accounts, limit)[k],
            sorted(shown(values, accounts))[i],
        ),
{
    let all = sorted(shown(values, accounts));
    sorted_is_ordered(shown(values, accounts));
    let gone = all.len() - limit;
    assert(newest(values, accounts, limit)[k] == all[gone + k]);
}

proof fn shown_has_all<T: Listed>(values: Seq<T>, accounts: Set<Seq<char>>, i: int)
    requires
        0 <= i < values.len(),
        values[i].current(),
        accounts.contains(values[i].account()),
    ensures
        shown(values, accounts).contains(values[i]),
    decreases values.len(),
{
    let shorter = values.drop_last();
    let after = shown(values, accounts);
    if i == values.len() - 1 {
        assert(after[after.len() - 1] == values[i]);
    } else {
        assert(shorter[i] == values[i]);
        shown_has_all(shorter, accounts, i);
        let before = shown(shorter, accounts);
        let k = choose|k: int| 0 <= k < before.len() && before[k] == values[i];
        assert(after[k] == values[i]);
    }
}

/// Sorting keeps every record.
pub proof fn sorted_keeps<T: Listed>(values: Seq<T>, i: int)
    requires
        0 <= i < values.len(),
    ensures
        sorted(values).contains(values[i]),
{
    broadcast use vstd::seq_lib::group_to_multiset_ensures;

    sorted_is_a_rearrangement(values);
    assert(values.contains(values[i]));
    assert(values.to_multiset().count(values[i]) > 0);
    assert(sorted(values).to_multiset().count(values[i]) > 0);
}

/// A record of the listed kind that may be seen is shown, unless the list is
/// full of records that do not stand before it.
pub proof fn lists_leave_out_only_older<T: Listed>(
    values: Seq<T>,
    accounts: Set<Seq<char>>,
    limit: int,
    i: int,
)
    requires
        limit >= 0,
        0 <= i < values.len(),
        values[i].current(),
        accounts.contains(values[i].account()),
    ensures
        ({
            let list = newest(values, accounts, limit);
            list.contains(values[i]) || (list.len() == limit && forall|k: int|
                0 <= k < list.len() ==> !comes_before(#[trigger] list[k], values[i]))
        }),
{
    let seen = shown(values, accounts);
    let all = sorted(seen);
    let list = newest(values, accounts, limit);
    shown_has_all(values, accounts, i);
    let s = choose|s: int| 0 <= s < seen.len() && seen[s] == values[i];
    sorted_keeps(seen, s);
    let at = choose|at: int| 0 <= at < all.len() && all[at] == values[i];
    let gone = all.len() - list.len();
    sorted_is_ordered(seen);
    if at >= gone {
        assert(list[at - gone] == values[i]);
    } else {
        assert forall|k: int| 0 <= k < list.len() implies !comes_before(
            #[trigger] list[k],
            values[i],
        ) by {
            assert(list[k] == all[gone + k]);
            assert(!comes_before(all[gone + k], all[at]));
        }
    }
}

/// The newest record is one of the records, and none is newer.
pub proof fn newest_one_is_newest<T: Listed>(values: Seq<T>)
    ensures
        newest_one(values) is None <==> values.len() == 0,
        newest_one(values) matches Some(found) ==> values.contains(found) && forall|i: int|
            0 <= i < values.len() ==> !comes_before(found, #[trigger] values[i]),
{
    if values.len() > 0 {
        let all = sorted(values);
        sorted_is_a_rearrangement(values);
        sorted_is_ordered(values);
        sorted_members(values);
        assert(values.contains(all[all.len() - 1]));
        assert forall|i: int| 0 <= i < values.len() implies !comes_before(
            all.last(),
            #[trigger] values[i],
        ) by {
            sorted_keeps(values, i);
            let k = choose|k: int| 0 <= k < all.len() && all[k] == values[i];
            if k == all.len() - 1 {
                text::precedes_irreflexive(values[i].key());
            } else {
                assert(!comes_before(all[all.len() - 1], all[k]));
            }
        }
    }
}

/// The shown records are those of the listed kind that belong to the given
/// accounts.
pub proof fn shown_are_seen<T: Listed>(values: Seq<T>, accounts: Set<Seq<char>>, value: T)
    ensures
        shown(values, accounts).contains(value) <==> values.contains(value) && value.current()
            && accounts.contains(value.account()),
{
    let seen = shown(values, accounts);
    shown_belongs(values, accounts);
    if seen.contains(value) {
        let k = choose|k: int| 0 <= k < seen.len() && seen[k] == value;
        assert(values.contains(seen[k]));
    }
    if values.contains(value) && value.current() && accounts.contains(value.account()) {
        let i = choose|i: int| 0 <= i < values.len() && values[i] == value;
        shown_has_all(values, accounts, i);
    }
}

}
