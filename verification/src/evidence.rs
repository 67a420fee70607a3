//! Whether the durable observations of an account agree with each other and
//! with the full sets of its reconciliations.

use vstd::prelude::*;
use vstd::string::*;

use crate::columns::JsonColumns;
use crate::domain::AccountId;
use crate::error;
use crate::error::{Fault, StoreError};
use crate::json;
use crate::json::CanonicalJson;
use crate::reconciliation;
use crate::reconciliation::{set_json, ReconciliationResult};
use crate::snapshots;
use crate::snapshots::Snapshot;
use crate::text;
use crate::text::{join3, same_text, text_precedes};

verus! {

/// What a durable fact is, as far as full sets are concerned.
#[derive(Clone, Copy, Debug, PartialEq, Eq, Structural)]
pub enum EvidenceKind {
    Position,
    Order,
    Result,
}

/// A durable fact of an account, with what the domain reads from its payload.
pub struct EvidenceEvent {
    pub event_id: String,
    pub kind: EvidenceKind,
    pub account_id: String,
    pub payload: JsonColumns,
    pub snapshot: Result<Snapshot, String>,
    pub result: Result<ReconciliationResult, String>,
}

/// An observation: when, of what, and the digest of what was seen.
pub struct Fact {
    pub observed_at: i64,
    pub id: Seq<char>,
    pub hash: Seq<char>,
}

/// The members of a full set, with their digests.
pub open spec fn members(set: Seq<Snapshot>) -> Seq<(Seq<char>, Seq<char>)> {
    Seq::new(set.len(), |i: int| (set[i].id@, json::text_digest(set[i].payload@)))
}

/// A full set: when it was taken, its digest, and its members.
pub struct DurableSet {
    pub observed_at: i64,
    pub hash: Seq<char>,
    pub members: Seq<(Seq<char>, Seq<char>)>,
}

/// Two lists hold the same members.
pub open spec fn same_members(
    a: Seq<(Seq<char>, Seq<char>)>,
    b: Seq<(Seq<char>, Seq<char>)>,
) -> bool {
    &&& forall|i: int| 0 <= i < a.len() ==> b.contains(#[trigger] a[i])
    &&& forall|i: int| 0 <= i < b.len() ==> a.contains(#[trigger] b[i])
}

/// What is wrong with the account that a fact names.
pub open spec fn route_fault(
    event_id: Seq<char>,
    stored_account_id: Seq<char>,
    payload_account_id: Seq<char>,
) -> Option<Fault> {
    if stored_account_id == payload_account_id {
        None
    } else {
        Some(
            error::corrupt_fault(
                "core_event"@,
                event_id,
                "durable evidence payload account_id does not match event route"@,
            ),
        )
    }
}

/// Refuses a fact that names another account than its event.
pub fn ensure_durable_evidence_account(
    event_id: &str,
    stored_account_id: &str,
    payload_account_id: &AccountId,
) -> (r: Result<(), StoreError>)
    ensures
        error::fault(r) == route_fault(event_id@, stored_account_id@, payload_account_id@),
{
    if same_text(stored_account_id, payload_account_id.as_str()) {
        Ok(())
    } else {
        Err(
            StoreError::corrupt(
                "core_event",
                event_id,
                "durable evidence payload account_id does not match event route",
            ),
        )
    }
}

/// Which full set of a result is meant.
#[derive(Clone, Copy, Debug, PartialEq, Eq, Structural)]
pub enum MemberKind {
    Position,
    Order,
}

impl MemberKind {
    /// How it is described that a member is not one of the result.
    pub open spec fn stray_reason(self) -> Seq<char> {
        match self {
            MemberKind::Position => {
                "reconciliation position member does not match result account or observed_at"@
            },
            MemberKind::Order => {
                "reconciliation order member does not match result account or observed_at"@
            },
        }
    }

    /// How it is described that a member occurs twice.
    pub open spec fn twice_reason(self) -> Seq<char> {
        match self {
            MemberKind::Position => "reconciliation position full set contains duplicate keys"@,
            MemberKind::Order => "reconciliation order full set contains duplicate keys"@,
        }
    }

    /// The name under which faults about observations are reported.
    pub open spec fn fact_name(self) -> Seq<char> {
        match self {
            MemberKind::Position => "position_snapshot"@,
            MemberKind::Order => "order_snapshot"@,
        }
    }

    /// The name under which faults about full sets are reported.
    pub open spec fn set_name(self) -> Seq<char> {
        match self {
            MemberKind::Position => "reconciliation_positions"@,
            MemberKind::Order => "reconciliation_orders"@,
        }
    }

    fn fact_entity(self) -> (r: &'static str)
        ensures
            r@ == self.fact_name(),
    {
        match self {
            MemberKind::Position => "position_snapshot",
            MemberKind::Order => "order_snapshot",
        }
    }

    fn set_entity(self) -> (r: &'static str)
        ensures
            r@ == self.set_name(),
    {
        match self {
            MemberKind::Position => "reconciliation_positions",
            MemberKind::Order => "reconciliation_orders",
        }
    }
}

/// What is wrong with the members of a full set of a result.
pub open spec fn set_members_fault(
    kind: MemberKind,
    event_id: Seq<char>,
    account_id: Seq<char>,
    observed_at: i64,
    set: Seq<Snapshot>,
) -> Option<Fault>
    decreases set.len(),
{
    if set.len() == 0 {
        None
    } else {
        let last = set.last();
        error::first_of(
            set_members_fault(kind, event_id, account_id, observed_at, set.drop_last()),
            if last.account_id@ != account_id || last.observed_at != observed_at {
                Some(error::corrupt_fault("core_event"@, event_id, kind.stray_reason()))
            } else if exists|i: int|
                0 <= i < set.len() - 1 && (#[trigger] set[i]).id@ == last.id@ {
                Some(error::corrupt_fault("core_event"@, event_id, kind.twice_reason()))
            } else {
                None
            },
        )
    }
}

proof fn set_members_fault_of_prefix(
    kind: MemberKind,
    event_id: Seq<char>,
    account_id: Seq<char>,
    observed_at: i64,
    set: Seq<Snapshot>,
    n: int,
)
    requires
        0 <= n <= set.len(),
        set_members_fault(kind, event_id, account_id, observed_at, set.take(n)) is Some,
    ensures
        set_members_fault(kind, event_id, account_id, observed_at, set) == set_members_fault(
            kind,
            event_id,
            account_id,
            observed_at,
            set.take(n),
        ),
    decreases set.len(),
{
    if n < set.len() {
        assert(set.drop_last().take(n) =~= set.take(n));
        set_members_fault_of_prefix(kind, event_id, account_id, observed_at, set.drop_last(), n);
    } else {
        assert(set.take(n) =~= set);
    }
}

/// The names and digests of the members of a full set of a result.
pub fn durable_set_members(
    kind: MemberKind,
    event_id: &str,
    account_id: &str,
    observed_at: i64,
    set: &Vec<Snapshot>,
) -> (r: Result<Vec<(String, String)>, StoreError>)
    ensures
        error::fault(r) == set_members_fault(kind, event_id@, account_id@, observed_at, set@),
        r matches Ok(found) ==> pairs(found@) == members(set@),
{
    let mut found: Vec<(String, String)> = Vec::new();
    let mut i: usize = 0;
    while i < set.len()
        invariant
            i <= set.len(),
            found@.len() == i,
            forall|j: int|
                #![trigger found@[j]]
                0 <= j < i ==> found@[j].0@ == set@[j].id@ && found@[j].1@ == json::text_digest(
                    set@[j].payload@,
                ),
            set_members_fault(kind, event_id@, account_id@, observed_at, set@.take(i as int)) is None,
        decreases set.len() - i,
    {
        let ghost longer = set@.take(i + 1);
        assert(longer.drop_last() =~= set@.take(i as int));
        let snapshot = &set[i];
        if !same_text(snapshot.account_id.as_str(), account_id) || snapshot.observed_at
            != observed_at {
            proof {
                set_members_fault_of_prefix(
                    kind,
                    event_id@,
                    account_id@,
                    observed_at,
                    set@,
                    i + 1,
                );
            }
            let reason = match kind {
                MemberKind::Position => {
                    "reconciliation position member does not match result account or observed_at"
                },
                MemberKind::Order => {
                    "reconciliation order member does not match result account or observed_at"
                },
            };
            return Err(StoreError::corrupt("core_event", event_id, reason));
        }
        let mut k: usize = 0;
        while k < i
            invariant
                k <= i < set.len(),
                longer == set@.take(i + 1),
                *snapshot == set@[i as int],
                forall|j: int| 0 <= j < k ==> (#[trigger] longer[j]).id@ != snapshot.id@,
                longer.drop_last() == set@.take(i as int),
                snapshot.account_id@ == account_id@,
                snapshot.observed_at == observed_at,
                set_members_fault(
                    kind,
                    event_id@,
                    account_id@,
                    observed_at,
                    set@.take(i as int),
                ) is None,
            decreases i - k,
        {
            if same_text(set[k].id.as_str(), snapshot.id.as_str()) {
                proof {
                    assert(longer[k as int].id@ == longer.last().id@);
                    set_members_fault_of_prefix(
                        kind,
                        event_id@,
                        account_id@,
                        observed_at,
                        set@,
                        i + 1,
                    );
                }
                let reason = match kind {
                    MemberKind::Position => {
                        "reconciliation position full set contains duplicate keys"
                    },
                    MemberKind::Order => "reconciliation order full set contains duplicate keys",
                };
                return Err(StoreError::corrupt("core_event", event_id, reason));
            }
            k = k + 1;
        }
        found.push((snapshot.id.clone(), snapshot.payload.sha256_hex().to_owned()));
        i = i + 1;
    }
    assert(set@.take(i as int) =~= set@);
    assert(pairs(found@) =~= members(set@));
    Ok(found)
}

/// Pairs of texts, over mathematical texts.
pub open spec fn pairs(list: Seq<(String, String)>) -> Seq<(Seq<char>, Seq<char>)> {
    Seq::new(list.len(), |i: int| (list[i].0@, list[i].1@))
}

struct DurableFact {
    observed_at: i64,
    id: String,
    hash: String,
}

struct DurableFullSet {
    observed_at: i64,
    hash: String,
    members: Vec<(String, String)>,
}

spec fn fact_views(facts: Seq<DurableFact>) -> Seq<Fact> {
    Seq::new(
        facts.len(),
        |i: int|
            Fact { observed_at: facts[i].observed_at, id: facts[i].id@, hash: facts[i].hash@ },
    )
}

spec fn set_views(sets: Seq<DurableFullSet>) -> Seq<DurableSet> {
    Seq::new(
        sets.len(),
        |i: int|
            DurableSet {
                observed_at: sets[i].observed_at,
                hash: sets[i].hash@,
                members: pairs(sets[i].members@),
            },
    )
}

/// Some observation of the same thing at the same time says otherwise.
pub open spec fn fact_disputed(facts: Seq<Fact>, fact: Fact) -> bool {
    exists|i: int|
        0 <= i < facts.len() && (#[trigger] facts[i]).observed_at == fact.observed_at
            && facts[i].id == fact.id && facts[i].hash != fact.hash
}

/// Some full set for the same time says otherwise.
pub open spec fn set_disputed(sets: Seq<DurableSet>, set: DurableSet) -> bool {
    exists|i: int|
        0 <= i < sets.len() && (#[trigger] sets[i]).observed_at == set.observed_at && (
        sets[i].hash != set.hash || !same_members(sets[i].members, set.members))
}

fn find_pair(list: &Vec<(String, String)>, id: &str, hash: &str) -> (r: bool)
    ensures
        r == pairs(list@).contains((id@, hash@)),
{
    let ghost all = pairs(list@);
    let mut i: usize = 0;
    while i < list.len()
        invariant
            i <= list.len(),
            all == pairs(list@),
            forall|j: int| 0 <= j < i ==> all[j] != (id@, hash@),
        decreases list.len() - i,
    {
        if same_text(list[i].0.as_str(), id) && same_text(list[i].1.as_str(), hash) {
            assert(all[i as int] == (id@, hash@));
            return true;
        }
        i = i + 1;
    }
    false
}

fn all_pairs_in(a: &Vec<(String, String)>, b: &Vec<(String, String)>) -> (r: bool)
    ensures
        r == forall|i: int| 0 <= i < pairs(a@).len() ==> pairs(b@).contains(#[trigger] pairs(a@)[i]),
{
    let ghost left = pairs(a@);
    let ghost right = pairs(b@);
    let mut i: usize = 0;
    while i < a.len()
        invariant
            i <= a.len(),
            left == pairs(a@),
            right == pairs(b@),
            forall|j: int| 0 <= j < i ==> right.contains(#[trigger] left[j]),
        decreases a.len() - i,
    {
        if !find_pair(b, a[i].0.as_str(), a[i].1.as_str()) {
            assert(!right.contains(left[i as int]));
            return false;
        }
        assert(left[i as int] == (a@[i as int].0@, a@[i as int].1@));
        i = i + 1;
    }
    true
}

fn record_durable_single_fact(
    facts: &mut Vec<DurableFact>,
    kind: MemberKind,
    account_id: &str,
    member_id: &str,
    observed_at: i64,
    payload_hash: &str,
) -> (r: Result<(), StoreError>)
    ensures
        ({
            let fact = Fact { observed_at, id: member_id@, hash: payload_hash@ };
            &&& error::fault(r) == fact_fault(kind, account_id@, fact_views(old(facts)@), fact)
            &&& r is Ok ==> fact_views(final(facts)@) == fact_views(old(facts)@).push(fact)
        }),
{
    let ghost before = fact_views(facts@);
    let ghost fact = Fact { observed_at, id: member_id@, hash: payload_hash@ };
    let mut i: usize = 0;
    while i < facts.len()
        invariant
            i <= facts.len(),
            facts@ == old(facts)@,
            before == fact_views(facts@),
            fact == (Fact { observed_at, id: member_id@, hash: payload_hash@ }),
            forall|j: int|
                0 <= j < i ==> !((#[trigger] before[j]).observed_at == fact.observed_at
                    && before[j].id == fact.id && before[j].hash != fact.hash),
        decreases facts.len() - i,
    {
        if facts[i].observed_at == observed_at && same_text(facts[i].id.as_str(), member_id)
            && !same_text(facts[i].hash.as_str(), payload_hash) {
            assert(before[i as int].id == fact.id);
            return Err(
                StoreError::ObservationConflict {
                    entity: kind.fact_entity(),
                    key: join3(account_id, ":", member_id),
                    observed_at,
                },
            );
        }
        i = i + 1;
    }
    facts.push(
        DurableFact { observed_at, id: member_id.to_owned(), hash: payload_hash.to_owned() },
    );
    assert(fact_views(facts@) =~= before.push(fact));
    Ok(())
}

/// What is wrong with an observation beside those before it.
pub open spec fn fact_fault(
    kind: MemberKind,
    account_id: Seq<char>,
    facts: Seq<Fact>,
    fact: Fact,
) -> Option<Fault> {
    if fact_disputed(facts, fact) {
        Some(
            snapshots::observation_conflict(
                kind.fact_name(),
                account_id + ":"@ + fact.id,
                fact.observed_at,
            ),
        )
    } else {
        None
    }
}

/// What is wrong with a full set beside those before it.
pub open spec fn durable_set_fault(
    kind: MemberKind,
    account_id: Seq<char>,
    sets: Seq<DurableSet>,
    set: DurableSet,
) -> Option<Fault> {
    if set_disputed(sets, set) {
        Some(snapshots::observation_conflict(kind.set_name(), account_id, set.observed_at))
    } else {
        None
    }
}

fn record_durable_full_set(
    sets: &mut Vec<DurableFullSet>,
    kind: MemberKind,
    account_id: &str,
    observed_at: i64,
    payload_hash: &str,
    found: Vec<(String, String)>,
) -> (r: Result<(), StoreError>)
    ensures
        ({
            let set = DurableSet {
                observed_at,
                hash: payload_hash@,
                members: pairs(found@),
            };
            &&& error::fault(r) == durable_set_fault(kind, account_id@, set_views(old(sets)@), set)
            &&& r is Ok ==> set_views(final(sets)@) == set_views(old(sets)@).push(set)
        }),
{
    let ghost before = set_views(sets@);
    let ghost set = DurableSet { observed_at, hash: payload_hash@, members: pairs(found@) };
    let mut i: usize = 0;
    while i < sets.len()
        invariant
            i <= sets.len(),
            sets@ == old(sets)@,
            before == set_views(sets@),
            set == (DurableSet { observed_at, hash: payload_hash@, members: pairs(found@) }),
            forall|j: int|
                0 <= j < i ==> !((#[trigger] before[j]).observed_at == set.observed_at && (
                before[j].hash != set.hash || !same_members(before[j].members, set.members))),
        decreases sets.len() - i,
    {
        if sets[i].observed_at == observed_at {
            let same = same_text(sets[i].hash.as_str(), payload_hash) && all_pairs_in(
                &sets[i].members,
                &found,
            ) && all_pairs_in(&found, &sets[i].members);
            assert(before[i as int].members == pairs(sets@[i as int].members@));
            if !same {
                assert(before[i as int].hash != set.hash || !same_members(
                    before[i as int].members,
                    set.members,
                ));
                return Err(
                    StoreError::ObservationConflict {
                        entity: kind.set_entity(),
                        key: account_id.to_owned(),
                        observed_at,
                    },
                );
            }
        }
        i = i + 1;
    }
    sets.push(DurableFullSet { observed_at, hash: payload_hash.to_owned(), members: found });
    assert(set_views(sets@) =~= before.push(set));
    Ok(())
}

/// An observation contradicts a full set for its time.
pub open spec fn outside_sets(sets: Seq<DurableSet>, fact: Fact) -> bool {
    exists|i: int|
        0 <= i < sets.len() && (#[trigger] sets[i]).observed_at == fact.observed_at
            && !sets[i].members.contains((fact.id, fact.hash))
}

/// One observation stands before another, by time and then by name.
pub open spec fn stands_before(a: Fact, b: Fact) -> bool {
    a.observed_at < b.observed_at || (a.observed_at == b.observed_at && text::precedes(a.id, b.id))
}

/// The first observation, by time and then by name, that contradicts a full
/// set for its time.
pub open spec fn first_outside(facts: Seq<Fact>, sets: Seq<DurableSet>) -> Option<Fact>
    decreases facts.len(),
{
    if facts.len() == 0 {
        None
    } else {
        let best = first_outside(facts.drop_last(), sets);
        if outside_sets(sets, facts.last()) && (best matches Some(found) ==> stands_before(
            facts.last(),
            found,
        )) {
            Some(facts.last())
        } else {
            best
        }
    }
}

/// What is wrong with observations beside full sets.
pub open spec fn against_sets_fault(
    kind: MemberKind,
    account_id: Seq<char>,
    facts: Seq<Fact>,
    sets: Seq<DurableSet>,
) -> Option<Fault> {
    match first_outside(facts, sets) {
        Some(fact) => Some(
            snapshots::observation_conflict(
                kind.fact_name(),
                account_id + ":"@ + fact.id,
                fact.observed_at,
            ),
        ),
        None => None,
    }
}

fn is_outside_sets(sets: &Vec<DurableFullSet>, fact: &DurableFact) -> (r: bool)
    ensures
        r == outside_sets(
            set_views(sets@),
            Fact { observed_at: fact.observed_at, id: fact.id@, hash: fact.hash@ },
        ),
{
    let ghost all = set_views(sets@);
    let mut i: usize = 0;
    while i < sets.len()
        invariant
            i <= sets.len(),
            all == set_views(sets@),
            forall|j: int|
                0 <= j < i ==> !((#[trigger] all[j]).observed_at == fact.observed_at
                    && !all[j].members.contains((fact.id@, fact.hash@))),
        decreases sets.len() - i,
    {
        assert(all[i as int].members == pairs(sets@[i as int].members@));
        if sets[i].observed_at == fact.observed_at && !find_pair(
            &sets[i].members,
            fact.id.as_str(),
            fact.hash.as_str(),
        ) {
            return true;
        }
        i = i + 1;
    }
    false
}

fn validate_durable_facts_against_full_sets(
    kind: MemberKind,
    account_id: &str,
    facts: &Vec<DurableFact>,
    sets: &Vec<DurableFullSet>,
) -> (r: Result<(), StoreError>)
    ensures
        error::fault(r) == against_sets_fault(
            kind,
            account_id@,
            fact_views(facts@),
            set_views(sets@),
        ),
{
    let ghost all = fact_views(facts@);
    let ghost given = set_views(sets@);
    let mut best: usize = facts.len();
    let mut i: usize = 0;
    while i < facts.len()
        invariant
            i <= facts.len(),
            all == fact_views(facts@),
            given == set_views(sets@),
            best < i || best == facts.len(),
            best < facts.len() ==> first_outside(all.take(i as int), given) == Some(
                all[best as int],
            ),
            best == facts.len() ==> first_outside(all.take(i as int), given) is None,
        decreases facts.len() - i,
    {
        let ghost longer = all.take(i + 1);
        assert(longer.drop_last() =~= all.take(i as int));
        let better = if best < facts.len() {
            facts[i].observed_at < facts[best].observed_at || (facts[i].observed_at
                == facts[best].observed_at && text_precedes(
                facts[i].id.as_str(),
                facts[best].id.as_str(),
            ))
        } else {
            true
        };
        if is_outside_sets(sets, &facts[i]) && better {
            best = i;
        }
        i = i + 1;
    }
    assert(all.take(i as int) =~= all);
    if best < facts.len() {
        return Err(
            StoreError::ObservationConflict {
                entity: kind.fact_entity(),
                key: join3(account_id, ":", facts[best].id.as_str()),
                observed_at: facts[best].observed_at,
            },
        );
    }
    Ok(())
}

/// What the durable facts of an account say, in their order.
pub struct Evidence {
    pub positions: Seq<Fact>,
    pub orders: Seq<Fact>,
    pub position_sets: Seq<DurableSet>,
    pub order_sets: Seq<DurableSet>,
}

/// The observation that an event carries.
pub open spec fn fact_of(event: EvidenceEvent) -> Fact {
    let snapshot = event.snapshot->Ok_0;
    Fact {
        observed_at: snapshot.observed_at,
        id: snapshot.id@,
        hash: json::text_digest(event.payload.text@),
    }
}

/// The full set of positions that a result carries.
pub open spec fn position_set_of(result: ReconciliationResult) -> DurableSet {
    DurableSet {
        observed_at: result.observed_at,
        hash: json::text_digest(reconciliation::set_text(result.positions@)),
        members: members(result.positions@),
    }
}

/// The full set of orders that a result carries.
pub open spec fn order_set_of(result: ReconciliationResult) -> DurableSet {
    DurableSet {
        observed_at: result.observed_at,
        hash: json::text_digest(reconciliation::set_text(result.orders@)),
        members: members(result.orders@),
    }
}

/// What events say.
pub open spec fn evidence(events: Seq<EvidenceEvent>) -> Evidence
    decreases events.len(),
{
    if events.len() == 0 {
        Evidence {
            positions: Seq::empty(),
            orders: Seq::empty(),
            position_sets: Seq::empty(),
            order_sets: Seq::empty(),
        }
    } else {
        let before = evidence(events.drop_last());
        let last = events.last();
        match last.kind {
            EvidenceKind::Position => Evidence {
                positions: before.positions.push(fact_of(last)),
                ..before
            },
            EvidenceKind::Order => Evidence {
                orders: before.orders.push(fact_of(last)),
                ..before
            },
            EvidenceKind::Result => Evidence {
                position_sets: before.position_sets.push(position_set_of(last.result->Ok_0)),
                order_sets: before.order_sets.push(order_set_of(last.result->Ok_0)),
                ..before
            },
        }
    }
}

/// What is wrong with an event beside what was said before it.
pub open spec fn evidence_event_fault(
    account_id: Seq<char>,
    before: Evidence,
    event: EvidenceEvent,
) -> Option<Fault> {
    let id = event.event_id@;
    let f = json::stored_fault("core_event"@, id, event.payload.text@, event.payload.digest@);
    error::first_of(
        f,
        match event.kind {
            EvidenceKind::Result => match event.result {
                Err(error) => Some(error::corrupt_fault("core_event"@, id, error@)),
                Ok(result) => {
                    let f = route_fault(id, event.account_id@, result.account_id@);
                    let f = error::first_of(
                        f,
                        set_members_fault(
                            MemberKind::Position,
                            id,
                            result.account_id@,
                            result.observed_at,
                            result.positions@,
                        ),
                    );
                    let f = error::first_of(
                        f,
                        set_members_fault(
                            MemberKind::Order,
                            id,
                            result.account_id@,
                            result.observed_at,
                            result.orders@,
                        ),
                    );
                    let f = error::first_of(f, reconciliation::set_fault(result.positions@));
                    let f = error::first_of(f, reconciliation::set_fault(result.orders@));
                    let f = error::first_of(
                        f,
                        durable_set_fault(
                            MemberKind::Position,
                            account_id,
                            before.position_sets,
                            position_set_of(result),
                        ),
                    );
                    error::first_of(
                        f,
                        durable_set_fault(
                            MemberKind::Order,
                            account_id,
                            before.order_sets,
                            order_set_of(result),
                        ),
                    )
                },
            },
            _ => match event.snapshot {
                Err(error) => Some(error::corrupt_fault("core_event"@, id, error@)),
                Ok(snapshot) => error::first_of(
                    route_fault(id, event.account_id@, snapshot.account_id@),
                    if event.kind == EvidenceKind::Position {
                        fact_fault(
                            MemberKind::Position,
                            account_id,
                            before.positions,
                            fact_of(event),
                        )
                    } else {
                        fact_fault(MemberKind::Order, account_id, before.orders, fact_of(event))
                    },
                ),
            },
        },
    )
}

/// What is wrong with events, one after the other.
pub open spec fn evidence_fault(account_id: Seq<char>, events: Seq<EvidenceEvent>) -> Option<Fault>
    decreases events.len(),
{
    if events.len() == 0 {
        None
    } else {
        error::first_of(
            evidence_fault(account_id, events.drop_last()),
            evidence_event_fault(account_id, evidence(events.drop_last()), events.last()),
        )
    }
}

proof fn evidence_fault_of_prefix(account_id: Seq<char>, events: Seq<EvidenceEvent>, n: int)
    requires
        0 <= n <= events.len(),
        evidence_fault(account_id, events.take(n)) is Some,
    ensures
        evidence_fault(account_id, events) == evidence_fault(account_id, events.take(n)),
    decreases events.len(),
{
    if n < events.len() {
        assert(events.drop_last().take(n) =~= events.take(n));
        evidence_fault_of_prefix(account_id, events.drop_last(), n);
    } else {
        assert(events.take(n) =~= events);
    }
}

/// What is wrong with the durable facts of an account: two observations of one
/// thing at one time, or two full sets for one time, that differ; or an
/// observation that the full set for its time lacks.
pub open spec fn consistency_fault(
    account_id: Seq<char>,
    events: Seq<EvidenceEvent>,
) -> Option<Fault> {
    let said = evidence(events);
    let f = evidence_fault(account_id, events);
    let f = error::first_of(
        f,
        against_sets_fault(MemberKind::Position, account_id, said.positions, said.position_sets),
    );
    error::first_of(
        f,
        against_sets_fault(MemberKind::Order, account_id, said.orders, said.order_sets),
    )
}

struct Collected {
    positions: Vec<DurableFact>,
    orders: Vec<DurableFact>,
    position_sets: Vec<DurableFullSet>,
    order_sets: Vec<DurableFullSet>,
}

spec fn collected(found: Collected) -> Evidence {
    Evidence {
        positions: fact_views(found.positions@),
        orders: fact_views(found.orders@),
        position_sets: set_views(found.position_sets@),
        order_sets: set_views(found.order_sets@),
    }
}

fn collect_event(account_id: &str, found: &mut Collected, event: &EvidenceEvent) -> (r: Result<
    (),
    StoreError,
>)
    ensures
        error::fault(r) == evidence_event_fault(account_id@, collected(*old(found)), *event),
        r is Ok ==> collected(*final(found)) == (match event.kind {
            EvidenceKind::Position => Evidence {
                positions: collected(*old(found)).positions.push(fact_of(*event)),
                ..collected(*old(found))
            },
            EvidenceKind::Order => Evidence {
                orders: collected(*old(found)).orders.push(fact_of(*event)),
                ..collected(*old(found))
            },
            EvidenceKind::Result => Evidence {
                position_sets: collected(*old(found)).position_sets.push(
                    position_set_of(event.result->Ok_0),
                ),
                order_sets: collected(*old(found)).order_sets.push(
                    order_set_of(event.result->Ok_0),
                ),
                ..collected(*old(found))
            },
        }),
{
    let event_id = event.event_id.as_str();
    let payload = CanonicalJson::from_stored(
        "core_event",
        event_id,
        event.payload.text.clone(),
        event.payload.digest.clone(),
    )?;
    if event.kind == EvidenceKind::Result {
        let result = match &event.result {
            Ok(result) => result,
            Err(error) => {
                return Err(StoreError::corrupt("core_event", event_id, error.as_str()));
            },
        };
        ensure_durable_evidence_account(event_id, event.account_id.as_str(), &result.account_id)?;
        let positions = durable_set_members(
            MemberKind::Position,
            event_id,
            result.account_id.as_str(),
            result.observed_at,
            &result.positions,
        )?;
        let orders = durable_set_members(
            MemberKind::Order,
            event_id,
            result.account_id.as_str(),
            result.observed_at,
            &result.orders,
        )?;
        let positions_set = set_json(&result.positions)?;
        let orders_set = set_json(&result.orders)?;
        record_durable_full_set(
            &mut found.position_sets,
            MemberKind::Position,
            account_id,
            result.observed_at,
            positions_set.sha256_hex(),
            positions,
        )?;
        return record_durable_full_set(
            &mut found.order_sets,
            MemberKind::Order,
            account_id,
            result.observed_at,
            orders_set.sha256_hex(),
            orders,
        );
    }
    let snapshot = match &event.snapshot {
        Ok(snapshot) => snapshot,
        Err(error) => {
            return Err(StoreError::corrupt("core_event", event_id, error.as_str()));
        },
    };
    ensure_durable_evidence_account(event_id, event.account_id.as_str(), &snapshot.account_id)?;
    if event.kind == EvidenceKind::Position {
        record_durable_single_fact(
            &mut found.positions,
            MemberKind::Position,
            account_id,
            snapshot.id.as_str(),
            snapshot.observed_at,
            payload.sha256_hex(),
        )
    } else {
        record_durable_single_fact(
            &mut found.orders,
            MemberKind::Order,
            account_id,
            snapshot.id.as_str(),
            snapshot.observed_at,
            payload.sha256_hex(),
        )
    }
}

/// Refuses durable facts of an account that contradict each other.
pub fn validate_account_durable_snapshot_full_set_consistency(
    account_id: &AccountId,
    events: &Vec<EvidenceEvent>,
) -> (r: Result<(), StoreError>)
    ensures
        error::fault(r) == consistency_fault(account_id@, events@),
{
    let mut found = Collected {
        positions: Vec::new(),
        orders: Vec::new(),
        position_sets: Vec::new(),
        order_sets: Vec::new(),
    };
    let mut i: usize = 0;
    assert(fact_views(found.positions@) =~= Seq::<Fact>::empty());
    assert(fact_views(found.orders@) =~= Seq::<Fact>::empty());
    assert(set_views(found.position_sets@) =~= Seq::<DurableSet>::empty());
    assert(set_views(found.order_sets@) =~= Seq::<DurableSet>::empty());
    while i < events.len()
        invariant
            i <= events.len(),
            collected(found) == evidence(events@.take(i as int)),
            evidence_fault(account_id@, events@.take(i as int)) is None,
        decreases events.len() - i,
    {
        let ghost longer = events@.take(i + 1);
        assert(longer.drop_last() =~= events@.take(i as int));
        if let Err(error) = collect_event(account_id.as_str(), &mut found, &events[i]) {
            proof {
                evidence_fault_of_prefix(account_id@, events@, i + 1);
            }
            return Err(error);
        }
        i = i + 1;
    }
    assert(events@.take(i as int) =~= events@);
    validate_durable_facts_against_full_sets(
        MemberKind::Position,
        account_id.as_str(),
        &found.positions,
        &found.position_sets,
    )?;
    validate_durable_facts_against_full_sets(
        MemberKind::Order,
        account_id.as_str(),
        &found.orders,
        &found.order_sets,
    )
}

/// The durable facts of an account.
pub struct AccountEvidence {
    pub account_id: AccountId,
    pub events: Vec<EvidenceEvent>,
}

/// What is wrong with the durable facts of accounts, one after the other.
pub open spec fn all_consistency_fault(accounts: Seq<AccountEvidence>) -> Option<Fault>
    decreases accounts.len(),
{
    if accounts.len() == 0 {
        None
    } else {
        error::first_of(
            all_consistency_fault(accounts.drop_last()),
            consistency_fault(accounts.last().account_id@, accounts.last().events@),
        )
    }
}

proof fn all_consistency_fault_of_prefix(accounts: Seq<AccountEvidence>, n: int)
    requires
        0 <= n <= accounts.len(),
        all_consistency_fault(accounts.take(n)) is Some,
    ensures
        all_consistency_fault(accounts) == all_consistency_fault(accounts.take(n)),
    decreases accounts.len(),
{
    if n < accounts.len() {
        assert(accounts.drop_last().take(n) =~= accounts.take(n));
        all_consistency_fault_of_prefix(accounts.drop_last(), n);
    } else {
        assert(accounts.take(n) =~= accounts);
    }
}

/// Refuses durable facts of which those of some account contradict each other.
pub fn validate_all_durable_snapshot_full_set_consistency(accounts: &Vec<AccountEvidence>) -> (r:
    Result<(), StoreError>)
    ensures
        error::fault(r) == all_consistency_fault(accounts@),
{
    let mut i: usize = 0;
    while i < accounts.len()
        invariant
            i <= accounts.len(),
            all_consistency_fault(accounts@.take(i as int)) is None,
        decreases accounts.len() - i,
    {
        assert(accounts@.take(i + 1).drop_last() =~= accounts@.take(i as int));
        if let Err(error) = validate_account_durable_snapshot_full_set_consistency(
            &accounts[i].account_id,
            &accounts[i].events,
        ) {
            proof {
                all_consistency_fault_of_prefix(accounts@, i + 1);
            }
            return Err(error);
        }
        i = i + 1;
    }
    assert(accounts@.take(i as int) =~= accounts@);
    Ok(())
}

proof fn outside_is_found(facts: Seq<Fact>, sets: Seq<DurableSet>, i: int)
    requires
        0 <= i < facts.len(),
        outside_sets(sets, facts[i]),
    ensures
        first_outside(facts, sets) is Some,
    decreases facts.len(),
{
    if i < facts.len() - 1 {
        assert(facts.drop_last()[i] == facts[i]);
        outside_is_found(facts.drop_last(), sets, i);
    }
}

/// The observations that events tell of.
pub open spec fn told_facts(kind: MemberKind, events: Seq<EvidenceEvent>) -> Seq<Fact> {
    match kind {
        MemberKind::Position => evidence(events).positions,
        MemberKind::Order => evidence(events).orders,
    }
}

/// The full sets that events tell of.
pub open spec fn told_sets(kind: MemberKind, events: Seq<EvidenceEvent>) -> Seq<DurableSet> {
    match kind {
        MemberKind::Position => evidence(events).position_sets,
        MemberKind::Order => evidence(events).order_sets,
    }
}

/// The event is an observation of this kind.
pub open spec fn is_fact_event(kind: MemberKind, event: EvidenceEvent) -> bool {
    match kind {
        MemberKind::Position => event.kind is Position,
        MemberKind::Order => event.kind is Order,
    }
}

/// The full set that a result carries.
pub open spec fn set_of(kind: MemberKind, result: ReconciliationResult) -> DurableSet {
    match kind {
        MemberKind::Position => position_set_of(result),
        MemberKind::Order => order_set_of(result),
    }
}

/// The members of the full set that a result carries.
pub open spec fn set_in(kind: MemberKind, result: ReconciliationResult) -> Seq<Snapshot> {
    match kind {
        MemberKind::Position => result.positions@,
        MemberKind::Order => result.orders@,
    }
}

/// Where durable facts are consistent, the full set for the time of an
/// observation holds that very observation.
pub proof fn consistent_facts_are_members(
    kind: MemberKind,
    account_id: Seq<char>,
    events: Seq<EvidenceEvent>,
    i: int,
    k: int,
)
    requires
        consistency_fault(account_id, events) is None,
        0 <= i < told_facts(kind, events).len(),
        0 <= k < told_sets(kind, events).len(),
        told_facts(kind, events)[i].observed_at == told_sets(kind, events)[k].observed_at,
    ensures
        told_sets(kind, events)[k].members.contains(
            (told_facts(kind, events)[i].id, told_facts(kind, events)[i].hash),
        ),
{
    let facts = told_facts(kind, events);
    let sets = told_sets(kind, events);
    if !sets[k].members.contains((facts[i].id, facts[i].hash)) {
        assert(outside_sets(sets, facts[i]));
        outside_is_found(facts, sets, i);
    }
}

/// Where durable facts are consistent, two observations of one thing at one time
/// are the same.
pub proof fn consistent_facts_agree(
    kind: MemberKind,
    account_id: Seq<char>,
    events: Seq<EvidenceEvent>,
    i: int,
    j: int,
)
    requires
        evidence_fault(account_id, events) is None,
        0 <= i < j < told_facts(kind, events).len(),
        told_facts(kind, events)[i].observed_at == told_facts(kind, events)[j].observed_at,
        told_facts(kind, events)[i].id == told_facts(kind, events)[j].id,
    ensures
        told_facts(kind, events)[i].hash == told_facts(kind, events)[j].hash,
    decreases events.len(),
{
    let shorter = events.drop_last();
    let before = told_facts(kind, shorter);
    if j < before.len() {
        assert(told_facts(kind, events)[i] == before[i]);
        assert(told_facts(kind, events)[j] == before[j]);
        consistent_facts_agree(kind, account_id, shorter, i, j);
    } else {
        assert(told_facts(kind, events)[i] == before[i]);
        assert(!fact_disputed(before, told_facts(kind, events)[j]));
    }
}

/// Where durable facts are consistent, two full sets for one time are the same.
pub proof fn consistent_sets_agree(
    kind: MemberKind,
    account_id: Seq<char>,
    events: Seq<EvidenceEvent>,
    i: int,
    j: int,
)
    requires
        evidence_fault(account_id, events) is None,
        0 <= i < j < told_sets(kind, events).len(),
        told_sets(kind, events)[i].observed_at == told_sets(kind, events)[j].observed_at,
    ensures
        told_sets(kind, events)[i].hash == told_sets(kind, events)[j].hash,
        same_members(told_sets(kind, events)[i].members, told_sets(kind, events)[j].members),
    decreases events.len(),
{
    let shorter = events.drop_last();
    let before = told_sets(kind, shorter);
    if j < before.len() {
        assert(told_sets(kind, events)[i] == before[i]);
        assert(told_sets(kind, events)[j] == before[j]);
        consistent_sets_agree(kind, account_id, shorter, i, j);
    } else {
        assert(told_sets(kind, events)[i] == before[i]);
        assert(!set_disputed(before, told_sets(kind, events)[j]));
    }
}

/// Where durable facts are consistent, a full set is of one time, and holds
/// nothing twice.
pub proof fn consistent_sets_are_sound(
    kind: MemberKind,
    account_id: Seq<char>,
    events: Seq<EvidenceEvent>,
    n: int,
)
    requires
        evidence_fault(account_id, events) is None,
        0 <= n < events.len(),
        events[n].kind is Result,
    ensures
        events[n].result is Ok,
        ({
            let result = events[n].result->Ok_0;
            let set = set_in(kind, result);
            &&& forall|k: int|
                0 <= k < set.len() ==> (#[trigger] set[k]).observed_at == result.observed_at
            &&& forall|k: int, m: int|
                0 <= k < m < set.len() ==> (#[trigger] set[k]).id@ != (#[trigger] set[m]).id@
        }),
    decreases events.len(),
{
    if n < events.len() - 1 {
        assert(events.drop_last()[n] == events[n]);
        consistent_sets_are_sound(kind, account_id, events.drop_last(), n);
    } else {
        let result = events[n].result->Ok_0;
        sound_members(
            kind,
            events[n].event_id@,
            result.account_id@,
            result.observed_at,
            set_in(kind, result),
        );
    }
}

proof fn sound_members(
    kind: MemberKind,
    event_id: Seq<char>,
    account_id: Seq<char>,
    observed_at: i64,
    set: Seq<Snapshot>,
)
    requires
        set_members_fault(kind, event_id, account_id, observed_at, set) is None,
    ensures
        forall|k: int| 0 <= k < set.len() ==> (#[trigger] set[k]).observed_at == observed_at,
        forall|k: int, m: int|
            0 <= k < m < set.len() ==> (#[trigger] set[k]).id@ != (#[trigger] set[m]).id@,
    decreases set.len(),
{
    if set.len() > 0 {
        let shorter = set.drop_last();
        sound_members(kind, event_id, account_id, observed_at, shorter);
        assert forall|k: int| 0 <= k < set.len() implies (#[trigger] set[k]).observed_at
            == observed_at by {
            if k < set.len() - 1 {
                assert(shorter[k] == set[k]);
            }
        }
        assert forall|k: int, m: int| 0 <= k < m < set.len() implies (#[trigger] set[k]).id@ != (
        #[trigger] set[m]).id@ by {
            if m < set.len() - 1 {
                assert(shorter[k] == set[k] && shorter[m] == set[m]);
            } else {
                assert(set[m] == set.last());
            }
        }
    }
}

/// An observation of an event is among those that are told.
pub proof fn fact_event_is_told(kind: MemberKind, events: Seq<EvidenceEvent>, n: int) -> (r: int)
    requires
        0 <= n < events.len(),
        is_fact_event(kind, events[n]),
    ensures
        0 <= r < told_facts(kind, events).len(),
        told_facts(kind, events)[r] == fact_of(events[n]),
    decreases events.len(),
{
    let before = told_facts(kind, events.drop_last());
    if n < events.len() - 1 {
        assert(events.drop_last()[n] == events[n]);
        let r = fact_event_is_told(kind, events.drop_last(), n);
        assert(told_facts(kind, events)[r] == before[r]);
        r
    } else {
        before.len() as int
    }
}

/// The full set of a result is among those that are told.
pub proof fn set_event_is_told(kind: MemberKind, events: Seq<EvidenceEvent>, n: int) -> (r: int)
    requires
        0 <= n < events.len(),
        events[n].kind is Result,
    ensures
        0 <= r < told_sets(kind, events).len(),
        told_sets(kind, events)[r] == set_of(kind, events[n].result->Ok_0),
    decreases events.len(),
{
    let before = told_sets(kind, events.drop_last());
    if n < events.len() - 1 {
        assert(events.drop_last()[n] == events[n]);
        let r = set_event_is_told(kind, events.drop_last(), n);
        assert(told_sets(kind, events)[r] == before[r]);
        r
    } else {
        before.len() as int
    }
}

/// Two reports of the same thing at the same time say the same, or the evidence
/// of the account is refused.
pub proof fn reports_of_one_time_agree(
    account_id: Seq<char>,
    events: Seq<EvidenceEvent>,
    m: int,
    n: int,
)
    requires
        consistency_fault(account_id, events) is None,
        0 <= m < events.len(),
        0 <= n < events.len(),
        (events[m].kind is Position && events[n].kind is Position) || (events[m].kind is Order
            && events[n].kind is Order),
        (events[m].snapshot->Ok_0).id@ == (events[n].snapshot->Ok_0).id@,
        (events[m].snapshot->Ok_0).observed_at == (events[n].snapshot->Ok_0).observed_at,
    ensures
        json::text_digest(events[m].payload.text@) == json::text_digest(events[n].payload.text@),
{
    let kind = if events[m].kind is Position {
        MemberKind::Position
    } else {
        MemberKind::Order
    };
    let i = fact_event_is_told(kind, events, m);
    let j = fact_event_is_told(kind, events, n);
    if i < j {
        consistent_facts_agree(kind, account_id, events, i, j);
    } else if j < i {
        consistent_facts_agree(kind, account_id, events, j, i);
    }
}

/// What is reported of a position or an order at the time of a full set is in the
/// set, as it was reported.
pub proof fn reports_are_in_the_sets_of_their_time(
    account_id: Seq<char>,
    events: Seq<EvidenceEvent>,
    m: int,
    n: int,
)
    requires
        consistency_fault(account_id, events) is None,
        0 <= m < events.len(),
        0 <= n < events.len(),
        events[m].kind is Position || events[m].kind is Order,
        events[n].kind is Result,
        (events[m].snapshot->Ok_0).observed_at == (events[n].result->Ok_0).observed_at,
    ensures
        events[m].kind is Position ==> exists|k: int|
            0 <= k < (events[n].result->Ok_0).positions@.len() && (
            #[trigger] (events[n].result->Ok_0).positions@[k]).id@ == (
            events[m].snapshot->Ok_0).id@ && json::text_digest(
                (events[n].result->Ok_0).positions@[k].payload@,
            ) == json::text_digest(events[m].payload.text@),
        events[m].kind is Order ==> exists|k: int|
            0 <= k < (events[n].result->Ok_0).orders@.len() && (
            #[trigger] (events[n].result->Ok_0).orders@[k]).id@ == (
            events[m].snapshot->Ok_0).id@ && json::text_digest(
                (events[n].result->Ok_0).orders@[k].payload@,
            ) == json::text_digest(events[m].payload.text@),
{
    let kind = if events[m].kind is Position {
        MemberKind::Position
    } else {
        MemberKind::Order
    };
    let i = fact_event_is_told(kind, events, m);
    let j = set_event_is_told(kind, events, n);
    consistent_facts_are_members(kind, account_id, events, i, j);
    let set = set_in(kind, events[n].result->Ok_0);
    let told = told_sets(kind, events)[j].members;
    let fact = fact_of(events[m]);
    assert(told == members(set));
    assert(told.contains((fact.id, fact.hash)));
    let k = choose|k: int| 0 <= k < told.len() && told[k] == (fact.id, fact.hash);
    assert(told[k] == (set[k].id@, json::text_digest(set[k].payload@)));
    if kind is Position {
        assert(set[k] == (events[n].result->Ok_0).positions@[k]);
    } else {
        assert(set[k] == (events[n].result->Ok_0).orders@[k]);
    }
}

/// Two full sets of positions of the same time list the same, each the same under
/// the same name.
pub proof fn full_sets_of_one_time_agree(
    account_id: Seq<char>,
    events: Seq<EvidenceEvent>,
    m: int,
    n: int,
    k: int,
)
    requires
        consistency_fault(account_id, events) is None,
        0 <= m < events.len(),
        0 <= n < events.len(),
        events[m].kind is Result,
        events[n].kind is Result,
        (events[m].result->Ok_0).observed_at == (events[n].result->Ok_0).observed_at,
        0 <= k < (events[m].result->Ok_0).positions@.len(),
    ensures
        ({
            let member = (events[m].result->Ok_0).positions@[k];
            let set = (events[n].result->Ok_0).positions@;
            exists|a: int|
                0 <= a < set.len() && (#[trigger] set[a]).id@ == member.id@ && json::text_digest(
                    set[a].payload@,
                ) == json::text_digest(member.payload@)
        }),
{
    let kind = MemberKind::Position;
    let i = set_event_is_told(kind, events, m);
    let j = set_event_is_told(kind, events, n);
    let own = told_sets(kind, events)[i].members;
    let other = told_sets(kind, events)[j].members;
    if i < j {
        consistent_sets_agree(kind, account_id, events, i, j);
    } else if j < i {
        consistent_sets_agree(kind, account_id, events, j, i);
    }
    let set = (events[n].result->Ok_0).positions@;
    let member = (events[m].result->Ok_0).positions@[k];
    assert(own == members((events[m].result->Ok_0).positions@));
    assert(other == members(set));
    assert(own[k] == (member.id@, json::text_digest(member.payload@)));
    assert(other.contains(own[k]));
    let a = choose|a: int| 0 <= a < other.len() && other[a] == own[k];
    assert(set[a].id@ == member.id@);
}

/// Two full sets of orders of the same time list the same, each the same under
/// the same name.
pub proof fn full_order_sets_of_one_time_agree(
    account_id: Seq<char>,
    events: Seq<EvidenceEvent>,
    m: int,
    n: int,
    k: int,
)
    requires
        consistency_fault(account_id, events) is None,
        0 <= m < events.len(),
        0 <= n < events.len(),
        events[m].kind is Result,
        events[n].kind is Result,
        (events[m].result->Ok_0).observed_at == (events[n].result->Ok_0).observed_at,
        0 <= k < (events[m].result->Ok_0).orders@.len(),
    ensures
        ({
            let member = (events[m].result->Ok_0).orders@[k];
            let set = (events[n].result->Ok_0).orders@;
            exists|a: int|
                0 <= a < set.len() && (#[trigger] set[a]).id@ == member.id@ && json::text_digest(
                    set[a].payload@,
                ) == json::text_digest(member.payload@)
        }),
{
    let kind = MemberKind::Order;
    let i = set_event_is_told(kind, events, m);
    let j = set_event_is_told(kind, events, n);
    let own = told_sets(kind, events)[i].members;
    let other = told_sets(kind, events)[j].members;
    if i < j {
        consistent_sets_agree(kind, account_id, events, i, j);
    } else if j < i {
        consistent_sets_agree(kind, account_id, events, j, i);
    }
    let set = (events[n].result->Ok_0).orders@;
    let member = (events[m].result->Ok_0).orders@[k];
    assert(own == members((events[m].result->Ok_0).orders@));
    assert(other == members(set));
    assert(own[k] == (member.id@, json::text_digest(member.payload@)));
    assert(other.contains(own[k]));
    let a = choose|a: int| 0 <= a < other.len() && other[a] == own[k];
    assert(set[a].id@ == member.id@);
}

/// Every event of evidence is of the account that its payload names, intact and
/// readable.
pub proof fn evidence_is_of_its_account(
    account_id: Seq<char>,
    before: Evidence,
    event: EvidenceEvent,
)
    requires
        evidence_event_fault(account_id, before, event) is None,
    ensures
        json::stored_fault(
            "core_event"@,
            event.event_id@,
            event.payload.text@,
            event.payload.digest@,
        ) is None,
        event.kind is Result ==> event.result is Ok && (event.result->Ok_0).account_id@
            == event.account_id@,
        !(event.kind is Result) ==> event.snapshot is Ok && (event.snapshot->Ok_0).account_id@
            == event.account_id@,
{
}

/// The evidence of all accounts stands if and only if that of each of them does.
pub proof fn all_evidence_stands_if_each_does(accounts: Seq<AccountEvidence>)
    ensures
        all_consistency_fault(accounts) is None <==> forall|i: int|
            0 <= i < accounts.len() ==> consistency_fault(
                (#[trigger] accounts[i]).account_id@,
                accounts[i].events@,
            ) is None,
    decreases accounts.len(),
{
    if accounts.len() > 0 {
        let rest = accounts.drop_last();
        all_evidence_stands_if_each_does(rest);
        assert(forall|i: int| 0 <= i < rest.len() ==> #[trigger] rest[i] == accounts[i]);
        assert(forall|i: int| 0 <= i < rest.len() ==> #[trigger] accounts[i] == rest[i]);
        assert(accounts[accounts.len() - 1] == accounts.last());
    }
}

/// Of two reports that contradict a set, the one that was observed earlier is
/// named; of those of one time, the one whose name comes first.
pub proof fn earlier_reports_stand_first(a: Fact, b: Fact)
    ensures
        a.observed_at < b.observed_at ==> stands_before(a, b) && !stands_before(b, a),
        a.observed_at == b.observed_at ==> (stands_before(a, b) <==> text::precedes(a.id, b.id)),
{
}

}
