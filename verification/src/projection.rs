//! What the store knows of an account: the newest observations, the full sets
//! of its last reconciliation, and how durable facts bring them about.

use vstd::prelude::*;
use vstd::string::*;

use crate::checkpoint;
use crate::checkpoint::{
    advance_checkpoint, compare_full_set, Checkpoint, FullSetDecision, FullSetKind,
};
use crate::domain::AccountId;
use crate::error;
use crate::error::{Fault, StoreError};
use crate::json;
use crate::latest;
use crate::latest::{Latest, LatestRow, LatestTable};
use crate::reconciliation;
use crate::reconciliation::{
    set_json, AccountReconciliationCheckpoint, ReconciliationCompleteness, ReconciliationEvaluation,
    ReconciliationRequest, ReconciliationResult,
};
use crate::snapshots;
use crate::snapshots::{
    classify_full_set_member, ApplyDecision, DurableProjection, Observation, Snapshot,
    SnapshotKind,
};
use crate::text;

verus! {

/// What the store knows of an account.
pub struct AccountProjection {
    pub account_id: AccountId,
    pub account: LatestTable,
    pub symbols: LatestTable,
    pub positions: LatestTable,
    pub orders: LatestTable,
    pub position_members: LatestTable,
    pub order_members: LatestTable,
    pub checkpoint: Option<AccountReconciliationCheckpoint>,
}

/// What the store knows of an account, over mathematical tables.
pub struct Projected {
    pub account: Map<Seq<char>, Latest>,
    pub symbols: Map<Seq<char>, Latest>,
    pub positions: Map<Seq<char>, Latest>,
    pub orders: Map<Seq<char>, Latest>,
    pub position_members: Map<Seq<char>, Latest>,
    pub order_members: Map<Seq<char>, Latest>,
    pub checkpoint: Option<Checkpoint>,
}

impl View for AccountProjection {
    type V = Projected;

    open spec fn view(&self) -> Projected {
        Projected {
            account: self.account@,
            symbols: self.symbols@,
            positions: self.positions@,
            orders: self.orders@,
            position_members: self.position_members@,
            order_members: self.order_members@,
            checkpoint: checkpoint::optional_checkpoint(self.checkpoint),
        }
    }
}

/// What the store knows of an account of which it was told nothing.
pub open spec fn nothing_known() -> Projected {
    Projected {
        account: Map::empty(),
        symbols: Map::empty(),
        positions: Map::empty(),
        orders: Map::empty(),
        position_members: Map::empty(),
        order_members: Map::empty(),
        checkpoint: None,
    }
}

/// The time of the full set of positions that is kept.
pub open spec fn positions_watermark(state: Projected) -> Option<i64> {
    match state.checkpoint {
        Some(checkpoint) => Some(checkpoint.positions_observed_at),
        None => None,
    }
}

/// The time of the full set of orders that is kept.
pub open spec fn orders_watermark(state: Projected) -> Option<i64> {
    match state.checkpoint {
        Some(checkpoint) => Some(checkpoint.orders_observed_at),
        None => None,
    }
}

/// The digest of the member of a full set under a name.
pub open spec fn member_digest(
    members: Map<Seq<char>, Latest>,
    watermark: Option<i64>,
    id: Seq<char>,
) -> Option<Seq<char>> {
    if members.contains_key(id) && watermark == Some(members[id].observed_at) {
        Some(json::text_digest(members[id].payload))
    } else {
        None
    }
}

/// An observation contradicts the table, or the full set that goes with it.
pub open spec fn set_bound_disputed(
    table: Map<Seq<char>, Latest>,
    members: Map<Seq<char>, Latest>,
    watermark: Option<i64>,
    observation: Observation,
) -> bool {
    if snapshots::set_decision(observation.observed_at, watermark) is Some {
        snapshots::contradicts_set(
            observation.observed_at,
            json::text_digest(observation.payload),
            watermark,
            member_digest(members, watermark, observation.id),
        )
    } else {
        latest::disputed(table, observation)
    }
}

/// What an observation does to a table that goes with full sets.
pub open spec fn set_bound_decision(
    table: Map<Seq<char>, Latest>,
    watermark: Option<i64>,
    observation: Observation,
) -> ApplyDecision {
    match snapshots::set_decision(observation.observed_at, watermark) {
        Some(decision) => decision,
        None => latest::decision(table, observation),
    }
}

/// The table once the observation was made.
pub open spec fn set_bound_observed(
    table: Map<Seq<char>, Latest>,
    watermark: Option<i64>,
    observation: Observation,
    updated_at: i64,
) -> Map<Seq<char>, Latest> {
    if snapshots::set_decision(observation.observed_at, watermark) is Some {
        table
    } else {
        latest::observed(table, observation, updated_at)
    }
}

fn observe_set_bound(
    table: &mut LatestTable,
    members: &LatestTable,
    watermark: Option<i64>,
    kind: SnapshotKind,
    snapshot: &Snapshot,
    updated_at: i64,
) -> (r: Result<ApplyDecision, StoreError>)
    ensures
        error::fault(r) == (if set_bound_disputed(old(table)@, members@, watermark, snapshot@) {
            Some(latest::dispute(kind, snapshot@))
        } else {
            None
        }),
        r matches Ok(made) ==> made == set_bound_decision(old(table)@, watermark, snapshot@)
            && final(table)@ == set_bound_observed(old(table)@, watermark, snapshot@, updated_at),
        r is Err ==> final(table)@ == old(table)@,
{
    let member_hash: Option<String> = match (members.get(snapshot.id.as_str()), watermark) {
        (Some(row), Some(at)) => if row.observed_at == at {
            Some(row.payload.sha256_hex().to_owned())
        } else {
            None
        },
        _ => None,
    };
    let key = kind.row_key(snapshot.account_id.as_str(), snapshot.id.as_str());
    let decided = classify_full_set_member(
        kind.entity(),
        key.as_str(),
        snapshot.observed_at,
        snapshot.payload.sha256_hex(),
        watermark,
        &member_hash,
    )?;
    match decided {
        Some(decision) => Ok(decision),
        None => table.observe(kind, snapshot, updated_at),
    }
}

/// An observation contradicts what is known.
pub open spec fn snapshot_disputed(
    state: Projected,
    kind: DurableProjection,
    observation: Observation,
) -> bool {
    match kind {
        DurableProjection::Account => latest::disputed(state.account, observation),
        DurableProjection::Symbol => latest::disputed(state.symbols, observation),
        DurableProjection::Position => set_bound_disputed(
            state.positions,
            state.position_members,
            positions_watermark(state),
            observation,
        ),
        DurableProjection::Order => set_bound_disputed(
            state.orders,
            state.order_members,
            orders_watermark(state),
            observation,
        ),
        DurableProjection::MarketBar => false,
    }
}

/// What an observation does to what is known.
pub open spec fn snapshot_decision(
    state: Projected,
    kind: DurableProjection,
    observation: Observation,
) -> ApplyDecision {
    match kind {
        DurableProjection::Account => latest::decision(state.account, observation),
        DurableProjection::Symbol => latest::decision(state.symbols, observation),
        DurableProjection::Position => set_bound_decision(
            state.positions,
            positions_watermark(state),
            observation,
        ),
        DurableProjection::Order => set_bound_decision(
            state.orders,
            orders_watermark(state),
            observation,
        ),
        DurableProjection::MarketBar => ApplyDecision::Unchanged,
    }
}

/// What is known once the observation was made.
pub open spec fn with_snapshot(
    state: Projected,
    kind: DurableProjection,
    observation: Observation,
    updated_at: i64,
) -> Projected {
    match kind {
        DurableProjection::Account => Projected {
            account: latest::observed(state.account, observation, updated_at),
            ..state
        },
        DurableProjection::Symbol => Projected {
            symbols: latest::observed(state.symbols, observation, updated_at),
            ..state
        },
        DurableProjection::Position => Projected {
            positions: set_bound_observed(
                state.positions,
                positions_watermark(state),
                observation,
                updated_at,
            ),
            ..state
        },
        DurableProjection::Order => Projected {
            orders: set_bound_observed(state.orders, orders_watermark(state), observation, updated_at),
            ..state
        },
        DurableProjection::MarketBar => state,
    }
}

/// The kind under which faults about an observation are reported.
pub open spec fn reported_kind(kind: DurableProjection) -> SnapshotKind {
    match kind {
        DurableProjection::Account => SnapshotKind::Account,
        DurableProjection::Symbol => SnapshotKind::Symbol,
        DurableProjection::Position => SnapshotKind::Position,
        DurableProjection::Order => SnapshotKind::Order,
        DurableProjection::MarketBar => SnapshotKind::Market,
    }
}

/// The table once every member of a full set was observed.
pub open spec fn set_observed(
    table: Map<Seq<char>, Latest>,
    set: Seq<Snapshot>,
    updated_at: i64,
) -> Map<Seq<char>, Latest>
    decreases set.len(),
{
    if set.len() == 0 {
        table
    } else {
        latest::observed(
            set_observed(table, set.drop_last(), updated_at),
            set.last()@,
            updated_at,
        )
    }
}

/// What is wrong with observing every member of a full set.
pub open spec fn set_disputed(
    kind: SnapshotKind,
    table: Map<Seq<char>, Latest>,
    set: Seq<Snapshot>,
    updated_at: i64,
) -> Option<Fault>
    decreases set.len(),
{
    if set.len() == 0 {
        None
    } else {
        error::first_of(
            set_disputed(kind, table, set.drop_last(), updated_at),
            if latest::disputed(
                set_observed(table, set.drop_last(), updated_at),
                set.last()@,
            ) {
                Some(latest::dispute(kind, set.last()@))
            } else {
                None
            },
        )
    }
}

proof fn set_disputed_of_prefix(
    kind: SnapshotKind,
    table: Map<Seq<char>, Latest>,
    set: Seq<Snapshot>,
    updated_at: i64,
    n: int,
)
    requires
        0 <= n <= set.len(),
        set_disputed(kind, table, set.take(n), updated_at) is Some,
    ensures
        set_disputed(kind, table, set, updated_at) == set_disputed(
            kind,
            table,
            set.take(n),
            updated_at,
        ),
    decreases set.len(),
{
    if n < set.len() {
        assert(set.drop_last().take(n) =~= set.take(n));
        set_disputed_of_prefix(kind, table, set.drop_last(), updated_at, n);
    } else {
        assert(set.take(n) =~= set);
    }
}

/// The members of a full set, each under its name.
pub open spec fn set_members(set: Seq<Snapshot>, observed_at: i64) -> Map<Seq<char>, Latest>
    decreases set.len(),
{
    if set.len() == 0 {
        Map::empty()
    } else {
        set_members(set.drop_last(), observed_at).insert(
            set.last().id@,
            Latest {
                symbol: set.last().symbol@,
                payload: set.last().payload@,
                observed_at,
                updated_at: observed_at,
            },
        )
    }
}

/// A full set to be taken over.
pub struct FullSet {
    pub account_id: Seq<char>,
    pub observed_at: i64,
    pub set: Seq<Snapshot>,
    pub hash: Seq<char>,
}

/// The name under which faults about a full set are reported.
pub open spec fn full_set_name(kind: FullSetKind) -> Seq<char> {
    match kind {
        FullSetKind::Positions => "reconciliation_positions"@,
        FullSetKind::Orders => "reconciliation_orders"@,
    }
}

/// The kind of the members of a full set.
pub open spec fn member_kind(kind: FullSetKind) -> SnapshotKind {
    match kind {
        FullSetKind::Positions => SnapshotKind::Position,
        FullSetKind::Orders => SnapshotKind::Order,
    }
}

/// What is wrong with taking a full set over.
pub open spec fn full_set_fault(
    kind: FullSetKind,
    table: Map<Seq<char>, Latest>,
    kept: Option<(i64, Seq<char>)>,
    full: FullSet,
    updated_at: i64,
) -> Option<Fault> {
    if snapshots::contradicts(full.observed_at, full.hash, kept) {
        Some(
            snapshots::observation_conflict(
                full_set_name(kind),
                full.account_id,
                full.observed_at,
            ),
        )
    } else if checkpoint::full_set_decision(full.observed_at, kept) == FullSetDecision::Applied {
        set_disputed(member_kind(kind), table, full.set, updated_at)
    } else {
        None
    }
}

/// The table once a full set was taken over: its members are observed, and
/// whatever it lacks is gone unless it is newer.
pub open spec fn with_full_set(
    table: Map<Seq<char>, Latest>,
    kept: Option<(i64, Seq<char>)>,
    full: FullSet,
    updated_at: i64,
) -> Map<Seq<char>, Latest> {
    if checkpoint::full_set_decision(full.observed_at, kept) == FullSetDecision::Applied {
        latest::left_by_set(
            set_observed(table, full.set, updated_at),
            full.observed_at,
            reconciliation::snapshot_ids(full.set),
        )
    } else {
        table
    }
}

/// The members once a full set was taken over.
pub open spec fn with_full_set_members(
    members: Map<Seq<char>, Latest>,
    kept: Option<(i64, Seq<char>)>,
    full: FullSet,
) -> Map<Seq<char>, Latest> {
    if checkpoint::full_set_decision(full.observed_at, kept) == FullSetDecision::Applied {
        set_members(full.set, full.observed_at)
    } else {
        members
    }
}

fn ids_of(set: &Vec<Snapshot>) -> (r: Vec<String>)
    ensures
        text::texts(r@) == reconciliation::snapshot_ids(set@),
{
    let mut ids: Vec<String> = Vec::new();
    let mut i: usize = 0;
    while i < set.len()
        invariant
            i <= set.len(),
            ids@.len() == i,
            forall|j: int| 0 <= j < i ==> (#[trigger] ids@[j])@ == set@[j].id@,
        decreases set.len() - i,
    {
        ids.push(set[i].id.clone());
        i = i + 1;
    }
    assert(text::texts(ids@) =~= reconciliation::snapshot_ids(set@));
    ids
}

fn members_of(set: &Vec<Snapshot>, observed_at: i64) -> (r: LatestTable)
    ensures
        r@ == set_members(set@, observed_at),
{
    let mut members = LatestTable::new();
    let mut i: usize = 0;
    while i < set.len()
        invariant
            i <= set.len(),
            members@ == set_members(set@.take(i as int), observed_at),
        decreases set.len() - i,
    {
        assert(set@.take(i + 1).drop_last() =~= set@.take(i as int));
        members.put(
            LatestRow {
                id: set[i].id.clone(),
                symbol: set[i].symbol.clone(),
                payload: set[i].payload.clone(),
                observed_at,
                updated_at: observed_at,
            },
        );
        i = i + 1;
    }
    assert(set@.take(i as int) =~= set@);
    members
}

/// Takes a full set over into a table and its members.
fn apply_full_set(
    kind: FullSetKind,
    table: &mut LatestTable,
    members: &mut LatestTable,
    kept: Option<(i64, String)>,
    account_id: &AccountId,
    observed_at: i64,
    set: &Vec<Snapshot>,
    hash: &str,
    updated_at: i64,
) -> (r: Result<(), StoreError>)
    ensures
        ({
            let full = FullSet {
                account_id: account_id@,
                observed_at,
                set: set@,
                hash: hash@,
            };
            &&& error::fault(r) == full_set_fault(
                kind,
                old(table)@,
                snapshots::kept(kept),
                full,
                updated_at,
            )
            &&& r is Ok ==> final(table)@ == with_full_set(
                old(table)@,
                snapshots::kept(kept),
                full,
                updated_at,
            )
            &&& r is Ok ==> final(members)@ == with_full_set_members(
                old(members)@,
                snapshots::kept(kept),
                full,
            )
        }),
{
    let entity = match kind {
        FullSetKind::Positions => "reconciliation_positions",
        FullSetKind::Orders => "reconciliation_orders",
    };
    let snapshot_kind = match kind {
        FullSetKind::Positions => SnapshotKind::Position,
        FullSetKind::Orders => SnapshotKind::Order,
    };
    let decided = compare_full_set(entity, account_id, observed_at, hash, kept)?;
    if decided != FullSetDecision::Applied {
        return Ok(());
    }
    let ghost before = table@;
    let mut i: usize = 0;
    while i < set.len()
        invariant
            i <= set.len(),
            before == old(table)@,
            snapshot_kind == member_kind(kind),
            table@ == set_observed(before, set@.take(i as int), updated_at),
            set_disputed(snapshot_kind, before, set@.take(i as int), updated_at) is None,
            !snapshots::contradicts(observed_at, hash@, snapshots::kept(kept)),
            checkpoint::full_set_decision(observed_at, snapshots::kept(kept))
                == FullSetDecision::Applied,
        decreases set.len() - i,
    {
        assert(set@.take(i + 1).drop_last() =~= set@.take(i as int));
        if let Err(error) = table.observe(snapshot_kind, &set[i], updated_at) {
            proof {
                set_disputed_of_prefix(snapshot_kind, before, set@, updated_at, i + 1);
            }
            return Err(error);
        }
        i = i + 1;
    }
    assert(set@.take(i as int) =~= set@);
    let ids = ids_of(set);
    table.leave_by_set(observed_at, &ids);
    *members = members_of(set, observed_at);
    Ok(())
}

/// The full set of positions of a result.
pub open spec fn positions_of(result: ReconciliationResult) -> FullSet {
    FullSet {
        account_id: result.account_id@,
        observed_at: result.observed_at,
        set: result.positions@,
        hash: json::text_digest(reconciliation::set_text(result.positions@)),
    }
}

/// The full set of orders of a result.
pub open spec fn orders_of(result: ReconciliationResult) -> FullSet {
    FullSet {
        account_id: result.account_id@,
        observed_at: result.observed_at,
        set: result.orders@,
        hash: json::text_digest(reconciliation::set_text(result.orders@)),
    }
}

/// The time and the digest of the full set of positions that is kept.
pub open spec fn kept_positions(state: Projected) -> Option<(i64, Seq<char>)> {
    match state.checkpoint {
        Some(checkpoint) => Some(
            (checkpoint.positions_observed_at, checkpoint.positions_set_hash),
        ),
        None => None,
    }
}

/// The time and the digest of the full set of orders that is kept.
pub open spec fn kept_orders(state: Projected) -> Option<(i64, Seq<char>)> {
    match state.checkpoint {
        Some(checkpoint) => Some((checkpoint.orders_observed_at, checkpoint.orders_set_hash)),
        None => None,
    }
}

/// A result with what was made of it.
pub struct Outcome {
    pub request: ReconciliationRequest,
    pub result: ReconciliationResult,
    pub evaluation: ReconciliationEvaluation,
    pub completeness: ReconciliationCompleteness,
}

/// What is wrong with taking a result over.
pub open spec fn result_fault(state: Projected, outcome: Outcome, updated_at: i64) -> Option<
    Fault,
> {
    let result = outcome.result;
    let f = match result.account {
        Some(account) => if latest::disputed(state.account, account@) {
            Some(latest::dispute(SnapshotKind::Account, account@))
        } else {
            None
        },
        None => None,
    };
    let f = error::first_of(
        f,
        set_disputed(
            SnapshotKind::Symbol,
            state.symbols,
            result.symbol_metadata@,
            updated_at,
        ),
    );
    let f = error::first_of(f, reconciliation::set_fault(result.positions@));
    let f = error::first_of(f, reconciliation::set_fault(result.orders@));
    let f = error::first_of(
        f,
        full_set_fault(
            FullSetKind::Positions,
            state.positions,
            kept_positions(state),
            positions_of(result),
            updated_at,
        ),
    );
    error::first_of(
        f,
        full_set_fault(
            FullSetKind::Orders,
            state.orders,
            kept_orders(state),
            orders_of(result),
            updated_at,
        ),
    )
}

/// What is known once a result was taken over.
pub open spec fn with_result(state: Projected, outcome: Outcome, updated_at: i64) -> Projected {
    let result = outcome.result;
    Projected {
        account: match result.account {
            Some(account) => latest::observed(state.account, account@, updated_at),
            None => state.account,
        },
        symbols: set_observed(state.symbols, result.symbol_metadata@, updated_at),
        positions: with_full_set(
            state.positions,
            kept_positions(state),
            positions_of(result),
            updated_at,
        ),
        orders: with_full_set(state.orders, kept_orders(state), orders_of(result), updated_at),
        position_members: with_full_set_members(
            state.position_members,
            kept_positions(state),
            positions_of(result),
        ),
        order_members: with_full_set_members(
            state.order_members,
            kept_orders(state),
            orders_of(result),
        ),
        checkpoint: Some(
            checkpoint::advanced(
                state.checkpoint,
                checkpoint::advance_of(
                    outcome.request,
                    result,
                    outcome.evaluation,
                    outcome.completeness,
                    reconciliation::set_text(result.positions@),
                    reconciliation::set_text(result.orders@),
                    updated_at,
                ),
            ),
        ),
    }
}

impl AccountProjection {
    /// What is known of an account of which nothing was told.
    pub fn new(account_id: AccountId) -> (r: AccountProjection)
        ensures
            r.account_id == account_id,
            r@ == nothing_known(),
    {
        AccountProjection {
            account_id,
            account: LatestTable::new(),
            symbols: LatestTable::new(),
            positions: LatestTable::new(),
            orders: LatestTable::new(),
            position_members: LatestTable::new(),
            order_members: LatestTable::new(),
            checkpoint: None,
        }
    }

    /// Makes an observation of the account, or of a symbol, a position or an
    /// order of it.
    pub fn apply_snapshot(
        &mut self,
        kind: DurableProjection,
        snapshot: &Snapshot,
        updated_at: i64,
    ) -> (r: Result<ApplyDecision, StoreError>)
        ensures
            final(self).account_id == old(self).account_id,
            error::fault(r) == (if snapshot_disputed(old(self)@, kind, snapshot@) {
                Some(latest::dispute(reported_kind(kind), snapshot@))
            } else {
                None
            }),
            r matches Ok(made) ==> made == snapshot_decision(old(self)@, kind, snapshot@)
                && final(self)@ == with_snapshot(old(self)@, kind, snapshot@, updated_at),
            r is Err ==> final(self)@ == old(self)@,
    {
        let (positions_at, orders_at): (Option<i64>, Option<i64>) = match &self.checkpoint {
            Some(checkpoint) => (
                Some(checkpoint.positions_observed_at),
                Some(checkpoint.orders_observed_at),
            ),
            None => (None, None),
        };
        match kind {
            DurableProjection::Account => self.account.observe(
                SnapshotKind::Account,
                snapshot,
                updated_at,
            ),
            DurableProjection::Symbol => self.symbols.observe(
                SnapshotKind::Symbol,
                snapshot,
                updated_at,
            ),
            DurableProjection::Position => observe_set_bound(
                &mut self.positions,
                &self.position_members,
                positions_at,
                SnapshotKind::Position,
                snapshot,
                updated_at,
            ),
            DurableProjection::Order => observe_set_bound(
                &mut self.orders,
                &self.order_members,
                orders_at,
                SnapshotKind::Order,
                snapshot,
                updated_at,
            ),
            DurableProjection::MarketBar => Ok(ApplyDecision::Unchanged),
        }
    }

    /// Takes a result over: the account and the symbols that it reports, its
    /// two full sets, and the checkpoint.
    pub fn apply_result(
        self,
        request: &ReconciliationRequest,
        result: &ReconciliationResult,
        evaluation: &ReconciliationEvaluation,
        completeness: ReconciliationCompleteness,
        updated_at: i64,
    ) -> (r: Result<AccountProjection, StoreError>)
        ensures
            ({
                let outcome = Outcome {
                    request: *request,
                    result: *result,
                    evaluation: *evaluation,
                    completeness,
                };
                &&& error::fault(r) == result_fault(self@, outcome, updated_at)
                &&& r matches Ok(after) ==> after.account_id == self.account_id && after@
                    == with_result(self@, outcome, updated_at)
            }),
    {
        let ghost before = self@;
        let ghost outcome = Outcome {
            request: *request,
            result: *result,
            evaluation: *evaluation,
            completeness,
        };
        let mut after = self;
        if let Some(account) = &result.account {
            after.account.observe(SnapshotKind::Account, account, updated_at)?;
        }
        let mut i: usize = 0;
        while i < result.symbol_metadata.len()
            invariant
                i <= result.symbol_metadata.len(),
                outcome.result == *result,
                after.account_id == self.account_id,
                before == self@,
                after@ == (Projected {
                    account: match result.account {
                        Some(account) => latest::observed(before.account, account@, updated_at),
                        None => before.account,
                    },
                    symbols: set_observed(
                        before.symbols,
                        result.symbol_metadata@.take(i as int),
                        updated_at,
                    ),
                    ..before
                }),
                set_disputed(
                    SnapshotKind::Symbol,
                    before.symbols,
                    result.symbol_metadata@.take(i as int),
                    updated_at,
                ) is None,
                result.account matches Some(account) ==> !latest::disputed(
                    before.account,
                    account@,
                ),
            decreases result.symbol_metadata.len() - i,
        {
            let ghost all = result.symbol_metadata@;
            assert(all.take(i + 1).drop_last() =~= all.take(i as int));
            if let Err(error) = after.symbols.observe(
                SnapshotKind::Symbol,
                &result.symbol_metadata[i],
                updated_at,
            ) {
                proof {
                    set_disputed_of_prefix(
                        SnapshotKind::Symbol,
                        before.symbols,
                        all,
                        updated_at,
                        i + 1,
                    );
                }
                return Err(error);
            }
            i = i + 1;
        }
        assert(result.symbol_metadata@.take(i as int) =~= result.symbol_metadata@);
        let positions_set = set_json(&result.positions)?;
        let orders_set = set_json(&result.orders)?;
        let (kept_positions, kept_orders): (Option<(i64, String)>, Option<(i64, String)>) =
            match &after.checkpoint {
            Some(checkpoint) => (
                Some((checkpoint.positions_observed_at, checkpoint.positions_set_hash.clone())),
                Some((checkpoint.orders_observed_at, checkpoint.orders_set_hash.clone())),
            ),
            None => (None, None),
        };
        apply_full_set(
            FullSetKind::Positions,
            &mut after.positions,
            &mut after.position_members,
            kept_positions,
            &result.account_id,
            result.observed_at,
            &result.positions,
            positions_set.sha256_hex(),
            updated_at,
        )?;
        apply_full_set(
            FullSetKind::Orders,
            &mut after.orders,
            &mut after.order_members,
            kept_orders,
            &result.account_id,
            result.observed_at,
            &result.orders,
            orders_set.sha256_hex(),
            updated_at,
        )?;
        let existing = after.checkpoint;
        let advanced = advance_checkpoint(
            request,
            result,
            evaluation,
            completeness,
            &positions_set,
            &orders_set,
            updated_at,
            existing,
        );
        Ok(
            AccountProjection {
                account_id: after.account_id,
                account: after.account,
                symbols: after.symbols,
                positions: after.positions,
                orders: after.orders,
                position_members: after.position_members,
                order_members: after.order_members,
                checkpoint: Some(advanced),
            },
        )
    }
}

/// A single observation of a position or an order is taken only if it is newer
/// than the last full set and than what is known of it; against the set it is
/// nothing, and if it is of the time of the set it must be in it.
pub proof fn single_observations_yield_to_full_sets(
    table: Map<Seq<char>, Latest>,
    members: Map<Seq<char>, Latest>,
    watermark: Option<i64>,
    observation: Observation,
    updated_at: i64,
)
    ensures
        ({
            let after = set_bound_observed(table, watermark, observation, updated_at);
            let id = observation.id;
            let covered = watermark is Some && observation.observed_at <= watermark->0;
            &&& covered ==> after == table
            &&& !covered && (!table.contains_key(id) || table[id].observed_at
                < observation.observed_at) ==> after.contains_key(id) && after[id].payload
                == observation.payload && after[id].observed_at == observation.observed_at
                && set_bound_decision(table, watermark, observation) is Applied
            &&& !covered && table.contains_key(id) && table[id].observed_at
                >= observation.observed_at ==> after == table
            &&& covered && observation.observed_at < watermark->0 ==> set_bound_decision(
                table,
                watermark,
                observation,
            ) is IgnoredOlder && !set_bound_disputed(table, members, watermark, observation)
            &&& covered && observation.observed_at == watermark->0 ==> set_bound_decision(
                table,
                watermark,
                observation,
            ) is Unchanged && (set_bound_disputed(table, members, watermark, observation) <==> !(
            members.contains_key(id) && members[id].observed_at == watermark->0
                && json::text_digest(members[id].payload) == json::text_digest(
                observation.payload,
            )))
            &&& !covered ==> (set_bound_disputed(table, members, watermark, observation)
                <==> table.contains_key(id) && table[id].observed_at == observation.observed_at
                && json::text_digest(table[id].payload) != json::text_digest(observation.payload))
        }),
{
}

/// Positions are held against the time of the positions of the checkpoint, orders
/// against that of its orders; accounts and symbols are not bound to any set.
pub proof fn each_kind_is_held_against_its_own(
    state: Projected,
    observation: Observation,
    updated_at: i64,
)
    ensures
        state.checkpoint is None ==> positions_watermark(state) is None && orders_watermark(
            state,
        ) is None && kept_positions(state) is None && kept_orders(state) is None,
        state.checkpoint is Some ==> positions_watermark(state) == Some(
            (state.checkpoint->0).positions_observed_at,
        ) && orders_watermark(state) == Some((state.checkpoint->0).orders_observed_at)
            && kept_positions(state) == Some(
            (
                (state.checkpoint->0).positions_observed_at,
                (state.checkpoint->0).positions_set_hash,
            ),
        ) && kept_orders(state) == Some(
            ((state.checkpoint->0).orders_observed_at, (state.checkpoint->0).orders_set_hash),
        ),
        with_snapshot(state, DurableProjection::Account, observation, updated_at) == (Projected {
            account: latest::observed(state.account, observation, updated_at),
            ..state
        }),
        with_snapshot(state, DurableProjection::Symbol, observation, updated_at) == (Projected {
            symbols: latest::observed(state.symbols, observation, updated_at),
            ..state
        }),
        with_snapshot(state, DurableProjection::Position, observation, updated_at) == (Projected {
            positions: set_bound_observed(
                state.positions,
                positions_watermark(state),
                observation,
                updated_at,
            ),
            ..state
        }),
        with_snapshot(state, DurableProjection::Order, observation, updated_at) == (Projected {
            orders: set_bound_observed(
                state.orders,
                orders_watermark(state),
                observation,
                updated_at,
            ),
            ..state
        }),
        with_snapshot(state, DurableProjection::MarketBar, observation, updated_at) == state,
{
}

/// The members of a set are what it lists: each under its name, with its payload,
/// at the time of the set.
pub proof fn members_are_what_a_set_lists(set: Seq<Snapshot>, observed_at: i64, i: int)
    requires
        0 <= i < set.len(),
        forall|a: int, b: int|
            0 <= a < b < set.len() ==> (#[trigger] set[a]).id@ != (#[trigger] set[b]).id@,
    ensures
        set_members(set, observed_at).contains_key(set[i].id@),
        set_members(set, observed_at)[set[i].id@].payload == set[i].payload@,
        set_members(set, observed_at)[set[i].id@].symbol == set[i].symbol@,
        set_members(set, observed_at)[set[i].id@].observed_at == observed_at,
    decreases set.len(),
{
    let rest = set.drop_last();
    if i < rest.len() {
        assert(rest[i] == set[i]);
        assert forall|a: int, b: int| 0 <= a < b < rest.len() implies (#[trigger] rest[a]).id@ != (
        #[trigger] rest[b]).id@ by {
            assert(rest[a] == set[a] && rest[b] == set[b]);
        }
        members_are_what_a_set_lists(rest, observed_at, i);
        assert(set[i].id@ != set[set.len() - 1].id@);
    }
}

/// A set has no other members than those it lists.
pub proof fn sets_have_no_other_members(set: Seq<Snapshot>, observed_at: i64, id: Seq<char>)
    requires
        forall|i: int| 0 <= i < set.len() ==> (#[trigger] set[i]).id@ != id,
    ensures
        !set_members(set, observed_at).contains_key(id),
    decreases set.len(),
{
    if set.len() > 0 {
        let rest = set.drop_last();
        assert forall|i: int| 0 <= i < rest.len() implies (#[trigger] rest[i]).id@ != id by {
            assert(rest[i] == set[i]);
        }
        sets_have_no_other_members(rest, observed_at, id);
        assert(set[set.len() - 1].id@ != id);
    }
}

/// A full set that is newer than the last takes its place: nothing that is not in
/// it stays, unless it is newer. One that is not newer changes nothing.
pub proof fn newer_full_sets_clear_what_they_do_not_list(
    table: Map<Seq<char>, Latest>,
    members: Map<Seq<char>, Latest>,
    kept: Option<(i64, Seq<char>)>,
    full: FullSet,
    updated_at: i64,
    id: Seq<char>,
)
    ensures
        ({
            let after = with_full_set(table, kept, full, updated_at);
            let newer = kept is None || full.observed_at > (kept->0).0;
            &&& newer && !reconciliation::snapshot_ids(full.set).contains(id)
                && after.contains_key(id) ==> after[id].observed_at > full.observed_at
            &&& newer && reconciliation::snapshot_ids(full.set).contains(id) ==> (
            after.contains_key(id) <==> set_observed(table, full.set, updated_at).contains_key(id))
            &&& newer ==> with_full_set_members(members, kept, full) == set_members(
                full.set,
                full.observed_at,
            )
            &&& !newer ==> after == table && with_full_set_members(members, kept, full) == members
        }),
{
}

/// Every member of a newer set is known afterwards, as of the time of the set or
/// later.
pub proof fn members_of_a_set_are_known(
    table: Map<Seq<char>, Latest>,
    set: Seq<Snapshot>,
    updated_at: i64,
    i: int,
)
    requires
        0 <= i < set.len(),
    ensures
        set_observed(table, set, updated_at).contains_key(set[i].id@),
        set_observed(table, set, updated_at)[set[i].id@].observed_at >= set[i].observed_at,
    decreases set.len(),
{
    if i < set.len() - 1 {
        assert(set.drop_last()[i] == set[i]);
        members_of_a_set_are_known(table, set.drop_last(), updated_at, i);
    }
}

/// A result changes everything it reports: the account if it reports one, the
/// symbols it lists, the positions and the orders as full sets, and the
/// checkpoint.
pub proof fn results_change_what_they_report(state: Projected, outcome: Outcome, updated_at: i64)
    ensures
        ({
            let after = with_result(state, outcome, updated_at);
            let result = outcome.result;
            &&& result.account is None ==> after.account == state.account
            &&& result.account is Some ==> after.account == latest::observed(
                state.account,
                (result.account->0)@,
                updated_at,
            )
            &&& after.symbols == set_observed(state.symbols, result.symbol_metadata@, updated_at)
            &&& after.positions == with_full_set(
                state.positions,
                kept_positions(state),
                (FullSet {
                    account_id: result.account_id@,
                    observed_at: result.observed_at,
                    set: result.positions@,
                    hash: json::text_digest(reconciliation::set_text(result.positions@)),
                }),
                updated_at,
            )
            &&& after.orders == with_full_set(
                state.orders,
                kept_orders(state),
                (FullSet {
                    account_id: result.account_id@,
                    observed_at: result.observed_at,
                    set: result.orders@,
                    hash: json::text_digest(reconciliation::set_text(result.orders@)),
                }),
                updated_at,
            )
            &&& after.checkpoint is Some
        }),
{
}

/// A full set contradicts the kept one only if it is of the same time and not the
/// same.
pub proof fn full_sets_of_one_time_are_the_same(
    kind: FullSetKind,
    table: Map<Seq<char>, Latest>,
    kept: (i64, Seq<char>),
    full: FullSet,
    updated_at: i64,
)
    ensures
        full.observed_at == kept.0 ==> (full_set_fault(
            kind,
            table,
            Some(kept),
            full,
            updated_at,
        ) is None <==> full.hash == kept.1),
        full.observed_at < kept.0 ==> full_set_fault(
            kind,
            table,
            Some(kept),
            full,
            updated_at,
        ) is None,
{
}

/// What becomes of an observation is decided against what is known of its own
/// kind.
pub proof fn observations_are_decided_by_kind(state: Projected, observation: Observation)
    ensures
        snapshot_decision(state, DurableProjection::Account, observation) == latest::decision(
            state.account,
            observation,
        ),
        snapshot_decision(state, DurableProjection::Symbol, observation) == latest::decision(
            state.symbols,
            observation,
        ),
        snapshot_decision(state, DurableProjection::Position, observation) == set_bound_decision(
            state.positions,
            positions_watermark(state),
            observation,
        ),
        snapshot_decision(state, DurableProjection::Order, observation) == set_bound_decision(
            state.orders,
            orders_watermark(state),
            observation,
        ),
        snapshot_decision(state, DurableProjection::MarketBar, observation) is Unchanged,
        snapshot_disputed(state, DurableProjection::Account, observation) <==> latest::disputed(
            state.account,
            observation,
        ),
        snapshot_disputed(state, DurableProjection::Symbol, observation) <==> latest::disputed(
            state.symbols,
            observation,
        ),
        snapshot_disputed(state, DurableProjection::Position, observation) <==> set_bound_disputed(
            state.positions,
            state.position_members,
            positions_watermark(state),
            observation,
        ),
        snapshot_disputed(state, DurableProjection::Order, observation) <==> set_bound_disputed(
            state.orders,
            state.order_members,
            orders_watermark(state),
            observation,
        ),
        !snapshot_disputed(state, DurableProjection::MarketBar, observation),
{
}

}
