//! Rebuilding what is known of accounts and markets from durable observations.

use vstd::prelude::*;
use vstd::string::*;

use crate::columns::JsonColumns;
use crate::core_events;
use crate::core_events::resolve_core_event_replay;
use crate::domain::AccountId;
use crate::error;
use crate::error::{Fault, StoreError};
use crate::evidence;
use crate::evidence::{
    validate_account_durable_snapshot_full_set_consistency,
    validate_all_durable_snapshot_full_set_consistency, AccountEvidence, EvidenceEvent,
};
use crate::json;
use crate::json::CanonicalJson;
use crate::latest;
use crate::latest::LatestTable;
use crate::model::{NewCoreEvent, StoredCoreEvent, WriteOutcome};
use crate::projection;
use crate::projection::{AccountProjection, Projected};
use crate::rebuild;
use crate::rebuild::{
    replay_reconciliation_events, take_account, type_of_snapshot, ReplayedEvent,
};
use crate::reconciliation::RESULT_EVENT_TYPE;
use crate::snapshots;
use crate::snapshots::{
    classify_market_bar, ingest_outcome, market_outcome, validate_identity, ApplyDecision,
    DurableProjection, MarketBar, Observation, ProjectionWriteOutcome, Snapshot, SnapshotKind,
};
use crate::text::same_text;

verus! {

/// A durable observation that is replayed, with what the domain reads from its
/// payload.
pub struct IngestedEvent {
    pub event_id: String,
    pub event_type: String,
    pub account_id: Option<String>,
    pub received_at: i64,
    pub payload: JsonColumns,
    pub snapshot: Result<Snapshot, String>,
    pub bar: Result<MarketBar, String>,
}

/// What a replay of observations came to.
#[derive(Clone, Copy, Debug, PartialEq, Eq, Structural)]
pub struct StateIngestProjectionRebuildReport {
    pub replayed_facts: u64,
    pub applied: u64,
    pub ignored_older: u64,
    pub unchanged: u64,
}

impl Default for StateIngestProjectionRebuildReport {
    fn default() -> (r: Self)
        ensures
            r == (StateIngestProjectionRebuildReport {
                replayed_facts: 0,
                applied: 0,
                ignored_older: 0,
                unchanged: 0,
            }),
    {
        StateIngestProjectionRebuildReport {
            replayed_facts: 0,
            applied: 0,
            ignored_older: 0,
            unchanged: 0,
        }
    }
}

/// A market bar that is kept.
pub struct BarRow {
    pub account_id: String,
    pub bar: MarketBar,
    pub updated_at: i64,
}

/// The place of a market bar.
pub struct BarPlace {
    pub account_id: Seq<char>,
    pub symbol: Seq<char>,
    pub timeframe: Seq<char>,
    pub timestamp: i64,
}

/// A market bar that is kept, over mathematical texts.
pub struct KeptBar {
    pub payload: Seq<char>,
    pub updated_at: i64,
}

/// Where a market bar of an account belongs.
pub open spec fn place(account_id: Seq<char>, bar: MarketBar) -> BarPlace {
    BarPlace {
        account_id,
        symbol: bar.symbol@,
        timeframe: bar.timeframe@,
        timestamp: bar.timestamp,
    }
}

/// The market bars in rows.
pub open spec fn bars_of(rows: Seq<BarRow>) -> Map<BarPlace, KeptBar>
    decreases rows.len(),
{
    if rows.len() == 0 {
        Map::empty()
    } else {
        bars_of(rows.drop_last()).insert(
            place(rows.last().account_id@, rows.last().bar),
            KeptBar {
                payload: rows.last().bar.payload@,
                updated_at: rows.last().updated_at,
            },
        )
    }
}

proof fn bar_at(rows: Seq<BarRow>, at: int)
    requires
        0 <= at < rows.len(),
        forall|i: int|
            at < i < rows.len() ==> place((#[trigger] rows[i]).account_id@, rows[i].bar) != place(
                rows[at].account_id@,
                rows[at].bar,
            ),
    ensures
        bars_of(rows).contains_key(place(rows[at].account_id@, rows[at].bar)),
        bars_of(rows)[place(rows[at].account_id@, rows[at].bar)].payload == rows[at].bar.payload@,
    decreases rows.len(),
{
    if at < rows.len() - 1 {
        assert(rows.drop_last()[at] == rows[at]);
        assert(rows[rows.len() - 1] == rows.last());
        assert forall|i: int| at < i < rows.drop_last().len() implies place(
            (#[trigger] rows.drop_last()[i]).account_id@,
            rows.drop_last()[i].bar,
        ) != place(rows[at].account_id@, rows[at].bar) by {
            assert(rows.drop_last()[i] == rows[i]);
        }
        bar_at(rows.drop_last(), at);
    }
}

proof fn bar_absent(rows: Seq<BarRow>, wanted: BarPlace)
    requires
        forall|i: int|
            0 <= i < rows.len() ==> place((#[trigger] rows[i]).account_id@, rows[i].bar) != wanted,
    ensures
        !bars_of(rows).contains_key(wanted),
    decreases rows.len(),
{
    if rows.len() > 0 {
        assert(rows[rows.len() - 1] == rows.last());
        assert forall|i: int| 0 <= i < rows.drop_last().len() implies place(
            (#[trigger] rows.drop_last()[i]).account_id@,
            rows.drop_last()[i].bar,
        ) != wanted by {
            assert(rows.drop_last()[i] == rows[i]);
        }
        bar_absent(rows.drop_last(), wanted);
    }
}

fn kept_bar_hash(rows: &Vec<BarRow>, account_id: &str, bar: &MarketBar) -> (r: Option<String>)
    ensures
        r is Some <==> bars_of(rows@).contains_key(place(account_id@, *bar)),
        r matches Some(hash) ==> hash@ == json::text_digest(
            bars_of(rows@)[place(account_id@, *bar)].payload,
        ),
{
    let mut i: usize = rows.len();
    while i > 0
        invariant
            i <= rows.len(),
            forall|j: int|
                i <= j < rows.len() ==> place((#[trigger] rows@[j]).account_id@, rows@[j].bar)
                    != place(account_id@, *bar),
        decreases i,
    {
        i = i - 1;
        if same_text(rows[i].account_id.as_str(), account_id) && same_text(
            rows[i].bar.symbol.as_str(),
            bar.symbol.as_str(),
        ) && same_text(rows[i].bar.timeframe.as_str(), bar.timeframe.as_str())
            && rows[i].bar.timestamp == bar.timestamp {
            proof {
                bar_at(rows@, i as int);
            }
            return Some(rows[i].bar.payload.sha256_hex().to_owned());
        }
    }
    proof {
        bar_absent(rows@, place(account_id@, *bar));
    }
    None
}

/// An event is about a market bar.
pub open spec fn is_bar(event: IngestedEvent) -> bool {
    event.event_type@ == DurableProjection::MarketBar.name()
}

/// What an event is about, where it is an observation of an account.
pub open spec fn kind_of(event: IngestedEvent) -> Option<DurableProjection> {
    rebuild::snapshot_type(event.event_type@)
}

/// What is wrong with an event, by itself.
pub open spec fn ingested_fault(event: IngestedEvent) -> Option<Fault> {
    let id = event.event_id@;
    let f = json::stored_fault("core_event"@, id, event.payload.text@, event.payload.digest@);
    error::first_of(
        f,
        match event.account_id {
            None => rebuild::event_corrupt(id, "account_id is required for projection"@),
            Some(account_id) => if kind_of(event) is Some {
                match event.snapshot {
                    Err(error) => rebuild::event_corrupt(id, error@),
                    Ok(snapshot) => if account_id@ != snapshot.account_id@ {
                        rebuild::event_corrupt(
                            id,
                            "payload account_id does not match fact account_id"@,
                        )
                    } else {
                        None
                    },
                }
            } else if is_bar(event) {
                match event.bar {
                    Err(error) => rebuild::event_corrupt(id, error@),
                    Ok(_) => None,
                }
            } else {
                None
            },
        },
    )
}

/// What the durable observations alone, without the results of reconciliations,
/// say of an account.
pub open spec fn observed_alone(events: Seq<IngestedEvent>, account_id: Seq<char>) -> Projected
    decreases events.len(),
{
    if events.len() == 0 {
        projection::nothing_known()
    } else {
        let before = observed_alone(events.drop_last(), account_id);
        let last = events.last();
        if kind_of(last) is Some && (last.snapshot->Ok_0).account_id@ == account_id {
            projection::with_snapshot(
                before,
                kind_of(last)->0,
                (last.snapshot->Ok_0)@,
                last.received_at,
            )
        } else {
            before
        }
    }
}

/// The market bars that are kept once events were replayed: of each place the
/// first.
pub open spec fn bars_known(events: Seq<IngestedEvent>) -> Map<BarPlace, KeptBar>
    decreases events.len(),
{
    if events.len() == 0 {
        Map::empty()
    } else {
        let before = bars_known(events.drop_last());
        let last = events.last();
        let at = place((last.account_id->0)@, last.bar->Ok_0);
        if is_bar(last) && !before.contains_key(at) {
            before.insert(
                at,
                KeptBar {
                    payload: (last.bar->Ok_0).payload@,
                    updated_at: last.received_at,
                },
            )
        } else {
            before
        }
    }
}

/// What is wrong with what an event says beside those before it.
pub open spec fn ingest_step_fault(before: Seq<IngestedEvent>, event: IngestedEvent) -> Option<
    Fault,
> {
    if kind_of(event) is Some {
        let kind = kind_of(event)->0;
        let observation = (event.snapshot->Ok_0)@;
        if projection::snapshot_disputed(
            observed_alone(before, (event.snapshot->Ok_0).account_id@),
            kind,
            observation,
        ) {
            Some(latest::dispute(projection::reported_kind(kind), observation))
        } else {
            None
        }
    } else if is_bar(event) {
        let bar = event.bar->Ok_0;
        let account_id = (event.account_id->0)@;
        let bars = bars_known(before);
        let at = place(account_id, bar);
        if bars.contains_key(at) && json::text_digest(bars[at].payload) != json::text_digest(
            bar.payload@,
        ) {
            Some(
                snapshots::observation_conflict(
                    "market_bar"@,
                    snapshots::bar_key(account_id, bar),
                    bar.timestamp,
                ),
            )
        } else {
            None
        }
    } else {
        None
    }
}

/// What an event comes to beside those before it, where it is an observation.
pub open spec fn ingest_decision(before: Seq<IngestedEvent>, event: IngestedEvent) -> Option<
    ApplyDecision,
> {
    if kind_of(event) is Some {
        Some(
            projection::snapshot_decision(
                observed_alone(before, (event.snapshot->Ok_0).account_id@),
                kind_of(event)->0,
                (event.snapshot->Ok_0)@,
            ),
        )
    } else if is_bar(event) {
        Some(
            if bars_known(before).contains_key(place((event.account_id->0)@, event.bar->Ok_0)) {
                ApplyDecision::Unchanged
            } else {
                ApplyDecision::Applied
            },
        )
    } else {
        None
    }
}

/// What is wrong with replaying events.
pub open spec fn ingest_fault(events: Seq<IngestedEvent>) -> Option<Fault>
    decreases events.len(),
{
    if events.len() == 0 {
        None
    } else {
        let f = ingest_fault(events.drop_last());
        let f = error::first_of(f, ingested_fault(events.last()));
        error::first_of(f, ingest_step_fault(events.drop_last(), events.last()))
    }
}

proof fn ingest_fault_of_prefix(events: Seq<IngestedEvent>, n: int)
    requires
        0 <= n <= events.len(),
        ingest_fault(events.take(n)) is Some,
    ensures
        ingest_fault(events) == ingest_fault(events.take(n)),
    decreases events.len(),
{
    if n < events.len() {
        assert(events.drop_last().take(n) =~= events.take(n));
        ingest_fault_of_prefix(events.drop_last(), n);
    } else {
        assert(events.take(n) =~= events);
    }
}

/// How many of the events came to a decision.
pub open spec fn decided(events: Seq<IngestedEvent>, decision: ApplyDecision) -> nat
    decreases events.len(),
{
    if events.len() == 0 {
        0
    } else {
        decided(events.drop_last(), decision) + (if ingest_decision(
            events.drop_last(),
            events.last(),
        ) == Some(decision) {
            1nat
        } else {
            0nat
        })
    }
}

/// What a replay of observations brought about.
pub struct RebuiltIngest {
    pub report: StateIngestProjectionRebuildReport,
    pub accounts: Vec<AccountProjection>,
    pub bars: Vec<BarRow>,
}

fn copy_bar(bar: &MarketBar) -> (r: MarketBar)
    ensures
        r == *bar,
{
    MarketBar {
        symbol: bar.symbol.clone(),
        timeframe: bar.timeframe.clone(),
        timestamp: bar.timestamp,
        payload: bar.payload.clone(),
    }
}

/// Refuses an observation that names another account than its event.
pub fn ensure_fact_account(
    event_id: &str,
    stored_account_id: &str,
    payload_account_id: &AccountId,
) -> (r: Result<(), StoreError>)
    ensures
        error::fault(r) == (if stored_account_id@ == payload_account_id@ {
            None
        } else {
            rebuild::event_corrupt(
                event_id@,
                "payload account_id does not match fact account_id"@,
            )
        }),
{
    if same_text(stored_account_id, payload_account_id.as_str()) {
        Ok(())
    } else {
        Err(
            StoreError::corrupt(
                "core_event",
                event_id,
                "payload account_id does not match fact account_id",
            ),
        )
    }
}

/// Takes one observation over.
fn ingest_event(
    Ghost(before): Ghost<Seq<IngestedEvent>>,
    accounts: &mut Vec<AccountProjection>,
    bars: &mut Vec<BarRow>,
    event: &IngestedEvent,
) -> (r: Result<Option<ApplyDecision>, StoreError>)
    requires
        forall|id: Seq<char>| #[trigger]
            rebuild::account_of(old(accounts)@, id) == observed_alone(before, id),
        bars_of(old(bars)@) == bars_known(before),
    ensures
        error::fault(r) == error::first_of(
            ingested_fault(*event),
            ingest_step_fault(before, *event),
        ),
        r matches Ok(decision) ==> {
            &&& decision == ingest_decision(before, *event)
            &&& forall|id: Seq<char>| #[trigger]
                rebuild::account_of(final(accounts)@, id) == observed_alone(before.push(*event), id)
            &&& bars_of(final(bars)@) == bars_known(before.push(*event))
        },
{
    let ghost after = before.push(*event);
    assert(after.drop_last() =~= before);
    let event_id = event.event_id.as_str();
    CanonicalJson::from_stored(
        "core_event",
        event_id,
        event.payload.text.clone(),
        event.payload.digest.clone(),
    )?;
    let account_id = match &event.account_id {
        Some(account_id) => account_id,
        None => {
            return Err(
                StoreError::corrupt(
                    "core_event",
                    event_id,
                    "account_id is required for projection",
                ),
            );
        },
    };
    if let Some(kind) = type_of_snapshot(event.event_type.as_str()) {
        let snapshot = match &event.snapshot {
            Ok(snapshot) => snapshot,
            Err(error) => {
                return Err(StoreError::corrupt("core_event", event_id, error.as_str()));
            },
        };
        ensure_fact_account(event_id, account_id.as_str(), &snapshot.account_id)?;
        proof {
            different_types(event.event_type@);
        }
        let ghost start = accounts@;
        let mut state = take_account(accounts, &snapshot.account_id);
        let ghost left = accounts@;
        assert(rebuild::account_of(start, snapshot.account_id@) == observed_alone(
            before,
            snapshot.account_id@,
        ));
        let decision = state.apply_snapshot(kind, snapshot, event.received_at)?;
        let ghost made = state;
        accounts.push(state);
        proof {
            rebuild::pushed(left, made);
            assert forall|id: Seq<char>| #[trigger] rebuild::account_of(accounts@, id)
                == observed_alone(after, id) by {
                assert(rebuild::account_of(start, id) == observed_alone(before, id));
            }
        }
        return Ok(Some(decision));
    }
    if same_text(event.event_type.as_str(), DurableProjection::MarketBar.event_type()) {
        let bar = match &event.bar {
            Ok(bar) => bar,
            Err(error) => {
                return Err(StoreError::corrupt("core_event", event_id, error.as_str()));
            },
        };
        let existing = kept_bar_hash(bars, account_id.as_str(), bar);
        let decision = classify_market_bar(account_id.as_str(), bar, &existing)?;
        proof {
            assert forall|id: Seq<char>| #[trigger] rebuild::account_of(accounts@, id)
                == observed_alone(after, id) by {
                assert(observed_alone(after, id) == observed_alone(before, id));
            }
        }
        if existing.is_none() {
            let ghost kept = bars@;
            let row = BarRow {
                account_id: account_id.clone(),
                bar: copy_bar(bar),
                updated_at: event.received_at,
            };
            let ghost added = row;
            bars.push(row);
            assert(kept.push(added).drop_last() =~= kept);
        }
        return Ok(Some(decision));
    }
    proof {
        assert forall|id: Seq<char>| #[trigger] rebuild::account_of(accounts@, id)
            == observed_alone(after, id) by {
            assert(observed_alone(after, id) == observed_alone(before, id));
        }
    }
    Ok(None)
}

proof fn different_types(event_type: Seq<char>)
    ensures
        rebuild::snapshot_type(event_type) is Some ==> event_type
            != DurableProjection::MarketBar.name(),
{
    reveal_strlit("account.snapshot");
    reveal_strlit("symbol.metadata");
    reveal_strlit("position.snapshot");
    reveal_strlit("order.snapshot");
    reveal_strlit("market.bar");
    assert(DurableProjection::MarketBar.name().len() == 10);
}

/// Replays durable observations alone, in their order.
pub fn replay_ingested_events(events: &Vec<IngestedEvent>) -> (r: Result<
    RebuiltIngest,
    StoreError,
>)
    ensures
        error::fault(r) == ingest_fault(events@),
        r matches Ok(rebuilt) ==> {
            &&& forall|id: Seq<char>| #[trigger]
                rebuild::account_of(rebuilt.accounts@, id) == observed_alone(events@, id)
            &&& bars_of(rebuilt.bars@) == bars_known(events@)
            &&& rebuilt.report.applied == decided(events@, ApplyDecision::Applied)
            &&& rebuilt.report.ignored_older == decided(events@, ApplyDecision::IgnoredOlder)
            &&& rebuilt.report.unchanged == decided(events@, ApplyDecision::Unchanged)
            &&& rebuilt.report.replayed_facts == rebuilt.report.applied
                + rebuilt.report.ignored_older + rebuilt.report.unchanged
        },
{
    let mut accounts: Vec<AccountProjection> = Vec::new();
    let mut bars: Vec<BarRow> = Vec::new();
    let mut report = StateIngestProjectionRebuildReport::default();
    let mut i: usize = 0;
    while i < events.len()
        invariant
            i <= events.len(),
            ingest_fault(events@.take(i as int)) is None,
            forall|id: Seq<char>| #[trigger]
                rebuild::account_of(accounts@, id) == observed_alone(events@.take(i as int), id),
            bars_of(bars@) == bars_known(events@.take(i as int)),
            report.applied == decided(events@.take(i as int), ApplyDecision::Applied),
            report.ignored_older == decided(events@.take(i as int), ApplyDecision::IgnoredOlder),
            report.unchanged == decided(events@.take(i as int), ApplyDecision::Unchanged),
            report.replayed_facts == report.applied + report.ignored_older + report.unchanged,
            report.replayed_facts <= i,
        decreases events.len() - i,
    {
        let ghost shorter = events@.take(i as int);
        let ghost longer = events@.take(i + 1);
        assert(longer.drop_last() =~= shorter);
        assert(longer =~= shorter.push(events@[i as int]));
        match ingest_event(Ghost(shorter), &mut accounts, &mut bars, &events[i]) {
            Err(error) => {
                proof {
                    ingest_fault_of_prefix(events@, i + 1);
                }
                return Err(error);
            },
            Ok(Some(decision)) => {
                report.replayed_facts = report.replayed_facts + 1;
                match decision {
                    ApplyDecision::Applied => {
                        report.applied = report.applied + 1;
                    },
                    ApplyDecision::IgnoredOlder => {
                        report.ignored_older = report.ignored_older + 1;
                    },
                    ApplyDecision::Unchanged => {
                        report.unchanged = report.unchanged + 1;
                    },
                }
            },
            Ok(None) => {},
        }
        i = i + 1;
    }
    assert(events@.take(i as int) =~= events@);
    Ok(RebuiltIngest { report, accounts, bars })
}

/// What a rebuild brought about: every account is as its observations and its
/// reconciliations left it, the market bars are those of the observations, and
/// the report counts the observations.
pub open spec fn ingested_from(
    rebuilt: RebuiltIngest,
    events: Seq<IngestedEvent>,
    replayed: Seq<ReplayedEvent>,
) -> bool {
    &&& forall|id: Seq<char>| #[trigger]
        rebuild::account_of(rebuilt.accounts@, id) == rebuild::known(replayed, id)
    &&& bars_of(rebuilt.bars@) == bars_known(events)
    &&& rebuilt.report.applied == decided(events, ApplyDecision::Applied)
    &&& rebuilt.report.ignored_older == decided(events, ApplyDecision::IgnoredOlder)
    &&& rebuilt.report.unchanged == decided(events, ApplyDecision::Unchanged)
    &&& rebuilt.report.replayed_facts == rebuilt.report.applied + rebuilt.report.ignored_older
        + rebuilt.report.unchanged
}

/// Rebuilds what is known of every account, and the market bars, once the
/// durable facts were found not to contradict each other. `events` holds the
/// durable observations, and `replayed` the observations of accounts together
/// with the results of their reconciliations. The observations are replayed
/// alone first: that gives the bars and the report. What is known of the
/// accounts is what both together say.
pub fn rebuild_ingest_projections(
    evidence: &Vec<AccountEvidence>,
    events: &Vec<IngestedEvent>,
    replayed: &Vec<ReplayedEvent>,
) -> (r: Result<RebuiltIngest, StoreError>)
    ensures
        error::fault(r) == error::first_of(
            error::first_of(evidence::all_consistency_fault(evidence@), ingest_fault(events@)),
            rebuild::replay_fault(replayed@),
        ),
        r matches Ok(rebuilt) ==> ingested_from(rebuilt, events@, replayed@),
{
    validate_all_durable_snapshot_full_set_consistency(evidence)?;
    let alone = replay_ingested_events(events)?;
    let together = replay_reconciliation_events(replayed)?;
    Ok(RebuiltIngest { report: alone.report, accounts: together.accounts, bars: alone.bars })
}

/// An observation is replayed alone as it is replayed beside results.
pub open spec fn same_replay(event: IngestedEvent, replayed: ReplayedEvent) -> bool {
    &&& replayed.event matches Some(stored) && stored.metadata.event_type@ == event.event_type@
        && stored.metadata.received_at == event.received_at
    &&& event.event_type@ != RESULT_EVENT_TYPE@
    &&& kind_of(event) is Some ==> event.snapshot == replayed.snapshot
}

/// As long as no result was committed, what the observations and the results
/// together say of an account is what the observations alone say.
pub proof fn observations_alone_suffice(
    events: Seq<IngestedEvent>,
    replayed: Seq<ReplayedEvent>,
    account_id: Seq<char>,
)
    requires
        events.len() == replayed.len(),
        forall|i: int| 0 <= i < events.len() ==> same_replay(#[trigger] events[i], replayed[i]),
    ensures
        rebuild::known(replayed, account_id) == observed_alone(events, account_id),
    decreases events.len(),
{
    if events.len() > 0 {
        let shorter = events.drop_last();
        assert forall|i: int| 0 <= i < shorter.len() implies same_replay(
            #[trigger] shorter[i],
            replayed.drop_last()[i],
        ) by {
            assert(shorter[i] == events[i]);
        }
        observations_alone_suffice(shorter, replayed.drop_last(), account_id);
        assert(same_replay(events[events.len() - 1], replayed[events.len() - 1]));
    }
}

/// What is wrong with an event beside those that have its name or its message.
pub open spec fn append_fault(event: NewCoreEvent, existing: Seq<StoredCoreEvent>) -> Option<
    Fault,
> {
    if existing.len() == 0 || (existing.len() == 1 && core_events::same_event(
        existing[0],
        event,
    )) {
        None
    } else {
        Some(error::conflict_fault("core_event"@, core_events::conflict_key(event)))
    }
}

/// When the fact was received: the first time that it came.
pub open spec fn fact_received_at(event: NewCoreEvent, existing: Seq<StoredCoreEvent>) -> i64 {
    if existing.len() == 0 {
        event.metadata.received_at
    } else {
        existing[0].metadata.received_at
    }
}

fn settle_append(event: &NewCoreEvent, existing: Vec<StoredCoreEvent>) -> (r: Result<
    (bool, i64),
    StoreError,
>)
    ensures
        error::fault(r) == append_fault(*event, existing@),
        r matches Ok((duplicate, received_at)) ==> duplicate == (existing@.len() > 0)
            && received_at == fact_received_at(*event, existing@),
{
    if existing.len() == 0 {
        return Ok((false, event.metadata.received_at));
    }
    match resolve_core_event_replay(existing, event)? {
        WriteOutcome::Inserted(fact) => Ok((true, fact.metadata.received_at)),
        WriteOutcome::Duplicate(fact) => Ok((true, fact.metadata.received_at)),
    }
}

/// The observation that an event carries.
pub open spec fn carried(event: NewCoreEvent, snapshot: Snapshot) -> Observation {
    Observation { payload: event.payload@, ..snapshot@ }
}

/// What is wrong with taking an observation in.
pub open spec fn take_in_fault(
    state: Projected,
    kind: DurableProjection,
    event: NewCoreEvent,
    snapshot: Snapshot,
    existing: Seq<StoredCoreEvent>,
    evidence: Seq<EvidenceEvent>,
) -> Option<Fault> {
    let f = snapshots::fact_identity_fault(kind, event.metadata, snapshot.account_id@);
    let f = error::first_of(f, append_fault(event, existing));
    let f = error::first_of(
        f,
        if kind is Position || kind is Order {
            evidence::consistency_fault(snapshot.account_id@, evidence)
        } else {
            None
        },
    );
    error::first_of(
        f,
        if projection::snapshot_disputed(state, kind, carried(event, snapshot)) {
            Some(latest::dispute(projection::reported_kind(kind), carried(event, snapshot)))
        } else {
            None
        },
    )
}

/// Takes an observation in: it is appended as a durable fact, held against the
/// other facts of its account, and made part of what is known. `existing` holds
/// the stored events that have its name or its message, and `evidence` the
/// durable facts of its account, this one among them.
pub fn ingest_durable(
    state: &mut AccountProjection,
    kind: DurableProjection,
    event: &NewCoreEvent,
    snapshot: &Snapshot,
    existing: Vec<StoredCoreEvent>,
    evidence: &Vec<EvidenceEvent>,
) -> (r: Result<ProjectionWriteOutcome, StoreError>)
    requires
        kind != DurableProjection::MarketBar,
    ensures
        error::fault(r) == take_in_fault(
            old(state)@,
            kind,
            *event,
            *snapshot,
            existing@,
            evidence@,
        ),
        r matches Ok(outcome) ==> {
            &&& outcome == snapshots::fact_outcome(
                projection::snapshot_decision(old(state)@, kind, carried(*event, *snapshot)),
                existing@.len() > 0,
            )
            &&& final(state)@ == projection::with_snapshot(
                old(state)@,
                kind,
                carried(*event, *snapshot),
                fact_received_at(*event, existing@),
            )
        },
        r is Err ==> final(state)@ == old(state)@,
        final(state).account_id == old(state).account_id,
{
    validate_identity(kind, &event.metadata, snapshot.account_id.as_str())?;
    let (duplicate, received_at) = settle_append(event, existing)?;
    if kind.needs_full_set_consistency() {
        validate_account_durable_snapshot_full_set_consistency(&snapshot.account_id, evidence)?;
    }
    let fact = Snapshot {
        account_id: snapshot.account_id.clone(),
        id: snapshot.id.clone(),
        symbol: snapshot.symbol.clone(),
        observed_at: snapshot.observed_at,
        payload: event.payload.clone(),
    };
    assert(fact@ == carried(*event, *snapshot));
    let decision = state.apply_snapshot(kind, &fact, received_at)?;
    Ok(ingest_outcome(decision, duplicate))
}

/// What is wrong with taking a market bar in.
pub open spec fn bar_fault(
    bars: Map<BarPlace, KeptBar>,
    event: NewCoreEvent,
    bar: MarketBar,
    existing: Seq<StoredCoreEvent>,
) -> Option<Fault> {
    let account_id = (event.metadata.account_id->0)@;
    let at = place(account_id, bar);
    let f = snapshots::fact_identity_fault(DurableProjection::MarketBar, event.metadata, ""@);
    let f = error::first_of(f, append_fault(event, existing));
    error::first_of(
        f,
        if bars.contains_key(at) && json::text_digest(bars[at].payload) != json::text_digest(
            bar.payload@,
        ) {
            Some(
                snapshots::observation_conflict(
                    "market_bar"@,
                    snapshots::bar_key(account_id, bar),
                    bar.timestamp,
                ),
            )
        } else {
            None
        },
    )
}

/// Takes a market bar in: it is appended as a durable fact, and kept unless
/// there is one at its place. `existing` holds the stored events that have its
/// name or its message.
pub fn ingest_market_bar(
    bars: &mut Vec<BarRow>,
    event: &NewCoreEvent,
    bar: &MarketBar,
    existing: Vec<StoredCoreEvent>,
) -> (r: Result<ProjectionWriteOutcome, StoreError>)
    ensures
        error::fault(r) == bar_fault(bars_of(old(bars)@), *event, *bar, existing@),
        r matches Ok(outcome) ==> {
            let before = bars_of(old(bars)@);
            let at = place((event.metadata.account_id->0)@, *bar);
            &&& outcome == snapshots::fact_outcome(
                if before.contains_key(at) {
                    ApplyDecision::Unchanged
                } else {
                    ApplyDecision::Applied
                },
                existing@.len() > 0,
            )
            &&& bars_of(final(bars)@) == (if before.contains_key(at) {
                before
            } else {
                before.insert(
                    at,
                    KeptBar {
                        payload: bar.payload@,
                        updated_at: fact_received_at(*event, existing@),
                    },
                )
            })
        },
        r is Err ==> final(bars)@ == old(bars)@,
{
    validate_identity(DurableProjection::MarketBar, &event.metadata, "")?;
    let (duplicate, received_at) = settle_append(event, existing)?;
    let account_id = match &event.metadata.account_id {
        Some(account_id) => account_id,
        None => {
            return Err(
                StoreError::conflict("core_event.account_id", event.metadata.event_id.as_str()),
            );
        },
    };
    let kept = kept_bar_hash(bars, account_id.as_str(), bar);
    let decision = classify_market_bar(account_id.as_str(), bar, &kept)?;
    if kept.is_none() {
        let ghost before = bars@;
        let row = BarRow {
            account_id: account_id.clone(),
            bar: copy_bar(bar),
            updated_at: received_at,
        };
        let ghost added = row;
        bars.push(row);
        assert(before.push(added).drop_last() =~= before);
    }
    Ok(ingest_outcome(decision, duplicate))
}

/// Makes an observation of a market, which leaves no fact behind.
pub fn update_market_snapshot(markets: &mut LatestTable, snapshot: &Snapshot, updated_at: i64) -> (r:
    Result<ProjectionWriteOutcome, StoreError>)
    ensures
        error::fault(r) == (if latest::disputed(old(markets)@, snapshot@) {
            Some(latest::dispute(SnapshotKind::Market, snapshot@))
        } else {
            None
        }),
        r matches Ok(outcome) ==> {
            &&& outcome == (match latest::decision(old(markets)@, snapshot@) {
                ApplyDecision::Applied => ProjectionWriteOutcome::Applied,
                ApplyDecision::IgnoredOlder => ProjectionWriteOutcome::ProjectionIgnored,
                ApplyDecision::Unchanged => ProjectionWriteOutcome::ProjectionUnchanged,
            })
            &&& final(markets)@ == latest::observed(old(markets)@, snapshot@, updated_at)
        },
        r is Err ==> final(markets)@ == old(markets)@,
{
    let decision = markets.observe(SnapshotKind::Market, snapshot, updated_at)?;
    Ok(market_outcome(decision))
}

/// A fact that comes again changes nothing.
pub proof fn repeated_facts_change_nothing(
    state: Projected,
    kind: DurableProjection,
    event: NewCoreEvent,
    snapshot: Snapshot,
    updated_at: i64,
)
    requires
        !projection::snapshot_disputed(state, kind, carried(event, snapshot)),
    ensures
        ({
            let once = projection::with_snapshot(
                state,
                kind,
                carried(event, snapshot),
                updated_at,
            );
            &&& !projection::snapshot_disputed(once, kind, carried(event, snapshot))
            &&& projection::with_snapshot(once, kind, carried(event, snapshot), updated_at)
                == once
        }),
{
}

/// A bar that is kept is never replaced.
pub proof fn bars_are_never_replaced(events: Seq<IngestedEvent>, n: int, at: BarPlace)
    requires
        0 <= n <= events.len(),
        bars_known(events.take(n)).contains_key(at),
    ensures
        bars_known(events).contains_key(at),
        bars_known(events)[at] == bars_known(events.take(n))[at],
    decreases events.len(),
{
    if n < events.len() {
        assert(events.drop_last().take(n) =~= events.take(n));
        bars_are_never_replaced(events.drop_last(), n, at);
    } else {
        assert(events.take(n) =~= events);
    }
}

/// Bars are kept under the account, symbol, timeframe and time they are of, and
/// the first that came stays.
pub proof fn first_bars_stay(events: Seq<IngestedEvent>, event: IngestedEvent)
    ensures
        ({
            let before = bars_known(events);
            let after = bars_known(events.push(event));
            let bar = event.bar->Ok_0;
            let at = BarPlace {
                account_id: (event.account_id->0)@,
                symbol: bar.symbol@,
                timeframe: bar.timeframe@,
                timestamp: bar.timestamp,
            };
            &&& event.event_type@ == "market.bar"@ && !before.contains_key(at) ==> after
                == before.insert(
                at,
                (KeptBar { payload: bar.payload@, updated_at: event.received_at }),
            )
            &&& event.event_type@ == "market.bar"@ && before.contains_key(at) ==> after == before
            &&& event.event_type@ != "market.bar"@ ==> after == before
        }),
{
    assert(events.push(event).drop_last() == events);
}

/// An ingested event names its account and can be read, and what it observes is
/// of that account.
pub proof fn ingested_events_are_of_their_account(event: IngestedEvent)
    ensures
        ingested_fault(event) is None ==> {
            &&& event.account_id is Some
            &&& event.event_type@ == "account.snapshot"@ || event.event_type@
                == "symbol.metadata"@ || event.event_type@ == "position.snapshot"@
                || event.event_type@ == "order.snapshot"@ ==> event.snapshot is Ok && (
            event.snapshot->Ok_0).account_id@ == (event.account_id->0)@
            &&& event.event_type@ == "market.bar"@ && kind_of(event) is None ==> event.bar is Ok
        },
{
}

/// An event is appended if nothing is stored under its name, or the same event
/// is. The time at which it was first received stays.
pub proof fn facts_are_appended_once(event: NewCoreEvent, existing: Seq<StoredCoreEvent>)
    ensures
        append_fault(event, existing) is None <==> existing.len() == 0 || (existing.len() == 1
            && core_events::same_event(existing[0], event)),
        existing.len() == 0 ==> fact_received_at(event, existing) == event.metadata.received_at,
        existing.len() > 0 ==> fact_received_at(event, existing)
            == existing[0].metadata.received_at,
{
}

/// What is taken in is observed as the event carries it, about the subject and at
/// the time that the observation names.
pub proof fn observations_are_taken_as_carried(event: NewCoreEvent, snapshot: Snapshot)
    ensures
        carried(event, snapshot).payload == event.payload@,
        carried(event, snapshot).account_id == snapshot.account_id@,
        carried(event, snapshot).id == snapshot.id@,
        carried(event, snapshot).symbol == snapshot.symbol@,
        carried(event, snapshot).observed_at == snapshot.observed_at,
{
}

/// A bar is taken unless another was kept in its place.
pub proof fn bars_are_not_contradicted(
    bars: Map<BarPlace, KeptBar>,
    event: NewCoreEvent,
    bar: MarketBar,
    existing: Seq<StoredCoreEvent>,
)
    ensures
        bar_fault(bars, event, bar, existing) is None <==> {
            let at = BarPlace {
                account_id: (event.metadata.account_id->0)@,
                symbol: bar.symbol@,
                timeframe: bar.timeframe@,
                timestamp: bar.timestamp,
            };
            &&& event.metadata.event_type@ == "market.bar"@
            &&& event.metadata.account_id is Some
            &&& append_fault(event, existing) is None
            &&& bars.contains_key(at) ==> json::text_digest(bars[at].payload) == json::text_digest(
                bar.payload@,
            )
        },
{
}

/// An observation is taken in unless it is not what it is taken for, contradicts
/// the event that was stored under its name, or contradicts what is known; a
/// position or an order also needs evidence that agrees with itself.
pub proof fn observations_are_not_contradicted(
    state: Projected,
    kind: DurableProjection,
    event: NewCoreEvent,
    snapshot: Snapshot,
    existing: Seq<StoredCoreEvent>,
    evidence: Seq<EvidenceEvent>,
)
    ensures
        take_in_fault(state, kind, event, snapshot, existing, evidence) is None <==> {
            &&& snapshots::fact_identity_fault(kind, event.metadata, snapshot.account_id@) is None
            &&& append_fault(event, existing) is None
            &&& kind is Position || kind is Order ==> evidence::consistency_fault(
                snapshot.account_id@,
                evidence,
            ) is None
            &&& !projection::snapshot_disputed(state, kind, carried(event, snapshot))
        },
{
}

/// What became of the replayed facts is counted: each once, under what it did.
pub proof fn replayed_facts_are_counted(
    events: Seq<IngestedEvent>,
    event: IngestedEvent,
    decision: ApplyDecision,
)
    ensures
        decided(Seq::empty(), decision) == 0,
        ingest_decision(events, event) == Some(decision) ==> decided(events.push(event), decision)
            == decided(events, decision) + 1,
        ingest_decision(events, event) != Some(decision) ==> decided(events.push(event), decision)
            == decided(events, decision),
{
    assert(events.push(event).drop_last() == events);
}

/// A bar that has a place of its own is applied, one whose place is taken changes
/// nothing, and what is neither a bar nor an observation does nothing.
pub proof fn bars_are_applied_once(before: Seq<IngestedEvent>, event: IngestedEvent)
    ensures
        ({
            let at = BarPlace {
                account_id: (event.account_id->0)@,
                symbol: (event.bar->Ok_0).symbol@,
                timeframe: (event.bar->Ok_0).timeframe@,
                timestamp: (event.bar->Ok_0).timestamp,
            };
            let bars = bars_known(before);
            &&& kind_of(event) is None && event.event_type@ == "market.bar"@ && !bars.contains_key(at)
                ==> ingest_decision(before, event) == Some(ApplyDecision::Applied)
                && ingest_step_fault(before, event) is None
            &&& kind_of(event) is None && event.event_type@ == "market.bar"@ && bars.contains_key(at)
                ==> ingest_decision(before, event) == Some(ApplyDecision::Unchanged) && (
            ingest_step_fault(before, event) is None <==> json::text_digest(bars[at].payload)
                == json::text_digest((event.bar->Ok_0).payload@))
            &&& kind_of(event) is None && event.event_type@ != "market.bar"@ ==> ingest_decision(
                before,
                event,
            ) is None && ingest_step_fault(before, event) is None
            &&& kind_of(event) is Some ==> (ingest_step_fault(before, event) is None
                <==> !projection::snapshot_disputed(
                observed_alone(before, (event.snapshot->Ok_0).account_id@),
                kind_of(event)->0,
                (event.snapshot->Ok_0)@,
            ))
        }),
{
}

/// A replay goes through only if each of its events does.
pub proof fn replays_go_through_event_by_event(events: Seq<IngestedEvent>, event: IngestedEvent)
    ensures
        ingest_fault(Seq::empty()) is None,
        ingest_fault(events.push(event)) is None <==> ingest_fault(events) is None
            && ingested_fault(event) is None && ingest_step_fault(events, event) is None,
        ingest_fault(events) is Some ==> ingest_fault(events.push(event)) == ingest_fault(events),
{
    assert(events.push(event).drop_last() == events);
}

}
