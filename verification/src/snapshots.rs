//! Observations of accounts, symbols, positions, orders and markets, and the
//! newest one of each that the store keeps.

use vstd::prelude::*;
use vstd::string::*;

use crate::columns::JsonColumns;
use crate::domain::AccountId;
use crate::error;
use crate::error::{Fault, StoreError};
use crate::json;
use crate::json::CanonicalJson;
use crate::model::CoreEventMetadata;
use crate::text;
use crate::text::{join3, join4, join5, same_text, signed_decimal_text};

verus! {

/// What an observation is of.
#[derive(Clone, Copy, Debug, PartialEq, Eq, Structural)]
pub enum SnapshotKind {
    Account,
    Symbol,
    Position,
    Order,
    Market,
}

impl SnapshotKind {
    /// The name under which faults about such observations are reported.
    pub open spec fn name(self) -> Seq<char> {
        match self {
            SnapshotKind::Account => "account_snapshot"@,
            SnapshotKind::Symbol => "symbol_metadata"@,
            SnapshotKind::Position => "position_snapshot"@,
            SnapshotKind::Order => "order_snapshot"@,
            SnapshotKind::Market => "market_snapshot"@,
        }
    }

    pub fn entity(self) -> (r: &'static str)
        ensures
            r@ == self.name(),
    {
        match self {
            SnapshotKind::Account => "account_snapshot",
            SnapshotKind::Symbol => "symbol_metadata",
            SnapshotKind::Position => "position_snapshot",
            SnapshotKind::Order => "order_snapshot",
            SnapshotKind::Market => "market_snapshot",
        }
    }

    /// The key of an observation: its account, and what it is of.
    pub open spec fn key(self, account_id: Seq<char>, id: Seq<char>) -> Seq<char> {
        if self == SnapshotKind::Account {
            account_id
        } else {
            account_id + ":"@ + id
        }
    }

    /// The key of an observation.
    pub fn row_key(self, account_id: &str, id: &str) -> (r: String)
        ensures
            r@ == self.key(account_id@, id@),
    {
        match self {
            SnapshotKind::Account => account_id.to_owned(),
            _ => join3(account_id, ":", id),
        }
    }
}

/// One observation. `id` says what it is of: the broker's name of a symbol, a
/// position or an order, the symbol of a market, and again the account for an
/// account.
#[derive(Debug, PartialEq, Eq)]
pub struct Snapshot {
    pub account_id: AccountId,
    pub id: String,
    pub symbol: String,
    pub observed_at: i64,
    pub payload: CanonicalJson,
}

/// An observation, over mathematical texts.
pub struct Observation {
    pub account_id: Seq<char>,
    pub id: Seq<char>,
    pub symbol: Seq<char>,
    pub observed_at: i64,
    pub payload: Seq<char>,
}

impl View for Snapshot {
    type V = Observation;

    open spec fn view(&self) -> Observation {
        Observation {
            account_id: self.account_id@,
            id: self.id@,
            symbol: self.symbol@,
            observed_at: self.observed_at,
            payload: self.payload@,
        }
    }
}

/// Snapshots, over mathematical texts.
pub open spec fn observations(list: Seq<Snapshot>) -> Seq<Observation> {
    Seq::new(list.len(), |i: int| list[i]@)
}

impl Clone for Snapshot {
    fn clone(&self) -> (r: Self)
        ensures
            r == *self,
    {
        Snapshot {
            account_id: self.account_id.clone(),
            id: self.id.clone(),
            symbol: self.symbol.clone(),
            observed_at: self.observed_at,
            payload: self.payload.clone(),
        }
    }
}

/// What came of a durable fact or of an observation that is only kept while it
/// is the newest.
#[derive(Clone, Copy, Debug, PartialEq, Eq, Structural)]
pub enum ProjectionWriteOutcome {
    /// A new fact changed the projection.
    Applied,
    /// A new, older fact was kept without replacing newer state.
    FactAppendedProjectionIgnored,
    /// A new fact described the state that was there for that time.
    FactAppendedProjectionUnchanged,
    /// The fact had been accepted before.
    Duplicate,
    /// An observation without a fact was older than the state.
    ProjectionIgnored,
    /// An observation without a fact was the state already.
    ProjectionUnchanged,
}

/// What an observation does to what is kept.
#[derive(Clone, Copy, Debug, PartialEq, Eq, Structural)]
pub enum ApplyDecision {
    Applied,
    IgnoredOlder,
    Unchanged,
}

/// What came of a durable fact.
pub open spec fn fact_outcome(decision: ApplyDecision, duplicate: bool) -> ProjectionWriteOutcome {
    if duplicate {
        ProjectionWriteOutcome::Duplicate
    } else {
        match decision {
            ApplyDecision::Applied => ProjectionWriteOutcome::Applied,
            ApplyDecision::IgnoredOlder => ProjectionWriteOutcome::FactAppendedProjectionIgnored,
            ApplyDecision::Unchanged => ProjectionWriteOutcome::FactAppendedProjectionUnchanged,
        }
    }
}

/// What came of a durable fact.
pub fn ingest_outcome(decision: ApplyDecision, fact_was_duplicate: bool) -> (r:
    ProjectionWriteOutcome)
    ensures
        r == fact_outcome(decision, fact_was_duplicate),
{
    if fact_was_duplicate {
        return ProjectionWriteOutcome::Duplicate;
    }
    match decision {
        ApplyDecision::Applied => ProjectionWriteOutcome::Applied,
        ApplyDecision::IgnoredOlder => ProjectionWriteOutcome::FactAppendedProjectionIgnored,
        ApplyDecision::Unchanged => ProjectionWriteOutcome::FactAppendedProjectionUnchanged,
    }
}

/// What came of a market observation, which leaves no fact behind.
pub fn market_outcome(decision: ApplyDecision) -> (r: ProjectionWriteOutcome)
    ensures
        r == match decision {
            ApplyDecision::Applied => ProjectionWriteOutcome::Applied,
            ApplyDecision::IgnoredOlder => ProjectionWriteOutcome::ProjectionIgnored,
            ApplyDecision::Unchanged => ProjectionWriteOutcome::ProjectionUnchanged,
        },
{
    match decision {
        ApplyDecision::Applied => ProjectionWriteOutcome::Applied,
        ApplyDecision::IgnoredOlder => ProjectionWriteOutcome::ProjectionIgnored,
        ApplyDecision::Unchanged => ProjectionWriteOutcome::ProjectionUnchanged,
    }
}

/// What a durable fact is of.
#[derive(Clone, Copy, Debug, PartialEq, Eq, Structural)]
pub enum DurableProjection {
    Account,
    Symbol,
    Position,
    Order,
    MarketBar,
}

impl DurableProjection {
    /// The type of the core event that carries such a fact.
    pub open spec fn name(self) -> Seq<char> {
        match self {
            DurableProjection::Account => "account.snapshot"@,
            DurableProjection::Symbol => "symbol.metadata"@,
            DurableProjection::Position => "position.snapshot"@,
            DurableProjection::Order => "order.snapshot"@,
            DurableProjection::MarketBar => "market.bar"@,
        }
    }

    pub fn event_type(self) -> (r: &'static str)
        ensures
            r@ == self.name(),
    {
        match self {
            DurableProjection::Account => "account.snapshot",
            DurableProjection::Symbol => "symbol.metadata",
            DurableProjection::Position => "position.snapshot",
            DurableProjection::Order => "order.snapshot",
            DurableProjection::MarketBar => "market.bar",
        }
    }

    /// Whether such facts must agree with the full sets of a reconciliation.
    pub fn needs_full_set_consistency(self) -> (r: bool)
        ensures
            r == (self == DurableProjection::Position || self == DurableProjection::Order),
    {
        match self {
            DurableProjection::Position | DurableProjection::Order => true,
            _ => false,
        }
    }
}

/// What is wrong with the event that carries a fact. `payload_account_id` is
/// the account that the payload names; a market bar names none.
pub open spec fn fact_identity_fault(
    projection: DurableProjection,
    metadata: CoreEventMetadata,
    payload_account_id: Seq<char>,
) -> Option<Fault> {
    if metadata.event_type@ != projection.name() {
        Some(error::conflict_fault("core_event"@, metadata.event_id@))
    } else {
        match metadata.account_id {
            None => Some(error::conflict_fault("core_event.account_id"@, metadata.event_id@)),
            Some(account_id) => if projection != DurableProjection::MarketBar && account_id@
                != payload_account_id {
                Some(error::conflict_fault("account_id"@, metadata.event_id@))
            } else {
                None
            },
        }
    }
}

/// Refuses an event that is not about the account that its payload names.
pub fn validate_identity(
    projection: DurableProjection,
    metadata: &CoreEventMetadata,
    payload_account_id: &str,
) -> (r: Result<(), StoreError>)
    ensures
        error::fault(r) == fact_identity_fault(projection, *metadata, payload_account_id@),
{
    if !same_text(metadata.event_type.as_str(), projection.event_type()) {
        return Err(StoreError::conflict("core_event", metadata.event_id.as_str()));
    }
    match &metadata.account_id {
        None => Err(StoreError::conflict("core_event.account_id", metadata.event_id.as_str())),
        Some(account_id) => {
            if projection != DurableProjection::MarketBar && !same_text(
                account_id.as_str(),
                payload_account_id,
            ) {
                Err(StoreError::conflict("account_id", metadata.event_id.as_str()))
            } else {
                Ok(())
            }
        },
    }
}

/// Two observations for one time that say different things.
pub open spec fn observation_conflict(
    entity: Seq<char>,
    key: Seq<char>,
    observed_at: i64,
) -> Fault {
    Fault::ObservationConflict { entity, key, observed_at: observed_at as int }
}

/// Two observations contradict each other: they are for one time and differ.
pub open spec fn contradicts(
    observed_at: i64,
    hash: Seq<char>,
    existing: Option<(i64, Seq<char>)>,
) -> bool {
    existing matches Some((at, kept)) && observed_at == at && hash != kept
}

/// What an observation does to the one that is kept: the newer one stays.
pub open spec fn latest_decision(
    observed_at: i64,
    existing: Option<(i64, Seq<char>)>,
) -> ApplyDecision {
    match existing {
        None => ApplyDecision::Applied,
        Some((at, _)) => if observed_at > at {
            ApplyDecision::Applied
        } else if observed_at < at {
            ApplyDecision::IgnoredOlder
        } else {
            ApplyDecision::Unchanged
        },
    }
}

/// The time and the digest of what is kept, over mathematical texts.
pub open spec fn kept(existing: Option<(i64, String)>) -> Option<(i64, Seq<char>)> {
    match existing {
        Some((at, hash)) => Some((at, hash@)),
        None => None,
    }
}

/// What an observation does to the one that is kept.
pub fn classify_latest(
    entity: &'static str,
    key: String,
    incoming_observed_at: i64,
    incoming_hash: &str,
    existing: Option<(i64, String)>,
) -> (r: Result<ApplyDecision, StoreError>)
    ensures
        error::fault(r) == (if contradicts(
            incoming_observed_at,
            incoming_hash@,
            kept(existing),
        ) {
            Some(observation_conflict(entity@, key@, incoming_observed_at))
        } else {
            None
        }),
        r matches Ok(decision) ==> decision == latest_decision(
            incoming_observed_at,
            kept(existing),
        ),
{
    match existing {
        None => Ok(ApplyDecision::Applied),
        Some((existing_observed_at, existing_hash)) => {
            if incoming_observed_at > existing_observed_at {
                Ok(ApplyDecision::Applied)
            } else if incoming_observed_at < existing_observed_at {
                Ok(ApplyDecision::IgnoredOlder)
            } else if same_text(incoming_hash, existing_hash.as_str()) {
                Ok(ApplyDecision::Unchanged)
            } else {
                Err(
                    StoreError::ObservationConflict {
                        entity,
                        key,
                        observed_at: incoming_observed_at,
                    },
                )
            }
        },
    }
}

/// An observation contradicts the full set that was taken at its time: the set
/// lacks it, or holds another.
pub open spec fn contradicts_set(
    observed_at: i64,
    hash: Seq<char>,
    watermark: Option<i64>,
    member: Option<Seq<char>>,
) -> bool {
    watermark == Some(observed_at) && member != Some(hash)
}

/// What a full set says of an observation: one from before the set is ignored,
/// one from its time is known already, and about a later one it says nothing.
pub open spec fn set_decision(observed_at: i64, watermark: Option<i64>) -> Option<ApplyDecision> {
    match watermark {
        None => None,
        Some(at) => if observed_at < at {
            Some(ApplyDecision::IgnoredOlder)
        } else if observed_at > at {
            None
        } else {
            Some(ApplyDecision::Unchanged)
        },
    }
}

/// What a full set says of an observation. `member_hash` is the digest of what
/// the set holds in its place.
pub fn classify_full_set_member(
    entity: &'static str,
    key: &str,
    observed_at: i64,
    payload_hash: &str,
    watermark: Option<i64>,
    member_hash: &Option<String>,
) -> (r: Result<Option<ApplyDecision>, StoreError>)
    ensures
        error::fault(r) == (if contradicts_set(
            observed_at,
            payload_hash@,
            watermark,
            text::optional_text(*member_hash),
        ) {
            Some(observation_conflict(entity@, key@, observed_at))
        } else {
            None
        }),
        r matches Ok(decision) ==> decision == set_decision(observed_at, watermark),
{
    let watermark: i64 = match watermark {
        Some(watermark) => watermark,
        None => {
            return Ok(None);
        },
    };
    if observed_at < watermark {
        return Ok(Some(ApplyDecision::IgnoredOlder));
    }
    if observed_at > watermark {
        return Ok(None);
    }
    let known = match member_hash {
        Some(member_hash) => same_text(member_hash.as_str(), payload_hash),
        None => false,
    };
    if known {
        Ok(Some(ApplyDecision::Unchanged))
    } else {
        Err(StoreError::ObservationConflict { entity, key: key.to_owned(), observed_at })
    }
}

/// A market bar.
#[derive(Debug, PartialEq, Eq)]
pub struct MarketBar {
    pub symbol: String,
    pub timeframe: String,
    pub timestamp: i64,
    pub payload: CanonicalJson,
}

/// The key of a market bar.
pub open spec fn bar_key(account_id: Seq<char>, bar: MarketBar) -> Seq<char> {
    account_id + ":"@ + bar.symbol@ + ":"@ + bar.timeframe@ + ":"@ + text::signed_decimal(
        bar.timestamp as int,
    )
}

/// What a market bar does to the one that is kept for its place: bars are never
/// replaced.
pub fn classify_market_bar(account_id: &str, bar: &MarketBar, existing: &Option<String>) -> (r:
    Result<ApplyDecision, StoreError>)
    ensures
        error::fault(r) == (if existing matches Some(hash) && hash@ != json::text_digest(
            bar.payload@,
        ) {
            Some(observation_conflict("market_bar"@, bar_key(account_id@, *bar), bar.timestamp))
        } else {
            None
        }),
        r matches Ok(decision) ==> decision == (if existing is None {
            ApplyDecision::Applied
        } else {
            ApplyDecision::Unchanged
        }),
{
    match existing {
        None => Ok(ApplyDecision::Applied),
        Some(existing_hash) => {
            if same_text(existing_hash.as_str(), bar.payload.sha256_hex()) {
                Ok(ApplyDecision::Unchanged)
            } else {
                let mut key = join5(
                    account_id,
                    ":",
                    bar.symbol.as_str(),
                    ":",
                    bar.timeframe.as_str(),
                );
                key.append(":");
                key.append(signed_decimal_text(bar.timestamp).as_str());
                Err(
                    StoreError::ObservationConflict {
                        entity: "market_bar",
                        key,
                        observed_at: bar.timestamp,
                    },
                )
            }
        },
    }
}

/// A row of the newest observations, with what the domain reads from its
/// payload.
pub struct SnapshotRow {
    pub account_id: AccountId,
    pub id: String,
    pub symbol: String,
    pub payload: JsonColumns,
    pub observed_at: i64,
    pub value: Result<SnapshotValue, String>,
}

/// What the payload of an observation says.
pub struct SnapshotValue {
    pub account_id: AccountId,
    pub id: String,
    pub symbol: String,
    pub observed_at: i64,
}

/// The payload is of what the row is of.
pub open spec fn same_identity(kind: SnapshotKind, row: SnapshotRow, value: SnapshotValue) -> bool {
    match kind {
        SnapshotKind::Account => value.account_id@ == row.account_id@,
        SnapshotKind::Order => value.account_id@ == row.account_id@ && value.id@ == row.id@,
        SnapshotKind::Symbol | SnapshotKind::Position => value.account_id@ == row.account_id@
            && value.id@ == row.id@ && value.symbol@ == row.symbol@,
        SnapshotKind::Market => value.symbol@ == row.symbol@,
    }
}

/// How a payload that is of something else is described.
pub open spec fn identity_reason(kind: SnapshotKind) -> Seq<char> {
    match kind {
        SnapshotKind::Account => "payload account_id does not match projection key"@,
        SnapshotKind::Market => "payload symbol does not match projection key"@,
        _ => "payload identity does not match projection key"@,
    }
}

/// What is wrong with a row of the newest observations.
pub open spec fn snapshot_row_fault(kind: SnapshotKind, row: SnapshotRow) -> Option<Fault> {
    let e = kind.name();
    let key = kind.key(row.account_id@, row.id@);
    let value = row.value->Ok_0;
    let f = json::stored_fault(e, key, row.payload.text@, row.payload.digest@);
    let f = error::first_of(
        f,
        match row.value {
            Err(error) => Some(error::corrupt_fault(e, key, error@)),
            Ok(_) => None,
        },
    );
    let f = error::first_of(
        f,
        if row.observed_at != value.observed_at {
            Some(
                error::corrupt_fault(
                    e,
                    key,
                    "projection observed_at "@ + text::signed_decimal(row.observed_at as int)
                        + " does not match payload observed_at "@ + text::signed_decimal(
                        value.observed_at as int,
                    ),
                ),
            )
        } else {
            None
        },
    );
    error::first_of(
        f,
        if same_identity(kind, row, value) {
            None
        } else {
            Some(error::corrupt_fault(e, key, identity_reason(kind)))
        },
    )
}

fn is_same_identity(
    kind: SnapshotKind,
    account_id: &str,
    id: &str,
    symbol: &str,
    value: &SnapshotValue,
) -> (r: bool)
    ensures
        r == match kind {
            SnapshotKind::Account => value.account_id@ == account_id@,
            SnapshotKind::Order => value.account_id@ == account_id@ && value.id@ == id@,
            SnapshotKind::Symbol | SnapshotKind::Position => value.account_id@ == account_id@
                && value.id@ == id@ && value.symbol@ == symbol@,
            SnapshotKind::Market => value.symbol@ == symbol@,
        },
{
    match kind {
        SnapshotKind::Account => same_text(value.account_id.as_str(), account_id),
        SnapshotKind::Order => same_text(value.account_id.as_str(), account_id) && same_text(
            value.id.as_str(),
            id,
        ),
        SnapshotKind::Symbol | SnapshotKind::Position => same_text(
            value.account_id.as_str(),
            account_id,
        ) && same_text(value.id.as_str(), id) && same_text(value.symbol.as_str(), symbol),
        SnapshotKind::Market => same_text(value.symbol.as_str(), symbol),
    }
}

/// Reads one of the newest observations.
pub fn snapshot_from_row(kind: SnapshotKind, row: SnapshotRow) -> (r: Result<
    Snapshot,
    StoreError,
>)
    ensures
        error::fault(r) == snapshot_row_fault(kind, row),
        r matches Ok(snapshot) ==> {
            &&& snapshot.account_id == row.account_id
            &&& snapshot.id == row.id
            &&& snapshot.symbol == row.symbol
            &&& snapshot.observed_at == row.observed_at
            &&& snapshot.payload@ == row.payload.text@
        },
{
    let entity = kind.entity();
    let key = kind.row_key(row.account_id.as_str(), row.id.as_str());
    let payload = CanonicalJson::from_stored(
        entity,
        key.as_str(),
        row.payload.text,
        row.payload.digest,
    )?;
    let value = match row.value {
        Ok(value) => value,
        Err(error) => {
            return Err(StoreError::corrupt(entity, key.as_str(), error.as_str()));
        },
    };
    if row.observed_at != value.observed_at {
        let reason = join4(
            "projection observed_at ",
            signed_decimal_text(row.observed_at).as_str(),
            " does not match payload observed_at ",
            signed_decimal_text(value.observed_at).as_str(),
        );
        return Err(StoreError::corrupt(entity, key.as_str(), reason.as_str()));
    }
    if !is_same_identity(
        kind,
        row.account_id.as_str(),
        row.id.as_str(),
        row.symbol.as_str(),
        &value,
    ) {
        let reason = match kind {
            SnapshotKind::Account => "payload account_id does not match projection key",
            SnapshotKind::Market => "payload symbol does not match projection key",
            _ => "payload identity does not match projection key",
        };
        return Err(StoreError::corrupt(entity, key.as_str(), reason));
    }
    Ok(
        Snapshot {
            account_id: row.account_id,
            id: row.id,
            symbol: row.symbol,
            observed_at: row.observed_at,
            payload,
        },
    )
}

/// The newest observations of the accounts that a reader may see.
pub struct LatestStateProjection {
    pub accounts: Vec<Snapshot>,
    pub positions: Vec<Snapshot>,
    pub orders: Vec<Snapshot>,
    pub symbols: Vec<Snapshot>,
    pub markets: Vec<Snapshot>,
}

/// The accounts that a reader may see. An empty scope allows none: it never
/// means all of them.
pub struct AuthorizedAccountScope {
    account_ids: Vec<AccountId>,
}

impl View for AuthorizedAccountScope {
    type V = Set<Seq<char>>;

    closed spec fn view(&self) -> Set<Seq<char>> {
        text::texts(self.account_ids@).to_set()
    }
}

impl AuthorizedAccountScope {
    /// The accounts stand in order, none of them twice.
    #[verifier::type_invariant]
    spec fn in_order(self) -> bool {
        text::strictly_sorted(text::texts(self.account_ids@))
    }

    /// The scope of the given accounts.
    pub fn new(account_ids: Vec<AccountId>) -> (r: AuthorizedAccountScope)
        ensures
            r@ == text::texts(account_ids@).to_set(),
    {
        let mut sorted: Vec<AccountId> = Vec::new();
        let ghost all = account_ids@;
        for account_id in it: account_ids
            invariant
                it.seq() == all,
                all == account_ids@,
                text::strictly_sorted(text::texts(sorted@)),
                text::texts(sorted@).to_set() == text::texts(all.take(it.index())).to_set(),
        {
            let ghost before = text::texts(sorted@);
            let ghost given = account_id@;
            insert_sorted(&mut sorted, account_id);
            proof {
                let n = it.index();
                let shorter = text::texts(all.take(n));
                let longer = text::texts(all.take(n + 1));
                assert(longer =~= shorter.push(given));
                assert forall|key: Seq<char>| longer.to_set().contains(key)
                    == text::texts(sorted@).to_set().contains(key) by {
                    assert(before.to_set().contains(key) == shorter.to_set().contains(key));
                    if longer.contains(key) && key != given {
                        let i = choose|i: int| 0 <= i < longer.len() && longer[i] == key;
                        assert(shorter[i] == key);
                    }
                    if shorter.contains(key) {
                        let i = choose|i: int| 0 <= i < shorter.len() && shorter[i] == key;
                        assert(longer[i] == key);
                    }
                    assert(longer[longer.len() - 1] == given);
                }
                assert(longer.to_set() =~= text::texts(sorted@).to_set());
            }
        }
        assert(all.take(all.len() as int) =~= all);
        AuthorizedAccountScope { account_ids: sorted }
    }

    /// The scope that allows nothing.
    pub fn empty() -> (r: AuthorizedAccountScope)
        ensures
            r@ == Set::<Seq<char>>::empty(),
    {
        let account_ids: Vec<AccountId> = Vec::new();
        assert(text::texts(account_ids@).to_set() =~= Set::<Seq<char>>::empty());
        AuthorizedAccountScope { account_ids }
    }

    /// Whether the scope allows nothing.
    pub fn is_empty(&self) -> (r: bool)
        ensures
            r == (self@ == Set::<Seq<char>>::empty()),
    {
        let ghost keys = text::texts(self.account_ids@);
        if self.account_ids.len() == 0 {
            assert(keys.to_set() =~= Set::<Seq<char>>::empty());
            true
        } else {
            assert(keys.to_set().contains(keys[0]));
            false
        }
    }

    /// Whether the scope allows an account.
    pub fn contains(&self, account_id: &AccountId) -> (r: bool)
        ensures
            r == self@.contains(account_id@),
    {
        text::list_contains(&self.account_ids, account_id.as_str())
    }

    /// The accounts, in order.
    pub fn accounts(&self) -> (r: &Vec<AccountId>)
        ensures
            text::texts(r@).to_set() == self@,
            text::strictly_sorted(text::texts(r@)),
    {
        proof {
            use_type_invariant(self);
        }
        &self.account_ids
    }
}

/// Puts a text into its place in a sorted list, unless it is there.
fn insert_sorted(list: &mut Vec<String>, item: String)
    requires
        text::strictly_sorted(text::texts(old(list)@)),
    ensures
        text::strictly_sorted(text::texts(final(list)@)),
        forall|key: Seq<char>|
            #[trigger] text::texts(final(list)@).to_set().contains(key) == (text::texts(
                old(list)@,
            ).to_set().contains(key) || key == item@),
{
    let ghost before = text::texts(list@);
    let ghost given = item@;
    let mut at: usize = 0;
    while at < list.len() && text::text_precedes(list[at].as_str(), item.as_str())
        invariant
            at <= list.len(),
            before == text::texts(list@),
            forall|i: int| 0 <= i < at ==> text::precedes(#[trigger] before[i], item@),
        decreases list.len() - at,
    {
        at = at + 1;
    }
    if at < list.len() && same_text(list[at].as_str(), item.as_str()) {
        assert(before[at as int] == given);
        return;
    }
    list.insert(at, item);
    let ghost after = text::texts(list@);
    proof {
        let p = at as int;
        assert(after =~= before.insert(p, given));
        assert forall|i: int| p <= i < before.len() implies text::precedes(
            given,
            #[trigger] before[i],
        ) by {
            text::precedes_total(given, before[p]);
            if i > p {
                text::precedes_transitive(given, before[p], before[i]);
            }
        }
        assert forall|i: int, j: int| 0 <= i < j < after.len() implies text::precedes(
            #[trigger] after[i],
            #[trigger] after[j],
        ) by {
            let a = if i < p {
                i
            } else {
                i - 1
            };
            let b = if j < p {
                j
            } else {
                j - 1
            };
            if i != p {
                assert(after[i] == before[a]);
            }
            if j != p {
                assert(after[j] == before[b]);
            }
        }
        assert forall|key: Seq<char>| #[trigger] after.to_set().contains(key) == (
        before.to_set().contains(key) || key == given) by {
            if after.contains(key) {
                let i = choose|i: int| 0 <= i < after.len() && after[i] == key;
                if i < p {
                    assert(before[i] == key);
                } else if i > p {
                    assert(before[i - 1] == key);
                }
            }
            if before.contains(key) {
                let i = choose|i: int| 0 <= i < before.len() && before[i] == key;
                if i < p {
                    assert(after[i] == key);
                } else {
                    assert(after[i + 1] == key);
                }
            }
            assert(after[p] == given);
        }
    }
}

/// The time of what is kept never goes back, and it is the later of the two
/// times wherever both are known.
pub proof fn kept_time_never_goes_back(
    observed_at: i64,
    hash: Seq<char>,
    existing: (i64, Seq<char>),
)
    requires
        !contradicts(observed_at, hash, Some(existing)),
    ensures
        ({
            let after = if latest_decision(observed_at, Some(existing)) == ApplyDecision::Applied {
                (observed_at, hash)
            } else {
                existing
            };
            &&& after.0 >= existing.0
            &&& after.0 >= observed_at
            &&& after == existing || after == (observed_at, hash)
            &&& latest_decision(observed_at, Some(after)) != ApplyDecision::Applied
        }),
{
}

/// A newer observation is taken, an older one is not, and one of the same time
/// must say the same.
pub proof fn newer_observations_win(
    observed_at: i64,
    hash: Seq<char>,
    at: i64,
    kept_hash: Seq<char>,
)
    ensures
        latest_decision(observed_at, None) is Applied,
        !contradicts(observed_at, hash, None),
        observed_at > at ==> latest_decision(observed_at, Some((at, kept_hash))) is Applied,
        observed_at < at ==> latest_decision(observed_at, Some((at, kept_hash))) is IgnoredOlder,
        observed_at == at ==> latest_decision(observed_at, Some((at, kept_hash))) is Unchanged,
        contradicts(observed_at, hash, Some((at, kept_hash))) <==> observed_at == at && hash
            != kept_hash,
{
}

/// What a full set reported stands against older single observations, and those
/// of its own time must be in it; newer ones are not its business.
pub proof fn full_sets_stand_against_older(
    observed_at: i64,
    hash: Seq<char>,
    watermark: i64,
    member: Option<Seq<char>>,
)
    ensures
        set_decision(observed_at, None) is None,
        !contradicts_set(observed_at, hash, None, member),
        observed_at > watermark ==> set_decision(observed_at, Some(watermark)) is None,
        observed_at < watermark ==> set_decision(observed_at, Some(watermark)) == Some(
            ApplyDecision::IgnoredOlder,
        ),
        observed_at == watermark ==> set_decision(observed_at, Some(watermark)) == Some(
            ApplyDecision::Unchanged,
        ),
        contradicts_set(observed_at, hash, Some(watermark), member) <==> observed_at == watermark
            && (member is None || member->0 != hash),
{
}

/// What became of a fact is told: whether it was known, and otherwise what it did
/// to what is known.
pub proof fn facts_are_answered_by_what_they_did(decision: ApplyDecision)
    ensures
        fact_outcome(decision, true) is Duplicate,
        decision is Applied ==> fact_outcome(decision, false) is Applied,
        decision is IgnoredOlder ==> fact_outcome(decision, false) is FactAppendedProjectionIgnored,
        decision is Unchanged ==> fact_outcome(decision, false)
            is FactAppendedProjectionUnchanged,
{
}

/// A fact is of the type that it is taken for, and of the account that its
/// payload names; a market bar names none.
pub proof fn facts_are_what_they_are_taken_for(
    projection: DurableProjection,
    metadata: CoreEventMetadata,
    payload_account_id: Seq<char>,
)
    ensures
        fact_identity_fault(projection, metadata, payload_account_id) is None <==> {
            &&& projection is Account ==> metadata.event_type@ == "account.snapshot"@
            &&& projection is Symbol ==> metadata.event_type@ == "symbol.metadata"@
            &&& projection is Position ==> metadata.event_type@ == "position.snapshot"@
            &&& projection is Order ==> metadata.event_type@ == "order.snapshot"@
            &&& projection is MarketBar ==> metadata.event_type@ == "market.bar"@
            &&& metadata.account_id is Some
            &&& !(projection is MarketBar) ==> (metadata.account_id->0)@ == payload_account_id
        },
{
}

/// A stored observation is read if its payload is intact and is of the account,
/// of the thing and of the time under which it is stored.
pub proof fn read_observations_are_as_stored(kind: SnapshotKind, row: SnapshotRow)
    ensures
        snapshot_row_fault(kind, row) is None ==> {
            let value = row.value->Ok_0;
            &&& row.value is Ok
            &&& row.observed_at == value.observed_at
            &&& kind is Market ==> value.symbol@ == row.symbol@
            &&& !(kind is Market) ==> value.account_id@ == row.account_id@
            &&& kind is Order || kind is Symbol || kind is Position ==> value.id@ == row.id@
            &&& kind is Symbol || kind is Position ==> value.symbol@ == row.symbol@
            &&& json::stored_fault(
                kind.name(),
                if kind is Account {
                    row.account_id@
                } else {
                    row.account_id@ + ":"@ + row.id@
                },
                row.payload.text@,
                row.payload.digest@,
            ) is None
        },
{
}

}
