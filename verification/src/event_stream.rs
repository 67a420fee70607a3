//! The event stream: a log of summary events from which subscribers catch up.

use vstd::prelude::*;
use vstd::string::*;

use crate::columns::{copy_enum_column, EnumColumn, JsonColumns};
use crate::domain::{AccountId, EventStreamTopic};
use crate::error;
use crate::error::{Fault, StoreError};
use crate::json;
use crate::json::CanonicalJson;
use crate::model::WriteOutcome;
use crate::numbers;
use crate::numbers::u64_to_i64;
use crate::snapshots::AuthorizedAccountScope;
use crate::text;
use crate::text::{
    copy_optional, join2, join3, list_contains, same_optional, same_text, signed_decimal_text,
};

verus! {

/// An event that is to be appended. Without an account it is for everybody who
/// may subscribe.
#[derive(Debug, PartialEq, Eq)]
pub struct NewEventStreamRecord {
    pub event_id: String,
    pub topic: EventStreamTopic,
    pub account_id: Option<AccountId>,
    pub event_type: String,
    pub payload: CanonicalJson,
    pub created_at: i64,
}

/// An event of the log, with the place that the log gave it.
#[derive(Debug, PartialEq, Eq)]
pub struct EventStreamRecord {
    pub stream_sequence: u64,
    pub event_id: String,
    pub topic: EventStreamTopic,
    pub account_id: Option<AccountId>,
    pub event_type: String,
    pub payload: CanonicalJson,
    pub created_at: i64,
}

/// The columns of an event of the log.
pub struct EventStreamRow {
    pub stream_sequence: i64,
    pub event_id: String,
    pub topic: EnumColumn<EventStreamTopic>,
    pub account_id: Option<String>,
    pub event_type: String,
    pub payload: JsonColumns,
    pub created_at: i64,
}

/// Events of a topic may be for everybody.
pub open spec fn global_topic(topic: Seq<char>) -> bool {
    topic == "system.event"@ || topic == "deadletter.summary"@
}

/// Whether events of a topic may be for everybody.
pub fn is_global_topic(topic: &str) -> (r: bool)
    ensures
        r == global_topic(topic@),
{
    same_text(topic, "system.event") || same_text(topic, "deadletter.summary")
}

/// A subscriber with the given accounts may see an event.
pub open spec fn visible(
    topic: Seq<char>,
    account_id: Option<Seq<char>>,
    accounts: Set<Seq<char>>,
) -> bool {
    match account_id {
        Some(account_id) => accounts.contains(account_id),
        None => global_topic(topic),
    }
}

/// Whether a subscriber with the given accounts may see an event.
pub fn event_is_visible(
    topic: &str,
    account_id: &Option<AccountId>,
    account_scope: &AuthorizedAccountScope,
) -> (r: bool)
    ensures
        r == visible(topic@, text::optional_text(*account_id), account_scope@),
{
    match account_id {
        Some(account_id) => account_scope.contains(account_id),
        None => is_global_topic(topic),
    }
}

/// Events of a global topic that belong to no account are for everybody, even
/// for those who may see no account; an event of an account is only for those
/// who may see the account.
pub proof fn global_events_are_for_all(
    topic: Seq<char>,
    account_id: Seq<char>,
    accounts: Set<Seq<char>>,
)
    ensures
        global_topic(topic) ==> visible(topic, None, Set::empty()) && visible(topic, None, accounts),
        visible(topic, Some(account_id), accounts) <==> accounts.contains(account_id),
        !visible(topic, Some(account_id), Set::empty()),
{
}

/// The topics that a subscriber wants, and the accounts that they may see.
pub struct EventStreamFilter {
    topics: Vec<EventStreamTopic>,
    account_scope: AuthorizedAccountScope,
}

impl EventStreamFilter {
    /// The topics that are wanted.
    pub closed spec fn wanted_topics(self) -> Set<Seq<char>> {
        text::texts(self.topics@).to_set()
    }

    /// The accounts that may be seen.
    pub closed spec fn accounts(self) -> Set<Seq<char>> {
        self.account_scope@
    }

    /// A filter for topics and accounts.
    pub fn new(topics: Vec<EventStreamTopic>, account_scope: AuthorizedAccountScope) -> (r:
        EventStreamFilter)
        ensures
            r.wanted_topics() == text::texts(topics@).to_set(),
            r.accounts() == account_scope@,
    {
        EventStreamFilter { topics, account_scope }
    }

    /// A filter for every one of the topics that there are.
    pub fn all_topics(all: Vec<EventStreamTopic>, account_scope: AuthorizedAccountScope) -> (r:
        EventStreamFilter)
        ensures
            r.wanted_topics() == text::texts(all@).to_set(),
            r.accounts() == account_scope@,
    {
        EventStreamFilter::new(all, account_scope)
    }

    /// The topics that are wanted.
    pub fn topics(&self) -> (r: &Vec<EventStreamTopic>)
        ensures
            text::texts(r@).to_set() == self.wanted_topics(),
    {
        &self.topics
    }

    /// The accounts that may be seen.
    pub fn account_scope(&self) -> (r: &AuthorizedAccountScope)
        ensures
            r@ == self.accounts(),
    {
        &self.account_scope
    }

    /// Whether no topic is wanted.
    pub fn is_empty(&self) -> (r: bool)
        ensures
            r == (self.wanted_topics() == Set::<Seq<char>>::empty()),
    {
        let ghost names = text::texts(self.topics@);
        if self.topics.len() == 0 {
            assert(names.to_set() =~= Set::<Seq<char>>::empty());
            true
        } else {
            assert(names.to_set().contains(names[0]));
            false
        }
    }

    /// Whether an event is wanted and may be seen.
    pub fn matches(&self, record: &EventStreamRecord) -> (r: bool)
        ensures
            r == (self.wanted_topics().contains(record.topic@) && visible(
                record.topic@,
                text::optional_text(record.account_id),
                self.accounts(),
            )),
    {
        self.takes(record.topic.as_str(), &record.account_id)
    }

    fn takes(&self, topic: &str, account_id: &Option<AccountId>) -> (r: bool)
        ensures
            r == (self.wanted_topics().contains(topic@) && visible(
                topic@,
                text::optional_text(*account_id),
                self.accounts(),
            )),
    {
        list_contains(&self.topics, topic) && event_is_visible(
            topic,
            account_id,
            &self.account_scope,
        )
    }
}

/// What a subscriber gets who catches up.
#[derive(Debug)]
pub struct EventReplayWindow {
    /// The last place of the log, whoever its event is for.
    pub high_water: Option<u64>,
    pub records: Vec<EventStreamRecord>,
    /// There is more up to the high water than was asked for.
    pub has_more: bool,
}

/// Which events of the log are to stay. An event goes that is outside the
/// latest ones or older than the bound.
#[derive(Clone, Copy, Debug, PartialEq, Eq, Structural)]
pub struct EventRetentionPolicy {
    pub retain_latest: Option<u64>,
    pub created_at_or_after: Option<i64>,
}

impl Default for EventRetentionPolicy {
    fn default() -> (r: Self)
        ensures
            r == (EventRetentionPolicy { retain_latest: None, created_at_or_after: None }),
    {
        EventRetentionPolicy { retain_latest: None, created_at_or_after: None }
    }
}

/// What pruning the log came to.
#[derive(Debug, PartialEq, Eq)]
pub struct EventRetentionOutcome {
    pub deleted: u64,
    pub oldest_remaining_event_id: Option<String>,
    pub oldest_remaining_sequence: Option<u64>,
}

/// Why a subscriber cannot catch up.
#[derive(Debug)]
pub enum EventReplayError {
    CursorExpired { event_id: String },
    InvalidLimit,
    Store(StoreError),
}

/// What an [`EventReplayError`] says, over mathematical texts.
pub enum ReplayFault {
    CursorExpired { event_id: Seq<char> },
    InvalidLimit,
    Store(Fault),
}

impl View for EventReplayError {
    type V = ReplayFault;

    open spec fn view(&self) -> ReplayFault {
        match self {
            EventReplayError::CursorExpired { event_id } => ReplayFault::CursorExpired {
                event_id: event_id@,
            },
            EventReplayError::InvalidLimit => ReplayFault::InvalidLimit,
            EventReplayError::Store(error) => ReplayFault::Store(error@),
        }
    }
}

impl EventReplayError {
    /// The sentence in which the error is reported.
    pub fn message(&self) -> (r: String)
        ensures
            r@ == (match self@ {
                ReplayFault::CursorExpired { event_id } => "event stream cursor "@ + event_id
                    + " is expired or outside the authorized account scope"@,
                ReplayFault::InvalidLimit => "event replay limit must be greater than zero"@,
                ReplayFault::Store(fault) => error::fault_message(fault),
            }),
    {
        match self {
            EventReplayError::CursorExpired { event_id } => join3(
                "event stream cursor ",
                event_id.as_str(),
                " is expired or outside the authorized account scope",
            ),
            EventReplayError::InvalidLimit => {
                "event replay limit must be greater than zero".to_owned()
            },
            EventReplayError::Store(error) => error.message(),
        }
    }
}

/// What is wrong with a place of the log.
pub open spec fn place_fault(key: Seq<char>, value: i64) -> Option<Fault> {
    if value > 0 {
        None
    } else {
        Some(
            error::corrupt_fault(
                "event_stream"@,
                key,
                "stream_sequence must be positive, found "@ + text::signed_decimal(value as int),
            ),
        )
    }
}

/// Reads a place of the log.
pub fn sequence_from_sql(key: &str, value: i64) -> (r: Result<u64, StoreError>)
    ensures
        error::fault(r) == place_fault(key@, value),
        r matches Ok(sequence) ==> sequence == value,
{
    if value > 0 {
        Ok(value as u64)
    } else {
        let reason = join2(
            "stream_sequence must be positive, found ",
            signed_decimal_text(value).as_str(),
        );
        Err(StoreError::corrupt("event_stream", key, reason.as_str()))
    }
}

/// What is wrong with a row of the log.
pub open spec fn event_row_fault(row: EventStreamRow) -> Option<Fault> {
    let f = place_fault(row.event_id@, row.stream_sequence);
    let f = error::first_of(
        f,
        match row.topic.parsed {
            Ok(_) => None,
            Err(error) => Some(error::corrupt_fault("event_stream"@, row.event_id@, error@)),
        },
    );
    error::first_of(
        f,
        json::stored_fault("event_stream"@, row.event_id@, row.payload.text@, row.payload.digest@),
    )
}

/// The record is what the row holds.
pub open spec fn reads_as(row: EventStreamRow, record: EventStreamRecord) -> bool {
    &&& record.stream_sequence == row.stream_sequence
    &&& record.event_id == row.event_id
    &&& record.topic == row.topic.parsed->Ok_0
    &&& record.account_id == row.account_id
    &&& record.event_type == row.event_type
    &&& record.payload@ == row.payload.text@
    &&& record.created_at == row.created_at
}

/// Reads a row of the log.
pub fn event_stream_record_from_row(row: &EventStreamRow) -> (r: Result<
    EventStreamRecord,
    StoreError,
>)
    ensures
        error::fault(r) == event_row_fault(*row),
        r matches Ok(record) ==> reads_as(*row, record),
{
    let event_id = row.event_id.as_str();
    let stream_sequence: u64 = sequence_from_sql(event_id, row.stream_sequence)?;
    let topic = match &row.topic.parsed {
        Ok(topic) => topic.clone(),
        Err(error) => {
            return Err(StoreError::corrupt("event_stream", event_id, error.as_str()));
        },
    };
    let payload = CanonicalJson::from_stored(
        "event_stream",
        event_id,
        row.payload.text.clone(),
        row.payload.digest.clone(),
    )?;
    Ok(
        EventStreamRecord {
            stream_sequence,
            event_id: row.event_id.clone(),
            topic,
            account_id: copy_optional(&row.account_id),
            event_type: row.event_type.clone(),
            payload,
            created_at: row.created_at,
        },
    )
}

/// What is wrong with an event that is to be appended.
pub open spec fn new_event_fault(event: NewEventStreamRecord) -> Option<Fault> {
    let id = event.event_id@;
    if id.len() == 0 {
        Some(error::invalid_fault("event_stream"@, id, "event_id must not be empty"@))
    } else if event.event_type@.len() == 0 {
        Some(error::invalid_fault("event_stream"@, id, "event_type must not be empty"@))
    } else if event.account_id matches Some(account_id) && account_id@.len() == 0 {
        Some(
            error::invalid_fault("event_stream"@, id, "account_id must be absent or non-empty"@),
        )
    } else if event.account_id is None && !global_topic(event.topic@) {
        Some(
            error::invalid_fault(
                "event_stream"@,
                id,
                "topic "@ + event.topic@ + " requires a non-empty account_id"@,
            ),
        )
    } else {
        None
    }
}

/// Refuses an event that cannot be appended.
pub fn validate_new_event(event: &NewEventStreamRecord) -> (r: Result<(), StoreError>)
    ensures
        error::fault(r) == new_event_fault(*event),
{
    let id = event.event_id.as_str();
    if id.unicode_len() == 0 {
        return Err(StoreError::invalid("event_stream", id, "event_id must not be empty"));
    }
    if event.event_type.as_str().unicode_len() == 0 {
        return Err(StoreError::invalid("event_stream", id, "event_type must not be empty"));
    }
    match &event.account_id {
        Some(account_id) => {
            if account_id.as_str().unicode_len() == 0 {
                return Err(
                    StoreError::invalid(
                        "event_stream",
                        id,
                        "account_id must be absent or non-empty",
                    ),
                );
            }
        },
        None => {
            if !is_global_topic(event.topic.as_str()) {
                let reason = join3(
                    "topic ",
                    event.topic.as_str(),
                    " requires a non-empty account_id",
                );
                return Err(StoreError::invalid("event_stream", id, reason.as_str()));
            }
        },
    }
    Ok(())
}

/// The stored event is the incoming one.
pub open spec fn same_stream_event(
    existing: EventStreamRecord,
    incoming: NewEventStreamRecord,
) -> bool {
    &&& existing.event_id@ == incoming.event_id@
    &&& existing.topic@ == incoming.topic@
    &&& text::optional_text(existing.account_id) == text::optional_text(incoming.account_id)
    &&& existing.event_type@ == incoming.event_type@
    &&& existing.payload@ == incoming.payload@
    &&& existing.created_at == incoming.created_at
}

/// Whether the stored event is the incoming one.
pub fn same_event_stream_record(existing: &EventStreamRecord, incoming: &NewEventStreamRecord) -> (r:
    bool)
    ensures
        r == same_stream_event(*existing, *incoming),
{
    same_text(existing.event_id.as_str(), incoming.event_id.as_str()) && same_text(
        existing.topic.as_str(),
        incoming.topic.as_str(),
    ) && same_optional(&existing.account_id, &incoming.account_id) && same_text(
        existing.event_type.as_str(),
        incoming.event_type.as_str(),
    ) && existing.payload.same(&incoming.payload) && existing.created_at == incoming.created_at
}

/// Decides about an event that was offered to the log: `stored` is what the log
/// holds under its name, and `inserted` whether it was put there just now.
pub fn resolve_event_stream_append(
    event: &NewEventStreamRecord,
    stored: Option<EventStreamRow>,
    inserted: bool,
) -> (r: Result<WriteOutcome<EventStreamRecord>, StoreError>)
    ensures
        error::fault(r) == (match stored {
            None => Some(error::missing_fault("event_stream"@, event.event_id@)),
            Some(row) => error::first_of(
                event_row_fault(row),
                if inserted || (row.event_id@ == event.event_id@ && (row.topic.parsed->Ok_0)@
                    == event.topic@ && text::optional_text(row.account_id) == text::optional_text(
                    event.account_id,
                ) && row.event_type@ == event.event_type@ && row.payload.text@ == event.payload@
                    && row.created_at == event.created_at) {
                    None
                } else {
                    Some(error::conflict_fault("event_stream"@, event.event_id@))
                },
            ),
        }),
        r matches Ok(WriteOutcome::Inserted(record)) ==> inserted && reads_as(stored->0, record),
        r matches Ok(WriteOutcome::Duplicate(record)) ==> !inserted && reads_as(stored->0, record)
            && same_stream_event(record, *event),
{
    let row = match stored {
        Some(row) => row,
        None => {
            return Err(StoreError::missing("event_stream", event.event_id.as_str()));
        },
    };
    let record = event_stream_record_from_row(&row)?;
    if inserted {
        return Ok(WriteOutcome::Inserted(record));
    }
    if same_event_stream_record(&record, event) {
        Ok(WriteOutcome::Duplicate(record))
    } else {
        Err(StoreError::conflict("event_stream", event.event_id.as_str()))
    }
}

/// Rows stand in the order of their places.
pub open spec fn in_order(rows: Seq<EventStreamRow>) -> bool {
    forall|i: int, j: int|
        0 <= i < j < rows.len() ==> (#[trigger] rows[i]).stream_sequence < (
        #[trigger] rows[j]).stream_sequence
}

/// A row is wanted by a subscriber who has seen everything up to a place.
pub open spec fn wanted(
    row: EventStreamRow,
    after: i64,
    topics: Set<Seq<char>>,
    accounts: Set<Seq<char>>,
) -> bool {
    &&& row.stream_sequence > after
    &&& topics.contains(row.topic.text@)
    &&& visible(row.topic.text@, text::optional_text(row.account_id), accounts)
}

/// The rows that a subscriber wants who has seen everything up to a place.
pub open spec fn all_wanted(
    rows: Seq<EventStreamRow>,
    after: i64,
    topics: Set<Seq<char>>,
    accounts: Set<Seq<char>>,
) -> Seq<EventStreamRow>
    decreases rows.len(),
{
    if rows.len() == 0 {
        Seq::empty()
    } else {
        let before = all_wanted(rows.drop_last(), after, topics, accounts);
        if wanted(rows.last(), after, topics, accounts) {
            before.push(rows.last())
        } else {
            before
        }
    }
}

/// The first so many rows.
pub open spec fn at_most(rows: Seq<EventStreamRow>, limit: int) -> Seq<EventStreamRow> {
    if rows.len() <= limit {
        rows
    } else {
        rows.take(limit)
    }
}

/// What is wrong with rows, one after the other.
pub open spec fn event_rows_fault(rows: Seq<EventStreamRow>) -> Option<Fault>
    decreases rows.len(),
{
    if rows.len() == 0 {
        None
    } else {
        error::first_of(event_rows_fault(rows.drop_last()), event_row_fault(rows.last()))
    }
}

proof fn event_rows_fault_of_prefix(rows: Seq<EventStreamRow>, n: int)
    requires
        0 <= n <= rows.len(),
        event_rows_fault(rows.take(n)) is Some,
    ensures
        event_rows_fault(rows) == event_rows_fault(rows.take(n)),
    decreases rows.len(),
{
    if n < rows.len() {
        assert(rows.drop_last().take(n) =~= rows.take(n));
        event_rows_fault_of_prefix(rows.drop_last(), n);
    } else {
        assert(rows.take(n) =~= rows);
    }
}

/// The row with a name.
pub open spec fn row_named(rows: Seq<EventStreamRow>, event_id: Seq<char>) -> Option<EventStreamRow>
    decreases rows.len(),
{
    if rows.len() == 0 {
        None
    } else if row_named(rows.drop_last(), event_id) is Some {
        row_named(rows.drop_last(), event_id)
    } else if rows.last().event_id@ == event_id {
        Some(rows.last())
    } else {
        None
    }
}

/// The last place of the log.
pub open spec fn last_place(rows: Seq<EventStreamRow>) -> Option<i64> {
    if rows.len() == 0 {
        None
    } else {
        Some(rows.last().stream_sequence)
    }
}

/// What is wrong with the last place of the log.
pub open spec fn high_water_fault(rows: Seq<EventStreamRow>) -> Option<Fault> {
    match last_place(rows) {
        Some(place) => place_fault("high_water"@, place),
        None => None,
    }
}

/// What is wrong with the number of events that is asked for.
pub open spec fn limit_fault(limit: u64) -> Option<Fault> {
    numbers::increment_fault("event_replay_limit"@, limit as nat)
}

/// The rows that a subscriber gets, and one more where there is more.
pub open spec fn replayed_rows(
    rows: Seq<EventStreamRow>,
    cursor: EventStreamRow,
    topics: Set<Seq<char>>,
    accounts: Set<Seq<char>>,
    limit: u64,
) -> Seq<EventStreamRow> {
    at_most(all_wanted(rows, cursor.stream_sequence, topics, accounts), limit + 1)
}

/// Nothing can be left for a subscriber: they want no topic, or have seen the
/// last event.
pub open spec fn nothing_left(
    rows: Seq<EventStreamRow>,
    cursor: EventStreamRow,
    topics: Set<Seq<char>>,
) -> bool {
    topics == Set::<Seq<char>>::empty() || last_place(rows) == Some(cursor.stream_sequence)
}

/// Why a subscriber cannot catch up. A cursor that they may not see is answered
/// like one that is gone.
pub open spec fn catch_up_fault(
    rows: Seq<EventStreamRow>,
    last_event_id: Option<Seq<char>>,
    topics: Set<Seq<char>>,
    accounts: Set<Seq<char>>,
    limit: u64,
) -> Option<ReplayFault> {
    if limit == 0 {
        Some(ReplayFault::InvalidLimit)
    } else if high_water_fault(rows) is Some {
        Some(ReplayFault::Store(high_water_fault(rows)->0))
    } else {
        match last_event_id {
            None => None,
            Some(event_id) => match row_named(rows, event_id) {
                None => Some(ReplayFault::CursorExpired { event_id }),
                Some(cursor) => if event_row_fault(cursor) is Some {
                    Some(ReplayFault::Store(event_row_fault(cursor)->0))
                } else if !visible(
                    (cursor.topic.parsed->Ok_0)@,
                    text::optional_text(cursor.account_id),
                    accounts,
                ) {
                    Some(ReplayFault::CursorExpired { event_id })
                } else if nothing_left(rows, cursor, topics) {
                    None
                } else if limit_fault(limit) is Some {
                    Some(ReplayFault::Store(limit_fault(limit)->0))
                } else {
                    match event_rows_fault(replayed_rows(rows, cursor, topics, accounts, limit)) {
                        Some(fault) => Some(ReplayFault::Store(fault)),
                        None => None,
                    }
                },
            },
        }
    }
}

/// The rows of the events that a subscriber gets.
pub open spec fn caught_up(
    rows: Seq<EventStreamRow>,
    last_event_id: Option<Seq<char>>,
    topics: Set<Seq<char>>,
    accounts: Set<Seq<char>>,
    limit: u64,
) -> Seq<EventStreamRow> {
    match last_event_id {
        None => Seq::empty(),
        Some(event_id) => {
            let cursor = row_named(rows, event_id)->0;
            if nothing_left(rows, cursor, topics) {
                Seq::empty()
            } else {
                at_most(
                    all_wanted(rows, cursor.stream_sequence, topics, accounts),
                    limit as int,
                )
            }
        },
    }
}

/// There is more for a subscriber than they get.
pub open spec fn more_left(
    rows: Seq<EventStreamRow>,
    last_event_id: Option<Seq<char>>,
    topics: Set<Seq<char>>,
    accounts: Set<Seq<char>>,
    limit: u64,
) -> bool {
    match last_event_id {
        None => false,
        Some(event_id) => {
            let cursor = row_named(rows, event_id)->0;
            !nothing_left(rows, cursor, topics) && all_wanted(
                rows,
                cursor.stream_sequence,
                topics,
                accounts,
            ).len() > limit
        },
    }
}

/// An event goes when the log is pruned: it is not one of the latest, or it is
/// too old.
pub open spec fn goes(
    rows: Seq<EventStreamRow>,
    policy: EventRetentionPolicy,
    row: EventStreamRow,
) -> bool {
    ||| policy.retain_latest matches Some(kept) && rows.len() > kept && row.stream_sequence
        <= rows[rows.len() - 1 - kept].stream_sequence
    ||| policy.created_at_or_after matches Some(bound) && row.created_at < bound
}

/// Of the given rows those that stay when the log is pruned.
pub open spec fn staying(
    rows: Seq<EventStreamRow>,
    policy: EventRetentionPolicy,
    given: Seq<EventStreamRow>,
) -> Seq<EventStreamRow>
    decreases given.len(),
{
    if given.len() == 0 {
        Seq::empty()
    } else {
        let before = staying(rows, policy, given.drop_last());
        if goes(rows, policy, given.last()) {
            before
        } else {
            before.push(given.last())
        }
    }
}

/// What is wrong with a rule for pruning.
pub open spec fn retention_fault(policy: EventRetentionPolicy) -> Option<Fault> {
    if policy.retain_latest is None && policy.created_at_or_after is None {
        Some(
            error::invalid_fault(
                "event_retention_policy"@,
                "event_stream"@,
                "at least one retention bound is required"@,
            ),
        )
    } else if policy.retain_latest == Some(0u64) {
        Some(Fault::InvalidSequence { field: "event_retention_retain_latest"@ })
    } else {
        None
    }
}

/// Refuses a rule for pruning that keeps everything or nothing.
pub fn validate_retention_policy(policy: EventRetentionPolicy) -> (r: Result<(), StoreError>)
    ensures
        error::fault(r) == retention_fault(policy),
{
    match policy.retain_latest {
        None => {
            if policy.created_at_or_after.is_none() {
                return Err(
                    StoreError::invalid(
                        "event_retention_policy",
                        "event_stream",
                        "at least one retention bound is required",
                    ),
                );
            }
        },
        Some(kept) => {
            if kept == 0 {
                return Err(
                    StoreError::InvalidSequence { field: "event_retention_retain_latest" },
                );
            }
        },
    }
    Ok(())
}

/// What is wrong with pruning the log.
pub open spec fn prune_fault(rows: Seq<EventStreamRow>, policy: EventRetentionPolicy) -> Option<
    Fault,
> {
    let f = retention_fault(policy);
    let f = error::first_of(
        f,
        match policy.retain_latest {
            Some(kept) => numbers::stored_integer_fault(
                "event_retention_retain_latest"@,
                kept as nat,
            ),
            None => None,
        },
    );
    let left = staying(rows, policy, rows);
    error::first_of(
        f,
        if left.len() == 0 {
            None
        } else {
            place_fault(left[0].event_id@, left[0].stream_sequence)
        },
    )
}

/// The log, in the order of its places.
pub struct EventStreamLog {
    rows: Vec<EventStreamRow>,
}

impl View for EventStreamLog {
    type V = Seq<EventStreamRow>;

    closed spec fn view(&self) -> Seq<EventStreamRow> {
        self.rows@
    }
}

impl EventStreamLog {
    #[verifier::type_invariant]
    spec fn ordered(self) -> bool {
        in_order(self.rows@)
    }

    /// The log with the given rows, if they stand in the order of their places.
    pub fn from_rows(rows: Vec<EventStreamRow>) -> (r: Option<EventStreamLog>)
        ensures
            r is Some <==> in_order(rows@),
            r matches Some(log) ==> log@ == rows@,
    {
        let mut i: usize = 1;
        while i < rows.len()
            invariant
                1 <= i,
                i <= rows.len() || rows.len() == 0,
                in_order(rows@.take(if i <= rows.len() { i as int } else { 0 })),
            decreases rows.len() - i,
        {
            if rows[i].stream_sequence <= rows[i - 1].stream_sequence {
                return None;
            }
            proof {
                let shorter = rows@.take(i as int);
                let longer = rows@.take(i + 1);
                assert forall|a: int, b: int| 0 <= a < b < longer.len() implies (
                #[trigger] longer[a]).stream_sequence < (#[trigger] longer[b]).stream_sequence by {
                    if b < i {
                        assert(shorter[a].stream_sequence < shorter[b].stream_sequence);
                    } else if a < i - 1 {
                        assert(shorter[a].stream_sequence < shorter[i - 1].stream_sequence);
                    }
                }
            }
            i = i + 1;
        }
        if rows.len() > 0 {
            assert(rows@.take(i as int) =~= rows@);
        }
        Some(EventStreamLog { rows })
    }

    /// The rows of the log.
    pub fn rows(&self) -> (r: &Vec<EventStreamRow>)
        ensures
            r@ == self@,
            in_order(r@),
    {
        proof {
            use_type_invariant(self);
        }
        &self.rows
    }

    /// The last place of the log.
    pub fn event_stream_high_water(&self) -> (r: Result<Option<u64>, StoreError>)
        ensures
            error::fault(r) == high_water_fault(self@),
            r matches Ok(high_water) ==> match last_place(self@) {
                Some(place) => high_water == Some(place as u64),
                None => high_water is None,
            },
    {
        if self.rows.len() == 0 {
            return Ok(None);
        }
        let place: u64 = sequence_from_sql(
            "high_water",
            self.rows[self.rows.len() - 1].stream_sequence,
        )?;
        Ok(Some(place))
    }

    fn find(&self, event_id: &str) -> (r: Option<&EventStreamRow>)
        ensures
            match (r, row_named(self@, event_id@)) {
                (Some(row), Some(named)) => *row == named,
                (None, None) => true,
                _ => false,
            },
            r matches Some(row) ==> self@.len() > 0 && row.stream_sequence
                <= self@.last().stream_sequence,
    {
        proof {
            use_type_invariant(self);
        }
        let mut i: usize = 0;
        while i < self.rows.len()
            invariant
                i <= self.rows.len(),
                self@ == self.rows@,
                in_order(self.rows@),
                row_named(self.rows@.take(i as int), event_id@) is None,
            decreases self.rows.len() - i,
        {
            let ghost longer = self.rows@.take(i + 1);
            assert(longer.drop_last() =~= self.rows@.take(i as int));
            if same_text(self.rows[i].event_id.as_str(), event_id) {
                proof {
                    named_in_prefix(self.rows@, event_id@, i + 1);
                }
                return Some(&self.rows[i]);
            }
            i = i + 1;
        }
        assert(self.rows@.take(i as int) =~= self.rows@);
        None
    }

    /// Up to so many of the rows that a subscriber wants, in their order.
    fn select(&self, after: i64, filter: &EventStreamFilter, limit: u64) -> (r: Vec<
        EventStreamRow,
    >)
        requires
            limit > 0,
        ensures
            r@ == at_most(
                all_wanted(self@, after, filter.wanted_topics(), filter.accounts()),
                limit as int,
            ),
    {
        let ghost topics = filter.wanted_topics();
        let ghost accounts = filter.accounts();
        let mut found: Vec<EventStreamRow> = Vec::new();
        let mut i: usize = 0;
        while i < self.rows.len()
            invariant
                i <= self.rows.len(),
                self@ == self.rows@,
                topics == filter.wanted_topics(),
                accounts == filter.accounts(),
                found@ == all_wanted(self.rows@.take(i as int), after, topics, accounts),
                found.len() < limit,
            decreases self.rows.len() - i,
        {
            let ghost longer = self.rows@.take(i + 1);
            assert(longer.drop_last() =~= self.rows@.take(i as int));
            let row = &self.rows[i];
            if row.stream_sequence > after && filter.takes(
                row.topic.text.as_str(),
                &row.account_id,
            ) {
                found.push(row.clone());
                if found.len() as u64 == limit {
                    proof {
                        wanted_in_prefix(self.rows@, after, topics, accounts, i + 1);
                        let all = all_wanted(self.rows@, after, topics, accounts);
                        assert(found@ == all_wanted(longer, after, topics, accounts));
                        assert(found@ =~= all.take(limit as int));
                        if all.len() <= limit {
                            assert(all.take(limit as int) =~= all);
                        }
                    }
                    return found;
                }
            }
            i = i + 1;
        }
        assert(self.rows@.take(i as int) =~= self.rows@);
        found
    }

    /// The events that a subscriber has not seen, after the last one that they
    /// have. Without a cursor they start from now, and get nothing of the past.
    pub fn replay_event_stream(
        &self,
        last_event_id: Option<&str>,
        filter: &EventStreamFilter,
        limit: u64,
    ) -> (r: Result<EventReplayWindow, EventReplayError>)
        ensures
            ({
                let last = match last_event_id {
                    Some(id) => Some(id@),
                    None => None,
                };
                let topics = filter.wanted_topics();
                let accounts = filter.accounts();
                &&& r matches Err(error) ==> catch_up_fault(self@, last, topics, accounts, limit)
                    == Some(error@)
                &&& r matches Ok(window) ==> {
                    &&& catch_up_fault(self@, last, topics, accounts, limit) is None
                    &&& match last_place(self@) {
                        Some(place) => window.high_water == Some(place as u64),
                        None => window.high_water is None,
                    }
                    &&& read_from(
                        caught_up(self@, last, topics, accounts, limit),
                        window.records@,
                    )
                    &&& window.has_more == more_left(self@, last, topics, accounts, limit)
                }
            }),
    {
        if limit == 0 {
            return Err(EventReplayError::InvalidLimit);
        }
        let high_water = match self.event_stream_high_water() {
            Ok(high_water) => high_water,
            Err(error) => {
                return Err(EventReplayError::Store(error));
            },
        };
        let last_event_id = match last_event_id {
            Some(last_event_id) => last_event_id,
            None => {
                return Ok(
                    EventReplayWindow { high_water, records: Vec::new(), has_more: false },
                );
            },
        };
        let row = match self.find(last_event_id) {
            Some(row) => row,
            None => {
                return Err(
                    EventReplayError::CursorExpired { event_id: last_event_id.to_owned() },
                );
            },
        };
        let cursor = match event_stream_record_from_row(row) {
            Ok(cursor) => cursor,
            Err(error) => {
                return Err(EventReplayError::Store(error));
            },
        };
        if !event_is_visible(cursor.topic.as_str(), &cursor.account_id, &filter.account_scope) {
            return Err(EventReplayError::CursorExpired { event_id: last_event_id.to_owned() });
        }
        let seen_all = match high_water {
            Some(high_water) => cursor.stream_sequence >= high_water,
            None => true,
        };
        if filter.is_empty() || seen_all {
            return Ok(EventReplayWindow { high_water, records: Vec::new(), has_more: false });
        }
        let fetch_limit: u64 = match numbers::checked_increment("event_replay_limit", limit) {
            Ok(fetch_limit) => fetch_limit,
            Err(error) => {
                return Err(EventReplayError::Store(error));
            },
        };
        let rows = self.select(row.stream_sequence, filter, fetch_limit);
        let ghost all = all_wanted(
            self@,
            row.stream_sequence,
            filter.wanted_topics(),
            filter.accounts(),
        );
        let mut records = match event_stream_records_from_rows(&rows) {
            Ok(records) => records,
            Err(error) => {
                return Err(EventReplayError::Store(error));
            },
        };
        let has_more = records.len() as u64 > limit;
        if has_more {
            records.pop();
        }
        assert(rows@ == at_most(all, limit + 1));
        assert(has_more == (all.len() > limit));
        assert(at_most(all, limit as int) =~= rows@.take(records@.len() as int));
        Ok(EventReplayWindow { high_water, records, has_more })
    }

    /// Lets go of the events that the rule does not keep.
    pub fn prune_event_stream(self, policy: EventRetentionPolicy) -> (r: Result<
        (EventRetentionOutcome, EventStreamLog),
        StoreError,
    >)
        ensures
            error::fault(r) == prune_fault(self@, policy),
            r matches Ok((outcome, log)) ==> {
                &&& log@ == staying(self@, policy, self@)
                &&& outcome.deleted == self@.len() - log@.len()
                &&& match outcome.oldest_remaining_event_id {
                    Some(event_id) => log@.len() > 0 && event_id@ == log@[0].event_id@,
                    None => log@.len() == 0,
                }
                &&& match outcome.oldest_remaining_sequence {
                    Some(sequence) => log@.len() > 0 && sequence == log@[0].stream_sequence,
                    None => log@.len() == 0,
                }
            },
    {
        proof {
            use_type_invariant(&self);
        }
        let ghost all = self.rows@;
        validate_retention_policy(policy)?;
        let cutoff: Option<i64> = match policy.retain_latest {
            Some(kept) => {
                u64_to_i64("event_retention_retain_latest", kept)?;
                if self.rows.len() as u64 > kept {
                    Some(self.rows[self.rows.len() - 1 - kept as usize].stream_sequence)
                } else {
                    None
                }
            },
            None => None,
        };
        let mut left: Vec<EventStreamRow> = Vec::new();
        let mut i: usize = 0;
        while i < self.rows.len()
            invariant
                i <= self.rows.len(),
                self.rows@ == all,
                in_order(all),
                cutoff == (match policy.retain_latest {
                    Some(kept) => if all.len() > kept {
                        Some(all[all.len() - 1 - kept].stream_sequence)
                    } else {
                        None
                    },
                    None => None,
                }),
                left@ == staying(all, policy, all.take(i as int)),
                left.len() <= i,
                in_order(left@),
                left.len() > 0 ==> i > 0 && left@.last().stream_sequence <= all[i
                    - 1].stream_sequence,
            decreases self.rows.len() - i,
        {
            let ghost longer = all.take(i + 1);
            assert(longer.drop_last() =~= all.take(i as int));
            let row = &self.rows[i];
            let late = match cutoff {
                Some(cutoff) => row.stream_sequence <= cutoff,
                None => false,
            };
            let old = match policy.created_at_or_after {
                Some(bound) => row.created_at < bound,
                None => false,
            };
            if !late && !old {
                let ghost before = left@;
                left.push(row.clone());
                proof {
                    let after = left@;
                    assert forall|a: int, b: int| 0 <= a < b < after.len() implies (
                    #[trigger] after[a]).stream_sequence < (
                    #[trigger] after[b]).stream_sequence by {
                        if b < before.len() {
                            assert(before[a].stream_sequence < before[b].stream_sequence);
                        } else if a < before.len() - 1 {
                            assert(before[a].stream_sequence
                                < before[before.len() - 1].stream_sequence);
                        }
                    }
                }
            }
            i = i + 1;
        }
        assert(all.take(i as int) =~= all);
        let deleted: u64 = (self.rows.len() - left.len()) as u64;
        let (oldest_remaining_event_id, oldest_remaining_sequence): (
            Option<String>,
            Option<u64>,
        ) = if left.len() > 0 {
            let sequence: u64 = sequence_from_sql(
                left[0].event_id.as_str(),
                left[0].stream_sequence,
            )?;
            (Some(left[0].event_id.clone()), Some(sequence))
        } else {
            (None, None)
        };
        Ok(
            (
                EventRetentionOutcome {
                    deleted,
                    oldest_remaining_event_id,
                    oldest_remaining_sequence,
                },
                EventStreamLog { rows: left },
            ),
        )
    }
}

/// The records are what the rows hold, one for one.
pub open spec fn read_from(rows: Seq<EventStreamRow>, records: Seq<EventStreamRecord>) -> bool {
    &&& records.len() == rows.len()
    &&& forall|i: int| 0 <= i < rows.len() ==> reads_as(rows[i], #[trigger] records[i])
}

fn event_stream_records_from_rows(rows: &Vec<EventStreamRow>) -> (r: Result<
    Vec<EventStreamRecord>,
    StoreError,
>)
    ensures
        error::fault(r) == event_rows_fault(rows@),
        r matches Ok(records) ==> read_from(rows@, records@),
{
    let mut records: Vec<EventStreamRecord> = Vec::new();
    let mut i: usize = 0;
    while i < rows.len()
        invariant
            i <= rows.len(),
            event_rows_fault(rows@.take(i as int)) is None,
            records.len() == i,
            forall|j: int| 0 <= j < i ==> reads_as(rows@[j], #[trigger] records@[j]),
        decreases rows.len() - i,
    {
        let ghost longer = rows@.take(i + 1);
        assert(longer.drop_last() =~= rows@.take(i as int));
        match event_stream_record_from_row(&rows[i]) {
            Ok(record) => records.push(record),
            Err(error) => {
                proof {
                    event_rows_fault_of_prefix(rows@, i + 1);
                }
                return Err(error);
            },
        }
        i = i + 1;
    }
    assert(rows@.take(i as int) =~= rows@);
    Ok(records)
}

impl Clone for EventStreamRow {
    fn clone(&self) -> (r: Self)
        ensures
            r == *self,
    {
        EventStreamRow {
            stream_sequence: self.stream_sequence,
            event_id: self.event_id.clone(),
            topic: copy_enum_column(&self.topic),
            account_id: copy_optional(&self.account_id),
            event_type: self.event_type.clone(),
            payload: JsonColumns {
                text: self.payload.text.clone(),
                digest: self.payload.digest.clone(),
            },
            created_at: self.created_at,
        }
    }
}

proof fn named_in_prefix(rows: Seq<EventStreamRow>, event_id: Seq<char>, n: int)
    requires
        0 <= n <= rows.len(),
        row_named(rows.take(n), event_id) is Some,
    ensures
        row_named(rows, event_id) == row_named(rows.take(n), event_id),
    decreases rows.len(),
{
    if n < rows.len() {
        assert(rows.drop_last().take(n) =~= rows.take(n));
        named_in_prefix(rows.drop_last(), event_id, n);
    } else {
        assert(rows.take(n) =~= rows);
    }
}

proof fn wanted_in_prefix(
    rows: Seq<EventStreamRow>,
    after: i64,
    topics: Set<Seq<char>>,
    accounts: Set<Seq<char>>,
    n: int,
)
    requires
        0 <= n <= rows.len(),
    ensures
        ({
            let all = all_wanted(rows, after, topics, accounts);
            let some = all_wanted(rows.take(n), after, topics, accounts);
            all.len() >= some.len() && all.take(some.len() as int) == some
        }),
    decreases rows.len(),
{
    let some = all_wanted(rows.take(n), after, topics, accounts);
    if n < rows.len() {
        assert(rows.drop_last().take(n) =~= rows.take(n));
        wanted_in_prefix(rows.drop_last(), after, topics, accounts, n);
        let all = all_wanted(rows, after, topics, accounts);
        let before = all_wanted(rows.drop_last(), after, topics, accounts);
        assert(before.take(some.len() as int) == some);
        assert(all.take(some.len() as int) =~= before.take(some.len() as int));
    } else {
        assert(rows.take(n) =~= rows);
        assert(some.take(some.len() as int) =~= some);
    }
}

proof fn wanted_places(
    rows: Seq<EventStreamRow>,
    after: i64,
    topics: Set<Seq<char>>,
    accounts: Set<Seq<char>>,
)
    requires
        in_order(rows),
    ensures
        ({
            let all = all_wanted(rows, after, topics, accounts);
            &&& in_order(all)
            &&& forall|i: int|
                0 <= i < all.len() ==> wanted(#[trigger] all[i], after, topics, accounts)
                    && rows.contains(all[i]) && all[i].stream_sequence
                    <= rows.last().stream_sequence
        }),
    decreases rows.len(),
{
    let all = all_wanted(rows, after, topics, accounts);
    if rows.len() > 0 {
        let shorter = rows.drop_last();
        let before = all_wanted(shorter, after, topics, accounts);
        assert(in_order(shorter)) by {
            assert forall|i: int, j: int| 0 <= i < j < shorter.len() implies (
            #[trigger] shorter[i]).stream_sequence < (#[trigger] shorter[j]).stream_sequence by {
                assert(rows[i].stream_sequence < rows[j].stream_sequence);
            }
        }
        wanted_places(shorter, after, topics, accounts);
        let last = rows.len() - 1;
        assert(rows[last] == rows.last());
        assert forall|i: int| 0 <= i < before.len() implies rows.contains(#[trigger] before[i])
            && before[i].stream_sequence < rows.last().stream_sequence by {
            assert(shorter.contains(before[i]));
            let k = choose|k: int| 0 <= k < shorter.len() && shorter[k] == before[i];
            assert(rows[k] == before[i]);
            assert(rows[k].stream_sequence < rows[last].stream_sequence);
        }
        assert forall|i: int, j: int| 0 <= i < j < all.len() implies (
        #[trigger] all[i]).stream_sequence < (#[trigger] all[j]).stream_sequence by {
            if j < before.len() {
                assert(before[i].stream_sequence < before[j].stream_sequence);
            } else {
                assert(before[i].stream_sequence < rows.last().stream_sequence);
            }
        }
        assert forall|i: int| 0 <= i < all.len() implies wanted(
            #[trigger] all[i],
            after,
            topics,
            accounts,
        ) && rows.contains(all[i]) && all[i].stream_sequence
            <= rows.last().stream_sequence by {
            if i < before.len() {
                assert(all[i] == before[i]);
            } else {
                assert(all[i] == rows[last]);
            }
        }
    }
}

proof fn all_wanted_at(
    rows: Seq<EventStreamRow>,
    after: i64,
    topics: Set<Seq<char>>,
    accounts: Set<Seq<char>>,
    i: int,
)
    requires
        0 <= i < rows.len(),
        wanted(rows[i], after, topics, accounts),
    ensures
        all_wanted(rows, after, topics, accounts).contains(rows[i]),
    decreases rows.len(),
{
    let all = all_wanted(rows, after, topics, accounts);
    let before = all_wanted(rows.drop_last(), after, topics, accounts);
    if i < rows.len() - 1 {
        assert(rows.drop_last()[i] == rows[i]);
        all_wanted_at(rows.drop_last(), after, topics, accounts, i);
        let k = choose|k: int| 0 <= k < before.len() && before[k] == rows[i];
        assert(all[k] == rows[i]);
    } else {
        assert(all[all.len() - 1] == rows[i]);
    }
}

/// What a subscriber gets is theirs to see, of a topic that they want, after
/// their cursor and not beyond the high water; and it comes in order.
pub proof fn replay_stays_within_bounds(
    rows: Seq<EventStreamRow>,
    event_id: Seq<char>,
    topics: Set<Seq<char>>,
    accounts: Set<Seq<char>>,
    limit: u64,
)
    requires
        in_order(rows),
        catch_up_fault(rows, Some(event_id), topics, accounts, limit) is None,
    ensures
        ({
            let got = caught_up(rows, Some(event_id), topics, accounts, limit);
            let cursor = row_named(rows, event_id)->0;
            &&& got.len() <= limit
            &&& in_order(got)
            &&& forall|i: int|
                0 <= i < got.len() ==> wanted(
                    #[trigger] got[i],
                    cursor.stream_sequence,
                    topics,
                    accounts,
                ) && rows.contains(got[i]) && got[i].stream_sequence <= last_place(rows)->0
        }),
{
    let cursor = row_named(rows, event_id)->0;
    wanted_places(rows, cursor.stream_sequence, topics, accounts);
    let all = all_wanted(rows, cursor.stream_sequence, topics, accounts);
    let got = caught_up(rows, Some(event_id), topics, accounts, limit);
    if got.len() > 0 {
        assert forall|i: int| 0 <= i < got.len() implies #[trigger] got[i] == all[i] by {}
    }
}

/// Nothing is left out: where there is no more, a subscriber gets every event
/// after their cursor that they want and may see.
pub proof fn replay_is_complete(
    rows: Seq<EventStreamRow>,
    event_id: Seq<char>,
    topics: Set<Seq<char>>,
    accounts: Set<Seq<char>>,
    limit: u64,
    i: int,
)
    requires
        in_order(rows),
        catch_up_fault(rows, Some(event_id), topics, accounts, limit) is None,
        !more_left(rows, Some(event_id), topics, accounts, limit),
        0 <= i < rows.len(),
        wanted(
            rows[i],
            (row_named(rows, event_id)->0).stream_sequence,
            topics,
            accounts,
        ),
    ensures
        caught_up(rows, Some(event_id), topics, accounts, limit).contains(rows[i]),
{
    let cursor = row_named(rows, event_id)->0;
    all_wanted_at(rows, cursor.stream_sequence, topics, accounts, i);
    if nothing_left(rows, cursor, topics) {
        assert(topics.contains(rows[i].topic.text@));
        if i < rows.len() - 1 {
            assert(rows[i].stream_sequence < rows[rows.len() - 1].stream_sequence);
        }
    }
}

proof fn wanted_later(
    rows: Seq<EventStreamRow>,
    after: i64,
    later: i64,
    topics: Set<Seq<char>>,
    accounts: Set<Seq<char>>,
    n: int,
)
    requires
        in_order(rows),
        after <= later,
        0 <= n <= all_wanted(rows, after, topics, accounts).len(),
        forall|i: int|
            0 <= i < n ==> (#[trigger] all_wanted(
                rows,
                after,
                topics,
                accounts,
            )[i]).stream_sequence <= later,
        forall|i: int|
            n <= i < all_wanted(rows, after, topics, accounts).len() ==> (#[trigger] all_wanted(
                rows,
                after,
                topics,
                accounts,
            )[i]).stream_sequence > later,
    ensures
        all_wanted(rows, later, topics, accounts) == all_wanted(
            rows,
            after,
            topics,
            accounts,
        ).skip(n),
    decreases rows.len(),
{
    let all = all_wanted(rows, after, topics, accounts);
    let left = all_wanted(rows, later, topics, accounts);
    if rows.len() == 0 {
        assert(left =~= all.skip(n));
    } else {
        let shorter = rows.drop_last();
        let before = all_wanted(shorter, after, topics, accounts);
        assert(in_order(shorter)) by {
            assert forall|i: int, j: int| 0 <= i < j < shorter.len() implies (
            #[trigger] shorter[i]).stream_sequence < (#[trigger] shorter[j]).stream_sequence by {
                assert(rows[i].stream_sequence < rows[j].stream_sequence);
            }
        }
        assert forall|i: int| 0 <= i < before.len() implies #[trigger] before[i] == all[i] by {}
        if n <= before.len() {
            wanted_later(shorter, after, later, topics, accounts, n);
            if wanted(rows.last(), after, topics, accounts) {
                assert(all[all.len() - 1] == rows.last());
                assert(all.skip(n) =~= before.skip(n).push(rows.last()));
            }
        } else {
            assert(all[n - 1].stream_sequence <= later);
            assert(n == all.len());
            wanted_later(shorter, after, later, topics, accounts, before.len() as int);
            assert(before.skip(before.len() as int) =~= Seq::<EventStreamRow>::empty());
            assert(all.skip(n) =~= Seq::<EventStreamRow>::empty());
        }
    }
}

/// A subscriber who takes up from the last event that they got goes on right
/// behind it: nothing comes twice, and nothing is left out.
pub proof fn pages_follow_each_other(
    rows: Seq<EventStreamRow>,
    after: i64,
    topics: Set<Seq<char>>,
    accounts: Set<Seq<char>>,
    limit: int,
)
    requires
        in_order(rows),
        0 < limit <= all_wanted(rows, after, topics, accounts).len(),
    ensures
        ({
            let all = all_wanted(rows, after, topics, accounts);
            let page = at_most(all, limit);
            all == page + all_wanted(rows, page.last().stream_sequence, topics, accounts)
        }),
{
    let all = all_wanted(rows, after, topics, accounts);
    let page = at_most(all, limit);
    wanted_places(rows, after, topics, accounts);
    assert(page =~= all.take(limit));
    let last = all[limit - 1];
    assert(page.last() == last);
    assert forall|i: int| 0 <= i < limit implies (#[trigger] all[i]).stream_sequence
        <= last.stream_sequence by {
        if i < limit - 1 {
            assert(all[i].stream_sequence < all[limit - 1].stream_sequence);
        }
    }
    assert forall|i: int| limit <= i < all.len() implies (#[trigger] all[i]).stream_sequence
        > last.stream_sequence by {
        assert(all[limit - 1].stream_sequence < all[i].stream_sequence);
    }
    wanted_later(rows, after, last.stream_sequence, topics, accounts, limit);
    assert(all =~= page + all.skip(limit));
}

/// A subscriber who starts from now misses nothing: what comes later is
/// exactly what lies behind the high water that they were given.
pub proof fn live_start_misses_nothing(
    rows: Seq<EventStreamRow>,
    later: Seq<EventStreamRow>,
    topics: Set<Seq<char>>,
    accounts: Set<Seq<char>>,
)
    requires
        in_order(rows + later),
        rows.len() > 0,
    ensures
        all_wanted(rows + later, last_place(rows)->0, topics, accounts) == all_wanted(
            later,
            last_place(rows)->0,
            topics,
            accounts,
        ),
        forall|i: int|
            0 <= i < later.len() ==> (#[trigger] later[i]).stream_sequence > last_place(rows)->0,
    decreases later.len(),
{
    let mark = last_place(rows)->0;
    let whole = rows + later;
    assert forall|i: int| 0 <= i < later.len() implies (#[trigger] later[i]).stream_sequence
        > mark by {
        assert(whole[rows.len() - 1] == rows.last());
        assert(whole[rows.len() + i] == later[i]);
    }
    if later.len() == 0 {
        assert(whole =~= rows);
        assert(in_order(rows));
        wanted_places(rows, mark, topics, accounts);
        let none = all_wanted(rows, mark, topics, accounts);
        if none.len() > 0 {
            assert(wanted(none[0], mark, topics, accounts));
        }
        assert(none =~= all_wanted(later, mark, topics, accounts));
    } else {
        assert(whole.drop_last() =~= rows + later.drop_last());
        assert(in_order(rows + later.drop_last())) by {
            let shorter = rows + later.drop_last();
            assert forall|i: int, j: int| 0 <= i < j < shorter.len() implies (
            #[trigger] shorter[i]).stream_sequence < (#[trigger] shorter[j]).stream_sequence by {
                assert(whole[i].stream_sequence < whole[j].stream_sequence);
            }
        }
        live_start_misses_nothing(rows, later.drop_last(), topics, accounts);
    }
}

/// Whether an event exists is not told to those who may not see it: as a cursor
/// it is answered like one that was never there.
pub proof fn hidden_cursors_look_gone(
    rows: Seq<EventStreamRow>,
    without: Seq<EventStreamRow>,
    event_id: Seq<char>,
    topics: Set<Seq<char>>,
    accounts: Set<Seq<char>>,
    limit: u64,
)
    requires
        limit > 0,
        high_water_fault(rows) is None,
        high_water_fault(without) is None,
        row_named(without, event_id) is None,
        row_named(rows, event_id) matches Some(cursor) && event_row_fault(cursor) is None
            && !visible(
            (cursor.topic.parsed->Ok_0)@,
            text::optional_text(cursor.account_id),
            accounts,
        ),
    ensures
        catch_up_fault(rows, Some(event_id), topics, accounts, limit) == catch_up_fault(
            without,
            Some(event_id),
            topics,
            accounts,
            limit,
        ),
{
}

proof fn latest_stay(
    rows: Seq<EventStreamRow>,
    policy: EventRetentionPolicy,
    kept: int,
    n: int,
)
    requires
        in_order(rows),
        policy.created_at_or_after is None,
        policy.retain_latest matches Some(count) && count == kept,
        0 <= kept < rows.len(),
        0 <= n <= rows.len(),
    ensures
        staying(rows, policy, rows.take(n)) == (if n <= rows.len() - kept {
            Seq::<EventStreamRow>::empty()
        } else {
            rows.subrange(rows.len() - kept, n)
        }),
    decreases n,
{
    let given = rows.take(n);
    if n > 0 {
        assert(given.drop_last() =~= rows.take(n - 1));
        latest_stay(rows, policy, kept, n - 1);
        let at = n - 1;
        let cutoff = rows.len() - 1 - kept;
        assert(given.last() == rows[at]);
        if at <= cutoff {
            if at < cutoff {
                assert(rows[at].stream_sequence < rows[cutoff].stream_sequence);
            }
        } else {
            assert(rows[cutoff].stream_sequence < rows[at].stream_sequence);
            if at == cutoff + 1 {
                assert(rows.subrange(rows.len() - kept, n) =~= Seq::<EventStreamRow>::empty().push(
                    rows[at],
                ));
            } else {
                assert(rows.subrange(rows.len() - kept, n) =~= rows.subrange(
                    rows.len() - kept,
                    n - 1,
                ).push(rows[at]));
            }
        }
    }
}

/// Where only the number of events is bounded, pruning keeps just the latest
/// ones.
pub proof fn pruning_keeps_the_latest(
    rows: Seq<EventStreamRow>,
    policy: EventRetentionPolicy,
    kept: u64,
)
    requires
        in_order(rows),
        policy.retain_latest == Some(kept),
        policy.created_at_or_after is None,
    ensures
        rows.len() > kept ==> staying(rows, policy, rows) == rows.skip(rows.len() - kept),
        rows.len() <= kept ==> staying(rows, policy, rows) == rows,
{
    if rows.len() > kept {
        latest_stay(rows, policy, kept as int, rows.len() as int);
        assert(rows.take(rows.len() as int) =~= rows);
        assert(rows.subrange(rows.len() - kept, rows.len() as int) =~= rows.skip(
            rows.len() - kept,
        ));
        if kept == 0 {
            assert(rows.skip(rows.len() - kept) =~= Seq::<EventStreamRow>::empty());
        }
    } else {
        all_stay(rows, policy, rows);
    }
}

proof fn all_stay(
    rows: Seq<EventStreamRow>,
    policy: EventRetentionPolicy,
    given: Seq<EventStreamRow>,
)
    requires
        forall|i: int| 0 <= i < given.len() ==> !goes(rows, policy, #[trigger] given[i]),
    ensures
        staying(rows, policy, given) == given,
    decreases given.len(),
{
    if given.len() > 0 {
        all_stay(rows, policy, given.drop_last());
        assert(given.drop_last().push(given.last()) =~= given);
    } else {
        assert(staying(rows, policy, given) =~= given);
    }
}

/// An event about an account is for those who may see that account; an event
/// about none is for everybody, and then it is a system event or a summary of
/// undelivered messages.
pub proof fn events_are_seen_by_their_account(
    topic: Seq<char>,
    account_id: Option<Seq<char>>,
    accounts: Set<Seq<char>>,
)
    ensures
        account_id is Some ==> (visible(topic, account_id, accounts) <==> accounts.contains(
            account_id->0,
        )),
        account_id is None ==> (visible(topic, account_id, accounts) <==> topic == "system.event"@
            || topic == "deadletter.summary"@),
{
}

/// An event is taken if it and its type have names, and it names its account
/// unless it is of a kind that is for everybody.
pub proof fn events_name_their_account(event: NewEventStreamRecord)
    ensures
        new_event_fault(event) is None <==> {
            &&& event.event_id@.len() > 0
            &&& event.event_type@.len() > 0
            &&& event.account_id is Some ==> (event.account_id->0)@.len() > 0
            &&& event.account_id is None ==> event.topic@ == "system.event"@ || event.topic@
                == "deadletter.summary"@
        },
{
}

/// An event that comes twice is the same only if all of it is the same.
pub proof fn repeated_events_say_the_same(
    existing: EventStreamRecord,
    incoming: NewEventStreamRecord,
)
    ensures
        same_stream_event(existing, incoming) <==> {
            &&& existing.event_id@ == incoming.event_id@
            &&& existing.topic@ == incoming.topic@
            &&& existing.account_id is Some <==> incoming.account_id is Some
            &&& existing.account_id is Some ==> (existing.account_id->0)@ == (
            incoming.account_id->0)@
            &&& existing.event_type@ == incoming.event_type@
            &&& existing.payload@ == incoming.payload@
            &&& existing.created_at == incoming.created_at
        },
{
}

/// A stored event is read if its place is positive, its topic is known and its
/// payload is intact, and it is read as it was stored.
pub proof fn read_events_are_as_stored(row: EventStreamRow, record: EventStreamRecord)
    ensures
        event_row_fault(row) is None <==> row.stream_sequence > 0 && row.topic.parsed is Ok
            && json::stored_fault(
            "event_stream"@,
            row.event_id@,
            row.payload.text@,
            row.payload.digest@,
        ) is None,
        reads_as(row, record) ==> record.stream_sequence == row.stream_sequence && record.event_id
            == row.event_id && record.topic == row.topic.parsed->Ok_0 && record.account_id
            == row.account_id && record.event_type == row.event_type && record.payload@
            == row.payload.text@ && record.created_at == row.created_at,
{
}

/// A cursor is found if and only if an event of that name is kept.
pub proof fn cursors_are_found_by_name(rows: Seq<EventStreamRow>, event_id: Seq<char>)
    ensures
        row_named(rows, event_id) is None <==> forall|i: int|
            0 <= i < rows.len() ==> (#[trigger] rows[i]).event_id@ != event_id,
        row_named(rows, event_id) is Some ==> rows.contains(row_named(rows, event_id)->0) && (
        row_named(rows, event_id)->0).event_id@ == event_id,
    decreases rows.len(),
{
    if rows.len() > 0 {
        let rest = rows.drop_last();
        cursors_are_found_by_name(rest, event_id);
        assert(forall|i: int| 0 <= i < rest.len() ==> #[trigger] rows[i] == rest[i]);
        assert(forall|i: int| 0 <= i < rest.len() ==> #[trigger] rest[i] == rows[i]);
        assert(rows[rows.len() - 1] == rows.last());
        if row_named(rest, event_id) is Some {
            let found = row_named(rest, event_id)->0;
            let k = choose|k: int| 0 <= k < rest.len() && rest[k] == found;
            assert(rows[k] == found);
        }
    }
}

/// A replay gives events that came after the cursor, of the wanted topics, which
/// the reader may see, in the order in which they came, no more than were asked
/// for. One that is left out came after the last that was given, and then as many
/// were given as were asked for and it is said that there is more.
pub proof fn replays_give_what_came_after(
    rows: Seq<EventStreamRow>,
    event_id: Seq<char>,
    topics: Set<Seq<char>>,
    accounts: Set<Seq<char>>,
    limit: u64,
    i: int,
)
    requires
        in_order(rows),
        catch_up_fault(rows, Some(event_id), topics, accounts, limit) is None,
        0 <= i < rows.len(),
    ensures
        row_named(rows, event_id) is Some,
        ({
            let got = caught_up(rows, Some(event_id), topics, accounts, limit);
            let cursor = row_named(rows, event_id)->0;
            let row = rows[i];
            &&& got.len() <= limit
            &&& forall|a: int, b: int|
                0 <= a < b < got.len() ==> (#[trigger] got[a]).stream_sequence < (
                #[trigger] got[b]).stream_sequence
            &&& got.contains(row) ==> {
                &&& row.stream_sequence > cursor.stream_sequence
                &&& topics.contains(row.topic.text@)
                &&& row.account_id is Some ==> accounts.contains((row.account_id->0)@)
                &&& row.account_id is None ==> row.topic.text@ == "system.event"@
                    || row.topic.text@ == "deadletter.summary"@
            }
            &&& !got.contains(row) && row.stream_sequence > cursor.stream_sequence
                && topics.contains(row.topic.text@) && (row.account_id is Some ==> accounts.contains(
                (row.account_id->0)@,
            )) && (row.account_id is None ==> row.topic.text@ == "system.event"@ || row.topic.text@
                == "deadletter.summary"@) ==> {
                &&& got.len() == limit
                &&& more_left(rows, Some(event_id), topics, accounts, limit)
                &&& forall|a: int|
                    0 <= a < got.len() ==> (#[trigger] got[a]).stream_sequence
                        < row.stream_sequence
            }
        }),
{
    let got = caught_up(rows, Some(event_id), topics, accounts, limit);
    let cursor = row_named(rows, event_id)->0;
    let after = cursor.stream_sequence;
    let row = rows[i];
    wanted_places(rows, after, topics, accounts);
    let all = all_wanted(rows, after, topics, accounts);
    replay_stays_within_bounds(rows, event_id, topics, accounts, limit);
    if wanted(row, after, topics, accounts) {
        all_wanted_at(rows, after, topics, accounts, i);
        assert(rows.last() == rows[rows.len() - 1]);
        assert(!nothing_left(rows, cursor, topics));
        let k = choose|k: int| 0 <= k < all.len() && all[k] == row;
        if k < got.len() {
            assert(got[k] == row);
        } else {
            assert forall|a: int| 0 <= a < got.len() implies (#[trigger] got[a]).stream_sequence
                < row.stream_sequence by {
                assert(got[a] == all[a]);
                assert(all[a].stream_sequence < all[k].stream_sequence);
            }
        }
    }
}

/// It is said that there is more only if there is: an event that is wanted and
/// was not given.
pub proof fn more_means_more(
    rows: Seq<EventStreamRow>,
    event_id: Seq<char>,
    topics: Set<Seq<char>>,
    accounts: Set<Seq<char>>,
    limit: u64,
)
    requires
        in_order(rows),
        catch_up_fault(rows, Some(event_id), topics, accounts, limit) is None,
        more_left(rows, Some(event_id), topics, accounts, limit),
    ensures
        exists|i: int|
            0 <= i < rows.len() && !caught_up(
                rows,
                Some(event_id),
                topics,
                accounts,
                limit,
            ).contains(#[trigger] rows[i]) && rows[i].stream_sequence > (
            row_named(rows, event_id)->0).stream_sequence && topics.contains(
                rows[i].topic.text@,
            ) && visible(rows[i].topic.text@, text::optional_text(rows[i].account_id), accounts),
{
    let got = caught_up(rows, Some(event_id), topics, accounts, limit);
    let cursor = row_named(rows, event_id)->0;
    let after = cursor.stream_sequence;
    wanted_places(rows, after, topics, accounts);
    let all = all_wanted(rows, after, topics, accounts);
    let last = all[limit as int];
    assert(rows.contains(last));
    let i = choose|i: int| 0 <= i < rows.len() && rows[i] == last;
    if got.contains(last) {
        let a = choose|a: int| 0 <= a < got.len() && got[a] == last;
        assert(all[a] == got[a]);
        assert(all[a].stream_sequence < all[limit as int].stream_sequence);
    }
    assert(!got.contains(rows[i]));
}

/// A reader who has no place yet starts after the last event and is given none of
/// the earlier ones; one whose place is gone is told so.
pub proof fn readers_start_where_they_are(
    rows: Seq<EventStreamRow>,
    event_id: Seq<char>,
    topics: Set<Seq<char>>,
    accounts: Set<Seq<char>>,
    limit: u64,
)
    requires
        rows.len() > 0 ==> rows[rows.len() - 1].stream_sequence > 0,
    ensures
        limit == 0 ==> catch_up_fault(rows, None, topics, accounts, limit) == Some(
            ReplayFault::InvalidLimit,
        ) && catch_up_fault(rows, Some(event_id), topics, accounts, limit) == Some(
            ReplayFault::InvalidLimit,
        ),
        limit > 0 ==> catch_up_fault(rows, None, topics, accounts, limit) is None,
        caught_up(rows, None, topics, accounts, limit).len() == 0,
        !more_left(rows, None, topics, accounts, limit),
        limit > 0 && (forall|i: int|
            0 <= i < rows.len() ==> (#[trigger] rows[i]).event_id@ != event_id) ==> catch_up_fault(
            rows,
            Some(event_id),
            topics,
            accounts,
            limit,
        ) == Some(ReplayFault::CursorExpired { event_id }),
        rows.len() == 0 ==> last_place(rows) is None,
        rows.len() > 0 ==> last_place(rows) == Some(rows[rows.len() - 1].stream_sequence),
{
    cursors_are_found_by_name(rows, event_id);
}

/// Pruning keeps, of the latest as many as the policy says, those that are not
/// older than it says; everything else goes.
pub proof fn pruning_removes_the_old_and_the_many(
    rows: Seq<EventStreamRow>,
    policy: EventRetentionPolicy,
    i: int,
)
    requires
        in_order(rows),
        0 <= i < rows.len(),
    ensures
        staying(rows, policy, rows).contains(rows[i]) <==> {
            &&& policy.retain_latest is Some ==> i >= rows.len() - policy.retain_latest->0
            &&& policy.created_at_or_after is Some ==> rows[i].created_at
                >= policy.created_at_or_after->0
        },
        in_order(staying(rows, policy, rows)),
{
    those_that_stay(rows, policy, rows);
    if policy.retain_latest is Some && rows.len() > policy.retain_latest->0 {
        let cut = rows.len() - 1 - policy.retain_latest->0;
        assert(i < cut ==> rows[i].stream_sequence < rows[cut].stream_sequence);
        assert(cut < i ==> rows[cut].stream_sequence < rows[i].stream_sequence);
    }
}

proof fn those_that_stay(
    rows: Seq<EventStreamRow>,
    policy: EventRetentionPolicy,
    given: Seq<EventStreamRow>,
)
    requires
        in_order(given),
    ensures
        in_order(staying(rows, policy, given)),
        forall|x: EventStreamRow| #[trigger] staying(rows, policy, given).contains(x) <==> (
        given.contains(x) && !goes(rows, policy, x)),
    decreases given.len(),
{
    if given.len() > 0 {
        let rest = given.drop_last();
        let last = given.last();
        assert(in_order(rest)) by {
            assert(forall|i: int| 0 <= i < rest.len() ==> #[trigger] rest[i] == given[i]);
        }
        those_that_stay(rows, policy, rest);
        let before = staying(rows, policy, rest);
        let all = staying(rows, policy, given);
        assert(given[given.len() - 1] == last);
        assert forall|x: EventStreamRow| #[trigger] rest.contains(x) implies given.contains(x)
            && x.stream_sequence < last.stream_sequence by {
            let k = choose|k: int| 0 <= k < rest.len() && rest[k] == x;
            assert(given[k] == x);
        }
        assert forall|x: EventStreamRow| #[trigger] given.contains(x) implies rest.contains(x) || x
            == last by {
            let k = choose|k: int| 0 <= k < given.len() && given[k] == x;
            if k < rest.len() {
                assert(rest[k] == x);
            }
        }
        if goes(rows, policy, last) {
            assert(all == before);
        } else {
            assert(all == before.push(last));
            assert forall|x: EventStreamRow| #[trigger] all.contains(x) <==> before.contains(x) || x
                == last by {
                if before.contains(x) {
                    let k = choose|k: int| 0 <= k < before.len() && before[k] == x;
                    assert(all[k] == x);
                }
                if x == last {
                    assert(all[all.len() - 1] == x);
                }
                if all.contains(x) {
                    let k = choose|k: int| 0 <= k < all.len() && all[k] == x;
                    if k < before.len() {
                        assert(before[k] == x);
                    }
                }
            }
            assert forall|i: int, j: int| 0 <= i < j < all.len() implies (
            #[trigger] all[i]).stream_sequence < (#[trigger] all[j]).stream_sequence by {
                assert(all[i] == before[i]);
                if j < before.len() {
                    assert(all[j] == before[j]);
                } else {
                    assert(before.contains(before[i]));
                }
            }
        }
    }
}

/// A policy that is followed has a bound, and keeps at least one event if it
/// bounds their number.
pub proof fn retention_has_a_bound(policy: EventRetentionPolicy)
    ensures
        retention_fault(policy) is None <==> {
            &&& policy.retain_latest is Some || policy.created_at_or_after is Some
            &&& policy.retain_latest is Some ==> policy.retain_latest->0 > 0
        },
{
}

/// The stream is pruned by a policy that has a bound and keeps at least one event
/// if it bounds their number.
pub proof fn pruning_follows_a_policy(rows: Seq<EventStreamRow>, policy: EventRetentionPolicy)
    ensures
        prune_fault(rows, policy) is None ==> (policy.retain_latest is Some
            || policy.created_at_or_after is Some) && (policy.retain_latest is Some ==> 0
            < policy.retain_latest->0 <= i64::MAX),
        (policy.retain_latest is Some || policy.created_at_or_after is Some) && (
        policy.retain_latest is Some ==> 0 < policy.retain_latest->0 <= i64::MAX) && (staying(
            rows,
            policy,
            rows,
        ).len() > 0 ==> staying(rows, policy, rows)[0].stream_sequence > 0) ==> prune_fault(
            rows,
            policy,
        ) is None,
{
}

/// A replay reads each event that it gives, in their order, as it is stored.
pub proof fn replayed_events_are_as_stored(
    rows: Seq<EventStreamRow>,
    records: Seq<EventStreamRecord>,
    i: int,
)
    requires
        read_from(rows, records),
        0 <= i < rows.len(),
    ensures
        records.len() == rows.len(),
        records[i].stream_sequence == rows[i].stream_sequence,
        records[i].event_id == rows[i].event_id,
        records[i].account_id == rows[i].account_id,
        records[i].event_type == rows[i].event_type,
        records[i].payload@ == rows[i].payload.text@,
        records[i].created_at == rows[i].created_at,
{
    assert(reads_as(rows[i], records[i]));
}

}
