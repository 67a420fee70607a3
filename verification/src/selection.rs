//! Which of the stored records a request is about.

use vstd::prelude::*;
use vstd::string::*;

use crate::deliveries;
use crate::domain::{CommandDeliveryAttemptStatus, SessionId, SessionStatus, WireOutboxStatus};
use crate::error;
use crate::error::StoreError;
use crate::model::{
    NewSessionRecord, SessionRouteQuery, SessionRouteResolution, StoredDeliveryAttempt,
    StoredOutboundDelivery, StoredSessionRecord, StoredWireOutbox, TRANSPORT_ACK_REJECTED_PREFIX,
};
use crate::sessions;
use crate::text;
use crate::text::{characters, optional_is, same_optional, same_text, text_precedes};

verus! {

/// What a record must be like to be picked.
pub trait Condition<T>: Sized {
    /// The record is picked.
    spec fn holds(&self, item: T) -> bool;

    fn is_met(&self, item: &T) -> (r: bool)
        ensures
            r == self.holds(*item),
    ;
}

/// Of the records those that are picked, in their order.
pub open spec fn picked<T, C: Condition<T>>(list: Seq<T>, condition: C) -> Seq<T>
    decreases list.len(),
{
    if list.len() == 0 {
        Seq::empty()
    } else {
        let before = picked(list.drop_last(), condition);
        if condition.holds(list.last()) {
            before.push(list.last())
        } else {
            before
        }
    }
}

/// Picks records, in their order.
pub fn pick<T, C: Condition<T>>(list: Vec<T>, condition: &C) -> (r: Vec<T>)
    ensures
        r@ == picked(list@, *condition),
{
    let ghost all = list@;
    let mut kept: Vec<T> = Vec::new();
    for item in it: list
        invariant
            it.seq() == all,
            all == list@,
            kept@ == picked(all.take(it.index()), *condition),
    {
        let ghost longer = all.take(it.index() + 1);
        assert(longer.drop_last() =~= all.take(it.index()));
        assert(longer.last() == item);
        if condition.is_met(&item) {
            kept.push(item);
        }
    }
    assert(all.take(all.len() as int) =~= all);
    kept
}

/// What is picked was there, and meets the condition.
pub proof fn picked_meet<T, C: Condition<T>>(list: Seq<T>, condition: C, item: T)
    ensures
        picked(list, condition).contains(item) <==> list.contains(item) && condition.holds(item),
    decreases list.len(),
{
    if list.len() > 0 {
        let shorter = list.drop_last();
        let before = picked(shorter, condition);
        let all = picked(list, condition);
        picked_meet(shorter, condition, item);
        assert(list =~= shorter.push(list.last()));
        if before.contains(item) {
            let i = choose|i: int| 0 <= i < before.len() && before[i] == item;
            assert(all[i] == item);
        }
        if shorter.contains(item) {
            let i = choose|i: int| 0 <= i < shorter.len() && shorter[i] == item;
            assert(list[i] == item);
        }
        if list.last() == item {
            assert(list[list.len() - 1] == item);
            if condition.holds(item) {
                assert(all[before.len() as int] == item);
            }
        }
        if all.contains(item) {
            let i = choose|i: int| 0 <= i < all.len() && all[i] == item;
            if i < before.len() {
                assert(before[i] == item);
            }
        }
        if list.contains(item) && item != list.last() {
            let i = choose|i: int| 0 <= i < list.len() && list[i] == item;
            assert(shorter[i] == item);
        }
    }
}

/// A session may carry a message: it is active, and as the query wants it.
impl Condition<StoredSessionRecord> for SessionRouteQuery {
    open spec fn holds(&self, item: StoredSessionRecord) -> bool {
        &&& item.status is Active
        &&& item.account_id@ == self.account_id@
        &&& self.client_id matches Some(client_id) ==> item.client_id@ == client_id@
        &&& self.terminal_id matches Some(terminal_id) ==> text::optional_text(item.terminal_id)
            == Some(terminal_id@)
    }

    fn is_met(&self, item: &StoredSessionRecord) -> (r: bool) {
        let client = match &self.client_id {
            Some(client_id) => same_text(item.client_id.as_str(), client_id.as_str()),
            None => true,
        };
        let terminal = match &self.terminal_id {
            Some(terminal_id) => optional_is(&item.terminal_id, terminal_id.as_str()),
            None => true,
        };
        item.status == SessionStatus::Active && same_text(
            item.account_id.as_str(),
            self.account_id.as_str(),
        ) && client && terminal
    }
}

/// The session is active, and of the same client, account and terminal.
impl Condition<StoredSessionRecord> for NewSessionRecord {
    open spec fn holds(&self, item: StoredSessionRecord) -> bool {
        &&& item.status is Active
        &&& item.client_id@ == self.client_id@
        &&& item.account_id@ == self.account_id@
        &&& text::optional_text(item.terminal_id) == text::optional_text(self.terminal_id)
    }

    fn is_met(&self, item: &StoredSessionRecord) -> (r: bool) {
        item.status == SessionStatus::Active && same_text(
            item.client_id.as_str(),
            self.client_id.as_str(),
        ) && same_text(item.account_id.as_str(), self.account_id.as_str()) && same_optional(
            &item.terminal_id,
            &self.terminal_id,
        )
    }
}

/// A character, with the ASCII capitals as small letters.
pub open spec fn folded(c: char) -> int {
    if 'A' <= c && c <= 'Z' {
        c as int + 32
    } else {
        c as int
    }
}

fn fold(c: char) -> (r: u32)
    ensures
        r == folded(c),
{
    if 'A' <= c && c <= 'Z' {
        c as u32 + 32
    } else {
        c as u32
    }
}

/// The text begins like the pattern: in the pattern an underscore stands for any
/// character, and small and capital letters count as the same.
pub open spec fn begins_like(text: Seq<char>, pattern: Seq<char>) -> bool {
    &&& pattern.len() <= text.len()
    &&& forall|i: int|
        0 <= i < pattern.len() ==> #[trigger] pattern[i] == '_' || folded(text[i]) == folded(
            pattern[i],
        )
}

/// Whether the text begins like the pattern.
pub fn text_begins_like(text: &str, pattern: &str) -> (r: bool)
    ensures
        r == begins_like(text@, pattern@),
{
    let whole = characters(text);
    let head = characters(pattern);
    if head.len() > whole.len() {
        return false;
    }
    let mut i: usize = 0;
    while i < head.len()
        invariant
            whole@ == text@,
            head@ == pattern@,
            i <= head.len() <= whole.len(),
            forall|j: int|
                0 <= j < i ==> #[trigger] pattern@[j] == '_' || folded(text@[j]) == folded(
                    pattern@[j],
                ),
        decreases head.len() - i,
    {
        let c: char = head[i];
        if c != '_' && fold(whole[i]) != fold(c) {
            assert(pattern@[i as int] == c);
            return false;
        }
        i = i + 1;
    }
    true
}

/// The error of a message looks like a peer's refusal.
pub open spec fn looks_refused(outbox: StoredWireOutbox) -> bool {
    outbox.last_error matches Some(reason) && begins_like(reason@, TRANSPORT_ACK_REJECTED_PREFIX@)
}

fn does_look_refused(outbox: &StoredWireOutbox) -> (r: bool)
    ensures
        r == looks_refused(*outbox),
{
    match &outbox.last_error {
        Some(reason) => text_begins_like(reason.as_str(), TRANSPORT_ACK_REJECTED_PREFIX),
        None => false,
    }
}

/// How a delivery was left.
#[derive(Clone, Copy, Debug, PartialEq, Eq, Structural)]
pub enum LeftOpen {
    /// The peer refused the message, and its attempt does not know it.
    Refused,
    /// The message was not yet written.
    NotWritten,
    /// The message may have reached the peer.
    InDoubt,
}

/// The deliveries of a session that were left in one way.
pub struct OpenDeliveries {
    pub session_id: SessionId,
    pub left: LeftOpen,
}

/// A delivery was left open in this way.
pub open spec fn is_left(left: LeftOpen, delivery: StoredOutboundDelivery) -> bool {
    match left {
        LeftOpen::Refused => delivery.outbox.status is Failed && delivery.attempt.status is Pending
            && looks_refused(delivery.outbox),
        LeftOpen::NotWritten => deliveries::not_yet_written(delivery),
        LeftOpen::InDoubt => deliveries::may_have_arrived(delivery),
    }
}

impl Condition<StoredOutboundDelivery> for OpenDeliveries {
    open spec fn holds(&self, item: StoredOutboundDelivery) -> bool {
        &&& is_left(self.left, item)
        &&& text::optional_text(
            if self.left is InDoubt {
                item.attempt.session_id
            } else {
                item.outbox.session_id
            },
        ) == Some(self.session_id@)
    }

    fn is_met(&self, item: &StoredOutboundDelivery) -> (r: bool) {
        let attempt = item.attempt.status;
        let outbox = item.outbox.status;
        match self.left {
            LeftOpen::Refused => outbox == WireOutboxStatus::Failed && attempt
                == CommandDeliveryAttemptStatus::Pending && does_look_refused(&item.outbox)
                && optional_is(&item.outbox.session_id, self.session_id.as_str()),
            LeftOpen::NotWritten => outbox == WireOutboxStatus::Pending && attempt
                == CommandDeliveryAttemptStatus::Pending && optional_is(
                &item.outbox.session_id,
                self.session_id.as_str(),
            ),
            LeftOpen::InDoubt => ((attempt == CommandDeliveryAttemptStatus::Sent && outbox
                != WireOutboxStatus::Failed) || (attempt == CommandDeliveryAttemptStatus::Pending
                && (outbox == WireOutboxStatus::WriteStarted || outbox == WireOutboxStatus::Sent
                || outbox == WireOutboxStatus::Acked))) && optional_is(
                &item.attempt.session_id,
                self.session_id.as_str(),
            ),
        }
    }
}

/// An attempt with its message, where it has one.
pub struct TracedAttempt {
    pub attempt: StoredDeliveryAttempt,
    pub outbox: Option<StoredWireOutbox>,
}

/// The commands that are on their way over a session.
pub struct InflightCommands {
    pub session_id: SessionId,
}

impl Condition<TracedAttempt> for InflightCommands {
    open spec fn holds(&self, item: TracedAttempt) -> bool {
        &&& text::optional_text(item.attempt.session_id) == Some(self.session_id@)
        &&& item.attempt.subject is ExecutionCommand
        &&& item.attempt.status is Pending || item.attempt.status is Sent
            || item.attempt.status is Unconfirmed
        &&& !(item.outbox matches Some(outbox) && outbox.status is Failed && looks_refused(outbox))
    }

    fn is_met(&self, item: &TracedAttempt) -> (r: bool) {
        let status = item.attempt.status;
        let refused = match &item.outbox {
            Some(outbox) => outbox.status == WireOutboxStatus::Failed && does_look_refused(outbox),
            None => false,
        };
        optional_is(&item.attempt.session_id, self.session_id.as_str())
            && item.attempt.subject.command_id().is_some() && (status
            == CommandDeliveryAttemptStatus::Pending || status
            == CommandDeliveryAttemptStatus::Sent || status
            == CommandDeliveryAttemptStatus::Unconfirmed) && !refused
    }
}

/// How many commands are on their way over a session.
pub fn count_inflight(session_id: &SessionId, attempts: &Vec<TracedAttempt>) -> (r: i64)
    requires
        attempts.len() <= i64::MAX,
    ensures
        forall|inflight: InflightCommands|
            inflight.session_id@ == session_id@ ==> r == #[trigger] picked(
                attempts@,
                inflight,
            ).len(),
{
    let inflight = InflightCommands { session_id: session_id.clone() };
    let mut count: i64 = 0;
    let mut i: usize = 0;
    while i < attempts.len()
        invariant
            attempts.len() <= i64::MAX,
            i <= attempts.len(),
            0 <= count <= i,
            count == picked(attempts@.take(i as int), inflight).len(),
        decreases attempts.len() - i,
    {
        assert(attempts@.take(i + 1).drop_last() =~= attempts@.take(i as int));
        if inflight.is_met(&attempts[i]) {
            count = count + 1;
        }
        i = i + 1;
    }
    assert(attempts@.take(i as int) =~= attempts@);
    proof {
        assert forall|other: InflightCommands| other.session_id@ == session_id@ implies count
            == #[trigger] picked(attempts@, other).len() by {
            same_inflight(attempts@, inflight, other);
        }
    }
    count
}

proof fn same_inflight(attempts: Seq<TracedAttempt>, a: InflightCommands, b: InflightCommands)
    requires
        a.session_id@ == b.session_id@,
    ensures
        picked(attempts, a) == picked(attempts, b),
    decreases attempts.len(),
{
    if attempts.len() > 0 {
        same_inflight(attempts.drop_last(), a, b);
    }
}

/// The messages of a session that wait to be written.
pub struct PendingMessages {
    pub session_id: SessionId,
}

impl Condition<StoredWireOutbox> for PendingMessages {
    open spec fn holds(&self, item: StoredWireOutbox) -> bool {
        item.status is Pending && text::optional_text(item.session_id) == Some(self.session_id@)
    }

    fn is_met(&self, item: &StoredWireOutbox) -> (r: bool) {
        item.status == WireOutboxStatus::Pending && optional_is(
            &item.session_id,
            self.session_id.as_str(),
        )
    }
}

/// One message is written before another: it has no number, or a lower one, or
/// the same and a name that comes first.
pub open spec fn written_before(a: StoredWireOutbox, b: StoredWireOutbox) -> bool {
    match (a.sequence, b.sequence) {
        (Some(x), Some(y)) => x < y || (x == y && text::precedes(a.message_id@, b.message_id@)),
        (None, Some(_)) => true,
        (Some(_), None) => false,
        (None, None) => text::precedes(a.message_id@, b.message_id@),
    }
}

fn is_written_before(a: &StoredWireOutbox, b: &StoredWireOutbox) -> (r: bool)
    ensures
        r == written_before(*a, *b),
{
    match (a.sequence, b.sequence) {
        (Some(x), Some(y)) => x < y || (x == y && text_precedes(
            a.message_id.as_str(),
            b.message_id.as_str(),
        )),
        (None, Some(_)) => true,
        (Some(_), None) => false,
        (None, None) => text_precedes(a.message_id.as_str(), b.message_id.as_str()),
    }
}

/// The list with a message put behind all that it is not written before.
pub open spec fn with_message(list: Seq<StoredWireOutbox>, item: StoredWireOutbox) -> Seq<
    StoredWireOutbox,
>
    decreases list.len(),
{
    if list.len() == 0 || !written_before(item, list.last()) {
        list.push(item)
    } else {
        with_message(list.drop_last(), item).push(list.last())
    }
}

/// The messages in the order in which they are written.
pub open spec fn in_turn(messages: Seq<StoredWireOutbox>) -> Seq<StoredWireOutbox>
    decreases messages.len(),
{
    if messages.len() == 0 {
        Seq::empty()
    } else {
        with_message(in_turn(messages.drop_last()), messages.last())
    }
}

proof fn with_message_at(list: Seq<StoredWireOutbox>, item: StoredWireOutbox, at: int)
    requires
        0 <= at <= list.len(),
        forall|i: int| at <= i < list.len() ==> written_before(item, #[trigger] list[i]),
        at > 0 ==> !written_before(item, list[at - 1]),
    ensures
        with_message(list, item) == list.insert(at, item),
    decreases list.len(),
{
    if at == list.len() {
        assert(list.push(item) =~= list.insert(at, item));
    } else {
        let shorter = list.drop_last();
        assert(written_before(item, list[list.len() - 1]));
        assert forall|i: int| at <= i < shorter.len() implies written_before(
            item,
            #[trigger] shorter[i],
        ) by {
            assert(written_before(item, list[i]));
        }
        with_message_at(shorter, item, at);
        assert(shorter.insert(at, item).push(list.last()) =~= list.insert(at, item));
    }
}

fn put_message(list: &mut Vec<StoredWireOutbox>, item: StoredWireOutbox)
    ensures
        final(list)@ == with_message(old(list)@, item),
{
    let mut at: usize = list.len();
    while at > 0 && is_written_before(&item, &list[at - 1])
        invariant
            at <= list.len(),
            list@ == old(list)@,
            forall|i: int| at <= i < list.len() ==> written_before(item, #[trigger] list@[i]),
        decreases at,
    {
        at = at - 1;
    }
    proof {
        with_message_at(list@, item, at as int);
    }
    list.insert(at, item);
}

fn sort_messages(messages: Vec<StoredWireOutbox>) -> (r: Vec<StoredWireOutbox>)
    ensures
        r@ == in_turn(messages@),
{
    let ghost all = messages@;
    let mut list: Vec<StoredWireOutbox> = Vec::new();
    for item in it: messages
        invariant
            it.seq() == all,
            all == messages@,
            list@ == in_turn(all.take(it.index())),
    {
        let ghost longer = all.take(it.index() + 1);
        proof {
            assert(longer.drop_last() =~= all.take(it.index()));
            assert(longer.last() == item);
        }
        put_message(&mut list, item);
    }
    assert(all.take(all.len() as int) =~= all);
    list
}

/// The first messages of a session that wait to be written, at most `limit`, in
/// the order in which they are written.
pub fn list_pending_outbox(
    messages: Vec<StoredWireOutbox>,
    pending: &PendingMessages,
    limit: u32,
) -> (r: Result<Vec<StoredWireOutbox>, StoreError>)
    ensures
        error::fault(r) == (if limit == 0 {
            Some(error::Fault::InvalidSequence { field: "list_pending_outbox.limit"@ })
        } else {
            None
        }),
        r matches Ok(list) ==> list@ == first_pending(messages@, *pending, limit as int),
{
    if limit == 0 {
        return Err(StoreError::InvalidSequence { field: "list_pending_outbox.limit" });
    }
    let mut list = sort_messages(pick(messages, pending));
    if list.len() > limit as usize {
        list.truncate(limit as usize);
    }
    Ok(list)
}

/// The first messages of a session that wait to be written, at most `limit`.
pub open spec fn first_pending(
    messages: Seq<StoredWireOutbox>,
    pending: PendingMessages,
    limit: int,
) -> Seq<StoredWireOutbox> {
    let all = in_turn(picked(messages, pending));
    if limit < all.len() {
        all.take(limit)
    } else {
        all
    }
}

proof fn not_written_before_chains(a: StoredWireOutbox, b: StoredWireOutbox, c: StoredWireOutbox)
    requires
        !written_before(b, a),
        !written_before(c, b),
    ensures
        !written_before(c, a),
{
    if written_before(c, a) && a.message_id@ != b.message_id@ && a.sequence == b.sequence
        && b.sequence == c.sequence {
        text::precedes_total(a.message_id@, b.message_id@);
        text::precedes_transitive(c.message_id@, a.message_id@, b.message_id@);
    }
}

proof fn written_before_one_way(a: StoredWireOutbox, b: StoredWireOutbox)
    requires
        written_before(a, b),
    ensures
        !written_before(b, a),
{
    if a.sequence == b.sequence && text::precedes(b.message_id@, a.message_id@) {
        text::precedes_transitive(a.message_id@, b.message_id@, a.message_id@);
        text::precedes_irreflexive(a.message_id@);
    }
}

/// No message stands behind one that is written later.
pub open spec fn turns_kept(list: Seq<StoredWireOutbox>) -> bool {
    forall|i: int, j: int|
        0 <= i < j < list.len() ==> !written_before(#[trigger] list[j], #[trigger] list[i])
}

proof fn with_message_keeps_turns(list: Seq<StoredWireOutbox>, item: StoredWireOutbox)
    requires
        turns_kept(list),
    ensures
        turns_kept(with_message(list, item)),
        with_message(list, item).to_multiset() == list.to_multiset().insert(item),
        forall|m: StoredWireOutbox|
            #![trigger with_message(list, item).contains(m)]
            with_message(list, item).contains(m) ==> m == item || list.contains(m),
    decreases list.len(),
{
    broadcast use vstd::seq_lib::group_to_multiset_ensures;

    let after = with_message(list, item);
    if list.len() == 0 || !written_before(item, list.last()) {
        assert forall|i: int, j: int| 0 <= i < j < after.len() implies !written_before(
            #[trigger] after[j],
            #[trigger] after[i],
        ) by {
            if j == list.len() && i < list.len() - 1 {
                assert(!written_before(list[list.len() - 1], list[i]));
                not_written_before_chains(list[i], list.last(), item);
            }
        }
        assert forall|m: StoredWireOutbox| #[trigger] after.contains(m) implies m == item
            || list.contains(m) by {
            let k = choose|k: int| 0 <= k < after.len() && after[k] == m;
            if k < list.len() {
                assert(list[k] == m);
            }
        }
    } else {
        let shorter = list.drop_last();
        let before = with_message(shorter, item);
        assert forall|i: int, j: int| 0 <= i < j < shorter.len() implies !written_before(
            #[trigger] shorter[j],
            #[trigger] shorter[i],
        ) by {
            assert(!written_before(list[j], list[i]));
        }
        with_message_keeps_turns(shorter, item);
        assert forall|i: int, j: int| 0 <= i < j < after.len() implies !written_before(
            #[trigger] after[j],
            #[trigger] after[i],
        ) by {
            if j < before.len() {
                assert(!written_before(before[j], before[i]));
            } else {
                assert(before.contains(before[i]));
                if before[i] == item {
                    written_before_one_way(item, list.last());
                } else {
                    let k = choose|k: int| 0 <= k < shorter.len() && shorter[k] == before[i];
                    assert(!written_before(list[list.len() - 1], list[k]));
                }
            }
        }
        assert forall|m: StoredWireOutbox| #[trigger] after.contains(m) implies m == item
            || list.contains(m) by {
            let k = choose|k: int| 0 <= k < after.len() && after[k] == m;
            if k < before.len() {
                assert(before.contains(m));
                if m != item {
                    let n = choose|n: int| 0 <= n < shorter.len() && shorter[n] == m;
                    assert(list[n] == m);
                }
            } else {
                assert(list[list.len() - 1] == m);
            }
        }
        assert(shorter.push(list.last()) =~= list);
        assert(after.to_multiset() =~= list.to_multiset().insert(item));
    }
}

proof fn in_turn_keeps_turns(messages: Seq<StoredWireOutbox>)
    ensures
        turns_kept(in_turn(messages)),
        in_turn(messages).to_multiset() == messages.to_multiset(),
        in_turn(messages).len() == messages.len(),
    decreases messages.len(),
{
    broadcast use vstd::seq_lib::group_to_multiset_ensures;

    if messages.len() > 0 {
        let shorter = messages.drop_last();
        in_turn_keeps_turns(shorter);
        with_message_keeps_turns(in_turn(shorter), messages.last());
        assert(shorter.push(messages.last()) =~= messages);
    }
    assert(in_turn(messages).to_multiset().len() == in_turn(messages).len());
    assert(messages.to_multiset().len() == messages.len());
}

/// Whatever order messages are found in, those that are listed wait to be
/// written, come in turn, and none that is left out is written before one that
/// is listed; and none is left out while there is room.
pub proof fn waiting_messages_come_in_turn(
    messages: Seq<StoredWireOutbox>,
    pending: PendingMessages,
    limit: int,
)
    requires
        limit > 0,
    ensures
        ({
            let list = first_pending(messages, pending, limit);
            let all = in_turn(picked(messages, pending));
            &&& turns_kept(list)
            &&& list.len() <= limit
            &&& all.to_multiset() == picked(messages, pending).to_multiset()
            &&& picked(messages, pending).len() <= limit ==> list == all
            &&& forall|i: int, j: int|
                0 <= i < list.len() <= j < all.len() ==> !written_before(
                    #[trigger] all[j],
                    #[trigger] list[i],
                )
        }),
{
    let all = in_turn(picked(messages, pending));
    let list = first_pending(messages, pending, limit);
    in_turn_keeps_turns(picked(messages, pending));
    assert forall|i: int| 0 <= i < list.len() implies #[trigger] list[i] == all[i] by {}
    assert forall|i: int, j: int| 0 <= i < j < list.len() implies !written_before(
        #[trigger] list[j],
        #[trigger] list[i],
    ) by {
        assert(!written_before(all[j], all[i]));
    }
}

/// The session that carries a message is one that the query admits.
pub proof fn ready_sessions_fit(all: Seq<StoredSessionRecord>, query: SessionRouteQuery)
    ensures
        sessions::route(picked(all, query), query) matches SessionRouteResolution::Ready(session)
            ==> all.contains(session) && query.holds(session),
{
    let candidates = picked(all, query);
    if candidates.len() == 1 {
        picked_meet(all, query, candidates[0]);
        assert(candidates.contains(candidates[0]));
    }
}

/// What a peer refused looks refused.
pub proof fn refused_looks_refused(outbox: StoredWireOutbox)
    ensures
        deliveries::refused_by_peer(outbox) ==> looks_refused(outbox),
{
    if deliveries::refused_by_peer(outbox) {
        let reason = outbox.last_error->0@;
        let prefix = TRANSPORT_ACK_REJECTED_PREFIX@;
        assert forall|i: int| 0 <= i < prefix.len() implies #[trigger] prefix[i] == '_' || folded(
            reason[i],
        ) == folded(prefix[i]) by {
            assert(reason.take(prefix.len() as int)[i] == prefix[i]);
        }
    }
}

/// A delivery that is under way is left in exactly one way when its session
/// ends, and so is treated exactly once. Under way is an attempt that is
/// pending while its message is neither called off nor failed for another
/// reason than a peer's refusal, and one that was sent and not refused.
pub proof fn open_deliveries_are_treated(delivery: StoredOutboundDelivery)
    requires
        delivery.attempt.status is Pending && !(delivery.outbox.status is Cancelled) && (
        delivery.outbox.status is Failed ==> deliveries::refused_by_peer(delivery.outbox))
            || delivery.attempt.status is Sent && !(delivery.outbox.status is Failed),
    ensures
        is_left(LeftOpen::Refused, delivery) || is_left(LeftOpen::NotWritten, delivery) || is_left(
            LeftOpen::InDoubt,
            delivery,
        ),
        forall|a: LeftOpen, b: LeftOpen| #[trigger]
            is_left(a, delivery) && #[trigger] is_left(b, delivery) ==> a == b,
{
    refused_looks_refused(delivery.outbox);
}

/// What is picked is in the list and meets the condition, and whatever is in the
/// list and meets it is picked.
pub proof fn picked_are_those_that_meet<T, C: Condition<T>>(list: Seq<T>, condition: C, item: T)
    ensures
        picked(list, condition).contains(item) <==> list.contains(item) && condition.holds(item),
        picked(list, condition).len() <= list.len(),
    decreases list.len(),
{
    if list.len() > 0 {
        let shorter = list.drop_last();
        picked_are_those_that_meet(shorter, condition, item);
        let before = picked(shorter, condition);
        let after = picked(list, condition);
        if before.contains(item) {
            let k = choose|k: int| 0 <= k < before.len() && before[k] == item;
            assert(after[k] == item);
        }
        if shorter.contains(item) {
            let i = choose|i: int| 0 <= i < shorter.len() && shorter[i] == item;
            assert(list[i] == item);
        }
        if after.contains(item) {
            let k = choose|k: int| 0 <= k < after.len() && after[k] == item;
            if k < before.len() {
                assert(before[k] == item);
            } else {
                assert(list[list.len() - 1] == item);
            }
        }
        if list.contains(item) && condition.holds(item) {
            let i = choose|i: int| 0 <= i < list.len() && list[i] == item;
            if i == list.len() - 1 {
                assert(after[after.len() - 1] == item);
            } else {
                assert(shorter[i] == item);
            }
        }
    }
}

/// A session may carry a message if it is active, of the account that is asked
/// for, and of the client and the terminal where these are asked for.
pub proof fn routes_go_over_active_sessions(
    all: Seq<StoredSessionRecord>,
    query: SessionRouteQuery,
    session: StoredSessionRecord,
)
    ensures
        picked(all, query).contains(session) <==> all.contains(session) && session.status is Active
            && session.account_id@ == query.account_id@ && (query.client_id is None
            || session.client_id@ == (query.client_id->0)@) && (query.terminal_id is None || (
        session.terminal_id is Some && (session.terminal_id->0)@ == (query.terminal_id->0)@)),
{
    picked_are_those_that_meet(all, query, session);
}

/// A new session replaces the active sessions of its client, account and
/// terminal, and no others.
pub proof fn sessions_replace_their_like(
    all: Seq<StoredSessionRecord>,
    new: NewSessionRecord,
    session: StoredSessionRecord,
)
    ensures
        picked(all, new).contains(session) <==> all.contains(session) && session.status is Active
            && session.client_id@ == new.client_id@ && session.account_id@ == new.account_id@ && (
        session.terminal_id is None <==> new.terminal_id is None) && (session.terminal_id is Some
            && new.terminal_id is Some ==> (session.terminal_id->0)@ == (new.terminal_id->0)@),
{
    picked_are_those_that_meet(all, new, session);
}

/// A message waits to be written over a session if it is pending there.
pub proof fn pending_messages_wait(
    all: Seq<StoredWireOutbox>,
    pending: PendingMessages,
    message: StoredWireOutbox,
)
    ensures
        picked(all, pending).contains(message) <==> all.contains(message)
            && message.status is Pending && message.session_id is Some && (message.session_id->0)@
            == pending.session_id@,
{
    picked_are_those_that_meet(all, pending, message);
}

/// A command is on its way over a session from when its attempt is pending until
/// the peer holds it, refused it or it failed: pending, sent or in doubt, and not
/// refused.
pub proof fn commands_on_their_way_are_counted(
    all: Seq<TracedAttempt>,
    inflight: InflightCommands,
    item: TracedAttempt,
)
    requires
        item.outbox matches Some(outbox) ==> !(outbox.status is Failed),
    ensures
        picked(all, inflight).contains(item) <==> all.contains(item) && (
        item.attempt.session_id is Some && (item.attempt.session_id->0)@ == inflight.session_id@)
            && item.attempt.subject is ExecutionCommand && (item.attempt.status is Pending
            || item.attempt.status is Sent || item.attempt.status is Unconfirmed),
{
    picked_are_those_that_meet(all, inflight, item);
}

/// A command whose message the peer refused is not on its way.
pub proof fn refused_commands_are_not_counted(
    all: Seq<TracedAttempt>,
    inflight: InflightCommands,
    item: TracedAttempt,
    reason: Seq<char>,
)
    requires
        item.outbox is Some && (item.outbox->0).status is Failed,
        (item.outbox->0).last_error is Some && ((item.outbox->0).last_error->0)@
            == "TRANSPORT_ACK_REJECTED:"@ + reason,
    ensures
        !picked(all, inflight).contains(item),
{
    picked_are_those_that_meet(all, inflight, item);
    let prefix = "TRANSPORT_ACK_REJECTED:"@;
    let error = ((item.outbox->0).last_error->0)@;
    assert forall|i: int| 0 <= i < prefix.len() implies #[trigger] prefix[i] == '_' || folded(
        error[i],
    ) == folded(prefix[i]) by {
        assert(error[i] == prefix[i]);
    }
}

/// What a session leaves open when it ends: pending messages were not written;
/// what is sent but not failed, or pending while its message is written or
/// answered, may have arrived.
pub proof fn sessions_leave_open_what_is_unanswered(
    all: Seq<StoredOutboundDelivery>,
    session_id: SessionId,
    delivery: StoredOutboundDelivery,
)
    ensures
        picked(all, OpenDeliveries { session_id, left: LeftOpen::NotWritten }).contains(delivery)
            <==> all.contains(delivery) && delivery.outbox.status is Pending
            && delivery.attempt.status is Pending && delivery.outbox.session_id is Some && (
        delivery.outbox.session_id->0)@ == session_id@,
        picked(all, OpenDeliveries { session_id, left: LeftOpen::InDoubt }).contains(delivery)
            <==> all.contains(delivery) && delivery.attempt.session_id is Some && (
        delivery.attempt.session_id->0)@ == session_id@ && ((delivery.attempt.status is Sent
            && !(delivery.outbox.status is Failed)) || (delivery.attempt.status is Pending && (
        delivery.outbox.status is WriteStarted || delivery.outbox.status is Sent
            || delivery.outbox.status is Acked))),
        picked(all, OpenDeliveries { session_id, left: LeftOpen::Refused }).contains(delivery)
            ==> all.contains(delivery) && delivery.outbox.status is Failed
            && delivery.attempt.status is Pending && delivery.outbox.session_id is Some && (
        delivery.outbox.session_id->0)@ == session_id@,
{
    picked_are_those_that_meet(
        all,
        OpenDeliveries { session_id, left: LeftOpen::NotWritten },
        delivery,
    );
    picked_are_those_that_meet(
        all,
        OpenDeliveries { session_id, left: LeftOpen::InDoubt },
        delivery,
    );
    picked_are_those_that_meet(
        all,
        OpenDeliveries { session_id, left: LeftOpen::Refused },
        delivery,
    );
}

/// Messages are written in the order of their numbers, those without a number
/// first, and of equal numbers by their names.
pub proof fn lower_numbers_are_written_first(a: StoredWireOutbox, b: StoredWireOutbox)
    ensures
        a.sequence is None && b.sequence is Some ==> written_before(a, b) && !written_before(b, a),
        (a.sequence is Some && b.sequence is Some && a.sequence->0 < b.sequence->0)
            ==> written_before(a, b) && !written_before(b, a),
        a.sequence == b.sequence ==> (written_before(a, b) <==> text::precedes(
            a.message_id@,
            b.message_id@,
        )),
{
}

/// A text begins like a pattern if it is at least as long, and its characters are
/// those of the pattern but for the size of letters, where the pattern does not
/// leave them open.
pub proof fn patterns_leave_letters_open(text: Seq<char>, pattern: Seq<char>)
    ensures
        begins_like(text, pattern) ==> pattern.len() <= text.len(),
        begins_like(text, pattern) ==> forall|i: int|
            0 <= i < pattern.len() && #[trigger] pattern[i] != '_' ==> text[i] == pattern[i] || (
            'A' <= text[i] <= 'Z' && text[i] as int + 32 == pattern[i] as int) || ('A'
                <= pattern[i] <= 'Z' && pattern[i] as int + 32 == text[i] as int),
        text.len() >= pattern.len() && text.take(pattern.len() as int) == pattern ==> begins_like(
            text,
            pattern,
        ),
{
    if text.len() >= pattern.len() && text.take(pattern.len() as int) == pattern {
        assert forall|i: int| 0 <= i < pattern.len() implies #[trigger] pattern[i] == '_' || folded(
            text[i],
        ) == folded(pattern[i]) by {
            assert(text.take(pattern.len() as int)[i] == text[i]);
        }
    }
}

}
