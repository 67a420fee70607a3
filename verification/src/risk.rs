//! Intents and the risk decisions about them.

use vstd::prelude::*;
use vstd::string::*;

use crate::columns;
use crate::columns::{
    deserialize_payload, parse_enum_column, validate_column, validate_i64_column, EnumColumn,
    JsonColumns,
};
use crate::domain::{IntentId, RiskId};
use crate::error;
use crate::error::{Fault, StoreError};
use crate::json;
use crate::json::CanonicalJson;
use crate::model::WriteOutcome;
use crate::plans;
use crate::plans::{find_candidate, require_no_objection};
use crate::text;
use crate::text::{decimal_text, join2, join3, join4, same_text, signed_decimal_text};
use crate::trading;
use crate::trading::{
    same_f64_bits, AdjustedRiskLegAction, NewRiskResult, NewTradeIntent, ProposedLeg, RiskResult,
    SizingCandidate, StoredRiskResult, StoredTradeIntent, TradeIntent, TradeIntentAction,
    TradeIntentLegAction, ONE_BITS,
};

verus! {

/// The key of an intent.
pub open spec fn intent_key(intent_id: Seq<char>) -> Seq<char> {
    "intent_id="@ + intent_id
}

/// The key of a risk decision.
pub open spec fn risk_key(risk_id: Seq<char>) -> Seq<char> {
    "risk_id="@ + risk_id
}

/// A row of the intents, with what the domain reads from its payload.
pub struct TradeIntentRow {
    pub intent_id: IntentId,
    pub decision_id: String,
    pub strategy_id: String,
    pub account_id: String,
    pub symbol: String,
    pub action: String,
    pub status: EnumColumn<String>,
    pub requested_at: i64,
    pub signal_expires_at: i64,
    pub idempotency_key: String,
    pub payload: JsonColumns,
    pub created_at: i64,
    pub updated_at: i64,
    pub intent: Result<TradeIntent, String>,
}

/// What is wrong with a row of the intents.
pub open spec fn intent_row_fault(row: TradeIntentRow) -> Option<Fault> {
    let e = "trade_intent"@;
    let key = row.intent_id@;
    let intent = row.intent->Ok_0;
    let f = json::stored_fault(e, key, row.payload.text@, row.payload.digest@);
    let f = error::first_of(f, columns::decode_fault(e, key, row.intent));
    let f = error::first_of(
        f,
        columns::column_fault(e, key, "intent_id"@, key == intent.intent_id@),
    );
    let f = error::first_of(
        f,
        columns::column_fault(e, key, "decision_id"@, row.decision_id@ == intent.decision_id@),
    );
    let f = error::first_of(
        f,
        columns::column_fault(e, key, "strategy_id"@, row.strategy_id@ == intent.strategy_id@),
    );
    let f = error::first_of(
        f,
        columns::column_fault(e, key, "account_id"@, row.account_id@ == intent.account_id@),
    );
    let f = error::first_of(
        f,
        columns::column_fault(e, key, "symbol"@, row.symbol@ == intent.symbol@),
    );
    let f = error::first_of(
        f,
        columns::column_fault(e, key, "action"@, row.action@ == intent.action.name()),
    );
    let f = error::first_of(
        f,
        columns::column_fault(e, key, "requested_at"@, row.requested_at == intent.requested_at),
    );
    let f = error::first_of(
        f,
        columns::column_fault(
            e,
            key,
            "signal_expires_at"@,
            row.signal_expires_at == intent.signal_expires_at,
        ),
    );
    let f = error::first_of(
        f,
        columns::column_fault(
            e,
            key,
            "idempotency_key"@,
            row.idempotency_key@ == intent.idempotency_key@,
        ),
    );
    error::first_of(f, columns::enum_fault(e, key, "status"@, row.status))
}

/// The intent holds what the row holds.
pub open spec fn intent_of_row(row: TradeIntentRow, stored: StoredTradeIntent) -> bool {
    &&& stored == StoredTradeIntent {
        intent: row.intent->Ok_0,
        status: row.status.parsed->Ok_0,
        payload: stored.payload,
        created_at: row.created_at,
        updated_at: row.updated_at,
    }
    &&& stored.payload@ == row.payload.text@
    &&& stored.intent.intent_id@ == row.intent_id@
}

/// Reads an intent.
pub fn trade_intent_from_row(row: TradeIntentRow) -> (r: Result<StoredTradeIntent, StoreError>)
    ensures
        error::fault(r) == intent_row_fault(row),
        r matches Ok(stored) ==> intent_of_row(row, stored),
{
    let entity = "trade_intent";
    let key = row.intent_id;
    let payload = CanonicalJson::from_stored(
        entity,
        key.as_str(),
        row.payload.text,
        row.payload.digest,
    )?;
    let intent = deserialize_payload(entity, key.as_str(), row.intent)?;
    validate_column(entity, key.as_str(), "intent_id", key.as_str(), intent.intent_id.as_str())?;
    validate_column(
        entity,
        key.as_str(),
        "decision_id",
        row.decision_id.as_str(),
        intent.decision_id.as_str(),
    )?;
    validate_column(
        entity,
        key.as_str(),
        "strategy_id",
        row.strategy_id.as_str(),
        intent.strategy_id.as_str(),
    )?;
    validate_column(
        entity,
        key.as_str(),
        "account_id",
        row.account_id.as_str(),
        intent.account_id.as_str(),
    )?;
    validate_column(entity, key.as_str(), "symbol", row.symbol.as_str(), intent.symbol.as_str())?;
    validate_column(entity, key.as_str(), "action", row.action.as_str(), intent.action.as_str())?;
    validate_i64_column(
        entity,
        key.as_str(),
        "requested_at",
        row.requested_at,
        intent.requested_at,
    )?;
    validate_i64_column(
        entity,
        key.as_str(),
        "signal_expires_at",
        row.signal_expires_at,
        intent.signal_expires_at,
    )?;
    validate_column(
        entity,
        key.as_str(),
        "idempotency_key",
        row.idempotency_key.as_str(),
        intent.idempotency_key.as_str(),
    )?;
    let status = parse_enum_column(entity, key.as_str(), "status", row.status)?;
    Ok(
        StoredTradeIntent {
            intent,
            status,
            payload,
            created_at: row.created_at,
            updated_at: row.updated_at,
        },
    )
}

/// The record of an intent that is stored for the first time.
pub fn new_trade_intent_record(new_intent: NewTradeIntent, payload: CanonicalJson) -> (r:
    StoredTradeIntent)
    ensures
        r == (StoredTradeIntent {
            intent: new_intent.intent,
            status: new_intent.initial_status,
            payload,
            created_at: new_intent.recorded_at,
            updated_at: new_intent.recorded_at,
        }),
{
    StoredTradeIntent {
        intent: new_intent.intent,
        status: new_intent.initial_status,
        payload,
        created_at: new_intent.recorded_at,
        updated_at: new_intent.recorded_at,
    }
}

/// The stored intent is the incoming one.
pub open spec fn same_intent_record(
    existing: StoredTradeIntent,
    incoming: TradeIntent,
    payload: Seq<char>,
) -> bool {
    &&& existing.intent.intent_id@ == incoming.intent_id@
    &&& existing.intent.idempotency_key@ == incoming.idempotency_key@
    &&& existing.payload@ == payload
}

/// Some stored intent has this name.
pub open spec fn intent_taken(existing: Seq<StoredTradeIntent>, intent_id: Seq<char>) -> bool {
    exists|i: int|
        0 <= i < existing.len() && (#[trigger] existing[i]).intent.intent_id@ == intent_id
}

/// Decides about an intent whose name or idempotency key is taken. `existing`
/// holds the stored intents that share either with it.
pub fn resolve_trade_intent_replay(
    existing: Vec<StoredTradeIntent>,
    incoming: &TradeIntent,
    payload: &CanonicalJson,
) -> (r: Result<WriteOutcome<StoredTradeIntent>, StoreError>)
    ensures
        error::fault(r) == (if existing@.len() == 1 && same_intent_record(
            existing@[0],
            *incoming,
            payload@,
        ) {
            None
        } else {
            Some(
                error::conflict_fault(
                    "trade_intent"@,
                    if intent_taken(existing@, incoming.intent_id@) {
                        intent_key(incoming.intent_id@)
                    } else {
                        "idempotency_key="@ + incoming.idempotency_key@
                    },
                ),
            )
        }),
        r matches Ok(outcome) ==> outcome == WriteOutcome::Duplicate(existing@[0]),
{
    let mut rows = existing;
    if rows.len() == 1 && same_text(
        rows[0].intent.intent_id.as_str(),
        incoming.intent_id.as_str(),
    ) && same_text(
        rows[0].intent.idempotency_key.as_str(),
        incoming.idempotency_key.as_str(),
    ) && rows[0].payload.same(payload) {
        let only = rows.remove(0);
        return Ok(WriteOutcome::Duplicate(only));
    }
    let mut i: usize = 0;
    while i < rows.len()
        invariant
            i <= rows.len(),
            rows == existing,
            !(existing@.len() == 1 && same_intent_record(existing@[0], *incoming, payload@)),
            forall|j: int|
                0 <= j < i ==> (#[trigger] existing@[j]).intent.intent_id@
                    != incoming.intent_id@,
        decreases rows.len() - i,
    {
        if same_text(rows[i].intent.intent_id.as_str(), incoming.intent_id.as_str()) {
            assert(intent_taken(existing@, incoming.intent_id@));
            let key = join2("intent_id=", incoming.intent_id.as_str());
            return Err(StoreError::conflict("trade_intent", key.as_str()));
        }
        i = i + 1;
    }
    let key = join2("idempotency_key=", incoming.idempotency_key.as_str());
    Err(StoreError::conflict("trade_intent", key.as_str()))
}

/// The intent proposes to close a leg.
pub open spec fn closes_a_leg(intent: TradeIntent) -> bool {
    match intent.proposed_legs {
        Some(legs) => exists|i: int|
            0 <= i < legs@.len() && (#[trigger] legs@[i]).action == TradeIntentLegAction::Close,
        None => false,
    }
}

fn is_closing_a_leg(intent: &TradeIntent) -> (r: bool)
    ensures
        r == closes_a_leg(*intent),
{
    match &intent.proposed_legs {
        Some(legs) => {
            let mut i: usize = 0;
            while i < legs.len()
                invariant
                    i <= legs.len(),
                    intent.proposed_legs == Some(*legs),
                    forall|j: int|
                        0 <= j < i ==> (#[trigger] legs@[j]).action != TradeIntentLegAction::Close,
                decreases legs.len() - i,
            {
                if legs[i].action == TradeIntentLegAction::Close {
                    return true;
                }
                i = i + 1;
            }
            false
        },
        None => false,
    }
}

/// The decision says something about sizes.
pub open spec fn sized(result: RiskResult) -> bool {
    ||| result.has_sizing_version
    ||| result.has_risk_base_amount
    ||| result.has_risk_budget_amount
    ||| result.has_adjusted_risk_pct
    ||| result.sizing_candidates is Some
    ||| result.adjusted_legs is Some
}

/// The decision holds sizes that can be traded.
pub open spec fn sized_to_trade(result: RiskResult) -> bool {
    &&& result.sizing_candidates matches Some(candidates) && candidates@.len() > 0
    &&& result.adjusted_legs matches Some(legs) && legs@.len() > 0
}

/// The side that a leg of an intent asks risk control for.
pub open spec fn leg_side(action: TradeIntentLegAction) -> Option<AdjustedRiskLegAction> {
    match action {
        TradeIntentLegAction::Buy => Some(AdjustedRiskLegAction::Buy),
        TradeIntentLegAction::Sell => Some(AdjustedRiskLegAction::Sell),
        TradeIntentLegAction::Close => None,
    }
}

/// The side that an intent asks risk control for.
pub open spec fn intent_side(action: TradeIntentAction) -> Option<AdjustedRiskLegAction> {
    match action {
        TradeIntentAction::Buy => Some(AdjustedRiskLegAction::Buy),
        TradeIntentAction::Sell => Some(AdjustedRiskLegAction::Sell),
        TradeIntentAction::Close | TradeIntentAction::Hold => None,
    }
}

/// A size comes from this leg: its symbol, its side, its ratio and its stop.
pub open spec fn candidate_of_leg(candidate: SizingCandidate, leg: ProposedLeg) -> bool {
    &&& candidate.symbol@ == leg.symbol@
    &&& Some(candidate.action) == leg_side(leg.action)
    &&& trading::same_finite(candidate.ratio, leg.ratio)
    &&& leg.proposed_sl matches Some(sl) && trading::same_finite(candidate.stop_loss_price, sl)
}

/// Why a leg of an intent has no proper size. `earlier` are the names of the
/// legs before it.
pub open spec fn leg_sizing_reason(
    earlier: Seq<Seq<char>>,
    leg: ProposedLeg,
    candidates: Seq<SizingCandidate>,
) -> Option<Seq<char>> {
    let id = leg.leg_id@;
    let at = text::first_index(plans::candidate_ids(candidates), id) as int;
    if earlier.contains(id) {
        Some("proposed multi-leg intent contains duplicate leg_id "@ + id)
    } else if at >= candidates.len() {
        Some("approved multi-leg sizing is missing proposed leg "@ + id)
    } else if leg_side(leg.action) is None {
        Some("intent containing a CLOSE leg cannot be approved"@)
    } else if leg.proposed_sl is None {
        Some(
            "approved proposed leg "@ + id + " must define proposed_sl for sizing provenance"@,
        )
    } else if !candidate_of_leg(candidates[at], leg) {
        Some(
            "sizing candidate "@ + id
                + " must match its proposed leg symbol, action, ratio and proposed_sl"@,
        )
    } else {
        None
    }
}

/// The first reason why a leg of an intent has no proper size.
pub open spec fn legs_sizing_reason(
    legs: Seq<ProposedLeg>,
    candidates: Seq<SizingCandidate>,
) -> Option<Seq<char>>
    decreases legs.len(),
{
    if legs.len() == 0 {
        None
    } else {
        match legs_sizing_reason(legs.drop_last(), candidates) {
            Some(reason) => Some(reason),
            None => leg_sizing_reason(
                plans::proposed_ids(legs.drop_last()),
                legs.last(),
                candidates,
            ),
        }
    }
}

proof fn legs_sizing_reason_of_prefix(
    legs: Seq<ProposedLeg>,
    candidates: Seq<SizingCandidate>,
    n: int,
)
    requires
        0 <= n <= legs.len(),
        legs_sizing_reason(legs.take(n), candidates) is Some,
    ensures
        legs_sizing_reason(legs, candidates) == legs_sizing_reason(legs.take(n), candidates),
    decreases legs.len(),
{
    if n < legs.len() {
        assert(legs.drop_last().take(n) =~= legs.take(n));
        legs_sizing_reason_of_prefix(legs.drop_last(), candidates, n);
    } else {
        assert(legs.take(n) =~= legs);
    }
}

/// The size of an intent without legs: one, of the derived leg, at ratio one.
pub open spec fn single_candidate(candidate: SizingCandidate, intent: TradeIntent) -> bool {
    &&& candidate.leg_id@ == intent.single_leg_id@
    &&& candidate.symbol@ == intent.symbol@
    &&& Some(candidate.action) == intent_side(intent.action)
    &&& trading::same_finite(candidate.ratio, ONE_BITS)
    &&& intent.proposed_sl matches Some(sl) && trading::same_finite(candidate.stop_loss_price, sl)
}

/// Why the sizes of an approval do not fit the intent.
pub open spec fn sizing_reason(result: RiskResult, intent: TradeIntent) -> Option<Seq<char>> {
    match result.sizing_candidates {
        None => Some("approved actionable intent is missing sizing candidates"@),
        Some(found) => {
            let candidates = found@;
            match intent.proposed_legs {
                None => if candidates.len() != 1 {
                    Some(
                        "approved single-leg intent must contain exactly one sizing candidate, found "@
                            + text::decimal(candidates.len()),
                    )
                } else if intent_side(intent.action) is None {
                    Some(intent.action.name() + " intent cannot have actionable sizing"@)
                } else if intent.proposed_sl is None {
                    Some(
                        "approved single-leg intent must define proposed_sl for sizing provenance"@,
                    )
                } else if !single_candidate(candidates[0], intent) {
                    Some(
                        "single-leg sizing candidate must match the derived leg id and intent symbol, action, ratio=1 and proposed_sl"@,
                    )
                } else {
                    None
                },
                Some(legs) => if closes_a_leg(intent) {
                    Some("intent containing a CLOSE leg cannot be approved"@)
                } else if candidates.len() != legs@.len() {
                    Some(
                        "approved multi-leg intent requires one sizing candidate per proposed leg; expected "@
                            + text::decimal(legs@.len()) + ", found "@ + text::decimal(
                            candidates.len(),
                        ),
                    )
                } else {
                    legs_sizing_reason(legs@, candidates)
                },
            }
        },
    }
}

fn side_of_leg(action: TradeIntentLegAction) -> (r: Option<AdjustedRiskLegAction>)
    ensures
        r == leg_side(action),
{
    match action {
        TradeIntentLegAction::Buy => Some(AdjustedRiskLegAction::Buy),
        TradeIntentLegAction::Sell => Some(AdjustedRiskLegAction::Sell),
        TradeIntentLegAction::Close => None,
    }
}

fn side_of_intent(action: TradeIntentAction) -> (r: Option<AdjustedRiskLegAction>)
    ensures
        r == intent_side(action),
{
    match action {
        TradeIntentAction::Buy => Some(AdjustedRiskLegAction::Buy),
        TradeIntentAction::Sell => Some(AdjustedRiskLegAction::Sell),
        TradeIntentAction::Close | TradeIntentAction::Hold => None,
    }
}

fn proposed_earlier(legs: &Vec<ProposedLeg>, n: usize, leg_id: &str) -> (r: bool)
    requires
        n <= legs.len(),
    ensures
        r == plans::proposed_ids(legs@.take(n as int)).contains(leg_id@),
{
    let ghost earlier = plans::proposed_ids(legs@.take(n as int));
    let mut i: usize = 0;
    while i < n
        invariant
            i <= n <= legs.len(),
            earlier == plans::proposed_ids(legs@.take(n as int)),
            forall|j: int| 0 <= j < i ==> earlier[j] != leg_id@,
        decreases n - i,
    {
        if same_text(legs[i].leg_id.as_str(), leg_id) {
            assert(earlier[i as int] == leg_id@);
            return true;
        }
        i = i + 1;
    }
    false
}

fn check_leg_sizing(legs: &Vec<ProposedLeg>, n: usize, candidates: &Vec<SizingCandidate>) -> (r:
    Result<(), String>)
    requires
        n < legs.len(),
    ensures
        plans::reason_of(r) == leg_sizing_reason(
            plans::proposed_ids(legs@.take(n as int)),
            legs@[n as int],
            candidates@,
        ),
{
    let leg = &legs[n];
    if proposed_earlier(legs, n, leg.leg_id.as_str()) {
        return Err(
            join2("proposed multi-leg intent contains duplicate leg_id ", leg.leg_id.as_str()),
        );
    }
    let at: usize = find_candidate(candidates, leg.leg_id.as_str());
    if at >= candidates.len() {
        return Err(
            join2("approved multi-leg sizing is missing proposed leg ", leg.leg_id.as_str()),
        );
    }
    let candidate = &candidates[at];
    proof {
        text::first_index_facts(plans::candidate_ids(candidates@), leg.leg_id@);
    }
    let side = match side_of_leg(leg.action) {
        Some(side) => side,
        None => {
            return Err("intent containing a CLOSE leg cannot be approved".to_owned());
        },
    };
    let stop: u64 = match leg.proposed_sl {
        Some(stop) => stop,
        None => {
            return Err(
                join3(
                    "approved proposed leg ",
                    leg.leg_id.as_str(),
                    " must define proposed_sl for sizing provenance",
                ),
            );
        },
    };
    if !same_text(candidate.symbol.as_str(), leg.symbol.as_str()) || candidate.action != side
        || !same_f64_bits(candidate.ratio, leg.ratio) || !same_f64_bits(
        candidate.stop_loss_price,
        stop,
    ) {
        return Err(
            join3(
                "sizing candidate ",
                candidate.leg_id.as_str(),
                " must match its proposed leg symbol, action, ratio and proposed_sl",
            ),
        );
    }
    Ok(())
}

/// Checks the sizes of an approval against the intent.
pub fn validate_approved_sizing_shape(result: &RiskResult, intent: &TradeIntent) -> (r: Result<
    (),
    String,
>)
    ensures
        plans::reason_of(r) == sizing_reason(*result, *intent),
{
    let candidates = match &result.sizing_candidates {
        Some(candidates) => candidates,
        None => {
            return Err("approved actionable intent is missing sizing candidates".to_owned());
        },
    };
    match &intent.proposed_legs {
        None => {
            if candidates.len() != 1 {
                return Err(
                    join2(
                        "approved single-leg intent must contain exactly one sizing candidate, found ",
                        decimal_text(candidates.len() as u64).as_str(),
                    ),
                );
            }
            let side = match side_of_intent(intent.action) {
                Some(side) => side,
                None => {
                    return Err(
                        join2(intent.action.as_str(), " intent cannot have actionable sizing"),
                    );
                },
            };
            let stop: u64 = match intent.proposed_sl {
                Some(stop) => stop,
                None => {
                    return Err(
                        "approved single-leg intent must define proposed_sl for sizing provenance".to_owned(),
                    );
                },
            };
            let candidate = &candidates[0];
            if !same_text(candidate.leg_id.as_str(), intent.single_leg_id.as_str()) || !same_text(
                candidate.symbol.as_str(),
                intent.symbol.as_str(),
            ) || candidate.action != side || !same_f64_bits(candidate.ratio, ONE_BITS)
                || !same_f64_bits(candidate.stop_loss_price, stop) {
                return Err(
                    "single-leg sizing candidate must match the derived leg id and intent symbol, action, ratio=1 and proposed_sl".to_owned(),
                );
            }
            Ok(())
        },
        Some(legs) => {
            if is_closing_a_leg(intent) {
                return Err("intent containing a CLOSE leg cannot be approved".to_owned());
            }
            if candidates.len() != legs.len() {
                return Err(
                    join4(
                        "approved multi-leg intent requires one sizing candidate per proposed leg; expected ",
                        decimal_text(legs.len() as u64).as_str(),
                        ", found ",
                        decimal_text(candidates.len() as u64).as_str(),
                    ),
                );
            }
            let mut i: usize = 0;
            while i < legs.len()
                invariant
                    i <= legs.len(),
                    intent.proposed_legs == Some(*legs),
                    result.sizing_candidates == Some(*candidates),
                    !closes_a_leg(*intent),
                    candidates.len() == legs.len(),
                    legs_sizing_reason(legs@.take(i as int), candidates@) is None,
                decreases legs.len() - i,
            {
                let ghost longer = legs@.take(i + 1);
                assert(longer.drop_last() =~= legs@.take(i as int));
                let checked = check_leg_sizing(legs, i, candidates);
                if let Err(reason) = checked {
                    proof {
                        legs_sizing_reason_of_prefix(legs@, candidates@, i + 1);
                    }
                    return Err(reason);
                }
                i = i + 1;
            }
            assert(legs@.take(i as int) =~= legs@);
            Ok(())
        },
    }
}

/// Whether risk control may approve this intent at all.
pub open spec fn trades(action: TradeIntentAction) -> bool {
    action == TradeIntentAction::Buy || action == TradeIntentAction::Sell
}

/// Why the times of an approval do not fit the intent.
pub open spec fn approval_time_reason(result: RiskResult, intent: TradeIntent) -> Option<
    Seq<char>,
> {
    if result.evaluated_at < intent.requested_at {
        Some(
            "approved result evaluated_at "@ + text::signed_decimal(result.evaluated_at as int)
                + " precedes intent requested_at "@ + text::signed_decimal(
                intent.requested_at as int,
            ),
        )
    } else if result.evaluated_at >= intent.signal_expires_at {
        Some(
            "approved result evaluated_at "@ + text::signed_decimal(result.evaluated_at as int)
                + " must precede intent signal_expires_at "@ + text::signed_decimal(
                intent.signal_expires_at as int,
            ),
        )
    } else if result.valid_until > intent.signal_expires_at {
        Some(
            "approved result valid_until "@ + text::signed_decimal(result.valid_until as int)
                + " exceeds intent signal_expires_at "@ + text::signed_decimal(
                intent.signal_expires_at as int,
            ),
        )
    } else {
        None
    }
}

/// Why a risk decision does not fit the intent.
pub open spec fn contract_reason(result: RiskResult, intent: TradeIntent) -> Option<Seq<char>> {
    if result.approved && closes_a_leg(intent) {
        Some("intent containing a CLOSE leg cannot be approved"@)
    } else if trades(intent.action) && result.approved && !sized_to_trade(result) {
        Some(
            "approved "@ + intent.action.name() + " intent must contain actionable sizing"@,
        )
    } else if intent.action == TradeIntentAction::Hold && sized(result) {
        Some("HOLD intent must not contain sizing"@)
    } else if intent.action == TradeIntentAction::Close && result.approved {
        Some("CLOSE intent cannot be approved in the first implementation"@)
    } else if intent.action == TradeIntentAction::Close && sized(result) {
        Some("CLOSE intent must not contain sizing"@)
    } else if !result.approved {
        None
    } else if trades(intent.action) && sizing_reason(result, intent) is Some {
        sizing_reason(result, intent)
    } else {
        approval_time_reason(result, intent)
    }
}

fn check_approval_time(result: &RiskResult, intent: &TradeIntent) -> (r: Result<(), String>)
    ensures
        plans::reason_of(r) == approval_time_reason(*result, *intent),
{
    if result.evaluated_at < intent.requested_at {
        return Err(
            join4(
                "approved result evaluated_at ",
                signed_decimal_text(result.evaluated_at).as_str(),
                " precedes intent requested_at ",
                signed_decimal_text(intent.requested_at).as_str(),
            ),
        );
    }
    if result.evaluated_at >= intent.signal_expires_at {
        return Err(
            join4(
                "approved result evaluated_at ",
                signed_decimal_text(result.evaluated_at).as_str(),
                " must precede intent signal_expires_at ",
                signed_decimal_text(intent.signal_expires_at).as_str(),
            ),
        );
    }
    if result.valid_until > intent.signal_expires_at {
        return Err(
            join4(
                "approved result valid_until ",
                signed_decimal_text(result.valid_until).as_str(),
                " exceeds intent signal_expires_at ",
                signed_decimal_text(intent.signal_expires_at).as_str(),
            ),
        );
    }
    Ok(())
}

/// Checks a risk decision against the intent.
pub fn validate_risk_result_intent_contract(result: &RiskResult, intent: &TradeIntent) -> (r:
    Result<(), String>)
    ensures
        plans::reason_of(r) == contract_reason(*result, *intent),
{
    let has_sizing = result.has_sizing_version || result.has_risk_base_amount
        || result.has_risk_budget_amount || result.has_adjusted_risk_pct
        || result.sizing_candidates.is_some() || result.adjusted_legs.is_some();
    let has_candidates = match &result.sizing_candidates {
        Some(candidates) => candidates.len() > 0,
        None => false,
    };
    let has_legs = match &result.adjusted_legs {
        Some(legs) => legs.len() > 0,
        None => false,
    };
    if result.approved && is_closing_a_leg(intent) {
        return Err("intent containing a CLOSE leg cannot be approved".to_owned());
    }
    match intent.action {
        TradeIntentAction::Buy | TradeIntentAction::Sell => {
            if result.approved && !(has_candidates && has_legs) {
                return Err(
                    join3(
                        "approved ",
                        intent.action.as_str(),
                        " intent must contain actionable sizing",
                    ),
                );
            }
            if result.approved {
                validate_approved_sizing_shape(result, intent)?;
            }
        },
        TradeIntentAction::Hold => {
            if has_sizing {
                return Err("HOLD intent must not contain sizing".to_owned());
            }
        },
        TradeIntentAction::Close => {
            if result.approved {
                return Err(
                    "CLOSE intent cannot be approved in the first implementation".to_owned(),
                );
            }
            if has_sizing {
                return Err("CLOSE intent must not contain sizing".to_owned());
            }
        },
    }
    if result.approved {
        check_approval_time(result, intent)
    } else {
        Ok(())
    }
}

/// What is wrong with a risk decision about a stored intent.
pub open spec fn risk_identity_fault(
    result: RiskResult,
    parent: Option<StoredTradeIntent>,
) -> Option<Fault> {
    match parent {
        None => Some(error::missing_fault("trade_intent"@, intent_key(result.intent_id@))),
        Some(parent) => if parent.intent.account_id@ != result.account_id@
            || parent.intent.decision_id@ != result.decision_id@ {
            Some(
                error::conflict_fault(
                    "risk_result"@,
                    "risk_id="@ + result.risk_id@ + ", intent_id="@ + result.intent_id@,
                ),
            )
        } else {
            match contract_reason(result, parent.intent) {
                Some(reason) => Some(
                    error::invalid_fault("risk_result"@, risk_key(result.risk_id@), reason),
                ),
                None => None,
            }
        },
    }
}

/// Checks a new risk decision against the stored intent that it names.
pub fn validate_risk_result_intent_identity(
    new_result: &NewRiskResult,
    parent: &Option<StoredTradeIntent>,
) -> (r: Result<(), StoreError>)
    ensures
        error::fault(r) == risk_identity_fault(new_result.result, *parent),
{
    let result = &new_result.result;
    let parent = match parent {
        Some(parent) => parent,
        None => {
            let key = join2("intent_id=", result.intent_id.as_str());
            return Err(StoreError::missing("trade_intent", key.as_str()));
        },
    };
    if !same_text(parent.intent.account_id.as_str(), result.account_id.as_str()) || !same_text(
        parent.intent.decision_id.as_str(),
        result.decision_id.as_str(),
    ) {
        let key = join4(
            "risk_id=",
            result.risk_id.as_str(),
            ", intent_id=",
            result.intent_id.as_str(),
        );
        return Err(StoreError::conflict("risk_result", key.as_str()));
    }
    match validate_risk_result_intent_contract(result, &parent.intent) {
        Ok(()) => Ok(()),
        Err(reason) => {
            let key = join2("risk_id=", result.risk_id.as_str());
            Err(StoreError::invalid("risk_result", key.as_str(), reason.as_str()))
        },
    }
}

/// What is wrong with a risk decision that is to be stored, before its intent
/// is looked up. `verdict` is what the domain objects to in it.
pub open spec fn new_risk_fault(result: RiskResult, verdict: Option<String>) -> Option<Fault> {
    match verdict {
        Some(objection) => Some(
            error::invalid_fault("risk_result"@, risk_key(result.risk_id@), objection@),
        ),
        None => None,
    }
}

/// Refuses a risk decision to which the domain objects.
pub fn validate_new_risk_result(new_result: &NewRiskResult, verdict: &Option<String>) -> (r: Result<
    (),
    StoreError,
>)
    ensures
        error::fault(r) == new_risk_fault(new_result.result, *verdict),
{
    match verdict {
        Some(objection) => {
            let key = join2("risk_id=", new_result.result.risk_id.as_str());
            Err(StoreError::invalid("risk_result", key.as_str(), objection.as_str()))
        },
        None => Ok(()),
    }
}

/// Decides about a risk decision whose name is taken.
pub fn resolve_risk_result_replay(
    existing: StoredRiskResult,
    incoming: &NewRiskResult,
    payload: &CanonicalJson,
) -> (r: Result<WriteOutcome<StoredRiskResult>, StoreError>)
    ensures
        error::fault(r) == (if existing.payload@ == payload@ {
            None
        } else {
            Some(error::conflict_fault("risk_result"@, risk_key(incoming.result.risk_id@)))
        }),
        r matches Ok(outcome) ==> outcome == WriteOutcome::Duplicate(existing),
{
    if existing.payload.same(payload) {
        Ok(WriteOutcome::Duplicate(existing))
    } else {
        let key = join2("risk_id=", incoming.result.risk_id.as_str());
        Err(StoreError::conflict("risk_result", key.as_str()))
    }
}

/// A row of the risk decisions beside the row of the intent that it is about,
/// with what the domain reads from its payload and what it objects to in it.
pub struct RiskResultRow {
    pub risk_id: RiskId,
    pub intent_id: IntentId,
    pub account_id: String,
    pub approved: i64,
    pub reason: String,
    pub snapshot_age_ms: i64,
    pub symbol_metadata_age_ms: i64,
    pub evaluated_at: i64,
    pub valid_until: i64,
    pub payload: JsonColumns,
    pub result: Result<RiskResult, String>,
    pub verdict: Option<String>,
    pub parent: Option<TradeIntentRow>,
}

/// What is wrong with the columns of a risk decision.
pub open spec fn risk_columns_fault(row: RiskResultRow) -> Option<Fault> {
    let e = "risk_result"@;
    let key = row.risk_id@;
    let result = row.result->Ok_0;
    let approved: int = if result.approved {
        1
    } else {
        0
    };
    let f = columns::column_fault(e, key, "risk_id"@, key == result.risk_id@);
    let f = error::first_of(
        f,
        columns::column_fault(e, key, "intent_id"@, row.intent_id@ == result.intent_id@),
    );
    let f = error::first_of(
        f,
        columns::column_fault(e, key, "account_id"@, row.account_id@ == result.account_id@),
    );
    let f = error::first_of(
        f,
        columns::column_fault(e, key, "approved"@, row.approved == approved),
    );
    let f = error::first_of(
        f,
        columns::column_fault(e, key, "reason"@, row.reason@ == result.reason@),
    );
    let f = error::first_of(
        f,
        columns::column_fault(
            e,
            key,
            "snapshot_age_ms"@,
            row.snapshot_age_ms == result.snapshot_age_ms,
        ),
    );
    let f = error::first_of(
        f,
        columns::column_fault(
            e,
            key,
            "symbol_metadata_age_ms"@,
            row.symbol_metadata_age_ms == result.symbol_metadata_age_ms,
        ),
    );
    let f = error::first_of(
        f,
        columns::column_fault(e, key, "evaluated_at"@, row.evaluated_at == result.evaluated_at),
    );
    error::first_of(
        f,
        columns::column_fault(e, key, "valid_until"@, row.valid_until == result.valid_until),
    )
}

/// What is wrong with the intent beside a risk decision.
pub open spec fn risk_parent_fault(row: RiskResultRow) -> Option<Fault> {
    let e = "risk_result"@;
    let key = row.risk_id@;
    let result = row.result->Ok_0;
    match row.parent {
        None => Some(error::corrupt_fault(e, key, "parent trade_intent is missing"@)),
        Some(parent) => {
            let intent = parent.intent->Ok_0;
            let f = intent_row_fault(parent);
            let f = error::first_of(
                f,
                columns::column_fault(
                    e,
                    key,
                    "parent intent_id"@,
                    intent.intent_id@ == result.intent_id@,
                ),
            );
            let f = error::first_of(
                f,
                columns::column_fault(
                    e,
                    key,
                    "parent intent account_id"@,
                    intent.account_id@ == result.account_id@,
                ),
            );
            let f = error::first_of(
                f,
                columns::column_fault(
                    e,
                    key,
                    "parent intent decision_id"@,
                    intent.decision_id@ == result.decision_id@,
                ),
            );
            error::first_of(
                f,
                match contract_reason(result, intent) {
                    Some(reason) => Some(
                        error::corrupt_fault(
                            e,
                            key,
                            "parent trade_intent contract mismatch: "@ + reason,
                        ),
                    ),
                    None => None,
                },
            )
        },
    }
}

/// What is wrong with a row of the risk decisions.
pub open spec fn risk_row_fault(row: RiskResultRow) -> Option<Fault> {
    let e = "risk_result"@;
    let key = row.risk_id@;
    let f = json::stored_fault(e, key, row.payload.text@, row.payload.digest@);
    let f = error::first_of(f, columns::decode_fault(e, key, row.result));
    let f = error::first_of(f, plans::semantic_fault(e, key, row.verdict));
    let f = error::first_of(f, risk_columns_fault(row));
    error::first_of(f, risk_parent_fault(row))
}

/// The risk decision holds what the row holds.
pub open spec fn risk_of_row(row: RiskResultRow, stored: StoredRiskResult) -> bool {
    &&& stored == StoredRiskResult { result: row.result->Ok_0, payload: stored.payload }
    &&& stored.payload@ == row.payload.text@
    &&& stored.result.risk_id@ == row.risk_id@
}

/// Reads the intent beside a risk decision.
pub fn trade_intent_from_risk_result_row(parent: Option<TradeIntentRow>, risk_key: &str) -> (r:
    Result<StoredTradeIntent, StoreError>)
    ensures
        error::fault(r) == match parent {
            None => Some(
                error::corrupt_fault("risk_result"@, risk_key@, "parent trade_intent is missing"@),
            ),
            Some(parent) => intent_row_fault(parent),
        },
        r matches Ok(stored) ==> parent is Some && intent_of_row(parent->0, stored),
{
    match parent {
        Some(parent) => trade_intent_from_row(parent),
        None => Err(
            StoreError::corrupt("risk_result", risk_key, "parent trade_intent is missing"),
        ),
    }
}

fn check_risk_columns(
    risk_id: &RiskId,
    intent_id: &IntentId,
    account_id: &str,
    approved: i64,
    reason: &str,
    ages: (i64, i64),
    times: (i64, i64),
    result: &RiskResult,
    Ghost(row): Ghost<RiskResultRow>,
) -> (r: Result<(), StoreError>)
    requires
        row.risk_id@ == risk_id@,
        row.intent_id@ == intent_id@,
        row.account_id@ == account_id@,
        row.approved == approved,
        row.reason@ == reason@,
        row.snapshot_age_ms == ages.0,
        row.symbol_metadata_age_ms == ages.1,
        row.evaluated_at == times.0,
        row.valid_until == times.1,
        row.result == Ok::<RiskResult, String>(*result),
    ensures
        error::fault(r) == risk_columns_fault(row),
{
    let entity = "risk_result";
    let key = risk_id.as_str();
    validate_column(entity, key, "risk_id", key, result.risk_id.as_str())?;
    validate_column(entity, key, "intent_id", intent_id.as_str(), result.intent_id.as_str())?;
    validate_column(entity, key, "account_id", account_id, result.account_id.as_str())?;
    validate_i64_column(
        entity,
        key,
        "approved",
        approved,
        if result.approved {
            1
        } else {
            0
        },
    )?;
    validate_column(entity, key, "reason", reason, result.reason.as_str())?;
    validate_i64_column(entity, key, "snapshot_age_ms", ages.0, result.snapshot_age_ms)?;
    validate_i64_column(
        entity,
        key,
        "symbol_metadata_age_ms",
        ages.1,
        result.symbol_metadata_age_ms,
    )?;
    validate_i64_column(entity, key, "evaluated_at", times.0, result.evaluated_at)?;
    validate_i64_column(entity, key, "valid_until", times.1, result.valid_until)
}

/// Reads a risk decision and holds it against the intent beside it.
pub fn risk_result_from_row(row: RiskResultRow) -> (r: Result<StoredRiskResult, StoreError>)
    ensures
        error::fault(r) == risk_row_fault(row),
        r matches Ok(stored) ==> risk_of_row(row, stored),
{
    let entity = "risk_result";
    let ghost whole = row;
    let key = row.risk_id;
    let payload = CanonicalJson::from_stored(
        entity,
        key.as_str(),
        row.payload.text,
        row.payload.digest,
    )?;
    let result = deserialize_payload(entity, key.as_str(), row.result)?;
    require_no_objection(entity, key.as_str(), &row.verdict)?;
    check_risk_columns(
        &key,
        &row.intent_id,
        row.account_id.as_str(),
        row.approved,
        row.reason.as_str(),
        (row.snapshot_age_ms, row.symbol_metadata_age_ms),
        (row.evaluated_at, row.valid_until),
        &result,
        Ghost(whole),
    )?;
    let parent = trade_intent_from_risk_result_row(row.parent, key.as_str())?;
    validate_column(
        entity,
        key.as_str(),
        "parent intent_id",
        parent.intent.intent_id.as_str(),
        result.intent_id.as_str(),
    )?;
    validate_column(
        entity,
        key.as_str(),
        "parent intent account_id",
        parent.intent.account_id.as_str(),
        result.account_id.as_str(),
    )?;
    validate_column(
        entity,
        key.as_str(),
        "parent intent decision_id",
        parent.intent.decision_id.as_str(),
        result.decision_id.as_str(),
    )?;
    if let Err(reason) = validate_risk_result_intent_contract(&result, &parent.intent) {
        let reason = join2("parent trade_intent contract mismatch: ", reason.as_str());
        return Err(StoreError::corrupt(entity, key.as_str(), reason.as_str()));
    }
    Ok(StoredRiskResult { result, payload })
}

proof fn sized_legs(legs: Seq<ProposedLeg>, candidates: Seq<SizingCandidate>)
    requires
        legs_sizing_reason(legs, candidates) is None,
    ensures
        plans::proposed_ids(legs).no_duplicates(),
        forall|i: int|
            0 <= i < legs.len() ==> {
                let at = text::first_index(
                    plans::candidate_ids(candidates),
                    (#[trigger] legs[i]).leg_id@,
                ) as int;
                at < candidates.len() && candidate_of_leg(candidates[at], legs[i])
            },
    decreases legs.len(),
{
    if legs.len() > 0 {
        sized_legs(legs.drop_last(), candidates);
        let fewer = plans::proposed_ids(legs.drop_last());
        let ids = plans::proposed_ids(legs);
        assert forall|i: int, j: int| 0 <= i < ids.len() && 0 <= j < ids.len() && i
            != j implies ids[i] != ids[j] by {
            if i < legs.len() - 1 {
                assert(fewer[i] == ids[i]);
            }
            if j < legs.len() - 1 {
                assert(fewer[j] == ids[j]);
            }
        }
        assert forall|i: int| 0 <= i < legs.len() implies {
            let at = text::first_index(
                plans::candidate_ids(candidates),
                (#[trigger] legs[i]).leg_id@,
            ) as int;
            at < candidates.len() && candidate_of_leg(candidates[at], legs[i])
        } by {
            if i < legs.len() - 1 {
                assert(legs.drop_last()[i] == legs[i]);
            }
        }
    }
}

/// Every leg of an approved intent with legs is sized, with its own symbol,
/// side, ratio and stop, and nothing else is: each size belongs to a leg.
pub proof fn approved_legs_are_sized_exactly(result: RiskResult, intent: TradeIntent)
    requires
        result.approved,
        trades(intent.action),
        contract_reason(result, intent) is None,
        intent.proposed_legs is Some,
    ensures
        result.sizing_candidates is Some,
        ({
            let legs = intent.proposed_legs->0@;
            let candidates = result.sizing_candidates->0@;
            &&& plans::proposed_ids(legs).no_duplicates()
            &&& candidates.len() == legs.len()
            &&& forall|i: int|
                0 <= i < legs.len() ==> {
                    let at = text::first_index(
                        plans::candidate_ids(candidates),
                        (#[trigger] legs[i]).leg_id@,
                    ) as int;
                    at < candidates.len() && candidate_of_leg(candidates[at], legs[i])
                }
            &&& forall|i: int|
                0 <= i < candidates.len() ==> plans::proposed_ids(legs).contains(
                    (#[trigger] candidates[i]).leg_id@,
                )
        }),
{
    let legs = intent.proposed_legs->0@;
    let candidates = result.sizing_candidates->0@;
    sized_legs(legs, candidates);
    let wanted = plans::proposed_ids(legs);
    let found = plans::candidate_ids(candidates);
    assert forall|id: Seq<char>| #[trigger] wanted.to_set().contains(id) implies found.to_set().contains(
        id,
    ) by {
        let i = choose|i: int| 0 <= i < wanted.len() && wanted[i] == id;
        assert(legs[i].leg_id@ == id);
        text::first_index_facts(found, id);
    }
    wanted.unique_seq_to_set();
    vstd::seq_lib::seq_to_set_is_finite(found);
    vstd::seq_lib::seq_to_set_is_finite(wanted);
    found.lemma_cardinality_of_set();
    vstd::set_lib::lemma_len_subset(wanted.to_set(), found.to_set());
    vstd::set_lib::lemma_subset_equality(wanted.to_set(), found.to_set());
    assert forall|i: int| 0 <= i < candidates.len() implies wanted.contains(
        (#[trigger] candidates[i]).leg_id@,
    ) by {
        assert(found[i] == candidates[i].leg_id@);
        assert(found.to_set().contains(found[i]));
        assert(wanted.to_set().contains(found[i]));
    }
}

/// An approval is given while the signal is alive and does not outlive it.
pub proof fn approval_stays_within_the_signal(result: RiskResult, intent: TradeIntent)
    requires
        result.approved,
        contract_reason(result, intent) is None,
    ensures
        intent.requested_at <= result.evaluated_at < intent.signal_expires_at,
        result.valid_until <= intent.signal_expires_at,
        intent.action != TradeIntentAction::Close,
        !closes_a_leg(intent),
{
}

/// An intent that was read is the one its columns speak of.
pub proof fn read_intents_agree_with_their_columns(row: TradeIntentRow)
    ensures
        intent_row_fault(row) is None <==> {
            let intent = row.intent->Ok_0;
            &&& json::stored_fault(
                "trade_intent"@,
                row.intent_id@,
                row.payload.text@,
                row.payload.digest@,
            ) is None
            &&& row.intent is Ok
            &&& row.intent_id@ == intent.intent_id@
            &&& row.decision_id@ == intent.decision_id@
            &&& row.strategy_id@ == intent.strategy_id@
            &&& row.account_id@ == intent.account_id@
            &&& row.symbol@ == intent.symbol@
            &&& row.action@ == intent.action.name()
            &&& row.requested_at == intent.requested_at
            &&& row.signal_expires_at == intent.signal_expires_at
            &&& row.idempotency_key@ == intent.idempotency_key@
            &&& row.status.parsed is Ok
        },
{
}

/// A decision that was read is the one its columns speak of, about an intent that
/// is stored, of the same account and decision, and it is one that the intent
/// allows.
pub proof fn read_decisions_agree_with_their_columns(row: RiskResultRow)
    ensures
        risk_row_fault(row) is None <==> {
            let result = row.result->Ok_0;
            let intent = (row.parent->0).intent->Ok_0;
            &&& json::stored_fault(
                "risk_result"@,
                row.risk_id@,
                row.payload.text@,
                row.payload.digest@,
            ) is None
            &&& row.result is Ok
            &&& row.verdict is None
            &&& row.risk_id@ == result.risk_id@
            &&& row.intent_id@ == result.intent_id@
            &&& row.account_id@ == result.account_id@
            &&& result.approved ==> row.approved == 1
            &&& !result.approved ==> row.approved == 0
            &&& row.reason@ == result.reason@
            &&& row.snapshot_age_ms == result.snapshot_age_ms
            &&& row.symbol_metadata_age_ms == result.symbol_metadata_age_ms
            &&& row.evaluated_at == result.evaluated_at
            &&& row.valid_until == result.valid_until
            &&& row.parent is Some
            &&& intent_row_fault(row.parent->0) is None
            &&& intent.intent_id@ == result.intent_id@
            &&& intent.account_id@ == result.account_id@
            &&& intent.decision_id@ == result.decision_id@
            &&& contract_reason(result, intent) is None
        },
{
}

/// A decision belongs to an intent that is stored, of the same account and
/// decision.
pub proof fn decisions_belong_to_their_intent(
    result: RiskResult,
    parent: Option<StoredTradeIntent>,
)
    ensures
        risk_identity_fault(result, parent) is None <==> parent is Some && (
        parent->0).intent.account_id@ == result.account_id@ && (parent->0).intent.decision_id@
            == result.decision_id@ && contract_reason(result, (parent->0).intent) is None,
{
}

/// What closes a position, or holds, is never sized; and a closing intent, or one
/// with a closing leg, is never approved.
pub proof fn closing_is_not_approved(result: RiskResult, intent: TradeIntent)
    requires
        contract_reason(result, intent) is None,
    ensures
        result.approved ==> !(intent.action is Close),
        result.approved && intent.proposed_legs is Some ==> forall|i: int|
            0 <= i < intent.proposed_legs->0@.len() ==> !((
            #[trigger] intent.proposed_legs->0@[i]).action is Close),
        intent.action is Hold || intent.action is Close ==> {
            &&& !result.has_sizing_version && !result.has_risk_base_amount
            &&& !result.has_risk_budget_amount && !result.has_adjusted_risk_pct
            &&& result.sizing_candidates is None && result.adjusted_legs is None
        },
{
}

/// An approved purchase or sale is sized: it names candidates and the legs to be
/// traded. One without legs of its own has one candidate, which is the whole of
/// it, in its symbol and direction and with the stop it proposes.
pub proof fn approved_trades_are_sized(result: RiskResult, intent: TradeIntent)
    requires
        contract_reason(result, intent) is None,
        result.approved,
        intent.action is Buy || intent.action is Sell,
    ensures
        result.sizing_candidates is Some && (result.sizing_candidates->0)@.len() > 0,
        result.adjusted_legs is Some && (result.adjusted_legs->0)@.len() > 0,
        intent.proposed_legs is None ==> ({
            let candidates = (result.sizing_candidates->0)@;
            let candidate = candidates[0];
            &&& candidates.len() == 1
            &&& candidate.leg_id@ == intent.single_leg_id@
            &&& candidate.symbol@ == intent.symbol@
            &&& intent.action is Buy ==> candidate.action is Buy
            &&& intent.action is Sell ==> candidate.action is Sell
            &&& candidate.ratio == ONE_BITS
            &&& intent.proposed_sl is Some && candidate.stop_loss_price == intent.proposed_sl->0
                && trading::finite(candidate.stop_loss_price)
        }),
        intent.proposed_legs is Some ==> ({
            let legs = (intent.proposed_legs->0)@;
            let candidates = (result.sizing_candidates->0)@;
            &&& candidates.len() == legs.len()
            &&& forall|i: int|
                0 <= i < legs.len() ==> {
                    let leg = #[trigger] legs[i];
                    let at = text::first_index(plans::candidate_ids(candidates), leg.leg_id@) as int;
                    &&& 0 <= at < candidates.len()
                    &&& candidates[at].symbol@ == leg.symbol@
                    &&& leg.action is Buy ==> candidates[at].action is Buy
                    &&& leg.action is Sell ==> candidates[at].action is Sell
                    &&& !(leg.action is Close)
                    &&& candidates[at].ratio == leg.ratio && trading::finite(leg.ratio)
                    &&& leg.proposed_sl is Some && candidates[at].stop_loss_price
                        == leg.proposed_sl->0 && trading::finite(leg.proposed_sl->0)
                }
        }),
{
    if intent.proposed_legs is Some {
        approved_legs_are_sized_exactly(result, intent);
    }
}

/// A refusal is always in order, unless it sizes what is not traded.
pub proof fn refusals_are_in_order(result: RiskResult, intent: TradeIntent)
    requires
        !result.approved,
        intent.action is Buy || intent.action is Sell,
    ensures
        contract_reason(result, intent) is None,
{
}

/// An approved decision that is in order is made while the signal lasts, and does
/// not outlast it; one that is not is refused.
pub proof fn late_approvals_are_refused(result: RiskResult, intent: TradeIntent)
    requires
        result.approved,
    ensures
        result.evaluated_at < intent.requested_at ==> contract_reason(result, intent) is Some,
        result.evaluated_at >= intent.signal_expires_at ==> contract_reason(result, intent) is Some,
        result.valid_until > intent.signal_expires_at ==> contract_reason(result, intent) is Some,
        intent.action is Hold && intent.proposed_legs is None && result.evaluated_at
            >= intent.requested_at && result.evaluated_at < intent.signal_expires_at
            && result.valid_until <= intent.signal_expires_at && !result.has_sizing_version
            && !result.has_risk_base_amount && !result.has_risk_budget_amount
            && !result.has_adjusted_risk_pct && result.sizing_candidates is None
            && result.adjusted_legs is None ==> contract_reason(result, intent) is None,
{
}

/// An intent comes twice if its name, its idempotency key and its payload are the
/// same, and in no other case.
pub proof fn repeated_intents_say_the_same(
    existing: StoredTradeIntent,
    incoming: TradeIntent,
    payload: Seq<char>,
)
    ensures
        same_intent_record(existing, incoming, payload) <==> existing.intent.intent_id@
            == incoming.intent_id@ && existing.intent.idempotency_key@ == incoming.idempotency_key@
            && existing.payload@ == payload,
{
}

/// A decision that the domain objects to is refused with its objection.
pub proof fn objections_are_heard(
    result: RiskResult,
    verdict: Option<String>,
    existing: Seq<StoredTradeIntent>,
    intent_id: Seq<char>,
)
    ensures
        new_risk_fault(result, verdict) is None <==> verdict is None,
        verdict is Some ==> new_risk_fault(result, verdict) == Some(
            Fault::InvalidRecord {
                entity: "risk_result"@,
                key: "risk_id="@ + result.risk_id@,
                reason: (verdict->0)@,
            },
        ),
        intent_taken(existing, intent_id) <==> exists|i: int|
            0 <= i < existing.len() && (#[trigger] existing[i]).intent.intent_id@ == intent_id,
{
}

}
