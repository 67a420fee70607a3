//! Plans: whether a plan follows from its intent and its risk decision, and how
//! the states of plans and legs change.

use vstd::prelude::*;
use vstd::string::*;

use crate::columns;
use crate::columns::{
    deserialize_payload, parse_enum_column, validate_column, EnumColumn, JsonColumns,
};
use crate::domain::{IntentId, LegId, PlanId, RiskId};
use crate::error;
use crate::error::{Fault, StoreError};
use crate::json;
use crate::json::CanonicalJson;
use crate::model::WriteOutcome;
use crate::text;
use crate::text::{join2, join3, same_list, same_text};
use crate::trading;
use crate::trading::{
    same_f64_bits, same_optional_f64_bits, AdjustedRiskLeg, ExecutionLeg, ExecutionLegDefinition,
    ExecutionLegState, ExecutionPlan, ExecutionPlanDefinition, ExecutionPlanState, FloatBits,
    LegStateUpdate, NewExecutionPlan, PlanStateUpdate, ProposedLeg, SizingCandidate,
    StoredExecutionLeg, StoredExecutionPlan, StoredRiskResult, StoredTradeIntent, TradeIntent,
    TradeIntentAction,
};

verus! {

/// The names of the legs of a plan.
pub open spec fn leg_ids(legs: Seq<ExecutionLeg>) -> Seq<Seq<char>> {
    Seq::new(legs.len(), |i: int| legs[i].definition.leg_id@)
}

/// The names of the legs that a risk decision sized.
pub open spec fn adjusted_ids(legs: Seq<AdjustedRiskLeg>) -> Seq<Seq<char>> {
    Seq::new(legs.len(), |i: int| legs[i].leg_id@)
}

/// The names of the legs for which a size has a source.
pub open spec fn candidate_ids(candidates: Seq<SizingCandidate>) -> Seq<Seq<char>> {
    Seq::new(candidates.len(), |i: int| candidates[i].leg_id@)
}

/// The names of the legs that an intent proposes.
pub open spec fn proposed_ids(legs: Seq<ProposedLeg>) -> Seq<Seq<char>> {
    Seq::new(legs.len(), |i: int| legs[i].leg_id@)
}

/// The place of a leg among the legs of a plan.
pub fn find_leg(legs: &Vec<ExecutionLeg>, leg_id: &str) -> (r: usize)
    ensures
        r == text::first_index(leg_ids(legs@), leg_id@),
        r <= legs@.len(),
        r < legs@.len() ==> legs@[r as int].definition.leg_id@ == leg_id@,
{
    let mut i: usize = 0;
    while i < legs.len() && !same_text(legs[i].definition.leg_id.as_str(), leg_id)
        invariant
            i <= legs.len(),
            forall|j: int| 0 <= j < i ==> leg_ids(legs@)[j] != leg_id@,
        decreases legs.len() - i,
    {
        i = i + 1;
    }
    proof {
        text::first_index_is(leg_ids(legs@), leg_id@, i as int);
    }
    i
}

fn find_adjusted(legs: &Vec<AdjustedRiskLeg>, leg_id: &str) -> (r: usize)
    ensures
        r == text::first_index(adjusted_ids(legs@), leg_id@),
        r <= legs@.len(),
{
    let mut i: usize = 0;
    while i < legs.len() && !same_text(legs[i].leg_id.as_str(), leg_id)
        invariant
            i <= legs.len(),
            forall|j: int| 0 <= j < i ==> adjusted_ids(legs@)[j] != leg_id@,
        decreases legs.len() - i,
    {
        i = i + 1;
    }
    proof {
        text::first_index_is(adjusted_ids(legs@), leg_id@, i as int);
    }
    i
}

/// The place of a leg among the sources of sizes.
pub fn find_candidate(candidates: &Vec<SizingCandidate>, leg_id: &str) -> (r: usize)
    ensures
        r == text::first_index(candidate_ids(candidates@), leg_id@),
        r <= candidates@.len(),
{
    let mut i: usize = 0;
    while i < candidates.len() && !same_text(candidates[i].leg_id.as_str(), leg_id)
        invariant
            i <= candidates.len(),
            forall|j: int| 0 <= j < i ==> candidate_ids(candidates@)[j] != leg_id@,
        decreases candidates.len() - i,
    {
        i = i + 1;
    }
    proof {
        text::first_index_is(candidate_ids(candidates@), leg_id@, i as int);
    }
    i
}

fn find_proposed(legs: &Vec<ProposedLeg>, leg_id: &str) -> (r: usize)
    ensures
        r == text::first_index(proposed_ids(legs@), leg_id@),
        r <= legs@.len(),
{
    let mut i: usize = 0;
    while i < legs.len() && !same_text(legs[i].leg_id.as_str(), leg_id)
        invariant
            i <= legs.len(),
            forall|j: int| 0 <= j < i ==> proposed_ids(legs@)[j] != leg_id@,
        decreases legs.len() - i,
    {
        i = i + 1;
    }
    proof {
        text::first_index_is(proposed_ids(legs@), leg_id@, i as int);
    }
    i
}

/// The answer of a check that gives its reason when it fails, over
/// mathematical texts.
pub open spec fn reason_of(result: Result<(), String>) -> Option<Seq<char>> {
    match result {
        Ok(_) => None,
        Err(reason) => Some(reason@),
    }
}

/// The take-profit that an intent asks for a leg, or why it asks none.
pub open spec fn intended_tp(intent: TradeIntent, leg_id: Seq<char>) -> Result<
    Option<FloatBits>,
    Seq<char>,
> {
    match intent.proposed_legs {
        Some(legs) => {
            let at = text::first_index(proposed_ids(legs@), leg_id) as int;
            if at < legs@.len() {
                Ok(legs@[at].proposed_tp)
            } else {
                Err("intent has no proposed leg "@ + leg_id)
            }
        },
        None => if leg_id == intent.single_leg_id@ {
            Ok(intent.proposed_tp)
        } else {
            Err("single-leg intent does not own leg "@ + leg_id)
        },
    }
}

/// The take-profit that an intent asks for a leg.
pub fn expected_intent_leg_tp(intent: &TradeIntent, leg_id: &LegId) -> (r: Result<
    Option<FloatBits>,
    String,
>)
    ensures
        match r {
            Ok(tp) => intended_tp(*intent, leg_id@) == Ok::<Option<FloatBits>, Seq<char>>(tp),
            Err(reason) => intended_tp(*intent, leg_id@) == Err::<Option<FloatBits>, Seq<char>>(
                reason@,
            ),
        },
{
    match &intent.proposed_legs {
        Some(legs) => {
            let at: usize = find_proposed(legs, leg_id.as_str());
            if at < legs.len() {
                Ok(legs[at].proposed_tp)
            } else {
                Err(join2("intent has no proposed leg ", leg_id.as_str()))
            }
        },
        None => if same_text(leg_id.as_str(), intent.single_leg_id.as_str()) {
            Ok(intent.proposed_tp)
        } else {
            Err(join2("single-leg intent does not own leg ", leg_id.as_str()))
        },
    }
}

/// A leg is the one that risk control approved: symbol, direction, size, stop
/// and ratio, bit for bit.
pub open spec fn leg_approved(
    leg: ExecutionLegDefinition,
    approved: AdjustedRiskLeg,
    candidate: SizingCandidate,
) -> bool {
    &&& leg.symbol@ == approved.symbol@
    &&& leg.symbol@ == candidate.symbol@
    &&& leg.action@ == approved.action.execution_action()
    &&& leg.lots matches Some(lots) && trading::same_finite(lots, approved.lots)
    &&& leg.sl matches Some(sl) && trading::same_finite(sl, approved.approved_sl)
    &&& trading::same_finite(leg.ratio, candidate.ratio)
}

/// Why a leg does not follow from the risk decision and the intent.
pub open spec fn leg_reason(
    leg: ExecutionLegDefinition,
    adjusted: Seq<AdjustedRiskLeg>,
    candidates: Seq<SizingCandidate>,
    intent: TradeIntent,
) -> Option<Seq<char>> {
    let id = leg.leg_id@;
    let approved_at = text::first_index(adjusted_ids(adjusted), id) as int;
    let candidate_at = text::first_index(candidate_ids(candidates), id) as int;
    if approved_at >= adjusted.len() {
        Some("plan leg "@ + id + " has no risk approval"@)
    } else if candidate_at >= candidates.len() {
        Some("plan leg "@ + id + " has no sizing provenance"@)
    } else if !leg_approved(leg, adjusted[approved_at], candidates[candidate_at]) {
        Some("plan leg "@ + id + " drifts from its exact risk approval"@)
    } else {
        match intended_tp(intent, id) {
            Err(reason) => Some(reason),
            Ok(tp) => if trading::same_optional_finite(leg.tp, tp) {
                None
            } else {
                Some("plan leg "@ + id + " take-profit drifts from its intent"@)
            },
        }
    }
}

/// The first reason why a leg does not follow from the risk decision and the
/// intent.
pub open spec fn legs_reason(
    legs: Seq<ExecutionLeg>,
    adjusted: Seq<AdjustedRiskLeg>,
    candidates: Seq<SizingCandidate>,
    intent: TradeIntent,
) -> Option<Seq<char>>
    decreases legs.len(),
{
    if legs.len() == 0 {
        None
    } else {
        match legs_reason(legs.drop_last(), adjusted, candidates, intent) {
            Some(reason) => Some(reason),
            None => leg_reason(legs.last().definition, adjusted, candidates, intent),
        }
    }
}

proof fn legs_reason_of_prefix(
    legs: Seq<ExecutionLeg>,
    adjusted: Seq<AdjustedRiskLeg>,
    candidates: Seq<SizingCandidate>,
    intent: TradeIntent,
    n: int,
)
    requires
        0 <= n <= legs.len(),
        legs_reason(legs.take(n), adjusted, candidates, intent) is Some,
    ensures
        legs_reason(legs, adjusted, candidates, intent) == legs_reason(
            legs.take(n),
            adjusted,
            candidates,
            intent,
        ),
    decreases legs.len(),
{
    if n < legs.len() {
        assert(legs.drop_last().take(n) =~= legs.take(n));
        legs_reason_of_prefix(legs.drop_last(), adjusted, candidates, intent, n);
    } else {
        assert(legs.take(n) =~= legs);
    }
}

/// The status in which an intent may be carried out.
pub const INTENT_ACCEPTED: &'static str = "ACCEPTED";

/// Why a plan does not follow from its intent and its risk decision.
pub open spec fn plan_graph_reason(
    plan: ExecutionPlan,
    risk_id: Seq<char>,
    intent_id: Seq<char>,
    created_at: i64,
    risk: StoredRiskResult,
    intent: StoredTradeIntent,
) -> Option<Seq<char>> {
    if risk.result.risk_id@ != risk_id || risk.result.intent_id@ != intent_id
        || intent.intent.intent_id@ != intent_id || risk.result.account_id@
        != plan.definition.account_id@ || intent.intent.account_id@ != plan.definition.account_id@
        || intent.intent.strategy_id@ != plan.definition.strategy_id@ || risk.result.decision_id@
        != intent.intent.decision_id@ {
        Some("plan identity differs from its intent or risk approval"@)
    } else if intent.status@ != INTENT_ACCEPTED@ {
        Some("parent intent status "@ + intent.status@ + " is not executable"@)
    } else if !risk.result.approved {
        Some("execution plan cannot reference a rejected risk result"@)
    } else if created_at < risk.result.evaluated_at || created_at >= risk.result.valid_until
        || created_at >= intent.intent.signal_expires_at {
        Some("plan was not created within the approved execution window"@)
    } else if !(intent.intent.action is Buy) && !(intent.intent.action is Sell) {
        Some("only actionable BUY/SELL intents may create a plan"@)
    } else if risk.result.adjusted_legs is None {
        Some("approved risk result has no adjusted legs"@)
    } else if risk.result.sizing_candidates is None {
        Some("approved risk result has no sizing candidates"@)
    } else if risk.result.adjusted_legs->0@.len() != plan.legs@.len()
        || risk.result.sizing_candidates->0@.len() != plan.legs@.len() {
        Some("plan legs do not correspond one-to-one with risk legs"@)
    } else {
        legs_reason(
            plan.legs@,
            risk.result.adjusted_legs->0@,
            risk.result.sizing_candidates->0@,
            intent.intent,
        )
    }
}

fn validate_plan_leg(
    leg: &ExecutionLegDefinition,
    adjusted: &Vec<AdjustedRiskLeg>,
    candidates: &Vec<SizingCandidate>,
    intent: &TradeIntent,
) -> (r: Result<(), String>)
    ensures
        reason_of(r) == leg_reason(*leg, adjusted@, candidates@, *intent),
{
    let approved_at: usize = find_adjusted(adjusted, leg.leg_id.as_str());
    if approved_at >= adjusted.len() {
        return Err(join3("plan leg ", leg.leg_id.as_str(), " has no risk approval"));
    }
    let candidate_at: usize = find_candidate(candidates, leg.leg_id.as_str());
    if candidate_at >= candidates.len() {
        return Err(join3("plan leg ", leg.leg_id.as_str(), " has no sizing provenance"));
    }
    let approved = &adjusted[approved_at];
    let candidate = &candidates[candidate_at];
    let lots_match = match leg.lots {
        Some(lots) => same_f64_bits(lots, approved.lots),
        None => false,
    };
    let stop_matches = match leg.sl {
        Some(sl) => same_f64_bits(sl, approved.approved_sl),
        None => false,
    };
    if !same_text(leg.symbol.as_str(), approved.symbol.as_str()) || !same_text(
        leg.symbol.as_str(),
        candidate.symbol.as_str(),
    ) || !same_text(leg.action.as_str(), approved.action.as_execution_action()) || !lots_match
        || !stop_matches || !same_f64_bits(leg.ratio, candidate.ratio) {
        return Err(
            join3("plan leg ", leg.leg_id.as_str(), " drifts from its exact risk approval"),
        );
    }
    let expected_tp = match expected_intent_leg_tp(intent, &leg.leg_id) {
        Ok(tp) => tp,
        Err(reason) => {
            return Err(reason);
        },
    };
    if !same_optional_f64_bits(leg.tp, expected_tp) {
        return Err(
            join3("plan leg ", leg.leg_id.as_str(), " take-profit drifts from its intent"),
        );
    }
    Ok(())
}

/// Checks that a plan follows from its intent and its risk decision.
pub fn validate_execution_plan_graph(
    plan: &ExecutionPlan,
    risk_id: &RiskId,
    intent_id: &IntentId,
    created_at: i64,
    risk: &StoredRiskResult,
    intent: &StoredTradeIntent,
) -> (r: Result<(), String>)
    ensures
        reason_of(r) == plan_graph_reason(
            *plan,
            risk_id@,
            intent_id@,
            created_at,
            *risk,
            *intent,
        ),
{
    if !same_text(risk.result.risk_id.as_str(), risk_id.as_str()) || !same_text(
        risk.result.intent_id.as_str(),
        intent_id.as_str(),
    ) || !same_text(intent.intent.intent_id.as_str(), intent_id.as_str()) || !same_text(
        risk.result.account_id.as_str(),
        plan.definition.account_id.as_str(),
    ) || !same_text(intent.intent.account_id.as_str(), plan.definition.account_id.as_str())
        || !same_text(intent.intent.strategy_id.as_str(), plan.definition.strategy_id.as_str())
        || !same_text(risk.result.decision_id.as_str(), intent.intent.decision_id.as_str()) {
        return Err("plan identity differs from its intent or risk approval".to_owned());
    }
    if !same_text(intent.status.as_str(), INTENT_ACCEPTED) {
        return Err(join3("parent intent status ", intent.status.as_str(), " is not executable"));
    }
    if !risk.result.approved {
        return Err("execution plan cannot reference a rejected risk result".to_owned());
    }
    if created_at < risk.result.evaluated_at || created_at >= risk.result.valid_until || created_at
        >= intent.intent.signal_expires_at {
        return Err("plan was not created within the approved execution window".to_owned());
    }
    match intent.intent.action {
        TradeIntentAction::Buy | TradeIntentAction::Sell => {},
        _ => {
            return Err("only actionable BUY/SELL intents may create a plan".to_owned());
        },
    }
    let adjusted = match &risk.result.adjusted_legs {
        Some(adjusted) => adjusted,
        None => {
            return Err("approved risk result has no adjusted legs".to_owned());
        },
    };
    let candidates = match &risk.result.sizing_candidates {
        Some(candidates) => candidates,
        None => {
            return Err("approved risk result has no sizing candidates".to_owned());
        },
    };
    if adjusted.len() != plan.legs.len() || candidates.len() != plan.legs.len() {
        return Err("plan legs do not correspond one-to-one with risk legs".to_owned());
    }
    let mut i: usize = 0;
    while i < plan.legs.len()
        invariant
            i <= plan.legs.len(),
            legs_reason(plan.legs@.take(i as int), adjusted@, candidates@, intent.intent) is None,
            legs_reason(plan.legs@, adjusted@, candidates@, intent.intent) == plan_graph_reason(
                *plan,
                risk_id@,
                intent_id@,
                created_at,
                *risk,
                *intent,
            ),
        decreases plan.legs.len() - i,
    {
        let ghost longer = plan.legs@.take(i + 1);
        assert(longer.drop_last() =~= plan.legs@.take(i as int));
        match validate_plan_leg(&plan.legs[i].definition, adjusted, candidates, &intent.intent) {
            Ok(_) => {},
            Err(reason) => {
                proof {
                    legs_reason_of_prefix(
                        plan.legs@,
                        adjusted@,
                        candidates@,
                        intent.intent,
                        i + 1,
                    );
                }
                return Err(reason);
            },
        }
        i = i + 1;
    }
    assert(plan.legs@.take(i as int) =~= plan.legs@);
    Ok(())
}

/// The text under which a plan is named in a fault.
pub open spec fn plan_key(plan_id: Seq<char>) -> Seq<char> {
    "plan_id="@ + plan_id
}

/// The text under which a leg is named in a fault.
pub open spec fn leg_key(leg_id: Seq<char>) -> Seq<char> {
    "leg_id="@ + leg_id
}

/// The status in which plans and legs begin.
pub const STATUS_PENDING: &'static str = "PENDING";

pub const LEG_FILLED: &'static str = "FILLED";

pub const LEG_REJECTED: &'static str = "REJECTED";

pub const LEG_FAILED: &'static str = "FAILED";

/// Every leg is at its beginning.
pub open spec fn all_legs_pending(legs: Seq<ExecutionLeg>) -> bool {
    forall|i: int| 0 <= i < legs.len() ==> (#[trigger] legs[i]).state.status@ == STATUS_PENDING@
}

/// The plan and its legs are at their beginning.
pub open spec fn pristine(plan: ExecutionPlan) -> bool {
    &&& plan.state.status@ == STATUS_PENDING@
    &&& plan.state.filled_legs@.len() == 0
    &&& plan.state.failed_legs@.len() == 0
    &&& all_legs_pending(plan.legs@)
}

fn is_pristine(plan: &ExecutionPlan) -> (r: bool)
    ensures
        r == pristine(*plan),
{
    if !same_text(plan.state.status.as_str(), STATUS_PENDING) || plan.state.filled_legs.len() != 0
        || plan.state.failed_legs.len() != 0 {
        return false;
    }
    let mut i: usize = 0;
    while i < plan.legs.len()
        invariant
            i <= plan.legs.len(),
            forall|j: int|
                0 <= j < i ==> (#[trigger] plan.legs@[j]).state.status@ == STATUS_PENDING@,
        decreases plan.legs.len() - i,
    {
        if !same_text(plan.legs[i].state.status.as_str(), STATUS_PENDING) {
            assert(plan.legs@[i as int].state.status@ != STATUS_PENDING@);
            return false;
        }
        i = i + 1;
    }
    true
}

/// What is wrong with a plan that is to be stored. `verdict` is what the domain
/// objects to; `risk` and `intent` are the records that the plan names.
pub open spec fn new_plan_fault(
    new_plan: NewExecutionPlan,
    verdict: Option<String>,
    risk: Option<StoredRiskResult>,
    intent: Option<StoredTradeIntent>,
) -> Option<Fault> {
    let key = plan_key(new_plan.plan.definition.plan_id@);
    if verdict is Some {
        Some(error::invalid_fault("execution_plan"@, key, verdict->0@))
    } else if new_plan.recorded_at < 0 {
        Some(
            error::invalid_fault("execution_plan"@, key, "recorded_at must be non-negative"@),
        )
    } else if !pristine(new_plan.plan) {
        Some(
            error::invalid_fault(
                "execution_plan"@,
                key,
                "new plan and every leg must be in the initial PENDING state"@,
            ),
        )
    } else if risk is None {
        Some(error::missing_fault("risk_result"@, "risk_id="@ + new_plan.risk_id@))
    } else if intent is None {
        Some(error::missing_fault("trade_intent"@, "intent_id="@ + new_plan.intent_id@))
    } else {
        match plan_graph_reason(
            new_plan.plan,
            new_plan.risk_id@,
            new_plan.intent_id@,
            new_plan.recorded_at,
            risk->0,
            intent->0,
        ) {
            Some(reason) => Some(error::invalid_fault("execution_plan"@, key, reason)),
            None => None,
        }
    }
}

/// Refuses a plan that may not be stored.
pub fn validate_new_execution_plan(
    new_plan: &NewExecutionPlan,
    verdict: &Option<String>,
    risk: &Option<StoredRiskResult>,
    intent: &Option<StoredTradeIntent>,
) -> (r: Result<(), StoreError>)
    ensures
        error::fault(r) == new_plan_fault(*new_plan, *verdict, *risk, *intent),
{
    let key = join2("plan_id=", new_plan.plan.definition.plan_id.as_str());
    if let Some(objection) = verdict {
        return Err(StoreError::invalid("execution_plan", key.as_str(), objection.as_str()));
    }
    if new_plan.recorded_at < 0 {
        return Err(
            StoreError::invalid(
                "execution_plan",
                key.as_str(),
                "recorded_at must be non-negative",
            ),
        );
    }
    if !is_pristine(&new_plan.plan) {
        return Err(
            StoreError::invalid(
                "execution_plan",
                key.as_str(),
                "new plan and every leg must be in the initial PENDING state",
            ),
        );
    }
    let risk = match risk {
        Some(risk) => risk,
        None => {
            let key = join2("risk_id=", new_plan.risk_id.as_str());
            return Err(StoreError::missing("risk_result", key.as_str()));
        },
    };
    let intent = match intent {
        Some(intent) => intent,
        None => {
            let key = join2("intent_id=", new_plan.intent_id.as_str());
            return Err(StoreError::missing("trade_intent", key.as_str()));
        },
    };
    match validate_execution_plan_graph(
        &new_plan.plan,
        &new_plan.risk_id,
        &new_plan.intent_id,
        new_plan.recorded_at,
        risk,
        intent,
    ) {
        Ok(_) => Ok(()),
        Err(reason) => Err(StoreError::invalid("execution_plan", key.as_str(), reason.as_str())),
    }
}

/// The stored plan is the one that is to be stored: it comes from the same
/// records, holds the same journal and was recorded at the same time.
pub open spec fn same_plan_record(
    existing: StoredExecutionPlan,
    incoming: NewExecutionPlan,
    payload: Seq<char>,
) -> bool {
    &&& existing.risk_id@ == incoming.risk_id@
    &&& existing.intent_id@ == incoming.intent_id@
    &&& existing.payload@ == payload
    &&& existing.created_at == incoming.recorded_at
}

/// Decides about a plan whose name is taken.
pub fn resolve_execution_plan_replay(
    existing: StoredExecutionPlan,
    incoming: &NewExecutionPlan,
    payload: &CanonicalJson,
) -> (r: Result<WriteOutcome<StoredExecutionPlan>, StoreError>)
    ensures
        error::fault(r) == (if same_plan_record(existing, *incoming, payload@) {
            None
        } else {
            Some(
                error::conflict_fault(
                    "execution_plan"@,
                    plan_key(incoming.plan.definition.plan_id@),
                ),
            )
        }),
        r matches Ok(outcome) ==> outcome == WriteOutcome::Duplicate(existing),
{
    if same_text(existing.risk_id.as_str(), incoming.risk_id.as_str()) && same_text(
        existing.intent_id.as_str(),
        incoming.intent_id.as_str(),
    ) && existing.payload.same(payload) && existing.created_at == incoming.recorded_at {
        Ok(WriteOutcome::Duplicate(existing))
    } else {
        let key = join2("plan_id=", incoming.plan.definition.plan_id.as_str());
        Err(StoreError::conflict("execution_plan", key.as_str()))
    }
}

/// A row of the legs, with what the domain reads from its payload and what it
/// objects to in the leg.
pub struct LegRow {
    pub leg_id: LegId,
    pub plan_id: PlanId,
    pub symbol: String,
    pub action: String,
    pub status: EnumColumn<String>,
    pub payload: JsonColumns,
    pub updated_at: i64,
    pub definition: Result<ExecutionLegDefinition, String>,
    pub verdict: Option<String>,
}

/// The leg that a row holds.
pub open spec fn row_leg(row: LegRow) -> ExecutionLeg {
    ExecutionLeg {
        definition: row.definition->Ok_0,
        state: ExecutionLegState { status: row.status.parsed->Ok_0 },
    }
}

/// What the domain objects to, as a fault.
pub open spec fn semantic_fault(
    entity: Seq<char>,
    key: Seq<char>,
    verdict: Option<String>,
) -> Option<Fault> {
    match verdict {
        Some(objection) => Some(
            error::corrupt_fault(
                entity,
                key,
                "payload failed semantic validation: "@ + objection@,
            ),
        ),
        None => None,
    }
}

/// Refuses what the domain objects to.
pub fn require_no_objection(entity: &'static str, key: &str, verdict: &Option<String>) -> (r: Result<
    (),
    StoreError,
>)
    ensures
        error::fault(r) == semantic_fault(entity@, key@, *verdict),
{
    match verdict {
        Some(objection) => {
            let reason = join2("payload failed semantic validation: ", objection.as_str());
            Err(StoreError::corrupt(entity, key, reason.as_str()))
        },
        None => Ok(()),
    }
}

/// What is wrong with a row of the legs.
pub open spec fn leg_row_fault(row: LegRow) -> Option<Fault> {
    let entity = "execution_leg"@;
    let key = row.leg_id@;
    let definition = row.definition->Ok_0;
    error::first_of(
        json::stored_fault(entity, key, row.payload.text@, row.payload.digest@),
        error::first_of(
            columns::decode_fault(entity, key, row.definition),
            error::first_of(
                columns::column_fault(entity, key, "leg_id"@, key == definition.leg_id@),
                error::first_of(
                    columns::column_fault(
                        entity,
                        key,
                        "symbol"@,
                        row.symbol@ == definition.symbol@,
                    ),
                    error::first_of(
                        columns::column_fault(
                            entity,
                            key,
                            "action"@,
                            row.action@ == definition.action@,
                        ),
                        error::first_of(
                            if row.updated_at < 0 {
                                Some(
                                    error::corrupt_fault(
                                        entity,
                                        key,
                                        "updated_at must be non-negative"@,
                                    ),
                                )
                            } else {
                                None
                            },
                            error::first_of(
                                columns::enum_fault(entity, key, "status"@, row.status),
                                semantic_fault(entity, key, row.verdict),
                            ),
                        ),
                    ),
                ),
            ),
        ),
    )
}

/// The leg holds what the row holds.
pub open spec fn leg_of_row(row: LegRow, stored: StoredExecutionLeg) -> bool {
    &&& stored == StoredExecutionLeg {
        plan_id: row.plan_id,
        leg: row_leg(row),
        payload: stored.payload,
        updated_at: row.updated_at,
    }
    &&& stored.payload@ == row.payload.text@
    &&& stored.leg.definition.leg_id@ == row.leg_id@
}

/// Reads a leg.
pub fn execution_leg_from_row(row: LegRow) -> (r: Result<StoredExecutionLeg, StoreError>)
    ensures
        error::fault(r) == leg_row_fault(row),
        r matches Ok(stored) ==> leg_of_row(row, stored),
{
    let key = row.leg_id;
    let payload = CanonicalJson::from_stored(
        "execution_leg",
        key.as_str(),
        row.payload.text,
        row.payload.digest,
    )?;
    let definition = deserialize_payload("execution_leg", key.as_str(), row.definition)?;
    validate_column(
        "execution_leg",
        key.as_str(),
        "leg_id",
        key.as_str(),
        definition.leg_id.as_str(),
    )?;
    validate_column(
        "execution_leg",
        key.as_str(),
        "symbol",
        row.symbol.as_str(),
        definition.symbol.as_str(),
    )?;
    validate_column(
        "execution_leg",
        key.as_str(),
        "action",
        row.action.as_str(),
        definition.action.as_str(),
    )?;
    if row.updated_at < 0 {
        return Err(
            StoreError::corrupt("execution_leg", key.as_str(), "updated_at must be non-negative"),
        );
    }
    let status = parse_enum_column("execution_leg", key.as_str(), "status", row.status)?;
    require_no_objection("execution_leg", key.as_str(), &row.verdict)?;
    Ok(
        StoredExecutionLeg {
            plan_id: row.plan_id,
            leg: ExecutionLeg { definition, state: ExecutionLegState { status } },
            payload,
            updated_at: row.updated_at,
        },
    )
}

/// A leg as the journal of a plan keeps it, with its canonical form or why it
/// has none.
pub struct JournalLeg {
    pub definition: ExecutionLegDefinition,
    pub payload: Result<CanonicalJson, String>,
}

/// The immutable journal of a plan.
pub struct ExecutionPlanJournal {
    pub risk_id: RiskId,
    pub intent_id: IntentId,
    pub definition: ExecutionPlanDefinition,
    pub legs: Vec<JournalLeg>,
}

/// A row of the plans.
pub struct PlanRow {
    pub plan_id: PlanId,
    pub risk_id: RiskId,
    pub intent_id: IntentId,
    pub account_id: String,
    pub strategy_id: String,
    pub status: EnumColumn<String>,
    pub mode: String,
    pub failure_policy: String,
    pub payload: JsonColumns,
    pub created_at: i64,
    pub updated_at: i64,
}

/// The names of the legs that rows hold.
pub open spec fn row_leg_ids(rows: Seq<LegRow>) -> Seq<Seq<char>> {
    Seq::new(rows.len(), |i: int| rows[i].leg_id@)
}

/// The names of the legs in a journal.
pub open spec fn journal_leg_ids(legs: Seq<JournalLeg>) -> Seq<Seq<char>> {
    Seq::new(legs.len(), |i: int| legs[i].definition.leg_id@)
}

/// What is wrong with the legs of a plan.
pub open spec fn leg_rows_fault(
    key: Seq<char>,
    created_at: i64,
    rows: Seq<LegRow>,
) -> Option<Fault>
    decreases rows.len(),
{
    if rows.len() == 0 {
        None
    } else {
        let last = rows.last();
        error::first_of(
            leg_rows_fault(key, created_at, rows.drop_last()),
            error::first_of(
                leg_row_fault(last),
                if last.updated_at < created_at {
                    Some(
                        error::corrupt_fault(
                            "execution_leg"@,
                            last.leg_id@,
                            "updated_at precedes parent plan created_at"@,
                        ),
                    )
                } else if row_leg_ids(rows.drop_last()).contains(last.leg_id@) {
                    Some(
                        error::corrupt_fault(
                            "execution_plan"@,
                            key,
                            "contains duplicate leg rows"@,
                        ),
                    )
                } else {
                    None
                },
            ),
        )
    }
}

proof fn leg_rows_fault_of_prefix(key: Seq<char>, created_at: i64, rows: Seq<LegRow>, n: int)
    requires
        0 <= n <= rows.len(),
        leg_rows_fault(key, created_at, rows.take(n)) is Some,
    ensures
        leg_rows_fault(key, created_at, rows) == leg_rows_fault(key, created_at, rows.take(n)),
    decreases rows.len(),
{
    if n < rows.len() {
        assert(rows.drop_last().take(n) =~= rows.take(n));
        leg_rows_fault_of_prefix(key, created_at, rows.drop_last(), n);
    } else {
        assert(rows.take(n) =~= rows);
    }
}

/// What is wrong with the `n` first legs of a journal: each has a row of its
/// own, which holds what the journal holds.
pub open spec fn journal_legs_fault(
    key: Seq<char>,
    rows: Seq<LegRow>,
    legs: Seq<JournalLeg>,
    n: nat,
) -> Option<Fault>
    decreases n,
{
    if n == 0 {
        None
    } else {
        let i = n - 1;
        let id = legs[i].definition.leg_id@;
        let at = text::first_index(row_leg_ids(rows), id) as int;
        error::first_of(
            journal_legs_fault(key, rows, legs, (n - 1) as nat),
            if at >= rows.len() || journal_leg_ids(legs).take(i).contains(id) {
                Some(error::corrupt_fault("execution_plan"@, key, "missing journal leg "@ + id))
            } else {
                match legs[i].payload {
                    Err(error) => Some(
                        error::corrupt_fault(
                            "execution_plan"@,
                            key,
                            "journal leg cannot canonicalize: "@ + error@,
                        ),
                    ),
                    Ok(payload) => if rows[at].payload.text@ != payload@ {
                        Some(
                            error::corrupt_fault(
                                "execution_plan"@,
                                key,
                                "leg "@ + id + " differs from the immutable journal"@,
                            ),
                        )
                    } else {
                        None
                    },
                }
            },
        )
    }
}

proof fn journal_legs_fault_of_prefix(
    key: Seq<char>,
    rows: Seq<LegRow>,
    legs: Seq<JournalLeg>,
    n: nat,
    m: nat,
)
    requires
        n <= m <= legs.len(),
        journal_legs_fault(key, rows, legs, n) is Some,
    ensures
        journal_legs_fault(key, rows, legs, m) == journal_legs_fault(key, rows, legs, n),
    decreases m,
{
    if n < m {
        journal_legs_fault_of_prefix(key, rows, legs, n, (m - 1) as nat);
    }
}

/// What is wrong with the columns of a plan.
pub open spec fn plan_columns_fault(row: PlanRow, journal: ExecutionPlanJournal) -> Option<Fault> {
    let entity = "execution_plan"@;
    let key = row.plan_id@;
    error::first_of(
        columns::column_fault(entity, key, "risk_id"@, row.risk_id@ == journal.risk_id@),
        error::first_of(
            columns::column_fault(entity, key, "intent_id"@, row.intent_id@ == journal.intent_id@),
            error::first_of(
                columns::column_fault(
                    entity,
                    key,
                    "plan_id"@,
                    key == journal.definition.plan_id@,
                ),
                error::first_of(
                    columns::column_fault(
                        entity,
                        key,
                        "account_id"@,
                        row.account_id@ == journal.definition.account_id@,
                    ),
                    error::first_of(
                        columns::column_fault(
                            entity,
                            key,
                            "strategy_id"@,
                            row.strategy_id@ == journal.definition.strategy_id@,
                        ),
                        error::first_of(
                            columns::column_fault(
                                entity,
                                key,
                                "mode"@,
                                row.mode@ == journal.definition.mode@,
                            ),
                            columns::column_fault(
                                entity,
                                key,
                                "failure_policy"@,
                                row.failure_policy@ == journal.definition.failure_policy@,
                            ),
                        ),
                    ),
                ),
            ),
        ),
    )
}

/// What is wrong with a plan as it is read, before the domain and the records
/// that it names are asked.
pub open spec fn plan_row_fault(
    row: PlanRow,
    journal: Result<ExecutionPlanJournal, String>,
    rows: Seq<LegRow>,
) -> Option<Fault> {
    let entity = "execution_plan"@;
    let key = row.plan_id@;
    let written = journal->Ok_0;
    error::first_of(
        json::stored_fault(entity, key, row.payload.text@, row.payload.digest@),
        error::first_of(
            columns::decode_fault(entity, key, journal),
            error::first_of(
                plan_columns_fault(row, written),
                error::first_of(
                    if row.created_at < 0 || row.updated_at < row.created_at {
                        Some(
                            error::corrupt_fault(
                                entity,
                                key,
                                "created_at/updated_at lifecycle is invalid"@,
                            ),
                        )
                    } else {
                        None
                    },
                    error::first_of(
                        columns::enum_fault(entity, key, "status"@, row.status),
                        error::first_of(
                            leg_rows_fault(key, row.created_at, rows),
                            if rows.len() != written.legs@.len() {
                                Some(
                                    error::corrupt_fault(
                                        entity,
                                        key,
                                        "leg rows do not match the immutable plan journal"@,
                                    ),
                                )
                            } else {
                                journal_legs_fault(
                                    key,
                                    rows,
                                    written.legs@,
                                    written.legs@.len(),
                                )
                            },
                        ),
                    ),
                ),
            ),
        ),
    )
}

/// The names of the legs that are filled, in the order of the plan.
pub open spec fn filled_ids(legs: Seq<ExecutionLeg>) -> Seq<Seq<char>>
    decreases legs.len(),
{
    if legs.len() == 0 {
        Seq::empty()
    } else if legs.last().state.status@ == LEG_FILLED@ {
        filled_ids(legs.drop_last()).push(legs.last().definition.leg_id@)
    } else {
        filled_ids(legs.drop_last())
    }
}

/// The names of the legs that were rejected or failed, in the order of the plan.
pub open spec fn failed_ids(legs: Seq<ExecutionLeg>) -> Seq<Seq<char>>
    decreases legs.len(),
{
    if legs.len() == 0 {
        Seq::empty()
    } else if legs.last().state.status@ == LEG_REJECTED@ || legs.last().state.status@
        == LEG_FAILED@ {
        failed_ids(legs.drop_last()).push(legs.last().definition.leg_id@)
    } else {
        failed_ids(legs.drop_last())
    }
}

/// The plan holds what its rows and its journal hold: the legs in the order of
/// the journal, each in the state of its row, and the lists of filled and
/// failed legs that follow from them.
pub open spec fn plan_of_rows(
    row: PlanRow,
    journal: ExecutionPlanJournal,
    rows: Seq<LegRow>,
    stored: StoredExecutionPlan,
) -> bool {
    &&& stored.plan.definition == journal.definition
    &&& stored.risk_id == journal.risk_id
    &&& stored.intent_id == journal.intent_id
    &&& stored.payload@ == row.payload.text@
    &&& stored.created_at == row.created_at
    &&& stored.updated_at == row.updated_at
    &&& stored.plan.state.status == row.status.parsed->Ok_0
    &&& stored.plan.legs@.len() == journal.legs@.len()
    &&& forall|i: int|
        0 <= i < journal.legs@.len() ==> (#[trigger] stored.plan.legs@[i]) == row_leg(
            rows[text::first_index(
                row_leg_ids(rows),
                journal.legs@[i].definition.leg_id@,
            ) as int],
        )
    &&& text::texts(stored.plan.state.filled_legs@) == filled_ids(stored.plan.legs@)
    &&& text::texts(stored.plan.state.failed_legs@) == failed_ids(stored.plan.legs@)
}

fn read_leg_rows(key: &str, created_at: i64, rows: Vec<LegRow>) -> (r: Result<
    Vec<StoredExecutionLeg>,
    StoreError,
>)
    ensures
        error::fault(r) == leg_rows_fault(key@, created_at, rows@),
        r matches Ok(stored) ==> {
            &&& stored@.len() == rows@.len()
            &&& forall|i: int|
                0 <= i < rows@.len() ==> leg_of_row(rows@[i], #[trigger] stored@[i])
        },
{
    let ghost before = rows@;
    let mut out: Vec<StoredExecutionLeg> = Vec::new();
    for row in it: rows
        invariant
            it.seq() == before,
            before == rows@,
            leg_rows_fault(key@, created_at, before.take(it.index())) is None,
            out@.len() == it.index(),
            forall|i: int|
                0 <= i < it.index() ==> leg_of_row(before[i], #[trigger] out@[i]),
    {
        let ghost longer = before.take(it.index() + 1);
        assert(row == before[it.index()]);
        assert(longer.drop_last() =~= before.take(it.index()));
        assert(longer.last() == row);
        let ghost given = row;
        match execution_leg_from_row(row) {
            Ok(stored) => {
                if stored.updated_at < created_at {
                    proof {
                        leg_rows_fault_of_prefix(key@, created_at, before, it.index() + 1);
                    }
                    return Err(
                        StoreError::corrupt(
                            "execution_leg",
                            stored.leg.definition.leg_id.as_str(),
                            "updated_at precedes parent plan created_at",
                        ),
                    );
                }
                let at: usize = find_stored_leg(&out, stored.leg.definition.leg_id.as_str());
                proof {
                    let earlier = row_leg_ids(before.take(it.index()));
                    assert(stored_leg_ids(out@) =~= earlier);
                    text::first_index_facts(earlier, given.leg_id@);
                }
                if at < out.len() {
                    proof {
                        leg_rows_fault_of_prefix(key@, created_at, before, it.index() + 1);
                    }
                    return Err(
                        StoreError::corrupt("execution_plan", key, "contains duplicate leg rows"),
                    );
                }
                out.push(stored);
            },
            Err(error) => {
                proof {
                    leg_rows_fault_of_prefix(key@, created_at, before, it.index() + 1);
                }
                return Err(error);
            },
        }
    }
    assert(before.take(before.len() as int) =~= before);
    Ok(out)
}

/// The names of stored legs.
pub open spec fn stored_leg_ids(legs: Seq<StoredExecutionLeg>) -> Seq<Seq<char>> {
    Seq::new(legs.len(), |i: int| legs[i].leg.definition.leg_id@)
}

/// The place of a leg among stored legs.
pub fn find_stored_leg(legs: &Vec<StoredExecutionLeg>, leg_id: &str) -> (r: usize)
    ensures
        r == text::first_index(stored_leg_ids(legs@), leg_id@),
        r <= legs@.len(),
{
    let mut i: usize = 0;
    while i < legs.len() && !same_text(legs[i].leg.definition.leg_id.as_str(), leg_id)
        invariant
            i <= legs.len(),
            forall|j: int| 0 <= j < i ==> stored_leg_ids(legs@)[j] != leg_id@,
        decreases legs.len() - i,
    {
        i = i + 1;
    }
    proof {
        text::first_index_is(stored_leg_ids(legs@), leg_id@, i as int);
    }
    i
}

fn journal_names_earlier(legs: &Vec<JournalLeg>, n: usize, leg_id: &str) -> (r: bool)
    requires
        n <= legs.len(),
    ensures
        r == journal_leg_ids(legs@).take(n as int).contains(leg_id@),
{
    let ghost earlier = journal_leg_ids(legs@).take(n as int);
    let mut i: usize = 0;
    while i < n
        invariant
            i <= n <= legs.len(),
            earlier == journal_leg_ids(legs@).take(n as int),
            forall|j: int| 0 <= j < i ==> earlier[j] != leg_id@,
        decreases n - i,
    {
        if same_text(legs[i].definition.leg_id.as_str(), leg_id) {
            assert(earlier[i as int] == leg_id@);
            return true;
        }
        i = i + 1;
    }
    false
}

/// The names of the legs that are filled.
pub fn collect_filled(legs: &Vec<ExecutionLeg>) -> (r: Vec<LegId>)
    ensures
        text::texts(r@) == filled_ids(legs@),
{
    let mut out: Vec<LegId> = Vec::new();
    let mut i: usize = 0;
    while i < legs.len()
        invariant
            i <= legs.len(),
            text::texts(out@) == filled_ids(legs@.take(i as int)),
        decreases legs.len() - i,
    {
        let ghost longer = legs@.take(i + 1);
        assert(longer.drop_last() =~= legs@.take(i as int));
        let ghost before = out@;
        if same_text(legs[i].state.status.as_str(), LEG_FILLED) {
            out.push(legs[i].definition.leg_id.clone());
            assert(text::texts(out@) =~= text::texts(before).push(
                legs@[i as int].definition.leg_id@,
            ));
        }
        i = i + 1;
    }
    assert(legs@.take(i as int) =~= legs@);
    out
}

/// The names of the legs that were rejected or failed.
pub fn collect_failed(legs: &Vec<ExecutionLeg>) -> (r: Vec<LegId>)
    ensures
        text::texts(r@) == failed_ids(legs@),
{
    let mut out: Vec<LegId> = Vec::new();
    let mut i: usize = 0;
    while i < legs.len()
        invariant
            i <= legs.len(),
            text::texts(out@) == failed_ids(legs@.take(i as int)),
        decreases legs.len() - i,
    {
        let ghost longer = legs@.take(i + 1);
        assert(longer.drop_last() =~= legs@.take(i as int));
        let ghost before = out@;
        if same_text(legs[i].state.status.as_str(), LEG_REJECTED) || same_text(
            legs[i].state.status.as_str(),
            LEG_FAILED,
        ) {
            out.push(legs[i].definition.leg_id.clone());
            assert(text::texts(out@) =~= text::texts(before).push(
                legs@[i as int].definition.leg_id@,
            ));
        }
        i = i + 1;
    }
    assert(legs@.take(i as int) =~= legs@);
    out
}

fn check_plan_columns(row: &PlanRow, journal: &ExecutionPlanJournal) -> (r: Result<(), StoreError>)
    ensures
        error::fault(r) == plan_columns_fault(*row, *journal),
{
    let key = row.plan_id.as_str();
    validate_column(
        "execution_plan",
        key,
        "risk_id",
        row.risk_id.as_str(),
        journal.risk_id.as_str(),
    )?;
    validate_column(
        "execution_plan",
        key,
        "intent_id",
        row.intent_id.as_str(),
        journal.intent_id.as_str(),
    )?;
    validate_column(
        "execution_plan",
        key,
        "plan_id",
        key,
        journal.definition.plan_id.as_str(),
    )?;
    validate_column(
        "execution_plan",
        key,
        "account_id",
        row.account_id.as_str(),
        journal.definition.account_id.as_str(),
    )?;
    validate_column(
        "execution_plan",
        key,
        "strategy_id",
        row.strategy_id.as_str(),
        journal.definition.strategy_id.as_str(),
    )?;
    validate_column(
        "execution_plan",
        key,
        "mode",
        row.mode.as_str(),
        journal.definition.mode.as_str(),
    )?;
    validate_column(
        "execution_plan",
        key,
        "failure_policy",
        row.failure_policy.as_str(),
        journal.definition.failure_policy.as_str(),
    )
}

fn check_journal_leg(
    key: &str,
    stored: &Vec<StoredExecutionLeg>,
    legs: &Vec<JournalLeg>,
    i: usize,
    rows: Ghost<Seq<LegRow>>,
) -> (r: Result<usize, StoreError>)
    requires
        i < legs.len(),
        stored@.len() == rows@.len(),
        forall|j: int| 0 <= j < rows@.len() ==> leg_of_row(rows@[j], #[trigger] stored@[j]),
        journal_legs_fault(key@, rows@, legs@, i as nat) is None,
    ensures
        error::fault(r) == journal_legs_fault(key@, rows@, legs@, (i + 1) as nat),
        r matches Ok(at) ==> at < rows@.len() && at == text::first_index(
            row_leg_ids(rows@),
            legs@[i as int].definition.leg_id@,
        ),
{
    let leg = &legs[i];
    let id = leg.definition.leg_id.as_str();
    let at: usize = find_stored_leg(stored, id);
    assert(stored_leg_ids(stored@) =~= row_leg_ids(rows@));
    if at >= stored.len() || journal_names_earlier(legs, i, id) {
        let reason = join2("missing journal leg ", id);
        return Err(StoreError::corrupt("execution_plan", key, reason.as_str()));
    }
    match &leg.payload {
        Err(error) => {
            let reason = join2("journal leg cannot canonicalize: ", error.as_str());
            Err(StoreError::corrupt("execution_plan", key, reason.as_str()))
        },
        Ok(payload) => {
            assert(leg_of_row(rows@[at as int], stored@[at as int]));
            if !stored[at].payload.same(payload) {
                let reason = join3("leg ", id, " differs from the immutable journal");
                return Err(StoreError::corrupt("execution_plan", key, reason.as_str()));
            }
            Ok(at)
        },
    }
}

/// Reads a plan with its legs, before the domain and the records that it names
/// are asked.
pub fn execution_plan_from_row(
    row: PlanRow,
    journal: Result<ExecutionPlanJournal, String>,
    rows: Vec<LegRow>,
) -> (r: Result<StoredExecutionPlan, StoreError>)
    ensures
        error::fault(r) == plan_row_fault(row, journal, rows@),
        r matches Ok(stored) ==> plan_of_rows(row, journal->Ok_0, rows@, stored),
{
    let ghost given = rows@;
    let key = row.plan_id.clone();
    let payload = CanonicalJson::from_stored(
        "execution_plan",
        key.as_str(),
        row.payload.text.clone(),
        row.payload.digest.clone(),
    )?;
    let written = deserialize_payload("execution_plan", key.as_str(), journal)?;
    check_plan_columns(&row, &written)?;
    if row.created_at < 0 || row.updated_at < row.created_at {
        return Err(
            StoreError::corrupt(
                "execution_plan",
                key.as_str(),
                "created_at/updated_at lifecycle is invalid",
            ),
        );
    }
    let status = parse_enum_column("execution_plan", key.as_str(), "status", row.status)?;
    let stored = read_leg_rows(key.as_str(), row.created_at, rows)?;
    if stored.len() != written.legs.len() {
        return Err(
            StoreError::corrupt(
                "execution_plan",
                key.as_str(),
                "leg rows do not match the immutable plan journal",
            ),
        );
    }
    let mut legs: Vec<ExecutionLeg> = Vec::new();
    let mut i: usize = 0;
    while i < written.legs.len()
        invariant
            i <= written.legs.len(),
            stored@.len() == given.len(),
            forall|j: int| 0 <= j < given.len() ==> leg_of_row(given[j], #[trigger] stored@[j]),
            journal_legs_fault(key@, given, written.legs@, i as nat) is None,
            legs@.len() == i,
            forall|j: int|
                0 <= j < i ==> (#[trigger] legs@[j]) == row_leg(
                    given[text::first_index(
                        row_leg_ids(given),
                        written.legs@[j].definition.leg_id@,
                    ) as int],
                ),
            plan_row_fault(row, journal, rows@) == journal_legs_fault(
                key@,
                given,
                written.legs@,
                written.legs@.len(),
            ),
        decreases written.legs.len() - i,
    {
        match check_journal_leg(key.as_str(), &stored, &written.legs, i, Ghost(given)) {
            Ok(at) => {
                assert(leg_of_row(given[at as int], stored@[at as int]));
                legs.push(stored[at].leg.clone());
            },
            Err(error) => {
                proof {
                    journal_legs_fault_of_prefix(
                        key@,
                        given,
                        written.legs@,
                        (i + 1) as nat,
                        written.legs@.len(),
                    );
                }
                return Err(error);
            },
        }
        i = i + 1;
    }
    let filled_legs = collect_filled(&legs);
    let failed_legs = collect_failed(&legs);
    Ok(
        StoredExecutionPlan {
            plan: ExecutionPlan {
                definition: written.definition,
                legs,
                state: ExecutionPlanState { status, filled_legs, failed_legs },
            },
            risk_id: written.risk_id,
            intent_id: written.intent_id,
            payload,
            created_at: row.created_at,
            updated_at: row.updated_at,
        },
    )
}

/// What is wrong with a plan that was read, once the domain and the records
/// that it names are asked.
pub open spec fn stored_plan_fault(
    stored: StoredExecutionPlan,
    verdict: Option<String>,
    risk: Option<StoredRiskResult>,
    intent: Option<StoredTradeIntent>,
) -> Option<Fault> {
    let entity = "execution_plan"@;
    let key = stored.plan.definition.plan_id@;
    if semantic_fault(entity, key, verdict) is Some {
        semantic_fault(entity, key, verdict)
    } else if risk is None {
        Some(
            error::corrupt_fault(
                entity,
                key,
                "parent risk result "@ + stored.risk_id@ + " is missing"@,
            ),
        )
    } else if intent is None {
        Some(
            error::corrupt_fault(
                entity,
                key,
                "parent trade intent "@ + stored.intent_id@ + " is missing"@,
            ),
        )
    } else {
        match plan_graph_reason(
            stored.plan,
            stored.risk_id@,
            stored.intent_id@,
            stored.created_at,
            risk->0,
            intent->0,
        ) {
            Some(reason) => Some(error::corrupt_fault(entity, key, reason)),
            None => None,
        }
    }
}

/// Refuses a plan that does not follow from the records that it names.
pub fn validate_stored_plan(
    stored: &StoredExecutionPlan,
    verdict: &Option<String>,
    risk: &Option<StoredRiskResult>,
    intent: &Option<StoredTradeIntent>,
) -> (r: Result<(), StoreError>)
    ensures
        error::fault(r) == stored_plan_fault(*stored, *verdict, *risk, *intent),
{
    let key = stored.plan.definition.plan_id.as_str();
    require_no_objection("execution_plan", key, verdict)?;
    let risk = match risk {
        Some(risk) => risk,
        None => {
            let reason = join3("parent risk result ", stored.risk_id.as_str(), " is missing");
            return Err(StoreError::corrupt("execution_plan", key, reason.as_str()));
        },
    };
    let intent = match intent {
        Some(intent) => intent,
        None => {
            let reason = join3("parent trade intent ", stored.intent_id.as_str(), " is missing");
            return Err(StoreError::corrupt("execution_plan", key, reason.as_str()));
        },
    };
    match validate_execution_plan_graph(
        &stored.plan,
        &stored.risk_id,
        &stored.intent_id,
        stored.created_at,
        risk,
        intent,
    ) {
        Ok(_) => Ok(()),
        Err(reason) => Err(StoreError::corrupt("execution_plan", key, reason.as_str())),
    }
}

/// What came of a change of state: it was made, or it had been made before.
pub enum StateWrite<T> {
    Applied(T),
    Replayed(T),
}

/// A record at a state and time that a change expects, and which the change
/// carries further.
pub open spec fn expected_state(
    status: Seq<char>,
    updated_at: i64,
    expected_status: Seq<char>,
    expected_updated_at: i64,
    new_updated_at: i64,
) -> bool {
    status == expected_status && updated_at == expected_updated_at && updated_at < new_updated_at
}

/// Two states of a plan are the same.
pub open spec fn same_plan_state(a: ExecutionPlanState, b: ExecutionPlanState) -> bool {
    &&& a.status@ == b.status@
    &&& text::texts(a.filled_legs@) == text::texts(b.filled_legs@)
    &&& text::texts(a.failed_legs@) == text::texts(b.failed_legs@)
}

fn is_same_plan_state(a: &ExecutionPlanState, b: &ExecutionPlanState) -> (r: bool)
    ensures
        r == same_plan_state(*a, *b),
{
    same_text(a.status.as_str(), b.status.as_str()) && same_list(&a.filled_legs, &b.filled_legs)
        && same_list(&a.failed_legs, &b.failed_legs)
}

/// What is wrong with a change to the state of a plan. `verdict` is what the
/// domain objects to in the plan with the new state.
pub open spec fn plan_update_fault(
    current: StoredExecutionPlan,
    update: PlanStateUpdate,
    verdict: Option<String>,
) -> Option<Fault> {
    let key = plan_key(update.plan_id@);
    if verdict is Some {
        Some(error::invalid_fault("execution_plan_state"@, key, verdict->0@))
    } else if text::texts(update.state.filled_legs@) != text::texts(
        current.plan.state.filled_legs@,
    ) || text::texts(update.state.failed_legs@) != text::texts(current.plan.state.failed_legs@) {
        Some(
            error::invalid_fault(
                "execution_plan_state"@,
                key,
                "filled_legs/failed_legs must be derived from persisted leg states"@,
            ),
        )
    } else if expected_state(
        current.plan.state.status@,
        current.updated_at,
        update.expected_status@,
        update.expected_updated_at,
        update.updated_at,
    ) {
        None
    } else if same_plan_state(current.plan.state, update.state) && current.updated_at
        == update.updated_at {
        None
    } else {
        Some(error::stale_fault("execution_plan_state"@, key))
    }
}

/// Changes the state of a plan that is at the state which the change expects.
pub fn update_execution_plan_state(
    current: StoredExecutionPlan,
    update: &PlanStateUpdate,
    verdict: &Option<String>,
) -> (r: Result<StateWrite<StoredExecutionPlan>, StoreError>)
    ensures
        error::fault(r) == plan_update_fault(current, *update, *verdict),
        r matches Ok(StateWrite::Applied(next)) ==> {
            &&& expected_state(
                current.plan.state.status@,
                current.updated_at,
                update.expected_status@,
                update.expected_updated_at,
                update.updated_at,
            )
            &&& next.updated_at == update.updated_at
            &&& next.plan.state.status == update.state.status
            &&& next.plan.state.filled_legs == current.plan.state.filled_legs
            &&& next.plan.state.failed_legs == current.plan.state.failed_legs
            &&& next.plan.definition == current.plan.definition
            &&& next.plan.legs == current.plan.legs
            &&& next.risk_id == current.risk_id
            &&& next.intent_id == current.intent_id
            &&& next.payload == current.payload
            &&& next.created_at == current.created_at
        },
        r matches Ok(StateWrite::Replayed(next)) ==> next == current && !expected_state(
            current.plan.state.status@,
            current.updated_at,
            update.expected_status@,
            update.expected_updated_at,
            update.updated_at,
        ),
{
    if let Some(objection) = verdict {
        let key = join2("plan_id=", update.plan_id.as_str());
        return Err(StoreError::invalid("execution_plan_state", key.as_str(), objection.as_str()));
    }
    if !same_list(&update.state.filled_legs, &current.plan.state.filled_legs) || !same_list(
        &update.state.failed_legs,
        &current.plan.state.failed_legs,
    ) {
        let key = join2("plan_id=", update.plan_id.as_str());
        return Err(
            StoreError::invalid(
                "execution_plan_state",
                key.as_str(),
                "filled_legs/failed_legs must be derived from persisted leg states",
            ),
        );
    }
    if same_text(current.plan.state.status.as_str(), update.expected_status.as_str())
        && current.updated_at == update.expected_updated_at && current.updated_at
        < update.updated_at {
        let mut next = current;
        next.plan.state.status = update.state.status.clone();
        next.updated_at = update.updated_at;
        return Ok(StateWrite::Applied(next));
    }
    if is_same_plan_state(&current.plan.state, &update.state) && current.updated_at
        == update.updated_at {
        return Ok(StateWrite::Replayed(current));
    }
    let key = join2("plan_id=", update.plan_id.as_str());
    Err(StoreError::stale("execution_plan_state", key.as_str()))
}

/// What is wrong with a change to the state of one leg. `leg_verdict` is what
/// the domain objects to in the leg with the new state, `plan` the plan of the
/// leg, and `plan_verdict` what the domain objects to in the plan with it.
pub open spec fn leg_update_fault(
    current: StoredExecutionLeg,
    update: LegStateUpdate,
    leg_verdict: Option<String>,
    plan: Option<StoredExecutionPlan>,
    plan_verdict: Option<String>,
) -> Option<Fault> {
    let key = leg_key(update.leg_id@);
    if current.plan_id@ != update.plan_id@ {
        Some(error::conflict_fault("execution_leg_state"@, key))
    } else if leg_verdict is Some {
        Some(error::invalid_fault("execution_leg_state"@, key, leg_verdict->0@))
    } else if plan is None {
        Some(error::missing_fault("execution_plan"@, plan_key(update.plan_id@)))
    } else if text::first_index(leg_ids(plan->0.plan.legs@), update.leg_id@)
        >= plan->0.plan.legs@.len() {
        Some(
            error::corrupt_fault(
                "execution_plan"@,
                update.plan_id@,
                "plan journal is missing leg "@ + update.leg_id@,
            ),
        )
    } else if plan_verdict is Some {
        Some(
            error::invalid_fault(
                "execution_leg_state"@,
                key,
                "standalone leg update would make the plan projection inconsistent; use update_execution_lifecycle: "@
                    + plan_verdict->0@,
            ),
        )
    } else if expected_state(
        current.leg.state.status@,
        current.updated_at,
        update.expected_status@,
        update.expected_updated_at,
        update.updated_at,
    ) {
        None
    } else if current.leg.state.status@ == update.state.status@ && current.updated_at
        == update.updated_at {
        None
    } else {
        Some(error::stale_fault("execution_leg_state"@, key))
    }
}

/// Changes the state of one leg that is at the state which the change expects.
pub fn update_execution_leg_state(
    current: StoredExecutionLeg,
    update: &LegStateUpdate,
    leg_verdict: &Option<String>,
    plan: &Option<StoredExecutionPlan>,
    plan_verdict: &Option<String>,
) -> (r: Result<StateWrite<StoredExecutionLeg>, StoreError>)
    ensures
        error::fault(r) == leg_update_fault(current, *update, *leg_verdict, *plan, *plan_verdict),
        r matches Ok(StateWrite::Applied(next)) ==> {
            &&& expected_state(
                current.leg.state.status@,
                current.updated_at,
                update.expected_status@,
                update.expected_updated_at,
                update.updated_at,
            )
            &&& next == (StoredExecutionLeg {
                leg: ExecutionLeg { state: update.state, ..current.leg },
                updated_at: update.updated_at,
                ..current
            })
        },
        r matches Ok(StateWrite::Replayed(next)) ==> next == current && !expected_state(
            current.leg.state.status@,
            current.updated_at,
            update.expected_status@,
            update.expected_updated_at,
            update.updated_at,
        ),
{
    let key = join2("leg_id=", update.leg_id.as_str());
    if !same_text(current.plan_id.as_str(), update.plan_id.as_str()) {
        return Err(StoreError::conflict("execution_leg_state", key.as_str()));
    }
    if let Some(objection) = leg_verdict {
        return Err(StoreError::invalid("execution_leg_state", key.as_str(), objection.as_str()));
    }
    let plan = match plan {
        Some(plan) => plan,
        None => {
            let key = join2("plan_id=", update.plan_id.as_str());
            return Err(StoreError::missing("execution_plan", key.as_str()));
        },
    };
    if find_leg(&plan.plan.legs, update.leg_id.as_str()) >= plan.plan.legs.len() {
        let reason = join2("plan journal is missing leg ", update.leg_id.as_str());
        return Err(
            StoreError::corrupt("execution_plan", update.plan_id.as_str(), reason.as_str()),
        );
    }
    if let Some(objection) = plan_verdict {
        let reason = join2(
            "standalone leg update would make the plan projection inconsistent; use update_execution_lifecycle: ",
            objection.as_str(),
        );
        return Err(StoreError::invalid("execution_leg_state", key.as_str(), reason.as_str()));
    }
    if same_text(current.leg.state.status.as_str(), update.expected_status.as_str())
        && current.updated_at == update.expected_updated_at && current.updated_at
        < update.updated_at {
        let mut next = current;
        next.leg.state = update.state.clone();
        next.updated_at = update.updated_at;
        return Ok(StateWrite::Applied(next));
    }
    if same_text(current.leg.state.status.as_str(), update.state.status.as_str())
        && current.updated_at == update.updated_at {
        return Ok(StateWrite::Replayed(current));
    }
    Err(StoreError::stale("execution_leg_state", key.as_str()))
}

/// The plan with one leg in a new state, as the domain is to judge it.
pub open spec fn with_leg_state(
    legs: Seq<ExecutionLeg>,
    leg_id: Seq<char>,
    state: ExecutionLegState,
) -> Seq<ExecutionLeg> {
    let at = text::first_index(leg_ids(legs), leg_id) as int;
    if at < legs.len() {
        legs.update(at, ExecutionLeg { state, ..legs[at] })
    } else {
        legs
    }
}

/// Puts a leg of a plan into a new state; says whether there is such a leg.
pub fn set_leg_state(legs: &mut Vec<ExecutionLeg>, leg_id: &str, state: ExecutionLegState) -> (r:
    bool)
    ensures
        final(legs)@ == with_leg_state(old(legs)@, leg_id@, state),
        r == (text::first_index(leg_ids(old(legs)@), leg_id@) < old(legs)@.len()),
{
    let at: usize = find_leg(legs, leg_id);
    if at >= legs.len() {
        return false;
    }
    let definition = legs[at].definition.clone();
    legs.set(at, ExecutionLeg { definition, state });
    true
}

/// A leg is listed as filled if it is filled, and only then.
pub proof fn filled_legs_are_filled(legs: Seq<ExecutionLeg>, leg_id: Seq<char>)
    ensures
        filled_ids(legs).len() <= legs.len(),
        filled_ids(legs).contains(leg_id) <==> exists|i: int|
            0 <= i < legs.len() && (#[trigger] legs[i]).definition.leg_id@ == leg_id && (
            legs[i].state.status@ == "FILLED"@),
    decreases legs.len(),
{
    if legs.len() > 0 {
        let shorter = legs.drop_last();
        let last = legs.len() - 1;
        filled_legs_are_filled(shorter, leg_id);
        let before = filled_ids(shorter);
        let after = filled_ids(legs);
        if before.contains(leg_id) {
            let k = choose|k: int| 0 <= k < before.len() && before[k] == leg_id;
            assert(after[k] == leg_id);
            let i = choose|i: int|
                0 <= i < shorter.len() && (#[trigger] shorter[i]).definition.leg_id@ == leg_id && (
                shorter[i].state.status@ == "FILLED"@);
            assert(legs[i] == shorter[i]);
        }
        if after.contains(leg_id) && !before.contains(leg_id) {
            let k = choose|k: int| 0 <= k < after.len() && after[k] == leg_id;
            if k < before.len() {
                assert(before[k] == leg_id);
            }
            assert(legs[last].definition.leg_id@ == leg_id);
        }
        if exists|i: int|
            0 <= i < legs.len() && (#[trigger] legs[i]).definition.leg_id@ == leg_id && (
            legs[i].state.status@ == "FILLED"@) {
            let i = choose|i: int|
                0 <= i < legs.len() && (#[trigger] legs[i]).definition.leg_id@ == leg_id && (
                legs[i].state.status@ == "FILLED"@);
            if i == last {
                assert(after[after.len() - 1] == leg_id);
            } else {
                assert(shorter[i] == legs[i]);
            }
        }
    }
}

/// A leg is listed as failed if it was rejected or failed, and only then.
pub proof fn failed_legs_have_failed(legs: Seq<ExecutionLeg>, leg_id: Seq<char>)
    ensures
        failed_ids(legs).len() <= legs.len(),
        failed_ids(legs).contains(leg_id) <==> exists|i: int|
            0 <= i < legs.len() && (#[trigger] legs[i]).definition.leg_id@ == leg_id && (
            legs[i].state.status@ == "REJECTED"@ || legs[i].state.status@ == "FAILED"@),
    decreases legs.len(),
{
    if legs.len() > 0 {
        let shorter = legs.drop_last();
        let last = legs.len() - 1;
        failed_legs_have_failed(shorter, leg_id);
        let before = failed_ids(shorter);
        let after = failed_ids(legs);
        if before.contains(leg_id) {
            let k = choose|k: int| 0 <= k < before.len() && before[k] == leg_id;
            assert(after[k] == leg_id);
            let i = choose|i: int|
                0 <= i < shorter.len() && (#[trigger] shorter[i]).definition.leg_id@ == leg_id && (
                shorter[i].state.status@ == "REJECTED"@ || shorter[i].state.status@ == "FAILED"@);
            assert(legs[i] == shorter[i]);
        }
        if after.contains(leg_id) && !before.contains(leg_id) {
            let k = choose|k: int| 0 <= k < after.len() && after[k] == leg_id;
            if k < before.len() {
                assert(before[k] == leg_id);
            }
            assert(legs[last].definition.leg_id@ == leg_id);
        }
        if exists|i: int|
            0 <= i < legs.len() && (#[trigger] legs[i]).definition.leg_id@ == leg_id && (
            legs[i].state.status@ == "REJECTED"@ || legs[i].state.status@ == "FAILED"@) {
            let i = choose|i: int|
                0 <= i < legs.len() && (#[trigger] legs[i]).definition.leg_id@ == leg_id && (
                legs[i].state.status@ == "REJECTED"@ || legs[i].state.status@ == "FAILED"@);
            if i == last {
                assert(after[after.len() - 1] == leg_id);
            } else {
                assert(shorter[i] == legs[i]);
            }
        }
    }
}

/// A plan that was read lists among its failed legs each of its legs that was
/// rejected or failed, and among its filled legs each that is filled, and no
/// others.
pub proof fn read_plans_report_their_legs(
    row: PlanRow,
    journal: ExecutionPlanJournal,
    rows: Seq<LegRow>,
    stored: StoredExecutionPlan,
    leg_id: Seq<char>,
)
    requires
        plan_of_rows(row, journal, rows, stored),
    ensures
        text::texts(stored.plan.state.failed_legs@).contains(leg_id) <==> exists|i: int|
            0 <= i < stored.plan.legs@.len() && (
            #[trigger] stored.plan.legs@[i]).definition.leg_id@ == leg_id && (
            stored.plan.legs@[i].state.status@ == "REJECTED"@ || stored.plan.legs@[i].state.status@
                == "FAILED"@),
        text::texts(stored.plan.state.filled_legs@).contains(leg_id) <==> exists|i: int|
            0 <= i < stored.plan.legs@.len() && (
            #[trigger] stored.plan.legs@[i]).definition.leg_id@ == leg_id
                && stored.plan.legs@[i].state.status@ == "FILLED"@,
{
    failed_legs_have_failed(stored.plan.legs@, leg_id);
    filled_legs_are_filled(stored.plan.legs@, leg_id);
}

/// A leg follows from the approval and the intent only if there is an approval
/// and a size for a leg of its name, and it has their symbol, direction, size,
/// stop and ratio to the bit, and the take-profit of the intent.
pub proof fn legs_follow_from_their_approval(
    leg: ExecutionLegDefinition,
    adjusted: Seq<AdjustedRiskLeg>,
    candidates: Seq<SizingCandidate>,
    intent: TradeIntent,
)
    requires
        leg_reason(leg, adjusted, candidates, intent) is None,
    ensures
        exists|i: int|
            0 <= i < adjusted.len() && (#[trigger] adjusted[i]).leg_id@ == leg.leg_id@
                && adjusted[i].symbol@ == leg.symbol@ && leg.lots == Some(adjusted[i].lots)
                && leg.sl == Some(adjusted[i].approved_sl) && (match adjusted[i].action {
                trading::AdjustedRiskLegAction::Buy => leg.action@ == "BUY"@,
                trading::AdjustedRiskLegAction::Sell => leg.action@ == "SELL"@,
            }),
        exists|i: int|
            0 <= i < candidates.len() && (#[trigger] candidates[i]).leg_id@ == leg.leg_id@
                && candidates[i].symbol@ == leg.symbol@ && leg.ratio == candidates[i].ratio,
        intent.proposed_legs is None ==> leg.leg_id@ == intent.single_leg_id@ && leg.tp
            == intent.proposed_tp,
        intent.proposed_legs matches Some(legs) ==> exists|i: int|
            0 <= i < legs@.len() && (#[trigger] legs@[i]).leg_id@ == leg.leg_id@
                && legs@[i].proposed_tp == leg.tp,
{
    let id = leg.leg_id@;
    text::first_index_facts(adjusted_ids(adjusted), id);
    text::first_index_facts(candidate_ids(candidates), id);
    let a = text::first_index(adjusted_ids(adjusted), id) as int;
    let c = text::first_index(candidate_ids(candidates), id) as int;
    assert(adjusted[a].leg_id@ == adjusted_ids(adjusted)[a]);
    assert(candidates[c].leg_id@ == candidate_ids(candidates)[c]);
    if intent.proposed_legs is Some {
        let legs = intent.proposed_legs->0@;
        text::first_index_facts(proposed_ids(legs), id);
        let at = text::first_index(proposed_ids(legs), id) as int;
        assert(legs[at].leg_id@ == proposed_ids(legs)[at]);
    }
}

proof fn every_leg_follows(
    legs: Seq<ExecutionLeg>,
    adjusted: Seq<AdjustedRiskLeg>,
    candidates: Seq<SizingCandidate>,
    intent: TradeIntent,
    i: int,
)
    requires
        0 <= i < legs.len(),
        legs_reason(legs, adjusted, candidates, intent) is None,
    ensures
        leg_reason(legs[i].definition, adjusted, candidates, intent) is None,
    decreases legs.len(),
{
    if i < legs.len() - 1 {
        assert(legs.drop_last()[i] == legs[i]);
        every_leg_follows(legs.drop_last(), adjusted, candidates, intent, i);
    }
}

/// A plan that is accepted carries an accepted intent to buy or sell out, under
/// an approval that was valid when the plan was made; all three are of one
/// account, the plan has as many legs as the approval, and each leg follows from
/// it.
pub proof fn plans_carry_out_approved_intents(
    plan: ExecutionPlan,
    risk_id: Seq<char>,
    intent_id: Seq<char>,
    created_at: i64,
    risk: StoredRiskResult,
    intent: StoredTradeIntent,
)
    requires
        plan_graph_reason(plan, risk_id, intent_id, created_at, risk, intent) is None,
    ensures
        risk.result.risk_id@ == risk_id,
        risk.result.intent_id@ == intent_id,
        intent.intent.intent_id@ == intent_id,
        risk.result.account_id@ == plan.definition.account_id@,
        intent.intent.account_id@ == plan.definition.account_id@,
        intent.intent.strategy_id@ == plan.definition.strategy_id@,
        risk.result.decision_id@ == intent.intent.decision_id@,
        intent.status@ == "ACCEPTED"@,
        risk.result.approved,
        risk.result.evaluated_at <= created_at < risk.result.valid_until,
        created_at < intent.intent.signal_expires_at,
        intent.intent.action is Buy || intent.intent.action is Sell,
        risk.result.adjusted_legs is Some && risk.result.adjusted_legs->0@.len()
            == plan.legs@.len(),
        risk.result.sizing_candidates is Some && risk.result.sizing_candidates->0@.len()
            == plan.legs@.len(),
        forall|i: int|
            0 <= i < plan.legs@.len() ==> leg_reason(
                (#[trigger] plan.legs@[i]).definition,
                risk.result.adjusted_legs->0@,
                risk.result.sizing_candidates->0@,
                intent.intent,
            ) is None,
{
    assert forall|i: int| 0 <= i < plan.legs@.len() implies leg_reason(
        (#[trigger] plan.legs@[i]).definition,
        risk.result.adjusted_legs->0@,
        risk.result.sizing_candidates->0@,
        intent.intent,
    ) is None by {
        every_leg_follows(
            plan.legs@,
            risk.result.adjusted_legs->0@,
            risk.result.sizing_candidates->0@,
            intent.intent,
            i,
        );
    }
}

/// Such a plan is refused for its legs alone, if at all.
pub proof fn only_legs_stand_against_approved_plans(
    plan: ExecutionPlan,
    risk_id: Seq<char>,
    intent_id: Seq<char>,
    created_at: i64,
    risk: StoredRiskResult,
    intent: StoredTradeIntent,
)
    requires
        risk.result.risk_id@ == risk_id,
        risk.result.intent_id@ == intent_id,
        intent.intent.intent_id@ == intent_id,
        risk.result.account_id@ == plan.definition.account_id@,
        intent.intent.account_id@ == plan.definition.account_id@,
        intent.intent.strategy_id@ == plan.definition.strategy_id@,
        risk.result.decision_id@ == intent.intent.decision_id@,
        intent.status@ == "ACCEPTED"@,
        risk.result.approved,
        risk.result.evaluated_at <= created_at < risk.result.valid_until,
        created_at < intent.intent.signal_expires_at,
        intent.intent.action is Buy || intent.intent.action is Sell,
        risk.result.adjusted_legs is Some && risk.result.adjusted_legs->0@.len()
            == plan.legs@.len(),
        risk.result.sizing_candidates is Some && risk.result.sizing_candidates->0@.len()
            == plan.legs@.len(),
    ensures
        plan_graph_reason(plan, risk_id, intent_id, created_at, risk, intent) == legs_reason(
            plan.legs@,
            risk.result.adjusted_legs->0@,
            risk.result.sizing_candidates->0@,
            intent.intent,
        ),
{
}

/// A new plan and all its legs are pending, with nothing filled and nothing
/// failed, and it is not dated before the beginning of time.
pub proof fn new_plans_are_pristine(
    new_plan: NewExecutionPlan,
    verdict: Option<String>,
    risk: Option<StoredRiskResult>,
    intent: Option<StoredTradeIntent>,
)
    requires
        new_plan_fault(new_plan, verdict, risk, intent) is None,
    ensures
        verdict is None,
        new_plan.recorded_at >= 0,
        new_plan.plan.state.status@ == "PENDING"@,
        new_plan.plan.state.filled_legs@.len() == 0,
        new_plan.plan.state.failed_legs@.len() == 0,
        forall|i: int|
            0 <= i < new_plan.plan.legs@.len() ==> (
            #[trigger] new_plan.plan.legs@[i]).state.status@ == "PENDING"@,
        risk is Some && intent is Some,
        plan_graph_reason(
            new_plan.plan,
            new_plan.risk_id@,
            new_plan.intent_id@,
            new_plan.recorded_at,
            risk->0,
            intent->0,
        ) is None,
{
}

/// A change of a plan's state is made from the state and time that it expects,
/// and only forward; one that was made before counts as made; any other is
/// stale. It never touches which legs are filled or failed.
pub proof fn plan_changes_go_forward_once(
    current: StoredExecutionPlan,
    update: PlanStateUpdate,
)
    ensures
        ({
            let kept = text::texts(update.state.filled_legs@) == text::texts(
                current.plan.state.filled_legs@,
            ) && text::texts(update.state.failed_legs@) == text::texts(
                current.plan.state.failed_legs@,
            );
            let expected = current.plan.state.status@ == update.expected_status@
                && current.updated_at == update.expected_updated_at && update.updated_at
                > current.updated_at;
            let made = current.plan.state.status@ == update.state.status@ && current.updated_at
                == update.updated_at;
            plan_update_fault(current, update, None) is None <==> kept && (expected || made)
        }),
{
}

/// A change of a leg's state is made from the state and time that it expects,
/// and only forward; one that was made before counts as made; any other is
/// refused.
pub proof fn leg_changes_go_forward_once(
    current: StoredExecutionLeg,
    update: LegStateUpdate,
    plan: StoredExecutionPlan,
)
    requires
        current.plan_id@ == update.plan_id@,
        exists|i: int|
            0 <= i < plan.plan.legs@.len() && (#[trigger] plan.plan.legs@[i]).definition.leg_id@
                == update.leg_id@,
    ensures
        leg_update_fault(current, update, None, Some(plan), None) is None <==> (
        current.leg.state.status@ == update.expected_status@ && current.updated_at
            == update.expected_updated_at && update.updated_at > current.updated_at) || (
        current.leg.state.status@ == update.state.status@ && current.updated_at
            == update.updated_at),
{
    let i = choose|i: int|
        0 <= i < plan.plan.legs@.len() && (#[trigger] plan.plan.legs@[i]).definition.leg_id@
            == update.leg_id@;
    assert(leg_ids(plan.plan.legs@)[i] == update.leg_id@);
    text::first_index_facts(leg_ids(plan.plan.legs@), update.leg_id@);
}

/// A plan comes twice if it carries out the same decision about the same intent,
/// was recorded at the same time and says the same.
pub proof fn repeated_plans_say_the_same(
    existing: StoredExecutionPlan,
    incoming: NewExecutionPlan,
    payload: Seq<char>,
)
    ensures
        same_plan_record(existing, incoming, payload) <==> existing.risk_id@ == incoming.risk_id@
            && existing.intent_id@ == incoming.intent_id@ && existing.payload@ == payload
            && existing.created_at == incoming.recorded_at,
{
}

/// A stored plan stands if the domain does not object to it, its decision and its
/// intent are stored, and it carries them out.
pub proof fn stored_plans_have_their_parents(
    stored: StoredExecutionPlan,
    verdict: Option<String>,
    risk: Option<StoredRiskResult>,
    intent: Option<StoredTradeIntent>,
)
    ensures
        stored_plan_fault(stored, verdict, risk, intent) is None <==> {
            &&& verdict is None
            &&& risk is Some
            &&& intent is Some
            &&& plan_graph_reason(
                stored.plan,
                stored.risk_id@,
                stored.intent_id@,
                stored.created_at,
                risk->0,
                intent->0,
            ) is None
        },
{
}

/// A plan that was read is the one that was written down, with each of its legs
/// as the row of that leg has it.
pub proof fn read_plans_are_as_written(
    row: PlanRow,
    journal: ExecutionPlanJournal,
    rows: Seq<LegRow>,
    stored: StoredExecutionPlan,
    i: int,
)
    requires
        plan_of_rows(row, journal, rows, stored),
        0 <= i < journal.legs@.len(),
    ensures
        stored.plan.definition == journal.definition,
        stored.risk_id == journal.risk_id,
        stored.intent_id == journal.intent_id,
        stored.payload@ == row.payload.text@,
        stored.created_at == row.created_at,
        stored.updated_at == row.updated_at,
        stored.plan.state.status == row.status.parsed->Ok_0,
        stored.plan.legs@.len() == journal.legs@.len(),
        ({
            let at = text::first_index(
                row_leg_ids(rows),
                journal.legs@[i].definition.leg_id@,
            ) as int;
            &&& stored.plan.legs@[i].definition == rows[at].definition->Ok_0
            &&& stored.plan.legs@[i].state.status == rows[at].status.parsed->Ok_0
        }),
{
    assert(stored.plan.legs@[i] == row_leg(
        rows[text::first_index(row_leg_ids(rows), journal.legs@[i].definition.leg_id@) as int],
    ));
}

/// A leg that was read is as its row has it.
pub proof fn read_legs_are_as_written(row: LegRow, stored: StoredExecutionLeg)
    requires
        leg_of_row(row, stored),
    ensures
        stored.plan_id == row.plan_id,
        stored.leg.definition == row.definition->Ok_0,
        stored.leg.state.status == row.status.parsed->Ok_0,
        stored.payload@ == row.payload.text@,
        stored.updated_at == row.updated_at,
        stored.leg.definition.leg_id@ == row.leg_id@,
{
}

/// A leg is read if its payload is intact and is of the leg, the symbol and the
/// action that its columns name, its status is known and the domain does not
/// object.
pub proof fn read_legs_agree_with_their_columns(row: LegRow)
    ensures
        leg_row_fault(row) is None <==> {
            let definition = row.definition->Ok_0;
            &&& json::stored_fault(
                "execution_leg"@,
                row.leg_id@,
                row.payload.text@,
                row.payload.digest@,
            ) is None
            &&& row.definition is Ok
            &&& row.leg_id@ == definition.leg_id@
            &&& row.symbol@ == definition.symbol@
            &&& row.action@ == definition.action@
            &&& row.updated_at >= 0
            &&& row.status.parsed is Ok
            &&& row.verdict is None
        },
{
}

/// A plan is read only if what was written down of it is intact and is what its
/// columns say, its times are in order, and it has a row for each of its legs.
pub proof fn read_plans_agree_with_their_columns(
    row: PlanRow,
    journal: Result<ExecutionPlanJournal, String>,
    rows: Seq<LegRow>,
)
    requires
        plan_row_fault(row, journal, rows) is None,
    ensures
        json::stored_fault(
            "execution_plan"@,
            row.plan_id@,
            row.payload.text@,
            row.payload.digest@,
        ) is None,
        journal is Ok,
        ({
            let written = journal->Ok_0;
            &&& row.risk_id@ == written.risk_id@
            &&& row.intent_id@ == written.intent_id@
            &&& row.plan_id@ == written.definition.plan_id@
            &&& row.account_id@ == written.definition.account_id@
            &&& row.strategy_id@ == written.definition.strategy_id@
            &&& row.mode@ == written.definition.mode@
            &&& row.failure_policy@ == written.definition.failure_policy@
            &&& 0 <= row.created_at <= row.updated_at
            &&& row.status.parsed is Ok
            &&& rows.len() == written.legs@.len()
        }),
        forall|i: int|
            0 <= i < rows.len() ==> leg_row_fault(#[trigger] rows[i]) is None && rows[i].updated_at
                >= row.created_at,
        forall|i: int, j: int|
            0 <= i < j < rows.len() ==> (#[trigger] rows[i]).leg_id@ != (#[trigger] rows[j]).leg_id@,
{
    leg_rows_in_place(row.plan_id@, row.created_at, rows);
}

proof fn leg_rows_in_place(key: Seq<char>, created_at: i64, rows: Seq<LegRow>)
    requires
        leg_rows_fault(key, created_at, rows) is None,
    ensures
        forall|i: int|
            0 <= i < rows.len() ==> leg_row_fault(#[trigger] rows[i]) is None && rows[i].updated_at
                >= created_at,
        forall|i: int, j: int|
            0 <= i < j < rows.len() ==> (#[trigger] rows[i]).leg_id@ != (#[trigger] rows[j]).leg_id@,
    decreases rows.len(),
{
    if rows.len() > 0 {
        let rest = rows.drop_last();
        leg_rows_in_place(key, created_at, rest);
        let ids = row_leg_ids(rest);
        let last = rows[rows.len() - 1];
        assert forall|i: int| 0 <= i < rows.len() implies leg_row_fault(#[trigger] rows[i]) is None
            && rows[i].updated_at >= created_at by {
            if i < rest.len() {
                assert(rest[i] == rows[i]);
            }
        }
        assert forall|i: int, j: int| 0 <= i < j < rows.len() implies (#[trigger] rows[i]).leg_id@
            != (#[trigger] rows[j]).leg_id@ by {
            assert(rest[i] == rows[i]);
            assert(ids[i] == rows[i].leg_id@);
            if j < rest.len() {
                assert(rest[j] == rows[j]);
            } else {
                assert(!ids.contains(last.leg_id@));
            }
        }
    }
}

}
