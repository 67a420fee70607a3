//! Intents, risk decisions, plans, commands and events, as far as the store
//! reads them.
//!
//! A price, a size or a ratio is held as the bits of its 64-bit binary number:
//! the store compares such numbers and never computes with them.

use vstd::prelude::*;

use crate::domain::{
    AccountId, BrokerOrderId, ClientId, CommandId, CorrelationId, DecisionId, ExecutionId, IdempotencyKey,
    IntentId, LegId, PlanId, RiskId, StrategyId, SymbolCode, TerminalId,
};
use crate::json::CanonicalJson;
use crate::text::copy_optional;

verus! {

/// The bits of a 64-bit binary floating-point number.
pub type FloatBits = u64;

/// Whether bits stand for a finite number: their exponent is not all ones.
pub open spec fn finite(bits: FloatBits) -> bool {
    (bits / 0x10_0000_0000_0000) % 0x800 != 0x7ff
}

/// Whether two finite numbers have the same bits.
pub open spec fn same_finite(left: FloatBits, right: FloatBits) -> bool {
    left == right && finite(left)
}

/// Whether two numbers are both missing, or both finite with the same bits.
pub open spec fn same_optional_finite(left: Option<FloatBits>, right: Option<FloatBits>) -> bool {
    match (left, right) {
        (Some(left), Some(right)) => same_finite(left, right),
        (None, None) => true,
        _ => false,
    }
}

/// Whether bits stand for a finite number.
pub fn is_finite(bits: FloatBits) -> (r: bool)
    ensures
        r == finite(bits),
{
    (bits / 0x10_0000_0000_0000) % 0x800 != 0x7ff
}

/// Whether two numbers are finite and have the same bits.
pub fn same_f64_bits(left: FloatBits, right: FloatBits) -> (r: bool)
    ensures
        r == same_finite(left, right),
{
    is_finite(left) && is_finite(right) && left == right
}

/// Whether two optional numbers are the same, bit for bit.
pub fn same_optional_f64_bits(left: Option<FloatBits>, right: Option<FloatBits>) -> (r: bool)
    ensures
        r == same_optional_finite(left, right),
{
    match (left, right) {
        (Some(left), Some(right)) => same_f64_bits(left, right),
        (None, None) => true,
        _ => false,
    }
}

/// The bits of the number one.
pub const ONE_BITS: u64 = 0x3ff0_0000_0000_0000;

/// What an intent wants.
#[derive(Clone, Copy, Debug, PartialEq, Eq, Structural)]
pub enum TradeIntentAction {
    Buy,
    Sell,
    Close,
    Hold,
}

impl TradeIntentAction {
    /// The text under which the action is stored.
    pub open spec fn name(self) -> Seq<char> {
        match self {
            TradeIntentAction::Buy => "BUY"@,
            TradeIntentAction::Sell => "SELL"@,
            TradeIntentAction::Close => "CLOSE"@,
            TradeIntentAction::Hold => "HOLD"@,
        }
    }

    pub fn as_str(self) -> (r: &'static str)
        ensures
            r@ == self.name(),
    {
        match self {
            TradeIntentAction::Buy => "BUY",
            TradeIntentAction::Sell => "SELL",
            TradeIntentAction::Close => "CLOSE",
            TradeIntentAction::Hold => "HOLD",
        }
    }
}

/// What a leg of an intent wants.
#[derive(Clone, Copy, Debug, PartialEq, Eq, Structural)]
pub enum TradeIntentLegAction {
    Buy,
    Sell,
    Close,
}

/// What a risk decision allows for a leg.
#[derive(Clone, Copy, Debug, PartialEq, Eq, Structural)]
pub enum AdjustedRiskLegAction {
    Buy,
    Sell,
}

impl AdjustedRiskLegAction {
    /// The text of the execution action that carries the decision out.
    pub open spec fn execution_action(self) -> Seq<char> {
        match self {
            AdjustedRiskLegAction::Buy => "BUY"@,
            AdjustedRiskLegAction::Sell => "SELL"@,
        }
    }

    pub fn as_execution_action(self) -> (r: &'static str)
        ensures
            r@ == self.execution_action(),
    {
        match self {
            AdjustedRiskLegAction::Buy => "BUY",
            AdjustedRiskLegAction::Sell => "SELL",
        }
    }
}

/// A leg that an intent proposes.
#[derive(Debug, PartialEq, Eq)]
pub struct ProposedLeg {
    pub leg_id: LegId,
    pub symbol: SymbolCode,
    pub action: TradeIntentLegAction,
    pub ratio: FloatBits,
    pub proposed_sl: Option<FloatBits>,
    pub proposed_tp: Option<FloatBits>,
}

/// What a strategy wants to trade.
#[derive(Debug, PartialEq, Eq)]
pub struct TradeIntent {
    pub intent_id: IntentId,
    pub decision_id: DecisionId,
    pub strategy_id: StrategyId,
    pub account_id: AccountId,
    pub symbol: SymbolCode,
    pub action: TradeIntentAction,
    pub requested_at: i64,
    pub signal_expires_at: i64,
    pub idempotency_key: IdempotencyKey,
    /// The name of the only leg of an intent that proposes none.
    pub single_leg_id: LegId,
    pub correlation_id: CorrelationId,
    pub proposed_sl: Option<FloatBits>,
    pub proposed_tp: Option<FloatBits>,
    pub proposed_legs: Option<Vec<ProposedLeg>>,
}

/// A leg that a risk decision sized.
#[derive(Debug, PartialEq, Eq)]
pub struct AdjustedRiskLeg {
    pub leg_id: LegId,
    pub symbol: SymbolCode,
    pub action: AdjustedRiskLegAction,
    pub lots: FloatBits,
    pub approved_sl: FloatBits,
}

/// Where the size of a leg comes from.
#[derive(Debug, PartialEq, Eq)]
pub struct SizingCandidate {
    pub leg_id: LegId,
    pub symbol: SymbolCode,
    pub action: AdjustedRiskLegAction,
    pub ratio: FloatBits,
    pub stop_loss_price: FloatBits,
}

/// What risk control decided about an intent.
#[derive(Debug, PartialEq, Eq)]
pub struct RiskResult {
    pub risk_id: RiskId,
    pub intent_id: IntentId,
    pub account_id: AccountId,
    pub decision_id: DecisionId,
    pub approved: bool,
    pub reason: String,
    pub snapshot_age_ms: i64,
    pub symbol_metadata_age_ms: i64,
    pub evaluated_at: i64,
    pub valid_until: i64,
    pub has_sizing_version: bool,
    pub has_risk_base_amount: bool,
    pub has_risk_budget_amount: bool,
    pub has_adjusted_risk_pct: bool,
    pub sizing_candidates: Option<Vec<SizingCandidate>>,
    pub adjusted_legs: Option<Vec<AdjustedRiskLeg>>,
}

/// The fixed part of a plan.
#[derive(Debug, PartialEq, Eq)]
pub struct ExecutionPlanDefinition {
    pub plan_id: PlanId,
    pub account_id: AccountId,
    pub strategy_id: StrategyId,
    pub mode: String,
    pub failure_policy: String,
}

/// The fixed part of a leg.
#[derive(Debug, PartialEq, Eq)]
pub struct ExecutionLegDefinition {
    pub leg_id: LegId,
    pub symbol: SymbolCode,
    pub action: String,
    pub ratio: FloatBits,
    pub lots: Option<FloatBits>,
    pub sl: Option<FloatBits>,
    pub tp: Option<FloatBits>,
}

/// The changing part of a leg.
#[derive(Debug, PartialEq, Eq)]
pub struct ExecutionLegState {
    pub status: String,
}

/// A leg of a plan.
#[derive(Debug, PartialEq, Eq)]
pub struct ExecutionLeg {
    pub definition: ExecutionLegDefinition,
    pub state: ExecutionLegState,
}

/// The changing part of a plan.
#[derive(Debug, PartialEq, Eq)]
pub struct ExecutionPlanState {
    pub status: String,
    pub filled_legs: Vec<LegId>,
    pub failed_legs: Vec<LegId>,
}

/// A plan to carry an approved intent out.
#[derive(Debug, PartialEq, Eq)]
pub struct ExecutionPlan {
    pub definition: ExecutionPlanDefinition,
    pub legs: Vec<ExecutionLeg>,
    pub state: ExecutionPlanState,
}

/// An order to an execution client.
#[derive(Debug, PartialEq, Eq)]
pub struct ExecutionCommand {
    pub command_id: CommandId,
    pub plan_id: Option<PlanId>,
    pub leg_id: Option<LegId>,
    pub account_id: AccountId,
    pub strategy_id: StrategyId,
    pub client_id: Option<ClientId>,
    pub terminal_id: Option<TerminalId>,
    pub symbol: SymbolCode,
    pub action: String,
    pub lots: Option<FloatBits>,
    pub sl: Option<FloatBits>,
    pub tp: Option<FloatBits>,
    pub expires_at: i64,
    pub idempotency_key: IdempotencyKey,
    pub hmac: String,
}

/// How far a command got.
#[derive(Debug, PartialEq, Eq)]
pub struct ExecutionCommandState {
    pub command_id: CommandId,
    pub account_id: AccountId,
    pub plan_id: Option<PlanId>,
    pub leg_id: Option<LegId>,
    pub status: String,
    pub delivery_attempts: u32,
    pub last_delivery_error: Option<String>,
    pub created_at: i64,
    pub dispatched_at: Option<i64>,
    pub command_received_at: Option<i64>,
    pub reconciling_at: Option<i64>,
    pub completed_at: Option<i64>,
    pub updated_at: i64,
}

/// What an execution client reports about a command.
#[derive(Debug, PartialEq, Eq)]
pub struct ExecutionEvent {
    pub execution_id: ExecutionId,
    pub command_id: CommandId,
    pub plan_id: Option<PlanId>,
    pub leg_id: Option<LegId>,
    pub account_id: AccountId,
    pub status: String,
    pub broker_order_id: Option<BrokerOrderId>,
    pub position_ticket: Option<String>,
    pub event_at: i64,
    pub filled_at: Option<i64>,
}

/// An intent to be stored.
#[derive(Debug, PartialEq, Eq)]
pub struct NewTradeIntent {
    pub intent: TradeIntent,
    pub initial_status: String,
    pub recorded_at: i64,
}

/// A stored intent.
#[derive(Debug, PartialEq, Eq)]
pub struct StoredTradeIntent {
    pub intent: TradeIntent,
    pub status: String,
    pub payload: CanonicalJson,
    pub created_at: i64,
    pub updated_at: i64,
}

/// A risk decision to be stored.
#[derive(Debug, PartialEq, Eq)]
pub struct NewRiskResult {
    pub result: RiskResult,
}

/// A stored risk decision.
#[derive(Debug, PartialEq, Eq)]
pub struct StoredRiskResult {
    pub result: RiskResult,
    pub payload: CanonicalJson,
}

/// A plan to be stored.
#[derive(Debug, PartialEq, Eq)]
pub struct NewExecutionPlan {
    pub plan: ExecutionPlan,
    pub risk_id: RiskId,
    pub intent_id: IntentId,
    pub recorded_at: i64,
}

/// A stored plan.
#[derive(Debug, PartialEq, Eq)]
pub struct StoredExecutionPlan {
    pub plan: ExecutionPlan,
    pub risk_id: RiskId,
    pub intent_id: IntentId,
    pub payload: CanonicalJson,
    pub created_at: i64,
    pub updated_at: i64,
}

/// A stored leg.
#[derive(Debug, PartialEq, Eq)]
pub struct StoredExecutionLeg {
    pub plan_id: PlanId,
    pub leg: ExecutionLeg,
    pub payload: CanonicalJson,
    pub updated_at: i64,
}

/// A change to the state of a plan.
#[derive(Debug, PartialEq, Eq)]
pub struct PlanStateUpdate {
    pub plan_id: PlanId,
    pub expected_status: String,
    pub expected_updated_at: i64,
    pub state: ExecutionPlanState,
    pub updated_at: i64,
}

/// A change to the state of a leg.
#[derive(Debug, PartialEq, Eq)]
pub struct LegStateUpdate {
    pub plan_id: PlanId,
    pub leg_id: LegId,
    pub expected_status: String,
    pub expected_updated_at: i64,
    pub state: ExecutionLegState,
    pub updated_at: i64,
}

/// A change to a plan and some of its legs at once.
#[derive(Debug, PartialEq, Eq)]
pub struct ExecutionLifecycleUpdate {
    pub plan: PlanStateUpdate,
    pub legs: Vec<LegStateUpdate>,
}

/// A command to be stored.
#[derive(Debug, PartialEq, Eq)]
pub struct NewExecutionCommand {
    pub command: ExecutionCommand,
    pub risk_id: RiskId,
    pub created_at: i64,
}

/// A stored command.
#[derive(Debug, PartialEq, Eq)]
pub struct StoredExecutionCommand {
    pub command: ExecutionCommand,
    pub risk_id: RiskId,
    pub payload: CanonicalJson,
    pub created_at: i64,
}

/// An intent with everything that follows from it, to be stored at once.
#[derive(Debug, PartialEq, Eq)]
pub struct NewExecutionWorkflow {
    pub intent: NewTradeIntent,
    pub risk_result: NewRiskResult,
    pub plan: NewExecutionPlan,
    pub commands: Vec<NewExecutionCommand>,
    pub command_states: Vec<ExecutionCommandState>,
}

/// A stored intent with everything that follows from it.
#[derive(Debug, PartialEq, Eq)]
pub struct StoredExecutionWorkflow {
    pub intent: StoredTradeIntent,
    pub risk_result: StoredRiskResult,
    pub plan: StoredExecutionPlan,
    pub commands: Vec<StoredExecutionCommand>,
    pub command_states: Vec<ExecutionCommandState>,
}

/// A change to the state of a command.
#[derive(Debug, PartialEq, Eq)]
pub struct CommandStateUpdate {
    pub expected_status: String,
    pub expected_updated_at: i64,
    pub state: ExecutionCommandState,
}

/// An event to be stored.
#[derive(Debug, PartialEq, Eq)]
pub struct NewExecutionEvent {
    pub event: ExecutionEvent,
    pub created_at: i64,
}

/// A stored event.
#[derive(Debug, PartialEq, Eq)]
pub struct StoredExecutionEvent {
    pub event: ExecutionEvent,
    pub payload: CanonicalJson,
    pub created_at: i64,
}

impl Clone for ExecutionLegDefinition {
    fn clone(&self) -> (r: Self)
        ensures
            r == *self,
    {
        ExecutionLegDefinition {
            leg_id: self.leg_id.clone(),
            symbol: self.symbol.clone(),
            action: self.action.clone(),
            ratio: self.ratio,
            lots: self.lots,
            sl: self.sl,
            tp: self.tp,
        }
    }
}

impl Clone for ExecutionLegState {
    fn clone(&self) -> (r: Self)
        ensures
            r == *self,
    {
        ExecutionLegState {
            status: self.status.clone(),
        }
    }
}

impl Clone for ExecutionLeg {
    fn clone(&self) -> (r: Self)
        ensures
            r == *self,
    {
        ExecutionLeg {
            definition: self.definition.clone(),
            state: self.state.clone(),
        }
    }
}

impl Clone for ExecutionCommandState {
    fn clone(&self) -> (r: Self)
        ensures
            r == *self,
    {
        ExecutionCommandState {
            command_id: self.command_id.clone(),
            account_id: self.account_id.clone(),
            plan_id: copy_optional(&self.plan_id),
            leg_id: copy_optional(&self.leg_id),
            status: self.status.clone(),
            delivery_attempts: self.delivery_attempts,
            last_delivery_error: copy_optional(&self.last_delivery_error),
            created_at: self.created_at,
            dispatched_at: self.dispatched_at,
            command_received_at: self.command_received_at,
            reconciling_at: self.reconciling_at,
            completed_at: self.completed_at,
            updated_at: self.updated_at,
        }
    }
}

impl Clone for ExecutionCommand {
    fn clone(&self) -> (r: Self)
        ensures
            r == *self,
    {
        ExecutionCommand {
            command_id: self.command_id.clone(),
            plan_id: copy_optional(&self.plan_id),
            leg_id: copy_optional(&self.leg_id),
            account_id: self.account_id.clone(),
            strategy_id: self.strategy_id.clone(),
            client_id: copy_optional(&self.client_id),
            terminal_id: copy_optional(&self.terminal_id),
            symbol: self.symbol.clone(),
            action: self.action.clone(),
            lots: self.lots,
            sl: self.sl,
            tp: self.tp,
            expires_at: self.expires_at,
            idempotency_key: self.idempotency_key.clone(),
            hmac: self.hmac.clone(),
        }
    }
}

impl Clone for StoredExecutionCommand {
    fn clone(&self) -> (r: Self)
        ensures
            r == *self,
    {
        StoredExecutionCommand {
            command: self.command.clone(),
            risk_id: self.risk_id.clone(),
            payload: self.payload.clone(),
            created_at: self.created_at,
        }
    }
}

/// Two numbers are the same only if they are the same bit by bit and finite.
pub proof fn same_numbers_are_finite(left: FloatBits, right: FloatBits)
    ensures
        same_finite(left, right) <==> left == right && finite(left) && finite(right),
        same_optional_finite(Some(left), Some(right)) <==> left == right && finite(left),
        same_optional_finite(None, None),
        !same_optional_finite(Some(left), None),
        !same_optional_finite(None, Some(right)),
{
}

/// The texts under which actions are stored and sent.
pub proof fn actions_are_stored_by_name()
    ensures
        TradeIntentAction::Buy.name() == "BUY"@,
        TradeIntentAction::Sell.name() == "SELL"@,
        TradeIntentAction::Close.name() == "CLOSE"@,
        TradeIntentAction::Hold.name() == "HOLD"@,
        AdjustedRiskLegAction::Buy.execution_action() == "BUY"@,
        AdjustedRiskLegAction::Sell.execution_action() == "SELL"@,
{
}

}
