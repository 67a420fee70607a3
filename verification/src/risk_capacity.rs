//! How much risk an account may still take with a strategy.

use vstd::prelude::*;
use vstd::string::*;

use crate::columns::JsonColumns;
use crate::domain::{AccountId, StrategyId};
use crate::error;
use crate::error::{Fault, StoreError};
use crate::json;
use crate::json::CanonicalJson;
use crate::snapshots;
use crate::snapshots::ProjectionWriteOutcome;
use crate::text;
use crate::text::{is_blank, join2, join3, same_text};
use crate::trading;
use crate::trading::FloatBits;

verus! {

/// What is left of the risk that may be taken, in percent.
#[derive(Debug, PartialEq, Eq)]
pub struct RiskCapacity {
    pub account_id: AccountId,
    pub strategy_id: StrategyId,
    pub observed_at: i64,
    pub daily_realized_loss_pct: FloatBits,
    pub equity_drawdown_pct: FloatBits,
    pub remaining_account_risk_pct: FloatBits,
    pub remaining_portfolio_risk_pct: FloatBits,
}

/// A capacity that is to be recorded.
#[derive(Debug, PartialEq, Eq)]
pub struct NewRiskCapacitySnapshot {
    pub capacity: RiskCapacity,
    pub recorded_at: i64,
}

/// A capacity that is recorded.
#[derive(Debug, PartialEq, Eq)]
pub struct StoredRiskCapacitySnapshot {
    pub capacity: RiskCapacity,
    pub payload: CanonicalJson,
    pub recorded_at: i64,
}

/// The columns of a recorded capacity, with what the domain reads from its
/// payload.
pub struct RiskCapacityRow {
    pub account_id: String,
    pub strategy_id: String,
    pub observed_at: i64,
    pub payload: JsonColumns,
    pub recorded_at: i64,
    pub capacity: Result<RiskCapacity, String>,
}

/// The key of a capacity.
pub open spec fn capacity_name(account_id: Seq<char>, strategy_id: Seq<char>) -> Seq<char> {
    account_id + ":"@ + strategy_id
}

/// The key of a capacity.
pub fn capacity_key(account_id: &AccountId, strategy_id: &StrategyId) -> (r: String)
    ensures
        r@ == capacity_name(account_id@, strategy_id@),
{
    join3(account_id.as_str(), ":", strategy_id.as_str())
}

/// A number is finite and not below zero. Zero itself may carry a sign.
pub open spec fn finite_non_negative(bits: FloatBits) -> bool {
    trading::finite(bits) && (bits < 0x8000_0000_0000_0000 || bits == 0x8000_0000_0000_0000)
}

/// What is wrong with one of the numbers.
pub open spec fn share_fault(key: Seq<char>, field: Seq<char>, bits: FloatBits) -> Option<Fault> {
    if finite_non_negative(bits) {
        None
    } else {
        Some(
            error::invalid_fault(
                "risk_capacity_snapshot"@,
                key,
                field + " must be finite and non-negative"@,
            ),
        )
    }
}

fn check_share(key: &str, field: &'static str, bits: FloatBits) -> (r: Result<(), StoreError>)
    ensures
        error::fault(r) == share_fault(key@, field@, bits),
{
    if !trading::is_finite(bits) || bits > 0x8000_0000_0000_0000 {
        let reason = join2(field, " must be finite and non-negative");
        return Err(StoreError::invalid("risk_capacity_snapshot", key, reason.as_str()));
    }
    Ok(())
}

/// What is wrong with a capacity.
pub open spec fn capacity_fault(capacity: RiskCapacity, recorded_at: i64) -> Option<Fault> {
    let key = capacity_name(capacity.account_id@, capacity.strategy_id@);
    let f = if text::blank(capacity.account_id@) || text::blank(capacity.strategy_id@) {
        Some(
            error::invalid_fault(
                "risk_capacity_snapshot"@,
                key,
                "account_id and strategy_id must not be empty"@,
            ),
        )
    } else if capacity.observed_at < 0 || recorded_at < capacity.observed_at {
        Some(
            error::invalid_fault(
                "risk_capacity_snapshot"@,
                key,
                "observed_at must be non-negative and not exceed recorded_at"@,
            ),
        )
    } else {
        None
    };
    let f = error::first_of(
        f,
        share_fault(key, "daily_realized_loss_pct"@, capacity.daily_realized_loss_pct),
    );
    let f = error::first_of(
        f,
        share_fault(key, "equity_drawdown_pct"@, capacity.equity_drawdown_pct),
    );
    let f = error::first_of(
        f,
        share_fault(key, "remaining_account_risk_pct"@, capacity.remaining_account_risk_pct),
    );
    error::first_of(
        f,
        share_fault(key, "remaining_portfolio_risk_pct"@, capacity.remaining_portfolio_risk_pct),
    )
}

/// Refuses a capacity that is not in order.
pub fn validate_capacity(capacity: &RiskCapacity, recorded_at: i64) -> (r: Result<(), StoreError>)
    ensures
        error::fault(r) == capacity_fault(*capacity, recorded_at),
{
    let key = capacity_key(&capacity.account_id, &capacity.strategy_id);
    if is_blank(capacity.account_id.as_str()) || is_blank(capacity.strategy_id.as_str()) {
        return Err(
            StoreError::invalid(
                "risk_capacity_snapshot",
                key.as_str(),
                "account_id and strategy_id must not be empty",
            ),
        );
    }
    if capacity.observed_at < 0 || recorded_at < capacity.observed_at {
        return Err(
            StoreError::invalid(
                "risk_capacity_snapshot",
                key.as_str(),
                "observed_at must be non-negative and not exceed recorded_at",
            ),
        );
    }
    check_share(key.as_str(), "daily_realized_loss_pct", capacity.daily_realized_loss_pct)?;
    check_share(key.as_str(), "equity_drawdown_pct", capacity.equity_drawdown_pct)?;
    check_share(
        key.as_str(),
        "remaining_account_risk_pct",
        capacity.remaining_account_risk_pct,
    )?;
    check_share(
        key.as_str(),
        "remaining_portfolio_risk_pct",
        capacity.remaining_portfolio_risk_pct,
    )
}

/// What is wrong with a recorded capacity.
pub open spec fn capacity_row_fault(entity: Seq<char>, row: RiskCapacityRow) -> Option<Fault> {
    let key = capacity_name(row.account_id@, row.strategy_id@);
    let f = json::stored_fault(entity, key, row.payload.text@, row.payload.digest@);
    error::first_of(
        f,
        match row.capacity {
            Err(error) => Some(error::corrupt_fault(entity, key, error@)),
            Ok(capacity) => match capacity_fault(capacity, row.recorded_at) {
                Some(fault) => Some(
                    error::corrupt_fault(entity, key, error::fault_message(fault)),
                ),
                None => if capacity.account_id@ == row.account_id@ && capacity.strategy_id@
                    == row.strategy_id@ && capacity.observed_at == row.observed_at {
                    None
                } else {
                    Some(
                        error::corrupt_fault(
                            entity,
                            key,
                            "payload identity does not match denormalized columns"@,
                        ),
                    )
                },
            },
        },
    )
}

/// Reads a recorded capacity.
pub fn decode_capacity_row(entity: &'static str, row: RiskCapacityRow) -> (r: Result<
    StoredRiskCapacitySnapshot,
    StoreError,
>)
    ensures
        error::fault(r) == capacity_row_fault(entity@, row),
        r matches Ok(stored) ==> {
            &&& row.capacity matches Ok(capacity) && stored.capacity == capacity
            &&& stored.payload@ == row.payload.text@
            &&& stored.recorded_at == row.recorded_at
        },
{
    let key = join3(row.account_id.as_str(), ":", row.strategy_id.as_str());
    let payload = CanonicalJson::from_stored(
        entity,
        key.as_str(),
        row.payload.text,
        row.payload.digest,
    )?;
    let capacity = match row.capacity {
        Ok(capacity) => capacity,
        Err(error) => {
            return Err(StoreError::corrupt(entity, key.as_str(), error.as_str()));
        },
    };
    if let Err(error) = validate_capacity(&capacity, row.recorded_at) {
        return Err(StoreError::corrupt(entity, key.as_str(), error.message().as_str()));
    }
    if !same_text(capacity.account_id.as_str(), row.account_id.as_str()) || !same_text(
        capacity.strategy_id.as_str(),
        row.strategy_id.as_str(),
    ) || capacity.observed_at != row.observed_at {
        return Err(
            StoreError::corrupt(
                entity,
                key.as_str(),
                "payload identity does not match denormalized columns",
            ),
        );
    }
    Ok(StoredRiskCapacitySnapshot { capacity, payload, recorded_at: row.recorded_at })
}

/// What recording a capacity comes to.
pub struct CapacityWrite {
    pub outcome: ProjectionWriteOutcome,
    /// The capacity is the newest one from now on.
    pub becomes_latest: bool,
}

/// The fault of a capacity that contradicts another for the same time.
pub open spec fn capacity_conflict(capacity: RiskCapacity) -> Fault {
    snapshots::observation_conflict(
        "risk_capacity_snapshot"@,
        capacity_name(capacity.account_id@, capacity.strategy_id@),
        capacity.observed_at,
    )
}

/// What is wrong with recording a capacity beside one for the same time, and
/// beside the newest one.
pub open spec fn record_fault(
    snapshot: NewRiskCapacitySnapshot,
    payload: Seq<char>,
    existing: Option<StoredRiskCapacitySnapshot>,
    latest: Option<StoredRiskCapacitySnapshot>,
) -> Option<Fault> {
    error::first_of(
        capacity_fault(snapshot.capacity, snapshot.recorded_at),
        match existing {
            Some(fact) => if fact.payload@ != payload || fact.recorded_at != snapshot.recorded_at {
                Some(capacity_conflict(snapshot.capacity))
            } else {
                None
            },
            None => if latest matches Some(newest) && newest.capacity.observed_at
                == snapshot.capacity.observed_at && newest.payload@ != payload {
                Some(capacity_conflict(snapshot.capacity))
            } else {
                None
            },
        },
    )
}

/// What recording a capacity comes to beside one for the same time, and beside
/// the newest one.
pub open spec fn record_outcome(
    snapshot: NewRiskCapacitySnapshot,
    existing: Option<StoredRiskCapacitySnapshot>,
    latest: Option<StoredRiskCapacitySnapshot>,
) -> ProjectionWriteOutcome {
    if existing is Some {
        ProjectionWriteOutcome::Duplicate
    } else {
        match latest {
            None => ProjectionWriteOutcome::Applied,
            Some(newest) => if newest.capacity.observed_at < snapshot.capacity.observed_at {
                ProjectionWriteOutcome::Applied
            } else if newest.capacity.observed_at > snapshot.capacity.observed_at {
                ProjectionWriteOutcome::FactAppendedProjectionIgnored
            } else {
                ProjectionWriteOutcome::FactAppendedProjectionUnchanged
            },
        }
    }
}

/// The capacity is newer than the newest one.
pub open spec fn overtakes(
    snapshot: NewRiskCapacitySnapshot,
    latest: Option<StoredRiskCapacitySnapshot>,
) -> bool {
    latest matches Some(newest) ==> newest.capacity.observed_at < snapshot.capacity.observed_at
}

/// Decides about a capacity that is to be recorded. `payload` is its canonical
/// form, `existing` what is recorded for the same account, strategy and time,
/// and `latest` the newest one of that account and strategy.
pub fn record_risk_capacity_snapshot(
    snapshot: &NewRiskCapacitySnapshot,
    payload: &CanonicalJson,
    existing: &Option<StoredRiskCapacitySnapshot>,
    latest: &Option<StoredRiskCapacitySnapshot>,
) -> (r: Result<CapacityWrite, StoreError>)
    ensures
        error::fault(r) == record_fault(*snapshot, payload@, *existing, *latest),
        r matches Ok(write) ==> write.outcome == record_outcome(*snapshot, *existing, *latest)
            && write.becomes_latest == overtakes(*snapshot, *latest),
{
    let capacity = &snapshot.capacity;
    validate_capacity(capacity, snapshot.recorded_at)?;
    let key = capacity_key(&capacity.account_id, &capacity.strategy_id);
    let becomes_latest = match latest {
        Some(newest) => newest.capacity.observed_at < capacity.observed_at,
        None => true,
    };
    if let Some(fact) = existing {
        if !fact.payload.same(payload) || fact.recorded_at != snapshot.recorded_at {
            return Err(
                StoreError::ObservationConflict {
                    entity: "risk_capacity_snapshot",
                    key,
                    observed_at: capacity.observed_at,
                },
            );
        }
        return Ok(CapacityWrite { outcome: ProjectionWriteOutcome::Duplicate, becomes_latest });
    }
    let outcome = match latest {
        None => ProjectionWriteOutcome::Applied,
        Some(newest) => {
            if newest.capacity.observed_at < capacity.observed_at {
                ProjectionWriteOutcome::Applied
            } else if newest.capacity.observed_at > capacity.observed_at {
                ProjectionWriteOutcome::FactAppendedProjectionIgnored
            } else if newest.payload.same(payload) {
                ProjectionWriteOutcome::FactAppendedProjectionUnchanged
            } else {
                return Err(
                    StoreError::ObservationConflict {
                        entity: "risk_capacity_snapshot",
                        key,
                        observed_at: capacity.observed_at,
                    },
                );
            }
        },
    };
    Ok(CapacityWrite { outcome, becomes_latest })
}

/// A capacity that was recorded is known when it comes again.
pub proof fn recorded_capacity_is_known(
    snapshot: NewRiskCapacitySnapshot,
    stored: StoredRiskCapacitySnapshot,
    latest: Option<StoredRiskCapacitySnapshot>,
)
    requires
        capacity_fault(snapshot.capacity, snapshot.recorded_at) is None,
        stored.capacity == snapshot.capacity,
        stored.recorded_at == snapshot.recorded_at,
    ensures
        record_fault(snapshot, stored.payload@, Some(stored), latest) is None,
        record_outcome(snapshot, Some(stored), latest) is Duplicate,
{
}

/// A capacity is recorded if it names its account and strategy, was not observed
/// after it was recorded, and all its shares are numbers that are finite and not
/// negative.
pub proof fn recorded_capacities_are_sound(capacity: RiskCapacity, recorded_at: i64)
    ensures
        capacity_fault(capacity, recorded_at) is None <==> {
            &&& !text::blank(capacity.account_id@)
            &&& !text::blank(capacity.strategy_id@)
            &&& 0 <= capacity.observed_at <= recorded_at
            &&& trading::finite(capacity.daily_realized_loss_pct)
                && capacity.daily_realized_loss_pct <= 0x8000_0000_0000_0000
            &&& trading::finite(capacity.equity_drawdown_pct) && capacity.equity_drawdown_pct
                <= 0x8000_0000_0000_0000
            &&& trading::finite(capacity.remaining_account_risk_pct)
                && capacity.remaining_account_risk_pct <= 0x8000_0000_0000_0000
            &&& trading::finite(capacity.remaining_portfolio_risk_pct)
                && capacity.remaining_portfolio_risk_pct <= 0x8000_0000_0000_0000
        },
{
}

/// A capacity takes the place of the latest only if it is newer; if it was
/// recorded before it changes nothing, and it must then be the same.
pub proof fn newer_capacities_win(
    snapshot: NewRiskCapacitySnapshot,
    payload: Seq<char>,
    existing: Option<StoredRiskCapacitySnapshot>,
    latest: Option<StoredRiskCapacitySnapshot>,
)
    ensures
        existing is Some ==> record_outcome(snapshot, existing, latest) is Duplicate,
        existing is None && latest is None ==> record_outcome(snapshot, existing, latest)
            is Applied,
        existing is None && latest is Some && (latest->0).capacity.observed_at
            < snapshot.capacity.observed_at ==> record_outcome(snapshot, existing, latest)
            is Applied,
        existing is None && latest is Some && (latest->0).capacity.observed_at
            > snapshot.capacity.observed_at ==> record_outcome(snapshot, existing, latest)
            is FactAppendedProjectionIgnored,
        existing is None && latest is Some && (latest->0).capacity.observed_at
            == snapshot.capacity.observed_at ==> record_outcome(snapshot, existing, latest)
            is FactAppendedProjectionUnchanged,
        overtakes(snapshot, latest) <==> latest is None || (latest->0).capacity.observed_at
            < snapshot.capacity.observed_at,
        record_fault(snapshot, payload, existing, latest) is None <==> {
            &&& capacity_fault(snapshot.capacity, snapshot.recorded_at) is None
            &&& existing is Some ==> (existing->0).payload@ == payload && (existing->0).recorded_at
                == snapshot.recorded_at
            &&& existing is None && latest is Some && (latest->0).capacity.observed_at
                == snapshot.capacity.observed_at ==> (latest->0).payload@ == payload
        },
{
}

/// A stored capacity is read if it is intact, sound, and the one that its columns
/// speak of.
pub proof fn read_capacities_are_sound(entity: Seq<char>, row: RiskCapacityRow)
    requires
        capacity_row_fault(entity, row) is None,
    ensures
        row.capacity is Ok,
        ({
            let capacity = row.capacity->Ok_0;
            &&& capacity.account_id@ == row.account_id@
            &&& capacity.strategy_id@ == row.strategy_id@
            &&& capacity.observed_at == row.observed_at
            &&& 0 <= capacity.observed_at <= row.recorded_at
            &&& json::stored_fault(
                entity,
                row.account_id@ + ":"@ + row.strategy_id@,
                row.payload.text@,
                row.payload.digest@,
            ) is None
        }),
{
}

}
