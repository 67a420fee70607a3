//! Changing a plan and some of its legs at once.

use vstd::prelude::*;
use vstd::string::*;

use crate::error;
use crate::error::{Fault, StoreError};
use crate::plans;
use crate::plans::{collect_failed, collect_filled, find_stored_leg, set_leg_state};
use crate::text;
use crate::text::{join2, join3, same_list, same_text};
use crate::trading::{
    ExecutionLeg, ExecutionLifecycleUpdate, ExecutionPlan, ExecutionPlanState, LegStateUpdate,
    StoredExecutionLeg, StoredExecutionPlan,
};

verus! {

/// The names of the legs that a change touches.
pub open spec fn update_ids(legs: Seq<LegStateUpdate>) -> Seq<Seq<char>> {
    Seq::new(legs.len(), |i: int| legs[i].leg_id@)
}

/// The fault of a change that makes no sense by itself.
pub open spec fn shape_invalid(plan_id: Seq<char>, reason: Seq<char>) -> Fault {
    error::invalid_fault("execution_lifecycle"@, plans::plan_key(plan_id), reason)
}

/// What is wrong with the legs that a change touches: each belongs to the plan,
/// and none is touched twice.
pub open spec fn legs_shape_fault(plan_id: Seq<char>, legs: Seq<LegStateUpdate>) -> Option<Fault>
    decreases legs.len(),
{
    if legs.len() == 0 {
        None
    } else {
        let last = legs.last();
        error::first_of(
            legs_shape_fault(plan_id, legs.drop_last()),
            if last.plan_id@ != plan_id {
                Some(
                    shape_invalid(plan_id, "leg "@ + last.leg_id@ + " belongs to another plan"@),
                )
            } else if update_ids(legs.drop_last()).contains(last.leg_id@) {
                Some(shape_invalid(plan_id, "duplicate leg update for "@ + last.leg_id@))
            } else {
                None
            },
        )
    }
}

/// What is wrong with a change by itself.
pub open spec fn shape_fault(update: ExecutionLifecycleUpdate) -> Option<Fault> {
    if update.legs@.len() == 0 {
        Some(shape_invalid(update.plan.plan_id@, "at least one leg update is required"@))
    } else {
        legs_shape_fault(update.plan.plan_id@, update.legs@)
    }
}

proof fn legs_shape_fault_of_prefix(plan_id: Seq<char>, legs: Seq<LegStateUpdate>, n: int)
    requires
        0 <= n <= legs.len(),
        legs_shape_fault(plan_id, legs.take(n)) is Some,
    ensures
        legs_shape_fault(plan_id, legs) == legs_shape_fault(plan_id, legs.take(n)),
    decreases legs.len(),
{
    if n < legs.len() {
        assert(legs.drop_last().take(n) =~= legs.take(n));
        legs_shape_fault_of_prefix(plan_id, legs.drop_last(), n);
    } else {
        assert(legs.take(n) =~= legs);
    }
}

fn names_earlier(legs: &Vec<LegStateUpdate>, n: usize, leg_id: &str) -> (r: bool)
    requires
        n <= legs.len(),
    ensures
        r == update_ids(legs@.take(n as int)).contains(leg_id@),
{
    let ghost earlier = update_ids(legs@.take(n as int));
    let mut i: usize = 0;
    while i < n
        invariant
            i <= n <= legs.len(),
            earlier == update_ids(legs@.take(n as int)),
            forall|j: int| 0 <= j < i ==> earlier[j] != leg_id@,
        decreases n - i,
    {
        if same_text(legs[i].leg_id.as_str(), leg_id) {
            assert(earlier[i as int] == leg_id@);
            return true;
        }
        i = i + 1;
    }
    false
}

/// Refuses a change that makes no sense by itself.
pub fn validate_execution_lifecycle_update_shape(update: &ExecutionLifecycleUpdate) -> (r: Result<
    (),
    StoreError,
>)
    ensures
        error::fault(r) == shape_fault(*update),
{
    let key = join2("plan_id=", update.plan.plan_id.as_str());
    if update.legs.len() == 0 {
        return Err(
            StoreError::invalid(
                "execution_lifecycle",
                key.as_str(),
                "at least one leg update is required",
            ),
        );
    }
    let ghost plan_id = update.plan.plan_id@;
    let ghost all = update.legs@;
    let mut i: usize = 0;
    while i < update.legs.len()
        invariant
            i <= update.legs.len(),
            all == update.legs@,
            all.len() > 0,
            plan_id == update.plan.plan_id@,
            key@ == plans::plan_key(plan_id),
            legs_shape_fault(plan_id, all.take(i as int)) is None,
        decreases update.legs.len() - i,
    {
        let ghost longer = all.take(i + 1);
        assert(longer.drop_last() =~= all.take(i as int));
        let leg = &update.legs[i];
        if !same_text(leg.plan_id.as_str(), update.plan.plan_id.as_str()) {
            let reason = join3("leg ", leg.leg_id.as_str(), " belongs to another plan");
            proof {
                legs_shape_fault_of_prefix(plan_id, all, i + 1);
            }
            return Err(
                StoreError::invalid("execution_lifecycle", key.as_str(), reason.as_str()),
            );
        }
        if names_earlier(&update.legs, i, leg.leg_id.as_str()) {
            let reason = join2("duplicate leg update for ", leg.leg_id.as_str());
            proof {
                legs_shape_fault_of_prefix(plan_id, all, i + 1);
            }
            return Err(
                StoreError::invalid("execution_lifecycle", key.as_str(), reason.as_str()),
            );
        }
        i = i + 1;
    }
    assert(all.take(i as int) =~= all);
    Ok(())
}

/// The stored leg is in the state into which a change puts it.
pub open spec fn leg_already(stored: Seq<StoredExecutionLeg>, leg: LegStateUpdate) -> bool {
    let at = text::first_index(plans::stored_leg_ids(stored), leg.leg_id@) as int;
    &&& at < stored.len()
    &&& stored[at].plan_id@ == leg.plan_id@
    &&& stored[at].leg.state.status@ == leg.state.status@
    &&& stored[at].updated_at == leg.updated_at
}

/// The change was made before.
pub open spec fn already_made(
    current: StoredExecutionPlan,
    stored: Seq<StoredExecutionLeg>,
    update: ExecutionLifecycleUpdate,
) -> bool {
    &&& plans::same_plan_state(current.plan.state, update.plan.state)
    &&& current.updated_at == update.plan.updated_at
    &&& forall|i: int| 0 <= i < update.legs@.len() ==> leg_already(stored, #[trigger] update.legs@[i])
}

fn is_already_made(
    current: &StoredExecutionPlan,
    stored: &Vec<StoredExecutionLeg>,
    update: &ExecutionLifecycleUpdate,
) -> (r: bool)
    ensures
        r == already_made(*current, stored@, *update),
{
    if !same_text(current.plan.state.status.as_str(), update.plan.state.status.as_str())
        || !same_list(&current.plan.state.filled_legs, &update.plan.state.filled_legs)
        || !same_list(&current.plan.state.failed_legs, &update.plan.state.failed_legs)
        || current.updated_at != update.plan.updated_at {
        return false;
    }
    let mut i: usize = 0;
    while i < update.legs.len()
        invariant
            i <= update.legs.len(),
            forall|j: int| 0 <= j < i ==> leg_already(stored@, #[trigger] update.legs@[j]),
        decreases update.legs.len() - i,
    {
        let leg = &update.legs[i];
        let at: usize = find_stored_leg(stored, leg.leg_id.as_str());
        if at >= stored.len() || !same_text(stored[at].plan_id.as_str(), leg.plan_id.as_str())
            || !same_text(stored[at].leg.state.status.as_str(), leg.state.status.as_str())
            || stored[at].updated_at != leg.updated_at {
            assert(!leg_already(stored@, update.legs@[i as int]));
            return false;
        }
        i = i + 1;
    }
    true
}

/// What is wrong with the change of one leg.
pub open spec fn leg_change_fault(stored: Seq<StoredExecutionLeg>, leg: LegStateUpdate) -> Option<
    Fault,
> {
    let key = plans::leg_key(leg.leg_id@);
    let at = text::first_index(plans::stored_leg_ids(stored), leg.leg_id@) as int;
    if at >= stored.len() {
        Some(error::missing_fault("execution_leg"@, key))
    } else if stored[at].plan_id@ != leg.plan_id@ {
        Some(error::conflict_fault("execution_lifecycle"@, key))
    } else if !plans::expected_state(
        stored[at].leg.state.status@,
        stored[at].updated_at,
        leg.expected_status@,
        leg.expected_updated_at,
        leg.updated_at,
    ) {
        Some(error::stale_fault("execution_lifecycle"@, key))
    } else {
        None
    }
}

/// What is wrong with the changes of the legs, in their order.
pub open spec fn leg_changes_fault(
    stored: Seq<StoredExecutionLeg>,
    legs: Seq<LegStateUpdate>,
) -> Option<Fault>
    decreases legs.len(),
{
    if legs.len() == 0 {
        None
    } else {
        error::first_of(
            leg_changes_fault(stored, legs.drop_last()),
            leg_change_fault(stored, legs.last()),
        )
    }
}

proof fn leg_changes_fault_of_prefix(
    stored: Seq<StoredExecutionLeg>,
    legs: Seq<LegStateUpdate>,
    n: int,
)
    requires
        0 <= n <= legs.len(),
        leg_changes_fault(stored, legs.take(n)) is Some,
    ensures
        leg_changes_fault(stored, legs) == leg_changes_fault(stored, legs.take(n)),
    decreases legs.len(),
{
    if n < legs.len() {
        assert(legs.drop_last().take(n) =~= legs.take(n));
        leg_changes_fault_of_prefix(stored, legs.drop_last(), n);
    } else {
        assert(legs.take(n) =~= legs);
    }
}

/// The legs of a plan, once all changes are made.
pub open spec fn projected(legs: Seq<ExecutionLeg>, updates: Seq<LegStateUpdate>) -> Seq<
    ExecutionLeg,
>
    decreases updates.len(),
{
    if updates.len() == 0 {
        legs
    } else {
        plans::with_leg_state(
            projected(legs, updates.drop_last()),
            updates.last().leg_id@,
            updates.last().state,
        )
    }
}

/// What is wrong with making the changes: the plan lacks a leg.
pub open spec fn projection_fault(
    plan_id: Seq<char>,
    legs: Seq<ExecutionLeg>,
    updates: Seq<LegStateUpdate>,
) -> Option<Fault>
    decreases updates.len(),
{
    if updates.len() == 0 {
        None
    } else {
        error::first_of(
            projection_fault(plan_id, legs, updates.drop_last()),
            if text::first_index(plans::leg_ids(legs), updates.last().leg_id@) < legs.len() {
                None
            } else {
                Some(
                    error::corrupt_fault(
                        "execution_plan"@,
                        plan_id,
                        "plan journal is missing leg "@ + updates.last().leg_id@,
                    ),
                )
            },
        )
    }
}

proof fn projection_fault_of_prefix(
    plan_id: Seq<char>,
    legs: Seq<ExecutionLeg>,
    updates: Seq<LegStateUpdate>,
    n: int,
)
    requires
        0 <= n <= updates.len(),
        projection_fault(plan_id, legs, updates.take(n)) is Some,
    ensures
        projection_fault(plan_id, legs, updates) == projection_fault(
            plan_id,
            legs,
            updates.take(n),
        ),
    decreases updates.len(),
{
    if n < updates.len() {
        assert(updates.drop_last().take(n) =~= updates.take(n));
        projection_fault_of_prefix(plan_id, legs, updates.drop_last(), n);
    } else {
        assert(updates.take(n) =~= updates);
    }
}

/// Changing states adds and removes no leg and renames none.
pub proof fn projection_keeps_legs(legs: Seq<ExecutionLeg>, updates: Seq<LegStateUpdate>)
    ensures
        projected(legs, updates).len() == legs.len(),
        plans::leg_ids(projected(legs, updates)) == plans::leg_ids(legs),
        forall|i: int|
            0 <= i < legs.len() ==> (#[trigger] projected(legs, updates)[i]).definition
                == legs[i].definition,
    decreases updates.len(),
{
    if updates.len() > 0 {
        projection_keeps_legs(legs, updates.drop_last());
    }
    assert(plans::leg_ids(projected(legs, updates)) =~= plans::leg_ids(legs));
}

/// What is wrong with a change, before the domain is asked.
pub open spec fn proposal_fault(
    current: StoredExecutionPlan,
    stored: Seq<StoredExecutionLeg>,
    update: ExecutionLifecycleUpdate,
) -> Option<Fault> {
    let plan_id = update.plan.plan_id@;
    if already_made(current, stored, update) {
        None
    } else if !plans::expected_state(
        current.plan.state.status@,
        current.updated_at,
        update.plan.expected_status@,
        update.plan.expected_updated_at,
        update.plan.updated_at,
    ) {
        Some(error::stale_fault("execution_lifecycle"@, plans::plan_key(plan_id)))
    } else {
        error::first_of(
            leg_changes_fault(stored, update.legs@),
            projection_fault(plan_id, current.plan.legs@, update.legs@),
        )
    }
}

/// What a change amounts to.
pub enum LifecycleProposal {
    /// It was made before.
    Replayed,
    /// The legs as they will stand.
    Proposed(Vec<ExecutionLeg>),
}

fn copy_legs(legs: &Vec<ExecutionLeg>) -> (r: Vec<ExecutionLeg>)
    ensures
        r@ == legs@,
{
    let mut out: Vec<ExecutionLeg> = Vec::new();
    let mut i: usize = 0;
    while i < legs.len()
        invariant
            i <= legs.len(),
            out@ == legs@.take(i as int),
        decreases legs.len() - i,
    {
        out.push(legs[i].clone());
        i = i + 1;
        assert(out@ =~= legs@.take(i as int));
    }
    assert(out@ =~= legs@);
    out
}

fn check_leg_changes(stored: &Vec<StoredExecutionLeg>, legs: &Vec<LegStateUpdate>) -> (r: Result<
    (),
    StoreError,
>)
    ensures
        error::fault(r) == leg_changes_fault(stored@, legs@),
{
    let mut i: usize = 0;
    while i < legs.len()
        invariant
            i <= legs.len(),
            leg_changes_fault(stored@, legs@.take(i as int)) is None,
        decreases legs.len() - i,
    {
        let ghost longer = legs@.take(i + 1);
        assert(longer.drop_last() =~= legs@.take(i as int));
        let leg = &legs[i];
        let key = join2("leg_id=", leg.leg_id.as_str());
        let at: usize = find_stored_leg(stored, leg.leg_id.as_str());
        if at >= stored.len() {
            proof {
                leg_changes_fault_of_prefix(stored@, legs@, i + 1);
            }
            return Err(StoreError::missing("execution_leg", key.as_str()));
        }
        let found = &stored[at];
        if !same_text(found.plan_id.as_str(), leg.plan_id.as_str()) {
            proof {
                leg_changes_fault_of_prefix(stored@, legs@, i + 1);
            }
            return Err(StoreError::conflict("execution_lifecycle", key.as_str()));
        }
        if !(same_text(found.leg.state.status.as_str(), leg.expected_status.as_str())
            && found.updated_at == leg.expected_updated_at && found.updated_at < leg.updated_at) {
            proof {
                leg_changes_fault_of_prefix(stored@, legs@, i + 1);
            }
            return Err(StoreError::stale("execution_lifecycle", key.as_str()));
        }
        i = i + 1;
    }
    assert(legs@.take(i as int) =~= legs@);
    Ok(())
}

/// Works out what a change to a plan and its legs amounts to. `stored` holds
/// the legs of the plan as they are stored.
pub fn propose_execution_lifecycle(
    current: &StoredExecutionPlan,
    stored: &Vec<StoredExecutionLeg>,
    update: &ExecutionLifecycleUpdate,
) -> (r: Result<LifecycleProposal, StoreError>)
    ensures
        error::fault(r) == proposal_fault(*current, stored@, *update),
        r matches Ok(LifecycleProposal::Replayed) ==> already_made(*current, stored@, *update),
        r matches Ok(LifecycleProposal::Proposed(legs)) ==> !already_made(
            *current,
            stored@,
            *update,
        ) && legs@ == projected(current.plan.legs@, update.legs@),
{
    if is_already_made(current, stored, update) {
        return Ok(LifecycleProposal::Replayed);
    }
    if !(same_text(current.plan.state.status.as_str(), update.plan.expected_status.as_str())
        && current.updated_at == update.plan.expected_updated_at && current.updated_at
        < update.plan.updated_at) {
        let key = join2("plan_id=", update.plan.plan_id.as_str());
        return Err(StoreError::stale("execution_lifecycle", key.as_str()));
    }
    check_leg_changes(stored, &update.legs)?;
    let ghost plan_id = update.plan.plan_id@;
    let ghost before = current.plan.legs@;
    let mut legs = copy_legs(&current.plan.legs);
    let mut i: usize = 0;
    while i < update.legs.len()
        invariant
            i <= update.legs.len(),
            before == current.plan.legs@,
            plan_id == update.plan.plan_id@,
            legs@ == projected(before, update.legs@.take(i as int)),
            projection_fault(plan_id, before, update.legs@.take(i as int)) is None,
            proposal_fault(*current, stored@, *update) == projection_fault(
                plan_id,
                before,
                update.legs@,
            ),
        decreases update.legs.len() - i,
    {
        let ghost longer = update.legs@.take(i + 1);
        assert(longer.drop_last() =~= update.legs@.take(i as int));
        proof {
            projection_keeps_legs(before, update.legs@.take(i as int));
        }
        let change = &update.legs[i];
        if !set_leg_state(&mut legs, change.leg_id.as_str(), change.state.clone()) {
            proof {
                projection_fault_of_prefix(plan_id, before, update.legs@, i + 1);
            }
            let reason = join2("plan journal is missing leg ", change.leg_id.as_str());
            return Err(
                StoreError::corrupt(
                    "execution_plan",
                    update.plan.plan_id.as_str(),
                    reason.as_str(),
                ),
            );
        }
        i = i + 1;
    }
    assert(update.legs@.take(i as int) =~= update.legs@);
    Ok(LifecycleProposal::Proposed(legs))
}

/// Some leg will be newer than the plan: one that changes, or one that stays.
pub open spec fn behind_a_leg(
    stored: Seq<StoredExecutionLeg>,
    update: ExecutionLifecycleUpdate,
) -> bool {
    ||| exists|i: int|
        0 <= i < update.legs@.len() && update.plan.updated_at < (
        #[trigger] update.legs@[i]).updated_at
    ||| exists|i: int|
        0 <= i < stored.len() && update.plan.updated_at < (#[trigger] stored[i]).updated_at
            && !update_ids(update.legs@).contains(stored[i].leg.definition.leg_id@)
}

fn is_behind_a_leg(stored: &Vec<StoredExecutionLeg>, update: &ExecutionLifecycleUpdate) -> (r: bool)
    ensures
        r == behind_a_leg(stored@, *update),
{
    let mut i: usize = 0;
    while i < update.legs.len()
        invariant
            i <= update.legs.len(),
            forall|j: int|
                0 <= j < i ==> update.plan.updated_at >= (
                #[trigger] update.legs@[j]).updated_at,
        decreases update.legs.len() - i,
    {
        if update.plan.updated_at < update.legs[i].updated_at {
            return true;
        }
        i = i + 1;
    }
    let mut k: usize = 0;
    while k < stored.len()
        invariant
            k <= stored.len(),
            forall|j: int|
                0 <= j < update.legs@.len() ==> update.plan.updated_at >= (
                #[trigger] update.legs@[j]).updated_at,
            forall|j: int|
                0 <= j < k ==> !(update.plan.updated_at < (#[trigger] stored@[j]).updated_at
                    && !update_ids(update.legs@).contains(stored@[j].leg.definition.leg_id@)),
        decreases stored.len() - k,
    {
        if update.plan.updated_at < stored[k].updated_at {
            let changes = names_earlier(
                &update.legs,
                update.legs.len(),
                stored[k].leg.definition.leg_id.as_str(),
            );
            assert(update.legs@.take(update.legs@.len() as int) =~= update.legs@);
            if !changes {
                return true;
            }
        }
        k = k + 1;
    }
    false
}

/// What is wrong with a change once the domain is asked. `verdict` is what the
/// domain objects to in the plan as it will stand.
pub open spec fn lifecycle_fault(
    current: StoredExecutionPlan,
    stored: Seq<StoredExecutionLeg>,
    update: ExecutionLifecycleUpdate,
    verdict: Option<String>,
) -> Option<Fault> {
    let key = plans::plan_key(update.plan.plan_id@);
    if verdict is Some {
        Some(error::invalid_fault("execution_lifecycle"@, key, verdict->0@))
    } else if (update.legs@.len() == 0 && stored.len() == 0 && update.plan.updated_at
        < current.created_at) || behind_a_leg(stored, update) {
        Some(
            error::invalid_fault(
                "execution_lifecycle"@,
                key,
                "plan updated_at must not precede any final leg projection"@,
            ),
        )
    } else {
        None
    }
}

/// Changes a plan and its legs at once. `legs` are the legs as they will stand,
/// which [`propose_execution_lifecycle`] worked out.
pub fn update_execution_lifecycle(
    current: StoredExecutionPlan,
    stored: &Vec<StoredExecutionLeg>,
    update: &ExecutionLifecycleUpdate,
    legs: Vec<ExecutionLeg>,
    verdict: &Option<String>,
) -> (r: Result<StoredExecutionPlan, StoreError>)
    ensures
        error::fault(r) == lifecycle_fault(current, stored@, *update, *verdict),
        r matches Ok(next) ==> {
            &&& next.plan.definition == current.plan.definition
            &&& next.plan.legs@ == legs@
            &&& next.plan.state.status == update.plan.state.status
            &&& text::texts(next.plan.state.filled_legs@) == plans::filled_ids(legs@)
            &&& text::texts(next.plan.state.failed_legs@) == plans::failed_ids(legs@)
            &&& next.risk_id == current.risk_id
            &&& next.intent_id == current.intent_id
            &&& next.payload == current.payload
            &&& next.created_at == current.created_at
            &&& next.updated_at == update.plan.updated_at
        },
{
    if let Some(objection) = verdict {
        let key = join2("plan_id=", update.plan.plan_id.as_str());
        return Err(StoreError::invalid("execution_lifecycle", key.as_str(), objection.as_str()));
    }
    if (update.legs.len() == 0 && stored.len() == 0 && update.plan.updated_at
        < current.created_at) || is_behind_a_leg(stored, update) {
        let key = join2("plan_id=", update.plan.plan_id.as_str());
        return Err(
            StoreError::invalid(
                "execution_lifecycle",
                key.as_str(),
                "plan updated_at must not precede any final leg projection",
            ),
        );
    }
    let filled_legs = collect_filled(&legs);
    let failed_legs = collect_failed(&legs);
    Ok(
        StoredExecutionPlan {
            plan: ExecutionPlan {
                definition: current.plan.definition,
                legs,
                state: ExecutionPlanState {
                    status: update.plan.state.status.clone(),
                    filled_legs,
                    failed_legs,
                },
            },
            risk_id: current.risk_id,
            intent_id: current.intent_id,
            payload: current.payload,
            created_at: current.created_at,
            updated_at: update.plan.updated_at,
        },
    )
}

/// The states of a plan only go forward in time: a change that is accepted is
/// dated after the state that it replaces, and no leg is newer than the plan.
pub proof fn lifecycle_goes_forward(
    current: StoredExecutionPlan,
    stored: Seq<StoredExecutionLeg>,
    update: ExecutionLifecycleUpdate,
    verdict: Option<String>,
)
    requires
        shape_fault(update) is None,
        !already_made(current, stored, update),
        proposal_fault(current, stored, update) is None,
        lifecycle_fault(current, stored, update, verdict) is None,
    ensures
        current.updated_at < update.plan.updated_at,
        forall|i: int|
            0 <= i < update.legs@.len() ==> (#[trigger] update.legs@[i]).updated_at
                <= update.plan.updated_at,
{
}

/// After a change of a plan and its legs the plan lists each of its legs that
/// was rejected or failed among the failed, each that is filled among the
/// filled, and no others.
pub proof fn changed_plans_report_their_legs(
    legs: Seq<ExecutionLeg>,
    next: StoredExecutionPlan,
    leg_id: Seq<char>,
)
    requires
        next.plan.legs@ == legs,
        text::texts(next.plan.state.filled_legs@) == plans::filled_ids(legs),
        text::texts(next.plan.state.failed_legs@) == plans::failed_ids(legs),
    ensures
        text::texts(next.plan.state.failed_legs@).contains(leg_id) <==> exists|i: int|
            0 <= i < legs.len() && (#[trigger] legs[i]).definition.leg_id@ == leg_id && (
            legs[i].state.status@ == "REJECTED"@ || legs[i].state.status@ == "FAILED"@),
        text::texts(next.plan.state.filled_legs@).contains(leg_id) <==> exists|i: int|
            0 <= i < legs.len() && (#[trigger] legs[i]).definition.leg_id@ == leg_id
                && legs[i].state.status@ == "FILLED"@,
{
    plans::failed_legs_have_failed(legs, leg_id);
    plans::filled_legs_are_filled(legs, leg_id);
}

/// A change names at least one leg, each of its plan and none twice.
pub proof fn changes_touch_each_leg_once(update: ExecutionLifecycleUpdate)
    requires
        shape_fault(update) is None,
    ensures
        update.legs@.len() > 0,
        forall|i: int|
            0 <= i < update.legs@.len() ==> (#[trigger] update.legs@[i]).plan_id@
                == update.plan.plan_id@,
        forall|i: int, j: int|
            0 <= i < j < update.legs@.len() ==> (#[trigger] update.legs@[i]).leg_id@ != (
            #[trigger] update.legs@[j]).leg_id@,
{
    assert forall|i: int| 0 <= i < update.legs@.len() implies (
    #[trigger] update.legs@[i]).plan_id@ == update.plan.plan_id@ by {
        touched_leg_is_sound(update.plan.plan_id@, update.legs@, i, i);
    }
    assert forall|i: int, j: int| 0 <= i < j < update.legs@.len() implies (
    #[trigger] update.legs@[i]).leg_id@ != (#[trigger] update.legs@[j]).leg_id@ by {
        touched_leg_is_sound(update.plan.plan_id@, update.legs@, i, j);
    }
}

proof fn touched_leg_is_sound(plan_id: Seq<char>, legs: Seq<LegStateUpdate>, i: int, j: int)
    requires
        0 <= i <= j < legs.len(),
        legs_shape_fault(plan_id, legs) is None,
    ensures
        legs[i].plan_id@ == plan_id,
        i < j ==> legs[i].leg_id@ != legs[j].leg_id@,
    decreases legs.len(),
{
    let shorter = legs.drop_last();
    if j < legs.len() - 1 {
        assert(shorter[i] == legs[i]);
        assert(shorter[j] == legs[j]);
        touched_leg_is_sound(plan_id, shorter, i, j);
    } else if i < j {
        assert(shorter[i] == legs[i]);
        touched_leg_is_sound(plan_id, shorter, i, i);
        assert(update_ids(shorter)[i] == legs[i].leg_id@);
    }
}

proof fn every_leg_change_is_expected(
    stored: Seq<StoredExecutionLeg>,
    legs: Seq<LegStateUpdate>,
    i: int,
)
    requires
        0 <= i < legs.len(),
        leg_changes_fault(stored, legs) is None,
    ensures
        leg_change_fault(stored, legs[i]) is None,
    decreases legs.len(),
{
    if i < legs.len() - 1 {
        assert(legs.drop_last()[i] == legs[i]);
        every_leg_change_is_expected(stored, legs.drop_last(), i);
    }
}

/// A change that was not made before is made only from where it expects the plan
/// and each of its legs to be, and only forward.
pub proof fn changes_start_where_they_expect(
    current: StoredExecutionPlan,
    stored: Seq<StoredExecutionLeg>,
    update: ExecutionLifecycleUpdate,
    i: int,
)
    requires
        proposal_fault(current, stored, update) is None,
        !already_made(current, stored, update),
        0 <= i < update.legs@.len(),
    ensures
        current.plan.state.status@ == update.plan.expected_status@,
        current.updated_at == update.plan.expected_updated_at,
        current.updated_at < update.plan.updated_at,
        exists|k: int| {
            let leg = #[trigger] stored[k];
            &&& 0 <= k < stored.len()
            &&& leg.leg.definition.leg_id@ == update.legs@[i].leg_id@
            &&& leg.plan_id@ == update.legs@[i].plan_id@
            &&& leg.leg.state.status@ == update.legs@[i].expected_status@
            &&& leg.updated_at == update.legs@[i].expected_updated_at
            &&& leg.updated_at < update.legs@[i].updated_at
        },
{
    every_leg_change_is_expected(stored, update.legs@, i);
    let ids = plans::stored_leg_ids(stored);
    let id = update.legs@[i].leg_id@;
    text::first_index_facts(ids, id);
    let k = text::first_index(ids, id) as int;
    assert(stored[k].leg.definition.leg_id@ == ids[k]);
}

/// A change counts as made before if the plan and each leg that it names are in
/// the states and at the times that it gives them.
pub proof fn changes_made_before_left_their_states(
    current: StoredExecutionPlan,
    stored: Seq<StoredExecutionLeg>,
    update: ExecutionLifecycleUpdate,
    i: int,
)
    requires
        already_made(current, stored, update),
        0 <= i < update.legs@.len(),
    ensures
        current.plan.state.status@ == update.plan.state.status@,
        current.updated_at == update.plan.updated_at,
        exists|k: int| {
            let leg = #[trigger] stored[k];
            &&& 0 <= k < stored.len()
            &&& leg.leg.definition.leg_id@ == update.legs@[i].leg_id@
            &&& leg.leg.state.status@ == update.legs@[i].state.status@
            &&& leg.updated_at == update.legs@[i].updated_at
        },
{
    assert(leg_already(stored, update.legs@[i]));
    let ids = plans::stored_leg_ids(stored);
    let id = update.legs@[i].leg_id@;
    text::first_index_facts(ids, id);
    let k = text::first_index(ids, id) as int;
    assert(stored[k].leg.definition.leg_id@ == ids[k]);
}

/// A plan is never older than its legs: a change that would leave it so is
/// refused.
pub proof fn plans_are_not_older_than_their_legs(
    current: StoredExecutionPlan,
    stored: Seq<StoredExecutionLeg>,
    update: ExecutionLifecycleUpdate,
)
    requires
        lifecycle_fault(current, stored, update, None) is None,
    ensures
        forall|i: int|
            0 <= i < update.legs@.len() ==> (#[trigger] update.legs@[i]).updated_at
                <= update.plan.updated_at,
        forall|k: int|
            0 <= k < stored.len() && (forall|i: int|
                0 <= i < update.legs@.len() ==> (#[trigger] update.legs@[i]).leg_id@
                    != stored[k].leg.definition.leg_id@) ==> (#[trigger] stored[k]).updated_at
                <= update.plan.updated_at,
{
    assert forall|k: int|
        0 <= k < stored.len() && (forall|i: int|
            0 <= i < update.legs@.len() ==> (#[trigger] update.legs@[i]).leg_id@
                != stored[k].leg.definition.leg_id@) implies (#[trigger] stored[k]).updated_at
        <= update.plan.updated_at by {
        let ids = update_ids(update.legs@);
        let id = stored[k].leg.definition.leg_id@;
        if ids.contains(id) {
            let i = choose|i: int| 0 <= i < ids.len() && ids[i] == id;
            assert(update.legs@[i].leg_id@ == id);
        }
    }
}

/// A change is in time if the domain does not object to it, the plan is not older
/// afterwards than any leg that is changed with it or stays as it was, and, where
/// there are no legs at all, not older than it was made.
pub proof fn changes_in_time_are_made(
    current: StoredExecutionPlan,
    stored: Seq<StoredExecutionLeg>,
    update: ExecutionLifecycleUpdate,
    verdict: Option<String>,
)
    ensures
        lifecycle_fault(current, stored, update, verdict) is None <==> {
            &&& verdict is None
            &&& update.legs@.len() == 0 && stored.len() == 0 ==> update.plan.updated_at
                >= current.created_at
            &&& forall|i: int|
                0 <= i < update.legs@.len() ==> (#[trigger] update.legs@[i]).updated_at
                    <= update.plan.updated_at
            &&& forall|i: int|
                0 <= i < stored.len() && !update_ids(update.legs@).contains(
                    (#[trigger] stored[i]).leg.definition.leg_id@,
                ) ==> stored[i].updated_at <= update.plan.updated_at
        },
{
}

/// A leg is changed if it is stored, is of the plan, and is in the status and of
/// the time that were expected, before the time of the change. Otherwise it is not
/// found, in conflict, or stale.
pub proof fn legs_change_from_what_was_expected(
    stored: Seq<StoredExecutionLeg>,
    leg: LegStateUpdate,
)
    ensures
        ({
            let at = text::first_index(plans::stored_leg_ids(stored), leg.leg_id@) as int;
            &&& leg_change_fault(stored, leg) is None <==> {
                &&& at < stored.len()
                &&& stored[at].plan_id@ == leg.plan_id@
                &&& stored[at].leg.state.status@ == leg.expected_status@
                &&& stored[at].updated_at == leg.expected_updated_at
                &&& stored[at].updated_at < leg.updated_at
            }
            &&& at >= stored.len() ==> leg_change_fault(stored, leg) is Some && leg_change_fault(
                stored,
                leg,
            )->0 is NotFound
            &&& at < stored.len() && stored[at].plan_id@ != leg.plan_id@ ==> leg_change_fault(
                stored,
                leg,
            ) is Some && leg_change_fault(stored, leg)->0 is IdentityConflict
        }),
{
}

/// Changes of legs are well put if there are some, all are of the plan, and no
/// leg is changed twice.
pub proof fn well_put_changes_are_taken(update: ExecutionLifecycleUpdate)
    requires
        update.legs@.len() > 0,
        forall|i: int|
            0 <= i < update.legs@.len() ==> (#[trigger] update.legs@[i]).plan_id@
                == update.plan.plan_id@,
        forall|i: int, j: int|
            0 <= i < j < update.legs@.len() ==> (#[trigger] update.legs@[i]).leg_id@ != (
            #[trigger] update.legs@[j]).leg_id@,
    ensures
        shape_fault(update) is None,
{
    well_put_legs(update.plan.plan_id@, update.legs@);
}

proof fn well_put_legs(plan_id: Seq<char>, legs: Seq<LegStateUpdate>)
    requires
        forall|i: int| 0 <= i < legs.len() ==> (#[trigger] legs[i]).plan_id@ == plan_id,
        forall|i: int, j: int|
            0 <= i < j < legs.len() ==> (#[trigger] legs[i]).leg_id@ != (
            #[trigger] legs[j]).leg_id@,
    ensures
        legs_shape_fault(plan_id, legs) is None,
    decreases legs.len(),
{
    if legs.len() > 0 {
        let rest = legs.drop_last();
        assert(forall|i: int| 0 <= i < rest.len() ==> #[trigger] rest[i] == legs[i]);
        well_put_legs(plan_id, rest);
        let ids = update_ids(rest);
        let last = legs[legs.len() - 1];
        assert(last.plan_id@ == plan_id);
        if ids.contains(last.leg_id@) {
            let k = choose|k: int| 0 <= k < ids.len() && ids[k] == last.leg_id@;
            assert(rest[k].leg_id@ == last.leg_id@);
            assert(legs[k].leg_id@ != last.leg_id@);
        }
    }
}

}
