use crate::amount::{amount_add, amount_checked_sub, amount_mul};
use crate::coin::{clone_coins, coins, payout_denom, sent_amount, Coin};
use crate::error::ContractError;
use crate::ledger::{credited, lemma_cleared, Ledger, LedgerKey};
use crate::membership::{exceeds_half, reaches_half, JoinRequest};
use crate::msg::{BankSend, Env, ExecuteMsg, InstantiateMsg, MessageInfo, Response};
use crate::plan::{Plan, PlanUpdate, PlanView};
use crate::state::{
    has_request, is_request_for, request_index, Config, LifecyclePolicy, ResponseView, State,
    StateView,
};
use vstd::prelude::*;

verus! {

/// Whether an instruction did what `expected` says: on success the state and
/// the response are the expected ones, on failure the error is the expected
/// one and the state is as it was.
pub open spec fn agrees(
    before: StateView,
    after: StateView,
    res: Result<Response, ContractError>,
    expected: Result<(StateView, ResponseView), ContractError>,
) -> bool {
    match expected {
        Ok((state, response)) => res is Ok && res->Ok_0@ == response && after == state,
        Err(e) => res == Err::<Response, ContractError>(e) && after == before,
    }
}

/// Replacing a plan by a well-formed one with the same identifier keeps the
/// state well formed, provided that a plan which has been active keeps its
/// contribution amount and stays marked as having been active.
pub proof fn lemma_with_plan_wf(state: StateView, plan_id: u64, plan: PlanView)
    requires
        state.wf(),
        state.has_plan(plan_id),
        plan.wf(),
        plan.id == plan_id,
        state.plan(plan_id).has_activated() ==> plan.has_activated() && plan.contribution_amount
            == state.plan(plan_id).contribution_amount,
    ensures
        state.with_plan(plan_id, plan).wf(),
{
    let next = state.with_plan(plan_id, plan);
    assert forall|key: LedgerKey| #[trigger] credited(next.ledger, key) > 0 implies next.has_plan(
        key.plan_id,
    ) && next.plan(key.plan_id).has_activated() && credited(next.ledger, key) <= next.plan(
        key.plan_id,
    ).contribution_amount by {
        assert(credited(state.ledger, key) > 0);
    }
}

/// A response that sends nothing.
fn quiet_response(plan_id: u64) -> (response: Response)
    ensures
        response@ == (ResponseView { plan_id, messages: seq![] }),
{
    let response = Response { plan_id, messages: Vec::new() };
    assert(response@.messages =~= seq![]);
    response
}

/// The index at which the plan with identifier `plan_id` stands.
fn plan_slot(state: &State, plan_id: u64) -> (slot: Option<usize>)
    ensures
        match slot {
            Some(i) => state@.has_plan(plan_id) && i == plan_id - 1,
            None => !state@.has_plan(plan_id),
        },
{
    if plan_id == 0 || plan_id > state.plans.len() as u64 {
        None
    } else {
        Some((plan_id - 1) as usize)
    }
}

/// Sets the state up: the caller becomes the admin, and there are no plans,
/// no contributions and no requests.
pub fn instantiate(info: &MessageInfo, msg: InstantiateMsg) -> (state: State)
    ensures
        state@ == StateView::initial(info.sender@, msg.policy),
        state.wf(),
{
    let state = State {
        config: Config { admin: info.sender.clone(), policy: msg.policy },
        plans: Vec::new(),
        ledger: Ledger::new(),
        join_requests: Vec::new(),
    };
    assert(state@.plans =~= seq![]);
    assert(state@.requests =~= seq![]);
    state
}

/// Creates a plan with the caller as its creator and first member.
pub fn execute_create_plan(
    state: &mut State,
    info: &MessageInfo,
    name: String,
    description: String,
    total_participants: u32,
    contribution_amount: u128,
    frequency: String,
    duration_months: u32,
    trust_score_required: u32,
    allow_partial: bool,
) -> (res: Result<Response, ContractError>)
    requires
        old(state).wf(),
        old(state).plans.len() < u64::MAX,
    ensures
        final(state).wf(),
        agrees(
            old(state)@,
            final(state)@,
            res,
            old(state)@.create_plan(
                info.sender@,
                name@,
                description@,
                total_participants,
                contribution_amount,
                frequency@,
                duration_months,
                trust_score_required,
                allow_partial,
            ),
        ),
{
    let plan_id = state.plans.len() as u64 + 1;
    let starts_active = match state.config.policy {
        LifecyclePolicy::DirectJoin => true,
        LifecyclePolicy::OpenEnrollment => false,
    };
    let plan = match Plan::create(
        plan_id,
        info.sender.clone(),
        name,
        description,
        total_participants,
        contribution_amount,
        &frequency,
        duration_months,
        trust_score_required,
        allow_partial,
        starts_active,
    ) {
        Ok(plan) => plan,
        Err(e) => {
            return Err(e);
        },
    };
    state.plans.push(plan);
    proof {
        let before = old(state)@;
        let after = state@;
        assert(after.plans =~= before.plans.push(plan@));
        assert forall|key: LedgerKey| #[trigger] credited(after.ledger, key) > 0 implies after.has_plan(
            key.plan_id,
        ) && after.plan(key.plan_id).has_activated() && credited(after.ledger, key) <= after.plan(
            key.plan_id,
        ).contribution_amount by {
            assert(credited(before.ledger, key) > 0);
            assert(after.plan(key.plan_id) == before.plan(key.plan_id));
        }
    }
    Ok(quiet_response(plan_id))
}

/// Admits the caller to a plan at once, if the plan is still forming, has a
/// free seat, does not have the caller already and the caller's trust score
/// is high enough. The plan goes active when its last seat is taken.
pub fn execute_join_plan(state: &mut State, info: &MessageInfo, trust_score: u32, plan_id: u64) -> (res:
    Result<Response, ContractError>)
    requires
        old(state).wf(),
    ensures
        final(state).wf(),
        agrees(
            old(state)@,
            final(state)@,
            res,
            old(state)@.join_plan(info.sender@, trust_score, plan_id),
        ),
{
    let slot = match plan_slot(state, plan_id) {
        Some(slot) => slot,
        None => {
            return Err(ContractError::NotFound);
        },
    };
    assert(state.plans@[slot as int]@ == state@.plan(plan_id));
    match state.plans[slot].join(info.sender.clone(), trust_score) {
        Ok(()) => {
            proof {
                let next = state.plans@[slot as int]@;
                assert(state@.plans =~= old(state)@.plans.update(slot as int, next));
                lemma_with_plan_wf(old(state)@, plan_id, next);
            }
            Ok(quiet_response(plan_id))
        },
        Err(e) => {
            assert(state.plans@ =~= old(state).plans@);
            Err(e)
        },
    }
}

/// Replaces the terms of a plan that the caller names, for the creator and
/// only while the plan has never been active.
pub fn execute_update_plan(
    state: &mut State,
    info: &MessageInfo,
    plan_id: u64,
    name: Option<String>,
    description: Option<String>,
    total_participants: Option<u32>,
    contribution_amount: Option<u128>,
    frequency: Option<String>,
    duration_months: Option<u32>,
    trust_score_required: Option<u32>,
    allow_partial: Option<bool>,
) -> (res: Result<Response, ContractError>)
    requires
        old(state).wf(),
    ensures
        final(state).wf(),
        agrees(
            old(state)@,
            final(state)@,
            res,
            old(state)@.update_plan(
                info.sender@,
                plan_id,
                (PlanUpdate {
                    name,
                    description,
                    total_participants,
                    contribution_amount,
                    frequency,
                    duration_months,
                    trust_score_required,
                    allow_partial,
                })@,
            ),
        ),
{
    let slot = match plan_slot(state, plan_id) {
        Some(slot) => slot,
        None => {
            return Err(ContractError::NotFound);
        },
    };
    let patch = PlanUpdate {
        name,
        description,
        total_participants,
        contribution_amount,
        frequency,
        duration_months,
        trust_score_required,
        allow_partial,
    };
    assert(state.plans@[slot as int]@ == state@.plan(plan_id));
    match state.plans[slot].update(&info.sender, patch) {
        Ok(()) => {
            proof {
                let next = state.plans@[slot as int]@;
                assert(state@.plans =~= old(state)@.plans.update(slot as int, next));
                lemma_with_plan_wf(old(state)@, plan_id, next);
            }
            Ok(quiet_response(plan_id))
        },
        Err(e) => {
            assert(state.plans@ =~= old(state).plans@);
            Err(e)
        },
    }
}

/// Cancels a plan, for the creator and only while the plan has never been
/// active.
pub fn execute_cancel_plan(state: &mut State, info: &MessageInfo, plan_id: u64) -> (res: Result<
    Response,
    ContractError,
>)
    requires
        old(state).wf(),
    ensures
        final(state).wf(),
        agrees(old(state)@, final(state)@, res, old(state)@.cancel_plan(info.sender@, plan_id)),
{
    let slot = match plan_slot(state, plan_id) {
        Some(slot) => slot,
        None => {
            return Err(ContractError::NotFound);
        },
    };
    assert(state.plans@[slot as int]@ == state@.plan(plan_id));
    match state.plans[slot].cancel(&info.sender) {
        Ok(()) => {
            proof {
                let next = state.plans@[slot as int]@;
                assert(state@.plans =~= old(state)@.plans.update(slot as int, next));
                lemma_with_plan_wf(old(state)@, plan_id, next);
            }
            Ok(quiet_response(plan_id))
        },
        Err(e) => {
            assert(state.plans@ =~= old(state).plans@);
            Err(e)
        },
    }
}

/// The index at which the pending request of `requester` for plan `plan_id`
/// stands.
fn request_slot(state: &State, plan_id: u64, requester: &String) -> (slot: Option<usize>)
    requires
        state.wf(),
    ensures
        match slot {
            Some(i) => has_request(state@.requests, plan_id, requester@) && i == request_index(
                state@.requests,
                plan_id,
                requester@,
            ) && i < state.join_requests.len(),
            None => !has_request(state@.requests, plan_id, requester@),
        },
{
    let mut i: usize = 0;
    while i < state.join_requests.len()
        invariant
            state.wf(),
            i <= state.join_requests.len(),
            forall|j: int|
                0 <= j < i ==> !is_request_for(
                    #[trigger] state@.requests[j],
                    plan_id,
                    requester@,
                ),
        decreases state.join_requests.len() - i,
    {
        if state.join_requests[i].is_for(plan_id, requester) {
            proof {
                let list = state@.requests;
                assert(is_request_for(list[i as int], plan_id, requester@));
                let chosen = request_index(list, plan_id, requester@);
                assert(is_request_for(list[chosen], plan_id, requester@));
                if chosen < i {
                    assert(!is_request_for(list[chosen], list[i as int].plan_id, list[i as int].requester));
                }
                if i < chosen {
                    assert(!is_request_for(list[i as int], list[chosen].plan_id, list[chosen].requester));
                }
            }
            return Some(i);
        }
        i += 1;
    }
    None
}

/// Files a request of the caller to be admitted to a plan, unless the caller
/// already has one pending for that plan.
pub fn request_to_join_plan(state: &mut State, info: &MessageInfo, plan_id: u64) -> (res: Result<
    Response,
    ContractError,
>)
    requires
        old(state).wf(),
    ensures
        final(state).wf(),
        agrees(
            old(state)@,
            final(state)@,
            res,
            old(state)@.request_to_join(info.sender@, plan_id),
        ),
{
    if request_slot(state, plan_id, &info.sender).is_some() {
        return Err(ContractError::AlreadyRequested);
    }
    let request = JoinRequest::new(plan_id, info.sender.clone());
    state.join_requests.push(request);
    proof {
        let before = old(state)@;
        let after = state@;
        assert(after.requests =~= before.requests.push(request@));
        assert forall|i: int, j: int| 0 <= i < j < after.requests.len() implies !is_request_for(
            #[trigger] after.requests[i],
            (#[trigger] after.requests[j]).plan_id,
            after.requests[j].requester,
        ) by {
            if j == before.requests.len() {
                assert(!is_request_for(before.requests[i], plan_id, info.sender@));
            } else {
                assert(!is_request_for(
                    before.requests[i],
                    before.requests[j].plan_id,
                    before.requests[j].requester,
                ));
            }
        }
    }
    Ok(quiet_response(plan_id))
}

/// Taking a request out of the list leaves no two requests for the same plan
/// and requester.
proof fn lemma_remove_request_wf(state: StateView, at: int)
    requires
        state.wf(),
        0 <= at < state.requests.len(),
    ensures
        (StateView { requests: state.requests.remove(at), ..state }).wf(),
{
    let before = state.requests;
    let after = before.remove(at);
    assert forall|i: int| 0 <= i < after.len() implies (#[trigger] after[i]).wf() by {
        if i < at {
            assert(after[i] == before[i]);
        } else {
            assert(after[i] == before[i + 1]);
        }
    }
    assert forall|i: int, j: int| 0 <= i < j < after.len() implies !is_request_for(
        #[trigger] after[i],
        (#[trigger] after[j]).plan_id,
        after[j].requester,
    ) by {
        let oi = if i < at { i } else { i + 1 };
        let oj = if j < at { j } else { j + 1 };
        assert(after[i] == before[oi]);
        assert(after[j] == before[oj]);
        assert(!is_request_for(before[oi], before[oj].plan_id, before[oj].requester));
    }
}

/// Recording a vote on a request leaves no two requests for the same plan
/// and requester.
proof fn lemma_vote_request_wf(state: StateView, at: int, voted: crate::membership::JoinRequestView)
    requires
        state.wf(),
        0 <= at < state.requests.len(),
        voted.wf(),
        voted.plan_id == state.requests[at].plan_id,
        voted.requester == state.requests[at].requester,
    ensures
        (StateView { requests: state.requests.update(at, voted), ..state }).wf(),
{
    let before = state.requests;
    let after = before.update(at, voted);
    assert forall|i: int, j: int| 0 <= i < j < after.len() implies !is_request_for(
        #[trigger] after[i],
        (#[trigger] after[j]).plan_id,
        after[j].requester,
    ) by {
        assert(!is_request_for(before[i], before[j].plan_id, before[j].requester));
    }
}

/// Records a member's approval of a request. Once at least half of the
/// members of the moment approve, the requester becomes the last member and
/// the request is gone, unless no seat is free or the requester already is a
/// member: then the approval fails and nothing changes.
pub fn approve_join_request(
    state: &mut State,
    info: &MessageInfo,
    plan_id: u64,
    requester: String,
) -> (res: Result<Response, ContractError>)
    requires
        old(state).wf(),
    ensures
        final(state).wf(),
        agrees(
            old(state)@,
            final(state)@,
            res,
            old(state)@.approve(info.sender@, plan_id, requester@),
        ),
{
    let slot = match plan_slot(state, plan_id) {
        Some(slot) => slot,
        None => {
            return Err(ContractError::NotFound);
        },
    };
    let at = match request_slot(state, plan_id, &requester) {
        Some(at) => at,
        None => {
            return Err(ContractError::NotFound);
        },
    };
    assert(state.plans@[slot as int]@ == state@.plan(plan_id));
    assert(state.join_requests@[at as int]@ == state@.requests[at as int]);
    if !state.plans[slot].is_member(&info.sender) {
        return Err(ContractError::NotParticipant);
    }
    let members = state.plans[slot].participants.len();
    let approvals = state.join_requests[at].approvals.len();
    let reached = if state.join_requests[at].has_voted(&info.sender) {
        reaches_half(approvals, members)
    } else if approvals >= members {
        true
    } else {
        reaches_half(approvals + 1, members)
    };
    if !reached {
        state.join_requests[at].approve(&info.sender);
        proof {
            let voted = state.join_requests@[at as int]@;
            assert(state@.requests =~= old(state)@.requests.update(at as int, voted));
            assert(state@.plans =~= old(state)@.plans);
            lemma_vote_request_wf(old(state)@, at as int, voted);
        }
        return Ok(quiet_response(plan_id));
    }
    if members >= state.plans[slot].total_participants as usize {
        return Err(ContractError::PlanFull);
    }
    if state.plans[slot].is_member(&requester) {
        return Err(ContractError::AlreadyParticipant);
    }
    let _ = state.join_requests.remove(at);
    state.plans[slot].enroll(requester);
    proof {
        let next = state.plans@[slot as int]@;
        lemma_remove_request_wf(old(state)@, at as int);
        let removed = StateView {
            requests: old(state)@.requests.remove(at as int),
            ..old(state)@
        };
        assert(state@.requests =~= removed.requests);
        assert(state@.plans =~= removed.plans.update(slot as int, next));
        lemma_with_plan_wf(removed, plan_id, next);
    }
    Ok(quiet_response(plan_id))
}

/// Records a member's denial of a request. Once more than half of the
/// members of the moment deny, the request is gone.
pub fn deny_join_request(
    state: &mut State,
    info: &MessageInfo,
    plan_id: u64,
    requester: String,
) -> (res: Result<Response, ContractError>)
    requires
        old(state).wf(),
    ensures
        final(state).wf(),
        agrees(
            old(state)@,
            final(state)@,
            res,
            old(state)@.deny(info.sender@, plan_id, requester@),
        ),
{
    let slot = match plan_slot(state, plan_id) {
        Some(slot) => slot,
        None => {
            return Err(ContractError::NotFound);
        },
    };
    let at = match request_slot(state, plan_id, &requester) {
        Some(at) => at,
        None => {
            return Err(ContractError::NotFound);
        },
    };
    assert(state.plans@[slot as int]@ == state@.plan(plan_id));
    assert(state.join_requests@[at as int]@ == state@.requests[at as int]);
    if !state.plans[slot].is_member(&info.sender) {
        return Err(ContractError::NotParticipant);
    }
    let members = state.plans[slot].participants.len();
    state.join_requests[at].deny(&info.sender);
    let ghost voted = state.join_requests@[at as int]@;
    let ghost recorded = StateView {
        requests: old(state)@.requests.update(at as int, voted),
        ..old(state)@
    };
    proof {
        assert(state@.requests =~= recorded.requests);
        assert(state@.plans =~= recorded.plans);
        lemma_vote_request_wf(old(state)@, at as int, voted);
    }
    if exceeds_half(state.join_requests[at].denials.len(), members) {
        let _ = state.join_requests.remove(at);
        proof {
            lemma_remove_request_wf(recorded, at as int);
            assert(recorded.requests.remove(at as int) =~= old(state)@.requests.remove(at as int));
            assert(state@.requests =~= recorded.requests.remove(at as int));
        }
    }
    Ok(quiet_response(plan_id))
}

/// Credits `amount` to the caller for the current cycle of a plan. The coins
/// attached to the call must cover the amount, and the amount may not be
/// more than the caller still owes for the cycle; a plan without partial
/// payments takes the whole contribution at once.
pub fn execute_contribute(state: &mut State, info: &MessageInfo, plan_id: u64, amount: u128) -> (res:
    Result<Response, ContractError>)
    requires
        old(state).wf(),
    ensures
        final(state).wf(),
        agrees(
            old(state)@,
            final(state)@,
            res,
            old(state)@.contribute(info.sender@, coins(info.funds@), plan_id, amount),
        ),
{
    let slot = match plan_slot(state, plan_id) {
        Some(slot) => slot,
        None => {
            return Err(ContractError::NotFound);
        },
    };
    assert(state.plans@[slot as int]@ == state@.plan(plan_id));
    if !state.plans[slot].is_active {
        return Err(ContractError::PlanNotActive);
    }
    if !state.plans[slot].is_member(&info.sender) {
        return Err(ContractError::NotParticipant);
    }
    let sent = sent_amount(&info.funds, &payout_denom());
    if sent < amount {
        return Err(ContractError::InvalidInput);
    }
    let cycle = state.plans[slot].current_cycle;
    let required = state.plans[slot].contribution_amount;
    let already = state.ledger.get(plan_id, cycle, &info.sender);
    if already >= required {
        return Err(ContractError::InvalidInput);
    }
    if !state.plans[slot].allow_partial && amount != required {
        return Err(ContractError::InvalidInput);
    }
    let remaining = match amount_checked_sub(required, already) {
        Some(remaining) => remaining,
        None => 0,
    };
    if amount > remaining {
        return Err(ContractError::InvalidInput);
    }
    let paid = amount_add(already, amount);
    state.ledger.set(plan_id, cycle, &info.sender, paid);
    proof {
        let before = old(state)@;
        let after = state@;
        let paid_key = LedgerKey { plan_id, cycle, participant: info.sender@ };
        assert(after.plans =~= before.plans);
        assert(after.requests =~= before.requests);
        assert forall|key: LedgerKey| #[trigger] credited(after.ledger, key) > 0 implies after.has_plan(
            key.plan_id,
        ) && after.plan(key.plan_id).has_activated() && credited(after.ledger, key) <= after.plan(
            key.plan_id,
        ).contribution_amount by {
            if key != paid_key {
                assert(credited(before.ledger, key) > 0);
            }
        }
    }
    Ok(quiet_response(plan_id))
}

/// Pays the pot of the current cycle of a plan to the member whose turn it
/// is. Only the admin may ask for it, the plan must be active and every
/// member's contribution must be in. The balances of the cycle go back to
/// zero, the turn passes on, and the plan closes after its last cycle.
pub fn execute_distribute_payout(state: &mut State, info: &MessageInfo, plan_id: u64) -> (res:
    Result<Response, ContractError>)
    requires
        old(state).wf(),
    ensures
        final(state).wf(),
        agrees(
            old(state)@,
            final(state)@,
            res,
            old(state)@.distribute_payout(info.sender@, plan_id),
        ),
{
    let slot = match plan_slot(state, plan_id) {
        Some(slot) => slot,
        None => {
            return Err(ContractError::NotFound);
        },
    };
    let ghost plan = state@.plan(plan_id);
    assert(state.plans@[slot as int]@ == plan);
    if info.sender != state.config.admin {
        return Err(ContractError::Unauthorized);
    }
    if !state.plans[slot].is_active {
        return Err(ContractError::PlanNotActive);
    }
    let cycle = state.plans[slot].current_cycle;
    let required = state.plans[slot].contribution_amount;
    let members = state.plans[slot].participants.len();
    proof {
        assert(members * required <= 100 * 100000) by (nonlinear_arith)
            requires
                members <= 100,
                required <= 100000,
        ;
        assert(required * (members as u128) == members * required) by (nonlinear_arith);
        assert forall|key: LedgerKey|
            key.plan_id == plan_id && key.cycle == cycle implies #[trigger] credited(
            state.ledger@,
            key,
        ) <= required by {
            if credited(state@.ledger, key) > 0 {
                assert(state@.plan(key.plan_id) == plan);
            }
        }
    }
    let pot = amount_mul(required, members as u128);
    let total = state.ledger.total(plan_id, cycle, &state.plans[slot].participants, required);
    if total < pot {
        return Err(ContractError::InsufficientContributions);
    }
    let recipient = state.plans[slot].participants[state.plans[slot].payout_index as usize].clone();
    state.ledger.clear(plan_id, cycle, &state.plans[slot].participants);
    state.plans[slot].rotate();
    proof {
        let before = old(state)@;
        let after = state@;
        let next = state.plans@[slot as int]@;
        assert(after.plans =~= before.plans.update(slot as int, next));
        assert(after.requests =~= before.requests);
        assert forall|key: LedgerKey| #[trigger] credited(after.ledger, key) > 0 implies after.has_plan(
            key.plan_id,
        ) && after.plan(key.plan_id).has_activated() && credited(after.ledger, key) <= after.plan(
            key.plan_id,
        ).contribution_amount by {
            lemma_cleared(before.ledger, plan_id, cycle, plan.participants, key);
            assert(credited(before.ledger, key) > 0);
            crate::plan::lemma_total_cycles_bounds(plan);
            assert(next == plan.rotate());
            if key.plan_id != plan_id {
                assert(after.plan(key.plan_id) == before.plan(key.plan_id));
            }
        }
    }
    let mut amount: Vec<Coin> = Vec::new();
    amount.push(Coin { denom: payout_denom(), amount: pot });
    let mut messages: Vec<BankSend> = Vec::new();
    messages.push(BankSend { to_address: recipient, amount });
    let response = Response { plan_id, messages };
    proof {
        let expected = old(state)@.distribute_payout(info.sender@, plan_id)->Ok_0.1;
        assert(response@.messages[0].amount =~= expected.messages[0].amount);
        assert(response@.messages =~= expected.messages);
    }
    Ok(response)
}

/// Hands everything that is held to the creator of a plan that is not
/// rotating. The state stays as it is.
pub fn execute_emergency_withdraw(state: &State, env: &Env, info: &MessageInfo, plan_id: u64) -> (res:
    Result<Response, ContractError>)
    requires
        state.wf(),
    ensures
        agrees(
            state@,
            state@,
            res,
            state@.emergency_withdraw(info.sender@, plan_id, coins(env.balance@)),
        ),
{
    let slot = match plan_slot(state, plan_id) {
        Some(slot) => slot,
        None => {
            return Err(ContractError::NotFound);
        },
    };
    assert(state.plans@[slot as int]@ == state@.plan(plan_id));
    if !state.plans[slot].is_creator(&info.sender) {
        return Err(ContractError::Unauthorized);
    }
    if !state.plans[slot].is_cancelled && state.plans[slot].is_active {
        return Err(ContractError::PlanActive);
    }
    let mut messages: Vec<BankSend> = Vec::new();
    messages.push(BankSend { to_address: info.sender.clone(), amount: clone_coins(&env.balance) });
    let response = Response { plan_id, messages };
    proof {
        let expected = state@.emergency_withdraw(info.sender@, plan_id, coins(env.balance@))->Ok_0.1;
        assert(response@.messages =~= expected.messages);
    }
    Ok(response)
}

impl StateView {
    /// What an instruction does to the state and what it hands back, or the
    /// error with which it is turned down.
    pub open spec fn execute(self, env: Env, info: MessageInfo, msg: ExecuteMsg) -> Result<
        (StateView, ResponseView),
        ContractError,
    > {
        match msg {
            ExecuteMsg::CreatePlan {
                name,
                description,
                total_participants,
                contribution_amount,
                frequency,
                duration_months,
                trust_score_required,
                allow_partial,
            } => self.create_plan(
                info.sender@,
                name@,
                description@,
                total_participants,
                contribution_amount,
                frequency@,
                duration_months,
                trust_score_required,
                allow_partial,
            ),
            ExecuteMsg::JoinPlan { plan_id } => self.join_plan(
                info.sender@,
                env.trust_score,
                plan_id,
            ),
            ExecuteMsg::RequestToJoinPlan { plan_id } => self.request_to_join(
                info.sender@,
                plan_id,
            ),
            ExecuteMsg::ApproveJoinRequest { plan_id, requester } => self.approve(
                info.sender@,
                plan_id,
                requester@,
            ),
            ExecuteMsg::DenyJoinRequest { plan_id, requester } => self.deny(
                info.sender@,
                plan_id,
                requester@,
            ),
            ExecuteMsg::Contribute { plan_id, amount } => self.contribute(
                info.sender@,
                coins(info.funds@),
                plan_id,
                amount,
            ),
            ExecuteMsg::DistributePayout { plan_id } => self.distribute_payout(
                info.sender@,
                plan_id,
            ),
            ExecuteMsg::CancelPlan { plan_id } => self.cancel_plan(info.sender@, plan_id),
            ExecuteMsg::UpdatePlan {
                plan_id,
                name,
                description,
                total_participants,
                contribution_amount,
                frequency,
                duration_months,
                trust_score_required,
                allow_partial,
            } => self.update_plan(
                info.sender@,
                plan_id,
                (PlanUpdate {
                    name,
                    description,
                    total_participants,
                    contribution_amount,
                    frequency,
                    duration_months,
                    trust_score_required,
                    allow_partial,
                })@,
            ),
            ExecuteMsg::EmergencyWithdraw { plan_id } => self.emergency_withdraw(
                info.sender@,
                plan_id,
                coins(env.balance@),
            ),
        }
    }
}

/// Carries out one instruction. Either all of it takes effect, or the state
/// stays as it was and the error says why.
pub fn execute(state: &mut State, env: &Env, info: &MessageInfo, msg: ExecuteMsg) -> (res: Result<
    Response,
    ContractError,
>)
    requires
        old(state).wf(),
        msg is CreatePlan ==> old(state).plans.len() < u64::MAX,
    ensures
        final(state).wf(),
        agrees(old(state)@, final(state)@, res, old(state)@.execute(*env, *info, msg)),
{
    match msg {
        ExecuteMsg::CreatePlan {
            name,
            description,
            total_participants,
            contribution_amount,
            frequency,
            duration_months,
            trust_score_required,
            allow_partial,
        } => execute_create_plan(
            state,
            info,
            name,
            description,
            total_participants,
            contribution_amount,
            frequency,
            duration_months,
            trust_score_required,
            allow_partial,
        ),
        ExecuteMsg::JoinPlan { plan_id } => execute_join_plan(
            state,
            info,
            env.trust_score,
            plan_id,
        ),
        ExecuteMsg::RequestToJoinPlan { plan_id } => request_to_join_plan(state, info, plan_id),
        ExecuteMsg::ApproveJoinRequest { plan_id, requester } => approve_join_request(
            state,
            info,
            plan_id,
            requester,
        ),
        ExecuteMsg::DenyJoinRequest { plan_id, requester } => deny_join_request(
            state,
            info,
            plan_id,
            requester,
        ),
        ExecuteMsg::Contribute { plan_id, amount } => execute_contribute(
            state,
            info,
            plan_id,
            amount,
        ),
        ExecuteMsg::DistributePayout { plan_id } => execute_distribute_payout(
            state,
            info,
            plan_id,
        ),
        ExecuteMsg::CancelPlan { plan_id } => execute_cancel_plan(state, info, plan_id),
        ExecuteMsg::UpdatePlan {
            plan_id,
            name,
            description,
            total_participants,
            contribution_amount,
            frequency,
            duration_months,
            trust_score_required,
            allow_partial,
        } => execute_update_plan(
            state,
            info,
            plan_id,
            name,
            description,
            total_participants,
            contribution_amount,
            frequency,
            duration_months,
            trust_score_required,
            allow_partial,
        ),
        ExecuteMsg::EmergencyWithdraw { plan_id } => execute_emergency_withdraw(
            state,
            env,
            info,
            plan_id,
        ),
    }
}

} // verus!
