//! What holds of the instructions whatever their inputs are.

use crate::coin::CoinView;
use crate::error::ContractError;
use crate::frequency::frequency_named;
use crate::ledger::{collected, credited, LedgerKey};
use crate::membership::{approval_quorum, denial_quorum, JoinRequestView};
use crate::msg::{Env, ExecuteMsg, MessageInfo};
use crate::plan::{lemma_total_cycles_bounds, terms_in_range, Phase, PlanView};
use crate::state::{has_request, quiet, request_index, ResponseView, StateView};
use vstd::prelude::*;

verus! {

/// A plan is created exactly when its terms are in range and its frequency
/// literal names a frequency; otherwise the answer is `InvalidInput`. A
/// created plan takes the next identifier, has its creator as only member
/// and no cycle behind it, and leaves the older plans as they were.
pub proof fn law_create_plan(
    state: StateView,
    sender: Seq<char>,
    name: Seq<char>,
    description: Seq<char>,
    total_participants: u32,
    contribution_amount: u128,
    frequency: Seq<char>,
    duration_months: u32,
    trust_score_required: u32,
    allow_partial: bool,
)
    requires
        state.plans.len() < u64::MAX,
    ensures
        ({
            let outcome = state.create_plan(
                sender,
                name,
                description,
                total_participants,
                contribution_amount,
                frequency,
                duration_months,
                trust_score_required,
                allow_partial,
            );
            let valid = terms_in_range(
                name,
                description,
                total_participants,
                contribution_amount,
                duration_months,
            ) && frequency_named(frequency) is Some;
            &&& outcome is Ok <==> valid
            &&& !valid ==> outcome == Err::<(StateView, ResponseView), ContractError>(
                ContractError::InvalidInput,
            )
            &&& outcome matches Ok((next, response)) ==> {
                &&& response.plan_id == state.plans.len() + 1
                &&& next.has_plan(response.plan_id)
                &&& next.plan(response.plan_id).id == response.plan_id
                &&& next.plan(response.plan_id).participants == seq![sender]
                &&& next.plan(response.plan_id).created_by == sender
                &&& next.plan(response.plan_id).current_cycle == 0
                &&& next.plan(response.plan_id).payout_index == 0
                &&& next.plans.len() == state.plans.len() + 1
                &&& forall|id: u64| state.has_plan(id) ==> next.plan(id) == state.plan(id)
            }
        }),
{
}

/// A group of fewer than 2 or more than 100 members is never created.
pub proof fn law_group_size(
    state: StateView,
    sender: Seq<char>,
    name: Seq<char>,
    description: Seq<char>,
    total_participants: u32,
    contribution_amount: u128,
    frequency: Seq<char>,
    duration_months: u32,
    trust_score_required: u32,
    allow_partial: bool,
)
    requires
        total_participants < 2 || total_participants > 100,
    ensures
        state.create_plan(
            sender,
            name,
            description,
            total_participants,
            contribution_amount,
            frequency,
            duration_months,
            trust_score_required,
            allow_partial,
        ) == Err::<(StateView, ResponseView), ContractError>(ContractError::InvalidInput),
{
}

/// Who has joined a plan cannot join it again: while seats are left the
/// second attempt fails with `AlreadyParticipant`, and once the plan is full
/// with `PlanFull`.
pub proof fn law_join_twice(
    state: StateView,
    sender: Seq<char>,
    first_score: u32,
    second_score: u32,
    plan_id: u64,
)
    requires
        state.wf(),
        state.join_plan(sender, first_score, plan_id) is Ok,
    ensures
        ({
            let next = state.join_plan(sender, first_score, plan_id)->Ok_0.0;
            let plan = next.plan(plan_id);
            let again = next.join_plan(sender, second_score, plan_id);
            if plan.participants.len() < plan.total_participants {
                again == Err::<(StateView, ResponseView), ContractError>(
                    ContractError::AlreadyParticipant,
                )
            } else {
                again == Err::<(StateView, ResponseView), ContractError>(ContractError::PlanFull)
            }
        }),
{
    let plan = state.plan(plan_id);
    let joined = plan.join(sender, first_score)->Ok_0;
    assert(joined.participants[plan.participants.len() as int] == sender);
    assert(state.with_plan(plan_id, joined).plan(plan_id) == joined);
}

/// The join that takes the last seat makes the plan active, and from then on
/// the plan answers every join with `PlanFull`.
pub proof fn law_last_seat_activates(
    state: StateView,
    sender: Seq<char>,
    trust_score: u32,
    plan_id: u64,
)
    requires
        state.wf(),
        state.has_plan(plan_id),
        state.plan(plan_id).participants.len() == state.plan(plan_id).total_participants - 1,
        state.join_plan(sender, trust_score, plan_id) is Ok,
    ensures
        ({
            let next = state.join_plan(sender, trust_score, plan_id)->Ok_0.0;
            &&& !state.plan(plan_id).is_active
            &&& next.plan(plan_id).is_active
            &&& forall|who: Seq<char>, score: u32| #[trigger]
                next.join_plan(who, score, plan_id) == Err::<
                    (StateView, ResponseView),
                    ContractError,
                >(ContractError::PlanFull)
        }),
{
    let plan = state.plan(plan_id);
    let joined = plan.join(sender, trust_score)->Ok_0;
    assert(state.with_plan(plan_id, joined).plan(plan_id) == joined);
}

/// A plan that is full and has gone active stays so whatever instruction is
/// carried out: no instruction removes a member, adds a seat or takes the
/// plan back to before its activation. So it answers every later join with
/// `PlanFull`.
pub proof fn law_full_plan_stays_full(
    state: StateView,
    env: Env,
    info: MessageInfo,
    msg: ExecuteMsg,
    plan_id: u64,
)
    requires
        state.wf(),
        state.plans.len() < u64::MAX,
        state.has_plan(plan_id),
        state.plan(plan_id).has_activated(),
        state.plan(plan_id).participants.len() >= state.plan(plan_id).total_participants,
        state.execute(env, info, msg) is Ok,
    ensures
        ({
            let next = state.execute(env, info, msg)->Ok_0.0;
            &&& next.has_plan(plan_id)
            &&& next.plan(plan_id).has_activated()
            &&& next.plan(plan_id).participants == state.plan(plan_id).participants
            &&& next.plan(plan_id).total_participants == state.plan(plan_id).total_participants
            &&& forall|who: Seq<char>, score: u32| #[trigger]
                next.join_plan(who, score, plan_id) == Err::<
                    (StateView, ResponseView),
                    ContractError,
                >(ContractError::PlanFull)
        }),
{
    let plan = state.plan(plan_id);
    lemma_total_cycles_bounds(plan);
    match msg {
        ExecuteMsg::CreatePlan { .. } => {},
        ExecuteMsg::JoinPlan { .. } => {},
        ExecuteMsg::RequestToJoinPlan { .. } => {},
        ExecuteMsg::ApproveJoinRequest { .. } => {},
        ExecuteMsg::DenyJoinRequest { .. } => {},
        ExecuteMsg::Contribute { .. } => {},
        ExecuteMsg::DistributePayout { .. } => {},
        ExecuteMsg::CancelPlan { .. } => {},
        ExecuteMsg::UpdatePlan { .. } => {},
        ExecuteMsg::EmergencyWithdraw { .. } => {},
    }
}

/// The life of a plan runs one way. A cancelled plan stays cancelled and a
/// completed plan stays completed, whatever instruction is carried out. An
/// active plan stays active until a payout completes it. An open plan goes
/// active only by a join or an approval, is cancelled only by a
/// cancellation, and never completes without having been active.
pub proof fn law_phases_run_one_way(
    state: StateView,
    env: Env,
    info: MessageInfo,
    msg: ExecuteMsg,
    plan_id: u64,
)
    requires
        state.wf(),
        state.plans.len() < u64::MAX,
        state.has_plan(plan_id),
        state.execute(env, info, msg) is Ok,
    ensures
        ({
            let next = state.execute(env, info, msg)->Ok_0.0;
            let before = state.plan(plan_id).phase();
            let after = next.plan(plan_id).phase();
            &&& next.has_plan(plan_id)
            &&& before == Phase::Cancelled ==> after == Phase::Cancelled
            &&& before == Phase::Completed ==> after == Phase::Completed
            &&& before == Phase::Active ==> after == Phase::Active || (after == Phase::Completed
                && msg is DistributePayout)
            &&& before == Phase::Open ==> after == Phase::Open || (after == Phase::Active && (msg
                is JoinPlan || msg is ApproveJoinRequest)) || (after == Phase::Cancelled && msg
                is CancelPlan)
        }),
{
    let plan = state.plan(plan_id);
    lemma_total_cycles_bounds(plan);
    match msg {
        ExecuteMsg::CreatePlan { .. } => {},
        ExecuteMsg::JoinPlan { .. } => {},
        ExecuteMsg::RequestToJoinPlan { .. } => {},
        ExecuteMsg::ApproveJoinRequest { .. } => {},
        ExecuteMsg::DenyJoinRequest { .. } => {},
        ExecuteMsg::Contribute { .. } => {},
        ExecuteMsg::DistributePayout { .. } => {},
        ExecuteMsg::CancelPlan { .. } => {},
        ExecuteMsg::UpdatePlan { .. } => {},
        ExecuteMsg::EmergencyWithdraw { .. } => {},
    }
}

/// What a well-formed state says of each of its plans: the plan has at most
/// as many members as seats, no member twice, its creator is its first member, its turn is
/// with one of its members, it is not both active and cancelled, and nobody
/// has paid more towards any of its cycles than it asks for. The state that
/// `instantiate` makes is well formed, and every instruction keeps it so.
pub proof fn law_plans_keep_their_bounds(state: StateView, plan_id: u64)
    requires
        state.wf(),
        state.has_plan(plan_id),
    ensures
        state.plan(plan_id).participants.len() <= state.plan(plan_id).total_participants,
        state.plan(plan_id).participants.no_duplicates(),
        state.plan(plan_id).payout_index < state.plan(plan_id).participants.len(),
        state.plan(plan_id).participants[0] == state.plan(plan_id).created_by,
        !(state.plan(plan_id).is_active && state.plan(plan_id).is_cancelled),
        forall|cycle: u32, who: Seq<char>|
            credited(state.ledger, LedgerKey { plan_id, cycle, participant: who }) <= state.plan(
                plan_id,
            ).contribution_amount,
{
    assert forall|cycle: u32, who: Seq<char>|
        credited(state.ledger, LedgerKey { plan_id, cycle, participant: who }) <= state.plan(
            plan_id,
        ).contribution_amount by {
        let key = LedgerKey { plan_id, cycle, participant: who };
        if credited(state.ledger, key) > 0 {
            assert(state.plan(key.plan_id) == state.plan(plan_id));
        }
    }
}

/// The quorums in numbers: a requester is admitted once the approvals are at
/// least half of the members, rounded up, and rejected once the denials are
/// more than half of the members, so that no request is both.
pub proof fn law_quorum_thresholds(votes: nat, members: nat)
    ensures
        approval_quorum(votes, members) <==> votes >= (members + 1) / 2,
        denial_quorum(votes, members) <==> votes >= members / 2 + 1,
        denial_quorum(votes, members) ==> approval_quorum(votes, members),
{
}

/// A voter has one vote on a request: after the first vote, whichever way
/// it went, a further approval or denial by the same voter changes nothing,
/// and nobody ever stands on both sides.
pub proof fn law_one_vote_per_voter(request: JoinRequestView, voter: Seq<char>)
    requires
        request.wf(),
    ensures
        request.approved_by(voter).approved_by(voter) == request.approved_by(voter),
        request.approved_by(voter).denied_by(voter) == request.approved_by(voter),
        request.denied_by(voter).approved_by(voter) == request.denied_by(voter),
        request.denied_by(voter).denied_by(voter) == request.denied_by(voter),
        request.approved_by(voter).wf(),
        request.denied_by(voter).wf(),
{
    crate::membership::lemma_vote_keeps_wf(request, voter);
    if !request.has_voted(voter) {
        let approved = request.approved_by(voter);
        assert(approved.approvals[request.approvals.len() as int] == voter);
        let denied = request.denied_by(voter);
        assert(denied.denials[request.denials.len() as int] == voter);
    }
}

/// Only members vote: an approval or a denial by anybody else fails with
/// `NotParticipant`, whatever the request and the votes on it.
pub proof fn law_only_members_vote(
    state: StateView,
    sender: Seq<char>,
    plan_id: u64,
    requester: Seq<char>,
)
    requires
        state.has_plan(plan_id),
        has_request(state.requests, plan_id, requester),
        !state.plan(plan_id).participants.contains(sender),
    ensures
        state.approve(sender, plan_id, requester) == Err::<
            (StateView, ResponseView),
            ContractError,
        >(ContractError::NotParticipant),
        state.deny(sender, plan_id, requester) == Err::<(StateView, ResponseView), ContractError>(
            ContractError::NotParticipant,
        ),
{
}

/// A vote is recorded before anything else is decided. While, with the
/// member's vote on it, fewer than half of the members approve the request,
/// the approval succeeds, the request stays pending with the vote recorded,
/// and no plan changes. That is so whether or not the plan has a free seat.
pub proof fn law_approval_below_quorum_is_recorded(
    state: StateView,
    sender: Seq<char>,
    plan_id: u64,
    requester: Seq<char>,
)
    requires
        state.wf(),
        state.has_plan(plan_id),
        has_request(state.requests, plan_id, requester),
        state.plan(plan_id).participants.contains(sender),
        !approval_quorum(
            state.requests[request_index(state.requests, plan_id, requester)].approved_by(
                sender,
            ).approvals.len(),
            state.plan(plan_id).participants.len(),
        ),
    ensures
        ({
            let at = request_index(state.requests, plan_id, requester);
            let voted = state.requests[at].approved_by(sender);
            &&& state.approve(sender, plan_id, requester) == quiet(
                StateView { requests: state.requests.update(at, voted), ..state },
                plan_id,
            )
            &&& voted.denials == state.requests[at].denials
            &&& voted.approvals == (if state.requests[at].has_voted(sender) {
                state.requests[at].approvals
            } else {
                state.requests[at].approvals.push(sender)
            })
        }),
{
}

/// A member who has voted on a request cannot vote on it again, nor change
/// sides: while the request is short of both quorums, a further approval or
/// denial by that member succeeds and changes nothing.
pub proof fn law_repeated_vote_changes_nothing(
    state: StateView,
    sender: Seq<char>,
    plan_id: u64,
    requester: Seq<char>,
)
    requires
        state.wf(),
        state.has_plan(plan_id),
        has_request(state.requests, plan_id, requester),
        state.plan(plan_id).participants.contains(sender),
        state.requests[request_index(state.requests, plan_id, requester)].has_voted(sender),
    ensures
        ({
            let request = state.requests[request_index(state.requests, plan_id, requester)];
            let members = state.plan(plan_id).participants.len();
            &&& !approval_quorum(request.approvals.len(), members) ==> state.approve(
                sender,
                plan_id,
                requester,
            ) == quiet(state, plan_id)
            &&& !denial_quorum(request.denials.len(), members) ==> state.deny(
                sender,
                plan_id,
                requester,
            ) == quiet(state, plan_id)
        }),
{
    let at = request_index(state.requests, plan_id, requester);
    assert(state.requests.update(at, state.requests[at]) =~= state.requests);
}

/// The approval that brings a request to its quorum decides it. Where the
/// plan has a free seat and the requester is no member yet, the requester
/// becomes the last member and the request is gone; an open plan whose last
/// seat that takes goes active. Where no seat is free the approval fails with
/// `PlanFull`, and where the requester already is a member with
/// `AlreadyParticipant`; a failed approval changes nothing.
pub proof fn law_approval_at_quorum_decides(
    state: StateView,
    sender: Seq<char>,
    plan_id: u64,
    requester: Seq<char>,
)
    requires
        state.wf(),
        state.has_plan(plan_id),
        has_request(state.requests, plan_id, requester),
        state.plan(plan_id).participants.contains(sender),
        approval_quorum(
            state.requests[request_index(state.requests, plan_id, requester)].approved_by(
                sender,
            ).approvals.len(),
            state.plan(plan_id).participants.len(),
        ),
    ensures
        ({
            let plan = state.plan(plan_id);
            let outcome = state.approve(sender, plan_id, requester);
            let full = plan.participants.len() >= plan.total_participants;
            &&& full ==> outcome == Err::<(StateView, ResponseView), ContractError>(
                ContractError::PlanFull,
            )
            &&& !full && plan.participants.contains(requester) ==> outcome == Err::<
                (StateView, ResponseView),
                ContractError,
            >(ContractError::AlreadyParticipant)
            &&& !full && !plan.participants.contains(requester) ==> outcome is Ok && ({
                let next = outcome->Ok_0.0;
                &&& next.plan(plan_id).participants == plan.participants.push(requester)
                &&& next.plan(plan_id).participants.no_duplicates()
                &&& !has_request(next.requests, plan_id, requester)
                &&& next.requests.len() == state.requests.len() - 1
                &&& next.plan(plan_id).is_active == (plan.is_active || (plan.phase() == Phase::Open
                    && plan.participants.len() + 1 == plan.total_participants))
            })
        }),
{
    let plan = state.plan(plan_id);
    let at = request_index(state.requests, plan_id, requester);
    if plan.participants.len() < plan.total_participants && !plan.participants.contains(
        requester,
    ) {
        crate::plan::lemma_new_member_is_distinct(plan.participants, requester);
        let next = state.approve(sender, plan_id, requester)->Ok_0.0;
        if has_request(next.requests, plan_id, requester) {
            let k = request_index(next.requests, plan_id, requester);
            let before = if k < at {
                k
            } else {
                k + 1
            };
            assert(next.requests[k] == state.requests[before]);
            if before < at {
                assert(!crate::state::is_request_for(
                    state.requests[before],
                    state.requests[at].plan_id,
                    state.requests[at].requester,
                ));
            } else {
                assert(!crate::state::is_request_for(
                    state.requests[at],
                    state.requests[before].plan_id,
                    state.requests[before].requester,
                ));
            }
        }
    }
}

/// An accepted contribution adds its amount to what the sender has paid
/// towards the current cycle, never takes that beyond what the plan asks
/// for, and changes no other balance and no plan.
pub proof fn law_contribution_adds_up(
    state: StateView,
    sender: Seq<char>,
    funds: Seq<CoinView>,
    plan_id: u64,
    amount: u128,
)
    requires
        state.wf(),
        state.contribute(sender, funds, plan_id, amount) is Ok,
    ensures
        ({
            let next = state.contribute(sender, funds, plan_id, amount)->Ok_0.0;
            let plan = state.plan(plan_id);
            &&& next.plans == state.plans
            &&& next.requests == state.requests
            &&& next.paid(plan, sender) == state.paid(plan, sender) + amount
            &&& next.paid(plan, sender) <= plan.contribution_amount
            &&& forall|key: LedgerKey|
                key != (LedgerKey { plan_id, cycle: plan.current_cycle, participant: sender })
                    ==> credited(next.ledger, key) == credited(state.ledger, key)
        }),
{
}

/// Who has paid the whole contribution of the current cycle can pay nothing
/// more towards it, whatever the amount.
pub proof fn law_paid_up_member_pays_no_more(
    state: StateView,
    sender: Seq<char>,
    funds: Seq<CoinView>,
    plan_id: u64,
    amount: u128,
)
    requires
        state.wf(),
        state.has_plan(plan_id),
        state.plan(plan_id).is_active,
        state.plan(plan_id).participants.contains(sender),
        state.paid(state.plan(plan_id), sender) >= state.plan(plan_id).contribution_amount,
    ensures
        state.contribute(sender, funds, plan_id, amount) == Err::<
            (StateView, ResponseView),
            ContractError,
        >(ContractError::InvalidInput),
{
}

/// A contribution of more than is still owed for the cycle is turned down.
pub proof fn law_contribution_is_capped(
    state: StateView,
    sender: Seq<char>,
    funds: Seq<CoinView>,
    plan_id: u64,
    amount: u128,
)
    requires
        state.wf(),
        state.has_plan(plan_id),
        state.plan(plan_id).is_active,
        state.plan(plan_id).participants.contains(sender),
        state.paid(state.plan(plan_id), sender) + amount > state.plan(plan_id).contribution_amount,
    ensures
        state.contribute(sender, funds, plan_id, amount) == Err::<
            (StateView, ResponseView),
            ContractError,
        >(ContractError::InvalidInput),
{
}

/// While the pot of the current cycle is short, no payout is made: whoever
/// asks, the answer is an error, and for the admin of an active plan it is
/// `InsufficientContributions`.
pub proof fn law_short_pot_is_not_paid(state: StateView, sender: Seq<char>, plan_id: u64)
    requires
        state.wf(),
        state.has_plan(plan_id),
        collected(
            state.ledger,
            plan_id,
            state.plan(plan_id).current_cycle,
            state.plan(plan_id).participants,
        ) < state.plan(plan_id).pot(),
    ensures
        state.distribute_payout(sender, plan_id) is Err,
        sender == state.admin && state.plan(plan_id).is_active ==> state.distribute_payout(
            sender,
            plan_id,
        ) == Err::<(StateView, ResponseView), ContractError>(
            ContractError::InsufficientContributions,
        ),
{
}

/// A payout sends exactly one transfer: the whole pot, in the payout
/// denomination, to the member whose turn it is. It passes the turn to the
/// next member, completes one cycle, and changes nothing else of the plan.
pub proof fn law_payout(state: StateView, sender: Seq<char>, plan_id: u64)
    requires
        state.wf(),
        state.distribute_payout(sender, plan_id) is Ok,
    ensures
        ({
            let (next, response) = state.distribute_payout(sender, plan_id)->Ok_0;
            let plan = state.plan(plan_id);
            let paid_plan = next.plan(plan_id);
            let n = plan.participants.len() as int;
            &&& response.messages.len() == 1
            &&& response.messages[0].to_address == plan.participants[plan.payout_index as int]
            &&& response.messages[0].amount.len() == 1
            &&& response.messages[0].amount[0].amount == plan.contribution_amount * n
            &&& response.messages[0].amount[0].denom == crate::coin::denomination()
            &&& paid_plan.payout_index == (plan.payout_index + 1) % n
            &&& paid_plan.current_cycle == plan.current_cycle + 1
            &&& paid_plan.is_active == (plan.current_cycle + 1 < plan.total_cycles())
            &&& paid_plan.participants == plan.participants
            &&& forall|who: Seq<char>| #[trigger]
                plan.participants.contains(who) ==> credited(
                    next.ledger,
                    LedgerKey { plan_id, cycle: plan.current_cycle, participant: who },
                ) == 0
        }),
{
    let plan = state.plan(plan_id);
    lemma_total_cycles_bounds(plan);
    assert(plan.contribution_amount * plan.participants.len() <= 100000 * 100) by (nonlinear_arith)
        requires
            plan.contribution_amount <= 100000,
            plan.participants.len() <= 100,
    ;
    let n = plan.participants.len() as int;
    assert(0 <= (plan.payout_index + 1) % n < n) by (nonlinear_arith)
        requires
            n > 0,
    ;
    let next = state.distribute_payout(sender, plan_id)->Ok_0.0;
    assert forall|who: Seq<char>| #[trigger] plan.participants.contains(who) implies credited(
        next.ledger,
        LedgerKey { plan_id, cycle: plan.current_cycle, participant: who },
    ) == 0 by {
        crate::ledger::lemma_cleared(
            state.ledger,
            plan_id,
            plan.current_cycle,
            plan.participants,
            LedgerKey { plan_id, cycle: plan.current_cycle, participant: who },
        );
    }
}

/// The payout of the last cycle closes the plan, and no earlier one does.
pub proof fn law_last_cycle_closes(plan: PlanView)
    requires
        plan.wf(),
        plan.is_active,
    ensures
        plan.rotate().is_active <==> plan.current_cycle + 1 < plan.total_cycles(),
        plan.rotate().wf(),
{
    lemma_total_cycles_bounds(plan);
    let n = plan.participants.len() as int;
    assert(0 <= (plan.payout_index + 1) % n < n) by (nonlinear_arith)
        requires
            n > 0,
    ;
}

/// The plan after `count` payouts in a row.
pub open spec fn after_payouts(plan: PlanView, count: nat) -> PlanView
    decreases count,
{
    if count == 0 {
        plan
    } else {
        after_payouts(plan, (count - 1) as nat).rotate()
    }
}

/// After `count` payouts in a row the turn has moved on by `count` members,
/// round the group, and the members are who they were.
pub proof fn law_turn_advances(plan: PlanView, count: nat)
    requires
        plan.wf(),
    ensures
        after_payouts(plan, count).participants == plan.participants,
        after_payouts(plan, count).payout_index == (plan.payout_index + count) % (
        plan.participants.len() as int),
    decreases count,
{
    let n = plan.participants.len() as int;
    if count == 0 {
        vstd::arithmetic::div_mod::lemma_small_mod(plan.payout_index as nat, n as nat);
    } else {
        law_turn_advances(plan, (count - 1) as nat);
        let before = after_payouts(plan, (count - 1) as nat);
        let i = before.payout_index as int;
        assert(i == (plan.payout_index + count - 1) % n);
        vstd::arithmetic::div_mod::lemma_add_mod_noop(plan.payout_index + count - 1, 1, n);
        vstd::arithmetic::div_mod::lemma_mod_twice(plan.payout_index + count - 1, n);
        if n == 1 {
            assert((i + 1) % n == 0);
            assert((plan.payout_index + count) % n == 0);
        } else {
            vstd::arithmetic::div_mod::lemma_small_mod(1, n as nat);
        }
        assert(0 <= (plan.payout_index + count) % n < n) by (nonlinear_arith)
            requires
                n > 0,
        ;
    }
}

/// Round-robin: in a plan whose turn is with the first member, the payouts
/// of one round go to the members in the order in which they joined, no two
/// of them to the same member, and the round ends with the turn back at the
/// first member.
pub proof fn law_round_robin(plan: PlanView)
    requires
        plan.wf(),
        plan.payout_index == 0,
    ensures
        forall|k: nat|
            k < plan.participants.len() ==> (#[trigger] after_payouts(plan, k)).recipient()
                == plan.participants[k as int],
        forall|j: nat, k: nat|
            j < k < plan.participants.len() ==> (#[trigger] after_payouts(plan, j)).recipient()
                != (#[trigger] after_payouts(plan, k)).recipient(),
        after_payouts(plan, plan.participants.len()).payout_index == 0,
{
    let n = plan.participants.len();
    assert forall|k: nat| k < n implies (#[trigger] after_payouts(plan, k)).recipient()
        == plan.participants[k as int] by {
        law_turn_advances(plan, k);
        vstd::arithmetic::div_mod::lemma_small_mod(k, n);
    }
    law_turn_advances(plan, n);
    vstd::arithmetic::div_mod::lemma_mod_self_0(n as int);
}

/// Round-robin over the instructions: take a plan whose turn is with its
/// first member, and as many successful payouts as it has members, the
/// `k`-th made from the state `before[k]`. If nothing but those payouts
/// touched the plan in between, the `k`-th pot goes to the `k`-th member in
/// join order: every member is paid once.
pub proof fn law_round_robin_payouts(before: Seq<StateView>, sender: Seq<char>, plan_id: u64)
    requires
        before.len() >= 1,
        before[0].wf(),
        before[0].has_plan(plan_id),
        before[0].plan(plan_id).payout_index == 0,
        before.len() == before[0].plan(plan_id).participants.len(),
        forall|k: int|
            0 <= k < before.len() ==> (#[trigger] before[k]).has_plan(plan_id) && before[k].distribute_payout(
                sender,
                plan_id,
            ) is Ok,
        forall|k: int|
            0 <= k < before.len() - 1 ==> (#[trigger] before[k + 1]).plan(plan_id) == before[k].distribute_payout(
                sender,
                plan_id,
            )->Ok_0.0.plan(plan_id),
    ensures
        forall|k: int|
            0 <= k < before.len() ==> (#[trigger] before[k]).distribute_payout(
                sender,
                plan_id,
            )->Ok_0.1.messages[0].to_address == before[0].plan(plan_id).participants[k],
{
    let plan = before[0].plan(plan_id);
    assert forall|k: int| 0 <= k < before.len() implies (#[trigger] before[k]).plan(plan_id)
        == after_payouts(plan, k as nat) by {
        lemma_payouts_follow(before, sender, plan_id, k);
    }
    law_round_robin(plan);
    assert forall|k: int| 0 <= k < before.len() implies (#[trigger] before[k]).distribute_payout(
        sender,
        plan_id,
    )->Ok_0.1.messages[0].to_address == plan.participants[k] by {
        assert(before[k].plan(plan_id) == after_payouts(plan, k as nat));
        assert(after_payouts(plan, k as nat).recipient() == plan.participants[k]);
    }
}

/// The plan before the `k`-th payout of a run is the first plan after `k`
/// payouts.
proof fn lemma_payouts_follow(before: Seq<StateView>, sender: Seq<char>, plan_id: u64, k: int)
    requires
        0 <= k < before.len(),
        forall|j: int|
            0 <= j < before.len() ==> (#[trigger] before[j]).has_plan(plan_id) && before[j].distribute_payout(
                sender,
                plan_id,
            ) is Ok,
        forall|j: int|
            0 <= j < before.len() - 1 ==> (#[trigger] before[j + 1]).plan(plan_id) == before[j].distribute_payout(
                sender,
                plan_id,
            )->Ok_0.0.plan(plan_id),
    ensures
        before[k].plan(plan_id) == after_payouts(before[0].plan(plan_id), k as nat),
    decreases k,
{
    if k > 0 {
        lemma_payouts_follow(before, sender, plan_id, k - 1);
        let earlier = before[k - 1];
        assert(earlier.has_plan(plan_id) && earlier.distribute_payout(sender, plan_id) is Ok);
        assert(before[k - 1 + 1].plan(plan_id) == earlier.distribute_payout(
            sender,
            plan_id,
        )->Ok_0.0.plan(plan_id));
    }
}

} // verus!
