use crate::amount::{amount_saturating_sub, remaining_of};
use crate::error::ContractError;
use crate::membership::{requests, JoinRequest, JoinRequestView};
use crate::msg::{
    JoinRequestsResponse, ParticipantCycleStatusResponse, ParticipantStatus, PlanResponse,
    QueryMsg, QueryResponse,
};
use crate::plan::{Plan, PlanView};
use crate::state::{created_by, filed_for, State, StateView};
use crate::text::same_text;
use vstd::prelude::*;

verus! {

/// What a [`QueryResponse`] holds, as mathematical values.
pub enum QueryResponseView {
    Plan(Option<PlanView>),
    Plans(Seq<Option<PlanView>>),
    PlanCount(u64),
    JoinRequests(Seq<JoinRequestView>),
    CycleStatus(ParticipantCycleStatusResponse),
    Status(ParticipantStatus),
}

impl View for PlanResponse {
    type V = Option<PlanView>;

    open spec fn view(&self) -> Option<PlanView> {
        match self.plan {
            Some(plan) => Some(plan@),
            None => None,
        }
    }
}

/// What each answer of a list holds.
pub open spec fn plan_responses(list: Seq<PlanResponse>) -> Seq<Option<PlanView>> {
    list.map_values(|r: PlanResponse| r@)
}

impl View for QueryResponse {
    type V = QueryResponseView;

    open spec fn view(&self) -> QueryResponseView {
        match self {
            QueryResponse::Plan(r) => QueryResponseView::Plan(r@),
            QueryResponse::Plans(list) => QueryResponseView::Plans(plan_responses(list@)),
            QueryResponse::PlanCount(n) => QueryResponseView::PlanCount(*n),
            QueryResponse::JoinRequests(r) => QueryResponseView::JoinRequests(
                requests(r.requests@),
            ),
            QueryResponse::CycleStatus(s) => QueryResponseView::CycleStatus(*s),
            QueryResponse::Status(s) => QueryResponseView::Status(*s),
        }
    }
}

/// The view of an answer, or the error in its place.
pub open spec fn answer_view(res: Result<QueryResponse, ContractError>) -> Result<
    QueryResponseView,
    ContractError,
> {
    match res {
        Ok(r) => Ok(r@),
        Err(e) => Err(e),
    }
}

impl StateView {
    /// The plan stored under `plan_id`, if there is one.
    pub open spec fn find_plan(self, plan_id: u64) -> Option<PlanView> {
        if self.has_plan(plan_id) {
            Some(self.plan(plan_id))
        } else {
            None
        }
    }

    /// Where `participant` stands in the current cycle of plan `plan_id`.
    pub open spec fn cycle_status(self, plan_id: u64, participant: Seq<char>) -> Result<
        ParticipantCycleStatusResponse,
        ContractError,
    > {
        if !self.has_plan(plan_id) {
            Err(ContractError::NotFound)
        } else {
            let plan = self.plan(plan_id);
            let paid = self.paid(plan, participant);
            Ok(
                ParticipantCycleStatusResponse {
                    required: plan.contribution_amount,
                    contributed_this_cycle: paid,
                    remaining_this_cycle: remaining_of(plan.contribution_amount, paid),
                    fully_contributed: paid >= plan.contribution_amount,
                },
            )
        }
    }

    /// What `participant` has paid towards the current cycle of plan
    /// `plan_id`, and whether `participant` stands before the member whose
    /// turn it is.
    pub open spec fn participant_status(self, plan_id: u64, participant: Seq<char>) -> Result<
        ParticipantStatus,
        ContractError,
    > {
        if !self.has_plan(plan_id) {
            Err(ContractError::NotFound)
        } else {
            let plan = self.plan(plan_id);
            Ok(
                ParticipantStatus {
                    contributed: self.paid(plan, participant),
                    received_payout: plan.participants.take(plan.payout_index as int).contains(
                        participant,
                    ),
                },
            )
        }
    }

    /// The answer to a question.
    pub open spec fn answer(self, msg: QueryMsg) -> Result<QueryResponseView, ContractError> {
        match msg {
            QueryMsg::GetPlan { plan_id } => Ok(QueryResponseView::Plan(self.find_plan(plan_id))),
            QueryMsg::GetPlansByCreator { creator } => Ok(
                QueryResponseView::Plans(
                    self.plans_of(creator@).map_values(|p: PlanView| Some(p)),
                ),
            ),
            QueryMsg::GetPlanCount {  } => Ok(QueryResponseView::PlanCount(self.plans.len() as u64)),
            QueryMsg::GetJoinRequests { plan_id } => Ok(
                QueryResponseView::JoinRequests(self.requests_for(plan_id)),
            ),
            QueryMsg::GetParticipantCycleStatus { plan_id, participant } => match self.cycle_status(
                plan_id,
                participant@,
            ) {
                Ok(s) => Ok(QueryResponseView::CycleStatus(s)),
                Err(e) => Err(e),
            },
            QueryMsg::GetParticipantStatus { plan_id, participant } => match self.participant_status(
                plan_id,
                participant@,
            ) {
                Ok(s) => Ok(QueryResponseView::Status(s)),
                Err(e) => Err(e),
            },
        }
    }
}

/// The plan stored under `plan_id`, if there is one.
pub fn query_plan(state: &State, plan_id: u64) -> (response: PlanResponse)
    ensures
        response@ == state@.find_plan(plan_id),
{
    if plan_id == 0 || plan_id > state.plans.len() as u64 {
        PlanResponse { plan: None }
    } else {
        PlanResponse { plan: Some(state.plans[(plan_id - 1) as usize].duplicate()) }
    }
}

/// The plans that `creator` created, in the order of their identifiers.
pub fn query_plans_by_creator(state: &State, creator: &String) -> (found: Vec<PlanResponse>)
    ensures
        plan_responses(found@) == state@.plans_of(creator@).map_values(|p: PlanView| Some(p)),
{
    let ghost all = state@.plans;
    let mut found: Vec<PlanResponse> = Vec::new();
    let mut i: usize = 0;
    proof {
        reveal(Seq::filter);
        assert(all.subrange(0, 0) =~= Seq::<PlanView>::empty());
        assert(plan_responses(found@) =~= created_by(all.subrange(0, 0), creator@).map_values(
            |p: PlanView| Some(p),
        ));
    }
    while i < state.plans.len()
        invariant
            i <= state.plans.len(),
            all == state@.plans,
            plan_responses(found@) == created_by(all.subrange(0, i as int), creator@).map_values(
                |p: PlanView| Some(p),
            ),
        decreases state.plans.len() - i,
    {
        let ghost before = found@;
        proof {
            reveal(Seq::filter);
            assert(all.subrange(0, i + 1).drop_last() =~= all.subrange(0, i as int));
            assert(all.subrange(0, i + 1).last() == state.plans@[i as int]@);
        }
        if same_text(&state.plans[i].created_by, creator) {
            found.push(PlanResponse { plan: Some(state.plans[i].duplicate()) });
            assert(plan_responses(found@) =~= plan_responses(before).push(
                Some(state.plans@[i as int]@),
            ));
            assert(plan_responses(found@) =~= created_by(
                all.subrange(0, i + 1),
                creator@,
            ).map_values(|p: PlanView| Some(p)));
        }
        i += 1;
    }
    assert(all.subrange(0, state.plans.len() as int) =~= all);
    found
}

/// How many plans have been created.
pub fn query_plan_count(state: &State) -> (count: u64)
    ensures
        count == state@.plans.len(),
{
    state.plans.len() as u64
}

/// The pending requests for plan `plan_id`, oldest first.
pub fn query_join_requests(state: &State, plan_id: u64) -> (response: JoinRequestsResponse)
    ensures
        requests(response.requests@) == state@.requests_for(plan_id),
{
    let ghost all = state@.requests;
    let mut found: Vec<JoinRequest> = Vec::new();
    let mut i: usize = 0;
    proof {
        reveal(Seq::filter);
        assert(all.subrange(0, 0) =~= Seq::<JoinRequestView>::empty());
        assert(requests(found@) =~= filed_for(all.subrange(0, 0), plan_id));
    }
    while i < state.join_requests.len()
        invariant
            i <= state.join_requests.len(),
            all == state@.requests,
            requests(found@) == filed_for(all.subrange(0, i as int), plan_id),
        decreases state.join_requests.len() - i,
    {
        let ghost before = found@;
        proof {
            reveal(Seq::filter);
            assert(all.subrange(0, i + 1).drop_last() =~= all.subrange(0, i as int));
            assert(all.subrange(0, i + 1).last() == state.join_requests@[i as int]@);
        }
        if state.join_requests[i].plan_id == plan_id {
            found.push(state.join_requests[i].duplicate());
            assert(requests(found@) =~= requests(before).push(state.join_requests@[i as int]@));
        }
        i += 1;
    }
    assert(all.subrange(0, state.join_requests.len() as int) =~= all);
    JoinRequestsResponse { requests: found }
}

/// Where `participant` stands in the current cycle of plan `plan_id`: what is
/// asked, what has come in, what is left to pay and whether all of it is in.
pub fn query_participant_cycle_status(state: &State, plan_id: u64, participant: &String) -> (status:
    Result<ParticipantCycleStatusResponse, ContractError>)
    ensures
        status == state@.cycle_status(plan_id, participant@),
{
    if plan_id == 0 || plan_id > state.plans.len() as u64 {
        return Err(ContractError::NotFound);
    }
    let plan = &state.plans[(plan_id - 1) as usize];
    let contributed = state.ledger.get(plan.id, plan.current_cycle, participant);
    let required = plan.contribution_amount;
    Ok(
        ParticipantCycleStatusResponse {
            required,
            contributed_this_cycle: contributed,
            remaining_this_cycle: amount_saturating_sub(required, contributed),
            fully_contributed: contributed >= required,
        },
    )
}

/// What `participant` has paid towards the current cycle of plan `plan_id`,
/// and whether `participant` stands before the member whose turn it is.
pub fn query_participant_status(state: &State, plan_id: u64, participant: &String) -> (status:
    Result<ParticipantStatus, ContractError>)
    requires
        state.wf(),
    ensures
        status == state@.participant_status(plan_id, participant@),
{
    if plan_id == 0 || plan_id > state.plans.len() as u64 {
        return Err(ContractError::NotFound);
    }
    let plan = &state.plans[(plan_id - 1) as usize];
    let contributed = state.ledger.get(plan.id, plan.current_cycle, participant);
    let ghost served = plan@.participants.take(plan.payout_index as int);
    let mut received_payout = false;
    let mut i: usize = 0;
    while i < plan.payout_index as usize
        invariant
            i <= plan.payout_index < plan.participants.len(),
            served == plan@.participants.take(plan.payout_index as int),
            received_payout == exists|j: int| 0 <= j < i && served[j] == participant@,
        decreases plan.payout_index - i,
    {
        if same_text(&plan.participants[i], participant) {
            assert(served[i as int] == participant@);
            received_payout = true;
        }
        i += 1;
    }
    Ok(ParticipantStatus { contributed, received_payout })
}

/// Answers a question about the state.
pub fn query(state: &State, msg: QueryMsg) -> (res: Result<QueryResponse, ContractError>)
    requires
        state.wf(),
    ensures
        answer_view(res) == state@.answer(msg),
{
    match msg {
        QueryMsg::GetPlan { plan_id } => Ok(QueryResponse::Plan(query_plan(state, plan_id))),
        QueryMsg::GetPlansByCreator { creator } => Ok(
            QueryResponse::Plans(query_plans_by_creator(state, &creator)),
        ),
        QueryMsg::GetPlanCount {  } => Ok(QueryResponse::PlanCount(query_plan_count(state))),
        QueryMsg::GetJoinRequests { plan_id } => Ok(
            QueryResponse::JoinRequests(query_join_requests(state, plan_id)),
        ),
        QueryMsg::GetParticipantCycleStatus { plan_id, participant } => {
            match query_participant_cycle_status(state, plan_id, &participant) {
                Ok(status) => Ok(QueryResponse::CycleStatus(status)),
                Err(e) => Err(e),
            }
        },
        QueryMsg::GetParticipantStatus { plan_id, participant } => {
            match query_participant_status(state, plan_id, &participant) {
                Ok(status) => Ok(QueryResponse::Status(status)),
                Err(e) => Err(e),
            }
        },
    }
}

} // verus!
