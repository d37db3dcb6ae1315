use crate::coin::{coins, Coin};
use crate::membership::JoinRequest;
use crate::plan::Plan;
use crate::state::{BankSendView, LifecyclePolicy, ResponseView};
use vstd::prelude::*;

verus! {

/// Who makes a call, and the coins that come with it.
#[derive(Clone, Debug, PartialEq, Eq)]
pub struct MessageInfo {
    pub sender: String,
    pub funds: Vec<Coin>,
}

/// What the surroundings report at the time of a call.
#[derive(Clone, Debug, PartialEq, Eq)]
pub struct Env {
    /// The trust score of the caller.
    pub trust_score: u32,
    /// Everything that is held on behalf of the plans.
    pub balance: Vec<Coin>,
}

/// An instruction to send coins to an address.
#[derive(Clone, Debug, PartialEq, Eq)]
pub struct BankSend {
    pub to_address: String,
    pub amount: Vec<Coin>,
}

impl View for BankSend {
    type V = BankSendView;

    open spec fn view(&self) -> BankSendView {
        BankSendView { to_address: self.to_address@, amount: coins(self.amount@) }
    }
}

/// What each transfer of a list holds.
pub open spec fn transfers(list: Seq<BankSend>) -> Seq<BankSendView> {
    list.map_values(|m: BankSend| m@)
}

/// What an accepted instruction hands back: the plan that it acted on and
/// the transfers to be made.
#[derive(Clone, Debug, PartialEq, Eq)]
pub struct Response {
    pub plan_id: u64,
    pub messages: Vec<BankSend>,
}

impl View for Response {
    type V = ResponseView;

    open spec fn view(&self) -> ResponseView {
        ResponseView { plan_id: self.plan_id, messages: transfers(self.messages@) }
    }
}

/// How the state is set up.
#[derive(Clone, Debug, PartialEq, Eq)]
pub struct InstantiateMsg {
    pub policy: LifecyclePolicy,
}

/// The instructions.
#[allow(inconsistent_fields)]
#[derive(Clone, Debug, PartialEq, Eq)]
pub enum ExecuteMsg {
    CreatePlan {
        name: String,
        description: String,
        total_participants: u32,
        contribution_amount: u128,
        frequency: String,
        duration_months: u32,
        trust_score_required: u32,
        allow_partial: bool,
    },
    JoinPlan { plan_id: u64 },
    RequestToJoinPlan { plan_id: u64 },
    ApproveJoinRequest { plan_id: u64, requester: String },
    DenyJoinRequest { plan_id: u64, requester: String },
    Contribute { plan_id: u64, amount: u128 },
    DistributePayout { plan_id: u64 },
    CancelPlan { plan_id: u64 },
    UpdatePlan {
        plan_id: u64,
        name: Option<String>,
        description: Option<String>,
        total_participants: Option<u32>,
        contribution_amount: Option<u128>,
        frequency: Option<String>,
        duration_months: Option<u32>,
        trust_score_required: Option<u32>,
        allow_partial: Option<bool>,
    },
    EmergencyWithdraw { plan_id: u64 },
}

/// The questions.
#[allow(inconsistent_fields)]
#[derive(Clone, Debug, PartialEq, Eq)]
pub enum QueryMsg {
    GetPlan { plan_id: u64 },
    GetPlansByCreator { creator: String },
    GetPlanCount {  },
    GetJoinRequests { plan_id: u64 },
    GetParticipantCycleStatus { plan_id: u64, participant: String },
    GetParticipantStatus { plan_id: u64, participant: String },
}

/// A plan, or nothing where no plan has the identifier asked for.
#[derive(Clone, Debug, PartialEq, Eq)]
pub struct PlanResponse {
    pub plan: Option<Plan>,
}

/// The pending requests of one plan, oldest first.
#[derive(Clone, Debug, PartialEq, Eq)]
pub struct JoinRequestsResponse {
    pub requests: Vec<JoinRequest>,
}

/// Where a member stands in the current cycle of a plan.
#[derive(Clone, Copy, Debug, PartialEq, Eq, Structural)]
pub struct ParticipantCycleStatusResponse {
    pub required: u128,
    pub contributed_this_cycle: u128,
    pub remaining_this_cycle: u128,
    pub fully_contributed: bool,
}

/// What a member has paid towards the current cycle, and whether the member
/// has had a turn in the current round.
#[derive(Clone, Copy, Debug, PartialEq, Eq, Structural)]
pub struct ParticipantStatus {
    pub contributed: u128,
    pub received_payout: bool,
}

/// The answer to a question.
#[derive(Clone, Debug, PartialEq, Eq)]
pub enum QueryResponse {
    Plan(PlanResponse),
    Plans(Vec<PlanResponse>),
    PlanCount(u64),
    JoinRequests(JoinRequestsResponse),
    CycleStatus(ParticipantCycleStatusResponse),
    Status(ParticipantStatus),
}

} // verus!
