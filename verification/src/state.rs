use crate::coin::{attached, denomination, CoinView};
use crate::error::ContractError;
use crate::ledger::{cleared, collected, credited, Ledger, LedgerKey};
use crate::membership::{
    approval_quorum, denial_quorum, requests, JoinRequest, JoinRequestView,
};
use crate::plan::{create_outcome, Plan, PlanUpdateView, PlanView};
use vstd::prelude::*;

verus! {

/// How a new plan starts its life.
#[derive(Clone, Copy, Debug, PartialEq, Eq, Structural)]
pub enum LifecyclePolicy {
    /// A plan rotates from the moment it is created.
    DirectJoin,
    /// A plan stays open until its last seat is taken.
    OpenEnrollment,
}

/// Set once, when the state is created.
#[derive(Clone, Debug, PartialEq, Eq)]
pub struct Config {
    /// The only identity that may trigger payouts.
    pub admin: String,
    pub policy: LifecyclePolicy,
}

/// Everything that is kept between two instructions.
#[derive(Clone, Debug, PartialEq, Eq)]
pub struct State {
    pub config: Config,
    /// The plan with identifier `i + 1` stands at index `i`.
    pub plans: Vec<Plan>,
    pub ledger: Ledger,
    /// The pending requests, oldest first.
    pub join_requests: Vec<JoinRequest>,
}

/// What a [`State`] holds, as mathematical values.
pub struct StateView {
    pub admin: Seq<char>,
    pub policy: LifecyclePolicy,
    pub plans: Seq<PlanView>,
    pub ledger: Map<LedgerKey, u128>,
    pub requests: Seq<JoinRequestView>,
}

/// An instruction to send coins to an address.
pub struct BankSendView {
    pub to_address: Seq<char>,
    pub amount: Seq<CoinView>,
}

/// What an accepted instruction hands back: the plan that it acted on and
/// the transfers to be made.
pub struct ResponseView {
    pub plan_id: u64,
    pub messages: Seq<BankSendView>,
}

/// What each plan of a list holds.
pub open spec fn plans(list: Seq<Plan>) -> Seq<PlanView> {
    list.map_values(|p: Plan| p@)
}

impl View for State {
    type V = StateView;

    open spec fn view(&self) -> StateView {
        StateView {
            admin: self.config.admin@,
            policy: self.config.policy,
            plans: plans(self.plans@),
            ledger: self.ledger@,
            requests: requests(self.join_requests@),
        }
    }
}

/// Whether `request` is the one of `requester` for plan `plan_id`.
pub open spec fn is_request_for(request: JoinRequestView, plan_id: u64, requester: Seq<char>) -> bool {
    request.plan_id == plan_id && request.requester == requester
}

/// Whether a request of `requester` for plan `plan_id` is pending.
pub open spec fn has_request(list: Seq<JoinRequestView>, plan_id: u64, requester: Seq<char>) -> bool {
    exists|i: int| 0 <= i < list.len() && is_request_for(#[trigger] list[i], plan_id, requester)
}

/// Where the pending request of `requester` for plan `plan_id` stands.
pub open spec fn request_index(list: Seq<JoinRequestView>, plan_id: u64, requester: Seq<char>) -> int {
    choose|i: int| 0 <= i < list.len() && is_request_for(#[trigger] list[i], plan_id, requester)
}

/// The plans of `list` that `creator` created, in the order of `list`.
pub open spec fn created_by(list: Seq<PlanView>, creator: Seq<char>) -> Seq<PlanView> {
    list.filter(|p: PlanView| p.created_by == creator)
}

/// The requests of `list` for plan `plan_id`, in the order of `list`.
pub open spec fn filed_for(list: Seq<JoinRequestView>, plan_id: u64) -> Seq<JoinRequestView> {
    list.filter(|r: JoinRequestView| r.plan_id == plan_id)
}

/// The result of an instruction that changes the state and sends nothing.
pub open spec fn quiet(state: StateView, plan_id: u64) -> Result<
    (StateView, ResponseView),
    ContractError,
> {
    Ok((state, ResponseView { plan_id, messages: seq![] }))
}

impl StateView {
    /// The state right after it was set up by `admin`.
    pub open spec fn initial(admin: Seq<char>, policy: LifecyclePolicy) -> StateView {
        StateView { admin, policy, plans: seq![], ledger: Map::empty(), requests: seq![] }
    }

    /// Whether a plan is stored under `plan_id`.
    pub open spec fn has_plan(self, plan_id: u64) -> bool {
        1 <= plan_id <= self.plans.len()
    }

    /// The plan stored under `plan_id`.
    pub open spec fn plan(self, plan_id: u64) -> PlanView {
        self.plans[plan_id - 1]
    }

    /// The state with `plan` stored under `plan_id`.
    pub open spec fn with_plan(self, plan_id: u64, plan: PlanView) -> StateView {
        StateView { plans: self.plans.update(plan_id - 1, plan), ..self }
    }

    /// The plans that `creator` created, in the order of their identifiers.
    pub open spec fn plans_of(self, creator: Seq<char>) -> Seq<PlanView> {
        created_by(self.plans, creator)
    }

    /// The pending requests for plan `plan_id`, oldest first.
    pub open spec fn requests_for(self, plan_id: u64) -> Seq<JoinRequestView> {
        filed_for(self.requests, plan_id)
    }

    /// What `participant` has paid towards the current cycle of `plan`.
    pub open spec fn paid(self, plan: PlanView, participant: Seq<char>) -> u128 {
        credited(
            self.ledger,
            LedgerKey { plan_id: plan.id, cycle: plan.current_cycle, participant },
        )
    }

    /// What every state satisfies between two instructions: each plan is well
    /// formed and stands at the index that its identifier names, no two
    /// pending requests are for the same plan and requester, and nobody has
    /// paid more towards a cycle than the plan asks for.
    pub open spec fn wf(self) -> bool {
        &&& forall|i: int|
            0 <= i < self.plans.len() ==> (#[trigger] self.plans[i]).wf() && self.plans[i].id == i
                + 1
        &&& forall|i: int| 0 <= i < self.requests.len() ==> (#[trigger] self.requests[i]).wf()
        &&& forall|i: int, j: int|
            0 <= i < j < self.requests.len() ==> !is_request_for(
                #[trigger] self.requests[i],
                (#[trigger] self.requests[j]).plan_id,
                self.requests[j].requester,
            )
        &&& forall|key: LedgerKey| #[trigger]
            credited(self.ledger, key) > 0 ==> self.has_plan(key.plan_id) && self.plan(
                key.plan_id,
            ).has_activated() && credited(self.ledger, key) <= self.plan(
                key.plan_id,
            ).contribution_amount
    }

    /// Creating a plan: the terms are checked, the next identifier is
    /// assigned and the creator becomes the first member.
    pub open spec fn create_plan(
        self,
        sender: Seq<char>,
        name: Seq<char>,
        description: Seq<char>,
        total_participants: u32,
        contribution_amount: u128,
        frequency: Seq<char>,
        duration_months: u32,
        trust_score_required: u32,
        allow_partial: bool,
    ) -> Result<(StateView, ResponseView), ContractError> {
        let plan_id = (self.plans.len() + 1) as u64;
        match create_outcome(
            plan_id,
            sender,
            name,
            description,
            total_participants,
            contribution_amount,
            frequency,
            duration_months,
            trust_score_required,
            allow_partial,
            self.policy == LifecyclePolicy::DirectJoin,
        ) {
            Ok(plan) => quiet(StateView { plans: self.plans.push(plan), ..self }, plan_id),
            Err(e) => Err(e),
        }
    }

    /// Joining a plan directly.
    pub open spec fn join_plan(self, sender: Seq<char>, trust_score: u32, plan_id: u64) -> Result<
        (StateView, ResponseView),
        ContractError,
    > {
        if !self.has_plan(plan_id) {
            Err(ContractError::NotFound)
        } else {
            match self.plan(plan_id).join(sender, trust_score) {
                Ok(plan) => quiet(self.with_plan(plan_id, plan), plan_id),
                Err(e) => Err(e),
            }
        }
    }

    /// Changing the terms of a plan.
    pub open spec fn update_plan(self, sender: Seq<char>, plan_id: u64, patch: PlanUpdateView) -> Result<
        (StateView, ResponseView),
        ContractError,
    > {
        if !self.has_plan(plan_id) {
            Err(ContractError::NotFound)
        } else {
            match self.plan(plan_id).update(sender, patch) {
                Ok(plan) => quiet(self.with_plan(plan_id, plan), plan_id),
                Err(e) => Err(e),
            }
        }
    }

    /// Cancelling a plan.
    pub open spec fn cancel_plan(self, sender: Seq<char>, plan_id: u64) -> Result<
        (StateView, ResponseView),
        ContractError,
    > {
        if !self.has_plan(plan_id) {
            Err(ContractError::NotFound)
        } else {
            match self.plan(plan_id).cancel(sender) {
                Ok(plan) => quiet(self.with_plan(plan_id, plan), plan_id),
                Err(e) => Err(e),
            }
        }
    }

    /// Asking to be admitted to a plan: a request without votes is filed,
    /// unless the sender already has one pending for that plan.
    pub open spec fn request_to_join(self, sender: Seq<char>, plan_id: u64) -> Result<
        (StateView, ResponseView),
        ContractError,
    > {
        if has_request(self.requests, plan_id, sender) {
            Err(ContractError::AlreadyRequested)
        } else {
            quiet(
                StateView {
                    requests: self.requests.push(JoinRequestView::fresh(plan_id, sender)),
                    ..self
                },
                plan_id,
            )
        }
    }

    /// Approving a request, which only a member can do. The vote is recorded
    /// first, and a voter who has voted before adds nothing. While fewer than
    /// half of the members of the moment approve, the request stays pending
    /// with the vote on it. Once at least half of them approve, the requester
    /// becomes the last member and the request is gone; where no seat is free
    /// or the requester already is a member, the approval fails and nothing
    /// changes.
    pub open spec fn approve(self, sender: Seq<char>, plan_id: u64, requester: Seq<char>) -> Result<
        (StateView, ResponseView),
        ContractError,
    > {
        if !self.has_plan(plan_id) || !has_request(self.requests, plan_id, requester) {
            Err(ContractError::NotFound)
        } else if !self.plan(plan_id).participants.contains(sender) {
            Err(ContractError::NotParticipant)
        } else {
            let at = request_index(self.requests, plan_id, requester);
            let plan = self.plan(plan_id);
            let voted = self.requests[at].approved_by(sender);
            if !approval_quorum(voted.approvals.len(), plan.participants.len()) {
                quiet(StateView { requests: self.requests.update(at, voted), ..self }, plan_id)
            } else if plan.participants.len() >= plan.total_participants {
                Err(ContractError::PlanFull)
            } else if plan.participants.contains(requester) {
                Err(ContractError::AlreadyParticipant)
            } else {
                quiet(
                    StateView {
                        plans: self.plans.update(plan_id - 1, plan.enroll(requester)),
                        requests: self.requests.remove(at),
                        ..self
                    },
                    plan_id,
                )
            }
        }
    }

    /// Denying a request, which only a member can do. The vote is recorded
    /// first, and a voter who has voted before adds nothing. Once more than
    /// half of the members of the moment deny, the request is gone.
    pub open spec fn deny(self, sender: Seq<char>, plan_id: u64, requester: Seq<char>) -> Result<
        (StateView, ResponseView),
        ContractError,
    > {
        if !self.has_plan(plan_id) || !has_request(self.requests, plan_id, requester) {
            Err(ContractError::NotFound)
        } else if !self.plan(plan_id).participants.contains(sender) {
            Err(ContractError::NotParticipant)
        } else {
            let at = request_index(self.requests, plan_id, requester);
            let voted = self.requests[at].denied_by(sender);
            if denial_quorum(voted.denials.len(), self.plan(plan_id).participants.len()) {
                quiet(StateView { requests: self.requests.remove(at), ..self }, plan_id)
            } else {
                quiet(StateView { requests: self.requests.update(at, voted), ..self }, plan_id)
            }
        }
    }

    /// Whether a member who has paid `already` towards the current cycle of
    /// `plan` may pay `amount` more, with `funds` attached to the call.
    pub open spec fn payable(plan: PlanView, already: u128, amount: u128, funds: Seq<CoinView>) -> bool {
        &&& attached(funds, denomination()) >= amount
        &&& already < plan.contribution_amount
        &&& (plan.allow_partial || amount == plan.contribution_amount)
        &&& amount <= plan.contribution_amount - already
    }

    /// Contributing to the current cycle of a plan.
    pub open spec fn contribute(
        self,
        sender: Seq<char>,
        funds: Seq<CoinView>,
        plan_id: u64,
        amount: u128,
    ) -> Result<(StateView, ResponseView), ContractError> {
        if !self.has_plan(plan_id) {
            Err(ContractError::NotFound)
        } else {
            let plan = self.plan(plan_id);
            let already = self.paid(plan, sender);
            if !plan.is_active {
                Err(ContractError::PlanNotActive)
            } else if !plan.participants.contains(sender) {
                Err(ContractError::NotParticipant)
            } else if !Self::payable(plan, already, amount, funds) {
                Err(ContractError::InvalidInput)
            } else {
                quiet(
                    StateView {
                        ledger: self.ledger.insert(
                            LedgerKey {
                                plan_id,
                                cycle: plan.current_cycle,
                                participant: sender,
                            },
                            (already + amount) as u128,
                        ),
                        ..self
                    },
                    plan_id,
                )
            }
        }
    }

    /// Paying out the pot of the current cycle of a plan.
    pub open spec fn distribute_payout(self, sender: Seq<char>, plan_id: u64) -> Result<
        (StateView, ResponseView),
        ContractError,
    > {
        if !self.has_plan(plan_id) {
            Err(ContractError::NotFound)
        } else {
            let plan = self.plan(plan_id);
            if sender != self.admin {
                Err(ContractError::Unauthorized)
            } else if !plan.is_active {
                Err(ContractError::PlanNotActive)
            } else if collected(self.ledger, plan_id, plan.current_cycle, plan.participants)
                < plan.pot() {
                Err(ContractError::InsufficientContributions)
            } else {
                Ok(
                    (
                        StateView {
                            plans: self.plans.update(plan_id - 1, plan.rotate()),
                            ledger: cleared(
                                self.ledger,
                                plan_id,
                                plan.current_cycle,
                                plan.participants,
                            ),
                            ..self
                        },
                        ResponseView {
                            plan_id,
                            messages: seq![
                                BankSendView {
                                    to_address: plan.recipient(),
                                    amount: seq![
                                        CoinView {
                                            denom: denomination(),
                                            amount: plan.pot() as u128,
                                        },
                                    ],
                                },
                            ],
                        },
                    ),
                )
            }
        }
    }

    /// Withdrawing everything that is held, for the creator of a plan that is
    /// not rotating.
    pub open spec fn emergency_withdraw(
        self,
        sender: Seq<char>,
        plan_id: u64,
        balance: Seq<CoinView>,
    ) -> Result<(StateView, ResponseView), ContractError> {
        if !self.has_plan(plan_id) {
            Err(ContractError::NotFound)
        } else if sender != self.plan(plan_id).created_by {
            Err(ContractError::Unauthorized)
        } else if self.plan(plan_id).is_active {
            Err(ContractError::PlanActive)
        } else {
            Ok(
                (
                    self,
                    ResponseView {
                        plan_id,
                        messages: seq![BankSendView { to_address: sender, amount: balance }],
                    },
                ),
            )
        }
    }
}

impl State {
    /// What every state satisfies between two instructions.
    pub open spec fn wf(&self) -> bool {
        self@.wf()
    }
}

} // verus!
