use vstd::prelude::*;

verus! {

/// Why an instruction was turned down. A rejected instruction changes nothing.
#[derive(Clone, Copy, Debug, PartialEq, Eq, Structural)]
pub enum ContractError {
    /// A field is out of range, a frequency is unknown, the attached funds do
    /// not cover the amount, or the amount is more than is still owed.
    InvalidInput,
    /// The caller is not the admin, or not the plan's creator.
    Unauthorized,
    /// The plan has already gone active.
    PlanActive,
    /// The plan is not rotating payouts.
    PlanNotActive,
    /// Every seat of the plan is taken.
    PlanFull,
    /// The caller already is a member.
    AlreadyParticipant,
    /// The caller already has a pending request for this plan.
    AlreadyRequested,
    /// The caller's trust score is below what the plan asks for.
    InsufficientTrustScore,
    /// The pot of the current cycle is not full yet.
    InsufficientContributions,
    /// The caller is not a member of the plan.
    NotParticipant,
    /// No plan, or no join request, is stored under the given key.
    NotFound,
}

} // verus!
