use crate::error::ContractError;
use crate::frequency::{
    cycles_per_month, frequency_named, parse_frequency, plan_frequency_to_cycles, Frequency,
};
use crate::text::{char_count, clone_texts, contains_text, same_text, texts};
use vstd::prelude::*;

verus! {

/// A savings plan: its terms, its members in payout order, and where the
/// rotation stands.
#[derive(Clone, Debug, PartialEq, Eq)]
pub struct Plan {
    pub id: u64,
    pub name: String,
    pub description: String,
    pub total_participants: u32,
    pub contribution_amount: u128,
    pub frequency: Frequency,
    pub duration_months: u32,
    pub trust_score_required: u32,
    pub allow_partial: bool,
    pub participants: Vec<String>,
    pub current_cycle: u32,
    pub is_active: bool,
    pub payout_index: u32,
    pub is_cancelled: bool,
    pub created_by: String,
}

/// What a [`Plan`] holds, as mathematical values.
pub struct PlanView {
    pub id: u64,
    pub name: Seq<char>,
    pub description: Seq<char>,
    pub total_participants: u32,
    pub contribution_amount: u128,
    pub frequency: Frequency,
    pub duration_months: u32,
    pub trust_score_required: u32,
    pub allow_partial: bool,
    pub participants: Seq<Seq<char>>,
    pub current_cycle: u32,
    pub is_active: bool,
    pub payout_index: u32,
    pub is_cancelled: bool,
    pub created_by: Seq<char>,
}

impl View for Plan {
    type V = PlanView;

    open spec fn view(&self) -> PlanView {
        PlanView {
            id: self.id,
            name: self.name@,
            description: self.description@,
            total_participants: self.total_participants,
            contribution_amount: self.contribution_amount,
            frequency: self.frequency,
            duration_months: self.duration_months,
            trust_score_required: self.trust_score_required,
            allow_partial: self.allow_partial,
            participants: texts(self.participants@),
            current_cycle: self.current_cycle,
            is_active: self.is_active,
            payout_index: self.payout_index,
            is_cancelled: self.is_cancelled,
            created_by: self.created_by@,
        }
    }
}

/// New values for the terms of a plan; a field left `None` stays as it is.
#[derive(Clone, Debug, PartialEq, Eq)]
pub struct PlanUpdate {
    pub name: Option<String>,
    pub description: Option<String>,
    pub total_participants: Option<u32>,
    pub contribution_amount: Option<u128>,
    pub frequency: Option<String>,
    pub duration_months: Option<u32>,
    pub trust_score_required: Option<u32>,
    pub allow_partial: Option<bool>,
}

/// What a [`PlanUpdate`] holds, as mathematical values.
pub struct PlanUpdateView {
    pub name: Option<Seq<char>>,
    pub description: Option<Seq<char>>,
    pub total_participants: Option<u32>,
    pub contribution_amount: Option<u128>,
    pub frequency: Option<Seq<char>>,
    pub duration_months: Option<u32>,
    pub trust_score_required: Option<u32>,
    pub allow_partial: Option<bool>,
}

/// The characters of an optional string.
pub open spec fn text_of(s: Option<String>) -> Option<Seq<char>> {
    match s {
        Some(t) => Some(t@),
        None => None,
    }
}

impl View for PlanUpdate {
    type V = PlanUpdateView;

    open spec fn view(&self) -> PlanUpdateView {
        PlanUpdateView {
            name: text_of(self.name),
            description: text_of(self.description),
            total_participants: self.total_participants,
            contribution_amount: self.contribution_amount,
            frequency: text_of(self.frequency),
            duration_months: self.duration_months,
            trust_score_required: self.trust_score_required,
            allow_partial: self.allow_partial,
        }
    }
}

/// The bounds that the terms of every plan keep.
pub open spec fn terms_in_range(
    name: Seq<char>,
    description: Seq<char>,
    total_participants: u32,
    contribution_amount: u128,
    duration_months: u32,
) -> bool {
    &&& 2 <= total_participants <= 100
    &&& 10 <= contribution_amount <= 100000
    &&& 1 <= duration_months <= 36
    &&& 3 <= name.len() <= 50
    &&& 10 <= description.len() <= 500
}

/// What creating a plan from the given terms gives: the new plan, with its
/// creator as first and only member, or `InvalidInput` where a term is out of
/// range or the frequency literal names no frequency.
pub open spec fn create_outcome(
    id: u64,
    creator: Seq<char>,
    name: Seq<char>,
    description: Seq<char>,
    total_participants: u32,
    contribution_amount: u128,
    frequency: Seq<char>,
    duration_months: u32,
    trust_score_required: u32,
    allow_partial: bool,
    starts_active: bool,
) -> Result<PlanView, ContractError> {
    if !terms_in_range(
        name,
        description,
        total_participants,
        contribution_amount,
        duration_months,
    ) {
        Err(ContractError::InvalidInput)
    } else {
        match frequency_named(frequency) {
            None => Err(ContractError::InvalidInput),
            Some(f) => Ok(
                PlanView {
                    id,
                    name,
                    description,
                    total_participants,
                    contribution_amount,
                    frequency: f,
                    duration_months,
                    trust_score_required,
                    allow_partial,
                    participants: seq![creator],
                    current_cycle: 0,
                    is_active: starts_active,
                    payout_index: 0,
                    is_cancelled: false,
                    created_by: creator,
                },
            ),
        }
    }
}

/// Where a plan stands in its life.
#[derive(Clone, Copy, Debug, PartialEq, Eq, Structural)]
pub enum Phase {
    /// Forming: members may join, the creator may change the terms or cancel.
    Open,
    /// Rotating: contributions come in and pots go out.
    Active,
    /// Every cycle has been paid out.
    Completed,
    /// Cancelled by its creator before it ever rotated.
    Cancelled,
}

impl PlanView {
    /// Where the plan stands in its life.
    pub open spec fn phase(self) -> Phase {
        if self.is_cancelled {
            Phase::Cancelled
        } else if self.is_active {
            Phase::Active
        } else if self.current_cycle > 0 {
            Phase::Completed
        } else {
            Phase::Open
        }
    }

    /// Number of payout rounds after which the plan is complete.
    pub open spec fn total_cycles(self) -> nat {
        self.duration_months as nat * cycles_per_month(self.frequency)
    }

    /// Whether the plan is rotating now or has ever done so.
    pub open spec fn has_activated(self) -> bool {
        self.is_active || self.current_cycle > 0
    }

    /// The whole pot of one cycle: every member's contribution.
    pub open spec fn pot(self) -> nat {
        self.contribution_amount as nat * self.participants.len()
    }

    /// The member whose turn it is.
    pub open spec fn recipient(self) -> Seq<char> {
        self.participants[self.payout_index as int]
    }

    /// What every stored plan satisfies.
    pub open spec fn wf(self) -> bool {
        &&& terms_in_range(
            self.name,
            self.description,
            self.total_participants,
            self.contribution_amount,
            self.duration_months,
        )
        &&& self.id >= 1
        &&& 1 <= self.participants.len() <= self.total_participants
        &&& self.participants.no_duplicates()
        &&& self.participants[0] == self.created_by
        &&& self.payout_index < self.participants.len()
        &&& self.current_cycle <= self.total_cycles()
        &&& (self.is_active ==> self.current_cycle < self.total_cycles())
        &&& (self.is_cancelled ==> !self.has_activated())
    }

    /// The plan with `who` as its last member. An open plan goes active when
    /// that takes its last seat; a plan in any other phase stays in it.
    pub open spec fn enroll(self, who: Seq<char>) -> PlanView {
        PlanView {
            participants: self.participants.push(who),
            is_active: self.is_active || (self.phase() == Phase::Open && self.participants.len()
                + 1 == self.total_participants),
            ..self
        }
    }

    /// What a direct join by `who` gives: the plan with `who` as its last
    /// member, active if that filled the last seat, or the reason for which
    /// `who` is turned away. A plan without a free seat answers `PlanFull`
    /// whatever else holds of it; one that has gone active, `PlanActive`; a
    /// cancelled one, `PlanNotActive`.
    pub open spec fn join(self, who: Seq<char>, trust_score: u32) -> Result<
        PlanView,
        ContractError,
    > {
        if self.participants.len() >= self.total_participants {
            Err(ContractError::PlanFull)
        } else if self.has_activated() {
            Err(ContractError::PlanActive)
        } else if self.is_cancelled {
            Err(ContractError::PlanNotActive)
        } else if self.participants.contains(who) {
            Err(ContractError::AlreadyParticipant)
        } else if trust_score < self.trust_score_required {
            Err(ContractError::InsufficientTrustScore)
        } else {
            Ok(self.enroll(who))
        }
    }

    /// The plan with every field that `patch` names replaced. A frequency
    /// literal that names no frequency leaves the frequency as it is.
    pub open spec fn patched(self, patch: PlanUpdateView) -> PlanView {
        PlanView {
            name: match patch.name {
                Some(n) => n,
                None => self.name,
            },
            description: match patch.description {
                Some(d) => d,
                None => self.description,
            },
            total_participants: match patch.total_participants {
                Some(t) => t,
                None => self.total_participants,
            },
            contribution_amount: match patch.contribution_amount {
                Some(c) => c,
                None => self.contribution_amount,
            },
            frequency: match patch.frequency {
                Some(literal) => match frequency_named(literal) {
                    Some(f) => f,
                    None => self.frequency,
                },
                None => self.frequency,
            },
            duration_months: match patch.duration_months {
                Some(d) => d,
                None => self.duration_months,
            },
            trust_score_required: match patch.trust_score_required {
                Some(t) => t,
                None => self.trust_score_required,
            },
            allow_partial: match patch.allow_partial {
                Some(a) => a,
                None => self.allow_partial,
            },
            ..self
        }
    }

    /// Whether `patch` can be applied: its frequency literal, if any, names a
    /// frequency, and the patched terms are in range and leave a seat for
    /// every member the plan already has.
    pub open spec fn accepts(self, patch: PlanUpdateView) -> bool {
        let next = self.patched(patch);
        &&& (patch.frequency is Some ==> frequency_named(patch.frequency->0) is Some)
        &&& terms_in_range(
            next.name,
            next.description,
            next.total_participants,
            next.contribution_amount,
            next.duration_months,
        )
        &&& next.participants.len() <= next.total_participants
    }

    /// What an update asked for by `caller` gives: the patched plan, or the
    /// reason for which the update is turned down.
    pub open spec fn update(self, caller: Seq<char>, patch: PlanUpdateView) -> Result<
        PlanView,
        ContractError,
    > {
        if caller != self.created_by {
            Err(ContractError::Unauthorized)
        } else if self.has_activated() {
            Err(ContractError::PlanActive)
        } else if !self.accepts(patch) {
            Err(ContractError::InvalidInput)
        } else {
            Ok(self.patched(patch))
        }
    }

    /// What a cancellation asked for by `caller` gives.
    pub open spec fn cancel(self, caller: Seq<char>) -> Result<PlanView, ContractError> {
        if caller != self.created_by {
            Err(ContractError::Unauthorized)
        } else if self.has_activated() {
            Err(ContractError::PlanActive)
        } else {
            Ok(PlanView { is_cancelled: true, ..self })
        }
    }

    /// The plan after one payout: the turn passes to the next member, one
    /// more cycle is complete, and the plan stays active only while cycles
    /// are left.
    pub open spec fn rotate(self) -> PlanView {
        PlanView {
            payout_index: ((self.payout_index + 1) % (self.participants.len() as int)) as u32,
            current_cycle: (self.current_cycle + 1) as u32,
            is_active: self.current_cycle + 1 < self.total_cycles(),
            ..self
        }
    }
}

/// A plan whose duration is in range has between 1 and 1080 cycles.
pub proof fn lemma_total_cycles_bounds(plan: PlanView)
    requires
        1 <= plan.duration_months <= 36,
    ensures
        1 <= plan.total_cycles() <= 1080,
{
    match plan.frequency {
        Frequency::Daily => {},
        Frequency::Weekly => {},
        Frequency::Monthly => {},
    }
}

/// Appending someone who is not in a list of distinct members leaves the
/// members distinct.
pub proof fn lemma_new_member_is_distinct(members: Seq<Seq<char>>, who: Seq<char>)
    requires
        members.no_duplicates(),
        !members.contains(who),
    ensures
        members.push(who).no_duplicates(),
{
    let longer = members.push(who);
    assert forall|i: int, j: int|
        0 <= i < longer.len() && 0 <= j < longer.len() && i != j implies longer[i]
        != longer[j] by {
        if i < members.len() {
            assert(members.contains(longer[i]));
        }
        if j < members.len() {
            assert(members.contains(longer[j]));
        }
    }
}

/// The view of a freshly created plan, or the error in its place.
pub open spec fn created_view(r: Result<Plan, ContractError>) -> Result<PlanView, ContractError> {
    match r {
        Ok(p) => Ok(p@),
        Err(e) => Err(e),
    }
}

/// Whether the given terms are within the bounds of a plan.
pub fn check_terms(
    name: &String,
    description: &String,
    total_participants: u32,
    contribution_amount: u128,
    duration_months: u32,
) -> (ok: bool)
    ensures
        ok == terms_in_range(
            name@,
            description@,
            total_participants,
            contribution_amount,
            duration_months,
        ),
{
    let name_len = char_count(name);
    let description_len = char_count(description);
    2 <= total_participants && total_participants <= 100 && 10 <= contribution_amount
        && contribution_amount <= 100000 && 1 <= duration_months && duration_months <= 36 && 3
        <= name_len && name_len <= 50 && 10 <= description_len && description_len <= 500
}

impl Plan {
    /// What every stored plan satisfies.
    pub open spec fn wf(&self) -> bool {
        self@.wf()
    }

    /// Creates a plan with `creator` as its first member.
    pub fn create(
        id: u64,
        creator: String,
        name: String,
        description: String,
        total_participants: u32,
        contribution_amount: u128,
        frequency: &String,
        duration_months: u32,
        trust_score_required: u32,
        allow_partial: bool,
        starts_active: bool,
    ) -> (created: Result<Plan, ContractError>)
        requires
            id >= 1,
        ensures
            created_view(created) == create_outcome(
                id,
                creator@,
                name@,
                description@,
                total_participants,
                contribution_amount,
                frequency@,
                duration_months,
                trust_score_required,
                allow_partial,
                starts_active,
            ),
            created matches Ok(plan) ==> plan.wf(),
    {
        if !check_terms(
            &name,
            &description,
            total_participants,
            contribution_amount,
            duration_months,
        ) {
            return Err(ContractError::InvalidInput);
        }
        let frequency = match parse_frequency(frequency) {
            Some(f) => f,
            None => {
                return Err(ContractError::InvalidInput);
            },
        };
        let mut participants: Vec<String> = Vec::new();
        participants.push(creator.clone());
        let plan = Plan {
            id,
            name,
            description,
            total_participants,
            contribution_amount,
            frequency,
            duration_months,
            trust_score_required,
            allow_partial,
            participants,
            current_cycle: 0,
            is_active: starts_active,
            payout_index: 0,
            is_cancelled: false,
            created_by: creator,
        };
        proof {
            assert(plan@.participants =~= seq![creator@]);
            lemma_total_cycles_bounds(plan@);
        }
        Ok(plan)
    }

    /// Number of payout rounds after which the plan is complete.
    pub fn total_cycles(&self) -> (cycles: u32)
        requires
            self.wf(),
        ensures
            cycles == self@.total_cycles(),
            1 <= cycles <= 1080,
    {
        self.duration_months * plan_frequency_to_cycles(&self.frequency)
    }

    /// Where the plan stands in its life.
    pub fn phase(&self) -> (phase: Phase)
        ensures
            phase == self@.phase(),
    {
        if self.is_cancelled {
            Phase::Cancelled
        } else if self.is_active {
            Phase::Active
        } else if self.current_cycle > 0 {
            Phase::Completed
        } else {
            Phase::Open
        }
    }

    /// Whether `who` is a member.
    pub fn is_member(&self, who: &String) -> (member: bool)
        ensures
            member == self@.participants.contains(who@),
    {
        contains_text(&self.participants, who)
    }

    /// Whether `who` created the plan.
    pub fn is_creator(&self, who: &String) -> (creator: bool)
        ensures
            creator == (who@ == self@.created_by),
    {
        same_text(who, &self.created_by)
    }

    /// Makes `who`, who is no member yet, the last member. An open plan goes
    /// active when that takes its last seat.
    pub fn enroll(&mut self, who: String)
        requires
            old(self).wf(),
            old(self)@.participants.len() < old(self)@.total_participants,
            !old(self)@.participants.contains(who@),
        ensures
            final(self)@ == old(self)@.enroll(who@),
            final(self).wf(),
    {
        proof {
            lemma_new_member_is_distinct(self@.participants, who@);
            lemma_total_cycles_bounds(self@);
        }
        self.participants.push(who);
        assert(self@.participants =~= old(self)@.participants.push(who@));
        if !self.is_cancelled && !self.is_active && self.current_cycle == 0
            && self.participants.len() == self.total_participants as usize {
            self.is_active = true;
        }
    }

    /// Admits `who` at once if the plan is still forming, has a free seat,
    /// does not have `who` already and `trust_score` is high enough. The plan
    /// goes active when the last seat is taken.
    pub fn join(&mut self, who: String, trust_score: u32) -> (joined: Result<(), ContractError>)
        requires
            old(self).wf(),
        ensures
            final(self).wf(),
            match old(self)@.join(who@, trust_score) {
                Ok(next) => joined is Ok && final(self)@ == next,
                Err(e) => joined == Err::<(), ContractError>(e) && *final(self) == *old(self),
            },
    {
        if self.participants.len() >= self.total_participants as usize {
            return Err(ContractError::PlanFull);
        }
        if self.is_active || self.current_cycle > 0 {
            return Err(ContractError::PlanActive);
        }
        if self.is_cancelled {
            return Err(ContractError::PlanNotActive);
        }
        if self.is_member(&who) {
            return Err(ContractError::AlreadyParticipant);
        }
        if trust_score < self.trust_score_required {
            return Err(ContractError::InsufficientTrustScore);
        }
        self.enroll(who);
        Ok(())
    }

    /// Replaces the terms that `patch` names, for the creator and only while
    /// the plan has never been active.
    pub fn update(&mut self, caller: &String, patch: PlanUpdate) -> (updated: Result<
        (),
        ContractError,
    >)
        requires
            old(self).wf(),
        ensures
            final(self).wf(),
            match old(self)@.update(caller@, patch@) {
                Ok(next) => updated is Ok && final(self)@ == next,
                Err(e) => updated == Err::<(), ContractError>(e) && *final(self) == *old(self),
            },
    {
        if !self.is_creator(caller) {
            return Err(ContractError::Unauthorized);
        }
        if self.is_active || self.current_cycle > 0 {
            return Err(ContractError::PlanActive);
        }
        let frequency = match &patch.frequency {
            Some(literal) => match parse_frequency(literal) {
                Some(f) => f,
                None => {
                    return Err(ContractError::InvalidInput);
                },
            },
            None => self.frequency,
        };
        let total_participants = match patch.total_participants {
            Some(t) => t,
            None => self.total_participants,
        };
        let contribution_amount = match patch.contribution_amount {
            Some(c) => c,
            None => self.contribution_amount,
        };
        let duration_months = match patch.duration_months {
            Some(d) => d,
            None => self.duration_months,
        };
        let name_ok = match &patch.name {
            Some(n) => check_terms(
                n,
                &self.description,
                total_participants,
                contribution_amount,
                duration_months,
            ),
            None => check_terms(
                &self.name,
                &self.description,
                total_participants,
                contribution_amount,
                duration_months,
            ),
        };
        let description_ok = match &patch.description {
            Some(d) => {
                let n = char_count(d);
                10 <= n && n <= 500
            },
            None => true,
        };
        if !name_ok || !description_ok || self.participants.len() > total_participants as usize {
            return Err(ContractError::InvalidInput);
        }
        if let Some(n) = patch.name {
            self.name = n;
        }
        if let Some(d) = patch.description {
            self.description = d;
        }
        if let Some(t) = patch.trust_score_required {
            self.trust_score_required = t;
        }
        if let Some(a) = patch.allow_partial {
            self.allow_partial = a;
        }
        self.total_participants = total_participants;
        self.contribution_amount = contribution_amount;
        self.frequency = frequency;
        self.duration_months = duration_months;
        Ok(())
    }

    /// Cancels the plan, for the creator and only while the plan has never
    /// been active.
    pub fn cancel(&mut self, caller: &String) -> (cancelled: Result<(), ContractError>)
        requires
            old(self).wf(),
        ensures
            final(self).wf(),
            match old(self)@.cancel(caller@) {
                Ok(next) => cancelled is Ok && final(self)@ == next,
                Err(e) => cancelled == Err::<(), ContractError>(e) && *final(self) == *old(self),
            },
    {
        if !self.is_creator(caller) {
            return Err(ContractError::Unauthorized);
        }
        if self.is_active || self.current_cycle > 0 {
            return Err(ContractError::PlanActive);
        }
        self.is_cancelled = true;
        Ok(())
    }

    /// Passes the turn on after a payout and closes the plan once its last
    /// cycle is complete.
    pub fn rotate(&mut self)
        requires
            old(self).wf(),
            old(self)@.is_active,
        ensures
            final(self).wf(),
            final(self)@ == old(self)@.rotate(),
    {
        let total = self.total_cycles();
        proof {
            let n = self@.participants.len() as int;
            let i = self.payout_index as int;
            if i + 1 < n {
                vstd::arithmetic::div_mod::lemma_small_mod((i + 1) as nat, n as nat);
            } else {
                vstd::arithmetic::div_mod::lemma_mod_self_0(n);
            }
        }
        self.payout_index = self.payout_index + 1;
        if self.payout_index as usize >= self.participants.len() {
            self.payout_index = 0;
        }
        self.current_cycle = self.current_cycle + 1;
        if self.current_cycle >= total {
            self.is_active = false;
        }
    }

    /// A copy of the plan.
    pub fn duplicate(&self) -> (copy: Plan)
        ensures
            copy@ == self@,
    {
        Plan {
            id: self.id,
            name: self.name.clone(),
            description: self.description.clone(),
            total_participants: self.total_participants,
            contribution_amount: self.contribution_amount,
            frequency: self.frequency,
            duration_months: self.duration_months,
            trust_score_required: self.trust_score_required,
            allow_partial: self.allow_partial,
            participants: clone_texts(&self.participants),
            current_cycle: self.current_cycle,
            is_active: self.is_active,
            payout_index: self.payout_index,
            is_cancelled: self.is_cancelled,
            created_by: self.created_by.clone(),
        }
    }
}

} // verus!
