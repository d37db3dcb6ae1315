use crate::text::{clone_texts, contains_text, same_text, texts};
use vstd::prelude::*;

verus! {

/// A pending request of one identity to be admitted to one plan, with the
/// votes cast on it so far.
#[derive(Clone, Debug, PartialEq, Eq)]
pub struct JoinRequest {
    pub plan_id: u64,
    pub requester: String,
    pub approvals: Vec<String>,
    pub denials: Vec<String>,
}

/// What a [`JoinRequest`] holds, as mathematical values.
pub struct JoinRequestView {
    pub plan_id: u64,
    pub requester: Seq<char>,
    pub approvals: Seq<Seq<char>>,
    pub denials: Seq<Seq<char>>,
}

impl View for JoinRequest {
    type V = JoinRequestView;

    open spec fn view(&self) -> JoinRequestView {
        JoinRequestView {
            plan_id: self.plan_id,
            requester: self.requester@,
            approvals: texts(self.approvals@),
            denials: texts(self.denials@),
        }
    }
}

/// What each request of a list holds.
pub open spec fn requests(list: Seq<JoinRequest>) -> Seq<JoinRequestView> {
    list.map_values(|r: JoinRequest| r@)
}

/// Whether that many approvals admit the requester to a group of `members`:
/// at least half of the members approve.
pub open spec fn approval_quorum(approvals: nat, members: nat) -> bool {
    approvals * 2 >= members
}

/// Whether that many denials reject the requester from a group of `members`:
/// more than half of the members deny.
pub open spec fn denial_quorum(denials: nat, members: nat) -> bool {
    denials * 2 > members
}

impl JoinRequestView {
    /// A request on which nobody has voted yet.
    pub open spec fn fresh(plan_id: u64, requester: Seq<char>) -> JoinRequestView {
        JoinRequestView { plan_id, requester, approvals: seq![], denials: seq![] }
    }

    /// Whether `voter` has approved or denied the request.
    pub open spec fn has_voted(self, voter: Seq<char>) -> bool {
        self.approvals.contains(voter) || self.denials.contains(voter)
    }

    /// The request after `voter` approves: a first vote is recorded, a later
    /// one changes nothing.
    pub open spec fn approved_by(self, voter: Seq<char>) -> JoinRequestView {
        if self.has_voted(voter) {
            self
        } else {
            JoinRequestView { approvals: self.approvals.push(voter), ..self }
        }
    }

    /// The request after `voter` denies: a first vote is recorded, a later
    /// one changes nothing.
    pub open spec fn denied_by(self, voter: Seq<char>) -> JoinRequestView {
        if self.has_voted(voter) {
            self
        } else {
            JoinRequestView { denials: self.denials.push(voter), ..self }
        }
    }

    /// Nobody has voted twice, and nobody has voted both ways.
    pub open spec fn wf(self) -> bool {
        &&& self.approvals.no_duplicates()
        &&& self.denials.no_duplicates()
        &&& forall|voter: Seq<char>|
            !(self.approvals.contains(voter) && self.denials.contains(voter))
    }
}

/// Recording a vote keeps the votes distinct and one-sided.
pub proof fn lemma_vote_keeps_wf(request: JoinRequestView, voter: Seq<char>)
    requires
        request.wf(),
    ensures
        request.approved_by(voter).wf(),
        request.denied_by(voter).wf(),
{
    if !request.has_voted(voter) {
        let approved = request.approved_by(voter);
        let denied = request.denied_by(voter);
        assert forall|i: int, j: int|
            0 <= i < approved.approvals.len() && 0 <= j < approved.approvals.len() && i
                != j implies approved.approvals[i] != approved.approvals[j] by {
            if i < request.approvals.len() {
                assert(request.approvals.contains(approved.approvals[i]));
            }
            if j < request.approvals.len() {
                assert(request.approvals.contains(approved.approvals[j]));
            }
        }
        assert forall|v: Seq<char>|
            !(approved.approvals.contains(v) && approved.denials.contains(v)) by {
            if approved.approvals.contains(v) && approved.denials.contains(v) {
                let i = choose|i: int|
                    0 <= i < approved.approvals.len() && approved.approvals[i] == v;
                if i < request.approvals.len() {
                    assert(request.approvals.contains(v));
                }
            }
        }
        assert forall|i: int, j: int|
            0 <= i < denied.denials.len() && 0 <= j < denied.denials.len() && i
                != j implies denied.denials[i] != denied.denials[j] by {
            if i < request.denials.len() {
                assert(request.denials.contains(denied.denials[i]));
            }
            if j < request.denials.len() {
                assert(request.denials.contains(denied.denials[j]));
            }
        }
        assert forall|v: Seq<char>|
            !(denied.approvals.contains(v) && denied.denials.contains(v)) by {
            if denied.approvals.contains(v) && denied.denials.contains(v) {
                let i = choose|i: int| 0 <= i < denied.denials.len() && denied.denials[i] == v;
                if i < request.denials.len() {
                    assert(request.denials.contains(v));
                }
            }
        }
    }
}

/// Whether `votes * 2 >= members`, computed without overflow.
pub fn reaches_half(votes: usize, members: usize) -> (reached: bool)
    ensures
        reached == approval_quorum(votes as nat, members as nat),
{
    if votes >= members {
        true
    } else {
        votes >= members - votes
    }
}

/// Whether `votes * 2 > members`, computed without overflow.
pub fn exceeds_half(votes: usize, members: usize) -> (exceeded: bool)
    ensures
        exceeded == denial_quorum(votes as nat, members as nat),
{
    if votes > members {
        true
    } else {
        votes > members - votes
    }
}

impl JoinRequest {
    /// Nobody has voted twice, and nobody has voted both ways.
    pub open spec fn wf(&self) -> bool {
        self@.wf()
    }

    /// A request of `requester` for plan `plan_id`, without votes.
    pub fn new(plan_id: u64, requester: String) -> (request: JoinRequest)
        ensures
            request@ == JoinRequestView::fresh(plan_id, requester@),
            request.wf(),
    {
        let request = JoinRequest {
            plan_id,
            requester,
            approvals: Vec::new(),
            denials: Vec::new(),
        };
        assert(request@.approvals =~= seq![]);
        assert(request@.denials =~= seq![]);
        request
    }

    /// Whether the request is the one of `requester` for plan `plan_id`.
    pub fn is_for(&self, plan_id: u64, requester: &String) -> (matches: bool)
        ensures
            matches == (self@.plan_id == plan_id && self@.requester == requester@),
    {
        self.plan_id == plan_id && same_text(&self.requester, requester)
    }

    /// Whether `voter` has approved or denied the request.
    pub fn has_voted(&self, voter: &String) -> (voted: bool)
        ensures
            voted == self@.has_voted(voter@),
    {
        contains_text(&self.approvals, voter) || contains_text(&self.denials, voter)
    }

    /// Records an approval by `voter`, unless `voter` has voted before.
    pub fn approve(&mut self, voter: &String)
        requires
            old(self).wf(),
        ensures
            final(self)@ == old(self)@.approved_by(voter@),
            final(self).wf(),
    {
        proof {
            lemma_vote_keeps_wf(self@, voter@);
        }
        if !self.has_voted(voter) {
            self.approvals.push(voter.clone());
            assert(self@.approvals =~= old(self)@.approvals.push(voter@));
        }
    }

    /// Records a denial by `voter`, unless `voter` has voted before.
    pub fn deny(&mut self, voter: &String)
        requires
            old(self).wf(),
        ensures
            final(self)@ == old(self)@.denied_by(voter@),
            final(self).wf(),
    {
        proof {
            lemma_vote_keeps_wf(self@, voter@);
        }
        if !self.has_voted(voter) {
            self.denials.push(voter.clone());
            assert(self@.denials =~= old(self)@.denials.push(voter@));
        }
    }

    /// A copy of the request.
    pub fn duplicate(&self) -> (copy: JoinRequest)
        ensures
            copy@ == self@,
    {
        JoinRequest {
            plan_id: self.plan_id,
            requester: self.requester.clone(),
            approvals: clone_texts(&self.approvals),
            denials: clone_texts(&self.denials),
        }
    }
}

} // verus!
