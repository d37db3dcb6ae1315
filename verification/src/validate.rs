use crate::frequency::plan_frequency_to_cycles;
use crate::ledger::{credited, lemma_balance_at, lemma_balance_present, LedgerKey};
use crate::membership::JoinRequest;
use crate::plan::{check_terms, lemma_total_cycles_bounds, Plan};
use crate::state::{is_request_for, State};
use crate::text::{contains_text, same_text, texts};
use vstd::prelude::*;

verus! {

/// Whether no string occurs twice in `list`.
pub fn all_distinct(list: &Vec<String>) -> (ok: bool)
    ensures
        ok == texts(list@).no_duplicates(),
{
    let ghost names = texts(list@);
    let mut i: usize = 0;
    while i < list.len()
        invariant
            i <= list.len(),
            names == texts(list@),
            forall|a: int, b: int| 0 <= a < b < i ==> names[a] != names[b],
        decreases list.len() - i,
    {
        let mut j: usize = 0;
        while j < i
            invariant
                j <= i < list.len(),
                names == texts(list@),
                forall|a: int| 0 <= a < j ==> names[a] != names[i as int],
            decreases i - j,
        {
            if same_text(&list[j], &list[i]) {
                assert(names[j as int] == names[i as int]);
                return false;
            }
            j += 1;
        }
        i += 1;
    }
    assert forall|a: int, b: int|
        0 <= a < names.len() && 0 <= b < names.len() && a != b implies names[a] != names[b] by {
        if a < b {
            assert(names[a] != names[b]);
        } else {
            assert(names[b] != names[a]);
        }
    }
    true
}

/// Whether no string of `first` occurs in `second`.
pub fn share_nothing(first: &Vec<String>, second: &Vec<String>) -> (ok: bool)
    ensures
        ok == forall|s: Seq<char>| !(texts(first@).contains(s) && texts(second@).contains(s)),
{
    let ghost names = texts(first@);
    let ghost others = texts(second@);
    let mut i: usize = 0;
    while i < first.len()
        invariant
            i <= first.len(),
            names == texts(first@),
            others == texts(second@),
            forall|a: int| 0 <= a < i ==> !others.contains(#[trigger] names[a]),
        decreases first.len() - i,
    {
        if contains_text(second, &first[i]) {
            assert(names.contains(names[i as int]));
            return false;
        }
        i += 1;
    }
    assert forall|s: Seq<char>| !(names.contains(s) && others.contains(s)) by {
        if names.contains(s) {
            let a = choose|a: int| 0 <= a < names.len() && names[a] == s;
            assert(!others.contains(names[a]));
        }
    }
    true
}

impl Plan {
    /// Whether the plan is well formed.
    pub fn is_valid(&self) -> (ok: bool)
        ensures
            ok == self.wf(),
    {
        if !check_terms(
            &self.name,
            &self.description,
            self.total_participants,
            self.contribution_amount,
            self.duration_months,
        ) {
            return false;
        }
        proof {
            lemma_total_cycles_bounds(self@);
        }
        let members = self.participants.len();
        if self.id < 1 || members < 1 || members > self.total_participants as usize {
            return false;
        }
        if !same_text(&self.participants[0], &self.created_by) || !all_distinct(
            &self.participants,
        ) {
            return false;
        }
        let total = self.duration_months * plan_frequency_to_cycles(&self.frequency);
        self.payout_index < members as u32 && self.current_cycle <= total && (!self.is_active
            || self.current_cycle < total) && (!self.is_cancelled || (!self.is_active
            && self.current_cycle == 0))
    }
}

impl JoinRequest {
    /// Whether nobody has voted twice or both ways.
    pub fn is_valid(&self) -> (ok: bool)
        ensures
            ok == self.wf(),
    {
        all_distinct(&self.approvals) && all_distinct(&self.denials) && share_nothing(
            &self.approvals,
            &self.denials,
        )
    }
}

impl State {
    /// Whether every plan is well formed and stands where its identifier
    /// says.
    fn plans_are_valid(&self) -> (ok: bool)
        ensures
            ok == forall|i: int|
                0 <= i < self@.plans.len() ==> (#[trigger] self@.plans[i]).wf() && self@.plans[i].id
                    == i + 1,
    {
        let mut i: usize = 0;
        while i < self.plans.len()
            invariant
                i <= self.plans.len(),
                forall|k: int|
                    0 <= k < i ==> (#[trigger] self@.plans[k]).wf() && self@.plans[k].id == k + 1,
            decreases self.plans.len() - i,
        {
            assert(self@.plans[i as int] == self.plans@[i as int]@);
            if !self.plans[i].is_valid() || self.plans[i].id != i as u64 + 1 {
                return false;
            }
            i += 1;
        }
        true
    }

    /// Whether every request is well formed and no two are for the same plan
    /// and requester.
    fn requests_are_valid(&self) -> (ok: bool)
        ensures
            ok == ((forall|i: int|
                0 <= i < self@.requests.len() ==> (#[trigger] self@.requests[i]).wf()) && (forall|
                i: int,
                j: int,
            |
                0 <= i < j < self@.requests.len() ==> !is_request_for(
                    #[trigger] self@.requests[i],
                    (#[trigger] self@.requests[j]).plan_id,
                    self@.requests[j].requester,
                ))),
    {
        let ghost list = self@.requests;
        let mut j: usize = 0;
        while j < self.join_requests.len()
            invariant
                j <= self.join_requests.len(),
                list == self@.requests,
                forall|k: int| 0 <= k < j ==> (#[trigger] list[k]).wf(),
                forall|a: int, b: int|
                    0 <= a < b < j ==> !is_request_for(
                        #[trigger] list[a],
                        (#[trigger] list[b]).plan_id,
                        list[b].requester,
                    ),
            decreases self.join_requests.len() - j,
        {
            assert(list[j as int] == self.join_requests@[j as int]@);
            if !self.join_requests[j].is_valid() {
                return false;
            }
            let mut i: usize = 0;
            while i < j
                invariant
                    i <= j < self.join_requests.len(),
                    list == self@.requests,
                    forall|a: int|
                        0 <= a < i ==> !is_request_for(
                            #[trigger] list[a],
                            list[j as int].plan_id,
                            list[j as int].requester,
                        ),
                decreases j - i,
            {
                assert(list[i as int] == self.join_requests@[i as int]@);
                if self.join_requests[i].is_for(
                    self.join_requests[j].plan_id,
                    &self.join_requests[j].requester,
                ) {
                    assert(is_request_for(
                        list[i as int],
                        list[j as int].plan_id,
                        list[j as int].requester,
                    ));
                    return false;
                }
                i += 1;
            }
            j += 1;
        }
        true
    }

    /// Whether every balance belongs to a plan that has gone active and is
    /// within what that plan asks for.
    fn balances_are_valid(&self) -> (ok: bool)
        requires
            forall|i: int|
                0 <= i < self@.plans.len() ==> (#[trigger] self@.plans[i]).wf() && self@.plans[i].id
                    == i + 1,
        ensures
            ok == forall|key: LedgerKey| #[trigger]
                credited(self@.ledger, key) > 0 ==> self@.has_plan(key.plan_id) && self@.plan(
                    key.plan_id,
                ).has_activated() && credited(self@.ledger, key) <= self@.plan(
                    key.plan_id,
                ).contribution_amount,
    {
        let ghost entries = self.ledger.entries@;
        let mut i: usize = 0;
        while i < self.ledger.entries.len()
            invariant
                i <= self.ledger.entries.len(),
                entries == self.ledger.entries@,
                forall|k: int|
                    0 <= k < i && entries[k].amount > 0 && (forall|j: int|
                        k < j < entries.len() ==> entries[j].key() != entries[k].key())
                        ==> self@.has_plan(#[trigger] entries[k].plan_id) && self@.plan(
                        entries[k].plan_id,
                    ).has_activated() && entries[k].amount <= self@.plan(
                        entries[k].plan_id,
                    ).contribution_amount,
            decreases self.ledger.entries.len() - i,
        {
            let entry = &self.ledger.entries[i];
            let last = self.ledger.position(entry.plan_id, entry.cycle, &entry.participant);
            if entry.amount > 0 && last == Some(i) {
                let plan_id = entry.plan_id;
                let known = 1 <= plan_id && plan_id <= self.plans.len() as u64;
                let within = known && {
                    let plan = &self.plans[(plan_id - 1) as usize];
                    assert(plan@ == self@.plan(plan_id));
                    (plan.is_active || plan.current_cycle > 0) && entry.amount
                        <= plan.contribution_amount
                };
                if !within {
                    proof {
                        lemma_balance_at(entries, i as int);
                        assert(credited(self@.ledger, entries[i as int].key()) > 0);
                    }
                    return false;
                }
            }
            i += 1;
        }
        proof {
            assert forall|key: LedgerKey| #[trigger]
                credited(self@.ledger, key) > 0 implies self@.has_plan(key.plan_id) && self@.plan(
                key.plan_id,
            ).has_activated() && credited(self@.ledger, key) <= self@.plan(
                key.plan_id,
            ).contribution_amount by {
                let k = lemma_balance_present(entries, key);
                assert(entries[k].plan_id == key.plan_id);
            }
        }
        true
    }

    /// Whether the state is well formed. A state that was set up by
    /// `instantiate` and changed by the instructions alone always is.
    pub fn is_valid(&self) -> (ok: bool)
        ensures
            ok == self.wf(),
    {
        self.plans_are_valid() && self.requests_are_valid() && self.balances_are_valid()
    }
}

} // verus!
