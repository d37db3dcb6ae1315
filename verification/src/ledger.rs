use crate::text::same_text;
use vstd::prelude::*;

verus! {

/// What one member has paid towards one cycle of one plan.
#[derive(Clone, Debug, PartialEq, Eq)]
pub struct LedgerEntry {
    pub plan_id: u64,
    pub cycle: u32,
    pub participant: String,
    pub amount: u128,
}

/// The key of a ledger entry: a plan, one of its cycles and a member.
pub struct LedgerKey {
    pub plan_id: u64,
    pub cycle: u32,
    pub participant: Seq<char>,
}

/// The contribution ledger: one balance per plan, cycle and member.
#[derive(Clone, Debug, PartialEq, Eq)]
pub struct Ledger {
    pub entries: Vec<LedgerEntry>,
}

impl LedgerEntry {
    /// The key under which the entry is kept.
    pub open spec fn key(self) -> LedgerKey {
        LedgerKey { plan_id: self.plan_id, cycle: self.cycle, participant: self.participant@ }
    }
}

/// The balances that a list of entries stands for. Where two entries share a
/// key, the later one counts.
pub open spec fn balances(entries: Seq<LedgerEntry>) -> Map<LedgerKey, u128>
    decreases entries.len(),
{
    if entries.len() == 0 {
        Map::empty()
    } else {
        balances(entries.drop_last()).insert(entries.last().key(), entries.last().amount)
    }
}

impl View for Ledger {
    type V = Map<LedgerKey, u128>;

    open spec fn view(&self) -> Map<LedgerKey, u128> {
        balances(self.entries@)
    }
}

/// The balance under `key`; zero where nothing was ever paid.
pub open spec fn credited(ledger: Map<LedgerKey, u128>, key: LedgerKey) -> u128 {
    if ledger.contains_key(key) {
        ledger[key]
    } else {
        0
    }
}

/// What the listed members have paid together towards one cycle of a plan.
/// A member listed twice counts twice.
pub open spec fn collected(
    ledger: Map<LedgerKey, u128>,
    plan_id: u64,
    cycle: u32,
    members: Seq<Seq<char>>,
) -> nat
    decreases members.len(),
{
    if members.len() == 0 {
        0
    } else {
        collected(ledger, plan_id, cycle, members.drop_last()) + credited(
            ledger,
            LedgerKey { plan_id, cycle, participant: members.last() },
        ) as nat
    }
}

/// The ledger with the balance of each listed member set to zero for one
/// cycle of a plan.
pub open spec fn cleared(
    ledger: Map<LedgerKey, u128>,
    plan_id: u64,
    cycle: u32,
    members: Seq<Seq<char>>,
) -> Map<LedgerKey, u128>
    decreases members.len(),
{
    if members.len() == 0 {
        ledger
    } else {
        cleared(ledger, plan_id, cycle, members.drop_last()).insert(
            LedgerKey { plan_id, cycle, participant: members.last() },
            0,
        )
    }
}

/// The last entry under a key is the one that counts.
pub proof fn lemma_balance_at(entries: Seq<LedgerEntry>, i: int)
    requires
        0 <= i < entries.len(),
        forall|j: int| i < j < entries.len() ==> entries[j].key() != entries[i].key(),
    ensures
        balances(entries).contains_key(entries[i].key()),
        balances(entries)[entries[i].key()] == entries[i].amount,
    decreases entries.len(),
{
    if i < entries.len() - 1 {
        lemma_balance_at(entries.drop_last(), i);
    }
}

/// A key that no entry has is not in the ledger.
pub proof fn lemma_balance_absent(entries: Seq<LedgerEntry>, key: LedgerKey)
    requires
        forall|j: int| 0 <= j < entries.len() ==> entries[j].key() != key,
    ensures
        !balances(entries).contains_key(key),
    decreases entries.len(),
{
    if entries.len() > 0 {
        lemma_balance_absent(entries.drop_last(), key);
    }
}

/// A key of the ledger is the key of some entry, and the last such entry
/// holds its balance.
pub proof fn lemma_balance_present(entries: Seq<LedgerEntry>, key: LedgerKey) -> (i: int)
    requires
        balances(entries).contains_key(key),
    ensures
        0 <= i < entries.len(),
        entries[i].key() == key,
        forall|j: int| i < j < entries.len() ==> entries[j].key() != key,
        balances(entries)[key] == entries[i].amount,
    decreases entries.len(),
{
    if entries.last().key() == key {
        entries.len() - 1
    } else {
        let shorter = entries.drop_last();
        let i = lemma_balance_present(shorter, key);
        assert forall|j: int| i < j < entries.len() implies entries[j].key() != key by {
            if j < shorter.len() {
                assert(shorter[j] == entries[j]);
            }
        }
        i
    }
}

/// Changing the amount of the last entry under a key changes that balance and
/// no other.
pub proof fn lemma_balance_update(entries: Seq<LedgerEntry>, i: int, changed: LedgerEntry)
    requires
        0 <= i < entries.len(),
        changed.key() == entries[i].key(),
        forall|j: int| i < j < entries.len() ==> entries[j].key() != entries[i].key(),
    ensures
        balances(entries.update(i, changed)) == balances(entries).insert(
            changed.key(),
            changed.amount,
        ),
    decreases entries.len(),
{
    let after = entries.update(i, changed);
    if i == entries.len() - 1 {
        assert(after.drop_last() =~= entries.drop_last());
    } else {
        lemma_balance_update(entries.drop_last(), i, changed);
        assert(after.drop_last() =~= entries.drop_last().update(i, changed));
    }
    assert(balances(after) =~= balances(entries).insert(changed.key(), changed.amount));
}

/// Clearing a cycle sets the balance of each listed member to zero and
/// leaves every other balance as it was.
pub proof fn lemma_cleared(
    ledger: Map<LedgerKey, u128>,
    plan_id: u64,
    cycle: u32,
    members: Seq<Seq<char>>,
    key: LedgerKey,
)
    ensures
        credited(cleared(ledger, plan_id, cycle, members), key) == (if key.plan_id == plan_id
            && key.cycle == cycle && members.contains(key.participant) {
            0u128
        } else {
            credited(ledger, key)
        }),
    decreases members.len(),
{
    if members.len() > 0 {
        lemma_cleared(ledger, plan_id, cycle, members.drop_last(), key);
        let last = members.last();
        if members.drop_last().contains(key.participant) {
            let i = choose|i: int|
                0 <= i < members.drop_last().len() && members.drop_last()[i] == key.participant;
            assert(members[i] == key.participant);
        }
        if members.contains(key.participant) && key.participant != last {
            let i = choose|i: int| 0 <= i < members.len() && members[i] == key.participant;
            assert(members.drop_last()[i] == key.participant);
        }
        if key.participant == last {
            assert(members[members.len() - 1] == key.participant);
        }
    }
}

impl Ledger {
    /// A ledger in which nobody has paid anything.
    pub fn new() -> (ledger: Ledger)
        ensures
            ledger@ == Map::<LedgerKey, u128>::empty(),
    {
        Ledger { entries: Vec::new() }
    }

    /// Where the entry under the given key stands that counts.
    pub(crate) fn position(&self, plan_id: u64, cycle: u32, participant: &String) -> (at: Option<
        usize,
    >)
        ensures
            match at {
                Some(i) => i < self.entries.len() && self.entries[i as int].key() == (LedgerKey {
                    plan_id,
                    cycle,
                    participant: participant@,
                }) && forall|j: int|
                    i < j < self.entries.len() ==> self.entries[j].key()
                        != self.entries[i as int].key(),
                None => forall|j: int|
                    0 <= j < self.entries.len() ==> self.entries[j].key() != (LedgerKey {
                        plan_id,
                        cycle,
                        participant: participant@,
                    }),
            },
    {
        let ghost key = LedgerKey { plan_id, cycle, participant: participant@ };
        let mut i: usize = self.entries.len();
        while i > 0
            invariant
                i <= self.entries.len(),
                key == (LedgerKey { plan_id, cycle, participant: participant@ }),
                forall|j: int| i <= j < self.entries.len() ==> self.entries[j].key() != key,
            decreases i,
        {
            i -= 1;
            let entry = &self.entries[i];
            if entry.plan_id == plan_id && entry.cycle == cycle && same_text(
                &entry.participant,
                participant,
            ) {
                return Some(i);
            }
        }
        None
    }

    /// What `participant` has paid towards `cycle` of plan `plan_id`.
    pub fn get(&self, plan_id: u64, cycle: u32, participant: &String) -> (amount: u128)
        ensures
            amount == credited(self@, LedgerKey { plan_id, cycle, participant: participant@ }),
    {
        match self.position(plan_id, cycle, participant) {
            Some(i) => {
                proof {
                    lemma_balance_at(self.entries@, i as int);
                }
                self.entries[i].amount
            },
            None => {
                proof {
                    lemma_balance_absent(
                        self.entries@,
                        LedgerKey { plan_id, cycle, participant: participant@ },
                    );
                }
                0
            },
        }
    }

    /// Sets what `participant` has paid towards `cycle` of plan `plan_id`.
    pub fn set(&mut self, plan_id: u64, cycle: u32, participant: &String, amount: u128)
        ensures
            final(self)@ == old(self)@.insert(
                LedgerKey { plan_id, cycle, participant: participant@ },
                amount,
            ),
    {
        match self.position(plan_id, cycle, participant) {
            Some(i) => {
                let ghost changed = LedgerEntry { amount, ..self.entries[i as int] };
                proof {
                    lemma_balance_update(self.entries@, i as int, changed);
                }
                self.entries[i].amount = amount;
                assert(self.entries@ =~= old(self).entries@.update(i as int, changed));
            },
            None => {
                self.entries.push(
                    LedgerEntry { plan_id, cycle, participant: participant.clone(), amount },
                );
                assert(self.entries@.drop_last() =~= old(self).entries@);
            },
        }
    }

    /// Adds up what `members` have paid towards `cycle` of plan `plan_id`.
    pub fn total(&self, plan_id: u64, cycle: u32, members: &Vec<String>, cap: u128) -> (sum: u128)
        requires
            members.len() * cap <= u128::MAX,
            forall|key: LedgerKey|
                key.plan_id == plan_id && key.cycle == cycle ==> #[trigger] credited(self@, key)
                    <= cap,
        ensures
            sum == collected(self@, plan_id, cycle, crate::text::texts(members@)),
    {
        let ghost names = crate::text::texts(members@);
        let mut sum: u128 = 0;
        let mut i: usize = 0;
        assert(names.subrange(0, 0) =~= Seq::<Seq<char>>::empty());
        while i < members.len()
            invariant
                i <= members.len(),
                names == crate::text::texts(members@),
                members.len() * cap <= u128::MAX,
                forall|key: LedgerKey|
                    key.plan_id == plan_id && key.cycle == cycle ==> #[trigger] credited(
                        self@,
                        key,
                    ) <= cap,
                sum == collected(self@, plan_id, cycle, names.subrange(0, i as int)),
                sum <= i * cap,
            decreases members.len() - i,
        {
            let paid = self.get(plan_id, cycle, &members[i]);
            proof {
                let key = LedgerKey { plan_id, cycle, participant: members@[i as int]@ };
                assert(credited(self@, key) <= cap);
                assert(names.subrange(0, i + 1).drop_last() =~= names.subrange(0, i as int));
                assert((i + 1) * cap <= members.len() * cap) by (nonlinear_arith)
                    requires
                        i + 1 <= members.len(),
                ;
                assert((i + 1) * cap == i * cap + cap) by (nonlinear_arith);
            }
            sum = crate::amount::amount_add(sum, paid);
            i += 1;
        }
        assert(names.subrange(0, members.len() as int) =~= names);
        sum
    }

    /// Sets to zero what each of `members` has paid towards `cycle` of plan
    /// `plan_id`.
    pub fn clear(&mut self, plan_id: u64, cycle: u32, members: &Vec<String>)
        ensures
            final(self)@ == cleared(old(self)@, plan_id, cycle, crate::text::texts(members@)),
    {
        let ghost names = crate::text::texts(members@);
        let mut i: usize = 0;
        assert(names.subrange(0, 0) =~= Seq::<Seq<char>>::empty());
        while i < members.len()
            invariant
                i <= members.len(),
                names == crate::text::texts(members@),
                self@ == cleared(old(self)@, plan_id, cycle, names.subrange(0, i as int)),
            decreases members.len() - i,
        {
            self.set(plan_id, cycle, &members[i], 0);
            proof {
                assert(names.subrange(0, i + 1).drop_last() =~= names.subrange(0, i as int));
            }
            i += 1;
        }
        assert(names.subrange(0, members.len() as int) =~= names);
    }
}

} // verus!
