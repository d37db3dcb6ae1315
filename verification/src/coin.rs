use vstd::prelude::*;

verus! {

/// An amount of one denomination.
#[derive(Clone, Debug, PartialEq, Eq)]
pub struct Coin {
    pub denom: String,
    pub amount: u128,
}

/// What a [`Coin`] holds.
pub struct CoinView {
    pub denom: Seq<char>,
    pub amount: u128,
}

impl View for Coin {
    type V = CoinView;

    open spec fn view(&self) -> CoinView {
        CoinView { denom: self.denom@, amount: self.amount }
    }
}

/// What each coin of a list holds.
pub open spec fn coins(list: Seq<Coin>) -> Seq<CoinView> {
    list.map_values(|c: Coin| c@)
}

/// The denomination in which contributions and payouts are made.
pub open spec fn denomination() -> Seq<char> {
    "uxion"@
}

/// The amount of the first coin of `funds` in `denom`, zero where there is none.
pub open spec fn attached(funds: Seq<CoinView>, denom: Seq<char>) -> u128
    decreases funds.len(),
{
    if funds.len() == 0 {
        0
    } else if funds[0].denom == denom {
        funds[0].amount
    } else {
        attached(funds.skip(1), denom)
    }
}

/// The denomination in which contributions and payouts are made.
pub fn payout_denom() -> (denom: String)
    ensures
        denom@ == denomination(),
{
    String::from_str("uxion")
}

/// How much of `denom` came with a call.
pub fn sent_amount(funds: &Vec<Coin>, denom: &String) -> (amount: u128)
    ensures
        amount == attached(coins(funds@), denom@),
{
    let mut i: usize = 0;
    assert(coins(funds@).skip(0) =~= coins(funds@));
    while i < funds.len()
        invariant
            i <= funds.len(),
            attached(coins(funds@), denom@) == attached(coins(funds@).skip(i as int), denom@),
        decreases funds.len() - i,
    {
        let ghost rest = coins(funds@).skip(i as int);
        assert(rest[0] == funds@[i as int]@);
        if funds[i].denom == *denom {
            return funds[i].amount;
        }
        assert(rest.skip(1) =~= coins(funds@).skip(i + 1));
        i += 1;
    }
    0
}

/// A copy of a list of coins.
pub fn clone_coins(list: &Vec<Coin>) -> (copy: Vec<Coin>)
    ensures
        coins(copy@) == coins(list@),
{
    let mut copy: Vec<Coin> = Vec::new();
    let mut i: usize = 0;
    while i < list.len()
        invariant
            i <= list.len(),
            copy.len() == i,
            coins(copy@) == coins(list@).subrange(0, i as int),
        decreases list.len() - i,
    {
        let ghost before = copy@;
        copy.push(Coin { denom: list[i].denom.clone(), amount: list[i].amount });
        assert(copy@[i as int]@ == list@[i as int]@);
        assert forall|j: int| 0 <= j < i implies coins(copy@)[j] == coins(list@)[j] by {
            assert(coins(before)[j] == coins(list@).subrange(0, i as int)[j]);
        }
        assert(coins(copy@) =~= coins(list@).subrange(0, i + 1));
        i += 1;
    }
    assert(coins(list@).subrange(0, list@.len() as int) =~= coins(list@));
    copy
}

} // verus!
