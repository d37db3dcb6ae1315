//! A treasury that pays gas subsidies to whitelisted contracts. It stands
//! beside the savings plans and shares nothing with them.

use crate::amount::amount_add;
use crate::coin::{payout_denom, Coin, CoinView};
use crate::msg::{transfers, BankSend, MessageInfo};
use crate::state::BankSendView;
use crate::text::{clone_texts, contains_text, same_text, texts};
use vstd::prelude::*;

verus! {

/// The admin, the limits and the contracts that may be subsidised.
#[derive(Clone, Debug, PartialEq, Eq)]
pub struct Config {
    pub admin: String,
    pub min_balance: u128,
    pub max_gas_subsidy: u128,
    pub whitelisted_contracts: Vec<String>,
}

/// What a [`Config`] holds, as mathematical values.
pub struct ConfigView {
    pub admin: Seq<char>,
    pub min_balance: u128,
    pub max_gas_subsidy: u128,
    pub whitelisted_contracts: Seq<Seq<char>>,
}

impl View for Config {
    type V = ConfigView;

    open spec fn view(&self) -> ConfigView {
        ConfigView {
            admin: self.admin@,
            min_balance: self.min_balance,
            max_gas_subsidy: self.max_gas_subsidy,
            whitelisted_contracts: texts(self.whitelisted_contracts@),
        }
    }
}

/// How the treasury is set up.
#[derive(Clone, Debug, PartialEq, Eq)]
pub struct InstantiateMsg {
    pub min_balance: u128,
    pub max_gas_subsidy: u128,
    pub whitelisted_contracts: Vec<String>,
}

/// The instructions of the treasury.
#[allow(inconsistent_fields)]
#[derive(Clone, Debug, PartialEq, Eq)]
pub enum ExecuteMsg {
    UpdateConfig {
        min_balance: Option<u128>,
        max_gas_subsidy: Option<u128>,
        whitelisted_contracts: Option<Vec<String>>,
    },
    AddWhitelistedContract { contract_address: String },
    RemoveWhitelistedContract { contract_address: String },
    ExecuteGaslessTransaction { contract_address: String, msg: Vec<u8>, gas_amount: u128 },
}

/// The questions to the treasury.
#[derive(Clone, Debug, PartialEq, Eq)]
pub enum QueryMsg {
    GetConfig {  },
    IsContractWhitelisted { contract_address: String },
    GetTreasuryBalance {  },
}

/// The answer to a question.
#[derive(Clone, Debug, PartialEq, Eq)]
pub enum QueryResponse {
    Config(Config),
    Whitelisted(bool),
    Balance(Coin),
}

/// Why the treasury turns an instruction down.
#[derive(Clone, Copy, Debug, PartialEq, Eq, Structural)]
pub enum TreasuryError {
    /// The caller is not the admin.
    Unauthorized,
    /// The contract to subsidise is not on the whitelist.
    NotWhitelisted,
    /// The subsidy asked for is above the limit.
    SubsidyTooHigh,
    /// The treasury holds less than its minimum balance.
    InsufficientBalance,
}

/// The value of an attribute: a text, an amount of coins or a count.
#[derive(Clone, Debug, PartialEq, Eq)]
pub enum AttributeValue {
    Text(String),
    Amount(u128),
    Count(u64),
}

/// What an [`AttributeValue`] holds, as mathematical values.
pub enum AttributeValueView {
    Text(Seq<char>),
    Amount(u128),
    Count(u64),
}

/// A named value that describes what an instruction did.
#[derive(Clone, Debug, PartialEq, Eq)]
pub struct Attribute {
    pub key: String,
    pub value: AttributeValue,
}

/// What an [`Attribute`] holds, as mathematical values.
pub struct AttributeView {
    pub key: Seq<char>,
    pub value: AttributeValueView,
}

impl View for Attribute {
    type V = AttributeView;

    open spec fn view(&self) -> AttributeView {
        AttributeView {
            key: self.key@,
            value: match self.value {
                AttributeValue::Text(t) => AttributeValueView::Text(t@),
                AttributeValue::Amount(a) => AttributeValueView::Amount(a),
                AttributeValue::Count(c) => AttributeValueView::Count(c),
            },
        }
    }
}

/// What each attribute of a list holds.
pub open spec fn attributes(list: Seq<Attribute>) -> Seq<AttributeView> {
    list.map_values(|a: Attribute| a@)
}

/// What an accepted instruction hands back.
#[derive(Clone, Debug, PartialEq, Eq)]
pub struct Response {
    pub messages: Vec<BankSend>,
    pub attributes: Vec<Attribute>,
}

/// What a [`Response`] holds, as mathematical values.
pub struct ResponseView {
    pub messages: Seq<BankSendView>,
    pub attributes: Seq<AttributeView>,
}

impl View for Response {
    type V = ResponseView;

    open spec fn view(&self) -> ResponseView {
        ResponseView {
            messages: transfers(self.messages@),
            attributes: attributes(self.attributes@),
        }
    }
}

/// What one user has received in subsidies.
#[derive(Clone, Debug, PartialEq, Eq)]
pub struct GasUsage {
    pub user: String,
    pub amount: u128,
}

/// Everything that the treasury keeps between two instructions.
#[derive(Clone, Debug, PartialEq, Eq)]
pub struct Treasury {
    pub config: Config,
    /// How many subsidies have been paid.
    pub transaction_counter: u64,
    /// Where two entries name the same user, the later one counts.
    pub gas_usage: Vec<GasUsage>,
}

/// What `user` has received according to `list`; zero where `list` does not
/// name `user`.
pub open spec fn used(list: Seq<GasUsage>, user: Seq<char>) -> u128
    decreases list.len(),
{
    if list.len() == 0 {
        0
    } else if list.last().user@ == user {
        list.last().amount
    } else {
        used(list.drop_last(), user)
    }
}

/// A text attribute.
pub open spec fn text_attribute(key: Seq<char>, value: Seq<char>) -> AttributeView {
    AttributeView { key, value: AttributeValueView::Text(value) }
}

/// The attribute that names the instruction carried out.
pub open spec fn method(name: Seq<char>) -> AttributeView {
    text_attribute("method"@, name)
}

/// The entries of `list` other than `removed`, in the order of `list`.
pub open spec fn without(list: Seq<Seq<char>>, removed: Seq<char>) -> Seq<Seq<char>> {
    list.filter(|s: Seq<char>| s != removed)
}

impl ConfigView {
    /// The configuration with every named field replaced.
    pub open spec fn updated(
        self,
        min_balance: Option<u128>,
        max_gas_subsidy: Option<u128>,
        whitelisted_contracts: Option<Seq<Seq<char>>>,
    ) -> ConfigView {
        ConfigView {
            admin: self.admin,
            min_balance: match min_balance {
                Some(m) => m,
                None => self.min_balance,
            },
            max_gas_subsidy: match max_gas_subsidy {
                Some(m) => m,
                None => self.max_gas_subsidy,
            },
            whitelisted_contracts: match whitelisted_contracts {
                Some(list) => list,
                None => self.whitelisted_contracts,
            },
        }
    }

    /// The configuration with `contract_address` on the whitelist.
    pub open spec fn with_contract(self, contract_address: Seq<char>) -> ConfigView {
        if self.whitelisted_contracts.contains(contract_address) {
            self
        } else {
            ConfigView {
                whitelisted_contracts: self.whitelisted_contracts.push(contract_address),
                ..self
            }
        }
    }

    /// The configuration with `contract_address` off the whitelist.
    pub open spec fn without_contract(self, contract_address: Seq<char>) -> ConfigView {
        ConfigView {
            whitelisted_contracts: without(self.whitelisted_contracts, contract_address),
            ..self
        }
    }

    /// Why a subsidy of `gas_amount` for `contract_address` is refused while
    /// the treasury holds `balance`, if it is refused.
    pub open spec fn refusal(self, contract_address: Seq<char>, gas_amount: u128, balance: u128) -> Option<
        TreasuryError,
    > {
        if !self.whitelisted_contracts.contains(contract_address) {
            Some(TreasuryError::NotWhitelisted)
        } else if gas_amount > self.max_gas_subsidy {
            Some(TreasuryError::SubsidyTooHigh)
        } else if balance < self.min_balance {
            Some(TreasuryError::InsufficientBalance)
        } else {
            None
        }
    }
}

/// The texts of an optional list of strings.
pub open spec fn texts_of(list: Option<Vec<String>>) -> Option<Seq<Seq<char>>> {
    match list {
        Some(l) => Some(texts(l@)),
        None => None,
    }
}

/// The last entry for a user is the one that counts.
proof fn lemma_used_at(list: Seq<GasUsage>, i: int)
    requires
        0 <= i < list.len(),
        forall|j: int| i < j < list.len() ==> list[j].user@ != list[i].user@,
    ensures
        used(list, list[i].user@) == list[i].amount,
    decreases list.len(),
{
    if i < list.len() - 1 {
        lemma_used_at(list.drop_last(), i);
    }
}

/// A user without an entry has received nothing.
proof fn lemma_used_absent(list: Seq<GasUsage>, user: Seq<char>)
    requires
        forall|j: int| 0 <= j < list.len() ==> list[j].user@ != user,
    ensures
        used(list, user) == 0,
    decreases list.len(),
{
    if list.len() > 0 {
        lemma_used_absent(list.drop_last(), user);
    }
}

/// Changing the amount of the last entry for a user changes what that user
/// has received and nothing else.
proof fn lemma_used_update(list: Seq<GasUsage>, i: int, changed: GasUsage, who: Seq<char>)
    requires
        0 <= i < list.len(),
        changed.user@ == list[i].user@,
        forall|j: int| i < j < list.len() ==> list[j].user@ != list[i].user@,
    ensures
        used(list.update(i, changed), who) == (if who == changed.user@ {
            changed.amount
        } else {
            used(list, who)
        }),
    decreases list.len(),
{
    let after = list.update(i, changed);
    if i == list.len() - 1 {
        assert(after.drop_last() =~= list.drop_last());
    } else {
        lemma_used_update(list.drop_last(), i, changed, who);
        assert(after.drop_last() =~= list.drop_last().update(i, changed));
    }
}

/// What an instruction of the admin does: for any other caller it fails with
/// `Unauthorized` and changes nothing; for the admin it leaves `config` as
/// the configuration and hands back `response`. The usage and the count of
/// subsidies stay as they were.
pub open spec fn admin_change(
    before: Treasury,
    after: Treasury,
    res: Result<Response, TreasuryError>,
    sender: Seq<char>,
    config: ConfigView,
    response: ResponseView,
) -> bool {
    &&& after.transaction_counter == before.transaction_counter
    &&& after.gas_usage == before.gas_usage
    &&& if sender == before.config@.admin {
        res is Ok && res->Ok_0@ == response && after.config@ == config
    } else {
        res == Err::<Response, TreasuryError>(TreasuryError::Unauthorized) && after.config
            == before.config
    }
}

/// What asking for a subsidy does: where it is refused, it fails with the
/// reason and changes nothing; where it is granted, the count of subsidies
/// goes up by one, the amount is added to what the caller has received, and
/// the transfer is handed back. The configuration stays as it was.
pub open spec fn subsidy(
    before: Treasury,
    after: Treasury,
    res: Result<Response, TreasuryError>,
    sender: Seq<char>,
    contract_address: Seq<char>,
    gas_amount: u128,
    balance: u128,
) -> bool {
    &&& after.config == before.config
    &&& match before.config@.refusal(contract_address, gas_amount, balance) {
        Some(e) => res == Err::<Response, TreasuryError>(e) && after == before,
        None => res is Ok && res->Ok_0@ == grant(
            contract_address,
            gas_amount,
            (before.transaction_counter + 1) as u64,
        ) && after.transaction_counter == before.transaction_counter + 1 && forall|
            who: Seq<char>,
        |
            #[trigger] after.used_by(who) == (if who == sender {
                (before.used_by(who) + gas_amount) as u128
            } else {
                before.used_by(who)
            }),
    }
}

/// A response without transfers that names the instruction and the contract
/// that it was about.
pub open spec fn report_on(name: Seq<char>, contract_address: Seq<char>) -> ResponseView {
    ResponseView {
        messages: seq![],
        attributes: seq![method(name), text_attribute("contract_address"@, contract_address)],
    }
}

/// An attribute with a text as its value.
fn text(key: &str, value: String) -> (attribute: Attribute)
    ensures
        attribute@ == text_attribute(key@, value@),
{
    Attribute { key: String::from_str(key), value: AttributeValue::Text(value) }
}

impl Config {
    /// Why a subsidy of `gas_amount` for `contract_address` is refused while
    /// the treasury holds `balance`, if it is refused: the whitelist is
    /// looked at first, then the limit, then the balance.
    pub fn refusal(&self, contract_address: &String, gas_amount: u128, balance: u128) -> (why:
        Option<TreasuryError>)
        ensures
            why == self@.refusal(contract_address@, gas_amount, balance),
    {
        if !contains_text(&self.whitelisted_contracts, contract_address) {
            Some(TreasuryError::NotWhitelisted)
        } else if gas_amount > self.max_gas_subsidy {
            Some(TreasuryError::SubsidyTooHigh)
        } else if balance < self.min_balance {
            Some(TreasuryError::InsufficientBalance)
        } else {
            None
        }
    }
}

impl Treasury {
    /// What `user` has received in subsidies.
    pub open spec fn used_by(&self, user: Seq<char>) -> u128 {
        used(self.gas_usage@, user)
    }

    /// Where the entry of `user` stands that counts.
    fn position(&self, user: &String) -> (at: Option<usize>)
        ensures
            match at {
                Some(i) => i < self.gas_usage.len() && self.gas_usage[i as int].user@ == user@
                    && forall|j: int|
                    i < j < self.gas_usage.len() ==> self.gas_usage[j].user@ != user@,
                None => forall|j: int|
                    0 <= j < self.gas_usage.len() ==> self.gas_usage[j].user@ != user@,
            },
    {
        let mut i: usize = self.gas_usage.len();
        while i > 0
            invariant
                i <= self.gas_usage.len(),
                forall|j: int| i <= j < self.gas_usage.len() ==> self.gas_usage[j].user@ != user@,
            decreases i,
        {
            i -= 1;
            if same_text(&self.gas_usage[i].user, user) {
                return Some(i);
            }
        }
        None
    }

    /// What `user` has received in subsidies.
    pub fn gas_used(&self, user: &String) -> (amount: u128)
        ensures
            amount == self.used_by(user@),
    {
        match self.position(user) {
            Some(i) => {
                proof {
                    lemma_used_at(self.gas_usage@, i as int);
                }
                self.gas_usage[i].amount
            },
            None => {
                proof {
                    lemma_used_absent(self.gas_usage@, user@);
                }
                0
            },
        }
    }

    /// Sets what `user` has received in subsidies.
    fn set_gas_used(&mut self, user: &String, amount: u128)
        ensures
            final(self).config == old(self).config,
            final(self).transaction_counter == old(self).transaction_counter,
            forall|who: Seq<char>|
                #[trigger] final(self).used_by(who) == (if who == user@ {
                    amount
                } else {
                    old(self).used_by(who)
                }),
    {
        match self.position(user) {
            Some(i) => {
                let ghost changed = GasUsage { amount, ..self.gas_usage[i as int] };
                proof {
                    assert forall|who: Seq<char>|
                        used(#[trigger] self.gas_usage@.update(i as int, changed), who) == (if who
                            == user@ {
                            amount
                        } else {
                            used(self.gas_usage@, who)
                        }) by {
                        lemma_used_update(self.gas_usage@, i as int, changed, who);
                    }
                }
                self.gas_usage[i].amount = amount;
                assert(self.gas_usage@ =~= old(self).gas_usage@.update(i as int, changed));
            },
            None => {
                self.gas_usage.push(GasUsage { user: user.clone(), amount });
                assert(self.gas_usage@.drop_last() =~= old(self).gas_usage@);
            },
        }
    }
}

/// Sets the treasury up with the caller as its admin.
pub fn instantiate(info: &MessageInfo, msg: InstantiateMsg) -> (made: (Treasury, Response))
    ensures
        made.0.config@ == (ConfigView {
            admin: info.sender@,
            min_balance: msg.min_balance,
            max_gas_subsidy: msg.max_gas_subsidy,
            whitelisted_contracts: texts(msg.whitelisted_contracts@),
        }),
        made.0.transaction_counter == 0,
        forall|who: Seq<char>| made.0.used_by(who) == 0,
        made.1@ == (ResponseView {
            messages: seq![],
            attributes: seq![method("instantiate"@), text_attribute("admin"@, info.sender@)],
        }),
{
    let treasury = Treasury {
        config: Config {
            admin: info.sender.clone(),
            min_balance: msg.min_balance,
            max_gas_subsidy: msg.max_gas_subsidy,
            whitelisted_contracts: msg.whitelisted_contracts,
        },
        transaction_counter: 0,
        gas_usage: Vec::new(),
    };
    let mut attributes: Vec<Attribute> = Vec::new();
    attributes.push(text("method", String::from_str("instantiate")));
    attributes.push(text("admin", info.sender.clone()));
    let response = Response { messages: Vec::new(), attributes };
    assert(response@.messages =~= seq![]);
    assert(response@.attributes =~= seq![
        method("instantiate"@),
        text_attribute("admin"@, info.sender@),
    ]);
    (treasury, response)
}

/// A response without transfers that names the instruction and, where there
/// is one, the contract that it was about.
fn report(name: &str, contract_address: Option<String>) -> (response: Response)
    ensures
        response@ == (ResponseView {
            messages: seq![],
            attributes: match contract_address {
                Some(address) => seq![
                    method(name@),
                    text_attribute("contract_address"@, address@),
                ],
                None => seq![method(name@)],
            },
        }),
{
    let mut listed: Vec<Attribute> = Vec::new();
    listed.push(text("method", String::from_str(name)));
    if let Some(address) = contract_address {
        listed.push(text("contract_address", address));
        assert(attributes(listed@) =~= seq![
            method(name@),
            text_attribute("contract_address"@, address@),
        ]);
    } else {
        assert(attributes(listed@) =~= seq![method(name@)]);
    }
    let response = Response { messages: Vec::new(), attributes: listed };
    assert(response@.messages =~= seq![]);
    response
}

/// Replaces the limits and the whitelist that the admin names.
pub fn execute_update_config(
    treasury: &mut Treasury,
    info: &MessageInfo,
    min_balance: Option<u128>,
    max_gas_subsidy: Option<u128>,
    whitelisted_contracts: Option<Vec<String>>,
) -> (res: Result<Response, TreasuryError>)
    ensures
        admin_change(
            *old(treasury),
            *final(treasury),
            res,
            info.sender@,
            old(treasury).config@.updated(
                min_balance,
                max_gas_subsidy,
                texts_of(whitelisted_contracts),
            ),
            ResponseView { messages: seq![], attributes: seq![method("update_config"@)] },
        ),
{
    if !same_text(&info.sender, &treasury.config.admin) {
        return Err(TreasuryError::Unauthorized);
    }
    if let Some(min_balance) = min_balance {
        treasury.config.min_balance = min_balance;
    }
    if let Some(max_gas_subsidy) = max_gas_subsidy {
        treasury.config.max_gas_subsidy = max_gas_subsidy;
    }
    if let Some(whitelisted_contracts) = whitelisted_contracts {
        treasury.config.whitelisted_contracts = whitelisted_contracts;
    }
    Ok(report("update_config", None))
}

/// Puts a contract on the whitelist, for the admin. A contract that is
/// already there is not added again.
pub fn execute_add_whitelisted_contract(
    treasury: &mut Treasury,
    info: &MessageInfo,
    contract_address: String,
) -> (res: Result<Response, TreasuryError>)
    ensures
        admin_change(
            *old(treasury),
            *final(treasury),
            res,
            info.sender@,
            old(treasury).config@.with_contract(contract_address@),
            report_on("add_whitelisted_contract"@, contract_address@),
        ),
{
    if !same_text(&info.sender, &treasury.config.admin) {
        return Err(TreasuryError::Unauthorized);
    }
    if !contains_text(&treasury.config.whitelisted_contracts, &contract_address) {
        treasury.config.whitelisted_contracts.push(contract_address.clone());
        assert(treasury.config@.whitelisted_contracts =~= old(
            treasury,
        ).config@.whitelisted_contracts.push(contract_address@));
    }
    Ok(report("add_whitelisted_contract", Some(contract_address)))
}

/// The strings of `list` other than `removed`, in the order of `list`.
fn remove_text(list: &Vec<String>, removed: &String) -> (kept: Vec<String>)
    ensures
        texts(kept@) == without(texts(list@), removed@),
{
    let ghost all = texts(list@);
    let mut kept: Vec<String> = Vec::new();
    let mut i: usize = 0;
    proof {
        reveal(Seq::filter);
        assert(all.subrange(0, 0) =~= Seq::<Seq<char>>::empty());
        assert(texts(kept@) =~= without(all.subrange(0, 0), removed@));
    }
    while i < list.len()
        invariant
            i <= list.len(),
            all == texts(list@),
            texts(kept@) == without(all.subrange(0, i as int), removed@),
        decreases list.len() - i,
    {
        let ghost before = kept@;
        proof {
            reveal(Seq::filter);
            assert(all.subrange(0, i + 1).drop_last() =~= all.subrange(0, i as int));
            assert(all.subrange(0, i + 1).last() == list@[i as int]@);
        }
        if !same_text(&list[i], removed) {
            kept.push(list[i].clone());
            assert(texts(kept@) =~= texts(before).push(list@[i as int]@));
        }
        i += 1;
    }
    assert(all.subrange(0, list.len() as int) =~= all);
    kept
}

/// Takes a contract off the whitelist, for the admin.
pub fn execute_remove_whitelisted_contract(
    treasury: &mut Treasury,
    info: &MessageInfo,
    contract_address: String,
) -> (res: Result<Response, TreasuryError>)
    ensures
        admin_change(
            *old(treasury),
            *final(treasury),
            res,
            info.sender@,
            old(treasury).config@.without_contract(contract_address@),
            report_on("remove_whitelisted_contract"@, contract_address@),
        ),
{
    if !same_text(&info.sender, &treasury.config.admin) {
        return Err(TreasuryError::Unauthorized);
    }
    let kept = remove_text(&treasury.config.whitelisted_contracts, &contract_address);
    treasury.config.whitelisted_contracts = kept;
    Ok(report("remove_whitelisted_contract", Some(contract_address)))
}

/// What a granted subsidy hands back: one transfer of `gas_amount` to the
/// contract, and what was done under which number.
pub open spec fn grant(contract_address: Seq<char>, gas_amount: u128, transaction_id: u64) -> ResponseView {
    ResponseView {
        messages: seq![
            BankSendView {
                to_address: contract_address,
                amount: seq![CoinView { denom: crate::coin::denomination(), amount: gas_amount }],
            },
        ],
        attributes: seq![
            method("execute_gasless_transaction"@),
            text_attribute("contract_address"@, contract_address),
            AttributeView { key: "gas_amount"@, value: AttributeValueView::Amount(gas_amount) },
            AttributeView {
                key: "transaction_id"@,
                value: AttributeValueView::Count(transaction_id),
            },
        ],
    }
}

/// Grants a gas subsidy to a whitelisted contract: the subsidy must be
/// within the limit and the treasury, which holds `balance`, must hold its
/// minimum. The subsidy is numbered, charged to the caller's usage and sent
/// to the contract.
pub fn execute_gasless_transaction(
    treasury: &mut Treasury,
    balance: &Coin,
    info: &MessageInfo,
    contract_address: String,
    msg: Vec<u8>,
    gas_amount: u128,
) -> (res: Result<Response, TreasuryError>)
    requires
        old(treasury).config@.refusal(contract_address@, gas_amount, balance.amount) is None ==> old(
            treasury,
        ).transaction_counter < u64::MAX && old(treasury).used_by(info.sender@) + gas_amount
            <= u128::MAX,
    ensures
        subsidy(
            *old(treasury),
            *final(treasury),
            res,
            info.sender@,
            contract_address@,
            gas_amount,
            balance.amount,
        ),
{
    if let Some(why) = treasury.config.refusal(&contract_address, gas_amount, balance.amount) {
        return Err(why);
    }
    let counter = treasury.transaction_counter + 1;
    treasury.transaction_counter = counter;
    let current = treasury.gas_used(&info.sender);
    treasury.set_gas_used(&info.sender, amount_add(current, gas_amount));
    let mut amount: Vec<Coin> = Vec::new();
    amount.push(Coin { denom: payout_denom(), amount: gas_amount });
    let mut messages: Vec<BankSend> = Vec::new();
    messages.push(BankSend { to_address: contract_address.clone(), amount });
    let mut attributes: Vec<Attribute> = Vec::new();
    attributes.push(text("method", String::from_str("execute_gasless_transaction")));
    attributes.push(text("contract_address", contract_address));
    attributes.push(
        Attribute { key: String::from_str("gas_amount"), value: AttributeValue::Amount(gas_amount) },
    );
    attributes.push(
        Attribute { key: String::from_str("transaction_id"), value: AttributeValue::Count(counter) },
    );
    let response = Response { messages, attributes };
    proof {
        let expected = grant(contract_address@, gas_amount, counter);
        assert(response@.messages[0].amount =~= expected.messages[0].amount);
        assert(response@.messages =~= expected.messages);
        assert(response@.attributes =~= expected.attributes);
    }
    Ok(response)
}

/// Carries out one instruction of the treasury.
pub fn execute(treasury: &mut Treasury, balance: &Coin, info: &MessageInfo, msg: ExecuteMsg) -> (res:
    Result<Response, TreasuryError>)
    requires
        msg matches ExecuteMsg::ExecuteGaslessTransaction { contract_address, gas_amount, .. }
            ==> old(treasury).config@.refusal(contract_address@, gas_amount, balance.amount)
            is Some || (old(treasury).transaction_counter < u64::MAX && old(treasury).used_by(
            info.sender@,
        ) + gas_amount <= u128::MAX),
    ensures
        match msg {
            ExecuteMsg::UpdateConfig {
                min_balance,
                max_gas_subsidy,
                whitelisted_contracts,
            } => admin_change(
                *old(treasury),
                *final(treasury),
                res,
                info.sender@,
                old(treasury).config@.updated(
                    min_balance,
                    max_gas_subsidy,
                    texts_of(whitelisted_contracts),
                ),
                ResponseView { messages: seq![], attributes: seq![method("update_config"@)] },
            ),
            ExecuteMsg::AddWhitelistedContract { contract_address } => admin_change(
                *old(treasury),
                *final(treasury),
                res,
                info.sender@,
                old(treasury).config@.with_contract(contract_address@),
                report_on("add_whitelisted_contract"@, contract_address@),
            ),
            ExecuteMsg::RemoveWhitelistedContract { contract_address } => admin_change(
                *old(treasury),
                *final(treasury),
                res,
                info.sender@,
                old(treasury).config@.without_contract(contract_address@),
                report_on("remove_whitelisted_contract"@, contract_address@),
            ),
            ExecuteMsg::ExecuteGaslessTransaction {
                contract_address,
                gas_amount,
                ..
            } => subsidy(
                *old(treasury),
                *final(treasury),
                res,
                info.sender@,
                contract_address@,
                gas_amount,
                balance.amount,
            ),
        },
{
    match msg {
        ExecuteMsg::UpdateConfig { min_balance, max_gas_subsidy, whitelisted_contracts } => {
            execute_update_config(
                treasury,
                info,
                min_balance,
                max_gas_subsidy,
                whitelisted_contracts,
            )
        },
        ExecuteMsg::AddWhitelistedContract { contract_address } => {
            execute_add_whitelisted_contract(treasury, info, contract_address)
        },
        ExecuteMsg::RemoveWhitelistedContract { contract_address } => {
            execute_remove_whitelisted_contract(treasury, info, contract_address)
        },
        ExecuteMsg::ExecuteGaslessTransaction { contract_address, msg, gas_amount } => {
            execute_gasless_transaction(treasury, balance, info, contract_address, msg, gas_amount)
        },
    }
}

/// Answers a question about the treasury, which holds `balance`.
pub fn query(treasury: &Treasury, balance: &Coin, msg: QueryMsg) -> (answer: QueryResponse)
    ensures
        match msg {
            QueryMsg::GetConfig {  } => answer matches QueryResponse::Config(config) && config@
                == treasury.config@,
            QueryMsg::IsContractWhitelisted { contract_address } => answer
                == QueryResponse::Whitelisted(
                treasury.config@.whitelisted_contracts.contains(contract_address@),
            ),
            QueryMsg::GetTreasuryBalance {  } => answer matches QueryResponse::Balance(coin)
                && coin@ == balance@,
        },
{
    match msg {
        QueryMsg::GetConfig {  } => QueryResponse::Config(
            Config {
                admin: treasury.config.admin.clone(),
                min_balance: treasury.config.min_balance,
                max_gas_subsidy: treasury.config.max_gas_subsidy,
                whitelisted_contracts: clone_texts(&treasury.config.whitelisted_contracts),
            },
        ),
        QueryMsg::IsContractWhitelisted { contract_address } => QueryResponse::Whitelisted(
            contains_text(&treasury.config.whitelisted_contracts, &contract_address),
        ),
        QueryMsg::GetTreasuryBalance {  } => QueryResponse::Balance(
            Coin { denom: balance.denom.clone(), amount: balance.amount },
        ),
    }
}

} // verus!
