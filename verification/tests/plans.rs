use ajo::contract::{
    execute, execute_cancel_plan, execute_create_plan, execute_emergency_withdraw,
    execute_join_plan, execute_update_plan, instantiate,
};
use ajo::coin::Coin;
use ajo::error::ContractError;
use ajo::frequency::{frequency_literal, parse_frequency, plan_frequency_to_cycles, Frequency};
use ajo::msg::{Env, ExecuteMsg, InstantiateMsg, MessageInfo, Response};
use ajo::state::{LifecyclePolicy, State};

fn caller(name: &str) -> MessageInfo {
    MessageInfo { sender: name.to_string(), funds: vec![] }
}

fn open_state() -> State {
    instantiate(&caller("admin"), InstantiateMsg { policy: LifecyclePolicy::OpenEnrollment })
}

fn create(state: &mut State, who: &str, total: u32, amount: u128, months: u32, frequency: &str) -> Result<Response, ContractError> {
    execute_create_plan(
        state,
        &caller(who),
        "Market women".to_string(),
        "Monthly savings of the market women".to_string(),
        total,
        amount,
        frequency.to_string(),
        months,
        0,
        true,
    )
}

#[test]
fn frequency_gives_cycles_per_month() {
    assert_eq!(plan_frequency_to_cycles(&Frequency::Daily), 30);
    assert_eq!(plan_frequency_to_cycles(&Frequency::Weekly), 4);
    assert_eq!(plan_frequency_to_cycles(&Frequency::Monthly), 1);
}

#[test]
fn frequency_literals_are_read_exactly() {
    assert_eq!(parse_frequency(&"Daily".to_string()), Some(Frequency::Daily));
    assert_eq!(parse_frequency(&"Weekly".to_string()), Some(Frequency::Weekly));
    assert_eq!(parse_frequency(&"Monthly".to_string()), Some(Frequency::Monthly));
    assert_eq!(parse_frequency(&"monthly".to_string()), None);
    assert_eq!(parse_frequency(&"Yearly".to_string()), None);
    assert_eq!(parse_frequency(&"".to_string()), None);
    assert_eq!(parse_frequency(&frequency_literal(Frequency::Weekly)), Some(Frequency::Weekly));
}

#[test]
fn instantiate_starts_empty_with_the_caller_as_admin() {
    let state = open_state();
    assert_eq!(state.config.admin, "admin");
    assert_eq!(state.config.policy, LifecyclePolicy::OpenEnrollment);
    assert!(state.plans.is_empty());
    assert!(state.join_requests.is_empty());
    assert!(state.ledger.entries.is_empty());
}

#[test]
fn created_plan_has_only_its_creator_and_no_cycle() {
    let mut state = open_state();
    let res = create(&mut state, "ada", 5, 100, 12, "Weekly").unwrap();
    assert_eq!(res.plan_id, 1);
    assert!(res.messages.is_empty());
    let plan = &state.plans[0];
    assert_eq!(plan.id, 1);
    assert_eq!(plan.participants, vec!["ada".to_string()]);
    assert_eq!(plan.current_cycle, 0);
    assert_eq!(plan.payout_index, 0);
    assert_eq!(plan.created_by, "ada");
    assert_eq!(plan.frequency, Frequency::Weekly);
    assert_eq!(plan.total_participants, 5);
    assert_eq!(plan.contribution_amount, 100);
    assert_eq!(plan.duration_months, 12);
    assert!(!plan.is_active);
    assert!(!plan.is_cancelled);
}

#[test]
fn plan_identifiers_count_up_from_one() {
    let mut state = open_state();
    assert_eq!(create(&mut state, "ada", 5, 100, 12, "Weekly").unwrap().plan_id, 1);
    assert_eq!(create(&mut state, "bisi", 5, 100, 12, "Daily").unwrap().plan_id, 2);
    assert_eq!(create(&mut state, "ada", 5, 100, 12, "Monthly").unwrap().plan_id, 3);
    assert_eq!(state.plans.len(), 3);
    assert_eq!(state.plans[2].id, 3);
}

#[test]
fn a_rejected_plan_takes_no_identifier() {
    let mut state = open_state();
    assert_eq!(create(&mut state, "ada", 1, 100, 12, "Weekly"), Err(ContractError::InvalidInput));
    assert!(state.plans.is_empty());
    assert_eq!(create(&mut state, "ada", 2, 100, 12, "Weekly").unwrap().plan_id, 1);
}

#[test]
fn group_size_must_be_between_2_and_100() {
    let mut state = open_state();
    assert_eq!(create(&mut state, "ada", 1, 100, 12, "Weekly"), Err(ContractError::InvalidInput));
    assert_eq!(create(&mut state, "ada", 101, 100, 12, "Weekly"), Err(ContractError::InvalidInput));
    assert_eq!(create(&mut state, "ada", 0, 100, 12, "Weekly"), Err(ContractError::InvalidInput));
    assert!(create(&mut state, "ada", 2, 100, 12, "Weekly").is_ok());
    assert!(create(&mut state, "ada", 100, 100, 12, "Weekly").is_ok());
}

#[test]
fn contribution_amount_must_be_between_10_and_100000() {
    let mut state = open_state();
    assert_eq!(create(&mut state, "ada", 5, 9, 12, "Weekly"), Err(ContractError::InvalidInput));
    assert_eq!(create(&mut state, "ada", 5, 100001, 12, "Weekly"), Err(ContractError::InvalidInput));
    assert!(create(&mut state, "ada", 5, 10, 12, "Weekly").is_ok());
    assert!(create(&mut state, "ada", 5, 100000, 12, "Weekly").is_ok());
}

#[test]
fn duration_must_be_between_1_and_36_months() {
    let mut state = open_state();
    assert_eq!(create(&mut state, "ada", 5, 100, 0, "Weekly"), Err(ContractError::InvalidInput));
    assert_eq!(create(&mut state, "ada", 5, 100, 37, "Weekly"), Err(ContractError::InvalidInput));
    assert!(create(&mut state, "ada", 5, 100, 1, "Weekly").is_ok());
    assert!(create(&mut state, "ada", 5, 100, 36, "Weekly").is_ok());
}

#[test]
fn unknown_frequency_is_rejected() {
    let mut state = open_state();
    assert_eq!(create(&mut state, "ada", 5, 100, 12, "Hourly"), Err(ContractError::InvalidInput));
    assert_eq!(create(&mut state, "ada", 5, 100, 12, "weekly"), Err(ContractError::InvalidInput));
}

fn create_named(state: &mut State, name: String, description: String) -> Result<Response, ContractError> {
    execute_create_plan(state, &caller("ada"), name, description, 5, 100, "Weekly".to_string(), 12, 0, true)
}

#[test]
fn name_must_have_3_to_50_characters() {
    let mut state = open_state();
    let description = "A description".to_string();
    assert_eq!(create_named(&mut state, "ab".to_string(), description.clone()), Err(ContractError::InvalidInput));
    assert_eq!(create_named(&mut state, "a".repeat(51), description.clone()), Err(ContractError::InvalidInput));
    assert!(create_named(&mut state, "abc".to_string(), description.clone()).is_ok());
    assert!(create_named(&mut state, "a".repeat(50), description).is_ok());
}

#[test]
fn description_must_have_10_to_500_characters() {
    let mut state = open_state();
    let name = "Savers".to_string();
    assert_eq!(create_named(&mut state, name.clone(), "d".repeat(9)), Err(ContractError::InvalidInput));
    assert_eq!(create_named(&mut state, name.clone(), "d".repeat(501)), Err(ContractError::InvalidInput));
    assert!(create_named(&mut state, name.clone(), "d".repeat(10)).is_ok());
    assert!(create_named(&mut state, name, "d".repeat(500)).is_ok());
}

#[test]
fn lengths_are_counted_in_characters() {
    let mut state = open_state();
    // Three characters, six bytes.
    assert!(create_named(&mut state, "\u{e9}\u{e9}\u{e9}".to_string(), "A description".to_string()).is_ok());
    // Fifty characters, a hundred bytes.
    assert!(create_named(&mut state, "\u{e9}".repeat(50), "A description".to_string()).is_ok());
}

#[test]
fn direct_join_policy_starts_plans_active() {
    let mut state = instantiate(&caller("admin"), InstantiateMsg { policy: LifecyclePolicy::DirectJoin });
    create(&mut state, "ada", 3, 100, 1, "Monthly").unwrap();
    assert!(state.plans[0].is_active);
    assert_eq!(state.plans[0].participants, vec!["ada".to_string()]);
    assert_eq!(execute_join_plan(&mut state, &caller("bisi"), 50, 1), Err(ContractError::PlanActive));
}

#[test]
fn joining_appends_in_order_and_the_last_seat_activates() {
    let mut state = open_state();
    create(&mut state, "ada", 3, 100, 1, "Monthly").unwrap();
    let res = execute_join_plan(&mut state, &caller("bisi"), 50, 1).unwrap();
    assert_eq!(res.plan_id, 1);
    assert!(!state.plans[0].is_active);
    execute_join_plan(&mut state, &caller("chidi"), 50, 1).unwrap();
    assert!(state.plans[0].is_active);
    assert_eq!(
        state.plans[0].participants,
        vec!["ada".to_string(), "bisi".to_string(), "chidi".to_string()]
    );
    assert_eq!(execute_join_plan(&mut state, &caller("dayo"), 50, 1), Err(ContractError::PlanFull));
    assert_eq!(execute_join_plan(&mut state, &caller("ada"), 50, 1), Err(ContractError::PlanFull));
    assert_eq!(state.plans[0].participants.len(), 3);
}

#[test]
fn joining_twice_fails_with_already_participant() {
    let mut state = open_state();
    create(&mut state, "ada", 4, 100, 1, "Monthly").unwrap();
    execute_join_plan(&mut state, &caller("bisi"), 50, 1).unwrap();
    let before = state.clone();
    assert_eq!(execute_join_plan(&mut state, &caller("bisi"), 50, 1), Err(ContractError::AlreadyParticipant));
    assert_eq!(execute_join_plan(&mut state, &caller("ada"), 50, 1), Err(ContractError::AlreadyParticipant));
    assert_eq!(state, before);
}

#[test]
fn joining_needs_the_required_trust_score() {
    let mut state = open_state();
    execute_create_plan(
        &mut state,
        &caller("ada"),
        "Savers".to_string(),
        "A description".to_string(),
        4,
        100,
        "Monthly".to_string(),
        1,
        51,
        true,
    )
    .unwrap();
    assert_eq!(execute_join_plan(&mut state, &caller("bisi"), 50, 1), Err(ContractError::InsufficientTrustScore));
    assert!(execute_join_plan(&mut state, &caller("bisi"), 51, 1).is_ok());
}

#[test]
fn joining_an_unknown_plan_fails_with_not_found() {
    let mut state = open_state();
    assert_eq!(execute_join_plan(&mut state, &caller("bisi"), 50, 1), Err(ContractError::NotFound));
    create(&mut state, "ada", 4, 100, 1, "Monthly").unwrap();
    assert_eq!(execute_join_plan(&mut state, &caller("bisi"), 50, 0), Err(ContractError::NotFound));
    assert_eq!(execute_join_plan(&mut state, &caller("bisi"), 50, 2), Err(ContractError::NotFound));
}

#[test]
fn a_cancelled_plan_takes_no_members() {
    let mut state = open_state();
    create(&mut state, "ada", 4, 100, 1, "Monthly").unwrap();
    execute_cancel_plan(&mut state, &caller("ada"), 1).unwrap();
    assert!(state.plans[0].is_cancelled);
    assert_eq!(execute_join_plan(&mut state, &caller("bisi"), 50, 1), Err(ContractError::PlanNotActive));
    assert!(!state.plans[0].is_active);
}

#[test]
fn only_the_creator_cancels_and_only_before_activation() {
    let mut state = open_state();
    create(&mut state, "ada", 2, 100, 1, "Monthly").unwrap();
    assert_eq!(execute_cancel_plan(&mut state, &caller("bisi"), 1), Err(ContractError::Unauthorized));
    assert_eq!(execute_cancel_plan(&mut state, &caller("ada"), 2), Err(ContractError::NotFound));
    execute_join_plan(&mut state, &caller("bisi"), 50, 1).unwrap();
    assert!(state.plans[0].is_active);
    assert_eq!(execute_cancel_plan(&mut state, &caller("ada"), 1), Err(ContractError::PlanActive));
    assert!(!state.plans[0].is_cancelled);
}

fn no_update(state: &mut State, who: &str, plan_id: u64) -> Result<Response, ContractError> {
    execute_update_plan(state, &caller(who), plan_id, None, None, None, None, None, None, None, None)
}

#[test]
fn update_replaces_only_the_named_fields() {
    let mut state = open_state();
    create(&mut state, "ada", 5, 100, 12, "Weekly").unwrap();
    let before = state.plans[0].clone();
    no_update(&mut state, "ada", 1).unwrap();
    assert_eq!(state.plans[0], before);
    execute_update_plan(
        &mut state,
        &caller("ada"),
        1,
        Some("Traders".to_string()),
        None,
        Some(7),
        None,
        Some("Daily".to_string()),
        None,
        Some(30),
        Some(false),
    )
    .unwrap();
    let plan = &state.plans[0];
    assert_eq!(plan.name, "Traders");
    assert_eq!(plan.description, before.description);
    assert_eq!(plan.total_participants, 7);
    assert_eq!(plan.contribution_amount, 100);
    assert_eq!(plan.frequency, Frequency::Daily);
    assert_eq!(plan.duration_months, 12);
    assert_eq!(plan.trust_score_required, 30);
    assert!(!plan.allow_partial);
    assert_eq!(plan.participants, before.participants);
    assert_eq!(plan.id, 1);
}

#[test]
fn update_is_for_the_creator_before_activation() {
    let mut state = open_state();
    create(&mut state, "ada", 2, 100, 12, "Weekly").unwrap();
    assert_eq!(no_update(&mut state, "bisi", 1), Err(ContractError::Unauthorized));
    assert_eq!(no_update(&mut state, "ada", 9), Err(ContractError::NotFound));
    execute_join_plan(&mut state, &caller("bisi"), 50, 1).unwrap();
    assert_eq!(no_update(&mut state, "ada", 1), Err(ContractError::PlanActive));
}

#[test]
fn update_rejects_terms_out_of_range() {
    let mut state = open_state();
    create(&mut state, "ada", 5, 100, 12, "Weekly").unwrap();
    execute_join_plan(&mut state, &caller("bisi"), 50, 1).unwrap();
    execute_join_plan(&mut state, &caller("chidi"), 50, 1).unwrap();
    let before = state.clone();
    let info = caller("ada");
    assert_eq!(
        execute_update_plan(&mut state, &info, 1, None, None, None, None, Some("Yearly".to_string()), None, None, None),
        Err(ContractError::InvalidInput)
    );
    assert_eq!(
        execute_update_plan(&mut state, &info, 1, None, None, Some(101), None, None, None, None, None),
        Err(ContractError::InvalidInput)
    );
    assert_eq!(
        execute_update_plan(&mut state, &info, 1, None, None, Some(2), None, None, None, None, None),
        Err(ContractError::InvalidInput)
    );
    assert_eq!(
        execute_update_plan(&mut state, &info, 1, None, None, None, Some(5), None, None, None, None),
        Err(ContractError::InvalidInput)
    );
    assert_eq!(
        execute_update_plan(&mut state, &info, 1, Some("ab".to_string()), None, None, None, None, None, None, None),
        Err(ContractError::InvalidInput)
    );
    assert_eq!(
        execute_update_plan(&mut state, &info, 1, None, Some("short".to_string()), None, None, None, None, None, None),
        Err(ContractError::InvalidInput)
    );
    assert_eq!(
        execute_update_plan(&mut state, &info, 1, None, None, None, None, None, Some(0), None, None),
        Err(ContractError::InvalidInput)
    );
    assert_eq!(state, before);
    assert!(execute_update_plan(&mut state, &info, 1, None, None, Some(3), None, None, None, None, None).is_ok());
    assert_eq!(state.plans[0].total_participants, 3);
}

#[test]
fn emergency_withdraw_hands_the_balance_to_the_creator() {
    let mut state = open_state();
    create(&mut state, "ada", 2, 100, 1, "Monthly").unwrap();
    let env = Env {
        trust_score: 50,
        balance: vec![
            Coin { denom: "uxion".to_string(), amount: 700 },
            Coin { denom: "other".to_string(), amount: 3 },
        ],
    };
    assert_eq!(execute_emergency_withdraw(&state, &env, &caller("bisi"), 1), Err(ContractError::Unauthorized));
    assert_eq!(execute_emergency_withdraw(&state, &env, &caller("ada"), 2), Err(ContractError::NotFound));
    let res = execute_emergency_withdraw(&state, &env, &caller("ada"), 1).unwrap();
    assert_eq!(res.plan_id, 1);
    assert_eq!(res.messages.len(), 1);
    assert_eq!(res.messages[0].to_address, "ada");
    assert_eq!(res.messages[0].amount, env.balance);
    execute_cancel_plan(&mut state, &caller("ada"), 1).unwrap();
    assert!(execute_emergency_withdraw(&state, &env, &caller("ada"), 1).is_ok());
}

#[test]
fn emergency_withdraw_is_refused_while_the_plan_rotates() {
    let mut state = open_state();
    create(&mut state, "ada", 2, 100, 1, "Monthly").unwrap();
    execute_join_plan(&mut state, &caller("bisi"), 50, 1).unwrap();
    let env = Env { trust_score: 50, balance: vec![] };
    assert_eq!(execute_emergency_withdraw(&state, &env, &caller("ada"), 1), Err(ContractError::PlanActive));
}

#[test]
fn execute_dispatches_each_instruction() {
    let mut state = open_state();
    let env = Env { trust_score: 50, balance: vec![Coin { denom: "uxion".to_string(), amount: 5 }] };
    let res = execute(
        &mut state,
        &env,
        &caller("ada"),
        ExecuteMsg::CreatePlan {
            name: "Savers".to_string(),
            description: "A description".to_string(),
            total_participants: 2,
            contribution_amount: 100,
            frequency: "Monthly".to_string(),
            duration_months: 2,
            trust_score_required: 50,
            allow_partial: false,
        },
    )
    .unwrap();
    assert_eq!(res.plan_id, 1);
    execute(
        &mut state,
        &env,
        &caller("ada"),
        ExecuteMsg::UpdatePlan {
            plan_id: 1,
            name: None,
            description: None,
            total_participants: Some(4),
            contribution_amount: None,
            frequency: None,
            duration_months: None,
            trust_score_required: None,
            allow_partial: None,
        },
    )
    .unwrap();
    assert_eq!(state.plans[0].total_participants, 4);
    execute(&mut state, &env, &caller("bisi"), ExecuteMsg::JoinPlan { plan_id: 1 }).unwrap();
    let low = Env { trust_score: 49, balance: vec![] };
    assert_eq!(
        execute(&mut state, &low, &caller("chidi"), ExecuteMsg::JoinPlan { plan_id: 1 }),
        Err(ContractError::InsufficientTrustScore)
    );
    execute(&mut state, &env, &caller("chidi"), ExecuteMsg::RequestToJoinPlan { plan_id: 1 }).unwrap();
    assert_eq!(state.join_requests.len(), 1);
    execute(
        &mut state,
        &env,
        &caller("ada"),
        ExecuteMsg::DenyJoinRequest { plan_id: 1, requester: "chidi".to_string() },
    )
    .unwrap();
    assert_eq!(state.join_requests[0].denials, vec!["ada".to_string()]);
    execute(
        &mut state,
        &env,
        &caller("bisi"),
        ExecuteMsg::ApproveJoinRequest { plan_id: 1, requester: "chidi".to_string() },
    )
    .unwrap();
    assert!(state.join_requests.is_empty());
    assert_eq!(state.plans[0].participants.len(), 3);
    assert_eq!(
        execute(&mut state, &env, &caller("ada"), ExecuteMsg::Contribute { plan_id: 1, amount: 100 }),
        Err(ContractError::PlanNotActive)
    );
    assert_eq!(
        execute(&mut state, &env, &caller("admin"), ExecuteMsg::DistributePayout { plan_id: 1 }),
        Err(ContractError::PlanNotActive)
    );
    let res = execute(&mut state, &env, &caller("ada"), ExecuteMsg::EmergencyWithdraw { plan_id: 1 }).unwrap();
    assert_eq!(res.messages[0].amount, env.balance);
    execute(&mut state, &env, &caller("ada"), ExecuteMsg::CancelPlan { plan_id: 1 }).unwrap();
    assert!(state.plans[0].is_cancelled);
}
