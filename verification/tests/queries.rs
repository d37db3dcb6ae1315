use ajo::coin::Coin;
use ajo::contract::{
    execute_contribute, execute_create_plan, execute_distribute_payout, execute_join_plan,
    instantiate, request_to_join_plan,
};
use ajo::error::ContractError;
use ajo::msg::{
    InstantiateMsg, JoinRequestsResponse, MessageInfo, ParticipantCycleStatusResponse,
    ParticipantStatus, PlanResponse, QueryMsg, QueryResponse,
};
use ajo::query::{
    query, query_join_requests, query_participant_cycle_status, query_participant_status,
    query_plan, query_plan_count, query_plans_by_creator,
};
use ajo::state::{LifecyclePolicy, State};
use ajo::text::{char_count, clone_texts, contains_text, same_text};

fn caller(name: &str) -> MessageInfo {
    MessageInfo { sender: name.to_string(), funds: vec![] }
}

fn payer(name: &str, uxion: u128) -> MessageInfo {
    MessageInfo {
        sender: name.to_string(),
        funds: vec![Coin { denom: "uxion".to_string(), amount: uxion }],
    }
}

fn create(state: &mut State, who: &str, total: u32) {
    execute_create_plan(
        state,
        &caller(who),
        "Savers".to_string(),
        "A description".to_string(),
        total,
        100,
        "Monthly".to_string(),
        6,
        0,
        true,
    )
    .unwrap();
}

/// Plans 1 and 3 of ada, plan 2 of bisi; plan 1 is active with ada, bisi, chidi.
fn sample() -> State {
    let mut state =
        instantiate(&caller("admin"), InstantiateMsg { policy: LifecyclePolicy::OpenEnrollment });
    create(&mut state, "ada", 3);
    create(&mut state, "bisi", 4);
    create(&mut state, "ada", 5);
    execute_join_plan(&mut state, &caller("bisi"), 50, 1).unwrap();
    execute_join_plan(&mut state, &caller("chidi"), 50, 1).unwrap();
    state
}

#[test]
fn text_helpers() {
    let list = vec!["ada".to_string(), "bisi".to_string()];
    assert!(contains_text(&list, &"bisi".to_string()));
    assert!(!contains_text(&list, &"Bisi".to_string()));
    assert!(!contains_text(&vec![], &"bisi".to_string()));
    assert!(same_text(&"ada".to_string(), &"ada".to_string()));
    assert!(!same_text(&"ada".to_string(), &"adA".to_string()));
    assert_eq!(char_count(&"".to_string()), 0);
    assert_eq!(char_count(&"ada".to_string()), 3);
    assert_eq!(char_count(&"\u{e9}t\u{e9}".to_string()), 3);
    assert_eq!(clone_texts(&list), list);
}

#[test]
fn query_plan_returns_the_plan_or_nothing() {
    let state = sample();
    assert_eq!(query_plan(&state, 1), PlanResponse { plan: Some(state.plans[0].clone()) });
    assert_eq!(query_plan(&state, 3), PlanResponse { plan: Some(state.plans[2].clone()) });
    assert_eq!(query_plan(&state, 0), PlanResponse { plan: None });
    assert_eq!(query_plan(&state, 4), PlanResponse { plan: None });
}

#[test]
fn query_plans_by_creator_lists_in_order_of_creation() {
    let state = sample();
    let of_ada = query_plans_by_creator(&state, &"ada".to_string());
    assert_eq!(
        of_ada,
        vec![
            PlanResponse { plan: Some(state.plans[0].clone()) },
            PlanResponse { plan: Some(state.plans[2].clone()) },
        ]
    );
    let of_bisi = query_plans_by_creator(&state, &"bisi".to_string());
    assert_eq!(of_bisi, vec![PlanResponse { plan: Some(state.plans[1].clone()) }]);
    // A member who created nothing has no plans of her own.
    assert!(query_plans_by_creator(&state, &"chidi".to_string()).is_empty());
}

#[test]
fn query_plan_count_counts_created_plans() {
    let mut state =
        instantiate(&caller("admin"), InstantiateMsg { policy: LifecyclePolicy::OpenEnrollment });
    assert_eq!(query_plan_count(&state), 0);
    create(&mut state, "ada", 3);
    assert_eq!(query_plan_count(&state), 1);
    assert_eq!(query_plan_count(&sample()), 3);
}

#[test]
fn query_join_requests_lists_the_requests_of_one_plan() {
    let mut state = sample();
    request_to_join_plan(&mut state, &caller("zainab"), 2).unwrap();
    request_to_join_plan(&mut state, &caller("yemi"), 3).unwrap();
    request_to_join_plan(&mut state, &caller("wale"), 2).unwrap();
    let found = query_join_requests(&state, 2);
    assert_eq!(
        found,
        JoinRequestsResponse {
            requests: vec![state.join_requests[0].clone(), state.join_requests[2].clone()]
        }
    );
    assert_eq!(found.requests[0].requester, "zainab");
    assert_eq!(found.requests[1].requester, "wale");
    assert!(query_join_requests(&state, 1).requests.is_empty());
}

#[test]
fn cycle_status_of_an_unknown_plan_is_not_found() {
    let state = sample();
    assert_eq!(query_participant_cycle_status(&state, 9, &"ada".to_string()), Err(ContractError::NotFound));
    assert_eq!(query_participant_status(&state, 0, &"ada".to_string()), Err(ContractError::NotFound));
}

#[test]
fn cycle_status_reports_what_is_left() {
    let mut state = sample();
    execute_contribute(&mut state, &payer("bisi", 35), 1, 35).unwrap();
    assert_eq!(
        query_participant_cycle_status(&state, 1, &"bisi".to_string()),
        Ok(ParticipantCycleStatusResponse {
            required: 100,
            contributed_this_cycle: 35,
            remaining_this_cycle: 65,
            fully_contributed: false,
        })
    );
    assert_eq!(
        query_participant_cycle_status(&state, 1, &"stranger".to_string()),
        Ok(ParticipantCycleStatusResponse {
            required: 100,
            contributed_this_cycle: 0,
            remaining_this_cycle: 100,
            fully_contributed: false,
        })
    );
}

#[test]
fn participant_status_tells_who_has_been_paid() {
    let mut state = sample();
    let status = |state: &State, who: &str| query_participant_status(state, 1, &who.to_string()).unwrap();
    assert_eq!(status(&state, "ada"), ParticipantStatus { contributed: 0, received_payout: false });
    for who in ["ada", "bisi", "chidi"] {
        execute_contribute(&mut state, &payer(who, 100), 1, 100).unwrap();
    }
    assert_eq!(status(&state, "bisi"), ParticipantStatus { contributed: 100, received_payout: false });
    execute_distribute_payout(&mut state, &caller("admin"), 1).unwrap();
    assert_eq!(status(&state, "ada"), ParticipantStatus { contributed: 0, received_payout: true });
    assert_eq!(status(&state, "bisi"), ParticipantStatus { contributed: 0, received_payout: false });
    assert_eq!(status(&state, "stranger"), ParticipantStatus { contributed: 0, received_payout: false });
}

#[test]
fn query_dispatches_each_question() {
    let mut state = sample();
    request_to_join_plan(&mut state, &caller("zainab"), 1).unwrap();
    execute_contribute(&mut state, &payer("ada", 100), 1, 100).unwrap();
    assert_eq!(
        query(&state, QueryMsg::GetPlan { plan_id: 2 }),
        Ok(QueryResponse::Plan(PlanResponse { plan: Some(state.plans[1].clone()) }))
    );
    assert_eq!(
        query(&state, QueryMsg::GetPlansByCreator { creator: "bisi".to_string() }),
        Ok(QueryResponse::Plans(vec![PlanResponse { plan: Some(state.plans[1].clone()) }]))
    );
    assert_eq!(query(&state, QueryMsg::GetPlanCount {}), Ok(QueryResponse::PlanCount(3)));
    assert_eq!(
        query(&state, QueryMsg::GetJoinRequests { plan_id: 1 }),
        Ok(QueryResponse::JoinRequests(JoinRequestsResponse { requests: state.join_requests.clone() }))
    );
    assert_eq!(
        query(&state, QueryMsg::GetParticipantCycleStatus { plan_id: 1, participant: "ada".to_string() }),
        Ok(QueryResponse::CycleStatus(ParticipantCycleStatusResponse {
            required: 100,
            contributed_this_cycle: 100,
            remaining_this_cycle: 0,
            fully_contributed: true,
        }))
    );
    assert_eq!(
        query(&state, QueryMsg::GetParticipantStatus { plan_id: 1, participant: "ada".to_string() }),
        Ok(QueryResponse::Status(ParticipantStatus { contributed: 100, received_payout: false }))
    );
    assert_eq!(
        query(&state, QueryMsg::GetParticipantStatus { plan_id: 7, participant: "ada".to_string() }),
        Err(ContractError::NotFound)
    );
}
