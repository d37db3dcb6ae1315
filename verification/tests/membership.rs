use ajo::contract::{
    approve_join_request, deny_join_request, execute_create_plan, execute_join_plan, instantiate,
    request_to_join_plan,
};
use ajo::error::ContractError;
use ajo::membership::{exceeds_half, reaches_half, JoinRequest};
use ajo::msg::{InstantiateMsg, MessageInfo};
use ajo::state::{LifecyclePolicy, State};

fn caller(name: &str) -> MessageInfo {
    MessageInfo { sender: name.to_string(), funds: vec![] }
}

/// A plan of `total` seats with the first `members` of them taken.
fn group(total: u32, members: usize) -> State {
    let names = ["ada", "bisi", "chidi", "dayo", "emeka", "femi"];
    let mut state =
        instantiate(&caller("admin"), InstantiateMsg { policy: LifecyclePolicy::OpenEnrollment });
    execute_create_plan(
        &mut state,
        &caller(names[0]),
        "Savers".to_string(),
        "A description".to_string(),
        total,
        100,
        "Monthly".to_string(),
        6,
        0,
        true,
    )
    .unwrap();
    for name in &names[1..members] {
        execute_join_plan(&mut state, &caller(name), 50, 1).unwrap();
    }
    assert_eq!(state.plans[0].participants.len(), members);
    state
}

#[test]
fn quorum_thresholds() {
    assert!(!reaches_half(1, 4));
    assert!(reaches_half(2, 4));
    assert!(reaches_half(2, 3));
    assert!(!reaches_half(1, 3));
    assert!(reaches_half(0, 0));
    assert!(reaches_half(usize::MAX, usize::MAX));
    assert!(!reaches_half(usize::MAX / 2, usize::MAX));
    assert!(!exceeds_half(2, 4));
    assert!(exceeds_half(3, 4));
    assert!(exceeds_half(2, 3));
    assert!(!exceeds_half(1, 3));
    assert!(!exceeds_half(0, 0));
    assert!(exceeds_half(usize::MAX, usize::MAX));
    assert!(!exceeds_half(usize::MAX / 2, usize::MAX));
}

#[test]
fn a_request_is_filed_once() {
    let mut state = group(6, 4);
    let res = request_to_join_plan(&mut state, &caller("zainab"), 1).unwrap();
    assert_eq!(res.plan_id, 1);
    assert_eq!(
        state.join_requests,
        vec![JoinRequest { plan_id: 1, requester: "zainab".to_string(), approvals: vec![], denials: vec![] }]
    );
    let before = state.clone();
    assert_eq!(request_to_join_plan(&mut state, &caller("zainab"), 1), Err(ContractError::AlreadyRequested));
    assert_eq!(state, before);
    // Another requester, and the same requester for another plan, are new requests.
    request_to_join_plan(&mut state, &caller("yemi"), 1).unwrap();
    request_to_join_plan(&mut state, &caller("zainab"), 2).unwrap();
    assert_eq!(state.join_requests.len(), 3);
}

#[test]
fn with_four_members_two_approvals_admit() {
    let mut state = group(6, 4);
    request_to_join_plan(&mut state, &caller("zainab"), 1).unwrap();
    approve_join_request(&mut state, &caller("ada"), 1, "zainab".to_string()).unwrap();
    assert_eq!(state.plans[0].participants.len(), 4);
    assert_eq!(state.join_requests[0].approvals, vec!["ada".to_string()]);
    approve_join_request(&mut state, &caller("bisi"), 1, "zainab".to_string()).unwrap();
    assert_eq!(state.plans[0].participants.len(), 5);
    assert_eq!(state.plans[0].participants[4], "zainab");
    assert!(state.join_requests.is_empty());
    assert_eq!(
        approve_join_request(&mut state, &caller("chidi"), 1, "zainab".to_string()),
        Err(ContractError::NotFound)
    );
}

#[test]
fn with_four_members_three_denials_reject() {
    let mut state = group(6, 4);
    request_to_join_plan(&mut state, &caller("zainab"), 1).unwrap();
    deny_join_request(&mut state, &caller("ada"), 1, "zainab".to_string()).unwrap();
    deny_join_request(&mut state, &caller("bisi"), 1, "zainab".to_string()).unwrap();
    assert_eq!(state.join_requests.len(), 1);
    assert_eq!(state.join_requests[0].denials, vec!["ada".to_string(), "bisi".to_string()]);
    deny_join_request(&mut state, &caller("chidi"), 1, "zainab".to_string()).unwrap();
    assert!(state.join_requests.is_empty());
    assert_eq!(state.plans[0].participants.len(), 4);
    // Once rejected, the requester may ask again.
    assert!(request_to_join_plan(&mut state, &caller("zainab"), 1).is_ok());
}

#[test]
fn one_approval_and_one_denial_leave_the_request_pending() {
    let mut state = group(6, 4);
    request_to_join_plan(&mut state, &caller("zainab"), 1).unwrap();
    approve_join_request(&mut state, &caller("ada"), 1, "zainab".to_string()).unwrap();
    deny_join_request(&mut state, &caller("bisi"), 1, "zainab".to_string()).unwrap();
    assert_eq!(
        state.join_requests,
        vec![JoinRequest {
            plan_id: 1,
            requester: "zainab".to_string(),
            approvals: vec!["ada".to_string()],
            denials: vec!["bisi".to_string()],
        }]
    );
    assert_eq!(state.plans[0].participants.len(), 4);
}

#[test]
fn only_the_first_vote_of_a_voter_counts() {
    let mut state = group(6, 4);
    request_to_join_plan(&mut state, &caller("zainab"), 1).unwrap();
    approve_join_request(&mut state, &caller("ada"), 1, "zainab".to_string()).unwrap();
    let before = state.clone();
    assert!(approve_join_request(&mut state, &caller("ada"), 1, "zainab".to_string()).is_ok());
    assert_eq!(state, before);
    assert!(deny_join_request(&mut state, &caller("ada"), 1, "zainab".to_string()).is_ok());
    assert_eq!(state, before);
    deny_join_request(&mut state, &caller("bisi"), 1, "zainab".to_string()).unwrap();
    let before = state.clone();
    assert!(approve_join_request(&mut state, &caller("bisi"), 1, "zainab".to_string()).is_ok());
    assert_eq!(state, before);
}

#[test]
fn quorum_follows_the_membership_of_the_moment() {
    // With two members one approval is half of them.
    let mut state = group(6, 2);
    request_to_join_plan(&mut state, &caller("zainab"), 1).unwrap();
    request_to_join_plan(&mut state, &caller("yemi"), 1).unwrap();
    request_to_join_plan(&mut state, &caller("wale"), 1).unwrap();
    approve_join_request(&mut state, &caller("ada"), 1, "yemi".to_string()).unwrap();
    assert_eq!(state.plans[0].participants, vec!["ada".to_string(), "bisi".to_string(), "yemi".to_string()]);
    assert_eq!(state.join_requests.len(), 2);
    assert_eq!(state.join_requests[0].requester, "zainab");
    assert_eq!(state.join_requests[1].requester, "wale");
    // With three members one approval is not enough, two are.
    approve_join_request(&mut state, &caller("ada"), 1, "wale".to_string()).unwrap();
    assert_eq!(state.plans[0].participants.len(), 3);
    approve_join_request(&mut state, &caller("yemi"), 1, "wale".to_string()).unwrap();
    assert_eq!(state.plans[0].participants.len(), 4);
    assert_eq!(state.plans[0].participants[3], "wale");
    // With four members two denials are not enough.
    deny_join_request(&mut state, &caller("ada"), 1, "zainab".to_string()).unwrap();
    deny_join_request(&mut state, &caller("bisi"), 1, "zainab".to_string()).unwrap();
    assert_eq!(state.join_requests.len(), 1);
}

#[test]
fn votes_need_a_plan_and_a_request() {
    let mut state = group(6, 4);
    assert_eq!(
        approve_join_request(&mut state, &caller("ada"), 1, "zainab".to_string()),
        Err(ContractError::NotFound)
    );
    assert_eq!(
        deny_join_request(&mut state, &caller("ada"), 1, "zainab".to_string()),
        Err(ContractError::NotFound)
    );
    request_to_join_plan(&mut state, &caller("zainab"), 2).unwrap();
    assert_eq!(
        approve_join_request(&mut state, &caller("ada"), 2, "zainab".to_string()),
        Err(ContractError::NotFound)
    );
    assert_eq!(
        deny_join_request(&mut state, &caller("ada"), 2, "zainab".to_string()),
        Err(ContractError::NotFound)
    );
}

#[test]
fn a_full_plan_records_votes_but_admits_nobody() {
    let mut state = group(3, 2);
    request_to_join_plan(&mut state, &caller("zainab"), 1).unwrap();
    request_to_join_plan(&mut state, &caller("yemi"), 1).unwrap();
    approve_join_request(&mut state, &caller("ada"), 1, "zainab".to_string()).unwrap();
    assert_eq!(state.plans[0].participants.len(), 3);
    // Below the quorum a vote is recorded, free seat or not.
    assert!(approve_join_request(&mut state, &caller("ada"), 1, "yemi".to_string()).is_ok());
    assert_eq!(state.join_requests.len(), 1);
    assert_eq!(state.join_requests[0].approvals, vec!["ada".to_string()]);
    assert!(state.join_requests[0].denials.is_empty());
    // A repeated vote is no error and changes nothing.
    let before = state.clone();
    assert!(approve_join_request(&mut state, &caller("ada"), 1, "yemi".to_string()).is_ok());
    assert!(deny_join_request(&mut state, &caller("ada"), 1, "yemi".to_string()).is_ok());
    assert_eq!(state, before);
    // The vote that reaches the quorum finds no seat: nothing changes.
    assert_eq!(
        approve_join_request(&mut state, &caller("bisi"), 1, "yemi".to_string()),
        Err(ContractError::PlanFull)
    );
    assert_eq!(state, before);
    assert_eq!(execute_join_plan(&mut state, &caller("yemi"), 50, 1), Err(ContractError::PlanFull));
}

#[test]
fn with_four_members_and_no_free_seat_one_approval_is_recorded() {
    let mut state = group(4, 4);
    request_to_join_plan(&mut state, &caller("zainab"), 1).unwrap();
    let members = state.plans[0].participants.clone();
    assert!(approve_join_request(&mut state, &caller("ada"), 1, "zainab".to_string()).is_ok());
    assert_eq!(state.join_requests[0].approvals, vec!["ada".to_string()]);
    assert!(state.join_requests[0].denials.is_empty());
    assert_eq!(state.plans[0].participants, members);
}

#[test]
fn the_approval_that_takes_the_last_seat_starts_the_rotation() {
    let mut state = group(3, 2);
    assert!(!state.plans[0].is_active);
    request_to_join_plan(&mut state, &caller("zainab"), 1).unwrap();
    approve_join_request(&mut state, &caller("bisi"), 1, "zainab".to_string()).unwrap();
    assert_eq!(
        state.plans[0].participants,
        vec!["ada".to_string(), "bisi".to_string(), "zainab".to_string()]
    );
    assert!(state.plans[0].is_active);
    // With a seat left the plan stays open.
    let mut state = group(4, 2);
    request_to_join_plan(&mut state, &caller("zainab"), 1).unwrap();
    approve_join_request(&mut state, &caller("bisi"), 1, "zainab".to_string()).unwrap();
    assert_eq!(state.plans[0].participants.len(), 3);
    assert!(!state.plans[0].is_active);
}

#[test]
fn only_members_vote() {
    let mut state = group(6, 4);
    request_to_join_plan(&mut state, &caller("zainab"), 1).unwrap();
    let before = state.clone();
    assert_eq!(
        approve_join_request(&mut state, &caller("stranger"), 1, "zainab".to_string()),
        Err(ContractError::NotParticipant)
    );
    assert_eq!(
        deny_join_request(&mut state, &caller("stranger"), 1, "zainab".to_string()),
        Err(ContractError::NotParticipant)
    );
    // The requester has no vote on the request either.
    assert_eq!(
        approve_join_request(&mut state, &caller("zainab"), 1, "zainab".to_string()),
        Err(ContractError::NotParticipant)
    );
    assert_eq!(state, before);
}

#[test]
fn a_member_is_not_admitted_again() {
    // One member, a free seat, and the member's own request.
    let mut state = group(2, 1);
    request_to_join_plan(&mut state, &caller("ada"), 1).unwrap();
    let before = state.clone();
    assert_eq!(
        approve_join_request(&mut state, &caller("ada"), 1, "ada".to_string()),
        Err(ContractError::AlreadyParticipant)
    );
    assert_eq!(state, before);
    assert_eq!(state.plans[0].participants, vec!["ada".to_string()]);
    // Who joined while the request was pending is not admitted by it.
    let mut state = group(6, 3);
    request_to_join_plan(&mut state, &caller("zainab"), 1).unwrap();
    approve_join_request(&mut state, &caller("ada"), 1, "zainab".to_string()).unwrap();
    execute_join_plan(&mut state, &caller("zainab"), 50, 1).unwrap();
    assert_eq!(state.plans[0].participants.len(), 4);
    let before = state.clone();
    assert_eq!(
        approve_join_request(&mut state, &caller("bisi"), 1, "zainab".to_string()),
        Err(ContractError::AlreadyParticipant)
    );
    assert_eq!(state, before);
}
