use arch_poll::{VotingContract, VotingError};

const T0: u64 = 1_700_000_000;

fn yes_no() -> Vec<String> {
    vec!["Yes".to_string(), "No".to_string()]
}

fn registry_with_poll(duration: u64) -> (VotingContract, String) {
    let mut contract = VotingContract::new("A".to_string());
    let id = contract
        .create_poll_at("C".to_string(), "Q".to_string(), "D".to_string(), yes_no(), duration, T0)
        .unwrap();
    (contract, id)
}

#[test]
fn scenario_vote_repeat_close_and_late_vote() {
    let mut contract = VotingContract::new("A".to_string());
    let id = contract
        .create_poll("C".to_string(), "Q".to_string(), "D".to_string(), yes_no(), 60)
        .unwrap();

    assert!(contract.vote(&id, "V1".to_string(), "Yes").is_ok());
    let results = contract.get_poll_results(&id).unwrap();
    assert_eq!(results.get("Yes"), Some(1));
    assert_eq!(results.get("No"), Some(0));

    let again = contract.vote(&id, "V1".to_string(), "No");
    assert_eq!(again, Err(VotingError::AlreadyVoted));
    let results = contract.get_poll_results(&id).unwrap();
    assert_eq!(results.get("Yes"), Some(1));
    assert_eq!(results.get("No"), Some(0));

    assert_eq!(contract.close_poll(&id, "C"), Ok(()));
    assert!(contract.get_poll(&id).unwrap().poll_is_closed);

    let late = contract.vote(&id, "V2".to_string(), "Yes");
    assert_eq!(late, Err(VotingError::PollClosed));
}

#[test]
fn scenario_sweep_returns_the_two_short_polls() {
    let mut contract = VotingContract::new("A".to_string());
    let long = contract
        .create_poll_at("C".to_string(), "L".to_string(), "D".to_string(), yes_no(), 60, T0)
        .unwrap();
    let one = contract
        .create_poll_at("C".to_string(), "S1".to_string(), "D".to_string(), yes_no(), 1, T0)
        .unwrap();
    let two = contract
        .create_poll_at("C".to_string(), "S2".to_string(), "D".to_string(), yes_no(), 2, T0)
        .unwrap();
    let closed = contract.process_expired_polls_at(T0 + 3);
    assert_eq!(closed, vec![one, two]);
    assert!(!contract.get_poll(&long).unwrap().poll_is_closed);
}

#[test]
fn tally_total_equals_participants() {
    let (mut contract, id) = registry_with_poll(60);
    for (voter, option) in [("v1", "Yes"), ("v2", "No"), ("v3", "Yes"), ("v4", "Yes")] {
        contract.vote_at(&id, voter.to_string(), option, T0 + 1).unwrap();
        let poll = contract.get_poll(&id).unwrap();
        let sum = poll.vote_counts.get("Yes").unwrap() + poll.vote_counts.get("No").unwrap();
        assert_eq!(sum, poll.total_votes());
    }
    let results = contract.get_poll_results(&id).unwrap();
    assert_eq!(results.get("Yes"), Some(3));
    assert_eq!(results.get("No"), Some(1));
    assert_eq!(contract.get_poll(&id).unwrap().total_votes(), 4);
}

#[test]
fn second_vote_keeps_first_count() {
    let (mut contract, id) = registry_with_poll(60);
    contract.vote_at(&id, "v".to_string(), "No", T0).unwrap();
    assert_eq!(contract.vote_at(&id, "v".to_string(), "No", T0 + 5), Err(VotingError::AlreadyVoted));
    assert_eq!(contract.vote_at(&id, "v".to_string(), "Yes", T0 + 5), Err(VotingError::AlreadyVoted));
    let results = contract.get_poll_results(&id).unwrap();
    assert_eq!(results.get("No"), Some(1));
    assert_eq!(results.get("Yes"), Some(0));
}

#[test]
fn undeclared_option_leaves_counts() {
    let (mut contract, id) = registry_with_poll(60);
    contract.vote_at(&id, "v1".to_string(), "Yes", T0).unwrap();
    assert_eq!(contract.vote_at(&id, "v2".to_string(), "Maybe", T0), Err(VotingError::InvalidOption));
    assert_eq!(contract.vote_at(&id, "v2".to_string(), "yes", T0), Err(VotingError::InvalidOption));
    let results = contract.get_poll_results(&id).unwrap();
    assert_eq!(results.get("Yes"), Some(1));
    assert_eq!(results.get("No"), Some(0));
    assert_eq!(results.get("Maybe"), None);
    assert_eq!(contract.get_poll(&id).unwrap().total_votes(), 1);
}

#[test]
fn checks_come_in_order() {
    let (mut contract, id) = registry_with_poll(60);
    contract.vote_at(&id, "v".to_string(), "Yes", T0).unwrap();
    // a closed window wins over a repeat voter and an undeclared option
    assert_eq!(contract.vote_at(&id, "v".to_string(), "Maybe", T0 + 60), Err(VotingError::PollClosed));
    // a repeat voter wins over an undeclared option
    assert_eq!(contract.vote_at(&id, "v".to_string(), "Maybe", T0 + 1), Err(VotingError::AlreadyVoted));
    assert_eq!(contract.vote_at("poll_9", "v".to_string(), "Yes", T0), Err(VotingError::PollNotFound));
}

#[test]
fn creation_errors() {
    let mut contract = VotingContract::new("A".to_string());
    let one = vec!["Only".to_string()];
    assert_eq!(
        contract.create_poll_at("C".to_string(), "Q".to_string(), "D".to_string(), one.clone(), 60, T0),
        Err(VotingError::PollCreationFailed)
    );
    // too few options is reported before a zero duration
    assert_eq!(
        contract.create_poll_at("C".to_string(), "Q".to_string(), "D".to_string(), one, 0, T0),
        Err(VotingError::PollCreationFailed)
    );
    assert_eq!(
        contract.create_poll_at("C".to_string(), "Q".to_string(), "D".to_string(), yes_no(), 0, T0),
        Err(VotingError::InvalidTimeSettings)
    );
    assert_eq!(contract.active_polls.len(), 0);
    assert_eq!(contract.next_poll_number, 1);
}

#[test]
fn window_opens_at_creation_and_ends_after_duration() {
    let (mut contract, id) = registry_with_poll(30);
    let poll = contract.get_poll(&id).unwrap();
    assert_eq!(poll.poll_start_timestamp, T0);
    assert_eq!(poll.poll_end_timestamp, T0 + 30);
    assert!(poll.is_active_at(T0));
    assert!(poll.is_active_at(T0 + 29));
    assert!(!poll.is_active_at(T0 + 30));
    assert!(!poll.is_active_at(T0 - 1));
    // the stored flag stays open until a sweep or a close
    assert!(!poll.poll_is_closed);

    assert!(contract.process_expired_polls_at(T0 + 29).is_empty());
    let swept = contract.process_expired_polls_at(T0 + 30);
    assert_eq!(swept, vec![id.clone()]);
    assert!(contract.get_poll(&id).unwrap().poll_is_closed);
    assert_eq!(contract.vote_at(&id, "v".to_string(), "Yes", T0 + 1), Err(VotingError::PollClosed));
    // a poll that is already closed is not returned again
    assert!(contract.process_expired_polls_at(T0 + 100).is_empty());
}

#[test]
fn window_end_saturates() {
    let mut contract = VotingContract::new("A".to_string());
    let id = contract
        .create_poll_at("C".to_string(), "Q".to_string(), "D".to_string(), yes_no(), u64::MAX, T0)
        .unwrap();
    let poll = contract.get_poll(&id).unwrap();
    assert_eq!(poll.poll_end_timestamp, u64::MAX);
    assert!(poll.is_active_at(u64::MAX - 1));
    assert!(!poll.is_active_at(u64::MAX));
}

#[test]
fn close_permissions_and_repeat() {
    let (mut contract, id) = registry_with_poll(60);
    assert_eq!(contract.close_poll(&id, "stranger"), Err(VotingError::NotAuthorized));
    assert!(!contract.get_poll(&id).unwrap().poll_is_closed);
    assert_eq!(contract.close_poll(&id, "A"), Ok(()));
    assert_eq!(contract.close_poll(&id, "A"), Ok(()));
    assert_eq!(contract.close_poll(&id, "C"), Ok(()));
    assert!(contract.get_poll(&id).unwrap().poll_is_closed);
    assert_eq!(contract.close_poll("poll_7", "A"), Err(VotingError::PollNotFound));
}

#[test]
fn identifiers_are_numbered_in_decimal() {
    let mut contract = VotingContract::new("A".to_string());
    let mut ids = Vec::new();
    for _ in 0..12 {
        ids.push(
            contract
                .create_poll_at("C".to_string(), "Q".to_string(), "D".to_string(), yes_no(), 5, T0)
                .unwrap(),
        );
    }
    assert_eq!(ids[0], "poll_1");
    assert_eq!(ids[1], "poll_2");
    assert_eq!(ids[9], "poll_10");
    assert_eq!(ids[11], "poll_12");
    assert_eq!(contract.next_poll_number, 13);
}

#[test]
fn repeated_option_labels_share_one_count() {
    let mut contract = VotingContract::new("A".to_string());
    let options = vec!["Yes".to_string(), "No".to_string(), "Yes".to_string()];
    let id = contract
        .create_poll_at("C".to_string(), "Q".to_string(), "D".to_string(), options, 60, T0)
        .unwrap();
    contract.vote_at(&id, "v1".to_string(), "Yes", T0).unwrap();
    contract.vote_at(&id, "v2".to_string(), "Yes", T0).unwrap();
    let results = contract.get_poll_results(&id).unwrap();
    assert_eq!(results.get("Yes"), Some(2));
    assert_eq!(results.get("No"), Some(0));
    assert_eq!(contract.get_poll(&id).unwrap().voting_options.len(), 3);
}

#[test]
fn results_are_a_snapshot() {
    let (mut contract, id) = registry_with_poll(60);
    let before = contract.get_poll_results(&id).unwrap();
    contract.vote_at(&id, "v1".to_string(), "Yes", T0).unwrap();
    assert_eq!(before.get("Yes"), Some(0));
    assert_eq!(contract.get_poll(&id).unwrap().get_results().get("Yes"), Some(1));
}

#[test]
fn active_polls_follow_the_clock_value() {
    let mut contract = VotingContract::new("A".to_string());
    let a = contract
        .create_poll_at("C".to_string(), "Q".to_string(), "D".to_string(), yes_no(), 10, T0)
        .unwrap();
    let b = contract
        .create_poll_at("C".to_string(), "Q".to_string(), "D".to_string(), yes_no(), 20, T0)
        .unwrap();
    let at_start: Vec<String> = contract.get_active_polls_at(T0).iter().map(|p| p.poll_id.clone()).collect();
    assert_eq!(at_start, vec![a.clone(), b.clone()]);
    let later: Vec<String> = contract.get_active_polls_at(T0 + 15).iter().map(|p| p.poll_id.clone()).collect();
    assert_eq!(later, vec![b]);
    assert!(contract.get_active_polls_at(T0 + 20).is_empty());
    assert_eq!(contract.get_all_polls().len(), 2);
    assert_eq!(contract.is_poll_active_at(&a, T0 + 15), Ok(false));
}

#[test]
fn record_vote_updates_one_poll() {
    let (contract, id) = registry_with_poll(60);
    let mut poll = contract.get_poll(&id).unwrap().clone();
    poll.record_vote("v1".to_string(), &"No".to_string());
    assert_eq!(poll.total_votes(), 1);
    assert_eq!(poll.vote_counts.get("No"), Some(1));
    assert!(poll.has_participant(&"v1".to_string()));
    assert!(!poll.has_participant(&"v2".to_string()));
    assert!(poll.has_option(&"Yes".to_string()));
    assert!(!poll.has_option(&"Maybe".to_string()));
    poll.close();
    poll.close();
    assert!(poll.poll_is_closed);
    assert!(!poll.is_active());
}
