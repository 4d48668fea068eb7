use voting::address::{candidate_address, poll_address};
use voting::state::{Candidate, Ledger, Poll, Record};
use voting::voting::{
    initialize_candidate, initialize_poll, vote, InitializeCandidate, InitializePoll, Signer,
    Vote, VotingError,
};

const PROGRAM: [u8; 32] = [7u8; 32];

fn signer() -> Signer {
    Signer { key: [1u8; 32], is_signer: true }
}

fn unsigned() -> Signer {
    Signer { key: [1u8; 32], is_signer: false }
}

fn poll_accounts() -> InitializePoll {
    InitializePoll { signer: signer() }
}

fn candidate_accounts() -> InitializeCandidate {
    InitializeCandidate { signer: signer() }
}

fn vote_accounts() -> Vote {
    Vote { signer: signer() }
}

fn poll_at(ledger: &Ledger, poll_id: u64) -> Option<(u64, String, u64, u64, u64)> {
    let pa = poll_address(&PROGRAM, poll_id).unwrap().address;
    match ledger.get(&pa) {
        Some(Record::Poll(p)) => Some((
            p.poll_id,
            p.description.clone(),
            p.poll_start,
            p.poll_end,
            p.candidate_amount,
        )),
        _ => None,
    }
}

fn candidate_at(ledger: &Ledger, name: &str, poll_id: u64) -> Option<(String, u64)> {
    let ca = candidate_address(&PROGRAM, &name.to_string(), poll_id).unwrap().address;
    match ledger.get(&ca) {
        Some(Record::Candidate(c)) => Some((c.candidate_name.clone(), c.candidate_votes)),
        _ => None,
    }
}

fn ledger_with_poll(poll_id: u64) -> Ledger {
    let mut ledger = Ledger::new(PROGRAM);
    initialize_poll(&mut ledger, &poll_accounts(), poll_id, "Q".to_string(), 1, 2).unwrap();
    ledger
}

#[test]
fn poll_candidate_and_two_votes() {
    let mut ledger = Ledger::new(PROGRAM);
    assert_eq!(initialize_poll(&mut ledger, &poll_accounts(), 1, "Q1".to_string(), 100, 200), Ok(()));
    assert_eq!(poll_at(&ledger, 1), Some((1, "Q1".to_string(), 100, 200, 0)));
    assert_eq!(
        initialize_candidate(&mut ledger, &candidate_accounts(), "Alice".to_string(), 1),
        Ok(())
    );
    assert_eq!(candidate_at(&ledger, "Alice", 1), Some(("Alice".to_string(), 0)));
    assert_eq!(poll_at(&ledger, 1), Some((1, "Q1".to_string(), 100, 200, 1)));
    assert_eq!(vote(&mut ledger, &vote_accounts(), "Alice".to_string(), 1), Ok(()));
    assert_eq!(vote(&mut ledger, &vote_accounts(), "Alice".to_string(), 1), Ok(()));
    assert_eq!(candidate_at(&ledger, "Alice", 1), Some(("Alice".to_string(), 2)));
}

#[test]
fn description_over_budget_is_rejected() {
    let mut ledger = Ledger::new(PROGRAM);
    let long = "a".repeat(281);
    assert_eq!(
        initialize_poll(&mut ledger, &poll_accounts(), 1, long, 100, 200),
        Err(VotingError::AllocationBudgetExceeded)
    );
    assert_eq!(poll_at(&ledger, 1), None);
}

#[test]
fn description_at_budget_is_accepted() {
    let mut ledger = Ledger::new(PROGRAM);
    let exact = "a".repeat(280);
    assert_eq!(initialize_poll(&mut ledger, &poll_accounts(), 1, exact.clone(), 0, 0), Ok(()));
    assert_eq!(poll_at(&ledger, 1), Some((1, exact, 0, 0, 0)));
}

#[test]
fn description_budget_counts_bytes_not_chars() {
    let mut ledger = Ledger::new(PROGRAM);
    let wide = "\u{e9}".repeat(141);
    assert_eq!(wide.chars().count(), 141);
    assert_eq!(
        initialize_poll(&mut ledger, &poll_accounts(), 1, wide, 0, 0),
        Err(VotingError::AllocationBudgetExceeded)
    );
}

#[test]
fn candidate_name_over_budget_is_rejected() {
    let mut ledger = ledger_with_poll(3);
    let name = "n".repeat(33);
    assert_eq!(
        initialize_candidate(&mut ledger, &candidate_accounts(), name, 3),
        Err(VotingError::AllocationBudgetExceeded)
    );
    assert_eq!(poll_at(&ledger, 3).unwrap().4, 0);
    let name = "n".repeat(32);
    assert_eq!(initialize_candidate(&mut ledger, &candidate_accounts(), name, 3), Ok(()));
}

#[test]
fn second_poll_with_same_id_conflicts() {
    let mut ledger = Ledger::new(PROGRAM);
    assert_eq!(initialize_poll(&mut ledger, &poll_accounts(), 9, "first".to_string(), 1, 2), Ok(()));
    assert_eq!(
        initialize_poll(&mut ledger, &poll_accounts(), 9, "second".to_string(), 3, 4),
        Err(VotingError::AddressConflict)
    );
    assert_eq!(poll_at(&ledger, 9), Some((9, "first".to_string(), 1, 2, 0)));
}

#[test]
fn second_registration_conflicts_and_is_not_counted() {
    let mut ledger = ledger_with_poll(4);
    assert_eq!(initialize_candidate(&mut ledger, &candidate_accounts(), "Bob".to_string(), 4), Ok(()));
    assert_eq!(
        initialize_candidate(&mut ledger, &candidate_accounts(), "Bob".to_string(), 4),
        Err(VotingError::AddressConflict)
    );
    assert_eq!(poll_at(&ledger, 4).unwrap().4, 1);
    assert_eq!(initialize_candidate(&mut ledger, &candidate_accounts(), "Carol".to_string(), 4), Ok(()));
    assert_eq!(poll_at(&ledger, 4).unwrap().4, 2);
}

#[test]
fn same_name_in_two_polls_is_two_candidates() {
    let mut ledger = ledger_with_poll(1);
    initialize_poll(&mut ledger, &poll_accounts(), 2, "Q2".to_string(), 0, 0).unwrap();
    assert_eq!(initialize_candidate(&mut ledger, &candidate_accounts(), "Ann".to_string(), 1), Ok(()));
    assert_eq!(initialize_candidate(&mut ledger, &candidate_accounts(), "Ann".to_string(), 2), Ok(()));
    vote(&mut ledger, &vote_accounts(), "Ann".to_string(), 2).unwrap();
    assert_eq!(candidate_at(&ledger, "Ann", 1), Some(("Ann".to_string(), 0)));
    assert_eq!(candidate_at(&ledger, "Ann", 2), Some(("Ann".to_string(), 1)));
}

#[test]
fn n_votes_give_n() {
    let mut ledger = ledger_with_poll(5);
    initialize_candidate(&mut ledger, &candidate_accounts(), "Dan".to_string(), 5).unwrap();
    initialize_candidate(&mut ledger, &candidate_accounts(), "Eve".to_string(), 5).unwrap();
    for i in 0..10 {
        assert_eq!(vote(&mut ledger, &vote_accounts(), "Dan".to_string(), 5), Ok(()));
        if i % 3 == 0 {
            assert_eq!(vote(&mut ledger, &vote_accounts(), "Eve".to_string(), 5), Ok(()));
        }
    }
    assert_eq!(candidate_at(&ledger, "Dan", 5).unwrap().1, 10);
    assert_eq!(candidate_at(&ledger, "Eve", 5).unwrap().1, 4);
}

#[test]
fn missing_poll_is_not_found() {
    let mut ledger = Ledger::new(PROGRAM);
    assert_eq!(
        initialize_candidate(&mut ledger, &candidate_accounts(), "Alice".to_string(), 1),
        Err(VotingError::AddressNotFound)
    );
    assert_eq!(
        vote(&mut ledger, &vote_accounts(), "Alice".to_string(), 1),
        Err(VotingError::AddressNotFound)
    );
}

#[test]
fn missing_candidate_is_not_found() {
    let mut ledger = ledger_with_poll(1);
    assert_eq!(
        vote(&mut ledger, &vote_accounts(), "Nobody".to_string(), 1),
        Err(VotingError::AddressNotFound)
    );
    initialize_candidate(&mut ledger, &candidate_accounts(), "Alice".to_string(), 1).unwrap();
    assert_eq!(
        vote(&mut ledger, &vote_accounts(), "Alice".to_string(), 2),
        Err(VotingError::AddressNotFound)
    );
}

#[test]
fn unsigned_callers_are_unauthorized() {
    let mut ledger = ledger_with_poll(1);
    assert_eq!(
        initialize_poll(&mut ledger, &InitializePoll { signer: unsigned() }, 2, "x".to_string(), 0, 0),
        Err(VotingError::Unauthorized)
    );
    assert_eq!(
        initialize_candidate(&mut ledger, &InitializeCandidate { signer: unsigned() }, "A".to_string(), 1),
        Err(VotingError::Unauthorized)
    );
    initialize_candidate(&mut ledger, &candidate_accounts(), "A".to_string(), 1).unwrap();
    assert_eq!(
        vote(&mut ledger, &Vote { signer: unsigned() }, "A".to_string(), 1),
        Err(VotingError::Unauthorized)
    );
    assert_eq!(poll_at(&ledger, 2), None);
    assert_eq!(candidate_at(&ledger, "A", 1).unwrap().1, 0);
}

#[test]
fn record_of_other_kind_is_a_type_mismatch() {
    let mut ledger = Ledger::new(PROGRAM);
    let pa = poll_address(&PROGRAM, 6).unwrap().address;
    ledger.create(pa, Record::Candidate(Candidate { candidate_name: "X".to_string(), candidate_votes: 0 }));
    assert_eq!(
        initialize_candidate(&mut ledger, &candidate_accounts(), "Y".to_string(), 6),
        Err(VotingError::TypeMismatch)
    );
    assert_eq!(
        vote(&mut ledger, &vote_accounts(), "Y".to_string(), 6),
        Err(VotingError::TypeMismatch)
    );

    let mut ledger = ledger_with_poll(8);
    let ca = candidate_address(&PROGRAM, &"Z".to_string(), 8).unwrap().address;
    ledger.create(
        ca,
        Record::Poll(Poll {
            poll_id: 0,
            description: String::new(),
            poll_start: 0,
            poll_end: 0,
            candidate_amount: 0,
        }),
    );
    assert_eq!(
        vote(&mut ledger, &vote_accounts(), "Z".to_string(), 8),
        Err(VotingError::TypeMismatch)
    );
}

#[test]
fn full_counters_overflow() {
    let mut ledger = Ledger::new(PROGRAM);
    let pa = poll_address(&PROGRAM, 1).unwrap().address;
    ledger.create(
        pa,
        Record::Poll(Poll {
            poll_id: 1,
            description: "Q".to_string(),
            poll_start: 0,
            poll_end: 0,
            candidate_amount: u64::MAX,
        }),
    );
    assert_eq!(
        initialize_candidate(&mut ledger, &candidate_accounts(), "A".to_string(), 1),
        Err(VotingError::CounterOverflow)
    );
    assert_eq!(candidate_at(&ledger, "A", 1), None);

    let ca = candidate_address(&PROGRAM, &"B".to_string(), 1).unwrap().address;
    ledger.create(ca, Record::Candidate(Candidate { candidate_name: "B".to_string(), candidate_votes: u64::MAX }));
    assert_eq!(
        vote(&mut ledger, &vote_accounts(), "B".to_string(), 1),
        Err(VotingError::CounterOverflow)
    );
    assert_eq!(candidate_at(&ledger, "B", 1).unwrap().1, u64::MAX);
}

#[test]
fn program_id_is_kept() {
    let ledger = Ledger::new(PROGRAM);
    assert_eq!(ledger.program_id(), PROGRAM);
}

#[test]
fn second_poll_with_long_description_conflicts() {
    let mut ledger = ledger_with_poll(1);
    assert_eq!(
        initialize_poll(&mut ledger, &poll_accounts(), 1, "a".repeat(281), 5, 6),
        Err(VotingError::AddressConflict)
    );
    assert_eq!(poll_at(&ledger, 1), Some((1, "Q".to_string(), 1, 2, 0)));
}

#[test]
fn long_name_in_missing_poll_is_not_found() {
    let mut ledger = Ledger::new(PROGRAM);
    assert_eq!(
        initialize_candidate(&mut ledger, &candidate_accounts(), "n".repeat(33), 1),
        Err(VotingError::AddressNotFound)
    );
}

#[test]
fn long_name_already_registered_conflicts() {
    let mut ledger = ledger_with_poll(2);
    let ca = candidate_address(&PROGRAM, &"n".repeat(33), 2).unwrap().address;
    ledger.create(ca, Record::Candidate(Candidate { candidate_name: "n".repeat(33), candidate_votes: 0 }));
    assert_eq!(
        initialize_candidate(&mut ledger, &candidate_accounts(), "n".repeat(33), 2),
        Err(VotingError::AddressConflict)
    );
    assert_eq!(poll_at(&ledger, 2).unwrap().4, 0);
}
