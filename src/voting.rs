//! The three transitions: poll creation, candidate registration and voting.
//! Each either applies in full or fails with its error and leaves the ledger
//! as it was.
use vstd::prelude::*;
use vstd::utf8::encode_utf8;
use crate::address::{
    Address, candidate_address, candidate_seeds, derived_address, poll_address, poll_seeds,
};
use crate::state::{
    Candidate, CandidateModel, Ledger, MAX_CANDIDATE_NAME_LEN, MAX_DESCRIPTION_LEN, Poll,
    PollModel, Record, RecordModel,
};

verus! {

/// Why a transition was rejected.
#[derive(PartialEq, Eq, Structural, Debug, Clone, Copy)]
pub enum VotingError {
    /// The caller's authorization proof is absent.
    Unauthorized,
    /// A text field is longer than the space reserved for it.
    AllocationBudgetExceeded,
    /// No bump places the derived address off the curve.
    AddressDerivationFailed,
    /// A record that the transition reads is not at its derived address.
    AddressNotFound,
    /// The record at a derived address is of the other kind.
    TypeMismatch,
    /// A record to be created is already at its derived address.
    AddressConflict,
    /// A counter is at its largest value and cannot be incremented.
    CounterOverflow,
}

/// The caller of a transition, as the host presents it.
pub struct Signer {
    pub key: Address,
    /// Whether the host verified the caller's signature.
    pub is_signer: bool,
}

/// The accounts of poll creation.
pub struct InitializePoll {
    pub signer: Signer,
}

/// The accounts of candidate registration.
pub struct InitializeCandidate {
    pub signer: Signer,
}

/// The accounts of a vote.
pub struct Vote {
    pub signer: Signer,
}

/// The length of the UTF-8 encoding of `s`, as `str::len` reports it (a
/// string in memory never holds more than `usize::MAX` bytes).
pub open spec fn byte_len(s: Seq<char>) -> usize {
    encode_utf8(s).len() as usize
}

/// The records of a ledger, by address.
pub type Records = Map<Seq<u8>, RecordModel>;

/// The result of poll creation and the records after it.
pub open spec fn initialize_poll_outcome(
    program: Seq<u8>,
    m: Records,
    signed: bool,
    poll_id: u64,
    description: Seq<char>,
    poll_start: u64,
    poll_end: u64,
) -> (Result<(), VotingError>, Records) {
    if !signed {
        (Err(VotingError::Unauthorized), m)
    } else {
        match derived_address(program, poll_seeds(poll_id)) {
            None => (Err(VotingError::AddressDerivationFailed), m),
            Some(pa) => if m.contains_key(pa) {
                (Err(VotingError::AddressConflict), m)
            } else if byte_len(description) > MAX_DESCRIPTION_LEN {
                (Err(VotingError::AllocationBudgetExceeded), m)
            } else {
                (
                    Ok(()),
                    m.insert(
                        pa,
                        RecordModel::Poll(
                            PollModel {
                                poll_id,
                                description,
                                poll_start,
                                poll_end,
                                candidate_amount: 0,
                            },
                        ),
                    ),
                )
            },
        }
    }
}

/// The result of candidate registration and the records after it.
pub open spec fn initialize_candidate_outcome(
    program: Seq<u8>,
    m: Records,
    signed: bool,
    candidate_name: Seq<char>,
    poll_id: u64,
) -> (Result<(), VotingError>, Records) {
    if !signed {
        (Err(VotingError::Unauthorized), m)
    } else {
        match derived_address(program, poll_seeds(poll_id)) {
            None => (Err(VotingError::AddressDerivationFailed), m),
            Some(pa) => if !m.contains_key(pa) {
                (Err(VotingError::AddressNotFound), m)
            } else {
                match m[pa] {
                    RecordModel::Candidate(_) => (Err(VotingError::TypeMismatch), m),
                    RecordModel::Poll(p) => match derived_address(
                        program,
                        candidate_seeds(candidate_name, poll_id),
                    ) {
                        None => (Err(VotingError::AddressDerivationFailed), m),
                        Some(ca) => if m.contains_key(ca) {
                            (Err(VotingError::AddressConflict), m)
                        } else if byte_len(candidate_name) > MAX_CANDIDATE_NAME_LEN {
                            (Err(VotingError::AllocationBudgetExceeded), m)
                        } else if p.candidate_amount == u64::MAX {
                            (Err(VotingError::CounterOverflow), m)
                        } else {
                            (
                                Ok(()),
                                m.insert(
                                    ca,
                                    RecordModel::Candidate(
                                        CandidateModel { candidate_name, candidate_votes: 0 },
                                    ),
                                ).insert(
                                    pa,
                                    RecordModel::Poll(
                                        PollModel {
                                            candidate_amount: (p.candidate_amount + 1) as u64,
                                            ..p
                                        },
                                    ),
                                ),
                            )
                        },
                    },
                }
            },
        }
    }
}

/// The result of a vote and the records after it.
pub open spec fn vote_outcome(
    program: Seq<u8>,
    m: Records,
    signed: bool,
    candidate_name: Seq<char>,
    poll_id: u64,
) -> (Result<(), VotingError>, Records) {
    if !signed {
        (Err(VotingError::Unauthorized), m)
    } else {
        match derived_address(program, poll_seeds(poll_id)) {
            None => (Err(VotingError::AddressDerivationFailed), m),
            Some(pa) => if !m.contains_key(pa) {
                (Err(VotingError::AddressNotFound), m)
            } else if m[pa] is Candidate {
                (Err(VotingError::TypeMismatch), m)
            } else {
                match derived_address(program, candidate_seeds(candidate_name, poll_id)) {
                    None => (Err(VotingError::AddressDerivationFailed), m),
                    Some(ca) => if !m.contains_key(ca) {
                        (Err(VotingError::AddressNotFound), m)
                    } else {
                        match m[ca] {
                            RecordModel::Poll(_) => (Err(VotingError::TypeMismatch), m),
                            RecordModel::Candidate(c) => if c.candidate_votes == u64::MAX {
                                (Err(VotingError::CounterOverflow), m)
                            } else {
                                (
                                    Ok(()),
                                    m.insert(
                                        ca,
                                        RecordModel::Candidate(
                                            CandidateModel {
                                                candidate_votes: (c.candidate_votes + 1) as u64,
                                                ..c
                                            },
                                        ),
                                    ),
                                )
                            },
                        }
                    },
                }
            },
        }
    }
}

/// Creates the poll record of `poll_id` at its derived address, with no
/// candidates yet.
pub fn initialize_poll(
    ledger: &mut Ledger,
    accounts: &InitializePoll,
    poll_id: u64,
    description: String,
    poll_start: u64,
    poll_end: u64,
) -> (r: Result<(), VotingError>)
    requires
        old(ledger).wf(),
    ensures
        final(ledger).wf(),
        final(ledger).program() == old(ledger).program(),
        (r, final(ledger)@) == initialize_poll_outcome(
            old(ledger).program()@,
            old(ledger)@,
            accounts.signer.is_signer,
            poll_id,
            description@,
            poll_start,
            poll_end,
        ),
{
    if !accounts.signer.is_signer {
        return Err(VotingError::Unauthorized);
    }
    let program_id = ledger.program_id();
    let pa = match poll_address(&program_id, poll_id) {
        Some(d) => d.address,
        None => return Err(VotingError::AddressDerivationFailed),
    };
    if ledger.get(&pa).is_some() {
        return Err(VotingError::AddressConflict);
    }
    if description.as_str().len() > MAX_DESCRIPTION_LEN {
        return Err(VotingError::AllocationBudgetExceeded);
    }
    let poll = Poll { poll_id, description, poll_start, poll_end, candidate_amount: 0 };
    ledger.create(pa, Record::Poll(poll));
    Ok(())
}

/// Creates the candidate record of `candidate_name` in poll `poll_id` and
/// counts it on the poll.
pub fn initialize_candidate(
    ledger: &mut Ledger,
    accounts: &InitializeCandidate,
    candidate_name: String,
    poll_id: u64,
) -> (r: Result<(), VotingError>)
    requires
        old(ledger).wf(),
    ensures
        final(ledger).wf(),
        final(ledger).program() == old(ledger).program(),
        (r, final(ledger)@) == initialize_candidate_outcome(
            old(ledger).program()@,
            old(ledger)@,
            accounts.signer.is_signer,
            candidate_name@,
            poll_id,
        ),
{
    if !accounts.signer.is_signer {
        return Err(VotingError::Unauthorized);
    }
    let program_id = ledger.program_id();
    let pa = match poll_address(&program_id, poll_id) {
        Some(d) => d.address,
        None => return Err(VotingError::AddressDerivationFailed),
    };
    let updated = match ledger.get(&pa) {
        None => return Err(VotingError::AddressNotFound),
        Some(Record::Candidate(_)) => return Err(VotingError::TypeMismatch),
        Some(Record::Poll(p)) => {
            let ca = match candidate_address(&program_id, &candidate_name, poll_id) {
                Some(d) => d.address,
                None => return Err(VotingError::AddressDerivationFailed),
            };
            if ledger.get(&ca).is_some() {
                return Err(VotingError::AddressConflict);
            }
            if candidate_name.as_str().len() > MAX_CANDIDATE_NAME_LEN {
                return Err(VotingError::AllocationBudgetExceeded);
            }
            if p.candidate_amount == u64::MAX {
                return Err(VotingError::CounterOverflow);
            }
            let poll = Poll {
                poll_id: p.poll_id,
                description: p.description.clone(),
                poll_start: p.poll_start,
                poll_end: p.poll_end,
                candidate_amount: p.candidate_amount + 1,
            };
            (ca, poll)
        },
    };
    let (ca, poll) = updated;
    ledger.create(ca, Record::Candidate(Candidate { candidate_name, candidate_votes: 0 }));
    ledger.replace(&pa, Record::Poll(poll));
    Ok(())
}

/// Counts one vote for the candidate `candidate_name` of poll `poll_id`.
pub fn vote(ledger: &mut Ledger, accounts: &Vote, candidate_name: String, poll_id: u64) -> (r:
    Result<(), VotingError>)
    requires
        old(ledger).wf(),
    ensures
        final(ledger).wf(),
        final(ledger).program() == old(ledger).program(),
        (r, final(ledger)@) == vote_outcome(
            old(ledger).program()@,
            old(ledger)@,
            accounts.signer.is_signer,
            candidate_name@,
            poll_id,
        ),
{
    if !accounts.signer.is_signer {
        return Err(VotingError::Unauthorized);
    }
    let program_id = ledger.program_id();
    let pa = match poll_address(&program_id, poll_id) {
        Some(d) => d.address,
        None => return Err(VotingError::AddressDerivationFailed),
    };
    match ledger.get(&pa) {
        None => return Err(VotingError::AddressNotFound),
        Some(Record::Candidate(_)) => return Err(VotingError::TypeMismatch),
        Some(Record::Poll(_)) => {},
    }
    let ca = match candidate_address(&program_id, &candidate_name, poll_id) {
        Some(d) => d.address,
        None => return Err(VotingError::AddressDerivationFailed),
    };
    let candidate = match ledger.get(&ca) {
        None => return Err(VotingError::AddressNotFound),
        Some(Record::Poll(_)) => return Err(VotingError::TypeMismatch),
        Some(Record::Candidate(c)) => {
            if c.candidate_votes == u64::MAX {
                return Err(VotingError::CounterOverflow);
            }
            Candidate {
                candidate_name: c.candidate_name.clone(),
                candidate_votes: c.candidate_votes + 1,
            }
        },
    };
    ledger.replace(&ca, Record::Candidate(candidate));
    Ok(())
}

} // verus!
