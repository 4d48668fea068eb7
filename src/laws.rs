//! What holds of the transitions across calls, stated over their outcomes.
use vstd::prelude::*;
use crate::address::{
    DerivedAddress, candidate_seeds, derived_address, derives, le_bytes, poll_seeds,
};
use crate::state::RecordModel;
use crate::voting::{
    Records, VotingError, initialize_candidate_outcome, initialize_poll_outcome,
    vote_outcome,
};

verus! {

/// Creating a poll a second time under the same id fails with an address
/// conflict and leaves the records, the first poll among them, as they were.
pub proof fn lemma_initialize_poll_twice(
    program: Seq<u8>,
    m: Records,
    poll_id: u64,
    description: Seq<char>,
    poll_start: u64,
    poll_end: u64,
    description2: Seq<char>,
    poll_start2: u64,
    poll_end2: u64,
)
    requires
        initialize_poll_outcome(program, m, true, poll_id, description, poll_start, poll_end).0
            is Ok,
    ensures
        ({
            let m1 = initialize_poll_outcome(
                program,
                m,
                true,
                poll_id,
                description,
                poll_start,
                poll_end,
            ).1;
            initialize_poll_outcome(program, m1, true, poll_id, description2, poll_start2, poll_end2)
                == (Err::<(), VotingError>(VotingError::AddressConflict), m1)
        }),
{
}

/// Registering the same candidate of the same poll a second time fails with
/// an address conflict and changes nothing.
pub proof fn lemma_initialize_candidate_twice(
    program: Seq<u8>,
    m: Records,
    candidate_name: Seq<char>,
    poll_id: u64,
)
    requires
        initialize_candidate_outcome(program, m, true, candidate_name, poll_id).0 is Ok,
    ensures
        ({
            let m1 = initialize_candidate_outcome(program, m, true, candidate_name, poll_id).1;
            initialize_candidate_outcome(program, m1, true, candidate_name, poll_id) == (Err::<
                (),
                VotingError,
            >(VotingError::AddressConflict), m1)
        }),
{
}

/// The candidate count of the poll at `pa`, or zero where no poll is there.
pub open spec fn candidate_amount_at(m: Records, pa: Seq<u8>) -> int {
    if m.contains_key(pa) {
        match m[pa] {
            RecordModel::Poll(p) => p.candidate_amount as int,
            RecordModel::Candidate(_) => 0,
        }
    } else {
        0
    }
}

/// Registers each of `names` in poll `poll_id` in turn; gives the records
/// after all of them and how many registrations succeeded.
pub open spec fn register_all(program: Seq<u8>, m: Records, names: Seq<Seq<char>>, poll_id: u64) -> (
    Records,
    nat,
)
    decreases names.len(),
{
    if names.len() == 0 {
        (m, 0)
    } else {
        let (m0, n0) = register_all(program, m, names.drop_last(), poll_id);
        let (r, m1) = initialize_candidate_outcome(program, m0, true, names.last(), poll_id);
        (m1, if r is Ok {
            n0 + 1
        } else {
            n0
        })
    }
}

/// One registration in an existing poll adds one to its count when it
/// succeeds and changes nothing when it fails.
proof fn lemma_register_step(program: Seq<u8>, m: Records, name: Seq<char>, poll_id: u64, pa: Seq<u8>)
    requires
        derived_address(program, poll_seeds(poll_id)) == Some(pa),
        m.contains_key(pa),
        m[pa] is Poll,
    ensures
        ({
            let (r, m1) = initialize_candidate_outcome(program, m, true, name, poll_id);
            &&& m1.contains_key(pa)
            &&& m1[pa] is Poll
            &&& r is Ok ==> candidate_amount_at(m1, pa) == candidate_amount_at(m, pa) + 1
            &&& r is Err ==> m1 == m
        }),
{
}

/// After a run of registrations in one poll, the poll's candidate count has
/// grown by exactly the number of them that succeeded.
pub proof fn lemma_candidate_amount_counts_registrations(
    program: Seq<u8>,
    m: Records,
    names: Seq<Seq<char>>,
    poll_id: u64,
    pa: Seq<u8>,
)
    requires
        derived_address(program, poll_seeds(poll_id)) == Some(pa),
        m.contains_key(pa),
        m[pa] is Poll,
    ensures
        ({
            let (m1, n) = register_all(program, m, names, poll_id);
            &&& m1.contains_key(pa)
            &&& m1[pa] is Poll
            &&& candidate_amount_at(m1, pa) == candidate_amount_at(m, pa) + n
        }),
    decreases names.len(),
{
    if names.len() > 0 {
        lemma_candidate_amount_counts_registrations(program, m, names.drop_last(), poll_id, pa);
        let (m0, n0) = register_all(program, m, names.drop_last(), poll_id);
        lemma_register_step(program, m0, names.last(), poll_id, pa);
    }
}

/// Applies `n` votes for `candidate_name` of poll `poll_id` in turn; gives
/// the records after all of them and how many succeeded.
pub open spec fn vote_times(
    program: Seq<u8>,
    m: Records,
    candidate_name: Seq<char>,
    poll_id: u64,
    n: nat,
) -> (Records, nat)
    decreases n,
{
    if n == 0 {
        (m, 0)
    } else {
        let (m0, k0) = vote_times(program, m, candidate_name, poll_id, (n - 1) as nat);
        let (r, m1) = vote_outcome(program, m0, true, candidate_name, poll_id);
        (m1, if r is Ok {
            k0 + 1
        } else {
            k0
        })
    }
}

/// The vote count of the candidate at `ca`, or zero where no candidate is there.
pub open spec fn votes_at(m: Records, ca: Seq<u8>) -> int {
    if m.contains_key(ca) {
        match m[ca] {
            RecordModel::Candidate(c) => c.candidate_votes as int,
            RecordModel::Poll(_) => 0,
        }
    } else {
        0
    }
}

/// For a registered candidate, `n` votes that keep its count in range all
/// succeed, and its count grows by exactly `n`; in particular a fresh
/// candidate ends with `n` votes.
pub proof fn lemma_votes_count(
    program: Seq<u8>,
    m: Records,
    candidate_name: Seq<char>,
    poll_id: u64,
    n: nat,
    pa: Seq<u8>,
    ca: Seq<u8>,
)
    requires
        derived_address(program, poll_seeds(poll_id)) == Some(pa),
        derived_address(program, candidate_seeds(candidate_name, poll_id)) == Some(ca),
        m.contains_key(pa),
        m[pa] is Poll,
        m.contains_key(ca),
        m[ca] is Candidate,
        votes_at(m, ca) + n <= u64::MAX,
    ensures
        ({
            let (m1, k) = vote_times(program, m, candidate_name, poll_id, n);
            &&& k == n
            &&& m1.contains_key(ca)
            &&& m1[ca] is Candidate
            &&& votes_at(m1, ca) == votes_at(m, ca) + n
            &&& m1.contains_key(pa)
            &&& m1[pa] == m[pa]
        }),
    decreases n,
{
    if n > 0 {
        lemma_votes_count(program, m, candidate_name, poll_id, (n - 1) as nat, pa, ca);
    }
}

/// Two votes leave the same records in either order, whichever candidates
/// and polls they name: no ordering of concurrent votes loses an increment.
pub proof fn lemma_votes_commute(
    program: Seq<u8>,
    m: Records,
    signed_a: bool,
    name_a: Seq<char>,
    poll_a: u64,
    signed_b: bool,
    name_b: Seq<char>,
    poll_b: u64,
)
    ensures
        vote_outcome(
            program,
            vote_outcome(program, m, signed_a, name_a, poll_a).1,
            signed_b,
            name_b,
            poll_b,
        ).1 == vote_outcome(
            program,
            vote_outcome(program, m, signed_b, name_b, poll_b).1,
            signed_a,
            name_a,
            poll_a,
        ).1,
{
    let ab = vote_outcome(
        program,
        vote_outcome(program, m, signed_a, name_a, poll_a).1,
        signed_b,
        name_b,
        poll_b,
    ).1;
    let ba = vote_outcome(
        program,
        vote_outcome(program, m, signed_b, name_b, poll_b).1,
        signed_a,
        name_a,
        poll_a,
    ).1;
    assert(ab =~= ba);
}

/// One transition, with its caller's authentication and its arguments.
pub enum Transition {
    InitializePoll {
        signed: bool,
        poll_id: u64,
        description: Seq<char>,
        poll_start: u64,
        poll_end: u64,
    },
    InitializeCandidate { signed: bool, candidate_name: Seq<char>, poll_id: u64 },
    Vote { signed: bool, candidate_name: Seq<char>, poll_id: u64 },
}

/// The result of one transition and the records after it.
pub open spec fn step(program: Seq<u8>, m: Records, t: Transition) -> (
    Result<(), VotingError>,
    Records,
) {
    match t {
        Transition::InitializePoll { signed, poll_id, description, poll_start, poll_end } =>
            initialize_poll_outcome(program, m, signed, poll_id, description, poll_start, poll_end),
        Transition::InitializeCandidate { signed, candidate_name, poll_id } =>
            initialize_candidate_outcome(program, m, signed, candidate_name, poll_id),
        Transition::Vote { signed, candidate_name, poll_id } => vote_outcome(
            program,
            m,
            signed,
            candidate_name,
            poll_id,
        ),
    }
}

/// The records after applying `ts` in order, each transition to the records
/// the previous ones left.
pub open spec fn run(program: Seq<u8>, m: Records, ts: Seq<Transition>) -> Records
    decreases ts.len(),
{
    if ts.len() == 0 {
        m
    } else {
        step(program, run(program, m, ts.drop_last()), ts.last()).1
    }
}

/// Whether `t`, applied to `m`, is a successful vote for the candidate at `ca`.
pub open spec fn is_vote_for(program: Seq<u8>, m: Records, t: Transition, ca: Seq<u8>) -> bool {
    match t {
        Transition::Vote { candidate_name, poll_id, .. } => derived_address(
            program,
            candidate_seeds(candidate_name, poll_id),
        ) == Some(ca) && step(program, m, t).0 is Ok,
        _ => false,
    }
}

/// Whether `t`, applied to `m`, is a successful registration in the poll at `pa`.
pub open spec fn is_registration_in(program: Seq<u8>, m: Records, t: Transition, pa: Seq<u8>) -> bool {
    match t {
        Transition::InitializeCandidate { poll_id, .. } => derived_address(
            program,
            poll_seeds(poll_id),
        ) == Some(pa) && step(program, m, t).0 is Ok,
        _ => false,
    }
}

/// How many transitions of `ts` are successful votes for the candidate at `ca`.
pub open spec fn votes_in(program: Seq<u8>, m: Records, ts: Seq<Transition>, ca: Seq<u8>) -> nat
    decreases ts.len(),
{
    if ts.len() == 0 {
        0
    } else {
        votes_in(program, m, ts.drop_last(), ca) + if is_vote_for(
            program,
            run(program, m, ts.drop_last()),
            ts.last(),
            ca,
        ) {
            1nat
        } else {
            0nat
        }
    }
}

/// How many transitions of `ts` are successful registrations in the poll at `pa`.
pub open spec fn registrations_in(
    program: Seq<u8>,
    m: Records,
    ts: Seq<Transition>,
    pa: Seq<u8>,
) -> nat
    decreases ts.len(),
{
    if ts.len() == 0 {
        0
    } else {
        registrations_in(program, m, ts.drop_last(), pa) + if is_registration_in(
            program,
            run(program, m, ts.drop_last()),
            ts.last(),
            pa,
        ) {
            1nat
        } else {
            0nat
        }
    }
}

/// One transition keeps a candidate at `ca` a candidate, and adds one to its
/// votes exactly when it is a successful vote for it.
proof fn lemma_step_votes(program: Seq<u8>, m: Records, t: Transition, ca: Seq<u8>)
    requires
        m.contains_key(ca),
        m[ca] is Candidate,
    ensures
        step(program, m, t).1.contains_key(ca),
        step(program, m, t).1[ca] is Candidate,
        votes_at(step(program, m, t).1, ca) == votes_at(m, ca) + if is_vote_for(
            program,
            m,
            t,
            ca,
        ) {
            1int
        } else {
            0int
        },
{
}

/// One transition keeps a poll at `pa` a poll, and adds one to its candidate
/// count exactly when it is a successful registration in it.
proof fn lemma_step_registrations(program: Seq<u8>, m: Records, t: Transition, pa: Seq<u8>)
    requires
        m.contains_key(pa),
        m[pa] is Poll,
    ensures
        step(program, m, t).1.contains_key(pa),
        step(program, m, t).1[pa] is Poll,
        candidate_amount_at(step(program, m, t).1, pa) == candidate_amount_at(m, pa) + if is_registration_in(
            program,
            m,
            t,
            pa,
        ) {
            1int
        } else {
            0int
        },
{
}

/// Over any schedule of transitions, interleaved in any order, a candidate's
/// vote count grows by exactly the number of successful votes for it.
pub proof fn lemma_schedule_votes(program: Seq<u8>, m: Records, ts: Seq<Transition>, ca: Seq<u8>)
    requires
        m.contains_key(ca),
        m[ca] is Candidate,
    ensures
        run(program, m, ts).contains_key(ca),
        run(program, m, ts)[ca] is Candidate,
        votes_at(run(program, m, ts), ca) == votes_at(m, ca) + votes_in(program, m, ts, ca),
    decreases ts.len(),
{
    if ts.len() > 0 {
        lemma_schedule_votes(program, m, ts.drop_last(), ca);
        lemma_step_votes(program, run(program, m, ts.drop_last()), ts.last(), ca);
    }
}

/// Over any schedule of transitions, interleaved in any order, a poll's
/// candidate count grows by exactly the number of successful registrations in
/// it; a failed registration, a duplicate among them, adds nothing.
pub proof fn lemma_schedule_registrations(
    program: Seq<u8>,
    m: Records,
    ts: Seq<Transition>,
    pa: Seq<u8>,
)
    requires
        m.contains_key(pa),
        m[pa] is Poll,
    ensures
        run(program, m, ts).contains_key(pa),
        run(program, m, ts)[pa] is Poll,
        candidate_amount_at(run(program, m, ts), pa) == candidate_amount_at(m, pa)
            + registrations_in(program, m, ts, pa),
    decreases ts.len(),
{
    if ts.len() > 0 {
        lemma_schedule_registrations(program, m, ts.drop_last(), pa);
        lemma_step_registrations(program, run(program, m, ts.drop_last()), ts.last(), pa);
    }
}

/// Registering a candidate or voting in a poll whose record is missing fails
/// with a missing address.
pub proof fn lemma_missing_poll(
    program: Seq<u8>,
    m: Records,
    candidate_name: Seq<char>,
    poll_id: u64,
    pa: Seq<u8>,
)
    requires
        derived_address(program, poll_seeds(poll_id)) == Some(pa),
        !m.contains_key(pa),
    ensures
        initialize_candidate_outcome(program, m, true, candidate_name, poll_id) == (Err::<
            (),
            VotingError,
        >(VotingError::AddressNotFound), m),
        vote_outcome(program, m, true, candidate_name, poll_id) == (Err::<(), VotingError>(
            VotingError::AddressNotFound,
        ), m),
{
}

/// Voting for a candidate that has no record in an existing poll fails with
/// a missing address.
pub proof fn lemma_missing_candidate(
    program: Seq<u8>,
    m: Records,
    candidate_name: Seq<char>,
    poll_id: u64,
    pa: Seq<u8>,
    ca: Seq<u8>,
)
    requires
        derived_address(program, poll_seeds(poll_id)) == Some(pa),
        derived_address(program, candidate_seeds(candidate_name, poll_id)) == Some(ca),
        m.contains_key(pa),
        m[pa] is Poll,
        !m.contains_key(ca),
    ensures
        vote_outcome(program, m, true, candidate_name, poll_id) == (Err::<(), VotingError>(
            VotingError::AddressNotFound,
        ), m),
{
}

/// Two derivations from the same seeds under the same program agree, in
/// address and in bump.
pub proof fn lemma_derivation_deterministic(
    r1: Option<DerivedAddress>,
    r2: Option<DerivedAddress>,
    program: Seq<u8>,
    seeds: Seq<Seq<u8>>,
)
    requires
        derives(r1, program, seeds),
        derives(r2, program, seeds),
    ensures
        r1 is Some <==> r2 is Some,
        r1 is Some ==> r1->0.address@ == r2->0.address@ && r1->0.bump == r2->0.bump,
{
}

/// Distinct poll ids give distinct seeds, for polls and for candidates of
/// any name.
pub proof fn lemma_seeds_distinct(a: u64, b: u64, name_a: Seq<char>, name_b: Seq<char>)
    requires
        a != b,
    ensures
        poll_seeds(a) != poll_seeds(b),
        candidate_seeds(name_a, a) != candidate_seeds(name_b, b),
{
    if le_bytes(a) == le_bytes(b) {
        assert(le_bytes(a)[0] == le_bytes(b)[0]);
        assert(le_bytes(a)[1] == le_bytes(b)[1]);
        assert(le_bytes(a)[2] == le_bytes(b)[2]);
        assert(le_bytes(a)[3] == le_bytes(b)[3]);
        assert(le_bytes(a)[4] == le_bytes(b)[4]);
        assert(le_bytes(a)[5] == le_bytes(b)[5]);
        assert(le_bytes(a)[6] == le_bytes(b)[6]);
        assert(le_bytes(a)[7] == le_bytes(b)[7]);
        assert(a == b) by (bit_vector)
            requires
                a as u8 == b as u8,
                (a >> 8u64) as u8 == (b >> 8u64) as u8,
                (a >> 16u64) as u8 == (b >> 16u64) as u8,
                (a >> 24u64) as u8 == (b >> 24u64) as u8,
                (a >> 32u64) as u8 == (b >> 32u64) as u8,
                (a >> 40u64) as u8 == (b >> 40u64) as u8,
                (a >> 48u64) as u8 == (b >> 48u64) as u8,
                (a >> 56u64) as u8 == (b >> 56u64) as u8,
        ;
    }
    assert(poll_seeds(a)[0] == le_bytes(a));
    assert(candidate_seeds(name_a, a)[1] == le_bytes(a));
    assert(candidate_seeds(name_b, b)[1] == le_bytes(b));
}

} // verus!
