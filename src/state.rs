//! The ledger-resident records and the ledger that holds them, one record per
//! address.
use vstd::prelude::*;
use crate::address::{Address, same_address};

verus! {

/// The largest encoded length, in bytes, of a poll's description.
pub const MAX_DESCRIPTION_LEN: usize = 280;

/// The largest encoded length, in bytes, of a candidate's name.
pub const MAX_CANDIDATE_NAME_LEN: usize = 32;

/// One ballot.
pub struct Poll {
    pub poll_id: u64,
    pub description: String,
    pub poll_start: u64,
    pub poll_end: u64,
    pub candidate_amount: u64,
}

/// One candidate within one poll; the poll is implied by the record's address.
pub struct Candidate {
    pub candidate_name: String,
    pub candidate_votes: u64,
}

/// What a ledger address holds.
pub enum Record {
    Poll(Poll),
    Candidate(Candidate),
}

/// What a poll holds, with its text as characters.
pub struct PollModel {
    pub poll_id: u64,
    pub description: Seq<char>,
    pub poll_start: u64,
    pub poll_end: u64,
    pub candidate_amount: u64,
}

/// What a candidate holds, with its name as characters.
pub struct CandidateModel {
    pub candidate_name: Seq<char>,
    pub candidate_votes: u64,
}

/// What an address holds, as a mathematical value.
pub enum RecordModel {
    Poll(PollModel),
    Candidate(CandidateModel),
}

impl View for Poll {
    type V = PollModel;

    open spec fn view(&self) -> PollModel {
        PollModel {
            poll_id: self.poll_id,
            description: self.description@,
            poll_start: self.poll_start,
            poll_end: self.poll_end,
            candidate_amount: self.candidate_amount,
        }
    }
}

impl View for Candidate {
    type V = CandidateModel;

    open spec fn view(&self) -> CandidateModel {
        CandidateModel {
            candidate_name: self.candidate_name@,
            candidate_votes: self.candidate_votes,
        }
    }
}

impl View for Record {
    type V = RecordModel;

    open spec fn view(&self) -> RecordModel {
        match self {
            Record::Poll(p) => RecordModel::Poll(p@),
            Record::Candidate(c) => RecordModel::Candidate(c@),
        }
    }
}

/// A record at its address.
pub struct Account {
    pub address: Address,
    pub record: Record,
}

/// The records of the ledger, as a map from address to record, where the
/// later of two accounts at one address would win.
pub open spec fn accounts_map(s: Seq<Account>) -> Map<Seq<u8>, RecordModel>
    decreases s.len(),
{
    if s.len() == 0 {
        Map::empty()
    } else {
        accounts_map(s.drop_last()).insert(s.last().address@, s.last().record@)
    }
}

/// No two accounts share an address.
pub open spec fn addresses_unique(s: Seq<Account>) -> bool {
    forall|i: int, j: int|
        0 <= i < s.len() && 0 <= j < s.len() && i != j ==> s[i].address@ != s[j].address@
}

/// An address is in the map exactly when some account is at it.
proof fn lemma_map_domain(s: Seq<Account>, k: Seq<u8>)
    ensures
        accounts_map(s).contains_key(k) <==> exists|i: int| 0 <= i < s.len() && s[i].address@ == k,
    decreases s.len(),
{
    if s.len() > 0 {
        let t = s.drop_last();
        lemma_map_domain(t, k);
        if accounts_map(s).contains_key(k) && k != s.last().address@ {
            let i = choose|i: int| 0 <= i < t.len() && t[i].address@ == k;
            assert(s[i].address@ == k);
        }
        if exists|i: int| 0 <= i < s.len() && s[i].address@ == k {
            let i = choose|i: int| 0 <= i < s.len() && s[i].address@ == k;
            if i < s.len() - 1 {
                assert(t[i].address@ == k);
            }
        }
    }
}

/// With unique addresses, each account's record is what the map holds at its
/// address.
proof fn lemma_map_value(s: Seq<Account>, i: int)
    requires
        addresses_unique(s),
        0 <= i < s.len(),
    ensures
        accounts_map(s).contains_key(s[i].address@),
        accounts_map(s)[s[i].address@] == s[i].record@,
    decreases s.len(),
{
    if i < s.len() - 1 {
        let t = s.drop_last();
        assert(t[i] == s[i]);
        lemma_map_value(t, i);
        assert(s[i].address@ != s[s.len() - 1].address@);
    }
}

/// Replacing one account's record by another at the same address updates the
/// map at that address alone.
proof fn lemma_map_update(s: Seq<Account>, i: int, a: Account)
    requires
        addresses_unique(s),
        0 <= i < s.len(),
        a.address@ == s[i].address@,
    ensures
        addresses_unique(s.update(i, a)),
        accounts_map(s.update(i, a)) == accounts_map(s).insert(a.address@, a.record@),
    decreases s.len(),
{
    let u = s.update(i, a);
    let t = s.drop_last();
    if i == s.len() - 1 {
        assert(u.drop_last() =~= t);
        assert(accounts_map(u) =~= accounts_map(s).insert(a.address@, a.record@));
    } else {
        assert(u.drop_last() =~= t.update(i, a));
        lemma_map_update(t, i, a);
        assert(s[i].address@ != s[s.len() - 1].address@);
        assert(accounts_map(u) =~= accounts_map(s).insert(a.address@, a.record@));
    }
}

/// The ledger: the records of one program, each at its own address.
pub struct Ledger {
    program_id: Address,
    accounts: Vec<Account>,
}

impl View for Ledger {
    type V = Map<Seq<u8>, RecordModel>;

    closed spec fn view(&self) -> Map<Seq<u8>, RecordModel> {
        accounts_map(self.accounts@)
    }
}

impl Ledger {
    /// At most one record per address.
    pub closed spec fn wf(&self) -> bool {
        addresses_unique(self.accounts@)
    }

    /// The identity under which every address of this ledger is derived.
    pub closed spec fn program(&self) -> Address {
        self.program_id
    }

    /// The identity under which every address of this ledger is derived.
    pub fn program_id(&self) -> (r: Address)
        ensures
            r == self.program(),
    {
        self.program_id
    }

    /// An empty ledger for the program `program_id`.
    pub fn new(program_id: Address) -> (r: Ledger)
        ensures
            r.wf(),
            r@ == Map::<Seq<u8>, RecordModel>::empty(),
            r.program() == program_id,
    {
        Ledger { program_id, accounts: Vec::new() }
    }

    fn find(&self, address: &Address) -> (r: Option<usize>)
        requires
            self.wf(),
        ensures
            match r {
                Some(i) => i < self.accounts@.len() && self.accounts@[i as int].address@
                    == address@,
                None => !self@.contains_key(address@),
            },
    {
        let mut i: usize = 0;
        while i < self.accounts.len()
            invariant
                0 <= i <= self.accounts@.len(),
                forall|j: int| 0 <= j < i ==> self.accounts@[j].address@ != address@,
            decreases self.accounts@.len() - i,
        {
            if same_address(&self.accounts[i].address, address) {
                return Some(i);
            }
            i = i + 1;
        }
        proof {
            lemma_map_domain(self.accounts@, address@);
        }
        None
    }

    /// The record at `address`, if any.
    pub fn get(&self, address: &Address) -> (r: Option<&Record>)
        requires
            self.wf(),
        ensures
            match r {
                Some(rec) => self@.contains_key(address@) && self@[address@] == rec@,
                None => !self@.contains_key(address@),
            },
    {
        match self.find(address) {
            Some(i) => {
                proof {
                    lemma_map_value(self.accounts@, i as int);
                }
                Some(&self.accounts[i].record)
            },
            None => None,
        }
    }

    /// Places `record` at the unoccupied `address`.
    pub fn create(&mut self, address: Address, record: Record)
        requires
            old(self).wf(),
            !old(self)@.contains_key(address@),
        ensures
            final(self).wf(),
            final(self)@ == old(self)@.insert(address@, record@),
            final(self).program() == old(self).program(),
    {
        proof {
            lemma_map_domain(self.accounts@, address@);
        }
        let ghost before = self.accounts@;
        self.accounts.push(Account { address, record });
        assert(self.accounts@.drop_last() =~= before);
    }

    /// Replaces the record at the occupied `address` with `record`.
    pub fn replace(&mut self, address: &Address, record: Record)
        requires
            old(self).wf(),
            old(self)@.contains_key(address@),
        ensures
            final(self).wf(),
            final(self)@ == old(self)@.insert(address@, record@),
            final(self).program() == old(self).program(),
    {
        match self.find(address) {
            Some(i) => {
                let a = Account { address: *address, record };
                proof {
                    lemma_map_update(self.accounts@, i as int, a);
                }
                self.accounts.set(i, a);
            },
            None => {},
        }
    }
}

} // verus!
