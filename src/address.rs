//! Deterministic record addressing: a logical key becomes seed byte strings,
//! and the seeds, scoped under a program identity, become a storage address.
use vstd::prelude::*;
use vstd::utf8::encode_utf8;

verus! {

/// A 32-byte ledger address (also used for the program identity).
pub type Address = [u8; 32];

/// The fixed-width little-endian encoding of a 64-bit integer.
pub open spec fn le_bytes(x: u64) -> Seq<u8> {
    seq![
        x as u8,
        (x >> 8u64) as u8,
        (x >> 16u64) as u8,
        (x >> 24u64) as u8,
        (x >> 32u64) as u8,
        (x >> 40u64) as u8,
        (x >> 48u64) as u8,
        (x >> 56u64) as u8,
    ]
}

/// Encodes `x` as eight little-endian bytes.
pub fn u64_le_bytes(x: u64) -> (r: Vec<u8>)
    ensures
        r@ == le_bytes(x),
{
    let r: Vec<u8> = vec![
        x as u8,
        (x >> 8u64) as u8,
        (x >> 16u64) as u8,
        (x >> 24u64) as u8,
        (x >> 32u64) as u8,
        (x >> 40u64) as u8,
        (x >> 48u64) as u8,
        (x >> 56u64) as u8,
    ];
    assert(r@ =~= le_bytes(x));
    r
}

/// Compares two addresses byte by byte.
pub fn same_address(a: &Address, b: &Address) -> (r: bool)
    ensures
        r == (a@ == b@),
{
    let mut i: usize = 0;
    while i < 32
        invariant
            0 <= i <= 32,
            a@.len() == 32,
            b@.len() == 32,
            forall|j: int| 0 <= j < i ==> a@[j] == b@[j],
        decreases 32 - i,
    {
        if a[i] != b[i] {
            return false;
        }
        i = i + 1;
    }
    assert(a@ =~= b@);
    true
}

/// The SHA-256 digest of a byte string.
pub uninterp spec fn sha256_of(data: Seq<u8>) -> Seq<u8>;

/// The program address found for `seeds` under `program_id`, with its bump,
/// or `None` where no bump gives an address off the curve.
pub uninterp spec fn program_address_of(seeds: Seq<Seq<u8>>, program_id: Seq<u8>) -> Option<
    (Seq<u8>, u8),
>;

/// Relies on `solana_program::hash::hash`: the SHA-256 digest of `data`,
/// which depends on the bytes alone.
#[verifier::external_body]
fn sha256(data: &[u8]) -> (r: [u8; 32])
    ensures
        r@ == sha256_of(data@),
{
    anchor_lang::solana_program::hash::hash(data).to_bytes()
}

/// Relies on `Pubkey::try_find_program_address`: it searches the bumps from
/// 255 down to 1 for the first one whose derived address is off the curve, and
/// depends on the seeds and the program identity alone.
#[verifier::external_body]
fn find_program_address(seeds: &Vec<Vec<u8>>, program_id: &Address) -> (r: Option<(Address, u8)>)
    ensures
        program_address_of(seeds.deep_view(), program_id@) == match r {
            Some(p) => Some((p.0@, p.1)),
            None => None,
        },
{
    let parts: Vec<&[u8]> = seeds.iter().map(|s| s.as_slice()).collect();
    let program = anchor_lang::solana_program::pubkey::Pubkey::new_from_array(*program_id);
    anchor_lang::solana_program::pubkey::Pubkey::try_find_program_address(&parts, &program).map(
        |(key, bump)| (key.to_bytes(), bump),
    )
}

/// Hashing of text, so that a name of any length folds into a fixed-width seed.
pub trait StringExt: View<V = Seq<char>> {
    /// The SHA-256 digest of the UTF-8 encoding of `self`.
    fn to_hashed_bytes(&self) -> (r: [u8; 32])
        ensures
            r@ == sha256_of(encode_utf8(self@)),
    ;
}

impl StringExt for String {
    fn to_hashed_bytes(&self) -> (r: [u8; 32]) {
        sha256(self.as_str().as_bytes())
    }
}

/// The seeds of the poll record of `poll_id`.
pub open spec fn poll_seeds(poll_id: u64) -> Seq<Seq<u8>> {
    seq![le_bytes(poll_id)]
}

/// The seeds of the candidate record of `candidate_name` in poll `poll_id`.
pub open spec fn candidate_seeds(candidate_name: Seq<char>, poll_id: u64) -> Seq<Seq<u8>> {
    seq![sha256_of(encode_utf8(candidate_name)), le_bytes(poll_id)]
}

/// The address derived from `seeds` under `program_id`, if any.
pub open spec fn derived_address(program_id: Seq<u8>, seeds: Seq<Seq<u8>>) -> Option<Seq<u8>> {
    match program_address_of(seeds, program_id) {
        Some(p) => Some(p.0),
        None => None,
    }
}

/// An address derived from seeds, with the bump that places it off the curve.
pub struct DerivedAddress {
    pub address: Address,
    pub bump: u8,
}

/// Whether `r` is the outcome of deriving from `seeds` under `program_id`.
pub open spec fn derives(r: Option<DerivedAddress>, program_id: Seq<u8>, seeds: Seq<Seq<u8>>) -> bool {
    program_address_of(seeds, program_id) == match r {
        Some(d) => Some((d.address@, d.bump)),
        None => None,
    }
}

/// Derives the address of the poll record of `poll_id`.
pub fn poll_address(program_id: &Address, poll_id: u64) -> (r: Option<DerivedAddress>)
    ensures
        derives(r, program_id@, poll_seeds(poll_id)),
{
    let seeds: Vec<Vec<u8>> = vec![u64_le_bytes(poll_id)];
    assert(seeds@[0].deep_view() =~= seeds@[0]@);
    assert(seeds.deep_view() =~= poll_seeds(poll_id));
    match find_program_address(&seeds, program_id) {
        Some((address, bump)) => Some(DerivedAddress { address, bump }),
        None => None,
    }
}

/// Derives the address of the candidate record of `candidate_name` in poll
/// `poll_id`.
pub fn candidate_address(program_id: &Address, candidate_name: &String, poll_id: u64) -> (r: Option<
    DerivedAddress,
>)
    ensures
        derives(r, program_id@, candidate_seeds(candidate_name@, poll_id)),
{
    let hashed = candidate_name.to_hashed_bytes();
    let mut name_seed: Vec<u8> = Vec::new();
    let mut i: usize = 0;
    while i < 32
        invariant
            0 <= i <= 32,
            hashed@.len() == 32,
            name_seed@ =~= hashed@.subrange(0, i as int),
        decreases 32 - i,
    {
        name_seed.push(hashed[i]);
        i = i + 1;
    }
    assert(name_seed@ =~= hashed@);
    let seeds: Vec<Vec<u8>> = vec![name_seed, u64_le_bytes(poll_id)];
    assert(seeds@[0].deep_view() =~= seeds@[0]@);
    assert(seeds@[1].deep_view() =~= seeds@[1]@);
    assert(seeds.deep_view() =~= candidate_seeds(candidate_name@, poll_id));
    match find_program_address(&seeds, program_id) {
        Some((address, bump)) => Some(DerivedAddress { address, bump }),
        None => None,
    }
}

} // verus!
