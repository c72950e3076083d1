//! Hashing for candidacy notes and vote commitments: a 256-bit BLAKE2b
//! digest, and the byte layout a vote commitment is computed over.
//!
//! A commitment binds the voter's account, a salt, the cycle identifier and
//! the chosen option, so that a revealed vote can be checked against the
//! commitment cast during voting and cannot be replayed in another cycle.

use vstd::prelude::*;

verus! {

/// The 256-bit BLAKE2b digest of a byte string.
pub uninterp spec fn blake2b_256_of(bytes: Seq<u8>) -> Seq<u8>;

/// Relies on blake2::Blake2b with 32-byte output: the digest is a function
/// of the input bytes alone, and is 32 bytes long.
#[verifier::external_body]
pub fn blake2b_256(bytes: &Vec<u8>) -> (r: Vec<u8>)
    ensures
        r@ == blake2b_256_of(bytes@),
        r@.len() == 32,
{
    let mut hasher: blake2::Blake2b<blake2::digest::consts::U32> = blake2::Digest::new();
    blake2::Digest::update(&mut hasher, bytes.as_slice());
    let out = blake2::Digest::finalize(hasher);
    out.to_vec()
}

/// The big-endian bytes of a 64-bit value.
pub open spec fn be_bytes_u64(x: u64) -> Seq<u8> {
    seq![
        ((x >> 56) & 0xff) as u8,
        ((x >> 48) & 0xff) as u8,
        ((x >> 40) & 0xff) as u8,
        ((x >> 32) & 0xff) as u8,
        ((x >> 24) & 0xff) as u8,
        ((x >> 16) & 0xff) as u8,
        ((x >> 8) & 0xff) as u8,
        (x & 0xff) as u8,
    ]
}

/// Appends the big-endian bytes of `x` to `out`.
pub fn push_be_bytes_u64(out: &mut Vec<u8>, x: u64)
    ensures
        final(out)@ == old(out)@ + be_bytes_u64(x),
{
    out.push(((x >> 56) & 0xff) as u8);
    out.push(((x >> 48) & 0xff) as u8);
    out.push(((x >> 40) & 0xff) as u8);
    out.push(((x >> 32) & 0xff) as u8);
    out.push(((x >> 24) & 0xff) as u8);
    out.push(((x >> 16) & 0xff) as u8);
    out.push(((x >> 8) & 0xff) as u8);
    out.push((x & 0xff) as u8);
    proof {
        assert(out@ =~= old(out)@ + be_bytes_u64(x));
    }
}

/// The byte string a vote commitment is computed over.
pub open spec fn commitment_input(
    account_id: u64,
    salt: Seq<u8>,
    cycle_id: u64,
    vote_option_id: u64,
) -> Seq<u8> {
    be_bytes_u64(account_id) + salt + be_bytes_u64(cycle_id) + be_bytes_u64(vote_option_id)
}

/// The commitment a voter casts: the digest of the commitment input.
pub open spec fn spec_commitment(
    account_id: u64,
    salt: Seq<u8>,
    cycle_id: u64,
    vote_option_id: u64,
) -> Seq<u8> {
    blake2b_256_of(commitment_input(account_id, salt, cycle_id, vote_option_id))
}

/// Computes the commitment for a vote: the digest over account, salt, cycle
/// and chosen option.
pub fn calculate_commitment(
    account_id: u64,
    salt: &Vec<u8>,
    cycle_id: u64,
    vote_option_id: u64,
) -> (r: Vec<u8>)
    ensures
        r@ == spec_commitment(account_id, salt@, cycle_id, vote_option_id),
        r@.len() == 32,
{
    let mut input: Vec<u8> = Vec::new();
    push_be_bytes_u64(&mut input, account_id);
    let mut i: usize = 0;
    let n = salt.len();
    while i < n
        invariant
            i <= n,
            n == salt@.len(),
            input@ == be_bytes_u64(account_id) + salt@.subrange(0, i as int),
        decreases n - i,
    {
        input.push(salt[i]);
        proof {
            assert(input@ =~= be_bytes_u64(account_id) + salt@.subrange(0, i + 1));
        }
        i = i + 1;
    }
    proof {
        assert(salt@.subrange(0, n as int) =~= salt@);
    }
    push_be_bytes_u64(&mut input, cycle_id);
    push_be_bytes_u64(&mut input, vote_option_id);
    proof {
        assert(input@ =~= commitment_input(account_id, salt@, cycle_id, vote_option_id));
    }
    blake2b_256(&input)
}

/// The digest stored for a candidacy note.
pub open spec fn spec_note_hash(note: Seq<u8>) -> Seq<u8> {
    blake2b_256_of(note)
}

/// Computes the digest stored for a candidacy note.
pub fn note_hash_of(note: &Vec<u8>) -> (r: Vec<u8>)
    ensures
        r@ == spec_note_hash(note@),
{
    blake2b_256(note)
}

/// A copy of a byte string.
pub fn clone_bytes(v: &Vec<u8>) -> (r: Vec<u8>)
    ensures
        r@ == v@,
{
    let mut out: Vec<u8> = Vec::new();
    let n = v.len();
    let mut i: usize = 0;
    while i < n
        invariant
            i <= n,
            n == v@.len(),
            out@ == v@.subrange(0, i as int),
        decreases n - i,
    {
        out.push(v[i]);
        proof {
            assert(out@ =~= v@.subrange(0, i + 1));
        }
        i = i + 1;
    }
    proof {
        assert(v@.subrange(0, n as int) =~= v@);
    }
    out
}

/// Byte-wise equality of two byte strings.
pub fn bytes_equal(a: &Vec<u8>, b: &Vec<u8>) -> (r: bool)
    ensures
        r == (a@ == b@),
{
    if a.len() != b.len() {
        assert(a@ != b@) by {
            assert(a@.len() != b@.len());
        }
        return false;
    }
    let n = a.len();
    let mut i: usize = 0;
    while i < n
        invariant
            i <= n,
            n == a@.len(),
            n == b@.len(),
            forall|j: int| 0 <= j < i ==> a@[j] == b@[j],
        decreases n - i,
    {
        if a[i] != b[i] {
            assert(a@ != b@);
            return false;
        }
        i = i + 1;
    }
    proof {
        assert(a@ =~= b@);
    }
    true
}

} // verus!
