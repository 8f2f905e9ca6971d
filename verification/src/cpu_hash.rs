//! The hashing workload: FNV-1a over the request, run for a fixed number of passes
//! that continue from one another.

use vstd::prelude::*;
use crate::encoding::{u64_le_bytes, u64_to_le};

verus! {

/// The FNV-1a 64-bit offset basis, the state before any byte.
pub const FNV_OFFSET_BASIS: u64 = 0xcbf2_9ce4_8422_2325;

/// The FNV-1a 64-bit prime.
pub const FNV_PRIME: u64 = 0x100_0000_01b3;

/// How many passes over the request the workload makes.
pub const HASH_PASSES: u32 = 8000;

/// One FNV-1a step: mix the byte in, then multiply by the prime modulo 2^64.
pub open spec fn fnv_step(h: u64, b: u8) -> u64 {
    (((h ^ (b as u64)) as nat * FNV_PRIME as nat) % 0x1_0000_0000_0000_0000nat) as u64
}

/// FNV-1a of `s`, started from state `h`.
pub open spec fn fnv1a(h: u64, s: Seq<u8>) -> u64
    decreases s.len(),
{
    if s.len() == 0 {
        h
    } else {
        fnv_step(fnv1a(h, s.drop_last()), s.last())
    }
}

/// The state after `k` FNV-1a passes over `s`, each pass continuing from the last.
pub open spec fn fnv1a_passes(h: u64, s: Seq<u8>, k: nat) -> u64
    decreases k,
{
    if k == 0 {
        h
    } else {
        fnv1a(fnv1a_passes(h, s, (k - 1) as nat), s)
    }
}

/// `s` written out `k` times in a row.
pub open spec fn repeat(s: Seq<u8>, k: nat) -> Seq<u8>
    decreases k,
{
    if k == 0 {
        Seq::empty()
    } else {
        repeat(s, (k - 1) as nat) + s
    }
}

/// The value that the hashing workload computes for a request.
pub open spec fn digest_of(s: Seq<u8>) -> u64 {
    fnv1a_passes(FNV_OFFSET_BASIS, s, HASH_PASSES as nat)
}

/// Hashing two pieces one after the other is hashing their concatenation.
pub proof fn lemma_fnv1a_concat(h: u64, a: Seq<u8>, b: Seq<u8>)
    ensures
        fnv1a(h, a + b) == fnv1a(fnv1a(h, a), b),
    decreases b.len(),
{
    if b.len() == 0 {
        assert(a + b =~= a);
    } else {
        lemma_fnv1a_concat(h, a, b.drop_last());
        assert((a + b).drop_last() =~= a + b.drop_last());
        assert((a + b).last() == b.last());
    }
}

/// `k` passes over `s` are one FNV-1a pass over `s` repeated `k` times.
pub proof fn lemma_passes_hash_repetition(h: u64, s: Seq<u8>, k: nat)
    ensures
        fnv1a_passes(h, s, k) == fnv1a(h, repeat(s, k)),
    decreases k,
{
    if k == 0 {
    } else {
        lemma_passes_hash_repetition(h, s, (k - 1) as nat);
        lemma_fnv1a_concat(h, repeat(s, (k - 1) as nat), s);
    }
}

/// What one FNV-1a step does to the state: the byte's unsigned value (0 to 255)
/// is xored into the low eight bits only, leaving the upper 56 bits as they were,
/// and the result is multiplied by 0x100000001b3 modulo 2^64. Hashing nothing
/// leaves the state unchanged. With `lemma_fnv1a_concat` these fix FNV-1a on every
/// input.
pub proof fn lemma_fnv1a_one_byte(h: u64, b: u8)
    ensures
        fnv1a(h, Seq::empty()) == h,
        fnv1a(h, seq![b]) as nat == ((((h >> 8u64) << 8u64) | ((((h & 0xff) as u8) ^ b) as u64))
            as nat * 0x100_0000_01b3nat) % 0x1_0000_0000_0000_0000nat,
{
    let one = seq![b];
    assert(one.drop_last() =~= Seq::<u8>::empty());
    assert(one.last() == b);
    assert((h ^ (b as u64)) == (((h >> 8u64) << 8u64) | ((((h & 0xff) as u8) ^ b) as u64)))
        by (bit_vector);
}

/// The digest of a request is one FNV-1a pass, from the offset basis
/// 0xcbf29ce484222325, over the request written out 8000 times in a row.
pub proof fn lemma_digest_is_fnv1a_of_repetition(s: Seq<u8>)
    ensures
        digest_of(s) == fnv1a(0xcbf2_9ce4_8422_2325u64, repeat(s, 8000)),
{
    lemma_passes_hash_repetition(FNV_OFFSET_BASIS, s, HASH_PASSES as nat);
}

/// Runs FNV-1a over `data` once, starting from state `h`.
fn fnv1a_pass(h: u64, data: &[u8]) -> (r: u64)
    ensures
        r == fnv1a(h, data@),
{
    let mut state = h;
    let mut i: usize = 0;
    while i < data.len()
        invariant
            i <= data@.len(),
            state == fnv1a(h, data@.take(i as int)),
        decreases data@.len() - i,
    {
        proof {
            assert(data@.take(i + 1).drop_last() =~= data@.take(i as int));
        }
        state = state ^ (data[i] as u64);
        state = state.wrapping_mul(FNV_PRIME);
        i = i + 1;
    }
    assert(data@.take(data@.len() as int) =~= data@);
    state
}

/// The hashing workload: `HASH_PASSES` passes of FNV-1a over the request, started
/// from the offset basis.
pub fn digest(data: &[u8]) -> (h: u64)
    ensures
        h == digest_of(data@),
{
    let mut h = FNV_OFFSET_BASIS;
    let mut pass: u32 = 0;
    while pass < HASH_PASSES
        invariant
            pass <= HASH_PASSES,
            h == fnv1a_passes(FNV_OFFSET_BASIS, data@, pass as nat),
        decreases HASH_PASSES - pass,
    {
        h = fnv1a_pass(h, data);
        pass = pass + 1;
    }
    h
}

/// The eight bytes that the hashing guest writes back: the digest, little-endian.
pub fn digest_reply(data: &[u8]) -> (r: Vec<u8>)
    ensures
        r@ == u64_le_bytes(digest_of(data@)),
{
    u64_to_le(digest(data))
}

} // verus!
