//! The packet-checksum workload: a 32-bit one's-complement sum of the packet read
//! as big-endian 16-bit words.

use vstd::prelude::*;
use crate::encoding::{u32_be_bytes, u32_to_be};

verus! {

/// The sum of the packet's words: each pair of bytes is a big-endian 16-bit word,
/// and a trailing odd byte counts as its own value.
pub open spec fn word_sum(s: Seq<u8>) -> nat
    decreases s.len(),
{
    if s.len() == 0 {
        0
    } else if s.len() == 1 {
        s[0] as nat
    } else {
        (s[0] as nat) * 256 + (s[1] as nat) + word_sum(s.subrange(2, s.len() as int))
    }
}

/// The checksum of a packet: the bitwise complement of its word sum taken modulo 2^32.
pub open spec fn checksum_of(s: Seq<u8>) -> u32 {
    (0xffff_ffffnat - word_sum(s) % 0x1_0000_0000nat) as u32
}

/// Splitting a packet after an even number of bytes splits its word sum.
pub proof fn lemma_word_sum_concat(a: Seq<u8>, b: Seq<u8>)
    requires
        a.len() % 2 == 0,
    ensures
        word_sum(a + b) == word_sum(a) + word_sum(b),
    decreases a.len(),
{
    if a.len() == 0 {
        assert(a + b =~= b);
    } else {
        lemma_word_sum_concat(a.subrange(2, a.len() as int), b);
        assert((a + b).subrange(2, (a + b).len() as int) =~= a.subrange(2, a.len() as int) + b);
    }
}

/// The packet's words in order: each pair of bytes read big-endian, and a
/// trailing odd byte as its own value.
pub open spec fn words(s: Seq<u8>) -> Seq<nat>
    decreases s.len(),
{
    if s.len() == 0 {
        Seq::empty()
    } else if s.len() == 1 {
        seq![s[0] as nat]
    } else {
        seq![(s[0] as nat) * 256 + (s[1] as nat)] + words(s.subrange(2, s.len() as int))
    }
}

/// Addition, as a fold step.
pub open spec fn plus() -> spec_fn(nat, nat) -> nat {
    |w: nat, acc: nat| w + acc
}

/// The sum of a sequence of numbers.
pub open spec fn total(ws: Seq<nat>) -> nat {
    ws.fold_right(plus(), 0nat)
}

/// The word sum is the sum of the words.
pub proof fn lemma_word_sum_is_total(s: Seq<u8>)
    ensures
        word_sum(s) == total(words(s)),
    decreases s.len(),
{
    let f = plus();
    if s.len() == 0 {
    } else if s.len() == 1 {
        let one = seq![s[0] as nat];
        assert(one.drop_last() =~= Seq::<nat>::empty());
        assert(Seq::<nat>::empty().fold_right(f, f(s[0] as nat, 0nat)) == f(s[0] as nat, 0nat));
        assert(one.fold_right(f, 0nat) == f(s[0] as nat, 0nat));
    } else {
        let rest = s.subrange(2, s.len() as int);
        lemma_word_sum_is_total(rest);
        let w = (s[0] as nat) * 256 + (s[1] as nat);
        let ws = words(s);
        assert(ws == seq![w] + words(rest));
        ws.lemma_fold_right_split(f, 0nat, 1);
        assert(ws.subrange(0, 1) =~= seq![w]);
        assert(ws.subrange(1, ws.len() as int) =~= words(rest));
        let v = words(rest).fold_right(f, 0nat);
        assert(seq![w].drop_last() =~= Seq::<nat>::empty());
        assert(Seq::<nat>::empty().fold_right(f, f(w, v)) == f(w, v));
        assert(seq![w].fold_right(f, v) == f(w, v));
        assert(ws.fold_right(f, 0nat) == seq![w].fold_right(f, v));
    }
}

/// The order of the words does not matter: packets whose words are the same up to
/// order have the same checksum.
pub proof fn lemma_checksum_ignores_word_order(a: Seq<u8>, b: Seq<u8>)
    requires
        words(a).to_multiset() == words(b).to_multiset(),
    ensures
        checksum_of(a) == checksum_of(b),
{
    let f = plus();
    assert(vstd::seq_lib::commutative_foldr(f));
    vstd::seq_lib::lemma_fold_right_permutation(words(a), words(b), f, 0nat);
    lemma_word_sum_is_total(a);
    lemma_word_sum_is_total(b);
}

/// The checksum of a packet.
pub fn checksum(data: &[u8]) -> (c: u32)
    ensures
        c == checksum_of(data@),
{
    let n = data.len();
    let mut s: u32 = 0;
    let mut i: usize = 0;
    while i < n
        invariant
            n == data@.len(),
            i <= n,
            i % 2 == 0 || i == n,
            s == word_sum(data@.take(i as int)) % 0x1_0000_0000,
        decreases n - i,
    {
        let v: u32;
        let next: usize;
        if n - i >= 2 {
            v = (data[i] as u32) * 256 + data[i + 1] as u32;
            next = i + 2;
        } else {
            v = data[i] as u32;
            next = i + 1;
        }
        proof {
            let head = data@.take(i as int);
            let step = data@.subrange(i as int, next as int);
            assert(data@.take(next as int) =~= head + step);
            lemma_word_sum_concat(head, step);
            if next == i + 2 {
                assert(step.subrange(2, 2) =~= Seq::<u8>::empty());
                assert(word_sum(step.subrange(2, 2)) == 0);
            }
            assert(word_sum(step) == v);
        }
        s = s.wrapping_add(v);
        i = next;
    }
    assert(data@.take(n as int) =~= data@);
    let c = !s;
    assert(!s == 0xffff_ffff - s) by (bit_vector);
    c
}

/// The four bytes that the checksum guest writes back: the checksum, big-endian.
pub fn checksum_reply(data: &[u8]) -> (r: Vec<u8>)
    ensures
        r@ == u32_be_bytes(checksum_of(data@)),
{
    u32_to_be(checksum(data))
}

} // verus!
