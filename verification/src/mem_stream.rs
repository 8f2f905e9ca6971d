//! The streaming-memory workload: fill a large buffer by cycling through the
//! request, then add up every byte of the buffer.

use vstd::prelude::*;
use vstd::arithmetic::div_mod::lemma_fundamental_div_mod_converse;
use crate::encoding::{u64_le_bytes, u64_to_le};

verus! {

/// The number of bytes in the buffer that the workload streams through.
pub const STREAM_SIZE: usize = 16 * 1024 * 1024;

/// The first `n` bytes of `s` repeated without end: byte `i` is `s[i % |s|]`.
pub open spec fn cyclic(s: Seq<u8>, n: nat) -> Seq<u8>
    recommends
        s.len() > 0,
{
    Seq::new(n, |i: int| s[i % (s.len() as int)])
}

/// The sum of the bytes of `s`.
pub open spec fn byte_sum(s: Seq<u8>) -> nat
    decreases s.len(),
{
    if s.len() == 0 {
        0
    } else {
        byte_sum(s.drop_last()) + s.last() as nat
    }
}

/// The value that the streaming workload computes for a request.
pub open spec fn stream_sum_of(s: Seq<u8>) -> nat
    recommends
        s.len() > 0,
{
    byte_sum(cyclic(s, STREAM_SIZE as nat))
}

/// The sum of `n` bytes is at most `255 * n`.
pub proof fn lemma_byte_sum_bound(s: Seq<u8>)
    ensures
        byte_sum(s) <= 255 * s.len(),
    decreases s.len(),
{
    if s.len() > 0 {
        lemma_byte_sum_bound(s.drop_last());
    }
}

/// Cycling through `s` for `n` bytes goes through the whole of `s` `n / |s|` times
/// and then through its first `n % |s|` bytes, so that is what the sum adds up.
pub proof fn lemma_cyclic_sum(s: Seq<u8>, n: nat)
    requires
        s.len() > 0,
    ensures
        byte_sum(cyclic(s, n)) == (n / s.len()) * byte_sum(s) + byte_sum(
            s.take((n % s.len()) as int),
        ),
    decreases n,
{
    let len = s.len() as int;
    if n == 0 {
        assert(cyclic(s, 0) =~= Seq::<u8>::empty());
        assert(s.take(0) =~= Seq::<u8>::empty());
    } else {
        let m = (n - 1) as nat;
        lemma_cyclic_sum(s, m);
        assert(cyclic(s, n).drop_last() =~= cyclic(s, m));
        let q = m as int / len;
        let r = m as int % len;
        assert(m as int == q * len + r) by {
            vstd::arithmetic::div_mod::lemma_fundamental_div_mod(m as int, len);
            vstd::arithmetic::mul::lemma_mul_is_commutative(q, len);
        }
        assert(0 <= r < len);
        assert(s.take(r + 1).drop_last() =~= s.take(r));
        if r + 1 < len {
            lemma_fundamental_div_mod_converse(n as int, len, q, r + 1);
        } else {
            assert(n as int == (q + 1) * len + 0) by (nonlinear_arith)
                requires
                    n as int == m as int + 1,
                    m as int == q * len + r,
                    r + 1 == len,
            ;
            lemma_fundamental_div_mod_converse(n as int, len, q + 1, 0);
            assert(s.take(r + 1) =~= s);
            assert(s.take(0) =~= Seq::<u8>::empty());
            assert((q + 1) * byte_sum(s) == q * byte_sum(s) + byte_sum(s)) by (nonlinear_arith);
        }
    }
}

/// The streamed sum goes through every byte of the request: it is the request's
/// sum times the number of whole cycles (16 MiB / |s|), plus the sum of the first
/// 16 MiB % |s| bytes.
pub proof fn lemma_stream_sum_whole_request(s: Seq<u8>)
    requires
        s.len() > 0,
    ensures
        stream_sum_of(s) == (16_777_216nat / s.len()) * byte_sum(s) + byte_sum(
            s.take((16_777_216nat % s.len()) as int),
        ),
{
    lemma_cyclic_sum(s, STREAM_SIZE as nat);
}

/// The byte sum is additive, and a single byte sums to its value.
pub proof fn lemma_byte_sum_concat(a: Seq<u8>, b: Seq<u8>)
    ensures
        byte_sum(a + b) == byte_sum(a) + byte_sum(b),
        byte_sum(Seq::<u8>::empty()) == 0,
        b.len() == 1 ==> byte_sum(b) == b[0] as nat,
    decreases b.len(),
{
    if b.len() == 0 {
        assert(a + b =~= a);
    } else {
        lemma_byte_sum_concat(a, b.drop_last());
        assert((a + b).drop_last() =~= a + b.drop_last());
        if b.len() == 1 {
            assert(b.drop_last() =~= Seq::<u8>::empty());
        }
    }
}

/// The buffer of `STREAM_SIZE` bytes that cycles through the request.
pub fn fill_cyclic(input: &[u8]) -> (buf: Vec<u8>)
    requires
        input@.len() > 0,
    ensures
        buf@ == cyclic(input@, STREAM_SIZE as nat),
{
    let n = input.len();
    let mut buf: Vec<u8> = Vec::with_capacity(STREAM_SIZE);
    let mut i: usize = 0;
    while i < STREAM_SIZE
        invariant
            n == input@.len(),
            n > 0,
            i <= STREAM_SIZE,
            buf@ == cyclic(input@, i as nat),
        decreases STREAM_SIZE - i,
    {
        buf.push(input[i % n]);
        i = i + 1;
        assert(buf@ =~= cyclic(input@, i as nat));
    }
    buf
}

/// The sum of the bytes of `buf`.
pub fn sum_bytes(buf: &[u8]) -> (total: u64)
    requires
        255 * buf@.len() <= u64::MAX,
    ensures
        total == byte_sum(buf@),
{
    let mut total: u64 = 0;
    let mut i: usize = 0;
    while i < buf.len()
        invariant
            i <= buf@.len(),
            255 * buf@.len() <= u64::MAX,
            total == byte_sum(buf@.take(i as int)),
        decreases buf@.len() - i,
    {
        proof {
            assert(buf@.take(i + 1).drop_last() =~= buf@.take(i as int));
            lemma_byte_sum_bound(buf@.take(i as int));
        }
        total = total + buf[i] as u64;
        i = i + 1;
    }
    assert(buf@.take(buf@.len() as int) =~= buf@);
    total
}

/// The streaming workload: the sum of the bytes of the buffer that cycles
/// through the request.
pub fn stream_sum(input: &[u8]) -> (total: u64)
    requires
        input@.len() > 0,
    ensures
        total == stream_sum_of(input@),
{
    let buf = fill_cyclic(input);
    sum_bytes(buf.as_slice())
}

/// The eight bytes that the streaming guest writes back: the sum, little-endian.
pub fn stream_reply(input: &[u8]) -> (r: Vec<u8>)
    requires
        input@.len() > 0,
    ensures
        r@ == u64_le_bytes(stream_sum_of(input@) as u64),
{
    u64_to_le(stream_sum(input))
}

} // verus!
