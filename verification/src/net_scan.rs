//! The packet-scan workload: count the places where a request line marker
//! (`HTTP`, `GET ` or `POST`) starts in the request.

use vstd::prelude::*;
use crate::encoding::{u32_le_bytes, u32_to_le};

verus! {

/// Whether four consecutive bytes spell `HTTP`, `GET ` or `POST` (ASCII).
pub open spec fn is_marker(a: u8, b: u8, c: u8, d: u8) -> bool {
    // H T T P
    ||| (a == 72 && b == 84 && c == 84 && d == 80)
    // G E T space
    ||| (a == 71 && b == 69 && c == 84 && d == 32)
    // P O S T
    ||| (a == 80 && b == 79 && c == 83 && d == 84)
}

/// Whether a marker starts at position `i` of `s`.
pub open spec fn marker_at(s: Seq<u8>, i: int) -> bool {
    0 <= i && i + 4 <= s.len() && is_marker(s[i], s[i + 1], s[i + 2], s[i + 3])
}

/// The number of four-byte windows of `s` that are markers.
pub open spec fn marker_count(s: Seq<u8>) -> nat
    decreases s.len(),
{
    if s.len() < 4 {
        0
    } else {
        marker_count(s.drop_last()) + if marker_at(s, s.len() - 4) {
            1nat
        } else {
            0nat
        }
    }
}

/// A sequence of `n` bytes holds at most `n - 3` markers.
pub proof fn lemma_marker_count_bound(s: Seq<u8>)
    ensures
        s.len() < 4 ==> marker_count(s) == 0,
        s.len() >= 4 ==> marker_count(s) <= s.len() - 3,
    decreases s.len(),
{
    if s.len() >= 4 {
        lemma_marker_count_bound(s.drop_last());
    }
}

/// Every marker found in a piece is found in the whole: the count of a
/// concatenation is at least the sum of the counts of its pieces.
pub proof fn lemma_marker_count_concat(a: Seq<u8>, b: Seq<u8>)
    ensures
        marker_count(a + b) >= marker_count(a) + marker_count(b),
    decreases b.len(),
{
    if b.len() == 0 {
        assert(a + b =~= a);
    } else {
        lemma_marker_count_concat(a, b.drop_last());
        assert((a + b).drop_last() =~= a + b.drop_last());
        if b.len() >= 4 {
            let n = (a + b).len() - 4;
            assert(b.len() - 4 + a.len() == n);
            if marker_at(b, b.len() - 4) {
                assert((a + b)[n] == b[b.len() - 4]);
                assert((a + b)[n + 1] == b[b.len() - 3]);
                assert((a + b)[n + 2] == b[b.len() - 2]);
                assert((a + b)[n + 3] == b[b.len() - 1]);
            }
        }
    }
}

/// The three request-line markers, as ASCII bytes.
pub open spec fn ascii(w: Seq<char>) -> Seq<u8> {
    Seq::new(w.len(), |i: int| w[i] as u8)
}

/// A window is a marker exactly when its bytes are `HTTP`, `GET ` or `POST`.
pub proof fn lemma_marker_words(a: u8, b: u8, c: u8, d: u8)
    ensures
        is_marker(a, b, c, d) <==> {
            ||| seq![a, b, c, d] == ascii(seq!['H', 'T', 'T', 'P'])
            ||| seq![a, b, c, d] == ascii(seq!['G', 'E', 'T', ' '])
            ||| seq![a, b, c, d] == ascii(seq!['P', 'O', 'S', 'T'])
        },
{
    let w = seq![a, b, c, d];
    let h = ascii(seq!['H', 'T', 'T', 'P']);
    let g = ascii(seq!['G', 'E', 'T', ' ']);
    let p = ascii(seq!['P', 'O', 'S', 'T']);
    assert(h =~= seq![72u8, 84, 84, 80]);
    assert(g =~= seq![71u8, 69, 84, 32]);
    assert(p =~= seq![80u8, 79, 83, 84]);
    if w == h {
        assert(w[0] == h[0] && w[1] == h[1] && w[2] == h[2] && w[3] == h[3]);
    }
    if w == g {
        assert(w[0] == g[0] && w[1] == g[1] && w[2] == g[2] && w[3] == g[3]);
    }
    if w == p {
        assert(w[0] == p[0] && w[1] == p[1] && w[2] == p[2] && w[3] == p[3]);
    }
    if is_marker(a, b, c, d) {
        if a == 72 {
            assert(w =~= h);
        } else if a == 71 {
            assert(w =~= g);
        } else {
            assert(w =~= p);
        }
    }
}

/// Whether the window of `s` at `i` is one of the three marker words.
pub open spec fn window_is_marker_word(s: Seq<u8>, i: int) -> bool {
    0 <= i && i + 4 <= s.len() && {
        let w = s.subrange(i, i + 4);
        ||| w == ascii(seq!['H', 'T', 'T', 'P'])
        ||| w == ascii(seq!['G', 'E', 'T', ' '])
        ||| w == ascii(seq!['P', 'O', 'S', 'T'])
    }
}

/// Appending a byte adds one to the count exactly when the last four bytes then
/// spell `HTTP`, `GET ` or `POST`; and a sequence with no such window counts none.
pub proof fn lemma_marker_count_push(s: Seq<u8>, x: u8)
    ensures
        marker_count(s.push(x)) == marker_count(s) + if window_is_marker_word(
            s.push(x),
            s.len() - 3,
        ) {
            1nat
        } else {
            0nat
        },
{
    let t = s.push(x);
    assert(t.drop_last() =~= s);
    if t.len() >= 4 {
        let i = t.len() - 4;
        lemma_marker_words(t[i], t[i + 1], t[i + 2], t[i + 3]);
        assert(t.subrange(i, i + 4) =~= seq![t[i], t[i + 1], t[i + 2], t[i + 3]]);
    }
}

/// A sequence with no window spelling `HTTP`, `GET ` or `POST` counts no marker.
pub proof fn lemma_no_marker_word_counts_zero(s: Seq<u8>)
    requires
        forall|i: int| !window_is_marker_word(s, i),
    ensures
        marker_count(s) == 0,
    decreases s.len(),
{
    if s.len() > 0 {
        let t = s.drop_last();
        assert forall|i: int| !window_is_marker_word(t, i) by {
            if window_is_marker_word(t, i) {
                assert(t.subrange(i, i + 4) =~= s.subrange(i, i + 4));
                assert(window_is_marker_word(s, i));
            }
        }
        lemma_no_marker_word_counts_zero(t);
        assert(t.push(s.last()) =~= s);
        lemma_marker_count_push(t, s.last());
    }
}

/// The number of markers in the request.
pub fn count_markers(data: &[u8]) -> (count: u32)
    requires
        data@.len() <= u32::MAX,
    ensures
        count == marker_count(data@),
{
    let n = data.len();
    if n < 4 {
        return 0;
    }
    let mut count: u32 = 0;
    let mut i: usize = 0;
    while i < n - 3
        invariant
            n == data@.len(),
            4 <= n <= u32::MAX,
            i + 3 <= n,
            count == marker_count(data@.take(i + 3)),
        decreases n - i,
    {
        let a = data[i];
        let b = data[i + 1];
        let c = data[i + 2];
        let d = data[i + 3];
        proof {
            let t = data@.take(i + 4);
            assert(t.drop_last() =~= data@.take(i + 3));
            lemma_marker_count_bound(data@.take(i + 3));
        }
        if (a == 72 && b == 84 && c == 84 && d == 80) || (a == 71 && b == 69 && c == 84 && d == 32)
            || (a == 80 && b == 79 && c == 83 && d == 84) {
            count = count + 1;
        }
        i = i + 1;
    }
    assert(data@.take(n as int) =~= data@);
    count
}

/// The four bytes that the scanning guest writes back: the count, little-endian.
pub fn count_reply(data: &[u8]) -> (r: Vec<u8>)
    requires
        data@.len() <= u32::MAX,
    ensures
        r@ == u32_le_bytes(marker_count(data@) as u32),
{
    u32_to_le(count_markers(data))
}

} // verus!
