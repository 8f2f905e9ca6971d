//! The random-access memory workload: walk a large table at positions scattered
//! by a multiplicative hash of the request bytes, bumping a byte counter at each.

use vstd::prelude::*;

verus! {

/// The number of byte counters in the table.
pub const TABLE_SIZE: usize = 8 * 1024 * 1024;

/// The multiplier (Knuth's 2654435761) that scatters a byte over the table.
pub const SCATTER_MULTIPLIER: u64 = 2_654_435_761;

/// The table position that byte `b` bumps: `b * SCATTER_MULTIPLIER` modulo the
/// table size. (The table size divides 2^32, so the result is the same whether the
/// product is taken in 32 or 64 bits.)
pub open spec fn slot(b: u8) -> nat {
    (b as nat * SCATTER_MULTIPLIER as nat) % (TABLE_SIZE as nat)
}

/// How many of the first `n` steps bump position `j`, where step `i` uses request
/// byte `i % |s|`.
pub open spec fn hits(s: Seq<u8>, n: nat, j: nat) -> nat
    recommends
        s.len() > 0,
    decreases n,
{
    if n == 0 {
        0
    } else {
        hits(s, (n - 1) as nat, j) + if slot(s[(n - 1) as int % (s.len() as int)]) == j {
            1nat
        } else {
            0nat
        }
    }
}

/// The table after the workload ran on request `s`: each counter holds its number
/// of bumps modulo 256.
pub open spec fn table_of(s: Seq<u8>) -> Seq<u8>
    recommends
        s.len() > 0,
{
    Seq::new(TABLE_SIZE as nat, |j: int| (hits(s, TABLE_SIZE as nat, j as nat) % 256) as u8)
}

/// A position is only ever bumped if some byte of the request scatters to it.
pub proof fn lemma_hit_has_source(s: Seq<u8>, n: nat, j: nat)
    requires
        s.len() > 0,
        hits(s, n, j) > 0,
    ensures
        exists|k: int| 0 <= k < s.len() && slot(#[trigger] s[k]) == j,
    decreases n,
{
    let m = (n - 1) as nat;
    let k = m as int % (s.len() as int);
    if slot(s[k]) == j {
        assert(0 <= k < s.len());
    } else {
        lemma_hit_has_source(s, m, j);
    }
}

/// A counter of the finished table that is not zero belongs to a position that
/// some byte of the request scatters to.
pub proof fn lemma_table_nonzero_has_source(s: Seq<u8>, j: int)
    requires
        s.len() > 0,
        0 <= j < TABLE_SIZE,
        table_of(s)[j] != 0,
    ensures
        exists|k: int| 0 <= k < s.len() && slot(#[trigger] s[k]) == j,
{
    lemma_hit_has_source(s, TABLE_SIZE as nat, j as nat);
}

/// How many of the steps `0 .. n` use request position `k` of a request of `len`
/// bytes, when step `i` uses position `i % len`.
pub open spec fn uses(n: nat, len: nat, k: nat) -> nat
    recommends
        len > 0,
{
    n / len + if k < n % len {
        1nat
    } else {
        0nat
    }
}

/// Every byte of the request is used: when `k` is the only request position whose
/// byte scatters to table position `j`, the steps that bump `j` are exactly the
/// steps that use position `k`, `n / |s|` of them plus one more when
/// `k < n % |s|`.
pub proof fn lemma_hits_of_unique_source(s: Seq<u8>, n: nat, j: nat, k: int)
    requires
        s.len() > 0,
        0 <= k < s.len(),
        slot(s[k]) == j,
        forall|k2: int| 0 <= k2 < s.len() && k2 != k ==> slot(#[trigger] s[k2]) != j,
    ensures
        hits(s, n, j) == uses(n, s.len(), k as nat),
    decreases n,
{
    let len = s.len() as int;
    if n == 0 {
    } else {
        let m = (n - 1) as nat;
        lemma_hits_of_unique_source(s, m, j, k);
        let q = m as int / len;
        let r = m as int % len;
        vstd::arithmetic::div_mod::lemma_fundamental_div_mod(m as int, len);
        assert(m as int == q * len + r) by {
            vstd::arithmetic::mul::lemma_mul_is_commutative(q, len);
        }
        assert(0 <= r < len);
        assert((slot(s[r]) == j) <==> (r == k));
        if r + 1 < len {
            vstd::arithmetic::div_mod::lemma_fundamental_div_mod_converse(n as int, len, q, r + 1);
        } else {
            assert(n as int == (q + 1) * len + 0) by (nonlinear_arith)
                requires
                    n as int == m as int + 1,
                    m as int == q * len + r,
                    r + 1 == len,
            ;
            vstd::arithmetic::div_mod::lemma_fundamental_div_mod_converse(n as int, len, q + 1, 0);
        }
    }
}

/// With a single byte scattering to position `j`, the finished table holds at `j`
/// the number of steps that used that byte, modulo 256.
pub proof fn lemma_table_of_unique_source(s: Seq<u8>, j: int, k: int)
    requires
        s.len() > 0,
        0 <= j < TABLE_SIZE,
        0 <= k < s.len(),
        slot(s[k]) == j,
        forall|k2: int| 0 <= k2 < s.len() && k2 != k ==> slot(#[trigger] s[k2]) != j,
    ensures
        table_of(s)[j] == (uses(8_388_608, s.len(), k as nat) % 256) as u8,
{
    lemma_hits_of_unique_source(s, TABLE_SIZE as nat, j as nat, k);
}

/// The table position of byte `b`.
pub fn scatter_slot(b: u8) -> (j: usize)
    ensures
        j == slot(b),
        j < TABLE_SIZE,
{
    (((b as u64) * SCATTER_MULTIPLIER) % (TABLE_SIZE as u64)) as usize
}

/// The random-access workload: the table of counters after `TABLE_SIZE` bumps,
/// step `i` bumping the position of request byte `i % |input|`.
pub fn scatter(input: &[u8]) -> (table: Vec<u8>)
    requires
        input@.len() > 0,
    ensures
        table@ == table_of(input@),
{
    let n = input.len();
    let mut table: Vec<u8> = Vec::with_capacity(TABLE_SIZE);
    let mut j: usize = 0;
    while j < TABLE_SIZE
        invariant
            j <= TABLE_SIZE,
            table@.len() == j,
            forall|k: int| 0 <= k < j ==> table@[k] == 0,
        decreases TABLE_SIZE - j,
    {
        table.push(0);
        j = j + 1;
    }
    let mut i: usize = 0;
    while i < TABLE_SIZE
        invariant
            n == input@.len(),
            n > 0,
            i <= TABLE_SIZE,
            table@.len() == TABLE_SIZE,
            forall|k: int|
                0 <= k < TABLE_SIZE ==> table@[k] == #[trigger] hits(input@, i as nat, k as nat)
                    % 256,
        decreases TABLE_SIZE - i,
    {
        let idx = scatter_slot(input[i % n]);
        let old_count = table[idx];
        table.set(idx, old_count.wrapping_add(1));
        proof {
            assert forall|k: int| 0 <= k < TABLE_SIZE implies table@[k] == #[trigger] hits(
                input@,
                (i + 1) as nat,
                k as nat,
            ) % 256 by {
                let h = hits(input@, i as nat, k as nat);
                if k == idx {
                    assert(hits(input@, (i + 1) as nat, k as nat) == h + 1);
                    assert((h % 256 + 1) % 256 == (h + 1) % 256) by {
                        vstd::arithmetic::div_mod::lemma_add_mod_noop(h as int, 1, 256);
                    }
                } else {
                    assert(hits(input@, (i + 1) as nat, k as nat) == h);
                }
            }
        }
        i = i + 1;
    }
    assert(table@ =~= table_of(input@));
    table
}

} // verus!
