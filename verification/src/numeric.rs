//! Multi-byte integer values read from the front of a byte window, under
//! both byte orders.

use vstd::prelude::*;

verus! {

/// 256 raised to `k`: the number of values `k` bytes can hold.
pub open spec fn pow256(k: nat) -> int
    decreases k,
{
    if k == 0 {
        1
    } else {
        256 * pow256((k - 1) as nat)
    }
}

/// The little-endian value of a byte sequence: the first byte is the least
/// significant.
pub open spec fn le_val(s: Seq<u8>) -> int
    decreases s.len(),
{
    if s.len() == 0 {
        0
    } else {
        s[0] + 256 * le_val(s.subrange(1, s.len() as int))
    }
}

/// The big-endian value of a byte sequence: the first byte is the most
/// significant.
pub open spec fn be_val(s: Seq<u8>) -> int
    decreases s.len(),
{
    if s.len() == 0 {
        0
    } else {
        be_val(s.subrange(0, s.len() - 1)) * 256 + s[s.len() - 1]
    }
}

pub proof fn lemma_pow256_pos(k: nat)
    ensures
        pow256(k) >= 1,
    decreases k,
{
    if k > 0 {
        lemma_pow256_pos((k - 1) as nat);
    }
}

pub proof fn lemma_pow256_mono(a: nat, b: nat)
    requires
        a <= b,
    ensures
        pow256(a) <= pow256(b),
    decreases b,
{
    if a < b {
        lemma_pow256_mono(a, (b - 1) as nat);
        lemma_pow256_pos((b - 1) as nat);
    }
}

pub proof fn lemma_le_val_bound(s: Seq<u8>)
    ensures
        0 <= le_val(s) < pow256(s.len()),
    decreases s.len(),
{
    if s.len() > 0 {
        lemma_le_val_bound(s.subrange(1, s.len() as int));
    }
}

pub proof fn lemma_be_val_bound(s: Seq<u8>)
    ensures
        0 <= be_val(s) < pow256(s.len()),
    decreases s.len(),
{
    if s.len() > 0 {
        lemma_be_val_bound(s.subrange(0, s.len() - 1));
    }
}

/// Reads the first `n` bytes of `data` as a little-endian unsigned value.
pub fn le_bytes_val(data: &[u8], n: usize) -> (v: u128)
    requires
        n <= data@.len(),
        n <= 16,
    ensures
        v as int == le_val(data@.take(n as int)),
{
    let mut v: u128 = 0;
    let mut i: usize = n;
    while i > 0
        invariant
            i <= n <= data@.len(),
            n <= 16,
            v as int == le_val(data@.subrange(i as int, n as int)),
        decreases i,
    {
        i = i - 1;
        proof {
            let tail = data@.subrange(i as int + 1, n as int);
            lemma_le_val_bound(tail);
            lemma_pow256_mono(tail.len(), 15);
            assert(pow256(15) == 0x1000000000000000000000000000000) by {
                reveal_with_fuel(pow256, 16);
            }
            assert(data@.subrange(i as int, n as int)[0] == data@[i as int]);
            assert(data@.subrange(i as int, n as int).subrange(
                1,
                data@.subrange(i as int, n as int).len() as int,
            ) =~= tail);
        }
        v = v * 256 + (data[i] as u128);
    }
    proof {
        assert(data@.subrange(0, n as int) =~= data@.take(n as int));
    }
    v
}

/// Reads the first `n` bytes of `data` as a big-endian unsigned value.
pub fn be_bytes_val(data: &[u8], n: usize) -> (v: u128)
    requires
        n <= data@.len(),
        n <= 16,
    ensures
        v as int == be_val(data@.take(n as int)),
{
    let mut v: u128 = 0;
    let mut i: usize = 0;
    while i < n
        invariant
            i <= n <= data@.len(),
            n <= 16,
            v as int == be_val(data@.take(i as int)),
        decreases n - i,
    {
        proof {
            let done = data@.take(i as int);
            lemma_be_val_bound(done);
            lemma_pow256_mono(done.len(), 15);
            assert(pow256(15) == 0x1000000000000000000000000000000) by {
                reveal_with_fuel(pow256, 16);
            }
            let next = data@.take(i as int + 1);
            assert(next.subrange(0, next.len() - 1) =~= done);
            assert(next[next.len() - 1] == data@[i as int]);
        }
        v = v * 256 + (data[i] as u128);
        i = i + 1;
    }
    v
}

} // verus!
