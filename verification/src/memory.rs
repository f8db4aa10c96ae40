//! Little-endian loads from and stores to a linear memory.
use crate::reader::spec_le;
use vstd::arithmetic::div_mod::lemma_mod_breakdown;
use vstd::prelude::*;

verus! {

/// 256 to the `n`.
pub open spec fn pow256(n: nat) -> nat
    decreases n,
{
    if n == 0 {
        1
    } else {
        256 * pow256((n - 1) as nat)
    }
}

/// The `n` little-endian bytes of `v` modulo 256^n.
pub open spec fn le_bytes(v: nat, n: nat) -> Seq<u8>
    decreases n,
{
    if n == 0 {
        Seq::empty()
    } else {
        seq![(v % 256) as u8] + le_bytes(v / 256, (n - 1) as nat)
    }
}

/// `mem` with the `n` little-endian bytes of `v` written from `start` on.
pub open spec fn spec_store(mem: Seq<u8>, start: int, n: nat, v: nat) -> Seq<u8> {
    mem.subrange(0, start) + le_bytes(v, n) + mem.subrange(start + n, mem.len() as int)
}

/// `n` bytes hold a value below 256^n.
pub proof fn lemma_le_bound(data: Seq<u8>, pos: int, n: nat)
    ensures
        spec_le(data, pos, n) < pow256(n),
    decreases n,
{
    if n > 0 {
        lemma_le_bound(data, pos + 1, (n - 1) as nat);
    }
}

/// The value of `n` bytes depends on those bytes alone.
pub proof fn lemma_le_window(a: Seq<u8>, p: int, b: Seq<u8>, q: int, n: nat)
    requires
        forall|k: int| 0 <= k < n ==> #[trigger] a[p + k] == b[q + k],
    ensures
        spec_le(a, p, n) == spec_le(b, q, n),
    decreases n,
{
    if n > 0 {
        assert(a[p + 0] == b[q + 0]);
        assert forall|k: int| 0 <= k < n - 1 implies #[trigger] a[(p + 1) + k] == b[(q + 1) + k] by {
            assert(a[p + (k + 1)] == b[q + (k + 1)]);
        }
        lemma_le_window(a, p + 1, b, q + 1, (n - 1) as nat);
    }
}

/// The little-endian bytes of `v` read back as `v` modulo 256^n.
pub proof fn lemma_le_bytes_value(v: nat, n: nat)
    ensures
        le_bytes(v, n).len() == n,
        spec_le(le_bytes(v, n), 0, n) == v % pow256(n),
    decreases n,
{
    if n == 0 {
        assert(v % 1 == 0);
    } else {
        let s = le_bytes(v, n);
        let t = le_bytes(v / 256, (n - 1) as nat);
        lemma_le_bytes_value(v / 256, (n - 1) as nat);
        assert forall|k: int| 0 <= k < n - 1 implies #[trigger] s[1 + k] == t[0 + k] by {}
        lemma_le_window(s, 1, t, 0, (n - 1) as nat);
        lemma_pow256_pos((n - 1) as nat);
        lemma_mod_breakdown(v as int, 256, pow256((n - 1) as nat) as int);
    }
}

/// 256^n is positive.
pub proof fn lemma_pow256_pos(n: nat)
    ensures
        pow256(n) > 0,
    decreases n,
{
    if n > 0 {
        lemma_pow256_pos((n - 1) as nat);
    }
}

/// A load of `n` bytes from where `n` bytes of `v` were just stored gives
/// back `v` modulo 256^n: memory keeps what was written to it.
pub proof fn lemma_load_after_store(mem: Seq<u8>, start: int, n: nat, v: nat)
    requires
        0 <= start,
        start + n <= mem.len(),
    ensures
        spec_store(mem, start, n, v).len() == mem.len(),
        spec_le(spec_store(mem, start, n, v), start, n) == v % pow256(n),
{
    let m = spec_store(mem, start, n, v);
    let b = le_bytes(v, n);
    lemma_le_bytes_value(v, n);
    assert forall|k: int| 0 <= k < n implies #[trigger] m[start + k] == b[0 + k] by {}
    lemma_le_window(m, start, b, 0, n);
}

/// A store leaves every byte outside the stored range as it was.
pub proof fn lemma_store_elsewhere(mem: Seq<u8>, start: int, n: nat, v: nat, i: int)
    requires
        0 <= start,
        start + n <= mem.len(),
        0 <= i < mem.len(),
        i < start || start + n <= i,
    ensures
        spec_store(mem, start, n, v)[i] == mem[i],
{
    lemma_le_bytes_value(v, n);
}

/// Reads the `n` bytes at `start` as a little-endian value.
pub fn load_le(mem: &Vec<u8>, start: usize, n: usize) -> (r: u64)
    requires
        n <= 8,
        start + n <= mem.len(),
    ensures
        r == spec_le(mem@, start as int, n as nat),
{
    assert(pow256(8) == 0x1_0000_0000_0000_0000) by {
        reveal_with_fuel(pow256, 9);
    }
    let mut acc: u64 = 0;
    let mut k: usize = n;
    while k > 0
        invariant
            k <= n <= 8,
            start + n <= mem.len(),
            acc == spec_le(mem@, start + k, (n - k) as nat),
            pow256(8) == 0x1_0000_0000_0000_0000,
        decreases k,
    {
        k = k - 1;
        proof {
            lemma_le_bound(mem@, start + k + 1, (n - k - 1) as nat);
            lemma_pow256_mono((n - k - 1) as nat, 7);
        }
        acc = acc * 256 + mem[start + k] as u64;
    }
    acc
}

/// 256^m is at most 256^n for m <= n.
pub proof fn lemma_pow256_mono(m: nat, n: nat)
    requires
        m <= n,
    ensures
        pow256(m) <= pow256(n),
    decreases n,
{
    if m < n {
        lemma_pow256_mono(m, (n - 1) as nat);
    }
}

/// Writes the `n` little-endian bytes of `v` from `start` on.
pub fn store_le(mem: &mut Vec<u8>, start: usize, n: usize, v: u64)
    requires
        n <= 8,
        start + n <= old(mem).len(),
    ensures
        final(mem)@ == spec_store(old(mem)@, start as int, n as nat, v as nat),
{
    let ghost m0 = mem@;
    let ghost len = mem@.len();
    let _ = mem.len();
    let mut x: u64 = v;
    let mut k: usize = 0;
    proof {
        assert(le_bytes(v as nat, n as nat) =~= mem@.subrange(start as int, start as int) + le_bytes(
            x as nat,
            (n - k) as nat,
        ));
    }
    while k < n
        invariant
            k <= n <= 8,
            start + n <= len <= usize::MAX,
            mem@.len() == len,
            m0.len() == len,
            mem@.subrange(0, start as int) == m0.subrange(0, start as int),
            mem@.subrange(start + k, len as int) == m0.subrange(start + k, len as int),
            le_bytes(v as nat, n as nat) == mem@.subrange(start as int, start + k) + le_bytes(
                x as nat,
                (n - k) as nat,
            ),
        decreases n - k,
    {
        let ghost before = mem@;
        let b = (x % 256) as u8;
        mem.set(start + k, b);
        proof {
            assert(mem@.subrange(0, start as int) =~= before.subrange(0, start as int));
            assert(mem@.subrange(start + k + 1, len as int) =~= before.subrange(
                start + k + 1,
                len as int,
            ));
            assert(before.subrange(start + k + 1, len as int) =~= before.subrange(
                start + k,
                len as int,
            ).subrange(1, len - (start + k)));
            assert(m0.subrange(start + k + 1, len as int) =~= m0.subrange(
                start + k,
                len as int,
            ).subrange(1, len - (start + k)));
            assert(mem@.subrange(start as int, start + k + 1) =~= before.subrange(
                start as int,
                start + k,
            ).push(b));
            assert(le_bytes(x as nat, (n - k) as nat) =~= seq![b] + le_bytes(
                (x / 256) as nat,
                (n - k - 1) as nat,
            ));
            assert(le_bytes(v as nat, n as nat) =~= mem@.subrange(start as int, start + k + 1)
                + le_bytes((x / 256) as nat, (n - k - 1) as nat));
        }
        x = x / 256;
        k = k + 1;
    }
    proof {
        assert(mem@ =~= m0.subrange(0, start as int) + mem@.subrange(start as int, start + n)
            + m0.subrange(start + n, len as int));
    }
}

} // verus!
