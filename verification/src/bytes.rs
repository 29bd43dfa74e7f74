//! Big-endian numbers as byte sequences.

use vstd::prelude::*;

verus! {

/// The number a big-endian byte string stands for.
pub open spec fn be_nat(s: Seq<u8>) -> nat
    decreases s.len(),
{
    if s.len() == 0 {
        0
    } else {
        be_nat(s.drop_last()) * 256 + s.last() as nat
    }
}

/// The `n` low bytes of `v`, most significant first.
pub open spec fn be_bytes(v: nat, n: nat) -> Seq<u8>
    decreases n,
{
    if n == 0 {
        Seq::empty()
    } else {
        be_bytes(v / 256, (n - 1) as nat).push((v % 256) as u8)
    }
}

/// 256 to the power of `n`.
pub open spec fn pow256(n: nat) -> nat
    decreases n,
{
    if n == 0 {
        1
    } else {
        256 * pow256((n - 1) as nat)
    }
}

/// `be_bytes(v, n)` has `n` bytes.
pub proof fn lemma_be_bytes_len(v: nat, n: nat)
    ensures
        be_bytes(v, n).len() == n,
    decreases n,
{
    if n > 0 {
        lemma_be_bytes_len(v / 256, (n - 1) as nat);
    }
}

/// A byte string of length `n` stands for a number below `256^n`.
pub proof fn lemma_be_nat_bound(s: Seq<u8>)
    ensures
        be_nat(s) < pow256(s.len()),
    decreases s.len(),
{
    if s.len() > 0 {
        lemma_be_nat_bound(s.drop_last());
    }
}

/// Writing a number that fits and reading it back gives the number.
pub proof fn lemma_be_roundtrip(v: nat, n: nat)
    requires
        v < pow256(n),
    ensures
        be_nat(be_bytes(v, n)) == v,
    decreases n,
{
    if n > 0 {
        lemma_be_roundtrip(v / 256, (n - 1) as nat);
        lemma_be_bytes_len(v / 256, (n - 1) as nat);
        assert(be_bytes(v, n).drop_last() =~= be_bytes(v / 256, (n - 1) as nat));
    }
}

/// Reading a byte string and writing the number back gives the byte string.
pub proof fn lemma_be_bytes_of_nat(s: Seq<u8>)
    ensures
        be_bytes(be_nat(s), s.len()) == s,
    decreases s.len(),
{
    if s.len() > 0 {
        lemma_be_bytes_of_nat(s.drop_last());
        assert(be_nat(s) / 256 == be_nat(s.drop_last()));
        assert(be_nat(s) % 256 == s.last() as nat);
        assert(be_bytes(be_nat(s), s.len()) =~= s);
    } else {
        assert(be_bytes(be_nat(s), s.len()) =~= s);
    }
}

/// The last `n` of `m` big-endian bytes are the `n` low bytes.
pub proof fn lemma_be_bytes_suffix(v: nat, m: nat, n: nat)
    requires
        n <= m,
    ensures
        be_bytes(v, m).subrange(m - n, m as int) == be_bytes(v, n),
    decreases n,
{
    lemma_be_bytes_len(v, m);
    lemma_be_bytes_len(v, n);
    if n > 0 {
        lemma_be_bytes_suffix(v / 256, (m - 1) as nat, (n - 1) as nat);
        lemma_be_bytes_len(v / 256, (m - 1) as nat);
        lemma_be_bytes_len(v / 256, (n - 1) as nat);
        let a = be_bytes(v / 256, (m - 1) as nat);
        assert(be_bytes(v, m).subrange(m - n, m as int) =~= a.subrange(m - n, m - 1).push(
            (v % 256) as u8,
        ));
    }
    assert(be_bytes(v, m).subrange(m - n, m as int) =~= be_bytes(v, n));
}

/// The small powers of 256, spelled out.
pub proof fn lemma_pow256()
    ensures
        pow256(0) == 1,
        pow256(1) == 0x100,
        pow256(2) == 0x1_0000,
        pow256(3) == 0x100_0000,
        pow256(4) == 0x1_0000_0000,
        pow256(8) == 0x1_0000_0000_0000_0000,
{
    reveal_with_fuel(pow256, 9);
}

/// The number a big-endian byte string of at most eight bytes stands for.
pub fn be_value(s: &[u8]) -> (v: u64)
    requires
        s.len() <= 8,
    ensures
        v == be_nat(s@),
{
    let mut v: u64 = 0;
    let mut i: usize = 0;
    while i < s.len()
        invariant
            i <= s.len() <= 8,
            v == be_nat(s@.take(i as int)),
        decreases s.len() - i,
    {
        proof {
            let t = s@.take(i + 1);
            assert(t.drop_last() =~= s@.take(i as int));
            lemma_be_nat_bound(t);
            reveal_with_fuel(pow256, 9);
        }
        v = v * 256 + s[i] as u64;
        i = i + 1;
    }
    proof {
        assert(s@.take(i as int) =~= s@);
    }
    v
}

/// The eight big-endian bytes of `v`.
pub fn be8(v: u64) -> (a: [u8; 8])
    ensures
        a@ == be_bytes(v as nat, 8),
{
    let mut a: [u8; 8] = [0u8; 8];
    let mut x: u64 = v;
    let mut i: usize = 8;
    while i > 0
        invariant
            i <= 8,
            be_bytes(v as nat, 8) == be_bytes(x as nat, i as nat) + a@.subrange(i as int, 8),
        decreases i,
    {
        let ghost before = a@;
        a[i - 1] = (x % 256) as u8;
        proof {
            lemma_be_bytes_len(x as nat / 256, (i - 1) as nat);
            assert(be_bytes(x as nat, i as nat) + before.subrange(i as int, 8) =~= be_bytes(
                x as nat / 256,
                (i - 1) as nat,
            ) + a@.subrange(i - 1, 8));
        }
        x = x / 256;
        i = i - 1;
    }
    proof {
        assert(be_bytes(x as nat, 0) + a@.subrange(0, 8) =~= a@);
    }
    a
}

/// A 32-bit integer, most significant byte first.
pub fn be4(v: u32) -> (a: [u8; 4])
    ensures
        a@ == be_bytes(v as nat, 4),
{
    let w = be8(v as u64);
    proof {
        lemma_be_bytes_suffix(v as nat, 8, 4);
    }
    let a = [w[4], w[5], w[6], w[7]];
    assert(a@ =~= w@.subrange(4, 8));
    a
}

/// Two equal byte strings.
pub fn same_bytes(a: &[u8], b: &[u8]) -> (r: bool)
    ensures
        r == (a@ == b@),
{
    if a.len() != b.len() {
        return false;
    }
    let mut i: usize = 0;
    while i < a.len()
        invariant
            i <= a.len() == b.len(),
            forall|k: int| 0 <= k < i ==> a@[k] == b@[k],
        decreases a.len() - i,
    {
        if a[i] != b[i] {
            return false;
        }
        i = i + 1;
    }
    assert(a@ =~= b@);
    true
}

/// Copy `src` over the start of `dst`.
pub fn copy_into(dst: &mut [u8], src: &[u8])
    requires
        src.len() <= old(dst).len(),
    ensures
        final(dst)@ == src@ + old(dst)@.skip(src.len() as int),
{
    let n: usize = src.len();
    let ghost before = dst@;
    let mut i: usize = 0;
    while i < n
        invariant
            i <= n == src.len() <= dst@.len(),
            dst@.len() == before.len(),
            forall|k: int| 0 <= k < i ==> dst@[k] == src@[k],
            forall|k: int| i <= k < before.len() ==> dst@[k] == before[k],
        decreases n - i,
    {
        dst[i] = src[i];
        i = i + 1;
    }
    assert(dst@ =~= src@ + before.skip(n as int));
}

/// The bytes of a slice, filled up with zeros.
pub fn padded<const N: usize>(s: &[u8]) -> (a: [u8; N])
    requires
        s.len() <= N,
    ensures
        a@ == s@ + Seq::new((N - s.len()) as nat, |i: int| 0u8),
{
    let mut a: [u8; N] = [0u8; N];
    let mut i: usize = 0;
    while i < s.len()
        invariant
            i <= s.len() <= N,
            forall|k: int| 0 <= k < i ==> a@[k] == s@[k],
            forall|k: int| i <= k < N ==> a@[k] == 0,
        decreases s.len() - i,
    {
        a[i] = s[i];
        i += 1;
    }
    assert(a@ =~= s@ + Seq::new((N - s.len()) as nat, |i: int| 0u8));
    a
}

} // verus!
