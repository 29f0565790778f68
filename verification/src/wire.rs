//! Little-endian integer encoding and decoding over byte sequences.

use vstd::prelude::*;

verus! {

/// `256` raised to the power `n`.
pub open spec fn pow256(n: nat) -> nat
    decreases n,
{
    if n == 0 {
        1
    } else {
        256 * pow256((n - 1) as nat)
    }
}

/// The `n` low-order bytes of `v`, least significant first.
pub open spec fn le_bytes(v: nat, n: nat) -> Seq<u8>
    decreases n,
{
    if n == 0 {
        Seq::empty()
    } else {
        seq![(v % 256) as u8] + le_bytes(v / 256, (n - 1) as nat)
    }
}

/// The number whose little-endian encoding is `s`.
pub open spec fn le_value(s: Seq<u8>) -> nat
    decreases s.len(),
{
    if s.len() == 0 {
        0
    } else {
        s[0] as nat + 256 * le_value(s.drop_first())
    }
}

/// `n` zero bytes.
pub open spec fn zeros(n: nat) -> Seq<u8> {
    Seq::new(n, |i: int| 0u8)
}

/// The `n`-byte field of `s` that starts at `off`, read as a little-endian number.
pub open spec fn field(s: Seq<u8>, off: int, n: int) -> nat {
    le_value(s.subrange(off, off + n))
}

pub proof fn lemma_le_bytes_len(v: nat, n: nat)
    ensures
        le_bytes(v, n).len() == n,
    decreases n,
{
    if n > 0 {
        lemma_le_bytes_len(v / 256, (n - 1) as nat);
    }
}

pub proof fn lemma_pow256_pos(n: nat)
    ensures
        pow256(n) >= 1,
    decreases n,
{
    if n > 0 {
        lemma_pow256_pos((n - 1) as nat);
    }
}

pub proof fn lemma_le_value_bound(s: Seq<u8>)
    ensures
        le_value(s) < pow256(s.len()),
    decreases s.len(),
{
    if s.len() > 0 {
        lemma_le_value_bound(s.drop_first());
        assert(pow256(s.len()) == 256 * pow256(s.drop_first().len()));
    }
}

/// Decoding the little-endian encoding of `v` in `n` bytes gives back `v`
/// whenever `v` fits in `n` bytes.
pub proof fn lemma_le_roundtrip(v: nat, n: nat)
    requires
        v < pow256(n),
    ensures
        le_value(le_bytes(v, n)) == v,
    decreases n,
{
    if n > 0 {
        let rest = le_bytes(v / 256, (n - 1) as nat);
        assert(v / 256 < pow256((n - 1) as nat)) by (nonlinear_arith)
            requires
                v < 256 * pow256((n - 1) as nat),
        ;
        lemma_le_roundtrip(v / 256, (n - 1) as nat);
        assert(le_bytes(v, n).drop_first() =~= rest);
    }
}

/// Appends the `n` low-order bytes of `v`, least significant first.
pub fn push_le(out: &mut Vec<u8>, v: u64, n: usize)
    requires
        n <= 8,
    ensures
        final(out)@ == old(out)@ + le_bytes(v as nat, n as nat),
{
    let ghost start = old(out)@;
    let mut x: u64 = v;
    let mut i: usize = 0;
    while i < n
        invariant
            i <= n,
            out@ + le_bytes(x as nat, (n - i) as nat) == start + le_bytes(v as nat, n as nat),
        decreases n - i,
    {
        let ghost before = out@;
        out.push((x % 256) as u8);
        assert(le_bytes(x as nat, (n - i) as nat) =~= seq![(x % 256) as u8] + le_bytes(
            (x / 256) as nat,
            (n - i - 1) as nat,
        ));
        assert(out@ + le_bytes((x / 256) as nat, (n - i - 1) as nat) =~= before + le_bytes(
            x as nat,
            (n - i) as nat,
        ));
        x = x / 256;
        i = i + 1;
    }
    assert(le_bytes(x as nat, 0) =~= Seq::<u8>::empty());
    assert(out@ =~= start + le_bytes(v as nat, n as nat));
}

/// Appends `n` zero bytes.
pub fn push_zeros(out: &mut Vec<u8>, n: usize)
    ensures
        final(out)@ == old(out)@ + zeros(n as nat),
{
    let ghost start = old(out)@;
    let mut i: usize = 0;
    while i < n
        invariant
            i <= n,
            out@ =~= start + zeros(i as nat),
        decreases n - i,
    {
        out.push(0u8);
        i = i + 1;
    }
}

/// Reads the `n`-byte little-endian field of `bytes` that starts at `off`.
pub fn read_le(bytes: &[u8], off: usize, n: usize) -> (r: u64)
    requires
        n <= 8,
        off + n <= bytes@.len(),
    ensures
        r as nat == field(bytes@, off as int, n as int),
        n <= 2 ==> r <= 0xffff,
        n <= 4 ==> r <= 0xffff_ffff,
{
    let mut acc: u64 = 0;
    let mut k: usize = n;
    while k > 0
        invariant
            k <= n,
            n <= 8,
            off + n <= bytes@.len(),
            bytes@.len() == bytes.len(),
            acc as nat == le_value(bytes@.subrange(off + k, off + n)),
        decreases k,
    {
        let ghost tail = bytes@.subrange(off + k, off + n);
        let ghost whole = bytes@.subrange(off + k - 1, off + n);
        assert(whole.drop_first() =~= tail);
        proof {
            lemma_le_value_bound(tail);
            lemma_pow_le_8(tail.len());
        }
        let b = bytes[off + (k - 1)];
        assert(acc * 256 + b < 0x1_0000_0000_0000_0000) by (nonlinear_arith)
            requires
                acc < pow256(tail.len()),
                pow256(tail.len()) * 256 <= 0x1_0000_0000_0000_0000,
                b < 256,
        ;
        acc = acc * 256 + b as u64;
        k = k - 1;
    }
    assert(bytes@.subrange(off + 0, off + n) =~= bytes@.subrange(off as int, off + n));
    proof {
        lemma_le_value_bound(bytes@.subrange(off as int, off + n));
        reveal_with_fuel(pow256, 5);
        if n <= 2 {
            lemma_pow256_mono(n as nat, 2);
        }
        if n <= 4 {
            lemma_pow256_mono(n as nat, 4);
        }
    }
    acc
}

pub proof fn lemma_pow256_mono(a: nat, b: nat)
    requires
        a <= b,
    ensures
        pow256(a) <= pow256(b),
    decreases b,
{
    if a < b {
        lemma_pow256_mono(a, (b - 1) as nat);
        lemma_pow256_pos((b - 1) as nat);
    }
}

proof fn lemma_pow_le_8(n: nat)
    requires
        n < 8,
    ensures
        pow256(n) * 256 <= 0x1_0000_0000_0000_0000,
{
    reveal_with_fuel(pow256, 9);
    if n == 0 {
    } else if n == 1 {
    } else if n == 2 {
    } else if n == 3 {
    } else if n == 4 {
    } else if n == 5 {
    } else if n == 6 {
    } else {
    }
}

} // verus!

verus! {

/// Overwrites the `n`-byte field of `buf` at `off` with the `n` low-order
/// bytes of `v`, least significant first.
pub fn write_le(buf: &mut Vec<u8>, off: usize, v: u64, n: usize)
    requires
        n <= 8,
        off + n <= old(buf)@.len(),
    ensures
        final(buf)@ == old(buf)@.subrange(0, off as int) + le_bytes(v as nat, n as nat) + old(
            buf,
        )@.subrange(off + n, old(buf)@.len() as int),
{
    let ghost start = old(buf)@;
    let mut x: u64 = v;
    let mut i: usize = 0;
    while i < n
        invariant
            i <= n,
            n <= 8,
            off + n <= start.len(),
            buf@.len() == start.len(),
            buf@.len() == buf.len(),
            buf@.subrange(0, off + i) + le_bytes(x as nat, (n - i) as nat) =~= start.subrange(
                0,
                off as int,
            ) + le_bytes(v as nat, n as nat),
            buf@.subrange(off + n, start.len() as int) =~= start.subrange(
                off + n,
                start.len() as int,
            ),
            buf@.subrange(off + i, off + n) =~= start.subrange(off + i, off + n),
        decreases n - i,
    {
        let ghost before = buf@;
        assert forall|j: int| off + i + 1 <= j < off + n implies before[j] == start[j] by {
            assert(before.subrange(off + i, off + n)[j - off - i] == start.subrange(
                off + i,
                off + n,
            )[j - off - i]);
        }
        buf.set(off + i, (x % 256) as u8);
        assert(le_bytes(x as nat, (n - i) as nat) =~= seq![(x % 256) as u8] + le_bytes(
            (x / 256) as nat,
            (n - i - 1) as nat,
        ));
        assert(buf@.subrange(0, off + i + 1) =~= before.subrange(0, off + i).push(
            (x % 256) as u8,
        ));
        assert(buf@.subrange(off + i + 1, off + n) =~= before.subrange(off + i + 1, off + n));
        assert(buf@.subrange(off + n, start.len() as int) =~= before.subrange(
            off + n,
            start.len() as int,
        ));
        x = x / 256;
        i = i + 1;
    }
    assert(le_bytes(x as nat, 0) =~= Seq::<u8>::empty());
    assert(buf@ =~= buf@.subrange(0, off + n) + buf@.subrange(off + n, start.len() as int));
}

} // verus!

verus! {

/// The byte counts of the field widths used by the messages.
pub proof fn lemma_pow256_values()
    ensures
        pow256(2) == 0x1_0000,
        pow256(4) == 0x1_0000_0000,
        pow256(8) == 0x1_0000_0000_0000_0000,
{
    reveal_with_fuel(pow256, 9);
}

/// A field written as the little-endian encoding of `v` reads back as `v`,
/// whatever precedes and follows it.
pub proof fn lemma_field_at(a: Seq<u8>, v: nat, n: nat, c: Seq<u8>)
    requires
        v < pow256(n),
    ensures
        field(a + le_bytes(v, n) + c, a.len() as int, n as int) == v,
{
    lemma_le_bytes_len(v, n);
    assert((a + le_bytes(v, n) + c).subrange(a.len() as int, a.len() + n as int) =~= le_bytes(v, n));
    lemma_le_roundtrip(v, n);
}

} // verus!

verus! {

/// The little-endian encoding puts the least significant byte first: byte
/// `i` of the `n`-byte encoding of `v` is digit `i` of `v` in base 256.
pub proof fn lemma_le_bytes_digits(v: nat, n: nat, i: nat)
    requires
        i < n,
    ensures
        le_bytes(v, n)[i as int] == ((v / pow256(i)) % 256) as u8,
    decreases i,
{
    lemma_le_bytes_len(v / 256, (n - 1) as nat);
    let rest = le_bytes(v / 256, (n - 1) as nat);
    assert(le_bytes(v, n) == seq![(v % 256) as u8] + rest);
    if i > 0 {
        lemma_le_bytes_digits(v / 256, (n - 1) as nat, (i - 1) as nat);
        assert(le_bytes(v, n)[i as int] == rest[i - 1]);
        let q = pow256((i - 1) as nat);
        lemma_pow256_pos((i - 1) as nat);
        vstd::arithmetic::div_mod::lemma_div_denominator(v as int, 256, q as int);
        assert(pow256(i) == 256 * q);
        assert((v / 256) / q == v / pow256(i));
    } else {
        assert(pow256(0) == 1);
        assert(v / 1 == v);
    }
}

} // verus!
