//! Byte strings and the numbers they denote.
use vstd::prelude::*;

verus! {

/// The number that a byte string denotes when read big-endian.
pub open spec fn be_nat(s: Seq<u8>) -> nat
    decreases s.len(),
{
    if s.len() == 0 {
        0
    } else {
        be_nat(s.drop_last()) * 256 + s.last() as nat
    }
}

/// The number that a byte string denotes when read little-endian.
pub open spec fn le_nat(s: Seq<u8>) -> nat {
    be_nat(s.reverse())
}

/// A byte string brought to `width` bytes: zeros are put in front of a shorter
/// one, and of a longer one the last `width` bytes are kept.
pub open spec fn pad_left(s: Seq<u8>, width: nat) -> Seq<u8> {
    if s.len() >= width {
        s.subrange(s.len() - width, s.len() as int)
    } else {
        Seq::new((width - s.len()) as nat, |i: int| 0u8) + s
    }
}

/// Appending a byte multiplies the number by 256 and adds the byte.
pub proof fn lemma_be_nat_push(s: Seq<u8>, b: u8)
    ensures
        be_nat(s.push(b)) == be_nat(s) * 256 + b as nat,
{
    assert(s.push(b).drop_last() =~= s);
}

/// The `k`-th power of 256.
pub open spec fn pow256(k: nat) -> nat
    decreases k,
{
    if k == 0 {
        1
    } else {
        256 * pow256((k - 1) as nat)
    }
}

/// A number read big-endian splits at its first byte.
pub proof fn lemma_be_nat_split_first(s: Seq<u8>)
    requires
        s.len() > 0,
    ensures
        be_nat(s) == s[0] as nat * pow256((s.len() - 1) as nat) + be_nat(
            s.subrange(1, s.len() as int),
        ),
    decreases s.len(),
{
    let tail = s.subrange(1, s.len() as int);
    if s.len() == 1 {
        assert(s.drop_last() =~= Seq::<u8>::empty());
        assert(tail =~= Seq::<u8>::empty());
        assert(be_nat(Seq::<u8>::empty()) == 0);
        assert(pow256(0) == 1);
        assert(be_nat(s) == s[0] as nat);
    } else {
        let front = s.drop_last();
        lemma_be_nat_split_first(front);
        assert(front.subrange(1, front.len() as int) =~= tail.drop_last());
        let w = pow256((s.len() - 2) as nat);
        let x = be_nat(tail.drop_last());
        let d = s[0] as nat;
        assert(pow256((s.len() - 1) as nat) == 256 * w);
        assert(be_nat(front) == d * w + x);
        assert(be_nat(s) == be_nat(front) * 256 + s.last() as nat);
        assert(be_nat(tail) == x * 256 + tail.last() as nat);
        assert(tail.last() == s.last());
        assert((d * w + x) * 256 == d * (256 * w) + x * 256) by (nonlinear_arith);
    }
}

/// A byte string denotes a number below 256 to the power of its length.
pub proof fn lemma_be_nat_bound(s: Seq<u8>)
    ensures
        be_nat(s) < pow256(s.len()),
    decreases s.len(),
{
    if s.len() > 0 {
        lemma_be_nat_bound(s.drop_last());
    }
}

/// A zero byte in front does not change the number.
pub proof fn lemma_be_nat_leading_zero(s: Seq<u8>)
    requires
        s.len() > 0,
        s[0] == 0,
    ensures
        be_nat(s) == be_nat(s.subrange(1, s.len() as int)),
{
    lemma_be_nat_split_first(s);
}

/// Zero bytes in front do not change the number.
pub proof fn lemma_be_nat_leading_zeros(zeros: nat, s: Seq<u8>)
    ensures
        be_nat(Seq::new(zeros, |i: int| 0u8) + s) == be_nat(s),
    decreases zeros,
{
    let padded = Seq::new(zeros, |i: int| 0u8) + s;
    if zeros == 0 {
        assert(padded =~= s);
    } else {
        lemma_be_nat_leading_zero(padded);
        let shorter = Seq::new((zeros - 1) as nat, |i: int| 0u8) + s;
        assert(padded.subrange(1, padded.len() as int) =~= shorter);
        lemma_be_nat_leading_zeros((zeros - 1) as nat, s);
    }
}

/// Appending a byte to a number read little-endian adds the byte at the next
/// power of 256.
pub proof fn lemma_le_nat_push(s: Seq<u8>, b: u8)
    ensures
        le_nat(s.push(b)) == le_nat(s) + b as nat * pow256(s.len()),
{
    let r = s.push(b).reverse();
    lemma_be_nat_split_first(r);
    assert(r.subrange(1, r.len() as int) =~= s.reverse());
}

/// Two byte strings of one length that denote the same number are equal.
pub proof fn lemma_be_nat_injective(a: Seq<u8>, b: Seq<u8>)
    requires
        a.len() == b.len(),
        be_nat(a) == be_nat(b),
    ensures
        a == b,
    decreases a.len(),
{
    if a.len() > 0 {
        let x = be_nat(a.drop_last());
        let y = be_nat(b.drop_last());
        assert(x * 256 + a.last() as nat == y * 256 + b.last() as nat);
        assert(x == y && a.last() == b.last());
        lemma_be_nat_injective(a.drop_last(), b.drop_last());
        assert(a =~= a.drop_last().push(a.last()));
        assert(b =~= b.drop_last().push(b.last()));
    } else {
        assert(a =~= b);
    }
}

/// A byte string denotes zero exactly when all its bytes are zero.
pub proof fn lemma_be_nat_zero(s: Seq<u8>)
    ensures
        be_nat(s) == 0 <==> (forall|i: int| 0 <= i < s.len() ==> s[i] == 0),
    decreases s.len(),
{
    if s.len() > 0 {
        lemma_be_nat_zero(s.drop_last());
        let t = s.drop_last();
        assert(forall|i: int| 0 <= i < t.len() ==> t[i] == s[i]);
        if be_nat(s) == 0 {
            assert(be_nat(t) == 0 && s.last() == 0);
            assert forall|i: int| 0 <= i < s.len() implies s[i] == 0 by {
                if i < t.len() {
                    assert(t[i] == 0);
                }
            }
        }
        if forall|i: int| 0 <= i < s.len() ==> s[i] == 0 {
            assert(s.last() == 0);
            assert forall|i: int| 0 <= i < t.len() implies t[i] == 0 by {
                assert(t[i] == s[i]);
            }
        }
    }
}

/// Appends `src` to `dst`.
pub fn append(dst: &mut Vec<u8>, src: &[u8])
    ensures
        final(dst)@ == old(dst)@ + src@,
{
    let mut i: usize = 0;
    while i < src.len()
        invariant
            i <= src.len(),
            dst@ == old(dst)@ + src@.subrange(0, i as int),
        decreases src.len() - i,
    {
        dst.push(src[i]);
        i += 1;
    }
    assert(src@.subrange(0, src.len() as int) =~= src@);
}

/// The bytes of `src` in the opposite order.
pub fn reversed(src: &[u8]) -> (out: Vec<u8>)
    ensures
        out@ == src@.reverse(),
{
    let mut out: Vec<u8> = Vec::new();
    let mut i: usize = src.len();
    while i > 0
        invariant
            i <= src.len(),
            out@.len() == src.len() - i,
            forall|j: int| 0 <= j < out@.len() ==> out@[j] == src@[src.len() - 1 - j],
        decreases i,
    {
        i -= 1;
        out.push(src[i]);
    }
    assert(out@ =~= src@.reverse());
    out
}

/// `src` brought to `width` bytes, as `pad_left` says.
pub fn padded_left(src: &[u8], width: usize) -> (out: Vec<u8>)
    ensures
        out@ == pad_left(src@, width as nat),
{
    let mut out: Vec<u8> = Vec::new();
    let n: usize = src.len();
    if n >= width {
        let mut i: usize = n - width;
        while i < n
            invariant
                n == src.len(),
                width <= n,
                n - width <= i <= n,
                out@ == src@.subrange(n - width, i as int),
            decreases n - i,
        {
            out.push(src[i]);
            i += 1;
        }
    } else {
        let mut k: usize = 0;
        while k < width - n
            invariant
                n < width,
                k <= width - n,
                out@ == Seq::new(k as nat, |i: int| 0u8),
            decreases width - n - k,
        {
            out.push(0u8);
            k += 1;
        }
        append(&mut out, src);
    }
    out
}

/// Whether two byte strings are the same.
pub fn same_bytes(a: &[u8], b: &[u8]) -> (same: bool)
    ensures
        same == (a@ == b@),
{
    if a.len() != b.len() {
        return false;
    }
    let mut i: usize = 0;
    while i < a.len()
        invariant
            a.len() == b.len(),
            i <= a.len(),
            forall|j: int| 0 <= j < i ==> a@[j] == b@[j],
        decreases a.len() - i,
    {
        if a[i] != b[i] {
            return false;
        }
        i += 1;
    }
    assert(a@ =~= b@);
    true
}

} // verus!
