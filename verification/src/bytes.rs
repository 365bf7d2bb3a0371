//! Big-endian byte sequences as unsigned integers.
//!
//! Balances, nonces and transaction fields are 256-bit quantities kept as
//! fixed-width big-endian byte strings; this module gives them their
//! mathematical value and the lemmas the rest of the crate proves with.

use vstd::prelude::*;

verus! {

/// 256 raised to `n`: the weight of a byte `n` positions from the end.
pub open spec fn pow256(n: nat) -> nat
    decreases n,
{
    if n == 0 {
        1
    } else {
        256 * pow256((n - 1) as nat)
    }
}

/// The unsigned integer a big-endian byte string denotes.
pub open spec fn be_val(s: Seq<u8>) -> nat
    decreases s.len(),
{
    if s.len() == 0 {
        0
    } else {
        be_val(s.drop_last()) * 256 + s.last() as nat
    }
}

/// The minimal (no leading zero) big-endian byte string of `n`; empty for 0.
pub open spec fn min_be(n: nat) -> Seq<u8>
    decreases n,
{
    if n == 0 {
        Seq::empty()
    } else {
        min_be(n / 256).push((n % 256) as u8)
    }
}

/// `s` with its leading zero bytes removed.
pub open spec fn trim_zeros(s: Seq<u8>) -> Seq<u8>
    decreases s.len(),
{
    if s.len() > 0 && s.first() == 0 {
        trim_zeros(s.drop_first())
    } else {
        s
    }
}

pub proof fn lemma_pow256_pos(n: nat)
    ensures
        pow256(n) >= 1,
    decreases n,
{
    if n > 0 {
        lemma_pow256_pos((n - 1) as nat);
    }
}

/// A byte string of length `n` denotes a value below `256^n`.
pub proof fn lemma_be_val_bound(s: Seq<u8>)
    ensures
        be_val(s) < pow256(s.len()),
    decreases s.len(),
{
    if s.len() == 0 {
    } else {
        lemma_be_val_bound(s.drop_last());
        assert(be_val(s.drop_last()) * 256 + 255 < pow256(s.len())) by (nonlinear_arith)
            requires
                be_val(s.drop_last()) < pow256((s.len() - 1) as nat),
                pow256(s.len()) == 256 * pow256((s.len() - 1) as nat),
        {}
    }
}

/// Splitting a byte string splits its value by place weight.
pub proof fn lemma_be_val_split(s: Seq<u8>, i: int)
    requires
        0 <= i <= s.len(),
    ensures
        be_val(s) == be_val(s.take(i)) * pow256((s.len() - i) as nat) + be_val(s.skip(i)),
    decreases s.len(),
{
    if i == s.len() {
        assert(s.take(i) =~= s);
        assert(s.skip(i) =~= Seq::<u8>::empty());
        assert(pow256((s.len() - i) as nat) == 1);
        assert(be_val(s.take(i)) * 1 == be_val(s.take(i)));
    } else {
        let d = s.drop_last();
        lemma_be_val_split(d, i);
        assert(d.take(i) =~= s.take(i));
        assert(d.skip(i) =~= s.skip(i).drop_last());
        assert(s.skip(i).last() == s.last());
        assert(be_val(s.skip(i)) == be_val(s.skip(i).drop_last()) * 256 + s.last());
        let a = be_val(s.take(i));
        let p = pow256((s.len() - 1 - i) as nat);
        assert((a * p) * 256 == a * (256 * p)) by (nonlinear_arith) {}
        assert(be_val(s) == be_val(d) * 256 + s.last());
        assert(be_val(d) * 256 == (a * p + be_val(d.skip(i))) * 256) by {
        }
        assert((a * p + be_val(d.skip(i))) * 256 == (a * p) * 256 + be_val(d.skip(i)) * 256)
            by (nonlinear_arith) {}
        assert(pow256((s.len() - i) as nat) == 256 * p);
        assert(be_val(s) == a * (256 * p) + (be_val(d.skip(i)) * 256 + s.last() as nat));
        assert(be_val(s) == be_val(s.take(i)) * pow256((s.len() - i) as nat) + be_val(s.skip(i)));
    }
}

/// Equal values at equal widths mean equal byte strings.
pub proof fn lemma_be_val_injective(a: Seq<u8>, b: Seq<u8>)
    requires
        a.len() == b.len(),
        be_val(a) == be_val(b),
    ensures
        a == b,
    decreases a.len(),
{
    if a.len() == 0 {
        assert(a =~= b);
    } else {
        let va = be_val(a.drop_last());
        let vb = be_val(b.drop_last());
        assert(va * 256 + a.last() == vb * 256 + b.last());
        assert(a.last() == b.last() && va == vb) by (nonlinear_arith)
            requires
                va * 256 + a.last() == vb * 256 + b.last(),
                0 <= a.last() < 256,
                0 <= b.last() < 256,
                va >= 0,
                vb >= 0,
        {}
        lemma_be_val_injective(a.drop_last(), b.drop_last());
        assert(a =~= a.drop_last().push(a.last()));
        assert(b =~= b.drop_last().push(b.last()));
    }
}

/// An all-zero byte string denotes zero.
pub proof fn lemma_be_val_zeros(s: Seq<u8>)
    requires
        forall|i: int| 0 <= i < s.len() ==> s[i] == 0,
    ensures
        be_val(s) == 0,
    decreases s.len(),
{
    if s.len() > 0 {
        lemma_be_val_zeros(s.drop_last());
    }
}

/// An all-0xff byte string denotes the largest value of its width.
pub proof fn lemma_be_val_ones(s: Seq<u8>)
    requires
        forall|i: int| 0 <= i < s.len() ==> s[i] == 0xff,
    ensures
        be_val(s) == pow256(s.len()) - 1,
    decreases s.len(),
{
    if s.len() > 0 {
        lemma_be_val_ones(s.drop_last());
        assert((pow256((s.len() - 1) as nat) - 1) * 256 + 255 == 256 * pow256(
            (s.len() - 1) as nat,
        ) - 1) by (nonlinear_arith) {}
    }
}

/// Leading zeros do not change the value.
pub proof fn lemma_trim_zeros_val(s: Seq<u8>)
    ensures
        be_val(trim_zeros(s)) == be_val(s),
    decreases s.len(),
{
    if s.len() > 0 && s.first() == 0 {
        lemma_trim_zeros_val(s.drop_first());
        lemma_be_val_split(s, 1);
        assert(be_val(s.take(1)) == be_val(s.take(1).drop_last()) * 256 + s[0]);
        assert(be_val(s.take(1).drop_last()) == 0) by {
            assert(s.take(1).drop_last() =~= Seq::empty());
        }
        assert(be_val(s.take(1)) == 0);
        assert(be_val(s) == 0 * pow256((s.len() - 1) as nat) + be_val(s.skip(1)));
        assert(0 * pow256((s.len() - 1) as nat) == 0) by (nonlinear_arith) {}
        assert(s.skip(1) =~= s.drop_first());
        assert(trim_zeros(s) == trim_zeros(s.drop_first()));
    }
}

/// The trimmed string is what `min_be` rebuilds from the value.
pub proof fn lemma_min_be_of_untrimmed(s: Seq<u8>)
    requires
        s.len() == 0 || s.first() != 0,
    ensures
        min_be(be_val(s)) == s,
    decreases s.len(),
{
    if s.len() == 0 {
        assert(min_be(0) =~= s);
    } else {
        let v = be_val(s);
        let d = s.drop_last();
        assert(v == be_val(d) * 256 + s.last());
        assert(v / 256 == be_val(d) && v % 256 == s.last()) by (nonlinear_arith)
            requires
                v == be_val(d) * 256 + s.last(),
                0 <= s.last() < 256,
                be_val(d) >= 0,
        {}
        assert(v > 0) by {
            lemma_be_val_split(s, 1);
            assert(be_val(s.take(1)) == be_val(s.take(1).drop_last()) * 256 + s[0]);
            assert(s.take(1).drop_last() =~= Seq::empty());
            lemma_pow256_pos((s.len() - 1) as nat);
            assert(be_val(s.take(1)) * pow256((s.len() - 1) as nat) >= 1 * pow256(
                (s.len() - 1) as nat,
            )) by (nonlinear_arith)
                requires
                    be_val(s.take(1)) >= 1,
                    pow256((s.len() - 1) as nat) >= 1,
            {}
        }
        assert(min_be(v) == min_be(v / 256).push((v % 256) as u8));
        assert((v % 256) as u8 == s.last());
        if s.len() == 1 {
            assert(d =~= Seq::<u8>::empty());
            assert(be_val(d) == 0);
            assert(min_be(v / 256) == Seq::<u8>::empty());
            assert(min_be(v) =~= s);
        } else {
            assert(d.first() == s.first());
            lemma_min_be_of_untrimmed(d);
            assert(min_be(v / 256) == d);
            assert(min_be(v) =~= s);
        }
    }
}

/// The trimmed string has no leading zero.
pub proof fn lemma_trim_zeros_shape(s: Seq<u8>)
    ensures
        trim_zeros(s).len() == 0 || trim_zeros(s).first() != 0,
        trim_zeros(s).len() <= s.len(),
    decreases s.len(),
{
    if s.len() > 0 && s.first() == 0 {
        lemma_trim_zeros_shape(s.drop_first());
    }
}

/// `min_be` of a string's value is exactly the string without leading zeros.
pub proof fn lemma_min_be_is_trim(s: Seq<u8>)
    ensures
        min_be(be_val(s)) == trim_zeros(s),
    decreases s.len(),
{
    lemma_trim_zeros_val(s);
    lemma_trim_zeros_shape(s);
    lemma_min_be_of_untrimmed(trim_zeros(s));
}

/// Copy of a byte vector.
pub fn copy_bytes(src: &Vec<u8>) -> (r: Vec<u8>)
    ensures
        r@ == src@,
{
    let mut r: Vec<u8> = Vec::new();
    let mut i: usize = 0;
    while i < src.len()
        invariant
            i <= src.len(),
            r@ == src@.take(i as int),
        decreases src.len() - i,
    {
        r.push(src[i]);
        assert(src@.take(i as int).push(src@[i as int]) =~= src@.take(i + 1));
        i = i + 1;
    }
    assert(src@.take(src@.len() as int) =~= src@);
    r
}

/// Byte-for-byte equality of two byte vectors.
pub fn bytes_eq(a: &Vec<u8>, b: &Vec<u8>) -> (r: bool)
    ensures
        r == (a@ == b@),
{
    if a.len() != b.len() {
        return false;
    }
    let mut i: usize = 0;
    while i < a.len()
        invariant
            a@.len() == b@.len(),
            i <= a.len(),
            forall|j: int| 0 <= j < i ==> a@[j] == b@[j],
        decreases a.len() - i,
    {
        if a[i] != b[i] {
            return false;
        }
        i = i + 1;
    }
    assert(a@ =~= b@);
    true
}

/// Copy of a list of byte vectors.
pub fn copy_byte_lists(src: &Vec<Vec<u8>>) -> (r: Vec<Vec<u8>>)
    ensures
        r.deep_view() == src.deep_view(),
{
    let mut r: Vec<Vec<u8>> = Vec::new();
    let mut i: usize = 0;
    while i < src.len()
        invariant
            i <= src.len(),
            r@.len() == i,
            forall|j: int| 0 <= j < i ==> (#[trigger] r@[j])@ == src@[j]@,
        decreases src.len() - i,
    {
        r.push(copy_bytes(&src[i]));
        i = i + 1;
    }
    proof {
        assert(r.deep_view() =~= src.deep_view());
    }
    r
}

/// Copy of the bytes of `src` from `from` (inclusive) to `to` (exclusive).
pub fn sub_bytes(src: &Vec<u8>, from: usize, to: usize) -> (r: Vec<u8>)
    requires
        from <= to <= src@.len(),
    ensures
        r@ == src@.subrange(from as int, to as int),
{
    let mut r: Vec<u8> = Vec::new();
    let mut i: usize = from;
    while i < to
        invariant
            from <= i <= to <= src@.len(),
            r@ =~= src@.subrange(from as int, i as int),
        decreases to - i,
    {
        r.push(src[i]);
        i = i + 1;
    }
    proof {
        assert(r@ =~= src@.subrange(from as int, to as int));
    }
    r
}

/// Append `src` to `out`.
pub fn extend_bytes(out: &mut Vec<u8>, src: &Vec<u8>)
    ensures
        final(out)@ == old(out)@ + src@,
{
    let mut i: usize = 0;
    while i < src.len()
        invariant
            i <= src.len(),
            out@ == old(out)@ + src@.take(i as int),
        decreases src.len() - i,
    {
        out.push(src[i]);
        assert(old(out)@ + src@.take(i as int).push(src@[i as int]) =~= old(out)@ + src@.take(
            i + 1,
        ));
        i = i + 1;
    }
    assert(old(out)@ + src@.take(src@.len() as int) =~= old(out)@ + src@);
}

} // verus!
