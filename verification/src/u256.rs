//! Unsigned 256-bit quantities: balances, nonces and transaction fields.
//!
//! A value is kept as its full-width big-endian byte string; its mathematical
//! value is `be_val` of those bytes. Addition, subtraction and comparison are
//! verified here; multiplication (needed for the gas-fee bound) goes through
//! the `primitive-types` arithmetic behind a trusted contract.

use vstd::prelude::*;

use crate::bytes::be_val;
use crate::bytes::bytes_eq;
use crate::bytes::copy_bytes;
use crate::bytes::extend_bytes;
use crate::bytes::lemma_be_val_bound;
use crate::bytes::lemma_be_val_injective;
use crate::bytes::lemma_be_val_ones;
use crate::bytes::lemma_be_val_split;
use crate::bytes::lemma_be_val_zeros;
use crate::bytes::lemma_min_be_is_trim;
use crate::bytes::lemma_pow256_pos;
use crate::bytes::min_be;
use crate::bytes::pow256;
use crate::bytes::trim_zeros;

verus! {

/// An unsigned 256-bit integer, as 32 big-endian bytes.
#[derive(Debug, Clone, PartialEq, Eq)]
pub struct U256 {
    pub bytes: Vec<u8>,
}

impl View for U256 {
    type V = nat;

    open spec fn view(&self) -> nat {
        be_val(self.bytes@)
    }
}

impl U256 {
    /// Exactly 32 bytes wide.
    pub open spec fn wf(&self) -> bool {
        self.bytes@.len() == 32
    }

    pub open spec fn spec_bytes(&self) -> Seq<u8> {
        self.bytes@
    }
}

/// `256^8` is the number of 64-bit values.
pub proof fn lemma_pow256_8()
    ensures
        pow256(8) == 0x1_0000_0000_0000_0000,
{
    reveal_with_fuel(pow256, 9);
}

/// The value a minimal big-endian string denotes is the number it was built from.
pub proof fn lemma_min_be_val(n: nat)
    ensures
        be_val(min_be(n)) == n,
    decreases n,
{
    if n > 0 {
        lemma_min_be_val(n / 256);
        let s = min_be(n);
        assert(s == min_be(n / 256).push((n % 256) as u8));
        assert(s.drop_last() =~= min_be(n / 256));
        assert(be_val(s) == (n / 256) * 256 + n % 256);
        assert((n / 256) * 256 + n % 256 == n) by (nonlinear_arith) {}
    }
}

/// A value below `256^k` needs at most `k` minimal bytes.
pub proof fn lemma_min_be_len(n: nat, k: nat)
    requires
        n < pow256(k),
    ensures
        min_be(n).len() <= k,
    decreases k,
{
    if n > 0 {
        if k == 0 {
            lemma_pow256_pos(0);
        } else {
            assert(n / 256 < pow256((k - 1) as nat)) by (nonlinear_arith)
                requires
                    n < pow256(k),
                    pow256(k) == 256 * pow256((k - 1) as nat),
                    n >= 0,
            {}
            lemma_min_be_len(n / 256, (k - 1) as nat);
        }
    }
}

/// A prefix of zeros followed by the first nonzero byte is what trimming removes.
pub proof fn lemma_trim_is_skip(s: Seq<u8>, i: int)
    requires
        0 <= i <= s.len(),
        forall|j: int| 0 <= j < i ==> s[j] == 0,
        i == s.len() || s[i] != 0,
    ensures
        trim_zeros(s) == s.skip(i),
    decreases i,
{
    if i == 0 {
        assert(s.skip(0) =~= s);
    } else {
        assert(s.first() == 0);
        lemma_trim_is_skip(s.drop_first(), i - 1);
        assert(s.drop_first().skip(i - 1) =~= s.skip(i));
    }
}

/// Leading zeros in front of a string do not change its value.
pub proof fn lemma_be_val_pad(s: Seq<u8>, z: int)
    requires
        0 <= z <= s.len(),
        forall|j: int| 0 <= j < z ==> s[j] == 0,
    ensures
        be_val(s) == be_val(s.skip(z)),
{
    lemma_be_val_split(s, z);
    lemma_be_val_zeros(s.take(z));
    assert(0 * pow256((s.len() - z) as nat) == 0) by (nonlinear_arith) {}
}

/// The tail of a byte string, one byte at a time.
pub proof fn lemma_be_val_uncons(s: Seq<u8>, i: int)
    requires
        0 <= i < s.len(),
    ensures
        be_val(s.skip(i)) == s[i] * pow256((s.len() - i - 1) as nat) + be_val(s.skip(i + 1)),
{
    let t = s.skip(i);
    lemma_be_val_split(t, 1);
    assert(t.take(1).len() == 1);
    assert(t.take(1).drop_last() =~= Seq::<u8>::empty());
    assert(be_val(t.take(1)) == be_val(t.take(1).drop_last()) * 256 + t.take(1).last());
    assert(t.take(1).last() == t[0]);
    assert(t[0] == s[i]);
    assert(be_val(t.take(1)) == s[i]);
    assert(t.skip(1) =~= s.skip(i + 1));
}

/// With equal prefixes, the first differing byte decides the order.
pub proof fn lemma_be_val_lex(a: Seq<u8>, b: Seq<u8>, i: int)
    requires
        a.len() == b.len(),
        0 <= i < a.len(),
        a.take(i) == b.take(i),
        a[i] < b[i],
    ensures
        be_val(a) < be_val(b),
{
    lemma_be_val_split(a, i);
    lemma_be_val_split(b, i);
    lemma_be_val_uncons(a, i);
    lemma_be_val_uncons(b, i);
    let p = pow256((a.len() - i - 1) as nat);
    lemma_be_val_bound(a.skip(i + 1));
    lemma_be_val_bound(b.skip(i + 1));
    assert(a.skip(i + 1).len() == a.len() - i - 1);
    assert(a[i] * p + be_val(a.skip(i + 1)) < b[i] * p + be_val(b.skip(i + 1)))
        by (nonlinear_arith)
        requires
            a[i] < b[i],
            be_val(a.skip(i + 1)) < p,
            be_val(b.skip(i + 1)) >= 0,
            p >= 1,
    {}
}

impl U256 {
    /// The zero value.
    pub fn zero() -> (r: U256)
        ensures
            r.wf(),
            r@ == 0,
    {
        let mut v: Vec<u8> = Vec::new();
        let mut i: usize = 0;
        while i < 32
            invariant
                i <= 32,
                v@.len() == i,
                forall|j: int| 0 <= j < i ==> v@[j] == 0,
            decreases 32 - i,
        {
            v.push(0);
            i = i + 1;
        }
        proof {
            lemma_be_val_zeros(v@);
        }
        U256 { bytes: v }
    }

    /// The largest 256-bit value, `2^256 - 1`.
    pub fn max_value() -> (r: U256)
        ensures
            r.wf(),
            r@ == pow256(32) - 1,
    {
        let mut v: Vec<u8> = Vec::new();
        let mut i: usize = 0;
        while i < 32
            invariant
                i <= 32,
                v@.len() == i,
                forall|j: int| 0 <= j < i ==> v@[j] == 0xff,
            decreases 32 - i,
        {
            v.push(0xff);
            i = i + 1;
        }
        proof {
            lemma_be_val_ones(v@);
        }
        U256 { bytes: v }
    }

    /// Widen a 64-bit value.
    pub fn from_u64(n: u64) -> (r: U256)
        ensures
            r.wf(),
            r@ == n as nat,
    {
        let mb = min_be_u64(n);
        proof {
            lemma_pow256_8();
            lemma_min_be_len(n as nat, 8);
        }
        let pad: usize = 32 - mb.len();
        let mut v: Vec<u8> = Vec::new();
        let mut i: usize = 0;
        while i < pad
            invariant
                i <= pad,
                v@.len() == i,
                forall|j: int| 0 <= j < i ==> v@[j] == 0,
            decreases pad - i,
        {
            v.push(0);
            i = i + 1;
        }
        extend_bytes(&mut v, &mb);
        proof {
            assert(v@.skip(pad as int) =~= mb@);
            lemma_be_val_pad(v@, pad as int);
            lemma_min_be_val(n as nat);
        }
        U256 { bytes: v }
    }

    /// Adopt exactly 32 big-endian bytes; anything else is refused.
    pub fn from_be_bytes(v: Vec<u8>) -> (r: Option<U256>)
        ensures
            r is Some <==> v@.len() == 32,
            r matches Some(c) ==> c.wf() && c.spec_bytes() == v@ && c@ == be_val(v@),
    {
        if v.len() == 32 {
            Some(U256 { bytes: v })
        } else {
            None
        }
    }

    /// The 32 big-endian bytes of the value.
    pub fn to_be_bytes(&self) -> (r: Vec<u8>)
        ensures
            r@ == self.spec_bytes(),
    {
        copy_bytes(&self.bytes)
    }

    /// The minimal big-endian bytes of the value: no leading zero, empty for 0.
    pub fn to_min_be_bytes(&self) -> (r: Vec<u8>)
        requires
            self.wf(),
        ensures
            r@ == min_be(self@),
            r@.len() <= 32,
    {
        let mut i: usize = 0;
        while i < 32 && self.bytes[i] == 0
            invariant
                self.wf(),
                i <= 32,
                forall|j: int| 0 <= j < i ==> self.bytes@[j] == 0,
            decreases 32 - i,
        {
            i = i + 1;
        }
        let mut r: Vec<u8> = Vec::new();
        let mut k: usize = i;
        while k < 32
            invariant
                self.wf(),
                i <= k <= 32,
                r@ =~= self.bytes@.subrange(i as int, k as int),
            decreases 32 - k,
        {
            r.push(self.bytes[k]);
            k = k + 1;
        }
        proof {
            assert(r@ =~= self.bytes@.skip(i as int));
            lemma_trim_is_skip(self.bytes@, i as int);
            lemma_min_be_is_trim(self.bytes@);
        }
        r
    }

    /// Numeric equality.
    pub fn eq_val(&self, other: &U256) -> (r: bool)
        requires
            self.wf(),
            other.wf(),
        ensures
            r == (self@ == other@),
    {
        proof {
            if be_val(self.bytes@) == be_val(other.bytes@) {
                lemma_be_val_injective(self.bytes@, other.bytes@);
            }
        }
        bytes_eq(&self.bytes, &other.bytes)
    }

    /// Strictly below.
    pub fn lt(&self, other: &U256) -> (r: bool)
        requires
            self.wf(),
            other.wf(),
        ensures
            r == (self@ < other@),
    {
        let mut i: usize = 0;
        while i < 32
            invariant
                self.wf(),
                other.wf(),
                i <= 32,
                forall|j: int| 0 <= j < i ==> self.bytes@[j] == other.bytes@[j],
            decreases 32 - i,
        {
            let x = self.bytes[i];
            let y = other.bytes[i];
            if x < y {
                proof {
                    assert(self.bytes@.take(i as int) =~= other.bytes@.take(i as int));
                    lemma_be_val_lex(self.bytes@, other.bytes@, i as int);
                }
                return true;
            }
            if x > y {
                proof {
                    assert(other.bytes@.take(i as int) =~= self.bytes@.take(i as int));
                    lemma_be_val_lex(other.bytes@, self.bytes@, i as int);
                }
                return false;
            }
            i = i + 1;
        }
        proof {
            assert(self.bytes@ =~= other.bytes@);
        }
        false
    }

    /// At most.
    pub fn le(&self, other: &U256) -> (r: bool)
        requires
            self.wf(),
            other.wf(),
        ensures
            r == (self@ <= other@),
    {
        !other.lt(self)
    }

    /// Sum with its carry: `self + other == sum + carry * 2^256`.
    pub fn add_carry(&self, other: &U256) -> (r: (U256, bool))
        requires
            self.wf(),
            other.wf(),
        ensures
            r.0.wf(),
            self@ + other@ == r.0@ + (if r.1 {
                pow256(32)
            } else {
                0
            }),
    {
        let mut out = U256::zero();
        let mut c: u8 = 0;
        let mut i: usize = 32;
        proof {
            assert(self.bytes@.skip(32) =~= Seq::<u8>::empty());
            assert(other.bytes@.skip(32) =~= Seq::<u8>::empty());
            assert(out.bytes@.skip(32) =~= Seq::<u8>::empty());
        }
        while i > 0
            invariant
                self.wf(),
                other.wf(),
                out.bytes@.len() == 32,
                i <= 32,
                c <= 1,
                be_val(self.bytes@.skip(i as int)) + be_val(other.bytes@.skip(i as int)) == be_val(
                    out.bytes@.skip(i as int),
                ) + (c as nat) * pow256((32 - i) as nat),
            decreases i,
        {
            let j: usize = i - 1;
            let ghost pre = out.bytes@;
            let sum: u16 = self.bytes[j] as u16 + other.bytes[j] as u16 + c as u16;
            let d: u8 = (sum % 256) as u8;
            let c2: u8 = (sum / 256) as u8;
            out.bytes[j] = d;
            proof {
                let sa = self.bytes@;
                let sb = other.bytes@;
                let so = out.bytes@;
                let p = pow256((31 - j) as nat);
                assert(so =~= pre.update(j as int, d));
                assert(so.skip(j + 1) =~= pre.skip(j + 1));
                lemma_be_val_uncons(sa, j as int);
                lemma_be_val_uncons(sb, j as int);
                lemma_be_val_uncons(so, j as int);
                assert(sa[j as int] + sb[j as int] + c == d + 256 * (c2 as nat));
                assert(pow256((32 - j) as nat) == 256 * p);
                assert(be_val(sa.skip(j as int)) + be_val(sb.skip(j as int)) == be_val(
                    so.skip(j as int),
                ) + (c2 as nat) * pow256((32 - j) as nat)) by (nonlinear_arith)
                    requires
                        be_val(sa.skip(j as int)) == sa[j as int] * p + be_val(sa.skip(j + 1)),
                        be_val(sb.skip(j as int)) == sb[j as int] * p + be_val(sb.skip(j + 1)),
                        be_val(so.skip(j as int)) == d * p + be_val(so.skip(j + 1)),
                        be_val(sa.skip(j + 1)) + be_val(sb.skip(j + 1)) == be_val(so.skip(j + 1))
                            + (c as nat) * p,
                        sa[j as int] + sb[j as int] + c == d + 256 * (c2 as nat),
                        pow256((32 - j) as nat) == 256 * p,
                {}
            }
            c = c2;
            i = j;
        }
        proof {
            assert(self.bytes@.skip(0) =~= self.bytes@);
            assert(other.bytes@.skip(0) =~= other.bytes@);
            assert(out.bytes@.skip(0) =~= out.bytes@);
        }
        let carry = c == 1;
        (out, carry)
    }

    /// Difference, defined when no borrow is needed.
    pub fn sub_val(&self, other: &U256) -> (r: U256)
        requires
            self.wf(),
            other.wf(),
            other@ <= self@,
        ensures
            r.wf(),
            r@ == self@ - other@,
    {
        let mut out = U256::zero();
        let mut c: u8 = 0;
        let mut i: usize = 32;
        proof {
            assert(self.bytes@.skip(32) =~= Seq::<u8>::empty());
            assert(other.bytes@.skip(32) =~= Seq::<u8>::empty());
            assert(out.bytes@.skip(32) =~= Seq::<u8>::empty());
        }
        while i > 0
            invariant
                self.wf(),
                other.wf(),
                out.bytes@.len() == 32,
                i <= 32,
                c <= 1,
                be_val(self.bytes@.skip(i as int)) + (c as nat) * pow256((32 - i) as nat)
                    == be_val(other.bytes@.skip(i as int)) + be_val(out.bytes@.skip(i as int)),
            decreases i,
        {
            let j: usize = i - 1;
            let ghost pre = out.bytes@;
            let av: u16 = self.bytes[j] as u16;
            let bv: u16 = other.bytes[j] as u16 + c as u16;
            let d: u8;
            let c2: u8;
            if av >= bv {
                d = (av - bv) as u8;
                c2 = 0;
            } else {
                d = (av + 256 - bv) as u8;
                c2 = 1;
            }
            out.bytes[j] = d;
            proof {
                let sa = self.bytes@;
                let sb = other.bytes@;
                let so = out.bytes@;
                let p = pow256((31 - j) as nat);
                assert(so =~= pre.update(j as int, d));
                assert(so.skip(j + 1) =~= pre.skip(j + 1));
                lemma_be_val_uncons(sa, j as int);
                lemma_be_val_uncons(sb, j as int);
                lemma_be_val_uncons(so, j as int);
                assert(sa[j as int] + 256 * (c2 as nat) == sb[j as int] + c + d);
                assert(pow256((32 - j) as nat) == 256 * p);
                assert(be_val(sa.skip(j as int)) + (c2 as nat) * pow256((32 - j) as nat) == be_val(
                    sb.skip(j as int),
                ) + be_val(so.skip(j as int))) by (nonlinear_arith)
                    requires
                        be_val(sa.skip(j as int)) == sa[j as int] * p + be_val(sa.skip(j + 1)),
                        be_val(sb.skip(j as int)) == sb[j as int] * p + be_val(sb.skip(j + 1)),
                        be_val(so.skip(j as int)) == d * p + be_val(so.skip(j + 1)),
                        be_val(sa.skip(j + 1)) + (c as nat) * p == be_val(sb.skip(j + 1)) + be_val(
                            so.skip(j + 1),
                        ),
                        sa[j as int] + 256 * (c2 as nat) == sb[j as int] + c + d,
                        pow256((32 - j) as nat) == 256 * p,
                {}
            }
            c = c2;
            i = j;
        }
        proof {
            assert(self.bytes@.skip(0) =~= self.bytes@);
            assert(other.bytes@.skip(0) =~= other.bytes@);
            assert(out.bytes@.skip(0) =~= out.bytes@);
            if c == 1 {
                lemma_be_val_bound(out.bytes@);
            }
        }
        out
    }

    /// Product, `None` when it does not fit in 256 bits.
    ///
    /// Relies on `primitive_types::U256`: `from_big_endian` reads 32 bytes,
    /// `checked_mul` returns the product unless it overflows, and
    /// `to_big_endian` writes the 32 bytes back.
    #[verifier::external_body]
    pub fn checked_mul(&self, other: &U256) -> (r: Option<U256>)
        requires
            self.wf(),
            other.wf(),
        ensures
            r is Some <==> self@ * other@ < pow256(32),
            r matches Some(c) ==> c.wf() && c@ == self@ * other@,
    {
        let x = primitive_types::U256::from_big_endian(self.bytes.as_slice());
        let y = primitive_types::U256::from_big_endian(other.bytes.as_slice());
        match x.checked_mul(y) {
            Some(z) => {
                let mut buf = [0u8; 32];
                z.to_big_endian(&mut buf);
                Some(U256 { bytes: buf.to_vec() })
            },
            None => None,
        }
    }

    /// A fresh value equal to this one.
    pub fn dup(&self) -> (r: U256)
        ensures
            r.spec_bytes() == self.spec_bytes(),
            r@ == self@,
            self.wf() ==> r.wf(),
    {
        U256 { bytes: copy_bytes(&self.bytes) }
    }
}

/// The minimal big-endian bytes of a 64-bit value.
pub fn min_be_u64(n: u64) -> (r: Vec<u8>)
    ensures
        r@ == min_be(n as nat),
{
    let mut acc: Vec<u8> = Vec::new();
    let mut m: u64 = n;
    while m > 0
        invariant
            min_be(n as nat) == min_be(m as nat) + acc@,
        decreases m,
    {
        let ghost pre = acc@;
        let b: u8 = (m % 256) as u8;
        acc.insert(0, b);
        proof {
            assert(acc@ =~= seq![b] + pre);
            assert(min_be(m as nat) == min_be((m as nat) / 256).push(b));
            assert(min_be((m as nat) / 256).push(b) =~= min_be((m as nat) / 256) + seq![b]);
            assert((m / 256) as nat == (m as nat) / 256);
            assert(min_be(n as nat) =~= min_be((m / 256) as nat) + acc@);
        }
        m = m / 256;
    }
    proof {
        assert(min_be(0) + acc@ =~= acc@);
    }
    acc
}

} // verus!
