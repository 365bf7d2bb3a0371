//! The canonical length-prefixed byte encoding of transaction fields.
//!
//! A byte string shorter than 56 bytes is prefixed by `0x80` plus its length
//! (a single byte below `0x80` stands for itself); a longer one by `0xb7`
//! plus the width of its big-endian length, then that length. A list wraps
//! its items' concatenation the same way from `0xc0`/`0xf7`. An unsigned
//! integer is the string of its minimal big-endian bytes, empty for zero.

use vstd::prelude::*;

use crate::bytes::extend_bytes;
use crate::bytes::min_be;
use crate::u256::lemma_min_be_len;
use crate::u256::lemma_pow256_8;
use crate::u256::min_be_u64;
use crate::u256::U256;

verus! {

/// The prefix announcing a payload of `n` bytes, from `base` `0x80` for
/// strings or `0xc0` for lists.
pub open spec fn rlp_len_prefix(base: u8, n: nat) -> Seq<u8> {
    if n < 56 {
        seq![(base + n) as u8]
    } else {
        seq![(base + 55 + min_be(n).len()) as u8] + min_be(n)
    }
}

/// The encoding of a byte string.
pub open spec fn rlp_str(s: Seq<u8>) -> Seq<u8> {
    if s.len() == 1 && s[0] < 0x80 {
        s
    } else {
        rlp_len_prefix(0x80, s.len()) + s
    }
}

/// The encoding of an unsigned integer: its minimal big-endian bytes as a
/// string.
pub open spec fn rlp_uint(n: nat) -> Seq<u8> {
    rlp_str(min_be(n))
}

/// The encoding of a list whose items concatenate to `payload`.
pub open spec fn rlp_list(payload: Seq<u8>) -> Seq<u8> {
    rlp_len_prefix(0xc0, payload.len()) + payload
}

/// Appends the length prefix for `n` payload bytes.
pub fn append_len_prefix(out: &mut Vec<u8>, base: u8, n: usize)
    requires
        base == 0x80 || base == 0xc0,
    ensures
        final(out)@ == old(out)@ + rlp_len_prefix(base, n as nat),
{
    if n < 56 {
        out.push(base + n as u8);
        proof {
            assert(out@ =~= old(out)@ + rlp_len_prefix(base, n as nat));
        }
    } else {
        let mb = min_be_u64(n as u64);
        proof {
            lemma_pow256_8();
            lemma_min_be_len(n as nat, 8);
        }
        out.push(base + 55 + mb.len() as u8);
        extend_bytes(out, &mb);
        proof {
            assert(out@ =~= old(out)@ + rlp_len_prefix(base, n as nat));
        }
    }
}

/// Appends the encoding of a byte string.
pub fn append_rlp_str(out: &mut Vec<u8>, s: &Vec<u8>)
    ensures
        final(out)@ == old(out)@ + rlp_str(s@),
{
    if s.len() == 1 && s[0] < 0x80 {
        out.push(s[0]);
        proof {
            assert(out@ =~= old(out)@ + rlp_str(s@));
        }
    } else {
        append_len_prefix(out, 0x80, s.len());
        extend_bytes(out, s);
        proof {
            assert(out@ =~= old(out)@ + rlp_str(s@));
        }
    }
}

/// Appends the encoding of a 256-bit unsigned integer.
pub fn append_rlp_uint(out: &mut Vec<u8>, x: &U256)
    requires
        x.wf(),
    ensures
        final(out)@ == old(out)@ + rlp_uint(x@),
{
    let mb = x.to_min_be_bytes();
    append_rlp_str(out, &mb);
}

/// Appends the encoding of a 64-bit unsigned integer.
pub fn append_rlp_u64(out: &mut Vec<u8>, n: u64)
    ensures
        final(out)@ == old(out)@ + rlp_uint(n as nat),
{
    let mb = min_be_u64(n);
    append_rlp_str(out, &mb);
}

} // verus!
