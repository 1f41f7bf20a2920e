//! Difficulty-to-target arithmetic.
//!
//! A V1 pool states difficulty `d`; the matching V2 share target is
//! `floor(diff1_target / d)`, where `diff1_target` is the 256-bit target of
//! difficulty 1.  Targets travel as 32 little-endian bytes, so the quotient
//! is computed by schoolbook base-256 long division, proved exact against the
//! mathematical value of the bytes.

use vstd::arithmetic::div_mod::{
    lemma_breakdown, lemma_div_denominator,
    lemma_fundamental_div_mod, lemma_fundamental_div_mod_converse_div, lemma_multiply_divide_lt,
};
use vstd::prelude::*;

use crate::types::Uint256Bytes;

verus! {

/// The integer a little-endian byte string stands for.
pub open spec fn le_val(s: Seq<u8>) -> nat
    decreases s.len(),
{
    if s.len() == 0 {
        0
    } else {
        s[0] as nat + 256 * le_val(s.skip(1))
    }
}

/// The difficulty-1 target: 0xffff shifted to bytes 26 and 27 (little-endian),
/// i.e. 0x00000000ffff0000…0000.
pub open spec fn diff1_target_seq() -> Seq<u8> {
    Seq::new(32, |i: int| if i == 26 || i == 27 { 0xffu8 } else { 0u8 })
}

/// Builds the difficulty-1 target bytes.
pub fn diff1_target() -> (r: Uint256Bytes)
    ensures
        r.wf(),
        r@ == diff1_target_seq(),
{
    let mut bytes: Vec<u8> = Vec::new();
    let mut i: usize = 0;
    while i < 32
        invariant
            i <= 32,
            bytes@.len() == i,
            forall|k: int| 0 <= k < i ==> bytes@[k] == diff1_target_seq()[k],
        decreases 32 - i,
    {
        if i == 26 || i == 27 {
            bytes.push(0xff);
        } else {
            bytes.push(0);
        }
        i = i + 1;
    }
    proof {
        assert(bytes@ =~= diff1_target_seq());
    }
    Uint256Bytes { bytes }
}

/// Base-256 long division of a 256-bit integer by a nonzero word, most
/// significant byte first: the result is exactly the floor quotient.
pub fn div256_by_u64(b: &Uint256Bytes, d: u64) -> (r: Uint256Bytes)
    requires
        b.wf(),
        d > 0,
    ensures
        r.wf(),
        le_val(r@) == le_val(b@) / (d as nat),
{
    let mut out: Vec<u8> = Vec::new();
    let mut i: usize = 0;
    while i < 32
        invariant
            i <= 32,
            out@.len() == i,
        decreases 32 - i,
    {
        out.push(0);
        i = i + 1;
    }
    let mut rem: u64 = 0;
    let mut j: usize = 32;
    proof {
        assert(b@.skip(32) =~= Seq::<u8>::empty());
        assert(out@.skip(32) =~= Seq::<u8>::empty());
        assert(le_val(Seq::<u8>::empty()) == 0);
    }
    while j > 0
        invariant
            j <= 32,
            b@.len() == 32,
            out@.len() == 32,
            rem < d,
            le_val(b@.skip(j as int)) == d * le_val(out@.skip(j as int)) + rem,
        decreases j,
    {
        let jj = j - 1;
        let acc: u128 = (rem as u128) * 256 + (b.bytes[jj] as u128);
        let dw: u128 = d as u128;
        proof {
            assert(acc < dw * 256) by (nonlinear_arith)
                requires
                    acc == (rem as u128) * 256 + (b@[jj as int] as u128),
                    rem < d,
                    dw == d,
                    b@[jj as int] < 256,
            ;
            lemma_multiply_divide_lt(acc as int, dw as int, 256);
        }
        let q: u128 = acc / dw;
        let new_rem: u64 = (acc % dw) as u64;
        let ghost old_out = out@;
        let ghost old_rem = rem;
        out[jj] = q as u8;
        rem = new_rem;
        j = jj;
        proof {
            let bb = b@;
            let big_q = le_val(old_out.skip(j + 1));
            assert(out@.skip(j + 1) =~= old_out.skip(j + 1));
            assert(bb.skip(j as int).skip(1) =~= bb.skip(j + 1));
            assert(out@.skip(j as int).skip(1) =~= out@.skip(j + 1));
            assert(bb.skip(j as int)[0] == bb[j as int]);
            assert(out@.skip(j as int)[0] == q as u8);
            assert(le_val(bb.skip(j as int)) == bb[j as int] as nat + 256 * le_val(bb.skip(j + 1)));
            assert(le_val(out@.skip(j as int)) == (q as u8) as nat + 256 * big_q);
            lemma_fundamental_div_mod(acc as int, dw as int);
            assert(acc == dw * q + new_rem);
            assert(256 * (d * big_q + old_rem) == d * (256 * big_q) + 256 * old_rem)
                by (nonlinear_arith);
            assert(d * ((q as u8) as nat + 256 * big_q) == d * ((q as u8) as nat) + d * (256
                * big_q)) by (nonlinear_arith);
            assert(dw * q == d * ((q as u8) as nat)) by (nonlinear_arith)
                requires
                    dw == d,
                    q < 256,
                    (q as u8) == q,
            ;
            assert(le_val(bb.skip(j as int)) == d * le_val(out@.skip(j as int)) + rem);
        }
    }
    proof {
        assert(b@.skip(0) =~= b@);
        assert(out@.skip(0) =~= out@);
        assert(le_val(b@) as int == le_val(out@) as int * (d as int) + rem as int)
            by (nonlinear_arith)
            requires
                le_val(b@) == d * le_val(out@) + rem,
        ;
        lemma_fundamental_div_mod_converse_div(
            le_val(b@) as int,
            d as int,
            le_val(out@) as int,
            rem as int,
        );
    }
    Uint256Bytes { bytes: out }
}

/// The V2 target for V1 difficulty `d`: `floor(diff1_target / d)`.
pub fn target_for_difficulty(d: u64) -> (r: Uint256Bytes)
    requires
        d > 0,
    ensures
        r.wf(),
        le_val(r@) == le_val(diff1_target_seq()) / (d as nat),
{
    let diff1 = diff1_target();
    div256_by_u64(&diff1, d)
}

/// 256^n, the number of values an `n`-byte extranonce can hold.
pub open spec fn pow256(n: nat) -> nat
    decreases n,
{
    if n == 0 {
        1
    } else {
        256 * pow256((n - 1) as nat)
    }
}

/// Appending a byte adds it at the most significant position.
proof fn lemma_le_val_push(s: Seq<u8>, x: u8)
    ensures
        le_val(s.push(x)) == le_val(s) + pow256(s.len()) * x,
    decreases s.len(),
{
    if s.len() == 0 {
        assert(s.push(x).skip(1) =~= Seq::<u8>::empty());
        assert(le_val(s.push(x).skip(1)) == 0);
        assert(le_val(s) == 0);
        assert(s.push(x)[0] == x);
        assert(le_val(s.push(x)) == x + 256 * le_val(s.push(x).skip(1)));
        assert(pow256(0) == 1);
        assert(pow256(s.len()) * x == x) by (nonlinear_arith)
            requires
                pow256(s.len()) == 1,
        ;
    } else {
        assert(s.push(x).skip(1) =~= s.skip(1).push(x));
        lemma_le_val_push(s.skip(1), x);
        let a = le_val(s.skip(1));
        let p = pow256((s.len() - 1) as nat);
        assert(s.push(x)[0] == s[0]);
        assert(le_val(s.push(x)) == s[0] as nat + 256 * le_val(s.skip(1).push(x)));
        assert(le_val(s.skip(1).push(x)) == a + p * x);
        assert(256 * (a + p * x) == 256 * a + (256 * p) * x) by (nonlinear_arith);
        assert(pow256(s.len()) == 256 * p);
        assert(le_val(s) == s[0] as nat + 256 * a);
        assert(le_val(s.push(x)) == s[0] as nat + 256 * a + (256 * p) * x);
    }
}

/// A rolling counter as `n` little-endian bytes, truncated modulo 256^n: how
/// extranonce2 values are minted from the per-channel submit counter.
pub fn counter_le_bytes(v: u64, n: usize) -> (r: Vec<u8>)
    ensures
        r@.len() == n,
        le_val(r@) == (v as nat) % pow256(n as nat),
{
    let mut out: Vec<u8> = Vec::new();
    let mut rest: u64 = v;
    let mut k: usize = 0;
    while k < n
        invariant
            k <= n,
            out@.len() == k,
            le_val(out@) == (v as nat) % pow256(k as nat),
            rest as nat == (v as nat) / pow256(k as nat),
        decreases n - k,
    {
        let b = (rest % 256) as u8;
        let ghost old_out = out@;
        let ghost old_rest = rest as nat;
        let ghost p = pow256(k as nat);
        out.push(b);
        rest = rest / 256;
        k = k + 1;
        proof {
            lemma_le_val_push(old_out, b);
            assert(p > 0) by {
                lemma_pow256_pos((k - 1) as nat);
            }
            lemma_breakdown(v as int, p as int, 256);
            assert(pow256(k as nat) == 256 * p);
            assert(p * 256 == 256 * p) by (nonlinear_arith);
            assert(p * ((v as int / p as int) % 256) == p * (old_rest as int % 256))
                by (nonlinear_arith)
                requires
                    old_rest == v as nat / p,
            ;
            assert(le_val(out@) == le_val(old_out) + p * b);
            lemma_div_denominator(v as int, p as int, 256);
        }
    }
    out
}

/// 256^n is positive.
proof fn lemma_pow256_pos(n: nat)
    ensures
        pow256(n) > 0,
    decreases n,
{
    if n > 0 {
        lemma_pow256_pos((n - 1) as nat);
    }
}

} // verus!
