//! Condition-code computation.
//!
//! `ADDX`/`SUBX`/`NEGX` (and the BCD instructions) accumulate `Z`: they can only
//! clear it. `X` is preserved by the compare and logical instructions, and the
//! logical instructions clear `V` and `C`.

use crate::ea::Size;
use vstd::prelude::*;

verus! {

/// The sum `a + b + carry_in` of the size-masked operands, as a mathematical integer.
pub open spec fn add_sum(a: u32, b: u32, carry_in: bool, size: Size) -> int {
    (a & size.mask()) as int + (b & size.mask()) as int + (if carry_in { 1int } else { 0int })
}

/// The difference `dst - src - borrow_in` of the size-masked operands.
pub open spec fn sub_diff(dst: u32, src: u32, borrow_in: bool, size: Size) -> int {
    (dst & size.mask()) as int - (src & size.mask()) as int - (if borrow_in { 1int } else { 0int })
}

/// The number of distinct values of this size: `2^bits`.
pub open spec fn modulus(size: Size) -> int {
    size.mask() as int + 1
}

/// A mathematical integer reduced to this size.
pub open spec fn wrap(x: int, size: Size) -> u32 {
    (x % modulus(size)) as u32
}

/// True iff the sign bit of this size is set in `v`.
pub open spec fn neg(v: u32, size: Size) -> bool {
    v & size.msb() != 0
}

/// `(result, n, z, v, c)` of `a + b + carry_in` at `size`.
pub open spec fn add_spec(a: u32, b: u32, carry_in: bool, size: Size) -> (u32, bool, bool, bool, bool) {
    let r = wrap(add_sum(a, b, carry_in, size), size);
    let sa = neg(a, size);
    let sb = neg(b, size);
    (r, neg(r, size), r == 0, sa == sb && neg(r, size) != sa, add_sum(a, b, carry_in, size) > size.mask() as int)
}

/// `(result, n, z, v, c)` of `dst - src - borrow_in` at `size`.
pub open spec fn sub_spec(dst: u32, src: u32, borrow_in: bool, size: Size) -> (u32, bool, bool, bool, bool) {
    let r = wrap(sub_diff(dst, src, borrow_in, size), size);
    let sd = neg(dst, size);
    let ss = neg(src, size);
    (r, neg(r, size), r == 0, sd != ss && neg(r, size) != sd, sub_diff(dst, src, borrow_in, size) < 0)
}

proof fn lemma_add_bits(a: u32, b: u32, cin: u64, full: u64, m: u32, msb: u32, mp1: u64)
    by (bit_vector)
    requires
        (m == 0xFFu32 && msb == 0x80u32) || (m == 0xFFFFu32 && msb == 0x8000u32) || (m == 0xFFFF_FFFFu32 && msb == 0x8000_0000u32),
        a & m == a,
        b & m == b,
        cin <= 1,
        full == a as u64 + b as u64 + cin,
        mp1 == m as u64 + 1,
    ensures
        ((full as u32) & m) as u64 == full % mp1,
        (full & mp1 != 0) == (full > m as u64),
        (((a ^ ((full as u32) & m)) & (b ^ ((full as u32) & m)) & msb) != 0)
            == ((a & msb != 0) == (b & msb != 0) && (((full as u32) & m) & msb != 0) != (a & msb != 0)),
{
}

/// Computes `a + b + carry_in`, returning `(result, n, z, v, c)`.
///
/// `result` is masked to `size`; `n`, `z` and `v` describe that masked value.
pub fn add_flags(a: u32, b: u32, carry_in: bool, size: Size) -> (out: (u32, bool, bool, bool, bool))
    ensures
        out == add_spec(a, b, carry_in, size),
{
    let m = size.mask();
    let msb = size.msb();
    let am = a & m;
    let bm = b & m;
    let cin: u64 = if carry_in { 1 } else { 0 };
    let full = (am as u64) + (bm as u64) + cin;
    let res = (full as u32) & m;
    let mp1 = (m as u64) + 1;
    let c = full & mp1 != 0;
    let v = ((am ^ res) & (bm ^ res) & msb) != 0;
    let n = res & msb != 0;
    let z = res == 0;
    proof {
        lemma_mask_idem(a, m);
        lemma_mask_idem(b, m);
        lemma_mask_msb(a, m, msb);
        lemma_mask_msb(b, m, msb);
        lemma_add_bits(am, bm, cin, full, m, msb, mp1);
        assert(am == a & m && bm == b & m);
        assert(full as int == add_sum(a, b, carry_in, size));
        assert(res as int == wrap(add_sum(a, b, carry_in, size), size));
        assert(c == (add_sum(a, b, carry_in, size) > size.mask() as int));
        assert(v == (neg(a, size) == neg(b, size) && neg(res, size) != neg(a, size)));
    }
    (res, n, z, v, c)
}

pub(crate) proof fn lemma_mask_idem(x: u32, m: u32)
    by (bit_vector)
    ensures
        (x & m) & m == x & m,
        x & m <= m,
{
}

proof fn lemma_mask_msb(x: u32, m: u32, msb: u32)
    by (bit_vector)
    requires
        (m == 0xFFu32 && msb == 0x80u32) || (m == 0xFFFFu32 && msb == 0x8000u32) || (m == 0xFFFF_FFFFu32 && msb == 0x8000_0000u32),
    ensures
        (x & m) & msb == x & msb,
{
}

proof fn lemma_sub_bits(d: u32, s: u32, bin: u64, full: u64, m: u32, msb: u32)
    by (bit_vector)
    requires
        (m == 0xFFu32 && msb == 0x80u32) || (m == 0xFFFFu32 && msb == 0x8000u32) || (m == 0xFFFF_FFFFu32 && msb == 0x8000_0000u32),
        d & m == d,
        s & m == s,
        bin <= 1,
        full == (d as u64).wrapping_sub(s as u64).wrapping_sub(bin),
    ensures
        d as u64 >= s as u64 + bin ==> ((full as u32) & m) as u64 + s as u64 + bin == d as u64,
        (d as u64) < s as u64 + bin ==> ((full as u32) & m) as u64 + s as u64 + bin == (m as u64 + 1) + d as u64,
        (((d ^ s) & (d ^ ((full as u32) & m)) & msb) != 0)
            == ((d & msb != 0) != (s & msb != 0) && (((full as u32) & m) & msb != 0) != (d & msb != 0)),
{
}

/// Computes `dst - src - borrow_in`, returning `(result, n, z, v, c)`.
pub fn sub_flags(dst: u32, src: u32, borrow_in: bool, size: Size) -> (out: (u32, bool, bool, bool, bool))
    ensures
        out == sub_spec(dst, src, borrow_in, size),
{
    let m = size.mask();
    let msb = size.msb();
    let dm = dst & m;
    let sm = src & m;
    let bin: u64 = if borrow_in { 1 } else { 0 };
    let full = (dm as u64).wrapping_sub(sm as u64).wrapping_sub(bin);
    let res = (full as u32) & m;
    let c = (sm as u64) + bin > (dm as u64);
    let v = ((dm ^ sm) & (dm ^ res) & msb) != 0;
    let n = res & msb != 0;
    let z = res == 0;
    proof {
        lemma_mask_idem(dst, m);
        lemma_mask_idem(src, m);
        lemma_mask_msb(dst, m, msb);
        lemma_mask_msb(src, m, msb);
        lemma_sub_bits(dm, sm, bin, full, m, msb);
        let diff = sub_diff(dst, src, borrow_in, size);
        if diff < 0 {
            assert((diff % modulus(size)) == diff + modulus(size)) by {
                vstd::arithmetic::div_mod::lemma_mod_add_multiples_vanish(diff, modulus(size));
                vstd::arithmetic::div_mod::lemma_small_mod((diff + modulus(size)) as nat, modulus(size) as nat);
            }
        } else {
            vstd::arithmetic::div_mod::lemma_small_mod(diff as nat, modulus(size) as nat);
        }
        assert(res as int == wrap(diff, size));
        assert(c == (diff < 0));
        assert(v == (neg(dst, size) != neg(src, size) && neg(res, size) != neg(dst, size)));
    }
    (res, n, z, v, c)
}

/// `(n, z, v, c)` of a logical result: N and Z from the masked result, V and C clear.
pub open spec fn logic_spec(res: u32, size: Size) -> (bool, bool, bool, bool) {
    (neg(res & size.mask(), size), res & size.mask() == 0, false, false)
}

/// Flags for logical ops: N and Z from the result, V and C cleared, X kept.
///
/// Returns `(n, z, v, c)`; X is the caller's, because it is preserved rather
/// than computed.
pub fn logic_flags(res: u32, size: Size) -> (out: (bool, bool, bool, bool))
    ensures
        out == logic_spec(res, size),
{
    let r = res & size.mask();
    (r & size.msb() != 0, r == 0, false, false)
}

/// Turns a fresh `Z` into the accumulating `Z` the X-carrying instructions use:
/// the result's zero-ness is ANDed into the incoming `Z`.
pub fn accumulate_z(z_from_result: bool, z_initial: bool) -> (z: bool)
    ensures
        z == (z_from_result && z_initial),
{
    z_from_result && z_initial
}

/// The `Z` after a chain of accumulating steps (`ADDX`, `SUBX`, `NEGX` and the
/// BCD instructions over a multi-word value), starting from `z0`, whose
/// results were zero as `zs` says.
pub open spec fn chained_z(zs: Seq<bool>, z0: bool) -> bool
    decreases zs.len(),
{
    if zs.len() == 0 {
        z0
    } else {
        chained_z(zs.drop_last(), z0) && zs.last()
    }
}

/// Through a chain of accumulating steps `Z` ends set iff it started set and
/// every step's result was zero: a clear `Z` stays clear, so a multi-word
/// value tests zero as a whole.
pub proof fn accumulated_z_is_all_zero(zs: Seq<bool>, z0: bool)
    ensures
        chained_z(zs, z0) == (z0 && forall|i: int| 0 <= i < zs.len() ==> zs[i]),
    decreases zs.len(),
{
    if zs.len() > 0 {
        accumulated_z_is_all_zero(zs.drop_last(), z0);
        assert forall|i: int| 0 <= i < zs.len() - 1 implies zs.drop_last()[i] == zs[i] by {}
    }
}

/// Subtracting what was added gives back the size-masked original: the results
/// of `add_flags` and `sub_flags` are inverse at every size.
pub proof fn add_then_sub_is_identity(a: u32, b: u32, size: Size)
    ensures
        sub_spec(add_spec(a, b, false, size).0, b, false, size).0 == a & size.mask(),
{
    let m = size.mask();
    let r = add_spec(a, b, false, size).0;
    assert(r & m == r) by {
        lemma_wrap_masked(add_sum(a, b, false, size), size);
    }
    lemma_mask_bounded(a, m);
    lemma_mask_bounded(b, m);
    let md = modulus(size);
    let s = add_sum(a, b, false, size);
    let x = (a & m) as int;
    let y = (b & m) as int;
    vstd::arithmetic::div_mod::lemma_fundamental_div_mod(s, md);
    let d = sub_diff(r, b, false, size);
    vstd::arithmetic::div_mod::lemma_fundamental_div_mod(d, md);
    if s < md {
        vstd::arithmetic::div_mod::lemma_small_mod(s as nat, md as nat);
        assert(d == x);
        vstd::arithmetic::div_mod::lemma_small_mod(x as nat, md as nat);
    } else {
        vstd::arithmetic::div_mod::lemma_mod_sub_multiples_vanish(s, md);
        vstd::arithmetic::div_mod::lemma_small_mod((s - md) as nat, md as nat);
        assert(r as int == s - md);
        assert(d == x - md);
        vstd::arithmetic::div_mod::lemma_mod_add_multiples_vanish(x - md, md);
        vstd::arithmetic::div_mod::lemma_small_mod(x as nat, md as nat);
    }
}

proof fn lemma_mask_bounded(x: u32, m: u32)
    by (bit_vector)
    ensures
        x & m <= m,
{
}

proof fn lemma_wrap_masked(x: int, size: Size)
    ensures
        wrap(x, size) & size.mask() == wrap(x, size),
{
    let md = modulus(size);
    let w = wrap(x, size);
    assert(0 <= x % md < md);
    let m = size.mask();
    assert(w <= m);
    lemma_le_mask_idem(w, m);
}

proof fn lemma_le_mask_idem(w: u32, m: u32)
    by (bit_vector)
    requires
        m == 0xFFu32 || m == 0xFFFFu32 || m == 0xFFFF_FFFFu32,
        w <= m,
    ensures
        w & m == w,
{
}

} // verus!
