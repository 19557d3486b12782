//! `MULU`, `MULS`, `DIVU`, `DIVS` and `CHK`.
//!
//! The multiply and divide timings are data-dependent; the functions here
//! compute them. A zero divisor and an out-of-bounds `CHK` trap, and a
//! trapping instruction never performs its queue advance.

use crate::bus::Bus;
use crate::cpu::{with_ccr, with_d, M68k};
use crate::decode::Handler;
use crate::ea::{self, Size};
use crate::exception::{self, VEC_CHK, VEC_DIVIDE_BY_ZERO};
use crate::ops::alu::{self, Compute as AluCompute, Ops, Plan, Tail};
use crate::ops::arith::valid_src;
use crate::ops::{field_mode, field_reg, field_reg9, op_mode, op_reg, op_reg9};
use vstd::prelude::*;

verus! {

/// The number of set bits among the low `n` bits of `v`.
pub open spec fn popcount_spec(v: u32, n: nat) -> nat
    decreases n,
{
    if n == 0 {
        0
    } else {
        popcount_spec(v, (n - 1) as nat) + (if (v >> ((n - 1) as u32)) & 1 == 1 { 1nat } else { 0nat })
    }
}

/// The number of set bits in the low 16 bits of `v`.
pub fn popcount16(v: u32) -> (r: u32)
    ensures
        r == popcount_spec(v, 16),
        r <= 16,
{
    let mut count: u32 = 0;
    let mut i: u32 = 0;
    while i < 16
        invariant
            i <= 16,
            count == popcount_spec(v, i as nat),
            count <= i,
        decreases 16 - i,
    {
        if (v >> i) & 1 == 1 {
            count = count + 1;
        }
        i = i + 1;
    }
    count
}

/// `MULU` idles 2 cycles per set bit of the source.
pub fn mulu_idle(src: u16) -> (r: u32)
    ensures
        r == 34 + 2 * popcount_spec(src as u32, 16),
        r <= 66,
{
    34 + 2 * popcount16(src as u32)
}

/// `MULS` idles 2 cycles per `01`/`10` transition in the source with a zero
/// appended below it.
pub fn muls_idle(src: u16) -> (r: u32)
    ensures
        r == 34 + 2 * popcount_spec(((((src as u32) << 1u32) ^ (((src as u32) << 1u32) >> 1u32)) & 0xFFFF), 16),
        r <= 66,
{
    let v = (src as u32) << 1;
    34 + 2 * popcount16((v ^ (v >> 1)) & 0xFFFF)
}

/// `DIVU` timing: 6 on overflow, otherwise a 15-step walk of the restoring
/// division.
/// The idle cycles of `n` of `DIVU`'s quotient steps, from the running
/// dividend `dvd` against the divisor `dvs` in the high word: a step whose
/// dividend's top bit is set subtracts at no cost; any other shifts, costing 4,
/// or 2 when it then subtracts.
pub open spec fn divu_steps(dvd: u32, dvs: u32, n: nat) -> nat
    decreases n,
{
    if n == 0 {
        0
    } else {
        let shifted: u32 = dvd << 1u32;
        if (dvd as i32) < 0 {
            divu_steps(shifted.wrapping_sub(dvs), dvs, (n - 1) as nat)
        } else if shifted >= dvs {
            2 + divu_steps(shifted.wrapping_sub(dvs), dvs, (n - 1) as nat)
        } else {
            4 + divu_steps(shifted, dvs, (n - 1) as nat)
        }
    }
}

/// `DIVU`'s idle cycles: 6 when the quotient overflows, otherwise 72 plus
/// those of its 15 quotient steps.
pub open spec fn divu_idle_spec(dividend: u32, divisor: u16) -> nat {
    if (dividend >> 16u32) >= divisor as u32 {
        6
    } else {
        72 + divu_steps(dividend, (divisor as u32) << 16u32, 15)
    }
}

pub fn divu_idle(dividend: u32, divisor: u16) -> (r: u32)
    requires
        divisor != 0,
    ensures
        r == divu_idle_spec(dividend, divisor),
        r <= 200,
{
    if (dividend >> 16) >= divisor as u32 {
        return 6;
    }
    let mut idle: u32 = 72;
    let mut dvd = dividend;
    let dvs = (divisor as u32) << 16;
    let mut i: u32 = 0;
    while i < 15
        invariant
            i <= 15,
            idle <= 72 + 4 * i,
            idle >= 72,
            dvs == (divisor as u32) << 16u32,
            idle + divu_steps(dvd, dvs, (15 - i) as nat) == 72 + divu_steps(dividend, dvs, 15),
        decreases 15 - i,
    {
        let old = dvd;
        dvd = dvd << 1;
        if (old as i32) < 0 {
            dvd = dvd.wrapping_sub(dvs);
        } else {
            idle = idle + 4;
            if dvd >= dvs {
                dvd = dvd.wrapping_sub(dvs);
                idle = idle - 2;
            }
        }
        i = i + 1;
    }
    idle
}

/// The magnitude of a signed 32-bit value.
pub fn abs32(v: i32) -> (r: u32)
    ensures
        r as int == (if v < 0 { -(v as int) } else { v as int }),
{
    if v < 0 {
        if v == i32::MIN {
            0x8000_0000
        } else {
            (-v) as u32
        }
    } else {
        v as u32
    }
}

/// `DIVS` timing.
/// The magnitude of a signed 32-bit value, as an unsigned one.
pub open spec fn abs_spec(v: i32) -> u32 {
    (if v < 0 { -(v as int) } else { v as int }) as u32
}

/// `DIVS`'s idle cycles on magnitudes: 12 (14 for a negative dividend) when
/// the quotient overflows; otherwise 116, plus 2 for a negative divisor and 6
/// for a negative dividend (2 when both are negative), plus 2 for each clear
/// bit among the low 15 bits of the halved unsigned quotient.
pub open spec fn divs_idle_spec(dividend: u32, divisor: u16) -> int {
    let dvd_neg = (dividend as i32) < 0;
    let dvs_neg = (divisor as i16) < 0;
    let dvd_abs = abs_spec(dividend as i32);
    let dvs_abs = abs_spec(divisor as i16 as i32);
    if (dvd_abs >> 16u32) >= dvs_abs {
        12 + if dvd_neg { 2int } else { 0 }
    } else {
        let qq: u32 = (dvd_abs / dvs_abs) >> 1u32;
        116 + (if dvs_neg { 2int } else { 0 }) + (if dvd_neg { 6int } else { 0 }) - (if dvd_neg && dvs_neg { 4int } else { 0 })
            + 2 * (15 - popcount_spec(qq, 15))
    }
}

pub fn divs_idle(dividend: u32, divisor: u16) -> (r: u32)
    requires
        divisor != 0,
    ensures
        r == divs_idle_spec(dividend, divisor),
        r <= 200,
{
    let dvd_neg = (dividend as i32) < 0;
    let dvs_neg = (divisor as i16) < 0;
    let dvd_abs = abs32(dividend as i32);
    let dvs_abs = abs32(divisor as i16 as i32);
    if (dvd_abs >> 16) >= dvs_abs {
        return 12 + if dvd_neg {
            2
        } else {
            0
        };
    }
    let mut idle: u32 = 116;
    if dvs_neg {
        idle = idle + 2;
    }
    if dvd_neg {
        idle = idle + 6;
    }
    if dvd_neg && dvs_neg {
        idle = idle - 4;
    }
    let qq = (dvd_abs / dvs_abs) >> 1;
    let ghost base = idle;
    let mut i: u32 = 0;
    while i < 15
        invariant
            i <= 15,
            base <= 124,
            idle == base + 2 * (i - popcount_spec(qq, i as nat)),
            popcount_spec(qq, i as nat) <= i,
        decreases 15 - i,
    {
        if (qq >> i) & 1 != 1 {
            idle = idle + 2;
        }
        i = i + 1;
    }
    idle
}

/// `CHK` timing: 6 in bounds; 12 below zero without the difference
/// overflowing a word; 10 otherwise.
/// `CHK`'s idle cycles: 6 in bounds; out of bounds 12 for a negative value
/// within a word's reach of the bound, 10 otherwise.
pub open spec fn chk_idle_spec(value: i32, bound: i32) -> u32 {
    if value >= 0 && value <= bound {
        6
    } else if value < 0 && value <= bound && -32768 <= value - bound <= 32767 {
        12
    } else {
        10
    }
}

pub fn chk_idle(value: i32, bound: i32) -> (r: u32)
    ensures
        r == chk_idle_spec(value, bound),
        r == 6 || r == 10 || r == 12,
{
    let neg = value < 0;
    let gt = value > bound;
    if !neg && !gt {
        return 6;
    }
    let diff = value as i64 - bound as i64;
    let overflows_word = !(-32768 <= diff && diff <= 32767);
    if neg && !gt && !overflows_word {
        12
    } else {
        10
    }
}

/// The 16-bit signed quotient and remainder of `dividend / divisor`, truncated
/// toward zero, and whether the quotient overflows 16 bits.
pub open spec fn divs_spec(dividend: u32, divisor: u16) -> (int, int) {
    let d = dividend as i32 as int;
    let s = divisor as i16 as int;
    let qa = (if d < 0 { -d } else { d }) / (if s < 0 { -s } else { s });
    let ra = (if d < 0 { -d } else { d }) % (if s < 0 { -s } else { s });
    (if (d < 0) != (s < 0) { -qa } else { qa }, if d < 0 { -ra } else { ra })
}

/// Signed division truncates toward zero: for a nonzero divisor, the
/// quotient and remainder `divs_spec` gives for a signed long dividend and a
/// signed word divisor satisfy dividend == quotient * divisor + remainder,
/// with the remainder smaller than the divisor in magnitude and either zero
/// or of the dividend's sign.
pub proof fn signed_division_truncates_toward_zero(dividend: u32, divisor: u16)
    requires
        divisor != 0,
    ensures
        ({
            let (q, r) = divs_spec(dividend, divisor);
            let d = dividend as i32 as int;
            let s = divisor as i16 as int;
            &&& d == q * s + r
            &&& (if r < 0 { -r } else { r }) < (if s < 0 { -s } else { s })
            &&& r == 0 || (r < 0) == (d < 0)
        }),
{
    let d = dividend as i32 as int;
    let s = divisor as i16 as int;
    let s16 = divisor as i16;
    assert(s16 != 0) by (bit_vector)
        requires
            divisor != 0,
            s16 == divisor as i16,
    ;
    let da = if d < 0 { -d } else { d };
    let sa = if s < 0 { -s } else { s };
    vstd::arithmetic::div_mod::lemma_fundamental_div_mod(da, sa);
    vstd::arithmetic::div_mod::lemma_mod_pos_bound(da, sa);
    let qa = da / sa;
    let ra = da % sa;
    let (q, r) = divs_spec(dividend, divisor);
    assert(q == (if (d < 0) != (s < 0) { -qa } else { qa }));
    assert(r == (if d < 0 { -ra } else { ra }));
    assert(d == q * s + r) by (nonlinear_arith)
        requires
            da == sa * qa + ra,
            d < 0 ==> da == -d,
            d >= 0 ==> da == d,
            s < 0 ==> sa == -s,
            s >= 0 ==> sa == s,
            q == (if (d < 0) != (s < 0) { -qa } else { qa }),
            r == (if d < 0 { -ra } else { ra }),
    ;
}

/// The low word of an integer, as a two's-complement pattern.
pub open spec fn word_of(v: int) -> u32 {
    (v % 0x10000) as u32
}

/// The CPU after a multiply, a divide or a `CHK` that does not trap, or `None`
/// for the inputs on which it traps (a zero divisor; a `CHK` value below zero
/// or above the bound). X is kept and V, C cleared unless a quotient
/// overflows, which sets N and V and leaves the destination alone.
pub open spec fn result_spec(cpu: M68k, c: Compute, ops: Ops) -> Option<M68k> {
    let x = cpu.spec_ccr_x();
    match c {
        Compute::Mul { signed, dn } => {
            let src = ops.ea as u16;
            let dst = cpu.d[dn as int] as u16;
            let r = if signed { (src as i16 as int * dst as i16 as int) as u32 } else { (src as int * dst as int) as u32 };
            Some(with_ccr(with_d(cpu, dn as int, r), x, r & 0x8000_0000 != 0, r == 0, false, false))
        },
        Compute::Div { signed, dn } => {
            let divisor = ops.ea as u16;
            let dividend = cpu.d[dn as int];
            if divisor == 0 {
                None
            } else {
                let (q, rm) = if signed {
                    divs_spec(dividend, divisor)
                } else {
                    (dividend as int / divisor as int, dividend as int % divisor as int)
                };
                let overflow = if signed { q < -32768 || q > 32767 } else { q > 0xFFFF };
                if overflow {
                    Some(with_ccr(cpu, x, true, false, true, false))
                } else {
                    let w = word_of(rm) * 0x10000 + word_of(q);
                    Some(with_ccr(with_d(cpu, dn as int, w as u32), x, word_of(q) >= 0x8000, word_of(q) == 0, false, false))
                }
            }
        },
        Compute::Chk { dn } => {
            let bound = ops.ea as u16 as i16;
            let value = cpu.d[dn as int] as u16 as i16;
            if value < 0 || value > bound {
                None
            } else {
                Some(with_ccr(cpu, x, false, value == 0, false, false))
            }
        },
    }
}

/// A word pattern read as a signed 16-bit number.
pub open spec fn signed_word(v: int) -> int {
    if v >= 0x8000 { v - 0x10000 } else { v }
}

/// `DIVS` leaves a truncated quotient and its remainder: when the divisor is
/// nonzero and the quotient fits (V clear), the destination's low word read
/// as a signed word is a quotient `q` and its high word a remainder `r` with
/// dividend == q * divisor + r, `r` smaller than the divisor in magnitude and
/// either zero or of the dividend's sign.
pub proof fn divs_leaves_truncated_quotient_and_remainder(cpu: M68k, dn: usize, ops: Ops)
    requires
        dn < 8,
        ops.ea as u16 != 0,
        result_spec(cpu, Compute::Div { signed: true, dn }, ops) matches Some(after) && !after.spec_ccr_v(),
    ensures
        ({
            let after = result_spec(cpu, Compute::Div { signed: true, dn }, ops)->Some_0;
            let w = after.d[dn as int] as int;
            let q = signed_word(w % 0x10000);
            let r = signed_word(w / 0x10000);
            let d = cpu.d[dn as int] as i32 as int;
            let s = ops.ea as u16 as i16 as int;
            &&& d == q * s + r
            &&& (if r < 0 { -r } else { r }) < (if s < 0 { -s } else { s })
            &&& r == 0 || (r < 0) == (d < 0)
        }),
{
    let divisor = ops.ea as u16;
    let dividend = cpu.d[dn as int];
    signed_division_truncates_toward_zero(dividend, divisor);
    let (q, rm) = divs_spec(dividend, divisor);
    let x = cpu.spec_ccr_x();
    crate::cpu::ccr_roundtrip(cpu, x, true, false, true, false);
    let s = divisor as i16 as int;
    assert(-32768 <= s <= 32767);
    assert(!(q < -32768 || q > 32767));
    let w = word_of(rm) * 0x10000 + word_of(q);
    assert(0 <= word_of(q) < 0x10000 && 0 <= word_of(rm) < 0x10000);
    assert(w % 0x10000 == word_of(q));
    assert(w / 0x10000 == word_of(rm));
    assert(signed_word(word_of(q) as int) == q);
    assert(signed_word(word_of(rm) as int) == rm);
}

/// The registers a trapping divide or `CHK` enters its exception from: a
/// `CHK` has set N and Z from the value first.
pub open spec fn trap_regs_spec(cpu: M68k, c: Compute, ops: Ops) -> M68k {
    match c {
        Compute::Chk { dn } => {
            let value = cpu.d[dn as int] as u16 as i16;
            with_ccr(cpu, cpu.spec_ccr_x(), value < 0, value == 0, false, false)
        },
        _ => cpu,
    }
}

/// The idle a trapping divide (by zero) or `CHK` (out of bounds) costs
/// before its exception.
pub open spec fn trap_idle_spec(cpu: M68k, c: Compute, ops: Ops) -> u32 {
    match c {
        Compute::Chk { dn } => chk_idle_spec(cpu.d[dn as int] as u16 as i16 as i32, ops.ea as u16 as i16 as i32),
        _ => 10,
    }
}

/// The idle a non-trapping multiply, divide or `CHK` costs, from the CPU it
/// computes on.
pub open spec fn idle_spec(cpu: M68k, c: Compute, ops: Ops) -> u32 {
    let src = ops.ea as u16;
    match c {
        Compute::Mul { signed, .. } => if signed {
            (34 + 2 * popcount_spec(((((src as u32) << 1u32) ^ (((src as u32) << 1u32) >> 1u32)) & 0xFFFF), 16)) as u32
        } else {
            (34 + 2 * popcount_spec(src as u32, 16)) as u32
        },
        Compute::Div { signed, dn } => if signed {
            divs_idle_spec(cpu.d[dn as int], src) as u32
        } else {
            divu_idle_spec(cpu.d[dn as int], src) as u32
        },
        Compute::Chk { .. } => 6,
    }
}

/// What a multiply, divide or `CHK` computes once its source is read.
#[derive(Clone, Copy)]
pub enum Compute {
    Mul { signed: bool, dn: usize },
    Div { signed: bool, dn: usize },
    Chk { dn: usize },
}

pub open spec fn compute_ok(c: Compute) -> bool {
    match c {
        Compute::Mul { dn, .. } => dn < 8,
        Compute::Div { dn, .. } => dn < 8,
        Compute::Chk { dn } => dn < 8,
    }
}

/// Runs a multiply, divide or `CHK`. Returns how it finishes and its own idle.
pub fn apply<B: Bus>(cpu: &mut M68k, bus: &mut B, c: Compute, ops: Ops) -> (r: (Tail, u32))
    requires
        compute_ok(c),
    ensures
        r.1 <= 200,
        match result_spec(*old(cpu), c, ops) {
            Some(after) => *final(cpu) == after && r.0 == Tail::Done && r.1 == idle_spec(*old(cpu), c, ops),
            None => {
                let f = trap_regs_spec(*old(cpu), c, ops);
                &&& r.0 == Tail::Trapped
                &&& r.1 == trap_idle_spec(*old(cpu), c, ops)
                &&& exception::double_fault_spec(f) ==> exception::halted_from(f, *final(cpu))
                &&& !exception::double_fault_spec(f) ==> exception::entered(f, *final(cpu), 6)
            },
        },
{
    match c {
        Compute::Mul { signed, dn } => {
            let src = ops.ea as u16;
            let dst = cpu.d[dn] as u16;
            let result: u32 = if signed {
                let a = src as i16 as i32;
                let b = dst as i16 as i32;
                assert(-32768 <= a <= 32767 && -32768 <= b <= 32767 ==> -0x4000_0000 <= a * b <= 0x4000_0000) by (nonlinear_arith);
                (a * b) as u32
            } else {
                let a = src as u32;
                let b = dst as u32;
                assert(a <= 0xFFFF && b <= 0xFFFF ==> a * b <= 0xFFFF_FFFF) by (nonlinear_arith);
                a * b
            };
            let own_idle = if signed {
                muls_idle(src)
            } else {
                mulu_idle(src)
            };
            cpu.d[dn] = result;
            let x = cpu.ccr_x();
            cpu.set_ccr(x, result & 0x8000_0000 != 0, result == 0, false, false);
            (Tail::Done, own_idle)
        },
        Compute::Div { signed, dn } => apply_div(cpu, bus, signed, dn, ops),
        Compute::Chk { dn } => {
            let bound = ops.ea as u16 as i16 as i32;
            let value = cpu.d[dn] as u16 as i16 as i32;
            let own_idle = chk_idle(value, bound);
            let x = cpu.ccr_x();
            cpu.set_ccr(x, value < 0, value == 0, false, false);
            if value < 0 || value > bound {
                exception::take(cpu, bus, VEC_CHK, ops.trap_pc);
                (Tail::Trapped, own_idle)
            } else {
                (Tail::Done, own_idle)
            }
        },
    }
}

/// `DIVU`/`DIVS` once the divisor is read.
fn apply_div<B: Bus>(cpu: &mut M68k, bus: &mut B, signed: bool, dn: usize, ops: Ops) -> (r: (Tail, u32))
    requires
        dn < 8,
    ensures
        r.1 <= 200,
        match result_spec(*old(cpu), Compute::Div { signed, dn }, ops) {
            Some(after) => *final(cpu) == after && r.0 == Tail::Done && r.1 == idle_spec(*old(cpu), Compute::Div { signed, dn }, ops),
            None => {
                &&& r.0 == Tail::Trapped
                &&& r.1 == 10
                &&& exception::double_fault_spec(*old(cpu)) ==> exception::halted_from(*old(cpu), *final(cpu))
                &&& !exception::double_fault_spec(*old(cpu)) ==> exception::entered(*old(cpu), *final(cpu), 6)
                &&& exception::double_fault_spec(*old(cpu)) ==> final(bus).log() == old(bus).log()
                &&& !exception::double_fault_spec(*old(cpu)) ==> exception::short_frame_accesses(
                    old(bus).log(),
                    final(bus).log(),
                    exception::frame_base_spec(*old(cpu)),
                    old(cpu).sr,
                    ops.trap_pc,
                    VEC_DIVIDE_BY_ZERO,
                    *final(cpu),
                )
            },
        },
{
    let divisor = ops.ea as u16;
    let dividend = cpu.d[dn];
    if divisor == 0 {
        exception::take(cpu, bus, VEC_DIVIDE_BY_ZERO, ops.trap_pc);
        return (Tail::Trapped, 10);
    }
    let own_idle = if signed {
        divs_idle(dividend, divisor)
    } else {
        divu_idle(dividend, divisor)
    };
    let (quot, rem, overflow) = if signed {
        let d = dividend as i32;
        let s = divisor as i16 as i32;
        assert(divisor as i16 as i32 != 0) by (bit_vector) requires divisor != 0;
        let da = abs32(d);
        let sa = abs32(s);
        let qa = da / sa;
        let ra = da % sa;
        let qneg = (d < 0) != (s < 0);
        let q = if qneg {
            0u32.wrapping_sub(qa)
        } else {
            qa
        };
        let r = if d < 0 {
            0u32.wrapping_sub(ra)
        } else {
            ra
        };
        let ovf = if qneg {
            qa > 32768
        } else {
            qa > 32767
        };
        (q, r, ovf)
    } else {
        let q = dividend / divisor as u32;
        (q, dividend % divisor as u32, q > 0xFFFF)
    };
    if overflow {
        let x = cpu.ccr_x();
        cpu.set_ccr(x, true, false, true, false);
    } else {
        proof {
            lemma_pack(rem, quot);
        }
        cpu.d[dn] = ((rem & 0xFFFF) << 16) | (quot & 0xFFFF);
        let x = cpu.ccr_x();
        cpu.set_ccr(x, quot & 0x8000 != 0, quot & 0xFFFF == 0, false, false);
    }
    assert(result_spec(*old(cpu), Compute::Div { signed, dn }, ops) == Some(*cpu));
    assert(own_idle == idle_spec(*old(cpu), Compute::Div { signed, dn }, ops));
    (Tail::Done, own_idle)
}

/// Packing two words into a long, in arithmetic terms.
proof fn lemma_pack(hi: u32, lo: u32)
    ensures
        ((hi & 0xFFFF) << 16u32) | (lo & 0xFFFF) == (hi % 0x10000) * 0x10000 + lo % 0x10000,
        (lo & 0xFFFF == 0) == (lo % 0x10000 == 0),
        (lo & 0x8000 != 0) == (lo % 0x10000 >= 0x8000),
{
    assert(((hi & 0xFFFF) << 16u32) | (lo & 0xFFFF) == (hi % 0x10000) * 0x10000 + lo % 0x10000) by (bit_vector);
    assert((lo & 0xFFFF == 0) == (lo % 0x10000 == 0)) by (bit_vector);
    assert((lo & 0x8000 != 0) == (lo % 0x10000 >= 0x8000)) by (bit_vector);
}

/// What [`mul`] guarantees: the CPU after it (`new`) and the cycles it
/// returns (`r`), from the CPU before it (`old`).
pub open spec fn mul_post(old: M68k, new: M68k, op: u16, signed: bool, r: u32) -> bool {
    &&& r <= 2000
    &&& alu::direct_plan(alu::plan_of(Size::Word, op_mode(op), op_reg(op), 0, false, 0)) ==> alu::direct_result(
        old,
        new,
        alu::plan_of(Size::Word, op_mode(op), op_reg(op), 0, false, 0),
        AluCompute::MulDiv(Compute::Mul { signed, dn: op_reg9(op) as usize }),
        r,
    )
    &&& alu::indirect_plan(alu::plan_of(Size::Word, op_mode(op), op_reg(op), 0, false, 0)) ==> alu::indirect_run(
        old,
        new,
        alu::plan_of(Size::Word, op_mode(op), op_reg(op), 0, false, 0),
        AluCompute::MulDiv(Compute::Mul { signed, dn: op_reg9(op) as usize }),
        r,
    )
}

/// `MULU`/`MULS <ea>,Dn`.
pub fn mul<B: Bus>(cpu: &mut M68k, bus: &mut B, op: u16, signed: bool) -> (r: u32)
    ensures
        mul_post(*old(cpu), *final(cpu), op, signed, r),
{
    let (mode, reg) = (field_mode(op), field_reg(op));
    if !ea::valid_ea(mode, reg) {
        return exception::illegal_instruction(cpu, bus, op);
    }
    let dn = field_reg9(op) as usize;
    let plan = Plan::new(Size::Word, mode, reg);
    alu::run(cpu, bus, &plan, AluCompute::MulDiv(Compute::Mul { signed, dn }))
}

/// What [`div`] guarantees: the CPU after it (`new`) and the cycles it
/// returns (`r`), from the CPU before it (`old`).
pub open spec fn div_post(old: M68k, new: M68k, op: u16, signed: bool, r: u32) -> bool {
    let plan = alu::plan_of(Size::Word, op_mode(op), op_reg(op), 0, false, 0);
    let c = AluCompute::MulDiv(Compute::Div { signed, dn: op_reg9(op) as usize });
    &&& r <= 2000
    &&& alu::direct_plan(plan) && !alu::direct_traps(old, plan, c) ==> alu::direct_result(old, new, plan, c, r)
    &&& alu::direct_plan(plan) && alu::direct_traps(old, plan, c) ==> alu::direct_trap(old, new, plan, c, r)
    &&& alu::indirect_plan(plan) ==> alu::indirect_run(old, new, plan, c, r)
}

/// `DIVU`/`DIVS <ea>,Dn`.
pub fn div<B: Bus>(cpu: &mut M68k, bus: &mut B, op: u16, signed: bool) -> (r: u32)
    ensures
        div_post(*old(cpu), *final(cpu), op, signed, r),
{
    let (mode, reg) = (field_mode(op), field_reg(op));
    if !ea::valid_ea(mode, reg) {
        return exception::illegal_instruction(cpu, bus, op);
    }
    let dn = field_reg9(op) as usize;
    let plan = Plan::new(Size::Word, mode, reg);
    alu::run_tail(cpu, bus, &plan, AluCompute::MulDiv(Compute::Div { signed, dn }))
}

/// What [`chk`] guarantees: the CPU after it (`new`) and the cycles it
/// returns (`r`), from the CPU before it (`old`).
pub open spec fn chk_post(old: M68k, new: M68k, op: u16, r: u32) -> bool {
    let plan = alu::plan_of(Size::Word, op_mode(op), op_reg(op), 0, false, 0);
    let c = AluCompute::MulDiv(Compute::Chk { dn: op_reg9(op) as usize });
    &&& r <= 2000
    &&& alu::direct_plan(plan) && !alu::direct_traps(old, plan, c) ==> alu::direct_result(old, new, plan, c, r)
    &&& alu::direct_plan(plan) && alu::direct_traps(old, plan, c) ==> alu::direct_trap(old, new, plan, c, r)
    &&& alu::indirect_plan(plan) ==> alu::indirect_run(old, new, plan, c, r)
}

/// `CHK <ea>,Dn`: traps if `Dn.w` is negative or above the bound.
pub fn chk<B: Bus>(cpu: &mut M68k, bus: &mut B, op: u16) -> (r: u32)
    ensures
        chk_post(*old(cpu), *final(cpu), op, r),
{
    let (mode, reg) = (field_mode(op), field_reg(op));
    if !ea::valid_ea(mode, reg) {
        return exception::illegal_instruction(cpu, bus, op);
    }
    let dn = field_reg9(op) as usize;
    let plan = Plan::new(Size::Word, mode, reg);
    alu::run_tail(cpu, bus, &plan, AluCompute::MulDiv(Compute::Chk { dn }))
}

/// The handler this module assigns: `MULU`/`MULS` (line C), `DIVU`/`DIVS`
/// (line 8) and `CHK` (line 4), each with a data source.
pub open spec fn claim_spec(op: u16) -> Option<Handler> {
    let (mode, reg) = (op_mode(op), op_reg(op));
    let line = op >> 12u16;
    let opmode = (op >> 6u16) & 7;
    if mode == 1 || !crate::ops::src_ok(mode, reg, Size::Word) {
        None
    } else if line == 0xC && opmode == 3 {
        Some(Handler::Mul(false))
    } else if line == 0xC && opmode == 7 {
        Some(Handler::Mul(true))
    } else if line == 0x8 && opmode == 3 {
        Some(Handler::Div(false))
    } else if line == 0x8 && opmode == 7 {
        Some(Handler::Div(true))
    } else if line == 0x4 && opmode == 6 {
        Some(Handler::Chk)
    } else {
        None
    }
}

/// The handler this module assigns to `op`, if any.
pub fn claim(op: u16) -> (r: Option<Handler>)
    ensures
        r == claim_spec(op),
{
    let mode = field_mode(op);
    let reg = field_reg(op);
    if mode == 1 || !valid_src(mode, reg, Size::Word) {
        return None;
    }
    let line = op >> 12;
    let opmode = (op >> 6) & 7;
    if line == 0xC && opmode == 3 {
        return Some(Handler::Mul(false));
    }
    if line == 0xC && opmode == 7 {
        return Some(Handler::Mul(true));
    }
    if line == 0x8 && opmode == 3 {
        return Some(Handler::Div(false));
    }
    if line == 0x8 && opmode == 7 {
        return Some(Handler::Div(true));
    }
    if line == 0x4 && opmode == 6 {
        return Some(Handler::Chk);
    }
    None
}

/// Installs this family's handlers into the dispatch table: the opcodes
/// `claim_spec` gives a handler get it, the others keep theirs.
pub fn register(table: &mut Vec<Handler>)
    requires
        old(table).len() == 65536,
    ensures
        final(table).len() == 65536,
        forall|i: int|
            0 <= i < 65536 ==> #[trigger] final(table)@[i] == (match claim_spec(i as u16) {
                Some(h) => h,
                None => old(table)@[i],
            }),
{
    crate::ops::install(table, 6);
}

} // verus!
