//! `ABCD`, `SBCD` and `NBCD`: packed binary-coded-decimal arithmetic.
//!
//! X is the incoming carry or borrow and receives the outgoing one, as C does;
//! Z accumulates; V reports the decimal correction flipping the top bit.

use crate::bus::{Access, Bus};
use crate::cpu::{advanced, ccr_bits, with_ccr, M68k, ADDR_MASK};
use crate::decode::Handler;
use crate::ea::{self, Ea, Size};
use crate::flags::accumulate_z;
use crate::ops::alu::{self, Compute as AluCompute, Ops, Plan, Tail};
use crate::ops::arith::valid_data_alterable;
use crate::ops::{field_mode, field_reg, field_reg9, op_mode, op_reg, op_reg9};
use vstd::prelude::*;

verus! {

broadcast use crate::bus::lemma_masked_address;

/// A byte holding two decimal digits.
pub open spec fn is_bcd(a: u8) -> bool {
    a & 0xF <= 9 && a >> 4u8 <= 9
}

/// The value of a packed decimal byte.
pub open spec fn bcd_value(a: u8) -> int {
    (a >> 4u8) as int * 10 + (a & 0xF) as int
}

/// Decimal addition with carry in: `(digits, carry_out)`.
pub fn abcd(a: u8, b: u8, x: bool) -> (r: (u8, bool))
    ensures
        r == abcd_spec(a, b, x),
        is_bcd(a) && is_bcd(b) ==> is_bcd(r.0)
            && bcd_value(r.0) + (if r.1 { 100int } else { 0int }) == bcd_value(a) + bcd_value(b) + (if x { 1int } else { 0int }),
{
    let xi: u16 = if x {
        1
    } else {
        0
    };
    assert(a & 0x0F <= 15 && b & 0x0F <= 15 && a >> 4u8 <= 15 && b >> 4u8 <= 15) by (bit_vector);
    let mut lo: u16 = (a & 0x0F) as u16 + (b & 0x0F) as u16 + xi;
    if lo > 9 {
        lo = lo + 6;
    }
    assert(lo >> 4u16 <= 2) by (bit_vector) requires lo <= 37;
    let mut hi: u16 = (a >> 4) as u16 + (b >> 4) as u16 + (lo >> 4);
    if hi > 9 {
        hi = hi + 6;
    }
    let res = (((hi & 0xF) << 4) | (lo & 0xF)) as u8;
    proof {
        assert((lo, hi) == abcd_digits(a, b, xi));
        lemma_abcd(a, b, xi, res, hi >= 0x10);
    }
    (res, hi >= 0x10)
}

/// Decimal addition: each digit sum above 9 is corrected by 6, carrying into
/// the next digit; the carry out is the high digit's.
pub open spec fn abcd_spec(a: u8, b: u8, x: bool) -> (u8, bool) {
    let (lo, hi) = abcd_digits(a, b, if x { 1u16 } else { 0u16 });
    ((((hi & 0xF) << 4u16) | (lo & 0xF)) as u8, hi >= 0x10)
}

/// Decimal subtraction: the binary difference, less 6 if the low digit
/// borrowed and 0x60 if the whole byte did; the borrow out is the sign.
pub open spec fn sbcd_spec(a: u8, b: u8, x: bool) -> (u8, bool) {
    let xi: int = if x { 1 } else { 0 };
    let lo_borrow = (a & 0x0F) as int - (b & 0x0F) as int - xi < 0;
    let binary_borrow = a as int - b as int - xi < 0;
    let res = a as int - b as int - xi - (if lo_borrow { 6int } else { 0int }) - (if binary_borrow { 0x60int } else { 0int });
    (res as u8, res < 0)
}

/// The digit adjustment `abcd` performs, as a function of its inputs.
pub open spec fn abcd_digits(a: u8, b: u8, xi: u16) -> (u16, u16) {
    let lo0: u16 = ((a & 0x0F) as u16 + (b & 0x0F) as u16 + xi) as u16;
    let lo: u16 = if lo0 > 9 { (lo0 + 6) as u16 } else { lo0 };
    let hi0: u16 = ((a >> 4u8) as u16 + (b >> 4u8) as u16 + (lo >> 4u16)) as u16;
    let hi: u16 = if hi0 > 9 { (hi0 + 6) as u16 } else { hi0 };
    (lo, hi)
}

proof fn lemma_abcd(a: u8, b: u8, xi: u16, res: u8, carry: bool)
    requires
        xi <= 1,
        res == (((abcd_digits(a, b, xi).1 & 0xF) << 4u16) | (abcd_digits(a, b, xi).0 & 0xF)) as u8,
        carry == (abcd_digits(a, b, xi).1 >= 0x10),
    ensures
        is_bcd(a) && is_bcd(b) ==> is_bcd(res)
            && bcd_value(res) + (if carry { 100int } else { 0int }) == bcd_value(a) + bcd_value(b) + xi as int,
{
    if is_bcd(a) && is_bcd(b) {
        let ah = a >> 4u8;
        let al = a & 0xF;
        let bh = b >> 4u8;
        let bl = b & 0xF;
        let lo0: u16 = ((a & 0x0F) as u16 + (b & 0x0F) as u16 + xi) as u16;
        let lo: u16 = if lo0 > 9 { (lo0 + 6) as u16 } else { lo0 };
        let hi0: u16 = ((a >> 4u8) as u16 + (b >> 4u8) as u16 + (lo >> 4u16)) as u16;
        let hi: u16 = if hi0 > 9 { (hi0 + 6) as u16 } else { hi0 };
        assert(lo >> 4u16 == (if lo0 > 9 { 1u16 } else { 0u16 })) by (bit_vector)
            requires
                lo0 <= 19,
                lo == (if lo0 > 9 { (lo0 + 6) as u16 } else { lo0 }),
        ;
        assert(lo & 0xF == (if lo0 > 9 { (lo0 - 10) as u16 } else { lo0 })) by (bit_vector)
            requires
                lo0 <= 19,
                lo == (if lo0 > 9 { (lo0 + 6) as u16 } else { lo0 }),
        ;
        assert(hi & 0xF == (if hi0 > 9 { (hi0 - 10) as u16 } else { hi0 })) by (bit_vector)
            requires
                hi0 <= 19,
                hi == (if hi0 > 9 { (hi0 + 6) as u16 } else { hi0 }),
        ;
        assert((hi >= 0x10) == (hi0 > 9)) by (bit_vector)
            requires
                hi0 <= 19,
                hi == (if hi0 > 9 { (hi0 + 6) as u16 } else { hi0 }),
        ;
        let h4 = hi & 0xF;
        let l4 = lo & 0xF;
        assert(((((h4 << 4u16) | l4) as u8) >> 4u8) as u16 == h4 && ((((h4 << 4u16) | l4) as u8) & 0xF) as u16 == l4) by (bit_vector)
            requires
                h4 <= 9,
                l4 <= 9,
        ;
    }
}

proof fn lemma_sbcd_bv(a: u8, b: u8, xi: i16, res: i16)
    requires
        xi == 0 || xi == 1,
        is_bcd(a),
        is_bcd(b),
        res == a as i16 - b as i16 - xi
            - (if (a & 0x0F) as i16 - (b & 0x0F) as i16 - xi < 0 { 6i16 } else { 0i16 })
            - (if a as i16 - b as i16 - xi < 0 { 0x60i16 } else { 0i16 }),
    ensures
        is_bcd(res as u8),
        bcd_value(res as u8) - (if res < 0 { 100int } else { 0int }) == bcd_value(a) - bcd_value(b) - xi,
{
    let r = res as u8;
    assert(r & 0xF <= 9 && r >> 4u8 <= 9
        && (r >> 4u8) as i16 * 10 + (r & 0xF) as i16 - (if res < 0 { 100i16 } else { 0i16 })
            == (a >> 4u8) as i16 * 10 + (a & 0xF) as i16 - (b >> 4u8) as i16 * 10 - (b & 0xF) as i16 - xi) by (bit_vector)
        requires
            r == res as u8,
            xi == 0 || xi == 1,
            a & 0xF <= 9,
            a >> 4u8 <= 9,
            b & 0xF <= 9,
            b >> 4u8 <= 9,
            res == a as i16 - b as i16 - xi
                - (if (a & 0x0F) as i16 - (b & 0x0F) as i16 - xi < 0 { 6i16 } else { 0i16 })
                - (if a as i16 - b as i16 - xi < 0 { 0x60i16 } else { 0i16 }),
    ;
}

/// Decimal subtraction with borrow in: `(digits, borrow_out)`.
pub fn sbcd(a: u8, b: u8, x: bool) -> (r: (u8, bool))
    ensures
        r == sbcd_spec(a, b, x),
        is_bcd(a) && is_bcd(b) ==> is_bcd(r.0)
            && bcd_value(r.0) - (if r.1 { 100int } else { 0int }) == bcd_value(a) - bcd_value(b) - (if x { 1int } else { 0int }),
{
    let xi: i16 = if x {
        1
    } else {
        0
    };
    let lo_borrow = ((a & 0x0F) as i16 - (b & 0x0F) as i16 - xi) < 0;
    let binary_borrow = (a as i16) - (b as i16) - xi < 0;
    let mut res: i16 = (a as i16) - (b as i16) - xi;
    if lo_borrow {
        res = res - 6;
    }
    if binary_borrow {
        res = res - 0x60;
    }
    proof {
        if is_bcd(a) && is_bcd(b) {
            lemma_sbcd_bv(a, b, xi, res);
        }
    }
    (res as u8, res < 0)
}

/// The CPU after a BCD result: X and C take the carry, Z accumulates, N is
/// the top bit, and V reports the correction flipping the top bit (0 to 1
/// when adding, 1 to 0 when subtracting).
pub open spec fn finish_spec(cpu: M68k, res: u8, carry: bool, uncorrected: u8, adding: bool) -> M68k {
    let v = if adding { (!uncorrected & res) & 0x80 != 0 } else { (uncorrected & !res) & 0x80 != 0 };
    with_ccr(cpu, carry, res & 0x80 != 0, res == 0 && cpu.spec_ccr_z(), v, carry)
}

/// Sets the flags of a BCD result. Returns the result as a long.
pub fn finish(cpu: &mut M68k, res: u8, carry: bool, uncorrected: u8, adding: bool) -> (r: u32)
    ensures
        r == res as u32,
        *final(cpu) == finish_spec(*old(cpu), res, carry, uncorrected, adding),
{
    let v = if adding {
        (!uncorrected & res) & 0x80 != 0
    } else {
        (uncorrected & !res) & 0x80 != 0
    };
    let z = accumulate_z(res == 0, cpu.ccr_z());
    cpu.set_ccr(carry, res & 0x80 != 0, z, v, carry);
    res as u32
}

/// The CPU after `ABCD Dy,Dx` / `SBCD Dy,Dx`: the low byte of `Dx` takes the
/// decimal result and the flags are set as `finish_spec` says.
pub open spec fn register_bcd_spec(cpu: M68k, op: u16, adding: bool) -> M68k {
    let (rx, ry) = (op_reg9(op) as int, op_reg(op) as int);
    let (dst, src) = (cpu.d[rx] as u8, cpu.d[ry] as u8);
    let x = cpu.spec_ccr_x();
    let xi: u8 = if x { 1 } else { 0 };
    let (res, carry) = if adding { abcd_spec(dst, src, x) } else { sbcd_spec(dst, src, x) };
    let uncorrected = if adding { dst.wrapping_add(src).wrapping_add(xi) } else { dst.wrapping_sub(src).wrapping_sub(xi) };
    let after = finish_spec(cpu, res, carry, uncorrected, adding);
    crate::cpu::with_d(after, rx, (cpu.d[rx] & !0xFFu32) | res as u32)
}

/// The CPU after the memory form `-(Ay),-(Ax)` of `ABCD`/`SBCD` has read the
/// bytes `src` (through `Ay`) and `dst` (through `Ax`): both address registers
/// stepped down, `Ay` first, and the flags of the decimal result; the result
/// itself goes to memory.
pub open spec fn memory_bcd_spec(cpu: M68k, op: u16, adding: bool, dst: u8, src: u8) -> M68k {
    let adj = crate::ea::adjusted(crate::ea::adjusted(cpu, 4, op_reg(op), Size::Byte), 4, op_reg9(op), Size::Byte);
    let x = cpu.spec_ccr_x();
    let xi: u8 = if x { 1 } else { 0 };
    let (res, carry) = if adding { abcd_spec(dst, src, x) } else { sbcd_spec(dst, src, x) };
    let uncorrected = if adding { dst.wrapping_add(src).wrapping_add(xi) } else { dst.wrapping_sub(src).wrapping_sub(xi) };
    finish_spec(adj, res, carry, uncorrected, adding)
}

/// The memory form's outcome for the bytes it read: the registers and flags
/// of [`memory_bcd_spec`], then one queue advance.
pub open spec fn memory_bcd_outcome(old: M68k, new: M68k, op: u16, adding: bool, dst: u8, src: u8) -> bool {
    advanced(memory_bcd_spec(old, op, adding, dst, src), new)
}

/// The decimal result byte of `dst + src + X` (adding) or `dst - src - X`.
pub open spec fn bcd_result(dst: u8, src: u8, x: bool, adding: bool) -> u8 {
    if adding { abcd_spec(dst, src, x).0 } else { sbcd_spec(dst, src, x).0 }
}

/// The bus accesses of the memory form of `ABCD`/`SBCD` from `old`, from the
/// bus record `log0` to `log1`, for the bytes `src` and `dst` it read: the
/// source byte at `Ay` after its decrement, the destination byte at `Ax`
/// after its own, the queue advance, and the result written back to the
/// destination byte.
pub open spec fn memory_bcd_accesses(old: M68k, new: M68k, op: u16, adding: bool, log0: Seq<Access>, log1: Seq<Access>, dst: u8, src: u8) -> bool {
    let c1 = crate::ea::adjusted(old, 4, op_reg(op), Size::Byte);
    let sa = c1.a[op_reg(op) as int];
    let da = crate::ea::adjusted(c1, 4, op_reg9(op), Size::Byte).a[op_reg9(op) as int];
    log1 == log0 + seq![
        Access::Read8 { addr: sa & ADDR_MASK, val: src },
        Access::Read8 { addr: da & ADDR_MASK, val: dst },
        Access::Read16 { addr: old.pc & ADDR_MASK, val: new.prefetch[1] },
        Access::Write8 { addr: da & ADDR_MASK, val: bcd_result(dst, src, old.spec_ccr_x(), adding) },
    ]
}

/// Decimal arithmetic on packed digits: for two valid packed-decimal bytes,
/// the result byte is valid and its value is the decimal sum `a + b + X`
/// (adding) or difference `a - b - X`, modulo 100.
proof fn lemma_bcd_result_decimal(a: u8, b: u8, x: bool, adding: bool)
    requires
        is_bcd(a),
        is_bcd(b),
    ensures
        is_bcd(bcd_result(a, b, x, adding)),
        adding ==> (bcd_value(bcd_result(a, b, x, adding)) - bcd_value(a) - bcd_value(b) - (if x { 1int } else { 0int })) % 100 == 0,
        !adding ==> (bcd_value(bcd_result(a, b, x, adding)) - bcd_value(a) + bcd_value(b) + (if x { 1int } else { 0int })) % 100 == 0,
{
    if adding {
        let xi: u16 = if x { 1 } else { 0 };
        lemma_abcd(a, b, xi, abcd_spec(a, b, x).0, abcd_spec(a, b, x).1);
    } else {
        let xi: int = if x { 1 } else { 0 };
        let lo_borrow = (a & 0x0F) as int - (b & 0x0F) as int - xi < 0;
        let binary_borrow = a as int - b as int - xi < 0;
        let res = a as int - b as int - xi - (if lo_borrow { 6int } else { 0int }) - (if binary_borrow { 0x60int } else { 0int });
        let xi16: i16 = if x { 1 } else { 0 };
        let res16 = res as i16;
        assert(res16 as int == res);
        lemma_sbcd_bv(a, b, xi16, res16);
    }
}

/// `ABCD`/`SBCD -(Ay),-(Ax)` combine the bytes at the decremented addresses:
/// with `Ay` decremented first and `Ax` after it (by 1, or 2 for `A7`), the
/// byte written back to `Ax`'s address is, in decimal, the byte read there
/// plus (`ABCD`) or minus (`SBCD`) the byte read at `Ay`'s address and X,
/// modulo 100, for valid packed-decimal bytes.
pub proof fn memory_bcd_combines_the_decremented_bytes(
    old: M68k,
    new: M68k,
    op: u16,
    adding: bool,
    log0: Seq<Access>,
    log1: Seq<Access>,
    dst: u8,
    src: u8,
)
    requires
        memory_bcd_accesses(old, new, op, adding, log0, log1, dst, src),
    ensures
        ({
            let (rx, ry) = (op_reg9(op) as int, op_reg(op) as int);
            let ay = old.a[ry].wrapping_sub(if ry == 7 { 2u32 } else { 1u32 });
            let ax = (if rx == ry { ay } else { old.a[rx] }).wrapping_sub(if rx == 7 { 2u32 } else { 1u32 });
            let n = log0.len() as int;
            let xi: int = if old.spec_ccr_x() { 1 } else { 0 };
            let w = bcd_result(dst, src, old.spec_ccr_x(), adding);
            &&& log1.len() == n + 4
            &&& log1[n] == Access::Read8 { addr: ay & ADDR_MASK, val: src }
            &&& log1[n + 1] == Access::Read8 { addr: ax & ADDR_MASK, val: dst }
            &&& log1[n + 3] == Access::Write8 { addr: ax & ADDR_MASK, val: w }
            &&& is_bcd(dst) && is_bcd(src) ==> is_bcd(w)
            &&& is_bcd(dst) && is_bcd(src) && adding ==> (bcd_value(w) - bcd_value(dst) - bcd_value(src) - xi) % 100 == 0
            &&& is_bcd(dst) && is_bcd(src) && !adding ==> (bcd_value(w) - bcd_value(dst) + bcd_value(src) + xi) % 100 == 0
        }),
{
    crate::ops::lemma_op_fields(op);
    if is_bcd(dst) && is_bcd(src) {
        lemma_bcd_result_decimal(dst, src, old.spec_ccr_x(), adding);
    }
}

/// What [`bcd_two_operand`] guarantees: the CPU after it (`new`) and the cycles it
/// returns (`r`), from the CPU before it (`old`).
pub open spec fn bcd_two_operand_post(old: M68k, new: M68k, op: u16, adding: bool, r: u32) -> bool {
    &&& r == (if op & 8 == 0 { 6u32 } else { 18u32 })
    &&& op & 8 == 0 ==> advanced(register_bcd_spec(old, op, adding), new)
    &&& op & 8 != 0 ==> exists|dst: u8, src: u8| #[trigger] memory_bcd_outcome(old, new, op, adding, dst, src)
}

/// `ABCD`/`SBCD`: `Dy,Dx` or `-(Ay),-(Ax)`.
pub fn bcd_two_operand<B: Bus>(cpu: &mut M68k, bus: &mut B, op: u16, adding: bool) -> (r: u32)
    ensures
        bcd_two_operand_post(*old(cpu), *final(cpu), op, adding, r),
        op & 8 != 0 ==> exists|dst: u8, src: u8|
            {
                &&& #[trigger] memory_bcd_outcome(*old(cpu), *final(cpu), op, adding, dst, src)
                &&& memory_bcd_accesses(*old(cpu), *final(cpu), op, adding, old(bus).log(), final(bus).log(), dst, src)
            },
{
    let rx = field_reg9(op) as usize;
    let ry = field_reg(op) as usize;
    let memory = op & 8 != 0;
    let x = cpu.ccr_x();
    let xb: u8 = if x {
        1
    } else {
        0
    };
    if !memory {
        let dst = cpu.d[rx] as u8;
        let src = cpu.d[ry] as u8;
        let (res, carry) = if adding {
            abcd(dst, src, x)
        } else {
            sbcd(dst, src, x)
        };
        let uncorrected = if adding {
            dst.wrapping_add(src).wrapping_add(xb)
        } else {
            dst.wrapping_sub(src).wrapping_sub(xb)
        };
        let res = finish(cpu, res, carry, uncorrected, adding);
        cpu.d[rx] = (cpu.d[rx] & !0xFF) | res;
        cpu.consume_opcode(bus);
        return 4 + 2;
    }
    let src_ea = ea::resolve_words(cpu, 4, ry as u16, Size::Byte, 0, 0, 0);
    let dst_ea = ea::resolve_words(cpu, 4, rx as u16, Size::Byte, 0, 0, 0);
    let src_addr = match src_ea {
        Ea::Mem(a) => a,
        _ => 0,
    };
    let dst_addr = match dst_ea {
        Ea::Mem(a) => a,
        _ => 0,
    };
    let ghost pc0 = cpu.pc;
    let src = bus.read8(src_addr & ADDR_MASK);
    let dst = bus.read8(dst_addr & ADDR_MASK);
    let ghost read_log = bus.log();
    let (res, carry) = if adding {
        abcd(dst, src, x)
    } else {
        sbcd(dst, src, x)
    };
    let uncorrected = if adding {
        dst.wrapping_add(src).wrapping_add(xb)
    } else {
        dst.wrapping_sub(src).wrapping_sub(xb)
    };
    proof {
        let adj = crate::ea::adjusted(crate::ea::adjusted(*old(cpu), 4, op_reg(op), Size::Byte), 4, op_reg9(op), Size::Byte);
        assert(cpu.a =~= adj.a);
        assert(*cpu == adj);
    }
    let res = finish(cpu, res, carry, uncorrected, adding);
    cpu.consume_opcode(bus);
    bus.write8(dst_addr & ADDR_MASK, res as u8);
    assert(memory_bcd_outcome(*old(cpu), *cpu, op, adding, dst, src));
    proof {
        let c1 = crate::ea::adjusted(*old(cpu), 4, op_reg(op), Size::Byte);
        assert(src_addr == c1.a[op_reg(op) as int]);
        assert(dst_addr == crate::ea::adjusted(c1, 4, op_reg9(op), Size::Byte).a[op_reg9(op) as int]);
        assert(pc0 == old(cpu).pc);
        assert(res as u8 == bcd_result(dst, src, old(cpu).spec_ccr_x(), adding));
        assert(bus.log() =~= read_log.push(Access::Read16 { addr: pc0 & ADDR_MASK, val: cpu.prefetch[1] }).push(
            Access::Write8 { addr: dst_addr & ADDR_MASK, val: res as u8 },
        ));
        assert(read_log =~= old(bus).log() + seq![
            Access::Read8 { addr: src_addr & ADDR_MASK, val: src },
            Access::Read8 { addr: dst_addr & ADDR_MASK, val: dst },
        ]);
        assert(bus.log() =~= old(bus).log() + seq![
            Access::Read8 { addr: src_addr & ADDR_MASK, val: src },
            Access::Read8 { addr: dst_addr & ADDR_MASK, val: dst },
            Access::Read16 { addr: old(cpu).pc & ADDR_MASK, val: cpu.prefetch[1] },
            Access::Write8 { addr: dst_addr & ADDR_MASK, val: bcd_result(dst, src, old(cpu).spec_ccr_x(), adding) },
        ]);
        assert(memory_bcd_accesses(*old(cpu), *cpu, op, adding, old(bus).log(), bus.log(), dst, src));
    }
    4 * 4 + 2
}

/// The CPU and the finish of `NBCD`: `0 - <ea> - X` in decimal.
pub open spec fn nbcd_spec(cpu: M68k, ops: Ops) -> (M68k, Tail) {
    let a = ops.ea as u8;
    let x = cpu.spec_ccr_x();
    let r = sbcd_spec(0, a, x);
    let uncorrected = 0u8.wrapping_sub(a).wrapping_sub(if x { 1u8 } else { 0u8 });
    (finish_spec(cpu, r.0, r.1, uncorrected, false), Tail::Write(r.0 as u32))
}

/// `NBCD`'s computation.
pub fn apply_nbcd(cpu: &mut M68k, ops: Ops) -> (t: Tail)
    ensures
        (*final(cpu), t) == nbcd_spec(*old(cpu), ops),
{
    let a = ops.ea as u8;
    let x = cpu.ccr_x();
    let xb: u8 = if x {
        1
    } else {
        0
    };
    let (res, carry) = sbcd(0, a, x);
    let uncorrected = 0u8.wrapping_sub(a).wrapping_sub(xb);
    Tail::Write(finish(cpu, res, carry, uncorrected, false))
}

/// What [`nbcd`] guarantees: the CPU after it (`new`) and the cycles it
/// returns (`r`), from the CPU before it (`old`).
pub open spec fn nbcd_post(old: M68k, new: M68k, op: u16, r: u32) -> bool {
    &&& r <= 2000
    &&& op_mode(op) == 0 ==> alu::direct_result(
        old,
        new,
        alu::plan_of(Size::Byte, 0, op_reg(op), 0, true, 2),
        AluCompute::Nbcd,
        r,
    )
    &&& alu::indirect_plan(alu::plan_of(Size::Byte, op_mode(op), op_reg(op), 0, true, 0)) ==> alu::indirect_run(
        old,
        new,
        alu::plan_of(Size::Byte, op_mode(op), op_reg(op), 0, true, 0),
        AluCompute::Nbcd,
        r,
    )
}

/// `NBCD <ea>`.
pub fn nbcd<B: Bus>(cpu: &mut M68k, bus: &mut B, op: u16) -> (r: u32)
    ensures
        nbcd_post(*old(cpu), *final(cpu), op, r),
{
    let (mode, reg) = (field_mode(op), field_reg(op));
    if !ea::valid_ea(mode, reg) {
        return crate::exception::illegal_instruction(cpu, bus, op);
    }
    let idle = if mode == 0 {
        2
    } else {
        0
    };
    let plan = Plan::new(Size::Byte, mode, reg).writes().idle(idle);
    alu::run(cpu, bus, &plan, AluCompute::Nbcd)
}

/// The handler this module assigns: `ABCD` (line C) and `SBCD` (line 8) in
/// both forms, and `NBCD` on a data-alterable `<ea>`.
pub open spec fn claim_spec(op: u16) -> Option<Handler> {
    let line = op >> 12u16;
    if (line == 0xC || line == 0x8) && op & 0x01F0 == 0x0100 {
        Some(if line == 0xC { Handler::Abcd } else { Handler::Sbcd })
    } else if op & 0xFFC0 == 0x4800 && crate::ops::data_alterable_ok(op_mode(op), op_reg(op)) {
        Some(Handler::Nbcd)
    } else {
        None
    }
}

/// The handler this module assigns to `op`, if any.
pub fn claim(op: u16) -> (r: Option<Handler>)
    ensures
        r == claim_spec(op),
{
    let line = op >> 12;
    if (line == 0xC || line == 0x8) && (op & 0x01F0) == 0x0100 {
        return Some(if line == 0xC {
            Handler::Abcd
        } else {
            Handler::Sbcd
        });
    }
    if (op & 0xFFC0) == 0x4800 && valid_data_alterable(field_mode(op), field_reg(op)) {
        return Some(Handler::Nbcd);
    }
    None
}

/// Installs this family's handlers into the dispatch table: the opcodes
/// `claim_spec` gives a handler get it, the others keep theirs.
pub fn register(table: &mut Vec<Handler>)
    requires
        old(table).len() == 65536,
    ensures
        final(table).len() == 65536,
        forall|i: int|
            0 <= i < 65536 ==> #[trigger] final(table)@[i] == (match claim_spec(i as u16) {
                Some(h) => h,
                None => old(table)@[i],
            }),
{
    crate::ops::install(table, 5);
}

} // verus!
