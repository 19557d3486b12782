//! `Bcc`/`BRA`/`BSR`, `DBcc`, `Scc`, `JMP`, `JSR`, `RTS` and `RTR`.
//!
//! A branch to an odd address raises an address error without fetching the
//! target. `BSR` pushes its return address before the target is checked;
//! `JSR` checks first.

use crate::bus::{Access, Bus};
use crate::cpu::{M68k, ADDR_MASK};
use crate::decode::Handler;
use crate::ea::{self, Ea, Size};
use crate::exception::{self, FaultKind, Space, ADDRESS_ERROR_TAIL_CYCLES};
use crate::ops::alu::{self, Compute as AluCompute, Plan};
use crate::ops::arith::valid_data_alterable;
use crate::ops::{field_mode, field_reg, op_mode, op_reg};
use vstd::prelude::*;

verus! {

broadcast use crate::bus::lemma_masked_address;

/// The 68000's sixteen conditions over the CCR.
pub open spec fn condition_spec(cond: u8, n: bool, z: bool, v: bool, c: bool) -> bool {
    let k = cond & 0xF;
    if k == 0 {
        true
    } else if k == 1 {
        false
    } else if k == 2 {
        !c && !z
    } else if k == 3 {
        c || z
    } else if k == 4 {
        !c
    } else if k == 5 {
        c
    } else if k == 6 {
        !z
    } else if k == 7 {
        z
    } else if k == 8 {
        !v
    } else if k == 9 {
        v
    } else if k == 0xA {
        !n
    } else if k == 0xB {
        n
    } else if k == 0xC {
        n == v
    } else if k == 0xD {
        n != v
    } else if k == 0xE {
        !z && (n == v)
    } else {
        z || (n != v)
    }
}

/// Evaluates condition `cond` (its low four bits) against the CCR.
pub fn test_condition(cpu: &M68k, cond: u8) -> (r: bool)
    ensures
        r == condition_spec(cond, cpu.spec_ccr_n(), cpu.spec_ccr_z(), cpu.spec_ccr_v(), cpu.spec_ccr_c()),
{
    let (n, z, v, c) = (cpu.ccr_n(), cpu.ccr_z(), cpu.ccr_v(), cpu.ccr_c());
    let k = cond & 0xF;
    if k == 0 {
        true
    } else if k == 1 {
        false
    } else if k == 2 {
        !c && !z
    } else if k == 3 {
        c || z
    } else if k == 4 {
        !c
    } else if k == 5 {
        c
    } else if k == 6 {
        !z
    } else if k == 7 {
        z
    } else if k == 8 {
        !v
    } else if k == 9 {
        v
    } else if k == 0xA {
        !n
    } else if k == 0xB {
        n
    } else if k == 0xC {
        n == v
    } else if k == 0xD {
        n != v
    } else if k == 0xE {
        !z && (n == v)
    } else {
        z || (n != v)
    }
}

/// Conditions come in complementary pairs: `cond` and `cond ^ 1` always
/// disagree (T/F, HI/LS, CC/CS, NE/EQ, VC/VS, PL/MI, GE/LT, GT/LE).
pub proof fn conditions_are_complementary(cond: u8, n: bool, z: bool, v: bool, c: bool)
    ensures
        condition_spec(cond ^ 1, n, z, v, c) == !condition_spec(cond, n, z, v, c),
{
    let k = cond & 0xF;
    let k2 = (cond ^ 1) & 0xF;
    assert(k < 16 && (k2 == k + 1 || k2 + 1 == k) && (k2 == k + 1 <==> k % 2 == 0)) by (bit_vector)
        requires
            k == cond & 0xF,
            k2 == (cond ^ 1) & 0xF,
    ;
}

/// The condition numbers the laws below read, with their low four bits.
pub(crate) proof fn lemma_condition_numbers(cond: u16)
    ensures
        cond & 0xF < 16u16,
        2u8 & 0xF == 2u8,
        3u8 & 0xF == 3u8,
        4u8 & 0xF == 4u8,
        5u8 & 0xF == 5u8,
        6u8 & 0xF == 6u8,
        7u8 & 0xF == 7u8,
        0u8 & 0xF == 0u8,
        1u8 & 0xF == 1u8,
        8u8 & 0xF == 8u8,
        9u8 & 0xF == 9u8,
        10u8 & 0xF == 10u8,
        11u8 & 0xF == 11u8,
{
    assert(2u8 & 0xF == 2u8 && 3u8 & 0xF == 3u8 && 4u8 & 0xF == 4u8 && 5u8 & 0xF == 5u8 && 6u8 & 0xF == 6u8 && 7u8 & 0xF
        == 7u8 && 0u8 & 0xF == 0u8 && 1u8 & 0xF == 1u8 && 8u8 & 0xF == 8u8 && 9u8 & 0xF == 9u8 && 10u8 & 0xF == 10u8 && 11u8
        & 0xF == 11u8 && cond & 0xF < 16u16) by (bit_vector);
}

/// After a comparison of `dst` with `src` at `size` (the flags of
/// `dst - src`), the unsigned conditions say how the two compare: HI holds
/// exactly when `dst` is higher, LS when it is lower or the same, CC when it
/// is higher or the same, CS when it is lower, NE when they differ and EQ
/// when they are equal.
pub proof fn conditions_read_unsigned_comparisons(dst: u32, src: u32, size: Size)
    ensures
        ({
            let f = crate::flags::sub_spec(dst, src, false, size);
            let a = (dst & size.spec_mask()) as int;
            let b = (src & size.spec_mask()) as int;
            &&& condition_spec(2, f.1, f.2, f.3, f.4) == (a > b)
            &&& condition_spec(3, f.1, f.2, f.3, f.4) == (a <= b)
            &&& condition_spec(4, f.1, f.2, f.3, f.4) == (a >= b)
            &&& condition_spec(5, f.1, f.2, f.3, f.4) == (a < b)
            &&& condition_spec(6, f.1, f.2, f.3, f.4) == (a != b)
            &&& condition_spec(7, f.1, f.2, f.3, f.4) == (a == b)
        }),
{
    lemma_condition_numbers(0);
    crate::flags::lemma_mask_idem(dst, size.spec_mask());
    crate::flags::lemma_mask_idem(src, size.spec_mask());
    let a = (dst & size.spec_mask()) as int;
    let b = (src & size.spec_mask()) as int;
    let d = crate::flags::sub_diff(dst, src, false, size);
    assert(d == a - b);
    let m = crate::flags::modulus(size);
    assert(m == size.spec_mask() as int + 1);
    assert(-m < d < m);
    assert((crate::flags::wrap(d, size) == 0) == (d == 0)) by {
        match size {
            Size::Byte => assert((d % 256 == 0) == (d == 0)),
            Size::Word => assert((d % 0x10000 == 0) == (d == 0)),
            Size::Long => assert((d % 0x1_0000_0000 == 0) == (d == 0)),
        }
    }
}

/// The sign bit of a size-masked value says whether it is at least the
/// sign bit's weight.
proof fn lemma_sign_bit(x: u32, m: u32, msb: u32)
    by (bit_vector)
    requires
        (m == 0xFFu32 && msb == 0x80u32) || (m == 0xFFFFu32 && msb == 0x8000u32) || (m == 0xFFFF_FFFFu32 && msb == 0x8000_0000u32),
    ensures
        (x & msb != 0) == ((x & m) >= msb),
        x <= m ==> x & m == x,
        12u8 & 0xF == 12u8,
        13u8 & 0xF == 13u8,
        14u8 & 0xF == 14u8,
        15u8 & 0xF == 15u8,
{
}

/// A value of this size read as a two's-complement signed number.
pub open spec fn signed_of(x: u32, size: Size) -> int {
    let a = (x & size.spec_mask()) as int;
    if a >= size.spec_msb() as int { a - crate::flags::modulus(size) } else { a }
}

/// After a comparison of `dst` with `src` at `size` (the flags of
/// `dst - src`), the signed conditions say how the two compare as signed
/// numbers: GE holds exactly when `dst` is greater or equal, LT when it is
/// less, GT when it is greater and LE when it is less or equal.
pub proof fn conditions_read_signed_comparisons(dst: u32, src: u32, size: Size)
    ensures
        ({
            let f = crate::flags::sub_spec(dst, src, false, size);
            let a = signed_of(dst, size);
            let b = signed_of(src, size);
            &&& condition_spec(12, f.1, f.2, f.3, f.4) == (a >= b)
            &&& condition_spec(13, f.1, f.2, f.3, f.4) == (a < b)
            &&& condition_spec(14, f.1, f.2, f.3, f.4) == (a > b)
            &&& condition_spec(15, f.1, f.2, f.3, f.4) == (a <= b)
        }),
{
    lemma_compare_flags(dst, src, size);
    lemma_sign_bit(dst, size.spec_mask(), size.spec_msb());
}

/// The flags of `dst - src` at `size`, arithmetically: Z when the masked
/// values are equal, C when `dst` is lower, N when the wrapped difference
/// reaches the sign bit, V when the operands' signs differ and N differs from
/// `dst`'s sign.
proof fn lemma_compare_flags(dst: u32, src: u32, size: Size)
    ensures
        ({
            let f = crate::flags::sub_spec(dst, src, false, size);
            let ua = (dst & size.spec_mask()) as int;
            let ub = (src & size.spec_mask()) as int;
            let md = crate::flags::modulus(size);
            let w = if ua >= ub { ua - ub } else { ua - ub + md };
            let hb = size.spec_msb() as int;
            &&& 0 <= ua < md && 0 <= ub < md
            &&& f.2 == (ua == ub)
            &&& f.4 == (ua < ub)
            &&& f.1 == (w >= hb)
            &&& f.3 == ((ua >= hb) != (ub >= hb) && (w >= hb) != (ua >= hb))
            &&& md == 2 * hb
        }),
{
    let m = size.spec_mask();
    let msb = size.spec_msb();
    let f = crate::flags::sub_spec(dst, src, false, size);
    crate::flags::lemma_mask_idem(dst, m);
    crate::flags::lemma_mask_idem(src, m);
    lemma_sign_bit(dst, m, msb);
    lemma_sign_bit(src, m, msb);
    let ua = (dst & m) as int;
    let ub = (src & m) as int;
    let d = crate::flags::sub_diff(dst, src, false, size);
    assert(d == ua - ub);
    let r = f.0;
    let md = crate::flags::modulus(size);
    let w = if ua >= ub { ua - ub } else { ua - ub + md };
    assert(md == m as int + 1);
    assert(0 <= w < md);
    vstd::arithmetic::div_mod::lemma_fundamental_div_mod_converse(d, md, if ua >= ub { 0int } else { -1int }, w);
    assert(r as int == w);
    lemma_sign_bit(r, m, msb);
}

pub const TAKEN_IDLE: u32 = 2;

pub const NOT_TAKEN_IDLE: u32 = 4;

pub const EXPIRY_IDLE: u32 = 6;

/// A jump to an odd address faults before anything is fetched from it.
pub fn target_faults(target: u32) -> (r: bool)
    ensures
        r == (target & 1 != 0),
{
    target & 1 != 0
}

/// The outcome of an address error taken from `old`: a halt on a double
/// fault, an exception entry with a 14-byte frame otherwise; and its cycles
/// after `acc` accesses and `idle` idle cycles.
pub open spec fn fault_outcome(old: M68k, new: M68k, r: u32, acc: u32, idle: u32) -> bool {
    &&& exception::double_fault_spec(old) ==> exception::halted_from(old, new)
    &&& !exception::double_fault_spec(old) ==> exception::entered(old, new, 14)
    &&& r == 4 * acc + idle + exception::entry_cycles_spec(new.halted, 0, ADDRESS_ERROR_TAIL_CYCLES)
}

/// Raises the address error for an odd branch target: a read of program space.
pub fn target_error<B: Bus>(cpu: &mut M68k, bus: &mut B, target: u32, ir: u16, pc_for_frame: u32, acc: u32, idle: u32) -> (r: u32)
    requires
        4 * acc + idle + ADDRESS_ERROR_TAIL_CYCLES <= u32::MAX,
    ensures
        fault_outcome(*old(cpu), *final(cpu), r, acc, idle),
{
    exception::address_error(cpu, bus, target, FaultKind::Read, Space::Program, ir, pc_for_frame);
    4 * acc + idle + exception::entry_cycles(cpu, 0, ADDRESS_ERROR_TAIL_CYCLES)
}

fn jump_to<B: Bus>(cpu: &mut M68k, bus: &mut B, target: u32)
    ensures
        crate::cpu::same_regs(*old(cpu), *final(cpu)),
        final(cpu).pc == target.wrapping_add(4),
{
    cpu.pc = target;
    cpu.refill_prefetch(bus);
}

/// Pushes a return address: `a[7]` drops by 4 and the high word is written first.
pub fn push_return<B: Bus>(cpu: &mut M68k, bus: &mut B, ret: u32)
    ensures
        *final(cpu) == crate::cpu::with_a(*old(cpu), 7, old(cpu).a[7].wrapping_sub(4)),
        final(cpu).a[7] == old(cpu).a[7].wrapping_sub(4),
        forall|i: int| 0 <= i < 7 ==> final(cpu).a[i] == old(cpu).a[i],
        final(cpu).d == old(cpu).d && final(cpu).sr == old(cpu).sr && final(cpu).pc == old(cpu).pc,
        final(bus).log() == old(bus).log() + seq![
            Access::Write16 { addr: old(cpu).a[7].wrapping_sub(4) & ADDR_MASK, val: (ret >> 16u32) as u16 },
            Access::Write16 { addr: old(cpu).a[7].wrapping_sub(4).wrapping_add(2) & ADDR_MASK, val: ret as u16 },
        ],
{
    let sp = cpu.a[7].wrapping_sub(4);
    cpu.a[7] = sp;
    bus.write16(sp & ADDR_MASK, (ret >> 16) as u16);
    bus.write16(sp.wrapping_add(2) & ADDR_MASK, ret as u16);
}

/// The branch target of a `Bcc` at `opcode_addr`: relative to the word after
/// the opcode, with a zero 8-bit displacement selecting the 16-bit one.
pub open spec fn branch_target(op: u16, opcode_addr: u32, ext: u16) -> u32 {
    let disp8 = (op & 0xFF) as u8;
    let disp: u32 = if disp8 == 0 { ext as i16 as i32 as u32 } else { disp8 as i8 as i32 as u32 };
    opcode_addr.wrapping_add(2).wrapping_add(disp)
}

/// What [`bcc`] guarantees: the CPU after it (`new`) and the cycles it
/// returns (`r`), from the CPU before it (`old`).
pub open spec fn bcc_post(old: M68k, new: M68k, op: u16, r: u32) -> bool {
    &&& r <= 200
    &&& ({
        let k = ((op >> 8u16) & 0xF) as u8;
        let taken = k == 0 || (k != 1 && condition_spec(k, old.spec_ccr_n(), old.spec_ccr_z(), old.spec_ccr_v(), old.spec_ccr_c()));
        let target = branch_target(op, old.pc.wrapping_sub(4), old.prefetch[1]);
        k != 1 && taken && target & 1 == 0 ==> r == 10 && new.pc == target.wrapping_add(4)
            && crate::cpu::same_regs(old, new)
    })
    &&& ({
        let k = ((op >> 8u16) & 0xF) as u8;
        let taken = k == 0 || (k != 1 && condition_spec(k, old.spec_ccr_n(), old.spec_ccr_z(), old.spec_ccr_v(), old.spec_ccr_c()));
        k != 1 && !taken ==> r == (if op & 0xFF == 0 { 12u32 } else { 8u32 }) && crate::cpu::same_regs(old, new)
            && new.pc == old.pc.wrapping_add(if op & 0xFF == 0 { 4u32 } else { 2u32 })
    })
    &&& ({
        let k = ((op >> 8u16) & 0xF) as u8;
        let target = branch_target(op, old.pc.wrapping_sub(4), old.prefetch[1]);
        k == 1 && target & 1 == 0 ==> {
            &&& new.a[7] == old.a[7].wrapping_sub(4)
            &&& forall|i: int| 0 <= i < 7 ==> new.a[i] == old.a[i]
            &&& new.d == old.d && new.sr == old.sr
            &&& new.pc == target.wrapping_add(4)
            &&& r == 4 * 4 + TAKEN_IDLE
        }
    })
    &&& ({
        let k = ((op >> 8u16) & 0xF) as u8;
        let taken = k == 0 || (k != 1 && condition_spec(k, old.spec_ccr_n(), old.spec_ccr_z(), old.spec_ccr_v(), old.spec_ccr_c()));
        let target = branch_target(op, old.pc.wrapping_sub(4), old.prefetch[1]);
        &&& k != 1 && taken && target & 1 != 0 ==> fault_outcome(old, new, r, 0, TAKEN_IDLE)
        &&& k == 1 && target & 1 != 0 ==> fault_outcome(crate::cpu::with_a(old, 7, old.a[7].wrapping_sub(4)), new, r, 2, TAKEN_IDLE)
    })
}

/// `Bcc`, `BRA` and `BSR`.
pub fn bcc<B: Bus>(cpu: &mut M68k, bus: &mut B, op: u16) -> (r: u32)
    ensures
        bcc_post(*old(cpu), *final(cpu), op, r),
{
    let cond = ((op >> 8) & 0xF) as u8;
    let opcode_addr = cpu.pc.wrapping_sub(exception::OPCODE_PC_OFFSET);
    let disp8 = (op & 0xFF) as u8;
    let wide = disp8 == 0;
    let disp = if wide {
        cpu.prefetch[1] as i16 as i32 as u32
    } else {
        disp8 as i8 as i32 as u32
    };
    let base = opcode_addr.wrapping_add(2);
    let target = base.wrapping_add(disp);
    let words: u32 = if wide {
        2
    } else {
        1
    };
    proof {
        assert(disp8 == 0 <==> op & 0xFF == 0) by (bit_vector) requires disp8 == (op & 0xFF) as u8;
    }
    if cond == 1 {
        let ret = opcode_addr.wrapping_add(2 * words);
        push_return(cpu, bus, ret);
        if target_faults(target) {
            return target_error(cpu, bus, target, op, target, 2, TAKEN_IDLE);
        }
        jump_to(cpu, bus, target);
        return 4 * 4 + TAKEN_IDLE;
    }
    if cond == 0 || test_condition(cpu, cond) {
        if target_faults(target) {
            return target_error(cpu, bus, target, op, base, 0, TAKEN_IDLE);
        }
        jump_to(cpu, bus, target);
        return 4 * 2 + TAKEN_IDLE;
    }
    cpu.consume_opcode(bus);
    if wide {
        cpu.consume_opcode(bus);
    }
    4 * words + NOT_TAKEN_IDLE
}

/// What [`dbcc`] guarantees: the CPU after it (`new`) and the cycles it
/// returns (`r`), from the CPU before it (`old`).
pub open spec fn dbcc_post(old: M68k, new: M68k, op: u16, r: u32) -> bool {
    let held = condition_spec(((op >> 8u16) & 0xF) as u8, old.spec_ccr_n(), old.spec_ccr_z(), old.spec_ccr_v(), old.spec_ccr_c());
    let n = op_reg(op) as int;
    let counter = (old.d[n] as u16).wrapping_sub(1);
    let counted = crate::cpu::with_d(old, n, (old.d[n] & 0xFFFF_0000) | counter as u32);
    let target = old.pc.wrapping_sub(exception::OPCODE_PC_OFFSET).wrapping_add(2).wrapping_add(old.prefetch[1] as i16 as i32 as u32);
    &&& r <= 200
    &&& held ==> r == 4 * 2 + NOT_TAKEN_IDLE && crate::cpu::same_regs(old, new) && new.pc == old.pc.wrapping_add(4)
    &&& !held && counter == 0xFFFF ==> r == 4 * 2 + EXPIRY_IDLE && crate::cpu::same_regs(counted, new)
        && new.pc == old.pc.wrapping_add(4)
    &&& !held && counter != 0xFFFF && target & 1 == 0 ==> r == 4 * 2 + TAKEN_IDLE && crate::cpu::same_regs(counted, new)
        && new.pc == target.wrapping_add(4)
    &&& !held && counter != 0xFFFF && target & 1 != 0 ==> fault_outcome(old, new, r, 0, TAKEN_IDLE)
}

/// `DBcc Dn,<label>`: if the condition is false, decrement the low word of
/// `Dn` and branch unless it expired to -1.
pub fn dbcc<B: Bus>(cpu: &mut M68k, bus: &mut B, op: u16) -> (r: u32)
    ensures
        dbcc_post(*old(cpu), *final(cpu), op, r),
{
    let cond = ((op >> 8) & 0xF) as u8;
    let reg = field_reg(op) as usize;
    let opcode_addr = cpu.pc.wrapping_sub(exception::OPCODE_PC_OFFSET);
    let target = opcode_addr.wrapping_add(2).wrapping_add(cpu.prefetch[1] as i16 as i32 as u32);
    if test_condition(cpu, cond) {
        cpu.consume_opcode(bus);
        cpu.consume_opcode(bus);
        return 4 * 2 + NOT_TAKEN_IDLE;
    }
    let counter = (cpu.d[reg] as u16).wrapping_sub(1);
    let decremented = (cpu.d[reg] & 0xFFFF_0000) | counter as u32;
    if counter == 0xFFFF {
        cpu.d[reg] = decremented;
        cpu.consume_opcode(bus);
        cpu.consume_opcode(bus);
        return 4 * 2 + EXPIRY_IDLE;
    }
    if target_faults(target) {
        return target_error(cpu, bus, target, op, opcode_addr.wrapping_add(4), 0, TAKEN_IDLE);
    }
    cpu.d[reg] = decremented;
    jump_to(cpu, bus, target);
    4 * 2 + TAKEN_IDLE
}

/// Whether `Scc`'s condition holds on `cpu`'s flags.
pub open spec fn scc_holds(cpu: M68k, op: u16) -> bool {
    condition_spec(((op >> 8u16) & 0xF) as u8, cpu.spec_ccr_n(), cpu.spec_ccr_z(), cpu.spec_ccr_v(), cpu.spec_ccr_c())
}

/// What [`scc`] guarantees: the CPU after it (`new`) and the cycles it
/// returns (`r`), from the CPU before it (`old`).
pub open spec fn scc_post(old: M68k, new: M68k, op: u16, r: u32) -> bool {
    &&& r <= 2000
    &&& op_mode(op) == 0 ==> alu::direct_result(
        old,
        new,
        alu::plan_of(Size::Byte, 0, op_reg(op), 0, true, if scc_holds(old, op) { 2 } else { 0 }),
        AluCompute::SetByte(scc_holds(old, op)),
        r,
    )
    &&& alu::indirect_plan(alu::plan_of(Size::Byte, op_mode(op), op_reg(op), 0, true, 0)) ==> alu::indirect_run(
        old,
        new,
        alu::plan_of(Size::Byte, op_mode(op), op_reg(op), 0, true, 0),
        AluCompute::SetByte(scc_holds(old, op)),
        r,
    )
}

/// `Scc <ea>`: all ones if the condition holds, all zeros otherwise.
pub fn scc<B: Bus>(cpu: &mut M68k, bus: &mut B, op: u16) -> (r: u32)
    ensures
        scc_post(*old(cpu), *final(cpu), op, r),
{
    let cond = ((op >> 8) & 0xF) as u8;
    let (mode, reg) = (field_mode(op), field_reg(op));
    if !ea::valid_ea(mode, reg) {
        return exception::illegal_instruction(cpu, bus, op);
    }
    let set = test_condition(cpu, cond);
    let plan = Plan::new(Size::Byte, mode, reg).writes().idle(if mode == 0 && set { 2 } else { 0 });
    alu::run(cpu, bus, &plan, AluCompute::SetByte(set))
}

/// Idle cycles of `JMP`/`JSR` per control mode.
/// Idle cycles of `JMP`/`JSR` per control mode.
pub open spec fn jump_idle_spec(mode: u16, reg: u16) -> u32 {
    if mode == 5 || (mode == 7 && (reg == 0 || reg == 2)) {
        2
    } else if mode == 6 || (mode == 7 && reg == 3) {
        6
    } else {
        0
    }
}

pub fn jump_idle(mode: u16, reg: u16) -> (r: u32)
    ensures
        r == jump_idle_spec(mode, reg),
        r <= 6,
{
    if mode == 2 {
        0
    } else if mode == 5 {
        2
    } else if mode == 6 {
        6
    } else if mode == 7 && reg == 0 {
        2
    } else if mode == 7 && reg == 1 {
        0
    } else if mode == 7 && reg == 2 {
        2
    } else if mode == 7 && reg == 3 {
        6
    } else {
        0
    }
}

/// Resolves a `JMP`/`JSR` target. The first extension word is already in the
/// queue; a second one (`abs.L`) costs one queue advance. Returns the target and
/// the accesses made.
pub fn jump_target<B: Bus>(cpu: &mut M68k, bus: &mut B, mode: u16, reg: u16) -> (r: (u32, u32))
    requires
        crate::ea::modes::is_control(mode, reg),
        reg < 8,
    ensures
        r.1 <= 1,
        r.1 == (if ea::spec_ext_words(mode, reg, Size::Long) >= 2 { 1u32 } else { 0u32 }),
        crate::cpu::same_regs(*old(cpu), *final(cpu)),
        ea::spec_ext_words(mode, reg, Size::Long) <= 1 ==> *final(cpu) == *old(cpu)
            && r.0 == crate::ops::system::control_address(*old(cpu), mode, reg),
        mode == 7 && reg == 1 ==> exists|lo: u16| r.0 == #[trigger] crate::ops::system::long_address(*old(cpu), lo),
{
    let opcode_addr = cpu.pc.wrapping_sub(exception::OPCODE_PC_OFFSET);
    let de = ea::ext_words(mode, reg, Size::Long);
    let mut e0: u16 = 0;
    let mut e1: u16 = 0;
    let mut acc: u32 = 0;
    if de >= 1 {
        e0 = cpu.prefetch[1];
    }
    if de >= 2 {
        cpu.consume_opcode(bus);
        e1 = cpu.prefetch[1];
        acc = acc + 1;
    }
    let ea = ea::resolve_words(cpu, mode, reg, Size::Long, e0, e1, opcode_addr.wrapping_add(2));
    let target = match ea {
        Ea::Mem(t) => t,
        _ => 0,
    };
    proof {
        if mode == 7 && reg == 1 {
            assert(target == crate::ops::system::long_address(*old(cpu), e1));
        }
    }
    (target, acc)
}

/// What `JMP abs.L` does when the address's low word is `lo`: an even target
/// is jumped to; an odd one takes an address error from the registers as
/// they were, after one fetch.
pub open spec fn jmp_long_outcome(old: M68k, new: M68k, r: u32, lo: u16) -> bool {
    let target = crate::ops::system::long_address(old, lo);
    &&& target & 1 == 0 ==> crate::cpu::same_regs(old, new) && new.pc == target.wrapping_add(4) && r == 12 + jump_idle_spec(7, 1)
    &&& target & 1 != 0 ==> crate::ops::alu::operand_fault(old, new, r, 1, jump_idle_spec(7, 1) as int)
}

/// What `JSR abs.L` does when the address's low word is `lo`: an even target
/// is called, pushing the return address; an odd one takes an address error
/// from the registers as they were, after one fetch.
pub open spec fn jsr_long_outcome(old: M68k, new: M68k, r: u32, lo: u16) -> bool {
    let target = crate::ops::system::long_address(old, lo);
    &&& target & 1 == 0 ==> {
        &&& new.a[7] == old.a[7].wrapping_sub(4)
        &&& forall|i: int| 0 <= i < 7 ==> new.a[i] == old.a[i]
        &&& new.d == old.d && new.sr == old.sr
        &&& new.pc == target.wrapping_add(4)
        &&& r == 20 + jump_idle_spec(7, 1)
    }
    &&& target & 1 != 0 ==> crate::ops::alu::operand_fault(old, new, r, 1, jump_idle_spec(7, 1) as int)
}

/// What [`jmp`] guarantees: the CPU after it (`new`) and the cycles it
/// returns (`r`), from the CPU before it (`old`).
pub open spec fn jmp_post(old: M68k, new: M68k, op: u16, r: u32) -> bool {
    &&& r <= 200
    &&& ({
        let (mode, reg) = (op_mode(op), op_reg(op));
        let target = crate::ops::system::control_address(old, mode, reg);
        crate::ea::modes::is_control(mode, reg) && ea::spec_ext_words(mode, reg, Size::Long) <= 1 && target & 1 == 0 ==> {
            &&& crate::cpu::same_regs(old, new)
            &&& new.pc == target.wrapping_add(4)
            &&& r == 8 + jump_idle_spec(mode, reg)
        }
    })
    &&& ({
        let (mode, reg) = (op_mode(op), op_reg(op));
        let target = crate::ops::system::control_address(old, mode, reg);
        crate::ea::modes::is_control(mode, reg) && ea::spec_ext_words(mode, reg, Size::Long) <= 1 && target & 1 != 0
            ==> fault_outcome(old, new, r, 0, jump_idle_spec(mode, reg))
    })
    &&& op_mode(op) == 7 && op_reg(op) == 1 ==> exists|lo: u16| #[trigger] jmp_long_outcome(old, new, r, lo)
}

/// `JMP <ea>`.
pub fn jmp<B: Bus>(cpu: &mut M68k, bus: &mut B, op: u16) -> (r: u32)
    ensures
        jmp_post(*old(cpu), *final(cpu), op, r),
{
    let (mode, reg) = (field_mode(op), field_reg(op));
    if !crate::ea::modes::control(mode, reg) {
        return exception::illegal_instruction(cpu, bus, op);
    }
    let opcode_addr = cpu.pc.wrapping_sub(exception::OPCODE_PC_OFFSET);
    let idle = jump_idle(mode, reg);
    let ghost cpu0 = *cpu;
    let (target, acc) = jump_target(cpu, bus, mode, reg);
    let ghost fetched = *cpu;
    if target_faults(target) {
        let r = target_error(cpu, bus, target, op, opcode_addr.wrapping_add(2), acc, idle);
        proof {
            if mode == 7 && reg == 1 {
                let lo = choose|lo: u16| target == #[trigger] crate::ops::system::long_address(cpu0, lo);
                exception::lemma_entry_frame(fetched, cpu0, *cpu, 14);
                assert(jmp_long_outcome(cpu0, *cpu, r, lo));
            }
        }
        return r;
    }
    jump_to(cpu, bus, target);
    let r = 4 * (acc + 2) + idle;
    proof {
        if mode == 7 && reg == 1 {
            let lo = choose|lo: u16| target == #[trigger] crate::ops::system::long_address(cpu0, lo);
            assert(jmp_long_outcome(cpu0, *cpu, r, lo));
        }
    }
    r
}

/// What [`jsr`] guarantees: the CPU after it (`new`) and the cycles it
/// returns (`r`), from the CPU before it (`old`).
pub open spec fn jsr_post(old: M68k, new: M68k, op: u16, r: u32) -> bool {
    &&& r <= 200
    &&& ({
        let (mode, reg) = (op_mode(op), op_reg(op));
        let target = crate::ops::system::control_address(old, mode, reg);
        crate::ea::modes::is_control(mode, reg) && ea::spec_ext_words(mode, reg, Size::Long) <= 1 && target & 1 == 0 ==> {
            &&& new.a[7] == old.a[7].wrapping_sub(4)
            &&& forall|i: int| 0 <= i < 7 ==> new.a[i] == old.a[i]
            &&& new.d == old.d && new.sr == old.sr
            &&& new.pc == target.wrapping_add(4)
            &&& r == 16 + jump_idle_spec(mode, reg)
        }
    })
    &&& ({
        let (mode, reg) = (op_mode(op), op_reg(op));
        let target = crate::ops::system::control_address(old, mode, reg);
        crate::ea::modes::is_control(mode, reg) && ea::spec_ext_words(mode, reg, Size::Long) <= 1 && target & 1 != 0
            ==> fault_outcome(old, new, r, 0, jump_idle_spec(mode, reg))
    })
    &&& op_mode(op) == 7 && op_reg(op) == 1 ==> exists|lo: u16| #[trigger] jsr_long_outcome(old, new, r, lo)
}

/// `JSR <ea>`: checks the target, then reads the first target word, pushes the
/// return address, and reads the second.
pub fn jsr<B: Bus>(cpu: &mut M68k, bus: &mut B, op: u16) -> (r: u32)
    ensures
        jsr_post(*old(cpu), *final(cpu), op, r),
{
    let (mode, reg) = (field_mode(op), field_reg(op));
    if !crate::ea::modes::control(mode, reg) {
        return exception::illegal_instruction(cpu, bus, op);
    }
    let opcode_addr = cpu.pc.wrapping_sub(exception::OPCODE_PC_OFFSET);
    let idle = jump_idle(mode, reg);
    let de = ea::ext_words(mode, reg, Size::Long);
    let ret = opcode_addr.wrapping_add(2 * (1 + de));
    let ghost cpu0 = *cpu;
    let (target, acc) = jump_target(cpu, bus, mode, reg);
    let ghost fetched = *cpu;
    if target_faults(target) {
        let r = target_error(cpu, bus, target, op, ret, acc, idle);
        proof {
            if mode == 7 && reg == 1 {
                let lo = choose|lo: u16| target == #[trigger] crate::ops::system::long_address(cpu0, lo);
                exception::lemma_entry_frame(fetched, cpu0, *cpu, 14);
                assert(jsr_long_outcome(cpu0, *cpu, r, lo));
            }
        }
        return r;
    }
    cpu.pc = target;
    cpu.prefetch[0] = bus.read16(target & ADDR_MASK);
    push_return(cpu, bus, ret);
    cpu.prefetch[1] = bus.read16(target.wrapping_add(2) & ADDR_MASK);
    cpu.pc = target.wrapping_add(4);
    let r = 4 * (acc + 4) + idle;
    proof {
        if mode == 7 && reg == 1 {
            let lo = choose|lo: u16| target == #[trigger] crate::ops::system::long_address(cpu0, lo);
            assert(jsr_long_outcome(cpu0, *cpu, r, lo));
        }
    }
    r
}

/// What `RTS` does when the long it pops is `target`: the stack pointer
/// rises by 4; an even target is jumped to in 16 cycles, an odd one raises an
/// address error after the two reads.
pub open spec fn rts_outcome(old: M68k, new: M68k, r: u32, target: u32) -> bool {
    let popped = crate::cpu::with_a(old, 7, old.a[7].wrapping_add(4));
    if target & 1 == 0 {
        crate::cpu::same_regs(new, popped) && new.pc == target.wrapping_add(4) && r == 16
    } else {
        fault_outcome(popped, new, r, 2, 0)
    }
}

/// What [`rts`] guarantees: the CPU after it (`new`) and the cycles it
/// returns (`r`), from the CPU before it (`old`).
pub open spec fn rts_post(old: M68k, new: M68k, op: u16, r: u32) -> bool {
    &&& r <= 200
    &&& exists|target: u32| #[trigger] rts_outcome(old, new, r, target)
}

/// `RTS`: pops the return address and jumps to it.
pub fn rts<B: Bus>(cpu: &mut M68k, bus: &mut B, op: u16) -> (r: u32)
    ensures
        rts_post(*old(cpu), *final(cpu), op, r),
{
    let ghost cpu0 = *cpu;
    let opcode_addr = cpu.pc.wrapping_sub(exception::OPCODE_PC_OFFSET);
    let sp = cpu.a[7];
    let hi = bus.read16(sp & ADDR_MASK) as u32;
    let lo = bus.read16(sp.wrapping_add(2) & ADDR_MASK) as u32;
    let target = (hi << 16) | lo;
    cpu.a[7] = sp.wrapping_add(4);
    if target_faults(target) {
        let r = target_error(cpu, bus, target, op, opcode_addr.wrapping_add(2), 2, 0);
        assert(rts_outcome(cpu0, *cpu, r, target));
        return r;
    }
    jump_to(cpu, bus, target);
    assert(rts_outcome(cpu0, *cpu, 16, target));
    4 * 4
}

/// What `RTR` does when the words it pops are `ccr` and the long `target`: the
/// stack pointer rises by 6 and the CCR takes the popped word's low five bits;
/// an even target is jumped to in 20 cycles, an odd one raises an address
/// error after the three reads.
pub open spec fn rtr_outcome(old: M68k, new: M68k, r: u32, ccr: u16, target: u32) -> bool {
    let popped = M68k { sr: (old.sr & 0xFF00) | (ccr & 0x1F), ..crate::cpu::with_a(old, 7, old.a[7].wrapping_add(6)) };
    if target & 1 == 0 {
        crate::cpu::same_regs(new, popped) && new.pc == target.wrapping_add(4) && r == 20
    } else {
        fault_outcome(popped, new, r, 3, 0)
    }
}

/// What [`rtr`] guarantees: the CPU after it (`new`) and the cycles it
/// returns (`r`), from the CPU before it (`old`).
pub open spec fn rtr_post(old: M68k, new: M68k, op: u16, r: u32) -> bool {
    &&& r <= 200
    &&& exists|ccr: u16, target: u32| #[trigger] rtr_outcome(old, new, r, ccr, target)
}

/// `RTR`: pops the CCR, then the return address.
pub fn rtr<B: Bus>(cpu: &mut M68k, bus: &mut B, op: u16) -> (r: u32)
    ensures
        rtr_post(*old(cpu), *final(cpu), op, r),
{
    let ghost cpu0 = *cpu;
    let opcode_addr = cpu.pc.wrapping_sub(exception::OPCODE_PC_OFFSET);
    let sp = cpu.a[7];
    let ccr = bus.read16(sp & ADDR_MASK);
    let hi = bus.read16(sp.wrapping_add(2) & ADDR_MASK) as u32;
    let lo = bus.read16(sp.wrapping_add(4) & ADDR_MASK) as u32;
    let target = (hi << 16) | lo;
    cpu.a[7] = sp.wrapping_add(6);
    cpu.sr = (cpu.sr & 0xFF00) | (ccr & 0x1F);
    if target_faults(target) {
        let r = target_error(cpu, bus, target, op, opcode_addr.wrapping_add(2), 3, 0);
        assert(rtr_outcome(cpu0, *cpu, r, ccr, target));
        return r;
    }
    jump_to(cpu, bus, target);
    assert(rtr_outcome(cpu0, *cpu, 20, ccr, target));
    4 * 5
}

/// The handler this module assigns: all of line 6, `DBcc` and `Scc` (line 5,
/// size 3), `JSR`/`JMP` on control modes, `RTS` and `RTR`.
pub open spec fn claim_spec(op: u16) -> Option<Handler> {
    let (mode, reg) = (op_mode(op), op_reg(op));
    let line = op >> 12u16;
    if line == 6 {
        Some(Handler::Bcc)
    } else if line == 5 && (op >> 6u16) & 3 == 3 {
        if mode == 1 {
            Some(Handler::Dbcc)
        } else if crate::ops::data_alterable_ok(mode, reg) {
            Some(Handler::Scc)
        } else {
            None
        }
    } else if 0x4E80 <= op <= 0x4EFF && crate::ea::modes::is_control(mode, reg) {
        Some(if op & 0x0040 != 0 { Handler::Jmp } else { Handler::Jsr })
    } else if op == 0x4E75 {
        Some(Handler::Rts)
    } else if op == 0x4E77 {
        Some(Handler::Rtr)
    } else {
        None
    }
}

/// The handler this module assigns to `op`, if any.
pub fn claim(op: u16) -> (r: Option<Handler>)
    ensures
        r == claim_spec(op),
{
    let line = op >> 12;
    if line == 6 {
        return Some(Handler::Bcc);
    }
    let mode = field_mode(op);
    let reg = field_reg(op);
    if line == 5 && (op >> 6) & 3 == 3 {
        if mode == 1 {
            return Some(Handler::Dbcc);
        } else if valid_data_alterable(mode, reg) {
            return Some(Handler::Scc);
        }
        return None;
    }
    if op >= 0x4E80 && op <= 0x4EFF && crate::ea::modes::control(mode, reg) {
        return Some(if op & 0x0040 != 0 {
            Handler::Jmp
        } else {
            Handler::Jsr
        });
    }
    if op == 0x4E75 {
        return Some(Handler::Rts);
    }
    if op == 0x4E77 {
        return Some(Handler::Rtr);
    }
    None
}

/// Installs this family's handlers into the dispatch table: the opcodes
/// `claim_spec` gives a handler get it, the others keep theirs.
pub fn register(table: &mut Vec<Handler>)
    requires
        old(table).len() == 65536,
    ensures
        final(table).len() == 65536,
        forall|i: int|
            0 <= i < 65536 ==> #[trigger] final(table)@[i] == (match claim_spec(i as u16) {
                Some(h) => h,
                None => old(table)@[i],
            }),
{
    crate::ops::install(table, 7);
}

} // verus!
