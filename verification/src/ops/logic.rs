//! `AND`, `OR`, `EOR`, their immediate forms, the immediate-to-CCR/SR forms,
//! `NOT` and `NOP`. The logical ops keep X and clear V and C.

use crate::bus::Bus;
use crate::cpu::{ccr_bits, set_sr_spec, with_d, M68k};
use crate::decode::Handler;
use crate::ea::{mode_is_mem, spec_mode_is_mem, Size};
use crate::exception::{self, VEC_PRIVILEGE};
use crate::flags::{logic_flags, logic_spec};
use crate::ops::alu::{self, Compute as AluCompute, Ops, Plan, Tail};
use crate::ops::arith::{self, Single, size_of_bits, valid_data_alterable, valid_mem_dst};
use crate::ops::{field_mode, field_reg, field_reg9, op_mode, op_reg, op_reg9};
use crate::ea::size_from_bits;
use vstd::prelude::*;

verus! {

#[derive(Clone, Copy, PartialEq, Eq, Debug, Structural)]
pub enum LogicOp {
    And,
    Or,
    Eor,
}

pub open spec fn eval_spec(op: LogicOp, a: u32, b: u32) -> u32 {
    match op {
        LogicOp::And => a & b,
        LogicOp::Or => a | b,
        LogicOp::Eor => a ^ b,
    }
}

/// The CPU after a logical op at `size` produced `r`: X kept, N and Z from the
/// result, V and C clear.
pub open spec fn logic_effect(cpu: M68k, r: u32, size: Size) -> M68k {
    let (n, z, v, c) = logic_spec(r, size);
    M68k { sr: ccr_bits(cpu.sr, cpu.spec_ccr_x(), n, z, v, c), ..cpu }
}

impl LogicOp {
    pub fn eval(self, a: u32, b: u32) -> (r: u32)
        ensures
            r == eval_spec(self, a, b),
    {
        match self {
            LogicOp::And => a & b,
            LogicOp::Or => a | b,
            LogicOp::Eor => a ^ b,
        }
    }

    /// Computes `a op b` at `size`, sets the flags and returns the masked result.
    pub fn apply(self, cpu: &mut M68k, a: u32, b: u32, size: Size) -> (r: u32)
        ensures
            r == eval_spec(self, a, b) & size.mask(),
            *final(cpu) == logic_effect(*old(cpu), r, size),
    {
        let r = self.eval(a, b) & size.mask();
        let (n, z, v, c) = logic_flags(r, size);
        let x = cpu.ccr_x();
        cpu.set_ccr(x, n, z, v, c);
        r
    }
}

/// What a logical instruction computes once its operands are read.
#[derive(Clone, Copy)]
pub enum Compute {
    ToReg { op: LogicOp, dn: usize },
    ToEa { op: LogicOp, dn: usize },
    Immediate { op: LogicOp },
}

pub open spec fn compute_ok(c: Compute) -> bool {
    match c {
        Compute::ToReg { dn, .. } => dn < 8,
        Compute::ToEa { dn, .. } => dn < 8,
        _ => true,
    }
}

/// The CPU and the finish of a logical computation.
pub open spec fn apply_spec(cpu: M68k, c: Compute, size: Size, ops: Ops) -> (M68k, Tail) {
    match c {
        Compute::ToReg { op, dn } => {
            let d = cpu.d[dn as int];
            let r = eval_spec(op, d, ops.ea) & size.spec_mask();
            (with_d(logic_effect(cpu, r, size), dn as int, (d & !size.spec_mask()) | r), Tail::Done)
        },
        Compute::ToEa { op, dn } => {
            let r = eval_spec(op, ops.ea, cpu.d[dn as int]) & size.spec_mask();
            (logic_effect(cpu, r, size), Tail::Write(r))
        },
        Compute::Immediate { op } => {
            let r = eval_spec(op, ops.ea, ops.imm) & size.spec_mask();
            (logic_effect(cpu, r, size), Tail::Write(r))
        },
    }
}

/// Runs a logical computation.
pub fn apply(cpu: &mut M68k, c: Compute, size: Size, ops: Ops) -> (t: Tail)
    requires
        compute_ok(c),
    ensures
        (*final(cpu), t) == apply_spec(*old(cpu), c, size, ops),
{
    match c {
        Compute::ToReg { op, dn } => {
            let d = cpu.d[dn];
            let r = op.apply(cpu, d, ops.ea, size);
            let m = size.mask();
            cpu.d[dn] = (cpu.d[dn] & !m) | r;
            Tail::Done
        },
        Compute::ToEa { op, dn } => {
            let src = cpu.d[dn];
            Tail::Write(op.apply(cpu, ops.ea, src, size))
        },
        Compute::Immediate { op } => Tail::Write(op.apply(cpu, ops.ea, ops.imm, size)),
    }
}

/// The schedule of `<ea> op Dn -> Dn`.
pub open spec fn to_reg_plan(opcode: u16, size: Size) -> Plan {
    let (mode, reg) = (op_mode(opcode), op_reg(opcode));
    let idle: u32 = if size != Size::Long {
        0
    } else if spec_mode_is_mem(mode, reg) {
        2
    } else {
        4
    };
    alu::plan_of(size, mode, reg, 0, false, idle)
}

/// What [`to_reg`] guarantees: the CPU after it (`new`) and the cycles it
/// returns (`r`), from the CPU before it (`old`).
pub open spec fn to_reg_post(old: M68k, new: M68k, opcode: u16, op: LogicOp, size: Size, r: u32) -> bool {
    &&& r <= 2000
    &&& alu::direct_plan(to_reg_plan(opcode, size)) ==> alu::direct_result(
        old,
        new,
        to_reg_plan(opcode, size),
        AluCompute::Logic(Compute::ToReg { op, dn: op_reg9(opcode) as usize }),
        r,
    )
    &&& alu::indirect_plan(to_reg_plan(opcode, size)) ==> alu::indirect_run(
        old,
        new,
        to_reg_plan(opcode, size),
        AluCompute::Logic(Compute::ToReg { op, dn: op_reg9(opcode) as usize }),
        r,
    )
}

/// `<ea> op Dn -> Dn`.
pub fn to_reg<B: Bus>(cpu: &mut M68k, bus: &mut B, opcode: u16, op: LogicOp, size: Size) -> (r: u32)
    ensures
        to_reg_post(*old(cpu), *final(cpu), opcode, op, size, r),
{
    let (mode, reg) = (field_mode(opcode), field_reg(opcode));
    if !crate::ea::valid_ea(mode, reg) {
        return exception::illegal_instruction(cpu, bus, opcode);
    }
    let dn = field_reg9(opcode) as usize;
    let idle = if size != Size::Long {
        0
    } else if mode_is_mem(mode, reg) {
        2
    } else {
        4
    };
    let plan = Plan::new(size, mode, reg).idle(idle);
    alu::run(cpu, bus, &plan, AluCompute::Logic(Compute::ToReg { op, dn }))
}

/// What [`to_ea`] guarantees: the CPU after it (`new`) and the cycles it
/// returns (`r`), from the CPU before it (`old`).
pub open spec fn to_ea_post(old: M68k, new: M68k, opcode: u16, op: LogicOp, size: Size, r: u32) -> bool {
    &&& r <= 2000
    &&& op_mode(opcode) == 0 ==> alu::direct_result(
        old,
        new,
        alu::plan_of(size, 0, op_reg(opcode), 0, true, if size == Size::Long { 4 } else { 0 }),
        AluCompute::Logic(Compute::ToEa { op, dn: op_reg9(opcode) as usize }),
        r,
    )
    &&& alu::indirect_plan(alu::plan_of(size, op_mode(opcode), op_reg(opcode), 0, true, 0)) ==> alu::indirect_run(
        old,
        new,
        alu::plan_of(size, op_mode(opcode), op_reg(opcode), 0, true, 0),
        AluCompute::Logic(Compute::ToEa { op, dn: op_reg9(opcode) as usize }),
        r,
    )
}

/// `Dn op <ea> -> <ea>`, including `EOR`.
pub fn to_ea<B: Bus>(cpu: &mut M68k, bus: &mut B, opcode: u16, op: LogicOp, size: Size) -> (r: u32)
    ensures
        to_ea_post(*old(cpu), *final(cpu), opcode, op, size, r),
{
    let (mode, reg) = (field_mode(opcode), field_reg(opcode));
    if !crate::ea::valid_ea(mode, reg) {
        return exception::illegal_instruction(cpu, bus, opcode);
    }
    let dn = field_reg9(opcode) as usize;
    let idle = if mode == 0 && size == Size::Long {
        4
    } else {
        0
    };
    let plan = Plan::new(size, mode, reg).writes().idle(idle);
    alu::run(cpu, bus, &plan, AluCompute::Logic(Compute::ToEa { op, dn }))
}

/// What [`immediate`] guarantees: the CPU after it (`new`) and the cycles it
/// returns (`r`), from the CPU before it (`old`).
pub open spec fn immediate_post(old: M68k, new: M68k, opcode: u16, op: LogicOp, size: Size, r: u32) -> bool {
    &&& r <= 2000
    &&& op_mode(opcode) == 0 && size != Size::Long ==> alu::direct_result(
        old,
        new,
        alu::plan_of(size, 0, op_reg(opcode), 1, true, 0),
        AluCompute::Logic(Compute::Immediate { op }),
        r,
    )
    &&& ({
        let plan = alu::plan_of(size, op_mode(opcode), op_reg(opcode), if size == Size::Long { 2 } else { 1 }, true, 0);
        &&& alu::indirect_plan(plan) ==> alu::indirect_run(
            old,
            new,
            plan,
            AluCompute::Logic(Compute::Immediate { op }),
            r,
        )
    })
}

/// `ANDI`, `ORI`, `EORI`.
pub fn immediate<B: Bus>(cpu: &mut M68k, bus: &mut B, opcode: u16, op: LogicOp, size: Size) -> (r: u32)
    ensures
        immediate_post(*old(cpu), *final(cpu), opcode, op, size, r),
{
    let (mode, reg) = (field_mode(opcode), field_reg(opcode));
    if !crate::ea::valid_ea(mode, reg) {
        return exception::illegal_instruction(cpu, bus, opcode);
    }
    let pre = if size == Size::Long {
        2
    } else {
        1
    };
    let mut plan = Plan::new(size, mode, reg).pre(pre).writes();
    if !mode_is_mem(mode, reg) && size == Size::Long {
        plan = plan.idle(4);
    }
    alu::run(cpu, bus, &plan, AluCompute::Logic(Compute::Immediate { op }))
}

/// `xxxI #imm,CCR` keeps the SR's upper byte and the CCR's unused bits.
pub open spec fn ccr_write_spec(sr: u16, r: u16) -> u16 {
    (sr & 0xFFE0) | (r & 0x1F)
}

/// What [`to_ccr_sr`] guarantees: the CPU after it (`new`) and the cycles it
/// returns (`r`), from the CPU before it (`old`).
pub open spec fn to_ccr_sr_post(old: M68k, new: M68k, op: LogicOp, to_sr: bool, r: u32) -> bool {
    &&& to_sr && old.sr & crate::cpu::SR_S == 0 ==> crate::ops::system::refused(old, new)
    &&& old.sr & crate::cpu::SR_S != 0 || !to_sr ==> r == 20 && (if to_sr {
        new.sr == set_sr_spec(old, eval_spec(op, old.sr as u32, old.prefetch[1] as u32) as u16).sr
    } else {
        new.sr == ccr_write_spec(old.sr, eval_spec(op, old.sr as u32, old.prefetch[1] as u32) as u16)
    })
    &&& r <= 2000
}

/// `ANDI`/`ORI`/`EORI` to CCR or SR. The SR forms are privileged.
pub fn to_ccr_sr<B: Bus>(cpu: &mut M68k, bus: &mut B, op: LogicOp, to_sr: bool) -> (r: u32)
    ensures
        to_ccr_sr_post(*old(cpu), *final(cpu), op, to_sr, r),
{
    if to_sr && !cpu.sr_s() {
        let pc = cpu.pc.wrapping_sub(exception::OPCODE_PC_OFFSET);
        exception::take(cpu, bus, VEC_PRIVILEGE, pc);
        return exception::entry_cycles(cpu, 0, 4 * exception::SHORT_FRAME_ACCESSES + 6);
    }
    let imm = cpu.prefetch[1];
    cpu.consume_opcode(bus);
    if to_sr {
        let v = op.eval(cpu.sr as u32, imm as u32) as u16;
        cpu.set_sr(v);
    } else {
        let r = op.eval(cpu.sr as u32, imm as u32) as u16;
        cpu.sr = (cpu.sr & 0xFFE0) | (r & 0x1F);
    }
    cpu.pc = cpu.pc.wrapping_sub(2);
    cpu.refill_prefetch(bus);
    4 * 3 + 8
}

/// What [`nop`] guarantees: the CPU after it (`new`) and the cycles it
/// returns (`r`), from the CPU before it (`old`).
pub open spec fn nop_post(old: M68k, new: M68k, opcode: u16, r: u32) -> bool {
    &&& r == 4
    &&& crate::cpu::advanced(old, new)
}

/// `NOP`: one queue advance.
pub fn nop<B: Bus>(cpu: &mut M68k, bus: &mut B, _opcode: u16) -> (r: u32)
    ensures
        nop_post(*old(cpu), *final(cpu), _opcode, r),
{
    cpu.consume_opcode(bus);
    4
}

/// The handler an `xxxI` family assigns: data-alterable destinations only.
/// `ORI`/`ANDI`/`EORI`'s space for `family` (0, 1, 5): line 0, bit 8 clear, a
/// size, a data-alterable `<ea>`.
pub open spec fn immediate_family_spec(op: u16, family: u16) -> bool {
    op >> 12u16 == 0 && op & 0x0100 == 0 && op_reg9(op) == family && (op >> 6u16) & 3 != 3
        && crate::ops::data_alterable_ok(op_mode(op), op_reg(op))
}

pub fn claim_immediate_family(op: u16, family: u16) -> (r: bool)
    ensures
        r == immediate_family_spec(op, family),
{
    let sb = (op >> 6) & 3;
    op >> 12 == 0 && (op & 0x0100) == 0 && (op >> 9) & 7 == family && sb != 3 && valid_data_alterable(field_mode(op), field_reg(op))
}

/// The handler this module assigns: `AND`/`OR` (lines C and 8), `EOR`, the
/// CCR/SR immediates, `ORI`/`ANDI`/`EORI`, `NOT` and `NOP`.
pub open spec fn claim_spec(op: u16) -> Option<Handler> {
    let line = op >> 12u16;
    let (mode, reg) = (op_mode(op), op_reg(op));
    let opmode = (op >> 6u16) & 7;
    let sb = (op >> 6u16) & 3;
    if line == 0xC || line == 0x8 {
        let lop = if line == 0xC { LogicOp::And } else { LogicOp::Or };
        if opmode <= 2 {
            if mode != 1 && (mode != 7 || reg <= 4) { Some(Handler::LogicToReg(lop, size_from_bits(opmode))) } else { None }
        } else if opmode >= 4 && opmode <= 6 && crate::ops::mem_alterable_ok(mode, reg) {
            Some(Handler::LogicToEa(lop, size_from_bits((opmode - 4) as u16)))
        } else {
            None
        }
    } else if line == 0xB && opmode >= 4 && opmode <= 6 {
        if mode != 1 && crate::ops::data_alterable_ok(mode, reg) {
            Some(Handler::LogicToEa(LogicOp::Eor, size_from_bits((opmode - 4) as u16)))
        } else {
            None
        }
    } else if op == 0x003C {
        Some(Handler::LogicCcrSr(LogicOp::Or, false))
    } else if op == 0x007C {
        Some(Handler::LogicCcrSr(LogicOp::Or, true))
    } else if op == 0x023C {
        Some(Handler::LogicCcrSr(LogicOp::And, false))
    } else if op == 0x027C {
        Some(Handler::LogicCcrSr(LogicOp::And, true))
    } else if op == 0x0A3C {
        Some(Handler::LogicCcrSr(LogicOp::Eor, false))
    } else if op == 0x0A7C {
        Some(Handler::LogicCcrSr(LogicOp::Eor, true))
    } else if immediate_family_spec(op, 0) {
        Some(Handler::LogicImm(LogicOp::Or, size_from_bits(sb)))
    } else if immediate_family_spec(op, 1) {
        Some(Handler::LogicImm(LogicOp::And, size_from_bits(sb)))
    } else if immediate_family_spec(op, 5) {
        Some(Handler::LogicImm(LogicOp::Eor, size_from_bits(sb)))
    } else if line == 4 && (op >> 8u16) & 0xF == 6 && sb != 3 && crate::ops::data_alterable_ok(mode, reg) {
        Some(Handler::Single(Single::Not, size_from_bits(sb)))
    } else if op == 0x4E71 {
        Some(Handler::Nop)
    } else {
        None
    }
}

/// The handler this module assigns to `op`, if any.
pub fn claim(op: u16) -> (r: Option<Handler>)
    ensures
        r == claim_spec(op),
{
    let line = op >> 12;
    let mode = field_mode(op);
    let reg = field_reg(op);
    let opmode = (op >> 6) & 7;
    if line == 0xC || line == 0x8 {
        let lop = if line == 0xC {
            LogicOp::And
        } else {
            LogicOp::Or
        };
        if opmode <= 2 {
            if mode != 1 && (mode != 7 || reg <= 4) {
                return Some(Handler::LogicToReg(lop, size_of_bits(opmode)));
            }
        } else if opmode >= 4 && opmode <= 6 {
            if valid_mem_dst(mode, reg) {
                return Some(Handler::LogicToEa(lop, size_of_bits(opmode - 4)));
            }
        }
        return None;
    }
    if line == 0xB && opmode >= 4 && opmode <= 6 {
        if mode != 1 && valid_data_alterable(mode, reg) {
            return Some(Handler::LogicToEa(LogicOp::Eor, size_of_bits(opmode - 4)));
        }
        return None;
    }
    if op == 0x003C {
        return Some(Handler::LogicCcrSr(LogicOp::Or, false));
    }
    if op == 0x007C {
        return Some(Handler::LogicCcrSr(LogicOp::Or, true));
    }
    if op == 0x023C {
        return Some(Handler::LogicCcrSr(LogicOp::And, false));
    }
    if op == 0x027C {
        return Some(Handler::LogicCcrSr(LogicOp::And, true));
    }
    if op == 0x0A3C {
        return Some(Handler::LogicCcrSr(LogicOp::Eor, false));
    }
    if op == 0x0A7C {
        return Some(Handler::LogicCcrSr(LogicOp::Eor, true));
    }
    let sb = (op >> 6) & 3;
    if claim_immediate_family(op, 0) {
        return Some(Handler::LogicImm(LogicOp::Or, size_of_bits(sb)));
    }
    if claim_immediate_family(op, 1) {
        return Some(Handler::LogicImm(LogicOp::And, size_of_bits(sb)));
    }
    if claim_immediate_family(op, 5) {
        return Some(Handler::LogicImm(LogicOp::Eor, size_of_bits(sb)));
    }
    if line == 4 && (op >> 8) & 0xF == 6 && sb != 3 && valid_data_alterable(mode, reg) {
        return Some(Handler::Single(Single::Not, size_of_bits(sb)));
    }
    if op == 0x4E71 {
        return Some(Handler::Nop);
    }
    None
}

/// Installs this family's handlers into the dispatch table: the opcodes
/// `claim_spec` gives a handler get it, the others keep theirs.
pub fn register(table: &mut Vec<Handler>)
    requires
        old(table).len() == 65536,
    ensures
        final(table).len() == 65536,
        forall|i: int|
            0 <= i < 65536 ==> #[trigger] final(table)@[i] == (match claim_spec(i as u16) {
                Some(h) => h,
                None => old(table)@[i],
            }),
{
    crate::ops::install(table, 2);
}

} // verus!
