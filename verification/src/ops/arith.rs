//! `ADD`, `SUB`, `CMP` and their address, extended, immediate and quick forms,
//! plus the single-operand `NEG`, `NEGX`, `CLR` and `TST`.
//!
//! `ADDA`/`SUBA` and `ADDQ`/`SUBQ` to an address register touch no flag; `CMP`
//! keeps X; `ADDX`/`SUBX`/`NEGX` use X as the carry in and accumulate Z.

use crate::bus::Bus;
use crate::cpu::{ccr_bits, low_set, with_a, with_ccr, with_d, M68k};
use crate::decode::Handler;
use crate::ea::{mode_is_mem, size_from_bits, spec_mode_is_mem, Size};
use crate::flags::{accumulate_z, add_flags, add_spec, logic_flags, logic_spec, sub_flags, sub_spec};
use crate::ops::alu::{self, Compute as AluCompute, Ops, Plan, Tail};
use crate::ops::{field_mode, field_reg, field_reg9, op_mode, op_reg, op_reg9};
use vstd::prelude::*;

verus! {

#[derive(Clone, Copy, PartialEq, Eq, Debug, Structural)]
pub enum ArithOp {
    Add,
    Sub,
    Cmp,
}

/// `(result, n, z, v, c)` of an arithmetic op.
pub open spec fn arith_spec(op: ArithOp, dst: u32, src: u32, size: Size) -> (u32, bool, bool, bool, bool) {
    match op {
        ArithOp::Add => add_spec(dst, src, false, size),
        _ => sub_spec(dst, src, false, size),
    }
}

/// The CPU after an arithmetic op sets its flags: X follows C, except that
/// `CMP` keeps X.
pub open spec fn arith_flags(cpu: M68k, op: ArithOp, dst: u32, src: u32, size: Size) -> M68k {
    let (r, n, z, v, c) = arith_spec(op, dst, src, size);
    let x = if op == ArithOp::Cmp { cpu.spec_ccr_x() } else { c };
    M68k { sr: ccr_bits(cpu.sr, x, n, z, v, c), ..cpu }
}

impl ArithOp {
    /// Computes `dst op src` at `size`, sets the CCR, and returns the result.
    pub fn apply(self, cpu: &mut M68k, dst: u32, src: u32, size: Size) -> (r: u32)
        ensures
            r == arith_spec(self, dst, src, size).0,
            *final(cpu) == arith_flags(*old(cpu), self, dst, src, size),
    {
        match self {
            ArithOp::Add => {
                let (r, n, z, v, c) = add_flags(dst, src, false, size);
                cpu.set_ccr(c, n, z, v, c);
                r
            },
            ArithOp::Sub => {
                let (r, n, z, v, c) = sub_flags(dst, src, false, size);
                cpu.set_ccr(c, n, z, v, c);
                r
            },
            ArithOp::Cmp => {
                let (r, n, z, v, c) = sub_flags(dst, src, false, size);
                let x = cpu.ccr_x();
                cpu.set_ccr(x, n, z, v, c);
                r
            },
        }
    }
}

/// The single-operand instructions.
#[derive(Clone, Copy, PartialEq, Eq, Debug, Structural)]
pub enum Single {
    Neg,
    Negx,
    Clr,
    Not,
    Tst,
}

/// What an arithmetic instruction computes once its operands are read.
#[derive(Clone, Copy)]
pub enum Compute {
    /// `<ea> op Dn -> Dn` (`to_reg`) or `Dn op <ea> -> <ea>`.
    EaDn { op: ArithOp, dn: usize, to_reg: bool },
    /// `ADDA`/`SUBA`/`CMPA`: the source is sign-extended to 32 bits.
    Addr { op: ArithOp, an: usize },
    /// `ADDX`/`SUBX`, register or memory-pair form.
    Extended { op: ArithOp, x: usize, reg_form: bool },
    /// `CMPM (Ay)+,(Ax)+`.
    Cmpm,
    /// `xxxI #imm,<ea>`.
    Immediate { op: ArithOp },
    /// `ADDQ`/`SUBQ`; `an` is `Some(r)` for the address-register form.
    Quick { op: ArithOp, target: Option<usize>, imm: u32 },
    Single(Single),
}

/// Register numbers inside a computation are in range.
pub open spec fn compute_ok(c: Compute) -> bool {
    match c {
        Compute::EaDn { dn, .. } => dn < 8,
        Compute::Addr { an, .. } => an < 8,
        Compute::Extended { x, .. } => x < 8,
        Compute::Quick { target, .. } => match target {
            Some(r) => r < 8,
            None => true,
        },
        _ => true,
    }
}

fn set_low(old: u32, r: u32, size: Size) -> (v: u32)
    ensures
        v == low_set(old, r, size),
{
    let m = size.mask();
    (old & !m) | (r & m)
}

/// The CPU and the finish of an arithmetic computation.
pub open spec fn apply_spec(cpu: M68k, c: Compute, size: Size, ops: Ops) -> (M68k, Tail) {
    match c {
        Compute::EaDn { op, dn, to_reg } => {
            let d = cpu.d[dn as int];
            if to_reg {
                let f = arith_flags(cpu, op, d, ops.ea, size);
                let r = arith_spec(op, d, ops.ea, size).0;
                (if op != ArithOp::Cmp { with_d(f, dn as int, low_set(d, r, size)) } else { f }, Tail::Done)
            } else {
                (arith_flags(cpu, op, ops.ea, d, size), Tail::Write(arith_spec(op, ops.ea, d, size).0))
            }
        },
        Compute::Addr { op, an } => {
            let src = size.spec_sign_extend(ops.ea);
            let a = cpu.a[an as int];
            if op == ArithOp::Cmp {
                let f = sub_spec(a, src, false, Size::Long);
                (with_ccr(cpu, cpu.spec_ccr_x(), f.1, f.2, f.3, f.4), Tail::Done)
            } else if op == ArithOp::Add {
                (with_a(cpu, an as int, a.wrapping_add(src)), Tail::Done)
            } else {
                (with_a(cpu, an as int, a.wrapping_sub(src)), Tail::Done)
            }
        },
        Compute::Extended { op, x, reg_form } => {
            let dst = if reg_form { cpu.d[x as int] } else { ops.ea };
            let src = if reg_form { ops.ea } else { ops.src };
            let f = if op == ArithOp::Add {
                add_spec(dst, src, cpu.spec_ccr_x(), size)
            } else {
                sub_spec(dst, src, cpu.spec_ccr_x(), size)
            };
            let after = with_ccr(cpu, f.4, f.1, f.2 && cpu.spec_ccr_z(), f.3, f.4);
            if reg_form {
                (with_d(after, x as int, low_set(dst, f.0, size)), Tail::Done)
            } else {
                (after, Tail::Write(f.0))
            }
        },
        Compute::Cmpm => {
            let f = sub_spec(ops.ea, ops.src, false, size);
            (with_ccr(cpu, cpu.spec_ccr_x(), f.1, f.2, f.3, f.4), Tail::Done)
        },
        Compute::Immediate { op } => (
            arith_flags(cpu, op, ops.ea, ops.imm, size),
            if op == ArithOp::Cmp { Tail::Done } else { Tail::Write(arith_spec(op, ops.ea, ops.imm, size).0) },
        ),
        Compute::Quick { op, target, imm } => match target {
            Some(r) => {
                let a = cpu.a[r as int];
                (with_a(cpu, r as int, if op == ArithOp::Add { a.wrapping_add(imm) } else { a.wrapping_sub(imm) }), Tail::Done)
            },
            None => (arith_flags(cpu, op, ops.ea, imm, size), Tail::Write(arith_spec(op, ops.ea, imm, size).0)),
        },
        Compute::Single(which) => {
            let v = ops.ea;
            let x = cpu.spec_ccr_x();
            match which {
                Single::Neg => {
                    let f = sub_spec(0, v, false, size);
                    (with_ccr(cpu, f.4, f.1, f.2, f.3, f.4), Tail::Write(f.0))
                },
                Single::Negx => {
                    let f = sub_spec(0, v, x, size);
                    (with_ccr(cpu, f.4, f.1, f.2 && cpu.spec_ccr_z(), f.3, f.4), Tail::Write(f.0))
                },
                Single::Clr => (with_ccr(cpu, x, false, true, false, false), Tail::Write(0)),
                Single::Not => {
                    let r = !v & size.spec_mask();
                    let f = logic_spec(r, size);
                    (with_ccr(cpu, x, f.0, f.1, f.2, f.3), Tail::Write(r))
                },
                Single::Tst => {
                    let f = logic_spec(v, size);
                    (with_ccr(cpu, x, f.0, f.1, f.2, f.3), Tail::Done)
                },
            }
        },
    }
}

/// Runs an arithmetic computation.
pub fn apply(cpu: &mut M68k, c: Compute, size: Size, ops: Ops) -> (t: Tail)
    requires
        compute_ok(c),
    ensures
        (*final(cpu), t) == apply_spec(*old(cpu), c, size, ops),
{
    match c {
        Compute::EaDn { op, dn, to_reg } => {
            if to_reg {
                let d = cpu.d[dn];
                let r = op.apply(cpu, d, ops.ea, size);
                if op != ArithOp::Cmp {
                    cpu.d[dn] = set_low(cpu.d[dn], r, size);
                }
                Tail::Done
            } else {
                let src = cpu.d[dn];
                Tail::Write(op.apply(cpu, ops.ea, src, size))
            }
        },
        Compute::Addr { op, an } => {
            let src = size.sign_extend(ops.ea);
            match op {
                ArithOp::Cmp => {
                    let (_, n, z, v, c) = sub_flags(cpu.a[an], src, false, Size::Long);
                    let x = cpu.ccr_x();
                    cpu.set_ccr(x, n, z, v, c);
                },
                ArithOp::Add => {
                    cpu.a[an] = cpu.a[an].wrapping_add(src);
                },
                ArithOp::Sub => {
                    cpu.a[an] = cpu.a[an].wrapping_sub(src);
                },
            }
            Tail::Done
        },
        Compute::Extended { op, x, reg_form } => {
            let dst = if reg_form {
                cpu.d[x]
            } else {
                ops.ea
            };
            let src = if reg_form {
                ops.ea
            } else {
                ops.src
            };
            let xi = cpu.ccr_x();
            let zi = cpu.ccr_z();
            let (r, n, z, v, c) = if op == ArithOp::Add {
                add_flags(dst, src, xi, size)
            } else {
                sub_flags(dst, src, xi, size)
            };
            cpu.set_ccr(c, n, accumulate_z(z, zi), v, c);
            if reg_form {
                cpu.d[x] = set_low(cpu.d[x], r, size);
                Tail::Done
            } else {
                Tail::Write(r)
            }
        },
        Compute::Cmpm => {
            let (_, n, z, v, c) = sub_flags(ops.ea, ops.src, false, size);
            let x = cpu.ccr_x();
            cpu.set_ccr(x, n, z, v, c);
            Tail::Done
        },
        Compute::Immediate { op } => {
            let r = op.apply(cpu, ops.ea, ops.imm, size);
            if op == ArithOp::Cmp {
                Tail::Done
            } else {
                Tail::Write(r)
            }
        },
        Compute::Quick { op, target, imm } => {
            match target {
                Some(r) => {
                    if op == ArithOp::Add {
                        cpu.a[r] = cpu.a[r].wrapping_add(imm);
                    } else {
                        cpu.a[r] = cpu.a[r].wrapping_sub(imm);
                    }
                    Tail::Done
                },
                None => Tail::Write(op.apply(cpu, ops.ea, imm, size)),
            }
        },
        Compute::Single(which) => {
            let v = ops.ea;
            let r = match which {
                Single::Neg => {
                    let (r, n, z, vf, c) = sub_flags(0, v, false, size);
                    cpu.set_ccr(c, n, z, vf, c);
                    r
                },
                Single::Negx => {
                    let xi = cpu.ccr_x();
                    let zi = cpu.ccr_z();
                    let (r, n, z, vf, c) = sub_flags(0, v, xi, size);
                    cpu.set_ccr(c, n, accumulate_z(z, zi), vf, c);
                    r
                },
                Single::Clr => {
                    let x = cpu.ccr_x();
                    cpu.set_ccr(x, false, true, false, false);
                    0
                },
                Single::Not => {
                    let r = !v & size.mask();
                    let (n, z, vf, c) = logic_flags(r, size);
                    let x = cpu.ccr_x();
                    cpu.set_ccr(x, n, z, vf, c);
                    r
                },
                Single::Tst => {
                    let (n, z, vf, c) = logic_flags(v, size);
                    let x = cpu.ccr_x();
                    cpu.set_ccr(x, n, z, vf, c);
                    0
                },
            };
            if which != Single::Tst {
                Tail::Write(r)
            } else {
                Tail::Done
            }
        },
    }
}

/// Trailing idle of `<ea> op Dn -> Dn`: 0 below long size, 2 for `CMP` or a
/// memory source, 4 otherwise.
pub fn to_reg_idle(op: ArithOp, size: Size, mode: u16, reg: u16) -> (r: u32)
    ensures
        r == (if size != Size::Long { 0u32 } else if op == ArithOp::Cmp || mode_is_mem(mode, reg) { 2u32 } else { 4u32 }),
{
    if size != Size::Long {
        0
    } else if op == ArithOp::Cmp || mode_is_mem(mode, reg) {
        2
    } else {
        4
    }
}

/// The schedule of `<ea> op Dn -> Dn` and `Dn op <ea> -> <ea>`.
pub open spec fn ea_dn_plan(opcode: u16, op: ArithOp, size: Size, to_reg: bool) -> Plan {
    let (mode, reg) = (op_mode(opcode), op_reg(opcode));
    let idle: u32 = if !to_reg || size != Size::Long {
        0
    } else if op == ArithOp::Cmp || spec_mode_is_mem(mode, reg) {
        2
    } else {
        4
    };
    alu::plan_of(size, mode, reg, 0, !to_reg, idle)
}

/// What [`alu_ea_dn`] guarantees: the CPU after it (`new`) and the cycles it
/// returns (`r`), from the CPU before it (`old`).
pub open spec fn alu_ea_dn_post(old: M68k, new: M68k, opcode: u16, op: ArithOp, size: Size, to_reg: bool, r: u32) -> bool {
    &&& r <= 2000
    &&& alu::direct_plan(ea_dn_plan(opcode, op, size, to_reg)) ==> alu::direct_result(
        old,
        new,
        ea_dn_plan(opcode, op, size, to_reg),
        AluCompute::Arith(Compute::EaDn { op, dn: op_reg9(opcode) as usize, to_reg }),
        r,
    )
    &&& alu::indirect_plan(ea_dn_plan(opcode, op, size, to_reg)) ==> alu::indirect_run(
        old,
        new,
        ea_dn_plan(opcode, op, size, to_reg),
        AluCompute::Arith(Compute::EaDn { op, dn: op_reg9(opcode) as usize, to_reg }),
        r,
    )
}

/// `<ea> op Dn -> Dn` and `Dn op <ea> -> <ea>`.
pub fn alu_ea_dn<B: Bus>(cpu: &mut M68k, bus: &mut B, opcode: u16, op: ArithOp, size: Size, to_reg: bool) -> (r: u32)
    ensures
        alu_ea_dn_post(*old(cpu), *final(cpu), opcode, op, size, to_reg, r),
{
    let (mode, reg) = (field_mode(opcode), field_reg(opcode));
    let dn = field_reg9(opcode) as usize;
    if !crate::ea::valid_ea(mode, reg) {
        return crate::exception::illegal_instruction(cpu, bus, opcode);
    }
    let mut plan = Plan::new(size, mode, reg);
    if to_reg {
        plan = plan.idle(to_reg_idle(op, size, mode, reg));
    } else {
        plan = plan.writes();
    }
    assert(plan == ea_dn_plan(opcode, op, size, to_reg));
    alu::run(cpu, bus, &plan, AluCompute::Arith(Compute::EaDn { op, dn, to_reg }))
}

/// The schedule of `ADDA`, `SUBA`, `CMPA`.
pub open spec fn addr_plan(opcode: u16, op: ArithOp, size: Size) -> Plan {
    let (mode, reg) = (op_mode(opcode), op_reg(opcode));
    let idle: u32 = if op == ArithOp::Cmp {
        2
    } else if size != Size::Long || !spec_mode_is_mem(mode, reg) {
        4
    } else {
        2
    };
    alu::plan_of(size, mode, reg, 0, false, idle)
}

/// What [`alu_a`] guarantees: the CPU after it (`new`) and the cycles it
/// returns (`r`), from the CPU before it (`old`).
pub open spec fn alu_a_post(old: M68k, new: M68k, opcode: u16, op: ArithOp, size: Size, r: u32) -> bool {
    &&& r <= 2000
    &&& alu::direct_plan(addr_plan(opcode, op, size)) ==> alu::direct_result(
        old,
        new,
        addr_plan(opcode, op, size),
        AluCompute::Arith(Compute::Addr { op, an: op_reg9(opcode) as usize }),
        r,
    )
    &&& alu::indirect_plan(addr_plan(opcode, op, size)) ==> alu::indirect_run(
        old,
        new,
        addr_plan(opcode, op, size),
        AluCompute::Arith(Compute::Addr { op, an: op_reg9(opcode) as usize }),
        r,
    )
}

/// `ADDA`, `SUBA`, `CMPA`.
pub fn alu_a<B: Bus>(cpu: &mut M68k, bus: &mut B, opcode: u16, op: ArithOp, size: Size) -> (r: u32)
    ensures
        alu_a_post(*old(cpu), *final(cpu), opcode, op, size, r),
{
    let (mode, reg) = (field_mode(opcode), field_reg(opcode));
    let an = field_reg9(opcode) as usize;
    if !crate::ea::valid_ea(mode, reg) {
        return crate::exception::illegal_instruction(cpu, bus, opcode);
    }
    let idle = if op == ArithOp::Cmp {
        2
    } else if size != Size::Long || !mode_is_mem(mode, reg) {
        4
    } else {
        2
    };
    let plan = Plan::new(size, mode, reg).idle(idle);
    alu::run(cpu, bus, &plan, AluCompute::Arith(Compute::Addr { op, an }))
}

/// What [`addx_subx`] guarantees: the CPU after it (`new`) and the cycles it
/// returns (`r`), from the CPU before it (`old`).
pub open spec fn addx_subx_post(old: M68k, new: M68k, opcode: u16, op: ArithOp, size: Size, r: u32) -> bool {
    &&& r <= 2000
    &&& op_mode(opcode) == 0 ==> alu::direct_result(
        old,
        new,
        alu::plan_of(size, 0, op_reg(opcode), 0, false, if size == Size::Long { 4 } else { 0 }),
        AluCompute::Arith(Compute::Extended { op, x: op_reg9(opcode) as usize, reg_form: true }),
        r,
    )
    &&& op_mode(opcode) != 0 && !alu::pair_faults(old, alu::pair_plan_of(size, 4, op_reg9(opcode), true, op_reg(opcode), true))
        ==> alu::pair_result(
        old,
        new,
        alu::pair_plan_of(size, 4, op_reg9(opcode), true, op_reg(opcode), true),
        AluCompute::Arith(Compute::Extended { op, x: op_reg9(opcode) as usize, reg_form: false }),
        r,
    )
    &&& op_mode(opcode) != 0 ==> alu::pair_fault(old, new, alu::pair_plan_of(size, 4, op_reg9(opcode), true, op_reg(opcode), true), r)
}

/// `ADDX`/`SUBX`: `Dy,Dx` or the memory-pair form `-(Ay),-(Ax)`.
pub fn addx_subx<B: Bus>(cpu: &mut M68k, bus: &mut B, opcode: u16, op: ArithOp, size: Size) -> (r: u32)
    ensures
        addx_subx_post(*old(cpu), *final(cpu), opcode, op, size, r),
{
    let (mode, reg) = (field_mode(opcode), field_reg(opcode));
    let x = field_reg9(opcode);
    let reg_form = mode == 0;
    let plan = if reg_form {
        Plan::new(size, 0, reg).idle(if size == Size::Long { 4 } else { 0 })
    } else {
        Plan::new(size, 4, x).writes().pair(4, reg, true)
    };
    alu::run(cpu, bus, &plan, AluCompute::Arith(Compute::Extended { op, x: x as usize, reg_form }))
}

/// What [`cmpm`] guarantees: the CPU after it (`new`) and the cycles it
/// returns (`r`), from the CPU before it (`old`).
pub open spec fn compare_memory_post(old: M68k, new: M68k, opcode: u16, size: Size, r: u32) -> bool {
    let plan = alu::pair_plan_of(size, 3, op_reg9(opcode), false, op_reg(opcode), false);
    &&& r <= 2000
    &&& !alu::pair_faults(old, plan) ==> alu::pair_result(old, new, plan, AluCompute::Arith(Compute::Cmpm), r)
    &&& alu::pair_fault(old, new, plan, r)
}

/// `CMPM (Ay)+,(Ax)+`.
pub fn cmpm<B: Bus>(cpu: &mut M68k, bus: &mut B, opcode: u16, size: Size) -> (r: u32)
    ensures
        compare_memory_post(*old(cpu), *final(cpu), opcode, size, r),
{
    let plan = Plan::new(size, 3, field_reg9(opcode)).pair(3, field_reg(opcode), false);
    alu::run(cpu, bus, &plan, AluCompute::Arith(Compute::Cmpm))
}

/// The schedule of `ADDI`, `SUBI`, `CMPI`.
pub open spec fn immediate_plan(opcode: u16, op: ArithOp, size: Size) -> Plan {
    let (mode, reg) = (op_mode(opcode), op_reg(opcode));
    let mem = spec_mode_is_mem(mode, reg);
    let idle: u32 = if mem || size != Size::Long {
        0
    } else if op == ArithOp::Cmp {
        2
    } else {
        4
    };
    alu::plan_of(size, mode, reg, if size == Size::Long { 2 } else { 1 }, mem && op != ArithOp::Cmp, idle)
}

/// What [`immediate`] guarantees: the CPU after it (`new`) and the cycles it
/// returns (`r`), from the CPU before it (`old`).
pub open spec fn immediate_post(old: M68k, new: M68k, opcode: u16, op: ArithOp, size: Size, r: u32) -> bool {
    &&& r <= 2000
    &&& alu::direct_plan(immediate_plan(opcode, op, size)) ==> alu::direct_result(
        old,
        new,
        immediate_plan(opcode, op, size),
        AluCompute::Arith(Compute::Immediate { op }),
        r,
    )
    &&& alu::indirect_plan(immediate_plan(opcode, op, size))
        ==> alu::indirect_run(old, new, immediate_plan(opcode, op, size), AluCompute::Arith(Compute::Immediate { op }), r)
}

/// `ADDI`, `SUBI`, `CMPI`.
pub fn immediate<B: Bus>(cpu: &mut M68k, bus: &mut B, opcode: u16, op: ArithOp, size: Size) -> (r: u32)
    ensures
        immediate_post(*old(cpu), *final(cpu), opcode, op, size, r),
{
    let (mode, reg) = (field_mode(opcode), field_reg(opcode));
    if !crate::ea::valid_ea(mode, reg) {
        return crate::exception::illegal_instruction(cpu, bus, opcode);
    }
    let pre = if size == Size::Long {
        2
    } else {
        1
    };
    let mut plan = Plan::new(size, mode, reg).pre(pre);
    if mode_is_mem(mode, reg) {
        if op != ArithOp::Cmp {
            plan = plan.writes();
        }
    } else if size == Size::Long {
        plan = plan.idle(if op == ArithOp::Cmp { 2 } else { 4 });
    }
    assert(plan == immediate_plan(opcode, op, size));
    alu::run(cpu, bus, &plan, AluCompute::Arith(Compute::Immediate { op }))
}

/// The `ADDQ`/`SUBQ` immediate: the 3-bit field, with 0 meaning 8.
pub fn quick_value(opcode: u16) -> (r: u32)
    ensures
        r == (if op_reg9(opcode) == 0 { 8 } else { op_reg9(opcode) as u32 }),
        1 <= r <= 8,
{
    let q = field_reg9(opcode);
    if q == 0 {
        8
    } else {
        q as u32
    }
}

/// The schedule of `ADDQ`, `SUBQ`.
pub open spec fn quick_plan(opcode: u16, size: Size) -> Plan {
    let (mode, reg) = (op_mode(opcode), op_reg(opcode));
    let mem = spec_mode_is_mem(mode, reg);
    alu::plan_of(size, mode, reg, 0, mem, if !mem && (mode == 1 || size == Size::Long) { 4 } else { 0 })
}

/// What [`quick`] guarantees: the CPU after it (`new`) and the cycles it
/// returns (`r`), from the CPU before it (`old`).
pub open spec fn quick_post(old: M68k, new: M68k, opcode: u16, op: ArithOp, size: Size, r: u32) -> bool {
    &&& r <= 2000
    &&& alu::direct_plan(quick_plan(opcode, size)) ==> alu::direct_result(
        old,
        new,
        quick_plan(opcode, size),
        AluCompute::Arith(
            Compute::Quick {
                op,
                target: if op_mode(opcode) == 1 { Some(op_reg(opcode) as usize) } else { None },
                imm: if op_reg9(opcode) == 0 { 8 } else { op_reg9(opcode) as u32 },
            },
        ),
        r,
    )
    &&& alu::indirect_plan(quick_plan(opcode, size)) ==> alu::indirect_run(
        old,
        new,
        quick_plan(opcode, size),
        AluCompute::Arith(
            Compute::Quick { op, target: None, imm: if op_reg9(opcode) == 0 { 8 } else { op_reg9(opcode) as u32 } },
        ),
        r,
    )
}

/// `ADDQ`, `SUBQ`.
pub fn quick<B: Bus>(cpu: &mut M68k, bus: &mut B, opcode: u16, op: ArithOp, size: Size) -> (r: u32)
    ensures
        quick_post(*old(cpu), *final(cpu), opcode, op, size, r),
{
    let (mode, reg) = (field_mode(opcode), field_reg(opcode));
    if !crate::ea::valid_ea(mode, reg) {
        return crate::exception::illegal_instruction(cpu, bus, opcode);
    }
    let imm = quick_value(opcode);
    let an = mode == 1;
    let mut plan = Plan::new(size, mode, reg);
    if mode_is_mem(mode, reg) {
        plan = plan.writes();
    } else if an || size == Size::Long {
        plan = plan.idle(4);
    }
    let target = if an {
        Some(reg as usize)
    } else {
        None
    };
    assert(plan == quick_plan(opcode, size));
    alu::run(cpu, bus, &plan, AluCompute::Arith(Compute::Quick { op, target, imm }))
}

/// The schedule of `NEG`, `NEGX`, `CLR`, `NOT`, `TST`.
pub open spec fn single_plan(opcode: u16, which: Single, size: Size) -> Plan {
    let (mode, reg) = (op_mode(opcode), op_reg(opcode));
    let mem = spec_mode_is_mem(mode, reg);
    let writes = which != Single::Tst;
    alu::plan_of(size, mode, reg, 0, mem && writes, if !mem && writes && size == Size::Long { 2 } else { 0 })
}

/// What [`single`] guarantees: the CPU after it (`new`) and the cycles it
/// returns (`r`), from the CPU before it (`old`).
pub open spec fn single_post(old: M68k, new: M68k, opcode: u16, which: Single, size: Size, r: u32) -> bool {
    &&& r <= 2000
    &&& alu::direct_plan(single_plan(opcode, which, size)) ==> alu::direct_result(
        old,
        new,
        single_plan(opcode, which, size),
        AluCompute::Arith(Compute::Single(which)),
        r,
    )
    &&& alu::indirect_plan(single_plan(opcode, which, size)) ==> alu::indirect_run(
        old,
        new,
        single_plan(opcode, which, size),
        AluCompute::Arith(Compute::Single(which)),
        r,
    )
}

/// `NEG`, `NEGX`, `CLR`, `NOT`, `TST`.
pub fn single<B: Bus>(cpu: &mut M68k, bus: &mut B, opcode: u16, which: Single, size: Size) -> (r: u32)
    ensures
        single_post(*old(cpu), *final(cpu), opcode, which, size, r),
{
    let (mode, reg) = (field_mode(opcode), field_reg(opcode));
    if !crate::ea::valid_ea(mode, reg) {
        return crate::exception::illegal_instruction(cpu, bus, opcode);
    }
    let writes = which != Single::Tst;
    let mut plan = Plan::new(size, mode, reg);
    if mode_is_mem(mode, reg) {
        if writes {
            plan = plan.writes();
        }
    } else if writes && size == Size::Long {
        plan = plan.idle(2);
    }
    assert(plan == single_plan(opcode, which, size));
    alu::run(cpu, bus, &plan, AluCompute::Arith(Compute::Single(which)))
}

/// A source operand of this size: any mode but a byte-sized `An` and mode 7
/// past the immediate.
pub fn valid_src(mode: u16, reg: u16, size: Size) -> (r: bool)
    ensures
        r == (if mode == 1 { size != Size::Byte } else if mode == 7 { reg <= 4 } else { true }),
{
    match mode {
        1 => size != Size::Byte,
        7 => reg <= 4,
        _ => true,
    }
}

/// Alterable memory.
pub fn valid_mem_dst(mode: u16, reg: u16) -> (r: bool)
    ensures
        r == (if mode == 0 || mode == 1 { false } else if mode == 7 { reg <= 1 } else { true }),
{
    match mode {
        0 | 1 => false,
        7 => reg <= 1,
        _ => true,
    }
}

/// Data-alterable: a data register or alterable memory.
pub fn valid_data_alterable(mode: u16, reg: u16) -> (r: bool)
    ensures
        r == (mode == 0 || (mode != 1 && (mode != 7 || reg <= 1))),
{
    mode == 0 || valid_mem_dst(mode, reg)
}

/// The size encoded in a two-bit field: 0 byte, 1 word, 2 long.
pub fn size_of_bits(sb: u16) -> (r: Size)
    ensures
        sb == 0 ==> r == Size::Byte,
        sb == 1 ==> r == Size::Word,
        sb != 0 && sb != 1 ==> r == Size::Long,
{
    if sb == 0 {
        Size::Byte
    } else if sb == 1 {
        Size::Word
    } else {
        Size::Long
    }
}

/// The handler of an `ADD`/`SUB`/`CMP` line's opcode: by opmode, the
/// `<ea>,Dn` forms (0-2), the address forms (3, 7), and `CMPM` or
/// `ADDX`/`SUBX` or `Dn,<ea>` (4-6).
pub open spec fn claim_line_spec(op: u16, aop: ArithOp, compares_memory: bool) -> Option<Handler> {
    let opmode = (op >> 6u16) & 7;
    let (mode, reg) = (op_mode(op), op_reg(op));
    if opmode <= 2 {
        if crate::ops::src_ok(mode, reg, size_from_bits(opmode)) { Some(Handler::ArithEaDn(aop, size_from_bits(opmode))) } else { None }
    } else if opmode == 3 || opmode == 7 {
        if crate::ops::src_ok(mode, reg, Size::Word) {
            Some(Handler::ArithA(aop, if opmode == 7 { Size::Long } else { Size::Word }))
        } else {
            None
        }
    } else {
        let size = size_from_bits((opmode - 4) as u16);
        if compares_memory {
            if mode == 1 { Some(Handler::Cmpm(size)) } else { None }
        } else if mode == 0 || mode == 1 {
            Some(Handler::AddxSubx(aop, size))
        } else if crate::ops::mem_alterable_ok(mode, reg) {
            Some(Handler::ArithDnEa(aop, size))
        } else {
            None
        }
    }
}

/// The handler this module assigns: the `ADD`, `SUB` and `CMP` lines (less
/// `EOR`'s space), `SUBI`/`ADDI`/`CMPI`, `ADDQ`/`SUBQ`, and `NEGX`, `CLR`,
/// `NEG`, `TST`.
pub open spec fn claim_spec(op: u16) -> Option<Handler> {
    let line = op >> 12u16;
    let (mode, reg) = (op_mode(op), op_reg(op));
    let sb = (op >> 6u16) & 3;
    let opmode = (op >> 6u16) & 7;
    if line == 0xD {
        claim_line_spec(op, ArithOp::Add, false)
    } else if line == 0x9 {
        claim_line_spec(op, ArithOp::Sub, false)
    } else if line == 0xB {
        if opmode >= 4 && opmode <= 6 && mode != 1 { None } else { claim_line_spec(op, ArithOp::Cmp, true) }
    } else if line == 0 && op & 0x0100 == 0 && sb != 3 {
        let family = op_reg9(op);
        if crate::ops::data_alterable_ok(mode, reg) && family == 2 {
            Some(Handler::ArithImm(ArithOp::Sub, size_from_bits(sb)))
        } else if crate::ops::data_alterable_ok(mode, reg) && family == 3 {
            Some(Handler::ArithImm(ArithOp::Add, size_from_bits(sb)))
        } else if crate::ops::data_alterable_ok(mode, reg) && family == 6 {
            Some(Handler::ArithImm(ArithOp::Cmp, size_from_bits(sb)))
        } else {
            None
        }
    } else if line == 5 && sb != 3 {
        let ok = if mode == 1 { size_from_bits(sb) != Size::Byte } else { crate::ops::data_alterable_ok(mode, reg) };
        if ok { Some(Handler::Quick(if op & 0x0100 == 0 { ArithOp::Add } else { ArithOp::Sub }, size_from_bits(sb))) } else { None }
    } else if line == 4 && sb != 3 && crate::ops::data_alterable_ok(mode, reg) {
        let sel = (op >> 8u16) & 0xF;
        if sel == 0 {
            Some(Handler::Single(Single::Negx, size_from_bits(sb)))
        } else if sel == 2 {
            Some(Handler::Single(Single::Clr, size_from_bits(sb)))
        } else if sel == 4 {
            Some(Handler::Single(Single::Neg, size_from_bits(sb)))
        } else if sel == 0xA {
            Some(Handler::Single(Single::Tst, size_from_bits(sb)))
        } else {
            None
        }
    } else {
        None
    }
}

/// The handler this family assigns to an opcode of its `ADD`/`SUB`/`CMP` lines.
fn claim_line(op: u16, line: u16, aop: ArithOp, compares_memory: bool) -> (r: Option<Handler>)
    ensures
        r == claim_line_spec(op, aop, compares_memory),
{
    let opmode = (op >> 6) & 7;
    let mode = field_mode(op);
    let reg = field_reg(op);
    if opmode <= 2 {
        let size = size_of_bits(opmode);
        if !valid_src(mode, reg, size) {
            return None;
        }
        if aop == ArithOp::Cmp {
            Some(Handler::ArithEaDn(aop, size))
        } else {
            Some(Handler::ArithEaDn(aop, size))
        }
    } else if opmode == 3 || opmode == 7 {
        if !valid_src(mode, reg, Size::Word) {
            return None;
        }
        Some(Handler::ArithA(aop, if opmode == 7 { Size::Long } else { Size::Word }))
    } else {
        let size = size_of_bits(opmode - 4);
        if compares_memory {
            if mode != 1 {
                return None;
            }
            Some(Handler::Cmpm(size))
        } else if mode == 0 || mode == 1 {
            Some(Handler::AddxSubx(aop, size))
        } else {
            if !valid_mem_dst(mode, reg) {
                return None;
            }
            Some(Handler::ArithDnEa(aop, size))
        }
    }
}

/// The handler this module assigns to `op`, if any.
pub fn claim(op: u16) -> (r: Option<Handler>)
    ensures
        r == claim_spec(op),
{
    let line = op >> 12;
    if line == 0xD {
        return claim_line(op, line, ArithOp::Add, false);
    }
    if line == 0x9 {
        return claim_line(op, line, ArithOp::Sub, false);
    }
    if line == 0xB {
        let opmode = (op >> 6) & 7;
        if opmode >= 4 && opmode <= 6 && field_mode(op) != 1 {
            // EOR's space, owned by `logic`.
            return None;
        }
        return claim_line(op, line, ArithOp::Cmp, true);
    }
    let mode = field_mode(op);
    let reg = field_reg(op);
    let sb = (op >> 6) & 3;
    if line == 0 && (op & 0x0100) == 0 && sb != 3 {
        let family = (op >> 9) & 7;
        if valid_data_alterable(mode, reg) {
            if family == 2 {
                return Some(Handler::ArithImm(ArithOp::Sub, size_of_bits(sb)));
            } else if family == 3 {
                return Some(Handler::ArithImm(ArithOp::Add, size_of_bits(sb)));
            } else if family == 6 {
                return Some(Handler::ArithImm(ArithOp::Cmp, size_of_bits(sb)));
            }
        }
        return None;
    }
    if line == 5 && sb != 3 {
        let size = size_of_bits(sb);
        let ok = if mode == 1 {
            size != Size::Byte
        } else {
            valid_data_alterable(mode, reg)
        };
        if !ok {
            return None;
        }
        let aop = if (op & 0x0100) == 0 {
            ArithOp::Add
        } else {
            ArithOp::Sub
        };
        return Some(Handler::Quick(aop, size));
    }
    if line == 4 && sb != 3 && valid_data_alterable(mode, reg) {
        let sel = (op >> 8) & 0xF;
        let size = size_of_bits(sb);
        if sel == 0 {
            return Some(Handler::Single(Single::Negx, size));
        } else if sel == 2 {
            return Some(Handler::Single(Single::Clr, size));
        } else if sel == 4 {
            return Some(Handler::Single(Single::Neg, size));
        } else if sel == 0xA {
            return Some(Handler::Single(Single::Tst, size));
        }
    }
    None
}

/// Installs this family's handlers into the dispatch table: the opcodes
/// `claim_spec` gives a handler get it, the others keep theirs.
pub fn register(table: &mut Vec<Handler>)
    requires
        old(table).len() == 65536,
    ensures
        final(table).len() == 65536,
        forall|i: int|
            0 <= i < 65536 ==> #[trigger] final(table)@[i] == (match claim_spec(i as u16) {
                Some(h) => h,
                None => old(table)@[i],
            }),
{
    crate::ops::install(table, 1);
}

} // verus!
