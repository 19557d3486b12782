//! `BTST`, `BCHG`, `BCLR`, `BSET` (static and dynamic forms) and `TAS`.
//!
//! The bit number is taken modulo 32 for a data register and modulo 8 for a
//! memory byte. Only `Z` changes, and it reports the bit's state *before* the
//! operation.

use crate::bus::Bus;
use crate::cpu::{ccr_bits, with_ccr, M68k};
use crate::decode::Handler;
use crate::ea::{mode_is_mem, Size};
use crate::ops::alu::{self, Compute as AluCompute, Ops, Plan, Tail};
use crate::ops::arith::valid_data_alterable;
use crate::ops::{field_mode, field_reg, field_reg9, op_mode, op_reg, op_reg9};
use vstd::prelude::*;

verus! {

#[derive(Clone, Copy, PartialEq, Eq, Debug, Structural)]
pub enum BitKind {
    Btst,
    Bchg,
    Bclr,
    Bset,
}

impl BitKind {
    pub fn from_bits(b: u16) -> (k: BitKind)
        ensures
            k == (if b == 0 { BitKind::Btst } else if b == 1 { BitKind::Bchg } else if b == 2 { BitKind::Bclr } else { BitKind::Bset }),
    {
        if b == 0 {
            BitKind::Btst
        } else if b == 1 {
            BitKind::Bchg
        } else if b == 2 {
            BitKind::Bclr
        } else {
            BitKind::Bset
        }
    }

    /// Everything but `BTST` writes its operand back.
    pub fn writes(self) -> (r: bool)
        ensures
            r == (self != BitKind::Btst),
    {
        self != BitKind::Btst
    }

    pub fn base_idle(self) -> (r: u32)
        ensures
            r == (if self == BitKind::Bclr { 4u32 } else { 2u32 }),
    {
        if self == BitKind::Bclr {
            4
        } else {
            2
        }
    }

    pub open spec fn apply_spec(self, val: u32, mask: u32) -> u32 {
        match self {
            BitKind::Btst => val,
            BitKind::Bchg => val ^ mask,
            BitKind::Bclr => val & !mask,
            BitKind::Bset => val | mask,
        }
    }

    pub fn apply(self, val: u32, mask: u32) -> (r: u32)
        ensures
            r == self.apply_spec(val, mask),
    {
        match self {
            BitKind::Btst => val,
            BitKind::Bchg => val ^ mask,
            BitKind::Bclr => val & !mask,
            BitKind::Bset => val | mask,
        }
    }
}

/// What a bit instruction computes once its operand is read.
#[derive(Clone, Copy)]
pub enum Compute {
    /// `number` is the dynamic bit number (`Dn`); a static form takes the
    /// immediate instead. `long` is the data-register form.
    Bit { kind: BitKind, static_form: bool, long: bool, number: u32 },
    Tas,
}

/// The bit mask a bit instruction uses.
pub open spec fn bit_mask(number: u32, long: bool) -> u32 {
    1u32 << (number % (if long { 32u32 } else { 8u32 }))
}

/// The CPU and the finish of a bit computation: `Z` is set iff the bit was
/// clear, and the writing kinds return the updated operand. `TAS` sets N and
/// Z from the byte, clears V and C, and returns the byte with its top bit set.
pub open spec fn apply_spec(cpu: M68k, c: Compute, ops: Ops) -> (M68k, Tail) {
    match c {
        Compute::Bit { kind, static_form, long, number } => {
            let mask = bit_mask(if static_form { ops.imm } else { number }, long);
            (
                with_ccr(cpu, cpu.spec_ccr_x(), cpu.spec_ccr_n(), ops.ea & mask == 0, cpu.spec_ccr_v(), cpu.spec_ccr_c()),
                if kind == BitKind::Btst { Tail::Done } else { Tail::Write(kind.apply_spec(ops.ea, mask)) },
            )
        },
        Compute::Tas => {
            let v = ops.ea & 0xFF;
            (with_ccr(cpu, cpu.spec_ccr_x(), v & 0x80 != 0, v == 0, false, false), Tail::Write(v | 0x80))
        },
    }
}

/// Runs a bit computation.
pub fn apply(cpu: &mut M68k, c: Compute, ops: Ops) -> (t: Tail)
    ensures
        (*final(cpu), t) == apply_spec(*old(cpu), c, ops),
{
    match c {
        Compute::Bit { kind, static_form, long, number } => {
            let n = if static_form {
                ops.imm
            } else {
                number
            };
            let bit = n % if long {
                32
            } else {
                8
            };
            let mask = 1u32 << bit;
            let x = cpu.ccr_x();
            let nf = cpu.ccr_n();
            let v = cpu.ccr_v();
            let cf = cpu.ccr_c();
            cpu.set_ccr(x, nf, ops.ea & mask == 0, v, cf);
            if kind.writes() {
                Tail::Write(kind.apply(ops.ea, mask))
            } else {
                Tail::Done
            }
        },
        Compute::Tas => {
            let v = ops.ea & 0xFF;
            let x = cpu.ccr_x();
            cpu.set_ccr(x, v & 0x80 != 0, v == 0, false, false);
            Tail::Write(v | 0x80)
        },
    }
}

/// The schedule of a bit instruction on a data register: long-sized, with
/// idle cycles that grow when a writing kind touches the upper word.
pub open spec fn bit_reg_plan(cpu: M68k, opcode: u16, kind: BitKind, static_form: bool) -> Plan {
    let bit = (if static_form { cpu.prefetch[1] as u32 } else { cpu.d[op_reg9(opcode) as int] }) % 32;
    let writes = kind != BitKind::Btst;
    let base: u32 = if kind == BitKind::Bclr { 4 } else { 2 };
    alu::plan_of(Size::Long, 0, op_reg(opcode), if static_form { 1 } else { 0 }, writes, (base + if writes && bit >= 16 { 2u32 } else { 0u32 }) as u32)
}

/// What [`bit_op`] guarantees: the CPU after it (`new`) and the cycles it
/// returns (`r`), from the CPU before it (`old`).
pub open spec fn bit_op_post(old: M68k, new: M68k, opcode: u16, kind: BitKind, static_form: bool, r: u32) -> bool {
    &&& r <= 2000
    &&& op_mode(opcode) == 0 ==> alu::direct_result(
        old,
        new,
        bit_reg_plan(old, opcode, kind, static_form),
        AluCompute::Bit(Compute::Bit { kind, static_form, long: true, number: old.d[op_reg9(opcode) as int] }),
        r,
    )
    &&& alu::indirect_plan(alu::plan_of(Size::Byte, op_mode(opcode), op_reg(opcode), if static_form { 1 } else { 0 }, kind != BitKind::Btst, 0)) ==> alu::indirect_run(
        old,
        new,
        alu::plan_of(Size::Byte, op_mode(opcode), op_reg(opcode), if static_form { 1 } else { 0 }, kind != BitKind::Btst, 0),
        AluCompute::Bit(Compute::Bit { kind, static_form, long: false, number: old.d[op_reg9(opcode) as int] }),
        r,
    )
}

/// The bit instructions, static (`#n,<ea>`) or dynamic (`Dn,<ea>`).
pub fn bit_op<B: Bus>(cpu: &mut M68k, bus: &mut B, opcode: u16, kind: BitKind, static_form: bool) -> (r: u32)
    ensures
        bit_op_post(*old(cpu), *final(cpu), opcode, kind, static_form, r),
{
    let (mode, reg) = (field_mode(opcode), field_reg(opcode));
    if !crate::ea::valid_ea(mode, reg) {
        return crate::exception::illegal_instruction(cpu, bus, opcode);
    }
    let long = mode == 0;
    let size = if long {
        Size::Long
    } else {
        Size::Byte
    };
    let dyn_bit = cpu.d[field_reg9(opcode) as usize];
    let mut plan = Plan::new(size, mode, reg);
    if static_form {
        plan = plan.pre(1);
    }
    if kind.writes() {
        plan = plan.writes();
    }
    if long {
        let bit = (if static_form {
            cpu.prefetch[1] as u32
        } else {
            dyn_bit
        }) % 32;
        let hi: u32 = if kind.writes() && bit >= 16 {
            2
        } else {
            0
        };
        plan = plan.idle(kind.base_idle() + hi);
    } else if mode == 7 && reg == 4 {
        plan = plan.idle(2);
    }
    assert(long ==> plan == bit_reg_plan(*cpu, opcode, kind, static_form));
    alu::run(cpu, bus, &plan, AluCompute::Bit(Compute::Bit { kind, static_form, long, number: dyn_bit }))
}

/// What [`tas`] guarantees: the CPU after it (`new`) and the cycles it
/// returns (`r`), from the CPU before it (`old`).
pub open spec fn tas_post(old: M68k, new: M68k, opcode: u16, r: u32) -> bool {
    &&& r <= 2000
    &&& op_mode(opcode) == 0 ==> alu::direct_result(
        old,
        new,
        alu::plan_of(Size::Byte, 0, op_reg(opcode), 0, true, 0),
        AluCompute::Bit(Compute::Tas),
        r,
    )
    &&& alu::indirect_plan(alu::plan_of(Size::Byte, op_mode(opcode), op_reg(opcode), 0, true, 2)) ==> alu::indirect_run(
        old,
        new,
        (Plan { fetch_last: true, ..alu::plan_of(Size::Byte, op_mode(opcode), op_reg(opcode), 0, true, 2) }),
        AluCompute::Bit(Compute::Tas),
        r,
    )
}

/// `TAS <ea>`: test a byte and set its top bit.
pub fn tas<B: Bus>(cpu: &mut M68k, bus: &mut B, opcode: u16) -> (r: u32)
    ensures
        tas_post(*old(cpu), *final(cpu), opcode, r),
{
    let (mode, reg) = (field_mode(opcode), field_reg(opcode));
    if !crate::ea::valid_ea(mode, reg) {
        return crate::exception::illegal_instruction(cpu, bus, opcode);
    }
    let idle = if mode_is_mem(mode, reg) {
        2
    } else {
        0
    };
    let plan = if mode_is_mem(mode, reg) {
        Plan::new(Size::Byte, mode, reg).writes().idle(idle).fetch_last()
    } else {
        Plan::new(Size::Byte, mode, reg).writes().idle(idle)
    };
    alu::run(cpu, bus, &plan, AluCompute::Bit(Compute::Tas))
}

/// `BTST`'s operand set: data-alterable plus the PC-relative modes, and the
/// immediate for the dynamic form only.
pub fn valid_btst_src(mode: u16, reg: u16, immediate_ok: bool) -> (r: bool)
    ensures
        r == crate::ea::modes::spec_btst_src(mode, reg, immediate_ok),
{
    crate::ea::modes::btst_src(mode, reg, immediate_ok)
}

/// The handler this module assigns: the static bit instructions (`0x08xx`),
/// the dynamic ones (line 0, bit 8 set), and `TAS`; `BTST` reads more modes
/// than the writing kinds.
pub open spec fn claim_spec(op: u16) -> Option<Handler> {
    let (mode, reg) = (op_mode(op), op_reg(op));
    let b = (op >> 6u16) & 3;
    let kind = if b == 0 { BitKind::Btst } else if b == 1 { BitKind::Bchg } else if b == 2 { BitKind::Bclr } else { BitKind::Bset };
    if op >> 8u16 == 0x08 {
        let ok = if kind == BitKind::Btst { crate::ea::modes::spec_btst_src(mode, reg, false) } else { crate::ops::data_alterable_ok(mode, reg) };
        if ok { Some(Handler::Bit(kind, true)) } else { None }
    } else if op >> 12u16 == 0 && op & 0x0100 != 0 {
        let ok = if kind == BitKind::Btst { crate::ea::modes::spec_btst_src(mode, reg, true) } else { crate::ops::data_alterable_ok(mode, reg) };
        if ok { Some(Handler::Bit(kind, false)) } else { None }
    } else if op & 0xFFC0 == 0x4AC0 && crate::ops::data_alterable_ok(mode, reg) {
        Some(Handler::Tas)
    } else {
        None
    }
}

/// The handler this module assigns to `op`, if any.
pub fn claim(op: u16) -> (r: Option<Handler>)
    ensures
        r == claim_spec(op),
{
    let mode = field_mode(op);
    let reg = field_reg(op);
    let opbits = (op >> 6) & 3;
    let kind = BitKind::from_bits(opbits);
    if op >> 8 == 0x08 {
        let ok = if kind == BitKind::Btst {
            valid_btst_src(mode, reg, false)
        } else {
            valid_data_alterable(mode, reg)
        };
        if ok {
            return Some(Handler::Bit(kind, true));
        }
        return None;
    }
    if op >> 12 == 0 && (op & 0x0100) != 0 {
        let ok = if kind == BitKind::Btst {
            valid_btst_src(mode, reg, true)
        } else {
            valid_data_alterable(mode, reg)
        };
        if ok {
            return Some(Handler::Bit(kind, false));
        }
        return None;
    }
    if (op & 0xFFC0) == 0x4AC0 && valid_data_alterable(mode, reg) {
        return Some(Handler::Tas);
    }
    None
}

/// Installs this family's handlers into the dispatch table: the opcodes
/// `claim_spec` gives a handler get it, the others keep theirs.
pub fn register(table: &mut Vec<Handler>)
    requires
        old(table).len() == 65536,
    ensures
        final(table).len() == 65536,
        forall|i: int|
            0 <= i < 65536 ==> #[trigger] final(table)@[i] == (match claim_spec(i as u16) {
                Some(h) => h,
                None => old(table)@[i],
            }),
{
    crate::ops::install(table, 4);
}

} // verus!
