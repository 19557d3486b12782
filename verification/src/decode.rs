//! Opcode dispatch.
//!
//! The 68000's opcode is a single 16-bit word, so dispatch is a flat table of
//! 65536 entries built once up front. Illegal entries name the
//! illegal-instruction handler, so "is this opcode legal" needs no logic.

use crate::bus::{Access, Bus};
use crate::cpu::M68k;
use crate::ea::Size;
use crate::ops::arith::{ArithOp, Single};
use crate::ops::bits::BitKind;
use crate::ops::logic::LogicOp;
use crate::ops::{arith, bcd, bits, branch, installed_over, logic, move_, muldiv, shift, system, trap};
use vstd::prelude::*;

verus! {

/// The instruction handler an opcode dispatches to.
#[derive(Clone, Copy, PartialEq, Eq, Debug, Structural)]
pub enum Handler {
    /// Any opcode no family claims: the illegal-instruction exception.
    Illegal,
    Move(Size),
    MoveA(Size),
    MoveQ,
    ArithEaDn(ArithOp, Size),
    ArithDnEa(ArithOp, Size),
    ArithA(ArithOp, Size),
    AddxSubx(ArithOp, Size),
    Cmpm(Size),
    ArithImm(ArithOp, Size),
    Quick(ArithOp, Size),
    Single(Single, Size),
    LogicToReg(LogicOp, Size),
    LogicToEa(LogicOp, Size),
    LogicImm(LogicOp, Size),
    /// `xxxI #imm,CCR` (`false`) or `,SR` (`true`).
    LogicCcrSr(LogicOp, bool),
    Nop,
    ShiftReg(Size),
    ShiftMem,
    /// A bit instruction, static (`true`) or dynamic.
    Bit(BitKind, bool),
    Tas,
    Abcd,
    Sbcd,
    Nbcd,
    /// Multiply, signed if `true`.
    Mul(bool),
    /// Divide, signed if `true`.
    Div(bool),
    Chk,
    Bcc,
    Dbcc,
    Scc,
    Jmp,
    Jsr,
    Rts,
    Rtr,
    Swap,
    ExtW,
    ExtL,
    Exg,
    MoveToUsp,
    MoveFromUsp,
    Stop,
    Reset,
    Lea,
    Pea,
    Link,
    Unlk,
    Movem(Size),
    Movep(Size),
    MoveFromSr,
    MoveToCcr,
    MoveToSr,
    Trap,
    Trapv,
    Rte,
}

/// The handler an opcode dispatches to: the last instruction family, in
/// installation order, that claims it, or `Illegal`.
pub open spec fn decoded(op: u16) -> Handler {
    installed_over(Handler::Illegal, op, 10)
}

/// The dispatch table, owned by the caller. Built once and shared.
pub struct Decoder {
    table: Vec<Handler>,
}

impl Default for Decoder {
    /// The same table as [`Decoder::new`].
    fn default() -> (d: Self)
        ensures
            d.wf(),
            forall|op: u16| #[trigger] d.handler_at(op) == decoded(op),
    {
        Decoder::new()
    }
}

impl Decoder {
    /// The table has an entry for every opcode, and each entry is the
    /// handler that opcode decodes to.
    pub closed spec fn wf(&self) -> bool {
        &&& self.table.len() == 65536
        &&& forall|op: u16| #[trigger] self.table@[op as int] == decoded(op)
    }

    /// The handler the table holds for `op`.
    pub closed spec fn handler_at(&self, op: u16) -> Handler {
        self.table[op as int]
    }

    /// Builds the table: each opcode maps to the handler of the last family
    /// (in installation order) that claims it, and to `Illegal` if none does.
    pub fn new() -> (d: Self)
        ensures
            d.wf(),
            forall|op: u16| #[trigger] d.handler_at(op) == decoded(op),
    {
        let mut table: Vec<Handler> = Vec::new();
        let mut i: usize = 0;
        while i < 65536
            invariant
                table.len() == i,
                i <= 65536,
                forall|j: int| 0 <= j < i ==> #[trigger] table@[j] == Handler::Illegal,
            decreases 65536 - i,
        {
            table.push(Handler::Illegal);
            i = i + 1;
        }
        crate::ops::register_all(&mut table);
        let d = Decoder { table };
        assert forall|op: u16| #[trigger] d.handler_at(op) == decoded(op) by {
            assert(d.table@[op as int] == installed_over(Handler::Illegal, op, 10));
        }
        d
    }

    /// The handler for `op`.
    pub fn dispatch(&self, op: u16) -> (h: Handler)
        requires
            self.wf(),
        ensures
            h == self.handler_at(op),
            h == decoded(op),
    {
        self.table[op as usize]
    }
}

/// What running the handler `h` for opcode `op` guarantees: the contract of
/// the instruction handler that `h` names, from the CPU before (`old`) to the
/// CPU after (`new`) and the cycles `r`.
pub open spec fn executes(h: Handler, old: M68k, new: M68k, op: u16, r: u32) -> bool {
    match h {
        Handler::Illegal => crate::exception::illegal_instruction_post(old, new, op, r),
        Handler::Move(size) => move_::move_common_post(old, new, op, size, false, r),
        Handler::MoveA(size) => move_::move_common_post(old, new, op, size, true, r),
        Handler::MoveQ => move_::moveq_post(old, new, op, r),
        Handler::ArithEaDn(aop, size) => arith::alu_ea_dn_post(old, new, op, aop, size, true, r),
        Handler::ArithDnEa(aop, size) => arith::alu_ea_dn_post(old, new, op, aop, size, false, r),
        Handler::ArithA(aop, size) => arith::alu_a_post(old, new, op, aop, size, r),
        Handler::AddxSubx(aop, size) => arith::addx_subx_post(old, new, op, aop, size, r),
        Handler::Cmpm(size) => arith::compare_memory_post(old, new, op, size, r),
        Handler::ArithImm(aop, size) => arith::immediate_post(old, new, op, aop, size, r),
        Handler::Quick(aop, size) => arith::quick_post(old, new, op, aop, size, r),
        Handler::Single(which, size) => arith::single_post(old, new, op, which, size, r),
        Handler::LogicToReg(lop, size) => logic::to_reg_post(old, new, op, lop, size, r),
        Handler::LogicToEa(lop, size) => logic::to_ea_post(old, new, op, lop, size, r),
        Handler::LogicImm(lop, size) => logic::immediate_post(old, new, op, lop, size, r),
        Handler::LogicCcrSr(lop, to_sr) => logic::to_ccr_sr_post(old, new, lop, to_sr, r),
        Handler::Nop => logic::nop_post(old, new, op, r),
        Handler::ShiftReg(size) => shift::register_form_post(old, new, op, size, r),
        Handler::ShiftMem => shift::memory_form_post(old, new, op, r),
        Handler::Bit(kind, static_form) => bits::bit_op_post(old, new, op, kind, static_form, r),
        Handler::Tas => bits::tas_post(old, new, op, r),
        Handler::Abcd => bcd::bcd_two_operand_post(old, new, op, true, r),
        Handler::Sbcd => bcd::bcd_two_operand_post(old, new, op, false, r),
        Handler::Nbcd => bcd::nbcd_post(old, new, op, r),
        Handler::Mul(signed) => muldiv::mul_post(old, new, op, signed, r),
        Handler::Div(signed) => muldiv::div_post(old, new, op, signed, r),
        Handler::Chk => muldiv::chk_post(old, new, op, r),
        Handler::Bcc => branch::bcc_post(old, new, op, r),
        Handler::Dbcc => branch::dbcc_post(old, new, op, r),
        Handler::Scc => branch::scc_post(old, new, op, r),
        Handler::Jmp => branch::jmp_post(old, new, op, r),
        Handler::Jsr => branch::jsr_post(old, new, op, r),
        Handler::Rts => branch::rts_post(old, new, op, r),
        Handler::Rtr => branch::rtr_post(old, new, op, r),
        Handler::Swap => system::swap_post(old, new, op, r),
        Handler::ExtW => system::ext_w_post(old, new, op, r),
        Handler::ExtL => system::ext_l_post(old, new, op, r),
        Handler::Exg => system::exg_post(old, new, op, r),
        Handler::MoveToUsp => system::move_to_usp_post(old, new, op, r),
        Handler::MoveFromUsp => system::move_from_usp_post(old, new, op, r),
        Handler::Stop => system::stop_post(old, new, op, r),
        Handler::Reset => system::reset_post(old, new, op, r),
        Handler::Lea => system::lea_post(old, new, op, r),
        Handler::Pea => system::pea_post(old, new, op, r),
        Handler::Link => system::link_post(old, new, op, r),
        Handler::Unlk => system::unlk_post(old, new, op, r),
        Handler::Movem(size) => system::movem_post(old, new, op, size, r),
        Handler::Movep(size) => system::movep_post(old, new, op, size, r),
        Handler::MoveFromSr => system::move_from_sr_post(old, new, op, r),
        Handler::MoveToCcr => system::move_to_sr_ccr_post(old, new, op, false, r),
        Handler::MoveToSr => system::move_to_sr_ccr_post(old, new, op, true, r),
        Handler::Trap => trap::trap_post(old, new, op, r),
        Handler::Trapv => trap::trapv_post(old, new, op, r),
        Handler::Rte => trap::rte_post(old, new, op, r),
    }
}

/// What a handler's bus accesses are stated to be, from the bus record
/// `log0` to `log1`: an unclaimed opcode takes its exception (vector 4, or
/// 10 for line A and 11 for line F) and `TRAP #n` takes vector 32 + n,
/// stacking the address past the opcode; a double bus fault makes no access.
pub open spec fn bus_effect(h: Handler, old: M68k, new: M68k, op: u16, log0: Seq<Access>, log1: Seq<Access>) -> bool {
    match h {
        Handler::Illegal => crate::exception::entry_in_place(old, log0, log1, crate::exception::illegal_vector(op), new),
        Handler::Trap => {
            &&& crate::exception::double_fault_spec(old) ==> log1 == log0
            &&& !crate::exception::double_fault_spec(old) ==> crate::exception::short_frame_accesses(
                log0,
                log1,
                crate::exception::frame_base_spec(old),
                old.sr,
                old.pc.wrapping_sub(crate::exception::OPCODE_PC_OFFSET).wrapping_add(2),
                (crate::exception::VEC_TRAP_BASE + (op & 0xF) as u8) as u8,
                new,
            )
        },
        _ => true,
    }
}

/// Runs the handler `h` for opcode `op`, returning the cycles it consumed.
pub fn execute<B: Bus>(cpu: &mut M68k, bus: &mut B, h: Handler, op: u16) -> (r: u32)
    ensures
        executes(h, *old(cpu), *final(cpu), op, r),
        bus_effect(h, *old(cpu), *final(cpu), op, old(bus).log(), final(bus).log()),
{
    match h {
        Handler::Illegal => crate::exception::illegal_instruction(cpu, bus, op),
        Handler::Move(size) => move_::move_common(cpu, bus, op, size, false),
        Handler::MoveA(size) => move_::move_common(cpu, bus, op, size, true),
        Handler::MoveQ => move_::moveq(cpu, bus, op),
        Handler::ArithEaDn(aop, size) => arith::alu_ea_dn(cpu, bus, op, aop, size, true),
        Handler::ArithDnEa(aop, size) => arith::alu_ea_dn(cpu, bus, op, aop, size, false),
        Handler::ArithA(aop, size) => arith::alu_a(cpu, bus, op, aop, size),
        Handler::AddxSubx(aop, size) => arith::addx_subx(cpu, bus, op, aop, size),
        Handler::Cmpm(size) => arith::cmpm(cpu, bus, op, size),
        Handler::ArithImm(aop, size) => arith::immediate(cpu, bus, op, aop, size),
        Handler::Quick(aop, size) => arith::quick(cpu, bus, op, aop, size),
        Handler::Single(which, size) => arith::single(cpu, bus, op, which, size),
        Handler::LogicToReg(lop, size) => logic::to_reg(cpu, bus, op, lop, size),
        Handler::LogicToEa(lop, size) => logic::to_ea(cpu, bus, op, lop, size),
        Handler::LogicImm(lop, size) => logic::immediate(cpu, bus, op, lop, size),
        Handler::LogicCcrSr(lop, to_sr) => logic::to_ccr_sr(cpu, bus, lop, to_sr),
        Handler::Nop => logic::nop(cpu, bus, op),
        Handler::ShiftReg(size) => shift::register_form(cpu, bus, op, size),
        Handler::ShiftMem => shift::memory_form(cpu, bus, op),
        Handler::Bit(kind, static_form) => bits::bit_op(cpu, bus, op, kind, static_form),
        Handler::Tas => bits::tas(cpu, bus, op),
        Handler::Abcd => bcd::bcd_two_operand(cpu, bus, op, true),
        Handler::Sbcd => bcd::bcd_two_operand(cpu, bus, op, false),
        Handler::Nbcd => bcd::nbcd(cpu, bus, op),
        Handler::Mul(signed) => muldiv::mul(cpu, bus, op, signed),
        Handler::Div(signed) => muldiv::div(cpu, bus, op, signed),
        Handler::Chk => muldiv::chk(cpu, bus, op),
        Handler::Bcc => branch::bcc(cpu, bus, op),
        Handler::Dbcc => branch::dbcc(cpu, bus, op),
        Handler::Scc => branch::scc(cpu, bus, op),
        Handler::Jmp => branch::jmp(cpu, bus, op),
        Handler::Jsr => branch::jsr(cpu, bus, op),
        Handler::Rts => branch::rts(cpu, bus, op),
        Handler::Rtr => branch::rtr(cpu, bus, op),
        Handler::Swap => system::swap(cpu, bus, op),
        Handler::ExtW => system::ext_w(cpu, bus, op),
        Handler::ExtL => system::ext_l(cpu, bus, op),
        Handler::Exg => system::exg(cpu, bus, op),
        Handler::MoveToUsp => system::move_to_usp(cpu, bus, op),
        Handler::MoveFromUsp => system::move_from_usp(cpu, bus, op),
        Handler::Stop => system::stop(cpu, bus, op),
        Handler::Reset => system::reset(cpu, bus, op),
        Handler::Lea => system::lea(cpu, bus, op),
        Handler::Pea => system::pea(cpu, bus, op),
        Handler::Link => system::link(cpu, bus, op),
        Handler::Unlk => system::unlk(cpu, bus, op),
        Handler::Movem(size) => system::movem(cpu, bus, op, size),
        Handler::Movep(size) => system::movep(cpu, bus, op, size),
        Handler::MoveFromSr => system::move_from_sr(cpu, bus, op),
        Handler::MoveToCcr => system::move_to_sr_ccr(cpu, bus, op, false),
        Handler::MoveToSr => system::move_to_sr_ccr(cpu, bus, op, true),
        Handler::Trap => trap::trap(cpu, bus, op),
        Handler::Trapv => trap::trapv(cpu, bus, op),
        Handler::Rte => trap::rte(cpu, bus, op),
    }
}

} // verus!
