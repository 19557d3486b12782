//! `TRAP #n`, `TRAPV` and `RTE`.

use crate::bus::{Access, Bus};
use crate::cpu::{M68k, ADDR_MASK, SR_MASK, SR_V};
use crate::decode::Handler;
use crate::exception::{
    self, FaultKind, Space, ADDRESS_ERROR_TAIL_CYCLES, SHORT_FRAME_ACCESSES, VEC_PRIVILEGE, VEC_TRAPV, VEC_TRAP_BASE,
};
use vstd::prelude::*;

verus! {

broadcast use crate::bus::lemma_masked_address;

/// A group-2 exception entry's cycles.
pub const GROUP2_CYCLES: u32 = 34;

/// What [`trap`] guarantees: the CPU after it (`new`) and the cycles it
/// returns (`r`), from the CPU before it (`old`).
pub open spec fn trap_post(old: M68k, new: M68k, opcode: u16, r: u32) -> bool {
    &&& !exception::double_fault_spec(old) ==> exception::entered(old, new, 6)
    &&& exception::double_fault_spec(old) ==> exception::halted_from(old, new)
    &&& !exception::double_fault_spec(old) && !old.halted ==> r == GROUP2_CYCLES
    &&& r <= 100
}

/// `TRAP #n`: vector 32 + n, stacking the address past the opcode.
pub fn trap<B: Bus>(cpu: &mut M68k, bus: &mut B, opcode: u16) -> (r: u32)
    ensures
        trap_post(*old(cpu), *final(cpu), opcode, r),
        exception::double_fault_spec(*old(cpu)) ==> final(bus).log() == old(bus).log(),
        !exception::double_fault_spec(*old(cpu)) ==> exception::short_frame_accesses(
            old(bus).log(),
            final(bus).log(),
            exception::frame_base_spec(*old(cpu)),
            old(cpu).sr,
            old(cpu).pc.wrapping_sub(exception::OPCODE_PC_OFFSET).wrapping_add(2),
            (VEC_TRAP_BASE + (opcode & 0xF) as u8) as u8,
            *final(cpu),
        ),
{
    assert((opcode & 0xF) < 16) by (bit_vector);
    let vector = VEC_TRAP_BASE + (opcode & 0xF) as u8;
    let opcode_addr = cpu.pc.wrapping_sub(exception::OPCODE_PC_OFFSET);
    exception::take(cpu, bus, vector, opcode_addr.wrapping_add(2));
    exception::entry_cycles(cpu, 0, GROUP2_CYCLES)
}

/// What [`trapv`] guarantees: the CPU after it (`new`) and the cycles it
/// returns (`r`), from the CPU before it (`old`).
pub open spec fn trapv_post(old: M68k, new: M68k, opcode: u16, r: u32) -> bool {
    &&& old.sr & SR_V == 0 ==> r == 4 && crate::cpu::advanced(old, new)
    &&& old.sr & SR_V != 0 && !exception::double_fault_spec(old) ==> exception::entered(old, new, 6)
    &&& old.sr & SR_V != 0 && exception::double_fault_spec(old) ==> new.halted
    &&& r <= 100
}

/// `TRAPV`: traps through vector 7 if V is set, after its queue advance.
pub fn trapv<B: Bus>(cpu: &mut M68k, bus: &mut B, _opcode: u16) -> (r: u32)
    ensures
        trapv_post(*old(cpu), *final(cpu), _opcode, r),
{
    let opcode_addr = cpu.pc.wrapping_sub(exception::OPCODE_PC_OFFSET);
    let trapped = cpu.sr & SR_V != 0;
    cpu.consume_opcode(bus);
    if !trapped {
        return 4;
    }
    exception::take(cpu, bus, VEC_TRAPV, opcode_addr.wrapping_add(2));
    exception::entry_cycles(cpu, 1, 4 * (SHORT_FRAME_ACCESSES + 1) + 2)
}

/// What [`rte`] guarantees: the CPU after it (`new`) and the cycles it
/// returns (`r`), from the CPU before it (`old`).
pub open spec fn rte_post(old: M68k, new: M68k, opcode: u16, r: u32) -> bool {
    &&& old.sr & crate::cpu::SR_S == 0 ==> crate::ops::system::refused(old, new)
    &&& old.sr & crate::cpu::SR_S != 0 && old.a[7] & 1 == 0 ==> exists|sr: u16, target: u32|
        #[trigger] rte_outcome(old, new, r, sr, target)
    &&& old.sr & crate::cpu::SR_S != 0 && old.a[7] & 1 != 0 ==> exception::halted_from(old, new) && r == 4
    &&& r <= 200
}

/// The reads an `RTE` starts with, from the stack pointer `sp`: the status
/// word `sr` at `sp`, then the return address's words `hi` and `lo` at
/// `sp + 2` and `sp + 4` (masked to 24 bits).
pub open spec fn rte_reads(sp: u32, sr: u16, hi: u16, lo: u16) -> Seq<Access> {
    seq![
        Access::Read16 { addr: sp & ADDR_MASK, val: sr },
        Access::Read16 { addr: sp.wrapping_add(2) & ADDR_MASK, val: hi },
        Access::Read16 { addr: sp.wrapping_add(4) & ADDR_MASK, val: lo },
    ]
}

/// What `RTE` does from an even supervisor stack when the frame holds status
/// `sr` and return address `target`: the stack pointer moves past the 6-byte
/// frame, the SR is set (which switches stacks if S is cleared), and execution
/// resumes at `target` after a queue refill, in 20 cycles. An odd `target`
/// takes an address error from there instead.
pub open spec fn rte_outcome(old: M68k, new: M68k, r: u32, sr: u16, target: u32) -> bool {
    let sp = old.a[7].wrapping_add(6);
    let popped = M68k { a: vstd::array::spec_array_update(old.a, 7, sp), ssp: sp, pc: target, ..old };
    let c = crate::cpu::set_sr_spec(popped, sr & SR_MASK);
    &&& target & 1 == 0 ==> crate::cpu::refilled(c, new) && r == 20
    &&& target & 1 != 0 && exception::double_fault_spec(c) ==> exception::halted_from(c, new)
    &&& target & 1 != 0 && !exception::double_fault_spec(c) ==> exception::entered(c, new, 14)
}

/// `RTE`: privileged; pops SR and PC. An odd stack pointer or an odd return
/// address raises an address error.
pub fn rte<B: Bus>(cpu: &mut M68k, bus: &mut B, _opcode: u16) -> (r: u32)
    ensures
        rte_post(*old(cpu), *final(cpu), _opcode, r),
        old(cpu).sr & crate::cpu::SR_S != 0 && old(cpu).a[7] & 1 == 0 ==> exists|sr: u16, hi: u16, lo: u16|
            {
                &&& final(bus).log().subrange(0, old(bus).log().len() + 3int) == old(bus).log() + #[trigger] rte_reads(old(cpu).a[7], sr, hi, lo)
                &&& rte_outcome(*old(cpu), *final(cpu), r, sr, ((hi as u32) << 16u32) | lo as u32)
            },
        old(cpu).sr & crate::cpu::SR_S != 0 && old(cpu).a[7] & 1 != 0 ==> final(bus).log() == old(bus).log(),
{
    let opcode_addr = cpu.pc.wrapping_sub(exception::OPCODE_PC_OFFSET);
    let ir = cpu.prefetch[0];
    if !cpu.sr_s() {
        exception::take(cpu, bus, VEC_PRIVILEGE, opcode_addr);
        return exception::entry_cycles(cpu, 0, GROUP2_CYCLES);
    }
    let sp = cpu.a[7];
    if sp & 1 != 0 {
        exception::address_error(cpu, bus, sp, FaultKind::Read, Space::Data, ir, opcode_addr.wrapping_add(2));
        return exception::entry_cycles(cpu, 0, ADDRESS_ERROR_TAIL_CYCLES);
    }
    let new_sr = bus.read16(sp & ADDR_MASK);
    let hi16 = bus.read16(sp.wrapping_add(2) & ADDR_MASK);
    let lo16 = bus.read16(sp.wrapping_add(4) & ADDR_MASK);
    let ghost popped_log = bus.log();
    proof {
        assert(popped_log =~= old(bus).log() + rte_reads(sp, new_sr, hi16, lo16));
    }
    let hi = hi16 as u32;
    let lo = lo16 as u32;
    let new_pc = (hi << 16) | lo;
    cpu.a[7] = sp.wrapping_add(6);
    cpu.ssp = cpu.a[7];
    cpu.set_sr(new_sr & SR_MASK);
    cpu.pc = new_pc;
    proof {
        let popped = M68k { a: vstd::array::spec_array_update(old(cpu).a, 7, sp.wrapping_add(6)), ssp: sp.wrapping_add(6), pc: new_pc, ..*old(cpu) };
        let c = crate::cpu::set_sr_spec(popped, new_sr & SR_MASK);
        assert(cpu.a =~= c.a);
        assert(*cpu == c);
    }
    if new_pc & 1 != 0 {
        exception::address_error(cpu, bus, new_pc, FaultKind::Read, Space::Program, ir, opcode_addr.wrapping_add(2));
        let c = exception::entry_cycles(cpu, 3, 4 * 3 + ADDRESS_ERROR_TAIL_CYCLES);
        assert(rte_outcome(*old(cpu), *cpu, c, new_sr, new_pc));
        assert(bus.log().subrange(0, old(bus).log().len() + 3int) =~= popped_log);
        return c;
    }
    cpu.refill_prefetch(bus);
    assert(rte_outcome(*old(cpu), *cpu, 20u32, new_sr, new_pc));
    assert(bus.log().subrange(0, old(bus).log().len() + 3int) =~= popped_log);
    4 * 5
}

/// The handler this module assigns: `TRAP #0`-`#15`, `RTE`, `TRAPV`.
pub open spec fn claim_spec(op: u16) -> Option<Handler> {
    if 0x4E40 <= op <= 0x4E4F {
        Some(Handler::Trap)
    } else if op == 0x4E73 {
        Some(Handler::Rte)
    } else if op == 0x4E76 {
        Some(Handler::Trapv)
    } else {
        None
    }
}

/// The handler this module assigns to `op`, if any.
pub fn claim(op: u16) -> (r: Option<Handler>)
    ensures
        r == claim_spec(op),
{
    if op >= 0x4E40 && op <= 0x4E4F {
        return Some(Handler::Trap);
    }
    if op == 0x4E73 {
        return Some(Handler::Rte);
    }
    if op == 0x4E76 {
        return Some(Handler::Trapv);
    }
    None
}

/// Installs this family's handlers into the dispatch table: the opcodes
/// `claim_spec` gives a handler get it, the others keep theirs.
pub fn register(table: &mut Vec<Handler>)
    requires
        old(table).len() == 65536,
    ensures
        final(table).len() == 65536,
        forall|i: int|
            0 <= i < 65536 ==> #[trigger] final(table)@[i] == (match claim_spec(i as u16) {
                Some(h) => h,
                None => old(table)@[i],
            }),
{
    crate::ops::install(table, 9);
}

} // verus!
