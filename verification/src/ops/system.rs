//! Register and system instructions: `SWAP`, `EXT`, `EXG`, `MOVE USP`, `STOP`,
//! `RESET`, `LEA`, `PEA`, `LINK`, `UNLK`, `MOVEM`, `MOVEP`, and `MOVE` to and
//! from `SR`/`CCR`.
//!
//! The privileged instructions raise a privilege violation in user mode. After
//! a handler moves `a[7]`, the slot of the active stack pointer is brought up to
//! date (`sync_sp`).

use crate::bus::{Access, Bus};
use crate::cpu::{advanced, ccr_bits, same_regs, with_a, with_d, M68k, ADDR_MASK, SR_S, SR_T};
use crate::decode::Handler;
use crate::ea::{self, mode_is_mem, resolve_spec, spec_ext_words, Ea, Size};
use crate::exception::{self, FaultKind, Space, ADDRESS_ERROR_TAIL_CYCLES, VEC_PRIVILEGE};
use crate::flags::{logic_flags, logic_spec};
use crate::ops::alu::{self, Compute as AluCompute, Plan};
use crate::ops::arith::valid_data_alterable;
use crate::ops::{field_mode, field_reg, field_reg9, op_mode, op_reg, op_reg9};
use vstd::prelude::*;

verus! {

broadcast use crate::bus::lemma_masked_address;

pub const PRIVILEGE_CYCLES: u32 = 34;

/// The CPU after a privileged instruction is refused in user mode: the
/// privilege violation is entered with a short frame, or, where that entry
/// would double-fault, the CPU halts.
pub open spec fn refused(old: M68k, new: M68k) -> bool {
    &&& exception::double_fault_spec(old) ==> exception::halted_from(old, new)
    &&& !exception::double_fault_spec(old) ==> exception::entered(old, new, 6)
}

/// In user mode, raises the privilege violation and returns its cycles.
pub fn privilege_check<B: Bus>(cpu: &mut M68k, bus: &mut B) -> (r: Option<u32>)
    ensures
        r is None <==> old(cpu).sr & crate::cpu::SR_S != 0,
        r is None ==> *final(cpu) == *old(cpu),
        r is Some ==> refused(*old(cpu), *final(cpu)),
        r matches Some(c) ==> c <= 100,
{
    if cpu.sr_s() {
        return None;
    }
    let pc = cpu.pc.wrapping_sub(exception::OPCODE_PC_OFFSET);
    exception::take(cpu, bus, VEC_PRIVILEGE, pc);
    Some(exception::entry_cycles(cpu, 0, PRIVILEGE_CYCLES))
}

/// The 2-cycle address step of `-(An)`, `(d8,An,Xn)` and `(d8,PC,Xn)`.
pub fn idle_lead(mode: u16, reg: u16) -> (r: u32)
    ensures
        r == (if mode == 4 || mode == 6 || (mode == 7 && reg == 3) { 2u32 } else { 0u32 }),
{
    if mode == 4 || mode == 6 || (mode == 7 && reg == 3) {
        2
    } else {
        0
    }
}

pub fn misaligned(addr: u32) -> (r: bool)
    ensures
        r == (addr & 1 != 0),
{
    addr & 1 != 0
}

/// `MOVE to CCR` keeps the SR's upper byte and the unused CCR bits clear.
pub fn move_to_ccr_value(sr: u16, val: u16) -> (r: u16)
    ensures
        r == (sr & 0xFFE0) | (val & 0x001F),
{
    (sr & 0xFFE0) | (val & 0x001F)
}

pub fn operand_space(mode: u16, reg: u16) -> (r: Space)
    ensures
        r == (if mode == 7 && (reg == 2 || reg == 3) { Space::Program } else { Space::Data }),
{
    if mode == 7 && (reg == 2 || reg == 3) {
        Space::Program
    } else {
        Space::Data
    }
}

/// A long write, low word first.
pub fn write_long_desc<B: Bus>(bus: &mut B, addr: u32, val: u32)
    ensures
        final(bus).log() == old(bus).log() + ea::long_writes_low_first(addr, val),
{
    ea::write_predec_long(bus, addr, val);
}

/// A long write, high word first.
pub fn write_long_asc<B: Bus>(bus: &mut B, addr: u32, val: u32)
    ensures
        final(bus).log() == old(bus).log() + ea::write_accesses(addr, Size::Long, val),
{
    let a = addr & ADDR_MASK;
    bus.write16(a, (val >> 16) as u16);
    bus.write16(a.wrapping_add(2) & ADDR_MASK, val as u16);
}

/// `cpu` with the active stack pointer recorded in its own slot.
pub open spec fn sync_sp_spec(cpu: M68k) -> M68k {
    if cpu.sr & SR_S != 0 {
        M68k { ssp: cpu.a[7], ..cpu }
    } else {
        M68k { usp: cpu.a[7], ..cpu }
    }
}

/// Records the active stack pointer in its own slot.
pub fn sync_sp(cpu: &mut M68k)
    ensures
        *final(cpu) == sync_sp_spec(*old(cpu)),
{
    if cpu.sr_s() {
        cpu.ssp = cpu.a[7];
    } else {
        cpu.usp = cpu.a[7];
    }
}

/// The CPU after a register instruction leaves `v` in `Dn`: N and Z from its
/// low `size` bits, V and C clear, X kept.
pub open spec fn register_result(cpu: M68k, n: u16, v: u32, size: Size) -> M68k {
    let f = logic_spec(v, size);
    crate::cpu::with_ccr(with_d(cpu, n as int, v), cpu.spec_ccr_x(), f.0, f.1, f.2, f.3)
}

/// The register's halves exchanged.
pub open spec fn swap_spec(v: u32) -> u32 {
    (v >> 16u32) | (v << 16u32)
}

/// What [`swap`] guarantees: the CPU after it (`new`) and the cycles it
/// returns (`r`), from the CPU before it (`old`).
pub open spec fn swap_post(old: M68k, new: M68k, opcode: u16, r: u32) -> bool {
    &&& r == 4
    &&& new.d[(opcode & 7) as int] == swap_spec(old.d[(opcode & 7) as int])
    &&& advanced(register_result(old, op_reg(opcode), swap_spec(old.d[op_reg(opcode) as int]), Size::Long), new)
}

/// `SWAP Dn`: exchanges the halves; flags from the long result.
pub fn swap<B: Bus>(cpu: &mut M68k, bus: &mut B, opcode: u16) -> (r: u32)
    ensures
        swap_post(*old(cpu), *final(cpu), opcode, r),
{
    let r = field_reg(opcode) as usize;
    let v = (cpu.d[r] >> 16) | (cpu.d[r] << 16);
    cpu.d[r] = v;
    let (n, z, vf, c) = logic_flags(v, Size::Long);
    let x = cpu.ccr_x();
    cpu.set_ccr(x, n, z, vf, c);
    cpu.consume_opcode(bus);
    4
}

/// What [`ext_w`] guarantees: the CPU after it (`new`) and the cycles it
/// returns (`r`), from the CPU before it (`old`).
pub open spec fn ext_w_post(old: M68k, new: M68k, opcode: u16, r: u32) -> bool {
    &&& r == 4
    &&& advanced(
        register_result(
            old,
            op_reg(opcode),
            (old.d[op_reg(opcode) as int] & 0xFFFF_0000) | ((old.d[op_reg(opcode) as int] as u8) as i8 as i16 as u16) as u32,
            Size::Word,
        ),
        new,
    )
    &&& new.d[(opcode & 7) as int] == (old.d[(opcode & 7) as int] & 0xFFFF_0000)
        | ((old.d[(opcode & 7) as int] as u8) as i8 as i16 as u16) as u32
}

/// `EXT.W Dn`: sign-extends the low byte into the low word.
pub fn ext_w<B: Bus>(cpu: &mut M68k, bus: &mut B, opcode: u16) -> (r: u32)
    ensures
        ext_w_post(*old(cpu), *final(cpu), opcode, r),
{
    let r = field_reg(opcode) as usize;
    let v = (cpu.d[r] as u8) as i8 as i16 as u16;
    let d = cpu.d[r];
    assert(((d & 0xFFFF_0000) | v as u32) & 0xFFFF == v as u32 && (v as u32) & 0xFFFF == v as u32) by (bit_vector);
    cpu.d[r] = (d & 0xFFFF_0000) | v as u32;
    let (n, z, vf, c) = logic_flags(v as u32, Size::Word);
    let x = cpu.ccr_x();
    cpu.set_ccr(x, n, z, vf, c);
    cpu.consume_opcode(bus);
    4
}

/// What [`ext_l`] guarantees: the CPU after it (`new`) and the cycles it
/// returns (`r`), from the CPU before it (`old`).
pub open spec fn ext_l_post(old: M68k, new: M68k, opcode: u16, r: u32) -> bool {
    &&& r == 4
    &&& advanced(
        register_result(old, op_reg(opcode), (old.d[op_reg(opcode) as int] as u16) as i16 as i32 as u32, Size::Long),
        new,
    )
    &&& new.d[(opcode & 7) as int] == (old.d[(opcode & 7) as int] as u16) as i16 as i32 as u32
}

/// `EXT.L Dn`: sign-extends the low word.
pub fn ext_l<B: Bus>(cpu: &mut M68k, bus: &mut B, opcode: u16) -> (r: u32)
    ensures
        ext_l_post(*old(cpu), *final(cpu), opcode, r),
{
    let r = field_reg(opcode) as usize;
    let v = (cpu.d[r] as u16) as i16 as i32 as u32;
    cpu.d[r] = v;
    let (n, z, vf, c) = logic_flags(v, Size::Long);
    let x = cpu.ccr_x();
    cpu.set_ccr(x, n, z, vf, c);
    cpu.consume_opcode(bus);
    4
}

/// The registers after `EXG`: data/data (opmode 01000), address/address
/// (01001), data/address (anything else).
pub open spec fn exg_spec(cpu: M68k, opcode: u16) -> M68k {
    let (rx, ry) = (op_reg9(opcode) as int, op_reg(opcode) as int);
    let sel = (opcode >> 3u16) & 0x1F;
    if sel == 0x08 {
        with_d(with_d(cpu, rx, cpu.d[ry]), ry, cpu.d[rx])
    } else if sel == 0x09 {
        sync_sp_spec(with_a(with_a(cpu, rx, cpu.a[ry]), ry, cpu.a[rx]))
    } else {
        sync_sp_spec(with_a(with_d(cpu, rx, cpu.a[ry]), ry, cpu.d[rx]))
    }
}

/// What [`exg`] guarantees: the CPU after it (`new`) and the cycles it
/// returns (`r`), from the CPU before it (`old`).
pub open spec fn exg_post(old: M68k, new: M68k, opcode: u16, r: u32) -> bool {
    &&& r == 6
    &&& advanced(exg_spec(old, opcode), new)
}

/// `EXG`: data/data (opmode 01000), address/address (01001), data/address (10001).
pub fn exg<B: Bus>(cpu: &mut M68k, bus: &mut B, opcode: u16) -> (r: u32)
    ensures
        exg_post(*old(cpu), *final(cpu), opcode, r),
{
    let rx = field_reg9(opcode) as usize;
    let ry = field_reg(opcode) as usize;
    let sel = (opcode >> 3) & 0x1F;
    if sel == 0x08 {
        let t = cpu.d[rx];
        cpu.d[rx] = cpu.d[ry];
        cpu.d[ry] = t;
    } else if sel == 0x09 {
        let t = cpu.a[rx];
        cpu.a[rx] = cpu.a[ry];
        cpu.a[ry] = t;
        sync_sp(cpu);
    } else {
        let t = cpu.d[rx];
        cpu.d[rx] = cpu.a[ry];
        cpu.a[ry] = t;
        sync_sp(cpu);
    }
    cpu.consume_opcode(bus);
    4 + 2
}

/// What [`move_to_usp`] guarantees: the CPU after it (`new`) and the cycles it
/// returns (`r`), from the CPU before it (`old`).
pub open spec fn move_to_usp_post(old: M68k, new: M68k, opcode: u16, r: u32) -> bool {
    &&& r <= 200
    &&& old.sr & crate::cpu::SR_S != 0 ==> r == 4 && new.usp == old.a[(opcode & 7) as int]
        && advanced(M68k { usp: old.a[(opcode & 7) as int], ..old }, new)
    &&& old.sr & crate::cpu::SR_S == 0 ==> refused(old, new)
}

/// `MOVE An,USP` (privileged).
pub fn move_to_usp<B: Bus>(cpu: &mut M68k, bus: &mut B, opcode: u16) -> (r: u32)
    ensures
        move_to_usp_post(*old(cpu), *final(cpu), opcode, r),
{
    if let Some(c) = privilege_check(cpu, bus) {
        return c;
    }
    cpu.usp = cpu.a[field_reg(opcode) as usize];
    cpu.consume_opcode(bus);
    4
}

/// What [`move_from_usp`] guarantees: the CPU after it (`new`) and the cycles it
/// returns (`r`), from the CPU before it (`old`).
pub open spec fn move_from_usp_post(old: M68k, new: M68k, opcode: u16, r: u32) -> bool {
    &&& r <= 200
    &&& old.sr & crate::cpu::SR_S != 0 ==> r == 4 && new.a[(opcode & 7) as int] == old.usp
        && advanced(sync_sp_spec(with_a(old, (opcode & 7) as int, old.usp)), new)
    &&& old.sr & crate::cpu::SR_S == 0 ==> refused(old, new)
}

/// `MOVE USP,An` (privileged).
pub fn move_from_usp<B: Bus>(cpu: &mut M68k, bus: &mut B, opcode: u16) -> (r: u32)
    ensures
        move_from_usp_post(*old(cpu), *final(cpu), opcode, r),
{
    if let Some(c) = privilege_check(cpu, bus) {
        return c;
    }
    let r = field_reg(opcode) as usize;
    cpu.a[r] = cpu.usp;
    sync_sp(cpu);
    cpu.consume_opcode(bus);
    4
}

/// What [`stop`] guarantees: the CPU after it (`new`) and the cycles it
/// returns (`r`), from the CPU before it (`old`).
pub open spec fn stop_post(old: M68k, new: M68k, opcode: u16, r: u32) -> bool {
    &&& r <= 200
    &&& old.sr & crate::cpu::SR_S != 0 ==> r == 4 && new.stopped
        && new.sr == crate::cpu::set_sr_spec(old, old.prefetch[1]).sr
        && new.pc == old.pc && new.prefetch == old.prefetch
    &&& old.sr & crate::cpu::SR_S == 0 ==> refused(old, new)
}

/// `STOP #imm` (privileged): loads the SR and stops. A `STOP` that sets T owes
/// a trace.
pub fn stop<B: Bus>(cpu: &mut M68k, bus: &mut B, _opcode: u16) -> (r: u32)
    ensures
        stop_post(*old(cpu), *final(cpu), _opcode, r),
{
    if let Some(c) = privilege_check(cpu, bus) {
        return c;
    }
    let imm = cpu.prefetch[1];
    cpu.set_sr(imm);
    cpu.trace_pending = cpu.trace_pending || cpu.sr & SR_T != 0;
    cpu.stopped = true;
    4
}

/// What [`reset`] guarantees: the CPU after it (`new`) and the cycles it
/// returns (`r`), from the CPU before it (`old`).
pub open spec fn reset_post(old: M68k, new: M68k, opcode: u16, r: u32) -> bool {
    &&& r <= 200
    &&& old.sr & crate::cpu::SR_S != 0 ==> r == 132 && advanced(old, new)
    &&& old.sr & crate::cpu::SR_S == 0 ==> refused(old, new)
}

/// `RESET` (privileged): asserts the reset line, which this core has nothing on.
pub fn reset<B: Bus>(cpu: &mut M68k, bus: &mut B, _opcode: u16) -> (r: u32)
    ensures
        reset_post(*old(cpu), *final(cpu), _opcode, r),
{
    if let Some(c) = privilege_check(cpu, bus) {
        return c;
    }
    cpu.consume_opcode(bus);
    4 + 128
}

/// Fetches `de` extension words from the queue into `ext`.
fn fetch_ext<B: Bus>(cpu: &mut M68k, bus: &mut B, de: u32, ext: &mut [u16; 2])
    requires
        de <= 2,
    ensures
        same_regs(*old(cpu), *final(cpu)),
        final(cpu).pc == old(cpu).pc.wrapping_add((2 * de) as u32),
        de >= 1 ==> final(ext)[0] == old(cpu).prefetch[1],
        de == 0 ==> *final(cpu) == *old(cpu),
{
    let ghost cpu0 = *cpu;
    let mut i: u32 = 0;
    while i < de
        invariant
            i <= de,
            de <= 2,
            same_regs(cpu0, *cpu),
            cpu.pc == cpu0.pc.wrapping_add((2 * i) as u32),
            i >= 1 ==> ext[0] == cpu0.prefetch[1],
            i == 0 ==> *cpu == cpu0,
        decreases de - i,
    {
        ext[i as usize] = cpu.prefetch[1];
        cpu.consume_opcode(bus);
        i = i + 1;
    }
}

/// The address a control-mode `<ea>` names, its extension word (if it has
/// one) taken from the queue.
pub open spec fn control_address(cpu: M68k, mode: u16, reg: u16) -> u32 {
    match resolve_spec(cpu, mode, reg, Size::Word, cpu.prefetch[1], 0, cpu.pc.wrapping_sub(exception::OPCODE_PC_OFFSET).wrapping_add(2)) {
        Ea::Mem(a) => a,
        _ => 0,
    }
}

/// The address an `abs.L` `<ea>` names: the queue's next word over `lo`, the
/// word fetched after it.
pub open spec fn long_address(cpu: M68k, lo: u16) -> u32 {
    ((cpu.prefetch[1] as u32) << 16u32) | lo as u32
}

/// Resolves a control-mode address for `LEA`/`PEA`, fetching its extension
/// words. Returns the address and the words fetched.
pub fn resolve_address<B: Bus>(cpu: &mut M68k, bus: &mut B, mode: u16, reg: u16) -> (r: (u32, u32))
    requires
        ea::valid_ea(mode, reg),
    ensures
        r.1 == spec_ext_words(mode, reg, Size::Word),
        r.1 <= 2,
        ea::modes::is_control(mode, reg) ==> same_regs(*old(cpu), *final(cpu)) && final(cpu).pc == old(cpu).pc.wrapping_add((2 * r.1) as u32),
        ea::modes::is_control(mode, reg) && r.1 <= 1 ==> r.0 == control_address(*old(cpu), mode, reg),
        mode == 7 && reg == 1 ==> exists|lo: u16| r.0 == #[trigger] long_address(*old(cpu), lo),
{
    let opcode_addr = cpu.pc.wrapping_sub(exception::OPCODE_PC_OFFSET);
    let de = ea::ext_words(mode, reg, Size::Word);
    let mut ext = [0u16; 2];
    fetch_ext(cpu, bus, de, &mut ext);
    let ea = ea::resolve_words(cpu, mode, reg, Size::Word, ext[0], ext[1], opcode_addr.wrapping_add(2));
    let addr = match ea {
        Ea::Mem(a) => a,
        _ => 0,
    };
    proof {
        if mode == 7 && reg == 1 {
            assert(addr == long_address(*old(cpu), ext[1]));
        }
    }
    (addr, de)
}

/// What `LEA abs.L` does when the address's low word is `lo`: the address
/// goes to the register, past three words, in 12 cycles.
pub open spec fn lea_long_outcome(old: M68k, new: M68k, opcode: u16, r: u32, lo: u16) -> bool {
    &&& same_regs(new, sync_sp_spec(with_a(old, op_reg9(opcode) as int, long_address(old, lo))))
    &&& new.pc == old.pc.wrapping_add(6)
    &&& r == 12
}

/// What [`lea`] guarantees: the CPU after it (`new`) and the cycles it
/// returns (`r`), from the CPU before it (`old`).
pub open spec fn lea_post(old: M68k, new: M68k, opcode: u16, r: u32) -> bool {
    &&& r <= 200
    &&& ({
        let (mode, reg) = (op_mode(opcode), op_reg(opcode));
        let de = spec_ext_words(mode, reg, Size::Word);
        ea::modes::is_control(mode, reg) && de <= 1 ==> {
            &&& same_regs(new, sync_sp_spec(with_a(old, op_reg9(opcode) as int, control_address(old, mode, reg))))
            &&& new.pc == old.pc.wrapping_add((2 * (1 + de)) as u32)
            &&& r == 4 * (1 + de) + (if mode == 6 || (mode == 7 && reg == 3) { 4u32 } else { 0u32 })
        }
    })
    &&& op_mode(opcode) == 7 && op_reg(opcode) == 1 ==> exists|lo: u16| #[trigger] lea_long_outcome(old, new, opcode, r, lo)
}

/// `LEA <ea>,An`.
pub fn lea<B: Bus>(cpu: &mut M68k, bus: &mut B, opcode: u16) -> (r: u32)
    ensures
        lea_post(*old(cpu), *final(cpu), opcode, r),
{
    let (mode, reg) = (field_mode(opcode), field_reg(opcode));
    if !ea::valid_ea(mode, reg) {
        return exception::illegal_instruction(cpu, bus, opcode);
    }
    let dst = field_reg9(opcode) as usize;
    let ghost cpu0 = *cpu;
    let (addr, de) = resolve_address(cpu, bus, mode, reg);
    cpu.a[dst] = addr;
    sync_sp(cpu);
    cpu.consume_opcode(bus);
    let r = 4 * (1 + de) + 2 * idle_lead(mode, reg);
    proof {
        if mode == 7 && reg == 1 {
            let lo = choose|lo: u16| addr == #[trigger] long_address(cpu0, lo);
            assert(cpu.a =~= sync_sp_spec(with_a(cpu0, dst as int, addr)).a);
            assert(lea_long_outcome(cpu0, *cpu, opcode, r, lo));
        }
    }
    r
}

/// What [`pea`] guarantees: the CPU after it (`new`) and the cycles it
/// returns (`r`), from the CPU before it (`old`).
pub open spec fn pea_post(old: M68k, new: M68k, opcode: u16, r: u32) -> bool {
    &&& r <= 200
    &&& ({
        let (mode, reg) = (op_mode(opcode), op_reg(opcode));
        let de = spec_ext_words(mode, reg, Size::Word);
        let sp = old.a[7].wrapping_sub(4);
        ea::modes::is_control(mode, reg) && sp & 1 == 0 ==> {
            &&& same_regs(new, sync_sp_spec(with_a(old, 7, sp)))
            &&& new.pc == old.pc.wrapping_add((2 * (1 + de)) as u32)
            &&& r == 4 * (3 + de) + (if mode == 6 || (mode == 7 && reg == 3) { 4u32 } else { 0u32 })
        }
    })
    &&& ({
        let (mode, reg) = (op_mode(opcode), op_reg(opcode));
        let de = spec_ext_words(mode, reg, Size::Word);
        let fetched: int = if mode == 7 && reg <= 1 { de as int } else { de + 1 };
        ea::modes::is_control(mode, reg) && old.a[7].wrapping_sub(4) & 1 != 0 ==> {
            &&& exception::double_fault_spec(old) ==> new.halted
            &&& !exception::double_fault_spec(old) ==> exception::entered(old, new, 14)
            &&& !exception::double_fault_spec(old) && !old.halted ==> r == 4 * fetched + (if mode == 6 || (mode == 7 && reg == 3) { 4u32 } else { 0u32 })
                + ADDRESS_ERROR_TAIL_CYCLES
        }
    })
}

/// `PEA <ea>`: pushes the address, high word first.
pub fn pea<B: Bus>(cpu: &mut M68k, bus: &mut B, opcode: u16) -> (r: u32)
    ensures
        pea_post(*old(cpu), *final(cpu), opcode, r),
{
    let (mode, reg) = (field_mode(opcode), field_reg(opcode));
    if !ea::valid_ea(mode, reg) {
        return exception::illegal_instruction(cpu, bus, opcode);
    }
    let absolute = mode == 7 && reg <= 1;
    let opcode_addr = cpu.pc.wrapping_sub(exception::OPCODE_PC_OFFSET);
    let ir = cpu.prefetch[0];
    let (addr, de) = resolve_address(cpu, bus, mode, reg);
    if !absolute {
        cpu.consume_opcode(bus);
    }
    let sp = cpu.a[7].wrapping_sub(4);
    if misaligned(sp) {
        let ghost at_fault = *cpu;
        exception::address_error(cpu, bus, sp, FaultKind::Write, Space::Data, ir, opcode_addr.wrapping_add(4));
        proof {
            if ea::modes::is_control(mode, reg) {
                exception::lemma_entry_frame(at_fault, *old(cpu), *cpu, 14);
            }
        }
        let made = de + if !absolute {
            1
        } else {
            0
        };
        return 4 * made + 2 * idle_lead(mode, reg) + exception::entry_cycles(cpu, 0, ADDRESS_ERROR_TAIL_CYCLES);
    }
    cpu.a[7] = sp;
    sync_sp(cpu);
    write_long_asc(bus, sp, addr);
    if absolute {
        cpu.consume_opcode(bus);
    }
    4 * (1 + de + 2) + 2 * idle_lead(mode, reg)
}

/// What [`link`] guarantees: the CPU after it (`new`) and the cycles it
/// returns (`r`), from the CPU before it (`old`).
pub open spec fn link_post(old: M68k, new: M68k, opcode: u16, r: u32) -> bool {
    &&& r <= 200
    &&& ({
        let sp = old.a[7].wrapping_sub(4);
        let disp = old.prefetch[1] as i16 as i32 as u32;
        sp & 1 == 0 ==> {
            &&& r == 16
            &&& same_regs(new, sync_sp_spec(with_a(with_a(old, op_reg(opcode) as int, sp), 7, sp.wrapping_add(disp))))
            &&& new.pc == old.pc.wrapping_add(4)
        }
    })
    &&& old.a[7].wrapping_sub(4) & 1 != 0 ==> {
        &&& exception::double_fault_spec(old) ==> new.halted && r == 4 + exception::HALTED_IDLE_CYCLES
        &&& !exception::double_fault_spec(old) ==> exception::entered(old, new, 14) && (!old.halted ==> r == 4 + ADDRESS_ERROR_TAIL_CYCLES)
    }
}

/// `LINK An,#d16`: pushes `An`, points it at the pushed long, and adds the
/// displacement to the stack pointer.
pub fn link<B: Bus>(cpu: &mut M68k, bus: &mut B, opcode: u16) -> (r: u32)
    ensures
        link_post(*old(cpu), *final(cpu), opcode, r),
        old(cpu).a[7].wrapping_sub(4) & 1 != 0 && exception::double_fault_spec(*old(cpu)) ==> final(bus).log()
            == old(bus).log().push(Access::Read16 { addr: old(cpu).pc & ADDR_MASK, val: final(cpu).prefetch[1] }),
{
    let n = field_reg(opcode) as usize;
    let opcode_addr = cpu.pc.wrapping_sub(exception::OPCODE_PC_OFFSET);
    let ir = cpu.prefetch[0];
    let disp = cpu.prefetch[1] as i16 as i32 as u32;
    cpu.consume_opcode(bus);
    let pushed = cpu.a[n];
    let sp = cpu.a[7].wrapping_sub(4);
    if misaligned(sp) {
        let ghost fetched = *cpu;
        exception::address_error(cpu, bus, sp, FaultKind::Write, Space::Data, ir, opcode_addr.wrapping_add(4));
        proof {
            exception::lemma_entry_frame(fetched, *old(cpu), *cpu, 14);
        }
        return 4 + exception::entry_cycles(cpu, 0, ADDRESS_ERROR_TAIL_CYCLES);
    }
    write_long_asc(bus, sp, pushed);
    cpu.a[n] = sp;
    cpu.a[7] = sp.wrapping_add(disp);
    sync_sp(cpu);
    cpu.consume_opcode(bus);
    4 * 4
}

/// What [`unlk`] guarantees: the CPU after it (`new`) and the cycles it
/// returns (`r`), from the CPU before it (`old`).
pub open spec fn unlk_post(old: M68k, new: M68k, opcode: u16, r: u32) -> bool {
    &&& r <= 200
    &&& ({
        let n = op_reg(opcode) as int;
        old.a[n] & 1 == 0 ==> {
            &&& r == 12
            &&& same_regs(new, sync_sp_spec(with_a(with_a(old, 7, old.a[n].wrapping_add(4)), n, new.a[n])))
            &&& n != 7 ==> new.a[7] == old.a[n].wrapping_add(4)
            &&& new.pc == old.pc.wrapping_add(2)
        }
    })
    &&& old.a[op_reg(opcode) as int] & 1 != 0 ==> {
        &&& exception::double_fault_spec(old) ==> exception::halted_from(old, new) && r == exception::HALTED_IDLE_CYCLES
        &&& !exception::double_fault_spec(old) ==> exception::entered(old, new, 14) && (!old.halted ==> r == ADDRESS_ERROR_TAIL_CYCLES)
    }
}

/// `UNLK An`: the stack pointer takes `An` and `An` is popped from it.
pub fn unlk<B: Bus>(cpu: &mut M68k, bus: &mut B, opcode: u16) -> (r: u32)
    ensures
        unlk_post(*old(cpu), *final(cpu), opcode, r),
        old(cpu).a[op_reg(opcode) as int] & 1 != 0 && exception::double_fault_spec(*old(cpu)) ==> final(bus).log() == old(bus).log(),
{
    let n = field_reg(opcode) as usize;
    let addr = cpu.a[n];
    if misaligned(addr) {
        let opcode_addr = cpu.pc.wrapping_sub(exception::OPCODE_PC_OFFSET);
        let ir = cpu.prefetch[0];
        exception::address_error(cpu, bus, addr, FaultKind::Read, Space::Data, ir, opcode_addr.wrapping_add(4));
        return exception::entry_cycles(cpu, 0, ADDRESS_ERROR_TAIL_CYCLES);
    }
    let hi = bus.read16(addr & ADDR_MASK) as u32;
    let lo = bus.read16(addr.wrapping_add(2) & ADDR_MASK) as u32;
    cpu.a[7] = addr.wrapping_add(4);
    cpu.a[n] = (hi << 16) | lo;
    sync_sp(cpu);
    cpu.consume_opcode(bus);
    4 * 3
}

/// Register `i` of the MOVEM order: `D0`-`D7` then `A0`-`A7`.
pub open spec fn movem_reg_spec(cpu: M68k, i: int) -> u32 {
    if i < 8 { cpu.d[i] } else { cpu.a[i - 8] }
}

/// Register `i` of the MOVEM order: `D0`-`D7` then `A0`-`A7`.
pub fn movem_read_reg(cpu: &M68k, i: usize) -> (r: u32)
    requires
        i < 16,
    ensures
        r == movem_reg_spec(*cpu, i as int),
{
    if i < 8 {
        cpu.d[i]
    } else {
        cpu.a[i - 8]
    }
}

pub fn movem_write_reg(cpu: &mut M68k, i: usize, val: u32)
    requires
        i < 16,
    ensures
        movem_reg_spec(*final(cpu), i as int) == val,
        forall|j: int| 0 <= j < 16 && j != i ==> movem_reg_spec(*final(cpu), j) == movem_reg_spec(*old(cpu), j),
        final(cpu).sr == old(cpu).sr && final(cpu).pc == old(cpu).pc && final(cpu).prefetch == old(cpu).prefetch,
{
    if i < 8 {
        cpu.d[i] = val;
    } else {
        cpu.a[i - 8] = val;
        sync_sp(cpu);
    }
}

/// The number of set bits in a 16-bit register mask.
pub fn mask_count(mask: u16) -> (r: u32)
    ensures
        r == crate::ops::muldiv::popcount_spec(mask as u32, 16),
        r <= 16,
{
    crate::ops::muldiv::popcount16(mask as u32)
}

/// Bit `b` of a mask, read either way.
proof fn lemma_mask_bit(mask: u16, b: u16)
    requires
        b < 16,
    ensures
        (((mask as u32) >> (b as u32)) & 1 == 1) == (mask & (1u16 << b) != 0),
{
    assert((((mask as u32) >> (b as u32)) & 1 == 1) == (mask & (1u16 << b) != 0)) by (bit_vector)
        requires
            b < 16,
    ;
}

/// The address a MOVEM's control-mode `<ea>` names when the extension words
/// after its register mask are `e0` and `e1`.
pub open spec fn movem_control_base(cpu: M68k, opcode: u16, size: Size, e0: u16, e1: u16) -> u32 {
    match resolve_spec(cpu, op_mode(opcode), op_reg(opcode), size, e0, e1, cpu.pc.wrapping_sub(exception::OPCODE_PC_OFFSET).wrapping_add(4)) {
        Ea::Mem(a) => a,
        _ => 0,
    }
}

/// What a MOVEM through `(d16,An)`, `(d8,An,Xn)`, an absolute or a
/// PC-relative `<ea>` does when the extension words after its register mask
/// are `e0` and `e1`. From an even address: the SR kept, the queue past the
/// instruction's words, 4 cycles per word fetched and register moved (plus
/// one read for a load, and the indexed modes' 2 idle cycles); a store keeps
/// every register, a load every register outside the mask. From an odd one:
/// the address error, after the mask and extension words.
pub open spec fn movem_control_outcome(old: M68k, new: M68k, opcode: u16, size: Size, r: u32, e0: u16, e1: u16) -> bool {
    let (mode, reg) = (op_mode(opcode), op_reg(opcode));
    let de = spec_ext_words(mode, reg, size);
    let mask = old.prefetch[1];
    let to_regs = opcode & 0x0400 != 0;
    let n = crate::ops::muldiv::popcount_spec(mask as u32, 16);
    let idle: int = if mode == 6 || (mode == 7 && reg == 3) { 2 } else { 0 };
    let base = movem_control_base(old, opcode, size, e0, e1);
    &&& base & 1 == 0 ==> {
        &&& new.sr == old.sr
        &&& new.pc == old.pc.wrapping_add((4 + 2 * de) as u32)
        &&& r == 4 * (2 + de + n * (size.spec_bytes() / 2) + (if to_regs { 1nat } else { 0nat })) + idle
        &&& !to_regs ==> same_regs(old, new)
        &&& to_regs ==> forall|i: int|
            0 <= i < 16 && mask & (1u16 << i as u16) == 0 ==> #[trigger] movem_reg_spec(new, i) == movem_reg_spec(old, i)
    }
    &&& base & 1 != 0 ==> crate::ops::alu::operand_fault(old, new, r, 1 + de, idle)
}

/// What [`movem`] guarantees: the CPU after it (`new`) and the cycles it
/// returns (`r`), from the CPU before it (`old`).
pub open spec fn movem_post(old: M68k, new: M68k, opcode: u16, size: Size, r: u32) -> bool {
    &&& r <= 2000
    &&& ({
        let (mode, reg) = (op_mode(opcode), op_reg(opcode) as int);
        let mask = old.prefetch[1];
        let to_regs = opcode & 0x0400 != 0;
        let n = crate::ops::muldiv::popcount_spec(mask as u32, 16);
        let bytes = (n * size.spec_bytes()) as u32;
        let base = if mode == 4 { old.a[reg].wrapping_sub(bytes) } else { old.a[reg] };
        2 <= mode <= 4 && base & 1 == 0 ==> {
            &&& new.sr == old.sr
            &&& new.pc == old.pc.wrapping_add(4)
            &&& r == 4 * (2 + n * (size.spec_bytes() / 2) + (if to_regs { 1nat } else { 0nat }))
            &&& !to_regs && mode != 4 ==> same_regs(old, new)
            &&& !to_regs && mode == 4 ==> same_regs(new, sync_sp_spec(with_a(old, reg, base)))
            &&& to_regs ==> forall|i: int|
                0 <= i < 16 && mask & (1u16 << i as u16) == 0 && !(mode == 3 && i == 8 + reg)
                    ==> #[trigger] movem_reg_spec(new, i) == movem_reg_spec(old, i)
            &&& to_regs && mode == 3 ==> new.a[reg] == old.a[reg].wrapping_add(bytes)
        }
    })
    &&& ({
        let (mode, reg) = (op_mode(opcode), op_reg(opcode) as int);
        let n = crate::ops::muldiv::popcount_spec(old.prefetch[1] as u32, 16);
        let bytes = (n * size.spec_bytes()) as u32;
        let base = if mode == 4 { old.a[reg].wrapping_sub(bytes) } else { old.a[reg] };
        2 <= mode <= 4 && base & 1 != 0 ==> crate::ops::alu::operand_fault(old, new, r, 1, 0)
    })
    &&& ({
        let (mode, reg) = (op_mode(opcode), op_reg(opcode));
        mode == 5 || mode == 6 || (mode == 7 && reg <= 3) ==> exists|e0: u16, e1: u16|
            #[trigger] movem_control_outcome(old, new, opcode, size, r, e0, e1)
    })
}

/// `MOVEM` registers to memory or memory to registers.
#[verifier::rlimit(80)]
#[verifier::spinoff_prover]
pub fn movem<B: Bus>(cpu: &mut M68k, bus: &mut B, opcode: u16, size: Size) -> (r: u32)
    ensures
        movem_post(*old(cpu), *final(cpu), opcode, size, r),
{
    let ghost cpu0 = *cpu;
    let (mode, reg) = (field_mode(opcode), field_reg(opcode));
    if !ea::valid_ea(mode, reg) {
        return exception::illegal_instruction(cpu, bus, opcode);
    }
    let to_regs = opcode & 0x0400 != 0;
    let opcode_addr = cpu.pc.wrapping_sub(exception::OPCODE_PC_OFFSET);
    let ir = cpu.prefetch[0];
    let mask = cpu.prefetch[1];
    cpu.consume_opcode(bus);
    let de = ea::ext_words(mode, reg, size);
    let mut ext = [0u16; 2];
    fetch_ext(cpu, bus, de, &mut ext);
    let step = size.bytes();
    let count = mask_count(mask);
    let predec = mode == 4;
    let idle = if predec {
        0
    } else {
        idle_lead(mode, reg)
    };
    let r = reg as usize;
    assert(count <= 16 && step <= 4 ==> count * step <= 64) by (nonlinear_arith);
    let base = if mode == 3 {
        cpu.a[r]
    } else if mode == 4 {
        cpu.a[r].wrapping_sub(count * step)
    } else {
        let ea = ea::resolve_words(cpu, mode, reg, size, ext[0], ext[1], opcode_addr.wrapping_add(4));
        match ea {
            Ea::Mem(a) => a,
            _ => 0,
        }
    };
    let first = if predec {
        cpu.a[r].wrapping_sub(2)
    } else {
        base
    };
    let ghost control = mode == 5 || mode == 6 || (mode == 7 && reg <= 3);
    proof {
        if control {
            ea::lemma_resolve_frame(*cpu, cpu0, mode, reg, size, ext[0], ext[1], ext[1], opcode_addr.wrapping_add(4));
            assert(base == movem_control_base(cpu0, opcode, size, ext[0], ext[1]));
        }
    }
    if misaligned(base) {
        let ghost at_fault = *cpu;
        let kind = if to_regs {
            FaultKind::Read
        } else {
            FaultKind::Write
        };
        exception::address_error(
            cpu,
            bus,
            first,
            kind,
            operand_space(mode, reg),
            ir,
            opcode_addr.wrapping_add(6 + 2 * de),
        );
        let c = 4 * (1 + de) + idle + exception::entry_cycles(cpu, 0, ADDRESS_ERROR_TAIL_CYCLES);
        proof {
            if control {
                exception::lemma_entry_frame(at_fault, cpu0, *cpu, 14);
                assert(movem_control_outcome(cpu0, *cpu, opcode, size, c, ext[0], ext[1]));
            }
            if 2 <= mode <= 4 {
                exception::lemma_entry_frame(at_fault, cpu0, *cpu, 14);
            }
        }
        return c;
    }
    let mut extra: u32 = 0;
    let ghost ready = *cpu;
    assert(ready.d == cpu0.d && ready.a == cpu0.a && ready.sr == cpu0.sr);
    if to_regs {
        let mut addr = base;
        let mut b: usize = 0;
        while b < 16
            invariant
                b <= 16,
                cpu.sr == ready.sr && cpu.pc == ready.pc && cpu.prefetch == ready.prefetch,
                forall|j: int|
                    0 <= j < 16 && (j >= b || mask & (1u16 << j as u16) == 0) ==> #[trigger] movem_reg_spec(*cpu, j)
                        == movem_reg_spec(ready, j),
            decreases 16 - b,
        {
            if mask & (1u16 << (b as u16)) != 0 {
                let v = if size == Size::Long {
                    let hi = bus.read16(addr & ADDR_MASK) as u32;
                    let lo = bus.read16(addr.wrapping_add(2) & ADDR_MASK) as u32;
                    (hi << 16) | lo
                } else {
                    bus.read16(addr & ADDR_MASK) as i16 as i32 as u32
                };
                movem_write_reg(cpu, b, v);
                addr = addr.wrapping_add(step);
            }
            b = b + 1;
        }
        assert forall|i: int| 0 <= i < 16 && mask & (1u16 << i as u16) == 0 implies movem_reg_spec(*cpu, i)
            == movem_reg_spec(ready, i) by {}
        let ghost loaded = *cpu;
        bus.read16(addr & ADDR_MASK);
        extra = 1;
        if mode == 3 {
            cpu.a[r] = base.wrapping_add(count * step);
            sync_sp(cpu);
        }
        assert forall|i: int| 0 <= i < 16 && !(mode == 3 && i == 8 + r) implies movem_reg_spec(*cpu, i)
            == movem_reg_spec(loaded, i) by {}
        assert forall|i: int|
            0 <= i < 16 && mask & (1u16 << i as u16) == 0 && !(mode == 3 && i == 8 + r) implies #[trigger] movem_reg_spec(
            *cpu,
            i,
        ) == movem_reg_spec(cpu0, i) by {
            assert(movem_reg_spec(loaded, i) == movem_reg_spec(ready, i));
        }
    } else if predec {
        let mut addr = cpu.a[r];
        let mut b: usize = 0;
        while b < 16
            invariant
                b <= 16,
                r < 8,
                *cpu == ready,
                step <= 4,
                crate::ops::muldiv::popcount_spec(mask as u32, b as nat) <= b,
                addr == ready.a[r as int].wrapping_sub((step * crate::ops::muldiv::popcount_spec(mask as u32, b as nat)) as u32),
            decreases 16 - b,
        {
            proof {
                lemma_mask_bit(mask, b as u16);
            }
            if mask & (1u16 << (b as u16)) != 0 {
                proof {
                    let k = crate::ops::muldiv::popcount_spec(mask as u32, b as nat);
                    assert(step * (k + 1) == step * k + step) by (nonlinear_arith);
                    assert(step * (k + 1) <= 4 * 16) by (nonlinear_arith)
                        requires
                            step <= 4,
                            k + 1 <= 16,
                    ;
                }
                addr = addr.wrapping_sub(step);
                let v = movem_read_reg(cpu, 15 - b);
                if size == Size::Long {
                    write_long_desc(bus, addr, v);
                } else {
                    bus.write16(addr & ADDR_MASK, v as u16);
                }
            }
            b = b + 1;
        }
        cpu.a[r] = addr;
        sync_sp(cpu);
    } else {
        let mut addr = base;
        let mut b: usize = 0;
        while b < 16
            invariant
                b <= 16,
                *cpu == ready,
            decreases 16 - b,
        {
            if mask & (1u16 << (b as u16)) != 0 {
                let v = movem_read_reg(cpu, b);
                if size == Size::Long {
                    write_long_asc(bus, addr, v);
                } else {
                    bus.write16(addr & ADDR_MASK, v as u16);
                }
                addr = addr.wrapping_add(step);
            }
            b = b + 1;
        }
    }
    let ghost before_fetch = *cpu;
    cpu.consume_opcode(bus);
    assert forall|i: int| 0 <= i < 16 implies #[trigger] movem_reg_spec(*cpu, i) == movem_reg_spec(before_fetch, i) by {}
    assert(count <= 16 && step <= 4 ==> count * (step / 2) <= 32) by (nonlinear_arith);
    let transfers = count * (step / 2);
    let total = 4 * (2 + de + transfers + extra) + idle;
    proof {
        if control {
            assert(movem_control_outcome(cpu0, *cpu, opcode, size, total, ext[0], ext[1]));
        }
    }
    total
}

/// Bounds on a value assembled a byte at a time, and merging a word into the
/// low half of a register.
proof fn lemma_byte_assembly(v: u32, byte: u32, d: u32)
    by (bit_vector)
    requires
        byte <= 0xFF,
    ensures
        v < 1 ==> ((v << 8u32) | byte) < 0x100,
        v < 0x100 ==> ((v << 8u32) | byte) < 0x1_0000,
        v < 0x1_0000 ==> ((d & 0xFFFF_0000) | v) & 0xFFFF_0000 == d & 0xFFFF_0000,
{
}

/// What [`movep`] guarantees: the CPU after it (`new`) and the cycles it
/// returns (`r`), from the CPU before it (`old`).
pub open spec fn movep_post(old: M68k, new: M68k, opcode: u16, size: Size, r: u32) -> bool {
    &&& r == 4 * (2 + size.spec_bytes())
    &&& new.pc == old.pc.wrapping_add(4)
    &&& opcode & 0x0080 != 0 ==> same_regs(old, new)
    &&& opcode & 0x0080 == 0 ==> {
        let dn = op_reg9(opcode) as int;
        &&& new.a == old.a && new.sr == old.sr
        &&& forall|i: int| 0 <= i < 8 && i != dn ==> new.d[i] == old.d[i]
        &&& size != Size::Long ==> new.d[dn] & 0xFFFF_0000 == old.d[dn] & 0xFFFF_0000
    }
}

/// `MOVEP`: a word or long moved a byte at a time to or from alternate bytes.
pub fn movep<B: Bus>(cpu: &mut M68k, bus: &mut B, opcode: u16, size: Size) -> (r: u32)
    ensures
        movep_post(*old(cpu), *final(cpu), opcode, size, r),
{
    let dn = field_reg9(opcode) as usize;
    let an = field_reg(opcode) as usize;
    let to_mem = opcode & 0x0080 != 0;
    let n = size.bytes();
    let disp = cpu.prefetch[1] as i16 as i32 as u32;
    cpu.consume_opcode(bus);
    let base = cpu.a[an].wrapping_add(disp);
    if to_mem {
        let mut i: u32 = 0;
        while i < n
            invariant
                i <= n,
                n <= 4,
                dn < 8,
            decreases n - i,
        {
            let shift = 8 * (n - 1 - i);
            bus.write8(base.wrapping_add(2 * i) & ADDR_MASK, (cpu.d[dn] >> shift) as u8);
            i = i + 1;
        }
    } else {
        let mut v: u32 = 0;
        let mut i: u32 = 0;
        while i < n
            invariant
                i <= n,
                n <= 4,
                i <= 2 ==> v < (if i == 0 { 1u32 } else if i == 1 { 0x100u32 } else { 0x1_0000u32 }),
            decreases n - i,
        {
            let byte = bus.read8(base.wrapping_add(2 * i) & ADDR_MASK) as u32;
            proof {
                lemma_byte_assembly(v, byte, 0);
            }
            v = (v << 8) | byte;
            i = i + 1;
        }
        let d = cpu.d[dn];
        cpu.d[dn] = if size == Size::Long {
            v
        } else {
            (d & 0xFFFF_0000) | v
        };
        proof {
            lemma_byte_assembly(v, 0, d);
        }
    }
    cpu.consume_opcode(bus);
    4 * (2 + n)
}

/// What [`move_from_sr`] guarantees: the CPU after it (`new`) and the cycles it
/// returns (`r`), from the CPU before it (`old`).
pub open spec fn move_from_sr_post(old: M68k, new: M68k, opcode: u16, r: u32) -> bool {
    &&& r <= 2000
    &&& op_mode(opcode) == 0 ==> alu::direct_result(
        old,
        new,
        alu::plan_of(Size::Word, 0, op_reg(opcode), 0, true, 2),
        AluCompute::ReadSr,
        r,
    )
    &&& alu::indirect_plan(alu::plan_of(Size::Word, op_mode(opcode), op_reg(opcode), 0, true, 0)) ==> alu::indirect_run(
        old,
        new,
        alu::plan_of(Size::Word, op_mode(opcode), op_reg(opcode), 0, true, 0),
        AluCompute::ReadSr,
        r,
    )
}

/// `MOVE SR,<ea>` (unprivileged on the 68000).
pub fn move_from_sr<B: Bus>(cpu: &mut M68k, bus: &mut B, opcode: u16) -> (r: u32)
    ensures
        move_from_sr_post(*old(cpu), *final(cpu), opcode, r),
{
    let (mode, reg) = (field_mode(opcode), field_reg(opcode));
    if !ea::valid_ea(mode, reg) {
        return exception::illegal_instruction(cpu, bus, opcode);
    }
    let idle = if mode == 0 {
        2
    } else {
        0
    };
    let plan = Plan::new(Size::Word, mode, reg).writes().idle(idle);
    alu::run(cpu, bus, &plan, AluCompute::ReadSr)
}

/// What [`move_to_sr_ccr`] guarantees: the CPU after it (`new`) and the cycles it
/// returns (`r`), from the CPU before it (`old`).
pub open spec fn move_to_sr_ccr_post(old: M68k, new: M68k, opcode: u16, to_sr: bool, r: u32) -> bool {
    &&& r <= 2000
    &&& ({
        let (mode, reg) = (op_mode(opcode), op_reg(opcode));
        let imm = mode == 7 && reg == 4;
        let val: u16 = if imm { old.prefetch[1] } else { old.d[reg as int] as u16 };
        let sr = if to_sr { val } else { (old.sr & 0xFFE0) | (val & 0x001F) };
        let de: u32 = if imm { 1 } else { 0 };
        (mode == 0 || imm) && (!to_sr || old.sr & SR_S != 0) ==> {
            &&& same_regs(new, crate::cpu::set_sr_spec(old, sr))
            &&& new.pc == old.pc.wrapping_add((2 + 2 * de) as u32)
            &&& r == 4 * (de + 2) + 4
        }
    })
    &&& to_sr && old.sr & SR_S == 0 ==> refused(old, new)
    &&& ea::spec_mode_is_mem(op_mode(opcode), op_reg(opcode)) && ea::spec_valid_ea(op_mode(opcode), op_reg(opcode)) && (!to_sr
        || old.sr & SR_S != 0) ==> exists|e0: u16, e1: u16, val: u16| #[trigger] sr_from_memory(old, new, opcode, to_sr, r, e0, e1, val)
}

/// What `MOVE <ea>,SR` or `MOVE <ea>,CCR` from a memory `<ea>` does, given
/// the extension words `e0`, `e1` after the opcode and the word `val` it
/// reads: an odd address takes the address error after the extension words
/// and the address step; otherwise the SR (or the CCR's five bits) takes the
/// word on the adjusted registers, the PC moves past the instruction and the
/// queue is refilled, 4 cycles per word fetched and read, plus the step.
pub open spec fn sr_from_memory(old: M68k, new: M68k, opcode: u16, to_sr: bool, r: u32, e0: u16, e1: u16, val: u16) -> bool {
    let (mode, reg) = (op_mode(opcode), op_reg(opcode));
    let de = spec_ext_words(mode, reg, Size::Word);
    let at = resolve_spec(old, mode, reg, Size::Word, e0, e1, old.pc.wrapping_sub(exception::OPCODE_PC_OFFSET).wrapping_add(2));
    let adj = ea::adjusted(old, mode, reg, Size::Word);
    let sr = if to_sr { val } else { (old.sr & 0xFFE0) | (val & 0x001F) };
    let idle: u32 = if mode == 4 || mode == 6 || (mode == 7 && reg == 3) { 2 } else { 0 };
    &&& ea::misaligned_ea(at, Size::Word) ==> crate::ops::alu::operand_fault(adj, new, r, de as int, idle as int)
    &&& !ea::misaligned_ea(at, Size::Word) ==> {
        &&& same_regs(new, crate::cpu::set_sr_spec(adj, sr))
        &&& new.pc == old.pc.wrapping_add((2 + 2 * de) as u32)
        &&& r == 4 * (de + 3) + idle + 4
    }
}

/// `MOVE <ea>,SR` (privileged) and `MOVE <ea>,CCR`.
#[verifier::rlimit(40)]
pub fn move_to_sr_ccr<B: Bus>(cpu: &mut M68k, bus: &mut B, opcode: u16, to_sr: bool) -> (r: u32)
    ensures
        move_to_sr_ccr_post(*old(cpu), *final(cpu), opcode, to_sr, r),
{
    let ghost cpu0 = *cpu;
    if to_sr {
        if let Some(c) = privilege_check(cpu, bus) {
            return c;
        }
    }
    let (mode, reg) = (field_mode(opcode), field_reg(opcode));
    if !ea::valid_ea(mode, reg) {
        return exception::illegal_instruction(cpu, bus, opcode);
    }
    let opcode_addr = cpu.pc.wrapping_sub(exception::OPCODE_PC_OFFSET);
    let ir = cpu.prefetch[0];
    let de = ea::ext_words(mode, reg, Size::Word);
    let mut ext = [0u16; 2];
    fetch_ext(cpu, bus, de, &mut ext);
    let ghost fetched = *cpu;
    let ea = ea::resolve_words(cpu, mode, reg, Size::Word, ext[0], ext[1], opcode_addr.wrapping_add(2));
    let mut acc = de;
    if let Ea::Mem(addr) = ea {
        if misaligned(addr) {
            let bump: u32 = if mode == 4 {
                4
            } else if mode == 7 && reg == 0 {
                4
            } else if mode == 7 && reg == 1 {
                6
            } else {
                2
            };
            let ghost at_fault = *cpu;
            exception::address_error(
                cpu,
                bus,
                addr,
                FaultKind::Read,
                operand_space(mode, reg),
                ir,
                opcode_addr.wrapping_add(bump),
            );
            let lead = idle_lead(mode, reg);
            let c = 4 * de + lead + exception::entry_cycles(cpu, 0, ADDRESS_ERROR_TAIL_CYCLES);
            proof {
                ea::lemma_resolve_frame(fetched, cpu0, mode, reg, Size::Word, ext[0], ext[1], ext[1], opcode_addr.wrapping_add(2));
                let adj = ea::adjusted(cpu0, mode, reg, Size::Word);
                assert(at_fault.a =~= adj.a);
                crate::ops::alu::lemma_fault_frame(at_fault, adj, *cpu, c, de as int, lead as int);
                assert(sr_from_memory(cpu0, *cpu, opcode, to_sr, c, ext[0], ext[1], 0));
            }
            return c;
        }
    }
    let ghost resolved = *cpu;
    let val = ea::read(cpu, bus, ea, Size::Word) as u16;
    proof {
        if mode == 0 {
            let d = cpu0.d[reg as int];
            assert((d & 0xFFFF) as u16 == d as u16) by (bit_vector);
        }
    }
    if mode_is_mem(mode, reg) {
        acc = acc + 1;
    }
    if to_sr {
        cpu.set_sr(val);
    } else {
        let v = move_to_ccr_value(cpu.sr, val);
        cpu.set_sr(v);
    }
    cpu.pc = cpu.pc.wrapping_sub(2);
    cpu.refill_prefetch(bus);
    let cycles = 4 * (acc + 2) + idle_lead(mode, reg) + 4;
    proof {
        if mode_is_mem(mode, reg) {
            ea::lemma_resolve_frame(fetched, cpu0, mode, reg, Size::Word, ext[0], ext[1], ext[1], opcode_addr.wrapping_add(2));
            let adj = ea::adjusted(cpu0, mode, reg, Size::Word);
            assert(resolved.a =~= adj.a);
            assert(sr_from_memory(cpu0, *cpu, opcode, to_sr, cycles, ext[0], ext[1], val));
        }
    }
    cycles
}

/// The addressing modes `MOVEM` accepts in each direction.
pub fn valid_movem(mode: u16, reg: u16, to_regs: bool) -> (r: bool)
    ensures
        r == (mode == 2 || mode == 5 || mode == 6 || (mode == 7 && reg <= 1) || (to_regs && (mode == 3 || (mode == 7 && (
        reg == 2 || reg == 3)))) || (!to_regs && mode == 4)),
{
    if mode == 2 {
        true
    } else if mode == 3 {
        to_regs
    } else if mode == 4 {
        !to_regs
    } else if mode == 5 || mode == 6 {
        true
    } else if mode == 7 {
        if reg == 0 || reg == 1 {
            true
        } else if reg == 2 || reg == 3 {
            to_regs
        } else {
            false
        }
    } else {
        false
    }
}

pub fn valid_control(mode: u16, reg: u16) -> (r: bool)
    ensures
        r == crate::ea::modes::is_control(mode, reg),
{
    crate::ea::modes::control(mode, reg)
}

pub fn valid_data_src(mode: u16, reg: u16) -> (r: bool)
    ensures
        r == (if mode == 1 { false } else if mode == 7 { reg <= 4 } else { true }),
{
    match mode {
        1 => false,
        7 => reg <= 4,
        _ => true,
    }
}

/// The handler this module assigns: line 4's register forms (`SWAP`, `EXT`,
/// `LINK`, `UNLK`, `MOVE USP`), `RESET`, `STOP`, `MOVEM`, `PEA`, `LEA`, the SR
/// and CCR moves, `MOVEP` (line 0) and `EXG` (line C).
pub open spec fn claim_spec(op: u16) -> Option<Handler> {
    let (mode, reg) = (op_mode(op), op_reg(op));
    let hi10 = op & 0xFFC0;
    let reg_form = op & 0xFFF8;
    let base = op & 0xFBC0;
    let to_regs = op & 0x0400 != 0;
    let movem_ok = mode == 2 || mode == 5 || mode == 6 || (mode == 7 && reg <= 1) || (to_regs && (mode == 3 || (mode == 7 && (
    reg == 2 || reg == 3)))) || (!to_regs && mode == 4);
    if op >> 12u16 == 4 {
        if reg_form == 0x4840 {
            Some(Handler::Swap)
        } else if reg_form == 0x4880 {
            Some(Handler::ExtW)
        } else if reg_form == 0x48C0 {
            Some(Handler::ExtL)
        } else if reg_form == 0x4E50 {
            Some(Handler::Link)
        } else if reg_form == 0x4E58 {
            Some(Handler::Unlk)
        } else if reg_form == 0x4E60 {
            Some(Handler::MoveToUsp)
        } else if reg_form == 0x4E68 {
            Some(Handler::MoveFromUsp)
        } else if op == 0x4E70 {
            Some(Handler::Reset)
        } else if op == 0x4E72 {
            Some(Handler::Stop)
        } else if base == 0x4880 && movem_ok {
            Some(Handler::Movem(Size::Word))
        } else if base == 0x48C0 && movem_ok {
            Some(Handler::Movem(Size::Long))
        } else if hi10 == 0x4840 && crate::ea::modes::is_control(mode, reg) {
            Some(Handler::Pea)
        } else if op & 0xF1C0 == 0x41C0 && crate::ea::modes::is_control(mode, reg) {
            Some(Handler::Lea)
        } else if hi10 == 0x40C0 && crate::ops::data_alterable_ok(mode, reg) {
            Some(Handler::MoveFromSr)
        } else if hi10 == 0x44C0 && crate::ops::data_src_ok(mode, reg) {
            Some(Handler::MoveToCcr)
        } else if hi10 == 0x46C0 && crate::ops::data_src_ok(mode, reg) {
            Some(Handler::MoveToSr)
        } else {
            None
        }
    } else if op >> 12u16 == 0 && mode == 1 && op & 0x0100 != 0 {
        let opmode = (op >> 6u16) & 7;
        Some(Handler::Movep(if opmode == 4 || opmode == 6 { Size::Word } else { Size::Long }))
    } else if op >> 12u16 == 0xC && (op & 0x01F8 == 0x0140 || op & 0x01F8 == 0x0148 || op & 0x01F8 == 0x0188) {
        Some(Handler::Exg)
    } else {
        None
    }
}

/// The handler this module assigns to `op`, if any.
pub fn claim(op: u16) -> (r: Option<Handler>)
    ensures
        r == claim_spec(op),
{
    let mode = field_mode(op);
    let reg = field_reg(op);
    let hi10 = op & 0xFFC0;
    if op >> 12 == 4 {
        // Single-register forms first; they overlap the <ea> forms at mode 0.
        let reg_form = op & 0xFFF8;
        if reg_form == 0x4840 {
            return Some(Handler::Swap);
        }
        if reg_form == 0x4880 {
            return Some(Handler::ExtW);
        }
        if reg_form == 0x48C0 {
            return Some(Handler::ExtL);
        }
        if reg_form == 0x4E50 {
            return Some(Handler::Link);
        }
        if reg_form == 0x4E58 {
            return Some(Handler::Unlk);
        }
        if reg_form == 0x4E60 {
            return Some(Handler::MoveToUsp);
        }
        if reg_form == 0x4E68 {
            return Some(Handler::MoveFromUsp);
        }
        if op == 0x4E70 {
            return Some(Handler::Reset);
        }
        if op == 0x4E72 {
            return Some(Handler::Stop);
        }
        let base = op & 0xFBC0;
        let to_regs = op & 0x0400 != 0;
        if base == 0x4880 && valid_movem(mode, reg, to_regs) {
            return Some(Handler::Movem(Size::Word));
        }
        if base == 0x48C0 && valid_movem(mode, reg, to_regs) {
            return Some(Handler::Movem(Size::Long));
        }
        if hi10 == 0x4840 && valid_control(mode, reg) {
            return Some(Handler::Pea);
        }
        if (op & 0xF1C0) == 0x41C0 && valid_control(mode, reg) {
            return Some(Handler::Lea);
        }
        if hi10 == 0x40C0 && valid_data_alterable(mode, reg) {
            return Some(Handler::MoveFromSr);
        }
        if hi10 == 0x44C0 && valid_data_src(mode, reg) {
            return Some(Handler::MoveToCcr);
        }
        if hi10 == 0x46C0 && valid_data_src(mode, reg) {
            return Some(Handler::MoveToSr);
        }
        return None;
    }
    if op >> 12 == 0 && mode == 1 && (op & 0x0100) != 0 {
        let opmode = (op >> 6) & 7;
        return Some(Handler::Movep(if opmode == 4 || opmode == 6 {
            Size::Word
        } else {
            Size::Long
        }));
    }
    if op >> 12 == 0xC {
        let sel = op & 0x01F8;
        if sel == 0x0140 || sel == 0x0148 || sel == 0x0188 {
            return Some(Handler::Exg);
        }
    }
    None
}

/// Installs this family's handlers into the dispatch table: the opcodes
/// `claim_spec` gives a handler get it, the others keep theirs.
pub fn register(table: &mut Vec<Handler>)
    requires
        old(table).len() == 65536,
    ensures
        final(table).len() == 65536,
        forall|i: int|
            0 <= i < 65536 ==> #[trigger] final(table)@[i] == (match claim_spec(i as u16) {
                Some(h) => h,
                None => old(table)@[i],
            }),
{
    crate::ops::install(table, 8);
}

/// `SWAP` twice is the identity: the halves go back where they were.
pub proof fn swap_twice_is_identity(v: u32)
    ensures
        swap_spec(swap_spec(v)) == v,
{
    assert(((((v >> 16u32) | (v << 16u32)) >> 16u32) | (((v >> 16u32) | (v << 16u32)) << 16u32)) == v) by (bit_vector);
}

/// `EXG` of two data or two address registers twice is the identity.
pub proof fn exg_twice_is_identity(cpu: M68k, opcode: u16)
    requires
        (opcode >> 3u16) & 0x1F == 0x08 || (opcode >> 3u16) & 0x1F == 0x09,
    ensures
        exg_spec(exg_spec(cpu, opcode), opcode).d@ == cpu.d@,
        exg_spec(exg_spec(cpu, opcode), opcode).a@ == cpu.a@,
{
    assert((opcode >> 9u16) & 7 < 8 && opcode & 7 < 8) by (bit_vector);
    let twice = exg_spec(exg_spec(cpu, opcode), opcode);
    assert(twice.d@ =~= cpu.d@);
    assert(twice.a@ =~= cpu.a@);
}

} // verus!
