//! Exception entry.
//!
//! Every exception pushes a frame on the supervisor stack, enters supervisor
//! mode with T clear, and loads the PC from its vector. A fault raised while an
//! exception is already being entered, or a frame that would land on an odd
//! stack pointer, is a double bus fault: the CPU halts instead.

use crate::bus::{Access, Bus};
use crate::cpu::{refill_accesses, set_sr_spec, M68k, ADDR_MASK, SR_MASK, SR_S, SR_T};
use vstd::prelude::*;

verus! {

broadcast use crate::bus::lemma_masked_address;

pub const VEC_BUS_ERROR: u8 = 2;

pub const VEC_ADDRESS_ERROR: u8 = 3;

pub const VEC_ILLEGAL: u8 = 4;

pub const VEC_DIVIDE_BY_ZERO: u8 = 5;

pub const VEC_CHK: u8 = 6;

pub const VEC_TRAPV: u8 = 7;

pub const VEC_PRIVILEGE: u8 = 8;

pub const VEC_TRACE: u8 = 9;

pub const VEC_LINE_A: u8 = 10;

pub const VEC_LINE_F: u8 = 11;

pub const VEC_TRAP_BASE: u8 = 32;

pub const VEC_AUTOVECTOR_BASE: u8 = 24;

/// Cycles a halted entry burns beyond the accesses it made.
pub const HALTED_IDLE_CYCLES: u32 = 4;

/// Bus accesses of a short (group 1/2) exception entry: three frame writes, two
/// vector reads and two prefetch refills.
pub const SHORT_FRAME_ACCESSES: u32 = 7;

/// Cycles of a short-frame entry.
pub const SHORT_FRAME_ENTRY_CYCLES: u32 = 34;

/// Cycles an address error costs after the accesses that led up to it.
pub const ADDRESS_ERROR_TAIL_CYCLES: u32 = 58;

/// Idle cycles the interrupt acknowledge costs.
pub const IACK_AS_IDLE_CYCLES: u32 = 4;

/// Cycles of an interrupt entry.
pub const INTERRUPT_CYCLES: u32 = 44;

/// The PC is this far past the opcode of the instruction being executed.
pub const OPCODE_PC_OFFSET: u32 = 4;

/// The kind of access that faulted.
#[derive(Clone, Copy, PartialEq, Eq, Debug, Structural)]
pub enum FaultKind {
    Read,
    Write,
}

/// The address space of a faulting access.
#[derive(Clone, Copy, PartialEq, Eq, Debug, Structural)]
pub enum Space {
    Data,
    Program,
}

/// The supervisor stack pointer as the frame will use it: `a[7]` in supervisor
/// mode, the inactive `ssp` slot in user mode.
pub open spec fn frame_base_spec(cpu: M68k) -> u32 {
    if cpu.sr & SR_S != 0 { cpu.a[7] } else { cpu.ssp }
}

/// A double bus fault: already entering an exception, or an odd frame base.
pub open spec fn double_fault_spec(cpu: M68k) -> bool {
    cpu.in_exception || frame_base_spec(cpu) & 1 != 0
}

/// Pushes a word on the active stack and records it in the matching slot.
pub fn push16<B: Bus>(cpu: &mut M68k, bus: &mut B, val: u16)
    ensures
        final(cpu).a[7] == old(cpu).a[7].wrapping_sub(2),
        final(cpu).sr == old(cpu).sr,
        old(cpu).sr & SR_S != 0 ==> final(cpu).ssp == final(cpu).a[7] && final(cpu).usp == old(cpu).usp,
        old(cpu).sr & SR_S == 0 ==> final(cpu).usp == final(cpu).a[7] && final(cpu).ssp == old(cpu).ssp,
        forall|i: int| 0 <= i < 7 ==> final(cpu).a[i] == old(cpu).a[i],
        final(cpu).d == old(cpu).d,
        final(bus).log() == old(bus).log().push(Access::Write16 { addr: final(cpu).a[7] & ADDR_MASK, val }),
{
    cpu.a[7] = cpu.a[7].wrapping_sub(2);
    bus.write16(cpu.a[7] & ADDR_MASK, val);
    if cpu.sr_s() {
        cpu.ssp = cpu.a[7];
    } else {
        cpu.usp = cpu.a[7];
    }
}

fn frame_base(cpu: &M68k) -> (r: u32)
    ensures
        r == frame_base_spec(*cpu),
{
    if cpu.sr_s() {
        cpu.a[7]
    } else {
        cpu.ssp
    }
}

fn double_bus_fault(cpu: &mut M68k) -> (r: bool)
    ensures
        r == double_fault_spec(*old(cpu)),
        r ==> *final(cpu) == (M68k { halted: true, ..*old(cpu) }),
        !r ==> *final(cpu) == *old(cpu),
{
    if cpu.in_exception || frame_base(cpu) & 1 != 0 {
        cpu.halted = true;
        return true;
    }
    false
}

/// The cycles an exception entry costs: the full `framed` figure normally, and
/// only the accesses it really made plus a short idle if it halted instead.
pub open spec fn entry_cycles_spec(halted: bool, accesses_made: u32, framed: u32) -> u32 {
    if halted { (4 * accesses_made + HALTED_IDLE_CYCLES) as u32 } else { framed }
}

pub fn entry_cycles(cpu: &M68k, accesses_made: u32, framed: u32) -> (r: u32)
    requires
        4 * accesses_made + HALTED_IDLE_CYCLES <= u32::MAX,
    ensures
        r == entry_cycles_spec(cpu.halted, accesses_made, framed),
{
    if cpu.halted {
        4 * accesses_made + HALTED_IDLE_CYCLES
    } else {
        framed
    }
}

/// The registers an exception entry leaves behind, apart from the SR, the PC
/// and the queue (which come from the vector in memory): the frame pushed
/// below the frame base, `ssp` holding the new stack pointer, and the user
/// stack pointer saved if the CPU was in user mode.
pub open spec fn entered_frame(old: M68k, new: M68k, frame_bytes: u32) -> bool {
    let s = set_sr_spec(old, (old.sr | SR_S) & !SR_T);
    &&& new.d == old.d
    &&& forall|i: int| 0 <= i < 7 ==> new.a[i] == old.a[i]
    &&& new.a[7] == frame_base_spec(old).wrapping_sub(frame_bytes)
    &&& new.ssp == new.a[7]
    &&& new.usp == s.usp
    &&& new.halted == old.halted && !new.in_exception
    &&& new.stopped == old.stopped && new.pending_irq == old.pending_irq
}

/// Whether an exception entry double-faults and what it leaves depend only
/// on the registers it starts from.
pub proof fn lemma_entry_frame(x: M68k, y: M68k, new: M68k, frame_bytes: u32)
    requires
        crate::cpu::same_regs(x, y),
    ensures
        double_fault_spec(x) == double_fault_spec(y),
        entered(x, new, frame_bytes) == entered(y, new, frame_bytes),
{
    assert(set_sr_spec(x, (x.sr | SR_S) & !SR_T).usp == set_sr_spec(y, (y.sr | SR_S) & !SR_T).usp);
}

/// The state an exception entry leaves behind, apart from the PC and the
/// queue: the registers of [`entered_frame`], and supervisor mode with T
/// clear.
pub open spec fn entered(old: M68k, new: M68k, frame_bytes: u32) -> bool {
    &&& entered_frame(old, new, frame_bytes)
    &&& new.sr == ((old.sr | SR_S) & !SR_T) & SR_MASK
}

/// A halted entry changes nothing but the halt flag.
pub open spec fn halted_from(old: M68k, new: M68k) -> bool {
    new == (M68k { halted: true, ..old })
}

/// The reads of an exception vector `vector` and the queue refill from the
/// PC they give, from the bus record `log0` to `log1`, with `new` the CPU
/// after them.
pub open spec fn vector_accesses(log0: Seq<Access>, log1: Seq<Access>, vector: u8, new: M68k) -> bool {
    exists|hi: u16, lo: u16|
        {
            let target = ((hi as u32) << 16u32) | lo as u32;
            &&& log1 == log0 + #[trigger] vector_reads(vector, hi, lo) + refill_accesses(target, new.prefetch[0], new.prefetch[1])
            &&& new.pc == target.wrapping_add(4)
        }
}

/// The two reads of exception vector `vector`, which give the words `hi`
/// and `lo` of the handler's address.
pub open spec fn vector_reads(vector: u8, hi: u16, lo: u16) -> Seq<Access> {
    let vaddr = ((vector as u32) * 4) as u32;
    seq![
        Access::Read16 { addr: vaddr & ADDR_MASK, val: hi },
        Access::Read16 { addr: ((vaddr + 2) as u32) & ADDR_MASK, val: lo },
    ]
}

/// The accesses of a group-1/2 exception entry, from the bus record `log0`
/// to `log1`: the PC's low word at `base - 2`, the SR at `base - 6` and the
/// PC's high word at `base - 4`, then the vector and the refill.
pub open spec fn short_frame_accesses(log0: Seq<Access>, log1: Seq<Access>, base: u32, sr: u16, pc: u32, vector: u8, new: M68k) -> bool {
    vector_accesses(
        log0 + seq![
            Access::Write16 { addr: base.wrapping_sub(2) & ADDR_MASK, val: (pc & 0xFFFF) as u16 },
            Access::Write16 { addr: base.wrapping_sub(6) & ADDR_MASK, val: sr },
            Access::Write16 { addr: base.wrapping_sub(4) & ADDR_MASK, val: (pc >> 16u32) as u16 },
        ],
        log1,
        vector,
        new,
    )
}

/// An entry through `vector` taken from `cpu` with the queue as it is: the
/// frame stacks the PC of the instruction the queue holds; a double bus
/// fault makes no access.
pub open spec fn entry_in_place(cpu: M68k, log0: Seq<Access>, log1: Seq<Access>, vector: u8, new: M68k) -> bool {
    &&& double_fault_spec(cpu) ==> log1 == log0
    &&& !double_fault_spec(cpu) ==> short_frame_accesses(log0, log1, frame_base_spec(cpu), cpu.sr, cpu.pc.wrapping_sub(OPCODE_PC_OFFSET), vector, new)
}

/// An entry through `vector` taken from a stopped `cpu`, which first refills
/// its queue from the PC (the words `w0`, `w1`).
pub open spec fn entry_after_refill(cpu: M68k, log0: Seq<Access>, log1: Seq<Access>, vector: u8, new: M68k, w0: u16, w1: u16) -> bool {
    let mid = log0 + refill_accesses(cpu.pc, w0, w1);
    &&& double_fault_spec(cpu) ==> log1 == mid
    &&& !double_fault_spec(cpu) ==> short_frame_accesses(
        mid,
        log1,
        frame_base_spec(cpu),
        cpu.sr,
        cpu.pc.wrapping_add(4).wrapping_sub(OPCODE_PC_OFFSET),
        vector,
        new,
    )
}

/// The accesses of an entry through `vector` at an instruction boundary: a
/// stopped CPU refills its queue first.
pub open spec fn boundary_entry_accesses(cpu: M68k, log0: Seq<Access>, log1: Seq<Access>, vector: u8, new: M68k) -> bool {
    if cpu.stopped {
        exists|w0: u16, w1: u16| #[trigger] entry_after_refill(cpu, log0, log1, vector, new, w0, w1)
    } else {
        entry_in_place(cpu, log0, log1, vector, new)
    }
}

/// The vector an unclaimed opcode takes: line A (10), line F (11), or the
/// illegal instruction (4).
pub open spec fn illegal_vector(op: u16) -> u8 {
    if op >> 12u16 == 0xA {
        VEC_LINE_A
    } else if op >> 12u16 == 0xF {
        VEC_LINE_F
    } else {
        VEC_ILLEGAL
    }
}

/// Takes a group-1/2 exception: pushes PC and SR, enters supervisor mode with T
/// clear, and jumps through `vector`.
pub fn take<B: Bus>(cpu: &mut M68k, bus: &mut B, vector: u8, pc_for_frame: u32)
    ensures
        double_fault_spec(*old(cpu)) ==> halted_from(*old(cpu), *final(cpu)),
        !double_fault_spec(*old(cpu)) ==> entered(*old(cpu), *final(cpu), 6)
            && final(cpu).trace_pending == old(cpu).trace_pending,
        double_fault_spec(*old(cpu)) ==> final(bus).log() == old(bus).log(),
        !double_fault_spec(*old(cpu)) ==> short_frame_accesses(
            old(bus).log(),
            final(bus).log(),
            frame_base_spec(*old(cpu)),
            old(cpu).sr,
            pc_for_frame,
            vector,
            *final(cpu),
        ),
{
    if double_bus_fault(cpu) {
        return;
    }
    cpu.in_exception = true;
    let old_sr = cpu.sr;
    proof {
        lemma_entered_sr(old_sr);
    }
    cpu.set_sr((old_sr | SR_S) & !SR_T);
    let old_sp = cpu.a[7];
    bus.write16((old_sp.wrapping_sub(2)) & ADDR_MASK, (pc_for_frame & 0xFFFF) as u16);
    bus.write16((old_sp.wrapping_sub(6)) & ADDR_MASK, old_sr);
    bus.write16((old_sp.wrapping_sub(4)) & ADDR_MASK, (pc_for_frame >> 16) as u16);
    let ghost framed = bus.log();
    proof {
        assert(old_sp == frame_base_spec(*old(cpu)));
        assert(framed =~= old(bus).log() + seq![
            Access::Write16 { addr: old_sp.wrapping_sub(2) & ADDR_MASK, val: (pc_for_frame & 0xFFFF) as u16 },
            Access::Write16 { addr: old_sp.wrapping_sub(6) & ADDR_MASK, val: old_sr },
            Access::Write16 { addr: old_sp.wrapping_sub(4) & ADDR_MASK, val: (pc_for_frame >> 16u32) as u16 },
        ]);
    }
    cpu.a[7] = old_sp.wrapping_sub(6);
    cpu.ssp = cpu.a[7];
    let addr = (vector as u32) * 4;
    let hi16 = bus.read16(addr & ADDR_MASK);
    let lo16 = bus.read16((addr + 2) & ADDR_MASK);
    let hi = hi16 as u32;
    let lo = lo16 as u32;
    cpu.pc = (hi << 16) | lo;
    let ghost vec_read = bus.log();
    cpu.refill_prefetch(bus);
    cpu.in_exception = false;
    proof {
        assert(vec_read =~= framed + vector_reads(vector, hi16, lo16));
        assert(bus.log() =~= framed + vector_reads(vector, hi16, lo16) + refill_accesses(
            ((hi16 as u32) << 16u32) | lo16 as u32,
            cpu.prefetch[0],
            cpu.prefetch[1],
        ));
    }
}

/// The status word of an address-error frame: the instruction register's
/// upper bits, the read/write bit, and the function code (supervisor or
/// user, program or data).
pub open spec fn fault_status(ir: u16, kind: FaultKind, space: Space, supervisor: bool) -> u16 {
    (ir & 0xFFE0) | (match kind {
        FaultKind::Read => 0x10u16,
        FaultKind::Write => 0u16,
    }) | ((if supervisor { 4u16 } else { 0u16 }) | (match space {
        Space::Program => 2u16,
        Space::Data => 1u16,
    }))
}

/// The seven word writes of an address-error frame below `base`, in the
/// order the 68000 makes them: the PC's low word, the SR, the PC's high word,
/// the instruction register, the fault address's low word, the status word
/// and the fault address's high word.
pub open spec fn long_frame_writes(base: u32, sr: u16, pc: u32, ir: u16, fault_addr: u32, status: u16) -> Seq<Access> {
    seq![
        Access::Write16 { addr: base.wrapping_sub(2) & ADDR_MASK, val: pc as u16 },
        Access::Write16 { addr: base.wrapping_sub(6) & ADDR_MASK, val: sr },
        Access::Write16 { addr: base.wrapping_sub(4) & ADDR_MASK, val: (pc >> 16u32) as u16 },
        Access::Write16 { addr: base.wrapping_sub(8) & ADDR_MASK, val: ir },
        Access::Write16 { addr: base.wrapping_sub(10) & ADDR_MASK, val: fault_addr as u16 },
        Access::Write16 { addr: base.wrapping_sub(14) & ADDR_MASK, val: status },
        Access::Write16 { addr: base.wrapping_sub(12) & ADDR_MASK, val: (fault_addr >> 16u32) as u16 },
    ]
}

/// Takes an address error: the 14-byte group-0 frame, then vector 3. The
/// aborted instruction owes no trace, so the pending trace is withdrawn.
pub fn address_error<B: Bus>(
    cpu: &mut M68k,
    bus: &mut B,
    fault_addr: u32,
    kind: FaultKind,
    space: Space,
    ir: u16,
    pc_for_frame: u32,
)
    ensures
        double_fault_spec(*old(cpu)) ==> halted_from(*old(cpu), *final(cpu)),
        !double_fault_spec(*old(cpu)) ==> entered(*old(cpu), *final(cpu), 14) && !final(cpu).trace_pending,
        double_fault_spec(*old(cpu)) ==> final(bus).log() == old(bus).log(),
        !double_fault_spec(*old(cpu)) ==> vector_accesses(
            old(bus).log() + long_frame_writes(
                frame_base_spec(*old(cpu)),
                old(cpu).sr,
                pc_for_frame,
                ir,
                fault_addr,
                fault_status(ir, kind, space, old(cpu).sr & SR_S != 0),
            ),
            final(bus).log(),
            VEC_ADDRESS_ERROR,
            *final(cpu),
        ),
{
    if double_bus_fault(cpu) {
        return;
    }
    cpu.in_exception = true;
    let fc: u16 = (if cpu.sr_s() { 4u16 } else { 0 }) | match space {
        Space::Program => 2,
        Space::Data => 1,
    };
    let status: u16 = (ir & 0xFFE0) | match kind {
        FaultKind::Read => 0x10u16,
        FaultKind::Write => 0,
    } | fc;
    let old_sr = cpu.sr;
    proof {
        lemma_entered_sr(old_sr);
    }
    cpu.set_sr((old_sr | SR_S) & !SR_T);
    let base = cpu.a[7];
    bus.write16(base.wrapping_sub(2) & ADDR_MASK, pc_for_frame as u16);
    bus.write16(base.wrapping_sub(6) & ADDR_MASK, old_sr);
    bus.write16(base.wrapping_sub(4) & ADDR_MASK, (pc_for_frame >> 16) as u16);
    bus.write16(base.wrapping_sub(8) & ADDR_MASK, ir);
    bus.write16(base.wrapping_sub(10) & ADDR_MASK, fault_addr as u16);
    bus.write16(base.wrapping_sub(14) & ADDR_MASK, status);
    bus.write16(base.wrapping_sub(12) & ADDR_MASK, (fault_addr >> 16) as u16);
    let ghost framed = bus.log();
    proof {
        assert(base == frame_base_spec(*old(cpu)));
        assert(framed =~= old(bus).log() + long_frame_writes(base, old_sr, pc_for_frame, ir, fault_addr, status));
    }
    cpu.a[7] = base.wrapping_sub(14);
    cpu.ssp = cpu.a[7];
    let vaddr = (VEC_ADDRESS_ERROR as u32) * 4;
    let hi16 = bus.read16(vaddr & ADDR_MASK);
    let lo16 = bus.read16((vaddr + 2) & ADDR_MASK);
    let hi = hi16 as u32;
    let lo = lo16 as u32;
    cpu.pc = (hi << 16) | lo;
    let ghost vec_read = bus.log();
    cpu.refill_prefetch(bus);
    proof {
        assert(vec_read =~= framed + vector_reads(VEC_ADDRESS_ERROR, hi16, lo16));
        assert(bus.log() =~= framed + vector_reads(VEC_ADDRESS_ERROR, hi16, lo16) + refill_accesses(
            ((hi16 as u32) << 16u32) | lo16 as u32,
            cpu.prefetch[0],
            cpu.prefetch[1],
        ));
    }
    cpu.in_exception = false;
    cpu.trace_pending = false;
}

/// Whether a pending interrupt is taken: level 0 is none, level 7 is
/// non-maskable, and levels 1-6 must exceed the SR's interrupt mask.
pub open spec fn interrupt_accepted(cpu: M68k) -> bool {
    let level = cpu.pending_irq & 7;
    level != 0 && (level == 7 || (level as u16) > ((cpu.sr >> 8u16) & 7))
}

/// Samples the interrupt line at an instruction boundary. Returns the cycles of
/// the entry if an interrupt was taken, `None` (and no change) otherwise. A
/// stopped CPU is resumed first.
pub fn check_interrupts<B: Bus>(cpu: &mut M68k, bus: &mut B) -> (r: Option<u32>)
    ensures
        r is None <==> !interrupt_accepted(*old(cpu)),
        r is None ==> *final(cpu) == *old(cpu),
        r is Some ==> !final(cpu).stopped,
        r is Some && !final(cpu).halted ==> final(cpu).sr & SR_S != 0 && final(cpu).sr & SR_T == 0
            && ((final(cpu).sr >> 8u16) & 7) == (old(cpu).pending_irq & 7) as u16
            && r == Some(INTERRUPT_CYCLES),
        r is Some && !double_fault_spec(*old(cpu)) ==> entered_frame((M68k { stopped: false, ..*old(cpu) }), *final(cpu), 6),
        r is Some && double_fault_spec(*old(cpu)) ==> final(cpu).halted,
        r is None ==> final(bus).log() == old(bus).log(),
        r is Some ==> boundary_entry_accesses(
            *old(cpu),
            old(bus).log(),
            final(bus).log(),
            (VEC_AUTOVECTOR_BASE + (old(cpu).pending_irq & 7)) as u8,
            *final(cpu),
        ),
{
    let level = cpu.pending_irq & 7;
    if level == 0 {
        return None;
    }
    let mask = (cpu.sr >> 8) & 7;
    if level < 7 && (level as u16) <= mask {
        return None;
    }
    let resumed = cpu.stopped;
    if resumed {
        cpu.stopped = false;
        cpu.refill_prefetch(bus);
    }
    let ghost refilled_cpu = *cpu;
    let pc = cpu.pc.wrapping_sub(OPCODE_PC_OFFSET);
    let p = cpu.pending_irq;
    assert(p & 7 < 8) by (bit_vector);
    let ghost before = *cpu;
    take(cpu, bus, VEC_AUTOVECTOR_BASE + level, pc);
    proof {
        lemma_entered_sr(before.sr);
    }
    if !cpu.halted {
        let sr = cpu.sr;
        let new_sr = (sr & !0x0700) | ((level as u16) << 8);
        proof {
            lemma_interrupt_sr(sr, level as u16);
        }
        cpu.set_sr(new_sr);
    }
    proof {
        if resumed {
            assert(entry_after_refill(*old(cpu), old(bus).log(), bus.log(), (VEC_AUTOVECTOR_BASE + level) as u8, *cpu, refilled_cpu.prefetch[0], refilled_cpu.prefetch[1]));
        }
    }
    Some(entry_cycles(cpu, if resumed { 2 } else { 0 }, INTERRUPT_CYCLES))
}

proof fn lemma_interrupt_sr(sr: u16, level: u16)
    requires
        level < 8,
        sr & SR_S != 0,
        sr & SR_T == 0,
    ensures
        ((sr & !0x0700u16) | (level << 8u16)) & SR_S != 0,
        (((sr & !0x0700u16) | (level << 8u16)) & SR_MASK) & SR_S != 0,
        (((sr & !0x0700u16) | (level << 8u16)) & SR_MASK) & SR_T == 0,
        ((((sr & !0x0700u16) | (level << 8u16)) & SR_MASK) >> 8u16) & 7 == level,
{
    assert(((sr & !0x0700u16) | (level << 8u16)) & 0x2000 != 0 && (((sr & !0x0700u16) | (level << 8u16)) & 0xA71F) & 0x2000 != 0
        && (((sr & !0x0700u16) | (level << 8u16)) & 0xA71F) & 0x8000 == 0
        && ((((sr & !0x0700u16) | (level << 8u16)) & 0xA71F) >> 8u16) & 7 == level) by (bit_vector)
        requires
            level < 8,
            sr & 0x2000 != 0,
            sr & 0x8000 == 0,
    ;
}

/// Takes the trace exception owed by the previous instruction. A stopped CPU is
/// resumed first, so a trace always runs its handler.
pub fn take_trace<B: Bus>(cpu: &mut M68k, bus: &mut B) -> (r: u32)
    ensures
        !final(cpu).stopped,
        final(cpu).trace_pending == old(cpu).trace_pending,
        !final(cpu).halted ==> r == SHORT_FRAME_ENTRY_CYCLES && final(cpu).sr & SR_S != 0 && final(cpu).sr & SR_T == 0,
        final(cpu).halted ==> r == (if old(cpu).stopped { 12u32 } else { 4u32 }),
        !double_fault_spec(*old(cpu)) ==> entered((M68k { stopped: false, ..*old(cpu) }), *final(cpu), 6),
        double_fault_spec(*old(cpu)) ==> final(cpu).halted,
        boundary_entry_accesses(*old(cpu), old(bus).log(), final(bus).log(), VEC_TRACE, *final(cpu)),
{
    let resumed = cpu.stopped;
    if resumed {
        cpu.stopped = false;
        cpu.refill_prefetch(bus);
    }
    let pc = cpu.pc.wrapping_sub(OPCODE_PC_OFFSET);
    let ghost before = *cpu;
    take(cpu, bus, VEC_TRACE, pc);
    proof {
        if resumed {
            assert(entry_after_refill(*old(cpu), old(bus).log(), bus.log(), VEC_TRACE, *cpu, before.prefetch[0], before.prefetch[1]));
        }
    }
    proof {
        if !double_fault_spec(before) {
            lemma_entered_sr(before.sr);
        }
    }
    entry_cycles(cpu, if resumed { 2 } else { 0 }, SHORT_FRAME_ENTRY_CYCLES)
}

/// The SR an exception entry writes has S set and T clear.
pub proof fn lemma_entered_sr(sr: u16)
    ensures
        ((sr | SR_S) & !SR_T) & SR_S != 0,
        (((sr | SR_S) & !SR_T) & SR_MASK) & SR_S != 0,
        (((sr | SR_S) & !SR_T) & SR_MASK) & SR_T == 0,
{
    assert(((sr | 0x2000u16) & !0x8000u16) & 0x2000u16 != 0 && (((sr | 0x2000u16) & !0x8000u16) & 0xA71Fu16) & 0x2000u16 != 0
        && (((sr | 0x2000u16) & !0x8000u16) & 0xA71Fu16) & 0x8000u16 == 0) by (bit_vector);
}

/// What [`illegal_instruction`] guarantees: the CPU after it (`new`) and the cycles it
/// returns (`r`), from the CPU before it (`old`).
pub open spec fn illegal_instruction_post(old: M68k, new: M68k, op: u16, r: u32) -> bool {
    &&& r <= 100
    &&& double_fault_spec(old) || old.halted ==> new.halted && r == 4
    &&& double_fault_spec(old) ==> halted_from(old, new)
    &&& !double_fault_spec(old) ==> entered(old, new, 6)
    &&& !double_fault_spec(old) && !old.halted ==> r == SHORT_FRAME_ENTRY_CYCLES
}

/// Raises the illegal-instruction exception (or line A / line F) for `op`,
/// stacking the opcode's own address.
pub fn illegal_instruction<B: Bus>(cpu: &mut M68k, bus: &mut B, op: u16) -> (r: u32)
    ensures
        illegal_instruction_post(*old(cpu), *final(cpu), op, r),
        entry_in_place(*old(cpu), old(bus).log(), final(bus).log(), illegal_vector(op), *final(cpu)),
{
    let vector = if op >> 12 == 0xA {
        VEC_LINE_A
    } else if op >> 12 == 0xF {
        VEC_LINE_F
    } else {
        VEC_ILLEGAL
    };
    let pc = cpu.pc.wrapping_sub(OPCODE_PC_OFFSET);
    take(cpu, bus, vector, pc);
    entry_cycles(cpu, 0, SHORT_FRAME_ENTRY_CYCLES)
}

/// Level 7 is non-maskable: a pending level-7 interrupt is always taken,
/// while a lower level at or below the SR's mask never is.
pub proof fn level_seven_is_never_masked(cpu: M68k)
    ensures
        cpu.pending_irq & 7 == 7 ==> interrupt_accepted(cpu),
        cpu.pending_irq & 7 < 7 && (cpu.pending_irq & 7) as u16 <= (cpu.sr >> 8u16) & 7 ==> !interrupt_accepted(cpu),
{
}

} // verus!
