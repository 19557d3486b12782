//! The shared bus schedule behind the arithmetic and logic handlers.
//!
//! ```text
//! pre  = extension words consumed BEFORE the <ea>'s own (the xxxI immediate)
//! de   = ext_words(mode, reg, size)          N = 1 + pre + de
//! nr   = operand words read      nw = operand words written
//!
//!   pre program fetches, de program fetches, nr operand reads,
//!   1 program fetch (the opcode's queue advance), nw operand writes
//!
//! cycles = 4 * (nr + nw + N) + idle        dpc = 2 * N
//! ```
//!
//! Long read-modify-write destinations write descending (low word first).
//! `ADDX.l`/`SUBX.l` into `-(Ax)` split that write around the queue advance,
//! and `TAS` advances the queue after its write.

use crate::bus::Bus;
use crate::cpu::{advanced, same_regs, with_a, M68k, ADDR_MASK};
use crate::ea::{self, mode_is_mem, reg_read_spec, reg_write_spec, resolve_spec, spec_ext_words, stream_word, valid_ea, Ea, Size};
use crate::exception::{self, FaultKind, Space, ADDRESS_ERROR_TAIL_CYCLES};
use crate::ops::{arith, bcd, bits, logic, muldiv, shift};
use vstd::prelude::*;

verus! {

broadcast use crate::bus::lemma_masked_address;

/// Words a memory operand of this size occupies on the bus.
pub fn operand_words(size: Size) -> (r: u32)
    ensures
        r == (if size == Size::Long { 2u32 } else { 1u32 }),
{
    if size == Size::Long {
        2
    } else {
        1
    }
}

/// Word and long accesses fault on an odd address; byte accesses never do.
pub fn misaligned(addr: u32, size: Size) -> (r: bool)
    ensures
        r == (size != Size::Byte && addr & 1 != 0),
{
    size != Size::Byte && addr & 1 != 0
}

/// Program space iff the mode is PC-relative.
pub fn operand_space(mode: u16, reg: u16) -> (r: Space)
    ensures
        r == (if mode == 7 && (reg == 2 || reg == 3) { Space::Program } else { Space::Data }),
{
    if mode == 7 && (reg == 2 || reg == 3) {
        Space::Program
    } else {
        Space::Data
    }
}

/// The operands a handler's computation is called with.
#[derive(Clone, Copy)]
pub struct Ops {
    /// The `<ea>` operand.
    pub ea: u32,
    /// A memory-pair form's source operand; 0 when there is no pair.
    pub src: u32,
    /// The `xxxI` immediate, narrowed to the operand size; 0 without one.
    pub imm: u32,
    /// The PC to stack if the computation raises an exception: past the whole
    /// instruction.
    pub trap_pc: u32,
}

/// How an instruction finishes once its operands are in hand.
#[derive(Clone, Copy, PartialEq, Eq, Structural)]
pub enum Tail {
    /// Write this value back to the `<ea>`, after the queue advance.
    Write(u32),
    /// Advance the queue and finish; nothing goes back to the `<ea>`.
    Done,
    /// The computation raised an exception and already ran its frame.
    Trapped,
}

/// What an instruction computes from its operands.
#[derive(Clone, Copy)]
pub enum Compute {
    Arith(arith::Compute),
    Logic(logic::Compute),
    Bit(bits::Compute),
    Shift(shift::Compute),
    Nbcd,
    MulDiv(muldiv::Compute),
    /// `Scc`: the byte written is all ones or all zeros.
    SetByte(bool),
    /// `MOVE from SR`.
    ReadSr,
}

/// Register numbers inside a computation are in range, and a shift count is
/// below 64.
pub open spec fn compute_ok(c: Compute) -> bool {
    match c {
        Compute::Arith(a) => arith::compute_ok(a),
        Compute::Logic(l) => logic::compute_ok(l),
        Compute::Shift(s) => s.count <= 63,
        Compute::MulDiv(m) => muldiv::compute_ok(m),
        _ => true,
    }
}

/// What a computation does to the CPU and how the instruction finishes. A
/// trapping multiply, divide or `CHK` is only marked `Trapped` here: its
/// exception frame goes to the bus.
pub open spec fn apply_spec(cpu: M68k, c: Compute, size: Size, ops: Ops) -> (M68k, Tail) {
    match c {
        Compute::Arith(a) => arith::apply_spec(cpu, a, size, ops),
        Compute::Logic(l) => logic::apply_spec(cpu, l, size, ops),
        Compute::Bit(b) => bits::apply_spec(cpu, b, ops),
        Compute::Shift(s) => shift::apply_spec(cpu, s, size, ops),
        Compute::Nbcd => bcd::nbcd_spec(cpu, ops),
        Compute::SetByte(set) => (cpu, Tail::Write(if set { 0xFFu32 } else { 0x00u32 })),
        Compute::ReadSr => (cpu, Tail::Write(cpu.sr as u32)),
        Compute::MulDiv(m) => match muldiv::result_spec(cpu, m, ops) {
            Some(after) => (after, Tail::Done),
            None => (cpu, Tail::Trapped),
        },
    }
}

/// The idle cycles a computation itself costs on `cpu`: a multiply's,
/// divide's or `CHK`'s timing, nothing for the rest.
pub open spec fn own_idle_spec(c: Compute, cpu: M68k, ops: Ops) -> u32 {
    match c {
        Compute::MulDiv(m) => muldiv::idle_spec(cpu, m, ops),
        _ => 0,
    }
}

/// The registers a trapping computation enters its exception from.
pub open spec fn trap_regs(c: Compute, cpu: M68k, ops: Ops) -> M68k {
    match c {
        Compute::MulDiv(m) => muldiv::trap_regs_spec(cpu, m, ops),
        _ => cpu,
    }
}

/// The idle cycles a trapping computation costs before its exception.
pub open spec fn trap_idle(c: Compute, cpu: M68k, ops: Ops) -> u32 {
    match c {
        Compute::MulDiv(m) => muldiv::trap_idle_spec(cpu, m, ops),
        _ => 0,
    }
}

/// An exception entered from the registers `f` with a `frame_bytes` frame:
/// the entry, or, where it would double-fault, a halt.
pub open spec fn entry_outcome(f: M68k, new: M68k, frame_bytes: u32) -> bool {
    &&& !exception::double_fault_spec(f) ==> exception::entered(f, new, frame_bytes)
    &&& exception::double_fault_spec(f) ==> new.halted
}

/// [`entry_outcome`], taking `cycles` in all on a running CPU.
pub open spec fn exception_outcome(f: M68k, new: M68k, r: u32, cycles: int, frame_bytes: u32) -> bool {
    &&& entry_outcome(f, new, frame_bytes)
    &&& !exception::double_fault_spec(f) && !f.halted ==> r == cycles
}

/// What a trapping computation (a zero divisor, a `CHK` out of bounds) on
/// `cpu` leaves, `words` words and `lead` cycles into the instruction: its
/// exception, with a 6-byte frame, after its own idle.
pub open spec fn trap_outcome(c: Compute, cpu: M68k, ops: Ops, new: M68k, r: u32, words: int, lead: int) -> bool {
    exception_outcome(
        trap_regs(c, cpu, ops),
        new,
        r,
        4 * words + lead + trap_idle(c, cpu, ops) + 4 * exception::SHORT_FRAME_ACCESSES,
        6,
    )
}

/// Runs a computation. Returns how the instruction finishes and the idle cycles
/// the computation itself costs (multiply, divide and `CHK` timing).
fn apply<B: Bus>(cpu: &mut M68k, bus: &mut B, c: Compute, size: Size, ops: Ops) -> (r: (Tail, u32))
    requires
        compute_ok(c),
    ensures
        r.1 <= 200,
        !(apply_spec(*old(cpu), c, size, ops).1 is Trapped) ==> (*final(cpu), r.0) == apply_spec(*old(cpu), c, size, ops)
            && r.1 == own_idle_spec(c, *old(cpu), ops),
        r.0 is Trapped <==> apply_spec(*old(cpu), c, size, ops).1 is Trapped,
        r.0 is Trapped ==> r.1 == trap_idle(c, *old(cpu), ops) && entry_outcome(trap_regs(c, *old(cpu), ops), *final(cpu), 6),
{
    match c {
        Compute::Arith(a) => (arith::apply(cpu, a, size, ops), 0),
        Compute::Logic(l) => (logic::apply(cpu, l, size, ops), 0),
        Compute::Bit(b) => (bits::apply(cpu, b, ops), 0),
        Compute::Shift(s) => (shift::apply(cpu, s, size, ops), 0),
        Compute::Nbcd => (bcd::apply_nbcd(cpu, ops), 0),
        Compute::MulDiv(m) => muldiv::apply(cpu, bus, m, ops),
        Compute::SetByte(set) => (Tail::Write(if set { 0xFF } else { 0x00 }), 0),
        Compute::ReadSr => (Tail::Write(cpu.sr as u32), 0),
    }
}

/// A computation's effect on the registers and flags does not depend on the
/// PC or the prefetch queue, and it leaves those two alone.
proof fn lemma_apply_frame(x: M68k, y: M68k, c: Compute, size: Size, ops: Ops)
    requires
        same_regs(x, y),
    ensures
        same_regs(apply_spec(x, c, size, ops).0, apply_spec(y, c, size, ops).0),
        apply_spec(x, c, size, ops).1 == apply_spec(y, c, size, ops).1,
        apply_spec(x, c, size, ops).0.pc == x.pc,
        apply_spec(x, c, size, ops).0.prefetch == x.prefetch,
        own_idle_spec(c, x, ops) == own_idle_spec(c, y, ops),
        same_regs(trap_regs(c, x, ops), trap_regs(c, y, ops)),
        trap_idle(c, x, ops) == trap_idle(c, y, ops),
{
    match c {
        Compute::Arith(a) => lemma_arith_frame(x, y, a, size, ops),
        Compute::Logic(l) => {},
        Compute::Bit(b) => {},
        Compute::Shift(s) => {},
        Compute::MulDiv(m) => {},
        _ => {},
    }
}

proof fn lemma_arith_frame(x: M68k, y: M68k, a: arith::Compute, size: Size, ops: Ops)
    requires
        same_regs(x, y),
    ensures
        same_regs(arith::apply_spec(x, a, size, ops).0, arith::apply_spec(y, a, size, ops).0),
        arith::apply_spec(x, a, size, ops).1 == arith::apply_spec(y, a, size, ops).1,
        arith::apply_spec(x, a, size, ops).0.pc == x.pc,
        arith::apply_spec(x, a, size, ops).0.prefetch == x.prefetch,
{
    match a {
        arith::Compute::EaDn { .. } => {},
        arith::Compute::Addr { .. } => {},
        arith::Compute::Extended { .. } => {},
        arith::Compute::Single(_) => {},
        _ => {},
    }
}

/// One instruction's schedule, fixed before any bus cycle happens.
#[derive(Clone, Copy)]
pub struct Plan {
    /// Operand size, governing the bus width and the alignment check.
    pub size: Size,
    /// The `<ea>`; for a memory-pair form, the destination in its real mode.
    pub mode: u16,
    pub reg: u16,
    /// Extension words consumed before the `<ea>`'s own (the `xxxI` immediate).
    pub pre: u32,
    /// The handler intends the result to go back to a memory `<ea>`.
    pub writes: bool,
    /// Trailing idle cycles.
    pub idle: u32,
    /// The memory-pair form's source `(mode, reg)`, resolved first.
    pub pair: Option<(u16, u16)>,
    /// Read a long operand low word first (`ADDX`/`SUBX`'s memory form).
    pub desc_reads: bool,
    /// Advance the queue after the write-back rather than before (`TAS`).
    pub fetch_last: bool,
}

impl Plan {
    /// A plan for an ordinary single-`<ea>` instruction.
    pub fn new(size: Size, mode: u16, reg: u16) -> (p: Self)
        ensures
            p.size == size && p.mode == mode && p.reg == reg,
            p.pre == 0 && !p.writes && p.idle == 0 && p.pair is None && !p.desc_reads && !p.fetch_last,
    {
        Plan { size, mode, reg, pre: 0, writes: false, idle: 0, pair: None, desc_reads: false, fetch_last: false }
    }

    pub fn writes(self) -> (p: Self)
        ensures
            p == (Plan { writes: true, ..self }),
    {
        Plan { writes: true, ..self }
    }

    /// Advance the queue after the write-back (`TAS`'s memory form).
    pub fn fetch_last(self) -> (p: Self)
        ensures
            p == (Plan { fetch_last: true, ..self }),
    {
        Plan { fetch_last: true, ..self }
    }

    pub fn pre(self, words: u32) -> (p: Self)
        ensures
            p == (Plan { pre: words, ..self }),
    {
        Plan { pre: words, ..self }
    }

    pub fn idle(self, cycles: u32) -> (p: Self)
        ensures
            p == (Plan { idle: cycles, ..self }),
    {
        Plan { idle: cycles, ..self }
    }

    /// Marks this as a memory-pair form with the given source mode/register.
    pub fn pair(self, src_mode: u16, src_reg: u16, desc_reads: bool) -> (p: Self)
        ensures
            p == (Plan { pair: Some((src_mode, src_reg)), desc_reads, ..self }),
    {
        Plan { pair: Some((src_mode, src_reg)), desc_reads, ..self }
    }
}

/// The plan for a single `<ea>` with no memory pair, read ascending and
/// advancing the queue before any write-back.
pub open spec fn plan_of(size: Size, mode: u16, reg: u16, pre: u32, writes: bool, idle: u32) -> Plan {
    Plan { size, mode, reg, pre, writes, idle, pair: None, desc_reads: false, fetch_last: false }
}

/// The plan for a memory-pair form: source `(mode, src_reg)`, destination
/// `(mode, reg)`, no immediate and no trailing idle.
pub open spec fn pair_plan_of(size: Size, mode: u16, reg: u16, writes: bool, src_reg: u16, desc_reads: bool) -> Plan {
    Plan { pair: Some((mode, src_reg)), desc_reads, ..plan_of(size, mode, reg, 0, writes, 0) }
}

/// A plan the schedule can run: a real `<ea>`, at most two immediate words, a
/// bounded idle, and a pair source that is `(An)+` or `-(An)`.
pub open spec fn plan_ok(p: Plan) -> bool {
    &&& valid_ea(p.mode, p.reg)
    &&& p.pre <= 2
    &&& p.idle <= 200
    &&& match p.pair {
        Some((m, r)) => (m == 3 || m == 4) && r < 8,
        None => true,
    }
}

/// Reads an operand, honouring `desc_reads` for a long memory operand.
fn read_operand<B: Bus>(cpu: &M68k, bus: &mut B, ea: Ea, size: Size, desc: bool) -> (v: u32)
    requires
        ea::ea_ok(ea),
    ensures
        !(ea is Mem) ==> v == ea::reg_read_spec(*cpu, ea, size),
        ea is Mem ==> v & size.spec_mask() == v,
{
    match ea {
        Ea::Mem(addr) => {
            if desc && size == Size::Long {
                let a = addr & ADDR_MASK;
                let lo = bus.read16(a.wrapping_add(2) & ADDR_MASK) as u32;
                let hi = bus.read16(a) as u32;
                let v = (hi << 16) | lo;
                proof {
                    ea::lemma_word_parts(0, 0, 0, 0, v);
                }
                v
            } else {
                ea::read(cpu, bus, ea, size)
            }
        },
        _ => ea::read(cpu, bus, ea, size),
    }
}

/// Address of the first word a read of `addr` touches, which is the one that faults.
fn first_access(addr: u32, size: Size, desc: bool) -> (r: u32)
    ensures
        r == (if desc && size == Size::Long { addr.wrapping_add(2) } else { addr }),
{
    if desc && size == Size::Long {
        addr.wrapping_add(2)
    } else {
        addr
    }
}

/// One queue advance, recording the new word in the instruction's word stream.
fn fetch<B: Bus>(cpu: &mut M68k, bus: &mut B, words: &mut [u16; 6], n_have: &mut usize, acc: &mut u32)
    requires
        2 <= *old(n_have) <= 6,
        *old(acc) < 100,
    ensures
        2 <= *final(n_have) <= 6,
        final(words)[1] == old(words)[1],
        forall|k: int| 0 <= k < 6 && k != *old(n_have) ==> final(words)[k] == old(words)[k],
        *old(n_have) < 6 ==> final(words)[*old(n_have) as int] == final(cpu).prefetch[1],
        *final(acc) == *old(acc) + 1,
        advanced(*old(cpu), *final(cpu)),
{
    cpu.consume_opcode(bus);
    if *n_have < 6 {
        words[*n_have] = cpu.prefetch[1];
        *n_have = *n_have + 1;
    }
    *acc = *acc + 1;
}

/// A plan whose operands are all known before its first bus cycle: no memory
/// pair, at most a one-word leading immediate, and a register `<ea>` or a
/// one-word immediate `<ea>` with no leading immediate.
pub open spec fn direct_plan(p: Plan) -> bool {
    &&& p.pair is None
    &&& p.pre <= 1
    &&& (p.mode <= 1 || (p.mode == 7 && p.reg == 4 && p.pre == 0 && p.size != Size::Long))
}

/// The location a direct plan's `<ea>` names: the queue's next word serves as
/// the immediate.
pub open spec fn direct_ea(cpu: M68k, p: Plan) -> Ea {
    resolve_spec(cpu, p.mode, p.reg, p.size, cpu.prefetch[1], 0, 0)
}

/// The operands a direct plan computes with.
pub open spec fn direct_ops(cpu: M68k, p: Plan) -> Ops {
    Ops {
        ea: reg_read_spec(cpu, direct_ea(cpu, p), p.size),
        src: 0,
        imm: if p.pre == 1 { cpu.prefetch[1] as u32 & p.size.spec_mask() } else { 0 },
        trap_pc: cpu.pc.wrapping_sub(exception::OPCODE_PC_OFFSET).wrapping_add(2).wrapping_add((2 * p.pre) as u32)
            .wrapping_add((2 * spec_ext_words(p.mode, p.reg, p.size)) as u32),
    }
}

/// The registers and flags after a direct plan: the computation's effect, then
/// its result written back to a register `<ea>`.
pub open spec fn direct_effect(cpu: M68k, p: Plan, c: Compute) -> M68k {
    let (after, tail) = apply_spec(cpu, c, p.size, direct_ops(cpu, p));
    match tail {
        Tail::Write(v) => reg_write_spec(after, direct_ea(cpu, p), p.size, v),
        _ => after,
    }
}

/// Words a plan occupies in the instruction stream: the opcode, the leading
/// immediate and the `<ea>`'s extension words.
pub open spec fn plan_words(p: Plan) -> u32 {
    (1 + p.pre + spec_ext_words(p.mode, p.reg, p.size)) as u32
}

/// Whether a direct plan's computation traps (a zero divisor, a `CHK` out of
/// bounds).
pub open spec fn direct_traps(cpu: M68k, p: Plan, c: Compute) -> bool {
    apply_spec(cpu, c, p.size, direct_ops(cpu, p)).1 is Trapped
}

/// What a direct plan that does not trap does: registers and flags as
/// `direct_effect` says, the queue advanced once per instruction word, and 4
/// cycles per word plus the plan's idle and the computation's own.
pub open spec fn direct_result(old: M68k, new: M68k, p: Plan, c: Compute, r: u32) -> bool {
    &&& same_regs(new, direct_effect(old, p, c))
    &&& new.pc == old.pc.wrapping_add((2 * plan_words(p)) as u32)
    &&& plan_words(p) == 1 ==> new.prefetch[0] == old.prefetch[1]
    &&& r == 4 * plan_words(p) + p.idle + own_idle_spec(c, old, direct_ops(old, p))
}

/// What a direct plan whose computation traps does: the exception, after the
/// instruction's extension words.
pub open spec fn direct_trap(old: M68k, new: M68k, p: Plan, c: Compute, r: u32) -> bool {
    trap_outcome(c, old, direct_ops(old, p), new, r, plan_words(p) - 1, p.idle as int)
}

/// A plan whose one `<ea>` is in memory, with no memory pair.
pub open spec fn indirect_plan(p: Plan) -> bool {
    p.pair is None && ea::spec_mode_is_mem(p.mode, p.reg)
}

/// The CPU once an indirect plan has resolved its `<ea>`: `(An)+` and `-(An)`
/// move the address register by the step.
pub open spec fn indirect_adjusted(cpu: M68k, p: Plan) -> M68k {
    let r = p.reg as int;
    let step = p.size.spec_step(p.reg as usize);
    if p.mode == 3 {
        with_a(cpu, r, cpu.a[r].wrapping_add(step))
    } else if p.mode == 4 {
        with_a(cpu, r, cpu.a[r].wrapping_sub(step))
    } else {
        cpu
    }
}

/// The memory `<ea>` an indirect plan names from `cpu`, where the opcode was
/// fetched, given the words `w2`, `w3`, `w4` that reach the queue after its
/// second one: the extension words follow any immediate in the stream, and
/// PC-relative modes count from the first of them.
pub open spec fn indirect_ea(cpu: M68k, p: Plan, w2: u16, w3: u16, w4: u16) -> Ea {
    resolve_spec(
        cpu,
        p.mode,
        p.reg,
        p.size,
        stream_word(cpu, w2, w3, w4, 1 + p.pre),
        stream_word(cpu, w2, w3, w4, 2 + p.pre),
        cpu.pc.wrapping_sub(exception::OPCODE_PC_OFFSET).wrapping_add(2).wrapping_add((2 * p.pre) as u32),
    )
}

/// Whether an indirect plan's operand access is misaligned: a word or long at
/// an odd address, which raises an address error.
pub open spec fn indirect_faults(cpu: M68k, p: Plan, w2: u16, w3: u16, w4: u16) -> bool {
    ea::misaligned_ea(indirect_ea(cpu, p, w2, w3, w4), p.size)
}

/// What a plan with a memory `<ea>` does from `cpu`, where that `<ea>` is
/// about to be resolved: `v` is the operand it reads (of the plan's size), `s`
/// a pair form's source and `imm` the immediate (0 where there is none),
/// `acc0` words are already accounted for, `lead` cycles of address step are
/// owed, and a trapping computation would stack `trap_pc`. Registers and flags
/// are as the computation says on the adjusted CPU (a result goes back to
/// memory, not to a register), the queue advances past any extension word and
/// the next opcode, and each word read, written and fetched costs 4 cycles,
/// plus the lead and the idles.
pub open spec fn operand_outcome(
    cpu: M68k,
    new: M68k,
    p: Plan,
    c: Compute,
    r: u32,
    s: u32,
    v: u32,
    imm: u32,
    acc0: u32,
    lead: u32,
    trap_pc: u32,
) -> bool {
    let de = spec_ext_words(p.mode, p.reg, p.size);
    let ops = Ops { ea: v, src: s, imm, trap_pc };
    let (after, tail) = apply_spec(indirect_adjusted(cpu, p), c, p.size, ops);
    let w: u32 = if p.size == Size::Long { 2 } else { 1 };
    &&& v & p.size.spec_mask() == v
    &&& tail is Trapped ==> trap_outcome(c, indirect_adjusted(cpu, p), ops, new, r, acc0 + de + w, lead + p.idle)
    &&& !(tail is Trapped) ==> {
        &&& same_regs(new, after)
        &&& new.pc == cpu.pc.wrapping_add((2 + 2 * de) as u32)
        &&& r == 4 * (acc0 + 1 + de + w + (if tail is Write { w } else { 0 })) + lead + p.idle + own_idle_spec(c, indirect_adjusted(cpu, p), ops)
    }
}

/// The 2-cycle address step of `-(An)`, `(d8,An,Xn)` and `(d8,PC,Xn)`.
pub open spec fn ea_lead(p: Plan) -> u32 {
    if p.mode == 4 || p.mode == 6 || (p.mode == 7 && p.reg == 3) { 2 } else { 0 }
}

/// The CPU as an indirect plan comes to its `<ea>`: past its immediate.
pub open spec fn indirect_start(cpu: M68k, p: Plan) -> M68k {
    M68k { pc: cpu.pc.wrapping_add((2 * p.pre) as u32), ..cpu }
}

/// An indirect plan's immediate: the queue's next word, cut to the size, or,
/// for a long, that word over `lo`, the word fetched after it.
pub open spec fn indirect_imm(cpu: M68k, p: Plan, lo: u16) -> u32 {
    if p.pre == 1 {
        cpu.prefetch[1] as u32 & p.size.spec_mask()
    } else if p.pre == 2 {
        ((cpu.prefetch[1] as u32) << 16u32) | lo as u32
    } else {
        0
    }
}

/// What an indirect plan does when the operand it reads is `v` (and a long
/// immediate's low word is `lo`): a trap stacks the address past the
/// instruction's words.
pub open spec fn indirect_outcome(old: M68k, new: M68k, p: Plan, c: Compute, r: u32, v: u32, lo: u16) -> bool {
    let words = p.pre + spec_ext_words(p.mode, p.reg, p.size);
    operand_outcome(
        indirect_start(old, p),
        new,
        p,
        c,
        r,
        0,
        v,
        indirect_imm(old, p, lo),
        p.pre,
        ea_lead(p),
        old.pc.wrapping_sub(exception::OPCODE_PC_OFFSET).wrapping_add((2 + 2 * words) as u32),
    )
}

/// An operand outcome carries over to a CPU with the same registers and PC.
proof fn lemma_outcome_frame(
    x: M68k,
    y: M68k,
    new: M68k,
    p: Plan,
    c: Compute,
    r: u32,
    s: u32,
    v: u32,
    imm: u32,
    acc0: u32,
    lead: u32,
    trap_pc: u32,
)
    requires
        same_regs(x, y),
        x.pc == y.pc,
        operand_outcome(x, new, p, c, r, s, v, imm, acc0, lead, trap_pc),
    ensures
        operand_outcome(y, new, p, c, r, s, v, imm, acc0, lead, trap_pc),
{
    let ops = Ops { ea: v, src: s, imm, trap_pc };
    lemma_apply_frame(indirect_adjusted(x, p), indirect_adjusted(y, p), c, p.size, ops);
    exception::lemma_entry_frame(trap_regs(c, indirect_adjusted(x, p), ops), trap_regs(c, indirect_adjusted(y, p), ops), new, 6);
}

/// What an indirect plan does for the words `w2`, `w3`, `w4` that reach the
/// queue after its second one and the operand `v` it reads: the address
/// error if its access is misaligned, otherwise its outcome.
pub open spec fn indirect_words(old: M68k, new: M68k, p: Plan, c: Compute, r: u32, w2: u16, w3: u16, w4: u16, v: u32) -> bool {
    &&& indirect_faults(old, p, w2, w3, w4) ==> indirect_fault(old, new, p, r)
    &&& !indirect_faults(old, p, w2, w3, w4) ==> indirect_outcome(old, new, p, c, r, v, w2)
}

/// What an indirect plan does, for the words that came and the operand it
/// read.
pub open spec fn indirect_run(old: M68k, new: M68k, p: Plan, c: Compute, r: u32) -> bool {
    exists|w2: u16, w3: u16, w4: u16, v: u32| #[trigger] indirect_words(old, new, p, c, r, w2, w3, w4, v)
}

/// What an operand's address error leaves, from the registers `f` at the
/// fault: the 14-byte group-0 frame is entered and, on a running CPU, `r`
/// counts the `words` fetched or read before it and the `lead`, then the
/// entry; or, where the entry would double-fault, the CPU halts.
pub open spec fn operand_fault(f: M68k, new: M68k, r: u32, words: int, lead: int) -> bool {
    &&& !exception::double_fault_spec(f) ==> exception::entered(f, new, 14)
        && (!f.halted ==> r == 4 * words + lead + ADDRESS_ERROR_TAIL_CYCLES)
    &&& exception::double_fault_spec(f) ==> new.halted
}

/// What an indirect plan whose operand access is misaligned does: the
/// address error, from the registers as resolved and then given back.
pub open spec fn indirect_fault(old: M68k, new: M68k, p: Plan, r: u32) -> bool {
    operand_fault(
        fault_adjusted(indirect_adjusted(old, p), p, false),
        new,
        r,
        p.pre + spec_ext_words(p.mode, p.reg, p.size),
        ea_lead(p) as int,
    )
}

/// A memory-pair form: `(Ay)+,(Ax)+` or `-(Ay),-(Ax)`, no immediate.
pub open spec fn pair_plan(p: Plan) -> bool {
    p.pre == 0 && 2 <= p.mode <= 4 && p.pair is Some
}

/// Whether a pair form faults: its source access is misaligned from `cpu`, or
/// its destination access once the source has been resolved.
pub open spec fn pair_faults(cpu: M68k, p: Plan) -> bool {
    match p.pair {
        Some((sm, sr)) => ea::misaligned_at(cpu, sm, sr, p.size) || indirect_faults(ea::adjusted(cpu, sm, sr, p.size), p, 0, 0, 0),
        None => false,
    }
}

/// What a pair form does for the source `s` and the destination operand `v`
/// it reads: the source resolves first (moving its register), then the
/// destination as an indirect plan with the source's words already read.
pub open spec fn pair_outcome(old: M68k, new: M68k, p: Plan, c: Compute, r: u32, s: u32, v: u32) -> bool {
    let w: u32 = if p.size == Size::Long { 2 } else { 1 };
    match p.pair {
        Some((sm, sr)) => s & p.size.spec_mask() == s
            && operand_outcome(
                ea::adjusted(old, sm, sr, p.size),
                new,
                p,
                c,
                r,
                s,
                v,
                0,
                w,
                ea_lead(p),
                old.pc.wrapping_sub(exception::OPCODE_PC_OFFSET).wrapping_add(2),
            ),
        None => false,
    }
}

/// What a pair form whose access is misaligned does: a source fault from the
/// source register as resolved and given back, or a destination fault once
/// the source's words are read.
pub open spec fn pair_fault(old: M68k, new: M68k, p: Plan, r: u32) -> bool {
    let w: int = if p.size == Size::Long { 2 } else { 1 };
    match p.pair {
        Some((sm, sr)) => {
            let src = ea::adjusted(old, sm, sr, p.size);
            &&& ea::misaligned_at(old, sm, sr, p.size) ==> operand_fault(fault_adjusted(src, p, true), new, r, 0, ea_lead(p) as int)
            &&& !ea::misaligned_at(old, sm, sr, p.size) && indirect_faults(src, p, 0, 0, 0) ==> operand_fault(
                fault_adjusted(indirect_adjusted(src, p), p, false),
                new,
                r,
                w,
                ea_lead(p) as int,
            )
        },
        None => true,
    }
}

/// What a pair form that does not fault does, for the values it read.
pub open spec fn pair_result(old: M68k, new: M68k, p: Plan, c: Compute, r: u32) -> bool {
    exists|s: u32, v: u32| #[trigger] pair_outcome(old, new, p, c, r, s, v)
}

/// Runs a plan without a trapping computation.
pub fn run<B: Bus>(cpu: &mut M68k, bus: &mut B, plan: &Plan, compute: Compute) -> (r: u32)
    requires
        plan_ok(*plan),
        compute_ok(compute),
    ensures
        r <= 2000,
        direct_plan(*plan) && !direct_traps(*old(cpu), *plan, compute) ==> direct_result(*old(cpu), *final(cpu), *plan, compute, r),
        direct_plan(*plan) && direct_traps(*old(cpu), *plan, compute) ==> direct_trap(*old(cpu), *final(cpu), *plan, compute, r),
        indirect_plan(*plan) ==> indirect_run(*old(cpu), *final(cpu), *plan, compute, r),
        pair_plan(*plan) && !pair_faults(*old(cpu), *plan) ==> pair_result(*old(cpu), *final(cpu), *plan, compute, r),
        pair_plan(*plan) ==> pair_fault(*old(cpu), *final(cpu), *plan, r),
{
    run_tail(cpu, bus, plan, compute)
}

/// Resolves and reads a memory-pair form's source. `Err` carries the cycles of
/// the address error it raised instead.
fn pair_source<B: Bus>(
    cpu: &mut M68k,
    bus: &mut B,
    plan: &Plan,
    sm: u16,
    sr: u16,
    opcode_addr: u32,
    ir: u16,
) -> (r: Result<u32, u32>)
    requires
        plan_ok(*plan),
        plan.pair == Some((sm, sr)),
    ensures
        r matches Err(c) ==> c <= 200,
        r is Ok <==> !ea::misaligned_at(*old(cpu), sm, sr, plan.size),
        r matches Err(c) ==> operand_fault(fault_adjusted(ea::adjusted(*old(cpu), sm, sr, plan.size), *plan, true), *final(cpu), c, 0, 0),
        r matches Ok(v) ==> v & plan.size.spec_mask() == v && *final(cpu) == ea::adjusted(*old(cpu), sm, sr, plan.size),
{
    let size = plan.size;
    let src_ea = ea::resolve_words(cpu, sm, sr, size, 0, 0, 0);
    if let Ea::Mem(sa) = src_ea {
        if misaligned(sa, size) {
            assert(cpu.a =~= ea::adjusted(*old(cpu), sm, sr, size).a);
            adjust_on_fault(cpu, plan, size, true);
            exception::address_error(
                cpu,
                bus,
                first_access(sa, size, plan.desc_reads),
                FaultKind::Read,
                operand_space(sm, sr),
                ir,
                stacked_pc(opcode_addr, plan, size),
            );
            return Err(exception::entry_cycles(cpu, 0, ADDRESS_ERROR_TAIL_CYCLES));
        }
    }
    let v = read_operand(cpu, bus, src_ea, size, plan.desc_reads);
    assert(cpu.a =~= ea::adjusted(*old(cpu), sm, sr, size).a);
    Ok(v)
}

/// Fetches a plan's leading immediate (the `xxxI` forms) and returns it: the
/// queue's next word cut to the size, or, for a long, that word over the one
/// fetched after it, which lands in `words[2]`.
fn fetch_immediate<B: Bus>(
    cpu: &mut M68k,
    bus: &mut B,
    plan: &Plan,
    words: &mut [u16; 6],
    n_have: &mut usize,
    acc: &mut u32,
) -> (imm: u32)
    requires
        plan.pre <= 2,
        *old(n_have) == 2,
        *old(acc) == 0,
        old(words)[1] == old(cpu).prefetch[1],
    ensures
        2 <= *final(n_have) <= 6,
        final(words)[1] == old(cpu).prefetch[1],
        *final(acc) == plan.pre,
        same_regs(*old(cpu), *final(cpu)),
        final(cpu).pc == old(cpu).pc.wrapping_add((2 * plan.pre) as u32),
        plan.pre == 0 ==> *final(cpu) == *old(cpu),
        imm == indirect_imm(*old(cpu), *plan, final(words)[2]),
{
    if plan.pre == 0 {
        return 0;
    }
    fetch(cpu, bus, words, n_have, acc);
    if plan.pre == 1 {
        return words[1] as u32 & plan.size.mask();
    }
    fetch(cpu, bus, words, n_have, acc);
    ((words[1] as u32) << 16) | words[2] as u32
}

/// Runs a plan: emits the bus schedule, computes at the right point, and
/// returns the cycle count. Raises an address error instead if an operand
/// access would be misaligned.
#[verifier::rlimit(30)]
pub fn run_tail<B: Bus>(cpu: &mut M68k, bus: &mut B, plan: &Plan, compute: Compute) -> (r: u32)
    requires
        plan_ok(*plan),
        compute_ok(compute),
    ensures
        r <= 2000,
        direct_plan(*plan) && !direct_traps(*old(cpu), *plan, compute) ==> direct_result(*old(cpu), *final(cpu), *plan, compute, r),
        direct_plan(*plan) && direct_traps(*old(cpu), *plan, compute) ==> direct_trap(*old(cpu), *final(cpu), *plan, compute, r),
        indirect_plan(*plan) ==> indirect_run(*old(cpu), *final(cpu), *plan, compute, r),
        pair_plan(*plan) && !pair_faults(*old(cpu), *plan) ==> pair_result(*old(cpu), *final(cpu), *plan, compute, r),
        pair_plan(*plan) ==> pair_fault(*old(cpu), *final(cpu), *plan, r),
{
    let ghost cpu0 = *cpu;
    let size = plan.size;
    let opcode_addr = cpu.pc.wrapping_sub(exception::OPCODE_PC_OFFSET);
    let ir = cpu.prefetch[0];
    let mut words = [0u16; 6];
    words[0] = cpu.prefetch[0];
    words[1] = cpu.prefetch[1];
    let mut n_have: usize = 2;
    let mut acc: u32 = 0;
    let idle_lead: u32 = if plan.mode == 4 || plan.mode == 6 || (plan.mode == 7 && plan.reg == 3) {
        2
    } else {
        0
    };
    let imm = fetch_immediate(cpu, bus, plan, &mut words, &mut n_have, &mut acc);
    let ghost lo = words[2];
    // A pair form's source resolves before the destination exists.
    if let Some((sm, sr)) = plan.pair {
        return pair_tail(cpu, bus, plan, compute, sm, sr, &mut words, n_have, acc, imm, opcode_addr, ir, idle_lead, Ghost(cpu0));
    }
    single_tail(cpu, bus, plan, compute, &mut words, n_have, acc, imm, opcode_addr, ir, idle_lead, Ghost(cpu0), Ghost(lo))
}

/// An indirect plan's outcome from where its `<ea>` is resolved is its
/// outcome from the start of the instruction.
#[verifier::rlimit(30)]
proof fn lemma_single_outcome(
    cpu0: M68k,
    resolving: M68k,
    fin: M68k,
    p: Plan,
    c: Compute,
    r: u32,
    imm: u32,
    lo: u16,
    opcode_addr: u32,
)
    requires
        indirect_plan(p),
        p.pre <= 2,
        same_regs(cpu0, resolving),
        resolving.pc == cpu0.pc.wrapping_add((2 * p.pre) as u32),
        imm == indirect_imm(cpu0, p, lo),
        opcode_addr == cpu0.pc.wrapping_sub(exception::OPCODE_PC_OFFSET),
        exists|v: u32|
            #[trigger] operand_outcome(
                resolving,
                fin,
                p,
                c,
                r,
                0,
                v,
                imm,
                p.pre,
                ea_lead(p),
                opcode_addr.wrapping_add(2).wrapping_add((2 * p.pre) as u32).wrapping_add((2 * spec_ext_words(p.mode, p.reg, p.size)) as u32),
            ),
    ensures
        exists|v: u32| #[trigger] indirect_outcome(cpu0, fin, p, c, r, v, lo),
{
    let tp = opcode_addr.wrapping_add(2).wrapping_add((2 * p.pre) as u32).wrapping_add((2 * spec_ext_words(p.mode, p.reg, p.size)) as u32);
    assert(tp == cpu0.pc.wrapping_sub(exception::OPCODE_PC_OFFSET).wrapping_add(
        (2 + 2 * (p.pre + spec_ext_words(p.mode, p.reg, p.size))) as u32,
    ));
    let v = choose|v: u32| #[trigger] operand_outcome(resolving, fin, p, c, r, 0, v, imm, p.pre, ea_lead(p), tp);
    lemma_outcome_frame(resolving, indirect_start(cpu0, p), fin, p, c, r, 0, v, imm, p.pre, ea_lead(p), tp);
    assert(indirect_outcome(cpu0, fin, p, c, r, v, lo));
}

/// The rest of a single-`<ea>` plan once any immediate is fetched.
#[verifier::rlimit(60)]
fn single_tail<B: Bus>(
    cpu: &mut M68k,
    bus: &mut B,
    plan: &Plan,
    compute: Compute,
    words: &mut [u16; 6],
    n_have: usize,
    acc: u32,
    imm: u32,
    opcode_addr: u32,
    ir: u16,
    idle_lead: u32,
    Ghost(cpu0): Ghost<M68k>,
    Ghost(lo): Ghost<u16>,
) -> (r: u32)
    requires
        plan_ok(*plan),
        compute_ok(compute),
        plan.pair is None,
        2 <= n_have <= 6,
        acc == plan.pre,
        idle_lead == ea_lead(*plan),
        old(words)[1] == cpu0.prefetch[1],
        same_regs(cpu0, *old(cpu)),
        old(cpu).pc == cpu0.pc.wrapping_add((2 * plan.pre) as u32),
        plan.pre == 0 ==> *old(cpu) == cpu0,
        opcode_addr == cpu0.pc.wrapping_sub(exception::OPCODE_PC_OFFSET),
        imm == indirect_imm(cpu0, *plan, lo),
    ensures
        r <= 2000,
        direct_plan(*plan) && !direct_traps(cpu0, *plan, compute) ==> direct_result(cpu0, *final(cpu), *plan, compute, r),
        direct_plan(*plan) && direct_traps(cpu0, *plan, compute) ==> direct_trap(cpu0, *final(cpu), *plan, compute, r),
        indirect_plan(*plan) ==> indirect_run(cpu0, *final(cpu), *plan, compute, r),
{
    let ghost resolving = *cpu;
    let (r, Ghost(used)) = dest_phase(cpu, bus, plan, compute, words, n_have, acc, 0, imm, opcode_addr, ir, idle_lead, Ghost(cpu0));
    proof {
        if indirect_plan(*plan) {
            let (e0, e1) = used;
            let (w2, w3, w4) = if plan.pre == 0 {
                (e1, 0u16, 0u16)
            } else if plan.pre == 1 {
                (e0, e1, 0u16)
            } else {
                (lo, e0, e1)
            };
            let base = opcode_addr.wrapping_add(2).wrapping_add((2 * plan.pre) as u32);
            ea::lemma_resolve_frame(resolving, cpu0, plan.mode, plan.reg, plan.size, e0, e1, e1, base);
            assert(indirect_ea(cpu0, *plan, w2, w3, w4) == resolve_spec(resolving, plan.mode, plan.reg, plan.size, e0, e1, base));
            if indirect_faults(cpu0, *plan, w2, w3, w4) {
                let f0 = fault_adjusted(indirect_adjusted(resolving, *plan), *plan, false);
                let f1 = fault_adjusted(indirect_adjusted(cpu0, *plan), *plan, false);
                assert(f0.a =~= f1.a);
                lemma_fault_frame(f0, f1, *cpu, r, (plan.pre + spec_ext_words(plan.mode, plan.reg, plan.size)) as int, idle_lead as int);
                assert(indirect_words(cpu0, *cpu, *plan, compute, r, w2, w3, w4, 0));
            } else {
                lemma_single_outcome(cpu0, resolving, *cpu, *plan, compute, r, imm, lo, opcode_addr);
                let v = choose|v: u32| #[trigger] indirect_outcome(cpu0, *cpu, *plan, compute, r, v, lo);
                assert(indirect_imm(cpu0, *plan, lo) == indirect_imm(cpu0, *plan, w2));
                assert(indirect_words(cpu0, *cpu, *plan, compute, r, w2, w3, w4, v));
            }
        }
    }
    r
}

/// The rest of a memory-pair form once any immediate is fetched: the source
/// read, then the destination half.
#[verifier::rlimit(40)]
fn pair_tail<B: Bus>(
    cpu: &mut M68k,
    bus: &mut B,
    plan: &Plan,
    compute: Compute,
    sm: u16,
    sr: u16,
    words: &mut [u16; 6],
    n_have: usize,
    acc0: u32,
    imm: u32,
    opcode_addr: u32,
    ir: u16,
    idle_lead: u32,
    Ghost(cpu0): Ghost<M68k>,
) -> (r: u32)
    requires
        plan_ok(*plan),
        compute_ok(compute),
        plan.pair == Some((sm, sr)),
        2 <= n_have <= 6,
        acc0 <= 2,
        idle_lead <= 2,
    ensures
        r <= 2000,
        pair_plan(*plan) && acc0 == 0 && imm == 0 && idle_lead == ea_lead(*plan) && opcode_addr == old(cpu).pc.wrapping_sub(
            exception::OPCODE_PC_OFFSET,
        ) ==> {
            &&& !pair_faults(*old(cpu), *plan) ==> pair_result(*old(cpu), *final(cpu), *plan, compute, r)
            &&& pair_fault(*old(cpu), *final(cpu), *plan, r)
        },
{
    let ghost start = *cpu;
    let size = plan.size;
    let src_val = match pair_source(cpu, bus, plan, sm, sr, opcode_addr, ir) {
        Ok(v) => v,
        Err(c) => {
            return 4 * acc0 + idle_lead + c;
        },
    };
    let acc = acc0 + operand_words(size);
    let ghost resolving = *cpu;
    let (r, Ghost(used)) = dest_phase(cpu, bus, plan, compute, words, n_have, acc, src_val, imm, opcode_addr, ir, idle_lead, Ghost(cpu0));
    proof {
        if pair_plan(*plan) {
            ea::lemma_resolve_no_ext(resolving, plan.mode, plan.reg, plan.size, used.0, used.1, 0, 0, opcode_addr.wrapping_add(2).wrapping_add((2 * plan.pre) as u32), resolving.pc.wrapping_sub(exception::OPCODE_PC_OFFSET).wrapping_add(2).wrapping_add((2 * plan.pre) as u32));
        }
        if pair_plan(*plan) && acc0 == 0 && imm == 0 && idle_lead == ea_lead(*plan) && opcode_addr == start.pc.wrapping_sub(
            exception::OPCODE_PC_OFFSET,
        ) && !pair_faults(start, *plan) {
            let w: u32 = if plan.size == Size::Long { 2 } else { 1 };
            assert(acc == w);
            let v = choose|v: u32| #[trigger] operand_outcome(resolving, *cpu, *plan, compute, r, src_val, v, imm, acc, idle_lead, opcode_addr.wrapping_add(2).wrapping_add(0).wrapping_add(0));
            assert(pair_outcome(start, *cpu, *plan, compute, r, src_val, v));
        }
    }
    r
}

/// Takes the address error of a misaligned destination operand at `addr`,
/// `acc` words and `idle_lead` cycles into the instruction.
fn operand_address_error<B: Bus>(
    cpu: &mut M68k,
    bus: &mut B,
    plan: &Plan,
    addr: u32,
    ir: u16,
    opcode_addr: u32,
    acc: u32,
    idle_lead: u32,
) -> (r: u32)
    requires
        plan_ok(*plan),
        acc <= 8,
        idle_lead <= 2,
    ensures
        r <= 2000,
        operand_fault(fault_adjusted(*old(cpu), *plan, false), *final(cpu), r, acc as int, idle_lead as int),
{
    let size = plan.size;
    adjust_on_fault(cpu, plan, size, false);
    exception::address_error(
        cpu,
        bus,
        first_access(addr, size, plan.desc_reads),
        FaultKind::Read,
        operand_space(plan.mode, plan.reg),
        ir,
        stacked_pc(opcode_addr, plan, size),
    );
    4 * acc + idle_lead + exception::entry_cycles(cpu, 0, ADDRESS_ERROR_TAIL_CYCLES)
}

/// An address error's outcome depends only on the registers it is taken from.
pub(crate) proof fn lemma_fault_frame(x: M68k, y: M68k, new: M68k, r: u32, words: int, lead: int)
    requires
        same_regs(x, y),
        operand_fault(x, new, r, words, lead),
    ensures
        operand_fault(y, new, r, words, lead),
{
    exception::lemma_entry_frame(x, y, new, 14);
}

/// What the destination half of a plan does from `start`, where its `<ea>`
/// (a memory one, after the address step `idle_lead`) is about to be
/// resolved `acc0` words in, with the stream words `e0`, `e1`: the address
/// error if the access is misaligned, otherwise the operand outcome for the
/// value it read.
pub open spec fn dest_outcome(
    start: M68k,
    new: M68k,
    plan: Plan,
    compute: Compute,
    r: u32,
    src_val: u32,
    imm: u32,
    acc0: u32,
    idle_lead: u32,
    opcode_addr: u32,
    e0: u16,
    e1: u16,
) -> bool {
    let base = opcode_addr.wrapping_add(2).wrapping_add((2 * plan.pre) as u32);
    let de = spec_ext_words(plan.mode, plan.reg, plan.size);
    let faults = ea::misaligned_ea(resolve_spec(start, plan.mode, plan.reg, plan.size, e0, e1, base), plan.size);
    &&& ea::spec_mode_is_mem(plan.mode, plan.reg) && idle_lead == ea_lead(plan) && !faults ==> exists|v: u32|
        #[trigger] operand_outcome(start, new, plan, compute, r, src_val, v, imm, acc0, idle_lead, base.wrapping_add((2 * de) as u32))
    &&& ea::spec_mode_is_mem(plan.mode, plan.reg) && idle_lead == ea_lead(plan) && faults ==> operand_fault(
        fault_adjusted(indirect_adjusted(start, plan), plan, false),
        new,
        r,
        acc0 + de,
        idle_lead as int,
    )
}

/// The destination half of `run_tail`: the `<ea>`'s extension words, its
/// resolution and read, the computation, and the write-back. Also hands back
/// the two stream words the `<ea>` was resolved with.
#[verifier::rlimit(90)]
fn dest_phase<B: Bus>(
    cpu: &mut M68k,
    bus: &mut B,
    plan: &Plan,
    compute: Compute,
    words: &mut [u16; 6],
    n_have: usize,
    acc0: u32,
    src_val: u32,
    imm: u32,
    opcode_addr: u32,
    ir: u16,
    idle_lead: u32,
    Ghost(cpu0): Ghost<M68k>,
) -> (res: (u32, Ghost<(u16, u16)>))
    requires
        plan_ok(*plan),
        compute_ok(compute),
        2 <= n_have <= 6,
        acc0 <= 4,
        idle_lead <= 2,
        direct_plan(*plan) ==> {
            &&& acc0 == plan.pre
            &&& old(words)[1] == cpu0.prefetch[1]
            &&& same_regs(cpu0, *old(cpu))
            &&& old(cpu).pc == cpu0.pc.wrapping_add((2 * plan.pre) as u32)
            &&& plan.pre == 0 ==> *old(cpu) == cpu0
            &&& opcode_addr == cpu0.pc.wrapping_sub(exception::OPCODE_PC_OFFSET)
            &&& src_val == 0
            &&& imm == (if plan.pre == 1 { cpu0.prefetch[1] as u32 & plan.size.spec_mask() } else { 0 })
            &&& idle_lead == 0
        },
    ensures
        res.0 <= 2000,
        plan.pre == 0 ==> res.1@.0 == old(words)[1],
        direct_plan(*plan) && !direct_traps(cpu0, *plan, compute) ==> direct_result(cpu0, *final(cpu), *plan, compute, res.0),
        direct_plan(*plan) && direct_traps(cpu0, *plan, compute) ==> direct_trap(cpu0, *final(cpu), *plan, compute, res.0),
        dest_outcome(*old(cpu), *final(cpu), *plan, compute, res.0, src_val, imm, acc0, idle_lead, opcode_addr, res.1@.0, res.1@.1),
{
    let size = plan.size;
    let de = ea::ext_words(plan.mode, plan.reg, size);
    let mut words_have = n_have;
    let mut acc = acc0;
    let mut j: u32 = 0;
    while j < de
        invariant
            j <= de,
            de <= 2,
            acc == acc0 + j,
            acc0 <= 4,
            2 <= words_have <= 6,
            words[1] == old(words)[1],
            same_regs(*old(cpu), *cpu),
            cpu.pc == old(cpu).pc.wrapping_add((2 * j) as u32),
            j == 0 ==> *cpu == *old(cpu),
        decreases de - j,
    {
        fetch(cpu, bus, words, &mut words_have, &mut acc);
        j = j + 1;
    }
    let ghost mid = *cpu;
    let ext_at = 1 + plan.pre as usize;
    let e0 = words[ext_at];
    let e1 = words[ext_at + 1];
    let ext_base = opcode_addr.wrapping_add(2).wrapping_add(2 * plan.pre);
    let ghost used: (u16, u16) = (e0, e1);
    let ghost ind_ok = ea::spec_mode_is_mem(plan.mode, plan.reg) && idle_lead == ea_lead(*plan) && !ea::misaligned_ea(
        resolve_spec(*old(cpu), plan.mode, plan.reg, plan.size, e0, e1, ext_base),
        plan.size,
    );
    let ghost ind_fault = ea::spec_mode_is_mem(plan.mode, plan.reg) && idle_lead == ea_lead(*plan) && ea::misaligned_ea(
        resolve_spec(*old(cpu), plan.mode, plan.reg, plan.size, e0, e1, ext_base),
        plan.size,
    );
    let dst_ea = ea::resolve_words(cpu, plan.mode, plan.reg, size, e0, e1, ext_base);
    proof {
        ea::lemma_resolve_frame(mid, *old(cpu), plan.mode, plan.reg, size, e0, e1, e1, ext_base);
    }
    if let Ea::Mem(addr) = dst_ea {
        if misaligned(addr, size) {
            let ghost resolved = *cpu;
            let c = operand_address_error(cpu, bus, plan, addr, ir, opcode_addr, acc, idle_lead);
            proof {
                if ind_fault {
                    let f = fault_adjusted(indirect_adjusted(*old(cpu), *plan), *plan, false);
                    assert(resolved.a =~= indirect_adjusted(*old(cpu), *plan).a);
                    lemma_fault_frame(fault_adjusted(resolved, *plan, false), f, *cpu, c, acc as int, idle_lead as int);
                }
            }
            return (c, Ghost(used));
        }
    }
    let ea_val = read_operand(cpu, bus, dst_ea, size, plan.desc_reads);
    if mode_is_mem(plan.mode, plan.reg) {
        acc = acc + operand_words(size);
    }
    let ops = Ops {
        ea: ea_val,
        src: src_val,
        imm,
        trap_pc: opcode_addr.wrapping_add(2).wrapping_add(2 * plan.pre).wrapping_add(2 * de),
    };
    assert(ops.trap_pc == opcode_addr.wrapping_add(2).wrapping_add((2 * plan.pre) as u32).wrapping_add(
        (2 * spec_ext_words(plan.mode, plan.reg, plan.size)) as u32,
    ));
    proof {
        if direct_plan(*plan) {
            assert(dst_ea == direct_ea(cpu0, *plan));
            assert(ops == direct_ops(cpu0, *plan));
        }
    }
    proof {
        if ind_ok {
            assert(cpu.a =~= indirect_adjusted(*old(cpu), *plan).a);
        }
    }
    let r = finish_phase(cpu, bus, plan, compute, dst_ea, ops, words, words_have, acc, idle_lead, Ghost(cpu0), Ghost(*old(cpu)), Ghost(acc0), Ghost(ind_ok));
    proof {
        let tp = ext_base.wrapping_add((2 * spec_ext_words(plan.mode, plan.reg, plan.size)) as u32);
        if ind_ok {
            assert(operand_outcome(*old(cpu), *cpu, *plan, compute, r, src_val, ops.ea, imm, acc0, idle_lead, tp));
        }
    }
    (r, Ghost(used))
}

/// The computation and what follows it, with what it means for the plan:
/// from the CPU the instruction started with (`cpu0`) for a direct plan, and
/// from `start`, where the `<ea>` was about to be resolved `acc0` words in,
/// for an indirect one (`ind`).
fn finish_phase<B: Bus>(
    cpu: &mut M68k,
    bus: &mut B,
    plan: &Plan,
    compute: Compute,
    dst_ea: Ea,
    ops: Ops,
    words: &mut [u16; 6],
    words_have: usize,
    acc: u32,
    idle_lead: u32,
    Ghost(cpu0): Ghost<M68k>,
    Ghost(start): Ghost<M68k>,
    Ghost(acc0): Ghost<u32>,
    Ghost(ind): Ghost<bool>,
) -> (r: u32)
    requires
        plan_ok(*plan),
        compute_ok(compute),
        ea::ea_ok(dst_ea),
        2 <= words_have <= 6,
        acc <= 8,
        idle_lead <= 2,
        direct_plan(*plan) ==> {
            &&& same_regs(cpu0, *old(cpu))
            &&& old(cpu).pc == cpu0.pc.wrapping_add((2 * (plan_words(*plan) - 1)) as u32)
            &&& plan_words(*plan) == 1 ==> *old(cpu) == cpu0
            &&& acc == plan_words(*plan) - 1
            &&& idle_lead == 0
            &&& ops == direct_ops(cpu0, *plan)
            &&& dst_ea == direct_ea(cpu0, *plan)
        },
        ind ==> {
            let de = spec_ext_words(plan.mode, plan.reg, plan.size);
            &&& same_regs(*old(cpu), indirect_adjusted(start, *plan))
            &&& old(cpu).pc == start.pc.wrapping_add((2 * de) as u32)
            &&& dst_ea is Mem
            &&& acc == acc0 + de + (if plan.size == Size::Long { 2int } else { 1int })
            &&& ops.ea & plan.size.spec_mask() == ops.ea
        },
    ensures
        r <= 2000,
        direct_plan(*plan) ==> (direct_traps(cpu0, *plan, compute) ==> direct_trap(cpu0, *final(cpu), *plan, compute, r)) && (
        !direct_traps(cpu0, *plan, compute) ==> direct_result(cpu0, *final(cpu), *plan, compute, r)),
        ind ==> operand_outcome(start, *final(cpu), *plan, compute, r, ops.src, ops.ea, ops.imm, acc0, idle_lead, ops.trap_pc),
{
    let ghost computing = *cpu;
    let r = compute_and_finish(cpu, bus, plan, compute, dst_ea, ops, words, words_have, acc, idle_lead);
    proof {
        if direct_plan(*plan) {
            lemma_apply_frame(computing, cpu0, compute, plan.size, ops);
            exception::lemma_entry_frame(trap_regs(compute, computing, ops), trap_regs(compute, cpu0, ops), *cpu, 6);
        }
        if ind {
            let adj = indirect_adjusted(start, *plan);
            lemma_apply_frame(computing, adj, compute, plan.size, ops);
            exception::lemma_entry_frame(trap_regs(compute, computing, ops), trap_regs(compute, adj, ops), *cpu, 6);
        }
    }
    r
}

/// Runs the computation on the operands, then writes back and advances the
/// queue as it asks. Returns the instruction's cycles, `acc` words in.
fn compute_and_finish<B: Bus>(
    cpu: &mut M68k,
    bus: &mut B,
    plan: &Plan,
    compute: Compute,
    dst_ea: Ea,
    ops: Ops,
    words: &mut [u16; 6],
    words_have: usize,
    acc: u32,
    idle_lead: u32,
) -> (r: u32)
    requires
        plan_ok(*plan),
        compute_ok(compute),
        ea::ea_ok(dst_ea),
        2 <= words_have <= 6,
        acc <= 8,
        idle_lead <= 2,
    ensures
        r <= 2000,
        !(apply_spec(*old(cpu), compute, plan.size, ops).1 is Trapped) ==> {
            let (after, tail) = apply_spec(*old(cpu), compute, plan.size, ops);
            let written: u32 = if dst_ea is Mem && tail is Write { if plan.size == Size::Long { 2 } else { 1 } } else { 0 };
            &&& same_regs(*final(cpu), match tail {
                Tail::Write(v) => reg_write_spec(after, dst_ea, plan.size, v),
                _ => after,
            })
            &&& final(cpu).pc == old(cpu).pc.wrapping_add(2)
            &&& !(dst_ea is Mem) ==> final(cpu).prefetch[0] == old(cpu).prefetch[1]
            &&& r == 4 * (acc + 1 + written) + idle_lead + plan.idle + own_idle_spec(compute, *old(cpu), ops)
        },
        apply_spec(*old(cpu), compute, plan.size, ops).1 is Trapped ==> trap_outcome(
            compute,
            *old(cpu),
            ops,
            *final(cpu),
            r,
            acc as int,
            idle_lead + plan.idle,
        ),
{
    let size = plan.size;
    let mut acc = acc;
    let mut words_have = words_have;
    let (result, own_idle) = apply(cpu, bus, compute, size, ops);
    match result {
        Tail::Trapped => {
            return 4 * acc + idle_lead + plan.idle + own_idle + exception::entry_cycles(
                cpu,
                0,
                4 * exception::SHORT_FRAME_ACCESSES,
            );
        },
        Tail::Done => {
            fetch(cpu, bus, words, &mut words_have, &mut acc);
        },
        Tail::Write(val) => {
            write_back(cpu, bus, plan, dst_ea, val, words, &mut words_have, &mut acc);
        },
    }
    4 * acc + idle_lead + plan.idle + own_idle
}

/// Writes a result back to the `<ea>` and performs the queue advance, in the
/// order the plan asks for.
fn write_back<B: Bus>(
    cpu: &mut M68k,
    bus: &mut B,
    plan: &Plan,
    dst_ea: Ea,
    val: u32,
    words: &mut [u16; 6],
    words_have: &mut usize,
    acc: &mut u32,
)
    requires
        ea::ea_ok(dst_ea),
        2 <= *old(words_have) <= 6,
        *old(acc) <= 8,
    ensures
        2 <= *final(words_have) <= 6,
        *old(acc) < *final(acc) <= *old(acc) + 3,
        !(dst_ea is Mem) ==> {
            &&& *final(acc) == *old(acc) + 1
            &&& same_regs(*final(cpu), reg_write_spec(*old(cpu), dst_ea, plan.size, val))
            &&& final(cpu).pc == old(cpu).pc.wrapping_add(2)
            &&& final(cpu).prefetch[0] == old(cpu).prefetch[1]
        },
        dst_ea is Mem ==> {
            &&& *final(acc) == *old(acc) + 1 + (if plan.size == Size::Long { 2u32 } else { 1u32 })
            &&& same_regs(*final(cpu), *old(cpu))
            &&& final(cpu).pc == old(cpu).pc.wrapping_add(2)
        },
{
    let size = plan.size;
    match dst_ea {
        Ea::Mem(addr) => {
            if size == Size::Long && plan.pair.is_some() {
                // ADDX.l/SUBX.l into -(Ax): low word, fetch, high word.
                let a = addr & ADDR_MASK;
                bus.write16(a.wrapping_add(2) & ADDR_MASK, val as u16);
                fetch(cpu, bus, words, words_have, acc);
                bus.write16(a, (val >> 16) as u16);
            } else {
                if !plan.fetch_last {
                    fetch(cpu, bus, words, words_have, acc);
                }
                if size == Size::Long {
                    ea::write_predec_long(bus, addr, val);
                } else {
                    ea::write(cpu, bus, dst_ea, size, val);
                }
                if plan.fetch_last {
                    fetch(cpu, bus, words, words_have, acc);
                }
            }
            *acc = *acc + operand_words(size);
        },
        Ea::Imm(_) => {
            fetch(cpu, bus, words, words_have, acc);
        },
        _ => {
            fetch(cpu, bus, words, words_have, acc);
            ea::write(cpu, bus, dst_ea, size, val);
        },
    }
}

/// Fixes up the `(An)+` / `-(An)` adjustment that a faulting instruction does
/// not keep, per the measured table: single `(An)+.l` rolls back; a pair
/// source `-(Ay).l` rolls back and `(Ay)+` lands on initial + 2; a pair
/// destination `-(Ax).l` rolls back and `(Ax)+` rolls back.
/// The registers an address error leaves behind, from `cpu` as the faulting
/// `<ea>` was resolved: a pair form's faulting `(An)+` source gives back all
/// but 2 of its step and a `-(An)` long source its whole step; a faulting
/// destination, and a single `(An)+` long operand, give back their step.
pub open spec fn fault_adjusted(cpu: M68k, p: Plan, faulted_src: bool) -> M68k {
    let size = p.size;
    match p.pair {
        Some((sm, sr)) => {
            let r = sr as int;
            let d = p.reg as int;
            if faulted_src {
                if sm == 4 && size == Size::Long {
                    with_a(cpu, r, cpu.a[r].wrapping_add(size.spec_step(sr as usize)))
                } else if sm == 3 {
                    with_a(cpu, r, cpu.a[r].wrapping_sub(size.spec_step(sr as usize)).wrapping_add(2))
                } else {
                    cpu
                }
            } else if p.mode == 4 && size == Size::Long {
                with_a(cpu, d, cpu.a[d].wrapping_add(size.spec_step(p.reg as usize)))
            } else if p.mode == 3 {
                with_a(cpu, d, cpu.a[d].wrapping_sub(size.spec_step(p.reg as usize)))
            } else {
                cpu
            }
        },
        None => {
            let d = p.reg as int;
            if p.mode == 3 && size == Size::Long {
                with_a(cpu, d, cpu.a[d].wrapping_sub(size.spec_step(p.reg as usize)))
            } else {
                cpu
            }
        },
    }
}

fn adjust_on_fault(cpu: &mut M68k, plan: &Plan, size: Size, faulted_src: bool)
    requires
        plan_ok(*plan),
        size == plan.size,
    ensures
        *final(cpu) == fault_adjusted(*old(cpu), *plan, faulted_src),
{
    match plan.pair {
        Some((src_mode, src_reg)) => {
            if faulted_src {
                let r = src_reg as usize;
                if src_mode == 4 && size == Size::Long {
                    cpu.a[r] = cpu.a[r].wrapping_add(size.step(r));
                } else if src_mode == 3 {
                    cpu.a[r] = cpu.a[r].wrapping_sub(size.step(r)).wrapping_add(2);
                }
            } else {
                let r = plan.reg as usize;
                if plan.mode == 4 && size == Size::Long {
                    cpu.a[r] = cpu.a[r].wrapping_add(size.step(r));
                } else if plan.mode == 3 {
                    cpu.a[r] = cpu.a[r].wrapping_sub(size.step(r));
                }
            }
        },
        None => {
            if plan.mode == 3 && size == Size::Long {
                let r = plan.reg as usize;
                cpu.a[r] = cpu.a[r].wrapping_sub(size.step(r));
            }
        },
    }
}

/// The PC stacked in an address-error frame: pair forms stack opcode + 4;
/// otherwise opcode + 2 + the immediate's words, plus 2 for `-(An)` below long
/// size and the absolute modes' extension words.
pub open spec fn stacked_pc_spec(opcode_addr: u32, plan: Plan, size: Size) -> u32 {
    if plan.pair is Some {
        opcode_addr.wrapping_add(4)
    } else {
        let bump: u32 = if plan.mode == 4 {
            if size == Size::Long { 0 } else { 2 }
        } else if plan.mode == 7 && plan.reg == 0 {
            2
        } else if plan.mode == 7 && plan.reg == 1 {
            4
        } else {
            0
        };
        opcode_addr.wrapping_add(2).wrapping_add((2 * plan.pre) as u32).wrapping_add(bump)
    }
}

fn stacked_pc(opcode_addr: u32, plan: &Plan, size: Size) -> (r: u32)
    requires
        plan.pre <= 2,
    ensures
        r == stacked_pc_spec(opcode_addr, *plan, size),
{
    if plan.pair.is_some() {
        return opcode_addr.wrapping_add(4);
    }
    let bump: u32 = if plan.mode == 4 {
        if size == Size::Long {
            0
        } else {
            2
        }
    } else if plan.mode == 7 && plan.reg == 0 {
        2
    } else if plan.mode == 7 && plan.reg == 1 {
        4
    } else {
        0
    };
    opcode_addr.wrapping_add(2).wrapping_add(2 * plan.pre).wrapping_add(bump)
}

/// The computations that leave X alone: the compares (`CMP`, `CMPA`, `CMPI`,
/// `CMPM`), the logical operations (`AND`, `OR`, `EOR` and their immediate
/// forms), and `NOT`, `TST` and `CLR`.
pub open spec fn keeps_x(c: Compute) -> bool {
    match c {
        Compute::Arith(a) => match a {
            arith::Compute::EaDn { op, .. } => op == arith::ArithOp::Cmp,
            arith::Compute::Addr { op, .. } => op == arith::ArithOp::Cmp,
            arith::Compute::Immediate { op } => op == arith::ArithOp::Cmp,
            arith::Compute::Cmpm => true,
            arith::Compute::Single(w) => w == arith::Single::Not || w == arith::Single::Tst || w == arith::Single::Clr,
            _ => false,
        },
        Compute::Logic(_) => true,
        _ => false,
    }
}

/// X is preserved, not derived, by the compares, the logical operations,
/// `NOT`, `TST` and `CLR`: whatever the operands, X after is X before.
pub proof fn compares_and_logic_keep_x(cpu: M68k, c: Compute, size: Size, ops: Ops)
    requires
        keeps_x(c),
    ensures
        apply_spec(cpu, c, size, ops).0.spec_ccr_x() == cpu.spec_ccr_x(),
{
    let x = cpu.spec_ccr_x();
    match c {
        Compute::Arith(a) => match a {
            arith::Compute::EaDn { op, dn, to_reg } => {
                let d = cpu.d[dn as int];
                let (dst, src) = if to_reg { (d, ops.ea) } else { (ops.ea, d) };
                let (r, n, z, v, cc) = arith::arith_spec(op, dst, src, size);
                crate::cpu::ccr_roundtrip(cpu, x, n, z, v, cc);
            },
            arith::Compute::Addr { an, .. } => {
                let f = crate::flags::sub_spec(cpu.a[an as int], size.spec_sign_extend(ops.ea), false, Size::Long);
                crate::cpu::ccr_roundtrip(cpu, x, f.1, f.2, f.3, f.4);
            },
            arith::Compute::Immediate { op } => {
                let (r, n, z, v, cc) = arith::arith_spec(op, ops.ea, ops.imm, size);
                crate::cpu::ccr_roundtrip(cpu, x, n, z, v, cc);
            },
            arith::Compute::Cmpm => {
                let f = crate::flags::sub_spec(ops.ea, ops.src, false, size);
                crate::cpu::ccr_roundtrip(cpu, x, f.1, f.2, f.3, f.4);
            },
            arith::Compute::Single(w) => {
                if w == arith::Single::Not {
                    let f = crate::flags::logic_spec(!ops.ea & size.spec_mask(), size);
                    crate::cpu::ccr_roundtrip(cpu, x, f.0, f.1, f.2, f.3);
                } else if w == arith::Single::Tst {
                    let f = crate::flags::logic_spec(ops.ea, size);
                    crate::cpu::ccr_roundtrip(cpu, x, f.0, f.1, f.2, f.3);
                } else {
                    crate::cpu::ccr_roundtrip(cpu, x, false, true, false, false);
                }
            },
            _ => {},
        },
        Compute::Logic(l) => {
            let r = match l {
                logic::Compute::ToReg { op, dn } => logic::eval_spec(op, cpu.d[dn as int], ops.ea) & size.spec_mask(),
                logic::Compute::ToEa { op, dn } => logic::eval_spec(op, ops.ea, cpu.d[dn as int]) & size.spec_mask(),
                logic::Compute::Immediate { op } => logic::eval_spec(op, ops.ea, ops.imm) & size.spec_mask(),
            };
            let (n, z, v, cc) = crate::flags::logic_spec(r, size);
            crate::cpu::ccr_roundtrip(cpu, x, n, z, v, cc);
        },
        _ => {},
    }
}

/// The logical operations clear V and C rather than keeping them.
pub proof fn logic_clears_v_and_c(cpu: M68k, l: logic::Compute, size: Size, ops: Ops)
    ensures
        !apply_spec(cpu, Compute::Logic(l), size, ops).0.spec_ccr_v(),
        !apply_spec(cpu, Compute::Logic(l), size, ops).0.spec_ccr_c(),
{
    let r = match l {
        logic::Compute::ToReg { op, dn } => logic::eval_spec(op, cpu.d[dn as int], ops.ea) & size.spec_mask(),
        logic::Compute::ToEa { op, dn } => logic::eval_spec(op, ops.ea, cpu.d[dn as int]) & size.spec_mask(),
        logic::Compute::Immediate { op } => logic::eval_spec(op, ops.ea, ops.imm) & size.spec_mask(),
    };
    let (n, z, v, cc) = crate::flags::logic_spec(r, size);
    crate::cpu::ccr_roundtrip(cpu, cpu.spec_ccr_x(), n, z, v, cc);
}

/// `ADDA`/`SUBA` and `ADDQ`/`SUBQ` to an address register change no flag.
pub proof fn address_arithmetic_keeps_flags(cpu: M68k, c: arith::Compute, size: Size, ops: Ops)
    requires
        (c matches arith::Compute::Addr { op, .. } && op != arith::ArithOp::Cmp) || (c matches arith::Compute::Quick {
            target: Some(_),
            ..
        }),
    ensures
        apply_spec(cpu, Compute::Arith(c), size, ops).0.sr == cpu.sr,
{
}

} // verus!
