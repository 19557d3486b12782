//! `MOVE`, `MOVEA` and `MOVEQ`.
//!
//! MOVE has two `<ea>`s, so its schedule differs from the ALU one: the source's
//! extension words are fetched, the source is read, then at most one of the
//! destination's extension words is fetched before the write (the other is
//! already in the queue), and the remaining fetches follow. A `-(An)`
//! destination does all its fetches before the write and writes a long low
//! word first.

use crate::bus::Bus;
use crate::cpu::{ccr_bits, same_regs, with_a, M68k};
use crate::decode::Handler;
use crate::ea::{
    self, adjusted, mode_is_mem, reg_read_spec, reg_write_spec, resolve_spec, spec_ext_words, stream_word, valid_ea, Ea, Size,
};
use crate::exception::{self, FaultKind, Space, ADDRESS_ERROR_TAIL_CYCLES};
use crate::ops::{field_mode, field_reg, field_reg9, op_mode, op_reg, op_reg9};
use vstd::prelude::*;

verus! {

/// The source and destination fields of a MOVE opcode.
#[derive(Clone, Copy)]
pub struct Operands {
    pub src_mode: u16,
    pub src_reg: u16,
    pub dst_mode: u16,
    pub dst_reg: u16,
}

impl Operands {
    pub fn decode(op: u16) -> (o: Self)
        ensures
            o.src_mode == (op >> 3u16) & 7 && o.src_reg == op & 7,
            o.dst_mode == (op >> 6u16) & 7 && o.dst_reg == (op >> 9u16) & 7,
            o.src_mode < 8 && o.src_reg < 8 && o.dst_mode < 8 && o.dst_reg < 8,
    {
        assert((op >> 6u16) & 7 < 8) by (bit_vector);
        Operands { src_mode: field_mode(op), src_reg: field_reg(op), dst_mode: (op >> 6) & 7, dst_reg: field_reg9(op) }
    }

    pub fn decode_movea(op: u16) -> (o: Self)
        ensures
            o.src_mode == (op >> 3u16) & 7 && o.src_reg == op & 7,
            o.dst_mode == 1 && o.dst_reg == (op >> 9u16) & 7,
            o.src_mode < 8 && o.src_reg < 8 && o.dst_reg < 8,
    {
        Operands { src_mode: field_mode(op), src_reg: field_reg(op), dst_mode: 1, dst_reg: field_reg9(op) }
    }

    /// The source is a register or an immediate.
    pub fn src_is_not_mem(&self) -> (r: bool)
        ensures
            r == (self.src_mode <= 1 || (self.src_mode == 7 && self.src_reg == 4)),
    {
        self.src_mode <= 1 || (self.src_mode == 7 && self.src_reg == 4)
    }
}

/// `-(An)`, `(d8,An,Xn)` and `(d8,PC,Xn)` sources cost a 2-cycle step first.
pub fn src_leads_with_idle(mode: u16, reg: u16) -> (r: bool)
    ensures
        r == (mode == 4 || mode == 6 || (mode == 7 && reg == 3)),
{
    mode == 4 || mode == 6 || (mode == 7 && reg == 3)
}

/// The PC a MOVE address error stacks. A read fault stacks the opcode + 2,
/// plus 2 for a sub-long `-(An)` source and the absolute source modes' words
/// (2 short, 4 long). A write fault stacks the opcode + 4 + the source's
/// extension words, plus 2 for an absolute-long destination after a register
/// or immediate source.
pub open spec fn stacked_pc_spec(opcode_addr: u32, ops: Operands, size: Size, kind: FaultKind, src_ext: u32) -> u32 {
    match kind {
        FaultKind::Read => {
            let bump: u32 = if ops.src_mode == 4 {
                if size == Size::Long { 0 } else { 2 }
            } else if ops.src_mode == 7 && ops.src_reg == 0 {
                2
            } else if ops.src_mode == 7 && ops.src_reg == 1 {
                4
            } else {
                0
            };
            opcode_addr.wrapping_add(2).wrapping_add(bump)
        },
        FaultKind::Write => {
            let not_mem = ops.src_mode <= 1 || (ops.src_mode == 7 && ops.src_reg == 4);
            let bonus: u32 = if ops.dst_mode == 7 && ops.dst_reg == 1 && not_mem { 2 } else { 0 };
            opcode_addr.wrapping_add(4).wrapping_add((2 * src_ext) as u32).wrapping_add(bonus)
        },
    }
}

/// The PC stacked by a MOVE address error.
pub fn stacked_pc(opcode_addr: u32, ops: &Operands, size: Size, kind: FaultKind, src_ext: u32) -> (r: u32)
    requires
        src_ext <= 2,
    ensures
        r == stacked_pc_spec(opcode_addr, *ops, size, kind, src_ext),
{
    match kind {
        FaultKind::Read => {
            let bump: u32 = if ops.src_mode == 4 {
                if size == Size::Long {
                    0
                } else {
                    2
                }
            } else if ops.src_mode == 7 && ops.src_reg == 0 {
                2
            } else if ops.src_mode == 7 && ops.src_reg == 1 {
                4
            } else {
                0
            };
            opcode_addr.wrapping_add(2).wrapping_add(bump)
        },
        FaultKind::Write => {
            let dst_is_abs_long = ops.dst_mode == 7 && ops.dst_reg == 1;
            let bonus: u32 = if dst_is_abs_long && ops.src_is_not_mem() {
                2
            } else {
                0
            };
            opcode_addr.wrapping_add(4).wrapping_add(2 * src_ext).wrapping_add(bonus)
        },
    }
}

/// The CCR after a MOVE of `val` at `size`: N and Z from the value, V and C
/// clear, X kept.
pub open spec fn move_flags_spec(cpu: M68k, val: u32, size: Size) -> M68k {
    M68k {
        sr: ccr_bits(cpu.sr, cpu.spec_ccr_x(), val & size.msb() != 0, val & size.mask() == 0, false, false),
        ..cpu
    }
}

pub fn set_move_flags(cpu: &mut M68k, val: u32, size: Size)
    ensures
        *final(cpu) == move_flags_spec(*old(cpu), val, size),
{
    let n = val & size.msb() != 0;
    let z = val & size.mask() == 0;
    let x = cpu.ccr_x();
    cpu.set_ccr(x, n, z, false, false);
}

/// The CPU after a write fault sets its flags. Below long size, as a MOVE of
/// the value. For a long from memory: N from bit 31 and Z from the high word,
/// with V and C kept for a `(d16,An)`/`(d8,An,Xn)` destination and cleared
/// for the others, except that `(An)`/`(An)+` leave the flags alone. For a long
/// from a register or immediate: N and Z from the word the first write would
/// have shown (the low word for `(An)`, `(An)+` and `abs.L`, the high word
/// otherwise), V and C cleared.
pub open spec fn write_fault_flags_spec(cpu: M68k, val: u32, size: Size, ops: Operands) -> M68k {
    let x = cpu.spec_ccr_x();
    if size != Size::Long {
        move_flags_spec(cpu, val, size)
    } else if !(ops.src_mode <= 1 || (ops.src_mode == 7 && ops.src_reg == 4)) {
        let word = if ops.dst_mode == 2 || ops.dst_mode == 3 || (ops.dst_mode == 7 && ops.dst_reg == 1) {
            val & 0xFFFF
        } else {
            val >> 16u32
        };
        M68k { sr: ccr_bits(cpu.sr, x, word & 0x8000 != 0, word == 0, false, false), ..cpu }
    } else if ops.dst_mode == 2 || ops.dst_mode == 3 {
        cpu
    } else if ops.dst_mode == 5 || ops.dst_mode == 6 {
        M68k { sr: ccr_bits(cpu.sr, x, val & 0x8000_0000 != 0, val >> 16u32 == 0, cpu.spec_ccr_v(), cpu.spec_ccr_c()), ..cpu }
    } else {
        M68k { sr: ccr_bits(cpu.sr, x, val & 0x8000_0000 != 0, val >> 16u32 == 0, false, false), ..cpu }
    }
}

/// The flags a write fault leaves: the whole value's below long size; for a
/// long, the word that a completed first write would have shown.
pub fn set_write_fault_flags(cpu: &mut M68k, val: u32, size: Size, ops: &Operands)
    ensures
        *final(cpu) == write_fault_flags_spec(*old(cpu), val, size, *ops),
{
    if size != Size::Long {
        set_move_flags(cpu, val, size);
        return;
    }
    if !ops.src_is_not_mem() {
        let dst_abs_long = ops.dst_mode == 7 && ops.dst_reg == 1;
        let word = if ops.dst_mode == 2 || ops.dst_mode == 3 || dst_abs_long {
            val & 0xFFFF
        } else {
            val >> 16
        };
        let x = cpu.ccr_x();
        cpu.set_ccr(x, word & 0x8000 != 0, word == 0, false, false);
        return;
    }
    let n = val & 0x8000_0000 != 0;
    let z = val >> 16 == 0;
    let x = cpu.ccr_x();
    if ops.dst_mode == 2 || ops.dst_mode == 3 {
    } else if ops.dst_mode == 5 || ops.dst_mode == 6 {
        let v = cpu.ccr_v();
        let c = cpu.ccr_c();
        cpu.set_ccr(x, n, z, v, c);
    } else {
        cpu.set_ccr(x, n, z, false, false);
    }
}

/// The address registers after a faulting MOVE undoes the adjustments it does
/// not keep: a read fault rolls back a long `(An)+` source; a write fault (not
/// `MOVEA`) rolls back an `(An)+` destination and a long `-(An)` one.
pub open spec fn roll_back_spec(cpu: M68k, ops: Operands, size: Size, kind: FaultKind, is_movea: bool) -> M68k {
    let (s, d) = (ops.src_reg as int, ops.dst_reg as int);
    match kind {
        FaultKind::Read => if ops.src_mode == 3 && size == Size::Long {
            with_a(cpu, s, cpu.a[s].wrapping_sub(4))
        } else {
            cpu
        },
        FaultKind::Write => if is_movea {
            cpu
        } else if ops.dst_mode == 3 {
            with_a(cpu, d, cpu.a[d].wrapping_sub(size.spec_step(ops.dst_reg as usize)))
        } else if ops.dst_mode == 4 && size == Size::Long {
            with_a(cpu, d, cpu.a[d].wrapping_add(4))
        } else {
            cpu
        },
    }
}

/// Undoes the `(An)+` / `-(An)` adjustments a faulting MOVE does not keep.
pub fn roll_back_fault_adjustment(cpu: &mut M68k, ops: &Operands, size: Size, kind: FaultKind, is_movea: bool)
    requires
        ops.src_reg < 8 && ops.dst_reg < 8,
    ensures
        *final(cpu) == roll_back_spec(*old(cpu), *ops, size, kind, is_movea),
{
    match kind {
        FaultKind::Read => {
            if ops.src_mode == 3 && size == Size::Long {
                let r = ops.src_reg as usize;
                cpu.a[r] = cpu.a[r].wrapping_sub(4);
            }
        },
        FaultKind::Write => {
            if !is_movea {
                let r = ops.dst_reg as usize;
                if ops.dst_mode == 3 {
                    cpu.a[r] = cpu.a[r].wrapping_sub(size.step(r));
                } else if ops.dst_mode == 4 && size == Size::Long {
                    cpu.a[r] = cpu.a[r].wrapping_add(4);
                }
            }
        },
    }
}

/// The IR stacked by a write fault: a sub-long `-(An)` destination shows the
/// first destination extension slot, everything else the opcode.
pub fn write_fault_ir(words: &[u16; 6], ops: &Operands, size: Size, src_ext: u32) -> (r: u16)
    requires
        src_ext <= 2,
    ensures
        r == words[if ops.dst_mode == 4 && size != Size::Long { 1 + src_ext } else { 0 }],
{
    let d = if ops.dst_mode == 4 && size != Size::Long {
        1 + src_ext
    } else {
        0
    };
    words[d as usize]
}

fn fetch_into<B: Bus>(cpu: &mut M68k, bus: &mut B, words: &mut [u16; 6], n_have: &mut u32, done: &mut u32)
    requires
        2 <= *old(n_have) <= 6,
        *old(done) < 100,
    ensures
        2 <= *final(n_have) <= 6,
        *old(n_have) < 6 ==> *final(n_have) == *old(n_have) + 1,
        *old(n_have) == 6 ==> *final(n_have) == 6,
        forall|i: int| 0 <= i < *old(n_have) ==> final(words)[i] == old(words)[i],
        final(words)[1] == old(words)[1],
        *final(done) == *old(done) + 1,
        crate::cpu::advanced(*old(cpu), *final(cpu)),
{
    cpu.consume_opcode(bus);
    if *n_have < 6 {
        words[*n_have as usize] = cpu.prefetch[1];
        *n_have = *n_have + 1;
    }
    *done = *done + 1;
}

/// A MOVE whose operands are known before its first bus cycle: a register
/// or one-word immediate source, and a register destination.
pub open spec fn move_direct(op: u16, size: Size, is_movea: bool) -> bool {
    &&& (op_mode(op) <= 1 || (op_mode(op) == 7 && op_reg(op) == 4 && size != Size::Long))
    &&& (is_movea || (op >> 6u16) & 7 == 0)
}

/// The value a direct MOVE reads: a register, or the queue's next word as
/// the immediate.
pub open spec fn move_direct_value(cpu: M68k, op: u16, size: Size) -> u32 {
    reg_read_spec(cpu, move_src_ea(cpu, op, size, 0), size)
}

/// The registers and flags after a direct MOVE: `MOVEA` sign-extends into
/// the whole address register and leaves the flags; `MOVE` writes the low
/// `size` bits of the data register and sets N and Z from the value.
pub open spec fn move_direct_effect(cpu: M68k, op: u16, size: Size, is_movea: bool) -> M68k {
    write_effect(cpu, op_reg9(op), size, is_movea, move_direct_value(cpu, op, size))
}

/// A MOVE's destination mode: `An` for `MOVEA`, bits 6-8 of the opcode
/// otherwise.
pub open spec fn dst_mode(op: u16, is_movea: bool) -> u16 {
    if is_movea { 1 } else { (op >> 6u16) & 7 }
}

/// A MOVE the handler carries out: a valid source, and `MOVEA`'s `An`, a
/// data register, or a memory destination other than the program-relative
/// modes.
pub open spec fn move_plain(op: u16, size: Size, is_movea: bool) -> bool {
    let (sm, sr, dm, dr) = (op_mode(op), op_reg(op), dst_mode(op, is_movea), op_reg9(op));
    &&& ea::spec_valid_ea(sm, sr)
    &&& is_movea || dm == 0 || (2 <= dm <= 6) || (dm == 7 && dr <= 1)
}

/// A MOVE's source `<ea>`, from the CPU it starts with and the stream's
/// second word `w2`.
pub open spec fn move_src_ea(cpu: M68k, op: u16, size: Size, w2: u16) -> Ea {
    resolve_spec(cpu, op_mode(op), op_reg(op), size, cpu.prefetch[1], w2, cpu.pc.wrapping_sub(exception::OPCODE_PC_OFFSET).wrapping_add(2))
}

/// A MOVE's destination `<ea>`, once its source has been resolved from
/// `cpu`: its extension words follow the source's in the stream.
pub open spec fn move_dst_ea(cpu: M68k, op: u16, size: Size, is_movea: bool, w2: u16, w3: u16, w4: u16) -> Ea {
    let se = spec_ext_words(op_mode(op), op_reg(op), size);
    resolve_spec(
        adjusted(cpu, op_mode(op), op_reg(op), size),
        dst_mode(op, is_movea),
        op_reg9(op),
        size,
        stream_word(cpu, w2, w3, w4, se + 1),
        stream_word(cpu, w2, w3, w4, se + 2),
        cpu.pc.wrapping_sub(exception::OPCODE_PC_OFFSET).wrapping_add(2).wrapping_add((2 * se) as u32),
    )
}

/// A MOVE's operand fields, as the handler decodes them.
pub open spec fn move_operands(op: u16, is_movea: bool) -> Operands {
    Operands { src_mode: op_mode(op), src_reg: op_reg(op), dst_mode: dst_mode(op, is_movea), dst_reg: op_reg9(op) }
}

/// The 2-cycle address step of a `-(An)`, `(d8,An,Xn)` or `(d8,PC,Xn)`
/// source.
pub open spec fn src_lead(op: u16) -> int {
    let (sm, sr) = (op_mode(op), op_reg(op));
    if sm == 4 || sm == 6 || (sm == 7 && sr == 3) { 2 } else { 0 }
}

/// How many of the destination's `de` extension words are fetched before
/// the write: all of them after a register or immediate source, at most one
/// after a memory read.
pub open spec fn early_words(src_mem: bool, de: u32) -> int {
    if src_mem {
        if de < 1 { de as int } else { 1 }
    } else {
        de as int
    }
}

/// What a MOVE whose source access is misaligned does: the address error,
/// with the source register's adjustment rolled back, after the source's
/// extension words and the source's address step.
pub open spec fn move_read_fault(old: M68k, new: M68k, op: u16, size: Size, is_movea: bool, r: u32) -> bool {
    let (sm, sr) = (op_mode(op), op_reg(op));
    crate::ops::alu::operand_fault(
        roll_back_spec(adjusted(old, sm, sr, size), move_operands(op, is_movea), size, FaultKind::Read, is_movea),
        new,
        r,
        spec_ext_words(sm, sr, size) as int,
        src_lead(op),
    )
}

/// What a MOVE whose destination access alone is misaligned does when the
/// value it moves is `v`: the write-fault flags on the adjusted registers,
/// the destination's adjustment rolled back, then the address error, after
/// the source's extension words, the destination's early ones, a `-(An)`
/// destination's queue advance, the source's reads and both address steps.
pub open spec fn move_write_fault(old: M68k, new: M68k, op: u16, size: Size, is_movea: bool, r: u32, v: u32) -> bool {
    let (sm, sr, dm, dr) = (op_mode(op), op_reg(op), dst_mode(op, is_movea), op_reg9(op));
    let ops = move_operands(op, is_movea);
    let c2 = adjusted(adjusted(old, sm, sr, size), dm, dr, size);
    let read: int = if ea::spec_mode_is_mem(sm, sr) { if size == Size::Long { 2 } else { 1 } } else { 0 };
    crate::ops::alu::operand_fault(
        roll_back_spec(write_fault_flags_spec(c2, v, size, ops), ops, size, FaultKind::Write, is_movea),
        new,
        r,
        spec_ext_words(sm, sr, size) + early_words(ea::spec_mode_is_mem(sm, sr), spec_ext_words(dm, dr, size)) + (if dm
            == 4 { 1int } else { 0int }) + read,
        src_lead(op) + (if dm == 6 { 2int } else { 0int }),
    )
}

/// What a MOVE whose accesses are aligned does when the value it moves is
/// `v`: both address adjustments, then the register write or, to memory,
/// only the flags; the queue advances past the extension words and the next
/// opcode; 4 cycles per word fetched, read and written, plus 2 for a
/// `-(An)`, `(d8,An,Xn)` or `(d8,PC,Xn)` source and 2 for a `(d8,An,Xn)`
/// destination.
pub open spec fn move_plain_outcome(old: M68k, new: M68k, op: u16, size: Size, is_movea: bool, r: u32, v: u32) -> bool {
    let (sm, sr, dm, dr) = (op_mode(op), op_reg(op), dst_mode(op, is_movea), op_reg9(op));
    let words = spec_ext_words(sm, sr, size) + spec_ext_words(dm, dr, size);
    let c2 = adjusted(adjusted(old, sm, sr, size), dm, dr, size);
    let w: u32 = if size == Size::Long { 2 } else { 1 };
    let read: u32 = if ea::spec_mode_is_mem(sm, sr) { w } else { 0 };
    let written: u32 = if dm >= 2 { w } else { 0 };
    let lead: int = (if sm == 4 || sm == 6 || (sm == 7 && sr == 3) { 2int } else { 0int }) + (if dm == 6 { 2int } else { 0int });
    &&& same_regs(new, if dm >= 2 { move_flags_spec(c2, v, size) } else { write_effect(c2, dr, size, is_movea, v) })
    &&& new.pc == old.pc.wrapping_add((2 + 2 * words) as u32)
    &&& r == 4 * (1 + words + read + written) + lead
}

/// What a MOVE does, given the words `w2`, `w3`, `w4` that reach the queue
/// after the opcode's second one and the value `v` it moves (read from
/// memory, or the source register's or immediate's low `size` bits): a
/// misaligned source faults before anything else; otherwise a misaligned
/// destination faults; otherwise the MOVE completes.
pub open spec fn move_outcome(
    old: M68k,
    new: M68k,
    op: u16,
    size: Size,
    is_movea: bool,
    r: u32,
    w2: u16,
    w3: u16,
    w4: u16,
    v: u32,
) -> bool {
    let (sm, sr) = (op_mode(op), op_reg(op));
    let src = move_src_ea(old, op, size, w2);
    let dst = move_dst_ea(old, op, size, is_movea, w2, w3, w4);
    &&& ea::misaligned_ea(src, size) ==> move_read_fault(old, new, op, size, is_movea, r)
    &&& !ea::misaligned_ea(src, size) ==> {
        &&& ea::spec_mode_is_mem(sm, sr) ==> v & size.spec_mask() == v
        &&& !ea::spec_mode_is_mem(sm, sr) ==> v == reg_read_spec(old, src, size)
        &&& ea::misaligned_ea(dst, size) ==> move_write_fault(old, new, op, size, is_movea, r, v)
        &&& !ea::misaligned_ea(dst, size) ==> move_plain_outcome(old, new, op, size, is_movea, r, v)
    }
}

/// The registers and flags after a MOVE writes `v` to register destination
/// `dst`: `MOVEA` sign-extends into the address register and keeps the flags;
/// `MOVE` writes the data register's low `size` bits and sets N and Z.
pub open spec fn write_effect(cpu: M68k, dst: u16, size: Size, is_movea: bool, v: u32) -> M68k {
    if is_movea {
        with_a(cpu, dst as int, size.spec_sign_extend(v))
    } else {
        move_flags_spec(reg_write_spec(cpu, Ea::DataReg(dst as usize), size, v), v, size)
    }
}

/// What [`move_common`] guarantees: the CPU after it (`new`) and the cycles it
/// returns (`r`), from the CPU before it (`old`). The words the queue takes
/// in past its second one come from the bus, so the outcome is stated for
/// the words that came.
pub open spec fn move_common_post(old: M68k, new: M68k, op: u16, size: Size, is_movea: bool, r: u32) -> bool {
    &&& r <= 2000
    &&& !ea::spec_valid_ea(op_mode(op), op_reg(op)) || !ea::spec_valid_ea(dst_mode(op, is_movea), op_reg9(op))
        ==> exception::illegal_instruction_post(old, new, op, r)
    &&& move_direct(op, size, is_movea) ==> {
        let n = (1 + spec_ext_words(op_mode(op), op_reg(op), size)) as u32;
        &&& same_regs(new, move_direct_effect(old, op, size, is_movea))
        &&& new.pc == old.pc.wrapping_add((2 * n) as u32)
        &&& n == 1 ==> new.prefetch[0] == old.prefetch[1]
        &&& r == 4 * n
    }
    &&& move_plain(op, size, is_movea) ==> exists|w2: u16, w3: u16, w4: u16, v: u32|
        #[trigger] move_outcome(old, new, op, size, is_movea, r, w2, w3, w4, v)
}

/// What the destination half of a MOVE leaves, from the CPU it starts with
/// (`old`, the source read, `se` source extension words fetched) to the CPU
/// after it (`new`) and the instruction's cycles `r`, given the value `v` it
/// moves and the destination's extension words `d1`, `d2`: a misaligned
/// destination faults after `early` of its extension words; a register
/// destination is written, a memory one sets the flags, the queue advances,
/// and `r` is the instruction's `cycles`.
pub open spec fn write_half(
    old: M68k,
    new: M68k,
    ops: Operands,
    size: Size,
    is_movea: bool,
    v: u32,
    d1: u16,
    d2: u16,
    se: u32,
    opcode_addr: u32,
    r: u32,
    cycles: int,
    read_words: int,
    lead: int,
    early: int,
) -> bool {
    let (dm, dr) = (ops.dst_mode, ops.dst_reg);
    let dst = resolve_spec(old, dm, dr, size, d1, d2, opcode_addr.wrapping_add(2).wrapping_add((2 * se) as u32));
    &&& ea::misaligned_ea(dst, size) ==> crate::ops::alu::operand_fault(
        roll_back_spec(write_fault_flags_spec(adjusted(old, dm, dr, size), v, size, ops), ops, size, FaultKind::Write, is_movea),
        new,
        r,
        se + early + (if dm == 4 { 1int } else { 0int }) + read_words,
        lead,
    )
    &&& dm == 0 || is_movea ==> {
        &&& same_regs(new, write_effect(old, dr, size, is_movea, v))
        &&& new.pc == old.pc.wrapping_add(2)
        &&& new.prefetch[0] == old.prefetch[1]
        &&& r == cycles
    }
    &&& !is_movea && ((2 <= dm <= 6) || (dm == 7 && dr <= 1)) && !ea::misaligned_ea(dst, size) ==> {
        &&& same_regs(new, move_flags_spec(adjusted(old, dm, dr, size), v, size))
        &&& new.pc == old.pc.wrapping_add((2 + 2 * spec_ext_words(dm, dr, size)) as u32)
        &&& r == cycles
    }
}

/// What the source half of a MOVE leaves, from the CPU the instruction starts
/// with (`old`) to the CPU after the source is read (`new`), given the
/// stream's second word `w2`: a register or immediate source never faults; a
/// memory one faults exactly when it is misaligned, and a fault takes the
/// address error with the source register's adjustment rolled back, after
/// `se` fetches and the `lead`; otherwise its address register is adjusted,
/// its extension words are consumed, and the value it read is of the size,
/// or the register's or immediate's value.
pub open spec fn read_half(
    old: M68k,
    new: M68k,
    ops: Operands,
    size: Size,
    is_movea: bool,
    se: u32,
    lead: int,
    opcode_addr: u32,
    r: Result<u32, u32>,
    w2: u16,
) -> bool {
    let (sm, sr) = (ops.src_mode, ops.src_reg);
    let src_ea = resolve_spec(old, sm, sr, size, old.prefetch[1], w2, opcode_addr.wrapping_add(2));
    &&& !ea::spec_mode_is_mem(sm, sr) ==> r is Ok
    &&& (r is Err <==> ea::misaligned_ea(src_ea, size))
    &&& r matches Err(c) ==> crate::ops::alu::operand_fault(
        roll_back_spec(adjusted(old, sm, sr, size), ops, size, FaultKind::Read, is_movea),
        new,
        c,
        se as int,
        lead,
    )
    &&& r matches Ok(v) ==> {
        &&& same_regs(new, adjusted(old, sm, sr, size))
        &&& new.pc == old.pc.wrapping_add((2 * se) as u32)
        &&& se == 0 ==> new == adjusted(old, sm, sr, size)
        &&& ea::spec_mode_is_mem(sm, sr) ==> v & size.spec_mask() == v
        &&& !ea::spec_mode_is_mem(sm, sr) ==> v == reg_read_spec(old, src_ea, size)
    }
}

/// A MOVE whose source read succeeds: its two halves make up its outcome
/// for the words that came (`w2` as the source saw it).
#[verifier::rlimit(60)]
#[verifier::spinoff_prover]
proof fn lemma_move_halves(
    cpu0: M68k,
    read_cpu: M68k,
    fin: M68k,
    op: u16,
    size: Size,
    is_movea: bool,
    ops: Operands,
    se: u32,
    opcode_addr: u32,
    lead: int,
    read_words: int,
    lead2: int,
    v: u32,
    r: u32,
    w2_src: u16,
    w2: u16,
    w3: u16,
    w4: u16,
    d1: u16,
    d2: u16,
    early: int,
)
    requires
        move_plain(op, size, is_movea),
        ops == move_operands(op, is_movea),
        ea::spec_valid_ea(ops.dst_mode, ops.dst_reg),
        read_words == (if ea::spec_mode_is_mem(ops.src_mode, ops.src_reg) { if size == Size::Long { 2int } else { 1int } } else { 0int }),
        lead == src_lead(op),
        lead2 == src_lead(op) + (if ops.dst_mode == 6 { 2int } else { 0int }),
        early == early_words(ea::spec_mode_is_mem(ops.src_mode, ops.src_reg), spec_ext_words(ops.dst_mode, ops.dst_reg, size)),
        se == spec_ext_words(ops.src_mode, ops.src_reg, size),
        opcode_addr == cpu0.pc.wrapping_sub(exception::OPCODE_PC_OFFSET),
        se >= 1 ==> w2_src == w2,
        d1 == stream_word(cpu0, w2, w3, w4, se + 1),
        d2 == stream_word(cpu0, w2, w3, w4, se + 2),
        read_half(cpu0, read_cpu, ops, size, is_movea, se, lead, opcode_addr, Ok(v), w2_src),
        write_half(
            read_cpu,
            fin,
            ops,
            size,
            is_movea,
            v,
            d1,
            d2,
            se,
            opcode_addr,
            r,
            4 * ((if ea::spec_mode_is_mem(ops.src_mode, ops.src_reg) { if size == Size::Long { 2int } else { 1int } } else { 0int })
                + (if ea::spec_mode_is_mem(ops.dst_mode, ops.dst_reg) { if size == Size::Long { 2int } else { 1int } } else { 0int })
                + 1 + se + spec_ext_words(ops.dst_mode, ops.dst_reg, size)) + (if ops.src_mode == 4 || ops.src_mode == 6 || (
            ops.src_mode == 7 && ops.src_reg == 3) { 2int } else { 0int }) + (if ops.dst_mode == 6 { 2int } else { 0int }),
            read_words,
            lead2,
            early,
        ),
    ensures
        move_outcome(cpu0, fin, op, size, is_movea, r, w2, w3, w4, v),
{
    let (sm, sr, dm, dr) = (ops.src_mode, ops.src_reg, ops.dst_mode, ops.dst_reg);
    let base = opcode_addr.wrapping_add(2);
    ea::lemma_resolve_frame(cpu0, cpu0, sm, sr, size, cpu0.prefetch[1], w2_src, w2, base);
    let c1 = adjusted(cpu0, sm, sr, size);
    ea::lemma_resolve_frame(read_cpu, c1, dm, dr, size, d1, d2, d2, base.wrapping_add((2 * se) as u32));
    if ea::misaligned_ea(move_dst_ea(cpu0, op, size, is_movea, w2, w3, w4), size) {
        let f0 = roll_back_spec(write_fault_flags_spec(adjusted(read_cpu, dm, dr, size), v, size, ops), ops, size, FaultKind::Write, is_movea);
        let f1 = roll_back_spec(write_fault_flags_spec(adjusted(c1, dm, dr, size), v, size, ops), ops, size, FaultKind::Write, is_movea);
        assert(f0.a =~= f1.a);
        crate::ops::alu::lemma_fault_frame(
            f0,
            f1,
            fin,
            r,
            se + early + (if dm == 4 { 1int } else { 0int }) + read_words,
            lead2,
        );
    }
}

/// `MOVE` and `MOVEA` at `size`.
#[verifier::rlimit(40)]
pub fn move_common<B: Bus>(cpu: &mut M68k, bus: &mut B, op: u16, size: Size, is_movea: bool) -> (r: u32)
    ensures
        move_common_post(*old(cpu), *final(cpu), op, size, is_movea, r),
{
    let ghost cpu0 = *cpu;
    let ops = if is_movea {
        Operands::decode_movea(op)
    } else {
        Operands::decode(op)
    };
    if !valid_ea(ops.src_mode, ops.src_reg) || !valid_ea(ops.dst_mode, ops.dst_reg) {
        return exception::illegal_instruction(cpu, bus, op);
    }
    let opcode_addr = cpu.pc.wrapping_sub(exception::OPCODE_PC_OFFSET);
    let se = ea::ext_words(ops.src_mode, ops.src_reg, size);
    let de = ea::ext_words(ops.dst_mode, ops.dst_reg, size);
    let n_words = 1 + se + de;
    let src_mem = mode_is_mem(ops.src_mode, ops.src_reg);
    let dst_mem = mode_is_mem(ops.dst_mode, ops.dst_reg);
    let wper: u32 = if size == Size::Long {
        2
    } else {
        1
    };
    let nr = if src_mem {
        wper
    } else {
        0
    };
    let nw = if dst_mem {
        wper
    } else {
        0
    };
    let mut words = [0u16; 6];
    words[0] = cpu.prefetch[0];
    words[1] = cpu.prefetch[1];
    let mut n_have: u32 = 2;
    let src_idle: u32 = if src_leads_with_idle(ops.src_mode, ops.src_reg) {
        2
    } else {
        0
    };
    let dst_idle: u32 = if ops.dst_mode == 6 {
        2
    } else {
        0
    };
    let src = move_source(cpu, bus, &ops, size, is_movea, se, src_idle, &mut words, &mut n_have, opcode_addr);
    let src_val = match src {
        Ok(v) => v,
        Err(c) => {
            proof {
                if move_plain(op, size, is_movea) {
                    assert(move_outcome(cpu0, *cpu, op, size, is_movea, c, words[2], words[3], words[4], 0));
                }
            }
            return c;
        },
    };
    let done = se;
    let ghost read_cpu = *cpu;
    let ghost mid_words = words;
    let r = move_write(cpu, bus, &ops, size, is_movea, src_val, &mut words, n_have, done, se, de, nr, nw, n_words, src_idle, dst_idle, opcode_addr);
    proof {
        let c1 = adjusted(cpu0, op_mode(op), op_reg(op), size);
        if move_direct(op, size, is_movea) {
            assert(read_cpu.a =~= c1.a);
            ea::lemma_resolve_frame(cpu0, cpu0, ops.src_mode, ops.src_reg, size, cpu0.prefetch[1], mid_words[2], 0, opcode_addr.wrapping_add(2));
        }
        if move_plain(op, size, is_movea) {
            lemma_move_halves(
                cpu0,
                read_cpu,
                *cpu,
                op,
                size,
                is_movea,
                ops,
                se,
                opcode_addr,
                src_idle as int,
                nr as int,
                src_idle + dst_idle,
                src_val,
                r,
                mid_words[2],
                words[2],
                words[3],
                words[4],
                mid_words[1 + se as int],
                words[2 + se as int],
                early_words(nr != 0, de),
            );
            assert(move_outcome(cpu0, *cpu, op, size, is_movea, r, words[2], words[3], words[4], src_val));
        }
    }
    r
}

/// The source half of a MOVE: its extension words, its resolution and its
/// read. `Err` carries the cycles of the address error a misaligned source
/// raised instead.
fn move_source<B: Bus>(
    cpu: &mut M68k,
    bus: &mut B,
    ops: &Operands,
    size: Size,
    is_movea: bool,
    se: u32,
    src_idle: u32,
    words: &mut [u16; 6],
    n_have: &mut u32,
    opcode_addr: u32,
) -> (r: Result<u32, u32>)
    requires
        ops.src_mode < 8 && ops.src_reg < 8 && ops.dst_mode < 8 && ops.dst_reg < 8,
        valid_ea(ops.src_mode, ops.src_reg),
        se == spec_ext_words(ops.src_mode, ops.src_reg, size),
        src_idle <= 2,
        *old(n_have) == 2,
        old(words)[1] == old(cpu).prefetch[1],
        opcode_addr == old(cpu).pc.wrapping_sub(exception::OPCODE_PC_OFFSET),
    ensures
        *final(n_have) == 2 + se,
        final(words)[1] == old(cpu).prefetch[1],
        r matches Err(c) ==> c <= 2000,
        read_half(*old(cpu), *final(cpu), *ops, size, is_movea, se, src_idle as int, opcode_addr, r, final(words)[2]),
{
    let ghost cpu0 = *cpu;
    let mut done: u32 = 0;
    let mut i: u32 = 0;
    while i < se
        invariant
            i <= se,
            se <= 2,
            done == i,
            *n_have == 2 + i,
            words[1] == cpu0.prefetch[1],
            same_regs(cpu0, *cpu),
            cpu.pc == cpu0.pc.wrapping_add((2 * i) as u32),
            i == 0 ==> *cpu == cpu0,
        decreases se - i,
    {
        fetch_into(cpu, bus, words, n_have, &mut done);
        i = i + 1;
    }
    let si = 1 + se as usize;
    proof {
        ea::lemma_resolve_frame(*cpu, cpu0, ops.src_mode, ops.src_reg, size, words[1], words[2], words[2], opcode_addr.wrapping_add(2));
    }
    let src_ea = ea::resolve_words(cpu, ops.src_mode, ops.src_reg, size, words[1], words[2], opcode_addr.wrapping_add(2));
    if let Ea::Mem(addr) = src_ea {
        if size != Size::Byte && addr & 1 != 0 {
            let ghost resolved = *cpu;
            roll_back_fault_adjustment(cpu, ops, size, FaultKind::Read, is_movea);
            let ghost at_fault = *cpu;
            let space = if ops.src_mode == 7 && (ops.src_reg == 2 || ops.src_reg == 3) {
                Space::Program
            } else {
                Space::Data
            };
            exception::address_error(
                cpu,
                bus,
                addr,
                FaultKind::Read,
                space,
                words[0],
                stacked_pc(opcode_addr, ops, size, FaultKind::Read, se),
            );
            proof {
                let f = roll_back_spec(adjusted(cpu0, ops.src_mode, ops.src_reg, size), *ops, size, FaultKind::Read, is_movea);
                assert(resolved.a =~= adjusted(cpu0, ops.src_mode, ops.src_reg, size).a);
                assert(at_fault.a =~= f.a);
                exception::lemma_entry_frame(at_fault, f, *cpu, 14);
            }
            return Err(4 * done + src_idle + exception::entry_cycles(cpu, 0, ADDRESS_ERROR_TAIL_CYCLES));
        }
    }
    let src_val = ea::read(cpu, bus, src_ea, size);
    proof {
        assert(cpu.a =~= adjusted(cpu0, ops.src_mode, ops.src_reg, size).a);
    }
    Ok(src_val)
}

/// Takes the address error of a misaligned MOVE destination: the flags such a
/// write leaves, the destination register's adjustment given back, then the
/// exception, after `words` bus words and `lead` idle cycles.
fn take_dst_fault<B: Bus>(
    cpu: &mut M68k,
    bus: &mut B,
    ops: &Operands,
    size: Size,
    is_movea: bool,
    src_val: u32,
    fault_addr: u32,
    ir: u16,
    opcode_addr: u32,
    se: u32,
    words: u32,
    lead: u32,
) -> (r: u32)
    requires
        ops.src_reg < 8 && ops.dst_reg < 8,
        se <= 2,
        words <= 8,
        lead <= 4,
    ensures
        r <= 2000,
        !is_movea ==> crate::ops::alu::operand_fault(
            roll_back_spec(write_fault_flags_spec(*old(cpu), src_val, size, *ops), *ops, size, FaultKind::Write, is_movea),
            *final(cpu),
            r,
            words as int,
            lead as int,
        ),
{
    if !is_movea {
        set_write_fault_flags(cpu, src_val, size, ops);
    }
    roll_back_fault_adjustment(cpu, ops, size, FaultKind::Write, is_movea);
    exception::address_error(
        cpu,
        bus,
        fault_addr,
        FaultKind::Write,
        Space::Data,
        ir,
        stacked_pc(opcode_addr, ops, size, FaultKind::Write, se),
    );
    4 * words + lead + exception::entry_cycles(cpu, 0, ADDRESS_ERROR_TAIL_CYCLES)
}

/// The destination half of a MOVE: the destination's extension words, its
/// resolution, the write (or the write fault), the flags and the remaining
/// queue advances. `done` words have been fetched so far.
#[verifier::rlimit(100)]
fn move_write<B: Bus>(
    cpu: &mut M68k,
    bus: &mut B,
    ops: &Operands,
    size: Size,
    is_movea: bool,
    src_val: u32,
    words: &mut [u16; 6],
    n_have: u32,
    done: u32,
    se: u32,
    de: u32,
    nr: u32,
    nw: u32,
    n_words: u32,
    src_idle: u32,
    dst_idle: u32,
    opcode_addr: u32,
) -> (r: u32)
    requires
        ops.src_mode < 8 && ops.src_reg < 8 && ops.dst_mode < 8 && ops.dst_reg < 8,
        valid_ea(ops.dst_mode, ops.dst_reg),
        is_movea ==> ops.dst_mode == 1,
        n_have == 2 + se,
        done == se,
        se <= 2,
        de == spec_ext_words(ops.dst_mode, ops.dst_reg, size),
        n_words == 1 + se + de,
        nr <= 2 && nw <= 2,
        src_idle <= 2 && dst_idle <= 2,
    ensures
        r <= 2000,
        write_half(
            *old(cpu),
            *final(cpu),
            *ops,
            size,
            is_movea,
            src_val,
            old(words)[1 + se as int],
            final(words)[2 + se as int],
            se,
            opcode_addr,
            r,
            4 * (nr + nw + n_words) + src_idle + dst_idle,
            nr as int,
            src_idle + dst_idle,
            early_words(nr != 0, de),
        ),
        final(words)[1 + se as int] == old(words)[1 + se as int],
        se == 2 ==> final(words)[2] == old(words)[2],
{
    let mut done = done;
    let mut n_have = n_have;
    let src_mem = nr != 0;
    let si = 1 + se as usize;
    let b = if src_mem {
        if de < 1 {
            de
        } else {
            1
        }
    } else {
        de
    };
    let c = n_words - se - b;
    let dst_ext_at = opcode_addr.wrapping_add(2).wrapping_add(2 * se);
    let mut j: u32 = 0;
    let ghost read_done = *cpu;
    while j < b
        invariant
            j <= b,
            b <= 2,
            done == se + j,
            se <= 2,
            n_have == 2 + se + j,
            j == 0 ==> *cpu == read_done,
            same_regs(read_done, *cpu),
            cpu.pc == read_done.pc.wrapping_add((2 * j) as u32),
            words[1 + se as int] == old(words)[1 + se as int],
            se == 2 ==> words[2] == old(words)[2],
        decreases b - j,
    {
        fetch_into(cpu, bus, words, &mut n_have, &mut done);
        j = j + 1;
    }
    let ghost fetched = *cpu;
    let dst_ea = ea::resolve_words(cpu, ops.dst_mode, ops.dst_reg, size, words[si], words[si + 1], dst_ext_at);
    let ghost resolved = *cpu;
    let ghost w_res = *words;
    let cycles = 4 * (nr + nw + n_words) + src_idle + dst_idle;
    let r = move_store(cpu, bus, ops, size, is_movea, src_val, dst_ea, words, n_have, done, c, se, nr, opcode_addr, src_idle + dst_idle, cycles);
    proof {
        let o = *old(cpu);
        ea::lemma_resolve_frame(fetched, o, ops.dst_mode, ops.dst_reg, size, w_res[si as int], w_res[si as int + 1], words[2 + se as int], dst_ext_at);
        let adj = adjusted(o, ops.dst_mode, ops.dst_reg, size);
        assert(resolved.a =~= adj.a);
        if ea::misaligned_ea(dst_ea, size) && !is_movea {
            let f0 = roll_back_spec(write_fault_flags_spec(resolved, src_val, size, *ops), *ops, size, FaultKind::Write, is_movea);
            let f1 = roll_back_spec(write_fault_flags_spec(adj, src_val, size, *ops), *ops, size, FaultKind::Write, is_movea);
            assert(f0.a =~= f1.a);
            crate::ops::alu::lemma_fault_frame(f0, f1, *cpu, r, se + early_words(nr != 0, de) + (if ops.dst_mode == 4 { 1int } else { 0int }) + nr, (src_idle + dst_idle) as int);
        }
        if ops.dst_mode == 0 || is_movea {
            let e = write_effect(o, ops.dst_reg, size, is_movea, src_val);
            assert(cpu.d =~= e.d);
            assert(cpu.a =~= e.a);
        }
    }
    r
}

/// The write half of a MOVE once the destination `dst` is resolved: a
/// `-(An)` destination's remaining fetches, then the address error for a
/// misaligned access, or the write, the flags and the remaining fetches.
/// `done` words have been fetched so far, `c` remain; the first `kept` of
/// `words` stay as they are.
#[verifier::rlimit(40)]
fn move_store<B: Bus>(
    cpu: &mut M68k,
    bus: &mut B,
    ops: &Operands,
    size: Size,
    is_movea: bool,
    src_val: u32,
    dst: Ea,
    words: &mut [u16; 6],
    n_have: u32,
    done: u32,
    c: u32,
    se: u32,
    nr: u32,
    opcode_addr: u32,
    idle: u32,
    cycles: u32,
) -> (r: u32)
    requires
        ops.src_reg < 8 && ops.dst_reg < 8 && ops.dst_mode < 8,
        ea::ea_ok(dst),
        ops.dst_mode == 0 ==> dst == Ea::DataReg(ops.dst_reg as usize),
        is_movea ==> ops.dst_mode == 1 && dst == Ea::AddrReg(ops.dst_reg as usize),
        ops.dst_mode >= 2 && !(ops.dst_mode == 7 && ops.dst_reg >= 2) ==> dst is Mem,
        ops.dst_mode == 4 ==> c == 1,
        2 <= n_have <= 6,
        done <= 4,
        c <= 3,
        se <= 2,
        nr <= 2,
        idle <= 4,
        cycles <= 1000,
    ensures
        r <= 2000,
        forall|i: int| 0 <= i < n_have ==> final(words)[i] == old(words)[i],
        !is_movea && ea::misaligned_ea(dst, size) ==> crate::ops::alu::operand_fault(
            roll_back_spec(write_fault_flags_spec(*old(cpu), src_val, size, *ops), *ops, size, FaultKind::Write, is_movea),
            *final(cpu),
            r,
            done + (if ops.dst_mode == 4 { 1int } else { 0int }) + nr,
            idle as int,
        ),
        !ea::misaligned_ea(dst, size) ==> {
            &&& r == cycles
            &&& final(cpu).pc == old(cpu).pc.wrapping_add((2 * c) as u32)
            &&& c == 1 && ops.dst_mode != 4 ==> final(cpu).prefetch[0] == old(cpu).prefetch[1]
            &&& ops.dst_mode == 0 || is_movea ==> same_regs(
                *final(cpu),
                write_effect(*old(cpu), ops.dst_reg, size, is_movea, src_val),
            )
            &&& !is_movea && dst is Mem ==> same_regs(*final(cpu), move_flags_spec(*old(cpu), src_val, size))
        },
{
    let mut done = done;
    let mut n_have = n_have;
    let ghost resolved = *cpu;
    let ghost w0 = *words;
    let ghost kept = n_have as int;
    let predec_dst = ops.dst_mode == 4;
    if predec_dst {
        let mut k: u32 = 0;
        let d0 = done;
        while k < c
            invariant
                k <= c,
                c <= 3,
                done == d0 + k,
                d0 <= 4,
                2 <= kept <= n_have <= 6,
                forall|i: int| 0 <= i < kept ==> words[i] == w0[i],
                same_regs(resolved, *cpu),
                cpu.pc == resolved.pc.wrapping_add((2 * k) as u32),
            decreases c - k,
        {
            fetch_into(cpu, bus, words, &mut n_have, &mut done);
            k = k + 1;
        }
    }
    match dst {
        Ea::Mem(addr) => {
            if size != Size::Byte && addr & 1 != 0 {
                let ghost before_flags = *cpu;
                let fault_addr = if predec_dst && size == Size::Long {
                    addr.wrapping_add(2)
                } else {
                    addr
                };
                let ir = write_fault_ir(words, ops, size, se);
                let r = take_dst_fault(cpu, bus, ops, size, is_movea, src_val, fault_addr, ir, opcode_addr, se, done + nr, idle);
                proof {
                    assert(before_flags.a =~= resolved.a);
                    let f0 = roll_back_spec(write_fault_flags_spec(before_flags, src_val, size, *ops), *ops, size, FaultKind::Write, is_movea);
                    let f1 = roll_back_spec(write_fault_flags_spec(resolved, src_val, size, *ops), *ops, size, FaultKind::Write, is_movea);
                    assert(f0.a =~= f1.a);
                    if !is_movea {
                        crate::ops::alu::lemma_fault_frame(f0, f1, *cpu, r, (done + nr) as int, idle as int);
                    }
                }
                return r;
            }
            if predec_dst && size == Size::Long {
                ea::write_predec_long(bus, addr, src_val);
            } else {
                ea::write(cpu, bus, dst, size, src_val);
            }
        },
        Ea::Imm(_) => {},
        _ => {
            if is_movea {
                cpu.a[ops.dst_reg as usize] = size.sign_extend(src_val);
            } else {
                ea::write(cpu, bus, dst, size, src_val);
            }
        },
    }
    if !is_movea {
        set_move_flags(cpu, src_val, size);
    }
    let ghost written = *cpu;
    if !predec_dst {
        let mut k: u32 = 0;
        let d0 = done;
        while k < c
            invariant
                k <= c,
                c <= 3,
                done == d0 + k,
                d0 <= 4,
                2 <= kept <= n_have <= 6,
                forall|i: int| 0 <= i < kept ==> words[i] == w0[i],
                same_regs(written, *cpu),
                cpu.pc == written.pc.wrapping_add((2 * k) as u32),
                k == 0 ==> *cpu == written,
                k == 1 ==> cpu.prefetch[0] == written.prefetch[1],
            decreases c - k,
        {
            fetch_into(cpu, bus, words, &mut n_have, &mut done);
            k = k + 1;
        }
    }
    proof {
        if is_movea {
            assert(written.a =~= with_a(resolved, ops.dst_reg as int, size.spec_sign_extend(src_val)).a);
        }
    }
    cycles
}

/// What [`moveq`] guarantees: the CPU after it (`new`) and the cycles it
/// returns (`r`), from the CPU before it (`old`).
pub open spec fn moveq_post(old: M68k, new: M68k, op: u16, r: u32) -> bool {
    &&& r == 4
    &&& new.d[((op >> 9u16) & 7) as int] == op as u8 as i8 as i32 as u32
    &&& crate::cpu::advanced(
        move_flags_spec(crate::cpu::with_d(old, op_reg9(op) as int, op as u8 as i8 as i32 as u32), op as u8 as i8 as i32 as u32, Size::Long),
        new,
    )
}

/// `MOVEQ #d8,Dn`: the sign-extended byte, flags from the long.
pub fn moveq<B: Bus>(cpu: &mut M68k, bus: &mut B, op: u16) -> (r: u32)
    ensures
        moveq_post(*old(cpu), *final(cpu), op, r),
{
    let val = op as u8 as i8 as i32 as u32;
    let r = field_reg9(op) as usize;
    cpu.d[r] = val;
    set_move_flags(cpu, val, Size::Long);
    cpu.consume_opcode(bus);
    4
}

pub fn valid_src(mode: u16, reg: u16, size: Size) -> (r: bool)
    ensures
        r == (if mode == 1 { size != Size::Byte } else if mode == 7 { reg <= 4 } else { true }),
{
    match mode {
        1 => size != Size::Byte,
        7 => reg <= 4,
        _ => true,
    }
}

pub fn valid_dst(mode: u16, reg: u16) -> (r: bool)
    ensures
        r == (if mode == 1 { false } else if mode == 7 { reg <= 1 } else { true }),
{
    match mode {
        1 => false,
        7 => reg <= 1,
        _ => true,
    }
}

/// The handler `claim` assigns: `MOVEQ` on line 7 with bit 8 clear; `MOVE`
/// and `MOVEA` on lines 1-3 (byte, long, word) with a valid source and an
/// alterable destination, `MOVEA` never byte-sized.
pub open spec fn claim_spec(op: u16) -> Option<Handler> {
    let line = op >> 12u16;
    let size = if line == 1 { Size::Byte } else if line == 3 { Size::Word } else { Size::Long };
    let dst_mode = (op >> 6u16) & 7;
    if line == 7 {
        if op & 0x0100 == 0 { Some(Handler::MoveQ) } else { None }
    } else if line < 1 || line > 3 || !crate::ops::src_ok(op_mode(op), op_reg(op), size) {
        None
    } else if dst_mode == 1 {
        if size == Size::Byte { None } else { Some(Handler::MoveA(size)) }
    } else if dst_mode == 1 || (dst_mode == 7 && op_reg9(op) > 1) {
        None
    } else {
        Some(Handler::Move(size))
    }
}

/// The handler this module assigns to `op`, if any.
pub fn claim(op: u16) -> (r: Option<Handler>)
    ensures
        r == claim_spec(op),
{
    let line = op >> 12;
    if line == 7 {
        if op & 0x0100 == 0 {
            return Some(Handler::MoveQ);
        }
        return None;
    }
    if line < 1 || line > 3 {
        return None;
    }
    let size = if line == 1 {
        Size::Byte
    } else if line == 3 {
        Size::Word
    } else {
        Size::Long
    };
    let src_mode = field_mode(op);
    let src_reg = field_reg(op);
    let dst_mode = (op >> 6) & 7;
    let dst_reg = field_reg9(op);
    if !valid_src(src_mode, src_reg, size) {
        return None;
    }
    if dst_mode == 1 {
        if size == Size::Byte {
            None
        } else {
            Some(Handler::MoveA(size))
        }
    } else if !valid_dst(dst_mode, dst_reg) {
        None
    } else {
        Some(Handler::Move(size))
    }
}

/// Installs this family's handlers into the dispatch table: the opcodes
/// `claim_spec` gives a handler get it, the others keep theirs.
pub fn register(table: &mut Vec<Handler>)
    requires
        old(table).len() == 65536,
    ensures
        final(table).len() == 65536,
        forall|i: int|
            0 <= i < 65536 ==> #[trigger] final(table)@[i] == (match claim_spec(i as u16) {
                Some(h) => h,
                None => old(table)@[i],
            }),
{
    crate::ops::install(table, 0);
}

} // verus!
