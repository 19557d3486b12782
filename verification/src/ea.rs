//! Effective addressing.
//!
//! The 68000 encodes an operand location in a 6-bit field: a 3-bit mode and a
//! 3-bit register. Resolution computes where an operand lives from extension
//! words the caller already has; access reads or writes it.

pub mod modes;

use crate::bus::{Access, Bus};
use crate::cpu::{with_a, M68k, ADDR_MASK};
use vstd::prelude::*;

verus! {

broadcast use crate::bus::lemma_masked_address;

/// Operand width.
#[derive(Clone, Copy, PartialEq, Eq, Debug, Structural)]
pub enum Size {
    Byte,
    Word,
    Long,
}

impl Size {
    pub open spec fn spec_bytes(self) -> u32 {
        match self {
            Size::Byte => 1,
            Size::Word => 2,
            Size::Long => 4,
        }
    }

    /// Bytes occupied in memory.
    #[verifier::when_used_as_spec(spec_bytes)]
    pub fn bytes(self) -> (r: u32)
        ensures
            r == self.spec_bytes(),
    {
        match self {
            Size::Byte => 1,
            Size::Word => 2,
            Size::Long => 4,
        }
    }

    pub open spec fn spec_step(self, reg: usize) -> u32 {
        if self == Size::Byte && reg == 7 {
            2
        } else {
            self.spec_bytes()
        }
    }

    /// How much `(An)+` / `-(An)` moves the address register. Byte operands
    /// through `A7` step by 2 so the stack pointer stays word-aligned.
    #[verifier::when_used_as_spec(spec_step)]
    pub fn step(self, reg: usize) -> (r: u32)
        ensures
            r == self.spec_step(reg),
    {
        if self == Size::Byte && reg == 7 {
            2
        } else {
            self.bytes()
        }
    }

    pub open spec fn spec_mask(self) -> u32 {
        match self {
            Size::Byte => 0xFF,
            Size::Word => 0xFFFF,
            Size::Long => 0xFFFF_FFFF,
        }
    }

    /// Mask selecting the bits this size occupies.
    #[verifier::when_used_as_spec(spec_mask)]
    pub fn mask(self) -> (r: u32)
        ensures
            r == self.spec_mask(),
    {
        match self {
            Size::Byte => 0xFF,
            Size::Word => 0xFFFF,
            Size::Long => 0xFFFF_FFFF,
        }
    }

    pub open spec fn spec_msb(self) -> u32 {
        match self {
            Size::Byte => 0x80,
            Size::Word => 0x8000,
            Size::Long => 0x8000_0000,
        }
    }

    /// The sign bit for this size.
    #[verifier::when_used_as_spec(spec_msb)]
    pub fn msb(self) -> (r: u32)
        ensures
            r == self.spec_msb(),
    {
        match self {
            Size::Byte => 0x80,
            Size::Word => 0x8000,
            Size::Long => 0x8000_0000,
        }
    }

    pub open spec fn spec_sign_extend(self, v: u32) -> u32 {
        match self {
            Size::Byte => v as u8 as i8 as i32 as u32,
            Size::Word => v as u16 as i16 as i32 as u32,
            Size::Long => v,
        }
    }

    /// Sign-extends a value of this size to 32 bits.
    #[verifier::when_used_as_spec(spec_sign_extend)]
    pub fn sign_extend(self, v: u32) -> (r: u32)
        ensures
            r == self.spec_sign_extend(v),
    {
        match self {
            Size::Byte => v as u8 as i8 as i32 as u32,
            Size::Word => v as u16 as i16 as i32 as u32,
            Size::Long => v,
        }
    }
}

/// A resolved operand location.
#[derive(Clone, Copy, PartialEq, Eq, Debug, Structural)]
pub enum Ea {
    DataReg(usize),
    AddrReg(usize),
    /// A memory operand at an already-computed, unmasked address.
    Mem(u32),
    /// An immediate already fetched from the instruction stream.
    Imm(u32),
}

/// The size a two-bit size field encodes: 0 byte, 1 word, anything else long.
pub open spec fn size_from_bits(b: u16) -> Size {
    if b == 0 {
        Size::Byte
    } else if b == 1 {
        Size::Word
    } else {
        Size::Long
    }
}

pub open spec fn spec_mode_is_mem(mode: u16, reg: u16) -> bool {
    (2 <= mode && mode <= 6) || (mode == 7 && reg <= 3)
}

/// True if `(mode, reg)` names a memory operand.
#[verifier::when_used_as_spec(spec_mode_is_mem)]
pub fn mode_is_mem(mode: u16, reg: u16) -> (r: bool)
    ensures
        r == spec_mode_is_mem(mode, reg),
{
    (2 <= mode && mode <= 6) || (mode == 7 && reg <= 3)
}

pub open spec fn spec_ext_words(mode: u16, reg: u16, size: Size) -> u32 {
    if mode == 5 || mode == 6 {
        1
    } else if mode == 7 {
        if reg == 0 || reg == 2 || reg == 3 {
            1
        } else if reg == 1 {
            2
        } else if reg == 4 {
            if size == Size::Long { 2 } else { 1 }
        } else {
            0
        }
    } else {
        0
    }
}

/// Number of extension words `(mode, reg)` consumes from the instruction stream.
#[verifier::when_used_as_spec(spec_ext_words)]
pub fn ext_words(mode: u16, reg: u16, size: Size) -> (r: u32)
    ensures
        r == spec_ext_words(mode, reg, size),
        r <= 2,
{
    match mode {
        5 | 6 => 1,
        7 => match reg {
            0 | 2 | 3 => 1,
            1 => 2,
            4 => {
                if size == Size::Long {
                    2
                } else {
                    1
                }
            },
            _ => 0,
        },
        _ => 0,
    }
}

/// Sign-extends a 16-bit word to 32 bits.
pub open spec fn sx16(w: u16) -> u32 {
    w as i16 as i32 as u32
}

/// The index register's contribution to a brief-format extension word.
pub open spec fn index_value(cpu: M68k, ext: u16) -> u32 {
    let ireg = ((ext >> 12u16) & 7u16) as int;
    let raw = if ext & 0x8000u16 != 0 { cpu.a[ireg] } else { cpu.d[ireg] };
    if ext & 0x0800u16 != 0 { raw } else { raw as u16 as i16 as i32 as u32 }
}

/// The address `(d8, base, Xn)` names.
pub open spec fn indexed_spec(cpu: M68k, base: u32, ext: u16) -> u32 {
    base.wrapping_add(index_value(cpu, ext)).wrapping_add(ext as u8 as i8 as i32 as u32)
}

/// The brief format's 8-bit displacement: the extension word's low byte,
/// read as a signed number.
pub open spec fn byte_displacement(ext: u16) -> int {
    let b = ext as int % 256;
    if b >= 128 { b - 256 } else { b }
}

/// A brief-format indexed address is the base plus the index plus the
/// extension word's low byte read as a signed displacement, modulo 2^32.
pub proof fn indexed_address_adds_base_index_and_displacement(cpu: M68k, base: u32, ext: u16)
    ensures
        indexed_spec(cpu, base, ext) as int == (base as int + index_value(cpu, ext) as int + byte_displacement(ext)) % 0x1_0000_0000,
{
    let d = ext as u8 as i8 as i32 as u32;
    assert(d == (if ext % 256 >= 128 { ((ext % 256) as u32 + 0xFFFF_FF00u32) as u32 } else { (ext % 256) as u32 })) by (bit_vector)
        requires
            d == ext as u8 as i8 as i32 as u32,
    ;
}

/// Computes the address for the brief format `(d8, An, Xn)` / `(d8, PC, Xn)`.
pub fn indexed(cpu: &M68k, base: u32, ext: u16) -> (r: u32)
    ensures
        r == indexed_spec(*cpu, base, ext),
{
    let disp = ext as u8 as i8 as i32 as u32;
    let ireg = ((ext >> 12) & 7) as usize;
    assert(((ext >> 12u16) & 7u16) < 8) by (bit_vector);
    let long = ext & 0x0800 != 0;
    let raw = if ext & 0x8000 != 0 {
        cpu.a[ireg]
    } else {
        cpu.d[ireg]
    };
    let index = if long {
        raw
    } else {
        raw as u16 as i16 as i32 as u32
    };
    base.wrapping_add(index).wrapping_add(disp)
}

/// The location `(mode, reg)` names, given its extension words `e0`, `e1` and
/// the address `ext_base` of the first of them (the PC-relative base).
pub open spec fn resolve_spec(cpu: M68k, mode: u16, reg: u16, size: Size, e0: u16, e1: u16, ext_base: u32) -> Ea {
    let r = reg as int;
    if mode == 0 {
        Ea::DataReg(reg as usize)
    } else if mode == 1 {
        Ea::AddrReg(reg as usize)
    } else if mode == 2 || mode == 3 {
        Ea::Mem(cpu.a[r])
    } else if mode == 4 {
        Ea::Mem(cpu.a[r].wrapping_sub(size.spec_step(reg as usize)))
    } else if mode == 5 {
        Ea::Mem(cpu.a[r].wrapping_add(sx16(e0)))
    } else if mode == 6 {
        Ea::Mem(indexed_spec(cpu, cpu.a[r], e0))
    } else if reg == 0 {
        Ea::Mem(sx16(e0))
    } else if reg == 1 {
        Ea::Mem(((e0 as u32) << 16u32) | e1 as u32)
    } else if reg == 2 {
        Ea::Mem(ext_base.wrapping_add(sx16(e0)))
    } else if reg == 3 {
        Ea::Mem(indexed_spec(cpu, ext_base, e0))
    } else {
        Ea::Imm(
            match size {
                Size::Byte => e0 as u32 & 0xFF,
                Size::Word => e0 as u32,
                Size::Long => ((e0 as u32) << 16u32) | e1 as u32,
            },
        )
    }
}

/// The CPU after resolving an `<ea>` with no extension word: `(An)+` and
/// `-(An)` move the address register by the step.
pub open spec fn adjusted(cpu: M68k, mode: u16, reg: u16, size: Size) -> M68k {
    let r = reg as int;
    if mode == 3 {
        with_a(cpu, r, cpu.a[r].wrapping_add(size.spec_step(reg as usize)))
    } else if mode == 4 {
        with_a(cpu, r, cpu.a[r].wrapping_sub(size.spec_step(reg as usize)))
    } else {
        cpu
    }
}

/// Resolving an `<ea>` depends only on the data and address registers, its
/// extension words and the base, not on the rest of the CPU, and on a second
/// word only where it takes two.
pub proof fn lemma_resolve_frame(x: M68k, y: M68k, mode: u16, reg: u16, size: Size, e0: u16, e1: u16, f1: u16, base: u32)
    requires
        x.d == y.d,
        x.a == y.a,
        spec_valid_ea(mode, reg),
        spec_ext_words(mode, reg, size) <= 1 || e1 == f1,
    ensures
        resolve_spec(x, mode, reg, size, e0, e1, base) == resolve_spec(y, mode, reg, size, e0, f1, base),
{
    assert(index_value(x, e0) == index_value(y, e0));
}

/// The `i`-th word of the instruction stream after the opcode, counting from
/// 1: the queue's second word, then `w2`, `w3` and `w4` as they reach it.
pub open spec fn stream_word(cpu: M68k, w2: u16, w3: u16, w4: u16, i: int) -> u16 {
    if i <= 1 {
        cpu.prefetch[1]
    } else if i == 2 {
        w2
    } else if i == 3 {
        w3
    } else {
        w4
    }
}

/// An `<ea>` without extension words resolves alike whatever words and
/// base it is given.
pub proof fn lemma_resolve_no_ext(x: M68k, mode: u16, reg: u16, size: Size, e0: u16, e1: u16, f0: u16, f1: u16, base: u32, base2: u32)
    requires
        spec_valid_ea(mode, reg),
        spec_ext_words(mode, reg, size) == 0,
    ensures
        resolve_spec(x, mode, reg, size, e0, e1, base) == resolve_spec(x, mode, reg, size, f0, f1, base2),
{
}

/// Whether a word or long access to `ea` is at an odd address.
pub open spec fn misaligned_ea(ea: Ea, size: Size) -> bool {
    match ea {
        Ea::Mem(a) => size != Size::Byte && a & 1 != 0,
        _ => false,
    }
}

/// Whether a word or long access through `(An)`, `(An)+` or `-(An)` from
/// `cpu` lands on an odd address.
pub open spec fn misaligned_at(cpu: M68k, mode: u16, reg: u16, size: Size) -> bool {
    2 <= mode <= 4 && size != Size::Byte && match resolve_spec(cpu, mode, reg, size, 0, 0, 0) {
        Ea::Mem(a) => a & 1 != 0,
        _ => false,
    }
}

/// The address register value after resolution: `(An)+` advances and `-(An)`
/// retreats by the step; every other mode leaves the registers alone.
pub open spec fn resolve_adjusts(old: M68k, new: M68k, mode: u16, reg: u16, size: Size) -> bool {
    let r = reg as int;
    &&& new.d == old.d
    &&& new.pc == old.pc && new.sr == old.sr && new.usp == old.usp && new.ssp == old.ssp
    &&& new.prefetch == old.prefetch && new.halted == old.halted && new.stopped == old.stopped
    &&& new.pending_irq == old.pending_irq && new.in_exception == old.in_exception
    &&& new.trace_pending == old.trace_pending
    &&& if mode == 3 {
        new.a@ == old.a@.update(r, old.a[r].wrapping_add(size.spec_step(reg as usize)))
    } else if mode == 4 {
        new.a@ == old.a@.update(r, old.a[r].wrapping_sub(size.spec_step(reg as usize)))
    } else {
        new.a == old.a
    }
}

pub open spec fn spec_valid_ea(mode: u16, reg: u16) -> bool {
    mode < 8 && reg < 8 && (mode != 7 || reg <= 4)
}

/// A valid `(mode, reg)` pair: every mode but 7, and mode 7 up to the immediate.
#[verifier::when_used_as_spec(spec_valid_ea)]
pub fn valid_ea(mode: u16, reg: u16) -> (r: bool)
    ensures
        r == spec_valid_ea(mode, reg),
{
    mode < 8 && reg < 8 && (mode != 7 || reg <= 4)
}

/// Resolves an effective address from extension words the caller already has.
///
/// `(An)+` and `-(An)` update the address register here, as a side effect, so
/// the adjustment is committed even if a later access faults.
pub fn resolve_words(cpu: &mut M68k, mode: u16, reg: u16, size: Size, e0: u16, e1: u16, ext_base: u32) -> (ea: Ea)
    requires
        valid_ea(mode, reg),
    ensures
        ea == resolve_spec(*old(cpu), mode, reg, size, e0, e1, ext_base),
        resolve_adjusts(*old(cpu), *final(cpu), mode, reg, size),
{
    let r = reg as usize;
    match mode {
        0 => Ea::DataReg(r),
        1 => Ea::AddrReg(r),
        2 => Ea::Mem(cpu.a[r]),
        3 => {
            let addr = cpu.a[r];
            cpu.a[r] = addr.wrapping_add(size.step(r));
            Ea::Mem(addr)
        },
        4 => {
            let addr = cpu.a[r].wrapping_sub(size.step(r));
            cpu.a[r] = addr;
            Ea::Mem(addr)
        },
        5 => Ea::Mem(cpu.a[r].wrapping_add(e0 as i16 as i32 as u32)),
        6 => Ea::Mem(indexed(cpu, cpu.a[r], e0)),
        _ => {
            if reg == 0 {
                Ea::Mem(e0 as i16 as i32 as u32)
            } else if reg == 1 {
                Ea::Mem(((e0 as u32) << 16) | e1 as u32)
            } else if reg == 2 {
                Ea::Mem(ext_base.wrapping_add(e0 as i16 as i32 as u32))
            } else if reg == 3 {
                Ea::Mem(indexed(cpu, ext_base, e0))
            } else {
                Ea::Imm(
                    match size {
                        Size::Byte => e0 as u32 & 0xFF,
                        Size::Word => e0 as u32,
                        Size::Long => ((e0 as u32) << 16) | e1 as u32,
                    },
                )
            }
        },
    }
}

/// Resolves an effective address from the operand's extension words `ext`, in
/// instruction order. `ext_base` is the address of the first of them.
pub fn resolve(cpu: &mut M68k, mode: u16, reg: u16, size: Size, ext: &[u16], ext_base: u32) -> (ea: Ea)
    requires
        valid_ea(mode, reg),
        ext.len() >= spec_ext_words(mode, reg, size),
    ensures
        ea == resolve_spec(
            *old(cpu),
            mode,
            reg,
            size,
            if ext.len() > 0 { ext[0] } else { 0 },
            if ext.len() > 1 { ext[1] } else { 0 },
            ext_base,
        ),
        resolve_adjusts(*old(cpu), *final(cpu), mode, reg, size),
{
    let e0 = if ext.len() > 0 { ext[0] } else { 0 };
    let e1 = if ext.len() > 1 { ext[1] } else { 0 };
    resolve_words(cpu, mode, reg, size, e0, e1, ext_base)
}

/// A register operand's read value.
pub open spec fn reg_read_spec(cpu: M68k, ea: Ea, size: Size) -> u32 {
    match ea {
        Ea::DataReg(r) => cpu.d[r as int] & size.mask(),
        Ea::AddrReg(r) => cpu.a[r as int] & size.mask(),
        Ea::Imm(v) => v,
        Ea::Mem(_) => 0,
    }
}

/// A well-formed operand: register numbers are in range.
pub open spec fn ea_ok(ea: Ea) -> bool {
    match ea {
        Ea::DataReg(r) => r < 8,
        Ea::AddrReg(r) => r < 8,
        _ => true,
    }
}

/// How a long and its two words relate, and how bytes and words sit in a `u32`.
pub proof fn lemma_word_parts(hi: u16, lo: u16, b: u8, w: u16, v: u32)
    by (bit_vector)
    ensures
        ((((hi as u32) << 16u32) | lo as u32) >> 16u32) as u16 == hi,
        (((hi as u32) << 16u32) | lo as u32) as u16 == lo,
        (b as u32) & 0xFF == b as u32,
        (w as u32) & 0xFFFF == w as u32,
        v & 0xFFFF_FFFF == v,
{
}

/// The accesses a read of `size` at `addr` makes when it yields `v`: one
/// byte or word at the masked address, or for a long two words, the high
/// word first.
pub open spec fn read_accesses(addr: u32, size: Size, v: u32) -> Seq<Access> {
    let a = addr & ADDR_MASK;
    match size {
        Size::Byte => seq![Access::Read8 { addr: a, val: v as u8 }],
        Size::Word => seq![Access::Read16 { addr: a, val: v as u16 }],
        Size::Long => seq![
            Access::Read16 { addr: a, val: (v >> 16u32) as u16 },
            Access::Read16 { addr: a.wrapping_add(2) & ADDR_MASK, val: v as u16 },
        ],
    }
}

/// The accesses a write of `val` at `size` to `addr` makes: one byte or word
/// at the masked address, or for a long two words, the high word first.
pub open spec fn write_accesses(addr: u32, size: Size, val: u32) -> Seq<Access> {
    let a = addr & ADDR_MASK;
    match size {
        Size::Byte => seq![Access::Write8 { addr: a, val: val as u8 }],
        Size::Word => seq![Access::Write16 { addr: a, val: val as u16 }],
        Size::Long => seq![
            Access::Write16 { addr: a, val: (val >> 16u32) as u16 },
            Access::Write16 { addr: a.wrapping_add(2) & ADDR_MASK, val: val as u16 },
        ],
    }
}

/// Reads a resolved operand. Long reads are two word accesses, high word first.
/// A register or immediate operand makes no bus access.
pub fn read<B: Bus>(cpu: &M68k, bus: &mut B, ea: Ea, size: Size) -> (v: u32)
    requires
        ea_ok(ea),
    ensures
        !(ea is Mem) ==> v == reg_read_spec(*cpu, ea, size) && final(bus).log() == old(bus).log(),
        ea is Mem ==> v & size.mask() == v,
        ea matches Ea::Mem(addr) ==> final(bus).log() == old(bus).log() + read_accesses(addr, size, v),
{
    match ea {
        Ea::DataReg(r) => cpu.d[r] & size.mask(),
        Ea::AddrReg(r) => cpu.a[r] & size.mask(),
        Ea::Imm(v) => v,
        Ea::Mem(addr) => {
            let a = addr & ADDR_MASK;
            match size {
                Size::Byte => {
                    let b = bus.read8(a);
                    proof {
                        lemma_word_parts(0, 0, b, 0, 0);
                    }
                    b as u32
                },
                Size::Word => {
                    let w = bus.read16(a);
                    proof {
                        lemma_word_parts(0, 0, 0, w, 0);
                    }
                    w as u32
                },
                Size::Long => {
                    let hi16 = bus.read16(a);
                    let lo16 = bus.read16(a.wrapping_add(2) & ADDR_MASK);
                    let hi = hi16 as u32;
                    let lo = lo16 as u32;
                    let v = (hi << 16) | lo;
                    proof {
                        lemma_word_parts(hi16, lo16, 0, 0, v);
                    }
                    v
                },
            }
        },
    }
}

/// The register file after writing `val` to a register operand.
pub open spec fn reg_write_spec(cpu: M68k, ea: Ea, size: Size, val: u32) -> M68k {
    match ea {
        Ea::DataReg(r) => M68k {
            d: vstd::array::spec_array_update(cpu.d, r as int, (cpu.d[r as int] & !size.mask()) | (val & size.mask())),
            ..cpu
        },
        Ea::AddrReg(r) => M68k { a: vstd::array::spec_array_update(cpu.a, r as int, size.spec_sign_extend(val)), ..cpu },
        _ => cpu,
    }
}

/// Writes a resolved operand.
///
/// A byte or word write into a data register leaves its upper bits alone; an
/// address-register write takes all 32 bits, sign-extending a word; neither
/// makes a bus access. Long memory writes are two word accesses, high word
/// first.
pub fn write<B: Bus>(cpu: &mut M68k, bus: &mut B, ea: Ea, size: Size, val: u32)
    requires
        ea_ok(ea),
        !(ea is Imm),
    ensures
        *final(cpu) == reg_write_spec(*old(cpu), ea, size, val),
        !(ea is Mem) ==> final(bus).log() == old(bus).log(),
        ea matches Ea::Mem(addr) ==> final(bus).log() == old(bus).log() + write_accesses(addr, size, val),
{
    match ea {
        Ea::DataReg(r) => {
            let m = size.mask();
            cpu.d[r] = (cpu.d[r] & !m) | (val & m);
        },
        Ea::AddrReg(r) => {
            cpu.a[r] = size.sign_extend(val);
        },
        Ea::Imm(_) => {},
        Ea::Mem(addr) => {
            let a = addr & ADDR_MASK;
            match size {
                Size::Byte => bus.write8(a, val as u8),
                Size::Word => bus.write16(a, val as u16),
                Size::Long => {
                    bus.write16(a, (val >> 16) as u16);
                    bus.write16(a.wrapping_add(2) & ADDR_MASK, val as u16);
                },
            }
        },
    }
}

/// The two word writes of a long `val` at `addr` (masked to 24 bits), low
/// word first: the low word at `addr + 2`, then the high word at `addr`.
pub open spec fn long_writes_low_first(addr: u32, val: u32) -> Seq<Access> {
    let a = addr & ADDR_MASK;
    seq![
        Access::Write16 { addr: a.wrapping_add(2) & ADDR_MASK, val: val as u16 },
        Access::Write16 { addr: a, val: (val >> 16u32) as u16 },
    ]
}

/// Writes a long operand **low word first**, then the high word, as a
/// predecrementing destination does. `addr` is the already-decremented address;
/// this does not adjust any register.
pub fn write_predec_long<B: Bus>(bus: &mut B, addr: u32, val: u32)
    ensures
        final(bus).log() == old(bus).log() + long_writes_low_first(addr, val),
{
    let a = addr & ADDR_MASK;
    bus.write16(a.wrapping_add(2) & ADDR_MASK, val as u16);
    bus.write16(a, (val >> 16) as u16);
}

} // verus!
