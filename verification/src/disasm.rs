//! A 68000 disassembler: one instruction from a stream of 16-bit words to
//! MAME-style lowercase text and its length.
//!
//! The text of each instruction is stated as a function of its opcode, its
//! extension words and its address; the decoder reads exactly the words that
//! function consumes.

pub mod text;

use crate::ea::Size;
use crate::ops::{op_mode, op_reg, op_reg9};
use text::{hex_pad_spec, hex_spec, put_hex, put_hex_pad, put_sdec, put_udec, sdec_spec, udec_spec};
use vstd::prelude::*;

verus! {

/// The result of disassembling one instruction.
pub struct Insn {
    /// Lowercase mnemonic with operands, e.g. `"move.l $123456,d0"`.
    pub text: String,
    /// Byte length of the instruction, including extension words.
    pub len: u32,
}

/// A size suffix.
pub open spec fn suffix_spec(sz: Size) -> Seq<char> {
    match sz {
        Size::Byte => "b"@,
        Size::Word => "w"@,
        Size::Long => "l"@,
    }
}

/// The size a two-bit size field encodes (3 is not a size).
pub open spec fn size_bits_spec(b: u16) -> Size {
    if b == 0 {
        Size::Byte
    } else if b == 1 {
        Size::Word
    } else {
        Size::Long
    }
}

/// `dN`.
pub open spec fn dreg(r: u16) -> Seq<char> {
    "d"@ + udec_spec(r as nat)
}

/// `aN`.
pub open spec fn areg(r: u16) -> Seq<char> {
    "a"@ + udec_spec(r as nat)
}

/// `(An)` or `($disp,An)`, the displacement in 16-bit hexadecimal.
pub open spec fn disp_an_spec(disp: i16, an: u16) -> Seq<char> {
    if disp == 0 {
        "("@ + areg(an) + ")"@
    } else {
        "($"@ + hex_spec(disp as u16 as nat) + ","@ + areg(an) + ")"@
    }
}

/// The index register of a brief extension word, with its size.
pub open spec fn index_reg_spec(ext: u16) -> Seq<char> {
    let ireg = (ext >> 12u16) & 7;
    (if ext & 0x8000 != 0 { areg(ireg) } else { dreg(ireg) }) + (if ext & 0x0800 != 0 { ".l"@ } else { ".w"@ })
}

/// `($dd,An,Xn.s)`.
pub open spec fn index_ea_spec(ext: u16, an: u16) -> Seq<char> {
    "($"@ + hex_pad_spec(ext as u8 as nat, 2) + ","@ + areg(an) + ","@ + index_reg_spec(ext) + ")"@
}

/// `($target,pc,Xn.s)`, the target taken from `base`.
pub open spec fn index_pc_spec(ext: u16, base: u32) -> Seq<char> {
    "($"@ + hex_spec(base.wrapping_add(ext as u8 as i8 as i32 as u32) as nat) + ",pc,"@ + index_reg_spec(ext) + ")"@
}

/// An immediate of this size read from `ws` at `k`, and the next index.
pub open spec fn imm_spec(sz: Size, ws: Seq<u16>, k: nat) -> (u32, nat) {
    match sz {
        Size::Byte => ((ws[k as int] & 0xFF) as u32, k + 1),
        Size::Word => (ws[k as int] as u32, k + 1),
        Size::Long => ((((ws[k as int] as u32) << 16u32) | ws[k + 1int] as u32), k + 2),
    }
}

/// The text of an effective address whose extension words start at `ws[k]`,
/// and the index past them. `addr` is the instruction's address.
#[verifier::opaque]
pub open spec fn ea_spec(mode: u16, reg: u16, sz: Size, ws: Seq<u16>, k: nat, addr: u32) -> (Seq<char>, nat) {
    if mode == 0 {
        (dreg(reg), k)
    } else if mode == 1 {
        (areg(reg), k)
    } else if mode == 2 {
        ("("@ + areg(reg) + ")"@, k)
    } else if mode == 3 {
        ("("@ + areg(reg) + ")+"@, k)
    } else if mode == 4 {
        ("-("@ + areg(reg) + ")"@, k)
    } else if mode == 5 {
        (disp_an_spec(ws[k as int] as i16, reg), k + 1)
    } else if mode == 6 {
        (index_ea_spec(ws[k as int], reg), k + 1)
    } else if mode == 7 && reg == 0 {
        ("$"@ + hex_spec(ws[k as int] as i16 as i32 as u32 as nat), k + 1)
    } else if mode == 7 && reg == 1 {
        ("$"@ + hex_spec((((ws[k as int] as u32) << 16u32) | ws[k + 1int] as u32) as nat), k + 2)
    } else if mode == 7 && reg == 2 {
        let target = addr.wrapping_add((2 + 2 * k) as u32).wrapping_add(ws[k as int] as i16 as i32 as u32);
        ("($"@ + hex_spec(target as nat) + ",pc)"@, k + 1)
    } else if mode == 7 && reg == 3 {
        (index_pc_spec(ws[k as int], addr.wrapping_add((2 + 2 * k) as u32)), k + 1)
    } else if mode == 7 && reg == 4 {
        ("#"@ + udec_spec(imm_spec(sz, ws, k).0 as nat), imm_spec(sz, ws, k).1)
    } else {
        ("?"@, k)
    }
}

/// An opcode no encoding matches: `dc.w $XXXX`.
pub open spec fn illegal_spec(op: u16) -> Seq<char> {
    "dc.w $"@ + hex_pad_spec(op as nat, 4)
}

/// The style of a condition-code suffix.
#[derive(Clone, Copy, PartialEq, Eq, Structural)]
pub enum CcStyle {
    /// `Bcc`: 0 and 1 are `ra` and `sr`.
    Bcc,
    /// `Scc`: 0 and 1 are `t` and `f`.
    Scc,
    /// `DBcc`: 0 is `t`, 1 is `ra` (`dbra`, the usual alias of `dbf`).
    Dbcc,
}

/// A condition-code suffix.
pub open spec fn cc_spec(cond: u16, style: CcStyle) -> Seq<char> {
    let c = cond & 0xF;
    if c == 0 {
        if style == CcStyle::Bcc { "ra"@ } else { "t"@ }
    } else if c == 1 {
        if style == CcStyle::Scc { "f"@ } else if style == CcStyle::Bcc { "sr"@ } else { "ra"@ }
    } else if c == 2 {
        "hi"@
    } else if c == 3 {
        "ls"@
    } else if c == 4 {
        "cc"@
    } else if c == 5 {
        "cs"@
    } else if c == 6 {
        "ne"@
    } else if c == 7 {
        "eq"@
    } else if c == 8 {
        "vc"@
    } else if c == 9 {
        "vs"@
    } else if c == 10 {
        "pl"@
    } else if c == 11 {
        "mi"@
    } else if c == 12 {
        "ge"@
    } else if c == 13 {
        "lt"@
    } else if c == 14 {
        "gt"@
    } else {
        "le"@
    }
}

/// A shift or rotate mnemonic from its type and direction bits.
pub open spec fn shift_mnemonic_spec(t: u16, dir: u16) -> Seq<char> {
    let (t, left) = (t & 3, dir & 1 == 1);
    if t == 0 {
        if left { "asl"@ } else { "asr"@ }
    } else if t == 1 {
        if left { "lsl"@ } else { "lsr"@ }
    } else if t == 2 {
        if left { "roxl"@ } else { "roxr"@ }
    } else {
        if left { "rol"@ } else { "ror"@ }
    }
}

/// The name of register `i` of a `MOVEM` mask: `d0`-`d7` for bits 0-7,
/// `a0`-`a7` for bits 8-15.
pub open spec fn mask_reg_spec(i: nat) -> Seq<char> {
    if i < 8 { dreg(i as u16) } else { areg((i - 8) as u16) }
}

/// The registers among the low `n` bits of a `MOVEM` mask, joined by `/`.
pub open spec fn mask_list_spec(mask: u16, n: nat) -> Seq<char>
    decreases n,
{
    if n == 0 {
        Seq::empty()
    } else {
        let prev = mask_list_spec(mask, (n - 1) as nat);
        if mask & (1u16 << (n - 1) as u16) != 0 {
            if prev.len() == 0 { mask_reg_spec((n - 1) as nat) } else { prev + "/"@ + mask_reg_spec((n - 1) as nat) }
        } else {
            prev
        }
    }
}

/// A `MOVEM` register list; `#0` for an empty mask.
pub open spec fn movem_list_spec(mask: u16) -> Seq<char> {
    if mask_list_spec(mask, 16).len() == 0 { "#0"@ } else { mask_list_spec(mask, 16) }
}

} // verus!

verus! {

/// `MOVEP`: the displacement word is read whatever the opmode.
#[verifier::opaque]
pub open spec fn movep_spec(op: u16, ws: Seq<u16>) -> (Seq<char>, nat) {
    let (dn, an, opmode) = (op_reg9(op), op & 7, (op >> 6u16) & 7);
    let ea = disp_an_spec(ws[0] as i16, an);
    if opmode == 4 {
        ("movep.w "@ + ea + ","@ + dreg(dn), 1)
    } else if opmode == 5 {
        ("movep.l "@ + ea + ","@ + dreg(dn), 1)
    } else if opmode == 6 {
        ("movep.w "@ + dreg(dn) + ","@ + ea, 1)
    } else if opmode == 7 {
        ("movep.l "@ + dreg(dn) + ","@ + ea, 1)
    } else {
        (illegal_spec(op), 1)
    }
}

/// The bit instructions: the bit number from `Dn` or an immediate word.
#[verifier::opaque]
pub open spec fn bit_op_spec(op: u16, ws: Seq<u16>, addr: u32, dynamic: bool) -> (Seq<char>, nat) {
    let t = (op >> 6u16) & 3;
    let mnemonic = if t == 0 { "btst"@ } else if t == 1 { "bchg"@ } else if t == 2 { "bclr"@ } else { "bset"@ };
    let (bit, k) = if dynamic { (dreg(op_reg9(op)), 0nat) } else { ("#"@ + udec_spec((ws[0] & 0xFF) as nat), 1nat) };
    let (ea, k2) = ea_spec(op_mode(op), op_reg(op), Size::Byte, ws, k, addr);
    (mnemonic + " "@ + bit + ","@ + ea, k2)
}

/// `ORI`, `ANDI` and `EORI` to CCR (byte) or SR (word).
#[verifier::opaque]
pub open spec fn ccr_sr_spec(op: u16, ws: Seq<u16>) -> (Seq<char>, nat) {
    let family = op_reg9(op);
    let sb = (op >> 6u16) & 3;
    if (family == 0 || family == 1 || family == 5) && sb <= 1 {
        let mnemonic = if family == 0 { "ori"@ } else if family == 1 { "andi"@ } else { "eori"@ };
        let (imm, k) = imm_spec(size_bits_spec(sb), ws, 0);
        (mnemonic + " #"@ + udec_spec(imm as nat) + ","@ + (if sb == 0 { "ccr"@ } else { "sr"@ }), k)
    } else {
        (illegal_spec(op), 0)
    }
}

/// `ORI`, `ANDI`, `SUBI`, `ADDI`, `EORI`, `CMPI` to an `<ea>`: the immediate's
/// words, then the `<ea>`'s.
#[verifier::opaque]
pub open spec fn imm_to_ea_spec(op: u16, ws: Seq<u16>, addr: u32) -> (Seq<char>, nat) {
    let family = op_reg9(op);
    let sz = size_bits_spec((op >> 6u16) & 3);
    let mnemonic = if family == 0 {
        "ori"@
    } else if family == 1 {
        "andi"@
    } else if family == 2 {
        "subi"@
    } else if family == 3 {
        "addi"@
    } else if family == 5 {
        "eori"@
    } else {
        "cmpi"@
    };
    let (imm, k) = imm_spec(sz, ws, 0);
    let (ea, k2) = ea_spec(op_mode(op), op_reg(op), sz, ws, k, addr);
    (mnemonic + "."@ + suffix_spec(sz) + " #"@ + udec_spec(imm as nat) + ","@ + ea, k2)
}

/// The immediate instructions of line 0.
#[verifier::opaque]
pub open spec fn immediate_op_spec(op: u16, ws: Seq<u16>, addr: u32) -> (Seq<char>, nat) {
    let family = op_reg9(op);
    if (op >> 6u16) & 3 == 3 {
        (illegal_spec(op), 0)
    } else if op_mode(op) == 7 && op_reg(op) == 4 {
        ccr_sr_spec(op, ws)
    } else if family == 4 || family == 7 {
        (illegal_spec(op), 0)
    } else {
        imm_to_ea_spec(op, ws, addr)
    }
}

/// Line 0: immediates, `MOVEP` and the bit instructions.
#[verifier::opaque]
pub open spec fn nibble0_spec(op: u16, ws: Seq<u16>, addr: u32) -> (Seq<char>, nat) {
    if op & 0x0100 != 0 {
        if op_mode(op) == 1 {
            movep_spec(op, ws)
        } else {
            bit_op_spec(op, ws, addr, true)
        }
    } else if op_reg9(op) == 4 {
        bit_op_spec(op, ws, addr, false)
    } else {
        immediate_op_spec(op, ws, addr)
    }
}

/// Lines 1-3: `MOVE` and `MOVEA`; the source's words come first.
#[verifier::opaque]
pub open spec fn move_spec(op: u16, ws: Seq<u16>, addr: u32) -> (Seq<char>, nat) {
    let line = op >> 12u16;
    let sz = if line == 1 { Size::Byte } else if line == 3 { Size::Word } else { Size::Long };
    let (dst_mode, dst_reg) = ((op >> 6u16) & 7, op_reg9(op));
    let (src, k) = ea_spec(op_mode(op), op_reg(op), sz, ws, 0, addr);
    if dst_mode == 1 {
        if sz == Size::Byte {
            (illegal_spec(op), 0)
        } else {
            ("movea."@ + suffix_spec(sz) + " "@ + src + ","@ + areg(dst_reg), k)
        }
    } else {
        let (dst, k2) = ea_spec(dst_mode, dst_reg, sz, ws, k, addr);
        ("move."@ + suffix_spec(sz) + " "@ + src + ","@ + dst, k2)
    }
}

/// `MOVEM`: the register mask word, then the `<ea>`.
#[verifier::opaque]
pub open spec fn movem_spec(op: u16, ws: Seq<u16>, addr: u32, to_regs: bool, sz: Size) -> (Seq<char>, nat) {
    let list = movem_list_spec(ws[0]);
    let (ea, k) = ea_spec(op_mode(op), op_reg(op), sz, ws, 1, addr);
    let head = "movem."@ + suffix_spec(sz) + " "@;
    if to_regs {
        (head + ea + ","@ + list, k)
    } else {
        (head + list + ","@ + ea, k)
    }
}

/// The `0x4Exx` space: `TRAP`, `LINK`, `UNLK`, `MOVE USP`, the no-operand
/// instructions, `JSR` and `JMP`.
#[verifier::opaque]
pub open spec fn nibble4_4e_spec(op: u16, ws: Seq<u16>, addr: u32) -> (Seq<char>, nat) {
    let lo = op & 0xFF;
    let sb = (op >> 6u16) & 3;
    if 0x40 <= lo <= 0x4F {
        ("trap #"@ + udec_spec((lo & 0xF) as nat), 0)
    } else if 0x50 <= lo <= 0x57 {
        ("link "@ + areg(lo & 7) + ",#"@ + sdec_spec(ws[0] as i16 as int), 1)
    } else if 0x58 <= lo <= 0x5F {
        ("unlk "@ + areg(lo & 7), 0)
    } else if 0x60 <= lo <= 0x67 {
        ("move "@ + areg(lo & 7) + ",usp"@, 0)
    } else if 0x68 <= lo <= 0x6F {
        ("move usp,"@ + areg(lo & 7), 0)
    } else if lo == 0x70 {
        ("reset"@, 0)
    } else if lo == 0x71 {
        ("nop"@, 0)
    } else if lo == 0x72 {
        ("stop #$"@ + hex_pad_spec(ws[0] as nat, 4), 1)
    } else if lo == 0x73 {
        ("rte"@, 0)
    } else if lo == 0x75 {
        ("rts"@, 0)
    } else if lo == 0x76 {
        ("trapv"@, 0)
    } else if lo == 0x77 {
        ("rtr"@, 0)
    } else if sb == 2 {
        let (ea, k) = ea_spec(op_mode(op), op_reg(op), Size::Long, ws, 0, addr);
        ("jsr "@ + ea, k)
    } else if sb == 3 {
        let (ea, k) = ea_spec(op_mode(op), op_reg(op), Size::Long, ws, 0, addr);
        ("jmp "@ + ea, k)
    } else {
        (illegal_spec(op), 0)
    }
}

/// A mnemonic, a size suffix and one `<ea>` read from `ws[0]` on.
#[verifier::opaque]
pub open spec fn unary_spec(mnemonic: Seq<char>, op: u16, sz: Size, ws: Seq<u16>, addr: u32) -> (Seq<char>, nat) {
    let (ea, k) = ea_spec(op_mode(op), op_reg(op), sz, ws, 0, addr);
    (mnemonic + ea, k)
}

/// Line 4: the single-operand and miscellaneous instructions.
#[verifier::opaque]
pub open spec fn nibble4_spec(op: u16, ws: Seq<u16>, addr: u32) -> (Seq<char>, nat) {
    let (mode, reg) = (op_mode(op), op_reg(op));
    let opmode = (op >> 6u16) & 7;
    let sb = opmode & 3;
    let sel = (op >> 8u16) & 0xF;
    if opmode == 6 {
        let (ea, k) = ea_spec(mode, reg, Size::Word, ws, 0, addr);
        ("chk "@ + ea + ","@ + dreg(op_reg9(op)), k)
    } else if opmode == 7 {
        let (ea, k) = ea_spec(mode, reg, Size::Long, ws, 0, addr);
        ("lea "@ + ea + ","@ + areg(op_reg9(op)), k)
    } else if sel == 8 && sb == 0 {
        unary_spec("nbcd "@, op, Size::Byte, ws, addr)
    } else if sel == 8 && sb == 1 {
        if mode == 0 { ("swap "@ + dreg(reg), 0) } else { unary_spec("pea "@, op, Size::Long, ws, addr) }
    } else if sel == 8 && sb == 2 {
        if mode == 0 { ("ext.w "@ + dreg(reg), 0) } else { movem_spec(op, ws, addr, false, Size::Word) }
    } else if sel == 8 && sb == 3 {
        if mode == 0 { ("ext.l "@ + dreg(reg), 0) } else { movem_spec(op, ws, addr, false, Size::Long) }
    } else if sel == 0xC && sb == 2 {
        movem_spec(op, ws, addr, true, Size::Word)
    } else if sel == 0xC && sb == 3 {
        movem_spec(op, ws, addr, true, Size::Long)
    } else if sb == 3 {
        if sel == 0 {
            unary_spec("move sr,"@, op, Size::Word, ws, addr)
        } else if sel == 4 {
            let (ea, k) = ea_spec(mode, reg, Size::Word, ws, 0, addr);
            ("move "@ + ea + ",ccr"@, k)
        } else if sel == 6 {
            let (ea, k) = ea_spec(mode, reg, Size::Word, ws, 0, addr);
            ("move "@ + ea + ",sr"@, k)
        } else if sel == 0xA {
            if mode == 7 && reg == 4 { (illegal_spec(op), 0) } else { unary_spec("tas "@, op, Size::Byte, ws, addr) }
        } else {
            nibble4_4e_spec(op, ws, addr)
        }
    } else if sel == 0 || sel == 2 || sel == 4 || sel == 6 {
        let mnemonic = if sel == 0 { "negx."@ } else if sel == 2 { "clr."@ } else if sel == 4 { "neg."@ } else { "not."@ };
        unary_spec(mnemonic + suffix_spec(size_bits_spec(sb)) + " "@, op, size_bits_spec(sb), ws, addr)
    } else if sel == 0xA {
        unary_spec("tst."@ + suffix_spec(size_bits_spec(sb)) + " "@, op, size_bits_spec(sb), ws, addr)
    } else if sel == 0xE {
        nibble4_4e_spec(op, ws, addr)
    } else {
        (illegal_spec(op), 0)
    }
}

/// Line 5: `ADDQ`, `SUBQ`, `Scc`, `DBcc`.
#[verifier::opaque]
pub open spec fn nibble5_spec(op: u16, ws: Seq<u16>, addr: u32) -> (Seq<char>, nat) {
    let sb = (op >> 6u16) & 3;
    let cond = (op >> 8u16) & 0xF;
    if sb == 3 {
        if op_mode(op) == 1 {
            let target = addr.wrapping_add(2).wrapping_add(ws[0] as i16 as i32 as u32);
            ("db"@ + cc_spec(cond, CcStyle::Dbcc) + " "@ + dreg(op_reg(op)) + ",$"@ + hex_spec(target as nat), 1)
        } else {
            unary_spec("s"@ + cc_spec(cond, CcStyle::Scc) + " "@, op, Size::Byte, ws, addr)
        }
    } else {
        let data: u16 = if op_reg9(op) == 0 { 8 } else { op_reg9(op) };
        let mnemonic = if op & 0x0100 != 0 { "subq."@ } else { "addq."@ };
        let sz = size_bits_spec(sb);
        unary_spec(mnemonic + suffix_spec(sz) + " #"@ + udec_spec(data as nat) + ","@, op, sz, ws, addr)
    }
}

/// Line 6: `BRA`, `BSR`, `Bcc`; the target is relative to the opcode + 2.
#[verifier::opaque]
pub open spec fn branch_spec(op: u16, ws: Seq<u16>, addr: u32) -> (Seq<char>, nat) {
    let cond = (op >> 8u16) & 0xF;
    let disp8 = op & 0xFF;
    let disp: i32 = if disp8 == 0 { ws[0] as i16 as i32 } else { disp8 as u8 as i8 as i32 };
    let target = addr.wrapping_add(2).wrapping_add(disp as u32);
    let mnemonic = if cond == 0 { "bra"@ } else if cond == 1 { "bsr"@ } else { "b"@ + cc_spec(cond, CcStyle::Bcc) };
    (mnemonic + " $"@ + hex_spec(target as nat), if disp8 == 0 { 1nat } else { 0nat })
}

/// Line 7: `MOVEQ`.
#[verifier::opaque]
pub open spec fn moveq_spec(op: u16) -> (Seq<char>, nat) {
    if op & 0x0100 != 0 {
        (illegal_spec(op), 0)
    } else {
        ("moveq #"@ + sdec_spec((op & 0xFF) as u8 as i8 as int) + ","@ + dreg(op_reg9(op)), 0)
    }
}

/// `op.s <ea>,Dn` or `op.s Dn,<ea>` by the opmode's direction bit.
#[verifier::opaque]
pub open spec fn dyadic_spec(mnemonic: Seq<char>, op: u16, ws: Seq<u16>, addr: u32) -> (Seq<char>, nat) {
    let opmode = (op >> 6u16) & 7;
    let sz = size_bits_spec(opmode & 3);
    let (ea, k) = ea_spec(op_mode(op), op_reg(op), sz, ws, 0, addr);
    let head = mnemonic + "."@ + suffix_spec(sz) + " "@;
    if opmode < 4 {
        (head + ea + ","@ + dreg(op_reg9(op)), k)
    } else {
        (head + dreg(op_reg9(op)) + ","@ + ea, k)
    }
}

/// `op <ea>,An` at word or long size.
#[verifier::opaque]
pub open spec fn addr_op_spec(mnemonic: Seq<char>, op: u16, sz: Size, ws: Seq<u16>, addr: u32) -> (Seq<char>, nat) {
    let (ea, k) = ea_spec(op_mode(op), op_reg(op), sz, ws, 0, addr);
    (mnemonic + ea + ","@ + areg(op_reg9(op)), k)
}

/// `op <ea>,Dn` with a word source (multiplies and divides).
#[verifier::opaque]
pub open spec fn word_to_dn_spec(mnemonic: Seq<char>, op: u16, ws: Seq<u16>, addr: u32) -> (Seq<char>, nat) {
    let (ea, k) = ea_spec(op_mode(op), op_reg(op), Size::Word, ws, 0, addr);
    (mnemonic + ea + ","@ + dreg(op_reg9(op)), k)
}

/// The register-pair forms `op Dy,Dx` and `op -(Ay),-(Ax)`.
#[verifier::opaque]
pub open spec fn pair_spec(mnemonic: Seq<char>, op: u16) -> Seq<char> {
    if op_mode(op) == 0 {
        mnemonic + dreg(op_reg(op)) + ","@ + dreg(op_reg9(op))
    } else {
        mnemonic + "-("@ + areg(op_reg(op)) + "),-("@ + areg(op_reg9(op)) + ")"@
    }
}

/// Line 8: `OR`, `DIVU`, `DIVS`, `SBCD`.
#[verifier::opaque]
pub open spec fn or_spec(op: u16, ws: Seq<u16>, addr: u32) -> (Seq<char>, nat) {
    let opmode = (op >> 6u16) & 7;
    if opmode == 3 {
        word_to_dn_spec("divu "@, op, ws, addr)
    } else if opmode == 7 {
        word_to_dn_spec("divs "@, op, ws, addr)
    } else if 4 <= opmode <= 6 && op_mode(op) <= 1 {
        (pair_spec("sbcd "@, op), 0)
    } else {
        dyadic_spec("or"@, op, ws, addr)
    }
}

/// The `ADD`/`SUB` lines: the address, extended and plain forms.
#[verifier::opaque]
pub open spec fn add_sub_spec(name: Seq<char>, op: u16, ws: Seq<u16>, addr: u32) -> (Seq<char>, nat) {
    let opmode = (op >> 6u16) & 7;
    if opmode == 3 {
        addr_op_spec(name + "a.w "@, op, Size::Word, ws, addr)
    } else if opmode == 7 {
        addr_op_spec(name + "a.l "@, op, Size::Long, ws, addr)
    } else if 4 <= opmode <= 6 && op_mode(op) <= 1 {
        (pair_spec(name + "x."@ + suffix_spec(size_bits_spec((opmode - 4) as u16)) + " "@, op), 0)
    } else {
        dyadic_spec(name, op, ws, addr)
    }
}

/// Line B: `CMP`, `CMPA`, `CMPM`, `EOR`.
#[verifier::opaque]
pub open spec fn compare_eor_spec(op: u16, ws: Seq<u16>, addr: u32) -> (Seq<char>, nat) {
    let opmode = (op >> 6u16) & 7;
    if opmode == 3 {
        addr_op_spec("cmpa.w "@, op, Size::Word, ws, addr)
    } else if opmode == 7 {
        addr_op_spec("cmpa.l "@, op, Size::Long, ws, addr)
    } else if opmode <= 2 {
        dyadic_spec("cmp"@, op, ws, addr)
    } else if op_mode(op) == 1 {
        ("cmpm."@ + suffix_spec(size_bits_spec((opmode - 4) as u16)) + " ("@ + areg(op_reg(op)) + ")+,("@ + areg(op_reg9(op)) + ")+"@, 0)
    } else {
        dyadic_spec("eor"@, op, ws, addr)
    }
}

/// Line C: `AND`, `MULU`, `MULS`, `ABCD`, `EXG`.
#[verifier::opaque]
pub open spec fn and_spec(op: u16, ws: Seq<u16>, addr: u32) -> (Seq<char>, nat) {
    let opmode = (op >> 6u16) & 7;
    let (mode, dn, reg) = (op_mode(op), op_reg9(op), op_reg(op));
    if opmode == 3 {
        word_to_dn_spec("mulu "@, op, ws, addr)
    } else if opmode == 7 {
        word_to_dn_spec("muls "@, op, ws, addr)
    } else if opmode == 4 && mode <= 1 {
        (pair_spec("abcd "@, op), 0)
    } else if opmode == 5 && mode == 0 {
        ("exg "@ + dreg(dn) + ","@ + dreg(reg), 0)
    } else if opmode == 5 && mode == 1 {
        ("exg "@ + areg(dn) + ","@ + areg(reg), 0)
    } else if opmode == 6 && mode == 1 {
        ("exg "@ + dreg(dn) + ","@ + areg(reg), 0)
    } else {
        dyadic_spec("and"@, op, ws, addr)
    }
}

/// Line E: shifts and rotates, by register count, immediate count, or one bit
/// of a memory word.
#[verifier::opaque]
pub open spec fn shift_spec(op: u16, ws: Seq<u16>, addr: u32) -> (Seq<char>, nat) {
    let sb = (op >> 6u16) & 3;
    let dir = (op >> 8u16) & 1;
    if sb == 3 {
        if op & 0x0800 != 0 {
            (illegal_spec(op), 0)
        } else {
            unary_spec(shift_mnemonic_spec((op >> 9u16) & 3, dir) + ".w "@, op, Size::Word, ws, addr)
        }
    } else {
        let cf = op_reg9(op);
        let count = if (op >> 5u16) & 1 != 0 { dreg(cf) } else { "#"@ + udec_spec(if cf == 0 { 8nat } else { cf as nat }) };
        (shift_mnemonic_spec((op >> 3u16) & 3, dir) + "."@ + suffix_spec(size_bits_spec(sb)) + " "@ + count + ","@ + dreg(op_reg(op)), 0)
    }
}

/// The text of the instruction whose opcode is `op` and whose extension words
/// are `ws`, at `addr`, and how many extension words it has.
#[verifier::opaque]
pub open spec fn decode_spec(op: u16, ws: Seq<u16>, addr: u32) -> (Seq<char>, nat) {
    let line = op >> 12u16;
    if line == 0 {
        nibble0_spec(op, ws, addr)
    } else if line <= 3 {
        move_spec(op, ws, addr)
    } else if line == 4 {
        nibble4_spec(op, ws, addr)
    } else if line == 5 {
        nibble5_spec(op, ws, addr)
    } else if line == 6 {
        branch_spec(op, ws, addr)
    } else if line == 7 {
        moveq_spec(op)
    } else if line == 8 {
        or_spec(op, ws, addr)
    } else if line == 9 {
        add_sub_spec("sub"@, op, ws, addr)
    } else if line == 0xB {
        compare_eor_spec(op, ws, addr)
    } else if line == 0xC {
        and_spec(op, ws, addr)
    } else if line == 0xD {
        add_sub_spec("add"@, op, ws, addr)
    } else if line == 0xE {
        shift_spec(op, ws, addr)
    } else {
        (illegal_spec(op), 0)
    }
}

} // verus!

verus! {

/// The words of an instruction so far: `ws[i]` is what `read` returned for the
/// word at `addr + 2 + 2i`.
pub open spec fn reads_from<F: Fn(u32) -> u16>(read: F, addr: u32, ws: Seq<u16>) -> bool {
    forall|i: int| 0 <= i < ws.len() ==> #[trigger] read.ensures((addr.wrapping_add((2 + 2 * i) as u32),), ws[i])
}

/// `new` starts with `old`.
pub open spec fn extends(old: Seq<u16>, new: Seq<u16>) -> bool {
    old.len() <= new.len() && forall|i: int| 0 <= i < old.len() ==> new[i] == old[i]
}

/// The decoder's position in the instruction stream.
struct Dis<F: Fn(u32) -> u16> {
    read: F,
    addr: u32,
    /// Words read so far, the opcode included.
    words_read: u32,
    /// The extension words read so far.
    ws: Ghost<Seq<u16>>,
}

impl<F: Fn(u32) -> u16> Dis<F> {
    spec fn wf(&self) -> bool {
        &&& self.words_read == 1 + self.ws@.len()
        &&& self.ws@.len() <= 4
        &&& forall|a: u32| self.read.requires((a,))
        &&& reads_from(self.read, self.addr, self.ws@)
    }

    /// `self` is `before` with more words read.
    spec fn after(&self, before: &Self) -> bool {
        &&& self.wf()
        &&& self.read == before.read
        &&& self.addr == before.addr
        &&& extends(before.ws@, self.ws@)
    }

    /// Reads the next extension word.
    fn next_word(&mut self) -> (w: u16)
        requires
            old(self).wf(),
            old(self).ws@.len() < 4,
        ensures
            final(self).after(old(self)),
            final(self).ws@ == old(self).ws@.push(w),
    {
        let a = self.addr.wrapping_add(self.words_read * 2);
        let w = (self.read)(a);
        self.words_read = self.words_read + 1;
        self.ws = Ghost(self.ws@.push(w));
        proof {
            assert(a == self.addr.wrapping_add((2 + 2 * (self.ws@.len() - 1)) as u32));
            assert forall|i: int| 0 <= i < self.ws@.len() implies #[trigger] self.read.ensures(
                (self.addr.wrapping_add((2 + 2 * i) as u32),),
                self.ws@[i],
            ) by {
                if i < self.ws@.len() - 1 {
                    assert(self.ws@[i] == old(self).ws@[i]);
                }
            }
        }
        w
    }

    /// Reads an immediate of this size.
    fn read_immediate(&mut self, sz: Size) -> (v: u32)
        requires
            old(self).wf(),
            old(self).ws@.len() + 2 <= 4,
        ensures
            final(self).after(old(self)),
            (v, final(self).ws@.len() as nat) == imm_spec(sz, final(self).ws@, old(self).ws@.len() as nat),
    {
        match sz {
            Size::Byte => {
                let w = self.next_word();
                (w & 0xFF) as u32
            },
            Size::Word => self.next_word() as u32,
            Size::Long => {
                let hi = self.next_word() as u32;
                let lo = self.next_word() as u32;
                (hi << 16) | lo
            },
        }
    }
}

} // verus!

verus! {

fn put_dreg(out: &mut String, r: u16)
    ensures
        final(out)@ == old(out)@ + dreg(r),
{
    out.append("d");
    put_udec(out, r as u32);
}

fn put_areg(out: &mut String, r: u16)
    ensures
        final(out)@ == old(out)@ + areg(r),
{
    out.append("a");
    put_udec(out, r as u32);
}

fn put_suffix(out: &mut String, sz: Size)
    ensures
        final(out)@ == old(out)@ + suffix_spec(sz),
{
    match sz {
        Size::Byte => out.append("b"),
        Size::Word => out.append("w"),
        Size::Long => out.append("l"),
    }
}

/// The size a two-bit size field encodes.
fn size_of_bits(b: u16) -> (sz: Size)
    ensures
        sz == size_bits_spec(b),
{
    if b == 0 {
        Size::Byte
    } else if b == 1 {
        Size::Word
    } else {
        Size::Long
    }
}

fn put_disp_an(out: &mut String, disp: i16, an: u16)
    ensures
        final(out)@ == old(out)@ + disp_an_spec(disp, an),
{
    if disp == 0 {
        out.append("(");
        put_areg(out, an);
        out.append(")");
    } else {
        out.append("($");
        put_hex(out, disp as u16 as u32);
        out.append(",");
        put_areg(out, an);
        out.append(")");
    }
}

fn put_index_reg(out: &mut String, ext: u16)
    ensures
        final(out)@ == old(out)@ + index_reg_spec(ext),
{
    let ireg = (ext >> 12) & 7;
    if ext & 0x8000 != 0 {
        put_areg(out, ireg);
    } else {
        put_dreg(out, ireg);
    }
    if ext & 0x0800 != 0 {
        out.append(".l");
    } else {
        out.append(".w");
    }
}

fn put_index_ea(out: &mut String, ext: u16, an: u16)
    ensures
        final(out)@ == old(out)@ + index_ea_spec(ext, an),
{
    out.append("($");
    put_hex_pad(out, ext as u8 as u32, 2);
    out.append(",");
    put_areg(out, an);
    out.append(",");
    put_index_reg(out, ext);
    out.append(")");
}

fn put_index_pc(out: &mut String, ext: u16, base: u32)
    ensures
        final(out)@ == old(out)@ + index_pc_spec(ext, base),
{
    out.append("($");
    put_hex(out, base.wrapping_add(ext as u8 as i8 as i32 as u32));
    out.append(",pc,");
    put_index_reg(out, ext);
    out.append(")");
}

fn put_illegal(out: &mut String, op: u16)
    ensures
        final(out)@ == old(out)@ + illegal_spec(op),
{
    out.append("dc.w $");
    put_hex_pad(out, op as u32, 4);
}

fn put_cc(out: &mut String, cond: u16, style: CcStyle)
    ensures
        final(out)@ == old(out)@ + cc_spec(cond, style),
{
    let c = cond & 0xF;
    let s: &str = if c == 0 {
        if style == CcStyle::Bcc {
            "ra"
        } else {
            "t"
        }
    } else if c == 1 {
        if style == CcStyle::Scc {
            "f"
        } else if style == CcStyle::Bcc {
            "sr"
        } else {
            "ra"
        }
    } else if c == 2 {
        "hi"
    } else if c == 3 {
        "ls"
    } else if c == 4 {
        "cc"
    } else if c == 5 {
        "cs"
    } else if c == 6 {
        "ne"
    } else if c == 7 {
        "eq"
    } else if c == 8 {
        "vc"
    } else if c == 9 {
        "vs"
    } else if c == 10 {
        "pl"
    } else if c == 11 {
        "mi"
    } else if c == 12 {
        "ge"
    } else if c == 13 {
        "lt"
    } else if c == 14 {
        "gt"
    } else {
        "le"
    };
    out.append(s);
}

fn put_shift_mnemonic(out: &mut String, t: u16, dir: u16)
    ensures
        final(out)@ == old(out)@ + shift_mnemonic_spec(t, dir),
{
    let (t, left) = (t & 3, dir & 1 == 1);
    let s: &str = if t == 0 {
        if left {
            "asl"
        } else {
            "asr"
        }
    } else if t == 1 {
        if left {
            "lsl"
        } else {
            "lsr"
        }
    } else if t == 2 {
        if left {
            "roxl"
        } else {
            "roxr"
        }
    } else {
        if left {
            "rol"
        } else {
            "ror"
        }
    };
    out.append(s);
}

fn put_mask_reg(out: &mut String, i: u16)
    requires
        i < 16,
    ensures
        final(out)@ == old(out)@ + mask_reg_spec(i as nat),
{
    if i < 8 {
        put_dreg(out, i);
    } else {
        put_areg(out, i - 8);
    }
}

/// Appends a `MOVEM` register list.
fn put_movem_list(out: &mut String, mask: u16)
    ensures
        final(out)@ == old(out)@ + movem_list_spec(mask),
{
    let ghost start = out@;
    let mut any = false;
    let mut i: u16 = 0;
    while i < 16
        invariant
            i <= 16,
            out@ == start + mask_list_spec(mask, i as nat),
            any == (mask_list_spec(mask, i as nat).len() > 0),
        decreases 16 - i,
    {
        proof {
            lemma_mask_reg_nonempty(i as nat);
        }
        if mask & (1u16 << i) != 0 {
            if any {
                out.append("/");
            }
            put_mask_reg(out, i);
            any = true;
        }
        i = i + 1;
    }
    if !any {
        out.append("#0");
    }
}

proof fn lemma_mask_reg_nonempty(i: nat)
    ensures
        mask_reg_spec(i).len() > 0,
{
    reveal_strlit("d");
    reveal_strlit("a");
}

} // verus!

verus! {

/// An effective address's text depends only on the words it reads.
proof fn lemma_ea_local(mode: u16, reg: u16, sz: Size, ws1: Seq<u16>, ws2: Seq<u16>, k: nat, addr: u32)
    requires
        extends(ws1, ws2),
        ea_spec(mode, reg, sz, ws1, k, addr).1 <= ws1.len(),
    ensures
        ea_spec(mode, reg, sz, ws2, k, addr) == ea_spec(mode, reg, sz, ws1, k, addr),
{
    reveal(ea_spec);
    if k < ws1.len() {
        assert(ws2[k as int] == ws1[k as int]);
    }
    if k + 1 < ws1.len() {
        assert(ws2[k + 1int] == ws1[k + 1int]);
    }
}

impl<F: Fn(u32) -> u16> Dis<F> {
    /// Appends an effective address, reading its extension words.
    fn put_ea(&mut self, out: &mut String, mode: u16, reg: u16, sz: Size)
        requires
            old(self).wf(),
            old(self).ws@.len() + 2 <= 4,
        ensures
            final(self).after(old(self)),
            final(out)@ == old(out)@ + ea_spec(mode, reg, sz, final(self).ws@, old(self).ws@.len() as nat, old(self).addr).0,
            final(self).ws@.len() == ea_spec(mode, reg, sz, final(self).ws@, old(self).ws@.len() as nat, old(self).addr).1,
            final(self).ws@.len() <= old(self).ws@.len() + 2,
    {
        proof {
            reveal(ea_spec);
        }
        let ghost k = self.ws@.len() as nat;
        if mode == 0 {
            put_dreg(out, reg);
        } else if mode == 1 {
            put_areg(out, reg);
        } else if mode == 2 {
            out.append("(");
            put_areg(out, reg);
            out.append(")");
        } else if mode == 3 {
            out.append("(");
            put_areg(out, reg);
            out.append(")+");
        } else if mode == 4 {
            out.append("-(");
            put_areg(out, reg);
            out.append(")");
        } else if mode == 5 {
            let disp = self.next_word() as i16;
            put_disp_an(out, disp, reg);
        } else if mode == 6 {
            let ext = self.next_word();
            put_index_ea(out, ext, reg);
        } else if mode == 7 && reg == 0 {
            let w = self.next_word() as i16;
            out.append("$");
            put_hex(out, w as i32 as u32);
        } else if mode == 7 && reg == 1 {
            let hi = self.next_word() as u32;
            let lo = self.next_word() as u32;
            out.append("$");
            put_hex(out, (hi << 16) | lo);
        } else if mode == 7 && reg == 2 {
            let disp = self.next_word() as i16;
            let base = self.addr.wrapping_add((self.words_read - 1) * 2);
            let target = base.wrapping_add(disp as i32 as u32);
            out.append("($");
            put_hex(out, target);
            out.append(",pc)");
        } else if mode == 7 && reg == 3 {
            let ext = self.next_word();
            let base = self.addr.wrapping_add((self.words_read - 1) * 2);
            put_index_pc(out, ext, base);
        } else if mode == 7 && reg == 4 {
            let imm = self.read_immediate(sz);
            out.append("#");
            put_udec(out, imm);
        } else {
            out.append("?");
        }
    }
}

} // verus!

verus! {

/// `out` grew by `r.0`, and `d` has read `r.1` extension words.
spec fn emits<F: Fn(u32) -> u16>(d: Dis<F>, new: Seq<char>, old: Seq<char>, r: (Seq<char>, nat)) -> bool {
    new =~= old + r.0 && d.ws@.len() == r.1
}

impl<F: Fn(u32) -> u16> Dis<F> {
    fn decode_movep(&mut self, op: u16, out: &mut String)
        requires
            old(self).wf(),
            old(self).ws@.len() == 0,
        ensures
            final(self).after(old(self)),
            emits(*final(self), final(out)@, old(out)@, movep_spec(op, final(self).ws@)),
    {
        proof {
            reveal(movep_spec);
        }
        let dn = (op >> 9) & 7;
        let an = op & 7;
        let opmode = (op >> 6) & 7;
        let disp = self.next_word() as i16;
        if opmode == 4 || opmode == 5 {
            out.append(if opmode == 4 { "movep.w " } else { "movep.l " });
            put_disp_an(out, disp, an);
            out.append(",");
            put_dreg(out, dn);
        } else if opmode == 6 || opmode == 7 {
            out.append(if opmode == 6 { "movep.w " } else { "movep.l " });
            put_dreg(out, dn);
            out.append(",");
            put_disp_an(out, disp, an);
        } else {
            put_illegal(out, op);
        }
    }

    fn decode_bit_op(&mut self, op: u16, dynamic: bool, out: &mut String)
        requires
            old(self).wf(),
            old(self).ws@.len() == 0,
        ensures
            final(self).after(old(self)),
            emits(*final(self), final(out)@, old(out)@, bit_op_spec(op, final(self).ws@, old(self).addr, dynamic)),
    {
        proof {
            reveal(bit_op_spec);
        }
        let t = (op >> 6) & 3;
        out.append(
            if t == 0 {
                "btst"
            } else if t == 1 {
                "bchg"
            } else if t == 2 {
                "bclr"
            } else {
                "bset"
            },
        );
        out.append(" ");
        if dynamic {
            put_dreg(out, (op >> 9) & 7);
        } else {
            let imm = self.next_word() & 0xFF;
            out.append("#");
            put_udec(out, imm as u32);
        }
        out.append(",");
        self.put_ea(out, (op >> 3) & 7, op & 7, Size::Byte);
    }

    fn decode_ccr_sr(&mut self, op: u16, out: &mut String)
        requires
            old(self).wf(),
            old(self).ws@.len() == 0,
        ensures
            final(self).after(old(self)),
            emits(*final(self), final(out)@, old(out)@, ccr_sr_spec(op, final(self).ws@)),
    {
        proof {
            reveal(ccr_sr_spec);
        }
        let family = (op >> 9) & 7;
        let sb = (op >> 6) & 3;
        if (family == 0 || family == 1 || family == 5) && sb <= 1 {
            let imm = self.read_immediate(size_of_bits(sb));
            out.append(
                if family == 0 {
                    "ori"
                } else if family == 1 {
                    "andi"
                } else {
                    "eori"
                },
            );
            out.append(" #");
            put_udec(out, imm);
            out.append(",");
            out.append(if sb == 0 { "ccr" } else { "sr" });
        } else {
            put_illegal(out, op);
        }
    }

    fn decode_imm_to_ea(&mut self, op: u16, out: &mut String)
        requires
            old(self).wf(),
            old(self).ws@.len() == 0,
        ensures
            final(self).after(old(self)),
            emits(*final(self), final(out)@, old(out)@, imm_to_ea_spec(op, final(self).ws@, old(self).addr)),
    {
        proof {
            reveal(imm_to_ea_spec);
        }
        let family = (op >> 9) & 7;
        let sz = size_of_bits((op >> 6) & 3);
        let imm = self.read_immediate(sz);
        out.append(
            if family == 0 {
                "ori"
            } else if family == 1 {
                "andi"
            } else if family == 2 {
                "subi"
            } else if family == 3 {
                "addi"
            } else if family == 5 {
                "eori"
            } else {
                "cmpi"
            },
        );
        out.append(".");
        put_suffix(out, sz);
        out.append(" #");
        put_udec(out, imm);
        out.append(",");
        let ghost w1 = self.ws@;
        self.put_ea(out, (op >> 3) & 7, op & 7, sz);
        assert(imm_spec(sz, self.ws@, 0) == imm_spec(sz, w1, 0));
    }

    fn decode_immediate_op(&mut self, op: u16, out: &mut String)
        requires
            old(self).wf(),
            old(self).ws@.len() == 0,
        ensures
            final(self).after(old(self)),
            emits(*final(self), final(out)@, old(out)@, immediate_op_spec(op, final(self).ws@, old(self).addr)),
    {
        proof {
            reveal(immediate_op_spec);
        }
        let family = (op >> 9) & 7;
        if (op >> 6) & 3 == 3 {
            put_illegal(out, op);
        } else if (op >> 3) & 7 == 7 && op & 7 == 4 {
            self.decode_ccr_sr(op, out);
        } else if family == 4 || family == 7 {
            put_illegal(out, op);
        } else {
            self.decode_imm_to_ea(op, out);
        }
    }

    fn decode_nibble0(&mut self, op: u16, out: &mut String)
        requires
            old(self).wf(),
            old(self).ws@.len() == 0,
        ensures
            final(self).after(old(self)),
            emits(*final(self), final(out)@, old(out)@, nibble0_spec(op, final(self).ws@, old(self).addr)),
    {
        proof {
            reveal(nibble0_spec);
        }
        if op & 0x0100 != 0 {
            if (op >> 3) & 7 == 1 {
                self.decode_movep(op, out);
            } else {
                self.decode_bit_op(op, true, out);
            }
        } else if (op >> 9) & 7 == 4 {
            self.decode_bit_op(op, false, out);
        } else {
            self.decode_immediate_op(op, out);
        }
    }

    fn decode_move(&mut self, op: u16, out: &mut String)
        requires
            old(self).wf(),
            old(self).ws@.len() == 0,
        ensures
            final(self).after(old(self)),
            emits(*final(self), final(out)@, old(out)@, move_spec(op, final(self).ws@, old(self).addr)),
    {
        proof {
            reveal(move_spec);
        }
        let line = op >> 12;
        let sz = if line == 1 {
            Size::Byte
        } else if line == 3 {
            Size::Word
        } else {
            Size::Long
        };
        let dst_mode = (op >> 6) & 7;
        let dst_reg = (op >> 9) & 7;
        if dst_mode == 1 {
            if sz == Size::Byte {
                put_illegal(out, op);
                return;
            }
            out.append("movea.");
            put_suffix(out, sz);
            out.append(" ");
            self.put_ea(out, (op >> 3) & 7, op & 7, sz);
            out.append(",");
            put_areg(out, dst_reg);
            return;
        }
        out.append("move.");
        put_suffix(out, sz);
        out.append(" ");
        self.put_ea(out, (op >> 3) & 7, op & 7, sz);
        out.append(",");
        let ghost w1 = self.ws@;
        self.put_ea(out, dst_mode, dst_reg, sz);
        proof {
            lemma_ea_local((op >> 3u16) & 7, op & 7, sz, w1, self.ws@, 0, self.addr);
        }
    }

    #[verifier::spinoff_prover]
    #[verifier::rlimit(30)]
    fn decode_movem(&mut self, op: u16, to_regs: bool, sz: Size, out: &mut String)
        requires
            old(self).wf(),
            old(self).ws@.len() == 0,
        ensures
            final(self).after(old(self)),
            emits(*final(self), final(out)@, old(out)@, movem_spec(op, final(self).ws@, old(self).addr, to_regs, sz)),
    {
        proof {
            reveal(movem_spec);
        }
        let mask = self.next_word();
        out.append("movem.");
        put_suffix(out, sz);
        out.append(" ");
        if to_regs {
            self.put_ea(out, (op >> 3) & 7, op & 7, sz);
            out.append(",");
            put_movem_list(out, mask);
        } else {
            put_movem_list(out, mask);
            out.append(",");
            self.put_ea(out, (op >> 3) & 7, op & 7, sz);
        }
    }

    fn decode_nibble4_4e(&mut self, op: u16, out: &mut String)
        requires
            old(self).wf(),
            old(self).ws@.len() == 0,
        ensures
            final(self).after(old(self)),
            emits(*final(self), final(out)@, old(out)@, nibble4_4e_spec(op, final(self).ws@, old(self).addr)),
    {
        proof {
            reveal(nibble4_4e_spec);
            reveal(unary_spec);
        }
        let lo = op & 0xFF;
        let sb = (op >> 6) & 3;
        if 0x40 <= lo && lo <= 0x4F {
            out.append("trap #");
            put_udec(out, (lo & 0xF) as u32);
        } else if 0x50 <= lo && lo <= 0x57 {
            let disp = self.next_word() as i16;
            out.append("link ");
            put_areg(out, lo & 7);
            out.append(",#");
            put_sdec(out, disp as i32);
        } else if 0x58 <= lo && lo <= 0x5F {
            out.append("unlk ");
            put_areg(out, lo & 7);
        } else if 0x60 <= lo && lo <= 0x67 {
            out.append("move ");
            put_areg(out, lo & 7);
            out.append(",usp");
        } else if 0x68 <= lo && lo <= 0x6F {
            out.append("move usp,");
            put_areg(out, lo & 7);
        } else if lo == 0x70 {
            out.append("reset");
        } else if lo == 0x71 {
            out.append("nop");
        } else if lo == 0x72 {
            let imm = self.next_word();
            out.append("stop #$");
            put_hex_pad(out, imm as u32, 4);
        } else if lo == 0x73 {
            out.append("rte");
        } else if lo == 0x75 {
            out.append("rts");
        } else if lo == 0x76 {
            out.append("trapv");
        } else if lo == 0x77 {
            out.append("rtr");
        } else if sb == 2 {
            out.append("jsr ");
            self.put_ea(out, (op >> 3) & 7, op & 7, Size::Long);
        } else if sb == 3 {
            out.append("jmp ");
            self.put_ea(out, (op >> 3) & 7, op & 7, Size::Long);
        } else {
            put_illegal(out, op);
        }
    }
}

} // verus!

verus! {

impl<F: Fn(u32) -> u16> Dis<F> {
    /// Appends `mnemonic` pieces already written, then one `<ea>`.
    fn decode_nibble4(&mut self, op: u16, out: &mut String)
        requires
            old(self).wf(),
            old(self).ws@.len() == 0,
        ensures
            final(self).after(old(self)),
            emits(*final(self), final(out)@, old(out)@, nibble4_spec(op, final(self).ws@, old(self).addr)),
    {
        proof {
            reveal(nibble4_spec);
            reveal(unary_spec);
        }
        let mode = (op >> 3) & 7;
        let reg = op & 7;
        let opmode = (op >> 6) & 7;
        let sb = opmode & 3;
        let sel = (op >> 8) & 0xF;
        if opmode == 6 {
            out.append("chk ");
            self.put_ea(out, mode, reg, Size::Word);
            out.append(",");
            put_dreg(out, (op >> 9) & 7);
        } else if opmode == 7 {
            out.append("lea ");
            self.put_ea(out, mode, reg, Size::Long);
            out.append(",");
            put_areg(out, (op >> 9) & 7);
        } else if sel == 8 && sb == 0 {
            out.append("nbcd ");
            self.put_ea(out, mode, reg, Size::Byte);
        } else if sel == 8 && sb == 1 {
            if mode == 0 {
                out.append("swap ");
                put_dreg(out, reg);
            } else {
                out.append("pea ");
                self.put_ea(out, mode, reg, Size::Long);
            }
        } else if sel == 8 && sb == 2 {
            if mode == 0 {
                out.append("ext.w ");
                put_dreg(out, reg);
            } else {
                self.decode_movem(op, false, Size::Word, out);
            }
        } else if sel == 8 && sb == 3 {
            if mode == 0 {
                out.append("ext.l ");
                put_dreg(out, reg);
            } else {
                self.decode_movem(op, false, Size::Long, out);
            }
        } else if sel == 0xC && sb == 2 {
            self.decode_movem(op, true, Size::Word, out);
        } else if sel == 0xC && sb == 3 {
            self.decode_movem(op, true, Size::Long, out);
        } else if sb == 3 {
            if sel == 0 {
                out.append("move sr,");
                self.put_ea(out, mode, reg, Size::Word);
            } else if sel == 4 || sel == 6 {
                out.append("move ");
                self.put_ea(out, mode, reg, Size::Word);
                out.append(if sel == 4 { ",ccr" } else { ",sr" });
            } else if sel == 0xA {
                if mode == 7 && reg == 4 {
                    // 0x4AFC is the ILLEGAL instruction.
                    put_illegal(out, op);
                } else {
                    out.append("tas ");
                    self.put_ea(out, mode, reg, Size::Byte);
                }
            } else {
                self.decode_nibble4_4e(op, out);
            }
        } else if sel == 0 || sel == 2 || sel == 4 || sel == 6 {
            let sz = size_of_bits(sb);
            out.append(
                if sel == 0 {
                    "negx."
                } else if sel == 2 {
                    "clr."
                } else if sel == 4 {
                    "neg."
                } else {
                    "not."
                },
            );
            put_suffix(out, sz);
            out.append(" ");
            self.put_ea(out, mode, reg, sz);
        } else if sel == 0xA {
            let sz = size_of_bits(sb);
            out.append("tst.");
            put_suffix(out, sz);
            out.append(" ");
            self.put_ea(out, mode, reg, sz);
        } else if sel == 0xE {
            self.decode_nibble4_4e(op, out);
        } else {
            put_illegal(out, op);
        }
    }

    fn decode_nibble5(&mut self, op: u16, out: &mut String)
        requires
            old(self).wf(),
            old(self).ws@.len() == 0,
        ensures
            final(self).after(old(self)),
            emits(*final(self), final(out)@, old(out)@, nibble5_spec(op, final(self).ws@, old(self).addr)),
    {
        proof {
            reveal(nibble5_spec);
            reveal(unary_spec);
        }
        let sb = (op >> 6) & 3;
        let mode = (op >> 3) & 7;
        let reg = op & 7;
        let cond = (op >> 8) & 0xF;
        if sb == 3 {
            if mode == 1 {
                let disp = self.next_word() as i16;
                let target = self.addr.wrapping_add(2).wrapping_add(disp as i32 as u32);
                out.append("db");
                put_cc(out, cond, CcStyle::Dbcc);
                out.append(" ");
                put_dreg(out, reg);
                out.append(",$");
                put_hex(out, target);
            } else {
                out.append("s");
                put_cc(out, cond, CcStyle::Scc);
                out.append(" ");
                self.put_ea(out, mode, reg, Size::Byte);
            }
            return;
        }
        let sz = size_of_bits(sb);
        let q = (op >> 9) & 7;
        let data: u16 = if q == 0 {
            8
        } else {
            q
        };
        out.append(if op & 0x0100 != 0 { "subq." } else { "addq." });
        put_suffix(out, sz);
        out.append(" #");
        put_udec(out, data as u32);
        out.append(",");
        self.put_ea(out, mode, reg, sz);
    }

    fn decode_branch(&mut self, op: u16, out: &mut String)
        requires
            old(self).wf(),
            old(self).ws@.len() == 0,
        ensures
            final(self).after(old(self)),
            emits(*final(self), final(out)@, old(out)@, branch_spec(op, final(self).ws@, old(self).addr)),
    {
        proof {
            reveal(branch_spec);
        }
        let cond = (op >> 8) & 0xF;
        let disp8 = op & 0xFF;
        let disp: i32 = if disp8 == 0 {
            self.next_word() as i16 as i32
        } else {
            disp8 as u8 as i8 as i32
        };
        // The base is the opcode + 2, whatever the displacement's width.
        let target = self.addr.wrapping_add(2).wrapping_add(disp as u32);
        if cond == 0 {
            out.append("bra");
        } else if cond == 1 {
            out.append("bsr");
        } else {
            out.append("b");
            put_cc(out, cond, CcStyle::Bcc);
        }
        out.append(" $");
        put_hex(out, target);
    }

    /// `op.s <ea>,Dn` or `op.s Dn,<ea>`.
    fn decode_dyadic(&mut self, name: &str, op: u16, out: &mut String)
        requires
            old(self).wf(),
            old(self).ws@.len() == 0,
        ensures
            final(self).after(old(self)),
            emits(*final(self), final(out)@, old(out)@, dyadic_spec(name@, op, final(self).ws@, old(self).addr)),
    {
        proof {
            reveal(dyadic_spec);
        }
        let opmode = (op >> 6) & 7;
        let sz = size_of_bits(opmode & 3);
        out.append(name);
        out.append(".");
        put_suffix(out, sz);
        out.append(" ");
        if opmode < 4 {
            self.put_ea(out, (op >> 3) & 7, op & 7, sz);
            out.append(",");
            put_dreg(out, (op >> 9) & 7);
        } else {
            put_dreg(out, (op >> 9) & 7);
            out.append(",");
            self.put_ea(out, (op >> 3) & 7, op & 7, sz);
        }
    }

    /// `op <ea>,An`, the mnemonic already written.
    fn decode_addr_op(&mut self, op: u16, sz: Size, out: &mut String)
        requires
            old(self).wf(),
            old(self).ws@.len() == 0,
        ensures
            final(self).after(old(self)),
            emits(*final(self), final(out)@, old(out)@, addr_op_spec(Seq::empty(), op, sz, final(self).ws@, old(self).addr)),
    {
        proof {
            reveal(addr_op_spec);
        }
        self.put_ea(out, (op >> 3) & 7, op & 7, sz);
        out.append(",");
        put_areg(out, (op >> 9) & 7);
    }

    /// `op <ea>,Dn` with a word source, the mnemonic already written.
    fn decode_word_to_dn(&mut self, op: u16, out: &mut String)
        requires
            old(self).wf(),
            old(self).ws@.len() == 0,
        ensures
            final(self).after(old(self)),
            emits(*final(self), final(out)@, old(out)@, word_to_dn_spec(Seq::empty(), op, final(self).ws@, old(self).addr)),
    {
        proof {
            reveal(word_to_dn_spec);
        }
        self.put_ea(out, (op >> 3) & 7, op & 7, Size::Word);
        out.append(",");
        put_dreg(out, (op >> 9) & 7);
    }
}

/// The operands of a register-pair form, after its mnemonic.
fn put_pair(out: &mut String, op: u16)
    ensures
        final(out)@ == old(out)@ + pair_spec(Seq::empty(), op),
{
    proof {
        reveal(pair_spec);
    }
    if (op >> 3) & 7 == 0 {
        put_dreg(out, op & 7);
        out.append(",");
        put_dreg(out, (op >> 9) & 7);
    } else {
        out.append("-(");
        put_areg(out, op & 7);
        out.append("),-(");
        put_areg(out, (op >> 9) & 7);
        out.append(")");
    }
}

} // verus!

verus! {

impl<F: Fn(u32) -> u16> Dis<F> {
    fn decode_or(&mut self, op: u16, out: &mut String)
        requires
            old(self).wf(),
            old(self).ws@.len() == 0,
        ensures
            final(self).after(old(self)),
            emits(*final(self), final(out)@, old(out)@, or_spec(op, final(self).ws@, old(self).addr)),
    {
        proof {
            reveal(or_spec);
            reveal(word_to_dn_spec);
            reveal(pair_spec);
        }
        let opmode = (op >> 6) & 7;
        if opmode == 3 || opmode == 7 {
            out.append(if opmode == 3 { "divu " } else { "divs " });
            self.decode_word_to_dn(op, out);
        } else if 4 <= opmode && opmode <= 6 && (op >> 3) & 7 <= 1 {
            out.append("sbcd ");
            put_pair(out, op);
        } else {
            self.decode_dyadic("or", op, out);
        }
    }

    /// The `ADD` and `SUB` lines.
    fn decode_add_sub(&mut self, name: &str, op: u16, out: &mut String)
        requires
            old(self).wf(),
            old(self).ws@.len() == 0,
        ensures
            final(self).after(old(self)),
            emits(*final(self), final(out)@, old(out)@, add_sub_spec(name@, op, final(self).ws@, old(self).addr)),
    {
        proof {
            reveal(add_sub_spec);
            reveal(addr_op_spec);
            reveal(pair_spec);
        }
        let opmode = (op >> 6) & 7;
        if opmode == 3 || opmode == 7 {
            out.append(name);
            out.append(if opmode == 3 { "a.w " } else { "a.l " });
            self.decode_addr_op(op, if opmode == 3 { Size::Word } else { Size::Long }, out);
        } else if 4 <= opmode && opmode <= 6 && (op >> 3) & 7 <= 1 {
            out.append(name);
            out.append("x.");
            put_suffix(out, size_of_bits(opmode - 4));
            out.append(" ");
            put_pair(out, op);
        } else {
            self.decode_dyadic(name, op, out);
        }
    }

    fn decode_compare_eor(&mut self, op: u16, out: &mut String)
        requires
            old(self).wf(),
            old(self).ws@.len() == 0,
        ensures
            final(self).after(old(self)),
            emits(*final(self), final(out)@, old(out)@, compare_eor_spec(op, final(self).ws@, old(self).addr)),
    {
        proof {
            reveal(compare_eor_spec);
            reveal(addr_op_spec);
        }
        let opmode = (op >> 6) & 7;
        if opmode == 3 || opmode == 7 {
            out.append(if opmode == 3 { "cmpa.w " } else { "cmpa.l " });
            self.decode_addr_op(op, if opmode == 3 { Size::Word } else { Size::Long }, out);
        } else if opmode <= 2 {
            self.decode_dyadic("cmp", op, out);
        } else if (op >> 3) & 7 == 1 {
            out.append("cmpm.");
            put_suffix(out, size_of_bits(opmode - 4));
            out.append(" (");
            put_areg(out, op & 7);
            out.append(")+,(");
            put_areg(out, (op >> 9) & 7);
            out.append(")+");
        } else {
            self.decode_dyadic("eor", op, out);
        }
    }

    fn decode_and(&mut self, op: u16, out: &mut String)
        requires
            old(self).wf(),
            old(self).ws@.len() == 0,
        ensures
            final(self).after(old(self)),
            emits(*final(self), final(out)@, old(out)@, and_spec(op, final(self).ws@, old(self).addr)),
    {
        proof {
            reveal(and_spec);
            reveal(word_to_dn_spec);
            reveal(pair_spec);
        }
        let opmode = (op >> 6) & 7;
        let mode = (op >> 3) & 7;
        let dn = (op >> 9) & 7;
        let reg = op & 7;
        if opmode == 3 || opmode == 7 {
            out.append(if opmode == 3 { "mulu " } else { "muls " });
            self.decode_word_to_dn(op, out);
        } else if opmode == 4 && mode <= 1 {
            out.append("abcd ");
            put_pair(out, op);
        } else if opmode == 5 && mode == 0 {
            out.append("exg ");
            put_dreg(out, dn);
            out.append(",");
            put_dreg(out, reg);
        } else if opmode == 5 && mode == 1 {
            out.append("exg ");
            put_areg(out, dn);
            out.append(",");
            put_areg(out, reg);
        } else if opmode == 6 && mode == 1 {
            out.append("exg ");
            put_dreg(out, dn);
            out.append(",");
            put_areg(out, reg);
        } else {
            self.decode_dyadic("and", op, out);
        }
    }

    fn decode_shift(&mut self, op: u16, out: &mut String)
        requires
            old(self).wf(),
            old(self).ws@.len() == 0,
        ensures
            final(self).after(old(self)),
            emits(*final(self), final(out)@, old(out)@, shift_spec(op, final(self).ws@, old(self).addr)),
    {
        proof {
            reveal(shift_spec);
            reveal(unary_spec);
        }
        let sb = (op >> 6) & 3;
        let dir = (op >> 8) & 1;
        if sb == 3 {
            if op & 0x0800 != 0 {
                put_illegal(out, op);
            } else {
                put_shift_mnemonic(out, (op >> 9) & 3, dir);
                out.append(".w ");
                self.put_ea(out, (op >> 3) & 7, op & 7, Size::Word);
            }
            return;
        }
        let cf = (op >> 9) & 7;
        put_shift_mnemonic(out, (op >> 3) & 3, dir);
        out.append(".");
        put_suffix(out, size_of_bits(sb));
        out.append(" ");
        if (op >> 5) & 1 != 0 {
            put_dreg(out, cf);
        } else {
            out.append("#");
            put_udec(out, if cf == 0 { 8 } else { cf as u32 });
        }
        out.append(",");
        put_dreg(out, op & 7);
    }

    /// Decodes `op` and appends its text.
    fn decode(&mut self, op: u16, out: &mut String)
        requires
            old(self).wf(),
            old(self).ws@.len() == 0,
        ensures
            final(self).after(old(self)),
            emits(*final(self), final(out)@, old(out)@, decode_spec(op, final(self).ws@, old(self).addr)),
    {
        proof {
            reveal(decode_spec);
            reveal(moveq_spec);
        }
        let line = op >> 12;
        if line == 0 {
            self.decode_nibble0(op, out);
        } else if line <= 3 {
            self.decode_move(op, out);
        } else if line == 4 {
            self.decode_nibble4(op, out);
        } else if line == 5 {
            self.decode_nibble5(op, out);
        } else if line == 6 {
            self.decode_branch(op, out);
        } else if line == 7 {
            if op & 0x0100 != 0 {
                put_illegal(out, op);
            } else {
                out.append("moveq #");
                put_sdec(out, (op & 0xFF) as u8 as i8 as i32);
                out.append(",");
                put_dreg(out, (op >> 9) & 7);
            }
        } else if line == 8 {
            self.decode_or(op, out);
        } else if line == 9 {
            self.decode_add_sub("sub", op, out);
        } else if line == 0xB {
            self.decode_compare_eor(op, out);
        } else if line == 0xC {
            self.decode_and(op, out);
        } else if line == 0xD {
            self.decode_add_sub("add", op, out);
        } else if line == 0xE {
            self.decode_shift(op, out);
        } else {
            put_illegal(out, op);
        }
    }
}

/// What one instruction reads as, from its opcode `op`, the extension words
/// `ws` read after it and its address: the decoded text and the number of
/// extension words; or, where an operand names no addressing mode (mode 7
/// with register 5 to 7), the opcode as a raw word and no extension words.
pub open spec fn disasm_spec(op: u16, ws: Seq<u16>, addr: u32) -> (Seq<char>, nat) {
    if decode_spec(op, ws, addr).0.contains('?') {
        (illegal_spec(op), 0)
    } else {
        decode_spec(op, ws, addr)
    }
}

/// Whether the text shows an operand that names no addressing mode.
fn shows_unknown_operand(text: &String) -> (r: bool)
    ensures
        r == text@.contains('?'),
{
    let s = text.as_str();
    let n = s.unicode_len();
    let mut i: usize = 0;
    while i < n
        invariant
            i <= n,
            n == s@.len(),
            s@ == text@,
            forall|j: int| 0 <= j < i ==> s@[j] != '?',
        decreases n - i,
    {
        if s.get_char(i) == '?' {
            return true;
        }
        i = i + 1;
    }
    false
}

/// Disassembles one instruction.
///
/// `read` is called with a byte address and returns the 16-bit word there:
/// first at `addr` for the opcode, then at `addr + 2`, `addr + 4`, ... for the
/// extension words the instruction has. Any word that matches no 68000
/// encoding, an operand that names no addressing mode included, reads as
/// `dc.w $XXXX` with a length of 2. Otherwise `len` counts the opcode and its
/// extension words, in bytes.
pub fn disassemble<F: Fn(u32) -> u16>(read: F, addr: u32) -> (r: Insn)
    requires
        forall|a: u32| read.requires((a,)),
    ensures
        exists|op: u16, ws: Seq<u16>|
            {
                &&& read.ensures((addr,), op)
                &&& reads_from(read, addr, ws)
                &&& ws.len() == decode_spec(op, ws, addr).1
                &&& r.text@ == disasm_spec(op, ws, addr).0
                &&& r.len == 2 * (1 + disasm_spec(op, ws, addr).1)
            },
        2 <= r.len <= 10,
        r.text@.len() > 0,
{
    let op = read(addr);
    let mut d = Dis { read, addr, words_read: 1, ws: Ghost(Seq::empty()) };
    let mut text = String::new();
    d.decode(op, &mut text);
    if shows_unknown_operand(&text) {
        let mut raw = String::new();
        put_illegal(&mut raw, op);
        proof {
            lemma_illegal_nonempty(op);
        }
        return Insn { text: raw, len: 2 };
    }
    let r = Insn { text, len: d.words_read * 2 };
    proof {
        text_is_never_empty(op, d.ws@, addr);
    }
    assert(r.text@ == decode_spec(op, d.ws@, addr).0);
    r
}

} // verus!

verus! {

proof fn lemma_illegal_nonempty(op: u16)
    ensures
        illegal_spec(op).len() > 0,
{
    reveal_strlit("dc.w $");
}

proof fn lemma_nibble0_nonempty(op: u16, ws: Seq<u16>, addr: u32)
    ensures
        nibble0_spec(op, ws, addr).0.len() > 0,
{
    reveal(nibble0_spec);
    reveal(movep_spec);
    reveal(bit_op_spec);
    reveal(immediate_op_spec);
    reveal(ccr_sr_spec);
    reveal(imm_to_ea_spec);
    lemma_illegal_nonempty(op);
    reveal_strlit("movep.w ");
    reveal_strlit("movep.l ");
    reveal_strlit("btst");
    reveal_strlit("bchg");
    reveal_strlit("bclr");
    reveal_strlit("bset");
    reveal_strlit("ori");
    reveal_strlit("andi");
    reveal_strlit("eori");
    reveal_strlit("subi");
    reveal_strlit("addi");
    reveal_strlit("cmpi");
}

proof fn lemma_nibble4_nonempty(op: u16, ws: Seq<u16>, addr: u32)
    ensures
        nibble4_spec(op, ws, addr).0.len() > 0,
{
    reveal(nibble4_spec);
    reveal(unary_spec);
    reveal(movem_spec);
    reveal(nibble4_4e_spec);
    lemma_illegal_nonempty(op);
    reveal_strlit("chk ");
    reveal_strlit("lea ");
    reveal_strlit("nbcd ");
    reveal_strlit("swap ");
    reveal_strlit("pea ");
    reveal_strlit("ext.w ");
    reveal_strlit("ext.l ");
    reveal_strlit("movem.");
    reveal_strlit("move sr,");
    reveal_strlit("move ");
    reveal_strlit("tas ");
    reveal_strlit("negx.");
    reveal_strlit("clr.");
    reveal_strlit("neg.");
    reveal_strlit("not.");
    reveal_strlit("tst.");
    reveal_strlit("trap #");
    reveal_strlit("link ");
    reveal_strlit("unlk ");
    reveal_strlit("move usp,");
    reveal_strlit("reset");
    reveal_strlit("nop");
    reveal_strlit("stop #$");
    reveal_strlit("rte");
    reveal_strlit("rts");
    reveal_strlit("trapv");
    reveal_strlit("rtr");
    reveal_strlit("jsr ");
    reveal_strlit("jmp ");
}

proof fn lemma_lines_1_to_7_nonempty(op: u16, ws: Seq<u16>, addr: u32)
    ensures
        move_spec(op, ws, addr).0.len() > 0,
        nibble5_spec(op, ws, addr).0.len() > 0,
        branch_spec(op, ws, addr).0.len() > 0,
        moveq_spec(op).0.len() > 0,
{
    reveal(move_spec);
    reveal(nibble5_spec);
    reveal(unary_spec);
    reveal(branch_spec);
    reveal(moveq_spec);
    lemma_illegal_nonempty(op);
    reveal_strlit("movea.");
    reveal_strlit("move.");
    reveal_strlit("db");
    reveal_strlit("s");
    reveal_strlit("subq.");
    reveal_strlit("addq.");
    reveal_strlit("bra");
    reveal_strlit("bsr");
    reveal_strlit("b");
    reveal_strlit("moveq #");
}

proof fn lemma_lines_8_to_e_nonempty(op: u16, ws: Seq<u16>, addr: u32)
    ensures
        or_spec(op, ws, addr).0.len() > 0,
        add_sub_spec("add"@, op, ws, addr).0.len() > 0,
        add_sub_spec("sub"@, op, ws, addr).0.len() > 0,
        compare_eor_spec(op, ws, addr).0.len() > 0,
        and_spec(op, ws, addr).0.len() > 0,
        shift_spec(op, ws, addr).0.len() > 0,
{
    reveal(or_spec);
    reveal(add_sub_spec);
    reveal(compare_eor_spec);
    reveal(and_spec);
    reveal(shift_spec);
    reveal(word_to_dn_spec);
    reveal(pair_spec);
    reveal(dyadic_spec);
    reveal(addr_op_spec);
    reveal(unary_spec);
    lemma_illegal_nonempty(op);
    reveal_strlit("divu ");
    reveal_strlit("divs ");
    reveal_strlit("sbcd ");
    reveal_strlit("or");
    reveal_strlit("add");
    reveal_strlit("sub");
    reveal_strlit("cmpa.w ");
    reveal_strlit("cmpa.l ");
    reveal_strlit("cmp");
    reveal_strlit("cmpm.");
    reveal_strlit("eor");
    reveal_strlit("mulu ");
    reveal_strlit("muls ");
    reveal_strlit("abcd ");
    reveal_strlit("exg ");
    reveal_strlit("and");
    reveal_strlit("asl");
    reveal_strlit("asr");
    reveal_strlit("lsl");
    reveal_strlit("lsr");
    reveal_strlit("roxl");
    reveal_strlit("roxr");
    reveal_strlit("rol");
    reveal_strlit("ror");
}

/// Which condition field each unsigned-comparison mnemonic comes from.
proof fn lemma_cc_names(cond: u16, style: CcStyle)
    ensures
        cc_spec(cond, style) == "hi"@ ==> cond & 0xF == 2,
        cc_spec(cond, style) == "ls"@ ==> cond & 0xF == 3,
        cc_spec(cond, style) == "cc"@ ==> cond & 0xF == 4,
        cc_spec(cond, style) == "cs"@ ==> cond & 0xF == 5,
        cc_spec(cond, style) == "ne"@ ==> cond & 0xF == 6,
        cc_spec(cond, style) == "eq"@ ==> cond & 0xF == 7,
        cc_spec(cond, style) == "vc"@ ==> cond & 0xF == 8,
        cc_spec(cond, style) == "vs"@ ==> cond & 0xF == 9,
        cc_spec(cond, style) == "pl"@ ==> cond & 0xF == 10,
        cc_spec(cond, style) == "mi"@ ==> cond & 0xF == 11,
        cc_spec(cond, style) == "ge"@ ==> cond & 0xF == 12,
        cc_spec(cond, style) == "lt"@ ==> cond & 0xF == 13,
        cc_spec(cond, style) == "gt"@ ==> cond & 0xF == 14,
        cc_spec(cond, style) == "le"@ ==> cond & 0xF == 15,
        cc_spec(cond, style) == "t"@ ==> cond & 0xF == 0,
        cc_spec(cond, style) == "f"@ ==> cond & 0xF == 1,
{
    reveal_strlit("ra");
    reveal_strlit("t");
    reveal_strlit("f");
    reveal_strlit("sr");
    reveal_strlit("hi");
    reveal_strlit("ls");
    reveal_strlit("cc");
    reveal_strlit("cs");
    reveal_strlit("ne");
    reveal_strlit("eq");
    reveal_strlit("vc");
    reveal_strlit("vs");
    reveal_strlit("pl");
    reveal_strlit("mi");
    reveal_strlit("ge");
    reveal_strlit("lt");
    reveal_strlit("gt");
    reveal_strlit("le");
    crate::ops::branch::lemma_condition_numbers(cond);
    let s = cc_spec(cond, style);
    assert(s.len() >= 1);
    let c0 = s[0];
    let c1 = if s.len() >= 2 { s[1] } else { ' ' };
    assert(s == "hi"@ ==> c0 == 'h' && c1 == 'i');
    assert(s == "ls"@ ==> c0 == 'l' && c1 == 's');
    assert(s == "cc"@ ==> c0 == 'c' && c1 == 'c');
    assert(s == "cs"@ ==> c0 == 'c' && c1 == 's');
    assert(s == "ne"@ ==> c0 == 'n' && c1 == 'e');
    assert(s == "eq"@ ==> c0 == 'e' && c1 == 'q');
    assert(s == "vc"@ ==> c0 == 'v' && c1 == 'c');
    assert(s == "vs"@ ==> c0 == 'v' && c1 == 's');
    assert(s == "pl"@ ==> c0 == 'p' && c1 == 'l');
    assert(s == "mi"@ ==> c0 == 'm' && c1 == 'i');
    assert(s == "ge"@ ==> c0 == 'g' && c1 == 'e');
    assert(s == "lt"@ ==> c0 == 'l' && c1 == 't');
    assert(s == "gt"@ ==> c0 == 'g' && c1 == 't');
    assert(s == "le"@ ==> c0 == 'l' && c1 == 'e');
    assert(s == "t"@ ==> c0 == 't' && s.len() == 1);
    assert(s == "f"@ ==> c0 == 'f' && s.len() == 1);
}

/// A condition's mnemonic names the condition the CPU tests: after a
/// comparison of `dst` with `src` at `size` (the flags of `dst - src`), the
/// condition field that reads `hi` holds exactly when `dst` is higher
/// (unsigned), `ls` when it is lower or the same, `cc` when it is higher or
/// the same, `cs` when it is lower, `ne` when they differ and `eq` when they
/// are equal; `ge`, `lt`, `gt` and `le` compare them as signed numbers; `mi`
/// and `pl` hold when N is set or clear, `vs` and `vc` when V is; `t` always
/// holds and `f` never does; whatever the style.
pub proof fn mnemonics_name_the_conditions_tested(cond: u16, style: CcStyle, dst: u32, src: u32, size: Size)
    ensures
        ({
            let f = crate::flags::sub_spec(dst, src, false, size);
            let holds = crate::ops::branch::condition_spec((cond & 0xF) as u8, f.1, f.2, f.3, f.4);
            let a = (dst & size.spec_mask()) as int;
            let b = (src & size.spec_mask()) as int;
            let sa = crate::ops::branch::signed_of(dst, size);
            let sb = crate::ops::branch::signed_of(src, size);
            &&& cc_spec(cond, style) == "hi"@ ==> (holds == (a > b))
            &&& cc_spec(cond, style) == "ls"@ ==> (holds == (a <= b))
            &&& cc_spec(cond, style) == "cc"@ ==> (holds == (a >= b))
            &&& cc_spec(cond, style) == "cs"@ ==> (holds == (a < b))
            &&& cc_spec(cond, style) == "ne"@ ==> (holds == (a != b))
            &&& cc_spec(cond, style) == "eq"@ ==> (holds == (a == b))
            &&& cc_spec(cond, style) == "ge"@ ==> (holds == (sa >= sb))
            &&& cc_spec(cond, style) == "lt"@ ==> (holds == (sa < sb))
            &&& cc_spec(cond, style) == "gt"@ ==> (holds == (sa > sb))
            &&& cc_spec(cond, style) == "le"@ ==> (holds == (sa <= sb))
            &&& cc_spec(cond, style) == "mi"@ ==> (holds == f.1)
            &&& cc_spec(cond, style) == "pl"@ ==> (holds == !f.1)
            &&& cc_spec(cond, style) == "vs"@ ==> (holds == f.3)
            &&& cc_spec(cond, style) == "vc"@ ==> (holds == !f.3)
            &&& cc_spec(cond, style) == "t"@ ==> holds
            &&& cc_spec(cond, style) == "f"@ ==> !holds
        }),
{
    lemma_cc_names(cond, style);
    crate::ops::branch::lemma_condition_numbers(cond);
    crate::ops::branch::conditions_read_unsigned_comparisons(dst, src, size);
    crate::ops::branch::conditions_read_signed_comparisons(dst, src, size);
}

/// Every word disassembles to some text: an instruction's text, or `dc.w`
/// for a word that matches no encoding, is never empty.
pub proof fn text_is_never_empty(op: u16, ws: Seq<u16>, addr: u32)
    ensures
        decode_spec(op, ws, addr).0.len() > 0,
{
    reveal(decode_spec);
    lemma_illegal_nonempty(op);
    lemma_nibble0_nonempty(op, ws, addr);
    lemma_nibble4_nonempty(op, ws, addr);
    lemma_lines_1_to_7_nonempty(op, ws, addr);
    lemma_lines_8_to_e_nonempty(op, ws, addr);
}

} // verus!
