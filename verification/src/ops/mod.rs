//! Instruction handlers, one module per instruction family.

pub mod alu;
pub mod arith;
pub mod bcd;
pub mod bits;
pub mod branch;
pub mod logic;
pub mod move_;
pub mod muldiv;
pub mod shift;
pub mod system;
pub mod trap;

use crate::decode::Handler;
use crate::ea::{size_from_bits, Size};
use vstd::prelude::*;

verus! {

/// Bits 5-3 of an opcode: the `<ea>` mode.
pub open spec fn op_mode(op: u16) -> u16 {
    (op >> 3u16) & 7
}

/// Bits 2-0 of an opcode: the `<ea>` register.
pub open spec fn op_reg(op: u16) -> u16 {
    op & 7
}

/// Bits 11-9 of an opcode: the second register field.
pub open spec fn op_reg9(op: u16) -> u16 {
    (op >> 9u16) & 7
}

/// A source operand of this size: any mode but a byte-sized `An` and mode 7
/// past the immediate.
pub open spec fn src_ok(mode: u16, reg: u16, size: Size) -> bool {
    if mode == 1 { size != Size::Byte } else if mode == 7 { reg <= 4 } else { true }
}

/// A data source: any mode but `An` and mode 7 past the immediate.
pub open spec fn data_src_ok(mode: u16, reg: u16) -> bool {
    if mode == 1 { false } else if mode == 7 { reg <= 4 } else { true }
}

/// Alterable memory: modes 2-6 and the absolute modes.
pub open spec fn mem_alterable_ok(mode: u16, reg: u16) -> bool {
    if mode == 0 || mode == 1 { false } else if mode == 7 { reg <= 1 } else { true }
}

/// Data-alterable: a data register or alterable memory.
pub open spec fn data_alterable_ok(mode: u16, reg: u16) -> bool {
    mode == 0 || mem_alterable_ok(mode, reg)
}

/// The opcode's three-bit fields are below 8.
pub proof fn lemma_op_fields(op: u16)
    ensures
        (op >> 3u16) & 7 < 8,
        op & 7 < 8,
        (op >> 9u16) & 7 < 8,
{
    assert((op >> 3u16) & 7 < 8 && op & 7 < 8 && (op >> 9u16) & 7 < 8) by (bit_vector);
}

/// The opcode's mode field, bits 5-3.
pub fn field_mode(op: u16) -> (r: u16)
    ensures
        r == op_mode(op),
        r < 8,
{
    proof {
        lemma_op_fields(op);
    }
    (op >> 3) & 7
}

/// The opcode's register field, bits 2-0.
pub fn field_reg(op: u16) -> (r: u16)
    ensures
        r == op_reg(op),
        r < 8,
{
    proof {
        lemma_op_fields(op);
    }
    op & 7
}

/// The opcode's upper register field, bits 11-9.
pub fn field_reg9(op: u16) -> (r: u16)
    ensures
        r == op_reg9(op),
        r < 8,
{
    proof {
        lemma_op_fields(op);
    }
    (op >> 9) & 7
}

/// The claim of family `f`, in installation order: `MOVE`, arithmetic, logic,
/// shifts, bits, BCD, multiply/divide, branches, system, traps.
pub open spec fn family_claim(f: u8, op: u16) -> Option<Handler> {
    if f == 0 {
        move_::claim_spec(op)
    } else if f == 1 {
        arith::claim_spec(op)
    } else if f == 2 {
        logic::claim_spec(op)
    } else if f == 3 {
        shift::claim_spec(op)
    } else if f == 4 {
        bits::claim_spec(op)
    } else if f == 5 {
        bcd::claim_spec(op)
    } else if f == 6 {
        muldiv::claim_spec(op)
    } else if f == 7 {
        branch::claim_spec(op)
    } else if f == 8 {
        system::claim_spec(op)
    } else {
        trap::claim_spec(op)
    }
}

/// The first claim on `op` among families `f..10`.
pub open spec fn claim_from(op: u16, f: nat) -> Option<Handler>
    decreases 10 - f,
{
    if f >= 10 {
        None
    } else {
        match family_claim(f as u8, op) {
            Some(h) => Some(h),
            None => claim_from(op, f + 1),
        }
    }
}

/// A table entry holding `base` after families `0..n` are installed over it:
/// the last of them that claims `op`, or `base` if none does.
pub open spec fn installed_over(base: Handler, op: u16, n: nat) -> Handler
    decreases n,
{
    if n == 0 {
        base
    } else {
        match family_claim((n - 1) as u8, op) {
            Some(h) => h,
            None => installed_over(base, op, (n - 1) as nat),
        }
    }
}

/// The handler the instruction families assign to `op`, or `None` for an
/// opcode no family claims. The families claim disjoint sets of opcodes.
pub fn claim(op: u16) -> (r: Option<Handler>)
    ensures
        r == claim_from(op, 0),
{
    proof {
        reveal_with_fuel(claim_from, 11);
    }
    if let Some(h) = move_::claim(op) {
        return Some(h);
    }
    if let Some(h) = arith::claim(op) {
        return Some(h);
    }
    if let Some(h) = logic::claim(op) {
        return Some(h);
    }
    if let Some(h) = shift::claim(op) {
        return Some(h);
    }
    if let Some(h) = bits::claim(op) {
        return Some(h);
    }
    if let Some(h) = bcd::claim(op) {
        return Some(h);
    }
    if let Some(h) = muldiv::claim(op) {
        return Some(h);
    }
    if let Some(h) = branch::claim(op) {
        return Some(h);
    }
    if let Some(h) = system::claim(op) {
        return Some(h);
    }
    if let Some(h) = trap::claim(op) {
        return Some(h);
    }
    None
}

/// Installs one family's handlers into the dispatch table: each opcode the
/// family claims gets its handler, the others keep theirs.
pub fn install(table: &mut Vec<Handler>, family: u8)
    requires
        old(table).len() == 65536,
    ensures
        final(table).len() == 65536,
        forall|i: int|
            0 <= i < 65536 ==> #[trigger] final(table)@[i] == (match family_claim(if family <= 8 { family } else { 9 }, i as u16) {
                Some(h) => h,
                None => old(table)@[i],
            }),
{
    let ghost before = table@;
    let mut op: usize = 0;
    while op < 65536
        invariant
            table.len() == 65536,
            before.len() == 65536,
            op <= 65536,
            forall|i: int|
                0 <= i < op ==> #[trigger] table@[i] == (match family_claim(if family <= 8 { family } else { 9 }, i as u16) {
                    Some(h) => h,
                    None => before[i],
                }),
            forall|i: int| op <= i < 65536 ==> #[trigger] table@[i] == before[i],
        decreases 65536 - op,
    {
        let o = op as u16;
        let h = match family {
            0 => move_::claim(o),
            1 => arith::claim(o),
            2 => logic::claim(o),
            3 => shift::claim(o),
            4 => bits::claim(o),
            5 => bcd::claim(o),
            6 => muldiv::claim(o),
            7 => branch::claim(o),
            8 => system::claim(o),
            _ => trap::claim(o),
        };
        if let Some(h) = h {
            table.set(op, h);
        }
        op = op + 1;
    }
}

/// Installs every handler into the dispatch table. Opcodes no family claims
/// keep what they held (the table's illegal-instruction default).
pub fn register_all(table: &mut Vec<Handler>)
    requires
        old(table).len() == 65536,
    ensures
        final(table).len() == 65536,
        forall|i: int| 0 <= i < 65536 ==> #[trigger] final(table)@[i] == installed_over(old(table)@[i], i as u16, 10),
{
    let ghost before = table@;
    let mut f: u8 = 0;
    while f < 10
        invariant
            table.len() == 65536,
            before.len() == 65536,
            f <= 10,
            forall|i: int| 0 <= i < 65536 ==> #[trigger] table@[i] == installed_over(before[i], i as u16, f as nat),
        decreases 10 - f,
    {
        install(table, f);
        f = f + 1;
    }
}

} // verus!

