//! Addressing-mode category predicates from the 68000 PRM.

use vstd::prelude::*;

verus! {

/// Any source operand of this size. `An` is not a byte-sized source and mode 7
/// stops at the immediate.
pub fn src(mode: u16, reg: u16, byte: bool) -> (r: bool)
    ensures
        r == (if mode == 1 { !byte } else if mode == 7 { reg <= 4 } else { true }),
{
    match mode {
        1 => !byte,
        7 => reg <= 4,
        _ => true,
    }
}

/// Alterable memory: no registers, no PC-relative, no immediate.
pub fn mem_alterable(mode: u16, reg: u16) -> (r: bool)
    ensures
        r == (if mode == 0 || mode == 1 { false } else if mode == 7 { reg <= 1 } else { true }),
{
    match mode {
        0 | 1 => false,
        7 => reg <= 1,
        _ => true,
    }
}

/// Data-alterable: alterable memory plus a data register.
pub fn data_alterable(mode: u16, reg: u16) -> (r: bool)
    ensures
        r == (mode == 0 || (mode != 1 && (mode != 7 || reg <= 1))),
{
    mode == 0 || mem_alterable(mode, reg)
}

/// The control modes: memory whose address does not depend on the access.
pub open spec fn is_control(mode: u16, reg: u16) -> bool {
    mode == 2 || mode == 5 || mode == 6 || (mode == 7 && reg <= 3)
}

/// Control: `(An)`, `(d16,An)`, `(d8,An,Xn)`, the two absolutes and the two
/// PC-relative modes.
pub fn control(mode: u16, reg: u16) -> (r: bool)
    ensures
        r == is_control(mode, reg),
{
    mode == 2 || mode == 5 || mode == 6 || (mode == 7 && reg <= 3)
}

/// `BTST`'s operand set: data-alterable plus the PC-relative modes, and the
/// immediate for the dynamic form only.
pub open spec fn spec_btst_src(mode: u16, reg: u16, immediate_ok: bool) -> bool {
    if mode == 0 { true } else if mode == 1 { false } else if mode == 7 {
        reg <= 3 || (reg == 4 && immediate_ok)
    } else { true }
}

pub fn btst_src(mode: u16, reg: u16, immediate_ok: bool) -> (r: bool)
    ensures
        r == spec_btst_src(mode, reg, immediate_ok),
{
    match mode {
        0 => true,
        1 => false,
        7 => reg <= 3 || (reg == 4 && immediate_ok),
        _ => true,
    }
}

} // verus!
