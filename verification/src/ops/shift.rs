//! `ASL`/`ASR`, `LSL`/`LSR`, `ROXL`/`ROXR`, `ROL`/`ROR`, register and memory forms.
//!
//! A count of zero leaves the operand alone, clears V and C (C takes X for the
//! `ROX` forms) and keeps X. Plain rotates leave X alone.

use crate::bus::Bus;
use crate::cpu::{ccr_bits, with_ccr, M68k};
use crate::decode::Handler;
use crate::ea::Size;
use crate::ops::alu::{self, Compute as AluCompute, Ops, Plan, Tail};
use crate::ops::arith::valid_mem_dst;
use crate::ops::{field_mode, field_reg, field_reg9, op_reg, op_reg9};
use vstd::prelude::*;

verus! {

#[derive(Clone, Copy, PartialEq, Eq, Debug, Structural)]
pub enum Kind {
    Arith,
    Logic,
    Rox,
    Rot,
}

impl Kind {
    pub fn from_bits(tt: u16) -> (k: Kind)
        ensures
            k == (if tt == 0 { Kind::Arith } else if tt == 1 { Kind::Logic } else if tt == 2 { Kind::Rox } else { Kind::Rot }),
    {
        if tt == 0 {
            Kind::Arith
        } else if tt == 1 {
            Kind::Logic
        } else if tt == 2 {
            Kind::Rox
        } else {
            Kind::Rot
        }
    }
}

/// A shift's result and flags.
#[derive(Clone, Copy, PartialEq, Eq, Debug, Structural)]
pub struct Out {
    pub res: u32,
    pub x: bool,
    pub n: bool,
    pub z: bool,
    pub v: bool,
    pub c: bool,
}

/// `ASL`'s V flag: the sign bit changed at any point during the shift, i.e. the
/// top `count + 1` bits of the operand are not all equal (any set bit when the
/// whole operand is shifted out).
pub open spec fn asl_overflow_spec(v: u32, count: u32, bits: u32) -> bool {
    if count >= bits {
        v != 0
    } else {
        let k = (count + 1) as u32;
        let top = (v as u64) >> ((bits - k) as u64);
        !(top == 0 || top == ((1u64 << (k as u64)) - 1) as u64)
    }
}

pub fn asl_overflow(v: u32, count: u32, bits: u32) -> (r: bool)
    requires
        bits == 8 || bits == 16 || bits == 32,
    ensures
        r == asl_overflow_spec(v, count, bits),
{
    if count >= bits {
        return v != 0;
    }
    let k = count + 1;
    assert(1u64 << (k as u64) >= 1) by (bit_vector) requires k <= 32;
    let top = (v as u64) >> ((bits - k) as u64);
    !(top == 0 || top == (1u64 << (k as u64)) - 1)
}

/// The result and flags of a shift or rotate of the `size`-bit operand `v0` by
/// `count` with incoming extend bit `x0`:
///
/// - `ASL`/`LSL` move zeros in from the right; C and X take the last bit
///   shifted out; `ASL` sets V if the sign bit changed at any point.
/// - `LSR` moves zeros in from the left, `ASR` copies of the sign bit.
/// - `ROL`/`ROR` rotate within the operand; C takes the bit that wrapped, X is
///   untouched.
/// - `ROXL`/`ROXR` rotate the `size + 1`-bit chain of X and the operand.
/// - A zero count leaves the operand and X, clears V, and sets C to X for the
///   `ROX` forms and clears it otherwise.
pub open spec fn shift_spec(kind: Kind, left: bool, v0: u32, count: u32, size: Size, x0: bool) -> Out {
    let m = size.spec_mask();
    let msb = size.spec_msb();
    let bits = (8 * size.spec_bytes()) as u32;
    let v = v0 & m;
    if count == 0 {
        Out { res: v, x: x0, n: v & msb != 0, z: v == 0, v: false, c: kind == Kind::Rox && x0 }
    } else {
        let t: (u32, bool, bool, bool) = if kind == Kind::Arith || kind == Kind::Logic {
            if left {
                let res = if count >= bits { 0u32 } else { (v << count) & m };
                let c = count <= bits && (v >> ((bits - count) as u32)) & 1 != 0;
                (res, c, c, kind == Kind::Arith && asl_overflow_spec(v, count, bits))
            } else if kind == Kind::Logic {
                let res = if count >= bits { 0u32 } else { v >> count };
                let c = count <= bits && (v >> ((count - 1) as u32)) & 1 != 0;
                (res, c, c, false)
            } else {
                let neg = v & msb != 0;
                let res = if count >= bits {
                    if neg { m } else { 0u32 }
                } else if neg {
                    (v >> count) | (m & !(m >> count))
                } else {
                    v >> count
                };
                let s = if count < bits { count } else { bits };
                let c = (v >> ((s - 1) as u32)) & 1 != 0;
                (res, c, c, false)
            }
        } else if kind == Kind::Rot {
            let r = count % bits;
            let res = if left {
                ((v << r) | (v >> (((bits - r) as u32) % bits))) & m
            } else {
                ((v >> r) | (v << (((bits - r) as u32) % bits))) & m
            };
            (res, x0, if left { res & 1 != 0 } else { res & msb != 0 }, false)
        } else {
            let n = (bits + 1) as u32;
            let r = (count % n) as u64;
            let xb: u64 = if x0 { 1 } else { 0 };
            let chain: u64 = (xb << (bits as u64)) | v as u64;
            let full: u64 = ((1u64 << (n as u64)) - 1) as u64;
            let rot = if left {
                ((chain << r) | (chain >> ((n as u64 - r) as u64))) & full
            } else {
                ((chain >> r) | (chain << ((n as u64 - r) as u64))) & full
            };
            let x = rot >> (bits as u64) != 0;
            ((rot & (m as u64)) as u32, x, x, false)
        };
        let res = t.0 & m;
        Out { res, x: t.1, n: res & msb != 0, z: res == 0, v: t.3, c: t.2 }
    }
}

/// Shifts or rotates `v0` at `size` by `count`, given the incoming X.
pub fn shift(kind: Kind, left: bool, v0: u32, count: u32, size: Size, x0: bool) -> (o: Out)
    requires
        count <= 63,
    ensures
        o == shift_spec(kind, left, v0, count, size, x0),
        o.res & size.mask() == o.res,
{
    let m = size.mask();
    let msb = size.msb();
    let bits = 8 * size.bytes();
    let v = v0 & m;
    proof {
        lemma_mask_facts(v0, m, msb);
    }
    if count == 0 {
        return Out { res: v, x: x0, n: v & msb != 0, z: v == 0, v: false, c: kind == Kind::Rox && x0 };
    }
    let mut res: u32 = 0;
    let mut x = x0;
    let mut c = false;
    let mut v_flag = false;
    if kind == Kind::Arith || kind == Kind::Logic {
        if left {
            res = if count >= bits {
                0
            } else {
                (v << count) & m
            };
            c = count <= bits && (v >> (bits - count)) & 1 != 0;
            v_flag = kind == Kind::Arith && asl_overflow(v, count, bits);
            x = c;
        } else if kind == Kind::Logic {
            res = if count >= bits {
                0
            } else {
                v >> count
            };
            c = count <= bits && (v >> (count - 1)) & 1 != 0;
            x = c;
        } else {
            let neg = v & msb != 0;
            res = if count >= bits {
                if neg {
                    m
                } else {
                    0
                }
            } else if neg {
                (v >> count) | (m & !(m >> count))
            } else {
                v >> count
            };
            let s = if count < bits {
                count
            } else {
                bits
            };
            c = (v >> (s - 1)) & 1 != 0;
            x = c;
        }
    } else if kind == Kind::Rot {
        let r = count % bits;
        res = if left {
            ((v << r) | (v >> ((bits - r) % bits))) & m
        } else {
            ((v >> r) | (v << ((bits - r) % bits))) & m
        };
        c = if left {
            res & 1 != 0
        } else {
            res & msb != 0
        };
    } else {
        let n = bits + 1;
        let r = (count % n) as u64;
        let xb: u64 = if x0 {
            1
        } else {
            0
        };
        let chain: u64 = (xb << (bits as u64)) | v as u64;
        assert(1u64 << (n as u64) >= 1) by (bit_vector) requires n <= 33;
        let full: u64 = (1u64 << (n as u64)) - 1;
        let rot = if left {
            ((chain << r) | (chain >> ((n as u64) - r))) & full
        } else {
            ((chain >> r) | (chain << ((n as u64) - r))) & full
        };
        x = rot >> (bits as u64) != 0;
        res = (rot & (m as u64)) as u32;
        c = x;
    }
    proof {
        lemma_res_masked(res, v, m, msb);
    }
    let res = res & m;
    Out { res, x, n: res & msb != 0, z: res == 0, v: v_flag, c }
}

/// A rotate by a multiple of the operand width leaves the operand unchanged.
pub proof fn rotate_by_width_is_identity(left: bool, v0: u32, count: u32, size: Size, x0: bool)
    requires
        1 <= count <= 63,
        count % (8 * size.spec_bytes()) as u32 == 0,
    ensures
        shift_spec(Kind::Rot, left, v0, count, size, x0).res == v0 & size.spec_mask(),
{
    let m = size.spec_mask();
    let v = v0 & m;
    let bits = (8 * size.spec_bytes()) as u32;
    assert(count % bits == 0);
    assert(((bits - 0) as u32) % bits == 0) by {
        match size {
            Size::Byte => assert(8u32 % 8u32 == 0),
            Size::Word => assert(16u32 % 16u32 == 0),
            Size::Long => assert(32u32 % 32u32 == 0),
        }
    }
    assert(((v << 0u32) | (v >> 0u32)) & m == v && ((v >> 0u32) | (v << 0u32)) & m == v && v & m == v) by (bit_vector)
        requires
            v == v0 & m,
    ;
    let r = count % bits;
    assert(r == 0);
    assert(((bits - r) as u32) % bits == 0);
}

proof fn lemma_mask_facts(v0: u32, m: u32, msb: u32)
    by (bit_vector)
    ensures
        (v0 & m) & m == v0 & m,
{
}

proof fn lemma_res_masked(res: u32, v: u32, m: u32, msb: u32)
    by (bit_vector)
    ensures
        (res & m) & m == res & m,
{
}

/// What a shift instruction computes once its operand is read.
#[derive(Clone, Copy)]
pub struct Compute {
    pub kind: Kind,
    pub left: bool,
    pub count: u32,
}

/// The CPU and the finish of a shift: the CCR takes all five flags of
/// [`shift_spec`] and the result is written back.
pub open spec fn apply_spec(cpu: M68k, c: Compute, size: Size, ops: Ops) -> (M68k, Tail) {
    let o = shift_spec(c.kind, c.left, ops.ea, c.count, size, cpu.spec_ccr_x());
    (with_ccr(cpu, o.x, o.n, o.z, o.v, o.c), Tail::Write(o.res))
}

/// Runs a shift.
pub fn apply(cpu: &mut M68k, c: Compute, size: Size, ops: Ops) -> (t: Tail)
    requires
        c.count <= 63,
    ensures
        (*final(cpu), t) == apply_spec(*old(cpu), c, size, ops),
{
    let x = cpu.ccr_x();
    let o = shift(c.kind, c.left, ops.ea, c.count, size, x);
    cpu.set_ccr(o.x, o.n, o.z, o.v, o.c);
    Tail::Write(o.res)
}

/// The shift count of a register form: `Dn mod 64`, or the immediate with 0
/// meaning 8.
pub fn register_count(cpu: &M68k, opcode: u16) -> (r: u32)
    ensures
        r == register_count_spec(*cpu, opcode),
        r <= 63,
{
    let ccc = field_reg9(opcode) as usize;
    if opcode & 0x0020 != 0 {
        let d = cpu.d[ccc];
        assert(d & 63 <= 63) by (bit_vector);
        d & 63
    } else if ccc == 0 {
        8
    } else {
        ccc as u32
    }
}

/// The count of a register form: `Dx` modulo 64, or the field with 0
/// meaning 8.
pub open spec fn register_count_spec(cpu: M68k, opcode: u16) -> u32 {
    if opcode & 0x0020 != 0 {
        cpu.d[op_reg9(opcode) as int] & 63
    } else if op_reg9(opcode) == 0 {
        8
    } else {
        op_reg9(opcode) as u32
    }
}

/// What [`register_form`] guarantees: the CPU after it (`new`) and the cycles it
/// returns (`r`), from the CPU before it (`old`).
pub open spec fn register_form_post(old: M68k, new: M68k, opcode: u16, size: Size, r: u32) -> bool {
    &&& r <= 2000
    &&& alu::direct_result(
        old,
        new,
        alu::plan_of(size, 0, op_reg(opcode), 0, false, ((if size == Size::Long { 4u32 } else { 2u32 }) + 2 * register_count_spec(old, opcode)) as u32),
        AluCompute::Shift(
            Compute {
                kind: if (opcode >> 3u16) & 3 == 0 { Kind::Arith } else if (opcode >> 3u16) & 3 == 1 { Kind::Logic } else if (opcode >> 3u16) & 3 == 2 { Kind::Rox } else { Kind::Rot },
                left: opcode & 0x0100 != 0,
                count: register_count_spec(old, opcode),
            },
        ),
        r,
    )
}

/// The register forms, `count,Dy`.
pub fn register_form<B: Bus>(cpu: &mut M68k, bus: &mut B, opcode: u16, size: Size) -> (r: u32)
    ensures
        register_form_post(*old(cpu), *final(cpu), opcode, size, r),
{
    let kind = Kind::from_bits((opcode >> 3) & 3);
    let left = opcode & 0x0100 != 0;
    let count = register_count(cpu, opcode);
    let base = if size == Size::Long {
        4
    } else {
        2
    };
    let plan = Plan::new(size, 0, field_reg(opcode)).idle(base + 2 * count);
    alu::run(cpu, bus, &plan, AluCompute::Shift(Compute { kind, left, count }))
}

/// What [`memory_form`] guarantees: the CPU after it (`new`) and the cycles it
/// returns (`r`), from the CPU before it (`old`).
pub open spec fn memory_form_post(old: M68k, new: M68k, opcode: u16, r: u32) -> bool {
    &&& r <= 2000
    &&& alu::indirect_plan(alu::plan_of(Size::Word, (opcode >> 3u16) & 7, op_reg(opcode), 0, true, 0)) ==> alu::indirect_run(
        old,
        new,
        alu::plan_of(Size::Word, (opcode >> 3u16) & 7, op_reg(opcode), 0, true, 0),
        AluCompute::Shift(
            Compute {
                kind: if (opcode >> 9u16) & 3 == 0 { Kind::Arith } else if (opcode >> 9u16) & 3 == 1 { Kind::Logic } else if (opcode >> 9u16) & 3 == 2 { Kind::Rox } else { Kind::Rot },
                left: opcode & 0x0100 != 0,
                count: 1,
            },
        ),
        r,
    )
}

/// The memory forms: a word shifted by one.
pub fn memory_form<B: Bus>(cpu: &mut M68k, bus: &mut B, opcode: u16) -> (r: u32)
    ensures
        memory_form_post(*old(cpu), *final(cpu), opcode, r),
{
    let kind = Kind::from_bits((opcode >> 9) & 3);
    let left = opcode & 0x0100 != 0;
    let (mode, reg) = (field_mode(opcode), field_reg(opcode));
    if !crate::ea::valid_ea(mode, reg) {
        return crate::exception::illegal_instruction(cpu, bus, opcode);
    }
    let plan = Plan::new(Size::Word, mode, reg).writes();
    alu::run(cpu, bus, &plan, AluCompute::Shift(Compute { kind, left, count: 1 }))
}

/// The handler this module assigns: line E's register forms at any size, and
/// its memory forms (bit 11 clear) on alterable memory.
pub open spec fn claim_spec(op: u16) -> Option<Handler> {
    let sb = (op >> 6u16) & 3;
    if op >> 12u16 != 0xE {
        None
    } else if sb != 3 {
        Some(Handler::ShiftReg(crate::ea::size_from_bits(sb)))
    } else if op & 0x0800 == 0 && crate::ops::mem_alterable_ok((op >> 3u16) & 7, op_reg(op)) {
        Some(Handler::ShiftMem)
    } else {
        None
    }
}

/// The handler this module assigns to `op`, if any.
pub fn claim(op: u16) -> (r: Option<Handler>)
    ensures
        r == claim_spec(op),
{
    if op >> 12 != 0xE {
        return None;
    }
    let size_bits = (op >> 6) & 3;
    if size_bits != 3 {
        return Some(Handler::ShiftReg(crate::ops::arith::size_of_bits(size_bits)));
    }
    if op & 0x0800 == 0 && valid_mem_dst(field_mode(op), field_reg(op)) {
        return Some(Handler::ShiftMem);
    }
    None
}

/// Installs this family's handlers into the dispatch table: the opcodes
/// `claim_spec` gives a handler get it, the others keep theirs.
pub fn register(table: &mut Vec<Handler>)
    requires
        old(table).len() == 65536,
    ensures
        final(table).len() == 65536,
        forall|i: int|
            0 <= i < 65536 ==> #[trigger] final(table)@[i] == (match claim_spec(i as u16) {
                Some(h) => h,
                None => old(table)@[i],
            }),
{
    crate::ops::install(table, 3);
}

} // verus!
